use ggez::graphics::Color;
use pixel_handler::structs::grid_position::GridPosition;
use pixel_handler::structs::pixel::Pixel;
use pixel_handler::structs::shape::{Rect, Shape};

const CELL_SIZE: (i32, i32) = (15, 15);

#[test]
fn pixel_new_keeps_position_and_color() {
    let position = GridPosition::new(10, 10, CELL_SIZE);
    let pixel = Pixel::new(position, Color::BLUE);
    assert_eq!(pixel.position, position);
    assert_eq!(pixel.color, Color::BLUE);
}

#[test]
fn append_to_mesh_adds_the_filled_square_of_the_cell() {
    let mut pixel = Pixel::new(GridPosition::new(2, 3, CELL_SIZE), Color::RED);
    let mut mesh = Vec::new();
    pixel.append_to_mesh(&mut mesh);
    assert_eq!(
        mesh,
        vec![Shape::Rectangle { bounds: Rect { x: 30, y: 45, w: 15, h: 15 }, color: Color::RED }]
    );
    assert_eq!(pixel.position, GridPosition::new(2, 3, CELL_SIZE));
    assert_eq!(pixel.color, Color::RED);
}

#[test]
fn append_to_mesh_adds_at_the_end() {
    let mut first = Pixel::new(GridPosition::new(0, 0, CELL_SIZE), Color::RED);
    let mut second = Pixel::new(GridPosition::new(1, 0, CELL_SIZE), Color::GREEN);
    let mut mesh = Vec::new();
    first.append_to_mesh(&mut mesh);
    second.append_to_mesh(&mut mesh);
    first.append_to_mesh(&mut mesh);
    assert_eq!(
        mesh,
        vec![
            Shape::Rectangle { bounds: Rect { x: 0, y: 0, w: 15, h: 15 }, color: Color::RED },
            Shape::Rectangle { bounds: Rect { x: 15, y: 0, w: 15, h: 15 }, color: Color::GREEN },
            Shape::Rectangle { bounds: Rect { x: 0, y: 0, w: 15, h: 15 }, color: Color::RED },
        ]
    );
}

#[test]
fn append_to_mesh_uses_the_position_the_cell_has_now() {
    let mut pixel = Pixel::new(GridPosition::new(0, 0, CELL_SIZE), Color::BLUE);
    pixel.position = pixel.position + GridPosition::new(0, 1, CELL_SIZE);
    pixel.color = Color::WHITE;
    let mut mesh = Vec::new();
    pixel.append_to_mesh(&mut mesh);
    assert_eq!(
        mesh,
        vec![Shape::Rectangle { bounds: Rect { x: 0, y: 15, w: 15, h: 15 }, color: Color::WHITE }]
    );
}
