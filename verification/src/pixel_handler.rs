//! The registry of cells and the queue of drawables of one frame.

use crate::structs::drawable_object::{
    append_decimal, decimal, DrawParam, DrawableObject, DrawableObjectView, TextLabel,
    TextLabelView,
};
use crate::structs::grid_position::GridPosition;
use crate::structs::pixel::Pixel;
use crate::structs::shape::{color_of_rgba, Rect, Shape};
use ggez::graphics::Color;
use std::collections::HashMap;
use vstd::prelude::*;
use vstd::relations::injective_on;
use vstd::set_lib::{lemma_map_size, lemma_map_size_bound};
use vstd::std_specs::hash::{group_hash_axioms, spec_hash_map_iter};
use vstd::std_specs::iter::IteratorSpec;

verus! {

broadcast use group_hash_axioms;

/// One entry of the draw queue, as the contracts see it.
pub type Queued = (DrawParam, DrawableObjectView);

/// How many grid lines fit along one axis of a viewport: the whole part of
/// the viewport's extent over the cell's. Cells or viewports without a
/// positive extent get no lines.
pub open spec fn line_count(extent: i32, cell: i32) -> nat {
    if 0 < cell && 0 < extent {
        (extent / cell) as nat
    } else {
        0
    }
}

/// The grid line above the given row, from the left edge of the viewport to
/// its right edge.
pub open spec fn horizontal_line(
    row: int,
    window_size: (i32, i32),
    cell_size: (i32, i32),
    color: Color,
) -> Shape {
    Shape::Line {
        from: (0i32, (row * cell_size.1) as i32),
        to: (window_size.0, (row * cell_size.1) as i32),
        width: 1,
        color,
    }
}

/// The grid line left of the given column, from the top edge of the viewport
/// to its bottom edge.
pub open spec fn vertical_line(
    column: int,
    window_size: (i32, i32),
    cell_size: (i32, i32),
    color: Color,
) -> Shape {
    Shape::Line {
        from: ((column * cell_size.0) as i32, 0i32),
        to: ((column * cell_size.0) as i32, window_size.1),
        width: 1,
        color,
    }
}

/// The lines of the grid over a viewport: the horizontal ones from the top
/// down, then the vertical ones from the left.
pub open spec fn grid_lines(window_size: (i32, i32), cell_size: (i32, i32), color: Color) -> Seq<
    Shape,
> {
    Seq::new(
        line_count(window_size.1, cell_size.1),
        |row: int| horizontal_line(row, window_size, cell_size, color),
    ) + Seq::new(
        line_count(window_size.0, cell_size.0),
        |column: int| vertical_line(column, window_size, cell_size, color),
    )
}

/// The letters every frame-rate label starts with.
pub open spec fn fps_prefix() -> Seq<char> {
    seq!['F', 'p', 's', ':', ' ']
}

/// The box of the frame-rate readout: 80 wide and 20 high, in the top-left
/// corner.
pub open spec fn fps_box() -> Rect {
    Rect { x: 0, y: 0, w: 80, h: 20 }
}

/// The black backdrop of the frame-rate readout.
pub open spec fn fps_backdrop() -> Queued {
    (
        DrawParam::unmoved(),
        DrawableObjectView::Mesh(
            seq![Shape::Rectangle { bounds: fps_box(), color: color_of_rgba(0x0000_00FF) }],
        ),
    )
}

/// The label of the frame-rate readout.
pub open spec fn fps_label(fps: u32) -> Queued {
    (
        DrawParam::unmoved(),
        DrawableObjectView::Text(
            TextLabelView {
                content: fps_prefix() + decimal(fps as nat),
                bounds: (80i32, 20i32),
                scale: 18,
            },
        ),
    )
}

/// The cells after one more is filed: it stands under the key of its
/// position, in place of any cell that stood there.
pub open spec fn registered(cells: Map<u128, Pixel>, pixel: Pixel) -> Map<u128, Pixel> {
    cells.insert(pixel.position.key(), pixel)
}

/// Filing the same cell a second time changes nothing: the registry holds
/// it once, under the key of its position, and holds as many cells as after
/// the first time.
pub proof fn lemma_register_is_idempotent(cells: Map<u128, Pixel>, pixel: Pixel)
    ensures
        registered(registered(cells, pixel), pixel) == registered(cells, pixel),
        registered(cells, pixel).contains_key(pixel.position.key()),
        registered(cells, pixel)[pixel.position.key()] == pixel,
        cells.dom().finite() ==> registered(registered(cells, pixel), pixel).len() == registered(
            cells,
            pixel,
        ).len(),
{
    assert(registered(registered(cells, pixel), pixel) =~= registered(cells, pixel));
}

/// Filing a cell adds one to the number of cells where its position was
/// free, and leaves the number as it was where a cell stood there.
pub proof fn lemma_register_counts(cells: Map<u128, Pixel>, pixel: Pixel)
    requires
        cells.dom().finite(),
    ensures
        registered(cells, pixel).dom().finite(),
        registered(cells, pixel).len() == cells.len() + if cells.contains_key(
            pixel.position.key(),
        ) {
            0int
        } else {
            1int
        },
{
    assert(registered(cells, pixel).dom() =~= cells.dom().insert(pixel.position.key()));
}

/// The sequence names every key of the map exactly once.
pub open spec fn lists_each_once(cells: Map<u128, Pixel>, order: Seq<u128>) -> bool {
    order.no_duplicates() && order.to_set() == cells.dom()
}

/// The squares of the cells that the sequence names, in its order.
pub open spec fn shapes_in_order(cells: Map<u128, Pixel>, order: Seq<u128>) -> Seq<Shape> {
    order.map_values(|key: u128| cells[key].shape())
}

/// The batch holds the square of every cell of the map once, in some order.
pub open spec fn batch_of(cells: Map<u128, Pixel>, batch: Seq<Shape>) -> bool {
    exists|order: Seq<u128>| #[trigger]
        lists_each_once(cells, order) && batch == shapes_in_order(cells, order)
}

/// The key under which the cell filed under `key` belongs by its position.
pub open spec fn current_key(cells: Map<u128, Pixel>, key: u128) -> u128 {
    cells[key].position.key()
}

/// No two cells of the map are at the same position.
pub open spec fn positions_differ(cells: Map<u128, Pixel>) -> bool {
    forall|first: u128, second: u128|
        cells.contains_key(first) && cells.contains_key(second) && first != second
            ==> #[trigger] current_key(cells, first) != #[trigger] current_key(cells, second)
}

/// `after` holds cells of `before` and no others, each filed under the key
/// of its position, and it has a cell at every position at which `before`
/// has one.
pub open spec fn filed_anew(before: Map<u128, Pixel>, after: Map<u128, Pixel>) -> bool {
    &&& after.dom() == before.dom().map(|key: u128| current_key(before, key))
    &&& forall|key: u128| #[trigger]
        after.contains_key(key) ==> after[key].position.key() == key && exists|from: u128|
            before.contains_key(from) && before[from] == after[key]
}

/// Cells that are each filed under the key of their own position are at
/// different positions.
pub proof fn lemma_filed_cells_differ(cells: Map<u128, Pixel>)
    requires
        forall|key: u128| #[trigger]
            cells.contains_key(key) ==> cells[key].position.key() == key,
    ensures
        positions_differ(cells),
{
}

/// Filing anew never adds a cell, and it keeps their number where no two
/// cells are at the same position.
pub proof fn lemma_filed_anew_counts(before: Map<u128, Pixel>, after: Map<u128, Pixel>)
    requires
        before.dom().finite(),
        filed_anew(before, after),
    ensures
        after.dom().finite(),
        after.len() <= before.len(),
        positions_differ(before) ==> after.len() == before.len(),
{
    let moved = |key: u128| current_key(before, key);
    lemma_map_size_bound(before.dom(), after.dom(), moved);
    if positions_differ(before) {
        assert(injective_on(moved, before.dom())) by {
            assert forall|first: u128, second: u128|
                before.dom().contains(first) && before.dom().contains(second) && #[trigger] moved(
                    first,
                ) == #[trigger] moved(second) implies first == second by {
                if first != second {
                    assert(current_key(before, first) != current_key(before, second));
                }
            }
        }
        lemma_map_size(before.dom(), after.dom(), moved);
    }
}

/// What one frame draws: first the squares of the cells, as one mesh, then
/// the drawables that were queued, oldest first.
#[derive(Debug)]
pub struct Frame {
    pub cells: Vec<Shape>,
    pub queued: Vec<(DrawParam, DrawableObject)>,
}

impl Frame {
    /// The queued drawables of the frame, oldest first.
    pub open spec fn queue(&self) -> Seq<Queued> {
        self.queued@.map_values(|entry: (DrawParam, DrawableObject)| (entry.0, entry.1@))
    }
}

/// The cells of a grid and the drawables queued since the last frame.
///
/// `pixels` files every cell under the key of a coordinate. A cell's
/// `position` may be changed in place; the cell is then filed under a stale
/// key until `update` files it anew.
pub struct PixelHandler {
    pub pixels: HashMap<u128, Pixel>,
    draw_stack: Vec<(DrawParam, DrawableObject)>,
    cell_size: (i32, i32),
}

impl PixelHandler {
    /// The queued drawables, oldest first.
    pub closed spec fn queue(&self) -> Seq<Queued> {
        self.draw_stack@.map_values(|entry: (DrawParam, DrawableObject)| (entry.0, entry.1@))
    }

    /// The registered cells, each under the key it is filed under.
    pub closed spec fn cells(&self) -> Map<u128, Pixel> {
        self.pixels@
    }

    /// The size of the grid's cells.
    pub closed spec fn spec_cell_size(&self) -> (i32, i32) {
        self.cell_size
    }

    /// Every cell is filed under the key of its own position.
    pub open spec fn filed_by_position(&self) -> bool {
        forall|key: u128| #[trigger]
            self.cells().contains_key(key) ==> self.cells()[key].position.key() == key
    }

    /// A registry without cells and with nothing queued.
    pub fn new(cell_size: (i32, i32)) -> (handler: PixelHandler)
        ensures
            handler.cells() == Map::<u128, Pixel>::empty(),
            handler.queue() == Seq::<Queued>::empty(),
            handler.cell_size() == cell_size,
            handler.filed_by_position(),
    {
        PixelHandler { draw_stack: Vec::new(), pixels: HashMap::new(), cell_size }
    }

    /// The size of the grid's cells.
    #[verifier::when_used_as_spec(spec_cell_size)]
    pub fn cell_size(&self) -> (cell_size: (i32, i32))
        ensures
            cell_size == self.spec_cell_size(),
    {
        self.cell_size
    }

    /// The queued drawables, oldest first.
    pub fn draw_stack(&self) -> (entries: &Vec<(DrawParam, DrawableObject)>)
        ensures
            entries@.map_values(|entry: (DrawParam, DrawableObject)| (entry.0, entry.1@))
                == self.queue(),
    {
        &self.draw_stack
    }

    /// Puts a drawable at the end of the queue.
    fn add_to_draw_stack(&mut self, drawable: DrawableObject, params: DrawParam)
        ensures
            final(self).queue() == old(self).queue().push((params, drawable@)),
            final(self).cells() == old(self).cells(),
            final(self).cell_size() == old(self).cell_size(),
    {
        self.draw_stack.push((params, drawable));
    }

    /// Queues the lines of the grid over a viewport of the given size, in
    /// the given colour, as one mesh.
    pub fn draw_grid(&mut self, window_size: (i32, i32), grid_color: Color)
        ensures
            final(self).queue() == old(self).queue().push(
                (
                    DrawParam::unmoved(),
                    DrawableObjectView::Mesh(
                        grid_lines(window_size, old(self).cell_size(), grid_color),
                    ),
                ),
            ),
            final(self).cells() == old(self).cells(),
            final(self).cell_size() == old(self).cell_size(),
    {
        let cell_size = self.cell_size;
        let mut mesh_builder: Vec<Shape> = Vec::new();

        let horizontal_lines: i32 = axis_lines(window_size.1, cell_size.1);
        let vertical_lines: i32 = axis_lines(window_size.0, cell_size.0);

        let mut y: i32 = 0;
        while y < horizontal_lines
            invariant
                0 <= y <= horizontal_lines,
                horizontal_lines == line_count(window_size.1, cell_size.1),
                horizontal_lines * cell_size.1 <= window_size.1 || horizontal_lines == 0,
                mesh_builder@ == Seq::new(
                    y as nat,
                    |row: int| horizontal_line(row, window_size, cell_size, grid_color),
                ),
            decreases horizontal_lines - y,
        {
            assert(0 <= y * cell_size.1 <= window_size.1) by (nonlinear_arith)
                requires
                    0 <= y < horizontal_lines,
                    horizontal_lines * cell_size.1 <= window_size.1,
                    0 < cell_size.1,
            ;
            let y_column: i32 = y * cell_size.1;
            mesh_builder.push(
                Shape::Line {
                    from: (0, y_column),
                    to: (window_size.0, y_column),
                    width: 1,
                    color: grid_color,
                },
            );
            y = y + 1;
        }

        let ghost across = mesh_builder@;
        let mut x: i32 = 0;
        while x < vertical_lines
            invariant
                0 <= x <= vertical_lines,
                vertical_lines == line_count(window_size.0, cell_size.0),
                vertical_lines * cell_size.0 <= window_size.0 || vertical_lines == 0,
                mesh_builder@ == across + Seq::new(
                    x as nat,
                    |column: int| vertical_line(column, window_size, cell_size, grid_color),
                ),
            decreases vertical_lines - x,
        {
            assert(0 <= x * cell_size.0 <= window_size.0) by (nonlinear_arith)
                requires
                    0 <= x < vertical_lines,
                    vertical_lines * cell_size.0 <= window_size.0,
                    0 < cell_size.0,
            ;
            let x_row: i32 = x * cell_size.0;
            mesh_builder.push(
                Shape::Line {
                    from: (x_row, 0),
                    to: (x_row, window_size.1),
                    width: 1,
                    color: grid_color,
                },
            );
            x = x + 1;
        }

        self.add_to_draw_stack(DrawableObject::Mesh(mesh_builder), DrawParam::default());
    }

    /// Queues the frame-rate readout: a black box in the top-left corner and,
    /// over it, the label `Fps: ` followed by the rate in decimal.
    pub fn display_fps(&mut self, fps: u32)
        ensures
            final(self).queue() == old(self).queue().push(fps_backdrop()).push(fps_label(fps)),
            final(self).cells() == old(self).cells(),
            final(self).cell_size() == old(self).cell_size(),
    {
        let bounds: (i32, i32) = (80, 20);
        let rect = Rect { x: 0, y: 0, w: bounds.0, h: bounds.1 };

        let mut content = "Fps: ".to_owned();
        proof {
            reveal_strlit("Fps: ");
            assert(content@ =~= fps_prefix());
        }
        append_decimal(&mut content, fps);
        let fps_text = TextLabel { content, bounds, scale: 18 };

        let mut fps_background: Vec<Shape> = Vec::new();
        fps_background.push(
            Shape::Rectangle { bounds: rect, color: Color::from_rgba_u32(0x0000_00FF) },
        );

        self.add_to_draw_stack(DrawableObject::Mesh(fps_background), DrawParam::default());
        self.add_to_draw_stack(DrawableObject::Text(fps_text), DrawParam::default());
    }

    /// Files the cell under the key of its position. A cell already filed
    /// there is replaced.
    pub fn register_pixel(&mut self, pixel: Pixel)
        ensures
            final(self).cells() == registered(old(self).cells(), pixel),
            final(self).queue() == old(self).queue(),
            final(self).cell_size() == old(self).cell_size(),
            old(self).filed_by_position() ==> final(self).filed_by_position(),
    {
        let key = pixel.position.key();
        self.pixels.insert(key, pixel);
        proof {
            if old(self).filed_by_position() {
                assert forall|other: u128| #[trigger]
                    self.cells().contains_key(other) implies self.cells()[other].position.key()
                    == other by {
                    if other != key {
                        assert(old(self).cells().contains_key(other));
                    }
                }
            }
        }
    }

    /// Whether a cell is filed under the coordinate.
    pub fn position_occupied(&self, position: &GridPosition) -> (occupied: bool)
        ensures
            occupied == self.cells().contains_key(position.key()),
    {
        let key = position.key();
        self.pixels.contains_key(&key)
    }

    /// The cell filed under the coordinate, if there is one.
    pub fn get_pixel(&self, position: &GridPosition) -> (found: Option<&Pixel>)
        ensures
            match found {
                Some(pixel) => self.cells().contains_key(position.key()) && *pixel
                    == self.cells()[position.key()],
                None => !self.cells().contains_key(position.key()),
            },
    {
        let key = position.key();
        self.pixels.get(&key)
    }

    /// Commits the frame. The result holds the square of every registered
    /// cell and everything that was queued; the queue is empty afterwards.
    /// No cell is dropped for being drawn, but each is filed anew under the
    /// key of the position it has now, so of two cells that were moved to one
    /// position only one stays.
    pub fn update(&mut self) -> (frame: Frame)
        ensures
            batch_of(old(self).cells(), frame.cells@),
            frame.cells@.len() == old(self).cells().len(),
            frame.queue() == old(self).queue(),
            final(self).queue() == Seq::<Queued>::empty(),
            final(self).cell_size() == old(self).cell_size(),
            filed_anew(old(self).cells(), final(self).cells()),
            final(self).filed_by_position(),
            old(self).filed_by_position() ==> final(self).cells() == old(self).cells(),
            final(self).cells().len() <= old(self).cells().len(),
            positions_differ(old(self).cells()) ==> final(self).cells().len() == old(
                self,
            ).cells().len(),
    {
        let mut mesh_builder: Vec<Shape> = Vec::new();
        let mut new_pixels: HashMap<u128, Pixel> = HashMap::new();
        let ghost before = self.pixels@;
        let ghost items = spec_hash_map_iter(&self.pixels).remaining();

        for entry in walk: self.pixels.iter()
            invariant
                before == self.pixels@,
                walk.seq() == items,
                mesh_builder@.len() == walk.index(),
                forall|i: int|
                    0 <= i < walk.index() ==> #[trigger] mesh_builder@[i] == items[i].1.shape(),
                forall|key: u128| #[trigger]
                    new_pixels@.contains_key(key) ==> new_pixels@[key].position.key() == key
                        && exists|i: int| 0 <= i < walk.index() && *items[i].1 == new_pixels@[key],
                forall|i: int|
                    0 <= i < walk.index() ==> new_pixels@.contains_key(
                        #[trigger] items[i].1.position.key(),
                    ),
        {
            let mut pixel: Pixel = *entry.1;
            pixel.append_to_mesh(&mut mesh_builder);
            new_pixels.insert(pixel.position.key(), pixel);
        }

        let mut queued: Vec<(DrawParam, DrawableObject)> = Vec::new();
        std::mem::swap(&mut queued, &mut self.draw_stack);
        self.pixels = new_pixels;

        let frame = Frame { cells: mesh_builder, queued };
        proof {
            let after = self.pixels@;
            let order = items.map_values(|item: (&u128, &Pixel)| *item.0);
            assert(order.to_set() =~= before.dom()) by {
                assert forall|key: u128| before.dom().contains(key) implies order.to_set().contains(
                    key,
                ) by {
                    assert(items.contains((&key, &before[key])));
                    let i = choose|i: int| 0 <= i < items.len() && items[i] == (&key, &before[key]);
                    assert(order[i] == key);
                }
            }
            order.lemma_no_dup_set_cardinality();
            order.unique_seq_to_set();
            assert(frame.cells@ =~= shapes_in_order(before, order));
            assert(lists_each_once(before, order));

            let moved = before.dom().map(|key: u128| current_key(before, key));
            assert forall|key: u128| #[trigger] after.contains_key(key) implies after[key].position.key()
                == key && moved.contains(key) && exists|from: u128|
                before.contains_key(from) && before[from] == after[key] by {
                let i = choose|i: int| 0 <= i < items.len() && *items[i].1 == after[key];
                let from = *items[i].0;
                assert(before.contains_key(from) && before[from] == *items[i].1);
            }
            assert forall|key: u128| moved.contains(key) implies after.contains_key(key) by {
                let from = choose|from: u128|
                    before.dom().contains(from) && key == current_key(before, from);
                assert(items.contains((&from, &before[from])));
                let i = choose|i: int| 0 <= i < items.len() && items[i] == (&from, &before[from]);
                assert(after.contains_key(items[i].1.position.key()));
            }
            assert(after.dom() =~= moved);
            if old(self).filed_by_position() {
                assert forall|key: u128| before.contains_key(key) implies after.contains_key(key)
                    && after[key] == before[key] by {
                    assert(old(self).cells().contains_key(key));
                    let from = choose|from: u128|
                        before.contains_key(from) && before[from] == after[key];
                    assert(old(self).cells().contains_key(from));
                }
                assert forall|key: u128| after.contains_key(key) implies before.contains_key(
                    key,
                ) by {
                    let from = choose|from: u128|
                        before.contains_key(from) && before[from] == after[key];
                    assert(old(self).cells().contains_key(from));
                }
                assert(after =~= before);
            }
            lemma_filed_anew_counts(before, after);
        }
        frame
    }
}

/// `line_count` on machine integers.
fn axis_lines(extent: i32, cell: i32) -> (count: i32)
    ensures
        count == line_count(extent, cell),
        0 <= count,
        count * cell <= extent || count == 0,
{
    if 0 < cell && 0 < extent {
        let count: i32 = extent / cell;
        proof {
            vstd::arithmetic::div_mod::lemma_fundamental_div_mod(extent as int, cell as int);
            assert(0 <= count && count * cell <= extent) by (nonlinear_arith)
                requires
                    extent == cell * count + (extent as int % cell as int),
                    0 <= (extent as int % cell as int) < cell,
                    0 < cell,
                    0 < extent,
            ;
        }
        count
    } else {
        0
    }
}

impl Default for PixelHandler {
    /// A registry for cells of 20 by 20.
    fn default() -> (handler: PixelHandler)
        ensures
            handler.cells() == Map::<u128, Pixel>::empty(),
            handler.queue() == Seq::<Queued>::empty(),
            handler.cell_size() == (20i32, 20i32),
    {
        Self::new((20, 20))
    }
}

} // verus!
