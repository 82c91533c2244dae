use pixel_handler::structs::drawable_object::{append_decimal, DrawParam};

fn written(number: u32) -> String {
    let mut text = String::new();
    append_decimal(&mut text, number);
    text
}

#[test]
fn append_decimal_writes_single_digits() {
    for digit in 0..10u32 {
        assert_eq!(written(digit), digit.to_string());
    }
}

#[test]
fn append_decimal_writes_without_leading_zeros() {
    assert_eq!(written(10), "10");
    assert_eq!(written(60), "60");
    assert_eq!(written(144), "144");
    assert_eq!(written(1000), "1000");
    assert_eq!(written(90_210), "90210");
    assert_eq!(written(u32::MAX), "4294967295");
}

#[test]
fn append_decimal_agrees_with_the_standard_formatting() {
    let mut number: u32 = 1;
    for _ in 0..200 {
        assert_eq!(written(number), number.to_string());
        number = number.wrapping_mul(1_664_525).wrapping_add(1_013_904_223);
    }
}

#[test]
fn append_decimal_keeps_what_is_already_there() {
    let mut text = String::from("Fps: ");
    append_decimal(&mut text, 59);
    assert_eq!(text, "Fps: 59");
    append_decimal(&mut text, 0);
    assert_eq!(text, "Fps: 590");
}

#[test]
fn default_draw_param_does_not_move_the_drawable() {
    assert_eq!(DrawParam::default(), DrawParam { dest: (0, 0) });
}
