use glyph_engine::number::Number;

fn mean_of_two<T: Number>(a: T, b: T, two: T) -> T {
    (a + b) / two
}

fn spread<T: Number>(a: T, b: T) -> T {
    (a - b) * (a - b)
}

#[test]
fn integers_are_numbers() {
    assert_eq!(mean_of_two(4i64, 10i64, 2i64), 7);
    assert_eq!(spread(3i32, 7i32), 16);
    assert_eq!(mean_of_two(1u16, 2u16, 2u16), 1);
}
