use rusty_chess::coordinate::{Coordinate, Vector};

#[test]
fn coordinate_new_keeps_file_and_rank() {
    let c = Coordinate::new(3, 5);
    assert_eq!(c.x, 3);
    assert_eq!(c.y, 5);
    assert_eq!(c, Coordinate { x: 3, y: 5 });
    assert_ne!(c, Coordinate::new(5, 3));
}

#[test]
fn coordinate_from_tuple_reads_file_first() {
    assert_eq!(Coordinate::from_tuple_usize((6, 1)), Coordinate::new(6, 1));
    assert_eq!(Coordinate::from_tuple_usize((9, 12)), Coordinate { x: 9, y: 12 });
}

#[test]
fn coordinate_as_signed_pair() {
    let c = Coordinate::new(7, 2);
    assert_eq!(c.x_i32(), 7);
    assert_eq!(c.y_i32(), 2);
    assert_eq!(c.vector(), Vector::new(7, 2));
}

#[test]
fn vector_subtract_is_componentwise() {
    let v = Vector::new(3, 5).subtract(Vector::new(5, 1));
    assert_eq!(v, Vector { x: -2, y: 4 });
    assert_eq!(Vector::new(0, 0).subtract(Vector::new(7, 7)), Vector::new(-7, -7));
}

#[test]
fn vector_difference_is_absolute() {
    assert_eq!(Vector::new(3, 5).difference(Vector::new(5, 1)), Vector::new(2, 4));
    assert_eq!(Vector::new(5, 1).difference(Vector::new(3, 5)), Vector::new(2, 4));
    assert_eq!(Vector::new(4, 4).difference(Vector::new(4, 4)), Vector::new(0, 0));
}

#[test]
fn vector_direction_is_the_sign_of_each_part() {
    assert_eq!(Vector::new(-2, 4).direction(), Vector::new(-1, 1));
    assert_eq!(Vector::new(7, 0).direction(), Vector::new(1, 0));
    assert_eq!(Vector::new(0, -3).direction(), Vector::new(0, -1));
    assert_eq!(Vector::new(0, 0).direction(), Vector::new(0, 0));
    assert_eq!(Vector::new(i32::MIN, i32::MAX).direction(), Vector::new(-1, 1));
}
