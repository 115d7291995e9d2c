use planarwm::geometry::{Dimension, Position, Rect};

#[test]
fn position_arithmetic() {
    let a = Position { x: 10, y: -5 };
    let b = Position { x: 3, y: 7 };
    assert_eq!(a + b, Position { x: 13, y: 2 });
    assert_eq!(a - b, Position { x: 7, y: -12 });
    let mut c = a;
    c.add_assign(b);
    assert_eq!(c, Position { x: 13, y: 2 });
}

#[test]
fn position_wrapping() {
    let a = Position { x: i32::MAX, y: i32::MIN };
    let one = Position { x: 1, y: 1 };
    assert_eq!(a.wrapping_add(one), Position { x: i32::MIN, y: i32::MIN + 1 });
    assert_eq!(a.wrapping_sub(one), Position { x: i32::MAX - 1, y: i32::MAX });
}

#[test]
fn rect_and_dimension_difference() {
    let r = Rect { x: 5, y: 6, width: 100, height: 50 } - Rect { x: 1, y: 2, width: 10, height: 20 };
    assert_eq!(r, Rect { x: 4, y: 4, width: 90, height: 30 });
    let d = Dimension { width: 800, height: 600 } - Dimension { width: 40, height: 40 };
    assert_eq!(d, Dimension { width: 760, height: 560 });
}
