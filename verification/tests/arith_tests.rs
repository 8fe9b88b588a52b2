use rssb::arith::subtract_with_borrow;

#[test]
fn subtract_borrows_and_wraps() {
    assert_eq!(subtract_with_borrow(3, 5), (254, true));
}

#[test]
fn subtract_without_borrow() {
    assert_eq!(subtract_with_borrow(5, 3), (2, false));
}

#[test]
fn subtract_zero_from_zero() {
    assert_eq!(subtract_with_borrow(0, 0), (0, false));
}

#[test]
fn subtract_extremes() {
    assert_eq!(subtract_with_borrow(0, 255), (1, true));
    assert_eq!(subtract_with_borrow(255, 0), (255, false));
    assert_eq!(subtract_with_borrow(0, 1), (255, true));
    assert_eq!(subtract_with_borrow(255, 255), (0, false));
}
