use basic_layout::geometry::{rect, Ratio, Rect, RATIO_HALF, RATIO_MAX, RATIO_MIN, RATIO_ONE};

#[test]
fn rect_keeps_its_fields() {
    let r = rect(-3, 7, 640, 480);
    assert_eq!(r, Rect { x: -3, y: 7, width: 640, height: 480 });
}

#[test]
fn ratio_constants_are_millionths() {
    assert_eq!(RATIO_ONE, 1_000_000);
    assert_eq!(RATIO_HALF, 500_000);
    assert_eq!(RATIO_MIN, 100_000);
    assert_eq!(RATIO_MAX, 900_000);
    assert_eq!(Ratio::half(), Ratio::new(500_000));
}

#[test]
fn scale_rounds_down() {
    assert_eq!(Ratio::new(600_000).scale(1896), 1137);
    assert_eq!(Ratio::new(333_333).scale(10), 3);
    assert_eq!(Ratio::new(700_000).scale(10), 7);
    assert_eq!(Ratio::new(0).scale(4_000_000_000), 0);
    assert_eq!(Ratio::new(1_000_000).scale(u32::MAX), u32::MAX);
    assert_eq!(Ratio::new(999_999).scale(1), 0);
}

#[test]
fn split_vertial_halves_what_the_gap_leaves() {
    let (left, right) = rect(0, 0, 100, 50).split_vertial(10, Ratio::new(500_000));
    assert_eq!(left, rect(0, 0, 45, 50));
    assert_eq!(right, rect(55, 0, 45, 50));
}

#[test]
fn split_vertial_at_six_tenths() {
    let (left, right) = rect(8, 8, 1904, 1064).split_vertial(8, Ratio::new(600_000));
    assert_eq!(left, rect(8, 8, 1137, 1064));
    assert_eq!(right, rect(1153, 8, 759, 1064));
    assert_eq!(left.width + 8 + right.width, 1904);
}

#[test]
fn split_horizontal_at_a_quarter() {
    let (top, bottom) = rect(5, 7, 30, 101).split_horizontal(1, Ratio::new(250_000));
    assert_eq!(top, rect(5, 7, 30, 25));
    assert_eq!(bottom, rect(5, 33, 30, 75));
}

#[test]
fn split_of_a_rect_as_wide_as_the_gap() {
    let (left, right) = rect(4, 4, 10, 20).split_vertial(10, Ratio::new(500_000));
    assert_eq!(left, rect(4, 4, 0, 20));
    assert_eq!(right, rect(14, 4, 0, 20));
}

#[test]
fn split_with_extreme_ratios() {
    let (left, right) = rect(0, 0, 100, 10).split_vertial(0, Ratio::new(0));
    assert_eq!((left.width, right.x, right.width), (0, 0, 100));
    let (left, right) = rect(0, 0, 100, 10).split_vertial(0, Ratio::new(1_000_000));
    assert_eq!((left.width, right.x, right.width), (100, 100, 0));
    let (top, bottom) = rect(0, 0, 10, 100).split_horizontal(0, Ratio::new(1_000_000));
    assert_eq!((top.height, bottom.y, bottom.height), (100, 100, 0));
}

#[test]
fn split_at_a_negative_origin() {
    let (left, right) = rect(-100, -50, 80, 40).split_vertial(4, Ratio::new(500_000));
    assert_eq!(left, rect(-100, -50, 38, 40));
    assert_eq!(right, rect(-58, -50, 38, 40));
    let (top, bottom) = rect(-100, -50, 80, 40).split_horizontal(4, Ratio::new(500_000));
    assert_eq!(top, rect(-100, -50, 80, 18));
    assert_eq!(bottom, rect(-100, -28, 80, 18));
}

#[test]
fn split_of_the_widest_rect() {
    let (left, right) = rect(i32::MIN, 0, u32::MAX, 1).split_vertial(1, Ratio::new(500_000));
    assert_eq!(left, rect(i32::MIN, 0, 2_147_483_647, 1));
    assert_eq!(right, rect(0, 0, 2_147_483_647, 1));
}

#[test]
fn clamped_keeps_a_ratio_between_one_and_nine_tenths() {
    assert_eq!(Ratio::new(0).clamped(), Ratio::new(100_000));
    assert_eq!(Ratio::new(99_999).clamped(), Ratio::new(100_000));
    assert_eq!(Ratio::new(100_000).clamped(), Ratio::new(100_000));
    assert_eq!(Ratio::new(654_321).clamped(), Ratio::new(654_321));
    assert_eq!(Ratio::new(900_000).clamped(), Ratio::new(900_000));
    assert_eq!(Ratio::new(900_001).clamped(), Ratio::new(900_000));
    assert_eq!(Ratio::new(u32::MAX).clamped(), Ratio::new(900_000));
}
