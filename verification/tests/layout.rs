use parametric_ui::{SplitDirection, SplitMode, Vec2};

#[test]
fn horizontal_split_is_primary_along_x() {
    let v = Vec2 { x: 1, y: 2 };
    assert_eq!(*SplitDirection::Horizontal.p(&v), 1);
    assert_eq!(*SplitDirection::Horizontal.s(&v), 2);
}

#[test]
fn vertical_split_is_primary_along_y() {
    let v = Vec2 { x: 1, y: 2 };
    assert_eq!(*SplitDirection::Vertical.p(&v), 2);
    assert_eq!(*SplitDirection::Vertical.s(&v), 1);
}

#[test]
fn primary_write_is_read_back_and_keeps_secondary() {
    for direction in [SplitDirection::Horizontal, SplitDirection::Vertical] {
        let mut v = Vec2 { x: 3.5f32, y: -1.0f32 };
        let before = *direction.s(&v);
        *direction.pm(&mut v) = 9.25;
        assert_eq!(*direction.p(&v), 9.25);
        assert_eq!(*direction.s(&v), before);
    }
}

#[test]
fn secondary_write_is_read_back_and_keeps_primary() {
    for direction in [SplitDirection::Horizontal, SplitDirection::Vertical] {
        let mut v = Vec2 { x: 3.5f32, y: -1.0f32 };
        let before = *direction.p(&v);
        *direction.sm(&mut v) = 4.0;
        assert_eq!(*direction.s(&v), 4.0);
        assert_eq!(*direction.p(&v), before);
    }
}

#[test]
fn primary_and_secondary_cover_both_coordinates() {
    let mut h = Vec2 { x: 0, y: 0 };
    *SplitDirection::Horizontal.pm(&mut h) = 10;
    *SplitDirection::Horizontal.sm(&mut h) = 20;
    assert_eq!((h.x, h.y), (10, 20));

    let mut v = Vec2 { x: 0, y: 0 };
    *SplitDirection::Vertical.pm(&mut v) = 10;
    *SplitDirection::Vertical.sm(&mut v) = 20;
    assert_eq!((v.x, v.y), (20, 10));
}

#[test]
fn split_settings_compare_by_variant() {
    assert_eq!(SplitDirection::Horizontal, SplitDirection::Horizontal);
    assert_ne!(SplitDirection::Horizontal, SplitDirection::Vertical);
    assert_eq!(SplitMode::EqualSide, SplitMode::EqualSide);
    assert_ne!(SplitMode::EqualArea, SplitMode::EqualSide);
}
