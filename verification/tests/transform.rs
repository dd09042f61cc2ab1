use hillside_keyberon::event::KeyEvent;
use hillside_keyberon::transform::{mirror_coord, Transform};

#[test]
fn host_side_mirrors() {
    assert_eq!(Transform::select(true, 12), Transform::Mirror { cols: 12 });
    assert_eq!(Transform::select(false, 12), Transform::Identity);
}

#[test]
fn mirror_of_twelve_columns() {
    let t = Transform::Mirror { cols: 12 };
    assert_eq!(t.apply(KeyEvent::Press(1, 2)), KeyEvent::Press(1, 9));
    assert_eq!(t.apply(KeyEvent::Release(3, 11)), KeyEvent::Release(3, 0));
    assert_eq!(t.apply(KeyEvent::Press(3, 1)), KeyEvent::Press(3, 10));
}

#[test]
fn first_column_goes_to_the_last() {
    for cols in 1..=255u8 {
        let t = Transform::Mirror { cols };
        assert_eq!(t.apply(KeyEvent::Press(7, 0)), KeyEvent::Press(7, cols - 1));
    }
}

#[test]
fn mirror_twice_is_identity() {
    let t = Transform::Mirror { cols: 12 };
    for c in 0..12u8 {
        for r in 0..4u8 {
            assert_eq!(t.apply(t.apply(KeyEvent::Press(r, c))), KeyEvent::Press(r, c));
            assert_eq!(t.apply(t.apply(KeyEvent::Release(r, c))), KeyEvent::Release(r, c));
        }
    }
}

#[test]
fn identity_keeps_events() {
    assert_eq!(Transform::Identity.apply(KeyEvent::Press(200, 255)), KeyEvent::Press(200, 255));
}

#[test]
fn accepts_says_what_lies_in_the_matrix() {
    let t = Transform::Mirror { cols: 12 };
    assert!(t.accepts(KeyEvent::Press(0, 11)));
    assert!(!t.accepts(KeyEvent::Press(0, 12)));
    assert!(Transform::Identity.accepts(KeyEvent::Press(0, 255)));
}

#[test]
fn mirror_coord_keeps_the_row() {
    assert_eq!(mirror_coord(3, 0, 12), (3, 11));
    assert_eq!(mirror_coord(0, 5, 6), (0, 0));
}

#[test]
fn coord_of_an_event() {
    assert_eq!(KeyEvent::Press(1, 2).coord(), (1, 2));
    assert_eq!(KeyEvent::Release(3, 4).coord(), (3, 4));
}
