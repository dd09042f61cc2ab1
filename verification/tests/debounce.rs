use hillside_keyberon::common::{snapshot, HillsideKeyboard};
use hillside_keyberon::debounce::{open_grid, MatrixDebouncer};
use hillside_keyberon::event::KeyEvent;
use hillside_keyberon::transform::Transform;

fn grid(rows: usize, cols: usize, closed: &[(usize, usize)]) -> Vec<Vec<bool>> {
    let mut g = vec![vec![false; cols]; rows];
    for &(r, c) in closed {
        g[r][c] = true;
    }
    g
}

#[test]
fn open_grid_is_all_open() {
    assert_eq!(open_grid(2, 3), vec![vec![false; 3]; 2]);
    assert_eq!(open_grid(0, 3), Vec::<Vec<bool>>::new());
}

#[test]
fn size_of_the_matrix() {
    let d = MatrixDebouncer::new(4, 6, 5);
    assert_eq!((d.rows(), d.cols()), (4, 6));
    assert!(d.fits(&grid(4, 6, &[])));
    assert!(!d.fits(&grid(4, 5, &[])));
    assert!(!d.fits(&grid(3, 6, &[])));
}

#[test]
fn window_of_three() {
    let mut d = MatrixDebouncer::new(2, 2, 3);
    assert_eq!(d.events(grid(2, 2, &[])), vec![]);
    assert_eq!(d.events(grid(2, 2, &[(0, 1)])), vec![]);
    assert_eq!(d.events(grid(2, 2, &[(0, 1)])), vec![]);
    assert_eq!(d.events(grid(2, 2, &[(0, 1)])), vec![KeyEvent::Press(0, 1)]);
}

#[test]
fn press_comes_at_the_fifth_scan_of_five() {
    let mut d = MatrixDebouncer::new(4, 6, 5);
    let mut seen: Vec<Vec<KeyEvent>> = Vec::new();
    for _ in 0..5 {
        seen.push(d.events(grid(4, 6, &[(1, 2)])));
    }
    assert_eq!(seen, vec![vec![], vec![], vec![], vec![], vec![KeyEvent::Press(1, 2)]]);
}

#[test]
fn one_cell_gives_one_event_after_the_window() {
    let mut d = MatrixDebouncer::new(4, 6, 5);
    for _ in 0..4 {
        assert_eq!(d.events(grid(4, 6, &[(1, 2)])), vec![]);
    }
    assert_eq!(d.events(grid(4, 6, &[(1, 2)])), vec![KeyEvent::Press(1, 2)]);
    for _ in 0..20 {
        assert_eq!(d.events(grid(4, 6, &[(1, 2)])), vec![]);
    }
    for _ in 0..4 {
        assert_eq!(d.events(grid(4, 6, &[])), vec![]);
    }
    assert_eq!(d.events(grid(4, 6, &[])), vec![KeyEvent::Release(1, 2)]);
}

#[test]
fn stable_snapshot_gives_nothing() {
    let mut d = MatrixDebouncer::new(4, 6, 5);
    for _ in 0..50 {
        assert_eq!(d.events(grid(4, 6, &[])), vec![]);
    }
}

#[test]
fn chatter_starts_the_count_again() {
    let mut d = MatrixDebouncer::new(1, 2, 3);
    assert_eq!(d.events(grid(1, 2, &[(0, 0)])), vec![]);
    assert_eq!(d.events(grid(1, 2, &[(0, 0)])), vec![]);
    assert_eq!(d.events(grid(1, 2, &[])), vec![]);
    assert_eq!(d.events(grid(1, 2, &[(0, 0)])), vec![]);
    assert_eq!(d.events(grid(1, 2, &[(0, 0)])), vec![]);
    assert_eq!(d.events(grid(1, 2, &[(0, 0)])), vec![KeyEvent::Press(0, 0)]);
}

#[test]
fn another_snapshot_starts_the_count_again() {
    let mut d = MatrixDebouncer::new(1, 2, 2);
    assert_eq!(d.events(grid(1, 2, &[(0, 0)])), vec![]);
    assert_eq!(d.events(grid(1, 2, &[(0, 1)])), vec![]);
    assert_eq!(d.events(grid(1, 2, &[(0, 1)])), vec![KeyEvent::Press(0, 1)]);
}

#[test]
fn events_come_by_row_then_column() {
    let mut d = MatrixDebouncer::new(3, 3, 1);
    assert_eq!(
        d.events(grid(3, 3, &[(2, 0), (0, 2), (1, 1), (0, 0)])),
        vec![
            KeyEvent::Press(0, 0),
            KeyEvent::Press(0, 2),
            KeyEvent::Press(1, 1),
            KeyEvent::Press(2, 0)
        ]
    );
    assert_eq!(
        d.events(grid(3, 3, &[(0, 0), (2, 2)])),
        vec![
            KeyEvent::Release(0, 2),
            KeyEvent::Release(1, 1),
            KeyEvent::Release(2, 0),
            KeyEvent::Press(2, 2)
        ]
    );
}

#[test]
fn window_of_one_reports_at_once() {
    let mut d = MatrixDebouncer::new(1, 1, 1);
    assert_eq!(d.events(grid(1, 1, &[(0, 0)])), vec![KeyEvent::Press(0, 0)]);
    assert_eq!(d.events(grid(1, 1, &[])), vec![KeyEvent::Release(0, 0)]);
}

#[test]
fn snapshot_of_an_array() {
    let keys = [[false, true, false], [true, false, false]];
    assert_eq!(snapshot(&keys), vec![vec![false, true, false], vec![true, false, false]]);
}

#[test]
fn half_mirrors_what_its_debouncer_reports() {
    let mut kb: HillsideKeyboard<6, 4> =
        HillsideKeyboard::new(MatrixDebouncer::new(4, 6, 5), Transform::Mirror { cols: 12 });
    let mut keys = [[false; 6]; 4];
    keys[1][2] = true;
    for _ in 0..4 {
        assert_eq!(kb.events(&keys), vec![]);
    }
    assert_eq!(kb.events(&keys), vec![KeyEvent::Press(1, 9)]);
    assert_eq!(kb.events(&keys), vec![]);
}

#[test]
fn half_without_mirror_keeps_positions() {
    let mut kb: HillsideKeyboard<6, 4> =
        HillsideKeyboard::new(MatrixDebouncer::new(4, 6, 1), Transform::Identity);
    let mut keys = [[false; 6]; 4];
    keys[3][5] = true;
    assert_eq!(kb.events(&keys), vec![KeyEvent::Press(3, 5)]);
}
