use hillside_keyberon::report::{assemble, same_report, Reporter, WriteResult};
use keyberon::key_code::KeyCode;

#[test]
fn report_without_keys() {
    assert_eq!(assemble(&vec![]), [0; 8]);
    assert_eq!(assemble(&vec![KeyCode::No]), [0; 8]);
}

#[test]
fn keys_take_the_slots_in_order() {
    assert_eq!(assemble(&vec![KeyCode::A]), [0, 0, 4, 0, 0, 0, 0, 0]);
    assert_eq!(
        assemble(&vec![KeyCode::L, KeyCode::A, KeyCode::Space]),
        [0, 0, 0x0F, 0x04, 0x2C, 0, 0, 0]
    );
}

#[test]
fn modifiers_set_their_bits() {
    assert_eq!(assemble(&vec![KeyCode::LCtrl]), [0x01, 0, 0, 0, 0, 0, 0, 0]);
    assert_eq!(assemble(&vec![KeyCode::LShift, KeyCode::A]), [0x02, 0, 4, 0, 0, 0, 0, 0]);
    assert_eq!(
        assemble(&vec![KeyCode::RGui, KeyCode::LAlt, KeyCode::RGui]),
        [0x84, 0, 0, 0, 0, 0, 0, 0]
    );
}

#[test]
fn seventh_key_rolls_over() {
    let six = vec![KeyCode::A, KeyCode::B, KeyCode::C, KeyCode::D, KeyCode::E, KeyCode::F];
    assert_eq!(assemble(&six), [0, 0, 4, 5, 6, 7, 8, 9]);
    let mut seven = six.clone();
    seven.push(KeyCode::G);
    seven.push(KeyCode::LShift);
    assert_eq!(assemble(&seven), [0x02, 0, 1, 1, 1, 1, 1, 1]);
}

#[test]
fn error_code_fills_the_slots() {
    assert_eq!(assemble(&vec![KeyCode::A, KeyCode::ErrorRollOver]), [0, 0, 1, 1, 1, 1, 1, 1]);
}

#[test]
fn same_report_compares_bytes() {
    assert!(same_report(&[0, 0, 4, 0, 0, 0, 0, 0], &[0, 0, 4, 0, 0, 0, 0, 0]));
    assert!(!same_report(&[0, 0, 4, 0, 0, 0, 0, 0], &[0, 0, 4, 0, 0, 0, 0, 1]));
    assert!(!same_report(&[1, 0, 4, 0, 0, 0, 0, 0], &[0, 0, 4, 0, 0, 0, 0, 0]));
}

#[test]
fn report_is_due_when_it_changed_and_the_device_is_configured() {
    let r = Reporter::new();
    assert_eq!(r.last, [0; 8]);
    assert!(!r.due(true, &[0; 8]));
    assert!(r.due(true, &[0, 0, 4, 0, 0, 0, 0, 0]));
    assert!(!r.due(false, &[0, 0, 4, 0, 0, 0, 0, 0]));
}

#[test]
fn write_that_takes_nothing_is_tried_again() {
    let mut r = Reporter::new();
    let report = [0, 0, 4, 0, 0, 0, 0, 0];
    assert!(r.written(report, WriteResult::Accepted(0)));
    assert_eq!(r.last, [0; 8]);
    assert!(r.due(true, &report));
    assert!(!r.written(report, WriteResult::Accepted(8)));
    assert_eq!(r.last, report);
    assert!(!r.due(true, &report));
}

#[test]
fn failed_write_is_not_remembered() {
    let mut r = Reporter::new();
    let report = [0, 0, 4, 0, 0, 0, 0, 0];
    assert!(!r.written(report, WriteResult::Failed));
    assert_eq!(r.last, [0; 8]);
    assert!(r.due(true, &report));
}
