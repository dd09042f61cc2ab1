use hillside_keyberon::action::{k, KeyAction, LayerTable, Simple};
use hillside_keyberon::codec::{deserialize, serialize};
use hillside_keyberon::event::KeyEvent;
use hillside_keyberon::engine::Engine;
use hillside_keyberon::common::HillsideKeyboard;
use hillside_keyberon::debounce::MatrixDebouncer;
use hillside_keyberon::firmware::{init, tick, tick_keeb, tick_or_skip, Route};
use hillside_keyberon::receiver::Receiver;
use hillside_keyberon::layouts::{custom, CustomAction, Layers};
use hillside_keyberon::mcu::{init_uart, UartSettings};
use hillside_keyberon::report::WriteResult;
use hillside_keyberon::transform::Transform;
use keyberon::key_code::KeyCode;

fn handle_event(layout: &mut Engine, event: KeyEvent) {
    layout.event(event);
}

fn uart_rx(receiver: &mut Receiver, layout: &mut Engine, byte: u8) {
    if let Some(event) = receiver.push(byte) {
        layout.event(event);
    }
}

fn t() -> KeyAction {
    KeyAction::Plain(Simple::Trans)
}

fn n() -> KeyAction {
    KeyAction::Plain(Simple::NoOp)
}

fn base_table() -> LayerTable {
    let base = vec![
        vec![t(), k(KeyCode::Q), k(KeyCode::W), k(KeyCode::E), k(KeyCode::R), k(KeyCode::T), k(KeyCode::Y), k(KeyCode::U), k(KeyCode::I), k(KeyCode::O), k(KeyCode::P), t()],
        vec![t(), k(KeyCode::A), k(KeyCode::S), k(KeyCode::D), k(KeyCode::F), k(KeyCode::G), k(KeyCode::H), k(KeyCode::J), k(KeyCode::K), k(KeyCode::L), k(KeyCode::Quote), t()],
        vec![t(), k(KeyCode::Z), k(KeyCode::X), k(KeyCode::C), k(KeyCode::V), k(KeyCode::B), k(KeyCode::N), k(KeyCode::M), k(KeyCode::Comma), k(KeyCode::Dot), k(KeyCode::Slash), t()],
        vec![
            n(),
            t(),
            KeyAction::HoldTap(Layers::Function.hold_tap(KeyCode::Escape)),
            KeyAction::HoldTap(Layers::Navigation.hold_tap(KeyCode::Space)),
            KeyAction::HoldTap(Layers::Number.hold_tap(KeyCode::Tab)),
            k(KeyCode::Lang1),
            k(KeyCode::CapsLock),
            KeyAction::HoldTap(Layers::Symbol.hold_tap(KeyCode::Enter)),
            k(KeyCode::BSpace),
            KeyAction::HoldTap(Layers::Media.hold_tap(KeyCode::Delete)),
            custom(CustomAction::Bootloader),
            n(),
        ],
    ];
    let mut layers = vec![base];
    for _ in 1..7 {
        layers.push(vec![vec![t(); 12]; 4]);
    }
    LayerTable { layers }
}

#[test]
fn uart_settings() {
    assert_eq!(
        init_uart(),
        UartSettings { baud: 38_400, data_bits: 8, parity: false, stop_bits: 1 }
    );
}

#[test]
fn init_selects_transform_and_route() {
    let table = base_table();
    assert!(table.check());
    let host = init(true, &table);
    assert_eq!(host.keyboard.transform, Transform::Mirror { cols: 12 });
    assert_eq!(host.route, Route::Layout);
    let other = init(false, &table);
    assert_eq!(other.keyboard.transform, Transform::Identity);
    assert_eq!(other.route, Route::Link);
    assert_eq!(other.receiver.window, [0; 4]);
    assert_eq!(other.reporter.last, [0; 8]);
    assert_eq!((other.keyboard.debouncer.rows(), other.keyboard.debouncer.cols()), (4, 6));
    assert_eq!(Route::select(true), Route::Layout);
    assert_eq!(Route::select(false), Route::Link);
}

#[test]
fn new_half_reports_a_press_at_the_fifth_scan() {
    let table = base_table();
    let mut half = init(false, &table);
    let mut keys = [[false; 6]; 4];
    keys[1][2] = true;
    for _ in 0..4 {
        let idle = tick(&mut half.keyboard, half.route, &keys);
        assert_eq!((idle.events, idle.bytes), (vec![], vec![]));
    }
    let scan = tick(&mut half.keyboard, half.route, &keys);
    assert_eq!(scan.bytes, vec![b'P', 1, 2, b'\n']);
    assert_eq!(scan.events, vec![]);
    let later = tick(&mut half.keyboard, half.route, &keys);
    assert_eq!((later.events, later.bytes), (vec![], vec![]));
}

#[test]
fn press_travels_from_one_half_to_the_report_of_the_other() {
    let table = base_table();
    let mut sender: HillsideKeyboard<6, 4> =
        HillsideKeyboard::new(MatrixDebouncer::new(4, 6, 5), Transform::Mirror { cols: 12 });
    let mut host = init(true, &table);

    let mut keys = [[false; 6]; 4];
    keys[1][2] = true;
    for _ in 0..4 {
        let idle = tick(&mut sender, Route::Link, &keys);
        assert_eq!((idle.events, idle.bytes), (vec![], vec![]));
    }
    let scan = tick(&mut sender, Route::Link, &keys);
    assert_eq!(scan.events, vec![]);
    let bytes = scan.bytes;
    assert_eq!(bytes, vec![b'P', 1, 9, b'\n']);
    assert_eq!(deserialize(&bytes), Ok(KeyEvent::Press(1, 9)));

    for b in bytes {
        uart_rx(&mut host.receiver, &mut host.layout, b);
    }
    let plan = tick_keeb(&mut host.layout, &host.reporter, true);
    assert_eq!(host.layout.keycodes().clone(), vec![KeyCode::L]);
    assert_eq!(plan.custom, None);
    assert_eq!(plan.send, Some([0, 0, 0x0F, 0, 0, 0, 0, 0]));
}

#[test]
fn host_side_feeds_its_own_layout_and_sends_nothing() {
    let table = base_table();
    let mut half = init(true, &table);
    let mut keys = [[false; 6]; 4];
    keys[0][1] = true;
    keys[0][2] = true;
    for _ in 0..4 {
        let idle = tick(&mut half.keyboard, half.route, &keys);
        assert_eq!((idle.events, idle.bytes), (vec![], vec![]));
    }
    let scan = tick(&mut half.keyboard, half.route, &keys);
    assert_eq!(scan.bytes, vec![]);
    assert_eq!(scan.events, vec![KeyEvent::Press(0, 10), KeyEvent::Press(0, 9)]);
    for e in scan.events {
        handle_event(&mut half.layout, e);
    }
    tick_keeb(&mut half.layout, &half.reporter, true);
    assert_eq!(half.layout.keycodes().clone(), vec![KeyCode::P]);
    tick_keeb(&mut half.layout, &half.reporter, true);
    assert_eq!(half.layout.keycodes().clone(), vec![KeyCode::P, KeyCode::O]);
}

#[test]
fn other_side_sends_frames_and_feeds_no_layout() {
    let table = base_table();
    let mut half = init(false, &table);
    let mut keys = [[false; 6]; 4];
    keys[0][1] = true;
    keys[0][2] = true;
    for _ in 0..4 {
        assert_eq!(tick(&mut half.keyboard, half.route, &keys).bytes, vec![]);
    }
    let scan = tick(&mut half.keyboard, half.route, &keys);
    assert_eq!(scan.bytes, vec![b'P', 0, 1, b'\n', b'P', 0, 2, b'\n']);
    assert_eq!(scan.events, vec![]);
}

#[test]
fn failed_scan_is_skipped() {
    let table = base_table();
    let mut half = init(true, &table);
    let mut keys = [[false; 6]; 4];
    keys[2][3] = true;
    for _ in 0..2 {
        let scan = tick_or_skip(&mut half.keyboard, half.route, Some(&keys));
        assert_eq!((scan.events, scan.bytes), (vec![], vec![]));
    }
    for _ in 0..7 {
        let scan = tick_or_skip(&mut half.keyboard, half.route, None);
        assert_eq!((scan.events, scan.bytes), (vec![], vec![]));
    }
    for _ in 0..2 {
        let scan = tick_or_skip(&mut half.keyboard, half.route, Some(&keys));
        assert_eq!((scan.events, scan.bytes), (vec![], vec![]));
    }
    let scan = tick_or_skip(&mut half.keyboard, half.route, Some(&keys));
    assert_eq!(scan.events, vec![KeyEvent::Press(2, 8)]);
    assert_eq!(scan.bytes, vec![]);
}

#[test]
fn report_is_sent_once_and_only_while_configured() {
    let table = base_table();
    let mut half = init(false, &table);
    handle_event(&mut half.layout, KeyEvent::Press(0, 1));
    let plan = tick_keeb(&mut half.layout, &half.reporter, false);
    assert_eq!(plan.send, None);
    let plan = tick_keeb(&mut half.layout, &half.reporter, true);
    let report = [0, 0, 0x14, 0, 0, 0, 0, 0];
    assert_eq!(plan.send, Some(report));
    assert!(half.reporter.written(report, WriteResult::Accepted(0)));
    assert!(!half.reporter.written(report, WriteResult::Accepted(8)));
    let plan = tick_keeb(&mut half.layout, &half.reporter, true);
    assert_eq!(plan.send, None);
    handle_event(&mut half.layout, KeyEvent::Release(0, 1));
    let plan = tick_keeb(&mut half.layout, &half.reporter, true);
    assert_eq!(plan.send, Some([0; 8]));
}

#[test]
fn custom_action_is_planned_at_its_tick_whatever_usb_says() {
    let table = base_table();
    let mut half = init(false, &table);
    assert_eq!(tick_keeb(&mut half.layout, &half.reporter, true).custom, None);
    handle_event(&mut half.layout, KeyEvent::Press(3, 10));
    let plan = tick_keeb(&mut half.layout, &half.reporter, true);
    assert_eq!(plan.custom, Some(CustomAction::Bootloader));
    assert_eq!(plan.send, None);
    for _ in 0..5 {
        assert_eq!(tick_keeb(&mut half.layout, &half.reporter, true).custom, None);
    }

    let mut other = init(false, &table);
    handle_event(&mut other.layout, KeyEvent::Press(3, 10));
    let plan = tick_keeb(&mut other.layout, &other.reporter, false);
    assert_eq!(plan.custom, Some(CustomAction::Bootloader));
    assert_eq!(plan.send, None);
    for _ in 0..5 {
        assert_eq!(tick_keeb(&mut other.layout, &other.reporter, false).custom, None);
    }
}

#[test]
fn serial_task_drops_what_is_no_frame() {
    let table = base_table();
    let mut host = init(true, &table);
    for b in [b'Z', 1, 9, b'\n'] {
        uart_rx(&mut host.receiver, &mut host.layout, b);
    }
    for b in serialize(KeyEvent::Press(0, 1)) {
        uart_rx(&mut host.receiver, &mut host.layout, b);
    }
    tick_keeb(&mut host.layout, &host.reporter, true);
    assert_eq!(host.layout.keycodes().clone(), vec![KeyCode::Q]);
}

#[test]
fn frame_of_column_ten_is_received() {
    let table = base_table();
    let mut host = init(true, &table);
    for b in serialize(KeyEvent::Press(1, 10)) {
        uart_rx(&mut host.receiver, &mut host.layout, b);
    }
    for b in serialize(KeyEvent::Press(0, 10)) {
        uart_rx(&mut host.receiver, &mut host.layout, b);
    }
    tick_keeb(&mut host.layout, &host.reporter, true);
    tick_keeb(&mut host.layout, &host.reporter, true);
    assert_eq!(host.layout.keycodes().clone(), vec![KeyCode::Quote, KeyCode::P]);
}

#[test]
fn thumb_key_of_the_table_taps_and_holds() {
    let table = base_table();
    let mut half = init(false, &table);
    handle_event(&mut half.layout, KeyEvent::Press(3, 4));
    for _ in 0..20 {
        tick_keeb(&mut half.layout, &half.reporter, true);
        assert_eq!(half.layout.keycodes().clone(), vec![]);
    }
    handle_event(&mut half.layout, KeyEvent::Release(3, 4));
    tick_keeb(&mut half.layout, &half.reporter, true);
    assert_eq!(half.layout.keycodes().clone(), vec![KeyCode::Tab]);
    tick_keeb(&mut half.layout, &half.reporter, true);
    assert_eq!(half.layout.keycodes().clone(), vec![]);
}
