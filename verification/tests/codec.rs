use hillside_keyberon::codec::{deserialize, serialize, FormatError};
use hillside_keyberon::event::KeyEvent;
use hillside_keyberon::receiver::{encode_all, Receiver};

#[test]
fn press_frame_bytes() {
    assert_eq!(serialize(KeyEvent::Press(1, 9)), [b'P', 1, 9, b'\n']);
}

#[test]
fn release_frame_bytes() {
    assert_eq!(serialize(KeyEvent::Release(0, 255)), [b'R', 0, 255, b'\n']);
}

#[test]
fn round_trip_of_every_position() {
    for r in 0..=255u8 {
        for c in 0..=255u8 {
            let p = KeyEvent::Press(r, c);
            let q = KeyEvent::Release(r, c);
            assert_eq!(deserialize(&serialize(p)), Ok(p));
            assert_eq!(deserialize(&serialize(q)), Ok(q));
        }
    }
}

#[test]
fn bad_tag_is_refused() {
    assert_eq!(deserialize(&[b'X', 1, 2, b'\n']), Err(FormatError));
    assert_eq!(deserialize(&[b'p', 1, 2, b'\n']), Err(FormatError));
}

#[test]
fn missing_terminator_is_refused() {
    assert_eq!(deserialize(&[b'P', 1, 2, b'\r']), Err(FormatError));
    assert_eq!(deserialize(&[b'R', 1, 2, 0]), Err(FormatError));
}

#[test]
fn wrong_length_is_refused() {
    assert_eq!(deserialize(&[]), Err(FormatError));
    assert_eq!(deserialize(&[b'P', 1, b'\n']), Err(FormatError));
    assert_eq!(deserialize(&[b'P', 1, 2, b'\n', b'\n']), Err(FormatError));
}

#[test]
fn receiver_starts_empty() {
    assert_eq!(Receiver::new().window, [0, 0, 0, 0]);
}

#[test]
fn receiver_hands_out_at_the_terminator() {
    let mut rx = Receiver::new();
    assert_eq!(rx.push(b'P'), None);
    assert_eq!(rx.push(1), None);
    assert_eq!(rx.push(9), None);
    assert_eq!(rx.push(b'\n'), Some(KeyEvent::Press(1, 9)));
    assert_eq!(rx.window, [b'P', 1, 9, b'\n']);
}

#[test]
fn receiver_shifts_by_one() {
    let mut rx = Receiver { window: [1, 2, 3, 4] };
    assert_eq!(rx.push(5), None);
    assert_eq!(rx.window, [2, 3, 4, 5]);
}

#[test]
fn receiver_recovers_after_a_damaged_frame() {
    let mut rx = Receiver::new();
    let mut stream: Vec<u8> = vec![b'P', 1, b'\n'];
    let good = vec![KeyEvent::Press(0, 3), KeyEvent::Release(0, 3), KeyEvent::Press(3, 11)];
    stream.extend(encode_all(&good));
    assert_eq!(rx.feed(&stream), good);
}

#[test]
fn receiver_drops_a_frame_with_a_bad_tag() {
    let mut rx = Receiver::new();
    let mut stream: Vec<u8> = vec![b'Q', 1, 2, b'\n'];
    stream.extend(serialize(KeyEvent::Release(2, 5)));
    assert_eq!(rx.feed(&stream), vec![KeyEvent::Release(2, 5)]);
}

#[test]
fn receiver_ignores_bytes_without_terminator() {
    let mut rx = Receiver::new();
    assert_eq!(rx.feed(&[b'P', b'R', 1, 2, 3, b'P', 0, 0]), vec![]);
    assert_eq!(rx.window, [3, b'P', 0, 0]);
}

#[test]
fn row_that_is_a_line_feed_can_mimic_a_frame() {
    let mut rx = Receiver::new();
    let mut stream: Vec<u8> = Vec::new();
    stream.extend(serialize(KeyEvent::Press(0, b'P')));
    stream.extend(serialize(KeyEvent::Press(b'\n', 1)));
    assert_eq!(
        rx.feed(&stream),
        vec![KeyEvent::Press(0, b'P'), KeyEvent::Press(b'\n', b'P'), KeyEvent::Press(b'\n', 1)]
    );
}

#[test]
fn encode_all_joins_the_frames() {
    let bytes = encode_all(&vec![KeyEvent::Press(1, 2), KeyEvent::Release(3, 4)]);
    assert_eq!(bytes, vec![b'P', 1, 2, b'\n', b'R', 3, 4, b'\n']);
    assert_eq!(encode_all(&vec![]), Vec::<u8>::new());
}
