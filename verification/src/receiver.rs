//! The receiving end of the serial link.
//!
//! The receiver keeps the last four bytes it was given. Whenever the newest
//! byte is a line feed it tries to read the four as a frame; whatever does
//! not read as one is dropped without a word. A damaged frame therefore
//! costs no more than itself: the next line feed is a fresh trial.

use vstd::prelude::*;
use crate::codec::{deserialize, frame_of, is_tag, parse, TERMINATOR};
use crate::event::KeyEvent;

verus! {

/// The window after `byte` has come in: the oldest byte leaves.
pub open spec fn shifted(window: Seq<u8>, byte: u8) -> Seq<u8> {
    window.drop_first().push(byte)
}

/// What the receiver hands out when `byte` comes in on `window`.
pub open spec fn emitted(window: Seq<u8>, byte: u8) -> Option<KeyEvent> {
    if byte == TERMINATOR {
        parse(shifted(window, byte))
    } else {
        None
    }
}

/// The window after all of `bytes` have come in, one by one.
pub open spec fn window_after(window: Seq<u8>, bytes: Seq<u8>) -> Seq<u8>
    decreases bytes.len(),
{
    if bytes.len() == 0 {
        window
    } else {
        shifted(window_after(window, bytes.drop_last()), bytes.last())
    }
}

/// The events handed out while `bytes` come in on `window`, in order.
pub open spec fn received(window: Seq<u8>, bytes: Seq<u8>) -> Seq<KeyEvent>
    decreases bytes.len(),
{
    if bytes.len() == 0 {
        Seq::<KeyEvent>::empty()
    } else {
        let before = received(window, bytes.drop_last());
        match emitted(window_after(window, bytes.drop_last()), bytes.last()) {
            Some(e) => before.push(e),
            None => before,
        }
    }
}

/// The frames of `events`, one behind the other.
pub open spec fn frames(events: Seq<KeyEvent>) -> Seq<u8>
    decreases events.len(),
{
    if events.len() == 0 {
        Seq::<u8>::empty()
    } else {
        frames(events.drop_last()) + frame_of(events.last())
    }
}

/// Whether the frame of `e`, read behind `before`, shows a line feed three
/// bytes after a tag before its own end: its row is a line feed and the
/// byte two back is a tag, or its column is one and the last byte is a tag.
pub open spec fn mimics_end(before: Seq<u8>, e: KeyEvent) -> bool {
    ||| (e.row() == TERMINATOR && is_tag(before[2]))
    ||| (e.col() == TERMINATOR && is_tag(before[3]))
}

/// Whether none of the frames of `events`, read behind `window`, mimics an
/// end before its own.
pub open spec fn reads_cleanly(window: Seq<u8>, events: Seq<KeyEvent>) -> bool
    decreases events.len(),
{
    events.len() == 0 || {
        &&& reads_cleanly(window, events.drop_last())
        &&& !mimics_end(window_after(window, frames(events.drop_last())), events.last())
    }
}

/// The last four bytes that came over the link.
#[derive(Clone, Copy, Debug)]
pub struct Receiver {
    /// The window, oldest byte first.
    pub window: [u8; 4],
}

impl View for Receiver {
    type V = Seq<u8>;

    open spec fn view(&self) -> Seq<u8> {
        self.window@
    }
}

impl Receiver {
    /// A receiver that has seen nothing: four zero bytes.
    pub fn new() -> (r: Receiver)
        ensures
            r@ == seq![0u8, 0u8, 0u8, 0u8],
    {
        let r = Receiver { window: [0u8, 0u8, 0u8, 0u8] };
        assert(r@ =~= seq![0u8, 0u8, 0u8, 0u8]);
        r
    }

    /// Takes one byte in. Hands out an event when the byte is a line feed
    /// and the window then reads as a frame.
    pub fn push(&mut self, byte: u8) -> (out: Option<KeyEvent>)
        ensures
            final(self)@ == shifted(old(self)@, byte),
            out == emitted(old(self)@, byte),
    {
        let next: [u8; 4] = [self.window[1], self.window[2], self.window[3], byte];
        assert(next@ =~= shifted(self@, byte));
        self.window = next;
        if byte == TERMINATOR {
            match deserialize(&self.window) {
                Ok(e) => Some(e),
                Err(_) => None,
            }
        } else {
            None
        }
    }

    /// Takes `bytes` in, one by one, and collects what is handed out.
    pub fn feed(&mut self, bytes: &[u8]) -> (out: Vec<KeyEvent>)
        ensures
            final(self)@ == window_after(old(self)@, bytes@),
            out@ == received(old(self)@, bytes@),
    {
        let mut out: Vec<KeyEvent> = Vec::new();
        let mut i: usize = 0;
        assert(bytes@.take(0) =~= Seq::<u8>::empty());
        while i < bytes.len()
            invariant
                i <= bytes.len(),
                self@ == window_after(old(self)@, bytes@.take(i as int)),
                out@ == received(old(self)@, bytes@.take(i as int)),
            decreases bytes.len() - i,
        {
            assert(bytes@.take(i + 1).drop_last() =~= bytes@.take(i as int));
            assert(bytes@.take(i + 1).last() == bytes@[i as int]);
            match self.push(bytes[i]) {
                Some(e) => {
                    out.push(e);
                },
                None => {},
            }
            i = i + 1;
        }
        assert(bytes@.take(i as int) =~= bytes@);
        out
    }
}

/// Writes the frames of `events`, one behind the other.
pub fn encode_all(events: &Vec<KeyEvent>) -> (bytes: Vec<u8>)
    ensures
        bytes@ == frames(events@),
{
    let mut bytes: Vec<u8> = Vec::new();
    let mut i: usize = 0;
    assert(events@.take(0) =~= Seq::<KeyEvent>::empty());
    while i < events.len()
        invariant
            i <= events.len(),
            bytes@ == frames(events@.take(i as int)),
        decreases events.len() - i,
    {
        assert(events@.take(i + 1).drop_last() =~= events@.take(i as int));
        assert(events@.take(i + 1).last() == events@[i as int]);
        let frame: [u8; 4] = crate::codec::serialize(events[i]);
        let ghost before = bytes@;
        bytes.push(frame[0]);
        bytes.push(frame[1]);
        bytes.push(frame[2]);
        bytes.push(frame[3]);
        assert(bytes@ =~= before + frame@);
        i = i + 1;
    }
    assert(events@.take(i as int) =~= events@);
    bytes
}

/// One more byte adds what it makes the receiver hand out, and shifts the
/// window once more.
pub proof fn lemma_received_push(window: Seq<u8>, bytes: Seq<u8>, byte: u8)
    ensures
        window_after(window, bytes.push(byte)) == shifted(window_after(window, bytes), byte),
        received(window, bytes.push(byte)) == match emitted(window_after(window, bytes), byte) {
            Some(e) => received(window, bytes).push(e),
            None => received(window, bytes),
        },
{
    assert(bytes.push(byte).drop_last() =~= bytes);
}

/// The window keeps its length.
pub proof fn lemma_window_len(window: Seq<u8>, bytes: Seq<u8>)
    requires
        window.len() == 4,
    ensures
        window_after(window, bytes).len() == 4,
    decreases bytes.len(),
{
    if bytes.len() > 0 {
        lemma_window_len(window, bytes.drop_last());
    }
}

/// A stream in two parts: the second part is read on the window that the
/// first part left, and what it yields follows what the first part yielded.
pub proof fn lemma_received_concat(window: Seq<u8>, first: Seq<u8>, second: Seq<u8>)
    ensures
        window_after(window, first + second) == window_after(window_after(window, first), second),
        received(window, first + second) == received(window, first) + received(
            window_after(window, first),
            second,
        ),
    decreases second.len(),
{
    if second.len() == 0 {
        assert(first + second =~= first);
        assert(received(window, first) + Seq::<KeyEvent>::empty() =~= received(window, first));
    } else {
        let front = second.drop_last();
        let mid = window_after(window, first);
        lemma_received_concat(window, first, front);
        assert((first + second).drop_last() =~= first + front);
        assert((first + second).last() == second.last());
        match emitted(window_after(mid, front), second.last()) {
            Some(e) => {
                assert(received(window, first + second) =~= received(window, first) + received(
                    mid,
                    second,
                ));
            },
            None => {},
        }
    }
}

/// Bytes without a line feed among them yield nothing.
pub proof fn lemma_no_terminator_no_event(window: Seq<u8>, bytes: Seq<u8>)
    requires
        forall|i: int| 0 <= i < bytes.len() ==> bytes[i] != TERMINATOR,
    ensures
        received(window, bytes) == Seq::<KeyEvent>::empty(),
    decreases bytes.len(),
{
    if bytes.len() > 0 {
        lemma_no_terminator_no_event(window, bytes.drop_last());
    }
}

/// Whether four bytes, read behind `window`, show a line feed three bytes
/// after a tag before their own end.
pub open spec fn shows_end_early(window: Seq<u8>, four: Seq<u8>) -> bool {
    ||| (four[0] == TERMINATOR && is_tag(window[1]))
    ||| (four[1] == TERMINATOR && is_tag(window[2]))
    ||| (four[2] == TERMINATOR && is_tag(window[3]))
}

/// What four bytes yield behind any four others: nothing before the last
/// byte unless they show an end early, and at the last byte their event if
/// they are a frame. The window then holds the four.
pub proof fn lemma_four_received(window: Seq<u8>, four: Seq<u8>)
    requires
        window.len() == 4,
        four.len() == 4,
    ensures
        window_after(window, four) == four,
        !shows_end_early(window, four) ==> received(window, four) == match parse(four) {
            Some(e) => seq![e],
            None => Seq::<KeyEvent>::empty(),
        },
        shows_end_early(window, four) ==> received(window, four).len() > 0,
{
    let s0 = Seq::<u8>::empty();
    let s1 = s0.push(four[0]);
    let s2 = s1.push(four[1]);
    let s3 = s2.push(four[2]);
    let s4 = s3.push(four[3]);
    assert(s4 =~= four);
    lemma_received_push(window, s0, four[0]);
    lemma_received_push(window, s1, four[1]);
    lemma_received_push(window, s2, four[2]);
    lemma_received_push(window, s3, four[3]);
    let w1 = shifted(window, four[0]);
    let w2 = shifted(w1, four[1]);
    let w3 = shifted(w2, four[2]);
    let w4 = shifted(w3, four[3]);
    assert(w4 =~= four);
    assert(w1[0] == window[1] && w2[0] == window[2] && w3[0] == window[3]);
    assert(emitted(window, four[0]) is Some <==> four[0] == TERMINATOR && is_tag(window[1]));
    assert(emitted(w1, four[1]) is Some <==> four[1] == TERMINATOR && is_tag(window[2]));
    assert(emitted(w2, four[2]) is Some <==> four[2] == TERMINATOR && is_tag(window[3]));
    assert(emitted(w3, four[3]) == parse(four));
    if !shows_end_early(window, four) {
        assert(received(window, s3) =~= Seq::<KeyEvent>::empty());
    }
}

/// One frame behind any four bytes: when it mimics no end before its own,
/// the receiver hands out its event and nothing else, and the window then
/// holds the frame.
pub proof fn lemma_frame_received(window: Seq<u8>, e: KeyEvent)
    requires
        window.len() == 4,
        !mimics_end(window, e),
    ensures
        received(window, frame_of(e)) == seq![e],
        window_after(window, frame_of(e)) == frame_of(e),
{
    lemma_four_received(window, frame_of(e));
}

/// A damaged frame is dropped: four bytes that are no frame, and that show
/// no end before their own, yield nothing.
pub proof fn lemma_damaged_frame_dropped(window: Seq<u8>, four: Seq<u8>)
    requires
        window.len() == 4,
        four.len() == 4,
        parse(four) is None,
        !shows_end_early(window, four),
    ensures
        received(window, four) == Seq::<KeyEvent>::empty(),
{
    lemma_four_received(window, four);
}

/// The receiver finds its way back. After any bytes whatever, frames that
/// read cleanly yield their events, each once and in order, behind what the
/// bytes before them yielded.
pub proof fn lemma_resynchronizes(window: Seq<u8>, noise: Seq<u8>, events: Seq<KeyEvent>)
    requires
        window.len() == 4,
        reads_cleanly(window_after(window, noise), events),
    ensures
        received(window, noise + frames(events)) == received(window, noise) + events,
{
    lemma_window_len(window, noise);
    lemma_received_concat(window, noise, frames(events));
    lemma_frames_received(window_after(window, noise), events);
}

/// Frames that read cleanly behind `window` yield their events and nothing
/// else.
pub proof fn lemma_frames_received(window: Seq<u8>, events: Seq<KeyEvent>)
    requires
        window.len() == 4,
        reads_cleanly(window, events),
    ensures
        received(window, frames(events)) == events,
    decreases events.len(),
{
    if events.len() == 0 {
        assert(received(window, frames(events)) =~= events);
    } else {
        let front = events.drop_last();
        lemma_frames_received(window, front);
        lemma_window_len(window, frames(front));
        lemma_received_concat(window, frames(front), frame_of(events.last()));
        lemma_frame_received(window_after(window, frames(front)), events.last());
        assert(front + seq![events.last()] =~= events);
    }
}

/// Events whose rows and columns are no line feed read cleanly behind
/// anything: so do all events of a matrix with at most ten rows and columns.
pub proof fn lemma_small_events_read_cleanly(window: Seq<u8>, events: Seq<KeyEvent>)
    requires
        forall|i: int|
            0 <= i < events.len() ==> (#[trigger] events[i]).row() != TERMINATOR && events[i].col()
                != TERMINATOR,
    ensures
        reads_cleanly(window, events),
    decreases events.len(),
{
    if events.len() > 0 {
        lemma_small_events_read_cleanly(window, events.drop_last());
    }
}

/// One damaged frame, then good ones: the damaged frame is dropped, and
/// the frames behind it yield their events, each once and in order.
pub proof fn lemma_recovers(window: Seq<u8>, damaged: Seq<u8>, events: Seq<KeyEvent>)
    requires
        window.len() == 4,
        damaged.len() == 4,
        parse(damaged) is None,
        !shows_end_early(window, damaged),
        reads_cleanly(damaged, events),
    ensures
        received(window, damaged + frames(events)) == events,
{
    lemma_four_received(window, damaged);
    lemma_resynchronizes(window, damaged, events);
    assert(Seq::<KeyEvent>::empty() + events =~= events);
}

/// Behind the frames of some events the window holds the last frame.
pub proof fn lemma_window_after_frames(window: Seq<u8>, events: Seq<KeyEvent>)
    requires
        window.len() == 4,
        events.len() > 0,
    ensures
        window_after(window, frames(events)) == frame_of(events.last()),
{
    let front = frames(events.drop_last());
    lemma_window_len(window, front);
    lemma_received_concat(window, front, frame_of(events.last()));
    lemma_four_received(window_after(window, front), frame_of(events.last()));
}

/// Events whose rows are no line feed read cleanly behind a window whose
/// last byte is no tag: so do all events of a matrix with at most ten rows,
/// however many columns it has, behind a new receiver, behind a frame, and
/// behind a damaged frame that ends in a line feed.
pub proof fn lemma_low_rows_read_cleanly(window: Seq<u8>, events: Seq<KeyEvent>)
    requires
        window.len() == 4,
        !is_tag(window[3]),
        forall|i: int| 0 <= i < events.len() ==> (#[trigger] events[i]).row() != TERMINATOR,
    ensures
        reads_cleanly(window, events),
    decreases events.len(),
{
    if events.len() > 0 {
        let front = events.drop_last();
        lemma_low_rows_read_cleanly(window, front);
        if front.len() > 0 {
            lemma_window_after_frames(window, front);
        }
    }
}

} // verus!
