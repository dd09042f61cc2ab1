//! The serial link between the two halves: four-byte frames, and the
//! receiver that finds them again in a stream of bytes.
//!
//! A frame is a tag (`P` or `R`), the row, the column, and a line feed.

use vstd::prelude::*;
use crate::event::KeyEvent;

verus! {

/// Tag byte of a press frame, the letter `P`.
pub const TAG_PRESS: u8 = 80;

/// Tag byte of a release frame, the letter `R`.
pub const TAG_RELEASE: u8 = 82;

/// Last byte of every frame, a line feed.
pub const TERMINATOR: u8 = 10;

/// Four bytes that are no frame.
#[derive(Clone, Copy, Debug, PartialEq, Eq, Structural)]
pub struct FormatError;

/// Whether `b` is one of the two tag bytes.
pub open spec fn is_tag(b: u8) -> bool {
    b == TAG_PRESS || b == TAG_RELEASE
}

/// The frame that carries `e`.
pub open spec fn frame_of(e: KeyEvent) -> Seq<u8> {
    match e {
        KeyEvent::Press(r, c) => seq![TAG_PRESS, r, c, TERMINATOR],
        KeyEvent::Release(r, c) => seq![TAG_RELEASE, r, c, TERMINATOR],
    }
}

/// The event that `bytes` carries, if `bytes` is a frame.
pub open spec fn parse(bytes: Seq<u8>) -> Option<KeyEvent> {
    if bytes.len() == 4 && bytes[3] == TERMINATOR && bytes[0] == TAG_PRESS {
        Some(KeyEvent::Press(bytes[1], bytes[2]))
    } else if bytes.len() == 4 && bytes[3] == TERMINATOR && bytes[0] == TAG_RELEASE {
        Some(KeyEvent::Release(bytes[1], bytes[2]))
    } else {
        None
    }
}

/// Writes `event` as a frame.
pub fn serialize(event: KeyEvent) -> (frame: [u8; 4])
    ensures
        frame@ == frame_of(event),
{
    let frame: [u8; 4] = match event {
        KeyEvent::Press(r, c) => [TAG_PRESS, r, c, TERMINATOR],
        KeyEvent::Release(r, c) => [TAG_RELEASE, r, c, TERMINATOR],
    };
    assert(frame@ =~= frame_of(event));
    frame
}

/// Reads a frame. Anything but a tag, two bytes and a line feed is refused.
pub fn deserialize(bytes: &[u8]) -> (r: Result<KeyEvent, FormatError>)
    ensures
        r == match parse(bytes@) {
            Some(e) => Ok::<KeyEvent, FormatError>(e),
            None => Err::<KeyEvent, FormatError>(FormatError),
        },
{
    if bytes.len() != 4 || bytes[3] != TERMINATOR {
        return Err(FormatError);
    }
    if bytes[0] == TAG_PRESS {
        Ok(KeyEvent::Press(bytes[1], bytes[2]))
    } else if bytes[0] == TAG_RELEASE {
        Ok(KeyEvent::Release(bytes[1], bytes[2]))
    } else {
        Err(FormatError)
    }
}

/// Every event comes back from its own frame.
pub proof fn lemma_round_trip(e: KeyEvent)
    ensures
        frame_of(e).len() == 4,
        parse(frame_of(e)) == Some(e),
{
}

/// Only the frame of an event reads as that event.
pub proof fn lemma_parse_is_frame(bytes: Seq<u8>, e: KeyEvent)
    ensures
        parse(bytes) == Some(e) <==> bytes == frame_of(e),
{
    if parse(bytes) == Some(e) {
        assert(bytes =~= frame_of(e));
    }
}

} // verus!
