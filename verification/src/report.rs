//! HID reports: the eight bytes that tell the host which keys are down
//! (the modifiers, a byte that stays zero, and six keys), and the rule that
//! says when they are sent.
//!
//! A report is built by keyberon from key codes. It is sent when it differs
//! from the last one that the transport took, and only while the USB device
//! is configured; a write that takes no byte is tried again.

use vstd::prelude::*;
use keyberon::key_code::KeyCode;
use crate::outside::{hid_report, key_code_byte};

verus! {

/// The byte that fills the key slots when more than six keys are down.
pub const ROLL_OVER: u8 = 1;

/// Byte of the first modifier, left control.
pub const FIRST_MODIFIER: u8 = 0xE0;

/// Byte of the last modifier, right GUI.
pub const LAST_MODIFIER: u8 = 0xE7;

/// The bytes of `codes`, one for one.
pub open spec fn bytes_of(codes: Seq<KeyCode>) -> Seq<u8> {
    Seq::new(codes.len(), |i: int| key_code_byte(codes[i]))
}

/// The report without any key.
pub open spec fn empty_report() -> Seq<u8> {
    Seq::new(8, |i: int| 0u8)
}

/// `rep` with all six key slots set to `b`.
pub open spec fn with_all(rep: Seq<u8>, b: u8) -> Seq<u8> {
    Seq::new(8, |i: int| if i < 2 { rep[i] } else { b })
}

/// The first key slot of `rep`, from `from` on, that holds zero; 8 if none
/// does.
pub open spec fn first_free(rep: Seq<u8>, from: int) -> int
    decreases 8 - from,
{
    if from >= 8 {
        8
    } else if rep[from] == 0 {
        from
    } else {
        first_free(rep, from + 1)
    }
}

/// `rep` with the key of byte `b` added. Zero adds nothing. One of the
/// three error codes fills every key slot. A modifier sets its bit in the
/// first byte. Any other key takes the first free slot, and where none is
/// free every slot is filled with `ROLL_OVER`.
pub open spec fn pressed(rep: Seq<u8>, b: u8) -> Seq<u8> {
    if b == 0 {
        rep
    } else if b <= 3 {
        with_all(rep, b)
    } else if FIRST_MODIFIER <= b <= LAST_MODIFIER {
        rep.update(0, rep[0] | (1u8 << ((b - FIRST_MODIFIER) as u8)))
    } else {
        let slot = first_free(rep, 2);
        if slot < 8 {
            rep.update(slot, b)
        } else {
            with_all(rep, ROLL_OVER)
        }
    }
}

/// The report of the keys of bytes `codes`, added in order.
pub open spec fn report_of(codes: Seq<u8>) -> Seq<u8>
    decreases codes.len(),
{
    if codes.len() == 0 {
        empty_report()
    } else {
        pressed(report_of(codes.drop_last()), codes.last())
    }
}

/// Builds the report of `codes`.
pub fn assemble(codes: &Vec<KeyCode>) -> (report: [u8; 8])
    ensures
        report@ == report_of(bytes_of(codes@)),
{
    hid_report(codes)
}

/// Whether two reports hold the same bytes.
pub fn same_report(a: &[u8; 8], b: &[u8; 8]) -> (same: bool)
    ensures
        same == (a@ == b@),
{
    let mut i: usize = 0;
    while i < 8
        invariant
            i <= 8,
            forall|j: int| 0 <= j < i ==> a@[j] == b@[j],
        decreases 8 - i,
    {
        if a[i] != b[i] {
            return false;
        }
        i = i + 1;
    }
    assert(a@ =~= b@);
    true
}

/// What the transport said of a write.
#[derive(Clone, Copy, Debug, PartialEq, Eq, Structural)]
pub enum WriteResult {
    /// It took this many bytes.
    Accepted(usize),
    /// It failed.
    Failed,
}

/// The sender's memory: the last report that the transport took.
#[derive(Clone, Copy, Debug)]
pub struct Reporter {
    /// The last report taken.
    pub last: [u8; 8],
}

impl View for Reporter {
    type V = Seq<u8>;

    open spec fn view(&self) -> Seq<u8> {
        self.last@
    }
}

impl Reporter {
    /// Whether a report must be sent: the device is configured and the
    /// report differs from the last one taken.
    pub open spec fn owes(self, configured: bool, report: Seq<u8>) -> bool {
        configured && report != self@
    }

    /// The memory after a write of `report` that ended as `result`: the
    /// report is remembered once the transport took a byte of it.
    pub open spec fn after(self, report: Seq<u8>, result: WriteResult) -> Seq<u8> {
        match result {
            WriteResult::Accepted(n) => if n > 0 {
                report
            } else {
                self@
            },
            WriteResult::Failed => self@,
        }
    }

    /// A sender that has sent nothing: the host takes the report without
    /// any key for granted.
    pub fn new() -> (r: Reporter)
        ensures
            r@ == empty_report(),
    {
        let r = Reporter { last: [0u8, 0u8, 0u8, 0u8, 0u8, 0u8, 0u8, 0u8] };
        assert(r@ =~= empty_report());
        r
    }

    /// Whether `report` must be sent now.
    pub fn due(&self, configured: bool, report: &[u8; 8]) -> (send: bool)
        ensures
            send == self.owes(configured, report@),
    {
        configured && !same_report(report, &self.last)
    }

    /// Takes note of how a write of `report` ended, and says whether the
    /// write must be tried again: it must when the transport took no byte.
    pub fn written(&mut self, report: [u8; 8], result: WriteResult) -> (again: bool)
        ensures
            again == (result == WriteResult::Accepted(0)),
            final(self)@ == old(self).after(report@, result),
    {
        match result {
            WriteResult::Accepted(n) => {
                if n > 0 {
                    self.last = report;
                    false
                } else {
                    true
                }
            },
            WriteResult::Failed => false,
        }
    }
}

/// Nothing is owed twice: once the transport has taken a report, the same
/// report is not due again, and it stays so while writes of it fail or take
/// nothing.
pub proof fn lemma_sent_once(r: Reporter, report: Seq<u8>, n: usize, configured: bool)
    requires
        n > 0,
    ensures
        r.after(report, WriteResult::Accepted(n)) == report,
        r@ == report ==> !r.owes(configured, report),
        r.after(report, WriteResult::Accepted(0)) == r@,
        r.after(report, WriteResult::Failed) == r@,
{
}

/// Without a configured device nothing is ever due.
pub proof fn lemma_unconfigured_sends_nothing(r: Reporter, report: Seq<u8>)
    ensures
        !r.owes(false, report),
{
}

/// A report has eight bytes, and its second byte stays zero.
pub proof fn lemma_report_shape(codes: Seq<u8>)
    ensures
        report_of(codes).len() == 8,
        report_of(codes)[1] == 0,
    decreases codes.len(),
{
    if codes.len() > 0 {
        lemma_report_shape(codes.drop_last());
        let rep = report_of(codes.drop_last());
        lemma_first_free_range(rep, 2);
    }
}

/// The first free slot lies among the key slots, or is 8.
pub proof fn lemma_first_free_range(rep: Seq<u8>, from: int)
    requires
        2 <= from <= 8,
    ensures
        from <= first_free(rep, from) <= 8,
        first_free(rep, from) < 8 ==> rep[first_free(rep, from)] == 0,
    decreases 8 - from,
{
    if from < 8 && rep[from] != 0 {
        lemma_first_free_range(rep, from + 1);
    }
}

} // verus!
