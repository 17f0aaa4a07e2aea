//! Power-event handling: checked decoding of the fixed-layout binary
//! records read from the input device, and the decision they trigger.
//!
//! The driver owns the device and the read loop; each record's bytes are
//! handed to the library, which decodes the fixed-width fields through
//! explicit offsets and decides whether the record is a power-button press.

use vstd::prelude::*;

verus! {

/// The input-event key code of the power button.
pub const KEY_POWER: u16 = 116;

/// The size in bytes of one binary input-event record.
pub const INPUT_EVENT_SIZE: usize = 24;

/// One decoded input-event record: two 64-bit timestamp fields, the event
/// type, the key code, and the event value.
#[derive(Debug, Default, Copy, Clone, PartialEq, Eq, Structural)]
pub struct InputEvent {
    pub tv_sec: u64,
    pub tv_usec: u64,
    pub evtype: u16,
    pub code: u16,
    pub value: u32,
}

/// The unsigned value of `n` bytes at offset `off`, least significant byte
/// first.
pub open spec fn le_bytes(b: Seq<u8>, off: int, n: nat) -> nat
    decreases n,
{
    if n == 0 {
        0
    } else {
        b[off] as nat + 256 * le_bytes(b, off + 1, (n - 1) as nat)
    }
}

fn le_u16_at(b: &Vec<u8>, off: usize) -> (v: u16)
    requires
        off + 2 <= b@.len(),
    ensures
        v == le_bytes(b@, off as int, 2),
{
    let _len: usize = b.len();
    let v = (b[off] as u16) + 256 * (b[off + 1] as u16);
    proof {
        assert(le_bytes(b@, off + 2, 0) == 0);
        assert(le_bytes(b@, off + 1, 1) == b@[off + 1]);
        assert(le_bytes(b@, off as int, 2) == b@[off as int] + 256 * le_bytes(b@, off + 1, 1));
    }
    v
}

fn le_u32_at(b: &Vec<u8>, off: usize) -> (v: u32)
    requires
        off + 4 <= b@.len(),
    ensures
        v == le_bytes(b@, off as int, 4),
{
    let _len: usize = b.len();
    let v = (b[off] as u32) + 256 * (b[off + 1] as u32) + 65536 * (b[off + 2] as u32) + 16777216 * (
    b[off + 3] as u32);
    proof {
        assert(le_bytes(b@, off + 4, 0) == 0);
        assert(le_bytes(b@, off + 3, 1) == b@[off + 3]);
        assert(le_bytes(b@, off + 2, 2) == b@[off + 2] + 256 * le_bytes(b@, off + 3, 1));
        assert(le_bytes(b@, off + 1, 3) == b@[off + 1] + 256 * le_bytes(b@, off + 2, 2));
        assert(le_bytes(b@, off as int, 4) == b@[off as int] + 256 * le_bytes(b@, off + 1, 3));
    }
    v
}

fn le_u64_at(b: &Vec<u8>, off: usize) -> (v: u64)
    requires
        off + 8 <= b@.len(),
    ensures
        v == le_bytes(b@, off as int, 8),
{
    let _len: usize = b.len();
    let v = (b[off] as u64) + 256 * (b[off + 1] as u64) + 65536 * (b[off + 2] as u64) + 16777216 * (
    b[off + 3] as u64) + 4294967296 * (b[off + 4] as u64) + 1099511627776 * (b[off + 5] as u64)
        + 281474976710656 * (b[off + 6] as u64) + 72057594037927936 * (b[off + 7] as u64);
    proof {
        assert(le_bytes(b@, off + 8, 0) == 0);
        assert(le_bytes(b@, off + 7, 1) == b@[off + 7]);
        assert(le_bytes(b@, off + 6, 2) == b@[off + 6] + 256 * le_bytes(b@, off + 7, 1));
        assert(le_bytes(b@, off + 5, 3) == b@[off + 5] + 256 * le_bytes(b@, off + 6, 2));
        assert(le_bytes(b@, off + 4, 4) == b@[off + 4] + 256 * le_bytes(b@, off + 5, 3));
        assert(le_bytes(b@, off + 3, 5) == b@[off + 3] + 256 * le_bytes(b@, off + 4, 4));
        assert(le_bytes(b@, off + 2, 6) == b@[off + 2] + 256 * le_bytes(b@, off + 3, 5));
        assert(le_bytes(b@, off + 1, 7) == b@[off + 1] + 256 * le_bytes(b@, off + 2, 6));
        assert(le_bytes(b@, off as int, 8) == b@[off as int] + 256 * le_bytes(b@, off + 1, 7));
    }
    v
}

/// Whether a decoded event matches the record bytes: each field is read at
/// its fixed offset, least significant byte first.
pub open spec fn event_decodes(b: Seq<u8>, ev: InputEvent) -> bool {
    &&& ev.tv_sec == le_bytes(b, 0, 8)
    &&& ev.tv_usec == le_bytes(b, 8, 8)
    &&& ev.evtype == le_bytes(b, 16, 2)
    &&& ev.code == le_bytes(b, 18, 2)
    &&& ev.value == le_bytes(b, 20, 4)
}

/// Decodes one fixed-width binary input-event record through checked
/// parsing. Anything but exactly 24 bytes is refused.
pub fn parse_input_event(b: &Vec<u8>) -> (r: Option<InputEvent>)
    ensures
        b@.len() == 24 ==> (r matches Some(ev) && event_decodes(b@, ev)),
        b@.len() != 24 ==> r is None,
{
    if b.len() != 24 {
        return None;
    }
    Some(
        InputEvent {
            tv_sec: le_u64_at(b, 0),
            tv_usec: le_u64_at(b, 8),
            evtype: le_u16_at(b, 16),
            code: le_u16_at(b, 18),
            value: le_u32_at(b, 20),
        },
    )
}

/// What an event asks the daemon to do.
#[derive(Debug, Clone, Copy, PartialEq, Eq, Structural)]
pub enum PowerDecision {
    /// The record carries the power key: trigger an orderly power-off.
    PowerOff,
    /// Any other record is ignored; the listener keeps reading.
    Ignore,
}

/// Decides what a decoded record triggers: exactly the records whose code
/// is the power key ask for a power-off.
pub fn power_button_decision(ev: &InputEvent) -> (d: PowerDecision)
    ensures
        d == PowerDecision::PowerOff <==> ev.code == KEY_POWER,
{
    if ev.code == KEY_POWER {
        PowerDecision::PowerOff
    } else {
        PowerDecision::Ignore
    }
}

} // verus!
