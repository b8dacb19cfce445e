//! Single-instance wake-up signalling. A second launch asks the running
//! instance to show its window, both through an in-process flag and through
//! a marker file holding the time of the request in microseconds; the
//! running instance consumes each request once.

use vstd::prelude::*;
use crate::text::{chars_of, dec, decimal_string, parse_u64_chars, parse_u64_spec, skip_ws, skip_ws_back, trim_spec, lemma_parse_dec};

verus! {

/// The wake-up bookkeeping of the running instance.
#[derive(Debug, Clone, Copy, PartialEq, Eq, Structural)]
pub struct WakeupState {
    /// A wake-up was requested in this process and not yet consumed.
    pub requested: bool,
    /// The newest marker already consumed.
    pub last_marker: u64,
}

impl WakeupState {
    /// No request pending, no marker consumed.
    pub fn new() -> (s: WakeupState)
        ensures
            s == (WakeupState { requested: false, last_marker: 0 }),
    {
        WakeupState { requested: false, last_marker: 0 }
    }
}

/// The marker value for a time in microseconds, saturated to 64 bits.
pub fn current_wakeup_marker_value(micros: u128) -> (m: u64)
    ensures
        m == if micros > u64::MAX as u128 {
            u64::MAX
        } else {
            micros as u64
        },
{
    if micros > u64::MAX as u128 {
        u64::MAX
    } else {
        micros as u64
    }
}

/// The text written to the marker file: the marker in decimal.
pub fn wakeup_marker_contents(marker: u64) -> (s: String)
    ensures
        s@ == dec(marker as nat),
{
    decimal_string(marker)
}

/// Reads a marker file's text: surrounding whitespace is ignored and the
/// rest must be an unsigned 64-bit decimal number.
pub fn parse_wakeup_marker(raw: &str) -> (m: Option<u64>)
    ensures
        m == parse_u64_spec(trim_spec(raw@)),
{
    let cs = chars_of(raw);
    let i = skip_ws(cs.as_slice(), 0);
    assert(cs@.skip(0) == cs@);
    let k = skip_ws_back(cs.as_slice(), i, cs.len());
    assert(cs@.subrange(i as int, cs@.len() as int) == cs@.skip(i as int));
    parse_u64_chars(cs.as_slice(), i, k)
}

/// Records a wake-up request of this process, whose marker was just written.
pub fn request_wakeup(state: &mut WakeupState, marker: u64)
    ensures
        *final(state) == (WakeupState { requested: true, last_marker: marker }),
{
    state.requested = true;
    state.last_marker = marker;
}

/// The result and the next state of consuming wake-up requests, given the
/// marker read from the file (if it could be read).
pub open spec fn take_spec(s: WakeupState, file_marker: Option<u64>) -> (bool, WakeupState) {
    if s.requested {
        (
            true,
            WakeupState {
                requested: false,
                last_marker: match file_marker {
                    Some(m) => m,
                    None => s.last_marker,
                },
            },
        )
    } else {
        match file_marker {
            Some(m) => if m > s.last_marker {
                (true, WakeupState { requested: false, last_marker: m })
            } else {
                (false, s)
            },
            None => (false, s),
        }
    }
}

/// Consumes a pending wake-up request: one made in this process, or a
/// marker in the file newer than the last one consumed.
pub fn take_wakeup_request(state: &mut WakeupState, file_marker: Option<u64>) -> (woke: bool)
    ensures
        (woke, *final(state)) == take_spec(*old(state), file_marker),
{
    if state.requested {
        state.requested = false;
        if let Some(marker) = file_marker {
            state.last_marker = marker;
        }
        return true;
    }
    let marker = match file_marker {
        Some(marker) => marker,
        None => return false,
    };
    if marker <= state.last_marker {
        return false;
    }
    state.last_marker = marker;
    true
}

/// At start-up, markers already in the file count as consumed.
pub fn initialize_wakeup_state(state: &mut WakeupState, file_marker: Option<u64>)
    ensures
        *final(state) == match file_marker {
            Some(m) => WakeupState { last_marker: m, ..*old(state) },
            None => *old(state),
        },
{
    if let Some(marker) = file_marker {
        state.last_marker = marker;
    }
}

/// A written marker reads back as itself.
pub proof fn lemma_marker_round_trip(marker: u64)
    ensures
        parse_u64_spec(trim_spec(dec(marker as nat))) == Some(marker),
{
    crate::text::lemma_dec_value(marker as nat);
    crate::text::lemma_digits_not_ws(dec(marker as nat));
    lemma_parse_dec(marker);
}

/// A request is consumed once: taking again with the same file contents
/// finds nothing.
pub proof fn lemma_take_consumes(s: WakeupState, file_marker: Option<u64>)
    ensures
        !take_spec(take_spec(s, file_marker).1, file_marker).0,
{
}

/// A request of this process is always taken, whatever the file says.
pub proof fn lemma_request_then_take(s: WakeupState, marker: u64, file_marker: Option<u64>)
    ensures
        take_spec(WakeupState { requested: true, last_marker: marker }, file_marker).0,
{
}

} // verus!
