use vstd::prelude::*;

verus! {

/// Transition value of a key event that marks a release.
pub const VAL_UP: i32 = 0;

/// Transition value of a key event that marks a press.
pub const VAL_DOWN: i32 = 1;

/// One unit of the raw event stream.
///
/// A `Key` event carries the key code and its transition value: `VAL_DOWN`,
/// `VAL_UP`, or anything else for an autorepeat, which the translator passes
/// through untouched.  Every non-key event is `Other` and carries its raw
/// kind, code and value; the translator echoes it unchanged.
#[derive(Clone, Copy, Debug, PartialEq, Eq, Structural)]
pub enum RawEvent {
    Key { code: u16, value: i32 },
    Other { kind: u16, code: u16, value: i32 },
}

/// The key-press event for `code`.
pub open spec fn down_event(code: u16) -> RawEvent {
    RawEvent::Key { code, value: VAL_DOWN }
}

/// The key-release event for `code`.
pub open spec fn up_event(code: u16) -> RawEvent {
    RawEvent::Key { code, value: VAL_UP }
}

/// Builds the key-press event for `code`.
pub fn key_down(code: u16) -> (r: RawEvent)
    ensures
        r == down_event(code),
{
    RawEvent::Key { code, value: VAL_DOWN }
}

/// Builds the key-release event for `code`.
pub fn key_up(code: u16) -> (r: RawEvent)
    ensures
        r == up_event(code),
{
    RawEvent::Key { code, value: VAL_UP }
}

} // verus!
