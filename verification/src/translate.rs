use vstd::prelude::*;

use crate::events::{down_event, key_down, key_up, up_event, RawEvent, VAL_DOWN, VAL_UP};
use crate::keymap::Keymap;

verus! {

/// What a single raw event translates to, given the keymap and the pending
/// register: the ordered sequence of output events and the new register.
///
/// A key-down of a remappable key is deferred: nothing is emitted and the key
/// becomes pending.  Any other key-down first resolves a pending key as a
/// literal press (it was held, so it acts as a modifier).  A key-up of the
/// pending key itself resolves it as a tap of its mapped destination; a
/// key-up of any other key resolves the pending key as a literal press before
/// the release passes through.  Autorepeat values and non-key events pass
/// through untouched and leave the register alone.
pub open spec fn spec_translate(km: Map<u16, u16>, ev: RawEvent, pending: Option<u16>) -> (Seq<
    RawEvent,
>, Option<u16>) {
    match ev {
        RawEvent::Other { .. } => (seq![ev], pending),
        RawEvent::Key { code, value } => {
            if value == VAL_DOWN {
                match pending {
                    None => if km.contains_key(code) {
                        (Seq::<RawEvent>::empty(), Some(code))
                    } else {
                        (seq![ev], None::<u16>)
                    },
                    Some(p) => if km.contains_key(code) {
                        (seq![down_event(p)], Some(code))
                    } else {
                        (seq![down_event(p), ev], None::<u16>)
                    },
                }
            } else if value == VAL_UP {
                match pending {
                    None => (seq![ev], None::<u16>),
                    Some(p) => if p == code {
                        if km.contains_key(p) {
                            (seq![down_event(km[p]), up_event(km[p])], None::<u16>)
                        } else {
                            (seq![ev], None::<u16>)
                        }
                    } else {
                        (seq![down_event(p), ev], None::<u16>)
                    },
                }
            } else {
                (seq![ev], pending)
            }
        },
    }
}

/// Translates one raw event.  Pure: the result is fixed by the keymap, the
/// event and the pending register alone, as `spec_translate` states.
pub fn translate_event(keymap: &Keymap, ev: RawEvent, pending: Option<u16>) -> (r: (
    Vec<RawEvent>,
    Option<u16>,
))
    requires
        keymap.wf(),
    ensures
        r.0@ == spec_translate(keymap@, ev, pending).0,
        r.1 == spec_translate(keymap@, ev, pending).1,
{
    let mut out: Vec<RawEvent> = Vec::new();
    match ev {
        RawEvent::Other { .. } => {
            out.push(ev);
            (out, pending)
        },
        RawEvent::Key { code, value } => {
            if value == VAL_DOWN {
                match (keymap.contains_source(code), pending) {
                    (false, None) => {
                        out.push(ev);
                        (out, None)
                    },
                    (false, Some(p)) => {
                        out.push(key_down(p));
                        out.push(ev);
                        (out, None)
                    },
                    (true, None) => (out, Some(code)),
                    (true, Some(p)) => {
                        out.push(key_down(p));
                        (out, Some(code))
                    },
                }
            } else if value == VAL_UP {
                match pending {
                    None => {
                        out.push(ev);
                        (out, None)
                    },
                    Some(p) => {
                        if p == code {
                            match keymap.get(p) {
                                Some(d) => {
                                    out.push(key_down(d));
                                    out.push(key_up(d));
                                    (out, None)
                                },
                                None => {
                                    out.push(ev);
                                    (out, None)
                                },
                            }
                        } else {
                            out.push(key_down(p));
                            out.push(ev);
                            (out, None)
                        }
                    },
                }
            } else {
                out.push(ev);
                (out, pending)
            }
        },
    }
}

/// The left fold of `spec_translate` over a batch of events: one output group
/// per input event, with the pending register carried from event to event.
pub open spec fn spec_translate_batch(
    km: Map<u16, u16>,
    evs: Seq<RawEvent>,
    pending: Option<u16>,
) -> (Seq<Seq<RawEvent>>, Option<u16>)
    decreases evs.len(),
{
    if evs.len() == 0 {
        (Seq::<Seq<RawEvent>>::empty(), pending)
    } else {
        let front = spec_translate_batch(km, evs.drop_last(), pending);
        let step = spec_translate(km, evs.last(), front.1);
        (front.0.push(step.0), step.1)
    }
}

/// Translates a batch of raw events in order, threading the pending register
/// through every step.  Returns one output group per input event — the caller
/// emits each non-empty group as one atomic write, in order, before the next
/// event's group — and the register to carry into the next batch.
pub fn translate_batch(keymap: &Keymap, evs: &Vec<RawEvent>, pending: Option<u16>) -> (r: (
    Vec<Vec<RawEvent>>,
    Option<u16>,
))
    requires
        keymap.wf(),
    ensures
        r.0@.len() == evs@.len(),
        r.0@.map_values(|g: Vec<RawEvent>| g@) == spec_translate_batch(keymap@, evs@, pending).0,
        r.1 == spec_translate_batch(keymap@, evs@, pending).1,
{
    let n: usize = evs.len();
    let mut groups: Vec<Vec<RawEvent>> = Vec::new();
    let mut cur: Option<u16> = pending;
    let mut i: usize = 0;
    while i < n
        invariant
            keymap.wf(),
            n == evs@.len(),
            i <= n,
            groups@.len() == i,
            groups@.map_values(|g: Vec<RawEvent>| g@) == spec_translate_batch(
                keymap@,
                evs@.subrange(0, i as int),
                pending,
            ).0,
            cur == spec_translate_batch(keymap@, evs@.subrange(0, i as int), pending).1,
        decreases n - i,
    {
        let (out, next) = translate_event(keymap, evs[i], cur);
        groups.push(out);
        cur = next;
        proof {
            let pre = evs@.subrange(0, i as int);
            let post = evs@.subrange(0, i + 1 as int);
            assert(post.drop_last() =~= pre);
            assert(post.last() == evs@[i as int]);
            assert(groups@.map_values(|g: Vec<RawEvent>| g@) =~= spec_translate_batch(
                keymap@,
                post,
                pending,
            ).0);
        }
        i += 1;
    }
    proof {
        assert(evs@.subrange(0, n as int) =~= evs@);
    }
    (groups, cur)
}

/// An event that is not a key event is echoed one-to-one and never alters the
/// pending register; so is a key event whose transition value is neither the
/// press nor the release constant (an autorepeat).
pub proof fn lemma_passthrough_leaves_pending(km: Map<u16, u16>, ev: RawEvent, pending: Option<
    u16,
>)
    requires
        ev matches RawEvent::Key { code, value } ==> (value != VAL_DOWN && value != VAL_UP),
    ensures
        spec_translate(km, ev, pending).0 == seq![ev],
        spec_translate(km, ev, pending).1 == pending,
{
}

/// The lifecycle of the single-slot pending register: one step either leaves
/// it alone, clears it, or fills it with a key of the keymap's domain that
/// went down in that very step.  No other value can ever become pending.
pub proof fn lemma_pending_lifecycle(km: Map<u16, u16>, ev: RawEvent, pending: Option<u16>)
    ensures
        ({
            let next = spec_translate(km, ev, pending).1;
            ||| next == pending
            ||| next is None
            ||| (next matches Some(k) && ev == down_event(k) && km.contains_key(k))
        }),
{
}

/// The translator is a mathematical function: calls on identical inputs give
/// identical outputs and identical new registers.
pub proof fn lemma_translate_deterministic(
    km1: Map<u16, u16>,
    km2: Map<u16, u16>,
    ev1: RawEvent,
    ev2: RawEvent,
    p1: Option<u16>,
    p2: Option<u16>,
)
    requires
        km1 == km2,
        ev1 == ev2,
        p1 == p2,
    ensures
        spec_translate(km1, ev1, p1) == spec_translate(km2, ev2, p2),
{
}

} // verus!
