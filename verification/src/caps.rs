use vstd::prelude::*;

use crate::keymap::Keymap;

verus! {

/// Computes the capability set the virtual sink must advertise: the union of
/// the source device's supported key codes and every destination of the
/// keymap, and nothing else.  Computed once, before the sink is built.
pub fn capability_keys(supported: &Vec<u16>, keymap: &Keymap) -> (r: Vec<u16>)
    requires
        keymap.wf(),
    ensures
        r@.to_set() == supported@.to_set().union(keymap@.values()),
{
    let ds: Vec<u16> = keymap.destinations();
    let n: usize = supported.len();
    let m: usize = ds.len();
    let mut r: Vec<u16> = Vec::new();
    let mut i: usize = 0;
    while i < n
        invariant
            n == supported@.len(),
            i <= n,
            r@ == supported@.subrange(0, i as int),
        decreases n - i,
    {
        r.push(supported[i]);
        proof {
            assert(r@ =~= supported@.subrange(0, i + 1 as int));
        }
        i += 1;
    }
    let mut j: usize = 0;
    while j < m
        invariant
            n == supported@.len(),
            m == ds@.len(),
            j <= m,
            r@ == supported@ + ds@.subrange(0, j as int),
        decreases m - j,
    {
        r.push(ds[j]);
        proof {
            assert(r@ =~= supported@ + ds@.subrange(0, j + 1 as int));
        }
        j += 1;
    }
    proof {
        assert(r@ =~= supported@ + ds@);
        lemma_concat_to_set(supported@, ds@);
        assert(r@.to_set() =~= supported@.to_set().union(keymap@.values()));
    }
    r
}

/// The elements of a concatenation are the union of the elements of the two
/// parts.
proof fn lemma_concat_to_set(a: Seq<u16>, b: Seq<u16>)
    ensures
        (a + b).to_set() == a.to_set().union(b.to_set()),
{
    assert forall|v: u16| (a + b).to_set().contains(v) == a.to_set().union(b.to_set()).contains(
        v,
    ) by {
        if (a + b).contains(v) {
            let i = choose|i: int| 0 <= i < (a + b).len() && (a + b)[i] == v;
            if i < a.len() {
                assert(a[i] == v);
            } else {
                assert(b[i - a.len()] == v);
            }
        }
        if a.contains(v) {
            let i = choose|i: int| 0 <= i < a.len() && a[i] == v;
            assert((a + b)[i] == v);
        }
        if b.contains(v) {
            let i = choose|i: int| 0 <= i < b.len() && b[i] == v;
            assert((a + b)[a.len() + i] == v);
        }
    }
    assert((a + b).to_set() =~= a.to_set().union(b.to_set()));
}

/// Every destination key code named by the keymap is in the capability set:
/// the sink can emit whatever the translator substitutes.
pub proof fn lemma_capability_covers_destinations(
    caps: Set<u16>,
    supported: Seq<u16>,
    km: Map<u16, u16>,
)
    requires
        caps == supported.to_set().union(km.values()),
    ensures
        forall|k: u16| #[trigger] km.contains_key(k) ==> caps.contains(km[k]),
{
    assert forall|k: u16| #[trigger] km.contains_key(k) implies caps.contains(km[k]) by {
        assert(km.dom().contains(k) && km[k] == km[k]);
        assert(km.contains_value(km[k]));
        assert(km.values().contains(km[k]));
    }
}

} // verus!
