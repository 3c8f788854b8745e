use vstd::prelude::*;

verus! {

/// Whether some pair of `s` has `k` as its source key.
pub open spec fn assoc_contains(s: Seq<(u16, u16)>, k: u16) -> bool {
    exists|i: int| 0 <= i < s.len() && (#[trigger] s[i]).0 == k
}

/// The destination stored for `k`, meaningful only when `assoc_contains` holds.
pub open spec fn assoc_value(s: Seq<(u16, u16)>, k: u16) -> u16 {
    let i = choose|i: int| 0 <= i < s.len() && (#[trigger] s[i]).0 == k;
    s[i].1
}

/// The mapping denoted by a sequence of `(source, destination)` pairs.
pub open spec fn assoc_map(s: Seq<(u16, u16)>) -> Map<u16, u16> {
    Map::new(|k: u16| assoc_contains(s, k), |k: u16| assoc_value(s, k))
}

/// True when no source key occurs twice in `s`.
pub open spec fn unique_sources(s: Seq<(u16, u16)>) -> bool {
    forall|i: int, j: int| 0 <= i < j < s.len() ==> (#[trigger] s[i]).0 != (#[trigger] s[j]).0
}

/// With unique source keys, two pairs holding the same source are one pair.
proof fn lemma_witness_unique(s: Seq<(u16, u16)>, k: u16, a: int, b: int)
    requires
        unique_sources(s),
        0 <= a < s.len(),
        0 <= b < s.len(),
        s[a].0 == k,
        s[b].0 == k,
    ensures
        a == b,
{
}

/// With unique source keys, the pair at `i` decides the map at its source.
proof fn lemma_assoc_value_at(s: Seq<(u16, u16)>, i: int)
    requires
        unique_sources(s),
        0 <= i < s.len(),
    ensures
        assoc_contains(s, s[i].0),
        assoc_value(s, s[i].0) == s[i].1,
{
    let k = s[i].0;
    assert(assoc_contains(s, k));
    let w = choose|w: int| 0 <= w < s.len() && (#[trigger] s[w]).0 == k;
    lemma_witness_unique(s, k, w, i);
}

/// An immutable mapping from source key codes to destination key codes,
/// built once at startup and only read afterwards.
///
/// Two sources may map to the same destination; a source key occurs at most
/// once.  The view of a `Keymap` is the mathematical `Map<u16, u16>` it
/// denotes.
pub struct Keymap {
    pairs: Vec<(u16, u16)>,
}

impl View for Keymap {
    type V = Map<u16, u16>;

    closed spec fn view(&self) -> Map<u16, u16> {
        assoc_map(self.pairs@)
    }
}

impl Keymap {
    /// Well-formedness: no source key is stored twice.  Constructors
    /// establish it and every method preserves it.
    pub closed spec fn wf(self) -> bool {
        unique_sources(self.pairs@)
    }

    /// The empty keymap.
    pub fn new() -> (r: Keymap)
        ensures
            r.wf(),
            r@ == Map::<u16, u16>::empty(),
    {
        let r = Keymap { pairs: Vec::new() };
        proof {
            assert(r@ =~= Map::<u16, u16>::empty());
        }
        r
    }

    /// Adds the pair `src -> dst`, replacing any earlier pair for `src`.
    pub fn insert(&mut self, src: u16, dst: u16)
        requires
            old(self).wf(),
        ensures
            final(self).wf(),
            final(self)@ == old(self)@.insert(src, dst),
    {
        let ghost before = self.pairs@;
        let n: usize = self.pairs.len();
        let mut i: usize = 0;
        while i < n
            invariant
                self.pairs@ == before,
                before == old(self).pairs@,
                n == before.len(),
                i <= n,
                unique_sources(before),
                forall|j: int| 0 <= j < i ==> (#[trigger] before[j]).0 != src,
            decreases n - i,
        {
            if self.pairs[i].0 == src {
                self.pairs.set(i, (src, dst));
                proof {
                    lemma_update_keeps_map(before, i as int, src, dst);
                }
                return ;
            }
            i += 1;
        }
        self.pairs.push((src, dst));
        proof {
            lemma_push_adds_pair(before, src, dst);
        }
    }

    /// Whether `key` is a source key of the map.
    pub fn contains_source(&self, key: u16) -> (r: bool)
        ensures
            r == self@.contains_key(key),
    {
        let n: usize = self.pairs.len();
        let mut i: usize = 0;
        while i < n
            invariant
                n == self.pairs@.len(),
                i <= n,
                forall|j: int| 0 <= j < i ==> (#[trigger] self.pairs@[j]).0 != key,
            decreases n - i,
        {
            if self.pairs[i].0 == key {
                return true;
            }
            i += 1;
        }
        false
    }

    /// The destination for `key`, or `None` when the map has no pair for it.
    pub fn get(&self, key: u16) -> (r: Option<u16>)
        requires
            self.wf(),
        ensures
            r == (if self@.contains_key(key) {
                Some(self@[key])
            } else {
                None::<u16>
            }),
    {
        let n: usize = self.pairs.len();
        let mut i: usize = 0;
        while i < n
            invariant
                n == self.pairs@.len(),
                i <= n,
                self.wf(),
                forall|j: int| 0 <= j < i ==> (#[trigger] self.pairs@[j]).0 != key,
            decreases n - i,
        {
            if self.pairs[i].0 == key {
                proof {
                    lemma_assoc_value_at(self.pairs@, i as int);
                }
                return Some(self.pairs[i].1);
            }
            i += 1;
        }
        None
    }

    /// Every destination key code of the map, one entry per stored pair.
    pub fn destinations(&self) -> (r: Vec<u16>)
        requires
            self.wf(),
        ensures
            r@.to_set() == self@.values(),
    {
        let n: usize = self.pairs.len();
        let mut r: Vec<u16> = Vec::new();
        let mut i: usize = 0;
        while i < n
            invariant
                n == self.pairs@.len(),
                i <= n,
                r@.len() == i,
                forall|j: int| 0 <= j < i ==> r@[j] == (#[trigger] self.pairs@[j]).1,
            decreases n - i,
        {
            let d: u16 = self.pairs[i].1;
            r.push(d);
            i += 1;
        }
        proof {
            lemma_destination_list(self.pairs@, r@);
        }
        r
    }

    /// Builds the keymap holding every pair of `pairs`; on a repeated source
    /// key the later pair wins.
    pub fn from_pairs(pairs: &Vec<(u16, u16)>) -> (r: Keymap)
        ensures
            r.wf(),
            r@ == map_of_pairs(pairs@),
    {
        let n: usize = pairs.len();
        let mut r = Keymap::new();
        let mut i: usize = 0;
        while i < n
            invariant
                n == pairs@.len(),
                i <= n,
                r.wf(),
                r@ == map_of_pairs(pairs@.subrange(0, i as int)),
            decreases n - i,
        {
            let p: (u16, u16) = pairs[i];
            r.insert(p.0, p.1);
            proof {
                let pre = pairs@.subrange(0, i as int);
                let post = pairs@.subrange(0, i + 1 as int);
                assert(post.drop_last() =~= pre);
                assert(post.last() == pairs@[i as int]);
            }
            i += 1;
        }
        proof {
            assert(pairs@.subrange(0, n as int) =~= pairs@);
        }
        r
    }
}

/// The mapping described by a sequence of pairs when later pairs overwrite
/// earlier ones with the same source key.
pub open spec fn map_of_pairs(s: Seq<(u16, u16)>) -> Map<u16, u16>
    decreases s.len(),
{
    if s.len() == 0 {
        Map::empty()
    } else {
        map_of_pairs(s.drop_last()).insert(s.last().0, s.last().1)
    }
}

/// Overwriting the pair at `i`, whose source key is already `src`, keeps the
/// source keys unique and maps `src` to the new destination.
proof fn lemma_update_keeps_map(before: Seq<(u16, u16)>, i: int, src: u16, dst: u16)
    requires
        unique_sources(before),
        0 <= i < before.len(),
        before[i].0 == src,
    ensures
        unique_sources(before.update(i, (src, dst))),
        assoc_map(before.update(i, (src, dst))) == assoc_map(before).insert(src, dst),
{
    let after = before.update(i, (src, dst));
    assert(forall|j: int| 0 <= j < after.len() ==> (#[trigger] after[j]).0 == before[j].0);
    assert(unique_sources(after));
    assert forall|k: u16| assoc_contains(after, k) == assoc_contains(before, k) by {
        if assoc_contains(after, k) {
            let w = choose|w: int| 0 <= w < after.len() && (#[trigger] after[w]).0 == k;
            assert(before[w].0 == k);
        }
        if assoc_contains(before, k) {
            let w = choose|w: int| 0 <= w < before.len() && (#[trigger] before[w]).0 == k;
            assert(after[w].0 == k);
        }
    }
    assert forall|k: u16| #[trigger]
        assoc_map(after).contains_key(k) implies assoc_map(after)[k] == assoc_map(before).insert(
        src,
        dst,
    )[k] by {
        if k == src {
            lemma_assoc_value_at(after, i);
        } else {
            let w = choose|w: int| 0 <= w < before.len() && (#[trigger] before[w]).0 == k;
            assert(w != i);
            lemma_assoc_value_at(before, w);
            lemma_assoc_value_at(after, w);
        }
    }
    assert(assoc_map(after) =~= assoc_map(before).insert(src, dst));
}

/// Appending a pair with a fresh source key keeps the source keys unique and
/// adds exactly that pair to the map.
proof fn lemma_push_adds_pair(before: Seq<(u16, u16)>, src: u16, dst: u16)
    requires
        unique_sources(before),
        forall|j: int| 0 <= j < before.len() ==> (#[trigger] before[j]).0 != src,
    ensures
        unique_sources(before.push((src, dst))),
        assoc_map(before.push((src, dst))) == assoc_map(before).insert(src, dst),
{
    let after = before.push((src, dst));
    assert(forall|j: int| 0 <= j < before.len() ==> (#[trigger] after[j]) == before[j]);
    assert(after[before.len() as int].0 == src);
    assert(unique_sources(after));
    assert forall|k: u16| assoc_contains(after, k) == (k == src || assoc_contains(before, k)) by {
        if assoc_contains(after, k) {
            let w = choose|w: int| 0 <= w < after.len() && (#[trigger] after[w]).0 == k;
            if w < before.len() {
                assert(before[w].0 == k);
            }
        }
        if assoc_contains(before, k) {
            let w = choose|w: int| 0 <= w < before.len() && (#[trigger] before[w]).0 == k;
            assert(after[w].0 == k);
        }
    }
    assert forall|k: u16| #[trigger]
        assoc_map(after).contains_key(k) implies assoc_map(after)[k] == assoc_map(before).insert(
        src,
        dst,
    )[k] by {
        if k == src {
            lemma_assoc_value_at(after, before.len() as int);
        } else {
            let w = choose|w: int| 0 <= w < before.len() && (#[trigger] before[w]).0 == k;
            lemma_assoc_value_at(before, w);
            lemma_assoc_value_at(after, w);
        }
    }
    assert(assoc_map(after) =~= assoc_map(before).insert(src, dst));
}

/// A list holding the destination of every pair covers exactly the values of
/// the denoted map.
proof fn lemma_destination_list(s: Seq<(u16, u16)>, ds: Seq<u16>)
    requires
        unique_sources(s),
        ds.len() == s.len(),
        forall|j: int| 0 <= j < s.len() ==> ds[j] == (#[trigger] s[j]).1,
    ensures
        ds.to_set() == assoc_map(s).values(),
{
    assert forall|v: u16| ds.to_set().contains(v) == assoc_map(s).values().contains(v) by {
        if ds.to_set().contains(v) {
            let j = choose|j: int| 0 <= j < ds.len() && ds[j] == v;
            lemma_assoc_value_at(s, j);
            assert(assoc_map(s).contains_key(s[j].0) && assoc_map(s)[s[j].0] == v);
            assert(assoc_map(s).contains_value(v));
        }
        if assoc_map(s).values().contains(v) {
            let k = choose|k: u16| #[trigger]
                assoc_map(s).dom().contains(k) && assoc_map(s)[k] == v;
            let w = choose|w: int| 0 <= w < s.len() && (#[trigger] s[w]).0 == k;
            lemma_assoc_value_at(s, w);
            assert(ds[w] == v);
            assert(ds.to_set().contains(v));
        }
    }
    assert(ds.to_set() =~= assoc_map(s).values());
}

} // verus!
