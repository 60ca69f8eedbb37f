//! Collecting fetched bodies keyed by identifier, and assembling the final
//! output in the identifiers' original order.
//!
//! The concurrent fetches complete in no particular order; each completion is
//! recorded here as one identifier/body pair. The collector is read as a
//! mapping from identifier to body, and the lemmas below show that the
//! mapping — and with it the printed output — does not depend on the order in
//! which the fetches completed.

use vstd::prelude::*;

verus! {

/// The mapping a completion log builds up: each pair is one identifier with
/// its fetched body, in completion order; a later pair with the same
/// identifier wins.
pub open spec fn map_of_pairs(s: Seq<(Seq<char>, Seq<char>)>) -> Map<Seq<char>, Seq<char>>
    decreases s.len(),
{
    if s.len() == 0 {
        Map::empty()
    } else {
        map_of_pairs(s.drop_last()).insert(s.last().0, s.last().1)
    }
}

/// A completion log is consistent when two completions for the same
/// identifier carry the same body, as they do against a stable backend.
pub open spec fn consistent_pairs(s: Seq<(Seq<char>, Seq<char>)>) -> bool {
    forall|i: int, j: int|
        0 <= i < s.len() && 0 <= j < s.len() && (#[trigger] s[i]).0 == (#[trigger] s[j]).0
            ==> s[i].1 == s[j].1
}

/// An identifier is a key of the built map exactly when some completion
/// carried it.
pub proof fn lemma_map_of_pairs_dom(s: Seq<(Seq<char>, Seq<char>)>, k: Seq<char>)
    ensures
        map_of_pairs(s).dom().contains(k) <==> exists|i: int|
            0 <= i < s.len() && (#[trigger] s[i]).0 == k,
    decreases s.len(),
{
    if s.len() > 0 {
        lemma_map_of_pairs_dom(s.drop_last(), k);
        if map_of_pairs(s).dom().contains(k) {
            if s.last().0 == k {
                assert(s[s.len() - 1].0 == k);
            } else {
                let i = choose|i: int| 0 <= i < s.drop_last().len()
                    && (#[trigger] s.drop_last()[i]).0 == k;
                assert(s[i].0 == k);
            }
        }
        if exists|i: int| 0 <= i < s.len() && (#[trigger] s[i]).0 == k {
            let i = choose|i: int| 0 <= i < s.len() && (#[trigger] s[i]).0 == k;
            if i < s.len() - 1 {
                assert(s.drop_last()[i].0 == k);
            }
        }
    }
}

/// When a completion at position `i` is the last one for its identifier, the
/// built map sends that identifier to that completion's body.
proof fn lemma_map_of_pairs_last_match(s: Seq<(Seq<char>, Seq<char>)>, i: int)
    requires
        0 <= i < s.len(),
        forall|j: int| i < j < s.len() ==> (#[trigger] s[j]).0 != s[i].0,
    ensures
        map_of_pairs(s).dom().contains(s[i].0),
        map_of_pairs(s)[s[i].0] == s[i].1,
    decreases s.len(),
{
    if i < s.len() - 1 {
        assert(forall|j: int|
            i < j < s.drop_last().len() ==> (#[trigger] s.drop_last()[j]).0 != s[i].0);
        lemma_map_of_pairs_last_match(s.drop_last(), i);
        assert(s.drop_last()[i] == s[i]);
        assert(s[s.len() - 1].0 != s[i].0);
    }
}

/// With a stable backend, the built map sends each fetched identifier to its
/// body, wherever in the log the fetch completed.
pub proof fn lemma_map_of_pairs_value(s: Seq<(Seq<char>, Seq<char>)>, i: int)
    requires
        consistent_pairs(s),
        0 <= i < s.len(),
    ensures
        map_of_pairs(s).dom().contains(s[i].0),
        map_of_pairs(s)[s[i].0] == s[i].1,
    decreases s.len(),
{
    if s.last().0 == s[i].0 {
        assert(s[s.len() - 1].1 == s[i].1);
    } else {
        assert(consistent_pairs(s.drop_last())) by {
            assert forall|a: int, b: int|
                0 <= a < s.drop_last().len() && 0 <= b < s.drop_last().len()
                    && (#[trigger] s.drop_last()[a]).0 == (#[trigger] s.drop_last()[b]).0
                implies s.drop_last()[a].1 == s.drop_last()[b].1 by {
                assert(s.drop_last()[a] == s[a]);
                assert(s.drop_last()[b] == s[b]);
            }
        }
        assert(i < s.len() - 1);
        lemma_map_of_pairs_value(s.drop_last(), i);
        assert(s.drop_last()[i] == s[i]);
    }
}

/// Completion order is irrelevant: two completion logs that hold the same
/// fetches — the same multiset of identifier/body pairs, from a stable
/// backend — build the same mapping, whichever order the fetches finished in.
pub proof fn lemma_completion_order_irrelevant(
    a: Seq<(Seq<char>, Seq<char>)>,
    b: Seq<(Seq<char>, Seq<char>)>,
)
    requires
        consistent_pairs(a),
        a.to_multiset() == b.to_multiset(),
    ensures
        map_of_pairs(a) == map_of_pairs(b),
{
    broadcast use vstd::seq_lib::group_to_multiset_ensures;

    assert(consistent_pairs(b)) by {
        assert forall|i: int, j: int|
            0 <= i < b.len() && 0 <= j < b.len() && (#[trigger] b[i]).0 == (#[trigger] b[j]).0
            implies b[i].1 == b[j].1 by {
            assert(b.contains(b[i]));
            assert(b.contains(b[j]));
            assert(b.to_multiset().count(b[i]) > 0);
            assert(b.to_multiset().count(b[j]) > 0);
            assert(a.to_multiset().count(b[i]) > 0);
            assert(a.to_multiset().count(b[j]) > 0);
            assert(a.contains(b[i]));
            assert(a.contains(b[j]));
            let p = choose|p: int| 0 <= p < a.len() && a[p] == b[i];
            let q = choose|q: int| 0 <= q < a.len() && a[q] == b[j];
            assert(a[p].1 == a[q].1);
        }
    }
    assert forall|k: Seq<char>|
        (#[trigger] map_of_pairs(a).dom().contains(k)) == map_of_pairs(b).dom().contains(k)
            && (map_of_pairs(a).dom().contains(k) ==> map_of_pairs(a)[k] == map_of_pairs(
            b,
        )[k]) by {
        lemma_map_of_pairs_dom(a, k);
        lemma_map_of_pairs_dom(b, k);
        if map_of_pairs(a).dom().contains(k) {
            let i = choose|i: int| 0 <= i < a.len() && (#[trigger] a[i]).0 == k;
            lemma_map_of_pairs_value(a, i);
            assert(a.contains(a[i]));
            assert(a.to_multiset().count(a[i]) > 0);
            assert(b.to_multiset().count(a[i]) > 0);
            assert(b.contains(a[i]));
            let j = choose|j: int| 0 <= j < b.len() && b[j] == a[i];
            lemma_map_of_pairs_value(b, j);
            assert(b[j].0 == k);
        }
        if map_of_pairs(b).dom().contains(k) {
            let i = choose|i: int| 0 <= i < b.len() && (#[trigger] b[i]).0 == k;
            assert(b.contains(b[i]));
            assert(b.to_multiset().count(b[i]) > 0);
            assert(a.to_multiset().count(b[i]) > 0);
            assert(a.contains(b[i]));
            let j = choose|j: int| 0 <= j < a.len() && a[j] == b[i];
            assert(a[j].0 == k);
        }
    }
    assert(map_of_pairs(a) =~= map_of_pairs(b));
}

/// The identifier/body pairs a completion log holds, as views.
pub open spec fn entry_views(s: Seq<(String, String)>) -> Seq<(Seq<char>, Seq<char>)> {
    s.map_values(|p: (String, String)| (p.0@, p.1@))
}

/// The shared collector the concurrent fetches insert into: a log of
/// identifier/body pairs in completion order, read as the mapping from each
/// identifier to its most recently inserted body.
pub struct ResultMap {
    entries: Vec<(String, String)>,
}

impl View for ResultMap {
    type V = Map<Seq<char>, Seq<char>>;

    closed spec fn view(&self) -> Map<Seq<char>, Seq<char>> {
        map_of_pairs(entry_views(self.entries@))
    }
}

impl ResultMap {
    /// An empty collector.
    pub fn new() -> (r: ResultMap)
        ensures
            r@ == Map::<Seq<char>, Seq<char>>::empty(),
    {
        let r = ResultMap { entries: Vec::new() };
        proof {
            assert(entry_views(r.entries@) =~= Seq::<(Seq<char>, Seq<char>)>::empty());
        }
        r
    }

    /// Records one fetched body under its identifier; a body recorded again
    /// under the same identifier replaces the earlier one.
    pub fn insert(&mut self, zid: String, body: String)
        ensures
            final(self)@ == old(self)@.insert(zid@, body@),
    {
        let ghost zv = zid@;
        let ghost bv = body@;
        self.entries.push((zid, body));
        proof {
            let now = entry_views(self.entries@);
            assert(now.drop_last() =~= entry_views(old(self).entries@));
            assert(now.last() == (zv, bv));
        }
    }

    /// Looks an identifier up: the most recently recorded body for it, or
    /// `None` when no fetch for it has completed.
    pub fn get(&self, zid: &String) -> (r: Option<&String>)
        ensures
            match r {
                Some(b) => self@.dom().contains(zid@) && b@ == self@[zid@],
                None => !self@.dom().contains(zid@),
            },
    {
        let mut i: usize = self.entries.len();
        while i > 0
            invariant
                i <= self.entries@.len(),
                forall|j: int|
                    i <= j < entry_views(self.entries@).len()
                        ==> (#[trigger] entry_views(self.entries@)[j]).0 != zid@,
            decreases i,
        {
            if self.entries[i - 1].0 == *zid {
                proof {
                    lemma_map_of_pairs_last_match(entry_views(self.entries@), i - 1);
                }
                return Some(&self.entries[i - 1].1);
            }
            i = i - 1;
        }
        proof {
            lemma_map_of_pairs_dom(entry_views(self.entries@), zid@);
        }
        None
    }

    /// Whether a body has been recorded for an identifier.
    pub fn contains(&self, zid: &String) -> (r: bool)
        ensures
            r == self@.dom().contains(zid@),
    {
        self.get(zid).is_some()
    }
}

/// The printed output for a collected mapping: the body for each identifier,
/// in the identifiers' original order — or nothing at all when any
/// identifier's body is missing. There is no partial output.
pub open spec fn ordered_bodies_spec(m: Map<Seq<char>, Seq<char>>, zids: Seq<Seq<char>>) -> Option<
    Seq<Seq<char>>,
> {
    if forall|i: int| 0 <= i < zids.len() ==> m.dom().contains(#[trigger] zids[i]) {
        Some(Seq::new(zids.len(), |i: int| m[zids[i]]))
    } else {
        None
    }
}

impl ResultMap {
    /// Assembles the printed output: one body per identifier, in the
    /// identifiers' original order, or `None` — and no output at all — when
    /// any identifier has no collected body.
    pub fn ordered_bodies(&self, zids: &Vec<String>) -> (r: Option<Vec<String>>)
        ensures
            match r {
                Some(v) => {
                    &&& ordered_bodies_spec(self@, zids@.map_values(|z: String| z@)) == Some(
                        v@.map_values(|b: String| b@),
                    )
                    &&& v@.len() == zids@.len()
                    &&& forall|i: int|
                        0 <= i < zids@.len() ==> self@.dom().contains(#[trigger] zids@[i]@)
                            && v@[i]@ == self@[zids@[i]@]
                },
                None => ordered_bodies_spec(self@, zids@.map_values(|z: String| z@)) is None,
            },
    {
        let ghost zid_views = zids@.map_values(|z: String| z@);
        let mut out: Vec<String> = Vec::new();
        let mut i: usize = 0;
        while i < zids.len()
            invariant
                i <= zids@.len(),
                out@.len() == i,
                zid_views == zids@.map_values(|z: String| z@),
                forall|j: int|
                    0 <= j < i ==> self@.dom().contains(#[trigger] zids@[j]@)
                        && out@[j]@ == self@[zids@[j]@],
            decreases zids@.len() - i,
        {
            match self.get(&zids[i]) {
                Some(b) => {
                    let body = b.clone();
                    out.push(body);
                },
                None => {
                    proof {
                        assert(zid_views[i as int] == zids@[i as int]@);
                        assert(!self@.dom().contains(zid_views[i as int]));
                    }
                    return None;
                },
            }
            i = i + 1;
        }
        proof {
            assert(forall|j: int|
                0 <= j < zid_views.len() ==> self@.dom().contains(#[trigger] zid_views[j]));
            assert(Seq::new(zid_views.len(), |j: int| self@[zid_views[j]]) =~= out@.map_values(
                |b: String| b@,
            ));
        }
        Some(out)
    }
}

/// Re-running the per-identifier fetch against a stable backend is
/// idempotent: two completion logs that hold the same fetches, in whatever
/// completion order, assemble the same printed output for the same
/// identifier list.
pub proof fn lemma_refetch_same_output(
    a: Seq<(Seq<char>, Seq<char>)>,
    b: Seq<(Seq<char>, Seq<char>)>,
    zids: Seq<Seq<char>>,
)
    requires
        consistent_pairs(a),
        a.to_multiset() == b.to_multiset(),
    ensures
        ordered_bodies_spec(map_of_pairs(a), zids) == ordered_bodies_spec(map_of_pairs(b), zids),
{
    lemma_completion_order_irrelevant(a, b);
}

} // verus!
