//! A step's parameter mapping: parameter name to canonical value, iterated in
//! ascending lexicographic key order, one entry per key.

use vstd::prelude::*;

use crate::order::{lemma_lex_irrefl, lemma_lex_total, lemma_lex_trans, lex_lt, str_less, str_same};
use crate::value::JsonString;

verus! {

/// The view of one entry: parameter name and canonical value.
pub open spec fn pair_view(p: (String, JsonString)) -> (Seq<char>, Seq<char>) {
    (p.0@, p.1@)
}

/// Keys appear in strictly ascending lexicographic order.
pub open spec fn strictly_sorted(s: Seq<(Seq<char>, Seq<char>)>) -> bool {
    forall|i: int, j: int| 0 <= i < j < s.len() ==> lex_lt(s[i].0, s[j].0)
}

/// The value bound to a key among viewed entries; the first match decides.
pub open spec fn spec_lookup(s: Seq<(Seq<char>, Seq<char>)>, k: Seq<char>) -> Option<Seq<char>>
    decreases s.len(),
{
    if s.len() == 0 {
        None
    } else if s[0].0 == k {
        Some(s[0].1)
    } else {
        spec_lookup(s.drop_first(), k)
    }
}

/// Inserting a pair into a key-sorted entry sequence; an equal key is
/// overwritten in place (the last writer wins).
pub open spec fn spec_insert(
    s: Seq<(Seq<char>, Seq<char>)>,
    k: Seq<char>,
    v: Seq<char>,
) -> Seq<(Seq<char>, Seq<char>)>
    decreases s.len(),
{
    if s.len() == 0 {
        seq![(k, v)]
    } else if lex_lt(k, s[0].0) {
        seq![(k, v)] + s
    } else if k == s[0].0 {
        seq![(k, v)] + s.drop_first()
    } else {
        seq![s[0]] + spec_insert(s.drop_first(), k, v)
    }
}

/// Inserting a sequence of pairs in order, starting from `s`.
pub open spec fn spec_insert_all(
    s: Seq<(Seq<char>, Seq<char>)>,
    pairs: Seq<(Seq<char>, Seq<char>)>,
) -> Seq<(Seq<char>, Seq<char>)>
    decreases pairs.len(),
{
    if pairs.len() == 0 {
        s
    } else {
        spec_insert_all(spec_insert(s, pairs[0].0, pairs[0].1), pairs.drop_first())
    }
}

/// Insertion binds exactly the given key and leaves every other key's
/// binding unchanged.
pub proof fn lemma_insert_lookup(
    s: Seq<(Seq<char>, Seq<char>)>,
    k: Seq<char>,
    v: Seq<char>,
    k2: Seq<char>,
)
    ensures
        spec_lookup(spec_insert(s, k, v), k) == Some(v),
        k2 != k ==> spec_lookup(spec_insert(s, k, v), k2) == spec_lookup(s, k2),
    decreases s.len(),
{
    let r = spec_insert(s, k, v);
    if s.len() == 0 {
        assert(r.drop_first() =~= Seq::<(Seq<char>, Seq<char>)>::empty());
    } else if lex_lt(k, s[0].0) {
        assert(r[0] == (k, v));
        assert(r.drop_first() =~= s);
    } else if k == s[0].0 {
        assert(r[0] == (k, v));
        assert(r.drop_first() =~= s.drop_first());
        if k2 != k {
            assert(spec_lookup(s, k2) == spec_lookup(s.drop_first(), k2));
            assert(spec_lookup(r, k2) == spec_lookup(r.drop_first(), k2));
        }
    } else {
        lemma_insert_lookup(s.drop_first(), k, v, k2);
        assert(r[0] == s[0]);
        assert(r.drop_first() =~= spec_insert(s.drop_first(), k, v));
        if k2 != k && s[0].0 != k2 {
            assert(spec_lookup(s, k2) == spec_lookup(s.drop_first(), k2));
            assert(spec_lookup(r, k2) == spec_lookup(r.drop_first(), k2));
        }
    }
}

/// Insertion keeps the entries strictly key-sorted, and every entry of the
/// result is the inserted pair or one of the original entries.
pub proof fn lemma_insert_sorted(s: Seq<(Seq<char>, Seq<char>)>, k: Seq<char>, v: Seq<char>)
    requires
        strictly_sorted(s),
    ensures
        strictly_sorted(spec_insert(s, k, v)),
        forall|j: int|
            0 <= j < spec_insert(s, k, v).len() ==> #[trigger] spec_insert(s, k, v)[j] == (k, v)
                || s.contains(spec_insert(s, k, v)[j]),
    decreases s.len(),
{
    let r = spec_insert(s, k, v);
    if s.len() == 0 {
    } else if lex_lt(k, s[0].0) {
        assert forall|i: int, j: int| 0 <= i < j < r.len() implies lex_lt(r[i].0, r[j].0) by {
            if i == 0 {
                if j > 1 {
                    lemma_lex_trans(k, s[0].0, s[j - 1].0);
                }
            }
        }
        assert forall|j: int| 0 <= j < r.len() implies r[j] == (k, v) || s.contains(r[j]) by {
            if j > 0 {
                assert(r[j] == s[j - 1]);
            }
        }
    } else if k == s[0].0 {
        assert forall|j: int| 0 <= j < r.len() implies r[j] == (k, v) || s.contains(r[j]) by {
            if j > 0 {
                assert(r[j] == s[j]);
            }
        }
    } else {
        lemma_lex_total(k, s[0].0);
        assert(lex_lt(s[0].0, k));
        lemma_insert_sorted(s.drop_first(), k, v);
        let rr = spec_insert(s.drop_first(), k, v);
        assert forall|j: int| 0 <= j < r.len() implies r[j] == (k, v) || s.contains(r[j]) by {
            if j == 0 {
                assert(s[0] == r[0]);
                assert(s.contains(s[0]));
            } else {
                assert(r[j] == rr[j - 1]);
                if rr[j - 1] != (k, v) {
                    let i = choose|i: int|
                        0 <= i < s.drop_first().len() && s.drop_first()[i] == rr[j - 1];
                    assert(s[i + 1] == rr[j - 1]);
                    assert(s.contains(s[i + 1]));
                }
            }
        }
        assert forall|i: int, j: int| 0 <= i < j < r.len() implies lex_lt(r[i].0, r[j].0) by {
            if i == 0 {
                assert(r[j] == rr[j - 1]);
                if rr[j - 1] == (k, v) {
                    assert(lex_lt(s[0].0, k));
                } else {
                    let m = choose|m: int|
                        0 <= m < s.drop_first().len() && s.drop_first()[m] == rr[j - 1];
                    assert(s[m + 1] == rr[j - 1]);
                    assert(lex_lt(s[0].0, s[m + 1].0));
                }
            } else {
                assert(r[i] == rr[i - 1] && r[j] == rr[j - 1]);
            }
        }
    }
}

/// Where the scan of a key-sorted sequence stops, `spec_insert` places the
/// new pair.
pub proof fn lemma_insert_at(
    s: Seq<(Seq<char>, Seq<char>)>,
    k: Seq<char>,
    v: Seq<char>,
    p: int,
)
    requires
        0 <= p <= s.len(),
        forall|j: int| 0 <= j < p ==> lex_lt(#[trigger] s[j].0, k),
        p < s.len() ==> !lex_lt(s[p].0, k),
    ensures
        p < s.len() && s[p].0 == k ==> spec_insert(s, k, v) =~= s.take(p) + seq![(k, v)]
            + s.skip(p + 1),
        !(p < s.len() && s[p].0 == k) ==> spec_insert(s, k, v) =~= s.take(p) + seq![(k, v)]
            + s.skip(p),
    decreases p,
{
    if p == 0 {
        if s.len() == 0 {
            assert(spec_insert(s, k, v) =~= s.take(0) + seq![(k, v)] + s.skip(0));
        } else {
            lemma_lex_total(k, s[0].0);
            if s[0].0 == k {
                assert(spec_insert(s, k, v) =~= s.take(0) + seq![(k, v)] + s.skip(1));
            } else {
                assert(lex_lt(k, s[0].0));
                assert(spec_insert(s, k, v) =~= s.take(0) + seq![(k, v)] + s.skip(0));
            }
        }
    } else {
        assert(lex_lt(s[0].0, k));
        lemma_lex_irrefl(s[0].0);
        if lex_lt(k, s[0].0) {
            lemma_lex_trans(s[0].0, k, s[0].0);
        }
        assert(!lex_lt(k, s[0].0) && k != s[0].0);
        let sd = s.drop_first();
        assert(forall|j: int| 0 <= j < p - 1 ==> lex_lt(#[trigger] sd[j].0, k));
        lemma_insert_at(sd, k, v, p - 1);
        if p < s.len() && s[p].0 == k {
            assert(sd[p - 1].0 == k);
            assert(spec_insert(s, k, v) =~= s.take(p) + seq![(k, v)] + s.skip(p + 1));
        } else {
            assert(spec_insert(s, k, v) =~= s.take(p) + seq![(k, v)] + s.skip(p));
        }
    }
}

/// A mapping from parameter name to canonical value whose entries stand in
/// ascending lexicographic key order, one entry per key.
#[derive(Debug, PartialEq, Eq)]
pub struct ParamMap {
    entries: Vec<(String, JsonString)>,
}

impl Clone for ParamMap {
    fn clone(&self) -> (r: Self)
        ensures
            r@ == self@,
    {
        proof {
            use_type_invariant(&*self);
        }
        let mut entries: Vec<(String, JsonString)> = Vec::new();
        let mut i: usize = 0;
        while i < self.entries.len()
            invariant
                i <= self.entries@.len(),
                entries@.len() == i,
                forall|j: int|
                    0 <= j < i ==> pair_view(#[trigger] entries@[j]) == pair_view(
                        self.entries@[j],
                    ),
            decreases self.entries@.len() - i,
        {
            let k = self.entries[i].0.clone();
            let v = self.entries[i].1.clone();
            entries.push((k, v));
            i = i + 1;
        }
        proof {
            assert(entries@.map_values(|p: (String, JsonString)| pair_view(p)) =~= self@);
        }
        ParamMap { entries }
    }
}

impl View for ParamMap {
    type V = Seq<(Seq<char>, Seq<char>)>;

    closed spec fn view(&self) -> Seq<(Seq<char>, Seq<char>)> {
        self.entries@.map_values(|p: (String, JsonString)| pair_view(p))
    }
}

impl ParamMap {
    #[verifier::type_invariant]
    spec fn inv(self) -> bool {
        strictly_sorted(self@)
    }

    /// An empty mapping.
    pub fn new() -> (r: Self)
        ensures
            r@ == Seq::<(Seq<char>, Seq<char>)>::empty(),
    {
        let r = ParamMap { entries: Vec::new() };
        proof {
            assert(r@ =~= Seq::<(Seq<char>, Seq<char>)>::empty());
        }
        r
    }

    /// The number of parameters.
    pub fn len(&self) -> (r: usize)
        ensures
            r == self@.len(),
    {
        self.entries.len()
    }

    /// Whether the mapping holds no parameter.
    pub fn is_empty(&self) -> (r: bool)
        ensures
            r == (self@.len() == 0),
    {
        self.entries.len() == 0
    }

    /// The entries, in ascending lexicographic key order.
    pub fn entries(&self) -> (r: &Vec<(String, JsonString)>)
        ensures
            r@.map_values(|p: (String, JsonString)| pair_view(p)) == self@,
            strictly_sorted(self@),
    {
        proof {
            use_type_invariant(&*self);
        }
        &self.entries
    }

    /// The value bound to `k`, where one is.
    pub fn get(&self, k: &str) -> (r: Option<&JsonString>)
        ensures
            match r {
                Some(v) => spec_lookup(self@, k@) == Some(v@),
                None => spec_lookup(self@, k@) is None,
            },
    {
        let mut i: usize = 0;
        proof {
            assert(self@.skip(0) =~= self@);
        }
        #[verifier::loop_isolation(false)]
        while i < self.entries.len()
            invariant
                i <= self.entries@.len(),
                spec_lookup(self@, k@) == spec_lookup(self@.skip(i as int), k@),
            decreases self.entries@.len() - i,
        {
            proof {
                assert(self@[i as int] == pair_view(self.entries@[i as int]));
                assert(self@.skip(i as int)[0] == self@[i as int]);
                assert(self@.skip(i as int).drop_first() =~= self@.skip(i as int + 1));
            }
            if str_same(self.entries[i].0.as_str(), k) {
                return Some(&self.entries[i].1);
            }
            i = i + 1;
        }
        proof {
            assert(self@.skip(self@.len() as int).len() == 0);
        }
        None
    }

    /// Binds `k` to `v`; an existing entry with the same key is overwritten.
    pub fn insert(&mut self, k: String, v: JsonString)
        ensures
            final(self)@ == spec_insert(old(self)@, k@, v@),
    {
        proof {
            use_type_invariant(&*self);
        }
        let ghost s0 = self@;
        let mut entries: Vec<(String, JsonString)> = Vec::new();
        core::mem::swap(&mut entries, &mut self.entries);
        proof {
            assert(entries@.map_values(|p: (String, JsonString)| pair_view(p)) == s0);
        }
        let n = entries.len();
        let mut i: usize = 0;
        while i < n && str_less(entries[i].0.as_str(), k.as_str())
            invariant
                i <= n,
                n == entries@.len(),
                entries@.map_values(|p: (String, JsonString)| pair_view(p)) == s0,
                forall|j: int| 0 <= j < i ==> lex_lt(#[trigger] s0[j].0, k@),
            decreases n - i,
        {
            proof {
                assert(s0[i as int] == pair_view(entries@[i as int]));
            }
            i = i + 1;
        }
        proof {
            if i < n {
                assert(s0[i as int] == pair_view(entries@[i as int]));
            }
            lemma_insert_at(s0, k@, v@, i as int);
            lemma_insert_sorted(s0, k@, v@);
        }
        if i < n && str_same(entries[i].0.as_str(), k.as_str()) {
            proof {
                assert(s0[i as int] == pair_view(entries@[i as int]));
            }
            entries.remove(i);
            entries.insert(i, (k, v));
            proof {
                assert(entries@.map_values(|p: (String, JsonString)| pair_view(p)) =~= s0.take(
                    i as int,
                ) + seq![(k@, v@)] + s0.skip(i as int + 1));
            }
        } else {
            proof {
                if i < n {
                    assert(s0[i as int] == pair_view(entries@[i as int]));
                }
            }
            entries.insert(i, (k, v));
            proof {
                assert(entries@.map_values(|p: (String, JsonString)| pair_view(p)) =~= s0.take(
                    i as int,
                ) + seq![(k@, v@)] + s0.skip(i as int));
            }
        }
        self.entries = entries;
    }

    /// Builds a mapping by inserting the pairs in order; a later pair with an
    /// equal key overwrites an earlier one.
    pub fn from_pairs(pairs: Vec<(String, JsonString)>) -> (r: Self)
        ensures
            r@ == spec_insert_all(
                Seq::<(Seq<char>, Seq<char>)>::empty(),
                pairs@.map_values(|p: (String, JsonString)| pair_view(p)),
            ),
    {
        let ghost all = pairs@.map_values(|p: (String, JsonString)| pair_view(p));
        let mut pairs = pairs;
        let mut r = ParamMap::new();
        while pairs.len() > 0
            invariant
                spec_insert_all(r@, pairs@.map_values(|p: (String, JsonString)| pair_view(p)))
                    == spec_insert_all(Seq::<(Seq<char>, Seq<char>)>::empty(), all),
            decreases pairs@.len(),
    {
            let ghost before = pairs@.map_values(|p: (String, JsonString)| pair_view(p));
            let p = pairs.remove(0);
            proof {
                assert(pairs@.map_values(|p: (String, JsonString)| pair_view(p))
                    =~= before.drop_first());
                assert(before[0] == pair_view(p));
            }
            r.insert(p.0, p.1);
        }
        r
    }
}

} // verus!
