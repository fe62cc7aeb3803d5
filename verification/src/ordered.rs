//! Strings in order: the lexicographic order of strings (by code point,
//! which for UTF-8 is the byte order), and string-keyed maps and string
//! sets kept as vectors sorted by that order, so that walking them gives the
//! keys in ascending order.

use vstd::prelude::*;
use crate::api::pairs_view;
use crate::text::chars_of;

verus! {

/// `a` comes strictly before `b` in lexicographic order.
pub open spec fn seq_less(a: Seq<char>, b: Seq<char>) -> bool
    decreases a.len(),
{
    if a.len() == 0 {
        b.len() > 0
    } else if b.len() == 0 {
        false
    } else if a[0] != b[0] {
        (a[0] as int) < (b[0] as int)
    } else {
        seq_less(a.drop_first(), b.drop_first())
    }
}

/// No string comes before itself.
pub proof fn lemma_seq_less_irreflexive(a: Seq<char>)
    ensures
        !seq_less(a, a),
    decreases a.len(),
{
    if a.len() > 0 {
        lemma_seq_less_irreflexive(a.drop_first());
    }
}

/// Of two different strings, one comes before the other, and never both.
pub proof fn lemma_seq_less_total(a: Seq<char>, b: Seq<char>)
    ensures
        a != b ==> (seq_less(a, b) || seq_less(b, a)),
        !(seq_less(a, b) && seq_less(b, a)),
    decreases a.len(),
{
    if a.len() > 0 && b.len() > 0 {
        lemma_seq_less_total(a.drop_first(), b.drop_first());
        if a[0] == b[0] && a.drop_first() == b.drop_first() {
            assert forall|i: int| 0 <= i < a.len() implies a[i] == b[i] by {
                if i > 0 {
                    assert(a[i] == a.drop_first()[i - 1]);
                    assert(b[i] == b.drop_first()[i - 1]);
                }
            }
            assert(a =~= b);
        }
    } else if a.len() == 0 && b.len() == 0 {
        assert(a =~= b);
    }
}

/// The order is transitive.
pub proof fn lemma_seq_less_transitive(a: Seq<char>, b: Seq<char>, c: Seq<char>)
    requires
        seq_less(a, b),
        seq_less(b, c),
    ensures
        seq_less(a, c),
    decreases a.len(),
{
    if a.len() > 0 && b.len() > 0 && c.len() > 0 && a[0] == b[0] && b[0] == c[0] {
        lemma_seq_less_transitive(a.drop_first(), b.drop_first(), c.drop_first());
    }
}

/// Whether `a` comes strictly before `b`.
pub fn str_less(a: &str, b: &str) -> (r: bool)
    ensures
        r == seq_less(a@, b@),
{
    let av = chars_of(a);
    let bv = chars_of(b);
    let mut i: usize = 0;
    proof {
        assert(a@.skip(0) =~= a@);
        assert(b@.skip(0) =~= b@);
    }
    while i < av.len() && i < bv.len()
        invariant
            av@ == a@,
            bv@ == b@,
            i <= av.len(),
            i <= bv.len(),
            forall|j: int| 0 <= j < i ==> a@[j] == b@[j],
            seq_less(a@, b@) == seq_less(a@.skip(i as int), b@.skip(i as int)),
        decreases av.len() - i,
    {
        let x = av[i];
        let y = bv[i];
        if x != y {
            proof {
                assert(a@.skip(i as int)[0] == x);
                assert(b@.skip(i as int)[0] == y);
            }
            return x < y;
        }
        proof {
            assert(a@.skip(i as int).drop_first() =~= a@.skip(i + 1));
            assert(b@.skip(i as int).drop_first() =~= b@.skip(i + 1));
        }
        i = i + 1;
    }
    i < bv.len() && i == av.len()
}

/// The keys of a list of pairs.
pub open spec fn keys_of(m: Seq<(Seq<char>, Seq<char>)>) -> Seq<Seq<char>> {
    m.map_values(|p: (Seq<char>, Seq<char>)| p.0)
}

/// The strings are in strictly ascending order.
pub open spec fn strictly_sorted(s: Seq<Seq<char>>) -> bool {
    forall|i: int, j: int| 0 <= i < j < s.len() ==> seq_less(#[trigger] s[i], #[trigger] s[j])
}

/// Index of the first key not before `k`.
fn lower_bound(keys: &Vec<String>, k: &str) -> (i: usize)
    requires
        strictly_sorted(crate::api::strings_view(keys@)),
    ensures
        i <= keys.len(),
        forall|j: int| 0 <= j < i ==> seq_less(#[trigger] keys@[j]@, k@),
        i < keys.len() ==> !seq_less(keys@[i as int]@, k@),
{
    let mut i: usize = 0;
    while i < keys.len()
        invariant
            i <= keys.len(),
            forall|j: int| 0 <= j < i ==> seq_less(#[trigger] keys@[j]@, k@),
        decreases keys.len() - i,
    {
        if !str_less(keys[i].as_str(), k) {
            return i;
        }
        i = i + 1;
    }
    i
}

/// A set of strings kept in ascending order without repetition.
pub struct StringSet {
    pub items: Vec<String>,
}

impl View for StringSet {
    type V = Seq<Seq<char>>;

    open spec fn view(&self) -> Seq<Seq<char>> {
        crate::api::strings_view(self.items@)
    }
}

impl StringSet {
    /// The items are in strictly ascending order.
    pub open spec fn wf(&self) -> bool {
        strictly_sorted(self@)
    }

    /// The empty set.
    pub fn new() -> (s: StringSet)
        ensures
            s.wf(),
            s@ == Seq::<Seq<char>>::empty(),
    {
        StringSet { items: Vec::new() }
    }

    /// Whether `k` is in the set.
    pub fn contains(&self, k: &str) -> (b: bool)
        requires
            self.wf(),
        ensures
            b == self@.contains(k@),
    {
        let i = lower_bound(&self.items, k);
        proof {
            if i < self@.len() && self@[i as int] != k@ {
                lemma_seq_less_total(self@[i as int], k@);
            }
            assert forall|j: int| 0 <= j < self@.len() && self@[j] == k@ implies j == i by {
                if j < i {
                    lemma_seq_less_irreflexive(k@);
                } else if j > i {
                    lemma_seq_less_transitive(k@, self@[i as int], self@[j]);
                    lemma_seq_less_irreflexive(k@);
                    lemma_seq_less_total(self@[i as int], k@);
                    if self@[i as int] != k@ {
                        lemma_seq_less_transitive(k@, self@[i as int], k@);
                    }
                }
            }
        }
        if i < self.items.len() {
            let r = crate::theme::str_eq(self.items[i].as_str(), k);
            proof {
                if r {
                    assert(self@[i as int] == k@);
                }
            }
            r
        } else {
            false
        }
    }

    /// Adds `k`; the set is unchanged when `k` is in it already.
    pub fn insert(&mut self, k: String)
        requires
            old(self).wf(),
        ensures
            final(self).wf(),
            final(self)@.to_set() == old(self)@.to_set().insert(k@),
    {
        let i = lower_bound(&self.items, k.as_str());
        let ghost s = self@;
        if i < self.items.len() {
            let eq = crate::theme::str_eq(self.items[i].as_str(), k.as_str());
            if eq {
                proof {
                    assert(s[i as int] == k@);
                    assert(s.contains(k@));
                    assert(s.to_set().insert(k@) =~= s.to_set());
                }
                return;
            }
        }
        proof {
            assert forall|j: int| 0 <= j < i implies seq_less(#[trigger] s[j], k@) by {
                assert(s[j] == self.items@[j]@);
            }
            if i < s.len() {
                assert(s[i as int] == self.items@[i as int]@);
                lemma_seq_less_total(s[i as int], k@);
            }
            assert forall|j: int| i <= j < s.len() implies seq_less(k@, #[trigger] s[j]) by {
                if j > i {
                    lemma_seq_less_transitive(k@, s[i as int], s[j]);
                }
            }
        }
        self.items.insert(i, k);
        proof {
            let t = self@;
            assert(t =~= s.insert(i as int, k@));
            assert forall|a: int, b: int| 0 <= a < b < t.len() implies seq_less(#[trigger] t[a], #[trigger] t[b]) by {
                if a < i && b > i {
                    lemma_seq_less_transitive(s[a], k@, s[b - 1]);
                }
            }
            assert forall|x: Seq<char>| t.contains(x) <==> (s.contains(x) || x == k@) by {
                if t.contains(x) {
                    let j = choose|j: int| 0 <= j < t.len() && t[j] == x;
                    if j < i {
                        assert(s[j] == x);
                    } else if j > i {
                        assert(s[j - 1] == x);
                    }
                }
                if s.contains(x) {
                    let j = choose|j: int| 0 <= j < s.len() && s[j] == x;
                    if j < i {
                        assert(t[j] == x);
                    } else {
                        assert(t[j + 1] == x);
                    }
                }
                if x == k@ {
                    assert(t[i as int] == x);
                }
            }
            assert(t.to_set() =~= s.to_set().insert(k@));
        }
    }
}

/// How many of the strings come before `k`.
pub open spec fn count_less(ks: Seq<Seq<char>>, k: Seq<char>) -> nat
    decreases ks.len(),
{
    if ks.len() == 0 {
        0
    } else {
        count_less(ks.drop_last(), k) + if seq_less(ks.last(), k) {
            1nat
        } else {
            0nat
        }
    }
}

/// The pairs after adding `k` with the value `v` unless `k` is a key
/// already: the new pair goes after the keys that come before `k`.
pub open spec fn insert_absent(m: Seq<(Seq<char>, Seq<char>)>, k: Seq<char>, v: Seq<char>) -> Seq<(Seq<char>, Seq<char>)> {
    if keys_of(m).contains(k) {
        m
    } else {
        m.insert(count_less(keys_of(m), k) as int, (k, v))
    }
}

proof fn lemma_count_less(ks: Seq<Seq<char>>, k: Seq<char>, i: int)
    requires
        0 <= i <= ks.len(),
        forall|j: int| 0 <= j < i ==> seq_less(#[trigger] ks[j], k),
        forall|j: int| i <= j < ks.len() ==> !seq_less(#[trigger] ks[j], k),
    ensures
        count_less(ks, k) == i,
    decreases ks.len(),
{
    if ks.len() > 0 {
        let d = ks.drop_last();
        if i == ks.len() {
            assert(seq_less(ks[ks.len() - 1], k));
            lemma_count_less(d, k, i - 1);
        } else {
            assert(!seq_less(ks[ks.len() - 1], k));
            lemma_count_less(d, k, i);
        }
    }
}

/// Index of the first pair whose key is not before `k`.
fn lower_bound_pairs(entries: &Vec<(String, String)>, k: &str) -> (i: usize)
    ensures
        i <= entries.len(),
        forall|j: int| 0 <= j < i ==> seq_less(#[trigger] entries@[j].0@, k@),
        i < entries.len() ==> !seq_less(entries@[i as int].0@, k@),
{
    let mut i: usize = 0;
    while i < entries.len()
        invariant
            i <= entries.len(),
            forall|j: int| 0 <= j < i ==> seq_less(#[trigger] entries@[j].0@, k@),
        decreases entries.len() - i,
    {
        if !str_less(entries[i].0.as_str(), k) {
            return i;
        }
        i = i + 1;
    }
    i
}

/// A string-keyed map kept as pairs in ascending key order.
pub struct StringMap {
    pub entries: Vec<(String, String)>,
}

impl View for StringMap {
    type V = Seq<(Seq<char>, Seq<char>)>;

    open spec fn view(&self) -> Seq<(Seq<char>, Seq<char>)> {
        pairs_view(self.entries@)
    }
}

impl StringMap {
    /// The keys are in strictly ascending order.
    pub open spec fn wf(&self) -> bool {
        strictly_sorted(keys_of(self@))
    }

    /// The empty map.
    pub fn new() -> (m: StringMap)
        ensures
            m.wf(),
            m@ == Seq::<(Seq<char>, Seq<char>)>::empty(),
    {
        StringMap { entries: Vec::new() }
    }

    /// Adds `k` with the value `v` unless `k` is a key already, in which
    /// case the map is unchanged.
    pub fn insert_if_absent(&mut self, k: String, v: String)
        requires
            old(self).wf(),
        ensures
            final(self).wf(),
            final(self)@ == insert_absent(old(self)@, k@, v@),
    {
        let i = lower_bound_pairs(&self.entries, k.as_str());
        let ghost s = self@;
        let ghost ks = keys_of(s);
        proof {
            assert forall|j: int| 0 <= j < i implies seq_less(#[trigger] ks[j], k@) by {
                assert(ks[j] == self.entries@[j].0@);
            }
            if i < s.len() {
                assert(ks[i as int] == self.entries@[i as int].0@);
                lemma_seq_less_total(ks[i as int], k@);
            }
            assert forall|j: int| i <= j < s.len() implies (seq_less(k@, #[trigger] ks[j]) || ks[j] == k@) by {
                if j > i {
                    if ks[i as int] == k@ {
                    } else {
                        lemma_seq_less_transitive(k@, ks[i as int], ks[j]);
                    }
                }
            }
            assert forall|j: int| i <= j < s.len() implies !seq_less(#[trigger] ks[j], k@) by {
                lemma_seq_less_total(ks[j], k@);
                lemma_seq_less_irreflexive(k@);
            }
            lemma_count_less(ks, k@, i as int);
        }
        if i < self.entries.len() {
            let eq = crate::theme::str_eq(self.entries[i].0.as_str(), k.as_str());
            if eq {
                proof {
                    assert(ks[i as int] == k@);
                    assert(ks.contains(k@));
                }
                return;
            }
        }
        proof {
            assert forall|j: int| 0 <= j < s.len() implies ks[j] != k@ by {
                if j < i {
                    lemma_seq_less_irreflexive(k@);
                } else if j > i {
                    lemma_seq_less_transitive(k@, ks[i as int], ks[j]);
                    lemma_seq_less_irreflexive(k@);
                    if ks[j] == k@ {
                        lemma_seq_less_total(k@, ks[i as int]);
                    }
                }
            }
            assert(!ks.contains(k@));
        }
        self.entries.insert(i, (k, v));
        proof {
            let t = self@;
            assert(t =~= s.insert(i as int, (k@, v@)));
            let kt = keys_of(t);
            assert(kt =~= ks.insert(i as int, k@));
            assert forall|a: int, b: int| 0 <= a < b < kt.len() implies seq_less(#[trigger] kt[a], #[trigger] kt[b]) by {
                if a < i && b > i {
                    lemma_seq_less_transitive(ks[a], k@, ks[b - 1]);
                }
            }
        }
    }
}

} // verus!
