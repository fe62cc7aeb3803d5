//! The file list of the import dialog: entries filtered by the typed text
//! (case-insensitively), hidden files left out while nothing is typed, the
//! parent directory first, then directories and then files, each sorted by
//! their lower-cased names with ties kept in listing order.

use vstd::prelude::*;
use crate::app::{ImportEntry, ImportEntryView};
use crate::ordered::{lemma_seq_less_irreflexive, lemma_seq_less_total, lemma_seq_less_transitive, seq_less};
use crate::text::{has_substring, lower_text};

verus! {

/// The views of import entries.
pub open spec fn entries_view(v: Seq<ImportEntry>) -> Seq<ImportEntryView> {
    v.map_values(|e: ImportEntry| e@)
}

/// The key an entry is sorted by: its lower-cased name.
pub open spec fn sort_key(e: ImportEntryView) -> Seq<char> {
    lower_text(e.name)
}

/// `a` does not come after `b`.
pub open spec fn key_le(a: Seq<char>, b: Seq<char>) -> bool {
    !seq_less(b, a)
}

/// How many entries have a key not after `k`.
pub open spec fn count_not_after(s: Seq<ImportEntryView>, k: Seq<char>) -> nat
    decreases s.len(),
{
    if s.len() == 0 {
        0
    } else {
        count_not_after(s.drop_last(), k) + if key_le(sort_key(s.last()), k) {
            1nat
        } else {
            0nat
        }
    }
}

/// The entries sorted by key, entries with equal keys in their original
/// order: each entry goes after those already placed whose key is not
/// after its own.
pub open spec fn sort_entries(s: Seq<ImportEntryView>) -> Seq<ImportEntryView>
    decreases s.len(),
{
    if s.len() == 0 {
        Seq::empty()
    } else {
        let t = sort_entries(s.drop_last());
        t.insert(count_not_after(t, sort_key(s.last())) as int, s.last())
    }
}

/// The keys never go down.
pub open spec fn keys_sorted(s: Seq<ImportEntryView>) -> bool {
    forall|i: int, j: int| 0 <= i < j < s.len() ==> key_le(sort_key(#[trigger] s[i]), sort_key(#[trigger] s[j]))
}

/// Whether an entry stays in the list for the lower-cased filter `f`: its
/// lower-cased name contains `f`, and, while `f` is empty, it is not hidden
/// (a name starting with `.` other than `.` and `..`).
pub open spec fn entry_kept(e: ImportEntryView, f: Seq<char>) -> bool {
    &&& (f.len() == 0 || has_substring(lower_text(e.name), f))
    &&& !(f.len() == 0 && e.name.len() > 0 && e.name[0] == '.' && e.name != seq!['.'] && e.name != seq!['.', '.'])
}

/// The kept entries that are directories (`dirs`) or files (`!dirs`), in
/// listing order.
pub open spec fn kept_of_kind(raw: Seq<ImportEntryView>, f: Seq<char>, dirs: bool) -> Seq<ImportEntryView>
    decreases raw.len(),
{
    if raw.len() == 0 {
        Seq::empty()
    } else {
        let e = raw.last();
        kept_of_kind(raw.drop_last(), f, dirs) + if entry_kept(e, f) && e.is_dir == dirs {
            seq![e]
        } else {
            Seq::empty()
        }
    }
}

/// The file list for a directory listing `raw` and a typed filter: `..`
/// first when nothing is typed and there is a parent directory, then the
/// kept directories, then the kept files, each sorted (see
/// `sort_entries`).
pub open spec fn import_list_spec(raw: Seq<ImportEntryView>, filter: Seq<char>, has_parent: bool) -> Seq<ImportEntryView> {
    let f = lower_text(filter);
    let parent = if f.len() == 0 && has_parent {
        seq![ImportEntryView { name: seq!['.', '.'], is_dir: true }]
    } else {
        Seq::empty()
    };
    parent + sort_entries(kept_of_kind(raw, f, true)) + sort_entries(kept_of_kind(raw, f, false))
}

/// The order of keys is transitive.
pub proof fn lemma_key_le_transitive(a: Seq<char>, b: Seq<char>, c: Seq<char>)
    requires
        key_le(a, b),
        key_le(b, c),
    ensures
        key_le(a, c),
{
    if seq_less(c, a) {
        lemma_seq_less_total(a, b);
        lemma_seq_less_total(b, c);
        if a == b {
            lemma_seq_less_transitive(c, a, c);
            lemma_seq_less_irreflexive(c);
        } else if b == c {
            lemma_seq_less_transitive(c, a, b);
            lemma_seq_less_irreflexive(c);
        } else {
            lemma_seq_less_transitive(c, a, b);
            lemma_seq_less_total(c, b);
        }
    }
}

proof fn lemma_count_not_after(s: Seq<ImportEntryView>, k: Seq<char>, p: int)
    requires
        0 <= p <= s.len(),
        forall|j: int| 0 <= j < p ==> key_le(sort_key(#[trigger] s[j]), k),
        forall|j: int| p <= j < s.len() ==> !key_le(sort_key(#[trigger] s[j]), k),
    ensures
        count_not_after(s, k) == p,
    decreases s.len(),
{
    if s.len() > 0 {
        if p == s.len() {
            assert(key_le(sort_key(s[s.len() - 1]), k));
            lemma_count_not_after(s.drop_last(), k, p - 1);
        } else {
            assert(!key_le(sort_key(s[s.len() - 1]), k));
            lemma_count_not_after(s.drop_last(), k, p);
        }
    }
}

/// Inserts `e` with key `k` into the sorted list (see `sort_entries`).
fn insert_sorted(sorted: &mut Vec<(String, ImportEntry)>, k: String, e: ImportEntry)
    requires
        keys_sorted(entries_view(old(sorted)@.map_values(|p: (String, ImportEntry)| p.1))),
        forall|i: int| 0 <= i < old(sorted)@.len() ==> #[trigger] old(sorted)@[i].0@ == sort_key(old(sorted)@[i].1@),
        k@ == sort_key(e@),
    ensures
        forall|i: int| 0 <= i < final(sorted)@.len() ==> #[trigger] final(sorted)@[i].0@ == sort_key(final(sorted)@[i].1@),
        ({
            let t = entries_view(old(sorted)@.map_values(|p: (String, ImportEntry)| p.1));
            let u = entries_view(final(sorted)@.map_values(|p: (String, ImportEntry)| p.1));
            &&& u == t.insert(count_not_after(t, k@) as int, e@)
            &&& keys_sorted(u)
        }),
{
    let ghost t = entries_view(sorted@.map_values(|p: (String, ImportEntry)| p.1));
    let mut i: usize = 0;
    while i < sorted.len()
        invariant
            i <= sorted@.len(),
            t == entries_view(sorted@.map_values(|p: (String, ImportEntry)| p.1)),
            forall|x: int| 0 <= x < sorted@.len() ==> #[trigger] sorted@[x].0@ == sort_key(sorted@[x].1@),
            forall|j: int| 0 <= j < i ==> key_le(sort_key(#[trigger] t[j]), k@),
        ensures
            i <= sorted@.len(),
            forall|j: int| 0 <= j < i ==> key_le(sort_key(#[trigger] t[j]), k@),
            i < sorted@.len() ==> !key_le(sort_key(t[i as int]), k@),
        decreases sorted@.len() - i,
    {
        proof {
            assert(t[i as int] == sorted@[i as int].1@);
        }
        if crate::ordered::str_less(k.as_str(), sorted[i].0.as_str()) {
            break;
        }
        i = i + 1;
    }
    proof {
        assert forall|j: int| i <= j < t.len() implies !key_le(sort_key(#[trigger] t[j]), k@) by {
            if j > i {
                if key_le(sort_key(t[j]), k@) {
                    lemma_key_le_transitive(sort_key(t[i as int]), sort_key(t[j]), k@);
                }
            }
        }
        lemma_count_not_after(t, k@, i as int);
    }
    let ghost before = sorted@;
    sorted.insert(i, (k, e));
    proof {
        let u = entries_view(sorted@.map_values(|p: (String, ImportEntry)| p.1));
        assert(u =~= t.insert(i as int, e@));
        assert forall|x: int| 0 <= x < sorted@.len() implies #[trigger] sorted@[x].0@ == sort_key(sorted@[x].1@) by {
            if x < i {
                assert(sorted@[x] == before[x]);
            } else if x > i {
                assert(sorted@[x] == before[x - 1]);
            }
        }
        assert forall|a: int, b: int| 0 <= a < b < u.len() implies key_le(sort_key(#[trigger] u[a]), sort_key(#[trigger] u[b])) by {
            if b == i {
            } else if a == i {
                lemma_seq_less_total(sort_key(u[b]), k@);
            } else if a < i && b > i {
                lemma_seq_less_total(sort_key(t[b - 1]), k@);
                lemma_key_le_transitive(sort_key(t[a]), k@, sort_key(t[b - 1]));
            }
        }
    }
}

/// The kept entries of one kind, sorted (see `import_list_spec`).
fn sorted_kind(raw: &Vec<ImportEntry>, f: &str, dirs: bool) -> (r: Vec<ImportEntry>)
    ensures
        entries_view(r@) == sort_entries(kept_of_kind(entries_view(raw@), f@, dirs)),
{
    let ghost rv = entries_view(raw@);
    let mut sorted: Vec<(String, ImportEntry)> = Vec::new();
    let mut i: usize = 0;
    let empty_filter = crate::text::char_count(f) == 0;
    proof {
        assert(entries_view(sorted@.map_values(|p: (String, ImportEntry)| p.1)) =~= Seq::<ImportEntryView>::empty());
    }
    while i < raw.len()
        invariant
            i <= raw@.len(),
            rv == entries_view(raw@),
            empty_filter == (f@.len() == 0),
            forall|x: int| 0 <= x < sorted@.len() ==> #[trigger] sorted@[x].0@ == sort_key(sorted@[x].1@),
            entries_view(sorted@.map_values(|p: (String, ImportEntry)| p.1)) == sort_entries(
                kept_of_kind(rv.take(i as int), f@, dirs),
            ),
            keys_sorted(entries_view(sorted@.map_values(|p: (String, ImportEntry)| p.1))),
        decreases raw@.len() - i,
    {
        let e = &raw[i];
        proof {
            assert(rv.take(i + 1).drop_last() =~= rv.take(i as int));
            assert(rv.take(i + 1).last() == e@);
        }
        let key = crate::text::to_lowercase(e.name.as_str());
        let matches = empty_filter || crate::text::str_contains(key.as_str(), f);
        let names = crate::text::chars_of(e.name.as_str());
        let hidden = empty_filter && names.len() > 0 && names[0] == '.' && !(names.len() == 1) && !(
        names.len() == 2 && names[1] == '.');
        proof {
            assert(names@ == e.name@);
            if names@.len() == 2 && names@[0] == '.' && names@[1] == '.' {
                assert(e.name@ =~= seq!['.', '.']);
            }
            if names@.len() == 1 && names@[0] == '.' {
                assert(e.name@ =~= seq!['.']);
            }
            assert(hidden == (f@.len() == 0 && e.name@.len() > 0 && e.name@[0] == '.' && e.name@ != seq!['.']
                && e.name@ != seq!['.', '.']));
        }
        if matches && !hidden && e.is_dir == dirs {
            let ghost t = entries_view(sorted@.map_values(|p: (String, ImportEntry)| p.1));
            let copy = ImportEntry { name: e.name.clone(), is_dir: e.is_dir };
            insert_sorted(&mut sorted, key, copy);
            proof {
                assert(kept_of_kind(rv.take(i + 1), f@, dirs) =~= kept_of_kind(rv.take(i as int), f@, dirs).push(e@));
                assert(kept_of_kind(rv.take(i + 1), f@, dirs).drop_last() =~= kept_of_kind(rv.take(i as int), f@, dirs));
            }
        } else {
            proof {
                assert(kept_of_kind(rv.take(i + 1), f@, dirs) =~= kept_of_kind(rv.take(i as int), f@, dirs));
            }
        }
        i = i + 1;
    }
    proof {
        assert(rv.take(i as int) =~= rv);
    }
    let mut r: Vec<ImportEntry> = Vec::new();
    let mut j: usize = 0;
    let ghost sv = entries_view(sorted@.map_values(|p: (String, ImportEntry)| p.1));
    while j < sorted.len()
        invariant
            j <= sorted@.len(),
            sv == entries_view(sorted@.map_values(|p: (String, ImportEntry)| p.1)),
            entries_view(r@) == sv.take(j as int),
        decreases sorted@.len() - j,
    {
        let e = &sorted[j].1;
        let ghost before = r@;
        r.push(ImportEntry { name: e.name.clone(), is_dir: e.is_dir });
        proof {
            assert(sv[j as int] == e@);
            assert(entries_view(r@) =~= entries_view(before).push(e@));
            assert(sv.take(j + 1) =~= sv.take(j as int).push(e@));
        }
        j = j + 1;
        proof {
            assert(entries_view(r@) =~= sv.take(j as int));
        }
    }
    proof {
        assert(sv.take(j as int) =~= sv);
    }
    r
}

/// The file list of the import dialog (see `import_list_spec`): `raw` is
/// the directory listing, `filter` the typed text, `has_parent` whether the
/// directory has a parent.
pub fn list_import_entries(raw: &Vec<ImportEntry>, filter: &str, has_parent: bool) -> (r: Vec<ImportEntry>)
    ensures
        entries_view(r@) == import_list_spec(entries_view(raw@), filter@, has_parent),
{
    let f = crate::text::to_lowercase(filter);
    let mut r: Vec<ImportEntry> = Vec::new();
    if crate::text::char_count(f.as_str()) == 0 && has_parent {
        proof {
            reveal_strlit("..");
            assert(".."@ =~= seq!['.', '.']);
        }
        r.push(ImportEntry { name: crate::text::to_string(".."), is_dir: true });
    }
    let ghost parent = entries_view(r@);
    let dirs = sorted_kind(raw, f.as_str(), true);
    let files = sorted_kind(raw, f.as_str(), false);
    let mut k: usize = 0;
    while k < dirs.len()
        invariant
            k <= dirs@.len(),
            entries_view(r@) == parent + entries_view(dirs@).take(k as int),
        decreases dirs@.len() - k,
    {
        let ghost before = r@;
        let x = ImportEntry { name: dirs[k].name.clone(), is_dir: dirs[k].is_dir };
        r.push(x);
        proof {
            assert(x@ == dirs@[k as int]@);
            assert(entries_view(r@) =~= entries_view(before).push(x@));
            assert(entries_view(dirs@).take(k + 1) =~= entries_view(dirs@).take(k as int).push(x@));
        }
        k = k + 1;
        proof {
            assert(entries_view(r@) =~= parent + entries_view(dirs@).take(k as int));
        }
    }
    proof {
        assert(entries_view(dirs@).take(k as int) =~= entries_view(dirs@));
    }
    let ghost mid = entries_view(r@);
    let mut m: usize = 0;
    while m < files.len()
        invariant
            m <= files@.len(),
            entries_view(r@) == mid + entries_view(files@).take(m as int),
        decreases files@.len() - m,
    {
        let ghost before = r@;
        let x = ImportEntry { name: files[m].name.clone(), is_dir: files[m].is_dir };
        r.push(x);
        proof {
            assert(x@ == files@[m as int]@);
            assert(entries_view(r@) =~= entries_view(before).push(x@));
            assert(entries_view(files@).take(m + 1) =~= entries_view(files@).take(m as int).push(x@));
        }
        m = m + 1;
        proof {
            assert(entries_view(r@) =~= mid + entries_view(files@).take(m as int));
        }
    }
    proof {
        assert(entries_view(files@).take(m as int) =~= entries_view(files@));
        assert(entries_view(r@) =~= import_list_spec(entries_view(raw@), filter@, has_parent));
    }
    r
}

/// In sorted entries, those whose key is not after `k` come first.
pub proof fn lemma_count_prefix(t: Seq<ImportEntryView>, k: Seq<char>)
    requires
        keys_sorted(t),
    ensures
        count_not_after(t, k) <= t.len(),
        forall|j: int| 0 <= j < count_not_after(t, k) ==> key_le(sort_key(#[trigger] t[j]), k),
        forall|j: int| count_not_after(t, k) <= j < t.len() ==> !key_le(sort_key(#[trigger] t[j]), k),
    decreases t.len(),
{
    if t.len() > 0 {
        let d = t.drop_last();
        assert(keys_sorted(d)) by {
            assert forall|a: int, b: int| 0 <= a < b < d.len() implies key_le(sort_key(#[trigger] d[a]), sort_key(#[trigger] d[b])) by {
                assert(d[a] == t[a] && d[b] == t[b]);
            }
        }
        lemma_count_prefix(d, k);
        let c = count_not_after(d, k);
        if key_le(sort_key(t.last()), k) {
            assert forall|j: int| 0 <= j < c + 1 implies key_le(sort_key(#[trigger] t[j]), k) by {
                if j < c {
                    assert(t[j] == d[j]);
                } else if j < t.len() - 1 {
                    assert(t[j] == d[j]);
                    lemma_key_le_transitive(sort_key(t[j]), sort_key(t[t.len() - 1]), k);
                }
            }
            assert(c == d.len()) by {
                if c < d.len() {
                    assert(!key_le(sort_key(d[c as int]), k));
                    assert(d[c as int] == t[c as int]);
                    lemma_key_le_transitive(sort_key(t[c as int]), sort_key(t[t.len() - 1]), k);
                }
            }
        } else {
            assert forall|j: int| 0 <= j < c implies key_le(sort_key(#[trigger] t[j]), k) by {
                assert(t[j] == d[j]);
            }
            assert forall|j: int| c <= j < t.len() implies !key_le(sort_key(#[trigger] t[j]), k) by {
                if j < t.len() - 1 {
                    assert(t[j] == d[j]);
                }
            }
        }
    }
}

} // verus!
