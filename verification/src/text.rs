//! Character-sequence utilities shared by the rest of the crate: substring
//! search, pattern replacement, line splitting, trimming and ASCII case
//! folding, each stated over `Seq<char>`.

use vstd::prelude::*;

verus! {

// ----------------------------------------------------------------------------
// Specifications
// ----------------------------------------------------------------------------

/// `p` occurs in `s` starting at index `i`.
pub open spec fn occurs_at(s: Seq<char>, p: Seq<char>, i: int) -> bool {
    0 <= i && i + p.len() <= s.len() && s.subrange(i, i + p.len()) == p
}

/// `p` is a prefix of `s`.
pub open spec fn is_prefix_of(p: Seq<char>, s: Seq<char>) -> bool {
    occurs_at(s, p, 0)
}

/// `p` occurs somewhere in `s` (the empty sequence occurs in every sequence).
pub open spec fn has_substring(s: Seq<char>, p: Seq<char>) -> bool {
    exists|i: int| #[trigger] occurs_at(s, p, i)
}

/// Left-to-right, non-overlapping replacement of every occurrence of `pat`
/// by `to`.  With an empty pattern, `to` is inserted before every character
/// and once more at the end.
pub open spec fn replace_spec(s: Seq<char>, pat: Seq<char>, to: Seq<char>) -> Seq<char>
    decreases s.len(),
{
    if pat.len() == 0 {
        if s.len() == 0 {
            to
        } else {
            to + seq![s[0]] + replace_spec(s.drop_first(), pat, to)
        }
    } else if s.len() == 0 {
        Seq::empty()
    } else if is_prefix_of(pat, s) {
        to + replace_spec(s.skip(pat.len() as int), pat, to)
    } else {
        seq![s[0]] + replace_spec(s.drop_first(), pat, to)
    }
}

/// Index of the first `'\n'` in `s`, or `s.len()` when there is none.
pub open spec fn newline_index(s: Seq<char>) -> int
    decreases s.len(),
{
    if s.len() == 0 {
        0
    } else if s[0] == '\n' {
        0
    } else {
        1 + newline_index(s.drop_first())
    }
}

/// A line without its terminating `'\r'`, if it has one.
pub open spec fn strip_cr(s: Seq<char>) -> Seq<char> {
    if s.len() > 0 && s.last() == '\r' {
        s.drop_last()
    } else {
        s
    }
}

/// The lines of `s`: pieces separated by `'\n'`, each line that ends in a
/// newline losing one trailing `'\r'`; a final line terminator does not
/// start an extra empty line, and the empty text has no lines.
pub open spec fn lines_spec(s: Seq<char>) -> Seq<Seq<char>>
    decreases s.len(),
{
    if s.len() == 0 {
        Seq::empty()
    } else {
        let k = newline_index(s);
        if k < 0 || k >= s.len() {
            seq![s]
        } else {
            seq![strip_cr(s.take(k))] + lines_spec(s.skip(k + 1))
        }
    }
}

/// ASCII lower-case folding of one character; other characters are unchanged.
pub open spec fn ascii_lower(c: char) -> char {
    if 'A' <= c && c <= 'Z' {
        ((c as u32) + 32) as char
    } else {
        c
    }
}

/// ASCII upper-case folding of one character; other characters are unchanged.
pub open spec fn ascii_upper(c: char) -> char {
    if 'a' <= c && c <= 'z' {
        ((c as u32) - 32) as char
    } else {
        c
    }
}

/// Both sequences agree after ASCII lower-case folding of every character.
pub open spec fn eq_ignore_ascii_case_spec(a: Seq<char>, b: Seq<char>) -> bool {
    a.len() == b.len() && forall|i: int| 0 <= i < a.len() ==> ascii_lower(a[i]) == ascii_lower(b[i])
}

/// Every character is ASCII.
pub open spec fn all_ascii(s: Seq<char>) -> bool {
    forall|i: int| 0 <= i < s.len() ==> (s[i] as u32) < 128
}

/// Character-wise ASCII lower-case folding.
pub open spec fn ascii_lower_seq(s: Seq<char>) -> Seq<char> {
    Seq::new(s.len(), |i: int| ascii_lower(s[i]))
}

/// Character-wise ASCII upper-case folding.
pub open spec fn ascii_upper_seq(s: Seq<char>) -> Seq<char> {
    Seq::new(s.len(), |i: int| ascii_upper(s[i]))
}

/// Name for the result of `str::to_lowercase`.
pub uninterp spec fn lowercase(s: Seq<char>) -> Seq<char>;

/// What `str::to_lowercase` gives a text: the ASCII folding of an ASCII
/// text, and the named result `lowercase` otherwise.
pub open spec fn lower_text(s: Seq<char>) -> Seq<char> {
    if all_ascii(s) {
        ascii_lower_seq(s)
    } else {
        lowercase(s)
    }
}

/// Name for the result of `str::to_uppercase`.
pub uninterp spec fn uppercase(s: Seq<char>) -> Seq<char>;

/// Name for the result of `char::is_whitespace`.
pub uninterp spec fn is_white_space(c: char) -> bool;

/// White space as `char::is_whitespace` answers it: the space, tab, line
/// feed and carriage return are white space, the other printable ASCII
/// characters are not, and the rest is as `is_white_space` names it.
pub open spec fn white_space(c: char) -> bool {
    if c == ' ' || c == '\t' || c == '\n' || c == '\r' {
        true
    } else if '!' <= c <= '~' {
        false
    } else {
        is_white_space(c)
    }
}

/// `s` without leading white space.
pub open spec fn trim_front(s: Seq<char>) -> Seq<char>
    decreases s.len(),
{
    if s.len() > 0 && white_space(s[0]) {
        trim_front(s.drop_first())
    } else {
        s
    }
}

/// `s` without trailing white space.
pub open spec fn trim_back(s: Seq<char>) -> Seq<char>
    decreases s.len(),
{
    if s.len() > 0 && white_space(s.last()) {
        trim_back(s.drop_last())
    } else {
        s
    }
}

/// `s` without leading and trailing white space.
pub open spec fn trim_spec(s: Seq<char>) -> Seq<char> {
    trim_back(trim_front(s))
}

/// `s` without every trailing occurrence of `c`.
pub open spec fn trim_end_char(s: Seq<char>, c: char) -> Seq<char>
    decreases s.len(),
{
    if s.len() > 0 && s.last() == c {
        trim_end_char(s.drop_last(), c)
    } else {
        s
    }
}

/// `n` spaces.
pub open spec fn spaces(n: nat) -> Seq<char> {
    Seq::new(n, |i: int| ' ')
}

/// The items joined, with `sep` between each two.
pub open spec fn join_with(items: Seq<Seq<char>>, sep: Seq<char>) -> Seq<char>
    decreases items.len(),
{
    if items.len() == 0 {
        Seq::empty()
    } else if items.len() == 1 {
        items[0]
    } else {
        join_with(items.drop_last(), sep) + sep + items.last()
    }
}

/// The parts one after the other.
pub open spec fn concat_all(parts: Seq<Seq<char>>) -> Seq<char>
    decreases parts.len(),
{
    if parts.len() == 0 {
        Seq::empty()
    } else {
        concat_all(parts.drop_last()) + parts.last()
    }
}

// ----------------------------------------------------------------------------
// Trusted items
// ----------------------------------------------------------------------------

/// Calls `String::push`, which appends one character to the string.
#[verifier::external_body]
pub fn push_char(s: &mut String, c: char)
    ensures
        final(s)@ == old(s)@.push(c),
{
    s.push(c);
}

/// Calls `str::to_lowercase`; the result is named `lowercase`.  Its
/// documentation maps ASCII letters to their lower-case forms and leaves
/// other ASCII characters alone, and the empty string stays empty.
#[verifier::external_body]
pub fn to_lowercase(s: &str) -> (r: String)
    ensures
        r@ == lowercase(s@),
        all_ascii(s@) ==> r@ == ascii_lower_seq(s@),
{
    s.to_lowercase()
}

/// Calls `str::to_uppercase`; the result is named `uppercase`.  For ASCII
/// text it is the character-wise ASCII upper-case folding.
#[verifier::external_body]
pub fn to_uppercase(s: &str) -> (r: String)
    ensures
        r@ == uppercase(s@),
        all_ascii(s@) ==> r@ == ascii_upper_seq(s@),
{
    s.to_uppercase()
}

/// Calls `char::is_whitespace` (Unicode `White_Space`); the result is named
/// `is_white_space`.  The space, tab, line feed and carriage return have the
/// property; the printable ASCII characters other than the space do not.
#[verifier::external_body]
pub fn char_is_whitespace(c: char) -> (b: bool)
    ensures
        b == is_white_space(c),
        c == ' ' || c == '\t' || c == '\n' || c == '\r' ==> b,
        '!' <= c <= '~' ==> !b,
{
    c.is_whitespace()
}

// ----------------------------------------------------------------------------
// Conversions between strings and character vectors
// ----------------------------------------------------------------------------

/// The characters of `s`, in order.
pub fn chars_of(s: &str) -> (v: Vec<char>)
    ensures
        v@ == s@,
{
    broadcast use vstd::string::group_string_axioms;

    let mut v: Vec<char> = Vec::new();
    for c in it: s.chars()
        invariant
            v@ == it.seq().take(it.index()),
            it.seq() == s@,
            it.index() <= s@.len(),
    {
        v.push(c);
    }
    assert(v@ =~= s@.take(v@.len() as int));
    v
}

/// The string made of the characters of `v`.
pub fn string_of(v: &Vec<char>) -> (s: String)
    ensures
        s@ == v@,
{
    let mut s = String::new();
    let mut i: usize = 0;
    while i < v.len()
        invariant
            i <= v.len(),
            s@ == v@.take(i as int),
        decreases v.len() - i,
    {
        push_char(&mut s, v[i]);
        i = i + 1;
        assert(s@ =~= v@.take(i as int));
    }
    assert(v@.take(v.len() as int) =~= v@);
    s
}

/// Appends the characters of `t` to `out`.
pub fn append_chars(out: &mut Vec<char>, t: &Vec<char>)
    ensures
        final(out)@ == old(out)@ + t@,
{
    let mut i: usize = 0;
    while i < t.len()
        invariant
            i <= t.len(),
            out@ == old(out)@ + t@.take(i as int),
        decreases t.len() - i,
    {
        out.push(t[i]);
        i = i + 1;
        assert(out@ =~= old(out)@ + t@.take(i as int));
    }
    assert(t@.take(t.len() as int) =~= t@);
}

/// Appends the characters of `t` to the string `s`.
pub fn push_str(s: &mut String, t: &str)
    ensures
        final(s)@ == old(s)@ + t@,
{
    let tv = chars_of(t);
    let mut i: usize = 0;
    while i < tv.len()
        invariant
            i <= tv.len(),
            tv@ == t@,
            s@ == old(s)@ + tv@.take(i as int),
        decreases tv.len() - i,
    {
        push_char(s, tv[i]);
        i = i + 1;
        assert(s@ =~= old(s)@ + tv@.take(i as int));
    }
    assert(tv@.take(tv.len() as int) =~= tv@);
}

/// Concatenation of two string slices.
pub fn concat(a: &str, b: &str) -> (r: String)
    ensures
        r@ == a@ + b@,
{
    let mut r = String::new();
    push_str(&mut r, a);
    push_str(&mut r, b);
    assert(r@ =~= a@ + b@);
    r
}

/// A copy of a string slice.
pub fn to_string(a: &str) -> (r: String)
    ensures
        r@ == a@,
{
    let mut r = String::new();
    push_str(&mut r, a);
    assert(r@ =~= a@);
    r
}

// ----------------------------------------------------------------------------
// Search
// ----------------------------------------------------------------------------

/// Whether `p` occurs in `s` at index `i`.
pub fn matches_at(s: &Vec<char>, p: &Vec<char>, i: usize) -> (b: bool)
    requires
        i <= s.len(),
    ensures
        b == occurs_at(s@, p@, i as int),
{
    if p.len() > s.len() - i {
        return false;
    }
    let mut k: usize = 0;
    while k < p.len()
        invariant
            k <= p.len(),
            i + p.len() <= s.len(),
            forall|j: int| 0 <= j < k ==> s@[i + j] == p@[j],
        decreases p.len() - k,
    {
        if s[i + k] != p[k] {
            assert(s@.subrange(i as int, i + p.len())[k as int] != p@[k as int]);
            return false;
        }
        k = k + 1;
    }
    assert(s@.subrange(i as int, i + p.len()) =~= p@);
    true
}

/// Whether `p` occurs somewhere in `s`.
pub fn contains_chars(s: &Vec<char>, p: &Vec<char>) -> (b: bool)
    ensures
        b == has_substring(s@, p@),
{
    let mut i: usize = 0;
    while i < s.len()
        invariant
            i <= s.len(),
            forall|j: int| 0 <= j < i ==> !#[trigger] occurs_at(s@, p@, j),
        decreases s.len() - i,
    {
        if matches_at(s, p, i) {
            return true;
        }
        i = i + 1;
    }
    if matches_at(s, p, i) {
        return true;
    }
    assert forall|j: int| !#[trigger] occurs_at(s@, p@, j) by {
        if 0 <= j && j < i {
        }
    }
    false
}

/// Whether `needle` occurs in `hay`.
pub fn str_contains(hay: &str, needle: &str) -> (b: bool)
    ensures
        b == has_substring(hay@, needle@),
{
    let h = chars_of(hay);
    let n = chars_of(needle);
    contains_chars(&h, &n)
}

/// Whether `p` is a prefix of `s`.
pub fn starts_with(s: &str, p: &str) -> (b: bool)
    ensures
        b == is_prefix_of(p@, s@),
{
    let sv = chars_of(s);
    let pv = chars_of(p);
    matches_at(&sv, &pv, 0)
}

/// Whether the string contains the character `c`.
pub fn has_char(s: &str, c: char) -> (b: bool)
    ensures
        b == s@.contains(c),
{
    let sv = chars_of(s);
    let mut i: usize = 0;
    while i < sv.len()
        invariant
            i <= sv.len(),
            sv@ == s@,
            forall|j: int| 0 <= j < i ==> sv@[j] != c,
        decreases sv.len() - i,
    {
        if sv[i] == c {
            assert(s@[i as int] == c);
            return true;
        }
        i = i + 1;
    }
    false
}

// ----------------------------------------------------------------------------
// Replacement
// ----------------------------------------------------------------------------

proof fn lemma_skip_drop_first(s: Seq<char>, i: int)
    requires
        0 <= i < s.len(),
    ensures
        s.skip(i).drop_first() == s.skip(i + 1),
        s.skip(i)[0] == s[i],
{
    assert(s.skip(i).drop_first() =~= s.skip(i + 1));
}

/// Replaces every left-to-right, non-overlapping occurrence of `pat` in `s`
/// by `to`.
pub fn replace_chars(s: &Vec<char>, pat: &Vec<char>, to: &Vec<char>) -> (r: Vec<char>)
    ensures
        r@ == replace_spec(s@, pat@, to@),
{
    let mut out: Vec<char> = Vec::new();
    let mut i: usize = 0;
    assert(s@.skip(0) =~= s@);
    assert(out@ + replace_spec(s@, pat@, to@) =~= replace_spec(s@, pat@, to@));
    if pat.len() == 0 {
        while i < s.len()
            invariant
                pat@.len() == 0,
                i <= s.len(),
                out@ + replace_spec(s@.skip(i as int), pat@, to@) == replace_spec(s@, pat@, to@),
            decreases s.len() - i,
        {
            proof {
                lemma_skip_drop_first(s@, i as int);
            }
            let ghost before = out@;
            append_chars(&mut out, to);
            out.push(s[i]);
            i = i + 1;
            assert(before + replace_spec(s@.skip(i - 1), pat@, to@) =~= out@ + replace_spec(
                s@.skip(i as int),
                pat@,
                to@,
            ));
        }
        let ghost before = out@;
        append_chars(&mut out, to);
        assert(s@.skip(i as int) =~= Seq::<char>::empty());
        assert(out@ =~= before + replace_spec(s@.skip(i as int), pat@, to@));
    } else {
        while i < s.len()
            invariant
                pat@.len() > 0,
                i <= s.len(),
                out@ + replace_spec(s@.skip(i as int), pat@, to@) == replace_spec(s@, pat@, to@),
            decreases s.len() - i,
        {
            let ghost rest = s@.skip(i as int);
            let ghost before = out@;
            if matches_at(s, pat, i) {
                assert(rest.subrange(0, pat@.len() as int) =~= s@.subrange(
                    i as int,
                    i + pat@.len(),
                ));
                assert(is_prefix_of(pat@, rest));
                assert(rest.skip(pat@.len() as int) =~= s@.skip(i + pat@.len()));
                append_chars(&mut out, to);
                i = i + pat.len();
                assert(before + replace_spec(rest, pat@, to@) =~= out@ + replace_spec(
                    s@.skip(i as int),
                    pat@,
                    to@,
                ));
            } else {
                assert(!is_prefix_of(pat@, rest)) by {
                    if is_prefix_of(pat@, rest) {
                        assert(s@.subrange(i as int, i + pat@.len()) =~= rest.subrange(
                            0,
                            pat@.len() as int,
                        ));
                    }
                }
                proof {
                    lemma_skip_drop_first(s@, i as int);
                }
                out.push(s[i]);
                i = i + 1;
                assert(before + replace_spec(rest, pat@, to@) =~= out@ + replace_spec(
                    s@.skip(i as int),
                    pat@,
                    to@,
                ));
            }
        }
        assert(s@.skip(i as int) =~= Seq::<char>::empty());
        assert(out@ =~= out@ + replace_spec(s@.skip(i as int), pat@, to@));
    }
    out
}

/// `str::replace`: every left-to-right, non-overlapping occurrence of `pat`
/// in `s` replaced by `to`.
pub fn replace_str(s: &str, pat: &str, to: &str) -> (r: String)
    ensures
        r@ == replace_spec(s@, pat@, to@),
{
    let sv = chars_of(s);
    let pv = chars_of(pat);
    let tv = chars_of(to);
    let rv = replace_chars(&sv, &pv, &tv);
    string_of(&rv)
}

// ----------------------------------------------------------------------------
// Lines
// ----------------------------------------------------------------------------

proof fn lemma_newline_index(s: Seq<char>, k: int)
    requires
        0 <= k <= s.len(),
        forall|j: int| 0 <= j < k ==> s[j] != '\n',
        k < s.len() ==> s[k] == '\n',
    ensures
        newline_index(s) == k,
    decreases k,
{
    if k > 0 {
        let t = s.drop_first();
        assert forall|j: int| 0 <= j < k - 1 implies t[j] != '\n' by {
            assert(t[j] == s[j + 1]);
        }
        if k < s.len() {
            assert(t[k - 1] == s[k]);
        }
        lemma_newline_index(t, k - 1);
    }
}

/// `str::lines`: the lines of `s` as described by `lines_spec`.
pub fn split_lines(s: &str) -> (r: Vec<String>)
    ensures
        r@.len() == lines_spec(s@).len(),
        forall|i: int| 0 <= i < r@.len() ==> #[trigger] r@[i]@ == lines_spec(s@)[i],
{
    let sv = chars_of(s);
    let mut out: Vec<String> = Vec::new();
    let ghost mut done: Seq<Seq<char>> = Seq::empty();
    let mut cur: Vec<char> = Vec::new();
    let mut start: usize = 0;
    let mut i: usize = 0;
    assert(sv@.skip(0) =~= sv@);
    assert(done + lines_spec(sv@) =~= lines_spec(sv@));
    assert(cur@ =~= sv@.subrange(0, 0));
    while i < sv.len()
        invariant
            sv@ == s@,
            start <= i <= sv.len(),
            cur@ == sv@.subrange(start as int, i as int),
            forall|j: int| start <= j < i ==> sv@[j] != '\n',
            out@.len() == done.len(),
            forall|j: int| 0 <= j < out@.len() ==> #[trigger] out@[j]@ == done[j],
            done + lines_spec(sv@.skip(start as int)) == lines_spec(sv@),
        decreases sv.len() - i,
    {
        if sv[i] == '\n' {
            let ghost rest = sv@.skip(start as int);
            proof {
                assert forall|j: int| 0 <= j < i - start implies rest[j] != '\n' by {
                    assert(rest[j] == sv@[start + j]);
                }
                lemma_newline_index(rest, i - start);
                assert(rest.take(i - start) =~= cur@);
                assert(rest.skip(i - start + 1) =~= sv@.skip(i + 1));
            }
            let mut line = cur;
            if line.len() > 0 && line[line.len() - 1] == '\r' {
                line.pop();
            }
            assert(line@ == strip_cr(cur@));
            let ls = string_of(&line);
            out.push(ls);
            proof {
                done = done.push(strip_cr(cur@));
                assert(done + lines_spec(sv@.skip(i + 1)) =~= (done.drop_last() + lines_spec(rest)));
            }
            cur = Vec::new();
            start = i + 1;
            i = i + 1;
            assert(cur@ =~= sv@.subrange(start as int, i as int));
        } else {
            cur.push(sv[i]);
            i = i + 1;
            assert(cur@ =~= sv@.subrange(start as int, i as int));
        }
    }
    let ghost rest = sv@.skip(start as int);
    if cur.len() > 0 {
        proof {
            assert forall|j: int| 0 <= j < rest.len() implies rest[j] != '\n' by {
                assert(rest[j] == sv@[start + j]);
            }
            lemma_newline_index(rest, rest.len() as int);
            assert(rest =~= cur@);
        }
        let ls = string_of(&cur);
        out.push(ls);
        proof {
            done = done.push(cur@);
            assert(done =~= lines_spec(sv@));
        }
    } else {
        assert(rest.len() == 0);
        assert(done =~= lines_spec(sv@));
    }
    out
}

// ----------------------------------------------------------------------------
// Case folding and trimming
// ----------------------------------------------------------------------------

/// ASCII lower-case folding of one character.
pub fn char_ascii_lower(c: char) -> (r: char)
    ensures
        r == ascii_lower(c),
{
    if 'A' <= c && c <= 'Z' {
        let b: u8 = (c as u8) + 32;
        b as char
    } else {
        c
    }
}

/// ASCII upper-case folding of one character.
pub fn char_ascii_upper(c: char) -> (r: char)
    ensures
        r == ascii_upper(c),
{
    if 'a' <= c && c <= 'z' {
        let b: u8 = (c as u8) - 32;
        b as char
    } else {
        c
    }
}

/// `str::eq_ignore_ascii_case`.
pub fn eq_ignore_ascii_case(a: &str, b: &str) -> (r: bool)
    ensures
        r == eq_ignore_ascii_case_spec(a@, b@),
{
    let av = chars_of(a);
    let bv = chars_of(b);
    if av.len() != bv.len() {
        return false;
    }
    let mut i: usize = 0;
    while i < av.len()
        invariant
            av@ == a@,
            bv@ == b@,
            av.len() == bv.len(),
            i <= av.len(),
            forall|j: int| 0 <= j < i ==> ascii_lower(a@[j]) == ascii_lower(b@[j]),
        decreases av.len() - i,
    {
        if char_ascii_lower(av[i]) != char_ascii_lower(bv[i]) {
            return false;
        }
        i = i + 1;
    }
    true
}

proof fn lemma_trim_front_step(s: Seq<char>, i: int)
    requires
        0 <= i < s.len(),
        white_space(s[i]),
    ensures
        trim_front(s.skip(i)) == trim_front(s.skip(i + 1)),
{
    lemma_skip_drop_first(s, i);
}

/// `str::trim`: `s` without leading and trailing white space.
pub fn trim(s: &str) -> (r: String)
    ensures
        r@ == trim_spec(s@),
{
    let sv = chars_of(s);
    let mut i: usize = 0;
    assert(sv@.skip(0) =~= sv@);
    while i < sv.len() && char_is_whitespace(sv[i])
        invariant
            sv@ == s@,
            i <= sv.len(),
            trim_front(sv@.skip(i as int)) == trim_front(s@),
        decreases sv.len() - i,
    {
        proof {
            lemma_trim_front_step(sv@, i as int);
        }
        i = i + 1;
    }
    let ghost front = sv@.skip(i as int);
    assert(trim_front(front) == front);
    let mut j: usize = sv.len();
    assert(front.take((j - i) as int) =~= front);
    while j > i && char_is_whitespace(sv[j - 1])
        invariant
            sv@ == s@,
            front == sv@.skip(i as int),
            i <= j <= sv.len(),
            trim_back(front.take((j - i) as int)) == trim_back(front),
        decreases j,
    {
        let ghost t = front.take((j - i) as int);
        assert(t.last() == sv@[j - 1]);
        assert(t.drop_last() =~= front.take((j - 1 - i) as int));
        j = j - 1;
    }
    let ghost kept = front.take((j - i) as int);
    assert(trim_back(kept) == kept);
    let mut out: Vec<char> = Vec::new();
    let mut k: usize = i;
    while k < j
        invariant
            sv@ == s@,
            i <= k <= j <= sv.len(),
            out@ == sv@.subrange(i as int, k as int),
        decreases j - k,
    {
        out.push(sv[k]);
        k = k + 1;
        assert(out@ =~= sv@.subrange(i as int, k as int));
    }
    assert(out@ =~= kept);
    string_of(&out)
}

/// `str::trim_end_matches` with a single character pattern.
pub fn trim_end_matches_char(s: &str, c: char) -> (r: String)
    ensures
        r@ == trim_end_char(s@, c),
{
    let sv = chars_of(s);
    let mut j: usize = sv.len();
    assert(sv@.take(j as int) =~= sv@);
    while j > 0 && sv[j - 1] == c
        invariant
            sv@ == s@,
            j <= sv.len(),
            trim_end_char(sv@.take(j as int), c) == trim_end_char(s@, c),
        decreases j,
    {
        assert(sv@.take(j as int).drop_last() =~= sv@.take(j - 1));
        j = j - 1;
    }
    let mut out: Vec<char> = Vec::new();
    let mut k: usize = 0;
    while k < j
        invariant
            sv@ == s@,
            k <= j <= sv.len(),
            out@ == sv@.take(k as int),
        decreases j - k,
    {
        out.push(sv[k]);
        k = k + 1;
        assert(out@ =~= sv@.take(k as int));
    }
    string_of(&out)
}

/// Number of characters of a string.
pub fn char_count(s: &str) -> (n: usize)
    ensures
        n == s@.len(),
{
    let v = chars_of(s);
    v.len()
}

/// The strings joined with `sep` between each two.
pub fn join_strings(items: &Vec<String>, sep: &str) -> (r: String)
    ensures
        r@ == join_with(crate::api::strings_view(items@), sep@),
{
    let mut r = String::new();
    let mut i: usize = 0;
    while i < items.len()
        invariant
            i <= items.len(),
            r@ == join_with(crate::api::strings_view(items@.take(i as int)), sep@),
        decreases items.len() - i,
    {
        let ghost before = crate::api::strings_view(items@.take(i as int));
        let ghost after = crate::api::strings_view(items@.take(i as int + 1));
        assert(after.drop_last() =~= before);
        if i > 0 {
            push_str(&mut r, sep);
        }
        push_str(&mut r, items[i].as_str());
        i = i + 1;
        proof {
            if i == 1 {
                assert(r@ =~= after[0]);
            } else {
                assert(r@ =~= join_with(before, sep@) + sep@ + after.last());
            }
        }
    }
    assert(items@.take(i as int) =~= items@);
    r
}

} // verus!
