//! Character-level text operations used to read archive paths, server names and URLs.
//!
//! Text is handled as a sequence of `char`s; each operation states its result over `Seq<char>`.

use vstd::prelude::*;

verus! {

/// `suffix` is the end of `s`.
pub open spec fn has_suffix(s: Seq<char>, suffix: Seq<char>) -> bool {
    suffix.len() <= s.len() && s.subrange(s.len() - suffix.len(), s.len() as int) == suffix
}

/// `prefix` is the start of `s`.
pub open spec fn has_prefix(s: Seq<char>, prefix: Seq<char>) -> bool {
    prefix.len() <= s.len() && s.subrange(0, prefix.len() as int) == prefix
}

/// `pat` occurs in `s` starting at position `i`.
pub open spec fn occurs_at(s: Seq<char>, pat: Seq<char>, i: int) -> bool {
    0 <= i && i + pat.len() <= s.len() && s.subrange(i, i + pat.len()) == pat
}

/// `pat` occurs somewhere in `s`.
pub open spec fn has_infix(s: Seq<char>, pat: Seq<char>) -> bool {
    exists|i: int| occurs_at(s, pat, i)
}

/// `s` without every trailing `c`.
pub open spec fn trim_end_char(s: Seq<char>, c: char) -> Seq<char>
    decreases s.len(),
{
    if s.len() > 0 && s.last() == c {
        trim_end_char(s.drop_last(), c)
    } else {
        s
    }
}

/// The pieces of `s` between occurrences of `sep`: always at least one piece, and one more
/// than the number of occurrences.
pub open spec fn split_char(s: Seq<char>, sep: char) -> Seq<Seq<char>>
    decreases s.len(),
{
    if s.len() == 0 {
        seq![Seq::<char>::empty()]
    } else {
        let rest = split_char(s.drop_last(), sep);
        if s.last() == sep {
            rest.push(Seq::<char>::empty())
        } else {
            rest.update(rest.len() - 1, rest.last().push(s.last()))
        }
    }
}

/// The text held by each of `v`.
pub open spec fn views(v: Seq<Vec<char>>) -> Seq<Seq<char>> {
    v.map_values(|x: Vec<char>| x@)
}

/// `s` with every `from` replaced by `to`.
pub open spec fn replace_char(s: Seq<char>, from: char, to: char) -> Seq<char> {
    Seq::new(s.len(), |i: int| if s[i] == from { to } else { s[i] })
}

/// The characters of `s`, in order.
pub fn str_chars(s: &str) -> (v: Vec<char>)
    ensures
        v@ == s@,
{
    let mut v: Vec<char> = Vec::new();
    for c in it: s.chars()
        invariant
            v@ == it.seq().take(it.index()),
            it.seq() == s@,
    {
        v.push(c);
    }
    v
}

/// Appends the characters of `s` to `v`.
pub fn push_str_chars(v: &mut Vec<char>, s: &str)
    ensures
        final(v)@ == old(v)@ + s@,
{
    let chars = str_chars(s);
    let mut i: usize = 0;
    while i < chars.len()
        invariant
            i <= chars@.len(),
            chars@ == s@,
            v@ == old(v)@ + chars@.take(i as int),
        decreases chars@.len() - i,
    {
        v.push(chars[i]);
        i = i + 1;
        assert(chars@.take(i as int) == chars@.take(i - 1).push(chars@[i - 1]));
    }
    assert(chars@.take(chars@.len() as int) == chars@);
}

/// Appends the characters of `w` to `v`.
pub fn extend_chars(v: &mut Vec<char>, w: &Vec<char>)
    ensures
        final(v)@ == old(v)@ + w@,
{
    let mut i: usize = 0;
    while i < w.len()
        invariant
            i <= w@.len(),
            v@ == old(v)@ + w@.take(i as int),
        decreases w@.len() - i,
    {
        v.push(w[i]);
        i = i + 1;
        assert(w@.take(i as int) == w@.take(i - 1).push(w@[i - 1]));
    }
    assert(w@.take(w@.len() as int) == w@);
}

/// Whether `a` and `b` hold the same characters.
pub fn chars_equal(a: &Vec<char>, b: &Vec<char>) -> (r: bool)
    ensures
        r == (a@ == b@),
{
    if a.len() != b.len() {
        return false;
    }
    let r = matches_at(a, b, 0);
    assert(r ==> a@.subrange(0, a@.len() as int) == a@);
    assert(a@ == b@ ==> a@.subrange(0, a@.len() as int) == a@);
    r
}

/// What `str::to_lowercase` makes of a text: its lowercase equivalent by the Unicode
/// `Lowercase` property, which may differ in length from the text.
pub uninterp spec fn lowercase(s: Seq<char>) -> Seq<char>;

/// Text made only of ASCII characters.
pub open spec fn is_ascii_text(s: Seq<char>) -> bool {
    forall|i: int| 0 <= i < s.len() ==> (#[trigger] s[i] as u32) < 128
}

/// An uppercase ASCII letter, `A` to `Z`.
pub open spec fn is_upper(c: char) -> bool {
    'A' <= c && c <= 'Z'
}

/// `r` is `s` with each uppercase ASCII letter made lowercase (its code raised by 32) and
/// every other character kept.
pub open spec fn ascii_lowercase_of(s: Seq<char>, r: Seq<char>) -> bool {
    &&& r.len() == s.len()
    &&& forall|i: int|
        0 <= i < s.len() ==> if is_upper(#[trigger] s[i]) {
            r[i] as u32 == s[i] as u32 + 32
        } else {
            r[i] == s[i]
        }
}

/// Calls `str::to_lowercase`. The contract claims that the result is a function of the text
/// alone (which the documentation's locale-free definition gives), and that ASCII text is
/// lowercased as `to_ascii_lowercase` does it, `A` to `Z` becoming `a` to `z` and every other
/// character kept (the Unicode lowercase mapping of the ASCII characters, to which
/// `to_ascii_lowercase`'s documentation points for text beyond ASCII).
#[verifier::external_body]
pub fn to_lowercase(s: &str) -> (r: String)
    ensures
        r@ == lowercase(s@),
        is_ascii_text(s@) ==> ascii_lowercase_of(s@, r@),
{
    s.to_lowercase()
}

/// The text made of the characters of `v`, in order.
///
/// Calls `FromIterator<&char>` for `String` (by `collect`), which builds the string of the
/// characters the iterator yields; the contract claims just that.
#[verifier::external_body]
pub fn chars_to_string(v: &Vec<char>) -> (s: String)
    ensures
        s@ == v@,
{
    v.iter().collect()
}

/// Whether `s` and `pat` agree at position `start` over the whole of `pat`.
pub fn matches_at(s: &Vec<char>, pat: &Vec<char>, start: usize) -> (r: bool)
    requires
        start + pat.len() <= s.len(),
    ensures
        r == occurs_at(s@, pat@, start as int),
{
    let mut k: usize = 0;
    while k < pat.len()
        invariant
            k <= pat@.len(),
            start + pat.len() <= s.len(),
            forall|j: int| 0 <= j < k ==> s@[start + j] == pat@[j],
        decreases pat@.len() - k,
    {
        if s[start + k] != pat[k] {
            assert(s@.subrange(start as int, start + pat@.len())[k as int] != pat@[k as int]);
            return false;
        }
        k = k + 1;
    }
    assert(s@.subrange(start as int, start + pat@.len()) =~= pat@);
    true
}

/// Whether `s` ends with `suffix`.
pub fn ends_with(s: &Vec<char>, suffix: &Vec<char>) -> (r: bool)
    ensures
        r == has_suffix(s@, suffix@),
{
    if suffix.len() > s.len() {
        false
    } else {
        matches_at(s, suffix, s.len() - suffix.len())
    }
}

/// Whether `s` starts with `prefix`.
pub fn starts_with(s: &Vec<char>, prefix: &Vec<char>) -> (r: bool)
    ensures
        r == has_prefix(s@, prefix@),
{
    if prefix.len() > s.len() {
        false
    } else {
        matches_at(s, prefix, 0)
    }
}

/// Whether `pat` occurs in `s`.
pub fn contains(s: &Vec<char>, pat: &Vec<char>) -> (r: bool)
    ensures
        r == has_infix(s@, pat@),
{
    if pat.len() > s.len() {
        return false;
    }
    let last = s.len() - pat.len();
    let mut i: usize = 0;
    while i <= last
        invariant
            last + pat@.len() == s@.len(),
            i <= last + 1,
            forall|j: int| 0 <= j < i ==> !occurs_at(s@, pat@, j),
        decreases last + 1 - i,
    {
        if matches_at(s, pat, i) {
            return true;
        }
        if i == last {
            return false;
        }
        i = i + 1;
    }
    false
}

/// `s` without every trailing `c`.
pub fn trim_end(s: &Vec<char>, c: char) -> (r: Vec<char>)
    ensures
        r@ == trim_end_char(s@, c),
{
    let mut n: usize = s.len();
    assert(s@.take(n as int) == s@);
    while n > 0 && s[n - 1] == c
        invariant
            n <= s@.len(),
            trim_end_char(s@, c) == trim_end_char(s@.take(n as int), c),
        decreases n,
    {
        assert(s@.take(n - 1) == s@.take(n as int).drop_last());
        n = n - 1;
    }
    let mut r: Vec<char> = Vec::new();
    let mut i: usize = 0;
    while i < n
        invariant
            n <= s@.len(),
            i <= n,
            r@ == s@.take(i as int),
        decreases n - i,
    {
        r.push(s[i]);
        i = i + 1;
        assert(s@.take(i as int) == s@.take(i - 1).push(s@[i - 1]));
    }
    r
}

/// `s` with every `from` replaced by `to`.
pub fn replace(s: &Vec<char>, from: char, to: char) -> (r: Vec<char>)
    ensures
        r@ == replace_char(s@, from, to),
{
    let mut r: Vec<char> = Vec::new();
    let mut i: usize = 0;
    while i < s.len()
        invariant
            i <= s@.len(),
            r@ == replace_char(s@.take(i as int), from, to),
        decreases s@.len() - i,
    {
        let c = s[i];
        if c == from {
            r.push(to);
        } else {
            r.push(c);
        }
        i = i + 1;
        assert(r@ =~= replace_char(s@.take(i as int), from, to));
    }
    assert(s@.take(s@.len() as int) == s@);
    r
}

/// The pieces of `s` between occurrences of `sep`.
pub fn split(s: &Vec<char>, sep: char) -> (parts: Vec<Vec<char>>)
    ensures
        views(parts@) == split_char(s@, sep),
{
    let mut parts: Vec<Vec<char>> = Vec::new();
    parts.push(Vec::new());
    assert(s@.take(0) =~= Seq::<char>::empty());
    assert(views(parts@) =~= seq![Seq::<char>::empty()]);
    let mut i: usize = 0;
    while i < s.len()
        invariant
            i <= s@.len(),
            views(parts@) == split_char(s@.take(i as int), sep),
        decreases s@.len() - i,
    {
        let c = s[i];
        proof {
            lemma_split_char_len(s@.take(i as int), sep);
            assert(s@.take(i + 1).drop_last() == s@.take(i as int));
        }
        let ghost before = views(parts@);
        if c == sep {
            parts.push(Vec::new());
            assert(views(parts@) =~= before.push(Seq::<char>::empty()));
        } else {
            let mut last = parts.pop().unwrap();
            assert(views(parts@) =~= before.drop_last());
            assert(last@ == before.last());
            last.push(c);
            parts.push(last);
            assert(views(parts@) =~= before.update(before.len() - 1, before.last().push(c)));
        }
        i = i + 1;
    }
    assert(s@.take(s@.len() as int) == s@);
    parts
}

/// Lowercasing ASCII text as ASCII leaves ASCII text with no uppercase letter.
pub proof fn lemma_ascii_lowercase(s: Seq<char>, r: Seq<char>)
    requires
        is_ascii_text(s),
        ascii_lowercase_of(s, r),
    ensures
        is_ascii_text(r),
        forall|i: int| 0 <= i < r.len() ==> !is_upper(#[trigger] r[i]),
{
    assert forall|i: int| 0 <= i < r.len() implies (#[trigger] r[i] as u32) < 128 && !is_upper(r[i]) by {
        assert((s[i] as u32) < 128);
        if is_upper(s[i]) {
            assert(('A' as u32) <= (s[i] as u32) <= ('Z' as u32));
        }
    }
}

/// Each piece of ASCII text split at a character is ASCII.
pub proof fn lemma_split_ascii(s: Seq<char>, sep: char)
    requires
        is_ascii_text(s),
    ensures
        forall|k: int|
            0 <= k < split_char(s, sep).len() ==> is_ascii_text(#[trigger] split_char(s, sep)[k]),
    decreases s.len(),
{
    if s.len() > 0 {
        lemma_split_ascii(s.drop_last(), sep);
        lemma_split_char_len(s.drop_last(), sep);
        assert((s.last() as u32) < 128);
        let rest = split_char(s.drop_last(), sep);
        assert forall|k: int| 0 <= k < split_char(s, sep).len() implies is_ascii_text(
            #[trigger] split_char(s, sep)[k],
        ) by {
            if k < rest.len() - 1 || s.last() == sep {
                if k < rest.len() {
                    assert(split_char(s, sep)[k] == rest[k]);
                }
            } else {
                let piece = rest.last().push(s.last());
                assert(split_char(s, sep)[k] == piece);
                assert forall|j: int| 0 <= j < piece.len() implies (#[trigger] piece[j] as u32) < 128 by {
                    if j < rest.last().len() {
                        assert(piece[j] == rest.last()[j]);
                    }
                }
            }
        }
    }
}

/// A suffix of the text without the separator is a suffix of its last piece.
pub proof fn lemma_split_last_suffix(s: Seq<char>, sep: char, t: Seq<char>)
    requires
        has_suffix(s, t),
        forall|i: int| 0 <= i < t.len() ==> t[i] != sep,
    ensures
        split_char(s, sep).len() >= 1,
        has_suffix(split_char(s, sep).last(), t),
    decreases s.len(),
{
    lemma_split_char_len(s, sep);
    if t.len() == 0 {
        let l = split_char(s, sep).last();
        assert(l.subrange(l.len() as int, l.len() as int) =~= t);
    } else {
        let x = s.last();
        assert(x == t.last()) by {
            assert(s.subrange(s.len() - t.len(), s.len() as int)[t.len() - 1] == s[s.len() - 1]);
        }
        let s2 = s.drop_last();
        let t2 = t.drop_last();
        assert(s2.subrange(s2.len() - t2.len(), s2.len() as int) =~= t2) by {
            assert forall|j: int| 0 <= j < t2.len() implies s2.subrange(s2.len() - t2.len(), s2.len() as int)[j] == t2[j] by {
                assert(s.subrange(s.len() - t.len(), s.len() as int)[j] == t[j]);
            }
        }
        lemma_split_last_suffix(s2, sep, t2);
        lemma_split_char_len(s2, sep);
        let rest = split_char(s2, sep);
        let l = rest.last().push(x);
        assert(split_char(s, sep).last() == l);
        assert(l.subrange(l.len() - t.len(), l.len() as int) =~= t) by {
            assert forall|j: int| 0 <= j < t.len() implies l.subrange(l.len() - t.len(), l.len() as int)[j] == t[j] by {
                if j < t.len() - 1 {
                    assert(rest.last().subrange(rest.last().len() - t2.len(), rest.last().len() as int)[j] == t2[j]);
                }
            }
        }
    }
}

/// Splitting always yields at least one piece.
pub proof fn lemma_split_char_len(s: Seq<char>, sep: char)
    ensures
        split_char(s, sep).len() >= 1,
    decreases s.len(),
{
    if s.len() > 0 {
        lemma_split_char_len(s.drop_last(), sep);
    }
}

} // verus!
