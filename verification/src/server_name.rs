//! The grammar of NordVPN server names, such as `us1234`, `al-onion1` or `us-ca12`.
//!
//! A server name is read as the leftmost match of the pattern
//! `([a-z]+)(?:-(onion|[a-z]+))?([0-9]+)`: a country code of lowercase letters, optionally
//! a dash and a special kind (`onion`, or a second code for a double-hop server), then the
//! server number. With leftmost-first matching, the first group is always a whole run of
//! letters (a shorter run would be followed by a letter, which neither `-` nor a digit can
//! match), and for the same reason the second group is always the whole run of letters
//! after the dash: `onion` is taken by the first alternative exactly when the run is
//! `onion`, and the second alternative takes the same run otherwise.

use vstd::prelude::*;

verus! {

/// A lowercase ASCII letter, `[a-z]`.
pub open spec fn is_lower(c: char) -> bool {
    'a' <= c && c <= 'z'
}

/// An ASCII digit, `[0-9]`.
pub open spec fn is_digit(c: char) -> bool {
    '0' <= c && c <= '9'
}

/// The position just past the run of lowercase letters that starts at `p`.
pub open spec fn lower_run_end(s: Seq<char>, p: int) -> int
    decreases s.len() - p,
{
    if 0 <= p < s.len() && is_lower(s[p]) {
        lower_run_end(s, p + 1)
    } else {
        p
    }
}

/// What a match of a server name yields: its country code (group 1) and, where the name
/// has one, its special kind (group 2).
pub struct ServerNameSpec {
    pub code: Seq<char>,
    pub special: Option<Seq<char>>,
}

/// The match of the pattern that starts at `p`, if there is one.
pub open spec fn match_at(s: Seq<char>, p: int) -> Option<ServerNameSpec> {
    if 0 <= p < s.len() && is_lower(s[p]) {
        let q = lower_run_end(s, p);
        let r = lower_run_end(s, q + 1);
        if q < s.len() && s[q] == '-' && r > q + 1 && r < s.len() && is_digit(s[r]) {
            Some(ServerNameSpec { code: s.subrange(p, q), special: Some(s.subrange(q + 1, r)) })
        } else if q < s.len() && is_digit(s[q]) {
            Some(ServerNameSpec { code: s.subrange(p, q), special: None })
        } else {
            None
        }
    } else {
        None
    }
}

/// The first match that starts at `p` or later.
pub open spec fn first_match_from(s: Seq<char>, p: int) -> Option<ServerNameSpec>
    decreases s.len() - p,
{
    if p < 0 || p >= s.len() {
        None
    } else if match_at(s, p) is Some {
        match_at(s, p)
    } else {
        first_match_from(s, p + 1)
    }
}

/// The leftmost match of the server-name pattern in `s`.
pub open spec fn server_name_match(s: Seq<char>) -> Option<ServerNameSpec> {
    first_match_from(s, 0)
}

/// Text made only of lowercase letters, and not empty: what `[a-z]+` matches.
pub open spec fn is_letters(t: Seq<char>) -> bool {
    t.len() > 0 && forall|k: int| 0 <= k < t.len() ==> is_lower(#[trigger] t[k])
}

proof fn lemma_lower_run(s: Seq<char>, p: int)
    requires
        0 <= p <= s.len(),
    ensures
        p <= lower_run_end(s, p) <= s.len(),
        forall|k: int| p <= k < lower_run_end(s, p) ==> is_lower(#[trigger] s[k]),
    decreases s.len() - p,
{
    if p < s.len() && is_lower(s[p]) {
        lemma_lower_run(s, p + 1);
    }
}

proof fn lemma_match_at_shape(s: Seq<char>, p: int)
    ensures
        match_at(s, p) matches Some(m) ==> is_letters(m.code) && (m.special matches Some(sp)
            ==> is_letters(sp)),
{
    if 0 <= p < s.len() && is_lower(s[p]) {
        lemma_lower_run(s, p);
        let q = lower_run_end(s, p);
        if q < s.len() {
            lemma_lower_run(s, q + 1);
        }
        if match_at(s, p) is Some {
            let m = match_at(s, p)->0;
            assert forall|k: int| 0 <= k < m.code.len() implies is_lower(#[trigger] m.code[k]) by {
                assert(m.code[k] == s[p + k]);
            }
            if m.special is Some {
                let sp = m.special->0;
                assert forall|k: int| 0 <= k < sp.len() implies is_lower(#[trigger] sp[k]) by {
                    assert(sp[k] == s[q + 1 + k]);
                }
            }
        }
    }
}

proof fn lemma_first_match_from_shape(s: Seq<char>, p: int)
    ensures
        first_match_from(s, p) matches Some(m) ==> is_letters(m.code) && (m.special matches Some(
            sp,
        ) ==> is_letters(sp)),
    decreases s.len() - p,
{
    if 0 <= p < s.len() {
        lemma_match_at_shape(s, p);
        lemma_first_match_from_shape(s, p + 1);
    }
}

/// A server name's country code, and its special kind where it has one, are each a
/// non-empty run of lowercase letters, as the groups `([a-z]+)` and `(onion|[a-z]+)` say.
pub proof fn lemma_server_name_shape(s: Seq<char>)
    ensures
        server_name_match(s) matches Some(m) ==> is_letters(m.code) && (m.special matches Some(
            sp,
        ) ==> is_letters(sp)),
{
    lemma_first_match_from_shape(s, 0);
}

/// A run of lowercase letters from `p` to `e` that no letter follows ends at `e`.
proof fn lemma_run_ends(s: Seq<char>, p: int, e: int)
    requires
        0 <= p <= e <= s.len(),
        forall|i: int| p <= i < e ==> 'a' <= #[trigger] s[i] && s[i] <= 'z',
        e == s.len() || !('a' <= s[e] && s[e] <= 'z'),
    ensures
        lower_run_end(s, p) == e,
    decreases e - p,
{
    if p < e {
        lemma_run_ends(s, p + 1, e);
    }
}

/// Letters followed by digits are a server name whose country code is the letters and which
/// has no special kind: every one of `a` to `z` counts as a letter, and every one of `0` to
/// `9` as a digit.
pub proof fn lemma_letters_then_digits(l: Seq<char>, d: Seq<char>)
    requires
        l.len() > 0,
        d.len() > 0,
        forall|i: int| 0 <= i < l.len() ==> 'a' <= #[trigger] l[i] && l[i] <= 'z',
        forall|i: int| 0 <= i < d.len() ==> '0' <= #[trigger] d[i] && d[i] <= '9',
    ensures
        server_name_match(l + d) == Some(ServerNameSpec { code: l, special: None }),
{
    let s = l + d;
    assert(s[l.len() as int] == d[0]);
    lemma_run_ends(s, 0, l.len() as int);
    assert(s.subrange(0, l.len() as int) =~= l);
    assert(match_at(s, 0) is Some);
}

/// Letters, a dash, letters and digits are a server name whose country code is the first
/// letters and whose special kind is the second.
pub proof fn lemma_letters_dash_letters_digits(l: Seq<char>, k: Seq<char>, d: Seq<char>)
    requires
        l.len() > 0,
        k.len() > 0,
        d.len() > 0,
        forall|i: int| 0 <= i < l.len() ==> 'a' <= #[trigger] l[i] && l[i] <= 'z',
        forall|i: int| 0 <= i < k.len() ==> 'a' <= #[trigger] k[i] && k[i] <= 'z',
        forall|i: int| 0 <= i < d.len() ==> '0' <= #[trigger] d[i] && d[i] <= '9',
    ensures
        server_name_match(l + seq!['-'] + k + d) == Some(ServerNameSpec { code: l, special: Some(k) }),
{
    let s = l + seq!['-'] + k + d;
    let q = l.len() as int;
    let r = q + 1 + k.len();
    assert(s[q] == '-');
    assert forall|i: int| q + 1 <= i < r implies 'a' <= #[trigger] s[i] && s[i] <= 'z' by {
        assert(s[i] == k[i - q - 1]);
    }
    assert(s[r] == d[0]);
    assert forall|i: int| 0 <= i < q implies 'a' <= #[trigger] s[i] && s[i] <= 'z' by {
        assert(s[i] == l[i]);
    }
    lemma_run_ends(s, 0, q);
    lemma_run_ends(s, q + 1, r);
    assert(s.subrange(0, q) =~= l);
    assert(s.subrange(q + 1, r) =~= k);
    assert(match_at(s, 0) is Some);
}

/// The parts of a server name that matched.
pub struct ServerNameParts {
    pub code: Vec<char>,
    pub special: Option<Vec<char>>,
}

impl View for ServerNameParts {
    type V = ServerNameSpec;

    open spec fn view(&self) -> ServerNameSpec {
        ServerNameSpec {
            code: self.code@,
            special: match self.special {
                Some(v) => Some(v@),
                None => None,
            },
        }
    }
}


fn char_is_lower(c: char) -> (r: bool)
    ensures
        r == is_lower(c),
{
    'a' <= c && c <= 'z'
}

fn char_is_digit(c: char) -> (r: bool)
    ensures
        r == is_digit(c),
{
    '0' <= c && c <= '9'
}

/// The position just past the run of lowercase letters that starts at `p`.
fn lower_end(s: &Vec<char>, p: usize) -> (q: usize)
    requires
        p <= s@.len(),
    ensures
        q == lower_run_end(s@, p as int),
        p <= q <= s@.len(),
{
    let mut i = p;
    while i < s.len() && char_is_lower(s[i])
        invariant
            p <= i <= s@.len(),
            lower_run_end(s@, p as int) == lower_run_end(s@, i as int),
        decreases s@.len() - i,
    {
        i = i + 1;
    }
    i
}

fn sub_chars(s: &Vec<char>, from: usize, to: usize) -> (r: Vec<char>)
    requires
        from <= to <= s@.len(),
    ensures
        r@ == s@.subrange(from as int, to as int),
{
    let mut r: Vec<char> = Vec::new();
    let mut i = from;
    while i < to
        invariant
            from <= i <= to <= s@.len(),
            r@ == s@.subrange(from as int, i as int),
        decreases to - i,
    {
        r.push(s[i]);
        i = i + 1;
        assert(r@ =~= s@.subrange(from as int, i as int));
    }
    r
}

fn server_match_at(s: &Vec<char>, p: usize) -> (r: Option<ServerNameParts>)
    requires
        p < s@.len(),
    ensures
        match r {
            Some(m) => match_at(s@, p as int) == Some(m@),
            None => match_at(s@, p as int) is None,
        },
{
    if !char_is_lower(s[p]) {
        return None;
    }
    let q = lower_end(s, p);
    if q < s.len() && s[q] == '-' {
        let r = lower_end(s, q + 1);
        if r > q + 1 && r < s.len() && char_is_digit(s[r]) {
            return Some(
                ServerNameParts { code: sub_chars(s, p, q), special: Some(sub_chars(s, q + 1, r)) },
            );
        }
        return None;
    }
    if q < s.len() && char_is_digit(s[q]) {
        Some(ServerNameParts { code: sub_chars(s, p, q), special: None })
    } else {
        None
    }
}

/// Matches `s` against the server-name pattern, as the leftmost match with its groups 1
/// and 2.
pub fn parse_server_name(s: &Vec<char>) -> (r: Option<ServerNameParts>)
    ensures
        match r {
            Some(m) => server_name_match(s@) == Some(m@),
            None => server_name_match(s@) is None,
        },
{
    let mut p: usize = 0;
    while p < s.len()
        invariant
            p <= s@.len(),
            server_name_match(s@) == first_match_from(s@, p as int),
        decreases s@.len() - p,
    {
        let m = server_match_at(s, p);
        if m.is_some() {
            return m;
        }
        p = p + 1;
    }
    None
}

} // verus!
