//! Character scanning and splitting primitives shared by the parsers.
//!
//! All string contracts in this crate are stated over `Seq<char>` views.
//! The spec functions here define where a character (or character pair)
//! first occurs, how a string splits on a separator, and how a line breaks
//! into whitespace-separated tokens; the exec functions compute exactly
//! those values.

use vstd::prelude::*;
use vstd::string::*;

verus! {

/// Whitespace as the request-line tokenizer understands it: the ASCII
/// whitespace characters.
pub open spec fn is_ws_char(c: char) -> bool {
    c == ' ' || c == '\t' || c == '\r' || c == '\n' || c == '\x0b' || c == '\x0c'
}

/// Index of the first occurrence of `c` in `s` at or after `from`, or
/// `s.len()` if there is none.
pub open spec fn find_char_from(s: Seq<char>, c: char, from: int) -> int
    decreases s.len() - from,
{
    if from < 0 || from >= s.len() {
        s.len() as int
    } else if s[from] == c {
        from
    } else {
        find_char_from(s, c, from + 1)
    }
}

pub proof fn lemma_find_char_from(s: Seq<char>, c: char, from: int)
    requires
        0 <= from <= s.len(),
    ensures
        from <= find_char_from(s, c, from) <= s.len(),
        find_char_from(s, c, from) < s.len() ==> s[find_char_from(s, c, from)] == c,
        forall|k: int| from <= k < find_char_from(s, c, from) ==> s[k] != c,
    decreases s.len() - from,
{
    if from < s.len() && s[from] != c {
        lemma_find_char_from(s, c, from + 1);
    }
}

/// Index of the first whitespace character in `s` at or after `from`, or
/// `s.len()` if there is none.
pub open spec fn find_ws_from(s: Seq<char>, from: int) -> int
    decreases s.len() - from,
{
    if from < 0 || from >= s.len() {
        s.len() as int
    } else if is_ws_char(s[from]) {
        from
    } else {
        find_ws_from(s, from + 1)
    }
}

pub proof fn lemma_find_ws_from(s: Seq<char>, from: int)
    requires
        0 <= from <= s.len(),
    ensures
        from <= find_ws_from(s, from) <= s.len(),
        find_ws_from(s, from) < s.len() ==> is_ws_char(s[find_ws_from(s, from)]),
        forall|k: int| from <= k < find_ws_from(s, from) ==> !is_ws_char(s[k]),
    decreases s.len() - from,
{
    if from < s.len() && !is_ws_char(s[from]) {
        lemma_find_ws_from(s, from + 1);
    }
}

/// Index of the first position at or after `from` where `a` is immediately
/// followed by `b`, or `s.len()` if the pair never occurs.
pub open spec fn find_pair_from(s: Seq<char>, a: char, b: char, from: int) -> int
    decreases s.len() - from,
{
    if from < 0 || from + 1 >= s.len() {
        s.len() as int
    } else if s[from] == a && s[from + 1] == b {
        from
    } else {
        find_pair_from(s, a, b, from + 1)
    }
}

pub proof fn lemma_find_pair_from(s: Seq<char>, a: char, b: char, from: int)
    requires
        0 <= from <= s.len(),
    ensures
        from <= find_pair_from(s, a, b, from) <= s.len(),
        find_pair_from(s, a, b, from) < s.len() ==> {
            let i = find_pair_from(s, a, b, from);
            i + 1 < s.len() && s[i] == a && s[i + 1] == b
        },
        forall|k: int|
            from <= k < find_pair_from(s, a, b, from) && k + 1 < s.len() ==> !((#[trigger] s[k])
                == a && s[k + 1] == b),
    decreases s.len() - from,
{
    if from + 1 < s.len() && !(s[from] == a && s[from + 1] == b) {
        lemma_find_pair_from(s, a, b, from + 1);
    }
}

/// A pair occurrence at `j`, with none earlier, pins down where the pair
/// is first found.
pub proof fn lemma_find_pair_at(s: Seq<char>, a: char, b: char, from: int, j: int)
    requires
        0 <= from <= j,
        j + 1 < s.len(),
        s[j] == a,
        s[j + 1] == b,
        forall|k: int|
            from <= k < j ==> !((#[trigger] s[k]) == a && s[k + 1] == b),
    ensures
        find_pair_from(s, a, b, from) == j,
    decreases j - from,
{
    if from < j {
        lemma_find_pair_at(s, a, b, from + 1, j);
    }
}

/// The segments of `s` between occurrences of `c`, scanning from `from`.
/// Splitting an empty sequence yields one empty segment, matching how
/// `str::split` behaves on an empty string.
pub open spec fn split_char_from(s: Seq<char>, c: char, from: int) -> Seq<Seq<char>>
    decreases s.len() - from,
        via split_char_from_decreases
{
    let cut = find_char_from(s, c, from);
    if cut >= s.len() {
        seq![s.subrange(from, s.len() as int)]
    } else {
        seq![s.subrange(from, cut)] + split_char_from(s, c, cut + 1)
    }
}

#[via_fn]
proof fn split_char_from_decreases(s: Seq<char>, c: char, from: int) {
    if 0 <= from <= s.len() {
        lemma_find_char_from(s, c, from);
    }
}

/// The whitespace-separated tokens of `s`, scanning from `from`: maximal
/// runs of non-whitespace characters, in order.
pub open spec fn ws_tokens_from(s: Seq<char>, from: int) -> Seq<Seq<char>>
    decreases s.len() - from,
        via ws_tokens_from_decreases
{
    if from < 0 || from >= s.len() {
        Seq::empty()
    } else if is_ws_char(s[from]) {
        ws_tokens_from(s, from + 1)
    } else {
        let end = find_ws_from(s, from);
        seq![s.subrange(from, end)] + ws_tokens_from(s, end)
    }
}

#[via_fn]
proof fn ws_tokens_from_decreases(s: Seq<char>, from: int) {
    if 0 <= from && from < s.len() && !is_ws_char(s[from]) {
        lemma_find_ws_from(s, from);
        assert(find_ws_from(s, from) != from);
    }
}

/// Whitespace test for one character.
pub fn is_ws(c: char) -> (r: bool)
    ensures
        r == is_ws_char(c),
{
    c == ' ' || c == '\t' || c == '\r' || c == '\n' || c == '\x0b' || c == '\x0c'
}

/// First occurrence of `c` in `s` at or after `from`, or the character
/// length of `s` if there is none.
pub fn find_char(s: &str, c: char, from: usize) -> (r: usize)
    requires
        from <= s@.len(),
    ensures
        r == find_char_from(s@, c, from as int),
{
    let n = s.unicode_len();
    let mut i: usize = from;
    while i < n
        invariant
            from <= i <= n,
            n == s@.len(),
            find_char_from(s@, c, from as int) == find_char_from(s@, c, i as int),
        decreases n - i,
    {
        if s.get_char(i) == c {
            return i;
        }
        i = i + 1;
    }
    n
}

/// First whitespace character in `s` at or after `from`, or the character
/// length of `s` if there is none.
pub fn find_ws(s: &str, from: usize) -> (r: usize)
    requires
        from <= s@.len(),
    ensures
        r == find_ws_from(s@, from as int),
{
    let n = s.unicode_len();
    let mut i: usize = from;
    while i < n
        invariant
            from <= i <= n,
            n == s@.len(),
            find_ws_from(s@, from as int) == find_ws_from(s@, i as int),
        decreases n - i,
    {
        if is_ws(s.get_char(i)) {
            return i;
        }
        i = i + 1;
    }
    n
}

/// First position at or after `from` where `a` is immediately followed by
/// `b`, or the character length of `s` if the pair never occurs.
pub fn find_pair(s: &str, a: char, b: char, from: usize) -> (r: usize)
    requires
        from <= s@.len(),
    ensures
        r == find_pair_from(s@, a, b, from as int),
{
    let n = s.unicode_len();
    let last = if n == 0 {
        0
    } else {
        n - 1
    };
    let mut i: usize = from;
    while i < last
        invariant
            from <= i,
            i <= n,
            n == s@.len(),
            n == 0 ==> last == 0,
            n > 0 ==> last == n - 1,
            find_pair_from(s@, a, b, from as int) == find_pair_from(s@, a, b, i as int),
        decreases last - i,
    {
        if s.get_char(i) == a && s.get_char(i + 1) == b {
            return i;
        }
        i = i + 1;
    }
    n
}

/// The segments of `s` between occurrences of `c`, as owned strings.
pub fn split_on_char(s: &str, c: char) -> (parts: Vec<String>)
    ensures
        parts.deep_view() == split_char_from(s@, c, 0),
{
    let n = s.unicode_len();
    let mut parts: Vec<String> = Vec::new();
    let mut start: usize = 0;
    loop
        invariant_except_break
            start <= n,
            n == s@.len(),
            split_char_from(s@, c, 0) == parts.deep_view() + split_char_from(s@, c, start as int),
        ensures
            parts.deep_view() == split_char_from(s@, c, 0),
        decreases n - start,
    {
        let cut = find_char(s, c, start);
        proof {
            lemma_find_char_from(s@, c, start as int);
        }
        let ghost old_parts = parts.deep_view();
        let seg = s.substring_char(start, cut).to_owned();
        parts.push(seg);
        proof {
            assert(parts.deep_view() =~= old_parts.push(s@.subrange(start as int, cut as int)));
        }
        if cut == n {
            proof {
                assert(split_char_from(s@, c, start as int) =~= seq![
                    s@.subrange(start as int, n as int),
                ]);
                assert(parts.deep_view() =~= split_char_from(s@, c, 0));
            }
            break;
        }
        start = cut + 1;
        proof {
            assert(split_char_from(s@, c, 0) =~= parts.deep_view() + split_char_from(
                s@,
                c,
                start as int,
            ));
        }
    }
    parts
}

/// The whitespace-separated tokens of `s`, as owned strings.
pub fn split_ws(s: &str) -> (toks: Vec<String>)
    ensures
        toks.deep_view() == ws_tokens_from(s@, 0),
{
    let n = s.unicode_len();
    let mut toks: Vec<String> = Vec::new();
    let mut i: usize = 0;
    while i < n
        invariant
            i <= n,
            n == s@.len(),
            ws_tokens_from(s@, 0) == toks.deep_view() + ws_tokens_from(s@, i as int),
        decreases n - i,
    {
        if is_ws(s.get_char(i)) {
            i = i + 1;
        } else {
            let end = find_ws(s, i);
            proof {
                lemma_find_ws_from(s@, i as int);
                assert(end != i);
            }
            let ghost old_toks = toks.deep_view();
            let tok = s.substring_char(i, end).to_owned();
            toks.push(tok);
            proof {
                assert(toks.deep_view() =~= old_toks.push(s@.subrange(i as int, end as int)));
                assert(ws_tokens_from(s@, 0) =~= toks.deep_view() + ws_tokens_from(
                    s@,
                    end as int,
                ));
            }
            i = end;
        }
    }
    proof {
        assert(toks.deep_view() =~= toks.deep_view() + ws_tokens_from(s@, n as int));
    }
    toks
}

/// A whitespace character at `j`, with none earlier, pins down where
/// whitespace is first found.
pub proof fn lemma_find_ws_at(s: Seq<char>, from: int, j: int)
    requires
        0 <= from <= j <= s.len(),
        forall|k: int| from <= k < j ==> !is_ws_char(s[k]),
        j < s.len() ==> is_ws_char(s[j]),
    ensures
        find_ws_from(s, from) == j,
    decreases j - from,
{
    if from < j {
        lemma_find_ws_at(s, from + 1, j);
    }
}

/// Searching for whitespace is unmoved by a prefix: the search in
/// `pre + suf` from a position inside `suf` finds what the search in
/// `suf` alone finds, shifted by the prefix.
pub proof fn lemma_find_ws_shift(pre: Seq<char>, suf: Seq<char>, from: int)
    requires
        0 <= from <= suf.len(),
    ensures
        find_ws_from(pre + suf, pre.len() + from) == pre.len() + find_ws_from(suf, from),
    decreases suf.len() - from,
{
    if from < suf.len() {
        assert((pre + suf)[pre.len() + from] == suf[from]);
        if !is_ws_char(suf[from]) {
            lemma_find_ws_shift(pre, suf, from + 1);
        }
    }
}

/// Tokenization is unmoved by a prefix: the tokens of `pre + suf` from a
/// position inside `suf` are the tokens of `suf` alone from there.
pub proof fn lemma_ws_tokens_shift(pre: Seq<char>, suf: Seq<char>, from: int)
    requires
        0 <= from <= suf.len(),
    ensures
        ws_tokens_from(pre + suf, pre.len() + from) == ws_tokens_from(suf, from),
    decreases suf.len() - from,
{
    let s = pre + suf;
    if from < suf.len() {
        assert(s[pre.len() + from] == suf[from]);
        if is_ws_char(suf[from]) {
            lemma_ws_tokens_shift(pre, suf, from + 1);
        } else {
            lemma_find_ws_from(suf, from);
            lemma_find_ws_shift(pre, suf, from);
            let end = find_ws_from(suf, from);
            assert(find_ws_from(s, pre.len() + from) == pre.len() + end);
            assert(s.subrange(pre.len() + from, pre.len() + end) =~= suf.subrange(from, end));
            assert(end != from);
            lemma_ws_tokens_shift(pre, suf, end);
        }
    }
}

/// The tokens of a single token: a non-empty run of non-whitespace
/// characters, followed by nothing or by whitespace, is its own first
/// token.
pub proof fn lemma_ws_tokens_of_token(t: Seq<char>, rest: Seq<char>)
    requires
        t.len() > 0,
        forall|k: int| 0 <= k < t.len() ==> !is_ws_char(t[k]),
        rest.len() > 0 ==> is_ws_char(rest[0]),
    ensures
        ws_tokens_from(t + rest, 0) == seq![t] + ws_tokens_from(rest, 0),
{
    let s = t + rest;
    assert(s[0] == t[0]);
    assert forall|k: int| 0 <= k < t.len() implies !is_ws_char(s[k]) by {
        assert(s[k] == t[k]);
    }
    if rest.len() > 0 {
        assert(s[t.len() as int] == rest[0]);
    }
    lemma_find_ws_at(s, 0, t.len() as int);
    assert(s.subrange(0, t.len() as int) =~= t);
    lemma_ws_tokens_shift(t, rest, 0);
}

/// A leading whitespace character contributes no token.
pub proof fn lemma_ws_tokens_skip_ws(c: char, s: Seq<char>)
    requires
        is_ws_char(c),
    ensures
        ws_tokens_from(seq![c] + s, 0) == ws_tokens_from(s, 0),
{
    assert((seq![c] + s)[0] == c);
    lemma_ws_tokens_shift(seq![c], s, 0);
}

/// A lone token tokenizes to itself.
pub proof fn lemma_ws_tokens_single(t: Seq<char>)
    requires
        t.len() > 0,
        forall|k: int| 0 <= k < t.len() ==> !is_ws_char(t[k]),
    ensures
        ws_tokens_from(t, 0) == seq![t],
{
    lemma_ws_tokens_of_token(t, Seq::empty());
    assert(t + Seq::<char>::empty() =~= t);
    assert(seq![t] + ws_tokens_from(Seq::empty(), 0) =~= seq![t]);
}

/// Two tokens joined by a single space tokenize to exactly those two.
pub proof fn lemma_ws_tokens_pair(a: Seq<char>, b: Seq<char>)
    requires
        a.len() > 0,
        b.len() > 0,
        forall|k: int| 0 <= k < a.len() ==> !is_ws_char(a[k]),
        forall|k: int| 0 <= k < b.len() ==> !is_ws_char(b[k]),
    ensures
        ws_tokens_from(a + seq![' '] + b, 0) == seq![a, b],
{
    lemma_ws_tokens_single(b);
    lemma_ws_tokens_skip_ws(' ', b);
    lemma_ws_tokens_of_token(a, seq![' '] + b);
    assert(a + seq![' '] + b =~= a + (seq![' '] + b));
    assert(seq![a] + seq![b] =~= seq![a, b]);
}

/// Three tokens joined by single spaces tokenize to exactly those three.
pub proof fn lemma_ws_tokens_three(a: Seq<char>, b: Seq<char>, c: Seq<char>)
    requires
        a.len() > 0,
        b.len() > 0,
        c.len() > 0,
        forall|k: int| 0 <= k < a.len() ==> !is_ws_char(a[k]),
        forall|k: int| 0 <= k < b.len() ==> !is_ws_char(b[k]),
        forall|k: int| 0 <= k < c.len() ==> !is_ws_char(c[k]),
    ensures
        ws_tokens_from(a + seq![' '] + b + seq![' '] + c, 0) == seq![a, b, c],
{
    lemma_ws_tokens_pair(b, c);
    lemma_ws_tokens_skip_ws(' ', b + seq![' '] + c);
    assert(seq![' '] + (b + seq![' '] + c) =~= seq![' '] + b + seq![' '] + c);
    lemma_ws_tokens_of_token(a, seq![' '] + b + seq![' '] + c);
    assert(a + (seq![' '] + b + seq![' '] + c) =~= a + seq![' '] + b + seq![' '] + c);
    assert(seq![a] + seq![b, c] =~= seq![a, b, c]);
}

/// The contents of a map of owned strings, with the values also taken to
/// their character sequences.  Contracts about header fields and query
/// parameters are stated over this view.
pub open spec fn str_map_view(m: Map<Seq<char>, String>) -> Map<Seq<char>, Seq<char>> {
    m.map_values(|v: String| v@)
}

pub proof fn lemma_str_map_view_empty()
    ensures
        str_map_view(Map::empty()) == Map::<Seq<char>, Seq<char>>::empty(),
{
    assert(str_map_view(Map::empty()) =~= Map::<Seq<char>, Seq<char>>::empty());
}

pub proof fn lemma_str_map_view_insert(m: Map<Seq<char>, String>, k: Seq<char>, v: String)
    ensures
        str_map_view(m.insert(k, v)) == str_map_view(m).insert(k, v@),
{
    assert(str_map_view(m.insert(k, v)) =~= str_map_view(m).insert(k, v@));
}

pub proof fn lemma_str_map_view_contains(m: Map<Seq<char>, String>, k: Seq<char>)
    ensures
        str_map_view(m).contains_key(k) == m.contains_key(k),
{
}

/// Character-for-character equality of two strings.
pub fn str_eq(a: &str, b: &str) -> (r: bool)
    ensures
        r == (a@ == b@),
{
    let na = a.unicode_len();
    let nb = b.unicode_len();
    if na != nb {
        return false;
    }
    let mut i: usize = 0;
    while i < na
        invariant
            i <= na,
            na == a@.len(),
            nb == b@.len(),
            na == nb,
            forall|k: int| 0 <= k < i ==> a@[k] == b@[k],
        decreases na - i,
    {
        if a.get_char(i) != b.get_char(i) {
            proof {
                assert(a@ != b@);
            }
            return false;
        }
        i = i + 1;
    }
    proof {
        assert(a@ =~= b@);
    }
    true
}

} // verus!
