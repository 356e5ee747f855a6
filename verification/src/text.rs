//! Text as sequences of characters: searching for a separator, splitting on
//! it, and moving between `str`, `String` and slices of `char`.

use vstd::prelude::*;
use vstd::utf8::{decode_utf8, valid_utf8};

verus! {

/// `pat` stands in `s` at index `i`.
pub open spec fn occurs_at(s: Seq<char>, pat: Seq<char>, i: int) -> bool {
    0 <= i && i + pat.len() <= s.len() && s.subrange(i, i + pat.len()) == pat
}

/// The least index at or after `from` at which `pat` stands in `s`.
pub open spec fn find_from(s: Seq<char>, pat: Seq<char>, from: int) -> Option<int>
    decreases s.len() + 1 - from,
{
    if from < 0 || from + pat.len() > s.len() {
        None
    } else if occurs_at(s, pat, from) {
        Some(from)
    } else {
        find_from(s, pat, from + 1)
    }
}

/// The index of the first occurrence of `pat` in `s`.
pub open spec fn find(s: Seq<char>, pat: Seq<char>) -> Option<int> {
    find_from(s, pat, 0)
}

/// `s` cut at the first occurrence of `pat`: what stands before it and what
/// stands after it. `None` where `pat` does not occur.
pub open spec fn split_once(s: Seq<char>, pat: Seq<char>) -> Option<(Seq<char>, Seq<char>)> {
    match find(s, pat) {
        Some(i) => Some((s.subrange(0, i), s.subrange(i + pat.len(), s.len() as int))),
        None => None,
    }
}

/// `s` cut at every occurrence of `pat`, found from left to right without
/// overlap. The pieces come in order; there is always at least one.
pub open spec fn split(s: Seq<char>, pat: Seq<char>) -> Seq<Seq<char>>
    decreases s.len(),
    via split_decreases
{
    if pat.len() == 0 {
        seq![s]
    } else {
        match split_once(s, pat) {
            Some((head, tail)) => seq![head] + split(tail, pat),
            None => seq![s],
        }
    }
}

#[via_fn]
proof fn split_decreases(s: Seq<char>, pat: Seq<char>) {
    lemma_find(s, pat);
}

/// What `find_from` returns is an occurrence, and nothing occurs between
/// `from` and it.
pub proof fn lemma_find_from(s: Seq<char>, pat: Seq<char>, from: int)
    requires
        0 <= from,
    ensures
        match find_from(s, pat, from) {
            Some(i) => from <= i && occurs_at(s, pat, i) && forall|j: int|
                from <= j < i ==> !occurs_at(s, pat, j),
            None => forall|j: int| from <= j ==> !occurs_at(s, pat, j),
        },
    decreases s.len() + 1 - from,
{
    if from + pat.len() > s.len() {
    } else if occurs_at(s, pat, from) {
    } else {
        lemma_find_from(s, pat, from + 1);
    }
}

/// `find` returns the first occurrence, if there is one.
pub proof fn lemma_find(s: Seq<char>, pat: Seq<char>)
    ensures
        match find(s, pat) {
            Some(i) => occurs_at(s, pat, i) && forall|j: int| 0 <= j < i ==> !occurs_at(s, pat, j),
            None => forall|j: int| !occurs_at(s, pat, j),
        },
{
    lemma_find_from(s, pat, 0);
}

/// An occurrence with none before it is the one that `find` returns.
pub proof fn lemma_find_is(s: Seq<char>, pat: Seq<char>, i: int)
    requires
        occurs_at(s, pat, i),
        forall|j: int| 0 <= j < i ==> !occurs_at(s, pat, j),
    ensures
        find(s, pat) == Some(i),
{
    lemma_find(s, pat);
}

/// Where nothing occurs, `find` returns `None`.
pub proof fn lemma_find_none(s: Seq<char>, pat: Seq<char>)
    requires
        forall|j: int| 0 <= j && j + pat.len() <= s.len() ==> !occurs_at(s, pat, j),
    ensures
        find(s, pat) is None,
{
    lemma_find(s, pat);
}

/// Where `c` does not stand in `a`, the text `a`, `c`, `b` is cut at that `c`.
pub proof fn lemma_split_once_char(a: Seq<char>, c: char, b: Seq<char>)
    requires
        !a.contains(c),
    ensures
        split_once(a + seq![c] + b, seq![c]) == Some((a, b)),
{
    let s = a + seq![c] + b;
    let pat = seq![c];
    let n = a.len() as int;
    assert(s.subrange(n, n + 1) =~= pat);
    assert forall|j: int| 0 <= j < a.len() implies !occurs_at(s, pat, j) by {
        if occurs_at(s, pat, j) {
            assert(s.subrange(j, j + 1)[0] == c);
        }
    }
    lemma_find_is(s, pat, n);
}

/// A text in which `c` does not stand is not cut at all.
pub proof fn lemma_split_once_char_none(a: Seq<char>, c: char)
    requires
        !a.contains(c),
    ensures
        split_once(a, seq![c]) is None,
{
    let pat = seq![c];
    assert forall|j: int| 0 <= j && j + pat.len() <= a.len() implies !occurs_at(a, pat, j) by {
        if occurs_at(a, pat, j) {
            assert(a.subrange(j, j + 1)[0] == c);
        }
    }
    lemma_find_none(a, pat);
}

/// Where `c` does not stand in `a`, the pieces of `a`, `c`, `b` are `a` and
/// the pieces of `b`.
pub proof fn lemma_split_char(a: Seq<char>, c: char, b: Seq<char>)
    requires
        !a.contains(c),
    ensures
        split(a + seq![c] + b, seq![c]) == seq![a] + split(b, seq![c]),
{
    lemma_split_once_char(a, c, b);
}

/// A text in which `c` does not stand is its own single piece.
pub proof fn lemma_split_char_none(a: Seq<char>, c: char)
    requires
        !a.contains(c),
    ensures
        split(a, seq![c]) == seq![a],
{
    lemma_split_once_char_none(a, c);
}

/// The pieces put together again, with `pat` between each two of them.
pub open spec fn join(pieces: Seq<Seq<char>>, pat: Seq<char>) -> Seq<char>
    decreases pieces.len(),
{
    if pieces.len() == 0 {
        Seq::empty()
    } else if pieces.len() == 1 {
        pieces[0]
    } else {
        pieces[0] + pat + join(pieces.skip(1), pat)
    }
}

/// Splitting loses nothing: the pieces of `s`, joined by `pat`, are `s`.
pub proof fn lemma_split_join(s: Seq<char>, pat: Seq<char>)
    ensures
        join(split(s, pat), pat) == s,
    decreases s.len(),
{
    if pat.len() > 0 {
        lemma_find(s, pat);
        match split_once(s, pat) {
            Some((head, tail)) => {
                lemma_split_join(tail, pat);
                lemma_split_len(tail, pat);
                let pieces = seq![head] + split(tail, pat);
                assert(pieces.skip(1) =~= split(tail, pat));
                assert(head + pat + tail =~= s);
            },
            None => {},
        }
    }
}

/// A piece of a split on one character never holds that character.
pub proof fn lemma_split_char_pieces(s: Seq<char>, c: char, i: int)
    requires
        0 <= i < split(s, seq![c]).len(),
    ensures
        !split(s, seq![c])[i].contains(c),
    decreases s.len(),
{
    let pat = seq![c];
    lemma_find(s, pat);
    match split_once(s, pat) {
        Some((head, tail)) => {
            if i == 0 {
                if head.contains(c) {
                    let j = choose|j: int| 0 <= j < head.len() && head[j] == c;
                    assert(s.subrange(j, j + 1) =~= pat);
                    assert(occurs_at(s, pat, j));
                }
            } else {
                lemma_split_char_pieces(tail, c, i - 1);
                assert(split(s, pat)[i] == split(tail, pat)[i - 1]);
            }
        },
        None => {
            if s.contains(c) {
                let j = choose|j: int| 0 <= j < s.len() && s[j] == c;
                assert(s.subrange(j, j + 1) =~= pat);
                assert(occurs_at(s, pat, j));
            }
        },
    }
}

/// There is always a first piece.
pub proof fn lemma_split_len(s: Seq<char>, pat: Seq<char>)
    ensures
        split(s, pat).len() >= 1,
{
}

/// Whether `pat` stands in `s` at index `i`.
pub fn matches_at(s: &[char], pat: &[char], i: usize) -> (b: bool)
    ensures
        b == occurs_at(s@, pat@, i as int),
{
    if pat.len() > s.len() || i > s.len() - pat.len() {
        return false;
    }
    let mut k: usize = 0;
    while k < pat.len()
        invariant
            k <= pat.len(),
            i + pat.len() <= s.len(),
            forall|j: int| 0 <= j < k ==> s@[i + j] == pat@[j],
        decreases pat.len() - k,
    {
        if s[i + k] != pat[k] {
            return false;
        }
        k += 1;
    }
    proof {
        assert(s@.subrange(i as int, i + pat.len()) =~= pat@);
    }
    true
}

/// The index of the first occurrence of `pat` in `s`.
pub fn find_in(s: &[char], pat: &[char]) -> (r: Option<usize>)
    ensures
        r is Some == find(s@, pat@) is Some,
        r matches Some(i) ==> find(s@, pat@) == Some(i as int) && i + pat.len() <= s.len(),
{
    if pat.len() > s.len() {
        return None;
    }
    let last: usize = s.len() - pat.len();
    let mut i: usize = 0;
    while i < last
        invariant
            i <= last,
            last == s.len() - pat.len(),
            find(s@, pat@) == find_from(s@, pat@, i as int),
        decreases last - i,
    {
        if matches_at(s, pat, i) {
            return Some(i);
        }
        i += 1;
    }
    if matches_at(s, pat, last) {
        Some(last)
    } else {
        assert(find_from(s@, pat@, last + 1) is None);
        None
    }
}

/// The views of the pieces, in order.
pub open spec fn views(pieces: Seq<&[char]>) -> Seq<Seq<char>> {
    Seq::new(pieces.len(), |i: int| pieces[i]@)
}

/// `s` cut at the first occurrence of `pat`.
pub fn split_once_in<'a>(s: &'a [char], pat: &[char]) -> (r: Option<(&'a [char], &'a [char])>)
    ensures
        r is Some == split_once(s@, pat@) is Some,
        r matches Some((head, tail)) ==> split_once(s@, pat@) == Some((head@, tail@)),
{
    match find_in(s, pat) {
        Some(i) => Some((&s[0..i], &s[i + pat.len()..s.len()])),
        None => None,
    }
}

/// `s` cut at every occurrence of `pat`.
pub fn split_in<'a>(s: &'a [char], pat: &[char]) -> (pieces: Vec<&'a [char]>)
    ensures
        views(pieces@) == split(s@, pat@),
{
    let mut pieces: Vec<&'a [char]> = Vec::new();
    if pat.len() == 0 {
        pieces.push(s);
        return pieces;
    }
    let mut rest: &'a [char] = s;
    loop
        invariant
            pat.len() > 0,
            split(s@, pat@) == views(pieces@) + split(rest@, pat@),
        decreases rest.len(),
    {
        let ghost before = views(pieces@);
        match split_once_in(rest, pat) {
            Some((head, tail)) => {
                pieces.push(head);
                assert(before + (seq![head@] + split(tail@, pat@)) =~= (before + seq![head@])
                    + split(tail@, pat@));
                proof {
                    lemma_find(rest@, pat@);
                }
                rest = tail;
            },
            None => {
                pieces.push(rest);
                return pieces;
            },
        }
    }
}

/// `String::push`: `c` is added at the end of `s`.
#[verifier::external_body]
fn push_char(s: &mut String, c: char)
    ensures
        final(s)@ == old(s)@.push(c),
{
    s.push(c)
}

/// `core::str::from_utf8`: the text that `bytes` encode where they are valid
/// UTF-8, and `None` where they are not. Valid is what `valid_utf8` calls so,
/// and the characters of the text are those that `decode_utf8` gives.
#[verifier::external_body]
fn decode(bytes: &[u8]) -> (text: Option<&str>)
    ensures
        text is Some <==> valid_utf8(bytes@),
        text matches Some(t) ==> t@ == decode_utf8(bytes@),
{
    match core::str::from_utf8(bytes) {
        Ok(t) => Some(t),
        Err(_) => None,
    }
}

/// The characters of `s`, in order.
pub fn chars_of(s: &str) -> (v: Vec<char>)
    ensures
        v@ == s@,
{
    broadcast use vstd::string::group_string_axioms;

    let mut v: Vec<char> = Vec::new();
    for c in it: s.chars()
        invariant
            v@ == it.seq().take(it.index()),
            it.seq() == s@,
    {
        v.push(c);
    }
    v
}

/// The text made of `chars`, in order.
pub fn string_of(chars: &[char]) -> (s: String)
    ensures
        s@ == chars@,
{
    let mut s = String::new();
    let mut i: usize = 0;
    while i < chars.len()
        invariant
            i <= chars.len(),
            s@ == chars@.take(i as int),
        decreases chars.len() - i,
    {
        push_char(&mut s, chars[i]);
        i += 1;
    }
    s
}

/// The characters that `bytes` encode in UTF-8, or `None` where they are not
/// valid UTF-8.
pub fn decode_chars(bytes: &[u8]) -> (r: Option<Vec<char>>)
    ensures
        r is Some <==> valid_utf8(bytes@),
        r matches Some(v) ==> v@ == decode_utf8(bytes@),
{
    match decode(bytes) {
        Some(t) => Some(chars_of(t)),
        None => None,
    }
}

/// Whether `c` is white space: one of the 25 characters to which Unicode
/// gives the property White_Space.
pub open spec fn white_space(c: char) -> bool {
    let u = c as u32;
    ||| 0x09 <= u <= 0x0D
    ||| u == 0x20
    ||| u == 0x85
    ||| u == 0xA0
    ||| u == 0x1680
    ||| 0x2000 <= u <= 0x200A
    ||| u == 0x2028
    ||| u == 0x2029
    ||| u == 0x202F
    ||| u == 0x205F
    ||| u == 0x3000
}

/// `s` is empty or holds white space only.
pub open spec fn blank(s: Seq<char>) -> bool {
    forall|i: int| 0 <= i < s.len() ==> white_space(#[trigger] s[i])
}

/// Whether `c` is white space.
pub fn is_white_space(c: char) -> (b: bool)
    ensures
        b == white_space(c),
{
    let u: u32 = c as u32;
    (0x09 <= u && u <= 0x0D) || u == 0x20 || u == 0x85 || u == 0xA0 || u == 0x1680 || (0x2000 <= u
        && u <= 0x200A) || u == 0x2028 || u == 0x2029 || u == 0x202F || u == 0x205F || u == 0x3000
}

/// Whether `s` is empty or holds white space only.
pub fn is_blank(s: &[char]) -> (b: bool)
    ensures
        b == blank(s@),
{
    let mut i: usize = 0;
    while i < s.len()
        invariant
            i <= s.len(),
            forall|j: int| 0 <= j < i ==> white_space(#[trigger] s@[j]),
        decreases s.len() - i,
    {
        if !is_white_space(s[i]) {
            return false;
        }
        i += 1;
    }
    true
}

/// The character that stands for the digit `d`.
pub open spec fn digit(d: nat) -> char {
    (0x30 + d) as char
}

/// `n` in decimal digits, without leading zeros.
pub open spec fn decimal(n: nat) -> Seq<char>
    decreases n,
{
    if n < 10 {
        seq![digit(n)]
    } else {
        decimal(n / 10).push(digit(n % 10))
    }
}

/// `n` in decimal digits.
pub fn decimal_of(n: usize) -> (s: String)
    ensures
        s@ == decimal(n as nat),
    decreases n,
{
    let mut s = if n < 10 {
        String::new()
    } else {
        decimal_of(n / 10)
    };
    let d: u8 = (n % 10) as u8;
    push_char(&mut s, (0x30u8 + d) as char);
    s
}

} // verus!
