//! Character-level helpers for strings.
//!
//! Every contract here is stated over the `Seq<char>` view of a string.

use vstd::prelude::*;

verus! {

/// `needle` occurs in `hay` as a contiguous run of characters.
pub open spec fn occurs_in(needle: Seq<char>, hay: Seq<char>) -> bool {
    exists|i: int| #[trigger] occurs_at(needle, hay, i)
}

/// `needle` stands in `hay` at position `i`.
pub open spec fn occurs_at(needle: Seq<char>, hay: Seq<char>, i: int) -> bool {
    0 <= i && i + needle.len() <= hay.len() && hay.subrange(i, i + needle.len()) == needle
}

/// Strict lexicographic order by code point: `a` sorts before `b`.
pub open spec fn lex_less(a: Seq<char>, b: Seq<char>) -> bool {
    exists|k: int| #[trigger] differs_at(a, b, k)
}

/// `a` and `b` agree before position `k`, and at `k` either `a` ends while
/// `b` goes on, or `a` holds the smaller character.
pub open spec fn differs_at(a: Seq<char>, b: Seq<char>, k: int) -> bool {
    &&& 0 <= k <= a.len()
    &&& k < b.len()
    &&& a.subrange(0, k) == b.subrange(0, k)
    &&& (k == a.len() || (a[k] as int) < (b[k] as int))
}

/// No string sorts before itself, and of two strings at most one sorts
/// before the other.
pub proof fn lemma_lex_less_asymmetric(a: Seq<char>, b: Seq<char>)
    ensures
        !(lex_less(a, b) && lex_less(b, a)),
{
    if lex_less(a, b) && lex_less(b, a) {
        let k = choose|k: int| differs_at(a, b, k);
        let m = choose|m: int| differs_at(b, a, m);
        if k < m {
            assert(b.subrange(0, m)[k] == a.subrange(0, m)[k]);
        } else if m < k {
            assert(a.subrange(0, k)[m] == b.subrange(0, k)[m]);
        }
    }
}

/// Two different strings are ordered one way or the other.
pub proof fn lemma_lex_less_total(a: Seq<char>, b: Seq<char>)
    ensures
        a == b || lex_less(a, b) || lex_less(b, a),
{
    assert(a.subrange(0, 0) =~= b.subrange(0, 0));
    lemma_lex_split(a, b, 0);
}

/// Two texts that agree before position `k` are the same, or ordered one
/// way or the other.
proof fn lemma_lex_split(a: Seq<char>, b: Seq<char>, k: int)
    requires
        0 <= k <= a.len(),
        k <= b.len(),
        a.subrange(0, k) == b.subrange(0, k),
    ensures
        a == b || lex_less(a, b) || lex_less(b, a),
    decreases a.len() - k,
{
    if k == a.len() {
        if k == b.len() {
            assert(a.subrange(0, k) == a);
            assert(b.subrange(0, k) == b);
        } else {
            assert(differs_at(a, b, k));
        }
    } else if k == b.len() {
        assert(differs_at(b, a, k));
    } else if a[k] == b[k] {
        assert(a.subrange(0, k + 1) == a.subrange(0, k).push(a[k]));
        assert(b.subrange(0, k + 1) == b.subrange(0, k).push(b[k]));
        lemma_lex_split(a, b, k + 1);
    } else if (a[k] as int) < (b[k] as int) {
        assert(differs_at(a, b, k));
    } else {
        assert(differs_at(b, a, k));
    }
}

/// The order is transitive.
pub proof fn lemma_lex_less_transitive(a: Seq<char>, b: Seq<char>, c: Seq<char>)
    requires
        lex_less(a, b),
        lex_less(b, c),
    ensures
        lex_less(a, c),
{
    let k = choose|k: int| differs_at(a, b, k);
    let m = choose|m: int| differs_at(b, c, m);
    if k <= m {
        assert(a.subrange(0, k) == c.subrange(0, k)) by {
            assert forall|i: int| 0 <= i < k implies a[i] == c[i] by {
                assert(a.subrange(0, k)[i] == b.subrange(0, k)[i]);
                assert(b.subrange(0, m)[i] == c.subrange(0, m)[i]);
            }
            assert(a.subrange(0, k) =~= c.subrange(0, k));
        }
        if k < m {
            assert(b.subrange(0, m)[k] == c.subrange(0, m)[k]);
        }
        assert(differs_at(a, c, k));
    } else {
        assert(a.subrange(0, m) == c.subrange(0, m)) by {
            assert forall|i: int| 0 <= i < m implies a[i] == c[i] by {
                assert(a.subrange(0, k)[i] == b.subrange(0, k)[i]);
                assert(b.subrange(0, m)[i] == c.subrange(0, m)[i]);
            }
            assert(a.subrange(0, m) =~= c.subrange(0, m));
        }
        assert(a.subrange(0, k)[m] == b.subrange(0, k)[m]);
        assert(differs_at(a, c, m));
    }
}

/// The characters of `s`, in order.
pub fn chars_of(s: &str) -> (out: Vec<char>)
    ensures
        out@ == s@,
{
    let mut out: Vec<char> = Vec::new();
    for c in it: s.chars()
        invariant
            out@ == it.seq().take(it.index() as int),
            it.seq() == s@,
    {
        out.push(c);
    }
    out
}

/// Builds a `String` with `String::from_iter` over the characters of
/// `chars`; the result holds exactly those characters, in order.
#[verifier::external_body]
pub(crate) fn string_of(chars: &Vec<char>) -> (out: String)
    ensures
        out@ == chars@,
{
    String::from_iter(chars.iter())
}

/// An owned copy of `s`.
pub fn owned(s: &str) -> (out: String)
    ensures
        out@ == s@,
{
    s.to_owned()
}

/// `a` followed by `b`.
pub fn concat(a: &str, b: &str) -> (out: String)
    ensures
        out@ == a@ + b@,
{
    let mut chars = chars_of(a);
    let mut tail = chars_of(b);
    chars.append(&mut tail);
    string_of(&chars)
}

/// Whether two character vectors hold the same characters.
pub fn chars_eq(a: &Vec<char>, b: &Vec<char>) -> (same: bool)
    ensures
        same == (a@ == b@),
{
    if a.len() != b.len() {
        return false;
    }
    let mut i: usize = 0;
    while i < a.len()
        invariant
            a.len() == b.len(),
            i <= a.len(),
            a@.subrange(0, i as int) == b@.subrange(0, i as int),
        decreases a.len() - i,
    {
        if a[i] != b[i] {
            return false;
        }
        assert(a@.subrange(0, i + 1) == a@.subrange(0, i as int).push(a@[i as int]));
        assert(b@.subrange(0, i + 1) == b@.subrange(0, i as int).push(b@[i as int]));
        i += 1;
    }
    assert(a@.subrange(0, a.len() as int) == a@);
    assert(b@.subrange(0, b.len() as int) == b@);
    true
}

/// Whether `a` and `b` are the same text.
pub fn str_eq(a: &str, b: &str) -> (same: bool)
    ensures
        same == (a@ == b@),
{
    let x = chars_of(a);
    let y = chars_of(b);
    chars_eq(&x, &y)
}

/// Whether two optional texts are both absent or the same text.
pub fn opt_str_eq(a: &Option<String>, b: &Option<String>) -> (same: bool)
    ensures
        same == (opt_view(*a) == opt_view(*b)),
{
    match (a, b) {
        (None, None) => true,
        (Some(x), Some(y)) => str_eq(x.as_str(), y.as_str()),
        _ => false,
    }
}

/// The view of an optional string.
pub open spec fn opt_view(o: Option<String>) -> Option<Seq<char>> {
    match o {
        Some(s) => Some(s@),
        None => None,
    }
}

/// A copy of an optional string.
pub fn opt_clone(o: &Option<String>) -> (out: Option<String>)
    ensures
        opt_view(out) == opt_view(*o),
{
    match o {
        Some(s) => Some(s.clone()),
        None => None,
    }
}

/// Whether `hay[at..]` begins with `needle`.
fn matches_at(hay: &Vec<char>, needle: &Vec<char>, at: usize) -> (found: bool)
    requires
        at + needle.len() <= hay.len(),
    ensures
        found == (hay@.subrange(at as int, at + needle.len()) == needle@),
{
    let mut i: usize = 0;
    while i < needle.len()
        invariant
            at + needle.len() <= hay.len(),
            i <= needle.len(),
            hay@.subrange(at as int, at + i) == needle@.subrange(0, i as int),
        decreases needle.len() - i,
    {
        if hay[at + i] != needle[i] {
            assert(hay@.subrange(at as int, at + needle.len())[i as int] != needle@[i as int]);
            return false;
        }
        assert(hay@.subrange(at as int, at + i + 1) == hay@.subrange(at as int, at + i).push(
            hay@[at + i],
        ));
        assert(needle@.subrange(0, i + 1) == needle@.subrange(0, i as int).push(needle@[i as int]));
        i += 1;
    }
    assert(needle@.subrange(0, needle.len() as int) == needle@);
    true
}

/// Whether `s` begins with `prefix`.
pub fn starts_with(s: &str, prefix: &str) -> (found: bool)
    ensures
        found == prefix@.is_prefix_of(s@),
{
    let hay = chars_of(s);
    let needle = chars_of(prefix);
    if needle.len() > hay.len() {
        return false;
    }
    matches_at(&hay, &needle, 0)
}

/// Whether `s` ends with `suffix`.
pub fn ends_with(s: &str, suffix: &str) -> (found: bool)
    ensures
        found == suffix@.is_suffix_of(s@),
{
    let hay = chars_of(s);
    let needle = chars_of(suffix);
    if needle.len() > hay.len() {
        return false;
    }
    let at = hay.len() - needle.len();
    matches_at(&hay, &needle, at)
}

/// Whether `needle` occurs somewhere in `s`.
pub fn contains(s: &str, needle: &str) -> (found: bool)
    ensures
        found == occurs_in(needle@, s@),
{
    let hay = chars_of(s);
    let pat = chars_of(needle);
    if pat.len() > hay.len() {
        return false;
    }
    let last = hay.len() - pat.len();
    let mut i: usize = 0;
    loop
        invariant
            hay@ == s@,
            pat@ == needle@,
            last + pat.len() == hay.len(),
            i <= last,
            forall|j: int| 0 <= j < i ==> !#[trigger] occurs_at(pat@, hay@, j),
        decreases last - i,
    {
        if matches_at(&hay, &pat, i) {
            assert(occurs_at(pat@, hay@, i as int));
            return true;
        }
        if i == last {
            return false;
        }
        i += 1;
    }
}

/// Whether `a` sorts strictly before `b`, by code point.
pub fn str_less(a: &str, b: &str) -> (less: bool)
    ensures
        less == lex_less(a@, b@),
{
    let x = chars_of(a);
    let y = chars_of(b);
    let mut i: usize = 0;
    while i < x.len() && i < y.len()
        invariant
            x@ == a@,
            y@ == b@,
            i <= x.len(),
            i <= y.len(),
            x@.subrange(0, i as int) == y@.subrange(0, i as int),
        decreases x.len() - i,
    {
        if x[i] != y[i] {
            let less = x[i] < y[i];
            proof {
                if less {
                    assert(differs_at(x@, y@, i as int));
                } else {
                    assert forall|k: int| !differs_at(x@, y@, k) by {
                        if differs_at(x@, y@, k) {
                            if k > i {
                                assert(x@.subrange(0, k)[i as int] == y@.subrange(0, k)[i as int]);
                            } else if k < i {
                                assert(x@.subrange(0, i as int)[k] == y@.subrange(0, i as int)[k]);
                            }
                        }
                    }
                }
            }
            return less;
        }
        assert(x@.subrange(0, i + 1) == x@.subrange(0, i as int).push(x@[i as int]));
        assert(y@.subrange(0, i + 1) == y@.subrange(0, i as int).push(y@[i as int]));
        i += 1;
    }
    let less = i < y.len();
    proof {
        if less {
            assert(differs_at(x@, y@, i as int));
        } else {
            assert forall|k: int| !differs_at(x@, y@, k) by {
                if differs_at(x@, y@, k) {
                    assert(x@.subrange(0, i as int)[k] == y@.subrange(0, i as int)[k]);
                }
            }
        }
    }
    less
}

/// The character that writes the digit `d`.
pub open spec fn digit_char(d: nat) -> char {
    if d == 0 {
        '0'
    } else if d == 1 {
        '1'
    } else if d == 2 {
        '2'
    } else if d == 3 {
        '3'
    } else if d == 4 {
        '4'
    } else if d == 5 {
        '5'
    } else if d == 6 {
        '6'
    } else if d == 7 {
        '7'
    } else if d == 8 {
        '8'
    } else {
        '9'
    }
}

/// `n` written in base ten, without leading zeros.
pub open spec fn decimal_digits(n: nat) -> Seq<char>
    decreases n,
{
    if n < 10 {
        seq![digit_char(n)]
    } else {
        decimal_digits(n / 10).push(digit_char(n % 10))
    }
}

/// The character that writes the digit `d`.
fn digit(d: usize) -> (c: char)
    requires
        d < 10,
    ensures
        c == digit_char(d as nat),
{
    if d == 0 {
        '0'
    } else if d == 1 {
        '1'
    } else if d == 2 {
        '2'
    } else if d == 3 {
        '3'
    } else if d == 4 {
        '4'
    } else if d == 5 {
        '5'
    } else if d == 6 {
        '6'
    } else if d == 7 {
        '7'
    } else if d == 8 {
        '8'
    } else {
        '9'
    }
}

/// Appends `n`, written in base ten, to `out`.
fn push_decimal(n: u64, out: &mut Vec<char>)
    ensures
        final(out)@ == old(out)@ + decimal_digits(n as nat),
    decreases n,
{
    if n >= 10 {
        push_decimal(n / 10, out);
    }
    out.push(digit((n % 10) as usize));
}

/// `n` written in base ten.
pub fn decimal(n: usize) -> (out: String)
    ensures
        out@ == decimal_digits(n as nat),
{
    let mut chars: Vec<char> = Vec::new();
    push_decimal(n as u64, &mut chars);
    string_of(&chars)
}

/// `n` written in base ten, with a minus sign where it is negative.
pub open spec fn signed_decimal_digits(n: int) -> Seq<char> {
    if n < 0 {
        seq!['-'] + decimal_digits((-n) as nat)
    } else {
        decimal_digits(n as nat)
    }
}

/// `n` written in base ten, with a minus sign where it is negative.
pub fn signed_decimal(n: i64) -> (out: String)
    ensures
        out@ == signed_decimal_digits(n as int),
{
    let mut chars: Vec<char> = Vec::new();
    if n < 0 {
        chars.push('-');
        let magnitude: i128 = -(n as i128);
        push_decimal(magnitude as u64, &mut chars);
    } else {
        push_decimal(n as u64, &mut chars);
    }
    string_of(&chars)
}

/// `a`, `b` and `c` one after the other.
pub fn concat3(a: &str, b: &str, c: &str) -> (out: String)
    ensures
        out@ == a@ + b@ + c@,
{
    let mut chars = chars_of(a);
    let mut mid = chars_of(b);
    let mut tail = chars_of(c);
    chars.append(&mut mid);
    chars.append(&mut tail);
    string_of(&chars)
}

/// The characters of `chars` from position `from` up to `to`.
pub(crate) fn slice_of(chars: &Vec<char>, from: usize, to: usize) -> (out: Vec<char>)
    requires
        from <= to <= chars.len(),
    ensures
        out@ == chars@.subrange(from as int, to as int),
{
    let mut out: Vec<char> = Vec::new();
    let mut i: usize = from;
    while i < to
        invariant
            from <= i <= to <= chars.len(),
            out@ == chars@.subrange(from as int, i as int),
        decreases to - i,
    {
        out.push(chars[i]);
        assert(chars@.subrange(from as int, i + 1) == chars@.subrange(from as int, i as int).push(
            chars@[i as int],
        ));
        i += 1;
    }
    out
}

/// What follows `prefix` in `s`; `None` where `s` does not begin with it.
pub fn strip_prefix(s: &str, prefix: &str) -> (rest: Option<String>)
    ensures
        match rest {
            Some(r) => prefix@.is_prefix_of(s@) && r@ == s@.skip(prefix@.len() as int),
            None => !prefix@.is_prefix_of(s@),
        },
{
    let hay = chars_of(s);
    let needle = chars_of(prefix);
    if needle.len() > hay.len() {
        return None;
    }
    if !matches_at(&hay, &needle, 0) {
        return None;
    }
    let tail = slice_of(&hay, needle.len(), hay.len());
    Some(string_of(&tail))
}

/// `s` cut at its first `sep`: what stands before it and what stands after
/// it; `None` where `s` holds no `sep`.
pub fn split_once(s: &str, sep: char) -> (parts: Option<(String, String)>)
    ensures
        match parts {
            Some((head, tail)) => s@ == head@ + seq![sep] + tail@ && !head@.contains(sep),
            None => !s@.contains(sep),
        },
{
    let chars = chars_of(s);
    let mut i: usize = 0;
    while i < chars.len()
        invariant
            i <= chars.len(),
            chars@ == s@,
            forall|j: int| 0 <= j < i ==> chars@[j] != sep,
        decreases chars.len() - i,
    {
        if chars[i] == sep {
            let head = slice_of(&chars, 0, i);
            let tail = slice_of(&chars, i + 1, chars.len());
            assert(s@ =~= head@ + seq![sep] + tail@);
            return Some((string_of(&head), string_of(&tail)));
        }
        i += 1;
    }
    None
}

/// Reads `bytes` as UTF-8 with `String::from_utf8`: the decoded text where
/// the bytes are valid UTF-8, `None` where they are not.
#[verifier::external_body]
pub(crate) fn utf8_text(bytes: Vec<u8>) -> (text: Option<String>)
    ensures
        match text {
            Some(t) => vstd::utf8::valid_utf8(bytes@) && t@ == vstd::utf8::decode_utf8(bytes@),
            None => !vstd::utf8::valid_utf8(bytes@),
        },
{
    String::from_utf8(bytes).ok()
}

/// The characters that count as white space: those with the Unicode
/// property `White_Space`.
pub open spec fn is_space(c: char) -> bool {
    let v = c as int;
    ||| 0x09 <= v <= 0x0D
    ||| v == 0x20
    ||| v == 0x85
    ||| v == 0xA0
    ||| v == 0x1680
    ||| 0x2000 <= v <= 0x200A
    ||| v == 0x2028
    ||| v == 0x2029
    ||| v == 0x202F
    ||| v == 0x205F
    ||| v == 0x3000
}

/// `t` is `s` without the white space at its two ends.
pub open spec fn is_trimmed_of(t: Seq<char>, s: Seq<char>) -> bool {
    exists|from: int, to: int|
        {
            &&& 0 <= from <= to <= s.len()
            &&& #[trigger] s.subrange(from, to) == t
            &&& forall|i: int| 0 <= i < from ==> is_space(s[i])
            &&& forall|i: int| to <= i < s.len() ==> is_space(s[i])
            &&& from < to ==> !is_space(s[from]) && !is_space(s[to - 1])
        }
}

/// Whether `c` counts as white space.
fn space(c: char) -> (yes: bool)
    ensures
        yes == is_space(c),
{
    let v = c as u32;
    (0x09 <= v && v <= 0x0D) || v == 0x20 || v == 0x85 || v == 0xA0 || v == 0x1680 || (0x2000 <= v
        && v <= 0x200A) || v == 0x2028 || v == 0x2029 || v == 0x202F || v == 0x205F || v == 0x3000
}

/// `s` without the white space at its two ends.
pub fn trim(s: &str) -> (out: String)
    ensures
        is_trimmed_of(out@, s@),
{
    let chars = chars_of(s);
    let mut from: usize = 0;
    while from < chars.len() && space(chars[from])
        invariant
            from <= chars.len(),
            forall|i: int| 0 <= i < from ==> is_space(chars@[i]),
        decreases chars.len() - from,
    {
        from += 1;
    }
    let mut to: usize = chars.len();
    while to > from && space(chars[to - 1])
        invariant
            from <= to <= chars.len(),
            forall|i: int| to <= i < chars.len() ==> is_space(chars@[i]),
        decreases to,
    {
        to -= 1;
    }
    let kept = slice_of(&chars, from, to);
    let out = string_of(&kept);
    assert(s@.subrange(from as int, to as int) == out@);
    out
}

/// What stands in `s` before its first `sep`; all of `s` where it holds
/// none.
pub fn before_first(s: &str, sep: char) -> (out: String)
    ensures
        out@.is_prefix_of(s@),
        !out@.contains(sep),
        out@.len() < s@.len() ==> s@[out@.len() as int] == sep,
{
    let chars = chars_of(s);
    let mut i: usize = 0;
    while i < chars.len() && chars[i] != sep
        invariant
            i <= chars.len(),
            forall|j: int| 0 <= j < i ==> chars@[j] != sep,
        decreases chars.len() - i,
    {
        i += 1;
    }
    let head = slice_of(&chars, 0, i);
    string_of(&head)
}

/// Where the first `sep` of `s` stands, or the length of `s` where it holds
/// none.
pub open spec fn first_index_of(s: Seq<char>, sep: char) -> int
    decreases s.len(),
{
    if s.len() == 0 {
        0
    } else if s[0] == sep {
        0
    } else {
        1 + first_index_of(s.drop_first(), sep)
    }
}

/// The pieces of `s` between its `sep`s, in order. A text without `sep` is
/// one piece, and so is the empty text.
pub open spec fn pieces_of(s: Seq<char>, sep: char) -> Seq<Seq<char>>
    decreases s.len(),
    via pieces_of_decreases
{
    let i = first_index_of(s, sep);
    if i >= s.len() {
        seq![s]
    } else {
        seq![s.take(i)] + pieces_of(s.skip(i + 1), sep)
    }
}

/// What follows the first piece is shorter than the text.
#[via_fn]
proof fn pieces_of_decreases(s: Seq<char>, sep: char) {
    lemma_first_index(s, sep);
}

/// The first index lies within the text, before it no `sep` stands, and at
/// it one does.
pub proof fn lemma_first_index(s: Seq<char>, sep: char)
    ensures
        0 <= first_index_of(s, sep) <= s.len(),
        forall|j: int| 0 <= j < first_index_of(s, sep) ==> s[j] != sep,
        first_index_of(s, sep) < s.len() ==> s[first_index_of(s, sep)] == sep,
    decreases s.len(),
{
    if s.len() > 0 && s[0] != sep {
        let rest = s.drop_first();
        lemma_first_index(rest, sep);
        assert forall|j: int| 0 <= j < first_index_of(s, sep) implies s[j] != sep by {
            if j > 0 {
                assert(s[j] == rest[j - 1]);
            }
        }
        if first_index_of(s, sep) < s.len() {
            assert(s[first_index_of(s, sep)] == rest[first_index_of(rest, sep)]);
        }
    }
}

/// A position before which no `sep` stands, and at which one does or the
/// text ends, is the first index.
pub proof fn lemma_first_index_is(s: Seq<char>, sep: char, i: int)
    requires
        0 <= i <= s.len(),
        forall|j: int| 0 <= j < i ==> s[j] != sep,
        i < s.len() ==> s[i] == sep,
    ensures
        first_index_of(s, sep) == i,
{
    lemma_first_index(s, sep);
    let f = first_index_of(s, sep);
    if f < i {
        assert(s[f] == sep);
    } else if i < f {
        assert(s[i] == sep);
    }
}

/// A text has at least one piece.
pub proof fn lemma_pieces_nonempty(s: Seq<char>, sep: char)
    ensures
        pieces_of(s, sep).len() >= 1,
{
    lemma_first_index(s, sep);
}

/// The texts that a vector of strings stands for.
pub open spec fn piece_texts(v: Seq<String>) -> Seq<Seq<char>> {
    v.map_values(|s: String| s@)
}

/// The pieces of `s` between its `sep`s.
pub fn split(s: &str, sep: char) -> (out: Vec<String>)
    ensures
        piece_texts(out@) == pieces_of(s@, sep),
{
    let chars = chars_of(s);
    let mut out: Vec<String> = Vec::new();
    let mut start: usize = 0;
    assert(s@.skip(0) =~= s@);
    assert(piece_texts(out@) + pieces_of(s@, sep) =~= pieces_of(s@, sep));
    loop
        invariant
            chars@ == s@,
            start <= chars.len(),
            pieces_of(s@, sep) == piece_texts(out@) + pieces_of(s@.skip(start as int), sep),
        decreases chars.len() - start,
    {
        let ghost rest = s@.skip(start as int);
        let ghost done = piece_texts(out@);
        let mut end: usize = start;
        while end < chars.len() && chars[end] != sep
            invariant
                chars@ == s@,
                start <= end <= chars.len(),
                forall|j: int| start <= j < end ==> chars@[j] != sep,
            decreases chars.len() - end,
        {
            end += 1;
        }
        proof {
            lemma_first_index_is(rest, sep, end - start);
        }
        let piece = slice_of(&chars, start, end);
        let text = string_of(&piece);
        assert(piece@ =~= rest.take(end - start));
        let ghost tail = pieces_of(rest, sep);
        out.push(text);
        assert(piece_texts(out@) =~= done.push(piece@));
        if end == chars.len() {
            assert(tail =~= seq![rest]);
            assert(piece@ =~= rest);
            assert(done.push(piece@) =~= done + tail);
            return out;
        }
        proof {
            let next = pieces_of(rest.skip(end - start + 1), sep);
            assert(rest.skip(end - start + 1) =~= s@.skip(end + 1));
            assert(tail =~= seq![piece@] + next);
            assert(done + tail =~= done.push(piece@) + next);
        }
        start = end + 1;
    }
}

/// The pieces of `s` between its `sep`s, each without the white space at
/// its ends.
pub fn split_trimmed(s: &str, sep: char) -> (out: Vec<String>)
    ensures
        out@.len() == pieces_of(s@, sep).len(),
        forall|i: int|
            0 <= i < out@.len() ==> is_trimmed_of((#[trigger] out@[i])@, pieces_of(s@, sep)[i]),
{
    let pieces = split(s, sep);
    let mut out: Vec<String> = Vec::new();
    let mut i: usize = 0;
    while i < pieces.len()
        invariant
            i <= pieces.len(),
            piece_texts(pieces@) == pieces_of(s@, sep),
            out@.len() == i,
            forall|k: int|
                0 <= k < i ==> is_trimmed_of((#[trigger] out@[k])@, pieces_of(s@, sep)[k]),
        decreases pieces.len() - i,
    {
        let trimmed = trim(pieces[i].as_str());
        assert(piece_texts(pieces@)[i as int] == pieces@[i as int]@);
        out.push(trimmed);
        i += 1;
    }
    out
}

/// Every character of `s` is a decimal digit.
pub open spec fn all_digits(s: Seq<char>) -> bool {
    forall|i: int| 0 <= i < s.len() ==> '0' <= #[trigger] s[i] <= '9'
}

/// The number that the decimal digits `s` write.
pub open spec fn digits_value(s: Seq<char>) -> nat
    decreases s.len(),
{
    if s.len() == 0 {
        0
    } else {
        digits_value(s.drop_last()) * 10 + (s.last() as nat - '0' as nat) as nat
    }
}

/// The number that the digits `body` write, if it is at most `max`;
/// `None` where `body` is empty or not all digits, or the number is larger.
pub open spec fn number_of(body: Seq<char>, max: nat) -> Option<nat> {
    if body.len() == 0 || !all_digits(body) || digits_value(body) > max {
        None
    } else {
        Some(digits_value(body))
    }
}

/// The number that `s` writes in base ten, with an optional `+` in front,
/// if it is at most `max`; `None` where `s` is not of that form or the
/// number is larger.
pub open spec fn parsed_number(s: Seq<char>, max: nat) -> Option<nat> {
    if s.len() > 0 && s[0] == '+' {
        number_of(s.skip(1), max)
    } else {
        number_of(s, max)
    }
}

/// The value of a longer run of digits is no smaller.
proof fn lemma_digits_grow(s: Seq<char>, i: int)
    requires
        0 <= i <= s.len(),
    ensures
        digits_value(s.take(i)) <= digits_value(s),
    decreases s.len() - i,
{
    if i < s.len() {
        lemma_digits_grow(s, i + 1);
        assert(s.take(i + 1).drop_last() == s.take(i));
    } else {
        assert(s.take(i) == s);
    }
}

/// Reads `s` as a number in base ten that is at most `max`.
pub fn parse_number(s: &str, max: u64) -> (out: Option<u64>)
    ensures
        match out {
            Some(n) => Some(n as nat),
            None => None,
        } == parsed_number(s@, max as nat),
{
    let chars = chars_of(s);
    let from: usize = if chars.len() > 0 && chars[0] == '+' {
        1
    } else {
        0
    };
    let ghost body = chars@.skip(from as int);
    assert(s@.skip(0) =~= s@);
    assert(parsed_number(s@, max as nat) == number_of(body, max as nat));
    if from == chars.len() {
        return None;
    }
    let mut value: u64 = 0;
    let mut i: usize = from;
    assert(body.take(0) =~= Seq::<char>::empty());
    while i < chars.len()
        invariant
            from <= i <= chars.len(),
            body == chars@.skip(from as int),
            parsed_number(s@, max as nat) == number_of(body, max as nat),
            all_digits(body.take(i - from)),
            value == digits_value(body.take(i - from)),
            value <= max,
        ensures
            i == chars.len(),
        decreases chars.len() - i,
    {
        let c = chars[i];
        let ghost before = body.take(i - from);
        let ghost after = body.take(i - from + 1);
        assert(after.drop_last() == before);
        assert(after.last() == c);
        assert(body[i - from] == c);
        if c < '0' || c > '9' {
            return None;
        }
        let d = (c as u32 - '0' as u32) as u64;
        assert(digits_value(after) == value * 10 + d);
        if value > (u64::MAX - d) / 10 {
            proof {
                assert(value * 10 + d > max) by (nonlinear_arith)
                    requires
                        value > (u64::MAX - d) / 10,
                        d <= 9,
                        max <= u64::MAX,
                ;
                lemma_digits_grow(body, i - from + 1);
            }
            return None;
        }
        assert(value * 10 + d <= u64::MAX) by (nonlinear_arith)
            requires
                value <= (u64::MAX - d) / 10,
                d <= 9,
        ;
        let next = value * 10 + d;
        if next > max {
            proof {
                lemma_digits_grow(body, i - from + 1);
            }
            return None;
        }
        assert forall|j: int| 0 <= j < after.len() implies '0' <= #[trigger] after[j] <= '9' by {
            if j < before.len() {
                assert(after[j] == before[j]);
            }
        }
        value = next;
        i += 1;
    }
    assert(body.take(i - from) == body);
    Some(value)
}

} // verus!
