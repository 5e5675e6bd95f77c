//! Text as a sequence of characters: moving between `str`, `String` and
//! `Vec<char>`, on which the rest of the library computes.

use vstd::prelude::*;
use crate::scan::{
    end_of_last_where, first_where, lemma_end_of_last_where_is, lemma_first_where_is,
};

verus! {

/// `String::push` appends one character to the end of the string.
pub assume_specification[ String::push ](s: &mut String, c: char)
    ensures
        final(s)@ == old(s)@.push(c),
;

/// The characters of `s`, in order.
pub fn to_chars(s: &str) -> (v: Vec<char>)
    ensures
        v@ == s@,
{
    let mut v: Vec<char> = Vec::new();
    for c in it: s.chars()
        invariant
            v@ == it.seq().take(it.index()),
            it.seq() == s@,
    {
        v.push(c);
    }
    v
}

/// The string made of the characters of `v`, in order.
pub fn from_chars(v: &[char]) -> (s: String)
    ensures
        s@ == v@,
{
    let mut s = String::new();
    let mut i: usize = 0;
    while i < v.len()
        invariant
            i <= v.len(),
            s@ == v@.take(i as int),
        decreases v.len() - i,
    {
        s.push(v[i]);
        i += 1;
    }
    s
}

/// Whether `c` is white space: the characters that Unicode gives the
/// property White_Space.
pub open spec fn is_space(c: char) -> bool {
    let u = c as u32;
    ||| 0x09 <= u <= 0x0D
    ||| u == 0x20
    ||| u == 0x85
    ||| u == 0xA0
    ||| u == 0x1680
    ||| 0x2000 <= u <= 0x200A
    ||| u == 0x2028
    ||| u == 0x2029
    ||| u == 0x202F
    ||| u == 0x205F
    ||| u == 0x3000
}

/// Whether `c` is white space.
pub fn is_whitespace(c: char) -> (b: bool)
    ensures
        b == is_space(c),
{
    let u: u32 = c as u32;
    (0x09 <= u && u <= 0x0D) || u == 0x20 || u == 0x85 || u == 0xA0 || u == 0x1680 || (0x2000 <= u
        && u <= 0x200A) || u == 0x2028 || u == 0x2029 || u == 0x202F || u == 0x205F || u == 0x3000
}

/// The property of being white space.
pub open spec fn space() -> spec_fn(char) -> bool {
    |c: char| is_space(c)
}

/// The property of not being white space.
pub open spec fn non_space() -> spec_fn(char) -> bool {
    |c: char| !is_space(c)
}

/// `s` without its leading white space.
pub open spec fn trimmed_start(s: Seq<char>) -> Seq<char> {
    s.skip(first_where(s, non_space()))
}

/// `s` without its trailing white space.
pub open spec fn trimmed_end(s: Seq<char>) -> Seq<char> {
    s.take(end_of_last_where(s, non_space()))
}

/// `s` without its leading and trailing white space.
pub open spec fn trimmed(s: Seq<char>) -> Seq<char> {
    trimmed_end(trimmed_start(s))
}

/// The part of `s` after its leading white space.
pub fn trim_start(s: &[char]) -> (r: &[char])
    ensures
        r@ == trimmed_start(s@),
{
    let mut i: usize = 0;
    while i < s.len() && is_whitespace(s[i])
        invariant
            i <= s.len(),
            forall|j: int| 0 <= j < i ==> is_space(#[trigger] s@[j]),
        decreases s.len() - i,
    {
        i += 1;
    }
    proof {
        lemma_first_where_is(s@, non_space(), i as int);
    }
    &s[i..s.len()]
}

/// The part of `s` before its trailing white space.
pub fn trim_end(s: &[char]) -> (r: &[char])
    ensures
        r@ == trimmed_end(s@),
{
    let mut k: usize = s.len();
    while k > 0 && is_whitespace(s[k - 1])
        invariant
            k <= s.len(),
            forall|j: int| k <= j < s.len() ==> is_space(#[trigger] s@[j]),
        decreases k,
    {
        k -= 1;
    }
    proof {
        lemma_end_of_last_where_is(s@, non_space(), k as int);
    }
    &s[0..k]
}

/// The part of `s` between its leading and its trailing white space.
pub fn trim(s: &[char]) -> (r: &[char])
    ensures
        r@ == trimmed(s@),
{
    trim_end(trim_start(s))
}

/// Whether `a` and `b` hold the same characters.
pub fn same(a: &[char], b: &[char]) -> (r: bool)
    ensures
        r == (a@ == b@),
{
    if a.len() != b.len() {
        return false;
    }
    let mut i: usize = 0;
    while i < a.len()
        invariant
            i <= a.len(),
            a.len() == b.len(),
            a@.take(i as int) == b@.take(i as int),
        decreases a.len() - i,
    {
        if a[i] != b[i] {
            return false;
        }
        assert(a@.take(i + 1) == a@.take(i as int).push(a@[i as int]));
        assert(b@.take(i + 1) == b@.take(i as int).push(b@[i as int]));
        i += 1;
    }
    assert(a@.take(a.len() as int) == a@);
    assert(b@.take(b.len() as int) == b@);
    true
}

/// Whether `pat` stands in `s` at index `i`.
pub open spec fn occurs_at(s: Seq<char>, pat: Seq<char>, i: int) -> bool {
    &&& 0 <= i
    &&& i + pat.len() <= s.len()
    &&& s.subrange(i, i + pat.len()) == pat
}

/// Whether `pat` stands in `s` at index `i`.
pub fn matches_at(s: &[char], pat: &[char], i: usize) -> (r: bool)
    ensures
        r == occurs_at(s@, pat@, i as int),
{
    if i > s.len() || pat.len() > s.len() - i {
        return false;
    }
    same(&s[i..i + pat.len()], pat)
}

/// The index of the first occurrence of `pat` in `s` at or after `i`.
pub open spec fn first_occurrence_from(s: Seq<char>, pat: Seq<char>, i: int) -> Option<int>
    decreases s.len() + 1 - i,
{
    if i < 0 || i + pat.len() > s.len() {
        None
    } else if occurs_at(s, pat, i) {
        Some(i)
    } else {
        first_occurrence_from(s, pat, i + 1)
    }
}

/// The index of the first occurrence of `pat` in `s`.
pub open spec fn first_occurrence(s: Seq<char>, pat: Seq<char>) -> Option<int> {
    first_occurrence_from(s, pat, 0)
}

/// `first_occurrence_from` gives an occurrence before which, from `i` on,
/// there is none; it gives `None` only where there is none from `i` on.
pub proof fn lemma_first_occurrence_from(s: Seq<char>, pat: Seq<char>, i: int)
    requires
        0 <= i,
    ensures
        match first_occurrence_from(s, pat, i) {
            Some(k) => i <= k && occurs_at(s, pat, k) && forall|j: int|
                i <= j < k ==> !occurs_at(s, pat, j),
            None => forall|j: int| i <= j ==> !occurs_at(s, pat, j),
        },
    decreases s.len() + 1 - i,
{
    if i + pat.len() <= s.len() && !occurs_at(s, pat, i) {
        lemma_first_occurrence_from(s, pat, i + 1);
    }
}

/// Finds the first occurrence of `pat` in `s` at or after `start`.
pub fn find_from(s: &[char], pat: &[char], start: usize) -> (r: Option<usize>)
    ensures
        match r {
            Some(k) => first_occurrence_from(s@, pat@, start as int) == Some(k as int)
                && occurs_at(s@, pat@, k as int) && start <= k,
            None => first_occurrence_from(s@, pat@, start as int) is None,
        },
{
    if start > s.len() {
        return None;
    }
    let mut i: usize = start;
    while i <= s.len() && pat.len() <= s.len() - i
        invariant
            start <= i <= s.len(),
            first_occurrence_from(s@, pat@, start as int) == first_occurrence_from(
                s@,
                pat@,
                i as int,
            ),
        decreases s.len() + 1 - i,
    {
        if matches_at(s, pat, i) {
            return Some(i);
        }
        assert(i < s.len()) by {
            if i == s.len() {
                assert(s@.subrange(i as int, i as int) =~= pat@);
            }
        }
        i += 1;
    }
    None
}

/// Finds the first occurrence of `pat` in `s`.
pub fn find(s: &[char], pat: &[char]) -> (r: Option<usize>)
    ensures
        match r {
            Some(k) => first_occurrence(s@, pat@) == Some(k as int) && occurs_at(
                s@,
                pat@,
                k as int,
            ),
            None => first_occurrence(s@, pat@) is None,
        },
{
    find_from(s, pat, 0)
}

/// The index of the first `c` in `s`, or `s.len()` where there is none.
pub open spec fn index_of(s: Seq<char>, c: char) -> int {
    first_where(s, is_char(c))
}

/// The property of being the character `c`.
pub open spec fn is_char(c: char) -> spec_fn(char) -> bool {
    |x: char| x == c
}

/// Finds the first `c` in `s`; gives `s.len()` where there is none.
pub fn find_char(s: &[char], c: char) -> (i: usize)
    ensures
        i == index_of(s@, c),
{
    let mut i: usize = 0;
    while i < s.len() && s[i] != c
        invariant
            i <= s.len(),
            forall|j: int| 0 <= j < i ==> #[trigger] s@[j] != c,
        decreases s.len() - i,
    {
        i += 1;
    }
    proof {
        lemma_first_where_is(s@, is_char(c), i as int);
    }
    i
}

/// `s` from index `i` on, with every occurrence of `pat`, taken from left
/// to right and not overlapping, replaced by `with`. An empty `pat` occurs
/// nowhere.
pub open spec fn replaced_from(s: Seq<char>, pat: Seq<char>, with: Seq<char>, i: int) -> Seq<
    char,
>
    decreases s.len() - i,
{
    if i < 0 || i >= s.len() {
        Seq::empty()
    } else if pat.len() > 0 && occurs_at(s, pat, i) {
        with + replaced_from(s, pat, with, i + pat.len())
    } else {
        seq![s[i]] + replaced_from(s, pat, with, i + 1)
    }
}

/// `s` with every occurrence of `pat` replaced by `with`.
pub open spec fn replaced(s: Seq<char>, pat: Seq<char>, with: Seq<char>) -> Seq<char> {
    replaced_from(s, pat, with, 0)
}

/// Appends the characters of `s`.
pub fn append(out: &mut Vec<char>, s: &[char])
    ensures
        final(out)@ == old(out)@ + s@,
{
    let mut i: usize = 0;
    while i < s.len()
        invariant
            i <= s.len(),
            out@ == old(out)@ + s@.take(i as int),
        decreases s.len() - i,
    {
        out.push(s[i]);
        assert(s@.take(i + 1) == s@.take(i as int).push(s@[i as int]));
        i += 1;
    }
    assert(s@.take(s.len() as int) == s@);
}

/// Replaces every occurrence of `pat` in `s` by `with`, from left to right.
pub fn replace_all(s: &[char], pat: &[char], with: &[char]) -> (out: Vec<char>)
    ensures
        out@ == replaced(s@, pat@, with@),
{
    let mut out: Vec<char> = Vec::new();
    let mut i: usize = 0;
    while i < s.len()
        invariant
            i <= s.len(),
            replaced(s@, pat@, with@) == out@ + replaced_from(s@, pat@, with@, i as int),
        decreases s.len() - i,
    {
        if pat.len() > 0 && matches_at(s, pat, i) {
            append(&mut out, with);
            i += pat.len();
        } else {
            out.push(s[i]);
            i += 1;
        }
    }
    out
}

/// The lower-case form of an ASCII capital; any other character itself.
pub open spec fn ascii_lower(c: char) -> char {
    if 'A' <= c <= 'Z' {
        ((c as u8 + 32) as u8) as char
    } else {
        c
    }
}

/// Puts an ASCII capital in lower case.
pub fn to_ascii_lower(c: char) -> (l: char)
    ensures
        l == ascii_lower(c),
{
    if 'A' <= c && c <= 'Z' {
        let b: u8 = c as u8;
        (b + 32) as char
    } else {
        c
    }
}

/// `s` with each ASCII capital in lower case.
pub open spec fn lowered(s: Seq<char>) -> Seq<char> {
    Seq::new(s.len(), |i: int| ascii_lower(s[i]))
}

/// Puts the ASCII capitals of `s` in lower case.
pub fn lower(s: &[char]) -> (out: Vec<char>)
    ensures
        out@ == lowered(s@),
{
    let mut out: Vec<char> = Vec::new();
    let mut i: usize = 0;
    while i < s.len()
        invariant
            i <= s.len(),
            out@ == lowered(s@.take(i as int)),
        decreases s.len() - i,
    {
        out.push(to_ascii_lower(s[i]));
        assert(lowered(s@.take(i + 1)) == lowered(s@.take(i as int)).push(ascii_lower(s@[i as int])));
        i += 1;
    }
    assert(s@.take(s.len() as int) == s@);
    out
}

/// The character that writes the digit `d`.
pub open spec fn digit(d: nat) -> char {
    ((48 + d) as u8) as char
}

/// `n` in decimal notation.
pub open spec fn decimal(n: nat) -> Seq<char>
    decreases n,
{
    if n < 10 {
        seq![digit(n)]
    } else {
        decimal(n / 10).push(digit(n % 10))
    }
}

/// Appends `n` in decimal notation.
pub fn push_decimal(out: &mut Vec<char>, n: u64)
    ensures
        final(out)@ == old(out)@ + decimal(n as nat),
    decreases n,
{
    if n >= 10 {
        push_decimal(out, n / 10);
    }
    let d: u8 = (n % 10) as u8;
    out.push((48 + d) as char);
}

/// Appends the characters of `s`.
pub fn push_str(out: &mut Vec<char>, s: &str)
    ensures
        final(out)@ == old(out)@ + s@,
{
    let v = to_chars(s);
    append(out, v.as_slice());
}

/// Whether `a` and `b` hold the same text.
pub fn text_eq(a: &str, b: &str) -> (r: bool)
    ensures
        r == (a@ == b@),
{
    let x = to_chars(a);
    let y = to_chars(b);
    same(x.as_slice(), y.as_slice())
}

/// A copy of `s`.
pub fn text_of(s: &str) -> (out: String)
    ensures
        out@ == s@,
{
    let v = to_chars(s);
    from_chars(v.as_slice())
}

/// Whether `c` is a digit of ASCII.
pub open spec fn is_digit(c: char) -> bool {
    '0' <= c <= '9'
}

/// The number that the digits `d` write in decimal notation.
pub open spec fn digits_value(d: Seq<char>) -> nat
    decreases d.len(),
{
    if d.len() == 0 {
        0
    } else {
        digits_value(d.drop_last()) * 10 + (d.last() as u32 - 48) as nat
    }
}

/// The number that `s` writes, if it writes one that fits in a `u32`: one
/// or more digits, with or without a plus sign before them.
pub open spec fn parsed_u32(s: Seq<char>) -> Option<u32> {
    let d = without_plus(s);
    if d.len() > 0 && all_digits(d) && digits_value(d) <= u32::MAX {
        Some(digits_value(d) as u32)
    } else {
        None
    }
}

/// `s` without a plus sign at its start.
pub open spec fn without_plus(s: Seq<char>) -> Seq<char> {
    if s.len() > 0 && s[0] == '+' {
        s.drop_first()
    } else {
        s
    }
}

/// Whether `d` holds digits only.
pub open spec fn all_digits(d: Seq<char>) -> bool {
    forall|i: int| 0 <= i < d.len() ==> is_digit(#[trigger] d[i])
}

/// More digits do not write a smaller number.
proof fn lemma_digits_value_grows(d: Seq<char>, k: int)
    requires
        0 <= k <= d.len(),
    ensures
        digits_value(d.take(k)) <= digits_value(d),
    decreases d.len() - k,
{
    if k < d.len() {
        lemma_digits_value_grows(d, k + 1);
        assert(d.take(k + 1).drop_last() == d.take(k));
    } else {
        assert(d.take(k) == d);
    }
}

/// Reads a number in decimal notation.
pub fn parse_u32(s: &[char]) -> (r: Option<u32>)
    ensures
        r == parsed_u32(s@),
{
    let d = if s.len() > 0 && s[0] == '+' {
        &s[1..s.len()]
    } else {
        s
    };
    if s.len() > 0 && s[0] == '+' {
        assert(d@ == s@.drop_first());
    }
    if d.len() == 0 {
        return None;
    }
    let mut acc: u64 = 0;
    let mut i: usize = 0;
    while i < d.len()
        invariant
            i <= d.len(),
            d.len() > 0,
            d@ == without_plus(s@),
            acc == digits_value(d@.take(i as int)),
            acc <= u32::MAX,
            forall|j: int| 0 <= j < i ==> is_digit(#[trigger] d@[j]),
        decreases d.len() - i,
    {
        let c = d[i];
        if !('0' <= c && c <= '9') {
            assert(!is_digit(d@[i as int]));
            return None;
        }
        let next: u64 = acc * 10 + (c as u32 - 48) as u64;
        assert(d@.take(i + 1).drop_last() == d@.take(i as int));
        assert(next == digits_value(d@.take(i + 1)));
        if next > 0xffff_ffff {
            proof {
                lemma_digits_value_grows(d@, i + 1);
            }
            return None;
        }
        acc = next;
        i += 1;
    }
    assert(d@.take(d.len() as int) == d@);
    Some(acc as u32)
}

/// `s` with `fill` before it up to a width of two characters.
pub open spec fn filled_left(s: Seq<char>, fill: char) -> Seq<char> {
    if s.len() < 2 {
        Seq::new((2 - s.len()) as nat, |i: int| fill) + s
    } else {
        s
    }
}

/// Appends `n` in decimal notation, in at least two characters.
pub fn push_number_filled(out: &mut Vec<char>, n: u64, fill: char)
    ensures
        final(out)@ == old(out)@ + filled_left(decimal(n as nat), fill),
{
    let mut number: Vec<char> = Vec::new();
    push_decimal(&mut number, n);
    let ghost before = out@;
    if number.len() == 0 {
        out.push(fill);
        out.push(fill);
        assert(out@ == before + Seq::new(2, |i: int| fill));
    } else if number.len() == 1 {
        out.push(fill);
        assert(out@ == before + Seq::new(1, |i: int| fill));
    } else {
        assert(out@ == before + Seq::<char>::empty());
    }
    append(out, number.as_slice());
}

} // verus!
