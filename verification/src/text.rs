//! Patterns as users write them, parts of a text given by byte offsets,
//! and the cleaning of track titles.

use vstd::prelude::*;
use vstd::string::StringExecFns;
use vstd::utf8::{decode_utf8, encode_utf8, is_char_boundary, valid_utf8};

use crate::chars::{from_chars, to_chars, trim, trimmed};
use crate::pattern::{compile, compiled, find_first, first_match, is_span};
use crate::scan::{end_of_last_where, lemma_end_of_last_where_is};

verus! {

/// A pattern without the slashes around it, or as it is where it is not
/// wrapped in slashes.
pub open spec fn normalized(p: Seq<char>) -> Seq<char> {
    if p.len() >= 2 && p[0] == '/' && p.last() == '/' {
        p.subrange(1, p.len() - 1)
    } else {
        p
    }
}

/// Removes the slashes around a pattern that is wrapped in them: `/abc/`
/// becomes `abc`.
pub fn normalize_pattern(p: &str) -> (out: String)
    ensures
        out@ == normalized(p@),
{
    let s = to_chars(p);
    let n = s.len();
    if n >= 2 && s[0] == '/' && s[n - 1] == '/' {
        from_chars(&s.as_slice()[1..n - 1])
    } else {
        assert(s@.subrange(0, n as int) == s@);
        from_chars(s.as_slice())
    }
}

/// The part of `text` before byte offset `a`.
pub open spec fn before_offset(text: Seq<char>, a: int) -> Seq<char> {
    decode_utf8(encode_utf8(text).subrange(0, a))
}

/// The part of `text` from byte offset `b` on.
pub open spec fn from_offset(text: Seq<char>, b: int) -> Seq<char> {
    decode_utf8(encode_utf8(text).subrange(b, encode_utf8(text).len() as int))
}

/// `text` with the part between byte offsets `a` and `b` replaced by
/// `with`.
pub open spec fn with_span_replaced(text: Seq<char>, a: int, b: int, with: Seq<char>) -> Seq<
    char,
> {
    before_offset(text, a) + with + from_offset(text, b)
}

/// Whether byte offsets `a` and `b` delimit a part of `text`.
pub fn is_valid_span(text: &str, a: usize, b: usize) -> (ok: bool)
    ensures
        ok == is_span(text@, a as int, b as int),
{
    a <= b && b <= text.as_bytes().len() && text.is_char_boundary(a) && text.is_char_boundary(b)
}

/// Replaces the part of `text` between byte offsets `a` and `b` by `with`.
pub fn replace_span(text: &str, a: usize, b: usize, with: &str) -> (out: String)
    requires
        is_span(text@, a as int, b as int),
    ensures
        out@ == with_span_replaced(text@, a as int, b as int, with@),
{
    broadcast use vstd::utf8::encode_utf8_decode_utf8;

    let (head, _) = text.split_at(a);
    let (_, tail) = text.split_at(b);
    assert(head@ == before_offset(text@, a as int)) by {
        assert(decode_utf8(encode_utf8(head@)) == head@);
    }
    assert(tail@ == from_offset(text@, b as int)) by {
        assert(decode_utf8(encode_utf8(tail@)) == tail@);
    }
    let mut out = String::new();
    out.append(head);
    out.append(with);
    out.append(tail);
    out
}

/// The pattern that finds a note on featured artists at the end of a
/// title: in brackets, or after a dash.
pub const FEATURED_PATTERN: &'static str =
    r"(?i)\s*(?:[\(\[]\s*(?:feat\.?|ft\.?|with)\b.*?[\)\]]|-\s*(?:feat\.?|ft\.?|with)\b.*)$";

/// A character that may be left dangling at the end of a title.
pub open spec fn is_separator(c: char) -> bool {
    c == '-' || c == ':' || c == '\u{2013}' || c == '\u{2014}' || c == '|' || c == '/'
}

/// The property of being no separator.
pub open spec fn non_separator() -> spec_fn(char) -> bool {
    |c: char| !is_separator(c)
}

/// `s` without surrounding white space, without the separators then left
/// at its end, and without the white space before those.
pub open spec fn tidied(s: Seq<char>) -> Seq<char> {
    let t = trimmed(s);
    trimmed(t.take(end_of_last_where(t, non_separator())))
}

/// `title` without the match, if there is one, and tidied.
pub open spec fn title_without(title: Seq<char>, found: Option<(int, int)>) -> Seq<char> {
    match found {
        Some((a, b)) => tidied(with_span_replaced(title, a, b, Seq::empty())),
        None => tidied(title),
    }
}

fn tidy(s: &[char]) -> (out: &[char])
    ensures
        out@ == tidied(s@),
{
    let t = trim(s);
    let mut k: usize = t.len();
    while k > 0 && (t[k - 1] == '-' || t[k - 1] == ':' || t[k - 1] == '\u{2013}' || t[k - 1]
        == '\u{2014}' || t[k - 1] == '|' || t[k - 1] == '/')
        invariant
            k <= t.len(),
            forall|j: int| k <= j < t.len() ==> is_separator(#[trigger] t@[j]),
        decreases k,
    {
        k -= 1;
    }
    proof {
        lemma_end_of_last_where_is(t@, non_separator(), k as int);
    }
    trim(&t[0..k])
}

/// Removes from `title` the part that a pattern matched, given by its
/// byte offsets, and tidies what is left.
pub fn strip_match(title: &str, found: Option<(usize, usize)>) -> (out: String)
    requires
        found matches Some((a, b)) ==> is_span(title@, a as int, b as int),
    ensures
        out@ == title_without(
            title@,
            match found {
                Some((a, b)) => Some((a as int, b as int)),
                None => None,
            },
        ),
{
    match found {
        Some((a, b)) => {
            let cut = replace_span(title, a, b, "");
            proof {
                reveal_strlit("");
                assert(""@ == Seq::<char>::empty());
            }
            let chars = to_chars(cut.as_str());
            from_chars(tidy(chars.as_slice()))
        },
        None => {
            let chars = to_chars(title);
            from_chars(tidy(chars.as_slice()))
        },
    }
}

/// The pattern that cleans titles: the caller's, without the slashes
/// around it, or the pattern for featured artists.
pub open spec fn title_pattern(custom: Option<Seq<char>>) -> Seq<char> {
    match custom {
        Some(p) => normalized(p),
        None => FEATURED_PATTERN@,
    }
}

/// The expression that cleans titles: the one compiled from the chosen
/// pattern, else the one compiled from the pattern for featured artists,
/// else none.
pub open spec fn title_expression(custom: Option<Seq<char>>) -> Option<regex::Regex> {
    match compiled(title_pattern(custom)) {
        Ok(re) => Some(re),
        Err(_) => match compiled(FEATURED_PATTERN@) {
            Ok(re) => Some(re),
            Err(_) => None,
        },
    }
}

/// A title without the first match of the expression that cleans titles,
/// tidied.
pub open spec fn stripped_title(title: Seq<char>, custom: Option<Seq<char>>) -> Seq<char> {
    match title_expression(custom) {
        Some(re) => title_without(title, first_match(re, title)),
        None => tidied(title),
    }
}

/// Removes a note on featured artists from a track title, with the
/// caller's pattern or with the built-in one, and tidies what is left.
pub fn strip_title(title: &str, custom_regex: Option<&str>) -> (out: String)
    ensures
        out@ == stripped_title(
            title@,
            match custom_regex {
                Some(p) => Some(p@),
                None => None,
            },
        ),
{
    let chosen = match custom_regex {
        Some(p) => compile(normalize_pattern(p).as_str()),
        None => compile(FEATURED_PATTERN),
    };
    let expression = match chosen {
        Ok(re) => Some(re),
        Err(_) => match compile(FEATURED_PATTERN) {
            Ok(re) => Some(re),
            Err(_) => None,
        },
    };
    match expression {
        Some(re) => strip_match(title, find_first(&re, title)),
        None => strip_match(title, None),
    }
}

/// The bytes of two texts, one after the other, are the bytes of the
/// texts put together.
pub proof fn lemma_encode_concat(a: Seq<char>, b: Seq<char>)
    ensures
        encode_utf8(a + b) == encode_utf8(a) + encode_utf8(b),
    decreases a.len(),
{
    if a.len() == 0 {
        assert(a + b == b);
    } else {
        assert((a + b).drop_first() == a.drop_first() + b);
        lemma_encode_concat(a.drop_first(), b);
    }
}

/// Where two encoded texts meet, no character is cut.
proof fn lemma_boundary_at_joint(x: Seq<u8>, y: Seq<u8>)
    requires
        valid_utf8(x),
        valid_utf8(y),
    ensures
        valid_utf8(x + y),
        is_char_boundary(x + y, x.len() as int),
{
    vstd::utf8::valid_utf8_concat(x, y);
    if y.len() == 0 {
        assert(x + y == x);
        vstd::utf8::is_char_boundary_start_end_of_seq(x);
    } else {
        vstd::utf8::is_char_boundary_iff_not_is_continuation_byte(x + y, x.len() as int);
        assert((x + y)[x.len() as int] == y[0]);
    }
}

/// A text in which a span was replaced holds the replacement as a span,
/// and replacing that span by the same replacement changes nothing.
pub proof fn lemma_replaced_again(text: Seq<char>, a: int, b: int, with: Seq<char>)
    requires
        is_span(text, a, b),
    ensures
        is_span(with_span_replaced(text, a, b, with), a, a + encode_utf8(with).len()),
        with_span_replaced(
            with_span_replaced(text, a, b, with),
            a,
            a + encode_utf8(with).len(),
            with,
        ) == with_span_replaced(text, a, b, with),
{
    broadcast use vstd::utf8::encode_utf8_valid_utf8;

    let bytes = encode_utf8(text);
    let head = bytes.subrange(0, a);
    let tail = bytes.subrange(b, bytes.len() as int);
    let middle = encode_utf8(with);
    vstd::utf8::valid_utf8_split(bytes, a);
    vstd::utf8::valid_utf8_split(bytes, b);
    vstd::utf8::decode_utf8_encode_utf8(head);
    vstd::utf8::decode_utf8_encode_utf8(tail);
    let new = with_span_replaced(text, a, b, with);
    lemma_encode_concat(decode_utf8(head) + with, decode_utf8(tail));
    lemma_encode_concat(decode_utf8(head), with);
    let fresh = encode_utf8(new);
    assert(fresh == head + middle + tail);
    let e = a + middle.len();
    assert(fresh.subrange(0, a) == head);
    assert(fresh.subrange(e, fresh.len() as int) == tail);
    assert(valid_utf8(middle));
    vstd::utf8::valid_utf8_concat(middle, tail);
    lemma_boundary_at_joint(head, middle + tail);
    assert(head + (middle + tail) == fresh);
    vstd::utf8::valid_utf8_concat(head, middle);
    lemma_boundary_at_joint(head + middle, tail);
}

} // verus!
