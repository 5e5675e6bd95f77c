//! Regular expressions, as the `regex` crate compiles and matches them.
//! Nothing in this file is proved: each contract states what that crate's
//! documentation promises.

use vstd::prelude::*;
use vstd::utf8::is_char_boundary;

verus! {

/// `regex::Regex`, a compiled regular expression. Nothing is known of what
/// is inside it.
#[verifier::external_type_specification]
#[verifier::external_body]
pub struct ExRegex(regex::Regex);

/// `regex::Error`, the reason why a pattern was not compiled. Nothing is
/// known of what is inside it.
#[verifier::external_type_specification]
#[verifier::external_body]
pub struct ExRegexError(regex::Error);

/// What `regex::Regex::new` returns for `pattern`: the compiled expression,
/// or the reason why there is none.
pub uninterp spec fn compiled(pattern: Seq<char>) -> Result<regex::Regex, regex::Error>;

/// What `regex::Regex::find` returns for `text`: the byte offsets at which
/// the first match starts and ends, or `None` where nothing matches.
pub uninterp spec fn first_match(re: regex::Regex, text: Seq<char>) -> Option<(int, int)>;

/// What `regex::Error` writes when it is displayed.
pub uninterp spec fn error_text(e: regex::Error) -> Seq<char>;

/// Offsets `a` and `b` that delimit a part of `text`: in order, within the
/// text's bytes, and neither inside the encoding of a character.
pub open spec fn is_span(text: Seq<char>, a: int, b: int) -> bool {
    let bytes = vstd::utf8::encode_utf8(text);
    &&& 0 <= a <= b <= bytes.len()
    &&& is_char_boundary(bytes, a)
    &&& is_char_boundary(bytes, b)
}

/// Calls `regex::Regex::new`. Its result depends on the pattern alone;
/// nothing more is claimed of it.
#[verifier::external_body]
pub(crate) fn compile(pattern: &str) -> (r: Result<regex::Regex, regex::Error>)
    ensures
        r == compiled(pattern@),
{
    regex::Regex::new(pattern)
}

/// Calls `regex::Regex::find` and hands out `Match::start` and
/// `Match::end` of what it found. The result depends on the expression and
/// the text alone. The crate documents that the start is not after the
/// end, that both are byte offsets into the text, and that both fall on
/// character boundaries.
#[verifier::external_body]
pub(crate) fn find_first(re: &regex::Regex, text: &str) -> (r: Option<(usize, usize)>)
    ensures
        match r {
            Some((a, b)) => first_match(*re, text@) == Some((a as int, b as int)) && is_span(
                text@,
                a as int,
                b as int,
            ),
            None => first_match(*re, text@) is None,
        },
{
    match re.find(text) {
        Some(m) => Some((m.start(), m.end())),
        None => None,
    }
}

/// Writes a `regex::Error` with its `Display` implementation. The result
/// depends on the error alone; nothing more is claimed of it.
#[verifier::external_body]
pub(crate) fn describe(e: &regex::Error) -> (s: String)
    ensures
        s@ == error_text(*e),
{
    format!("{}", e)
}

} // verus!
