//! Text as a JSON string, as `serde_json` writes it. The contract in this
//! file is not proved: it states what that crate's serializer does.

use vstd::prelude::*;

verus! {

/// The digit of base sixteen for `d`, in lower case.
pub open spec fn hex_digit(d: nat) -> char {
    if d < 10 {
        ((48 + d) as u8) as char
    } else {
        ((87 + d) as u8) as char
    }
}

/// How a character stands inside a JSON string: the quotation mark, the
/// backslash and the control characters below U+0020 are escaped, every
/// other character stands for itself.
pub open spec fn json_escape_of(c: char) -> Seq<char> {
    if c == '"' {
        seq!['\\', '"']
    } else if c == '\\' {
        seq!['\\', '\\']
    } else if c == '\u{08}' {
        seq!['\\', 'b']
    } else if c == '\t' {
        seq!['\\', 't']
    } else if c == '\n' {
        seq!['\\', 'n']
    } else if c == '\u{0c}' {
        seq!['\\', 'f']
    } else if c == '\r' {
        seq!['\\', 'r']
    } else if (c as u32) < 0x20 {
        seq!['\\', 'u', '0', '0', hex_digit((c as u32 / 16) as nat), hex_digit((c as u32 % 16) as nat)]
    } else {
        seq![c]
    }
}

/// `s` with each character as it stands inside a JSON string.
pub open spec fn json_escaped(s: Seq<char>) -> Seq<char>
    decreases s.len(),
{
    if s.len() == 0 {
        Seq::empty()
    } else {
        json_escaped(s.drop_last()) + json_escape_of(s.last())
    }
}

/// `s` as a JSON string: escaped, between quotation marks.
pub open spec fn json_quoted(s: Seq<char>) -> Seq<char> {
    seq!['"'] + json_escaped(s) + seq!['"']
}

/// Calls `serde_json::to_string` on a string slice. What it writes is the
/// slice as a JSON string. The crate documents two reasons for which the
/// call can fail, a value that refuses to be written and a map whose keys
/// are no strings; neither can hold of a string slice.
#[verifier::external_body]
pub(crate) fn to_json_string(s: &str) -> (r: Option<String>)
    ensures
        r is Some,
        r matches Some(text) ==> text@ == json_quoted(s@),
{
    serde_json::to_string(s).ok()
}

} // verus!
