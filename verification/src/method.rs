//! HTTP method tokens, as the transport accepts them. The contract in this
//! file is not proved: it states what `reqwest::Method::from_bytes` does.

use vstd::prelude::*;

verus! {

/// A character that a method token may hold: a letter or digit of ASCII,
/// or one of ``! # $ % & ' * + - . ^ _ ` | ~``.
pub open spec fn is_method_char(c: char) -> bool {
    ||| 'A' <= c <= 'Z'
    ||| 'a' <= c <= 'z'
    ||| '0' <= c <= '9'
    ||| c == '!'
    ||| c == '#'
    ||| c == '$'
    ||| c == '%'
    ||| c == '&'
    ||| c == '\''
    ||| c == '*'
    ||| c == '+'
    ||| c == '-'
    ||| c == '.'
    ||| c == '^'
    ||| c == '_'
    ||| c == '`'
    ||| c == '|'
    ||| c == '~'
}

/// A method token: one or more method characters.
pub open spec fn is_method_token(token: Seq<char>) -> bool {
    &&& token.len() > 0
    &&& forall|i: int| 0 <= i < token.len() ==> is_method_char(#[trigger] token[i])
}

/// Asks `reqwest::Method::from_bytes` whether it takes `token`. It refuses
/// the empty token and any token with a byte outside the method
/// characters, and takes every other: the standard methods and extension
/// methods of any length.
#[verifier::external_body]
pub(crate) fn method_accepted(token: &str) -> (ok: bool)
    ensures
        ok == is_method_token(token@),
{
    reqwest::Method::from_bytes(token.as_bytes()).is_ok()
}

} // verus!
