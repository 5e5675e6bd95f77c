//! Placeholders: `{{`, a name of letters, digits and underscores, `}}`;
//! and their substitution in one pass from left to right.

use vstd::prelude::*;

use crate::chars::{append, occurs_at};
use crate::scan::{first_where, lemma_first_where, lemma_first_where_is};
use crate::vars::VarMap;

verus! {

/// A character that a placeholder's name may hold.
pub open spec fn is_name_char(c: char) -> bool {
    ||| 'A' <= c <= 'Z'
    ||| 'a' <= c <= 'z'
    ||| '0' <= c <= '9'
    ||| c == '_'
}

/// The property of being no name character.
pub open spec fn non_name() -> spec_fn(char) -> bool {
    |c: char| !is_name_char(c)
}

/// Whether `c` may stand in a placeholder's name.
pub fn name_char(c: char) -> (b: bool)
    ensures
        b == is_name_char(c),
{
    ('A' <= c && c <= 'Z') || ('a' <= c && c <= 'z') || ('0' <= c && c <= '9') || c == '_'
}

/// The length of the run of name characters that starts at index `i`.
pub open spec fn name_len_at(s: Seq<char>, i: int) -> int {
    first_where(s.skip(i), non_name())
}

/// Whether a placeholder starts at index `i` of `s`.
pub open spec fn placeholder_at(s: Seq<char>, i: int) -> bool {
    let n = name_len_at(s, i + 2);
    &&& 0 <= i
    &&& i + 2 <= s.len()
    &&& s[i] == '{'
    &&& s[i + 1] == '{'
    &&& n >= 1
    &&& i + n + 4 <= s.len()
    &&& s[i + 2 + n] == '}'
    &&& s[i + 3 + n] == '}'
}

/// The index just after the placeholder that starts at index `i`.
pub open spec fn placeholder_end(s: Seq<char>, i: int) -> int {
    i + name_len_at(s, i + 2) + 4
}

/// The name of the placeholder that starts at index `i`.
pub open spec fn placeholder_name(s: Seq<char>, i: int) -> Seq<char> {
    s.subrange(i + 2, placeholder_end(s, i) - 2)
}

/// The placeholder that starts at index `i`, braces included.
pub open spec fn placeholder_token(s: Seq<char>, i: int) -> Seq<char> {
    s.subrange(i, placeholder_end(s, i))
}

/// What stands for the placeholder at index `i`: the value of its name, or
/// the placeholder itself where the name has no value.
pub open spec fn placeholder_value(
    s: Seq<char>,
    vars: Map<Seq<char>, Seq<char>>,
    i: int,
) -> Seq<char> {
    if vars.contains_key(placeholder_name(s, i)) {
        vars[placeholder_name(s, i)]
    } else {
        placeholder_token(s, i)
    }
}

/// `s` from index `i` on, each placeholder replaced by what stands for it.
/// A value is taken as it is: placeholders in it are not replaced.
pub open spec fn substituted_from(s: Seq<char>, vars: Map<Seq<char>, Seq<char>>, i: int) -> Seq<
    char,
>
    decreases s.len() - i,
{
    if i < 0 || i >= s.len() {
        Seq::empty()
    } else if placeholder_at(s, i) {
        placeholder_value(s, vars, i) + substituted_from(s, vars, placeholder_end(s, i))
    } else {
        seq![s[i]] + substituted_from(s, vars, i + 1)
    }
}

/// `s` with each placeholder replaced by what stands for it.
pub open spec fn substituted(s: Seq<char>, vars: Map<Seq<char>, Seq<char>>) -> Seq<char> {
    substituted_from(s, vars, 0)
}

/// The end of the placeholder that starts at index `i`, if one does.
pub fn placeholder_end_at(s: &[char], i: usize) -> (r: Option<usize>)
    ensures
        match r {
            Some(e) => placeholder_at(s@, i as int) && e == placeholder_end(s@, i as int),
            None => !placeholder_at(s@, i as int),
        },
{
    if i >= s.len() || s.len() - i < 5 || s[i] != '{' || s[i + 1] != '{' {
        proof {
            if i + 2 <= s.len() {
                lemma_first_where(s@.skip(i + 2), non_name());
            }
        }
        return None;
    }
    let mut j: usize = i + 2;
    while j < s.len() && name_char(s[j])
        invariant
            i + 2 <= j <= s.len(),
            forall|k: int| 0 <= k < j - i - 2 ==> is_name_char(#[trigger] s@.skip(i + 2)[k]),
        decreases s.len() - j,
    {
        j += 1;
    }
    proof {
        lemma_first_where_is(s@.skip(i + 2), non_name(), j - i - 2);
    }
    if j > i + 2 && s.len() - j >= 2 && s[j] == '}' && s[j + 1] == '}' {
        Some(j + 2)
    } else {
        None
    }
}

/// Replaces each placeholder of `s` by what stands for it.
pub fn substitute_chars(s: &[char], vars: &VarMap) -> (out: Vec<char>)
    ensures
        out@ == substituted(s@, vars@),
{
    let mut out: Vec<char> = Vec::new();
    let mut i: usize = 0;
    while i < s.len()
        invariant
            i <= s.len(),
            substituted(s@, vars@) == out@ + substituted_from(s@, vars@, i as int),
        decreases s.len() - i,
    {
        match placeholder_end_at(s, i) {
            Some(e) => {
                match vars.lookup(&s[i + 2..e - 2]) {
                    Some(v) => append(&mut out, v.as_slice()),
                    None => append(&mut out, &s[i..e]),
                }
                i = e;
            },
            None => {
                out.push(s[i]);
                i += 1;
            },
        }
    }
    out
}

/// A placeholder's name holds name characters only.
proof fn lemma_name_chars(s: Seq<char>, i: int, k: int)
    requires
        placeholder_at(s, i),
        i + 2 <= k < placeholder_end(s, i) - 2,
    ensures
        is_name_char(s[k]),
{
    lemma_first_where(s.skip(i + 2), non_name());
    assert(s.skip(i + 2)[k - i - 2] == s[k]);
}

/// Two placeholders do not overlap.
pub proof fn lemma_placeholders_apart(s: Seq<char>, i: int, j: int)
    requires
        placeholder_at(s, i),
        placeholder_at(s, j),
        i < j,
    ensures
        placeholder_end(s, i) <= j,
{
    let e = placeholder_end(s, i);
    if j < e {
        if j == i + 1 {
            lemma_name_chars(s, i, i + 2);
        } else if j < e - 2 {
            lemma_name_chars(s, i, j);
        }
    }
}

/// Text without a placeholder is left as it is.
pub proof fn lemma_no_placeholder_unchanged(s: Seq<char>, vars: Map<Seq<char>, Seq<char>>)
    requires
        forall|i: int| !placeholder_at(s, i),
    ensures
        substituted(s, vars) == s,
{
    lemma_plain_tail_unchanged(s, vars, 0);
    assert(s.skip(0) == s);
}

proof fn lemma_plain_tail_unchanged(s: Seq<char>, vars: Map<Seq<char>, Seq<char>>, i: int)
    requires
        0 <= i <= s.len(),
        forall|j: int| i <= j ==> !placeholder_at(s, j),
    ensures
        substituted_from(s, vars, i) == s.skip(i),
    decreases s.len() - i,
{
    if i < s.len() {
        lemma_plain_tail_unchanged(s, vars, i + 1);
        assert(s.skip(i) == seq![s[i]] + s.skip(i + 1));
    } else {
        assert(s.skip(i) == Seq::<char>::empty());
    }
}

/// A value is taken as it is: a text that is one placeholder whose name
/// has a value becomes that value, whatever the value holds.
pub proof fn lemma_value_taken_as_it_is(s: Seq<char>, vars: Map<Seq<char>, Seq<char>>)
    requires
        placeholder_at(s, 0),
        placeholder_end(s, 0) == s.len(),
        vars.contains_key(placeholder_name(s, 0)),
    ensures
        substituted(s, vars) == vars[placeholder_name(s, 0)],
{
    assert(substituted_from(s, vars, s.len() as int) == Seq::<char>::empty());
}

/// Before a placeholder, the text and its part before that placeholder
/// hold the same placeholders.
proof fn lemma_same_before(s: Seq<char>, i: int, a: int)
    requires
        placeholder_at(s, i),
        0 <= a < i,
    ensures
        placeholder_at(s.take(i), a) == placeholder_at(s, a),
        placeholder_at(s, a) ==> placeholder_end(s.take(i), a) == placeholder_end(s, a)
            && placeholder_end(s, a) <= i && placeholder_name(s.take(i), a) == placeholder_name(
            s,
            a,
        ) && placeholder_token(s.take(i), a) == placeholder_token(s, a),
{
    let p = s.take(i);
    if a + 2 <= i {
        let whole = s.skip(a + 2);
        let part = p.skip(a + 2);
        lemma_first_where(whole, non_name());
        lemma_first_where(part, non_name());
        if placeholder_at(s, a) {
            lemma_placeholders_apart(s, a, i);
            let n = name_len_at(s, a + 2);
            assert forall|j: int| 0 <= j < n implies !non_name()(#[trigger] part[j]) by {
                assert(part[j] == whole[j]);
            }
            assert(part[n] == whole[n]);
            assert(whole[n] == s[a + 2 + n]);
            lemma_first_where_is(part, non_name(), n);
            assert(p[a] == s[a] && p[a + 1] == s[a + 1]);
            assert(p[a + 2 + n] == s[a + 2 + n] && p[a + 3 + n] == s[a + 3 + n]);
            assert(p.subrange(a + 2, a + 2 + n) == s.subrange(a + 2, a + 2 + n));
            assert(p.subrange(a, a + n + 4) == s.subrange(a, a + n + 4));
        }
        if placeholder_at(p, a) {
            let n = name_len_at(p, a + 2);
            assert forall|j: int| 0 <= j < n implies !non_name()(#[trigger] whole[j]) by {
                assert(part[j] == whole[j]);
            }
            assert(part[n] == whole[n]);
            assert(part[n] == p[a + 2 + n]);
            lemma_first_where_is(whole, non_name(), n);
            assert(p[a] == s[a] && p[a + 1] == s[a + 1]);
            assert(p[a + 2 + n] == s[a + 2 + n] && p[a + 3 + n] == s[a + 3 + n]);
        }
    }
}

proof fn lemma_around_from(s: Seq<char>, vars: Map<Seq<char>, Seq<char>>, a: int, i: int)
    requires
        0 <= a <= i,
        placeholder_at(s, i),
    ensures
        substituted_from(s, vars, a) == substituted_from(s.take(i), vars, a) + placeholder_value(
            s,
            vars,
            i,
        ) + substituted_from(s, vars, placeholder_end(s, i)),
    decreases i - a,
{
    let p = s.take(i);
    if a == i {
        assert(substituted_from(p, vars, a) == Seq::<char>::empty());
    } else {
        lemma_same_before(s, i, a);
        assert(p[a] == s[a]);
        if placeholder_at(s, a) {
            lemma_around_from(s, vars, placeholder_end(s, a), i);
        } else {
            lemma_around_from(s, vars, a + 1, i);
        }
    }
}

/// Substitution goes placeholder by placeholder: a text with a placeholder
/// becomes what the text before the placeholder becomes, then what stands
/// for the placeholder, then what the text after it becomes.
pub proof fn lemma_substituted_around(s: Seq<char>, vars: Map<Seq<char>, Seq<char>>, i: int)
    requires
        placeholder_at(s, i),
    ensures
        substituted(s, vars) == substituted(s.take(i), vars) + placeholder_value(s, vars, i)
            + substituted_from(s, vars, placeholder_end(s, i)),
{
    lemma_around_from(s, vars, 0, i);
}

/// A placeholder whose name has no value stands in the result as it stood
/// in the text, braces included: between what the text before it becomes
/// and what the text after it becomes.
pub proof fn lemma_unknown_placeholder_kept(
    s: Seq<char>,
    vars: Map<Seq<char>, Seq<char>>,
    i: int,
)
    requires
        placeholder_at(s, i),
        !vars.contains_key(placeholder_name(s, i)),
    ensures
        substituted(s, vars) == substituted(s.take(i), vars) + placeholder_token(s, i)
            + substituted_from(s, vars, placeholder_end(s, i)),
        occurs_at(
            substituted(s, vars),
            placeholder_token(s, i),
            substituted(s.take(i), vars).len() as int,
        ),
{
    lemma_substituted_around(s, vars, i);
    let before = substituted(s.take(i), vars);
    let token = placeholder_token(s, i);
    assert(substituted(s, vars).subrange(
        before.len() as int,
        before.len() as int + token.len(),
    ) == token);
}

} // verus!
