//! The profile text: replacing the section that a pattern finds, and what
//! to do with the result.

use vstd::prelude::*;
use vstd::string::StringExecFns;

use crate::chars::{from_chars, same, to_chars};
use crate::http_template::given_views;
use crate::json::{json_escaped, json_quoted, to_json_string};
use crate::pattern::{compile, compiled, describe, error_text, find_first, first_match, is_span};
use crate::text::{
    lemma_replaced_again, normalize_pattern, normalized, replace_span, with_span_replaced,
};

verus! {

/// How an attempt to replace a section ended.
#[derive(Debug)]
pub enum PatchResult {
    /// The pattern matched; the text with the section replaced.
    Replaced(String),
    /// The pattern matched nowhere: nothing is to be updated.
    NoMatch,
}

/// A `PatchResult` with its text as a character sequence.
pub enum PatchResultView {
    Replaced(Seq<char>),
    NoMatch,
}

impl View for PatchResult {
    type V = PatchResultView;

    open spec fn view(&self) -> PatchResultView {
        match self {
            PatchResult::Replaced(text) => PatchResultView::Replaced(text@),
            PatchResult::NoMatch => PatchResultView::NoMatch,
        }
    }
}

/// The pattern could not be compiled; `message` says why.
#[derive(Debug)]
pub struct InvalidPattern {
    pub message: String,
}

/// The offsets of a match as integers.
pub open spec fn offsets(found: Option<(usize, usize)>) -> Option<(int, int)> {
    match found {
        Some((a, b)) => Some((a as int, b as int)),
        None => None,
    }
}

/// The outcome for a text, the span of the first match in it, and a block:
/// the span is replaced by the block and a line feed; what stands before
/// and after the span stays.
pub open spec fn patched(current: Seq<char>, found: Option<(int, int)>, block: Seq<char>) -> PatchResultView {
    match found {
        Some((a, b)) => PatchResultView::Replaced(
            with_span_replaced(current, a, b, block + seq!['\n']),
        ),
        None => PatchResultView::NoMatch,
    }
}

/// Patching again changes nothing where the span that is found in the
/// patched text is the block that was put in, with its line feed.
pub proof fn lemma_patched_again(current: Seq<char>, a: int, b: int, block: Seq<char>)
    requires
        is_span(current, a, b),
    ensures
        patched(current, Some((a, b)), block) matches PatchResultView::Replaced(text) && patched(
            text,
            Some((a, a + vstd::utf8::encode_utf8(block + seq!['\n']).len())),
            block,
        ) == PatchResultView::Replaced(text),
{
    lemma_replaced_again(current, a, b, block + seq!['\n']);
}

/// Replaces the span `found` of `current` by `replacement_block` and a line
/// feed; without a span, reports that nothing matched.
pub fn apply_match(current: &str, found: Option<(usize, usize)>, replacement_block: &str) -> (r:
    PatchResult)
    requires
        found matches Some((a, b)) ==> is_span(current@, a as int, b as int),
    ensures
        r@ == patched(current@, offsets(found), replacement_block@),
{
    match found {
        Some((a, b)) => {
            let mut block = String::new();
            block.append(replacement_block);
            block.append("\n");
            proof {
                reveal_strlit("\n");
                assert(block@ == replacement_block@ + seq!['\n']);
            }
            PatchResult::Replaced(replace_span(current, a, b, block.as_str()))
        },
        None => PatchResult::NoMatch,
    }
}

/// Replaces the first match of `pattern` in `current` by
/// `replacement_block` and a line feed.
///
/// Slashes around the pattern are dropped before it is compiled. A pattern
/// that does not compile is an error; one that matches nowhere is not.
pub fn patch(current: &str, pattern: &str, replacement_block: &str) -> (r: Result<
    PatchResult,
    InvalidPattern,
>)
    ensures
        match compiled(normalized(pattern@)) {
            Ok(re) => r matches Ok(outcome) && outcome@ == patched(
                current@,
                first_match(re, current@),
                replacement_block@,
            ),
            Err(e) => r matches Err(invalid) && invalid.message@ == error_text(e),
        },
{
    match compile(normalize_pattern(pattern).as_str()) {
        Ok(re) => Ok(apply_match(current, find_first(&re, current), replacement_block)),
        Err(e) => Err(InvalidPattern { message: describe(&e) }),
    }
}

/// What to do with the profile after an attempt to replace its section.
#[derive(Debug)]
pub enum BioAction {
    /// The pattern matched nowhere.
    Unmatched,
    /// Show the new text and send nothing.
    Preview(String),
    /// The new text is the current one.
    UpToDate,
    /// Send the new text.
    Send(String),
    /// Neither a preview nor an update was asked for.
    Leave,
}

/// A `BioAction` with its text as a character sequence.
pub enum BioActionView {
    Unmatched,
    Preview(Seq<char>),
    UpToDate,
    Send(Seq<char>),
    Leave,
}

impl View for BioAction {
    type V = BioActionView;

    open spec fn view(&self) -> BioActionView {
        match self {
            BioAction::Unmatched => BioActionView::Unmatched,
            BioAction::Preview(text) => BioActionView::Preview(text@),
            BioAction::UpToDate => BioActionView::UpToDate,
            BioAction::Send(text) => BioActionView::Send(text@),
            BioAction::Leave => BioActionView::Leave,
        }
    }
}

/// The action that follows an outcome: a dry run previews and goes before
/// an update; an update is sent only where it changes the text.
pub open spec fn planned(
    current: Seq<char>,
    outcome: PatchResultView,
    dry_run: bool,
    update: bool,
) -> BioActionView {
    match outcome {
        PatchResultView::NoMatch => BioActionView::Unmatched,
        PatchResultView::Replaced(text) => if dry_run {
            BioActionView::Preview(text)
        } else if !update {
            BioActionView::Leave
        } else if text == current {
            BioActionView::UpToDate
        } else {
            BioActionView::Send(text)
        },
    }
}

/// Decides what to do with the profile after an attempt to replace its
/// section.
pub fn plan_update(current: &str, outcome: PatchResult, dry_run: bool, update: bool) -> (action:
    BioAction)
    ensures
        action@ == planned(current@, outcome@, dry_run, update),
{
    match outcome {
        PatchResult::NoMatch => BioAction::Unmatched,
        PatchResult::Replaced(text) => {
            if dry_run {
                BioAction::Preview(text)
            } else if !update {
                BioAction::Leave
            } else {
                let a = to_chars(text.as_str());
                let b = to_chars(current);
                if same(a.as_slice(), b.as_slice()) {
                    BioAction::UpToDate
                } else {
                    BioAction::Send(text)
                }
            }
        },
    }
}

/// A JSON string without its quotation marks; `fallback` where there is
/// no JSON string.
pub open spec fn unquoted(quoted: Option<Seq<char>>, fallback: Seq<char>) -> Seq<char> {
    match quoted {
        Some(q) => if q.len() >= 2 {
            q.subrange(1, q.len() - 1)
        } else {
            fallback
        },
        None => fallback,
    }
}

/// Takes the first and the last character off a JSON string, so that what
/// is left can stand between quotation marks in a request's body.
pub fn unquote(quoted: Option<String>, fallback: &str) -> (out: String)
    ensures
        out@ == unquoted(
            match quoted {
                Some(q) => Some(q@),
                None => None,
            },
            fallback@,
        ),
{
    match quoted {
        Some(q) => {
            let chars = to_chars(q.as_str());
            if chars.len() >= 2 {
                from_chars(&chars.as_slice()[1..chars.len() - 1])
            } else {
                from_chars(to_chars(fallback).as_slice())
            }
        },
        None => from_chars(to_chars(fallback).as_slice()),
    }
}

/// Escapes `text` so that it can stand inside a JSON string.
pub fn json_escape(text: &str) -> (out: String)
    ensures
        out@ == json_escaped(text@),
{
    let quoted = to_json_string(text);
    proof {
        assert(json_quoted(text@).subrange(1, json_quoted(text@).len() - 1) == json_escaped(
            text@,
        ));
    }
    unquote(quoted, text)
}

/// The variables of a request for the profile: `DISCORD_TOKEN`.
pub fn profile_vars(token: &str) -> (vars: Vec<(&'static str, String)>)
    ensures
        given_views(vars@) == seq![("DISCORD_TOKEN"@, token@)],
{
    let mut vars: Vec<(&'static str, String)> = Vec::new();
    vars.push(("DISCORD_TOKEN", from_chars(to_chars(token).as_slice())));
    assert(given_views(vars@) == seq![("DISCORD_TOKEN"@, token@)]);
    vars
}

/// The variables of a request that updates the profile: `DISCORD_TOKEN`,
/// and `NEW_BIO` with the text escaped for a JSON string.
pub fn update_vars(token: &str, new_bio: &str) -> (vars: Vec<(&'static str, String)>)
    ensures
        given_views(vars@) == seq![("DISCORD_TOKEN"@, token@), ("NEW_BIO"@, json_escaped(new_bio@))],
{
    let escaped = json_escape(new_bio);
    let mut vars: Vec<(&'static str, String)> = Vec::new();
    vars.push(("DISCORD_TOKEN", from_chars(to_chars(token).as_slice())));
    vars.push(("NEW_BIO", escaped));
    assert(given_views(vars@) == seq![("DISCORD_TOKEN"@, token@), ("NEW_BIO"@, escaped@)]);
    vars
}

} // verus!
