//! Carrying out a request: what is logged before and after it is sent,
//! with secrets redacted, and what the answer amounts to.

use vstd::prelude::*;

use crate::chars::{
    append, decimal, find_char, find_from, first_occurrence_from, from_chars, index_of, is_char,
    lemma_first_occurrence_from, lower, lowered, occurs_at, push_decimal, push_str, same,
    to_chars, trim,
};
use crate::http_template::{is_blank, HttpSpec, HttpSpecView};
use crate::lines::{line_views, lines_of, split_lines};
use crate::method::{is_method_token, method_accepted};
use crate::scan::lemma_first_where;

verus! {

/// Why a request did not yield a body.
#[derive(Debug)]
pub enum ExecutionError {
    /// The request could not be sent or the answer could not be read; the
    /// transport's words.
    Transport(String),
    /// The answer's status is not a success.
    HttpStatus { code: u16, body: String },
    /// The transport refuses the method; the method as it was written.
    UnsupportedMethod(String),
}

/// `s` between the marks that make a terminal print it dimmed.
pub open spec fn dimmed(s: Seq<char>) -> Seq<char> {
    "\x1b[2m"@ + s + "\x1b[0m"@
}

/// Puts `s` between the marks that make a terminal print it dimmed.
pub fn dim(s: &str) -> (out: String)
    ensures
        out@ == dimmed(s@),
{
    let mut out: Vec<char> = Vec::new();
    push_str(&mut out, "\x1b[2m");
    push_str(&mut out, s);
    push_str(&mut out, "\x1b[0m");
    from_chars(out.as_slice())
}

/// Puts `s` between the marks that make a terminal print it dimmed.
fn dim_chars(s: &[char]) -> (out: String)
    ensures
        out@ == dimmed(s@),
{
    let mut out: Vec<char> = Vec::new();
    push_str(&mut out, "\x1b[2m");
    append(&mut out, s);
    push_str(&mut out, "\x1b[0m");
    from_chars(out.as_slice())
}

/// Whether a header of this name carries a secret: `Authorization` or
/// `Cookie`, in any case.
pub open spec fn is_secret_header(name: Seq<char>) -> bool {
    lowered(name) == "authorization"@ || lowered(name) == "cookie"@
}

/// The value of a header as it is logged.
pub open spec fn redacted_header(name: Seq<char>, value: Seq<char>) -> Seq<char> {
    if is_secret_header(name) {
        "<redacted>"@
    } else {
        value
    }
}

/// The value of a header as it may be logged.
pub fn redact_header(name: &str, value: &str) -> (out: String)
    ensures
        out@ == redacted_header(name@, value@),
{
    let l = lower(to_chars(name).as_slice());
    if same(l.as_slice(), to_chars("authorization").as_slice()) || same(
        l.as_slice(),
        to_chars("cookie").as_slice(),
    ) {
        from_chars(to_chars("<redacted>").as_slice())
    } else {
        from_chars(to_chars(value).as_slice())
    }
}

/// The index at which the value that starts at index `start` ends: at the
/// next `&`, or at the end of the URL.
pub open spec fn value_end(url: Seq<char>, start: int) -> int {
    start + index_of(url.skip(start), '&')
}

/// `url` from index `i` on, with the value after each `key=` replaced by
/// `<redacted>`: what stands up to the value of the first `key=` at or
/// after `i` is kept, the value gives way to `<redacted>`, and the same is
/// done from the end of the value on. Without a `key=` the rest is kept.
pub open spec fn redacted_key_from(url: Seq<char>, key: Seq<char>, i: int) -> Seq<char>
    decreases url.len() - i,
    via redacted_key_from_ends
{
    match first_occurrence_from(url, key.push('='), i) {
        Some(at) => {
            let start = at + key.len() + 1;
            url.subrange(i, start) + "<redacted>"@ + redacted_key_from(
                url,
                key,
                value_end(url, start),
            )
        },
        None => url.skip(i),
    }
}

/// The redaction comes to an end: each step starts further on in the URL.
#[via_fn]
proof fn redacted_key_from_ends(url: Seq<char>, key: Seq<char>, i: int) {
    if first_occurrence_from(url, key.push('='), i) is Some {
        lemma_value_follows(url, key, i);
    }
}

/// The value of the first `key=` at or after `i` starts after `i` and ends
/// within the URL.
proof fn lemma_value_follows(url: Seq<char>, key: Seq<char>, i: int)
    requires
        first_occurrence_from(url, key.push('='), i) is Some,
    ensures
        0 <= i <= first_occurrence_from(url, key.push('='), i)->0,
        occurs_at(url, key.push('='), first_occurrence_from(url, key.push('='), i)->0),
        i < first_occurrence_from(url, key.push('='), i)->0 + key.len() + 1 <= value_end(
            url,
            first_occurrence_from(url, key.push('='), i)->0 + key.len() + 1,
        ) <= url.len(),
{
    lemma_first_occurrence_from(url, key.push('='), i);
    let start = first_occurrence_from(url, key.push('='), i)->0 + key.len() + 1;
    lemma_first_where(url.skip(start), is_char('&'));
}

/// `url` with the value after every `key=` replaced by `<redacted>`, each
/// up to the next `&` or to the end.
pub open spec fn redacted_key(url: Seq<char>, key: Seq<char>) -> Seq<char> {
    redacted_key_from(url, key, 0)
}

/// A URL that holds no `key=` is left as it is.
pub proof fn lemma_without_key_unchanged(url: Seq<char>, key: Seq<char>)
    requires
        forall|j: int| !occurs_at(url, key.push('='), j),
    ensures
        redacted_key(url, key) == url,
{
    lemma_first_occurrence_from(url, key.push('='), 0);
    assert(url.skip(0) == url);
}

/// From any index on, what stands before the next `key=` and the `key=`
/// itself are kept, `<redacted>` follows them in place of the value, and
/// the rest is redacted in the same way. So no `key=` keeps its value,
/// however often the key occurs.
pub proof fn lemma_next_value_redacted(url: Seq<char>, key: Seq<char>, i: int, at: int)
    requires
        0 <= i <= at,
        occurs_at(url, key.push('='), at),
        forall|j: int| i <= j < at ==> !occurs_at(url, key.push('='), j),
    ensures
        redacted_key_from(url, key, i) == url.subrange(i, at + key.len() + 1) + "<redacted>"@
            + redacted_key_from(url, key, value_end(url, at + key.len() + 1)),
        i < value_end(url, at + key.len() + 1) <= url.len(),
{
    lemma_first_occurrence_from(url, key.push('='), i);
    let found = first_occurrence_from(url, key.push('='), i);
    assert(found == Some(at)) by {
        if found is Some {
            let k = found->0;
            if k < at {
                assert(!occurs_at(url, key.push('='), k));
            }
        }
    }
    lemma_value_follows(url, key, i);
}

/// `url` with every value of `api_key`, `apikey`, `token`, `auth` and
/// `authorization` redacted, one key after the other.
pub open spec fn redacted_url(url: Seq<char>) -> Seq<char> {
    redacted_key(
        redacted_key(
            redacted_key(redacted_key(redacted_key(url, "api_key"@), "apikey"@), "token"@),
            "auth"@,
        ),
        "authorization"@,
    )
}

/// Redacts the value after every `key=` in `url`.
fn redact_key(url: Vec<char>, key: &str) -> (out: Vec<char>)
    ensures
        out@ == redacted_key(url@, key@),
{
    let mut pat = to_chars(key);
    pat.push('=');
    let total = url.len();
    let mut out: Vec<char> = Vec::new();
    let mut i: usize = 0;
    loop
        invariant_except_break
            i <= total,
            redacted_key(url@, key@) == out@ + redacted_key_from(url@, key@, i as int),
        invariant
            total == url@.len(),
            pat@ == key@.push('='),
        ensures
            out@ == redacted_key(url@, key@),
        decreases total - i,
    {
        match find_from(url.as_slice(), pat.as_slice(), i) {
            Some(at) => {
                proof {
                    lemma_value_follows(url@, key@, i as int);
                }
                let start = at + pat.len();
                let rest = &url.as_slice()[start..total];
                assert(rest@ == url@.skip(start as int));
                let n = find_char(rest, '&');
                append(&mut out, &url.as_slice()[i..start]);
                push_str(&mut out, "<redacted>");
                i = start + n;
            },
            None => {
                append(&mut out, &url.as_slice()[i..total]);
                assert(url@.subrange(i as int, total as int) == url@.skip(i as int));
                break ;
            },
        }
    }
    out
}

/// The URL as it may be logged: with the values of secret keys redacted.
pub fn redact_url(url: &str) -> (out: String)
    ensures
        out@ == redacted_url(url@),
{
    let a = redact_key(to_chars(url), "api_key");
    let b = redact_key(a, "apikey");
    let c = redact_key(b, "token");
    let d = redact_key(c, "auth");
    let e = redact_key(d, "authorization");
    from_chars(e.as_slice())
}

/// The character sequences that the strings of `v` hold.
pub open spec fn string_views(v: Seq<String>) -> Seq<Seq<char>> {
    Seq::new(v.len(), |i: int| v[i]@)
}

/// The line that announces a request.
pub open spec fn request_line(method: Seq<char>, url: Seq<char>) -> Seq<char> {
    dimmed("\u{2192} Request: "@ + method + " "@ + redacted_url(url))
}

/// The line that shows a header.
pub open spec fn header_line(name: Seq<char>, value: Seq<char>) -> Seq<char> {
    dimmed("  "@ + name + ": "@ + redacted_header(name, value))
}

/// The line that shows a line of the body.
pub open spec fn body_line(line: Seq<char>) -> Seq<char> {
    dimmed("    "@ + line)
}

/// The lines that show a body: none for a body that is absent or blank.
pub open spec fn body_log(body: Option<Seq<char>>) -> Seq<Seq<char>> {
    match body {
        Some(b) => if is_blank(b) {
            Seq::empty()
        } else {
            seq![dimmed("  (body):"@)] + Seq::new(
                lines_of(b).len(),
                |i: int| body_line(lines_of(b)[i]),
            )
        },
        None => Seq::empty(),
    }
}

/// What is logged before a request is sent: the method and the URL, each
/// header in order, and the body line by line; secrets redacted.
pub open spec fn request_log(spec: HttpSpecView) -> Seq<Seq<char>> {
    seq![request_line(spec.method, spec.url)] + Seq::new(
        spec.headers.len(),
        |i: int| header_line(spec.headers[i].0, spec.headers[i].1),
    ) + body_log(spec.body)
}

/// Appends the lines that show a body.
fn log_body(out: &mut Vec<String>, body: &Option<String>)
    ensures
        string_views(final(out)@) == string_views(old(out)@) + body_log(
            match body {
                Some(b) => Some(b@),
                None => None,
            },
        ),
{
    let ghost start = string_views(out@);
    match body {
        Some(b) => {
            let text = to_chars(b.as_str());
            if trim(text.as_slice()).len() != 0 {
                out.push(dim("  (body):"));
                let lines = split_lines(text.as_slice());
                let ghost head = string_views(out@);
                assert(head == start + seq![dimmed("  (body):"@)]);
                let mut i: usize = 0;
                while i < lines.len()
                    invariant
                        i <= lines.len(),
                        line_views(lines@) == lines_of(b@),
                        string_views(out@) == head + Seq::new(
                            i as nat,
                            |k: int| body_line(lines_of(b@)[k]),
                        ),
                    decreases lines.len() - i,
                {
                    let mut line: Vec<char> = Vec::new();
                    push_str(&mut line, "    ");
                    append(&mut line, lines[i].as_slice());
                    let ghost before = string_views(out@);
                    out.push(dim_chars(line.as_slice()));
                    assert(line_views(lines@)[i as int] == lines@[i as int]@);
                    assert(string_views(out@) == before.push(body_line(lines_of(b@)[i as int])));
                    i += 1;
                }
            }
        },
        None => {},
    }
}

/// The lines to log before `spec` is sent.
pub fn log_request(spec: &HttpSpec) -> (out: Vec<String>)
    ensures
        string_views(out@) == request_log(spec@),
{
    let mut out: Vec<String> = Vec::new();
    let mut first: Vec<char> = Vec::new();
    push_str(&mut first, "\u{2192} Request: ");
    push_str(&mut first, spec.method.as_str());
    push_str(&mut first, " ");
    push_str(&mut first, redact_url(spec.url.as_str()).as_str());
    out.push(dim_chars(first.as_slice()));
    let ghost head = string_views(out@);
    assert(head == seq![request_line(spec@.method, spec@.url)]);
    let mut i: usize = 0;
    while i < spec.headers.len()
        invariant
            i <= spec.headers@.len(),
            string_views(out@) == head + Seq::new(
                i as nat,
                |k: int| header_line(spec@.headers[k].0, spec@.headers[k].1),
            ),
        decreases spec.headers@.len() - i,
    {
        let mut line: Vec<char> = Vec::new();
        push_str(&mut line, "  ");
        push_str(&mut line, spec.headers[i].0.as_str());
        push_str(&mut line, ": ");
        push_str(
            &mut line,
            redact_header(spec.headers[i].0.as_str(), spec.headers[i].1.as_str()).as_str(),
        );
        let ghost before = string_views(out@);
        out.push(dim_chars(line.as_slice()));
        assert(string_views(out@) == before.push(
            header_line(spec@.headers[i as int].0, spec@.headers[i as int].1),
        ));
        i += 1;
    }
    log_body(&mut out, &spec.body);
    out
}

/// Checks a request before it is sent and says what to log.
///
/// A method that the transport refuses is an error. Else the result is the
/// lines to log: those of `request_log` under `debug`, none without.
pub fn prepare(spec: &HttpSpec, debug: bool) -> (r: Result<Vec<String>, ExecutionError>)
    ensures
        match r {
            Ok(log) => is_method_token(spec.method@) && string_views(log@) == if debug {
                request_log(spec@)
            } else {
                Seq::empty()
            },
            Err(e) => !is_method_token(spec.method@) && (e matches ExecutionError::UnsupportedMethod(
                m,
            ) && m@ == spec.method@),
        },
{
    if !method_accepted(spec.method.as_str()) {
        return Err(ExecutionError::UnsupportedMethod(spec.method.clone()));
    }
    if debug {
        Ok(log_request(spec))
    } else {
        let log: Vec<String> = Vec::new();
        assert(string_views(log@) == Seq::<Seq<char>>::empty());
        Ok(log)
    }
}

/// What came back from the transport.
#[derive(Debug)]
pub enum Reply {
    /// The request could not be sent; the transport's words.
    Unsent(String),
    /// An answer came: its status code, its status as the transport writes
    /// it, and its body or the reason why the body could not be read.
    Answered { code: u16, status: String, body: Result<String, String> },
}

/// What a request amounts to: the lines to log and the result.
#[derive(Debug)]
pub struct Outcome {
    pub log: Vec<String>,
    pub result: Result<String, ExecutionError>,
}

/// Whether a status code reports success: 200 to 299.
pub open spec fn is_success(code: u16) -> bool {
    200 <= code <= 299
}

/// The line that reports a request that could not be sent.
pub open spec fn unsent_line(error: Seq<char>) -> Seq<char> {
    "HTTP request send error: "@ + error
}

/// The line that reports the status of an answer.
pub open spec fn status_line(status: Seq<char>) -> Seq<char> {
    dimmed("\u{2190} Response: "@ + status)
}

/// The lines that report an answer without success.
pub open spec fn failure_line(status: Seq<char>, body: Seq<char>) -> Seq<char> {
    "HTTP error status: "@ + status + "\nResponse body: "@ + body
}

/// The body of an answer without success: what was read, or a note with
/// the reason why nothing was.
pub open spec fn error_body(body: Result<String, String>) -> Seq<char> {
    match body {
        Ok(text) => text@,
        Err(reason) => "<failed to read error body: "@ + reason@ + ">"@,
    }
}

/// What is logged under `debug` once the transport has come back.
pub open spec fn reply_log(reply: Reply) -> Seq<Seq<char>> {
    match reply {
        Reply::Unsent(error) => seq![unsent_line(error@)],
        Reply::Answered { code, status, body } => if is_success(code) {
            seq![status_line(status@)]
        } else {
            seq![status_line(status@), failure_line(status@, error_body(body))]
        },
    }
}

/// Says what a request amounts to, once the transport has come back.
///
/// A request that could not be sent is a transport error. An answer with a
/// status from 200 to 299 yields its body, or a transport error where the
/// body could not be read. Any other answer is a status error with the
/// code and the body, or with a note in place of a body that could not be
/// read. The lines to log are those of `reply_log` under `debug`, none
/// without.
pub fn conclude(reply: Reply, debug: bool) -> (out: Outcome)
    ensures
        string_views(out.log@) == if debug {
            reply_log(reply)
        } else {
            Seq::empty()
        },
        match reply {
            Reply::Unsent(error) => out.result matches Err(ExecutionError::Transport(m)) && m@
                == error@,
            Reply::Answered { code, status, body } => if is_success(code) {
                match body {
                    Ok(text) => out.result matches Ok(t) && t@ == text@,
                    Err(reason) => out.result matches Err(ExecutionError::Transport(m)) && m@
                        == reason@,
                }
            } else {
                out.result matches Err(ExecutionError::HttpStatus { code: c, body: b }) && c
                    == code && b@ == error_body(body)
            },
        },
{
    let mut log: Vec<String> = Vec::new();
    assert(string_views(log@) == Seq::<Seq<char>>::empty());
    match reply {
        Reply::Unsent(error) => {
            if debug {
                let mut line: Vec<char> = Vec::new();
                push_str(&mut line, "HTTP request send error: ");
                push_str(&mut line, error.as_str());
                log.push(from_chars(line.as_slice()));
                assert(string_views(log@) == seq![unsent_line(error@)]);
            }
            Outcome { log, result: Err(ExecutionError::Transport(error)) }
        },
        Reply::Answered { code, status, body } => {
            if debug {
                let mut line: Vec<char> = Vec::new();
                push_str(&mut line, "\u{2190} Response: ");
                push_str(&mut line, status.as_str());
                log.push(dim_chars(line.as_slice()));
                assert(string_views(log@) == seq![status_line(status@)]);
            }
            if 200 <= code && code <= 299 {
                match body {
                    Ok(text) => Outcome { log, result: Ok(text) },
                    Err(reason) => Outcome { log, result: Err(ExecutionError::Transport(reason)) },
                }
            } else {
                let text = match body {
                    Ok(text) => text,
                    Err(reason) => {
                        let mut note: Vec<char> = Vec::new();
                        push_str(&mut note, "<failed to read error body: ");
                        push_str(&mut note, reason.as_str());
                        push_str(&mut note, ">");
                        from_chars(note.as_slice())
                    },
                };
                if debug {
                    let mut line: Vec<char> = Vec::new();
                    push_str(&mut line, "HTTP error status: ");
                    push_str(&mut line, status.as_str());
                    push_str(&mut line, "\nResponse body: ");
                    push_str(&mut line, text.as_str());
                    log.push(from_chars(line.as_slice()));
                    assert(string_views(log@) == seq![
                        status_line(status@),
                        failure_line(status@, error_body(body)),
                    ]);
                }
                Outcome { log, result: Err(ExecutionError::HttpStatus { code, body: text }) }
            }
        },
    }
}

impl ExecutionError {
    /// The error in words.
    pub open spec fn message_text(self) -> Seq<char> {
        match self {
            ExecutionError::Transport(reason) => reason@,
            ExecutionError::HttpStatus { code, body } => "HTTP request failed with status "@
                + decimal(code as nat),
            ExecutionError::UnsupportedMethod(method) => "Unsupported HTTP method: "@ + method@,
        }
    }

    /// The error in words.
    pub fn message(&self) -> (out: String)
        ensures
            out@ == self.message_text(),
    {
        let mut text: Vec<char> = Vec::new();
        match self {
            ExecutionError::Transport(reason) => {
                push_str(&mut text, reason.as_str());
            },
            ExecutionError::HttpStatus { code, body } => {
                push_str(&mut text, "HTTP request failed with status ");
                push_decimal(&mut text, *code as u64);
            },
            ExecutionError::UnsupportedMethod(method) => {
                push_str(&mut text, "Unsupported HTTP method: ");
                push_str(&mut text, method.as_str());
            },
        }
        from_chars(text.as_slice())
    }
}

} // verus!
