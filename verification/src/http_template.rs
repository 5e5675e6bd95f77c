//! Request descriptions: a small line-oriented format for one HTTP call,
//! its parser, and the substitution of `{{NAME}}` placeholders.

use vstd::prelude::*;

use crate::chars::{
    find_char, from_chars, index_of, is_space, is_whitespace, push_str, replace_all, replaced,
    space, to_chars, trim, trim_start, trimmed, trimmed_start,
};
use crate::lines::{join, joined, line_views, lines_of, split_lines};
use crate::placeholder::{substitute_chars, substituted};
use crate::scan::{first_where, lemma_first_where, lemma_first_where_is};
use crate::vars::{first_wins, lemma_first_wins_concat, VarMap};

verus! {

/// One HTTP call as a request description states it.
pub struct HttpSpec {
    pub method: String,
    pub url: String,
    pub headers: Vec<(String, String)>,
    pub body: Option<String>,
}

/// What an `HttpSpec` holds, as plain sequences.
pub struct HttpSpecView {
    pub method: Seq<char>,
    pub url: Seq<char>,
    pub headers: Seq<(Seq<char>, Seq<char>)>,
    pub body: Option<Seq<char>>,
}

/// The name and value of each header, as character sequences.
pub open spec fn header_views(v: Seq<(String, String)>) -> Seq<(Seq<char>, Seq<char>)> {
    Seq::new(v.len(), |i: int| (v[i].0@, v[i].1@))
}

impl View for HttpSpec {
    type V = HttpSpecView;

    open spec fn view(&self) -> HttpSpecView {
        HttpSpecView {
            method: self.method@,
            url: self.url@,
            headers: header_views(self.headers@),
            body: match self.body {
                Some(b) => Some(b@),
                None => None,
            },
        }
    }
}

/// Why a request description was refused.
#[derive(Debug)]
pub enum ParseError {
    /// No line but blank lines and comments.
    MissingRequestLine,
    /// The request line holds no method.
    MissingMethod,
    /// The request line holds a method and nothing after it.
    MissingUrl,
    /// A header line without a colon; the line as it was written.
    InvalidHeaderLine(String),
}

/// A `ParseError` with its line as a character sequence.
pub enum ParseErrorView {
    MissingRequestLine,
    MissingMethod,
    MissingUrl,
    InvalidHeaderLine(Seq<char>),
}

impl View for ParseError {
    type V = ParseErrorView;

    open spec fn view(&self) -> ParseErrorView {
        match self {
            ParseError::MissingRequestLine => ParseErrorView::MissingRequestLine,
            ParseError::MissingMethod => ParseErrorView::MissingMethod,
            ParseError::MissingUrl => ParseErrorView::MissingUrl,
            ParseError::InvalidHeaderLine(line) => ParseErrorView::InvalidHeaderLine(line@),
        }
    }
}

/// The byte-order mark.
pub const BOM: char = '\u{feff}';

/// A line of white space only.
pub open spec fn is_blank(line: Seq<char>) -> bool {
    trimmed(line).len() == 0
}

/// A line whose first character after leading white space is `#`.
pub open spec fn is_comment(line: Seq<char>) -> bool {
    let t = trimmed_start(line);
    t.len() > 0 && t[0] == '#'
}

/// The property of being blank.
pub open spec fn blank() -> spec_fn(Seq<char>) -> bool {
    |line: Seq<char>| is_blank(line)
}

/// The property of being neither blank nor a comment.
pub open spec fn significant() -> spec_fn(Seq<char>) -> bool {
    |line: Seq<char>| !is_blank(line) && !is_comment(line)
}

/// The property of not being a comment.
pub open spec fn not_comment() -> spec_fn(Seq<char>) -> bool {
    |line: Seq<char>| !is_comment(line)
}

/// The property of holding no colon.
pub open spec fn lacks_colon() -> spec_fn(Seq<char>) -> bool {
    |line: Seq<char>| index_of(line, ':') >= line.len()
}

/// The property of not being the byte-order mark.
pub open spec fn not_bom() -> spec_fn(char) -> bool {
    |c: char| c != BOM
}

/// `s` without one leading byte-order mark.
pub open spec fn without_bom(s: Seq<char>) -> Seq<char> {
    if s.len() > 0 && s[0] == BOM {
        s.drop_first()
    } else {
        s
    }
}

/// The lines that the parser reads: one leading byte-order mark is dropped
/// and each carriage return with its line feed counts as a line feed.
pub open spec fn source_lines(content: Seq<char>) -> Seq<Seq<char>> {
    lines_of(replaced(without_bom(content), "\r\n"@, "\n"@))
}

/// The first run of characters of `s` that are not white space.
pub open spec fn first_word(s: Seq<char>) -> Seq<char> {
    let t = trimmed_start(s);
    t.take(first_where(t, space()))
}

/// What follows the first word of `s`.
pub open spec fn after_first_word(s: Seq<char>) -> Seq<char> {
    let t = trimmed_start(s);
    t.skip(first_where(t, space()))
}

/// The method that a request line names: its first word, without leading
/// byte-order marks.
pub open spec fn method_of(line: Seq<char>) -> Seq<char> {
    let w = first_word(line);
    w.skip(first_where(w, not_bom()))
}

/// The URL that a request line names: its second word.
pub open spec fn url_of(line: Seq<char>) -> Seq<char> {
    first_word(after_first_word(line))
}

/// The name and the value of a header line: what stands before its first
/// colon and what stands after it, both without surrounding white space.
pub open spec fn header_of(line: Seq<char>) -> (Seq<char>, Seq<char>) {
    let c = index_of(line, ':');
    (trimmed(line.take(c)), trimmed(line.skip(c + 1)))
}

/// `header_of` as a function value.
pub open spec fn to_header() -> spec_fn(Seq<char>) -> (Seq<char>, Seq<char>) {
    |line: Seq<char>| header_of(line)
}

/// The index of the request line: the first line that is neither blank nor
/// a comment. It is `lines.len()` where there is none.
pub open spec fn request_line_index(lines: Seq<Seq<char>>) -> int {
    first_where(lines, significant())
}

/// The lines after the request line.
pub open spec fn after_request_line(lines: Seq<Seq<char>>) -> Seq<Seq<char>> {
    lines.skip(request_line_index(lines) + 1)
}

/// The lines between the request line and the first blank line after it.
pub open spec fn header_section(lines: Seq<Seq<char>>) -> Seq<Seq<char>> {
    let rest = after_request_line(lines);
    rest.take(first_where(rest, blank()))
}

/// The header lines: the lines of the header section that are no comments.
pub open spec fn header_lines(lines: Seq<Seq<char>>) -> Seq<Seq<char>> {
    header_section(lines).filter(not_comment())
}

/// The lines after the blank line that ends the header section.
pub open spec fn body_lines(lines: Seq<Seq<char>>) -> Seq<Seq<char>> {
    let rest = after_request_line(lines);
    let b = first_where(rest, blank());
    if b < rest.len() {
        rest.skip(b + 1)
    } else {
        Seq::empty()
    }
}

/// The body: absent where no line follows the header section's blank line,
/// else the lines that follow it, joined by line feeds.
pub open spec fn body_of(lines: Seq<Seq<char>>) -> Option<Seq<char>> {
    let b = body_lines(lines);
    if b.len() == 0 {
        None
    } else {
        Some(joined(b, "\n"@))
    }
}

/// What a request description of these lines states, or why it is refused.
pub open spec fn parsed_lines(lines: Seq<Seq<char>>) -> Result<HttpSpecView, ParseErrorView> {
    let r = request_line_index(lines);
    if r >= lines.len() {
        Err(ParseErrorView::MissingRequestLine)
    } else if method_of(lines[r]).len() == 0 {
        Err(ParseErrorView::MissingMethod)
    } else if url_of(lines[r]).len() == 0 {
        Err(ParseErrorView::MissingUrl)
    } else {
        let hl = header_lines(lines);
        let bad = first_where(hl, lacks_colon());
        if bad < hl.len() {
            Err(ParseErrorView::InvalidHeaderLine(hl[bad]))
        } else {
            Ok(
                HttpSpecView {
                    method: method_of(lines[r]),
                    url: url_of(lines[r]),
                    headers: hl.map_values(to_header()),
                    body: body_of(lines),
                },
            )
        }
    }
}

/// What the request description `content` states, or why it is refused.
pub open spec fn parsed(content: Seq<char>) -> Result<HttpSpecView, ParseErrorView> {
    parsed_lines(source_lines(content))
}

/// Whether `line` is blank.
fn blank_line(line: &[char]) -> (b: bool)
    ensures
        b == is_blank(line@),
{
    trim(line).len() == 0
}

/// Whether `line` is a comment.
fn comment_line(line: &[char]) -> (b: bool)
    ensures
        b == is_comment(line@),
{
    let t = trim_start(line);
    t.len() > 0 && t[0] == '#'
}

/// Splits `s` into its first word and what follows it.
fn take_word(s: &[char]) -> (r: (&[char], &[char]))
    ensures
        r.0@ == first_word(s@),
        r.1@ == after_first_word(s@),
{
    let t = trim_start(s);
    let mut i: usize = 0;
    while i < t.len() && !is_whitespace(t[i])
        invariant
            i <= t.len(),
            forall|j: int| 0 <= j < i ==> !is_space(#[trigger] t@[j]),
        decreases t.len() - i,
    {
        i += 1;
    }
    proof {
        lemma_first_where_is(t@, space(), i as int);
    }
    (&t[0..i], &t[i..t.len()])
}

/// The part of `w` after its leading byte-order marks.
fn strip_boms(w: &[char]) -> (r: &[char])
    ensures
        r@ == w@.skip(first_where(w@, not_bom())),
{
    let mut i: usize = 0;
    while i < w.len() && w[i] == BOM
        invariant
            i <= w.len(),
            forall|j: int| 0 <= j < i ==> #[trigger] w@[j] == BOM,
        decreases w.len() - i,
    {
        i += 1;
    }
    proof {
        lemma_first_where_is(w@, not_bom(), i as int);
    }
    &w[i..w.len()]
}

/// Every header line of an accepted description gives one header: there
/// are as many headers as header lines, in the order of the lines, each
/// with the name and the value of its own line. So two lines with one
/// name give two headers.
pub proof fn lemma_headers_follow_lines(content: Seq<char>)
    requires
        parsed(content) is Ok,
    ensures
        parsed(content)->Ok_0.headers.len() == header_lines(source_lines(content)).len(),
        forall|i: int|
            0 <= i < header_lines(source_lines(content)).len() ==> (
            #[trigger] parsed(content)->Ok_0.headers[i]) == header_of(
                header_lines(source_lines(content))[i],
            ),
        forall|i: int|
            0 <= i < header_lines(source_lines(content)).len() ==> index_of(
                #[trigger] header_lines(source_lines(content))[i],
                ':',
            ) < header_lines(source_lines(content))[i].len(),
{
    let hl = header_lines(source_lines(content));
    lemma_first_where(hl, lacks_colon());
    assert forall|i: int| 0 <= i < hl.len() implies index_of(#[trigger] hl[i], ':')
        < hl[i].len() by {
        assert(!lacks_colon()(hl[i]));
    }
}

/// The header lines of a description are the lines between its request
/// line and the first blank line after it, but for the comments, in
/// order: a line is a header line just when it is such a line.
pub proof fn lemma_header_lines_are_lines(lines: Seq<Seq<char>>, line: Seq<char>)
    ensures
        header_lines(lines).contains(line) <==> header_section(lines).contains(line)
            && !is_comment(line),
{
    let section = header_section(lines);
    if header_lines(lines).contains(line) {
        let i = choose|i: int| 0 <= i < header_lines(lines).len() && header_lines(lines)[i] == line;
        section.lemma_filter_pred(not_comment(), i);
        section.lemma_filter_contains_rev(not_comment(), line);
    }
    if section.contains(line) && !is_comment(line) {
        let i = choose|i: int| 0 <= i < section.len() && section[i] == line;
        section.lemma_filter_contains(not_comment(), i);
    }
}

/// Filtering a sequence grown by one element keeps or drops that element.
proof fn lemma_filter_push<T>(s: Seq<T>, x: T, p: spec_fn(T) -> bool)
    ensures
        s.push(x).filter(p) == if p(x) {
            s.filter(p).push(x)
        } else {
            s.filter(p)
        },
{
    reveal(Seq::filter);
    assert(s.push(x).drop_last() == s);
}

/// Reads a request description from its lines.
pub fn parse_lines(lines: &Vec<Vec<char>>) -> (r: Result<HttpSpec, ParseError>)
    ensures
        match r {
            Ok(spec) => parsed_lines(line_views(lines@)) == Ok::<HttpSpecView, ParseErrorView>(
                spec@,
            ),
            Err(e) => parsed_lines(line_views(lines@)) == Err::<HttpSpecView, ParseErrorView>(e@),
        },
{
    let ghost ls = line_views(lines@);
    let mut r: usize = 0;
    while r < lines.len() && (blank_line(lines[r].as_slice()) || comment_line(
        lines[r].as_slice(),
    ))
        invariant
            r <= lines.len(),
            ls == line_views(lines@),
            forall|j: int| 0 <= j < r ==> !significant()(#[trigger] ls[j]),
        decreases lines.len() - r,
    {
        r += 1;
    }
    proof {
        lemma_first_where_is(ls, significant(), r as int);
    }
    if r >= lines.len() {
        return Err(ParseError::MissingRequestLine);
    }
    let (word, after) = take_word(lines[r].as_slice());
    let method = strip_boms(word);
    if method.len() == 0 {
        return Err(ParseError::MissingMethod);
    }
    let (url, _) = take_word(after);
    if url.len() == 0 {
        return Err(ParseError::MissingUrl);
    }
    let ghost rest = ls.skip(r + 1);
    let mut headers: Vec<(String, String)> = Vec::new();
    let mut i: usize = r + 1;
    proof {
        reveal(Seq::filter);
        assert(rest.take(0).filter(not_comment()) == Seq::<Seq<char>>::empty());
    }
    while i < lines.len() && !blank_line(lines[i].as_slice())
        invariant
            r < i <= lines.len(),
            ls == line_views(lines@),
            rest == ls.skip(r + 1),
            request_line_index(ls) == r,
            method_of(ls[r as int]).len() > 0,
            url_of(ls[r as int]).len() > 0,
            forall|j: int| 0 <= j < i - r - 1 ==> !blank()(#[trigger] rest[j]),
            forall|j: int|
                0 <= j < rest.take(i - r - 1).filter(not_comment()).len() ==> !lacks_colon()(
                    #[trigger] rest.take(i - r - 1).filter(not_comment())[j],
                ),
            header_views(headers@) == rest.take(i - r - 1).filter(not_comment()).map_values(
                to_header(),
            ),
        decreases lines.len() - i,
    {
        let raw = lines[i].as_slice();
        let ghost k = i - r - 1;
        let ghost seen = rest.take(k).filter(not_comment());
        proof {
            assert(raw@ == rest[k]);
            assert(rest.take(k + 1) == rest.take(k).push(raw@));
            lemma_filter_push(rest.take(k), raw@, not_comment());
        }
        if !comment_line(raw) {
            let c = find_char(raw, ':');
            if c >= raw.len() {
                proof {
                    lemma_first_where(rest, blank());
                    let b = first_where(rest, blank());
                    if b <= k {
                        assert(!blank()(rest[b]));
                    }
                    let tail = rest.subrange(k + 1, b);
                    assert(rest.take(b) == rest.take(k + 1) + tail);
                    Seq::filter_distributes_over_add(rest.take(k + 1), tail, not_comment());
                    let hl = header_lines(ls);
                    assert(hl == seen.push(raw@) + tail.filter(not_comment()));
                    assert(hl[seen.len() as int] == raw@);
                    assert forall|j: int| 0 <= j < seen.len() implies !lacks_colon()(
                        #[trigger] hl[j],
                    ) by {
                        assert(hl[j] == seen[j]);
                    }
                    lemma_first_where_is(hl, lacks_colon(), seen.len() as int);
                }
                return Err(ParseError::InvalidHeaderLine(from_chars(raw)));
            }
            let name = from_chars(trim(&raw[0..c]));
            let value = from_chars(trim(&raw[c + 1..raw.len()]));
            let ghost before = headers@;
            headers.push((name, value));
            proof {
                assert(raw@.subrange(0, c as int) == raw@.take(c as int));
                assert(raw@.subrange(c + 1, raw.len() as int) == raw@.skip(c + 1));
                assert(header_views(headers@) == header_views(before).push(header_of(raw@)));
                assert(seen.push(raw@).map_values(to_header()) == seen.map_values(
                    to_header(),
                ).push(header_of(raw@)));
                assert forall|j: int| 0 <= j < seen.push(raw@).len() implies !lacks_colon()(
                    #[trigger] seen.push(raw@)[j],
                ) by {
                    if j < seen.len() {
                        assert(seen.push(raw@)[j] == seen[j]);
                    }
                }
            }
        }
        i += 1;
    }
    proof {
        lemma_first_where_is(rest, blank(), i - r - 1);
        let hl = header_lines(ls);
        assert(hl == rest.take(i - r - 1).filter(not_comment()));
        lemma_first_where_is(hl, lacks_colon(), hl.len() as int);
    }
    let lf = to_chars("\n");
    let body = if i < lines.len() && i + 1 < lines.len() {
        let tail = &lines.as_slice()[i + 1..lines.len()];
        proof {
            assert(line_views(tail@) == rest.skip(i - r));
        }
        Some(from_chars(join(tail, lf.as_slice()).as_slice()))
    } else {
        proof {
            if i < lines.len() {
                assert(rest.skip(i - r).len() == 0);
            }
        }
        None
    };
    Ok(HttpSpec { method: from_chars(method), url: from_chars(url), headers, body })
}

/// Reads a request description.
///
/// The first line that is neither blank nor a comment names the method and
/// the URL; the lines after it, up to the first blank line, are headers or
/// comments; the lines after that blank line are the body.
pub fn parse_http_spec(content: &str) -> (r: Result<HttpSpec, ParseError>)
    ensures
        match r {
            Ok(spec) => parsed(content@) == Ok::<HttpSpecView, ParseErrorView>(spec@),
            Err(e) => parsed(content@) == Err::<HttpSpecView, ParseErrorView>(e@),
        },
        r matches Ok(spec) ==> spec.method@.len() > 0 && spec.url@.len() > 0,
{
    let all = to_chars(content);
    let text = if all.len() > 0 && all[0] == BOM {
        &all.as_slice()[1..all.len()]
    } else {
        all.as_slice()
    };
    let crlf = to_chars("\r\n");
    let lf = to_chars("\n");
    let normal = replace_all(text, crlf.as_slice(), lf.as_slice());
    let lines = split_lines(normal.as_slice());
    parse_lines(&lines)
}

/// The names and values of pairs given by the caller.
pub open spec fn given_views(v: Seq<(&str, String)>) -> Seq<(Seq<char>, Seq<char>)> {
    Seq::new(v.len(), |i: int| (v[i].0@, v[i].1@))
}

/// The names and values of pairs taken from the environment.
pub open spec fn ambient_views(v: Seq<(String, String)>) -> Seq<(Seq<char>, Seq<char>)> {
    Seq::new(v.len(), |i: int| (v[i].0@, v[i].1@))
}

/// Builds the variables for one call: the pairs of `base`, then each pair
/// of `env` whose name `base` does not give. Of two pairs of one list with
/// the same name, the earlier holds.
pub fn build_vars_map(base: &[(&str, String)], env: &[(String, String)]) -> (vars: VarMap)
    ensures
        vars@ == first_wins(ambient_views(env@)).union_prefer_right(
            first_wins(given_views(base@)),
        ),
        vars@ == first_wins(given_views(base@) + ambient_views(env@)),
{
    let mut vars = VarMap::new();
    let ghost given = given_views(base@);
    let ghost ambient = ambient_views(env@);
    let mut i: usize = 0;
    while i < base.len()
        invariant
            i <= base.len(),
            given == given_views(base@),
            vars@ == first_wins(given.take(i as int)),
        decreases base.len() - i,
    {
        assert(given.take(i + 1).drop_last() == given.take(i as int));
        vars.insert_if_absent(base[i].0, base[i].1.as_str());
        i += 1;
    }
    assert(given.take(base.len() as int) == given);
    let mut j: usize = 0;
    assert(given + ambient.take(0) == given);
    while j < env.len()
        invariant
            j <= env.len(),
            ambient == ambient_views(env@),
            vars@ == first_wins(given + ambient.take(j as int)),
        decreases env.len() - j,
    {
        assert((given + ambient.take(j + 1)).drop_last() == given + ambient.take(j as int));
        vars.insert_if_absent(env[j].0.as_str(), env[j].1.as_str());
        j += 1;
    }
    proof {
        assert(ambient.take(env.len() as int) == ambient);
        lemma_first_wins_concat(given, ambient);
    }
    vars
}

/// Replaces each placeholder of `input` whose name has a value in `vars`
/// by that value, and leaves the others as they are.
pub fn substitute_vars(input: &str, vars: &VarMap) -> (out: String)
    ensures
        out@ == substituted(input@, vars@),
{
    let text = to_chars(input);
    from_chars(substitute_chars(text.as_slice(), vars).as_slice())
}

/// A request description with the placeholders of its URL, of its header
/// values and of its body replaced.
pub open spec fn resolved(spec: HttpSpecView, vars: Map<Seq<char>, Seq<char>>) -> HttpSpecView {
    HttpSpecView {
        method: spec.method,
        url: substituted(spec.url, vars),
        headers: Seq::new(
            spec.headers.len(),
            |i: int| (spec.headers[i].0, substituted(spec.headers[i].1, vars)),
        ),
        body: match spec.body {
            Some(b) => Some(substituted(b, vars)),
            None => None,
        },
    }
}

/// Substitutes in the URL, in each header's value and in the body. The
/// method and the headers' names stay as they are.
pub fn apply_substitution(spec: HttpSpec, vars: &VarMap) -> (out: HttpSpec)
    ensures
        out@ == resolved(spec@, vars@),
{
    let url = substitute_vars(spec.url.as_str(), vars);
    let mut headers: Vec<(String, String)> = Vec::new();
    let mut i: usize = 0;
    while i < spec.headers.len()
        invariant
            i <= spec.headers@.len(),
            headers@.len() == i,
            forall|j: int|
                0 <= j < i ==> (#[trigger] headers@[j]).0@ == spec.headers@[j].0@
                    && headers@[j].1@ == substituted(spec.headers@[j].1@, vars@),
        decreases spec.headers@.len() - i,
    {
        let name = spec.headers[i].0.clone();
        let value = substitute_vars(spec.headers[i].1.as_str(), vars);
        headers.push((name, value));
        i += 1;
    }
    let body = match &spec.body {
        Some(b) => Some(substitute_vars(b.as_str(), vars)),
        None => None,
    };
    let out = HttpSpec { method: spec.method, url, headers, body };
    assert(out@.headers == resolved(spec@, vars@).headers);
    out
}

/// What a request description states once its placeholders are replaced
/// with the variables of `base` and, where `base` lacks a name, of `env`.
pub open spec fn resolved_template(
    content: Seq<char>,
    base: Seq<(Seq<char>, Seq<char>)>,
    env: Seq<(Seq<char>, Seq<char>)>,
) -> Result<HttpSpecView, ParseErrorView> {
    match parsed(content) {
        Ok(spec) => Ok(resolved(spec, first_wins(base + env))),
        Err(e) => Err(e),
    }
}

/// Reads a request description and replaces its placeholders.
pub fn resolve_template(content: &str, base: &[(&str, String)], env: &[(String, String)]) -> (r:
    Result<HttpSpec, ParseError>)
    ensures
        match r {
            Ok(spec) => resolved_template(content@, given_views(base@), ambient_views(env@))
                == Ok::<HttpSpecView, ParseErrorView>(spec@),
            Err(e) => resolved_template(content@, given_views(base@), ambient_views(env@))
                == Err::<HttpSpecView, ParseErrorView>(e@),
        },
{
    match parse_http_spec(content) {
        Ok(spec) => {
            let vars = build_vars_map(base, env);
            Ok(apply_substitution(spec, &vars))
        },
        Err(e) => Err(e),
    }
}

impl ParseError {
    /// The error in words.
    pub open spec fn message_text(self) -> Seq<char> {
        match self {
            ParseError::MissingRequestLine => ".http file missing request line"@,
            ParseError::MissingMethod => "Missing HTTP method"@,
            ParseError::MissingUrl => "Missing URL"@,
            ParseError::InvalidHeaderLine(line) => "Invalid header line: "@ + line@,
        }
    }

    /// The error in words; for a header line without a colon, with the
    /// line as it was written.
    pub fn message(&self) -> (out: String)
        ensures
            out@ == self.message_text(),
    {
        let mut text: Vec<char> = Vec::new();
        match self {
            ParseError::MissingRequestLine => push_str(&mut text, ".http file missing request line"),
            ParseError::MissingMethod => push_str(&mut text, "Missing HTTP method"),
            ParseError::MissingUrl => push_str(&mut text, "Missing URL"),
            ParseError::InvalidHeaderLine(line) => {
                push_str(&mut text, "Invalid header line: ");
                push_str(&mut text, line.as_str());
            },
        }
        from_chars(text.as_slice())
    }
}

} // verus!
