//! Writing a request down as a description, and the law that the parser
//! reads back what was written.

use vstd::prelude::*;

use crate::chars::{
    is_char, is_space, non_space, occurs_at, replaced, replaced_from, space, trimmed, trimmed_end,
    trimmed_start,
};
use crate::http_template::{
    after_request_line, blank, body_lines, header_lines, header_of, header_section, is_blank,
    is_comment, lacks_colon, method_of, not_bom, not_comment, parsed, parsed_lines, significant,
    source_lines, to_header, url_of, without_bom, HttpSpecView, ParseErrorView, BOM,
};
use crate::lines::{joined, lines_of, without_cr};
use crate::scan::{
    end_of_last_where, first_where, lemma_end_of_last_where, lemma_end_of_last_where_is,
    lemma_first_where, lemma_first_where_is,
};

verus! {

/// The line feed as a separator.
pub open spec fn line_feed() -> Seq<char> {
    seq!['\n']
}

/// A text without line feed and carriage return.
pub open spec fn is_one_line(s: Seq<char>) -> bool {
    forall|i: int| 0 <= i < s.len() ==> #[trigger] s[i] != '\n' && s[i] != '\r'
}

/// Lines that a text can be split into again: each is one line, and the
/// last is not empty.
pub open spec fn are_lines(ls: Seq<Seq<char>>) -> bool {
    &&& forall|i: int| 0 <= i < ls.len() ==> is_one_line(#[trigger] ls[i])
    &&& ls.len() > 0 ==> ls.last().len() > 0
}

/// Joining a line and further lines puts the line first.
pub proof fn lemma_joined_first(x: Seq<char>, rest: Seq<Seq<char>>, sep: Seq<char>)
    ensures
        joined(seq![x] + rest, sep) == if rest.len() == 0 {
            x
        } else {
            x + sep + joined(rest, sep)
        },
    decreases rest.len(),
{
    let all = seq![x] + rest;
    if rest.len() == 0 {
        assert(all == seq![x]);
    } else {
        assert(all.drop_last() == seq![x] + rest.drop_last());
        assert(all.last() == rest.last());
        lemma_joined_first(x, rest.drop_last(), sep);
        if rest.len() == 1 {
            assert(rest.drop_last().len() == 0);
            assert(joined(rest, sep) == rest.last());
        } else {
            assert(joined(all, sep) == x + sep + joined(rest.drop_last(), sep) + sep + rest.last());
            assert(joined(rest, sep) == joined(rest.drop_last(), sep) + sep + rest.last());
            assert(x + sep + joined(rest.drop_last(), sep) + sep + rest.last() == x + sep + (
            joined(rest.drop_last(), sep) + sep + rest.last()));
        }
    }
}

/// Lines joined by line feeds hold no carriage return.
pub proof fn lemma_joined_has_no_cr(ls: Seq<Seq<char>>)
    requires
        forall|i: int| 0 <= i < ls.len() ==> is_one_line(#[trigger] ls[i]),
    ensures
        forall|k: int|
            0 <= k < joined(ls, line_feed()).len() ==> #[trigger] joined(ls, line_feed())[k]
                != '\r',
    decreases ls.len(),
{
    let text = joined(ls, line_feed());
    if ls.len() > 1 {
        let init = ls.drop_last();
        assert forall|i: int| 0 <= i < init.len() implies is_one_line(#[trigger] init[i]) by {
            assert(init[i] == ls[i]);
        }
        lemma_joined_has_no_cr(init);
        let head = joined(init, line_feed());
        let last = ls.last();
        assert(is_one_line(last));
        assert forall|k: int| 0 <= k < text.len() implies #[trigger] text[k] != '\r' by {
            if k < head.len() {
                assert(text[k] == head[k]);
            } else if k > head.len() {
                assert(text[k] == last[k - head.len() - 1]);
            }
        }
    } else if ls.len() == 1 {
        assert(is_one_line(ls[0]));
        assert forall|k: int| 0 <= k < text.len() implies #[trigger] text[k] != '\r' by {
            assert(text[k] == ls[0][k]);
        }
    }
}

/// A text that was joined from lines splits into those lines.
pub proof fn lemma_lines_of_joined(ls: Seq<Seq<char>>)
    requires
        are_lines(ls),
    ensures
        lines_of(joined(ls, line_feed())) == ls,
    decreases ls.len(),
{
    if ls.len() == 0 {
        assert(lines_of(joined(ls, line_feed())) == ls);
    } else {
        let x = ls[0];
        let rest = ls.drop_first();
        assert(ls == seq![x] + rest);
        lemma_joined_first(x, rest, line_feed());
        let text = joined(ls, line_feed());
        assert(is_one_line(x));
        if rest.len() == 0 {
            assert(text == x);
            assert(ls.last() == x);
            lemma_first_where_is(x, is_char('\n'), x.len() as int);
            assert(lines_of(text) == seq![x]);
        } else {
            let tail = joined(rest, line_feed());
            assert(text == x + line_feed() + tail);
            assert forall|j: int| 0 <= j < x.len() implies !is_char('\n')(#[trigger] text[j]) by {
                assert(text[j] == x[j]);
            }
            assert(text[x.len() as int] == '\n');
            lemma_first_where_is(text, is_char('\n'), x.len() as int);
            assert(text.take(x.len() as int) == x);
            assert(text.skip(x.len() as int + 1) == tail);
            if x.len() > 0 {
                assert(x[x.len() - 1] != '\r');
            }
            assert(without_cr(x) == x);
            assert forall|i: int| 0 <= i < rest.len() implies is_one_line(#[trigger] rest[i]) by {
                assert(rest[i] == ls[i + 1]);
            }
            assert(rest.last() == ls.last());
            lemma_lines_of_joined(rest);
            assert(lines_of(text) == seq![x] + lines_of(tail));
        }
    }
}

/// Where the pattern occurs nowhere, nothing is replaced.
pub proof fn lemma_replaced_without_occurrence(s: Seq<char>, pat: Seq<char>, with: Seq<char>)
    requires
        forall|i: int| !occurs_at(s, pat, i),
    ensures
        replaced(s, pat, with) == s,
{
    lemma_replaced_tail(s, pat, with, 0);
    assert(s.skip(0) == s);
}

proof fn lemma_replaced_tail(s: Seq<char>, pat: Seq<char>, with: Seq<char>, i: int)
    requires
        0 <= i <= s.len(),
        forall|j: int| !occurs_at(s, pat, j),
    ensures
        replaced_from(s, pat, with, i) == s.skip(i),
    decreases s.len() - i,
{
    if i < s.len() {
        lemma_replaced_tail(s, pat, with, i + 1);
        assert(s.skip(i) == seq![s[i]] + s.skip(i + 1));
    } else {
        assert(s.skip(i) == Seq::<char>::empty());
    }
}

/// A text that starts and ends with characters that are no white space,
/// or is empty.
pub open spec fn is_trimmed(s: Seq<char>) -> bool {
    s.len() > 0 ==> !is_space(s[0]) && !is_space(s.last())
}

/// Trimming leaves a trimmed text as it is.
pub proof fn lemma_trimmed_is_fixed(s: Seq<char>)
    requires
        is_trimmed(s),
    ensures
        trimmed_start(s) == s,
        trimmed_end(s) == s,
        trimmed(s) == s,
{
    if s.len() > 0 {
        lemma_first_where_is(s, non_space(), 0);
        lemma_end_of_last_where_is(s, non_space(), s.len() as int);
    } else {
        lemma_first_where_is(s, non_space(), 0);
        lemma_end_of_last_where_is(s, non_space(), 0);
    }
    assert(s.skip(0) == s);
    assert(s.take(s.len() as int) == s);
}

/// A text that holds a character that is no white space is not blank.
pub proof fn lemma_not_blank(s: Seq<char>, k: int)
    requires
        0 <= k < s.len(),
        !is_space(s[k]),
    ensures
        trimmed(s).len() > 0,
{
    lemma_first_where(s, non_space());
    let f = first_where(s, non_space());
    if f > k {
        assert(!non_space()(s[k]));
    }
    let t = s.skip(f);
    assert(t[0] == s[f]);
    lemma_end_of_last_where(t, non_space());
    let e = end_of_last_where(t, non_space());
    if e == 0 {
        assert(!non_space()(t[0]));
    }
}

/// A word: not empty and free of white space.
pub open spec fn is_word(w: Seq<char>) -> bool {
    &&& w.len() > 0
    &&& forall|i: int| 0 <= i < w.len() ==> !is_space(#[trigger] w[i])
}

/// The request line that names `method` and `url`.
pub open spec fn request_text(method: Seq<char>, url: Seq<char>) -> Seq<char> {
    method + seq![' '] + url
}

/// The header line of a name and a value.
pub open spec fn header_text(h: (Seq<char>, Seq<char>)) -> Seq<char> {
    h.0 + seq![':', ' '] + h.1
}

/// `header_text` as a function value.
pub open spec fn to_header_text() -> spec_fn((Seq<char>, Seq<char>)) -> Seq<char> {
    |h: (Seq<char>, Seq<char>)| header_text(h)
}

/// A name and a value that a header line can carry: each is one line and
/// trimmed, and the name holds no colon and does not start with `#`.
pub open spec fn is_header_pair(h: (Seq<char>, Seq<char>)) -> bool {
    &&& is_one_line(h.0)
    &&& is_one_line(h.1)
    &&& is_trimmed(h.0)
    &&& is_trimmed(h.1)
    &&& forall|i: int| 0 <= i < h.0.len() ==> #[trigger] h.0[i] != ':'
    &&& h.0.len() > 0 ==> h.0[0] != '#'
}

/// A request line is read as the method and the URL it names.
pub proof fn lemma_request_text_is_read(method: Seq<char>, url: Seq<char>)
    requires
        is_word(method),
        method[0] != '#',
        method[0] != BOM,
        is_word(url),
    ensures
        significant()(request_text(method, url)),
        method_of(request_text(method, url)) == method,
        url_of(request_text(method, url)) == url,
        is_one_line(request_text(method, url)),
        request_text(method, url).len() > 0,
        request_text(method, url)[0] == method[0],
{
    let x = request_text(method, url);
    let m = method.len() as int;
    assert(x[0] == method[0]);
    assert(x.last() == url.last());
    assert(!is_space(method[0]));
    assert(!is_space(url[url.len() - 1]));
    lemma_trimmed_is_fixed(x);
    assert forall|j: int| 0 <= j < m implies !space()(#[trigger] x[j]) by {
        assert(x[j] == method[j]);
    }
    assert(x[m] == ' ');
    lemma_first_where_is(x, space(), m);
    assert(x.take(m) == method);
    lemma_first_where_is(method, not_bom(), 0);
    assert(method.skip(0) == method);
    let after = x.skip(m);
    assert(after == seq![' '] + url);
    assert(after[1] == url[0]);
    assert(!is_space(url[0]));
    lemma_first_where_is(after, non_space(), 1);
    assert(after.skip(1) == url);
    lemma_first_where_is(url, space(), url.len() as int);
    assert(url.take(url.len() as int) == url);
    assert forall|i: int| 0 <= i < x.len() implies #[trigger] x[i] != '\n' && x[i] != '\r' by {
        if i < m {
            assert(x[i] == method[i]);
            assert(!is_space(method[i]));
        } else if i > m {
            assert(x[i] == url[i - m - 1]);
            assert(!is_space(url[i - m - 1]));
        }
    }
}

/// A header line is read as the name and the value it carries.
pub proof fn lemma_header_text_is_read(h: (Seq<char>, Seq<char>))
    requires
        is_header_pair(h),
    ensures
        !is_blank(header_text(h)),
        !is_comment(header_text(h)),
        !lacks_colon()(header_text(h)),
        header_of(header_text(h)) == h,
        is_one_line(header_text(h)),
        header_text(h).len() > 0,
{
    let t = header_text(h);
    let n = h.0.len() as int;
    assert(t[n] == ':');
    lemma_not_blank(t, n);
    assert forall|j: int| 0 <= j < n implies !is_char(':')(#[trigger] t[j]) by {
        assert(t[j] == h.0[j]);
    }
    lemma_first_where_is(t, is_char(':'), n);
    assert(!is_space(t[0])) by {
        if n > 0 {
            assert(t[0] == h.0[0]);
        }
    }
    lemma_first_where_is(t, non_space(), 0);
    assert(t.skip(0) == t);
    assert(t[0] != '#') by {
        if n > 0 {
            assert(t[0] == h.0[0]);
        }
    }
    assert(t.take(n) == h.0);
    lemma_trimmed_is_fixed(h.0);
    let after = t.skip(n + 1);
    assert(after == seq![' '] + h.1);
    if h.1.len() > 0 {
        assert(after[1] == h.1[0]);
        lemma_first_where_is(after, non_space(), 1);
    } else {
        lemma_first_where_is(after, non_space(), 1);
    }
    assert(after.skip(1) == h.1);
    lemma_trimmed_is_fixed(h.1);
    assert forall|i: int| 0 <= i < t.len() implies #[trigger] t[i] != '\n' && t[i] != '\r' by {
        if i < n {
            assert(t[i] == h.0[i]);
        } else if i > n + 1 {
            assert(t[i] == h.1[i - n - 2]);
        }
    }
}

/// The lines that a body adds to a description: a blank line and the
/// lines of the body; nothing for no body.
pub open spec fn body_part(body: Seq<Seq<char>>) -> Seq<Seq<char>> {
    if body.len() > 0 {
        seq![Seq::<char>::empty()] + body
    } else {
        Seq::empty()
    }
}

/// The lines of the description of a request: the request line, one line
/// for each header, and, where there is a body, a blank line and the lines
/// of the body.
pub open spec fn written_lines(
    method: Seq<char>,
    url: Seq<char>,
    headers: Seq<(Seq<char>, Seq<char>)>,
    body: Seq<Seq<char>>,
) -> Seq<Seq<char>> {
    seq![request_text(method, url)] + headers.map_values(to_header_text()) + body_part(body)
}

/// The description of a request.
pub open spec fn written(
    method: Seq<char>,
    url: Seq<char>,
    headers: Seq<(Seq<char>, Seq<char>)>,
    body: Seq<Seq<char>>,
) -> Seq<char> {
    joined(written_lines(method, url, headers, body), line_feed())
}

/// What can be written down as a description: a method and a URL that are
/// words, the method starting with neither `#` nor a byte-order mark;
/// headers that header lines can carry; and the lines of a body, of which
/// the last is not empty.
pub open spec fn can_be_written(
    method: Seq<char>,
    url: Seq<char>,
    headers: Seq<(Seq<char>, Seq<char>)>,
    body: Seq<Seq<char>>,
) -> bool {
    &&& is_word(method)
    &&& method[0] != '#'
    &&& method[0] != BOM
    &&& is_word(url)
    &&& forall|i: int| 0 <= i < headers.len() ==> is_header_pair(#[trigger] headers[i])
    &&& are_lines(body)
}

/// The request that the lines of a description state.
pub open spec fn stated(
    method: Seq<char>,
    url: Seq<char>,
    headers: Seq<(Seq<char>, Seq<char>)>,
    body: Seq<Seq<char>>,
) -> HttpSpecView {
    HttpSpecView {
        method,
        url,
        headers,
        body: if body.len() > 0 {
            Some(joined(body, line_feed()))
        } else {
            None
        },
    }
}

/// A filter that every element passes keeps the sequence.
proof fn lemma_filter_all<T>(s: Seq<T>, p: spec_fn(T) -> bool)
    requires
        forall|i: int| 0 <= i < s.len() ==> p(#[trigger] s[i]),
    ensures
        s.filter(p) == s,
    decreases s.len(),
{
    reveal(Seq::filter);
    if s.len() > 0 {
        assert forall|i: int| 0 <= i < s.drop_last().len() implies p(
            #[trigger] s.drop_last()[i],
        ) by {
            assert(s.drop_last()[i] == s[i]);
        }
        lemma_filter_all(s.drop_last(), p);
        assert(s.drop_last().push(s.last()) == s);
    }
}

/// The lines of a written description are read as the request that was
/// written.
pub proof fn lemma_written_lines_are_read(
    method: Seq<char>,
    url: Seq<char>,
    headers: Seq<(Seq<char>, Seq<char>)>,
    body: Seq<Seq<char>>,
)
    requires
        can_be_written(method, url, headers, body),
    ensures
        parsed_lines(written_lines(method, url, headers, body)) == Ok::<
            HttpSpecView,
            ParseErrorView,
        >(stated(method, url, headers, body)),
{
    let lines = written_lines(method, url, headers, body);
    let texts = headers.map_values(to_header_text());
    let n = headers.len() as int;
    lemma_request_text_is_read(method, url);
    assert(lines[0] == request_text(method, url));
    lemma_first_where_is(lines, significant(), 0);
    let rest = after_request_line(lines);
    assert(rest == texts + body_part(body));
    assert forall|j: int| 0 <= j < n implies !blank()(#[trigger] rest[j]) by {
        assert(rest[j] == header_text(headers[j]));
        lemma_header_text_is_read(headers[j]);
    }
    if body.len() > 0 {
        assert(rest[n] == Seq::<char>::empty());
        lemma_first_where_is(Seq::<char>::empty(), non_space(), 0);
        lemma_end_of_last_where_is(Seq::<char>::empty().skip(0), non_space(), 0);
        assert(is_blank(rest[n]));
    }
    lemma_first_where_is(rest, blank(), n);
    let section = header_section(lines);
    assert(section == texts);
    assert forall|j: int| 0 <= j < texts.len() implies not_comment()(#[trigger] texts[j]) by {
        lemma_header_text_is_read(headers[j]);
    }
    lemma_filter_all(texts, not_comment());
    let hl = header_lines(lines);
    assert(hl == texts);
    assert forall|j: int| 0 <= j < hl.len() implies !lacks_colon()(#[trigger] hl[j]) by {
        lemma_header_text_is_read(headers[j]);
    }
    lemma_first_where_is(hl, lacks_colon(), n);
    assert(hl.map_values(to_header()) == headers) by {
        assert forall|j: int| 0 <= j < n implies hl.map_values(to_header())[j] == headers[j] by {
            lemma_header_text_is_read(headers[j]);
        }
    }
    reveal_strlit("\n");
    assert("\n"@ == line_feed());
    if body.len() > 0 {
        assert(body_lines(lines) == body) by {
            assert(rest.skip(n + 1) == body);
        }
    } else {
        assert(body_lines(lines).len() == 0);
    }
}

/// What is written down is read back: a description that states a
/// method, a URL, headers and a body is parsed to just those, every header
/// at its place and with its own name and value.
pub proof fn lemma_written_is_read(
    method: Seq<char>,
    url: Seq<char>,
    headers: Seq<(Seq<char>, Seq<char>)>,
    body: Seq<Seq<char>>,
)
    requires
        can_be_written(method, url, headers, body),
    ensures
        parsed(written(method, url, headers, body)) == Ok::<HttpSpecView, ParseErrorView>(
            stated(method, url, headers, body),
        ),
{
    let lines = written_lines(method, url, headers, body);
    let text = written(method, url, headers, body);
    let texts = headers.map_values(to_header_text());
    lemma_request_text_is_read(method, url);
    assert forall|i: int| 0 <= i < lines.len() implies is_one_line(#[trigger] lines[i]) by {
        if i == 0 {
        } else if i <= headers.len() {
            assert(lines[i] == header_text(headers[i - 1]));
            lemma_header_text_is_read(headers[i - 1]);
        } else if i == headers.len() + 1 {
            assert(lines[i] == Seq::<char>::empty());
        } else {
            assert(lines[i] == body[i - headers.len() - 2]);
        }
    }
    assert(lines.last().len() > 0) by {
        if body.len() > 0 {
            assert(lines.last() == body.last());
        } else if headers.len() > 0 {
            assert(lines.last() == header_text(headers[headers.len() - 1]));
            lemma_header_text_is_read(headers[headers.len() - 1]);
        } else {
            assert(lines.last() == request_text(method, url));
        }
    }
    lemma_lines_of_joined(lines);
    lemma_joined_has_no_cr(lines);
    assert(lines == seq![request_text(method, url)] + (texts + body_part(body)));
    lemma_joined_first(request_text(method, url), texts + body_part(body), line_feed());
    assert(text[0] == method[0]);
    assert(without_bom(text) == text);
    reveal_strlit("\r\n");
    assert forall|i: int| !occurs_at(text, "\r\n"@, i) by {
        if occurs_at(text, "\r\n"@, i) {
            assert(text.subrange(i, i + 2)[0] == '\r');
            assert(text[i] == '\r');
        }
    }
    lemma_replaced_without_occurrence(text, "\r\n"@, "\n"@);
    assert(source_lines(text) == lines);
    lemma_written_lines_are_read(method, url, headers, body);
}

} // verus!
