//! Rendering a track with a format, and reading backslash escapes.

use vstd::prelude::*;

use crate::chars::{append, from_chars, push_str, replace_all, replaced, to_chars};
use crate::lastfm::Track;
use crate::lines::{join, joined, line_views};
use crate::net::string_views;
use crate::text::{strip_title, stripped_title};

verus! {

/// `tpl` with `{artist}` replaced by the artist's name, then `{track}` by
/// the track's name, then `{playcount}` by the play count.
pub open spec fn rendered(
    tpl: Seq<char>,
    artist: Seq<char>,
    track: Seq<char>,
    playcount: Seq<char>,
) -> Seq<char> {
    replaced(
        replaced(replaced(tpl, "{artist}"@, artist), "{track}"@, track),
        "{playcount}"@,
        playcount,
    )
}

/// Renders one track with the format `tpl`.
pub fn render_template(tpl: &str, track: &Track) -> (out: String)
    ensures
        out@ == rendered(tpl@, track.artist.name@, track.name@, track.playcount@),
{
    render_parts(tpl, track.artist.name.as_str(), track.name.as_str(), track.playcount.as_str())
}

/// Renders a track, given by its parts, with the format `tpl`.
fn render_parts(tpl: &str, artist: &str, name: &str, playcount: &str) -> (out: String)
    ensures
        out@ == rendered(tpl@, artist@, name@, playcount@),
{
    let text = to_chars(tpl);
    let artist = to_chars(artist);
    let name = to_chars(name);
    let playcount = to_chars(playcount);
    let a = replace_all(text.as_slice(), to_chars("{artist}").as_slice(), artist.as_slice());
    let b = replace_all(a.as_slice(), to_chars("{track}").as_slice(), name.as_slice());
    let c = replace_all(b.as_slice(), to_chars("{playcount}").as_slice(), playcount.as_slice());
    from_chars(c.as_slice())
}

/// What a backslash and the character `c` after it stand for. An escape
/// that is not known stands for itself.
pub open spec fn escape_of(c: char) -> Seq<char> {
    if c == 'n' {
        seq!['\n']
    } else if c == 'r' {
        seq!['\r']
    } else if c == 't' {
        seq!['\t']
    } else if c == '0' {
        seq!['\0']
    } else if c == '\\' {
        seq!['\\']
    } else if c == '"' {
        seq!['"']
    } else if c == '\'' {
        seq!['\'']
    } else {
        seq!['\\', c]
    }
}

/// `s` from index `i` on, with each escape replaced by what it stands
/// for. A backslash at the very end stays.
pub open spec fn unescaped_from(s: Seq<char>, i: int) -> Seq<char>
    decreases s.len() - i,
{
    if i < 0 || i >= s.len() {
        Seq::empty()
    } else if s[i] != '\\' {
        seq![s[i]] + unescaped_from(s, i + 1)
    } else if i + 1 >= s.len() {
        seq!['\\']
    } else {
        escape_of(s[i + 1]) + unescaped_from(s, i + 2)
    }
}

/// `s` with each escape replaced by what it stands for.
pub open spec fn unescaped(s: Seq<char>) -> Seq<char> {
    unescaped_from(s, 0)
}

/// Reads the escapes `\n`, `\r`, `\t`, `\0`, `\\`, `\"` and `\'`.
pub fn interpret_escapes(input: &str) -> (out: String)
    ensures
        out@ == unescaped(input@),
{
    let s = to_chars(input);
    let mut out: Vec<char> = Vec::new();
    let mut i: usize = 0;
    while i < s.len()
        invariant
            i <= s.len(),
            unescaped(s@) == out@ + unescaped_from(s@, i as int),
        decreases s.len() - i,
    {
        let c = s[i];
        if c != '\\' {
            out.push(c);
            i += 1;
        } else if i + 1 >= s.len() {
            out.push('\\');
            assert(unescaped_from(s@, i + 1) == Seq::<char>::empty());
            i += 1;
        } else {
            let e = s[i + 1];
            let ghost before = out@;
            if e == 'n' {
                out.push('\n');
            } else if e == 'r' {
                out.push('\r');
            } else if e == 't' {
                out.push('\t');
            } else if e == '0' {
                out.push('\0');
            } else if e == '\\' {
                out.push('\\');
            } else if e == '"' {
                out.push('"');
            } else if e == '\'' {
                out.push('\'');
            } else {
                out.push('\\');
                out.push(e);
            }
            assert(out@ == before + escape_of(e));
            i += 2;
        }
    }
    from_chars(out.as_slice())
}

/// The title of an entry: the track's, cleaned where that is asked for.
pub open spec fn entry_title(name: Seq<char>, strip_feat: bool, custom: Option<Seq<char>>) -> Seq<
    char,
> {
    if strip_feat {
        stripped_title(name, custom)
    } else {
        name
    }
}

/// The entry of a track: the track rendered with its title cleaned where
/// that is asked for.
pub open spec fn entry_of(
    track: Track,
    format: Seq<char>,
    strip_feat: bool,
    custom: Option<Seq<char>>,
) -> Seq<char> {
    rendered(
        format,
        track.artist.name@,
        entry_title(track.name@, strip_feat, custom),
        track.playcount@,
    )
}

/// Renders the entry of one track.
pub fn render_entry(track: &Track, format: &str, strip_feat: bool, custom_regex: Option<&str>) -> (out:
    String)
    ensures
        out@ == entry_of(
            *track,
            format@,
            strip_feat,
            match custom_regex {
                Some(p) => Some(p@),
                None => None,
            },
        ),
{
    if strip_feat {
        let title = strip_title(track.name.as_str(), custom_regex);
        render_parts(
            format,
            track.artist.name.as_str(),
            title.as_str(),
            track.playcount.as_str(),
        )
    } else {
        render_template(format, track)
    }
}

/// The bio line: the entries joined, between prefix and suffix; escapes
/// are read in the joiner, the prefix and the suffix.
pub open spec fn bio_line(
    entries: Seq<Seq<char>>,
    joiner: Seq<char>,
    prefix: Seq<char>,
    suffix: Seq<char>,
) -> Seq<char> {
    unescaped(prefix) + joined(entries, unescaped(joiner)) + unescaped(suffix)
}

/// Puts the entries together to the bio line.
pub fn compose(entries: &[String], joiner: &str, prefix: &str, suffix: &str) -> (out: String)
    ensures
        out@ == bio_line(string_views(entries@), joiner@, prefix@, suffix@),
{
    let mut lines: Vec<Vec<char>> = Vec::new();
    let mut i: usize = 0;
    while i < entries.len()
        invariant
            i <= entries@.len(),
            line_views(lines@) == string_views(entries@).take(i as int),
        decreases entries@.len() - i,
    {
        let ghost before = line_views(lines@);
        lines.push(to_chars(entries[i].as_str()));
        assert(line_views(lines@) == before.push(entries@[i as int]@));
        i += 1;
    }
    assert(string_views(entries@).take(entries@.len() as int) == string_views(entries@));
    let sep = to_chars(interpret_escapes(joiner).as_str());
    let list = join(lines.as_slice(), sep.as_slice());
    let mut out: Vec<char> = Vec::new();
    push_str(&mut out, interpret_escapes(prefix).as_str());
    append(&mut out, list.as_slice());
    push_str(&mut out, interpret_escapes(suffix).as_str());
    from_chars(out.as_slice())
}

} // verus!
