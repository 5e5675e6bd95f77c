//! Tracks as the scrobbling service reports them.

use vstd::prelude::*;

use crate::chars::{
    decimal, filled_left, find, first_occurrence, from_chars, parse_u32, parsed_u32,
    push_decimal, push_number_filled, push_str, to_chars,
};
use crate::net::string_views;
use crate::http_template::given_views;

verus! {

/// The service's answer to a request for a user's top tracks.
#[derive(Debug)]
pub struct TopTracksResponse {
    pub toptracks: TopTracks,
}

/// The list inside the service's answer.
#[derive(Debug)]
pub struct TopTracks {
    pub track: Vec<Track>,
}

/// One track with the number of times it was played, as the service writes
/// it, and its artist.
#[derive(Debug, Clone)]
pub struct Track {
    pub name: String,
    pub playcount: String,
    pub artist: Artist,
}

/// The artist of a track.
#[derive(Debug, Clone)]
pub struct Artist {
    pub name: String,
}

/// The variables of a request for a user's top tracks.
pub open spec fn top_tracks_pairs(
    username: Seq<char>,
    api_key: Seq<char>,
    period: Seq<char>,
    limit: u32,
) -> Seq<(Seq<char>, Seq<char>)> {
    seq![
        ("USERNAME"@, username),
        ("API_KEY"@, api_key),
        ("PERIOD"@, period),
        ("LIMIT"@, decimal(limit as nat)),
    ]
}

/// The variables of a request for a user's top tracks: `USERNAME`,
/// `API_KEY`, `PERIOD`, and `LIMIT` in decimal notation.
pub fn top_tracks_vars(username: &str, api_key: &str, period: &str, limit: u32) -> (vars: Vec<
    (&'static str, String),
>)
    ensures
        given_views(vars@) == top_tracks_pairs(username@, api_key@, period@, limit),
{
    let mut number: Vec<char> = Vec::new();
    push_decimal(&mut number, limit as u64);
    let mut vars: Vec<(&'static str, String)> = Vec::new();
    vars.push(("USERNAME", from_chars(to_chars(username).as_slice())));
    vars.push(("API_KEY", from_chars(to_chars(api_key).as_slice())));
    vars.push(("PERIOD", from_chars(to_chars(period).as_slice())));
    vars.push(("LIMIT", from_chars(number.as_slice())));
    assert(given_views(vars@) == top_tracks_pairs(username@, api_key@, period@, limit));
    vars
}

/// Whether an answer of the service reports an error: whether the text
/// `"error"`, with its quotation marks, occurs in it.
pub open spec fn reports_error(text: Seq<char>) -> bool {
    first_occurrence(text, "\"error\""@) is Some
}

/// Whether an answer of the service reports an error.
pub fn is_error_payload(text: &str) -> (b: bool)
    ensures
        b == reports_error(text@),
{
    let t = to_chars(text);
    let mark = to_chars("\"error\"");
    find(t.as_slice(), mark.as_slice()).is_some()
}

/// How often a track was played: the number that the service wrote, or 0
/// where it wrote none.
pub open spec fn plays_of(playcount: Seq<char>) -> u32 {
    match parsed_u32(playcount) {
        Some(n) => n,
        None => 0,
    }
}

impl Track {
    /// How often the track was played.
    pub fn play_count(&self) -> (n: u32)
        ensures
            n == plays_of(self.playcount@),
    {
        match parse_u32(to_chars(self.playcount.as_str()).as_slice()) {
            Some(n) => n,
            None => 0,
        }
    }
}

/// A track as it is listed, after its number and a separator: artist,
/// title and plays.
pub open spec fn described(artist: Seq<char>, name: Seq<char>, playcount: Seq<char>) -> Seq<
    char,
> {
    artist + " \u{2014} "@ + name + " ("@ + decimal(plays_of(playcount) as nat) + " plays)"@
}

/// The line that lists a track: its number, filled with a space to two
/// characters, a full stop, and the track.
pub open spec fn listed(number: usize, track: Track) -> Seq<char> {
    filled_left(decimal(number as nat), ' ') + ". "@ + described(
        track.artist.name@,
        track.name@,
        track.playcount@,
    )
}

/// The line that offers a track for picking: its number, filled with a
/// zero to two characters, a bracket, and the track.
pub open spec fn offered(number: usize, track: Track) -> Seq<char> {
    filled_left(decimal(number as nat), '0') + ") "@ + described(
        track.artist.name@,
        track.name@,
        track.playcount@,
    )
}

/// Appends the artist, the title and the plays of `track`.
fn push_described(out: &mut Vec<char>, track: &Track)
    ensures
        final(out)@ == old(out)@ + described(track.artist.name@, track.name@, track.playcount@),
{
    let mut text: Vec<char> = Vec::new();
    push_str(&mut text, track.artist.name.as_str());
    push_str(&mut text, " \u{2014} ");
    push_str(&mut text, track.name.as_str());
    push_str(&mut text, " (");
    push_decimal(&mut text, track.play_count() as u64);
    push_str(&mut text, " plays)");
    assert(text@ == described(track.artist.name@, track.name@, track.playcount@));
    crate::chars::append(out, text.as_slice());
}

/// Writes the line that lists `track` under `number`.
pub fn list_line(number: usize, track: &Track) -> (out: String)
    ensures
        out@ == listed(number, *track),
{
    let mut text: Vec<char> = Vec::new();
    push_number_filled(&mut text, number as u64, ' ');
    push_str(&mut text, ". ");
    push_described(&mut text, track);
    from_chars(text.as_slice())
}

/// Writes the line that offers `track` under `number`.
pub fn offer_line(number: usize, track: &Track) -> (out: String)
    ensures
        out@ == offered(number, *track),
{
    let mut text: Vec<char> = Vec::new();
    push_number_filled(&mut text, number as u64, '0');
    push_str(&mut text, ") ");
    push_described(&mut text, track);
    from_chars(text.as_slice())
}

/// Writes the lines that list `tracks`, numbered from 1.
pub fn list_lines(tracks: &[Track]) -> (out: Vec<String>)
    ensures
        string_views(out@) == Seq::new(tracks@.len(), |i: int| listed((i + 1) as usize, tracks@[i])),
{
    let mut out: Vec<String> = Vec::new();
    let mut i: usize = 0;
    while i < tracks.len()
        invariant
            i <= tracks@.len(),
            string_views(out@) == Seq::new(i as nat, |k: int| listed((k + 1) as usize, tracks@[k])),
        decreases tracks@.len() - i,
    {
        let ghost before = string_views(out@);
        out.push(list_line(i + 1, &tracks[i]));
        assert(string_views(out@) == before.push(listed((i + 1) as usize, tracks@[i as int])));
        i += 1;
    }
    out
}

/// Writes the lines that offer `tracks` for picking, numbered from 1.
pub fn offer_lines(tracks: &[Track]) -> (out: Vec<String>)
    ensures
        string_views(out@) == Seq::new(
            tracks@.len(),
            |i: int| offered((i + 1) as usize, tracks@[i]),
        ),
{
    let mut out: Vec<String> = Vec::new();
    let mut i: usize = 0;
    while i < tracks.len()
        invariant
            i <= tracks@.len(),
            string_views(out@) == Seq::new(
                i as nat,
                |k: int| offered((k + 1) as usize, tracks@[k]),
            ),
        decreases tracks@.len() - i,
    {
        let ghost before = string_views(out@);
        out.push(offer_line(i + 1, &tracks[i]));
        assert(string_views(out@) == before.push(offered((i + 1) as usize, tracks@[i as int])));
        i += 1;
    }
    out
}

/// How many of `available` tracks are taken where the first `asked` are
/// asked for: at least one, and no more than there are.
pub open spec fn taken(asked: usize, available: usize) -> usize {
    let wanted = if asked == 0 {
        1usize
    } else {
        asked
    };
    if wanted > available {
        available
    } else {
        wanted
    }
}

/// Says how many tracks to take where the first `asked` are asked for.
pub fn take_count(asked: usize, available: usize) -> (n: usize)
    ensures
        n == taken(asked, available),
        n <= available,
{
    let wanted = if asked == 0 {
        1
    } else {
        asked
    };
    if wanted > available {
        available
    } else {
        wanted
    }
}

} // verus!
