//! The request descriptions that are written out as a start for the
//! user's own.

use vstd::prelude::*;

use crate::chars::{lower, lowered, same, text_eq, to_chars};

verus! {

/// The name of the description of the request for top tracks.
pub const TOP_TRACKS_FILE: &'static str = "lastfm_top_tracks.http";

/// The name of the description of the request for the profile.
pub const PROFILE_FILE: &'static str = "discord_get_me.http";

/// The name of the description of the request that updates the profile.
pub const UPDATE_FILE: &'static str = "discord_patch_bio.http";

/// The description of the request for top tracks.
pub const TOP_TRACKS_TEMPLATE: &'static str =
    "GET https://ws.audioscrobbler.com/2.0/?method=user.gettoptracks&user={{USERNAME}}&period={{PERIOD}}&api_key={{API_KEY}}&format=json&limit={{LIMIT}}\n";

/// The description of the request for the profile.
pub const PROFILE_TEMPLATE: &'static str =
    "GET https://discord.com/api/v10/users/@me\nAuthorization: {{DISCORD_TOKEN}}\n";

/// The description of the request that updates the profile.
pub const UPDATE_TEMPLATE: &'static str =
    "PATCH https://discord.com/api/v9/users/@me/profile\nContent-Type: application/json\nAuthorization: {{DISCORD_TOKEN}}\n\n{\n  \"bio\": \"{{NEW_BIO}}\"\n}\n";

/// The files that `which` asks for, each with its content: all three for
/// `all` in any case, one for its name with or without `.http`, none for
/// any other word.
pub open spec fn targets_of(which: Seq<char>) -> Option<Seq<(Seq<char>, Seq<char>)>> {
    if lowered(which) == "all"@ {
        Some(
            seq![
                (TOP_TRACKS_FILE@, TOP_TRACKS_TEMPLATE@),
                (PROFILE_FILE@, PROFILE_TEMPLATE@),
                (UPDATE_FILE@, UPDATE_TEMPLATE@),
            ],
        )
    } else if which == "lastfm_top_tracks"@ || which == TOP_TRACKS_FILE@ {
        Some(seq![(TOP_TRACKS_FILE@, TOP_TRACKS_TEMPLATE@)])
    } else if which == "discord_get_me"@ || which == PROFILE_FILE@ {
        Some(seq![(PROFILE_FILE@, PROFILE_TEMPLATE@)])
    } else if which == "discord_patch_bio"@ || which == UPDATE_FILE@ {
        Some(seq![(UPDATE_FILE@, UPDATE_TEMPLATE@)])
    } else {
        None
    }
}

/// The names and contents of files, as character sequences.
pub open spec fn file_views(files: Seq<(&'static str, &'static str)>) -> Seq<
    (Seq<char>, Seq<char>),
> {
    Seq::new(files.len(), |i: int| (files[i].0@, files[i].1@))
}

/// Says which request descriptions to write out.
pub fn template_targets(which: &str) -> (r: Option<Vec<(&'static str, &'static str)>>)
    ensures
        match r {
            Some(files) => targets_of(which@) == Some(file_views(files@)),
            None => targets_of(which@) is None,
        },
{
    let mut files: Vec<(&'static str, &'static str)> = Vec::new();
    let l = lower(to_chars(which).as_slice());
    if same(l.as_slice(), to_chars("all").as_slice()) {
        files.push((TOP_TRACKS_FILE, TOP_TRACKS_TEMPLATE));
        files.push((PROFILE_FILE, PROFILE_TEMPLATE));
        files.push((UPDATE_FILE, UPDATE_TEMPLATE));
    } else if text_eq(which, "lastfm_top_tracks") || text_eq(which, TOP_TRACKS_FILE) {
        files.push((TOP_TRACKS_FILE, TOP_TRACKS_TEMPLATE));
    } else if text_eq(which, "discord_get_me") || text_eq(which, PROFILE_FILE) {
        files.push((PROFILE_FILE, PROFILE_TEMPLATE));
    } else if text_eq(which, "discord_patch_bio") || text_eq(which, UPDATE_FILE) {
        files.push((UPDATE_FILE, UPDATE_TEMPLATE));
    } else {
        return None;
    }
    assert(targets_of(which@) == Some(file_views(files@)));
    Some(files)
}

} // verus!
