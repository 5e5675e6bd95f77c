//! What the command line gives: the time window over which top tracks are
//! counted, and the options.

use vstd::prelude::*;

use crate::chars::text_eq;

verus! {

/// A time window that the scrobbling service can rank tracks over.
#[derive(Debug, Clone, Copy, PartialEq, Eq, Structural)]
pub enum Period {
    Overall,
    SevenDay,
    OneMonth,
    ThreeMonth,
    SixMonth,
    TwelveMonth,
}

impl Period {
    /// The word by which the service knows this window.
    pub open spec fn api_value(self) -> Seq<char> {
        match self {
            Period::Overall => "overall"@,
            Period::SevenDay => "7day"@,
            Period::OneMonth => "1month"@,
            Period::ThreeMonth => "3month"@,
            Period::SixMonth => "6month"@,
            Period::TwelveMonth => "12month"@,
        }
    }

    /// The word by which the service knows this window.
    pub fn as_api_value(&self) -> (word: &'static str)
        ensures
            word@ == self.api_value(),
    {
        match self {
            Period::Overall => "overall",
            Period::SevenDay => "7day",
            Period::OneMonth => "1month",
            Period::ThreeMonth => "3month",
            Period::SixMonth => "6month",
            Period::TwelveMonth => "12month",
        }
    }
}

/// The window that the service knows by `word`, if there is one.
pub open spec fn period_of(word: Seq<char>) -> Option<Period> {
    if word == "overall"@ {
        Some(Period::Overall)
    } else if word == "7day"@ {
        Some(Period::SevenDay)
    } else if word == "1month"@ {
        Some(Period::OneMonth)
    } else if word == "3month"@ {
        Some(Period::ThreeMonth)
    } else if word == "6month"@ {
        Some(Period::SixMonth)
    } else if word == "12month"@ {
        Some(Period::TwelveMonth)
    } else {
        None
    }
}

/// Reads a window from the word by which the service knows it.
pub fn period_from_word(word: &str) -> (r: Option<Period>)
    ensures
        r == period_of(word@),
{
    if text_eq(word, "overall") {
        Some(Period::Overall)
    } else if text_eq(word, "7day") {
        Some(Period::SevenDay)
    } else if text_eq(word, "1month") {
        Some(Period::OneMonth)
    } else if text_eq(word, "3month") {
        Some(Period::ThreeMonth)
    } else if text_eq(word, "6month") {
        Some(Period::SixMonth)
    } else if text_eq(word, "12month") {
        Some(Period::TwelveMonth)
    } else {
        None
    }
}

/// A window is read back from its own word.
pub proof fn lemma_period_word_round_trip(p: Period)
    ensures
        period_of(p.api_value()) == Some(p),
{
    reveal_strlit("overall");
    reveal_strlit("7day");
    reveal_strlit("1month");
    reveal_strlit("3month");
    reveal_strlit("6month");
    reveal_strlit("12month");
    assert("overall"@[0] == 'o');
    assert("7day"@[0] == '7');
    assert("1month"@[0] == '1');
    assert("3month"@[0] == '3');
    assert("6month"@[0] == '6');
    assert("12month"@[0] == '1');
    assert("1month"@.len() == 6);
    assert("12month"@.len() == 7);
}

/// The options of the command line.
#[derive(Debug)]
pub struct Cli {
    /// Write an example configuration and stop.
    pub generate_config: bool,
    /// Write request templates and stop: `ALL`, or the name of one.
    pub generate_http: Option<String>,
    pub username: Option<String>,
    pub api_key: Option<String>,
    pub period: Option<Period>,
    /// The number of top tracks to fetch.
    pub limit: u32,
    /// Show the tracks and stop.
    pub query: bool,
    /// Take the first tracks without asking: how many.
    pub select: Option<usize>,
    /// The format of one entry, with `{artist}`, `{track}`, `{playcount}`.
    pub format: String,
    /// What stands between two entries.
    pub join: String,
    pub prefix: String,
    pub suffix: String,
    pub strip_feat: bool,
    pub strip_feat_regex: Option<String>,
    pub copy: bool,
    pub discord_token: Option<String>,
    pub discord_bio_regex: String,
    pub update_discord: bool,
    pub discord_dry_run: bool,
    pub debug: bool,
}

} // verus!
