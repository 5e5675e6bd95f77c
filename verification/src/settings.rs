//! The settings of one run, from the command line, the environment and
//! the configuration.

use vstd::prelude::*;
use vstd::utf8::{decode_utf8, encode_utf8, is_char_boundary};

use crate::chars::{decimal, from_chars, push_decimal, push_str, text_eq, text_of, to_chars};
use crate::net::string_views;
use crate::cli::{period_from_word, period_of, Cli, Period};
use crate::config::{nothing_set, opt_view, Config, ConfigView};

verus! {

/// The number of tracks that is fetched where nothing else is asked for.
pub const DEFAULT_LIMIT: u32 = 10;

/// The format of an entry where nothing else is asked for.
pub const DEFAULT_FORMAT: &'static str = "  - {artist} - {track}";

/// What stands between entries where nothing else is asked for.
pub const DEFAULT_JOIN: &'static str = "\n";

/// The pattern that finds the section of the profile where nothing else is
/// asked for.
pub const DEFAULT_BIO_PATTERN: &'static str = r"/\*\*[\w ]+\*\*:?\r?(\n[ \w-]+)+\n/";

/// The settings of one run.
#[derive(Debug)]
pub struct Settings {
    pub api_key: String,
    pub username: String,
    pub period: Period,
    pub limit: u32,
    pub select: Option<usize>,
    pub format: String,
    pub join: String,
    pub prefix: String,
    pub suffix: String,
    pub strip_feat: bool,
    pub strip_feat_regex: Option<String>,
    pub copy: bool,
    pub debug: bool,
    pub discord_bio_regex: String,
    pub update_discord: bool,
    pub discord_dry_run: bool,
    pub discord_token: Option<String>,
}

/// What a `Settings` holds, with texts as character sequences.
pub struct SettingsView {
    pub api_key: Seq<char>,
    pub username: Seq<char>,
    pub period: Period,
    pub limit: u32,
    pub select: Option<usize>,
    pub format: Seq<char>,
    pub join: Seq<char>,
    pub prefix: Seq<char>,
    pub suffix: Seq<char>,
    pub strip_feat: bool,
    pub strip_feat_regex: Option<Seq<char>>,
    pub copy: bool,
    pub debug: bool,
    pub discord_bio_regex: Seq<char>,
    pub update_discord: bool,
    pub discord_dry_run: bool,
    pub discord_token: Option<Seq<char>>,
}

impl View for Settings {
    type V = SettingsView;

    open spec fn view(&self) -> SettingsView {
        SettingsView {
            api_key: self.api_key@,
            username: self.username@,
            period: self.period,
            limit: self.limit,
            select: self.select,
            format: self.format@,
            join: self.join@,
            prefix: self.prefix@,
            suffix: self.suffix@,
            strip_feat: self.strip_feat,
            strip_feat_regex: opt_view(self.strip_feat_regex),
            copy: self.copy,
            debug: self.debug,
            discord_bio_regex: self.discord_bio_regex@,
            update_discord: self.update_discord,
            discord_dry_run: self.discord_dry_run,
            discord_token: opt_view(self.discord_token),
        }
    }
}

/// What is missing for a run.
#[derive(Debug, Clone, Copy, PartialEq, Eq, Structural)]
pub enum SettingsError {
    MissingApiKey,
    MissingUsername,
}

/// What a configuration gives; nothing where there is none.
pub open spec fn given(cfg: Option<Config>) -> ConfigView {
    match cfg {
        Some(c) => c@,
        None => nothing_set(),
    }
}

/// The first of two optional values that is there.
pub open spec fn first_of<T>(a: Option<T>, b: Option<T>) -> Option<T> {
    if a is Some {
        a
    } else {
        b
    }
}

/// A text of the command line, or the configuration's in its place where
/// the command line has `unset` and the configuration gives one.
pub open spec fn text_or(value: Seq<char>, unset: Seq<char>, fallback: Option<Seq<char>>) -> Seq<
    char,
> {
    if value == unset && fallback is Some {
        fallback->0
    } else {
        value
    }
}

/// A flag of the command line, or the configuration's where the command
/// line does not set it.
pub open spec fn flag_or(value: bool, fallback: Option<bool>) -> bool {
    if !value && fallback is Some {
        fallback->0
    } else {
        value
    }
}

/// The window: the command line's, or the configuration's where the
/// command line asks for none but the overall one and the configuration
/// names one.
pub open spec fn period_or(value: Option<Period>, fallback: Option<Seq<char>>) -> Period {
    let asked = match value {
        Some(p) => p,
        None => Period::Overall,
    };
    if asked == Period::Overall && fallback is Some && period_of(fallback->0) is Some {
        period_of(fallback->0)->0
    } else {
        asked
    }
}

/// The settings of a run, or what is missing for it.
///
/// The API key is the command line's, else the environment's, else the
/// configuration's; so is the token. The user name is the command line's,
/// else the configuration's. Every other setting is the command line's,
/// unless the command line leaves it at its default and the configuration
/// gives it.
pub open spec fn settings_of(
    cli: Cli,
    cfg: ConfigView,
    env_api_key: Option<Seq<char>>,
    env_token: Option<Seq<char>>,
) -> Result<SettingsView, SettingsError> {
    let api_key = first_of(first_of(opt_view(cli.api_key), env_api_key), cfg.api_key);
    let username = first_of(opt_view(cli.username), cfg.username);
    if api_key is None {
        Err(SettingsError::MissingApiKey)
    } else if username is None {
        Err(SettingsError::MissingUsername)
    } else {
        Ok(
            SettingsView {
                api_key: api_key->0,
                username: username->0,
                period: period_or(cli.period, cfg.period),
                limit: if cli.limit == DEFAULT_LIMIT && cfg.limit is Some {
                    cfg.limit->0
                } else {
                    cli.limit
                },
                select: first_of(cli.select, cfg.select),
                format: text_or(cli.format@, DEFAULT_FORMAT@, cfg.format),
                join: text_or(cli.join@, DEFAULT_JOIN@, cfg.join),
                prefix: text_or(cli.prefix@, Seq::empty(), cfg.prefix),
                suffix: text_or(cli.suffix@, Seq::empty(), cfg.suffix),
                strip_feat: flag_or(cli.strip_feat, cfg.strip_feat),
                strip_feat_regex: first_of(opt_view(cli.strip_feat_regex), cfg.strip_feat_regex),
                copy: flag_or(cli.copy, cfg.copy),
                debug: flag_or(cli.debug, cfg.debug),
                discord_bio_regex: text_or(
                    cli.discord_bio_regex@,
                    DEFAULT_BIO_PATTERN@,
                    cfg.discord_bio_regex,
                ),
                update_discord: flag_or(cli.update_discord, cfg.update_discord),
                discord_dry_run: flag_or(cli.discord_dry_run, cfg.discord_dry_run),
                discord_token: first_of(
                    first_of(opt_view(cli.discord_token), env_token),
                    cfg.discord_token,
                ),
            },
        )
    }
}

/// The first of two optional texts that is there.
fn pick_text(a: &Option<String>, b: &Option<String>) -> (r: Option<String>)
    ensures
        opt_view(r) == first_of(opt_view(*a), opt_view(*b)),
{
    match a {
        Some(t) => Some(text_of(t.as_str())),
        None => match b {
            Some(t) => Some(text_of(t.as_str())),
            None => None,
        },
    }
}

/// A text of the command line, or the configuration's in its place.
fn pick_default(value: &String, unset: &str, fallback: &Option<String>) -> (r: String)
    ensures
        r@ == text_or(value@, unset@, opt_view(*fallback)),
{
    match fallback {
        Some(t) => {
            if text_eq(value.as_str(), unset) {
                text_of(t.as_str())
            } else {
                text_of(value.as_str())
            }
        },
        None => text_of(value.as_str()),
    }
}

/// A flag of the command line, or the configuration's in its place.
fn pick_flag(value: bool, fallback: Option<bool>) -> (r: bool)
    ensures
        r == flag_or(value, fallback),
{
    match fallback {
        Some(b) => if !value {
            b
        } else {
            value
        },
        None => value,
    }
}

/// The window of the command line, or the configuration's in its place.
fn pick_period(value: Option<Period>, fallback: &Option<String>) -> (r: Period)
    ensures
        r == period_or(value, opt_view(*fallback)),
{
    let asked = match value {
        Some(p) => p,
        None => Period::Overall,
    };
    match asked {
        Period::Overall => match fallback {
            Some(word) => match period_from_word(word.as_str()) {
                Some(p) => p,
                None => asked,
            },
            None => asked,
        },
        _ => asked,
    }
}

/// Works out the settings of a run.
pub fn resolve(
    cli: &Cli,
    cfg: &Option<Config>,
    env_api_key: &Option<String>,
    env_token: &Option<String>,
) -> (r: Result<Settings, SettingsError>)
    ensures
        match r {
            Ok(s) => settings_of(*cli, given(*cfg), opt_view(*env_api_key), opt_view(*env_token))
                == Ok::<SettingsView, SettingsError>(s@),
            Err(e) => settings_of(*cli, given(*cfg), opt_view(*env_api_key), opt_view(*env_token))
                == Err::<SettingsView, SettingsError>(e),
        },
{
    let none = Config::empty();
    let c = match cfg {
        Some(c) => c,
        None => &none,
    };
    let api_key = match pick_text(&pick_text(&cli.api_key, env_api_key), &c.api_key) {
        Some(k) => k,
        None => {
            return Err(SettingsError::MissingApiKey);
        },
    };
    let username = match pick_text(&cli.username, &c.username) {
        Some(u) => u,
        None => {
            return Err(SettingsError::MissingUsername);
        },
    };
    let limit = match c.limit {
        Some(v) => if cli.limit == DEFAULT_LIMIT {
            v
        } else {
            cli.limit
        },
        None => cli.limit,
    };
    let select = match cli.select {
        Some(n) => Some(n),
        None => c.select,
    };
    proof {
        reveal_strlit("");
        assert(""@ == Seq::<char>::empty());
    }
    Ok(
        Settings {
            api_key,
            username,
            period: pick_period(cli.period, &c.period),
            limit,
            select,
            format: pick_default(&cli.format, DEFAULT_FORMAT, &c.format),
            join: pick_default(&cli.join, DEFAULT_JOIN, &c.join),
            prefix: pick_default(&cli.prefix, "", &c.prefix),
            suffix: pick_default(&cli.suffix, "", &c.suffix),
            strip_feat: pick_flag(cli.strip_feat, c.strip_feat),
            strip_feat_regex: pick_text(&cli.strip_feat_regex, &c.strip_feat_regex),
            copy: pick_flag(cli.copy, c.copy),
            debug: pick_flag(cli.debug, c.debug),
            discord_bio_regex: pick_default(
                &cli.discord_bio_regex,
                DEFAULT_BIO_PATTERN,
                &c.discord_bio_regex,
            ),
            update_discord: pick_flag(cli.update_discord, c.update_discord),
            discord_dry_run: pick_flag(cli.discord_dry_run, c.discord_dry_run),
            discord_token: pick_text(&pick_text(&cli.discord_token, env_token), &c.discord_token),
        },
    )
}

/// A secret as it is shown: nothing of one of up to four bytes; of a
/// longer one what stands before its third byte, or its first character
/// where that byte is inside a character.
pub open spec fn masked(secret: Option<Seq<char>>) -> Seq<char> {
    match secret {
        None => "<none>"@,
        Some(s) => if s.len() == 0 {
            ""@
        } else if encode_utf8(s).len() <= 4 {
            "****"@
        } else if is_char_boundary(encode_utf8(s), 2) {
            decode_utf8(encode_utf8(s).subrange(0, 2)) + "***"@
        } else {
            s.take(1) + "***"@
        },
    }
}

/// Writes a secret as it may be shown.
pub fn mask(secret: &Option<String>) -> (out: String)
    ensures
        out@ == masked(opt_view(*secret)),
{
    broadcast use vstd::utf8::encode_utf8_decode_utf8;

    match secret {
        None => text_of("<none>"),
        Some(s) => {
            let text = s.as_str();
            if text.is_empty() {
                text_of("")
            } else if text.as_bytes().len() <= 4 {
                text_of("****")
            } else if text.is_char_boundary(2) {
                let (head, _) = text.split_at(2);
                assert(head@ == decode_utf8(encode_utf8(s@).subrange(0, 2))) by {
                    assert(decode_utf8(encode_utf8(head@)) == head@);
                }
                let mut out: Vec<char> = Vec::new();
                push_str(&mut out, head);
                push_str(&mut out, "***");
                from_chars(out.as_slice())
            } else {
                let chars = to_chars(text);
                let mut out: Vec<char> = Vec::new();
                out.push(chars[0]);
                assert(out@ == s@.take(1));
                push_str(&mut out, "***");
                from_chars(out.as_slice())
            }
        },
    }
}

/// Whether the run logs its requests: whether the command line or, where
/// the command line does not, the configuration asks for it.
pub fn debug_wanted(cli: &Cli, cfg: &Option<Config>) -> (b: bool)
    ensures
        b == flag_or(cli.debug, given(*cfg).debug),
{
    match cfg {
        Some(c) => pick_flag(cli.debug, c.debug),
        None => cli.debug,
    }
}

/// An optional text as it is shown.
pub open spec fn shown_text(value: Option<Seq<char>>) -> Seq<char> {
    match value {
        Some(t) => t,
        None => "<none>"@,
    }
}

/// An optional flag as it is shown.
pub open spec fn shown_flag(value: Option<bool>) -> Seq<char> {
    match value {
        Some(true) => "true"@,
        Some(false) => "false"@,
        None => "<none>"@,
    }
}

/// An optional number as it is shown.
pub open spec fn shown_number(value: Option<nat>) -> Seq<char> {
    match value {
        Some(n) => decimal(n),
        None => "<none>"@,
    }
}

/// A number as an optional natural number.
pub open spec fn opt_nat(value: Option<u32>) -> Option<nat> {
    match value {
        Some(n) => Some(n as nat),
        None => None,
    }
}

/// A size as an optional natural number.
pub open spec fn opt_size(value: Option<usize>) -> Option<nat> {
    match value {
        Some(n) => Some(n as nat),
        None => None,
    }
}

/// The lines that show what a configuration gives, its secrets masked.
pub open spec fn config_lines(c: ConfigView) -> Seq<Seq<char>> {
    seq![
        "  username: "@ + shown_text(c.username),
        "  api_key: "@ + masked(c.api_key),
        "  period: "@ + shown_text(c.period),
        "  limit: "@ + shown_number(opt_nat(c.limit)),
        "  select: "@ + shown_number(opt_size(c.select)),
        "  format: "@ + shown_text(c.format),
        "  join: "@ + shown_text(c.join),
        "  prefix: "@ + shown_text(c.prefix),
        "  suffix: "@ + shown_text(c.suffix),
        "  strip_feat: "@ + shown_flag(c.strip_feat),
        "  strip_feat_regex: "@ + shown_text(c.strip_feat_regex),
        "  copy: "@ + shown_flag(c.copy),
        "  discord_token: "@ + masked(c.discord_token),
        "  discord_bio_regex: "@ + shown_text(c.discord_bio_regex),
        "  update_discord: "@ + shown_flag(c.update_discord),
        "  discord_dry_run: "@ + shown_flag(c.discord_dry_run),
        "  debug: "@ + shown_flag(c.debug),
    ]
}

/// A line that shows an optional text.
fn text_line(label: &str, value: &Option<String>) -> (out: String)
    ensures
        out@ == label@ + shown_text(opt_view(*value)),
{
    let mut line: Vec<char> = Vec::new();
    push_str(&mut line, label);
    match value {
        Some(t) => push_str(&mut line, t.as_str()),
        None => push_str(&mut line, "<none>"),
    }
    from_chars(line.as_slice())
}

/// A line that shows a secret.
fn secret_line(label: &str, value: &Option<String>) -> (out: String)
    ensures
        out@ == label@ + masked(opt_view(*value)),
{
    let mut line: Vec<char> = Vec::new();
    push_str(&mut line, label);
    push_str(&mut line, mask(value).as_str());
    from_chars(line.as_slice())
}

/// A line that shows an optional flag.
fn flag_line(label: &str, value: Option<bool>) -> (out: String)
    ensures
        out@ == label@ + shown_flag(value),
{
    let mut line: Vec<char> = Vec::new();
    push_str(&mut line, label);
    match value {
        Some(true) => push_str(&mut line, "true"),
        Some(false) => push_str(&mut line, "false"),
        None => push_str(&mut line, "<none>"),
    }
    from_chars(line.as_slice())
}

/// A line that shows an optional number.
fn number_line(label: &str, value: Option<u64>) -> (out: String)
    ensures
        out@ == label@ + shown_number(
            match value {
                Some(n) => Some(n as nat),
                None => None,
            },
        ),
{
    let mut line: Vec<char> = Vec::new();
    push_str(&mut line, label);
    match value {
        Some(n) => push_decimal(&mut line, n),
        None => push_str(&mut line, "<none>"),
    }
    from_chars(line.as_slice())
}

/// Writes the lines that show what a configuration gives.
pub fn show_config(c: &Config) -> (out: Vec<String>)
    ensures
        string_views(out@) == config_lines(c@),
{
    let mut out: Vec<String> = Vec::new();
    out.push(text_line("  username: ", &c.username));
    out.push(secret_line("  api_key: ", &c.api_key));
    out.push(text_line("  period: ", &c.period));
    out.push(
        number_line(
            "  limit: ",
            match c.limit {
                Some(n) => Some(n as u64),
                None => None,
            },
        ),
    );
    out.push(
        number_line(
            "  select: ",
            match c.select {
                Some(n) => Some(n as u64),
                None => None,
            },
        ),
    );
    out.push(text_line("  format: ", &c.format));
    out.push(text_line("  join: ", &c.join));
    out.push(text_line("  prefix: ", &c.prefix));
    out.push(text_line("  suffix: ", &c.suffix));
    out.push(flag_line("  strip_feat: ", c.strip_feat));
    out.push(text_line("  strip_feat_regex: ", &c.strip_feat_regex));
    out.push(flag_line("  copy: ", c.copy));
    out.push(secret_line("  discord_token: ", &c.discord_token));
    out.push(text_line("  discord_bio_regex: ", &c.discord_bio_regex));
    out.push(flag_line("  update_discord: ", c.update_discord));
    out.push(flag_line("  discord_dry_run: ", c.discord_dry_run));
    out.push(flag_line("  debug: ", c.debug));
    assert(string_views(out@) == config_lines(c@));
    out
}

} // verus!
