use topsongs::cli::{period_from_word, Cli, Period};
use topsongs::config::{config_from_nodes, Config, Entry, Node, Value};
use topsongs::settings::{
    debug_wanted, mask, resolve, show_config, SettingsError, DEFAULT_BIO_PATTERN,
};

fn text(s: &str) -> Vec<Value> {
    vec![Value::Text(s.to_string())]
}

fn node(name: &str, values: Vec<Value>) -> Node {
    Node { name: name.to_string(), values, children: None }
}

fn entry(name: &str, values: Vec<Value>) -> Entry {
    Entry { name: name.to_string(), values }
}

fn cli() -> Cli {
    Cli {
        generate_config: false,
        generate_http: None,
        username: None,
        api_key: None,
        period: None,
        limit: 10,
        query: false,
        select: None,
        format: "  - {artist} - {track}".to_string(),
        join: "\n".to_string(),
        prefix: String::new(),
        suffix: String::new(),
        strip_feat: false,
        strip_feat_regex: None,
        copy: false,
        discord_token: None,
        discord_bio_regex: DEFAULT_BIO_PATTERN.to_string(),
        update_discord: false,
        discord_dry_run: false,
        debug: false,
    }
}

#[test]
fn settings_are_read_from_the_root_node() {
    let root = Node {
        name: "topsongs".to_string(),
        values: vec![],
        children: Some(vec![
            entry("username", text("bob")),
            entry("limit", vec![Value::Integer(25)]),
            entry("select", vec![Value::Integer(3)]),
            entry("strip_feat", vec![Value::Flag(true)]),
            entry("join", text(", ")),
            entry("unknown", text("x")),
        ]),
    };
    let cfg = config_from_nodes(&vec![node("username", text("ignored")), root]);
    assert_eq!(cfg.username, Some("bob".to_string()));
    assert_eq!(cfg.limit, Some(25));
    assert_eq!(cfg.select, Some(3));
    assert_eq!(cfg.strip_feat, Some(true));
    assert_eq!(cfg.join, Some(", ".to_string()));
    assert_eq!(cfg.api_key, None);
    assert_eq!(cfg.debug, None);
}

#[test]
fn settings_are_read_from_the_top_without_a_root_node() {
    let nodes = vec![
        node("api_key", text("k")),
        node("period", text("7day")),
        node("format", text("{track}")),
        node("prefix", text("p")),
        node("suffix", text("s")),
        node("strip_feat_regex", text("/x/")),
        node("copy", vec![Value::Flag(false)]),
        node("discord_token", text("t")),
        node("discord_bio_regex", text("/b/")),
        node("update_discord", vec![Value::Flag(true)]),
        node("discord_dry_run", vec![Value::Flag(true)]),
        node("debug", vec![Value::Flag(true)]),
    ];
    let cfg = config_from_nodes(&nodes);
    assert_eq!(cfg.api_key, Some("k".to_string()));
    assert_eq!(cfg.period, Some("7day".to_string()));
    assert_eq!(cfg.format, Some("{track}".to_string()));
    assert_eq!(cfg.prefix, Some("p".to_string()));
    assert_eq!(cfg.suffix, Some("s".to_string()));
    assert_eq!(cfg.strip_feat_regex, Some("/x/".to_string()));
    assert_eq!(cfg.copy, Some(false));
    assert_eq!(cfg.discord_token, Some("t".to_string()));
    assert_eq!(cfg.discord_bio_regex, Some("/b/".to_string()));
    assert_eq!(cfg.update_discord, Some(true));
    assert_eq!(cfg.discord_dry_run, Some(true));
    assert_eq!(cfg.debug, Some(true));
    assert_eq!(cfg.username, None);
}

#[test]
fn a_root_node_without_a_block_gives_nothing() {
    let cfg = config_from_nodes(&vec![node("topsongs", vec![]), node("username", text("u"))]);
    assert_eq!(cfg.username, None);
    assert_eq!(config_from_nodes(&vec![]).username, None);
}

#[test]
fn a_value_of_another_kind_unsets_the_setting() {
    let nodes = vec![
        node("username", text("first")),
        node("username", vec![Value::Integer(1)]),
        node("limit", vec![Value::Integer(5)]),
        node("limit", text("many")),
        node("debug", vec![Value::Flag(true)]),
        node("debug", vec![]),
        node("select", vec![Value::Other, Value::Integer(2)]),
    ];
    let cfg = config_from_nodes(&nodes);
    assert_eq!(cfg.username, None);
    assert_eq!(cfg.limit, None);
    assert_eq!(cfg.debug, None);
    assert_eq!(cfg.select, None);
}

#[test]
fn a_later_node_goes_before_an_earlier_one() {
    let cfg = config_from_nodes(&vec![node("username", text("a")), node("username", text("b"))]);
    assert_eq!(cfg.username, Some("b".to_string()));
}

#[test]
fn integers_that_do_not_fit_are_dropped() {
    let mut cfg = Config::empty();
    cfg.set("limit", &vec![Value::Integer(4294967295)]);
    assert_eq!(cfg.limit, Some(u32::MAX));
    cfg.set("limit", &vec![Value::Integer(4294967296)]);
    assert_eq!(cfg.limit, None);
    cfg.set("limit", &vec![Value::Integer(-1)]);
    assert_eq!(cfg.limit, None);
    cfg.set("limit", &vec![Value::Integer(0)]);
    assert_eq!(cfg.limit, Some(0));
    cfg.set("select", &vec![Value::Integer(-5)]);
    assert_eq!(cfg.select, None);
    cfg.set("select", &vec![Value::Integer(usize::MAX as i128)]);
    assert_eq!(cfg.select, Some(usize::MAX));
    cfg.set("select", &vec![Value::Integer(usize::MAX as i128 + 1)]);
    assert_eq!(cfg.select, None);
    assert_eq!(Config::default().limit, None);
}

#[test]
fn periods_are_read_from_their_words() {
    for p in [
        Period::Overall,
        Period::SevenDay,
        Period::OneMonth,
        Period::ThreeMonth,
        Period::SixMonth,
        Period::TwelveMonth,
    ] {
        assert_eq!(period_from_word(p.as_api_value()), Some(p));
    }
    assert_eq!(period_from_word("Overall"), None);
    assert_eq!(period_from_word("2month"), None);
    assert_eq!(period_from_word(""), None);
}

#[test]
fn a_run_needs_an_api_key_and_a_user_name() {
    assert_eq!(resolve(&cli(), &None, &None, &None).unwrap_err(), SettingsError::MissingApiKey);
    let mut c = cli();
    c.username = Some("u".to_string());
    assert_eq!(resolve(&c, &None, &None, &None).unwrap_err(), SettingsError::MissingApiKey);
    assert_eq!(
        resolve(&cli(), &None, &Some("k".to_string()), &None).unwrap_err(),
        SettingsError::MissingUsername
    );
}

#[test]
fn the_command_line_goes_before_environment_and_configuration() {
    let mut c = cli();
    c.api_key = Some("cli-key".to_string());
    c.username = Some("cli-user".to_string());
    c.discord_token = Some("cli-token".to_string());
    let mut cfg = Config::empty();
    cfg.api_key = Some("cfg-key".to_string());
    cfg.username = Some("cfg-user".to_string());
    cfg.discord_token = Some("cfg-token".to_string());
    let cfg = Some(cfg);
    let env_key = Some("env-key".to_string());
    let env_token = Some("env-token".to_string());
    let s = resolve(&c, &cfg, &env_key, &env_token).unwrap();
    assert_eq!(s.api_key, "cli-key");
    assert_eq!(s.username, "cli-user");
    assert_eq!(s.discord_token, Some("cli-token".to_string()));
    let s = resolve(&cli(), &cfg, &env_key, &env_token).unwrap();
    assert_eq!(s.api_key, "env-key");
    assert_eq!(s.username, "cfg-user");
    assert_eq!(s.discord_token, Some("env-token".to_string()));
    let s = resolve(&cli(), &cfg, &None, &None).unwrap();
    assert_eq!(s.api_key, "cfg-key");
    assert_eq!(s.discord_token, Some("cfg-token".to_string()));
}

#[test]
fn the_configuration_fills_what_the_command_line_leaves_at_its_default() {
    let mut cfg = Config::empty();
    cfg.api_key = Some("k".to_string());
    cfg.username = Some("u".to_string());
    cfg.period = Some("3month".to_string());
    cfg.limit = Some(7);
    cfg.select = Some(2);
    cfg.format = Some("{track}".to_string());
    cfg.join = Some(" / ".to_string());
    cfg.prefix = Some("P".to_string());
    cfg.suffix = Some("S".to_string());
    cfg.strip_feat = Some(true);
    cfg.strip_feat_regex = Some("/r/".to_string());
    cfg.copy = Some(true);
    cfg.debug = Some(true);
    cfg.discord_bio_regex = Some("/bio/".to_string());
    cfg.update_discord = Some(true);
    cfg.discord_dry_run = Some(true);
    let cfg = Some(cfg);
    let s = resolve(&cli(), &cfg, &None, &None).unwrap();
    assert_eq!(s.period, Period::ThreeMonth);
    assert_eq!(s.limit, 7);
    assert_eq!(s.select, Some(2));
    assert_eq!(s.format, "{track}");
    assert_eq!(s.join, " / ");
    assert_eq!(s.prefix, "P");
    assert_eq!(s.suffix, "S");
    assert!(s.strip_feat && s.copy && s.debug && s.update_discord && s.discord_dry_run);
    assert_eq!(s.strip_feat_regex, Some("/r/".to_string()));
    assert_eq!(s.discord_bio_regex, "/bio/");

    let mut c = cli();
    c.period = Some(Period::SevenDay);
    c.limit = 50;
    c.select = Some(9);
    c.format = "f".to_string();
    c.join = "j".to_string();
    c.prefix = "p".to_string();
    c.suffix = "s".to_string();
    c.strip_feat_regex = Some("c".to_string());
    c.discord_bio_regex = "b".to_string();
    let s = resolve(&c, &cfg, &None, &None).unwrap();
    assert_eq!(s.period, Period::SevenDay);
    assert_eq!(s.limit, 50);
    assert_eq!(s.select, Some(9));
    assert_eq!(s.format, "f");
    assert_eq!(s.join, "j");
    assert_eq!(s.prefix, "p");
    assert_eq!(s.suffix, "s");
    assert_eq!(s.strip_feat_regex, Some("c".to_string()));
    assert_eq!(s.discord_bio_regex, "b");
}

#[test]
fn without_a_configuration_the_command_line_holds() {
    let mut c = cli();
    c.api_key = Some("k".to_string());
    c.username = Some("u".to_string());
    let s = resolve(&c, &None, &None, &None).unwrap();
    assert_eq!(s.period, Period::Overall);
    assert_eq!(s.limit, 10);
    assert_eq!(s.select, None);
    assert_eq!(s.format, "  - {artist} - {track}");
    assert_eq!(s.join, "\n");
    assert_eq!(s.prefix, "");
    assert!(!s.strip_feat && !s.copy && !s.debug && !s.update_discord && !s.discord_dry_run);
    assert_eq!(s.discord_bio_regex, DEFAULT_BIO_PATTERN);
    assert_eq!(s.discord_token, None);
}

#[test]
fn a_word_that_names_no_period_is_passed_over() {
    let mut cfg = Config::empty();
    cfg.api_key = Some("k".to_string());
    cfg.username = Some("u".to_string());
    cfg.period = Some("fortnight".to_string());
    assert_eq!(resolve(&cli(), &Some(cfg), &None, &None).unwrap().period, Period::Overall);
}

#[test]
fn secrets_are_masked() {
    assert_eq!(mask(&None), "<none>");
    assert_eq!(mask(&Some(String::new())), "");
    assert_eq!(mask(&Some("abcd".to_string())), "****");
    assert_eq!(mask(&Some("a".to_string())), "****");
    assert_eq!(mask(&Some("abcde".to_string())), "ab***");
    assert_eq!(mask(&Some("\u{00e9}\u{00e9}\u{00e9}".to_string())), "\u{00e9}***");
    assert_eq!(mask(&Some("\u{4e16}\u{754c}".to_string())), "\u{4e16}***");
}

#[test]
fn a_configuration_is_shown_with_its_secrets_masked() {
    let mut cfg = Config::empty();
    cfg.username = Some("bob".to_string());
    cfg.api_key = Some("0123456789".to_string());
    cfg.limit = Some(25);
    cfg.select = Some(3);
    cfg.join = Some("\n".to_string());
    cfg.strip_feat = Some(true);
    cfg.copy = Some(false);
    cfg.discord_token = Some("abc".to_string());
    assert_eq!(
        show_config(&cfg),
        vec![
            "  username: bob",
            "  api_key: 01***",
            "  period: <none>",
            "  limit: 25",
            "  select: 3",
            "  format: <none>",
            "  join: \n",
            "  prefix: <none>",
            "  suffix: <none>",
            "  strip_feat: true",
            "  strip_feat_regex: <none>",
            "  copy: false",
            "  discord_token: ****",
            "  discord_bio_regex: <none>",
            "  update_discord: <none>",
            "  discord_dry_run: <none>",
            "  debug: <none>",
        ]
    );
}

#[test]
fn requests_are_logged_where_command_line_or_configuration_ask_for_it() {
    let mut cfg = Config::empty();
    assert!(!debug_wanted(&cli(), &None));
    assert!(!debug_wanted(&cli(), &Some(cfg.clone())));
    cfg.debug = Some(true);
    assert!(debug_wanted(&cli(), &Some(cfg.clone())));
    cfg.debug = Some(false);
    let mut c = cli();
    c.debug = true;
    assert!(debug_wanted(&c, &Some(cfg)));
    assert!(debug_wanted(&c, &None));
}
