use topsongs::http_template::{
    apply_substitution, build_vars_map, parse_http_spec, resolve_template, substitute_vars,
    HttpSpec,
};
use topsongs::vars::VarMap;

fn vars_of(pairs: &[(&str, &str)]) -> VarMap {
    let mut m = VarMap::new();
    for (k, v) in pairs {
        m.insert_if_absent(k, v);
    }
    m
}

#[test]
fn placeholders_are_replaced_by_their_values() {
    let vars = vars_of(&[("BASE", "http://h"), ("USERNAME", "bob")]);
    assert_eq!(substitute_vars("{{BASE}}/x?user={{USERNAME}}", &vars), "http://h/x?user=bob");
}

#[test]
fn rendering_a_spec_fills_its_url() {
    let base = [("BASE", "http://h".to_string()), ("USERNAME", "bob".to_string())];
    let spec = resolve_template("GET {{BASE}}/x?user={{USERNAME}}", &base, &[]).unwrap();
    assert_eq!(spec.method, "GET");
    assert_eq!(spec.url, "http://h/x?user=bob");
    assert!(spec.headers.is_empty());
    assert_eq!(spec.body, None);
}

#[test]
fn text_without_placeholders_is_unchanged() {
    let vars = vars_of(&[("A", "1")]);
    for text in ["", "plain", "{A}", "{{}}", "{{ A }}", "{{A-B}}", "{{A}", "{ {A}}", "}}A{{", "{{A"] {
        assert_eq!(substitute_vars(text, &vars), text);
    }
}

#[test]
fn unknown_placeholders_stay_with_their_braces() {
    let vars = vars_of(&[("KNOWN", "v")]);
    assert_eq!(substitute_vars("a {{MISSING}} b", &vars), "a {{MISSING}} b");
    assert_eq!(substitute_vars("{{MISSING}}{{KNOWN}}{{ALSO_1}}", &vars), "{{MISSING}}v{{ALSO_1}}");
}

#[test]
fn values_are_not_scanned_again() {
    let vars = vars_of(&[("A", "{{B}}"), ("B", "deep")]);
    assert_eq!(substitute_vars("{{A}}|{{B}}", &vars), "{{B}}|deep");
}

#[test]
fn values_are_taken_as_they_are() {
    let vars = vars_of(&[("Q", "a\"b\\c\n"), ("E", "")]);
    assert_eq!(substitute_vars("[{{Q}}][{{E}}]", &vars), "[a\"b\\c\n][]");
}

#[test]
fn a_third_brace_before_a_placeholder_stays() {
    let vars = vars_of(&[("A", "1")]);
    assert_eq!(substitute_vars("{{{A}}}", &vars), "{1}");
    assert_eq!(substitute_vars("{{A}}{{A}}", &vars), "11");
    assert_eq!(substitute_vars("x{{a_B9}}y", &vars_of(&[("a_B9", "-")])), "x-y");
}

#[test]
fn text_with_wide_characters_is_kept() {
    let vars = vars_of(&[("N", "\u{1F3B5}")]);
    assert_eq!(substitute_vars("\u{00e9}{{N}}\u{4e16}", &vars), "\u{00e9}\u{1F3B5}\u{4e16}");
}

#[test]
fn given_pairs_go_before_the_environment() {
    let base = [("TOKEN", "mine".to_string())];
    let env = [
        ("TOKEN".to_string(), "ambient".to_string()),
        ("HOME".to_string(), "/home/u".to_string()),
    ];
    let vars = build_vars_map(&base, &env);
    assert_eq!(vars.get("TOKEN"), Some("mine".to_string()));
    assert_eq!(vars.get("HOME"), Some("/home/u".to_string()));
    assert_eq!(vars.get("OTHER"), None);
    assert_eq!(vars.len(), 2);
}

#[test]
fn of_two_given_pairs_with_one_name_the_first_holds() {
    let base = [("K", "first".to_string()), ("K", "second".to_string())];
    let vars = build_vars_map(&base, &[]);
    assert_eq!(vars.get("K"), Some("first".to_string()));
    assert_eq!(vars.len(), 1);
}

#[test]
fn substitution_reaches_url_header_values_and_body_only() {
    let spec = HttpSpec {
        method: "{{M}}".to_string(),
        url: "http://{{H}}/p".to_string(),
        headers: vec![
            ("X-{{H}}".to_string(), "v-{{H}}".to_string()),
            ("Plain".to_string(), "{{NONE}}".to_string()),
        ],
        body: Some("b={{H}}".to_string()),
    };
    let vars = vars_of(&[("H", "host"), ("M", "GET")]);
    let out = apply_substitution(spec, &vars);
    assert_eq!(out.method, "{{M}}");
    assert_eq!(out.url, "http://host/p");
    assert_eq!(
        out.headers,
        vec![
            ("X-{{H}}".to_string(), "v-host".to_string()),
            ("Plain".to_string(), "{{NONE}}".to_string()),
        ]
    );
    assert_eq!(out.body, Some("b=host".to_string()));
}

#[test]
fn substitution_keeps_an_absent_body_absent() {
    let spec = parse_http_spec("GET http://x/{{A}}\nH: {{A}}\n").unwrap();
    let out = apply_substitution(spec, &vars_of(&[("A", "1")]));
    assert_eq!(out.url, "http://x/1");
    assert_eq!(out.headers, vec![("H".to_string(), "1".to_string())]);
    assert_eq!(out.body, None);
}

#[test]
fn a_refused_description_is_refused_before_substitution() {
    assert!(resolve_template("GET", &[], &[]).is_err());
}

#[test]
fn variable_map_holds_each_name_once() {
    let mut m = VarMap::new();
    assert_eq!(m.len(), 0);
    assert!(!m.contains_key("A"));
    m.insert_if_absent("A", "1");
    m.insert_if_absent("B", "2");
    m.insert_if_absent("A", "3");
    assert_eq!(m.len(), 2);
    assert!(m.contains_key("A"));
    assert_eq!(m.get("A"), Some("1".to_string()));
    assert_eq!(m.get("B"), Some("2".to_string()));
    assert_eq!(m.get("a"), None);
}
