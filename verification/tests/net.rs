use topsongs::http_template::HttpSpec;
use topsongs::net::{
    conclude, dim, log_request, prepare, redact_header, redact_url, ExecutionError, Reply,
};

fn spec(method: &str, url: &str, headers: &[(&str, &str)], body: Option<&str>) -> HttpSpec {
    HttpSpec {
        method: method.to_string(),
        url: url.to_string(),
        headers: headers.iter().map(|(k, v)| (k.to_string(), v.to_string())).collect(),
        body: body.map(|b| b.to_string()),
    }
}

#[test]
fn secret_query_values_are_redacted() {
    assert_eq!(redact_url("http://x?api_key=SECRET&user=bob"), "http://x?api_key=<redacted>&user=bob");
}

#[test]
fn each_secret_key_is_redacted_up_to_the_next_ampersand_or_the_end() {
    assert_eq!(redact_url("http://x?user=bob&token=abc"), "http://x?user=bob&token=<redacted>");
    assert_eq!(
        redact_url("http://x?apikey=1&auth=2&authorization=3&api_key=4&z=5"),
        "http://x?apikey=<redacted>&auth=<redacted>&authorization=<redacted>&api_key=<redacted>&z=5"
    );
    assert_eq!(redact_url("http://x?token=&a=b"), "http://x?token=<redacted>&a=b");
    assert_eq!(redact_url("http://x/path?user=bob"), "http://x/path?user=bob");
    assert_eq!(redact_url(""), "");
}

#[test]
fn every_value_of_a_key_is_redacted() {
    assert_eq!(
        redact_url("http://x?token=a&token=b"),
        "http://x?token=<redacted>&token=<redacted>"
    );
    assert_eq!(
        redact_url("http://x?api_key=1&u=2&api_key=3&auth=4&api_key=&auth=5"),
        "http://x?api_key=<redacted>&u=2&api_key=<redacted>&auth=<redacted>&api_key=<redacted>&auth=<redacted>"
    );
    assert_eq!(redact_url("token=token=x&y=token=z"), "token=<redacted>&y=token=<redacted>");
}

#[test]
fn a_key_inside_a_longer_name_is_redacted_too() {
    assert_eq!(redact_url("http://x?mytoken=a&b=c"), "http://x?mytoken=<redacted>&b=c");
    assert_eq!(redact_url("http://x?oauth=a"), "http://x?oauth=<redacted>");
}

#[test]
fn a_logged_request_line_shows_no_value_of_a_repeated_key() {
    let s = spec("GET", "http://x?token=a&token=b&user=u", &[], None);
    let log = prepare(&s, true).unwrap();
    assert_eq!(log, vec![dim("\u{2192} Request: GET http://x?token=<redacted>&token=<redacted>&user=u")]);
    assert_eq!(s.url, "http://x?token=a&token=b&user=u");
}

#[test]
fn secret_headers_are_redacted_in_any_case() {
    assert_eq!(redact_header("Authorization", "Bearer x"), "<redacted>");
    assert_eq!(redact_header("authorization", "x"), "<redacted>");
    assert_eq!(redact_header("COOKIE", "a=b"), "<redacted>");
    assert_eq!(redact_header("cOoKiE", "a=b"), "<redacted>");
    assert_eq!(redact_header("Content-Type", "text/plain"), "text/plain");
    assert_eq!(redact_header("Cookies", "a=b"), "a=b");
    assert_eq!(redact_header("", ""), "");
}

#[test]
fn dim_wraps_text_in_terminal_marks() {
    assert_eq!(dim("abc"), "\x1b[2mabc\x1b[0m");
    assert_eq!(dim(""), "\x1b[2m\x1b[0m");
}

#[test]
fn the_request_is_logged_with_secrets_redacted() {
    let s = spec(
        "PATCH",
        "https://h/p?token=abc&x=1",
        &[("Content-Type", "application/json"), ("Authorization", "secret"), ("cookie", "c=1")],
        Some("{\n  \"bio\": \"b\"\n}"),
    );
    assert_eq!(
        log_request(&s),
        vec![
            dim("\u{2192} Request: PATCH https://h/p?token=<redacted>&x=1"),
            dim("  Content-Type: application/json"),
            dim("  Authorization: <redacted>"),
            dim("  cookie: <redacted>"),
            dim("  (body):"),
            dim("    {"),
            dim("      \"bio\": \"b\""),
            dim("    }"),
        ]
    );
}

#[test]
fn an_absent_or_blank_body_is_not_logged() {
    assert_eq!(log_request(&spec("GET", "http://x", &[], None)), vec![dim("\u{2192} Request: GET http://x")]);
    assert_eq!(
        log_request(&spec("GET", "http://x", &[], Some(" \n\t"))),
        vec![dim("\u{2192} Request: GET http://x")]
    );
}

#[test]
fn nothing_is_logged_without_debug() {
    let s = spec("GET", "http://x", &[("A", "1")], Some("b"));
    assert_eq!(prepare(&s, false).unwrap(), Vec::<String>::new());
    assert_eq!(prepare(&s, true).unwrap(), log_request(&s));
}

#[test]
fn a_method_that_the_transport_refuses_is_an_error() {
    for m in ["", "G@T", "GE T", "G\u{00c9}T", "GET\n", "a(b)", "x/y"] {
        match prepare(&spec(m, "http://x", &[], None), true) {
            Err(ExecutionError::UnsupportedMethod(got)) => assert_eq!(got, m),
            other => panic!("unexpected for {:?}: {:?}", m, other),
        }
    }
}

#[test]
fn standard_and_extension_methods_are_accepted() {
    for m in [
        "GET", "PUT", "POST", "HEAD", "PATCH", "TRACE", "QUERY", "DELETE", "OPTIONS", "CONNECT",
        "get", "PROPFIND", "X", "!#$%&'*+-.^_`|~09azAZ", "AVERYLONGEXTENSIONMETHODNAME",
    ] {
        assert!(prepare(&spec(m, "http://x", &[], None), false).is_ok(), "{}", m);
    }
}

#[test]
fn a_missing_page_is_a_status_error_with_its_body() {
    let reply = Reply::Answered {
        code: 404,
        status: "404 Not Found".to_string(),
        body: Ok("{\"error\":\"not found\"}".to_string()),
    };
    let out = conclude(reply, false);
    assert!(out.log.is_empty());
    match out.result {
        Err(ExecutionError::HttpStatus { code, body }) => {
            assert_eq!(code, 404);
            assert_eq!(body, "{\"error\":\"not found\"}");
        }
        other => panic!("unexpected: {:?}", other),
    }
}

#[test]
fn a_successful_answer_yields_its_body() {
    for code in [200u16, 201, 204, 299] {
        let reply = Reply::Answered { code, status: "ok".to_string(), body: Ok("text".to_string()) };
        let out = conclude(reply, true);
        assert_eq!(out.log, vec![dim("\u{2190} Response: ok")]);
        assert_eq!(out.result.unwrap(), "text");
    }
}

#[test]
fn codes_outside_200_to_299_are_status_errors() {
    for code in [0u16, 100, 199, 300, 301, 400, 500, 999] {
        let reply = Reply::Answered { code, status: "s".to_string(), body: Ok("b".to_string()) };
        match conclude(reply, false).result {
            Err(ExecutionError::HttpStatus { code: c, body }) => {
                assert_eq!(c, code);
                assert_eq!(body, "b");
            }
            other => panic!("unexpected: {:?}", other),
        }
    }
}

#[test]
fn a_failed_answer_is_logged_with_status_and_body() {
    let reply = Reply::Answered {
        code: 500,
        status: "500 Internal Server Error".to_string(),
        body: Ok("boom".to_string()),
    };
    let out = conclude(reply, true);
    assert_eq!(
        out.log,
        vec![
            dim("\u{2190} Response: 500 Internal Server Error"),
            "HTTP error status: 500 Internal Server Error\nResponse body: boom".to_string(),
        ]
    );
}

#[test]
fn an_unreadable_error_body_becomes_a_note() {
    let reply = Reply::Answered {
        code: 502,
        status: "502 Bad Gateway".to_string(),
        body: Err("connection reset".to_string()),
    };
    match conclude(reply, false).result {
        Err(ExecutionError::HttpStatus { code, body }) => {
            assert_eq!(code, 502);
            assert_eq!(body, "<failed to read error body: connection reset>");
        }
        other => panic!("unexpected: {:?}", other),
    }
}

#[test]
fn an_unreadable_body_of_a_successful_answer_is_a_transport_error() {
    let reply = Reply::Answered { code: 200, status: "200 OK".to_string(), body: Err("cut".to_string()) };
    match conclude(reply, false).result {
        Err(ExecutionError::Transport(m)) => assert_eq!(m, "cut"),
        other => panic!("unexpected: {:?}", other),
    }
}

#[test]
fn a_request_that_was_not_sent_is_a_transport_error() {
    let out = conclude(Reply::Unsent("dns failure".to_string()), true);
    assert_eq!(out.log, vec!["HTTP request send error: dns failure".to_string()]);
    match out.result {
        Err(ExecutionError::Transport(m)) => assert_eq!(m, "dns failure"),
        other => panic!("unexpected: {:?}", other),
    }
    assert!(conclude(Reply::Unsent("x".to_string()), false).log.is_empty());
}

#[test]
fn errors_have_words() {
    assert_eq!(ExecutionError::Transport("t".to_string()).message(), "t");
    assert_eq!(
        ExecutionError::HttpStatus { code: 404, body: "b".to_string() }.message(),
        "HTTP request failed with status 404"
    );
    assert_eq!(
        ExecutionError::UnsupportedMethod("G T".to_string()).message(),
        "Unsupported HTTP method: G T"
    );
}
