use tune::auth::{
    html_escape, need_reauth, parse_callback, refresh_or_reauthorize, required_scopes, token_cache_path, token_dead,
    token_has_all_scopes, urldecode, Refresh, AUTH_PORT, REDIRECT_URI,
};

#[test]
fn a_token_needs_every_scope() {
    let mut granted = required_scopes();
    assert_eq!(granted.len(), 8);
    assert!(granted.iter().any(|s| s == "streaming"));
    assert!(token_has_all_scopes(&granted));
    granted.push("ugc-image-upload".to_string());
    granted.reverse();
    assert!(token_has_all_scopes(&granted));
    granted.retain(|s| s != "streaming");
    assert!(!token_has_all_scopes(&granted));
}

#[test]
fn a_sign_in_is_needed_without_a_token_or_with_an_old_one() {
    assert!(need_reauth(&None));
    assert!(need_reauth(&Some(vec!["user-read-private".to_string()])));
    assert!(!need_reauth(&Some(required_scopes())));
}

#[test]
fn a_dead_refresh_token_is_told_from_a_passing_failure() {
    assert!(matches!(refresh_or_reauthorize(&None), Refresh::Fresh));
    for e in ["Invalid_Grant", "INVALID GRANT", "http 400", "status 401", "UNAUTHORIZED"] {
        assert!(matches!(refresh_or_reauthorize(&Some(e.to_string())), Refresh::SignIn), "{}", e);
    }
    match refresh_or_reauthorize(&Some("Connection Refused".to_string())) {
        Refresh::Keep(m) => assert_eq!(m, "refresh_token: Connection Refused"),
        other => panic!("{:?}", other),
    }
    for e in ["connect 10.0.0.1:4001: timed out", "error 1400", "read 4010 bytes", "timed out"] {
        match refresh_or_reauthorize(&Some(e.to_string())) {
            Refresh::Keep(m) => assert_eq!(m, format!("refresh_token: {}", e)),
            other => panic!("{}: {:?}", e, other),
        }
    }
    assert!(token_dead("4000: 400"));
    assert!(token_dead("invalid_grant"));
    assert!(!token_dead("Invalid_Grant"));
}

#[test]
fn a_query_value_is_decoded() {
    assert_eq!(urldecode("a+b%20c"), "a b c");
    assert_eq!(urldecode("%C3%a9"), "é");
    assert_eq!(urldecode("100%"), "100%");
    assert_eq!(urldecode("%4"), "%4");
    assert_eq!(urldecode("%zz%41"), "%zzA");
    assert_eq!(urldecode("%ff"), "\u{fffd}");
    assert_eq!(urldecode("plain-é"), "plain-é");
}

#[test]
fn percent_encoding_reads_back() {
    let text = "AQ+x/ü=&";
    let encoded: String = text.bytes().map(|b| format!("%{:02X}", b)).collect();
    assert_eq!(urldecode(&encoded), text);
    let lower: String = text.bytes().map(|b| format!("%{:02x}", b)).collect();
    assert_eq!(urldecode(&lower), text);
}

#[test]
fn html_marks_are_escaped() {
    assert_eq!(html_escape("<b>&amp;</b>"), "&lt;b&gt;&amp;amp;&lt;/b&gt;");
}

#[test]
fn the_redirect_brings_the_code() {
    let c = parse_callback("GET /callback?code=AQ%2Bx&state=s HTTP/1.1\r\n").unwrap();
    assert_eq!(c.code.as_deref(), Some("AQ+x"));
    assert_eq!(c.error, None);
    let body = "<html><body style='font-family:sans-serif;max-width:32em;margin:4em auto;color:#080'>\
                <h2>tune is authorized</h2><p>You can close this tab and return to the terminal.</p></body></html>";
    assert_eq!(
        c.response(),
        format!(
            "HTTP/1.1 200 OK\r\nContent-Type: text/html; charset=utf-8\r\nContent-Length: {}\r\nConnection: close\r\n\r\n{}",
            body.len(),
            body
        )
    );
    assert_eq!(c.finish(), Ok("AQ+x".to_string()));
}

#[test]
fn the_last_of_two_codes_counts() {
    let c = parse_callback("GET /callback?code=a&code=b HTTP/1.1").unwrap();
    assert_eq!(c.finish(), Ok("b".to_string()));
}

#[test]
fn an_error_stands_before_a_code() {
    let c = parse_callback("GET /callback?error=access_denied%3C%C3%A9%3E&code=x HTTP/1.1").unwrap();
    let r = c.response();
    let body = r.split("\r\n\r\n").nth(1).unwrap();
    assert!(body.contains("<p>Spotify returned: <code>access_denied&lt;é&gt;</code></p>"));
    assert!(r.contains(&format!("Content-Length: {}\r\n", body.len())));
    assert_eq!(c.finish(), Err("spotify: access_denied<é>".to_string()));
}

#[test]
fn a_redirect_without_a_code_is_refused() {
    let c = parse_callback("GET /callback HTTP/1.1").unwrap();
    assert_eq!(c.finish(), Err("no `code` in callback query".to_string()));
}

#[test]
fn a_line_that_is_no_request_is_refused() {
    assert_eq!(parse_callback("GET\n").unwrap_err(), "malformed request line: \"GET\\n\"");
    assert_eq!(parse_callback("").unwrap_err(), "malformed request line: \"\"");
}

#[test]
fn the_redirect_comes_back_to_this_computer() {
    assert_eq!(REDIRECT_URI, format!("http://127.0.0.1:{}/callback", AUTH_PORT));
    assert_eq!(token_cache_path(&Some("/home/me".into())), "/home/me/.tune/token.json");
}

#[test]
fn what_stands_before_a_percent_sign_is_read_apart() {
    assert_eq!(urldecode("søk+etter%ff"), "søk etter\u{fffd}");
    assert_eq!(urldecode("a+b"), "a b");
    assert_eq!(urldecode("a%2"), "a%2");
}
