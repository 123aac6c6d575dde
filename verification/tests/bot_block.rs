use rahgozar::bot_block::{
    contains_ascii_ci, detect, is_deny_status, mark_first_seen, normalize_host, note_if_blocked,
    parse_status_code, SeenHosts,
};

#[test]
fn detects_akamai_access_denied_body() {
    let body = b"HTTP/1.1 403 Forbidden\r\n\
                 Server: AkamaiGHost\r\n\
                 Content-Type: text/html\r\n\r\n\
                 <html><head><title>Access Denied</title></head>\
                 <body>You don't have permission to access ... \
                 Reference #18.910f3417.1778431182.c1e32223 \
                 https://errors.edgesuite.net/...</body></html>";
    assert_eq!(detect(body), Some("Akamai"));
}

#[test]
fn detects_akamai_via_server_header_when_status_is_deny() {
    let body = b"HTTP/1.1 403 Forbidden\r\n\
                 Server: AkamaiGHost\r\n\r\n\
                 <html>custom error page</html>";
    assert_eq!(detect(body), Some("Akamai"));
}

#[test]
fn ignores_akamai_server_header_on_200_ok() {
    let body = b"HTTP/1.1 200 OK\r\n\
                 Server: AkamaiGHost\r\n\
                 Content-Type: text/html\r\n\r\n\
                 <html><body>normal page body</body></html>";
    assert_eq!(detect(body), None);
}

#[test]
fn ignores_akamai_server_header_on_redirect() {
    let body = b"HTTP/1.1 302 Found\r\n\
                 Server: AkamaiGHost\r\n\
                 Location: https://example.com/new\r\n\r\n";
    assert_eq!(detect(body), None);
}

#[test]
fn ignores_akamai_server_header_on_404() {
    let body = b"HTTP/1.1 404 Not Found\r\n\
                 Server: AkamaiGHost\r\n\r\n\
                 <html>page not found</html>";
    assert_eq!(detect(body), None);
}

#[test]
fn detects_akamai_edgesuite_body_regardless_of_status() {
    let body = b"HTTP/1.1 200 OK\r\n\r\n\
                 <html><head><title>Access Denied</title></head>\
                 <body>Reference https://errors.edgesuite.net/...</body></html>";
    assert_eq!(detect(body), Some("Akamai"));
}

#[test]
fn detects_cloudflare_just_a_moment() {
    let body = b"HTTP/1.1 403 Forbidden\r\n\
                 Server: cloudflare\r\n\
                 cf-mitigated: challenge\r\n\r\n\
                 <html><body>Just a moment...</body></html>";
    assert_eq!(detect(body), Some("Cloudflare"));
}

#[test]
fn detects_cloudflare_via_body_only() {
    let body = b"HTTP/1.1 200 OK\r\n\r\n\
                 <html><body>\
                 <script src=\"/cdn-cgi/challenge-platform/h/g/orchestrate/chl_page/v1\">\
                 </script></body></html>";
    assert_eq!(detect(body), Some("Cloudflare"));
}

#[test]
fn ignores_normal_html() {
    let body = b"HTTP/1.1 200 OK\r\n\r\n<html><body>hello world</body></html>";
    assert_eq!(detect(body), None);
}

#[test]
fn ignores_unrelated_403() {
    let body = b"HTTP/1.1 403 Forbidden\r\n\
                 Server: nginx\r\n\r\n\
                 <html>your IP is rate limited</html>";
    assert_eq!(detect(body), None);
}

#[test]
fn case_insensitive_match() {
    let body = b"HTTP/1.1 403\r\nServer: akamaighost\r\n\r\n";
    assert_eq!(detect(body), Some("Akamai"));
}

#[test]
fn normalize_host_strips_trailing_dot_and_lowercases() {
    assert_eq!(normalize_host("Example.COM."), "example.com");
    assert_eq!(normalize_host("unity.com"), "unity.com");
    assert_eq!(normalize_host("Unity.Com"), "unity.com");
    assert_eq!(normalize_host("example.com.."), "example.com");
}

#[test]
fn mark_first_seen_dedupes_within_a_set() {
    let mut set = SeenHosts::new();
    assert!(mark_first_seen(&mut set, "a.example"));
    assert!(!mark_first_seen(&mut set, "a.example"));
    assert!(mark_first_seen(&mut set, "b.example"));
    assert!(!mark_first_seen(&mut set, "b.example"));
}

#[test]
fn mark_first_seen_distinguishes_after_normalize() {
    let mut set = SeenHosts::new();
    assert!(mark_first_seen(&mut set, &normalize_host("UNITY.com.")));
    assert!(!mark_first_seen(&mut set, &normalize_host("unity.com")));
}

#[test]
fn blocked_host_is_hinted_once() {
    let block = b"HTTP/1.1 403 Forbidden\r\nServer: AkamaiGHost\r\n\r\n";
    let fine = b"HTTP/1.1 200 OK\r\n\r\nhello";
    let mut seen = SeenHosts::new();
    assert_eq!(note_if_blocked(&mut seen, "Unity.com.", fine), None);
    let hint = note_if_blocked(&mut seen, "Unity.com.", block).expect("first block is hinted");
    assert!(hint.starts_with("unity.com responded with a Akamai bot-block"));
    assert_eq!(note_if_blocked(&mut seen, "unity.COM", block), None);
    assert!(note_if_blocked(&mut seen, "other.com", block).is_some());
}

#[test]
fn status_codes_are_read_from_the_status_line() {
    assert_eq!(parse_status_code(b"HTTP/1.1 403 Forbidden\r\n"), Some(403));
    assert_eq!(parse_status_code(b"HTTP/1.1 403\r\n"), Some(403));
    assert_eq!(parse_status_code(b"HTTP/1.1 abc\r\n"), None);
    assert_eq!(parse_status_code(b""), None);
    assert_eq!(parse_status_code(b"HTTP/1.0 503 Busy\n"), Some(503));
    assert_eq!(parse_status_code(b"HTTP/2 403 Forbidden\r\n"), None);
    assert_eq!(parse_status_code(b"HTTP/1"), None);
    assert!(is_deny_status(403));
    assert!(!is_deny_status(404));
    assert!(!is_deny_status(200));
}

#[test]
fn substring_search_ignores_ascii_case() {
    assert!(contains_ascii_ci(b"xxAbCyy", b"aBc"));
    assert!(!contains_ascii_ci(b"ab", b"abc"));
}

#[test]
fn a_body_fragment_has_no_status() {
    assert_eq!(parse_status_code(b"garbage 403 text\r\n"), None);
    assert_eq!(detect(b"see 403 AkamaiGHost\r\n"), None);
    assert_eq!(detect(b"HTTP/1.1 403 Forbidden\r\nServer: AkamaiGHost\r\n"), Some("Akamai"));
}
