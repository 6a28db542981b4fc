use moodle_tui::urls::ExpectedOrigin;
use moodle_tui::urls::{build_assignment_activity_url, build_course_view_url, rest_endpoint, token_endpoint};

#[test]
fn builds_assignment_url() {
    assert_eq!(
        build_assignment_activity_url("https://x.example/", 42),
        "https://x.example/mod/assign/view.php?id=42"
    );
}

#[test]
fn builds_course_url_without_trailing_slash() {
    assert_eq!(
        build_course_view_url("https://x.example", -7),
        "https://x.example/course/view.php?id=-7"
    );
}

#[test]
fn builds_endpoints_from_base_url() {
    assert_eq!(token_endpoint("https://m.example//"), "https://m.example/login/token.php");
    assert_eq!(
        rest_endpoint("https://m.example"),
        "https://m.example/webservice/rest/server.php"
    );
}

#[test]
fn redirects_must_keep_scheme_host_and_port() {
    let origin = ExpectedOrigin::from_parts("https", Some("m.example"), Some(443)).unwrap();
    assert_eq!(origin.scheme, "https");
    assert_eq!(origin.host, "m.example");
    assert_eq!(origin.port, Some(443));
    assert!(origin.matches("https", Some("m.example"), Some(443)));
    assert!(!origin.matches("http", Some("m.example"), Some(443)));
    assert!(!origin.matches("https", Some("evil.example"), Some(443)));
    assert!(!origin.matches("https", Some("m.example"), Some(8443)));
    assert!(!origin.matches("https", None, Some(443)));
    assert!(ExpectedOrigin::from_parts("file", None, None).is_none());
}

fn origin_of(url: &reqwest::Url) -> Option<ExpectedOrigin> {
    ExpectedOrigin::from_parts(url.scheme(), url.host_str(), url.port_or_known_default())
}

fn stays_on(origin: &ExpectedOrigin, url: &reqwest::Url) -> bool {
    origin.matches(url.scheme(), url.host_str(), url.port_or_known_default())
}

#[test]
fn origin_accepts_same_host_and_effective_port() {
    let base = reqwest::Url::parse("https://moodle.example.edu/moodle/").unwrap();
    let origin = origin_of(&base).unwrap();
    let endpoint = reqwest::Url::parse("https://moodle.example.edu:443/login/token.php").unwrap();
    assert!(stays_on(&origin, &endpoint));
}

#[test]
fn origin_rejects_cross_host_redirect() {
    let base = reqwest::Url::parse("https://moodle.example.edu/moodle/").unwrap();
    let origin = origin_of(&base).unwrap();
    let redirect = reqwest::Url::parse("https://login.example.edu/").unwrap();
    assert!(!stays_on(&origin, &redirect));
}

#[test]
fn origin_rejects_different_port() {
    let base = reqwest::Url::parse("https://moodle.example.edu:8443/").unwrap();
    let origin = origin_of(&base).unwrap();
    let redirect = reqwest::Url::parse("https://moodle.example.edu/").unwrap();
    assert!(!stays_on(&origin, &redirect));
}
