use sntry::http::{
    api_base, api_error, bearer, exit_code_for_failure, exit_code_for_status, Failure, is_server_error, is_success, parse_next_link,
    raw_api_error, retry_action, retry_after_secs, status_line, timeout_secs, url, Delay, PageStep,
    Paginator, RetryAction, SendOutcome,
};
use sntry::json::Json;

#[test]
fn api_root_drops_trailing_slashes() {
    assert_eq!(api_base("sentry.io"), "https://sentry.io/api/0");
    assert_eq!(api_base("sentry.acme.co//"), "https://sentry.acme.co/api/0");
    assert_eq!(url("https://sentry.io/api/0", "/organizations/"), "https://sentry.io/api/0/organizations/");
    assert_eq!(bearer("tok"), "Bearer tok");
}

#[test]
fn request_timeout_default() {
    assert_eq!(timeout_secs(None), 30);
    assert_eq!(timeout_secs(Some("12")), 12);
    assert_eq!(timeout_secs(Some("soon")), 30);
}

#[test]
fn status_classes_and_exit_codes() {
    assert!(is_success(204));
    assert!(!is_success(301));
    assert!(is_server_error(503));
    assert_eq!(exit_code_for_status(401), 2);
    assert_eq!(exit_code_for_status(403), 2);
    assert_eq!(exit_code_for_status(404), 3);
    assert_eq!(exit_code_for_status(429), 4);
    assert_eq!(exit_code_for_status(502), 5);
    assert_eq!(exit_code_for_status(400), 1);
}

#[test]
fn status_lines_carry_the_reason() {
    assert_eq!(status_line(404), "404 Not Found");
    assert_eq!(status_line(429), "429 Too Many Requests");
    assert_eq!(status_line(599), "599 <unknown status code>");
}

#[test]
fn api_errors_prefer_detail() {
    let body = r#"{"detail":"Invalid search query"}"#;
    let parsed = Json::Object(vec![("detail".to_string(), Json::Str("Invalid search query".to_string()))]);
    assert_eq!(api_error(400, body, Some(&parsed)), "Sentry API error (400 Bad Request): Invalid search query");
    let parsed2 = Json::Object(vec![("error".to_string(), Json::Str("nope".to_string()))]);
    assert_eq!(api_error(403, "{\"error\":\"nope\"}", Some(&parsed2)), "Sentry API error (403 Forbidden): nope");
    assert_eq!(api_error(500, "", None), "Sentry API error (500 Internal Server Error): 500 Internal Server Error");
    assert_eq!(api_error(502, "bad gateway", None), "Sentry API error (502 Bad Gateway): bad gateway");
    assert_eq!(raw_api_error(404, "gone"), "Sentry API error (404 Not Found): gone");
}

#[test]
fn retries_back_off_then_deliver() {
    assert!(matches!(retry_action(1, SendOutcome::Status(429), None), RetryAction::Wait(Delay::Millis(1000))));
    assert!(matches!(retry_action(2, SendOutcome::Status(503), None), RetryAction::Wait(Delay::Millis(2000))));
    assert!(matches!(retry_action(3, SendOutcome::Status(500), None), RetryAction::Wait(Delay::Millis(4000))));
    assert!(matches!(retry_action(4, SendOutcome::Status(500), None), RetryAction::Deliver));
    assert!(matches!(retry_action(1, SendOutcome::Status(429), Some(7)), RetryAction::Wait(Delay::Seconds(7))));
    assert!(matches!(retry_action(1, SendOutcome::Status(200), None), RetryAction::Deliver));
    assert!(matches!(retry_action(1, SendOutcome::Status(404), None), RetryAction::Deliver));
}

#[test]
fn network_errors_retry_once() {
    assert!(matches!(retry_action(1, SendOutcome::NetworkError, None), RetryAction::Wait(Delay::Seconds(2))));
    assert!(matches!(retry_action(2, SendOutcome::NetworkError, None), RetryAction::Fail));
}

#[test]
fn retry_after_header() {
    assert_eq!(retry_after_secs(Some("30")), Some(30));
    assert_eq!(retry_after_secs(Some("Wed, 21 Oct 2015 07:28:00 GMT")), None);
    assert_eq!(retry_after_secs(None), None);
}

#[test]
fn next_link_needs_results_true() {
    let h = "<https://sentry.io/api/0/x/?cursor=0:0:1>; rel=\"previous\"; results=\"false\"; cursor=\"0:0:1\", \
             <https://sentry.io/api/0/x/?cursor=0:100:0>; rel=\"next\"; results=\"true\"; cursor=\"0:100:0\"";
    assert_eq!(parse_next_link(Some(h)).as_deref(), Some("https://sentry.io/api/0/x/?cursor=0:100:0"));
    let done = "<https://sentry.io/api/0/x/?cursor=0:100:0>; rel=\"next\"; results=\"false\"; cursor=\"0:100:0\"";
    assert_eq!(parse_next_link(Some(done)), None);
    assert_eq!(parse_next_link(None), None);
}

fn items(n: usize) -> Json {
    Json::Array((0..n).map(|i| Json::Number(i.to_string())).collect())
}

#[test]
fn paginator_stops_at_max() {
    let mut p = Paginator::new(3);
    let link = "<https://x/?c=2>; rel=\"next\"; results=\"true\"";
    let step = p.accept_page(items(2), Some(link)).ok().unwrap();
    assert!(matches!(step, PageStep::Next(ref u) if u == "https://x/?c=2"));
    let step = p.accept_page(items(2), Some(link)).ok().unwrap();
    assert!(matches!(step, PageStep::Done));
    let got = p.into_items();
    assert_eq!(got.len(), 3);
    assert!(matches!(&got[2], Json::Number(n) if n == "0"));
}

#[test]
fn paginator_unlimited_follows_links() {
    let mut p = Paginator::new(0);
    let step = p.accept_page(items(5), None).ok().unwrap();
    assert!(matches!(step, PageStep::Done));
    assert_eq!(p.into_items().len(), 5);
}

#[test]
fn paginator_takes_an_object_as_one_item_and_refuses_scalars() {
    let mut p = Paginator::new(0);
    let obj = Json::Object(vec![("id".to_string(), Json::Str("1".to_string()))]);
    assert!(p.accept_page(obj, None).is_ok());
    let bad = p.accept_page(Json::Bool(true), None);
    assert!(matches!(bad, Err(Json::Bool(true))));
    assert_eq!(p.into_items().len(), 1);
}

#[test]
fn exit_codes_for_failures() {
    assert_eq!(exit_code_for_failure(&Failure::Status(404)), 3);
    assert_eq!(exit_code_for_failure(&Failure::Status(429)), 4);
    assert_eq!(exit_code_for_failure(&Failure::Network), 6);
    assert_eq!(exit_code_for_failure(&Failure::NotAuthenticated), 2);
    assert_eq!(exit_code_for_failure(&Failure::Other), 1);
}
