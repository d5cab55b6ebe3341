use sntry::commands::tail::{poll_params, summary, text_line, TailArgs, TailSession, TailState};
use sntry::time::Timestamp;
use sntry::json::Json;

fn s(x: &str) -> String {
    x.to_string()
}

fn event(id: Option<&str>, title: &str) -> Json {
    let mut m = vec![(s("title"), Json::Str(s(title))), (s("timestamp"), Json::Str(s("2024-01-01T00:00:00Z")))];
    if let Some(i) = id {
        m.push((s("id"), Json::Str(s(i))));
    }
    Json::Object(m)
}

fn titles(rows: &[Json]) -> Vec<String> {
    rows.iter()
        .map(|r| match r {
            Json::Object(m) => match &m[0].1 {
                Json::Str(t) => t.clone(),
                _ => String::new(),
            },
            _ => String::new(),
        })
        .collect()
}

#[test]
fn tail_prints_oldest_first_and_each_id_once() {
    let mut st = TailState::new();
    let first = st.accept(vec![event(Some("b"), "second"), event(Some("a"), "first")]);
    assert_eq!(titles(&first), vec![s("first"), s("second")]);
    let again = st.accept(vec![event(Some("c"), "third"), event(Some("b"), "second"), event(Some("c"), "dup")]);
    assert_eq!(titles(&again), vec![s("dup")]);
    assert_eq!(st.seen_count(), 3);
}

#[test]
fn tail_rows_without_id_always_print() {
    let mut st = TailState::new();
    let out = st.accept(vec![event(None, "x"), event(None, "y")]);
    assert_eq!(titles(&out), vec![s("y"), s("x")]);
    let out = st.accept(vec![event(None, "x")]);
    assert_eq!(out.len(), 1);
    assert_eq!(st.seen_count(), 0);
}

#[test]
fn tail_text_line_and_summary() {
    assert_eq!(text_line(&event(Some("abc"), "Boom")), "2024-01-01T00:00:00Z  abc  Boom");
    assert_eq!(text_line(&Json::Object(vec![])), "    ");
    assert_eq!(summary(4), "\n4 unique events seen.");
}

#[test]
fn tail_poll_query() {
    let args = TailArgs {
        query: s(""),
        field: vec![s("id"), s("title"), s("timestamp")],
        interval: s("5s"),
        since: s("now"),
        dataset: s("errors"),
        environment: None,
    };
    let q = poll_params(&args, s("A"), s("B"), Some("api"));
    let got: Vec<(&str, &str)> = q.iter().map(|(a, b)| (a.as_str(), b.as_str())).collect();
    assert_eq!(
        got,
        vec![
            ("query", ""),
            ("start", "A"),
            ("end", "B"),
            ("sort", "-timestamp"),
            ("per_page", "100"),
            ("dataset", "errors"),
            ("field", "id"),
            ("field", "title"),
            ("field", "timestamp"),
            ("project", "api"),
        ]
    );
}

#[test]
fn tail_windows_chain() {
    let args = TailArgs {
        query: s("level:error"),
        field: vec![s("id")],
        interval: s("5s"),
        since: s("now"),
        dataset: s("errors"),
        environment: Some(s("prod")),
    };
    let since = Timestamp { secs: 1_700_000_000, nanos: 0 };
    let mut run = TailSession::new(since);
    let q1 = run.next_query(&args, None).unwrap();
    assert_eq!(q1[1], (s("start"), s("2023-11-14T22:13:20Z")));
    assert_eq!(q1[7], (s("environment"), s("prod")));
    assert_eq!(q1.len(), 8);
    let q2 = run.next_query(&args, Some("api")).unwrap();
    assert_eq!(q2[1].1, q1[2].1);
    assert_eq!(q2[8], (s("project"), s("api")));
    let out = run.accept(vec![event(Some("a"), "one"), event(Some("a"), "again")]);
    assert_eq!(titles(&out), vec![s("again")]);
    let out = run.accept(vec![event(Some("a"), "later")]);
    assert!(out.is_empty());
    assert_eq!(run.seen_count(), 1);
}

#[test]
fn tail_window_at_a_given_reading() {
    let args = TailArgs {
        query: s(""),
        field: vec![],
        interval: s("5s"),
        since: s("now"),
        dataset: s("errors"),
        environment: None,
    };
    let mut run = TailSession::new(Timestamp { secs: 0, nanos: 0 });
    let q = run.next_query_at(&args, None, Timestamp { secs: 60, nanos: 0 });
    assert_eq!(q[1], (s("start"), s("1970-01-01T00:00:00Z")));
    assert_eq!(q[2], (s("end"), s("1970-01-01T00:01:00Z")));
    let q = run.next_query_at(&args, None, Timestamp { secs: 120, nanos: 0 });
    assert_eq!(q[1], (s("start"), s("1970-01-01T00:01:00Z")));
    assert_eq!(q[2], (s("end"), s("1970-01-01T00:02:00Z")));
}
