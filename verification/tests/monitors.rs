use sntry::commands::monitors::{
    annotate, audit_findings, build_payload, checkins_request, dry_run_notice, env_statuses, env_timestamps,
    findings_notice, keep_status, monitor_params, no_findings_notice, payload_from_file, CheckinsArgs, CreateArgs,
    PayloadError,
};
use sntry::json::Json;
use sntry::time::{Duration, Timestamp};

fn s(x: &str) -> String {
    x.to_string()
}

fn text(x: &str) -> Json {
    Json::Str(s(x))
}

fn obj(members: Vec<(&str, Json)>) -> Json {
    Json::Object(members.into_iter().map(|(k, v)| (s(k), v)).collect())
}

fn member<'a>(v: &'a Json, key: &str) -> Option<&'a Json> {
    match v {
        Json::Object(m) => m.iter().find(|(k, _)| k == key).map(|(_, v)| v),
        _ => None,
    }
}

fn as_text(v: Option<&Json>) -> Option<&str> {
    match v {
        Some(Json::Str(t)) => Some(t.as_str()),
        _ => None,
    }
}

fn monitor(slug: &str, status: &str, envs: Vec<(&str, &str, Option<&str>)>, muted: bool, config: Json) -> Json {
    let envs = envs
        .into_iter()
        .map(|(name, st, last)| {
            let mut m = vec![("name", text(name)), ("status", text(st))];
            if let Some(l) = last {
                m.push(("lastCheckIn", text(l)));
            }
            obj(m)
        })
        .collect();
    obj(vec![
        ("slug", text(slug)),
        ("status", text(status)),
        ("isMuted", Json::Bool(muted)),
        ("environments", Json::Array(envs)),
        ("config", config),
    ])
}

fn full_config() -> Json {
    obj(vec![("checkin_margin", Json::Number(s("5"))), ("max_runtime", Json::Number(s("30")))])
}

#[test]
fn environment_statuses_in_order() {
    let m = monitor("job", "active", vec![("prod", "ok", None), ("dev", "error", None)], false, full_config());
    assert_eq!(env_statuses(&m), vec![(s("prod"), s("ok")), (s("dev"), s("error"))]);
}

#[test]
fn latest_checkin_across_environments() {
    let m = monitor(
        "job",
        "active",
        vec![("a", "ok", Some("2024-01-01T00:00:00Z")), ("b", "ok", Some("2024-01-02T00:00:00+01:00")), ("c", "ok", Some("garbage"))],
        false,
        full_config(),
    );
    let t = env_timestamps(&m, "lastCheckIn").unwrap();
    assert_eq!(t.secs, 1_704_150_000);
    assert!(env_timestamps(&m, "nextCheckIn").is_none());
}

#[test]
fn annotate_adds_flat_columns() {
    let mut m = monitor("job", "active", vec![("a", "ok", Some("2024-01-01T00:00:00Z"))], false, full_config());
    annotate(&mut m);
    assert_eq!(as_text(member(&m, "_lastCheckIn")), Some("2024-01-01T00:00:00Z"));
    assert!(matches!(member(&m, "_nextCheckIn"), Some(Json::Null)));
}

#[test]
fn status_filter_checks_environments_too() {
    let a = monitor("a", "active", vec![("prod", "error", None)], false, full_config());
    let b = monitor("b", "active", vec![("prod", "ok", None)], false, full_config());
    let c = monitor("c", "error", vec![], false, full_config());
    let kept = keep_status(vec![a, b, c], "error");
    let slugs: Vec<&str> = kept.iter().map(|m| as_text(member(m, "slug")).unwrap()).collect();
    assert_eq!(slugs, vec!["a", "c"]);
}

#[test]
fn monitor_queries() {
    let q = monitor_params(100, Some("api"), None);
    let got: Vec<(&str, &str)> = q.iter().map(|(a, b)| (a.as_str(), b.as_str())).collect();
    assert_eq!(got, vec![("per_page", "100"), ("project", "api")]);
    let (p, q) = checkins_request(&CheckinsArgs { slug: s("job"), env: Some(s("prod")), limit: 10, max: 50 }, "acme");
    assert_eq!(p, "/organizations/acme/monitors/job/checkins/");
    let got: Vec<(&str, &str)> = q.iter().map(|(a, b)| (a.as_str(), b.as_str())).collect();
    assert_eq!(got, vec![("per_page", "10"), ("environment", "prod")]);
}

#[test]
fn audit_flags_problems_in_order() {
    let now = Timestamp { secs: 1_704_067_200 + 3 * 86_400, nanos: 0 };
    let stale = Duration { seconds: 86_400 };
    let items = vec![
        monitor("quiet", "disabled", vec![], true, obj(vec![("checkin_margin", Json::Null)])),
        monitor("broken", "active", vec![("prod", "error", Some("2024-01-01T00:00:00Z"))], true, full_config()),
        monitor("fine", "active", vec![("prod", "ok", Some("2024-01-04T00:00:00Z"))], false, full_config()),
    ];
    let f = audit_findings(&items, &now, &stale, "1d");
    let got: Vec<(&str, &str, &str)> = f
        .iter()
        .map(|x| {
            (
                as_text(member(x, "slug")).unwrap(),
                as_text(member(x, "finding")).unwrap(),
                as_text(member(x, "detail")).unwrap(),
            )
        })
        .collect();
    assert_eq!(
        got,
        vec![
            ("quiet", "disabled", "monitor is disabled and accepts no check-ins"),
            ("quiet", "no-checkin-margin", "config.checkin_margin unset; missed runs detected only after the 1-minute default"),
            ("quiet", "no-max-runtime", "config.max_runtime unset; hung jobs fail only after the 30-minute default"),
            ("broken", "muted-while-failing", "environment 'prod' is failing but the monitor is muted"),
            ("broken", "stale", "last check-in 2024-01-01T00:00:00Z (older than 1d)"),
        ]
    );
    assert_eq!(findings_notice(5, 3), "5 findings across 3 monitors.");
    assert_eq!(no_findings_notice(3), "Audited 3 monitors: no findings.");
}

#[test]
fn never_checked_in_and_failing() {
    let now = Timestamp { secs: 0, nanos: 0 };
    let stale = Duration { seconds: 60 };
    let items = vec![
        monitor("new", "active", vec![], false, full_config()),
        monitor("bad", "active", vec![("prod", "error", None)], false, full_config()),
    ];
    let f = audit_findings(&items, &now, &stale, "1m");
    assert_eq!(f.len(), 2);
    assert_eq!(as_text(member(&f[0], "finding")), Some("never-checked-in"));
    assert_eq!(as_text(member(&f[1], "detail")), Some("environment 'prod' status is error"));
}

fn create_args() -> CreateArgs {
    CreateArgs {
        slug: Some(s("nightly")),
        name: None,
        crontab: None,
        interval: Some(vec![s("30"), s("minute")]),
        timezone: s("UTC"),
        checkin_margin: Some(5),
        max_runtime: None,
        failure_threshold: None,
        recovery_threshold: None,
        owner: None,
        from_file: None,
        yes: false,
    }
}

#[test]
fn create_payload_from_flags() {
    let p = build_payload(&create_args(), Some("api")).ok().unwrap();
    assert_eq!(as_text(member(&p, "project")), Some("api"));
    assert_eq!(as_text(member(&p, "slug")), Some("nightly"));
    assert_eq!(as_text(member(&p, "name")), Some("nightly"));
    let config = member(&p, "config").unwrap();
    assert_eq!(as_text(member(config, "schedule_type")), Some("interval"));
    match member(config, "schedule") {
        Some(Json::Array(a)) => {
            assert!(matches!(&a[0], Json::Number(n) if n == "30"));
            assert!(matches!(&a[1], Json::Str(u) if u == "minute"));
        },
        _ => panic!("expected an interval"),
    }
    assert!(matches!(member(config, "checkin_margin"), Some(Json::Number(n)) if n == "5"));
    assert!(member(config, "max_runtime").is_none());
    assert!(member(&p, "owner").is_none());
}

#[test]
fn create_payload_errors() {
    let mut a = create_args();
    a.slug = None;
    assert!(matches!(build_payload(&a, Some("api")), Err(PayloadError::MissingSlug)));
    assert_eq!(
        build_payload(&create_args(), None).err().unwrap().message(),
        "monitors create needs a project. Pass -P/--sentry-project <slug>."
    );
    let mut a = create_args();
    a.interval = Some(vec![s("x"), s("minute")]);
    assert_eq!(build_payload(&a, Some("p")).err().unwrap().message(), "--interval count must be a number, got 'x'");
    let mut a = create_args();
    a.interval = Some(vec![s("2"), s("fortnight")]);
    assert_eq!(
        build_payload(&a, Some("p")).err().unwrap().message(),
        "--interval unit must be one of minute|hour|day|week|month|year, got 'fortnight'"
    );
    let mut a = create_args();
    a.interval = None;
    assert_eq!(build_payload(&a, Some("p")).err().unwrap().message(), "exactly one of --crontab or --interval is required");
    let mut a = create_args();
    a.interval = None;
    a.crontab = Some(s("0 * * * *"));
    a.owner = Some(s("team:ops"));
    let p = build_payload(&a, Some("p")).ok().unwrap();
    assert_eq!(as_text(member(member(&p, "config").unwrap(), "schedule")), Some("0 * * * *"));
    assert_eq!(as_text(member(&p, "owner")), Some("team:ops"));
}

#[test]
fn file_payload_gets_project() {
    let v = obj(vec![("slug", text("x"))]);
    let p = payload_from_file(v, Some("api"));
    assert_eq!(as_text(member(&p, "project")), Some("api"));
    let v = obj(vec![("project", text("mine"))]);
    assert_eq!(as_text(member(&payload_from_file(v, Some("api")), "project")), Some("mine"));
    assert!(matches!(payload_from_file(Json::Array(vec![]), Some("api")), Json::Array(a) if a.is_empty()));
    assert_eq!(dry_run_notice(), "Dry run: nothing created. Re-run with --yes to POST this monitor.");
}

#[test]
fn audit_at_the_current_clock() {
    let items = vec![monitor("old", "active", vec![("prod", "ok", Some("2000-01-01T00:00:00Z"))], false, full_config())];
    let now = sntry::time::utc_now().unwrap();
    let f = audit_findings(&items, &now, &Duration { seconds: 86_400 }, "1d");
    assert_eq!(f.len(), 1);
    assert_eq!(as_text(member(&f[0], "detail")), Some("last check-in 2000-01-01T00:00:00Z (older than 1d)"));
}
