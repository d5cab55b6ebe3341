use sntry::auth::{EnvOverrides, Resolved};
use sntry::commands::auth::{run, AuthArgs, AuthCmd, FileAction, LoginArgs, LogoutArgs, UseArgs};
use sntry::commands::config::{show, Shown};
use sntry::commands::discover::{data_rows, events_path, query_params, QueryArgs};
use sntry::commands::events::event_path;
use sntry::commands::issues::{annotate_for_output, events_request, issue_path, list_params, update_request, where_text, EventsArgs, ListArgs, UpdateArgs};
use sntry::commands::orgs::orgs_path;
use sntry::commands::projects::{project_path, projects_path};
use sntry::commands::releases::{release_path, releases_path};
use sntry::config::{Config, Profile};
use sntry::json::Json;

fn s(x: &str) -> String {
    x.to_string()
}

fn pairs(v: &[(String, String)]) -> Vec<(&str, &str)> {
    v.iter().map(|(a, b)| (a.as_str(), b.as_str())).collect()
}

fn no_env() -> EnvOverrides {
    EnvOverrides { profile: None, host: None, org: None, auth_token: None }
}

fn two_profiles() -> Config {
    let mut cfg = Config::new();
    cfg.profiles.insert(s("prod"), Profile { host: s("sentry.io"), org: Some(s("acme")), auth_token: s("sntrys_abcdefghijklmnop") });
    cfg.profiles.insert(s("staging"), Profile { host: s("sentry.acme.co"), org: None, auth_token: s("short") });
    cfg.default_profile = Some(s("prod"));
    cfg
}

#[test]
fn auth_list_marks_active_profile() {
    let out = run(AuthArgs { cmd: AuthCmd::List }, two_profiles(), &no_env(), "/c.toml").ok().unwrap();
    assert!(matches!(out.file, FileAction::Keep));
    assert_eq!(out.stdout, vec![s("* prod      sentry.io       (org: acme)"), s("  staging   sentry.acme.co  (org: -)")]);
}

#[test]
fn auth_list_without_profiles() {
    let out = run(AuthArgs { cmd: AuthCmd::List }, Config::new(), &no_env(), "/c.toml").ok().unwrap();
    assert!(out.stdout.is_empty());
    assert_eq!(out.stderr, vec![s("No profiles configured. Run 'sntry auth login' to create one.")]);
}

#[test]
fn auth_status_masks_token() {
    let out = run(AuthArgs { cmd: AuthCmd::Status }, two_profiles(), &no_env(), "/c.toml").ok().unwrap();
    assert_eq!(
        out.stdout,
        vec![
            s("Profile:    prod"),
            s("Host:       sentry.io"),
            s("Org:        acme"),
            s("Auth token: sntrys_a\u{2026}mnop"),
            s("Config:     /c.toml"),
        ]
    );
}

#[test]
fn auth_login_writes_profile_and_sets_default() {
    let args = LoginArgs { profile: Some(s("dev")), host: Some(s("sentry.io")), org: None, token: Some(s("tok")) };
    let out = run(AuthArgs { cmd: AuthCmd::Login(args) }, Config::new(), &no_env(), "/c.toml").ok().unwrap();
    assert!(matches!(out.file, FileAction::Save));
    assert_eq!(out.config.default_profile.as_deref(), Some("dev"));
    assert_eq!(out.config.profiles.get("dev").unwrap().auth_token, "tok");
    assert_eq!(out.stdout, vec![s("Wrote profile 'dev' to /c.toml")]);
}

#[test]
fn auth_use_unknown_profile() {
    let e = run(AuthArgs { cmd: AuthCmd::Use(UseArgs { name: s("nope") }) }, two_profiles(), &no_env(), "/c").err().unwrap();
    assert_eq!(e.message(), "Profile 'nope' not found. Run 'sntry auth list' to see available profiles.");
    let out = run(AuthArgs { cmd: AuthCmd::Use(UseArgs { name: s("staging") }) }, two_profiles(), &no_env(), "/c").ok().unwrap();
    assert_eq!(out.config.default_profile.as_deref(), Some("staging"));
    assert_eq!(out.stdout, vec![s("Switched to profile: staging")]);
}

#[test]
fn auth_logout_active_profile_moves_default() {
    let args = LogoutArgs { profile: None, all: false };
    let out = run(AuthArgs { cmd: AuthCmd::Logout(args) }, two_profiles(), &no_env(), "/c").ok().unwrap();
    assert!(out.config.profiles.get("prod").is_none());
    assert_eq!(out.config.default_profile.as_deref(), Some("staging"));
    assert!(matches!(out.file, FileAction::Save));
    assert_eq!(out.stdout, vec![s("Removed profile 'prod'.")]);
}

#[test]
fn auth_logout_last_profile_deletes_file() {
    let mut cfg = Config::new();
    cfg.profiles.insert(s("only"), Profile { host: s("sentry.io"), org: None, auth_token: s("t") });
    let args = LogoutArgs { profile: Some(s("only")), all: false };
    let out = run(AuthArgs { cmd: AuthCmd::Logout(args) }, cfg, &no_env(), "/c").ok().unwrap();
    assert!(matches!(out.file, FileAction::Remove));
    let e = run(AuthArgs { cmd: AuthCmd::Logout(LogoutArgs { profile: None, all: false }) }, Config::new(), &no_env(), "/c")
        .err()
        .unwrap();
    assert_eq!(e.message(), "No profile specified and no active profile set.");
}

#[test]
fn auth_logout_all() {
    let out = run(AuthArgs { cmd: AuthCmd::Logout(LogoutArgs { profile: None, all: true }) }, two_profiles(), &no_env(), "/c.toml")
        .ok()
        .unwrap();
    assert!(out.config.profiles.is_empty());
    assert!(matches!(out.file, FileAction::Remove));
    assert_eq!(out.stdout, vec![s("Removed all profiles (/c.toml deleted).")]);
}

#[test]
fn config_show_masks_tokens() {
    let cfg = two_profiles();
    match show(&cfg, Some("prod")).ok().unwrap() {
        Shown::Profile(p) => assert_eq!(p.auth_token, "sntrys_a\u{2026}mnop"),
        Shown::Whole(_) => panic!("expected one profile"),
    }
    match show(&cfg, None).ok().unwrap() {
        Shown::Whole(c) => {
            assert_eq!(c.profiles.get("staging").unwrap().auth_token, "*****");
            assert_eq!(c.default_profile.as_deref(), Some("prod"));
        },
        Shown::Profile(_) => panic!("expected the whole configuration"),
    }
    assert_eq!(show(&cfg, Some("x")).err().unwrap().message(), "Profile 'x' not found.");
}

#[test]
fn discover_query_parameters() {
    let args = QueryArgs {
        query: s("level:error"),
        field: vec![s("id"), s("title")],
        from: s("now-1h"),
        to: s("now"),
        sort: s("-timestamp"),
        limit: 100,
        max: 1000,
        environment: Some(s("production")),
        dataset: s("errors"),
    };
    let q = query_params(&args, s("A"), s("B"), Some("api"));
    assert_eq!(
        pairs(&q),
        vec![
            ("query", "level:error"),
            ("start", "A"),
            ("end", "B"),
            ("sort", "-timestamp"),
            ("per_page", "100"),
            ("dataset", "errors"),
            ("field", "id"),
            ("field", "title"),
            ("environment", "production"),
            ("project", "api"),
        ]
    );
    assert_eq!(events_path("acme"), "/organizations/acme/events/");
}

#[test]
fn discover_rows_under_data() {
    let v = Json::Object(vec![(s("data"), Json::Array(vec![Json::Null, Json::Bool(true)])), (s("meta"), Json::Null)]);
    assert_eq!(data_rows(v).len(), 2);
    assert_eq!(data_rows(Json::Array(vec![Json::Null])).len(), 0);
}

#[test]
fn event_paths() {
    assert_eq!(event_path("acme", Some("api"), "abc"), "/projects/acme/api/events/abc/");
    assert_eq!(event_path("acme", None, "abc"), "/organizations/acme/events/abc/");
}

#[test]
fn issue_list_parameters_and_paths() {
    let args = ListArgs {
        query: s("is:unresolved"),
        from: s("now-24h"),
        to: s("now"),
        environment: None,
        sort: s("date"),
        limit: 25,
        max: 100,
        full: false,
    };
    let q = list_params(&args, s("A"), s("B"), None);
    assert_eq!(pairs(&q), vec![("query", "is:unresolved"), ("start", "A"), ("end", "B"), ("sort", "date"), ("limit", "25")]);
    assert_eq!(issue_path("acme", "ACME-1"), "/organizations/acme/issues/ACME-1/");
    let (p, q) = events_request(&EventsArgs { issue: s("7"), latest: true, limit: 25, max: 100 }, "acme");
    assert_eq!(p, "/organizations/acme/issues/7/events/latest/");
    assert!(q.is_empty());
    let (p, q) = events_request(&EventsArgs { issue: s("7"), latest: false, limit: 10, max: 100 }, "acme");
    assert_eq!(p, "/organizations/acme/issues/7/events/");
    assert_eq!(pairs(&q), vec![("limit", "10")]);
}

#[test]
fn where_column_text() {
    let meta = Json::Object(vec![(s("function"), Json::Str(s("handle"))), (s("filename"), Json::Str(s("app.py")))]);
    let item = Json::Object(vec![(s("metadata"), meta), (s("culprit"), Json::Str(s("views.handle")))]);
    assert_eq!(where_text(&item), "handle (app.py)");
    let item2 = Json::Object(vec![(s("culprit"), Json::Str(s("views.handle")))]);
    assert_eq!(where_text(&item2), "views.handle");
    let item3 = Json::Object(vec![(s("metadata"), Json::Object(vec![(s("filename"), Json::Str(s("a.rs")))]))]);
    assert_eq!(where_text(&item3), "a.rs");
}

fn resolved(org: Option<&str>) -> Resolved {
    Resolved { profile_name: s("p"), host: s("sentry.io"), org: org.map(s), auth_token: s("t") }
}

#[test]
fn issue_update_is_gated() {
    let args = UpdateArgs { issue: s("1"), status: Some(s("resolved")), assign_to: None, unassign: false, yes: false };
    let e = update_request(&args, &resolved(Some("acme"))).err().unwrap();
    assert_eq!(e.message(), "Refusing to mutate without --yes. Re-run with --yes to confirm the change.");
    let none = UpdateArgs { issue: s("1"), status: None, assign_to: None, unassign: false, yes: true };
    assert_eq!(
        update_request(&none, &resolved(Some("acme"))).err().unwrap().message(),
        "Nothing to update. Pass --status / --assign-to / --unassign."
    );
    let args = UpdateArgs { issue: s("1"), status: Some(s("resolved")), assign_to: Some(s("me")), unassign: true, yes: true };
    let (path, body) = update_request(&args, &resolved(Some("acme"))).ok().unwrap();
    assert_eq!(path, "/organizations/acme/issues/1/");
    match body {
        Json::Object(members) => {
            assert_eq!(members.len(), 2);
            assert_eq!(members[0].0, "status");
            assert!(matches!(&members[0].1, Json::Str(v) if v == "resolved"));
            assert_eq!(members[1].0, "assignedTo");
            assert!(matches!(members[1].1, Json::Null));
        },
        _ => panic!("expected an object"),
    }
}

#[test]
fn resource_paths() {
    assert_eq!(orgs_path(), "/organizations/");
    assert_eq!(projects_path("acme"), "/organizations/acme/projects/");
    assert_eq!(project_path("acme", "api"), "/projects/acme/api/");
    assert_eq!(releases_path("acme"), "/organizations/acme/releases/");
}

#[test]
fn release_versions_are_form_encoded() {
    assert_eq!(release_path("acme", "my-app@1.4.2"), "/organizations/acme/releases/my-app%401.4.2/");
    assert_eq!(release_path("acme", "1.0 beta/2"), "/organizations/acme/releases/1.0+beta%2F2/");
    assert_eq!(release_path("acme", "a*b_c~\u{e9}"), "/organizations/acme/releases/a*b_c%7E%C3%A9/");
}

#[test]
fn where_column_only_for_text_output() {
    let item = || Json::Object(vec![(s("culprit"), Json::Str(s("views.handle")))]);
    let mut js = vec![item()];
    annotate_for_output(&mut js, false, sntry::output::OutputFormat::Json);
    assert!(matches!(&js[0], Json::Object(m) if m.len() == 1));
    annotate_for_output(&mut js, true, sntry::output::OutputFormat::Text);
    assert!(matches!(&js[0], Json::Object(m) if m.len() == 1));
    annotate_for_output(&mut js, false, sntry::output::OutputFormat::Table);
    assert!(matches!(&js[0], Json::Object(m) if m.len() == 2 && m[1].0 == "_where"));
}
