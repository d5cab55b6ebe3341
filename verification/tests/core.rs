use sntry::auth::{require_org, resolve, AuthError, EnvOverrides, Resolved};
use sntry::config::{check_mode, default_path, mask_token, Config, ConfigError, Profile, Profiles};
use sntry::logging::log_level;
use sntry::output::{empty_notice, parse_output, resolve_output, OutputFormat};

fn profile(host: &str, org: Option<&str>, token: &str) -> Profile {
    Profile { host: host.to_string(), org: org.map(|s| s.to_string()), auth_token: token.to_string() }
}

fn no_env() -> EnvOverrides {
    EnvOverrides { profile: None, host: None, org: None, auth_token: None }
}

fn config_with_prod() -> Config {
    let mut cfg = Config::new();
    cfg.profiles.insert("prod".to_string(), profile("sentry.acme.co", Some("acme"), "file-token"));
    cfg
}

#[test]
fn resolve_flag_beats_env_and_file() {
    let cfg = config_with_prod();
    let mut env = no_env();
    env.org = Some("env-org".to_string());
    let r = resolve(&cfg, Some("prod"), Some("cli-org"), &env).ok().unwrap();
    assert_eq!(r.profile_name, "prod");
    assert_eq!(r.host, "sentry.acme.co");
    assert_eq!(r.org.as_deref(), Some("cli-org"));
    assert_eq!(r.auth_token, "file-token");
}

#[test]
fn resolve_env_beats_file() {
    let cfg = config_with_prod();
    let env = EnvOverrides {
        profile: Some("prod".to_string()),
        host: Some("self.hosted".to_string()),
        org: Some("env-org".to_string()),
        auth_token: Some("env-token".to_string()),
    };
    let r = resolve(&cfg, None, None, &env).ok().unwrap();
    assert_eq!(r.profile_name, "prod");
    assert_eq!(r.host, "self.hosted");
    assert_eq!(r.org.as_deref(), Some("env-org"));
    assert_eq!(r.auth_token, "env-token");
}

#[test]
fn resolve_uses_active_profile_then_default() {
    let mut cfg = config_with_prod();
    cfg.default_profile = Some("prod".to_string());
    let r = resolve(&cfg, None, None, &no_env()).ok().unwrap();
    assert_eq!(r.profile_name, "prod");
    assert_eq!(r.org.as_deref(), Some("acme"));
    cfg.default_profile = None;
    let e = resolve(&cfg, None, None, &no_env()).err().unwrap();
    assert!(matches!(e, AuthError::NotAuthenticated));
}

#[test]
fn resolve_unknown_flag_profile_is_an_error() {
    let cfg = config_with_prod();
    let e = resolve(&cfg, Some("nope"), None, &no_env()).err().unwrap();
    assert_eq!(e.message(), "Profile 'nope' not found. Run 'sntry auth list' to see available profiles.");
}

#[test]
fn resolve_env_only_synthesizes_a_profile() {
    let cfg = Config::new();
    let mut env = no_env();
    env.auth_token = Some("tok".to_string());
    let r = resolve(&cfg, None, None, &env).ok().unwrap();
    assert_eq!(r.profile_name, "default");
    assert_eq!(r.host, "sentry.io");
    assert_eq!(r.org, None);
    assert_eq!(r.auth_token, "tok");
}

#[test]
fn not_authenticated_message() {
    let e = resolve(&Config::new(), None, None, &no_env()).err().unwrap();
    assert_eq!(e.message(), "Not authenticated. Run 'sntry auth login' to set up credentials.");
}

#[test]
fn require_org_needs_an_org() {
    let r = Resolved {
        profile_name: "p".to_string(),
        host: "sentry.io".to_string(),
        org: None,
        auth_token: "t".to_string(),
    };
    let e = require_org(&r).err().unwrap();
    assert_eq!(e.message(), "No organization configured. Pass --org <slug> or set one in your profile.");
    let r2 = Resolved { org: Some("acme".to_string()), ..r };
    assert_eq!(require_org(&r2).ok(), Some("acme"));
}

#[test]
fn mask_short_and_long_tokens() {
    assert_eq!(mask_token(""), "");
    assert_eq!(mask_token("abc"), "***");
    assert_eq!(mask_token("12345678"), "********");
    assert_eq!(mask_token("sntrys_abcdefghijklmnop"), "sntrys_a\u{2026}mnop");
}

#[test]
fn config_mode_is_checked() {
    assert!(check_mode(0o100600, "/tmp/c.toml").is_ok());
    assert!(check_mode(0o100400, "/tmp/c.toml").is_ok());
    let e = check_mode(0o100644, "/tmp/c.toml").err().unwrap();
    assert_eq!(e.message(), "Refusing to read /tmp/c.toml: file mode 0644; run 'chmod 600 /tmp/c.toml'");
    let e = check_mode(0o100660, "c").err().unwrap();
    assert_eq!(e.message(), "Refusing to read c: file mode 0660; run 'chmod 600 c'");
}

#[test]
fn config_path_resolution() {
    assert_eq!(default_path(Some("/etc/s.toml"), Some("/x"), Some("/h")).ok().unwrap(), "/etc/s.toml");
    assert_eq!(default_path(None, Some("/x"), Some("/h")).ok().unwrap(), "/x/sntry/config.toml");
    assert_eq!(default_path(None, Some("/x/"), None).ok().unwrap(), "/x/sntry/config.toml");
    assert_eq!(default_path(None, None, Some("/home/u")).ok().unwrap(), "/home/u/.config/sntry/config.toml");
    let e = default_path(None, None, None).err().unwrap();
    assert!(matches!(e, ConfigError::HomeNotSet));
    assert_eq!(e.message(), "HOME is not set");
}

#[test]
fn profiles_insert_get_remove() {
    let mut p = Profiles::new();
    assert!(p.is_empty());
    p.insert("staging".to_string(), profile("sentry.io", None, "a"));
    p.insert("prod".to_string(), profile("sentry.io", Some("acme"), "b"));
    p.insert("staging".to_string(), profile("sentry.io", None, "c"));
    assert_eq!(p.len(), 2);
    assert_eq!(p.get("staging").unwrap().auth_token, "c");
    assert!(p.contains_key("prod"));
    assert_eq!(p.first_key().as_deref(), Some("prod"));
    assert_eq!(p.entry(0).0, "prod");
    assert_eq!(p.entry(1).0, "staging");
    let removed = p.remove("prod").unwrap();
    assert_eq!(removed.org.as_deref(), Some("acme"));
    assert!(p.get("prod").is_none());
    assert!(p.remove("prod").is_none());
    p.clear();
    assert!(p.is_empty());
}

#[test]
fn masked_profiles_hide_tokens() {
    let mut p = Profiles::new();
    p.insert("prod".to_string(), profile("sentry.io", Some("acme"), "sntrys_abcdefghijklmnop"));
    let m = p.masked();
    assert_eq!(m.get("prod").unwrap().auth_token, "sntrys_a\u{2026}mnop");
    assert_eq!(m.get("prod").unwrap().org.as_deref(), Some("acme"));
}

#[test]
fn empty_config_is_empty() {
    let mut cfg = Config::new();
    assert!(cfg.is_empty());
    cfg.default_output = Some("json".to_string());
    assert!(!cfg.is_empty());
}

#[test]
fn output_names_ignore_case() {
    assert_eq!(parse_output("TEXT"), Some(OutputFormat::Text));
    assert_eq!(parse_output("Json"), Some(OutputFormat::Json));
    assert_eq!(parse_output("ndjson"), Some(OutputFormat::Ndjson));
    assert_eq!(parse_output("table"), Some(OutputFormat::Table));
    assert_eq!(parse_output("yaml"), None);
}

#[test]
fn output_resolution_order() {
    assert_eq!(resolve_output(Some(OutputFormat::Table), Some("json"), Some("text"), true), OutputFormat::Table);
    assert_eq!(resolve_output(None, Some("ndjson"), Some("text"), true), OutputFormat::Ndjson);
    assert_eq!(resolve_output(None, Some("bogus"), Some("table"), true), OutputFormat::Table);
    assert_eq!(resolve_output(None, None, None, true), OutputFormat::Text);
    assert_eq!(resolve_output(None, None, Some("bogus"), false), OutputFormat::Json);
}

#[test]
fn empty_results_per_format() {
    let j = empty_notice(OutputFormat::Json);
    assert_eq!(j.stdout.as_deref(), Some("[]"));
    assert_eq!(j.stderr, None);
    let t = empty_notice(OutputFormat::Text);
    assert_eq!(t.stdout, None);
    assert_eq!(t.stderr.as_deref(), Some("No results."));
    let n = empty_notice(OutputFormat::Ndjson);
    assert_eq!((n.stdout, n.stderr), (None, None));
}

#[test]
fn log_levels() {
    assert_eq!(log_level(0, false), "warn");
    assert_eq!(log_level(1, false), "info");
    assert_eq!(log_level(2, false), "debug");
    assert_eq!(log_level(5, false), "trace");
    assert_eq!(log_level(3, true), "error");
}
