use sntry::commands::metrics::{aggregate_field, merge_type_unit, needs_lookup, pick_type_unit, QueryArgs};
use sntry::json::Json;

#[test]
fn aggregate_counter() {
    assert_eq!(
        aggregate_field("sum", "http_cache.hit", "counter", "none"),
        "sum(value,http_cache.hit,counter,none)"
    );
}

#[test]
fn aggregate_distribution_percentile() {
    assert_eq!(
        aggregate_field("p90", "gemini.cost_usd", "distribution", "none"),
        "p90(value,gemini.cost_usd,distribution,none)"
    );
}

#[test]
fn aggregate_with_real_unit() {
    assert_eq!(
        aggregate_field("avg", "request.duration", "distribution", "millisecond"),
        "avg(value,request.duration,distribution,millisecond)"
    );
}

fn query_args(metric_type: Option<&str>, unit: Option<&str>) -> QueryArgs {
    QueryArgs {
        name: "http_cache.hit".to_string(),
        stat: "sum".to_string(),
        metric_type: metric_type.map(|s| s.to_string()),
        unit: unit.map(|s| s.to_string()),
        group_by: vec![],
        query: String::new(),
        from: "now-24h".to_string(),
        to: "now".to_string(),
        sort: None,
        limit: 100,
        max: 1000,
        environment: None,
        dataset: "tracemetrics".to_string(),
    }
}

#[test]
fn lookup_needed_only_when_type_or_unit_missing() {
    assert!(needs_lookup(&query_args(None, None)));
    assert!(needs_lookup(&query_args(Some("counter"), None)));
    assert!(!needs_lookup(&query_args(Some("counter"), Some("none"))));
}

#[test]
fn explicit_type_and_unit_win_over_lookup() {
    let args = query_args(Some("gauge"), None);
    let (t, u) = merge_type_unit(&args, Some(("counter".to_string(), "byte".to_string())));
    assert_eq!(t, "gauge");
    assert_eq!(u, "byte");
}

fn row(name: &str, ty: &str, unit: &str) -> Json {
    Json::Object(vec![
        ("metric.name".to_string(), Json::Str(name.to_string())),
        ("metric.type".to_string(), Json::Str(ty.to_string())),
        ("metric.unit".to_string(), Json::Str(unit.to_string())),
    ])
}

#[test]
fn unknown_metric_is_reported() {
    let v = Json::Object(vec![("data".to_string(), Json::Array(vec![]))]);
    let r = pick_type_unit(&v, "nope.metric");
    assert!(r.is_err());
    let msg = r.err().unwrap().message();
    assert!(msg.contains("nope.metric"));
}

#[test]
fn type_and_unit_read_from_lookup_row() {
    let v = Json::Object(vec![(
        "data".to_string(),
        Json::Array(vec![row("other", "gauge", "byte"), row("http_cache.hit", "counter", "none")]),
    )]);
    let r = pick_type_unit(&v, "http_cache.hit");
    assert_eq!(r.ok(), Some(("counter".to_string(), "none".to_string())));
}
