//! `metrics query`: the Trace Metrics dataset.

use vstd::prelude::*;
use crate::json::{Json, JsonV, json_views, lemma_field_view, lemma_array_view};
use crate::query::{params_view, push_param, push_opt_param, push_fields, field_params, count_text};
use crate::text::{decimal, opt_text, eq_str};
use crate::commands::discover::opt_pair;

verus! {

pub struct MetricsArgs {
    pub cmd: MetricsCmd,
}

pub enum MetricsCmd {
    /// Query the Trace Metrics (Application Metrics) dataset.
    Query(QueryArgs),
}

pub struct QueryArgs {
    /// Metric name, e.g. http_cache.hit or gemini.cost_usd.
    pub name: String,
    /// Aggregation: sum avg count count_unique min max p50 p75 p90 p95 p99.
    pub stat: String,
    /// Metric type: counter | gauge | distribution; looked up when unset.
    pub metric_type: Option<String>,
    /// Metric unit (millisecond, byte, usd, none); looked up when unset.
    pub unit: Option<String>,
    /// Attributes to group by.
    pub group_by: Vec<String>,
    /// Extra attribute filter in Sentry search syntax.
    pub query: String,
    pub from: String,
    pub to: String,
    /// Sort spec; the aggregate, descending, when unset.
    pub sort: Option<String>,
    pub limit: usize,
    pub max: usize,
    pub environment: Option<String>,
    pub dataset: String,
}

/// `<stat>(value,<name>,<type>,<unit>)`.
pub open spec fn spec_aggregate_field(stat: Seq<char>, name: Seq<char>, metric_type: Seq<char>, unit: Seq<char>) -> Seq<char> {
    stat + "(value,"@ + name + ","@ + metric_type + ","@ + unit + ")"@
}

/// The trace-metric aggregate, e.g. `sum(value,http_cache.hit,counter,none)`;
/// Sentry needs the whole (name, type, unit) triple.
pub fn aggregate_field(stat: &str, name: &str, metric_type: &str, unit: &str) -> (r: String)
    ensures
        r@ == spec_aggregate_field(stat@, name@, metric_type@, unit@),
{
    let mut r = String::from_str(stat);
    r.append("(value,");
    r.append(name);
    r.append(",");
    r.append(metric_type);
    r.append(",");
    r.append(unit);
    r.append(")");
    r
}

/// The query that looks a metric's type and unit up by name.
pub open spec fn spec_type_unit_params(
    name: Seq<char>,
    start: Seq<char>,
    end: Seq<char>,
    dataset: Seq<char>,
    environment: Option<Seq<char>>,
    project: Option<Seq<char>>,
) -> Seq<(Seq<char>, Seq<char>)> {
    seq![
        ("query"@, "metric.name:"@ + name),
        ("start"@, start),
        ("end"@, end),
        ("dataset"@, dataset),
        ("field"@, "metric.name"@),
        ("field"@, "metric.type"@),
        ("field"@, "metric.unit"@),
        ("field"@, "count(metric.name)"@),
        ("sort"@, "-count(metric.name)"@),
        ("per_page"@, "25"@),
    ] + opt_pair("environment"@, environment) + opt_pair("project"@, project)
}

pub fn type_unit_params(
    name: &str,
    start: &str,
    end: &str,
    dataset: &str,
    environment: Option<&str>,
    project: Option<&str>,
) -> (r: Vec<(String, String)>)
    ensures
        params_view(r@) == spec_type_unit_params(name@, start@, end@, dataset@, match environment {
            Some(e) => Some(e@),
            None => None,
        }, match project {
            Some(p) => Some(p@),
            None => None,
        }),
{
    let mut q: Vec<(String, String)> = Vec::new();
    let mut filter = String::from_str("metric.name:");
    filter.append(name);
    push_param(&mut q, "query", filter);
    push_param(&mut q, "start", String::from_str(start));
    push_param(&mut q, "end", String::from_str(end));
    push_param(&mut q, "dataset", String::from_str(dataset));
    push_param(&mut q, "field", String::from_str("metric.name"));
    push_param(&mut q, "field", String::from_str("metric.type"));
    push_param(&mut q, "field", String::from_str("metric.unit"));
    push_param(&mut q, "field", String::from_str("count(metric.name)"));
    push_param(&mut q, "sort", String::from_str("-count(metric.name)"));
    push_param(&mut q, "per_page", String::from_str("25"));
    push_opt_param(&mut q, "environment", environment);
    push_opt_param(&mut q, "project", project);
    q
}

/// The lookup found no row for the metric.
pub struct MetricNotFound {
    pub name: String,
}

impl MetricNotFound {
    pub open spec fn spec_message(&self) -> Seq<char> {
        "No trace metric named '"@ + self.name@
            + "' found in the selected time range. Check the name or widen --from, or pin --type/--unit explicitly."@
    }

    pub fn message(&self) -> (r: String)
        ensures
            r@ == self.spec_message(),
    {
        let mut r = String::from_str("No trace metric named '");
        r.append(self.name.as_str());
        r.append(
            "' found in the selected time range. Check the name or widen --from, or pin --type/--unit explicitly.",
        );
        r
    }
}

/// The rows of a lookup response: the array under `data`, or none.
pub open spec fn lookup_rows(v: JsonV) -> Seq<JsonV> {
    match v.get("data"@) {
        Some(JsonV::Array(a)) => a,
        _ => Seq::empty(),
    }
}

/// Index of the first row whose `metric.name` is `name`.
pub open spec fn first_named(rows: Seq<JsonV>, name: Seq<char>) -> Option<int>
    decreases rows.len(),
{
    if rows.len() == 0 {
        None
    } else if rows[0].get_text("metric.name"@) == Some(name) {
        Some(0)
    } else {
        match first_named(rows.drop_first(), name) {
            Some(i) => Some(i + 1),
            None => None,
        }
    }
}

/// The type and unit a row reports: the type or empty; the unit, with an
/// empty or missing unit read as `none`.
pub open spec fn row_type_unit(row: JsonV) -> (Seq<char>, Seq<char>) {
    let t = match row.get_text("metric.type"@) {
        Some(t) => t,
        None => Seq::empty(),
    };
    let u = match row.get_text("metric.unit"@) {
        Some(u) => if u.len() > 0 {
            u
        } else {
            "none"@
        },
        None => "none"@,
    };
    (t, u)
}

/// The unit read from a lookup row is never empty: a missing or empty
/// `metric.unit` gives `none`, any other is kept as it is; the type is the
/// row's `metric.type`, or empty.
pub proof fn lemma_row_unit(row: JsonV)
    ensures
        row_type_unit(row).1.len() > 0,
        row.get_text("metric.unit"@) matches Some(u) ==> (u.len() > 0 ==> row_type_unit(row).1 == u),
        !(row.get_text("metric.unit"@) matches Some(u) && u.len() > 0) ==> row_type_unit(row).1 == "none"@,
        row.get_text("metric.type"@) matches Some(t) ==> row_type_unit(row).0 == t,
        row.get_text("metric.type"@) is None ==> row_type_unit(row).0 == Seq::<char>::empty(),
{
    reveal_strlit("none");
}

proof fn lemma_first_named_skip(rows: Seq<JsonV>, name: Seq<char>, i: int)
    requires
        0 <= i <= rows.len(),
        forall|j: int| 0 <= j < i ==> (#[trigger] rows[j]).get_text("metric.name"@) != Some(name),
    ensures
        first_named(rows, name) == match first_named(rows.subrange(i, rows.len() as int), name) {
            Some(k) => Some(k + i),
            None => None::<int>,
        },
    decreases i,
{
    if i == 0 {
        assert(rows.subrange(0, rows.len() as int) =~= rows);
    } else {
        let t = rows.drop_first();
        assert(t.subrange(i - 1, t.len() as int) =~= rows.subrange(i, rows.len() as int));
        assert forall|j: int| 0 <= j < i - 1 implies (#[trigger] t[j]).get_text("metric.name"@) != Some(name) by {
            assert(t[j] == rows[j + 1]);
        }
        lemma_first_named_skip(t, name, i - 1);
    }
}

fn text_member(v: &Json, key: &str) -> (r: Option<String>)
    ensures
        opt_text(r) == v@.get_text(key@),
{
    proof {
        lemma_field_view(*v, key@);
    }
    match v.get(key) {
        Some(x) => match x.as_str() {
            Some(s) => Some(String::from_str(s)),
            None => None,
        },
        None => None,
    }
}

/// Picks the metric's type and unit from the lookup response: the first
/// row, in Sentry's order of descending sample count, with that exact name.
pub fn pick_type_unit(value: &Json, name: &str) -> (r: Result<(String, String), MetricNotFound>)
    ensures
        match first_named(lookup_rows(value@), name@) {
            Some(i) => (r matches Ok((t, u)) && (t@, u@) == row_type_unit(lookup_rows(value@)[i])),
            None => (r matches Err(e) && e.name@ == name@),
        },
        r matches Ok((_, u)) ==> u@.len() > 0,
{
    proof {
        lemma_field_view(*value, "data"@);
    }
    let empty: Vec<Json> = Vec::new();
    let rows: &Vec<Json> = match value.get("data") {
        Some(Json::Array(a)) => {
            proof {
                lemma_array_view(Json::Array(*a));
            }
            a
        },
        _ => &empty,
    };
    let ghost rs = lookup_rows(value@);
    assert(json_views(rows@) =~= rs);
    let n = rows.len();
    let mut i: usize = 0;
    while i < n
        invariant
            n == rows@.len(),
            i <= n,
            json_views(rows@) == rs,
            rs == lookup_rows(value@),
            forall|j: int| 0 <= j < i ==> (#[trigger] rs[j]).get_text("metric.name"@) != Some(name@),
        decreases n - i,
    {
        let row = &rows[i];
        assert(rs[i as int] == row@);
        let matched = match text_member(row, "metric.name") {
            Some(s) => eq_str(s.as_str(), name),
            None => false,
        };
        if matched {
            proof {
                lemma_first_named_skip(rs, name@, i as int);
                assert(rs.subrange(i as int, n as int)[0] == rs[i as int]);
            }
            let t = match text_member(row, "metric.type") {
                Some(t) => t,
                None => String::new(),
            };
            let u = match text_member(row, "metric.unit") {
                Some(u) => if u.as_str().unicode_len() > 0 {
                    u
                } else {
                    String::from_str("none")
                },
                None => String::from_str("none"),
            };
            proof {
                lemma_row_unit(rs[i as int]);
            }
            return Ok((t, u));
        }
        i = i + 1;
    }
    proof {
        lemma_first_named_skip(rs, name@, n as int);
    }
    Err(MetricNotFound { name: String::from_str(name) })
}

/// Whether the type and unit must be looked up: unless both are given.
pub fn needs_lookup(args: &QueryArgs) -> (b: bool)
    ensures
        b == !(args.metric_type is Some && args.unit is Some),
{
    !(args.metric_type.is_some() && args.unit.is_some())
}

/// The given type and unit win over the looked-up ones.
pub fn merge_type_unit(args: &QueryArgs, looked_up: Option<(String, String)>) -> (r: (String, String))
    requires
        needs_lookup_spec(*args) ==> looked_up is Some,
    ensures
        r.0@ == match args.metric_type {
            Some(t) => t@,
            None => looked_up.unwrap().0@,
        },
        r.1@ == match args.unit {
            Some(u) => u@,
            None => looked_up.unwrap().1@,
        },
{
    let t = match &args.metric_type {
        Some(t) => t.clone(),
        None => match &looked_up {
            Some(l) => l.0.clone(),
            None => String::new(),
        },
    };
    let u = match &args.unit {
        Some(u) => u.clone(),
        None => match &looked_up {
            Some(l) => l.1.clone(),
            None => String::new(),
        },
    };
    (t, u)
}

pub open spec fn needs_lookup_spec(args: QueryArgs) -> bool {
    !(args.metric_type is Some && args.unit is Some)
}

/// The query string of the aggregate request: group-by attributes lead
/// the fields, then the aggregate.
pub open spec fn spec_query_params(
    args: QueryArgs,
    agg: Seq<char>,
    start: Seq<char>,
    end: Seq<char>,
    project: Option<Seq<char>>,
) -> Seq<(Seq<char>, Seq<char>)> {
    seq![
        ("query"@, args.query@),
        ("start"@, start),
        ("end"@, end),
        ("sort"@, match args.sort {
            Some(s) => s@,
            None => "-"@ + agg,
        }),
        ("per_page"@, decimal(args.limit as nat)),
        ("dataset"@, args.dataset@),
    ] + field_params(args.group_by@) + seq![("field"@, agg)] + opt_pair(
        "environment"@,
        opt_text(args.environment),
    ) + opt_pair("project"@, project)
}

pub fn query_params(args: &QueryArgs, agg: &str, start: String, end: String, project: Option<&str>) -> (r: Vec<
    (String, String),
>)
    ensures
        params_view(r@) == spec_query_params(*args, agg@, start@, end@, match project {
            Some(p) => Some(p@),
            None => None,
        }),
{
    let sort = match &args.sort {
        Some(s) => s.clone(),
        None => {
            let mut s = String::from_str("-");
            s.append(agg);
            s
        },
    };
    let mut q: Vec<(String, String)> = Vec::new();
    push_param(&mut q, "query", args.query.clone());
    push_param(&mut q, "start", start);
    push_param(&mut q, "end", end);
    push_param(&mut q, "sort", sort);
    push_param(&mut q, "per_page", count_text(args.limit));
    push_param(&mut q, "dataset", args.dataset.clone());
    push_fields(&mut q, &args.group_by);
    push_param(&mut q, "field", String::from_str(agg));
    let env = match &args.environment {
        Some(e) => Some(e.as_str()),
        None => None,
    };
    push_opt_param(&mut q, "environment", env);
    push_opt_param(&mut q, "project", project);
    q
}

} // verus!
