//! `monitors`: cron monitors, their check-ins, an audit, and creation.

use vstd::prelude::*;
use crate::json::{Json, JsonV, json_views, lemma_field_view, lemma_array_view};
use crate::output::Column;
use crate::query::{params_view, push_param, push_opt_param, count_text, org_path, make_org_path};
use crate::text::{decimal, opt_text, opt_view, eq_str, views, spec_parse_u64, parse_u64, push_decimal};
use crate::time::{
    Timestamp, Duration, rfc3339_instant, rfc3339_secs_text, parse_rfc3339, to_iso,
    spec_elapsed_exceeds, elapsed_exceeds, valid_instant,
};
use crate::commands::discover::opt_pair;
use crate::commands::issues::{with_member, set_member, column1, column2};

verus! {

pub struct MonitorsArgs {
    pub cmd: MonitorsCmd,
}

pub enum MonitorsCmd {
    /// List cron monitors for the org.
    List(ListArgs),
    /// Fetch a single monitor by slug.
    Get { slug: String },
    /// List recent check-ins for a monitor.
    Checkins(CheckinsArgs),
    /// Flag misconfigured or unhealthy monitors.
    Audit(AuditArgs),
    /// Create a monitor. Prints the payload unless --yes is passed.
    Create(CreateArgs),
}

pub struct ListArgs {
    /// Filter: active | disabled (monitor) or ok | error (any environment).
    pub status: Option<String>,
    /// Filter by monitor environment.
    pub env: Option<String>,
    pub limit: usize,
    pub max: usize,
}

pub struct CheckinsArgs {
    pub slug: String,
    /// Filter by environment.
    pub env: Option<String>,
    pub limit: usize,
    pub max: usize,
}

pub struct AuditArgs {
    /// Flag monitors with no check-in within this window, e.g. 12h, 7d.
    pub stale: String,
    /// Exit 2 if anything is flagged (for CI).
    pub fail_on_findings: bool,
    pub max: usize,
}

pub struct CreateArgs {
    /// Monitor slug (unique within the org). Optional with --from-file.
    pub slug: Option<String>,
    /// Display name. Defaults to the slug.
    pub name: Option<String>,
    /// Crontab schedule, e.g. "0 * * * *".
    pub crontab: Option<String>,
    /// Interval schedule: count and unit, e.g. --interval 30 minute.
    pub interval: Option<Vec<String>>,
    /// IANA timezone the schedule runs in.
    pub timezone: String,
    /// Minutes late before a check-in counts as missed.
    pub checkin_margin: Option<u64>,
    /// Minutes before an in-progress check-in is marked failed.
    pub max_runtime: Option<u64>,
    /// Failed check-ins before an issue is created.
    pub failure_threshold: Option<u64>,
    /// OK check-ins before the issue resolves.
    pub recovery_threshold: Option<u64>,
    /// Owner actor, e.g. team:6 or user:51.
    pub owner: Option<String>,
    /// Read the full monitor JSON from a file ("-" = stdin) instead of flags.
    pub from_file: Option<String>,
    /// Required to actually create. Without it the payload is printed as a dry run.
    pub yes: bool,
}

/// A monitor's environments, when it lists them as an array.
pub open spec fn environments(m: JsonV) -> Seq<JsonV> {
    match m.get("environments"@) {
        Some(JsonV::Array(a)) => a,
        _ => Seq::empty(),
    }
}

/// The instants that parse out of the environments' `key` texts, in order.
pub open spec fn env_instants(envs: Seq<JsonV>, key: Seq<char>) -> Seq<(i64, u32)>
    decreases envs.len(),
{
    if envs.len() == 0 {
        Seq::empty()
    } else {
        let rest = env_instants(envs.drop_last(), key);
        match envs.last().get_text(key) {
            Some(s) => match rfc3339_instant(s) {
                Some(t) => rest.push(t),
                None => rest,
            },
            None => rest,
        }
    }
}

/// `a` is no later than `b`.
pub open spec fn instant_le(a: (i64, u32), b: (i64, u32)) -> bool {
    a.0 < b.0 || (a.0 == b.0 && a.1 <= b.1)
}

/// The latest of the instants.
pub open spec fn latest(s: Seq<(i64, u32)>) -> Option<(i64, u32)>
    decreases s.len(),
{
    if s.len() == 0 {
        None
    } else {
        match latest(s.drop_last()) {
            None => Some(s.last()),
            Some(b) => if instant_le(b, s.last()) {
                Some(s.last())
            } else {
                Some(b)
            },
        }
    }
}

/// The latest instant is one of the instants and none of them is later;
/// there is one exactly when there are instants at all.
pub proof fn lemma_latest_is_max(s: Seq<(i64, u32)>)
    ensures
        latest(s) is None <==> s.len() == 0,
        latest(s) matches Some(m) ==> s.contains(m) && forall|i: int| 0 <= i < s.len() ==> instant_le(#[trigger] s[i], m),
    decreases s.len(),
{
    if s.len() > 0 {
        let rest = s.drop_last();
        lemma_latest_is_max(rest);
        let m = latest(s).unwrap();
        assert(s.contains(m)) by {
            match latest(rest) {
                None => {
                    assert(s[s.len() - 1] == m);
                },
                Some(b) => {
                    if instant_le(b, s.last()) {
                        assert(s[s.len() - 1] == m);
                    } else {
                        let k = choose|k: int| 0 <= k < rest.len() && rest[k] == b;
                        assert(s[k] == b);
                    }
                },
            }
        }
        assert forall|i: int| 0 <= i < s.len() implies instant_le(#[trigger] s[i], m) by {
            if i < s.len() - 1 {
                assert(s[i] == rest[i]);
            }
        }
    }
}

/// The latest `key` instant across a monitor's environments.
pub open spec fn spec_env_latest(m: JsonV, key: Seq<char>) -> Option<(i64, u32)> {
    latest(env_instants(environments(m), key))
}

fn environments_of(m: &Json) -> (r: Option<&Vec<Json>>)
    ensures
        match r {
            Some(v) => json_views(v@) == environments(m@),
            None => environments(m@) == Seq::<JsonV>::empty(),
        },
{
    proof {
        lemma_field_view(*m, "environments"@);
    }
    match m.get("environments") {
        Some(Json::Array(a)) => {
            proof {
                lemma_array_view(Json::Array(*a));
            }
            Some(a)
        },
        _ => None,
    }
}

fn text_member(v: &Json, key: &str) -> (r: Option<String>)
    ensures
        opt_text(r) == v@.get_text(key@),
{
    proof {
        lemma_field_view(*v, key@);
    }
    match v.get(key) {
        Some(x) => match x.as_str() {
            Some(s) => Some(String::from_str(s)),
            None => None,
        },
        None => None,
    }
}

/// The latest `key` check-in across a monitor's environments.
pub fn env_timestamps(monitor: &Json, key: &str) -> (r: Option<Timestamp>)
    ensures
        match r {
            Some(t) => spec_env_latest(monitor@, key@) == Some(t.parts()) && t.valid(),
            None => spec_env_latest(monitor@, key@) is None,
        },
        r is None <==> env_instants(environments(monitor@), key@).len() == 0,
        r matches Some(t) ==> env_instants(environments(monitor@), key@).contains(t.parts()) && forall|i: int|
            0 <= i < env_instants(environments(monitor@), key@).len() ==> instant_le(
                #[trigger] env_instants(environments(monitor@), key@)[i],
                t.parts(),
            ),
{
    proof {
        lemma_latest_is_max(env_instants(environments(monitor@), key@));
    }
    let empty: Vec<Json> = Vec::new();
    let envs = match environments_of(monitor) {
        Some(v) => v,
        None => &empty,
    };
    let ghost ev = environments(monitor@);
    assert(json_views(envs@) =~= ev);
    let n = envs.len();
    let mut best: Option<Timestamp> = None;
    let mut i: usize = 0;
    assert(ev.subrange(0, 0) =~= Seq::<JsonV>::empty());
    while i < n
        invariant
            n == envs@.len(),
            json_views(envs@) == ev,
            i <= n,
            match best {
                Some(t) => latest(env_instants(ev.subrange(0, i as int), key@)) == Some(t.parts()) && t.valid(),
                None => latest(env_instants(ev.subrange(0, i as int), key@)) is None,
            },
        decreases n - i,
    {
        let e = &envs[i];
        proof {
            let sub = ev.subrange(0, i + 1);
            assert(sub.drop_last() =~= ev.subrange(0, i as int));
            assert(sub.last() == e@);
        }
        let ghost prev = env_instants(ev.subrange(0, i as int), key@);
        match text_member(e, key) {
            Some(s) => match parse_rfc3339(s.as_str()) {
                Some(t) => {
                    proof {
                        assert(env_instants(ev.subrange(0, i + 1), key@) == prev.push(t.parts()));
                        assert(prev.push(t.parts()).drop_last() =~= prev);
                    }
                    let replace = match &best {
                        None => true,
                        Some(b) => b.secs < t.secs || (b.secs == t.secs && b.nanos <= t.nanos),
                    };
                    if replace {
                        best = Some(t);
                    }
                },
                None => {
                    assert(env_instants(ev.subrange(0, i + 1), key@) == prev);
                },
            },
            None => {
                assert(env_instants(ev.subrange(0, i + 1), key@) == prev);
            },
        }
        i = i + 1;
    }
    assert(ev.subrange(0, n as int) =~= ev);
    best
}

/// The `_lastCheckIn` / `_nextCheckIn` value: the instant as RFC 3339, or null.
pub open spec fn stamp_value(t: Option<(i64, u32)>) -> JsonV {
    match t {
        Some((s, n)) => JsonV::Str(rfc3339_secs_text(s, n)),
        None => JsonV::Null,
    }
}

fn stamp_json(t: Option<Timestamp>) -> (r: Json)
    requires
        t matches Some(x) ==> x.valid(),
    ensures
        r@ == stamp_value(match t {
            Some(x) => Some(x.parts()),
            None => None,
        }),
{
    match t {
        Some(x) => Json::Str(to_iso(&x)),
        None => Json::Null,
    }
}

/// Adds `_lastCheckIn` and `_nextCheckIn` (latest across environments) so
/// the table columns have flat paths.
pub fn annotate(monitor: &mut Json)
    ensures
        ({
            let last = stamp_value(spec_env_latest(old(monitor)@, "lastCheckIn"@));
            let next = stamp_value(spec_env_latest(old(monitor)@, "nextCheckIn"@));
            if old(monitor)@ is Object {
                &&& final(monitor)@ is Object
                &&& forall|k: Seq<char>| #[trigger] final(monitor)@.get(k) == if k == "_nextCheckIn"@ {
                    Some(next)
                } else if k == "_lastCheckIn"@ {
                    Some(last)
                } else {
                    old(monitor)@.get(k)
                }
            } else {
                final(monitor)@ == old(monitor)@
            }
        }),
{
    let last = env_timestamps(monitor, "lastCheckIn");
    let next = env_timestamps(monitor, "nextCheckIn");
    let lj = stamp_json(last);
    let nj = stamp_json(next);
    let ghost before = monitor@;
    set_member(monitor, "_lastCheckIn", lj);
    let ghost mid = monitor@;
    set_member(monitor, "_nextCheckIn", nj);
    proof {
        if before is Object {
            assert forall|k: Seq<char>| #[trigger] monitor@.get(k) == if k == "_nextCheckIn"@ {
                Some(nj@)
            } else if k == "_lastCheckIn"@ {
                Some(lj@)
            } else {
                before.get(k)
            } by {
                assert(mid.get(k) == if k == "_lastCheckIn"@ {
                    Some(lj@)
                } else {
                    before.get(k)
                });
            }
        }
    }
}

/// A member's text, or empty.
pub open spec fn text_or_empty(v: JsonV, key: Seq<char>) -> Seq<char> {
    match v.get_text(key) {
        Some(s) => s,
        None => Seq::empty(),
    }
}

/// Each environment's name and status (empty where missing).
pub open spec fn spec_env_statuses(m: JsonV) -> Seq<(Seq<char>, Seq<char>)> {
    environments(m).map_values(|e: JsonV| (text_or_empty(e, "name"@), text_or_empty(e, "status"@)))
}

fn text_or_empty_exec(v: &Json, key: &str) -> (r: String)
    ensures
        r@ == text_or_empty(v@, key@),
{
    match text_member(v, key) {
        Some(s) => s,
        None => String::new(),
    }
}

pub fn env_statuses(monitor: &Json) -> (r: Vec<(String, String)>)
    ensures
        params_view(r@) == spec_env_statuses(monitor@),
{
    let empty: Vec<Json> = Vec::new();
    let envs = match environments_of(monitor) {
        Some(v) => v,
        None => &empty,
    };
    let ghost ev = environments(monitor@);
    assert(json_views(envs@) =~= ev);
    let n = envs.len();
    let mut out: Vec<(String, String)> = Vec::new();
    let mut i: usize = 0;
    while i < n
        invariant
            n == envs@.len(),
            json_views(envs@) == ev,
            i <= n,
            params_view(out@) == ev.subrange(0, i as int).map_values(
                |e: JsonV| (text_or_empty(e, "name"@), text_or_empty(e, "status"@)),
            ),
        decreases n - i,
    {
        let e = &envs[i];
        assert(ev[i as int] == e@);
        let name = text_or_empty_exec(e, "name");
        let status = text_or_empty_exec(e, "status");
        let ghost prev = params_view(out@);
        out.push((name, status));
        assert(params_view(out@) =~= prev.push((text_or_empty(e@, "name"@), text_or_empty(e@, "status"@))));
        assert(ev.subrange(0, i + 1).map_values(
            |e: JsonV| (text_or_empty(e, "name"@), text_or_empty(e, "status"@)),
        ) =~= ev.subrange(0, i as int).map_values(
            |e: JsonV| (text_or_empty(e, "name"@), text_or_empty(e, "status"@)),
        ).push((text_or_empty(e@, "name"@), text_or_empty(e@, "status"@))));
        assert(params_view(out@) =~= ev.subrange(0, i + 1).map_values(
            |e: JsonV| (text_or_empty(e, "name"@), text_or_empty(e, "status"@)),
        ));
        i = i + 1;
    }
    assert(ev.subrange(0, n as int) =~= ev);
    out
}


/// A monitor matches a status filter by its own status or any
/// environment's.
pub open spec fn matches_status(m: JsonV, want: Seq<char>) -> bool {
    text_or_empty(m, "status"@) == want || exists|i: int|
        0 <= i < spec_env_statuses(m).len() && (#[trigger] spec_env_statuses(m)[i]).1 == want
}

/// The monitors that match, in order.
pub open spec fn keep_matching(s: Seq<JsonV>, want: Seq<char>) -> Seq<JsonV>
    decreases s.len(),
{
    if s.len() == 0 {
        Seq::empty()
    } else {
        let rest = keep_matching(s.drop_last(), want);
        if matches_status(s.last(), want) {
            rest.push(s.last())
        } else {
            rest
        }
    }
}

fn matches_status_exec(m: &Json, want: &str) -> (b: bool)
    ensures
        b == matches_status(m@, want@),
{
    let top = text_or_empty_exec(m, "status");
    if eq_str(top.as_str(), want) {
        return true;
    }
    let envs = env_statuses(m);
    let ghost es = spec_env_statuses(m@);
    let n = envs.len();
    let mut i: usize = 0;
    while i < n
        invariant
            n == envs@.len(),
            params_view(envs@) == es,
            es == spec_env_statuses(m@),
            i <= n,
            forall|j: int| 0 <= j < i ==> (#[trigger] es[j]).1 != want@,
        decreases n - i,
    {
        assert(es[i as int] == (envs@[i as int].0@, envs@[i as int].1@));
        if eq_str(envs[i].1.as_str(), want) {
            return true;
        }
        i = i + 1;
    }
    false
}

/// `monitors list --status`: keeps the monitors whose status, or any of
/// whose environments' status, is `want`.
pub fn keep_status(items: Vec<Json>, want: &str) -> (r: Vec<Json>)
    ensures
        json_views(r@) == keep_matching(json_views(items@), want@),
{
    let ghost all = json_views(items@);
    let mut items = items;
    let n = items.len();
    let mut out: Vec<Json> = Vec::new();
    let mut k: usize = 0;
    assert(all.subrange(0, 0) =~= Seq::<JsonV>::empty());
    while k < n
        invariant
            n == all.len(),
            k <= n,
            json_views(items@) == all.subrange(k as int, n as int),
            json_views(out@) == keep_matching(all.subrange(0, k as int), want@),
        decreases n - k,
    {
        assert(json_views(items@).len() == items@.len());
        assert(json_views(items@)[0] == items@[0]@);
        let ghost before = items@;
        let m = items.remove(0);
        proof {
            assert(m@ == all[k as int]);
            assert forall|j: int| 0 <= j < items@.len() implies json_views(items@)[j] == all.subrange(k + 1, n as int)[j] by {
                assert(items@[j] == before[j + 1]);
                assert(json_views(before)[j + 1] == before[j + 1]@);
            }
            assert(json_views(items@) =~= all.subrange(k + 1, n as int));
            let sub = all.subrange(0, k + 1);
            assert(sub.drop_last() =~= all.subrange(0, k as int));
            assert(sub.last() == m@);
        }
        if matches_status_exec(&m, want) {
            let ghost prev = json_views(out@);
            out.push(m);
            assert(json_views(out@) =~= prev.push(all[k as int]));
        }
        k = k + 1;
    }
    assert(all.subrange(0, n as int) =~= all);
    out
}

/// The query of a monitor listing.
pub open spec fn spec_monitor_params(limit: usize, project: Option<Seq<char>>, env: Option<Seq<char>>) -> Seq<(Seq<char>, Seq<char>)> {
    seq![("per_page"@, decimal(limit as nat))] + opt_pair("project"@, project) + opt_pair("environment"@, env)
}

pub fn monitor_params(limit: usize, project: Option<&str>, env: Option<&str>) -> (r: Vec<(String, String)>)
    ensures
        params_view(r@) == spec_monitor_params(limit, match project {
            Some(p) => Some(p@),
            None => None,
        }, match env {
            Some(e) => Some(e@),
            None => None,
        }),
{
    let mut q: Vec<(String, String)> = Vec::new();
    push_param(&mut q, "per_page", count_text(limit));
    push_opt_param(&mut q, "project", project);
    push_opt_param(&mut q, "environment", env);
    q
}

/// `/organizations/<org>/monitors/`.
pub fn monitors_path(org: &str) -> (r: String)
    ensures
        r@ == org_path(org@, "monitors"@),
{
    make_org_path(org, "monitors")
}

/// `/organizations/<org>/monitors/<slug>/`.
pub fn monitor_path(org: &str, slug: &str) -> (r: String)
    ensures
        r@ == "/organizations/"@ + org@ + "/monitors/"@ + slug@ + "/"@,
{
    let mut r = String::from_str("/organizations/");
    r.append(org);
    r.append("/monitors/");
    r.append(slug);
    r.append("/");
    r
}

/// Path and query of `monitors checkins`.
pub fn checkins_request(args: &CheckinsArgs, org: &str) -> (r: (String, Vec<(String, String)>))
    ensures
        r.0@ == "/organizations/"@ + org@ + "/monitors/"@ + args.slug@ + "/checkins/"@,
        params_view(r.1@) == seq![("per_page"@, decimal(args.limit as nat))] + opt_pair(
            "environment"@,
            opt_text(args.env),
        ),
{
    let mut path = String::from_str("/organizations/");
    path.append(org);
    path.append("/monitors/");
    path.append(args.slug.as_str());
    path.append("/checkins/");
    let mut q: Vec<(String, String)> = Vec::new();
    push_param(&mut q, "per_page", count_text(args.limit));
    let env = match &args.env {
        Some(e) => Some(e.as_str()),
        None => None,
    };
    push_opt_param(&mut q, "environment", env);
    (path, q)
}

/// The columns of `monitors list`.
pub fn list_columns() -> (r: Vec<Column>)
    ensures
        r@.len() == 7,
        r@[0].header@ == "SLUG"@ && views(r@[0].path@) == seq!["slug"@],
        r@[1].header@ == "NAME"@ && views(r@[1].path@) == seq!["name"@],
        r@[2].header@ == "SCHEDULE"@ && views(r@[2].path@) == seq!["config"@, "schedule"@],
        r@[3].header@ == "STATUS"@ && views(r@[3].path@) == seq!["status"@],
        r@[4].header@ == "MUTED"@ && views(r@[4].path@) == seq!["isMuted"@],
        r@[5].header@ == "LAST-CHECKIN"@ && views(r@[5].path@) == seq!["_lastCheckIn"@],
        r@[6].header@ == "NEXT-EXPECTED"@ && views(r@[6].path@) == seq!["_nextCheckIn"@],
{
    let mut r: Vec<Column> = Vec::new();
    r.push(column1("SLUG", "slug"));
    r.push(column1("NAME", "name"));
    r.push(column2("SCHEDULE", "config", "schedule"));
    r.push(column1("STATUS", "status"));
    r.push(column1("MUTED", "isMuted"));
    r.push(column1("LAST-CHECKIN", "_lastCheckIn"));
    r.push(column1("NEXT-EXPECTED", "_nextCheckIn"));
    r
}

/// The columns of `monitors checkins`.
pub fn checkin_columns() -> (r: Vec<Column>)
    ensures
        r@.len() == 5,
        r@[0].header@ == "ID"@ && views(r@[0].path@) == seq!["id"@],
        r@[1].header@ == "STATUS"@ && views(r@[1].path@) == seq!["status"@],
        r@[2].header@ == "STARTED"@ && views(r@[2].path@) == seq!["dateCreated"@],
        r@[3].header@ == "DUR_MS"@ && views(r@[3].path@) == seq!["duration"@],
        r@[4].header@ == "ENV"@ && views(r@[4].path@) == seq!["environment"@],
{
    let mut r: Vec<Column> = Vec::new();
    r.push(column1("ID", "id"));
    r.push(column1("STATUS", "status"));
    r.push(column1("STARTED", "dateCreated"));
    r.push(column1("DUR_MS", "duration"));
    r.push(column1("ENV", "environment"));
    r
}

/// The columns of `monitors audit`.
pub fn audit_columns() -> (r: Vec<Column>)
    ensures
        r@.len() == 3,
        r@[0].header@ == "SLUG"@ && views(r@[0].path@) == seq!["slug"@],
        r@[1].header@ == "FINDING"@ && views(r@[1].path@) == seq!["finding"@],
        r@[2].header@ == "DETAIL"@ && views(r@[2].path@) == seq!["detail"@],
{
    let mut r: Vec<Column> = Vec::new();
    r.push(column1("SLUG", "slug"));
    r.push(column1("FINDING", "finding"));
    r.push(column1("DETAIL", "detail"));
    r
}


/// One audit finding: slug, finding, detail.
pub type Finding = (Seq<char>, Seq<char>, Seq<char>);

/// A finding as the JSON object printed.
pub open spec fn finding_view(f: Finding) -> JsonV {
    JsonV::Object(seq![("slug"@, JsonV::Str(f.0)), ("finding"@, JsonV::Str(f.1)), ("detail"@, JsonV::Str(f.2))])
}

/// `isMuted` is `true`.
pub open spec fn is_muted(m: JsonV) -> bool {
    match m.get("isMuted"@) {
        Some(JsonV::Bool(b)) => b,
        _ => false,
    }
}

/// `config.<key>` is present and not null.
pub open spec fn config_set(m: JsonV, key: Seq<char>) -> bool {
    match m.get("config"@) {
        Some(c) => match c.get(key) {
            Some(JsonV::Null) => false,
            Some(_) => true,
            None => false,
        },
        None => false,
    }
}

/// Findings for the environments in error.
pub open spec fn env_findings(slug: Seq<char>, envs: Seq<(Seq<char>, Seq<char>)>, muted: bool) -> Seq<Finding>
    decreases envs.len(),
{
    if envs.len() == 0 {
        Seq::empty()
    } else {
        let rest = env_findings(slug, envs.drop_last(), muted);
        let (env, status) = envs.last();
        if status == "error"@ {
            if muted {
                rest.push(
                    (
                        slug,
                        "muted-while-failing"@,
                        "environment '"@ + env + "' is failing but the monitor is muted"@,
                    ),
                )
            } else {
                rest.push((slug, "failing"@, "environment '"@ + env + "' status is error"@))
            }
        } else {
            rest
        }
    }
}

pub open spec fn when(c: bool, f: Finding) -> Seq<Finding> {
    if c {
        seq![f]
    } else {
        Seq::empty()
    }
}

/// A finding when the latest check-in is older than `stale`.
pub open spec fn stale_findings(m: JsonV, slug: Seq<char>, now: Timestamp, stale: Duration, stale_text: Seq<char>) -> Seq<Finding> {
    match spec_env_latest(m, "lastCheckIn"@) {
        Some((ls, ln)) => when(
            spec_elapsed_exceeds(now, Timestamp { secs: ls, nanos: ln }, stale),
            (slug, "stale"@, "last check-in "@ + rfc3339_secs_text(ls, ln) + " (older than "@ + stale_text + ")"@),
        ),
        None => Seq::empty(),
    }
}

/// What the audit flags for one monitor, in order.
pub open spec fn monitor_findings(m: JsonV, now: Timestamp, stale: Duration, stale_text: Seq<char>) -> Seq<Finding> {
    let slug = match m.get_text("slug"@) {
        Some(s) => s,
        None => "?"@,
    };
    let status = text_or_empty(m, "status"@);
    let envs = spec_env_statuses(m);
    when(status == "disabled"@, (slug, "disabled"@, "monitor is disabled and accepts no check-ins"@))
        + env_findings(slug, envs, is_muted(m)) + when(
        envs.len() == 0 && status != "disabled"@,
        (slug, "never-checked-in"@, "no environments; no check-in ever received"@),
    ) + stale_findings(m, slug, now, stale, stale_text) + when(
        !config_set(m, "checkin_margin"@),
        (
            slug,
            "no-checkin-margin"@,
            "config.checkin_margin unset; missed runs detected only after the 1-minute default"@,
        ),
    ) + when(
        !config_set(m, "max_runtime"@),
        (slug, "no-max-runtime"@, "config.max_runtime unset; hung jobs fail only after the 30-minute default"@),
    )
}

/// What the audit flags across monitors, in order.
pub open spec fn all_findings(items: Seq<JsonV>, now: Timestamp, stale: Duration, stale_text: Seq<char>) -> Seq<Finding>
    decreases items.len(),
{
    if items.len() == 0 {
        Seq::empty()
    } else {
        all_findings(items.drop_last(), now, stale, stale_text) + monitor_findings(items.last(), now, stale, stale_text)
    }
}

pub open spec fn findings_views(f: Seq<Finding>) -> Seq<JsonV> {
    f.map_values(|x: Finding| finding_view(x))
}

fn push_finding(out: &mut Vec<Json>, slug: &str, finding: &str, detail: String)
    ensures
        json_views(final(out)@) == json_views(old(out)@).push(finding_view((slug@, finding@, detail@))),
{
    let ghost d = detail@;
    let mut e: Vec<(String, Json)> = Vec::new();
    e.push((String::from_str("slug"), Json::Str(String::from_str(slug))));
    e.push((String::from_str("finding"), Json::Str(String::from_str(finding))));
    e.push((String::from_str("detail"), Json::Str(detail)));
    let j = Json::Object(e);
    proof {
        crate::json::lemma_object_view(j);
        assert(crate::json::entries_views(e@) =~= seq![
            ("slug"@, JsonV::Str(slug@)),
            ("finding"@, JsonV::Str(finding@)),
            ("detail"@, JsonV::Str(d)),
        ]);
    }
    out.push(j);
    assert(json_views(out@) =~= json_views(old(out)@).push(finding_view((slug@, finding@, d))));
}

fn is_muted_exec(m: &Json) -> (b: bool)
    ensures
        b == is_muted(m@),
{
    proof {
        lemma_field_view(*m, "isMuted"@);
    }
    match m.get("isMuted") {
        Some(Json::Bool(b)) => *b,
        _ => false,
    }
}

fn config_set_exec(m: &Json, key: &str) -> (b: bool)
    ensures
        b == config_set(m@, key@),
{
    proof {
        lemma_field_view(*m, "config"@);
    }
    match m.get("config") {
        Some(c) => {
            proof {
                lemma_field_view(*c, key@);
            }
            match c.get(key) {
                Some(Json::Null) => false,
                Some(_) => true,
                None => false,
            }
        },
        None => false,
    }
}

fn push_when(out: &mut Vec<Json>, c: bool, slug: &str, finding: &str, detail: &str)
    ensures
        json_views(final(out)@) == json_views(old(out)@) + findings_views(when(c, (slug@, finding@, detail@))),
{
    if c {
        push_finding(out, slug, finding, String::from_str(detail));
        assert(findings_views(when(c, (slug@, finding@, detail@))) =~= seq![finding_view((slug@, finding@, detail@))]);
    } else {
        assert(findings_views(when(c, (slug@, finding@, detail@))) =~= Seq::<JsonV>::empty());
    }
    assert(json_views(out@) =~= json_views(old(out)@) + findings_views(when(c, (slug@, finding@, detail@))));
}

fn push_env_findings(out: &mut Vec<Json>, slug: &str, envs: &Vec<(String, String)>, muted: bool)
    ensures
        json_views(final(out)@) == json_views(old(out)@) + findings_views(env_findings(slug@, params_view(envs@), muted)),
{
    let ghost es = params_view(envs@);
    let n = envs.len();
    let mut i: usize = 0;
    assert(es.subrange(0, 0) =~= Seq::<(Seq<char>, Seq<char>)>::empty());
    assert(json_views(out@) =~= json_views(old(out)@) + findings_views(env_findings(slug@, es.subrange(0, 0), muted)));
    while i < n
        invariant
            n == envs@.len(),
            es == params_view(envs@),
            i <= n,
            json_views(out@) == json_views(old(out)@) + findings_views(env_findings(slug@, es.subrange(0, i as int), muted)),
        decreases n - i,
    {
        let ghost prev = json_views(out@);
        let ghost pf = env_findings(slug@, es.subrange(0, i as int), muted);
        proof {
            let sub = es.subrange(0, i + 1);
            assert(sub.drop_last() =~= es.subrange(0, i as int));
            assert(sub.last() == (envs@[i as int].0@, envs@[i as int].1@));
        }
        let env = &envs[i].0;
        if eq_str(envs[i].1.as_str(), "error") {
            let mut d = String::from_str("environment '");
            d.append(env.as_str());
            if muted {
                d.append("' is failing but the monitor is muted");
                push_finding(out, slug, "muted-while-failing", d);
            } else {
                d.append("' status is error");
                push_finding(out, slug, "failing", d);
            }
            proof {
                let nf = env_findings(slug@, es.subrange(0, i + 1), muted);
                assert(nf == pf.push(nf.last()));
                assert(findings_views(nf) =~= findings_views(pf).push(finding_view(nf.last())));
            }
        }
        i = i + 1;
    }
    assert(es.subrange(0, n as int) =~= es);
}

proof fn lemma_fv_add(a: Seq<Finding>, b: Seq<Finding>)
    ensures
        findings_views(a + b) == findings_views(a) + findings_views(b),
{
    assert(findings_views(a + b) =~= findings_views(a) + findings_views(b));
}

fn push_stale(out: &mut Vec<Json>, m: &Json, slug: &str, now: &Timestamp, stale: &Duration, stale_text: &str)
    requires
        now.valid(),
    ensures
        json_views(final(out)@) == json_views(old(out)@) + findings_views(stale_findings(m@, slug@, *now, *stale, stale_text@)),
{
    let ghost part = stale_findings(m@, slug@, *now, *stale, stale_text@);
    match env_timestamps(m, "lastCheckIn") {
        Some(last) => {
            if elapsed_exceeds(now, &last, stale) {
                let mut d = String::from_str("last check-in ");
                let iso = to_iso(&last);
                d.append(iso.as_str());
                d.append(" (older than ");
                d.append(stale_text);
                d.append(")");
                push_finding(out, slug, "stale", d);
                assert(findings_views(part) =~= seq![finding_view(part[0])]);
            } else {
                assert(findings_views(part) =~= Seq::<JsonV>::empty());
            }
        },
        None => {
            assert(findings_views(part) =~= Seq::<JsonV>::empty());
        },
    }
    assert(json_views(out@) =~= json_views(old(out)@) + findings_views(part));
}

#[verifier::rlimit(40)]
fn push_monitor_findings(out: &mut Vec<Json>, m: &Json, now: &Timestamp, stale: &Duration, stale_text: &str)
    requires
        now.valid(),
    ensures
        json_views(final(out)@) == json_views(old(out)@) + findings_views(monitor_findings(m@, *now, *stale, stale_text@)),
{
    let slug = match text_member(m, "slug") {
        Some(s) => s,
        None => String::from_str("?"),
    };
    let status = text_or_empty_exec(m, "status");
    let muted = is_muted_exec(m);
    let envs = env_statuses(m);
    let disabled = eq_str(status.as_str(), "disabled");
    let ghost o0 = json_views(out@);
    push_when(out, disabled, slug.as_str(), "disabled", "monitor is disabled and accepts no check-ins");
    push_env_findings(out, slug.as_str(), &envs, muted);
    push_when(
        out,
        envs.len() == 0 && !disabled,
        slug.as_str(),
        "never-checked-in",
        "no environments; no check-in ever received",
    );
    push_stale(out, m, slug.as_str(), now, stale, stale_text);
    let margin = config_set_exec(m, "checkin_margin");
    push_when(
        out,
        !margin,
        slug.as_str(),
        "no-checkin-margin",
        "config.checkin_margin unset; missed runs detected only after the 1-minute default",
    );
    let runtime = config_set_exec(m, "max_runtime");
    push_when(
        out,
        !runtime,
        slug.as_str(),
        "no-max-runtime",
        "config.max_runtime unset; hung jobs fail only after the 30-minute default",
    );
    proof {
        let a = when(disabled, (slug@, "disabled"@, "monitor is disabled and accepts no check-ins"@));
        let b = env_findings(slug@, params_view(envs@), muted);
        let c = when(
            envs@.len() == 0 && !disabled,
            (slug@, "never-checked-in"@, "no environments; no check-in ever received"@),
        );
        let st = stale_findings(m@, slug@, *now, *stale, stale_text@);
        let d = when(
            !margin,
            (
                slug@,
                "no-checkin-margin"@,
                "config.checkin_margin unset; missed runs detected only after the 1-minute default"@,
            ),
        );
        let e = when(
            !runtime,
            (slug@, "no-max-runtime"@, "config.max_runtime unset; hung jobs fail only after the 30-minute default"@),
        );
        assert(params_view(envs@).len() == envs@.len());
        lemma_fv_add(a, b);
        lemma_fv_add(a + b, c);
        lemma_fv_add(a + b + c, st);
        lemma_fv_add(a + b + c + st, d);
        lemma_fv_add(a + b + c + st + d, e);
        assert(monitor_findings(m@, *now, *stale, stale_text@) == a + b + c + st + d + e);
        assert(json_views(out@) =~= o0 + findings_views(a + b + c + st + d + e));
    }
}

/// `monitors audit`: the findings across the monitors, with `now` the
/// clock's reading, `stale` the parsed `--stale` and `stale_text` as given.
pub fn audit_findings(items: &Vec<Json>, now: &Timestamp, stale: &Duration, stale_text: &str) -> (r: Vec<Json>)
    requires
        now.valid(),
    ensures
        json_views(r@) == findings_views(all_findings(json_views(items@), *now, *stale, stale_text@)),
{
    let ghost all = json_views(items@);
    let n = items.len();
    let mut out: Vec<Json> = Vec::new();
    let mut i: usize = 0;
    assert(all.subrange(0, 0) =~= Seq::<JsonV>::empty());
    assert(json_views(out@) =~= findings_views(all_findings(all.subrange(0, 0), *now, *stale, stale_text@)));
    while i < n
        invariant
            n == items@.len(),
            all == json_views(items@),
            now.valid(),
            i <= n,
            json_views(out@) == findings_views(all_findings(all.subrange(0, i as int), *now, *stale, stale_text@)),
        decreases n - i,
    {
        let ghost prev = all_findings(all.subrange(0, i as int), *now, *stale, stale_text@);
        push_monitor_findings(&mut out, &items[i], now, stale, stale_text);
        proof {
            let sub = all.subrange(0, i + 1);
            assert(sub.drop_last() =~= all.subrange(0, i as int));
            assert(sub.last() == items@[i as int]@);
            let mf = monitor_findings(items@[i as int]@, *now, *stale, stale_text@);
            lemma_fv_add(prev, mf);
        }
        i = i + 1;
    }
    assert(all.subrange(0, n as int) =~= all);
    out
}

/// The notice when the audit finds nothing (text and table output).
pub fn no_findings_notice(count: usize) -> (r: String)
    ensures
        r@ == "Audited "@ + decimal(count as nat) + " monitors: no findings."@,
{
    let mut r = String::from_str("Audited ");
    push_decimal(&mut r, count as u64);
    r.append(" monitors: no findings.");
    r
}

/// The notice before exiting with status 2 under `--fail-on-findings`.
pub fn findings_notice(findings: usize, monitors: usize) -> (r: String)
    ensures
        r@ == decimal(findings as nat) + " findings across "@ + decimal(monitors as nat) + " monitors."@,
{
    let mut r = String::new();
    push_decimal(&mut r, findings as u64);
    r.append(" findings across ");
    push_decimal(&mut r, monitors as u64);
    r.append(" monitors.");
    r
}


/// Why `monitors create` could not build a payload from its flags.
pub enum PayloadError {
    MissingSlug,
    MissingProject,
    BadIntervalCount { value: String },
    BadIntervalUnit { unit: String },
    ScheduleChoice,
}

impl PayloadError {
    pub open spec fn spec_message(&self) -> Seq<char> {
        match self {
            PayloadError::MissingSlug => "a monitor slug is required (or use --from-file)"@,
            PayloadError::MissingProject => "monitors create needs a project. Pass -P/--sentry-project <slug>."@,
            PayloadError::BadIntervalCount { value } => "--interval count must be a number, got '"@ + value@ + "'"@,
            PayloadError::BadIntervalUnit { unit } => "--interval unit must be one of minute|hour|day|week|month|year, got '"@
                + unit@ + "'"@,
            PayloadError::ScheduleChoice => "exactly one of --crontab or --interval is required"@,
        }
    }

    pub fn message(&self) -> (r: String)
        ensures
            r@ == self.spec_message(),
    {
        match self {
            PayloadError::MissingSlug => String::from_str("a monitor slug is required (or use --from-file)"),
            PayloadError::MissingProject => String::from_str(
                "monitors create needs a project. Pass -P/--sentry-project <slug>.",
            ),
            PayloadError::BadIntervalCount { value } => {
                let mut r = String::from_str("--interval count must be a number, got '");
                r.append(value.as_str());
                r.append("'");
                r
            },
            PayloadError::BadIntervalUnit { unit } => {
                let mut r = String::from_str(
                    "--interval unit must be one of minute|hour|day|week|month|year, got '",
                );
                r.append(unit.as_str());
                r.append("'");
                r
            },
            PayloadError::ScheduleChoice => String::from_str("exactly one of --crontab or --interval is required"),
        }
    }
}

/// The units an interval schedule accepts.
pub open spec fn interval_unit_ok(u: Seq<char>) -> bool {
    u == "minute"@ || u == "hour"@ || u == "day"@ || u == "week"@ || u == "month"@ || u == "year"@
}

fn interval_unit_ok_exec(u: &str) -> (b: bool)
    ensures
        b == interval_unit_ok(u@),
{
    eq_str(u, "minute") || eq_str(u, "hour") || eq_str(u, "day") || eq_str(u, "week") || eq_str(u, "month")
        || eq_str(u, "year")
}

/// `monitors create` builds its payload from flags (not `--from-file`), and
/// where the interval is read, with a slug and a project given and no
/// crontab, it has a count and a unit.
pub open spec fn create_ready(args: CreateArgs, project: Option<Seq<char>>) -> bool {
    &&& args.from_file is None
    &&& (args.slug is Some && project is Some && args.crontab is None && args.interval is Some)
        ==> args.interval.unwrap()@.len() >= 2
}

/// The schedule: a crontab, or an interval's count and unit.
pub enum ScheduleV {
    Crontab(Seq<char>),
    Interval(u64, Seq<char>),
}

/// What went wrong with the schedule flags.
pub enum ScheduleFault {
    BadCount(Seq<char>),
    BadUnit(Seq<char>),
    NotExactlyOne,
}

pub open spec fn spec_schedule(args: CreateArgs) -> Result<ScheduleV, ScheduleFault> {
    match (args.crontab, args.interval) {
        (Some(c), None) => Ok(ScheduleV::Crontab(c@)),
        (None, Some(iv)) => match spec_parse_u64(iv@[0]@) {
            None => Err(ScheduleFault::BadCount(iv@[0]@)),
            Some(n) => if interval_unit_ok(iv@[1]@) {
                Ok(ScheduleV::Interval(n, iv@[1]@))
            } else {
                Err(ScheduleFault::BadUnit(iv@[1]@))
            },
        },
        _ => Err(ScheduleFault::NotExactlyOne),
    }
}

/// A count as a JSON number.
pub open spec fn num(n: u64) -> JsonV {
    JsonV::Number(decimal(n as nat))
}

pub open spec fn opt_num(key: Seq<char>, v: Option<u64>) -> Seq<(Seq<char>, JsonV)> {
    match v {
        Some(n) => seq![(key, num(n))],
        None => Seq::empty(),
    }
}

/// The `config` members of a monitor.
pub open spec fn config_members(args: CreateArgs, sched: ScheduleV) -> Seq<(Seq<char>, JsonV)> {
    let (value, kind) = match sched {
        ScheduleV::Crontab(c) => (JsonV::Str(c), "crontab"@),
        ScheduleV::Interval(n, u) => (JsonV::Array(seq![num(n), JsonV::Str(u)]), "interval"@),
    };
    seq![("schedule_type"@, JsonV::Str(kind)), ("schedule"@, value), ("timezone"@, JsonV::Str(args.timezone@))]
        + opt_num("checkin_margin"@, args.checkin_margin) + opt_num("max_runtime"@, args.max_runtime) + opt_num(
        "failure_issue_threshold"@,
        args.failure_threshold,
    ) + opt_num("recovery_threshold"@, args.recovery_threshold)
}

/// The members of the payload.
pub open spec fn payload_members(args: CreateArgs, project: Seq<char>, slug: Seq<char>, sched: ScheduleV) -> Seq<(Seq<char>, JsonV)> {
    seq![
        ("project"@, JsonV::Str(project)),
        ("slug"@, JsonV::Str(slug)),
        ("name"@, JsonV::Str(
            match args.name {
                Some(n) => n@,
                None => slug,
            },
        )),
        ("config"@, JsonV::Object(config_members(args, sched))),
    ] + match args.owner {
        Some(o) => seq![("owner"@, JsonV::Str(o@))],
        None => Seq::empty(),
    }
}

/// The payload's `name` is `--name` when it is given, else the slug; its
/// `project` and `slug` are the ones given.
pub proof fn lemma_payload_name(args: CreateArgs, project: Seq<char>, slug: Seq<char>, sched: ScheduleV)
    ensures
        JsonV::Object(payload_members(args, project, slug, sched)).get("name"@) == Some(
            JsonV::Str(
                match args.name {
                    Some(n) => n@,
                    None => slug,
                },
            ),
        ),
        JsonV::Object(payload_members(args, project, slug, sched)).get("project"@) == Some(JsonV::Str(project)),
        JsonV::Object(payload_members(args, project, slug, sched)).get("slug"@) == Some(JsonV::Str(slug)),
{
    reveal_strlit("name");
    reveal_strlit("project");
    reveal_strlit("slug");
    let e = payload_members(args, project, slug, sched);
    assert(e[0].0 == "project"@ && e[1].0 == "slug"@ && e[2].0 == "name"@);
    assert("project"@ != "name"@ && "slug"@ != "name"@ && "project"@ != "slug"@) by {
        assert("project"@[0] != "name"@[0]);
        assert("slug"@[0] != "name"@[0]);
        assert("project"@.len() != "slug"@.len());
    }
    crate::json::lemma_member_v_skip(e, "name"@, 2);
    crate::json::lemma_member_v_skip(e, "slug"@, 1);
    crate::json::lemma_member_v_skip(e, "project"@, 0);
}

fn number_json(n: u64) -> (r: Json)
    ensures
        r@ == num(n),
{
    let mut t = String::new();
    push_decimal(&mut t, n);
    assert(t@ =~= decimal(n as nat));
    Json::Number(t)
}

fn push_member(v: &mut Vec<(String, Json)>, key: &str, value: Json)
    ensures
        crate::json::entries_views(final(v)@) == crate::json::entries_views(old(v)@).push((key@, value@)),
{
    let ghost vv = value@;
    v.push((String::from_str(key), value));
    assert(crate::json::entries_views(v@) =~= crate::json::entries_views(old(v)@).push((key@, vv)));
}

fn push_opt_num(v: &mut Vec<(String, Json)>, key: &str, value: Option<u64>)
    ensures
        crate::json::entries_views(final(v)@) == crate::json::entries_views(old(v)@) + opt_num(key@, value),
{
    match value {
        Some(n) => {
            push_member(v, key, number_json(n));
            assert(crate::json::entries_views(v@) =~= crate::json::entries_views(old(v)@) + opt_num(key@, value));
        },
        None => {
            assert(crate::json::entries_views(v@) =~= crate::json::entries_views(old(v)@) + opt_num(key@, value));
        },
    }
}

/// The monitor payload from the `monitors create` flags.
pub fn build_payload(args: &CreateArgs, project: Option<&str>) -> (r: Result<Json, PayloadError>)
    requires
        create_ready(*args, opt_view(project)),
    ensures
        match args.slug {
            None => r matches Err(PayloadError::MissingSlug),
            Some(slug) => match project {
                None => r matches Err(PayloadError::MissingProject),
                Some(p) => match spec_schedule(*args) {
                    Err(ScheduleFault::BadCount(v)) => (r matches Err(PayloadError::BadIntervalCount { value: x }) && x@ == v),
                    Err(ScheduleFault::BadUnit(u)) => (r matches Err(PayloadError::BadIntervalUnit { unit: x }) && x@ == u),
                    Err(ScheduleFault::NotExactlyOne) => r matches Err(PayloadError::ScheduleChoice),
                    Ok(sched) => (r matches Ok(j) && j@ == JsonV::Object(payload_members(*args, p@, slug@, sched))),
                },
            },
        },
        r matches Ok(j) ==> j@.get("name"@) == Some(
            JsonV::Str(
                match args.name {
                    Some(n) => n@,
                    None => args.slug.unwrap()@,
                },
            ),
        ),
{
    let slug = match &args.slug {
        Some(s) => s,
        None => {
            return Err(PayloadError::MissingSlug);
        },
    };
    let project = match project {
        Some(p) => p,
        None => {
            return Err(PayloadError::MissingProject);
        },
    };
    let ghost sched_spec = spec_schedule(*args);
    let (schedule, kind): (Json, &str) = match (&args.crontab, &args.interval) {
        (Some(c), None) => (Json::Str(c.clone()), "crontab"),
        (None, Some(iv)) => {
            let n = match parse_u64(iv[0].as_str()) {
                Some(n) => n,
                None => {
                    return Err(PayloadError::BadIntervalCount { value: iv[0].clone() });
                },
            };
            if !interval_unit_ok_exec(iv[1].as_str()) {
                return Err(PayloadError::BadIntervalUnit { unit: iv[1].clone() });
            }
            let mut items: Vec<Json> = Vec::new();
            items.push(number_json(n));
            items.push(Json::Str(iv[1].clone()));
            let a = Json::Array(items);
            proof {
                lemma_array_view(a);
                assert(json_views(a->Array_0@) =~= seq![num(n), JsonV::Str(iv@[1]@)]);
            }
            (a, "interval")
        },
        _ => {
            return Err(PayloadError::ScheduleChoice);
        },
    };
    let ghost sched = match sched_spec {
        Ok(x) => x,
        Err(_) => ScheduleV::Crontab(Seq::empty()),
    };
    let mut config: Vec<(String, Json)> = Vec::new();
    push_member(&mut config, "schedule_type", Json::Str(String::from_str(kind)));
    push_member(&mut config, "schedule", schedule);
    push_member(&mut config, "timezone", Json::Str(args.timezone.clone()));
    push_opt_num(&mut config, "checkin_margin", args.checkin_margin);
    push_opt_num(&mut config, "max_runtime", args.max_runtime);
    push_opt_num(&mut config, "failure_issue_threshold", args.failure_threshold);
    push_opt_num(&mut config, "recovery_threshold", args.recovery_threshold);
    assert(crate::json::entries_views(config@) =~= config_members(*args, sched));
    let cj = Json::Object(config);
    proof {
        crate::json::lemma_object_view(cj);
    }
    let mut body: Vec<(String, Json)> = Vec::new();
    push_member(&mut body, "project", Json::Str(String::from_str(project)));
    push_member(&mut body, "slug", Json::Str(slug.clone()));
    let name = match &args.name {
        Some(n) => n.clone(),
        None => slug.clone(),
    };
    push_member(&mut body, "name", Json::Str(name));
    push_member(&mut body, "config", cj);
    match &args.owner {
        Some(o) => push_member(&mut body, "owner", Json::Str(o.clone())),
        None => {},
    }
    assert(crate::json::entries_views(body@) =~= payload_members(*args, project@, slug@, sched));
    proof {
        lemma_payload_name(*args, project@, slug@, sched);
    }
    let b = Json::Object(body);
    proof {
        crate::json::lemma_object_view(b);
    }
    Ok(b)
}

/// A payload read from `--from-file`, with the project filled in from
/// `-P` when the payload is an object that lacks one.
pub fn payload_from_file(v: Json, project: Option<&str>) -> (r: Json)
    ensures
        (v@.get("project"@) is None && project is Some) ==> with_member(
            v@,
            r@,
            "project"@,
            JsonV::Str(project.unwrap()@),
        ),
        !(v@.get("project"@) is None && project is Some) ==> r@ == v@,
{
    let mut v = v;
    proof {
        lemma_field_view(v, "project"@);
    }
    if v.get("project").is_none() {
        if let Some(p) = project {
            set_member(&mut v, "project", Json::Str(String::from_str(p)));
        }
    }
    v
}

/// What `monitors create` prints after a dry run.
pub fn dry_run_notice() -> (r: String)
    ensures
        r@ == "Dry run: nothing created. Re-run with --yes to POST this monitor."@,
{
    String::from_str("Dry run: nothing created. Re-run with --yes to POST this monitor.")
}

} // verus!
