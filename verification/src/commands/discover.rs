//! `discover query`: a Discover events query.

use vstd::prelude::*;
use crate::json::{Json, JsonV, json_views, entries_views, lemma_object_view, lemma_array_view, lemma_member_v_skip};
use crate::query::{params_view, push_param, push_opt_param, push_fields, field_params, count_text, org_path, make_org_path};
use crate::text::{decimal, opt_text};

verus! {

pub struct DiscoverArgs {
    pub cmd: DiscoverCmd,
}

pub enum DiscoverCmd {
    /// Run a Discover events query.
    Query(QueryArgs),
}

pub struct QueryArgs {
    pub query: String,
    pub field: Vec<String>,
    pub from: String,
    pub to: String,
    pub sort: String,
    pub limit: usize,
    pub max: usize,
    pub environment: Option<String>,
    pub dataset: String,
}

pub open spec fn opt_pair(key: Seq<char>, v: Option<Seq<char>>) -> Seq<(Seq<char>, Seq<char>)> {
    match v {
        Some(s) => seq![(key, s)],
        None => Seq::empty(),
    }
}

/// The query string of a Discover request.
pub open spec fn spec_query_params(args: QueryArgs, start: Seq<char>, end: Seq<char>, project: Option<Seq<char>>) -> Seq<(Seq<char>, Seq<char>)> {
    seq![
        ("query"@, args.query@),
        ("start"@, start),
        ("end"@, end),
        ("sort"@, args.sort@),
        ("per_page"@, decimal(args.limit as nat)),
        ("dataset"@, args.dataset@),
    ] + field_params(args.field@) + opt_pair("environment"@, opt_text(args.environment)) + opt_pair(
        "project"@,
        project,
    )
}

/// Parameters for `GET /organizations/<org>/events/`; `start` and `end`
/// are the ISO forms of `--from` and `--to`.
pub fn query_params(args: &QueryArgs, start: String, end: String, project: Option<&str>) -> (r: Vec<(String, String)>)
    ensures
        params_view(r@) == spec_query_params(*args, start@, end@, match project {
            Some(p) => Some(p@),
            None => None,
        }),
{
    let mut q: Vec<(String, String)> = Vec::new();
    push_param(&mut q, "query", args.query.clone());
    push_param(&mut q, "start", start);
    push_param(&mut q, "end", end);
    push_param(&mut q, "sort", args.sort.clone());
    push_param(&mut q, "per_page", count_text(args.limit));
    push_param(&mut q, "dataset", args.dataset.clone());
    let ghost base = params_view(q@);
    push_fields(&mut q, &args.field);
    let env = match &args.environment {
        Some(e) => Some(e.as_str()),
        None => None,
    };
    push_opt_param(&mut q, "environment", env);
    push_opt_param(&mut q, "project", project);
    q
}

/// `/organizations/<org>/events/`.
pub fn events_path(org: &str) -> (r: String)
    ensures
        r@ == org_path(org@, "events"@),
{
    make_org_path(org, "events")
}

/// The rows of an events response: the array under `data`, or none.
pub open spec fn spec_data_rows(v: JsonV) -> Seq<JsonV> {
    match v.get("data"@) {
        Some(JsonV::Array(a)) => a,
        _ => Seq::empty(),
    }
}

/// The rows under `data` among an object's members.
pub open spec fn member_rows(ev: Seq<(Seq<char>, JsonV)>) -> Seq<JsonV> {
    match crate::json::member_v(ev, "data"@) {
        Some(JsonV::Array(a)) => a,
        _ => Seq::empty(),
    }
}

fn take_data(members: Vec<(String, Json)>) -> (r: Vec<Json>)
    ensures
        json_views(r@) == member_rows(entries_views(members@)),
{
    let ghost ev = entries_views(members@);
    let mut entries = members;
    let n = entries.len();
    let mut i: usize = 0;
    while i < n
        invariant
            n == entries@.len(),
            i <= n,
            ev == entries_views(entries@),
            ev == entries_views(members@),
            forall|j: int| 0 <= j < i ==> (#[trigger] entries@[j]).0@ != "data"@,
        decreases n - i,
    {
        if crate::text::eq_str(entries[i].0.as_str(), "data") {
            proof {
                lemma_member_v_skip(ev, "data"@, i as int);
                assert(ev[i as int] == (entries@[i as int].0@, entries@[i as int].1@));
            }
            let ghost dv = entries@[i as int].1@;
            let (_, d) = entries.remove(i);
            assert(d@ == dv);
            return match d {
                Json::Array(a) => {
                    proof {
                        lemma_array_view(Json::Array(a));
                    }
                    a
                },
                other => {
                    assert(!(other@ is Array));
                    let e: Vec<Json> = Vec::new();
                    assert(json_views(e@) =~= Seq::<JsonV>::empty());
                    e
                },
            };
        }
        i = i + 1;
    }
    proof {
        lemma_member_v_skip(ev, "data"@, n as int);
    }
    let e: Vec<Json> = Vec::new();
    assert(json_views(e@) =~= Seq::<JsonV>::empty());
    e
}

/// Takes the rows out of an events response.
pub fn data_rows(value: Json) -> (r: Vec<Json>)
    ensures
        json_views(r@) == spec_data_rows(value@),
{
    match value {
        Json::Object(entries) => {
            proof {
                lemma_object_view(Json::Object(entries));
            }
            take_data(entries)
        },
        _ => {
            let e: Vec<Json> = Vec::new();
            assert(json_views(e@) =~= Seq::<JsonV>::empty());
            e
        },
    }
}

} // verus!
