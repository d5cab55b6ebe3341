//! `issues`: list, get, events and update.

use vstd::prelude::*;
use crate::auth::{Resolved, AuthError};
use crate::json::{Json, JsonV, lemma_field_view};
use crate::output::{Column, OutputFormat};
use crate::query::{params_view, push_param, push_opt_param, count_text, org_path, make_org_path};
use crate::text::{decimal, opt_text, views};
use crate::commands::discover::opt_pair;

verus! {

pub struct IssuesArgs {
    pub cmd: IssuesCmd,
}

pub enum IssuesCmd {
    /// List issues matching a query.
    List(ListArgs),
    /// Fetch a single issue by ID or short ID.
    Get { id: String },
    /// List events for an issue.
    Events(EventsArgs),
    /// Update an issue (resolve / ignore / assign). Requires --yes.
    Update(UpdateArgs),
}

pub struct ListArgs {
    pub query: String,
    pub from: String,
    pub to: String,
    pub environment: Option<String>,
    pub sort: String,
    pub limit: usize,
    pub max: usize,
    /// Show the TITLE column instead of WHERE (function/file).
    pub full: bool,
}

pub struct EventsArgs {
    pub issue: String,
    pub latest: bool,
    pub limit: usize,
    pub max: usize,
}

pub struct UpdateArgs {
    pub issue: String,
    pub status: Option<String>,
    pub assign_to: Option<String>,
    pub unassign: bool,
    /// Required to actually mutate state.
    pub yes: bool,
}

/// The query string of `issues list`.
pub open spec fn spec_list_params(args: ListArgs, start: Seq<char>, end: Seq<char>, project: Option<Seq<char>>) -> Seq<(Seq<char>, Seq<char>)> {
    seq![
        ("query"@, args.query@),
        ("start"@, start),
        ("end"@, end),
        ("sort"@, args.sort@),
        ("limit"@, decimal(args.limit as nat)),
    ] + opt_pair("environment"@, opt_text(args.environment)) + opt_pair("project"@, project)
}

pub fn list_params(args: &ListArgs, start: String, end: String, project: Option<&str>) -> (r: Vec<(String, String)>)
    ensures
        params_view(r@) == spec_list_params(*args, start@, end@, match project {
            Some(p) => Some(p@),
            None => None,
        }),
{
    let mut q: Vec<(String, String)> = Vec::new();
    push_param(&mut q, "query", args.query.clone());
    push_param(&mut q, "start", start);
    push_param(&mut q, "end", end);
    push_param(&mut q, "sort", args.sort.clone());
    push_param(&mut q, "limit", count_text(args.limit));
    let env = match &args.environment {
        Some(e) => Some(e.as_str()),
        None => None,
    };
    push_opt_param(&mut q, "environment", env);
    push_opt_param(&mut q, "project", project);
    q
}

/// `/organizations/<org>/issues/`.
pub fn issues_path(org: &str) -> (r: String)
    ensures
        r@ == org_path(org@, "issues"@),
{
    make_org_path(org, "issues")
}

/// `/organizations/<org>/issues/<id>/`.
pub open spec fn spec_issue_path(org: Seq<char>, id: Seq<char>) -> Seq<char> {
    "/organizations/"@ + org + "/issues/"@ + id + "/"@
}

pub fn issue_path(org: &str, id: &str) -> (r: String)
    ensures
        r@ == spec_issue_path(org@, id@),
{
    let mut r = String::from_str("/organizations/");
    r.append(org);
    r.append("/issues/");
    r.append(id);
    r.append("/");
    r
}

/// A member's text, or empty.
pub open spec fn text_or_empty(v: Option<JsonV>, key: Seq<char>) -> Seq<char> {
    match v {
        Some(x) => match x.get_text(key) {
            Some(s) => s,
            None => Seq::empty(),
        },
        None => Seq::empty(),
    }
}

/// Where an issue happened: top-frame function and file, either alone, or
/// else the culprit.
pub open spec fn spec_where(item: JsonV) -> Seq<char> {
    let metadata = item.get("metadata"@);
    let function = text_or_empty(metadata, "function"@);
    let filename = text_or_empty(metadata, "filename"@);
    let culprit = text_or_empty(Some(item), "culprit"@);
    if function.len() > 0 && filename.len() > 0 {
        function + " ("@ + filename + ")"@
    } else if function.len() > 0 {
        function
    } else if filename.len() > 0 {
        filename
    } else {
        culprit
    }
}

/// What the `WHERE` text is, case by case, in terms of the issue: with a
/// top-frame function and file, `function (file)`; with a function alone,
/// the function; with a file alone, the file; with neither, the culprit
/// (empty when there is none). A missing member counts as empty.
pub proof fn lemma_where_cases(item: JsonV, function: Seq<char>, filename: Seq<char>)
    requires
        function == match item.get("metadata"@) {
            Some(m) => match m.get_text("function"@) {
                Some(f) => f,
                None => Seq::empty(),
            },
            None => Seq::empty(),
        },
        filename == match item.get("metadata"@) {
            Some(m) => match m.get_text("filename"@) {
                Some(f) => f,
                None => Seq::empty(),
            },
            None => Seq::empty(),
        },
    ensures
        function.len() > 0 && filename.len() > 0 ==> spec_where(item) == function + " ("@ + filename + ")"@,
        function.len() > 0 && filename.len() == 0 ==> spec_where(item) == function,
        function.len() == 0 && filename.len() > 0 ==> spec_where(item) == filename,
        function.len() == 0 && filename.len() == 0 ==> spec_where(item) == match item.get_text("culprit"@) {
            Some(c) => c,
            None => Seq::empty(),
        },
{
}

fn text_or_empty_exec(v: Option<&Json>, key: &str) -> (r: String)
    ensures
        r@ == text_or_empty(match v {
            Some(x) => Some(x@),
            None => None,
        }, key@),
{
    match v {
        Some(x) => {
            proof {
                lemma_field_view(*x, key@);
            }
            match x.get(key) {
                Some(y) => match y.as_str() {
                    Some(s) => String::from_str(s),
                    None => String::new(),
                },
                None => String::new(),
            }
        },
        None => String::new(),
    }
}

/// The `WHERE` text of an issue.
pub fn where_text(item: &Json) -> (r: String)
    ensures
        r@ == spec_where(item@),
{
    proof {
        lemma_field_view(*item, "metadata"@);
    }
    let metadata = item.get("metadata");
    let function = text_or_empty_exec(metadata, "function");
    let filename = text_or_empty_exec(metadata, "filename");
    let culprit = text_or_empty_exec(Some(item), "culprit");
    let nf = function.as_str().unicode_len();
    let nl = filename.as_str().unicode_len();
    if nf > 0 && nl > 0 {
        let mut r = function;
        r.append(" (");
        r.append(filename.as_str());
        r.append(")");
        r
    } else if nf > 0 {
        function
    } else if nl > 0 {
        filename
    } else {
        culprit
    }
}

/// `new` is `old` with the member `key` set to `value` when `old` is an
/// object, and `old` itself otherwise.
pub open spec fn with_member(before: JsonV, after: JsonV, key: Seq<char>, value: JsonV) -> bool {
    if before is Object {
        &&& after is Object
        &&& forall|k: Seq<char>| #[trigger] after.get(k) == if k == key {
            Some(value)
        } else {
            before.get(k)
        }
    } else {
        after == before
    }
}

/// Sets a member of an object value (other values are left alone), seen
/// through the views.
pub fn set_member(item: &mut Json, key: &str, value: Json)
    ensures
        with_member(old(item)@, final(item)@, key@, value@),
{
    let ghost vv = value@;
    let ghost before = *item;
    item.insert(String::from_str(key), value);
    proof {
        if before is Object {
            assert forall|k: Seq<char>| #[trigger] item@.get(k) == if k == key@ {
                Some(vv)
            } else {
                before@.get(k)
            } by {
                lemma_field_view(*item, k);
                lemma_field_view(before, k);
            }
        } else {
            assert(*item == before);
        }
    }
}

/// Adds `_where` to each issue object for the `WHERE` column; other values
/// are left alone.
pub fn annotate_where(items: &mut Vec<Json>)
    ensures
        final(items)@.len() == old(items)@.len(),
        forall|i: int|
            0 <= i < old(items)@.len() ==> with_member(
                #[trigger] old(items)@[i]@,
                final(items)@[i]@,
                "_where"@,
                JsonV::Str(spec_where(old(items)@[i]@)),
            ),
{
    let mut rest: Vec<Json> = Vec::new();
    std::mem::swap(items, &mut rest);
    let ghost orig = rest@;
    let n = rest.len();
    let mut k: usize = 0;
    while k < n
        invariant
            n == orig.len(),
            k <= n,
            rest@ == orig.subrange(k as int, n as int),
            items@.len() == k,
            forall|i: int|
                0 <= i < k ==> with_member(
                    #[trigger] orig[i]@,
                    items@[i]@,
                    "_where"@,
                    JsonV::Str(spec_where(orig[i]@)),
                ),
        decreases n - k,
    {
        let mut item = rest.remove(0);
        assert(item == orig[k as int]);
        assert(rest@ =~= orig.subrange(k + 1, n as int));
        let w = where_text(&item);
        set_member(&mut item, "_where", Json::Str(w));
        items.push(item);
        k = k + 1;
    }
}

/// Whether `issues list` adds `_where`: for the `WHERE` column of text and
/// table output, so not with `--full`; JSON and NDJSON output keep the
/// issues as the API sent them.
pub open spec fn wants_where(full: bool, format: OutputFormat) -> bool {
    !full && (format == OutputFormat::Text || format == OutputFormat::Table)
}

/// Annotates the issues for the chosen output: `_where` added as
/// `annotate_where` adds it where `wants_where` holds, else nothing changes.
pub fn annotate_for_output(items: &mut Vec<Json>, full: bool, format: OutputFormat)
    ensures
        final(items)@.len() == old(items)@.len(),
        wants_where(full, format) ==> forall|i: int|
            0 <= i < old(items)@.len() ==> with_member(
                #[trigger] old(items)@[i]@,
                final(items)@[i]@,
                "_where"@,
                JsonV::Str(spec_where(old(items)@[i]@)),
            ),
        !wants_where(full, format) ==> final(items)@ == old(items)@,
{
    if !full && matches!(format, OutputFormat::Text | OutputFormat::Table) {
        annotate_where(items);
    }
}

/// The columns of `issues list`: the title with `--full`, else where.
pub fn list_columns(full: bool) -> (r: Vec<Column>)
    ensures
        r@.len() == 5,
        r@[0].header@ == "SHORT_ID"@ && views(r@[0].path@) == seq!["shortId"@],
        r@[1].header@ == "LEVEL"@ && views(r@[1].path@) == seq!["level"@],
        r@[2].header@ == "COUNT"@ && views(r@[2].path@) == seq!["count"@],
        r@[3].header@ == "USERS"@ && views(r@[3].path@) == seq!["userCount"@],
        full ==> r@[4].header@ == "TITLE"@ && views(r@[4].path@) == seq!["title"@],
        !full ==> r@[4].header@ == "WHERE"@ && views(r@[4].path@) == seq!["_where"@],
{
    let mut r: Vec<Column> = Vec::new();
    r.push(column1("SHORT_ID", "shortId"));
    r.push(column1("LEVEL", "level"));
    r.push(column1("COUNT", "count"));
    r.push(column1("USERS", "userCount"));
    if full {
        r.push(column1("TITLE", "title"));
    } else {
        r.push(column1("WHERE", "_where"));
    }
    r
}

/// A column reading one top-level key.
pub fn column1(header: &str, key: &str) -> (r: Column)
    ensures
        r.header@ == header@,
        views(r.path@) == seq![key@],
{
    let mut path: Vec<String> = Vec::new();
    path.push(String::from_str(key));
    assert(views(path@) =~= seq![key@]);
    Column { header: String::from_str(header), path }
}

/// A column reading a key under another key.
pub fn column2(header: &str, outer: &str, inner: &str) -> (r: Column)
    ensures
        r.header@ == header@,
        views(r.path@) == seq![outer@, inner@],
{
    let mut path: Vec<String> = Vec::new();
    path.push(String::from_str(outer));
    path.push(String::from_str(inner));
    assert(views(path@) =~= seq![outer@, inner@]);
    Column { header: String::from_str(header), path }
}

/// Where `issues events` reads, and with which parameters: the latest
/// event alone, or a page of events.
pub open spec fn spec_events_request(args: EventsArgs, org: Seq<char>) -> (Seq<char>, Seq<(Seq<char>, Seq<char>)>) {
    if args.latest {
        ("/organizations/"@ + org + "/issues/"@ + args.issue@ + "/events/latest/"@, Seq::empty())
    } else {
        (
            "/organizations/"@ + org + "/issues/"@ + args.issue@ + "/events/"@,
            seq![("limit"@, decimal(args.limit as nat))],
        )
    }
}

pub fn events_request(args: &EventsArgs, org: &str) -> (r: (String, Vec<(String, String)>))
    ensures
        (r.0@, params_view(r.1@)) == spec_events_request(*args, org@),
{
    let mut path = String::from_str("/organizations/");
    path.append(org);
    path.append("/issues/");
    path.append(args.issue.as_str());
    let mut q: Vec<(String, String)> = Vec::new();
    if args.latest {
        path.append("/events/latest/");
        assert(params_view(q@) =~= Seq::<(Seq<char>, Seq<char>)>::empty());
    } else {
        path.append("/events/");
        push_param(&mut q, "limit", count_text(args.limit));
        assert(params_view(q@) =~= seq![("limit"@, decimal(args.limit as nat))]);
    }
    (path, q)
}

/// The columns of `issues events`.
pub fn event_columns() -> (r: Vec<Column>)
    ensures
        r@.len() == 5,
        r@[0].header@ == "EVENT_ID"@ && views(r@[0].path@) == seq!["eventID"@],
        r@[1].header@ == "TIMESTAMP"@ && views(r@[1].path@) == seq!["dateCreated"@],
        r@[2].header@ == "USER_ID"@ && views(r@[2].path@) == seq!["user"@, "id"@],
        r@[3].header@ == "RELEASE"@ && views(r@[3].path@) == seq!["release"@, "version"@],
        r@[4].header@ == "MESSAGE"@ && views(r@[4].path@) == seq!["message"@],
{
    let mut r: Vec<Column> = Vec::new();
    r.push(column1("EVENT_ID", "eventID"));
    r.push(column1("TIMESTAMP", "dateCreated"));
    r.push(column2("USER_ID", "user", "id"));
    r.push(column2("RELEASE", "release", "version"));
    r.push(column1("MESSAGE", "message"));
    r
}

/// Why `issues update` refused.
pub enum UpdateError {
    /// `--yes` was not given.
    NotConfirmed,
    NoOrganization,
    /// Neither `--status`, `--assign-to` nor `--unassign`.
    NothingToUpdate,
}

impl UpdateError {
    pub open spec fn spec_message(&self) -> Seq<char> {
        match self {
            UpdateError::NotConfirmed => "Refusing to mutate without --yes. Re-run with --yes to confirm the change."@,
            UpdateError::NoOrganization => AuthError::NoOrganization.spec_message(),
            UpdateError::NothingToUpdate => "Nothing to update. Pass --status / --assign-to / --unassign."@,
        }
    }

    pub fn message(&self) -> (r: String)
        ensures
            r@ == self.spec_message(),
    {
        match self {
            UpdateError::NotConfirmed => String::from_str(
                "Refusing to mutate without --yes. Re-run with --yes to confirm the change.",
            ),
            UpdateError::NoOrganization => AuthError::NoOrganization.message(),
            UpdateError::NothingToUpdate => String::from_str(
                "Nothing to update. Pass --status / --assign-to / --unassign.",
            ),
        }
    }
}

/// The members of an update: `status` when given, then `assignedTo` (null
/// to unassign, which wins over `--assign-to`).
pub open spec fn spec_update_members(args: UpdateArgs) -> Seq<(Seq<char>, JsonV)> {
    (match args.status {
        Some(s) => seq![("status"@, JsonV::Str(s@))],
        None => Seq::empty(),
    }) + if args.unassign {
        seq![("assignedTo"@, JsonV::Null)]
    } else {
        match args.assign_to {
            Some(a) => seq![("assignedTo"@, JsonV::Str(a@))],
            None => Seq::empty(),
        }
    }
}

/// The path and JSON body of `PUT /organizations/<org>/issues/<id>/`; no
/// request is made without `--yes`.
pub fn update_request(args: &UpdateArgs, auth: &Resolved) -> (r: Result<(String, Json), UpdateError>)
    ensures
        !args.yes ==> r matches Err(UpdateError::NotConfirmed),
        args.yes && auth.org is None ==> r matches Err(UpdateError::NoOrganization),
        args.yes && auth.org is Some && spec_update_members(*args).len() == 0 ==> r matches Err(
            UpdateError::NothingToUpdate,
        ),
        args.yes && auth.org is Some && spec_update_members(*args).len() > 0 ==> (r matches Ok((p, b))
            && p@ == spec_issue_path(auth.org.unwrap()@, args.issue@) && b@ == JsonV::Object(
            spec_update_members(*args),
        )),
{
    if !args.yes {
        return Err(UpdateError::NotConfirmed);
    }
    let org = match &auth.org {
        Some(o) => o,
        None => {
            return Err(UpdateError::NoOrganization);
        },
    };
    let mut body: Vec<(String, Json)> = Vec::new();
    if let Some(s) = &args.status {
        body.push((String::from_str("status"), Json::Str(s.clone())));
    }
    if args.unassign {
        body.push((String::from_str("assignedTo"), Json::Null));
    } else if let Some(a) = &args.assign_to {
        body.push((String::from_str("assignedTo"), Json::Str(a.clone())));
    }
    if body.len() == 0 {
        assert(spec_update_members(*args).len() == 0);
        return Err(UpdateError::NothingToUpdate);
    }
    let b = Json::Object(body);
    proof {
        crate::json::lemma_object_view(b);
        assert(crate::json::entries_views(b->Object_0@) =~= spec_update_members(*args));
    }
    Ok((issue_path(org.as_str(), args.issue.as_str()), b))
}

} // verus!
