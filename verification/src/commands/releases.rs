//! `releases list` and `releases get`.

use vstd::prelude::*;
use vstd::utf8::encode_utf8;
use crate::commands::discover::opt_pair;
use crate::commands::issues::column1;
use crate::output::Column;
use crate::query::{count_text, make_org_path, org_path, params_view, push_opt_param, push_param};
use crate::text::{decimal, opt_text, opt_view, views};

verus! {

pub struct ReleasesArgs {
    pub cmd: ReleasesCmd,
}

pub enum ReleasesCmd {
    /// List releases.
    List(ListArgs),
    /// Fetch a single release by version.
    Get { version: String },
}

pub struct ListArgs {
    pub query: Option<String>,
    pub limit: usize,
    pub max: usize,
}

/// The query string of `releases list`.
pub open spec fn spec_list_params(args: ListArgs, project: Option<Seq<char>>) -> Seq<(Seq<char>, Seq<char>)> {
    seq![("per_page"@, decimal(args.limit as nat))] + opt_pair("query"@, opt_text(args.query)) + opt_pair(
        "project"@,
        project,
    )
}

pub fn list_params(args: &ListArgs, project: Option<&str>) -> (r: Vec<(String, String)>)
    ensures
        params_view(r@) == spec_list_params(*args, opt_view(project)),
{
    let mut q: Vec<(String, String)> = Vec::new();
    push_param(&mut q, "per_page", count_text(args.limit));
    let query = match &args.query {
        Some(s) => Some(s.as_str()),
        None => None,
    };
    push_opt_param(&mut q, "query", query);
    push_opt_param(&mut q, "project", project);
    q
}

/// `/organizations/<org>/releases/`.
pub fn releases_path(org: &str) -> (r: String)
    ensures
        r@ == org_path(org@, "releases"@),
{
    make_org_path(org, "releases")
}

/// The columns of `releases list`.
pub fn list_columns() -> (r: Vec<Column>)
    ensures
        r@.len() == 4,
        r@[0].header@ == "VERSION"@ && views(r@[0].path@) == seq!["version"@],
        r@[1].header@ == "NEW_GROUPS"@ && views(r@[1].path@) == seq!["newGroups"@],
        r@[2].header@ == "DATE_CREATED"@ && views(r@[2].path@) == seq!["dateCreated"@],
        r@[3].header@ == "URL"@ && views(r@[3].path@) == seq!["url"@],
{
    let mut r: Vec<Column> = Vec::new();
    r.push(column1("VERSION", "version"));
    r.push(column1("NEW_GROUPS", "newGroups"));
    r.push(column1("DATE_CREATED", "dateCreated"));
    r.push(column1("URL", "url"));
    r
}

/// Bytes that form encoding leaves as they are: `*`, `-`, `.`, `_`, and
/// ASCII letters and digits.
pub open spec fn form_unchanged(b: u8) -> bool {
    ||| b == 0x2a
    ||| b == 0x2d
    ||| b == 0x2e
    ||| b == 0x5f
    ||| 0x30 <= b <= 0x39
    ||| 0x41 <= b <= 0x5a
    ||| 0x61 <= b <= 0x7a
}

/// An upper-case hexadecimal digit.
pub open spec fn hex_upper(n: int) -> char {
    if n < 10 {
        (0x30 + n) as char
    } else {
        (0x41 + n - 10) as char
    }
}

/// How form encoding writes one byte: unchanged, a space as `+`, any
/// other byte as `%XX`.
pub open spec fn form_byte(b: u8) -> Seq<char> {
    if form_unchanged(b) {
        seq![b as char]
    } else if b == 0x20 {
        seq!['+']
    } else {
        seq!['%', hex_upper(b as int / 16), hex_upper(b as int % 16)]
    }
}

/// `application/x-www-form-urlencoded` encoding of a byte string.
pub open spec fn form_encode(bytes: Seq<u8>) -> Seq<char>
    decreases bytes.len(),
{
    if bytes.len() == 0 {
        Seq::empty()
    } else {
        form_encode(bytes.drop_last()) + form_byte(bytes.last())
    }
}

/// `url::form_urlencoded::byte_serialize` over the UTF-8 bytes of `s`,
/// collected into a string. The contract states the crate's encoding:
/// each byte in `*-._`, `0-9`, `A-Z` or `a-z` stays, a space becomes `+`,
/// and every other byte becomes `%` and two upper-case hex digits.
#[verifier::external_body]
fn urlencoding(s: &str) -> (r: String)
    ensures
        r@ == form_encode(encode_utf8(s@)),
{
    url::form_urlencoded::byte_serialize(s.as_bytes()).collect()
}

/// `/organizations/<org>/releases/<version>/`, with the version form-encoded.
pub fn release_path(org: &str, version: &str) -> (r: String)
    ensures
        r@ == org_path(org@, "releases"@) + form_encode(encode_utf8(version@)) + "/"@,
{
    let mut r = make_org_path(org, "releases");
    let encoded = urlencoding(version);
    r.append(encoded.as_str());
    r.append("/");
    r
}

} // verus!
