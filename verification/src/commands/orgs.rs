//! `orgs list`: the organizations the token can see.

use vstd::prelude::*;
use crate::commands::issues::column1;
use crate::output::Column;
use crate::text::views;

verus! {

pub struct OrgsArgs {
    pub cmd: OrgsCmd,
}

pub enum OrgsCmd {
    /// List organizations accessible to the auth token.
    List,
}

/// Where the organizations are listed.
pub fn orgs_path() -> (r: String)
    ensures
        r@ == "/organizations/"@,
{
    String::from_str("/organizations/")
}

/// The columns of `orgs list`.
pub fn list_columns() -> (r: Vec<Column>)
    ensures
        r@.len() == 3,
        r@[0].header@ == "SLUG"@ && views(r@[0].path@) == seq!["slug"@],
        r@[1].header@ == "NAME"@ && views(r@[1].path@) == seq!["name"@],
        r@[2].header@ == "ROLE"@ && views(r@[2].path@) == seq!["role"@],
{
    let mut r: Vec<Column> = Vec::new();
    r.push(column1("SLUG", "slug"));
    r.push(column1("NAME", "name"));
    r.push(column1("ROLE", "role"));
    r
}

} // verus!
