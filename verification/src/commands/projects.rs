//! `projects list` and `projects get`.

use vstd::prelude::*;
use crate::commands::issues::column1;
use crate::output::Column;
use crate::query::{make_org_path, org_path};
use crate::text::views;

verus! {

pub struct ProjectsArgs {
    pub cmd: ProjectsCmd,
}

pub enum ProjectsCmd {
    /// List Sentry projects in the current org.
    List,
    /// Get a single project by slug.
    Get { slug: String },
}

/// `/organizations/<org>/projects/`.
pub fn projects_path(org: &str) -> (r: String)
    ensures
        r@ == org_path(org@, "projects"@),
{
    make_org_path(org, "projects")
}

/// `/projects/<org>/<slug>/`.
pub fn project_path(org: &str, slug: &str) -> (r: String)
    ensures
        r@ == "/projects/"@ + org@ + "/"@ + slug@ + "/"@,
{
    let mut r = String::from_str("/projects/");
    r.append(org);
    r.append("/");
    r.append(slug);
    r.append("/");
    r
}

/// The columns of `projects list`.
pub fn list_columns() -> (r: Vec<Column>)
    ensures
        r@.len() == 4,
        r@[0].header@ == "SLUG"@ && views(r@[0].path@) == seq!["slug"@],
        r@[1].header@ == "PLATFORM"@ && views(r@[1].path@) == seq!["platform"@],
        r@[2].header@ == "ID"@ && views(r@[2].path@) == seq!["id"@],
        r@[3].header@ == "LAST_EVENT"@ && views(r@[3].path@) == seq!["lastEvent"@],
{
    let mut r: Vec<Column> = Vec::new();
    r.push(column1("SLUG", "slug"));
    r.push(column1("PLATFORM", "platform"));
    r.push(column1("ID", "id"));
    r.push(column1("LAST_EVENT", "lastEvent"));
    r
}

} // verus!
