//! `events get`: one event by ID.

use vstd::prelude::*;

verus! {

pub struct EventsArgs {
    pub cmd: EventsCmd,
}

pub enum EventsCmd {
    /// Fetch a full event by ID.
    Get { event_id: String },
}

/// Where an event is fetched: under its project when one is given, else
/// through the organization-wide lookup.
pub open spec fn spec_event_path(org: Seq<char>, project: Option<Seq<char>>, event_id: Seq<char>) -> Seq<char> {
    match project {
        Some(p) => "/projects/"@ + org + "/"@ + p + "/events/"@ + event_id + "/"@,
        None => "/organizations/"@ + org + "/events/"@ + event_id + "/"@,
    }
}

pub fn event_path(org: &str, project: Option<&str>, event_id: &str) -> (r: String)
    ensures
        r@ == spec_event_path(org@, match project {
            Some(p) => Some(p@),
            None => None,
        }, event_id@),
{
    match project {
        Some(p) => {
            let mut r = String::from_str("/projects/");
            r.append(org);
            r.append("/");
            r.append(p);
            r.append("/events/");
            r.append(event_id);
            r.append("/");
            r
        },
        None => {
            let mut r = String::from_str("/organizations/");
            r.append(org);
            r.append("/events/");
            r.append(event_id);
            r.append("/");
            r
        },
    }
}

} // verus!
