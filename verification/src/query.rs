//! Query-string parameters and request paths.

use vstd::prelude::*;
use crate::text::{decimal, push_decimal};

verus! {

/// Parameters as text pairs, in order.
pub open spec fn params_view(v: Seq<(String, String)>) -> Seq<(Seq<char>, Seq<char>)> {
    v.map_values(|p: (String, String)| (p.0@, p.1@))
}

/// Appends `key=value`.
pub fn push_param(v: &mut Vec<(String, String)>, key: &str, value: String)
    ensures
        params_view(final(v)@) == params_view(old(v)@).push((key@, value@)),
{
    let ghost k = key@;
    let ghost val = value@;
    v.push((String::from_str(key), value));
    assert(params_view(v@) =~= params_view(old(v)@).push((k, val)));
}

/// Appends `key=value` when `value` is set.
pub fn push_opt_param(v: &mut Vec<(String, String)>, key: &str, value: Option<&str>)
    ensures
        params_view(final(v)@) == params_view(old(v)@) + match value {
            Some(s) => seq![(key@, s@)],
            None => Seq::empty(),
        },
{
    match value {
        Some(s) => {
            push_param(v, key, String::from_str(s));
            assert(params_view(v@) =~= params_view(old(v)@) + seq![(key@, s@)]);
        },
        None => {
            assert(params_view(v@) =~= params_view(old(v)@) + Seq::<(Seq<char>, Seq<char>)>::empty());
        },
    }
}

/// `field=<f>` for each of `fields`.
pub open spec fn field_params(fields: Seq<String>) -> Seq<(Seq<char>, Seq<char>)> {
    fields.map_values(|f: String| ("field"@, f@))
}

/// Appends `field=<f>` for each of `fields`, in order.
pub fn push_fields(v: &mut Vec<(String, String)>, fields: &Vec<String>)
    ensures
        params_view(final(v)@) == params_view(old(v)@) + field_params(fields@),
{
    let n = fields.len();
    let mut i: usize = 0;
    while i < n
        invariant
            n == fields@.len(),
            i <= n,
            params_view(v@) == params_view(old(v)@) + field_params(fields@.subrange(0, i as int)),
        decreases n - i,
    {
        push_param(v, "field", fields[i].clone());
        assert(field_params(fields@.subrange(0, i + 1)) =~= field_params(fields@.subrange(0, i as int)).push(("field"@, fields@[i as int]@)));
        assert(params_view(old(v)@) + field_params(fields@.subrange(0, i + 1)) =~= (params_view(old(v)@) + field_params(fields@.subrange(0, i as int))).push(("field"@, fields@[i as int]@)));
        i = i + 1;
    }
    assert(fields@.subrange(0, n as int) =~= fields@);
}

/// A count as query text.
pub fn count_text(n: usize) -> (r: String)
    ensures
        r@ == decimal(n as nat),
{
    let mut r = String::new();
    push_decimal(&mut r, n as u64);
    assert(r@ =~= decimal(n as nat));
    r
}

/// `/organizations/<org>/<what>/`.
pub open spec fn org_path(org: Seq<char>, what: Seq<char>) -> Seq<char> {
    "/organizations/"@ + org + "/"@ + what + "/"@
}

pub fn make_org_path(org: &str, what: &str) -> (r: String)
    ensures
        r@ == org_path(org@, what@),
{
    let mut r = String::from_str("/organizations/");
    r.append(org);
    r.append("/");
    r.append(what);
    r.append("/");
    r
}

} // verus!
