//! `tail`: poll for new events and print each one once.

use vstd::prelude::*;
use crate::json::{json_views, Json, JsonV};
use crate::query::{field_params, params_view, push_fields, push_opt_param, push_param};
use crate::commands::discover::opt_pair;
use crate::text::{eq_str, opt_text, opt_view, push_decimal, decimal, views};
use crate::time::{rfc3339_secs_text, to_iso, utc_now, Timestamp};

verus! {

pub struct TailArgs {
    pub query: String,
    pub field: Vec<String>,
    pub interval: String,
    pub since: String,
    pub dataset: String,
    pub environment: Option<String>,
}

/// The query string of one poll, over the window from `start` to `end`.
pub open spec fn spec_poll_params(args: TailArgs, start: Seq<char>, end: Seq<char>, project: Option<Seq<char>>) -> Seq<(Seq<char>, Seq<char>)> {
    seq![
        ("query"@, args.query@),
        ("start"@, start),
        ("end"@, end),
        ("sort"@, "-timestamp"@),
        ("per_page"@, "100"@),
        ("dataset"@, args.dataset@),
    ] + field_params(args.field@) + opt_pair("environment"@, opt_text(args.environment)) + opt_pair(
        "project"@,
        project,
    )
}

pub fn poll_params(args: &TailArgs, start: String, end: String, project: Option<&str>) -> (r: Vec<(String, String)>)
    ensures
        params_view(r@) == spec_poll_params(*args, start@, end@, opt_view(project)),
{
    let mut q: Vec<(String, String)> = Vec::new();
    push_param(&mut q, "query", args.query.clone());
    push_param(&mut q, "start", start);
    push_param(&mut q, "end", end);
    push_param(&mut q, "sort", String::from_str("-timestamp"));
    push_param(&mut q, "per_page", String::from_str("100"));
    push_param(&mut q, "dataset", args.dataset.clone());
    push_fields(&mut q, &args.field);
    let env = match &args.environment {
        Some(e) => Some(e.as_str()),
        None => None,
    };
    push_opt_param(&mut q, "environment", env);
    push_opt_param(&mut q, "project", project);
    q
}

/// The `id` of an event row, or the empty text.
pub open spec fn row_id(row: JsonV) -> Seq<char> {
    match row.get_text("id"@) {
        Some(s) => s,
        None => Seq::empty(),
    }
}

/// One poll's rows, taken from the last to the first: a row whose id was
/// already seen is skipped; any other row is printed, and its id, when it
/// has one, is remembered. Yields the ids seen afterwards and the rows to
/// print, in order.
pub open spec fn emit_rows(seen: Set<Seq<char>>, rows: Seq<JsonV>) -> (Set<Seq<char>>, Seq<JsonV>)
    decreases rows.len(),
{
    if rows.len() == 0 {
        (seen, Seq::empty())
    } else {
        let row = rows.last();
        let id = row_id(row);
        if id.len() > 0 && seen.contains(id) {
            emit_rows(seen, rows.drop_last())
        } else {
            let next = if id.len() > 0 {
                seen.insert(id)
            } else {
                seen
            };
            let rest = emit_rows(next, rows.drop_last());
            (rest.0, seq![row] + rest.1)
        }
    }
}

/// The ids that `tail` has printed so far, each once.
pub struct TailState {
    seen: Vec<String>,
}

impl TailState {
    #[verifier::type_invariant]
    spec fn inv(self) -> bool {
        views(self.seen@).no_duplicates()
    }

    /// The ids seen so far.
    pub closed spec fn seen_ids(&self) -> Set<Seq<char>> {
        views(self.seen@).to_set()
    }

    pub fn new() -> (r: TailState)
        ensures
            r.seen_ids() == Set::<Seq<char>>::empty(),
    {
        let r = TailState { seen: Vec::new() };
        assert(views(r.seen@).to_set() =~= Set::<Seq<char>>::empty());
        r
    }

    /// How many distinct ids have been seen.
    pub fn seen_count(&self) -> (n: usize)
        ensures
            n == self.seen_ids().len(),
    {
        proof {
            use_type_invariant(self);
            views(self.seen@).unique_seq_to_set();
        }
        self.seen.len()
    }

    fn has_seen(&self, id: &str) -> (b: bool)
        ensures
            b == self.seen_ids().contains(id@),
    {
        let n = self.seen.len();
        let mut i: usize = 0;
        while i < n
            invariant
                n == self.seen@.len(),
                i <= n,
                forall|j: int| 0 <= j < i ==> self.seen@[j]@ != id@,
            decreases n - i,
        {
            if eq_str(self.seen[i].as_str(), id) {
                assert(views(self.seen@)[i as int] == id@);
                return true;
            }
            i = i + 1;
        }
        assert(!views(self.seen@).contains(id@)) by {
            if views(self.seen@).contains(id@) {
                let j = choose|j: int| 0 <= j < views(self.seen@).len() && views(self.seen@)[j] == id@;
                assert(self.seen@[j]@ == id@);
            }
        }
        false
    }

    /// Takes one poll's rows and returns those to print, in the order
    /// they are printed.
    pub fn accept(&mut self, rows: Vec<Json>) -> (out: Vec<Json>)
        ensures
            (final(self).seen_ids(), json_views(out@)) == emit_rows(old(self).seen_ids(), json_views(rows@)),
            printed_once(old(self).seen_ids(), final(self).seen_ids(), json_views(out@)),
    {
        let ghost s0 = self.seen_ids();
        let ghost r0 = json_views(rows@);
        let mut rows = rows;
        let mut out: Vec<Json> = Vec::new();
        while rows.len() > 0
            invariant
                emit_rows(s0, r0) == (
                    emit_rows(self.seen_ids(), json_views(rows@)).0,
                    json_views(out@) + emit_rows(self.seen_ids(), json_views(rows@)).1,
                ),
            decreases rows.len(),
        {
            proof {
                use_type_invariant(&*self);
            }
            let ghost before = rows@;
            let ghost s = self.seen_ids();
            let ghost o = json_views(out@);
            let row = rows.pop().unwrap();
            assert(json_views(before).last() == row@);
            assert(json_views(before).drop_last() =~= json_views(rows@));
            let id = row.get_text_or_empty("id");
            assert(id@ == row_id(row@)) by {
                crate::json::lemma_field_view(row, "id"@);
            }
            let empty = id.as_str().unicode_len() == 0;
            let fresh = empty || !self.has_seen(id.as_str());
            if fresh {
                if !empty {
                    let ghost ids = views(self.seen@);
                    let ghost idv = id@;
                    let mut seen: Vec<String> = Vec::new();
                    std::mem::swap(&mut seen, &mut self.seen);
                    seen.push(id);
                    assert(views(seen@) =~= ids.push(idv));
                    std::mem::swap(&mut seen, &mut self.seen);
                    assert(views(self.seen@).to_set() =~= ids.to_set().insert(idv)) by {
                        ids.lemma_push_to_set_commute(idv);
                    }
                }
                let ghost rv = row@;
                out.push(row);
                assert(json_views(out@) =~= o.push(rv));
                assert(o + (seq![rv] + emit_rows(self.seen_ids(), json_views(rows@)).1) =~= o.push(rv)
                    + emit_rows(self.seen_ids(), json_views(rows@)).1);
            }
        }
        assert(json_views(out@) + Seq::<JsonV>::empty() =~= json_views(out@));
        proof {
            lemma_emit_rows_once(s0, r0);
        }
        out
    }
}

/// A `tail` run: the ids printed so far, and the instant where the next
/// poll's window starts.
pub struct TailSession {
    seen: TailState,
    last: Timestamp,
}

impl TailSession {
    #[verifier::type_invariant]
    spec fn inv(self) -> bool {
        self.last.valid()
    }

    /// The ids printed so far.
    pub closed spec fn seen_ids(&self) -> Set<Seq<char>> {
        self.seen.seen_ids()
    }

    /// Where the next poll's window starts.
    pub closed spec fn window_start(&self) -> Timestamp {
        self.last
    }

    /// A run whose first window starts at `since` (the `--since` instant).
    pub fn new(since: Timestamp) -> (r: TailSession)
        requires
            since.valid(),
        ensures
            r.seen_ids() == Set::<Seq<char>>::empty(),
            r.window_start() == since,
            r.window_start().valid(),
    {
        TailSession { seen: TailState::new(), last: since }
    }

    /// The next poll's query at the clock's current reading: `None`, and
    /// nothing changes, where the clock reads outside the representable
    /// instants; else what `next_query_at` gives for that reading.
    pub fn next_query(&mut self, args: &TailArgs, project: Option<&str>) -> (r: Option<Vec<(String, String)>>)
        ensures
            final(self).seen_ids() == old(self).seen_ids(),
            final(self).window_start().valid(),
            match r {
                None => final(self).window_start() == old(self).window_start(),
                Some(q) => params_view(q@) == spec_poll_params(
                    *args,
                    rfc3339_secs_text(old(self).window_start().secs, old(self).window_start().nanos),
                    rfc3339_secs_text(final(self).window_start().secs, final(self).window_start().nanos),
                    opt_view(project),
                ),
            },
    {
        proof {
            use_type_invariant(&*self);
        }
        match utc_now() {
            Some(now) => Some(self.next_query_at(args, project, now)),
            None => None,
        }
    }

    /// The next poll's query with the clock reading `now`: its window runs
    /// from the previous poll's end to `now`, and `now` starts the next
    /// window.
    pub fn next_query_at(&mut self, args: &TailArgs, project: Option<&str>, now: Timestamp) -> (q: Vec<(String, String)>)
        requires
            now.valid(),
        ensures
            final(self).window_start() == now,
            final(self).seen_ids() == old(self).seen_ids(),
            params_view(q@) == spec_poll_params(
                *args,
                rfc3339_secs_text(old(self).window_start().secs, old(self).window_start().nanos),
                rfc3339_secs_text(now.secs, now.nanos),
                opt_view(project),
            ),
    {
        proof {
            use_type_invariant(&*self);
        }
        let q = poll_params(args, to_iso(&self.last), to_iso(&now), project);
        self.last = now;
        q
    }

    /// Takes one poll's rows and returns those to print, in order; the
    /// window is left as it is.
    pub fn accept(&mut self, rows: Vec<Json>) -> (out: Vec<Json>)
        ensures
            final(self).window_start() == old(self).window_start(),
            final(self).window_start().valid(),
            (final(self).seen_ids(), json_views(out@)) == emit_rows(old(self).seen_ids(), json_views(rows@)),
            printed_once(old(self).seen_ids(), final(self).seen_ids(), json_views(out@)),
    {
        proof {
            use_type_invariant(&*self);
        }
        let mut st = TailState::new();
        std::mem::swap(&mut st, &mut self.seen);
        let out = st.accept(rows);
        std::mem::swap(&mut st, &mut self.seen);
        out
    }

    /// How many distinct ids have been printed.
    pub fn seen_count(&self) -> (n: usize)
        ensures
            n == self.seen_ids().len(),
    {
        self.seen.seen_count()
    }
}

/// A whole run of polls, each taken as `accept` takes it, starting from
/// the ids in `seen`: the ids remembered at the end and every row printed,
/// poll after poll.
pub open spec fn emit_polls(seen: Set<Seq<char>>, polls: Seq<Seq<JsonV>>) -> (Set<Seq<char>>, Seq<JsonV>)
    decreases polls.len(),
{
    if polls.len() == 0 {
        (seen, Seq::empty())
    } else {
        let before = emit_polls(seen, polls.drop_last());
        let step = emit_rows(before.0, polls.last());
        (step.0, before.1 + step.1)
    }
}

proof fn lemma_printed_once_chain(
    s0: Set<Seq<char>>,
    s1: Set<Seq<char>>,
    s2: Set<Seq<char>>,
    o1: Seq<JsonV>,
    o2: Seq<JsonV>,
)
    requires
        printed_once(s0, s1, o1),
        printed_once(s1, s2, o2),
    ensures
        printed_once(s0, s2, o1 + o2),
{
    let o = o1 + o2;
    assert forall|i: int, j: int|
        0 <= i < j < o.len() && row_id(o[i]).len() > 0 implies #[trigger] row_id(o[i]) != #[trigger] row_id(o[j]) by {
        if j < o1.len() {
            assert(o[i] == o1[i] && o[j] == o1[j]);
            assert(row_id(o1[i]) != row_id(o1[j]));
        } else if i >= o1.len() {
            assert(o[i] == o2[i - o1.len()] && o[j] == o2[j - o1.len()]);
            assert(row_id(o2[i - o1.len()]) != row_id(o2[j - o1.len()]));
        } else {
            assert(o[i] == o1[i] && o[j] == o2[j - o1.len()]);
            assert(s1.contains(row_id(o1[i])));
            if row_id(o2[j - o1.len()]) == row_id(o1[i]) {
                assert(!s1.contains(row_id(o2[j - o1.len()])));
            }
        }
    }
    assert forall|i: int| 0 <= i < o.len() && row_id(o[i]).len() > 0 implies !s0.contains(#[trigger] row_id(o[i])) by {
        if i < o1.len() {
            assert(o[i] == o1[i]);
            assert(!s0.contains(row_id(o1[i])));
        } else {
            assert(o[i] == o2[i - o1.len()]);
            assert(!s1.contains(row_id(o2[i - o1.len()])));
            if s0.contains(row_id(o[i])) {
                assert(s1.contains(row_id(o[i])));
            }
        }
    }
    assert forall|x: Seq<char>|
        #[trigger] s2.contains(x) <==> (s0.contains(x) || exists|i: int|
            0 <= i < o.len() && x.len() > 0 && #[trigger] row_id(o[i]) == x) by {
        if s2.contains(x) && !s0.contains(x) {
            if s1.contains(x) {
                let i = choose|i: int| 0 <= i < o1.len() && x.len() > 0 && #[trigger] row_id(o1[i]) == x;
                assert(o[i] == o1[i]);
            } else {
                let i = choose|i: int| 0 <= i < o2.len() && x.len() > 0 && #[trigger] row_id(o2[i]) == x;
                assert(o[i + o1.len()] == o2[i]);
            }
        }
        if s0.contains(x) {
            assert(s1.contains(x));
        }
        if exists|i: int| 0 <= i < o.len() && x.len() > 0 && #[trigger] row_id(o[i]) == x {
            let i = choose|i: int| 0 <= i < o.len() && x.len() > 0 && #[trigger] row_id(o[i]) == x;
            if i < o1.len() {
                assert(o[i] == o1[i]);
                assert(s1.contains(row_id(o1[i])));
            } else {
                assert(o[i] == o2[i - o1.len()]);
                assert(s2.contains(row_id(o2[i - o1.len()])));
            }
        }
    }
}

/// Over a whole `tail` run, no event is printed twice: across every poll,
/// no two printed rows share an id, none carries an id seen before the run,
/// and the ids remembered at the end are those seen before and those
/// printed. Rows without an id are printed every time.
pub proof fn lemma_run_prints_once(seen: Set<Seq<char>>, polls: Seq<Seq<JsonV>>)
    ensures
        printed_once(seen, emit_polls(seen, polls).0, emit_polls(seen, polls).1),
    decreases polls.len(),
{
    if polls.len() == 0 {
        assert(printed_once(seen, seen, Seq::<JsonV>::empty()));
    } else {
        let before = emit_polls(seen, polls.drop_last());
        lemma_run_prints_once(seen, polls.drop_last());
        lemma_emit_rows_once(before.0, polls.last());
        let step = emit_rows(before.0, polls.last());
        lemma_printed_once_chain(seen, before.0, step.0, before.1, step.1);
    }
}

/// No printed id comes twice, none was seen before, and `after` holds the
/// ids seen before and those printed.
pub open spec fn printed_once(seen: Set<Seq<char>>, after: Set<Seq<char>>, out: Seq<JsonV>) -> bool {
    &&& forall|i: int, j: int|
        0 <= i < j < out.len() && row_id(out[i]).len() > 0 ==> #[trigger] row_id(out[i]) != #[trigger] row_id(out[j])
    &&& forall|i: int| 0 <= i < out.len() && row_id(out[i]).len() > 0 ==> !seen.contains(#[trigger] row_id(out[i]))
    &&& forall|x: Seq<char>|
        #[trigger] after.contains(x) <==> (seen.contains(x) || exists|i: int|
            0 <= i < out.len() && x.len() > 0 && #[trigger] row_id(out[i]) == x)
}

/// Each poll prints an event at most once: no id twice within the poll,
/// none that an earlier poll printed, and what is remembered afterwards is
/// what was remembered before together with what was printed.
pub proof fn lemma_emit_rows_once(seen: Set<Seq<char>>, rows: Seq<JsonV>)
    ensures
        printed_once(seen, emit_rows(seen, rows).0, emit_rows(seen, rows).1),
    decreases rows.len(),
{
    if rows.len() > 0 {
        let row = rows.last();
        let id = row_id(row);
        if id.len() > 0 && seen.contains(id) {
            lemma_emit_rows_once(seen, rows.drop_last());
        } else {
            let next = if id.len() > 0 {
                seen.insert(id)
            } else {
                seen
            };
            lemma_emit_rows_once(next, rows.drop_last());
            let rest = emit_rows(next, rows.drop_last());
            let out = seq![row] + rest.1;
            assert(emit_rows(seen, rows) == (rest.0, out));
            assert(out[0] == row);
            assert forall|i: int, j: int|
                0 <= i < j < out.len() && row_id(out[i]).len() > 0 implies #[trigger] row_id(out[i]) != #[trigger] row_id(
                out[j],
            ) by {
                assert(out[j] == rest.1[j - 1]);
                if i == 0 {
                    assert(next.contains(id));
                    if row_id(rest.1[j - 1]) == id {
                        assert(!next.contains(row_id(rest.1[j - 1])));
                    }
                } else {
                    assert(out[i] == rest.1[i - 1]);
                    assert(row_id(rest.1[i - 1]) != row_id(rest.1[j - 1]));
                }
            }
            assert forall|i: int| 0 <= i < out.len() && row_id(out[i]).len() > 0 implies !seen.contains(
                #[trigger] row_id(out[i]),
            ) by {
                if i > 0 {
                    assert(out[i] == rest.1[i - 1]);
                    assert(!next.contains(row_id(rest.1[i - 1])));
                }
            }
            assert forall|x: Seq<char>|
                #[trigger] rest.0.contains(x) <==> (seen.contains(x) || exists|i: int|
                    0 <= i < out.len() && x.len() > 0 && #[trigger] row_id(out[i]) == x) by {
                if rest.0.contains(x) && !seen.contains(x) {
                    if next.contains(x) {
                        assert(x == id && out[0] == row);
                    } else {
                        let i = choose|i: int| 0 <= i < rest.1.len() && x.len() > 0 && #[trigger] row_id(rest.1[i]) == x;
                        assert(out[i + 1] == rest.1[i]);
                    }
                }
                if exists|i: int| 0 <= i < out.len() && x.len() > 0 && #[trigger] row_id(out[i]) == x {
                    let i = choose|i: int| 0 <= i < out.len() && x.len() > 0 && #[trigger] row_id(out[i]) == x;
                    if i > 0 {
                        assert(out[i] == rest.1[i - 1]);
                        assert(rest.0.contains(row_id(rest.1[i - 1])));
                    }
                }
            }
        }
    }
}

/// Across two polls no event is printed twice: what the second poll prints
/// carries none of the ids that the first printed, nor any seen before.
pub proof fn lemma_polls_print_disjoint(seen: Set<Seq<char>>, first: Seq<JsonV>, second: Seq<JsonV>)
    ensures
        ({
            let (mid, out1) = emit_rows(seen, first);
            let out2 = emit_rows(mid, second).1;
            forall|i: int, j: int|
                0 <= i < out1.len() && 0 <= j < out2.len() && row_id(out2[j]).len() > 0 ==> #[trigger] row_id(
                    out1[i],
                ) != #[trigger] row_id(out2[j])
        }),
{
    let (mid, out1) = emit_rows(seen, first);
    let out2 = emit_rows(mid, second).1;
    lemma_emit_rows_once(seen, first);
    lemma_emit_rows_once(mid, second);
    assert forall|i: int, j: int|
        0 <= i < out1.len() && 0 <= j < out2.len() && row_id(out2[j]).len() > 0 implies #[trigger] row_id(out1[i])
        != #[trigger] row_id(out2[j]) by {
        if row_id(out1[i]) == row_id(out2[j]) {
            assert(mid.contains(row_id(out1[i])));
            assert(!mid.contains(row_id(out2[j])));
        }
    }
}

/// One printed line in text form: `<timestamp>  <id>  <title>`, each
/// empty when the row lacks it.
pub open spec fn spec_text_line(row: JsonV) -> Seq<char> {
    let f = |k: Seq<char>| match row.get_text(k) {
        Some(s) => s,
        None => Seq::<char>::empty(),
    };
    f("timestamp"@) + "  "@ + f("id"@) + "  "@ + f("title"@)
}

pub fn text_line(row: &Json) -> (r: String)
    ensures
        r@ == spec_text_line(row@),
{
    proof {
        crate::json::lemma_field_view(*row, "timestamp"@);
        crate::json::lemma_field_view(*row, "id"@);
        crate::json::lemma_field_view(*row, "title"@);
    }
    let mut r = row.get_text_or_empty("timestamp");
    r.append("  ");
    let id = row.get_text_or_empty("id");
    r.append(id.as_str());
    r.append("  ");
    let title = row.get_text_or_empty("title");
    r.append(title.as_str());
    r
}

/// What `tail` prints when interrupted.
pub fn summary(count: usize) -> (r: String)
    ensures
        r@ == "\n"@ + decimal(count as nat) + " unique events seen."@,
{
    let mut r = String::from_str("\n");
    push_decimal(&mut r, count as u64);
    r.append(" unique events seen.");
    r
}

} // verus!
