//! Request-side decisions of the Sentry API client: base URL, retry and
//! backoff, `Link`-header pagination, and error messages.

use vstd::prelude::*;
use vstd::arithmetic::power2::{pow2, lemma2_to64};
use crate::json::{Json, JsonV, json_views};
use crate::text::{
    decimal, push_decimal, spec_parse_u64, parse_u64, spec_trim, trim, has_infix, contains,
    first_index, find_char, split_on, split, views, opt_view, opt_text,
};

verus! {

/// `s` without the trailing `c`s, as `str::trim_end_matches` leaves it.
pub open spec fn strip_trailing(s: Seq<char>, c: char) -> Seq<char>
    decreases s.len(),
{
    if s.len() > 0 && s.last() == c {
        strip_trailing(s.drop_last(), c)
    } else {
        s
    }
}

/// `https://<host>/api/0`, with trailing slashes of `host` dropped.
pub open spec fn spec_api_base(host: Seq<char>) -> Seq<char> {
    "https://"@ + strip_trailing(host, '/') + "/api/0"@
}

/// The API root for a Sentry host.
pub fn api_base(host: &str) -> (r: String)
    ensures
        r@ == spec_api_base(host@),
{
    let mut j = host.unicode_len();
    assert(host@.subrange(0, j as int) =~= host@);
    while j > 0 && host.get_char(j - 1) == '/'
        invariant
            j <= host@.len(),
            strip_trailing(host@, '/') == strip_trailing(host@.subrange(0, j as int), '/'),
        decreases j,
    {
        assert(host@.subrange(0, j as int).drop_last() =~= host@.subrange(0, j - 1));
        j = j - 1;
    }
    let mut r = String::from_str("https://");
    r.append(host.substring_char(0, j));
    r.append("/api/0");
    r
}

/// An API URL: the root followed by the path.
pub fn url(base: &str, path: &str) -> (r: String)
    ensures
        r@ == base@ + path@,
{
    let mut r = String::from_str(base);
    r.append(path);
    r
}

/// The `Authorization` header value.
pub fn bearer(token: &str) -> (r: String)
    ensures
        r@ == "Bearer "@ + token@,
{
    let mut r = String::from_str("Bearer ");
    r.append(token);
    r
}

/// Request timeout in seconds, from `$SENTRY_TIMEOUT` when it is a number.
pub fn timeout_secs(env_value: Option<&str>) -> (r: u64)
    ensures
        r == match opt_view(env_value) {
            Some(s) => match spec_parse_u64(s) {
                Some(n) => n,
                None => 30,
            },
            None => 30,
        },
{
    match env_value {
        Some(s) => match parse_u64(s) {
            Some(n) => n,
            None => 30,
        },
        None => 30,
    }
}

/// 2xx.
pub open spec fn spec_is_success(code: u16) -> bool {
    200 <= code < 300
}

/// 5xx.
pub open spec fn spec_is_server_error(code: u16) -> bool {
    500 <= code < 600
}

pub fn is_success(code: u16) -> (b: bool)
    ensures
        b == spec_is_success(code),
{
    200 <= code && code < 300
}

pub fn is_server_error(code: u16) -> (b: bool)
    ensures
        b == spec_is_server_error(code),
{
    500 <= code && code < 600
}

/// The reason phrase that `StatusCode::canonical_reason` gives for a code.
pub uninterp spec fn canonical_reason_text(code: u16) -> Option<Seq<char>>;

/// `reqwest::StatusCode::from_u16(code)` then `canonical_reason()`: the
/// registered reason phrase of the code, or nothing when the code has none
/// or is not a status code. Which phrase that is stays unsaid here; it is
/// `canonical_reason_text`.
#[verifier::external_body]
fn canonical_reason(code: u16) -> (r: Option<String>)
    ensures
        opt_text(r) == canonical_reason_text(code),
{
    match reqwest::StatusCode::from_u16(code) {
        Ok(s) => s.canonical_reason().map(String::from),
        Err(_) => None,
    }
}

/// How a status code displays: `404 Not Found`.
pub open spec fn spec_status_line(code: u16) -> Seq<char> {
    decimal(code as nat) + " "@ + match canonical_reason_text(code) {
        Some(t) => t,
        None => "<unknown status code>"@,
    }
}

/// The text of `StatusCode`'s `Display` for a status code.
pub fn status_line(code: u16) -> (r: String)
    ensures
        r@ == spec_status_line(code),
{
    let mut r = String::new();
    push_decimal(&mut r, code as u64);
    r.append(" ");
    match canonical_reason(code) {
        Some(t) => r.append(t.as_str()),
        None => r.append("<unknown status code>"),
    }
    r
}

/// Process exit code for a final HTTP status.
pub open spec fn spec_exit_code(code: u16) -> i32 {
    if code == 401 || code == 403 {
        2
    } else if code == 404 {
        3
    } else if code == 429 {
        4
    } else if 500 <= code <= 599 {
        5
    } else {
        1
    }
}

pub fn exit_code_for_status(code: u16) -> (r: i32)
    ensures
        r == spec_exit_code(code),
{
    if code == 401 || code == 403 {
        2
    } else if code == 404 {
        3
    } else if code == 429 {
        4
    } else if 500 <= code && code <= 599 {
        5
    } else {
        1
    }
}

/// What made a command fail, as far as its exit status goes.
pub enum Failure {
    /// The API answered with this status after the retries.
    Status(u16),
    /// No response: the network failed after the retry.
    Network,
    /// No credentials could be put together.
    NotAuthenticated,
    /// Anything else: usage, parsing, files.
    Other,
}

/// The exit status for a failure: the status's code, 6 for the network, 2
/// for missing credentials, 1 otherwise.
pub open spec fn spec_failure_exit(f: Failure) -> i32 {
    match f {
        Failure::Status(code) => spec_exit_code(code),
        Failure::Network => 6,
        Failure::NotAuthenticated => 2,
        Failure::Other => 1,
    }
}

pub fn exit_code_for_failure(f: &Failure) -> (r: i32)
    ensures
        r == spec_failure_exit(*f),
{
    match f {
        Failure::Status(code) => exit_code_for_status(*code),
        Failure::Network => 6,
        Failure::NotAuthenticated => 2,
        Failure::Other => 1,
    }
}

/// What one send produced.
pub enum SendOutcome {
    /// A response with this status.
    Status(u16),
    /// No response: the connection failed.
    NetworkError,
}

/// How long to wait before another try.
pub enum Delay {
    Seconds(u64),
    Millis(u64),
}

/// What to do after a send.
pub enum RetryAction {
    /// Wait, then send again.
    Wait(Delay),
    /// Hand the response to the caller.
    Deliver,
    /// Give up with the network error.
    Fail,
}

/// The decision after try number `attempt` (counting from one): 429 and
/// 5xx are retried three times, honouring `Retry-After` (seconds) or else
/// backing off exponentially from one second (1 s, 2 s, 4 s); a network
/// error is retried once after 2 s.
pub open spec fn spec_retry_action(attempt: u32, outcome: SendOutcome, retry_after: Option<u64>) -> RetryAction {
    match outcome {
        SendOutcome::Status(code) => if (code == 429 || spec_is_server_error(code)) && attempt <= 3 {
            RetryAction::Wait(
                match retry_after {
                    Some(s) => Delay::Seconds(s),
                    None => Delay::Millis((1000 * pow2((attempt - 1) as nat)) as u64),
                },
            )
        } else {
            RetryAction::Deliver
        },
        SendOutcome::NetworkError => if attempt <= 1 {
            RetryAction::Wait(Delay::Seconds(2))
        } else {
            RetryAction::Fail
        },
    }
}

/// No response is retried more than three times, and a network error no
/// more than once: after the fourth try a response is delivered, and after
/// the second a network error fails.
pub proof fn lemma_retries_are_bounded(attempt: u32, outcome: SendOutcome, retry_after: Option<u64>)
    ensures
        attempt > 3 && outcome is Status ==> spec_retry_action(attempt, outcome, retry_after) is Deliver,
        attempt > 1 && outcome is NetworkError ==> spec_retry_action(attempt, outcome, retry_after) is Fail,
{
}

pub fn retry_action(attempt: u32, outcome: SendOutcome, retry_after: Option<u64>) -> (r: RetryAction)
    requires
        attempt >= 1,
    ensures
        r == spec_retry_action(attempt, outcome, retry_after),
{
    match outcome {
        SendOutcome::Status(code) => {
            if (code == 429 || is_server_error(code)) && attempt <= 3 {
                match retry_after {
                    Some(s) => RetryAction::Wait(Delay::Seconds(s)),
                    None => {
                        let factor: u64 = if attempt == 1 {
                            1
                        } else if attempt == 2 {
                            2
                        } else {
                            4
                        };
                        proof {
                            lemma2_to64();
                        }
                        RetryAction::Wait(Delay::Millis(1000u64 * factor))
                    },
                }
            } else {
                RetryAction::Deliver
            }
        },
        SendOutcome::NetworkError => {
            if attempt <= 1 {
                RetryAction::Wait(Delay::Seconds(2))
            } else {
                RetryAction::Fail
            }
        },
    }
}

/// A `Retry-After` value in seconds, when it is a plain number.
pub fn retry_after_secs(header: Option<&str>) -> (r: Option<u64>)
    ensures
        r == match opt_view(header) {
            Some(s) => spec_parse_u64(s),
            None => None,
        },
{
    match header {
        Some(s) => parse_u64(s),
        None => None,
    }
}

/// The URL between `<` and `>` in one `Link` entry.
pub open spec fn link_target(part: Seq<char>) -> Option<Seq<char>> {
    match first_index(part, '<') {
        None => None,
        Some(a) => {
            let rest = part.subrange(a + 1, part.len() as int);
            match first_index(rest, '>') {
                None => None,
                Some(b) => Some(rest.subrange(0, b)),
            }
        },
    }
}

/// The first entry, in order, marked both `rel="next"` and `results="true"`
/// decides: its URL, or nothing when it has no `<...>`.
pub open spec fn next_link_in(parts: Seq<Seq<char>>) -> Option<Seq<char>>
    decreases parts.len(),
{
    if parts.len() == 0 {
        None
    } else {
        let p = spec_trim(parts[0]);
        if has_infix(p, "rel=\"next\""@) && has_infix(p, "results=\"true\""@) {
            link_target(p)
        } else {
            next_link_in(parts.drop_first())
        }
    }
}

/// The cursor URL of the next page, from a `Link` header.
pub open spec fn spec_next_link(link: Option<Seq<char>>) -> Option<Seq<char>> {
    match link {
        None => None,
        Some(s) => next_link_in(split_on(s, ',')),
    }
}

fn link_target_exec(p: &str) -> (r: Option<String>)
    ensures
        opt_text(r) == link_target(p@),
{
    match find_char(p, '<') {
        None => None,
        Some(a) => {
            let n = p.unicode_len();
            let rest = p.substring_char(a + 1, n);
            match find_char(rest, '>') {
                None => None,
                Some(b) => Some(rest.substring_char(0, b).to_owned()),
            }
        },
    }
}

/// Follows Sentry's `Link` header to the next page.
pub fn parse_next_link(link: Option<&str>) -> (r: Option<String>)
    ensures
        opt_text(r) == spec_next_link(opt_view(link)),
{
    let s = match link {
        Some(s) => s,
        None => {
            return None;
        },
    };
    let parts = split(s, ',');
    let n = parts.len();
    let mut i: usize = 0;
    assert(views(parts@).subrange(0, n as int) =~= views(parts@));
    while i < n
        invariant
            n == parts@.len(),
            i <= n,
            views(parts@) == split_on(s@, ','),
            opt_view(link) == Some(s@),
            next_link_in(views(parts@)) == next_link_in(views(parts@).subrange(i as int, n as int)),
        decreases n - i,
    {
        let part = trim(parts[i].as_str());
        let ghost rest = views(parts@).subrange(i as int, n as int);
        assert(rest[0] == parts@[i as int]@);
        assert(spec_trim(rest[0]) == part@);
        if contains(part.as_str(), "rel=\"next\"") && contains(part.as_str(), "results=\"true\"") {
            assert(next_link_in(rest) == link_target(part@));
            let r = link_target_exec(part.as_str());
            return r;
        }
        assert(rest.drop_first() =~= views(parts@).subrange(i + 1, n as int));
        i = i + 1;
    }
    None
}

/// What a response body says went wrong: its `detail`, else its `error`,
/// when the body is a JSON object holding one as text.
pub open spec fn body_detail(parsed: JsonV) -> Option<Seq<char>> {
    match parsed.get_text("detail"@) {
        Some(d) => Some(d),
        None => parsed.get_text("error"@),
    }
}

/// The message for a failed request: `Sentry API error (<status>): <what>`.
pub open spec fn spec_api_error(code: u16, body: Seq<char>, parsed: Option<JsonV>) -> Seq<char> {
    let msg = if body.len() == 0 {
        spec_status_line(code)
    } else {
        match parsed {
            Some(v) => match body_detail(v) {
                Some(d) => d,
                None => body,
            },
            None => body,
        }
    };
    "Sentry API error ("@ + spec_status_line(code) + "): "@ + msg
}

fn json_text_field_exec(v: &Json, key: &str) -> (r: Option<String>)
    ensures
        opt_text(r) == v@.get_text(key@),
{
    match v.get(key) {
        Some(x) => {
            proof {
                crate::json::lemma_field_view(*v, key@);
            }
            match x.as_str() {
                Some(s) => Some(String::from_str(s)),
                None => None,
            }
        },
        None => {
            proof {
                crate::json::lemma_field_view(*v, key@);
            }
            None
        },
    }
}

/// The error for a failed request, given the body and what parsing it as
/// JSON gave (`None` when it is not JSON).
pub fn api_error(code: u16, body: &str, parsed: Option<&Json>) -> (r: String)
    ensures
        r@ == spec_api_error(code, body@, match parsed {
            Some(v) => Some(v@),
            None => None,
        }),
{
    let line = status_line(code);
    let mut r = String::from_str("Sentry API error (");
    r.append(line.as_str());
    r.append("): ");
    if body.unicode_len() == 0 {
        r.append(line.as_str());
        return r;
    }
    match parsed {
        Some(v) => match json_text_field_exec(v, "detail") {
            Some(d) => r.append(d.as_str()),
            None => match json_text_field_exec(v, "error") {
                Some(e) => r.append(e.as_str()),
                None => r.append(body),
            },
        },
        None => r.append(body),
    }
    r
}

/// `Sentry API error (<status>): <body>`, the body as it came.
pub fn raw_api_error(code: u16, body: &str) -> (r: String)
    ensures
        r@ == "Sentry API error ("@ + spec_status_line(code) + "): "@ + body@,
{
    let line = status_line(code);
    let mut r = String::from_str("Sentry API error (");
    r.append(line.as_str());
    r.append("): ");
    r.append(body);
    r
}


/// The items a page contributes: an array's elements, or an object as one
/// item; any other value is not a page.
pub open spec fn page_items(page: JsonV) -> Option<Seq<JsonV>> {
    match page {
        JsonV::Array(a) => Some(a),
        JsonV::Object(_) => Some(seq![page]),
        _ => None,
    }
}

/// What to do after a page.
pub enum PageStep {
    /// Stop: the limit is reached or there is no next page.
    Done,
    /// Fetch this URL next.
    Next(String),
}

/// Collects the items of successive pages, stopping at `max` items
/// (`0`: no limit).
pub struct Paginator {
    items: Vec<Json>,
    max: usize,
}

impl Paginator {
    /// The items collected so far, in order.
    pub closed spec fn collected(&self) -> Seq<JsonV> {
        json_views(self.items@)
    }

    /// The item limit, `0` for none.
    pub closed spec fn limit(&self) -> nat {
        self.max as nat
    }

    /// More items may still be taken.
    pub open spec fn running(&self) -> bool {
        self.limit() == 0 || self.collected().len() < self.limit()
    }

    pub fn new(max: usize) -> (r: Paginator)
        ensures
            r.collected() == Seq::<JsonV>::empty(),
            r.limit() == max,
            r.running(),
    {
        let r = Paginator { items: Vec::new(), max };
        assert(r.collected() =~= Seq::<JsonV>::empty());
        r
    }

    /// Takes in one page and its `Link` header. A page that is neither an
    /// array nor an object is handed back as the error.
    pub fn accept_page(&mut self, page: Json, link: Option<&str>) -> (r: Result<PageStep, Json>)
        requires
            old(self).running(),
        ensures
            final(self).limit() == old(self).limit(),
            final(self).limit() != 0 ==> final(self).collected().len() <= final(self).limit(),
            match page_items(page@) {
                None => (r matches Err(v) && v@ == page@) && final(self).collected() == old(self).collected(),
                Some(a) => {
                    let room = old(self).limit() - old(self).collected().len();
                    if old(self).limit() != 0 && a.len() >= room {
                        &&& final(self).collected() == old(self).collected() + a.subrange(0, room)
                        &&& r matches Ok(PageStep::Done)
                    } else {
                        &&& final(self).collected() == old(self).collected() + a
                        &&& final(self).running()
                        &&& match spec_next_link(opt_view(link)) {
                            Some(u) => (r matches Ok(PageStep::Next(v)) && v@ == u),
                            None => r matches Ok(PageStep::Done),
                        }
                    }
                },
            },
    {
        let ghost pv = page@;
        let mut batch: Vec<Json> = match page {
            Json::Array(a) => a,
            Json::Object(e) => {
                let mut v: Vec<Json> = Vec::new();
                v.push(Json::Object(e));
                v
            },
            other => {
                return Err(other);
            },
        };
        let ghost a = page_items(pv).unwrap();
        assert(json_views(batch@) =~= a);
        let ghost start = self.collected();
        let n = batch.len();
        let mut k: usize = 0;
        while k < n
            invariant
                n == a.len(),
                k <= n,
                json_views(batch@) == a.subrange(k as int, n as int),
                self.collected() == start + a.subrange(0, k as int),
                self.limit() == old(self).limit(),
                start == old(self).collected(),
                pv == page@,
                page_items(pv) == Some(a),
                self.limit() == 0 || start.len() + k < self.limit(),
            decreases n - k,
        {
            assert(json_views(batch@).len() == batch@.len());
            assert(json_views(batch@)[0] == batch@[0]@);
            let ghost b0 = batch@;
            let item = batch.remove(0);
            proof {
                assert(item@ == a[k as int]);
                assert forall|j: int| 0 <= j < batch@.len() implies json_views(batch@)[j] == a.subrange(k + 1, n as int)[j] by {
                    assert(batch@[j] == b0[j + 1]);
                    assert(json_views(b0)[j + 1] == b0[j + 1]@);
                }
                assert(json_views(batch@) =~= a.subrange(k + 1, n as int));
            }
            let ghost i0 = self.items@;
            self.items.push(item);
            proof {
                assert(json_views(self.items@) =~= json_views(i0).push(item@));
                assert(self.collected() == json_views(self.items@));
                assert(start + a.subrange(0, k + 1) =~= (start + a.subrange(0, k as int)).push(a[k as int]));
            }
            k = k + 1;
            assert(json_views(self.items@).len() == self.items@.len());
            if self.max != 0 && self.items.len() >= self.max {
                assert(start.len() + k == self.limit());
                return Ok(PageStep::Done);
            }
        }
        assert(a.subrange(0, n as int) =~= a);
        match parse_next_link(link) {
            Some(u) => Ok(PageStep::Next(u)),
            None => Ok(PageStep::Done),
        }
    }

    /// The collected items.
    pub fn into_items(self) -> (r: Vec<Json>)
        ensures
            json_views(r@) == self.collected(),
    {
        self.items
    }
}

} // verus!
