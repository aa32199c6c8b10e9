//! Request parsing and routing of the relayer's HTTP API. The socket
//! handling and the JSON bodies are produced outside.
use vstd::prelude::*;
use vstd::string::StrSliceExecFns;
use crate::metrics::Metrics;
use crate::finality::{has_prefix, starts_with, unsigned_digits};

verus! {

/// Index of the first `c` in `s`, or -1.
pub open spec fn index_of(s: Seq<char>, c: char) -> int
    decreases s.len(),
{
    if s.len() == 0 {
        -1
    } else if s[0] == c {
        0
    } else {
        let r = index_of(s.drop_first(), c);
        if r < 0 {
            -1
        } else {
            r + 1
        }
    }
}

/// `index_of` is the first position holding `c`.
pub proof fn lemma_index_of(s: Seq<char>, c: char)
    ensures
        -1 <= index_of(s, c) < s.len(),
        index_of(s, c) >= 0 ==> s[index_of(s, c)] == c,
        forall|k: int| 0 <= k < s.len() && (index_of(s, c) < 0 || k < index_of(s, c)) ==> s[k] != c,
    decreases s.len(),
{
    if s.len() > 0 && s[0] != c {
        lemma_index_of(s.drop_first(), c);
        assert forall|k: int| 0 <= k < s.len() && (index_of(s, c) < 0 || k < index_of(s, c)) implies s[k]
            != c by {
            if k > 0 {
                assert(s[k] == s.drop_first()[k - 1]);
            }
        }
    }
}

/// The first position at or after `from` (and before `to`) holding `c`.
fn find_char(s: &str, c: char, from: usize, to: usize) -> (r: Option<usize>)
    requires
        from <= to <= s@.len(),
    ensures
        ({
            let i = index_of(s@.subrange(from as int, to as int), c);
            match r {
                Some(p) => i >= 0 && p == from + i,
                None => i < 0,
            }
        }),
{
    let ghost t = s@.subrange(from as int, to as int);
    proof {
        lemma_index_of(t, c);
    }
    let mut i: usize = from;
    while i < to
        invariant
            from <= i <= to <= s@.len(),
            t == s@.subrange(from as int, to as int),
            -1 <= index_of(t, c) < t.len(),
            index_of(t, c) >= 0 ==> t[index_of(t, c)] == c,
            forall|k: int| 0 <= k < t.len() && (index_of(t, c) < 0 || k < index_of(t, c)) ==> t[k] != c,
            forall|k: int| from <= k < i ==> s@[k] != c,
        decreases to - i,
    {
        if s.get_char(i) == c {
            assert(t[i - from] == c);
            return Some(i);
        }
        i = i + 1;
    }
    proof {
        if index_of(t, c) >= 0 {
            assert(s@[from + index_of(t, c)] == t[index_of(t, c)]);
        }
    }
    None
}

/// The first line of a request: up to the first newline, less a carriage
/// return before it.
pub open spec fn first_line(s: Seq<char>) -> Seq<char> {
    let nl = index_of(s, '\n');
    if nl < 0 {
        s
    } else if nl > 0 && s[nl - 1] == '\r' {
        s.take(nl - 1)
    } else {
        s.take(nl)
    }
}

/// The key and value of a `key=value` pair; the value is empty without `=`.
pub open spec fn key_value(seg: Seq<char>) -> (Seq<char>, Seq<char>) {
    let e = index_of(seg, '=');
    if e < 0 {
        (seg, Seq::empty())
    } else {
        (seg.take(e), seg.skip(e + 1))
    }
}

/// The pairs of a query string, `&`-separated, empty pieces skipped.
pub open spec fn query_pairs(qs: Seq<char>) -> Seq<(Seq<char>, Seq<char>)>
    decreases qs.len(),
{
    let a = index_of(qs, '&');
    let seg = if a < 0 { qs } else { qs.take(a) };
    let here = if seg.len() == 0 { Seq::empty() } else { seq![key_value(seg)] };
    if a < 0 {
        here
    } else {
        proof {
            lemma_index_of(qs, '&');
        }
        here + query_pairs(qs.skip(a + 1))
    }
}

/// The value of the last pair with this key.
pub open spec fn lookup(pairs: Seq<(Seq<char>, Seq<char>)>, key: Seq<char>) -> Option<Seq<char>>
    decreases pairs.len(),
{
    if pairs.len() == 0 {
        None
    } else if pairs.last().0 == key {
        Some(pairs.last().1)
    } else {
        lookup(pairs.drop_last(), key)
    }
}

/// Index of the first blank line (`\r\n\r\n`), or -1.
pub open spec fn index_of_blank_line(s: Seq<char>) -> int
    decreases s.len(),
{
    if s.len() < 4 {
        -1
    } else if s[0] == '\r' && s[1] == '\n' && s[2] == '\r' && s[3] == '\n' {
        0
    } else {
        let r = index_of_blank_line(s.drop_first());
        if r < 0 {
            -1
        } else {
            r + 1
        }
    }
}

/// `s` without its trailing NUL characters.
pub open spec fn trim_nul(s: Seq<char>) -> Seq<char>
    decreases s.len(),
{
    if s.len() > 0 && s.last() == '\0' {
        trim_nul(s.drop_last())
    } else {
        s
    }
}

/// The body of a request: what follows the first blank line, without
/// trailing NULs; empty without a blank line.
pub open spec fn request_body(s: Seq<char>) -> Seq<char> {
    let b = index_of_blank_line(s);
    if b < 0 {
        Seq::empty()
    } else {
        trim_nul(s.skip(b + 4))
    }
}

/// Query parameters; a later pair replaces an earlier one with its key.
#[derive(Debug, Clone)]
pub struct QueryParams {
    pairs: Vec<(String, String)>,
}

impl View for QueryParams {
    type V = Seq<(Seq<char>, Seq<char>)>;

    closed spec fn view(&self) -> Seq<(Seq<char>, Seq<char>)> {
        self.pairs@.map_values(|p: (String, String)| (p.0@, p.1@))
    }
}

impl QueryParams {
    /// No parameters.
    pub fn new() -> (r: QueryParams)
        ensures
            r@ == Seq::<(Seq<char>, Seq<char>)>::empty(),
    {
        let r = QueryParams { pairs: Vec::new() };
        assert(r@ =~= Seq::<(Seq<char>, Seq<char>)>::empty());
        r
    }

    /// Add a pair after the others.
    pub fn insert(&mut self, key: String, value: String)
        ensures
            final(self)@ == old(self)@.push((key@, value@)),
    {
        self.pairs.push((key, value));
        assert(self@ =~= old(self)@.push((key@, value@)));
    }

    /// The value for `key`.
    pub fn get(&self, key: &str) -> (r: Option<&String>)
        ensures
            r is None <==> lookup(self@, key@) is None,
            r matches Some(v) ==> lookup(self@, key@) == Some(v@),
    {
        let mut i = self.pairs.len();
        assert(self@.take(i as int) =~= self@);
        while i > 0
            invariant
                i <= self.pairs@.len(),
                lookup(self@.take(i as int), key@) == lookup(self@, key@),
            decreases i,
        {
            i = i - 1;
            assert(self@.take(i + 1).drop_last() =~= self@.take(i as int));
            assert(self@.take(i + 1).last() == self@[i as int]);
            if self.pairs[i].0.as_str().unicode_len() == key.unicode_len() && str_eq(
                self.pairs[i].0.as_str(),
                key,
            ) {
                return Some(&self.pairs[i].1);
            }
        }
        assert(self@.take(0).len() == 0);
        None
    }

    /// Whether there are no parameters.
    pub fn is_empty(&self) -> (r: bool)
        ensures
            r == (self@.len() == 0),
    {
        self.pairs.len() == 0
    }
}

pub(crate) fn str_eq(a: &str, b: &str) -> (r: bool)
    ensures
        r == (a@ == b@),
{
    let n = a.unicode_len();
    if n != b.unicode_len() {
        return false;
    }
    let mut i: usize = 0;
    while i < n
        invariant
            n == a@.len() == b@.len(),
            i <= n,
            forall|k: int| 0 <= k < i ==> a@[k] == b@[k],
        decreases n - i,
    {
        if a.get_char(i) != b.get_char(i) {
            return false;
        }
        i = i + 1;
    }
    assert(a@ =~= b@);
    true
}

/// A blank line (`\r\n\r\n`) starts at `k`.
pub open spec fn blank_at(s: Seq<char>, k: int) -> bool {
    0 <= k && k + 4 <= s.len() && s[k] == '\r' && s[k + 1] == '\n' && s[k + 2] == '\r' && s[k + 3]
        == '\n'
}

/// `index_of_blank_line` is the first position of a blank line.
pub proof fn lemma_index_of_blank_line(s: Seq<char>)
    ensures
        -1 <= index_of_blank_line(s),
        index_of_blank_line(s) >= 0 ==> blank_at(s, index_of_blank_line(s)),
        forall|k: int|
            (index_of_blank_line(s) < 0 || k < index_of_blank_line(s)) ==> !#[trigger] blank_at(s, k),
    decreases s.len(),
{
    if s.len() >= 4 && !blank_at(s, 0) {
        let t = s.drop_first();
        lemma_index_of_blank_line(t);
        assert forall|k: int| (index_of_blank_line(s) < 0 || k < index_of_blank_line(s)) implies !#[trigger] blank_at(s, k) by {
            if k > 0 && k + 4 <= s.len() {
                assert(s[k] == t[k - 1] && s[k + 1] == t[k] && s[k + 2] == t[k + 1] && s[k + 3] == t[k + 2]);
                assert(blank_at(s, k) == blank_at(t, k - 1));
            }
        }
        if index_of_blank_line(t) >= 0 {
            let r = index_of_blank_line(t);
            assert(s[r + 1] == t[r] && s[r + 2] == t[r + 1] && s[r + 3] == t[r + 2] && s[r + 4] == t[r + 3]);
        }
    }
}

fn find_blank_line(s: &str) -> (r: Option<usize>)
    ensures
        s@.len() <= usize::MAX,
        r matches Some(p) ==> p + 4 <= s@.len(),
        match r {
            Some(p) => index_of_blank_line(s@) == p,
            None => index_of_blank_line(s@) < 0,
        },
{
    proof {
        lemma_index_of_blank_line(s@);
    }
    let n = s.unicode_len();
    if n < 4 {
        return None;
    }
    let mut i: usize = 0;
    while i <= n - 4
        invariant
            n == s@.len(),
            n >= 4,
            i <= n - 3,
            forall|k: int| 0 <= k < i ==> !#[trigger] blank_at(s@, k),
        decreases n - i,
    {
        if s.get_char(i) == '\r' && s.get_char(i + 1) == '\n' && s.get_char(i + 2) == '\r'
            && s.get_char(i + 3) == '\n' {
            proof {
                lemma_index_of_blank_line(s@);
                assert(blank_at(s@, i as int));
                if index_of_blank_line(s@) >= 0 && index_of_blank_line(s@) < i {
                    assert(!blank_at(s@, index_of_blank_line(s@)));
                }
            }
            return Some(i);
        }
        i = i + 1;
    }
    proof {
        assert forall|k: int| 0 <= k implies !#[trigger] blank_at(s@, k) by {
            if k >= i {
                assert(k + 4 > s@.len());
            }
        }
        if index_of_blank_line(s@) >= 0 {
            assert(blank_at(s@, index_of_blank_line(s@)));
        }
    }
    None
}

/// `s` from `from` on, without trailing NULs.
fn trimmed_tail(s: &str, from: usize) -> (r: String)
    requires
        from <= s@.len(),
    ensures
        r@ == trim_nul(s@.skip(from as int)),
{
    let n = s.unicode_len();
    let mut e = n;
    assert(s@.subrange(from as int, n as int) =~= s@.skip(from as int));
    while e > from && s.get_char(e - 1) == '\0'
        invariant
            n == s@.len(),
            from <= e <= n,
            trim_nul(s@.subrange(from as int, e as int)) == trim_nul(s@.skip(from as int)),
        decreases e,
    {
        assert(s@.subrange(from as int, e as int).drop_last() =~= s@.subrange(from as int, e - 1));
        e = e - 1;
    }
    s.substring_char(from, e).to_owned()
}

/// Parse the pairs of the query string `s[from..to]`.
fn parse_query(s: &str, from: usize, to: usize) -> (r: QueryParams)
    requires
        from <= to <= s@.len(),
    ensures
        r@ == query_pairs(s@.subrange(from as int, to as int)),
{
    let mut params = QueryParams::new();
    let mut start = from;
    assert(params@ + query_pairs(s@.subrange(start as int, to as int)) =~= query_pairs(
        s@.subrange(from as int, to as int),
    ));
    loop
        invariant_except_break
            from <= start <= to <= s@.len(),
            params@ + query_pairs(s@.subrange(start as int, to as int)) == query_pairs(
                s@.subrange(from as int, to as int),
            ),
        ensures
            params@ == query_pairs(s@.subrange(from as int, to as int)),
        decreases to - start,
    {
        let ghost qs = s@.subrange(start as int, to as int);
        proof {
            lemma_index_of(qs, '&');
        }
        let amp = find_char(s, '&', start, to);
        let seg_end = match amp {
            Some(p) => p,
            None => to,
        };
        let ghost seg = s@.subrange(start as int, seg_end as int);
        assert(seg =~= (if index_of(qs, '&') < 0 { qs } else { qs.take(index_of(qs, '&')) }));
        let ghost before = params@;
        if seg_end > start {
            proof {
                lemma_index_of(seg, '=');
            }
            let eq = find_char(s, '=', start, seg_end);
            match eq {
                Some(e) => {
                    let k = s.substring_char(start, e).to_owned();
                    let v = s.substring_char(e + 1, seg_end).to_owned();
                    params.insert(k, v);
                    assert(s@.subrange(start as int, e as int) =~= seg.take(e - start));
                    assert(s@.subrange(e + 1, seg_end as int) =~= seg.skip(e - start + 1));
                },
                None => {
                    let k = s.substring_char(start, seg_end).to_owned();
                    params.insert(k, String::new());
                },
            }
            assert(params@ == before + seq![key_value(seg)]);
        } else {
            assert(params@ == before);
        }
        match amp {
            Some(p) => {
                assert(qs.skip(index_of(qs, '&') + 1) =~= s@.subrange(p + 1, to as int));
                start = p + 1;
            },
            None => {
                break;
            },
        }
    }
    params
}

/// The method, path, query pairs and body of a request; a request line
/// without a space parses as method "", path "/" and nothing else.
pub open spec fn parsed_request(s: Seq<char>) -> (Seq<char>, Seq<char>, Seq<(Seq<char>, Seq<char>)>, Seq<char>) {
    let line = first_line(s);
    let sp = index_of(line, ' ');
    if sp < 0 {
        (Seq::empty(), "/"@, Seq::empty(), Seq::empty())
    } else {
        let rest = line.skip(sp + 1);
        let sp2 = index_of(rest, ' ');
        let full = if sp2 < 0 { rest } else { rest.take(sp2) };
        let q = index_of(full, '?');
        let path = if q < 0 { full } else { full.take(q) };
        let qs = if q < 0 { Seq::empty() } else { full.skip(q + 1) };
        (line.take(sp), path, query_pairs(qs), request_body(s))
    }
}

/// End of the first line of a request.
fn first_line_end(request: &str) -> (r: usize)
    ensures
        r <= request@.len(),
        request@.subrange(0, r as int) == first_line(request@),
{
    let n = request.unicode_len();
    proof {
        lemma_index_of(request@, '\n');
    }
    let nl = find_char(request, '\n', 0, n);
    assert(request@.subrange(0, n as int) =~= request@);
    let e = match nl {
        None => n,
        Some(p) => {
            if p > 0 && request.get_char(p - 1) == '\r' {
                p - 1
            } else {
                p
            }
        },
    };
    assert(request@.subrange(0, e as int) =~= first_line(request@));
    e
}

/// Where the target of a request line ends (`full_end`), where its path
/// ends and where its query string starts.
fn target_bounds(request: &str, rest_start: usize, line_end: usize) -> (r: (usize, usize, usize))
    requires
        rest_start <= line_end <= request@.len(),
    ensures
        ({
            let rest = request@.subrange(rest_start as int, line_end as int);
            let sp2 = index_of(rest, ' ');
            let full = if sp2 < 0 { rest } else { rest.take(sp2) };
            let q = index_of(full, '?');
            &&& rest_start <= r.1 <= r.0 <= line_end
            &&& r.1 <= r.2 <= r.0
            &&& request@.subrange(rest_start as int, r.1 as int) == (if q < 0 { full } else { full.take(q) })
            &&& request@.subrange(r.2 as int, r.0 as int) == (if q < 0 { Seq::empty() } else { full.skip(q + 1) })
        }),
{
    let ghost rest = request@.subrange(rest_start as int, line_end as int);
    proof {
        lemma_index_of(rest, ' ');
    }
    let full_end = match find_char(request, ' ', rest_start, line_end) {
        None => line_end,
        Some(p) => p,
    };
    let ghost full = request@.subrange(rest_start as int, full_end as int);
    assert(full =~= (if index_of(rest, ' ') < 0 { rest } else { rest.take(index_of(rest, ' ')) }));
    proof {
        lemma_index_of(full, '?');
    }
    let q = find_char(request, '?', rest_start, full_end);
    let (path_end, qs_start) = match q {
        None => (full_end, full_end),
        Some(p) => (p, p + 1),
    };
    assert(request@.subrange(rest_start as int, path_end as int) =~= (if index_of(full, '?') < 0 {
        full
    } else {
        full.take(index_of(full, '?'))
    }));
    assert(request@.subrange(qs_start as int, full_end as int) =~= (if index_of(full, '?') < 0 {
        Seq::empty()
    } else {
        full.skip(index_of(full, '?') + 1)
    }));
    (full_end, path_end, qs_start)
}

/// The body of a request.
fn body_of(request: &str) -> (r: String)
    ensures
        r@ == request_body(request@),
{
    match find_blank_line(request) {
        None => String::new(),
        Some(b) => {
            proof {
                lemma_index_of_blank_line(request@);
            }
            trimmed_tail(request, b + 4)
        },
    }
}

/// Parse a raw HTTP request into its method, path, query parameters and
/// body.
pub fn parse_request<'a>(request: &'a str) -> (r: (&'a str, &'a str, QueryParams, String))
    ensures
        (r.0@, r.1@, r.2@, r.3@) == parsed_request(request@),
{
    proof {
        reveal_strlit("/");
        reveal_strlit("");
    }
    let line_end = first_line_end(request);
    let ghost line = request@.subrange(0, line_end as int);
    let sp = match find_char(request, ' ', 0, line_end) {
        None => {
            let r = ("", "/", QueryParams::new(), String::new());
            assert(r.0@ =~= Seq::<char>::empty());
            return r;
        },
        Some(p) => p,
    };
    proof {
        lemma_index_of(line, ' ');
    }
    let rest_start = sp + 1;
    assert(request@.subrange(rest_start as int, line_end as int) =~= line.skip(index_of(line, ' ') + 1));
    let (full_end, path_end, qs_start) = target_bounds(request, rest_start, line_end);
    let method = request.substring_char(0, sp);
    let path = request.substring_char(rest_start, path_end);
    assert(method@ =~= line.take(index_of(line, ' ')));
    let query = parse_query(request, qs_start, full_end);
    let body = body_of(request);
    (method, path, query, body)
}

/// The reason phrase of a status code.
pub fn reason(status: u16) -> (r: &'static str)
    ensures
        r@ == (if status == 200 {
            "OK"@
        } else if status == 400 {
            "Bad Request"@
        } else if status == 404 {
            "Not Found"@
        } else if status == 500 {
            "Internal Server Error"@
        } else {
            "Unknown"@
        }),
{
    match status {
        200 => "OK",
        400 => "Bad Request",
        404 => "Not Found",
        500 => "Internal Server Error",
        _ => "Unknown",
    }
}

/// The endpoint a request is routed to.
#[derive(Debug, Clone, PartialEq, Eq)]
pub enum Route {
    Health,
    Quote,
    Compare,
    Metrics,
    MetricsJson,
    WebhooksList,
    WebhooksRegister,
    /// Remove the webhook with this ID.
    WebhooksDeregister(String),
    /// Fetch the webhook with this ID.
    WebhooksGet(String),
    NotFound,
}

/// Which route a method and path select, numbered in the order they are
/// tried (0 when none applies).
pub open spec fn route_code(m: Seq<char>, p: Seq<char>) -> int {
    if m == "GET"@ && p == "/health"@ {
        1
    } else if m == "GET"@ && p == "/quote"@ {
        2
    } else if m == "GET"@ && p == "/compare"@ {
        3
    } else if m == "GET"@ && p == "/metrics"@ {
        4
    } else if m == "GET"@ && p == "/metrics/json"@ {
        5
    } else if m == "GET"@ && p == "/webhooks"@ {
        6
    } else if m == "POST"@ && p == "/webhooks/register"@ {
        7
    } else if m == "DELETE"@ && has_prefix(p, "/webhooks/"@) {
        8
    } else if m == "GET"@ && has_prefix(p, "/webhooks/"@) {
        9
    } else {
        0
    }
}

/// The number of a route.
pub open spec fn route_number(r: Route) -> int {
    match r {
        Route::Health => 1,
        Route::Quote => 2,
        Route::Compare => 3,
        Route::Metrics => 4,
        Route::MetricsJson => 5,
        Route::WebhooksList => 6,
        Route::WebhooksRegister => 7,
        Route::WebhooksDeregister(_) => 8,
        Route::WebhooksGet(_) => 9,
        Route::NotFound => 0,
    }
}

/// Route a request by its method and path; a webhook route carries the ID
/// that follows `/webhooks/`.
pub fn route(method: &str, path: &str) -> (r: Route)
    ensures
        route_number(r) == route_code(method@, path@),
        r matches Route::WebhooksDeregister(id) ==> id@ == path@.skip(10),
        r matches Route::WebhooksGet(id) ==> id@ == path@.skip(10),
{
    proof {
        reveal_strlit("/webhooks/");
    }
    let get = str_eq(method, "GET");
    if get && str_eq(path, "/health") {
        Route::Health
    } else if get && str_eq(path, "/quote") {
        Route::Quote
    } else if get && str_eq(path, "/compare") {
        Route::Compare
    } else if get && str_eq(path, "/metrics") {
        Route::Metrics
    } else if get && str_eq(path, "/metrics/json") {
        Route::MetricsJson
    } else if get && str_eq(path, "/webhooks") {
        Route::WebhooksList
    } else if str_eq(method, "POST") && str_eq(path, "/webhooks/register") {
        Route::WebhooksRegister
    } else if str_eq(method, "DELETE") && starts_with(path, "/webhooks/") {
        let n = path.unicode_len();
        Route::WebhooksDeregister(path.substring_char(10, n).to_owned())
    } else if get && starts_with(path, "/webhooks/") {
        let n = path.unicode_len();
        Route::WebhooksGet(path.substring_char(10, n).to_owned())
    } else {
        Route::NotFound
    }
}

/// The body of the answer to an unknown route: the error and the routes.
pub open spec fn not_found_body() -> Seq<char> {
    "{\"error\":\"not found\",\"routes\":[\"/health\",\"/quote\",\"/compare\",\"/metrics\",\"/metrics/json\",\"/webhooks\",\"/webhooks/register (POST)\",\"/webhooks/{id} (GET, DELETE)\"]}"@
}

/// The answer to an unknown route.
pub fn not_found() -> (r: (u16, &'static str, String))
    ensures
        r.0 == 404,
        r.1@ == "application/json"@,
        r.2@ == not_found_body(),
{
    (
        404,
        "application/json",
        "{\"error\":\"not found\",\"routes\":[\"/health\",\"/quote\",\"/compare\",\"/metrics\",\"/metrics/json\",\"/webhooks\",\"/webhooks/register (POST)\",\"/webhooks/{id} (GET, DELETE)\"]}".to_owned(),
    )
}

/// The Prometheus scrape: the metrics in text format.
pub fn prometheus(metrics: &Metrics) -> (r: (u16, &'static str, String))
    ensures
        r.0 == 200,
        r.1@ == "text/plain; version=0.0.4"@,
        r.2@ == crate::metrics::totals_text(
            crate::metrics::latency_blocks(
                crate::metrics::finality_blocks(crate::metrics::pipeline_text(metrics@), metrics.finality_seq()),
                metrics.latency_seq(),
            ),
            metrics@,
        ),
{
    (200, "text/plain; version=0.0.4", metrics.prometheus_text())
}

/// The value of a string of decimal digits.
pub open spec fn dec_value(s: Seq<char>) -> int
    decreases s.len(),
{
    if s.len() == 0 {
        0
    } else {
        dec_value(s.drop_last()) * 10 + (s.last() as int - '0' as int)
    }
}

/// Every character of `d` is a decimal digit.
pub open spec fn all_decimal_digits(d: Seq<char>) -> bool {
    forall|k: int| 0 <= k < d.len() ==> '0' <= #[trigger] d[k] && d[k] <= '9'
}

/// An unsigned integer in decimal: an optional `+`, then at least one
/// digit, at most `max`.
pub open spec fn parse_unsigned(s: Seq<char>, max: int) -> Option<int> {
    let d = unsigned_digits(s);
    if d.len() == 0 || !all_decimal_digits(d) {
        None
    } else if dec_value(d) > max {
        None
    } else {
        Some(dec_value(d))
    }
}

proof fn lemma_dec_prefix_monotone(d: Seq<char>, k: int, j: int)
    requires
        0 <= k <= j <= d.len(),
        forall|t: int| 0 <= t < j ==> '0' <= #[trigger] d[t] && d[t] <= '9',
    ensures
        dec_value(d.subrange(0, k)) <= dec_value(d.subrange(0, j)),
        dec_value(d.subrange(0, j)) >= 0,
    decreases j,
{
    if j > 0 {
        lemma_dec_prefix_monotone(d, if k == j { j - 1 } else { k }, j - 1);
        assert(d.subrange(0, j).drop_last() =~= d.subrange(0, j - 1));
        assert(d.subrange(0, j).last() == d[j - 1]);
    } else {
        assert(d.subrange(0, 0).len() == 0);
    }
}

/// Parse an unsigned decimal no greater than `max`.
pub fn parse_unsigned_exec(s: &str, max: u128) -> (r: Option<u128>)
    ensures
        r matches Some(x) ==> x <= max,
        r is None <==> parse_unsigned(s@, max as int) is None,
        r matches Some(x) ==> parse_unsigned(s@, max as int) == Some(x as int),
{
    let n = s.unicode_len();
    let mut start: usize = 0;
    if n > 0 && s.get_char(0) == '+' {
        start = 1;
    }
    let ghost d = s@.subrange(start as int, n as int);
    assert(d =~= unsigned_digits(s@));
    if start == n {
        return None;
    }
    let mut value: u128 = 0;
    let mut i: usize = start;
    while i < n
        invariant
            n == s@.len(),
            start < n,
            start <= i <= n,
            d == s@.subrange(start as int, n as int),
            d == unsigned_digits(s@),
            forall|k: int| 0 <= k < i - start ==> '0' <= #[trigger] d[k] && d[k] <= '9',
            value == dec_value(d.subrange(0, i - start)),
            value <= max,
        decreases n - i,
    {
        let c = s.get_char(i);
        assert(d.subrange(0, i + 1 - start).drop_last() =~= d.subrange(0, i - start));
        assert(d[i - start] == c);
        if !('0' <= c && c <= '9') {
            assert(!('0' <= d[i - start] && d[i - start] <= '9'));
            assert(!all_decimal_digits(d));
            return None;
        }
        let v = (c as u32 - '0' as u32) as u128;
        if v > max || value > (max - v) / 10 {
            proof {
                let vv = v as int;
                if vv <= max {
                    assert(value * 10 + vv > max) by (nonlinear_arith)
                        requires
                            value > (max - vv) / 10,
                            0 <= vv <= max,
                    ;
                }
                assert(dec_value(d.subrange(0, i + 1 - start)) == value * 10 + vv);
                if all_decimal_digits(d) {
                    lemma_dec_prefix_monotone(d, i + 1 - start, d.len() as int);
                    assert(d.subrange(0, d.len() as int) =~= d);
                }
            }
            return None;
        }
        assert(value * 10 + v <= max) by (nonlinear_arith)
            requires
                value <= (max - v) / 10,
                v <= max,
        ;
        value = value * 10 + v;
        i = i + 1;
    }
    assert(d.subrange(0, n - start) =~= d);
    Some(value)
}

/// A `u64` query parameter, or `default` when it is missing or not a `u64`.
pub fn parse_u64(q: &QueryParams, key: &str, default: u64) -> (r: u64)
    ensures
        r == (match lookup(q@, key@) {
            Some(v) => match parse_unsigned(v, u64::MAX as int) {
                Some(x) => x as u64,
                None => default,
            },
            None => default,
        }),
{
    match q.get(key) {
        Some(v) => match parse_unsigned_exec(v.as_str(), u64::MAX as u128) {
            Some(x) => {
                x as u64
            },
            None => default,
        },
        None => default,
    }
}

/// A `u128` query parameter, or `default`.
pub fn parse_u128(q: &QueryParams, key: &str, default: u128) -> (r: u128)
    ensures
        r == (match lookup(q@, key@) {
            Some(v) => match parse_unsigned(v, u128::MAX as int) {
                Some(x) => x as u128,
                None => default,
            },
            None => default,
        }),
{
    match q.get(key) {
        Some(v) => match parse_unsigned_exec(v.as_str(), u128::MAX) {
            Some(x) => x,
            None => default,
        },
        None => default,
    }
}

/// A `usize` query parameter, or `default`.
pub fn parse_usize(q: &QueryParams, key: &str, default: usize) -> (r: usize)
    ensures
        r == (match lookup(q@, key@) {
            Some(v) => match parse_unsigned(v, usize::MAX as int) {
                Some(x) => x as usize,
                None => default,
            },
            None => default,
        }),
{
    match q.get(key) {
        Some(v) => match parse_unsigned_exec(v.as_str(), usize::MAX as u128) {
            Some(x) => {
                x as usize
            },
            None => default,
        },
        None => default,
    }
}

} // verus!
