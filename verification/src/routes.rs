//! The routing layer: one handler per route, each translating a store call
//! into a status code and a JSON body. The HTTP plumbing around these
//! handlers (sockets, headers, request framing) lives outside the library;
//! a handler takes the already-extracted path segment and body text.

use vstd::prelude::*;
use crate::chars::{chars_eq, chars_to_string, str_chars};
use crate::json::{
    evar_json, evar_to_json, greeting_json, greeting_to_json, health_json, hostinfo_json,
    hostinfo_to_json, list_json, list_to_json, not_found_json, pairs_view, version_json,
    version_to_json,
};
use crate::parse::{parse_id, parse_message, spec_parse_id, spec_parse_message};
use crate::store::{new_id, spec_create, spec_get, spec_update, Greeting, GreetingStore};

verus! {

/// What a handler hands back to the HTTP layer: a status code, an optional
/// content type, a body, and (for redirects) a target location.
pub struct Response {
    pub status: u16,
    pub content_type: Option<String>,
    pub body: String,
    pub location: Option<String>,
}

/// Whether a response is a JSON response.
pub open spec fn json_content(r: Response) -> bool {
    r.content_type matches Some(ct) && ct@ == "application/json"@
}

fn json_response(status: u16, body: String) -> (r: Response)
    ensures
        r.status == status,
        r.body@ == body@,
        json_content(r),
        r.location is None,
{
    Response {
        status,
        content_type: Some("application/json".to_owned()),
        body,
        location: None,
    }
}

fn not_found_response() -> (r: Response)
    ensures
        r.status == 404,
        r.body@ == not_found_json(),
        json_content(r),
        r.location is None,
{
    json_response(404, "{\"status\":\"404\",\"reason\":\"Resource was not found.\"}".to_owned())
}

fn bad_request_response() -> (r: Response)
    ensures
        r.status == 400,
        r.body@.len() == 0,
        r.content_type is None,
        r.location is None,
{
    Response { status: 400, content_type: None, body: String::new(), location: None }
}

/// The root route: a 303 redirect to the greeting listing under the
/// versioned prefix.
pub fn root() -> (r: Response)
    ensures
        r.status == 303,
        r.location matches Some(l) && l@ == "/v1/greeting"@,
        r.body@.len() == 0,
        r.content_type is None,
{
    Response {
        status: 303,
        content_type: None,
        body: String::new(),
        location: Some("/v1/greeting".to_owned()),
    }
}

/// POST /greeting/new: a well-formed body creates a record under the next id
/// and returns it with status 200; a malformed body is rejected with 400
/// before the store is touched.
pub fn new(store: &mut GreetingStore, body: &str) -> (r: Response)
    requires
        old(store).size() < usize::MAX,
    ensures
        match spec_parse_message(body@) {
            Some(m) => r.status == 200 && r.body@ == greeting_json(
                Some(new_id(old(store).messages())),
                m,
            ) && final(store).messages() == spec_create(old(store).messages(), m)
                && json_content(r) && r.location is None,
            None => r.status == 400 && r.body@.len() == 0 && r.content_type is None
                && final(store).messages() == old(store).messages() && r.location is None,
        },
{
    match parse_message(body) {
        Some(msg) => {
            let g = store.create(msg.message);
            let b = greeting_to_json(&g);
            json_response(200, b)
        },
        None => bad_request_response(),
    }
}

/// PUT /greeting/{id}: a non-integer id is not found (404); a malformed body
/// is rejected with 400; an absent id yields the uniform 404 body and leaves
/// the store unchanged; otherwise the message is replaced in place and the
/// updated record returned with status 200.
pub fn update(store: &mut GreetingStore, id: &str, body: &str) -> (r: Response)
    ensures
        r.location is None,
        match spec_parse_id(id@) {
            None => r.status == 404 && r.body@ == not_found_json() && json_content(r)
                && final(store).messages() == old(store).messages(),
            Some(i) => match spec_parse_message(body@) {
                None => r.status == 400 && r.body@.len() == 0 && r.content_type is None
                    && final(store).messages() == old(store).messages(),
                Some(m) => final(store).messages() == spec_update(
                    old(store).messages(),
                    i as int,
                    m,
                ) && (old(store).contains_id(i as int) ==> r.status == 200 && r.body@
                    == greeting_json(Some(i), m) && json_content(r)) && (!old(store).contains_id(
                    i as int,
                ) ==> r.status == 404 && r.body@ == not_found_json() && json_content(r)),
            },
        },
{
    let i = match parse_id(id) {
        Some(i) => i,
        None => {
            return not_found_response();
        },
    };
    let msg = match parse_message(body) {
        Some(msg) => msg,
        None => {
            return bad_request_response();
        },
    };
    match store.update(i, msg.message) {
        Some(g) => {
            let b = greeting_to_json(&g);
            json_response(200, b)
        },
        None => not_found_response(),
    }
}

/// GET /greeting/{id}: the record with that id, or the uniform 404 body for a
/// non-integer or absent id.
pub fn get(store: &GreetingStore, id: &str) -> (r: Response)
    ensures
        r.location is None,
        json_content(r),
        match spec_parse_id(id@) {
            None => r.status == 404 && r.body@ == not_found_json(),
            Some(i) => match spec_get(store.messages(), i as int) {
                Some(m) => r.status == 200 && r.body@ == greeting_json(Some(i), m),
                None => r.status == 404 && r.body@ == not_found_json(),
            },
        },
{
    let i = match parse_id(id) {
        Some(i) => i,
        None => {
            return not_found_response();
        },
    };
    match store.get(i) {
        Some(g) => {
            let b = greeting_to_json(&g);
            json_response(200, b)
        },
        None => not_found_response(),
    }
}

/// GET /greeting: every record, as a JSON array; an empty store yields `[]`.
pub fn list(store: &GreetingStore) -> (r: Response)
    ensures
        r.status == 200,
        r.body@ == list_json(store.messages()),
        json_content(r),
        r.location is None,
{
    let v = store.list();
    proof {
        assert(v@.map_values(|g: Greeting| g.message@) =~= store.messages());
    }
    let b = list_to_json(&v);
    json_response(200, b)
}

/// GET /healthz: the static health body.
pub fn health() -> (r: Response)
    ensures
        r.status == 200,
        r.body@ == health_json(),
        json_content(r),
        r.location is None,
{
    json_response(200, "{\"status\":\"200\",\"message\":\"OK\"}".to_owned())
}

/// The catcher for unmatched routes and not-found resources: the uniform 404
/// body.
pub fn not_found() -> (r: Response)
    ensures
        r.status == 404,
        r.body@ == not_found_json(),
        json_content(r),
        r.location is None,
{
    not_found_response()
}

/// GET /envinfo: the environment snapshot captured at startup, in the order
/// given.
pub fn envinfo(evar: &Vec<(String, String)>) -> (r: Response)
    ensures
        r.status == 200,
        r.body@ == evar_json(pairs_view(evar@)),
        json_content(r),
        r.location is None,
{
    let b = evar_to_json(evar);
    json_response(200, b)
}

/// GET /hostinfo: the hostname captured at startup.
pub fn hostinfo(host: &str) -> (r: Response)
    ensures
        r.status == 200,
        r.body@ == hostinfo_json(host@),
        json_content(r),
        r.location is None,
{
    let b = hostinfo_to_json(host);
    json_response(200, b)
}

/// GET /version: the package version captured at startup.
pub fn version(ver: &str) -> (r: Response)
    ensures
        r.status == 200,
        r.body@ == version_json(ver@),
        json_content(r),
        r.location is None,
{
    let b = version_to_json(ver);
    json_response(200, b)
}

/// Where a request is dispatched: one variant per route, with the id path
/// segment carried along where the route has one.
pub enum Route {
    Root,
    VersionInfo,
    Healthz,
    CreateGreeting,
    ListGreetings,
    GetGreeting(String),
    UpdateGreeting(String),
    EnvInfo,
    HostInfo,
    NoRoute,
}

/// The spec-level counterpart of `Route`, carrying the id segment as a
/// character sequence.
pub enum RouteSpec {
    Root,
    VersionInfo,
    Healthz,
    CreateGreeting,
    ListGreetings,
    GetGreeting(Seq<char>),
    UpdateGreeting(Seq<char>),
    EnvInfo,
    HostInfo,
    NoRoute,
}

/// Whether a path is `/v1/greeting/` followed by one non-empty segment (no
/// further slash).
pub open spec fn is_greeting_item(path: Seq<char>) -> bool {
    path.len() > 13 && path.take(13) == "/v1/greeting/"@ && (forall|i: int|
        13 <= i < path.len() ==> path[i] != '/')
}

/// The routing table: which handler a method and path reach. An id segment is
/// handed on as text; whether it is a valid integer is the handler's
/// decision. Anything unmatched falls to the 404 catcher.
pub open spec fn spec_route(method: Seq<char>, path: Seq<char>) -> RouteSpec {
    if method == "GET"@ {
        if path == "/"@ {
            RouteSpec::Root
        } else if path == "/version"@ {
            RouteSpec::VersionInfo
        } else if path == "/healthz"@ {
            RouteSpec::Healthz
        } else if path == "/v1/greeting"@ {
            RouteSpec::ListGreetings
        } else if path == "/v1/envinfo"@ {
            RouteSpec::EnvInfo
        } else if path == "/v1/hostinfo"@ {
            RouteSpec::HostInfo
        } else if is_greeting_item(path) {
            RouteSpec::GetGreeting(path.skip(13))
        } else {
            RouteSpec::NoRoute
        }
    } else if method == "POST"@ {
        if path == "/v1/greeting/new"@ {
            RouteSpec::CreateGreeting
        } else {
            RouteSpec::NoRoute
        }
    } else if method == "PUT"@ {
        if is_greeting_item(path) {
            RouteSpec::UpdateGreeting(path.skip(13))
        } else {
            RouteSpec::NoRoute
        }
    } else {
        RouteSpec::NoRoute
    }
}

/// Whether an executable dispatch result stands for a spec-level one.
pub open spec fn route_matches(r: Route, s: RouteSpec) -> bool {
    match s {
        RouteSpec::Root => r is Root,
        RouteSpec::VersionInfo => r is VersionInfo,
        RouteSpec::Healthz => r is Healthz,
        RouteSpec::CreateGreeting => r is CreateGreeting,
        RouteSpec::ListGreetings => r is ListGreetings,
        RouteSpec::GetGreeting(seg) => r matches Route::GetGreeting(t) && t@ == seg,
        RouteSpec::UpdateGreeting(seg) => r matches Route::UpdateGreeting(t) && t@ == seg,
        RouteSpec::EnvInfo => r is EnvInfo,
        RouteSpec::HostInfo => r is HostInfo,
        RouteSpec::NoRoute => r is NoRoute,
    }
}

fn greeting_item_segment(path: &Vec<char>) -> (r: Option<String>)
    ensures
        match r {
            Some(seg) => is_greeting_item(path@) && seg@ == path@.skip(13),
            None => !is_greeting_item(path@),
        },
{
    let prefix = str_chars("/v1/greeting/");
    if path.len() <= 13 {
        return None;
    }
    let mut head: Vec<char> = Vec::new();
    let mut i: usize = 0;
    while i < 13
        invariant
            0 <= i <= 13,
            path@.len() > 13,
            head@ == path@.take(13).take(i as int),
        decreases 13 - i,
    {
        head.push(path[i]);
        proof {
            assert(head@ =~= path@.take(13).take(i + 1));
        }
        i = i + 1;
    }
    proof {
        assert(path@.take(13).take(13) =~= path@.take(13));
    }
    if !chars_eq(&head, &prefix) {
        return None;
    }
    let mut seg: Vec<char> = Vec::new();
    let mut j: usize = 13;
    while j < path.len()
        invariant
            13 <= j <= path@.len(),
            seg@ == path@.subrange(13, j as int),
            forall|k: int| 13 <= k < j ==> path@[k] != '/',
        decreases path@.len() - j,
    {
        if path[j] == '/' {
            return None;
        }
        seg.push(path[j]);
        proof {
            assert(seg@ =~= path@.subrange(13, j + 1));
        }
        j = j + 1;
    }
    proof {
        assert(seg@ =~= path@.skip(13));
    }
    Some(chars_to_string(&seg))
}

/// Dispatches a request: the executable routing table, following
/// `spec_route` exactly.
pub fn match_route(method: &str, path: &str) -> (r: Route)
    ensures
        route_matches(r, spec_route(method@, path@)),
{
    let m = str_chars(method);
    let p = str_chars(path);
    if chars_eq(&m, &str_chars("GET")) {
        if chars_eq(&p, &str_chars("/")) {
            Route::Root
        } else if chars_eq(&p, &str_chars("/version")) {
            Route::VersionInfo
        } else if chars_eq(&p, &str_chars("/healthz")) {
            Route::Healthz
        } else if chars_eq(&p, &str_chars("/v1/greeting")) {
            Route::ListGreetings
        } else if chars_eq(&p, &str_chars("/v1/envinfo")) {
            Route::EnvInfo
        } else if chars_eq(&p, &str_chars("/v1/hostinfo")) {
            Route::HostInfo
        } else {
            match greeting_item_segment(&p) {
                Some(seg) => Route::GetGreeting(seg),
                None => Route::NoRoute,
            }
        }
    } else if chars_eq(&m, &str_chars("POST")) {
        if chars_eq(&p, &str_chars("/v1/greeting/new")) {
            Route::CreateGreeting
        } else {
            Route::NoRoute
        }
    } else if chars_eq(&m, &str_chars("PUT")) {
        match greeting_item_segment(&p) {
            Some(seg) => Route::UpdateGreeting(seg),
            None => Route::NoRoute,
        }
    } else {
        Route::NoRoute
    }
}

/// Whether a character counts as the whitespace that is trimmed off the
/// hostname file's text.
pub open spec fn is_trim_char(c: char) -> bool {
    c == ' ' || c == '\t' || c == '\n' || c == '\r'
}

/// The text with leading trim characters removed.
pub open spec fn trim_start(s: Seq<char>) -> Seq<char>
    decreases s.len(),
{
    if s.len() > 0 && is_trim_char(s[0]) {
        trim_start(s.skip(1))
    } else {
        s
    }
}

/// The text with trailing trim characters removed.
pub open spec fn trim_end(s: Seq<char>) -> Seq<char>
    decreases s.len(),
{
    if s.len() > 0 && is_trim_char(s.last()) {
        trim_end(s.drop_last())
    } else {
        s
    }
}

/// The text with surrounding whitespace removed from both ends.
pub open spec fn spec_trim(s: Seq<char>) -> Seq<char> {
    trim_end(trim_start(s))
}

fn trim_from(v: &Vec<char>, a: usize) -> (r: usize)
    requires
        a <= v@.len(),
    ensures
        a <= r <= v@.len(),
        trim_start(v@.skip(a as int)) == v@.skip(r as int),
    decreases v@.len() - a,
{
    if a < v.len() {
        let c = v[a];
        if c == ' ' || c == '\t' || c == '\n' || c == '\r' {
            proof {
                assert(v@.skip(a as int).skip(1) =~= v@.skip(a + 1));
            }
            return trim_from(v, a + 1);
        }
    }
    a
}

fn trim_to(v: &Vec<char>, b: usize) -> (r: usize)
    requires
        b <= v@.len(),
    ensures
        r <= b,
        trim_end(v@.take(b as int)) == v@.take(r as int),
    decreases b,
{
    if b > 0 {
        let c = v[b - 1];
        if c == ' ' || c == '\t' || c == '\n' || c == '\r' {
            proof {
                assert(v@.take(b as int).drop_last() =~= v@.take(b - 1));
                assert(v@.take(b as int).last() == v@[b - 1]);
            }
            return trim_to(v, b - 1);
        }
    }
    b
}

/// The hostname as read from the hostname file: the file's text with spaces
/// and newlines trimmed from both ends.
pub fn trim_hostname(contents: &str) -> (h: String)
    ensures
        h@ == spec_trim(contents@),
{
    let v = str_chars(contents);
    let a = trim_from(&v, 0);
    let mut w: Vec<char> = Vec::new();
    let mut j: usize = a;
    while j < v.len()
        invariant
            a <= j <= v@.len(),
            w@ == v@.subrange(a as int, j as int),
        decreases v@.len() - j,
    {
        w.push(v[j]);
        proof {
            assert(w@ =~= v@.subrange(a as int, j + 1));
        }
        j = j + 1;
    }
    proof {
        assert(v@.skip(0) =~= v@);
        assert(w@ =~= v@.skip(a as int));
    }
    let b = trim_to(&w, w.len());
    let mut out: Vec<char> = Vec::new();
    let mut k: usize = 0;
    while k < b
        invariant
            0 <= k <= b <= w@.len(),
            out@ == w@.take(b as int).take(k as int),
        decreases b - k,
    {
        out.push(w[k]);
        proof {
            assert(out@ =~= w@.take(b as int).take(k + 1));
        }
        k = k + 1;
    }
    proof {
        assert(w@.take(b as int).take(b as int) =~= w@.take(b as int));
        assert(w@.take(w@.len() as int) =~= w@);
        assert(out@ == spec_trim(contents@));
    }
    chars_to_string(&out)
}

} // verus!
