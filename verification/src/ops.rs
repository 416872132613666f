//! Host interface: syscall identifiers, host errors, and the capability-gated
//! syscall surface shared between the VM and concrete hosts.

use vstd::prelude::*;
use vstd::string::StringExecFns;

use crate::model::{ApiModel, Document, DocumentModel};
use crate::sec::{denial_message, CapabilitySet, Syscall};
use crate::strutil::{dec_digits, push_char, str_eq, usize_to_string, width_of};
use crate::value::{Value, ValueModel};

verus! {

/// Identifier of a syscall as carried by a `Syscall` instruction.
#[derive(Clone, Copy, Debug, PartialEq, Eq, Structural, Hash)]
pub struct SyscallId(pub u32);

/// An error reported by a syscall host.
#[derive(Debug, PartialEq, Eq)]
pub struct HostError {
    message: String,
}

impl Clone for HostError {
    /// Cloning preserves the message.
    fn clone(&self) -> (r: HostError)
        ensures
            r.spec_message() == self.spec_message(),
    {
        HostError { message: self.message.clone() }
    }
}

impl HostError {
    /// The message, as a specification value.
    pub closed spec fn spec_message(&self) -> Seq<char> {
        self.message@
    }

    pub fn new(message: &str) -> (r: HostError)
        ensures
            r.spec_message() == message@,
    {
        HostError { message: String::from_str(message) }
    }

    pub fn new_owned(message: String) -> (r: HostError)
        ensures
            r.spec_message() == message@,
    {
        HostError { message }
    }

    pub fn message(&self) -> (r: &str)
        ensures
            r@ == self.spec_message(),
    {
        self.message.as_str()
    }
}

/// Host interface used by the VM to perform capability-gated side effects.
///
/// The VM remains deterministic: nondeterminism may only enter via this
/// interface, so nothing is assumed about what a host returns.
pub trait Host<V> {
    fn syscall(&mut self, id: SyscallId, args: &[V]) -> Result<Vec<V>, HostError>;
}

/// Minimal value conversions needed by syscall implementations.
pub trait OpValue: Clone {
    fn as_i64(&self) -> Option<i64>;

    fn as_str(&self) -> Option<&str>;
}

/// Whether host-performed events are written to the run log.
#[derive(Clone, Copy, Debug, PartialEq, Eq, Structural)]
pub enum RecordMode {
    Record,
    Passthrough,
}

impl Default for RecordMode {
    fn default() -> (r: RecordMode)
        ensures
            r == RecordMode::Record,
    {
        RecordMode::Record
    }
}

// ---------------------------------------------------------------------------
// Static route table
// ---------------------------------------------------------------------------
/// The static response a route serves.
#[derive(Debug, PartialEq)]
pub struct StaticResponse {
    pub status: u16,
    pub body: String,
}

pub struct StaticResponseModel {
    pub status: u16,
    pub body: Seq<char>,
}

impl View for StaticResponse {
    type V = StaticResponseModel;

    open spec fn view(&self) -> StaticResponseModel {
        StaticResponseModel { status: self.status, body: self.body@ }
    }
}

impl DeepView for StaticResponse {
    type V = StaticResponseModel;

    open spec fn deep_view(&self) -> StaticResponseModel {
        self.view()
    }
}

impl Clone for StaticResponse {
    /// Cloning preserves status and body.
    fn clone(&self) -> (r: StaticResponse)
        ensures
            r@ == self@,
    {
        StaticResponse { status: self.status, body: self.body.clone() }
    }
}

/// One exact-match route: method, path, and its static response.
#[derive(Debug, PartialEq)]
pub struct StaticRoute {
    pub method: String,
    pub path: String,
    pub response: StaticResponse,
}

pub struct StaticRouteModel {
    pub method: Seq<char>,
    pub path: Seq<char>,
    pub response: StaticResponseModel,
}

impl View for StaticRoute {
    type V = StaticRouteModel;

    open spec fn view(&self) -> StaticRouteModel {
        StaticRouteModel { method: self.method@, path: self.path@, response: self.response@ }
    }
}

impl DeepView for StaticRoute {
    type V = StaticRouteModel;

    open spec fn deep_view(&self) -> StaticRouteModel {
        self.view()
    }
}

/// The routes of one api that carry a response, in order.
pub open spec fn api_table(api: ApiModel, upto: int) -> Seq<StaticRouteModel>
    decreases upto,
{
    if upto <= 0 {
        Seq::empty()
    } else {
        api_table(api, upto - 1) + (match api.routes[upto - 1].response {
            Some(resp) => seq![
                StaticRouteModel {
                    method: api.routes[upto - 1].verb.value,
                    path: api.routes[upto - 1].path.value,
                    response: StaticResponseModel { status: resp.status.value, body: resp.body.value },
                },
            ],
            None => Seq::empty(),
        })
    }
}

/// The route table a document induces, api by api.
pub open spec fn document_table(apis: Seq<ApiModel>, upto: int) -> Seq<StaticRouteModel>
    decreases upto,
{
    if upto <= 0 {
        Seq::empty()
    } else {
        document_table(apis, upto - 1) + api_table(
            apis[upto - 1],
            apis[upto - 1].routes.len() as int,
        )
    }
}

/// Index of the first route matching method and path exactly, or the length.
pub open spec fn find_route(routes: Seq<StaticRouteModel>, method: Seq<char>, path: Seq<char>) -> int
    decreases routes.len(),
{
    if routes.len() == 0 {
        0
    } else if routes[0].method == method && routes[0].path == path {
        0
    } else {
        1 + find_route(routes.drop_first(), method, path)
    }
}

/// An exact-match table of static routes built from a validated document.
#[derive(Debug, PartialEq)]
pub struct RouteTable {
    routes: Vec<StaticRoute>,
}

impl View for RouteTable {
    type V = Seq<StaticRouteModel>;

    closed spec fn view(&self) -> Seq<StaticRouteModel> {
        Seq::new(self.routes@.len(), |i: int| self.routes@[i]@)
    }
}

proof fn lemma_find_route_bounds(routes: Seq<StaticRouteModel>, method: Seq<char>, path: Seq<char>)
    ensures
        0 <= find_route(routes, method, path) <= routes.len(),
        find_route(routes, method, path) < routes.len() ==> {
            let i = find_route(routes, method, path);
            routes[i].method == method && routes[i].path == path
        },
        forall|j: int|
            0 <= j < find_route(routes, method, path) ==> !((#[trigger] routes[j]).method == method
                && routes[j].path == path),
    decreases routes.len(),
{
    if routes.len() != 0 && !(routes[0].method == method && routes[0].path == path) {
        lemma_find_route_bounds(routes.drop_first(), method, path);
        assert forall|j: int|
            0 <= j < find_route(routes, method, path) implies !((#[trigger] routes[j]).method
            == method && routes[j].path == path) by {
            if j > 0 {
                assert(routes.drop_first()[j - 1] == routes[j]);
            }
        }
    }
}

impl RouteTable {
    /// Collects the routed responses of a document: every route that carries
    /// a `respond`, in document order.
    pub fn from_document(document: &Document) -> (r: RouteTable)
        ensures
            r@ == document_table(document@.apis, document@.apis.len() as int),
    {
        let mut routes: Vec<StaticRoute> = Vec::new();
        let mut a: usize = 0;
        proof {
            assert(routes.deep_view() =~= Seq::<StaticRouteModel>::empty());
        }
        while a < document.apis.len()
            invariant
                a <= document@.apis.len(),
                routes.deep_view() == document_table(document@.apis, a as int),
            decreases document@.apis.len() - a,
        {
            let ghost gpre = routes.deep_view();
            let mut rix: usize = 0;
            while rix < document.apis[a].routes.len()
                invariant
                    a < document@.apis.len(),
                    rix <= document@.apis[a as int].routes.len(),
                    routes.deep_view() == gpre + api_table(document@.apis[a as int], rix as int),
                decreases document@.apis[a as int].routes.len() - rix,
            {
                let ghost gr = routes.deep_view();
                let route = &document.apis[a].routes[rix];
                proof {
                    assert(document@.apis[a as int].routes[rix as int] == route@);
                }
                match &route.response {
                    Some(response) => {
                        let entry = StaticRoute {
                            method: route.verb.value.clone(),
                            path: route.path.value.clone(),
                            response: StaticResponse {
                                status: response.status.value,
                                body: response.body.value.clone(),
                            },
                        };
                        let ghost em = entry@;
                        routes.push(entry);
                        proof {
                            assert(routes.deep_view() =~= gr.push(em));
                            assert(routes.deep_view() =~= gpre + api_table(
                                document@.apis[a as int],
                                rix + 1,
                            ));
                        }
                    },
                    None => {
                        proof {
                            assert(api_table(document@.apis[a as int], rix + 1) =~= api_table(
                                document@.apis[a as int],
                                rix as int,
                            ));
                        }
                    },
                }
                rix = rix + 1;
            }
            proof {
                assert(routes.deep_view() =~= document_table(document@.apis, a + 1));
            }
            a = a + 1;
        }
        let r = RouteTable { routes };
        proof {
            assert(r@ =~= r.routes.deep_view());
        }
        r
    }

    /// Finds the first route matching `(method, path)` exactly.
    pub fn match_route(&self, method: &str, path: &str) -> (r: Option<&StaticRoute>)
        ensures
            find_route(self@, method@, path@) < self@.len() ==> (r matches Some(route) && route@
                == self@[find_route(self@, method@, path@)]),
            find_route(self@, method@, path@) >= self@.len() ==> r is None,
    {
        proof {
            lemma_find_route_bounds(self@, method@, path@);
        }
        let mut i: usize = 0;
        while i < self.routes.len()
            invariant
                i <= self@.len(),
                self@.len() == self.routes@.len(),
                forall|j: int|
                    0 <= j < i ==> !((#[trigger] self@[j]).method == method@ && self@[j].path
                        == path@),
            decreases self@.len() - i,
        {
            let route = &self.routes[i];
            if str_eq(route.method.as_str(), method) && str_eq(route.path.as_str(), path) {
                proof {
                    lemma_find_route_bounds(self@, method@, path@);
                    let f = find_route(self@, method@, path@);
                    if f < i {
                        assert(!(self@[f].method == method@ && self@[f].path == path@));
                    }
                    assert(self@[i as int].method == method@ && self@[i as int].path == path@);
                }
                return Some(route);
            }
            i = i + 1;
        }
        proof {
            lemma_find_route_bounds(self@, method@, path@);
            let f = find_route(self@, method@, path@);
            if f < self@.len() {
                assert(!(self@[f].method == method@ && self@[f].path == path@));
            }
        }
        None
    }
}

/// The response served for a request: the matching route's response, or the
/// fallback `404 Not Found`.
pub open spec fn route_response_spec(
    routes: Seq<StaticRouteModel>,
    method: Seq<char>,
    path: Seq<char>,
) -> StaticResponseModel {
    let f = find_route(routes, method, path);
    if f < routes.len() {
        routes[f].response
    } else {
        StaticResponseModel { status: 404, body: "Not Found"@ }
    }
}

/// Chooses the response for a request, falling back to `404 Not Found`.
pub fn route_response(table: &RouteTable, method: &str, path: &str) -> (r: StaticResponse)
    ensures
        r@ == route_response_spec(table@, method@, path@),
{
    proof {
        lemma_find_route_bounds(table@, method@, path@);
    }
    match table.match_route(method, path) {
        Some(route) => route.response.clone(),
        None => StaticResponse { status: 404, body: String::from_str("Not Found") },
    }
}

// ---------------------------------------------------------------------------
// Run-event encoding
// ---------------------------------------------------------------------------
/// A lowercase hexadecimal digit.
pub open spec fn hex_digit(d: nat) -> char {
    if d < 10 {
        ((d + 0x30) as u8) as char
    } else {
        ((d - 10 + 0x61) as u8) as char
    }
}

/// The JSON encoding of one character inside a string literal.
pub open spec fn json_escape_char(c: char) -> Seq<char> {
    if c == '"' {
        seq!['\\', '"']
    } else if c == '\\' {
        seq!['\\', '\\']
    } else if c == '\n' {
        seq!['\\', 'n']
    } else if c == '\r' {
        seq!['\\', 'r']
    } else if c == '\t' {
        seq!['\\', 't']
    } else if (c as u32) < 0x20 {
        seq!['\\', 'u', '0', '0', hex_digit(((c as u32) / 16) as nat), hex_digit(((c as u32) % 16) as nat)]
    } else {
        seq![c]
    }
}

/// The JSON-escaped body of a string.
pub open spec fn json_escaped(s: Seq<char>) -> Seq<char>
    decreases s.len(),
{
    if s.len() == 0 {
        Seq::empty()
    } else {
        json_escaped(s.drop_last()) + json_escape_char(s.last())
    }
}

/// A JSON string literal: quotes around the escaped body.
pub open spec fn json_string_spec(s: Seq<char>) -> Seq<char> {
    seq!['"'] + json_escaped(s) + seq!['"']
}

fn hex_digit_exec(d: u32) -> (c: char)
    requires
        d < 16,
    ensures
        c == hex_digit(d as nat),
{
    if d < 10 {
        ((d + 0x30) as u8) as char
    } else {
        ((d - 10 + 0x61) as u8) as char
    }
}

/// Encodes a string as a one-line JSON string literal: `"` and `\` and all
/// control bytes are escaped, with short forms for newline, carriage return
/// and tab.
pub fn json_string(value: &str) -> (r: String)
    ensures
        r@ == json_string_spec(value@),
{
    let chars = crate::strutil::chars_of(value);
    let n = chars.len();
    let mut out = String::new();
    push_char(&mut out, '"');
    proof {
        assert(chars@.take(0) =~= Seq::<char>::empty());
        assert(out@ =~= seq!['"'] + json_escaped(chars@.take(0)));
    }
    let mut i: usize = 0;
    while i < n
        invariant
            i <= n,
            n == chars@.len(),
            chars@ == value@,
            out@ == seq!['"'] + json_escaped(chars@.take(i as int)),
        decreases n - i,
    {
        let ghost pre = out@;
        let c = chars[i];
        let u = c as u32;
        if c == '"' {
            push_char(&mut out, '\\');
            push_char(&mut out, '"');
        } else if c == '\\' {
            push_char(&mut out, '\\');
            push_char(&mut out, '\\');
        } else if c == '\n' {
            push_char(&mut out, '\\');
            push_char(&mut out, 'n');
        } else if c == '\r' {
            push_char(&mut out, '\\');
            push_char(&mut out, 'r');
        } else if c == '\t' {
            push_char(&mut out, '\\');
            push_char(&mut out, 't');
        } else if u < 0x20 {
            push_char(&mut out, '\\');
            push_char(&mut out, 'u');
            push_char(&mut out, '0');
            push_char(&mut out, '0');
            push_char(&mut out, hex_digit_exec(u / 16));
            push_char(&mut out, hex_digit_exec(u % 16));
        } else {
            push_char(&mut out, c);
        }
        proof {
            assert(chars@.take(i + 1).drop_last() =~= chars@.take(i as int));
            assert(chars@.take(i + 1).last() == chars@[i as int]);
            assert(out@ =~= pre + json_escape_char(chars@[i as int]));
            assert(out@ =~= seq!['"'] + json_escaped(chars@.take(i + 1)));
        }
        i = i + 1;
    }
    push_char(&mut out, '"');
    proof {
        assert(chars@.take(n as int) =~= chars@);
        assert(out@ =~= json_string_spec(value@));
    }
    out
}

/// A structured event written to a run's log, one JSON object per line.
#[derive(Debug, PartialEq)]
pub enum RunEvent {
    Log { message: String },
    HttpServerStart { addr: String },
    HttpRequest { method: String, path: String },
    HttpResponse { status: u16 },
}

pub enum RunEventModel {
    Log { message: Seq<char> },
    HttpServerStart { addr: Seq<char> },
    HttpRequest { method: Seq<char>, path: Seq<char> },
    HttpResponse { status: u16 },
}

impl View for RunEvent {
    type V = RunEventModel;

    open spec fn view(&self) -> RunEventModel {
        match self {
            RunEvent::Log { message } => RunEventModel::Log { message: message@ },
            RunEvent::HttpServerStart { addr } => RunEventModel::HttpServerStart { addr: addr@ },
            RunEvent::HttpRequest { method, path } => RunEventModel::HttpRequest {
                method: method@,
                path: path@,
            },
            RunEvent::HttpResponse { status } => RunEventModel::HttpResponse { status: *status },
        }
    }
}

/// The canonical one-line JSON form of an event.
pub open spec fn event_json(e: RunEventModel) -> Seq<char> {
    match e {
        RunEventModel::Log { message } => "{\"type\":\"log\",\"message\":"@ + json_string_spec(
            message,
        ) + "}"@,
        RunEventModel::HttpServerStart { addr } => "{\"type\":\"http.server_start\",\"addr\":"@
            + json_string_spec(addr) + "}"@,
        RunEventModel::HttpRequest { method, path } => "{\"type\":\"http.request\",\"method\":"@
            + json_string_spec(method) + ",\"path\":"@ + json_string_spec(path) + "}"@,
        RunEventModel::HttpResponse { status } => "{\"type\":\"http.response\",\"status\":"@
            + dec_digits(status as nat) + "}"@,
    }
}

impl RunEvent {
    /// Renders the event as exactly one JSON object on one line.
    pub fn to_json_line(&self) -> (r: String)
        ensures
            r@ == event_json(self@),
    {
        match self {
            RunEvent::Log { message } => {
                let mut s = String::from_str("{\"type\":\"log\",\"message\":");
                let j = json_string(message.as_str());
                s.append(j.as_str());
                s.append("}");
                proof {
                    assert(s@ =~= event_json(self@));
                }
                s
            },
            RunEvent::HttpServerStart { addr } => {
                let mut s = String::from_str("{\"type\":\"http.server_start\",\"addr\":");
                let j = json_string(addr.as_str());
                s.append(j.as_str());
                s.append("}");
                proof {
                    assert(s@ =~= event_json(self@));
                }
                s
            },
            RunEvent::HttpRequest { method, path } => {
                let mut s = String::from_str("{\"type\":\"http.request\",\"method\":");
                let jm = json_string(method.as_str());
                s.append(jm.as_str());
                s.append(",\"path\":");
                let jp = json_string(path.as_str());
                s.append(jp.as_str());
                s.append("}");
                proof {
                    assert(s@ =~= event_json(self@));
                }
                s
            },
            RunEvent::HttpResponse { status } => {
                let mut s = String::from_str("{\"type\":\"http.response\",\"status\":");
                let d = usize_to_string(*status as usize);
                s.append(d.as_str());
                s.append("}");
                proof {
                    assert(s@ =~= event_json(self@));
                }
                s
            },
        }
    }
}

// ---------------------------------------------------------------------------
// HTTP response text
// ---------------------------------------------------------------------------
/// The reason phrase written after a status code.
pub open spec fn reason_phrase_spec(status: u16) -> Seq<char> {
    if status == 200 {
        "OK"@
    } else if status == 400 {
        "Bad Request"@
    } else if status == 404 {
        "Not Found"@
    } else if status == 500 {
        "Internal Server Error"@
    } else {
        "OK"@
    }
}

pub fn reason_phrase(status: u16) -> (r: &'static str)
    ensures
        r@ == reason_phrase_spec(status),
{
    if status == 200 {
        "OK"
    } else if status == 400 {
        "Bad Request"
    } else if status == 404 {
        "Not Found"
    } else if status == 500 {
        "Internal Server Error"
    } else {
        "OK"
    }
}

/// The full HTTP/1.1 response text for a static body: status line with
/// reason phrase, plain-text content type, exact UTF-8 byte length,
/// connection close, then the body.
pub open spec fn http_response_text_spec(status: u16, body: Seq<char>) -> Seq<char> {
    "HTTP/1.1 "@ + dec_digits(status as nat) + " "@ + reason_phrase_spec(status)
        + "\r\nContent-Type: text/plain; charset=utf-8\r\nContent-Length: "@ + dec_digits(
        width_of(body) as nat,
    ) + "\r\nConnection: close\r\n\r\n"@ + body
}

/// Renders the complete response for a status and body.
pub fn http_response_text(status: u16, body: &str) -> (r: String)
    requires
        body@.len() < 0x1000_0000,
    ensures
        r@ == http_response_text_spec(status, body@),
{
    let chars = crate::strutil::chars_of(body);
    let w = crate::strutil::prefix_widths(&chars);
    proof {
        assert(chars@.take(chars@.len() as int) =~= chars@);
        crate::strutil::lemma_width_of_bounds(chars@);
    }
    let byte_len = w[chars.len()];
    let mut s = String::from_str("HTTP/1.1 ");
    let d = usize_to_string(status as usize);
    s.append(d.as_str());
    s.append(" ");
    s.append(reason_phrase(status));
    s.append("\r\nContent-Type: text/plain; charset=utf-8\r\nContent-Length: ");
    let len = usize_to_string(byte_len);
    s.append(len.as_str());
    s.append("\r\nConnection: close\r\n\r\n");
    s.append(body);
    proof {
        assert(s@ =~= http_response_text_spec(status, body@));
    }
    s
}

// ---------------------------------------------------------------------------
// Syscall planning
// ---------------------------------------------------------------------------
/// What a syscall asks the host to do, once its arguments and the
/// capability set have been checked.
#[derive(Debug, PartialEq)]
pub enum SyscallPlan {
    /// Write the message and a newline to stdout and record a log event.
    LogEmit { message: String },
    /// Serve HTTP requests: forever, or exactly this many.
    HttpServe { max_requests: Option<u64> },
}

pub enum SyscallPlanModel {
    LogEmit { message: Seq<char> },
    HttpServe { max_requests: Option<u64> },
}

impl View for SyscallPlan {
    type V = SyscallPlanModel;

    open spec fn view(&self) -> SyscallPlanModel {
        match self {
            SyscallPlan::LogEmit { message } => SyscallPlanModel::LogEmit { message: message@ },
            SyscallPlan::HttpServe { max_requests } => SyscallPlanModel::HttpServe {
                max_requests: *max_requests,
            },
        }
    }
}

/// What planning a syscall yields, as a function of the capability set, the
/// syscall id, the argument values, and whether an HTTP listener is
/// configured. This is the host's whole decision logic; performing the
/// planned effect is the caller's part.
pub open spec fn plan_syscall_spec(
    caps: CapabilitySet,
    id: SyscallId,
    args: Seq<ValueModel>,
    http_configured: bool,
) -> Result<SyscallPlanModel, Seq<char>> {
    if id.0 == 1 {
        if !caps.spec_contains(crate::sec::Capability::Log) {
            Err(denial_message(Syscall::LogEmit))
        } else if args.len() == 1 && args[0] is Str {
            Ok(SyscallPlanModel::LogEmit { message: args[0]->Str_0 })
        } else {
            Err("log.emit expects 1 string argument"@)
        }
    } else if id.0 == 2 {
        if !caps.spec_contains(crate::sec::Capability::NetHttpListen) {
            Err(denial_message(Syscall::NetHttpListen))
        } else if args.len() == 0 {
            if http_configured {
                Ok(SyscallPlanModel::HttpServe { max_requests: None })
            } else {
                Err("net.http.serve requires an HTTP listener to be configured"@)
            }
        } else if args.len() == 1 {
            match args[0] {
                ValueModel::I64(v) => if v < 0 {
                    Err("net.http.serve expects max_requests to be a non-negative integer"@)
                } else if http_configured {
                    Ok(SyscallPlanModel::HttpServe { max_requests: Some(v as u64) })
                } else {
                    Err("net.http.serve requires an HTTP listener to be configured"@)
                },
                _ => Err("net.http.serve expects 0 or 1 integer argument (max_requests)"@),
            }
        } else {
            Err("net.http.serve expects 0 or 1 argument (max_requests)"@)
        }
    } else {
        Err("unknown syscall id: "@ + dec_digits(id.0 as nat))
    }
}

/// Plans a syscall: enforces the required capability, checks the argument
/// shape, and names the effect to perform; every error message is exact.
pub fn plan_syscall(
    caps: &CapabilitySet,
    id: SyscallId,
    args: &Vec<Value>,
    http_configured: bool,
) -> (r: Result<SyscallPlan, HostError>)
    ensures
        match plan_syscall_spec(*caps, id, args.deep_view(), http_configured) {
            Ok(plan) => r matches Ok(p) && p@ == plan,
            Err(msg) => r matches Err(e) && e.spec_message() == msg,
        },
{
    if id.0 == 1 {
        match caps.enforce(Syscall::LogEmit) {
            Err(denied) => {
                return Err(HostError::new_owned(denied.display_string()));
            },
            Ok(()) => {},
        }
        if args.len() == 1 {
            match &args[0] {
                Value::Str(message) => {
                    proof {
                        assert(args.deep_view()[0] == args@[0]@);
                    }
                    return Ok(SyscallPlan::LogEmit { message: message.clone() });
                },
                _ => {
                    proof {
                        assert(args.deep_view()[0] == args@[0]@);
                    }
                    return Err(HostError::new("log.emit expects 1 string argument"));
                },
            }
        }
        Err(HostError::new("log.emit expects 1 string argument"))
    } else if id.0 == 2 {
        match caps.enforce(Syscall::NetHttpListen) {
            Err(denied) => {
                return Err(HostError::new_owned(denied.display_string()));
            },
            Ok(()) => {},
        }
        if args.len() == 0 {
            if http_configured {
                Ok(SyscallPlan::HttpServe { max_requests: None })
            } else {
                Err(HostError::new("net.http.serve requires an HTTP listener to be configured"))
            }
        } else if args.len() == 1 {
            match &args[0] {
                Value::I64(v) => {
                    proof {
                        assert(args.deep_view()[0] == args@[0]@);
                    }
                    let v = *v;
                    if v < 0 {
                        Err(
                            HostError::new(
                                "net.http.serve expects max_requests to be a non-negative integer",
                            ),
                        )
                    } else if http_configured {
                        Ok(SyscallPlan::HttpServe { max_requests: Some(v as u64) })
                    } else {
                        Err(
                            HostError::new(
                                "net.http.serve requires an HTTP listener to be configured",
                            ),
                        )
                    }
                },
                _ => {
                    proof {
                        assert(args.deep_view()[0] == args@[0]@);
                    }
                    Err(HostError::new("net.http.serve expects 0 or 1 integer argument (max_requests)"))
                },
            }
        } else {
            Err(HostError::new("net.http.serve expects 0 or 1 argument (max_requests)"))
        }
    } else {
        let mut m = String::from_str("unknown syscall id: ");
        let d = usize_to_string(id.0 as usize);
        m.append(d.as_str());
        proof {
            assert(m@ =~= "unknown syscall id: "@ + dec_digits(id.0 as nat));
        }
        Err(HostError::new_owned(m))
    }
}

// ---------------------------------------------------------------------------
// Request line
// ---------------------------------------------------------------------------
/// How a raw request line is read: line-ending characters are stripped from
/// the end, then the first two whitespace-delimited tokens are the method
/// and the path; both must be present.
pub open spec fn parse_request_line_spec(line: Seq<char>) -> Option<(Seq<char>, Seq<char>)> {
    let trimmed = strip_line_ending(line);
    let m0 = crate::parser::first_non_ws(trimmed, 0);
    let m1 = crate::parser::first_ws(trimmed, m0);
    let p0 = crate::parser::first_non_ws(trimmed, m1);
    let p1 = crate::parser::first_ws(trimmed, p0);
    if m0 < trimmed.len() && p0 < trimmed.len() {
        Some((trimmed.subrange(m0, m1), trimmed.subrange(p0, p1)))
    } else {
        None
    }
}

/// Strips every trailing carriage return and newline.
pub open spec fn strip_line_ending(s: Seq<char>) -> Seq<char>
    decreases s.len(),
{
    if s.len() > 0 && (s.last() == '\r' || s.last() == '\n') {
        strip_line_ending(s.drop_last())
    } else {
        s
    }
}

/// Splits a request line into its method and path; `None` when either is
/// missing.
pub fn parse_request_line(line: &str) -> (r: Option<(String, String)>)
    ensures
        match parse_request_line_spec(line@) {
            Some(mp) => r matches Some(p) && p.0@ == mp.0 && p.1@ == mp.1,
            None => r is None,
        },
{
    let chars = crate::strutil::chars_of(line);
    let mut end = chars.len();
    proof {
        assert(chars@.take(chars@.len() as int) =~= chars@);
    }
    while end > 0 && (chars[end - 1] == '\r' || chars[end - 1] == '\n')
        invariant
            end <= chars@.len(),
            strip_line_ending(chars@) == strip_line_ending(chars@.take(end as int)),
        decreases end,
    {
        proof {
            assert(chars@.take(end as int).drop_last() =~= chars@.take(end - 1));
            assert(chars@.take(end as int).last() == chars@[end - 1]);
        }
        end = end - 1;
    }
    proof {
        assert(chars@.take(chars@.len() as int) =~= chars@);
        if end > 0 {
            assert(chars@.take(end as int).last() == chars@[end - 1]);
        }
        assert(strip_line_ending(chars@.take(end as int)) == chars@.take(end as int));
    }
    let ghost trimmed = strip_line_ending(chars@);
    proof {
        assert(trimmed == chars@.take(end as int));
    }
    let m0 = crate::parser::scan_non_ws(&chars, 0, end);
    let m1 = crate::parser::scan_ws(&chars, m0, end);
    let p0 = crate::parser::scan_non_ws(&chars, m1, end);
    let p1 = crate::parser::scan_ws(&chars, p0, end);
    if m0 < end && p0 < end {
        let method_chars = crate::parser::subvec(&chars, m0, m1);
        let path_chars = crate::parser::subvec(&chars, p0, p1);
        proof {
            assert(chars@.take(end as int).subrange(m0 as int, m1 as int) =~= chars@.subrange(
                m0 as int,
                m1 as int,
            ));
            assert(chars@.take(end as int).subrange(p0 as int, p1 as int) =~= chars@.subrange(
                p0 as int,
                p1 as int,
            ));
        }
        Some(
            (
                crate::strutil::string_from_chars(&method_chars),
                crate::strutil::string_from_chars(&path_chars),
            ),
        )
    } else {
        None
    }
}

} // verus!
