//! Post-parse validation: collects every diagnostic (fail-slow), in a stable
//! order specified by `validate_spec`.

use vstd::prelude::*;

use crate::diagnostics::{Diagnostic, DiagnosticModel, LoadError, Span};
use crate::model::{ApiModel, Document, DocumentModel, Route, RouteModel, SpannedModel};
use crate::parser::{diag_str, mk_diag, mk_span, path_route, path_routes, spec_path_route, spec_path_routes};
use crate::sec::is_known_capability;
use crate::strutil::{chars_of, dec_digits, is_ws, is_ws_char, str_eq, usize_to_string};
use vstd::string::StringExecFns;

verus! {

/// The span used when the offending node is absent: the first node present,
/// in a fixed priority order, else line one.
pub open spec fn fallback_span_spec(doc: DocumentModel) -> Span {
    match doc.version {
        Some(v) => v.span,
        None => match doc.metadata.app {
            Some(a) => a.span,
            None => match doc.metadata.project {
                Some(p) => p.span,
                None => match doc.server {
                    Some(s) => s.span,
                    None => if doc.apis.len() > 0 {
                        doc.apis[0].span
                    } else {
                        mk_span(1, 1, 1)
                    },
                },
            },
        },
    }
}

/// Diagnostics for the version directive.
pub open spec fn version_diags(doc: DocumentModel) -> Seq<DiagnosticModel> {
    match doc.version {
        Some(v) => if v.value == "0.1"@ {
            Seq::empty()
        } else {
            seq![
                mk_diag(
                    "version"@,
                    v.span,
                    "unsupported dot version `"@ + v.value + "`; expected `0.1`"@,
                ),
            ]
        },
        None => seq![
            mk_diag(
                "version"@,
                fallback_span_spec(doc),
                "missing required `dot` version directive"@,
            ),
        ],
    }
}

/// Diagnostics for the required metadata.
pub open spec fn metadata_diags(doc: DocumentModel) -> Seq<DiagnosticModel> {
    if doc.metadata.app is None && doc.metadata.project is None {
        seq![
            mk_diag(
                "metadata"@,
                fallback_span_spec(doc),
                "missing required metadata; expected `app` or `project`"@,
            ),
        ]
    } else {
        Seq::empty()
    }
}

/// Diagnostics for the first `upto` declared capabilities.
pub open spec fn caps_diags(caps: Seq<SpannedModel<Seq<char>>>, upto: int) -> Seq<DiagnosticModel>
    decreases upto,
{
    if upto <= 0 {
        Seq::empty()
    } else {
        caps_diags(caps, upto - 1) + (if is_known_capability(caps[upto - 1].value) {
            Seq::empty()
        } else {
            seq![
                mk_diag(
                    "capabilities["@ + dec_digits((upto - 1) as nat) + "]"@,
                    caps[upto - 1].span,
                    "unknown capability `"@ + caps[upto - 1].value + "`"@,
                ),
            ]
        })
    }
}

/// Whether `net.http.listen` appears among the declared capabilities.
pub open spec fn has_listen_capability(caps: Seq<SpannedModel<Seq<char>>>) -> bool {
    exists|j: int| 0 <= j < caps.len() && (#[trigger] caps[j]).value == "net.http.listen"@
}

/// Diagnostics for the server block.
pub open spec fn server_diags(doc: DocumentModel) -> Seq<DiagnosticModel> {
    match doc.server {
        None => Seq::empty(),
        Some(s) => (if !has_listen_capability(doc.capabilities) {
            seq![
                mk_diag(
                    "capabilities"@,
                    s.span,
                    "missing required capability `net.http.listen` for `server listen`"@,
                ),
            ]
        } else {
            Seq::empty()
        }) + (if s.port.value == 0 {
            seq![
                mk_diag(
                    "server.port"@,
                    s.port.span,
                    "server port must be in range 1..=65535"@,
                ),
            ]
        } else {
            Seq::empty()
        }),
    }
}

/// The HTTP verbs a route may use.
pub open spec fn is_allowed_verb(v: Seq<char>) -> bool {
    v == "GET"@ || v == "POST"@ || v == "PUT"@ || v == "PATCH"@ || v == "DELETE"@
}

/// The route path contains whitespace somewhere.
pub open spec fn path_has_ws(p: Seq<char>) -> bool {
    exists|i: int| 0 <= i < p.len() && is_ws(#[trigger] p[i])
}

/// Diagnostics for one route.
pub open spec fn route_diags(route: RouteModel, a: int, rix: int) -> Seq<DiagnosticModel> {
    (if !is_allowed_verb(route.verb.value) {
        seq![
            mk_diag(
                spec_path_route(a, rix) + ".verb"@,
                route.verb.span,
                "unknown HTTP verb `"@ + route.verb.value + "`"@,
            ),
        ]
    } else {
        Seq::empty()
    }) + (if !(route.path.value.len() > 0 && route.path.value[0] == '/') {
        seq![
            mk_diag(
                spec_path_route(a, rix) + ".path"@,
                route.path.span,
                "route path must start with `/`"@,
            ),
        ]
    } else {
        Seq::empty()
    }) + (if path_has_ws(route.path.value) {
        seq![
            mk_diag(
                spec_path_route(a, rix) + ".path"@,
                route.path.span,
                "route path cannot contain whitespace"@,
            ),
        ]
    } else {
        Seq::empty()
    }) + (match route.response {
        Some(resp) => if !(100 <= resp.status.value <= 599) {
            seq![
                mk_diag(
                    spec_path_route(a, rix) + ".response.status"@,
                    resp.status.span,
                    "response status must be in range 100..=599"@,
                ),
            ]
        } else {
            Seq::empty()
        },
        None => seq![
            mk_diag(
                spec_path_route(a, rix) + ".response"@,
                route.span,
                "missing required `respond` statement"@,
            ),
        ],
    })
}

/// Diagnostics for the first `upto` routes of api `a`.
pub open spec fn routes_diags(routes: Seq<RouteModel>, a: int, upto: int) -> Seq<DiagnosticModel>
    decreases upto,
{
    if upto <= 0 {
        Seq::empty()
    } else {
        routes_diags(routes, a, upto - 1) + route_diags(routes[upto - 1], a, upto - 1)
    }
}

/// Diagnostics for one api.
pub open spec fn api_diags(api: ApiModel, a: int) -> Seq<DiagnosticModel> {
    (if api.routes.len() == 0 {
        seq![
            mk_diag(spec_path_routes(a), api.span, "api must contain at least one route"@),
        ]
    } else {
        Seq::empty()
    }) + routes_diags(api.routes, a, api.routes.len() as int)
}

/// Diagnostics for the first `upto` apis.
pub open spec fn apis_diags(apis: Seq<ApiModel>, upto: int) -> Seq<DiagnosticModel>
    decreases upto,
{
    if upto <= 0 {
        Seq::empty()
    } else {
        apis_diags(apis, upto - 1) + api_diags(apis[upto - 1], upto - 1)
    }
}

/// Every diagnostic the validator reports for a document, in order.
pub open spec fn validate_spec(doc: DocumentModel) -> Seq<DiagnosticModel> {
    version_diags(doc) + metadata_diags(doc) + caps_diags(
        doc.capabilities,
        doc.capabilities.len() as int,
    ) + server_diags(doc) + (if doc.apis.len() == 0 {
        seq![
            mk_diag("apis"@, fallback_span_spec(doc), "at least one `api` block is required"@),
        ]
    } else {
        Seq::empty()
    }) + apis_diags(doc.apis, doc.apis.len() as int)
}

/// What a document that passes validation is guaranteed to look like.
pub open spec fn document_valid(doc: DocumentModel) -> bool {
    &&& doc.version matches Some(v) && v.value == "0.1"@
    &&& doc.metadata.app is Some || doc.metadata.project is Some
    &&& forall|i: int|
        0 <= i < doc.capabilities.len() ==> is_known_capability(
            (#[trigger] doc.capabilities[i]).value,
        )
    &&& doc.server matches Some(s) ==> has_listen_capability(doc.capabilities) && s.port.value >= 1
    &&& doc.apis.len() >= 1
    &&& forall|a: int|
        0 <= a < doc.apis.len() ==> (#[trigger] doc.apis[a]).routes.len() >= 1
    &&& forall|a: int, r: int|
        0 <= a < doc.apis.len() && 0 <= r < doc.apis[a].routes.len() ==> route_valid(
            #[trigger] doc.apis[a].routes[r],
        )
}

/// What every route of a validated document is guaranteed to look like.
pub open spec fn route_valid(route: RouteModel) -> bool {
    &&& is_allowed_verb(route.verb.value)
    &&& route.path.value.len() > 0 && route.path.value[0] == '/'
    &&& !path_has_ws(route.path.value)
    &&& route.response matches Some(resp) && 100 <= resp.status.value <= 599
}

proof fn lemma_caps_diags_empty(caps: Seq<SpannedModel<Seq<char>>>, upto: int)
    requires
        caps_diags(caps, upto).len() == 0,
    ensures
        forall|j: int| 0 <= j < upto ==> is_known_capability((#[trigger] caps[j]).value),
    decreases upto,
{
    if upto > 0 {
        lemma_caps_diags_empty(caps, upto - 1);
    }
}

proof fn lemma_routes_diags_empty(routes: Seq<RouteModel>, a: int, upto: int)
    requires
        routes_diags(routes, a, upto).len() == 0,
    ensures
        forall|r: int| 0 <= r < upto ==> route_valid(#[trigger] routes[r]),
    decreases upto,
{
    if upto > 0 {
        lemma_routes_diags_empty(routes, a, upto - 1);
    }
}

proof fn lemma_apis_diags_empty(apis: Seq<ApiModel>, upto: int)
    requires
        apis_diags(apis, upto).len() == 0,
    ensures
        forall|a: int| 0 <= a < upto ==> (#[trigger] apis[a]).routes.len() >= 1,
        forall|a: int, r: int|
            0 <= a < upto && 0 <= r < apis[a].routes.len() ==> route_valid(
                #[trigger] apis[a].routes[r],
            ),
    decreases upto,
{
    if upto > 0 {
        lemma_apis_diags_empty(apis, upto - 1);
        lemma_routes_diags_empty(
            apis[upto - 1].routes,
            upto - 1,
            apis[upto - 1].routes.len() as int,
        );
    }
}

/// A document that produces no diagnostics satisfies every documented
/// invariant: supported version, some metadata, only known capabilities, a
/// capability-backed server with a non-zero port, at least one api, each
/// with at least one route, every route well-formed with an in-range
/// response.
pub proof fn lemma_validated_document_well_formed(doc: DocumentModel)
    requires
        validate_spec(doc).len() == 0,
    ensures
        document_valid(doc),
{
    lemma_caps_diags_empty(doc.capabilities, doc.capabilities.len() as int);
    lemma_apis_diags_empty(doc.apis, doc.apis.len() as int);
}

/// The span used for diagnostics whose node is absent.
fn fallback_span(document: &Document) -> (s: Span)
    ensures
        s == fallback_span_spec(document@),
{
    match &document.version {
        Some(v) => v.span,
        None => match &document.metadata.app {
            Some(a) => a.span,
            None => match &document.metadata.project {
                Some(p) => p.span,
                None => match &document.server {
                    Some(s) => s.span,
                    None => if document.apis.len() > 0 {
                        document.apis[0].span
                    } else {
                        Span::new(1, 1, 1)
                    },
                },
            },
        },
    }
}

/// Validates one route, appending its diagnostics.
fn validate_route(
    route: &Route,
    api_index: usize,
    route_index: usize,
    diagnostics: &mut Vec<Diagnostic>,
)
    ensures
        final(diagnostics).deep_view() == old(diagnostics).deep_view() + route_diags(
            route@,
            api_index as int,
            route_index as int,
        ),
{
    let ghost g0 = diagnostics.deep_view();
    let verb_ok = str_eq(route.verb.value.as_str(), "GET") || str_eq(
        route.verb.value.as_str(),
        "POST",
    ) || str_eq(route.verb.value.as_str(), "PUT") || str_eq(route.verb.value.as_str(), "PATCH")
        || str_eq(route.verb.value.as_str(), "DELETE");
    if !verb_ok {
        let mut p = path_route(api_index, route_index);
        p.append(".verb");
        let mut m = String::from_str("unknown HTTP verb `");
        m.append(route.verb.value.as_str());
        m.append("`");
        proof {
            assert(p@ =~= spec_path_route(api_index as int, route_index as int) + ".verb"@);
            assert(m@ =~= "unknown HTTP verb `"@ + route@.verb.value + "`"@);
        }
        diagnostics.push(Diagnostic::new(p, route.verb.span, m));
    }
    let ghost g1 = diagnostics.deep_view();
    let path_chars = chars_of(route.path.value.as_str());
    let starts_slash = path_chars.len() > 0 && path_chars[0] == '/';
    if !starts_slash {
        let mut p = path_route(api_index, route_index);
        p.append(".path");
        proof {
            assert(p@ =~= spec_path_route(api_index as int, route_index as int) + ".path"@);
        }
        diagnostics.push(
            diag_owned_local(p, route.path.span, "route path must start with `/`"),
        );
    }
    let ghost g2 = diagnostics.deep_view();
    let mut has_ws = false;
    let mut i: usize = 0;
    while i < path_chars.len()
        invariant
            i <= path_chars@.len(),
            path_chars@ == route@.path.value,
            has_ws == exists|j: int|
                0 <= j < i && is_ws(#[trigger] path_chars@[j]),
        decreases path_chars@.len() - i,
    {
        if is_ws_char(path_chars[i]) {
            has_ws = true;
        }
        i = i + 1;
    }
    if has_ws {
        let mut p = path_route(api_index, route_index);
        p.append(".path");
        proof {
            assert(p@ =~= spec_path_route(api_index as int, route_index as int) + ".path"@);
        }
        diagnostics.push(
            diag_owned_local(p, route.path.span, "route path cannot contain whitespace"),
        );
    }
    let ghost g3 = diagnostics.deep_view();
    match &route.response {
        Some(response) => {
            if response.status.value < 100 || response.status.value > 599 {
                let mut p = path_route(api_index, route_index);
                p.append(".response.status");
                proof {
                    assert(p@ =~= spec_path_route(api_index as int, route_index as int)
                        + ".response.status"@);
                }
                diagnostics.push(
                    diag_owned_local(
                        p,
                        response.status.span,
                        "response status must be in range 100..=599",
                    ),
                );
            }
        },
        None => {
            let mut p = path_route(api_index, route_index);
            p.append(".response");
            proof {
                assert(p@ =~= spec_path_route(api_index as int, route_index as int)
                    + ".response"@);
            }
            diagnostics.push(
                diag_owned_local(p, route.span, "missing required `respond` statement"),
            );
        },
    }
    proof {
        assert(diagnostics.deep_view() =~= g0 + route_diags(
            route@,
            api_index as int,
            route_index as int,
        ));
    }
}

fn diag_owned_local(path: String, span: Span, msg: &str) -> (d: Diagnostic)
    ensures
        d@ == mk_diag(path@, span, msg@),
{
    Diagnostic::new(path, span, String::from_str(msg))
}

/// Validates a parsed document, collecting all diagnostics (fail-slow).
/// Succeeds exactly when the document satisfies every rule.
#[verifier::rlimit(60)]
pub fn validate(document: &Document, source_path: &str) -> (r: Result<(), LoadError>)
    ensures
        r is Ok <==> validate_spec(document@).len() == 0,
        r matches Err(e) ==> e matches LoadError::Diagnostics { path, diagnostics } && path@
            == source_path@ && diagnostics.deep_view() == validate_spec(document@),
{
    let mut diagnostics: Vec<Diagnostic> = Vec::new();
    proof {
        assert(diagnostics.deep_view() =~= Seq::<DiagnosticModel>::empty());
    }
    // version
    match &document.version {
        Some(version) => {
            if !str_eq(version.value.as_str(), "0.1") {
                let mut m = String::from_str("unsupported dot version `");
                m.append(version.value.as_str());
                m.append("`; expected `0.1`");
                proof {
                    assert(m@ =~= "unsupported dot version `"@ + version@.value
                        + "`; expected `0.1`"@);
                }
                diagnostics.push(
                    Diagnostic::new(String::from_str("version"), version.span, m),
                );
            }
        },
        None => {
            let sp = fallback_span(document);
            diagnostics.push(diag_str("version", sp, "missing required `dot` version directive"));
        },
    }
    proof {
        assert(diagnostics.deep_view() =~= version_diags(document@));
    }
    let ghost g1 = diagnostics.deep_view();
    // metadata
    if document.metadata.app.is_none() && document.metadata.project.is_none() {
        let sp = fallback_span(document);
        diagnostics.push(
            diag_str("metadata", sp, "missing required metadata; expected `app` or `project`"),
        );
    }
    proof {
        assert(diagnostics.deep_view() =~= g1 + metadata_diags(document@));
    }
    let ghost g2 = diagnostics.deep_view();
    // capabilities
    let mut has_listen = false;
    let mut i: usize = 0;
    while i < document.capabilities.len()
        invariant
            i <= document@.capabilities.len(),
            diagnostics.deep_view() == g2 + caps_diags(document@.capabilities, i as int),
            has_listen == exists|j: int|
                0 <= j < i && (#[trigger] document@.capabilities[j]).value == "net.http.listen"@,
        decreases document@.capabilities.len() - i,
    {
        let ghost gpre = diagnostics.deep_view();
        let cap = &document.capabilities[i];
        if str_eq(cap.value.as_str(), "net.http.listen") {
            has_listen = true;
            proof {
                assert((#[trigger] document@.capabilities[i as int]).value
                    == "net.http.listen"@);
            }
        }
        let known = str_eq(cap.value.as_str(), "log") || str_eq(
            cap.value.as_str(),
            "net.http.listen",
        );
        proof {
            assert(document@.capabilities[i as int] == SpannedModel {
                value: cap.value@,
                span: cap.span,
            });
        }
        if !known {
            let mut p = String::from_str("capabilities[");
            let d = usize_to_string(i);
            p.append(d.as_str());
            p.append("]");
            let mut m = String::from_str("unknown capability `");
            m.append(cap.value.as_str());
            m.append("`");
            proof {
                assert(p@ =~= "capabilities["@ + dec_digits(i as nat) + "]"@);
                assert(m@ =~= "unknown capability `"@ + document@.capabilities[i as int].value
                    + "`"@);
            }
            let dd = Diagnostic::new(p, cap.span, m);
            let ghost dm = dd@;
            diagnostics.push(dd);
            proof {
                assert(diagnostics.deep_view() =~= gpre.push(dm));
                assert(caps_diags(document@.capabilities, i + 1) =~= caps_diags(
                    document@.capabilities,
                    i as int,
                ) + seq![dm]);
                assert(diagnostics.deep_view() =~= g2 + caps_diags(
                    document@.capabilities,
                    i + 1,
                ));
            }
        } else {
            proof {
                assert(caps_diags(document@.capabilities, i + 1) =~= caps_diags(
                    document@.capabilities,
                    i as int,
                ));
                assert(diagnostics.deep_view() =~= g2 + caps_diags(
                    document@.capabilities,
                    i + 1,
                ));
            }
        }
        i = i + 1;
    }
    proof {
        assert(has_listen == has_listen_capability(document@.capabilities));
    }
    let ghost g3 = diagnostics.deep_view();
    // server
    match &document.server {
        Some(server) => {
            if !has_listen {
                diagnostics.push(
                    diag_str(
                        "capabilities",
                        server.span,
                        "missing required capability `net.http.listen` for `server listen`",
                    ),
                );
            }
            if server.port.value == 0 {
                diagnostics.push(
                    diag_str(
                        "server.port",
                        server.port.span,
                        "server port must be in range 1..=65535",
                    ),
                );
            }
        },
        None => {},
    }
    proof {
        assert(diagnostics.deep_view() =~= g3 + server_diags(document@));
    }
    let ghost g4 = diagnostics.deep_view();
    // apis present
    if document.apis.len() == 0 {
        let sp = fallback_span(document);
        diagnostics.push(diag_str("apis", sp, "at least one `api` block is required"));
    }
    let ghost g5 = diagnostics.deep_view();
    proof {
        assert(g5 =~= g4 + (if document@.apis.len() == 0 {
            seq![
                mk_diag(
                    "apis"@,
                    fallback_span_spec(document@),
                    "at least one `api` block is required"@,
                ),
            ]
        } else {
            Seq::<DiagnosticModel>::empty()
        }));
    }
    // each api
    let mut a: usize = 0;
    while a < document.apis.len()
        invariant
            a <= document@.apis.len(),
            diagnostics.deep_view() == g5 + apis_diags(document@.apis, a as int),
        decreases document@.apis.len() - a,
    {
        let ghost gapre = diagnostics.deep_view();
        let nroutes = document.apis[a].routes.len();
        if nroutes == 0 {
            let p = path_routes(a);
            let sp = document.apis[a].span;
            diagnostics.push(diag_owned_local(p, sp, "api must contain at least one route"));
        }
        let ghost gar = diagnostics.deep_view();
        let mut rix: usize = 0;
        while rix < document.apis[a].routes.len()
            invariant
                a < document@.apis.len(),
                rix <= document@.apis[a as int].routes.len(),
                diagnostics.deep_view() == gar + routes_diags(
                    document@.apis[a as int].routes,
                    a as int,
                    rix as int,
                ),
            decreases document@.apis[a as int].routes.len() - rix,
        {
            validate_route(&document.apis[a].routes[rix], a, rix, &mut diagnostics);
            proof {
                assert(document@.apis[a as int].routes[rix as int]
                    == document.apis@[a as int].routes@[rix as int]@);
                assert(diagnostics.deep_view() =~= gar + routes_diags(
                    document@.apis[a as int].routes,
                    a as int,
                    rix + 1,
                ));
            }
            rix = rix + 1;
        }
        proof {
            assert(diagnostics.deep_view() =~= gapre + api_diags(
                document@.apis[a as int],
                a as int,
            ));
            assert(diagnostics.deep_view() =~= g5 + apis_diags(document@.apis, a + 1));
        }
        a = a + 1;
    }
    proof {
        assert(diagnostics.deep_view() =~= validate_spec(document@));
    }
    if diagnostics.len() == 0 {
        proof {
            assert(validate_spec(document@).len() == 0);
        }
        Ok(())
    } else {
        Err(LoadError::diagnostics(String::from_str(source_path), diagnostics))
    }
}

} // verus!
