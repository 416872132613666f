use dotlanth::diagnostics::{Diagnostic, LoadError};
use dotlanth::parse_and_validate;

const HELLO_API: &str = "dot 0.1\napp \"hello-api\"\nallow net.http.listen\n\nserver listen 8080\n\napi \"public\"\n  route GET \"/hello\"\n    respond 200 \"Hello from Dotlanth\"\n  end\nend\n";

const HELLO_API_DENY: &str = "dot 0.1\napp \"hello-api\"\n\n# capability `net.http.listen` is\n# deliberately not granted\n\nserver listen 8080\n\napi \"public\"\n  route GET \"/hello\"\n    respond 200 \"Hello from Dotlanth\"\n  end\nend\n";

const MISSING_VERSION: &str = "app \"hello-api-nover\"\nallow log\n\napi \"public\"\n  route GET \"/hello\"\n    respond 200 \"ok\"\n  end\nend\n";

const INVALID_ROUTE_PATH: &str = "dot 0.1\napp \"hello-api\"\nallow net.http.listen\n\nserver listen 8080\n\napi \"public\"\n  route GET \"hello\"\n    respond 200 \"ok\"\n  end\nend\n";

const INVALID_UNKNOWN_VERB: &str = "dot 0.1\napp \"hello-api\"\nallow net.http.listen\n\nserver listen 8080\n\napi \"public\"\n  route FETCH \"/x\"\n    respond 200 \"ok\"\n  end\nend\n";

const INVALID_UNKNOWN_STATEMENT: &str = "dot 0.1\napp \"hello-api\"\nallow log\n\nunknown \"stmt\"\n";

const INVALID_MISSING_RESPONSE: &str = "dot 0.1\napp \"hello-api\"\nallow net.http.listen\n\nserver listen 8080\n\napi \"public\"\n  route GET \"/hello\"\n  end\nend\n";

const INVALID_DUPLICATE_DOT: &str = "dot 0.1\ndot 0.1\n";

const INVALID_DUPLICATE_APP: &str = "dot 0.1\napp \"first\"\napp \"second\"\n";

const INVALID_DUPLICATE_PROJECT: &str = "dot 0.1\nproject \"first\"\nproject \"second\"\n";

const INVALID_DUPLICATE_SERVER: &str = "dot 0.1\nserver listen 8080\nserver listen 8080\n";

fn snapshot(error: &LoadError) -> String {
    let diagnostics = error
        .as_diagnostics()
        .expect("expected diagnostics-backed error");
    let mut lines = Vec::with_capacity(diagnostics.len());
    for diagnostic in diagnostics {
        lines.push(snapshot_line(diagnostic));
    }
    lines.join("\n")
}

fn snapshot_line(diagnostic: &Diagnostic) -> String {
    format!(
        "{}:{}:{} {} | {}",
        diagnostic.span.line,
        diagnostic.span.column,
        diagnostic.span.length,
        diagnostic.semantic_path,
        diagnostic.message
    )
}

#[test]
fn hello_api_fixture_validates() {
    let document = parse_and_validate(HELLO_API, "hello-api.dot").expect("fixture should validate");

    assert_eq!(
        document
            .version
            .as_ref()
            .expect("version must exist after validation")
            .value,
        "0.1"
    );
    assert_eq!(
        document
            .metadata
            .app
            .as_ref()
            .expect("app metadata must exist after validation")
            .value,
        "hello-api"
    );
    assert_eq!(document.apis.len(), 1);
    assert_eq!(document.apis[0].routes.len(), 1);
}

#[test]
fn denial_fixture_reports_capability_error_with_stable_path_and_span() {
    let error = parse_and_validate(HELLO_API_DENY, "hello-api-deny.dot")
        .expect_err("denial fixture must fail capability checks");

    assert_eq!(
        snapshot(&error),
        "7:1:18 capabilities | missing required capability `net.http.listen` for `server listen`"
    );
}

#[test]
fn missing_required_version_is_reported() {
    let error = parse_and_validate(MISSING_VERSION, "invalid-missing-version.dot")
        .expect_err("missing version fixture must fail");

    assert_eq!(
        snapshot(&error),
        "1:5:17 version | missing required `dot` version directive"
    );
}

#[test]
fn invalid_route_path_is_reported() {
    let error = parse_and_validate(INVALID_ROUTE_PATH, "invalid-route-path.dot")
        .expect_err("invalid route path fixture must fail");

    assert_eq!(
        snapshot(&error),
        "8:13:7 apis[0].routes[0].path | route path must start with `/`"
    );
}

#[test]
fn unknown_verb_is_reported() {
    let error = parse_and_validate(INVALID_UNKNOWN_VERB, "invalid-unknown-verb.dot")
        .expect_err("unknown verb must fail");

    assert_eq!(
        snapshot(&error),
        "8:9:5 apis[0].routes[0].verb | unknown HTTP verb `FETCH`"
    );
}

#[test]
fn unknown_statement_is_rejected_fail_closed() {
    let error = parse_and_validate(INVALID_UNKNOWN_STATEMENT, "invalid-unknown-statement.dot")
        .expect_err("unknown statement must fail");

    assert_eq!(snapshot(&error), "5:1:14 root | unknown statement `unknown`");
}

#[test]
fn missing_response_statement_is_reported() {
    let error = parse_and_validate(INVALID_MISSING_RESPONSE, "invalid-missing-response.dot")
        .expect_err("route without response must fail");

    assert_eq!(
        snapshot(&error),
        "8:3:18 apis[0].routes[0].response | missing required `respond` statement"
    );
}

#[test]
fn duplicate_dot_statement_is_rejected() {
    let error = parse_and_validate(INVALID_DUPLICATE_DOT, "invalid-duplicate-dot.dot")
        .expect_err("duplicate dot must fail");

    assert_eq!(
        snapshot(&error),
        "2:1:7 version | duplicate `dot` version directive"
    );
}

#[test]
fn duplicate_app_statement_is_rejected() {
    let error = parse_and_validate(INVALID_DUPLICATE_APP, "invalid-duplicate-app.dot")
        .expect_err("duplicate app must fail");

    assert_eq!(
        snapshot(&error),
        "3:1:12 metadata.app | duplicate `app` statement"
    );
}

#[test]
fn duplicate_project_statement_is_rejected() {
    let error = parse_and_validate(INVALID_DUPLICATE_PROJECT, "invalid-duplicate-project.dot")
        .expect_err("duplicate project must fail");

    assert_eq!(
        snapshot(&error),
        "3:1:16 metadata.project | duplicate `project` statement"
    );
}

#[test]
fn duplicate_server_statement_is_rejected() {
    let error = parse_and_validate(INVALID_DUPLICATE_SERVER, "invalid-duplicate-server.dot")
        .expect_err("duplicate server must fail");

    assert_eq!(
        snapshot(&error),
        "3:1:18 server | duplicate `server` statement"
    );
}

#[test]
fn display_includes_span_length() {
    let source = "dot 0.1\nunknown \"x\"\n";
    let error = parse_and_validate(source, "<test>").expect_err("unknown statement must fail");

    assert_eq!(
        error.display_string(),
        "<test>:2:1:11 root | unknown statement `unknown`"
    );
}

#[test]
fn unclosed_api_block_is_reported_past_the_end() {
    let source = "dot 0.1\napp \"x\"\napi \"public\"\n";
    let error = parse_and_validate(source, "<test>").expect_err("unclosed block must fail");

    assert_eq!(snapshot(&error), "4:1:1 apis[0] | unclosed block; expected `end`");
}

#[test]
fn unclosed_route_block_is_reported_with_route_path() {
    let source = "dot 0.1\napp \"x\"\napi \"public\"\n  route GET \"/x\"\n";
    let error = parse_and_validate(source, "<test>").expect_err("unclosed block must fail");

    assert_eq!(
        snapshot(&error),
        "5:1:1 apis[0].routes[0] | unclosed block; expected `end`"
    );
}

#[test]
fn string_escapes_are_resolved_in_bodies() {
    let source = "dot 0.1\napp \"x\"\napi \"a\"\n  route GET \"/x\"\n    respond 200 \"a\\\"b\\\\c\\nd\\te\\zf\"\n  end\nend\n";
    let document = parse_and_validate(source, "<test>").expect("document must validate");
    let body = &document.apis[0].routes[0]
        .response
        .as_ref()
        .expect("response must exist")
        .body
        .value;
    assert_eq!(body, "a\"b\\c\nd\te\\zf");
}

#[test]
fn validator_collects_every_diagnostic_in_order() {
    let source = "dot 0.2\nallow net.tcp.connect\napi \"a\"\n  route FETCH \"bad path\"\n  end\nend\n";
    let error = parse_and_validate(source, "<test>").expect_err("document must fail");

    assert_eq!(
        snapshot(&error),
        "1:5:3 version | unsupported dot version `0.2`; expected `0.1`\n\
         1:5:3 metadata | missing required metadata; expected `app` or `project`\n\
         2:7:15 capabilities[0] | unknown capability `net.tcp.connect`\n\
         4:9:5 apis[0].routes[0].verb | unknown HTTP verb `FETCH`\n\
         4:15:10 apis[0].routes[0].path | route path must start with `/`\n\
         4:15:10 apis[0].routes[0].path | route path cannot contain whitespace\n\
         4:3:22 apis[0].routes[0].response | missing required `respond` statement"
    );
}

#[test]
fn server_port_zero_is_rejected_at_the_port_span() {
    let source = "dot 0.1\napp \"x\"\nallow net.http.listen\nserver listen 0\napi \"a\"\n  route GET \"/x\"\n    respond 200 \"ok\"\n  end\nend\n";
    let error = parse_and_validate(source, "<test>").expect_err("port zero must fail");

    assert_eq!(
        snapshot(&error),
        "4:15:1 server.port | server port must be in range 1..=65535"
    );
}

#[test]
fn response_status_out_of_range_is_rejected() {
    let source = "dot 0.1\napp \"x\"\napi \"a\"\n  route GET \"/x\"\n    respond 600 \"no\"\n  end\nend\n";
    let error = parse_and_validate(source, "<test>").expect_err("status 600 must fail");

    assert_eq!(
        snapshot(&error),
        "5:13:3 apis[0].routes[0].response.status | response status must be in range 100..=599"
    );
}

#[test]
fn a_route_path_with_unicode_whitespace_is_rejected() {
    let source = "dot 0.1\napp \"x\"\napi \"a\"\n  route GET \"/a\u{a0}b\"\n    respond 200 \"ok\"\n  end\nend\n";
    let error = parse_and_validate(source, "<test>").expect_err("non-breaking space must fail");

    assert_eq!(
        snapshot(&error),
        "4:13:7 apis[0].routes[0].path | route path cannot contain whitespace"
    );
}
