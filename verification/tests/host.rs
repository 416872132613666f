use dotlanth::ops::{
    plan_syscall, Host, HostError, RouteTable, RunEvent, SyscallId, SyscallPlan,
};
use dotlanth::parse_and_validate;
use dotlanth::sec::{Capability, CapabilitySet};
use dotlanth::value::Value;

struct NoopHost;

impl Host<u8> for NoopHost {
    fn syscall(&mut self, _id: SyscallId, _args: &[u8]) -> Result<Vec<u8>, HostError> {
        Ok(vec![])
    }
}

#[test]
fn host_is_object_safe_over_concrete_value_types() {
    let mut host: Box<dyn Host<u8>> = Box::new(NoopHost);
    host.syscall(SyscallId(0), &[]).unwrap();
}

#[test]
fn log_emit_plan_is_denied_without_capability() {
    let caps = CapabilitySet::empty();
    let error = plan_syscall(&caps, SyscallId(1), &vec![Value::from("hi")], false)
        .expect_err("log.emit must be denied");
    assert!(error
        .message()
        .contains("capability denied: syscall `log.emit`"));
    assert!(error.message().contains("allow log"));
}

#[test]
fn log_emit_plan_rejects_non_string_argument() {
    let mut caps = CapabilitySet::empty();
    caps.insert(Capability::Log);
    let error = plan_syscall(&caps, SyscallId(1), &vec![Value::from(1_i64)], false)
        .expect_err("non-string argument must fail");
    assert_eq!(error.message(), "log.emit expects 1 string argument");
}

#[test]
fn log_emit_plan_carries_the_message() {
    let mut caps = CapabilitySet::empty();
    caps.insert(Capability::Log);
    let plan = plan_syscall(&caps, SyscallId(1), &vec![Value::from("hello")], false)
        .expect("log.emit must plan");
    assert_eq!(
        plan,
        SyscallPlan::LogEmit {
            message: "hello".to_string()
        }
    );
}

#[test]
fn http_serve_plan_checks_capability_arity_and_listener() {
    let empty = CapabilitySet::empty();
    let denied = plan_syscall(&empty, SyscallId(2), &vec![], true)
        .expect_err("serve must be denied without capability");
    assert!(denied
        .message()
        .contains("capability denied: syscall `net.http.listen`"));

    let mut caps = CapabilitySet::empty();
    caps.insert(Capability::NetHttpListen);

    let unconfigured = plan_syscall(&caps, SyscallId(2), &vec![], false)
        .expect_err("serve needs a configured listener");
    assert_eq!(
        unconfigured.message(),
        "net.http.serve requires an HTTP listener to be configured"
    );

    let negative = plan_syscall(&caps, SyscallId(2), &vec![Value::from(-1_i64)], true)
        .expect_err("negative max_requests must fail");
    assert_eq!(
        negative.message(),
        "net.http.serve expects max_requests to be a non-negative integer"
    );

    let wrong_type = plan_syscall(&caps, SyscallId(2), &vec![Value::from("x")], true)
        .expect_err("non-integer max_requests must fail");
    assert_eq!(
        wrong_type.message(),
        "net.http.serve expects 0 or 1 integer argument (max_requests)"
    );

    let too_many = plan_syscall(
        &caps,
        SyscallId(2),
        &vec![Value::from(1_i64), Value::from(2_i64)],
        true,
    )
    .expect_err("two arguments must fail");
    assert_eq!(
        too_many.message(),
        "net.http.serve expects 0 or 1 argument (max_requests)"
    );

    let forever = plan_syscall(&caps, SyscallId(2), &vec![], true).expect("serve must plan");
    assert_eq!(forever, SyscallPlan::HttpServe { max_requests: None });

    let bounded =
        plan_syscall(&caps, SyscallId(2), &vec![Value::from(3_i64)], true).expect("serve must plan");
    assert_eq!(
        bounded,
        SyscallPlan::HttpServe {
            max_requests: Some(3)
        }
    );
}

#[test]
fn unknown_syscall_id_is_reported_with_its_number() {
    let caps = CapabilitySet::empty();
    let error =
        plan_syscall(&caps, SyscallId(9), &vec![], false).expect_err("unknown id must fail");
    assert_eq!(error.message(), "unknown syscall id: 9");
}

fn hello_table() -> RouteTable {
    let document = parse_and_validate(
        "dot 0.1\napp \"x\"\nallow net.http.listen\n\nserver listen 8080\n\napi \"public\"\n  route GET \"/hello\"\n    respond 200 \"Hello from Dotlanth\"\n  end\nend\n",
        "inline.dot",
    )
    .expect("document must validate");
    RouteTable::from_document(&document)
}

#[test]
fn route_table_matches_by_method_and_path_exactly() {
    let table = hello_table();

    let hit = table.match_route("GET", "/hello").expect("route must match");
    assert_eq!(hit.method, "GET");
    assert_eq!(hit.path, "/hello");
    assert_eq!(hit.response.status, 200);
    assert_eq!(hit.response.body, "Hello from Dotlanth");

    assert!(table.match_route("POST", "/hello").is_none());
    assert!(table.match_route("GET", "/nope").is_none());
}

#[test]
fn unrouted_requests_fall_back_to_not_found() {
    let table = hello_table();
    let miss = dotlanth::ops::route_response(&table, "GET", "/missing");
    assert_eq!(miss.status, 404);
    assert_eq!(miss.body, "Not Found");

    let hit = dotlanth::ops::route_response(&table, "GET", "/hello");
    assert_eq!(hit.status, 200);
    assert_eq!(hit.body, "Hello from Dotlanth");
}

#[test]
fn events_render_as_one_json_line_each() {
    assert_eq!(
        RunEvent::Log {
            message: "hello".to_string()
        }
        .to_json_line(),
        "{\"type\":\"log\",\"message\":\"hello\"}"
    );
    assert_eq!(
        RunEvent::HttpServerStart {
            addr: "127.0.0.1:8080".to_string()
        }
        .to_json_line(),
        "{\"type\":\"http.server_start\",\"addr\":\"127.0.0.1:8080\"}"
    );
    assert_eq!(
        RunEvent::HttpRequest {
            method: "GET".to_string(),
            path: "/hello".to_string()
        }
        .to_json_line(),
        "{\"type\":\"http.request\",\"method\":\"GET\",\"path\":\"/hello\"}"
    );
    assert_eq!(
        RunEvent::HttpResponse { status: 200 }.to_json_line(),
        "{\"type\":\"http.response\",\"status\":200}"
    );
}

#[test]
fn json_strings_escape_quotes_backslashes_and_control_bytes() {
    assert_eq!(
        dotlanth::ops::json_string("a\"b\\c\nd\re\tf\u{1}g"),
        "\"a\\\"b\\\\c\\nd\\re\\tf\\u0001g\""
    );
    assert_eq!(dotlanth::ops::json_string(""), "\"\"");
    assert_eq!(dotlanth::ops::json_string("\u{1f}"), "\"\\u001f\"");
}

#[test]
fn http_responses_carry_reason_phrase_and_exact_length() {
    assert_eq!(dotlanth::ops::reason_phrase(200), "OK");
    assert_eq!(dotlanth::ops::reason_phrase(400), "Bad Request");
    assert_eq!(dotlanth::ops::reason_phrase(404), "Not Found");
    assert_eq!(dotlanth::ops::reason_phrase(500), "Internal Server Error");
    assert_eq!(dotlanth::ops::reason_phrase(301), "OK");

    assert_eq!(
        dotlanth::ops::http_response_text(200, "Hello from Dotlanth"),
        "HTTP/1.1 200 OK\r\nContent-Type: text/plain; charset=utf-8\r\nContent-Length: 19\r\nConnection: close\r\n\r\nHello from Dotlanth"
    );
    assert_eq!(
        dotlanth::ops::http_response_text(400, "Bad Request"),
        "HTTP/1.1 400 Bad Request\r\nContent-Type: text/plain; charset=utf-8\r\nContent-Length: 11\r\nConnection: close\r\n\r\nBad Request"
    );
}

#[test]
fn request_lines_split_into_method_and_path() {
    assert_eq!(
        dotlanth::ops::parse_request_line("GET /hello HTTP/1.1\r\n"),
        Some(("GET".to_string(), "/hello".to_string()))
    );
    assert_eq!(
        dotlanth::ops::parse_request_line("POST /x\n"),
        Some(("POST".to_string(), "/x".to_string()))
    );
    assert_eq!(dotlanth::ops::parse_request_line("\r\n"), None);
    assert_eq!(dotlanth::ops::parse_request_line("GET\r\n"), None);
}
