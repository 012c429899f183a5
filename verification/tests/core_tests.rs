use hywdbg::backend::{answer_request, is_blank_line, param_flag, param_str, param_u64, BackendHandler};
use hywdbg::http::{arg_value, http_head, HttpHead, HttpRoute, MAX_HTTP_BODY};
use hywdbg::json::JsonValue;
use hywdbg::num::{dec_u64, hex_u64, int_error_text, parse_u64_kind, parse_u64_str, IntErrorKind};
use hywdbg::pending::PendingTable;
use hywdbg::protocol::{parse_u64ish, RpcRequest, RpcResponse};
use hywdbg::router::{
    finish_forward, frontend_bad_json, BackendKind, CoreAction, CoreConfig, CoreState, StartBackendParams,
    StartPlan,
};
use hywdbg::text::eq_ignore_case;

fn object(fields: Vec<(&str, JsonValue)>) -> JsonValue {
    JsonValue::Object(fields.into_iter().map(|(k, v)| (k.to_string(), v)).collect())
}

fn reply_of(a: CoreAction) -> RpcResponse {
    match a {
        CoreAction::Reply(r) => r,
        other => panic!("expected a reply, got {:?}", other),
    }
}

fn err_parts(r: &RpcResponse) -> (u64, String, String) {
    assert!(!r.ok);
    let e = r.error.as_ref().unwrap();
    (r.id, e.code.clone(), e.message.clone())
}

fn ok_result(r: &RpcResponse) -> &JsonValue {
    assert!(r.ok);
    r.result.as_ref().unwrap()
}

fn spawn_of(p: StartPlan) -> (BackendKind, String) {
    match p {
        StartPlan::Spawn { kind, path } => (kind, path),
        StartPlan::Reply(r) => panic!("expected a spawn, got {:?}", r),
    }
}

fn start_params(kind: BackendKind, path: Option<&str>) -> Result<StartBackendParams, String> {
    Ok(StartBackendParams { kind, path: path.map(|p| p.to_string()) })
}

fn hello_response(ok: bool) -> RpcResponse {
    if ok {
        RpcResponse::ok(3, object(vec![("name", JsonValue::Str("x".to_string()))]))
    } else {
        RpcResponse::err(3, "boom", "no")
    }
}

// ─── numbers ────────────────────────────────────────────────────────────

#[test]
fn hex_u64_is_sixteen_lower_digits() {
    assert_eq!(hex_u64(0), "0x0000000000000000");
    assert_eq!(hex_u64(0xDEAD_BEEF), "0x00000000deadbeef");
    assert_eq!(hex_u64(u64::MAX), "0xffffffffffffffff");
}

#[test]
fn dec_u64_matches_to_string() {
    assert_eq!(dec_u64(0), "0");
    assert_eq!(dec_u64(1234567), "1234567");
    assert_eq!(dec_u64(u64::MAX), u64::MAX.to_string());
}

#[test]
fn parse_u64_str_reads_hex_and_decimal() {
    assert_eq!(parse_u64_str(" 0x1F "), Ok(31));
    assert_eq!(parse_u64_str("0XfF"), Ok(255));
    assert_eq!(parse_u64_str("\t42\n"), Ok(42));
    assert_eq!(parse_u64_str("+7"), Ok(7));
    assert_eq!(parse_u64_str("18446744073709551615"), Ok(u64::MAX));
}

#[test]
fn parse_u64_str_errors_carry_the_std_messages() {
    assert_eq!(parse_u64_str("   "), Err("cannot parse integer from empty string".to_string()));
    assert_eq!(parse_u64_str("0x"), Err("cannot parse integer from empty string".to_string()));
    assert_eq!(parse_u64_str("-5"), Err("invalid digit found in string".to_string()));
    assert_eq!(parse_u64_str("+"), Err("invalid digit found in string".to_string()));
    assert_eq!(parse_u64_str("12a"), Err("invalid digit found in string".to_string()));
    assert_eq!(parse_u64_str("18446744073709551616"), Err("number too large to fit in target type".to_string()));
    assert_eq!(parse_u64_kind("0x10000000000000000"), Err(IntErrorKind::PosOverflow));
    assert_eq!(int_error_text(IntErrorKind::Empty), "cannot parse integer from empty string");
}

#[test]
fn hex_text_reads_back() {
    for v in [0u64, 1, 0x1234_5678_9abc_def0, u64::MAX] {
        assert_eq!(parse_u64_str(&hex_u64(v)), Ok(v));
        assert_eq!(parse_u64_str(&dec_u64(v)), Ok(v));
    }
}

#[test]
fn parse_u64ish_takes_numbers_and_text() {
    assert_eq!(parse_u64ish(&JsonValue::UInt(9)), Ok(9));
    assert_eq!(parse_u64ish(&JsonValue::Str("0x10".to_string())), Ok(16));
    assert_eq!(parse_u64ish(&JsonValue::Int(-3)), Err("number is not u64".to_string()));
    assert_eq!(parse_u64ish(&JsonValue::Float("1.5".to_string())), Err("number is not u64".to_string()));
    assert_eq!(parse_u64ish(&JsonValue::Null), Err("expected integer or string".to_string()));
}

// ─── text ───────────────────────────────────────────────────────────────

#[test]
fn ascii_case_is_ignored() {
    assert!(eq_ignore_case("Content-Length", "content-length"));
    assert!(!eq_ignore_case("Content-Type", "content-length"));
}

// ─── backend helpers ────────────────────────────────────────────────────

#[test]
fn params_are_read_by_key() {
    let p = Some(object(vec![
        ("path", JsonValue::Str("a.exe".to_string())),
        ("pid", JsonValue::Str("0x20".to_string())),
        ("bad", JsonValue::Bool(true)),
        ("all", JsonValue::Bool(true)),
    ]));
    assert_eq!(param_str(&p, "path"), Some("a.exe".to_string()));
    assert_eq!(param_str(&p, "pid"), Some("0x20".to_string()));
    assert_eq!(param_str(&p, "all"), None);
    assert_eq!(param_str(&None, "path"), None);
    assert_eq!(param_u64(&p, "pid"), Ok(Some(32)));
    assert_eq!(param_u64(&p, "missing"), Ok(None));
    assert_eq!(param_u64(&p, "bad"), Err("expected integer or string".to_string()));
    assert!(param_flag(&p, "all"));
    assert!(!param_flag(&p, "path"));
    assert!(!param_flag(&None, "all"));
}

#[test]
fn later_duplicate_key_wins() {
    let p = Some(object(vec![("pid", JsonValue::UInt(1)), ("pid", JsonValue::UInt(2))]));
    assert_eq!(param_u64(&p, "pid"), Ok(Some(2)));
}

#[test]
fn blank_lines_are_recognised() {
    assert!(is_blank_line(""));
    assert!(is_blank_line(" \t\r\n"));
    assert!(!is_blank_line(" {} "));
}

struct Echo {
    calls: Vec<String>,
}

impl BackendHandler for Echo {
    fn handle(&mut self, method: &str, _params: Option<JsonValue>) -> RpcResponse {
        self.calls.push(method.to_string());
        RpcResponse::ok(0, JsonValue::Str(method.to_string()))
    }
}

#[test]
fn answer_request_keeps_the_request_id() {
    let mut h = Echo { calls: Vec::new() };
    let req = RpcRequest { id: 42, method: "regs".to_string(), params: None };
    let r = answer_request(&mut h, Ok(req));
    assert_eq!(r.id, 42);
    assert_eq!(ok_result(&r).as_str(), Some("regs"));
    assert_eq!(h.calls, vec!["regs".to_string()]);
}

#[test]
fn unreadable_request_is_bad_json() {
    let mut h = Echo { calls: Vec::new() };
    let r = answer_request(&mut h, Err("EOF while parsing".to_string()));
    assert_eq!(err_parts(&r), (0, "bad_json".to_string(), "cannot parse request: EOF while parsing".to_string()));
    assert!(h.calls.is_empty());
}

// ─── core routing ───────────────────────────────────────────────────────

#[test]
fn backend_kind_names() {
    assert_eq!(BackendKind::Gdbremote.as_str(), "gdbremote");
    assert_eq!(BackendKind::Winapi.exe_name(true), "winapi-backend.exe");
    assert_eq!(BackendKind::Frida.exe_name(false), "frida-backend");
    assert_eq!(BackendKind::Titan.exe_name(false), "titan-backend");
}

#[test]
fn core_hello_and_idle_status() {
    let mut s = CoreState::new();
    let r = reply_of(s.route(5, "core.hello"));
    assert_eq!(r.id, 5);
    let v = ok_result(&r);
    assert_eq!(v.get("name").unwrap().as_str(), Some("hywdbg-core"));
    assert_eq!(v.get("listen_default").unwrap().as_str(), Some("127.0.0.1:31337"));
    let r = reply_of(s.route(6, "core.backendStatus"));
    assert_eq!(ok_result(&r).get("active").unwrap().as_bool(), Some(false));
    assert!(ok_result(&r).get("kind").is_none());
    assert_eq!(s.active(), None);
}

#[test]
fn requests_without_a_backend() {
    let mut s = CoreState::new();
    let r = reply_of(s.route(7, "dbg.regs"));
    assert_eq!(err_parts(&r), (7, "core_error".to_string(), "no active backend; call core.startBackend".to_string()));
    let r = reply_of(s.route(8, "core.stopBackend"));
    let v = ok_result(&r);
    assert_eq!(v.get("stopped").unwrap().as_bool(), Some(false));
    assert_eq!(v.get("reason").unwrap().as_str(), Some("no active backend"));
    let r = reply_of(s.route(9, "bogus"));
    assert_eq!(err_parts(&r), (9, "unknown_method".to_string(), "unknown method bogus".to_string()));
}

#[test]
fn start_plan_uses_the_backend_dir() {
    let s = CoreState::new();
    let config = CoreConfig { backend_dir: "/opt/hyw".to_string() };
    let (kind, path) = spawn_of(s.plan_start(1, start_params(BackendKind::Gdbremote, None), &config, false));
    assert_eq!(kind, BackendKind::Gdbremote);
    assert_eq!(path, "/opt/hyw/gdbremote-backend");
    let (_, path) = spawn_of(s.plan_start(1, start_params(BackendKind::Lldb, None), &config, true));
    assert!(path.ends_with("lldb-backend.exe"));
    let config = CoreConfig { backend_dir: "/opt/hyw/".to_string() };
    let (_, path) = spawn_of(s.plan_start(1, start_params(BackendKind::Winapi, None), &config, false));
    assert_eq!(path, "/opt/hyw/winapi-backend");
}

#[test]
fn start_plan_takes_a_given_path() {
    let s = CoreState::new();
    let config = CoreConfig { backend_dir: "/opt/hyw".to_string() };
    let (kind, path) = spawn_of(s.plan_start(1, start_params(BackendKind::Dbgeng, Some("/tmp/x")), &config, false));
    assert_eq!(kind, BackendKind::Dbgeng);
    assert_eq!(path, "/tmp/x");
}

#[test]
fn start_plan_reports_bad_params() {
    let s = CoreState::new();
    let config = CoreConfig { backend_dir: ".".to_string() };
    match s.plan_start(4, Err("missing field `kind`".to_string()), &config, false) {
        StartPlan::Reply(r) => {
            assert_eq!(err_parts(&r), (4, "core_error".to_string(), "missing field `kind`".to_string()))
        },
        other => panic!("unexpected {:?}", other),
    }
}

#[test]
fn one_backend_at_a_time() {
    let mut s = CoreState::new();
    assert!(matches!(s.route(1, "core.startBackend"), CoreAction::ParseStart));
    let r = s.finish_start(1, BackendKind::Gdbremote, Ok((hello_response(true), String::new())));
    let v = ok_result(&r);
    assert_eq!(r.id, 1);
    assert_eq!(v.get("started").unwrap().as_bool(), Some(true));
    assert_eq!(v.get("kind").unwrap().as_str(), Some("gdbremote"));
    assert_eq!(v.get("hello").unwrap().get("name").unwrap().as_str(), Some("x"));
    assert_eq!(s.active(), Some(BackendKind::Gdbremote));

    let config = CoreConfig { backend_dir: ".".to_string() };
    match s.plan_start(2, start_params(BackendKind::Lldb, None), &config, false) {
        StartPlan::Reply(r) => assert_eq!(
            err_parts(&r),
            (
                2,
                "backend_already_active".to_string(),
                "backend gdbremote is already active; call core.stopBackend first".to_string()
            )
        ),
        other => panic!("unexpected {:?}", other),
    }
    let r = reply_of(s.route(3, "core.backendStatus"));
    assert_eq!(ok_result(&r).get("kind").unwrap().as_str(), Some("gdbremote"));
}

#[test]
fn forwarding_strips_the_prefix() {
    let mut s = CoreState::new();
    s.finish_start(1, BackendKind::Lldb, Ok((hello_response(true), String::new())));
    match s.route(2, "dbg.regs") {
        CoreAction::Forward(m) => assert_eq!(m, "regs"),
        other => panic!("unexpected {:?}", other),
    }
    match s.route(2, "dbg.dbg.go") {
        CoreAction::Forward(m) => assert_eq!(m, "dbg.go"),
        other => panic!("unexpected {:?}", other),
    }
    let backend_answer = RpcResponse::ok(77, JsonValue::Bool(true));
    let r = finish_forward(2, Ok(backend_answer));
    assert_eq!(r.id, 2);
    assert!(r.ok);
    let r = finish_forward(3, Err("backend closed".to_string()));
    assert_eq!(err_parts(&r), (3, "core_error".to_string(), "backend closed".to_string()));
}

#[test]
fn stop_then_start_again() {
    let mut s = CoreState::new();
    s.finish_start(1, BackendKind::Titan, Ok((hello_response(true), String::new())));
    match s.route(2, "core.stopBackend") {
        CoreAction::Stop(r) => assert_eq!(ok_result(&r).get("stopped").unwrap().as_bool(), Some(true)),
        other => panic!("unexpected {:?}", other),
    }
    assert_eq!(s.active(), None);
    let config = CoreConfig { backend_dir: "/b".to_string() };
    let (kind, _) = spawn_of(s.plan_start(3, start_params(BackendKind::Frida, None), &config, false));
    assert_eq!(kind, BackendKind::Frida);
}

#[test]
fn failed_hello_leaves_the_core_idle() {
    let mut s = CoreState::new();
    let r = s.finish_start(1, BackendKind::Winapi, Ok((hello_response(false), "RpcResponse { .. }".to_string())));
    assert_eq!(
        err_parts(&r),
        (1, "backend_hello_failed".to_string(), "backend returned RpcResponse { .. }".to_string())
    );
    assert_eq!(s.active(), None);
    let r = s.finish_start(2, BackendKind::Winapi, Err("cannot spawn".to_string()));
    assert_eq!(err_parts(&r), (2, "core_error".to_string(), "cannot spawn".to_string()));
    assert_eq!(s.active(), None);
}

#[test]
fn frontend_bad_json_message() {
    let r = frontend_bad_json("expected value");
    assert_eq!(err_parts(&r), (0, "bad_json".to_string(), "cannot parse frontend request: expected value".to_string()));
}

// ─── pending requests ───────────────────────────────────────────────────

#[test]
fn pending_issue_then_take() {
    let mut t: PendingTable<&str> = PendingTable::new();
    assert!(t.can_issue());
    let a = t.issue("first");
    let b = t.issue("second");
    assert_eq!((a, b), (1, 2));
    assert_eq!(t.take(2), Some("second"));
    assert_eq!(t.take(2), None);
    assert_eq!(t.take(99), None);
    assert_eq!(t.take(1), Some("first"));
    assert_eq!(t.issue("third"), 3);
}

// ─── HTTP front door ────────────────────────────────────────────────────

#[test]
fn arg_value_finds_the_following_argument() {
    let args: Vec<String> = ["hywdbg-core", "--listen", "0.0.0.0:1", "--backend-dir", "/b"]
        .iter()
        .map(|s| s.to_string())
        .collect();
    assert_eq!(arg_value(&args, "--backend-dir"), Some("/b".to_string()));
    assert_eq!(arg_value(&args, "--listen"), Some("0.0.0.0:1".to_string()));
    assert_eq!(arg_value(&args, "--http"), None);
    let tail: Vec<String> = vec!["x".to_string(), "--listen".to_string()];
    assert_eq!(arg_value(&tail, "--listen"), None);
}

#[test]
fn request_line_and_headers() {
    let mut h = HttpHead::from_request_line("POST /rpc?x=1 HTTP/1.1\r\n");
    assert_eq!(h.method, "POST");
    assert_eq!(h.path, "/rpc");
    assert_eq!(h.content_length, 0);
    assert!(!h.feed_header("Host: localhost\r\n"));
    assert_eq!(h.content_length, 0);
    assert!(!h.feed_header("content-LENGTH:  17 \r\n"));
    assert_eq!(h.content_length, 17);
    assert!(!h.feed_header("Content-Length: abc\r\n"));
    assert_eq!(h.content_length, 0);
    assert!(!h.feed_header("Content-Length: 5"));
    assert!(h.feed_header("\r\n"));
    assert_eq!(h.content_length, 5);
    match h.route() {
        HttpRoute::ReadBody(n) => assert_eq!(n, 5),
        other => panic!("unexpected {:?}", other),
    }
}

#[test]
fn http_routes() {
    let h = HttpHead::from_request_line("OPTIONS /rpc HTTP/1.1");
    match h.route() {
        HttpRoute::Reply { status, content_type, body } => {
            assert_eq!(status, "204 No Content");
            assert_eq!(content_type, "text/plain");
            assert_eq!(body, "");
        },
        other => panic!("unexpected {:?}", other),
    }
    let h = HttpHead::from_request_line("GET /rpc HTTP/1.1");
    match h.route() {
        HttpRoute::Reply { status, body, .. } => {
            assert_eq!(status, "404 Not Found");
            assert_eq!(body, "{\"error\":\"not found\"}");
        },
        other => panic!("unexpected {:?}", other),
    }
    let mut h = HttpHead::from_request_line("POST /rpc HTTP/1.1");
    h.feed_header(&format!("Content-Length: {}", MAX_HTTP_BODY + 1));
    match h.route() {
        HttpRoute::Reply { status, body, .. } => {
            assert_eq!(status, "413 Payload Too Large");
            assert_eq!(body, "{\"error\":\"request body too large\"}");
        },
        other => panic!("unexpected {:?}", other),
    }
    let h = HttpHead::from_request_line("");
    assert!(matches!(h.route(), HttpRoute::Reply { .. }));
}

#[test]
fn http_head_text() {
    assert_eq!(
        http_head("200 OK", "application/json", 12),
        "HTTP/1.1 200 OK\r\nContent-Type: application/json\r\nContent-Length: 12\r\nAccess-Control-Allow-Origin: *\r\nAccess-Control-Allow-Headers: content-type\r\nAccess-Control-Allow-Methods: POST, OPTIONS\r\nConnection: close\r\n\r\n"
    );
}

#[test]
fn written_content_length_reads_back() {
    for n in [0usize, 7, 1234, MAX_HTTP_BODY + 1] {
        let mut h = HttpHead::from_request_line("POST /rpc HTTP/1.1");
        assert!(!h.feed_header(&format!("Content-Length: {n}\r\n")));
        assert_eq!(h.content_length, n);
        let head = http_head("200 OK", "application/json", n);
        assert!(head.contains(&format!("\r\nContent-Length: {n}\r\n")));
    }
}

#[test]
fn every_integer_form_reads_back_with_padding() {
    for v in [0u64, 9, 255, 0x1234_5678_9abc_def0, u64::MAX] {
        assert_eq!(parse_u64_str(&format!(" {} \n", hex_u64(v))), Ok(v));
        assert_eq!(parse_u64_str(&format!("\t{} ", dec_u64(v))), Ok(v));
        assert_eq!(parse_u64_str(&format!("0X{:X}", v)), Ok(v));
        assert_eq!(parse_u64_str(&format!("  0x{:x}\r\n", v)), Ok(v));
    }
}

#[test]
fn hex_u64_keeps_the_order_of_values() {
    let values = [0u64, 1, 9, 10, 15, 16, 255, 256, 0xdead_beef, u64::MAX - 1, u64::MAX];
    for &a in values.iter() {
        let ha = hex_u64(a);
        assert_eq!(ha.len(), 18);
        assert!(ha.starts_with("0x"));
        assert!(ha[2..].chars().all(|c| c.is_ascii_digit() || ('a'..='f').contains(&c)));
        for &b in values.iter() {
            let hb = hex_u64(b);
            assert_eq!(a < b, ha < hb);
            assert_eq!(a == b, ha == hb);
        }
    }
}
