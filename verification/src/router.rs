//! The core between the front ends and the backends: which backend kinds
//! exist, and the routing of front-end requests under the rule that at most
//! one backend runs at a time. The core decides; the caller spawns, talks to
//! and stops the backend processes and hands the outcomes back.
use vstd::prelude::*;
use crate::json::{Json, JsonValue, lemma_object_view, new_fields, push_field, jstr};
use crate::protocol::{ResponseView, RpcResponse, err_view, ok_view};
use crate::text::{append_str, ends_with, has_char, starts_with, str_eq, string_from, string_of_range, chars_of, chars_start_with_at};

verus! {

/// The kinds of backend the core can start.
#[derive(PartialEq, Eq, Structural, Clone, Copy, Debug)]
pub enum BackendKind {
    Winapi,
    Titan,
    Dbgeng,
    Lldb,
    Gdbremote,
    Frida,
}

/// The name of a backend kind, as the protocol spells it.
pub open spec fn kind_name(k: BackendKind) -> Seq<char> {
    match k {
        BackendKind::Winapi => "winapi"@,
        BackendKind::Titan => "titan"@,
        BackendKind::Dbgeng => "dbgeng"@,
        BackendKind::Lldb => "lldb"@,
        BackendKind::Gdbremote => "gdbremote"@,
        BackendKind::Frida => "frida"@,
    }
}

/// The file name of a backend's program: its kind and `-backend`, with
/// `.exe` on Windows.
pub open spec fn exe_file(k: BackendKind, windows: bool) -> Seq<char> {
    kind_name(k) + "-backend"@ + if windows {
        ".exe"@
    } else {
        ""@
    }
}

impl BackendKind {
    /// The name of the kind.
    pub fn as_str(&self) -> (r: &'static str)
        ensures
            r@ == kind_name(*self),
    {
        match self {
            BackendKind::Winapi => "winapi",
            BackendKind::Titan => "titan",
            BackendKind::Dbgeng => "dbgeng",
            BackendKind::Lldb => "lldb",
            BackendKind::Gdbremote => "gdbremote",
            BackendKind::Frida => "frida",
        }
    }

    /// The file name of the backend program, for Windows or for other
    /// systems.
    pub fn exe_name(&self, windows: bool) -> (r: &'static str)
        ensures
            r@ == exe_file(*self, windows),
    {
        proof {
            reveal_strlit("-backend");
            reveal_strlit(".exe");
            reveal_strlit("");
            reveal_strlit("winapi");
            reveal_strlit("titan");
            reveal_strlit("dbgeng");
            reveal_strlit("lldb");
            reveal_strlit("gdbremote");
            reveal_strlit("frida");
        }
        let r = if windows {
            match self {
                BackendKind::Winapi => "winapi-backend.exe",
                BackendKind::Titan => "titan-backend.exe",
                BackendKind::Dbgeng => "dbgeng-backend.exe",
                BackendKind::Lldb => "lldb-backend.exe",
                BackendKind::Gdbremote => "gdbremote-backend.exe",
                BackendKind::Frida => "frida-backend.exe",
            }
        } else {
            match self {
                BackendKind::Winapi => "winapi-backend",
                BackendKind::Titan => "titan-backend",
                BackendKind::Dbgeng => "dbgeng-backend",
                BackendKind::Lldb => "lldb-backend",
                BackendKind::Gdbremote => "gdbremote-backend",
                BackendKind::Frida => "frida-backend",
            }
        };
        proof {
            reveal_strlit("winapi-backend.exe");
            reveal_strlit("titan-backend.exe");
            reveal_strlit("dbgeng-backend.exe");
            reveal_strlit("lldb-backend.exe");
            reveal_strlit("gdbremote-backend.exe");
            reveal_strlit("frida-backend.exe");
            reveal_strlit("winapi-backend");
            reveal_strlit("titan-backend");
            reveal_strlit("dbgeng-backend");
            reveal_strlit("lldb-backend");
            reveal_strlit("gdbremote-backend");
            reveal_strlit("frida-backend");
            assert(r@ =~= exe_file(*self, windows));
        }
        r
    }
}

/// Where the core finds the backend programs.
#[derive(Debug)]
pub struct CoreConfig {
    pub backend_dir: String,
}

/// The parameters of `core.startBackend`.
#[derive(Debug)]
pub struct StartBackendParams {
    pub kind: BackendKind,
    pub path: Option<String>,
}

/// The routing state of the core: the kind of the backend that runs, if one
/// does.
#[derive(Debug)]
pub struct CoreState {
    active: Option<BackendKind>,
}

impl View for CoreState {
    type V = Option<BackendKind>;

    closed spec fn view(&self) -> Option<BackendKind> {
        self.active
    }
}

/// What the caller does with a front-end request.
#[derive(Debug)]
pub enum CoreAction {
    /// Answer with this response.
    Reply(RpcResponse),
    /// Read the parameters as `StartBackendParams` and hand them to
    /// `CoreState::plan_start`.
    ParseStart,
    /// Ask the backend that was running to shut down, kill it, then answer
    /// with this response.
    Stop(RpcResponse),
    /// Send the request to the running backend under this method name and
    /// hand its answer to `finish_forward`.
    Forward(String),
}

pub enum ActionView {
    Reply(ResponseView),
    ParseStart,
    Stop(ResponseView),
    Forward(Seq<char>),
}

impl View for CoreAction {
    type V = ActionView;

    open spec fn view(&self) -> ActionView {
        match self {
            CoreAction::Reply(r) => ActionView::Reply(r@),
            CoreAction::ParseStart => ActionView::ParseStart,
            CoreAction::Stop(r) => ActionView::Stop(r@),
            CoreAction::Forward(m) => ActionView::Forward(m@),
        }
    }
}

/// What `core.hello` answers.
pub open spec fn core_hello_json() -> Json {
    Json::Object(
        Seq::empty().push(("name"@, Json::Str("hywdbg-core"@))).push(("version"@, Json::Str("0.1.0"@))).push(
            ("protocol"@, Json::Str("ndjson-jsonrpc-ish"@)),
        ).push(("listen_default"@, Json::Str("127.0.0.1:31337"@))),
    )
}

/// What `core.backendStatus` answers.
pub open spec fn status_json(active: Option<BackendKind>) -> Json {
    match active {
        Some(k) => Json::Object(
            Seq::empty().push(("active"@, Json::Bool(true))).push(("kind"@, Json::Str(kind_name(k)))),
        ),
        None => Json::Object(Seq::empty().push(("active"@, Json::Bool(false)))),
    }
}

/// The message of a request to a backend when none runs.
pub open spec fn no_backend_msg() -> Seq<char> {
    "no active backend; call core.startBackend"@
}

/// How the core routes `method` from request `id`: its next state and what
/// the caller does.
pub open spec fn route_spec(active: Option<BackendKind>, id: u64, method: Seq<char>) -> (Option<BackendKind>, ActionView) {
    if method == "core.hello"@ {
        (active, ActionView::Reply(ok_view(id, core_hello_json())))
    } else if method == "core.backendStatus"@ {
        (active, ActionView::Reply(ok_view(id, status_json(active))))
    } else if method == "core.startBackend"@ {
        (active, ActionView::ParseStart)
    } else if method == "core.stopBackend"@ {
        match active {
            Some(_) => (
                None,
                ActionView::Stop(ok_view(id, Json::Object(Seq::empty().push(("stopped"@, Json::Bool(true)))))),
            ),
            None => (
                None,
                ActionView::Reply(
                    ok_view(
                        id,
                        Json::Object(
                            Seq::empty().push(("stopped"@, Json::Bool(false))).push(
                                ("reason"@, Json::Str("no active backend"@)),
                            ),
                        ),
                    ),
                ),
            ),
        }
    } else if starts_with(method, "dbg."@) {
        match active {
            None => (None, ActionView::Reply(err_view(id, "core_error"@, no_backend_msg()))),
            Some(_) => (active, ActionView::Forward(method.skip(4))),
        }
    } else {
        (active, ActionView::Reply(err_view(id, "unknown_method"@, "unknown method "@ + method)))
    }
}

/// The message when a backend is asked to start while one runs.
pub open spec fn already_active_msg(k: BackendKind) -> Seq<char> {
    "backend "@ + kind_name(k) + " is already active; call core.stopBackend first"@
}

/// A plain file name: not empty, no path separator or drive colon, and not
/// `.` or `..`.
pub open spec fn plain_file_name(n: Seq<char>) -> bool {
    &&& n.len() > 0
    &&& !has_char(n, '/')
    &&& !has_char(n, '\\')
    &&& !has_char(n, ':')
    &&& n != "."@
    &&& n != ".."@
}

/// `r` is `dir` with `name` appended, with or without one separator between.
pub open spec fn path_joined(dir: Seq<char>, name: Seq<char>, r: Seq<char>) -> bool {
    ||| r == dir + name
    ||| r == dir + seq!['/'] + name
    ||| r == dir + seq!['\\'] + name
}

/// `Path::join` of a directory and a plain file name, as text: the name is
/// appended, after a separator unless none is needed. Where the directory
/// carries a Windows verbatim prefix (`\\?\`) the documentation says the
/// joined path is normalized, and only that it ends with the name is stated.
#[verifier::external_body]
fn join_path(dir: &str, name: &str) -> (r: String)
    requires
        plain_file_name(name@),
    ensures
        ends_with(r@, name@),
        !starts_with(dir@, "\\\\?\\"@) ==> path_joined(dir@, name@, r@),
{
    std::path::Path::new(dir).join(name).to_string_lossy().into_owned()
}

/// The view of read start parameters: the kind, or the reading error.
pub open spec fn parsed_view(parsed: Result<StartBackendParams, String>) -> Result<BackendKind, Seq<char>> {
    match parsed {
        Ok(p) => Ok(p.kind),
        Err(e) => Err(e@),
    }
}

/// The answer to `core.startBackend` when nothing is started: the reading
/// error, or the refusal while a backend runs; `None` when the backend is
/// to be started.
pub open spec fn plan_reply_spec(active: Option<BackendKind>, id: u64, parsed: Result<BackendKind, Seq<char>>) -> Option<ResponseView> {
    match parsed {
        Err(e) => Some(err_view(id, "core_error"@, e)),
        Ok(_) => match active {
            Some(k) => Some(err_view(id, "backend_already_active"@, already_active_msg(k))),
            None => None,
        },
    }
}

/// What `core.startBackend` decided.
#[derive(Debug)]
pub enum StartPlan {
    /// Answer with this response; nothing is started.
    Reply(RpcResponse),
    /// Start the backend program at `path`, send it `hello`, and hand the
    /// outcome to `finish_start`.
    Spawn { kind: BackendKind, path: String },
}

/// What `finish_start` answers.
pub open spec fn finish_start_spec(
    active: Option<BackendKind>,
    id: u64,
    kind: BackendKind,
    outcome: Result<(ResponseView, Seq<char>), Seq<char>>,
) -> (Option<BackendKind>, ResponseView) {
    match outcome {
        Err(e) => (active, err_view(id, "core_error"@, e)),
        Ok((hello, text)) => if !hello.ok {
            (active, err_view(id, "backend_hello_failed"@, "backend returned "@ + text))
        } else {
            (
                Some(kind),
                ok_view(
                    id,
                    Json::Object(
                        Seq::empty().push(("started"@, Json::Bool(true))).push(
                            ("kind"@, Json::Str(kind_name(kind))),
                        ).push(
                            (
                                "hello"@,
                                match hello.result {
                                    Some(j) => j,
                                    None => Json::Null,
                                },
                            ),
                        ),
                    ),
                ),
            )
        },
    }
}

pub open spec fn start_outcome_view(o: Result<(RpcResponse, String), String>) -> Result<(ResponseView, Seq<char>), Seq<char>> {
    match o {
        Ok((r, t)) => Ok((r@, t@)),
        Err(e) => Err(e@),
    }
}

/// The answer to a front-end line that is no valid request.
pub fn frontend_bad_json(reason: &str) -> (r: RpcResponse)
    ensures
        r@ == err_view(0, "bad_json"@, "cannot parse frontend request: "@ + reason@),
{
    let mut msg = string_from("cannot parse frontend request: ");
    append_str(&mut msg, reason);
    RpcResponse::err(0, "bad_json", msg.as_str())
}

fn obj1(k: &str, v: JsonValue) -> (r: JsonValue)
    ensures
        r@ == Json::Object(Seq::empty().push((k@, v@))),
{
    let mut f = new_fields();
    push_field(&mut f, k, v);
    proof {
        lemma_object_view(f);
    }
    JsonValue::Object(f)
}

fn obj2(k1: &str, v1: JsonValue, k2: &str, v2: JsonValue) -> (r: JsonValue)
    ensures
        r@ == Json::Object(Seq::empty().push((k1@, v1@)).push((k2@, v2@))),
{
    let mut f = new_fields();
    push_field(&mut f, k1, v1);
    push_field(&mut f, k2, v2);
    proof {
        lemma_object_view(f);
    }
    JsonValue::Object(f)
}

impl CoreState {
    /// A core with no backend running.
    pub fn new() -> (r: CoreState)
        ensures
            r@ is None,
    {
        CoreState { active: None }
    }

    /// The kind of the backend that runs, if one does.
    pub fn active(&self) -> (r: Option<BackendKind>)
        ensures
            r == self@,
    {
        self.active
    }

    /// Routes one front-end request.
    pub fn route(&mut self, id: u64, method: &str) -> (r: CoreAction)
        ensures
            (final(self)@, r@) == route_spec(old(self)@, id, method@),
    {
        if str_eq(method, "core.hello") {
            let mut f = new_fields();
            push_field(&mut f, "name", jstr("hywdbg-core"));
            push_field(&mut f, "version", jstr("0.1.0"));
            push_field(&mut f, "protocol", jstr("ndjson-jsonrpc-ish"));
            push_field(&mut f, "listen_default", jstr("127.0.0.1:31337"));
            proof {
                lemma_object_view(f);
            }
            CoreAction::Reply(RpcResponse::ok(id, JsonValue::Object(f)))
        } else if str_eq(method, "core.backendStatus") {
            let j = match self.active {
                Some(k) => obj2("active", JsonValue::Bool(true), "kind", jstr(k.as_str())),
                None => obj1("active", JsonValue::Bool(false)),
            };
            CoreAction::Reply(RpcResponse::ok(id, j))
        } else if str_eq(method, "core.startBackend") {
            CoreAction::ParseStart
        } else if str_eq(method, "core.stopBackend") {
            match self.active {
                Some(_) => {
                    self.active = None;
                    CoreAction::Stop(RpcResponse::ok(id, obj1("stopped", JsonValue::Bool(true))))
                },
                None => CoreAction::Reply(
                    RpcResponse::ok(
                        id,
                        obj2("stopped", JsonValue::Bool(false), "reason", jstr("no active backend")),
                    ),
                ),
            }
        } else if chars_start_with_at(&chars_of(method), 0, &chars_of("dbg.")) {
            proof {
                assert(method@.skip(0) =~= method@);
            }
            match self.active {
                None => CoreAction::Reply(
                    RpcResponse::err(id, "core_error", "no active backend; call core.startBackend"),
                ),
                Some(_) => {
                    let v = chars_of(method);
                    proof {
                        reveal_strlit("dbg.");
                        assert("dbg."@.len() == 4);
                    }
                    let rest = string_of_range(&v, 4, v.len());
                    proof {
                        reveal_strlit("dbg.");
                        assert(v@.subrange(4, v@.len() as int) =~= method@.skip(4));
                    }
                    CoreAction::Forward(rest)
                },
            }
        } else {
            proof {
                assert(method@.skip(0) =~= method@);
            }
            let mut msg = string_from("unknown method ");
            append_str(&mut msg, method);
            CoreAction::Reply(RpcResponse::err(id, "unknown_method", msg.as_str()))
        }
    }

    /// Decides `core.startBackend` once its parameters were read: a reading
    /// error is answered as `core_error`; while a backend runs the request
    /// is refused; else the program to start is the given path, or the
    /// kind's program in the backend directory.
    pub fn plan_start(
        &self,
        id: u64,
        parsed: Result<StartBackendParams, String>,
        config: &CoreConfig,
        windows: bool,
    ) -> (r: StartPlan)
        ensures
            match plan_reply_spec(self@, id, parsed_view(parsed)) {
                Some(resp) => r matches StartPlan::Reply(x) && x@ == resp,
                None => r matches StartPlan::Spawn { kind, path } && parsed matches Ok(p) && kind == p.kind
                    && match p.path {
                    Some(pp) => path@ == pp@,
                    None => ends_with(path@, exe_file(p.kind, windows)) && (!starts_with(
                        config.backend_dir@,
                        "\\\\?\\"@,
                    ) ==> path_joined(config.backend_dir@, exe_file(p.kind, windows), path@)),
                },
            },
    {
        match parsed {
            Err(e) => StartPlan::Reply(RpcResponse::err(id, "core_error", e.as_str())),
            Ok(p) => match self.active {
                Some(k) => {
                    let mut msg = string_from("backend ");
                    append_str(&mut msg, k.as_str());
                    append_str(&mut msg, " is already active; call core.stopBackend first");
                    StartPlan::Reply(RpcResponse::err(id, "backend_already_active", msg.as_str()))
                },
                None => {
                    let path = match p.path {
                        Some(pp) => pp,
                        None => {
                            let name = p.kind.exe_name(windows);
                            proof {
                                lemma_exe_file_plain(p.kind, windows);
                            }
                            join_path(config.backend_dir.as_str(), name)
                        },
                    };
                    StartPlan::Spawn { kind: p.kind, path }
                },
            },
        }
    }

    /// Completes `core.startBackend` with the backend's answer to `hello`
    /// (and that answer's text for the error message), or with the reason it
    /// could not be started or asked.
    pub fn finish_start(&mut self, id: u64, kind: BackendKind, outcome: Result<(RpcResponse, String), String>) -> (r: RpcResponse)
        ensures
            (final(self)@, r@) == finish_start_spec(old(self)@, id, kind, start_outcome_view(outcome)),
    {
        match outcome {
            Err(e) => RpcResponse::err(id, "core_error", e.as_str()),
            Ok((hello, text)) => {
                if !hello.ok {
                    let mut msg = string_from("backend returned ");
                    append_str(&mut msg, text.as_str());
                    RpcResponse::err(id, "backend_hello_failed", msg.as_str())
                } else {
                    self.active = Some(kind);
                    let h = match hello.result {
                        Some(j) => j,
                        None => JsonValue::Null,
                    };
                    let mut f = new_fields();
                    push_field(&mut f, "started", JsonValue::Bool(true));
                    push_field(&mut f, "kind", jstr(kind.as_str()));
                    push_field(&mut f, "hello", h);
                    proof {
                        lemma_object_view(f);
                    }
                    RpcResponse::ok(id, JsonValue::Object(f))
                }
            },
        }
    }
}

/// Completes a forwarded request: the backend's answer under the front
/// end's request ID, or `core_error` with the reason it could not be had.
pub fn finish_forward(id: u64, outcome: Result<RpcResponse, String>) -> (r: RpcResponse)
    ensures
        match outcome {
            Ok(resp) => r@ == crate::protocol::with_id(resp@, id),
            Err(e) => r@ == err_view(id, "core_error"@, e@),
        },
{
    match outcome {
        Ok(mut resp) => {
            resp.id = id;
            resp
        },
        Err(e) => RpcResponse::err(id, "core_error", e.as_str()),
    }
}

proof fn lemma_exe_file_plain(k: BackendKind, windows: bool)
    ensures
        plain_file_name(exe_file(k, windows)),
{
    reveal_strlit("-backend");
    reveal_strlit(".exe");
    reveal_strlit("");
    reveal_strlit("winapi");
    reveal_strlit("titan");
    reveal_strlit("dbgeng");
    reveal_strlit("lldb");
    reveal_strlit("gdbremote");
    reveal_strlit("frida");
    reveal_strlit(".");
    reveal_strlit("..");
    let n = exe_file(k, windows);
    assert(n.len() > 2);
    assert forall|i: int| 0 <= i < n.len() implies n[i] != '/' && n[i] != '\\' && n[i] != ':' by {
        let a = kind_name(k);
        let b = "-backend"@;
        if i < a.len() {
            assert(n[i] == a[i]);
        } else if i < a.len() + b.len() {
            assert(n[i] == (a + b)[i]);
        } else {
            assert(n[i] == (if windows { ".exe"@ } else { ""@ })[i - a.len() - b.len()]);
        }
    }
}

proof fn lemma_core_names()
    ensures
        "core.hello"@.len() == 10,
        "core.backendStatus"@.len() == 18,
        "core.startBackend"@.len() == 17,
        "core.stopBackend"@.len() == 16,
        "core.hello"@[0] == 'c',
        "core.backendStatus"@[0] == 'c',
        "core.startBackend"@[0] == 'c',
        "core.stopBackend"@[0] == 'c',
        "dbg."@ == seq!['d', 'b', 'g', '.'],
{
    reveal_strlit("core.hello");
    reveal_strlit("core.backendStatus");
    reveal_strlit("core.startBackend");
    reveal_strlit("core.stopBackend");
    reveal_strlit("dbg.");
}

/// One backend at a time: once a backend has started, `core.startBackend`
/// is refused with `backend_already_active` and the running backend stays;
/// `core.backendStatus` reports it.
pub proof fn law_one_backend_at_a_time(
    active: Option<BackendKind>,
    id: u64,
    kind: BackendKind,
    hello: ResponseView,
    text: Seq<char>,
    id2: u64,
    parsed: Result<BackendKind, Seq<char>>,
)
    requires
        hello.ok,
        parsed is Ok,
    ensures
        ({
            let (s1, _) = finish_start_spec(active, id, kind, Ok((hello, text)));
            &&& s1 == Some(kind)
            &&& route_spec(s1, id2, "core.startBackend"@) == (s1, ActionView::ParseStart)
            &&& plan_reply_spec(s1, id2, parsed) == Some(
                err_view(id2, "backend_already_active"@, already_active_msg(kind)),
            )
            &&& route_spec(s1, id2, "core.backendStatus"@).1 == ActionView::Reply(
                ok_view(id2, status_json(Some(kind))),
            )
        }),
{
    lemma_core_names();
}

/// `core.stopBackend` leaves no backend running, and a start is then
/// planned rather than refused.
pub proof fn law_stop_then_start(active: Option<BackendKind>, id: u64, id2: u64, parsed: Result<BackendKind, Seq<char>>)
    requires
        parsed is Ok,
    ensures
        route_spec(active, id, "core.stopBackend"@).0 is None,
        plan_reply_spec(route_spec(active, id, "core.stopBackend"@).0, id2, parsed) is None,
{
    lemma_core_names();
}

/// Debug methods reach the backend without their one `dbg.` prefix (so
/// `dbg.dbg.regs` reaches it as `dbg.regs`), and nothing reaches a backend
/// when none runs.
pub proof fn law_forward_strips_prefix(active: Option<BackendKind>, id: u64, m: Seq<char>)
    ensures
        active is Some ==> route_spec(active, id, "dbg."@ + m) == (active, ActionView::Forward(m)),
        active is None ==> route_spec(active, id, "dbg."@ + m) == (
            active,
            ActionView::Reply(err_view(id, "core_error"@, no_backend_msg())),
        ),
{
    lemma_core_names();
    let full = "dbg."@ + m;
    assert(full.take(4) =~= "dbg."@);
    assert(full.skip(4) =~= m);
    assert(starts_with(full, "dbg."@));
    assert(full != "core.hello"@ && full != "core.backendStatus"@ && full != "core.startBackend"@
        && full != "core.stopBackend"@) by {
        assert(full[0] == 'd');
    }
}


/// Every answer the core gives to request `id` carries `id`: what routing
/// answers itself, the reply of a stop, a refused start, the outcome of a
/// start, and a forwarded request's answer.
pub proof fn law_answers_carry_the_id(
    active: Option<BackendKind>,
    id: u64,
    method: Seq<char>,
    parsed: Result<BackendKind, Seq<char>>,
    kind: BackendKind,
    outcome: Result<(ResponseView, Seq<char>), Seq<char>>,
    forwarded: ResponseView,
)
    ensures
        match route_spec(active, id, method).1 {
            ActionView::Reply(r) => r.id == id,
            ActionView::Stop(r) => r.id == id,
            _ => true,
        },
        plan_reply_spec(active, id, parsed) matches Some(r) ==> r.id == id,
        finish_start_spec(active, id, kind, outcome).1.id == id,
        crate::protocol::with_id(forwarded, id).id == id,
{
}

} // verus!
