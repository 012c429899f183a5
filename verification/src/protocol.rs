//! The newline-delimited JSON protocol between front ends, the core and the
//! backends: request, response and event frames, and the records that
//! backends answer with.
use vstd::prelude::*;
use crate::json::{
    Json, JsonValue, fields_view, items_view, json_as_u64, lemma_array_view, lemma_object_view,
    push_field, jstr, new_fields,
};
use crate::num::{hex_u64, parse_u64_str, spec_hex_u64, spec_parse_u64_str};
use crate::text::string_from;

verus! {

pub type RequestId = u64;

/// A request frame: `{"id", "method", "params"?}`.
#[derive(Debug)]
pub struct RpcRequest {
    pub id: RequestId,
    pub method: String,
    pub params: Option<JsonValue>,
}

/// The error of a failed response.
#[derive(Debug)]
pub struct RpcError {
    pub code: String,
    pub message: String,
}

/// A response frame: `{"id", "ok", "result"?, "error"?}`.
#[derive(Debug)]
pub struct RpcResponse {
    pub id: RequestId,
    pub ok: bool,
    pub result: Option<JsonValue>,
    pub error: Option<RpcError>,
}

/// An event frame: `{"event", "data"?}`.
#[derive(Debug)]
pub struct RpcEvent {
    pub event: String,
    pub data: Option<JsonValue>,
}

/// Any frame on the wire.
#[derive(Debug)]
pub enum WireFrame {
    Request(RpcRequest),
    Response(RpcResponse),
    Event(RpcEvent),
}

/// The mathematical view of a response.
pub struct ResponseView {
    pub id: u64,
    pub ok: bool,
    pub result: Option<Json>,
    /// The error code and message.
    pub error: Option<(Seq<char>, Seq<char>)>,
}

impl View for RpcResponse {
    type V = ResponseView;

    open spec fn view(&self) -> ResponseView {
        ResponseView {
            id: self.id,
            ok: self.ok,
            result: match self.result {
                Some(r) => Some(r@),
                None => None,
            },
            error: match self.error {
                Some(e) => Some((e.code@, e.message@)),
                None => None,
            },
        }
    }
}

/// A successful response carrying `result`.
pub open spec fn ok_view(id: u64, result: Json) -> ResponseView {
    ResponseView { id, ok: true, result: Some(result), error: None }
}

/// A failed response with an error code and message.
pub open spec fn err_view(id: u64, code: Seq<char>, message: Seq<char>) -> ResponseView {
    ResponseView { id, ok: false, result: None, error: Some((code, message)) }
}

/// The same response under another request ID.
pub open spec fn with_id(r: ResponseView, id: u64) -> ResponseView {
    ResponseView { id, ..r }
}

impl RpcResponse {
    /// A successful response.
    pub fn ok(id: RequestId, result: JsonValue) -> (r: RpcResponse)
        ensures
            r@ == ok_view(id, result@),
    {
        RpcResponse { id, ok: true, result: Some(result), error: None }
    }

    /// A successful response whose result is `null`.
    pub fn ok_null(id: RequestId) -> (r: RpcResponse)
        ensures
            r@ == ok_view(id, Json::Null),
    {
        RpcResponse { id, ok: true, result: Some(JsonValue::Null), error: None }
    }

    /// A failed response.
    pub fn err(id: RequestId, code: &str, message: &str) -> (r: RpcResponse)
        ensures
            r@ == err_view(id, code@, message@),
    {
        RpcResponse {
            id,
            ok: false,
            result: None,
            error: Some(RpcError { code: string_from(code), message: string_from(message) }),
        }
    }
}

/// What `parse_u64ish` gives for a JSON value.
pub open spec fn spec_parse_u64ish(j: Json) -> Result<u64, Seq<char>> {
    match j {
        Json::UInt(_) | Json::Int(_) | Json::Float(_) => match json_as_u64(j) {
            Some(v) => Ok(v),
            None => Err("number is not u64"@),
        },
        Json::Str(s) => spec_parse_u64_str(s),
        _ => Err("expected integer or string"@),
    }
}

/// Reads an integer that is given either as a JSON number or as text
/// (decimal, or hexadecimal after `0x`).
pub fn parse_u64ish(value: &JsonValue) -> (r: Result<u64, String>)
    ensures
        match spec_parse_u64ish(value@) {
            Ok(v) => r == Ok::<u64, String>(v),
            Err(m) => r matches Err(e) && e@ == m,
        },
{
    match value {
        JsonValue::UInt(_) | JsonValue::Int(_) | JsonValue::Float(_) => match value.as_u64() {
            Some(v) => Ok(v),
            None => Err(string_from("number is not u64")),
        },
        JsonValue::Str(s) => parse_u64_str(s.as_str()),
        _ => Err(string_from("expected integer or string")),
    }
}

// ─── Records ────────────────────────────────────────────────────────────

/// A JSON string, or `null` for `None`.
pub open spec fn opt_str_json(o: Option<Seq<char>>) -> Json {
    match o {
        Some(s) => Json::Str(s),
        None => Json::Null,
    }
}

pub open spec fn opt_string_view(o: Option<String>) -> Option<Seq<char>> {
    match o {
        Some(s) => Some(s@),
        None => None,
    }
}

/// A JSON array of strings.
pub open spec fn strs_json(v: Seq<Seq<char>>) -> Json {
    Json::Array(v.map_values(|s: Seq<char>| Json::Str(s)))
}

pub open spec fn strings_view(v: Seq<String>) -> Seq<Seq<char>> {
    v.map_values(|s: String| s@)
}

/// A JSON integer for a signed value.
pub open spec fn int_json(i: int) -> Json {
    if i >= 0 {
        Json::UInt(i as u64)
    } else {
        Json::Int(i as i64)
    }
}

/// The JSON integer for a signed value.
pub fn jint(i: i64) -> (r: JsonValue)
    ensures
        r@ == int_json(i as int),
{
    if i >= 0 {
        JsonValue::UInt(i as u64)
    } else {
        JsonValue::Int(i)
    }
}

/// A JSON string or `null`.
pub fn opt_str_value(o: &Option<String>) -> (r: JsonValue)
    ensures
        r@ == opt_str_json(opt_string_view(*o)),
{
    match o {
        Some(s) => JsonValue::Str(s.clone()),
        None => JsonValue::Null,
    }
}

/// A JSON array holding the given strings.
pub fn strings_value(v: &Vec<String>) -> (r: JsonValue)
    ensures
        r@ == strs_json(strings_view(v@)),
{
    let mut items: Vec<JsonValue> = Vec::new();
    let mut i: usize = 0;
    while i < v.len()
        invariant
            i <= v@.len(),
            items@.len() == i,
            forall|k: int| 0 <= k < i ==> (#[trigger] items@[k])@ == Json::Str(v@[k]@),
        decreases v@.len() - i,
    {
        items.push(JsonValue::Str(v[i].clone()));
        i = i + 1;
    }
    assert(items_view(items@) =~= strings_view(v@).map_values(|s: Seq<char>| Json::Str(s)));
    proof {
        lemma_array_view(items);
    }
    JsonValue::Array(items)
}

/// What a backend says of itself.
#[derive(Debug)]
pub struct BackendCapabilities {
    pub name: String,
    pub version: String,
    pub backend_kind: String,
    pub supported_arches: Vec<String>,
    pub features: Vec<String>,
}

impl BackendCapabilities {
    pub open spec fn json(&self) -> Json {
        Json::Object(
            Seq::empty().push(("name"@, Json::Str(self.name@))).push(("version"@, Json::Str(self.version@))).push(("backend_kind"@, Json::Str(self.backend_kind@))).push(("supported_arches"@, strs_json(strings_view(self.supported_arches@)))).push(("features"@, strs_json(strings_view(self.features@)))),
        )
    }

    pub fn to_json(&self) -> (r: JsonValue)
        ensures
            r@ == self.json(),
    {
        let mut f = new_fields();
        push_field(&mut f, "name", JsonValue::Str(self.name.clone()));
        push_field(&mut f, "version", JsonValue::Str(self.version.clone()));
        push_field(&mut f, "backend_kind", JsonValue::Str(self.backend_kind.clone()));
        push_field(&mut f, "supported_arches", strings_value(&self.supported_arches));
        push_field(&mut f, "features", strings_value(&self.features));
        proof {
            lemma_object_view(f);
        }
        JsonValue::Object(f)
    }
}

/// The registers of a thread, by name.
#[derive(Debug)]
pub struct RegDump {
    pub arch: String,
    pub registers: Vec<(String, String)>,
}

pub open spec fn regs_view(regs: Seq<(String, String)>) -> Seq<(Seq<char>, Seq<char>)> {
    regs.map_values(|p: (String, String)| (p.0@, p.1@))
}

/// The JSON object mapping each register name to its value.
pub open spec fn regs_json(regs: Seq<(Seq<char>, Seq<char>)>) -> Json {
    Json::Object(regs.map_values(|p: (Seq<char>, Seq<char>)| (p.0, Json::Str(p.1))))
}

/// A register file under construction.
pub fn new_regs() -> (r: Vec<(String, String)>)
    ensures
        regs_view(r@) == Seq::<(Seq<char>, Seq<char>)>::empty(),
{
    let r: Vec<(String, String)> = Vec::new();
    assert(regs_view(r@) =~= Seq::<(Seq<char>, Seq<char>)>::empty());
    r
}

/// Adds a register and its value to a register file under construction.
pub fn push_reg(regs: &mut Vec<(String, String)>, name: &str, value: String)
    ensures
        regs_view(final(regs)@) == regs_view(old(regs)@).push((name@, value@)),
{
    let n = string_from(name);
    regs.push((n, value));
    assert(regs_view(regs@) =~= regs_view(old(regs)@).push((name@, regs@.last().1@)));
}

impl RegDump {
    pub open spec fn json(&self) -> Json {
        Json::Object(
            Seq::empty().push(("arch"@, Json::Str(self.arch@))).push(("registers"@, regs_json(regs_view(self.registers@)))),
        )
    }

    pub fn to_json(&self) -> (r: JsonValue)
        ensures
            r@ == self.json(),
    {
        let mut regs: Vec<(String, JsonValue)> = Vec::new();
        let mut i: usize = 0;
        while i < self.registers.len()
            invariant
                i <= self.registers@.len(),
                regs@.len() == i,
                forall|k: int|
                    0 <= k < i ==> (#[trigger] regs@[k]).0@ == self.registers@[k].0@ && regs@[k].1@
                        == Json::Str(self.registers@[k].1@),
            decreases self.registers@.len() - i,
        {
            let k = self.registers[i].0.clone();
            let v = self.registers[i].1.clone();
            regs.push((k, JsonValue::Str(v)));
            i = i + 1;
        }
        assert(fields_view(regs@) =~= regs_view(self.registers@).map_values(
            |p: (Seq<char>, Seq<char>)| (p.0, Json::Str(p.1)),
        ));
        proof {
            lemma_object_view(regs);
        }
        let mut f = new_fields();
        push_field(&mut f, "arch", JsonValue::Str(self.arch.clone()));
        push_field(&mut f, "registers", JsonValue::Object(regs));
        proof {
            lemma_object_view(f);
        }
        JsonValue::Object(f)
    }
}

/// A block of target memory, as hexadecimal text.
#[derive(Debug)]
pub struct MemoryBlock {
    pub addr: String,
    pub size: u64,
    pub hex: String,
}

impl MemoryBlock {
    pub open spec fn json(&self) -> Json {
        Json::Object(
            Seq::empty().push(("addr"@, Json::Str(self.addr@))).push(("size"@, Json::UInt(self.size))).push(("hex"@, Json::Str(self.hex@))),
        )
    }

    pub fn to_json(&self) -> (r: JsonValue)
        ensures
            r@ == self.json(),
    {
        let mut f = new_fields();
        push_field(&mut f, "addr", JsonValue::Str(self.addr.clone()));
        push_field(&mut f, "size", JsonValue::UInt(self.size));
        push_field(&mut f, "hex", JsonValue::Str(self.hex.clone()));
        proof {
            lemma_object_view(f);
        }
        JsonValue::Object(f)
    }
}

/// One disassembled instruction.
#[derive(Debug)]
pub struct DisasmLine {
    pub addr: String,
    pub bytes: String,
    pub text: String,
}

pub open spec fn disasm_json(addr: Seq<char>, bytes: Seq<char>, text: Seq<char>) -> Json {
    Json::Object(
        Seq::empty().push(("addr"@, Json::Str(addr))).push(("bytes"@, Json::Str(bytes))).push(("text"@, Json::Str(text))),
    )
}

impl DisasmLine {
    pub open spec fn json(&self) -> Json {
        disasm_json(self.addr@, self.bytes@, self.text@)
    }

    pub fn to_json(&self) -> (r: JsonValue)
        ensures
            r@ == self.json(),
    {
        let mut f = new_fields();
        push_field(&mut f, "addr", JsonValue::Str(self.addr.clone()));
        push_field(&mut f, "bytes", JsonValue::Str(self.bytes.clone()));
        push_field(&mut f, "text", JsonValue::Str(self.text.clone()));
        proof {
            lemma_object_view(f);
        }
        JsonValue::Object(f)
    }
}

/// A thread of the target.
#[derive(Debug)]
pub struct ThreadInfo {
    pub id: String,
    pub name: Option<String>,
    pub pc: Option<String>,
    pub active: bool,
}

pub open spec fn thread_json(id: Seq<char>, name: Option<Seq<char>>, pc: Option<Seq<char>>, active: bool) -> Json {
    Json::Object(
        Seq::empty().push(("id"@, Json::Str(id))).push(("name"@, opt_str_json(name))).push(("pc"@, opt_str_json(pc))).push(("active"@, Json::Bool(active))),
    )
}

impl ThreadInfo {
    pub open spec fn json(&self) -> Json {
        thread_json(self.id@, opt_string_view(self.name), opt_string_view(self.pc), self.active)
    }

    pub fn to_json(&self) -> (r: JsonValue)
        ensures
            r@ == self.json(),
    {
        let mut f = new_fields();
        push_field(&mut f, "id", JsonValue::Str(self.id.clone()));
        push_field(&mut f, "name", opt_str_value(&self.name));
        push_field(&mut f, "pc", opt_str_value(&self.pc));
        push_field(&mut f, "active", JsonValue::Bool(self.active));
        proof {
            lemma_object_view(f);
        }
        JsonValue::Object(f)
    }
}

/// A module loaded in the target.
#[derive(Debug)]
pub struct ModuleInfo {
    pub name: String,
    pub base: String,
    pub size: u64,
    pub path: Option<String>,
}

pub open spec fn module_json(name: Seq<char>, base: Seq<char>, size: u64, path: Option<Seq<char>>) -> Json {
    Json::Object(
        Seq::empty().push(("name"@, Json::Str(name))).push(("base"@, Json::Str(base))).push(("size"@, Json::UInt(size))).push(("path"@, opt_str_json(path))),
    )
}

impl ModuleInfo {
    pub open spec fn json(&self) -> Json {
        module_json(self.name@, self.base@, self.size, opt_string_view(self.path))
    }

    pub fn to_json(&self) -> (r: JsonValue)
        ensures
            r@ == self.json(),
    {
        let mut f = new_fields();
        push_field(&mut f, "name", JsonValue::Str(self.name.clone()));
        push_field(&mut f, "base", JsonValue::Str(self.base.clone()));
        push_field(&mut f, "size", JsonValue::UInt(self.size));
        push_field(&mut f, "path", opt_str_value(&self.path));
        proof {
            lemma_object_view(f);
        }
        JsonValue::Object(f)
    }
}

/// Members for the optional text fields that are left out when absent.
pub open spec fn opt_member(key: Seq<char>, o: Option<Seq<char>>) -> Seq<(Seq<char>, Json)> {
    match o {
        Some(s) => seq![(key, Json::Str(s))],
        None => seq![],
    }
}

/// One frame of a call stack.
#[derive(Debug)]
pub struct StackFrame {
    pub addr: String,
    pub symbol: Option<String>,
    pub module: Option<String>,
    pub source: Option<String>,
}

pub open spec fn frame_json(addr: Seq<char>, symbol: Option<Seq<char>>, module: Option<Seq<char>>, source: Option<Seq<char>>) -> Json {
    Json::Object(
        seq![("addr"@, Json::Str(addr))] + opt_member("symbol"@, symbol) + opt_member(
            "module"@,
            module,
        ) + opt_member("source"@, source),
    )
}

/// Appends a member for an optional text field when it is present.
fn push_opt_field(f: &mut Vec<(String, JsonValue)>, key: &str, o: &Option<String>)
    ensures
        fields_view(final(f)@) == fields_view(old(f)@) + opt_member(key@, opt_string_view(*o)),
{
    match o {
        Some(s) => {
            push_field(f, key, JsonValue::Str(s.clone()));
            assert(fields_view(f@) =~= fields_view(old(f)@) + opt_member(
                key@,
                opt_string_view(*o),
            ));
        },
        None => {
            assert(fields_view(f@) =~= fields_view(old(f)@) + opt_member(
                key@,
                opt_string_view(*o),
            ));
        },
    }
}

impl StackFrame {
    pub open spec fn json(&self) -> Json {
        frame_json(
            self.addr@,
            opt_string_view(self.symbol),
            opt_string_view(self.module),
            opt_string_view(self.source),
        )
    }

    pub fn to_json(&self) -> (r: JsonValue)
        ensures
            r@ == self.json(),
    {
        let mut f = new_fields();
        push_field(&mut f, "addr", JsonValue::Str(self.addr.clone()));
        push_opt_field(&mut f, "symbol", &self.symbol);
        push_opt_field(&mut f, "module", &self.module);
        push_opt_field(&mut f, "source", &self.source);
        proof {
            lemma_object_view(f);
        }
        JsonValue::Object(f)
    }
}

/// A watchpoint.
#[derive(Debug)]
pub struct WatchpointInfo {
    pub id: u64,
    pub addr: String,
    pub size: u64,
    pub kind: String,
    pub enabled: bool,
}

pub open spec fn watchpoint_json(id: u64, addr: Seq<char>, size: u64, kind: Seq<char>, enabled: bool) -> Json {
    Json::Object(
        Seq::empty().push(("id"@, Json::UInt(id))).push(("addr"@, Json::Str(addr))).push(("size"@, Json::UInt(size))).push(("kind"@, Json::Str(kind))).push(("enabled"@, Json::Bool(enabled))),
    )
}

impl WatchpointInfo {
    pub open spec fn json(&self) -> Json {
        watchpoint_json(self.id, self.addr@, self.size, self.kind@, self.enabled)
    }

    pub fn to_json(&self) -> (r: JsonValue)
        ensures
            r@ == self.json(),
    {
        let mut f = new_fields();
        push_field(&mut f, "id", JsonValue::UInt(self.id));
        push_field(&mut f, "addr", JsonValue::Str(self.addr.clone()));
        push_field(&mut f, "size", JsonValue::UInt(self.size));
        push_field(&mut f, "kind", JsonValue::Str(self.kind.clone()));
        push_field(&mut f, "enabled", JsonValue::Bool(self.enabled));
        proof {
            lemma_object_view(f);
        }
        JsonValue::Object(f)
    }
}

/// A process that could be debugged.
#[derive(Debug)]
pub struct ProcessListEntry {
    pub pid: u64,
    pub name: String,
    pub arch: String,
    pub description: Option<String>,
}

pub open spec fn process_json(pid: u64, name: Seq<char>, arch: Seq<char>, description: Option<Seq<char>>) -> Json {
    Json::Object(
        Seq::empty().push(("pid"@, Json::UInt(pid))).push(("name"@, Json::Str(name))).push(("arch"@, Json::Str(arch)))
            + opt_member("description"@, description),
    )
}

impl ProcessListEntry {
    pub open spec fn json(&self) -> Json {
        process_json(self.pid, self.name@, self.arch@, opt_string_view(self.description))
    }

    pub fn to_json(&self) -> (r: JsonValue)
        ensures
            r@ == self.json(),
    {
        let mut f = new_fields();
        push_field(&mut f, "pid", JsonValue::UInt(self.pid));
        push_field(&mut f, "name", JsonValue::Str(self.name.clone()));
        push_field(&mut f, "arch", JsonValue::Str(self.arch.clone()));
        push_opt_field(&mut f, "description", &self.description);
        proof {
            lemma_object_view(f);
        }
        JsonValue::Object(f)
    }
}

/// A breakpoint as `bpList` reports it.
#[derive(Debug)]
pub struct BreakpointRecord {
    pub id: u64,
    pub addr: String,
    pub enabled: bool,
    pub hit_count: u64,
    pub kind: String,
}

pub open spec fn breakpoint_json(id: u64, addr: Seq<char>, enabled: bool, hit_count: u64, kind: Seq<char>) -> Json {
    Json::Object(
        Seq::empty().push(("id"@, Json::UInt(id))).push(("addr"@, Json::Str(addr))).push(("enabled"@, Json::Bool(enabled))).push(("hit_count"@, Json::UInt(hit_count))).push(("kind"@, Json::Str(kind))),
    )
}

impl BreakpointRecord {
    pub open spec fn json(&self) -> Json {
        breakpoint_json(self.id, self.addr@, self.enabled, self.hit_count, self.kind@)
    }

    pub fn to_json(&self) -> (r: JsonValue)
        ensures
            r@ == self.json(),
    {
        let mut f = new_fields();
        push_field(&mut f, "id", JsonValue::UInt(self.id));
        push_field(&mut f, "addr", JsonValue::Str(self.addr.clone()));
        push_field(&mut f, "enabled", JsonValue::Bool(self.enabled));
        push_field(&mut f, "hit_count", JsonValue::UInt(self.hit_count));
        push_field(&mut f, "kind", JsonValue::Str(self.kind.clone()));
        proof {
            lemma_object_view(f);
        }
        JsonValue::Object(f)
    }
}

/// An event that a backend reports without being asked.
#[derive(Debug)]
pub enum BackendEvent {
    Breakpoint { id: u64, addr: String, tid: String },
    Exception { addr: String, code: u64, tid: String },
    Exited { exit_code: i32 },
    ModuleLoad { name: String, base: String, size: u64 },
    ModuleUnload { name: String },
    ThreadCreate { tid: String },
    ThreadExit { tid: String, exit_code: i32 },
}

impl BackendEvent {
    /// The event as JSON: its kind in snake case under `kind`, then its fields.
    pub open spec fn json(&self) -> Json {
        match self {
            BackendEvent::Breakpoint { id, addr, tid } => Json::Object(
                Seq::empty().push(("kind"@, Json::Str("breakpoint"@))).push(("id"@, Json::UInt(*id))).push(("addr"@, Json::Str(addr@))).push(("tid"@, Json::Str(tid@))),
            ),
            BackendEvent::Exception { addr, code, tid } => Json::Object(
                Seq::empty().push(("kind"@, Json::Str("exception"@))).push(("addr"@, Json::Str(addr@))).push(("code"@, Json::UInt(*code))).push(("tid"@, Json::Str(tid@))),
            ),
            BackendEvent::Exited { exit_code } => Json::Object(
                Seq::empty().push(("kind"@, Json::Str("exited"@))).push(("exit_code"@, int_json(*exit_code as int))),
            ),
            BackendEvent::ModuleLoad { name, base, size } => Json::Object(
                Seq::empty().push(("kind"@, Json::Str("module_load"@))).push(("name"@, Json::Str(name@))).push(("base"@, Json::Str(base@))).push(("size"@, Json::UInt(*size))),
            ),
            BackendEvent::ModuleUnload { name } => Json::Object(
                Seq::empty().push(("kind"@, Json::Str("module_unload"@))).push(("name"@, Json::Str(name@))),
            ),
            BackendEvent::ThreadCreate { tid } => Json::Object(
                Seq::empty().push(("kind"@, Json::Str("thread_create"@))).push(("tid"@, Json::Str(tid@))),
            ),
            BackendEvent::ThreadExit { tid, exit_code } => Json::Object(
                Seq::empty().push(("kind"@, Json::Str("thread_exit"@))).push(("tid"@, Json::Str(tid@))).push(("exit_code"@, int_json(*exit_code as int))),
            ),
        }
    }

    pub fn to_json(&self) -> (r: JsonValue)
        ensures
            r@ == self.json(),
    {
        let mut f = new_fields();
        match self {
            BackendEvent::Breakpoint { id, addr, tid } => {
                push_field(&mut f, "kind", jstr("breakpoint"));
                push_field(&mut f, "id", JsonValue::UInt(*id));
                push_field(&mut f, "addr", JsonValue::Str(addr.clone()));
                push_field(&mut f, "tid", JsonValue::Str(tid.clone()));
            },
            BackendEvent::Exception { addr, code, tid } => {
                push_field(&mut f, "kind", jstr("exception"));
                push_field(&mut f, "addr", JsonValue::Str(addr.clone()));
                push_field(&mut f, "code", JsonValue::UInt(*code));
                push_field(&mut f, "tid", JsonValue::Str(tid.clone()));
            },
            BackendEvent::Exited { exit_code } => {
                push_field(&mut f, "kind", jstr("exited"));
                push_field(&mut f, "exit_code", jint(*exit_code as i64));
            },
            BackendEvent::ModuleLoad { name, base, size } => {
                push_field(&mut f, "kind", jstr("module_load"));
                push_field(&mut f, "name", JsonValue::Str(name.clone()));
                push_field(&mut f, "base", JsonValue::Str(base.clone()));
                push_field(&mut f, "size", JsonValue::UInt(*size));
            },
            BackendEvent::ModuleUnload { name } => {
                push_field(&mut f, "kind", jstr("module_unload"));
                push_field(&mut f, "name", JsonValue::Str(name.clone()));
            },
            BackendEvent::ThreadCreate { tid } => {
                push_field(&mut f, "kind", jstr("thread_create"));
                push_field(&mut f, "tid", JsonValue::Str(tid.clone()));
            },
            BackendEvent::ThreadExit { tid, exit_code } => {
                push_field(&mut f, "kind", jstr("thread_exit"));
                push_field(&mut f, "tid", JsonValue::Str(tid.clone()));
                push_field(&mut f, "exit_code", jint(*exit_code as i64));
            },
        }
        proof {
            lemma_object_view(f);
        }
        JsonValue::Object(f)
    }
}

/// `hex_u64` as a JSON string.
pub fn jhex(v: u64) -> (r: JsonValue)
    ensures
        r@ == Json::Str(spec_hex_u64(v)),
{
    JsonValue::Str(hex_u64(v))
}

} // verus!
