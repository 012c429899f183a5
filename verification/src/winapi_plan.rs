//! How the Windows backend reads a request: which debugger operation it
//! asks for, with its arguments read from the parameters, or the answer
//! when the parameters do not do.
use vstd::prelude::*;
use crate::backend::{param_flag, param_str, param_u64, spec_param_flag, spec_param_str, spec_param_u64};
use crate::json::{Json, JsonValue, opt_get, opt_view};
use crate::protocol::{ResponseView, RpcResponse, err_view, ok_view, parse_u64ish, spec_parse_u64ish};
use crate::text::{has_char, str_eq};
use crate::winapi::{
    dll_name_for, dll_name_spec, disasm_count, parse_search_pattern, read_size, search_pattern_spec,
    symbol_name_ok, winapi_unknown_method,
};

verus! {

/// A request of the Windows backend, read.
#[derive(Debug)]
pub enum WinapiStep {
    /// Answer at once with this response.
    Reply(RpcResponse),
    Hello,
    Capabilities,
    /// Start the program at this path under the debugger.
    Launch(String),
    /// Attach to this process.
    Attach(u32),
    Detach,
    Shutdown,
    Pause,
    Go,
    /// Single-step the active thread (`stepInto`, `stepOver`, `stepOut`).
    Step,
    Regs,
    /// Set the register with this name.
    SetReg(String, u64),
    /// Read this many bytes at this address.
    ReadMem(u64, usize),
    /// Write the bytes of this hex text at this address.
    WriteMem(u64, String),
    /// Disassemble this many instructions at the address (`None`: at the
    /// instruction pointer), reading this many bytes.
    Disasm(Option<u64>, usize, usize),
    BpList,
    BpSet(u64),
    BpClearAll,
    BpClearId(u64),
    BpClearAddr(u64),
    MemoryMap,
    /// Search for the pattern between the two addresses.
    SearchMem(Vec<Option<u8>>, u64, u64),
    Threads,
    Modules,
    /// Look the symbol up in the module, under the module's DLL name.
    Resolve { module: String, symbol: String, dll: String },
}

pub enum StepView {
    Reply(ResponseView),
    Hello,
    Capabilities,
    Launch(Seq<char>),
    Attach(u32),
    Detach,
    Shutdown,
    Pause,
    Go,
    Step,
    Regs,
    SetReg(Seq<char>, u64),
    ReadMem(u64, usize),
    WriteMem(u64, Seq<char>),
    Disasm(Option<u64>, usize, usize),
    BpList,
    BpSet(u64),
    BpClearAll,
    BpClearId(u64),
    BpClearAddr(u64),
    MemoryMap,
    SearchMem(Seq<Option<u8>>, u64, u64),
    Threads,
    Modules,
    Resolve(Seq<char>, Seq<char>, Seq<char>),
}

impl View for WinapiStep {
    type V = StepView;

    open spec fn view(&self) -> StepView {
        match self {
            WinapiStep::Reply(r) => StepView::Reply(r@),
            WinapiStep::Hello => StepView::Hello,
            WinapiStep::Capabilities => StepView::Capabilities,
            WinapiStep::Launch(p) => StepView::Launch(p@),
            WinapiStep::Attach(pid) => StepView::Attach(*pid),
            WinapiStep::Detach => StepView::Detach,
            WinapiStep::Shutdown => StepView::Shutdown,
            WinapiStep::Pause => StepView::Pause,
            WinapiStep::Go => StepView::Go,
            WinapiStep::Step => StepView::Step,
            WinapiStep::Regs => StepView::Regs,
            WinapiStep::SetReg(n, v) => StepView::SetReg(n@, *v),
            WinapiStep::ReadMem(a, n) => StepView::ReadMem(*a, *n),
            WinapiStep::WriteMem(a, h) => StepView::WriteMem(*a, h@),
            WinapiStep::Disasm(a, c, n) => StepView::Disasm(*a, *c, *n),
            WinapiStep::BpList => StepView::BpList,
            WinapiStep::BpSet(a) => StepView::BpSet(*a),
            WinapiStep::BpClearAll => StepView::BpClearAll,
            WinapiStep::BpClearId(i) => StepView::BpClearId(*i),
            WinapiStep::BpClearAddr(a) => StepView::BpClearAddr(*a),
            WinapiStep::MemoryMap => StepView::MemoryMap,
            WinapiStep::SearchMem(p, s, e) => StepView::SearchMem(p@, *s, *e),
            WinapiStep::Threads => StepView::Threads,
            WinapiStep::Modules => StepView::Modules,
            WinapiStep::Resolve { module, symbol, dll } => StepView::Resolve(module@, symbol@, dll@),
        }
    }
}

pub open spec fn bad_params(msg: Seq<char>) -> StepView {
    StepView::Reply(err_view(0, "bad_params"@, msg))
}

pub open spec fn text_or_empty(o: Option<Seq<char>>) -> Seq<char> {
    match o {
        Some(s) => s,
        None => Seq::empty(),
    }
}

/// An integer parameter that is present and reads.
pub open spec fn given_u64(p: Option<Json>, key: Seq<char>) -> Option<u64> {
    match spec_param_u64(p, key) {
        Ok(Some(v)) => Some(v),
        _ => None,
    }
}

/// `setReg`: the name, then the value, which must read as an integer.
pub open spec fn set_reg_step(p: Option<Json>) -> StepView {
    match spec_param_str(p, "name"@) {
        None => bad_params("setReg requires {name,value}"@),
        Some(name) => match opt_get(p, "value"@) {
            None => bad_params("setReg requires {name,value}"@),
            Some(v) => match spec_parse_u64ish(v) {
                Ok(x) => StepView::SetReg(name, x),
                Err(e) => StepView::Reply(err_view(0, "winapi_error"@, e)),
            },
        },
    }
}

/// `readMem`: the address and the size, at most 65536 bytes.
pub open spec fn read_mem_step(p: Option<Json>) -> StepView {
    match (given_u64(p, "addr"@), given_u64(p, "size"@)) {
        (Some(a), Some(n)) => StepView::ReadMem(
            a,
            (if n < 65536 {
                n
            } else {
                65536
            }) as usize,
        ),
        _ => bad_params("readMem requires {addr,size}"@),
    }
}

/// `disasm`: the address if given, and at most 96 instructions (32 when
/// not given), reading sixteen bytes for each.
pub open spec fn disasm_step(p: Option<Json>) -> StepView {
    let c: int = match given_u64(p, "count"@) {
        Some(x) => if x < 96 {
            x as int
        } else {
            96
        },
        None => 32,
    };
    StepView::Disasm(given_u64(p, "addr"@), c as usize, (c * 16) as usize)
}

/// `bpClear`: everything, or by ID, or by address, in that order.
pub open spec fn bp_clear_step(p: Option<Json>) -> StepView {
    if spec_param_flag(p, "all"@) {
        StepView::BpClearAll
    } else {
        match given_u64(p, "id"@) {
            Some(id) => StepView::BpClearId(id),
            None => match given_u64(p, "addr"@) {
                Some(a) => StepView::BpClearAddr(a),
                None => bad_params("bpClear requires id, addr, or all"@),
            },
        }
    }
}

/// `searchMem`: the pattern, and the range (from 0 to the top by default).
pub open spec fn search_step(p: Option<Json>) -> StepView {
    match search_pattern_spec(text_or_empty(spec_param_str(p, "pattern"@))) {
        Err(e) => bad_params(e),
        Ok(pat) => StepView::SearchMem(
            pat,
            match given_u64(p, "start"@) {
                Some(s) => s,
                None => 0,
            },
            match given_u64(p, "end"@) {
                Some(e) => e,
                None => u64::MAX,
            },
        ),
    }
}

/// `resolveSymbol`: a symbol is needed and must hold no NUL character.
pub open spec fn resolve_step(p: Option<Json>) -> StepView {
    let module = text_or_empty(spec_param_str(p, "module"@));
    let symbol = text_or_empty(spec_param_str(p, "symbol"@));
    if symbol.len() == 0 {
        bad_params("resolveSymbol requires {symbol}"@)
    } else if has_char(symbol, '\0') {
        bad_params("invalid symbol name"@)
    } else {
        StepView::Resolve(module, symbol, dll_name_spec(module))
    }
}

/// How the Windows backend reads `method` with `p`.
pub open spec fn winapi_step_spec(m: Seq<char>, p: Option<Json>) -> StepView {
    if m == "hello"@ {
        StepView::Hello
    } else if m == "capabilities"@ {
        StepView::Capabilities
    } else if m == "launch"@ {
        match spec_param_str(p, "path"@) {
            Some(path) => StepView::Launch(path),
            None => bad_params("launch requires {path}"@),
        }
    } else if m == "attach"@ {
        match given_u64(p, "pid"@) {
            Some(x) => StepView::Attach(x as u32),
            None => bad_params("attach requires {pid}"@),
        }
    } else if m == "detach"@ {
        StepView::Detach
    } else if m == "shutdown"@ {
        StepView::Shutdown
    } else if m == "pause"@ {
        StepView::Pause
    } else if m == "go"@ {
        StepView::Go
    } else if m == "stepInto"@ || m == "stepOver"@ || m == "stepOut"@ {
        StepView::Step
    } else if m == "regs"@ {
        StepView::Regs
    } else if m == "setReg"@ {
        set_reg_step(p)
    } else if m == "readMem"@ {
        read_mem_step(p)
    } else if m == "writeMem"@ {
        match given_u64(p, "addr"@) {
            Some(a) => StepView::WriteMem(a, text_or_empty(spec_param_str(p, "hex"@))),
            None => bad_params("writeMem requires {addr,hex}"@),
        }
    } else if m == "disasm"@ {
        disasm_step(p)
    } else if m == "bpList"@ {
        StepView::BpList
    } else if m == "bpSet"@ {
        match given_u64(p, "addr"@) {
            Some(a) => StepView::BpSet(a),
            None => bad_params("bpSet requires {addr}"@),
        }
    } else if m == "bpClear"@ {
        bp_clear_step(p)
    } else if m == "callstack"@ || m == "processList"@ {
        StepView::Reply(ok_view(0, Json::Array(Seq::empty())))
    } else if m == "memoryMap"@ {
        StepView::MemoryMap
    } else if m == "searchMem"@ {
        search_step(p)
    } else if m == "threads"@ {
        StepView::Threads
    } else if m == "modules"@ {
        StepView::Modules
    } else if m == "resolveSymbol"@ {
        resolve_step(p)
    } else {
        StepView::Reply(err_view(0, "unknown_method"@, "winapi backend does not implement "@ + m))
    }
}

fn bad_params_reply(msg: &str) -> (r: WinapiStep)
    ensures
        r@ == bad_params(msg@),
{
    WinapiStep::Reply(RpcResponse::err(0, "bad_params", msg))
}

fn given_u64_value(p: &Option<JsonValue>, key: &str) -> (r: Option<u64>)
    ensures
        r == given_u64(opt_view(*p), key@),
{
    match param_u64(p, key) {
        Ok(Some(v)) => Some(v),
        _ => None,
    }
}

fn text_or_empty_value(o: Option<String>) -> (r: String)
    ensures
        r@ == text_or_empty(crate::backend::opt_string(o)),
{
    match o {
        Some(s) => s,
        None => String::new(),
    }
}

fn set_reg_plan(p: &Option<JsonValue>) -> (r: WinapiStep)
    ensures
        r@ == set_reg_step(opt_view(*p)),
{
    match param_str(p, "name") {
        None => bad_params_reply("setReg requires {name,value}"),
        Some(name) => {
            let v = match p {
                Some(j) => j.get("value"),
                None => None,
            };
            match v {
                None => bad_params_reply("setReg requires {name,value}"),
                Some(v) => match parse_u64ish(v) {
                    Ok(x) => WinapiStep::SetReg(name, x),
                    Err(e) => WinapiStep::Reply(RpcResponse::err(0, "winapi_error", e.as_str())),
                },
            }
        },
    }
}

fn read_mem_plan(p: &Option<JsonValue>) -> (r: WinapiStep)
    ensures
        r@ == read_mem_step(opt_view(*p)),
{
    match (given_u64_value(p, "addr"), given_u64_value(p, "size")) {
        (Some(a), Some(n)) => WinapiStep::ReadMem(a, read_size(n)),
        _ => bad_params_reply("readMem requires {addr,size}"),
    }
}

fn bp_clear_plan(p: &Option<JsonValue>) -> (r: WinapiStep)
    ensures
        r@ == bp_clear_step(opt_view(*p)),
{
    if param_flag(p, "all") {
        WinapiStep::BpClearAll
    } else {
        match given_u64_value(p, "id") {
            Some(id) => WinapiStep::BpClearId(id),
            None => match given_u64_value(p, "addr") {
                Some(a) => WinapiStep::BpClearAddr(a),
                None => bad_params_reply("bpClear requires id, addr, or all"),
            },
        }
    }
}

fn search_plan(p: &Option<JsonValue>) -> (r: WinapiStep)
    ensures
        r@ == search_step(opt_view(*p)),
{
    let text = text_or_empty_value(param_str(p, "pattern"));
    match parse_search_pattern(text.as_str()) {
        Err(e) => bad_params_reply(e.as_str()),
        Ok(pat) => {
            let start = match given_u64_value(p, "start") {
                Some(s) => s,
                None => 0,
            };
            let end = match given_u64_value(p, "end") {
                Some(e) => e,
                None => u64::MAX,
            };
            WinapiStep::SearchMem(pat, start, end)
        },
    }
}

fn resolve_plan(p: &Option<JsonValue>) -> (r: WinapiStep)
    ensures
        r@ == resolve_step(opt_view(*p)),
{
    let module = text_or_empty_value(param_str(p, "module"));
    let symbol = text_or_empty_value(param_str(p, "symbol"));
    if symbol.as_str().is_empty() {
        bad_params_reply("resolveSymbol requires {symbol}")
    } else if !symbol_name_ok(symbol.as_str()) {
        bad_params_reply("invalid symbol name")
    } else {
        let dll = dll_name_for(module.as_str());
        WinapiStep::Resolve { module, symbol, dll }
    }
}

/// Reads a request of the Windows backend.
pub fn winapi_step(method: &str, p: &Option<JsonValue>) -> (r: WinapiStep)
    ensures
        r@ == winapi_step_spec(method@, opt_view(*p)),
{
    if str_eq(method, "hello") {
        WinapiStep::Hello
    } else if str_eq(method, "capabilities") {
        WinapiStep::Capabilities
    } else if str_eq(method, "launch") {
        match param_str(p, "path") {
            Some(path) => WinapiStep::Launch(path),
            None => bad_params_reply("launch requires {path}"),
        }
    } else if str_eq(method, "attach") {
        match given_u64_value(p, "pid") {
            Some(x) => WinapiStep::Attach(x as u32),
            None => bad_params_reply("attach requires {pid}"),
        }
    } else if str_eq(method, "detach") {
        WinapiStep::Detach
    } else if str_eq(method, "shutdown") {
        WinapiStep::Shutdown
    } else if str_eq(method, "pause") {
        WinapiStep::Pause
    } else if str_eq(method, "go") {
        WinapiStep::Go
    } else if str_eq(method, "stepInto") || str_eq(method, "stepOver") || str_eq(method, "stepOut") {
        WinapiStep::Step
    } else if str_eq(method, "regs") {
        WinapiStep::Regs
    } else if str_eq(method, "setReg") {
        set_reg_plan(p)
    } else if str_eq(method, "readMem") {
        read_mem_plan(p)
    } else if str_eq(method, "writeMem") {
        match given_u64_value(p, "addr") {
            Some(a) => WinapiStep::WriteMem(a, text_or_empty_value(param_str(p, "hex"))),
            None => bad_params_reply("writeMem requires {addr,hex}"),
        }
    } else if str_eq(method, "disasm") {
        let (c, n) = disasm_count(given_u64_value(p, "count"));
        WinapiStep::Disasm(given_u64_value(p, "addr"), c, n)
    } else if str_eq(method, "bpList") {
        WinapiStep::BpList
    } else if str_eq(method, "bpSet") {
        match given_u64_value(p, "addr") {
            Some(a) => WinapiStep::BpSet(a),
            None => bad_params_reply("bpSet requires {addr}"),
        }
    } else if str_eq(method, "bpClear") {
        bp_clear_plan(p)
    } else if str_eq(method, "callstack") || str_eq(method, "processList") {
        let items: Vec<JsonValue> = Vec::new();
        proof {
            crate::json::lemma_array_view(items);
            assert(crate::json::items_view(items@) =~= Seq::<Json>::empty());
        }
        WinapiStep::Reply(RpcResponse::ok(0, JsonValue::Array(items)))
    } else if str_eq(method, "memoryMap") {
        WinapiStep::MemoryMap
    } else if str_eq(method, "searchMem") {
        search_plan(p)
    } else if str_eq(method, "threads") {
        WinapiStep::Threads
    } else if str_eq(method, "modules") {
        WinapiStep::Modules
    } else if str_eq(method, "resolveSymbol") {
        resolve_plan(p)
    } else {
        WinapiStep::Reply(winapi_unknown_method(method))
    }
}


/// A `launch` without a path and an `attach` without a process ID that
/// reads are answered with `bad_params` and nothing else: no operation is
/// read from them, so the debuggee, its handles and its breakpoints stay
/// as they were.
pub proof fn law_bad_launch_or_attach_is_only_answered(p: Option<Json>)
    ensures
        spec_param_str(p, "path"@) is None ==> winapi_step_spec("launch"@, p) == bad_params(
            "launch requires {path}"@,
        ),
        given_u64(p, "pid"@) is None ==> winapi_step_spec("attach"@, p) == bad_params("attach requires {pid}"@),
{
    reveal_strlit("hello");
    reveal_strlit("capabilities");
    reveal_strlit("launch");
    reveal_strlit("attach");
    assert("launch"@ != "hello"@ && "launch"@ != "capabilities"@) by {
        assert("launch"@.len() != "hello"@.len());
        assert("launch"@[0] != "capabilities"@[0]);
    }
    assert("attach"@ != "hello"@ && "attach"@ != "capabilities"@ && "attach"@ != "launch"@) by {
        assert("attach"@[0] != "launch"@[0]);
        assert("attach"@.len() != "hello"@.len());
        assert("attach"@[0] != "capabilities"@[0]);
    }
}

} // verus!
