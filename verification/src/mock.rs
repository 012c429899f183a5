//! The simulated backends (GDB remote stub, LLDB, DbgEng): a state machine
//! over the target's program counter, stack pointer, breakpoints and
//! watchpoints that answers every debug method of the protocol.
use std::collections::HashMap;
use vstd::prelude::*;
use vstd::std_specs::iter::IteratorSpec;
use crate::backend::{param_flag, param_str, param_u64, spec_param_flag, spec_param_str, spec_param_u64};
use crate::json::{Json, JsonValue, flag_json, flag_value, fields_view, items_view, lemma_array_view, lemma_object_view, new_fields, new_items, opt_get, opt_view, push_field, push_item, jstr};
use crate::mock_data::{
    MockProfile, callstack_json, callstack_value, modules_json, modules_value, opt_seq, processes_json,
    processes_value, registers_of, registers_value, symbol_of, symbol_value, threads_json,
    threads_value, word_insn, word_insn_value, x64_insn, x64_insn_at,
};
use crate::num::{hex_fixed, push_hex_fixed, spec_hex_u64};
use crate::protocol::{
    BackendCapabilities, BreakpointRecord, DisasmLine, MemoryBlock, RegDump, ResponseView, RpcResponse,
    WatchpointInfo, breakpoint_json, disasm_json, err_view, ok_view, parse_u64ish, regs_json,
    regs_view, spec_parse_u64ish, strs_json, strings_view, watchpoint_json, jhex,
};
use crate::winapi::lists_once;
use crate::text::{
    append_str, chars_of, lowercase, str_eq, string_from, string_of, to_lowercase,
    trim_end_matches, trim_end_matches_chars,
};

verus! {

broadcast use vstd::std_specs::hash::group_hash_axioms;

/// The version that the simulated backends report.
pub const BACKEND_VERSION: &'static str = "0.1.0";

/// A breakpoint of a simulated backend.
#[derive(Debug)]
pub struct Breakpoint {
    pub id: u64,
    pub addr: u64,
    pub enabled: bool,
    pub hit_count: u64,
    pub kind: String,
}

/// A watchpoint of a simulated backend.
#[derive(Debug)]
pub struct Watchpoint {
    pub id: u64,
    pub addr: u64,
    pub size: u64,
    pub kind: String,
    pub enabled: bool,
}

pub struct BpView {
    pub id: u64,
    pub addr: u64,
    pub enabled: bool,
    pub hit_count: u64,
    pub kind: Seq<char>,
}

pub struct WpView {
    pub id: u64,
    pub addr: u64,
    pub size: u64,
    pub kind: Seq<char>,
    pub enabled: bool,
}

/// The mathematical state of a simulated backend.
pub struct MockState {
    pub profile: MockProfile,
    pub attached_pid: Option<u64>,
    pub launched_path: Option<Seq<char>>,
    pub pc: u64,
    pub sp: u64,
    pub bp_next: u64,
    pub breakpoints: Map<u64, BpView>,
    pub wp_next: u64,
    pub watchpoints: Seq<WpView>,
    pub target_arch: Seq<char>,
}

/// A simulated backend; its breakpoints are kept by ID.
#[derive(Debug)]
pub struct MockBackend {
    profile: MockProfile,
    attached_pid: Option<u64>,
    launched_path: Option<String>,
    pc: u64,
    sp: u64,
    bp_next: u64,
    breakpoints: HashMap<u64, Breakpoint>,
    wp_next: u64,
    watchpoints: Vec<Watchpoint>,
    target_arch: String,
}

pub open spec fn bp_view(b: Breakpoint) -> BpView {
    BpView { id: b.id, addr: b.addr, enabled: b.enabled, hit_count: b.hit_count, kind: b.kind@ }
}

pub open spec fn wp_view(w: Watchpoint) -> WpView {
    WpView { id: w.id, addr: w.addr, size: w.size, kind: w.kind@, enabled: w.enabled }
}

impl View for MockBackend {
    type V = MockState;

    closed spec fn view(&self) -> MockState {
        MockState {
            profile: self.profile,
            attached_pid: self.attached_pid,
            launched_path: opt_seq(self.launched_path),
            pc: self.pc,
            sp: self.sp,
            bp_next: self.bp_next,
            breakpoints: self.breakpoints@.map_values(|b: Breakpoint| bp_view(b)),
            wp_next: self.wp_next,
            watchpoints: self.watchpoints@.map_values(|w: Watchpoint| wp_view(w)),
            target_arch: self.target_arch@,
        }
    }
}

// ─── What each profile is ───────────────────────────────────────────────

pub open spec fn backend_kind(p: MockProfile) -> Seq<char> {
    match p {
        MockProfile::GdbRemote => "gdbremote"@,
        MockProfile::Lldb => "lldb"@,
        MockProfile::DbgEng => "dbgeng"@,
    }
}

pub fn backend_kind_str(p: MockProfile) -> (r: &'static str)
    ensures
        r@ == backend_kind(p),
{
    match p {
        MockProfile::GdbRemote => "gdbremote",
        MockProfile::Lldb => "lldb",
        MockProfile::DbgEng => "dbgeng",
    }
}

pub open spec fn backend_name(p: MockProfile) -> Seq<char> {
    match p {
        MockProfile::GdbRemote => "HYWDbg GDB Remote Backend"@,
        MockProfile::Lldb => "HYWDbg LLDB Backend"@,
        MockProfile::DbgEng => "HYWDbg DbgEng Backend"@,
    }
}

fn backend_name_str(p: MockProfile) -> (r: &'static str)
    ensures
        r@ == backend_name(p),
{
    match p {
        MockProfile::GdbRemote => "HYWDbg GDB Remote Backend",
        MockProfile::Lldb => "HYWDbg LLDB Backend",
        MockProfile::DbgEng => "HYWDbg DbgEng Backend",
    }
}

pub open spec fn hello_note(p: MockProfile) -> Seq<char> {
    match p {
        MockProfile::GdbRemote => "GDB Remote Serial Protocol adapter; connect via TCP host:port"@,
        MockProfile::Lldb => "LLDB SB API backend adapter; lldb.framework integration wired here"@,
        MockProfile::DbgEng => "DbgEng (dbgeng.dll) backend adapter; IDebugClient/IDebugControl wired here"@,
    }
}

fn hello_note_str(p: MockProfile) -> (r: &'static str)
    ensures
        r@ == hello_note(p),
{
    match p {
        MockProfile::GdbRemote => "GDB Remote Serial Protocol adapter; connect via TCP host:port",
        MockProfile::Lldb => "LLDB SB API backend adapter; lldb.framework integration wired here",
        MockProfile::DbgEng => "DbgEng (dbgeng.dll) backend adapter; IDebugClient/IDebugControl wired here",
    }
}

pub open spec fn supported_arches(p: MockProfile) -> Seq<Seq<char>> {
    match p {
        MockProfile::GdbRemote => Seq::empty().push("x64"@).push("x86"@).push("arm64"@).push(
            "arm"@,
        ).push("riscv64"@).push("mips"@).push("mips64"@).push("powerpc"@),
        MockProfile::Lldb => Seq::empty().push("arm64"@).push("arm64e"@).push("x64"@).push(
            "x86"@,
        ).push("arm"@).push("riscv64"@),
        MockProfile::DbgEng => Seq::empty().push("x64"@).push("x86"@).push("arm64"@).push("arm"@),
    }
}

pub open spec fn backend_features(p: MockProfile) -> Seq<Seq<char>> {
    match p {
        MockProfile::GdbRemote => Seq::empty().push("attach"@).push("launch"@).push("remote"@).push(
            "gdb-packets"@,
        ).push("breakpoints"@).push("watchpoints"@).push("memory"@).push("registers"@).push(
            "threads"@,
        ).push("modules"@).push("callstack"@).push("disasm"@).push("processList"@),
        MockProfile::Lldb => Seq::empty().push("launch"@).push("attach"@).push("remote"@).push(
            "scripting"@,
        ).push("breakpoints"@).push("watchpoints"@).push("memory"@).push("registers"@).push(
            "threads"@,
        ).push("modules"@).push("callstack"@).push("disasm"@).push("processList"@).push(
            "expression-eval"@,
        ),
        MockProfile::DbgEng => Seq::empty().push("launch"@).push("attach"@).push("kernel-debug"@).push(
            "minidump"@,
        ).push("windbg-command"@).push("symbols"@).push("breakpoints"@).push("watchpoints"@).push(
            "memory"@,
        ).push("registers"@).push("threads"@).push("modules"@).push("callstack"@).push(
            "disasm"@,
        ).push("processList"@),
    }
}

fn push_string(v: &mut Vec<String>, s: &str)
    ensures
        strings_view(final(v)@) == strings_view(old(v)@).push(s@),
{
    v.push(string_from(s));
    assert(strings_view(v@) =~= strings_view(old(v)@).push(s@));
}

fn new_strings() -> (v: Vec<String>)
    ensures
        strings_view(v@) == Seq::<Seq<char>>::empty(),
{
    let v: Vec<String> = Vec::new();
    assert(strings_view(v@) =~= Seq::<Seq<char>>::empty());
    v
}

fn supported_arches_value(p: MockProfile) -> (r: Vec<String>)
    ensures
        strings_view(r@) == supported_arches(p),
{
    let mut v = new_strings();
    match p {
        MockProfile::GdbRemote => {
            push_string(&mut v, "x64");
            push_string(&mut v, "x86");
            push_string(&mut v, "arm64");
            push_string(&mut v, "arm");
            push_string(&mut v, "riscv64");
            push_string(&mut v, "mips");
            push_string(&mut v, "mips64");
            push_string(&mut v, "powerpc");
        },
        MockProfile::Lldb => {
            push_string(&mut v, "arm64");
            push_string(&mut v, "arm64e");
            push_string(&mut v, "x64");
            push_string(&mut v, "x86");
            push_string(&mut v, "arm");
            push_string(&mut v, "riscv64");
        },
        MockProfile::DbgEng => {
            push_string(&mut v, "x64");
            push_string(&mut v, "x86");
            push_string(&mut v, "arm64");
            push_string(&mut v, "arm");
        },
    }
    v
}

fn features_value(p: MockProfile) -> (r: Vec<String>)
    ensures
        strings_view(r@) == backend_features(p),
{
    let mut v = new_strings();
    match p {
        MockProfile::GdbRemote => {
            push_string(&mut v, "attach");
            push_string(&mut v, "launch");
            push_string(&mut v, "remote");
            push_string(&mut v, "gdb-packets");
        },
        MockProfile::Lldb => {
            push_string(&mut v, "launch");
            push_string(&mut v, "attach");
            push_string(&mut v, "remote");
            push_string(&mut v, "scripting");
        },
        MockProfile::DbgEng => {
            push_string(&mut v, "launch");
            push_string(&mut v, "attach");
            push_string(&mut v, "kernel-debug");
            push_string(&mut v, "minidump");
            push_string(&mut v, "windbg-command");
            push_string(&mut v, "symbols");
        },
    }
    push_string(&mut v, "breakpoints");
    push_string(&mut v, "watchpoints");
    push_string(&mut v, "memory");
    push_string(&mut v, "registers");
    push_string(&mut v, "threads");
    push_string(&mut v, "modules");
    push_string(&mut v, "callstack");
    push_string(&mut v, "disasm");
    push_string(&mut v, "processList");
    if let MockProfile::Lldb = p {
        push_string(&mut v, "expression-eval");
    }
    v
}

pub open spec fn initial_pc(p: MockProfile) -> u64 {
    match p {
        MockProfile::GdbRemote => 0x10000,
        MockProfile::Lldb => 0x100004567,
        MockProfile::DbgEng => 0x140001234,
    }
}

pub open spec fn initial_sp(p: MockProfile) -> u64 {
    match p {
        MockProfile::GdbRemote => 0x80000000,
        MockProfile::Lldb => 0x16FDFF000,
        MockProfile::DbgEng => 0x12F8A0,
    }
}

/// The architecture that a profile starts with (only the GDB stub reports
/// and changes it).
pub open spec fn initial_arch(p: MockProfile) -> Seq<char> {
    match p {
        MockProfile::GdbRemote => "riscv64"@,
        MockProfile::Lldb => "arm64"@,
        MockProfile::DbgEng => "x64"@,
    }
}

/// How far the program counter moves on `go`.
pub open spec fn go_step(p: MockProfile) -> u64 {
    match p {
        MockProfile::DbgEng => 5,
        _ => 4,
    }
}

/// How far the program counter moves on a step of the given kind.
pub open spec fn step_size(p: MockProfile, kind: StepKind) -> u64 {
    match (p, kind) {
        (MockProfile::DbgEng, StepKind::Into) => 1,
        (MockProfile::DbgEng, StepKind::Over) => 5,
        (MockProfile::DbgEng, StepKind::Out) => 0x40,
        (MockProfile::Lldb, StepKind::Out) => 0x30,
        (MockProfile::GdbRemote, StepKind::Out) => 0x20,
        _ => 4,
    }
}

pub open spec fn default_bp_kind(p: MockProfile) -> Seq<char> {
    match p {
        MockProfile::DbgEng => "INT3"@,
        _ => "SW"@,
    }
}

pub open spec fn default_wp_kind(p: MockProfile) -> Seq<char> {
    match p {
        MockProfile::GdbRemote => "rw"@,
        _ => "w"@,
    }
}

/// The process ID that `launch` reports (the GDB stub reports none).
pub open spec fn launch_pid(p: MockProfile) -> u64 {
    match p {
        MockProfile::Lldb => 7890,
        _ => 5544,
    }
}

/// Whether a lower-case register name sets the program counter.
pub open spec fn is_pc_name(p: MockProfile, name: Seq<char>) -> bool {
    match p {
        MockProfile::DbgEng => name == "rip"@ || name == "pc"@,
        _ => name == "pc"@,
    }
}

/// Whether a lower-case register name sets the stack pointer.
pub open spec fn is_sp_name(p: MockProfile, name: Seq<char>) -> bool {
    match p {
        MockProfile::DbgEng => name == "rsp"@,
        _ => name == "sp"@,
    }
}

/// The step kinds.
#[derive(PartialEq, Eq, Structural, Clone, Copy, Debug)]
pub enum StepKind {
    Into,
    Over,
    Out,
}

pub open spec fn step_reason(kind: StepKind) -> Seq<char> {
    match kind {
        StepKind::Into => "stepInto"@,
        StepKind::Over => "stepOver"@,
        StepKind::Out => "stepOut"@,
    }
}

// ─── Responses ──────────────────────────────────────────────────────────

pub open spec fn ok0(j: Json) -> ResponseView {
    ok_view(0, j)
}

pub open spec fn bad_params(msg: Seq<char>) -> ResponseView {
    err_view(0, "bad_params"@, msg)
}

pub open spec fn hello_json(p: MockProfile) -> Json {
    Json::Object(
        Seq::empty().push(("name"@, Json::Str(backend_name(p)))).push(
            ("kind"@, Json::Str(backend_kind(p))),
        ).push(("mode"@, Json::Str("stdio-backend"@))).push(("note"@, Json::Str(hello_note(p)))),
    )
}

pub open spec fn capabilities_json(p: MockProfile) -> Json {
    Json::Object(
        Seq::empty().push(("name"@, Json::Str(backend_name(p)))).push(
            ("version"@, Json::Str(BACKEND_VERSION@)),
        ).push(("backend_kind"@, Json::Str(backend_kind(p)))).push(
            ("supported_arches"@, strs_json(supported_arches(p))),
        ).push(("features"@, strs_json(backend_features(p)))),
    )
}

pub open spec fn attach_json(p: MockProfile, pid: u64, arch: Seq<char>) -> Json {
    let base = Seq::empty().push(("attached"@, Json::Bool(true))).push(("pid"@, Json::UInt(pid))).push(
        ("backend"@, Json::Str(backend_kind(p))),
    );
    match p {
        MockProfile::GdbRemote => Json::Object(base.push(("arch"@, Json::Str(arch)))),
        _ => Json::Object(base),
    }
}

pub open spec fn launch_json(p: MockProfile, path: Seq<char>, args: Json, arch: Seq<char>) -> Json {
    match p {
        MockProfile::GdbRemote => Json::Object(
            Seq::empty().push(("launched"@, Json::Bool(true))).push(("path"@, Json::Str(path))).push(
                ("backend"@, Json::Str(backend_kind(p))),
            ).push(("arch"@, Json::Str(arch))),
        ),
        _ => Json::Object(
            Seq::empty().push(("launched"@, Json::Bool(true))).push(("path"@, Json::Str(path))).push(
                ("args"@, args),
            ).push(("backend"@, Json::Str(backend_kind(p)))).push(
                ("pid"@, Json::UInt(launch_pid(p))),
            ),
        ),
    }
}

pub open spec fn pause_json(p: MockProfile, pc: u64) -> Json {
    match p {
        MockProfile::GdbRemote => Json::Object(
            Seq::empty().push(("stopped"@, Json::Bool(true))).push(
                ("reason"@, Json::Str("signal"@)),
            ).push(("signal"@, Json::UInt(2))).push(("pc"@, Json::Str(spec_hex_u64(pc)))),
        ),
        MockProfile::Lldb => Json::Object(
            Seq::empty().push(("stopped"@, Json::Bool(true))).push(
                ("reason"@, Json::Str("signal"@)),
            ).push(("signal"@, Json::Str("SIGSTOP"@))).push(("pc"@, Json::Str(spec_hex_u64(pc)))),
        ),
        MockProfile::DbgEng => Json::Object(
            Seq::empty().push(("stopped"@, Json::Bool(true))).push(
                ("reason"@, Json::Str("pause"@)),
            ).push(("pc"@, Json::Str(spec_hex_u64(pc)))),
        ),
    }
}

pub open spec fn stopped_json(reason: Seq<char>, pc: u64) -> Json {
    Json::Object(
        Seq::empty().push(("stopped"@, Json::Bool(true))).push(("reason"@, Json::Str(reason))).push(
            ("pc"@, Json::Str(spec_hex_u64(pc))),
        ),
    )
}

/// The architecture that `regs` reports.
pub open spec fn regs_arch(s: MockState) -> Seq<char> {
    match s.profile {
        MockProfile::GdbRemote => s.target_arch,
        MockProfile::Lldb => "arm64"@,
        MockProfile::DbgEng => "x64"@,
    }
}

pub open spec fn regs_dump_json(s: MockState) -> Json {
    Json::Object(
        Seq::empty().push(("arch"@, Json::Str(regs_arch(s)))).push(
            ("registers"@, regs_json(registers_of(s.profile, s.pc, s.sp))),
        ),
    )
}

/// The byte at offset `i` of the simulated memory read at `addr`: a no-op
/// instruction of the target repeated (RISC-V, ARM64), or for x64 `0x90`
/// every fourth byte and the low byte of `addr + i` between.
pub open spec fn mem_byte(p: MockProfile, addr: u64, i: nat) -> nat {
    match p {
        MockProfile::GdbRemote => if i % 4 == 0 {
            0x13
        } else {
            0
        },
        MockProfile::Lldb => if i % 4 == 0 {
            0x1f
        } else if i % 4 == 1 {
            0x20
        } else if i % 4 == 2 {
            0x03
        } else {
            0xd5
        },
        MockProfile::DbgEng => if i % 4 == 0 {
            0x90
        } else {
            (((addr % 256) + (i % 256)) % 256) as nat
        },
    }
}

/// The first `n` bytes of a simulated memory read, two lower-case
/// hexadecimal digits per byte.
pub open spec fn mem_hex(p: MockProfile, addr: u64, n: nat) -> Seq<char>
    decreases n,
{
    if n == 0 {
        Seq::empty()
    } else {
        mem_hex(p, addr, (n - 1) as nat) + hex_fixed(mem_byte(p, addr, (n - 1) as nat), 2, false)
    }
}

pub open spec fn mem_block_json(addr: u64, size: u64, hex: Seq<char>) -> Json {
    Json::Object(
        Seq::empty().push(("addr"@, Json::Str(spec_hex_u64(addr)))).push(
            ("size"@, Json::UInt(size)),
        ).push(("hex"@, Json::Str(hex))),
    )
}

// ─── Disassembly ────────────────────────────────────────────────────────

/// The address of line `i` when the GDB stub or LLDB disassembles from
/// `start`: four-byte words from `start` rounded down to a multiple of four.
pub open spec fn word_line_addr(start: u64, i: nat) -> u64 {
    (((start - start % 4) + 4 * i) % 0x1_0000_0000_0000_0000) as u64
}

pub open spec fn word_line(p: MockProfile, start: u64, i: nat) -> Json {
    let a = word_line_addr(start, i);
    let e = word_insn(p, ((a / 4) % 12) as int);
    disasm_json(spec_hex_u64(a), e.0, e.1)
}

/// The offsets of the simulated x64 instructions within their 58-byte block.
pub open spec fn x64_offset(i: int) -> nat {
    if i == 0 {
        0
    } else if i == 1 {
        5
    } else if i == 2 {
        10
    } else if i == 3 {
        14
    } else if i == 4 {
        19
    } else if i == 5 {
        22
    } else if i == 6 {
        24
    } else if i == 7 {
        27
    } else if i == 8 {
        33
    } else if i == 9 {
        37
    } else if i == 10 {
        38
    } else if i == 11 {
        39
    } else if i == 12 {
        40
    } else if i == 13 {
        47
    } else if i == 14 {
        54
    } else {
        56
    }
}

/// The index of the last x64 instruction that begins at or before offset
/// `rel` of the block.
pub open spec fn x64_index_at(rel: nat) -> int {
    if rel >= 56 {
        15
    } else if rel >= 54 {
        14
    } else if rel >= 47 {
        13
    } else if rel >= 40 {
        12
    } else if rel >= 39 {
        11
    } else if rel >= 38 {
        10
    } else if rel >= 37 {
        9
    } else if rel >= 33 {
        8
    } else if rel >= 27 {
        7
    } else if rel >= 24 {
        6
    } else if rel >= 22 {
        5
    } else if rel >= 19 {
        4
    } else if rel >= 14 {
        3
    } else if rel >= 10 {
        2
    } else if rel >= 5 {
        1
    } else {
        0
    }
}

/// Where in the 58-byte block that begins at `0x140001234` the address
/// `start` falls.
pub open spec fn x64_rel(start: u64) -> nat {
    if start >= 0x140001234 {
        ((start - 0x140001234) % 58) as nat
    } else {
        let rem = ((0x140001234 - start) % 58) as nat;
        if rem == 0 {
            0
        } else {
            (58 - rem) as nat
        }
    }
}

/// The address of the first line when DbgEng disassembles from `start`: the
/// start of the instruction that covers `start`.
pub open spec fn x64_first_addr(start: u64) -> u64 {
    let rel = x64_rel(start);
    start.wrapping_sub((rel - x64_offset(x64_index_at(rel))) as u64)
}

/// The address of line `k` when DbgEng disassembles from `a0` with the
/// instruction at index `i0` first.
pub open spec fn x64_line_addr(a0: u64, i0: int, k: nat) -> u64
    decreases k,
{
    if k == 0 {
        a0
    } else {
        x64_line_addr(a0, i0, (k - 1) as nat).wrapping_add(x64_insn((i0 + k - 1) % 16).1)
    }
}

pub open spec fn x64_line(start: u64, k: nat) -> Json {
    let i0 = x64_index_at(x64_rel(start));
    let a = x64_line_addr(x64_first_addr(start), i0, k);
    let e = x64_insn((i0 + k) % 16);
    disasm_json(spec_hex_u64(a), e.0, e.2)
}

/// The `count` lines that `disasm` gives from `start`.
pub open spec fn disasm_lines(p: MockProfile, start: u64, count: nat) -> Seq<Json> {
    match p {
        MockProfile::DbgEng => Seq::new(count, |k: int| x64_line(start, k as nat)),
        _ => Seq::new(count, |k: int| word_line(p, start, k as nat)),
    }
}

// ─── Breakpoints and watchpoints ────────────────────────────────────────

/// The position, in the walk `order` of the breakpoint IDs, of the first
/// breakpoint at `addr`.
pub open spec fn first_bp_at(bps: Map<u64, BpView>, order: Seq<u64>, addr: u64) -> Option<int> {
    if exists|i: int| 0 <= i < order.len() && #[trigger] bps[order[i]].addr == addr {
        Some(
            choose|i: int|
                0 <= i < order.len() && #[trigger] bps[order[i]].addr == addr && forall|j: int|
                    0 <= j < i ==> bps[order[j]].addr != addr,
        )
    } else {
        None
    }
}

pub open spec fn first_wp(wps: Seq<WpView>, id: u64) -> Option<int> {
    if exists|i: int| 0 <= i < wps.len() && wps[i].id == id {
        Some(choose|i: int| 0 <= i < wps.len() && wps[i].id == id && forall|j: int| 0 <= j < i ==> wps[j].id != id)
    } else {
        None
    }
}

pub open spec fn bp_record_json(b: BpView) -> Json {
    breakpoint_json(b.id, spec_hex_u64(b.addr), b.enabled, b.hit_count, b.kind)
}

pub open spec fn wp_record_json(w: WpView) -> Json {
    watchpoint_json(w.id, spec_hex_u64(w.addr), w.size, w.kind, w.enabled)
}

/// Breakpoint and watchpoint IDs are given out in increasing order and the
/// counters are ahead of every ID given out.
pub open spec fn ids_wf(s: MockState) -> bool {
    &&& s.breakpoints.dom().finite()
    &&& forall|k: u64| #[trigger] s.breakpoints.contains_key(k) ==> s.breakpoints[k].id == k && k < s.bp_next
    &&& forall|i: int, j: int|
        0 <= i < j < s.watchpoints.len() ==> s.watchpoints[i].id < s.watchpoints[j].id
    &&& forall|i: int| 0 <= i < s.watchpoints.len() ==> s.watchpoints[i].id < s.wp_next
}

// ─── The transition of each method ──────────────────────────────────────

pub open spec fn addr_param(params: Option<Json>) -> Option<u64> {
    match spec_param_u64(params, "addr"@) {
        Ok(Some(a)) => Some(a),
        _ => None,
    }
}

pub open spec fn step_attach(s: MockState, params: Option<Json>) -> (MockState, ResponseView) {
    match spec_param_u64(params, "pid"@) {
        Ok(Some(pid)) => (
            MockState { attached_pid: Some(pid), ..s },
            ok0(attach_json(s.profile, pid, s.target_arch)),
        ),
        Ok(None) => (s, bad_params("attach requires {pid}"@)),
        Err(e) => (s, bad_params(e)),
    }
}

pub open spec fn step_launch(s: MockState, params: Option<Json>) -> (MockState, ResponseView) {
    match spec_param_str(params, "path"@) {
        None => (s, bad_params("launch requires {path}"@)),
        Some(path) => {
            let arch = match (s.profile, spec_param_str(params, "arch"@)) {
                (MockProfile::GdbRemote, Some(a)) => a,
                _ => s.target_arch,
            };
            let args = match opt_get(params, "args"@) {
                Some(j) => j,
                None => Json::Null,
            };
            (
                MockState { launched_path: Some(path), target_arch: arch, ..s },
                ok0(launch_json(s.profile, path, args, arch)),
            )
        },
    }
}

pub open spec fn step_set_reg(s: MockState, params: Option<Json>) -> (MockState, ResponseView) {
    let raw = match spec_param_str(params, "name"@) {
        Some(n) => n,
        None => Seq::empty(),
    };
    let name = lowercase(raw);
    let value = opt_get(params, "value"@);
    if raw.len() == 0 || value is None {
        (s, bad_params("setReg requires {name, value}"@))
    } else {
        let ok = ok0(
            Json::Object(
                Seq::empty().push(("set"@, Json::Bool(true))).push(("name"@, Json::Str(name))),
            ),
        );
        if is_pc_name(s.profile, name) {
            match spec_parse_u64ish(value->0) {
                Ok(v) => (MockState { pc: v, ..s }, ok),
                Err(e) => (s, bad_params(e)),
            }
        } else if is_sp_name(s.profile, name) {
            match spec_parse_u64ish(value->0) {
                Ok(v) => (MockState { sp: v, ..s }, ok),
                Err(e) => (s, bad_params(e)),
            }
        } else {
            (s, ok)
        }
    }
}

pub open spec fn step_read_mem(s: MockState, params: Option<Json>) -> ResponseView {
    match (addr_param(params), spec_param_u64(params, "size"@)) {
        (Some(addr), Ok(Some(x))) => {
            let n: u64 = if x < 4096 {
                x
            } else {
                4096
            };
            ok0(mem_block_json(addr, n, mem_hex(s.profile, addr, n as nat)))
        },
        _ => bad_params("readMem requires {addr, size}"@),
    }
}

pub open spec fn step_write_mem(params: Option<Json>) -> ResponseView {
    match addr_param(params) {
        Some(addr) => {
            let hex = match spec_param_str(params, "hex"@) {
                Some(h) => h,
                None => Seq::empty(),
            };
            ok0(
                Json::Object(
                    Seq::empty().push(
                        ("written"@, Json::UInt(((vstd::utf8::encode_utf8(hex).len() as usize) / 2) as u64)),
                    ).push(("addr"@, Json::Str(spec_hex_u64(addr)))),
                ),
            )
        },
        None => bad_params("writeMem requires {addr, hex}"@),
    }
}

pub open spec fn step_disasm(s: MockState, params: Option<Json>) -> ResponseView {
    let start = match addr_param(params) {
        Some(a) => a,
        None => s.pc,
    };
    let count: nat = match spec_param_u64(params, "count"@) {
        Ok(Some(x)) => if x < 64 {
            x as nat
        } else {
            64
        },
        _ => 16,
    };
    ok0(Json::Array(disasm_lines(s.profile, start, count)))
}

pub open spec fn step_bp_set(s: MockState, params: Option<Json>) -> (MockState, ResponseView) {
    match addr_param(params) {
        None => (s, bad_params("bpSet requires {addr}"@)),
        Some(addr) => {
            let kind = match spec_param_str(params, "kind"@) {
                Some(k) => k,
                None => default_bp_kind(s.profile),
            };
            let id = s.bp_next;
            (
                MockState {
                    bp_next: (s.bp_next + 1) as u64,
                    breakpoints: s.breakpoints.insert(
                        id,
                        BpView { id, addr, enabled: true, hit_count: 0, kind },
                    ),
                    ..s
                },
                ok0(
                    Json::Object(
                        Seq::empty().push(("id"@, Json::UInt(id))).push(
                            ("addr"@, Json::Str(spec_hex_u64(addr))),
                        ).push(("enabled"@, Json::Bool(true))).push(("kind"@, Json::Str(kind))),
                    ),
                ),
            )
        },
    }
}

pub open spec fn opt_u64(r: Result<Option<u64>, Seq<char>>) -> Option<u64> {
    match r {
        Ok(Some(v)) => Some(v),
        _ => None,
    }
}

/// `bpClear` of the breakpoint with the given ID.
pub open spec fn step_bp_clear_id(s: MockState, id: u64) -> (MockState, ResponseView) {
    (
        MockState { breakpoints: s.breakpoints.remove(id), ..s },
        ok0(
            Json::Object(
                Seq::empty().push(("cleared"@, Json::Bool(s.breakpoints.contains_key(id)))).push(
                    ("id"@, Json::UInt(id)),
                ),
            ),
        ),
    )
}

/// `bpClear` of the first breakpoint at the given address in the walk
/// `order`.
pub open spec fn step_bp_clear_addr(s: MockState, addr: u64, order: Seq<u64>) -> (MockState, ResponseView) {
    match first_bp_at(s.breakpoints, order, addr) {
        Some(i) => (
            MockState { breakpoints: s.breakpoints.remove(order[i]), ..s },
            ok0(
                Json::Object(
                    Seq::empty().push(("cleared"@, Json::Bool(true))).push(
                        ("id"@, Json::UInt(order[i])),
                    ).push(("addr"@, Json::Str(spec_hex_u64(addr)))),
                ),
            ),
        ),
        None => (
            s,
            ok0(
                Json::Object(
                    Seq::empty().push(("cleared"@, Json::Bool(false))).push(
                        ("addr"@, Json::Str(spec_hex_u64(addr))),
                    ),
                ),
            ),
        ),
    }
}

pub open spec fn step_bp_clear(s: MockState, params: Option<Json>, order: Seq<u64>) -> (MockState, ResponseView) {
    let id_opt = opt_u64(spec_param_u64(params, "id"@));
    let addr_opt = opt_u64(spec_param_u64(params, "addr"@));
    if spec_param_flag(params, "all"@) {
        (
            MockState { breakpoints: Map::empty(), ..s },
            ok0(
                Json::Object(
                    Seq::empty().push(("cleared"@, Json::Bool(true))).push(("all"@, Json::Bool(true))),
                ),
            ),
        )
    } else if id_opt is Some {
        step_bp_clear_id(s, id_opt->0)
    } else if addr_opt is Some {
        step_bp_clear_addr(s, addr_opt->0, order)
    } else {
        (s, bad_params("bpClear requires id, addr, or all"@))
    }
}

/// The answer to `bpList`: the breakpoints in the walk `order`.
pub open spec fn bp_list_json(s: MockState, order: Seq<u64>) -> Json {
    Json::Array(order.map_values(|k: u64| bp_record_json(s.breakpoints[k])))
}

pub open spec fn step_wp_set(s: MockState, params: Option<Json>) -> (MockState, ResponseView) {
    match addr_param(params) {
        None => (s, bad_params("wpSet requires {addr}"@)),
        Some(addr) => {
            let size = match opt_u64(spec_param_u64(params, "size"@)) {
                Some(x) => x,
                None => 4,
            };
            let kind = match spec_param_str(params, "kind"@) {
                Some(k) => k,
                None => default_wp_kind(s.profile),
            };
            let id = s.wp_next;
            (
                MockState {
                    wp_next: (s.wp_next + 1) as u64,
                    watchpoints: s.watchpoints.push(WpView { id, addr, size, kind, enabled: true }),
                    ..s
                },
                ok0(
                    Json::Object(
                        Seq::empty().push(("id"@, Json::UInt(id))).push(
                            ("addr"@, Json::Str(spec_hex_u64(addr))),
                        ).push(("size"@, Json::UInt(size))).push(("kind"@, Json::Str(kind))).push(
                            ("enabled"@, Json::Bool(true)),
                        ),
                    ),
                ),
            )
        },
    }
}

pub open spec fn step_wp_clear(s: MockState, params: Option<Json>) -> (MockState, ResponseView) {
    match spec_param_u64(params, "id"@) {
        Ok(Some(id)) => {
            let found = first_wp(s.watchpoints, id);
            let wps = match found {
                Some(i) => s.watchpoints.remove(i),
                None => s.watchpoints,
            };
            (
                MockState { watchpoints: wps, ..s },
                ok0(
                    Json::Object(
                        Seq::empty().push(("cleared"@, Json::Bool(found is Some))).push(
                            ("id"@, Json::UInt(id)),
                        ),
                    ),
                ),
            )
        },
        _ => (s, bad_params("wpClear requires {id}"@)),
    }
}

/// The module name that symbol lookup uses: lower case, without the
/// profile's file suffixes.
pub open spec fn symbol_module(p: MockProfile, module: Seq<char>) -> Seq<char> {
    let m = lowercase(module);
    match p {
        MockProfile::GdbRemote => trim_end_matches(trim_end_matches(m, ".elf"@), ".bin"@),
        MockProfile::Lldb => trim_end_matches(trim_end_matches(m, ".dylib"@), ".framework"@),
        MockProfile::DbgEng => trim_end_matches(trim_end_matches(m, ".dll"@), ".exe"@),
    }
}

pub open spec fn step_resolve(s: MockState, params: Option<Json>) -> ResponseView {
    let module = match spec_param_str(params, "module"@) {
        Some(m) => m,
        None => Seq::empty(),
    };
    let symbol = match spec_param_str(params, "symbol"@) {
        Some(m) => m,
        None => Seq::empty(),
    };
    if symbol.len() == 0 {
        bad_params("resolveSymbol requires {symbol}"@)
    } else {
        match symbol_of(s.profile, symbol_module(s.profile, module), lowercase(symbol)) {
            Some(addr) => ok0(
                Json::Object(
                    Seq::empty().push(("addr"@, Json::Str(spec_hex_u64(addr)))).push(
                        ("symbol"@, Json::Str(symbol)),
                    ).push(("module"@, Json::Str(module))).push(("resolved"@, Json::Bool(true))),
                ),
            ),
            None => err_view(
                0,
                "symbol_not_found"@,
                "symbol '"@ + symbol + "' not found in '"@ + (if module.len() == 0 {
                    "*"@
                } else {
                    module
                }) + "'"@,
            ),
        }
    }
}

/// How a simulated backend answers `method` with `params`: its next state
/// and its response. `order` is the order in which the breakpoint table is
/// walked (a hash map's, which the map leaves open); `bpList` lists in it
/// and `bpClear` by address takes the first match in it.
#[verifier::opaque]
pub open spec fn step(s: MockState, method: Seq<char>, params: Option<Json>, order: Seq<u64>) -> (MockState, ResponseView) {
    let p = s.profile;
    if method == "hello"@ {
        (s, ok0(hello_json(p)))
    } else if method == "capabilities"@ {
        (s, ok0(capabilities_json(p)))
    } else if method == "attach"@ {
        step_attach(s, params)
    } else if method == "launch"@ {
        step_launch(s, params)
    } else if method == "detach"@ {
        (MockState { attached_pid: None, launched_path: None, ..s }, ok0(flag_json("detached"@)))
    } else if method == "kill"@ {
        (
            MockState { attached_pid: None, launched_path: None, ..s },
            ok0(
                Json::Object(
                    Seq::empty().push(("killed"@, Json::Bool(true))).push(
                        ("exit_code"@, Json::UInt(0)),
                    ),
                ),
            ),
        )
    } else if method == "go"@ {
        (MockState { pc: s.pc.wrapping_add(go_step(p)), ..s }, ok0(flag_json("running"@)))
    } else if method == "pause"@ {
        (s, ok0(pause_json(p, s.pc)))
    } else if method == "stepInto"@ || method == "stepOver"@ || method == "stepOut"@ {
        let kind = if method == "stepInto"@ {
            StepKind::Into
        } else if method == "stepOver"@ {
            StepKind::Over
        } else {
            StepKind::Out
        };
        let pc = s.pc.wrapping_add(step_size(p, kind));
        (MockState { pc, ..s }, ok0(stopped_json(step_reason(kind), pc)))
    } else if method == "regs"@ {
        (s, ok0(regs_dump_json(s)))
    } else if method == "setReg"@ {
        step_set_reg(s, params)
    } else if method == "readMem"@ {
        (s, step_read_mem(s, params))
    } else if method == "writeMem"@ {
        (s, step_write_mem(params))
    } else if method == "disasm"@ {
        (s, step_disasm(s, params))
    } else if method == "bpSet"@ {
        step_bp_set(s, params)
    } else if method == "bpClear"@ {
        step_bp_clear(s, params, order)
    } else if method == "bpList"@ {
        (s, ok0(bp_list_json(s, order)))
    } else if method == "threads"@ {
        (s, ok0(threads_json(p, s.pc)))
    } else if method == "modules"@ {
        (s, ok0(modules_json(p, s.launched_path)))
    } else if method == "callstack"@ {
        (s, ok0(callstack_json(p, s.pc)))
    } else if method == "wpSet"@ {
        step_wp_set(s, params)
    } else if method == "wpClear"@ {
        step_wp_clear(s, params)
    } else if method == "wpList"@ {
        (s, ok0(Json::Array(s.watchpoints.map_values(|w: WpView| wp_record_json(w)))))
    } else if method == "processList"@ {
        (s, ok0(processes_json(p, s.target_arch)))
    } else if method == "shutdown"@ {
        (s, ok0(flag_json("bye"@)))
    } else if method == "resolveSymbol"@ {
        (s, step_resolve(s, params))
    } else {
        (
            s,
            err_view(
                0,
                "unknown_method"@,
                backend_kind(p) + " does not implement '"@ + method + "'"@,
            ),
        )
    }
}

/// The methods that a simulated backend answers.
pub open spec fn is_known_method(m: Seq<char>) -> bool {
    ||| m == "hello"@ || m == "capabilities"@ || m == "attach"@ || m == "launch"@
    ||| m == "detach"@ || m == "kill"@ || m == "go"@ || m == "pause"@
    ||| m == "stepInto"@ || m == "stepOver"@ || m == "stepOut"@ || m == "regs"@
    ||| m == "setReg"@ || m == "readMem"@ || m == "writeMem"@ || m == "disasm"@
    ||| m == "bpSet"@ || m == "bpClear"@ || m == "bpList"@ || m == "threads"@
    ||| m == "modules"@ || m == "callstack"@ || m == "wpSet"@ || m == "wpClear"@
    ||| m == "wpList"@ || m == "processList"@ || m == "shutdown"@ || m == "resolveSymbol"@
}

/// Whether a backend can take `method` without running out of IDs.
pub open spec fn can_take(s: MockState, method: Seq<char>) -> bool {
    &&& method == "bpSet"@ ==> s.bp_next < u64::MAX
    &&& method == "wpSet"@ ==> s.wp_next < u64::MAX
}

/// The state of a freshly started backend.
pub open spec fn initial_state(p: MockProfile) -> MockState {
    MockState {
        profile: p,
        attached_pid: None,
        launched_path: None,
        pc: initial_pc(p),
        sp: initial_sp(p),
        bp_next: 1,
        breakpoints: Map::empty(),
        wp_next: 1,
        watchpoints: Seq::empty(),
        target_arch: initial_arch(p),
    }
}

// ─── Executable ─────────────────────────────────────────────────────────

fn ok_response(result: JsonValue) -> (r: RpcResponse)
    ensures
        r@ == ok0(result@),
{
    RpcResponse::ok(0, result)
}

fn bad_params_response(msg: &str) -> (r: RpcResponse)
    ensures
        r@ == bad_params(msg@),
{
    RpcResponse::err(0, "bad_params", msg)
}

fn mem_byte_value(p: MockProfile, addr: u64, i: u64) -> (r: u64)
    ensures
        r == mem_byte(p, addr, i as nat),
        r < 256,
{
    match p {
        MockProfile::GdbRemote => if i % 4 == 0 {
            0x13
        } else {
            0
        },
        MockProfile::Lldb => if i % 4 == 0 {
            0x1f
        } else if i % 4 == 1 {
            0x20
        } else if i % 4 == 2 {
            0x03
        } else {
            0xd5
        },
        MockProfile::DbgEng => if i % 4 == 0 {
            0x90
        } else {
            ((addr % 256) + (i % 256)) % 256
        },
    }
}

fn mem_hex_value(p: MockProfile, addr: u64, n: u64) -> (r: String)
    ensures
        r@ == mem_hex(p, addr, n as nat),
{
    let mut out: Vec<char> = Vec::new();
    let mut i: u64 = 0;
    while i < n
        invariant
            i <= n,
            out@ == mem_hex(p, addr, i as nat),
        decreases n - i,
    {
        let b = mem_byte_value(p, addr, i);
        push_hex_fixed(&mut out, b, 2, false);
        i = i + 1;
    }
    string_of(&out)
}

fn x64_index_at_value(rel: u64) -> (r: u64)
    requires
        rel < 58,
    ensures
        r as int == x64_index_at(rel as nat),
        r < 16,
        x64_offset(r as int) <= rel,
{
    if rel >= 56 {
        15
    } else if rel >= 54 {
        14
    } else if rel >= 47 {
        13
    } else if rel >= 40 {
        12
    } else if rel >= 39 {
        11
    } else if rel >= 38 {
        10
    } else if rel >= 37 {
        9
    } else if rel >= 33 {
        8
    } else if rel >= 27 {
        7
    } else if rel >= 24 {
        6
    } else if rel >= 22 {
        5
    } else if rel >= 19 {
        4
    } else if rel >= 14 {
        3
    } else if rel >= 10 {
        2
    } else if rel >= 5 {
        1
    } else {
        0
    }
}

fn x64_offset_value(i: u64) -> (r: u64)
    requires
        i < 16,
    ensures
        r == x64_offset(i as int),
{
    if i == 0 {
        0
    } else if i == 1 {
        5
    } else if i == 2 {
        10
    } else if i == 3 {
        14
    } else if i == 4 {
        19
    } else if i == 5 {
        22
    } else if i == 6 {
        24
    } else if i == 7 {
        27
    } else if i == 8 {
        33
    } else if i == 9 {
        37
    } else if i == 10 {
        38
    } else if i == 11 {
        39
    } else if i == 12 {
        40
    } else if i == 13 {
        47
    } else if i == 14 {
        54
    } else {
        56
    }
}

fn disasm_line_value(addr: u64, bytes: &str, text: &str) -> (r: JsonValue)
    ensures
        r@ == disasm_json(spec_hex_u64(addr), bytes@, text@),
{
    DisasmLine { addr: crate::num::hex_u64(addr), bytes: string_from(bytes), text: string_from(text) }.to_json()
}

/// The `count` lines that `disasm` gives from `start`.
pub fn disasm_lines_value(p: MockProfile, start: u64, count: u64) -> (r: Vec<JsonValue>)
    requires
        count < 0x4000_0000_0000_0000,
    ensures
        items_view(r@) == disasm_lines(p, start, count as nat),
{
    let mut items = new_items();
    match p {
        MockProfile::DbgEng => {
            let rel: u64 = if start >= 0x140001234 {
                (start - 0x140001234) % 58
            } else {
                let rem = (0x140001234 - start) % 58;
                if rem == 0 {
                    0
                } else {
                    58 - rem
                }
            };
            assert(rel as nat == x64_rel(start));
            let i0 = x64_index_at_value(rel);
            let off = x64_offset_value(i0);
            let a0 = start.wrapping_sub(rel - off);
            assert(a0 == x64_first_addr(start));
            let mut addr = a0;
            let mut k: u64 = 0;
            while k < count
                invariant
                    k <= count,
                    i0 < 16,
                    i0 as int == x64_index_at(x64_rel(start)),
                    a0 == x64_first_addr(start),
                    addr == x64_line_addr(a0, i0 as int, k as nat),
                    items_view(items@) == Seq::new(k as nat, |j: int| x64_line(start, j as nat)),
                decreases count - k,
            {
                let e = x64_insn_at((i0 + k % 16) % 16);
                assert((i0 + k % 16) % 16 == (i0 + k) % 16) by (nonlinear_arith);
                let line = disasm_line_value(addr, e.0, e.2);
                push_item(&mut items, line);
                addr = addr.wrapping_add(e.1);
                k = k + 1;
                assert(items_view(items@) =~= Seq::new(k as nat, |j: int| x64_line(start, j as nat)));
            }
        },
        _ => {
            let aligned = start & !3u64;
            assert(start & !3u64 == start - start % 4) by (bit_vector);
            let mut k: u64 = 0;
            while k < count
                invariant
                    k <= count,
                    count < 0x4000_0000_0000_0000,
                    aligned == start - start % 4,
                    p != MockProfile::DbgEng,
                    items_view(items@) == Seq::new(k as nat, |j: int| word_line(p, start, j as nat)),
                decreases count - k,
            {
                let off = k * 4;
                let a = aligned.wrapping_add(off);
                assert(a == word_line_addr(start, k as nat));
                let idx = (a / 4) % 12;
                let e = word_insn_value(p, idx);
                let line = disasm_line_value(a, e.0, e.1);
                push_item(&mut items, line);
                k = k + 1;
                assert(items_view(items@) =~= Seq::new(k as nat, |j: int| word_line(p, start, j as nat)));
            }
        },
    }
    items
}

fn hello_value(p: MockProfile) -> (r: JsonValue)
    ensures
        r@ == hello_json(p),
{
    let mut f = new_fields();
    push_field(&mut f, "name", jstr(backend_name_str(p)));
    push_field(&mut f, "kind", jstr(backend_kind_str(p)));
    push_field(&mut f, "mode", jstr("stdio-backend"));
    push_field(&mut f, "note", jstr(hello_note_str(p)));
    proof {
        lemma_object_view(f);
    }
    JsonValue::Object(f)
}

fn capabilities_value(p: MockProfile) -> (r: JsonValue)
    ensures
        r@ == capabilities_json(p),
{
    let caps = BackendCapabilities {
        name: string_from(backend_name_str(p)),
        version: string_from(BACKEND_VERSION),
        backend_kind: string_from(backend_kind_str(p)),
        supported_arches: supported_arches_value(p),
        features: features_value(p),
    };
    caps.to_json()
}

fn attach_value(p: MockProfile, pid: u64, arch: &String) -> (r: JsonValue)
    ensures
        r@ == attach_json(p, pid, arch@),
{
    let mut f = new_fields();
    push_field(&mut f, "attached", JsonValue::Bool(true));
    push_field(&mut f, "pid", JsonValue::UInt(pid));
    push_field(&mut f, "backend", jstr(backend_kind_str(p)));
    if let MockProfile::GdbRemote = p {
        push_field(&mut f, "arch", JsonValue::Str(arch.clone()));
    }
    proof {
        lemma_object_view(f);
    }
    JsonValue::Object(f)
}

fn launch_value(p: MockProfile, path: &String, args: JsonValue, arch: &String) -> (r: JsonValue)
    ensures
        r@ == launch_json(p, path@, args@, arch@),
{
    let mut f = new_fields();
    push_field(&mut f, "launched", JsonValue::Bool(true));
    push_field(&mut f, "path", JsonValue::Str(path.clone()));
    match p {
        MockProfile::GdbRemote => {
            push_field(&mut f, "backend", jstr(backend_kind_str(p)));
            push_field(&mut f, "arch", JsonValue::Str(arch.clone()));
        },
        _ => {
            push_field(&mut f, "args", args);
            push_field(&mut f, "backend", jstr(backend_kind_str(p)));
            let pid: u64 = match p {
                MockProfile::Lldb => 7890,
                _ => 5544,
            };
            push_field(&mut f, "pid", JsonValue::UInt(pid));
        },
    }
    proof {
        lemma_object_view(f);
    }
    JsonValue::Object(f)
}

fn pause_value(p: MockProfile, pc: u64) -> (r: JsonValue)
    ensures
        r@ == pause_json(p, pc),
{
    let mut f = new_fields();
    push_field(&mut f, "stopped", JsonValue::Bool(true));
    match p {
        MockProfile::GdbRemote => {
            push_field(&mut f, "reason", jstr("signal"));
            push_field(&mut f, "signal", JsonValue::UInt(2));
        },
        MockProfile::Lldb => {
            push_field(&mut f, "reason", jstr("signal"));
            push_field(&mut f, "signal", jstr("SIGSTOP"));
        },
        MockProfile::DbgEng => {
            push_field(&mut f, "reason", jstr("pause"));
        },
    }
    push_field(&mut f, "pc", jhex(pc));
    proof {
        lemma_object_view(f);
    }
    JsonValue::Object(f)
}

fn stopped_value(reason: &str, pc: u64) -> (r: JsonValue)
    ensures
        r@ == stopped_json(reason@, pc),
{
    let mut f = new_fields();
    push_field(&mut f, "stopped", JsonValue::Bool(true));
    push_field(&mut f, "reason", jstr(reason));
    push_field(&mut f, "pc", jhex(pc));
    proof {
        lemma_object_view(f);
    }
    JsonValue::Object(f)
}

fn initial_arch_str(p: MockProfile) -> (r: &'static str)
    ensures
        r@ == initial_arch(p),
{
    match p {
        MockProfile::GdbRemote => "riscv64",
        MockProfile::Lldb => "arm64",
        MockProfile::DbgEng => "x64",
    }
}

impl MockBackend {
    /// A freshly started backend of the given profile.
    pub fn new(profile: MockProfile) -> (r: MockBackend)
        ensures
            r@ == initial_state(profile),
            ids_wf(r@),
    {
        let (pc, sp): (u64, u64) = match profile {
            MockProfile::GdbRemote => (0x10000, 0x80000000),
            MockProfile::Lldb => (0x100004567, 0x16FDFF000),
            MockProfile::DbgEng => (0x140001234, 0x12F8A0),
        };
        let r = MockBackend {
            profile,
            attached_pid: None,
            launched_path: None,
            pc,
            sp,
            bp_next: 1,
            breakpoints: HashMap::new(),
            wp_next: 1,
            watchpoints: Vec::new(),
            target_arch: string_from(initial_arch_str(profile)),
        };
        assert(r@.breakpoints =~= Map::<u64, BpView>::empty());
        assert(r@.watchpoints =~= Seq::<WpView>::empty());
        r
    }

    /// The profile the backend simulates.
    pub fn profile(&self) -> (r: MockProfile)
        ensures
            r == self@.profile,
    {
        self.profile
    }

    fn regs_value(&self) -> (r: JsonValue)
        ensures
            r@ == regs_dump_json(self@),
    {
        let arch = match self.profile {
            MockProfile::GdbRemote => self.target_arch.clone(),
            MockProfile::Lldb => string_from("arm64"),
            MockProfile::DbgEng => string_from("x64"),
        };
        let dump = RegDump { arch, registers: registers_value(self.profile, self.pc, self.sp) };
        dump.to_json()
    }

    fn attach(&mut self, params: &Option<JsonValue>) -> (r: RpcResponse)
        ensures
            (final(self)@, r@) == step_attach(old(self)@, opt_view(*params)),
    {
        match param_u64(params, "pid") {
            Ok(Some(pid)) => {
                self.attached_pid = Some(pid);
                ok_response(attach_value(self.profile, pid, &self.target_arch))
            },
            Ok(None) => bad_params_response("attach requires {pid}"),
            Err(e) => bad_params_response(e.as_str()),
        }
    }

    fn launch(&mut self, params: &Option<JsonValue>) -> (r: RpcResponse)
        ensures
            (final(self)@, r@) == step_launch(old(self)@, opt_view(*params)),
    {
        match param_str(params, "path") {
            None => bad_params_response("launch requires {path}"),
            Some(path) => {
                if let MockProfile::GdbRemote = self.profile {
                    if let Some(a) = param_str(params, "arch") {
                        self.target_arch = a;
                    }
                }
                let args = match params {
                    Some(p) => match p.get("args") {
                        Some(v) => v.deep_clone(),
                        None => JsonValue::Null,
                    },
                    None => JsonValue::Null,
                };
                let out = launch_value(self.profile, &path, args, &self.target_arch);
                self.launched_path = Some(path);
                ok_response(out)
            },
        }
    }
}

fn is_pc_name_value(p: MockProfile, name: &str) -> (r: bool)
    ensures
        r == is_pc_name(p, name@),
{
    match p {
        MockProfile::DbgEng => str_eq(name, "rip") || str_eq(name, "pc"),
        _ => str_eq(name, "pc"),
    }
}

fn is_sp_name_value(p: MockProfile, name: &str) -> (r: bool)
    ensures
        r == is_sp_name(p, name@),
{
    match p {
        MockProfile::DbgEng => str_eq(name, "rsp"),
        _ => str_eq(name, "sp"),
    }
}

fn bp_record_value(b: &Breakpoint) -> (r: JsonValue)
    ensures
        r@ == bp_record_json(bp_view(*b)),
{
    let rec = BreakpointRecord {
        id: b.id,
        addr: crate::num::hex_u64(b.addr),
        enabled: b.enabled,
        hit_count: b.hit_count,
        kind: b.kind.clone(),
    };
    rec.to_json()
}

fn wp_record_value(w: &Watchpoint) -> (r: JsonValue)
    ensures
        r@ == wp_record_json(wp_view(*w)),
{
    let rec = WatchpointInfo {
        id: w.id,
        addr: crate::num::hex_u64(w.addr),
        size: w.size,
        kind: w.kind.clone(),
        enabled: w.enabled,
    };
    rec.to_json()
}

/// The lower-case module name that symbol lookup uses.
fn symbol_module_value(p: MockProfile, module: &str) -> (r: Vec<char>)
    ensures
        r@ == symbol_module(p, module@),
{
    let lower = to_lowercase(module);
    let m = chars_of(lower.as_str());
    match p {
        MockProfile::GdbRemote => trim_end_matches_chars(trim_end_matches_chars(m, ".elf"), ".bin"),
        MockProfile::Lldb => trim_end_matches_chars(trim_end_matches_chars(m, ".dylib"), ".framework"),
        MockProfile::DbgEng => trim_end_matches_chars(trim_end_matches_chars(m, ".dll"), ".exe"),
    }
}

impl MockBackend {
    fn set_reg(&mut self, params: &Option<JsonValue>) -> (r: RpcResponse)
        ensures
            (final(self)@, r@) == step_set_reg(old(self)@, opt_view(*params)),
    {
        let raw = match param_str(params, "name") {
            Some(n) => n,
            None => String::new(),
        };
        let name = to_lowercase(raw.as_str());
        let value = match params {
            Some(p) => p.get("value"),
            None => None,
        };
        if name.as_str().is_empty() || value.is_none() {
            return bad_params_response("setReg requires {name, value}");
        }
        let v = value.unwrap();
        if is_pc_name_value(self.profile, name.as_str()) {
            match parse_u64ish(v) {
                Ok(x) => {
                    self.pc = x;
                },
                Err(e) => {
                    return bad_params_response(e.as_str());
                },
            }
        } else if is_sp_name_value(self.profile, name.as_str()) {
            match parse_u64ish(v) {
                Ok(x) => {
                    self.sp = x;
                },
                Err(e) => {
                    return bad_params_response(e.as_str());
                },
            }
        }
        let mut f = new_fields();
        push_field(&mut f, "set", JsonValue::Bool(true));
        push_field(&mut f, "name", JsonValue::Str(name));
        proof {
            lemma_object_view(f);
        }
        ok_response(JsonValue::Object(f))
    }

    fn read_mem(&self, params: &Option<JsonValue>) -> (r: RpcResponse)
        ensures
            r@ == step_read_mem(self@, opt_view(*params)),
    {
        let addr = match param_u64(params, "addr") {
            Ok(Some(a)) => a,
            _ => {
                return bad_params_response("readMem requires {addr, size}");
            },
        };
        let n: u64 = match param_u64(params, "size") {
            Ok(Some(x)) => if x < 4096 {
                x
            } else {
                4096
            },
            _ => {
                return bad_params_response("readMem requires {addr, size}");
            },
        };
        let block = MemoryBlock {
            addr: crate::num::hex_u64(addr),
            size: n,
            hex: mem_hex_value(self.profile, addr, n),
        };
        ok_response(block.to_json())
    }

    fn write_mem(&self, params: &Option<JsonValue>) -> (r: RpcResponse)
        ensures
            r@ == step_write_mem(opt_view(*params)),
    {
        let addr = match param_u64(params, "addr") {
            Ok(Some(a)) => a,
            _ => {
                return bad_params_response("writeMem requires {addr, hex}");
            },
        };
        let hex = match param_str(params, "hex") {
            Some(h) => h,
            None => String::new(),
        };
        let written = (hex.as_str().len() / 2) as u64;
        let mut f = new_fields();
        push_field(&mut f, "written", JsonValue::UInt(written));
        push_field(&mut f, "addr", jhex(addr));
        proof {
            lemma_object_view(f);
        }
        ok_response(JsonValue::Object(f))
    }

    fn disasm(&self, params: &Option<JsonValue>) -> (r: RpcResponse)
        ensures
            r@ == step_disasm(self@, opt_view(*params)),
    {
        let start = match param_u64(params, "addr") {
            Ok(Some(a)) => a,
            _ => self.pc,
        };
        let count: u64 = match param_u64(params, "count") {
            Ok(Some(x)) => if x < 64 {
                x
            } else {
                64
            },
            _ => 16,
        };
        let items = disasm_lines_value(self.profile, start, count);
        proof {
            lemma_array_view(items);
        }
        ok_response(JsonValue::Array(items))
    }
}

/// Some walk of a finite set of breakpoint IDs.
proof fn lemma_some_walk(ids: Set<u64>) -> (o: Seq<u64>)
    requires
        ids.finite(),
    ensures
        lists_once(o, ids),
    decreases ids.len(),
{
    if ids.len() == 0 {
        ids.lemma_len0_is_empty();
        let o = Seq::<u64>::empty();
        assert(o.to_set() =~= ids);
        o
    } else {
        let x = ids.choose();
        let o0 = lemma_some_walk(ids.remove(x));
        let o = o0.push(x);
        assert(!o0.contains(x)) by {
            assert(!o0.to_set().contains(x));
        }
        assert forall|i: int, j: int| 0 <= i < j < o.len() implies o[i] != o[j] by {
            if j == o.len() - 1 {
                assert(o0.contains(o[i]));
            } else {
                assert(o[i] == o0[i] && o[j] == o0[j]);
            }
        }
        assert forall|y: u64| o.to_set().contains(y) <==> ids.contains(y) by {
            if y == x {
                assert(o[o.len() - 1] == x);
            } else {
                if o.contains(y) {
                    let k = choose|k: int| 0 <= k < o.len() && o[k] == y;
                    assert(o0[k] == y);
                }
                if o0.contains(y) {
                    let k = choose|k: int| 0 <= k < o0.len() && o0[k] == y;
                    assert(o[k] == y);
                }
            }
        }
        assert(o.to_set() =~= ids);
        o
    }
}

/// The position of the first watchpoint with the given ID.
fn find_wp(wps: &Vec<Watchpoint>, id: u64) -> (r: Option<usize>)
    ensures
        match r {
            Some(i) => first_wp(wps@.map_values(|w: Watchpoint| wp_view(w)), id) == Some(i as int),
            None => first_wp(wps@.map_values(|w: Watchpoint| wp_view(w)), id) is None,
        },
        r matches Some(i) ==> i < wps@.len(),
{
    let ghost s = wps@.map_values(|w: Watchpoint| wp_view(w));
    let mut i: usize = 0;
    while i < wps.len()
        invariant
            i <= wps@.len(),
            s == wps@.map_values(|w: Watchpoint| wp_view(w)),
            forall|j: int| 0 <= j < i ==> (#[trigger] s[j]).id != id,
        decreases wps@.len() - i,
    {
        if wps[i].id == id {
            proof {
                assert(s[i as int].id == id);
                let c = choose|k: int| 0 <= k < s.len() && s[k].id == id && forall|j: int| 0 <= j < k ==> s[j].id != id;
                assert(0 <= c < s.len() && s[c].id == id && forall|j: int| 0 <= j < c ==> s[j].id != id);
                if c < i {
                } else if c > i {
                    assert(s[i as int].id != id);
                }
            }
            return Some(i);
        }
        assert(s[i as int].id != id);
        i = i + 1;
    }
    None
}

impl MockBackend {
    fn bp_set(&mut self, params: &Option<JsonValue>) -> (r: RpcResponse)
        requires
            ids_wf(old(self)@),
            old(self)@.bp_next < u64::MAX,
        ensures
            (final(self)@, r@) == step_bp_set(old(self)@, opt_view(*params)),
            ids_wf(final(self)@),
    {
        let addr = match param_u64(params, "addr") {
            Ok(Some(a)) => a,
            _ => {
                return bad_params_response("bpSet requires {addr}");
            },
        };
        let kind = match param_str(params, "kind") {
            Some(k) => k,
            None => match self.profile {
                MockProfile::DbgEng => string_from("INT3"),
                _ => string_from("SW"),
            },
        };
        let id = self.bp_next;
        self.bp_next = self.bp_next + 1;
        let mut f = new_fields();
        push_field(&mut f, "id", JsonValue::UInt(id));
        push_field(&mut f, "addr", jhex(addr));
        push_field(&mut f, "enabled", JsonValue::Bool(true));
        push_field(&mut f, "kind", JsonValue::Str(kind.clone()));
        proof {
            lemma_object_view(f);
        }
        let ghost kv = kind@;
        self.breakpoints.insert(id, Breakpoint { id, addr, enabled: true, hit_count: 0, kind });
        proof {
            assert(self@.breakpoints =~= old(self)@.breakpoints.insert(
                id,
                BpView { id, addr, enabled: true, hit_count: 0, kind: kv },
            ));
            assert forall|k: u64| #[trigger] self@.breakpoints.contains_key(k) implies self@.breakpoints[k].id
                == k && k < self@.bp_next by {
                if k != id {
                    assert(old(self)@.breakpoints.contains_key(k));
                }
            }
        }
        ok_response(JsonValue::Object(f))
    }

    /// The breakpoint IDs, each once, in the order in which the table walks
    /// them.
    fn bp_ids(&self) -> (r: Vec<u64>)
        ensures
            lists_once(r@, self@.breakpoints.dom()),
    {
        let ghost ks = IteratorSpec::remaining(&vstd::std_specs::hash::spec_keys_iter(&self.breakpoints)).unref();
        let mut r: Vec<u64> = Vec::new();
        for k in it: self.breakpoints.keys()
            invariant
                it.seq().unref() == ks,
                r@ == ks.take(it.index() as int),
        {
            r.push(*k);
            assert(ks.take(it.index() + 1) =~= ks.take(it.index() as int).push(*k));
        }
        assert(ks.take(ks.len() as int) =~= ks);
        assert(self@.breakpoints.dom() =~= self.breakpoints@.dom());
        r
    }

    #[verifier::spinoff_prover]
    #[verifier::rlimit(40)]
    fn bp_clear_id(&mut self, id: u64) -> (r: RpcResponse)
        requires
            ids_wf(old(self)@),
        ensures
            (final(self)@, r@) == step_bp_clear_id(old(self)@, id),
            ids_wf(final(self)@),
    {
        let removed = self.breakpoints.remove(&id);
        let cleared = removed.is_some();
        proof {
            assert(self@.breakpoints =~= old(self)@.breakpoints.remove(id));
            assert forall|k: u64| #[trigger] self@.breakpoints.contains_key(k) implies self@.breakpoints[k].id
                == k && k < self@.bp_next by {
                assert(old(self)@.breakpoints.contains_key(k));
            }
        }
        let mut f = new_fields();
        push_field(&mut f, "cleared", JsonValue::Bool(cleared));
        push_field(&mut f, "id", JsonValue::UInt(id));
        proof {
            lemma_object_view(f);
        }
        ok_response(JsonValue::Object(f))
    }

    /// The position in `ids` of the first breakpoint at `addr`.
    fn first_at(&self, ids: &Vec<u64>, addr: u64) -> (r: Option<usize>)
        requires
            lists_once(ids@, self@.breakpoints.dom()),
        ensures
            match r {
                Some(i) => i < ids@.len() && first_bp_at(self@.breakpoints, ids@, addr) == Some(i as int),
                None => first_bp_at(self@.breakpoints, ids@, addr) is None,
            },
    {
        let ghost bps = self@.breakpoints;
        let ghost o = ids@;
        let mut i: usize = 0;
        while i < ids.len()
            invariant
                i <= o.len(),
                o == ids@,
                bps == self@.breakpoints,
                lists_once(o, bps.dom()),
                forall|j: int| 0 <= j < i ==> #[trigger] bps[o[j]].addr != addr,
            decreases o.len() - i,
        {
            let k = ids[i];
            proof {
                assert(o.contains(k));
                assert(o.to_set().contains(k));
            }
            match self.breakpoints.get(&k) {
                Some(b) => {
                    if b.addr == addr {
                        proof {
                            assert(bps[o[i as int]].addr == addr);
                            let c = choose|c: int|
                                0 <= c < o.len() && #[trigger] bps[o[c]].addr == addr && forall|j: int|
                                    0 <= j < c ==> bps[o[j]].addr != addr;
                            if c < i {
                            } else if c > i {
                                assert(bps[o[i as int]].addr != addr);
                            }
                        }
                        return Some(i);
                    }
                },
                None => {},
            }
            assert(bps[o[i as int]].addr != addr);
            i = i + 1;
        }
        None
    }

    #[verifier::spinoff_prover]
    #[verifier::rlimit(40)]
    fn bp_clear_addr(&mut self, addr: u64) -> (r: (RpcResponse, Ghost<Seq<u64>>))
        requires
            ids_wf(old(self)@),
        ensures
            lists_once(r.1@, old(self)@.breakpoints.dom()),
            (final(self)@, r.0@) == step_bp_clear_addr(old(self)@, addr, r.1@),
            ids_wf(final(self)@),
    {
        let ids = self.bp_ids();
        let mut f = new_fields();
        match self.first_at(&ids, addr) {
            Some(i) => {
                let k = ids[i];
                proof {
                    assert(ids@.contains(k));
                    assert(ids@.to_set().contains(k));
                }
                self.breakpoints.remove(&k);
                proof {
                    assert(self@.breakpoints =~= old(self)@.breakpoints.remove(k));
                    assert forall|x: u64| #[trigger] self@.breakpoints.contains_key(x) implies self@.breakpoints[x].id
                        == x && x < self@.bp_next by {
                        assert(old(self)@.breakpoints.contains_key(x));
                    }
                }
                push_field(&mut f, "cleared", JsonValue::Bool(true));
                push_field(&mut f, "id", JsonValue::UInt(k));
            },
            None => {
                push_field(&mut f, "cleared", JsonValue::Bool(false));
            },
        }
        push_field(&mut f, "addr", jhex(addr));
        proof {
            lemma_object_view(f);
        }
        (ok_response(JsonValue::Object(f)), Ghost(ids@))
    }

    fn bp_clear(&mut self, params: &Option<JsonValue>) -> (r: (RpcResponse, Ghost<Seq<u64>>))
        requires
            ids_wf(old(self)@),
        ensures
            lists_once(r.1@, old(self)@.breakpoints.dom()),
            (final(self)@, r.0@) == step_bp_clear(old(self)@, opt_view(*params), r.1@),
            ids_wf(final(self)@),
    {
        let ghost w = lemma_some_walk(self@.breakpoints.dom());
        let id_opt = match param_u64(params, "id") {
            Ok(Some(v)) => Some(v),
            _ => None,
        };
        let addr_opt = match param_u64(params, "addr") {
            Ok(Some(v)) => Some(v),
            _ => None,
        };
        if param_flag(params, "all") {
            self.breakpoints = HashMap::new();
            assert(self@.breakpoints =~= Map::<u64, BpView>::empty());
            let mut f = new_fields();
            push_field(&mut f, "cleared", JsonValue::Bool(true));
            push_field(&mut f, "all", JsonValue::Bool(true));
            proof {
                lemma_object_view(f);
            }
            (ok_response(JsonValue::Object(f)), Ghost(w))
        } else if let Some(id) = id_opt {
            (self.bp_clear_id(id), Ghost(w))
        } else if let Some(addr) = addr_opt {
            self.bp_clear_addr(addr)
        } else {
            (bad_params_response("bpClear requires id, addr, or all"), Ghost(w))
        }
    }

    fn bp_list(&self) -> (r: (JsonValue, Ghost<Seq<u64>>))
        ensures
            lists_once(r.1@, self@.breakpoints.dom()),
            r.0@ == bp_list_json(self@, r.1@),
    {
        let ids = self.bp_ids();
        let mut items = new_items();
        let mut i: usize = 0;
        while i < ids.len()
            invariant
                i <= ids@.len(),
                lists_once(ids@, self@.breakpoints.dom()),
                items_view(items@) == ids@.take(i as int).map_values(
                    |k: u64| bp_record_json(self@.breakpoints[k]),
                ),
            decreases ids@.len() - i,
        {
            let k = ids[i];
            proof {
                assert(ids@.contains(k));
                assert(ids@.to_set().contains(k));
            }
            match self.breakpoints.get(&k) {
                Some(b) => {
                    let line = bp_record_value(b);
                    push_item(&mut items, line);
                },
                None => {},
            }
            assert(ids@.take(i + 1) =~= ids@.take(i as int).push(k));
            i = i + 1;
            assert(items_view(items@) =~= ids@.take(i as int).map_values(
                |k: u64| bp_record_json(self@.breakpoints[k]),
            ));
        }
        assert(ids@.take(i as int) =~= ids@);
        proof {
            lemma_array_view(items);
        }
        (JsonValue::Array(items), Ghost(ids@))
    }

    fn wp_set(&mut self, params: &Option<JsonValue>) -> (r: RpcResponse)
        requires
            ids_wf(old(self)@),
            old(self)@.wp_next < u64::MAX,
        ensures
            (final(self)@, r@) == step_wp_set(old(self)@, opt_view(*params)),
            ids_wf(final(self)@),
    {
        let addr = match param_u64(params, "addr") {
            Ok(Some(a)) => a,
            _ => {
                return bad_params_response("wpSet requires {addr}");
            },
        };
        let size = match param_u64(params, "size") {
            Ok(Some(x)) => x,
            _ => 4,
        };
        let kind = match param_str(params, "kind") {
            Some(k) => k,
            None => match self.profile {
                MockProfile::GdbRemote => string_from("rw"),
                _ => string_from("w"),
            },
        };
        let id = self.wp_next;
        self.wp_next = self.wp_next + 1;
        let mut f = new_fields();
        push_field(&mut f, "id", JsonValue::UInt(id));
        push_field(&mut f, "addr", jhex(addr));
        push_field(&mut f, "size", JsonValue::UInt(size));
        push_field(&mut f, "kind", JsonValue::Str(kind.clone()));
        push_field(&mut f, "enabled", JsonValue::Bool(true));
        proof {
            lemma_object_view(f);
        }
        self.watchpoints.push(Watchpoint { id, addr, size, kind, enabled: true });
        assert(self@.watchpoints =~= old(self)@.watchpoints.push(
            WpView { id, addr, size, kind: self.watchpoints@.last().kind@, enabled: true },
        ));
        ok_response(JsonValue::Object(f))
    }

    /// Removes the watchpoint at position `i`.
    fn remove_wp(&mut self, i: usize)
        requires
            ids_wf(old(self)@),
            i < old(self)@.watchpoints.len(),
        ensures
            final(self)@ == (MockState { watchpoints: old(self)@.watchpoints.remove(i as int), ..old(self)@ }),
            ids_wf(final(self)@),
    {
        self.watchpoints.remove(i);
        assert(self@.watchpoints =~= old(self)@.watchpoints.remove(i as int));
        proof {
            let s0 = old(self)@.watchpoints;
            let s1 = self@.watchpoints;
            assert forall|x: int, y: int| 0 <= x < y < s1.len() implies s1[x].id < s1[y].id by {
                let x0 = if x < i { x } else { x + 1 };
                let y0 = if y < i { y } else { y + 1 };
                assert(s1[x] == s0[x0]);
                assert(s1[y] == s0[y0]);
            }
            assert forall|x: int| 0 <= x < s1.len() implies s1[x].id < self@.wp_next by {
                let x0 = if x < i { x } else { x + 1 };
                assert(s1[x] == s0[x0]);
            }
        }
    }

    fn wp_clear(&mut self, params: &Option<JsonValue>) -> (r: RpcResponse)
        requires
            ids_wf(old(self)@),
        ensures
            (final(self)@, r@) == step_wp_clear(old(self)@, opt_view(*params)),
            ids_wf(final(self)@),
    {
        let id = match param_u64(params, "id") {
            Ok(Some(v)) => v,
            _ => {
                return bad_params_response("wpClear requires {id}");
            },
        };
        let found = match find_wp(&self.watchpoints, id) {
            Some(i) => {
                self.remove_wp(i);
                true
            },
            None => false,
        };
        let mut f = new_fields();
        push_field(&mut f, "cleared", JsonValue::Bool(found));
        push_field(&mut f, "id", JsonValue::UInt(id));
        proof {
            lemma_object_view(f);
        }
        ok_response(JsonValue::Object(f))
    }

    fn wp_list(&self) -> (r: JsonValue)
        ensures
            r@ == Json::Array(self@.watchpoints.map_values(|w: WpView| wp_record_json(w))),
    {
        let mut items = new_items();
        let mut i: usize = 0;
        while i < self.watchpoints.len()
            invariant
                i <= self.watchpoints@.len(),
                items_view(items@) == self@.watchpoints.take(i as int).map_values(
                    |w: WpView| wp_record_json(w),
                ),
            decreases self.watchpoints@.len() - i,
        {
            let line = wp_record_value(&self.watchpoints[i]);
            push_item(&mut items, line);
            assert(self@.watchpoints.take(i + 1) =~= self@.watchpoints.take(i as int).push(
                self@.watchpoints[i as int],
            ));
            i = i + 1;
            assert(items_view(items@) =~= self@.watchpoints.take(i as int).map_values(
                |w: WpView| wp_record_json(w),
            ));
        }
        assert(self@.watchpoints.take(i as int) =~= self@.watchpoints);
        proof {
            lemma_array_view(items);
        }
        JsonValue::Array(items)
    }

    fn resolve(&self, params: &Option<JsonValue>) -> (r: RpcResponse)
        ensures
            r@ == step_resolve(self@, opt_view(*params)),
    {
        let module = match param_str(params, "module") {
            Some(m) => m,
            None => String::new(),
        };
        let symbol = match param_str(params, "symbol") {
            Some(m) => m,
            None => String::new(),
        };
        if symbol.as_str().is_empty() {
            return bad_params_response("resolveSymbol requires {symbol}");
        }
        let m = symbol_module_value(self.profile, module.as_str());
        let lower = to_lowercase(symbol.as_str());
        let s = chars_of(lower.as_str());
        match symbol_value(self.profile, &m, &s) {
            Some(addr) => {
                let mut f = new_fields();
                push_field(&mut f, "addr", jhex(addr));
                push_field(&mut f, "symbol", JsonValue::Str(symbol));
                push_field(&mut f, "module", JsonValue::Str(module));
                push_field(&mut f, "resolved", JsonValue::Bool(true));
                proof {
                    lemma_object_view(f);
                }
                ok_response(JsonValue::Object(f))
            },
            None => {
                let mut msg = string_from("symbol '");
                append_str(&mut msg, symbol.as_str());
                append_str(&mut msg, "' not found in '");
                if module.as_str().is_empty() {
                    append_str(&mut msg, "*");
                } else {
                    append_str(&mut msg, module.as_str());
                }
                append_str(&mut msg, "'");
                RpcResponse::err(0, "symbol_not_found", msg.as_str())
            },
        }
    }
}

impl MockBackend {
    /// Whether the backend can take `method` without running out of IDs.
    pub fn can_take(&self, method: &str) -> (r: bool)
        ensures
            r == can_take(self@, method@),
    {
        proof {
            reveal_strlit("bpSet");
            reveal_strlit("wpSet");
            assert("bpSet"@[0] != "wpSet"@[0]);
            assert("bpSet"@ != "wpSet"@);
        }
        if str_eq(method, "bpSet") {
            self.bp_next < u64::MAX
        } else if str_eq(method, "wpSet") {
            self.wp_next < u64::MAX
        } else {
            true
        }
    }

    /// Answers one request: the next state and the response are those that
    /// `step` gives.
    #[verifier::rlimit(50)]
    pub fn handle(&mut self, method: &str, params: Option<JsonValue>) -> (r: RpcResponse)
        requires
            ids_wf(old(self)@),
            can_take(old(self)@, method@),
        ensures
            exists|order: Seq<u64>|
                lists_once(order, old(self)@.breakpoints.dom()) && (final(self)@, r@) == step(
                    old(self)@,
                    method@,
                    opt_view(params),
                    order,
                ),
            ids_wf(final(self)@),
    {
        let ghost mut order = lemma_some_walk(self@.breakpoints.dom());
        reveal(step);
        let p = self.profile;
        let r = if str_eq(method, "hello") {
            ok_response(hello_value(p))
        } else if str_eq(method, "capabilities") {
            ok_response(capabilities_value(p))
        } else if str_eq(method, "attach") {
            self.attach(&params)
        } else if str_eq(method, "launch") {
            self.launch(&params)
        } else if str_eq(method, "detach") {
            self.attached_pid = None;
            self.launched_path = None;
            ok_response(flag_value("detached"))
        } else if str_eq(method, "kill") {
            self.attached_pid = None;
            self.launched_path = None;
            let mut f = new_fields();
            push_field(&mut f, "killed", JsonValue::Bool(true));
            push_field(&mut f, "exit_code", JsonValue::UInt(0));
            proof {
                lemma_object_view(f);
            }
            ok_response(JsonValue::Object(f))
        } else if str_eq(method, "go") {
            let step: u64 = match p {
                MockProfile::DbgEng => 5,
                _ => 4,
            };
            self.pc = self.pc.wrapping_add(step);
            ok_response(flag_value("running"))
        } else if str_eq(method, "pause") {
            ok_response(pause_value(p, self.pc))
        } else if str_eq(method, "stepInto") {
            let step: u64 = match p {
                MockProfile::DbgEng => 1,
                _ => 4,
            };
            self.pc = self.pc.wrapping_add(step);
            ok_response(stopped_value("stepInto", self.pc))
        } else if str_eq(method, "stepOver") {
            let step: u64 = match p {
                MockProfile::DbgEng => 5,
                _ => 4,
            };
            self.pc = self.pc.wrapping_add(step);
            ok_response(stopped_value("stepOver", self.pc))
        } else if str_eq(method, "stepOut") {
            let step: u64 = match p {
                MockProfile::DbgEng => 0x40,
                MockProfile::Lldb => 0x30,
                MockProfile::GdbRemote => 0x20,
            };
            self.pc = self.pc.wrapping_add(step);
            ok_response(stopped_value("stepOut", self.pc))
        } else if str_eq(method, "regs") {
            ok_response(self.regs_value())
        } else if str_eq(method, "setReg") {
            self.set_reg(&params)
        } else if str_eq(method, "readMem") {
            self.read_mem(&params)
        } else if str_eq(method, "writeMem") {
            self.write_mem(&params)
        } else if str_eq(method, "disasm") {
            self.disasm(&params)
        } else if str_eq(method, "bpSet") {
            self.bp_set(&params)
        } else if str_eq(method, "bpClear") {
            let (r, Ghost(o)) = self.bp_clear(&params);
            proof {
                order = o;
            }
            r
        } else if str_eq(method, "bpList") {
            let (v, Ghost(o)) = self.bp_list();
            proof {
                order = o;
            }
            ok_response(v)
        } else if str_eq(method, "threads") {
            ok_response(threads_value(p, self.pc))
        } else if str_eq(method, "modules") {
            ok_response(modules_value(p, &self.launched_path))
        } else if str_eq(method, "callstack") {
            ok_response(callstack_value(p, self.pc))
        } else if str_eq(method, "wpSet") {
            self.wp_set(&params)
        } else if str_eq(method, "wpClear") {
            self.wp_clear(&params)
        } else if str_eq(method, "wpList") {
            ok_response(self.wp_list())
        } else if str_eq(method, "processList") {
            ok_response(processes_value(p, &self.target_arch))
        } else if str_eq(method, "shutdown") {
            ok_response(flag_value("bye"))
        } else if str_eq(method, "resolveSymbol") {
            self.resolve(&params)
        } else {
            let mut msg = string_from(backend_kind_str(p));
            append_str(&mut msg, " does not implement '");
            append_str(&mut msg, method);
            append_str(&mut msg, "'");
            RpcResponse::err(0, "unknown_method", msg.as_str())
        };
        proof {
            assert(lists_once(order, old(self)@.breakpoints.dom()));
            assert((self@, r@) == step(old(self)@, method@, opt_view(params), order));
        }
        r
    }
}

} // verus!
