//! What holds of the simulated backends across calls: queries change
//! nothing, what `bpSet`/`wpSet` add the matching clear takes away, a
//! register that was set reads back, and the ID bookkeeping is kept by
//! every method.
use vstd::prelude::*;
use crate::json::Json;
use crate::backend::spec_param_str;
use crate::json::opt_get;
use crate::mock::{
    BpView, MockState, WpView, addr_param, bad_params, bp_list_json, can_take,
    default_bp_kind, disasm_lines, first_wp, ids_wf, is_pc_name, is_sp_name, mem_hex, ok0,
    regs_dump_json, step,
};
use crate::protocol::spec_parse_u64ish;
use crate::text::lowercase;
use crate::winapi::lists_once;
use crate::mock_data::{MockProfile, registers_of};
use crate::num::{hex_fixed, lemma_hex_fixed_len, spec_hex_u64};

verus! {

/// The method names a backend answers, spelled out for the solver.
proof fn lemma_method_names()
    ensures
        "hello"@.len() == 5 && "hello"@[0] == 'h',
        "capabilities"@.len() == 12,
        "attach"@.len() == 6 && "attach"@[0] == 'a',
        "launch"@.len() == 6 && "launch"@[0] == 'l',
        "detach"@.len() == 6 && "detach"@[0] == 'd' && "detach"@[1] == 'e',
        "kill"@.len() == 4 && "kill"@[0] == 'k',
        "go"@.len() == 2,
        "pause"@.len() == 5 && "pause"@[0] == 'p',
        "stepInto"@.len() == 8 && "stepInto"@[0] == 's' && "stepInto"@[1] == 't' && "stepInto"@[4] == 'I',
        "stepOver"@.len() == 8 && "stepOver"@[0] == 's' && "stepOver"@[1] == 't' && "stepOver"@[4] == 'O',
        "stepOut"@.len() == 7 && "stepOut"@[0] == 's',
        "regs"@.len() == 4 && "regs"@[0] == 'r',
        "setReg"@.len() == 6 && "setReg"@[0] == 's',
        "readMem"@.len() == 7 && "readMem"@[0] == 'r',
        "writeMem"@.len() == 8 && "writeMem"@[0] == 'w',
        "disasm"@.len() == 6 && "disasm"@[0] == 'd' && "disasm"@[1] == 'i',
        "bpSet"@.len() == 5 && "bpSet"@[0] == 'b',
        "bpClear"@.len() == 7 && "bpClear"@[0] == 'b',
        "bpList"@.len() == 6 && "bpList"@[0] == 'b',
        "threads"@.len() == 7 && "threads"@[0] == 't',
        "modules"@.len() == 7 && "modules"@[0] == 'm',
        "callstack"@.len() == 9,
        "wpSet"@.len() == 5 && "wpSet"@[0] == 'w',
        "wpClear"@.len() == 7 && "wpClear"@[0] == 'w',
        "wpList"@.len() == 6 && "wpList"@[0] == 'w',
        "processList"@.len() == 11,
        "shutdown"@.len() == 8 && "shutdown"@[0] == 's' && "shutdown"@[1] == 'h',
        "resolveSymbol"@.len() == 13,
        "id"@.len() == 2 && "id"@[0] == 'i',
        "all"@.len() == 3,
        "addr"@.len() == 4 && "addr"@[0] == 'a',
        "name"@.len() == 4 && "name"@[0] == 'n',
        "value"@.len() == 5 && "value"@[0] == 'v',
        "pc"@.len() == 2 && "pc"@[0] == 'p',
{
    reveal_strlit("hello");
    reveal_strlit("capabilities");
    reveal_strlit("attach");
    reveal_strlit("launch");
    reveal_strlit("detach");
    reveal_strlit("kill");
    reveal_strlit("go");
    reveal_strlit("pause");
    reveal_strlit("stepInto");
    reveal_strlit("stepOver");
    reveal_strlit("stepOut");
    reveal_strlit("regs");
    reveal_strlit("setReg");
    reveal_strlit("readMem");
    reveal_strlit("writeMem");
    reveal_strlit("disasm");
    reveal_strlit("bpSet");
    reveal_strlit("bpClear");
    reveal_strlit("bpList");
    reveal_strlit("threads");
    reveal_strlit("modules");
    reveal_strlit("callstack");
    reveal_strlit("wpSet");
    reveal_strlit("wpClear");
    reveal_strlit("wpList");
    reveal_strlit("processList");
    reveal_strlit("shutdown");
    reveal_strlit("resolveSymbol");
    reveal_strlit("id");
    reveal_strlit("all");
    reveal_strlit("addr");
    reveal_strlit("name");
    reveal_strlit("value");
    reveal_strlit("pc");
}

/// The methods that only report.
pub open spec fn is_query(m: Seq<char>) -> bool {
    ||| m == "hello"@
    ||| m == "capabilities"@
    ||| m == "pause"@
    ||| m == "regs"@
    ||| m == "readMem"@
    ||| m == "writeMem"@
    ||| m == "disasm"@
    ||| m == "bpList"@
    ||| m == "threads"@
    ||| m == "modules"@
    ||| m == "callstack"@
    ||| m == "wpList"@
    ||| m == "processList"@
    ||| m == "shutdown"@
    ||| m == "resolveSymbol"@
}

/// A query leaves the backend as it was.
pub proof fn law_query_keeps_state(s: MockState, m: Seq<char>, params: Option<Json>, order: Seq<u64>)
    requires
        is_query(m),
    ensures
        step(s, m, params, order).0 == s,
{
    lemma_method_names();
    reveal(step);
}

proof fn lemma_min_wp(wps: Seq<WpView>, id: u64, i: int)
    requires
        0 <= i < wps.len(),
        wps[i].id == id,
    ensures
        exists|k: int| 0 <= k < wps.len() && wps[k].id == id && forall|j: int| 0 <= j < k ==> wps[j].id != id,
    decreases i,
{
    if exists|j: int| 0 <= j < i && wps[j].id == id {
        let j = choose|j: int| 0 <= j < i && wps[j].id == id;
        lemma_min_wp(wps, id, j);
    } else {
        assert(forall|j: int| 0 <= j < i ==> wps[j].id != id);
    }
}

proof fn lemma_first_wp_in_range(wps: Seq<WpView>, id: u64)
    ensures
        first_wp(wps, id) matches Some(i) ==> 0 <= i < wps.len() && wps[i].id == id,
{
    if exists|i: int| 0 <= i < wps.len() && wps[i].id == id {
        let i = choose|i: int| 0 <= i < wps.len() && wps[i].id == id;
        lemma_min_wp(wps, id, i);
    }
}

/// Watchpoints with increasing IDs below `next`.
pub open spec fn wps_wf(wps: Seq<WpView>, next: u64) -> bool {
    &&& forall|i: int, j: int| 0 <= i < j < wps.len() ==> wps[i].id < wps[j].id
    &&& forall|i: int| 0 <= i < wps.len() ==> wps[i].id < next
}

proof fn lemma_wps_remove(wps: Seq<WpView>, next: u64, k: int)
    requires
        wps_wf(wps, next),
        0 <= k < wps.len(),
    ensures
        wps_wf(wps.remove(k), next),
{
    let t = wps.remove(k);
    assert forall|x: int, y: int| 0 <= x < y < t.len() implies t[x].id < t[y].id by {
        let x0 = if x < k { x } else { x + 1 };
        let y0 = if y < k { y } else { y + 1 };
        assert(t[x] == wps[x0]);
        assert(t[y] == wps[y0]);
    }
    assert forall|x: int| 0 <= x < t.len() implies t[x].id < next by {
        let x0 = if x < k { x } else { x + 1 };
        assert(t[x] == wps[x0]);
    }
}

/// Every method keeps the breakpoint and watchpoint IDs distinct, in
/// increasing order and below the next ID to give out.
pub proof fn law_step_keeps_ids(s: MockState, m: Seq<char>, params: Option<Json>, order: Seq<u64>)
    requires
        ids_wf(s),
        can_take(s, m),
    ensures
        ids_wf(step(s, m, params, order).0),
{
    lemma_method_names();
    reveal(step);
    let t = step(s, m, params, order).0;
    assert(wps_wf(s.watchpoints, s.wp_next));
    if m == "bpClear"@ {
        assert forall|k: u64| #[trigger] t.breakpoints.contains_key(k) implies t.breakpoints[k].id == k && k
            < t.bp_next by {
            assert(s.breakpoints.contains_key(k));
        }
    } else if m == "bpSet"@ {
        assert forall|k: u64| #[trigger] t.breakpoints.contains_key(k) implies t.breakpoints[k].id == k && k
            < t.bp_next by {
            if k != s.bp_next {
                assert(s.breakpoints.contains_key(k));
            }
        }
    } else if m == "wpClear"@ {
        match crate::backend::spec_param_u64(params, "id"@) {
            Ok(Some(id)) => {
                lemma_first_wp_in_range(s.watchpoints, id);
                match first_wp(s.watchpoints, id) {
                    Some(k) => lemma_wps_remove(s.watchpoints, s.wp_next, k),
                    None => {},
                }
            },
            _ => {},
        }
    }
    assert(wps_wf(t.watchpoints, t.wp_next));
}

proof fn lemma_step_bp_set(s: MockState, p: Option<Json>, order: Seq<u64>)
    ensures
        step(s, "bpSet"@, p, order) == crate::mock::step_bp_set(s, p),
{
    lemma_method_names();
    reveal(step);
}

proof fn lemma_step_bp_clear(s: MockState, p: Option<Json>, order: Seq<u64>)
    ensures
        step(s, "bpClear"@, p, order) == crate::mock::step_bp_clear(s, p, order),
{
    lemma_method_names();
    reveal(step);
}

proof fn lemma_step_bp_list(s: MockState, p: Option<Json>, order: Seq<u64>)
    ensures
        step(s, "bpList"@, p, order) == (s, crate::mock::ok0(crate::mock::bp_list_json(s, order))),
{
    lemma_method_names();
    reveal(step);
}

proof fn lemma_step_wp_set(s: MockState, p: Option<Json>, order: Seq<u64>)
    ensures
        step(s, "wpSet"@, p, order) == crate::mock::step_wp_set(s, p),
{
    lemma_method_names();
    reveal(step);
}

proof fn lemma_step_wp_clear(s: MockState, p: Option<Json>, order: Seq<u64>)
    ensures
        step(s, "wpClear"@, p, order) == crate::mock::step_wp_clear(s, p),
{
    lemma_method_names();
    reveal(step);
}

proof fn lemma_step_set_reg(s: MockState, p: Option<Json>, order: Seq<u64>)
    ensures
        step(s, "setReg"@, p, order) == crate::mock::step_set_reg(s, p),
{
    lemma_method_names();
    reveal(step);
}

proof fn lemma_step_regs(s: MockState, p: Option<Json>, order: Seq<u64>)
    ensures
        step(s, "regs"@, p, order) == (s, crate::mock::ok0(regs_dump_json(s))),
{
    lemma_method_names();
    reveal(step);
}

/// Parameters that hold one member.
pub open spec fn one_param(key: Seq<char>, value: Json) -> Option<Json> {
    Some(Json::Object(seq![(key, value)]))
}

proof fn lemma_one_param_get(key: Seq<char>, value: Json, k: Seq<char>)
    ensures
        crate::json::opt_get(one_param(key, value), k) == (if k == key {
            Some(value)
        } else {
            None
        }),
{
    reveal_with_fuel(crate::json::fields_lookup, 2);
    assert(seq![(key, value)].drop_last() =~= Seq::<(Seq<char>, Json)>::empty());
}

/// `bpSet` then `bpList`: with an address that reads as an integer (a
/// number, or text in decimal or `0x` form) `bpSet` adds one enabled
/// breakpoint there under the next ID, of the kind asked for or else the
/// backend's default, and answers with it; `bpList` then lists every
/// breakpoint once, in whatever order the table is walked, the new one
/// among them and the only one under its ID. Without such an address the
/// call is refused and nothing changes.
pub proof fn law_bp_set_adds(s: MockState, params: Option<Json>, order: Seq<u64>)
    requires
        ids_wf(s),
        can_take(s, "bpSet"@),
    ensures
        ({
            let (t, r) = step(s, "bpSet"@, params, order);
            match addr_param(params) {
                None => t == s && r == bad_params("bpSet requires {addr}"@),
                Some(x) => {
                    let kind = match spec_param_str(params, "kind"@) {
                        Some(k) => k,
                        None => default_bp_kind(s.profile),
                    };
                    let b = BpView { id: s.bp_next, addr: x, enabled: true, hit_count: 0, kind };
                    &&& r == ok0(
                        Json::Object(
                            Seq::empty().push(("id"@, Json::UInt(s.bp_next))).push(
                                ("addr"@, Json::Str(spec_hex_u64(x))),
                            ).push(("enabled"@, Json::Bool(true))).push(("kind"@, Json::Str(kind))),
                        ),
                    )
                    &&& t.bp_next == s.bp_next + 1
                    &&& !s.breakpoints.contains_key(s.bp_next)
                    &&& t.breakpoints == s.breakpoints.insert(s.bp_next, b)
                    &&& ids_wf(t)
                    &&& forall|walk: Seq<u64>|
                        #[trigger] lists_once(walk, t.breakpoints.dom()) ==> {
                            &&& step(t, "bpList"@, None, walk) == (t, ok0(bp_list_json(t, walk)))
                            &&& walk.contains(s.bp_next)
                            &&& forall|i: int|
                                0 <= i < walk.len() ==> (#[trigger] t.breakpoints[walk[i]]).id == walk[i]
                        }
                },
            }
        }),
{
    lemma_step_bp_set(s, params, order);
    let t = step(s, "bpSet"@, params, order).0;
    law_step_keeps_ids(s, "bpSet"@, params, order);
    assert forall|walk: Seq<u64>| #[trigger] lists_once(walk, t.breakpoints.dom()) implies {
        &&& step(t, "bpList"@, None, walk) == (t, ok0(bp_list_json(t, walk)))
        &&& (addr_param(params) is Some ==> walk.contains(s.bp_next))
        &&& forall|i: int| 0 <= i < walk.len() ==> (#[trigger] t.breakpoints[walk[i]]).id == walk[i]
    } by {
        lemma_step_bp_list(t, None, walk);
        if addr_param(params) is Some {
            assert(walk.to_set().contains(s.bp_next));
        }
        assert forall|i: int| 0 <= i < walk.len() implies (#[trigger] t.breakpoints[walk[i]]).id == walk[i] by {
            assert(walk.contains(walk[i]));
            assert(walk.to_set().contains(walk[i]));
        }
    }
}

/// Clearing by ID the breakpoint that `bpSet` just added gives back the
/// breakpoints that were there before.
pub proof fn law_bp_set_then_clear(s: MockState, addr: u64, order: Seq<u64>)
    requires
        ids_wf(s),
        can_take(s, "bpSet"@),
    ensures
        ({
            let (t, r) = step(s, "bpSet"@, one_param("addr"@, Json::UInt(addr)), order);
            let (u, r2) = step(t, "bpClear"@, one_param("id"@, Json::UInt(s.bp_next)), order);
            &&& u.breakpoints == s.breakpoints
            &&& r2 == ok0(
                Json::Object(seq![("cleared"@, Json::Bool(true)), ("id"@, Json::UInt(s.bp_next))]),
            )
        }),
{
    let p = one_param("addr"@, Json::UInt(addr));
    lemma_one_param_get("addr"@, Json::UInt(addr), "addr"@);
    law_bp_set_adds(s, p, order);
    let t = step(s, "bpSet"@, p, order).0;
    let q = one_param("id"@, Json::UInt(s.bp_next));
    lemma_step_bp_clear(t, q, order);
    lemma_method_names();
    lemma_one_param_get("id"@, Json::UInt(s.bp_next), "id"@);
    lemma_one_param_get("id"@, Json::UInt(s.bp_next), "all"@);
    lemma_one_param_get("id"@, Json::UInt(s.bp_next), "addr"@);
    assert(t.breakpoints.remove(s.bp_next) =~= s.breakpoints);
    assert(seq![("cleared"@, Json::Bool(true)), ("id"@, Json::UInt(s.bp_next))] =~= Seq::empty().push(("cleared"@, Json::Bool(true))).push(("id"@, Json::UInt(s.bp_next))));
}

/// Clearing by ID the watchpoint that `wpSet` just added gives back the
/// watchpoints that were there before.
pub proof fn law_wp_set_then_clear(s: MockState, addr: u64, order: Seq<u64>)
    requires
        ids_wf(s),
        can_take(s, "wpSet"@),
    ensures
        ({
            let (t, r) = step(s, "wpSet"@, one_param("addr"@, Json::UInt(addr)), order);
            let (u, r2) = step(t, "wpClear"@, one_param("id"@, Json::UInt(s.wp_next)), order);
            &&& r.ok
            &&& t.watchpoints.len() == s.watchpoints.len() + 1
            &&& t.watchpoints.last().id == s.wp_next
            &&& t.watchpoints.last().addr == addr
            &&& u.watchpoints == s.watchpoints
            &&& r2 == crate::mock::ok0(
                Json::Object(seq![("cleared"@, Json::Bool(true)), ("id"@, Json::UInt(s.wp_next))]),
            )
        }),
{
    let p = one_param("addr"@, Json::UInt(addr));
    lemma_step_wp_set(s, p, order);
    lemma_method_names();
    lemma_one_param_get("addr"@, Json::UInt(addr), "addr"@);
    let t = step(s, "wpSet"@, p, order).0;
    let q = one_param("id"@, Json::UInt(s.wp_next));
    lemma_step_wp_clear(t, q, order);
    lemma_one_param_get("id"@, Json::UInt(s.wp_next), "id"@);
    let n = s.watchpoints.len() as int;
    assert(t.watchpoints[n].id == s.wp_next);
    assert forall|j: int| 0 <= j < n implies t.watchpoints[j].id != s.wp_next by {
        assert(t.watchpoints[j] == s.watchpoints[j]);
    }
    let c = choose|i: int| 0 <= i < t.watchpoints.len() && t.watchpoints[i].id == s.wp_next && forall|j: int| 0 <= j < i ==> t.watchpoints[j].id != s.wp_next;
    assert(c == n);
    assert(first_wp(t.watchpoints, s.wp_next) == Some(n));
    assert(t.watchpoints.remove(n) =~= s.watchpoints);
    assert(seq![("cleared"@, Json::Bool(true)), ("id"@, Json::UInt(s.wp_next))] =~= Seq::empty().push(("cleared"@, Json::Bool(true))).push(("id"@, Json::UInt(s.wp_next))));
}

/// The answer of a `setReg` that was taken.
pub open spec fn set_reg_reply(name: Seq<char>) -> Json {
    Json::Object(Seq::empty().push(("set"@, Json::Bool(true))).push(("name"@, Json::Str(name))))
}

/// `setReg` then `regs`. The name is taken in lower case. Without a name
/// (an empty one included) or a value the call is refused and nothing
/// changes. Setting the program
/// counter (`pc`, and `rip` on DbgEng) or the stack pointer (`sp`, `rsp` on
/// DbgEng) with a value that reads as an integer moves that register, and
/// `regs` then reports the value under the backend's name for it (and the
/// frame register that follows the stack pointer, where the backend has
/// one); a value that does not read is refused with the reason. Any other
/// name is answered as set and changes nothing.
pub proof fn law_set_reg_then_regs(s: MockState, params: Option<Json>, order: Seq<u64>)
    ensures
        ({
            let (t, r) = step(s, "setReg"@, params, order);
            let raw = match spec_param_str(params, "name"@) {
                Some(n) => n,
                None => Seq::empty(),
            };
            let name = lowercase(raw);
            let value = opt_get(params, "value"@);
            let regs = registers_of(t.profile, t.pc, t.sp);
            &&& step(t, "regs"@, None, order) == (t, ok0(regs_dump_json(t)))
            &&& if raw.len() == 0 || value is None {
                t == s && r == bad_params("setReg requires {name, value}"@)
            } else if is_pc_name(s.profile, name) || is_sp_name(s.profile, name) {
                match spec_parse_u64ish(value->0) {
                    Err(e) => t == s && r == bad_params(e),
                    Ok(v) => {
                        &&& r == ok0(set_reg_reply(name))
                        &&& is_pc_name(s.profile, name) ==> t == MockState { pc: v, ..s } && regs.contains(
                            (pc_reg_name(s.profile), spec_hex_u64(v)),
                        )
                        &&& is_sp_name(s.profile, name) ==> t == MockState { sp: v, ..s } && regs.contains(
                            (sp_reg_name(s.profile), spec_hex_u64(v)),
                        ) && match sp_linked(s.profile, v) {
                            Some(e) => regs.contains(e),
                            None => true,
                        }
                    },
                }
            } else {
                t == s && r == ok0(set_reg_reply(name))
            }
        }),
{
    lemma_step_set_reg(s, params, order);
    let t = step(s, "setReg"@, params, order).0;
    lemma_step_regs(t, None, order);
    lemma_pc_register(t.profile, t.pc, t.sp);
    lemma_sp_register(t.profile, t.pc, t.sp);
    reveal_strlit("pc");
    reveal_strlit("rip");
    reveal_strlit("sp");
    reveal_strlit("rsp");
    assert("pc"@[0] != "sp"@[0] && "rip"@[1] != "rsp"@[1]);
    assert("pc"@ != "sp"@ && "rip"@ != "rsp"@ && "pc"@ != "rsp"@ && "rip"@ != "sp"@);
}

/// The name under which a backend reports its program counter.
pub open spec fn pc_reg_name(p: MockProfile) -> Seq<char> {
    match p {
        MockProfile::DbgEng => "rip"@,
        _ => "pc"@,
    }
}

/// The name under which a backend reports its stack pointer.
pub open spec fn sp_reg_name(p: MockProfile) -> Seq<char> {
    match p {
        MockProfile::DbgEng => "rsp"@,
        _ => "sp"@,
    }
}

/// The frame register that a backend derives from its stack pointer, with
/// the value it then reports: `rbp` 0x40 above it on DbgEng, `s0` 0x10
/// above it on the GDB stub.
pub open spec fn sp_linked(p: MockProfile, sp: u64) -> Option<(Seq<char>, Seq<char>)> {
    match p {
        MockProfile::DbgEng => Some(("rbp"@, spec_hex_u64(sp.wrapping_add(0x40)))),
        MockProfile::GdbRemote => Some(("s0"@, spec_hex_u64(sp.wrapping_add(0x10)))),
        MockProfile::Lldb => None,
    }
}

/// The register file holds the stack pointer under its name, and the frame
/// register that follows it.
proof fn lemma_sp_register(p: MockProfile, pc: u64, sp: u64)
    ensures
        registers_of(p, pc, sp).contains((sp_reg_name(p), spec_hex_u64(sp))),
        match sp_linked(p, sp) {
            Some(e) => registers_of(p, pc, sp).contains(e),
            None => true,
        },
{
    let r = registers_of(p, pc, sp);
    match p {
        MockProfile::GdbRemote => {
            assert(r[23] == (sp_reg_name(p), spec_hex_u64(sp)));
            assert(r[11] == sp_linked(p, sp)->0);
        },
        MockProfile::Lldb => assert(r[2] == (sp_reg_name(p), spec_hex_u64(sp))),
        MockProfile::DbgEng => {
            assert(r[22] == (sp_reg_name(p), spec_hex_u64(sp)));
            assert(r[15] == sp_linked(p, sp)->0);
        },
    }
}

/// The register file holds the program counter under its name.
proof fn lemma_pc_register(p: MockProfile, pc: u64, sp: u64)
    ensures
        registers_of(p, pc, sp).contains((pc_reg_name(p), spec_hex_u64(pc))),
{
    let r = registers_of(p, pc, sp);
    match p {
        MockProfile::GdbRemote => assert(r[9] == (pc_reg_name(p), spec_hex_u64(pc))),
        MockProfile::Lldb => assert(r[1] == (pc_reg_name(p), spec_hex_u64(pc))),
        MockProfile::DbgEng => assert(r[20] == (pc_reg_name(p), spec_hex_u64(pc))),
    }
}

/// `readMem` answers with two hexadecimal digits for each of the bytes
/// asked for, at most 4096.
pub proof fn law_read_mem_len(p: crate::mock_data::MockProfile, addr: u64, n: nat)
    ensures
        mem_hex(p, addr, n).len() == 2 * n,
    decreases n,
{
    if n > 0 {
        law_read_mem_len(p, addr, (n - 1) as nat);
        lemma_hex_fixed_len(crate::mock::mem_byte(p, addr, (n - 1) as nat), 2, false);
    }
}

/// `disasm` gives exactly as many lines as asked for.
pub proof fn law_disasm_count(p: crate::mock_data::MockProfile, start: u64, count: nat)
    ensures
        disasm_lines(p, start, count).len() == count,
{
}

/// A method that no backend knows is refused with `unknown_method` and
/// changes nothing.
pub proof fn law_unknown_method(s: MockState, m: Seq<char>, params: Option<Json>, order: Seq<u64>)
    requires
        !crate::mock::is_known_method(m),
    ensures
        step(s, m, params, order).0 == s,
        step(s, m, params, order).1.error matches Some(e) && e.0 == "unknown_method"@,
        !step(s, m, params, order).1.ok,
{
    reveal(step);
}

} // verus!
