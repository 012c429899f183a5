use hywdbg::json::JsonValue;
use hywdbg::mock::MockBackend;
use hywdbg::mock_data::MockProfile;
use hywdbg::protocol::RpcResponse;

fn params(fields: Vec<(&str, JsonValue)>) -> Option<JsonValue> {
    Some(JsonValue::Object(fields.into_iter().map(|(k, v)| (k.to_string(), v)).collect()))
}

fn text(s: &str) -> JsonValue {
    JsonValue::Str(s.to_string())
}

fn call(b: &mut MockBackend, method: &str, p: Option<JsonValue>) -> RpcResponse {
    assert!(b.can_take(method));
    b.handle(method, p)
}

fn result(r: &RpcResponse) -> &JsonValue {
    assert!(r.ok, "expected success, got {:?}", r.error);
    r.result.as_ref().unwrap()
}

fn field_str<'a>(v: &'a JsonValue, key: &str) -> &'a str {
    v.get(key).and_then(|x| x.as_str()).unwrap()
}

fn field_u64(v: &JsonValue, key: &str) -> u64 {
    v.get(key).and_then(|x| x.as_u64()).unwrap()
}

fn field_bool(v: &JsonValue, key: &str) -> bool {
    v.get(key).and_then(|x| x.as_bool()).unwrap()
}

fn error_of(r: &RpcResponse) -> (String, String) {
    assert!(!r.ok);
    let e = r.error.as_ref().unwrap();
    (e.code.clone(), e.message.clone())
}

fn reg<'a>(regs: &'a JsonValue, name: &str) -> &'a str {
    field_str(regs.get("registers").unwrap(), name)
}

#[test]
fn gdb_hello_names_the_backend() {
    let mut b = MockBackend::new(MockProfile::GdbRemote);
    let r = call(&mut b, "hello", None);
    let v = result(&r);
    assert_eq!(field_str(v, "name"), "HYWDbg GDB Remote Backend");
    assert_eq!(field_str(v, "kind"), "gdbremote");
    assert_eq!(field_str(v, "mode"), "stdio-backend");
}

#[test]
fn gdb_capabilities_list_arches_and_features() {
    let mut b = MockBackend::new(MockProfile::GdbRemote);
    let r = call(&mut b, "capabilities", None);
    let v = result(&r);
    assert_eq!(field_str(v, "backend_kind"), "gdbremote");
    assert_eq!(field_str(v, "version"), "0.1.0");
    let arches = v.get("supported_arches").unwrap().as_array().unwrap();
    assert_eq!(arches.len(), 8);
    assert_eq!(arches[4].as_str(), Some("riscv64"));
    let features = v.get("features").unwrap().as_array().unwrap();
    assert_eq!(features.len(), 13);
    assert_eq!(features[12].as_str(), Some("processList"));
}

#[test]
fn gdb_initial_registers() {
    let mut b = MockBackend::new(MockProfile::GdbRemote);
    let r = call(&mut b, "regs", None);
    let v = result(&r);
    assert_eq!(field_str(v, "arch"), "riscv64");
    assert_eq!(reg(v, "pc"), "0x0000000000010000");
    assert_eq!(reg(v, "sp"), "0x0000000080000000");
    assert_eq!(reg(v, "s0"), "0x0000000080000010");
    assert_eq!(reg(v, "a7"), "0x0000000000000007");
}

#[test]
fn set_pc_then_regs_reports_it() {
    let mut b = MockBackend::new(MockProfile::GdbRemote);
    let r = call(&mut b, "setReg", params(vec![("name", text("PC")), ("value", text("0x4000"))]));
    let v = result(&r);
    assert!(field_bool(v, "set"));
    // The register name comes back lower-cased.
    assert_eq!(field_str(v, "name"), "pc");
    let r = call(&mut b, "regs", None);
    assert_eq!(reg(result(&r), "pc"), "0x0000000000004000");
}

#[test]
fn set_sp_moves_frame_pointer_too() {
    let mut b = MockBackend::new(MockProfile::GdbRemote);
    let r = call(&mut b, "setReg", params(vec![("name", text("sp")), ("value", JsonValue::UInt(0x100))]));
    result(&r);
    let r = call(&mut b, "regs", None);
    let v = result(&r);
    assert_eq!(reg(v, "sp"), "0x0000000000000100");
    assert_eq!(reg(v, "s0"), "0x0000000000000110");
}

#[test]
fn set_reg_needs_name_and_value() {
    let mut b = MockBackend::new(MockProfile::GdbRemote);
    let r = call(&mut b, "setReg", params(vec![("name", text("pc"))]));
    assert_eq!(error_of(&r), ("bad_params".to_string(), "setReg requires {name, value}".to_string()));
    let r = call(&mut b, "setReg", params(vec![("value", JsonValue::UInt(1))]));
    assert_eq!(error_of(&r).0, "bad_params");
}

#[test]
fn set_reg_bad_value_is_refused() {
    let mut b = MockBackend::new(MockProfile::GdbRemote);
    let r = call(&mut b, "setReg", params(vec![("name", text("pc")), ("value", text("zz"))]));
    assert_eq!(error_of(&r), ("bad_params".to_string(), "invalid digit found in string".to_string()));
    let r = call(&mut b, "setReg", params(vec![("name", text("pc")), ("value", JsonValue::Bool(true))]));
    assert_eq!(error_of(&r), ("bad_params".to_string(), "expected integer or string".to_string()));
    let r = call(&mut b, "setReg", params(vec![("name", text("pc")), ("value", JsonValue::Int(-1))]));
    assert_eq!(error_of(&r), ("bad_params".to_string(), "number is not u64".to_string()));
}

#[test]
fn set_other_register_changes_nothing() {
    let mut b = MockBackend::new(MockProfile::GdbRemote);
    let r = call(&mut b, "setReg", params(vec![("name", text("a0")), ("value", JsonValue::UInt(9))]));
    assert_eq!(field_str(result(&r), "name"), "a0");
    let r = call(&mut b, "regs", None);
    let v = result(&r);
    assert_eq!(reg(v, "a0"), "0x0000000000000000");
    assert_eq!(reg(v, "pc"), "0x0000000000010000");
}

#[test]
fn gdb_execution_control_moves_pc() {
    let mut b = MockBackend::new(MockProfile::GdbRemote);
    let r = call(&mut b, "go", None);
    assert!(field_bool(result(&r), "running"));
    let r = call(&mut b, "pause", None);
    let v = result(&r);
    assert_eq!(field_str(v, "pc"), "0x0000000000010004");
    assert_eq!(field_str(v, "reason"), "signal");
    assert_eq!(field_u64(v, "signal"), 2);
    let r = call(&mut b, "stepInto", None);
    assert_eq!(field_str(result(&r), "pc"), "0x0000000000010008");
    let r = call(&mut b, "stepOver", None);
    assert_eq!(field_str(result(&r), "pc"), "0x000000000001000c");
    let r = call(&mut b, "stepOut", None);
    let v = result(&r);
    assert_eq!(field_str(v, "pc"), "0x000000000001002c");
    assert_eq!(field_str(v, "reason"), "stepOut");
}

#[test]
fn dbgeng_steps_by_its_own_sizes() {
    let mut b = MockBackend::new(MockProfile::DbgEng);
    let r = call(&mut b, "regs", None);
    let start = reg(result(&r), "rip").to_string();
    let start = u64::from_str_radix(start.trim_start_matches("0x"), 16).unwrap();
    call(&mut b, "go", None);
    let r = call(&mut b, "stepOut", None);
    let pc = field_str(result(&r), "pc").to_string();
    assert_eq!(pc, format!("0x{:016x}", start + 5 + 0x40));
}

#[test]
fn bp_set_then_list_then_clear() {
    let mut b = MockBackend::new(MockProfile::GdbRemote);
    let r = call(&mut b, "bpSet", params(vec![("addr", text("0x10100"))]));
    let v = result(&r);
    assert_eq!(field_u64(v, "id"), 1);
    assert_eq!(field_str(v, "addr"), "0x0000000000010100");
    assert_eq!(field_str(v, "kind"), "SW");
    assert!(field_bool(v, "enabled"));
    let r = call(&mut b, "bpSet", params(vec![("addr", JsonValue::UInt(0x20)), ("kind", text("HW"))]));
    assert_eq!(field_u64(result(&r), "id"), 2);
    let r = call(&mut b, "bpList", None);
    let list = result(&r).as_array().unwrap();
    assert_eq!(list.len(), 2);
    let second = list.iter().find(|e| field_u64(e, "id") == 2).unwrap();
    assert_eq!(field_str(second, "kind"), "HW");
    assert!(list.iter().all(|e| field_u64(e, "hit_count") == 0));

    let r = call(&mut b, "bpClear", params(vec![("addr", JsonValue::UInt(0x10100))]));
    let v = result(&r);
    assert!(field_bool(v, "cleared"));
    assert_eq!(field_u64(v, "id"), 1);
    let r = call(&mut b, "bpClear", params(vec![("addr", JsonValue::UInt(0x10100))]));
    let v = result(&r);
    assert!(!field_bool(v, "cleared"));
    assert!(v.get("id").is_none());
    let r = call(&mut b, "bpClear", params(vec![("id", JsonValue::UInt(2))]));
    assert!(field_bool(result(&r), "cleared"));
    let r = call(&mut b, "bpClear", params(vec![("id", JsonValue::UInt(2))]));
    assert!(!field_bool(result(&r), "cleared"));
    let r = call(&mut b, "bpList", None);
    assert_eq!(result(&r).as_array().unwrap().len(), 0);
}

#[test]
fn bp_ids_are_not_reused_after_clear_all() {
    let mut b = MockBackend::new(MockProfile::Lldb);
    call(&mut b, "bpSet", params(vec![("addr", JsonValue::UInt(1))]));
    let r = call(&mut b, "bpClear", params(vec![("all", JsonValue::Bool(true))]));
    let v = result(&r);
    assert!(field_bool(v, "cleared"));
    assert!(field_bool(v, "all"));
    let r = call(&mut b, "bpSet", params(vec![("addr", JsonValue::UInt(1))]));
    assert_eq!(field_u64(result(&r), "id"), 2);
}

#[test]
fn bp_errors() {
    let mut b = MockBackend::new(MockProfile::GdbRemote);
    let r = call(&mut b, "bpSet", None);
    assert_eq!(error_of(&r), ("bad_params".to_string(), "bpSet requires {addr}".to_string()));
    let r = call(&mut b, "bpClear", params(vec![]));
    assert_eq!(error_of(&r), ("bad_params".to_string(), "bpClear requires id, addr, or all".to_string()));
}

#[test]
fn read_mem_fills_with_nops() {
    let mut b = MockBackend::new(MockProfile::GdbRemote);
    let r = call(&mut b, "readMem", params(vec![("addr", JsonValue::UInt(0x1000)), ("size", JsonValue::UInt(6))]));
    let v = result(&r);
    assert_eq!(field_str(v, "addr"), "0x0000000000001000");
    assert_eq!(field_u64(v, "size"), 6);
    assert_eq!(field_str(v, "hex"), "130000001300");
}

#[test]
fn read_mem_is_capped() {
    let mut b = MockBackend::new(MockProfile::GdbRemote);
    let r = call(&mut b, "readMem", params(vec![("addr", JsonValue::UInt(0)), ("size", JsonValue::UInt(100000))]));
    let v = result(&r);
    assert_eq!(field_u64(v, "size"), 4096);
    assert_eq!(field_str(v, "hex").len(), 8192);
}

#[test]
fn read_mem_needs_addr_and_size() {
    let mut b = MockBackend::new(MockProfile::GdbRemote);
    let r = call(&mut b, "readMem", params(vec![("addr", JsonValue::UInt(0))]));
    assert_eq!(error_of(&r), ("bad_params".to_string(), "readMem requires {addr, size}".to_string()));
}

#[test]
fn write_mem_counts_bytes() {
    let mut b = MockBackend::new(MockProfile::GdbRemote);
    let r = call(&mut b, "writeMem", params(vec![("addr", JsonValue::UInt(0x20)), ("hex", text("aabbcc"))]));
    let v = result(&r);
    assert_eq!(field_u64(v, "written"), 3);
    assert_eq!(field_str(v, "addr"), "0x0000000000000020");
    let r = call(&mut b, "writeMem", params(vec![("hex", text("aa"))]));
    assert_eq!(error_of(&r), ("bad_params".to_string(), "writeMem requires {addr, hex}".to_string()));
}

#[test]
fn gdb_disasm_aligns_and_cycles() {
    let mut b = MockBackend::new(MockProfile::GdbRemote);
    let r = call(&mut b, "disasm", params(vec![("addr", JsonValue::UInt(5)), ("count", JsonValue::UInt(2))]));
    let lines = result(&r).as_array().unwrap();
    assert_eq!(lines.len(), 2);
    assert_eq!(field_str(&lines[0], "addr"), "0x0000000000000004");
    assert_eq!(field_str(&lines[0], "bytes"), "93080500");
    assert_eq!(field_str(&lines[0], "text"), "addi a7, zero, 0x5");
    assert_eq!(field_str(&lines[1], "text"), "addi a0, zero, 0");
    let r = call(&mut b, "disasm", params(vec![("addr", JsonValue::UInt(48)), ("count", JsonValue::UInt(1))]));
    let lines = result(&r).as_array().unwrap();
    assert_eq!(field_str(&lines[0], "bytes"), "13000000");
}

#[test]
fn disasm_count_defaults_and_caps() {
    let mut b = MockBackend::new(MockProfile::GdbRemote);
    let r = call(&mut b, "disasm", None);
    let lines = result(&r).as_array().unwrap();
    assert_eq!(lines.len(), 16);
    assert_eq!(field_str(&lines[0], "addr"), "0x0000000000010000");
    let r = call(&mut b, "disasm", params(vec![("count", JsonValue::UInt(1000))]));
    assert_eq!(result(&r).as_array().unwrap().len(), 64);
}

#[test]
fn watchpoints_set_list_clear() {
    let mut b = MockBackend::new(MockProfile::GdbRemote);
    let r = call(&mut b, "wpSet", params(vec![("addr", JsonValue::UInt(0x80))]));
    let v = result(&r);
    assert_eq!(field_u64(v, "id"), 1);
    assert_eq!(field_u64(v, "size"), 4);
    assert_eq!(field_str(v, "kind"), "rw");
    let r = call(&mut b, "wpSet", params(vec![("addr", JsonValue::UInt(0x90)), ("size", JsonValue::UInt(8)), ("kind", text("w"))]));
    assert_eq!(field_u64(result(&r), "id"), 2);
    let r = call(&mut b, "wpList", None);
    let list = result(&r).as_array().unwrap();
    assert_eq!(list.len(), 2);
    assert_eq!(field_u64(&list[1], "size"), 8);
    let r = call(&mut b, "wpClear", params(vec![("id", JsonValue::UInt(1))]));
    assert!(field_bool(result(&r), "cleared"));
    let r = call(&mut b, "wpClear", params(vec![("id", JsonValue::UInt(1))]));
    assert!(!field_bool(result(&r), "cleared"));
    let r = call(&mut b, "wpList", None);
    assert_eq!(result(&r).as_array().unwrap().len(), 1);
    let r = call(&mut b, "wpClear", None);
    assert_eq!(error_of(&r), ("bad_params".to_string(), "wpClear requires {id}".to_string()));
    let r = call(&mut b, "wpSet", None);
    assert_eq!(error_of(&r), ("bad_params".to_string(), "wpSet requires {addr}".to_string()));
}

#[test]
fn gdb_resolves_firmware_symbols() {
    let mut b = MockBackend::new(MockProfile::GdbRemote);
    let r = call(&mut b, "resolveSymbol", params(vec![("module", text("Firmware.ELF")), ("symbol", text("MAIN"))]));
    let v = result(&r);
    assert_eq!(field_str(v, "addr"), "0x0000000000010100");
    assert_eq!(field_str(v, "symbol"), "MAIN");
    assert_eq!(field_str(v, "module"), "Firmware.ELF");
    assert!(field_bool(v, "resolved"));
    let r = call(&mut b, "resolveSymbol", params(vec![("symbol", text("malloc"))]));
    assert_eq!(field_str(result(&r), "addr"), "0x0000000000013000");
}

#[test]
fn unresolved_symbol_is_an_error() {
    let mut b = MockBackend::new(MockProfile::GdbRemote);
    let r = call(&mut b, "resolveSymbol", params(vec![("symbol", text("nosuch"))]));
    assert_eq!(error_of(&r), ("symbol_not_found".to_string(), "symbol 'nosuch' not found in '*'".to_string()));
    let r = call(&mut b, "resolveSymbol", params(vec![("module", text("libc")), ("symbol", text("main"))]));
    assert_eq!(error_of(&r), ("symbol_not_found".to_string(), "symbol 'main' not found in 'libc'".to_string()));
    let r = call(&mut b, "resolveSymbol", params(vec![("module", text("firmware"))]));
    assert_eq!(error_of(&r), ("bad_params".to_string(), "resolveSymbol requires {symbol}".to_string()));
}

#[test]
fn dbgeng_resolves_kernel32() {
    let mut b = MockBackend::new(MockProfile::DbgEng);
    let r = call(&mut b, "resolveSymbol", params(vec![("module", text("KERNEL32.dll")), ("symbol", text("WriteFile"))]));
    assert_eq!(field_str(result(&r), "addr"), "0x00007ff8b0001234");
    let r = call(&mut b, "resolveSymbol", params(vec![("module", text("target.exe")), ("symbol", text("main"))]));
    assert_eq!(field_str(result(&r), "addr"), "0x0000000140001100");
}

#[test]
fn lldb_resolves_objc() {
    let mut b = MockBackend::new(MockProfile::Lldb);
    let r = call(&mut b, "resolveSymbol", params(vec![("module", text("libobjc.A.dylib")), ("symbol", text("objc_msgSend"))]));
    assert_eq!(field_str(result(&r), "addr"), "0x0000000180121000");
}

#[test]
fn unknown_method_names_the_backend() {
    let mut b = MockBackend::new(MockProfile::GdbRemote);
    let r = call(&mut b, "frobnicate", None);
    assert_eq!(error_of(&r), ("unknown_method".to_string(), "gdbremote does not implement 'frobnicate'".to_string()));
    let mut b = MockBackend::new(MockProfile::Lldb);
    let r = call(&mut b, "frobnicate", None);
    assert_eq!(error_of(&r).1, "lldb does not implement 'frobnicate'");
}

#[test]
fn attach_detach_kill() {
    let mut b = MockBackend::new(MockProfile::GdbRemote);
    let r = call(&mut b, "attach", params(vec![("pid", text("1234"))]));
    let v = result(&r);
    assert!(field_bool(v, "attached"));
    assert_eq!(field_u64(v, "pid"), 1234);
    assert_eq!(field_str(v, "backend"), "gdbremote");
    assert_eq!(field_str(v, "arch"), "riscv64");
    let r = call(&mut b, "attach", None);
    assert_eq!(error_of(&r), ("bad_params".to_string(), "attach requires {pid}".to_string()));
    let r = call(&mut b, "detach", None);
    assert!(field_bool(result(&r), "detached"));
    let r = call(&mut b, "kill", None);
    let v = result(&r);
    assert!(field_bool(v, "killed"));
    assert_eq!(field_u64(v, "exit_code"), 0);
}

#[test]
fn launch_sets_path_and_arch() {
    let mut b = MockBackend::new(MockProfile::GdbRemote);
    let r = call(&mut b, "launch", params(vec![("path", text("app.elf")), ("arch", text("mips"))]));
    let v = result(&r);
    assert!(field_bool(v, "launched"));
    assert_eq!(field_str(v, "path"), "app.elf");
    assert_eq!(field_str(v, "arch"), "mips");
    let r = call(&mut b, "modules", None);
    let mods = result(&r).as_array().unwrap();
    assert_eq!(mods.len(), 3);
    assert_eq!(field_str(&mods[0], "name"), "app.elf");
    assert_eq!(field_str(&mods[0], "path"), "app.elf");
    let r = call(&mut b, "regs", None);
    assert_eq!(field_str(result(&r), "arch"), "mips");
    let r = call(&mut b, "launch", None);
    assert_eq!(error_of(&r), ("bad_params".to_string(), "launch requires {path}".to_string()));
}

#[test]
fn modules_default_name() {
    let mut b = MockBackend::new(MockProfile::GdbRemote);
    let r = call(&mut b, "modules", None);
    let mods = result(&r).as_array().unwrap();
    assert_eq!(field_str(&mods[0], "name"), "firmware.elf");
    assert_eq!(field_str(&mods[0], "base"), "0x0000000000010000");
    assert_eq!(field_u64(&mods[0], "size"), 0x40000);
    assert_eq!(field_str(&mods[2], "path"), "/flash/rom.bin");
}

#[test]
fn threads_follow_pc() {
    let mut b = MockBackend::new(MockProfile::GdbRemote);
    call(&mut b, "stepInto", None);
    let r = call(&mut b, "threads", None);
    let ts = result(&r).as_array().unwrap();
    assert_eq!(ts.len(), 3);
    assert_eq!(field_str(&ts[0], "id"), "p1.t1");
    assert_eq!(field_str(&ts[0], "pc"), "0x0000000000010004");
    assert!(field_bool(&ts[0], "active"));
    assert!(!field_bool(&ts[1], "active"));
}

#[test]
fn callstack_and_processes() {
    let mut b = MockBackend::new(MockProfile::GdbRemote);
    let r = call(&mut b, "callstack", None);
    let frames = result(&r).as_array().unwrap();
    assert_eq!(frames.len(), 4);
    assert_eq!(field_str(&frames[0], "addr"), "0x0000000000010000");
    assert_eq!(field_str(&frames[3], "symbol"), "_start");
    let r = call(&mut b, "processList", None);
    let procs = result(&r).as_array().unwrap();
    assert_eq!(procs.len(), 5);
    assert_eq!(field_u64(&procs[3], "pid"), 100);
    assert_eq!(field_str(&procs[0], "arch"), "riscv64");
    let r = call(&mut b, "shutdown", None);
    assert!(field_bool(result(&r), "bye"));
}

#[test]
fn fresh_backend_can_take_every_method() {
    let b = MockBackend::new(MockProfile::DbgEng);
    assert!(b.can_take("bpSet"));
    assert!(b.can_take("wpSet"));
    assert!(b.can_take("regs"));
    assert_eq!(b.profile(), MockProfile::DbgEng);
}

#[test]
fn dbgeng_pc_reads_back_as_rip() {
    let mut b = MockBackend::new(MockProfile::DbgEng);
    let r = call(&mut b, "setReg", params(vec![("name", text("pc")), ("value", JsonValue::UInt(0x1400))]));
    result(&r);
    let r = call(&mut b, "regs", None);
    assert_eq!(reg(result(&r), "rip"), "0x0000000000001400");
    let mut b = MockBackend::new(MockProfile::Lldb);
    call(&mut b, "setReg", params(vec![("name", text("PC")), ("value", text("4096"))]));
    let r = call(&mut b, "regs", None);
    assert_eq!(reg(result(&r), "pc"), "0x0000000000001000");
}

#[test]
fn registers_come_sorted_by_name() {
    for p in [MockProfile::GdbRemote, MockProfile::Lldb, MockProfile::DbgEng] {
        let mut b = MockBackend::new(p);
        let r = call(&mut b, "regs", None);
        let regs = result(&r).get("registers").unwrap();
        let names: Vec<String> = match regs {
            JsonValue::Object(fields) => fields.iter().map(|(k, _)| k.clone()).collect(),
            other => panic!("unexpected {:?}", other),
        };
        let mut sorted = names.clone();
        sorted.sort();
        assert_eq!(names, sorted);
    }
}

#[test]
fn dbgeng_memory_is_a_nop_sled() {
    let mut b = MockBackend::new(MockProfile::DbgEng);
    let r = call(&mut b, "readMem", params(vec![("addr", JsonValue::UInt(0x10)), ("size", JsonValue::UInt(6))]));
    assert_eq!(field_str(result(&r), "hex"), "901112139015");
    let r = call(&mut b, "readMem", params(vec![("addr", JsonValue::UInt(0xff)), ("size", JsonValue::UInt(4))]));
    assert_eq!(field_str(result(&r), "hex"), "90000102");
}

#[test]
fn lldb_memory_is_arm64_nops() {
    let mut b = MockBackend::new(MockProfile::Lldb);
    let r = call(&mut b, "readMem", params(vec![("addr", JsonValue::UInt(0)), ("size", JsonValue::UInt(5))]));
    assert_eq!(field_str(result(&r), "hex"), "1f2003d51f");
    let r = call(&mut b, "regs", None);
    assert_eq!(reg(result(&r), "pc"), "0x0000000100004567");
}

#[test]
fn dbgeng_disasm_starts_at_an_instruction() {
    let mut b = MockBackend::new(MockProfile::DbgEng);
    let r = call(&mut b, "disasm", params(vec![("addr", JsonValue::UInt(0x1_4000_1234)), ("count", JsonValue::UInt(3))]));
    let lines = result(&r).as_array().unwrap();
    assert_eq!(field_str(&lines[0], "addr"), "0x0000000140001234");
    assert_eq!(field_str(&lines[0], "bytes"), "4889542410");
    assert_eq!(field_str(&lines[0], "text"), "mov     qword ptr [rsp+10h], rdx");
    assert_eq!(field_str(&lines[1], "addr"), "0x0000000140001239");
    assert_eq!(field_str(&lines[2], "addr"), "0x000000014000123e");
    assert_eq!(field_str(&lines[2], "text"), "sub     rsp, 38h");
    let r = call(&mut b, "disasm", params(vec![("addr", JsonValue::UInt(0x1_4000_1234 + 7)), ("count", JsonValue::UInt(1))]));
    let lines = result(&r).as_array().unwrap();
    assert_eq!(field_str(&lines[0], "addr"), "0x0000000140001239");
    assert_eq!(field_str(&lines[0], "bytes"), "48894c2408");
    let r = call(&mut b, "disasm", params(vec![("addr", JsonValue::UInt(0x1_4000_1233)), ("count", JsonValue::UInt(2))]));
    let lines = result(&r).as_array().unwrap();
    assert_eq!(field_str(&lines[0], "addr"), "0x0000000140001232");
    assert_eq!(field_str(&lines[0], "text"), "xor     eax, eax");
    assert_eq!(field_str(&lines[1], "addr"), "0x0000000140001234");
}

#[test]
fn lldb_disasm_is_word_aligned() {
    let mut b = MockBackend::new(MockProfile::Lldb);
    let r = call(&mut b, "disasm", params(vec![("addr", JsonValue::UInt(6)), ("count", JsonValue::UInt(2))]));
    let lines = result(&r).as_array().unwrap();
    assert_eq!(field_str(&lines[0], "addr"), "0x0000000000000004");
    assert_eq!(field_str(&lines[0], "bytes"), "ffc3bea9");
    assert_eq!(field_str(&lines[0], "text"), "stp x28, x30, [sp, #-0x20]!");
    assert_eq!(field_str(&lines[1], "bytes"), "fd7b01a9");
}

#[test]
fn dbgeng_bp_set_with_text_address_and_default_kind() {
    let mut b = MockBackend::new(MockProfile::DbgEng);
    let r = call(&mut b, "bpSet", params(vec![("addr", text("  5368713780 "))]));
    let v = result(&r);
    assert_eq!(field_u64(v, "id"), 1);
    assert_eq!(field_str(v, "addr"), "0x0000000140001234");
    assert_eq!(field_str(v, "kind"), "INT3");
    let r = call(&mut b, "bpSet", params(vec![("addr", text("0X140001300")), ("kind", text("HW"))]));
    assert_eq!(field_str(result(&r), "kind"), "HW");
    let r = call(&mut b, "bpList", None);
    let list = result(&r).as_array().unwrap();
    assert_eq!(list.len(), 2);
    let second = list.iter().find(|e| field_u64(e, "id") == 2).unwrap();
    assert_eq!(field_str(second, "addr"), "0x0000000140001300");
    assert_eq!(field_u64(second, "hit_count"), 0);
    assert!(field_bool(second, "enabled"));
    assert_eq!(list.iter().filter(|e| field_u64(e, "id") == 2).count(), 1);
    let r = call(&mut b, "bpSet", params(vec![("addr", text("nowhere"))]));
    assert_eq!(error_of(&r).0, "bad_params");
    let r = call(&mut b, "bpSet", params(vec![("kind", text("HW"))]));
    assert_eq!(error_of(&r), ("bad_params".to_string(), "bpSet requires {addr}".to_string()));
    let r = call(&mut b, "bpList", None);
    assert_eq!(result(&r).as_array().unwrap().len(), 2);
}

#[test]
fn lldb_bp_set_default_kind_is_sw() {
    let mut b = MockBackend::new(MockProfile::Lldb);
    let r = call(&mut b, "bpSet", params(vec![("addr", JsonValue::UInt(0x100004000))]));
    assert_eq!(field_str(result(&r), "kind"), "SW");
}

#[test]
fn dbgeng_set_reg_then_regs() {
    let mut b = MockBackend::new(MockProfile::DbgEng);
    let r = call(&mut b, "setReg", params(vec![("name", text("RSP")), ("value", text("0x2000"))]));
    let v = result(&r);
    assert!(field_bool(v, "set"));
    assert_eq!(field_str(v, "name"), "rsp");
    let r = call(&mut b, "regs", None);
    let regs = result(&r);
    assert_eq!(reg(regs, "rsp"), "0x0000000000002000");
    assert_eq!(reg(regs, "rbp"), "0x0000000000002040");
    let r = call(&mut b, "setReg", params(vec![("name", text("Rip")), ("value", JsonValue::UInt(0x401000))]));
    assert_eq!(field_str(result(&r), "name"), "rip");
    let r = call(&mut b, "regs", None);
    assert_eq!(reg(result(&r), "rip"), "0x0000000000401000");
    let r = call(&mut b, "setReg", params(vec![("name", text("pc")), ("value", text("4198400"))]));
    assert!(result(&r).get("set").is_some());
    let before = call(&mut b, "regs", None);
    let r = call(&mut b, "setReg", params(vec![("name", text("RAX")), ("value", JsonValue::UInt(7))]));
    assert_eq!(field_str(result(&r), "name"), "rax");
    let after = call(&mut b, "regs", None);
    assert_eq!(format!("{:?}", result(&before)), format!("{:?}", result(&after)));
    assert_eq!(reg(result(&after), "rip"), "0x0000000000401000");
}

#[test]
fn gdb_set_sp_moves_the_frame_register() {
    let mut b = MockBackend::new(MockProfile::GdbRemote);
    call(&mut b, "setReg", params(vec![("name", text("sp")), ("value", JsonValue::UInt(0x9000))]));
    let r = call(&mut b, "regs", None);
    assert_eq!(reg(result(&r), "sp"), "0x0000000000009000");
    assert_eq!(reg(result(&r), "s0"), "0x0000000000009010");
}

#[test]
fn set_reg_takes_non_ascii_names() {
    let mut b = MockBackend::new(MockProfile::DbgEng);
    let before = call(&mut b, "regs", None);
    let r = call(&mut b, "setReg", params(vec![("name", text("ÄX")), ("value", JsonValue::UInt(1))]));
    let v = result(&r);
    assert!(field_bool(v, "set"));
    assert_eq!(field_str(v, "name"), "äx");
    let after = call(&mut b, "regs", None);
    assert_eq!(format!("{:?}", result(&before)), format!("{:?}", result(&after)));
    let r = call(&mut b, "setReg", params(vec![("name", text("")), ("value", JsonValue::UInt(1))]));
    assert_eq!(error_of(&r), ("bad_params".to_string(), "setReg requires {name, value}".to_string()));
}

#[test]
fn bp_clear_by_address_takes_one_of_the_matches() {
    let mut b = MockBackend::new(MockProfile::Lldb);
    call(&mut b, "bpSet", params(vec![("addr", JsonValue::UInt(0x40))]));
    call(&mut b, "bpSet", params(vec![("addr", JsonValue::UInt(0x40))]));
    let r = call(&mut b, "bpClear", params(vec![("addr", JsonValue::UInt(0x40))]));
    let taken = field_u64(result(&r), "id");
    assert!(taken == 1 || taken == 2);
    let r = call(&mut b, "bpList", None);
    let list = result(&r).as_array().unwrap();
    assert_eq!(list.len(), 1);
    assert_eq!(field_u64(&list[0], "id"), 3 - taken);
}
