use hywdbg::json::JsonValue;
use hywdbg::winapi::{
    base_name_of, bytes_hex_value, disasm_count, dll_name_for, event_value, exception_description,
    mem_block_value, mem_protect_name, mem_state_name, mem_type_name, next_region_addr, parse_hex_bytes,
    parse_search_pattern, read_size, region_value, resolved_value, scan_matches, search_window,
    set_reg_answer, set_x64_reg, symbol_name_ok, symbol_not_found_message, threads_value, wide_buf_to_string,
    winapi_capabilities, winapi_hello, winapi_unknown_method, with_trap_flag, written_answer, x64_disassemble,
    x64_reg_dump, DebugEventInfo, SoftBreakpoints, ThreadTable, X64Regs, MEM_COMMIT, MEM_FREE, MEM_RESERVE,
    PAGE_NOACCESS,
};
use hywdbg::winapi::{hex_text_panics, search_goes_on, search_region_plan, RegionPlan, SEARCH_LIMIT};
use hywdbg::winapi_session::{DebugSession, EventChange};
use hywdbg::winapi_plan::{winapi_step, WinapiStep};

fn s_of<'a>(v: &'a JsonValue, key: &str) -> &'a str {
    v.get(key).and_then(|x| x.as_str()).unwrap()
}

fn u_of(v: &JsonValue, key: &str) -> u64 {
    v.get(key).and_then(|x| x.as_u64()).unwrap()
}

fn b_of(v: &JsonValue, key: &str) -> bool {
    v.get(key).and_then(|x| x.as_bool()).unwrap()
}

fn sample_regs() -> X64Regs {
    X64Regs {
        rax: 1,
        rbx: 2,
        rcx: 3,
        rdx: 4,
        rsi: 5,
        rdi: 6,
        rbp: 7,
        rsp: 8,
        r8: 9,
        r9: 10,
        r10: 11,
        r11: 12,
        r12: 13,
        r13: 14,
        r14: 15,
        r15: 16,
        rip: 0x1400_0100,
        eflags: 0x246,
    }
}

// ─── hex text and patterns ──────────────────────────────────────────────

#[test]
fn hex_bytes_ignore_white_space() {
    assert_eq!(parse_hex_bytes("de ad\tBE\nef"), Ok(vec![0xde, 0xad, 0xbe, 0xef]));
    assert_eq!(parse_hex_bytes(""), Ok(vec![]));
    assert_eq!(parse_hex_bytes("+f0a"), Ok(vec![0x0f, 0x0a]));
}

#[test]
fn hex_bytes_errors() {
    assert_eq!(parse_hex_bytes("abc"), Err("hex length must be even".to_string()));
    assert_eq!(parse_hex_bytes("zz"), Err("invalid digit found in string".to_string()));
    assert_eq!(parse_hex_bytes("00-1"), Err("invalid digit found in string".to_string()));
}

#[test]
fn hex_text_of_bytes_reads_back() {
    let bytes = vec![0x00, 0x7f, 0x80, 0xff, 0x0a];
    let text = bytes_hex_value(&bytes, 0, bytes.len());
    assert_eq!(text, "007f80ff0a");
    assert_eq!(parse_hex_bytes(&text), Ok(bytes.clone()));
    assert_eq!(bytes_hex_value(&bytes, 1, 3), "7f80");
    assert_eq!(bytes_hex_value(&bytes, 2, 2), "");
}

#[test]
fn search_pattern_with_wildcards() {
    assert_eq!(
        parse_search_pattern(" 48 8b ?? C3 ? "),
        Ok(vec![Some(0x48), Some(0x8b), None, Some(0xc3), None])
    );
    assert_eq!(parse_search_pattern("   "), Err("Empty pattern".to_string()));
    assert_eq!(parse_search_pattern("48 4g"), Err("Invalid pattern byte: 4g".to_string()));
    assert_eq!(parse_search_pattern("123"), Err("Invalid pattern byte: 123".to_string()));
    assert_eq!(parse_search_pattern("???"), Err("Invalid pattern byte: ???".to_string()));
}

#[test]
fn scan_finds_every_match_up_to_the_limit() {
    let buf = vec![1u8, 2, 3, 1, 9, 1];
    let pat = vec![Some(1u8), None];
    let mut found: Vec<String> = Vec::new();
    scan_matches(&buf, &pat, 0x1000, &mut found, 10);
    assert_eq!(found, vec!["0x0000000000001000".to_string(), "0x0000000000001003".to_string()]);
    let mut found = vec!["earlier".to_string()];
    scan_matches(&buf, &pat, 0x1000, &mut found, 2);
    assert_eq!(found, vec!["earlier".to_string(), "0x0000000000001000".to_string()]);
    let mut found: Vec<String> = Vec::new();
    scan_matches(&vec![1u8], &pat, 0, &mut found, 5);
    assert!(found.is_empty());
}

// ─── memory regions ─────────────────────────────────────────────────────

#[test]
fn search_window_overlaps_committed_regions() {
    assert_eq!(search_window(0x1000, 0x1000, MEM_COMMIT, 0x04, 0x1800, u64::MAX), Some((0x1800, 0x2000)));
    assert_eq!(search_window(0x1000, 0x1000, MEM_COMMIT, 0x04, 0, 0x1100), Some((0x1000, 0x1100)));
    assert_eq!(search_window(0x1000, 0x1000, MEM_COMMIT, PAGE_NOACCESS, 0, u64::MAX), None);
    assert_eq!(search_window(0x1000, 0x1000, MEM_RESERVE, 0x04, 0, u64::MAX), None);
    assert_eq!(search_window(0x1000, 0x1000, MEM_COMMIT, 0x04, 0x3000, u64::MAX), None);
    assert_eq!(search_window(u64::MAX - 1, 10, MEM_COMMIT, 0x04, 0, u64::MAX), Some((u64::MAX - 1, u64::MAX)));
}

#[test]
fn region_walk_moves_forward_or_stops() {
    assert_eq!(next_region_addr(0x1000, 0x1000, 0x2000), Some(0x3000));
    assert_eq!(next_region_addr(0x5000, 0x1000, 0x1000), None);
    assert_eq!(next_region_addr(0, u64::MAX - 1, 10), Some(u64::MAX));
    assert_eq!(next_region_addr(u64::MAX, u64::MAX - 1, 10), None);
}

#[test]
fn region_names() {
    assert_eq!(mem_state_name(MEM_COMMIT), "Commit");
    assert_eq!(mem_state_name(MEM_FREE), "Free");
    assert_eq!(mem_state_name(MEM_RESERVE), "Reserve");
    assert_eq!(mem_state_name(7), "Unknown");
    assert_eq!(mem_protect_name(0x40), "ERW");
    assert_eq!(mem_protect_name(0x02), "R");
    assert_eq!(mem_protect_name(PAGE_NOACCESS), "---");
    assert_eq!(mem_protect_name(0x104), "");
    assert_eq!(mem_type_name(0x1000000), "Image");
    assert_eq!(mem_type_name(0x20000), "Private");
    assert_eq!(mem_type_name(3), "");
    let v = region_value(0x7ff0_0000, 0x2000, 0x20, MEM_COMMIT, 0x1000000, "ntdll.dll");
    assert_eq!(s_of(&v, "base"), "0x000000007ff00000");
    assert_eq!(s_of(&v, "size"), "0x0000000000002000");
    assert_eq!(s_of(&v, "protect"), "ER");
    assert_eq!(s_of(&v, "state"), "Commit");
    assert_eq!(s_of(&v, "type"), "Image");
    assert_eq!(s_of(&v, "name"), "ntdll.dll");
}

// ─── debug events ───────────────────────────────────────────────────────

#[test]
fn exception_descriptions() {
    assert_eq!(exception_description(0xC000_0005), "ACCESS_VIOLATION");
    assert_eq!(exception_description(0x8000_0003), "BREAKPOINT");
    assert_eq!(exception_description(0xC000_008C), "ARRAY_BOUNDS_EXCEEDED");
    assert_eq!(exception_description(0xE06D_7363), "CXX_EXCEPTION (thrown C++ exception)");
    assert_eq!(exception_description(0x1234), "");
}

#[test]
fn base_names() {
    assert_eq!(base_name_of("C:\\Windows\\System32\\ntdll.dll"), "ntdll.dll");
    assert_eq!(base_name_of("a/b\\c"), "c");
    assert_eq!(base_name_of("dir\\"), "");
    assert_eq!(base_name_of("plain"), "plain");
    assert_eq!(base_name_of(""), "");
}

#[test]
fn exception_events() {
    let v = event_value(10, 20, &DebugEventInfo::Exception { code: 0x8000_0003, address: 0x7ff0, first_chance: true });
    assert!(b_of(&v, "stopped"));
    assert_eq!(s_of(&v, "event"), "breakpoint");
    assert_eq!(u_of(&v, "pid"), 10);
    assert_eq!(u_of(&v, "tid"), 20);
    assert_eq!(s_of(&v, "code"), "0x80000003");
    assert_eq!(s_of(&v, "address"), "0x0000000000007ff0");
    assert!(b_of(&v, "first_chance"));
    assert_eq!(s_of(&v, "description"), "BREAKPOINT");
    let v = event_value(1, 1, &DebugEventInfo::Exception { code: 0x8000_0004, address: 0, first_chance: false });
    assert_eq!(s_of(&v, "event"), "single_step");
    let v = event_value(1, 1, &DebugEventInfo::Exception { code: 0xc000_0005, address: 0, first_chance: false });
    assert_eq!(s_of(&v, "event"), "exception");
    assert_eq!(s_of(&v, "code"), "0xC0000005");
}

#[test]
fn other_events() {
    let v = event_value(3, 4, &DebugEventInfo::LoadDll { base: 0x7ff8_0000_0000, path: "C:\\W\\KERNEL32.DLL".to_string() });
    assert_eq!(s_of(&v, "event"), "load_dll");
    assert_eq!(s_of(&v, "base"), "0x00007ff800000000");
    assert_eq!(s_of(&v, "name"), "KERNEL32.DLL");
    assert_eq!(s_of(&v, "path"), "C:\\W\\KERNEL32.DLL");
    let v = event_value(3, 4, &DebugEventInfo::CreateProcess { image_base: 0x1_4000_0000 });
    assert_eq!(s_of(&v, "event"), "create_process");
    assert_eq!(s_of(&v, "image_base"), "0x0000000140000000");
    let v = event_value(3, 4, &DebugEventInfo::ExitProcess { exit_code: 7 });
    assert_eq!(s_of(&v, "event"), "exit_process");
    assert_eq!(u_of(&v, "exit_code"), 7);
    let v = event_value(3, 4, &DebugEventInfo::CreateThread { start: 0x10 });
    assert_eq!(s_of(&v, "start"), "0x0000000000000010");
    for (ev, name) in [
        (DebugEventInfo::ExitThread, "exit_thread"),
        (DebugEventInfo::DebugString, "debug_string"),
        (DebugEventInfo::Rip, "rip"),
        (DebugEventInfo::Unknown, "unknown"),
        (DebugEventInfo::UnloadDll { base: 1 }, "unload_dll"),
    ] {
        let v = event_value(3, 4, &ev);
        assert_eq!(s_of(&v, "event"), name);
    }
}

#[test]
fn wide_text_stops_at_the_first_nul() {
    let buf: Vec<u16> = "hi".encode_utf16().chain([0u16, 0x41]).collect();
    assert_eq!(wide_buf_to_string(&buf), "hi");
    let buf: Vec<u16> = "ntdll.dll".encode_utf16().collect();
    assert_eq!(wide_buf_to_string(&buf), "ntdll.dll");
    assert_eq!(wide_buf_to_string(&vec![0x68, 0xD800, 0x69]), "h\u{FFFD}i");
    assert_eq!(wide_buf_to_string(&vec![0u16]), "");
}

// ─── registers ──────────────────────────────────────────────────────────

#[test]
fn register_dump_is_sorted_by_name() {
    let d = x64_reg_dump(&sample_regs());
    assert_eq!(d.arch, "x64");
    let names: Vec<&str> = d.registers.iter().map(|(n, _)| n.as_str()).collect();
    let mut sorted = names.clone();
    sorted.sort();
    assert_eq!(names, sorted);
    assert_eq!(names.len(), 18);
    assert_eq!(d.registers[0], ("eflags".to_string(), "0x00000246".to_string()));
    let rip = d.registers.iter().find(|(n, _)| n == "rip").unwrap();
    assert_eq!(rip.1, "0x0000000014000100");
}

#[test]
fn set_register_by_name() {
    let mut r = sample_regs();
    assert_eq!(set_x64_reg(&mut r, "RAX", 0x99), Ok(()));
    assert_eq!(r.rax, 0x99);
    assert_eq!(set_x64_reg(&mut r, "pc", 0x5000), Ok(()));
    assert_eq!(r.rip, 0x5000);
    assert_eq!(set_x64_reg(&mut r, "R15", 3), Ok(()));
    assert_eq!(r.r15, 3);
    let before = r;
    assert_eq!(set_x64_reg(&mut r, "XMM0", 1), Err("unknown x64 register XMM0".to_string()));
    assert_eq!(r.rax, before.rax);
    assert_eq!(r.rip, before.rip);
    assert_eq!(set_x64_reg(&mut r, "eflags", 1), Err("unknown x64 register eflags".to_string()));
}

#[test]
fn trap_flag_is_bit_eight() {
    let r = with_trap_flag(sample_regs());
    assert_eq!(r.eflags, 0x346);
    assert_eq!(r.rip, sample_regs().rip);
    assert_eq!(with_trap_flag(r).eflags, 0x346);
}

// ─── disassembly ────────────────────────────────────────────────────────

#[test]
fn disassembles_nop_and_ret() {
    let lines = x64_disassemble(&vec![0x90, 0xC3], 0x1000, 5);
    assert_eq!(lines.len(), 2);
    assert_eq!(s_of(&lines[0], "addr"), "0x0000000000001000");
    assert_eq!(s_of(&lines[0], "bytes"), "90");
    assert_eq!(s_of(&lines[0], "text"), "nop");
    assert_eq!(s_of(&lines[1], "addr"), "0x0000000000001001");
    assert_eq!(s_of(&lines[1], "bytes"), "c3");
    assert_eq!(s_of(&lines[1], "text"), "ret");
}

#[test]
fn disassembly_respects_the_count_and_operand_column() {
    let lines = x64_disassemble(&vec![0x48, 0x89, 0xe5, 0x90, 0x90, 0x90], 0x2000, 2);
    assert_eq!(lines.len(), 2);
    assert_eq!(s_of(&lines[0], "bytes"), "4889e5");
    assert_eq!(s_of(&lines[0], "text"), "mov     rbp,rsp");
    assert_eq!(s_of(&lines[1], "addr"), "0x0000000000002003");
}

#[test]
fn disassembly_stops_at_an_invalid_instruction() {
    let lines = x64_disassemble(&vec![0x90, 0x48], 0, 10);
    assert_eq!(lines.len(), 1);
    let lines = x64_disassemble(&vec![], 0, 10);
    assert!(lines.is_empty());
}

#[test]
fn read_and_disasm_sizes() {
    assert_eq!(read_size(10), 10);
    assert_eq!(read_size(100_000), 65536);
    assert_eq!(disasm_count(None), (32, 512));
    assert_eq!(disasm_count(Some(200)), (96, 1536));
    assert_eq!(disasm_count(Some(5)), (5, 80));
}

// ─── software breakpoints ───────────────────────────────────────────────

#[test]
fn soft_breakpoint_add_then_clear_restores_the_byte() {
    let mut bps = SoftBreakpoints::new();
    assert!(bps.can_add());
    let v = bps.add(0x40_1000, 0x55);
    assert_eq!(u_of(&v, "id"), 1);
    assert_eq!(s_of(&v, "addr"), "0x0000000000401000");
    assert_eq!(s_of(&v, "kind"), "software-int3");
    assert_eq!(s_of(&v, "original"), "0x55");
    let v = bps.add(0x40_2000, 0x8b);
    assert_eq!(u_of(&v, "id"), 2);
    let list = bps.list_json();
    let items = list.get("breakpoints").unwrap().as_array().unwrap();
    assert_eq!(items.len(), 2);
    assert_eq!(s_of(&items[0], "kind"), "int3");
    assert_eq!(u_of(&items[1], "hit_count"), 0);

    let (restore, v) = bps.clear_addr(0x40_1000);
    assert_eq!(restore, Some((0x40_1000, 0x55)));
    assert!(b_of(&v, "cleared"));
    assert_eq!(u_of(&v, "id"), 1);
    let (restore, v) = bps.clear_addr(0x40_1000);
    assert_eq!(restore, None);
    assert!(!b_of(&v, "cleared"));
    assert_eq!(s_of(&v, "addr"), "0x0000000000401000");
    let (restore, v) = bps.clear_id(1);
    assert_eq!(restore, None);
    assert_eq!(u_of(&v, "id"), 1);
    let (restore, v) = bps.clear_id(2);
    assert_eq!(restore, Some((0x40_2000, 0x8b)));
    assert_eq!(s_of(&v, "addr"), "0x0000000000402000");
}

#[test]
fn soft_breakpoints_clear_all() {
    let mut bps = SoftBreakpoints::new();
    bps.add(1, 0xaa);
    bps.add(2, 0xbb);
    let (mut restore, v) = bps.clear_all();
    restore.sort();
    assert_eq!(restore, vec![(1, 0xaa), (2, 0xbb)]);
    assert!(b_of(&v, "cleared"));
    assert_eq!(u_of(&v, "count"), 2);
    assert!(b_of(&v, "all"));
    let v = bps.add(3, 0);
    assert_eq!(u_of(&v, "id"), 3);
    bps.forget_all();
    let list = bps.list_json();
    assert!(list.get("breakpoints").unwrap().as_array().unwrap().is_empty());
}

// ─── threads ────────────────────────────────────────────────────────────

#[test]
fn thread_table_behaves_as_a_map() {
    let mut t: ThreadTable<u64> = ThreadTable::new();
    assert_eq!(t.insert(5, 50), None);
    assert_eq!(t.insert(7, 70), None);
    assert_eq!(t.insert(5, 51), Some(50));
    assert_eq!(t.get(5), Some(&51));
    assert!(t.contains(7));
    let mut ids = t.tids();
    ids.sort();
    assert_eq!(ids, vec![5, 7]);
    assert!(matches!(t.first_tid(), Some(5) | Some(7)));
    assert_eq!(t.remove(5), Some(51));
    assert_eq!(t.remove(5), None);
    assert!(!t.contains(5));
    assert_eq!(t.get(9), None);
}

#[test]
fn thread_table_drops_threads_no_longer_seen() {
    let mut t: ThreadTable<u64> = ThreadTable::new();
    t.insert(1, 10);
    t.insert(2, 20);
    t.insert(3, 30);
    let stale = t.retain_seen(&vec![3, 1, 99]);
    assert_eq!(stale, vec![20]);
    let mut ids = t.tids();
    ids.sort();
    assert_eq!(ids, vec![1, 3]);
    let mut all = t.drain();
    all.sort();
    assert_eq!(all, vec![10, 30]);
    assert_eq!(t.first_tid(), None);
    assert!(t.tids().is_empty());
}

#[test]
fn threads_answer_marks_the_active_one() {
    let v = threads_value(&vec![4, 8], Some(8));
    let items = v.as_array().unwrap();
    assert_eq!(items.len(), 2);
    assert_eq!(s_of(&items[0], "id"), "4");
    assert!(!b_of(&items[0], "active"));
    assert!(b_of(&items[1], "active"));
    assert!(matches!(items[0].get("name"), Some(JsonValue::Null)));
    let v = threads_value(&vec![], None);
    assert!(v.as_array().unwrap().is_empty());
}

// ─── symbols and answers ────────────────────────────────────────────────

#[test]
fn module_names_for_lookup() {
    assert_eq!(dll_name_for(""), "");
    assert_eq!(dll_name_for("kernel32"), "kernel32.dll");
    assert_eq!(dll_name_for("Target.EXE"), "Target.EXE");
    assert_eq!(dll_name_for("USER32.DLL"), "USER32.DLL");
    assert!(symbol_name_ok("Sleep"));
    assert!(!symbol_name_ok("a\0b"));
    assert_eq!(symbol_not_found_message("Foo", ""), "symbol 'Foo' not found in 'process'");
    assert_eq!(symbol_not_found_message("Foo", "k32"), "symbol 'Foo' not found in 'k32'");
    let v = resolved_value(0x10, "Sleep", "kernel32");
    assert_eq!(s_of(&v, "addr"), "0x0000000000000010");
    assert!(b_of(&v, "resolved"));
}

#[test]
fn winapi_fixed_answers() {
    let v = winapi_hello();
    assert_eq!(s_of(&v, "name"), "HYWDbg WinAPI Backend");
    assert!(b_of(&v, "real"));
    let c = winapi_capabilities();
    assert_eq!(c.backend_kind, "winapi");
    assert_eq!(c.supported_arches, vec!["x64".to_string()]);
    assert_eq!(c.features.len(), 13);
    let v = mem_block_value(0x10, &vec![1, 2]);
    assert_eq!(u_of(&v, "size"), 2);
    assert_eq!(s_of(&v, "hex"), "0102");
    let v = set_reg_answer("rax", 5);
    assert_eq!(s_of(&v, "value"), "0x0000000000000005");
    let v = written_answer(3, 0x10);
    assert_eq!(u_of(&v, "written"), 3);
    let r = winapi_unknown_method("foo");
    assert_eq!(r.error.unwrap().message, "winapi backend does not implement foo");
}

// ─── reading requests ───────────────────────────────────────────────────

fn wparams(fields: Vec<(&str, JsonValue)>) -> Option<JsonValue> {
    Some(JsonValue::Object(fields.into_iter().map(|(k, v)| (k.to_string(), v)).collect()))
}

fn reply_error(s: WinapiStep) -> (String, String) {
    match s {
        WinapiStep::Reply(r) => {
            let e = r.error.unwrap();
            (e.code, e.message)
        },
        other => panic!("expected a reply, got {:?}", other),
    }
}

#[test]
fn hex_text_that_would_cut_a_character() {
    assert!(!hex_text_panics("abcd"));
    assert!(!hex_text_panics("abc"));
    assert!(!hex_text_panics("zz"));
    // "é" is two bytes: a window that ends inside it cuts it.
    assert!(hex_text_panics("0é0"));
    assert!(hex_text_panics("000é0"));
    assert!(!hex_text_panics("é0"));
    assert!(!hex_text_panics("é00"));
    assert!(!hex_text_panics("zz0é0"));
    assert_eq!(parse_hex_bytes("é0"), Err("hex length must be even".to_string()));
    assert_eq!(parse_hex_bytes("é00"), Err("invalid digit found in string".to_string()));
}

#[test]
fn winapi_reads_simple_requests() {
    assert!(matches!(winapi_step("hello", &None), WinapiStep::Hello));
    assert!(matches!(winapi_step("capabilities", &None), WinapiStep::Capabilities));
    assert!(matches!(winapi_step("stepOut", &None), WinapiStep::Step));
    assert!(matches!(winapi_step("go", &None), WinapiStep::Go));
    match winapi_step("launch", &wparams(vec![("path", JsonValue::Str("C:\\a.exe".to_string()))])) {
        WinapiStep::Launch(p) => assert_eq!(p, "C:\\a.exe"),
        other => panic!("unexpected {:?}", other),
    }
    assert_eq!(reply_error(winapi_step("launch", &None)), ("bad_params".to_string(), "launch requires {path}".to_string()));
    assert!(matches!(
        winapi_step("attach", &wparams(vec![("pid", JsonValue::UInt(0x1_0000_0005))])),
        WinapiStep::Attach(5)
    ));
    assert_eq!(
        reply_error(winapi_step("frob", &None)),
        ("unknown_method".to_string(), "winapi backend does not implement frob".to_string())
    );
    match winapi_step("callstack", &None) {
        WinapiStep::Reply(r) => assert!(r.ok && r.result.unwrap().as_array().unwrap().is_empty()),
        other => panic!("unexpected {:?}", other),
    }
}

#[test]
fn winapi_reads_memory_requests() {
    assert!(matches!(
        winapi_step("readMem", &wparams(vec![("addr", JsonValue::UInt(16)), ("size", JsonValue::UInt(1 << 20))])),
        WinapiStep::ReadMem(16, 65536)
    ));
    assert_eq!(
        reply_error(winapi_step("readMem", &wparams(vec![("addr", JsonValue::UInt(16))]))),
        ("bad_params".to_string(), "readMem requires {addr,size}".to_string())
    );
    match winapi_step("writeMem", &wparams(vec![("addr", JsonValue::UInt(1))])) {
        WinapiStep::WriteMem(a, h) => assert_eq!((a, h.as_str()), (1, "")),
        other => panic!("unexpected {:?}", other),
    }
    assert!(matches!(winapi_step("disasm", &None), WinapiStep::Disasm(None, 32, 512)));
    assert!(matches!(
        winapi_step("disasm", &wparams(vec![("addr", JsonValue::Str("0x10".to_string())), ("count", JsonValue::UInt(500))])),
        WinapiStep::Disasm(Some(16), 96, 1536)
    ));
    match winapi_step("searchMem", &wparams(vec![("pattern", JsonValue::Str("cc ??".to_string())), ("start", JsonValue::UInt(8))])) {
        WinapiStep::SearchMem(p, s, e) => assert_eq!((p, s, e), (vec![Some(0xcc), None], 8, u64::MAX)),
        other => panic!("unexpected {:?}", other),
    }
    assert_eq!(
        reply_error(winapi_step("searchMem", &None)),
        ("bad_params".to_string(), "Empty pattern".to_string())
    );
}

#[test]
fn winapi_reads_register_and_breakpoint_requests() {
    match winapi_step("setReg", &wparams(vec![("name", JsonValue::Str("RIP".to_string())), ("value", JsonValue::Str("0x40".to_string()))])) {
        WinapiStep::SetReg(n, v) => assert_eq!((n.as_str(), v), ("RIP", 0x40)),
        other => panic!("unexpected {:?}", other),
    }
    assert_eq!(
        reply_error(winapi_step("setReg", &wparams(vec![("name", JsonValue::Str("rip".to_string()))]))),
        ("bad_params".to_string(), "setReg requires {name,value}".to_string())
    );
    assert_eq!(
        reply_error(winapi_step("setReg", &wparams(vec![("name", JsonValue::Str("rip".to_string())), ("value", JsonValue::Null)]))),
        ("winapi_error".to_string(), "expected integer or string".to_string())
    );
    assert!(matches!(winapi_step("bpSet", &wparams(vec![("addr", JsonValue::UInt(9))])), WinapiStep::BpSet(9)));
    assert!(matches!(
        winapi_step("bpClear", &wparams(vec![("all", JsonValue::Bool(true)), ("id", JsonValue::UInt(1))])),
        WinapiStep::BpClearAll
    ));
    assert!(matches!(
        winapi_step("bpClear", &wparams(vec![("id", JsonValue::Str("x".to_string())), ("addr", JsonValue::UInt(7))])),
        WinapiStep::BpClearAddr(7)
    ));
    assert_eq!(
        reply_error(winapi_step("bpClear", &None)),
        ("bad_params".to_string(), "bpClear requires id, addr, or all".to_string())
    );
}

#[test]
fn winapi_reads_symbol_requests() {
    match winapi_step("resolveSymbol", &wparams(vec![("module", JsonValue::Str("kernel32".to_string())), ("symbol", JsonValue::Str("Sleep".to_string()))])) {
        WinapiStep::Resolve { module, symbol, dll } => {
            assert_eq!((module.as_str(), symbol.as_str(), dll.as_str()), ("kernel32", "Sleep", "kernel32.dll"))
        },
        other => panic!("unexpected {:?}", other),
    }
    assert_eq!(
        reply_error(winapi_step("resolveSymbol", &None)),
        ("bad_params".to_string(), "resolveSymbol requires {symbol}".to_string())
    );
    assert_eq!(
        reply_error(winapi_step("resolveSymbol", &wparams(vec![("symbol", JsonValue::Str("a\0".to_string()))]))),
        ("bad_params".to_string(), "invalid symbol name".to_string())
    );
}

#[test]
fn upper_case_and_spaced_hex_reads_back() {
    let bytes: Vec<u8> = vec![0x00, 0x0f, 0x7a, 0xde, 0xff];
    let upper: String = bytes.iter().map(|b| format!("{b:02X}")).collect();
    let spaced: Vec<String> = bytes.iter().map(|b| format!("{b:02x}")).collect();
    let spaced_upper: Vec<String> = bytes.iter().map(|b| format!("{b:02X}")).collect();
    assert_eq!(parse_hex_bytes(&upper), Ok(bytes.clone()));
    assert_eq!(parse_hex_bytes(&spaced.join(" ")), Ok(bytes.clone()));
    assert_eq!(parse_hex_bytes(&spaced_upper.join(" ")), Ok(bytes.clone()));
    assert_eq!(parse_hex_bytes("DE AD BE EF"), Ok(vec![0xde, 0xad, 0xbe, 0xef]));
}

#[test]
fn wide_text_decodes_surrogates() {
    assert_eq!(wide_buf_to_string(&vec![0x48, 0x69, 0, 0x41]), "Hi");
    assert_eq!(wide_buf_to_string(&vec![0x48, 0x69]), "Hi");
    assert_eq!(wide_buf_to_string(&vec![]), "");
    assert_eq!(wide_buf_to_string(&vec![0xD800, 0]), "\u{FFFD}");
    assert_eq!(wide_buf_to_string(&vec![0xD83D, 0xDE00, 0]), "\u{1F600}");
    assert_eq!(wide_buf_to_string(&vec![0xDC00, 0x41]), "\u{FFFD}A");
    assert_eq!(wide_buf_to_string(&vec![0xD83D, 0x41]), "\u{FFFD}A");
}

// ─── the debug session ──────────────────────────────────────────────────

#[test]
fn session_follows_launch_events_and_close() {
    let mut s: DebugSession<u64> = DebugSession::new();
    assert_eq!(s.active_handle(), None);
    s.note_launched(10, 100, 5, 50);
    assert_eq!((s.pid, s.process, s.main_thread, s.active_tid), (Some(10), Some(100), Some(50), Some(5)));
    assert_eq!(s.active_handle(), Some(50));
    assert_eq!(s.note_event(10, 6, EventChange::CreateThread { thread: 60 }), None);
    assert_eq!(s.active_tid, Some(6));
    assert_eq!(s.last_event, Some((10, 6)));
    assert_eq!(s.active_handle(), Some(60));
    assert_eq!(s.note_event(10, 6, EventChange::ExitThread), Some(60));
    assert_eq!(s.note_event(10, 6, EventChange::ExitThread), None);
    assert_eq!(s.active_handle(), Some(50));
    assert_eq!(s.note_event(10, 7, EventChange::CreateProcess { process: Some(200), main: Some(70), thread: 70 }), None);
    assert_eq!((s.process, s.main_thread), (Some(100), Some(50)));
    assert_eq!(s.note_event(11, 8, EventChange::Other), None);
    assert_eq!((s.pid, s.active_tid, s.last_event), (Some(11), Some(8), Some((11, 8))));
    let mut closed = s.close_all();
    assert_eq!(closed.len(), 4);
    assert_eq!(&closed[2..], &[50, 100]);
    closed.truncate(2);
    closed.sort();
    assert_eq!(closed, vec![50, 70]);
    assert_eq!((s.pid, s.process, s.main_thread, s.active_tid, s.last_event), (None, None, None, None, None));
    assert!(s.threads.tids().is_empty());
}

#[test]
fn session_settles_threads_and_picks_one() {
    let mut s: DebugSession<u64> = DebugSession::new();
    s.note_attached(3, 30);
    assert_eq!((s.pid, s.process, s.main_thread), (Some(3), Some(30), None));
    s.note_event(3, 1, EventChange::CreateProcess { process: None, main: None, thread: 0 });
    assert_eq!((s.process, s.main_thread), (Some(30), None));
    s.threads.insert(2, 20);
    s.active_tid = None;
    let stale = s.settle_threads(&vec![2]);
    assert_eq!(stale, vec![0]);
    assert_eq!(s.active_tid, Some(2));
    assert_eq!(s.active_handle(), Some(20));
    let stale = s.settle_threads(&vec![]);
    assert_eq!(stale, vec![20]);
    assert_eq!(s.active_tid, Some(2));
    assert_eq!(s.active_handle(), None);
}

#[test]
fn memory_search_walk() {
    assert!(matches!(search_region_plan(0x5000, 0x1000, MEM_COMMIT, 4, 0, 0x5000), RegionPlan::Done));
    assert!(matches!(search_region_plan(0x1000, 0x1000, MEM_FREE, 4, 0, 0x5000), RegionPlan::Skip));
    assert!(matches!(search_region_plan(0x1000, 0x1000, MEM_COMMIT, PAGE_NOACCESS, 0, 0x5000), RegionPlan::Skip));
    assert!(matches!(
        search_region_plan(0x1000, 0x1000, MEM_COMMIT, 4, 0x1800, 0x1c00),
        RegionPlan::Read(0x1800, 0x1c00)
    ));
    assert_eq!(search_goes_on(0, 0x1000, 0x1000, 0x1000), Some(0x2000));
    assert_eq!(search_goes_on(SEARCH_LIMIT, 0x1000, 0x1000, 0x1000), None);
    assert_eq!(search_goes_on(0, 0x3000, 0x1000, 0x1000), None);
    assert_eq!(search_goes_on(0, 1, u64::MAX - 1, 10), Some(u64::MAX));
}
