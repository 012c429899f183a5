use hywdbg::console::{
    append_log, command_err_log_value, command_ok_log_value, disasm_bytes_fit, format_disasm, format_modules,
    format_regs, format_threads, hex_dump_ok, hex_to_lines, lines_vec, mentions_already_active, parse_command,
    parse_u64, pretty_addr, push_padded, refresh_patch, replace_all_str, spaced_hex, split_instruction, time_tag,
    ConsoleCommand, UiPatch, HELP_TEXT,
};
use hywdbg::console::{command_log_patch, outcome_patch, reply_outcome, rpc_failure_message, CommandOutcome, DisasmColumns};
use hywdbg::json::JsonValue;
use hywdbg::num::{hex_u64, IntErrorKind};

const HEX_HEADER: &str = "Address             00 01 02 03 04 05 06 07 08 09 0A 0B 0C 0D 0E 0F  ASCII\n";

fn jobj(fields: Vec<(&str, JsonValue)>) -> JsonValue {
    JsonValue::Object(fields.into_iter().map(|(k, v)| (k.to_string(), v)).collect())
}

fn jtext(s: &str) -> JsonValue {
    JsonValue::Str(s.to_string())
}

// ─── numbers and addresses ──────────────────────────────────────────────

#[test]
fn console_numbers_allow_quotes() {
    assert_eq!(parse_u64("\"0x10\""), Ok(16));
    assert_eq!(parse_u64("  42 "), Ok(42));
    assert_eq!(parse_u64("0XfF"), Ok(255));
    assert_eq!(parse_u64("\"\""), Err(IntErrorKind::Empty));
    assert_eq!(parse_u64("0xZZ"), Err(IntErrorKind::InvalidDigit));
    assert_eq!(parse_u64("99999999999999999999"), Err(IntErrorKind::PosOverflow));
}

#[test]
fn pretty_addresses_split_the_halves() {
    assert_eq!(pretty_addr("0x7ff612340000"), "00007FF6`12340000");
    assert_eq!(pretty_addr("4096"), "00000000`00001000");
    assert_eq!(pretty_addr("\"0x0000000000401000\""), "00000000`00401000");
    assert_eq!(pretty_addr("nonsense"), "nonsense");
}

#[test]
fn replace_all_replaces_each_occurrence() {
    assert_eq!(replace_all_str("00000000`00001000", "00000000`", ""), "00001000");
    assert_eq!(replace_all_str("aaa", "a", "bb"), "bbbbbb");
    assert_eq!(replace_all_str("abc", "x", "y"), "abc");
}

#[test]
fn padding_fills_to_the_width() {
    let mut out: Vec<char> = Vec::new();
    push_padded(&mut out, &"ab".chars().collect(), 4);
    push_padded(&mut out, &"long".chars().collect(), 2);
    assert_eq!(out.iter().collect::<String>(), "ab  long");
}

// ─── log ────────────────────────────────────────────────────────────────

#[test]
fn time_tags() {
    assert_eq!(time_tag(3661), "[01:01:01]");
    assert_eq!(time_tag(86400 + 59), "[00:00:59]");
    assert_eq!(time_tag(86399), "[23:59:59]");
}

#[test]
fn lines_split_like_str_lines() {
    assert_eq!(lines_vec("a\r\nb\n"), vec!["a".to_string(), "b".to_string()]);
    assert_eq!(lines_vec(""), Vec::<String>::new());
    assert_eq!(lines_vec("\n\nx"), vec!["".to_string(), "".to_string(), "x".to_string()]);
}

#[test]
fn log_lines_are_tagged_and_capped() {
    assert_eq!(append_log("a\nb", "x\ny", "[00:00:01]"), "a\nb\n[00:00:01] x\n[00:00:01] y");
    assert_eq!(append_log("", "hello", "[t]"), "[t] hello");
    let old: Vec<String> = (0..120).map(|i| format!("l{i}")).collect();
    let r = append_log(&old.join("\n"), "new", "[t]");
    let lines: Vec<&str> = r.lines().collect();
    assert_eq!(lines.len(), 120);
    assert_eq!(lines[0], "l1");
    assert_eq!(lines[119], "[t] new");
}

// ─── hex views ──────────────────────────────────────────────────────────

#[test]
fn spaced_hex_groups_pairs() {
    assert_eq!(spaced_hex("  4889e5 "), "48 89 E5");
    assert_eq!(spaced_hex("abc"), "AB C");
    assert_eq!(spaced_hex(""), "");
}

#[test]
fn hex_dump_one_row() {
    let expected = format!("{HEX_HEADER}00000000`00001000  41 42 0A {} AB.\n", "   ".repeat(13));
    assert!(hex_dump_ok("0x1000", "41420a"));
    assert_eq!(hex_to_lines("0x1000", "41420a"), expected);
}

#[test]
fn hex_dump_skips_bad_pairs_and_wraps() {
    let text = hex_to_lines("0x10", "41zz42");
    assert!(text.contains("41 42 "));
    let hex: String = (0..17).map(|i| format!("{:02x}", 0x30 + i)).collect();
    let text = hex_to_lines("16", &hex);
    let lines: Vec<&str> = text.lines().collect();
    assert_eq!(lines.len(), 3);
    assert!(lines[1].starts_with("00000000`00000010  30 31"));
    assert!(lines[1].ends_with(" 0123456789:;<=>?"));
    assert!(lines[2].starts_with("00000000`00000020  40 "));
    assert_eq!(hex_to_lines("bad", ""), HEX_HEADER);
}

// ─── instructions ───────────────────────────────────────────────────────

#[test]
fn instructions_split_into_columns() {
    assert_eq!(
        split_instruction("mov     rbp,rsp"),
        ("mov".to_string(), "rbp,rsp".to_string(), String::new())
    );
    assert_eq!(
        split_instruction("call foo ; into the loader"),
        ("call".to_string(), "foo".to_string(), "; into the loader".to_string())
    );
    assert_eq!(
        split_instruction("db 90 ; real target bytes, decoder not linked yet"),
        ("db".to_string(), "90".to_string(), "; raw bytes".to_string())
    );
    assert_eq!(split_instruction(""), (String::new(), String::new(), String::new()));
}

#[test]
fn disasm_columns() {
    let v = JsonValue::Array(vec![
        jobj(vec![("addr", jtext("0x1000")), ("bytes", jtext("90")), ("text", jtext("nop"))]),
        jobj(vec![("addr", jtext("0x1001")), ("bytes", jtext("e8aabbccdd")), ("text", jtext("call 0x2000"))]),
    ]);
    assert!(disasm_bytes_fit(&v));
    let c = format_disasm(&v);
    assert_eq!(c.pc, "00000000`00001000");
    assert_eq!(c.addr, "00001000\n00001001\n");
    assert_eq!(c.bytes, "90\nE8 AA BB CC DD\n");
    assert_eq!(c.mnemonic, "nop\ncall\n");
    assert_eq!(c.operand, "\n0x2000\n");
    assert_eq!(c.comment, "\n\n");
    let c = format_disasm(&JsonValue::Null);
    assert_eq!(c.pc, "00000000`00000000");
    assert_eq!(c.addr, "");
}

// ─── registers, modules, threads ────────────────────────────────────────

#[test]
fn register_columns() {
    let v = jobj(vec![
        ("arch", jtext("x64")),
        (
            "registers",
            jobj(vec![("rip", jtext("0x1000")), ("rsp", jtext("0x2000")), ("eflags", jtext("0x246"))]),
        ),
    ]);
    let (arch, regs, flags, rip, rsp) = format_regs(&v);
    assert_eq!(arch, "x64");
    let lines: Vec<&str> = regs.lines().collect();
    assert_eq!(lines.len(), 17);
    assert_eq!(lines[0], "RAX   00000000`00000000");
    assert_eq!(lines[8], "RIP   00000000`00001000");
    assert_eq!(lines[9], "R8    00000000`00000000");
    assert!(regs.ends_with('\n'));
    assert_eq!(flags, "RFLAGS 0x246\nCF 0 PF 0 AF 0 ZF 0 SF 0\nTF 0 IF 1 DF 0 OF 0 NT 0");
    assert_eq!(rip, "0x1000");
    assert_eq!(rsp, "0x2000");
}

#[test]
fn register_columns_defaults() {
    let v = jobj(vec![("registers", jobj(vec![("rflags", jtext("0x202"))]))]);
    let (arch, _, flags, rip, rsp) = format_regs(&v);
    assert_eq!(arch, "x64");
    assert!(flags.starts_with("RFLAGS 0x202\n"));
    assert_eq!(rip, "0x0000000000000000");
    assert_eq!(rsp, "0x0000000000000000");
    let (_, _, flags, _, _) = format_regs(&JsonValue::Null);
    assert!(flags.starts_with("RFLAGS 0x0000000000000000\n"));
}

#[test]
fn module_table() {
    let v = JsonValue::Array(vec![
        jobj(vec![("name", jtext("a.exe")), ("base", jtext("0x140000000")), ("size", JsonValue::UInt(4096))]),
        jobj(vec![("base", jtext("0x7ff8"))]),
    ]);
    let (table, first) = format_modules(&v);
    assert_eq!(first, "a.exe");
    let lines: Vec<&str> = table.lines().collect();
    assert_eq!(lines[0], "Base               Module                  Size");
    assert_eq!(lines[1], format!("{:<18} {:<23} {:08X}", "00000001`40000000", "a.exe", 4096));
    assert_eq!(lines[2], format!("{:<18} {:<23} {:08X}", "00007FF8", "-", 0));
    let (table, first) = format_modules(&JsonValue::Null);
    assert_eq!(table, "Base               Module                  Size\n");
    assert_eq!(first, "debuggee");
}

#[test]
fn thread_table_text() {
    let v = JsonValue::Array(vec![
        jobj(vec![("id", jtext("1")), ("pc", jtext("0x10")), ("active", JsonValue::Bool(false))]),
        jobj(vec![("id", jtext("2")), ("active", JsonValue::Bool(true))]),
    ]);
    let (table, tid) = format_threads(&v);
    assert_eq!(
        table,
        "TID      PC                State\n1        0x10              Ready\n2        -                 Active\n"
    );
    assert_eq!(tid, "2");
    let v = JsonValue::Array(vec![jobj(vec![("id", jtext("9"))])]);
    assert_eq!(format_threads(&v).1, "9");
    assert_eq!(format_threads(&JsonValue::Array(vec![])).1, "----");
}

// ─── window patches ─────────────────────────────────────────────────────

#[test]
fn initial_window() {
    let p = UiPatch::initial();
    assert_eq!(p.status.as_deref(), Some("Idle"));
    assert_eq!(p.core.as_deref(), Some("unknown"));
    assert_eq!(p.backend.as_deref(), Some("none"));
    assert_eq!(p.target.as_deref(), Some("no target"));
    assert_eq!(p.pc.as_deref(), Some("00000000`00000000"));
    assert_eq!(p.disasm_operand.as_deref(), Some("<open an executable to begin>"));
    assert!(p.log.is_none());
    let e = UiPatch::empty();
    assert!(e.status.is_none() && e.hex.is_none() && e.log.is_none());
}

#[test]
fn refresh_builds_every_panel() {
    let regs = jobj(vec![("registers", jobj(vec![("rip", jtext("0x1000"))]))]);
    let mods = JsonValue::Array(vec![jobj(vec![("name", jtext("t.exe")), ("base", jtext("0x400000"))])]);
    let threads = JsonValue::Array(vec![jobj(vec![("id", jtext("77")), ("active", JsonValue::Bool(true))])]);
    let dis = JsonValue::Array(vec![jobj(vec![("addr", jtext("0x1000")), ("bytes", jtext("c3")), ("text", jtext("ret"))])]);
    let mem = jobj(vec![("addr", jtext("0x2000")), ("hex", jtext("4142"))]);
    let p = refresh_patch(None, &regs, &mods, &threads, &dis, &mem);
    assert_eq!(p.status.as_deref(), Some("Stopped"));
    assert_eq!(p.core.as_deref(), Some("online"));
    assert_eq!(p.backend.as_deref(), Some("winapi"));
    assert_eq!(p.pid.as_deref(), Some("----"));
    assert_eq!(p.tid.as_deref(), Some("77"));
    assert_eq!(p.arch.as_deref(), Some("x64"));
    assert_eq!(p.target.as_deref(), Some("t.exe"));
    assert_eq!(
        p.processes.unwrap(),
        format!("PID      Process Name           Arch   Status\n{:<8} {:<22} x64    stopped", "----", "t.exe")
    );
    assert_eq!(p.pc.as_deref(), Some("00000000`00001000"));
    assert_eq!(p.disasm_mnemonic.as_deref(), Some("ret\n"));
    let hex = p.hex.unwrap();
    assert!(hex.starts_with(HEX_HEADER));
    assert_eq!(p.stack.unwrap(), hex.lines().skip(1).take(10).collect::<Vec<_>>().join("\n"));
    assert_eq!(p.breakpoints.as_deref(), Some("Address             Type   Hits\n<none>"));
    assert!(p.log.is_none());
    let p = refresh_patch(Some("1234".to_string()), &regs, &mods, &threads, &dis, &mem);
    assert_eq!(p.pid.as_deref(), Some("1234"));
}

// ─── console commands ───────────────────────────────────────────────────

#[test]
fn simple_commands() {
    assert!(matches!(parse_command("   "), ConsoleCommand::Nothing));
    assert!(matches!(parse_command("HELP"), ConsoleCommand::Help));
    assert!(matches!(parse_command("backend winapi"), ConsoleCommand::Backend));
    assert!(matches!(parse_command("stop"), ConsoleCommand::Stop));
    assert!(matches!(parse_command("r"), ConsoleCommand::Refresh));
    assert!(matches!(parse_command("Modules"), ConsoleCommand::Refresh));
    assert!(matches!(parse_command("g"), ConsoleCommand::Go));
    assert!(matches!(parse_command("t"), ConsoleCommand::Step));
    assert!(matches!(parse_command("step"), ConsoleCommand::Step));
    assert!(matches!(parse_command("pause"), ConsoleCommand::Pause));
    match parse_command("FROB x") {
        ConsoleCommand::Unknown(c) => assert_eq!(c, "frob"),
        other => panic!("unexpected {:?}", other),
    }
}

#[test]
fn launch_and_attach_commands() {
    match parse_command("  launch C:\\My Apps\\a.exe  ") {
        ConsoleCommand::Launch(p) => assert_eq!(p, "C:\\My Apps\\a.exe"),
        other => panic!("unexpected {:?}", other),
    }
    match parse_command("open x") {
        ConsoleCommand::Launch(p) => assert_eq!(p, "x"),
        other => panic!("unexpected {:?}", other),
    }
    match parse_command("launch") {
        ConsoleCommand::Fail(e) => assert_eq!(e, "launch requires path"),
        other => panic!("unexpected {:?}", other),
    }
    assert!(matches!(parse_command("attach 42"), ConsoleCommand::Attach(42)));
    match parse_command("attach") {
        ConsoleCommand::Fail(e) => assert_eq!(e, "attach requires pid"),
        other => panic!("unexpected {:?}", other),
    }
    match parse_command("attach 12x") {
        ConsoleCommand::Fail(e) => assert_eq!(e, "invalid digit found in string"),
        other => panic!("unexpected {:?}", other),
    }
}

#[test]
fn address_commands() {
    assert!(matches!(parse_command("u"), ConsoleCommand::Disasm(None)));
    assert!(matches!(parse_command("u RIP"), ConsoleCommand::Disasm(None)));
    match parse_command("u 0x10") {
        ConsoleCommand::Disasm(Some(a)) => assert_eq!(a, "0x10"),
        other => panic!("unexpected {:?}", other),
    }
    match parse_command("db 0x10 32") {
        ConsoleCommand::Dump(a, n) => assert_eq!((a.as_str(), n), ("0x10", 32)),
        other => panic!("unexpected {:?}", other),
    }
    match parse_command("db") {
        ConsoleCommand::Dump(a, n) => assert_eq!((a.as_str(), n), ("0x0", 128)),
        other => panic!("unexpected {:?}", other),
    }
    match parse_command("db 0x10 zz") {
        ConsoleCommand::Dump(_, n) => assert_eq!(n, 128),
        other => panic!("unexpected {:?}", other),
    }
    assert!(matches!(parse_command("bp"), ConsoleCommand::Breakpoint(None)));
    match parse_command("bp 0x401000") {
        ConsoleCommand::Breakpoint(Some(a)) => assert_eq!(a, "0x401000"),
        other => panic!("unexpected {:?}", other),
    }
}

#[test]
fn command_log_entries() {
    assert_eq!(command_ok_log_value("  regs ", None), "hyw> regs\nok");
    assert_eq!(command_ok_log_value("g", Some("go".to_string())), "hyw> g\ngo");
    assert_eq!(command_err_log_value("attach", "attach requires pid"), "hyw> attach\nerror: attach requires pid");
    assert!(mentions_already_active("core.startBackend failed: \"backend winapi is already active; call core.stopBackend first\""));
    assert!(!mentions_already_active("already"));
    assert!(!mentions_already_active(""));
    assert!(HELP_TEXT.starts_with("commands: backend winapi"));
}

#[test]
fn backend_addresses_show_as_two_halves() {
    assert_eq!(pretty_addr(&hex_u64(0x7ff6_1234_1000)), "00007FF6`12341000");
    assert_eq!(pretty_addr(&hex_u64(0)), "00000000`00000000");
    assert_eq!(pretty_addr(&hex_u64(u64::MAX)), "FFFFFFFF`FFFFFFFF");
}

#[test]
fn command_outcomes_set_their_panels() {
    let p = outcome_patch(CommandOutcome::Help);
    assert_eq!(p.log.as_deref(), Some(HELP_TEXT));
    assert!(p.status.is_none() && p.backend.is_none());
    let p = outcome_patch(CommandOutcome::BackendReady);
    assert_eq!((p.backend.as_deref(), p.log.as_deref()), (Some("winapi"), Some("backend winapi ready")));
    let p = outcome_patch(CommandOutcome::BackendStopped);
    assert_eq!((p.backend.as_deref(), p.log.as_deref()), (Some("none"), Some("backend stopped")));
    let mut panels = UiPatch::empty();
    panels.status = Some("Stopped".to_string());
    let p = outcome_patch(CommandOutcome::Attached(panels, 4242));
    assert_eq!(p.pid.as_deref(), Some("4242"));
    assert_eq!(p.log.as_deref(), Some("attach 4242"));
    assert_eq!(p.status.as_deref(), Some("Stopped"));
    let p = outcome_patch(CommandOutcome::Launched(UiPatch::empty(), "C:\\a.exe".to_string()));
    assert_eq!(p.log.as_deref(), Some("launch C:\\a.exe"));
    let p = outcome_patch(CommandOutcome::Went(UiPatch::empty()));
    assert_eq!(p.log.as_deref(), Some("go"));
    let p = outcome_patch(CommandOutcome::Refreshed(UiPatch::empty()));
    assert!(p.log.is_none());
    let p = outcome_patch(CommandOutcome::Dumped("dump".to_string()));
    assert_eq!((p.hex.as_deref(), p.log.as_deref()), (Some("dump"), Some("memory refreshed")));
    let p = outcome_patch(CommandOutcome::BreakpointSet);
    assert_eq!(p.breakpoints.as_deref(), Some("Address             Type   Hits\n<set at current address>"));
    let p = outcome_patch(CommandOutcome::Unknown("frob".to_string()));
    assert_eq!(p.log.as_deref(), Some("unknown command: frob"));
    let cols = DisasmColumns {
        pc: "pc".to_string(),
        addr: "a".to_string(),
        bytes: "b".to_string(),
        mnemonic: "m".to_string(),
        operand: "o".to_string(),
        comment: "c".to_string(),
    };
    let p = outcome_patch(CommandOutcome::Disassembled(cols));
    assert_eq!(p.pc.as_deref(), Some("pc"));
    assert_eq!(p.disasm_comment.as_deref(), Some("c"));
    assert_eq!(p.log.as_deref(), Some("disasm refreshed"));
}

#[test]
fn console_lines_end_in_a_log_entry() {
    let p = command_log_patch(" g ", Ok(outcome_patch(CommandOutcome::Went(UiPatch::empty()))));
    assert_eq!(p.log.as_deref(), Some("hyw> g\ngo"));
    let p = command_log_patch("r", Ok(UiPatch::empty()));
    assert_eq!(p.log.as_deref(), Some("hyw> r\nok"));
    let p = command_log_patch("attach", Err("attach requires pid".to_string()));
    assert_eq!(p.log.as_deref(), Some("hyw> attach\nerror: attach requires pid"));
    assert_eq!(p.status.as_deref(), Some("Command failed"));
}

fn shown(v: &JsonValue) -> String {
    format!("{:?}", v)
}

#[test]
fn replies_give_their_result_or_error_detail() {
    let r = reply_outcome(&jobj(vec![("ok", JsonValue::Bool(true)), ("result", JsonValue::UInt(7))]));
    assert_eq!(shown(&r.unwrap()), shown(&JsonValue::UInt(7)));
    let r = reply_outcome(&jobj(vec![("ok", JsonValue::Bool(true))]));
    assert_eq!(shown(&r.unwrap()), shown(&JsonValue::Null));
    let err = jobj(vec![("code", jtext("no_backend")), ("message", jtext("no backend is running"))]);
    let r = reply_outcome(&jobj(vec![("ok", JsonValue::Bool(false)), ("error", err)]));
    assert_eq!(shown(&r.unwrap_err().unwrap()), shown(&jtext("no backend is running")));
    let r = reply_outcome(&jobj(vec![("ok", JsonValue::Bool(false)), ("error", jtext("plain"))]));
    assert_eq!(shown(&r.unwrap_err().unwrap()), shown(&jtext("plain")));
    let r = reply_outcome(&jobj(vec![("ok", JsonValue::Bool(false))]));
    assert!(r.unwrap_err().is_none());
    let r = reply_outcome(&jobj(vec![("ok", jtext("true")), ("result", JsonValue::UInt(1))]));
    assert!(r.unwrap_err().is_none());
    let r = reply_outcome(&jobj(vec![("result", JsonValue::UInt(1)), ("error", JsonValue::UInt(3))]));
    assert_eq!(shown(&r.unwrap_err().unwrap()), shown(&JsonValue::UInt(3)));
}

#[test]
fn failed_calls_name_the_method() {
    assert_eq!(rpc_failure_message("dbg.go", Some("\"not attached\"")), "dbg.go failed: \"not attached\"");
    assert_eq!(rpc_failure_message("core.status", None), "core.status failed: unknown error");
}
