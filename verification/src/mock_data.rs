//! The fixed catalogues of the simulated backends: their threads, modules,
//! call stacks, processes, registers, symbols and instructions.
use vstd::prelude::*;
use crate::json::{Json, JsonValue, new_items, push_item, lemma_array_view};
use crate::num::{hex_u64, spec_hex_u64};
use crate::protocol::{
    ThreadInfo, ModuleInfo, StackFrame, ProcessListEntry, thread_json, module_json, frame_json,
    process_json, regs_view, new_regs, push_reg,
};
use crate::text::{string_from, chars_is};

verus! {

/// Which simulated backend a state belongs to.
#[derive(PartialEq, Eq, Structural, Clone, Copy, Debug)]
pub enum MockProfile {
    /// A GDB remote serial protocol stub (a RISC-V 64 target by default).
    GdbRemote,
    /// LLDB on an ARM64 Apple target.
    Lldb,
    /// The Windows debugger engine on an x64 target.
    DbgEng,
}

/// The threads (gdb).
pub open spec fn gdb_threads(pc: u64) -> Json {
    Json::Array(Seq::empty().push(thread_json("p1.t1"@, Some("main"@), Some(spec_hex_u64(pc)), true)).push(thread_json("p1.t2"@, Some("irq-handler"@), Some(spec_hex_u64(0x20000)), false)).push(thread_json("p1.t3"@, Some("idle"@), Some(spec_hex_u64(0x30000)), false)))
}

fn gdb_threads_value(pc: u64) -> (r: JsonValue)
    ensures
        r@ == gdb_threads(pc),
{
    let mut a = new_items();
    push_item(&mut a, ThreadInfo { id: string_from("p1.t1"), name: Some(string_from("main")), pc: Some(hex_u64(pc)), active: true }.to_json());
    push_item(&mut a, ThreadInfo { id: string_from("p1.t2"), name: Some(string_from("irq-handler")), pc: Some(hex_u64(0x20000)), active: false }.to_json());
    push_item(&mut a, ThreadInfo { id: string_from("p1.t3"), name: Some(string_from("idle")), pc: Some(hex_u64(0x30000)), active: false }.to_json());
    proof {
        lemma_array_view(a);
    }
    JsonValue::Array(a)
}

/// The threads (lldb).
pub open spec fn lldb_threads(pc: u64) -> Json {
    Json::Array(Seq::empty().push(thread_json("1"@, Some("main"@), Some(spec_hex_u64(pc)), true)).push(thread_json("2"@, Some("com.apple.main-thread"@), Some(spec_hex_u64(pc)), true)).push(thread_json("3"@, Some("com.apple.NSEventThread"@), Some(spec_hex_u64(0x1803b4a00)), false)).push(thread_json("4"@, Some("AURemoteIO::IOThread"@), Some(spec_hex_u64(0x18012a840)), false)))
}

fn lldb_threads_value(pc: u64) -> (r: JsonValue)
    ensures
        r@ == lldb_threads(pc),
{
    let mut a = new_items();
    push_item(&mut a, ThreadInfo { id: string_from("1"), name: Some(string_from("main")), pc: Some(hex_u64(pc)), active: true }.to_json());
    push_item(&mut a, ThreadInfo { id: string_from("2"), name: Some(string_from("com.apple.main-thread")), pc: Some(hex_u64(pc)), active: true }.to_json());
    push_item(&mut a, ThreadInfo { id: string_from("3"), name: Some(string_from("com.apple.NSEventThread")), pc: Some(hex_u64(0x1803b4a00)), active: false }.to_json());
    push_item(&mut a, ThreadInfo { id: string_from("4"), name: Some(string_from("AURemoteIO::IOThread")), pc: Some(hex_u64(0x18012a840)), active: false }.to_json());
    proof {
        lemma_array_view(a);
    }
    JsonValue::Array(a)
}

/// The threads (dbgeng).
pub open spec fn dbgeng_threads(pc: u64) -> Json {
    Json::Array(Seq::empty().push(thread_json("1"@, Some("main"@), Some(spec_hex_u64(pc)), true)).push(thread_json("2"@, Some("worker"@), Some(spec_hex_u64(0x140005678)), false)).push(thread_json("3"@, Some("RPC server"@), Some(spec_hex_u64(0x7ff9a007c6b0)), false)))
}

fn dbgeng_threads_value(pc: u64) -> (r: JsonValue)
    ensures
        r@ == dbgeng_threads(pc),
{
    let mut a = new_items();
    push_item(&mut a, ThreadInfo { id: string_from("1"), name: Some(string_from("main")), pc: Some(hex_u64(pc)), active: true }.to_json());
    push_item(&mut a, ThreadInfo { id: string_from("2"), name: Some(string_from("worker")), pc: Some(hex_u64(0x140005678)), active: false }.to_json());
    push_item(&mut a, ThreadInfo { id: string_from("3"), name: Some(string_from("RPC server")), pc: Some(hex_u64(0x7ff9a007c6b0)), active: false }.to_json());
    proof {
        lemma_array_view(a);
    }
    JsonValue::Array(a)
}

/// The call stack (gdb).
pub open spec fn gdb_callstack(pc: u64) -> Json {
    Json::Array(Seq::empty().push(frame_json(spec_hex_u64(pc), Some("main"@), Some("firmware.elf"@), Some("src/main.c:88"@))).push(frame_json(spec_hex_u64(0x14200), Some("hal_init"@), Some("firmware.elf"@), Some("hal/init.c:23"@))).push(frame_json(spec_hex_u64(0x63800), Some("__libc_start_main"@), Some("libc.a"@), None)).push(frame_json(spec_hex_u64(0x10480), Some("_start"@), Some("firmware.elf"@), Some("crt0.S:14"@))))
}

fn gdb_callstack_value(pc: u64) -> (r: JsonValue)
    ensures
        r@ == gdb_callstack(pc),
{
    let mut a = new_items();
    push_item(&mut a, StackFrame { addr: hex_u64(pc), symbol: Some(string_from("main")), module: Some(string_from("firmware.elf")), source: Some(string_from("src/main.c:88")) }.to_json());
    push_item(&mut a, StackFrame { addr: hex_u64(0x14200), symbol: Some(string_from("hal_init")), module: Some(string_from("firmware.elf")), source: Some(string_from("hal/init.c:23")) }.to_json());
    push_item(&mut a, StackFrame { addr: hex_u64(0x63800), symbol: Some(string_from("__libc_start_main")), module: Some(string_from("libc.a")), source: None }.to_json());
    push_item(&mut a, StackFrame { addr: hex_u64(0x10480), symbol: Some(string_from("_start")), module: Some(string_from("firmware.elf")), source: Some(string_from("crt0.S:14")) }.to_json());
    proof {
        lemma_array_view(a);
    }
    JsonValue::Array(a)
}

/// The call stack (lldb).
pub open spec fn lldb_callstack(pc: u64) -> Json {
    Json::Array(Seq::empty().push(frame_json(spec_hex_u64(pc), Some("-[ViewController viewDidLoad]"@), Some("TargetApp"@), Some("ViewController.m:34"@))).push(frame_json(spec_hex_u64(0x100006a10), Some("-[UIViewController _sendViewDidLoadWithAppearanceProxyObjectTaggingEnabled]"@), Some("UIKit"@), None)).push(frame_json(spec_hex_u64(0x181a23400), Some("CFRunLoopRun"@), Some("CoreFoundation"@), None)).push(frame_json(spec_hex_u64(0x18020b810), Some("_objc_msgSend"@), Some("libobjc.A.dylib"@), None)).push(frame_json(spec_hex_u64(0x1803a8c10), Some("__pthread_start"@), Some("libSystem.B.dylib"@), None)))
}

fn lldb_callstack_value(pc: u64) -> (r: JsonValue)
    ensures
        r@ == lldb_callstack(pc),
{
    let mut a = new_items();
    push_item(&mut a, StackFrame { addr: hex_u64(pc), symbol: Some(string_from("-[ViewController viewDidLoad]")), module: Some(string_from("TargetApp")), source: Some(string_from("ViewController.m:34")) }.to_json());
    push_item(&mut a, StackFrame { addr: hex_u64(0x100006a10), symbol: Some(string_from("-[UIViewController _sendViewDidLoadWithAppearanceProxyObjectTaggingEnabled]")), module: Some(string_from("UIKit")), source: None }.to_json());
    push_item(&mut a, StackFrame { addr: hex_u64(0x181a23400), symbol: Some(string_from("CFRunLoopRun")), module: Some(string_from("CoreFoundation")), source: None }.to_json());
    push_item(&mut a, StackFrame { addr: hex_u64(0x18020b810), symbol: Some(string_from("_objc_msgSend")), module: Some(string_from("libobjc.A.dylib")), source: None }.to_json());
    push_item(&mut a, StackFrame { addr: hex_u64(0x1803a8c10), symbol: Some(string_from("__pthread_start")), module: Some(string_from("libSystem.B.dylib")), source: None }.to_json());
    proof {
        lemma_array_view(a);
    }
    JsonValue::Array(a)
}

/// The call stack (dbgeng).
pub open spec fn dbgeng_callstack(pc: u64) -> Json {
    Json::Array(Seq::empty().push(frame_json(spec_hex_u64(pc), Some("target!WinMain"@), Some("target.exe"@), Some("src\\main.cpp:42"@))).push(frame_json(spec_hex_u64(0x140003210), Some("target!init_subsystems"@), Some("target.exe"@), Some("src\\init.cpp:17"@))).push(frame_json(spec_hex_u64(0x7ff8b001a530), Some("kernel32!BaseThreadInitThunk"@), Some("kernel32.dll"@), None)).push(frame_json(spec_hex_u64(0x7ff9a007c6b1), Some("ntdll!RtlUserThreadStart"@), Some("ntdll.dll"@), None)))
}

fn dbgeng_callstack_value(pc: u64) -> (r: JsonValue)
    ensures
        r@ == dbgeng_callstack(pc),
{
    let mut a = new_items();
    push_item(&mut a, StackFrame { addr: hex_u64(pc), symbol: Some(string_from("target!WinMain")), module: Some(string_from("target.exe")), source: Some(string_from("src\\main.cpp:42")) }.to_json());
    push_item(&mut a, StackFrame { addr: hex_u64(0x140003210), symbol: Some(string_from("target!init_subsystems")), module: Some(string_from("target.exe")), source: Some(string_from("src\\init.cpp:17")) }.to_json());
    push_item(&mut a, StackFrame { addr: hex_u64(0x7ff8b001a530), symbol: Some(string_from("kernel32!BaseThreadInitThunk")), module: Some(string_from("kernel32.dll")), source: None }.to_json());
    push_item(&mut a, StackFrame { addr: hex_u64(0x7ff9a007c6b1), symbol: Some(string_from("ntdll!RtlUserThreadStart")), module: Some(string_from("ntdll.dll")), source: None }.to_json());
    proof {
        lemma_array_view(a);
    }
    JsonValue::Array(a)
}

/// The processes (gdb).
pub open spec fn gdb_processes(arch: Seq<char>) -> Json {
    Json::Array(Seq::empty().push(process_json(0x1, "firmware.elf"@, arch, Some("Bare metal target"@))).push(process_json(0x2, "qemu-riscv64"@, "x64"@, Some("QEMU emulator host"@))).push(process_json(0x3, "openocd"@, "x64"@, Some("OpenOCD debug adapter"@))).push(process_json(0x64, "kernel"@, arch, Some("Linux kernel (kgdb)"@))).push(process_json(0xc8, "init"@, arch, Some("PID 1 init process"@))))
}

fn gdb_processes_value(arch: &String) -> (r: JsonValue)
    ensures
        r@ == gdb_processes(arch@),
{
    let mut a = new_items();
    push_item(&mut a, ProcessListEntry { pid: 0x1, name: string_from("firmware.elf"), arch: arch.clone(), description: Some(string_from("Bare metal target")) }.to_json());
    push_item(&mut a, ProcessListEntry { pid: 0x2, name: string_from("qemu-riscv64"), arch: string_from("x64"), description: Some(string_from("QEMU emulator host")) }.to_json());
    push_item(&mut a, ProcessListEntry { pid: 0x3, name: string_from("openocd"), arch: string_from("x64"), description: Some(string_from("OpenOCD debug adapter")) }.to_json());
    push_item(&mut a, ProcessListEntry { pid: 0x64, name: string_from("kernel"), arch: arch.clone(), description: Some(string_from("Linux kernel (kgdb)")) }.to_json());
    push_item(&mut a, ProcessListEntry { pid: 0xc8, name: string_from("init"), arch: arch.clone(), description: Some(string_from("PID 1 init process")) }.to_json());
    proof {
        lemma_array_view(a);
    }
    JsonValue::Array(a)
}

/// The processes (lldb).
pub open spec fn lldb_processes() -> Json {
    Json::Array(Seq::empty().push(process_json(0x1, "launchd"@, "arm64"@, Some("macOS system init"@))).push(process_json(0x55, "WindowServer"@, "arm64"@, Some("Quartz compositor"@))).push(process_json(0x1c8, "Finder"@, "arm64"@, Some("macOS Finder"@))).push(process_json(0x315, "Xcode"@, "arm64"@, Some("Apple Xcode IDE"@))).push(process_json(0x4d2, "TargetApp"@, "arm64"@, Some("Debug target"@))).push(process_json(0x7d1, "lldb"@, "arm64"@, Some("LLDB debugger host"@))).push(process_json(0xce5, "Safari"@, "arm64e"@, None)).push(process_json(0x1006, "iTerm2"@, "arm64"@, None)))
}

fn lldb_processes_value() -> (r: JsonValue)
    ensures
        r@ == lldb_processes(),
{
    let mut a = new_items();
    push_item(&mut a, ProcessListEntry { pid: 0x1, name: string_from("launchd"), arch: string_from("arm64"), description: Some(string_from("macOS system init")) }.to_json());
    push_item(&mut a, ProcessListEntry { pid: 0x55, name: string_from("WindowServer"), arch: string_from("arm64"), description: Some(string_from("Quartz compositor")) }.to_json());
    push_item(&mut a, ProcessListEntry { pid: 0x1c8, name: string_from("Finder"), arch: string_from("arm64"), description: Some(string_from("macOS Finder")) }.to_json());
    push_item(&mut a, ProcessListEntry { pid: 0x315, name: string_from("Xcode"), arch: string_from("arm64"), description: Some(string_from("Apple Xcode IDE")) }.to_json());
    push_item(&mut a, ProcessListEntry { pid: 0x4d2, name: string_from("TargetApp"), arch: string_from("arm64"), description: Some(string_from("Debug target")) }.to_json());
    push_item(&mut a, ProcessListEntry { pid: 0x7d1, name: string_from("lldb"), arch: string_from("arm64"), description: Some(string_from("LLDB debugger host")) }.to_json());
    push_item(&mut a, ProcessListEntry { pid: 0xce5, name: string_from("Safari"), arch: string_from("arm64e"), description: None }.to_json());
    push_item(&mut a, ProcessListEntry { pid: 0x1006, name: string_from("iTerm2"), arch: string_from("arm64"), description: None }.to_json());
    proof {
        lemma_array_view(a);
    }
    JsonValue::Array(a)
}

/// The processes (dbgeng).
pub open spec fn dbgeng_processes() -> Json {
    Json::Array(Seq::empty().push(process_json(0x4, "System"@, "x64"@, Some("Windows NT kernel"@))).push(process_json(0x378, "svchost.exe"@, "x64"@, Some("Service Host: RPCSS"@))).push(process_json(0x4b0, "explorer.exe"@, "x64"@, Some("Windows Explorer"@))).push(process_json(0x800, "target.exe"@, "x64"@, Some("Debug target"@))).push(process_json(0xc30, "notepad.exe"@, "x64"@, None)).push(process_json(0x1158, "chrome.exe"@, "x64"@, Some("Google Chrome"@))).push(process_json(0x1450, "windbg.exe"@, "x64"@, Some("WinDbg debugger"@))).push(process_json(0x1770, "csrss.exe"@, "x64"@, Some("Client/Server Runtime"@))))
}

fn dbgeng_processes_value() -> (r: JsonValue)
    ensures
        r@ == dbgeng_processes(),
{
    let mut a = new_items();
    push_item(&mut a, ProcessListEntry { pid: 0x4, name: string_from("System"), arch: string_from("x64"), description: Some(string_from("Windows NT kernel")) }.to_json());
    push_item(&mut a, ProcessListEntry { pid: 0x378, name: string_from("svchost.exe"), arch: string_from("x64"), description: Some(string_from("Service Host: RPCSS")) }.to_json());
    push_item(&mut a, ProcessListEntry { pid: 0x4b0, name: string_from("explorer.exe"), arch: string_from("x64"), description: Some(string_from("Windows Explorer")) }.to_json());
    push_item(&mut a, ProcessListEntry { pid: 0x800, name: string_from("target.exe"), arch: string_from("x64"), description: Some(string_from("Debug target")) }.to_json());
    push_item(&mut a, ProcessListEntry { pid: 0xc30, name: string_from("notepad.exe"), arch: string_from("x64"), description: None }.to_json());
    push_item(&mut a, ProcessListEntry { pid: 0x1158, name: string_from("chrome.exe"), arch: string_from("x64"), description: Some(string_from("Google Chrome")) }.to_json());
    push_item(&mut a, ProcessListEntry { pid: 0x1450, name: string_from("windbg.exe"), arch: string_from("x64"), description: Some(string_from("WinDbg debugger")) }.to_json());
    push_item(&mut a, ProcessListEntry { pid: 0x1770, name: string_from("csrss.exe"), arch: string_from("x64"), description: Some(string_from("Client/Server Runtime")) }.to_json());
    proof {
        lemma_array_view(a);
    }
    JsonValue::Array(a)
}

/// The launched path, or a fixed name when nothing was launched.
pub open spec fn path_or(path: Option<Seq<char>>, name: Seq<char>) -> Seq<char> {
    match path {
        Some(p) => p,
        None => name,
    }
}

fn name_or(path: &Option<String>, name: &str) -> (r: String)
    ensures
        r@ == path_or(opt_seq(*path), name@),
{
    match path {
        Some(p) => p.clone(),
        None => string_from(name),
    }
}

pub open spec fn opt_seq(o: Option<String>) -> Option<Seq<char>> {
    match o {
        Some(s) => Some(s@),
        None => None,
    }
}

/// The modules (gdb).
pub open spec fn gdb_modules(path: Option<Seq<char>>) -> Json {
    Json::Array(Seq::empty().push(module_json(path_or(path, "firmware.elf"@), spec_hex_u64(0x10000), 0x40000, path)).push(module_json("libc.a"@, spec_hex_u64(0x60000), 0x8000, Some("/opt/riscv/sysroot/lib/libc.a"@))).push(module_json("rom.bin"@, spec_hex_u64(0x20000000), 0x100000, Some("/flash/rom.bin"@))))
}

fn gdb_modules_value(path: &Option<String>) -> (r: JsonValue)
    ensures
        r@ == gdb_modules(opt_seq(*path)),
{
    let mut a = new_items();
    push_item(&mut a, ModuleInfo { name: name_or(path, "firmware.elf"), base: hex_u64(0x10000), size: 0x40000, path: path.clone() }.to_json());
    push_item(&mut a, ModuleInfo { name: string_from("libc.a"), base: hex_u64(0x60000), size: 0x8000, path: Some(string_from("/opt/riscv/sysroot/lib/libc.a")) }.to_json());
    push_item(&mut a, ModuleInfo { name: string_from("rom.bin"), base: hex_u64(0x20000000), size: 0x100000, path: Some(string_from("/flash/rom.bin")) }.to_json());
    proof {
        lemma_array_view(a);
    }
    JsonValue::Array(a)
}

/// The modules (lldb).
pub open spec fn lldb_modules(path: Option<Seq<char>>) -> Json {
    Json::Array(Seq::empty().push(module_json(path_or(path, "TargetApp"@), spec_hex_u64(0x100000000), 0x100000, Some(path_or(path, "/Applications/TargetApp.app/Contents/MacOS/TargetApp"@)))).push(module_json("libSystem.B.dylib"@, spec_hex_u64(0x1803a0000), 0x3c000, Some("/usr/lib/libSystem.B.dylib"@))).push(module_json("libobjc.A.dylib"@, spec_hex_u64(0x180200000), 0x28000, Some("/usr/lib/libobjc.A.dylib"@))).push(module_json("CoreFoundation"@, spec_hex_u64(0x181a00000), 0x600000, Some("/System/Library/Frameworks/CoreFoundation.framework/CoreFoundation"@))))
}

fn lldb_modules_value(path: &Option<String>) -> (r: JsonValue)
    ensures
        r@ == lldb_modules(opt_seq(*path)),
{
    let mut a = new_items();
    push_item(&mut a, ModuleInfo { name: name_or(path, "TargetApp"), base: hex_u64(0x100000000), size: 0x100000, path: Some(name_or(path, "/Applications/TargetApp.app/Contents/MacOS/TargetApp")) }.to_json());
    push_item(&mut a, ModuleInfo { name: string_from("libSystem.B.dylib"), base: hex_u64(0x1803a0000), size: 0x3c000, path: Some(string_from("/usr/lib/libSystem.B.dylib")) }.to_json());
    push_item(&mut a, ModuleInfo { name: string_from("libobjc.A.dylib"), base: hex_u64(0x180200000), size: 0x28000, path: Some(string_from("/usr/lib/libobjc.A.dylib")) }.to_json());
    push_item(&mut a, ModuleInfo { name: string_from("CoreFoundation"), base: hex_u64(0x181a00000), size: 0x600000, path: Some(string_from("/System/Library/Frameworks/CoreFoundation.framework/CoreFoundation")) }.to_json());
    proof {
        lemma_array_view(a);
    }
    JsonValue::Array(a)
}

/// The modules (dbgeng).
pub open spec fn dbgeng_modules(path: Option<Seq<char>>) -> Json {
    Json::Array(Seq::empty().push(module_json(path_or(path, "target.exe"@), spec_hex_u64(0x140000000), 0x80000, path)).push(module_json("ntdll.dll"@, spec_hex_u64(0x7ff9a0000000), 0x1f0000, Some("C:\\Windows\\System32\\ntdll.dll"@))).push(module_json("kernel32.dll"@, spec_hex_u64(0x7ff8b0000000), 0xf0000, Some("C:\\Windows\\System32\\kernel32.dll"@))).push(module_json("kernelbase.dll"@, spec_hex_u64(0x7ff8a0000000), 0x2a0000, Some("C:\\Windows\\System32\\KernelBase.dll"@))))
}

fn dbgeng_modules_value(path: &Option<String>) -> (r: JsonValue)
    ensures
        r@ == dbgeng_modules(opt_seq(*path)),
{
    let mut a = new_items();
    push_item(&mut a, ModuleInfo { name: name_or(path, "target.exe"), base: hex_u64(0x140000000), size: 0x80000, path: path.clone() }.to_json());
    push_item(&mut a, ModuleInfo { name: string_from("ntdll.dll"), base: hex_u64(0x7ff9a0000000), size: 0x1f0000, path: Some(string_from("C:\\Windows\\System32\\ntdll.dll")) }.to_json());
    push_item(&mut a, ModuleInfo { name: string_from("kernel32.dll"), base: hex_u64(0x7ff8b0000000), size: 0xf0000, path: Some(string_from("C:\\Windows\\System32\\kernel32.dll")) }.to_json());
    push_item(&mut a, ModuleInfo { name: string_from("kernelbase.dll"), base: hex_u64(0x7ff8a0000000), size: 0x2a0000, path: Some(string_from("C:\\Windows\\System32\\KernelBase.dll")) }.to_json());
    proof {
        lemma_array_view(a);
    }
    JsonValue::Array(a)
}

/// The register file by name (gdb).
pub open spec fn gdb_registers(pc: u64, sp: u64) -> Seq<(Seq<char>, Seq<char>)> {
    Seq::empty().push(("a0"@, spec_hex_u64(0x0))).push(("a1"@, spec_hex_u64(0x1))).push(("a2"@, spec_hex_u64(0x2))).push(("a3"@, spec_hex_u64(0x3))).push(("a4"@, spec_hex_u64(0x4))).push(("a5"@, spec_hex_u64(0x5))).push(("a6"@, spec_hex_u64(0x6))).push(("a7"@, spec_hex_u64(0x7))).push(("gp"@, spec_hex_u64(0x68000))).push(("pc"@, spec_hex_u64(pc))).push(("ra"@, spec_hex_u64(0x10480))).push(("s0"@, spec_hex_u64(sp.wrapping_add(0x10)))).push(("s1"@, spec_hex_u64(0x1))).push(("s10"@, spec_hex_u64(0x0))).push(("s11"@, spec_hex_u64(0x0))).push(("s2"@, spec_hex_u64(0x0))).push(("s3"@, spec_hex_u64(0x0))).push(("s4"@, spec_hex_u64(0x0))).push(("s5"@, spec_hex_u64(0x0))).push(("s6"@, spec_hex_u64(0x0))).push(("s7"@, spec_hex_u64(0x0))).push(("s8"@, spec_hex_u64(0x0))).push(("s9"@, spec_hex_u64(0x0))).push(("sp"@, spec_hex_u64(sp))).push(("t0"@, spec_hex_u64(0x0))).push(("t1"@, spec_hex_u64(0x0))).push(("t2"@, spec_hex_u64(0x0))).push(("t3"@, spec_hex_u64(0x0))).push(("t4"@, spec_hex_u64(0x0))).push(("t5"@, spec_hex_u64(0x0))).push(("t6"@, spec_hex_u64(0x0))).push(("tp"@, spec_hex_u64(0x0)))
}

fn gdb_registers_value(pc: u64, sp: u64) -> (r: Vec<(String, String)>)
    ensures
        regs_view(r@) == gdb_registers(pc, sp),
{
    let mut r = new_regs();
    push_reg(&mut r, "a0", hex_u64(0x0));
    push_reg(&mut r, "a1", hex_u64(0x1));
    push_reg(&mut r, "a2", hex_u64(0x2));
    push_reg(&mut r, "a3", hex_u64(0x3));
    push_reg(&mut r, "a4", hex_u64(0x4));
    push_reg(&mut r, "a5", hex_u64(0x5));
    push_reg(&mut r, "a6", hex_u64(0x6));
    push_reg(&mut r, "a7", hex_u64(0x7));
    push_reg(&mut r, "gp", hex_u64(0x68000));
    push_reg(&mut r, "pc", hex_u64(pc));
    push_reg(&mut r, "ra", hex_u64(0x10480));
    push_reg(&mut r, "s0", hex_u64(sp.wrapping_add(0x10)));
    push_reg(&mut r, "s1", hex_u64(0x1));
    push_reg(&mut r, "s10", hex_u64(0x0));
    push_reg(&mut r, "s11", hex_u64(0x0));
    push_reg(&mut r, "s2", hex_u64(0x0));
    push_reg(&mut r, "s3", hex_u64(0x0));
    push_reg(&mut r, "s4", hex_u64(0x0));
    push_reg(&mut r, "s5", hex_u64(0x0));
    push_reg(&mut r, "s6", hex_u64(0x0));
    push_reg(&mut r, "s7", hex_u64(0x0));
    push_reg(&mut r, "s8", hex_u64(0x0));
    push_reg(&mut r, "s9", hex_u64(0x0));
    push_reg(&mut r, "sp", hex_u64(sp));
    push_reg(&mut r, "t0", hex_u64(0x0));
    push_reg(&mut r, "t1", hex_u64(0x0));
    push_reg(&mut r, "t2", hex_u64(0x0));
    push_reg(&mut r, "t3", hex_u64(0x0));
    push_reg(&mut r, "t4", hex_u64(0x0));
    push_reg(&mut r, "t5", hex_u64(0x0));
    push_reg(&mut r, "t6", hex_u64(0x0));
    push_reg(&mut r, "tp", hex_u64(0x0));
    r
}

/// The register file by name (lldb).
pub open spec fn lldb_registers(pc: u64, sp: u64) -> Seq<(Seq<char>, Seq<char>)> {
    Seq::empty().push(("cpsr"@, spec_hex_u64(0x60000000))).push(("pc"@, spec_hex_u64(pc))).push(("sp"@, spec_hex_u64(sp))).push(("x0"@, spec_hex_u64(0x0))).push(("x1"@, spec_hex_u64(0x100004567))).push(("x10"@, spec_hex_u64(0x0))).push(("x11"@, spec_hex_u64(0x0))).push(("x12"@, spec_hex_u64(0x0))).push(("x13"@, spec_hex_u64(0x0))).push(("x14"@, spec_hex_u64(0x0))).push(("x15"@, spec_hex_u64(0x0))).push(("x16"@, spec_hex_u64(0x180012345))).push(("x17"@, spec_hex_u64(0x180012346))).push(("x18"@, spec_hex_u64(0x0))).push(("x19"@, spec_hex_u64(0x1))).push(("x2"@, spec_hex_u64(0x2))).push(("x20"@, spec_hex_u64(0x100004000))).push(("x21"@, spec_hex_u64(0x0))).push(("x22"@, spec_hex_u64(0x0))).push(("x23"@, spec_hex_u64(0x0))).push(("x24"@, spec_hex_u64(0x0))).push(("x25"@, spec_hex_u64(0x0))).push(("x26"@, spec_hex_u64(0x0))).push(("x27"@, spec_hex_u64(0x0))).push(("x28"@, spec_hex_u64(0x0))).push(("x29"@, spec_hex_u64(0x16fdff100))).push(("x3"@, spec_hex_u64(0x3))).push(("x30"@, spec_hex_u64(0x100005678))).push(("x4"@, spec_hex_u64(0x4))).push(("x5"@, spec_hex_u64(0x5))).push(("x6"@, spec_hex_u64(0x6))).push(("x7"@, spec_hex_u64(0x7))).push(("x8"@, spec_hex_u64(0x100008000))).push(("x9"@, spec_hex_u64(0x0)))
}

fn lldb_registers_value(pc: u64, sp: u64) -> (r: Vec<(String, String)>)
    ensures
        regs_view(r@) == lldb_registers(pc, sp),
{
    let mut r = new_regs();
    push_reg(&mut r, "cpsr", hex_u64(0x60000000));
    push_reg(&mut r, "pc", hex_u64(pc));
    push_reg(&mut r, "sp", hex_u64(sp));
    push_reg(&mut r, "x0", hex_u64(0x0));
    push_reg(&mut r, "x1", hex_u64(0x100004567));
    push_reg(&mut r, "x10", hex_u64(0x0));
    push_reg(&mut r, "x11", hex_u64(0x0));
    push_reg(&mut r, "x12", hex_u64(0x0));
    push_reg(&mut r, "x13", hex_u64(0x0));
    push_reg(&mut r, "x14", hex_u64(0x0));
    push_reg(&mut r, "x15", hex_u64(0x0));
    push_reg(&mut r, "x16", hex_u64(0x180012345));
    push_reg(&mut r, "x17", hex_u64(0x180012346));
    push_reg(&mut r, "x18", hex_u64(0x0));
    push_reg(&mut r, "x19", hex_u64(0x1));
    push_reg(&mut r, "x2", hex_u64(0x2));
    push_reg(&mut r, "x20", hex_u64(0x100004000));
    push_reg(&mut r, "x21", hex_u64(0x0));
    push_reg(&mut r, "x22", hex_u64(0x0));
    push_reg(&mut r, "x23", hex_u64(0x0));
    push_reg(&mut r, "x24", hex_u64(0x0));
    push_reg(&mut r, "x25", hex_u64(0x0));
    push_reg(&mut r, "x26", hex_u64(0x0));
    push_reg(&mut r, "x27", hex_u64(0x0));
    push_reg(&mut r, "x28", hex_u64(0x0));
    push_reg(&mut r, "x29", hex_u64(0x16fdff100));
    push_reg(&mut r, "x3", hex_u64(0x3));
    push_reg(&mut r, "x30", hex_u64(0x100005678));
    push_reg(&mut r, "x4", hex_u64(0x4));
    push_reg(&mut r, "x5", hex_u64(0x5));
    push_reg(&mut r, "x6", hex_u64(0x6));
    push_reg(&mut r, "x7", hex_u64(0x7));
    push_reg(&mut r, "x8", hex_u64(0x100008000));
    push_reg(&mut r, "x9", hex_u64(0x0));
    r
}

/// The register file by name (dbgeng).
pub open spec fn dbgeng_registers(pc: u64, sp: u64) -> Seq<(Seq<char>, Seq<char>)> {
    Seq::empty().push(("cs"@, spec_hex_u64(0x33))).push(("ds"@, spec_hex_u64(0x2b))).push(("eflags"@, spec_hex_u64(0x246))).push(("es"@, spec_hex_u64(0x2b))).push(("fs"@, spec_hex_u64(0x53))).push(("gs"@, spec_hex_u64(0x2b))).push(("r10"@, spec_hex_u64(0xa))).push(("r11"@, spec_hex_u64(0xb))).push(("r12"@, spec_hex_u64(0xc))).push(("r13"@, spec_hex_u64(0xd))).push(("r14"@, spec_hex_u64(0xe))).push(("r15"@, spec_hex_u64(0xf))).push(("r8"@, spec_hex_u64(0x8))).push(("r9"@, spec_hex_u64(0x9))).push(("rax"@, spec_hex_u64(0x0))).push(("rbp"@, spec_hex_u64(sp.wrapping_add(0x40)))).push(("rbx"@, spec_hex_u64(0x12f8a0))).push(("rcx"@, spec_hex_u64(0x140001234))).push(("rdi"@, spec_hex_u64(0xb))).push(("rdx"@, spec_hex_u64(0x1))).push(("rip"@, spec_hex_u64(pc))).push(("rsi"@, spec_hex_u64(0xa))).push(("rsp"@, spec_hex_u64(sp))).push(("ss"@, spec_hex_u64(0x2b)))
}

fn dbgeng_registers_value(pc: u64, sp: u64) -> (r: Vec<(String, String)>)
    ensures
        regs_view(r@) == dbgeng_registers(pc, sp),
{
    let mut r = new_regs();
    push_reg(&mut r, "cs", hex_u64(0x33));
    push_reg(&mut r, "ds", hex_u64(0x2b));
    push_reg(&mut r, "eflags", hex_u64(0x246));
    push_reg(&mut r, "es", hex_u64(0x2b));
    push_reg(&mut r, "fs", hex_u64(0x53));
    push_reg(&mut r, "gs", hex_u64(0x2b));
    push_reg(&mut r, "r10", hex_u64(0xa));
    push_reg(&mut r, "r11", hex_u64(0xb));
    push_reg(&mut r, "r12", hex_u64(0xc));
    push_reg(&mut r, "r13", hex_u64(0xd));
    push_reg(&mut r, "r14", hex_u64(0xe));
    push_reg(&mut r, "r15", hex_u64(0xf));
    push_reg(&mut r, "r8", hex_u64(0x8));
    push_reg(&mut r, "r9", hex_u64(0x9));
    push_reg(&mut r, "rax", hex_u64(0x0));
    push_reg(&mut r, "rbp", hex_u64(sp.wrapping_add(0x40)));
    push_reg(&mut r, "rbx", hex_u64(0x12f8a0));
    push_reg(&mut r, "rcx", hex_u64(0x140001234));
    push_reg(&mut r, "rdi", hex_u64(0xb));
    push_reg(&mut r, "rdx", hex_u64(0x1));
    push_reg(&mut r, "rip", hex_u64(pc));
    push_reg(&mut r, "rsi", hex_u64(0xa));
    push_reg(&mut r, "rsp", hex_u64(sp));
    push_reg(&mut r, "ss", hex_u64(0x2b));
    r
}

/// The simulated RISC-V 64 instructions: for each index, the instruction bytes as hexadecimal text and its text.
pub open spec fn riscv_insn(i: int) -> (Seq<char>, Seq<char>) {
    if i == 0 {
        ("13000000"@, "addi zero, zero, 0"@)
    } else if i == 1 {
        ("93080500"@, "addi a7, zero, 0x5"@)
    } else if i == 2 {
        ("13050000"@, "addi a0, zero, 0"@)
    } else if i == 3 {
        ("93052000"@, "addi a1, zero, 0x20"@)
    } else if i == 4 {
        ("73000000"@, "ecall"@)
    } else if i == 5 {
        ("6f000000"@, "jal zero, 0"@)
    } else if i == 6 {
        ("67800000"@, "jalr zero, ra, 0"@)
    } else if i == 7 {
        ("23200100"@, "sw ra, 0(sp)"@)
    } else if i == 8 {
        ("03200100"@, "lw ra, 0(sp)"@)
    } else if i == 9 {
        ("93f2f2ff"@, "andi t0, t0, -1"@)
    } else if i == 10 {
        ("33004000"@, "add zero, zero, zero"@)
    } else {
        ("13010100"@, "addi sp, sp, -16"@)
    }
}

fn riscv_insn_value(i: u64) -> (r: (&'static str, &'static str))
    requires
        i < 12,
    ensures
        (r.0@, r.1@) == riscv_insn(i as int),
{
    if i == 0 {
        ("13000000", "addi zero, zero, 0")
    } else if i == 1 {
        ("93080500", "addi a7, zero, 0x5")
    } else if i == 2 {
        ("13050000", "addi a0, zero, 0")
    } else if i == 3 {
        ("93052000", "addi a1, zero, 0x20")
    } else if i == 4 {
        ("73000000", "ecall")
    } else if i == 5 {
        ("6f000000", "jal zero, 0")
    } else if i == 6 {
        ("67800000", "jalr zero, ra, 0")
    } else if i == 7 {
        ("23200100", "sw ra, 0(sp)")
    } else if i == 8 {
        ("03200100", "lw ra, 0(sp)")
    } else if i == 9 {
        ("93f2f2ff", "andi t0, t0, -1")
    } else if i == 10 {
        ("33004000", "add zero, zero, zero")
    } else {
        ("13010100", "addi sp, sp, -16")
    }
}

/// The simulated ARM64 instructions: for each index, the instruction bytes as hexadecimal text and its text.
pub open spec fn arm64_insn(i: int) -> (Seq<char>, Seq<char>) {
    if i == 0 {
        ("ffd3419b"@, "mul x31, x31, x1"@)
    } else if i == 1 {
        ("ffc3bea9"@, "stp x28, x30, [sp, #-0x20]!"@)
    } else if i == 2 {
        ("fd7b01a9"@, "stp x29, x30, [sp, #0x10]"@)
    } else if i == 3 {
        ("fd430091"@, "add x29, sp, #0x10"@)
    } else if i == 4 {
        ("e80340f9"@, "ldr x8, [sp]"@)
    } else if i == 5 {
        ("28011ff8"@, "stur x8, [x9, #-0x10]"@)
    } else if i == 6 {
        ("09008052"@, "movz w9, #0"@)
    } else if i == 7 {
        ("e8030091"@, "mov x8, sp"@)
    } else if i == 8 {
        ("00008052"@, "movz w0, #0"@)
    } else if i == 9 {
        ("c0035fd6"@, "ret"@)
    } else if i == 10 {
        ("1f2003d5"@, "nop"@)
    } else {
        ("e0030091"@, "mov x0, sp"@)
    }
}

fn arm64_insn_value(i: u64) -> (r: (&'static str, &'static str))
    requires
        i < 12,
    ensures
        (r.0@, r.1@) == arm64_insn(i as int),
{
    if i == 0 {
        ("ffd3419b", "mul x31, x31, x1")
    } else if i == 1 {
        ("ffc3bea9", "stp x28, x30, [sp, #-0x20]!")
    } else if i == 2 {
        ("fd7b01a9", "stp x29, x30, [sp, #0x10]")
    } else if i == 3 {
        ("fd430091", "add x29, sp, #0x10")
    } else if i == 4 {
        ("e80340f9", "ldr x8, [sp]")
    } else if i == 5 {
        ("28011ff8", "stur x8, [x9, #-0x10]")
    } else if i == 6 {
        ("09008052", "movz w9, #0")
    } else if i == 7 {
        ("e8030091", "mov x8, sp")
    } else if i == 8 {
        ("00008052", "movz w0, #0")
    } else if i == 9 {
        ("c0035fd6", "ret")
    } else if i == 10 {
        ("1f2003d5", "nop")
    } else {
        ("e0030091", "mov x0, sp")
    }
}

/// The simulated x64 instructions (bytes without the spaces between them): for each index, the instruction bytes as hexadecimal text, its length in bytes and its text.
pub open spec fn x64_insn(i: int) -> (Seq<char>, u64, Seq<char>) {
    if i == 0 {
        ("4889542410"@, 5, "mov     qword ptr [rsp+10h], rdx"@)
    } else if i == 1 {
        ("48894c2408"@, 5, "mov     qword ptr [rsp+08h], rcx"@)
    } else if i == 2 {
        ("4883ec38"@, 4, "sub     rsp, 38h"@)
    } else if i == 3 {
        ("488b442440"@, 5, "mov     rax, qword ptr [rsp+40h]"@)
    } else if i == 4 {
        ("4885c0"@, 3, "test    rax, rax"@)
    } else if i == 5 {
        ("740a"@, 2, "je      +0Ah"@)
    } else if i == 6 {
        ("488bc8"@, 3, "mov     rcx, rax"@)
    } else if i == 7 {
        ("ff1500000000"@, 6, "call    qword ptr [rip+0]"@)
    } else if i == 8 {
        ("4883c438"@, 4, "add     rsp, 38h"@)
    } else if i == 9 {
        ("c3"@, 1, "ret"@)
    } else if i == 10 {
        ("cc"@, 1, "int     3"@)
    } else if i == 11 {
        ("90"@, 1, "nop"@)
    } else if i == 12 {
        ("488d1500000000"@, 7, "lea     rdx, [rip+0]"@)
    } else if i == 13 {
        ("488b0500000000"@, 7, "mov     rax, qword ptr [rip+0]"@)
    } else if i == 14 {
        ("ffd0"@, 2, "call    rax"@)
    } else {
        ("33c0"@, 2, "xor     eax, eax"@)
    }
}

fn x64_insn_value(i: u64) -> (r: (&'static str, u64, &'static str))
    requires
        i < 16,
    ensures
        (r.0@, r.1, r.2@) == x64_insn(i as int),
{
    if i == 0 {
        ("4889542410", 5, "mov     qword ptr [rsp+10h], rdx")
    } else if i == 1 {
        ("48894c2408", 5, "mov     qword ptr [rsp+08h], rcx")
    } else if i == 2 {
        ("4883ec38", 4, "sub     rsp, 38h")
    } else if i == 3 {
        ("488b442440", 5, "mov     rax, qword ptr [rsp+40h]")
    } else if i == 4 {
        ("4885c0", 3, "test    rax, rax")
    } else if i == 5 {
        ("740a", 2, "je      +0Ah")
    } else if i == 6 {
        ("488bc8", 3, "mov     rcx, rax")
    } else if i == 7 {
        ("ff1500000000", 6, "call    qword ptr [rip+0]")
    } else if i == 8 {
        ("4883c438", 4, "add     rsp, 38h")
    } else if i == 9 {
        ("c3", 1, "ret")
    } else if i == 10 {
        ("cc", 1, "int     3")
    } else if i == 11 {
        ("90", 1, "nop")
    } else if i == 12 {
        ("488d1500000000", 7, "lea     rdx, [rip+0]")
    } else if i == 13 {
        ("488b0500000000", 7, "mov     rax, qword ptr [rip+0]")
    } else if i == 14 {
        ("ffd0", 2, "call    rax")
    } else {
        ("33c0", 2, "xor     eax, eax")
    }
}

/// The address of a known symbol (gdb), by module and symbol name in lower case
/// with the module's file suffix removed.
pub open spec fn gdb_symbol(m: Seq<char>, s: Seq<char>) -> Option<u64> {
    if (m == ""@ || m == "firmware"@) && (s == "_start"@) {
        Some(0x10000)
    } else if (m == ""@ || m == "firmware"@) && (s == "main"@) {
        Some(0x10100)
    } else if (m == ""@ || m == "firmware"@) && (s == "uart_write"@) {
        Some(0x10500)
    } else if (m == ""@ || m == "firmware"@) && (s == "uart_read"@) {
        Some(0x10600)
    } else if (m == ""@ || m == "firmware"@) && (s == "irq_handler"@) {
        Some(0x11000)
    } else if (m == ""@ || m == "firmware"@) && (s == "memset"@) {
        Some(0x12000)
    } else if (m == ""@ || m == "firmware"@) && (s == "malloc"@) {
        Some(0x13000)
    } else {
        None
    }
}

fn gdb_symbol_value(m: &Vec<char>, s: &Vec<char>) -> (r: Option<u64>)
    ensures
        r == gdb_symbol(m@, s@),
{
    if (chars_is(m, "") || chars_is(m, "firmware")) && (chars_is(s, "_start")) {
        Some(0x10000)
    } else if (chars_is(m, "") || chars_is(m, "firmware")) && (chars_is(s, "main")) {
        Some(0x10100)
    } else if (chars_is(m, "") || chars_is(m, "firmware")) && (chars_is(s, "uart_write")) {
        Some(0x10500)
    } else if (chars_is(m, "") || chars_is(m, "firmware")) && (chars_is(s, "uart_read")) {
        Some(0x10600)
    } else if (chars_is(m, "") || chars_is(m, "firmware")) && (chars_is(s, "irq_handler")) {
        Some(0x11000)
    } else if (chars_is(m, "") || chars_is(m, "firmware")) && (chars_is(s, "memset")) {
        Some(0x12000)
    } else if (chars_is(m, "") || chars_is(m, "firmware")) && (chars_is(s, "malloc")) {
        Some(0x13000)
    } else {
        None
    }
}

/// The address of a known symbol (lldb), by module and symbol name in lower case
/// with the module's file suffix removed.
pub open spec fn lldb_symbol(m: Seq<char>, s: Seq<char>) -> Option<u64> {
    if (m == "libobjc"@ || m == "libobjc.a"@) && (s == "objc_msgsend"@) {
        Some(0x180121000)
    } else if (m == "libobjc"@ || m == "libobjc.a"@) && (s == "objc_retain"@) {
        Some(0x180122000)
    } else if (m == "libobjc"@ || m == "libobjc.a"@) && (s == "objc_release"@) {
        Some(0x180122100)
    } else if (m == "libsystem"@ || m == "libsystem.b"@) && (s == "malloc"@) {
        Some(0x180053000)
    } else if (m == "libsystem"@ || m == "libsystem.b"@) && (s == "free"@) {
        Some(0x180053200)
    } else if (m == "libsystem"@ || m == "libsystem.b"@) && (s == "memcpy"@) {
        Some(0x180053400)
    } else if (m == "foundation"@) && (s == "nslog"@) {
        Some(0x195201000)
    } else if (m == "uikit"@) && (s == "uiapplicationmain"@) {
        Some(0x190101500)
    } else if (m == "libsystem"@ || m == "libsystem.b"@) && (s == "dispatch_async"@) {
        Some(0x180054000)
    } else {
        None
    }
}

fn lldb_symbol_value(m: &Vec<char>, s: &Vec<char>) -> (r: Option<u64>)
    ensures
        r == lldb_symbol(m@, s@),
{
    if (chars_is(m, "libobjc") || chars_is(m, "libobjc.a")) && (chars_is(s, "objc_msgsend")) {
        Some(0x180121000)
    } else if (chars_is(m, "libobjc") || chars_is(m, "libobjc.a")) && (chars_is(s, "objc_retain")) {
        Some(0x180122000)
    } else if (chars_is(m, "libobjc") || chars_is(m, "libobjc.a")) && (chars_is(s, "objc_release")) {
        Some(0x180122100)
    } else if (chars_is(m, "libsystem") || chars_is(m, "libsystem.b")) && (chars_is(s, "malloc")) {
        Some(0x180053000)
    } else if (chars_is(m, "libsystem") || chars_is(m, "libsystem.b")) && (chars_is(s, "free")) {
        Some(0x180053200)
    } else if (chars_is(m, "libsystem") || chars_is(m, "libsystem.b")) && (chars_is(s, "memcpy")) {
        Some(0x180053400)
    } else if (chars_is(m, "foundation")) && (chars_is(s, "nslog")) {
        Some(0x195201000)
    } else if (chars_is(m, "uikit")) && (chars_is(s, "uiapplicationmain")) {
        Some(0x190101500)
    } else if (chars_is(m, "libsystem") || chars_is(m, "libsystem.b")) && (chars_is(s, "dispatch_async")) {
        Some(0x180054000)
    } else {
        None
    }
}

/// The address of a known symbol (dbgeng), by module and symbol name in lower case
/// with the module's file suffix removed.
pub open spec fn dbgeng_symbol(m: Seq<char>, s: Seq<char>) -> Option<u64> {
    if (m == ""@ || m == "kernel32"@) && (s == "writefile"@) {
        Some(0x7ff8b0001234)
    } else if (m == ""@ || m == "kernel32"@) && (s == "readfile"@) {
        Some(0x7ff8b0002345)
    } else if (m == ""@ || m == "kernel32"@) && (s == "createfilea"@ || s == "createfile"@) {
        Some(0x7ff8b0003456)
    } else if (m == ""@ || m == "kernel32"@) && (s == "createfilew"@) {
        Some(0x7ff8b0003460)
    } else if (m == ""@ || m == "kernel32"@) && (s == "virtualalloc"@) {
        Some(0x7ff8b0004567)
    } else if (m == ""@ || m == "kernel32"@) && (s == "virtualfree"@) {
        Some(0x7ff8b0004590)
    } else if (m == ""@ || m == "kernel32"@) && (s == "virtualprotect"@) {
        Some(0x7ff8b00045c0)
    } else if (m == ""@ || m == "kernel32"@) && (s == "getprocaddress"@) {
        Some(0x7ff8b0005678)
    } else if (m == ""@ || m == "kernel32"@) && (s == "loadlibrarya"@ || s == "loadlibrary"@) {
        Some(0x7ff8b0006789)
    } else if (m == ""@ || m == "kernel32"@) && (s == "loadlibraryw"@) {
        Some(0x7ff8b0006800)
    } else if (m == ""@ || m == "kernel32"@) && (s == "freelibrary"@) {
        Some(0x7ff8b0006900)
    } else if (m == ""@ || m == "kernel32"@) && (s == "createthread"@) {
        Some(0x7ff8b0007890)
    } else if (m == ""@ || m == "kernel32"@) && (s == "terminateprocess"@) {
        Some(0x7ff8b0008901)
    } else if (m == ""@ || m == "kernel32"@) && (s == "getlasterror"@) {
        Some(0x7ff8b0009012)
    } else if (m == ""@ || m == "kernel32"@) && (s == "setlasterror"@) {
        Some(0x7ff8b0009020)
    } else if (m == ""@ || m == "kernel32"@) && (s == "heapalloc"@) {
        Some(0x7ff8b000a123)
    } else if (m == ""@ || m == "kernel32"@) && (s == "heapfree"@) {
        Some(0x7ff8b000a200)
    } else if (m == ""@ || m == "kernel32"@) && (s == "sleep"@) {
        Some(0x7ff8b000b000)
    } else if (m == ""@ || m == "kernel32"@) && (s == "exitprocess"@) {
        Some(0x7ff8b000b100)
    } else if (m == ""@ || m == "ntdll"@) && (s == "ntcreatefile"@) {
        Some(0x7ff9a0001100)
    } else if (m == ""@ || m == "ntdll"@) && (s == "ntreadfile"@) {
        Some(0x7ff9a0001200)
    } else if (m == ""@ || m == "ntdll"@) && (s == "ntwritefile"@) {
        Some(0x7ff9a0001300)
    } else if (m == ""@ || m == "ntdll"@) && (s == "ntallocatevirtualmemory"@) {
        Some(0x7ff9a0001400)
    } else if (m == ""@ || m == "ntdll"@) && (s == "ntfreevirtualmemory"@) {
        Some(0x7ff9a0001500)
    } else if (m == ""@ || m == "ntdll"@) && (s == "ntprotectvirtualmemory"@) {
        Some(0x7ff9a0001600)
    } else if (m == ""@ || m == "ntdll"@) && (s == "ldrloaddll"@) {
        Some(0x7ff9a0002000)
    } else if (m == ""@ || m == "ntdll"@) && (s == "rtlallocateheap"@) {
        Some(0x7ff9a0003000)
    } else if (m == ""@ || m == "ntdll"@) && (s == "rtlfreeheap"@) {
        Some(0x7ff9a0003100)
    } else if (m == ""@ || m == "ntdll"@) && (s == "rtlgetversion"@) {
        Some(0x7ff9a0004000)
    } else if (m == ""@ || m == "user32"@) && (s == "messageboxa"@ || s == "messagebox"@) {
        Some(0x7ff8c0001000)
    } else if (m == ""@ || m == "user32"@) && (s == "messageboxw"@) {
        Some(0x7ff8c0001010)
    } else if (m == ""@ || m == "user32"@) && (s == "sendmessagea"@ || s == "sendmessage"@) {
        Some(0x7ff8c0002000)
    } else if (m == ""@ || m == "user32"@) && (s == "postmessagea"@ || s == "postmessage"@) {
        Some(0x7ff8c0002100)
    } else if (m == ""@ || m == "user32"@) && (s == "findwindowa"@ || s == "findwindow"@) {
        Some(0x7ff8c0003000)
    } else if (m == "target"@ || m == "target.exe"@) && (s == "winmain"@) {
        Some(0x140001000)
    } else if (m == "target"@ || m == "target.exe"@) && (s == "main"@) {
        Some(0x140001100)
    } else if (m == "target"@ || m == "target.exe"@) && (s == "dllmain"@) {
        Some(0x140001200)
    } else {
        None
    }
}

fn dbgeng_symbol_value(m: &Vec<char>, s: &Vec<char>) -> (r: Option<u64>)
    ensures
        r == dbgeng_symbol(m@, s@),
{
    if (chars_is(m, "") || chars_is(m, "kernel32")) && (chars_is(s, "writefile")) {
        Some(0x7ff8b0001234)
    } else if (chars_is(m, "") || chars_is(m, "kernel32")) && (chars_is(s, "readfile")) {
        Some(0x7ff8b0002345)
    } else if (chars_is(m, "") || chars_is(m, "kernel32")) && (chars_is(s, "createfilea") || chars_is(s, "createfile")) {
        Some(0x7ff8b0003456)
    } else if (chars_is(m, "") || chars_is(m, "kernel32")) && (chars_is(s, "createfilew")) {
        Some(0x7ff8b0003460)
    } else if (chars_is(m, "") || chars_is(m, "kernel32")) && (chars_is(s, "virtualalloc")) {
        Some(0x7ff8b0004567)
    } else if (chars_is(m, "") || chars_is(m, "kernel32")) && (chars_is(s, "virtualfree")) {
        Some(0x7ff8b0004590)
    } else if (chars_is(m, "") || chars_is(m, "kernel32")) && (chars_is(s, "virtualprotect")) {
        Some(0x7ff8b00045c0)
    } else if (chars_is(m, "") || chars_is(m, "kernel32")) && (chars_is(s, "getprocaddress")) {
        Some(0x7ff8b0005678)
    } else if (chars_is(m, "") || chars_is(m, "kernel32")) && (chars_is(s, "loadlibrarya") || chars_is(s, "loadlibrary")) {
        Some(0x7ff8b0006789)
    } else if (chars_is(m, "") || chars_is(m, "kernel32")) && (chars_is(s, "loadlibraryw")) {
        Some(0x7ff8b0006800)
    } else if (chars_is(m, "") || chars_is(m, "kernel32")) && (chars_is(s, "freelibrary")) {
        Some(0x7ff8b0006900)
    } else if (chars_is(m, "") || chars_is(m, "kernel32")) && (chars_is(s, "createthread")) {
        Some(0x7ff8b0007890)
    } else if (chars_is(m, "") || chars_is(m, "kernel32")) && (chars_is(s, "terminateprocess")) {
        Some(0x7ff8b0008901)
    } else if (chars_is(m, "") || chars_is(m, "kernel32")) && (chars_is(s, "getlasterror")) {
        Some(0x7ff8b0009012)
    } else if (chars_is(m, "") || chars_is(m, "kernel32")) && (chars_is(s, "setlasterror")) {
        Some(0x7ff8b0009020)
    } else if (chars_is(m, "") || chars_is(m, "kernel32")) && (chars_is(s, "heapalloc")) {
        Some(0x7ff8b000a123)
    } else if (chars_is(m, "") || chars_is(m, "kernel32")) && (chars_is(s, "heapfree")) {
        Some(0x7ff8b000a200)
    } else if (chars_is(m, "") || chars_is(m, "kernel32")) && (chars_is(s, "sleep")) {
        Some(0x7ff8b000b000)
    } else if (chars_is(m, "") || chars_is(m, "kernel32")) && (chars_is(s, "exitprocess")) {
        Some(0x7ff8b000b100)
    } else if (chars_is(m, "") || chars_is(m, "ntdll")) && (chars_is(s, "ntcreatefile")) {
        Some(0x7ff9a0001100)
    } else if (chars_is(m, "") || chars_is(m, "ntdll")) && (chars_is(s, "ntreadfile")) {
        Some(0x7ff9a0001200)
    } else if (chars_is(m, "") || chars_is(m, "ntdll")) && (chars_is(s, "ntwritefile")) {
        Some(0x7ff9a0001300)
    } else if (chars_is(m, "") || chars_is(m, "ntdll")) && (chars_is(s, "ntallocatevirtualmemory")) {
        Some(0x7ff9a0001400)
    } else if (chars_is(m, "") || chars_is(m, "ntdll")) && (chars_is(s, "ntfreevirtualmemory")) {
        Some(0x7ff9a0001500)
    } else if (chars_is(m, "") || chars_is(m, "ntdll")) && (chars_is(s, "ntprotectvirtualmemory")) {
        Some(0x7ff9a0001600)
    } else if (chars_is(m, "") || chars_is(m, "ntdll")) && (chars_is(s, "ldrloaddll")) {
        Some(0x7ff9a0002000)
    } else if (chars_is(m, "") || chars_is(m, "ntdll")) && (chars_is(s, "rtlallocateheap")) {
        Some(0x7ff9a0003000)
    } else if (chars_is(m, "") || chars_is(m, "ntdll")) && (chars_is(s, "rtlfreeheap")) {
        Some(0x7ff9a0003100)
    } else if (chars_is(m, "") || chars_is(m, "ntdll")) && (chars_is(s, "rtlgetversion")) {
        Some(0x7ff9a0004000)
    } else if (chars_is(m, "") || chars_is(m, "user32")) && (chars_is(s, "messageboxa") || chars_is(s, "messagebox")) {
        Some(0x7ff8c0001000)
    } else if (chars_is(m, "") || chars_is(m, "user32")) && (chars_is(s, "messageboxw")) {
        Some(0x7ff8c0001010)
    } else if (chars_is(m, "") || chars_is(m, "user32")) && (chars_is(s, "sendmessagea") || chars_is(s, "sendmessage")) {
        Some(0x7ff8c0002000)
    } else if (chars_is(m, "") || chars_is(m, "user32")) && (chars_is(s, "postmessagea") || chars_is(s, "postmessage")) {
        Some(0x7ff8c0002100)
    } else if (chars_is(m, "") || chars_is(m, "user32")) && (chars_is(s, "findwindowa") || chars_is(s, "findwindow")) {
        Some(0x7ff8c0003000)
    } else if (chars_is(m, "target") || chars_is(m, "target.exe")) && (chars_is(s, "winmain")) {
        Some(0x140001000)
    } else if (chars_is(m, "target") || chars_is(m, "target.exe")) && (chars_is(s, "main")) {
        Some(0x140001100)
    } else if (chars_is(m, "target") || chars_is(m, "target.exe")) && (chars_is(s, "dllmain")) {
        Some(0x140001200)
    } else {
        None
    }
}

/// The threads that a backend reports.
pub open spec fn threads_json(p: MockProfile, pc: u64) -> Json {
    match p {
        MockProfile::GdbRemote => gdb_threads(pc),
        MockProfile::Lldb => lldb_threads(pc),
        MockProfile::DbgEng => dbgeng_threads(pc),
    }
}

pub fn threads_value(p: MockProfile, pc: u64) -> (r: JsonValue)
    ensures
        r@ == threads_json(p, pc),
{
    match p {
        MockProfile::GdbRemote => gdb_threads_value(pc),
        MockProfile::Lldb => lldb_threads_value(pc),
        MockProfile::DbgEng => dbgeng_threads_value(pc),
    }
}

/// The call stack that a backend reports.
pub open spec fn callstack_json(p: MockProfile, pc: u64) -> Json {
    match p {
        MockProfile::GdbRemote => gdb_callstack(pc),
        MockProfile::Lldb => lldb_callstack(pc),
        MockProfile::DbgEng => dbgeng_callstack(pc),
    }
}

pub fn callstack_value(p: MockProfile, pc: u64) -> (r: JsonValue)
    ensures
        r@ == callstack_json(p, pc),
{
    match p {
        MockProfile::GdbRemote => gdb_callstack_value(pc),
        MockProfile::Lldb => lldb_callstack_value(pc),
        MockProfile::DbgEng => dbgeng_callstack_value(pc),
    }
}

/// The process list that a backend reports; the GDB stub reports its target
/// architecture for the processes of the target.
pub open spec fn processes_json(p: MockProfile, arch: Seq<char>) -> Json {
    match p {
        MockProfile::GdbRemote => gdb_processes(arch),
        MockProfile::Lldb => lldb_processes(),
        MockProfile::DbgEng => dbgeng_processes(),
    }
}

pub fn processes_value(p: MockProfile, arch: &String) -> (r: JsonValue)
    ensures
        r@ == processes_json(p, arch@),
{
    match p {
        MockProfile::GdbRemote => gdb_processes_value(arch),
        MockProfile::Lldb => lldb_processes_value(),
        MockProfile::DbgEng => dbgeng_processes_value(),
    }
}

/// The modules that a backend reports; the first one is the launched
/// program.
pub open spec fn modules_json(p: MockProfile, path: Option<Seq<char>>) -> Json {
    match p {
        MockProfile::GdbRemote => gdb_modules(path),
        MockProfile::Lldb => lldb_modules(path),
        MockProfile::DbgEng => dbgeng_modules(path),
    }
}

pub fn modules_value(p: MockProfile, path: &Option<String>) -> (r: JsonValue)
    ensures
        r@ == modules_json(p, opt_seq(*path)),
{
    match p {
        MockProfile::GdbRemote => gdb_modules_value(path),
        MockProfile::Lldb => lldb_modules_value(path),
        MockProfile::DbgEng => dbgeng_modules_value(path),
    }
}

/// The register file that a backend reports.
pub open spec fn registers_of(p: MockProfile, pc: u64, sp: u64) -> Seq<(Seq<char>, Seq<char>)> {
    match p {
        MockProfile::GdbRemote => gdb_registers(pc, sp),
        MockProfile::Lldb => lldb_registers(pc, sp),
        MockProfile::DbgEng => dbgeng_registers(pc, sp),
    }
}

pub fn registers_value(p: MockProfile, pc: u64, sp: u64) -> (r: Vec<(String, String)>)
    ensures
        regs_view(r@) == registers_of(p, pc, sp),
{
    match p {
        MockProfile::GdbRemote => gdb_registers_value(pc, sp),
        MockProfile::Lldb => lldb_registers_value(pc, sp),
        MockProfile::DbgEng => dbgeng_registers_value(pc, sp),
    }
}

/// The address of a known symbol.
pub open spec fn symbol_of(p: MockProfile, m: Seq<char>, s: Seq<char>) -> Option<u64> {
    match p {
        MockProfile::GdbRemote => gdb_symbol(m, s),
        MockProfile::Lldb => lldb_symbol(m, s),
        MockProfile::DbgEng => dbgeng_symbol(m, s),
    }
}

pub fn symbol_value(p: MockProfile, m: &Vec<char>, s: &Vec<char>) -> (r: Option<u64>)
    ensures
        r == symbol_of(p, m@, s@),
{
    match p {
        MockProfile::GdbRemote => gdb_symbol_value(m, s),
        MockProfile::Lldb => lldb_symbol_value(m, s),
        MockProfile::DbgEng => dbgeng_symbol_value(m, s),
    }
}

/// The fixed instruction at a table index (GDB stub and LLDB).
pub open spec fn word_insn(p: MockProfile, i: int) -> (Seq<char>, Seq<char>) {
    match p {
        MockProfile::GdbRemote => riscv_insn(i),
        _ => arm64_insn(i),
    }
}

pub fn word_insn_value(p: MockProfile, i: u64) -> (r: (&'static str, &'static str))
    requires
        i < 12,
    ensures
        (r.0@, r.1@) == word_insn(p, i as int),
{
    match p {
        MockProfile::GdbRemote => riscv_insn_value(i),
        _ => arm64_insn_value(i),
    }
}

pub fn x64_insn_at(i: u64) -> (r: (&'static str, u64, &'static str))
    requires
        i < 16,
    ensures
        (r.0@, r.1, r.2@) == x64_insn(i as int),
{
    x64_insn_value(i)
}

} // verus!
