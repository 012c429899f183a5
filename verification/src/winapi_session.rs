//! The bookkeeping of a Windows debug session: the process being debugged
//! and its handles, the threads and the active one, the last debug event,
//! still to be continued, and the breakpoints; what a debug event, a launch,
//! an attach, a fresh thread snapshot and the end of a session do to it.
//! The handles are of a type `H` that the system layer chooses; the calls
//! into the system stay with the caller.
use vstd::prelude::*;
use crate::winapi::{SoftBreakpoints, ThreadTable, handles_of, lists_once, soft_wf};

verus! {

/// What a debug event tells the session besides its process and thread.
pub enum EventChange<H> {
    /// A process came up: its process handle and the handle of its first
    /// thread (`None` where the system gave a null handle), and the thread
    /// handle as given.
    CreateProcess { process: Option<H>, main: Option<H>, thread: H },
    /// A thread came up, with its handle.
    CreateThread { thread: H },
    /// The event's thread ended.
    ExitThread,
    /// Any other event.
    Other,
}

/// A debug session.
pub struct DebugSession<H> {
    pub pid: Option<u32>,
    pub process: Option<H>,
    pub main_thread: Option<H>,
    pub active_tid: Option<u32>,
    pub threads: ThreadTable<H>,
    pub last_event: Option<(u32, u32)>,
    pub bps: SoftBreakpoints,
}

/// The value that `o` holds, as a sequence of none or one.
pub open spec fn opt_seq<H>(o: Option<H>) -> Seq<H> {
    match o {
        Some(h) => seq![h],
        None => Seq::empty(),
    }
}

/// `current` unless it is unset, then `given`.
pub open spec fn keep_or<H>(current: Option<H>, given: Option<H>) -> Option<H> {
    match current {
        Some(h) => Some(h),
        None => given,
    }
}

impl<H> DebugSession<H> {
    /// No debuggee, no threads, no breakpoints.
    pub fn new() -> (r: DebugSession<H>)
        ensures
            r.pid is None,
            r.process is None,
            r.main_thread is None,
            r.active_tid is None,
            r.threads@ == Map::<u32, H>::empty(),
            r.last_event is None,
            r.bps@.next_bp == 1,
            r.bps@.bps == Map::<u64, crate::winapi::SoftBreakpoint>::empty(),
            soft_wf(r.bps@),
    {
        DebugSession {
            pid: None,
            process: None,
            main_thread: None,
            active_tid: None,
            threads: ThreadTable::new(),
            last_event: None,
            bps: SoftBreakpoints::new(),
        }
    }

    /// Ends the session: forgets the debuggee, its threads, the last event
    /// and the breakpoints (the next breakpoint ID stays), and gives back
    /// the handles to close: the threads' (in the order in which the table
    /// walks them), then the first thread's, then the process's.
    pub fn close_all(&mut self) -> (r: Vec<H>)
        ensures
            final(self).pid is None,
            final(self).process is None,
            final(self).main_thread is None,
            final(self).active_tid is None,
            final(self).last_event is None,
            final(self).threads@ == Map::<u32, H>::empty(),
            final(self).bps@.bps == Map::<u64, crate::winapi::SoftBreakpoint>::empty(),
            final(self).bps@.next_bp == old(self).bps@.next_bp,
            soft_wf(old(self).bps@) ==> soft_wf(final(self).bps@),
            exists|ks: Seq<u32>|
                lists_once(ks, old(self).threads@.dom()) && r@ == handles_of(old(self).threads@, ks) + opt_seq(
                    old(self).main_thread,
                ) + opt_seq(old(self).process),
    {
        let mut r = self.threads.drain();
        let ghost ks = choose|ks: Seq<u32>| lists_once(ks, old(self).threads@.dom()) && r@ == handles_of(old(self).threads@, ks);
        let ghost drained = r@;
        match self.main_thread.take() {
            Some(h) => r.push(h),
            None => {},
        }
        let ghost with_main = r@;
        match self.process.take() {
            Some(h) => r.push(h),
            None => {},
        }
        proof {
            assert(with_main =~= drained + opt_seq(old(self).main_thread));
            assert(r@ =~= with_main + opt_seq(old(self).process));
        }
        self.pid = None;
        self.active_tid = None;
        self.last_event = None;
        self.bps.forget_all();
        r
    }

    /// What a debug event of process `pid` and thread `tid` does: that
    /// process is the one debugged, that thread the active one, and the
    /// event the one to continue. A new process sets the process and first
    /// thread handles where none was set yet and records its thread; a new
    /// thread is recorded; an ended thread is taken out, and its handle is
    /// given back to close.
    pub fn note_event(&mut self, pid: u32, tid: u32, change: EventChange<H>) -> (r: Option<H>)
        ensures
            final(self).pid == Some(pid),
            final(self).active_tid == Some(tid),
            final(self).last_event == Some((pid, tid)),
            final(self).bps == old(self).bps,
            match change {
                EventChange::CreateProcess { process, main, thread } => {
                    &&& final(self).process == keep_or(old(self).process, process)
                    &&& final(self).main_thread == keep_or(old(self).main_thread, main)
                    &&& final(self).threads@ == old(self).threads@.insert(tid, thread)
                    &&& r is None
                },
                EventChange::CreateThread { thread } => {
                    &&& final(self).process == old(self).process
                    &&& final(self).main_thread == old(self).main_thread
                    &&& final(self).threads@ == old(self).threads@.insert(tid, thread)
                    &&& r is None
                },
                EventChange::ExitThread => {
                    &&& final(self).process == old(self).process
                    &&& final(self).main_thread == old(self).main_thread
                    &&& final(self).threads@ == old(self).threads@.remove(tid)
                    &&& r == (if old(self).threads@.contains_key(tid) {
                        Some(old(self).threads@[tid])
                    } else {
                        None
                    })
                },
                EventChange::Other => {
                    &&& final(self).process == old(self).process
                    &&& final(self).main_thread == old(self).main_thread
                    &&& final(self).threads@ == old(self).threads@
                    &&& r is None
                },
            },
    {
        self.pid = Some(pid);
        self.active_tid = Some(tid);
        self.last_event = Some((pid, tid));
        match change {
            EventChange::CreateProcess { process, main, thread } => {
                if self.process.is_none() {
                    self.process = process;
                }
                if self.main_thread.is_none() {
                    self.main_thread = main;
                }
                let _ = self.threads.insert(tid, thread);
                None
            },
            EventChange::CreateThread { thread } => {
                let _ = self.threads.insert(tid, thread);
                None
            },
            EventChange::ExitThread => self.threads.remove(tid),
            EventChange::Other => None,
        }
    }

    /// A running process was attached to.
    pub fn note_attached(&mut self, pid: u32, process: H)
        ensures
            final(self).pid == Some(pid),
            final(self).process == Some(process),
            final(self).main_thread == old(self).main_thread,
            final(self).active_tid == old(self).active_tid,
            final(self).threads@ == old(self).threads@,
            final(self).last_event == old(self).last_event,
            final(self).bps == old(self).bps,
    {
        self.pid = Some(pid);
        self.process = Some(process);
    }

    /// After a snapshot of the process's threads: the threads that are no
    /// longer there are taken out, their handles given back to close, and
    /// where no thread is active one that is left becomes active.
    pub fn settle_threads(&mut self, seen: &Vec<u32>) -> (r: Vec<H>)
        ensures
            final(self).threads@ == old(self).threads@.restrict(seen@.to_set()),
            exists|ks: Seq<u32>|
                lists_once(ks, old(self).threads@.dom().difference(seen@.to_set())) && r@ == handles_of(
                    old(self).threads@,
                    ks,
                ),
            old(self).active_tid is Some ==> final(self).active_tid == old(self).active_tid,
            old(self).active_tid is None ==> match final(self).active_tid {
                Some(t) => final(self).threads@.contains_key(t),
                None => final(self).threads@.dom().is_empty(),
            },
            final(self).pid == old(self).pid,
            final(self).process == old(self).process,
            final(self).main_thread == old(self).main_thread,
            final(self).last_event == old(self).last_event,
            final(self).bps == old(self).bps,
    {
        let stale = self.threads.retain_seen(seen);
        if self.active_tid.is_none() {
            self.active_tid = self.threads.first_tid();
        }
        stale
    }
}

impl<H: Copy> DebugSession<H> {
    /// A process was started under the debugger: it and its first thread,
    /// which is the active one, are the session's.
    pub fn note_launched(&mut self, pid: u32, process: H, tid: u32, thread: H)
        ensures
            final(self).pid == Some(pid),
            final(self).process == Some(process),
            final(self).main_thread == Some(thread),
            final(self).active_tid == Some(tid),
            final(self).threads@ == old(self).threads@.insert(tid, thread),
            final(self).last_event == old(self).last_event,
            final(self).bps == old(self).bps,
    {
        self.pid = Some(pid);
        self.process = Some(process);
        self.main_thread = Some(thread);
        self.active_tid = Some(tid);
        let _ = self.threads.insert(tid, thread);
    }

    /// The handle of the thread whose registers are read and written: the
    /// active thread's where it is recorded, else the first thread's.
    pub fn active_handle(&self) -> (r: Option<H>)
        ensures
            r == (match self.active_tid {
                Some(t) => if self.threads@.contains_key(t) {
                    Some(self.threads@[t])
                } else {
                    self.main_thread
                },
                None => self.main_thread,
            }),
    {
        match self.active_tid {
            Some(t) => match self.threads.get(t) {
                Some(h) => Some(*h),
                None => self.main_thread,
            },
            None => self.main_thread,
        }
    }
}

} // verus!
