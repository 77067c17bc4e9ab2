//! The content processes that are running.

use vstd::prelude::*;
use vstd::string::*;

use crate::error::option_text;

verus! {

/// How a process was started. The numbers are process identifiers.
#[derive(Clone, Copy, Debug, PartialEq, Eq, Structural)]
pub enum ProcessKind {
    Unsandboxed(u32),
    Sandboxed(u32),
}

/// A content process.
#[derive(Debug)]
pub struct Process {
    kind: ProcessKind,
    system_memory_reporter_name: Option<String>,
}

impl Process {
    /// How the process was started.
    pub closed spec fn started(&self) -> ProcessKind {
        self.kind
    }

    /// The name of the reporter of its memory, if it has one.
    pub closed spec fn reporter(&self) -> Option<Seq<char>> {
        option_text(self.system_memory_reporter_name)
    }

    /// A process that runs outside a sandbox.
    pub fn unsandboxed(pid: u32) -> (process: Self)
        ensures
            process.started() == ProcessKind::Unsandboxed(pid),
            process.reporter() is None,
    {
        Process { kind: ProcessKind::Unsandboxed(pid), system_memory_reporter_name: None }
    }

    /// A process that runs in a sandbox.
    pub fn sandboxed(pid: u32) -> (process: Self)
        ensures
            process.started() == ProcessKind::Sandboxed(pid),
            process.reporter() is None,
    {
        Process { kind: ProcessKind::Sandboxed(pid), system_memory_reporter_name: None }
    }

    /// The process identifier.
    pub fn pid(&self) -> (pid: u32)
        ensures
            pid == match self.started() {
                ProcessKind::Unsandboxed(pid) => pid,
                ProcessKind::Sandboxed(pid) => pid,
            },
    {
        match self.kind {
            ProcessKind::Unsandboxed(pid) => pid,
            ProcessKind::Sandboxed(pid) => pid,
        }
    }

    /// Names the reporter of the process's memory, or takes the name away.
    pub fn set_system_memory_reporter_name(&mut self, name: Option<String>)
        ensures
            final(self).started() == old(self).started(),
            final(self).reporter() == option_text(name),
    {
        self.system_memory_reporter_name = name;
    }

    /// The name of the reporter of the process's memory.
    pub fn system_memory_reporter_name(&self) -> (name: Option<&str>)
        ensures
            match name {
                Some(name) => self.reporter() == Some(name@),
                None => self.reporter() is None,
            },
    {
        match &self.system_memory_reporter_name {
            Some(name) => Some(name.as_str()),
            None => None,
        }
    }

    /// The process can be waited for: that of a sandbox cannot.
    pub fn can_wait(&self) -> (can: bool)
        ensures
            can == (self.started() is Unsandboxed),
    {
        match self.kind {
            ProcessKind::Unsandboxed(_) => true,
            ProcessKind::Sandboxed(_) => false,
        }
    }
}

/// What is left to do for a process that has gone.
#[derive(Debug)]
pub struct Removal<R> {
    pub pid: u32,
    pub receiver: R,
    /// The reporter to unregister.
    pub unregister_reporter: Option<String>,
    /// Wait for the process to end.
    pub wait: bool,
}

/// The running processes, each with the receiver that tells its end.
#[derive(Debug)]
pub struct ProcessManager<R> {
    processes: Vec<(Process, R)>,
}

/// A list once place `index` was taken out: its last element stands there.
pub open spec fn swap_removed<T>(list: Seq<T>, index: int) -> Seq<T> {
    list.update(index, list.last()).drop_last()
}

impl<R> View for ProcessManager<R> {
    type V = Seq<(Process, R)>;

    closed spec fn view(&self) -> Seq<(Process, R)> {
        self.processes@
    }
}

impl<R> ProcessManager<R> {
    /// No processes.
    pub fn new() -> (manager: Self)
        ensures
            manager@ == Seq::<(Process, R)>::empty(),
    {
        ProcessManager { processes: Vec::new() }
    }

    /// The number of processes.
    pub fn len(&self) -> (len: usize)
        ensures
            len == self@.len(),
    {
        self.processes.len()
    }

    /// Adds a process behind the others.
    pub fn add(&mut self, receiver: R, process: Process)
        ensures
            final(self)@ == old(self)@.push((process, receiver)),
    {
        self.processes.push((process, receiver));
    }

    /// The receiver of the process at a place.
    pub fn receiver_at(&self, index: usize) -> (receiver: &R)
        requires
            index < self@.len(),
        ensures
            *receiver == self@[index as int].1,
    {
        &self.processes[index].1
    }

    /// Takes the process at a place out; the last process takes its place.
    pub fn remove(&mut self, index: usize) -> (removal: Removal<R>)
        requires
            index < old(self)@.len(),
        ensures
            final(self)@ == swap_removed(old(self)@, index as int),
            ({
                let (process, receiver) = old(self)@[index as int];
                &&& removal.receiver == receiver
                &&& removal.pid == match process.started() {
                    ProcessKind::Unsandboxed(pid) => pid,
                    ProcessKind::Sandboxed(pid) => pid,
                }
                &&& option_text(removal.unregister_reporter) == process.reporter()
                &&& removal.wait == (process.started() is Unsandboxed)
            }),
    {
        let (process, receiver) = self.processes.swap_remove(index);
        proof {
            assert(self.processes@ =~= swap_removed(old(self)@, index as int));
        }
        Removal {
            pid: process.pid(),
            receiver,
            wait: process.can_wait(),
            unregister_reporter: process.system_memory_reporter_name,
        }
    }
}

/// Taking one process out loses no other: it keeps its place, or it was the last and moves to the
/// place that became free.
pub proof fn removal_keeps_the_others<R>(
    before: Seq<(Process, R)>,
    after: Seq<(Process, R)>,
    index: int,
    other: int,
)
    requires
        0 <= index < before.len(),
        0 <= other < before.len(),
        other != index,
        after == swap_removed(before, index),
    ensures
        after.len() == before.len() - 1,
        other < before.len() - 1 ==> after[other] == before[other],
        other == before.len() - 1 ==> after[index] == before[other],
{
}

} // verus!
