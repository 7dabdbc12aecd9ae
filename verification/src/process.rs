//! A process as the task manager shows it: one row of the process table.
use vstd::prelude::*;
use crate::text::str_eq;

verus! {

/// One process, with the fields that the table, the searches and the
/// filters read. Identifiers of the operating system (`piddd`, `ppid`) are
/// held as the `pid_t` values that the system reports.
#[derive(PartialEq, Debug)]
pub struct Process {
    pub pid: u32,
    pub name: String,
    /// CPU usage in percent, as the text that the sampling wrote.
    pub cpu: String,
    pub mem: u64,
    pub state: String,
    pub command: String,
    pub ppid: Option<i32>,
    pub user: String,
    pub piddd: i32,
    pub fd_count: usize,
    pub threads: u64,
    pub process_priority: i64,
    pub p_u_id: String,
    pub virtual_mem: u64,
    pub disk_written: u64,
    pub disk_read: u64,
    /// Share of the total memory in percent, as text.
    pub mem_percentage: String,
}

impl Clone for Process {
    fn clone(&self) -> (r: Self)
        ensures
            r == *self,
    {
        Process {
            pid: self.pid,
            name: self.name.clone(),
            cpu: self.cpu.clone(),
            mem: self.mem,
            state: self.state.clone(),
            command: self.command.clone(),
            ppid: self.ppid,
            user: self.user.clone(),
            piddd: self.piddd,
            fd_count: self.fd_count,
            threads: self.threads,
            process_priority: self.process_priority,
            p_u_id: self.p_u_id.clone(),
            virtual_mem: self.virtual_mem,
            disk_written: self.disk_written,
            disk_read: self.disk_read,
            mem_percentage: self.mem_percentage.clone(),
        }
    }
}


/// What the process list of the system reports of one process.
pub struct ProcessSample {
    /// The system id (`pid_t`) of the process.
    pub pid: i32,
    pub name: String,
    pub cpu: String,
    pub mem: u64,
    pub parent: Option<i32>,
    /// The name of the owner.
    pub user: String,
    /// The owner's user id, as text.
    pub uid: String,
    pub virtual_mem: u64,
    pub disk_read: u64,
    pub disk_written: u64,
    pub mem_percentage: String,
}

/// What the process's own entry under `/proc` adds.
pub struct ProcDetails {
    pub command: String,
    pub state: String,
    pub threads: u64,
    pub priority: i64,
    /// The number of open files, as read (0 where it was not read).
    pub fd_count: usize,
}

/// Whether `viewer` may count the open files of a process owned by `owner`:
/// the owner and `root` may.
pub open spec fn may_count_files(viewer: Seq<char>, owner: Seq<char>) -> bool {
    viewer == owner || viewer == "root"@
}

/// Whether `viewer` may count the open files of a process owned by `owner`.
pub fn may_count_open_files(viewer: &str, owner: &str) -> (r: bool)
    ensures
        r == may_count_files(viewer@, owner@),
{
    str_eq(viewer, owner) || str_eq(viewer, "root")
}

impl Process {
    /// The row that a sample and, where its `/proc` entry was found, the
    /// details of that entry make, as seen by the user `viewer`. Without
    /// details the row has empty texts and zero counters for what only the
    /// entry tells. The open-file count is shown only to the owner and to
    /// `root`; anyone else sees 0.
    pub fn new(sample: ProcessSample, details: Option<ProcDetails>, viewer: &str) -> (r: Process)
        ensures
            r.pid == sample.pid as u32,
            r.piddd == sample.pid,
            r.name == sample.name,
            r.cpu == sample.cpu,
            r.mem == sample.mem,
            r.ppid == sample.parent,
            r.user == sample.user,
            r.mem_percentage == sample.mem_percentage,
            match details {
                Some(d) => {
                    &&& r.command == d.command
                    &&& r.state == d.state
                    &&& r.fd_count == (if may_count_files(viewer@, sample.user@) { d.fd_count } else { 0 })
                    &&& r.threads == d.threads
                    &&& r.process_priority == d.priority
                    &&& r.p_u_id == sample.uid
                    &&& r.virtual_mem == sample.virtual_mem
                    &&& r.disk_read == sample.disk_read
                    &&& r.disk_written == sample.disk_written
                },
                None => {
                    &&& r.command@.len() == 0
                    &&& r.state@.len() == 0
                    &&& r.fd_count == 0
                    &&& r.threads == 0
                    &&& r.process_priority == 0
                    &&& r.p_u_id@.len() == 0
                    &&& r.virtual_mem == 0
                    &&& r.disk_read == 0
                    &&& r.disk_written == 0
                },
            },
    {
        let allowed = may_count_open_files(viewer, sample.user.as_str());
        match details {
            Some(d) => Process {
                pid: sample.pid as u32,
                name: sample.name,
                cpu: sample.cpu,
                mem: sample.mem,
                state: d.state,
                command: d.command,
                ppid: sample.parent,
                user: sample.user,
                piddd: sample.pid,
                fd_count: if allowed { d.fd_count } else { 0 },
                threads: d.threads,
                process_priority: d.priority,
                p_u_id: sample.uid,
                virtual_mem: sample.virtual_mem,
                disk_written: sample.disk_written,
                disk_read: sample.disk_read,
                mem_percentage: sample.mem_percentage,
            },
            None => Process {
                pid: sample.pid as u32,
                name: sample.name,
                cpu: sample.cpu,
                mem: sample.mem,
                state: String::new(),
                command: String::new(),
                ppid: sample.parent,
                user: sample.user,
                piddd: sample.pid,
                fd_count: 0,
                threads: 0,
                process_priority: 0,
                p_u_id: String::new(),
                virtual_mem: 0,
                disk_written: 0,
                disk_read: 0,
                mem_percentage: sample.mem_percentage,
            },
        }
    }
}


/// The open-file count is shown to the owner of the process and to `root`,
/// and to nobody else.
pub proof fn law_open_files_shown_to_owner_and_root(viewer: Seq<char>, owner: Seq<char>)
    ensures
        may_count_files(viewer, owner) == (viewer == owner || viewer == seq!['r', 'o', 'o', 't']),
{
    reveal_strlit("root");
    assert("root"@ =~= seq!['r', 'o', 'o', 't']);
}

} // verus!
