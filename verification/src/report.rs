//! The texts that the task manager shows: process details, the system
//! summary, the list of commands and the outcome of a kill.
use vstd::prelude::*;
use crate::decimal::{decimal, signed_decimal, push_decimal};
use crate::process::Process;

verus! {

/// The details of process `p` shown when its row is chosen.
pub open spec fn details_text(p: Process) -> Seq<char> {
    "Pid:"@ + decimal(p.pid as nat) + "    Uid:"@ + p.p_u_id@ + "    User: "@ + p.user@
        + "    Num of. Threads: "@ + decimal(p.threads as nat) + "\n"@
        + "Num of. open files (fd): "@ + decimal(p.fd_count as nat) + "     Priority: "@
        + signed_decimal(p.process_priority as int) + "\n"@
        + "Disk Writes (Bytes): "@ + decimal(p.disk_written as nat) + "    Disk Reads (Bytes): "@
        + decimal(p.disk_read as nat) + "     Memory (RAM) used (Bytes): "@ + decimal(p.mem as nat)
}

fn push_signed(s: &mut String, n: i64)
    ensures
        final(s)@ == old(s)@ + signed_decimal(n as int),
{
    let t = crate::decimal::i64_to_decimal(n);
    s.append(t.as_str());
}

/// The details of a process, as shown when its row is chosen.
pub fn process_details(p: &Process) -> (r: String)
    ensures
        r@ == details_text(*p),
{
    let mut s = String::new();
    s.append("Pid:");
    push_decimal(&mut s, p.pid as u64);
    s.append("    Uid:");
    s.append(p.p_u_id.as_str());
    s.append("    User: ");
    s.append(p.user.as_str());
    s.append("    Num of. Threads: ");
    push_decimal(&mut s, p.threads);
    s.append("\n");
    s.append("Num of. open files (fd): ");
    push_decimal(&mut s, p.fd_count as u64);
    s.append("     Priority: ");
    push_signed(&mut s, p.process_priority);
    s.append("\n");
    s.append("Disk Writes (Bytes): ");
    push_decimal(&mut s, p.disk_written);
    s.append("    Disk Reads (Bytes): ");
    push_decimal(&mut s, p.disk_read);
    s.append("     Memory (RAM) used (Bytes): ");
    push_decimal(&mut s, p.mem);
    proof {
        assert(s@ =~= details_text(*p));
    }
    s
}


/// The details shown for the chosen row whose process id is `pid`: those of
/// the last listed process with that id, or nothing when none has it.
pub open spec fn chosen_details(procs: Seq<Process>, pid: u32) -> Seq<char> {
    let found = procs.filter(|p: Process| p.pid == pid);
    if found.len() == 0 {
        Seq::empty()
    } else {
        details_text(found.last())
    }
}

/// The details shown for the chosen row with process id `pid`, looked up in
/// a fresh process list.
pub fn details_for_pid(procs: &Vec<Process>, pid: u32) -> (r: String)
    ensures
        r@ == chosen_details(procs@, pid),
{
    let ghost pred = |p: Process| p.pid == pid;
    let mut r = String::new();
    let n = procs.len();
    let mut i: usize = 0;
    while i < n
        invariant
            i <= n,
            n == procs@.len(),
            pred == (|p: Process| p.pid == pid),
            r@ == chosen_details(procs@.subrange(0, i as int), pid),
        decreases n - i,
    {
        proof {
            procs@.subrange(0, i as int).lemma_filter_push(procs@[i as int], pred);
            assert(procs@.subrange(0, i + 1) =~= procs@.subrange(0, i as int).push(procs@[i as int]));
        }
        if procs[i].pid == pid {
            r = process_details(&procs[i]);
        }
        i = i + 1;
    }
    assert(procs@.subrange(0, n as int) =~= procs@);
    r
}

/// The figures of the machine shown above the table.
pub struct SystemStats {
    pub process_count: usize,
    pub mem_total: u64,
    pub mem_used: u64,
    pub mem_available: u64,
    pub cpu_num_cores: usize,
    pub disks_num: usize,
    pub total_swap: u64,
    pub free_swap: u64,
    pub used_swap: u64,
}

/// The system summary shown above the table; `load` is the load average as
/// text.
pub open spec fn summary_text(st: SystemStats, load: Seq<char>) -> Seq<char> {
    "Processes: "@ + decimal(st.process_count as nat) + "    Total Memory:"@ + decimal(st.mem_total as nat)
        + "    Used Memory:"@ + decimal(st.mem_used as nat) + "    Available Memory:"@
        + decimal(st.mem_available as nat) + "\n"@
        + "Processors: "@ + decimal(st.cpu_num_cores as nat) + "    Disks: "@ + decimal(st.disks_num as nat)
        + "    Total Swap: "@ + decimal(st.total_swap as nat) + "   Free Swap: "@ + decimal(st.free_swap as nat)
        + "     Used Swap: "@ + decimal(st.used_swap as nat) + "\n"@ + "Load Average : "@ + load
}

/// The system summary shown above the table.
pub fn system_summary(st: &SystemStats, load: &str) -> (r: String)
    ensures
        r@ == summary_text(*st, load@),
{
    let mut s = String::new();
    s.append("Processes: ");
    push_decimal(&mut s, st.process_count as u64);
    s.append("    Total Memory:");
    push_decimal(&mut s, st.mem_total);
    s.append("    Used Memory:");
    push_decimal(&mut s, st.mem_used);
    s.append("    Available Memory:");
    push_decimal(&mut s, st.mem_available);
    s.append("\n");
    s.append("Processors: ");
    push_decimal(&mut s, st.cpu_num_cores as u64);
    s.append("    Disks: ");
    push_decimal(&mut s, st.disks_num as u64);
    s.append("    Total Swap: ");
    push_decimal(&mut s, st.total_swap);
    s.append("   Free Swap: ");
    push_decimal(&mut s, st.free_swap);
    s.append("     Used Swap: ");
    push_decimal(&mut s, st.used_swap);
    s.append("\n");
    s.append("Load Average : ");
    s.append(load);
    proof {
        assert(s@ =~= summary_text(*st, load@));
    }
    s
}

/// The number of processor cores, given the number of CPU entries that the
/// system lists: all entries but the first.
pub fn core_count(cpu_entries: usize) -> (r: usize)
    requires
        cpu_entries >= 1,
    ensures
        r == cpu_entries - 1,
{
    cpu_entries - 1
}

/// The commands that the command line accepts, one per line, in the form
/// that it reads them.
pub open spec fn command_list() -> Seq<char> {
    "To show full table, enter: show full tableTo kill a process, enter: kill -pid [process pid]\nTo show this list, enter: show -help\nOptions to search for a process: \n1- search -pid [process pid]\n2- search -uid [process uid]\n3- search -user [user]\n4- search -name [process name]\n5- search -ppid [process parent id]\nOptions to filter processes: \n1- filter -[greater, less] -cpu [value]\n2- filter -range -cpu [minimum value] [maximum value]\n3- filter -[greater, less] -mem [value]\n4- filter -range -mem [minimum value] [maximum value]\n5- filter -[greater, less] -threads [value]\n6- filter -range -threads [minimum value] [maximum value]\n7- filter -[greater, less] -fd [value]\n8- filter -range -fd [minimum value] [maximum value]"@
}

/// The list of commands, shown for `show -help`.
pub open spec fn usage_text() -> Seq<char> {
    "Available commands:\n"@ + command_list()
}

/// The text shown for a line that asks for no command.
pub open spec fn incorrect_command_text() -> Seq<char> {
    "Incorrect command. Please enter one of the following available commands:\n"@ + command_list()
}

fn commands() -> (r: &'static str)
    ensures
        r@ == command_list(),
{
    "To show full table, enter: show full tableTo kill a process, enter: kill -pid [process pid]\nTo show this list, enter: show -help\nOptions to search for a process: \n1- search -pid [process pid]\n2- search -uid [process uid]\n3- search -user [user]\n4- search -name [process name]\n5- search -ppid [process parent id]\nOptions to filter processes: \n1- filter -[greater, less] -cpu [value]\n2- filter -range -cpu [minimum value] [maximum value]\n3- filter -[greater, less] -mem [value]\n4- filter -range -mem [minimum value] [maximum value]\n5- filter -[greater, less] -threads [value]\n6- filter -range -threads [minimum value] [maximum value]\n7- filter -[greater, less] -fd [value]\n8- filter -range -fd [minimum value] [maximum value]"
}

/// The list of commands, shown for `show -help`.
pub fn usage() -> (r: String)
    ensures
        r@ == usage_text(),
{
    let mut s = String::from_str("Available commands:\n");
    s.append(commands());
    s
}

/// The text shown for a line that asks for no command: the list of
/// commands, after a note that the line was not understood.
pub fn incorrect_command() -> (r: String)
    ensures
        r@ == incorrect_command_text(),
{
    let mut s = String::from_str("Incorrect command. Please enter one of the following available commands:\n");
    s.append(commands());
    s
}

/// The request shown for an empty line.
pub fn empty_input_message() -> (r: &'static str)
    ensures
        r@ == "Please enter a command! For help, enter show -help"@,
{
    "Please enter a command! For help, enter show -help"
}

/// What became of a request to kill one process.
#[derive(Clone, Copy, PartialEq, Eq, Structural, Debug)]
pub enum KillOutcome {
    Killed,
    NotKilled,
    NotFound,
}

/// The outcome of a kill, from whether the process was found and whether
/// the signal was delivered.
pub fn kill_outcome(found: bool, killed: bool) -> (r: KillOutcome)
    ensures
        r == (if !found {
            KillOutcome::NotFound
        } else if killed {
            KillOutcome::Killed
        } else {
            KillOutcome::NotKilled
        }),
{
    if !found {
        KillOutcome::NotFound
    } else if killed {
        KillOutcome::Killed
    } else {
        KillOutcome::NotKilled
    }
}

/// The message shown for the outcome of a kill.
pub open spec fn kill_message_text(o: KillOutcome) -> Seq<char> {
    match o {
        KillOutcome::Killed => "Process killed successfully."@,
        KillOutcome::NotKilled => "Process couldn't be killed or Process not found! Please enter correct pid."@,
        KillOutcome::NotFound => "Process not found! Please enetr correct pid."@,
    }
}

/// The message shown for the outcome of a kill.
pub fn kill_message(o: KillOutcome) -> (r: &'static str)
    ensures
        r@ == kill_message_text(o),
{
    match o {
        KillOutcome::Killed => "Process killed successfully.",
        KillOutcome::NotKilled => "Process couldn't be killed or Process not found! Please enter correct pid.",
        KillOutcome::NotFound => "Process not found! Please enetr correct pid.",
    }
}

} // verus!
