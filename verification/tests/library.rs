use task_manager::columns::BasicColumn;
use task_manager::command::{parse_input, Command, FilterBy, InputNotice};
use task_manager::decimal::{i64_to_decimal, parse_unsigned_max, u64_to_decimal};
use task_manager::filter::{
    filter_by_count, filter_by_count_text, kill_targets, read_filter_bounds, search, Bound,
    CountField, SearchBy,
};
use task_manager::process::{may_count_open_files, ProcDetails, Process, ProcessSample};
use task_manager::report::{
    core_count, details_for_pid, empty_input_message, incorrect_command, kill_message, kill_outcome,
    process_details, system_summary, usage, KillOutcome, SystemStats,
};
use task_manager::text::{str_contains, str_eq};
use task_manager::words::split_words;
use std::cmp::Ordering;

fn proc_with(pid: u32, name: &str, user: &str, ppid: Option<i32>, threads: u64, fd: usize) -> Process {
    Process {
        pid,
        name: name.to_string(),
        cpu: "1.5".to_string(),
        mem: 2048,
        state: "S".to_string(),
        command: name.to_string(),
        ppid,
        user: user.to_string(),
        piddd: pid as i32,
        fd_count: fd,
        threads,
        process_priority: 20,
        p_u_id: "1000".to_string(),
        virtual_mem: 4096,
        disk_written: 7,
        disk_read: 9,
        mem_percentage: "0.25".to_string(),
    }
}

fn sample_list() -> Vec<Process> {
    vec![
        proc_with(1, "systemd", "root", Some(0), 1, 120),
        proc_with(42, "bash", "alice", Some(1), 1, 4),
        proc_with(43, "firefox", "alice", Some(42), 80, 300),
        proc_with(420, "bash", "bob", Some(1), 2, 5),
    ]
}

fn pids(v: &[Process]) -> Vec<u32> {
    v.iter().map(|p| p.pid).collect()
}

// ---- words and commands ----

#[test]
fn split_words_collapses_white_space() {
    let w = split_words("  search \t -pid\n 42  ");
    assert_eq!(w, vec!["search".to_string(), "-pid".to_string(), "42".to_string()]);
    assert!(split_words("").is_empty());
    assert!(split_words(" \u{3000} ").is_empty());
    assert_eq!(split_words("a\u{a0}b"), vec!["a".to_string(), "b".to_string()]);
}

#[test]
fn parse_show_full_table_exact_line() {
    let p = parse_input("show full table");
    assert!(p.notice.is_none());
    assert!(matches!(p.command, Command::ShowFullTable));
}

#[test]
fn parse_show_full_table_with_extra_space_is_unrecognized() {
    let p = parse_input("show  full table");
    assert!(p.notice.is_none());
    assert!(matches!(p.command, Command::Unrecognized));
}

#[test]
fn parse_search_commands() {
    let cases = [
        ("search -user alice", SearchBy::User, "alice"),
        ("search -uid 1000", SearchBy::PUid, "1000"),
        ("search -pid 42", SearchBy::PiD, "42"),
        ("search -ppid 1", SearchBy::PpPid, "1"),
        ("search -name bash", SearchBy::Name, "bash"),
    ];
    for (line, by_expected, value_expected) in cases {
        let p = parse_input(line);
        assert!(p.notice.is_none());
        match p.command {
            Command::Search { by, value } => {
                assert_eq!(by, by_expected);
                assert_eq!(value, value_expected);
            }
            _ => panic!("not a search: {}", line),
        }
    }
}

#[test]
fn parse_search_without_value_gets_blank() {
    let p = parse_input("search -name");
    match p.command {
        Command::Search { by, value } => {
            assert_eq!(by, SearchBy::Name);
            assert_eq!(value, " ");
        }
        _ => panic!("not a search"),
    }
}

#[test]
fn parse_kill_command() {
    let p = parse_input("kill -pid 1234");
    match p.command {
        Command::Kill { pid } => assert_eq!(pid, "1234"),
        _ => panic!("not a kill"),
    }
}

#[test]
fn parse_filter_commands() {
    let p = parse_input("filter -range -threads 2 10");
    assert!(p.notice.is_none());
    match p.command {
        Command::Filter { field, bound, value, value2 } => {
            assert_eq!(field, FilterBy::Threads);
            assert_eq!(bound, Bound::Range);
            assert_eq!(value, "2");
            assert_eq!(value2, "10");
        }
        _ => panic!("not a filter"),
    }
    let p = parse_input("filter -greater -cpu 5");
    match p.command {
        Command::Filter { field, bound, value, value2 } => {
            assert_eq!(field, FilterBy::Cpu);
            assert_eq!(bound, Bound::Greater);
            assert_eq!(value, "5");
            assert_eq!(value2, " ");
        }
        _ => panic!("not a filter"),
    }
    let p = parse_input("filter -less -fd 3");
    assert!(matches!(p.command, Command::Filter { field: FilterBy::FdCount, bound: Bound::Less, .. }));
    let p = parse_input("filter -less -mem 3");
    assert!(matches!(p.command, Command::Filter { field: FilterBy::Mem, bound: Bound::Less, .. }));
}

#[test]
fn parse_filter_with_flags_swapped_is_unrecognized() {
    // The column comes second and the comparison first.
    let p = parse_input("filter -cpu -greater 5");
    assert!(matches!(p.command, Command::Unrecognized));
}

#[test]
fn parse_help_and_unknown() {
    assert!(matches!(parse_input("show -help").command, Command::ShowHelp));
    assert!(matches!(parse_input("list all").command, Command::Unrecognized));
}

#[test]
fn parse_empty_line_notice() {
    let p = parse_input("");
    assert_eq!(p.notice, Some(InputNotice::EmptyInput));
    assert!(matches!(p.command, Command::Unrecognized));
}

#[test]
fn parse_wrong_word_counts() {
    for line in ["   ", "show", "a b c d e f", "filter -range -fd 1 2 3"] {
        let p = parse_input(line);
        assert_eq!(p.notice, Some(InputNotice::WrongWordCount), "{}", line);
        assert!(matches!(p.command, Command::Unrecognized));
    }
}

#[test]
fn filter_field_count_fields() {
    assert_eq!(FilterBy::Threads.count_field(), Some(CountField::Threads));
    assert_eq!(FilterBy::FdCount.count_field(), Some(CountField::FdCount));
    assert_eq!(FilterBy::Cpu.count_field(), None);
    assert_eq!(FilterBy::Mem.count_field(), None);
}

// ---- decimal ----

#[test]
fn decimal_rendering() {
    assert_eq!(u64_to_decimal(0), "0");
    assert_eq!(u64_to_decimal(1234567890), "1234567890");
    assert_eq!(u64_to_decimal(u64::MAX), u64::MAX.to_string());
    assert_eq!(i64_to_decimal(-17), "-17");
    assert_eq!(i64_to_decimal(i64::MIN), i64::MIN.to_string());
    assert_eq!(i64_to_decimal(i64::MAX), i64::MAX.to_string());
}

#[test]
fn decimal_parsing_follows_from_str() {
    let max = u32::MAX as u64;
    for s in ["0", "42", "+42", "007", "4294967295", "4294967296", "", "+", "-1", " 1", "1a", "٣"] {
        let expected = s.parse::<u32>().ok().map(|v| v as u64);
        assert_eq!(parse_unsigned_max(s, max), expected, "{:?}", s);
    }
    assert_eq!(parse_unsigned_max("18446744073709551615", u64::MAX), Some(u64::MAX));
    assert_eq!(parse_unsigned_max("18446744073709551616", u64::MAX), None);
}

#[test]
fn parse_after_render_on_values() {
    for n in [0u64, 9, 10, 99, 100, 65535, 4294967295] {
        assert_eq!(parse_unsigned_max(&u64_to_decimal(n), u32::MAX as u64), Some(n));
    }
}

// ---- text ----

#[test]
fn text_helpers() {
    assert!(str_contains("firefox", "fox"));
    assert!(str_contains("firefox", ""));
    assert!(!str_contains("fox", "firefox"));
    assert!(str_eq("abc", "abc"));
    assert!(!str_eq("abc", "abd"));
}

// ---- searching ----

#[test]
fn search_by_each_field() {
    let l = sample_list();
    assert_eq!(pids(&search(&l, SearchBy::PiD, "42")), vec![42]);
    assert_eq!(pids(&search(&l, SearchBy::PiD, "+042")), vec![42]);
    assert_eq!(pids(&search(&l, SearchBy::User, "alice")), vec![42, 43]);
    assert_eq!(pids(&search(&l, SearchBy::User, "ali")), Vec::<u32>::new());
    assert_eq!(pids(&search(&l, SearchBy::PUid, "1000")), vec![1, 42, 43, 420]);
    assert_eq!(pids(&search(&l, SearchBy::PUid, "100")), Vec::<u32>::new());
    assert_eq!(pids(&search(&l, SearchBy::PpPid, "1")), vec![42, 420]);
    let mut with_orphan = sample_list();
    with_orphan.push(proc_with(2, "kthreadd", "root", None, 1, 1));
    assert_eq!(pids(&search(&with_orphan, SearchBy::PpPid, "0")), vec![1]);
    assert_eq!(pids(&search(&with_orphan, SearchBy::PpPid, "")), Vec::<u32>::new());
    assert_eq!(pids(&search(&l, SearchBy::Name, "bash")), vec![42, 420]);
    assert_eq!(pids(&search(&l, SearchBy::Name, " ")), Vec::<u32>::new());
}

#[test]
fn kill_targets_match_decimal_text_only() {
    let l = sample_list();
    assert_eq!(kill_targets(&l, "42"), vec![42]);
    assert_eq!(kill_targets(&l, "042"), Vec::<i32>::new());
    assert_eq!(kill_targets(&l, "7"), Vec::<i32>::new());
}

#[test]
fn kill_reaches_what_search_finds_on_values() {
    let l = sample_list();
    for n in [1u32, 42, 43, 420, 9] {
        let text = u64_to_decimal(n as u64);
        let found: Vec<i32> = search(&l, SearchBy::PiD, &text).iter().map(|p| p.piddd).collect();
        assert_eq!(kill_targets(&l, &text), found);
    }
}

// ---- filtering ----

#[test]
fn count_filters() {
    let l = sample_list();
    assert_eq!(pids(&filter_by_count(&l, CountField::Threads, Bound::Greater, 1, 0)), vec![43, 420]);
    assert_eq!(pids(&filter_by_count(&l, CountField::Threads, Bound::Less, 2, 0)), vec![1, 42]);
    assert_eq!(pids(&filter_by_count(&l, CountField::FdCount, Bound::Range, 4, 300)), vec![1, 420]);
}

#[test]
fn range_is_greater_then_less_on_values() {
    let l = sample_list();
    let range = filter_by_count(&l, CountField::FdCount, Bound::Range, 4, 300);
    let g = filter_by_count(&l, CountField::FdCount, Bound::Greater, 4, 300);
    let gl = filter_by_count(&g, CountField::FdCount, Bound::Less, 300, 300);
    assert_eq!(pids(&range), pids(&gl));
}

#[test]
fn range_with_one_value_keeps_nothing() {
    let l = sample_list();
    let r = filter_by_count_text(&l, CountField::Threads, Bound::Range, "0", " ");
    assert!(r.is_empty());
}

#[test]
fn filter_bounds_from_text() {
    assert_eq!(read_filter_bounds(CountField::Threads, "5", " "), Some((5, 0)));
    assert_eq!(read_filter_bounds(CountField::Threads, "5", "9"), Some((5, 9)));
    assert_eq!(read_filter_bounds(CountField::FdCount, "x", "9"), None);
    assert_eq!(read_filter_bounds(CountField::FdCount, "5", "  "), None);
    assert_eq!(read_filter_bounds(CountField::Threads, " ", " "), None);
    let l = sample_list();
    assert_eq!(pids(&filter_by_count_text(&l, CountField::Threads, Bound::Greater, "1", " ")), vec![43, 420]);
}

// ---- columns and order ----

#[test]
fn column_names() {
    let expected = [
        (BasicColumn::Pid, "PID"),
        (BasicColumn::Name, "Name"),
        (BasicColumn::Cpu, "CPU%"),
        (BasicColumn::Mem, "MEM%"),
        (BasicColumn::Status, "S"),
        (BasicColumn::Cmd, "CMD"),
        (BasicColumn::Ppid, "PPID"),
        (BasicColumn::User, "User"),
        (BasicColumn::Priority, "Priority"),
    ];
    for (c, s) in expected {
        assert_eq!(c.as_str(), s);
    }
}

#[test]
fn column_cells() {
    let mut p = proc_with(43, "firefox", "alice", Some(42), 80, 300);
    assert_eq!(p.to_column(BasicColumn::Name), "firefox");
    assert_eq!(p.to_column(BasicColumn::Pid), "43");
    assert_eq!(p.to_column(BasicColumn::Cpu), "1.5%");
    assert_eq!(p.to_column(BasicColumn::Mem), "0.25%");
    assert_eq!(p.to_column(BasicColumn::Status), "S");
    assert_eq!(p.to_column(BasicColumn::Cmd), "firefox");
    assert_eq!(p.to_column(BasicColumn::Ppid), "42");
    assert_eq!(p.to_column(BasicColumn::User), "alice");
    assert_eq!(p.to_column(BasicColumn::Priority), "20");
    p.ppid = None;
    p.process_priority = -5;
    assert_eq!(p.to_column(BasicColumn::Ppid), "");
    assert_eq!(p.to_column(BasicColumn::Priority), "-5");
}

#[test]
fn row_ordering() {
    let a = proc_with(9, "bash", "alice", None, 1, 1);
    let mut b = proc_with(10, "bashrc", "bob", Some(3), 1, 1);
    assert_eq!(a.cmp(&b, BasicColumn::Pid), Ordering::Less);
    assert_eq!(a.cmp(&b, BasicColumn::Name), Ordering::Less);
    assert_eq!(b.cmp(&a, BasicColumn::Name), Ordering::Greater);
    assert_eq!(a.cmp(&a, BasicColumn::User), Ordering::Equal);
    assert_eq!(a.cmp(&b, BasicColumn::Ppid), Ordering::Less);
    let mut c = a.clone();
    c.cpu = "9.0".to_string();
    b.cpu = "10.0".to_string();
    // CPU texts compare as text, not as numbers: "9.0" > "10.0".
    assert_eq!(c.cmp(&b, BasicColumn::Cpu), Ordering::Greater);
    b.process_priority = 0;
    // Higher priority comes first.
    assert_eq!(a.cmp(&b, BasicColumn::Priority), Ordering::Less);
    assert_eq!(b.cmp(&a, BasicColumn::Priority), Ordering::Greater);
    assert_eq!("é".cmp("z"), task_manager::order::compare_text("é", "z"));
}

// ---- reports ----

#[test]
fn details_text() {
    let p = proc_with(43, "firefox", "alice", Some(42), 80, 300);
    let expected = "Pid:43    Uid:1000    User: alice    Num of. Threads: 80\n\
Num of. open files (fd): 300     Priority: 20\n\
Disk Writes (Bytes): 7    Disk Reads (Bytes): 9     Memory (RAM) used (Bytes): 2048";
    assert_eq!(process_details(&p), expected);
    let l = sample_list();
    assert_eq!(details_for_pid(&l, 43), expected);
    assert_eq!(details_for_pid(&l, 5), "");
}

#[test]
fn details_use_last_match() {
    let mut l = sample_list();
    let mut dup = proc_with(42, "zsh", "carol", Some(1), 3, 3);
    dup.p_u_id = "2000".to_string();
    l.push(dup.clone());
    assert_eq!(details_for_pid(&l, 42), process_details(&dup));
}

#[test]
fn summary_text() {
    let st = SystemStats {
        process_count: 3,
        mem_total: 100,
        mem_used: 40,
        mem_available: 60,
        cpu_num_cores: 4,
        disks_num: 1,
        total_swap: 10,
        free_swap: 8,
        used_swap: 2,
    };
    let expected = "Processes: 3    Total Memory:100    Used Memory:40    Available Memory:60\n\
Processors: 4    Disks: 1    Total Swap: 10   Free Swap: 8     Used Swap: 2\n\
Load Average : 0.5";
    assert_eq!(system_summary(&st, "0.5"), expected);
    assert_eq!(core_count(5), 4);
}

const COMMANDS: &str = "To show full table, enter: show full tableTo kill a process, enter: kill -pid [process pid]
To show this list, enter: show -help
Options to search for a process: 
1- search -pid [process pid]
2- search -uid [process uid]
3- search -user [user]
4- search -name [process name]
5- search -ppid [process parent id]
Options to filter processes: 
1- filter -[greater, less] -cpu [value]
2- filter -range -cpu [minimum value] [maximum value]
3- filter -[greater, less] -mem [value]
4- filter -range -mem [minimum value] [maximum value]
5- filter -[greater, less] -threads [value]
6- filter -range -threads [minimum value] [maximum value]
7- filter -[greater, less] -fd [value]
8- filter -range -fd [minimum value] [maximum value]";

#[test]
fn usage_text_is_the_command_list() {
    assert_eq!(usage(), format!("Available commands:\n{}", COMMANDS));
    assert_eq!(
        incorrect_command(),
        format!("Incorrect command. Please enter one of the following available commands:\n{}", COMMANDS)
    );
    assert_eq!(empty_input_message(), "Please enter a command! For help, enter show -help");
}

#[test]
fn every_listed_command_is_accepted() {
    // Fill each placeholder of the list with a value and read the line back.
    let fill = |line: &str| -> Vec<String> {
        let body = line.split(": ").last().unwrap();
        let body = match body.find("- ") {
            Some(k) if body.starts_with(char::is_numeric) => &body[k + 2..],
            _ => body,
        };
        let mut out = vec![];
        for option in ["-greater", "-less"] {
            let l = body
                .replace("-[greater, less]", option)
                .replace("[minimum value]", "1")
                .replace("[maximum value]", "9")
                .replace("[value]", "5")
                .replace("[process pid]", "42")
                .replace("[process uid]", "1000")
                .replace("[user]", "alice")
                .replace("[process name]", "bash")
                .replace("[process parent id]", "1");
            if !out.contains(&l) {
                out.push(l);
            }
        }
        out
    };
    let mut seen = 0;
    for line in COMMANDS.lines() {
        if line.starts_with("Options") {
            continue;
        }
        for filled in fill(line) {
            let p = parse_input(&filled);
            assert!(p.notice.is_none(), "{}", filled);
            assert!(!matches!(p.command, Command::Unrecognized), "{}", filled);
            seen += 1;
        }
    }
    assert_eq!(seen, 2 + 5 + 12);
    assert!(matches!(parse_input("show full table").command, Command::ShowFullTable));
}

#[test]
fn kill_reports() {
    assert_eq!(kill_outcome(false, false), KillOutcome::NotFound);
    assert_eq!(kill_outcome(true, true), KillOutcome::Killed);
    assert_eq!(kill_outcome(true, false), KillOutcome::NotKilled);
    assert_eq!(kill_message(KillOutcome::Killed), "Process killed successfully.");
    assert_eq!(
        kill_message(KillOutcome::NotKilled),
        "Process couldn't be killed or Process not found! Please enter correct pid."
    );
    assert_eq!(kill_message(KillOutcome::NotFound), "Process not found! Please enetr correct pid.");
}

// ---- assembling a process ----

fn sample() -> ProcessSample {
    ProcessSample {
        pid: 77,
        name: "vim".to_string(),
        cpu: "0.5".to_string(),
        mem: 10,
        parent: Some(42),
        user: "alice".to_string(),
        uid: "1000".to_string(),
        virtual_mem: 20,
        disk_read: 30,
        disk_written: 40,
        mem_percentage: "0.1".to_string(),
    }
}

#[test]
fn assemble_with_and_without_proc_entry() {
    let p = Process::new(sample(), None, "alice");
    assert_eq!(p.pid, 77);
    assert_eq!(p.piddd, 77);
    assert_eq!(p.command, "");
    assert_eq!(p.p_u_id, "");
    assert_eq!(p.threads, 0);
    assert_eq!(p.virtual_mem, 0);
    assert_eq!(p.user, "alice");
    let d = ProcDetails { command: "vim".to_string(), state: "R".to_string(), threads: 2, priority: 20, fd_count: 6 };
    let q = Process::new(sample(), Some(d), "alice");
    assert_eq!(q.command, "vim");
    assert_eq!(q.state, "R");
    assert_eq!(q.threads, 2);
    assert_eq!(q.process_priority, 20);
    assert_eq!(q.fd_count, 6);
    assert_eq!(q.p_u_id, "1000");
    assert_eq!(q.virtual_mem, 20);
    assert_eq!(q.disk_read, 30);
    assert_eq!(q.disk_written, 40);
}

#[test]
fn open_file_count_shown_to_owner_and_root_only() {
    let d = || ProcDetails { command: "vim".to_string(), state: "R".to_string(), threads: 2, priority: 20, fd_count: 6 };
    assert_eq!(Process::new(sample(), Some(d()), "alice").fd_count, 6);
    assert_eq!(Process::new(sample(), Some(d()), "root").fd_count, 6);
    assert_eq!(Process::new(sample(), Some(d()), "bob").fd_count, 0);
    assert_eq!(Process::new(sample(), None, "root").fd_count, 0);
}

#[test]
fn open_file_permission() {
    assert!(may_count_open_files("alice", "alice"));
    assert!(may_count_open_files("root", "alice"));
    assert!(!may_count_open_files("bob", "alice"));
}

#[test]
fn clone_keeps_fields() {
    let p = proc_with(43, "firefox", "alice", Some(42), 80, 300);
    let q = p.clone();
    assert_eq!(process_details(&p), process_details(&q));
    assert_eq!(q.name, "firefox");
}

#[test]
fn words_split_at_any_white_space_on_values() {
    let a = "search  -pid";
    let b = "\t42 ";
    for sep in [" ", "\t", "\n", "\u{2003}"] {
        let joined = format!("{}{}{}", a, sep, b);
        let mut expected = split_words(a);
        expected.extend(split_words(b));
        assert_eq!(split_words(&joined), expected);
    }
}

#[test]
fn command_depends_on_words_on_values() {
    let a = parse_input("kill -pid 7");
    let b = parse_input("  kill\t-pid   7 ");
    match (a.command, b.command) {
        (Command::Kill { pid: x }, Command::Kill { pid: y }) => assert_eq!(x, y),
        _ => panic!("not kills"),
    }
    assert_eq!(a.notice, b.notice);
}

#[test]
fn row_order_antisymmetric_and_transitive_on_values() {
    let l = vec![
        proc_with(3, "b", "x", Some(2), 1, 1),
        proc_with(1, "a", "y", None, 1, 1),
        proc_with(2, "ab", "x", Some(1), 1, 1),
    ];
    let columns = [
        BasicColumn::Pid, BasicColumn::Name, BasicColumn::Cpu, BasicColumn::Mem, BasicColumn::Status,
        BasicColumn::Cmd, BasicColumn::Ppid, BasicColumn::User, BasicColumn::Priority,
    ];
    for c in columns {
        for p in &l {
            for q in &l {
                assert_eq!(q.cmp(p, c), p.cmp(q, c).reverse());
                for r in &l {
                    if p.cmp(q, c) != Ordering::Greater && q.cmp(r, c) != Ordering::Greater {
                        assert_ne!(p.cmp(r, c), Ordering::Greater);
                    }
                }
            }
        }
    }
}

#[test]
fn greater_and_less_split_on_values() {
    let l = sample_list();
    let g = pids(&filter_by_count(&l, CountField::FdCount, Bound::Greater, 5, 0));
    let s = pids(&filter_by_count(&l, CountField::FdCount, Bound::Less, 5, 0));
    assert_eq!(g, vec![1, 43]);
    assert_eq!(s, vec![42]);
    for p in &l {
        let kept = g.contains(&p.pid) as u8 + s.contains(&p.pid) as u8;
        assert!(kept == 1 || (kept == 0 && p.fd_count == 5));
    }
}

#[test]
fn stricter_threshold_keeps_fewer_on_values() {
    let l = sample_list();
    let loose = filter_by_count(&l, CountField::FdCount, Bound::Greater, 4, 0);
    let strict = filter_by_count(&l, CountField::FdCount, Bound::Greater, 120, 0);
    assert_eq!(pids(&strict), pids(&filter_by_count(&loose, CountField::FdCount, Bound::Greater, 120, 0)));
    assert_eq!(pids(&strict), vec![43]);
}

#[test]
fn longer_name_finds_fewer_on_values() {
    let l = sample_list();
    let short = search(&l, SearchBy::Name, "b");
    let long = search(&l, SearchBy::Name, "bash");
    assert_eq!(pids(&short), vec![42, 420]);
    assert_eq!(pids(&long), pids(&search(&short, SearchBy::Name, "bash")));
}

#[test]
fn tie_exactly_on_equal_cell_on_values() {
    let a = proc_with(7, "x", "u", Some(3), 1, 1);
    let mut b = proc_with(7, "x", "u", Some(3), 1, 1);
    b.process_priority = 21;
    let columns = [
        BasicColumn::Pid, BasicColumn::Name, BasicColumn::Cpu, BasicColumn::Mem, BasicColumn::Status,
        BasicColumn::Cmd, BasicColumn::Ppid, BasicColumn::User, BasicColumn::Priority,
    ];
    for c in columns {
        assert_eq!(a.cmp(&b, c) == Ordering::Equal, a.to_column(c) == b.to_column(c));
    }
}
