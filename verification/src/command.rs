//! The command line of the task manager: what a line typed by the user asks
//! for.
use vstd::prelude::*;
use crate::filter::{Bound, CountField, SearchBy};
use crate::text::str_eq;
use crate::words::{split_words, texts, words};

verus! {

/// What a filter command looks at.
#[derive(Clone, Copy, PartialEq, Eq, Structural, Debug)]
pub enum FilterBy {
    Cpu,
    Mem,
    Threads,
    FdCount,
}

impl FilterBy {
    /// The whole-number counter that this filter reads, if it reads one
    /// (`Cpu` and `Mem` read percentages).
    pub fn count_field(self) -> (r: Option<CountField>)
        ensures
            r == (match self {
                FilterBy::Threads => Some(CountField::Threads),
                FilterBy::FdCount => Some(CountField::FdCount),
                _ => None::<CountField>,
            }),
    {
        match self {
            FilterBy::Threads => Some(CountField::Threads),
            FilterBy::FdCount => Some(CountField::FdCount),
            _ => None,
        }
    }
}

/// A command the user asked for.
pub enum Command {
    /// Show the complete process table.
    ShowFullTable,
    /// Show the processes found by a search.
    Search { by: SearchBy, value: String },
    /// Kill the processes whose id reads as `pid`.
    Kill { pid: String },
    /// Show the processes that pass a filter; `value2` is a single space
    /// where no second value was given.
    Filter { field: FilterBy, bound: Bound, value: String, value2: String },
    /// Show the list of commands (`show -help`).
    ShowHelp,
    /// Anything else: the list of commands is shown.
    Unrecognized,
}

/// The text-level content of a [`Command`].
pub enum CommandSpec {
    ShowFullTable,
    Search { by: SearchBy, value: Seq<char> },
    Kill { pid: Seq<char> },
    Filter { field: FilterBy, bound: Bound, value: Seq<char>, value2: Seq<char> },
    ShowHelp,
    Unrecognized,
}

impl View for Command {
    type V = CommandSpec;

    open spec fn view(&self) -> CommandSpec {
        match self {
            Command::ShowFullTable => CommandSpec::ShowFullTable,
            Command::Search { by, value } => CommandSpec::Search { by: *by, value: value@ },
            Command::Kill { pid } => CommandSpec::Kill { pid: pid@ },
            Command::Filter { field, bound, value, value2 } => CommandSpec::Filter {
                field: *field,
                bound: *bound,
                value: value@,
                value2: value2@,
            },
            Command::ShowHelp => CommandSpec::ShowHelp,
            Command::Unrecognized => CommandSpec::Unrecognized,
        }
    }
}

/// A remark shown before the command is carried out.
#[derive(Clone, Copy, PartialEq, Eq, Structural, Debug)]
pub enum InputNotice {
    /// The line was empty: the user is asked to enter a command.
    EmptyInput,
    /// The line did not have two to five words: the list of commands is shown.
    WrongWordCount,
}

/// A parsed input line: an optional remark, then the command.
pub struct ParsedInput {
    pub notice: Option<InputNotice>,
    pub command: Command,
}

/// A single space: the value of an argument that was not given.
pub open spec fn blank() -> Seq<char> {
    seq![' ']
}

/// The five argument slots (command word, then four arguments) that a line
/// with the words `w` fills; slots without a word hold a single space, and a
/// line that does not have two to five words fills none.
pub open spec fn slots(w: Seq<Seq<char>>) -> Seq<Seq<char>> {
    if 2 <= w.len() <= 5 {
        Seq::new(5, |i: int| if i < w.len() { w[i] } else { blank() })
    } else {
        Seq::new(5, |i: int| blank())
    }
}

/// The search that a `search` flag names.
pub open spec fn search_flag(f: Seq<char>) -> Option<SearchBy> {
    if f == "-user"@ {
        Some(SearchBy::User)
    } else if f == "-uid"@ {
        Some(SearchBy::PUid)
    } else if f == "-name"@ {
        Some(SearchBy::Name)
    } else if f == "-pid"@ {
        Some(SearchBy::PiD)
    } else if f == "-ppid"@ {
        Some(SearchBy::PpPid)
    } else {
        None
    }
}

/// The comparison that a `filter` flag names.
pub open spec fn bound_flag(f: Seq<char>) -> Option<Bound> {
    if f == "-greater"@ {
        Some(Bound::Greater)
    } else if f == "-less"@ {
        Some(Bound::Less)
    } else if f == "-range"@ {
        Some(Bound::Range)
    } else {
        None
    }
}

/// The column that a `filter` flag names.
pub open spec fn field_flag(f: Seq<char>) -> Option<FilterBy> {
    if f == "-cpu"@ {
        Some(FilterBy::Cpu)
    } else if f == "-mem"@ {
        Some(FilterBy::Mem)
    } else if f == "-threads"@ {
        Some(FilterBy::Threads)
    } else if f == "-fd"@ {
        Some(FilterBy::FdCount)
    } else {
        None
    }
}

/// The command that the line `line` asks for.
pub open spec fn interpret(line: Seq<char>) -> CommandSpec {
    let s = slots(words(line));
    if line == "show full table"@ {
        CommandSpec::ShowFullTable
    } else if s[0] == "search"@ && search_flag(s[1]) is Some {
        CommandSpec::Search { by: search_flag(s[1])->0, value: s[2] }
    } else if s[0] == "kill"@ && s[1] == "-pid"@ {
        CommandSpec::Kill { pid: s[2] }
    } else if s[0] == "filter"@ && bound_flag(s[1]) is Some && field_flag(s[2]) is Some {
        CommandSpec::Filter { field: field_flag(s[2])->0, bound: bound_flag(s[1])->0, value: s[3], value2: s[4] }
    } else if s[0] == "show"@ && s[1] == "-help"@ {
        CommandSpec::ShowHelp
    } else {
        CommandSpec::Unrecognized
    }
}

/// The remark that the line `line` gets before its command runs.
pub open spec fn notice_for(line: Seq<char>) -> Option<InputNotice> {
    if line.len() == 0 {
        Some(InputNotice::EmptyInput)
    } else if !(2 <= words(line).len() <= 5) {
        Some(InputNotice::WrongWordCount)
    } else {
        None
    }
}


fn read_search_flag(f: &str) -> (r: Option<SearchBy>)
    ensures
        r == search_flag(f@),
{
    if str_eq(f, "-user") {
        Some(SearchBy::User)
    } else if str_eq(f, "-uid") {
        Some(SearchBy::PUid)
    } else if str_eq(f, "-name") {
        Some(SearchBy::Name)
    } else if str_eq(f, "-pid") {
        Some(SearchBy::PiD)
    } else if str_eq(f, "-ppid") {
        Some(SearchBy::PpPid)
    } else {
        None
    }
}

fn read_bound_flag(f: &str) -> (r: Option<Bound>)
    ensures
        r == bound_flag(f@),
{
    if str_eq(f, "-greater") {
        Some(Bound::Greater)
    } else if str_eq(f, "-less") {
        Some(Bound::Less)
    } else if str_eq(f, "-range") {
        Some(Bound::Range)
    } else {
        None
    }
}

fn read_field_flag(f: &str) -> (r: Option<FilterBy>)
    ensures
        r == field_flag(f@),
{
    if str_eq(f, "-cpu") {
        Some(FilterBy::Cpu)
    } else if str_eq(f, "-mem") {
        Some(FilterBy::Mem)
    } else if str_eq(f, "-threads") {
        Some(FilterBy::Threads)
    } else if str_eq(f, "-fd") {
        Some(FilterBy::FdCount)
    } else {
        None
    }
}

/// The five argument slots of a line whose words are `ws`.
fn fill_slots(ws: &Vec<String>) -> (r: Vec<String>)
    ensures
        texts(r@) == slots(texts(ws@)),
{
    let n = ws.len();
    let mut r: Vec<String> = Vec::new();
    let mut i: usize = 0;
    proof {
        reveal_strlit(" ");
    }
    while i < 5
        invariant
            i <= 5,
            n == ws@.len(),
            r@.len() == i,
            " "@ == blank(),
            forall|k: int| 0 <= k < i ==> #[trigger] r@[k]@ == slots(texts(ws@))[k],
        decreases 5 - i,
    {
        if 2 <= n && n <= 5 && i < n {
            r.push(ws[i].clone());
        } else {
            r.push(String::from_str(" "));
        }
        i = i + 1;
    }
    assert(texts(r@) =~= slots(texts(ws@)));
    r
}

/// Reads the line that the user entered: the remark it gets, if any, and the
/// command it asks for.
pub fn parse_input(line: &str) -> (res: ParsedInput)
    ensures
        res.notice == notice_for(line@),
        res.command@ == interpret(line@),
{
    let ws = split_words(line);
    let s = fill_slots(&ws);
    let notice = if line.unicode_len() == 0 {
        Some(InputNotice::EmptyInput)
    } else if !(2 <= ws.len() && ws.len() <= 5) {
        Some(InputNotice::WrongWordCount)
    } else {
        None
    };
    assert(texts(s@).len() == 5);
    assert(s@.len() == 5);
    assert(texts(s@)[0] == s@[0]@);
    assert(texts(s@)[1] == s@[1]@);
    assert(texts(s@)[2] == s@[2]@);
    assert(texts(s@)[3] == s@[3]@);
    assert(texts(s@)[4] == s@[4]@);
    assert(s@[0]@ == slots(words(line@))[0]);
    assert(s@[1]@ == slots(words(line@))[1]);
    assert(s@[2]@ == slots(words(line@))[2]);
    assert(s@[3]@ == slots(words(line@))[3]);
    assert(s@[4]@ == slots(words(line@))[4]);
    let command = if str_eq(line, "show full table") {
        Command::ShowFullTable
    } else if str_eq(s[0].as_str(), "search") && read_search_flag(s[1].as_str()).is_some() {
        let by = match read_search_flag(s[1].as_str()) {
            Some(b) => b,
            None => SearchBy::PiD,
        };
        Command::Search { by, value: s[2].clone() }
    } else if str_eq(s[0].as_str(), "kill") && str_eq(s[1].as_str(), "-pid") {
        Command::Kill { pid: s[2].clone() }
    } else if str_eq(s[0].as_str(), "filter") && read_bound_flag(s[1].as_str()).is_some()
        && read_field_flag(s[2].as_str()).is_some() {
        let bound = match read_bound_flag(s[1].as_str()) {
            Some(b) => b,
            None => Bound::Greater,
        };
        let field = match read_field_flag(s[2].as_str()) {
            Some(b) => b,
            None => FilterBy::Cpu,
        };
        Command::Filter { field, bound, value: s[3].clone(), value2: s[4].clone() }
    } else if str_eq(s[0].as_str(), "show") && str_eq(s[1].as_str(), "-help") {
        Command::ShowHelp
    } else {
        Command::Unrecognized
    };
    ParsedInput { notice, command }
}


/// Apart from the one exact line `show full table`, the command depends on
/// the words of the line alone, not on the white space between them.
pub proof fn law_command_depends_on_words(a: Seq<char>, b: Seq<char>)
    requires
        words(a) == words(b),
        a != "show full table"@,
        b != "show full table"@,
    ensures
        interpret(a) == interpret(b),
        notice_for(a) == notice_for(b) || a.len() == 0 || b.len() == 0,
{
}

/// A line that draws a remark (it is empty, or does not have two to five
/// words) asks for no command: the list of commands is shown.
pub proof fn law_remarked_line_is_unrecognized(line: Seq<char>)
    requires
        notice_for(line) is Some,
    ensures
        interpret(line) == CommandSpec::Unrecognized,
{
    reveal_strlit("show full table");
    reveal_strlit("search");
    reveal_strlit("kill");
    reveal_strlit("filter");
    reveal_strlit("show");
    if line == "show full table"@ {
        reveal_with_fuel(crate::words::split_from, 16);
        assert(words(line).len() == 3);
    }
    if line.len() == 0 {
        assert(words(line).len() == 0);
    }
    let s = slots(words(line));
    assert(s[0] == blank());
    assert(s[0] != "search"@);
    assert(s[0] != "kill"@);
    assert(s[0] != "filter"@);
    assert(s[0] != "show"@);
}


/// The argument at position `i` of a line with the words `w`: the word, or a
/// single space where the line has no word there.
pub open spec fn argument(w: Seq<Seq<char>>, i: int) -> Seq<char> {
    if i < w.len() {
        w[i]
    } else {
        seq![' ']
    }
}

proof fn reveal_command_words()
    ensures
        "search"@ != "kill"@,
        "search"@ != "filter"@,
        "search"@ != "show"@,
        "kill"@ != "filter"@,
        "kill"@ != "show"@,
        "filter"@ != "show"@,
        "-user"@ != "-uid"@,
        "-user"@ != "-name"@,
        "-user"@ != "-pid"@,
        "-user"@ != "-ppid"@,
        "-uid"@ != "-name"@,
        "-uid"@ != "-pid"@,
        "-uid"@ != "-ppid"@,
        "-name"@ != "-pid"@,
        "-name"@ != "-ppid"@,
        "-pid"@ != "-ppid"@,
        "-greater"@ != "-less"@,
        "-greater"@ != "-range"@,
        "-less"@ != "-range"@,
        "-cpu"@ != "-mem"@,
        "-cpu"@ != "-threads"@,
        "-cpu"@ != "-fd"@,
        "-mem"@ != "-threads"@,
        "-mem"@ != "-fd"@,
        "-threads"@ != "-fd"@,
{
    reveal_strlit("search");
    reveal_strlit("kill");
    reveal_strlit("filter");
    reveal_strlit("show");
    reveal_strlit("-user");
    reveal_strlit("-uid");
    reveal_strlit("-name");
    reveal_strlit("-pid");
    reveal_strlit("-ppid");
    reveal_strlit("-greater");
    reveal_strlit("-less");
    reveal_strlit("-range");
    reveal_strlit("-cpu");
    reveal_strlit("-mem");
    reveal_strlit("-threads");
    reveal_strlit("-fd");
    assert("search"@[0] != "filter"@[0]);
    assert("search"@[0] != "show"@[1] || "search"@.len() != "show"@.len());
    assert("-user"@[1] != "-uid"@[1] || "-user"@[2] != "-uid"@[2]);
    assert("-user"@[2] != "-uid"@[2]);
    assert("-pid"@[1] != "-ppid"@[2] || "-pid"@.len() != "-ppid"@.len());
    assert("-pid"@[1] != "-uid"@[1]);
    assert("-cpu"@[1] != "-fd"@[1] || "-cpu"@.len() != "-fd"@.len());
    assert("-cpu"@[1] != "-mem"@[1]);
    assert("-less"@[1] != "-range"@[1]);
    assert("kill"@[0] != "show"@[0]);
    assert("-name"@[1] != "-ppid"@[1]);
}

/// The argument at position `i` of the line `line`: its word there, or a
/// single space where it has none.
pub open spec fn arg(line: Seq<char>, i: int) -> Seq<char> {
    argument(words(line), i)
}

proof fn slots_are_arguments(line: Seq<char>)
    requires
        2 <= words(line).len() <= 5,
    ensures
        slots(words(line))[0] == arg(line, 0),
        slots(words(line))[1] == arg(line, 1),
        slots(words(line))[2] == arg(line, 2),
        slots(words(line))[3] == arg(line, 3),
        slots(words(line))[4] == arg(line, 4),
{
}

/// `search <flag> <value>` searches by the field that the flag names for
/// the third word (a single space where there is none).
pub proof fn law_search_lines(line: Seq<char>)
    requires
        line != "show full table"@,
        2 <= words(line).len() <= 5,
    ensures
        arg(line, 0) == "search"@ && arg(line, 1) == "-user"@
            ==> interpret(line) == (CommandSpec::Search { by: SearchBy::User, value: arg(line, 2) }),
        arg(line, 0) == "search"@ && arg(line, 1) == "-uid"@
            ==> interpret(line) == (CommandSpec::Search { by: SearchBy::PUid, value: arg(line, 2) }),
        arg(line, 0) == "search"@ && arg(line, 1) == "-name"@
            ==> interpret(line) == (CommandSpec::Search { by: SearchBy::Name, value: arg(line, 2) }),
        arg(line, 0) == "search"@ && arg(line, 1) == "-pid"@
            ==> interpret(line) == (CommandSpec::Search { by: SearchBy::PiD, value: arg(line, 2) }),
        arg(line, 0) == "search"@ && arg(line, 1) == "-ppid"@
            ==> interpret(line) == (CommandSpec::Search { by: SearchBy::PpPid, value: arg(line, 2) }),
{
    reveal_command_words();
    slots_are_arguments(line);
}

/// `kill -pid <pid>` kills by the third word, `show -help` shows the list
/// of commands, and a line whose first word is none of `search`, `kill`,
/// `filter` and `show` asks for nothing.
pub proof fn law_kill_help_and_other_lines(line: Seq<char>)
    requires
        line != "show full table"@,
        2 <= words(line).len() <= 5,
    ensures
        arg(line, 0) == "kill"@ && arg(line, 1) == "-pid"@ ==> interpret(line) == (CommandSpec::Kill { pid: arg(line, 2) }),
        arg(line, 0) == "show"@ && arg(line, 1) == "-help"@ ==> interpret(line) == CommandSpec::ShowHelp,
        arg(line, 0) != "search"@ && arg(line, 0) != "kill"@ && arg(line, 0) != "filter"@ && arg(line, 0) != "show"@
            ==> interpret(line) == CommandSpec::Unrecognized,
{
    reveal_command_words();
    slots_are_arguments(line);
}

/// `filter -greater <column> <value> [<value>]` filters the named column with
/// the fourth and fifth words as values (a single space where there is none).
pub proof fn law_filter_greater_lines(line: Seq<char>)
    requires
        line != "show full table"@,
        2 <= words(line).len() <= 5,
    ensures
        arg(line, 0) == "filter"@ && arg(line, 1) == "-greater"@ && arg(line, 2) == "-cpu"@
            ==> interpret(line) == (CommandSpec::Filter { field: FilterBy::Cpu, bound: Bound::Greater, value: arg(line, 3), value2: arg(line, 4) }),
        arg(line, 0) == "filter"@ && arg(line, 1) == "-greater"@ && arg(line, 2) == "-mem"@
            ==> interpret(line) == (CommandSpec::Filter { field: FilterBy::Mem, bound: Bound::Greater, value: arg(line, 3), value2: arg(line, 4) }),
        arg(line, 0) == "filter"@ && arg(line, 1) == "-greater"@ && arg(line, 2) == "-threads"@
            ==> interpret(line) == (CommandSpec::Filter { field: FilterBy::Threads, bound: Bound::Greater, value: arg(line, 3), value2: arg(line, 4) }),
        arg(line, 0) == "filter"@ && arg(line, 1) == "-greater"@ && arg(line, 2) == "-fd"@
            ==> interpret(line) == (CommandSpec::Filter { field: FilterBy::FdCount, bound: Bound::Greater, value: arg(line, 3), value2: arg(line, 4) }),
{
    reveal_command_words();
    slots_are_arguments(line);
}

/// `filter -less <column> <value> [<value>]` filters the named column with
/// the fourth and fifth words as values (a single space where there is none).
pub proof fn law_filter_less_lines(line: Seq<char>)
    requires
        line != "show full table"@,
        2 <= words(line).len() <= 5,
    ensures
        arg(line, 0) == "filter"@ && arg(line, 1) == "-less"@ && arg(line, 2) == "-cpu"@
            ==> interpret(line) == (CommandSpec::Filter { field: FilterBy::Cpu, bound: Bound::Less, value: arg(line, 3), value2: arg(line, 4) }),
        arg(line, 0) == "filter"@ && arg(line, 1) == "-less"@ && arg(line, 2) == "-mem"@
            ==> interpret(line) == (CommandSpec::Filter { field: FilterBy::Mem, bound: Bound::Less, value: arg(line, 3), value2: arg(line, 4) }),
        arg(line, 0) == "filter"@ && arg(line, 1) == "-less"@ && arg(line, 2) == "-threads"@
            ==> interpret(line) == (CommandSpec::Filter { field: FilterBy::Threads, bound: Bound::Less, value: arg(line, 3), value2: arg(line, 4) }),
        arg(line, 0) == "filter"@ && arg(line, 1) == "-less"@ && arg(line, 2) == "-fd"@
            ==> interpret(line) == (CommandSpec::Filter { field: FilterBy::FdCount, bound: Bound::Less, value: arg(line, 3), value2: arg(line, 4) }),
{
    reveal_command_words();
    slots_are_arguments(line);
}

/// `filter -range <column> <value> [<value>]` filters the named column with
/// the fourth and fifth words as values (a single space where there is none).
pub proof fn law_filter_range_lines(line: Seq<char>)
    requires
        line != "show full table"@,
        2 <= words(line).len() <= 5,
    ensures
        arg(line, 0) == "filter"@ && arg(line, 1) == "-range"@ && arg(line, 2) == "-cpu"@
            ==> interpret(line) == (CommandSpec::Filter { field: FilterBy::Cpu, bound: Bound::Range, value: arg(line, 3), value2: arg(line, 4) }),
        arg(line, 0) == "filter"@ && arg(line, 1) == "-range"@ && arg(line, 2) == "-mem"@
            ==> interpret(line) == (CommandSpec::Filter { field: FilterBy::Mem, bound: Bound::Range, value: arg(line, 3), value2: arg(line, 4) }),
        arg(line, 0) == "filter"@ && arg(line, 1) == "-range"@ && arg(line, 2) == "-threads"@
            ==> interpret(line) == (CommandSpec::Filter { field: FilterBy::Threads, bound: Bound::Range, value: arg(line, 3), value2: arg(line, 4) }),
        arg(line, 0) == "filter"@ && arg(line, 1) == "-range"@ && arg(line, 2) == "-fd"@
            ==> interpret(line) == (CommandSpec::Filter { field: FilterBy::FdCount, bound: Bound::Range, value: arg(line, 3), value2: arg(line, 4) }),
{
    reveal_command_words();
    slots_are_arguments(line);
}

} // verus!
