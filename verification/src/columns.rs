//! The columns of the process table and the text shown in each cell.
use vstd::prelude::*;
use crate::decimal::{decimal, signed_decimal, u64_to_decimal, i64_to_decimal, parse_unsigned, law_parse_after_render, lemma_decimal_has_digit_first};
use crate::process::Process;
use crate::text::push_char;

verus! {

/// A column of the process table.
#[derive(Clone, Copy, PartialEq, Eq, Structural, Debug, Hash)]
pub enum BasicColumn {
    Pid,
    Name,
    Cpu,
    Mem,
    Status,
    Cmd,
    Ppid,
    User,
    Priority,
}

/// The short name of a column.
pub open spec fn column_name(c: BasicColumn) -> Seq<char> {
    match c {
        BasicColumn::Pid => "PID"@,
        BasicColumn::Name => "Name"@,
        BasicColumn::Cpu => "CPU%"@,
        BasicColumn::Mem => "MEM%"@,
        BasicColumn::Status => "S"@,
        BasicColumn::Cmd => "CMD"@,
        BasicColumn::Ppid => "PPID"@,
        BasicColumn::User => "User"@,
        BasicColumn::Priority => "Priority"@,
    }
}

/// The text of process `p` in column `c`.
pub open spec fn cell_text(p: Process, c: BasicColumn) -> Seq<char> {
    match c {
        BasicColumn::Name => p.name@,
        BasicColumn::Pid => decimal(p.pid as nat),
        BasicColumn::Cpu => p.cpu@.push('%'),
        BasicColumn::Cmd => p.command@,
        BasicColumn::Mem => p.mem_percentage@.push('%'),
        BasicColumn::Status => p.state@,
        BasicColumn::Ppid => match p.ppid {
            Some(q) => signed_decimal(q as int),
            None => Seq::empty(),
        },
        BasicColumn::User => p.user@,
        BasicColumn::Priority => signed_decimal(p.process_priority as int),
    }
}

impl BasicColumn {
    /// The short name of the column.
    pub fn as_str(&self) -> (r: &'static str)
        ensures
            r@ == column_name(*self),
    {
        match *self {
            BasicColumn::Pid => "PID",
            BasicColumn::Name => "Name",
            BasicColumn::Cpu => "CPU%",
            BasicColumn::Mem => "MEM%",
            BasicColumn::Status => "S",
            BasicColumn::Cmd => "CMD",
            BasicColumn::Ppid => "PPID",
            BasicColumn::User => "User",
            BasicColumn::Priority => "Priority",
        }
    }
}

impl Process {
    /// The text of this process in column `column`.
    pub fn to_column(&self, column: BasicColumn) -> (r: String)
        ensures
            r@ == cell_text(*self, column),
    {
        match column {
            BasicColumn::Name => self.name.clone(),
            BasicColumn::Pid => u64_to_decimal(self.pid as u64),
            BasicColumn::Cpu => {
                let mut s = self.cpu.clone();
                push_char(&mut s, '%');
                s
            },
            BasicColumn::Cmd => self.command.clone(),
            BasicColumn::Mem => {
                let mut s = self.mem_percentage.clone();
                push_char(&mut s, '%');
                s
            },
            BasicColumn::Status => self.state.clone(),
            BasicColumn::Ppid => match self.ppid {
                Some(q) => i64_to_decimal(q as i64),
                None => String::new(),
            },
            BasicColumn::User => self.user.clone(),
            BasicColumn::Priority => i64_to_decimal(self.process_priority),
        }
    }
}


/// Each cell shows its field: the text fields as they are, the percentages
/// followed by `%`, and the numbers in decimal, so that reading a number
/// cell back gives the number; a row without a parent shows an empty parent
/// cell, and a negative priority is shown with a minus sign.
pub proof fn law_cells_show_their_fields(p: Process)
    ensures
        cell_text(p, BasicColumn::Name) == p.name@,
        cell_text(p, BasicColumn::User) == p.user@,
        cell_text(p, BasicColumn::Cmd) == p.command@,
        cell_text(p, BasicColumn::Status) == p.state@,
        cell_text(p, BasicColumn::Cpu).drop_last() == p.cpu@ && cell_text(p, BasicColumn::Cpu).last() == '%',
        cell_text(p, BasicColumn::Mem).drop_last() == p.mem_percentage@
            && cell_text(p, BasicColumn::Mem).last() == '%',
        parse_unsigned(cell_text(p, BasicColumn::Pid), 4294967295nat) == Some(p.pid as nat),
        (cell_text(p, BasicColumn::Ppid).len() == 0) == (p.ppid is None),
        p.ppid is Some && p.ppid->0 >= 0
            ==> parse_unsigned(cell_text(p, BasicColumn::Ppid), 2147483647nat) == Some(p.ppid->0 as nat),
        p.ppid is Some && p.ppid->0 < 0 ==> cell_text(p, BasicColumn::Ppid)[0] == '-'
            && parse_unsigned(cell_text(p, BasicColumn::Ppid).drop_first(), 2147483648nat) == Some((-p.ppid->0) as nat),
        p.process_priority >= 0 ==> parse_unsigned(cell_text(p, BasicColumn::Priority), 9223372036854775807nat)
            == Some(p.process_priority as nat),
        p.process_priority < 0 ==> cell_text(p, BasicColumn::Priority)[0] == '-'
            && parse_unsigned(cell_text(p, BasicColumn::Priority).drop_first(), 9223372036854775808nat)
                == Some((-p.process_priority) as nat),
{
    assert(p.cpu@.push('%').drop_last() =~= p.cpu@);
    assert(p.mem_percentage@.push('%').drop_last() =~= p.mem_percentage@);
    law_parse_after_render(p.pid as nat, 4294967295nat);
    if let Some(x) = p.ppid {
        if x >= 0 {
            law_parse_after_render(x as nat, 2147483647nat);
            lemma_decimal_has_digit_first(x as nat);
        } else {
            law_parse_after_render((-x) as nat, 2147483648nat);
            assert((seq!['-'] + decimal((-x) as nat)).drop_first() =~= decimal((-x) as nat));
        }
    }
    let r = p.process_priority;
    if r >= 0 {
        law_parse_after_render(r as nat, 9223372036854775807nat);
    } else {
        law_parse_after_render((-r) as nat, 9223372036854775808nat);
        assert((seq!['-'] + decimal((-r) as nat)).drop_first() =~= decimal((-r) as nat));
    }
}

} // verus!
