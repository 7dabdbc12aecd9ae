//! How the process table orders its rows when sorted by a column.
use vstd::prelude::*;
use std::cmp::Ordering;
use crate::columns::{BasicColumn, cell_text};
use crate::decimal::{lemma_u32_text_injective, lemma_i32_text_injective, lemma_i64_text_injective};
use crate::process::Process;
use crate::text::{chars_of, idx};

verus! {

/// Lexicographic order of two texts, character by character: the order of
/// `String::cmp` (UTF-8 keeps the order of code points).
pub open spec fn text_order(a: Seq<char>, b: Seq<char>) -> Ordering
    decreases a.len(),
{
    if a.len() == 0 {
        if b.len() == 0 {
            Ordering::Equal
        } else {
            Ordering::Less
        }
    } else if b.len() == 0 {
        Ordering::Greater
    } else if a[0] < b[0] {
        Ordering::Less
    } else if a[0] > b[0] {
        Ordering::Greater
    } else {
        text_order(a.drop_first(), b.drop_first())
    }
}

/// The opposite of an ordering.
pub open spec fn flipped(o: Ordering) -> Ordering {
    match o {
        Ordering::Less => Ordering::Greater,
        Ordering::Equal => Ordering::Equal,
        Ordering::Greater => Ordering::Less,
    }
}

/// The order of two optional parent ids: no parent comes first.
pub open spec fn parent_order(a: Option<i32>, b: Option<i32>) -> Ordering {
    match (a, b) {
        (None, None) => Ordering::Equal,
        (None, Some(_)) => Ordering::Less,
        (Some(_), None) => Ordering::Greater,
        (Some(x), Some(y)) => if x < y {
            Ordering::Less
        } else if x > y {
            Ordering::Greater
        } else {
            Ordering::Equal
        },
    }
}

/// How rows `p` and `q` compare when the table is sorted by `column`.
/// Texts compare lexicographically (the CPU and memory columns too, as
/// their texts); priority compares highest first.
pub open spec fn row_order(p: Process, q: Process, column: BasicColumn) -> Ordering {
    match column {
        BasicColumn::Name => text_order(p.name@, q.name@),
        BasicColumn::Pid => if p.pid < q.pid {
            Ordering::Less
        } else if p.pid > q.pid {
            Ordering::Greater
        } else {
            Ordering::Equal
        },
        BasicColumn::Cpu => text_order(p.cpu@, q.cpu@),
        BasicColumn::Mem => text_order(p.mem_percentage@, q.mem_percentage@),
        BasicColumn::Status => text_order(p.state@, q.state@),
        BasicColumn::Cmd => text_order(p.command@, q.command@),
        BasicColumn::Ppid => parent_order(p.ppid, q.ppid),
        BasicColumn::User => text_order(p.user@, q.user@),
        BasicColumn::Priority => if p.process_priority > q.process_priority {
            Ordering::Less
        } else if p.process_priority < q.process_priority {
            Ordering::Greater
        } else {
            Ordering::Equal
        },
    }
}

/// Compares two texts lexicographically (`a.cmp(b)`).
pub fn compare_text(a: &str, b: &str) -> (r: Ordering)
    ensures
        r == text_order(a@, b@),
{
    let ca = chars_of(a);
    let cb = chars_of(b);
    let n = ca.len();
    let m = cb.len();
    let mut i: usize = 0;
    assert(a@.skip(idx(i)) =~= a@);
    assert(b@.skip(idx(i)) =~= b@);
    while i < n && i < m
        invariant
            i <= n,
            i <= m,
            n == a@.len(),
            m == b@.len(),
            ca@ == a@,
            cb@ == b@,
            text_order(a@, b@) == text_order(a@.skip(idx(i)), b@.skip(idx(i))),
        decreases n - i,
    {
        let x = ca[i];
        let y = cb[i];
        assert(a@.skip(idx(i))[0] == x);
        assert(b@.skip(idx(i))[0] == y);
        if x < y {
            return Ordering::Less;
        }
        if x > y {
            return Ordering::Greater;
        }
        assert(a@.skip(idx(i)).drop_first() =~= a@.skip(idx(i) + 1));
        assert(b@.skip(idx(i)).drop_first() =~= b@.skip(idx(i) + 1));
        i = i + 1;
    }
    if i < n {
        Ordering::Greater
    } else if i < m {
        Ordering::Less
    } else {
        Ordering::Equal
    }
}

fn compare_u32(a: u32, b: u32) -> (r: Ordering)
    ensures
        r == (if a < b {
            Ordering::Less
        } else if a > b {
            Ordering::Greater
        } else {
            Ordering::Equal
        }),
{
    if a < b {
        Ordering::Less
    } else if a > b {
        Ordering::Greater
    } else {
        Ordering::Equal
    }
}

impl Process {
    /// How this row compares with `other` when the table is sorted by
    /// `column`. The priority column negates both priorities before
    /// comparing them, which overflows for `i64::MIN`: that value is left out.
    pub fn cmp(&self, other: &Self, column: BasicColumn) -> (r: Ordering)
        requires
            column == BasicColumn::Priority ==> self.process_priority != i64::MIN
                && other.process_priority != i64::MIN,
        ensures
            r == row_order(*self, *other, column),
    {
        match column {
            BasicColumn::Name => compare_text(self.name.as_str(), other.name.as_str()),
            BasicColumn::Pid => compare_u32(self.pid, other.pid),
            BasicColumn::Cpu => compare_text(self.cpu.as_str(), other.cpu.as_str()),
            BasicColumn::Mem => compare_text(self.mem_percentage.as_str(), other.mem_percentage.as_str()),
            BasicColumn::Status => compare_text(self.state.as_str(), other.state.as_str()),
            BasicColumn::Cmd => compare_text(self.command.as_str(), other.command.as_str()),
            BasicColumn::Ppid => match (self.ppid, other.ppid) {
                (None, None) => Ordering::Equal,
                (None, Some(_)) => Ordering::Less,
                (Some(_), None) => Ordering::Greater,
                (Some(x), Some(y)) => if x < y {
                    Ordering::Less
                } else if x > y {
                    Ordering::Greater
                } else {
                    Ordering::Equal
                },
            },
            BasicColumn::User => compare_text(self.user.as_str(), other.user.as_str()),
            BasicColumn::Priority => {
                let a = -self.process_priority;
                let b = -other.process_priority;
                if a < b {
                    Ordering::Less
                } else if a > b {
                    Ordering::Greater
                } else {
                    Ordering::Equal
                }
            },
        }
    }
}


proof fn lemma_text_order_flip(a: Seq<char>, b: Seq<char>)
    ensures
        text_order(b, a) == flipped(text_order(a, b)),
    decreases a.len(),
{
    if a.len() > 0 && b.len() > 0 && a[0] == b[0] {
        lemma_text_order_flip(a.drop_first(), b.drop_first());
    }
}

proof fn lemma_text_order_equal(a: Seq<char>, b: Seq<char>)
    ensures
        text_order(a, b) == Ordering::Equal <==> a == b,
    decreases a.len(),
{
    if a.len() > 0 && b.len() > 0 && a[0] == b[0] {
        lemma_text_order_equal(a.drop_first(), b.drop_first());
        if a.drop_first() == b.drop_first() {
            assert(a =~= seq![a[0]] + a.drop_first());
            assert(b =~= seq![b[0]] + b.drop_first());
        }
    } else if a.len() > 0 && b.len() > 0 {
        assert(a[0] != b[0]);
    } else if a.len() == 0 && b.len() == 0 {
        assert(a =~= b);
    } else {
        assert(a.len() != b.len());
    }
}

proof fn lemma_text_order_transitive(a: Seq<char>, b: Seq<char>, c: Seq<char>)
    requires
        text_order(a, b) != Ordering::Greater,
        text_order(b, c) != Ordering::Greater,
    ensures
        text_order(a, c) != Ordering::Greater,
    decreases a.len(),
{
    if a.len() > 0 && b.len() > 0 && c.len() > 0 && a[0] == b[0] && b[0] == c[0] {
        lemma_text_order_transitive(a.drop_first(), b.drop_first(), c.drop_first());
    }
}

/// Sorting by any column compares rows consistently both ways: comparing
/// `q` with `p` gives the opposite of comparing `p` with `q`.
pub proof fn law_row_order_antisymmetric(p: Process, q: Process, column: BasicColumn)
    ensures
        row_order(q, p, column) == flipped(row_order(p, q, column)),
{
    lemma_text_order_flip(p.name@, q.name@);
    lemma_text_order_flip(p.cpu@, q.cpu@);
    lemma_text_order_flip(p.mem_percentage@, q.mem_percentage@);
    lemma_text_order_flip(p.state@, q.state@);
    lemma_text_order_flip(p.command@, q.command@);
    lemma_text_order_flip(p.user@, q.user@);
}

/// Sorting by any column is transitive: if `p` does not come after `q` and
/// `q` does not come after `r`, then `p` does not come after `r`.
pub proof fn law_row_order_transitive(p: Process, q: Process, r: Process, column: BasicColumn)
    requires
        row_order(p, q, column) != Ordering::Greater,
        row_order(q, r, column) != Ordering::Greater,
    ensures
        row_order(p, r, column) != Ordering::Greater,
{
    match column {
        BasicColumn::Name => lemma_text_order_transitive(p.name@, q.name@, r.name@),
        BasicColumn::Cpu => lemma_text_order_transitive(p.cpu@, q.cpu@, r.cpu@),
        BasicColumn::Mem => lemma_text_order_transitive(p.mem_percentage@, q.mem_percentage@, r.mem_percentage@),
        BasicColumn::Status => lemma_text_order_transitive(p.state@, q.state@, r.state@),
        BasicColumn::Cmd => lemma_text_order_transitive(p.command@, q.command@, r.command@),
        BasicColumn::User => lemma_text_order_transitive(p.user@, q.user@, r.user@),
        _ => {},
    }
}

proof fn lemma_push_injective(a: Seq<char>, b: Seq<char>, c: char)
    ensures
        (a.push(c) == b.push(c)) == (a == b),
{
    assert(a.push(c).drop_last() =~= a);
    assert(b.push(c).drop_last() =~= b);
}

/// Two rows tie when the table is sorted by a column exactly when they show
/// the same text in that column.
pub proof fn law_tie_exactly_on_equal_cell(p: Process, q: Process, column: BasicColumn)
    ensures
        (row_order(p, q, column) == Ordering::Equal) == (cell_text(p, column) == cell_text(q, column)),
{
    match column {
        BasicColumn::Name => lemma_text_order_equal(p.name@, q.name@),
        BasicColumn::Pid => lemma_u32_text_injective(p.pid, q.pid),
        BasicColumn::Cpu => {
            lemma_text_order_equal(p.cpu@, q.cpu@);
            lemma_push_injective(p.cpu@, q.cpu@, '%');
        },
        BasicColumn::Mem => {
            lemma_text_order_equal(p.mem_percentage@, q.mem_percentage@);
            lemma_push_injective(p.mem_percentage@, q.mem_percentage@, '%');
        },
        BasicColumn::Status => lemma_text_order_equal(p.state@, q.state@),
        BasicColumn::Cmd => lemma_text_order_equal(p.command@, q.command@),
        BasicColumn::Ppid => match (p.ppid, q.ppid) {
            (Some(x), Some(y)) => lemma_i32_text_injective(x, y),
            (Some(x), None) => lemma_i32_text_injective(x, x),
            (None, Some(y)) => lemma_i32_text_injective(y, y),
            (None, None) => {},
        },
        BasicColumn::User => lemma_text_order_equal(p.user@, q.user@),
        BasicColumn::Priority => lemma_i64_text_injective(p.process_priority, q.process_priority),
    }
}


/// The number columns sort by number: process ids ascending, parent ids
/// ascending with rows without a parent first, and priorities descending.
pub proof fn law_number_columns_sort_by_number(p: Process, q: Process)
    ensures
        (row_order(p, q, BasicColumn::Pid) == Ordering::Less) == (p.pid < q.pid),
        (row_order(p, q, BasicColumn::Pid) == Ordering::Equal) == (p.pid == q.pid),
        (row_order(p, q, BasicColumn::Priority) == Ordering::Less) == (p.process_priority > q.process_priority),
        (row_order(p, q, BasicColumn::Priority) == Ordering::Equal) == (p.process_priority == q.process_priority),
        p.ppid is Some && q.ppid is Some ==> {
            &&& (row_order(p, q, BasicColumn::Ppid) == Ordering::Less) == (p.ppid->0 < q.ppid->0)
            &&& (row_order(p, q, BasicColumn::Ppid) == Ordering::Equal) == (p.ppid->0 == q.ppid->0)
        },
        p.ppid is None && q.ppid is Some ==> row_order(p, q, BasicColumn::Ppid) == Ordering::Less,
        p.ppid is None && q.ppid is None ==> row_order(p, q, BasicColumn::Ppid) == Ordering::Equal,
{
}


/// `a` comes before `b` in dictionary order, witnessed at position `k`: the
/// two agree on their first `k` characters, and there `a` ends while `b`
/// goes on, or `a` has the smaller character.
pub open spec fn before_at(a: Seq<char>, b: Seq<char>, k: int) -> bool {
    &&& 0 <= k <= a.len()
    &&& k <= b.len()
    &&& a.subrange(0, k) == b.subrange(0, k)
    &&& ((k == a.len() && k < b.len()) || (k < a.len() && k < b.len() && a[k] < b[k]))
}

proof fn lemma_text_order_less(a: Seq<char>, b: Seq<char>)
    ensures
        (text_order(a, b) == Ordering::Less) == (exists|k: int| #[trigger] before_at(a, b, k)),
    decreases a.len(),
{
    if a.len() > 0 && b.len() > 0 && a[0] == b[0] {
        let a1 = a.drop_first();
        let b1 = b.drop_first();
        lemma_text_order_less(a1, b1);
        if text_order(a, b) == Ordering::Less {
            let k = choose|k: int| #[trigger] before_at(a1, b1, k);
            assert(a.subrange(0, k + 1) =~= seq![a[0]] + a1.subrange(0, k));
            assert(b.subrange(0, k + 1) =~= seq![b[0]] + b1.subrange(0, k));
            assert(before_at(a, b, k + 1));
        }
        if exists|k: int| #[trigger] before_at(a, b, k) {
            let k = choose|k: int| #[trigger] before_at(a, b, k);
            if k == 0 {
                assert(a[0] < b[0]);
            } else {
                assert(a1.subrange(0, k - 1) =~= a.subrange(0, k).drop_first());
                assert(b1.subrange(0, k - 1) =~= b.subrange(0, k).drop_first());
                assert(before_at(a1, b1, k - 1));
            }
        }
    } else {
        assert(a.subrange(0, 0) =~= b.subrange(0, 0));
        if a.len() == 0 && b.len() > 0 {
            assert(before_at(a, b, 0));
        } else if a.len() > 0 && b.len() > 0 && a[0] < b[0] {
            assert(before_at(a, b, 0));
        }
        if exists|k: int| #[trigger] before_at(a, b, k) {
            let k = choose|k: int| #[trigger] before_at(a, b, k);
            if k > 0 {
                assert(a.subrange(0, k)[0] == b.subrange(0, k)[0]);
            }
        }
    }
}

/// The text columns sort in dictionary order: a row comes first exactly
/// when its text agrees with the other's up to some position where it ends
/// while the other goes on, or has the smaller character.
pub proof fn law_text_columns_sort_in_dictionary_order(p: Process, q: Process)
    ensures
        (row_order(p, q, BasicColumn::Name) == Ordering::Less) == (exists|k: int| #[trigger] before_at(p.name@, q.name@, k)),
        (row_order(p, q, BasicColumn::User) == Ordering::Less) == (exists|k: int| #[trigger] before_at(p.user@, q.user@, k)),
        (row_order(p, q, BasicColumn::Cmd) == Ordering::Less) == (exists|k: int| #[trigger] before_at(p.command@, q.command@, k)),
        (row_order(p, q, BasicColumn::Status) == Ordering::Less) == (exists|k: int| #[trigger] before_at(p.state@, q.state@, k)),
        (row_order(p, q, BasicColumn::Cpu) == Ordering::Less) == (exists|k: int| #[trigger] before_at(p.cpu@, q.cpu@, k)),
        (row_order(p, q, BasicColumn::Mem) == Ordering::Less)
            == (exists|k: int| #[trigger] before_at(p.mem_percentage@, q.mem_percentage@, k)),
{
    lemma_text_order_less(p.name@, q.name@);
    lemma_text_order_less(p.user@, q.user@);
    lemma_text_order_less(p.command@, q.command@);
    lemma_text_order_less(p.state@, q.state@);
    lemma_text_order_less(p.cpu@, q.cpu@);
    lemma_text_order_less(p.mem_percentage@, q.mem_percentage@);
}

} // verus!
