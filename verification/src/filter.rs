//! Searching and filtering the process list.
use vstd::prelude::*;
use crate::decimal::{decimal, parse_unsigned, parse_unsigned_max, signed_decimal, i64_to_decimal, u64_to_decimal, law_parse_after_render, lemma_u32_text_injective};
use crate::process::Process;
use crate::text::{has_substring, lemma_substring_transitive, str_contains, str_eq};

verus! {

/// What a search looks at.
#[derive(Clone, Copy, PartialEq, Eq, Structural, Debug)]
pub enum SearchBy {
    /// The process id, compared as a number.
    PiD,
    /// The owner's name, which must equal the value.
    User,
    /// The owner's user id, which must equal the value.
    PUid,
    /// The parent's process id, whose decimal text must equal the value;
    /// processes without a parent are never found.
    PpPid,
    /// The process name, which must contain the value.
    Name,
}

/// The counters that can be filtered by whole numbers.
#[derive(Clone, Copy, PartialEq, Eq, Structural, Debug)]
pub enum CountField {
    Threads,
    FdCount,
}

/// How a filter compares a counter with its bounds.
#[derive(Clone, Copy, PartialEq, Eq, Structural, Debug)]
pub enum Bound {
    /// Strictly above the first value.
    Greater,
    /// Strictly below the first value.
    Less,
    /// Strictly between the first and the second value.
    Range,
}

/// Whether process `p` is found by a search on `by` for `value`.
pub open spec fn search_matches(p: Process, by: SearchBy, value: Seq<char>) -> bool {
    match by {
        SearchBy::PiD => parse_unsigned(value, u32::MAX as nat) == Some(p.pid as nat),
        SearchBy::User => p.user@ == value,
        SearchBy::PUid => p.p_u_id@ == value,
        SearchBy::PpPid => p.ppid matches Some(q) && signed_decimal(q as int) == value,
        SearchBy::Name => has_substring(p.name@, value),
    }
}

/// The inputs on which a search runs to its end: a process-id search needs
/// a value that reads as a `u32`.
pub open spec fn search_defined(by: SearchBy, value: Seq<char>) -> bool {
    match by {
        SearchBy::PiD => parse_unsigned(value, u32::MAX as nat) is Some,
        _ => true,
    }
}

/// The processes that a search keeps, in their order.
pub open spec fn search_result(procs: Seq<Process>, by: SearchBy, value: Seq<char>) -> Seq<Process> {
    procs.filter(|p: Process| search_matches(p, by, value))
}

fn matches_search(p: &Process, by: SearchBy, value: &str, target: u32) -> (r: bool)
    requires
        by == SearchBy::PiD ==> parse_unsigned(value@, u32::MAX as nat) == Some(target as nat),
    ensures
        r == search_matches(*p, by, value@),
{
    match by {
        SearchBy::PiD => p.pid == target,
        SearchBy::User => str_eq(p.user.as_str(), value),
        SearchBy::PUid => str_eq(p.p_u_id.as_str(), value),
        SearchBy::PpPid => {
            match p.ppid {
                Some(q) => {
                    let text = i64_to_decimal(q as i64);
                    str_eq(text.as_str(), value)
                },
                None => false,
            }
        },
        SearchBy::Name => str_contains(p.name.as_str(), value),
    }
}

/// The processes found by a search on `by` for `value`, in their order.
pub fn search(procs: &Vec<Process>, by: SearchBy, value: &str) -> (res: Vec<Process>)
    requires
        search_defined(by, value@),
    ensures
        res@ == search_result(procs@, by, value@),
{
    let target: u32 = if by == SearchBy::PiD {
        match parse_unsigned_max(value, 4294967295u64) {
            Some(v) => v as u32,
            None => 0,
        }
    } else {
        0
    };
    let ghost pred = |p: Process| search_matches(p, by, value@);
    let mut res: Vec<Process> = Vec::new();
    let n = procs.len();
    let mut i: usize = 0;
    while i < n
        invariant
            i <= n,
            n == procs@.len(),
            search_defined(by, value@),
            by == SearchBy::PiD ==> parse_unsigned(value@, u32::MAX as nat) == Some(target as nat),
            pred == (|p: Process| search_matches(p, by, value@)),
            res@ == procs@.subrange(0, i as int).filter(pred),
        decreases n - i,
    {
        let p = &procs[i];
        proof {
            procs@.subrange(0, i as int).lemma_filter_push(procs@[i as int], pred);
            assert(procs@.subrange(0, i + 1) =~= procs@.subrange(0, i as int).push(procs@[i as int]));
        }
        if matches_search(p, by, value, target) {
            res.push(p.clone());
        }
        i = i + 1;
    }
    assert(procs@.subrange(0, n as int) =~= procs@);
    res
}


/// The value of a counter of process `p`.
pub open spec fn count_of(p: Process, field: CountField) -> int {
    match field {
        CountField::Threads => p.threads as int,
        CountField::FdCount => p.fd_count as int,
    }
}

/// The largest value of the integer type in which a counter is held.
pub open spec fn count_max(field: CountField) -> nat {
    match field {
        CountField::Threads => u64::MAX as nat,
        CountField::FdCount => usize::MAX as nat,
    }
}

/// Whether `x` passes a filter with the given bounds.
pub open spec fn within(x: int, bound: Bound, n: int, n2: int) -> bool {
    match bound {
        Bound::Greater => x > n,
        Bound::Less => x < n,
        Bound::Range => x > n && x < n2,
    }
}

/// The processes that a counter filter keeps, in their order.
pub open spec fn filter_result(procs: Seq<Process>, field: CountField, bound: Bound, n: int, n2: int) -> Seq<Process> {
    procs.filter(|p: Process| within(count_of(p, field), bound, n, n2))
}

fn count_value(p: &Process, field: CountField) -> (r: u64)
    ensures
        r as int == count_of(*p, field),
{
    match field {
        CountField::Threads => p.threads,
        CountField::FdCount => p.fd_count as u64,
    }
}

/// The processes whose counter `field` lies within the bounds `n` and `n2`.
pub fn filter_by_count(procs: &Vec<Process>, field: CountField, bound: Bound, n: u64, n2: u64) -> (res: Vec<Process>)
    ensures
        res@ == filter_result(procs@, field, bound, n as int, n2 as int),
{
    let ghost pred = |p: Process| within(count_of(p, field), bound, n as int, n2 as int);
    let mut res: Vec<Process> = Vec::new();
    let len = procs.len();
    let mut i: usize = 0;
    while i < len
        invariant
            i <= len,
            len == procs@.len(),
            pred == (|p: Process| within(count_of(p, field), bound, n as int, n2 as int)),
            res@ == procs@.subrange(0, i as int).filter(pred),
        decreases len - i,
    {
        let p = &procs[i];
        proof {
            procs@.subrange(0, i as int).lemma_filter_push(procs@[i as int], pred);
            assert(procs@.subrange(0, i + 1) =~= procs@.subrange(0, i as int).push(procs@[i as int]));
        }
        let x = count_value(p, field);
        let keep = match bound {
            Bound::Greater => x > n,
            Bound::Less => x < n,
            Bound::Range => x > n && x < n2,
        };
        if keep {
            res.push(p.clone());
        }
        i = i + 1;
    }
    assert(procs@.subrange(0, len as int) =~= procs@);
    res
}

/// The bounds that a counter filter reads from its two values: the first
/// value, and the second one, or 0 where the second value is a single space
/// (it was not given). `None` where a value does not read as a number of
/// the counter's type.
pub open spec fn filter_bounds(field: CountField, value: Seq<char>, value2: Seq<char>) -> Option<(nat, nat)> {
    let first = parse_unsigned(value, count_max(field));
    let second = if value2 == seq![' '] { Some(0nat) } else { parse_unsigned(value2, count_max(field)) };
    match (first, second) {
        (Some(a), Some(b)) => Some((a, b)),
        _ => None,
    }
}

/// Reads the bounds of a counter filter from its text values.
pub fn read_filter_bounds(field: CountField, value: &str, value2: &str) -> (r: Option<(u64, u64)>)
    ensures
        r is Some <==> filter_bounds(field, value@, value2@) is Some,
        r matches Some(b) ==> filter_bounds(field, value@, value2@) == Some((b.0 as nat, b.1 as nat)),
{
    let max: u64 = match field {
        CountField::Threads => 18446744073709551615u64,
        CountField::FdCount => usize::MAX as u64,
    };
    let first = parse_unsigned_max(value, max);
    let unset = str_eq(value2, " ");
    proof {
        reveal_strlit(" ");
        assert(" "@ =~= seq![' ']);
    }
    let second = if unset { Some(0u64) } else { parse_unsigned_max(value2, max) };
    match (first, second) {
        (Some(a), Some(b)) => Some((a, b)),
        _ => None,
    }
}

/// A counter filter as the filter command gives it: the counter, how it is
/// bounded, and the bound values as text.
pub fn filter_by_count_text(procs: &Vec<Process>, field: CountField, bound: Bound, value: &str, value2: &str) -> (res: Vec<Process>)
    requires
        filter_bounds(field, value@, value2@) is Some,
    ensures
        ({
            let (n, n2) = filter_bounds(field, value@, value2@)->0;
            res@ == filter_result(procs@, field, bound, n as int, n2 as int)
        }),
{
    let (n, n2) = match read_filter_bounds(field, value, value2) {
        Some(b) => b,
        None => (0, 0),
    };
    filter_by_count(procs, field, bound, n, n2)
}


/// Filtering by `p` and then by `q` keeps what filtering once by both keeps.
proof fn lemma_filter_twice(s: Seq<Process>, p: spec_fn(Process) -> bool, q: spec_fn(Process) -> bool)
    ensures
        s.filter(p).filter(q) == s.filter(|x: Process| p(x) && q(x)),
    decreases s.len(),
{
    let both = |x: Process| p(x) && q(x);
    reveal(Seq::filter);
    if s.len() > 0 {
        lemma_filter_twice(s.drop_last(), p, q);
        let inner = s.drop_last().filter(p);
        if p(s.last()) {
            inner.lemma_filter_push(s.last(), q);
        }
    }
}

/// A range filter keeps exactly what remains after a `Greater` filter on the
/// first value followed by a `Less` filter on the second.
pub proof fn law_range_is_greater_then_less(procs: Seq<Process>, field: CountField, n: int, n2: int)
    ensures
        filter_result(procs, field, Bound::Range, n, n2)
            == filter_result(filter_result(procs, field, Bound::Greater, n, n2), field, Bound::Less, n2, n2),
{
    let g = |p: Process| within(count_of(p, field), Bound::Greater, n, n2);
    let l = |p: Process| within(count_of(p, field), Bound::Less, n2, n2);
    let r = |p: Process| within(count_of(p, field), Bound::Range, n, n2);
    lemma_filter_twice(procs, g, l);
    assert((|x: Process| g(x) && l(x)) =~= r);
}

/// A range whose upper value is at most one above its lower value keeps
/// nothing; in particular a range filter given one value (the upper value
/// then being 0) keeps no process.
pub proof fn law_empty_range_keeps_nothing(procs: Seq<Process>, field: CountField, n: int, n2: int)
    requires
        n2 <= n + 1,
    ensures
        filter_result(procs, field, Bound::Range, n, n2).len() == 0,
{
    let r = |p: Process| within(count_of(p, field), Bound::Range, n, n2);
    let out = procs.filter(r);
    if out.len() > 0 {
        procs.lemma_filter_pred(r, 0);
    }
}


/// Whether a kill for the text `pid` reaches process `p`: its id, written
/// in decimal, is that text.
pub open spec fn kill_matches(p: Process, pid: Seq<char>) -> bool {
    decimal(p.pid as nat) == pid
}

/// The system ids of the processes that a kill for the text `pid` reaches,
/// in list order.
pub open spec fn kill_targets_of(procs: Seq<Process>, pid: Seq<char>) -> Seq<i32> {
    procs.filter(|p: Process| kill_matches(p, pid)).map_values(|p: Process| p.piddd)
}

/// The system ids of the processes that `kill -pid <pid>` reaches.
pub fn kill_targets(procs: &Vec<Process>, pid: &str) -> (res: Vec<i32>)
    ensures
        res@ == kill_targets_of(procs@, pid@),
{
    let ghost pred = |p: Process| kill_matches(p, pid@);
    let ghost sys_id = |p: Process| p.piddd;
    let mut res: Vec<i32> = Vec::new();
    let n = procs.len();
    let mut i: usize = 0;
    while i < n
        invariant
            i <= n,
            n == procs@.len(),
            pred == (|p: Process| kill_matches(p, pid@)),
            sys_id == (|p: Process| p.piddd),
            res@ == procs@.subrange(0, i as int).filter(pred).map_values(sys_id),
        decreases n - i,
    {
        let ghost kept = procs@.subrange(0, i as int).filter(pred);
        proof {
            procs@.subrange(0, i as int).lemma_filter_push(procs@[i as int], pred);
            assert(procs@.subrange(0, i + 1) =~= procs@.subrange(0, i as int).push(procs@[i as int]));
        }
        let text = u64_to_decimal(procs[i].pid as u64);
        if str_eq(text.as_str(), pid) {
            res.push(procs[i].piddd);
            assert(kept.push(procs@[i as int]).map_values(sys_id) =~= kept.map_values(sys_id).push(procs@[i as int].piddd));
        }
        i = i + 1;
    }
    assert(procs@.subrange(0, n as int) =~= procs@);
    res
}

/// Killing by a process id written in decimal reaches exactly the processes
/// that searching for that id finds.
pub proof fn law_kill_reaches_what_search_finds(procs: Seq<Process>, n: u32)
    ensures
        procs.filter(|p: Process| kill_matches(p, decimal(n as nat)))
            == search_result(procs, SearchBy::PiD, decimal(n as nat)),
{
    law_parse_after_render(n as nat, u32::MAX as nat);
    let k = |p: Process| kill_matches(p, decimal(n as nat));
    let f = |p: Process| search_matches(p, SearchBy::PiD, decimal(n as nat));
    assert forall|p: Process| #[trigger] k(p) == f(p) by {
        if k(p) {
            law_parse_after_render(p.pid as nat, u32::MAX as nat);
        }
    }
    assert(k =~= f);
}


/// Where `q` is narrower than `p`, filtering by `p` and then by `q` keeps
/// what filtering by `q` alone keeps.
proof fn lemma_filter_narrower(s: Seq<Process>, p: spec_fn(Process) -> bool, q: spec_fn(Process) -> bool)
    requires
        forall|x: Process| #[trigger] q(x) ==> p(x),
    ensures
        s.filter(p).filter(q) == s.filter(q),
{
    lemma_filter_twice(s, p, q);
    assert((|x: Process| p(x) && q(x)) =~= q);
}

/// An element of a filtered sequence passes the filter.
proof fn lemma_kept_passes(s: Seq<Process>, pred: spec_fn(Process) -> bool, x: Process)
    requires
        s.filter(pred).contains(x),
    ensures
        pred(x),
{
    let k = choose|k: int| 0 <= k < s.filter(pred).len() && s.filter(pred)[k] == x;
    s.lemma_filter_pred(pred, k);
}

/// The `Greater` and `Less` filters on the same value share no process, and
/// together they keep every process but those whose counter equals the
/// value.
pub proof fn law_greater_and_less_split(procs: Seq<Process>, field: CountField, n: int, m: int)
    ensures
        forall|p: Process| #[trigger] filter_result(procs, field, Bound::Greater, n, m).contains(p)
            ==> !filter_result(procs, field, Bound::Less, n, m).contains(p),
        forall|i: int| 0 <= i < procs.len() ==> {
            ||| filter_result(procs, field, Bound::Greater, n, m).contains(#[trigger] procs[i])
            ||| filter_result(procs, field, Bound::Less, n, m).contains(procs[i])
            ||| count_of(procs[i], field) == n
        },
{
    let g = |p: Process| within(count_of(p, field), Bound::Greater, n, m);
    let l = |p: Process| within(count_of(p, field), Bound::Less, n, m);
    assert forall|p: Process| #[trigger] filter_result(procs, field, Bound::Greater, n, m).contains(p)
        implies !filter_result(procs, field, Bound::Less, n, m).contains(p) by {
        lemma_kept_passes(procs, g, p);
        if procs.filter(l).contains(p) {
            lemma_kept_passes(procs, l, p);
        }
    }
    assert forall|i: int| 0 <= i < procs.len() implies {
        ||| filter_result(procs, field, Bound::Greater, n, m).contains(#[trigger] procs[i])
        ||| filter_result(procs, field, Bound::Less, n, m).contains(procs[i])
        ||| count_of(procs[i], field) == n
    } by {
        if g(procs[i]) {
            procs.lemma_filter_contains(g, i);
        } else if l(procs[i]) {
            procs.lemma_filter_contains(l, i);
        }
    }
}

/// Raising the value of a `Greater` filter never adds a process, and
/// lowering the value of a `Less` filter never adds one: the stricter result
/// is the looser one filtered again.
pub proof fn law_stricter_threshold_keeps_fewer(procs: Seq<Process>, field: CountField, n1: int, n2: int, m: int)
    requires
        n1 <= n2,
    ensures
        filter_result(procs, field, Bound::Greater, n2, m)
            == filter_result(filter_result(procs, field, Bound::Greater, n1, m), field, Bound::Greater, n2, m),
        filter_result(procs, field, Bound::Less, n1, m)
            == filter_result(filter_result(procs, field, Bound::Less, n2, m), field, Bound::Less, n1, m),
{
    let g1 = |p: Process| within(count_of(p, field), Bound::Greater, n1, m);
    let g2 = |p: Process| within(count_of(p, field), Bound::Greater, n2, m);
    let l1 = |p: Process| within(count_of(p, field), Bound::Less, n1, m);
    let l2 = |p: Process| within(count_of(p, field), Bound::Less, n2, m);
    lemma_filter_narrower(procs, g1, g2);
    lemma_filter_narrower(procs, l2, l1);
}

proof fn lemma_filter_at_most_one(s: Seq<Process>, pred: spec_fn(Process) -> bool)
    requires
        forall|i: int, j: int| 0 <= i < j < s.len() && #[trigger] pred(s[i]) && #[trigger] pred(s[j]) ==> false,
    ensures
        s.filter(pred).len() <= 1,
    decreases s.len(),
{
    reveal(Seq::filter);
    if s.len() > 0 {
        let rest = s.drop_last();
        assert forall|i: int, j: int| 0 <= i < j < rest.len() && #[trigger] pred(rest[i]) && #[trigger] pred(rest[j]) implies false by {
            assert(rest[i] == s[i] && rest[j] == s[j]);
        }
        lemma_filter_at_most_one(rest, pred);
        if pred(s.last()) {
            assert forall|k: int| 0 <= k < rest.len() implies !pred(#[trigger] rest[k]) by {
                if pred(rest[k]) {
                    assert(pred(s[k]) && pred(s[s.len() - 1]));
                }
            }
            assert(rest.all(|x: Process| !pred(x)));
            rest.lemma_all_neg_filter_empty(pred);
        }
    }
}

/// Where the listed processes have distinct ids, a process-id search finds
/// at most one process, and any process it finds has the searched id.
pub proof fn law_pid_search_finds_at_most_one(procs: Seq<Process>, value: Seq<char>, n: u32)
    requires
        parse_unsigned(value, u32::MAX as nat) == Some(n as nat),
        forall|i: int, j: int| 0 <= i < j < procs.len() ==> #[trigger] procs[i].pid != #[trigger] procs[j].pid,
    ensures
        search_result(procs, SearchBy::PiD, value).len() <= 1,
        forall|k: int| 0 <= k < search_result(procs, SearchBy::PiD, value).len()
            ==> (#[trigger] search_result(procs, SearchBy::PiD, value)[k]).pid == n,
{
    let f = |p: Process| search_matches(p, SearchBy::PiD, value);
    assert forall|i: int, j: int| 0 <= i < j < procs.len() && #[trigger] f(procs[i]) && #[trigger] f(procs[j]) implies false by {
        assert(procs[i].pid != procs[j].pid);
    }
    lemma_filter_at_most_one(procs, f);
    assert forall|k: int| 0 <= k < search_result(procs, SearchBy::PiD, value).len()
        implies (#[trigger] search_result(procs, SearchBy::PiD, value)[k]).pid == n by {
        procs.lemma_filter_pred(f, k);
    }
}

/// A longer name pattern never finds more: where `v1` occurs in `v2`, the
/// processes found for `v2` are those found for `v1`, filtered again.
pub proof fn law_longer_name_finds_fewer(procs: Seq<Process>, v1: Seq<char>, v2: Seq<char>)
    requires
        has_substring(v2, v1),
    ensures
        search_result(procs, SearchBy::Name, v2)
            == search_result(search_result(procs, SearchBy::Name, v1), SearchBy::Name, v2),
{
    let f1 = |p: Process| search_matches(p, SearchBy::Name, v1);
    let f2 = |p: Process| search_matches(p, SearchBy::Name, v2);
    assert forall|x: Process| #[trigger] f2(x) implies f1(x) by {
        lemma_substring_transitive(x.name@, v2, v1);
    }
    lemma_filter_narrower(procs, f1, f2);
}


/// Each search looks at its own field only: a process-id search keeps the
/// processes whose id the value reads as, a user search those whose owner
/// is the value, a uid search those whose user id text is the value, a
/// parent search those with a parent whose id in decimal is the value, and
/// a name search those whose name contains the value.
pub proof fn law_search_reads_its_field(procs: Seq<Process>, v: Seq<char>)
    ensures
        search_result(procs, SearchBy::PiD, v)
            == procs.filter(|p: Process| parse_unsigned(v, 4294967295nat) == Some(p.pid as nat)),
        search_result(procs, SearchBy::User, v) == procs.filter(|p: Process| p.user@ == v),
        search_result(procs, SearchBy::PUid, v) == procs.filter(|p: Process| p.p_u_id@ == v),
        search_result(procs, SearchBy::PpPid, v) == procs.filter(
            |p: Process| p.ppid is Some && signed_decimal(p.ppid->0 as int) == v,
        ),
        search_result(procs, SearchBy::Name, v) == procs.filter(|p: Process| has_substring(p.name@, v)),
{
    assert((|p: Process| search_matches(p, SearchBy::PiD, v))
        =~= (|p: Process| parse_unsigned(v, 4294967295nat) == Some(p.pid as nat)));
    assert((|p: Process| search_matches(p, SearchBy::User, v)) =~= (|p: Process| p.user@ == v));
    assert((|p: Process| search_matches(p, SearchBy::PUid, v)) =~= (|p: Process| p.p_u_id@ == v));
    assert((|p: Process| search_matches(p, SearchBy::PpPid, v))
        =~= (|p: Process| p.ppid is Some && signed_decimal(p.ppid->0 as int) == v));
    assert((|p: Process| search_matches(p, SearchBy::Name, v)) =~= (|p: Process| has_substring(p.name@, v)));
}

/// Searching for a process id written in decimal keeps exactly the
/// processes with that id, whoever owns them.
pub proof fn law_pid_search_keeps_that_id(procs: Seq<Process>, n: u32)
    ensures
        search_result(procs, SearchBy::PiD, decimal(n as nat)) == procs.filter(|p: Process| p.pid == n),
{
    law_parse_after_render(n as nat, u32::MAX as nat);
    let f = |p: Process| search_matches(p, SearchBy::PiD, decimal(n as nat));
    let g = |p: Process| p.pid == n;
    assert forall|p: Process| #[trigger] f(p) == g(p) by {
        if f(p) {
            law_parse_after_render(p.pid as nat, u32::MAX as nat);
        }
    }
    assert(f =~= g);
}

/// A kill for a text reaches, in list order, the system id of every listed
/// process whose id written in decimal is that text, and of no other, and
/// a kill for the decimal text of `n` reaches exactly the processes with id
/// `n`, whoever owns them.
pub proof fn law_kill_reaches_every_process_with_that_id(procs: Seq<Process>, t: Seq<char>, n: u32)
    ensures
        kill_targets_of(procs, t)
            == procs.filter(|p: Process| decimal(p.pid as nat) == t).map_values(|p: Process| p.piddd),
        kill_targets_of(procs, decimal(n as nat))
            == procs.filter(|p: Process| p.pid == n).map_values(|p: Process| p.piddd),
{
    assert((|p: Process| kill_matches(p, t)) =~= (|p: Process| decimal(p.pid as nat) == t));
    let k = |p: Process| kill_matches(p, decimal(n as nat));
    let g = |p: Process| p.pid == n;
    assert forall|p: Process| #[trigger] k(p) == g(p) by {
        lemma_u32_text_injective(p.pid, n);
    }
    assert(k =~= g);
}

/// The bounds of a counter filter are the numbers that its texts spell, in
/// the type of the counter (`u64` for threads, `usize` for open files): the
/// first value, and the second, or 0 where the second is a single space.
pub proof fn law_filter_bounds_are_the_numbers_written(field: CountField, v: Seq<char>, w: Seq<char>, n: nat, m: nat)
    ensures
        count_max(field) == (match field {
            CountField::Threads => u64::MAX as nat,
            CountField::FdCount => usize::MAX as nat,
        }),
        filter_bounds(field, v, w) matches Some(b) ==> {
            &&& parse_unsigned(v, count_max(field)) == Some(b.0)
            &&& (w == seq![' '] ==> b.1 == 0)
            &&& (w != seq![' '] ==> parse_unsigned(w, count_max(field)) == Some(b.1))
        },
        n <= count_max(field) && m <= count_max(field) ==> {
            &&& filter_bounds(field, decimal(n), seq![' ']) == Some((n, 0nat))
            &&& filter_bounds(field, decimal(n), decimal(m)) == Some((n, m))
        },
{
    if n <= count_max(field) && m <= count_max(field) {
        law_parse_after_render(n, count_max(field));
        law_parse_after_render(m, count_max(field));
        crate::decimal::lemma_decimal_has_digit_first(m);
    }
}


/// Counter filters compare strictly: `Greater` keeps the processes whose
/// counter (the thread count, or the number of open files) is above the
/// first value, `Less` those below it, and `Range` those strictly between
/// the two values, in list order.
pub proof fn law_counter_filters_compare_strictly(procs: Seq<Process>, field: CountField, n: int, m: int)
    ensures
        filter_result(procs, field, Bound::Greater, n, m) == procs.filter(
            |p: Process| (if field == CountField::Threads { p.threads as int } else { p.fd_count as int }) > n,
        ),
        filter_result(procs, field, Bound::Less, n, m) == procs.filter(
            |p: Process| (if field == CountField::Threads { p.threads as int } else { p.fd_count as int }) < n,
        ),
        filter_result(procs, field, Bound::Range, n, m) == procs.filter(
            |p: Process| {
                let x = if field == CountField::Threads { p.threads as int } else { p.fd_count as int };
                n < x && x < m
            },
        ),
{
    assert((|p: Process| within(count_of(p, field), Bound::Greater, n, m)) =~= (
    |p: Process| (if field == CountField::Threads { p.threads as int } else { p.fd_count as int }) > n));
    assert((|p: Process| within(count_of(p, field), Bound::Less, n, m)) =~= (
    |p: Process| (if field == CountField::Threads { p.threads as int } else { p.fd_count as int }) < n));
    assert((|p: Process| within(count_of(p, field), Bound::Range, n, m)) =~= (
    |p: Process| {
        let x = if field == CountField::Threads { p.threads as int } else { p.fd_count as int };
        n < x && x < m
    }));
}

} // verus!
