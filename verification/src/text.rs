//! Character-level helpers on strings.
use vstd::prelude::*;

verus! {

/// A position as a mathematical integer.
pub open spec fn idx(i: usize) -> int {
    i as int
}

/// Appends one character to a string (`String::push`).
/// Trusted: the string afterwards is the old one followed by `c`, as std documents.
#[verifier::external_body]
pub(crate) fn push_char(s: &mut String, c: char)
    ensures
        final(s)@ == old(s)@.push(c),
{
    s.push(c)
}

/// The characters of `s`, in order.
pub fn chars_of(s: &str) -> (v: Vec<char>)
    ensures
        v@ == s@,
{
    broadcast use vstd::string::group_string_axioms;
    let mut v: Vec<char> = Vec::new();
    for c in it: s.chars()
        invariant
            it.seq() == s@,
            v@ == it.seq().take(it.index()),
    {
        v.push(c);
    }
    v
}

/// Whether `t` occurs in `s` as a contiguous run of characters.
pub open spec fn has_substring(s: Seq<char>, t: Seq<char>) -> bool {
    exists|i: int| 0 <= i && i + t.len() <= s.len() && #[trigger] s.subrange(i, i + t.len()) == t
}

/// Whether `t` occurs in `s` at position `i`, compared character by character.
fn occurs_at(s: &Vec<char>, t: &Vec<char>, i: usize) -> (r: bool)
    requires
        i + t@.len() <= s@.len(),
    ensures
        r == (s@.subrange(i as int, i + t@.len()) == t@),
{
    let m = t.len();
    let mut j: usize = 0;
    while j < m
        invariant
            j <= m,
            m == t@.len(),
            i + m <= s@.len(),
            s@.len() == s.len(),
            s@.subrange(i as int, i + j) =~= t@.subrange(0, j as int),
        decreases m - j,
    {
        if s[i + j] != t[j] {
            assert(s@.subrange(i as int, i + m)[j as int] != t@[j as int]);
            return false;
        }
        j = j + 1;
    }
    assert(t@.subrange(0, m as int) =~= t@);
    true
}

/// Whether `t` occurs in `s` (`s.contains(t)`).
pub fn str_contains(s: &str, t: &str) -> (r: bool)
    ensures
        r == has_substring(s@, t@),
{
    let cs = chars_of(s);
    let ct = chars_of(t);
    let n = cs.len();
    let m = ct.len();
    if m > n {
        return false;
    }
    let last = n - m;
    let mut i: usize = 0;
    loop
        invariant
            m <= n,
            n == s@.len(),
            m == t@.len(),
            cs@ == s@,
            ct@ == t@,
            last == n - m,
            i <= last,
            forall|k: int| 0 <= k < i ==> #[trigger] s@.subrange(k, k + m) != t@,
        decreases last - i,
    {
        if occurs_at(&cs, &ct, i) {
            assert(s@.subrange(i as int, i + m) == t@);
            return true;
        }
        if i == last {
            return false;
        }
        i = i + 1;
    }
}

/// Whether `a` and `b` hold the same characters (`a == b`).
pub fn str_eq(a: &str, b: &str) -> (r: bool)
    ensures
        r == (a@ == b@),
{
    let ca = chars_of(a);
    let cb = chars_of(b);
    if ca.len() != cb.len() {
        return false;
    }
    let r = occurs_at(&ca, &cb, 0);
    assert(a@.subrange(0, b@.len() as int) =~= a@);
    r
}


/// Occurring is transitive: if `t` occurs in `u` and `u` occurs in `s`, then
/// `t` occurs in `s`.
pub proof fn lemma_substring_transitive(s: Seq<char>, u: Seq<char>, t: Seq<char>)
    requires
        has_substring(s, u),
        has_substring(u, t),
    ensures
        has_substring(s, t),
{
    let i = choose|i: int| 0 <= i && i + u.len() <= s.len() && #[trigger] s.subrange(i, i + u.len()) == u;
    let j = choose|j: int| 0 <= j && j + t.len() <= u.len() && #[trigger] u.subrange(j, j + t.len()) == t;
    assert(s.subrange(i + j, i + j + t.len()) =~= u.subrange(j, j + t.len()));
}


/// Every piece cut out of a text occurs in it, and whatever occurs in a text
/// stands in it character by character at some position.
pub proof fn law_substring_is_a_piece(s: Seq<char>, t: Seq<char>, i: int, j: int)
    ensures
        0 <= i <= j <= s.len() ==> has_substring(s, s.subrange(i, j)),
        has_substring(s, t) ==> exists|k: int| #![trigger s.subrange(k, k + t.len())]
            0 <= k && k + t.len() <= s.len() && forall|x: int| 0 <= x < t.len() ==> #[trigger] t[x] == s[k + x],
{
    if 0 <= i <= j <= s.len() {
        assert(s.subrange(i, i + s.subrange(i, j).len()) =~= s.subrange(i, j));
    }
    if has_substring(s, t) {
        let k = choose|k: int| 0 <= k && k + t.len() <= s.len() && #[trigger] s.subrange(k, k + t.len()) == t;
        assert forall|x: int| 0 <= x < t.len() implies #[trigger] t[x] == s[k + x] by {
            assert(s.subrange(k, k + t.len())[x] == s[k + x]);
        }
    }
}

} // verus!
