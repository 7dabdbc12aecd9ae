//! Splitting an input line into words at Unicode white space, as
//! `str::split_whitespace` does.
use vstd::prelude::*;
use crate::text::{chars_of, push_char};

verus! {

/// Whether `c` has the Unicode `White_Space` property (`char::is_whitespace`).
pub open spec fn is_whitespace(c: char) -> bool {
    ('\t' <= c && c <= '\r') || c == ' ' || c == '\u{85}' || c == '\u{a0}' || c == '\u{1680}'
        || ('\u{2000}' <= c && c <= '\u{200a}') || c == '\u{2028}' || c == '\u{2029}'
        || c == '\u{202f}' || c == '\u{205f}' || c == '\u{3000}'
}

/// The word being built, as a list of zero or one words.
pub open spec fn flush(cur: Seq<char>) -> Seq<Seq<char>> {
    if cur.len() == 0 {
        Seq::empty()
    } else {
        seq![cur]
    }
}

/// The words of `s`, where `cur` holds the characters of a word already
/// begun before `s`.
pub open spec fn split_from(s: Seq<char>, cur: Seq<char>) -> Seq<Seq<char>>
    decreases s.len(),
{
    if s.len() == 0 {
        flush(cur)
    } else if is_whitespace(s[0]) {
        flush(cur) + split_from(s.drop_first(), Seq::empty())
    } else {
        split_from(s.drop_first(), cur.push(s[0]))
    }
}

/// The words of `s`: its maximal runs of characters that are not white
/// space, in order.
pub open spec fn words(s: Seq<char>) -> Seq<Seq<char>> {
    split_from(s, Seq::empty())
}

/// The text of each string of a list.
pub open spec fn texts(v: Seq<String>) -> Seq<Seq<char>> {
    v.map_values(|w: String| w@)
}

fn char_is_whitespace(c: char) -> (r: bool)
    ensures
        r == is_whitespace(c),
{
    ('\t' <= c && c <= '\r') || c == ' ' || c == '\u{85}' || c == '\u{a0}' || c == '\u{1680}'
        || ('\u{2000}' <= c && c <= '\u{200a}') || c == '\u{2028}' || c == '\u{2029}'
        || c == '\u{202f}' || c == '\u{205f}' || c == '\u{3000}'
}

/// The words of `s` (`s.split_whitespace()`).
pub fn split_words(s: &str) -> (ws: Vec<String>)
    ensures
        texts(ws@) == words(s@),
{
    let cs = chars_of(s);
    let n = cs.len();
    let mut toks: Vec<String> = Vec::new();
    let mut cur = String::new();
    let mut cur_len: usize = 0;
    let mut i: usize = 0;
    assert(s@.subrange(0, n as int) =~= s@);
    assert(texts(toks@) =~= Seq::<Seq<char>>::empty());
    while i < n
        invariant
            i <= n,
            n == s@.len(),
            cs@ == s@,
            cur_len == cur@.len(),
            cur_len <= i,
            words(s@) == texts(toks@) + split_from(s@.subrange(i as int, n as int), cur@),
        decreases n - i,
    {
        let c = cs[i];
        let ghost rest = s@.subrange(i as int, n as int);
        let ghost old_cur = cur@;
        let ghost before = texts(toks@);
        assert(rest.drop_first() =~= s@.subrange(i + 1, n as int));
        assert(rest[0] == c);
        if char_is_whitespace(c) {
            if cur_len > 0 {
                let word = cur;
                cur = String::new();
                toks.push(word);
                assert(texts(toks@) =~= before.push(old_cur));
                assert(before.push(old_cur) =~= before + flush(old_cur));
            } else {
                assert(flush(old_cur) =~= Seq::<Seq<char>>::empty());
                assert(before =~= before + flush(old_cur));
            }
            cur_len = 0;
            assert(split_from(rest, old_cur) == flush(old_cur) + split_from(rest.drop_first(), Seq::empty()));
            assert(cur@ =~= Seq::<char>::empty());
            assert(before + (flush(old_cur) + split_from(rest.drop_first(), Seq::empty()))
                =~= (before + flush(old_cur)) + split_from(rest.drop_first(), Seq::empty()));
            assert(words(s@) =~= texts(toks@) + split_from(s@.subrange(i + 1, n as int), cur@));
        } else {
            push_char(&mut cur, c);
            cur_len = cur_len + 1;
        }
        i = i + 1;
    }
    let ghost before = texts(toks@);
    assert(s@.subrange(n as int, n as int) =~= Seq::<char>::empty());
    if cur_len > 0 {
        let ghost last = cur@;
        toks.push(cur);
        assert(texts(toks@) =~= before.push(last));
        assert(words(s@) =~= texts(toks@));
    } else {
        assert(words(s@) =~= texts(toks@));
    }
    toks
}


proof fn lemma_split_at_whitespace(a: Seq<char>, c: char, b: Seq<char>, cur: Seq<char>)
    requires
        is_whitespace(c),
    ensures
        split_from(a + seq![c] + b, cur) == split_from(a, cur) + split_from(b, Seq::empty()),
    decreases a.len(),
{
    let whole = a + seq![c] + b;
    if a.len() == 0 {
        assert(whole.drop_first() =~= b);
    } else {
        assert(whole.drop_first() =~= a.drop_first() + seq![c] + b);
        assert(whole[0] == a[0]);
        if is_whitespace(a[0]) {
            lemma_split_at_whitespace(a.drop_first(), c, b, Seq::empty());
            assert(flush(cur) + (split_from(a.drop_first(), Seq::empty()) + split_from(b, Seq::empty()))
                =~= (flush(cur) + split_from(a.drop_first(), Seq::empty())) + split_from(b, Seq::empty()));
        } else {
            lemma_split_at_whitespace(a.drop_first(), c, b, cur.push(a[0]));
        }
    }
}

/// A white-space character separates words: the words of `a`, a white-space
/// character and `b` are the words of `a` followed by the words of `b`. So
/// how many spaces or tabs stand between the words of a command does not
/// matter.
pub proof fn law_words_split_at_whitespace(a: Seq<char>, c: char, b: Seq<char>)
    requires
        is_whitespace(c),
    ensures
        words(a + seq![c] + b) == words(a) + words(b),
{
    lemma_split_at_whitespace(a, c, b, Seq::empty());
}


/// The white-space characters are exactly the 25 code points that carry the
/// Unicode `White_Space` property.
pub proof fn law_whitespace_is_unicode_white_space(c: char)
    ensures
        is_whitespace(c) <==> {
            let u = c as u32;
            ||| 0x9 <= u <= 0xd
            ||| u == 0x20
            ||| u == 0x85
            ||| u == 0xa0
            ||| u == 0x1680
            ||| 0x2000 <= u <= 0x200a
            ||| u == 0x2028
            ||| u == 0x2029
            ||| u == 0x202f
            ||| u == 0x205f
            ||| u == 0x3000
        },
{
}

proof fn lemma_split_without_whitespace(s: Seq<char>, cur: Seq<char>)
    requires
        forall|i: int| 0 <= i < s.len() ==> !is_whitespace(#[trigger] s[i]),
    ensures
        split_from(s, cur) == flush(cur + s),
    decreases s.len(),
{
    if s.len() == 0 {
        assert(cur + s =~= cur);
    } else {
        assert(!is_whitespace(s[0]));
        assert forall|i: int| 0 <= i < s.drop_first().len() implies !is_whitespace(#[trigger] s.drop_first()[i]) by {
            assert(s.drop_first()[i] == s[i + 1]);
        }
        lemma_split_without_whitespace(s.drop_first(), cur.push(s[0]));
        assert(cur.push(s[0]) + s.drop_first() =~= cur + s);
    }
}

/// A nonempty text without white space is one word. In particular, no
/// printable ASCII character (`'!'` to `'~'`, such as `.` or `-`) ever
/// ends a word: `2.5` and `python3.10` stay whole.
pub proof fn law_text_without_white_space_is_one_word(s: Seq<char>)
    requires
        s.len() > 0,
        forall|i: int| 0 <= i < s.len() ==> !is_whitespace(#[trigger] s[i]),
    ensures
        words(s) == seq![s],
{
    lemma_split_without_whitespace(s, Seq::empty());
    assert(Seq::<char>::empty() + s =~= s);
}

/// No printable ASCII character is white space.
pub proof fn law_printable_ascii_is_not_white_space(c: char)
    requires
        '!' <= c <= '~',
    ensures
        !is_whitespace(c),
{
}


proof fn lemma_only_white_space(s: Seq<char>)
    requires
        forall|i: int| 0 <= i < s.len() ==> is_whitespace(#[trigger] s[i]),
    ensures
        split_from(s, Seq::empty()) == Seq::<Seq<char>>::empty(),
    decreases s.len(),
{
    if s.len() > 0 {
        assert(is_whitespace(s[0]));
        assert forall|i: int| 0 <= i < s.drop_first().len() implies is_whitespace(#[trigger] s.drop_first()[i]) by {
            assert(s.drop_first()[i] == s[i + 1]);
        }
        lemma_only_white_space(s.drop_first());
        assert(flush(Seq::<char>::empty()) =~= Seq::<Seq<char>>::empty());
        assert(Seq::<Seq<char>>::empty() + Seq::<Seq<char>>::empty() =~= Seq::<Seq<char>>::empty());
    }
}

/// A text made only of white space (the empty text too) has no words.
pub proof fn law_white_space_only_has_no_words(s: Seq<char>)
    requires
        forall|i: int| 0 <= i < s.len() ==> is_whitespace(#[trigger] s[i]),
    ensures
        words(s) == Seq::<Seq<char>>::empty(),
{
    lemma_only_white_space(s);
}

} // verus!
