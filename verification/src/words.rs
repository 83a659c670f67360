//! Splitting a line into words at runs of whitespace.

use vstd::prelude::*;

verus! {

/// Whether `c` is a white-space character: the code points that carry the
/// Unicode property `White_Space`.
pub open spec fn is_space(c: char) -> bool {
    let n = c as u32;
    (0x09 <= n && n <= 0x0D) || n == 0x20 || n == 0x85 || n == 0xA0 || n == 0x1680 || (0x2000 <= n
        && n <= 0x200A) || n == 0x2028 || n == 0x2029 || n == 0x202F || n == 0x205F || n == 0x3000
}

/// The words of `s`, in order: the maximal runs of characters that are not
/// white space. Stated by the last character of `s`: white space adds
/// nothing; another character lengthens the last word if the character before
/// it belongs to a word, and starts a new word otherwise.
pub open spec fn words(s: Seq<char>) -> Seq<Seq<char>>
    decreases s.len(),
{
    if s.len() == 0 {
        Seq::empty()
    } else {
        let head = s.drop_last();
        let c = s.last();
        if is_space(c) {
            words(head)
        } else if head.len() > 0 && !is_space(head.last()) {
            words(head).drop_last().push(words(head).last().push(c))
        } else {
            words(head).push(seq![c])
        }
    }
}

/// The contents of a list of strings, each as its sequence of characters.
pub open spec fn texts(v: Seq<String>) -> Seq<Seq<char>> {
    v.map_values(|s: String| s@)
}

/// Whether `s` holds no character that is not white space.
pub open spec fn is_blank(s: Seq<char>) -> bool {
    forall|i: int| 0 <= i < s.len() ==> is_space(#[trigger] s[i])
}

/// Whether `c` is a white-space character.
pub fn is_whitespace(c: char) -> (r: bool)
    ensures
        r == is_space(c),
{
    let n: u32 = c as u32;
    (0x09 <= n && n <= 0x0D) || n == 0x20 || n == 0x85 || n == 0xA0 || n == 0x1680 || (0x2000 <= n
        && n <= 0x200A) || n == 0x2028 || n == 0x2029 || n == 0x202F || n == 0x205F || n == 0x3000
}

/// Splits `line` into its words.
pub fn split_words(line: &str) -> (out: Vec<String>)
    ensures
        texts(out@) == words(line@),
{
    let n: usize = line.unicode_len();
    let mut out: Vec<String> = Vec::new();
    let mut start: usize = 0;
    let mut inside: bool = false;
    let mut i: usize = 0;
    assert(texts(out@) =~= words(line@.take(0)));
    while i < n
        invariant
            n == line@.len(),
            0 <= start <= i <= n,
            inside ==> start < i && !is_space(line@[i - 1]) && words(line@.take(i as int))
                == texts(out@).push(line@.subrange(start as int, i as int)),
            !inside ==> (i == 0 || is_space(line@[i - 1])) && words(line@.take(i as int)) == texts(
                out@,
            ),
        decreases n - i,
    {
        let c: char = line.get_char(i);
        proof {
            let next = line@.take(i + 1);
            assert(next.drop_last() =~= line@.take(i as int));
            assert(next.last() == c);
            if i > 0 {
                assert(line@.take(i as int).last() == line@[i - 1]);
            }
        }
        if is_whitespace(c) {
            if inside {
                let w = String::from_str(line.substring_char(start, i));
                let ghost before = out@;
                out.push(w);
                assert(texts(out@) =~= texts(before).push(w@));
                inside = false;
            }
        } else {
            if !inside {
                start = i;
                inside = true;
                assert(line@.subrange(i as int, i + 1) =~= seq![c]);
            } else {
                let ghost prev = texts(out@).push(line@.subrange(start as int, i as int));
                assert(prev.drop_last() =~= texts(out@));
                assert(prev.last().push(c) =~= line@.subrange(start as int, i + 1));
            }
        }
        i = i + 1;
    }
    assert(line@.take(n as int) =~= line@);
    if inside {
        let w = String::from_str(line.substring_char(start, n));
        let ghost before = out@;
        out.push(w);
        assert(texts(out@) =~= texts(before).push(w@));
    }
    out
}

/// A line of white space alone has no words.
pub proof fn blank_has_no_words(s: Seq<char>)
    requires
        is_blank(s),
    ensures
        words(s).len() == 0,
    decreases s.len(),
{
    if s.len() > 0 {
        assert(is_space(s[s.len() - 1]));
        blank_has_no_words(s.drop_last());
    }
}

/// Every word is non-empty and holds no white space.
pub proof fn words_are_solid(s: Seq<char>, k: int)
    requires
        0 <= k < words(s).len(),
    ensures
        words(s)[k].len() > 0,
        forall|j: int| 0 <= j < words(s)[k].len() ==> !is_space(#[trigger] words(s)[k][j]),
    decreases s.len(),
{
    if s.len() > 0 {
        let head = s.drop_last();
        let c = s.last();
        if is_space(c) {
            words_are_solid(head, k);
        } else if head.len() > 0 && !is_space(head.last()) {
            words_follow_text(head);
            if k < words(head).len() - 1 {
                words_are_solid(head, k);
            } else {
                words_are_solid(head, words(head).len() - 1);
            }
        } else {
            if k < words(head).len() {
                words_are_solid(head, k);
            }
        }
    }
}

/// A text that ends in a character of a word has at least one word.
pub proof fn words_follow_text(s: Seq<char>)
    requires
        s.len() > 0,
        !is_space(s.last()),
    ensures
        words(s).len() > 0,
{
}

} // verus!
