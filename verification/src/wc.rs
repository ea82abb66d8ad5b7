//! The word-count tool's counting pass.
//!
//! One pass over the text yields the counts the tool can print: lines (the
//! segments that newlines separate), words (the segments that single spaces
//! separate), the characters and bytes those words hold, and the length of
//! the longest line.
use vstd::prelude::*;
use vstd::string::*;
use vstd::utf8::{encode_scalar, encode_utf8};

verus! {

/// Number of occurrences of `c` in `s`.
pub open spec fn count_char(s: Seq<char>, c: char) -> int
    decreases s.len(),
{
    if s.len() == 0 {
        0
    } else {
        count_char(s.drop_last(), c) + if s.last() == c {
            1int
        } else {
            0int
        }
    }
}

/// Length in characters of the last line: the suffix after the last newline.
pub open spec fn last_line_len(s: Seq<char>) -> int
    decreases s.len(),
{
    if s.len() == 0 {
        0
    } else if s.last() == '\n' {
        0
    } else {
        1 + last_line_len(s.drop_last())
    }
}

/// Length in characters of the longest line, lines being the segments that
/// newlines separate.
pub open spec fn max_line_len(s: Seq<char>) -> int
    decreases s.len(),
{
    if s.len() == 0 {
        0
    } else {
        let prev = max_line_len(s.drop_last());
        let cur = last_line_len(s);
        if cur > prev {
            cur
        } else {
            prev
        }
    }
}

/// Occurrences of a character are no more than the length.
proof fn lemma_count_char_le_len(s: Seq<char>, c: char)
    ensures
        0 <= count_char(s, c) <= s.len(),
    decreases s.len(),
{
    if s.len() > 0 {
        lemma_count_char_le_len(s.drop_last(), c);
    }
}

/// A character string's UTF-8 encoding has at least one byte per character.
proof fn lemma_utf8_at_least_one_byte_per_char(s: Seq<char>)
    ensures
        encode_utf8(s).len() >= s.len(),
    decreases s.len(),
{
    if s.len() > 0 {
        lemma_utf8_at_least_one_byte_per_char(s.drop_first());
        assert(encode_scalar(s[0] as u32).len() >= 1);
    }
}

/// The counts the tool can print.
pub struct Counts {
    /// Number of newline-separated segments: newlines plus one.
    pub newline_count: usize,
    /// Number of space-separated segments: spaces plus one.
    pub word_count: usize,
    /// Characters outside the separating spaces.
    pub char_count: usize,
    /// Bytes outside the separating spaces.
    pub byte_count: usize,
    /// Length in characters of the longest line.
    pub max_line: usize,
}

/// Count lines, words, characters, bytes and the longest line of `contents`
/// in one pass.
pub fn wc_counts(contents: &String) -> (r: Counts)
    requires
        encode_utf8(contents@).len() < usize::MAX,
    ensures
        r.newline_count as int == count_char(contents@, '\n') + 1,
        r.word_count as int == count_char(contents@, ' ') + 1,
        r.char_count as int == contents@.len() - count_char(contents@, ' '),
        r.byte_count as int == encode_utf8(contents@).len() - count_char(contents@, ' '),
        r.max_line as int == max_line_len(contents@),
{
    let ghost s = contents@;
    let st = contents.as_str();
    let n = st.unicode_len();
    let byte_len = st.len();
    proof {
        lemma_utf8_at_least_one_byte_per_char(s);
    }
    let mut newlines: usize = 0;
    let mut spaces: usize = 0;
    let mut cur: usize = 0;
    let mut maxl: usize = 0;
    let mut i: usize = 0;
    proof {
        assert(s.take(0) =~= Seq::<char>::empty());
    }
    while i < n
        invariant
            i <= n,
            n == s.len(),
            s == contents@,
            st@ == s,
            s.len() <= encode_utf8(s).len() < usize::MAX,
            newlines as int == count_char(s.take(i as int), '\n'),
            spaces as int == count_char(s.take(i as int), ' '),
            cur as int == last_line_len(s.take(i as int)),
            maxl as int == max_line_len(s.take(i as int)),
            newlines <= i && spaces <= i && cur <= i && maxl <= i,
        decreases n - i,
    {
        let c = st.get_char(i);
        proof {
            assert(s.take(i as int + 1).drop_last() =~= s.take(i as int));
            assert(s.take(i as int + 1).last() == s[i as int]);
        }
        if c == '\n' {
            newlines = newlines + 1;
            cur = 0;
        } else {
            cur = cur + 1;
            if cur > maxl {
                maxl = cur;
            }
            if c == ' ' {
                spaces = spaces + 1;
            }
        }
        i = i + 1;
    }
    proof {
        assert(s.take(n as int) =~= s);
        lemma_count_char_le_len(s, ' ');
        lemma_count_char_le_len(s, '\n');
    }
    Counts {
        newline_count: newlines + 1,
        word_count: spaces + 1,
        char_count: n - spaces,
        byte_count: byte_len - spaces,
        max_line: maxl,
    }
}

} // verus!
