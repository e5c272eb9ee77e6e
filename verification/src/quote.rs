//! Quote-character selection for string literals: pick the delimiter that
//! minimizes escapes, preferring a single quote on ties.

use vstd::prelude::*;
use vstd::string::StrSliceExecFns;

verus! {

/// How many times `c` occurs in `s`.
pub open spec fn count_char_spec(s: Seq<char>, c: char) -> int
    decreases s.len(),
{
    if s.len() == 0 {
        0
    } else {
        count_char_spec(s.drop_last(), c) + if s.last() == c {
            1int
        } else {
            0int
        }
    }
}

proof fn lemma_count_char_take_step(s: Seq<char>, c: char, i: int)
    requires
        0 <= i < s.len(),
    ensures
        count_char_spec(s.take(i + 1), c) == count_char_spec(s.take(i), c) + if s[i] == c {
            1int
        } else {
            0int
        },
{
    assert(s.take(i + 1).drop_last() =~= s.take(i));
    assert(s.take(i + 1).last() == s[i]);
}

proof fn lemma_count_char_nonneg(s: Seq<char>, c: char)
    ensures
        0 <= count_char_spec(s, c) <= s.len(),
    decreases s.len(),
{
    if s.len() > 0 {
        lemma_count_char_nonneg(s.drop_last(), c);
    }
}

/// Count how many times `c` occurs in `s`.
pub fn count_char(s: &str, c: char) -> (n: usize)
    ensures
        n == count_char_spec(s@, c),
{
    let len = s.unicode_len();
    let mut n: usize = 0;
    let mut i: usize = 0;
    proof {
        assert(s@.take(0) =~= Seq::<char>::empty());
    }
    while i < len
        invariant
            0 <= i <= len,
            len == s@.len(),
            n == count_char_spec(s@.take(i as int), c),
            n <= i,
        decreases len - i,
    {
        proof {
            lemma_count_char_take_step(s@, c, i as int);
            lemma_count_char_nonneg(s@.take(i as int), c);
        }
        let ch = s.get_char(i);
        if ch == c {
            n = n + 1;
        }
        i = i + 1;
    }
    proof {
        assert(s@.take(len as int) =~= s@);
    }
    n
}

/// The delimiter the printer uses for a string literal whose character
/// content is `s`: a double quote exactly when single quotes strictly
/// outnumber double quotes in the content, a single quote otherwise.
pub open spec fn chosen_quote(s: Seq<char>) -> char {
    if count_char_spec(s, '\'') > count_char_spec(s, '"') {
        '"'
    } else {
        '\''
    }
}

/// A string literal's content as emitted between delimiters `q`: every
/// occurrence of `q` gains a backslash, all other characters pass through.
pub open spec fn escape_with(s: Seq<char>, q: char) -> Seq<char>
    decreases s.len(),
{
    if s.len() == 0 {
        Seq::<char>::empty()
    } else {
        escape_with(s.drop_last(), q) + if s.last() == q {
            seq!['\\', q]
        } else {
            seq![s.last()]
        }
    }
}

pub proof fn lemma_escape_take_step(s: Seq<char>, q: char, i: int)
    requires
        0 <= i < s.len(),
    ensures
        escape_with(s.take(i + 1), q) == escape_with(s.take(i), q) + if s[i] == q {
            seq!['\\', q]
        } else {
            seq![s[i]]
        },
{
    assert(s.take(i + 1).drop_last() =~= s.take(i));
    assert(s.take(i + 1).last() == s[i]);
}

/// Pick the quote character for a string literal with content `s`, so that
/// the number of delimiter characters needing an escape is minimal; a tie
/// favors the single quote.
pub fn choose_quote(s: &str) -> (q: char)
    ensures
        q == chosen_quote(s@),
{
    let single_cost = count_char(s, '\'');
    let double_cost = count_char(s, '"');
    if single_cost > double_cost {
        '"'
    } else {
        '\''
    }
}

} // verus!
