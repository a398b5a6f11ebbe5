//! Character classes, maximal runs and newline counts over a sequence of
//! characters.

use vstd::prelude::*;
use vstd::seq_lib::to_multiset_build;

verus! {

/// `c` is one of the ten decimal digits.
pub open spec fn is_digit(c: char) -> bool {
    '0' <= c && c <= '9'
}

/// `c` is an ASCII letter or an underscore.
pub open spec fn is_alpha(c: char) -> bool {
    ('a' <= c && c <= 'z') || ('A' <= c && c <= 'Z') || c == '_'
}

/// `c` may continue an identifier.
pub open spec fn is_alpha_numeric(c: char) -> bool {
    is_alpha(c) || is_digit(c)
}

/// A class of characters, of which a lexeme may hold a run.
pub enum Class {
    /// The decimal digits.
    Digit,
    /// The letters, the digits and the underscore.
    AlphaNumeric,
    /// Every character but this one.
    Except(char),
}

impl Class {
    /// `c` belongs to the class.
    pub open spec fn has(self, c: char) -> bool {
        match self {
            Class::Digit => is_digit(c),
            Class::AlphaNumeric => is_alpha_numeric(c),
            Class::Except(stop) => c != stop,
        }
    }
}

/// The length of the maximal run of characters of `class` that begins at
/// index `from`: of the longest stretch `s[from], s[from + 1], ..` all of
/// whose characters belong to the class.
pub open spec fn run_len(s: Seq<char>, from: int, class: Class) -> nat
    decreases s.len() - from,
{
    if 0 <= from < s.len() && class.has(s[from]) {
        1 + run_len(s, from + 1, class)
    } else {
        0
    }
}

/// The length of the maximal run of decimal digits that begins at `from`.
pub open spec fn digits_len(s: Seq<char>, from: int) -> nat {
    run_len(s, from, Class::Digit)
}

/// The length of the maximal run of identifier characters that begins at
/// `from`.
pub open spec fn word_len(s: Seq<char>, from: int) -> nat {
    run_len(s, from, Class::AlphaNumeric)
}

/// The number of characters from `from` up to, and not including, the next
/// occurrence of `stop` (or up to the end, where there is none).
pub open spec fn len_until(s: Seq<char>, from: int, stop: char) -> nat {
    run_len(s, from, Class::Except(stop))
}

/// A maximal run lies within the sequence, every character of it belongs to
/// the class, and the character that follows it, if any, does not.
pub proof fn lemma_run_len(s: Seq<char>, from: int, class: Class)
    requires
        0 <= from <= s.len(),
    ensures
        from + run_len(s, from, class) <= s.len(),
        forall|i: int| from <= i < from + run_len(s, from, class) ==> class.has(#[trigger] s[i]),
        from + run_len(s, from, class) < s.len() ==> !class.has(s[from + run_len(s, from, class)]),
    decreases s.len() - from,
{
    if from < s.len() && class.has(s[from]) {
        lemma_run_len(s, from + 1, class);
    }
}

/// A stretch of characters of the class that no character of the class follows
/// is the maximal run.
pub proof fn lemma_run_len_is(s: Seq<char>, from: int, to: int, class: Class)
    requires
        0 <= from <= to <= s.len(),
        forall|i: int| from <= i < to ==> class.has(#[trigger] s[i]),
        to < s.len() ==> !class.has(s[to]),
    ensures
        run_len(s, from, class) == to - from,
    decreases to - from,
{
    if from < to {
        lemma_run_len_is(s, from + 1, to, class);
    }
}

/// The number of newline characters among `s[from], .., s[to - 1]`.
pub open spec fn newlines(s: Seq<char>, from: int, to: int) -> nat
    decreases to - from,
{
    if to <= from {
        0
    } else {
        newlines(s, from, to - 1) + if s[to - 1] == '\n' {
            1nat
        } else {
            0nat
        }
    }
}

/// One character counts one newline, or none.
pub proof fn lemma_newlines_one(s: Seq<char>, at: int)
    ensures
        newlines(s, at, at + 1) == if s[at] == '\n' {
            1nat
        } else {
            0nat
        },
{
    reveal_with_fuel(newlines, 2);
}

/// Newline counts add up over adjacent ranges.
pub proof fn lemma_newlines_split(s: Seq<char>, from: int, mid: int, to: int)
    requires
        from <= mid <= to,
    ensures
        newlines(s, from, to) == newlines(s, from, mid) + newlines(s, mid, to),
    decreases to - mid,
{
    if mid < to {
        lemma_newlines_split(s, from, mid, to - 1);
    }
}

/// A range without a newline character counts none.
pub proof fn lemma_newlines_none(s: Seq<char>, from: int, to: int)
    requires
        forall|i: int| from <= i < to ==> #[trigger] s[i] != '\n',
    ensures
        newlines(s, from, to) == 0,
    decreases to - from,
{
    if from < to {
        lemma_newlines_none(s, from, to - 1);
    }
}

/// The newlines counted up to `to` are the occurrences of the newline
/// character among the first `to` characters.
pub proof fn lemma_newlines_count(s: Seq<char>, to: int)
    requires
        0 <= to <= s.len(),
    ensures
        newlines(s, 0, to) == s.subrange(0, to).to_multiset().count('\n'),
    decreases to,
{
    if to == 0 {
        assert(s.subrange(0, 0) =~= Seq::<char>::empty());
        assert(Seq::<char>::empty().to_multiset().count('\n') == 0) by {
            Seq::<char>::empty().to_multiset_ensures();
        }
    } else {
        lemma_newlines_count(s, to - 1);
        assert(s.subrange(0, to) =~= s.subrange(0, to - 1).push(s[to - 1]));
        to_multiset_build(s.subrange(0, to - 1), s[to - 1]);
    }
}

} // verus!
