//! Searching characters and splitting text into lines.
//!
//! The device-tree output is scanned line by line, and a line is split on the
//! last occurrence of a separator; both operations are modelled here over
//! `Seq<char>`, together with the executable searches that realise them.

use vstd::prelude::*;

verus! {

/// The index of the first occurrence of `c` in `s`, if any.
pub open spec fn first_index_of(s: Seq<char>, c: char) -> Option<int>
    decreases s.len(),
{
    if s.len() == 0 {
        None
    } else if s[0] == c {
        Some(0int)
    } else {
        match first_index_of(s.drop_first(), c) {
            None => None,
            Some(i) => Some(i + 1),
        }
    }
}

/// The index of the last occurrence of `c` in `s`, if any.
pub open spec fn last_index_of(s: Seq<char>, c: char) -> Option<int>
    decreases s.len(),
{
    if s.len() == 0 {
        None
    } else if s.last() == c {
        Some(s.len() - 1)
    } else {
        last_index_of(s.drop_last(), c)
    }
}

/// An occurrence at `i` preceded by no earlier occurrence is the first one.
pub proof fn lemma_first_index_of_some(s: Seq<char>, c: char, i: int)
    requires
        0 <= i < s.len(),
        s[i] == c,
        forall|k: int| 0 <= k < i ==> s[k] != c,
    ensures
        first_index_of(s, c) == Some(i),
    decreases s.len(),
{
    if s[0] != c {
        let t = s.drop_first();
        assert(t[i - 1] == c);
        lemma_first_index_of_some(t, c, i - 1);
    }
}

/// Where no character of `s` is `c`, there is no first occurrence.
pub proof fn lemma_first_index_of_none(s: Seq<char>, c: char)
    requires
        forall|k: int| 0 <= k < s.len() ==> s[k] != c,
    ensures
        first_index_of(s, c) is None,
    decreases s.len(),
{
    if s.len() > 0 {
        lemma_first_index_of_none(s.drop_first(), c);
    }
}

/// An occurrence at `i` followed by no later occurrence is the last one.
pub proof fn lemma_last_index_of_some(s: Seq<char>, c: char, i: int)
    requires
        0 <= i < s.len(),
        s[i] == c,
        forall|k: int| i < k < s.len() ==> s[k] != c,
    ensures
        last_index_of(s, c) == Some(i),
    decreases s.len(),
{
    if s.last() != c {
        let t = s.drop_last();
        assert(t[i] == c);
        lemma_last_index_of_some(t, c, i);
    }
}

/// Where no character of `s` is `c`, there is no last occurrence.
pub proof fn lemma_last_index_of_none(s: Seq<char>, c: char)
    requires
        forall|k: int| 0 <= k < s.len() ==> s[k] != c,
    ensures
        last_index_of(s, c) is None,
    decreases s.len(),
{
    if s.len() > 0 {
        lemma_last_index_of_none(s.drop_last(), c);
    }
}

proof fn lemma_first_index_of_in_range(s: Seq<char>, c: char)
    ensures
        match first_index_of(s, c) {
            Some(i) => 0 <= i < s.len(),
            None => true,
        },
    decreases s.len(),
{
    if s.len() > 0 && s[0] != c {
        lemma_first_index_of_in_range(s.drop_first(), c);
    }
}

/// `s` split on newline characters, in order; a text of `k` newlines yields
/// `k + 1` pieces, so empty text yields one empty line.
pub open spec fn split_lines(s: Seq<char>) -> Seq<Seq<char>>
    decreases s.len(),
    via split_lines_decreases
{
    match first_index_of(s, '\n') {
        None => seq![s],
        Some(i) => seq![s.subrange(0, i)] + split_lines(s.subrange(i + 1, s.len() as int)),
    }
}

#[via_fn]
proof fn split_lines_decreases(s: Seq<char>) {
    lemma_first_index_of_in_range(s, '\n');
}

/// Splitting text whose first newline stands at `i` yields the piece before
/// it, followed by the split of what stands after it.
pub proof fn lemma_split_lines_step(s: Seq<char>, i: int)
    requires
        0 <= i < s.len(),
        s[i] == '\n',
        forall|k: int| 0 <= k < i ==> s[k] != '\n',
    ensures
        split_lines(s) == seq![s.subrange(0, i)] + split_lines(
            s.subrange(i + 1, s.len() as int),
        ),
{
    lemma_first_index_of_some(s, '\n', i);
}

/// Text without a newline is a single line.
pub proof fn lemma_split_lines_whole(s: Seq<char>)
    requires
        forall|k: int| 0 <= k < s.len() ==> s[k] != '\n',
    ensures
        split_lines(s) == seq![s],
{
    lemma_first_index_of_none(s, '\n');
}

/// The index of the first occurrence of `c` in `s` at or after `from`.
pub fn find_char_from(s: &str, from: usize, c: char) -> (r: Option<usize>)
    requires
        from <= s@.len(),
    ensures
        match r {
            Some(i) => from <= i < s@.len() && s@[i as int] == c && (forall|k: int|
                from <= k < i ==> s@[k] != c),
            None => forall|k: int| from <= k < s@.len() ==> s@[k] != c,
        },
{
    let n = s.unicode_len();
    let mut idx: usize = from;
    while idx < n
        invariant
            from <= idx <= n,
            n == s@.len(),
            forall|k: int| from <= k < idx ==> s@[k] != c,
        decreases n - idx,
    {
        if s.get_char(idx) == c {
            return Some(idx);
        }
        idx = idx + 1;
    }
    None
}

/// The index of the last occurrence of `c` in `s`, searched from the end.
pub fn rfind_char(s: &str, c: char) -> (r: Option<usize>)
    ensures
        match r {
            Some(i) => i < s@.len() && s@[i as int] == c && (forall|k: int|
                i < k < s@.len() ==> s@[k] != c),
            None => forall|k: int| 0 <= k < s@.len() ==> s@[k] != c,
        },
{
    let n = s.unicode_len();
    let mut idx: usize = n;
    while idx > 0
        invariant
            0 <= idx <= n,
            n == s@.len(),
            forall|k: int| idx <= k < n ==> s@[k] != c,
        decreases idx,
    {
        if s.get_char(idx - 1) == c {
            return Some(idx - 1);
        }
        idx = idx - 1;
    }
    None
}

} // verus!
