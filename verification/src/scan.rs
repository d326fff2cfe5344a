//! Locating placeholder delimiters in the buffer.

use vstd::prelude::*;

verus! {

/// True when bytes `i .. i + 3` of `s` are the opening delimiter `{{{`.
pub open spec fn is_open_at(s: Seq<u8>, i: int) -> bool {
    &&& 0 <= i
    &&& i + 3 <= s.len()
    &&& s[i] == 123u8
    &&& s[i + 1] == 123u8
    &&& s[i + 2] == 123u8
}

/// True when bytes `i .. i + 3` of `s` are the closing delimiter `}}}`.
pub open spec fn is_close_at(s: Seq<u8>, i: int) -> bool {
    &&& 0 <= i
    &&& i + 3 <= s.len()
    &&& s[i] == 125u8
    &&& s[i + 1] == 125u8
    &&& s[i + 2] == 125u8
}

/// True when an opening delimiter occurs anywhere in `s`.
pub open spec fn has_open(s: Seq<u8>) -> bool {
    exists|i: int| is_open_at(s, i)
}

/// Position of the first opening delimiter at or after `from`, if any.
pub open spec fn first_open(s: Seq<u8>, from: int) -> Option<int>
    decreases s.len() - from,
{
    if from + 3 > s.len() {
        None
    } else if is_open_at(s, from) {
        Some(from)
    } else {
        first_open(s, from + 1)
    }
}

/// Position of the first closing delimiter at or after `from`, if any.
pub open spec fn first_close(s: Seq<u8>, from: int) -> Option<int>
    decreases s.len() - from,
{
    if from + 3 > s.len() {
        None
    } else if is_close_at(s, from) {
        Some(from)
    } else {
        first_close(s, from + 1)
    }
}

/// A found opening delimiter lies at or after `from` and wholly inside `s`.
pub proof fn lemma_first_open_bounds(s: Seq<u8>, from: int)
    ensures
        match first_open(s, from) {
            Some(i) => from <= i && i + 3 <= s.len() && is_open_at(s, i),
            None => true,
        },
    decreases s.len() - from,
{
    if from + 3 > s.len() {
    } else if is_open_at(s, from) {
    } else {
        lemma_first_open_bounds(s, from + 1);
    }
}

/// A found closing delimiter lies at or after `from` and wholly inside `s`.
pub proof fn lemma_first_close_bounds(s: Seq<u8>, from: int)
    ensures
        match first_close(s, from) {
            Some(i) => from <= i && i + 3 <= s.len() && is_close_at(s, i),
            None => true,
        },
    decreases s.len() - from,
{
    if from + 3 > s.len() {
    } else if is_close_at(s, from) {
    } else {
        lemma_first_close_bounds(s, from + 1);
    }
}

/// Index of the first opening delimiter at or after `from`, or `None` when
/// none remains.
pub fn find_open(buf: &Vec<u8>, from: usize) -> (r: Option<usize>)
    ensures
        match r {
            Some(i) => first_open(buf@, from as int) == Some(i as int),
            None => first_open(buf@, from as int) is None,
        },
{
    let n = buf.len();
    let mut i = from;
    loop
        invariant
            from <= i,
            n == buf@.len(),
            first_open(buf@, from as int) == first_open(buf@, i as int),
        decreases n - i,
    {
        if i > n || n - i < 3 {
            return None;
        }
        if buf[i] == 123u8 && buf[i + 1] == 123u8 && buf[i + 2] == 123u8 {
            assert(is_open_at(buf@, i as int));
            return Some(i);
        }
        assert(!is_open_at(buf@, i as int));
        i = i + 1;
    }
}

/// Index of the first closing delimiter at or after `from`, or `None` when
/// none remains.
pub fn find_close(buf: &Vec<u8>, from: usize) -> (r: Option<usize>)
    ensures
        match r {
            Some(i) => first_close(buf@, from as int) == Some(i as int),
            None => first_close(buf@, from as int) is None,
        },
{
    let n = buf.len();
    let mut i = from;
    loop
        invariant
            from <= i,
            n == buf@.len(),
            first_close(buf@, from as int) == first_close(buf@, i as int),
        decreases n - i,
    {
        if i > n || n - i < 3 {
            return None;
        }
        if buf[i] == 125u8 && buf[i + 1] == 125u8 && buf[i + 2] == 125u8 {
            assert(is_close_at(buf@, i as int));
            return Some(i);
        }
        assert(!is_close_at(buf@, i as int));
        i = i + 1;
    }
}

} // verus!
