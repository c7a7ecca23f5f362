//! What becomes of mutable access to a whole buffer once the handle has
//! answered: the part of it that a view may write to.
//!
//! Whether access is granted is for the handle to say. These functions take
//! its answer as it comes and say, for either answer, what is handed on.

use vstd::prelude::*;

verus! {

/// Narrows access to a whole slice down to its positions `[from, to)`.
///
/// Access that was granted is handed on whenever the bounds fit the slice;
/// access that was refused stays refused. What is written through the part
/// lands in the whole at the same positions, and nothing else in the whole
/// changes.
pub fn part_of<'a, T>(whole: Option<&'a mut [T]>, from: usize, to: usize) -> (part: Option<
    &'a mut [T],
>)
    ensures
        part is Some <==> (whole matches Some(w) && from <= to <= w@.len()),
        match (whole, part) {
            (Some(w), Some(p)) => {
                &&& p@ == w@.subrange(from as int, to as int)
                &&& final(w)@ == w@.subrange(0, from as int) + final(p)@ + w@.subrange(
                    to as int,
                    w@.len() as int,
                )
            },
            (Some(w), None) => final(w)@ == w@,
            (None, _) => true,
        },
{
    match whole {
        Some(w) => {
            if from <= to && to <= w.len() {
                let (_, rest) = w.split_at_mut(from);
                let (mid, _) = rest.split_at_mut(to - from);
                Some(mid)
            } else {
                None
            }
        },
        None => None,
    }
}

/// Narrows access to a whole slice down to its element at position `at`.
///
/// Access that was granted is handed on whenever the slice has such a
/// position; access that was refused stays refused. What is written to the
/// element lands in the whole at that position, and nothing else in the
/// whole changes.
pub fn element_of<'a, T>(whole: Option<&'a mut [T]>, at: usize) -> (element: Option<&'a mut T>)
    ensures
        element is Some <==> (whole matches Some(w) && at < w@.len()),
        match (whole, element) {
            (Some(w), Some(e)) => {
                &&& *e == w@[at as int]
                &&& final(w)@ == w@.update(at as int, *final(e))
            },
            (Some(w), None) => final(w)@ == w@,
            (None, _) => true,
        },
{
    match whole {
        Some(w) => {
            if at < w.len() {
                Some(&mut w[at])
            } else {
                None
            }
        },
        None => None,
    }
}

} // verus!
