//! What holds of the operations on views taken together.
//!
//! Each law is stated over [`Window`], the model that the contracts of
//! [`Snap`](crate::snap::Snap) speak of, so it holds of every view.

use crate::error::SnapError;
use crate::window::Window;
use vstd::prelude::*;

verus! {

/// Splitting and merging undo each other: a window split at an offset
/// within its length gives two halves that merge, in that order, into the
/// window itself, with the same bounds and the same elements.
pub proof fn lemma_snap_then_merge<T>(w: Window<T>, at: int)
    requires
        w.wf(),
        0 <= at <= w.len(),
    ensures
        w.snap(at) == Ok::<_, SnapError>(w.split(at)),
        w.split(at).0.wf(),
        w.split(at).1.wf(),
        w.split(at).0.adjacent(w.split(at).1),
        w.split(at).0.merge(w.split(at).1) == Ok::<_, SnapError>(w),
        w.split(at).0.items() + w.split(at).1.items() == w.items(),
{
    let (left, right) = w.split(at);
    assert(left.items() + right.items() =~= w.items());
}

/// The halves of a split hold the elements before and after the cut.
pub proof fn lemma_split_items<T>(w: Window<T>, at: int)
    requires
        w.wf(),
        0 <= at <= w.len(),
    ensures
        w.split(at).0.items() == w.items().subrange(0, at),
        w.split(at).1.items() == w.items().subrange(at, w.len()),
        w.split(at).0.len() == at,
        w.split(at).1.len() == w.len() - at,
{
    let (left, right) = w.split(at);
    assert(left.items() =~= w.items().subrange(0, at));
    assert(right.items() =~= w.items().subrange(at, w.len()));
}

/// A merge that is accepted covers both windows: it runs from the start of
/// the left one to the end of the right one, in their buffer, and lies
/// within it.
pub proof fn lemma_merge_covers_both<T>(left: Window<T>, right: Window<T>)
    requires
        left.wf(),
        right.wf(),
        left.merge(right) is Ok,
    ensures
        left.adjacent(right),
        left.merge(right).unwrap().wf(),
        left.merge(right).unwrap().origin == left.origin,
        left.merge(right).unwrap().origin == right.origin,
        left.merge(right).unwrap().start == left.start,
        left.merge(right).unwrap().end == right.end,
        left.merge(right).unwrap().len() == left.len() + right.len(),
{
}

/// Merging joins the elements: two adjacent windows of one buffer merge
/// into a window that holds the elements of the left one followed by those
/// of the right one.
pub proof fn lemma_merge_joins_items<T>(left: Window<T>, right: Window<T>)
    requires
        left.wf(),
        right.wf(),
        left.adjacent(right),
        left.buffer == right.buffer,
    ensures
        left.merge(right) is Ok,
        left.merge(right).unwrap().items() == left.items() + right.items(),
{
    assert(left.merge(right).unwrap().items() =~= left.items() + right.items());
}

/// Merging is refused exactly when the windows are not adjacent: for want
/// of a common origin first, for want of a common border second.
pub proof fn lemma_merge_refusals<T>(left: Window<T>, right: Window<T>)
    ensures
        left.merge(right) is Ok <==> left.adjacent(right),
        left.merge(right) == Err::<Window<T>, _>(SnapError::DifferentOrigins)
            <==> !left.same_origin(right),
        left.merge(right) == Err::<Window<T>, _>(SnapError::NonContiguous) <==> (
        left.same_origin(right) && left.end != right.start),
{
}

/// Merging in the wrong order is refused: the halves of a window that holds
/// anything at all do not merge when swapped, wherever it was cut.
pub proof fn lemma_swapped_merge_refused<T>(w: Window<T>, at: int)
    requires
        w.wf(),
        0 <= at <= w.len(),
        w.len() > 0,
    ensures
        w.split(at).1.merge(w.split(at).0) == Err::<Window<T>, _>(
            SnapError::NonContiguous,
        ),
{
}

/// A window is complete exactly when its elements are its whole buffer.
pub proof fn lemma_complete_holds_all<T>(w: Window<T>)
    requires
        w.wf(),
    ensures
        w.is_complete() <==> w.items() == w.buffer,
        w.is_complete() <==> (w.start == 0 && w.len() == w.buffer.len()),
{
    if w.is_complete() {
        assert(w.items() =~= w.buffer);
    }
    if w.items() == w.buffer {
        assert(w.items().len() == w.len());
    }
}

/// What is written through a window is what it reads afterwards: the
/// element written is found at its position, every other element of the
/// buffer is what it was, and bounds and origin stay.
pub proof fn lemma_write_then_read<T>(w: Window<T>, index: int, value: T)
    requires
        w.wf(),
        0 <= index < w.len(),
    ensures
        ({
            let after = w.with_items(w.items().update(index, value));
            &&& after.wf()
            &&& after.origin == w.origin
            &&& after.start == w.start
            &&& after.end == w.end
            &&& after.items() == w.items().update(index, value)
            &&& after.items()[index] == value
            &&& after.buffer == w.buffer.update(w.start + index, value)
        }),
{
    let after = w.with_items(w.items().update(index, value));
    assert(after.buffer =~= w.buffer.update(w.start + index, value));
    assert(after.items() =~= w.items().update(index, value));
}

/// What is written through one window is read through every window of the
/// buffer as written that covers the position.
pub proof fn lemma_write_read_through_any<T>(
    w: Window<T>,
    index: int,
    value: T,
    other: Window<T>,
)
    requires
        w.wf(),
        0 <= index < w.len(),
        other.wf(),
        other.buffer == w.with_items(w.items().update(index, value)).buffer,
        other.start <= w.start + index < other.end,
    ensures
        other.items()[w.start + index - other.start] == value,
{
    lemma_write_then_read(w, index, value);
}

/// The number of pieces is the length divided by the piece size, rounded
/// up: the least count whose pieces hold every element.
pub proof fn lemma_chunk_count<T>(w: Window<T>, size: int)
    requires
        w.wf(),
        size >= 1,
        w.len() > 0,
    ensures
        w.chunk_count(size) >= 1,
        (w.chunk_count(size) - 1) * size < w.len() <= w.chunk_count(size) * size,
{
    let len = w.len();
    let n = (len + size - 1) / size;
    assert(n >= 1 && (n - 1) * size < len <= n * size) by (nonlinear_arith)
        requires
            len > 0,
            size >= 1,
            n == (len + size - 1) / size,
    ;
}

/// The pieces of a window tile it: each lies in the same buffer, the first
/// starts where the window starts, each starts where the one before it
/// ends, and the last ends where the window ends. Every piece but the last
/// holds `size` elements, and the last holds at most as many.
pub proof fn lemma_chunks_tile<T>(w: Window<T>, size: int)
    requires
        w.wf(),
        size >= 1,
    ensures
        w.chunks(size) is Ok,
        ({
            let pieces = w.chunks(size).unwrap();
            let n = w.chunk_count(size);
            &&& pieces.len() == n >= 1
            &&& pieces[0].start == w.start
            &&& pieces[n - 1].end == w.end
            &&& pieces[n - 1].len() <= size
            &&& forall|i: int|
                0 <= i < n ==> {
                    &&& (#[trigger] pieces[i]).wf()
                    &&& pieces[i].origin == w.origin
                    &&& pieces[i].buffer == w.buffer
                    &&& pieces[i] == w.chunk(size, i)
                }
            &&& forall|i: int|
                0 <= i < n - 1 ==> {
                    &&& (#[trigger] pieces[i]).len() == size
                    &&& pieces[i].adjacent(pieces[i + 1])
                }
        }),
{
    let pieces = w.chunks(size).unwrap();
    let n = w.chunk_count(size);
    if w.len() > 0 {
        lemma_chunk_count(w, size);
    }
    assert forall|i: int| 0 <= i < n implies {
        &&& (#[trigger] pieces[i]).wf()
        &&& (i < n - 1 ==> pieces[i].len() == size && pieces[i].adjacent(pieces[i + 1]))
        &&& (i == n - 1 ==> pieces[i].end == w.end && pieces[i].len() <= size)
    } by {
        lemma_chunk_bounds(w, size, i);
    }
    assert(0 * size == 0);
}

/// Where the piece number `i` of a window lies.
proof fn lemma_chunk_bounds<T>(w: Window<T>, size: int, i: int)
    requires
        w.wf(),
        size >= 1,
        0 <= i < w.chunk_count(size),
    ensures
        w.chunk(size, i).wf(),
        w.start + i * size <= w.end,
        i < w.chunk_count(size) - 1 ==> w.chunk(size, i).len() == size && w.chunk(size, i).end
            == w.chunk(size, i + 1).start,
        i == w.chunk_count(size) - 1 ==> w.chunk(size, i).end == w.end && w.chunk(size, i).len()
            <= size,
{
    let n = w.chunk_count(size);
    let len = w.len();
    assert(i * size >= 0) by (nonlinear_arith)
        requires
            i >= 0,
            size >= 1,
    ;
    assert((i + 1) * size == i * size + size) by (nonlinear_arith);
    if len == 0 {
        assert(i == 0);
        assert(0 * size == 0);
    } else {
        lemma_chunk_count(w, size);
        assert(i * size <= (n - 1) * size) by (nonlinear_arith)
            requires
                0 <= i <= n - 1,
                size >= 1,
        ;
        if i < n - 1 {
            assert((i + 1) * size <= (n - 1) * size) by (nonlinear_arith)
                requires
                    0 <= i + 1 <= n - 1,
                    size >= 1,
            ;
        }
    }
}

/// The first `count` pieces of a window, merged from left to right, give
/// the window from its start to the end of the last of them.
proof fn lemma_merge_prefix<T>(w: Window<T>, size: int, count: int)
    requires
        w.wf(),
        size >= 1,
        1 <= count <= w.chunk_count(size),
    ensures
        Window::merge_all(w.chunks(size).unwrap().take(count)) == Ok::<_, SnapError>(
            w.with_range(w.start, w.chunk(size, count - 1).end),
        ),
    decreases count,
{
    let pieces = w.chunks(size).unwrap();
    let prefix = pieces.take(count);
    lemma_chunk_bounds(w, size, count - 1);
    if count == 1 {
        assert(0 * size == 0);
        assert(prefix[0] == w.chunk(size, 0));
    } else {
        lemma_merge_prefix(w, size, count - 1);
        lemma_chunk_bounds(w, size, count - 2);
        assert(prefix.drop_last() =~= pieces.take(count - 1));
        assert(prefix.last() == w.chunk(size, count - 1));
    }
}

/// Chunking and merging undo each other: the pieces of a window, merged
/// one after another from left to right, give the window itself.
pub proof fn lemma_chunks_then_merge<T>(w: Window<T>, size: int)
    requires
        w.wf(),
        size >= 1,
    ensures
        w.chunks(size) is Ok,
        Window::merge_all(w.chunks(size).unwrap()) == Ok::<_, SnapError>(w),
{
    let pieces = w.chunks(size).unwrap();
    let n = w.chunk_count(size);
    lemma_chunks_tile(w, size);
    lemma_merge_prefix(w, size, n);
    lemma_chunk_bounds(w, size, n - 1);
    assert(pieces.take(n) =~= pieces);
}

} // verus!
