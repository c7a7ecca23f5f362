//! The view type and its operations.

use crate::access::{element_of, part_of};
use crate::error::SnapError;
use crate::shared::{address_of, reclaim, unique_slice};
use crate::text::{bracketed, bracketed_list, chars_of};
use crate::window::Window;
use std::ops::Range;
use std::sync::Arc;
use vstd::prelude::*;
use vstd::std_specs::iter::IteratorSpec;

verus! {

/// A view of the range `[start, end)` of a shared buffer.
///
/// Cloning a view, splitting it and merging two views never copy an
/// element: only the handle and the bounds are touched.
#[derive(Debug)]
pub struct Snap<T> {
    buf: Arc<Vec<T>>,
    origin: usize,
    range: Range<usize>,
}

impl<T> View for Snap<T> {
    type V = Window<T>;

    closed spec fn view(&self) -> Window<T> {
        Window {
            origin: self.origin,
            buffer: self.buf@,
            start: self.range.start as int,
            end: self.range.end as int,
        }
    }
}

impl<T> Snap<T> {
    /// The range of a view never leaves its buffer.
    #[verifier::type_invariant]
    spec fn inv(&self) -> bool {
        self.range.start <= self.range.end <= self.buf@.len()
    }

    /// What each of `snaps` denotes, in the same order.
    pub open spec fn views(snaps: Seq<Self>) -> Seq<Window<T>> {
        Seq::new(snaps.len(), |i: int| snaps[i]@)
    }

    /// Wraps `vec` into a shared buffer and returns the view of all of it.
    ///
    /// The elements are moved, not copied. The origin of the new view is
    /// wherever the buffer was allocated.
    pub fn new(vec: Vec<T>) -> (snap: Self)
        ensures
            snap@ == Window::whole(snap@.origin, vec@),
    {
        let end = vec.len();
        let buf = Arc::new(vec);
        let origin = address_of(&buf);
        Snap { buf, origin, range: 0..end }
    }

    /// Wraps `vec` into a shared buffer and returns the view of `range` in
    /// it: what [`Snap::buffer`] and [`Snap::range`] gave of a view, put
    /// together again over a buffer of its own.
    ///
    /// Bounds that are out of order or reach past the end of `vec` are
    /// refused with [`SnapError::OutOfRange`].
    pub fn from_parts(vec: Vec<T>, range: Range<usize>) -> (snap: Result<Self, SnapError>)
        ensures
            match snap {
                Ok(s) => {
                    &&& range.start <= range.end <= vec@.len()
                    &&& s@ == Window::whole(s@.origin, vec@).with_range(
                        range.start as int,
                        range.end as int,
                    )
                },
                Err(e) => !(range.start <= range.end <= vec@.len()) && e == SnapError::OutOfRange,
            },
    {
        if range.start <= range.end && range.end <= vec.len() {
            let buf = Arc::new(vec);
            let origin = address_of(&buf);
            Ok(Snap { buf, origin, range })
        } else {
            Err(SnapError::OutOfRange)
        }
    }

    /// Number of elements in the range of the view.
    pub fn len(&self) -> (n: usize)
        ensures
            self@.wf(),
            n == self@.len(),
    {
        proof {
            use_type_invariant(self);
        }
        self.range.end - self.range.start
    }

    /// Whether the view denotes its whole buffer.
    pub fn is_complete(&self) -> (complete: bool)
        ensures
            self@.wf(),
            complete == self@.is_complete(),
    {
        proof {
            use_type_invariant(self);
        }
        self.range.start == 0 && self.range.end == self.buf.len()
    }

    /// The bounds `[start, end)` of the view within its buffer.
    pub fn range(&self) -> (range: &Range<usize>)
        ensures
            self@.wf(),
            range.start == self@.start,
            range.end == self@.end,
    {
        proof {
            use_type_invariant(self);
        }
        &self.range
    }

    /// Cuts a view in two where the caller has shown the offset to fit.
    fn split(self, at: usize) -> (halves: (Self, Self))
        requires
            at <= self@.len(),
        ensures
            (halves.0@, halves.1@) == self@.split(at as int),
    {
        proof {
            use_type_invariant(&self);
        }
        let mid = self.range.start + at;
        let left = Snap { buf: self.buf.clone(), origin: self.origin, range: self.range.start..mid };
        let right = Snap { buf: self.buf, origin: self.origin, range: mid..self.range.end };
        (left, right)
    }

    /// Splits the view `at` positions after its start.
    ///
    /// The left half covers `[start, start + at)`, the right half
    /// `[start + at, end)`; either may be empty. An offset beyond the length
    /// of the view is refused with [`SnapError::OutOfRange`], never clamped.
    pub fn snap(self, at: usize) -> (halves: Result<(Self, Self), SnapError>)
        ensures
            self@.wf(),
            match halves {
                Ok((left, right)) => self@.snap(at as int) == Ok::<_, SnapError>((left@, right@)),
                Err(e) => self@.snap(at as int) == Err::<(Window<T>, Window<T>), _>(e),
            },
    {
        if at <= self.len() {
            Ok(self.split(at))
        } else {
            Err(SnapError::OutOfRange)
        }
    }

    /// Merges two views into the one that covers both.
    ///
    /// The views must look into the same buffer, or the merge is refused
    /// with [`SnapError::DifferentOrigins`]; and `left` must end where
    /// `right` starts, or it is refused with [`SnapError::NonContiguous`].
    /// The order is the caller's to get right: swapped halves are not put
    /// back in order.
    pub fn merge(left: Self, right: Self) -> (merged: Result<Self, SnapError>)
        ensures
            left@.wf(),
            right@.wf(),
            match merged {
                Ok(m) => left@.merge(right@) == Ok::<_, SnapError>(m@),
                Err(e) => left@.merge(right@) == Err::<Window<T>, _>(e),
            },
    {
        proof {
            use_type_invariant(&left);
            use_type_invariant(&right);
        }
        if left.origin != right.origin {
            Err(SnapError::DifferentOrigins)
        } else if left.range.end != right.range.start {
            Err(SnapError::NonContiguous)
        } else {
            Ok(Snap { buf: right.buf, origin: right.origin, range: left.range.start..right.range.end })
        }
    }

    /// The elements in the range of the view.
    pub fn as_slice(&self) -> (slice: &[T])
        ensures
            self@.wf(),
            slice@ == self@.items(),
    {
        proof {
            use_type_invariant(self);
        }
        vstd::slice::slice_subrange(self.buf.as_slice(), self.range.start, self.range.end)
    }

    /// The whole buffer behind the view, whatever part of it the view covers.
    pub fn buffer(&self) -> (whole: &[T])
        ensures
            self@.wf(),
            whole@ == self@.buffer,
    {
        proof {
            use_type_invariant(self);
        }
        self.buf.as_slice()
    }

    /// The element `index` positions after the start of the view, or `None`
    /// where the view has no such position.
    pub fn get(&self, index: usize) -> (element: Option<&T>)
        ensures
            self@.wf(),
            element == if index < self@.len() {
                Some(&self@.items()[index as int])
            } else {
                None
            },
    {
        proof {
            use_type_invariant(self);
        }
        if index < self.range.end - self.range.start {
            Some(&self.buf[self.range.start + index])
        } else {
            None
        }
    }

    /// The elements at the positions `range` of the view, or `None` where
    /// the bounds are out of order or reach past its end.
    pub fn get_range(&self, range: Range<usize>) -> (part: Option<&[T]>)
        ensures
            self@.wf(),
            part is Some <==> range.start <= range.end <= self@.len(),
            part matches Some(p) ==> p@ == self@.items().subrange(
                range.start as int,
                range.end as int,
            ),
    {
        proof {
            use_type_invariant(self);
        }
        if range.start <= range.end && range.end <= self.range.end - self.range.start {
            let part = vstd::slice::slice_subrange(
                self.buf.as_slice(),
                self.range.start + range.start,
                self.range.start + range.end,
            );
            Some(part)
        } else {
            None
        }
    }

    /// Mutable access to the elements in the range of the view.
    ///
    /// Access is granted only while this view is the one handle to its
    /// buffer; a view that shares its buffer gets `None` and stays as it
    /// is. The handle decides that; what it grants is handed on by
    /// [`part_of`], narrowed to the range of the view. What is written
    /// through the slice is what the view holds afterwards; the rest of the
    /// buffer, the bounds and the origin stay.
    pub fn as_mut_slice(&mut self) -> (slice: Option<&mut [T]>)
        ensures
            old(self)@.wf(),
            final(self)@.wf(),
            match slice {
                Some(s) => s@ == old(self)@.items() && final(s)@.len() == s@.len()
                    && final(self)@ == old(self)@.with_items(final(s)@),
                None => *final(self) == *old(self),
            },
    {
        proof {
            use_type_invariant(&*self);
        }
        let from = self.range.start;
        let to = self.range.end;
        part_of(unique_slice(&mut self.buf), from, to)
    }

    /// Mutable access to the element `index` positions after the start of
    /// the view.
    ///
    /// `None` where the view has no such position, and also where the view
    /// shares its buffer with another one: see [`Snap::as_mut_slice`]. What
    /// the handle grants is handed on by [`element_of`].
    pub fn get_mut(&mut self, index: usize) -> (element: Option<&mut T>)
        ensures
            old(self)@.wf(),
            final(self)@.wf(),
            index >= old(self)@.len() ==> element is None,
            match element {
                Some(e) => index < old(self)@.len() && *e == old(self)@.items()[index as int]
                    && final(self)@ == old(self)@.with_items(
                    old(self)@.items().update(index as int, *final(e)),
                ),
                None => *final(self) == *old(self),
            },
    {
        proof {
            use_type_invariant(&*self);
        }
        if index < self.range.end - self.range.start {
            let at = self.range.start + index;
            element_of(unique_slice(&mut self.buf), at)
        } else {
            None
        }
    }

    /// Mutable access to the elements at the positions `range` of the view.
    ///
    /// `None` where the bounds are out of order or reach past the end of
    /// the view, and also where the view shares its buffer with another
    /// one: see [`Snap::as_mut_slice`]. What the handle grants is handed on
    /// by [`part_of`].
    pub fn get_range_mut(&mut self, range: Range<usize>) -> (part: Option<&mut [T]>)
        ensures
            old(self)@.wf(),
            final(self)@.wf(),
            !(range.start <= range.end <= old(self)@.len()) ==> part is None,
            match part {
                Some(p) => {
                    &&& range.start <= range.end <= old(self)@.len()
                    &&& p@ == old(self)@.items().subrange(range.start as int, range.end as int)
                    &&& final(p)@.len() == p@.len()
                    &&& final(self)@ == old(self)@.with_items(
                        old(self)@.items().subrange(0, range.start as int) + final(p)@ + old(
                            self,
                        )@.items().subrange(range.end as int, old(self)@.len()),
                    )
                },
                None => *final(self) == *old(self),
            },
    {
        proof {
            use_type_invariant(&*self);
        }
        if range.start <= range.end && range.end <= self.range.end - self.range.start {
            let from = self.range.start + range.start;
            let to = self.range.start + range.end;
            part_of(unique_slice(&mut self.buf), from, to)
        } else {
            None
        }
    }

    /// Cuts the view from the front into pieces of `chunk_size` elements.
    ///
    /// Every piece but the last holds exactly `chunk_size` elements; the last
    /// holds what is left, between one element and `chunk_size` of them, or
    /// none where the view itself is empty. The pieces come in order, each
    /// starting where the one before it ends. A `chunk_size` of zero is
    /// refused with [`SnapError::ZeroChunkSize`].
    pub fn chunks(self, chunk_size: usize) -> (pieces: Result<Vec<Self>, SnapError>)
        ensures
            self@.wf(),
            match pieces {
                Ok(v) => {
                    &&& self@.chunks(chunk_size as int) == Ok::<_, SnapError>(Self::views(v@))
                    &&& v@.len() == self@.chunk_count(chunk_size as int)
                    &&& forall|i: int|
                        0 <= i < v@.len() ==> (#[trigger] v@[i])@ == self@.chunk(
                            chunk_size as int,
                            i,
                        )
                },
                Err(e) => self@.chunks(chunk_size as int) == Err::<Seq<Window<T>>, _>(e),
            },
    {
        let ghost whole = self@;
        let ghost size = chunk_size as int;
        proof {
            use_type_invariant(&self);
            assert(0 * size == 0);
        }
        if chunk_size == 0 {
            return Err(SnapError::ZeroChunkSize);
        }
        let mut pieces: Vec<Self> = Vec::new();
        let mut rest = self;
        while rest.len() > chunk_size
            invariant
                size == chunk_size >= 1,
                whole.wf(),
                rest@ == whole.with_range(whole.start + pieces@.len() * size, whole.end),
                rest@.wf(),
                rest@.len() > 0 || pieces@.len() == 0,
                forall|i: int| 0 <= i < pieces@.len() ==> (#[trigger] pieces@[i])@ == whole.chunk(size, i),
            decreases rest@.len(),
        {
            let ghost done = pieces@.len() as int;
            assert((done + 1) * size == done * size + size) by (nonlinear_arith);
            let (head, tail) = rest.split(chunk_size);
            pieces.push(head);
            rest = tail;
        }
        pieces.push(rest);
        proof {
            let done = pieces@.len() - 1;
            lemma_count_at_end(whole.len(), size, done, whole.end - (whole.start + done * size));
            assert(Self::views(pieces@) =~= whole.chunks(size).unwrap());
        }
        Ok(pieces)
    }

    /// Takes the buffer back out of the view.
    ///
    /// This succeeds while no other view of the buffer is alive, and then
    /// gives the whole buffer, not only the range of this view. While
    /// another view is alive, the view comes back unchanged.
    pub fn try_unwrap(self) -> (outcome: Result<Vec<T>, Self>)
        ensures
            self@.wf(),
            match outcome {
                Ok(vec) => vec@ == self@.buffer,
                Err(snap) => snap@ == self@,
            },
    {
        proof {
            use_type_invariant(&self);
        }
        match reclaim(self.buf) {
            Ok(vec) => Ok(vec),
            Err(buf) => Err(Snap { buf, origin: self.origin, range: self.range }),
        }
    }
}

/// With `done` full pieces cut off and `left` elements remaining, of which
/// there are at most `size`, the pieces number `done + 1`.
proof fn lemma_count_at_end(len: int, size: int, done: int, left: int)
    requires
        size >= 1,
        done >= 0,
        len == done * size + left,
        0 <= left <= size,
        left > 0 || done == 0,
    ensures
        (if len == 0 { 1 } else { (len + size - 1) / size }) == done + 1,
{
    if len != 0 {
        assert(left > 0);
        assert((done * size + left + size - 1) / size == done + 1) by (nonlinear_arith)
            requires
                size >= 1,
                done >= 0,
                0 < left <= size,
        ;
    }
}

impl<T: std::fmt::Display> Snap<T> {
    /// `texts` are written forms of `items`, one for one and in order, each
    /// such as the element's own `Display` gives.
    pub open spec fn written(items: Seq<T>, texts: Seq<String>) -> bool {
        &&& texts.len() == items.len()
        &&& forall|i: int|
            0 <= i < items.len() ==> vstd::string::to_string_from_display_ensures::<T>(
                &#[trigger] items[i],
                texts[i],
            )
    }

    /// The elements of the view as a bracketed list, such as `[0, 1, 2]`.
    ///
    /// Only the elements in the range of the view are written, each as
    /// its `Display` writes it, with `, ` between neighbours.
    pub fn to_string(&self) -> (text: String)
        ensures
            self@.wf(),
            exists|texts: Seq<String>|
                Self::written(self@.items(), texts) && text@ == bracketed(chars_of(texts)),
    {
        let items = self.as_slice();
        let mut texts: Vec<String> = Vec::new();
        let mut i: usize = 0;
        while i < items.len()
            invariant
                i <= items@.len(),
                texts@.len() == i,
                forall|j: int|
                    0 <= j < i ==> vstd::string::to_string_from_display_ensures::<T>(
                        &#[trigger] items@[j],
                        texts@[j],
                    ),
            decreases items@.len() - i,
        {
            texts.push(items[i].to_string());
            i += 1;
        }
        let text = bracketed_list(&texts);
        assert(Self::written(self@.items(), texts@));
        text
    }
}

impl<T> Clone for Snap<T> {
    /// Another view of the same range of the same buffer.
    fn clone(&self) -> (twin: Self)
        ensures
            self@.wf(),
            twin@ == self@,
    {
        proof {
            use_type_invariant(self);
        }
        Snap {
            buf: self.buf.clone(),
            origin: self.origin,
            range: self.range.start..self.range.end,
        }
    }
}

impl<T> std::ops::Deref for Snap<T> {
    type Target = [T];

    /// A view reads as the slice of its elements.
    fn deref(&self) -> (slice: &[T])
        ensures
            slice@ == self@.items(),
    {
        self.as_slice()
    }
}

impl<'a, T> IntoIterator for &'a Snap<T> {
    type Item = &'a T;

    type IntoIter = std::slice::Iter<'a, T>;

    /// Walks the elements of the view in order.
    fn into_iter(self) -> (iter: std::slice::Iter<'a, T>)
        ensures
            self@.wf(),
            IteratorSpec::remaining(&iter) == self@.items().as_ref(),
            IteratorSpec::decrease(&iter) is Some,
            IteratorSpec::initial_value_relation(&iter, &iter),
    {
        self.as_slice().iter()
    }
}

} // verus!
