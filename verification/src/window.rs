//! The mathematical model of a view: which buffer, and which part of it.

use crate::error::SnapError;
use vstd::prelude::*;

verus! {

/// What a view denotes: the half-open range `[start, end)` of a buffer.
///
/// `origin` says which buffer is meant. It is the address at which the
/// buffer was allocated, so two windows have one origin exactly when they
/// look into the same allocation; equal contents do not make equal origins.
#[verifier::ext_equal]
pub struct Window<T> {
    pub origin: usize,
    pub buffer: Seq<T>,
    pub start: int,
    pub end: int,
}

impl<T> Window<T> {
    /// The range lies inside the buffer.
    pub open spec fn wf(self) -> bool {
        0 <= self.start <= self.end <= self.buffer.len()
    }

    /// The window over all of `buffer`.
    pub open spec fn whole(origin: usize, buffer: Seq<T>) -> Self {
        Window { origin, buffer, start: 0, end: buffer.len() as int }
    }

    /// Number of elements in the range.
    pub open spec fn len(self) -> int {
        self.end - self.start
    }

    /// The elements in the range, in order.
    pub open spec fn items(self) -> Seq<T> {
        self.buffer.subrange(self.start, self.end)
    }

    /// The window denotes its entire buffer, not a fragment of it.
    pub open spec fn is_complete(self) -> bool {
        self.start == 0 && self.end == self.buffer.len()
    }

    /// Both windows look into the same allocation.
    pub open spec fn same_origin(self, other: Self) -> bool {
        self.origin == other.origin
    }

    /// `right` begins where `self` ends, in one buffer.
    pub open spec fn adjacent(self, right: Self) -> bool {
        self.same_origin(right) && self.end == right.start
    }

    /// The same buffer seen through another range.
    pub open spec fn with_range(self, start: int, end: int) -> Self {
        Window { origin: self.origin, buffer: self.buffer, start, end }
    }

    /// The window after the elements in its range were replaced by `items`,
    /// one for one.
    pub open spec fn with_items(self, items: Seq<T>) -> Self {
        Window {
            origin: self.origin,
            buffer: self.buffer.subrange(0, self.start) + items + self.buffer.subrange(
                self.end,
                self.buffer.len() as int,
            ),
            start: self.start,
            end: self.end,
        }
    }

    /// The two halves of the window, cut `at` positions after its start.
    pub open spec fn split(self, at: int) -> (Self, Self) {
        (
            self.with_range(self.start, self.start + at),
            self.with_range(self.start + at, self.end),
        )
    }

    /// Splitting, with its refusal: offsets past the end are out of range.
    pub open spec fn snap(self, at: int) -> Result<(Self, Self), SnapError> {
        if 0 <= at <= self.len() {
            Ok(self.split(at))
        } else {
            Err(SnapError::OutOfRange)
        }
    }

    /// Merging, with its refusals. The origin is looked at first, then the
    /// order. Windows of one origin share one buffer, so the merged window
    /// keeps the handle of the right one.
    pub open spec fn merge(self, right: Self) -> Result<Self, SnapError> {
        if !self.same_origin(right) {
            Err(SnapError::DifferentOrigins)
        } else if self.end != right.start {
            Err(SnapError::NonContiguous)
        } else {
            Ok(right.with_range(self.start, right.end))
        }
    }

    /// Into how many pieces of `size` elements the window is cut: as many
    /// as it takes to hold every element, and one, empty, piece for a window
    /// that holds none.
    pub open spec fn chunk_count(self, size: int) -> int {
        if self.len() == 0 {
            1
        } else {
            (self.len() + size - 1) / size
        }
    }

    /// The piece number `i` of the window cut into pieces of `size`
    /// elements: it starts `i * size` positions in and ends `size` positions
    /// later, or at the end of the window if that comes first.
    pub open spec fn chunk(self, size: int, i: int) -> Self {
        let start = self.start + i * size;
        let end = if start + size <= self.end {
            start + size
        } else {
            self.end
        };
        self.with_range(start, end)
    }

    /// The window cut from the front into pieces of `size` elements, the last
    /// of which holds what is left.
    pub open spec fn chunks(self, size: int) -> Result<Seq<Self>, SnapError> {
        if size >= 1 {
            Ok(Seq::new(self.chunk_count(size) as nat, |i: int| self.chunk(size, i)))
        } else {
            Err(SnapError::ZeroChunkSize)
        }
    }

    /// The pieces merged back from left to right, one at a time.
    pub open spec fn merge_all(parts: Seq<Self>) -> Result<Self, SnapError>
        recommends
            parts.len() >= 1,
        decreases parts.len(),
    {
        if parts.len() <= 1 {
            Ok(parts[0])
        } else {
            match Self::merge_all(parts.drop_last()) {
                Ok(merged) => merged.merge(parts.last()),
                Err(e) => Err(e),
            }
        }
    }
}

} // verus!
