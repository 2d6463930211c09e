//! A byte window into a file: a starting offset and a count of bytes to read.
//!
//! `apply_filesize` clamps a requested window against the authoritative size
//! of the file, so that the window never reaches past the end of the file and,
//! for a nonempty file, always starts inside it.

use vstd::prelude::*;

verus! {

/// The smaller of two byte counts.
pub open spec fn min64(a: u64, b: u64) -> u64 {
    if a <= b {
        a
    } else {
        b
    }
}

/// Where a window starts once clamped against the size of the file: the
/// requested start, pulled back to the last byte when it lies past the end,
/// and to zero for an empty file.
pub open spec fn clamped_start(start: u64, file_size: u64) -> u64 {
    if file_size == 0 {
        0
    } else {
        min64((file_size - 1) as u64, start)
    }
}

/// How many bytes a window covers once clamped against the size of the file:
/// the requested count, cut down to what remains from the clamped start, and
/// zero for an empty file.
pub open spec fn clamped_offset(start: u64, offset: u64, file_size: u64) -> u64 {
    if file_size == 0 {
        0
    } else {
        min64((file_size - clamped_start(start, file_size)) as u64, offset)
    }
}

/// A byte window: `start` is the first byte offset, `offset` the number of
/// bytes the window covers.
#[derive(Clone, Copy)]
pub struct Range {
    start: u64,
    offset: u64,
}

impl Range {
    /// The first byte offset of the window.
    pub closed spec fn spec_start(&self) -> u64 {
        self.start
    }

    /// The number of bytes the window covers.
    pub closed spec fn spec_offset(&self) -> u64 {
        self.offset
    }

    pub fn new(start: u64, offset: u64) -> (r: Self)
        ensures
            r.spec_start() == start,
            r.spec_offset() == offset,
    {
        Self { start, offset }
    }

    pub fn start(&self) -> (r: u64)
        ensures
            r == self.spec_start(),
    {
        self.start
    }

    pub fn offset(&self) -> (r: u64)
        ensures
            r == self.spec_offset(),
    {
        self.offset
    }

    /// Clamps the window against the size of the file it will be read from:
    /// the clamped window starts at the requested offset, or at the last byte
    /// of the file if the request lies past the end, and covers no more bytes
    /// than remain from there.  An empty file yields the empty window at zero.
    ///
    /// For every `file_size > 0` the result satisfies
    /// `start < file_size` and `start + offset <= file_size`.
    pub fn apply_filesize(&self, file_size: u64) -> (r: Self)
        ensures
            r.spec_start() == clamped_start(self.spec_start(), file_size),
            r.spec_offset() == clamped_offset(self.spec_start(), self.spec_offset(), file_size),
            r.spec_start() + r.spec_offset() <= file_size,
            file_size > 0 ==> r.spec_start() < file_size,
    {
        if file_size == 0 {
            return Self { start: 0, offset: 0 };
        }
        let start = if file_size - 1 <= self.start {
            file_size - 1
        } else {
            self.start
        };
        let offset = if file_size - start <= self.offset {
            file_size - start
        } else {
            self.offset
        };
        Self { start, offset }
    }
}

impl Default for Range {
    /// The empty window at offset zero.
    fn default() -> (r: Self)
        ensures
            r.spec_start() == 0,
            r.spec_offset() == 0,
    {
        Self { start: 0, offset: 0 }
    }
}

} // verus!
