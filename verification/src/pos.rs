//! A value together with the place in the text where it was found.

use std::ops::{Range, RangeInclusive};
use vstd::prelude::*;

verus! {

/// A value with the range of bytes and the range of lines that it covers.
/// The byte range excludes its end, the line range includes it.
#[derive(Debug, PartialEq)]
pub struct WithPos<T> {
    pub value: T,
    byte_pos: Range<usize>,
    line_pos: RangeInclusive<usize>,
}

impl<T> WithPos<T> {
    /// The value that is wrapped.
    pub closed spec fn value(&self) -> T {
        self.value
    }

    /// The byte range of this value.
    pub closed spec fn byte_pos(&self) -> Range<usize> {
        self.byte_pos
    }

    /// The line range of this value.
    pub closed spec fn line_pos(&self) -> RangeInclusive<usize> {
        self.line_pos
    }

    /// The byte range runs from `bytes.0` up to `bytes.1`, and the line
    /// range from `lines.0` up to and with `lines.1`.
    pub open spec fn covers(&self, bytes: (nat, nat), lines: (nat, nat)) -> bool {
        &&& self.byte_pos().start == bytes.0
        &&& self.byte_pos().end == bytes.1
        &&& self.line_pos()@.start == lines.0
        &&& self.line_pos()@.end == lines.1
        &&& !self.line_pos()@.exhausted
    }

    /// The value with the given ranges.
    pub closed spec fn assemble(
        value: T,
        byte_pos: Range<usize>,
        line_pos: RangeInclusive<usize>,
    ) -> Self {
        WithPos { value, byte_pos, line_pos }
    }

    /// Wraps `value`, with the empty byte range at 0 and the line range from
    /// 0 to 0.
    pub fn new(value: T) -> (r: Self)
        ensures
            r.value() == value,
            r.byte_pos() == (0usize..0usize),
            r.line_pos()@.start == 0,
            r.line_pos()@.end == 0,
            !r.line_pos()@.exhausted,
    {
        Self { value, byte_pos: 0..0, line_pos: 0..=0 }
    }

    /// The same value and line range with the byte range `pos`.
    pub fn set_byte_pos(self, pos: Range<usize>) -> (r: Self)
        ensures
            r.value() == self.value(),
            r.byte_pos() == pos,
            r.line_pos() == self.line_pos(),
    {
        let mut this = self;
        this.byte_pos = pos;
        this
    }

    /// The same value and byte range with the line range `pos`.
    pub fn set_line_pos(self, pos: RangeInclusive<usize>) -> (r: Self)
        ensures
            r.value() == self.value(),
            r.byte_pos() == self.byte_pos(),
            r.line_pos() == pos,
    {
        let mut this = self;
        this.line_pos = pos;
        this
    }

    /// The value, by reference.
    pub fn get_value(&self) -> (r: &T)
        ensures
            *r == self.value(),
    {
        &self.value
    }

    /// The value alone; the ranges are dropped.
    pub fn into_value(self) -> (r: T)
        ensures
            r == self.value(),
    {
        self.value
    }

    /// The byte range.
    pub fn get_byte_pos(&self) -> (r: &Range<usize>)
        ensures
            *r == self.byte_pos(),
    {
        &self.byte_pos
    }

    /// The line range.
    pub fn get_line_pos(&self) -> (r: &RangeInclusive<usize>)
        ensures
            *r == self.line_pos(),
    {
        &self.line_pos
    }
}

impl<T> From<(T, Range<usize>, RangeInclusive<usize>)> for WithPos<T> {
    /// A value, its byte range and its line range, in this order.
    fn from(value: (T, Range<usize>, RangeInclusive<usize>)) -> (r: Self)
        ensures
            r.value() == value.0,
            r.byte_pos() == value.1,
            r.line_pos() == value.2,
    {
        Self { value: value.0, byte_pos: value.1, line_pos: value.2 }
    }
}

impl<T> vstd::std_specs::convert::FromSpecImpl<(T, Range<usize>, RangeInclusive<usize>)> for WithPos<T> {
    open spec fn obeys_from_spec() -> bool {
        true
    }

    open spec fn from_spec(value: (T, Range<usize>, RangeInclusive<usize>)) -> Self {
        Self::assemble(value.0, value.1, value.2)
    }
}

impl<T> From<(T, RangeInclusive<usize>, Range<usize>)> for WithPos<T> {
    /// A value, its line range and its byte range, in this order.
    fn from(value: (T, RangeInclusive<usize>, Range<usize>)) -> (r: Self)
        ensures
            r.value() == value.0,
            r.byte_pos() == value.2,
            r.line_pos() == value.1,
    {
        Self { value: value.0, byte_pos: value.2, line_pos: value.1 }
    }
}

impl<T> vstd::std_specs::convert::FromSpecImpl<(T, RangeInclusive<usize>, Range<usize>)> for WithPos<T> {
    open spec fn obeys_from_spec() -> bool {
        true
    }

    open spec fn from_spec(value: (T, RangeInclusive<usize>, Range<usize>)) -> Self {
        Self::assemble(value.0, value.2, value.1)
    }
}

} // verus!
