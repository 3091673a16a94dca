use vstd::prelude::*;

verus! {

/// A position as the parser reports it: row and column count from zero, the
/// column in bytes within its row, and `byte` is the offset from the start of
/// the text.
#[derive(Clone, Copy, Debug, PartialEq, Eq, Structural)]
pub struct RawPosition {
    pub row: u32,
    pub column: u32,
    pub byte: u32,
}

/// A position as shown to a reader: the line counts from one, the column is a
/// byte offset within the line and counts from zero.
#[derive(Clone, Copy, Debug, PartialEq, Eq, Structural)]
pub struct Position {
    pub line: u64,
    pub column: u64,
}

/// A start and an end position for display.
#[derive(Clone, Copy, Debug, PartialEq, Eq, Structural)]
pub struct HumanSpan {
    pub start: Position,
    pub end: Position,
}

/// A start and an end byte offset into the text. The offsets are signed so
/// that the pair (0, -1) can stand for a span that is not set.
#[derive(Clone, Copy, Debug, PartialEq, Eq, Structural)]
pub struct ByteSpan {
    pub start: i64,
    pub end: i64,
}

impl RawPosition {
    /// `self` is not after `other`: rows first, then columns, and the byte
    /// offsets agree with that order.
    pub open spec fn not_after(self, other: RawPosition) -> bool {
        &&& self.byte <= other.byte
        &&& (self.row < other.row || (self.row == other.row && self.column <= other.column))
    }
}

impl RawPosition {
    /// Tells whether `self` is not after `other`.
    pub fn is_not_after(&self, other: &RawPosition) -> (r: bool)
        ensures
            r == self.not_after(*other),
    {
        self.byte <= other.byte && (self.row < other.row || (self.row == other.row && self.column
            <= other.column))
    }
}

/// The order of parser positions is transitive.
pub proof fn lemma_not_after_is_transitive(a: RawPosition, b: RawPosition, c: RawPosition)
    requires
        a.not_after(b),
        b.not_after(c),
    ensures
        a.not_after(c),
{
}

impl Position {
    /// `self` is not after `other` in the order of lines, then columns.
    pub open spec fn not_after(self, other: Position) -> bool {
        self.line < other.line || (self.line == other.line && self.column <= other.column)
    }
}

impl HumanSpan {
    /// The start is not after the end.
    pub open spec fn ordered(self) -> bool {
        self.start.not_after(self.end)
    }

    /// `inner` lies within `self`.
    pub open spec fn encloses(self, inner: HumanSpan) -> bool {
        self.start.not_after(inner.start) && inner.end.not_after(self.end)
    }
}

impl ByteSpan {
    /// The span that is not set.
    pub open spec fn unset_span() -> ByteSpan {
        ByteSpan { start: 0i64, end: -1i64 }
    }

    /// The start is not after the end.
    pub open spec fn ordered(self) -> bool {
        self.start <= self.end
    }

    /// `inner` lies within `self`.
    pub open spec fn encloses(self, inner: ByteSpan) -> bool {
        self.start <= inner.start && inner.end <= self.end
    }

    /// The span that is not set, (0, -1).
    pub fn unset() -> (span: ByteSpan)
        ensures
            span == ByteSpan::unset_span(),
    {
        ByteSpan { start: 0, end: -1 }
    }
}

/// The display position of a parser position: the row plus one, the column
/// as it is.
pub open spec fn display_position(p: RawPosition) -> Position {
    Position { line: (p.row + 1) as u64, column: p.column as u64 }
}

/// The display span of a pair of parser positions.
pub open spec fn display_span(start: RawPosition, end: RawPosition) -> HumanSpan {
    HumanSpan { start: display_position(start), end: display_position(end) }
}

/// The byte span of a pair of parser positions.
pub open spec fn byte_range(start: RawPosition, end: RawPosition) -> ByteSpan {
    ByteSpan { start: start.byte as i64, end: end.byte as i64 }
}

/// Converts a parser position into an endpoint of a display span and the byte
/// offset for a byte span. The offset is handed on unchanged.
pub fn convert_point(p: RawPosition) -> (r: (Position, i64))
    ensures
        r.0 == display_position(p),
        r.0.line == p.row + 1,
        r.0.column == p.column,
        r.1 == p.byte,
{
    let row: u64 = p.row as u64;
    (Position { line: row + 1, column: p.column as u64 }, p.byte as i64)
}

/// The display span and the byte span between two parser positions.
pub fn convert_range(start: RawPosition, end: RawPosition) -> (r: (HumanSpan, ByteSpan))
    ensures
        r.0 == display_span(start, end),
        r.1 == byte_range(start, end),
{
    let (from, from_byte) = convert_point(start);
    let (to, to_byte) = convert_point(end);
    (HumanSpan { start: from, end: to }, ByteSpan { start: from_byte, end: to_byte })
}

/// Conversion keeps the order of positions: where the parser's start is not
/// after its end, the display span and the byte span are ordered.
pub proof fn lemma_conversion_keeps_order(start: RawPosition, end: RawPosition)
    requires
        start.not_after(end),
    ensures
        display_span(start, end).ordered(),
        byte_range(start, end).ordered(),
        display_position(start).not_after(display_position(end)),
{
}

} // verus!
