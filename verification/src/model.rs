//! The mathematical picture of what the parser produces.
//!
//! Offsets are unbounded integers and collections are sequences, so that the
//! grammar can be written down without regard to machine limits.

use vstd::prelude::*;

verus! {

/// A half-open range `[start, end)` of byte offsets.
pub struct SpanView {
    pub start: int,
    pub end: int,
}

/// A value and the range of offsets it was read from.
pub struct LocView<V> {
    pub start: int,
    pub end: int,
    pub inner: V,
}

/// Why a parse stopped.
pub enum ParseErrorView {
    UnmatchedRightBracket,
    EndOfFile { expected: Seq<char> },
    UnexpectedChar { expected: Seq<char>, received: Seq<char> },
}

/// One unit of the parse tree.
pub enum ExprView {
    Inline { name: SpanView, args: Seq<SpanView>, body: Seq<LocView<ExprView>> },
    Block { name: SpanView, args: Seq<SpanView>, body: Seq<LocView<ExprView>> },
    Text(SpanView),
}

/// A located error.
pub type Failure = LocView<ParseErrorView>;

/// A located parse tree unit.
pub type Node = LocView<ExprView>;

/// An error without extent, placed at one offset.
pub open spec fn failure_at(offset: int, error: ParseErrorView) -> Failure {
    LocView { start: offset, end: offset, inner: error }
}

/// The text run `[start, end)`.
pub open spec fn text_node(start: int, end: int) -> Node {
    LocView { start, end, inner: ExprView::Text(SpanView { start, end }) }
}

/// An inline directive that begins at `open` and whose name is `name`.
pub open spec fn inline_node(open: int, name: SpanView) -> Node {
    LocView {
        start: open,
        end: name.end,
        inner: ExprView::Inline { name, args: Seq::empty(), body: Seq::empty() },
    }
}

/// A block directive that begins at `open` and whose name is `name`.
pub open spec fn block_node(open: int, name: SpanView) -> Node {
    LocView {
        start: open,
        end: name.end,
        inner: ExprView::Block { name, args: Seq::empty(), body: Seq::empty() },
    }
}

} // verus!
