//! What holds of every parse.

use crate::bytes::{is_structural, BLOCK_CLOSE, BLOCK_OPEN, INLINE_CLOSE, INLINE_OPEN};
use crate::grammar::{
    advance, block_stop, directive_rule, directive_stop, document, document_from, inline_stop,
    lemma_directive_rule_bounds, lemma_name_rule_bounds, lemma_skip_whitespace, name_stop,
    skip_whitespace,
};
use crate::model::{failure_at, text_node, ExprView, Failure, Node, ParseErrorView, SpanView};
use crate::parser::{outcome_view, Expr, Loc, ParseError, Parser};
use vstd::prelude::*;

verus! {

/// The cursor never moves back and never leaves the source: wherever a rule
/// starts inside the source or at its end, it stops at that offset or behind
/// it, and no later than the end.
pub proof fn lemma_cursor_moves_forward(src: Seq<u8>, pos: int)
    requires
        0 <= pos <= src.len(),
    ensures
        pos <= advance(src, pos) <= src.len(),
        pos <= skip_whitespace(src, pos) <= src.len(),
        pos <= name_stop(src, pos) <= src.len(),
        pos <= inline_stop(src, pos) <= src.len(),
        pos <= block_stop(src, pos) <= src.len(),
{
    let at_name = skip_whitespace(src, pos);
    lemma_skip_whitespace(src, pos);
    lemma_name_rule_bounds(src, pos);
    lemma_name_rule_bounds(src, at_name);
    lemma_skip_whitespace(src, name_stop(src, at_name));
}

/// Bytes that are not brackets are passed over: parsing from `pos` gives what
/// parsing from any later offset `stop` gives, as long as no bracket stands
/// between the two.
pub proof fn lemma_text_is_passed_over(src: Seq<u8>, pos: int, stop: int, text_start: int)
    requires
        0 <= pos <= stop <= src.len(),
        forall|i: int| pos <= i < stop ==> !is_structural(#[trigger] src[i]),
    ensures
        document_from(src, pos, text_start) == document_from(src, stop, text_start),
    decreases stop - pos,
{
    if pos < stop {
        lemma_text_is_passed_over(src, pos + 1, stop, text_start);
    }
}

/// A source without any bracket parses, and to no node at all: a text run is
/// only emitted in front of a directive.
pub proof fn lemma_plain_text_yields_no_nodes(src: Seq<u8>)
    requires
        forall|i: int| 0 <= i < src.len() ==> !is_structural(#[trigger] src[i]),
    ensures
        document(src) == Ok::<Seq<Node>, Failure>(Seq::empty()),
{
    lemma_text_is_passed_over(src, 0, src.len() as int, 0);
}

/// Where the first bracket of a source is a closing one, the parse fails
/// with `UnmatchedRightBracket` at that byte's offset.
pub proof fn lemma_leading_closing_bracket_is_unmatched(src: Seq<u8>, at: int)
    requires
        0 <= at < src.len(),
        src[at] == INLINE_CLOSE || src[at] == BLOCK_CLOSE,
        forall|i: int| 0 <= i < at ==> !is_structural(#[trigger] src[i]),
    ensures
        document(src) == Err::<Seq<Node>, Failure>(
            failure_at(at, ParseErrorView::UnmatchedRightBracket),
        ),
{
    lemma_text_is_passed_over(src, 0, at, 0);
}

/// A text run as the document rule emits it: its span is its range, it ends
/// at an offset inside the source, and it begins no later than one past its
/// end.
pub open spec fn placed_text(node: Node, src: Seq<u8>) -> bool {
    &&& node.inner == ExprView::Text(SpanView { start: node.start, end: node.end })
    &&& 0 <= node.start <= node.end + 1
    &&& node.end < src.len()
}

/// The range of a directive and the span of its name: the range begins at
/// the opening byte and ends where the name ends, inside the source, and the
/// name begins behind the opening byte.
pub open spec fn placed_name(node: Node, name: SpanView, src: Seq<u8>) -> bool {
    0 <= node.start < name.start <= name.end == node.end < src.len()
}

/// A directive as the document rule emits it: an inline node at a `[` or a
/// block node at a `{`, with its name placed and without arguments or body.
pub open spec fn placed_directive(node: Node, src: Seq<u8>) -> bool {
    match node.inner {
        ExprView::Inline { name, args, body } => {
            &&& placed_name(node, name, src)
            &&& src[node.start] == INLINE_OPEN
            &&& args.len() == 0
            &&& body.len() == 0
        },
        ExprView::Block { name, args, body } => {
            &&& placed_name(node, name, src)
            &&& src[node.start] == BLOCK_OPEN
            &&& args.len() == 0
            &&& body.len() == 0
        },
        ExprView::Text(_) => false,
    }
}

/// Text runs and directives take turns, a text run first, from `text_start`
/// on: each text run ends where its directive begins, and the next one begins
/// one past that directive's end.
pub open spec fn takes_turns(nodes: Seq<Node>, src: Seq<u8>, text_start: int) -> bool {
    &&& nodes.len() % 2 == 0
    &&& forall|i: int|
        0 <= i < nodes.len() ==> if i % 2 == 0 {
            placed_text(#[trigger] nodes[i], src)
        } else {
            placed_directive(nodes[i], src)
        }
    &&& nodes.len() > 0 ==> nodes[0].start == text_start
    &&& forall|i: int|
        0 <= i && i + 1 < nodes.len() ==> if i % 2 == 0 {
            (#[trigger] nodes[i]).end == nodes[i + 1].start
        } else {
            nodes[i].end + 1 == nodes[i + 1].start
        }
}

/// Whatever is parsed from `pos` on, with a pending text run that began at
/// `text_start`, is a sequence in which text runs and directives take turns.
pub proof fn lemma_nodes_take_turns(src: Seq<u8>, pos: int, text_start: int)
    requires
        0 <= pos <= src.len(),
        0 <= text_start <= pos + 1,
    ensures
        document_from(src, pos, text_start) matches Ok(nodes) ==> takes_turns(
            nodes,
            src,
            text_start,
        ),
    decreases src.len() - pos,
{
    if pos < src.len() {
        if src[pos] == INLINE_OPEN || src[pos] == BLOCK_OPEN {
            lemma_directive_rule_bounds(src, pos);
            if let Ok(node) = directive_rule(src, pos) {
                let next = directive_stop(src, pos);
                lemma_directive_is_placed(src, pos);
                lemma_nodes_take_turns(src, next, node.end + 1);
                if let Ok(rest) = document_from(src, next, node.end + 1) {
                    let head = seq![text_node(text_start, pos), node];
                    let nodes = head + rest;
                    assert(document_from(src, pos, text_start) == Ok::<Seq<Node>, Failure>(nodes));
                    assert forall|i: int| 0 <= i < nodes.len() implies if i % 2 == 0 {
                        placed_text(#[trigger] nodes[i], src)
                    } else {
                        placed_directive(nodes[i], src)
                    } by {
                        if i >= 2 {
                            assert(nodes[i] == rest[i - 2]);
                        }
                    }
                    assert forall|i: int| 0 <= i && i + 1 < nodes.len() implies if i % 2 == 0 {
                        (#[trigger] nodes[i]).end == nodes[i + 1].start
                    } else {
                        nodes[i].end + 1 == nodes[i + 1].start
                    } by {
                        if i >= 2 {
                            assert(nodes[i] == rest[i - 2]);
                            assert(nodes[i + 1] == rest[i - 2 + 1]);
                        } else if i == 1 {
                            assert(nodes[2] == rest[0]);
                        }
                    }
                }
            }
        } else if src[pos] == INLINE_CLOSE || src[pos] == BLOCK_CLOSE {
        } else {
            lemma_nodes_take_turns(src, pos + 1, text_start);
        }
    }
}

/// The directive read at an opening byte is placed at that byte.
pub proof fn lemma_directive_is_placed(src: Seq<u8>, pos: int)
    requires
        0 <= pos < src.len(),
        src[pos] == INLINE_OPEN || src[pos] == BLOCK_OPEN,
    ensures
        directive_rule(src, pos) matches Ok(node) ==> node.start == pos && placed_directive(
            node,
            src,
        ),
{
    let at_name = skip_whitespace(src, pos + 1);
    lemma_skip_whitespace(src, pos + 1);
    lemma_name_rule_bounds(src, at_name);
}

/// A source that parses gives text runs and directives in turn, the first
/// text run from offset 0 on, each inside the source.
pub proof fn lemma_document_takes_turns(src: Seq<u8>)
    ensures
        document(src) matches Ok(nodes) ==> takes_turns(nodes, src, 0),
{
    lemma_nodes_take_turns(src, 0, 0);
}

/// An error that stops the parse from `pos` on has no extent, and its offset
/// is one of the source or the length of the source.
pub proof fn lemma_failure_is_a_point(src: Seq<u8>, pos: int, text_start: int)
    requires
        0 <= pos <= src.len(),
    ensures
        document_from(src, pos, text_start) matches Err(failure) ==> 0 <= failure.start
            == failure.end <= src.len(),
    decreases src.len() - pos,
{
    if pos < src.len() {
        if src[pos] == INLINE_OPEN || src[pos] == BLOCK_OPEN {
            lemma_directive_rule_bounds(src, pos);
            let at_name = skip_whitespace(src, pos + 1);
            lemma_skip_whitespace(src, pos + 1);
            lemma_name_rule_bounds(src, at_name);
            lemma_skip_whitespace(src, name_stop(src, at_name));
            if let Ok(node) = directive_rule(src, pos) {
                lemma_failure_is_a_point(src, directive_stop(src, pos), node.end + 1);
            }
        } else if src[pos] == INLINE_CLOSE || src[pos] == BLOCK_CLOSE {
        } else {
            lemma_failure_is_a_point(src, pos + 1, text_start);
        }
    }
}

/// Parsing is a function of the bytes alone: two parsers that stand at the
/// start of equal sources give equal outcomes, node for node or error for
/// error.
pub proof fn lemma_same_source_same_outcome(
    first: Parser,
    second: Parser,
    first_outcome: Result<Vec<Loc<Expr>>, Loc<ParseError>>,
    second_outcome: Result<Vec<Loc<Expr>>, Loc<ParseError>>,
)
    requires
        first.source() == second.source(),
        first.position() == 0,
        second.position() == 0,
        outcome_view(first_outcome) == document_from(first.source(), first.position(), 0),
        outcome_view(second_outcome) == document_from(second.source(), second.position(), 0),
    ensures
        outcome_view(first_outcome) == outcome_view(second_outcome),
        outcome_view(first_outcome) == document(first.source()),
{
}

} // verus!
