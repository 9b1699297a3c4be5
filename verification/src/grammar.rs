//! The grammar, as functions of the source bytes and an offset.
//!
//! Each rule comes as two functions of the offset at which it starts: what it
//! yields there, a value or the error that stops the parse, and the offset at
//! which it leaves the cursor, whether it failed or not.

use crate::bytes::{
    is_alphabetic, is_alphanumeric, is_whitespace, BLOCK_CLOSE, BLOCK_OPEN, INLINE_CLOSE,
    INLINE_OPEN, PIPE,
};
use crate::model::{
    block_node, failure_at, inline_node, text_node, Failure, Node, ParseErrorView, SpanView,
};
use crate::text::{as_character, as_decimal};
use vstd::prelude::*;

verus! {

/// The next unread byte with its offset, if there is one.
pub open spec fn lookahead(src: Seq<u8>, pos: int) -> Option<(int, u8)> {
    if 0 <= pos < src.len() {
        Some((pos, src[pos]))
    } else {
        None
    }
}

/// The offset after one more byte was taken, which is `pos` itself at the end
/// of input.
pub open spec fn advance(src: Seq<u8>, pos: int) -> int {
    if 0 <= pos < src.len() {
        pos + 1
    } else {
        pos
    }
}

/// The first offset from `pos` on whose byte is not whitespace, or the end of
/// input where there is none.
pub open spec fn skip_whitespace(src: Seq<u8>, pos: int) -> int
    decreases src.len() - pos,
{
    if 0 <= pos < src.len() && is_whitespace(src[pos]) {
        skip_whitespace(src, pos + 1)
    } else {
        pos
    }
}

/// The first offset from `pos` on whose byte is neither a letter nor a digit,
/// or the end of input where there is none.
pub open spec fn skip_alphanumeric(src: Seq<u8>, pos: int) -> int
    decreases src.len() - pos,
{
    if 0 <= pos < src.len() && is_alphanumeric(src[pos]) {
        skip_alphanumeric(src, pos + 1)
    } else {
        pos
    }
}

/// The span of the directive name that begins at `pos`.
///
/// The name is a letter and the letters and digits that follow it. Its span
/// ends at the first byte that is not part of it; where the name runs to the
/// end of input, the span ends one offset before the end.
pub open spec fn name_rule(src: Seq<u8>, pos: int) -> Result<SpanView, Failure> {
    if !(0 <= pos < src.len()) {
        Err(failure_at(src.len() as int, ParseErrorView::EndOfFile { expected: "name"@ }))
    } else if !is_alphabetic(src[pos]) {
        Err(
            failure_at(
                pos,
                ParseErrorView::UnexpectedChar {
                    expected: "letter"@,
                    received: as_decimal(src[pos]),
                },
            ),
        )
    } else {
        let stop = skip_alphanumeric(src, pos + 1);
        Ok(
            SpanView {
                start: pos,
                end: if stop < src.len() {
                    stop
                } else {
                    src.len() - 1
                },
            },
        )
    }
}

/// Where the name rule leaves the cursor: behind the name, behind the one
/// byte that is no letter, or at the end of input.
pub open spec fn name_stop(src: Seq<u8>, pos: int) -> int {
    if !(0 <= pos < src.len()) {
        pos
    } else if !is_alphabetic(src[pos]) {
        pos + 1
    } else {
        skip_alphanumeric(src, pos + 1)
    }
}

/// Whether the byte at `pos` is `wanted`. The cursor is left at
/// `advance(src, pos)` either way.
pub open spec fn expect_rule(src: Seq<u8>, pos: int, wanted: u8) -> Result<(), Failure> {
    if !(0 <= pos < src.len()) {
        Err(
            failure_at(
                src.len() as int,
                ParseErrorView::EndOfFile { expected: as_character(wanted) },
            ),
        )
    } else if src[pos] != wanted {
        Err(
            failure_at(
                pos,
                ParseErrorView::UnexpectedChar {
                    expected: as_character(wanted),
                    received: as_character(src[pos]),
                },
            ),
        )
    } else {
        Ok(())
    }
}

/// The inline directive whose bracket stands at `open`, read from `pos` on:
/// whitespace, a name, whitespace. No closing bracket is asked for.
pub open spec fn inline_rule(src: Seq<u8>, pos: int, open: int) -> Result<Node, Failure> {
    match name_rule(src, skip_whitespace(src, pos)) {
        Ok(name) => Ok(inline_node(open, name)),
        Err(failure) => Err(failure),
    }
}

/// Where the inline rule leaves the cursor: behind the whitespace that
/// follows the name, or where the name rule failed.
pub open spec fn inline_stop(src: Seq<u8>, pos: int) -> int {
    let at_name = skip_whitespace(src, pos);
    if name_rule(src, at_name) is Ok {
        skip_whitespace(src, name_stop(src, at_name))
    } else {
        name_stop(src, at_name)
    }
}

/// The block directive whose brace stands at `open`, read from `pos` on:
/// whitespace, a name, whitespace, a pipe.
pub open spec fn block_rule(src: Seq<u8>, pos: int, open: int) -> Result<Node, Failure> {
    let at_name = skip_whitespace(src, pos);
    match name_rule(src, at_name) {
        Ok(name) => match expect_rule(src, skip_whitespace(src, name_stop(src, at_name)), PIPE) {
            Ok(()) => Ok(block_node(open, name)),
            Err(failure) => Err(failure),
        },
        Err(failure) => Err(failure),
    }
}

/// Where the block rule leaves the cursor: behind the byte that had to be the
/// pipe, or where the name rule failed.
pub open spec fn block_stop(src: Seq<u8>, pos: int) -> int {
    let at_name = skip_whitespace(src, pos);
    if name_rule(src, at_name) is Ok {
        advance(src, skip_whitespace(src, name_stop(src, at_name)))
    } else {
        name_stop(src, at_name)
    }
}

/// The directive that the opening byte at `pos` introduces.
pub open spec fn directive_rule(src: Seq<u8>, pos: int) -> Result<Node, Failure> {
    if src[pos] == INLINE_OPEN {
        inline_rule(src, pos + 1, pos)
    } else {
        block_rule(src, pos + 1, pos)
    }
}

/// Where the directive that begins at `pos` leaves the cursor.
pub open spec fn directive_stop(src: Seq<u8>, pos: int) -> int {
    if src[pos] == INLINE_OPEN {
        inline_stop(src, pos + 1)
    } else {
        block_stop(src, pos + 1)
    }
}

/// The outcome `rest` with the nodes `first` put before what it holds.
pub open spec fn after(first: Seq<Node>, rest: Result<Seq<Node>, Failure>) -> Result<
    Seq<Node>,
    Failure,
> {
    match rest {
        Ok(nodes) => Ok(first + nodes),
        Err(failure) => Err(failure),
    }
}

/// The nodes read from `pos` on, where the pending text run began at
/// `text_start`.
///
/// An opening byte closes the pending run as a text node and is followed by
/// its directive; the next run begins one past the directive's range. A
/// closing byte is an error. Any other byte belongs to the pending run. The
/// run that is pending at the end of input is not emitted.
pub open spec fn document_from(src: Seq<u8>, pos: int, text_start: int) -> Result<
    Seq<Node>,
    Failure,
>
    decreases src.len() - pos,
{
    if !(0 <= pos < src.len()) {
        Ok(Seq::empty())
    } else if src[pos] == INLINE_OPEN || src[pos] == BLOCK_OPEN {
        match directive_rule(src, pos) {
            Ok(node) => {
                proof {
                    lemma_directive_rule_bounds(src, pos);
                }
                after(
                    seq![text_node(text_start, pos), node],
                    document_from(src, directive_stop(src, pos), node.end + 1),
                )
            },
            Err(failure) => Err(failure),
        }
    } else if src[pos] == INLINE_CLOSE || src[pos] == BLOCK_CLOSE {
        Err(failure_at(pos, ParseErrorView::UnmatchedRightBracket))
    } else {
        document_from(src, pos + 1, text_start)
    }
}

/// The outcome of parsing the whole of `src`.
pub open spec fn document(src: Seq<u8>) -> Result<Seq<Node>, Failure> {
    document_from(src, 0, 0)
}

/// Putting nodes before an outcome in two steps is putting them before it at
/// once, and putting none before it changes nothing.
pub proof fn lemma_after_joins(
    first: Seq<Node>,
    second: Seq<Node>,
    rest: Result<Seq<Node>, Failure>,
)
    ensures
        after(first, after(second, rest)) == after(first + second, rest),
        after(Seq::empty(), rest) == rest,
        after(first, Ok(Seq::empty())) == Ok::<Seq<Node>, Failure>(first),
{
    if let Ok(nodes) = rest {
        assert(first + (second + nodes) =~= (first + second) + nodes);
        assert(Seq::<Node>::empty() + nodes =~= nodes);
    }
    assert(first + Seq::<Node>::empty() =~= first);
}

/// Skipping whitespace stops at the first byte that is not whitespace and
/// passes over whitespace only.
pub proof fn lemma_skip_whitespace(src: Seq<u8>, pos: int)
    requires
        0 <= pos <= src.len(),
    ensures
        pos <= skip_whitespace(src, pos) <= src.len(),
        forall|i: int| pos <= i < skip_whitespace(src, pos) ==> is_whitespace(#[trigger] src[i]),
        skip_whitespace(src, pos) < src.len() ==> !is_whitespace(src[skip_whitespace(src, pos)]),
    decreases src.len() - pos,
{
    if pos < src.len() && is_whitespace(src[pos]) {
        lemma_skip_whitespace(src, pos + 1);
    }
}

/// Skipping letters and digits stops at the first byte that is neither and
/// passes over letters and digits only.
pub proof fn lemma_skip_alphanumeric(src: Seq<u8>, pos: int)
    requires
        0 <= pos <= src.len(),
    ensures
        pos <= skip_alphanumeric(src, pos) <= src.len(),
        forall|i: int|
            pos <= i < skip_alphanumeric(src, pos) ==> is_alphanumeric(#[trigger] src[i]),
        skip_alphanumeric(src, pos) < src.len() ==> !is_alphanumeric(
            src[skip_alphanumeric(src, pos)],
        ),
    decreases src.len() - pos,
{
    if pos < src.len() && is_alphanumeric(src[pos]) {
        lemma_skip_alphanumeric(src, pos + 1);
    }
}

/// A name that is read takes at least one byte, all of them letters and
/// digits, and its span begins where it was read and ends inside the input,
/// at the offset where the cursor is left or one before it.
pub proof fn lemma_name_rule_bounds(src: Seq<u8>, pos: int)
    requires
        0 <= pos <= src.len(),
    ensures
        pos <= name_stop(src, pos) <= src.len(),
        name_rule(src, pos) matches Ok(name) ==> {
            &&& pos < name_stop(src, pos)
            &&& name.start == pos
            &&& pos <= name.end < src.len()
            &&& name.end <= name_stop(src, pos) <= name.end + 1
            &&& is_alphabetic(src[pos])
            &&& forall|i: int| pos <= i < name_stop(src, pos) ==> is_alphanumeric(#[trigger] src[i])
        },
{
    if pos < src.len() {
        lemma_skip_alphanumeric(src, pos + 1);
    }
}

/// A directive that is read takes its opening byte and at least one more,
/// begins at the opening byte and ends inside the input, no later than where
/// the cursor is left.
pub proof fn lemma_directive_rule_bounds(src: Seq<u8>, pos: int)
    requires
        0 <= pos < src.len(),
    ensures
        pos < directive_stop(src, pos) <= src.len(),
        directive_rule(src, pos) matches Ok(node) ==> {
            &&& pos + 1 < directive_stop(src, pos)
            &&& node.start == pos
            &&& pos < node.end < src.len()
            &&& node.end <= directive_stop(src, pos)
        },
{
    let at_name = skip_whitespace(src, pos + 1);
    lemma_skip_whitespace(src, pos + 1);
    lemma_name_rule_bounds(src, at_name);
    lemma_skip_whitespace(src, name_stop(src, at_name));
}

} // verus!
