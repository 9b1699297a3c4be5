//! The parse tree, the errors, and the cursor with its rules.
//!
//! Every rule is a method of [`Parser`] that reads from the cursor on. Its
//! contract names the function of [`crate::grammar`] that says what it yields
//! and the one that says where it leaves the cursor.

use crate::bytes::{
    byte_is_alphabetic, byte_is_alphanumeric, byte_is_whitespace, is_alphabetic, BLOCK_CLOSE,
    BLOCK_OPEN, INLINE_CLOSE, INLINE_OPEN, PIPE,
};
use crate::grammar::{
    advance, after, block_rule, block_stop, document_from, expect_rule, inline_rule, inline_stop,
    lemma_after_joins, lemma_directive_rule_bounds, lookahead, name_rule, name_stop,
    skip_alphanumeric, skip_whitespace,
};
use crate::model::{text_node, ExprView, Failure, LocView, Node, ParseErrorView, SpanView};
use crate::text::{character_string, decimal_string};
use std::fmt::Debug;
use std::ops::Range;
use vstd::prelude::*;
use vstd::std_specs::convert::IntoSpec;

verus! {

/// A value together with the half-open range of byte offsets `[start, end)`
/// that it was read from.
///
/// The offsets count bytes of the source that was parsed. An error has a
/// range without extent, which marks one offset.
#[derive(Debug, PartialEq, Eq)]
pub struct Loc<T: Debug> {
    pub range: Range<usize>,
    pub inner: T,
}

/// Why a parse stopped.
#[derive(Debug, PartialEq, Eq)]
pub enum ParseError {
    /// A `]` or `}` outside of any rule.
    UnmatchedRightBracket,
    /// The input ended where `expected` had to follow.
    EndOfFile { expected: String },
    /// The byte shown as `received` stands where `expected` had to.
    UnexpectedChar { expected: String, received: String },
}

/// One unit of the parse tree. Spans are ranges of byte offsets into the
/// source; no text is copied out of it.
#[derive(Debug, PartialEq, Eq)]
pub enum Expr {
    /// A directive introduced by `[`. The parser leaves `args` and `body`
    /// empty.
    Inline { name: Range<usize>, args: Vec<Range<usize>>, body: Vec<Loc<Expr>> },
    /// A directive introduced by `{`, with a pipe behind its name. The parser
    /// leaves `args` and `body` empty.
    Block { name: Range<usize>, args: Vec<Range<usize>>, body: Vec<Loc<Expr>> },
    /// A run of bytes between directives.
    Text(Range<usize>),
}

/// The offsets of a range as unbounded integers.
pub open spec fn span_view(range: Range<usize>) -> SpanView {
    SpanView { start: range.start as int, end: range.end as int }
}

/// The offsets of each range of a list.
pub open spec fn spans_view(ranges: Seq<Range<usize>>) -> Seq<SpanView> {
    Seq::new(ranges.len(), |i: int| span_view(ranges[i]))
}

/// The mathematical picture of a parse tree unit.
pub open spec fn expr_view(expr: Expr) -> ExprView
    decreases expr, 0nat,
{
    match expr {
        Expr::Inline { name, args, body } => ExprView::Inline {
            name: span_view(name),
            args: spans_view(args@),
            body: nodes_view(body@),
        },
        Expr::Block { name, args, body } => ExprView::Block {
            name: span_view(name),
            args: spans_view(args@),
            body: nodes_view(body@),
        },
        Expr::Text(span) => ExprView::Text(span_view(span)),
    }
}

/// The mathematical picture of each node of a list, in the same order.
pub open spec fn nodes_view(nodes: Seq<Loc<Expr>>) -> Seq<Node>
    decreases nodes, 1nat,
{
    Seq::new(
        nodes.len(),
        |i: int|
            LocView {
                start: nodes[i].range.start as int,
                end: nodes[i].range.end as int,
                inner: if 0 <= i < nodes.len() {
                    expr_view(nodes[i].inner)
                } else {
                    arbitrary()
                },
            },
    )
}

impl View for Expr {
    type V = ExprView;

    open spec fn view(&self) -> ExprView {
        expr_view(*self)
    }
}

impl View for ParseError {
    type V = ParseErrorView;

    open spec fn view(&self) -> ParseErrorView {
        match self {
            ParseError::UnmatchedRightBracket => ParseErrorView::UnmatchedRightBracket,
            ParseError::EndOfFile { expected } => ParseErrorView::EndOfFile { expected: expected@ },
            ParseError::UnexpectedChar { expected, received } => ParseErrorView::UnexpectedChar {
                expected: expected@,
                received: received@,
            },
        }
    }
}

impl<T: Debug + View> View for Loc<T> {
    type V = LocView<T::V>;

    open spec fn view(&self) -> LocView<T::V> {
        LocView { start: self.range.start as int, end: self.range.end as int, inner: self.inner@ }
    }
}

/// The outcome of a parse, as the grammar states it.
pub open spec fn outcome_view(outcome: Result<Vec<Loc<Expr>>, Loc<ParseError>>) -> Result<
    Seq<Node>,
    Failure,
> {
    match outcome {
        Ok(nodes) => Ok(nodes_view(nodes@)),
        Err(failure) => Err(failure@),
    }
}

/// A cursor over the bytes of one source text. The position starts at 0,
/// never moves back and never passes the end of the source.
pub struct Parser {
    source: Vec<u8>,
    idx: usize,
}

impl Parser {
    #[verifier::type_invariant]
    spec fn in_bounds(&self) -> bool {
        self.idx <= self.source@.len()
    }

    /// The bytes that are parsed.
    pub closed spec fn source(&self) -> Seq<u8> {
        self.source@
    }

    /// The offset of the next unread byte.
    pub closed spec fn position(&self) -> int {
        self.idx as int
    }

    /// A parser at the start of the given bytes.
    pub fn from_bytes(source: Vec<u8>) -> (parser: Self)
        ensures
            parser.source() == source@,
            parser.position() == 0,
    {
        Parser { source, idx: 0 }
    }

    /// A parser at the start of the bytes that `source` converts into.
    pub fn new<T: Into<Vec<u8>>>(source: T) -> (parser: Self)
        ensures
            parser.position() == 0,
            exists|bytes: Vec<u8>|
                call_ensures(T::into, (source,), bytes) && parser.source() == bytes@,
            T::obeys_into_spec() ==> parser.source() == source.into_spec()@,
    {
        Parser::from_bytes(source.into())
    }

    /// The next unread byte and its offset, without taking it; `None` at the
    /// end of input.
    pub fn peek(&self) -> (next: Option<(usize, u8)>)
        ensures
            match next {
                Some((idx, byte)) => lookahead(self.source(), self.position()) == Some(
                    (idx as int, byte),
                ),
                None => lookahead(self.source(), self.position()).is_none(),
            },
    {
        proof {
            use_type_invariant(self);
        }
        if self.idx < self.source.len() {
            Some((self.idx, self.source[self.idx]))
        } else {
            None
        }
    }

    /// Takes the next unread byte and hands it out with its offset. At the
    /// end of input nothing is taken and the position stays.
    pub fn bump(&mut self) -> (next: Option<(usize, u8)>)
        ensures
            final(self).source() == old(self).source(),
            final(self).position() == advance(old(self).source(), old(self).position()),
            match next {
                Some((idx, byte)) => lookahead(old(self).source(), old(self).position()) == Some(
                    (idx as int, byte),
                ),
                None => lookahead(old(self).source(), old(self).position()).is_none(),
            },
    {
        proof {
            use_type_invariant(&*self);
        }
        if self.idx < self.source.len() {
            let idx = self.idx;
            self.idx += 1;
            Some((idx, self.source[idx]))
        } else {
            None
        }
    }

    /// Parses the source from the cursor on into text runs and directives, or
    /// stops at the first error.
    ///
    /// Each directive is preceded by the text run that leads up to it, which
    /// begins at offset 0 or one past the range of the directive before. A
    /// `]` or `}` that no rule has taken is an error. The text behind the last
    /// directive is not emitted, so a source without directives gives no node.
    pub fn parse_document(self) -> (outcome: Result<Vec<Loc<Expr>>, Loc<ParseError>>)
        ensures
            outcome_view(outcome) == document_from(self.source(), self.position(), 0),
    {
        let ghost src = self.source();
        let ghost begin = self.position();
        let mut parser = self;
        let mut exprs: Vec<Loc<Expr>> = Vec::new();
        let mut start_idx: usize = 0;
        proof {
            assert(nodes_view(exprs@) =~= Seq::empty());
            lemma_after_joins(Seq::empty(), Seq::empty(), document_from(src, begin, 0));
        }
        loop
            invariant
                src == self.source(),
                begin == self.position(),
                parser.source() == src,
                document_from(src, begin, 0) == after(
                    nodes_view(exprs@),
                    document_from(src, parser.position(), start_idx as int),
                ),
            ensures
                document_from(src, begin, 0) == Ok::<Seq<Node>, Failure>(nodes_view(exprs@)),
            decreases src.len() - parser.position(),
        {
            proof {
                use_type_invariant(&parser);
            }
            let ghost before = nodes_view(exprs@);
            let ghost pos = parser.position();
            match parser.bump() {
                None => {
                    proof {
                        lemma_after_joins(before, Seq::empty(), Ok(Seq::empty()));
                    }
                    break ;
                },
                Some((idx, c)) => {
                    if c == INLINE_OPEN || c == BLOCK_OPEN {
                        exprs.push(Loc { range: start_idx..idx, inner: Expr::Text(start_idx..idx) });
                        let directive = if c == INLINE_OPEN {
                            parser.parse_inline(idx)
                        } else {
                            parser.parse_block(idx)
                        };
                        match directive {
                            Ok(found) => {
                                let ghost pair = seq![text_node(start_idx as int, pos), found@];
                                proof {
                                    lemma_directive_rule_bounds(src, pos);
                                    assert(found@.end < parser.source.len());
                                    lemma_after_joins(
                                        before,
                                        pair,
                                        document_from(src, parser.position(), found@.end + 1),
                                    );
                                }
                                start_idx = found.range.end + 1;
                                exprs.push(found);
                                proof {
                                    assert(nodes_view(exprs@) =~= before + pair);
                                }
                            },
                            Err(failure) => {
                                return Err(failure);
                            },
                        }
                    } else if c == INLINE_CLOSE || c == BLOCK_CLOSE {
                        return Err(
                            Loc { range: idx..idx, inner: ParseError::UnmatchedRightBracket },
                        );
                    }
                },
            }
        }
        Ok(exprs)
    }

    /// Takes bytes up to the first one that is not ASCII whitespace.
    pub fn take_whitespace(&mut self)
        ensures
            final(self).source() == old(self).source(),
            final(self).position() == skip_whitespace(old(self).source(), old(self).position()),
    {
        loop
            invariant
                self.source() == old(self).source(),
                skip_whitespace(old(self).source(), old(self).position()) == skip_whitespace(
                    self.source(),
                    self.position(),
                ),
            ensures
                self.source() == old(self).source(),
                self.position() == skip_whitespace(old(self).source(), old(self).position()),
            decreases self.source().len() - self.position(),
        {
            proof {
                use_type_invariant(&*self);
            }
            match self.peek() {
                Some((_, c)) => {
                    if byte_is_whitespace(c) {
                        self.bump();
                    } else {
                        break ;
                    }
                },
                None => {
                    break ;
                },
            }
        }
    }

    /// Takes one byte, which has to be `expected_char`.
    ///
    /// At the end of input the error is `EndOfFile`, placed at the length of
    /// the source. Another byte is taken all the same, and is reported as
    /// `UnexpectedChar` at its own offset. Both show the bytes as characters.
    pub fn expect_char(&mut self, expected_char: u8) -> (outcome: Result<(), Loc<ParseError>>)
        ensures
            final(self).source() == old(self).source(),
            final(self).position() == advance(old(self).source(), old(self).position()),
            match expect_rule(old(self).source(), old(self).position(), expected_char) {
                Ok(()) => outcome.is_ok(),
                Err(failure) => outcome matches Err(found) && found@ == failure,
            },
    {
        proof {
            use_type_invariant(&*self);
        }
        match self.bump() {
            None => Err(
                Loc {
                    range: self.source.len()..self.source.len(),
                    inner: ParseError::EndOfFile { expected: character_string(expected_char) },
                },
            ),
            Some((idx, c)) => {
                if c == expected_char {
                    Ok(())
                } else {
                    Err(
                        Loc {
                            range: idx..idx,
                            inner: ParseError::UnexpectedChar {
                                expected: character_string(expected_char),
                                received: character_string(c),
                            },
                        },
                    )
                }
            },
        }
    }

    /// Reads a directive name: a letter, then letters and digits as far as
    /// they go.
    ///
    /// The span runs from the first letter to the first byte that is not part
    /// of the name. A name that runs to the end of input has its span end one
    /// offset before the end. At the end of input the error is `EndOfFile`,
    /// placed at the length of the source; a first byte that is no letter is
    /// taken and reported as `UnexpectedChar` at its own offset, shown as a
    /// decimal number.
    pub fn parse_name(&mut self) -> (outcome: Result<Range<usize>, Loc<ParseError>>)
        ensures
            final(self).source() == old(self).source(),
            final(self).position() == name_stop(old(self).source(), old(self).position()),
            match name_rule(old(self).source(), old(self).position()) {
                Ok(name) => outcome matches Ok(found) && span_view(found) == name,
                Err(failure) => outcome matches Err(found) && found@ == failure,
            },
    {
        proof {
            use_type_invariant(&*self);
        }
        let (start_idx, c) = match self.bump() {
            None => {
                return Err(
                    Loc {
                        range: self.source.len()..self.source.len(),
                        inner: ParseError::EndOfFile { expected: "name".to_string() },
                    },
                );
            },
            Some(taken) => taken,
        };
        if !byte_is_alphabetic(c) {
            return Err(
                Loc {
                    range: start_idx..start_idx,
                    inner: ParseError::UnexpectedChar {
                        expected: "letter".to_string(),
                        received: decimal_string(c),
                    },
                },
            );
        }
        loop
            invariant
                self.source() == old(self).source(),
                start_idx == old(self).position(),
                start_idx < self.source().len(),
                is_alphabetic(self.source()[start_idx as int]),
                skip_alphanumeric(old(self).source(), start_idx + 1) == skip_alphanumeric(
                    self.source(),
                    self.position(),
                ),
            ensures
                self.source() == old(self).source(),
                start_idx == old(self).position(),
                self.position() == self.source().len(),
                self.position() == skip_alphanumeric(old(self).source(), start_idx + 1),
            decreases self.source().len() - self.position(),
        {
            proof {
                use_type_invariant(&*self);
            }
            match self.peek() {
                Some((idx, c)) => {
                    if byte_is_alphanumeric(c) {
                        self.bump();
                    } else {
                        return Ok(start_idx..idx);
                    }
                },
                None => {
                    break ;
                },
            }
        }
        Ok(start_idx..(self.source.len() - 1))
    }

    /// Reads what follows the `[` at `start_idx`: whitespace, a name,
    /// whitespace. The node spans from `start_idx` to the end of the name.
    pub fn parse_inline(&mut self, start_idx: usize) -> (outcome: Result<
        Loc<Expr>,
        Loc<ParseError>,
    >)
        ensures
            final(self).source() == old(self).source(),
            final(self).position() == inline_stop(old(self).source(), old(self).position()),
            match inline_rule(old(self).source(), old(self).position(), start_idx as int) {
                Ok(node) => outcome matches Ok(found) && found@ == node,
                Err(failure) => outcome matches Err(found) && found@ == failure,
            },
    {
        self.take_whitespace();
        let name = match self.parse_name() {
            Ok(name) => name,
            Err(failure) => {
                return Err(failure);
            },
        };
        self.take_whitespace();
        let end = name.end;
        let found = Loc {
            range: start_idx..end,
            inner: Expr::Inline { name, args: Vec::new(), body: Vec::new() },
        };
        proof {
            assert(found@.inner->Inline_args =~= Seq::empty());
            assert(found@.inner->Inline_body =~= Seq::empty());
        }
        Ok(found)
    }

    /// Reads what follows the `{` at `start_idx`: whitespace, a name,
    /// whitespace, a pipe. The node spans from `start_idx` to the end of the
    /// name and leaves the pipe out.
    pub fn parse_block(&mut self, start_idx: usize) -> (outcome: Result<
        Loc<Expr>,
        Loc<ParseError>,
    >)
        ensures
            final(self).source() == old(self).source(),
            final(self).position() == block_stop(old(self).source(), old(self).position()),
            match block_rule(old(self).source(), old(self).position(), start_idx as int) {
                Ok(node) => outcome matches Ok(found) && found@ == node,
                Err(failure) => outcome matches Err(found) && found@ == failure,
            },
    {
        self.take_whitespace();
        let name = match self.parse_name() {
            Ok(name) => name,
            Err(failure) => {
                return Err(failure);
            },
        };
        self.take_whitespace();
        match self.expect_char(PIPE) {
            Ok(()) => {},
            Err(failure) => {
                return Err(failure);
            },
        }
        let end = name.end;
        let found = Loc {
            range: start_idx..end,
            inner: Expr::Block { name, args: Vec::new(), body: Vec::new() },
        };
        proof {
            assert(found@.inner->Block_args =~= Seq::empty());
            assert(found@.inner->Block_body =~= Seq::empty());
        }
        Ok(found)
    }
}

} // verus!
