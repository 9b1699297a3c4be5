use markup_parser::parser::{Expr, Loc, ParseError, Parser};
use std::ops::Range;

fn text(start: usize, end: usize) -> Loc<Expr> {
    Loc { range: Range { start, end }, inner: Expr::Text(Range { start, end }) }
}

fn inline(open: usize, name: Range<usize>) -> Loc<Expr> {
    Loc {
        range: open..name.end,
        inner: Expr::Inline { name, args: Vec::new(), body: Vec::new() },
    }
}

fn block(open: usize, name: Range<usize>) -> Loc<Expr> {
    Loc {
        range: open..name.end,
        inner: Expr::Block { name, args: Vec::new(), body: Vec::new() },
    }
}

fn end_of_file(at: usize, expected: &str) -> Loc<ParseError> {
    Loc { range: at..at, inner: ParseError::EndOfFile { expected: expected.to_string() } }
}

fn unexpected(at: usize, expected: &str, received: &str) -> Loc<ParseError> {
    Loc {
        range: at..at,
        inner: ParseError::UnexpectedChar {
            expected: expected.to_string(),
            received: received.to_string(),
        },
    }
}

fn unmatched(at: usize) -> Loc<ParseError> {
    Loc { range: at..at, inner: ParseError::UnmatchedRightBracket }
}

#[test]
fn empty_source_has_no_nodes() {
    assert_eq!(Parser::new("").parse_document(), Ok(vec![]));
}

#[test]
fn plain_text_is_not_emitted() {
    assert_eq!(Parser::new("hello world").parse_document(), Ok(vec![]));
}

#[test]
fn plain_text_may_hold_pipes_and_other_bytes() {
    let source: Vec<u8> = vec![0xff, 0x00, b'|', b' ', b'a', 0x80, b'\n'];
    assert_eq!(Parser::new(source).parse_document(), Ok(vec![]));
}

#[test]
fn text_behind_the_last_directive_is_not_emitted() {
    assert_eq!(
        Parser::new("ab[c] and more").parse_document().map_err(|failure| failure.range),
        Err(4..4)
    );
    assert_eq!(
        Parser::new("ab{c| and more").parse_document(),
        Ok(vec![text(0, 2), block(2, 3..4)])
    );
}

#[test]
fn inline_name_at_end_of_input_parses_with_short_span() {
    assert_eq!(Parser::new("[bold").parse_document(), Ok(vec![text(0, 0), inline(0, 1..4)]));
}

#[test]
fn inline_after_text_at_end_of_input() {
    assert_eq!(
        Parser::new("hello world [bold").parse_document(),
        Ok(vec![text(0, 12), inline(12, 13..16)])
    );
}

#[test]
fn single_letter_name_at_end_of_input_has_empty_span() {
    assert_eq!(Parser::new("[a").parse_document(), Ok(vec![text(0, 0), inline(0, 1..1)]));
}

#[test]
fn inline_without_name_at_end_of_input_is_end_of_file() {
    assert_eq!(Parser::new("[").parse_document(), Err(end_of_file(1, "name")));
    assert_eq!(Parser::new("[ \t").parse_document(), Err(end_of_file(3, "name")));
    assert_eq!(Parser::new("text {").parse_document(), Err(end_of_file(6, "name")));
}

#[test]
fn closing_bracket_after_inline_is_unmatched() {
    assert_eq!(Parser::new("[bold]").parse_document(), Err(unmatched(5)));
}

#[test]
fn block_with_pipe_parses() {
    assert_eq!(Parser::new("{box|").parse_document(), Ok(vec![text(0, 0), block(0, 1..4)]));
}

#[test]
fn block_range_leaves_out_whitespace_and_pipe() {
    assert_eq!(
        Parser::new("{ box  | rest").parse_document(),
        Ok(vec![text(0, 0), block(0, 2..5)])
    );
}

#[test]
fn block_without_pipe_at_end_of_input_is_end_of_file() {
    assert_eq!(Parser::new("{box").parse_document(), Err(end_of_file(4, "|")));
    assert_eq!(Parser::new("{box  ").parse_document(), Err(end_of_file(6, "|")));
}

#[test]
fn block_with_other_byte_for_pipe_is_unexpected() {
    assert_eq!(Parser::new("{a}").parse_document(), Err(unexpected(2, "|", "}")));
    assert_eq!(Parser::new("{a b|").parse_document(), Err(unexpected(3, "|", "b")));
}

#[test]
fn block_with_byte_above_ascii_for_pipe_shows_it_as_character() {
    let source: Vec<u8> = vec![b'{', b'a', 0xe9];
    assert_eq!(Parser::new(source).parse_document(), Err(unexpected(2, "|", "\u{e9}")));
}

#[test]
fn bare_closing_bracket_is_unmatched_at_its_offset() {
    assert_eq!(Parser::new("]").parse_document(), Err(unmatched(0)));
    assert_eq!(Parser::new("}").parse_document(), Err(unmatched(0)));
    assert_eq!(Parser::new("ab}cd").parse_document(), Err(unmatched(2)));
}

#[test]
fn name_that_begins_with_no_letter_is_unexpected() {
    assert_eq!(Parser::new("[1").parse_document(), Err(unexpected(1, "letter", "49")));
    assert_eq!(Parser::new("[]").parse_document(), Err(unexpected(1, "letter", "93")));
    assert_eq!(Parser::new("{ |").parse_document(), Err(unexpected(2, "letter", "124")));
    assert_eq!(Parser::new("[[").parse_document(), Err(unexpected(1, "letter", "91")));
}

#[test]
fn vertical_tab_is_no_whitespace() {
    assert_eq!(Parser::new("[\u{b}name").parse_document(), Err(unexpected(1, "letter", "11")));
}

#[test]
fn every_kind_of_whitespace_is_skipped_around_a_name() {
    assert_eq!(
        Parser::new("[ \t\n\u{c}\rb2 \n]").parse_document(),
        Err(unmatched(10))
    );
    assert_eq!(
        Parser::new("[ \t\n\u{c}\rb2 \n").parse_document(),
        Ok(vec![text(0, 0), inline(0, 6..8)])
    );
}

#[test]
fn directives_and_text_runs_come_in_source_order() {
    assert_eq!(
        Parser::new("a[b c{d|e").parse_document(),
        Ok(vec![text(0, 1), inline(1, 2..3), text(4, 5), block(5, 6..7)])
    );
}

#[test]
fn text_run_begins_one_past_the_directive_range() {
    assert_eq!(
        Parser::new("[a[b").parse_document(),
        Ok(vec![text(0, 0), inline(0, 1..2), text(3, 2), inline(2, 3..3)])
    );
    assert_eq!(
        Parser::new("{a|{b|").parse_document(),
        Ok(vec![text(0, 0), block(0, 1..2), text(3, 3), block(3, 4..5)])
    );
}

#[test]
fn bytes_above_ascii_are_text() {
    let source: Vec<u8> = vec![0xc3, 0xa9, b'[', b'x', 0xc3];
    assert_eq!(Parser::new(source).parse_document(), Ok(vec![text(0, 2), inline(2, 3..4)]));
}

#[test]
fn first_error_stops_the_parse() {
    assert_eq!(Parser::new("[a {b| ] [1").parse_document(), Err(unmatched(7)));
    assert_eq!(Parser::new("[a [1 ]").parse_document(), Err(unexpected(4, "letter", "49")));
}

#[test]
fn source_may_be_given_as_bytes_or_text() {
    let from_text = Parser::new("x{y|").parse_document();
    let from_string = Parser::new(String::from("x{y|")).parse_document();
    let from_slice = Parser::new(&b"x{y|"[..]).parse_document();
    let from_vec = Parser::from_bytes(vec![b'x', b'{', b'y', b'|']).parse_document();
    assert_eq!(from_text, Ok(vec![text(0, 1), block(1, 2..3)]));
    assert_eq!(from_string, from_text);
    assert_eq!(from_slice, from_text);
    assert_eq!(from_vec, from_text);
}

#[test]
fn parsing_goes_on_from_where_the_cursor_stands() {
    let mut parser = Parser::new("] [a");
    assert_eq!(parser.bump(), Some((0, b']')));
    assert_eq!(parser.parse_document(), Ok(vec![text(0, 2), inline(2, 3..3)]));
}
