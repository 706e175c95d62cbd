//! The prefix code of the language, as a mathematical function on token
//! sequences.
//!
//! Every instruction begins with a prefix that names its family, goes on with
//! the tokens that select the instruction inside the family, and may end with
//! a literal: a number or a label. The functions here say what each position
//! of a token sequence decodes to; the parser is proved against them.

use vstd::prelude::*;
use crate::lexer::Token;
use crate::parser::{DecodeError, Family, Op};
use crate::word::{lemma_wrap_in_range, wrap_i32};

verus! {

/// The token at `pos`, if there is one.
pub open spec fn token_at(tokens: Seq<Token>, pos: int) -> Option<Token> {
    if 0 <= pos < tokens.len() {
        Some(tokens[pos])
    } else {
        None
    }
}

/// The binary number that a run of digit tokens spells, most significant
/// digit first: a tab is a one, anything else a zero.
pub open spec fn magnitude(digits: Seq<Token>) -> nat
    decreases digits.len(),
{
    if digits.len() == 0 {
        0
    } else {
        2 * magnitude(digits.drop_last()) + if digits.last() == Token::Tab {
            1nat
        } else {
            0nat
        }
    }
}

/// The value of a number literal: the magnitude of its digits, negated where
/// the sign token is a tab, in 32-bit two's complement.
pub open spec fn number_value(sign: Token, digits: Seq<Token>) -> i32 {
    if sign == Token::Tab {
        wrap_i32(-(magnitude(digits) as int))
    } else {
        wrap_i32(magnitude(digits) as int)
    }
}

/// The character that a token contributes to a label.
pub open spec fn label_char(token: Token) -> char {
    if token == Token::Tab {
        '\t'
    } else {
        ' '
    }
}

/// The text of a label: one space or tab for each of its tokens.
pub open spec fn label_text(body: Seq<Token>) -> Seq<char> {
    Seq::new(body.len(), |i: int| label_char(body[i]))
}

/// The position of the first line feed at or after `from`, or the length of
/// `tokens` where none follows.
pub open spec fn literal_end(tokens: Seq<Token>, from: int) -> int
    decreases tokens.len() - from,
{
    if from < 0 || from >= tokens.len() {
        tokens.len() as int
    } else if tokens[from] == Token::LineFeed {
        from
    } else {
        literal_end(tokens, from + 1)
    }
}

/// Decodes the number literal that begins at `pos`: a sign token, digit
/// tokens, and the line feed that ends them. Gives the value and the position
/// behind the literal.
pub open spec fn decode_number(tokens: Seq<Token>, pos: int) -> Result<(i32, int), DecodeError> {
    match token_at(tokens, pos) {
        None => Err(DecodeError::UnexpectedEnd),
        Some(Token::LineFeed) => Err(DecodeError::InvalidSign),
        Some(sign) => {
            let end = literal_end(tokens, pos + 1);
            if end >= tokens.len() {
                Err(DecodeError::UnexpectedEnd)
            } else {
                Ok((number_value(sign, tokens.subrange(pos + 1, end)), end + 1))
            }
        },
    }
}

/// Decodes the label literal that begins at `pos`: spaces and tabs up to a
/// line feed. Gives the text and the position behind the literal.
pub open spec fn decode_label(tokens: Seq<Token>, pos: int) -> Result<
    (Seq<char>, int),
    DecodeError,
> {
    let end = literal_end(tokens, pos);
    if pos < 0 || end >= tokens.len() {
        Err(DecodeError::UnexpectedEnd)
    } else {
        Ok((label_text(tokens.subrange(pos, end)), end + 1))
    }
}

/// An instruction that takes a number: `make` applied to the literal at `pos`.
pub open spec fn with_number(tokens: Seq<Token>, pos: int, make: spec_fn(i32) -> Op) -> Result<
    (Op, int),
    DecodeError,
> {
    match decode_number(tokens, pos) {
        Ok((value, next)) => Ok((make(value), next)),
        Err(e) => Err(e),
    }
}

/// An instruction that takes a label: `make` applied to the literal at `pos`.
pub open spec fn with_label(tokens: Seq<Token>, pos: int, make: spec_fn(Seq<char>) -> Op) -> Result<
    (Op, int),
    DecodeError,
> {
    match decode_label(tokens, pos) {
        Ok((text, next)) => Ok((make(text), next)),
        Err(e) => Err(e),
    }
}

/// Decodes a stack manipulation whose family prefix ends just before `pos`.
pub open spec fn decode_stack_manipulation(tokens: Seq<Token>, pos: int) -> Result<
    (Op, int),
    DecodeError,
> {
    match token_at(tokens, pos) {
        None => Err(DecodeError::UnexpectedEnd),
        Some(Token::Space) => with_number(tokens, pos + 1, |n: i32| Op::Push(n)),
        Some(Token::Tab) => match token_at(tokens, pos + 1) {
            None => Err(DecodeError::UnexpectedEnd),
            Some(Token::Space) => with_number(tokens, pos + 2, |n: i32| Op::Copy(n)),
            Some(Token::LineFeed) => with_number(tokens, pos + 2, |n: i32| Op::Slide(n)),
            Some(Token::Tab) => Err(DecodeError::InvalidInstruction(Family::StackManipulation)),
        },
        Some(Token::LineFeed) => match token_at(tokens, pos + 1) {
            None => Err(DecodeError::UnexpectedEnd),
            Some(Token::Space) => Ok((Op::Duplicate, pos + 2)),
            Some(Token::Tab) => Ok((Op::Swap, pos + 2)),
            Some(Token::LineFeed) => Ok((Op::Discard, pos + 2)),
        },
    }
}

/// Decodes an arithmetic instruction whose family prefix ends just before
/// `pos`.
pub open spec fn decode_arithmetic(tokens: Seq<Token>, pos: int) -> Result<(Op, int), DecodeError> {
    match token_at(tokens, pos) {
        None => Err(DecodeError::UnexpectedEnd),
        Some(Token::Space) => match token_at(tokens, pos + 1) {
            None => Err(DecodeError::UnexpectedEnd),
            Some(Token::Space) => Ok((Op::Add, pos + 2)),
            Some(Token::Tab) => Ok((Op::Substract, pos + 2)),
            Some(Token::LineFeed) => Ok((Op::Multiply, pos + 2)),
        },
        Some(Token::Tab) => match token_at(tokens, pos + 1) {
            None => Err(DecodeError::UnexpectedEnd),
            Some(Token::Space) => Ok((Op::Divide, pos + 2)),
            Some(Token::Tab) => Ok((Op::Modulo, pos + 2)),
            Some(Token::LineFeed) => Err(DecodeError::InvalidInstruction(Family::Arithmetic)),
        },
        Some(Token::LineFeed) => Err(DecodeError::InvalidInstruction(Family::Arithmetic)),
    }
}

/// Decodes a heap access whose family prefix ends just before `pos`.
pub open spec fn decode_heap_access(tokens: Seq<Token>, pos: int) -> Result<
    (Op, int),
    DecodeError,
> {
    match token_at(tokens, pos) {
        None => Err(DecodeError::UnexpectedEnd),
        Some(Token::Space) => Ok((Op::HeapStore, pos + 1)),
        Some(Token::Tab) => Ok((Op::HeapRetrieve, pos + 1)),
        Some(Token::LineFeed) => Err(DecodeError::InvalidInstruction(Family::HeapAccess)),
    }
}

/// Decodes a flow control instruction whose family prefix ends just before
/// `pos`.
pub open spec fn decode_flow_control(tokens: Seq<Token>, pos: int) -> Result<
    (Op, int),
    DecodeError,
> {
    match token_at(tokens, pos) {
        None => Err(DecodeError::UnexpectedEnd),
        Some(Token::Space) => match token_at(tokens, pos + 1) {
            None => Err(DecodeError::UnexpectedEnd),
            Some(Token::Space) => with_label(tokens, pos + 2, |l: Seq<char>| Op::MarkLocation(l)),
            Some(Token::Tab) => with_label(tokens, pos + 2, |l: Seq<char>| Op::Call(l)),
            Some(Token::LineFeed) => with_label(tokens, pos + 2, |l: Seq<char>| Op::Jump(l)),
        },
        Some(Token::Tab) => match token_at(tokens, pos + 1) {
            None => Err(DecodeError::UnexpectedEnd),
            Some(Token::Space) => with_label(tokens, pos + 2, |l: Seq<char>| Op::JumpIfZero(l)),
            Some(Token::Tab) => with_label(tokens, pos + 2, |l: Seq<char>| Op::JumpIfNegative(l)),
            Some(Token::LineFeed) => Ok((Op::EndSubroutine, pos + 2)),
        },
        Some(Token::LineFeed) => match token_at(tokens, pos + 1) {
            None => Err(DecodeError::UnexpectedEnd),
            Some(Token::LineFeed) => Ok((Op::EndProgram, pos + 2)),
            Some(_) => Err(DecodeError::InvalidInstruction(Family::FlowControl)),
        },
    }
}

/// Decodes an input or output instruction whose family prefix ends just
/// before `pos`.
pub open spec fn decode_input_output(tokens: Seq<Token>, pos: int) -> Result<
    (Op, int),
    DecodeError,
> {
    match token_at(tokens, pos) {
        None => Err(DecodeError::UnexpectedEnd),
        Some(Token::Space) => match token_at(tokens, pos + 1) {
            None => Err(DecodeError::UnexpectedEnd),
            Some(Token::Space) => Ok((Op::OutputChar, pos + 2)),
            Some(Token::Tab) => Ok((Op::OutputNumber, pos + 2)),
            Some(Token::LineFeed) => Err(DecodeError::InvalidInstruction(Family::InputOutput)),
        },
        Some(Token::Tab) => match token_at(tokens, pos + 1) {
            None => Err(DecodeError::UnexpectedEnd),
            Some(Token::Space) => Ok((Op::ReadChar, pos + 2)),
            Some(Token::Tab) => Ok((Op::ReadNumber, pos + 2)),
            Some(Token::LineFeed) => Err(DecodeError::InvalidInstruction(Family::InputOutput)),
        },
        Some(Token::LineFeed) => Err(DecodeError::InvalidInstruction(Family::InputOutput)),
    }
}

/// Decodes the instruction that begins at `pos`. Gives the instruction and
/// the position behind it.
pub open spec fn decode_instruction(tokens: Seq<Token>, pos: int) -> Result<
    (Op, int),
    DecodeError,
> {
    match token_at(tokens, pos) {
        None => Err(DecodeError::UnexpectedEnd),
        Some(Token::Space) => decode_stack_manipulation(tokens, pos + 1),
        Some(Token::Tab) => match token_at(tokens, pos + 1) {
            None => Err(DecodeError::UnexpectedEnd),
            Some(Token::Space) => decode_arithmetic(tokens, pos + 2),
            Some(Token::Tab) => decode_heap_access(tokens, pos + 2),
            Some(Token::LineFeed) => decode_input_output(tokens, pos + 2),
        },
        Some(Token::LineFeed) => decode_flow_control(tokens, pos + 1),
    }
}

/// What decoding a token sequence from some position onwards comes to.
pub struct Decoded {
    /// The instructions decoded before the end of the tokens or the first
    /// error, in order.
    pub instructions: Seq<Op>,
    /// The error that stopped decoding, if one did.
    pub error: Option<DecodeError>,
}

/// Decodes instruction after instruction from `pos` until the tokens are used
/// up or one fails to decode.
pub open spec fn decode_from(tokens: Seq<Token>, pos: int) -> Decoded
    decreases tokens.len() - pos,
    via decode_from_decreases
{
    if pos < 0 || pos >= tokens.len() {
        Decoded { instructions: Seq::empty(), error: None }
    } else {
        match decode_instruction(tokens, pos) {
            Err(e) => Decoded { instructions: Seq::empty(), error: Some(e) },
            Ok((op, next)) => {
                let rest = decode_from(tokens, next);
                Decoded { instructions: seq![op] + rest.instructions, error: rest.error }
            },
        }
    }
}

#[via_fn]
proof fn decode_from_decreases(tokens: Seq<Token>, pos: int) {
    if 0 <= pos {
        lemma_instruction_advances(tokens, pos);
    }
}

/// A number literal whose digits spell at most 2^31 - 1 has that magnitude
/// with its sign for value, leading zeros or not: nothing wraps.
pub proof fn law_number_value_in_range(sign: Token, digits: Seq<Token>)
    requires
        magnitude(digits) <= i32::MAX,
    ensures
        number_value(sign, digits) == if sign == Token::Tab {
            -(magnitude(digits) as int)
        } else {
            magnitude(digits) as int
        },
{
    lemma_wrap_in_range(magnitude(digits) as int);
    lemma_wrap_in_range(-(magnitude(digits) as int));
}

/// A literal ends at or after the position where the search for its end
/// begins, and within the tokens.
pub proof fn lemma_literal_end_bounds(tokens: Seq<Token>, from: int)
    requires
        0 <= from <= tokens.len(),
    ensures
        from <= literal_end(tokens, from) <= tokens.len(),
        literal_end(tokens, from) < tokens.len() ==> tokens[literal_end(tokens, from)]
            == Token::LineFeed,
        forall|i: int| from <= i < literal_end(tokens, from) ==> tokens[i] != Token::LineFeed,
    decreases tokens.len() - from,
{
    if from < tokens.len() && tokens[from] != Token::LineFeed {
        lemma_literal_end_bounds(tokens, from + 1);
    }
}

/// An instruction that decodes ends behind the position where it begins, and
/// within the tokens.
pub proof fn lemma_instruction_advances(tokens: Seq<Token>, pos: int)
    requires
        0 <= pos,
    ensures
        match decode_instruction(tokens, pos) {
            Ok((_, next)) => pos < next <= tokens.len(),
            Err(_) => true,
        },
{
    // A literal begins two or three tokens into its instruction, and the
    // digits of a number one token later.
    if pos + 3 <= tokens.len() {
        lemma_literal_end_bounds(tokens, pos + 3);
    }
    if pos + 4 <= tokens.len() {
        lemma_literal_end_bounds(tokens, pos + 4);
    }
}

} // verus!
