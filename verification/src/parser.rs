//! Decoding of a token sequence into instructions.

use vstd::prelude::*;
use vstd::string::*;
use crate::grammar::{
    decode_arithmetic, decode_flow_control, decode_from, decode_heap_access, decode_input_output,
    decode_label, decode_number, decode_stack_manipulation, label_char, label_text,
    lemma_instruction_advances, literal_end, magnitude, token_at,
};
use crate::lexer::Token;
use crate::word::{lemma_apply_sign, lemma_shift_in, wrap_i32};

verus! {

/// The five families of instructions, each named by its own token prefix.
#[derive(Debug, PartialEq, Eq, Clone, Copy, Structural)]
pub enum Family {
    StackManipulation,
    Arithmetic,
    HeapAccess,
    FlowControl,
    InputOutput,
}

/// Why a token sequence does not decode.
#[derive(Debug, PartialEq, Eq, Clone, Copy, Structural)]
pub enum DecodeError {
    /// The tokens ran out in the middle of an instruction or of a literal.
    UnexpectedEnd,
    /// The tokens behind the prefix of a family select none of its
    /// instructions.
    InvalidInstruction(Family),
    /// A number literal begins with a line feed in place of its sign.
    InvalidSign,
}

/// One instruction of the stack machine.
#[derive(Debug, PartialEq, Eq, Clone)]
pub enum Instruction {
    Push(i32),
    Duplicate,
    Copy(i32),
    Swap,
    Discard,
    Slide(i32),
    Add,
    Substract,
    Multiply,
    Divide,
    Modulo,
    HeapStore,
    HeapRetrieve,
    MarkLocation(String),
    Call(String),
    Jump(String),
    JumpIfZero(String),
    JumpIfNegative(String),
    EndSubroutine,
    EndProgram,
    OutputChar,
    OutputNumber,
    ReadChar,
    ReadNumber,
}

/// The mathematical value of an [`Instruction`]: the same cases, with each
/// label as the sequence of its characters.
pub enum Op {
    Push(i32),
    Duplicate,
    Copy(i32),
    Swap,
    Discard,
    Slide(i32),
    Add,
    Substract,
    Multiply,
    Divide,
    Modulo,
    HeapStore,
    HeapRetrieve,
    MarkLocation(Seq<char>),
    Call(Seq<char>),
    Jump(Seq<char>),
    JumpIfZero(Seq<char>),
    JumpIfNegative(Seq<char>),
    EndSubroutine,
    EndProgram,
    OutputChar,
    OutputNumber,
    ReadChar,
    ReadNumber,
}

impl View for Instruction {
    type V = Op;

    open spec fn view(&self) -> Op {
        match self {
            Instruction::Push(n) => Op::Push(*n),
            Instruction::Duplicate => Op::Duplicate,
            Instruction::Copy(n) => Op::Copy(*n),
            Instruction::Swap => Op::Swap,
            Instruction::Discard => Op::Discard,
            Instruction::Slide(n) => Op::Slide(*n),
            Instruction::Add => Op::Add,
            Instruction::Substract => Op::Substract,
            Instruction::Multiply => Op::Multiply,
            Instruction::Divide => Op::Divide,
            Instruction::Modulo => Op::Modulo,
            Instruction::HeapStore => Op::HeapStore,
            Instruction::HeapRetrieve => Op::HeapRetrieve,
            Instruction::MarkLocation(label) => Op::MarkLocation(label@),
            Instruction::Call(label) => Op::Call(label@),
            Instruction::Jump(label) => Op::Jump(label@),
            Instruction::JumpIfZero(label) => Op::JumpIfZero(label@),
            Instruction::JumpIfNegative(label) => Op::JumpIfNegative(label@),
            Instruction::EndSubroutine => Op::EndSubroutine,
            Instruction::EndProgram => Op::EndProgram,
            Instruction::OutputChar => Op::OutputChar,
            Instruction::OutputNumber => Op::OutputNumber,
            Instruction::ReadChar => Op::ReadChar,
            Instruction::ReadNumber => Op::ReadNumber,
        }
    }
}

/// The family that an instruction belongs to.
pub open spec fn family_of(op: Op) -> Family {
    match op {
        Op::Push(_) | Op::Duplicate | Op::Copy(_) | Op::Swap | Op::Discard | Op::Slide(_) => {
            Family::StackManipulation
        },
        Op::Add | Op::Substract | Op::Multiply | Op::Divide | Op::Modulo => Family::Arithmetic,
        Op::HeapStore | Op::HeapRetrieve => Family::HeapAccess,
        Op::MarkLocation(_)
        | Op::Call(_)
        | Op::Jump(_)
        | Op::JumpIfZero(_)
        | Op::JumpIfNegative(_)
        | Op::EndSubroutine
        | Op::EndProgram => Family::FlowControl,
        Op::OutputChar | Op::OutputNumber | Op::ReadChar | Op::ReadNumber => Family::InputOutput,
    }
}

impl Instruction {
    /// The family that the instruction belongs to.
    pub fn family(&self) -> (family: Family)
        ensures
            family == family_of(self@),
    {
        match self {
            Instruction::Push(_)
            | Instruction::Duplicate
            | Instruction::Copy(_)
            | Instruction::Swap
            | Instruction::Discard
            | Instruction::Slide(_) => Family::StackManipulation,
            Instruction::Add
            | Instruction::Substract
            | Instruction::Multiply
            | Instruction::Divide
            | Instruction::Modulo => Family::Arithmetic,
            Instruction::HeapStore | Instruction::HeapRetrieve => Family::HeapAccess,
            Instruction::MarkLocation(_)
            | Instruction::Call(_)
            | Instruction::Jump(_)
            | Instruction::JumpIfZero(_)
            | Instruction::JumpIfNegative(_)
            | Instruction::EndSubroutine
            | Instruction::EndProgram => Family::FlowControl,
            Instruction::OutputChar
            | Instruction::OutputNumber
            | Instruction::ReadChar
            | Instruction::ReadNumber => Family::InputOutput,
        }
    }
}

/// The mathematical value of an instruction sequence.
pub open spec fn program_of(instructions: Seq<Instruction>) -> Seq<Op> {
    Seq::new(instructions.len(), |i: int| instructions[i]@)
}

/// Decodes a token sequence, instruction by instruction, into `output`.
#[derive(Debug)]
pub struct Parser {
    input: Vec<Token>,
    current: usize,
    pub output: Vec<Instruction>,
}

/// What a method that decodes one instruction leaves behind: the tokens
/// untouched, and either the expected instruction appended to the output and
/// the position behind it, or the expected error and the output as it was.
spec fn appended(
    before: Parser,
    after: Parser,
    result: Result<(), DecodeError>,
    expected: Result<(Op, int), DecodeError>,
) -> bool {
    &&& after.wf()
    &&& after.tokens() == before.tokens()
    &&& match expected {
        Ok((op, next)) => {
            &&& result is Ok
            &&& after.position() == next
            &&& after.program() == before.program().push(op)
        },
        Err(e) => result == Err::<(), DecodeError>(e) && after.program() == before.program(),
    }
}

impl Parser {
    /// The tokens that the parser decodes.
    pub closed spec fn tokens(&self) -> Seq<Token> {
        self.input@
    }

    /// The number of tokens consumed so far.
    pub closed spec fn position(&self) -> int {
        self.current as int
    }

    /// The instructions decoded so far, as mathematical values.
    pub closed spec fn program(&self) -> Seq<Op> {
        program_of(self.output@)
    }

    /// The position lies within the tokens or just behind them.
    pub closed spec fn wf(&self) -> bool {
        self.current <= self.input.len()
    }

    /// A parser at the start of `tokens`, with no instruction decoded yet.
    pub fn new(tokens: Vec<Token>) -> (parser: Self)
        ensures
            parser.wf(),
            parser.tokens() == tokens@,
            parser.position() == 0,
            parser.program() == Seq::<Op>::empty(),
    {
        let parser = Self { input: tokens, current: 0, output: Vec::new() };
        parser
    }

    /// The instructions decoded so far.
    pub fn instructions(&self) -> (instructions: &Vec<Instruction>)
        ensures
            program_of(instructions@) == self.program(),
    {
        &self.output
    }

    /// Whether every token is consumed.
    fn is_at_end(&self) -> (at_end: bool)
        ensures
            at_end == (self.position() >= self.tokens().len()),
    {
        self.current >= self.input.len()
    }

    /// Consumes one token, or reports that none is left.
    fn advance(&mut self) -> (r: Result<Token, DecodeError>)
        requires
            old(self).wf(),
        ensures
            final(self).wf(),
            final(self).tokens() == old(self).tokens(),
            final(self).output == old(self).output,
            match token_at(old(self).tokens(), old(self).position()) {
                Some(token) => {
                    &&& r == Ok::<Token, DecodeError>(token)
                    &&& final(self).position() == old(self).position() + 1
                },
                None => {
                    &&& r == Err::<Token, DecodeError>(DecodeError::UnexpectedEnd)
                    &&& final(self).position() == old(self).position()
                },
            },
    {
        if self.current >= self.input.len() {
            return Err(DecodeError::UnexpectedEnd);
        }
        let token = self.input[self.current];
        self.current += 1;
        Ok(token)
    }

    /// Decodes every instruction from the current position to the end of the
    /// tokens and appends it to `output`. Stops at the first instruction that
    /// does not decode; the instructions before it stay in `output`.
    pub fn parse(&mut self) -> (r: Result<(), DecodeError>)
        requires
            old(self).wf(),
        ensures
            final(self).wf(),
            final(self).tokens() == old(self).tokens(),
            final(self).program() == old(self).program() + decode_from(
                old(self).tokens(),
                old(self).position(),
            ).instructions,
            r == match decode_from(old(self).tokens(), old(self).position()).error {
                None => Ok::<(), DecodeError>(()),
                Some(e) => Err::<(), DecodeError>(e),
            },
            r is Ok ==> final(self).position() == final(self).tokens().len(),
    {
        while !self.is_at_end()
            invariant
                self.wf(),
                self.tokens() == old(self).tokens(),
                decode_from(self.tokens(), self.position()).error == decode_from(
                    old(self).tokens(),
                    old(self).position(),
                ).error,
                self.program() + decode_from(self.tokens(), self.position()).instructions
                    == old(self).program() + decode_from(
                    old(self).tokens(),
                    old(self).position(),
                ).instructions,
            decreases self.tokens().len() - self.position(),
        {
            proof {
                lemma_instruction_advances(self.tokens(), self.position());
            }
            match self.advance()? {
                Token::Tab => match self.advance()? {
                    Token::Space => self.parse_arithmetic()?,
                    Token::Tab => self.parse_heap_access()?,
                    Token::LineFeed => self.parse_input_output()?,
                },
                Token::Space => self.parse_stack_manipulation()?,
                Token::LineFeed => self.parse_flow_control()?,
            };
        }
        Ok(())
    }

    /// Appends `instruction` to the output.
    fn push(&mut self, instruction: Instruction)
        requires
            old(self).wf(),
        ensures
            final(self).wf(),
            final(self).tokens() == old(self).tokens(),
            final(self).position() == old(self).position(),
            final(self).program() == old(self).program().push(instruction@),
    {
        self.output.push(instruction);
    }

    /// Decodes what follows the prefix of a stack manipulation.
    fn parse_stack_manipulation(&mut self) -> (r: Result<(), DecodeError>)
        requires
            old(self).wf(),
        ensures
            appended(
                *old(self),
                *final(self),
                r,
                decode_stack_manipulation(old(self).tokens(), old(self).position()),
            ),
    {
        let instruction = match self.advance()? {
            Token::Space => Instruction::Push(self.parse_number()?),
            Token::Tab => match self.advance()? {
                Token::Space => Instruction::Copy(self.parse_number()?),
                Token::LineFeed => Instruction::Slide(self.parse_number()?),
                Token::Tab => {
                    return Err(DecodeError::InvalidInstruction(Family::StackManipulation));
                },
            },
            Token::LineFeed => match self.advance()? {
                Token::Tab => Instruction::Swap,
                Token::LineFeed => Instruction::Discard,
                Token::Space => Instruction::Duplicate,
            },
        };
        self.push(instruction);
        Ok(())
    }

    /// Decodes what follows the prefix of an arithmetic instruction.
    fn parse_arithmetic(&mut self) -> (r: Result<(), DecodeError>)
        requires
            old(self).wf(),
        ensures
            appended(
                *old(self),
                *final(self),
                r,
                decode_arithmetic(old(self).tokens(), old(self).position()),
            ),
    {
        let instruction = match self.advance()? {
            Token::Space => match self.advance()? {
                Token::Space => Instruction::Add,
                Token::Tab => Instruction::Substract,
                Token::LineFeed => Instruction::Multiply,
            },
            Token::Tab => match self.advance()? {
                Token::Space => Instruction::Divide,
                Token::Tab => Instruction::Modulo,
                Token::LineFeed => {
                    return Err(DecodeError::InvalidInstruction(Family::Arithmetic));
                },
            },
            Token::LineFeed => {
                return Err(DecodeError::InvalidInstruction(Family::Arithmetic));
            },
        };
        self.push(instruction);
        Ok(())
    }

    /// Decodes what follows the prefix of a heap access.
    fn parse_heap_access(&mut self) -> (r: Result<(), DecodeError>)
        requires
            old(self).wf(),
        ensures
            appended(
                *old(self),
                *final(self),
                r,
                decode_heap_access(old(self).tokens(), old(self).position()),
            ),
    {
        let instruction = match self.advance()? {
            Token::Space => Instruction::HeapStore,
            Token::Tab => Instruction::HeapRetrieve,
            Token::LineFeed => {
                return Err(DecodeError::InvalidInstruction(Family::HeapAccess));
            },
        };
        self.push(instruction);
        Ok(())
    }

    /// Decodes what follows the prefix of a flow control instruction.
    fn parse_flow_control(&mut self) -> (r: Result<(), DecodeError>)
        requires
            old(self).wf(),
        ensures
            appended(
                *old(self),
                *final(self),
                r,
                decode_flow_control(old(self).tokens(), old(self).position()),
            ),
    {
        let instruction = match self.advance()? {
            Token::Space => match self.advance()? {
                Token::Space => Instruction::MarkLocation(self.parse_label()?),
                Token::Tab => Instruction::Call(self.parse_label()?),
                Token::LineFeed => Instruction::Jump(self.parse_label()?),
            },
            Token::Tab => match self.advance()? {
                Token::Space => Instruction::JumpIfZero(self.parse_label()?),
                Token::Tab => Instruction::JumpIfNegative(self.parse_label()?),
                Token::LineFeed => Instruction::EndSubroutine,
            },
            Token::LineFeed => match self.advance()? {
                Token::LineFeed => Instruction::EndProgram,
                _ => {
                    return Err(DecodeError::InvalidInstruction(Family::FlowControl));
                },
            },
        };
        self.push(instruction);
        Ok(())
    }

    /// Decodes what follows the prefix of an input or output instruction.
    fn parse_input_output(&mut self) -> (r: Result<(), DecodeError>)
        requires
            old(self).wf(),
        ensures
            appended(
                *old(self),
                *final(self),
                r,
                decode_input_output(old(self).tokens(), old(self).position()),
            ),
    {
        let instruction = match self.advance()? {
            Token::Space => match self.advance()? {
                Token::Space => Instruction::OutputChar,
                Token::Tab => Instruction::OutputNumber,
                Token::LineFeed => {
                    return Err(DecodeError::InvalidInstruction(Family::InputOutput));
                },
            },
            Token::Tab => match self.advance()? {
                Token::Space => Instruction::ReadChar,
                Token::Tab => Instruction::ReadNumber,
                Token::LineFeed => {
                    return Err(DecodeError::InvalidInstruction(Family::InputOutput));
                },
            },
            Token::LineFeed => {
                return Err(DecodeError::InvalidInstruction(Family::InputOutput));
            },
        };
        self.push(instruction);
        Ok(())
    }

    /// Decodes a number literal: the sign, then binary digits shifted in one
    /// by one up to the line feed, in 32-bit two's complement throughout.
    fn parse_number(&mut self) -> (r: Result<i32, DecodeError>)
        requires
            old(self).wf(),
        ensures
            final(self).wf(),
            final(self).tokens() == old(self).tokens(),
            final(self).output == old(self).output,
            match decode_number(old(self).tokens(), old(self).position()) {
                Ok((value, next)) => r == Ok::<i32, DecodeError>(value) && final(self).position()
                    == next,
                Err(e) => r == Err::<i32, DecodeError>(e),
            },
    {
        let ghost start = self.position() + 1;
        let sign: i32 = match self.advance()? {
            Token::Space => 1,
            Token::Tab => -1,
            Token::LineFeed => {
                return Err(DecodeError::InvalidSign);
            },
        };
        let mut value: i32 = 0;
        loop
            invariant
                self.wf(),
                self.tokens() == old(self).tokens(),
                self.output == old(self).output,
                start == old(self).position() + 1,
                start <= self.position(),
                literal_end(self.tokens(), start) == literal_end(self.tokens(), self.position()),
                value == wrap_i32(
                    magnitude(self.tokens().subrange(start, self.position())) as int,
                ),
                sign == 1 || sign == -1,
                (sign == -1) == (old(self).tokens()[start - 1] == Token::Tab),
                old(self).tokens()[start - 1] != Token::LineFeed,
                0 < start <= old(self).tokens().len(),
            decreases self.tokens().len() - self.position(),
        {
            let ghost here = self.position();
            let ghost digits = self.tokens().subrange(start, here);
            let token = self.advance()?;
            proof {
                let longer = self.tokens().subrange(start, here + 1);
                assert(longer.drop_last() == digits);
                lemma_shift_in(value, magnitude(digits) as int);
                lemma_apply_sign(value, magnitude(digits) as int);
            }
            match token {
                Token::Space => {
                    value = value.wrapping_mul(2);
                },
                Token::Tab => {
                    value = value.wrapping_mul(2).wrapping_add(1);
                },
                Token::LineFeed => {
                    return Ok(value.wrapping_mul(sign));
                },
            }
        }
    }

    /// Decodes a label literal: a space or a tab for each token up to the
    /// line feed.
    fn parse_label(&mut self) -> (r: Result<String, DecodeError>)
        requires
            old(self).wf(),
        ensures
            final(self).wf(),
            final(self).tokens() == old(self).tokens(),
            final(self).output == old(self).output,
            match decode_label(old(self).tokens(), old(self).position()) {
                Ok((text, next)) => r is Ok && r->Ok_0@ == text && final(self).position() == next,
                Err(e) => r is Err && r->Err_0 == e,
            },
    {
        let ghost start = self.position();
        let mut label = String::new();
        loop
            invariant
                self.wf(),
                self.tokens() == old(self).tokens(),
                self.output == old(self).output,
                start == old(self).position(),
                start <= self.position(),
                literal_end(self.tokens(), start) == literal_end(self.tokens(), self.position()),
                label@ == label_text(self.tokens().subrange(start, self.position())),
            decreases self.tokens().len() - self.position(),
        {
            let token = self.advance()?;
            proof {
                reveal_strlit(" ");
                reveal_strlit("\t");
            }
            match token {
                Token::Space => {
                    label.append(" ");
                },
                Token::Tab => {
                    label.append("\t");
                },
                Token::LineFeed => {
                    return Ok(label);
                },
            }
        }
    }
}

} // verus!
