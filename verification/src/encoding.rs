//! The code of the language read the other way: from instructions to tokens.
//!
//! Every number, label text, instruction and program has tokens that stand
//! for it, and decoding those tokens gives it back. The laws here state this
//! for each of them.

use vstd::prelude::*;
use crate::grammar::{
    decode_from, decode_instruction, decode_label, decode_number, label_text, literal_end,
    magnitude, Decoded,
};
use crate::lexer::Token;
use crate::parser::{family_of, DecodeError, Family, Op};
use crate::word::{abs, lemma_wrap_in_range};

verus! {

/// The literal that begins at `from` ends at `end` where `end` holds the
/// first line feed.
pub proof fn lemma_literal_end_is(tokens: Seq<Token>, from: int, end: int)
    requires
        0 <= from <= end < tokens.len(),
        tokens[end] == Token::LineFeed,
        forall|i: int| from <= i < end ==> tokens[i] != Token::LineFeed,
    ensures
        literal_end(tokens, from) == end,
    decreases end - from,
{
    if from < end {
        lemma_literal_end_is(tokens, from + 1, end);
    }
}

/// The digit tokens that spell `m` in binary, most significant digit first
/// and without a leading zero; none at all for zero.
pub open spec fn binary_digits(m: nat) -> Seq<Token>
    decreases m,
{
    if m == 0 {
        Seq::empty()
    } else {
        binary_digits(m / 2).push(
            if m % 2 == 1 {
                Token::Tab
            } else {
                Token::Space
            },
        )
    }
}

/// The number literal that stands for `n`: the sign, the digits of the
/// absolute value, and the line feed that ends them.
pub open spec fn encode_number(n: i32) -> Seq<Token> {
    let sign = if n < 0 {
        Token::Tab
    } else {
        Token::Space
    };
    seq![sign] + binary_digits(abs(n as int) as nat).push(Token::LineFeed)
}

/// Whether `text` can be the text of a label: spaces and tabs only.
pub open spec fn is_label_text(text: Seq<char>) -> bool {
    forall|i: int| 0 <= i < text.len() ==> #[trigger] text[i] == ' ' || text[i] == '\t'
}

/// The label literal that stands for `text`: a token for each character, and
/// the line feed that ends them.
pub open spec fn encode_label(text: Seq<char>) -> Seq<Token> {
    Seq::new(
        text.len(),
        |i: int|
            if text[i] == '\t' {
                Token::Tab
            } else {
                Token::Space
            },
    ).push(Token::LineFeed)
}

/// The binary digits of a number hold no line feed and spell that number.
pub proof fn lemma_binary_digits(m: nat)
    ensures
        magnitude(binary_digits(m)) == m,
        forall|i: int|
            0 <= i < binary_digits(m).len() ==> #[trigger] binary_digits(m)[i] != Token::LineFeed,
    decreases m,
{
    if m != 0 {
        lemma_binary_digits(m / 2);
        assert(binary_digits(m).drop_last() == binary_digits(m / 2));
    }
}

/// Decoding inverts the encoding of numbers: wherever the literal of `n`
/// stands among other tokens, it decodes to `n` and to the position behind
/// it. This holds of every 32-bit number, the least one included.
pub proof fn law_number_round_trip(n: i32, before: Seq<Token>, after: Seq<Token>)
    ensures
        decode_number(before + encode_number(n) + after, before.len() as int) == Ok::<
            (i32, int),
            DecodeError,
        >((n, (before.len() + encode_number(n).len()) as int)),
{
    let m = abs(n as int) as nat;
    let digits = binary_digits(m);
    let tokens = before + encode_number(n) + after;
    let pos = before.len() as int;
    let end = pos + 1 + digits.len();
    lemma_binary_digits(m);
    assert forall|i: int| pos + 1 <= i < end implies tokens[i] != Token::LineFeed by {}
    lemma_literal_end_is(tokens, pos + 1, end);
    assert(tokens.subrange(pos + 1, end) =~= digits);
    if n < 0 {
        lemma_wrap_in_range(-(m as int));
    } else {
        lemma_wrap_in_range(m as int);
    }
}

/// Decoding inverts the encoding of labels: wherever the literal of a label
/// text stands among other tokens, it decodes to that text and to the
/// position behind it.
pub proof fn law_label_round_trip(text: Seq<char>, before: Seq<Token>, after: Seq<Token>)
    requires
        is_label_text(text),
    ensures
        decode_label(before + encode_label(text) + after, before.len() as int) == Ok::<
            (Seq<char>, int),
            DecodeError,
        >((text, (before.len() + text.len() + 1) as int)),
{
    let tokens = before + encode_label(text) + after;
    let pos = before.len() as int;
    let end = pos + text.len();
    assert forall|i: int| pos <= i < end implies tokens[i] != Token::LineFeed by {}
    lemma_literal_end_is(tokens, pos, end);
    assert(label_text(tokens.subrange(pos, end)) =~= text);
}

/// The text that a label literal decodes to encodes to the same literal: a
/// run of spaces and tabs and the line feed behind it.
pub proof fn law_label_text_round_trip(body: Seq<Token>)
    requires
        forall|i: int| 0 <= i < body.len() ==> body[i] != Token::LineFeed,
    ensures
        is_label_text(label_text(body)),
        encode_label(label_text(body)) == body.push(Token::LineFeed),
{
}

/// Whether the labels of `op`, if it has one, are spaces and tabs only, so
/// that the instruction can be written down in tokens.
pub open spec fn encodable(op: Op) -> bool {
    match op {
        Op::MarkLocation(label)
        | Op::Call(label)
        | Op::Jump(label)
        | Op::JumpIfZero(label)
        | Op::JumpIfNegative(label) => is_label_text(label),
        _ => true,
    }
}

/// The tokens that stand for an instruction: the prefix of its family, the
/// tokens that select it, and its literal where it takes one.
pub open spec fn encode(op: Op) -> Seq<Token> {
    match op {
        Op::Push(n) => seq![Token::Space, Token::Space] + encode_number(n),
        Op::Duplicate => seq![Token::Space, Token::LineFeed, Token::Space],
        Op::Copy(n) => seq![Token::Space, Token::Tab, Token::Space] + encode_number(n),
        Op::Swap => seq![Token::Space, Token::LineFeed, Token::Tab],
        Op::Discard => seq![Token::Space, Token::LineFeed, Token::LineFeed],
        Op::Slide(n) => seq![Token::Space, Token::Tab, Token::LineFeed] + encode_number(n),
        Op::Add => seq![Token::Tab, Token::Space, Token::Space, Token::Space],
        Op::Substract => seq![Token::Tab, Token::Space, Token::Space, Token::Tab],
        Op::Multiply => seq![Token::Tab, Token::Space, Token::Space, Token::LineFeed],
        Op::Divide => seq![Token::Tab, Token::Space, Token::Tab, Token::Space],
        Op::Modulo => seq![Token::Tab, Token::Space, Token::Tab, Token::Tab],
        Op::HeapStore => seq![Token::Tab, Token::Tab, Token::Space],
        Op::HeapRetrieve => seq![Token::Tab, Token::Tab, Token::Tab],
        Op::MarkLocation(label) => seq![Token::LineFeed, Token::Space, Token::Space]
            + encode_label(label),
        Op::Call(label) => seq![Token::LineFeed, Token::Space, Token::Tab] + encode_label(label),
        Op::Jump(label) => seq![Token::LineFeed, Token::Space, Token::LineFeed] + encode_label(
            label,
        ),
        Op::JumpIfZero(label) => seq![Token::LineFeed, Token::Tab, Token::Space] + encode_label(
            label,
        ),
        Op::JumpIfNegative(label) => seq![Token::LineFeed, Token::Tab, Token::Tab] + encode_label(
            label,
        ),
        Op::EndSubroutine => seq![Token::LineFeed, Token::Tab, Token::LineFeed],
        Op::EndProgram => seq![Token::LineFeed, Token::LineFeed, Token::LineFeed],
        Op::OutputChar => seq![Token::Tab, Token::LineFeed, Token::Space, Token::Space],
        Op::OutputNumber => seq![Token::Tab, Token::LineFeed, Token::Space, Token::Tab],
        Op::ReadChar => seq![Token::Tab, Token::LineFeed, Token::Tab, Token::Space],
        Op::ReadNumber => seq![Token::Tab, Token::LineFeed, Token::Tab, Token::Tab],
    }
}

/// The tokens that stand for a sequence of instructions, one after another.
pub open spec fn encode_program(program: Seq<Op>) -> Seq<Token>
    decreases program.len(),
{
    if program.len() == 0 {
        Seq::empty()
    } else {
        encode(program.first()) + encode_program(program.drop_first())
    }
}

/// What it is for an instruction to come back from its own tokens.
pub open spec fn round_trips(op: Op, before: Seq<Token>, after: Seq<Token>) -> bool {
    decode_instruction(before + encode(op) + after, before.len() as int) == Ok::<
        (Op, int),
        DecodeError,
    >((op, (before.len() + encode(op).len()) as int))
}

/// An instruction made of a selector and a number: the selector stands where
/// the instruction begins, and the number behind it decodes to itself.
proof fn lemma_number_operand_round_trips(
    op: Op,
    n: i32,
    selector: Seq<Token>,
    before: Seq<Token>,
    after: Seq<Token>,
)
    requires
        encode(op) == selector + encode_number(n),
    ensures
        before + encode(op) + after == before + selector + encode_number(n) + after,
        decode_number(before + encode(op) + after, (before.len() + selector.len()) as int) == Ok::<
            (i32, int),
            DecodeError,
        >((n, (before.len() + encode(op).len()) as int)),
        forall|i: int|
            0 <= i < selector.len() ==> (before + encode(op) + after)[before.len() + i]
                == selector[i],
{
    law_number_round_trip(n, before + selector, after);
}

/// An instruction made of a selector and a label: the selector stands where
/// the instruction begins, and the label behind it decodes to itself.
proof fn lemma_label_operand_round_trips(
    op: Op,
    label: Seq<char>,
    selector: Seq<Token>,
    before: Seq<Token>,
    after: Seq<Token>,
)
    requires
        encode(op) == selector + encode_label(label),
        is_label_text(label),
    ensures
        before + encode(op) + after == before + selector + encode_label(label) + after,
        decode_label(before + encode(op) + after, (before.len() + selector.len()) as int) == Ok::<
            (Seq<char>, int),
            DecodeError,
        >((label, (before.len() + encode(op).len()) as int)),
        forall|i: int|
            0 <= i < selector.len() ==> (before + encode(op) + after)[before.len() + i]
                == selector[i],
{
    law_label_round_trip(label, before + selector, after);
}

/// The tokens of an instruction stand, one by one, where the instruction
/// begins.
proof fn lemma_fixed_code_round_trips(op: Op, before: Seq<Token>, after: Seq<Token>)
    requires
        3 <= encode(op).len() <= 4,
    ensures
        forall|i: int|
            0 <= i < encode(op).len() ==> (before + encode(op) + after)[before.len() + i] == encode(
                op,
            )[i],
        (before + encode(op) + after).len() >= before.len() + encode(op).len(),
{
}

/// Every stack manipulation comes back from its own tokens.
proof fn lemma_stack_manipulation_round_trips(op: Op, before: Seq<Token>, after: Seq<Token>)
    requires
        family_of(op) == Family::StackManipulation,
    ensures
        round_trips(op, before, after),
{
    match op {
        Op::Push(n) => {
            lemma_number_operand_round_trips(
                op,
                n,
                seq![Token::Space, Token::Space],
                before,
                after,
            );
        },
        Op::Copy(n) => {
            lemma_number_operand_round_trips(
                op,
                n,
                seq![Token::Space, Token::Tab, Token::Space],
                before,
                after,
            );
        },
        Op::Slide(n) => {
            lemma_number_operand_round_trips(
                op,
                n,
                seq![Token::Space, Token::Tab, Token::LineFeed],
                before,
                after,
            );
        },
        _ => {
            lemma_fixed_code_round_trips(op, before, after);
        },
    }
}

/// Every flow control instruction comes back from its own tokens.
proof fn lemma_flow_control_round_trips(op: Op, before: Seq<Token>, after: Seq<Token>)
    requires
        family_of(op) == Family::FlowControl,
        encodable(op),
    ensures
        round_trips(op, before, after),
{
    match op {
        Op::MarkLocation(label) => {
            lemma_label_operand_round_trips(
                op,
                label,
                seq![Token::LineFeed, Token::Space, Token::Space],
                before,
                after,
            );
        },
        Op::Call(label) => {
            lemma_label_operand_round_trips(
                op,
                label,
                seq![Token::LineFeed, Token::Space, Token::Tab],
                before,
                after,
            );
        },
        Op::Jump(label) => {
            lemma_label_operand_round_trips(
                op,
                label,
                seq![Token::LineFeed, Token::Space, Token::LineFeed],
                before,
                after,
            );
        },
        Op::JumpIfZero(label) => {
            lemma_label_operand_round_trips(
                op,
                label,
                seq![Token::LineFeed, Token::Tab, Token::Space],
                before,
                after,
            );
        },
        Op::JumpIfNegative(label) => {
            lemma_label_operand_round_trips(
                op,
                label,
                seq![Token::LineFeed, Token::Tab, Token::Tab],
                before,
                after,
            );
        },
        _ => {
            lemma_fixed_code_round_trips(op, before, after);
        },
    }
}

/// Every arithmetic instruction comes back from its own tokens.
proof fn lemma_arithmetic_round_trips(op: Op, before: Seq<Token>, after: Seq<Token>)
    requires
        family_of(op) == Family::Arithmetic,
    ensures
        round_trips(op, before, after),
{
    lemma_fixed_code_round_trips(op, before, after);
}

/// Every heap access comes back from its own tokens.
proof fn lemma_heap_access_round_trips(op: Op, before: Seq<Token>, after: Seq<Token>)
    requires
        family_of(op) == Family::HeapAccess,
    ensures
        round_trips(op, before, after),
{
    lemma_fixed_code_round_trips(op, before, after);
}

/// Every input or output instruction comes back from its own tokens.
proof fn lemma_input_output_round_trips(op: Op, before: Seq<Token>, after: Seq<Token>)
    requires
        family_of(op) == Family::InputOutput,
    ensures
        round_trips(op, before, after),
{
    lemma_fixed_code_round_trips(op, before, after);
}

/// Decoding inverts the encoding of instructions: wherever the tokens of an
/// instruction stand among other tokens, they decode to that instruction and
/// to the position behind them.
pub proof fn law_instruction_round_trip(op: Op, before: Seq<Token>, after: Seq<Token>)
    requires
        encodable(op),
    ensures
        round_trips(op, before, after),
{
    match family_of(op) {
        Family::StackManipulation => lemma_stack_manipulation_round_trips(op, before, after),
        Family::Arithmetic => lemma_arithmetic_round_trips(op, before, after),
        Family::HeapAccess => lemma_heap_access_round_trips(op, before, after),
        Family::FlowControl => lemma_flow_control_round_trips(op, before, after),
        Family::InputOutput => lemma_input_output_round_trips(op, before, after),
    }
}

/// Decoding inverts the encoding of programs: the tokens of a sequence of
/// instructions, standing behind any other tokens, decode from where they
/// begin to that very sequence, without an error.
pub proof fn law_program_round_trip(program: Seq<Op>, before: Seq<Token>)
    requires
        forall|i: int| 0 <= i < program.len() ==> encodable(#[trigger] program[i]),
    ensures
        decode_from(before + encode_program(program), before.len() as int) == (Decoded {
            instructions: program,
            error: None,
        }),
    decreases program.len(),
{
    let tokens = before + encode_program(program);
    if program.len() == 0 {
        assert(decode_from(tokens, before.len() as int).instructions =~= program);
    } else {
        let first = program.first();
        let rest = program.drop_first();
        let longer = before + encode(first);
        assert(tokens =~= longer + encode_program(rest));
        law_instruction_round_trip(first, before, encode_program(rest));
        assert forall|i: int| 0 <= i < rest.len() implies encodable(#[trigger] rest[i]) by {}
        law_program_round_trip(rest, longer);
        assert(seq![first] + rest =~= program);
    }
}

} // verus!
