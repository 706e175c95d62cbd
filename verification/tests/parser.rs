use whitespace::lexer::Token;
use whitespace::parser::{DecodeError, Family, Instruction, Parser};

const S: Token = Token::Space;
const T: Token = Token::Tab;
const L: Token = Token::LineFeed;

fn decode(tokens: &[Token]) -> (Result<(), DecodeError>, Vec<Instruction>) {
    let mut parser = Parser::new(tokens.to_vec());
    let result = parser.parse();
    (result, parser.output)
}

fn decode_one(tokens: &[Token]) -> Instruction {
    let (result, mut output) = decode(tokens);
    assert_eq!(result, Ok(()));
    assert_eq!(output.len(), 1);
    output.remove(0)
}

fn number_literal(n: i32) -> Vec<Token> {
    let mut tokens = vec![if n < 0 { T } else { S }];
    let magnitude = (n as i64).unsigned_abs();
    let mut digits = Vec::new();
    let mut rest = magnitude;
    while rest > 0 {
        digits.push(if rest % 2 == 1 { T } else { S });
        rest /= 2;
    }
    digits.reverse();
    tokens.extend(digits);
    tokens.push(L);
    tokens
}

fn label_literal(text: &str) -> Vec<Token> {
    let mut tokens: Vec<Token> = text.chars().map(|c| if c == '\t' { T } else { S }).collect();
    tokens.push(L);
    tokens
}

fn push_of(n: i32) -> Vec<Token> {
    let mut tokens = vec![S, S];
    tokens.extend(number_literal(n));
    tokens
}

#[test]
fn simple_stack_manipulation() {
    let tokens = vec![
        Token::Space,
        Token::Space,
        Token::Tab,
        Token::Tab,
        Token::Tab,
        Token::Space,
        Token::Space,
        Token::Tab,
        Token::Space,
        Token::LineFeed,
    ];

    let mut parser = Parser::new(tokens);
    parser.parse().unwrap();
    let instruction = parser.output.get(0).unwrap();
    assert!(matches!(instruction, Instruction::Push(-50)));
}

#[test]
fn multiple_stack_manipulation() {
    let tokens = vec![
        Token::Space,
        Token::Space,
        Token::Tab,
        Token::Tab,
        Token::Tab,
        Token::Space,
        Token::Space,
        Token::Tab,
        Token::Space,
        Token::LineFeed,
        Token::Space,
        Token::LineFeed,
        Token::Tab,
    ];

    let mut parser = Parser::new(tokens);
    parser.parse().unwrap();
    let first = parser.output.get(0).unwrap();
    let second = parser.output.get(1).unwrap();
    assert!(matches!(first, Instruction::Push(-50)));
    assert!(matches!(second, Instruction::Swap));
}

#[test]
fn no_tokens_decode_to_no_instructions() {
    let (result, output) = decode(&[]);
    assert_eq!(result, Ok(()));
    assert!(output.is_empty());
}

#[test]
fn a_single_push_is_the_whole_output() {
    let (result, output) = decode(&[S, S, T, T, T, S, S, T, S, L]);
    assert_eq!(result, Ok(()));
    assert_eq!(output, vec![Instruction::Push(-50)]);
}

#[test]
fn stack_manipulations_decode() {
    assert_eq!(decode_one(&[S, S, S, T, S, T, L]), Instruction::Push(5));
    assert_eq!(decode_one(&[S, L, S]), Instruction::Duplicate);
    assert_eq!(decode_one(&[S, T, S, S, T, T, L]), Instruction::Copy(3));
    assert_eq!(decode_one(&[S, L, T]), Instruction::Swap);
    assert_eq!(decode_one(&[S, L, L]), Instruction::Discard);
    assert_eq!(decode_one(&[S, T, L, T, T, S, L]), Instruction::Slide(-2));
}

#[test]
fn arithmetic_decodes() {
    assert_eq!(decode_one(&[T, S, S, S]), Instruction::Add);
    assert_eq!(decode_one(&[T, S, S, T]), Instruction::Substract);
    assert_eq!(decode_one(&[T, S, S, L]), Instruction::Multiply);
    assert_eq!(decode_one(&[T, S, T, S]), Instruction::Divide);
    assert_eq!(decode_one(&[T, S, T, T]), Instruction::Modulo);
}

#[test]
fn heap_access_decodes() {
    assert_eq!(decode_one(&[T, T, S]), Instruction::HeapStore);
    assert_eq!(decode_one(&[T, T, T]), Instruction::HeapRetrieve);
}

#[test]
fn flow_control_decodes() {
    assert_eq!(decode_one(&[L, S, S, S, T, L]), Instruction::MarkLocation(" \t".to_string()));
    assert_eq!(decode_one(&[L, S, T, T, L]), Instruction::Call("\t".to_string()));
    assert_eq!(decode_one(&[L, S, L, S, S, L]), Instruction::Jump("  ".to_string()));
    assert_eq!(decode_one(&[L, T, S, T, S, L]), Instruction::JumpIfZero("\t ".to_string()));
    assert_eq!(decode_one(&[L, T, T, L]), Instruction::JumpIfNegative(String::new()));
    assert_eq!(decode_one(&[L, T, L]), Instruction::EndSubroutine);
    assert_eq!(decode_one(&[L, L, L]), Instruction::EndProgram);
}

#[test]
fn input_and_output_decode() {
    assert_eq!(decode_one(&[T, L, S, S]), Instruction::OutputChar);
    assert_eq!(decode_one(&[T, L, S, T]), Instruction::OutputNumber);
    assert_eq!(decode_one(&[T, L, T, S]), Instruction::ReadChar);
    assert_eq!(decode_one(&[T, L, T, T]), Instruction::ReadNumber);
}

#[test]
fn instructions_come_out_in_the_order_of_the_tokens() {
    let mut tokens = push_of(3);
    tokens.extend(push_of(4));
    tokens.extend([T, S, S, S]);
    tokens.extend([T, L, S, T]);
    tokens.extend([L, L, L]);
    let (result, output) = decode(&tokens);
    assert_eq!(result, Ok(()));
    assert_eq!(
        output,
        vec![
            Instruction::Push(3),
            Instruction::Push(4),
            Instruction::Add,
            Instruction::OutputNumber,
            Instruction::EndProgram
        ]
    );
}

#[test]
fn numbers_round_trip() {
    let numbers = [
        0,
        1,
        -1,
        2,
        -2,
        50,
        -50,
        255,
        -256,
        65_535,
        1_000_000,
        -1_000_000,
        i32::MAX - 1,
        i32::MAX,
        -(i32::MAX - 1),
        -i32::MAX,
        i32::MIN,
    ];
    for n in numbers {
        assert_eq!(decode_one(&push_of(n)), Instruction::Push(n));
    }
}

#[test]
fn a_number_without_digits_is_zero() {
    assert_eq!(decode_one(&[S, S, S, L]), Instruction::Push(0));
    assert_eq!(decode_one(&[S, S, T, L]), Instruction::Push(0));
}

#[test]
fn leading_zero_digits_do_not_count() {
    assert_eq!(decode_one(&[S, S, S, S, S, S, T, S, T, L]), Instruction::Push(5));
    assert_eq!(decode_one(&[S, S, T, S, S, T, T, L]), Instruction::Push(-3));
}

#[test]
fn digits_beyond_32_bits_wrap() {
    // 2^31 as a positive literal: a one and thirty-one zeros.
    let mut tokens = vec![S, S, S, T];
    tokens.extend([S; 31]);
    tokens.push(L);
    assert_eq!(decode_one(&tokens), Instruction::Push(i32::MIN));

    // 2^32 + 5: the digit above the 32nd bit is lost.
    let mut tokens = vec![S, S, S, T];
    tokens.extend([S; 29]);
    tokens.extend([T, S, T, L]);
    assert_eq!(decode_one(&tokens), Instruction::Push(5));

    // 2^32 - 1 is all ones, which reads as -1; negated it is 1.
    let mut tokens = vec![S, S, T];
    tokens.extend([T; 32]);
    tokens.push(L);
    assert_eq!(decode_one(&tokens), Instruction::Push(1));
}

#[test]
fn labels_round_trip() {
    for text in ["", " ", "\t", " \t", "\t\t  \t", "        ", "\t \t \t \t"] {
        let mut tokens = vec![L, S, S];
        tokens.extend(label_literal(text));
        assert_eq!(decode_one(&tokens), Instruction::MarkLocation(text.to_string()));
    }
}

#[test]
fn tokens_running_out_is_an_error() {
    let cases: [&[Token]; 14] = [
        &[S],
        &[T],
        &[L],
        &[S, T],
        &[S, L],
        &[T, S],
        &[T, T],
        &[T, L],
        &[T, S, S],
        &[T, L, T],
        &[L, S],
        &[L, T],
        &[L, L],
        &[T, S, T],
    ];
    for tokens in cases {
        let (result, output) = decode(tokens);
        assert_eq!(result, Err(DecodeError::UnexpectedEnd));
        assert!(output.is_empty());
    }
}

#[test]
fn tokens_running_out_inside_a_number_is_an_error() {
    assert_eq!(decode(&[S, S]).0, Err(DecodeError::UnexpectedEnd));
    assert_eq!(decode(&[S, S, T]).0, Err(DecodeError::UnexpectedEnd));
    assert_eq!(decode(&[S, S, S, T, S, T]).0, Err(DecodeError::UnexpectedEnd));
    assert_eq!(decode(&[S, T, S, T, T]).0, Err(DecodeError::UnexpectedEnd));
}

#[test]
fn tokens_running_out_inside_a_label_is_an_error() {
    assert_eq!(decode(&[L, S, S]).0, Err(DecodeError::UnexpectedEnd));
    assert_eq!(decode(&[L, S, T, S, T]).0, Err(DecodeError::UnexpectedEnd));
    assert_eq!(decode(&[L, T, T, T, T, T]).0, Err(DecodeError::UnexpectedEnd));
}

#[test]
fn a_line_feed_is_no_sign() {
    assert_eq!(decode(&[S, S, L]).0, Err(DecodeError::InvalidSign));
    assert_eq!(decode(&[S, T, S, L, T, L]).0, Err(DecodeError::InvalidSign));
    assert_eq!(decode(&[S, T, L, L]).0, Err(DecodeError::InvalidSign));
}

#[test]
fn unknown_selections_name_their_family() {
    assert_eq!(
        decode(&[S, T, T]).0,
        Err(DecodeError::InvalidInstruction(Family::StackManipulation))
    );
    assert_eq!(decode(&[T, S, L]).0, Err(DecodeError::InvalidInstruction(Family::Arithmetic)));
    assert_eq!(decode(&[T, S, T, L]).0, Err(DecodeError::InvalidInstruction(Family::Arithmetic)));
    assert_eq!(decode(&[T, T, L]).0, Err(DecodeError::InvalidInstruction(Family::HeapAccess)));
    assert_eq!(decode(&[L, L, S]).0, Err(DecodeError::InvalidInstruction(Family::FlowControl)));
    assert_eq!(decode(&[L, L, T]).0, Err(DecodeError::InvalidInstruction(Family::FlowControl)));
    assert_eq!(decode(&[T, L, L]).0, Err(DecodeError::InvalidInstruction(Family::InputOutput)));
    assert_eq!(decode(&[T, L, S, L]).0, Err(DecodeError::InvalidInstruction(Family::InputOutput)));
    assert_eq!(decode(&[T, L, T, L]).0, Err(DecodeError::InvalidInstruction(Family::InputOutput)));
}

#[test]
fn decoding_stops_at_the_first_error() {
    let mut tokens = push_of(7);
    tokens.extend([S, L, S]);
    tokens.extend([T, T, L]);
    tokens.extend(push_of(9));
    let (result, output) = decode(&tokens);
    assert_eq!(result, Err(DecodeError::InvalidInstruction(Family::HeapAccess)));
    assert_eq!(output, vec![Instruction::Push(7), Instruction::Duplicate]);
}

#[test]
fn parsing_again_at_the_end_adds_nothing() {
    let mut parser = Parser::new(push_of(1));
    assert_eq!(parser.parse(), Ok(()));
    assert_eq!(parser.parse(), Ok(()));
    assert_eq!(parser.output, vec![Instruction::Push(1)]);
}

#[test]
fn every_instruction_knows_its_family() {
    assert_eq!(Instruction::Push(1).family(), Family::StackManipulation);
    assert_eq!(Instruction::Slide(1).family(), Family::StackManipulation);
    assert_eq!(Instruction::Modulo.family(), Family::Arithmetic);
    assert_eq!(Instruction::HeapRetrieve.family(), Family::HeapAccess);
    assert_eq!(Instruction::EndProgram.family(), Family::FlowControl);
    assert_eq!(Instruction::Jump(String::new()).family(), Family::FlowControl);
    assert_eq!(Instruction::ReadNumber.family(), Family::InputOutput);
}

#[test]
fn the_decoded_instructions_can_be_read() {
    let mut tokens = push_of(2);
    tokens.extend([S, L, S]);
    let mut parser = Parser::new(tokens);
    assert!(parser.instructions().is_empty());
    assert_eq!(parser.parse(), Ok(()));
    assert_eq!(parser.instructions(), &vec![Instruction::Push(2), Instruction::Duplicate]);
    assert_eq!(parser.instructions(), &parser.output);
}

#[test]
fn every_instruction_round_trips() {
    let instructions = vec![
        Instruction::Push(i32::MIN),
        Instruction::Duplicate,
        Instruction::Copy(0),
        Instruction::Swap,
        Instruction::Discard,
        Instruction::Slide(77),
        Instruction::Add,
        Instruction::Substract,
        Instruction::Multiply,
        Instruction::Divide,
        Instruction::Modulo,
        Instruction::HeapStore,
        Instruction::HeapRetrieve,
        Instruction::MarkLocation(" \t ".to_string()),
        Instruction::Call("\t\t".to_string()),
        Instruction::Jump(String::new()),
        Instruction::JumpIfZero(" ".to_string()),
        Instruction::JumpIfNegative("\t  \t".to_string()),
        Instruction::EndSubroutine,
        Instruction::EndProgram,
        Instruction::OutputChar,
        Instruction::OutputNumber,
        Instruction::ReadChar,
        Instruction::ReadNumber,
    ];
    let mut tokens = Vec::new();
    for instruction in &instructions {
        tokens.extend(tokens_of(instruction));
    }
    let (result, output) = decode(&tokens);
    assert_eq!(result, Ok(()));
    assert_eq!(output, instructions);
}

fn tokens_of(instruction: &Instruction) -> Vec<Token> {
    let with_number = |selector: &[Token], n: i32| {
        let mut tokens = selector.to_vec();
        tokens.extend(number_literal(n));
        tokens
    };
    let with_label = |selector: &[Token], text: &str| {
        let mut tokens = selector.to_vec();
        tokens.extend(label_literal(text));
        tokens
    };
    match instruction {
        Instruction::Push(n) => with_number(&[S, S], *n),
        Instruction::Duplicate => vec![S, L, S],
        Instruction::Copy(n) => with_number(&[S, T, S], *n),
        Instruction::Swap => vec![S, L, T],
        Instruction::Discard => vec![S, L, L],
        Instruction::Slide(n) => with_number(&[S, T, L], *n),
        Instruction::Add => vec![T, S, S, S],
        Instruction::Substract => vec![T, S, S, T],
        Instruction::Multiply => vec![T, S, S, L],
        Instruction::Divide => vec![T, S, T, S],
        Instruction::Modulo => vec![T, S, T, T],
        Instruction::HeapStore => vec![T, T, S],
        Instruction::HeapRetrieve => vec![T, T, T],
        Instruction::MarkLocation(text) => with_label(&[L, S, S], text),
        Instruction::Call(text) => with_label(&[L, S, T], text),
        Instruction::Jump(text) => with_label(&[L, S, L], text),
        Instruction::JumpIfZero(text) => with_label(&[L, T, S], text),
        Instruction::JumpIfNegative(text) => with_label(&[L, T, T], text),
        Instruction::EndSubroutine => vec![L, T, L],
        Instruction::EndProgram => vec![L, L, L],
        Instruction::OutputChar => vec![T, L, S, S],
        Instruction::OutputNumber => vec![T, L, S, T],
        Instruction::ReadChar => vec![T, L, T, S],
        Instruction::ReadNumber => vec![T, L, T, T],
    }
}
