//! Reduction of a program text to the three tokens of the language.

use vstd::prelude::*;

verus! {

/// One of the three characters that carry meaning in a program text.
#[derive(Debug, PartialEq, Eq, Clone, Copy, Structural)]
pub enum Token {
    Space,
    Tab,
    LineFeed,
}

/// The token that a character stands for, if it stands for one.
pub open spec fn token_of(c: char) -> Option<Token> {
    if c == ' ' {
        Some(Token::Space)
    } else if c == '\t' {
        Some(Token::Tab)
    } else if c == '\n' {
        Some(Token::LineFeed)
    } else {
        None
    }
}

/// The tokens of a text: one for each space, tab and line feed, in the order
/// of the text. Every other character is a comment and leaves no trace.
pub open spec fn tokens_of(text: Seq<char>) -> Seq<Token>
    decreases text.len(),
{
    if text.len() == 0 {
        Seq::empty()
    } else {
        match token_of(text.last()) {
            Some(t) => tokens_of(text.drop_last()).push(t),
            None => tokens_of(text.drop_last()),
        }
    }
}

/// Holds a program text until it is split into tokens.
#[derive(Debug)]
pub struct Lexer {
    input: String,
}

impl View for Lexer {
    type V = Seq<char>;

    /// The text that the lexer holds.
    closed spec fn view(&self) -> Seq<char> {
        self.input@
    }
}

impl Lexer {
    /// A lexer for `input`.
    pub fn new(input: &str) -> (lexer: Self)
        ensures
            lexer@ == input@,
    {
        Self { input: input.to_owned() }
    }

    /// Splits the text into tokens, dropping every comment character.
    pub fn lex(&self) -> (tokens: Vec<Token>)
        ensures
            tokens@ == tokens_of(self@),
    {
        let mut tokens: Vec<Token> = Vec::new();
        for c in it: self.input.as_str().chars()
            invariant
                it.seq() == self.input@,
                tokens@ == tokens_of(it.seq().take(it.index() as int)),
        {
            proof {
                let before = it.seq().take(it.index() as int);
                let after = it.seq().take(it.index() + 1);
                assert(after.drop_last() == before);
            }
            if c == ' ' {
                tokens.push(Token::Space);
            } else if c == '\t' {
                tokens.push(Token::Tab);
            } else if c == '\n' {
                tokens.push(Token::LineFeed);
            }
        }
        proof {
            assert(self.input@.take(self.input@.len() as int) == self.input@);
        }
        tokens
    }
}

} // verus!
