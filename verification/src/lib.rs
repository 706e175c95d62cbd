//! A decoder and virtual machine for the Whitespace stack language.
//!
//! A program is a text in which only space, tab and line feed carry meaning.
//! [`lexer`] reduces the text to tokens, [`parser`] decodes the tokens into
//! instructions, and [`interpreter`] executes the instructions one at a time,
//! handing every read and write to its caller.
//!
//! The other modules hold the mathematics that these three are proved
//! against: [`grammar`] the code from tokens to instructions, [`encoding`]
//! the same code from instructions to tokens, [`semantics`] the effect of
//! each instruction on the machine, [`word`] its 32-bit arithmetic, and
//! [`decimal`] the reading of a number from a line of input.

pub mod decimal;
pub mod encoding;
pub mod grammar;
pub mod interpreter;
pub mod lexer;
pub mod parser;
pub mod semantics;
pub mod word;
