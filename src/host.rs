use vstd::prelude::*;
use crate::value::Value;

verus! {

/// An arithmetic operator on numbers.
#[derive(Clone, Copy, Debug, PartialEq, Eq, Structural)]
pub enum Arith {
    Add,
    Subtract,
    Multiply,
    Divide,
}

/// What the embedding program supplies: binary64 arithmetic, the reading and
/// writing of numbers in decimal, and the native functions. Nothing is assumed
/// of its results: the compiler and the VM are proved for every host.
pub trait Host {
    /// The bit pattern of the number that a number literal's text denotes.
    fn parse_number(&mut self, lexeme: &[u8]) -> u64;

    /// `a op b` on binary64 bit patterns.
    fn arithmetic(&mut self, op: Arith, a: u64, b: u64) -> u64;

    /// The text that `print` writes for a number.
    fn number_text(&mut self, n: u64) -> Vec<u8>;

    /// Runs native function `native` on its call slot and arguments.
    fn call_native(&mut self, native: usize, args: &[Value]) -> Value;
}

} // verus!
