use vstd::prelude::*;
use crate::chunk::Chunk;
use crate::host::Host;
use crate::text::{Interner, append_bytes, copy_range, message};
use vstd::string::StringSliceAdditionalSpecFns;

verus! {

/// Bit of an IEEE-754 binary64 pattern that holds the sign.
pub const SIGN_BIT: u64 = 0x8000_0000_0000_0000;

/// Bits of an IEEE-754 binary64 pattern that hold exponent and fraction.
pub const MAGNITUDE_BITS: u64 = 0x7FFF_FFFF_FFFF_FFFF;

/// Bits of an IEEE-754 binary64 pattern that hold the exponent.
pub const EXPONENT_BITS: u64 = 0x7FF0_0000_0000_0000;

/// Bits of an IEEE-754 binary64 pattern that hold the fraction.
pub const FRACTION_BITS: u64 = 0x000F_FFFF_FFFF_FFFF;

/// A number of the language: the bit pattern of an IEEE-754 binary64 value.
pub type Number = u64;

/// The pattern encodes a NaN: all exponent bits set, fraction not zero.
pub open spec fn is_nan_spec(n: u64) -> bool {
    (n & EXPONENT_BITS) == EXPONENT_BITS && (n & FRACTION_BITS) != 0
}

/// A key that orders every non-NaN pattern as IEEE-754 orders the numbers:
/// both zeros map to 0, the sign decides the side.
pub open spec fn order_key(n: u64) -> int {
    if n & SIGN_BIT != 0 {
        -((n & MAGNITUDE_BITS) as int)
    } else {
        (n & MAGNITUDE_BITS) as int
    }
}

/// IEEE-754 `<`: false whenever either side is NaN.
pub open spec fn num_less_spec(a: u64, b: u64) -> bool {
    !is_nan_spec(a) && !is_nan_spec(b) && order_key(a) < order_key(b)
}

/// IEEE-754 `==`: false whenever either side is NaN, true for the two zeros.
pub open spec fn num_equal_spec(a: u64, b: u64) -> bool {
    !is_nan_spec(a) && !is_nan_spec(b) && order_key(a) == order_key(b)
}

/// IEEE-754 negation flips the sign bit and nothing else.
pub open spec fn num_negate_spec(a: u64) -> u64 {
    a ^ SIGN_BIT
}

pub fn is_nan(n: u64) -> (r: bool)
    ensures
        r == is_nan_spec(n),
{
    (n & EXPONENT_BITS) == EXPONENT_BITS && (n & FRACTION_BITS) != 0
}

/// `a < b` on numbers, as IEEE-754 defines it.
pub fn num_less(a: u64, b: u64) -> (r: bool)
    ensures
        r == num_less_spec(a, b),
{
    if is_nan(a) || is_nan(b) {
        return false;
    }
    let ma = a & MAGNITUDE_BITS;
    let mb = b & MAGNITUDE_BITS;
    let neg_a = a & SIGN_BIT != 0;
    let neg_b = b & SIGN_BIT != 0;
    if !neg_a && !neg_b {
        ma < mb
    } else if neg_a && neg_b {
        mb < ma
    } else if neg_a {
        !(ma == 0 && mb == 0)
    } else {
        false
    }
}

/// `a == b` on numbers, as IEEE-754 defines it.
pub fn num_equal(a: u64, b: u64) -> (r: bool)
    ensures
        r == num_equal_spec(a, b),
{
    if is_nan(a) || is_nan(b) {
        return false;
    }
    let ma = a & MAGNITUDE_BITS;
    let mb = b & MAGNITUDE_BITS;
    let neg_a = a & SIGN_BIT != 0;
    let neg_b = b & SIGN_BIT != 0;
    if neg_a == neg_b {
        ma == mb
    } else {
        ma == 0 && mb == 0
    }
}

pub fn num_negate(a: u64) -> (r: u64)
    ensures
        r == num_negate_spec(a),
{
    a ^ SIGN_BIT
}

/// A value of the language. Strings, functions and natives are handles: a
/// string names an entry of the interner, a function an entry of the VM's
/// function table, a native a function of the host.
#[derive(Clone, Copy, Debug)]
pub enum Value {
    Bool(bool),
    Number(u64),
    Nil,
    String(usize),
    Function(usize),
    Native(usize),
}

/// Equality of the language: numbers as IEEE-754 compares them, handles by
/// identity, and values of different kinds never equal.
pub open spec fn values_equal_spec(a: Value, b: Value) -> bool {
    match (a, b) {
        (Value::Bool(x), Value::Bool(y)) => x == y,
        (Value::Nil, Value::Nil) => true,
        (Value::Number(x), Value::Number(y)) => num_equal_spec(x, y),
        (Value::String(x), Value::String(y)) => x == y,
        (Value::Function(x), Value::Function(y)) => x == y,
        (Value::Native(x), Value::Native(y)) => x == y,
        _ => false,
    }
}

/// The text of function `f`: `script` for the empty name, else `<fn NAME>`;
/// `<fn>` for a handle that names nothing.
pub open spec fn function_text(strings: Seq<Seq<u8>>, functions: Seq<Function>, f: usize) -> Seq<u8> {
    if f < functions.len() && functions[f as int].name < strings.len() {
        let name = strings[functions[f as int].name as int];
        if name.len() == 0 {
            "script".spec_bytes()
        } else {
            "<fn ".spec_bytes() + name + ">".spec_bytes()
        }
    } else {
        "<fn>".spec_bytes()
    }
}

/// `t` is what `print` writes for `v`: `true`, `false`, `nil`, a string's own
/// text (nothing for a handle that names none), a function's text, `<native fn>`.
/// A number's text is the host's and is not fixed here.
pub open spec fn printed_as(strings: Seq<Seq<u8>>, functions: Seq<Function>, v: Value, t: Seq<u8>) -> bool {
    match v {
        Value::Bool(b) => t == if b {
            "true".spec_bytes()
        } else {
            "false".spec_bytes()
        },
        Value::Nil => t == "nil".spec_bytes(),
        Value::Number(_) => true,
        Value::String(h) => t == if h < strings.len() {
            strings[h as int]
        } else {
            Seq::<u8>::empty()
        },
        Value::Function(f) => t == function_text(strings, functions, f),
        Value::Native(_) => t == "<native fn>".spec_bytes(),
    }
}

/// `nil` and `false` are falsy; every other value is truthy.
pub open spec fn is_falsy_spec(v: Value) -> bool {
    match v {
        Value::Nil => true,
        Value::Bool(b) => !b,
        _ => false,
    }
}

impl Value {
    pub fn is_falsy(&self) -> (r: bool)
        ensures
            r == is_falsy_spec(*self),
    {
        match self {
            Value::Nil => true,
            Value::Bool(b) => !*b,
            _ => false,
        }
    }

    /// The text that `print` writes for this value (see `printed_as`); for a
    /// number, what the host writes.
    pub fn print<H: Host>(&self, strings: &Interner, functions: &[Function], host: &mut H) -> (r: Vec<u8>)
        ensures
            printed_as(strings@, functions@, *self, r@),
    {
        match *self {
            Value::Bool(b) => {
                if b {
                    message("true")
                } else {
                    message("false")
                }
            },
            Value::Nil => message("nil"),
            Value::Number(n) => host.number_text(n),
            Value::String(h) => match strings.text(h) {
                Some(t) => {
                    let r = copy_range(t.as_slice(), 0, t.len());
                    assert(r@ =~= strings@[h as int]);
                    r
                },
                None => {
                    let r: Vec<u8> = Vec::new();
                    assert(r@ =~= Seq::<u8>::empty());
                    r
                },
            },
            Value::Function(f) => {
                if f < functions.len() {
                    match strings.text(functions[f].name) {
                        Some(name) => {
                            if name.len() == 0 {
                                message("script")
                            } else {
                                let mut t = message("<fn ");
                                append_bytes(&mut t, name.as_slice());
                                append_bytes(&mut t, ">".as_bytes());
                                t
                            }
                        },
                        None => message("<fn>"),
                    }
                } else {
                    message("<fn>")
                }
            },
            Value::Native(_) => message("<native fn>"),
        }
    }

    /// The text of `print` followed by a newline.
    pub fn println<H: Host>(&self, strings: &Interner, functions: &[Function], host: &mut H) -> (r: Vec<u8>)
        ensures
            r@.len() >= 1,
            r@.last() == 10u8,
            printed_as(strings@, functions@, *self, r@.drop_last()),
    {
        let mut r = self.print(strings, functions, host);
        let ghost t = r@;
        r.push(10u8);
        assert(r@.drop_last() =~= t);
        r
    }

    /// Equality of the language (see `values_equal_spec`).
    pub fn equals(&self, other: &Value) -> (r: bool)
        ensures
            r == values_equal_spec(*self, *other),
    {
        match (self, other) {
            (Value::Bool(x), Value::Bool(y)) => *x == *y,
            (Value::Nil, Value::Nil) => true,
            (Value::Number(x), Value::Number(y)) => num_equal(*x, *y),
            (Value::String(x), Value::String(y)) => *x == *y,
            (Value::Function(x), Value::Function(y)) => *x == *y,
            (Value::Native(x), Value::Native(y)) => *x == *y,
            _ => false,
        }
    }
}

/// A compiled function: its parameter count, its body, and the handle of its
/// name (the empty name for the top-level script).
pub struct Function {
    pub arity: usize,
    pub chunk: Chunk,
    pub name: usize,
}

impl Function {
    pub fn new(arity: usize, name: usize) -> (r: Function)
        ensures
            r.arity == arity,
            r.name == name,
            r.chunk.wf(),
            r.chunk.code@.len() == 0,
            r.chunk.constants@.len() == 0,
    {
        Function { arity, chunk: Chunk::new(), name }
    }
}

} // verus!

