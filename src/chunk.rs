use vstd::prelude::*;
use crate::value::{Function, Value, printed_as};
use crate::host::Host;
use crate::text::{Interner, append_bytes, decimal, decimal_spec, message};
use vstd::string::StringSliceAdditionalSpecFns;

verus! {

/// One instruction of the bytecode. The byte that encodes an opcode is its
/// position in this list, starting at 0.
#[derive(Clone, Copy, Debug, PartialEq, Eq, Structural)]
pub enum Op {
    Constant,
    Nil,
    True,
    False,
    Pop,
    GetLocal,
    SetLocal,
    GetGlobal,
    DefineGlobal,
    SetGlobal,
    Equal,
    Greater,
    Less,
    Add,
    Subtract,
    Multiply,
    Divide,
    Not,
    Negate,
    Print,
    Jump,
    JumpIfFalse,
    Loop,
    Call,
    Return,
}

/// The byte that encodes an opcode.
pub open spec fn op_byte(op: Op) -> u8 {
    match op {
        Op::Constant => 0u8,
        Op::Nil => 1u8,
        Op::True => 2u8,
        Op::False => 3u8,
        Op::Pop => 4u8,
        Op::GetLocal => 5u8,
        Op::SetLocal => 6u8,
        Op::GetGlobal => 7u8,
        Op::DefineGlobal => 8u8,
        Op::SetGlobal => 9u8,
        Op::Equal => 10u8,
        Op::Greater => 11u8,
        Op::Less => 12u8,
        Op::Add => 13u8,
        Op::Subtract => 14u8,
        Op::Multiply => 15u8,
        Op::Divide => 16u8,
        Op::Not => 17u8,
        Op::Negate => 18u8,
        Op::Print => 19u8,
        Op::Jump => 20u8,
        Op::JumpIfFalse => 21u8,
        Op::Loop => 22u8,
        Op::Call => 23u8,
        Op::Return => 24u8,
    }
}

/// The opcode that a byte encodes, if any.
pub open spec fn decode_spec(b: u8) -> Option<Op> {
    if b == 0u8 {
        Some(Op::Constant)
    } else if b == 1u8 {
        Some(Op::Nil)
    } else if b == 2u8 {
        Some(Op::True)
    } else if b == 3u8 {
        Some(Op::False)
    } else if b == 4u8 {
        Some(Op::Pop)
    } else if b == 5u8 {
        Some(Op::GetLocal)
    } else if b == 6u8 {
        Some(Op::SetLocal)
    } else if b == 7u8 {
        Some(Op::GetGlobal)
    } else if b == 8u8 {
        Some(Op::DefineGlobal)
    } else if b == 9u8 {
        Some(Op::SetGlobal)
    } else if b == 10u8 {
        Some(Op::Equal)
    } else if b == 11u8 {
        Some(Op::Greater)
    } else if b == 12u8 {
        Some(Op::Less)
    } else if b == 13u8 {
        Some(Op::Add)
    } else if b == 14u8 {
        Some(Op::Subtract)
    } else if b == 15u8 {
        Some(Op::Multiply)
    } else if b == 16u8 {
        Some(Op::Divide)
    } else if b == 17u8 {
        Some(Op::Not)
    } else if b == 18u8 {
        Some(Op::Negate)
    } else if b == 19u8 {
        Some(Op::Print)
    } else if b == 20u8 {
        Some(Op::Jump)
    } else if b == 21u8 {
        Some(Op::JumpIfFalse)
    } else if b == 22u8 {
        Some(Op::Loop)
    } else if b == 23u8 {
        Some(Op::Call)
    } else if b == 24u8 {
        Some(Op::Return)
    } else {
        None
    }
}

/// How many operand bytes follow the opcode.
pub open spec fn operand_len(op: Op) -> nat {
    match op {
        Op::Constant | Op::GetLocal | Op::SetLocal | Op::GetGlobal | Op::DefineGlobal | Op::SetGlobal | Op::Call => 1,
        Op::Jump | Op::JumpIfFalse | Op::Loop => 2,
        _ => 0,
    }
}

impl Op {
    pub fn to_byte(self) -> (r: u8)
        ensures
            r == op_byte(self),
    {
        match self {
            Op::Constant => 0,
            Op::Nil => 1,
            Op::True => 2,
            Op::False => 3,
            Op::Pop => 4,
            Op::GetLocal => 5,
            Op::SetLocal => 6,
            Op::GetGlobal => 7,
            Op::DefineGlobal => 8,
            Op::SetGlobal => 9,
            Op::Equal => 10,
            Op::Greater => 11,
            Op::Less => 12,
            Op::Add => 13,
            Op::Subtract => 14,
            Op::Multiply => 15,
            Op::Divide => 16,
            Op::Not => 17,
            Op::Negate => 18,
            Op::Print => 19,
            Op::Jump => 20,
            Op::JumpIfFalse => 21,
            Op::Loop => 22,
            Op::Call => 23,
            Op::Return => 24,
        }
    }

    /// The opcode encoded by `b`; `None` for a byte that encodes none.
    pub fn from_byte(b: u8) -> (r: Option<Op>)
        ensures
            r == decode_spec(b),
    {
        match b {
            0 => Some(Op::Constant),
            1 => Some(Op::Nil),
            2 => Some(Op::True),
            3 => Some(Op::False),
            4 => Some(Op::Pop),
            5 => Some(Op::GetLocal),
            6 => Some(Op::SetLocal),
            7 => Some(Op::GetGlobal),
            8 => Some(Op::DefineGlobal),
            9 => Some(Op::SetGlobal),
            10 => Some(Op::Equal),
            11 => Some(Op::Greater),
            12 => Some(Op::Less),
            13 => Some(Op::Add),
            14 => Some(Op::Subtract),
            15 => Some(Op::Multiply),
            16 => Some(Op::Divide),
            17 => Some(Op::Not),
            18 => Some(Op::Negate),
            19 => Some(Op::Print),
            20 => Some(Op::Jump),
            21 => Some(Op::JumpIfFalse),
            22 => Some(Op::Loop),
            23 => Some(Op::Call),
            24 => Some(Op::Return),
            _ => None,
        }
    }

    /// The name of this opcode in a listing.
    pub fn name(self) -> (r: &'static str)
        ensures
            r.spec_bytes() == op_name(self),
    {
        match self {
            Op::Constant => "OP_CONSTANT",
            Op::Nil => "OP_NIL",
            Op::True => "OP_TRUE",
            Op::False => "OP_FALSE",
            Op::Pop => "OP_POP",
            Op::GetLocal => "OP_GET_LOCAL",
            Op::SetLocal => "OP_SET_LOCAL",
            Op::GetGlobal => "OP_GET_GLOBAL",
            Op::DefineGlobal => "OP_DEFINE_GLOBAL",
            Op::SetGlobal => "OP_SET_GLOBAL",
            Op::Equal => "OP_EQUAL",
            Op::Greater => "OP_GREATER",
            Op::Less => "OP_LESS",
            Op::Add => "OP_ADD",
            Op::Subtract => "OP_SUBTRACT",
            Op::Multiply => "OP_MULTIPLY",
            Op::Divide => "OP_DIVIDE",
            Op::Not => "OP_NOT",
            Op::Negate => "OP_NEGATE",
            Op::Print => "OP_PRINT",
            Op::Jump => "OP_JUMP",
            Op::JumpIfFalse => "OP_JUMP_IF_FALSE",
            Op::Loop => "OP_LOOP",
            Op::Call => "OP_CALL",
            Op::Return => "OP_RETURN",
        }
    }

    /// How many operand bytes follow this opcode in the code.
    pub fn operand_count(self) -> (r: usize)
        ensures
            r == operand_len(self),
    {
        match self {
            Op::Constant | Op::GetLocal | Op::SetLocal | Op::GetGlobal | Op::DefineGlobal | Op::SetGlobal | Op::Call => 1,
            Op::Jump | Op::JumpIfFalse | Op::Loop => 2,
            _ => 0,
        }
    }
}
/// The name of an opcode in a listing.
pub open spec fn op_name(op: Op) -> Seq<u8> {
    match op {
        Op::Constant => "OP_CONSTANT".spec_bytes(),
        Op::Nil => "OP_NIL".spec_bytes(),
        Op::True => "OP_TRUE".spec_bytes(),
        Op::False => "OP_FALSE".spec_bytes(),
        Op::Pop => "OP_POP".spec_bytes(),
        Op::GetLocal => "OP_GET_LOCAL".spec_bytes(),
        Op::SetLocal => "OP_SET_LOCAL".spec_bytes(),
        Op::GetGlobal => "OP_GET_GLOBAL".spec_bytes(),
        Op::DefineGlobal => "OP_DEFINE_GLOBAL".spec_bytes(),
        Op::SetGlobal => "OP_SET_GLOBAL".spec_bytes(),
        Op::Equal => "OP_EQUAL".spec_bytes(),
        Op::Greater => "OP_GREATER".spec_bytes(),
        Op::Less => "OP_LESS".spec_bytes(),
        Op::Add => "OP_ADD".spec_bytes(),
        Op::Subtract => "OP_SUBTRACT".spec_bytes(),
        Op::Multiply => "OP_MULTIPLY".spec_bytes(),
        Op::Divide => "OP_DIVIDE".spec_bytes(),
        Op::Not => "OP_NOT".spec_bytes(),
        Op::Negate => "OP_NEGATE".spec_bytes(),
        Op::Print => "OP_PRINT".spec_bytes(),
        Op::Jump => "OP_JUMP".spec_bytes(),
        Op::JumpIfFalse => "OP_JUMP_IF_FALSE".spec_bytes(),
        Op::Loop => "OP_LOOP".spec_bytes(),
        Op::Call => "OP_CALL".spec_bytes(),
        Op::Return => "OP_RETURN".spec_bytes(),
    }
}

/// Decoding and encoding agree: every opcode's byte decodes back to it.
pub proof fn lemma_decode_op_byte(op: Op)
    ensures
        decode_spec(op_byte(op)) == Some(op),
{
}

/// The bytes that one instruction starting at `start` takes: the opcode and its
/// operands, or the single byte of an unknown opcode.
pub open spec fn instr_len(code: Seq<u8>, start: int) -> int {
    match decode_spec(code[start]) {
        Some(op) => 1 + operand_len(op) as int,
        None => 1,
    }
}

/// Walking the code from `start` one whole instruction at a time ends exactly
/// at its end, and every opcode met on the way is known.
pub open spec fn decodes_from(code: Seq<u8>, start: int) -> bool
    decreases code.len() - start,
{
    if start < 0 || start > code.len() {
        false
    } else if start == code.len() {
        true
    } else {
        decode_spec(code[start]) is Some && start + instr_len(code, start) <= code.len()
            && decodes_from(code, start + instr_len(code, start))
    }
}

/// The code is a sequence of complete instructions of known opcodes.
pub open spec fn well_formed_code(code: Seq<u8>) -> bool {
    decodes_from(code, 0)
}

/// The bytes of one instruction: an opcode and exactly its operands.
pub open spec fn is_instruction(bytes: Seq<u8>) -> bool {
    bytes.len() >= 1 && decode_spec(bytes[0]) is Some
        && bytes.len() == 1 + operand_len(decode_spec(bytes[0])->Some_0)
}

/// Appending a whole instruction to code that decodes from `start` keeps it so.
pub proof fn lemma_decodes_append(code: Seq<u8>, start: int, instr: Seq<u8>)
    requires
        decodes_from(code, start),
        is_instruction(instr),
    ensures
        decodes_from(code + instr, start),
    decreases code.len() - start,
{
    let c2 = code + instr;
    if start == code.len() {
        assert(c2[start] == instr[0]);
        assert(instr_len(c2, start) == instr.len());
        assert(decodes_from(c2, start + instr.len()));
    } else {
        let w = instr_len(code, start);
        assert(c2[start] == code[start]);
        assert(instr_len(c2, start) == w);
        lemma_decodes_append(code, start + w, instr);
    }
}

/// The opcode names an entry of the constant pool by its operand byte.
pub open spec fn names_constant(b: u8) -> bool {
    decode_spec(b) == Some(Op::Constant) || decode_spec(b) == Some(Op::GetGlobal)
        || decode_spec(b) == Some(Op::DefineGlobal) || decode_spec(b) == Some(Op::SetGlobal)
}

/// Walking whole instructions from `start`, every one that names a constant
/// names one of the first `n`.
pub open spec fn constants_named_below(code: Seq<u8>, start: int, n: int) -> bool
    decreases code.len() - start,
{
    if start < 0 || start >= code.len() || instr_len(code, start) < 1 || start + instr_len(
        code,
        start,
    ) > code.len() {
        true
    } else {
        (names_constant(code[start]) ==> code[start + 1] < n) && constants_named_below(
            code,
            start + instr_len(code, start),
            n,
        )
    }
}

/// A larger pool keeps every reference valid.
pub proof fn lemma_constants_named_grow(code: Seq<u8>, start: int, n: int, m: int)
    requires
        constants_named_below(code, start, n),
        n <= m,
    ensures
        constants_named_below(code, start, m),
    decreases code.len() - start,
{
    if start >= 0 && start < code.len() && instr_len(code, start) >= 1 && start + instr_len(
        code,
        start,
    ) <= code.len() {
        lemma_constants_named_grow(code, start + instr_len(code, start), n, m);
    }
}

/// Appending a whole instruction whose constant reference, if any, is valid
/// keeps every reference valid.
pub proof fn lemma_constants_named_append(code: Seq<u8>, start: int, instr: Seq<u8>, n: int)
    requires
        decodes_from(code, start),
        constants_named_below(code, start, n),
        is_instruction(instr),
        names_constant(instr[0]) ==> instr[1] < n,
    ensures
        constants_named_below(code + instr, start, n),
    decreases code.len() - start,
{
    let c2 = code + instr;
    if start == code.len() {
        assert(c2[start] == instr[0]);
        assert(instr_len(c2, start) == instr.len());
        if names_constant(instr[0]) {
            assert(c2[start + 1] == instr[1]);
        }
        let next = start + instr.len();
        assert(constants_named_below(c2, next, n));
    } else {
        let w = instr_len(code, start);
        assert(c2[start] == code[start]);
        assert(instr_len(c2, start) == w);
        if names_constant(code[start]) {
            assert(c2[start + 1] == code[start + 1]);
        }
        lemma_constants_named_append(code, start + w, instr, n);
    }
}


/// `s` padded on the left with `fill` to `width` bytes.
pub open spec fn pad_left(s: Seq<u8>, width: nat, fill: u8) -> Seq<u8> {
    if s.len() >= width {
        s
    } else {
        Seq::new((width - s.len()) as nat, |i: int| fill) + s
    }
}

/// `s` padded on the right with blanks to `width` bytes.
pub open spec fn pad_right(s: Seq<u8>, width: nat) -> Seq<u8> {
    if s.len() >= width {
        s
    } else {
        s + Seq::new((width - s.len()) as nat, |i: int| 32u8)
    }
}

pub fn padded_left(s: Vec<u8>, width: usize, fill: u8) -> (r: Vec<u8>)
    ensures
        r@ == pad_left(s@, width as nat, fill),
{
    if s.len() >= width {
        return s;
    }
    let mut out: Vec<u8> = Vec::new();
    let n = width - s.len();
    let mut i: usize = 0;
    while i < n
        invariant
            i <= n,
            out@ == Seq::new(i as nat, |j: int| fill),
        decreases n - i,
    {
        out.push(fill);
        assert(out@ =~= Seq::new((i + 1) as nat, |j: int| fill));
        i = i + 1;
    }
    append_bytes(&mut out, s.as_slice());
    out
}

pub fn padded_right(s: Vec<u8>, width: usize) -> (r: Vec<u8>)
    ensures
        r@ == pad_right(s@, width as nat),
{
    if s.len() >= width {
        return s;
    }
    let n = width - s.len();
    let mut out = s;
    let ghost s0 = out@;
    let mut i: usize = 0;
    while i < n
        invariant
            i <= n,
            out@ == s0 + Seq::new(i as nat, |j: int| 32u8),
        decreases n - i,
    {
        out.push(32u8);
        assert(out@ =~= s0 + Seq::new((i + 1) as nat, |j: int| 32u8));
        i = i + 1;
    }
    out
}

/// The start of a listing line: the offset in four digits, then the source
/// line in four columns, or `   |` where it repeats the line before.
pub open spec fn listing_head(chunk: Chunk, offset: int) -> Seq<u8> {
    pad_left(decimal_spec(offset as nat), 4, 48) + " ".spec_bytes() + if offset > 0
        && chunk.lines@[offset] == chunk.lines@[offset - 1] {
        "   | ".spec_bytes()
    } else {
        pad_left(decimal_spec(chunk.lines@[offset] as nat), 4, 32) + " ".spec_bytes()
    }
}

/// Where a jump lands: after its three bytes, forward (or, for `LOOP`, back)
/// by its operand; 0 where a loop would go before the start.
pub open spec fn jump_target(op: Op, offset: int, operand: int) -> int {
    if op == Op::Loop {
        if operand > offset + 3 {
            0
        } else {
            offset + 3 - operand
        }
    } else {
        offset + 3 + operand
    }
}

/// The rest of a listing line for `instr`. For an instruction that names a
/// constant, `value` is the constant's printed text.
pub open spec fn listing_body(instr: Instruction, value: Seq<u8>) -> Seq<u8> {
    match instr.op {
        None => "Unknown opcode".spec_bytes(),
        Some(op) => if instr.width == 2 && names_constant(op_byte(op)) {
            pad_right(op_name(op), 16) + " ".spec_bytes() + pad_left(decimal_spec(instr.operand as nat), 4, 48)
                + " '".spec_bytes() + value + "'".spec_bytes()
        } else if instr.width == 2 && operand_len(op) == 1 {
            pad_right(op_name(op), 16) + " ".spec_bytes() + pad_left(decimal_spec(instr.operand as nat), 4, 32)
        } else if instr.width == 3 {
            pad_right(op_name(op), 16) + " ".spec_bytes() + pad_left(decimal_spec(instr.offset as nat), 4, 32)
                + " -> ".spec_bytes() + decimal_spec(jump_target(op, instr.offset as int, instr.operand as int) as nat)
        } else {
            op_name(op)
        },
    }
}

/// The text of `listing_body`.
fn listing_body_text(instr: &Instruction, value: &Vec<u8>) -> (r: Vec<u8>)
    requires
        instr.offset + 3 + 65535 <= usize::MAX,
    ensures
        r@ == listing_body(*instr, value@),
{
    match instr.op {
        None => message("Unknown opcode"),
        Some(op) => {
            proof {
                lemma_decode_op_byte(op);
            }
            let is_const = op == Op::Constant || op == Op::GetGlobal || op == Op::DefineGlobal
                || op == Op::SetGlobal;
            assert(is_const == names_constant(op_byte(op)));
            let mut text = padded_right(message(op.name()), 16);
            if instr.width == 2 && is_const {
                append_bytes(&mut text, " ".as_bytes());
                append_bytes(&mut text, padded_left(decimal(instr.operand as usize), 4, 48).as_slice());
                append_bytes(&mut text, " '".as_bytes());
                append_bytes(&mut text, value.as_slice());
                append_bytes(&mut text, "'".as_bytes());
                assert(text@ =~= listing_body(*instr, value@));
                text
            } else if instr.width == 2 && op.operand_count() == 1 {
                append_bytes(&mut text, " ".as_bytes());
                append_bytes(&mut text, padded_left(decimal(instr.operand as usize), 4, 32).as_slice());
                assert(text@ =~= listing_body(*instr, value@));
                text
            } else if instr.width == 3 {
                let offset = instr.offset;
                let target: usize = if op == Op::Loop {
                    if instr.operand as usize > offset + 3 {
                        0
                    } else {
                        offset + 3 - instr.operand as usize
                    }
                } else {
                    offset + 3 + instr.operand as usize
                };
                append_bytes(&mut text, " ".as_bytes());
                append_bytes(&mut text, padded_left(decimal(offset), 4, 32).as_slice());
                append_bytes(&mut text, " -> ".as_bytes());
                append_bytes(&mut text, decimal(target).as_slice());
                assert(text@ =~= listing_body(*instr, value@));
                text
            } else {
                message(op.name())
            }
        },
    }
}

/// A function's compiled body: code bytes, the source line of each byte, and a
/// pool of constants that instructions name by a one-byte index.
pub struct Chunk {
    pub code: Vec<u8>,
    pub constants: Vec<Value>,
    pub lines: Vec<usize>,
}

/// The most constants one chunk can hold: an index must fit in a byte.
pub const MAX_CONSTANTS: usize = 256;

/// What one step of disassembly read at an offset.
#[derive(Clone, Copy, Debug)]
pub struct Instruction {
    /// Where the instruction starts in the code.
    pub offset: usize,
    /// Source line of its opcode byte.
    pub line: usize,
    /// The opcode, or `None` for a byte that encodes none.
    pub op: Option<Op>,
    /// Its operand, big-endian; 0 where it has none.
    pub operand: u16,
    /// Bytes taken: the opcode and the operands that the code still holds.
    pub width: usize,
}

impl Chunk {
    /// The line table has one entry per code byte.
    pub open spec fn wf(&self) -> bool {
        self.code@.len() == self.lines@.len()
    }

    /// Every constant index in the code names an entry of the pool.
    pub open spec fn constants_ok(&self) -> bool {
        constants_named_below(self.code@, 0, self.constants@.len() as int)
    }

    pub fn new() -> (r: Chunk)
        ensures
            r.wf(),
            r.code@.len() == 0,
            r.constants@.len() == 0,
    {
        Chunk { code: Vec::new(), constants: Vec::new(), lines: Vec::new() }
    }

    /// Appends one byte of code with its source line.
    pub fn write(&mut self, byte: u8, line: usize)
        ensures
            final(self).code@ == old(self).code@.push(byte),
            final(self).lines@ == old(self).lines@.push(line),
            final(self).constants@ == old(self).constants@,
    {
        self.code.push(byte);
        self.lines.push(line);
    }

    /// Adds a constant to the pool and returns its index; `None`, with the pool
    /// unchanged, when the pool is already full.
    pub fn add_constant(&mut self, value: Value) -> (r: Option<u8>)
        ensures
            final(self).code@ == old(self).code@,
            final(self).lines@ == old(self).lines@,
            old(self).constants_ok() ==> final(self).constants_ok(),
            old(self).constants@.len() < MAX_CONSTANTS ==> r == Some(
                old(self).constants@.len() as u8,
            ) && final(self).constants@ == old(self).constants@.push(value),
            old(self).constants@.len() >= MAX_CONSTANTS ==> r is None && final(self).constants@
                == old(self).constants@,
    {
        if self.constants.len() >= MAX_CONSTANTS {
            return None;
        }
        let index = self.constants.len() as u8;
        self.constants.push(value);
        proof {
            if old(self).constants_ok() {
                lemma_constants_named_grow(
                    self.code@,
                    0,
                    old(self).constants@.len() as int,
                    self.constants@.len() as int,
                );
            }
        }
        Some(index)
    }

    /// Appends an instruction without operands.
    pub fn write_op(&mut self, op: Op, line: usize)
        requires
            old(self).wf(),
            well_formed_code(old(self).code@),
            operand_len(op) == 0,
        ensures
            final(self).wf(),
            well_formed_code(final(self).code@),
            old(self).constants_ok() ==> final(self).constants_ok(),
            final(self).code@ == old(self).code@.push(op_byte(op)),
            final(self).constants@ == old(self).constants@,
    {
        let b = op.to_byte();
        proof {
            lemma_decode_op_byte(op);
            assert(is_instruction(seq![b]));
            lemma_decodes_append(self.code@, 0, seq![b]);
            if self.constants_ok() {
                lemma_constants_named_append(self.code@, 0, seq![b], self.constants@.len() as int);
            }
            assert(self.code@ + seq![b] == self.code@.push(b));
        }
        self.write(b, line);
    }

    /// Appends an instruction with its one operand byte.
    pub fn write_op_operand(&mut self, op: Op, operand: u8, line: usize)
        requires
            old(self).wf(),
            well_formed_code(old(self).code@),
            operand_len(op) == 1,
        ensures
            final(self).wf(),
            well_formed_code(final(self).code@),
            old(self).constants_ok() && (names_constant(op_byte(op)) ==> operand < old(
                self,
            ).constants@.len()) ==> final(self).constants_ok(),
            final(self).code@ == old(self).code@.push(op_byte(op)).push(operand),
            final(self).constants@ == old(self).constants@,
    {
        let b = op.to_byte();
        proof {
            lemma_decode_op_byte(op);
            assert(is_instruction(seq![b, operand]));
            lemma_decodes_append(self.code@, 0, seq![b, operand]);
            if self.constants_ok() && (names_constant(b) ==> operand < self.constants@.len()) {
                lemma_constants_named_append(
                    self.code@,
                    0,
                    seq![b, operand],
                    self.constants@.len() as int,
                );
            }
            assert(self.code@ + seq![b, operand] == self.code@.push(b).push(operand));
        }
        self.write(b, line);
        self.write(operand, line);
    }

    /// Decodes the instruction at `offset`. It never reads past the end: an
    /// instruction cut short takes only the bytes that remain.
    pub fn disassemble_instruction(&self, offset: usize) -> (r: (Instruction, usize))
        requires
            self.wf(),
            offset < self.code@.len(),
        ensures
            r.0.offset == offset,
            r.0.line == self.lines@[offset as int],
            r.0.op == decode_spec(self.code@[offset as int]),
            r.0.width >= 1,
            r.0.width as int == if offset + instr_len(self.code@, offset as int)
                <= self.code@.len() {
                instr_len(self.code@, offset as int)
            } else {
                self.code@.len() - offset
            },
            r.1 == offset + r.0.width,
            r.1 <= self.code@.len(),
            r.0.operand as int == if r.0.width == 2 && r.0.op is Some && operand_len(r.0.op->Some_0) == 1 {
                self.code@[offset + 1] as int
            } else if r.0.width == 3 {
                self.code@[offset + 1] as int * 256 + self.code@[offset + 2] as int
            } else {
                0
            },
    {
        let byte = self.code[offset];
        let op = Op::from_byte(byte);
        let remaining = self.code.len() - offset;
        let mut operand: u16 = 0;
        let mut width: usize = 1;
        match op {
            Some(o) => {
                let n = o.operand_count();
                if n + 1 <= remaining {
                    width = n + 1;
                    if n == 1 {
                        operand = self.code[offset + 1] as u16;
                    } else if n == 2 {
                        operand = (self.code[offset + 1] as u16) * 256 + self.code[offset
                            + 2] as u16;
                    }
                } else {
                    width = remaining;
                }
            },
            None => {},
        }
        let instr = Instruction { offset, line: self.lines[offset], op, operand, width };
        (instr, offset + width)
    }

    /// The listing line for an instruction that `disassemble_instruction`
    /// read: `listing_head`, then `listing_body` with the named constant's
    /// printed text.
    pub fn instruction_text<H: Host>(
        &self,
        instr: &Instruction,
        strings: &Interner,
        functions: &[Function],
        host: &mut H,
    ) -> (r: Vec<u8>)
        requires
            self.wf(),
            instr.offset < self.code@.len(),
            instr.offset + 3 + 65535 <= usize::MAX,
        ensures
            exists|value: Seq<u8>|
                (instr.operand < self.constants@.len() ==> printed_as(
                    strings@,
                    functions@,
                    self.constants@[instr.operand as int],
                    value,
                )) && r@ == listing_head(*self, instr.offset as int) + listing_body(*instr, value),
    {
        let offset = instr.offset;
        let mut text = padded_left(decimal(offset), 4, 48);
        append_bytes(&mut text, " ".as_bytes());
        if offset > 0 && self.lines[offset] == self.lines[offset - 1] {
            append_bytes(&mut text, "   | ".as_bytes());
        } else {
            let line = padded_left(decimal(self.lines[offset]), 4, 32);
            append_bytes(&mut text, line.as_slice());
            append_bytes(&mut text, " ".as_bytes());
        }
        let ghost head = text@;
        assert(head =~= listing_head(*self, offset as int));
        let mut value: Vec<u8> = Vec::new();
        if (instr.operand as usize) < self.constants.len() {
            value = self.constants[instr.operand as usize].print(strings, functions, host);
        }
        let ghost v = value@;
        assert(instr.operand < self.constants@.len() ==> printed_as(
            strings@,
            functions@,
            self.constants@[instr.operand as int],
            v,
        ));
        let body = listing_body_text(instr, &value);
        append_bytes(&mut text, body.as_slice());
        assert(text@ =~= listing_head(*self, offset as int) + listing_body(*instr, v));
        assert((instr.operand < self.constants@.len() ==> printed_as(
            strings@,
            functions@,
            self.constants@[instr.operand as int],
            v,
        )) && text@ == listing_head(*self, instr.offset as int) + listing_body(*instr, v));
        text
    }

    /// Decodes the whole code, one instruction after another from offset 0.
    /// The instructions cover every byte exactly once: each starts where the
    /// one before it ended, and the last ends at the end of the code.
    pub fn disassemble(&self) -> (r: Vec<Instruction>)
        requires
            self.wf(),
        ensures
            r@.len() == 0 <==> self.code@.len() == 0,
            r@.len() > 0 ==> r@[0].offset == 0,
            r@.len() > 0 ==> r@.last().offset + r@.last().width == self.code@.len(),
            forall|i: int|
                0 <= i < r@.len() ==> #[trigger] r@[i].width >= 1 && r@[i].offset + r@[i].width
                    <= self.code@.len(),
            forall|i: int|
                0 <= i < r@.len() - 1 ==> #[trigger] r@[i + 1].offset == r@[i].offset
                    + r@[i].width,
            well_formed_code(self.code@) ==> forall|i: int|
                0 <= i < r@.len() ==> (#[trigger] r@[i]).op is Some && r@[i].width
                    == instr_len(self.code@, r@[i].offset as int),
    {
        let mut out: Vec<Instruction> = Vec::new();
        let mut offset: usize = 0;
        while offset < self.code.len()
            invariant
                self.wf(),
                offset <= self.code@.len(),
                out@.len() == 0 <==> offset == 0,
                out@.len() > 0 ==> out@[0].offset == 0,
                out@.len() > 0 ==> out@.last().offset + out@.last().width == offset,
                forall|i: int|
                    0 <= i < out@.len() ==> #[trigger] out@[i].width >= 1 && out@[i].offset
                        + out@[i].width <= offset,
                forall|i: int|
                    0 <= i < out@.len() - 1 ==> #[trigger] out@[i + 1].offset == out@[i].offset
                        + out@[i].width,
                well_formed_code(self.code@) ==> decodes_from(self.code@, offset as int),
                well_formed_code(self.code@) ==> forall|i: int|
                    0 <= i < out@.len() ==> (#[trigger] out@[i]).op is Some && out@[i].width
                        == instr_len(self.code@, out@[i].offset as int),
            decreases self.code@.len() - offset,
        {
            let (instr, next) = self.disassemble_instruction(offset);
            out.push(instr);
            offset = next;
        }
        out
    }
}

} // verus!
