use vstd::prelude::*;
use crate::chunk::{Chunk, Op, names_constant, op_byte, well_formed_code};
use crate::host::Host;
use crate::scanner::{Token, TokenKind, TokenSpec, scan_spec, scan_tokens, token_view, tokens_view};
use crate::text::{Interner, append_bytes, copy_range, decimal, decimal_spec, message};
use vstd::string::StringSliceAdditionalSpecFns;
use crate::value::{Function, Value};
use crate::grammar::{ConstSpec, ParseState};
use crate::grammar;

verus! {

/// Binding strength of an operator, from loosest to tightest.
#[derive(Clone, Copy, Debug, PartialEq, Eq, Structural)]
pub enum Precedence {
    Lowest,
    Assignment,
    Or,
    And,
    Equality,
    Comparison,
    Term,
    Factor,
    Unary,
    Call,
    Primary,
}

/// The rank of a precedence on the ladder, `Lowest` being 0.
pub open spec fn level(p: Precedence) -> nat {
    match p {
        Precedence::Lowest => 0,
        Precedence::Assignment => 1,
        Precedence::Or => 2,
        Precedence::And => 3,
        Precedence::Equality => 4,
        Precedence::Comparison => 5,
        Precedence::Term => 6,
        Precedence::Factor => 7,
        Precedence::Unary => 8,
        Precedence::Call => 9,
        Precedence::Primary => 10,
    }
}

impl Precedence {
    pub fn rank(self) -> (r: u8)
        ensures
            r as nat == level(self),
    {
        match self {
            Precedence::Lowest => 0,
            Precedence::Assignment => 1,
            Precedence::Or => 2,
            Precedence::And => 3,
            Precedence::Equality => 4,
            Precedence::Comparison => 5,
            Precedence::Term => 6,
            Precedence::Factor => 7,
            Precedence::Unary => 8,
            Precedence::Call => 9,
            Precedence::Primary => 10,
        }
    }

    /// The next tighter precedence; `Primary` is the tightest.
    pub fn higher(&self) -> (r: Precedence)
        ensures
            r == grammar::higher_spec(*self),
            level(*self) < 10 ==> level(r) == level(*self) + 1,
            level(*self) == 10 ==> r == Precedence::Primary,
    {
        match self {
            Precedence::Lowest => Precedence::Assignment,
            Precedence::Assignment => Precedence::Or,
            Precedence::Or => Precedence::And,
            Precedence::And => Precedence::Equality,
            Precedence::Equality => Precedence::Comparison,
            Precedence::Comparison => Precedence::Term,
            Precedence::Term => Precedence::Factor,
            Precedence::Factor => Precedence::Unary,
            Precedence::Unary => Precedence::Call,
            _ => Precedence::Primary,
        }
    }
}

/// A parse function of the expression grammar.
#[derive(Clone, Copy, Debug, PartialEq, Eq, Structural)]
pub enum ParseFn {
    Grouping,
    Unary,
    Binary,
    Variable,
    String,
    Number,
    Literal,
    Call,
}

/// The opcodes that a binary operator token compiles to. Only three
/// comparisons exist: `!=`, `>=` and `<=` are the negations of `==`, `<`, `>`.
pub open spec fn binary_ops(kind: TokenKind) -> Seq<Op> {
    match kind {
        TokenKind::BangEqual => seq![Op::Equal, Op::Not],
        TokenKind::EqualEqual => seq![Op::Equal],
        TokenKind::Greater => seq![Op::Greater],
        TokenKind::GreaterEqual => seq![Op::Less, Op::Not],
        TokenKind::Less => seq![Op::Less],
        TokenKind::LessEqual => seq![Op::Greater, Op::Not],
        TokenKind::Plus => seq![Op::Add],
        TokenKind::Minus => seq![Op::Subtract],
        TokenKind::Star => seq![Op::Multiply],
        TokenKind::Slash => seq![Op::Divide],
        _ => seq![],
    }
}

/// The bytes of a sequence of operand-free opcodes.
pub open spec fn ops_bytes(ops: Seq<Op>) -> Seq<u8> {
    ops.map_values(|op: Op| op_byte(op))
}

/// The (prefix, infix, infix precedence) rule of a token kind.
pub open spec fn rule_spec(kind: TokenKind) -> (Option<ParseFn>, Option<ParseFn>, Precedence) {
    match kind {
        TokenKind::LeftParen => (Some(ParseFn::Grouping), Some(ParseFn::Call), Precedence::Call),
        TokenKind::Minus => (Some(ParseFn::Unary), Some(ParseFn::Binary), Precedence::Term),
        TokenKind::Plus => (None, Some(ParseFn::Binary), Precedence::Term),
        TokenKind::Slash => (None, Some(ParseFn::Binary), Precedence::Factor),
        TokenKind::Star => (None, Some(ParseFn::Binary), Precedence::Factor),
        TokenKind::Bang => (Some(ParseFn::Unary), None, Precedence::Lowest),
        TokenKind::BangEqual => (None, Some(ParseFn::Binary), Precedence::Equality),
        TokenKind::EqualEqual => (None, Some(ParseFn::Binary), Precedence::Equality),
        TokenKind::Greater => (None, Some(ParseFn::Binary), Precedence::Comparison),
        TokenKind::GreaterEqual => (None, Some(ParseFn::Binary), Precedence::Comparison),
        TokenKind::Less => (None, Some(ParseFn::Binary), Precedence::Comparison),
        TokenKind::LessEqual => (None, Some(ParseFn::Binary), Precedence::Comparison),
        TokenKind::Identifier => (Some(ParseFn::Variable), None, Precedence::Lowest),
        TokenKind::String => (Some(ParseFn::String), None, Precedence::Lowest),
        TokenKind::Number => (Some(ParseFn::Number), None, Precedence::Lowest),
        TokenKind::False => (Some(ParseFn::Literal), None, Precedence::Lowest),
        TokenKind::True => (Some(ParseFn::Literal), None, Precedence::Lowest),
        TokenKind::Nil => (Some(ParseFn::Literal), None, Precedence::Lowest),
        _ => (None, None, Precedence::Lowest),
    }
}

pub fn get_rule(kind: TokenKind) -> (r: (Option<ParseFn>, Option<ParseFn>, Precedence))
    ensures
        r == rule_spec(kind),
{
    match kind {
        TokenKind::LeftParen => (Some(ParseFn::Grouping), Some(ParseFn::Call), Precedence::Call),
        TokenKind::Minus => (Some(ParseFn::Unary), Some(ParseFn::Binary), Precedence::Term),
        TokenKind::Plus => (None, Some(ParseFn::Binary), Precedence::Term),
        TokenKind::Slash => (None, Some(ParseFn::Binary), Precedence::Factor),
        TokenKind::Star => (None, Some(ParseFn::Binary), Precedence::Factor),
        TokenKind::Bang => (Some(ParseFn::Unary), None, Precedence::Lowest),
        TokenKind::BangEqual => (None, Some(ParseFn::Binary), Precedence::Equality),
        TokenKind::EqualEqual => (None, Some(ParseFn::Binary), Precedence::Equality),
        TokenKind::Greater => (None, Some(ParseFn::Binary), Precedence::Comparison),
        TokenKind::GreaterEqual => (None, Some(ParseFn::Binary), Precedence::Comparison),
        TokenKind::Less => (None, Some(ParseFn::Binary), Precedence::Comparison),
        TokenKind::LessEqual => (None, Some(ParseFn::Binary), Precedence::Comparison),
        TokenKind::Identifier => (Some(ParseFn::Variable), None, Precedence::Lowest),
        TokenKind::String => (Some(ParseFn::String), None, Precedence::Lowest),
        TokenKind::Number => (Some(ParseFn::Number), None, Precedence::Lowest),
        TokenKind::False => (Some(ParseFn::Literal), None, Precedence::Lowest),
        TokenKind::True => (Some(ParseFn::Literal), None, Precedence::Lowest),
        TokenKind::Nil => (Some(ParseFn::Literal), None, Precedence::Lowest),
        _ => (None, None, Precedence::Lowest),
    }
}

/// A single-pass compiler: it reads tokens and writes bytecode into `chunk`
/// as it recognises each construct, with no tree in between.
pub struct Compiler {
    pub tokens: Vec<Token>,
    /// Index of the token not yet consumed.
    pub current: usize,
    /// Index of the token consumed last.
    pub previous: usize,
    pub had_error: bool,
    /// Set by an error; quiets further reports until the parser resynchronises.
    pub panic_mode: bool,
    pub chunk: Chunk,
    pub strings: Interner,
    /// One diagnostic line per reported error.
    pub errors: Vec<Vec<u8>>,
}

/// The diagnostic line for an error at `token`: where, then what.
pub open spec fn error_line(token: TokenSpec, msg: Seq<u8>) -> Seq<u8> {
    "[line ".spec_bytes() + decimal_spec(token.line as nat) + "] Error".spec_bytes() + (if token.kind
        == TokenKind::EOF {
        " at end".spec_bytes()
    } else if token.kind == TokenKind::Error {
        Seq::<u8>::empty()
    } else {
        " at '".spec_bytes() + token.lexeme + "'".spec_bytes()
    }) + ": ".spec_bytes() + msg
}

/// The bytes of a source text (its UTF-8 encoding).
pub open spec fn source_bytes(source: &String) -> Seq<u8> {
    vstd::utf8::encode_utf8(source@)
}

/// What the grammar sees of a constant.
pub open spec fn const_view(v: Value, strings: Seq<Seq<u8>>) -> ConstSpec {
    match v {
        Value::Number(_) => ConstSpec::Num,
        Value::String(h) => ConstSpec::Str(
            if h < strings.len() {
                strings[h as int]
            } else {
                Seq::<u8>::empty()
            },
        ),
        _ => ConstSpec::Other,
    }
}

/// Every string constant names an entry of the interner.
pub open spec fn handles_ok(constants: Seq<Value>, strings: Seq<Seq<u8>>) -> bool {
    forall|i: int|
        0 <= i < constants.len() ==> (#[trigger] constants[i] matches Value::String(h) ==> h
            < strings.len())
}

/// A longer interner gives the same view of constants whose handles it held.
pub proof fn lemma_const_views_stable(constants: Seq<Value>, s1: Seq<Seq<u8>>, s2: Seq<Seq<u8>>)
    requires
        handles_ok(constants, s1),
        s1.is_prefix_of(s2),
    ensures
        constants.map_values(|v: Value| const_view(v, s1)) == constants.map_values(
            |v: Value| const_view(v, s2),
        ),
        handles_ok(constants, s2),
{
    assert forall|i: int| 0 <= i < constants.len() implies const_view(constants[i], s1)
        == const_view(constants[i], s2) by {
        if let Value::String(h) = constants[i] {
            assert(s2[h as int] == s1[h as int]);
        }
    }
    assert(constants.map_values(|v: Value| const_view(v, s1)) =~= constants.map_values(
        |v: Value| const_view(v, s2),
    ));
}

/// A token sequence as the compiler reads it: one `EOF`, at the end.
pub open spec fn tokens_ok(tokens: Seq<Token>) -> bool {
    &&& tokens.len() >= 1
    &&& tokens.last().kind == TokenKind::EOF
    &&& forall|i: int| 0 <= i < tokens.len() - 1 ==> #[trigger] tokens[i].kind != TokenKind::EOF
}

impl Compiler {
    pub open spec fn inv(&self) -> bool {
        &&& tokens_ok(self.tokens@)
        &&& self.current < self.tokens@.len()
        &&& self.previous < self.tokens@.len()
        &&& self.chunk.wf()
        &&& well_formed_code(self.chunk.code@)
        &&& self.chunk.constants_ok()
        &&& self.strings.wf()
        &&& (self.had_error <==> self.errors@.len() > 0)
        &&& (self.panic_mode ==> self.had_error)
        &&& handles_ok(self.chunk.constants@, self.strings@)
    }

    /// The state as the grammar sees it.
    pub open spec fn ps(&self) -> ParseState {
        ParseState {
            cur: self.current as int,
            prev: self.previous as int,
            code: self.chunk.code@,
            consts: self.chunk.constants@.map_values(|v: Value| const_view(v, self.strings@)),
            errors: self.errors@.map_values(|e: Vec<u8>| e@),
            panic: self.panic_mode,
        }
    }

    /// `next` is a later state of the same parse.
    pub open spec fn moves_to(&self, next: &Compiler) -> bool {
        &&& next.inv()
        &&& next.tokens@ == self.tokens@
        &&& next.current >= self.current
        &&& self.strings@.is_prefix_of(next.strings@)
        &&& self.chunk.code@.is_prefix_of(next.chunk.code@)
        &&& self.chunk.constants@.is_prefix_of(next.chunk.constants@)
        &&& self.errors@.is_prefix_of(next.errors@)
    }

    pub open spec fn remaining(&self) -> int {
        self.tokens@.len() - self.current
    }

    pub open spec fn current_kind_spec(&self) -> TokenKind {
        self.tokens@[self.current as int].kind
    }

    pub open spec fn previous_kind_spec(&self) -> TokenKind {
        self.tokens@[self.previous as int].kind
    }

    pub fn new(tokens: Vec<Token>, strings: Interner) -> (r: Compiler)
        requires
            tokens_ok(tokens@),
            strings.wf(),
        ensures
            r.inv(),
            r.tokens@ == tokens@,
            r.current == 0,
            r.strings@ == strings@,
            !r.had_error,
            !r.panic_mode,
            r.chunk.code@.len() == 0,
            r.chunk.constants@.len() == 0,
            r.errors@.len() == 0,
            r.previous == 0,
    {
        Compiler {
            tokens,
            current: 0,
            previous: 0,
            had_error: false,
            panic_mode: false,
            chunk: Chunk::new(),
            strings,
            errors: Vec::new(),
        }
    }

    fn current_kind(&self) -> (r: TokenKind)
        requires
            self.inv(),
        ensures
            r == self.current_kind_spec(),
    {
        self.tokens[self.current].kind
    }

    fn previous_kind(&self) -> (r: TokenKind)
        requires
            self.inv(),
        ensures
            r == self.previous_kind_spec(),
    {
        self.tokens[self.previous].kind
    }

    /// Reports an error at token `at`, unless the parser is already panicking.
    fn error_at(&mut self, at: usize, msg: &[u8])
        requires
            old(self).inv(),
            at < old(self).tokens@.len(),
        ensures
            final(self).ps() == grammar::report(tokens_view(old(self).tokens@), old(self).ps(), at as int, msg@),
            old(self).moves_to(final(self)),
            final(self).current == old(self).current,
            final(self).previous == old(self).previous,
            final(self).chunk == old(self).chunk,
            final(self).strings == old(self).strings,
            final(self).panic_mode,
            old(self).panic_mode ==> final(self).errors@ == old(self).errors@,
            !old(self).panic_mode ==> final(self).had_error && final(self).errors@.len()
                == old(self).errors@.len() + 1 && final(self).errors@.drop_last() == old(
                self,
            ).errors@ && final(self).errors@.last()@ == error_line(
                token_view(old(self).tokens@[at as int]),
                msg@,
            ),
    {
        if self.panic_mode {
            return;
        }
        let mut text = message("[line ");
        let line = decimal(self.tokens[at].line);
        append_bytes(&mut text, line.as_slice());
        append_bytes(&mut text, "] Error".as_bytes());
        let kind = self.tokens[at].kind;
        if kind == TokenKind::EOF {
            append_bytes(&mut text, " at end".as_bytes());
        } else if kind != TokenKind::Error {
            append_bytes(&mut text, " at '".as_bytes());
            append_bytes(&mut text, self.tokens[at].lexeme.as_slice());
            append_bytes(&mut text, "'".as_bytes());
        }
        append_bytes(&mut text, ": ".as_bytes());
        append_bytes(&mut text, msg);
        assert(text@ =~= error_line(token_view(self.tokens@[at as int]), msg@));
        let ghost e0 = self.errors@;
        self.errors.push(text);
        assert(self.errors@.drop_last() =~= e0);
        self.panic_mode = true;
        self.had_error = true;
        assert(self.ps().errors =~= old(self).ps().errors.push(error_line(token_view(self.tokens@[at as int]), msg@)));
    }

    /// Reports an error at the token consumed last.
    fn error(&mut self, msg: &str)
        requires
            old(self).inv(),
        ensures
            final(self).ps() == grammar::report_prev(tokens_view(old(self).tokens@), old(self).ps(), msg.spec_bytes()),
            old(self).moves_to(final(self)),
            final(self).current == old(self).current,
            final(self).chunk == old(self).chunk,
            final(self).panic_mode,
            !old(self).panic_mode ==> final(self).had_error,
    {
        let at = self.previous;
        self.error_at(at, msg.as_bytes());
    }

    /// Reports and skips error tokens from the current one on.
    fn skip_error_tokens(&mut self)
        requires
            old(self).inv(),
        ensures
            final(self).ps() == grammar::skip_errors(tokens_view(old(self).tokens@), old(self).ps()),
            forall|j: int| old(self).current <= j < final(self).current ==> #[trigger] old(self).tokens@[j].kind == TokenKind::Error,
            final(self).panic_mode ==> old(self).panic_mode || final(self).errors@.len() > old(self).errors@.len(),
            old(self).moves_to(final(self)),
            final(self).previous == old(self).previous,
            final(self).chunk == old(self).chunk,
            final(self).current_kind_spec() != TokenKind::Error,
            old(self).current_kind_spec() == TokenKind::EOF ==> final(self).current == old(
                self,
            ).current,
            old(self).panic_mode ==> final(self).panic_mode,
    {
        while self.tokens[self.current].kind == TokenKind::Error
            invariant
                old(self).moves_to(self),
                self.previous == old(self).previous,
                self.chunk == old(self).chunk,
                old(self).current_kind_spec() == TokenKind::EOF ==> self.current == old(
                    self,
                ).current,
                old(self).panic_mode ==> self.panic_mode,
                self.panic_mode ==> old(self).panic_mode || self.errors@.len() > old(self).errors@.len(),
                self.current >= old(self).current,
                forall|j: int| old(self).current <= j < self.current ==> #[trigger] old(self).tokens@[j].kind == TokenKind::Error,
                grammar::skip_errors(tokens_view(self.tokens@), self.ps()) == grammar::skip_errors(tokens_view(old(self).tokens@), old(self).ps()),
            decreases self.tokens@.len() - self.current,
        {
            let at = self.current;
            let lexeme = copy_range(
                self.tokens[at].lexeme.as_slice(),
                0,
                self.tokens[at].lexeme.len(),
            );
            assert(lexeme@ =~= self.tokens@[at as int].lexeme@);
            self.error_at(at, lexeme.as_slice());
            let n = self.tokens.len();
            assert(self.tokens@.last() == self.tokens@[n - 1]);
            self.current = self.current + 1;
        }
    }

    /// Consumes the current token, then reports and skips error tokens.
    fn advance(&mut self)
        requires
            old(self).inv(),
        ensures
            final(self).ps() == grammar::adv(tokens_view(old(self).tokens@), old(self).ps()),
            final(self).panic_mode ==> old(self).panic_mode || final(self).errors@.len() > old(self).errors@.len(),
            old(self).moves_to(final(self)),
            final(self).previous == old(self).current,
            final(self).chunk == old(self).chunk,
            final(self).current_kind_spec() != TokenKind::Error,
            old(self).current_kind_spec() != TokenKind::EOF ==> final(self).current > old(
                self,
            ).current,
            old(self).current_kind_spec() == TokenKind::EOF ==> final(self).current == old(
                self,
            ).current,
            old(self).panic_mode ==> final(self).panic_mode,
    {
        self.previous = self.current;
        if self.tokens[self.current].kind == TokenKind::EOF {
            return;
        }
        let n = self.tokens.len();
        assert(self.tokens@.last() == self.tokens@[n - 1]);
        self.current = self.current + 1;
        self.skip_error_tokens();
    }

    /// Consumes the current token if it has kind `kind`, else reports `msg`.
    fn consume(&mut self, kind: TokenKind, msg: &str)
        requires
            old(self).inv(),
        ensures
            final(self).ps() == grammar::consume(tokens_view(old(self).tokens@), old(self).ps(), kind, msg.spec_bytes()),
            old(self).current_kind_spec() == kind ==> final(self).previous == old(self).current,
            old(self).moves_to(final(self)),
            final(self).chunk == old(self).chunk,
    {
        if self.current_kind() == kind {
            self.advance();
            return;
        }
        let at = self.current;
        self.error_at(at, msg.as_bytes());
    }

    fn check(&self, kind: TokenKind) -> (r: bool)
        requires
            self.inv(),
        ensures
            r == (self.current_kind_spec() == kind),
    {
        self.current_kind() == kind
    }

    /// Consumes the current token exactly when it has kind `kind`.
    fn match_current(&mut self, kind: TokenKind) -> (r: bool)
        requires
            old(self).inv(),
        ensures
            final(self).ps() == if r { grammar::adv(tokens_view(old(self).tokens@), old(self).ps()) } else { old(self).ps() },
            r == (old(self).current_kind_spec() == kind),
            old(self).moves_to(final(self)),
            final(self).chunk == old(self).chunk,
            !r ==> *final(self) == *old(self),
            r && kind != TokenKind::EOF ==> final(self).current > old(self).current,
            old(self).panic_mode ==> final(self).panic_mode,
    {
        if !self.check(kind) {
            return false;
        }
        self.advance();
        true
    }

    /// Writes an instruction without operands, at the line of the last token.
    fn emit_op(&mut self, op: Op)
        requires
            old(self).inv(),
            crate::chunk::operand_len(op) == 0,
        ensures
            final(self).ps() == grammar::emit(old(self).ps(), seq![op_byte(op)]),
            final(self).chunk.constants@ == old(self).chunk.constants@,
            old(self).moves_to(final(self)),
            final(self).current == old(self).current,
            final(self).panic_mode == old(self).panic_mode,
            final(self).had_error == old(self).had_error,
            final(self).chunk.code@ == old(self).chunk.code@.push(op_byte(op)),
    {
        let line = self.tokens[self.previous].line;
        self.chunk.write_op(op, line);
        assert(self.ps().code =~= old(self).ps().code + seq![op_byte(op)]);
        assert(self.ps().consts =~= old(self).ps().consts);
    }

    /// Writes an instruction with one operand byte.
    fn emit_op_operand(&mut self, op: Op, operand: u8)
        requires
            old(self).inv(),
            crate::chunk::operand_len(op) == 1,
            names_constant(op_byte(op)) ==> operand < old(self).chunk.constants@.len(),
        ensures
            final(self).ps() == grammar::emit(old(self).ps(), seq![op_byte(op), operand]),
            final(self).chunk.constants@ == old(self).chunk.constants@,
            old(self).moves_to(final(self)),
            final(self).current == old(self).current,
            final(self).panic_mode == old(self).panic_mode,
            final(self).chunk.code@ == old(self).chunk.code@.push(op_byte(op)).push(operand),
    {
        let line = self.tokens[self.previous].line;
        self.chunk.write_op_operand(op, operand, line);
        assert(self.ps().code =~= old(self).ps().code + seq![op_byte(op), operand]);
        assert(self.ps().consts =~= old(self).ps().consts);
    }

    /// Adds `value` to the pool and returns its index; reports an error and
    /// returns 0 when the pool is full.
    fn make_constant(&mut self, value: Value) -> (r: u8)
        requires
            value matches Value::String(h) ==> h < old(self).strings@.len(),
            old(self).inv(),
        ensures
            (final(self).ps(), r) == grammar::make_const(tokens_view(old(self).tokens@), old(self).ps(), const_view(value, old(self).strings@)),
            old(self).moves_to(final(self)),
            final(self).current == old(self).current,
            final(self).chunk.code@ == old(self).chunk.code@,
            r < final(self).chunk.constants@.len(),
            old(self).chunk.constants@.len() < 256 ==> r as int == old(
                self,
            ).chunk.constants@.len() && final(self).chunk.constants@ == old(
                self,
            ).chunk.constants@.push(value),
            old(self).chunk.constants@.len() >= 256 ==> r == 0 && final(self).had_error
                && final(self).chunk.constants@ == old(self).chunk.constants@,
    {
        match self.chunk.add_constant(value) {
            Some(index) => {
                assert(self.ps().consts =~= old(self).ps().consts.push(const_view(value, self.strings@)));
                index
            },
            None => {
                self.error("Too many constants in one chunk.");
                0
            },
        }
    }

    fn emit_constant(&mut self, value: Value)
        requires
            value matches Value::String(h) ==> h < old(self).strings@.len(),
            old(self).inv(),
        ensures
            final(self).ps() == grammar::emit_const(tokens_view(old(self).tokens@), old(self).ps(), const_view(value, old(self).strings@)),
            final(self).chunk.code@.len() == old(self).chunk.code@.len() + 2,
            final(self).chunk.code@.drop_last().last() == op_byte(Op::Constant),
            old(self).chunk.constants@.len() < 256 ==> final(self).chunk.constants@ == old(self).chunk.constants@.push(value)
                && final(self).chunk.code@ == old(self).chunk.code@.push(op_byte(Op::Constant)).push(old(self).chunk.constants@.len() as u8),
            old(self).moves_to(final(self)),
            final(self).current == old(self).current,
    {
        let index = self.make_constant(value);
        proof {
            if old(self).chunk.constants@.len() < 256 {
                assert(index == old(self).chunk.constants@.len() as u8);
            }
        }
        self.emit_op_operand(Op::Constant, index);
    }

    /// Writes the opcodes of binary operator `kind`.
    fn emit_binary_ops(&mut self, kind: TokenKind)
        requires
            old(self).inv(),
        ensures
            final(self).ps() == grammar::emit(old(self).ps(), ops_bytes(binary_ops(kind))),
            old(self).moves_to(final(self)),
            final(self).current == old(self).current,
            final(self).chunk.code@ == old(self).chunk.code@ + ops_bytes(binary_ops(kind)),
    {
        let ghost before = self.chunk.code@;
        match kind {
            TokenKind::BangEqual => {
                self.emit_op(Op::Equal);
                self.emit_op(Op::Not);
            },
            TokenKind::EqualEqual => self.emit_op(Op::Equal),
            TokenKind::Greater => self.emit_op(Op::Greater),
            TokenKind::GreaterEqual => {
                self.emit_op(Op::Less);
                self.emit_op(Op::Not);
            },
            TokenKind::Less => self.emit_op(Op::Less),
            TokenKind::LessEqual => {
                self.emit_op(Op::Greater);
                self.emit_op(Op::Not);
            },
            TokenKind::Plus => self.emit_op(Op::Add),
            TokenKind::Minus => self.emit_op(Op::Subtract),
            TokenKind::Star => self.emit_op(Op::Multiply),
            TokenKind::Slash => self.emit_op(Op::Divide),
            _ => {},
        }
        assert(self.chunk.code@ =~= before + ops_bytes(binary_ops(kind)));
    }

    /// The handle of `name`, as a constant of the chunk.
    fn identifier_constant(&mut self, name: &[u8]) -> (r: u8)
        requires
            old(self).inv(),
        ensures
            (final(self).ps(), r) == grammar::make_const(tokens_view(old(self).tokens@), old(self).ps(), ConstSpec::Str(name@)),
            final(self).chunk.code@ == old(self).chunk.code@,
            old(self).chunk.constants@.len() < 256 ==> match final(self).chunk.constants@[r as int] {
                Value::String(h) => h < final(self).strings@.len() && final(self).strings@[h as int] == name@,
                _ => false,
            },
            old(self).moves_to(final(self)),
            r < final(self).chunk.constants@.len(),
            final(self).current == old(self).current,
    {
        let handle = self.strings.intern(name);
        proof {
            lemma_const_views_stable(self.chunk.constants@, old(self).strings@, self.strings@);
            assert(self.ps() == old(self).ps());
        }
        self.make_constant(Value::String(handle))
    }

    /// Parses an expression whose operators bind at least as tightly as
    /// `precedence`.
    fn parse_precedence<H: Host>(&mut self, precedence: Precedence, host: &mut H)
        requires
            old(self).inv(),
            level(precedence) >= 1,
        ensures
            final(self).ps() == grammar::parse_expr(tokens_view(old(self).tokens@), old(self).ps(), precedence),
            rule_spec(old(self).current_kind_spec()).0 is None ==> final(self).chunk.code@ == old(
                self,
            ).chunk.code@ && final(self).had_error,
            old(self).moves_to(final(self)),
            old(self).current_kind_spec() != TokenKind::EOF ==> final(self).current > old(
                self,
            ).current,
        decreases old(self).remaining(), 0int,
    {
        self.advance();
        let prefix = get_rule(self.previous_kind()).0;
        let rule = match prefix {
            Some(rule) => rule,
            None => {
                self.error("Expect expression.");
                return;
            },
        };
        let can_assign = precedence.rank() <= 1;
        self.apply(rule, can_assign, host);
        let ghost target = grammar::infix_loop(tokens_view(self.tokens@), self.ps(), precedence, can_assign);
        while precedence.rank() <= get_rule(self.current_kind()).2.rank()
            invariant
                old(self).moves_to(self),
                self.current > old(self).current,
                level(precedence) >= 1,
                grammar::infix_loop(tokens_view(self.tokens@), self.ps(), precedence, can_assign) == target,
            decreases self.remaining(),
        {
            self.advance();
            match get_rule(self.previous_kind()).1 {
                Some(infix) => self.apply(infix, can_assign, host),
                None => {},
            }
        }
        if can_assign && self.match_current(TokenKind::Equal) {
            self.error("Invalid assignment target.");
        }
    }

    /// Runs parse function `rule` on the token consumed last.
    fn apply<H: Host>(&mut self, rule: ParseFn, can_assign: bool, host: &mut H)
        requires
            old(self).inv(),
        ensures
            final(self).ps() == grammar::apply_rule(tokens_view(old(self).tokens@), old(self).ps(), rule, can_assign),
            old(self).moves_to(final(self)),
        decreases old(self).remaining(), 3int,
    {
        match rule {
            ParseFn::Grouping => self.grouping(host),
            ParseFn::Unary => self.unary(host),
            ParseFn::Binary => self.binary(host),
            ParseFn::Variable => self.variable(can_assign, host),
            ParseFn::String => self.string(),
            ParseFn::Number => self.number(host),
            ParseFn::Literal => self.literal(),
            ParseFn::Call => self.call(host),
        }
    }

    fn grouping<H: Host>(&mut self, host: &mut H)
        requires
            old(self).inv(),
        ensures
            final(self).ps() == grammar::apply_rule(tokens_view(old(self).tokens@), old(self).ps(), ParseFn::Grouping, false),
            old(self).moves_to(final(self)),
        decreases old(self).remaining(), 2int,
    {
        self.parse_precedence(Precedence::Assignment, host);
        self.consume(TokenKind::RightParen, "Expect ')' after expression.");
    }

    /// A prefix `-` or `!`: its operand, then `NEGATE` or `NOT`.
    fn unary<H: Host>(&mut self, host: &mut H)
        requires
            old(self).inv(),
        ensures
            final(self).ps() == grammar::apply_rule(tokens_view(old(self).tokens@), old(self).ps(), ParseFn::Unary, false),
            old(self).moves_to(final(self)),
            old(self).previous_kind_spec() == TokenKind::Minus ==> final(self).chunk.code@.last()
                == op_byte(Op::Negate),
            old(self).previous_kind_spec() == TokenKind::Bang ==> final(self).chunk.code@.last()
                == op_byte(Op::Not),
        decreases old(self).remaining(), 2int,
    {
        let operator = self.previous_kind();
        self.parse_precedence(Precedence::Unary, host);
        if operator == TokenKind::Minus {
            self.emit_op(Op::Negate);
        } else if operator == TokenKind::Bang {
            self.emit_op(Op::Not);
        }
    }

    /// An infix operator: its right operand, parsed one level tighter so that
    /// operators of one level associate to the left, then its opcodes.
    fn binary<H: Host>(&mut self, host: &mut H)
        requires
            old(self).inv(),
        ensures
            final(self).ps() == grammar::apply_rule(tokens_view(old(self).tokens@), old(self).ps(), ParseFn::Binary, false),
            ({
                let ops = ops_bytes(binary_ops(old(self).previous_kind_spec()));
                let code = final(self).chunk.code@;
                old(self).chunk.code@.is_prefix_of(code.subrange(0, code.len() - ops.len()))
            }),
            old(self).moves_to(final(self)),
            ({
                let ops = ops_bytes(binary_ops(old(self).previous_kind_spec()));
                let code = final(self).chunk.code@;
                code.len() >= ops.len() && code.subrange(code.len() - ops.len(), code.len() as int)
                    == ops
            }),
        decreases old(self).remaining(), 2int,
    {
        let operator = self.previous_kind();
        let rule = get_rule(operator);
        self.parse_precedence(rule.2.higher(), host);
        let ghost mid = self.chunk.code@;
        self.emit_binary_ops(operator);
        assert(self.chunk.code@.subrange(mid.len() as int, self.chunk.code@.len() as int)
            =~= ops_bytes(binary_ops(operator)));
    }

    /// A call: the arguments up to `)`, then `CALL` with their count.
    fn call<H: Host>(&mut self, host: &mut H)
        requires
            old(self).inv(),
        ensures
            final(self).ps() == grammar::apply_rule(tokens_view(old(self).tokens@), old(self).ps(), ParseFn::Call, false),
            old(self).moves_to(final(self)),
        decreases old(self).remaining(), 2int,
    {
        let mut count: usize = 0;
        let ghost target = grammar::arguments(tokens_view(self.tokens@), self.ps(), 0);
        if !self.check(TokenKind::RightParen) {
            loop
                invariant_except_break
                    grammar::arguments(tokens_view(self.tokens@), self.ps(), count as nat) == target,
                invariant
                    old(self).moves_to(self),
                    count <= 255,
                ensures
                    old(self).moves_to(self),
                    count <= 255,
                    (self.ps(), count as nat) == target,
                decreases self.remaining(),
            {
                self.parse_precedence(Precedence::Assignment, host);
                if count == 255 {
                    self.error("Can't have more than 255 arguments.");
                } else {
                    count = count + 1;
                }
                if !self.match_current(TokenKind::Comma) {
                    break;
                }
            }
        }
        self.consume(TokenKind::RightParen, "Expect ')' after arguments.");
        self.emit_op_operand(Op::Call, count as u8);
    }

    fn variable<H: Host>(&mut self, can_assign: bool, host: &mut H)
        requires
            old(self).inv(),
        ensures
            final(self).ps() == grammar::apply_rule(tokens_view(old(self).tokens@), old(self).ps(), ParseFn::Variable, can_assign),
            old(self).moves_to(final(self)),
        decreases old(self).remaining(), 2int,
    {
        let lexeme = &self.tokens[self.previous].lexeme;
        let name = copy_range(lexeme.as_slice(), 0, lexeme.len());
        assert(name@ =~= self.tokens@[self.previous as int].lexeme@);
        self.named_variable(name.as_slice(), can_assign, host);
    }

    /// A global read, or, where assignment may stand and `=` follows, a
    /// global write of the expression after it.
    fn named_variable<H: Host>(&mut self, name: &[u8], can_assign: bool, host: &mut H)
        requires
            old(self).inv(),
        ensures
            final(self).ps() == grammar::named_variable(tokens_view(old(self).tokens@), old(self).ps(), name@, can_assign),
            final(self).chunk.code@.len() >= old(self).chunk.code@.len() + 2,
            ({
                let code = final(self).chunk.code@;
                let k = code.last();
                &&& code[code.len() - 2] == op_byte(Op::GetGlobal) || code[code.len() - 2] == op_byte(Op::SetGlobal)
                &&& old(self).chunk.constants@.len() < 256 ==> match final(self).chunk.constants@[k as int] {
                    Value::String(h) => h < final(self).strings@.len() && final(self).strings@[h as int] == name@,
                    _ => false,
                }
                &&& (can_assign && old(self).current_kind_spec() == TokenKind::Equal) ==> code[code.len() - 2] == op_byte(Op::SetGlobal)
                &&& !(can_assign && old(self).current_kind_spec() == TokenKind::Equal) ==> code[code.len() - 2] == op_byte(Op::GetGlobal)
                    && code == old(self).chunk.code@.push(op_byte(Op::GetGlobal)).push(k)
            }),
            old(self).moves_to(final(self)),
        decreases old(self).remaining(), 1int,
    {
        let arg = self.identifier_constant(name);
        if can_assign && self.match_current(TokenKind::Equal) {
            self.parse_precedence(Precedence::Assignment, host);
            self.emit_op_operand(Op::SetGlobal, arg);
        } else {
            self.emit_op_operand(Op::GetGlobal, arg);
        }
    }

    /// A string literal: its text without the quotes, interned, as a constant.
    fn string(&mut self)
        requires
            old(self).inv(),
        ensures
            final(self).ps() == grammar::apply_rule(tokens_view(old(self).tokens@), old(self).ps(), ParseFn::String, false),
            old(self).chunk.constants@.len() < 256 ==> final(self).chunk.code@ == old(self).chunk.code@.push(op_byte(Op::Constant)).push(old(self).chunk.constants@.len() as u8)
                && match final(self).chunk.constants@.last() {
                    Value::String(h) => h < final(self).strings@.len() && {
                        let lex = old(self).tokens@[old(self).previous as int].lexeme@;
                        final(self).strings@[h as int] == if lex.len() >= 2 { lex.subrange(1, lex.len() - 1) } else { lex }
                    },
                    _ => false,
                },
            old(self).moves_to(final(self)),
    {
        let lexeme = &self.tokens[self.previous].lexeme;
        let n = lexeme.len();
        let body = if n >= 2 {
            copy_range(lexeme.as_slice(), 1, n - 1)
        } else {
            copy_range(lexeme.as_slice(), 0, n)
        };
        assert(body@ =~= grammar::string_text(self.tokens@[self.previous as int].lexeme@));
        let handle = self.strings.intern(body.as_slice());
        proof {
            lemma_const_views_stable(self.chunk.constants@, old(self).strings@, self.strings@);
            assert(self.ps() == old(self).ps());
        }
        self.emit_constant(Value::String(handle));
    }

    fn number<H: Host>(&mut self, host: &mut H)
        requires
            old(self).inv(),
        ensures
            final(self).ps() == grammar::apply_rule(tokens_view(old(self).tokens@), old(self).ps(), ParseFn::Number, false),
            old(self).chunk.constants@.len() < 256 ==> final(self).chunk.constants@.len() == old(self).chunk.constants@.len() + 1
                && final(self).chunk.constants@.last() is Number
                && final(self).chunk.code@ == old(self).chunk.code@.push(op_byte(Op::Constant)).push(old(self).chunk.constants@.len() as u8),
            old(self).moves_to(final(self)),
    {
        let value = host.parse_number(self.tokens[self.previous].lexeme.as_slice());
        self.emit_constant(Value::Number(value));
    }

    /// `false`, `nil` or `true`.
    fn literal(&mut self)
        requires
            old(self).inv(),
        ensures
            final(self).ps() == grammar::apply_rule(tokens_view(old(self).tokens@), old(self).ps(), ParseFn::Literal, false),
            final(self).chunk.code@ == old(self).chunk.code@ + match old(self).previous_kind_spec() {
                TokenKind::False => seq![op_byte(Op::False)],
                TokenKind::Nil => seq![op_byte(Op::Nil)],
                TokenKind::True => seq![op_byte(Op::True)],
                _ => Seq::<u8>::empty(),
            },
            old(self).moves_to(final(self)),
    {
        let kind = self.previous_kind();
        if kind == TokenKind::False {
            self.emit_op(Op::False);
        } else if kind == TokenKind::Nil {
            self.emit_op(Op::Nil);
        } else if kind == TokenKind::True {
            self.emit_op(Op::True);
        }
    }

    fn expression<H: Host>(&mut self, host: &mut H)
        requires
            old(self).inv(),
        ensures
            final(self).ps() == grammar::parse_expr(tokens_view(old(self).tokens@), old(self).ps(), Precedence::Assignment),
            old(self).moves_to(final(self)),
            old(self).current_kind_spec() != TokenKind::EOF ==> final(self).current > old(
                self,
            ).current,
    {
        self.parse_precedence(Precedence::Assignment, host);
    }

    /// Consumes a variable's name and returns its constant index.
    fn parse_variable(&mut self, msg: &str) -> (r: u8)
        requires
            old(self).inv(),
        ensures
            ({
                let s0 = grammar::consume(tokens_view(old(self).tokens@), old(self).ps(), TokenKind::Identifier, msg.spec_bytes());
                (final(self).ps(), r) == grammar::make_const(tokens_view(old(self).tokens@), s0, ConstSpec::Str(tokens_view(old(self).tokens@)[s0.prev].lexeme))
            }),
            old(self).current_kind_spec() == TokenKind::Identifier && old(self).chunk.constants@.len() < 256
                ==> match final(self).chunk.constants@[r as int] {
                Value::String(h) => h < final(self).strings@.len() && final(self).strings@[h as int]
                    == old(self).tokens@[old(self).current as int].lexeme@,
                _ => false,
            },
            final(self).chunk.code@ == old(self).chunk.code@,
            old(self).moves_to(final(self)),
            r < final(self).chunk.constants@.len(),
    {
        self.consume(TokenKind::Identifier, msg);
        let ghost s0 = self.ps();
        let lexeme = &self.tokens[self.previous].lexeme;
        let name = copy_range(lexeme.as_slice(), 0, lexeme.len());
        assert(name@ =~= self.tokens@[self.previous as int].lexeme@);
        self.identifier_constant(name.as_slice())
    }

    fn define_variable(&mut self, global: u8)
        requires
            old(self).inv(),
            global < old(self).chunk.constants@.len(),
        ensures
            final(self).ps() == grammar::emit(old(self).ps(), seq![op_byte(Op::DefineGlobal), global]),
            old(self).moves_to(final(self)),
            final(self).current == old(self).current,
            final(self).chunk.code@ == old(self).chunk.code@.push(op_byte(Op::DefineGlobal)).push(
                global,
            ),
    {
        self.emit_op_operand(Op::DefineGlobal, global);
    }

    /// `var name [= expr];`: the value, `nil` by default, then `DEFINE_GLOBAL`.
    fn var_declaration<H: Host>(&mut self, host: &mut H)
        requires
            old(self).inv(),
        ensures
            final(self).ps() == grammar::var_declaration(tokens_view(old(self).tokens@), old(self).ps()),
            final(self).chunk.code@.len() >= old(self).chunk.code@.len() + 2,
            ({
                let code = final(self).chunk.code@;
                &&& code[code.len() - 2] == op_byte(Op::DefineGlobal)
                &&& code.last() < final(self).chunk.constants@.len()
                &&& old(self).current_kind_spec() == TokenKind::Identifier && old(self).chunk.constants@.len() < 256
                    ==> match final(self).chunk.constants@[code.last() as int] {
                    Value::String(h) => h < final(self).strings@.len() && final(self).strings@[h as int]
                        == old(self).tokens@[old(self).current as int].lexeme@,
                    _ => false,
                }
            }),
            old(self).moves_to(final(self)),
    {
        let global = self.parse_variable("Expect variable name.");
        if self.match_current(TokenKind::Equal) {
            self.expression(host);
        } else {
            self.emit_op(Op::Nil);
        }
        self.consume(TokenKind::Semicolon, "Expect ';' after variable declaration.");
        self.define_variable(global);
    }

    /// An expression whose value is computed and dropped.
    fn expression_statement<H: Host>(&mut self, host: &mut H)
        requires
            old(self).inv(),
        ensures
            final(self).ps() == grammar::emit(grammar::consume(tokens_view(old(self).tokens@), grammar::parse_expr(tokens_view(old(self).tokens@), old(self).ps(), Precedence::Assignment), TokenKind::Semicolon, "Expect ';' after expression.".spec_bytes()), seq![op_byte(Op::Pop)]),
            final(self).chunk.code@.len() > old(self).chunk.code@.len(),
            old(self).moves_to(final(self)),
            old(self).current_kind_spec() != TokenKind::EOF ==> final(self).current > old(
                self,
            ).current,
            final(self).chunk.code@.last() == op_byte(Op::Pop),
    {
        self.expression(host);
        self.consume(TokenKind::Semicolon, "Expect ';' after expression.");
        self.emit_op(Op::Pop);
    }

    fn print_statement<H: Host>(&mut self, host: &mut H)
        requires
            old(self).inv(),
        ensures
            final(self).ps() == grammar::emit(grammar::consume(tokens_view(old(self).tokens@), grammar::parse_expr(tokens_view(old(self).tokens@), old(self).ps(), Precedence::Assignment), TokenKind::Semicolon, "Expect ';' after value.".spec_bytes()), seq![op_byte(Op::Print)]),
            final(self).chunk.code@.len() > old(self).chunk.code@.len(),
            old(self).moves_to(final(self)),
            final(self).chunk.code@.last() == op_byte(Op::Print),
    {
        self.expression(host);
        self.consume(TokenKind::Semicolon, "Expect ';' after value.");
        self.emit_op(Op::Print);
    }

    /// Leaves panic mode and skips tokens up to a statement boundary: just past
    /// a `;`, or before a keyword that starts a statement, or at the end.
    fn synchronize(&mut self)
        requires
            old(self).inv(),
        ensures
            final(self).ps() == grammar::synchronize(tokens_view(old(self).tokens@), old(self).ps()),
            final(self).chunk == old(self).chunk,
            final(self).previous_kind_spec() == TokenKind::Semicolon || match final(self).current_kind_spec() {
                TokenKind::EOF | TokenKind::Fun | TokenKind::Var | TokenKind::For | TokenKind::If
                | TokenKind::While | TokenKind::Print | TokenKind::Return => true,
                _ => false,
            },
            !final(self).panic_mode,
            old(self).moves_to(final(self)),
    {
        self.panic_mode = false;
        assert(self.ps() == grammar::ParseState { panic: false, ..old(self).ps() });
        let ghost target = grammar::skip_to_boundary(tokens_view(self.tokens@), self.ps());
        while !self.at_boundary()
            invariant
                old(self).moves_to(self),
                self.chunk == old(self).chunk,
                grammar::skip_to_boundary(tokens_view(self.tokens@), self.ps()) == target,
            decreases self.remaining(),
        {
            self.advance();
        }
        self.panic_mode = false;
    }

    /// Just after `;`, or before a token that starts a statement.
    fn at_boundary(&self) -> (r: bool)
        requires
            self.inv(),
        ensures
            r == (self.previous_kind_spec() == TokenKind::Semicolon || grammar::starts_statement(
                self.current_kind_spec(),
            )),
    {
        if self.previous_kind() == TokenKind::Semicolon {
            return true;
        }
        match self.current_kind() {
            TokenKind::EOF | TokenKind::Fun | TokenKind::Var | TokenKind::For | TokenKind::If
            | TokenKind::While | TokenKind::Print | TokenKind::Return => true,
            _ => false,
        }
    }

    fn declaration<H: Host>(&mut self, host: &mut H)
        requires
            old(self).inv(),
        ensures
            final(self).ps() == grammar::declaration(tokens_view(old(self).tokens@), old(self).ps()),
            final(self).chunk.code@.len() > old(self).chunk.code@.len(),
            old(self).moves_to(final(self)),
            old(self).current_kind_spec() != TokenKind::EOF ==> final(self).current > old(
                self,
            ).current,
    {
        if self.match_current(TokenKind::Var) {
            self.var_declaration(host);
        } else {
            self.statement(host);
        }
        if self.panic_mode {
            self.synchronize();
        }
    }

    fn statement<H: Host>(&mut self, host: &mut H)
        requires
            old(self).inv(),
        ensures
            final(self).ps() == grammar::statement(tokens_view(old(self).tokens@), old(self).ps()),
            final(self).chunk.code@.len() > old(self).chunk.code@.len(),
            old(self).moves_to(final(self)),
            old(self).current_kind_spec() != TokenKind::EOF ==> final(self).current > old(
                self,
            ).current,
    {
        if self.match_current(TokenKind::Print) {
            self.print_statement(host);
        } else {
            self.expression_statement(host);
        }
    }

    fn end_compiler(&mut self)
        requires
            old(self).inv(),
        ensures
            final(self).ps() == grammar::emit(old(self).ps(), seq![op_byte(Op::Nil), op_byte(Op::Return)]),
            old(self).moves_to(final(self)),
            final(self).had_error == old(self).had_error,
            final(self).chunk.code@ == old(self).chunk.code@.push(op_byte(Op::Nil)).push(
                op_byte(Op::Return),
            ),
    {
        self.emit_op(Op::Nil);
        self.emit_op(Op::Return);
        assert(self.ps() == grammar::emit(old(self).ps(), seq![op_byte(Op::Nil), op_byte(Op::Return)])) by {
            assert(self.ps().code =~= old(self).ps().code + seq![op_byte(Op::Nil), op_byte(Op::Return)]);
        }
    }

    /// Compiles every declaration up to the end of input, then the script's
    /// implicit `return nil` (`NIL`, `RETURN`). The code is a sequence of whole instructions either way; the
    /// result says whether no error was reported.
    pub fn compile<H: Host>(&mut self, host: &mut H) -> (r: bool)
        requires
            old(self).inv(),
        ensures
            final(self).ps() == grammar::program_from(tokens_view(old(self).tokens@), old(self).ps()),
            (exists|i: int|
                old(self).current <= i < old(self).tokens@.len() && #[trigger] old(self).tokens@[i].kind
                    != TokenKind::EOF && old(self).tokens@[i].kind != TokenKind::Error)
                ==> final(self).chunk.code@.len() >= old(self).chunk.code@.len() + 3,
            old(self).moves_to(final(self)),
            r == !final(self).had_error,
            r <==> final(self).errors@.len() == 0,
            final(self).chunk.code@.len() >= 1,
            final(self).chunk.code@.last() == op_byte(Op::Return),
    {
        self.skip_error_tokens();
        let ghost first = self.current;
        proof {
            if exists|i: int|
                old(self).current <= i < old(self).tokens@.len() && #[trigger] old(self).tokens@[i].kind
                    != TokenKind::EOF && old(self).tokens@[i].kind != TokenKind::Error {
                let i = choose|i: int|
                    old(self).current <= i < old(self).tokens@.len() && #[trigger] old(self).tokens@[i].kind
                        != TokenKind::EOF && old(self).tokens@[i].kind != TokenKind::Error;
                assert(i >= first);
                assert(self.current_kind_spec() != TokenKind::EOF);
            }
        }
        let mut emitted = false;
        let ghost target = grammar::declarations(tokens_view(self.tokens@), self.ps());
        while !self.match_current(TokenKind::EOF)
            invariant
                grammar::declarations(tokens_view(self.tokens@), self.ps()) == target,
                old(self).moves_to(self),
                emitted ==> self.chunk.code@.len() >= old(self).chunk.code@.len() + 1,
                (exists|i: int|
                    old(self).current <= i < old(self).tokens@.len() && #[trigger] old(self).tokens@[i].kind
                        != TokenKind::EOF && old(self).tokens@[i].kind != TokenKind::Error)
                    ==> (emitted || self.current_kind_spec() != TokenKind::EOF),
            decreases self.remaining(),
        {
            self.declaration(host);
            emitted = true;
        }
        self.end_compiler();
        !self.had_error
    }
}

/// Compiles a source text into the top-level script function: arity 0, the
/// empty name. Strings are interned into `strings`, whose earlier handles stay
/// as they were; each error adds one line to `errors`. The result's flag is
/// true exactly when no error was reported; the code is whole instructions
/// ending in `RETURN` either way.
pub fn compile<H: Host>(
    source: &String,
    strings: &mut Interner,
    errors: &mut Vec<Vec<u8>>,
    host: &mut H,
) -> (r: (Function, bool))
    requires
        old(strings).wf(),
    ensures
        final(strings).wf(),
        old(strings)@.is_prefix_of(final(strings)@),
        r.0.arity == 0,
        r.0.name < final(strings)@.len(),
        final(strings)@[r.0.name as int] == Seq::<u8>::empty(),
        r.0.chunk.wf(),
        well_formed_code(r.0.chunk.code@),
        r.0.chunk.constants_ok(),
        r.0.chunk.code@.len() >= 1,
        r.0.chunk.code@.last() == op_byte(Op::Return),
        old(errors)@.is_prefix_of(final(errors)@),
        r.1 <==> final(errors)@ == old(errors)@,
        ({
            let p = grammar::program(scan_spec(source_bytes(source)));
            &&& r.0.chunk.code@ == p.code
            &&& r.0.chunk.constants@.map_values(|v: Value| const_view(v, final(strings)@)) == p.consts
            &&& final(errors)@.map_values(|e: Vec<u8>| e@) == old(errors)@.map_values(|e: Vec<u8>| e@) + p.errors
            &&& r.1 == (p.errors.len() == 0)
        }),
{
    let tokens = scan_tokens(source.as_str().as_bytes());
    let mut table = Interner::new();
    std::mem::swap(&mut table, strings);
    let mut compiler = Compiler::new(tokens, table);
    assert(compiler.ps() == grammar::start_state()) by {
        assert(compiler.ps().consts =~= Seq::<ConstSpec>::empty());
        assert(compiler.ps().errors =~= Seq::<Seq<u8>>::empty());
        assert(compiler.ps().code =~= Seq::<u8>::empty());
    }
    let ok = compiler.compile(host);
    let ghost compiled = compiler.ps();
    let empty: Vec<u8> = Vec::new();
    let ghost before_name = compiler.strings@;
    let name = compiler.strings.intern(empty.as_slice());
    proof {
        lemma_const_views_stable(compiler.chunk.constants@, before_name, compiler.strings@);
    }
    std::mem::swap(&mut compiler.strings, strings);
    let ghost e0 = errors@;
    let ghost ce = compiler.errors@;
    errors.append(&mut compiler.errors);
    proof {
        assert(errors@.map_values(|e: Vec<u8>| e@) =~= e0.map_values(|e: Vec<u8>| e@) + ce.map_values(|e: Vec<u8>| e@));
        if ok {
            assert(ce.len() == 0);
            assert(errors@ =~= e0);
        }
    }
    (Function { arity: 0, chunk: compiler.chunk, name }, ok)
}

} // verus!
