use vstd::prelude::*;
use crate::chunk::{Op, op_byte};
use crate::compiler::{ParseFn, Precedence, binary_ops, error_line, level, ops_bytes, rule_spec};
use crate::scanner::{TokenKind, TokenSpec};
use vstd::string::StringSliceAdditionalSpecFns;

verus! {

/// What a constant of the pool holds, as far as the source fixes it: a
/// number (the host reads its value), a string with its text, or another value.
pub enum ConstSpec {
    Num,
    Str(Seq<u8>),
    Other,
}

/// The compiler's state as the grammar sees it: the current and previous
/// token, the code and constants so far, the error lines, and panic mode.
pub struct ParseState {
    pub cur: int,
    pub prev: int,
    pub code: Seq<u8>,
    pub consts: Seq<ConstSpec>,
    pub errors: Seq<Seq<u8>>,
    pub panic: bool,
}

/// Reports `msg` at token `at`, unless already panicking.
pub open spec fn report(toks: Seq<TokenSpec>, st: ParseState, at: int, msg: Seq<u8>) -> ParseState {
    if st.panic {
        st
    } else {
        ParseState { errors: st.errors.push(error_line(toks[at], msg)), panic: true, ..st }
    }
}

/// Reports `msg` at the token consumed last.
pub open spec fn report_prev(toks: Seq<TokenSpec>, st: ParseState, msg: Seq<u8>) -> ParseState {
    report(toks, st, st.prev, msg)
}

/// Reports each error token from the current one on, with its message, and
/// moves past it.
pub open spec fn skip_errors(toks: Seq<TokenSpec>, st: ParseState) -> ParseState
    decreases toks.len() - st.cur,
{
    if 0 <= st.cur && st.cur + 1 < toks.len() && toks[st.cur].kind == TokenKind::Error {
        skip_errors(
            toks,
            ParseState { cur: st.cur + 1, ..report(toks, st, st.cur, toks[st.cur].lexeme) },
        )
    } else {
        st
    }
}

/// Consumes the current token (the end token stays current), then skips
/// error tokens.
pub open spec fn adv(toks: Seq<TokenSpec>, st: ParseState) -> ParseState {
    let st1 = ParseState { prev: st.cur, ..st };
    if toks[st.cur].kind == TokenKind::EOF {
        st1
    } else {
        skip_errors(toks, ParseState { cur: st.cur + 1, ..st1 })
    }
}

/// Consumes a token of kind `kind`, or reports `msg` at the current token.
pub open spec fn consume(toks: Seq<TokenSpec>, st: ParseState, kind: TokenKind, msg: Seq<u8>) -> ParseState {
    if toks[st.cur].kind == kind {
        adv(toks, st)
    } else {
        report(toks, st, st.cur, msg)
    }
}

pub open spec fn emit(st: ParseState, bytes: Seq<u8>) -> ParseState {
    ParseState { code: st.code + bytes, ..st }
}

/// Adds a constant and gives its index; a full pool reports and gives 0.
pub open spec fn make_const(toks: Seq<TokenSpec>, st: ParseState, c: ConstSpec) -> (ParseState, u8) {
    if st.consts.len() < 256 {
        (ParseState { consts: st.consts.push(c), ..st }, st.consts.len() as u8)
    } else {
        (report_prev(toks, st, "Too many constants in one chunk.".spec_bytes()), 0)
    }
}

pub open spec fn emit_const(toks: Seq<TokenSpec>, st: ParseState, c: ConstSpec) -> ParseState {
    let (s1, k) = make_const(toks, st, c);
    emit(s1, seq![op_byte(Op::Constant), k])
}

pub open spec fn higher_spec(p: Precedence) -> Precedence {
    match p {
        Precedence::Lowest => Precedence::Assignment,
        Precedence::Assignment => Precedence::Or,
        Precedence::Or => Precedence::And,
        Precedence::And => Precedence::Equality,
        Precedence::Equality => Precedence::Comparison,
        Precedence::Comparison => Precedence::Term,
        Precedence::Term => Precedence::Factor,
        Precedence::Factor => Precedence::Unary,
        Precedence::Unary => Precedence::Call,
        _ => Precedence::Primary,
    }
}

/// The text of a string literal: the lexeme without its quotes.
pub open spec fn string_text(lexeme: Seq<u8>) -> Seq<u8> {
    if lexeme.len() >= 2 {
        lexeme.subrange(1, lexeme.len() - 1)
    } else {
        lexeme
    }
}

/// An expression whose operators bind at least as tightly as `prec`: one
/// token and its prefix rule, then infix operators while they bind tightly
/// enough, then the check for a stray `=`.
pub open spec fn parse_expr(toks: Seq<TokenSpec>, st: ParseState, prec: Precedence) -> ParseState
    decreases toks.len() - st.cur, 0int,
{
    if st.cur < 0 || st.cur >= toks.len() {
        st
    } else {
        let s1 = adv(toks, st);
        match rule_spec(toks[s1.prev].kind).0 {
            None => report_prev(toks, s1, "Expect expression.".spec_bytes()),
            Some(rule) => {
                let can_assign = level(prec) <= 1;
                if s1.cur <= st.cur || s1.cur >= toks.len() {
                    s1
                } else {
                    let s2 = apply_rule(toks, s1, rule, can_assign);
                    if s2.cur <= st.cur || s2.cur >= toks.len() {
                        s2
                    } else {
                        let s3 = infix_loop(toks, s2, prec, can_assign);
                        if can_assign && toks[s3.cur].kind == TokenKind::Equal {
                            report_prev(toks, adv(toks, s3), "Invalid assignment target.".spec_bytes())
                        } else {
                            s3
                        }
                    }
                }
            },
        }
    }
}

/// Applies infix rules while the current token binds at least as tightly as
/// `prec`.
pub open spec fn infix_loop(toks: Seq<TokenSpec>, st: ParseState, prec: Precedence, can_assign: bool) -> ParseState
    decreases toks.len() - st.cur, 2int,
{
    if st.cur < 0 || st.cur >= toks.len() {
        st
    } else if level(prec) <= level(rule_spec(toks[st.cur].kind).2) {
        let s1 = adv(toks, st);
        if s1.cur <= st.cur || s1.cur >= toks.len() {
            s1
        } else {
            let s2 = match rule_spec(toks[s1.prev].kind).1 {
                Some(rule) => apply_rule(toks, s1, rule, can_assign),
                None => s1,
            };
            if s2.cur < s1.cur || s2.cur >= toks.len() {
                s2
            } else {
                infix_loop(toks, s2, prec, can_assign)
            }
        }
    } else {
        st
    }
}

/// One parse rule, on the token consumed last.
pub open spec fn apply_rule(toks: Seq<TokenSpec>, st: ParseState, rule: ParseFn, can_assign: bool) -> ParseState
    decreases toks.len() - st.cur, 3int,
{
    if st.cur < 0 || st.cur >= toks.len() || st.prev < 0 || st.prev >= toks.len() {
        st
    } else {
        let kind = toks[st.prev].kind;
        match rule {
            ParseFn::Grouping => consume(
                toks,
                parse_expr(toks, st, Precedence::Assignment),
                TokenKind::RightParen,
                "Expect ')' after expression.".spec_bytes(),
            ),
            ParseFn::Unary => emit(
                parse_expr(toks, st, Precedence::Unary),
                if kind == TokenKind::Minus {
                    seq![op_byte(Op::Negate)]
                } else if kind == TokenKind::Bang {
                    seq![op_byte(Op::Not)]
                } else {
                    seq![]
                },
            ),
            ParseFn::Binary => emit(
                parse_expr(toks, st, higher_spec(rule_spec(kind).2)),
                ops_bytes(binary_ops(kind)),
            ),
            ParseFn::Variable => named_variable(toks, st, toks[st.prev].lexeme, can_assign),
            ParseFn::String => emit_const(toks, st, ConstSpec::Str(string_text(toks[st.prev].lexeme))),
            ParseFn::Number => emit_const(toks, st, ConstSpec::Num),
            ParseFn::Literal => emit(
                st,
                if kind == TokenKind::False {
                    seq![op_byte(Op::False)]
                } else if kind == TokenKind::Nil {
                    seq![op_byte(Op::Nil)]
                } else if kind == TokenKind::True {
                    seq![op_byte(Op::True)]
                } else {
                    seq![]
                },
            ),
            ParseFn::Call => {
                let (s1, count) = if toks[st.cur].kind == TokenKind::RightParen {
                    (st, 0nat)
                } else {
                    arguments(toks, st, 0)
                };
                let s2 = consume(toks, s1, TokenKind::RightParen, "Expect ')' after arguments.".spec_bytes());
                emit(s2, seq![op_byte(Op::Call), count as u8])
            },
        }
    }
}

/// A global read, or, where assignment may stand and `=` follows, a write.
pub open spec fn named_variable(toks: Seq<TokenSpec>, st: ParseState, name: Seq<u8>, can_assign: bool) -> ParseState
    decreases toks.len() - st.cur, 1int,
{
    let (s1, k) = make_const(toks, st, ConstSpec::Str(name));
    if st.cur < 0 || st.cur >= toks.len() || s1.cur != st.cur {
        s1
    } else if can_assign && toks[s1.cur].kind == TokenKind::Equal {
        let s2 = adv(toks, s1);
        if s2.cur < st.cur || s2.cur >= toks.len() {
            s2
        } else {
            emit(parse_expr(toks, s2, Precedence::Assignment), seq![op_byte(Op::SetGlobal), k])
        }
    } else {
        emit(s1, seq![op_byte(Op::GetGlobal), k])
    }
}

/// Call arguments, separated by commas; gives the state and their count (at
/// most 255, more being reported).
pub open spec fn arguments(toks: Seq<TokenSpec>, st: ParseState, count: nat) -> (ParseState, nat)
    decreases toks.len() - st.cur, 1int,
{
    if st.cur < 0 || st.cur >= toks.len() {
        (st, count)
    } else {
        let s1 = parse_expr(toks, st, Precedence::Assignment);
        let (s2, c2) = if count == 255 {
            (report_prev(toks, s1, "Can't have more than 255 arguments.".spec_bytes()), count)
        } else {
            (s1, count + 1)
        };
        if 0 <= s2.cur < toks.len() && toks[s2.cur].kind == TokenKind::Comma {
            let s3 = adv(toks, s2);
            if s3.cur <= st.cur || s3.cur >= toks.len() {
                (s3, c2)
            } else {
                arguments(toks, s3, c2)
            }
        } else {
            (s2, c2)
        }
    }
}

/// `var name [= expr];`
pub open spec fn var_declaration(toks: Seq<TokenSpec>, st: ParseState) -> ParseState {
    let s0 = consume(toks, st, TokenKind::Identifier, "Expect variable name.".spec_bytes());
    let (s1, k) = make_const(toks, s0, ConstSpec::Str(toks[s0.prev].lexeme));
    let s2 = if toks[s1.cur].kind == TokenKind::Equal {
        parse_expr(toks, adv(toks, s1), Precedence::Assignment)
    } else {
        emit(s1, seq![op_byte(Op::Nil)])
    };
    let s3 = consume(
        toks,
        s2,
        TokenKind::Semicolon,
        "Expect ';' after variable declaration.".spec_bytes(),
    );
    emit(s3, seq![op_byte(Op::DefineGlobal), k])
}

/// `print expr;` (after `print`) or `expr;`.
pub open spec fn statement(toks: Seq<TokenSpec>, st: ParseState) -> ParseState {
    if toks[st.cur].kind == TokenKind::Print {
        let s1 = parse_expr(toks, adv(toks, st), Precedence::Assignment);
        emit(consume(toks, s1, TokenKind::Semicolon, "Expect ';' after value.".spec_bytes()), seq![op_byte(Op::Print)])
    } else {
        let s1 = parse_expr(toks, st, Precedence::Assignment);
        emit(
            consume(toks, s1, TokenKind::Semicolon, "Expect ';' after expression.".spec_bytes()),
            seq![op_byte(Op::Pop)],
        )
    }
}

/// A token that may start a statement, where recovery stops.
pub open spec fn starts_statement(kind: TokenKind) -> bool {
    kind == TokenKind::EOF || kind == TokenKind::Fun || kind == TokenKind::Var || kind
        == TokenKind::For || kind == TokenKind::If || kind == TokenKind::While || kind
        == TokenKind::Print || kind == TokenKind::Return
}

/// Skips tokens to the first statement boundary: just after `;`, or before a
/// token that starts a statement.
pub open spec fn skip_to_boundary(toks: Seq<TokenSpec>, st: ParseState) -> ParseState
    decreases toks.len() - st.cur,
{
    if st.cur < 0 || st.cur >= toks.len() || toks[st.prev].kind == TokenKind::Semicolon
        || starts_statement(toks[st.cur].kind) {
        st
    } else {
        let s1 = adv(toks, st);
        if s1.cur <= st.cur || s1.cur >= toks.len() {
            s1
        } else {
            skip_to_boundary(toks, s1)
        }
    }
}

/// Leaves panic mode, skips to a boundary, and leaves panic mode again, so that
/// an error token met on the way does not hide the next independent error.
pub open spec fn synchronize(toks: Seq<TokenSpec>, st: ParseState) -> ParseState {
    ParseState { panic: false, ..skip_to_boundary(toks, ParseState { panic: false, ..st }) }
}

pub open spec fn declaration(toks: Seq<TokenSpec>, st: ParseState) -> ParseState {
    let s1 = if toks[st.cur].kind == TokenKind::Var {
        var_declaration(toks, adv(toks, st))
    } else {
        statement(toks, st)
    };
    if s1.panic {
        synchronize(toks, s1)
    } else {
        s1
    }
}

/// Declarations up to the end token, which is then consumed.
pub open spec fn declarations(toks: Seq<TokenSpec>, st: ParseState) -> ParseState
    decreases toks.len() - st.cur,
{
    if st.cur < 0 || st.cur >= toks.len() || toks[st.cur].kind == TokenKind::EOF {
        adv(toks, st)
    } else {
        let s1 = declaration(toks, st);
        if s1.cur <= st.cur || s1.cur >= toks.len() {
            s1
        } else {
            declarations(toks, s1)
        }
    }
}

/// The whole program from state `st`: leading error tokens, the
/// declarations, then the script's implicit `return nil`.
pub open spec fn program_from(toks: Seq<TokenSpec>, st: ParseState) -> ParseState {
    emit(declarations(toks, skip_errors(toks, st)), seq![op_byte(Op::Nil), op_byte(Op::Return)])
}

/// The fresh state at the first token.
pub open spec fn start_state() -> ParseState {
    ParseState { cur: 0, prev: 0, code: seq![], consts: seq![], errors: seq![], panic: false }
}

/// What compiling a token sequence yields: code, constants and error lines.
/// It succeeds exactly when `errors` is empty.
pub open spec fn program(toks: Seq<TokenSpec>) -> ParseState {
    program_from(toks, start_state())
}

} // verus!
