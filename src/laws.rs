use vstd::prelude::*;
use crate::chunk::{Op, decode_spec, decodes_from, instr_len, well_formed_code};
use crate::compiler::binary_ops;
use crate::scanner::TokenKind;
use crate::value::{Value, is_falsy_spec, is_nan_spec, num_less_spec};
use crate::vm::{VM, InterpretError, compare_spec, defines, return_stack_spec, step_post};

verus! {

/// `a >= b` compiles to `LESS` then `NOT`, and what those two push on numbers
/// is exactly the negation of `a < b`. So where either side is NaN, `a >= b`
/// is true, although IEEE-754 `>=` would be false.
pub proof fn greater_equal_is_not_less(a: u64, b: u64)
    ensures
        binary_ops(TokenKind::GreaterEqual) == seq![Op::Less, Op::Not],
        Value::Bool(is_falsy_spec(compare_spec(Op::Less, a, b))) == Value::Bool(
            !num_less_spec(a, b),
        ),
        is_nan_spec(a) || is_nan_spec(b) ==> Value::Bool(
            is_falsy_spec(compare_spec(Op::Less, a, b)),
        ) == Value::Bool(true),
{
}

/// Run by the VM, `LESS` then `NOT` on two numbers leave exactly
/// `!(a < b)`: true where either side is NaN.
pub proof fn less_then_not_is_not_less(o: VM, m: VM, n: VM, a: u64, b: u64)
    requires
        o.frames@.len() > 0,
        o.top().ip + 1 < o.top_code().len(),
        o.top().ip + 1 <= usize::MAX,
        decode_spec(o.top_code()[o.top().ip as int]) == Some(Op::Less),
        decode_spec(o.top_code()[o.top().ip + 1]) == Some(Op::Not),
        o.stack@.len() >= 2,
        o.stack@[o.stack@.len() - 2] == Value::Number(a),
        o.stack@.last() == Value::Number(b),
        step_post(o, m, Ok::<bool, InterpretError>(false)),
        step_post(m, n, Ok::<bool, InterpretError>(false)),
    ensures
        n.stack@ == o.stack@.subrange(0, o.stack@.len() - 2).push(Value::Bool(!num_less_spec(a, b))),
        is_nan_spec(a) || is_nan_spec(b) ==> n.stack@.last() == Value::Bool(true),
{
    let k = o.stack@.len();
    assert(m.stack@ == o.stack@.subrange(0, k - 2).push(compare_spec(Op::Less, a, b)));
    assert(m.frames@.len() == o.frames@.len());
    assert(m.top() == m.frames@[m.frames@.len() - 1]);
    assert(m.top().ip == o.top().ip + 1);
    assert(m.top_code() == o.top_code());
    assert(m.stack@.drop_last() =~= o.stack@.subrange(0, k - 2));
}

/// `JUMP_IF_FALSE` never pops the value it tests, whichever way it goes: the
/// code after it discards the value with its own `POP`.
pub proof fn jump_if_false_keeps_condition(o: VM, n: VM, r: Result<bool, InterpretError>)
    requires
        o.frames@.len() > 0,
        o.top().ip < o.top_code().len(),
        decode_spec(o.top_code()[o.top().ip as int]) == Some(Op::JumpIfFalse),
        step_post(o, n, r),
        r is Ok,
    ensures
        n.stack@ == o.stack@,
{
}

/// `a <= b` compiles to `GREATER` then `NOT`: the negation of `a > b`.
pub proof fn less_equal_is_not_greater(a: u64, b: u64)
    ensures
        binary_ops(TokenKind::LessEqual) == seq![Op::Greater, Op::Not],
        Value::Bool(is_falsy_spec(compare_spec(Op::Greater, a, b))) == Value::Bool(
            !num_less_spec(b, a),
        ),
{
}

/// Defining a global twice binds it to the second value, as if the first
/// definition had not happened; no other name changes.
pub proof fn redefinition_keeps_last(
    g0: Map<usize, Value>,
    g1: Map<usize, Value>,
    g2: Map<usize, Value>,
    h: int,
    v1: Value,
    v2: Value,
)
    requires
        defines(g0, g1, h, v1),
        defines(g1, g2, h, v2),
    ensures
        defines(g0, g2, h, v2),
{
    assert forall|k: int| #[trigger] crate::vm::global_spec(g2, k) == if k == h {
        Some(v2)
    } else {
        crate::vm::global_spec(g0, k)
    } by {
        assert(crate::vm::global_spec(g1, k) == if k == h {
            Some(v1)
        } else {
            crate::vm::global_spec(g0, k)
        });
    }
}

/// A call and the callee's return leave the stack one value deep where the
/// callee and its `argc` arguments were: `CALL` bases the new frame at the
/// callee's slot, and `RETURN` cuts back to that base and pushes the result.
/// Where the callee left the slots below its base alone, they are as before.
pub proof fn call_then_return_keeps_depth(
    before: Seq<Value>,
    argc: int,
    body_end: Seq<Value>,
)
    requires
        0 <= argc < before.len(),
        before.len() - 1 - argc < body_end.len(),
    ensures
        ({
            let base = before.len() - 1 - argc;
            let after = return_stack_spec(body_end, base);
            &&& after.len() == before.len() - argc
            &&& after.last() == body_end.last()
            &&& body_end.subrange(0, base) == before.subrange(0, base) ==> after.subrange(0, base)
                == before.subrange(0, base)
        }),
{
    let base = before.len() - 1 - argc;
    let after = return_stack_spec(body_end, base);
    assert(after.subrange(0, base) =~= body_end.subrange(0, base));
}

/// The offsets where instructions start, walking from `start` one whole
/// instruction at a time.
pub open spec fn starts_from(code: Seq<u8>, start: int) -> Seq<int>
    decreases code.len() - start,
{
    if start < 0 || start >= code.len() || instr_len(code, start) < 1 {
        seq![]
    } else if start + instr_len(code, start) > code.len() {
        seq![start]
    } else {
        seq![start] + starts_from(code, start + instr_len(code, start))
    }
}

/// The instructions that start at the offsets `st` lie end to end from `start`
/// to the end of the code, each a known opcode with all its operands.
pub open spec fn tiles(code: Seq<u8>, st: Seq<int>, start: int) -> bool {
    &&& st.len() == 0 <==> start == code.len()
    &&& st.len() > 0 ==> st[0] == start
    &&& st.len() > 0 ==> st.last() + instr_len(code, st.last()) == code.len()
    &&& forall|k: int|
        0 <= k < st.len() ==> decode_spec(code[#[trigger] st[k]]) is Some && 0 <= st[k]
            && st[k] + instr_len(code, st[k]) <= code.len()
    &&& forall|k: int|
        0 <= k < st.len() - 1 ==> #[trigger] st[k + 1] == st[k] + instr_len(code, st[k])
}

proof fn lemma_tiles_from(code: Seq<u8>, start: int)
    requires
        decodes_from(code, start),
    ensures
        tiles(code, starts_from(code, start), start),
    decreases code.len() - start,
{
    if start < code.len() {
        let next = start + instr_len(code, start);
        lemma_tiles_from(code, next);
        let rest = starts_from(code, next);
        let st = starts_from(code, start);
        assert(st == seq![start] + rest);
        assert forall|k: int| 0 <= k < st.len() - 1 implies #[trigger] st[k + 1] == st[k]
            + instr_len(code, st[k]) by {
            assert(st[k + 1] == rest[k]);
            if k > 0 {
                assert(st[k] == rest[k - 1]);
                assert(rest[(k - 1) + 1] == rest[k - 1] + instr_len(code, rest[k - 1]));
            }
        }
        assert forall|k: int| 0 <= k < st.len() implies decode_spec(code[#[trigger] st[k]]) is Some
            && 0 <= st[k] && st[k] + instr_len(code, st[k]) <= code.len() by {
            if k > 0 {
                assert(st[k] == rest[k - 1]);
            }
        }
        if rest.len() > 0 {
            assert(st.last() == rest.last());
        }
    }
}

/// Code that the compiler emits (whole instructions of known opcodes) splits
/// into instructions that cover every byte exactly once: the first starts at
/// 0, each starts where the one before ends, none reads past the end, and the
/// last ends exactly at the end.
pub proof fn compiled_code_splits_exactly(code: Seq<u8>)
    requires
        well_formed_code(code),
    ensures
        tiles(code, starts_from(code, 0), 0),
{
    lemma_tiles_from(code, 0);
}

} // verus!
