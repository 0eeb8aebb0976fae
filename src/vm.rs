use vstd::prelude::*;
use std::collections::HashMap;
use crate::chunk::{Op, decode_spec, operand_len};
use crate::compiler::{compile, const_view};
use crate::host::{Arith, Host};
use crate::text::{Interner, append_bytes, copy_range, decimal, decimal_spec, message};
use vstd::string::StringSliceAdditionalSpecFns;
use crate::value::{
    Function, Value, printed_as, is_falsy_spec, num_less, num_less_spec, num_negate, num_negate_spec,
    values_equal_spec,
};

verus! {

/// A live call: the function running (an index into the function table), the
/// offset of its next byte, and the stack index of its slot 0, where the callee
/// itself sits with its arguments after it.
#[derive(Clone, Copy, Debug)]
pub struct CallFrame {
    pub function: usize,
    pub ip: usize,
    pub starts_at: usize,
}

/// How an interpretation failed.
#[derive(Clone, Copy, Debug, PartialEq, Eq)]
pub enum InterpretError {
    /// The source did not compile; nothing ran.
    CompileError,
    /// The program did something illegal; stack and frames were reset.
    RuntimeError,
    /// The bytecode broke the compiler's contract: a defect, not a user error.
    InternalError(&'static str),
}

/// The most instructions one interpretation runs.
pub const STEP_LIMIT: u64 = 0xFFFF_FFFF_FFFF_FFFF;

/// The value bound to the global whose name has handle `h`, if any.
pub open spec fn global_spec(globals: Map<usize, Value>, h: int) -> Option<Value> {
    if 0 <= h <= usize::MAX && globals.contains_key(h as usize) {
        Some(globals[h as usize])
    } else {
        None
    }
}

/// Binding `h` to `v`: every other name keeps its binding.
pub open spec fn defines(before: Map<usize, Value>, after: Map<usize, Value>, h: int, v: Value) -> bool {
    forall|k: int| #[trigger] global_spec(after, k) == if k == h { Some(v) } else { global_spec(before, k) }
}

/// What `LESS` or `GREATER` pushes for numbers `a` and `b` (`a` pushed first).
pub open spec fn compare_spec(op: Op, a: u64, b: u64) -> Value {
    if op == Op::Less {
        Value::Bool(num_less_spec(a, b))
    } else {
        Value::Bool(num_less_spec(b, a))
    }
}

/// The stack after a frame based at `starts_at` returns: cut back to the base
/// (when the stack still reaches it) with the result on top.
pub open spec fn return_stack_spec(stack: Seq<Value>, starts_at: int) -> Seq<Value> {
    if starts_at < stack.len() {
        stack.subrange(0, starts_at).push(stack.last())
    } else {
        stack.drop_last().push(stack.last())
    }
}

/// The top two values were replaced by one, the rest of the stack kept.
pub open spec fn replaces_two(before: Seq<Value>, after: Seq<Value>) -> bool {
    before.len() >= 2 && after.len() == before.len() - 1 && after.subrange(0, before.len() - 2)
        == before.subrange(0, before.len() - 2)
}

/// `v` is a string whose text is `x` followed by `y`.
pub open spec fn is_concat(strings: Seq<Seq<u8>>, v: Value, x: Seq<u8>, y: Seq<u8>) -> bool {
    match v {
        Value::String(h) => h < strings.len() && strings[h as int] == x + y,
        _ => false,
    }
}

/// What a failed VM operation owes: it is never a compile error, and a
/// runtime error has left stack and frames empty.
pub open spec fn fails_cleanly(e: InterpretError, vm: VM) -> bool {
    match e {
        InterpretError::CompileError => false,
        InterpretError::RuntimeError => vm.is_reset(),
        InterpretError::InternalError(_) => true,
    }
}

/// `n` reported `msg` as the first new line of its diagnostics.
pub open spec fn reported(o: VM, n: VM, msg: Seq<u8>) -> bool {
    n.diagnostics@.len() > o.diagnostics@.len() && n.diagnostics@[o.diagnostics@.len() as int]@ == msg
}

/// The report for a global named by handle `h` that is not bound.
pub open spec fn undefined_msg(strings: Seq<Seq<u8>>, h: usize) -> Seq<u8> {
    "Undefined variable '".spec_bytes() + (if h < strings.len() {
        strings[h as int]
    } else {
        Seq::<u8>::empty()
    }) + "'.".spec_bytes()
}

/// The report for a call with the wrong number of arguments.
pub open spec fn arity_msg(arity: nat, argc: nat) -> Seq<u8> {
    "Expected ".spec_bytes() + decimal_spec(arity) + " arguments but got ".spec_bytes()
        + decimal_spec(argc) + ".".spec_bytes()
}

/// The trace line for a frame: its source line and its function's name.
pub open spec fn trace_line(vm: VM, frame: CallFrame) -> Seq<u8> {
    let function = vm.functions@[frame.function as int];
    let lines = function.chunk.lines@;
    let line: nat = if 0 < frame.ip <= lines.len() {
        lines[frame.ip - 1] as nat
    } else {
        0
    };
    let tail = if function.name < vm.strings@.len() && vm.strings@[function.name as int].len() > 0 {
        vm.strings@[function.name as int] + "()".spec_bytes()
    } else {
        "script".spec_bytes()
    };
    "[line ".spec_bytes() + decimal_spec(line) + "] in ".spec_bytes() + tail
}

/// The handle held by constant `index` of a pool, if it is a string that the
/// interner knows.
pub open spec fn global_name_spec(constants: Seq<Value>, strings: Seq<Seq<u8>>, index: int) -> Option<usize> {
    if 0 <= index < constants.len() {
        match constants[index] {
            Value::String(h) => if h < strings.len() {
                Some(h)
            } else {
                None
            },
            _ => None,
        }
    } else {
        None
    }
}

/// The top frame now resumes at `ip`; the frames below are as they were.
pub open spec fn moved(o: VM, n: VM, ip: int) -> bool {
    n.frames@ == o.frames@.update(o.frames@.len() - 1, CallFrame { ip: ip as usize, ..o.top() })
}

/// Globals, functions, strings and both streams are as they were.
pub open spec fn keeps_tables(o: VM, n: VM) -> bool {
    &&& n.globals == o.globals
    &&& n.functions == o.functions
    &&& n.strings == o.strings
    &&& n.output == o.output
    &&& n.diagnostics == o.diagnostics
}

pub open spec fn internal(r: Result<bool, InterpretError>) -> bool {
    r is Err && r->Err_0 is InternalError
}

/// A successful step that left the stack as `stack` and moved on to `ip`.
pub open spec fn plain(o: VM, n: VM, r: Result<bool, InterpretError>, stack: Seq<Value>, ip: int) -> bool {
    r == Ok::<bool, InterpretError>(false) && n.stack@ == stack && moved(o, n, ip) && keeps_tables(o, n)
}

/// A runtime error: reported with `msg`, stack and frames reset, globals kept.
pub open spec fn runtime_fail(o: VM, n: VM, r: Result<bool, InterpretError>, msg: Seq<u8>) -> bool {
    r == Err::<bool, InterpretError>(InterpretError::RuntimeError) && n.is_reset() && n.globals
        == o.globals && n.output == o.output && n.functions == o.functions && n.strings == o.strings
        && reported(o, n, msg)
}

/// Functions, strings and both streams are as they were.
pub open spec fn same_code_and_streams(o: VM, n: VM) -> bool {
    &&& n.functions == o.functions
    &&& n.strings == o.strings
    &&& n.output == o.output
    &&& n.diagnostics == o.diagnostics
}

/// What one instruction does, by opcode. `o` is the state before, `n` after.
/// Operands follow the opcode (a one-byte index or count, or a big-endian
/// 16-bit offset from the end of the instruction). Malformed code (no
/// instruction, unknown opcode, operand or constant out of range, too few
/// values) is an internal error; what the language forbids is a runtime error.
pub open spec fn step_post(o: VM, n: VM, r: Result<bool, InterpretError>) -> bool {
    let ip = o.top().ip as int;
    let code = o.top_code();
    let s = o.stack@;
    let k = s.len();
    if ip >= code.len() || decode_spec(code[ip]) is None {
        internal(r)
    } else {
        let op = decode_spec(code[ip])->Some_0;
        let next = ip + 1 + operand_len(op);
        if next > code.len() {
            internal(r)
        } else {
            let arg = if operand_len(op) >= 1 { code[ip + 1] as int } else { 0 };
            let offset = if operand_len(op) == 2 {
                code[ip + 1] as int * 256 + code[ip + 2] as int
            } else {
                0
            };
            let base = o.top().starts_at as int;
            let constants = o.top_constants();
            match op {
                Op::Constant => if arg < constants.len() {
                    plain(o, n, r, s.push(constants[arg]), next)
                } else {
                    internal(r)
                },
                Op::Nil => plain(o, n, r, s.push(Value::Nil), next),
                Op::True => plain(o, n, r, s.push(Value::Bool(true)), next),
                Op::False => plain(o, n, r, s.push(Value::Bool(false)), next),
                Op::Pop => if k >= 1 {
                    plain(o, n, r, s.drop_last(), next)
                } else {
                    internal(r)
                },
                Op::GetLocal => if base + arg < k {
                    plain(o, n, r, s.push(s[base + arg]), next)
                } else {
                    internal(r)
                },
                Op::SetLocal => if base + arg < k {
                    plain(o, n, r, s.update(base + arg, s.last()), next)
                } else {
                    internal(r)
                },
                Op::GetGlobal | Op::DefineGlobal | Op::SetGlobal => match global_name_spec(
                    constants,
                    o.strings@,
                    arg,
                ) {
                    None => internal(r),
                    Some(h) => if op == Op::GetGlobal {
                        match global_spec(o.globals@, h as int) {
                            Some(v) => plain(o, n, r, s.push(v), next),
                            None => runtime_fail(o, n, r, undefined_msg(o.strings@, h)),
                        }
                    } else if k < 1 {
                        internal(r)
                    } else if op == Op::DefineGlobal {
                        r == Ok::<bool, InterpretError>(false) && n.stack@ == s.drop_last() && moved(
                            o,
                            n,
                            next,
                        ) && defines(o.globals@, n.globals@, h as int, s.last()) && same_code_and_streams(o, n)
                    } else {
                        match global_spec(o.globals@, h as int) {
                            Some(_) => r == Ok::<bool, InterpretError>(false) && n.stack@ == s
                                && moved(o, n, next) && defines(
                                o.globals@,
                                n.globals@,
                                h as int,
                                s.last(),
                            ) && same_code_and_streams(o, n),
                            None => runtime_fail(o, n, r, undefined_msg(o.strings@, h)),
                        }
                    },
                },
                Op::Equal => if k >= 2 {
                    plain(
                        o,
                        n,
                        r,
                        s.subrange(0, k - 2).push(Value::Bool(values_equal_spec(s[k - 2], s[k - 1]))),
                        next,
                    )
                } else {
                    internal(r)
                },
                Op::Greater | Op::Less => if k < 2 {
                    internal(r)
                } else {
                    match (s[k - 2], s[k - 1]) {
                        (Value::Number(a), Value::Number(b)) => plain(
                            o,
                            n,
                            r,
                            s.subrange(0, k - 2).push(compare_spec(op, a, b)),
                            next,
                        ),
                        _ => runtime_fail(o, n, r, "Operands must be numbers.".spec_bytes()),
                    }
                },
                Op::Add | Op::Subtract | Op::Multiply | Op::Divide => if k < 2 {
                    internal(r)
                } else {
                    match (s[k - 2], s[k - 1]) {
                        (Value::Number(a), Value::Number(b)) => r == Ok::<bool, InterpretError>(false)
                            && replaces_two(s, n.stack@) && n.stack@.last() is Number && moved(o, n, next)
                            && n.globals == o.globals && same_code_and_streams(o, n),
                        (Value::String(a), Value::String(b)) => if op != Op::Add {
                            runtime_fail(o, n, r, "Operands must be numbers.".spec_bytes())
                        } else if a < o.strings@.len() && b < o.strings@.len() {
                            r == Ok::<bool, InterpretError>(false) && replaces_two(s, n.stack@) && moved(
                                o,
                                n,
                                next,
                            ) && n.globals == o.globals && n.output == o.output && n.functions == o.functions
                                && n.diagnostics == o.diagnostics && o.strings@.is_prefix_of(n.strings@) && is_concat(
                                n.strings@,
                                n.stack@.last(),
                                o.strings@[a as int],
                                o.strings@[b as int],
                            )
                        } else {
                            internal(r)
                        },
                        _ => runtime_fail(o, n, r, "Operands must be numbers.".spec_bytes()),
                    }
                },
                Op::Not => if k >= 1 {
                    plain(o, n, r, s.drop_last().push(Value::Bool(is_falsy_spec(s.last()))), next)
                } else {
                    internal(r)
                },
                Op::Negate => if k < 1 {
                    internal(r)
                } else {
                    match s.last() {
                        Value::Number(a) => plain(
                            o,
                            n,
                            r,
                            s.drop_last().push(Value::Number(num_negate_spec(a))),
                            next,
                        ),
                        _ => runtime_fail(o, n, r, "Operand must be a number.".spec_bytes()),
                    }
                },
                Op::Print => if k >= 1 {
                    r == Ok::<bool, InterpretError>(false) && n.stack@ == s.drop_last() && moved(
                        o,
                        n,
                        next,
                    ) && n.globals == o.globals && n.functions == o.functions && n.strings == o.strings
                        && n.diagnostics == o.diagnostics && n.output@.len() == o.output@.len() + 1
                        && n.output@.drop_last() == o.output@ && printed_as(
                        o.strings@,
                        o.functions@,
                        s.last(),
                        n.output@.last()@,
                    )
                } else {
                    internal(r)
                },
                Op::Jump => if offset <= code.len() - next {
                    plain(o, n, r, s, next + offset)
                } else {
                    internal(r)
                },
                Op::JumpIfFalse => if k < 1 {
                    internal(r)
                } else if is_falsy_spec(s.last()) {
                    if offset <= code.len() - next {
                        plain(o, n, r, s, next + offset)
                    } else {
                        internal(r)
                    }
                } else {
                    plain(o, n, r, s, next)
                },
                Op::Loop => if offset <= next {
                    plain(o, n, r, s, next - offset)
                } else {
                    internal(r)
                },
                Op::Call => if arg >= k {
                    internal(r)
                } else {
                    let callee_at = k - 1 - arg;
                    match s[callee_at] {
                        Value::Function(f) => if f >= o.functions@.len() {
                            internal(r)
                        } else if o.functions@[f as int].arity != arg {
                            runtime_fail(
                                o,
                                n,
                                r,
                                arity_msg(o.functions@[f as int].arity as nat, arg as nat),
                            )
                        } else {
                            r == Ok::<bool, InterpretError>(false) && n.stack == o.stack
                                && n.frames@ == o.frames@.update(
                                o.frames@.len() - 1,
                                CallFrame { ip: next as usize, ..o.top() },
                            ).push(CallFrame { function: f, ip: 0, starts_at: callee_at as usize })
                                && keeps_tables(o, n)
                        },
                        Value::Native(_) => r == Ok::<bool, InterpretError>(false) && moved(o, n, next)
                            && n.stack@.len() == callee_at + 1 && n.stack@.subrange(0, callee_at)
                            == s.subrange(0, callee_at) && keeps_tables(o, n),
                        _ => runtime_fail(
                            o,
                            n,
                            r,
                            "Can only call functions and classes.".spec_bytes(),
                        ),
                    }
                },
                Op::Return => n.frames@ == o.frames@.drop_last() && n.globals == o.globals
                    && same_code_and_streams(o, n) && if k < 1 {
                    internal(r)
                } else if o.frames@.len() > 1 {
                    r == Ok::<bool, InterpretError>(false) && n.stack@ == return_stack_spec(s, base)
                } else if k >= 2 {
                    r == Ok::<bool, InterpretError>(true) && n.stack@ == s.subrange(0, k - 2)
                } else {
                    internal(r)
                },
            }
        }
    }
}

/// What compiling `source` yields (see `grammar::program`).
pub open spec fn compiled(source: &String) -> crate::grammar::ParseState {
    crate::grammar::program(crate::scanner::scan_spec(crate::compiler::source_bytes(source)))
}

/// Each state of `trace` steps to the next with `Ok(false)`.
pub open spec fn steps_through(trace: Seq<VM>) -> bool {
    forall|i: int|
        0 <= i < trace.len() - 1 ==> #[trigger] step_post(
            trace[i],
            trace[i + 1],
            Ok::<bool, InterpretError>(false),
        )
}

/// A run from `o` to `n` with result `r`: the states of `trace` from `o` on,
/// each stepping to the next; then the last step's outcome (`Ok(true)` for
/// `Ok(())`, the same error for an error), or, stopped with no frame to run or
/// after `STEP_LIMIT` steps, an internal error with nothing changed.
pub open spec fn run_trace(o: VM, trace: Seq<VM>, n: VM, r: Result<(), InterpretError>) -> bool {
    &&& trace.len() >= 1
    &&& trace[0] == o
    &&& steps_through(trace)
    &&& match r {
        Ok(_) => step_post(trace.last(), n, Ok::<bool, InterpretError>(true)),
        Err(e) => step_post(trace.last(), n, Err::<bool, InterpretError>(e)) || (n == trace.last()
            && e is InternalError && (n.frames@.len() == 0 || trace.len() == STEP_LIMIT + 1)),
    }
}

/// The interpreter: a value stack, a frame stack, the globals (keyed by the
/// handle of their name), every function compiled so far, the interner, and
/// the two output streams as lines.
pub struct VM {
    pub stack: Vec<Value>,
    pub globals: HashMap<usize, Value>,
    pub frames: Vec<CallFrame>,
    pub functions: Vec<Function>,
    pub strings: Interner,
    /// What `print` wrote, one line each.
    pub output: Vec<Vec<u8>>,
    /// Compile and runtime error reports, one line each.
    pub diagnostics: Vec<Vec<u8>>,
}

impl VM {
    pub open spec fn wf(&self) -> bool {
        &&& self.strings.wf()
        &&& forall|i: int|
            0 <= i < self.frames@.len() ==> #[trigger] self.frames@[i].function
                < self.functions@.len()
        &&& forall|f: int| 0 <= f < self.functions@.len() ==> #[trigger] self.functions@[f].chunk.wf()
        &&& forall|i: int|
            0 <= i < self.frames@.len() ==> #[trigger] self.frames@[i].ip
                <= self.functions@[self.frames@[i].function as int].chunk.code@.len()
    }

    /// `next` is a later state of the same interpreter: functions and string
    /// handles only ever grow, output only ever gets more lines.
    pub open spec fn grows_to(&self, next: &VM) -> bool {
        &&& next.wf()
        &&& self.strings@.is_prefix_of(next.strings@)
        &&& self.functions@.len() <= next.functions@.len()
        &&& forall|f: int| 0 <= f < self.functions@.len() ==> #[trigger] next.functions@[f] == self.functions@[f]
        &&& self.output@.is_prefix_of(next.output@)
        &&& self.diagnostics@.is_prefix_of(next.diagnostics@)
    }

    /// Stack and frames are empty, as a runtime error leaves them.
    pub open spec fn is_reset(&self) -> bool {
        self.stack@.len() == 0 && self.frames@.len() == 0
    }

    /// A fresh interpreter with native `clock` (native 0 of the host) bound.
    pub fn new() -> (r: VM)
        ensures
            r.wf(),
            r.is_reset(),
            r.functions@.len() == 0,
            r.output@.len() == 0,
            r.diagnostics@.len() == 0,
            r.strings@ == seq!["clock".spec_bytes()],
            global_spec(r.globals@, 0) == Some(Value::Native(0)),
            forall|h: int| h != 0 ==> #[trigger] global_spec(r.globals@, h) is None,
    {
        let mut vm = VM {
            stack: Vec::new(),
            globals: HashMap::new(),
            frames: Vec::new(),
            functions: Vec::new(),
            strings: Interner::new(),
            output: Vec::new(),
            diagnostics: Vec::new(),
        };
        let name = message("clock");
        vm.define_native(name.as_slice(), 0);
        proof {
            let h = choose|h: int|
                0 <= h < vm.strings@.len() && vm.strings@[h] == name@ && defines(
                    Map::<usize, Value>::empty(),
                    vm.globals@,
                    h,
                    Value::Native(0),
                );
            assert(vm.strings@ =~= seq!["clock".spec_bytes()]);
            assert(h == 0);
        }
        vm
    }

    fn define_native(&mut self, name: &[u8], native: usize)
        requires
            old(self).wf(),
        ensures
            old(self).grows_to(final(self)),
            final(self).stack@ == old(self).stack@,
            final(self).frames@ == old(self).frames@,
            final(self).output@ == old(self).output@,
            final(self).functions == old(self).functions,
            final(self).diagnostics == old(self).diagnostics,
            final(self).strings@ == (if old(self).strings@.contains(name@) {
                old(self).strings@
            } else {
                old(self).strings@.push(name@)
            }),
            exists|h: int|
                0 <= h < final(self).strings@.len() && final(self).strings@[h] == name@ && defines(
                    old(self).globals@,
                    final(self).globals@,
                    h,
                    Value::Native(native),
                ),
    {
        let handle = self.strings.intern(name);
        self.set_global(handle, Value::Native(native));
    }

    /// The value bound to the name with handle `h`.
    pub fn get_global(&self, h: usize) -> (r: Option<Value>)
        ensures
            r == global_spec(self.globals@, h as int),
    {
        broadcast use vstd::std_specs::hash::group_hash_axioms;
        match self.globals.get(&h) {
            Some(v) => Some(*v),
            None => None,
        }
    }

    /// Binds (or rebinds) the name with handle `h` to `v`.
    pub fn set_global(&mut self, h: usize, v: Value)
        ensures
            defines(old(self).globals@, final(self).globals@, h as int, v),
            final(self).stack == old(self).stack,
            final(self).frames == old(self).frames,
            final(self).functions == old(self).functions,
            final(self).strings == old(self).strings,
            final(self).output == old(self).output,
            final(self).diagnostics == old(self).diagnostics,
    {
        broadcast use vstd::std_specs::hash::group_hash_axioms;
        let ghost g = self.globals@;
        self.globals.insert(h, v);
        assert forall|k: int| #[trigger] global_spec(self.globals@, k) == if k == h {
            Some(v)
        } else {
            global_spec(g, k)
        } by {
            if 0 <= k <= usize::MAX && k != h {
                assert(self.globals@.contains_key(k as usize) == g.contains_key(k as usize));
            }
        }
    }

    /// Clears stack and frames.
    fn reset_stack(&mut self)
        ensures
            final(self).is_reset(),
            final(self).globals == old(self).globals,
            final(self).functions == old(self).functions,
            final(self).strings == old(self).strings,
            final(self).output == old(self).output,
            final(self).diagnostics == old(self).diagnostics,
    {
        self.stack.clear();
        self.frames.clear();
    }

    /// Reports a runtime error: the message, then one line per frame from the
    /// innermost out, then resets stack and frames.
    fn runtime_error(&mut self, msg: Vec<u8>) -> (r: InterpretError)
        requires
            old(self).wf(),
        ensures
            r == InterpretError::RuntimeError,
            old(self).grows_to(final(self)),
            final(self).is_reset(),
            final(self).globals == old(self).globals,
            final(self).output == old(self).output,
            final(self).strings == old(self).strings,
            final(self).functions == old(self).functions,
            final(self).diagnostics@.len() == old(self).diagnostics@.len() + 1 + old(
                self,
            ).frames@.len(),
            final(self).diagnostics@[old(self).diagnostics@.len() as int] == msg,
            forall|j: int|
                0 <= j < old(self).frames@.len() ==> (#[trigger] final(self).diagnostics@[old(
                    self,
                ).diagnostics@.len() + 1 + j])@ == trace_line(
                    *old(self),
                    old(self).frames@[old(self).frames@.len() - 1 - j],
                ),
    {
        let ghost d0 = self.diagnostics@;
        self.diagnostics.push(msg);
        let ghost d1 = self.diagnostics@;
        let mut i: usize = self.frames.len();
        while i > 0
            invariant
                self.wf(),
                i <= self.frames@.len(),
                self.frames == old(self).frames,
                self.functions == old(self).functions,
                self.strings == old(self).strings,
                self.stack == old(self).stack,
                self.globals == old(self).globals,
                self.output == old(self).output,
                self.diagnostics@.len() == d1.len() + (self.frames@.len() - i),
                forall|k: int| 0 <= k < d1.len() ==> #[trigger] self.diagnostics@[k] == d1[k],
                forall|j: int|
                    0 <= j < self.frames@.len() - i ==> (#[trigger] self.diagnostics@[d1.len() + j])@
                        == trace_line(*old(self), self.frames@[self.frames@.len() - 1 - j]),
            decreases i,
        {
            i = i - 1;
            let frame = self.frames[i];
            let function = &self.functions[frame.function];
            let lines = &function.chunk.lines;
            let line: usize = if frame.ip > 0 && frame.ip <= lines.len() {
                lines[frame.ip - 1]
            } else {
                0
            };
            let mut text = message("[line ");
            append_bytes(&mut text, decimal(line).as_slice());
            append_bytes(&mut text, "] in ".as_bytes());
            let ghost head = text@;
            match self.strings.text(function.name) {
                Some(name) => {
                    if name.len() > 0 {
                        append_bytes(&mut text, name.as_slice());
                        append_bytes(&mut text, "()".as_bytes());
                        assert(text@ =~= head + (name@ + "()".spec_bytes()));
                    } else {
                        append_bytes(&mut text, "script".as_bytes());
                    }
                },
                None => append_bytes(&mut text, "script".as_bytes()),
            }
            assert(text@ =~= trace_line(*old(self), frame));
            let ghost before = self.diagnostics@;
            self.diagnostics.push(text);
            assert forall|j: int| 0 <= j < self.frames@.len() - i implies (#[trigger] self.diagnostics@[d1.len() + j])@
                == trace_line(*old(self), self.frames@[self.frames@.len() - 1 - j]) by {
                if j < self.frames@.len() - i - 1 {
                    assert(self.diagnostics@[d1.len() + j] == before[d1.len() + j]);
                }
            }
        }
        self.reset_stack();
        assert(d0.is_prefix_of(self.diagnostics@)) by {
            assert(forall|k: int| 0 <= k < d0.len() ==> d1[k] == d0[k]);
        }
        InterpretError::RuntimeError
    }

    fn pop(&mut self) -> (r: Result<Value, InterpretError>)
        ensures
            old(self).stack@.len() > 0 ==> r == Ok::<Value, InterpretError>(old(self).stack@.last())
                && final(self).stack@ == old(self).stack@.drop_last(),
            old(self).stack@.len() == 0 ==> r is Err && r->Err_0 is InternalError && final(self).stack@ == old(self).stack@,
            final(self).frames == old(self).frames,
            final(self).globals == old(self).globals,
            final(self).functions == old(self).functions,
            final(self).strings == old(self).strings,
            final(self).output == old(self).output,
            final(self).diagnostics == old(self).diagnostics,
    {
        match self.stack.pop() {
            Some(v) => Ok(v),
            None => Err(InterpretError::InternalError("Can't pop on empty stack.")),
        }
    }

    /// The value `distance` slots below the top.
    fn peek(&self, distance: usize) -> (r: Result<Value, InterpretError>)
        ensures
            distance < self.stack@.len() ==> r == Ok::<Value, InterpretError>(
                self.stack@[self.stack@.len() - 1 - distance],
            ),
            distance >= self.stack@.len() ==> r is Err && r->Err_0 is InternalError,
    {
        let len = self.stack.len();
        if distance < len {
            Ok(self.stack[len - 1 - distance])
        } else {
            Err(InterpretError::InternalError("Can't peek on empty stack."))
        }
    }

    /// Only the stack may differ between `self` and `next`.
    pub open spec fn same_but_stack(&self, next: &VM) -> bool {
        &&& next.frames == self.frames
        &&& next.globals == self.globals
        &&& next.functions == self.functions
        &&& next.strings == self.strings
        &&& next.output == self.output
        &&& next.diagnostics == self.diagnostics
    }

    pub open spec fn top(&self) -> CallFrame {
        self.frames@.last()
    }

    /// The code of the function running in the top frame.
    pub open spec fn top_code(&self) -> Seq<u8> {
        self.functions@[self.top().function as int].chunk.code@
    }

    pub open spec fn top_constants(&self) -> Seq<Value> {
        self.functions@[self.top().function as int].chunk.constants@
    }

    /// Moves the top frame's instruction pointer to `ip`.
    fn set_ip(&mut self, ip: usize)
        requires
            old(self).wf(),
            old(self).frames@.len() > 0,
            ip <= old(self).top_code().len(),
        ensures
            final(self).wf(),
            final(self).frames@ == old(self).frames@.update(
                old(self).frames@.len() - 1,
                CallFrame { ip, ..old(self).top() },
            ),
            final(self).stack == old(self).stack,
            final(self).globals == old(self).globals,
            final(self).functions == old(self).functions,
            final(self).strings == old(self).strings,
            final(self).output == old(self).output,
            final(self).diagnostics == old(self).diagnostics,
    {
        let top = self.frames.len() - 1;
        let frame = self.frames[top];
        self.frames[top] = CallFrame { ip, ..frame };
    }





    /// `EQUAL`: pops two values and pushes whether they are equal.
    pub fn op_equal(&mut self) -> (r: Result<(), InterpretError>)
        ensures
            r is Ok ==> final(self).frames@.len() >= old(self).frames@.len(),
            r is Err ==> fails_cleanly(r->Err_0, *final(self)),
            old(self).same_but_stack(final(self)),
            old(self).stack@.len() >= 2 ==> r is Ok && final(self).stack@ == old(
                self,
            ).stack@.subrange(0, old(self).stack@.len() - 2).push(
                Value::Bool(
                    values_equal_spec(
                        old(self).stack@[old(self).stack@.len() - 2],
                        old(self).stack@.last(),
                    ),
                ),
            ),
            old(self).stack@.len() < 2 ==> r is Err && r->Err_0 is InternalError,
    {
        let b = self.pop()?;
        let a = self.pop()?;
        self.stack.push(Value::Bool(a.equals(&b)));
        Ok(())
    }

    /// `NOT`: replaces the top value by whether it is falsy.
    pub fn op_not(&mut self) -> (r: Result<(), InterpretError>)
        ensures
            r is Ok ==> final(self).frames@.len() >= old(self).frames@.len(),
            r is Err ==> fails_cleanly(r->Err_0, *final(self)),
            old(self).same_but_stack(final(self)),
            old(self).stack@.len() >= 1 ==> r is Ok && final(self).stack@ == old(
                self,
            ).stack@.drop_last().push(Value::Bool(is_falsy_spec(old(self).stack@.last()))),
            old(self).stack@.len() < 1 ==> r is Err && r->Err_0 is InternalError,
    {
        let v = self.pop()?;
        self.stack.push(Value::Bool(v.is_falsy()));
        Ok(())
    }

    /// `LESS` or `GREATER` on the two top values, which must be numbers.
    pub fn op_compare(&mut self, op: Op) -> (r: Result<(), InterpretError>)
        requires
            old(self).wf(),
            op == Op::Less || op == Op::Greater,
        ensures
            r == Err::<(), InterpretError>(InterpretError::RuntimeError) ==> final(self).output == old(self).output && final(self).functions == old(self).functions && final(self).strings == old(self).strings,
            r == Err::<(), InterpretError>(InterpretError::RuntimeError) ==> reported(*old(self), *final(self), "Operands must be numbers.".spec_bytes()),
            r is Ok ==> final(self).frames@.len() >= old(self).frames@.len(),
            r is Err ==> fails_cleanly(r->Err_0, *final(self)),
            old(self).grows_to(final(self)),
            final(self).globals == old(self).globals,
            old(self).stack@.len() < 2 ==> r is Err && r->Err_0 is InternalError,
            old(self).stack@.len() >= 2 ==> {
                let n = old(self).stack@.len();
                match (old(self).stack@[n - 2], old(self).stack@[n - 1]) {
                    (Value::Number(a), Value::Number(b)) => r is Ok && old(self).same_but_stack(
                        final(self),
                    ) && final(self).stack@ == old(self).stack@.subrange(0, n - 2).push(
                        compare_spec(op, a, b),
                    ),
                    _ => r == Err::<(), InterpretError>(InterpretError::RuntimeError)
                        && final(self).is_reset(),
                }
            },
    {
        let b = self.peek(0)?;
        let a = self.peek(1)?;
        match (a, b) {
            (Value::Number(x), Value::Number(y)) => {
                let result = if op == Op::Less {
                    num_less(x, y)
                } else {
                    num_less(y, x)
                };
                self.stack.pop();
                self.stack.pop();
                self.stack.push(Value::Bool(result));
                assert(self.stack@ =~= old(self).stack@.subrange(0, old(self).stack@.len() - 2).push(
                    compare_spec(op, x, y)));
                Ok(())
            },
            _ => Err(self.runtime_error(message("Operands must be numbers."))),
        }
    }

    /// `ADD`, `SUBTRACT`, `MULTIPLY` or `DIVIDE` on the two top values. Numbers
    /// go to the host's arithmetic; for `ADD`, two strings are concatenated.
    pub fn op_arith<H: Host>(&mut self, op: Arith, host: &mut H) -> (r: Result<(), InterpretError>)
        requires
            old(self).wf(),
        ensures
            old(self).stack@.len() >= 2 && old(self).stack@[old(self).stack@.len() - 2] is Number && old(self).stack@.last() is Number && r is Ok ==> final(self).strings == old(self).strings,
            r is Ok ==> old(self).strings@.is_prefix_of(final(self).strings@),
            r == Err::<(), InterpretError>(InterpretError::RuntimeError) ==> final(self).output == old(self).output && final(self).functions == old(self).functions && final(self).strings == old(self).strings,
            r is Ok ==> final(self).output == old(self).output && final(self).diagnostics == old(self).diagnostics && final(self).functions == old(self).functions,
            old(self).stack@.len() >= 2 ==> match (old(self).stack@[old(self).stack@.len() - 2], old(self).stack@[old(self).stack@.len() - 1]) {
                (Value::String(a), Value::String(b)) => (op != Arith::Add ==> r == Err::<(), InterpretError>(InterpretError::RuntimeError))
                    && (op == Arith::Add && !(a < old(self).strings@.len() && b < old(self).strings@.len()) ==> r is Err && r->Err_0 is InternalError),
                _ => true,
            },
            r == Err::<(), InterpretError>(InterpretError::RuntimeError) ==> reported(*old(self), *final(self), "Operands must be numbers.".spec_bytes()),
            r is Ok ==> final(self).frames@.len() >= old(self).frames@.len(),
            r is Ok ==> final(self).frames == old(self).frames,
            r is Err ==> fails_cleanly(r->Err_0, *final(self)),
            old(self).grows_to(final(self)),
            final(self).globals == old(self).globals,
            old(self).stack@.len() < 2 ==> r is Err && r->Err_0 is InternalError,
            old(self).stack@.len() >= 2 ==> {
                let n = old(self).stack@.len();
                match (old(self).stack@[n - 2], old(self).stack@[n - 1]) {
                    (Value::Number(a), Value::Number(b)) => r is Ok && replaces_two(
                        old(self).stack@,
                        final(self).stack@,
                    ) && final(self).stack@.last() is Number && final(self).frames
                        == old(self).frames,
                    (Value::String(a), Value::String(b)) => (op == Arith::Add && a < old(
                        self,
                    ).strings@.len() && b < old(self).strings@.len()) ==> r is Ok && replaces_two(
                        old(self).stack@,
                        final(self).stack@,
                    ) && final(self).frames == old(self).frames && is_concat(
                        final(self).strings@,
                        final(self).stack@.last(),
                        old(self).strings@[a as int],
                        old(self).strings@[b as int],
                    ),
                    _ => r == Err::<(), InterpretError>(InterpretError::RuntimeError)
                        && final(self).is_reset(),
                }
            },
    {
        let b = self.peek(0)?;
        let a = self.peek(1)?;
        let result = match (a, b) {
            (Value::Number(x), Value::Number(y)) => Value::Number(host.arithmetic(op, x, y)),
            (Value::String(x), Value::String(y)) => {
                if op != Arith::Add {
                    return Err(self.runtime_error(message("Operands must be numbers.")));
                }
                let joined = match (self.strings.text(x), self.strings.text(y)) {
                    (Some(tx), Some(ty)) => {
                        let mut joined = copy_range(tx.as_slice(), 0, tx.len());
                        assert(joined@ =~= self.strings@[x as int]);
                        append_bytes(&mut joined, ty.as_slice());
                        joined
                    },
                    _ => {
                        return Err(InterpretError::InternalError("Unknown string handle."));
                    },
                };
                let h = self.strings.intern(joined.as_slice());
                Value::String(h)
            },
            _ => {
                return Err(self.runtime_error(message("Operands must be numbers.")));
            },
        };
        self.stack.pop();
        self.stack.pop();
        self.stack.push(result);
        proof {
            let n = old(self).stack@.len();
            assert(self.stack@.subrange(0, n - 2) =~= old(self).stack@.subrange(0, n - 2));
        }
        Ok(())
    }

    /// `NEGATE`: the top value, which must be a number, changes sign.
    pub fn op_negate(&mut self) -> (r: Result<(), InterpretError>)
        requires
            old(self).wf(),
        ensures
            r == Err::<(), InterpretError>(InterpretError::RuntimeError) ==> final(self).output == old(self).output && final(self).functions == old(self).functions && final(self).strings == old(self).strings,
            r == Err::<(), InterpretError>(InterpretError::RuntimeError) ==> reported(*old(self), *final(self), "Operand must be a number.".spec_bytes()),
            r is Ok ==> final(self).frames@.len() >= old(self).frames@.len(),
            r is Err ==> fails_cleanly(r->Err_0, *final(self)),
            old(self).grows_to(final(self)),
            final(self).globals == old(self).globals,
            old(self).stack@.len() < 1 ==> r is Err && r->Err_0 is InternalError,
            old(self).stack@.len() >= 1 ==> match old(self).stack@.last() {
                Value::Number(a) => r is Ok && old(self).same_but_stack(final(self))
                    && final(self).stack@ == old(self).stack@.drop_last().push(
                    Value::Number(num_negate_spec(a)),
                ),
                _ => r == Err::<(), InterpretError>(InterpretError::RuntimeError)
                    && final(self).is_reset(),
            },
    {
        match self.peek(0)? {
            Value::Number(x) => {
                self.stack.pop();
                self.stack.push(Value::Number(num_negate(x)));
                Ok(())
            },
            _ => Err(self.runtime_error(message("Operand must be a number."))),
        }
    }

    /// `PRINT`: pops a value and writes its text as one line of output.
    pub fn op_print<H: Host>(&mut self, host: &mut H) -> (r: Result<(), InterpretError>)
        ensures
            old(self).stack@.len() >= 1 ==> printed_as(old(self).strings@, old(self).functions@, old(self).stack@.last(), final(self).output@.last()@),
            r is Ok ==> final(self).frames@.len() >= old(self).frames@.len(),
            r is Err ==> fails_cleanly(r->Err_0, *final(self)),
            old(self).stack@.len() >= 1 ==> r is Ok && final(self).stack@ == old(
                self,
            ).stack@.drop_last() && final(self).output@.len() == old(self).output@.len() + 1
                && final(self).output@.drop_last() == old(self).output@
                && (old(self).stack@.last() matches Value::String(h) && h < old(self).strings@.len()
                ==> final(self).output@.last()@ == old(self).strings@[old(self).stack@.last()->String_0 as int]),
            old(self).stack@.len() < 1 ==> r is Err && r->Err_0 is InternalError,
            final(self).frames == old(self).frames,
            final(self).globals == old(self).globals,
            final(self).functions == old(self).functions,
            final(self).strings == old(self).strings,
            final(self).diagnostics == old(self).diagnostics,
            old(self).output@.is_prefix_of(final(self).output@),
    {
        let v = self.pop()?;
        let text = v.print(&self.strings, self.functions.as_slice(), host);
        self.output.push(text);
        Ok(())
    }

    /// `DEFINE_GLOBAL`: pops a value and binds the name to it, whether or not
    /// the name was bound before.
    pub fn op_define_global(&mut self, name: usize) -> (r: Result<(), InterpretError>)
        ensures
            r is Ok ==> final(self).frames@.len() >= old(self).frames@.len(),
            r is Err ==> fails_cleanly(r->Err_0, *final(self)),
            old(self).stack@.len() >= 1 ==> r is Ok && final(self).stack@ == old(
                self,
            ).stack@.drop_last() && defines(
                old(self).globals@,
                final(self).globals@,
                name as int,
                old(self).stack@.last(),
            ),
            old(self).stack@.len() < 1 ==> r is Err && r->Err_0 is InternalError
                && final(self).globals == old(self).globals,
            final(self).frames == old(self).frames,
            final(self).functions == old(self).functions,
            final(self).strings == old(self).strings,
            final(self).output == old(self).output,
            final(self).diagnostics == old(self).diagnostics,
    {
        let v = self.pop()?;
        self.set_global(name, v);
        Ok(())
    }

    /// The runtime error for reading or writing a global that is not bound.
    fn undefined_variable(&mut self, name: usize) -> (r: InterpretError)
        requires
            old(self).wf(),
        ensures
            reported(*old(self), *final(self), undefined_msg(old(self).strings@, name)),
            r == InterpretError::RuntimeError,
            old(self).grows_to(final(self)),
            final(self).is_reset(),
            final(self).globals == old(self).globals,
            final(self).output == old(self).output,
            final(self).strings == old(self).strings,
            final(self).functions == old(self).functions,
    {
        let mut text = message("Undefined variable '");
        match self.strings.text(name) {
            Some(t) => append_bytes(&mut text, t.as_slice()),
            None => {},
        }
        append_bytes(&mut text, "'.".as_bytes());
        assert(text@ =~= undefined_msg(self.strings@, name));
        self.runtime_error(text)
    }

    /// `GET_GLOBAL`: pushes the global's value; a runtime error if unbound.
    pub fn op_get_global(&mut self, name: usize) -> (r: Result<(), InterpretError>)
        requires
            old(self).wf(),
        ensures
            r == Err::<(), InterpretError>(InterpretError::RuntimeError) ==> final(self).output == old(self).output && final(self).functions == old(self).functions && final(self).strings == old(self).strings,
            r == Err::<(), InterpretError>(InterpretError::RuntimeError) ==> reported(*old(self), *final(self), undefined_msg(old(self).strings@, name)),
            r is Ok ==> final(self).frames@.len() >= old(self).frames@.len(),
            r is Err ==> fails_cleanly(r->Err_0, *final(self)),
            old(self).grows_to(final(self)),
            final(self).globals == old(self).globals,
            global_spec(old(self).globals@, name as int) is Some ==> r is Ok && old(
                self,
            ).same_but_stack(final(self)) && final(self).stack@ == old(self).stack@.push(
                global_spec(old(self).globals@, name as int)->Some_0,
            ),
            global_spec(old(self).globals@, name as int) is None ==> r
                == Err::<(), InterpretError>(InterpretError::RuntimeError) && final(self).is_reset(),
    {
        match self.get_global(name) {
            Some(v) => {
                self.stack.push(v);
                Ok(())
            },
            None => Err(self.undefined_variable(name)),
        }
    }

    /// `SET_GLOBAL`: rebinds a bound global to the top value, which stays on
    /// the stack; a runtime error, with the table unchanged, if unbound.
    pub fn op_set_global(&mut self, name: usize) -> (r: Result<(), InterpretError>)
        requires
            old(self).wf(),
        ensures
            r is Ok ==> final(self).functions == old(self).functions && final(self).strings == old(self).strings && final(self).output == old(self).output && final(self).diagnostics == old(self).diagnostics,
            r == Err::<(), InterpretError>(InterpretError::RuntimeError) ==> final(self).output == old(self).output && final(self).functions == old(self).functions && final(self).strings == old(self).strings,
            old(self).stack@.len() >= 1 && global_spec(old(self).globals@, name as int) is None ==> r == Err::<(), InterpretError>(InterpretError::RuntimeError),
            r == Err::<(), InterpretError>(InterpretError::RuntimeError) ==> reported(*old(self), *final(self), undefined_msg(old(self).strings@, name)) && final(self).is_reset(),
            r is Ok ==> final(self).frames@.len() >= old(self).frames@.len(),
            r is Ok ==> final(self).frames == old(self).frames,
            r is Err ==> fails_cleanly(r->Err_0, *final(self)),
            old(self).grows_to(final(self)),
            old(self).stack@.len() < 1 ==> r is Err && r->Err_0 is InternalError,
            old(self).stack@.len() >= 1 && global_spec(old(self).globals@, name as int) is Some
                ==> r is Ok && final(self).stack == old(self).stack && defines(
                old(self).globals@,
                final(self).globals@,
                name as int,
                old(self).stack@.last(),
            ),
            global_spec(old(self).globals@, name as int) is None ==> r is Err && final(self).globals
                == old(self).globals,
    {
        let v = self.peek(0)?;
        match self.get_global(name) {
            Some(_) => {
                self.set_global(name, v);
                Ok(())
            },
            None => Err(self.undefined_variable(name)),
        }
    }

    /// `GET_LOCAL`: pushes the value in slot `slot` of the running frame.
    pub fn op_get_local(&mut self, slot: usize) -> (r: Result<(), InterpretError>)
        requires
            old(self).frames@.len() > 0,
        ensures
            r is Ok ==> final(self).frames@.len() >= old(self).frames@.len(),
            r is Err ==> fails_cleanly(r->Err_0, *final(self)),
            old(self).same_but_stack(final(self)),
            old(self).top().starts_at + slot < old(self).stack@.len() ==> r is Ok
                && final(self).stack@ == old(self).stack@.push(
                old(self).stack@[old(self).top().starts_at + slot],
            ),
            old(self).top().starts_at + slot >= old(self).stack@.len() ==> r is Err
                && r->Err_0 is InternalError,
    {
        let base = self.frames[self.frames.len() - 1].starts_at;
        if slot < self.stack.len() && base < self.stack.len() - slot {
            let v = self.stack[base + slot];
            self.stack.push(v);
            Ok(())
        } else {
            Err(InterpretError::InternalError("Local slot out of range."))
        }
    }

    /// `SET_LOCAL`: stores the top value, which stays, into slot `slot`.
    pub fn op_set_local(&mut self, slot: usize) -> (r: Result<(), InterpretError>)
        requires
            old(self).frames@.len() > 0,
        ensures
            r is Ok ==> final(self).frames@.len() >= old(self).frames@.len(),
            r is Err ==> fails_cleanly(r->Err_0, *final(self)),
            old(self).same_but_stack(final(self)),
            old(self).top().starts_at + slot < old(self).stack@.len() ==> r is Ok
                && final(self).stack@ == old(self).stack@.update(
                old(self).top().starts_at + slot,
                old(self).stack@.last(),
            ),
            old(self).top().starts_at + slot >= old(self).stack@.len() ==> r is Err
                && r->Err_0 is InternalError,
    {
        let base = self.frames[self.frames.len() - 1].starts_at;
        if slot < self.stack.len() && base < self.stack.len() - slot {
            let v = self.stack[self.stack.len() - 1];
            self.stack[base + slot] = v;
            Ok(())
        } else {
            Err(InterpretError::InternalError("Local slot out of range."))
        }
    }


    /// What a native is handed: its call slot at `base` and the arguments above.
    pub fn call_args(&self, base: usize) -> (r: Vec<Value>)
        requires
            base <= self.stack@.len(),
        ensures
            r@ == self.stack@.subrange(base as int, self.stack@.len() as int),
    {
        let mut args: Vec<Value> = Vec::new();
        let mut i: usize = base;
        while i < self.stack.len()
            invariant
                base <= i <= self.stack@.len(),
                args@ == self.stack@.subrange(base as int, i as int),
            decreases self.stack@.len() - i,
        {
            args.push(self.stack[i]);
            assert(self.stack@.subrange(base as int, i + 1) =~= self.stack@.subrange(base as int, i as int).push(self.stack@[i as int]));
            i = i + 1;
        }
        args
    }

    /// `CALL`: calls the value `argc` slots below the top. A function gets a new
    /// frame whose slot 0 is the callee; a native's result replaces the callee
    /// and its arguments.
    pub fn op_call<H: Host>(&mut self, argc: usize, host: &mut H) -> (r: Result<(), InterpretError>)
        requires
            old(self).wf(),
        ensures
            r == Err::<(), InterpretError>(InterpretError::RuntimeError) ==> final(self).output == old(self).output && final(self).functions == old(self).functions && final(self).strings == old(self).strings,
            r is Ok ==> final(self).output == old(self).output && final(self).diagnostics == old(self).diagnostics && final(self).functions == old(self).functions && final(self).strings == old(self).strings,
            argc < old(self).stack@.len() ==> match old(self).stack@[old(self).stack@.len() - 1 - argc] {
                Value::Function(f) => f >= old(self).functions@.len() ==> r is Err && r->Err_0 is InternalError,
                _ => true,
            },
            argc < old(self).stack@.len() ==> match old(self).stack@[old(self).stack@.len() - 1 - argc] {
                Value::Function(f) => f < old(self).functions@.len() && old(self).functions@[f as int].arity != argc ==> reported(*old(self), *final(self), arity_msg(old(self).functions@[f as int].arity as nat, argc as nat)),
                Value::Native(_) => true,
                _ => reported(*old(self), *final(self), "Can only call functions and classes.".spec_bytes()),
            },
            r is Ok ==> final(self).frames@.len() >= old(self).frames@.len(),
            r is Err ==> fails_cleanly(r->Err_0, *final(self)),
            old(self).grows_to(final(self)),
            final(self).globals == old(self).globals,
            argc >= old(self).stack@.len() ==> r is Err && r->Err_0 is InternalError,
            argc < old(self).stack@.len() ==> {
                let base = old(self).stack@.len() - 1 - argc;
                match old(self).stack@[base] {
                    Value::Function(f) => f < old(self).functions@.len() ==> if old(
                        self,
                    ).functions@[f as int].arity == argc {
                        r is Ok && old(self).stack == final(self).stack && final(self).frames@
                            == old(self).frames@.push(
                            CallFrame { function: f, ip: 0, starts_at: base as usize },
                        )
                    } else {
                        r == Err::<(), InterpretError>(InterpretError::RuntimeError)
                            && final(self).is_reset()
                    },
                    Value::Native(_) => r is Ok && final(self).frames == old(self).frames
                        && final(self).stack@.len() == base + 1 && final(self).stack@.subrange(
                        0,
                        base,
                    ) == old(self).stack@.subrange(0, base),
                    _ => r == Err::<(), InterpretError>(InterpretError::RuntimeError)
                        && final(self).is_reset(),
                }
            },
    {
        let callee = self.peek(argc)?;
        let base = self.stack.len() - 1 - argc;
        match callee {
            Value::Function(f) => {
                if f >= self.functions.len() {
                    return Err(InterpretError::InternalError("Unknown function."));
                }
                let arity = self.functions[f].arity;
                if argc != arity {
                    let mut text = message("Expected ");
                    append_bytes(&mut text, decimal(arity).as_slice());
                    append_bytes(&mut text, " arguments but got ".as_bytes());
                    append_bytes(&mut text, decimal(argc).as_slice());
                    append_bytes(&mut text, ".".as_bytes());
                    assert(text@ =~= arity_msg(arity as nat, argc as nat));
                    return Err(self.runtime_error(text));
                }
                self.frames.push(CallFrame { function: f, ip: 0, starts_at: base });
                Ok(())
            },
            Value::Native(n) => {
                let args = self.call_args(base);
                let result = host.call_native(n, args.as_slice());
                self.stack.truncate(base);
                self.stack.push(result);
                assert(self.stack@.subrange(0, base as int) =~= old(self).stack@.subrange(0, base as int));
                Ok(())
            },
            _ => Err(self.runtime_error(message("Can only call functions and classes."))),
        }
    }

    /// `RETURN`: pops the result and the frame. From the outermost frame this
    /// ends the program (`Ok(true)`), popping the script's own slot; else the
    /// stack goes back to the frame's base and the result is pushed there.
    pub fn op_return(&mut self) -> (r: Result<bool, InterpretError>)
        requires
            old(self).frames@.len() > 0,
        ensures
            r == Ok::<bool, InterpretError>(true) ==> old(self).stack@.len() >= 2,
            final(self).stack@.len() <= old(self).stack@.len(),
            r is Err ==> r->Err_0 is InternalError,
            r is Err ==> fails_cleanly(r->Err_0, *final(self)),
            final(self).frames@ == old(self).frames@.drop_last(),
            final(self).globals == old(self).globals,
            final(self).functions == old(self).functions,
            final(self).strings == old(self).strings,
            final(self).output == old(self).output,
            final(self).diagnostics == old(self).diagnostics,
            old(self).stack@.len() < 1 ==> r is Err && r->Err_0 is InternalError,
            r == Ok::<bool, InterpretError>(false) ==> old(self).frames@.len() > 1,
            r == Ok::<bool, InterpretError>(true) ==> old(self).frames@.len() == 1,
            old(self).stack@.len() >= 1 && old(self).frames@.len() > 1 ==> r == Ok::<
                bool,
                InterpretError,
            >(false) && final(self).stack@ == return_stack_spec(
                old(self).stack@,
                old(self).top().starts_at as int,
            ),
            old(self).stack@.len() >= 2 && old(self).frames@.len() == 1 ==> r == Ok::<
                bool,
                InterpretError,
            >(true) && final(self).stack@ == old(self).stack@.subrange(
                0,
                old(self).stack@.len() - 2,
            ),
    {
        let frame = self.frames.pop().unwrap();
        let result = self.pop()?;
        if self.frames.len() == 0 {
            self.pop()?;
            return Ok(true);
        }
        self.stack.truncate(frame.starts_at);
        self.stack.push(result);
        assert(self.stack@ =~= return_stack_spec(old(self).stack@, frame.starts_at as int));
        Ok(false)
    }

    /// Executes one instruction of the top frame, as `step_post` states for
    /// each opcode: `Ok(true)` when the outermost frame has returned,
    /// `Ok(false)` when there is more to run.
    pub fn step<H: Host>(&mut self, host: &mut H) -> (r: Result<bool, InterpretError>)
        requires
            old(self).wf(),
            old(self).frames@.len() > 0,
        ensures
            old(self).grows_to(final(self)),
            step_post(*old(self), *final(self), r),
            r == Ok::<bool, InterpretError>(false) ==> final(self).frames@.len() > 0,
            r == Ok::<bool, InterpretError>(true) ==> final(self).frames@.len() == 0,
            r is Err ==> fails_cleanly(r->Err_0, *final(self)),
    {
        let top = self.frames.len() - 1;
        let frame = self.frames[top];
        let code = &self.functions[frame.function].chunk.code;
        let ip = frame.ip;
        if ip >= code.len() {
            return Err(InterpretError::InternalError("Failed to read byte."));
        }
        let op = match Op::from_byte(code[ip]) {
            Some(op) => op,
            None => {
                return Err(InterpretError::InternalError("Unknown opcode."));
            },
        };
        let width = 1 + op.operand_count();
        if width > code.len() - ip {
            return Err(InterpretError::InternalError("Failed to read byte."));
        }
        let arg: usize = if width >= 2 { code[ip + 1] as usize } else { 0 };
        let offset: usize = if width == 3 {
            (code[ip + 1] as usize) * 256 + code[ip + 2] as usize
        } else {
            0
        };
        let code_len = code.len();
        let next = ip + width;
        self.set_ip(next);
        match op {
            Op::Constant => {
                let constants = &self.functions[frame.function].chunk.constants;
                if arg >= constants.len() {
                    return Err(InterpretError::InternalError("Failed to read constant."));
                }
                let v = constants[arg];
                self.stack.push(v);
            },
            Op::Nil => self.stack.push(Value::Nil),
            Op::True => self.stack.push(Value::Bool(true)),
            Op::False => self.stack.push(Value::Bool(false)),
            Op::Pop => {
                self.pop()?;
            },
            Op::GetLocal => {
                self.op_get_local(arg)?;
            },
            Op::SetLocal => self.op_set_local(arg)?,
            Op::GetGlobal | Op::DefineGlobal | Op::SetGlobal => {
                let name = match self.global_name(frame.function, arg) {
                    Some(h) => h,
                    None => {
                        return Err(InterpretError::InternalError("Value was not a string."));
                    },
                };
                if op == Op::GetGlobal {
                    self.op_get_global(name)?;
                    } else if op == Op::DefineGlobal {
                    self.op_define_global(name)?;
                    } else {
                    self.op_set_global(name)?;
                    }
            },
            Op::Equal => {
                self.op_equal()?;
            },
            Op::Greater | Op::Less => self.op_compare(op)?,
            Op::Add => {
                self.op_arith(Arith::Add, host)?;
            },
            Op::Subtract => self.op_arith(Arith::Subtract, host)?,
            Op::Multiply => self.op_arith(Arith::Multiply, host)?,
            Op::Divide => self.op_arith(Arith::Divide, host)?,
            Op::Not => self.op_not()?,
            Op::Negate => self.op_negate()?,
            Op::Print => {
                self.op_print(host)?;
            },
            Op::Jump => {
                if offset > code_len - next {
                    return Err(InterpretError::InternalError("Jump out of range."));
                }
                self.set_ip(next + offset);
                assert(self.frames@ =~= old(self).frames@.update(
                    old(self).frames@.len() - 1,
                    CallFrame { ip: (next + offset) as usize, ..old(self).top() },
                ));
            },
            Op::JumpIfFalse => {
                let v = self.peek(0)?;
                if v.is_falsy() {
                    if offset > code_len - next {
                        return Err(InterpretError::InternalError("Jump out of range."));
                    }
                    self.set_ip(next + offset);
                    assert(self.frames@ =~= old(self).frames@.update(
                        old(self).frames@.len() - 1,
                        CallFrame { ip: (next + offset) as usize, ..old(self).top() },
                    ));
                }
            },
            Op::Loop => {
                if offset > next {
                    return Err(InterpretError::InternalError("Loop out of range."));
                }
                self.set_ip(next - offset);
                assert(self.frames@ =~= old(self).frames@.update(
                    old(self).frames@.len() - 1,
                    CallFrame { ip: (next - offset) as usize, ..old(self).top() },
                ));
            },
            Op::Call => {
                self.op_call(arg, host)?;
            },
            Op::Return => {
                assert(self.top().starts_at == old(self).top().starts_at);
                assert(self.frames@.len() == old(self).frames@.len());
                let ghost mid = *self;
                let r = self.op_return();
                assert(self.frames@ =~= old(self).frames@.drop_last());
                proof {
                    let k = old(self).stack@.len();
                    if k >= 1 && old(self).frames@.len() > 1 {
                        assert(r == Ok::<bool, InterpretError>(false));
                        assert(self.stack@ == return_stack_spec(old(self).stack@, old(self).top().starts_at as int));
                    } else if k >= 2 && old(self).frames@.len() == 1 {
                        assert(r == Ok::<bool, InterpretError>(true));
                    } else {
                        assert(mid.stack@.len() == k);
                        assert(mid.frames@.len() == old(self).frames@.len());
                        assert(r != Ok::<bool, InterpretError>(false));
                        assert(r != Ok::<bool, InterpretError>(true));
                        assert(r is Err) by {
                            if r is Ok {
                                assert(r == Ok::<bool, InterpretError>(r->Ok_0));
                            }
                        }
                    }
                }
                return r;
            },
        }
        Ok(false)
    }

    /// The handle that constant `index` of function `f` holds, if it is a
    /// string the interner knows.
    fn global_name(&self, f: usize, index: usize) -> (r: Option<usize>)
        requires
            f < self.functions@.len(),
        ensures
            r == global_name_spec(self.functions@[f as int].chunk.constants@, self.strings@, index as int),
    {
        let constants = &self.functions[f].chunk.constants;
        if index < constants.len() {
            match constants[index] {
                Value::String(h) => if h < self.strings.texts.len() { Some(h) } else { None },
                _ => None,
            }
        } else {
            None
        }
    }

    /// Runs instructions until the outermost frame returns or an error stops
    /// it. The result is what repeated steps reach (see `run_trace`): a run of
    /// `Ok(false)` steps, then the step that returned or failed; or, with no
    /// frame to run or after `STEP_LIMIT` steps, an internal error.
    pub fn run<H: Host>(&mut self, host: &mut H) -> (r: Result<(), InterpretError>)
        requires
            old(self).wf(),
        ensures
            exists|trace: Seq<VM>| run_trace(*old(self), trace, *final(self), r),
            r is Err ==> fails_cleanly(r->Err_0, *final(self)),
            old(self).grows_to(final(self)),
            r is Ok ==> final(self).frames@.len() == 0,
            r == Err::<(), InterpretError>(InterpretError::RuntimeError) ==> final(self).is_reset(),
    {
        let mut fuel: u64 = STEP_LIMIT;
        let ghost mut trace: Seq<VM> = seq![*self];
        while fuel > 0
            invariant
                old(self).grows_to(self),
                self.wf(),
                trace.len() >= 1,
                trace[0] == *old(self),
                trace.last() == *self,
                steps_through(trace),
                trace.len() + fuel == STEP_LIMIT + 1,
            decreases fuel,
        {
            if self.frames.len() == 0 {
                assert(run_trace(*old(self), trace, *self, Err(InterpretError::InternalError("No frame to run."))));
                return Err(InterpretError::InternalError("No frame to run."));
            }
            let ghost before = *self;
            match self.step(host) {
                Ok(true) => {
                    assert(run_trace(*old(self), trace, *self, Ok(())));
                    return Ok(());
                },
                Ok(false) => {},
                Err(e) => {
                    assert(run_trace(*old(self), trace, *self, Err(e)));
                    return Err(e);
                },
            }
            proof {
                let t2 = trace.push(*self);
                assert forall|i: int| 0 <= i < t2.len() - 1 implies #[trigger] step_post(
                    t2[i],
                    t2[i + 1],
                    Ok::<bool, InterpretError>(false),
                ) by {
                    if i < trace.len() - 1 {
                        assert(t2[i] == trace[i] && t2[i + 1] == trace[i + 1]);
                    } else {
                        assert(t2[i] == before);
                    }
                }
                trace = t2;
            }
            fuel = fuel - 1;
        }
        assert(run_trace(*old(self), trace, *self, Err(InterpretError::InternalError("Step limit reached."))));
        Err(InterpretError::InternalError("Step limit reached."))
    }
}

/// Compiles `source` and runs it as a zero-argument call of the script
/// function. Globals, interned strings and earlier functions persist from call
/// to call. The result is a compile error exactly when compiling reported one
/// (see `compile`): then nothing runs and stack, frames and globals are as they
/// were. Otherwise the script, appended to the function table, is pushed and
/// gets a frame at its own slot, and the result is that of running it.
pub fn interpret<H: Host>(vm: &mut VM, source: &String, host: &mut H) -> (r: Result<
    (),
    InterpretError,
>)
    requires
        old(vm).wf(),
    ensures
        old(vm).grows_to(final(vm)),
        (r == Err::<(), InterpretError>(InterpretError::CompileError)) == (compiled(source).errors.len() > 0),
        r == Err::<(), InterpretError>(InterpretError::CompileError) ==> final(vm).diagnostics@.map_values(
            |e: Vec<u8>| e@,
        ) == old(vm).diagnostics@.map_values(|e: Vec<u8>| e@) + compiled(source).errors,
        r == Err::<(), InterpretError>(InterpretError::CompileError) ==> final(vm).stack == old(
            vm,
        ).stack && final(vm).frames == old(vm).frames && final(vm).globals == old(vm).globals
            && final(vm).diagnostics@.len() > old(vm).diagnostics@.len(),
        r != Err::<(), InterpretError>(InterpretError::CompileError) ==> exists|start: VM, trace: Seq<VM>|
            {
                &&& start.stack@ == old(vm).stack@.push(Value::Function(old(vm).functions@.len() as usize))
                &&& start.frames@ == old(vm).frames@.push(
                    CallFrame {
                        function: old(vm).functions@.len() as usize,
                        ip: 0,
                        starts_at: old(vm).stack@.len() as usize,
                    },
                )
                &&& start.globals == old(vm).globals
                &&& start.output == old(vm).output
                &&& start.diagnostics@ == old(vm).diagnostics@
                &&& start.functions@.len() == old(vm).functions@.len() + 1
                &&& start.functions@.subrange(0, old(vm).functions@.len() as int) == old(vm).functions@
                &&& start.functions@.last().arity == 0
                &&& crate::chunk::well_formed_code(start.functions@.last().chunk.code@)
                &&& start.functions@.last().chunk.constants_ok()
                &&& start.functions@.last().chunk.code@ == compiled(source).code
                &&& start.functions@.last().chunk.constants@.map_values(|v: Value| const_view(v, start.strings@))
                    == compiled(source).consts
                &&& run_trace(start, trace, *final(vm), r)
            },
        r is Ok ==> final(vm).frames@.len() == 0,
        r == Err::<(), InterpretError>(InterpretError::RuntimeError) ==> final(vm).is_reset(),
{
    let (function, ok) = compile(source, &mut vm.strings, &mut vm.diagnostics, host);
    if !ok {
        proof {
            assert(compiled(source).errors.len() > 0) by {
                if compiled(source).errors.len() == 0 {
                    assert(vm.diagnostics@.map_values(|e: Vec<u8>| e@) =~= old(vm).diagnostics@.map_values(|e: Vec<u8>| e@));
                }
            }
            if vm.diagnostics@.len() == old(vm).diagnostics@.len() {
                assert(vm.diagnostics@ =~= old(vm).diagnostics@);
            }
        }
        return Err(InterpretError::CompileError);
    }
    let index = vm.functions.len();
    let ghost fv = function;
    vm.functions.push(function);
    let base = vm.stack.len();
    vm.stack.push(Value::Function(index));
    vm.frames.push(CallFrame { function: index, ip: 0, starts_at: base });
    let ghost start = *vm;
    assert(start.functions@.subrange(0, index as int) =~= old(vm).functions@);
    let r = vm.run(host);
    proof {
        let trace = choose|t: Seq<VM>| run_trace(start, t, *vm, r);
        assert(run_trace(start, trace, *vm, r));
        assert(start.functions@.last() == fv);
    }
    r
}

} // verus!
