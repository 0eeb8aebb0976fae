use rustlox::chunk::{Chunk, Op};
use rustlox::compiler::compile;
use rustlox::host::{Arith, Host};
use rustlox::text::Interner;
use rustlox::value::{Function, Value};
use rustlox::vm::{interpret, InterpretError, VM};

struct F64Host;

impl Host for F64Host {
    fn parse_number(&mut self, lexeme: &[u8]) -> u64 {
        let text = std::str::from_utf8(lexeme).unwrap();
        text.parse::<f64>().unwrap().to_bits()
    }

    fn arithmetic(&mut self, op: Arith, a: u64, b: u64) -> u64 {
        let (x, y) = (f64::from_bits(a), f64::from_bits(b));
        let r = match op {
            Arith::Add => x + y,
            Arith::Subtract => x - y,
            Arith::Multiply => x * y,
            Arith::Divide => x / y,
        };
        r.to_bits()
    }

    fn number_text(&mut self, n: u64) -> Vec<u8> {
        format!("{}", f64::from_bits(n)).into_bytes()
    }

    fn call_native(&mut self, _native: usize, _args: &[Value]) -> Value {
        Value::Number(0.0f64.to_bits())
    }
}

fn text_lines(lines: &Vec<Vec<u8>>) -> Vec<String> {
    lines.iter().map(|l| String::from_utf8(l.clone()).unwrap()).collect()
}

fn run(source: &str) -> (VM, Result<(), InterpretError>) {
    let mut vm = VM::new();
    let mut host = F64Host;
    let r = interpret(&mut vm, &source.to_string(), &mut host);
    (vm, r)
}

fn handle_of(vm: &VM, name: &str) -> usize {
    vm.strings.texts.iter().position(|t| t.as_slice() == name.as_bytes()).unwrap()
}

/// Adds a function to the VM's table and returns its index.
fn add_function(vm: &mut VM, arity: usize, name: &str, code: &[u8], constants: Vec<Value>) -> usize {
    let handle = vm.strings.intern(name.as_bytes());
    let mut f = Function::new(arity, handle);
    for b in code {
        f.chunk.write(*b, 1);
    }
    f.chunk.constants = constants;
    vm.functions.push(f);
    vm.functions.len() - 1
}

/// Starts a zero-argument call of function `f` as the outermost frame.
fn start(vm: &mut VM, f: usize, host: &mut F64Host) {
    vm.stack.push(Value::Function(f));
    vm.op_call(0, host).unwrap();
}

fn b(op: Op) -> u8 {
    op.to_byte()
}

#[test]
fn print_one_plus_two() {
    let (vm, r) = run("print 1 + 2;");
    assert!(r.is_ok());
    assert_eq!(text_lines(&vm.output), vec!["3"]);
}

#[test]
fn concatenates_strings() {
    let (vm, r) = run("var a = \"foo\"; var b = \"bar\"; print a + b;");
    assert!(r.is_ok());
    assert_eq!(text_lines(&vm.output), vec!["foobar"]);
}

#[test]
fn adding_string_and_number_is_runtime_error() {
    let (vm, r) = run("print \"x\" + 1;");
    assert!(r == Err(InterpretError::RuntimeError));
    assert!(vm.stack.is_empty());
    assert!(vm.frames.is_empty());
    assert!(vm.output.is_empty());
    assert_eq!(
        text_lines(&vm.diagnostics),
        vec!["Operands must be numbers.", "[line 1] in script"]
    );
}

#[test]
fn call_and_return_restore_stack_depth() {
    let mut vm = VM::new();
    let mut host = F64Host;
    let hi = vm.strings.intern(b"hi");
    let callee = add_function(
        &mut vm,
        0,
        "f",
        &[b(Op::Constant), 0, b(Op::Print), b(Op::Nil), b(Op::Return)],
        vec![Value::String(hi)],
    );
    let script = add_function(
        &mut vm,
        0,
        "",
        &[b(Op::Constant), 0, b(Op::Call), 0, b(Op::Pop), b(Op::Nil), b(Op::Return)],
        vec![Value::Function(callee)],
    );
    start(&mut vm, script, &mut host);
    let depth_before = vm.stack.len();
    assert_eq!(vm.step(&mut host), Ok(false));
    assert_eq!(vm.stack.len(), depth_before + 1);
    assert_eq!(vm.step(&mut host), Ok(false));
    assert_eq!(vm.frames.len(), 2);
    assert_eq!(vm.frames[1].starts_at, depth_before);
    for _ in 0..4 {
        assert_eq!(vm.step(&mut host), Ok(false));
    }
    assert_eq!(vm.frames.len(), 1);
    assert_eq!(vm.stack.len(), depth_before + 1);
    assert!(matches!(vm.stack[depth_before], Value::Nil));
    assert_eq!(vm.run(&mut host), Ok(()));
    assert!(vm.stack.is_empty());
    assert_eq!(text_lines(&vm.output), vec!["hi"]);
}

fn if_else_code() -> Vec<u8> {
    vec![
        b(Op::JumpIfFalse), 0, 6,
        b(Op::Pop), b(Op::True), b(Op::Print),
        b(Op::Jump), 0, 3,
        b(Op::Pop), b(Op::False), b(Op::Print),
        b(Op::Nil), b(Op::Return),
    ]
}

fn run_if_else(condition: Op) -> VM {
    let mut vm = VM::new();
    let mut host = F64Host;
    let mut code = vec![b(condition)];
    code.extend(if_else_code());
    let script = add_function(&mut vm, 0, "", &code, vec![]);
    start(&mut vm, script, &mut host);
    assert_eq!(vm.step(&mut host), Ok(false));
    let depth = vm.stack.len();
    assert_eq!(vm.step(&mut host), Ok(false));
    assert_eq!(vm.stack.len(), depth);
    assert_eq!(vm.step(&mut host), Ok(false));
    assert_eq!(vm.stack.len(), depth - 1);
    assert_eq!(vm.run(&mut host), Ok(()));
    assert!(vm.stack.is_empty());
    vm
}

#[test]
fn jump_if_false_keeps_condition_on_both_branches() {
    let taken = run_if_else(Op::False);
    assert_eq!(text_lines(&taken.output), vec!["false"]);
    let not_taken = run_if_else(Op::True);
    assert_eq!(text_lines(&not_taken.output), vec!["true"]);
}

#[test]
fn calling_undeclared_global_is_runtime_error() {
    let (vm, r) = run("foo();");
    assert!(r == Err(InterpretError::RuntimeError));
    assert_eq!(
        text_lines(&vm.diagnostics),
        vec!["Undefined variable 'foo'.", "[line 1] in script"]
    );
}

#[test]
fn redefining_global_keeps_last_value() {
    let (vm, r) = run("var x = 1; var x = 2;");
    assert!(r.is_ok());
    let x = handle_of(&vm, "x");
    match vm.get_global(x) {
        Some(Value::Number(n)) => assert_eq!(f64::from_bits(n), 2.0),
        _ => panic!("x is not bound to a number"),
    }
}

#[test]
fn greater_equal_with_nan_is_true() {
    let (vm, r) = run("print (0/0) >= 1; print (0/0) < 1; print 1 >= 2; print 2 >= 2;");
    assert!(r.is_ok());
    assert_eq!(text_lines(&vm.output), vec!["true", "false", "false", "true"]);
}

#[test]
fn comparisons_and_equality() {
    let (vm, r) = run(
        "print 1 < 2; print 2 > 1; print 1 <= 1; print 1 != 1; print (0/0) == (0/0); print nil == false; print \"a\" == \"a\";",
    );
    assert!(r.is_ok());
    assert_eq!(
        text_lines(&vm.output),
        vec!["true", "true", "true", "false", "false", "false", "true"]
    );
}

#[test]
fn truthiness_of_not() {
    let (vm, r) = run("print !nil; print !false; print !0; print !\"\";");
    assert!(r.is_ok());
    assert_eq!(text_lines(&vm.output), vec!["true", "true", "false", "false"]);
}

#[test]
fn precedence_and_grouping() {
    let (vm, r) = run("print 1 + 2 * 3; print (1 + 2) * 3; print 10 - 4 - 3; print -2 * 3;");
    assert!(r.is_ok());
    assert_eq!(text_lines(&vm.output), vec!["7", "9", "3", "-6"]);
}

#[test]
fn assignment_to_declared_global() {
    let (vm, r) = run("var a = 1; a = a + 1; print a; var b; print b;");
    assert!(r.is_ok());
    assert_eq!(text_lines(&vm.output), vec!["2", "nil"]);
}

#[test]
fn assignment_to_undeclared_global_is_runtime_error() {
    let (vm, r) = run("y = 1;");
    assert!(r == Err(InterpretError::RuntimeError));
    assert_eq!(text_lines(&vm.diagnostics)[0], "Undefined variable 'y'.");
    let y = handle_of(&vm, "y");
    assert!(vm.get_global(y).is_none());
}

#[test]
fn negating_non_number_is_runtime_error() {
    let (vm, r) = run("print -\"s\";");
    assert!(r == Err(InterpretError::RuntimeError));
    assert_eq!(text_lines(&vm.diagnostics)[0], "Operand must be a number.");
}

#[test]
fn calling_a_number_is_runtime_error() {
    let (vm, r) = run("var a = 1;\na();");
    assert!(r == Err(InterpretError::RuntimeError));
    assert_eq!(
        text_lines(&vm.diagnostics),
        vec!["Can only call functions and classes.", "[line 2] in script"]
    );
}

#[test]
fn native_clock_is_callable() {
    let (vm, r) = run("print clock() >= 0;");
    assert!(r.is_ok());
    assert_eq!(text_lines(&vm.output), vec!["true"]);
}

#[test]
fn arity_mismatch_is_runtime_error() {
    let mut vm = VM::new();
    let mut host = F64Host;
    let callee = add_function(&mut vm, 1, "g", &[b(Op::Nil), b(Op::Return)], vec![]);
    let script = add_function(
        &mut vm,
        0,
        "",
        &[b(Op::Constant), 0, b(Op::Call), 0, b(Op::Nil), b(Op::Return)],
        vec![Value::Function(callee)],
    );
    start(&mut vm, script, &mut host);
    assert_eq!(vm.run(&mut host), Err(InterpretError::RuntimeError));
    assert_eq!(text_lines(&vm.diagnostics)[0], "Expected 1 arguments but got 0.");
    assert!(vm.stack.is_empty() && vm.frames.is_empty());
}

#[test]
fn trace_names_functions_innermost_first() {
    let mut vm = VM::new();
    let mut host = F64Host;
    let callee = add_function(&mut vm, 0, "inner", &[b(Op::Nil), b(Op::Negate)], vec![]);
    let script = add_function(
        &mut vm,
        0,
        "",
        &[b(Op::Constant), 0, b(Op::Call), 0, b(Op::Nil), b(Op::Return)],
        vec![Value::Function(callee)],
    );
    start(&mut vm, script, &mut host);
    assert_eq!(vm.run(&mut host), Err(InterpretError::RuntimeError));
    assert_eq!(
        text_lines(&vm.diagnostics),
        vec!["Operand must be a number.", "[line 1] in inner()", "[line 1] in script"]
    );
}

#[test]
fn unknown_opcode_is_internal_error() {
    let mut vm = VM::new();
    let mut host = F64Host;
    let script = add_function(&mut vm, 0, "", &[250], vec![]);
    start(&mut vm, script, &mut host);
    assert!(matches!(vm.run(&mut host), Err(InterpretError::InternalError(_))));
}

#[test]
fn missing_operand_is_internal_error() {
    let mut vm = VM::new();
    let mut host = F64Host;
    let script = add_function(&mut vm, 0, "", &[b(Op::Constant)], vec![]);
    start(&mut vm, script, &mut host);
    assert!(matches!(vm.run(&mut host), Err(InterpretError::InternalError(_))));
}

#[test]
fn compile_error_reports_and_does_not_run() {
    let (vm, r) = run("print 1");
    assert!(r == Err(InterpretError::CompileError));
    assert!(vm.output.is_empty());
    assert_eq!(
        text_lines(&vm.diagnostics),
        vec!["[line 1] Error at end: Expect ';' after value."]
    );
}

#[test]
fn compile_reports_independent_errors() {
    let (vm, r) = run("print +;\nvar = 1;\n1 + 2 = 3;");
    assert!(r == Err(InterpretError::CompileError));
    assert_eq!(
        text_lines(&vm.diagnostics),
        vec![
            "[line 1] Error at '+': Expect expression.",
            "[line 2] Error at '=': Expect variable name.",
            "[line 3] Error at '=': Invalid assignment target.",
        ]
    );
}

#[test]
fn lexical_error_is_reported() {
    let (vm, r) = run("print \"open;");
    assert!(r == Err(InterpretError::CompileError));
    assert_eq!(text_lines(&vm.diagnostics)[0], "[line 1] Error: Unterminated string.");
}

#[test]
fn globals_persist_between_interpretations() {
    let mut vm = VM::new();
    let mut host = F64Host;
    assert!(interpret(&mut vm, &"var g = 40;".to_string(), &mut host).is_ok());
    assert!(interpret(&mut vm, &"print g + 2;".to_string(), &mut host).is_ok());
    assert_eq!(text_lines(&vm.output), vec!["42"]);
}

#[test]
fn compiled_code_disassembles_into_whole_instructions() {
    let mut strings = Interner::new();
    let mut errors = Vec::new();
    let mut host = F64Host;
    let (function, ok) = compile(&"var a = 1; print a >= 2;".to_string(), &mut strings, &mut errors, &mut host);
    assert!(ok);
    let code = &function.chunk.code;
    let instructions = function.chunk.disassemble();
    let mut offset = 0;
    for instr in &instructions {
        assert_eq!(instr.offset, offset);
        let op = instr.op.unwrap();
        assert_eq!(instr.width, 1 + op.operand_count());
        offset += instr.width;
    }
    assert_eq!(offset, code.len());
    let ops: Vec<Op> = instructions.iter().map(|i| i.op.unwrap()).collect();
    assert_eq!(
        ops,
        vec![
            Op::Constant, Op::DefineGlobal, Op::GetGlobal, Op::Constant, Op::Less, Op::Not,
            Op::Print, Op::Nil, Op::Return,
        ]
    );
}

#[test]
fn disassembly_of_cut_instruction_stops_at_end() {
    let mut chunk = Chunk::new();
    chunk.write(b(Op::Jump), 3);
    chunk.write(1, 3);
    let instructions = chunk.disassemble();
    assert_eq!(instructions.len(), 1);
    assert_eq!(instructions[0].width, 2);
    assert_eq!(instructions[0].line, 3);
}

#[test]
fn jump_operand_is_big_endian() {
    let mut chunk = Chunk::new();
    chunk.write(b(Op::Loop), 1);
    chunk.write(1, 1);
    chunk.write(2, 1);
    let (instr, next) = chunk.disassemble_instruction(0);
    assert_eq!(instr.operand, 258);
    assert_eq!(next, 3);
}

#[test]
fn constant_pool_holds_256() {
    let mut chunk = Chunk::new();
    for i in 0..256 {
        assert_eq!(chunk.add_constant(Value::Nil), Some(i as u8));
    }
    assert_eq!(chunk.add_constant(Value::Nil), None);
    assert_eq!(chunk.constants.len(), 256);
}

#[test]
fn too_many_constants_is_compile_error() {
    let mut source = String::new();
    for i in 0..300 {
        source.push_str(&format!("print {};\n", i));
    }
    let (vm, r) = run(&source);
    assert!(r == Err(InterpretError::CompileError));
    assert!(text_lines(&vm.diagnostics)[0].ends_with("Too many constants in one chunk."));
}

#[test]
fn opcode_bytes_round_trip() {
    for byte in 0..=255u8 {
        if let Some(op) = Op::from_byte(byte) {
            assert_eq!(op.to_byte(), byte);
        }
    }
    assert_eq!(Op::from_byte(25), None);
    assert_eq!(Op::Return.to_byte(), 24);
}

#[test]
fn call_expression_compiles_arguments_then_call() {
    let mut strings = Interner::new();
    let mut errors = Vec::new();
    let mut host = F64Host;
    let (function, ok) = compile(&"f(1, 2);".to_string(), &mut strings, &mut errors, &mut host);
    assert!(ok);
    let code = &function.chunk.code;
    assert_eq!(
        code.as_slice(),
        &[b(Op::GetGlobal), 0, b(Op::Constant), 1, b(Op::Constant), 2, b(Op::Call), 2, b(Op::Pop), b(Op::Nil), b(Op::Return)]
    );
}

#[test]
fn call_without_closing_paren_is_compile_error() {
    let (vm, r) = run("f(1;");
    assert!(r == Err(InterpretError::CompileError));
    assert_eq!(
        text_lines(&vm.diagnostics),
        vec!["[line 1] Error at ';': Expect ')' after arguments."]
    );
}

#[test]
fn print_texts_of_values() {
    let mut strings = Interner::new();
    let empty = strings.intern(b"");
    let name = strings.intern(b"add");
    let hey = strings.intern(b"hey");
    let functions = vec![Function::new(0, empty), Function::new(2, name)];
    let mut host = F64Host;
    let text = |v: Value, host: &mut F64Host| String::from_utf8(v.print(&strings, &functions, host)).unwrap();
    assert_eq!(text(Value::Function(0), &mut host), "script");
    assert_eq!(text(Value::Function(1), &mut host), "<fn add>");
    assert_eq!(text(Value::String(hey), &mut host), "hey");
    assert_eq!(text(Value::Number(2.5f64.to_bits()), &mut host), "2.5");
    assert_eq!(text(Value::Bool(false), &mut host), "false");
    assert_eq!(Value::Nil.println(&strings, &functions, &mut host), b"nil\n".to_vec());
}

#[test]
fn new_vm_binds_clock_to_native_zero() {
    let vm = VM::new();
    let clock = handle_of(&vm, "clock");
    assert!(matches!(vm.get_global(clock), Some(Value::Native(0))));
}

#[test]
fn native_receives_callee_and_arguments() {
    let mut vm = VM::new();
    vm.stack.push(Value::Nil);
    vm.stack.push(Value::Native(0));
    vm.stack.push(Value::Bool(true));
    let args = vm.call_args(1);
    assert_eq!(args.len(), 2);
    assert!(matches!(args[0], Value::Native(0)));
    assert!(matches!(args[1], Value::Bool(true)));
}

#[test]
fn runtime_error_keeps_earlier_globals() {
    let mut vm = VM::new();
    let mut host = F64Host;
    assert!(interpret(&mut vm, &"var kept = 7;".to_string(), &mut host).is_ok());
    assert_eq!(interpret(&mut vm, &"print -nil;".to_string(), &mut host), Err(InterpretError::RuntimeError));
    assert!(interpret(&mut vm, &"print kept;".to_string(), &mut host).is_ok());
    assert_eq!(text_lines(&vm.output), vec!["7"]);
}

fn compiled_code(source: &str) -> (Vec<u8>, bool, Vec<String>) {
    let mut strings = Interner::new();
    let mut errors = Vec::new();
    let mut host = F64Host;
    let (function, ok) = compile(&source.to_string(), &mut strings, &mut errors, &mut host);
    (function.chunk.code.clone(), ok, text_lines(&errors))
}

#[test]
fn subtraction_associates_left_below_multiplication() {
    let (code, ok, _) = compiled_code("print 1 - 2 - 3 * 4;");
    assert!(ok);
    assert_eq!(
        code,
        vec![
            b(Op::Constant), 0, b(Op::Constant), 1, b(Op::Subtract), b(Op::Constant), 2,
            b(Op::Constant), 3, b(Op::Multiply), b(Op::Subtract), b(Op::Print), b(Op::Nil),
            b(Op::Return),
        ]
    );
}

#[test]
fn var_without_initializer_defines_nil() {
    let (code, ok, _) = compiled_code("var x;");
    assert!(ok);
    assert_eq!(code, vec![b(Op::Nil), b(Op::DefineGlobal), 0, b(Op::Nil), b(Op::Return)]);
}

#[test]
fn invalid_assignment_target_still_fills_the_chunk() {
    let (code, ok, errors) = compiled_code("1 + 2 = 3;");
    assert!(!ok);
    assert_eq!(errors, vec!["[line 1] Error at '=': Invalid assignment target."]);
    assert_eq!(
        code,
        vec![b(Op::Constant), 0, b(Op::Constant), 1, b(Op::Add), b(Op::Pop), b(Op::Nil), b(Op::Return)]
    );
}

#[test]
fn compile_error_leaves_globals_unbound() {
    let (vm, r) = run("var y = 1; print ;");
    assert!(r == Err(InterpretError::CompileError));
    assert!(vm.output.is_empty());
    let y = handle_of(&vm, "y");
    assert!(vm.get_global(y).is_none());
}

#[test]
fn listing_lines_name_opcodes_and_constants() {
    let mut strings = Interner::new();
    let hi = strings.intern(b"hi");
    let mut chunk = Chunk::new();
    chunk.write(b(Op::Constant), 1);
    chunk.write(0, 1);
    chunk.write(b(Op::Return), 1);
    chunk.write(b(Op::Loop), 2);
    chunk.write(0, 2);
    chunk.write(4, 2);
    chunk.constants.push(Value::String(hi));
    let mut host = F64Host;
    let functions: Vec<Function> = Vec::new();
    let lines: Vec<String> = chunk
        .disassemble()
        .iter()
        .map(|i| String::from_utf8(chunk.instruction_text(i, &strings, &functions, &mut host)).unwrap())
        .collect();
    assert_eq!(
        lines,
        vec![
            "0000    1 OP_CONSTANT      0000 'hi'",
            "0002    | OP_RETURN",
            "0003    2 OP_LOOP             3 -> 2",
        ]
    );
}
