use regvm::compiler::{compile, CompileError};
use regvm::environment::Environment;
use regvm::expr::{BinOpKind, ConstVal, Expr, NumConst};
use regvm::instruction::{Identifier, Instruction, Register};
use regvm::value::{add_value, Value};
use regvm::vm::{RuntimeError, VM};

fn int_const(n: i32) -> Expr {
    Expr::Const(ConstVal::Int(n))
}

fn num(n: NumConst) -> Expr {
    Expr::Const(ConstVal::Num(n))
}

fn add(left: Expr, right: Expr) -> Expr {
    Expr::BinOp(BinOpKind::Add, Box::new(left), Box::new(right))
}

fn local(name: &str) -> Expr {
    Expr::Local(name.to_string())
}

fn assign(name: &str, value: Expr) -> Expr {
    Expr::Assign(Box::new(local(name)), Box::new(value))
}

/// A right-nested chain of `k` additive operations over integer constants.
fn chain(k: usize) -> Expr {
    if k == 0 {
        int_const(1)
    } else {
        add(int_const(1), chain(k - 1))
    }
}

/// Compiles the tree and runs it on a fresh machine over an empty
/// environment.
fn exec(expr: &Expr) -> Result<Value, RuntimeError> {
    let program = compile(expr).expect("the tree should compile");
    let mut vm = VM::new(Environment::new());
    vm.run(&program)
}

/// Every register index an instruction names.
fn registers_of(instruction: &Instruction) -> Vec<u8> {
    match instruction {
        Instruction::GetName { target, .. } => vec![target.0],
        Instruction::SetName { source, .. } => vec![source.0],
        Instruction::Add { target, left, right } => vec![target.0, left.0, right.0],
        Instruction::IntLiteral { target, .. } => vec![target.0],
    }
}

#[test]
fn test_compilation() {
    // "2 + 2"
    assert_eq!(exec(&add(int_const(2), int_const(2))), Ok(Value::Integer(4)));
}

#[test]
fn integer_constant_alone_runs_to_itself() {
    assert_eq!(exec(&int_const(0)), Ok(Value::Integer(0)));
    assert_eq!(exec(&int_const(42)), Ok(Value::Integer(42)));
    assert_eq!(exec(&int_const(-7)), Ok(Value::Integer(-7)));
    assert_eq!(exec(&int_const(i32::MIN)), Ok(Value::Integer(i32::MIN)));
}

#[test]
fn assignment_then_reference_yields_the_value() {
    let e = Expr::Block(vec![assign("x", int_const(3)), local("x")]);
    let program = compile(&e).expect("compiles");
    let mut vm = VM::new(Environment::new());
    assert_eq!(vm.run(&program), Ok(Value::Integer(3)));
    // An independent read against the same environment sees the binding.
    let value = vm
        .environment()
        .get_binding_value(&"x".to_string())
        .expect("x stays bound");
    assert_eq!(value, Value::Integer(3));
}

#[test]
fn chain_allocates_one_register_per_nesting_level() {
    let program = compile(&chain(3)).expect("compiles");
    let mut used: Vec<u8> = Vec::new();
    for instruction in &program {
        for r in registers_of(instruction) {
            if !used.contains(&r) {
                used.push(r);
            }
        }
    }
    used.sort();
    assert_eq!(used, vec![0, 1, 2, 3]);
}

#[test]
fn chain_at_the_register_limit_compiles() {
    let program = compile(&chain(255)).expect("compiles");
    for instruction in &program {
        for r in registers_of(instruction) {
            assert!(r <= 255);
        }
    }
    let mut vm = VM::new(Environment::new());
    assert_eq!(vm.run(&program), Ok(Value::Integer(256)));
}

#[test]
fn chain_past_the_register_limit_is_register_exhaustion() {
    assert_eq!(compile(&chain(256)), Err(CompileError::RegisterExhaustion));
}

#[test]
fn block_yields_the_last_sub_expression() {
    let e = Expr::Block(vec![assign("x", int_const(7)), int_const(2), int_const(9)]);
    let program = compile(&e).expect("compiles");
    let mut vm = VM::new(Environment::new());
    assert_eq!(vm.run(&program), Ok(Value::Integer(9)));
    // The earlier sub-expression's side effect persists.
    let value = vm
        .environment()
        .get_binding_value(&"x".to_string())
        .expect("x stays bound");
    assert_eq!(value, Value::Integer(7));
}

#[test]
fn empty_block_runs_to_the_undefined_register() {
    let program = compile(&Expr::Block(Vec::new())).expect("compiles");
    assert_eq!(program.len(), 0);
    let mut vm = VM::new(Environment::new());
    assert_eq!(vm.run(&program), Ok(Value::Undefined));
}

#[test]
fn compilation_is_deterministic() {
    let build = || Expr::Block(vec![assign("total", add(int_const(1), int_const(2))), local("total")]);
    let first = compile(&build()).expect("compiles");
    let second = compile(&build()).expect("compiles");
    assert_eq!(first, second);
}

#[test]
fn unbound_reference_fails_the_run() {
    assert_eq!(exec(&local("nowhere")), Err(RuntimeError::UnboundReference));
}

#[test]
fn unbound_reference_halts_before_later_instructions() {
    let program = vec![
        Instruction::IntLiteral { target: Register(0), value: 5 },
        Instruction::GetName { target: Register(1), name: Identifier("nowhere".to_string()) },
        Instruction::IntLiteral { target: Register(0), value: 99 },
    ];
    let mut vm = VM::new(Environment::new());
    assert_eq!(vm.run(&program), Err(RuntimeError::UnboundReference));
    // Register 0 still holds what the prefix left there: the trailing
    // instruction never ran.
    assert_eq!(vm.run(&[]), Ok(Value::Integer(5)));
}

#[test]
fn scenario_assign_then_double() {
    // x = 3; x + x
    let e = Expr::Block(vec![assign("x", int_const(3)), add(local("x"), local("x"))]);
    let program = compile(&e).expect("compiles");
    let expected = vec![
        Instruction::IntLiteral { target: Register(0), value: 3 },
        Instruction::SetName { name: Identifier("x".to_string()), source: Register(0) },
        Instruction::GetName { target: Register(0), name: Identifier("x".to_string()) },
        Instruction::GetName { target: Register(1), name: Identifier("x".to_string()) },
        Instruction::Add { target: Register(0), left: Register(0), right: Register(1) },
    ];
    assert_eq!(program, expected);
    let mut vm = VM::new(Environment::new());
    assert_eq!(vm.run(&program), Ok(Value::Integer(6)));
}

#[test]
fn scenario_integral_numeric_constants_add() {
    // 2.0 + 3.0: integral numeric constants compile as integer literals.
    let e = add(num(NumConst::Exact(2)), num(NumConst::Exact(3)));
    assert_eq!(exec(&e), Ok(Value::Integer(5)));
}

#[test]
fn scenario_fractional_constant_is_unsupported() {
    // 1.5 + 1: a fractional constant has no translation.
    let e = add(num(NumConst::Fractional), int_const(1));
    assert_eq!(compile(&e), Err(CompileError::UnsupportedConstruct));
}

#[test]
fn non_representable_numeric_constants_are_unsupported() {
    assert_eq!(compile(&num(NumConst::NotANumber)), Err(CompileError::UnsupportedConstruct));
    assert_eq!(compile(&num(NumConst::OutOfRange)), Err(CompileError::UnsupportedConstruct));
    assert_eq!(compile(&num(NumConst::Fractional)), Err(CompileError::UnsupportedConstruct));
    assert_eq!(exec(&num(NumConst::Exact(-4))), Ok(Value::Integer(-4)));
}

#[test]
fn assignment_to_a_non_variable_is_unsupported() {
    let e = Expr::Assign(Box::new(int_const(1)), Box::new(int_const(2)));
    assert_eq!(compile(&e), Err(CompileError::UnsupportedConstruct));
}

#[test]
fn operators_without_a_rule_are_unsupported() {
    for op in [BinOpKind::Sub, BinOpKind::Mul, BinOpKind::Div, BinOpKind::Rem] {
        let e = Expr::BinOp(op, Box::new(int_const(1)), Box::new(int_const(2)));
        assert_eq!(compile(&e), Err(CompileError::UnsupportedConstruct));
    }
}

#[test]
fn overflowing_addition_is_a_value_operation_failure() {
    let e = add(int_const(i32::MAX), int_const(1));
    assert_eq!(exec(&e), Err(RuntimeError::ValueOperationFailure));
}

#[test]
fn adding_undefined_is_a_value_operation_failure() {
    // Both operand registers still hold the undefined sentinel.
    let program = vec![Instruction::Add {
        target: Register(0),
        left: Register(0),
        right: Register(1),
    }];
    let mut vm = VM::new(Environment::new());
    assert_eq!(vm.run(&program), Err(RuntimeError::ValueOperationFailure));
}

#[test]
fn value_addition_adds_integers() {
    assert_eq!(
        add_value(Value::Integer(20), Value::Integer(22)),
        Some(Value::Integer(42))
    );
    assert_eq!(add_value(Value::Undefined, Value::Integer(1)), None);
    assert_eq!(add_value(Value::Integer(i32::MIN), Value::Integer(-1)), None);
}
