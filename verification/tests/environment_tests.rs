use regvm::environment::{Environment, VariableScope};
use regvm::instruction::{Identifier, Instruction, Register};
use regvm::value::Value;
use regvm::vm::VM;

#[test]
fn a_fresh_environment_has_no_bindings() {
    let env = Environment::new();
    assert!(!env.has_binding(&"x".to_string()));
    assert_eq!(env.get_binding_value(&"x".to_string()), None);
}

#[test]
fn create_initialize_and_update_a_binding() {
    let mut env = Environment::new();
    env.create_mutable_binding("x".to_string(), true, VariableScope::Function);
    assert!(env.has_binding(&"x".to_string()));
    assert_eq!(env.get_binding_value(&"x".to_string()), Some(Value::Undefined));

    env.initialize_binding(&"x".to_string(), Value::Integer(1));
    assert_eq!(env.get_binding_value(&"x".to_string()), Some(Value::Integer(1)));

    env.set_mutable_binding(&"x".to_string(), Value::Integer(2), true);
    assert_eq!(env.get_binding_value(&"x".to_string()), Some(Value::Integer(2)));

    // Other names stay unbound.
    assert!(!env.has_binding(&"y".to_string()));
}

#[test]
fn set_name_creates_the_binding_on_first_write() {
    let program = vec![
        Instruction::IntLiteral { target: Register(0), value: 5 },
        Instruction::SetName { name: Identifier("x".to_string()), source: Register(0) },
    ];
    let mut vm = VM::new(Environment::new());
    assert_eq!(vm.run(&program), Ok(Value::Integer(5)));
    assert_eq!(
        vm.environment().get_binding_value(&"x".to_string()),
        Some(Value::Integer(5))
    );

    // A second write to the same name updates the existing binding.
    let again = vec![
        Instruction::IntLiteral { target: Register(0), value: 6 },
        Instruction::SetName { name: Identifier("x".to_string()), source: Register(0) },
    ];
    assert_eq!(vm.run(&again), Ok(Value::Integer(6)));
    assert_eq!(
        vm.environment().get_binding_value(&"x".to_string()),
        Some(Value::Integer(6))
    );
}
