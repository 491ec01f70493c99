//! The virtual machine: a file of 256 registers and a binding environment,
//! executing one instruction sequence from front to back.

use vstd::prelude::*;

use crate::environment::Environment;
use crate::instruction::{Identifier, Instruction, Register};
use crate::value::{add_value, add_value_spec, Value};

verus! {

/// Why a run failed. Both failures halt execution at the instruction that
/// raised them; registers and bindings mutated before it stay mutated.
#[derive(Clone, Copy, Debug, PartialEq, Eq, Structural)]
pub enum RuntimeError {
    /// A `GetName` instruction named a variable with no binding.
    UnboundReference,
    /// Value-level addition failed on its operands.
    ValueOperationFailure,
}

/// What one instruction does to the machine: the registers and bindings
/// after it, and the failure if it raised one (in which case it changed
/// nothing).
pub open spec fn step_spec(
    instruction: Instruction,
    regs: Seq<Value>,
    env: Map<Seq<char>, Value>,
) -> (Seq<Value>, Map<Seq<char>, Value>, Option<RuntimeError>) {
    match instruction {
        Instruction::GetName { target, name } => {
            if env.dom().contains(name.0@) {
                (regs.update(target.0 as int, env[name.0@]), env, None)
            } else {
                (regs, env, Some(RuntimeError::UnboundReference))
            }
        },
        Instruction::SetName { name, source } => (
            regs,
            env.insert(name.0@, regs[source.0 as int]),
            None,
        ),
        Instruction::Add { target, left, right } => {
            match add_value_spec(regs[left.0 as int], regs[right.0 as int]) {
                Some(v) => (regs.update(target.0 as int, v), env, None),
                None => (regs, env, Some(RuntimeError::ValueOperationFailure)),
            }
        },
        Instruction::IntLiteral { target, value } => (
            regs.update(target.0 as int, Value::Integer(value)),
            env,
            None,
        ),
    }
}

/// What running an instruction sequence does to the machine: the registers
/// and bindings after the last instruction that ran, and the failure that
/// halted the run if one arose. Instructions past a failing one never run.
pub open spec fn run_spec(
    instructions: Seq<Instruction>,
    regs: Seq<Value>,
    env: Map<Seq<char>, Value>,
) -> (Seq<Value>, Map<Seq<char>, Value>, Option<RuntimeError>)
    decreases instructions.len(),
{
    if instructions.len() == 0 {
        (regs, env, None)
    } else {
        let (regs1, env1, err) = step_spec(instructions[0], regs, env);
        if err is Some {
            (regs1, env1, err)
        } else {
            run_spec(instructions.drop_first(), regs1, env1)
        }
    }
}

/// Running one sequence after another is running their concatenation: the
/// second starts from the first's final state, and never starts at all when
/// the first fails.
pub proof fn lemma_run_append(
    first: Seq<Instruction>,
    second: Seq<Instruction>,
    regs: Seq<Value>,
    env: Map<Seq<char>, Value>,
)
    ensures
        run_spec(first + second, regs, env) == ({
            let (regs1, env1, err) = run_spec(first, regs, env);
            if err is Some {
                (regs1, env1, err)
            } else {
                run_spec(second, regs1, env1)
            }
        }),
    decreases first.len(),
{
    if first.len() == 0 {
        assert(first + second =~= second);
    } else {
        assert((first + second)[0] == first[0]);
        assert((first + second).drop_first() =~= first.drop_first() + second);
        let (regs1, env1, err) = step_spec(first[0], regs, env);
        if !(err is Some) {
            lemma_run_append(first.drop_first(), second, regs1, env1);
        }
    }
}

/// A read of an unbound name halts the run exactly where it stands: the
/// failure is `UnboundReference`, the instructions after the read never
/// run, and every register -- register 0 included -- and every binding
/// keeps the value it had when the read was reached.
pub proof fn lemma_unbound_read_halts(
    prefix: Seq<Instruction>,
    target: Register,
    name: Identifier,
    suffix: Seq<Instruction>,
    regs: Seq<Value>,
    env: Map<Seq<char>, Value>,
)
    requires
        run_spec(prefix, regs, env).2 is None,
        !run_spec(prefix, regs, env).1.dom().contains(name.0@),
    ensures
        ({
            let (regs1, env1, err) = run_spec(prefix, regs, env);
            run_spec(prefix + seq![Instruction::GetName { target, name }] + suffix, regs, env)
                == (regs1, env1, Some(RuntimeError::UnboundReference))
        }),
{
    let read = seq![Instruction::GetName { target, name }];
    assert(prefix + read + suffix =~= prefix + (read + suffix));
    lemma_run_append(prefix, read + suffix, regs, env);
    assert((read + suffix)[0] == (Instruction::GetName { target, name }));
}

/// The number of slots in the register file.
pub const REGISTER_COUNT: usize = 256;

/// A virtual machine: a fixed file of 256 registers, all starting as the
/// undefined value, and the environment the caller supplied.
#[derive(Debug)]
pub struct VM {
    environment: Environment,
    registers: Vec<Value>,
}

impl VM {
    /// Internal validity: the register file has exactly 256 slots and the
    /// environment's bindings are uniquely named.
    pub closed spec fn wf(self) -> bool {
        self.registers@.len() == 256 && self.environment.wf()
    }

    /// The register file's contents.
    pub closed spec fn regs(self) -> Seq<Value> {
        self.registers@
    }

    /// The environment's bindings.
    pub closed spec fn bindings(self) -> Map<Seq<char>, Value> {
        self.environment@
    }

    /// A fresh machine over the given environment, every register holding
    /// the undefined value.
    pub fn new(environment: Environment) -> (vm: VM)
        requires
            environment.wf(),
        ensures
            vm.wf(),
            vm.regs() == Seq::new(256, |i: int| Value::Undefined),
            vm.bindings() == environment@,
    {
        let mut registers: Vec<Value> = Vec::new();
        let mut i: usize = 0;
        while i < REGISTER_COUNT
            invariant
                i <= 256,
                registers@.len() == i,
                forall|j: int| 0 <= j < i ==> registers@[j] == Value::Undefined,
            decreases 256 - i,
        {
            registers.push(Value::Undefined);
            i += 1;
        }
        let vm = VM { environment, registers };
        proof {
            assert(vm.regs() =~= Seq::new(256, |i: int| Value::Undefined));
        }
        vm
    }

    /// Read-only access to the environment, for whoever drove the run.
    pub fn environment(&self) -> (env: &Environment)
        ensures
            env@ == self.bindings(),
            self.wf() ==> env.wf(),
    {
        &self.environment
    }

    /// The current value of one register.
    fn get(&self, register: Register) -> (v: Value)
        requires
            self.wf(),
        ensures
            v == self.regs()[register.0 as int],
    {
        self.registers[register.0 as usize]
    }

    /// Replaces the value of one register.
    fn set(&mut self, target: Register, value: Value)
        requires
            old(self).wf(),
        ensures
            final(self).wf(),
            final(self).regs() == old(self).regs().update(target.0 as int, value),
            final(self).bindings() == old(self).bindings(),
    {
        self.registers[target.0 as usize] = value;
    }

    /// Executes the instructions in order, halting at the first failure,
    /// and yields the value left in register 0 after the last one ran.
    ///
    /// The registers and bindings afterwards are exactly what `run_spec`
    /// says of the sequence: on failure they stay as the failing
    /// instruction found them.
    pub fn run(&mut self, instructions: &[Instruction]) -> (r: Result<Value, RuntimeError>)
        requires
            old(self).wf(),
        ensures
            final(self).wf(),
            ({
                let (regs1, env1, err) = run_spec(
                    instructions@,
                    old(self).regs(),
                    old(self).bindings(),
                );
                final(self).regs() == regs1 && final(self).bindings() == env1 && (match r {
                    Ok(v) => err is None && v == regs1[0],
                    Err(e) => err == Some(e),
                })
            }),
    {
        let n = instructions.len();
        let mut index: usize = 0;
        proof {
            assert(instructions@.subrange(0, n as int) =~= instructions@);
        }
        while index < n
            invariant
                index <= n,
                n == instructions@.len(),
                self.wf(),
                run_spec(instructions@, old(self).regs(), old(self).bindings()) == run_spec(
                    instructions@.subrange(index as int, n as int),
                    self.regs(),
                    self.bindings(),
                ),
            decreases n - index,
        {
            let ghost remaining = instructions@.subrange(index as int, n as int);
            let ghost prev_regs = self.regs();
            let ghost prev_env = self.bindings();
            proof {
                assert(remaining[0] == instructions@[index as int]);
                assert(remaining.drop_first() =~= instructions@.subrange(
                    index as int + 1,
                    n as int,
                ));
            }
            match &instructions[index] {
                Instruction::GetName { target, name } => {
                    match self.environment.get_binding_value(&name.0) {
                        Some(value) => {
                            self.set(*target, value);
                        },
                        None => {
                            return Err(RuntimeError::UnboundReference);
                        },
                    }
                },
                Instruction::SetName { name, source } => {
                    let value = self.get(*source);
                    if self.environment.has_binding(&name.0) {
                        self.environment.set_mutable_binding(&name.0, value, true);
                    } else {
                        self.environment.create_mutable_binding(
                            name.0.clone(),
                            true,
                            crate::environment::VariableScope::Function,
                        );
                        self.environment.initialize_binding(&name.0, value);
                        proof {
                            assert(self.bindings() =~= prev_env.insert(
                                name.0@,
                                prev_regs[source.0 as int],
                            ));
                        }
                    }
                },
                Instruction::Add { target, left, right } => {
                    let lhs = self.get(*left);
                    let rhs = self.get(*right);
                    match add_value(lhs, rhs) {
                        Some(value) => {
                            self.set(*target, value);
                        },
                        None => {
                            return Err(RuntimeError::ValueOperationFailure);
                        },
                    }
                },
                Instruction::IntLiteral { target, value } => {
                    self.set(*target, Value::Integer(*value));
                },
            }
            index += 1;
        }
        proof {
            assert(instructions@.subrange(n as int, n as int) =~= Seq::<Instruction>::empty());
        }
        Ok(self.get(Register(0)))
    }
}

} // verus!

