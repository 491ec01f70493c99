//! What compiled programs mean: a direct evaluation of expression trees,
//! and the proof that compiling a tree and running the result computes
//! exactly that evaluation.

use vstd::prelude::*;

use crate::compiler::{compile_block_spec, compile_spec};
use crate::expr::{BinOpKind, ConstVal, Expr, NumConst};
use crate::instruction::{Identifier, Instruction, Register};
use crate::value::{add_value_spec, Value};
use crate::vm::{lemma_run_append, run_spec, RuntimeError};

verus! {

/// What evaluating one expression against an environment comes to: a value
/// and the bindings afterwards, or the failure that stopped it and the
/// bindings it had made by then.
pub enum Outcome {
    Success(Value, Map<Seq<char>, Value>),
    Failure(RuntimeError, Map<Seq<char>, Value>),
}

/// True when every block in the tree has at least one sub-expression.
///
/// An empty block compiles to no instructions at all, so its "value" is
/// whatever its target register already held; evaluation speaks only of
/// trees where every block's value is its last sub-expression's.
pub open spec fn blocks_nonempty(e: Expr) -> bool
    decreases e,
{
    match e {
        Expr::Const(_) => true,
        Expr::Local(_) => true,
        Expr::Assign(lhs, rhs) => blocks_nonempty(*lhs) && blocks_nonempty(*rhs),
        Expr::BinOp(_, lhs, rhs) => blocks_nonempty(*lhs) && blocks_nonempty(*rhs),
        Expr::Block(exprs) => exprs@.len() > 0 && all_blocks_nonempty(exprs@),
    }
}

/// True when every block inside any of `exprs` has a sub-expression.
pub open spec fn all_blocks_nonempty(exprs: Seq<Expr>) -> bool
    decreases exprs,
{
    if exprs.len() == 0 {
        true
    } else {
        all_blocks_nonempty(exprs.drop_last()) && blocks_nonempty(exprs.last())
    }
}

/// Evaluates an expression directly: left operand before right operand,
/// assignment writing its value back, a block yielding its last
/// sub-expression's value. It gives no meaning to shapes the compiler
/// rejects, nor to empty blocks.
pub open spec fn eval_spec(e: Expr, env: Map<Seq<char>, Value>) -> Outcome
    decreases e,
{
    match e {
        Expr::Const(ConstVal::Int(value)) => Outcome::Success(Value::Integer(value), env),
        Expr::Const(ConstVal::Num(n)) => match n {
            NumConst::Exact(value) => Outcome::Success(Value::Integer(value), env),
            _ => arbitrary(),
        },
        Expr::Local(name) => {
            if env.dom().contains(name@) {
                Outcome::Success(env[name@], env)
            } else {
                Outcome::Failure(RuntimeError::UnboundReference, env)
            }
        },
        Expr::Assign(lhs, rhs) => match *lhs {
            Expr::Local(name) => match eval_spec(*rhs, env) {
                Outcome::Success(value, env1) => Outcome::Success(
                    value,
                    env1.insert(name@, value),
                ),
                Outcome::Failure(error, env1) => Outcome::Failure(error, env1),
            },
            _ => arbitrary(),
        },
        Expr::BinOp(op, lhs, rhs) => match op {
            BinOpKind::Add => match eval_spec(*lhs, env) {
                Outcome::Success(left_value, env1) => match eval_spec(*rhs, env1) {
                    Outcome::Success(right_value, env2) => {
                        match add_value_spec(left_value, right_value) {
                            Some(value) => Outcome::Success(value, env2),
                            None => Outcome::Failure(RuntimeError::ValueOperationFailure, env2),
                        }
                    },
                    Outcome::Failure(error, env2) => Outcome::Failure(error, env2),
                },
                Outcome::Failure(error, env1) => Outcome::Failure(error, env1),
            },
            _ => arbitrary(),
        },
        Expr::Block(exprs) => eval_block_spec(exprs@, env),
    }
}

/// Evaluates a block's sub-expressions in order, each one's binding effects
/// carrying into the next; the last one's value is the block's.
pub open spec fn eval_block_spec(exprs: Seq<Expr>, env: Map<Seq<char>, Value>) -> Outcome
    decreases exprs,
{
    if exprs.len() == 0 {
        arbitrary()
    } else if exprs.len() == 1 {
        eval_spec(exprs.last(), env)
    } else {
        match eval_block_spec(exprs.drop_last(), env) {
            Outcome::Success(ignored, env1) => eval_spec(exprs.last(), env1),
            Outcome::Failure(error, env1) => Outcome::Failure(error, env1),
        }
    }
}

/// The compiler is correct: running what `compile_spec` emits for a tree
/// computes exactly what `eval_spec` says of that tree.
///
/// From a full register file, the compiled code leaves the tree's value in
/// the target register on success, reproduces the evaluation's bindings and
/// failure exactly, and never touches a register below the target -- the
/// discipline that lets an enclosing addition keep its left operand safe.
pub proof fn lemma_compile_correct(e: Expr, target: u8, regs: Seq<Value>, env: Map<Seq<char>, Value>)
    requires
        regs.len() == 256,
        blocks_nonempty(e),
        compile_spec(target, e).1 is None,
    ensures
        ({
            let (regs1, env1, err) = run_spec(compile_spec(target, e).0, regs, env);
            regs1.len() == 256 && (forall|j: int| 0 <= j < target ==> regs1[j] == regs[j])
                && (match eval_spec(e, env) {
                Outcome::Success(value, env_after) => err is None && env1 == env_after && regs1[target as int] == value,
                Outcome::Failure(error, env_after) => err == Some(error) && env1 == env_after,
            })
        }),
    decreases e,
{
    reveal_with_fuel(run_spec, 3);
    let code = compile_spec(target, e).0;
    match e {
        Expr::Const(ConstVal::Int(value)) => {
            assert(code.drop_first() =~= Seq::<Instruction>::empty());
        },
        Expr::Const(ConstVal::Num(n)) => {
            assert(n matches NumConst::Exact(_));
            assert(code.drop_first() =~= Seq::<Instruction>::empty());
        },
        Expr::Local(name) => {
            assert(code.drop_first() =~= Seq::<Instruction>::empty());
        },
        Expr::Assign(lhs, rhs) => {
            assert(*lhs matches Expr::Local(_));
            let name = (*lhs)->Local_0;
            let rhs_code = compile_spec(target, *rhs).0;
            let set = Instruction::SetName {
                name: Identifier(name),
                source: Register(target),
            };
            assert(code =~= rhs_code + seq![set]);
            lemma_compile_correct(*rhs, target, regs, env);
            lemma_run_append(rhs_code, seq![set], regs, env);
            match eval_spec(*rhs, env) {
                Outcome::Success(value, env1) => {
                    let (regs1, env1r, err1) = run_spec(rhs_code, regs, env);
                    assert(seq![set].drop_first() =~= Seq::<Instruction>::empty());
                },
                Outcome::Failure(error, env1) => {},
            }
        },
        Expr::BinOp(op, lhs, rhs) => {
            assert(op == BinOpKind::Add);
            assert(target < 255);
            let next = (target + 1) as u8;
            let left_code = compile_spec(target, *lhs).0;
            let right_code = compile_spec(next, *rhs).0;
            let add = Instruction::Add {
                target: Register(target),
                left: Register(target),
                right: Register(next),
            };
            assert(code == left_code + right_code + seq![add]);
            lemma_compile_correct(*lhs, target, regs, env);
            assert(left_code + right_code + seq![add] =~= left_code + (right_code + seq![add]));
            lemma_run_append(left_code, right_code + seq![add], regs, env);
            match eval_spec(*lhs, env) {
                Outcome::Success(left_value, env1) => {
                    let (regs1, env1r, err1) = run_spec(left_code, regs, env);
                    lemma_compile_correct(*rhs, next, regs1, env1);
                    lemma_run_append(right_code, seq![add], regs1, env1);
                    match eval_spec(*rhs, env1) {
                        Outcome::Success(right_value, env2) => {
                            let (regs2, env2r, err2) = run_spec(right_code, regs1, env1);
                            assert(regs2[target as int] == left_value);
                            assert(seq![add].drop_first() =~= Seq::<Instruction>::empty());
                        },
                        Outcome::Failure(error, env2) => {},
                    }
                },
                Outcome::Failure(error, env1) => {},
            }
        },
        Expr::Block(exprs) => {
            lemma_compile_block_correct(exprs@, target, regs, env);
        },
    }
}

/// An integer constant compiled alone and run on a fresh register file
/// yields exactly that integer, whatever the environment holds.
pub proof fn lemma_integer_constant_runs_to_itself(n: i32, env: Map<Seq<char>, Value>)
    ensures
        ({
            let e = Expr::Const(ConstVal::Int(n));
            let (code, compile_err) = compile_spec(0, e);
            let (regs1, env1, run_err) = run_spec(
                code,
                Seq::new(256, |i: int| Value::Undefined),
                env,
            );
            compile_err is None && run_err is None && regs1[0] == Value::Integer(n) && env1 == env
        }),
{
    lemma_compile_correct(
        Expr::Const(ConstVal::Int(n)),
        0,
        Seq::new(256, |i: int| Value::Undefined),
        env,
    );
}

/// Assigning a variable and then reading it back inside one block yields
/// the assigned value, and the binding persists: the run's final
/// environment still maps the name to that value, so an independent read
/// against it yields the value again.
pub proof fn lemma_assign_then_read(
    e: Expr,
    name: String,
    rhs: Expr,
    value: Value,
    regs: Seq<Value>,
    env: Map<Seq<char>, Value>,
    env_rhs: Map<Seq<char>, Value>,
)
    requires
        regs.len() == 256,
        e matches Expr::Block(exprs) && exprs@.len() == 2 && (exprs@[0] matches Expr::Assign(
            lhs,
            r,
        ) && *lhs == Expr::Local(name) && *r == rhs) && exprs@[1] == Expr::Local(name),
        blocks_nonempty(rhs),
        compile_spec(0, rhs).1 is None,
        eval_spec(rhs, env) == Outcome::Success(value, env_rhs),
    ensures
        ({
            let (code, compile_err) = compile_spec(0, e);
            let (regs1, env1, run_err) = run_spec(code, regs, env);
            compile_err is None && run_err is None && regs1[0] == value && env1 == env_rhs.insert(
                name@,
                value,
            ) && env1.dom().contains(name@) && env1[name@] == value
        }),
{
    match e {
        Expr::Block(exprs) => {
            let es = exprs@;
            let first = es[0];
            let head = es.drop_last();
            assert(head.len() == 1);
            assert(head.last() == first);
            assert(es.last() == es[1]);
            assert(head.drop_last() =~= Seq::<Expr>::empty());
            assert(all_blocks_nonempty(Seq::<Expr>::empty()));
            assert(blocks_nonempty(Expr::Local(name)));
            assert(blocks_nonempty(first));
            assert(all_blocks_nonempty(head));
            assert(blocks_nonempty(es.last()));
            assert(all_blocks_nonempty(es));
            assert(blocks_nonempty(e));
            assert(compile_block_spec(0, Seq::<Expr>::empty()) == (
                Seq::<Instruction>::empty(),
                None::<crate::compiler::CompileError>,
            ));
            assert(compile_spec(0, first).1 is None);
            assert(compile_block_spec(0, head).1 is None);
            assert(compile_spec(0, es.last()).1 is None);
            assert(compile_block_spec(0, es).1 is None);
            assert(compile_spec(0, e).1 is None);
            let env_assigned = env_rhs.insert(name@, value);
            assert(eval_spec(first, env) == Outcome::Success(value, env_assigned));
            assert(eval_block_spec(head, env) == Outcome::Success(value, env_assigned));
            assert(env_assigned.dom().contains(name@) && env_assigned[name@] == value);
            assert(eval_spec(es.last(), env_assigned) == Outcome::Success(value, env_assigned));
            assert(eval_block_spec(es, env) == Outcome::Success(value, env_assigned));
            assert(eval_spec(e, env) == Outcome::Success(value, env_assigned));
            lemma_compile_correct(e, 0, regs, env);
        },
        _ => {},
    }
}

/// A block's run yields exactly its last sub-expression's value, while the
/// binding effects of the earlier sub-expressions persist: the run ends in
/// the bindings the last sub-expression's evaluation produced out of the
/// environment the earlier ones left behind.
pub proof fn lemma_block_yields_last(
    e: Expr,
    dropped: Value,
    env_prefix: Map<Seq<char>, Value>,
    value: Value,
    env_last: Map<Seq<char>, Value>,
    regs: Seq<Value>,
    env: Map<Seq<char>, Value>,
)
    requires
        regs.len() == 256,
        blocks_nonempty(e),
        compile_spec(0, e).1 is None,
        e matches Expr::Block(exprs) && ({
            &&& exprs@.len() > 1 ==> eval_block_spec(exprs@.drop_last(), env) == Outcome::Success(
                dropped,
                env_prefix,
            )
            &&& exprs@.len() == 1 ==> env_prefix == env
            &&& eval_spec(exprs@.last(), env_prefix) == Outcome::Success(value, env_last)
        }),
    ensures
        ({
            let (regs1, env1, run_err) = run_spec(compile_spec(0, e).0, regs, env);
            run_err is None && regs1[0] == value && env1 == env_last
        }),
{
    match e {
        Expr::Block(exprs) => {
            assert(eval_block_spec(exprs@, env) == Outcome::Success(value, env_last));
            assert(eval_spec(e, env) == Outcome::Success(value, env_last));
            lemma_compile_correct(e, 0, regs, env);
        },
        _ => {},
    }
}

/// The block form of the correctness theorem: running the code of a
/// nonempty block computes `eval_block_spec` of its sub-expressions.
proof fn lemma_compile_block_correct(
    exprs: Seq<Expr>,
    target: u8,
    regs: Seq<Value>,
    env: Map<Seq<char>, Value>,
)
    requires
        regs.len() == 256,
        exprs.len() > 0,
        all_blocks_nonempty(exprs),
        compile_block_spec(target, exprs).1 is None,
    ensures
        ({
            let (regs1, env1, err) = run_spec(compile_block_spec(target, exprs).0, regs, env);
            regs1.len() == 256 && (forall|j: int| 0 <= j < target ==> regs1[j] == regs[j])
                && (match eval_block_spec(exprs, env) {
                Outcome::Success(value, env_after) => err is None && env1 == env_after && regs1[target as int] == value,
                Outcome::Failure(error, env_after) => err == Some(error) && env1 == env_after,
            })
        }),
    decreases exprs,
{
    let code = compile_block_spec(target, exprs).0;
    if exprs.len() == 1 {
        assert(exprs.drop_last().len() == 0);
        assert(compile_block_spec(target, exprs.drop_last()) == (
            Seq::<Instruction>::empty(),
            None::<crate::compiler::CompileError>,
        ));
        assert(code =~= compile_spec(target, exprs.last()).0);
        lemma_compile_correct(exprs.last(), target, regs, env);
    } else {
        let prefix_code = compile_block_spec(target, exprs.drop_last()).0;
        let last_code = compile_spec(target, exprs.last()).0;
        assert(compile_block_spec(target, exprs.drop_last()).1 is None);
        assert(code == prefix_code + last_code);
        lemma_compile_block_correct(exprs.drop_last(), target, regs, env);
        lemma_run_append(prefix_code, last_code, regs, env);
        match eval_block_spec(exprs.drop_last(), env) {
            Outcome::Success(value, env1) => {
                let (regs1, env1r, err1) = run_spec(prefix_code, regs, env);
                lemma_compile_correct(exprs.last(), target, regs1, env1);
            },
            Outcome::Failure(error, env1) => {},
        }
    }
}

} // verus!
