//! The compiler: a single-pass, depth-first translator from expression-tree
//! nodes to a flat instruction sequence, carrying a target register downward.
//!
//! Register allocation is linear and non-reusing: each nested additive
//! operation claims the next register index, and translation fails rather
//! than let an index wrap past the file's 256 slots.

use vstd::prelude::*;

use crate::expr::{BinOpKind, ConstVal, Expr, NumConst};
use crate::instruction::{Identifier, Instruction, Register};

verus! {

/// Why a compilation failed. Both failures are fatal: no instruction
/// sequence is usable once one is raised.
#[derive(Clone, Copy, Debug, PartialEq, Eq, Structural)]
pub enum CompileError {
    /// A node shape with no translation rule: an assignment target that is
    /// not a plain variable, an operator other than addition, or a numeric
    /// constant not exactly representable as a 32-bit signed integer.
    UnsupportedConstruct,
    /// A nested additive operation would need a register index past 255.
    RegisterExhaustion,
}

/// What compiling one node into `target` emits: the instructions produced
/// before the translation finished or failed, and the failure if one arose.
pub open spec fn compile_spec(target: u8, e: Expr) -> (Seq<Instruction>, Option<CompileError>)
    decreases e,
{
    match e {
        Expr::Const(ConstVal::Int(value)) => (
            seq![Instruction::IntLiteral { target: Register(target), value }],
            None,
        ),
        Expr::Const(ConstVal::Num(n)) => match n {
            NumConst::Exact(value) => (
                seq![Instruction::IntLiteral { target: Register(target), value }],
                None,
            ),
            _ => (Seq::empty(), Some(CompileError::UnsupportedConstruct)),
        },
        Expr::Local(name) => (
            seq![Instruction::GetName { target: Register(target), name: Identifier(name) }],
            None,
        ),
        Expr::Assign(lhs, rhs) => match *lhs {
            Expr::Local(name) => {
                let (code, err) = compile_spec(target, *rhs);
                if err is Some {
                    (code, err)
                } else {
                    (
                        code.push(
                            Instruction::SetName { name: Identifier(name), source: Register(target) },
                        ),
                        None,
                    )
                }
            },
            _ => (Seq::empty(), Some(CompileError::UnsupportedConstruct)),
        },
        Expr::BinOp(op, lhs, rhs) => match op {
            BinOpKind::Add => {
                let (left_code, left_err) = compile_spec(target, *lhs);
                if left_err is Some {
                    (left_code, left_err)
                } else if target == 255 {
                    (left_code, Some(CompileError::RegisterExhaustion))
                } else {
                    let (right_code, right_err) = compile_spec((target + 1) as u8, *rhs);
                    if right_err is Some {
                        (left_code + right_code, right_err)
                    } else {
                        (
                            left_code + right_code + seq![
                                Instruction::Add {
                                    target: Register(target),
                                    left: Register(target),
                                    right: Register((target + 1) as u8),
                                },
                            ],
                            None,
                        )
                    }
                }
            },
            _ => (Seq::empty(), Some(CompileError::UnsupportedConstruct)),
        },
        Expr::Block(exprs) => compile_block_spec(target, exprs@),
    }
}

/// What compiling a block's sub-expressions in order into `target` emits:
/// the concatenation of each sub-expression's code, stopped at the first
/// failure.
pub open spec fn compile_block_spec(target: u8, exprs: Seq<Expr>) -> (
    Seq<Instruction>,
    Option<CompileError>,
)
    decreases exprs,
{
    if exprs.len() == 0 {
        (Seq::empty(), None)
    } else {
        let (prefix_code, prefix_err) = compile_block_spec(target, exprs.drop_last());
        if prefix_err is Some {
            (prefix_code, prefix_err)
        } else {
            let (last_code, last_err) = compile_spec(target, exprs.last());
            (prefix_code + last_code, last_err)
        }
    }
}

/// Once some prefix of a block fails to compile, the remaining
/// sub-expressions change nothing: the block compiles to that prefix's
/// partial code and failure.
proof fn lemma_block_error_prefix(target: u8, exprs: Seq<Expr>, i: int)
    requires
        0 <= i <= exprs.len(),
        compile_block_spec(target, exprs.subrange(0, i)).1 is Some,
    ensures
        compile_block_spec(target, exprs) == compile_block_spec(target, exprs.subrange(0, i)),
    decreases exprs.len() - i,
{
    if i == exprs.len() {
        assert(exprs.subrange(0, i) =~= exprs);
    } else {
        assert(exprs.subrange(0, i + 1).drop_last() =~= exprs.subrange(0, i));
        lemma_block_error_prefix(target, exprs, i + 1);
    }
}

/// The larger of two register indices.
pub open spec fn max_u8(a: u8, b: u8) -> u8 {
    if a >= b {
        a
    } else {
        b
    }
}

/// The largest register index an instruction names.
pub open spec fn instruction_max_register(instruction: Instruction) -> u8 {
    match instruction {
        Instruction::GetName { target, name } => target.0,
        Instruction::SetName { name, source } => source.0,
        Instruction::Add { target, left, right } => max_u8(max_u8(target.0, left.0), right.0),
        Instruction::IntLiteral { target, value } => target.0,
    }
}

/// The largest register index a program names, or -1 when it names none.
pub open spec fn code_max_register(code: Seq<Instruction>) -> int
    decreases code.len(),
{
    if code.len() == 0 {
        -1
    } else {
        let rest = code_max_register(code.drop_last());
        let last = instruction_max_register(code.last()) as int;
        if rest >= last {
            rest
        } else {
            last
        }
    }
}

proof fn lemma_code_max_register_at_least(code: Seq<Instruction>)
    ensures
        code_max_register(code) >= -1,
    decreases code.len(),
{
    if code.len() > 0 {
        lemma_code_max_register_at_least(code.drop_last());
    }
}

proof fn lemma_code_max_register_append(a: Seq<Instruction>, b: Seq<Instruction>)
    ensures
        code_max_register(a + b) == if code_max_register(a) >= code_max_register(b) {
            code_max_register(a)
        } else {
            code_max_register(b)
        },
    decreases b.len(),
{
    if b.len() == 0 {
        assert(a + b =~= a);
        lemma_code_max_register_at_least(a);
    } else {
        assert((a + b).drop_last() =~= a + b.drop_last());
        assert((a + b).last() == b.last());
        lemma_code_max_register_append(a, b.drop_last());
        lemma_code_max_register_at_least(a);
    }
}

/// A right-nested chain of `k` additive operations whose left operands are
/// integer constants: `c0 + (c1 + (... + ck))`.
pub open spec fn additive_chain(e: Expr, k: nat) -> bool
    decreases e,
{
    if k == 0 {
        e matches Expr::Const(ConstVal::Int(_))
    } else {
        e matches Expr::BinOp(BinOpKind::Add, lhs, rhs) && (*lhs matches Expr::Const(
            ConstVal::Int(_),
        )) && additive_chain(*rhs, (k - 1) as nat)
    }
}

/// Linear register allocation, exactly: compiled into `target`, a
/// right-nested chain of `k` additive operations names the registers
/// `target` through `target + k` and no others, whenever `target + k` stays
/// within the file's 256 slots; one nesting level more and compilation
/// fails with `RegisterExhaustion` rather than wrapping the index around.
pub proof fn lemma_chain_register_allocation(e: Expr, k: nat, target: u8)
    requires
        additive_chain(e, k),
    ensures
        target + k <= 255 ==> compile_spec(target, e).1 is None && code_max_register(
            compile_spec(target, e).0,
        ) == target + k,
        target + k > 255 ==> compile_spec(target, e).1 == Some(CompileError::RegisterExhaustion),
    decreases k,
{
    if k == 0 {
        let code = compile_spec(target, e).0;
        assert(code.drop_last() =~= Seq::<Instruction>::empty());
        assert(code_max_register(Seq::<Instruction>::empty()) == -1);
    } else {
        match e {
            Expr::BinOp(op, lhs, rhs) => {
                let left_code = compile_spec(target, *lhs).0;
                assert(compile_spec(target, *lhs).1 is None);
                assert(left_code.drop_last() =~= Seq::<Instruction>::empty());
                assert(code_max_register(Seq::<Instruction>::empty()) == -1);
                assert(code_max_register(left_code) == target);
                if target == 255 {
                } else {
                    let next = (target + 1) as u8;
                    lemma_chain_register_allocation(*rhs, (k - 1) as nat, next);
                    let right_code = compile_spec(next, *rhs).0;
                    if target + k <= 255 {
                        let add = (Instruction::Add {
                            target: Register(target),
                            left: Register(target),
                            right: Register(next),
                        });
                        assert(code_max_register(right_code) == target + k);
                        lemma_code_max_register_append(left_code, right_code);
                        lemma_code_max_register_append(left_code + right_code, seq![add]);
                        assert(seq![add].drop_last() =~= Seq::<Instruction>::empty());
                        assert(code_max_register(seq![add]) == next as int);
                        assert(compile_spec(target, e).0 == left_code + right_code + seq![add]);
                    }
                }
            },
            _ => {},
        }
    }
}

/// Compilation is pure and deterministic: what it emits is a function of
/// the tree and the target register alone, so compiling one tree twice
/// yields element-wise identical instruction sequences.
pub proof fn lemma_compile_deterministic(first: Expr, second: Expr, target: u8)
    requires
        first == second,
    ensures
        compile_spec(target, first) == compile_spec(target, second),
{
}

/// Compiles one node into the `target` register, appending the emitted
/// instructions to `out`. On failure, the instructions already appended
/// stay in `out`, exactly as `compile_spec` describes them.
pub fn compile_expr(target: Register, expr: &Expr, out: &mut Vec<Instruction>) -> (r: Result<
    (),
    CompileError,
>)
    ensures
        final(out)@ == old(out)@ + compile_spec(target.0, *expr).0,
        (match r {
            Ok(()) => compile_spec(target.0, *expr).1 is None,
            Err(e) => compile_spec(target.0, *expr).1 == Some(e),
        }),
    decreases *expr,
{
    match expr {
        Expr::Const(ConstVal::Int(value)) => {
            out.push(Instruction::IntLiteral { target, value: *value });
            Ok(())
        },
        Expr::Const(ConstVal::Num(n)) => match n {
            NumConst::Exact(value) => {
                out.push(Instruction::IntLiteral { target, value: *value });
                Ok(())
            },
            _ => {
                proof {
                    assert(final(out)@ =~= old(out)@ + compile_spec(target.0, *expr).0);
                }
                Err(CompileError::UnsupportedConstruct)
            },
        },
        Expr::Local(name) => {
            out.push(Instruction::GetName { target, name: Identifier(name.clone()) });
            Ok(())
        },
        Expr::Assign(lhs, rhs) => match &**lhs {
            Expr::Local(name) => {
                match compile_expr(target, rhs, out) {
                    Ok(()) => {
                        out.push(
                            Instruction::SetName { name: Identifier(name.clone()), source: target },
                        );
                        proof {
                            assert(final(out)@ =~= old(out)@ + compile_spec(target.0, *expr).0);
                        }
                        Ok(())
                    },
                    Err(e) => Err(e),
                }
            },
            _ => {
                proof {
                    assert(final(out)@ =~= old(out)@ + compile_spec(target.0, *expr).0);
                }
                Err(CompileError::UnsupportedConstruct)
            },
        },
        Expr::BinOp(op, lhs, rhs) => match op {
            BinOpKind::Add => {
                match compile_expr(target, lhs, out) {
                    Ok(()) => {
                        if target.0 == 255 {
                            Err(CompileError::RegisterExhaustion)
                        } else {
                            let tmp = Register(target.0 + 1);
                            match compile_expr(tmp, rhs, out) {
                                Ok(()) => {
                                    out.push(
                                        Instruction::Add { target, left: target, right: tmp },
                                    );
                                    proof {
                                        assert(final(out)@ =~= old(out)@ + compile_spec(
                                            target.0,
                                            *expr,
                                        ).0);
                                    }
                                    Ok(())
                                },
                                Err(e) => {
                                    proof {
                                        assert(final(out)@ =~= old(out)@ + compile_spec(
                                            target.0,
                                            *expr,
                                        ).0);
                                    }
                                    Err(e)
                                },
                            }
                        }
                    },
                    Err(e) => Err(e),
                }
            },
            _ => {
                proof {
                    assert(final(out)@ =~= old(out)@ + compile_spec(target.0, *expr).0);
                }
                Err(CompileError::UnsupportedConstruct)
            },
        },
        Expr::Block(exprs) => {
            let n = exprs.len();
            let mut i: usize = 0;
            while i < n
                invariant
                    i <= n,
                    n == exprs@.len(),
                    *expr == Expr::Block(*exprs),
                    compile_block_spec(target.0, exprs@.subrange(0, i as int)).1 is None,
                    out@ == old(out)@ + compile_block_spec(
                        target.0,
                        exprs@.subrange(0, i as int),
                    ).0,
                decreases n - i,
            {
                let ghost done = exprs@.subrange(0, i as int);
                let ghost step = exprs@.subrange(0, i as int + 1);
                proof {
                    assert(step.drop_last() =~= done);
                    assert(step.last() == exprs@[i as int]);
                }
                match compile_expr(target, &exprs[i], out) {
                    Ok(()) => {},
                    Err(e) => {
                        proof {
                            assert(compile_block_spec(target.0, step).1 == Some(e));
                            lemma_block_error_prefix(target.0, exprs@, i as int + 1);
                        }
                        return Err(e);
                    },
                }
                i += 1;
            }
            proof {
                assert(exprs@.subrange(0, n as int) =~= exprs@);
            }
            Ok(())
        },
    }
}

/// Translates one expression tree into a complete program: the instruction
/// sequence that leaves the tree's value in register 0, or the first
/// compilation failure.
pub fn compile(expr: &Expr) -> (r: Result<Vec<Instruction>, CompileError>)
    ensures
        (match r {
            Ok(program) => compile_spec(0, *expr).1 is None && program@ == compile_spec(
                0,
                *expr,
            ).0,
            Err(e) => compile_spec(0, *expr).1 == Some(e),
        }),
{
    let mut instructions = Vec::new();
    match compile_expr(Register(0), expr, &mut instructions) {
        Ok(()) => {
            proof {
                assert(instructions@ =~= compile_spec(0, *expr).0);
            }
            Ok(instructions)
        },
        Err(e) => Err(e),
    }
}

} // verus!
