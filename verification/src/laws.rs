//! Laws of the pipeline, stated and proved over the compiler's and the
//! machine's models: what compilation preserves, and what compiled programs
//! do when run.
use vstd::prelude::*;

use crate::ast::{Expression, LiteralValue, Statement};
use crate::code::{Instruction, ObjectModel};
use crate::codegen::{
    add_const_model, compile_expr_model, compile_exprs_model, compile_model, compile_stmt_model,
    compile_stmts_model, find_const, init_comp_model, is_scalar, lemma_find_const, CompModel,
    CompileError,
};
use crate::symbol::resolve_model;
use crate::vm::{step_model, RuntimeFault, StepModel, VmModel};

verus! {

/// A constant pool is deduplicated when no scalar value occupies two
/// entries.
pub open spec fn pool_dedup(consts: Seq<ObjectModel>) -> bool {
    forall|i: int, j: int|
        0 <= i < j < consts.len() && is_scalar(#[trigger] consts[i]) ==> consts[i] != (
        #[trigger] consts[j])
}

/// Interning preserves deduplication, length growth, and every existing
/// entry's scalarhood; existing scalar entries are untouched.
proof fn lemma_add_const(consts: Seq<ObjectModel>, o: ObjectModel)
    requires
        is_scalar(o),
    ensures
        ({
            let (c, i) = add_const_model(consts, o);
            &&& c.len() >= consts.len()
            &&& forall|k: int| 0 <= k < consts.len() ==> c[k] == #[trigger] consts[k]
            &&& pool_dedup(consts) ==> pool_dedup(c)
            &&& 0 <= i < c.len() && c[i] == o
        }),
{
    lemma_find_const(consts, o);
    let (c, i) = add_const_model(consts, o);
    if find_const(consts, o) is None && pool_dedup(consts) {
        assert forall|x: int, y: int|
            0 <= x < y < c.len() && is_scalar(#[trigger] c[x]) implies c[x] != (
        #[trigger] c[y]) by {
            if y == consts.len() {
                assert(c[x] == consts[x]);
                assert(c[y] == o);
            } else {
                assert(c[x] == consts[x] && c[y] == consts[y]);
            }
        }
    }
}

/// What one statement's compilation does to the shared buffers: the
/// instruction buffer only grows (patching touches only positions the
/// statement itself emitted), the pool only grows, existing scalar entries
/// are untouched, no entry changes its scalarhood, and a deduplicated pool
/// stays deduplicated.
#[verifier::rlimit(100)]
#[verifier::spinoff_prover]
pub proof fn lemma_stmt_extends(s: Statement, st: CompModel)
    ensures
        compile_stmt_model(s, st) matches Ok(m) ==> {
            &&& m.code.len() >= st.code.len()
            &&& forall|k: int| 0 <= k < st.code.len() ==> m.code[k] == #[trigger] st.code[k]
            &&& m.consts.len() >= st.consts.len()
            &&& forall|k: int|
                0 <= k < st.consts.len() && is_scalar(#[trigger] st.consts[k]) ==> m.consts[k]
                    == st.consts[k]
            &&& forall|k: int|
                0 <= k < st.consts.len() ==> is_scalar(#[trigger] m.consts[k]) == is_scalar(
                    st.consts[k],
                )
            &&& (pool_dedup(st.consts) ==> pool_dedup(m.consts))
        },
    decreases s, 1int,
{
    match s {
        Statement::Block { statements, .. } => {
            lemma_stmts_extend(statements@, crate::codegen::enter_block_model(st));
        },
        Statement::Expression { expression, .. } => {
            lemma_expr_extends(*expression, st);
        },
        Statement::Return { value, .. } => {
            match value {
                Some(e) => lemma_expr_extends(*e, st),
                None => lemma_add_const(st.consts, ObjectModel::Null),
            }
        },
        Statement::VariableDeclaration { initializer, .. } => {
            match initializer {
                Some(e) => lemma_expr_extends(*e, st),
                None => lemma_add_const(st.consts, ObjectModel::Null),
            }
        },
        Statement::If { condition, then_branch, else_branch, .. } => {
            lemma_expr_extends(*condition, st);
            if compile_expr_model(*condition, st) is Ok {
                let st1 = compile_expr_model(*condition, st)->Ok_0;
                let st2 = crate::codegen::emit_model(st1, Instruction::JumpNotTruthy(0));
                lemma_stmt_extends(*then_branch, st2);
                if compile_stmt_model(*then_branch, st2) is Ok {
                    let st3 = compile_stmt_model(*then_branch, st2)->Ok_0;
                    match else_branch {
                        None => {
                            let m = compile_stmt_model(s, st)->Ok_0;
                            assert forall|k: int| 0 <= k < st.code.len() implies m.code[k] == (
                            #[trigger] st.code[k]) by {
                                assert(st1.code.len() >= st.code.len());
                                assert(st2.code[k] == st.code[k]);
                                assert(st3.code[k] == st2.code[k]);
                                assert(m.code[k] == st3.code[k]);
                            }
                        },
                        Some(els) => {
                            let st4 = crate::codegen::emit_model(st3, Instruction::Jump(0));
                            let st5 = CompModel {
                                code: st4.code.update(
                                    st1.code.len() as int,
                                    Instruction::JumpNotTruthy(st4.code.len() as usize),
                                ),
                                consts: st4.consts,
                                tab: st4.tab,
                            };
                            lemma_stmt_extends(*els, st5);
                            if compile_stmt_model(*els, st5) is Ok {
                                let st6 = compile_stmt_model(*els, st5)->Ok_0;
                                let m = compile_stmt_model(s, st)->Ok_0;
                                assert forall|k: int|
                                    0 <= k < st.code.len() implies m.code[k] == (
                                #[trigger] st.code[k]) by {
                                    assert(st1.code.len() >= st.code.len());
                                    assert(st3.code.len() >= st.code.len());
                                    assert(st2.code[k] == st.code[k]);
                                    assert(st3.code[k] == st2.code[k]);
                                    assert(st5.code[k] == st.code[k]);
                                    assert(st6.code[k] == st5.code[k]);
                                    assert(m.code[k] == st6.code[k]);
                                }
                            }
                        },
                    }
                }
            }
        },
        Statement::While { condition, body, .. } => {
            lemma_expr_extends(*condition, st);
            if compile_expr_model(*condition, st) is Ok {
                let st1 = compile_expr_model(*condition, st)->Ok_0;
                let st2 = crate::codegen::emit_model(st1, Instruction::JumpNotTruthy(0));
                lemma_stmt_extends(*body, st2);
                if compile_stmt_model(*body, st2) is Ok {
                    let st3 = compile_stmt_model(*body, st2)->Ok_0;
                    let m = compile_stmt_model(s, st)->Ok_0;
                    assert forall|k: int| 0 <= k < st.code.len() implies m.code[k] == (
                    #[trigger] st.code[k]) by {
                        assert(st1.code.len() >= st.code.len());
                        assert(st2.code[k] == st.code[k]);
                        assert(st3.code[k] == st2.code[k]);
                        assert(m.code[k] == st3.code[k]);
                    }
                }
            }
        },
        Statement::For { init, condition, increment, body, .. } => {
            let st0 = crate::codegen::enter_block_model(st);
            let inited = match init {
                Some(s0) => {
                    lemma_stmt_extends(*s0, st0);
                    compile_stmt_model(*s0, st0)
                },
                None => Ok(st0),
            };
            if inited is Ok {
                let st1 = inited->Ok_0;
                lemma_expr_extends(*condition, st1);
                if compile_expr_model(*condition, st1) is Ok {
                    let st2 = compile_expr_model(*condition, st1)->Ok_0;
                    let st3 = crate::codegen::emit_model(st2, Instruction::JumpNotTruthy(0));
                    lemma_stmt_extends(*body, st3);
                    if compile_stmt_model(*body, st3) is Ok {
                        let st4 = compile_stmt_model(*body, st3)->Ok_0;
                        let incremented = match increment {
                            Some(s1) => {
                                lemma_stmt_extends(*s1, st4);
                                compile_stmt_model(*s1, st4)
                            },
                            None => Ok(st4),
                        };
                        if incremented is Ok {
                            let st5 = incremented->Ok_0;
                            let m = compile_stmt_model(s, st)->Ok_0;
                            assert forall|k: int| 0 <= k < st.code.len() implies m.code[k] == (
                            #[trigger] st.code[k]) by {
                                assert(st0.code[k] == st.code[k]);
                                assert(st1.code[k] == st0.code[k]);
                                assert(st2.code[k] == st1.code[k]);
                                assert(st3.code[k] == st2.code[k]);
                                assert(st4.code[k] == st3.code[k]);
                                assert(st5.code[k] == st4.code[k]);
                                assert(st2.code.len() >= st.code.len());
                                assert(m.code[k] == st5.code[k]);
                            }
                        }
                    }
                }
            }
        },
        Statement::FunctionDeclaration { name, parameters, body, .. } => {
            if !crate::codegen::has_duplicate(crate::codegen::names_model(parameters@)) {
                let fidx = st.consts.len() as int;
                let consts1 = st.consts.push(crate::codegen::placeholder_model());
                let tab1 = crate::codegen::define_params_model(
                    crate::codegen::names_model(parameters@),
                    crate::codegen::enter_function_model(st, name@, fidx),
                );
                let st_body = CompModel { code: Seq::empty(), consts: consts1, tab: tab1 };
                lemma_stmt_extends(*body, st_body);
                if compile_stmt_model(*body, st_body) is Ok {
                    let stb = compile_stmt_model(*body, st_body)->Ok_0;
                    lemma_add_const(stb.consts, ObjectModel::Null);
                }
            }
        },
    }
}

/// `lemma_stmt_extends`, for a statement sequence.
#[verifier::rlimit(100)]
#[verifier::spinoff_prover]
pub proof fn lemma_stmts_extend(ss: Seq<Statement>, st: CompModel)
    ensures
        compile_stmts_model(ss, st) matches Ok(m) ==> {
            &&& m.code.len() >= st.code.len()
            &&& forall|k: int| 0 <= k < st.code.len() ==> m.code[k] == #[trigger] st.code[k]
            &&& m.consts.len() >= st.consts.len()
            &&& forall|k: int|
                0 <= k < st.consts.len() && is_scalar(#[trigger] st.consts[k]) ==> m.consts[k]
                    == st.consts[k]
            &&& forall|k: int|
                0 <= k < st.consts.len() ==> is_scalar(#[trigger] m.consts[k]) == is_scalar(
                    st.consts[k],
                )
            &&& (pool_dedup(st.consts) ==> pool_dedup(m.consts))
        },
    decreases ss, 0int,
{
    if ss.len() > 0 {
        lemma_stmt_extends(ss.first(), st);
        if compile_stmt_model(ss.first(), st) is Ok {
            lemma_stmts_extend(ss.drop_first(), compile_stmt_model(ss.first(), st)->Ok_0);
        }
    }
}

/// `lemma_stmt_extends`, for one expression.
#[verifier::rlimit(100)]
#[verifier::spinoff_prover]
pub proof fn lemma_expr_extends(e: Expression, st: CompModel)
    ensures
        compile_expr_model(e, st) matches Ok(m) ==> {
            &&& m.code.len() >= st.code.len()
            &&& forall|k: int| 0 <= k < st.code.len() ==> m.code[k] == #[trigger] st.code[k]
            &&& m.consts.len() >= st.consts.len()
            &&& forall|k: int|
                0 <= k < st.consts.len() && is_scalar(#[trigger] st.consts[k]) ==> m.consts[k]
                    == st.consts[k]
            &&& forall|k: int|
                0 <= k < st.consts.len() ==> is_scalar(#[trigger] m.consts[k]) == is_scalar(
                    st.consts[k],
                )
            &&& (pool_dedup(st.consts) ==> pool_dedup(m.consts))
        },
    decreases e, 1int,
{
    match e {
        Expression::Literal { value, .. } => {
            assert(is_scalar(crate::codegen::literal_model(value))) by {
                match value {
                    LiteralValue::Integer(_) => {},
                    LiteralValue::String(_) => {},
                    LiteralValue::Char(_) => {},
                    LiteralValue::Bool(_) => {},
                }
            }
            lemma_add_const(st.consts, crate::codegen::literal_model(value));
        },
        Expression::Variable { .. } => {},
        Expression::Unary { operand, .. } => {
            lemma_expr_extends(*operand, st);
        },
        Expression::Binary { left, operator, right, .. } => {
            lemma_expr_extends(*left, st);
            if compile_expr_model(*left, st) is Ok {
                let st1 = compile_expr_model(*left, st)->Ok_0;
                lemma_expr_extends(*right, st1);
                if compile_expr_model(*right, st1) is Ok {
                    let st2 = compile_expr_model(*right, st1)->Ok_0;
                    let m = compile_expr_model(e, st)->Ok_0;
                    assert forall|k: int| 0 <= k < st.code.len() implies m.code[k] == (
                    #[trigger] st.code[k]) by {
                        assert(m.code[k] == st2.code[k]);
                    }
                }
            }
        },
        Expression::Call { callee, arguments, .. } => {
            lemma_expr_extends(*callee, st);
            if compile_expr_model(*callee, st) is Ok {
                let st1 = compile_expr_model(*callee, st)->Ok_0;
                lemma_exprs_extend(arguments@, st1);
                if compile_exprs_model(arguments@, st1) is Ok {
                    let st2 = compile_exprs_model(arguments@, st1)->Ok_0;
                    let m = compile_expr_model(e, st)->Ok_0;
                    assert forall|k: int| 0 <= k < st.code.len() implies m.code[k] == (
                    #[trigger] st.code[k]) by {
                        assert(st2.code[k] == st1.code[k]);
                        assert(m.code[k] == st2.code[k]);
                    }
                }
            }
        },
        Expression::Index { object, index, .. } => {
            lemma_expr_extends(*object, st);
            if compile_expr_model(*object, st) is Ok {
                let st1 = compile_expr_model(*object, st)->Ok_0;
                lemma_expr_extends(*index, st1);
                if compile_expr_model(*index, st1) is Ok {
                    let st2 = compile_expr_model(*index, st1)->Ok_0;
                    let m = compile_expr_model(e, st)->Ok_0;
                    assert forall|k: int| 0 <= k < st.code.len() implies m.code[k] == (
                    #[trigger] st.code[k]) by {
                        assert(st2.code[k] == st1.code[k]);
                        assert(m.code[k] == st2.code[k]);
                    }
                }
            }
        },
        Expression::Assign { target, value, .. } => {
            match *target {
                Expression::Variable { .. } => {
                    lemma_expr_extends(*value, st);
                },
                Expression::Index { object, index, .. } => {
                    match *object {
                        Expression::Variable { name, .. } => {
                            match crate::symbol::resolves_to(st.tab, name@) {
                                Some(sym) => if !(sym.scope is Function) {
                                    let st1 = crate::codegen::emit_model(
                                        st,
                                        crate::codegen::load_sym(sym),
                                    );
                                    lemma_expr_extends(*index, st1);
                                    if compile_expr_model(*index, st1) is Ok {
                                        let st2 = compile_expr_model(*index, st1)->Ok_0;
                                        lemma_expr_extends(*value, st2);
                                        if compile_expr_model(*value, st2) is Ok {
                                            let st3 = compile_expr_model(*value, st2)->Ok_0;
                                            let m = compile_expr_model(e, st)->Ok_0;
                                            assert forall|k: int|
                                                0 <= k < st.code.len() implies m.code[k] == (
                                            #[trigger] st.code[k]) by {
                                                assert(st2.code[k] == st1.code[k]);
                                                assert(st3.code[k] == st2.code[k]);
                                                assert(m.code[k] == st3.code[k]);
                                            }
                                        }
                                    }
                                } else {
                                },
                                None => {},
                            }
                        },
                        _ => {},
                    }
                },
                _ => {},
            }
        },
    }
}

/// `lemma_stmt_extends`, for an argument list.
#[verifier::rlimit(100)]
#[verifier::spinoff_prover]
pub proof fn lemma_exprs_extend(es: Seq<Expression>, st: CompModel)
    ensures
        compile_exprs_model(es, st) matches Ok(m) ==> {
            &&& m.code.len() >= st.code.len()
            &&& forall|k: int| 0 <= k < st.code.len() ==> m.code[k] == #[trigger] st.code[k]
            &&& m.consts.len() >= st.consts.len()
            &&& forall|k: int|
                0 <= k < st.consts.len() && is_scalar(#[trigger] st.consts[k]) ==> m.consts[k]
                    == st.consts[k]
            &&& forall|k: int|
                0 <= k < st.consts.len() ==> is_scalar(#[trigger] m.consts[k]) == is_scalar(
                    st.consts[k],
                )
            &&& (pool_dedup(st.consts) ==> pool_dedup(m.consts))
        },
    decreases es, 0int,
{
    if es.len() > 0 {
        lemma_expr_extends(es.first(), st);
        if compile_expr_model(es.first(), st) is Ok {
            lemma_exprs_extend(es.drop_first(), compile_expr_model(es.first(), st)->Ok_0);
        }
    }
}

/// Two occurrences of the same scalar literal within one unit share a single
/// constant-pool entry: the pool of every successfully compiled unit holds
/// no scalar value twice.
pub proof fn constant_pool_deduplicated(program: Seq<Statement>)
    ensures
        compile_model(program) matches Ok(m) ==> pool_dedup(m.consts),
{
    lemma_stmts_extend(program, init_comp_model());
}

/// A call whose argument count differs from the callee's declared parameter
/// count faults `ArityMismatch`: whenever the machine is about to execute
/// `Call(argc)` with a function value below the `argc` arguments whose
/// parameter count is not `argc`, the step faults, whatever else the state
/// holds.
pub proof fn call_arity_mismatch_faults(vm: VmModel, argc: nat)
    requires
        vm.frames.len() >= 1,
        vm.frames.last().ip < vm.frames.last().code.len(),
        vm.frames.last().code[vm.frames.last().ip as int] == Instruction::Call(argc as usize),
        argc as usize as nat == argc,
        vm.stack.len() >= argc + 1,
        vm.stack[vm.stack.len() - argc - 1] matches ObjectModel::Function(f)
            && f.num_parameters != argc,
    ensures
        step_model(vm) == (StepModel::Fault {
            kind: RuntimeFault::ArityMismatch,
            ip: vm.frames.last().ip,
            depth: vm.frames.len(),
        }),
{
}

/// Referencing an identifier that no scope defines fails compilation with
/// `UnresolvedIdentifier` — `compile` returns the error and no bytecode, so
/// such a program never reaches `run`.
pub proof fn unresolved_identifier_rejected(program: Seq<Statement>, name: Seq<char>)
    requires
        program.len() == 1,
        program[0] matches Statement::Expression { expression, .. } && (*expression)
            matches Expression::Variable { name: n, .. } && n@ == name,
    ensures
        compile_model(program) == Err::<CompModel, CompileError>(
            CompileError::UnresolvedIdentifier,
        ),
{
    let st0 = init_comp_model();
    assert(crate::symbol::find_in_level(st0.tab.last().syms, name) is None);
    assert(st0.tab.drop_last() =~= Seq::<crate::symbol::LevelModel>::empty());
    assert(resolve_model(st0.tab, name, false) is None) by {
        reveal_with_fuel(resolve_model, 3);
    }
    assert(program.first() == program[0]);
    assert(compile_stmt_model(program[0], st0) == Err::<CompModel, CompileError>(
        CompileError::UnresolvedIdentifier,
    ));
    assert(compile_model(program) == Err::<CompModel, CompileError>(
        CompileError::UnresolvedIdentifier,
    )) by {
        reveal_with_fuel(compile_stmts_model, 2);
    }
}

} // verus!
