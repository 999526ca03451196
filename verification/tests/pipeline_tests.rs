use stackvm::ast::{BinaryOp, Expression, LiteralValue, PrefixOp, Span, Statement};
use stackvm::code::{Instruction, Object};
use stackvm::codegen::{compile, CompileError};
use stackvm::vm::{run, RunOutcome, RuntimeFault, VM};
use stackvm::symbol::{SymbolScope, SymbolTable};

fn sp() -> Span {
    Span { start: 0, end: 0, line: 0, column: 0 }
}

fn lit(v: i64) -> Expression {
    Expression::Literal { value: LiteralValue::Integer(v), span: sp() }
}

fn boolean(v: bool) -> Expression {
    Expression::Literal { value: LiteralValue::Bool(v), span: sp() }
}

fn text(v: &str) -> Expression {
    Expression::Literal { value: LiteralValue::String(v.to_string()), span: sp() }
}

fn var(name: &str) -> Expression {
    Expression::Variable { name: name.to_string(), span: sp() }
}

fn binary(l: Expression, op: BinaryOp, r: Expression) -> Expression {
    Expression::Binary { left: Box::new(l), operator: op, right: Box::new(r), span: sp() }
}

fn expr_stmt(e: Expression) -> Statement {
    Statement::Expression { expression: Box::new(e), span: sp() }
}

fn block(statements: Vec<Statement>) -> Statement {
    Statement::Block { statements, span: sp() }
}

fn def(name: &str, init: Expression) -> Statement {
    Statement::VariableDeclaration {
        name: name.to_string(),
        type_ann: None,
        initializer: Some(Box::new(init)),
        span: sp(),
    }
}

fn ret(e: Expression) -> Statement {
    Statement::Return { value: Some(Box::new(e)), span: sp() }
}

fn fun(name: &str, params: &[&str], body: Vec<Statement>) -> Statement {
    Statement::FunctionDeclaration {
        name: name.to_string(),
        parameters: params.iter().map(|p| p.to_string()).collect(),
        body: Box::new(block(body)),
        span: sp(),
    }
}

fn call(name: &str, args: Vec<Expression>) -> Expression {
    Expression::Call { callee: Box::new(var(name)), arguments: args, span: sp() }
}

fn run_program(program: Vec<Statement>) -> RunOutcome {
    let (code, consts) = compile(&program).expect("program should compile");
    run(code, consts, 100_000)
}

fn expect_lit(outcome: RunOutcome, expected: i64) {
    match outcome {
        RunOutcome::Halted(Object::Integer(v)) => assert_eq!(v, expected),
        other => panic!("expected integer result, got {:?}", other),
    }
}

fn expect_fault(outcome: RunOutcome, expected: RuntimeFault) {
    match outcome {
        RunOutcome::Faulted { kind, .. } => assert_eq!(kind, expected),
        other => panic!("expected fault {:?}, got {:?}", expected, other),
    }
}

#[test]
fn arithmetic_matches_native_evaluation() {
    let cases = [
        (7i64, BinaryOp::Plus, 3i64, 10i64),
        (7, BinaryOp::Minus, 3, 4),
        (7, BinaryOp::Multiply, 3, 21),
        (7, BinaryOp::Divide, 3, 7 / 3),
        (7, BinaryOp::Modulo, 3, 7 % 3),
        (-7, BinaryOp::Divide, 3, -7 / 3),
        (-7, BinaryOp::Modulo, 3, -7 % 3),
    ];
    for (a, op, b, expected) in cases {
        expect_lit(run_program(vec![expr_stmt(binary(lit(a), op, lit(b)))]), expected);
    }
}

#[test]
fn division_and_modulo_by_zero_fault() {
    expect_fault(
        run_program(vec![expr_stmt(binary(lit(7), BinaryOp::Divide, lit(0)))]),
        RuntimeFault::DivisionByZero,
    );
    expect_fault(
        run_program(vec![expr_stmt(binary(lit(7), BinaryOp::Modulo, lit(0)))]),
        RuntimeFault::DivisionByZero,
    );
}

#[test]
fn equal_integer_literals_share_one_pool_entry() {
    let (_, consts) = compile(&vec![expr_stmt(binary(lit(1), BinaryOp::Plus, lit(1)))]).unwrap();
    assert_eq!(consts.len(), 1);
}

#[test]
fn equal_string_literals_share_one_pool_entry() {
    let (_, consts) =
        compile(&vec![expr_stmt(text("hello")), expr_stmt(text("hello"))]).unwrap();
    assert_eq!(consts.len(), 1);
}

#[test]
fn if_true_equals_then_branch_alone() {
    let conditional = vec![Statement::If {
        condition: Box::new(boolean(true)),
        then_branch: Box::new(block(vec![expr_stmt(lit(5))])),
        else_branch: Some(Box::new(block(vec![expr_stmt(lit(7))]))),
        span: sp(),
    }];
    let alone = vec![expr_stmt(lit(5))];
    match (run_program(conditional), run_program(alone)) {
        (RunOutcome::Halted(Object::Integer(x)), RunOutcome::Halted(Object::Integer(y))) => {
            assert_eq!(x, 5);
            assert_eq!(y, 5);
        }
        other => panic!("unexpected outcomes {:?}", other),
    }
}

#[test]
fn if_false_equals_else_branch_alone() {
    let conditional = vec![Statement::If {
        condition: Box::new(boolean(false)),
        then_branch: Box::new(block(vec![expr_stmt(lit(5))])),
        else_branch: Some(Box::new(block(vec![expr_stmt(lit(7))]))),
        span: sp(),
    }];
    expect_lit(run_program(conditional), 7);
}

#[test]
fn if_false_without_else_yields_null() {
    let program = vec![Statement::If {
        condition: Box::new(boolean(false)),
        then_branch: Box::new(block(vec![expr_stmt(lit(5))])),
        else_branch: None,
        span: sp(),
    }];
    match run_program(program) {
        RunOutcome::Halted(Object::Null) => {}
        other => panic!("expected null, got {:?}", other),
    }
}

#[test]
fn while_false_runs_body_zero_times() {
    let program = vec![Statement::While {
        condition: Box::new(boolean(false)),
        body: Box::new(block(vec![expr_stmt(lit(1))])),
        span: sp(),
    }];
    let (code, consts) = compile(&program).unwrap();
    let mut vm = VM::new(code, consts);
    match vm.run(100_000) {
        RunOutcome::Halted(Object::Null) => {}
        other => panic!("expected null, got {:?}", other),
    }
    // the loop left the operand stack exactly as deep as before it
    assert_eq!(vm.stack_depth(), 0);
    assert_eq!(vm.frame_count(), 1);
}

#[test]
fn while_loop_counts() {
    let program = vec![
        def("i", lit(0)),
        Statement::While {
            condition: Box::new(binary(var("i"), BinaryOp::LessThan, lit(3))),
            body: Box::new(block(vec![expr_stmt(Expression::Assign {
                target: Box::new(var("i")),
                value: Box::new(binary(var("i"), BinaryOp::Plus, lit(1))),
                span: sp(),
            })])),
            span: sp(),
        },
        expr_stmt(var("i")),
    ];
    expect_lit(run_program(program), 3);
}

#[test]
fn for_loop_desugars_to_while() {
    let program = vec![
        def("total", lit(0)),
        Statement::For {
            init: Some(Box::new(def("j", lit(0)))),
            condition: Box::new(binary(var("j"), BinaryOp::LessThan, lit(4))),
            increment: Some(Box::new(expr_stmt(Expression::Assign {
                target: Box::new(var("j")),
                value: Box::new(binary(var("j"), BinaryOp::Plus, lit(1))),
                span: sp(),
            }))),
            body: Box::new(block(vec![expr_stmt(Expression::Assign {
                target: Box::new(var("total")),
                value: Box::new(binary(var("total"), BinaryOp::Plus, var("j"))),
                span: sp(),
            })])),
            span: sp(),
        },
        expr_stmt(var("total")),
    ];
    expect_lit(run_program(program), 6);
}

#[test]
fn arity_mismatch_faults() {
    let program = vec![
        fun("f", &["x", "y"], vec![ret(var("x"))]),
        expr_stmt(call("f", vec![lit(1)])),
    ];
    expect_fault(run_program(program), RuntimeFault::ArityMismatch);
}

#[test]
fn call_with_matching_arity_reproduces_assigned_local() {
    let program = vec![
        fun(
            "g",
            &["x"],
            vec![def("y", binary(var("x"), BinaryOp::Plus, lit(1))), ret(var("y"))],
        ),
        expr_stmt(call("g", vec![lit(4)])),
    ];
    expect_lit(run_program(program), 5);
}

#[test]
fn recursive_countdown_terminates_with_one_frame() {
    // cd(n) = n + cd(n - 1), stopping at zero: cd(5) accumulates 15
    let program = vec![
        fun(
            "cd",
            &["n"],
            vec![
                Statement::If {
                    condition: Box::new(binary(var("n"), BinaryOp::LessThan, lit(1))),
                    then_branch: Box::new(block(vec![ret(lit(0))])),
                    else_branch: None,
                    span: sp(),
                },
                ret(binary(
                    var("n"),
                    BinaryOp::Plus,
                    call("cd", vec![binary(var("n"), BinaryOp::Minus, lit(1))]),
                )),
            ],
        ),
        expr_stmt(call("cd", vec![lit(5)])),
    ];
    let (code, consts) = compile(&program).unwrap();
    let mut vm = VM::new(code, consts);
    match vm.run(100_000) {
        RunOutcome::Halted(Object::Integer(v)) => assert_eq!(v, 15),
        other => panic!("expected 15, got {:?}", other),
    }
    assert_eq!(vm.frame_count(), 1);
}

#[test]
fn unresolved_identifier_fails_compilation() {
    let program = vec![expr_stmt(var("nowhere"))];
    assert_eq!(compile(&program).unwrap_err(), CompileError::UnresolvedIdentifier);
}

#[test]
fn invalid_assignment_target_fails_compilation() {
    let program = vec![expr_stmt(Expression::Assign {
        target: Box::new(lit(5)),
        value: Box::new(lit(3)),
        span: sp(),
    })];
    assert_eq!(compile(&program).unwrap_err(), CompileError::InvalidAssignmentTarget);
}

#[test]
fn duplicate_parameter_fails_compilation() {
    let program = vec![fun("f", &["a", "a"], vec![ret(var("a"))])];
    assert_eq!(compile(&program).unwrap_err(), CompileError::DuplicateParameter);
}

#[test]
fn type_mismatch_faults_at_runtime() {
    let program = vec![expr_stmt(binary(boolean(true), BinaryOp::Plus, lit(1)))];
    expect_fault(run_program(program), RuntimeFault::TypeMismatch);
}

#[test]
fn uninitialized_global_faults() {
    let code = vec![Instruction::GetGlobal(0)];
    expect_fault(run(code, vec![], 10), RuntimeFault::UninitializedGlobal);
}

#[test]
fn stack_underflow_faults() {
    let code = vec![Instruction::Pop];
    expect_fault(run(code, vec![], 10), RuntimeFault::StackUnderflow);
}

#[test]
fn index_reads_an_element() {
    let consts = vec![
        Object::Array(vec![Object::Integer(10), Object::Integer(20)]),
        Object::Integer(1),
    ];
    let code = vec![
        Instruction::LoadConstant(0),
        Instruction::LoadConstant(1),
        Instruction::Index,
        Instruction::Pop,
    ];
    expect_lit(run(code, consts, 10), 20);
}

#[test]
fn index_out_of_bounds_faults() {
    let consts = vec![
        Object::Array(vec![Object::Integer(10)]),
        Object::Integer(5),
    ];
    let code = vec![
        Instruction::LoadConstant(0),
        Instruction::LoadConstant(1),
        Instruction::Index,
        Instruction::Pop,
    ];
    expect_fault(run(code, consts, 10), RuntimeFault::IndexOutOfBounds);
}

#[test]
fn set_index_replaces_an_element() {
    let consts = vec![
        Object::Array(vec![Object::Integer(1), Object::Integer(2)]),
        Object::Integer(0),
        Object::Integer(9),
    ];
    let code = vec![
        Instruction::LoadConstant(0),
        Instruction::LoadConstant(1),
        Instruction::LoadConstant(2),
        Instruction::SetIndex,
        Instruction::Pop,
    ];
    match run(code, consts, 10) {
        RunOutcome::Halted(Object::Array(items)) => {
            assert!(matches!(items[0], Object::Integer(9)));
            assert!(matches!(items[1], Object::Integer(2)));
        }
        other => panic!("expected array, got {:?}", other),
    }
}

#[test]
fn comparisons_and_booleans() {
    let cases = [
        (binary(lit(3), BinaryOp::LessEqual, lit(3)), true),
        (binary(lit(3), BinaryOp::GreaterEqual, lit(4)), false),
        (binary(lit(3), BinaryOp::LessThan, lit(4)), true),
        (binary(lit(3), BinaryOp::GreaterThan, lit(4)), false),
        (binary(lit(3), BinaryOp::Equal, lit(3)), true),
        (binary(lit(3), BinaryOp::NotEqual, lit(3)), false),
        (binary(boolean(true), BinaryOp::And, boolean(false)), false),
        (binary(boolean(true), BinaryOp::Or, boolean(false)), true),
        (binary(text("a"), BinaryOp::Equal, text("a")), true),
        // a cross-variant comparison yields false, not a fault
        (binary(lit(1), BinaryOp::Equal, boolean(true)), false),
        (Expression::Unary { operator: PrefixOp::Not, operand: Box::new(boolean(true)), span: sp() }, false),
    ];
    for (e, expected) in cases {
        match run_program(vec![expr_stmt(e)]) {
            RunOutcome::Halted(Object::Boolean(b)) => assert_eq!(b, expected),
            other => panic!("expected boolean, got {:?}", other),
        }
    }
}

#[test]
fn unary_negation() {
    let e = Expression::Unary { operator: PrefixOp::Neg, operand: Box::new(lit(5)), span: sp() };
    expect_lit(run_program(vec![expr_stmt(e)]), -5);
}

#[test]
fn assignment_leaves_value_and_stores_it() {
    let program = vec![
        def("x", lit(1)),
        expr_stmt(Expression::Assign {
            target: Box::new(var("x")),
            value: Box::new(lit(5)),
            span: sp(),
        }),
    ];
    expect_lit(run_program(program), 5);
}

#[test]
fn char_literal_is_one_character_string() {
    let program = vec![expr_stmt(Expression::Literal {
        value: LiteralValue::Char('a'),
        span: sp(),
    })];
    match run_program(program) {
        RunOutcome::Halted(Object::String(s)) => assert_eq!(s, "a"),
        other => panic!("expected string, got {:?}", other),
    }
}

#[test]
fn block_scopes_shadow_and_expire() {
    // an inner block shadows, and its names expire with it
    let program = vec![
        def("x", lit(1)),
        block(vec![def("x", lit(2)), expr_stmt(var("x"))]),
        expr_stmt(var("x")),
    ];
    expect_lit(run_program(program), 1);
}

#[test]
fn out_of_fuel_is_reported() {
    let program = vec![Statement::While {
        condition: Box::new(boolean(true)),
        body: Box::new(block(vec![])),
        span: sp(),
    }];
    let (code, consts) = compile(&program).unwrap();
    assert!(matches!(run(code, consts, 50), RunOutcome::OutOfFuel));
}

#[test]
fn symbol_table_defines_and_resolves() {
    let mut t = SymbolTable::new();
    let s = t.define("a".to_string());
    assert_eq!(s.index, 0);
    assert!(matches!(s.scope, SymbolScope::Global));
    let mut inner = SymbolTable::new_enclosed(t);
    let l = inner.define("b".to_string());
    assert_eq!(l.index, 0);
    assert!(matches!(l.scope, SymbolScope::Local));
    let found = inner.resolve("a").unwrap();
    assert!(matches!(found.scope, SymbolScope::Global));
    assert!(inner.resolve("missing").is_none());
}
