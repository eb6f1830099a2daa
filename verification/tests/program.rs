use inkwell::context::Context;
use ndca_lang::ast::{RuleMeta, StatementRef, UserFunction};
use ndca_lang::compiler::Compiler;
use ndca_lang::errors::{LangError, LangErrorMsg, Span};
use ndca_lang::host::{decode_return_value, ReturnValue};
use ndca_lang::lexer::{AssignmentToken, ComparisonToken, OperatorToken};
use ndca_lang::parser::{Expr, Spanned, Statement};
use ndca_lang::types::Type;
use std::rc::Rc;

fn context() -> &'static Context {
    Box::leak(Box::new(Context::create()))
}

fn meta() -> Rc<RuleMeta> {
    Rc::new(RuleMeta { ndim: 2, neighborhood_radius: 1, state_count: 3 })
}

fn sp(start: usize, end: usize) -> Span {
    Span { start, end }
}

fn lit(value: i64) -> Spanned<Expr> {
    Spanned { span: sp(0, 1), inner: Expr::Int(value) }
}

fn ident(name: &str) -> Spanned<Expr> {
    Spanned { span: sp(0, 1), inner: Expr::Ident(name.to_owned()) }
}

fn binary(lhs: Spanned<Expr>, op: OperatorToken, rhs: Spanned<Expr>) -> Spanned<Expr> {
    Spanned { span: sp(10, 20), inner: Expr::BinaryOp { lhs: Box::new(lhs), op, rhs: Box::new(rhs) } }
}

fn unary(op: OperatorToken, operand: Spanned<Expr>) -> Spanned<Expr> {
    Spanned { span: sp(30, 40), inner: Expr::UnaryOp { op, operand: Box::new(operand) } }
}

fn set(name: &str, assign_op: AssignmentToken, value: Spanned<Expr>) -> Spanned<Statement> {
    Spanned { span: sp(50, 60), inner: Statement::SetVar { var_expr: ident(name), assign_op, value_expr: value } }
}

fn ret(value: Spanned<Expr>) -> Spanned<Statement> {
    Spanned { span: sp(70, 80), inner: Statement::Return(value) }
}

fn generate(f: &UserFunction, block: &[StatementRef]) -> Compiler {
    let mut compiler = Compiler::new(context(), "rule");
    compiler.begin_function("helper".to_owned(), 0, f.var_slots());
    f.compile_body(&mut compiler, sp(0, 0), &block.to_vec()).unwrap();
    compiler
}

fn run_program(f: &mut UserFunction, program: Vec<Spanned<Statement>>) -> (ReturnValue, Compiler) {
    let block = f.build_statement_block_ast(&program).unwrap();
    let compiler = generate(f, &block);
    let raw = compiler.code().execute(&vec![]).expect("the code returns a value");
    (decode_return_value(raw as u64), compiler)
}

fn raw_result(program: Vec<Spanned<Statement>>) -> i64 {
    let mut f = UserFunction::new_helper_function(meta(), Type::Int);
    let block = f.build_statement_block_ast(&program).unwrap();
    generate(&f, &block).code().execute(&vec![]).expect("the code returns a value")
}

fn helper_result(program: Vec<Spanned<Statement>>) -> ReturnValue {
    let mut f = UserFunction::new_helper_function(meta(), Type::Int);
    run_program(&mut f, program).0
}

fn error_of(program: Vec<Spanned<Statement>>) -> LangError {
    let mut f = UserFunction::new_helper_function(meta(), Type::Int);
    match run_program(&mut f, program).0 {
        ReturnValue::Error(index) => {
            f.error_point(&ndca_lang::ast::ErrorPointRef { idx: index as usize, error: LangErrorMsg::Unimplemented.without_span() })
        }
        ReturnValue::Value(value) => panic!("the function gave {}", value),
    }
}

fn conditional(cond: i64) -> Vec<Spanned<Statement>> {
    vec![
        set("a", AssignmentToken::Assign, lit(0)),
        set("b", AssignmentToken::Assign, lit(0)),
        Spanned {
            span: sp(0, 100),
            inner: Statement::If {
                cond_expr: lit(cond),
                if_true: vec![set("a", AssignmentToken::Assign, lit(1))],
                if_false: vec![set("b", AssignmentToken::Assign, lit(1))],
            },
        },
        ret(binary(binary(ident("a"), OperatorToken::Asterisk, lit(10)), OperatorToken::Plus, ident("b"))),
    ]
}

#[test]
fn nonzero_condition_runs_only_the_true_arm() {
    assert_eq!(helper_result(conditional(1)), ReturnValue::Value(10));
    assert_eq!(helper_result(conditional(-5)), ReturnValue::Value(10));
    assert_eq!(helper_result(conditional(256)), ReturnValue::Value(10));
}

#[test]
fn zero_condition_runs_only_the_false_arm() {
    assert_eq!(helper_result(conditional(0)), ReturnValue::Value(1));
}

#[test]
fn arm_that_returns_gets_no_branch_to_merge() {
    let program = vec![
        Spanned {
            span: sp(0, 100),
            inner: Statement::If { cond_expr: lit(1), if_true: vec![ret(lit(7))], if_false: vec![] },
        },
        ret(lit(8)),
    ];
    let mut f = UserFunction::new_helper_function(meta(), Type::Int);
    let (value, compiler) = run_program(&mut f, program);
    assert_eq!(value, ReturnValue::Value(7));
    let blocks = &compiler.code().blocks;
    assert_eq!(blocks[1].insts.len(), 1);
    assert_eq!(blocks[2].insts.len(), 1);
    assert!(!compiler.needs_terminator());
}

#[test]
fn compound_assignment_behaves_as_plain_assignment_of_operation() {
    let compound = vec![set("x", AssignmentToken::Assign, lit(5)), set("x", AssignmentToken::SubAssign, lit(3)), ret(ident("x"))];
    assert_eq!(helper_result(compound), ReturnValue::Value(2));
    let mut a = UserFunction::new_helper_function(meta(), Type::Int);
    let (_, code_a) = run_program(
        &mut a,
        vec![set("x", AssignmentToken::Assign, lit(5)), set("x", AssignmentToken::SubAssign, lit(3)), ret(ident("x"))],
    );
    let mut b = UserFunction::new_helper_function(meta(), Type::Int);
    let desugared = Spanned {
        span: sp(50, 60),
        inner: Expr::BinaryOp { lhs: Box::new(ident("x")), op: OperatorToken::Minus, rhs: Box::new(lit(3)) },
    };
    let (_, code_b) = run_program(
        &mut b,
        vec![set("x", AssignmentToken::Assign, lit(5)), set("x", AssignmentToken::Assign, desugared), ret(ident("x"))],
    );
    assert_eq!(code_a.code(), code_b.code());
}

#[test]
fn overflow_of_addition_returns_its_error_point() {
    let program = vec![set("x", AssignmentToken::Assign, lit(i64::MAX)), set("x", AssignmentToken::AddAssign, lit(1)), ret(ident("x"))];
    assert_eq!(error_of(program), LangError { span: Some(sp(50, 60)), msg: LangErrorMsg::IntegerOverflow });
}

#[test]
fn division_in_program_is_guarded() {
    let div = |a: i64, b: i64| vec![ret(binary(lit(a), OperatorToken::Slash, lit(b)))];
    assert_eq!(helper_result(div(10, 3)), ReturnValue::Value(3));
    assert_eq!(raw_result(div(-10, 3)), -3);
    assert_eq!(error_of(div(10, 0)), LangError { span: Some(sp(10, 20)), msg: LangErrorMsg::DivideByZero });
    assert_eq!(error_of(div(i64::MIN, -1)), LangError { span: Some(sp(10, 20)), msg: LangErrorMsg::IntegerOverflow });
    let rem = |a: i64, b: i64| vec![ret(binary(lit(a), OperatorToken::Percent, lit(b)))];
    assert_eq!(helper_result(rem(10, 3)), ReturnValue::Value(1));
    assert_eq!(error_of(rem(10, 0)), LangError { span: Some(sp(10, 20)), msg: LangErrorMsg::DivideByZero });
}

#[test]
fn other_operations_compute_their_values() {
    let op = |a: i64, op: OperatorToken, b: i64| helper_result(vec![ret(binary(lit(a), op, lit(b)))]);
    assert_eq!(op(6, OperatorToken::Asterisk, 7), ReturnValue::Value(42));
    assert_eq!(op(6, OperatorToken::Ampersand, 3), ReturnValue::Value(2));
    assert_eq!(op(6, OperatorToken::Pipe, 3), ReturnValue::Value(7));
    assert_eq!(op(3, OperatorToken::DoubleLessThan, 4), ReturnValue::Value(48));
    assert_eq!(op(48, OperatorToken::DoubleGreaterThan, 4), ReturnValue::Value(3));
    assert_eq!(op(48, OperatorToken::TripleGreaterThan, 4), ReturnValue::Value(3));
    assert_eq!(
        error_of(vec![ret(binary(lit(1), OperatorToken::DoubleLessThan, lit(64)))]),
        LangError { span: Some(sp(10, 20)), msg: LangErrorMsg::IntegerOverflow }
    );
    assert_eq!(helper_result(vec![ret(unary(OperatorToken::Minus, lit(-9)))]), ReturnValue::Value(9));
    assert_eq!(
        error_of(vec![ret(unary(OperatorToken::Minus, lit(i64::MIN)))]),
        LangError { span: Some(sp(30, 40)), msg: LangErrorMsg::IntegerOverflow }
    );
}

#[test]
fn chained_comparison_holds_where_every_pair_does() {
    let chain = |a: i64, b: i64, c: i64| {
        helper_result(vec![ret(Spanned {
            span: sp(0, 9),
            inner: Expr::Cmp {
                exprs: vec![lit(a), lit(b), lit(c)],
                comparisons: vec![ComparisonToken::LessThan, ComparisonToken::LessThanOrEqual],
            },
        })])
    };
    assert_eq!(chain(1, 2, 2), ReturnValue::Value(1));
    assert_eq!(chain(1, 2, 1), ReturnValue::Value(0));
    assert_eq!(chain(2, 2, 3), ReturnValue::Value(0));
}

#[test]
fn transition_function_becomes_a_cell_state() {
    let mut f = UserFunction::new_transition_function(meta());
    let program = vec![Spanned { span: sp(0, 9), inner: Statement::Become(unary(OperatorToken::Tag, lit(2))) }];
    assert_eq!(run_program(&mut f, program).0, ReturnValue::Value(2));
    let mut g = UserFunction::new_transition_function(meta());
    let program = vec![Spanned { span: sp(0, 9), inner: Statement::Become(unary(OperatorToken::Tag, lit(3))) }];
    match run_program(&mut g, program).0 {
        ReturnValue::Error(index) => assert_eq!(index, 0),
        other => panic!("unexpected {:?}", other),
    }
}

#[test]
fn power_has_no_code_yet() {
    let mut f = UserFunction::new_helper_function(meta(), Type::Int);
    let block = f.build_statement_block_ast(&vec![ret(binary(lit(2), OperatorToken::DoubleAsterisk, lit(3)))]).unwrap();
    let mut compiler = Compiler::new(context(), "rule");
    compiler.begin_function("helper".to_owned(), 0, f.var_slots());
    assert_eq!(
        f.compile_statement(&mut compiler, block[0]),
        Err(LangError { span: Some(sp(10, 20)), msg: LangErrorMsg::Unimplemented })
    );
}

#[test]
fn assignment_of_another_type_than_the_variable_has_is_refused_by_the_generator() {
    let mut f = UserFunction::new_helper_function(meta(), Type::Int);
    let program = vec![set("x", AssignmentToken::Assign, lit(1)), set("x", AssignmentToken::Assign, unary(OperatorToken::Tag, lit(1)))];
    let block = f.build_statement_block_ast(&program).unwrap();
    let mut compiler = Compiler::new(context(), "rule");
    compiler.begin_function("helper".to_owned(), 0, f.var_slots());
    assert_eq!(f.compile_statement(&mut compiler, block[0]), Ok(()));
    assert_eq!(
        f.compile_statement(&mut compiler, block[1]),
        Err(LangError { span: Some(sp(50, 60)), msg: LangErrorMsg::TypeError { expected: Type::Int, got: Type::CellState } })
    );
}

#[test]
fn variable_without_slot_is_refused_by_the_generator() {
    let mut f = UserFunction::new_helper_function(meta(), Type::Int);
    let block = f.build_statement_block_ast(&vec![set("x", AssignmentToken::Assign, lit(1))]).unwrap();
    let mut compiler = Compiler::new(context(), "rule");
    compiler.begin_function("helper".to_owned(), 0, vec![]);
    assert_eq!(
        f.compile_statement(&mut compiler, block[0]),
        Err(LangError { span: Some(sp(50, 60)), msg: LangErrorMsg::InternalError("Variable has no slot of its type") })
    );
}

#[test]
fn whole_program_lowers_to_valid_backend_code() {
    let mut f = UserFunction::new_helper_function(meta(), Type::Int);
    let mut program = conditional(1);
    program.insert(2, set("s", AssignmentToken::Assign, unary(OperatorToken::Tag, lit(1))));
    program.insert(3, set("a", AssignmentToken::DivAssign, lit(3)));
    program.insert(4, set("a", AssignmentToken::ShlAssign, lit(2)));
    let (_, mut compiler) = run_program(&mut f, program);
    compiler.finish_function().unwrap();
    assert!(compiler.fn_value().is_some());
    assert_eq!(compiler.module().verify().map_err(|e| e.to_string()), Ok(()));
    let text = compiler.module().print_to_string().to_string();
    assert!(text.contains("define i64 @helper()"));
    assert!(text.contains("alloca i64"));
    assert!(text.contains("alloca i8"));
    assert!(text.contains("llvm.smul.with.overflow.i64"));
    assert!(text.contains("endIf"));
}

#[test]
fn error_point_compiles_to_its_signal() {
    let mut f = UserFunction::new_helper_function(meta(), Type::Int);
    f.add_error_point(LangErrorMsg::DivideByZero.with_span(sp(0, 1)));
    let point = f.add_error_point(LangErrorMsg::IntegerOverflow.with_span(sp(2, 3)));
    let mut compiler = Compiler::new(context(), "rule");
    compiler.begin_function("trap".to_owned(), 0, vec![]);
    point.compile(&mut compiler);
    assert!(!compiler.needs_terminator());
    let raw = compiler.code().execute(&vec![]).unwrap();
    assert_eq!(raw as u64, 0x8000_0000_0000_0001);
    assert_eq!(decode_return_value(raw as u64), ReturnValue::Error(1));
}

#[test]
fn body_without_exit_returns_nothing() {
    let mut f = UserFunction::new_helper_function(meta(), Type::Int);
    let block = f.build_statement_block_ast(&vec![set("x", AssignmentToken::Assign, lit(1))]).unwrap();
    let compiler = generate(&f, &block);
    assert_eq!(compiler.code().execute(&vec![]), None);
    assert!(compiler.needs_terminator());
}

#[test]
fn statement_that_is_none_of_the_function_is_refused() {
    let f = UserFunction::new_helper_function(meta(), Type::Int);
    let mut compiler = Compiler::new(context(), "rule");
    compiler.begin_function("helper".to_owned(), 0, vec![]);
    assert_eq!(
        f.compile_body(&mut compiler, sp(1, 2), &vec![StatementRef(0)]),
        Err(LangError { span: Some(sp(1, 2)), msg: LangErrorMsg::InternalError("Malformed program") })
    );
}

#[test]
fn statements_after_an_exit_do_not_run() {
    let program = vec![
        set("x", AssignmentToken::Assign, lit(1)),
        ret(ident("x")),
        set("x", AssignmentToken::Assign, lit(2)),
        ret(ident("x")),
    ];
    assert_eq!(helper_result(program), ReturnValue::Value(1));
}

#[test]
fn nested_conditionals_run_one_path() {
    let inner = |value: i64| Spanned {
        span: sp(0, 50),
        inner: Statement::If {
            cond_expr: ident("b"),
            if_true: vec![ret(lit(value))],
            if_false: vec![set("r", AssignmentToken::AddAssign, lit(value))],
        },
    };
    let program = |a: i64, b: i64| {
        vec![
            set("a", AssignmentToken::Assign, lit(a)),
            set("b", AssignmentToken::Assign, lit(b)),
            set("r", AssignmentToken::Assign, lit(0)),
            Spanned {
                span: sp(0, 100),
                inner: Statement::If { cond_expr: ident("a"), if_true: vec![inner(10)], if_false: vec![inner(20)] },
            },
            ret(binary(ident("r"), OperatorToken::Plus, lit(1000))),
        ]
    };
    assert_eq!(helper_result(program(1, 1)), ReturnValue::Value(10));
    assert_eq!(helper_result(program(1, 0)), ReturnValue::Value(1010));
    assert_eq!(helper_result(program(0, 1)), ReturnValue::Value(20));
    assert_eq!(helper_result(program(0, 0)), ReturnValue::Value(1020));
}
