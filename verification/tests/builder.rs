use ndca_lang::ast::{Function, RuleMeta, Statement as Node, UserFunction};
use ndca_lang::ast::{ExprRef, StatementRef};
use ndca_lang::errors::{LangError, LangErrorMsg, Span};
use ndca_lang::lexer::{AssignmentToken, ComparisonToken, OperatorToken, PunctuationToken};
use ndca_lang::parser::{Expr, Spanned, Statement};
use ndca_lang::types::Type;
use std::rc::Rc;

fn meta() -> Rc<RuleMeta> {
    Rc::new(RuleMeta { ndim: 2, neighborhood_radius: 1, state_count: 2 })
}

fn sp(start: usize, end: usize) -> Span {
    Span { start, end }
}

fn err(start: usize, end: usize, msg: LangErrorMsg) -> LangError {
    LangError { span: Some(sp(start, end)), msg }
}

fn lit(start: usize, end: usize, value: i64) -> Spanned<Expr> {
    Spanned { span: sp(start, end), inner: Expr::Int(value) }
}

fn ident(start: usize, end: usize, name: &str) -> Spanned<Expr> {
    Spanned { span: sp(start, end), inner: Expr::Ident(name.to_owned()) }
}

fn binary(start: usize, end: usize, lhs: Spanned<Expr>, op: OperatorToken, rhs: Spanned<Expr>) -> Spanned<Expr> {
    Spanned { span: sp(start, end), inner: Expr::BinaryOp { lhs: Box::new(lhs), op, rhs: Box::new(rhs) } }
}

fn unary(start: usize, end: usize, op: OperatorToken, operand: Spanned<Expr>) -> Spanned<Expr> {
    Spanned { span: sp(start, end), inner: Expr::UnaryOp { op, operand: Box::new(operand) } }
}

fn set(start: usize, end: usize, var: Spanned<Expr>, assign_op: AssignmentToken, value: Spanned<Expr>) -> Spanned<Statement> {
    Spanned { span: sp(start, end), inner: Statement::SetVar { var_expr: var, assign_op, value_expr: value } }
}

fn helper() -> UserFunction {
    UserFunction::new_helper_function(meta(), Type::Int)
}

#[test]
fn new_functions_are_empty() {
    let t = UserFunction::new_transition_function(meta());
    assert!(t.is_transition_function());
    assert_eq!(t.return_type(), Type::CellState);
    assert_eq!(t.expr_count(), 0);
    assert_eq!(t.statement_count(), 0);
    assert_eq!(t.error_point_count(), 0);
    assert_eq!(t.var_count(), 0);
    assert_eq!(**t.rule_meta(), RuleMeta { ndim: 2, neighborhood_radius: 1, state_count: 2 });
    let h = UserFunction::new_helper_function(meta(), Type::Vector(3));
    assert!(!h.is_transition_function());
    assert_eq!(h.return_type(), Type::Vector(3));
}

#[test]
fn get_or_create_var_keeps_first_type() {
    let mut f = helper();
    assert_eq!(f.get_or_create_var("x", Type::Int), Type::Int);
    assert_eq!(f.get_or_create_var("x", Type::CellState), Type::Int);
    assert_eq!(f.get_or_create_var("y", Type::CellState), Type::CellState);
    assert_eq!(f.get_or_create_var("x", Type::Vector(3)), Type::Int);
    assert_eq!(f.try_get_var(sp(0, 1), "x"), Ok(Type::Int));
    assert_eq!(f.try_get_var(sp(0, 1), "y"), Ok(Type::CellState));
    assert_eq!(f.var_count(), 2);
}

#[test]
fn try_get_var_of_unknown_variable_fails() {
    let f = UserFunction::new_transition_function(meta());
    assert_eq!(f.try_get_var(sp(3, 4), "y"), Err(err(3, 4, LangErrorMsg::UseOfUninitializedVariable)));
}

#[test]
fn reading_unknown_variable_fails_to_build() {
    let mut f = helper();
    assert_eq!(
        f.build_expression_ast(&ident(2, 5, "foo")),
        Err(err(2, 5, LangErrorMsg::UseOfUninitializedVariable))
    );
    assert_eq!(f.expr_count(), 0);
}

#[test]
fn error_points_are_numbered_in_order() {
    let mut f = helper();
    let a = f.add_error_point(LangErrorMsg::IntegerOverflow.with_span(sp(0, 1)));
    let b = f.add_error_point(LangErrorMsg::DivideByZero.with_span(sp(2, 3)));
    assert_eq!(a.idx, 0);
    assert_eq!(b.idx, 1);
    assert_eq!(a.error(), err(0, 1, LangErrorMsg::IntegerOverflow));
    assert_eq!(b.err::<u8>(), Err(err(2, 3, LangErrorMsg::DivideByZero)));
    assert_eq!(f.error_point(&b), err(2, 3, LangErrorMsg::DivideByZero));
    assert_eq!(f.error_point_count(), 2);
    assert!(a != b);
    let same_index = ndca_lang::ast::ErrorPointRef { idx: 0, error: err(9, 9, LangErrorMsg::DivideByZero) };
    assert!(a == same_index);
}

#[test]
fn group_in_round_brackets_is_its_inner_expression() {
    let mut f = helper();
    let group = Spanned {
        span: sp(0, 3),
        inner: Expr::Group { start_token: PunctuationToken::LParen, inner: Box::new(lit(1, 2, 7)) },
    };
    assert_eq!(f.build_expression_ast(&group), Ok(ExprRef(0)));
    assert_eq!(f.expr_count(), 1);
    assert_eq!(f.expr(ExprRef(0)).span, sp(1, 2));
    assert_eq!(f.expr(ExprRef(0)).function, Function::Int(7));
}

#[test]
fn unfinished_constructs_are_refused() {
    let mut f = helper();
    let bracket = Spanned {
        span: sp(0, 3),
        inner: Expr::Group { start_token: PunctuationToken::LBracket, inner: Box::new(lit(1, 2, 7)) },
    };
    assert_eq!(f.build_expression_ast(&bracket), Err(err(0, 3, LangErrorMsg::Unimplemented)));
    let method = binary(0, 3, lit(0, 1, 1), OperatorToken::Dot, lit(2, 3, 2));
    assert_eq!(f.build_expression_ast(&method), Err(err(0, 3, LangErrorMsg::Unimplemented)));
    let range = binary(0, 4, lit(0, 1, 1), OperatorToken::DotDot, lit(3, 4, 2));
    assert_eq!(f.build_expression_ast(&range), Err(err(0, 4, LangErrorMsg::Unimplemented)));
    assert_eq!(f.expr_count(), 0);
}

#[test]
fn malformed_shapes_are_internal_errors() {
    let mut f = helper();
    let group = Spanned {
        span: sp(0, 3),
        inner: Expr::Group { start_token: PunctuationToken::LBrace, inner: Box::new(lit(1, 2, 7)) },
    };
    assert_eq!(f.build_expression_ast(&group), Err(err(0, 3, LangErrorMsg::InternalError("Invalid group"))));
    assert_eq!(
        f.build_expression_ast(&unary(0, 2, OperatorToken::Plus, lit(1, 2, 1))),
        Err(err(0, 2, LangErrorMsg::InternalError("Invalid unary operator")))
    );
    assert_eq!(
        f.build_expression_ast(&binary(0, 3, lit(0, 1, 1), OperatorToken::Caret, lit(2, 3, 1))),
        Err(err(0, 3, LangErrorMsg::InternalError("Invalid binary operator")))
    );
    let short_chain = Spanned {
        span: sp(0, 5),
        inner: Expr::Cmp { exprs: vec![lit(0, 1, 1)], comparisons: vec![ComparisonToken::LessThan] },
    };
    assert_eq!(
        f.build_expression_ast(&short_chain),
        Err(err(0, 5, LangErrorMsg::InternalError("Invalid number of arguments")))
    );
}

#[test]
fn list_is_no_expression() {
    let mut f = helper();
    let list = Spanned { span: sp(0, 4), inner: Expr::List(vec![lit(0, 1, 1), lit(3, 4, 2)]) };
    assert_eq!(
        f.build_expression_ast(&list),
        Err(err(0, 4, LangErrorMsg::ExpectedGot { expected: "expression", got: "comma-separated list" }))
    );
}

#[test]
fn binary_operation_builds_left_then_right_then_itself() {
    let mut f = helper();
    let tree = binary(0, 5, lit(0, 1, 6), OperatorToken::Slash, lit(4, 5, 3));
    assert_eq!(f.build_expression_ast(&tree), Ok(ExprRef(2)));
    assert_eq!(f.expr(ExprRef(0)).function, Function::Int(6));
    assert_eq!(f.expr(ExprRef(1)).function, Function::Int(3));
    let node = f.expr(ExprRef(2));
    assert_eq!(node.args, vec![ExprRef(0), ExprRef(1)]);
    assert_eq!(node.return_type, Type::Int);
    assert_eq!(node.span, sp(0, 5));
    match &node.function {
        Function::BinaryIntOp { op, overflow_error, div_by_zero_error } => {
            assert_eq!(*op, OperatorToken::Slash);
            assert_eq!(overflow_error.unwrap().idx, 0);
            assert_eq!(overflow_error.unwrap().error(), err(0, 5, LangErrorMsg::IntegerOverflow));
            assert_eq!(div_by_zero_error.unwrap().idx, 1);
            assert_eq!(div_by_zero_error.unwrap().error(), err(0, 5, LangErrorMsg::DivideByZero));
        }
        other => panic!("unexpected function {:?}", other),
    }
    assert_eq!(f.error_point_count(), 2);
}

#[test]
fn bitwise_operation_registers_no_error_point() {
    let mut f = helper();
    let tree = binary(0, 5, lit(0, 1, 6), OperatorToken::Ampersand, lit(4, 5, 3));
    assert_eq!(f.build_expression_ast(&tree), Ok(ExprRef(2)));
    assert_eq!(f.error_point_count(), 0);
}

#[test]
fn failure_of_right_operand_keeps_left_operand_built() {
    let mut f = helper();
    let tree = binary(0, 5, lit(0, 1, 6), OperatorToken::Plus, ident(4, 5, "z"));
    assert_eq!(f.build_expression_ast(&tree), Err(err(4, 5, LangErrorMsg::UseOfUninitializedVariable)));
    assert_eq!(f.expr_count(), 1);
    assert_eq!(f.error_point_count(), 0);
}

#[test]
fn operand_of_wrong_type_is_a_type_error_at_its_place() {
    let mut f = helper();
    let state = unary(4, 6, OperatorToken::Tag, lit(5, 6, 1));
    let tree = binary(0, 6, lit(0, 1, 6), OperatorToken::Plus, state);
    assert_eq!(
        f.build_expression_ast(&tree),
        Err(err(4, 6, LangErrorMsg::TypeError { expected: Type::Int, got: Type::CellState }))
    );
}

#[test]
fn negation_and_tag_take_one_integer() {
    let mut f = helper();
    assert_eq!(f.build_expression_ast(&unary(0, 2, OperatorToken::Minus, lit(1, 2, 4))), Ok(ExprRef(1)));
    assert_eq!(f.expr(ExprRef(1)).return_type, Type::Int);
    assert_eq!(f.build_expression_ast(&unary(3, 5, OperatorToken::Tag, lit(4, 5, 1))), Ok(ExprRef(3)));
    assert_eq!(f.expr(ExprRef(3)).return_type, Type::CellState);
    assert_eq!(f.error_point(&ndca_lang::ast::ErrorPointRef { idx: 1, error: err(0, 0, LangErrorMsg::Unimplemented) }),
        err(3, 5, LangErrorMsg::CellStateOutOfRange));
}

#[test]
fn chained_comparison_is_one_expression() {
    let mut f = helper();
    let chain = Spanned {
        span: sp(0, 10),
        inner: Expr::Cmp {
            exprs: vec![lit(0, 1, 1), lit(4, 5, 2), lit(9, 10, 3)],
            comparisons: vec![ComparisonToken::LessThan, ComparisonToken::LessThanOrEqual],
        },
    };
    assert_eq!(f.build_expression_ast(&chain), Ok(ExprRef(3)));
    let node = f.expr(ExprRef(3));
    assert_eq!(node.args, vec![ExprRef(0), ExprRef(1), ExprRef(2)]);
    assert_eq!(
        node.function,
        Function::Cmp { comparisons: vec![ComparisonToken::LessThan, ComparisonToken::LessThanOrEqual] }
    );
    assert_eq!(node.return_type, Type::Int);
}

#[test]
fn assignment_target_must_be_a_name() {
    let mut f = helper();
    let statement = set(0, 5, lit(0, 1, 1), AssignmentToken::Assign, lit(4, 5, 3));
    assert_eq!(f.build_statement_ast(&statement), Err(err(0, 5, LangErrorMsg::Expected("variable name"))));
    assert_eq!(f.expr_count(), 0);
}

#[test]
fn assignment_creates_variable_with_type_of_value() {
    let mut f = helper();
    let statement = set(0, 6, ident(0, 1, "s"), AssignmentToken::Assign, unary(4, 6, OperatorToken::Tag, lit(5, 6, 1)));
    assert_eq!(f.build_statement_ast(&statement), Ok(StatementRef(0)));
    assert_eq!(f.try_get_var(sp(0, 0), "s"), Ok(Type::CellState));
    let again = set(7, 12, ident(7, 8, "s"), AssignmentToken::Assign, lit(11, 12, 3));
    assert_eq!(f.build_statement_ast(&again), Ok(StatementRef(1)));
    assert_eq!(f.try_get_var(sp(0, 0), "s"), Ok(Type::CellState));
}

fn arena(f: &UserFunction) -> (Vec<String>, Vec<String>) {
    let exprs = (0..f.expr_count()).map(|i| format!("{:?}", f.expr(ExprRef(i)))).collect();
    let statements = (0..f.statement_count()).map(|i| format!("{:?}", f.statement(StatementRef(i)))).collect();
    (exprs, statements)
}

#[test]
fn compound_assignment_builds_what_plain_assignment_of_operation_builds() {
    let first = || set(0, 5, ident(0, 1, "x"), AssignmentToken::Assign, lit(4, 5, 3));
    let mut compound = helper();
    compound.build_statement_ast(&first()).unwrap();
    let result = compound.build_statement_ast(&set(6, 12, ident(6, 7, "x"), AssignmentToken::AddAssign, lit(11, 12, 4)));
    let mut plain = helper();
    plain.build_statement_ast(&first()).unwrap();
    let desugared = binary(6, 12, ident(6, 7, "x"), OperatorToken::Plus, lit(11, 12, 4));
    let expected = plain.build_statement_ast(&set(6, 12, ident(6, 7, "x"), AssignmentToken::Assign, desugared));
    assert_eq!(result, Ok(StatementRef(1)));
    assert_eq!(result, expected);
    assert_eq!(arena(&compound), arena(&plain));
    assert_eq!(compound.expr_count(), 4);
    assert_eq!(compound.error_point_count(), 1);
    assert_eq!(compound.expr(ExprRef(3)).args, vec![ExprRef(1), ExprRef(2)]);
}

#[test]
fn compound_assignment_to_unknown_variable_fails() {
    let mut f = helper();
    let statement = set(0, 6, ident(0, 1, "x"), AssignmentToken::MulAssign, lit(5, 6, 4));
    assert_eq!(f.build_statement_ast(&statement), Err(err(0, 1, LangErrorMsg::UseOfUninitializedVariable)));
}

#[test]
fn become_in_helper_function_fails() {
    let mut f = helper();
    let statement = Spanned { span: sp(0, 8), inner: Statement::Become(lit(7, 8, 1)) };
    assert_eq!(f.build_statement_ast(&statement), Err(err(0, 8, LangErrorMsg::BecomeInHelperFunction)));
    assert_eq!(f.expr_count(), 0);
    let block = vec![set(0, 5, ident(0, 1, "x"), AssignmentToken::Assign, lit(4, 5, 3)), Spanned { span: sp(6, 14), inner: Statement::Become(lit(13, 14, 1)) }];
    assert_eq!(f.build_statement_block_ast(&block), Err(err(6, 14, LangErrorMsg::BecomeInHelperFunction)));
    assert_eq!(f.statement_count(), 1);
}

#[test]
fn return_in_transition_function_fails() {
    let mut f = UserFunction::new_transition_function(meta());
    let statement = Spanned { span: sp(0, 8), inner: Statement::Return(lit(7, 8, 1)) };
    assert_eq!(f.build_statement_ast(&statement), Err(err(0, 8, LangErrorMsg::ReturnInTransitionFunction)));
}

#[test]
fn exit_with_fitting_keyword_builds() {
    let mut h = helper();
    let ret = Spanned { span: sp(0, 8), inner: Statement::Return(lit(7, 8, 1)) };
    assert_eq!(h.build_statement_ast(&ret), Ok(StatementRef(0)));
    assert_eq!(*h.statement(StatementRef(0)), Node::Return { span: sp(0, 8), ret_expr: ExprRef(0) });
    let mut t = UserFunction::new_transition_function(meta());
    let exit = Spanned { span: sp(0, 9), inner: Statement::Become(unary(7, 9, OperatorToken::Tag, lit(8, 9, 1))) };
    assert_eq!(t.build_statement_ast(&exit), Ok(StatementRef(0)));
}

#[test]
fn exit_with_value_of_wrong_type_fails() {
    let mut t = UserFunction::new_transition_function(meta());
    let exit = Spanned { span: sp(0, 8), inner: Statement::Become(lit(7, 8, 1)) };
    assert_eq!(
        t.build_statement_ast(&exit),
        Err(err(7, 8, LangErrorMsg::TypeError { expected: Type::CellState, got: Type::Int }))
    );
    assert_eq!(t.expr_count(), 1);
    assert_eq!(t.statement_count(), 0);
}

#[test]
fn conditional_builds_both_blocks_before_itself() {
    let mut f = helper();
    let statement = Spanned {
        span: sp(0, 30),
        inner: Statement::If {
            cond_expr: lit(3, 4, 1),
            if_true: vec![set(6, 11, ident(6, 7, "a"), AssignmentToken::Assign, lit(10, 11, 1))],
            if_false: vec![],
        },
    };
    assert_eq!(f.build_statement_ast(&statement), Ok(StatementRef(1)));
    assert_eq!(
        *f.statement(StatementRef(1)),
        Node::If { span: sp(0, 30), cond_expr: ExprRef(0), if_true: vec![StatementRef(0)], if_false: vec![] }
    );
}

#[test]
fn condition_must_be_an_integer() {
    let mut f = helper();
    let statement = Spanned {
        span: sp(0, 30),
        inner: Statement::If { cond_expr: unary(3, 5, OperatorToken::Tag, lit(4, 5, 1)), if_true: vec![], if_false: vec![] },
    };
    assert_eq!(
        f.build_statement_ast(&statement),
        Err(err(3, 5, LangErrorMsg::TypeError { expected: Type::Int, got: Type::CellState }))
    );
}

#[test]
fn constants_are_folded() {
    let mut f = helper();
    let tree = binary(0, 9, binary(0, 5, lit(0, 1, 6), OperatorToken::Asterisk, lit(4, 5, 7)), OperatorToken::Minus, lit(8, 9, 2));
    let r = f.build_expression_ast(&tree).unwrap();
    assert_eq!(f.const_eval_expr(r), Ok(ndca_lang::types::ConstValue::Int(40)));
    let division = f.build_expression_ast(&binary(0, 6, lit(0, 2, -7), OperatorToken::Slash, lit(5, 6, 2))).unwrap();
    assert_eq!(f.const_eval_expr(division), Ok(ndca_lang::types::ConstValue::Int(-3)));
    let remainder = f.build_expression_ast(&binary(0, 6, lit(0, 2, -7), OperatorToken::Percent, lit(5, 6, 2))).unwrap();
    assert_eq!(f.const_eval_expr(remainder), Ok(ndca_lang::types::ConstValue::Int(-1)));
    let state = f.build_expression_ast(&unary(0, 2, OperatorToken::Tag, lit(1, 2, 1))).unwrap();
    assert_eq!(f.const_eval_expr(state), Ok(ndca_lang::types::ConstValue::CellState(1)));
    let chain = Spanned {
        span: sp(0, 10),
        inner: Expr::Cmp {
            exprs: vec![lit(0, 1, 1), lit(4, 5, 2), lit(9, 10, 2)],
            comparisons: vec![ComparisonToken::LessThan, ComparisonToken::LessThan],
        },
    };
    let chain = f.build_expression_ast(&chain).unwrap();
    assert_eq!(f.const_eval_expr(chain), Ok(ndca_lang::types::ConstValue::Int(0)));
}

#[test]
fn constant_errors_are_those_of_the_error_points() {
    let mut f = helper();
    f.get_or_create_var("x", Type::Int);
    let var = f.build_expression_ast(&ident(0, 1, "x")).unwrap();
    assert_eq!(f.const_eval_expr(var), Err(err(0, 1, LangErrorMsg::CannotEvalAsConst)));
    let overflow = f.build_expression_ast(&binary(0, 5, lit(0, 1, i64::MAX), OperatorToken::Plus, lit(4, 5, 1))).unwrap();
    assert_eq!(f.const_eval_expr(overflow), Err(err(0, 5, LangErrorMsg::IntegerOverflow)));
    let zero = f.build_expression_ast(&binary(2, 7, lit(2, 3, 10), OperatorToken::Slash, lit(6, 7, 0))).unwrap();
    assert_eq!(f.const_eval_expr(zero), Err(err(2, 7, LangErrorMsg::DivideByZero)));
    let min = f.build_expression_ast(&binary(3, 8, lit(3, 4, i64::MIN), OperatorToken::Slash, lit(7, 8, -1))).unwrap();
    assert_eq!(f.const_eval_expr(min), Err(err(3, 8, LangErrorMsg::IntegerOverflow)));
    let neg = f.build_expression_ast(&unary(0, 2, OperatorToken::Minus, lit(1, 2, i64::MIN))).unwrap();
    assert_eq!(f.const_eval_expr(neg), Err(err(0, 2, LangErrorMsg::IntegerOverflow)));
    let state = f.build_expression_ast(&unary(0, 2, OperatorToken::Tag, lit(1, 2, 2))).unwrap();
    assert_eq!(f.const_eval_expr(state), Err(err(0, 2, LangErrorMsg::CellStateOutOfRange)));
    let power = f.build_expression_ast(&binary(0, 6, lit(0, 1, 2), OperatorToken::DoubleAsterisk, lit(5, 6, 3))).unwrap();
    assert_eq!(f.const_eval_expr(power), Err(err(0, 6, LangErrorMsg::Unimplemented)));
    let shift = f.build_expression_ast(&binary(0, 7, lit(0, 1, 1), OperatorToken::DoubleLessThan, lit(5, 7, 64))).unwrap();
    assert_eq!(f.const_eval_expr(shift), Err(err(0, 7, LangErrorMsg::IntegerOverflow)));
}

#[test]
fn operations_are_made_with_their_error_points() {
    let mut f = helper();
    f.get_or_create_var("x", Type::CellState);
    assert_eq!(
        Function::get_var(&f, sp(0, 1), "x".to_owned()),
        Ok(Function::GetVar { var_name: "x".to_owned(), var_type: Type::CellState })
    );
    assert_eq!(
        Function::get_var(&f, sp(0, 1), "y".to_owned()),
        Err(err(0, 1, LangErrorMsg::UseOfUninitializedVariable))
    );
    assert_eq!(
        Function::binary_int_op(&mut f, sp(2, 3), OperatorToken::Tag),
        Err(err(2, 3, LangErrorMsg::InternalError("Invalid binary operator")))
    );
    assert_eq!(f.error_point_count(), 0);
    match Function::binary_int_op(&mut f, sp(2, 3), OperatorToken::Percent) {
        Ok(Function::BinaryIntOp { op, overflow_error, div_by_zero_error }) => {
            assert_eq!(op, OperatorToken::Percent);
            assert_eq!(overflow_error.map(|e| e.idx), Some(0));
            assert_eq!(div_by_zero_error.map(|e| e.idx), Some(1));
        }
        other => panic!("unexpected {:?}", other),
    }
    match Function::neg_int(&mut f, sp(4, 5)) {
        Function::NegInt { overflow_error } => {
            assert_eq!(overflow_error.idx, 2);
            assert_eq!(overflow_error.error(), err(4, 5, LangErrorMsg::IntegerOverflow));
        }
        other => panic!("unexpected {:?}", other),
    }
    match Function::int_to_cell_state(&mut f, sp(6, 7)) {
        Function::IntToCellState { out_of_range_error } => {
            assert_eq!(out_of_range_error.idx, 3);
            assert_eq!(out_of_range_error.error(), err(6, 7, LangErrorMsg::CellStateOutOfRange));
        }
        other => panic!("unexpected {:?}", other),
    }
    assert!(Function::Int(1).takes(0));
    assert!(!Function::Int(1).takes(1));
    assert!(Function::Cmp { comparisons: vec![ComparisonToken::Equal] }.takes(2));
    assert_eq!(Function::Int(1).result_type(), Type::Int);
}
