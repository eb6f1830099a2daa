use inkwell::context::Context;
use ndca_lang::ast::{RuleMeta, UserFunction};
use ndca_lang::compiler::{BinOp, CheckedOp, Compiler, FallThrough, Inst, Operand, Trap};
use ndca_lang::errors::{LangErrorMsg, Span};
use ndca_lang::host::{decode_return_value, encode_error, ReturnValue};
use ndca_lang::types::{MAX_INT, MIN_INT};
use std::rc::Rc;

fn context() -> &'static Context {
    Box::leak(Box::new(Context::create()))
}

fn helper() -> UserFunction {
    UserFunction::new_helper_function(
        Rc::new(RuleMeta { ndim: 1, neighborhood_radius: 1, state_count: 2 }),
        ndca_lang::types::Type::Int,
    )
}

fn sp() -> Span {
    Span { start: 0, end: 1 }
}

fn run(compiler: &Compiler, params: &[i64]) -> ReturnValue {
    let raw = compiler.code().execute(&params.to_vec()).expect("the code returns a value");
    decode_return_value(raw as u64)
}

fn division(compiler: &mut Compiler) -> (usize, usize) {
    let mut f = helper();
    let overflow = f.add_error_point(LangErrorMsg::IntegerOverflow.with_span(sp()));
    let div_by_zero = f.add_error_point(LangErrorMsg::DivideByZero.with_span(sp()));
    compiler.begin_function("div".to_owned(), 2, vec![]);
    compiler
        .build_div_check(Operand::Param(0), Operand::Param(1), Trap(overflow), Trap(div_by_zero))
        .unwrap();
    let quotient = compiler.build_binary(BinOp::SDiv, Operand::Param(0), Operand::Param(1)).unwrap();
    compiler.emit(Inst::Return(quotient));
    (overflow.idx, div_by_zero.idx)
}

#[test]
fn division_by_zero_returns_its_error_point() {
    let mut compiler = Compiler::new(context(), "m");
    let (_, div_by_zero) = division(&mut compiler);
    assert_eq!(run(&compiler, &[10, 0]), ReturnValue::Error(div_by_zero as u64));
}

#[test]
fn division_of_min_int_by_minus_one_returns_overflow_error_point() {
    let mut compiler = Compiler::new(context(), "m");
    let (overflow, _) = division(&mut compiler);
    assert_eq!(run(&compiler, &[MIN_INT, -1]), ReturnValue::Error(overflow as u64));
}

#[test]
fn division_of_ten_by_three_returns_three() {
    let mut compiler = Compiler::new(context(), "m");
    division(&mut compiler);
    assert_eq!(run(&compiler, &[10, 3]), ReturnValue::Value(3));
}

#[test]
fn checked_addition_of_max_int_and_one_returns_overflow_error_point() {
    let mut f = helper();
    let _unused = f.add_error_point(LangErrorMsg::DivideByZero.with_span(sp()));
    let overflow = f.add_error_point(LangErrorMsg::IntegerOverflow.with_span(sp()));
    let mut compiler = Compiler::new(context(), "m");
    compiler.begin_function("add".to_owned(), 2, vec![]);
    let sum = compiler
        .build_checked_int_arithmetic(
            Operand::Param(0),
            Operand::Param(1),
            CheckedOp::Add,
            Trap(overflow),
        )
        .unwrap();
    compiler.emit(Inst::Return(sum));
    assert_eq!(run(&compiler, &[MAX_INT, 1]), ReturnValue::Error(1));
    assert_eq!(run(&compiler, &[MAX_INT, 1]), decode_return_value(encode_error(overflow.idx)));
    assert_eq!(run(&compiler, &[MAX_INT - 1, 1]), ReturnValue::Value(MAX_INT as u64));
    assert_eq!(run(&compiler, &[20, 22]), ReturnValue::Value(42));
}

#[test]
fn needs_terminator_follows_the_block_at_the_cursor() {
    let mut compiler = Compiler::new(context(), "m");
    compiler.begin_function("f".to_owned(), 0, vec![]);
    assert!(compiler.needs_terminator());
    compiler.build_return_error(7);
    assert!(!compiler.needs_terminator());
    let other = compiler.append_basic_block("other");
    compiler.position_at_end(other);
    assert!(compiler.needs_terminator());
    compiler.build_compare(
        ndca_lang::lexer::ComparisonToken::Equal,
        Operand::Const { bits: 64, value: 1 },
        Operand::Const { bits: 64, value: 1 },
    )
    .unwrap();
    assert!(compiler.needs_terminator());
}

#[test]
fn conditional_branches_to_merge_only_from_open_arms() {
    let mut f = helper();
    let error = f.add_error_point(LangErrorMsg::IntegerOverflow.with_span(sp()));
    let mut compiler = Compiler::new(context(), "m");
    compiler.begin_function("f".to_owned(), 1, vec![]);
    compiler.build_conditional(Operand::Param(0), Trap(error), FallThrough).unwrap();
    let blocks = &compiler.code().blocks;
    assert_eq!(blocks.len(), 4);
    assert_eq!(blocks[1].name, "ifTrue");
    assert_eq!(blocks[2].name, "ifFalse");
    assert_eq!(blocks[3].name, "endIf");
    assert_eq!(blocks[1].insts.len(), 1);
    assert!(matches!(blocks[1].insts[0], Inst::Return(_)));
    assert_eq!(blocks[2].insts, vec![Inst::Branch(ndca_lang::compiler::BlockRef(3))]);
    assert!(blocks[3].insts.is_empty());
    assert_eq!(compiler.cursor(), ndca_lang::compiler::BlockRef(3));
    assert!(compiler.needs_terminator());
}

#[test]
fn lowered_division_is_valid_for_the_backend() {
    let mut compiler = Compiler::new(context(), "m");
    division(&mut compiler);
    compiler.finish_function().unwrap();
    assert_eq!(compiler.module().verify().map_err(|e| e.to_string()), Ok(()));
    let text = compiler.module().print_to_string().to_string();
    assert!(text.contains("switch"));
    assert!(text.contains("sdiv"));
    assert!(text.contains("ifTrue"));
}

#[test]
fn lowered_checked_addition_calls_the_intrinsic() {
    let mut f = helper();
    let overflow = f.add_error_point(LangErrorMsg::IntegerOverflow.with_span(sp()));
    let mut compiler = Compiler::new(context(), "m");
    compiler.begin_function("add".to_owned(), 2, vec![]);
    let sum = compiler
        .build_checked_int_arithmetic(
            Operand::Param(0),
            Operand::Param(1),
            CheckedOp::Add,
            Trap(overflow),
        )
        .unwrap();
    compiler.emit(Inst::Return(sum));
    compiler.finish_function().unwrap();
    assert_eq!(compiler.module().verify().map_err(|e| e.to_string()), Ok(()));
    let text = compiler.module().print_to_string().to_string();
    assert!(text.contains("llvm.sadd.with.overflow.i64"));
    assert!(text.contains("-9223372036854775808"));
}
