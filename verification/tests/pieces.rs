use inkwell::context::Context;
use ndca_lang::compiler::{BinOp, BlockRef, CastOp, CheckedOp, Code, Compiler, Inst, Operand};
use ndca_lang::errors::{LangErrorMsg, Span};
use ndca_lang::host::{decode_return_value, encode_error, ReturnValue};
use ndca_lang::lexer::{AssignmentToken, ComparisonToken, OperatorToken};
use ndca_lang::types::{ConstValue, Type, CELL_STATE_BITS, INT_BITS};

fn context() -> &'static Context {
    Box::leak(Box::new(Context::create()))
}

#[test]
fn error_index_round_trips() {
    for k in [0usize, 1, 2, 41, 1 << 20, (1 << 63) - 1] {
        assert_eq!(decode_return_value(encode_error(k)), ReturnValue::Error(k as u64));
    }
    assert_eq!(encode_error(5), 0x8000_0000_0000_0005);
}

#[test]
fn result_with_clear_top_bit_round_trips() {
    for v in [0u64, 1, 255, 1 << 40, (1 << 63) - 1] {
        assert_eq!(decode_return_value(v), ReturnValue::Value(v));
    }
    assert_eq!(decode_return_value(1 << 63), ReturnValue::Error(0));
    assert_eq!(decode_return_value(u64::MAX), ReturnValue::Error((1 << 63) - 1));
}

#[test]
fn types_have_their_widths_and_zero_values() {
    assert_eq!(Type::Int.bits(), 64);
    assert_eq!(Type::CellState.bits(), 8);
    assert_eq!(Type::Vector(4).bits(), 64);
    assert_eq!(Type::Int.default_value(), ConstValue::Int(0));
    assert_eq!(Type::CellState.default_value(), ConstValue::CellState(0));
    assert_eq!(Type::Vector(3).default_value(), ConstValue::Vector(vec![0, 0, 0]));
    assert_eq!(Type::Vector(0).default_value(), ConstValue::Vector(vec![]));
    assert_eq!(ConstValue::Vector(vec![1, 2]).ty(), Type::Vector(2));
    assert_eq!(ConstValue::Int(3).ty(), Type::Int);
    assert_eq!(ConstValue::CellState(3).ty(), Type::CellState);
    let compiler = Compiler::new(context(), "m");
    assert_eq!(compiler.get_default_var_value(Type::Vector(2)), ConstValue::Vector(vec![0, 0]));
    assert_eq!(compiler.get_default_var_value(Type::Int), ConstValue::Int(0));
}

#[test]
fn tokens_know_their_operators() {
    assert_eq!(AssignmentToken::Assign.op(), None);
    assert_eq!(AssignmentToken::AddAssign.op(), Some(OperatorToken::Plus));
    assert_eq!(AssignmentToken::ShrUnsignedAssign.op(), Some(OperatorToken::TripleGreaterThan));
    assert_eq!(AssignmentToken::XorAssign.op(), Some(OperatorToken::Caret));
    assert!(OperatorToken::Pipe.is_binary_int_op());
    assert!(!OperatorToken::Caret.is_binary_int_op());
    assert!(!OperatorToken::Dot.is_binary_int_op());
    assert!(ComparisonToken::LessThanOrEqual.eval(2, 2));
    assert!(!ComparisonToken::NotEqual.eval(2, 2));
    assert!(ComparisonToken::GreaterThan.eval(3, -2));
}

#[test]
fn operations_of_the_code_have_their_values() {
    assert_eq!(CheckedOp::Add.apply(i64::MAX, 1), (i64::MIN, true));
    assert_eq!(CheckedOp::Sub.apply(5, 7), (-2, false));
    assert_eq!(CheckedOp::Mul.apply(i64::MIN, -1), (i64::MIN, true));
    assert_eq!(CheckedOp::Add.name(), "sadd");
    assert_eq!(CheckedOp::Sub.name(), "ssub");
    assert_eq!(CheckedOp::Mul.name(), "smul");
    assert_eq!(BinOp::SDiv.apply(-7, 2), Some(-3));
    assert_eq!(BinOp::SDiv.apply(7, 0), None);
    assert_eq!(BinOp::SDiv.apply(i64::MIN, -1), None);
    assert_eq!(BinOp::SRem.apply(-7, 2), Some(-1));
    assert_eq!(BinOp::SRem.apply(i64::MIN, -1), None);
    assert_eq!(BinOp::Shl.apply(1, 63), Some(i64::MIN));
    assert_eq!(BinOp::Shl.apply(1, 64), None);
    assert_eq!(BinOp::AShr.apply(-8, 1), Some(-4));
    assert_eq!(BinOp::LShr.apply(-8, 1), Some(i64::MAX - 3));
    assert_eq!(BinOp::LShr.apply(1, -1), None);
    assert_eq!(CastOp::TruncToCellState.apply(257), 1);
    assert_eq!(CastOp::ZExtToInt.apply(200), 200);
}

fn code(blocks: Vec<Vec<Inst>>, reg_count: usize) -> Code {
    Code {
        name: "f".to_owned(),
        param_count: 1,
        slots: vec![ndca_lang::compiler::Slot { name: "x".to_owned(), ty: Type::Int }],
        blocks: blocks
            .into_iter()
            .map(|insts| ndca_lang::compiler::Block { name: "b".to_owned(), insts })
            .collect(),
        reg_count,
    }
}

#[test]
fn code_that_is_stuck_returns_nothing() {
    let undefined = code(vec![vec![Inst::Return(Operand::Reg(0))]], 1);
    assert_eq!(undefined.execute(&vec![1]), None);
    let no_register = code(vec![vec![Inst::Load { slot: 0, dest: 0 }, Inst::Return(Operand::Reg(0))]], 0);
    assert_eq!(no_register.execute(&vec![1]), None);
    let no_param = code(vec![vec![Inst::Return(Operand::Param(1))]], 0);
    assert_eq!(no_param.execute(&vec![1]), None);
    let open_block = code(vec![vec![Inst::Store { slot: 0, value: Operand::Param(0) }]], 0);
    assert_eq!(open_block.execute(&vec![1]), None);
    let no_blocks = code(vec![], 0);
    assert_eq!(no_blocks.execute(&vec![1]), None);
    let looping = code(vec![vec![Inst::Branch(BlockRef(0))]], 0);
    assert_eq!(looping.execute(&vec![1]), None);
    let unguarded = code(
        vec![vec![
            Inst::Binary { op: BinOp::SDiv, lhs: Operand::Param(0), rhs: Operand::Const { bits: 64, value: 0 }, dest: 0 },
            Inst::Return(Operand::Reg(0)),
        ]],
        1,
    );
    assert_eq!(unguarded.execute(&vec![1]), None);
}

#[test]
fn code_runs_slots_and_switches() {
    let program = code(
        vec![
            vec![
                Inst::Store { slot: 0, value: Operand::Param(0) },
                Inst::Load { slot: 0, dest: 0 },
                Inst::Switch { value: Operand::Reg(0), else_block: BlockRef(1), zero_block: BlockRef(2) },
            ],
            vec![Inst::Return(Operand::Const { bits: 64, value: 11 })],
            vec![Inst::Return(Operand::Const { bits: 64, value: 22 })],
        ],
        1,
    );
    assert_eq!(program.execute(&vec![5]), Some(11));
    assert_eq!(program.execute(&vec![0]), Some(22));
    assert_eq!(program.execute(&vec![]), None);
}

#[test]
fn backend_types_have_the_widths_of_the_language() {
    let compiler = Compiler::new(context(), "m");
    assert_eq!(compiler.int_type().get_bit_width(), INT_BITS);
    assert_eq!(compiler.cell_state_type().get_bit_width(), CELL_STATE_BITS);
    assert_eq!(compiler.return_type().get_bit_width(), 64);
    assert!(compiler.fn_value().is_none());
    assert_eq!(compiler.module().get_name().to_str().unwrap(), "m");
}

#[test]
fn intrinsic_is_declared_once_and_checked_against_its_type() {
    let mut compiler = Compiler::new(context(), "m");
    let int = compiler.int_type();
    let two = int.fn_type(&[int.into(), int.into()], false);
    let one = int.fn_type(&[int.into()], false);
    let first = compiler.get_llvm_intrinisic("llvm.smax.i64", two).unwrap();
    let second = compiler.get_llvm_intrinisic("llvm.smax.i64", two).unwrap();
    assert_eq!(first, second);
    assert_eq!(first.get_type(), two);
    assert_eq!(
        compiler.get_llvm_intrinisic("llvm.smax.i64", one),
        Err(LangErrorMsg::InternalError("Requested LLVM intrinsics with same name but different type signatures").without_span())
    );
}

#[test]
fn malformed_code_is_refused_by_the_lowering() {
    let mut compiler = Compiler::new(context(), "m");
    compiler.begin_function("f".to_owned(), 0, vec![]);
    compiler.emit(Inst::Return(Operand::Reg(3)));
    assert_eq!(compiler.finish_function(), Err(LangErrorMsg::InternalError("Malformed code").without_span()));
    let mut empty_vector = Compiler::new(context(), "m");
    empty_vector.begin_function("f".to_owned(), 0, vec![ndca_lang::compiler::Slot { name: "v".to_owned(), ty: Type::Vector(0) }]);
    assert_eq!(empty_vector.finish_function(), Err(LangErrorMsg::InternalError("Malformed code").without_span()));
    let mut wrong_width = Compiler::new(context(), "m");
    wrong_width.begin_function("f".to_owned(), 0, vec![]);
    wrong_width.emit(Inst::Return(Operand::Const { bits: 8, value: 1 }));
    assert_eq!(wrong_width.finish_function(), Err(LangErrorMsg::InternalError("Malformed code").without_span()));
    let _ = Span { start: 0, end: 0 };
}

#[test]
fn vector_variable_starts_as_zero_vector_in_the_backend() {
    let mut compiler = Compiler::new(context(), "m");
    compiler.begin_function("f".to_owned(), 0, vec![ndca_lang::compiler::Slot { name: "v".to_owned(), ty: Type::Vector(3) }]);
    compiler.build_return_error(0);
    compiler.finish_function().unwrap();
    assert_eq!(compiler.module().verify().map_err(|e| e.to_string()), Ok(()));
    let text = compiler.module().print_to_string().to_string();
    assert!(text.contains("alloca <3 x i64>"));
    assert!(text.contains("store <3 x i64> zeroinitializer"));
}

#[test]
fn vars_are_the_slots_of_the_function() {
    let mut compiler = Compiler::new(context(), "m");
    compiler.begin_function(
        "f".to_owned(),
        0,
        vec![
            ndca_lang::compiler::Slot { name: "a".to_owned(), ty: Type::Int },
            ndca_lang::compiler::Slot { name: "b".to_owned(), ty: Type::CellState },
        ],
    );
    assert_eq!(compiler.vars().len(), 2);
    assert_eq!(compiler.find_slot(&"b".to_owned()), Some(1));
    assert_eq!(compiler.find_slot(&"c".to_owned()), None);
    assert_eq!(compiler.slot_type(1), Type::CellState);
    let stored = compiler.build_cast(CastOp::TruncToCellState, Operand::Const { bits: 64, value: 258 }).unwrap();
    compiler.build_store(1, stored);
    let loaded = compiler.build_load(1).unwrap();
    let wide = compiler.build_cast(CastOp::ZExtToInt, loaded).unwrap();
    compiler.build_return_cell_state(wide);
    assert_eq!(compiler.code().execute(&vec![]), Some(2));
    compiler.finish_function().unwrap();
    assert_eq!(compiler.module().verify().map_err(|e| e.to_string()), Ok(()));
    let _ = compiler.builder();
}

#[test]
fn thread_keeps_its_context() {
    let pool: &'static thread_local::ThreadLocal<Context> = Box::leak(Box::new(thread_local::ThreadLocal::new()));
    let first = ndca_lang::compiler::get_ctx(pool);
    let second = ndca_lang::compiler::get_ctx(pool);
    assert!(std::ptr::eq(first, second));
    assert!(std::ptr::eq(pool.get().unwrap(), first));
    let compiler = Compiler::new(first, "m");
    assert_eq!(compiler.int_type().get_context(), *second);
}

#[test]
fn code_without_instructions_is_always_lowered() {
    let mut compiler = Compiler::new(context(), "m");
    compiler.begin_function("empty".to_owned(), 3, vec![]);
    compiler.append_basic_block("other");
    let function = compiler.finish_function().unwrap();
    assert_eq!(compiler.fn_value(), Some(function));
    assert_eq!(function.count_params(), 3);
    assert_eq!(function.count_basic_blocks(), 2);
    let idle = Compiler::new(context(), "m").finish_function().unwrap();
    assert_eq!(idle.count_basic_blocks(), 0);
}

#[test]
fn code_that_cannot_be_lowered_is_refused_before_the_backend_sees_it() {
    let mut many = Compiler::new(context(), "m");
    many.begin_function("f".to_owned(), 0x1_0000, vec![]);
    assert_eq!(many.finish_function(), Err(LangErrorMsg::InternalError("Malformed code").without_span()));
    assert!(many.module().get_function("f").is_none());
    let refused = |inst: Inst, setup: fn(&mut Compiler), mnemonic: &str| {
        let mut compiler = Compiler::new(context(), "m");
        compiler.begin_function("f".to_owned(), 1, vec![ndca_lang::compiler::Slot { name: "s".to_owned(), ty: Type::CellState }]);
        setup(&mut compiler);
        compiler.emit(inst);
        assert_eq!(compiler.finish_function(), Err(LangErrorMsg::InternalError("Malformed code").without_span()));
        let text = compiler.module().print_to_string().to_string();
        assert!(!text.contains(mnemonic), "{} in {}", mnemonic, text);
    };
    let none: fn(&mut Compiler) = |_| {};
    let one: fn(&mut Compiler) = |c| {
        c.build_load(0).unwrap();
    };
    let wide = Operand::Const { bits: 64, value: 1 };
    let narrow = Operand::Const { bits: 8, value: 1 };
    refused(Inst::Compare { pred: ComparisonToken::Equal, lhs: Operand::Param(0), rhs: wide, dest: 0 }, none, "icmp");
    refused(Inst::Compare { pred: ComparisonToken::Equal, lhs: Operand::Param(0), rhs: narrow, dest: 0 }, one, "icmp");
    refused(Inst::Compare { pred: ComparisonToken::LessThan, lhs: Operand::Reg(0), rhs: narrow, dest: 0 }, one, "icmp");
    refused(Inst::Binary { op: BinOp::SDiv, lhs: Operand::Reg(0), rhs: narrow, dest: 0 }, one, "sdiv");
    refused(Inst::Binary { op: BinOp::And, lhs: wide, rhs: Operand::Param(1), dest: 0 }, one, "and");
    refused(Inst::Cast { op: CastOp::ZExtToInt, value: Operand::Reg(5), dest: 0 }, one, "zext");
    refused(Inst::Cast { op: CastOp::ZExtToInt, value: Operand::Reg(0), dest: 1 }, one, "zext");
    refused(Inst::Load { slot: 0, dest: 0 }, none, "load");
    refused(Inst::Load { slot: 1, dest: 0 }, none, "load");
    refused(Inst::Store { slot: 0, value: Operand::Param(0) }, none, "store i64");
    refused(Inst::Store { slot: 0, value: Operand::Const { bits: 8, value: 256 } }, none, "store i8 0, i8* %s\n  store");
    refused(Inst::Return(Operand::Reg(0)), one, "ret ");
    refused(Inst::Branch(BlockRef(1)), none, "br ");
    refused(Inst::Switch { value: Operand::Param(0), else_block: BlockRef(0), zero_block: BlockRef(9) }, none, "switch");
    refused(Inst::CheckedArith { op: CheckedOp::Add, lhs: Operand::Param(0), rhs: wide, result: 0, overflow: 1 }, one, "call");
}

#[test]
fn generator_hands_out_its_own_backend_objects() {
    let ctx = context();
    let mut compiler = Compiler::new(ctx, "mine");
    assert_eq!(compiler.module().get_context(), *ctx);
    assert_eq!(compiler.module().get_name().to_str().unwrap(), "mine");
    assert!(compiler.builder().get_insert_block().is_none());
    compiler.begin_function("f".to_owned(), 0, vec![]);
    compiler.build_return_error(0);
    compiler.finish_function().unwrap();
    assert!(compiler.module().get_function("f").is_some());
    assert_eq!(compiler.builder().get_insert_block().unwrap().get_name().to_str().unwrap(), "entry");
}
