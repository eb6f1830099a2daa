//! How a piece of emitted code runs where it stands in a larger function:
//! from the place where it starts, on any machine, whatever is emitted after
//! it.
use crate::compiler::facts::{lemma_and_of_flags, lemma_conditional_with_trap};
use crate::compiler::ir::{
    flag, operand_value, step, BinOp, BlockRef, CheckedOp, CodeView, Inst, Machine, Operand,
    Step,
};
use crate::compiler::model::{div_overflow_check, min_int_value, nothing, trap, ArmFn, CompilerView};
use crate::errors::LangError;
use crate::host::spec_encode_error;
use crate::lexer::ComparisonToken;
use crate::types::{INT_BITS, MIN_INT};
use vstd::prelude::*;

verus! {

/// The instruction at the index `pc` of the block `b`.
pub open spec fn inst_at(code: CodeView, b: int, pc: int) -> Inst {
    code.blocks[b].insts[pc]
}

/// Number of instructions of the block `b`.
pub open spec fn block_len(code: CodeView, b: int) -> int {
    code.blocks[b].insts.len() as int
}

/// Whether `later` holds all of `earlier`: the same slots, no fewer
/// registers and blocks, and in each block of `earlier` the same
/// instructions at the same places.
pub open spec fn code_extends(earlier: CodeView, later: CodeView) -> bool {
    &&& earlier.slots == later.slots
    &&& earlier.reg_count <= later.reg_count
    &&& earlier.blocks.len() <= later.blocks.len()
    &&& forall|b: int|
        0 <= b < earlier.blocks.len() ==> #[trigger] block_len(earlier, b) <= block_len(later, b)
    &&& forall|b: int, pc: int|
        0 <= b < earlier.blocks.len() && 0 <= pc < block_len(earlier, b) ==> #[trigger] inst_at(
            later,
            b,
            pc,
        ) == inst_at(earlier, b, pc)
}

/// Whether the machine `m` has the registers and the slots of `code`.
pub open spec fn fits(code: CodeView, m: Machine) -> bool {
    m.regs.len() == code.reg_count && m.slots.len() == code.slots.len()
}

/// Whether running `code` from the instruction `pc` of the block `b` on the
/// machine `m` comes, after `jumps` jumps, to the instruction `pc2` of the
/// block `b2` on the machine `m2`: with fuel for the jumps, it gives what
/// running from there gives with the fuel that is left.
pub open spec fn arrives(
    code: CodeView,
    params: Seq<i64>,
    b: int,
    pc: int,
    m: Machine,
    b2: int,
    pc2: int,
    m2: Machine,
    jumps: nat,
) -> bool {
    forall|fuel: nat|
        fuel >= jumps ==> #[trigger] code.run_from(params, b, pc, m, fuel) == code.run_from(
            params,
            b2,
            pc2,
            m2,
            (fuel - jumps) as nat,
        )
}

/// Whether running `code` from the instruction `pc` of the block `b` on the
/// machine `m` returns `value` after `jumps` jumps.
pub open spec fn gives(
    code: CodeView,
    params: Seq<i64>,
    b: int,
    pc: int,
    m: Machine,
    value: i64,
    jumps: nat,
) -> bool {
    forall|fuel: nat|
        fuel >= jumps ==> #[trigger] code.run_from(params, b, pc, m, fuel) == Some(value)
}

impl CompilerView {
    /// The place where the next instruction is emitted: the index after the
    /// last instruction of the block at the cursor.
    pub open spec fn here(self) -> int {
        self.current().insts.len() as int
    }
}

/// Holding all of a code is transitive.
pub proof fn lemma_code_extends_trans(a: CodeView, b: CodeView, c: CodeView)
    requires
        code_extends(a, b),
        code_extends(b, c),
    ensures
        code_extends(a, c),
{
    assert forall|i: int| 0 <= i < a.blocks.len() implies #[trigger] block_len(a, i) <= block_len(
        c,
        i,
    ) by {
        assert(block_len(a, i) <= block_len(b, i));
        assert(block_len(b, i) <= block_len(c, i));
    }
    assert forall|i: int, pc: int|
        0 <= i < a.blocks.len() && 0 <= pc < block_len(a, i) implies #[trigger] inst_at(c, i, pc)
        == inst_at(a, i, pc) by {
        assert(block_len(a, i) <= block_len(b, i));
        assert(inst_at(b, i, pc) == inst_at(a, i, pc));
        assert(inst_at(c, i, pc) == inst_at(b, i, pc));
    }
}

/// A code holds itself.
pub proof fn lemma_code_extends_refl(a: CodeView)
    ensures
        code_extends(a, a),
{
}

/// The instruction of a code at a place stands at that place in every code
/// that holds it.
pub proof fn lemma_stands(earlier: CodeView, later: CodeView, b: int, pc: int)
    requires
        code_extends(earlier, later),
        0 <= b < earlier.blocks.len(),
        0 <= pc < earlier.blocks[b].insts.len(),
    ensures
        b < later.blocks.len(),
        pc < later.blocks[b].insts.len(),
        later.blocks[b].insts[pc] == earlier.blocks[b].insts[pc],
{
    assert(block_len(earlier, b) <= block_len(later, b));
    assert(inst_at(later, b, pc) == inst_at(earlier, b, pc));
}

/// Emitting an instruction, appending a block, moving the cursor and
/// numbering registers leave what was emitted where it is.
pub proof fn lemma_steps_extend_code(c: CompilerView)
    requires
        c.wf(),
    ensures
        forall|inst: Inst| code_extends(c.code, #[trigger] c.emit(inst).code),
        forall|name: Seq<char>| code_extends(c.code, #[trigger] c.append_basic_block(name).0.code),
        forall|block: BlockRef| code_extends(c.code, #[trigger] c.position_at_end(block).code),
        forall|count: usize|
            c.has_room(count) ==> code_extends(c.code, #[trigger] c.with_regs(count).code),
        forall|merge: BlockRef| code_extends(c.code, #[trigger] c.close_arm(merge).code),
{
    assert forall|inst: Inst| code_extends(c.code, #[trigger] c.emit(inst).code) by {
        let e = c.emit(inst).code;
        assert forall|i: int| 0 <= i < c.code.blocks.len() implies #[trigger] block_len(c.code, i)
            <= block_len(e, i) by {}
        assert forall|i: int, pc: int|
            0 <= i < c.code.blocks.len() && 0 <= pc < block_len(c.code, i) implies #[trigger] inst_at(
            e,
            i,
            pc,
        ) == inst_at(c.code, i, pc) by {}
    }
    assert forall|name: Seq<char>|
        code_extends(c.code, #[trigger] c.append_basic_block(name).0.code) by {
        let e = c.append_basic_block(name).0.code;
        assert forall|i: int| 0 <= i < c.code.blocks.len() implies #[trigger] block_len(c.code, i)
            <= block_len(e, i) by {}
        assert forall|i: int, pc: int|
            0 <= i < c.code.blocks.len() && 0 <= pc < block_len(c.code, i) implies #[trigger] inst_at(
            e,
            i,
            pc,
        ) == inst_at(c.code, i, pc) by {}
    }
    assert forall|merge: BlockRef| code_extends(c.code, #[trigger] c.close_arm(merge).code) by {
        assert(code_extends(c.code, c.emit(Inst::Branch(merge)).code));
    }
}

/// Coming to a place and going on from there is coming to where that leads.
pub proof fn lemma_arrives_trans(
    code: CodeView,
    params: Seq<i64>,
    b: int,
    pc: int,
    m: Machine,
    b2: int,
    pc2: int,
    m2: Machine,
    j1: nat,
    b3: int,
    pc3: int,
    m3: Machine,
    j2: nat,
)
    requires
        arrives(code, params, b, pc, m, b2, pc2, m2, j1),
        arrives(code, params, b2, pc2, m2, b3, pc3, m3, j2),
    ensures
        arrives(code, params, b, pc, m, b3, pc3, m3, j1 + j2),
{
    assert forall|fuel: nat| fuel >= j1 + j2 implies #[trigger] code.run_from(
        params,
        b,
        pc,
        m,
        fuel,
    ) == code.run_from(params, b3, pc3, m3, (fuel - (j1 + j2)) as nat) by {
        let left = (fuel - j1) as nat;
        assert(code.run_from(params, b, pc, m, fuel) == code.run_from(params, b2, pc2, m2, left));
        assert(code.run_from(params, b2, pc2, m2, left) == code.run_from(
            params,
            b3,
            pc3,
            m3,
            (left - j2) as nat,
        ));
    }
}

/// Coming to a place from which the code returns a value is returning it.
pub proof fn lemma_arrives_then_gives(
    code: CodeView,
    params: Seq<i64>,
    b: int,
    pc: int,
    m: Machine,
    b2: int,
    pc2: int,
    m2: Machine,
    j1: nat,
    value: i64,
    j2: nat,
)
    requires
        arrives(code, params, b, pc, m, b2, pc2, m2, j1),
        gives(code, params, b2, pc2, m2, value, j2),
    ensures
        gives(code, params, b, pc, m, value, j1 + j2),
{
    assert forall|fuel: nat| fuel >= j1 + j2 implies #[trigger] code.run_from(
        params,
        b,
        pc,
        m,
        fuel,
    ) == Some(value) by {
        let left = (fuel - j1) as nat;
        assert(code.run_from(params, b, pc, m, fuel) == code.run_from(params, b2, pc2, m2, left));
        assert(code.run_from(params, b2, pc2, m2, left) == Some(value));
    }
}

/// Running from a place comes to that place without a jump.
pub proof fn lemma_arrives_at_itself(code: CodeView, params: Seq<i64>, b: int, pc: int, m: Machine)
    ensures
        arrives(code, params, b, pc, m, b, pc, m, 0),
{
}

/// An instruction that goes on to the next leads there without a jump.
pub proof fn lemma_step_next(
    code: CodeView,
    params: Seq<i64>,
    b: int,
    pc: int,
    m: Machine,
    m2: Machine,
)
    requires
        0 <= b < code.blocks.len(),
        0 <= pc < code.blocks[b].insts.len(),
        step(code.blocks[b].insts[pc], params, m) == Step::Next(m2),
    ensures
        arrives(code, params, b, pc, m, b, pc + 1, m2, 0),
{
}

/// A jump leads to the start of its target, and costs one jump.
pub proof fn lemma_step_jump(
    code: CodeView,
    params: Seq<i64>,
    b: int,
    pc: int,
    m: Machine,
    target: BlockRef,
)
    requires
        0 <= b < code.blocks.len(),
        0 <= pc < code.blocks[b].insts.len(),
        step(code.blocks[b].insts[pc], params, m) == Step::Jump(target),
    ensures
        arrives(code, params, b, pc, m, target.0 as int, 0, m, 1),
{
}

/// A return gives its value.
pub proof fn lemma_step_return(
    code: CodeView,
    params: Seq<i64>,
    b: int,
    pc: int,
    m: Machine,
    value: i64,
)
    requires
        0 <= b < code.blocks.len(),
        0 <= pc < code.blocks[b].insts.len(),
        step(code.blocks[b].insts[pc], params, m) == Step::Return(value),
    ensures
        gives(code, params, b, pc, m, value, 0),
{
}

/// An instruction that was emitted stands, in every code that holds the
/// emitted code, where it was emitted.
pub proof fn lemma_emitted_stands(c: CompilerView, inst: Inst, code: CodeView)
    requires
        c.wf(),
        code_extends(c.emit(inst).code, code),
    ensures
        c.cursor.0 < code.blocks.len(),
        c.here() < code.blocks[c.cursor.0 as int].insts.len(),
        code.blocks[c.cursor.0 as int].insts[c.here()] == inst,
        code_extends(c.code, code),
        c.emit(inst).here() == c.here() + 1,
        c.emit(inst).cursor == c.cursor,
        c.emit(inst).wf(),
{
    lemma_steps_extend_code(c);
    lemma_code_extends_trans(c.code, c.emit(inst).code, code);
    lemma_stands(c.emit(inst).code, code, c.cursor.0 as int, c.here());
}

/// How a conditional whose first arm traps and whose second arm goes
/// straight on runs, where it stands in a larger code: where the condition
/// is not zero it returns the signal of the error, after one jump; where it
/// is zero it comes to the start of the merge block, after two jumps, and
/// leaves the machine as it was.
pub proof fn lemma_conditional_with_trap_runs(
    c: CompilerView,
    condition: Operand,
    error_index: usize,
    code: CodeView,
    params: Seq<i64>,
    m: Machine,
    value: i64,
)
    requires
        c.wf(),
        code.blocks.len() <= usize::MAX,
        code_extends(c.build_conditional(condition, trap(error_index), nothing()).0.code, code),
        operand_value(condition, params, m.regs) == Some(value),
    ensures
        ({
            let after = c.build_conditional(condition, trap(error_index), nothing()).0;
            &&& after.wf()
            &&& after.here() == 0
            &&& after.code.blocks.len() == c.code.blocks.len() + 3
            &&& after.code.reg_count == c.code.reg_count
            &&& after.needs_terminator()
            &&& code_extends(c.code, after.code)
            &&& value != 0 ==> gives(
                code,
                params,
                c.cursor.0 as int,
                c.here(),
                m,
                spec_encode_error(error_index) as i64,
                1,
            )
            &&& value == 0 ==> arrives(
                code,
                params,
                c.cursor.0 as int,
                c.here(),
                m,
                after.cursor.0 as int,
                0,
                m,
                2,
            )
        }),
{
    let n = c.code.blocks.len() as int;
    let after = c.build_conditional(condition, trap(error_index), nothing()).0;
    lemma_conditional_with_trap(c, condition, error_index);
    let b = c.cursor.0 as int;
    let pc = c.here();
    lemma_stands(after.code, code, b, pc);
    lemma_stands(after.code, code, n, 0);
    lemma_stands(after.code, code, n + 1, 0);
    assert forall|i: int| 0 <= i < c.code.blocks.len() implies #[trigger] block_len(c.code, i)
        <= block_len(after.code, i) by {
        if i != b {
            assert(after.code.blocks[i] == c.code.blocks[i]);
        }
    }
    assert forall|i: int, k: int|
        0 <= i < c.code.blocks.len() && 0 <= k < block_len(c.code, i) implies #[trigger] inst_at(
        after.code,
        i,
        k,
    ) == inst_at(c.code, i, k) by {
        if i != b {
            assert(after.code.blocks[i] == c.code.blocks[i]);
        }
    }
    if value != 0 {
        lemma_step_jump(code, params, b, pc, m, BlockRef(n as usize));
        lemma_step_return(code, params, n, 0, m, spec_encode_error(error_index) as i64);
        lemma_arrives_then_gives(
            code,
            params,
            b,
            pc,
            m,
            n,
            0,
            m,
            1,
            spec_encode_error(error_index) as i64,
            0,
        );
    } else {
        lemma_step_jump(code, params, b, pc, m, BlockRef((n + 1) as usize));
        lemma_step_jump(code, params, n + 1, 0, m, BlockRef((n + 2) as usize));
        lemma_arrives_trans(code, params, b, pc, m, n + 1, 0, m, 1, n + 2, 0, m, 1);
    }
}

/// Whether the generator `c2` is the generator `c` after a piece of code
/// was emitted at the cursor: what `c` held stands where it stood, only the
/// block at the cursor of `c` and new blocks hold more, and the cursor
/// stands at its old block or at a new one.
pub open spec fn grows(c: CompilerView, c2: CompilerView) -> bool {
    &&& c.wf()
    &&& c2.wf()
    &&& code_extends(c.code, c2.code)
    &&& forall|b: int|
        0 <= b < c.code.blocks.len() && b != c.cursor.0 ==> #[trigger] c2.code.blocks[b]
            == c.code.blocks[b]
    &&& c2.cursor == c.cursor || c2.cursor.0 >= c.code.blocks.len()
}

/// Whether the machine `m2` holds in the registers below `low` what `m`
/// holds there, and has as many registers.
pub open spec fn kept_below(m: Machine, m2: Machine, low: int) -> bool {
    &&& m2.regs.len() == m.regs.len()
    &&& forall|r: int| 0 <= r < low && r < m.regs.len() ==> #[trigger] m2.regs[r] == m.regs[r]
}

/// Whether `operand` is no register from `low` on.
pub open spec fn defined_below(operand: Operand, low: int) -> bool {
    operand matches Operand::Reg(r) ==> r < low
}

/// Whether running `code` from the place where the piece of code between
/// `c` and `c2` starts, on the machine `m`, comes to the place where the
/// piece ends, on the machine `m2`: after no more jumps than the piece has
/// blocks, with the registers that were numbered before the piece as they
/// were.
pub open spec fn lands(
    code: CodeView,
    params: Seq<i64>,
    c: CompilerView,
    c2: CompilerView,
    m: Machine,
    m2: Machine,
    jumps: nat,
) -> bool {
    &&& arrives(
        code,
        params,
        c.cursor.0 as int,
        c.here(),
        m,
        c2.cursor.0 as int,
        c2.here(),
        m2,
        jumps,
    )
    &&& jumps <= c2.code.blocks.len() - c.code.blocks.len()
    &&& kept_below(m, m2, c.code.reg_count as int)
    &&& m2.slots.len() == m.slots.len()
}

/// Whether running `code` from the place where the piece of code between
/// `c` and `c2` starts, on the machine `m`, returns `value`, after no more
/// jumps than the piece has blocks.
pub open spec fn leaves(
    code: CodeView,
    params: Seq<i64>,
    c: CompilerView,
    c2: CompilerView,
    m: Machine,
    value: i64,
    jumps: nat,
) -> bool {
    &&& gives(code, params, c.cursor.0 as int, c.here(), m, value, jumps)
    &&& jumps <= c2.code.blocks.len() - c.code.blocks.len()
}

/// A piece of code after a piece of code is a piece of code.
pub proof fn lemma_grows_trans(a: CompilerView, b: CompilerView, c: CompilerView)
    requires
        grows(a, b),
        grows(b, c),
    ensures
        grows(a, c),
{
    lemma_code_extends_trans(a.code, b.code, c.code);
    assert forall|i: int| 0 <= i < a.code.blocks.len() && i != a.cursor.0 implies #[trigger] c.code.blocks[i]
        == a.code.blocks[i] by {
        assert(b.code.blocks[i] == a.code.blocks[i]);
        assert(c.code.blocks[i] == b.code.blocks[i]);
    }
}

/// Nothing is a piece of code.
pub proof fn lemma_grows_refl(c: CompilerView)
    requires
        c.wf(),
    ensures
        grows(c, c),
{
}

/// One instruction, and the numbering of registers, are pieces of code.
pub proof fn lemma_grows_emit(c: CompilerView)
    requires
        c.wf(),
    ensures
        forall|inst: Inst| grows(c, #[trigger] c.emit(inst)),
        forall|count: usize| c.has_room(count) ==> grows(c, #[trigger] c.with_regs(count)),
        forall|merge: BlockRef| grows(c, #[trigger] c.close_arm(merge)),
{
    lemma_steps_extend_code(c);
    assert forall|merge: BlockRef| grows(c, #[trigger] c.close_arm(merge)) by {
        assert(grows(c, c.emit(Inst::Branch(merge))));
    }
}

/// An operand that is no register from `low` on has, on a machine that
/// kept the registers below `low`, the value that it had.
pub proof fn lemma_operand_kept(operand: Operand, params: Seq<i64>, m: Machine, m2: Machine, low: int)
    requires
        kept_below(m, m2, low),
        defined_below(operand, low),
    ensures
        operand_value(operand, params, m2.regs) == operand_value(operand, params, m.regs),
{
}

/// Landing after landing is landing.
pub proof fn lemma_lands_trans(
    code: CodeView,
    params: Seq<i64>,
    a: CompilerView,
    b: CompilerView,
    c: CompilerView,
    m: Machine,
    m2: Machine,
    j1: nat,
    m3: Machine,
    j2: nat,
)
    requires
        grows(a, b),
        grows(b, c),
        lands(code, params, a, b, m, m2, j1),
        lands(code, params, b, c, m2, m3, j2),
    ensures
        lands(code, params, a, c, m, m3, j1 + j2),
{
    lemma_arrives_trans(
        code,
        params,
        a.cursor.0 as int,
        a.here(),
        m,
        b.cursor.0 as int,
        b.here(),
        m2,
        j1,
        c.cursor.0 as int,
        c.here(),
        m3,
        j2,
    );
    assert forall|r: int| 0 <= r < a.code.reg_count && r < m.regs.len() implies #[trigger] m3.regs[r]
        == m.regs[r] by {
        assert(m2.regs[r] == m.regs[r]);
        assert(m3.regs[r] == m2.regs[r]);
    }
}

/// Landing and then leaving is leaving.
pub proof fn lemma_lands_then_leaves(
    code: CodeView,
    params: Seq<i64>,
    a: CompilerView,
    b: CompilerView,
    c: CompilerView,
    m: Machine,
    m2: Machine,
    j1: nat,
    value: i64,
    j2: nat,
)
    requires
        grows(a, b),
        grows(b, c),
        lands(code, params, a, b, m, m2, j1),
        leaves(code, params, b, c, m2, value, j2),
    ensures
        leaves(code, params, a, c, m, value, j1 + j2),
{
    lemma_arrives_then_gives(
        code,
        params,
        a.cursor.0 as int,
        a.here(),
        m,
        b.cursor.0 as int,
        b.here(),
        m2,
        j1,
        value,
        j2,
    );
}

/// How an instruction that writes a value into a new register runs, where
/// it stands in a larger code: it goes on to the next instruction without
/// a jump, and the register holds the value.
pub proof fn lemma_value_runs(
    c: CompilerView,
    inst: Inst,
    code: CodeView,
    params: Seq<i64>,
    m: Machine,
    value: i64,
)
    requires
        c.wf(),
        c.has_room(1),
        code_extends(c.with_regs(1).emit(inst).code, code),
        fits(code, m),
        step(inst, params, m) == Step::Next(
            Machine { regs: m.regs.update(c.code.reg_count as int, Some(value)), slots: m.slots },
        ),
    ensures
        ({
            let c2 = c.with_regs(1).emit(inst);
            let m2 = Machine {
                regs: m.regs.update(c.code.reg_count as int, Some(value)),
                slots: m.slots,
            };
            &&& grows(c, c2)
            &&& lands(code, params, c, c2, m, m2, 0)
            &&& fits(code, m2)
            &&& m2.slots == m.slots
            &&& operand_value(Operand::Reg(c.code.reg_count), params, m2.regs) == Some(value)
            &&& c2.code.reg_count == c.code.reg_count + 1
            &&& c2.needs_terminator() == !inst.is_terminator()
        }),
{
    let c1 = c.with_regs(1);
    let c2 = c1.emit(inst);
    lemma_grows_emit(c);
    lemma_grows_emit(c1);
    lemma_grows_trans(c, c1, c2);
    lemma_emitted_stands(c1, inst, code);
    let m2 = Machine { regs: m.regs.update(c.code.reg_count as int, Some(value)), slots: m.slots };
    lemma_step_next(code, params, c.cursor.0 as int, c.here(), m, m2);
}

impl CompilerView {
    /// The cursor block of the first arm of a conditional that is built at
    /// this generator.
    pub open spec fn if_true(self) -> BlockRef {
        BlockRef(self.code.blocks.len() as usize)
    }

    /// The cursor block of the second arm.
    pub open spec fn if_false(self) -> BlockRef {
        BlockRef((self.code.blocks.len() + 1) as usize)
    }

    /// The block in which the arms meet.
    pub open spec fn merge(self) -> BlockRef {
        BlockRef((self.code.blocks.len() + 2) as usize)
    }

    /// The generator where the first arm of a conditional on `condition`
    /// starts: with the three blocks and the switch, and the cursor at the
    /// block of the first arm.
    pub open spec fn open_conditional(self, condition: Operand) -> CompilerView {
        self.append_basic_block("ifTrue"@).0.append_basic_block("ifFalse"@).0.append_basic_block(
            "endIf"@,
        ).0.emit(
            Inst::Switch {
                value: condition,
                else_block: self.if_true(),
                zero_block: self.if_false(),
            },
        ).position_at_end(self.if_true())
    }

    /// The generator where the second arm starts, where `first` is the
    /// generator after the first arm.
    pub open spec fn next_arm(self, first: CompilerView) -> CompilerView {
        first.close_arm(self.merge()).position_at_end(self.if_false())
    }

    /// The generator after the conditional, where `second` is the generator
    /// after the second arm.
    pub open spec fn close_conditional(self, second: CompilerView) -> CompilerView {
        second.close_arm(self.merge()).position_at_end(self.merge())
    }
}

/// A conditional is its opening, its first arm, its second arm and its
/// closing.
pub proof fn lemma_conditional_parts(
    c: CompilerView,
    condition: Operand,
    build_if_true: ArmFn,
    build_if_false: ArmFn,
)
    requires
        c.code.blocks.len() + 3 <= usize::MAX,
    ensures
        ({
            let (c1, r1) = build_if_true(c.open_conditional(condition));
            let (c2, r2) = build_if_false(c.next_arm(c1));
            c.build_conditional(condition, build_if_true, build_if_false) == (match r1 {
                Err(error) => (c1, Err::<(), LangError>(error)),
                Ok(_) => match r2 {
                    Err(error) => (c2, Err::<(), LangError>(error)),
                    Ok(_) => (c.close_conditional(c2), Ok::<(), LangError>(())),
                },
            })
        }),
{
}

/// The opening of a conditional: the switch stands at the cursor, the
/// three blocks are new and empty, and the first arm starts at the first
/// of them.
pub proof fn lemma_open_conditional(c: CompilerView, condition: Operand)
    requires
        c.wf(),
        c.code.blocks.len() + 3 <= usize::MAX,
    ensures
        ({
            let o = c.open_conditional(condition);
            let n = c.code.blocks.len() as int;
            &&& o.wf()
            &&& o.cursor == c.if_true()
            &&& o.here() == 0
            &&& o.needs_terminator()
            &&& o.code.blocks.len() == n + 3
            &&& o.code.reg_count == c.code.reg_count
            &&& o.code.slots == c.code.slots
            &&& code_extends(c.code, o.code)
            &&& o.code.blocks[c.cursor.0 as int].insts == c.current().insts.push(
                Inst::Switch {
                    value: condition,
                    else_block: c.if_true(),
                    zero_block: c.if_false(),
                },
            )
            &&& o.code.blocks[n + 1].insts.len() == 0
            &&& o.code.blocks[n + 2].insts.len() == 0
            &&& forall|b: int|
                0 <= b < n && b != c.cursor.0 ==> #[trigger] o.code.blocks[b] == c.code.blocks[b]
        }),
{
    let c1 = c.append_basic_block("ifTrue"@).0;
    let c2 = c1.append_basic_block("ifFalse"@).0;
    let c3 = c2.append_basic_block("endIf"@).0;
    lemma_steps_extend_code(c);
    lemma_steps_extend_code(c1);
    lemma_steps_extend_code(c2);
    lemma_steps_extend_code(c3);
    lemma_code_extends_trans(c.code, c1.code, c2.code);
    lemma_code_extends_trans(c.code, c2.code, c3.code);
    let c4 = c3.emit(
        Inst::Switch { value: condition, else_block: c.if_true(), zero_block: c.if_false() },
    );
    lemma_code_extends_trans(c.code, c3.code, c4.code);
}

/// Closing an arm: where the arm's block has no terminator, the branch to
/// the merge block stands at its end.
pub proof fn lemma_close_arm_stands(c: CompilerView, merge: BlockRef)
    requires
        c.wf(),
    ensures
        grows(c, c.close_arm(merge)),
        c.close_arm(merge).cursor == c.cursor,
        c.close_arm(merge).code.blocks.len() == c.code.blocks.len(),
        c.close_arm(merge).code.reg_count == c.code.reg_count,
        c.needs_terminator() ==> c.here() < c.close_arm(merge).current().insts.len()
            && c.close_arm(merge).current().insts[c.here()] == Inst::Branch(merge),
{
    lemma_grows_emit(c);
}

/// The shape of a conditional around its two arms, whatever the arms are,
/// as long as each is a piece of code: the switch stands at the cursor; an
/// arm that needs a terminator gets the branch to the merge block at its
/// end; the second arm starts at the empty block `ifFalse`; and after the
/// conditional the cursor stands at the empty merge block.
pub proof fn lemma_conditional_shape(
    c: CompilerView,
    condition: Operand,
    c1: CompilerView,
    c2: CompilerView,
)
    requires
        c.wf(),
        c.code.blocks.len() + 3 <= usize::MAX,
        grows(c.open_conditional(condition), c1),
        grows(c.next_arm(c1), c2),
    ensures
        ({
            let o = c.open_conditional(condition);
            let n1 = c.next_arm(c1);
            let after = c.close_conditional(c2);
            let n = c.code.blocks.len() as int;
            &&& grows(c, after)
            &&& after.cursor == c.merge()
            &&& after.here() == 0
            &&& after.needs_terminator()
            &&& after.code.blocks.len() == c2.code.blocks.len()
            &&& after.code.reg_count == c2.code.reg_count
            &&& n + 3 <= c1.code.blocks.len() <= c2.code.blocks.len()
            &&& c.code.reg_count <= c1.code.reg_count <= c2.code.reg_count
            &&& n1.wf()
            &&& n1.cursor == c.if_false()
            &&& n1.here() == 0
            &&& n1.needs_terminator()
            &&& n1.code.blocks.len() == c1.code.blocks.len()
            &&& n1.code.reg_count == c1.code.reg_count
            &&& code_extends(c1.code, after.code)
            &&& code_extends(c2.code, after.code)
            &&& c.here() < after.code.blocks[c.cursor.0 as int].insts.len()
            &&& after.code.blocks[c.cursor.0 as int].insts[c.here()] == Inst::Switch {
                value: condition,
                else_block: c.if_true(),
                zero_block: c.if_false(),
            }
            &&& c1.needs_terminator() ==> c1.here() < after.code.blocks[c1.cursor.0 as int].insts.len()
                && after.code.blocks[c1.cursor.0 as int].insts[c1.here()] == Inst::Branch(
                c.merge(),
            )
            &&& c2.needs_terminator() ==> c2.here() < after.code.blocks[c2.cursor.0 as int].insts.len()
                && after.code.blocks[c2.cursor.0 as int].insts[c2.here()] == Inst::Branch(
                c.merge(),
            )
        }),
{
    let o = c.open_conditional(condition);
    let n1 = c.next_arm(c1);
    let after = c.close_conditional(c2);
    let n = c.code.blocks.len() as int;
    let b = c.cursor.0 as int;
    lemma_open_conditional(c, condition);
    // The first arm leaves the switch, `ifFalse` and the merge block alone.
    assert(c1.code.blocks[b] == o.code.blocks[b]);
    assert(c1.code.blocks[n + 1] == o.code.blocks[n + 1]);
    assert(c1.code.blocks[n + 2] == o.code.blocks[n + 2]);
    let k1 = c1.close_arm(c.merge());
    lemma_close_arm_stands(c1, c.merge());
    assert(k1.code.blocks[b] == c1.code.blocks[b]);
    assert(k1.code.blocks[n + 1] == c1.code.blocks[n + 1]);
    assert(k1.code.blocks[n + 2] == c1.code.blocks[n + 2]);
    assert(n1.code == k1.code);
    // The second arm leaves the switch, the first arm and the merge block
    // alone.
    assert(c2.code.blocks[b] == n1.code.blocks[b]);
    assert(c2.code.blocks[n + 2] == n1.code.blocks[n + 2]);
    let k2 = c2.close_arm(c.merge());
    lemma_close_arm_stands(c2, c.merge());
    assert(k2.code.blocks[b] == c2.code.blocks[b]);
    assert(k2.code.blocks[n + 2] == c2.code.blocks[n + 2]);
    assert(after.code == k2.code);
    lemma_code_extends_trans(c.code, o.code, c1.code);
    lemma_code_extends_trans(c.code, c1.code, k1.code);
    lemma_code_extends_trans(c.code, n1.code, c2.code);
    lemma_code_extends_trans(c.code, c2.code, k2.code);
    lemma_code_extends_trans(c1.code, k1.code, c2.code);
    lemma_code_extends_trans(c1.code, c2.code, k2.code);
    lemma_code_extends_trans(k1.code, c2.code, k2.code);
    if c1.needs_terminator() {
        lemma_stands(k1.code, after.code, c1.cursor.0 as int, c1.here());
    }
    assert forall|i: int| 0 <= i < n && i != b implies #[trigger] after.code.blocks[i]
        == c.code.blocks[i] by {
        assert(o.code.blocks[i] == c.code.blocks[i]);
        assert(c1.code.blocks[i] == o.code.blocks[i]);
        assert(k1.code.blocks[i] == c1.code.blocks[i]);
        assert(c2.code.blocks[i] == n1.code.blocks[i]);
        assert(k2.code.blocks[i] == c2.code.blocks[i]);
    }
}

/// How a conditional runs, where it stands in a larger code, whatever its
/// arms are. Where the condition is not zero it runs the first arm and
/// where it is zero the second, and never both: it leaves where the arm
/// leaves, and where the arm lands it comes to the merge block, on the
/// machine that the arm left.
pub proof fn lemma_conditional_runs(
    c: CompilerView,
    condition: Operand,
    c1: CompilerView,
    c2: CompilerView,
    code: CodeView,
    params: Seq<i64>,
    m: Machine,
    value: i64,
    m2: Machine,
    result: i64,
    jumps: nat,
)
    requires
        c.wf(),
        code.blocks.len() <= usize::MAX,
        grows(c.open_conditional(condition), c1),
        grows(c.next_arm(c1), c2),
        code_extends(c.close_conditional(c2).code, code),
        operand_value(condition, params, m.regs) == Some(value),
    ensures
        ({
            let o = c.open_conditional(condition);
            let n1 = c.next_arm(c1);
            let after = c.close_conditional(c2);
            &&& value != 0 && c1.needs_terminator() && lands(code, params, o, c1, m, m2, jumps)
                ==> lands(code, params, c, after, m, m2, jumps + 2)
            &&& value != 0 && leaves(code, params, o, c1, m, result, jumps) ==> leaves(
                code,
                params,
                c,
                after,
                m,
                result,
                jumps + 1,
            )
            &&& value == 0 && c2.needs_terminator() && lands(code, params, n1, c2, m, m2, jumps)
                ==> lands(code, params, c, after, m, m2, jumps + 2)
            &&& value == 0 && leaves(code, params, n1, c2, m, result, jumps) ==> leaves(
                code,
                params,
                c,
                after,
                m,
                result,
                jumps + 1,
            )
        }),
{
    let o = c.open_conditional(condition);
    let n1 = c.next_arm(c1);
    let after = c.close_conditional(c2);
    let n = c.code.blocks.len() as int;
    let b = c.cursor.0 as int;
    assert(c.code.blocks.len() + 3 <= usize::MAX) by {
        // The blocks of the conditional are blocks of the larger code.
        lemma_open_conditional_is_small(c, condition, c1, c2, code);
    }
    lemma_open_conditional(c, condition);
    lemma_conditional_shape(c, condition, c1, c2);
    lemma_stands(after.code, code, b, c.here());
    let target = if value != 0 {
        c.if_true()
    } else {
        c.if_false()
    };
    lemma_step_jump(code, params, b, c.here(), m, target);
    if value != 0 {
        if c1.needs_terminator() && lands(code, params, o, c1, m, m2, jumps) {
            lemma_stands(after.code, code, c1.cursor.0 as int, c1.here());
            lemma_step_jump(code, params, c1.cursor.0 as int, c1.here(), m2, c.merge());
            lemma_arrives_trans(
                code,
                params,
                b,
                c.here(),
                m,
                n,
                0,
                m,
                1,
                c1.cursor.0 as int,
                c1.here(),
                m2,
                jumps,
            );
            lemma_arrives_trans(
                code,
                params,
                b,
                c.here(),
                m,
                c1.cursor.0 as int,
                c1.here(),
                m2,
                1 + jumps,
                n + 2,
                0,
                m2,
                1,
            );
        }
        if leaves(code, params, o, c1, m, result, jumps) {
            lemma_arrives_then_gives(code, params, b, c.here(), m, n, 0, m, 1, result, jumps);
        }
    } else {
        if c2.needs_terminator() && lands(code, params, n1, c2, m, m2, jumps) {
            lemma_stands(after.code, code, c2.cursor.0 as int, c2.here());
            lemma_step_jump(code, params, c2.cursor.0 as int, c2.here(), m2, c.merge());
            lemma_arrives_trans(
                code,
                params,
                b,
                c.here(),
                m,
                n + 1,
                0,
                m,
                1,
                c2.cursor.0 as int,
                c2.here(),
                m2,
                jumps,
            );
            lemma_arrives_trans(
                code,
                params,
                b,
                c.here(),
                m,
                c2.cursor.0 as int,
                c2.here(),
                m2,
                1 + jumps,
                n + 2,
                0,
                m2,
                1,
            );
        }
        if leaves(code, params, n1, c2, m, result, jumps) {
            lemma_arrives_then_gives(code, params, b, c.here(), m, n + 1, 0, m, 1, result, jumps);
        }
    }
}

/// The blocks of a conditional that stands in a code are blocks of that
/// code, so they can be numbered.
proof fn lemma_open_conditional_is_small(
    c: CompilerView,
    condition: Operand,
    c1: CompilerView,
    c2: CompilerView,
    code: CodeView,
)
    requires
        c.wf(),
        code.blocks.len() <= usize::MAX,
        grows(c.open_conditional(condition), c1),
        grows(c.next_arm(c1), c2),
        code_extends(c.close_conditional(c2).code, code),
    ensures
        c.code.blocks.len() + 3 <= usize::MAX,
{
    let o = c.open_conditional(condition);
    assert(o.code.blocks.len() == c.code.blocks.len() + 3);
    let k1 = c1.close_arm(c.merge());
    assert(k1.code.blocks.len() >= c1.code.blocks.len());
    assert(c.next_arm(c1).code == k1.code);
    let k2 = c2.close_arm(c.merge());
    assert(k2.code.blocks.len() >= c2.code.blocks.len());
    assert(c.close_conditional(c2).code == k2.code);
}

/// Whether running `code` through the piece of code between `c` and `c2`
/// on the machine `m` comes to the end of the piece with the variables as
/// they were.
pub open spec fn passes(
    code: CodeView,
    params: Seq<i64>,
    c: CompilerView,
    c2: CompilerView,
    m: Machine,
) -> bool {
    exists|m2: Machine, jumps: nat| #[trigger]
        lands(code, params, c, c2, m, m2, jumps) && m2.slots == m.slots
}

/// Whether running `code` through the piece of code between `c` and `c2`
/// on the machine `m` comes to the end of the piece with the variables as
/// they were and with `value` in `operand`.
pub open spec fn yields(
    code: CodeView,
    params: Seq<i64>,
    c: CompilerView,
    c2: CompilerView,
    m: Machine,
    operand: Operand,
    value: i64,
) -> bool {
    exists|m2: Machine, jumps: nat| #[trigger]
        lands(code, params, c, c2, m, m2, jumps) && m2.slots == m.slots && operand_value(
            operand,
            params,
            m2.regs,
        ) == Some(value)
}

/// Whether running `code` into the piece of code between `c` and `c2` on
/// the machine `m` returns the signal of the runtime error with the index
/// `error_index`.
pub open spec fn traps(
    code: CodeView,
    params: Seq<i64>,
    c: CompilerView,
    c2: CompilerView,
    m: Machine,
    error_index: usize,
) -> bool {
    exists|jumps: nat| #[trigger]
        leaves(code, params, c, c2, m, spec_encode_error(error_index) as i64, jumps)
}

/// The bitwise or of two flags is the flag of either.
pub proof fn lemma_or_of_flags(p: bool, q: bool)
    ensures
        flag(p) | flag(q) == flag(p || q),
{
    assert(0i64 | 0i64 == 0i64) by (bit_vector);
    assert(0i64 | 1i64 == 1i64) by (bit_vector);
    assert(1i64 | 0i64 == 1i64) by (bit_vector);
    assert(1i64 | 1i64 == 1i64) by (bit_vector);
}

/// A conditional whose first arm traps and whose second arm goes straight
/// on is a piece of code.
pub proof fn lemma_conditional_with_trap_grows(c: CompilerView, condition: Operand, error_index: usize)
    requires
        c.wf(),
        c.build_conditional(condition, trap(error_index), nothing()).0.code.blocks.len()
            <= usize::MAX,
    ensures
        grows(c, c.build_conditional(condition, trap(error_index), nothing()).0),
        c.build_conditional(condition, trap(error_index), nothing()).0.code.reg_count
            == c.code.reg_count,
{
    let after = c.build_conditional(condition, trap(error_index), nothing()).0;
    assert(after.code.blocks.len() == c.code.blocks.len() + 3);
    lemma_conditional_with_trap(c, condition, error_index);
    let b = c.cursor.0 as int;
    assert forall|i: int| 0 <= i < c.code.blocks.len() implies #[trigger] block_len(c.code, i)
        <= block_len(after.code, i) by {
        if i != b {
            assert(after.code.blocks[i] == c.code.blocks[i]);
        }
    }
    assert forall|i: int, k: int|
        0 <= i < c.code.blocks.len() && 0 <= k < block_len(c.code, i) implies #[trigger] inst_at(
        after.code,
        i,
        k,
    ) == inst_at(c.code, i, k) by {
        if i != b {
            assert(after.code.blocks[i] == c.code.blocks[i]);
        }
    }
}

/// How a conditional that traps where a flag is set runs after the piece
/// of code that computed the flag: where the flag is set it traps, and where
/// it is not it passes.
proof fn lemma_guard_runs(
    c: CompilerView,
    g: CompilerView,
    flag_operand: Operand,
    error_index: usize,
    code: CodeView,
    params: Seq<i64>,
    m: Machine,
    m1: Machine,
    set: bool,
)
    requires
        grows(c, g),
        lands(code, params, c, g, m, m1, 0),
        m1.slots == m.slots,
        code.blocks.len() <= usize::MAX,
        code_extends(g.build_conditional(flag_operand, trap(error_index), nothing()).0.code, code),
        operand_value(flag_operand, params, m1.regs) == Some(flag(set)),
    ensures
        ({
            let c2 = g.build_conditional(flag_operand, trap(error_index), nothing()).0;
            &&& grows(c, c2)
            &&& c2.needs_terminator()
            &&& c2.code.reg_count == g.code.reg_count
            &&& set ==> traps(code, params, c, c2, m, error_index)
            &&& !set ==> lands(code, params, c, c2, m, m1, 2)
        }),
{
    let c2 = g.build_conditional(flag_operand, trap(error_index), nothing()).0;
    lemma_conditional_with_trap_runs(g, flag_operand, error_index, code, params, m1, flag(set));
    lemma_conditional_with_trap(g, flag_operand, error_index);
    assert(grows(g, c2)) by {
        assert forall|i: int|
            0 <= i < g.code.blocks.len() && i != g.cursor.0 implies #[trigger] c2.code.blocks[i]
            == g.code.blocks[i] by {}
    }
    lemma_grows_trans(c, g, c2);
    if set {
        lemma_arrives_then_gives(
            code,
            params,
            c.cursor.0 as int,
            c.here(),
            m,
            g.cursor.0 as int,
            g.here(),
            m1,
            0,
            spec_encode_error(error_index) as i64,
            1,
        );
        assert(leaves(code, params, c, c2, m, spec_encode_error(error_index) as i64, 1));
    } else {
        lemma_arrives_trans(
            code,
            params,
            c.cursor.0 as int,
            c.here(),
            m,
            g.cursor.0 as int,
            g.here(),
            m1,
            0,
            c2.cursor.0 as int,
            0,
            m1,
            2,
        );
    }
}

/// How a checked operation runs, where it stands in a larger code: where
/// the exact result leaves the range of the integers it traps, and else it
/// yields the exact result.
pub proof fn lemma_checked_runs(
    c: CompilerView,
    lhs: Operand,
    rhs: Operand,
    op: CheckedOp,
    error_index: usize,
    code: CodeView,
    params: Seq<i64>,
    m: Machine,
    a: i64,
    b: i64,
)
    requires
        c.wf(),
        c.has_room(2),
        code.blocks.len() <= usize::MAX,
        code_extends(
            c.build_checked_int_arithmetic(lhs, rhs, op, trap(error_index)).0.code,
            code,
        ),
        fits(code, m),
        operand_value(lhs, params, m.regs) == Some(a),
        operand_value(rhs, params, m.regs) == Some(b),
    ensures
        ({
            let (c2, result) = c.build_checked_int_arithmetic(lhs, rhs, op, trap(error_index));
            &&& grows(c, c2)
            &&& c2.needs_terminator()
            &&& result == Ok::<Operand, LangError>(Operand::Reg(c.code.reg_count))
            &&& c2.code.reg_count == c.code.reg_count + 2
            &&& op.apply(a, b).1 ==> traps(code, params, c, c2, m, error_index)
            &&& !op.apply(a, b).1 ==> yields(
                code,
                params,
                c,
                c2,
                m,
                Operand::Reg(c.code.reg_count),
                op.apply(a, b).0,
            )
        }),
{
    let r = c.code.reg_count;
    let overflow = (r + 1) as usize;
    let inst = Inst::CheckedArith { op, lhs, rhs, result: r, overflow };
    let c0 = c.with_regs(2);
    let g = c0.emit(inst);
    let c2 = g.build_conditional(Operand::Reg(overflow), trap(error_index), nothing()).0;
    lemma_grows_emit(c);
    lemma_grows_emit(c0);
    lemma_grows_trans(c, c0, g);
    lemma_conditional_with_trap(g, Operand::Reg(overflow), error_index);
    lemma_emitted_stands_before(c0, inst, g.build_conditional(
        Operand::Reg(overflow),
        trap(error_index),
        nothing(),
    ).0, code);
    let value = op.apply(a, b).0;
    let set = op.apply(a, b).1;
    let m1 = Machine {
        regs: m.regs.update(r as int, Some(value)).update(overflow as int, Some(flag(set))),
        slots: m.slots,
    };
    assert(step(inst, params, m) == Step::Next(m1));
    lemma_step_next(code, params, c.cursor.0 as int, c.here(), m, m1);
    assert(lands(code, params, c, g, m, m1, 0));
    lemma_guard_runs(c, g, Operand::Reg(overflow), error_index, code, params, m, m1, set);
}

/// An instruction that was emitted before more code stands where it was
/// emitted in every code that holds all of it.
pub proof fn lemma_emitted_stands_before(
    c: CompilerView,
    inst: Inst,
    after: CompilerView,
    code: CodeView,
)
    requires
        c.wf(),
        code_extends(c.emit(inst).code, after.code),
        code_extends(after.code, code),
    ensures
        c.cursor.0 < code.blocks.len(),
        c.here() < code.blocks[c.cursor.0 as int].insts.len(),
        code.blocks[c.cursor.0 as int].insts[c.here()] == inst,
        code_extends(c.emit(inst).code, code),
{
    lemma_code_extends_trans(c.emit(inst).code, after.code, code);
    lemma_emitted_stands(c, inst, code);
}

/// One more instruction that writes a value into a new register, after a
/// piece of code that runs without a jump: the longer piece runs without a
/// jump too, and the register holds the value.
pub proof fn lemma_value_step(
    base: CompilerView,
    c: CompilerView,
    inst: Inst,
    code: CodeView,
    params: Seq<i64>,
    m0: Machine,
    m: Machine,
    value: i64,
)
    requires
        grows(base, c),
        base.cursor == c.cursor,
        base.code.blocks.len() == c.code.blocks.len(),
        c.has_room(1),
        lands(code, params, base, c, m0, m, 0),
        m.slots == m0.slots,
        fits(code, m),
        code_extends(c.with_regs(1).emit(inst).code, code),
        step(inst, params, m) == Step::Next(
            Machine { regs: m.regs.update(c.code.reg_count as int, Some(value)), slots: m.slots },
        ),
    ensures
        ({
            let c2 = c.with_regs(1).emit(inst);
            let m2 = Machine {
                regs: m.regs.update(c.code.reg_count as int, Some(value)),
                slots: m.slots,
            };
            &&& grows(base, c2)
            &&& grows(c, c2)
            &&& c2.cursor == base.cursor
            &&& c2.code.blocks.len() == base.code.blocks.len()
            &&& c2.code.reg_count == c.code.reg_count + 1
            &&& c2.here() == c.here() + 1
            &&& lands(code, params, base, c2, m0, m2, 0)
            &&& lands(code, params, c, c2, m, m2, 0)
            &&& fits(code, m2)
            &&& m2.slots == m0.slots
            &&& operand_value(Operand::Reg(c.code.reg_count), params, m2.regs) == Some(value)
            &&& kept_below(m, m2, c.code.reg_count as int)
            &&& c2.needs_terminator() == !inst.is_terminator()
        }),
{
    let c2 = c.with_regs(1).emit(inst);
    let m2 = Machine { regs: m.regs.update(c.code.reg_count as int, Some(value)), slots: m.slots };
    lemma_value_runs(c, inst, code, params, m, value);
    lemma_grows_trans(base, c, c2);
    lemma_lands_trans(code, params, base, c, c2, m0, m, 0, m2, 0);
}

/// How the check of a range runs, where it stands in a larger code: where
/// the value lies in the range it passes, and else it traps.
pub proof fn lemma_range_check_runs(
    c: CompilerView,
    value: Operand,
    limit: i64,
    error_index: usize,
    code: CodeView,
    params: Seq<i64>,
    m: Machine,
    x: i64,
)
    requires
        c.wf(),
        c.has_room(3),
        code.blocks.len() <= usize::MAX,
        code_extends(c.build_range_check(value, limit, trap(error_index)).0.code, code),
        fits(code, m),
        defined_below(value, c.code.reg_count as int),
        operand_value(value, params, m.regs) == Some(x),
    ensures
        ({
            let (c2, result) = c.build_range_check(value, limit, trap(error_index));
            &&& grows(c, c2)
            &&& c2.needs_terminator()
            &&& result is Ok
            &&& c2.code.reg_count == c.code.reg_count + 3
            &&& 0 <= x < limit ==> passes(code, params, c, c2, m)
            &&& !(0 <= x < limit) ==> traps(code, params, c, c2, m, error_index)
        }),
{
    let zero = Operand::Const { bits: INT_BITS, value: 0 };
    let bound = Operand::Const { bits: INT_BITS, value: limit };
    let r = c.code.reg_count;
    let i1 = Inst::Compare { pred: ComparisonToken::LessThan, lhs: value, rhs: zero, dest: r };
    let i2 = Inst::Compare {
        pred: ComparisonToken::GreaterThanOrEqual,
        lhs: value,
        rhs: bound,
        dest: (r + 1) as usize,
    };
    let i3 = Inst::Binary {
        op: BinOp::Or,
        lhs: Operand::Reg(r),
        rhs: Operand::Reg((r + 1) as usize),
        dest: (r + 2) as usize,
    };
    let c1 = c.with_regs(1).emit(i1);
    let c2 = c1.with_regs(1).emit(i2);
    let c3 = c2.with_regs(1).emit(i3);
    let done = c3.build_conditional(Operand::Reg((r + 2) as usize), trap(error_index), nothing()).0;
    assert(c.build_range_check(value, limit, trap(error_index)).0 == done);
    lemma_grows_refl(c);
    lemma_arrives_at_itself(code, params, c.cursor.0 as int, c.here(), m);
    lemma_grows_emit(c);
    lemma_grows_emit(c.with_regs(1));
    lemma_grows_trans(c, c.with_regs(1), c1);
    lemma_grows_emit(c1);
    lemma_grows_emit(c1.with_regs(1));
    lemma_grows_trans(c1, c1.with_regs(1), c2);
    lemma_grows_emit(c2);
    lemma_grows_emit(c2.with_regs(1));
    lemma_grows_trans(c2, c2.with_regs(1), c3);
    lemma_conditional_with_trap_grows(c3, Operand::Reg((r + 2) as usize), error_index);
    lemma_code_extends_trans(c3.code, done.code, code);
    lemma_code_extends_trans(c2.code, c3.code, code);
    lemma_code_extends_trans(c1.code, c2.code, code);
    let f1 = flag(x < 0);
    let f2 = flag(x >= limit);
    lemma_value_step(c, c, i1, code, params, m, m, f1);
    let m1 = Machine { regs: m.regs.update(r as int, Some(f1)), slots: m.slots };
    lemma_operand_kept(value, params, m, m1, r as int);
    lemma_value_step(c, c1, i2, code, params, m, m1, f2);
    let m2 = Machine { regs: m1.regs.update(r + 1, Some(f2)), slots: m.slots };
    lemma_or_of_flags(x < 0, x >= limit);
    lemma_value_step(c, c2, i3, code, params, m, m2, flag(x < 0 || x >= limit));
    let m3 = Machine {
        regs: m2.regs.update(r + 2, Some(flag(x < 0 || x >= limit))),
        slots: m.slots,
    };
    lemma_guard_runs(
        c,
        c3,
        Operand::Reg((r + 2) as usize),
        error_index,
        code,
        params,
        m,
        m3,
        x < 0 || x >= limit,
    );
}

/// One more instruction that goes on to the next, after a piece of code
/// that runs without a jump: the longer piece runs without a jump too.
pub proof fn lemma_emit_step(
    base: CompilerView,
    c: CompilerView,
    inst: Inst,
    code: CodeView,
    params: Seq<i64>,
    m0: Machine,
    m: Machine,
    m2: Machine,
)
    requires
        grows(base, c),
        base.cursor == c.cursor,
        base.code.blocks.len() == c.code.blocks.len(),
        lands(code, params, base, c, m0, m, 0),
        code_extends(c.emit(inst).code, code),
        step(inst, params, m) == Step::Next(m2),
        kept_below(m0, m2, base.code.reg_count as int),
        m2.slots.len() == m0.slots.len(),
    ensures
        ({
            let c2 = c.emit(inst);
            &&& grows(base, c2)
            &&& grows(c, c2)
            &&& c2.cursor == base.cursor
            &&& c2.code.blocks.len() == base.code.blocks.len()
            &&& c2.code.reg_count == c.code.reg_count
            &&& c2.here() == c.here() + 1
            &&& lands(code, params, base, c2, m0, m2, 0)
            &&& c2.needs_terminator() == !inst.is_terminator()
        }),
{
    let c2 = c.emit(inst);
    lemma_grows_emit(c);
    lemma_grows_trans(base, c, c2);
    lemma_emitted_stands(c, inst, code);
    lemma_step_next(code, params, c.cursor.0 as int, c.here(), m, m2);
    lemma_arrives_trans(
        code,
        params,
        base.cursor.0 as int,
        base.here(),
        m0,
        c.cursor.0 as int,
        c.here(),
        m,
        0,
        c2.cursor.0 as int,
        c2.here(),
        m2,
        0,
    );
}

/// How the second stage of the check of a division runs, where it stands
/// in a larger code: where the dividend is the smallest integer and the
/// divisor is minus one it traps, and else it passes.
pub proof fn lemma_div_overflow_check_runs(
    c: CompilerView,
    lhs: Operand,
    rhs: Operand,
    error_index: usize,
    code: CodeView,
    params: Seq<i64>,
    m: Machine,
    a: i64,
    b: i64,
)
    requires
        c.wf(),
        c.has_room(3),
        code.blocks.len() <= usize::MAX,
        code_extends(c.build_div_overflow_check(lhs, rhs, trap(error_index)).0.code, code),
        fits(code, m),
        defined_below(lhs, c.code.reg_count as int),
        defined_below(rhs, c.code.reg_count as int),
        operand_value(lhs, params, m.regs) == Some(a),
        operand_value(rhs, params, m.regs) == Some(b),
    ensures
        ({
            let (c2, result) = c.build_div_overflow_check(lhs, rhs, trap(error_index));
            &&& grows(c, c2)
            &&& c2.needs_terminator()
            &&& result is Ok
            &&& c2.code.reg_count == c.code.reg_count + 3
            &&& a == MIN_INT && b == -1 ==> traps(code, params, c, c2, m, error_index)
            &&& !(a == MIN_INT && b == -1) ==> passes(code, params, c, c2, m)
        }),
{
    let r = c.code.reg_count;
    let i1 = Inst::Compare {
        pred: ComparisonToken::Equal,
        lhs,
        rhs: min_int_value(),
        dest: r,
    };
    let i2 = Inst::Compare {
        pred: ComparisonToken::Equal,
        lhs: rhs,
        rhs: Operand::Const { bits: INT_BITS, value: -1i64 },
        dest: (r + 1) as usize,
    };
    let i3 = Inst::Binary {
        op: BinOp::And,
        lhs: Operand::Reg(r),
        rhs: Operand::Reg((r + 1) as usize),
        dest: (r + 2) as usize,
    };
    let c0 = c.with_regs(3);
    let c1 = c0.emit(i1);
    let c2 = c1.emit(i2);
    let c3 = c2.emit(i3);
    let done = c3.build_conditional(Operand::Reg((r + 2) as usize), trap(error_index), nothing()).0;
    assert(c.build_div_overflow_check(lhs, rhs, trap(error_index)).0 == done);
    lemma_grows_emit(c);
    lemma_grows_emit(c0);
    lemma_grows_emit(c1);
    lemma_grows_emit(c2);
    lemma_conditional_with_trap_grows(c3, Operand::Reg((r + 2) as usize), error_index);
    lemma_code_extends_trans(c3.code, done.code, code);
    lemma_code_extends_trans(c2.code, c3.code, code);
    lemma_code_extends_trans(c1.code, c2.code, code);
    lemma_arrives_at_itself(code, params, c.cursor.0 as int, c.here(), m);
    assert(lands(code, params, c, c0, m, m, 0));
    let f1 = flag(a == MIN_INT);
    let f2 = flag(b == -1);
    let m1 = Machine { regs: m.regs.update(r as int, Some(f1)), slots: m.slots };
    lemma_emit_step(c, c0, i1, code, params, m, m, m1);
    lemma_operand_kept(rhs, params, m, m1, r as int);
    let m2 = Machine { regs: m1.regs.update(r + 1, Some(f2)), slots: m.slots };
    lemma_emit_step(c, c1, i2, code, params, m, m1, m2);
    lemma_and_of_flags(a == MIN_INT, b == -1);
    let m3 = Machine {
        regs: m2.regs.update(r + 2, Some(flag(a == MIN_INT && b == -1))),
        slots: m.slots,
    };
    lemma_emit_step(c, c2, i3, code, params, m, m2, m3);
    lemma_guard_runs(
        c,
        c3,
        Operand::Reg((r + 2) as usize),
        error_index,
        code,
        params,
        m,
        m3,
        a == MIN_INT && b == -1,
    );
}

/// How the check of a division runs, where it stands in a larger code:
/// where the divisor is zero it traps to the error point for division by
/// zero; where the dividend is the smallest integer and the divisor is
/// minus one it traps to the error point for overflow; and else it passes.
pub proof fn lemma_div_check_runs(
    c: CompilerView,
    lhs: Operand,
    rhs: Operand,
    overflow_index: usize,
    zero_index: usize,
    code: CodeView,
    params: Seq<i64>,
    m: Machine,
    a: i64,
    b: i64,
)
    requires
        c.wf(),
        c.build_div_check(lhs, rhs, trap(overflow_index), trap(zero_index)).1 is Ok,
        code.blocks.len() <= usize::MAX,
        code_extends(
            c.build_div_check(lhs, rhs, trap(overflow_index), trap(zero_index)).0.code,
            code,
        ),
        fits(code, m),
        defined_below(lhs, c.code.reg_count as int),
        defined_below(rhs, c.code.reg_count as int),
        operand_value(lhs, params, m.regs) == Some(a),
        operand_value(rhs, params, m.regs) == Some(b),
    ensures
        ({
            let c2 = c.build_div_check(lhs, rhs, trap(overflow_index), trap(zero_index)).0;
            &&& grows(c, c2)
            &&& c2.needs_terminator()
            &&& c2.code.reg_count == c.code.reg_count + 4
            &&& b == 0 ==> traps(code, params, c, c2, m, zero_index)
            &&& b != 0 && a == MIN_INT && b == -1 ==> traps(code, params, c, c2, m, overflow_index)
            &&& b != 0 && !(a == MIN_INT && b == -1) ==> passes(code, params, c, c2, m)
        }),
{
    let r = c.code.reg_count;
    let i0 = Inst::Compare {
        pred: ComparisonToken::Equal,
        lhs: rhs,
        rhs: Operand::Const { bits: INT_BITS, value: 0i64 },
        dest: r,
    };
    let g = c.with_regs(1).emit(i0);
    let cond = Operand::Reg(r);
    lemma_grows_emit(c);
    lemma_grows_emit(c.with_regs(1));
    lemma_grows_trans(c, c.with_regs(1), g);
    let o = g.open_conditional(cond);
    let c1 = o.build_return_error(zero_index);
    let n1 = g.next_arm(c1);
    let (c2, r2) = n1.build_div_overflow_check(lhs, rhs, trap(overflow_index));
    let done = g.close_conditional(c2);
    let built = c.build_div_check(lhs, rhs, trap(overflow_index), trap(zero_index));
    assert(built == g.build_conditional(
        cond,
        trap(zero_index),
        div_overflow_check(lhs, rhs, trap(overflow_index)),
    ));
    // The blocks can be numbered, since the larger code holds them.
    lemma_arms_never_shrink(overflow_index);
    lemma_arms_never_shrink(zero_index);
    lemma_div_overflow_check_never_shrinks(lhs, rhs, overflow_index);
    lemma_conditional_never_shrinks(
        g,
        cond,
        trap(zero_index),
        div_overflow_check(lhs, rhs, trap(overflow_index)),
    );
    lemma_conditional_parts(
        g,
        cond,
        trap(zero_index),
        div_overflow_check(lhs, rhs, trap(overflow_index)),
    );
    assert(r2 is Ok);
    assert(built.0 == done);
    lemma_open_conditional(g, cond);
    lemma_grows_emit(o);
    assert(grows(o, c1));
    lemma_close_arm_stands(c1, g.merge());
    assert(n1.wf());
    // The inner check is a piece of code, whatever the machine.
    lemma_div_overflow_check_blocks(n1, lhs, rhs, overflow_index);
    lemma_div_overflow_check_grows(n1, lhs, rhs, overflow_index);
    lemma_conditional_shape(g, cond, c1, c2);
    lemma_grows_trans(c, g, done);
    lemma_code_extends_trans(g.code, done.code, code);
    lemma_code_extends_trans(c1.code, done.code, code);
    lemma_code_extends_trans(c2.code, done.code, code);
    // The comparison with zero.
    lemma_grows_refl(c);
    lemma_arrives_at_itself(code, params, c.cursor.0 as int, c.here(), m);
    lemma_value_step(c, c, i0, code, params, m, m, flag(b == 0));
    let m1 = Machine { regs: m.regs.update(r as int, Some(flag(b == 0))), slots: m.slots };
    if b == 0 {
        lemma_stands(c1.code, code, o.cursor.0 as int, 0);
        lemma_step_return(
            code,
            params,
            o.cursor.0 as int,
            0,
            m1,
            spec_encode_error(zero_index) as i64,
        );
        assert(leaves(code, params, o, c1, m1, spec_encode_error(zero_index) as i64, 0));
        lemma_conditional_runs(
            g,
            cond,
            c1,
            c2,
            code,
            params,
            m1,
            flag(b == 0),
            m1,
            spec_encode_error(zero_index) as i64,
            0,
        );
        lemma_lands_then_leaves(
            code,
            params,
            c,
            g,
            done,
            m,
            m1,
            0,
            spec_encode_error(zero_index) as i64,
            1,
        );
    } else {
        lemma_operand_kept(lhs, params, m, m1, r as int);
        lemma_operand_kept(rhs, params, m, m1, r as int);
        lemma_div_overflow_check_runs(n1, lhs, rhs, overflow_index, code, params, m1, a, b);
        if a == MIN_INT && b == -1 {
            let j = choose|j: nat| #[trigger]
                leaves(code, params, n1, c2, m1, spec_encode_error(overflow_index) as i64, j);
            lemma_conditional_runs(
                g,
                cond,
                c1,
                c2,
                code,
                params,
                m1,
                flag(b == 0),
                m1,
                spec_encode_error(overflow_index) as i64,
                j,
            );
            lemma_lands_then_leaves(
                code,
                params,
                c,
                g,
                done,
                m,
                m1,
                0,
                spec_encode_error(overflow_index) as i64,
                j + 1,
            );
        } else {
            let (m2, j) = choose|m2: Machine, j: nat| #[trigger]
                lands(code, params, n1, c2, m1, m2, j) && m2.slots == m1.slots;
            lemma_conditional_runs(g, cond, c1, c2, code, params, m1, flag(b == 0), m2, 0, j);
            lemma_lands_trans(code, params, c, g, done, m, m1, 0, m2, j + 2);
        }
    }
}

/// Whether an arm never takes blocks away, whatever the generator.
pub open spec fn never_shrinks(arm: ArmFn) -> bool {
    forall|c: CompilerView| c.code.blocks.len() <= (#[trigger] arm(c)).0.code.blocks.len()
}

/// The arm that traps and the arm that builds nothing never take blocks
/// away.
pub proof fn lemma_arms_never_shrink(error_index: usize)
    ensures
        never_shrinks(trap(error_index)),
        never_shrinks(nothing()),
{
    assert forall|c: CompilerView|
        c.code.blocks.len() <= (#[trigger] (trap(error_index))(c)).0.code.blocks.len() by {}
    assert forall|c: CompilerView|
        c.code.blocks.len() <= (#[trigger] (nothing())(c)).0.code.blocks.len() by {}
}

/// A conditional whose arms never take blocks away has at least the three
/// blocks of its own more than there were, whether the arms fail or not.
pub proof fn lemma_conditional_never_shrinks(
    c: CompilerView,
    condition: Operand,
    build_if_true: ArmFn,
    build_if_false: ArmFn,
)
    requires
        never_shrinks(build_if_true),
        never_shrinks(build_if_false),
    ensures
        c.build_conditional(condition, build_if_true, build_if_false).0.code.blocks.len()
            >= c.code.blocks.len() + 3,
{
    let (a1, t) = c.append_basic_block("ifTrue"@);
    let (a2, f) = a1.append_basic_block("ifFalse"@);
    let (a3, merge) = a2.append_basic_block("endIf"@);
    let a4 = a3.emit(Inst::Switch { value: condition, else_block: t, zero_block: f });
    let a5 = a4.position_at_end(t);
    let (c1, r1) = build_if_true(a5);
    assert(c1.code.blocks.len() >= a5.code.blocks.len());
    let n1 = c1.close_arm(merge).position_at_end(f);
    let (c2, r2) = build_if_false(n1);
    assert(c2.code.blocks.len() >= n1.code.blocks.len());
}

/// The second stage of the check of a division never takes blocks away.
pub proof fn lemma_div_overflow_check_never_shrinks(lhs: Operand, rhs: Operand, error_index: usize)
    ensures
        never_shrinks(div_overflow_check(lhs, rhs, trap(error_index))),
{
    lemma_arms_never_shrink(error_index);
    assert forall|c: CompilerView|
        c.code.blocks.len() <= (#[trigger] (div_overflow_check(lhs, rhs, trap(error_index)))(
            c,
        )).0.code.blocks.len() by {
        if c.has_room(3) {
            let r = c.code.reg_count;
            let c3 = c.with_regs(3).emit(
                Inst::Compare {
                    pred: ComparisonToken::Equal,
                    lhs,
                    rhs: min_int_value(),
                    dest: r,
                },
            ).emit(
                Inst::Compare {
                    pred: ComparisonToken::Equal,
                    lhs: rhs,
                    rhs: Operand::Const { bits: INT_BITS, value: -1i64 },
                    dest: (r + 1) as usize,
                },
            ).emit(
                Inst::Binary {
                    op: BinOp::And,
                    lhs: Operand::Reg(r),
                    rhs: Operand::Reg((r + 1) as usize),
                    dest: (r + 2) as usize,
                },
            );
            lemma_conditional_never_shrinks(
                c3,
                Operand::Reg((r + 2) as usize),
                trap(error_index),
                nothing(),
            );
        }
    }
}

/// The second stage of the check of a division has room for its registers
/// where it is built.
pub proof fn lemma_div_overflow_check_blocks(
    c: CompilerView,
    lhs: Operand,
    rhs: Operand,
    error_index: usize,
)
    ensures
        c.build_div_overflow_check(lhs, rhs, trap(error_index)).1 is Ok ==> c.has_room(3),
{
}

/// The second stage of the check of a division is a piece of code.
pub proof fn lemma_div_overflow_check_grows(
    c: CompilerView,
    lhs: Operand,
    rhs: Operand,
    error_index: usize,
)
    requires
        c.wf(),
        c.has_room(3),
        c.build_div_overflow_check(lhs, rhs, trap(error_index)).0.code.blocks.len() <= usize::MAX,
    ensures
        grows(c, c.build_div_overflow_check(lhs, rhs, trap(error_index)).0),
        c.build_div_overflow_check(lhs, rhs, trap(error_index)).0.needs_terminator(),
{
    let r = c.code.reg_count;
    let c0 = c.with_regs(3);
    let c1 = c0.emit(
        Inst::Compare { pred: ComparisonToken::Equal, lhs, rhs: min_int_value(), dest: r },
    );
    let c2 = c1.emit(
        Inst::Compare {
            pred: ComparisonToken::Equal,
            lhs: rhs,
            rhs: Operand::Const { bits: INT_BITS, value: -1i64 },
            dest: (r + 1) as usize,
        },
    );
    let c3 = c2.emit(
        Inst::Binary {
            op: BinOp::And,
            lhs: Operand::Reg(r),
            rhs: Operand::Reg((r + 1) as usize),
            dest: (r + 2) as usize,
        },
    );
    lemma_grows_emit(c);
    lemma_grows_emit(c0);
    lemma_grows_emit(c1);
    lemma_grows_emit(c2);
    lemma_grows_trans(c, c0, c1);
    lemma_grows_trans(c, c1, c2);
    lemma_grows_trans(c, c2, c3);
    lemma_conditional_with_trap_grows(c3, Operand::Reg((r + 2) as usize), error_index);
    lemma_conditional_with_trap(c3, Operand::Reg((r + 2) as usize), error_index);
    lemma_grows_trans(
        c,
        c3,
        c3.build_conditional(Operand::Reg((r + 2) as usize), trap(error_index), nothing()).0,
    );
}

/// Whether an arm leaves what was emitted where it is, whatever the
/// generator.
pub open spec fn arm_extends(arm: ArmFn) -> bool {
    forall|c: CompilerView| code_extends(c.code, (#[trigger] arm(c)).0.code)
}

/// Emitting an instruction, appending a block and closing an arm leave
/// what was emitted where it is, whatever the generator.
pub proof fn lemma_steps_extend_any(c: CompilerView)
    ensures
        forall|inst: Inst| code_extends(c.code, #[trigger] c.emit(inst).code),
        forall|name: Seq<char>| code_extends(c.code, #[trigger] c.append_basic_block(name).0.code),
        forall|merge: BlockRef| code_extends(c.code, #[trigger] c.close_arm(merge).code),
{
    if c.wf() {
        lemma_steps_extend_code(c);
    } else {
        assert forall|name: Seq<char>|
            code_extends(c.code, #[trigger] c.append_basic_block(name).0.code) by {
            let e = c.append_basic_block(name).0.code;
            assert forall|i: int| 0 <= i < c.code.blocks.len() implies #[trigger] block_len(
                c.code,
                i,
            ) <= block_len(e, i) by {}
            assert forall|i: int, pc: int|
                0 <= i < c.code.blocks.len() && 0 <= pc < block_len(c.code, i) implies #[trigger] inst_at(
                e,
                i,
                pc,
            ) == inst_at(c.code, i, pc) by {}
        }
    }
}

/// The arm that traps and the arm that builds nothing leave what was
/// emitted where it is.
pub proof fn lemma_arms_extend(error_index: usize)
    ensures
        arm_extends(trap(error_index)),
        arm_extends(nothing()),
{
    assert forall|c: CompilerView|
        code_extends(c.code, (#[trigger] (trap(error_index))(c)).0.code) by {
        lemma_steps_extend_any(c);
    }
    assert forall|c: CompilerView| code_extends(c.code, (#[trigger] (nothing())(c)).0.code) by {}
}

/// A conditional whose arms leave what was emitted where it is does so
/// too, whether the arms fail or not.
pub proof fn lemma_conditional_extends(
    c: CompilerView,
    condition: Operand,
    build_if_true: ArmFn,
    build_if_false: ArmFn,
)
    requires
        arm_extends(build_if_true),
        arm_extends(build_if_false),
    ensures
        code_extends(
            c.code,
            c.build_conditional(condition, build_if_true, build_if_false).0.code,
        ),
{
    let (a1, t) = c.append_basic_block("ifTrue"@);
    let (a2, f) = a1.append_basic_block("ifFalse"@);
    let (a3, merge) = a2.append_basic_block("endIf"@);
    let a4 = a3.emit(Inst::Switch { value: condition, else_block: t, zero_block: f });
    let a5 = a4.position_at_end(t);
    lemma_steps_extend_any(c);
    lemma_steps_extend_any(a1);
    lemma_steps_extend_any(a2);
    lemma_steps_extend_any(a3);
    lemma_code_extends_trans(c.code, a1.code, a2.code);
    lemma_code_extends_trans(c.code, a2.code, a3.code);
    lemma_code_extends_trans(c.code, a3.code, a5.code);
    let (c1, r1) = build_if_true(a5);
    lemma_code_extends_trans(c.code, a5.code, c1.code);
    let k1 = c1.close_arm(merge);
    lemma_steps_extend_any(c1);
    lemma_code_extends_trans(c.code, c1.code, k1.code);
    let n1 = k1.position_at_end(f);
    let (c2, r2) = build_if_false(n1);
    lemma_code_extends_trans(c.code, n1.code, c2.code);
    let k2 = c2.close_arm(merge);
    lemma_steps_extend_any(c2);
    lemma_code_extends_trans(c.code, c2.code, k2.code);
}

/// One more register and an instruction leave what was emitted where it
/// is, whatever the generator.
pub proof fn lemma_build_value_extends(c: CompilerView, inst: spec_fn(usize) -> Inst)
    ensures
        code_extends(c.code, c.build_value(inst).0.code),
{
    if c.has_room(1) {
        lemma_steps_extend_any(c.with_regs(1));
        lemma_code_extends_trans(c.code, c.with_regs(1).code, c.build_value(inst).0.code);
    }
}

/// The checked operation, the check of a range and the check of a
/// division leave what was emitted where it is, whatever the generator.
pub proof fn lemma_checks_extend(
    c: CompilerView,
    lhs: Operand,
    rhs: Operand,
    op: CheckedOp,
    limit: i64,
    first_index: usize,
    second_index: usize,
)
    ensures
        code_extends(
            c.code,
            c.build_checked_int_arithmetic(lhs, rhs, op, trap(first_index)).0.code,
        ),
        code_extends(c.code, c.build_range_check(lhs, limit, trap(first_index)).0.code),
        code_extends(c.code, c.build_div_overflow_check(lhs, rhs, trap(first_index)).0.code),
        code_extends(
            c.code,
            c.build_div_check(lhs, rhs, trap(first_index), trap(second_index)).0.code,
        ),
{
    lemma_arms_extend(first_index);
    lemma_arms_extend(second_index);
    if c.has_room(2) {
        let r = c.code.reg_count;
        let g = c.with_regs(2).emit(
            Inst::CheckedArith { op, lhs, rhs, result: r, overflow: (r + 1) as usize },
        );
        lemma_steps_extend_any(c.with_regs(2));
        lemma_code_extends_trans(c.code, c.with_regs(2).code, g.code);
        lemma_conditional_extends(
            g,
            Operand::Reg((r + 1) as usize),
            trap(first_index),
            nothing(),
        );
        lemma_code_extends_trans(
            c.code,
            g.code,
            c.build_checked_int_arithmetic(lhs, rhs, op, trap(first_index)).0.code,
        );
    }
    lemma_range_check_extends(c, lhs, limit, first_index);
    lemma_div_overflow_check_extends(c, lhs, rhs, first_index);
    if c.has_room(1) {
        let r = c.code.reg_count;
        let g = c.with_regs(1).emit(
            Inst::Compare {
                pred: ComparisonToken::Equal,
                lhs: rhs,
                rhs: Operand::Const { bits: INT_BITS, value: 0i64 },
                dest: r,
            },
        );
        lemma_steps_extend_any(c.with_regs(1));
        lemma_code_extends_trans(c.code, c.with_regs(1).code, g.code);
        assert(arm_extends(div_overflow_check(lhs, rhs, trap(first_index)))) by {
            assert forall|x: CompilerView|
                code_extends(
                    x.code,
                    (#[trigger] (div_overflow_check(lhs, rhs, trap(first_index)))(x)).0.code,
                ) by {
                lemma_div_overflow_check_extends(x, lhs, rhs, first_index);
            }
        }
        lemma_conditional_extends(
            g,
            Operand::Reg(r),
            trap(second_index),
            div_overflow_check(lhs, rhs, trap(first_index)),
        );
        lemma_code_extends_trans(
            c.code,
            g.code,
            c.build_div_check(lhs, rhs, trap(first_index), trap(second_index)).0.code,
        );
    }
}

/// The check of a range leaves what was emitted where it is.
pub proof fn lemma_range_check_extends(
    c: CompilerView,
    value: Operand,
    limit: i64,
    error_index: usize,
)
    ensures
        code_extends(c.code, c.build_range_check(value, limit, trap(error_index)).0.code),
{
    lemma_arms_extend(error_index);
    let zero = Operand::Const { bits: INT_BITS, value: 0 };
    let bound = Operand::Const { bits: INT_BITS, value: limit };
    let (c1, r1) = c.build_compare(ComparisonToken::LessThan, value, zero);
    lemma_build_value_extends(
        c,
        |dest: usize| Inst::Compare { pred: ComparisonToken::LessThan, lhs: value, rhs: zero, dest },
    );
    if r1 is Ok {
        let (c2, r2) = c1.build_compare(ComparisonToken::GreaterThanOrEqual, value, bound);
        lemma_build_value_extends(
            c1,
            |dest: usize|
                Inst::Compare {
                    pred: ComparisonToken::GreaterThanOrEqual,
                    lhs: value,
                    rhs: bound,
                    dest,
                },
        );
        lemma_code_extends_trans(c.code, c1.code, c2.code);
        if r2 is Ok {
            let (c3, r3) = c2.build_binary(BinOp::Or, r1->Ok_0, r2->Ok_0);
            lemma_build_value_extends(
                c2,
                |dest: usize| Inst::Binary { op: BinOp::Or, lhs: r1->Ok_0, rhs: r2->Ok_0, dest },
            );
            lemma_code_extends_trans(c.code, c2.code, c3.code);
            if r3 is Ok {
                lemma_conditional_extends(c3, r3->Ok_0, trap(error_index), nothing());
                lemma_code_extends_trans(
                    c.code,
                    c3.code,
                    c.build_range_check(value, limit, trap(error_index)).0.code,
                );
            }
        }
    }
}

/// The second stage of the check of a division leaves what was emitted
/// where it is.
pub proof fn lemma_div_overflow_check_extends(
    c: CompilerView,
    lhs: Operand,
    rhs: Operand,
    error_index: usize,
)
    ensures
        code_extends(c.code, c.build_div_overflow_check(lhs, rhs, trap(error_index)).0.code),
{
    lemma_arms_extend(error_index);
    if c.has_room(3) {
        let r = c.code.reg_count;
        let c0 = c.with_regs(3);
        let c1 = c0.emit(
            Inst::Compare { pred: ComparisonToken::Equal, lhs, rhs: min_int_value(), dest: r },
        );
        let c2 = c1.emit(
            Inst::Compare {
                pred: ComparisonToken::Equal,
                lhs: rhs,
                rhs: Operand::Const { bits: INT_BITS, value: -1i64 },
                dest: (r + 1) as usize,
            },
        );
        let c3 = c2.emit(
            Inst::Binary {
                op: BinOp::And,
                lhs: Operand::Reg(r),
                rhs: Operand::Reg((r + 1) as usize),
                dest: (r + 2) as usize,
            },
        );
        lemma_steps_extend_any(c0);
        lemma_steps_extend_any(c1);
        lemma_steps_extend_any(c2);
        lemma_code_extends_trans(c.code, c0.code, c1.code);
        lemma_code_extends_trans(c.code, c1.code, c2.code);
        lemma_code_extends_trans(c.code, c2.code, c3.code);
        lemma_conditional_extends(
            c3,
            Operand::Reg((r + 2) as usize),
            trap(error_index),
            nothing(),
        );
        lemma_code_extends_trans(
            c.code,
            c3.code,
            c.build_div_overflow_check(lhs, rhs, trap(error_index)).0.code,
        );
    }
}

} // verus!
