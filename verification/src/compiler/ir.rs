//! The code that the generator emits: basic blocks of instructions over
//! integer values, and what running that code means.
use crate::lexer::ComparisonToken;
use crate::types::Type;
use vstd::prelude::*;

verus! {

/// Refers to a basic block of the function under construction, by its
/// index.
#[derive(Debug, Clone, Copy, PartialEq, Eq, Structural)]
pub struct BlockRef(pub usize);

/// A value that an instruction reads.
#[derive(Debug, Clone, Copy, PartialEq, Eq, Structural)]
pub enum Operand {
    /// A constant of `bits` bits.
    Const { bits: u32, value: i64 },
    /// A parameter of the function, by its index. Parameters are integers
    /// of the language.
    Param(usize),
    /// The result of an earlier instruction, by its register.
    Reg(usize),
}

/// An arithmetic operation that reports overflow beside its result.
#[derive(Debug, Clone, Copy, PartialEq, Eq, Structural)]
pub enum CheckedOp {
    /// Signed addition.
    Add,
    /// Signed subtraction.
    Sub,
    /// Signed multiplication.
    Mul,
}

impl CheckedOp {
    /// The wrapped result of the operation, and whether the exact result
    /// left the range of the integers.
    pub open spec fn spec_apply(self, lhs: i64, rhs: i64) -> (i64, bool) {
        match self {
            CheckedOp::Add => match lhs.checked_add(rhs) {
                Some(v) => (v, false),
                None => (lhs.wrapping_add(rhs), true),
            },
            CheckedOp::Sub => match lhs.checked_sub(rhs) {
                Some(v) => (v, false),
                None => (lhs.wrapping_sub(rhs), true),
            },
            CheckedOp::Mul => match lhs.checked_mul(rhs) {
                Some(v) => (v, false),
                None => (lhs.wrapping_mul(rhs), true),
            },
        }
    }

    /// The wrapped result of the operation, and whether the exact result
    /// left the range of the integers.
    #[verifier::when_used_as_spec(spec_apply)]
    pub fn apply(self, lhs: i64, rhs: i64) -> (result: (i64, bool))
        ensures
            result == self.spec_apply(lhs, rhs),
    {
        match self {
            CheckedOp::Add => match lhs.checked_add(rhs) {
                Some(v) => (v, false),
                None => (lhs.wrapping_add(rhs), true),
            },
            CheckedOp::Sub => match lhs.checked_sub(rhs) {
                Some(v) => (v, false),
                None => (lhs.wrapping_sub(rhs), true),
            },
            CheckedOp::Mul => match lhs.checked_mul(rhs) {
                Some(v) => (v, false),
                None => (lhs.wrapping_mul(rhs), true),
            },
        }
    }

    /// The name of the operation in the backend's overflow-reporting
    /// intrinsics.
    pub fn name(self) -> (name: &'static str)
        ensures
            name == match self {
                CheckedOp::Add => "sadd",
                CheckedOp::Sub => "ssub",
                CheckedOp::Mul => "smul",
            },
    {
        match self {
            CheckedOp::Add => "sadd",
            CheckedOp::Sub => "ssub",
            CheckedOp::Mul => "smul",
        }
    }
}

/// An operation on two integers that has no overflow flag. Division and
/// remainder have no result for a zero divisor or for the smallest integer
/// by minus one; a shift has none for an amount outside `0..64`.
#[derive(Debug, Clone, Copy, PartialEq, Eq, Structural)]
pub enum BinOp {
    /// Bitwise and.
    And,
    /// Bitwise or.
    Or,
    /// Signed division, rounding towards zero.
    SDiv,
    /// Signed remainder, with the sign of the dividend.
    SRem,
    /// Shift to the left.
    Shl,
    /// Shift to the right that keeps the sign.
    AShr,
    /// Shift to the right that fills with zeros.
    LShr,
}

impl BinOp {
    /// The result of the operation, where it has one.
    pub open spec fn spec_apply(self, lhs: i64, rhs: i64) -> Option<i64> {
        match self {
            BinOp::And => Some(lhs & rhs),
            BinOp::Or => Some(lhs | rhs),
            BinOp::SDiv => lhs.checked_div(rhs),
            BinOp::SRem => lhs.checked_rem(rhs),
            BinOp::Shl => if 0 <= rhs < 64 {
                Some(lhs.wrapping_shl(rhs as u32))
            } else {
                None
            },
            BinOp::AShr => if 0 <= rhs < 64 {
                Some(lhs.wrapping_shr(rhs as u32))
            } else {
                None
            },
            BinOp::LShr => if 0 <= rhs < 64 {
                Some((lhs as u64).wrapping_shr(rhs as u32) as i64)
            } else {
                None
            },
        }
    }

    /// The result of the operation, where it has one.
    #[verifier::when_used_as_spec(spec_apply)]
    pub fn apply(self, lhs: i64, rhs: i64) -> (result: Option<i64>)
        ensures
            result == self.spec_apply(lhs, rhs),
    {
        match self {
            BinOp::And => Some(lhs & rhs),
            BinOp::Or => Some(lhs | rhs),
            BinOp::SDiv => lhs.checked_div(rhs),
            BinOp::SRem => lhs.checked_rem(rhs),
            BinOp::Shl => if 0 <= rhs && rhs < 64 {
                Some(lhs.wrapping_shl(rhs as u32))
            } else {
                None
            },
            BinOp::AShr => if 0 <= rhs && rhs < 64 {
                Some(lhs.wrapping_shr(rhs as u32))
            } else {
                None
            },
            BinOp::LShr => if 0 <= rhs && rhs < 64 {
                Some((lhs as u64).wrapping_shr(rhs as u32) as i64)
            } else {
                None
            },
        }
    }
}

/// A change of the width of an integer.
#[derive(Debug, Clone, Copy, PartialEq, Eq, Structural)]
pub enum CastOp {
    /// Keeps the low bits that a cell state has.
    TruncToCellState,
    /// Widens a narrower value, which is never negative, to an integer of
    /// the language.
    ZExtToInt,
}

impl CastOp {
    /// The value after the change of width.
    pub open spec fn spec_apply(self, value: i64) -> i64 {
        match self {
            CastOp::TruncToCellState => (value as u8) as i64,
            CastOp::ZExtToInt => value,
        }
    }

    /// The value after the change of width.
    #[verifier::when_used_as_spec(spec_apply)]
    pub fn apply(self, value: i64) -> (result: i64)
        ensures
            result == self.spec_apply(value),
    {
        match self {
            CastOp::TruncToCellState => (value as u8) as i64,
            CastOp::ZExtToInt => value,
        }
    }
}

/// An instruction. The last three end a basic block.
#[derive(Debug, Clone, Copy, PartialEq, Eq, Structural)]
#[allow(inconsistent_fields)]
pub enum Inst {
    /// Puts the wrapped result of `op` into the register `result` and, into
    /// the register `overflow`, 1 if the exact result left the range of the
    /// integers and 0 if not.
    CheckedArith { op: CheckedOp, lhs: Operand, rhs: Operand, result: usize, overflow: usize },
    /// Puts 1 into `dest` if the comparison holds and 0 if not.
    Compare { pred: ComparisonToken, lhs: Operand, rhs: Operand, dest: usize },
    /// Puts the result of `op` into `dest`.
    Binary { op: BinOp, lhs: Operand, rhs: Operand, dest: usize },
    /// Puts the value with its width changed into `dest`.
    Cast { op: CastOp, value: Operand, dest: usize },
    /// Puts what the variable slot holds into `dest`.
    Load { slot: usize, dest: usize },
    /// Puts the value into the variable slot.
    Store { slot: usize, value: Operand },
    /// Leaves the function with the value.
    Return(Operand),
    /// Goes on with another block.
    Branch(BlockRef),
    /// Goes on with `zero_block` if the value is zero and with `else_block`
    /// if it is anything else.
    Switch { value: Operand, else_block: BlockRef, zero_block: BlockRef },
}

impl Inst {
    /// Whether the instruction ends a basic block.
    pub open spec fn spec_is_terminator(self) -> bool {
        self is Return || self is Branch || self is Switch
    }

    /// Whether the instruction ends a basic block.
    #[verifier::when_used_as_spec(spec_is_terminator)]
    pub fn is_terminator(self) -> (b: bool)
        ensures
            b == self.spec_is_terminator(),
    {
        match self {
            Inst::Return(_) => true,
            Inst::Branch(_) => true,
            Inst::Switch { .. } => true,
            _ => false,
        }
    }
}

/// A basic block: a label and instructions that run one after the other.
#[derive(Debug, PartialEq, Eq)]
pub struct Block {
    pub name: String,
    pub insts: Vec<Inst>,
}

/// What a [`Block`] holds.
#[verifier::ext_equal]
pub struct BlockView {
    pub name: Seq<char>,
    pub insts: Seq<Inst>,
}

impl View for Block {
    type V = BlockView;

    open spec fn view(&self) -> BlockView {
        BlockView { name: self.name@, insts: self.insts@ }
    }
}

impl BlockView {
    /// Whether the block has no terminating instruction yet: it is empty or
    /// its last instruction is no terminator.
    pub open spec fn needs_terminator(self) -> bool {
        self.insts.len() == 0 || !self.insts.last().is_terminator()
    }
}

/// The storage of a variable: its name and its type. A slot holds the zero
/// value of its type when the function starts.
#[derive(Debug, PartialEq, Eq)]
pub struct Slot {
    pub name: String,
    pub ty: Type,
}

/// What a [`Slot`] holds.
pub struct SlotView {
    pub name: Seq<char>,
    pub ty: Type,
}

impl View for Slot {
    type V = SlotView;

    open spec fn view(&self) -> SlotView {
        SlotView { name: self.name@, ty: self.ty }
    }
}

/// The code of one function: its basic blocks, of which the first is the
/// entry, the slots of its variables, and the numbers of its parameters and
/// registers.
#[derive(Debug, PartialEq, Eq)]
pub struct Code {
    pub name: String,
    pub param_count: usize,
    pub slots: Vec<Slot>,
    pub blocks: Vec<Block>,
    pub reg_count: usize,
}

/// What a [`Code`] holds.
#[verifier::ext_equal]
pub struct CodeView {
    pub name: Seq<char>,
    pub param_count: usize,
    pub slots: Seq<SlotView>,
    pub blocks: Seq<BlockView>,
    pub reg_count: usize,
}

impl View for Code {
    type V = CodeView;

    open spec fn view(&self) -> CodeView {
        CodeView {
            name: self.name@,
            param_count: self.param_count,
            slots: self.slots@.map_values(|s: Slot| s@),
            blocks: self.blocks@.map_values(|b: Block| b@),
            reg_count: self.reg_count,
        }
    }
}

/// What a running function holds: the registers, of which those that no
/// instruction has written yet hold nothing, and the variable slots.
pub struct Machine {
    pub regs: Seq<Option<i64>>,
    pub slots: Seq<i64>,
}

/// What running one instruction leads to.
pub enum Step {
    /// The next instruction of the block, with the machine changed.
    Next(Machine),
    /// The first instruction of another block.
    Jump(BlockRef),
    /// The end of the function, with its value.
    Return(i64),
    /// Nothing: the instruction reads a register that holds nothing, names
    /// a parameter, register or slot that does not exist, or applies an
    /// operation to values that it has no result for.
    Stuck,
}

/// The value of an operand, if it has one.
pub open spec fn operand_value(operand: Operand, params: Seq<i64>, regs: Seq<Option<i64>>) -> Option<
    i64,
> {
    match operand {
        Operand::Const { value, .. } => Some(value),
        Operand::Param(i) => if i < params.len() {
            Some(params[i as int])
        } else {
            None
        },
        Operand::Reg(r) => if r < regs.len() {
            regs[r as int]
        } else {
            None
        },
    }
}

/// The machine with `value` in the register `dest`, or `Stuck` if there is
/// no such register.
pub open spec fn write_reg(m: Machine, dest: usize, value: i64) -> Step {
    if dest < m.regs.len() {
        Step::Next(Machine { regs: m.regs.update(dest as int, Some(value)), slots: m.slots })
    } else {
        Step::Stuck
    }
}

/// 1 for true and 0 for false.
pub open spec fn flag(b: bool) -> i64 {
    if b {
        1
    } else {
        0
    }
}

/// What running the instruction `inst` on the machine `m` leads to.
pub open spec fn step(inst: Inst, params: Seq<i64>, m: Machine) -> Step {
    match inst {
        Inst::CheckedArith { op, lhs, rhs, result, overflow } => match (
            operand_value(lhs, params, m.regs),
            operand_value(rhs, params, m.regs),
        ) {
            (Some(a), Some(b)) => match write_reg(m, result, op.apply(a, b).0) {
                Step::Next(m1) => write_reg(m1, overflow, flag(op.apply(a, b).1)),
                _ => Step::Stuck,
            },
            _ => Step::Stuck,
        },
        Inst::Compare { pred, lhs, rhs, dest } => match (
            operand_value(lhs, params, m.regs),
            operand_value(rhs, params, m.regs),
        ) {
            (Some(a), Some(b)) => write_reg(m, dest, flag(pred.eval(a, b))),
            _ => Step::Stuck,
        },
        Inst::Binary { op, lhs, rhs, dest } => match (
            operand_value(lhs, params, m.regs),
            operand_value(rhs, params, m.regs),
        ) {
            (Some(a), Some(b)) => match op.apply(a, b) {
                Some(v) => write_reg(m, dest, v),
                None => Step::Stuck,
            },
            _ => Step::Stuck,
        },
        Inst::Cast { op, value, dest } => match operand_value(value, params, m.regs) {
            Some(v) => write_reg(m, dest, op.apply(v)),
            None => Step::Stuck,
        },
        Inst::Load { slot, dest } => if slot < m.slots.len() {
            write_reg(m, dest, m.slots[slot as int])
        } else {
            Step::Stuck
        },
        Inst::Store { slot, value } => match operand_value(value, params, m.regs) {
            Some(v) => if slot < m.slots.len() {
                Step::Next(Machine { regs: m.regs, slots: m.slots.update(slot as int, v) })
            } else {
                Step::Stuck
            },
            None => Step::Stuck,
        },
        Inst::Return(value) => match operand_value(value, params, m.regs) {
            Some(v) => Step::Return(v),
            None => Step::Stuck,
        },
        Inst::Branch(block) => Step::Jump(block),
        Inst::Switch { value, else_block, zero_block } => match operand_value(
            value,
            params,
            m.regs,
        ) {
            Some(v) => if v == 0 {
                Step::Jump(zero_block)
            } else {
                Step::Jump(else_block)
            },
            None => Step::Stuck,
        },
    }
}

impl CodeView {
    /// The machine at the start of the function: no register holds
    /// anything, and every slot holds zero.
    pub open spec fn start(self) -> Machine {
        Machine {
            regs: Seq::new(self.reg_count as nat, |i: int| None::<i64>),
            slots: Seq::new(self.slots.len(), |i: int| 0i64),
        }
    }

    /// The value that the function returns when it goes on from the
    /// instruction `pc` of the block `block` on the machine `m` and may
    /// still enter `fuel` blocks. There is none where an instruction is
    /// stuck, where a block ends without a terminator, or where the fuel
    /// runs out.
    pub open spec fn run_from(
        self,
        params: Seq<i64>,
        block: int,
        pc: int,
        m: Machine,
        fuel: nat,
    ) -> Option<i64>
        decreases fuel, self.blocks[block].insts.len() - pc,
    {
        if block < 0 || block >= self.blocks.len() || pc < 0 || pc
            >= self.blocks[block].insts.len() {
            None
        } else {
            match step(self.blocks[block].insts[pc], params, m) {
                Step::Next(m1) => self.run_from(params, block, pc + 1, m1, fuel),
                Step::Jump(target) => if fuel == 0 {
                    None
                } else {
                    self.run_from(params, target.0 as int, 0, m, (fuel - 1) as nat)
                },
                Step::Return(v) => Some(v),
                Step::Stuck => None,
            }
        }
    }

    /// The value that the function returns for the parameters `params`,
    /// where it enters no more blocks than it has.
    pub open spec fn run(self, params: Seq<i64>) -> Option<i64> {
        self.run_from(params, 0, 0, self.start(), self.blocks.len())
    }
}

/// What running one instruction led to, with the machine changed in place.
enum Outcome {
    Next,
    Jump(BlockRef),
    Return(i64),
    Stuck,
}

/// The value of an operand, if it has one.
fn read_operand(operand: Operand, params: &Vec<i64>, regs: &Vec<Option<i64>>) -> (value: Option<i64>)
    ensures
        value == operand_value(operand, params@, regs@),
{
    match operand {
        Operand::Const { value, .. } => Some(value),
        Operand::Param(i) => if i < params.len() {
            Some(params[i])
        } else {
            None
        },
        Operand::Reg(r) => if r < regs.len() {
            regs[r]
        } else {
            None
        },
    }
}

/// Puts `value` into the register `dest`, if there is such a register.
fn set_reg(regs: &mut Vec<Option<i64>>, dest: usize, value: i64, slots: Ghost<Seq<i64>>) -> (ok: bool)
    ensures
        match write_reg(Machine { regs: old(regs)@, slots: slots@ }, dest, value) {
            Step::Next(m) => ok && final(regs)@ == m.regs,
            _ => !ok && final(regs)@ == old(regs)@,
        },
{
    if dest < regs.len() {
        regs.set(dest, Some(value));
        true
    } else {
        false
    }
}

/// 1 for true and 0 for false.
fn flag_of(b: bool) -> (value: i64)
    ensures
        value == flag(b),
{
    if b {
        1
    } else {
        0
    }
}

/// Runs one instruction on the machine that `regs` and `slots` hold.
fn run_inst(inst: Inst, params: &Vec<i64>, regs: &mut Vec<Option<i64>>, slots: &mut Vec<i64>) -> (outcome:
    Outcome)
    ensures
        match step(inst, params@, Machine { regs: old(regs)@, slots: old(slots)@ }) {
            Step::Next(m) => outcome is Next && final(regs)@ == m.regs && final(slots)@ == m.slots,
            Step::Jump(block) => outcome == Outcome::Jump(block) && final(regs)@ == old(regs)@
                && final(slots)@ == old(slots)@,
            Step::Return(v) => outcome == Outcome::Return(v),
            Step::Stuck => outcome is Stuck,
        },
{
    let ghost s = slots@;
    match inst {
        Inst::CheckedArith { op, lhs, rhs, result, overflow } => {
            match (read_operand(lhs, params, regs), read_operand(rhs, params, regs)) {
                (Some(a), Some(b)) => {
                    let (value, overflowed) = op.apply(a, b);
                    if result < regs.len() && overflow < regs.len() {
                        let _ = set_reg(regs, result, value, Ghost(s));
                        let _ = set_reg(regs, overflow, flag_of(overflowed), Ghost(s));
                        Outcome::Next
                    } else {
                        Outcome::Stuck
                    }
                },
                _ => Outcome::Stuck,
            }
        },
        Inst::Compare { pred, lhs, rhs, dest } => {
            match (read_operand(lhs, params, regs), read_operand(rhs, params, regs)) {
                (Some(a), Some(b)) => {
                    if set_reg(regs, dest, flag_of(pred.eval(a, b)), Ghost(s)) {
                        Outcome::Next
                    } else {
                        Outcome::Stuck
                    }
                },
                _ => Outcome::Stuck,
            }
        },
        Inst::Binary { op, lhs, rhs, dest } => {
            match (read_operand(lhs, params, regs), read_operand(rhs, params, regs)) {
                (Some(a), Some(b)) => match op.apply(a, b) {
                    Some(v) => {
                        if set_reg(regs, dest, v, Ghost(s)) {
                            Outcome::Next
                        } else {
                            Outcome::Stuck
                        }
                    },
                    None => Outcome::Stuck,
                },
                _ => Outcome::Stuck,
            }
        },
        Inst::Cast { op, value, dest } => match read_operand(value, params, regs) {
            Some(v) => {
                if set_reg(regs, dest, op.apply(v), Ghost(s)) {
                    Outcome::Next
                } else {
                    Outcome::Stuck
                }
            },
            None => Outcome::Stuck,
        },
        Inst::Load { slot, dest } => {
            if slot < slots.len() {
                if set_reg(regs, dest, slots[slot], Ghost(s)) {
                    Outcome::Next
                } else {
                    Outcome::Stuck
                }
            } else {
                Outcome::Stuck
            }
        },
        Inst::Store { slot, value } => match read_operand(value, params, regs) {
            Some(v) => {
                if slot < slots.len() {
                    slots.set(slot, v);
                    Outcome::Next
                } else {
                    Outcome::Stuck
                }
            },
            None => Outcome::Stuck,
        },
        Inst::Return(value) => match read_operand(value, params, regs) {
            Some(v) => Outcome::Return(v),
            None => Outcome::Stuck,
        },
        Inst::Branch(block) => Outcome::Jump(block),
        Inst::Switch { value, else_block, zero_block } => match read_operand(value, params, regs) {
            Some(v) => if v == 0 {
                Outcome::Jump(zero_block)
            } else {
                Outcome::Jump(else_block)
            },
            None => Outcome::Stuck,
        },
    }
}

impl Code {
    /// Runs the function on the parameters `params` and gives the value it
    /// returns. Gives nothing where an instruction is stuck, where a block
    /// ends without a terminator, or where the function enters more blocks
    /// than it has.
    pub fn execute(&self, params: &Vec<i64>) -> (value: Option<i64>)
        ensures
            value == self@.run(params@),
    {
        let mut regs: Vec<Option<i64>> = Vec::new();
        let mut i: usize = 0;
        while i < self.reg_count
            invariant
                i <= self.reg_count,
                regs@ == Seq::new(i as nat, |i: int| None::<i64>),
            decreases self.reg_count - i,
        {
            regs.push(None);
            i = i + 1;
        }
        let mut slots: Vec<i64> = Vec::new();
        let mut j: usize = 0;
        while j < self.slots.len()
            invariant
                j <= self.slots.len(),
                slots@ == Seq::new(j as nat, |i: int| 0i64),
            decreases self.slots.len() - j,
        {
            slots.push(0);
            j = j + 1;
        }
        let mut fuel: usize = self.blocks.len();
        let mut block: usize = 0;
        let mut pc: usize = 0;
        loop
            invariant
                self@.run(params@) == self@.run_from(
                    params@,
                    block as int,
                    pc as int,
                    Machine { regs: regs@, slots: slots@ },
                    fuel as nat,
                ),
            decreases fuel, self@.blocks[block as int].insts.len() - pc,
        {
            if block >= self.blocks.len() {
                return None;
            }
            if pc >= self.blocks[block].insts.len() {
                return None;
            }
            let inst = self.blocks[block].insts[pc];
            match run_inst(inst, params, &mut regs, &mut slots) {
                Outcome::Next => {
                    pc = pc + 1;
                },
                Outcome::Jump(target) => {
                    if fuel == 0 {
                        return None;
                    }
                    fuel = fuel - 1;
                    block = target.0;
                    pc = 0;
                },
                Outcome::Return(v) => {
                    return Some(v);
                },
                Outcome::Stuck => {
                    return None;
                },
            }
        }
    }
}

} // verus!
