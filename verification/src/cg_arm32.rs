//! The ARMv7 back end: assembly for 32-bit ARM (Raspberry Pi).
use vstd::prelude::*;
use crate::ast::{AstNode, AstNodeG};
use crate::cgen::{comparison_of, reg_use, BackendOp, CodeBackend, Comparison, RegUse};
use crate::emit::{dec_text, hex_text, push_dec, push_hex};
use crate::error::{CompileError, ErrorKind};
use crate::sym::PrimType;

verus! {

/// The end of every function, after its end label.
pub const POSTAMBLE: &'static str = "\n\tsub\tsp, fp, #4\n\tpop\t{fp, pc}\n";

/// The registers that hold values.
#[derive(Clone, Copy, PartialEq, Eq, Hash, Debug, Structural)]
pub enum ArmV7Reg {
    R4,
    R5,
    R6,
    R7,
}

pub open spec fn reg_text(r: ArmV7Reg) -> Seq<char> {
    match r {
        ArmV7Reg::R4 => "r4"@,
        ArmV7Reg::R5 => "r5"@,
        ArmV7Reg::R6 => "r6"@,
        ArmV7Reg::R7 => "r7"@,
    }
}

/// The slot of a register in the table of free registers.
pub open spec fn reg_index(r: ArmV7Reg) -> int {
    match r {
        ArmV7Reg::R4 => 0,
        ArmV7Reg::R5 => 1,
        ArmV7Reg::R6 => 2,
        ArmV7Reg::R7 => 3,
    }
}

impl ArmV7Reg {
    /// The register's name in assembly.
    pub fn name(&self) -> (s: &'static str)
        ensures
            s@ == reg_text(*self),
    {
        match self {
            ArmV7Reg::R4 => "r4",
            ArmV7Reg::R5 => "r5",
            ArmV7Reg::R6 => "r6",
            ArmV7Reg::R7 => "r7",
        }
    }

    fn index(&self) -> (i: usize)
        ensures
            i == reg_index(*self),
    {
        match self {
            ArmV7Reg::R4 => 0,
            ArmV7Reg::R5 => 1,
            ArmV7Reg::R6 => 2,
            ArmV7Reg::R7 => 3,
        }
    }
}

pub open spec fn jmp_text(c: Comparison) -> Seq<char> {
    match c {
        Comparison::Eq => "bne"@,
        Comparison::Ne => "beq"@,
        Comparison::Lt => "bge"@,
        Comparison::Le => "bgt"@,
        Comparison::Gt => "ble"@,
        Comparison::Ge => "blt"@,
    }
}

/// The conditional moves that set 1 when the comparison holds and 0 when not.
pub open spec fn set_text(c: Comparison) -> (Seq<char>, Seq<char>) {
    match c {
        Comparison::Eq => ("moveq"@, "movne"@),
        Comparison::Ne => ("movne"@, "moveq"@),
        Comparison::Lt => ("movlt"@, "movge"@),
        Comparison::Le => ("movle"@, "movgt"@),
        Comparison::Gt => ("movgt"@, "movle"@),
        Comparison::Ge => ("movge"@, "movlt"@),
    }
}

/// The branch taken when the comparison `op` fails.
pub fn ast_to_jmp_op(op: &AstNode) -> (s: &'static str)
    requires
        op.spec_is_comparison(),
    ensures
        s@ == jmp_text(comparison_of(*op)),
{
    match op {
        AstNodeG::Equal { .. } => "bne",
        AstNodeG::NotEqual { .. } => "beq",
        AstNodeG::LessThan { .. } => "bge",
        AstNodeG::LessThanOrEqual { .. } => "bgt",
        AstNodeG::GreaterThan { .. } => "ble",
        _ => "blt",
    }
}

/// The two conditional moves for the comparison `op`: the one that sets 1
/// when it holds, then the one that sets 0 when it does not.
pub fn ast_to_set_op(op: &AstNode) -> (s: (&'static str, &'static str))
    requires
        op.spec_is_comparison(),
    ensures
        (s.0@, s.1@) == set_text(comparison_of(*op)),
{
    match op {
        AstNodeG::Equal { .. } => ("moveq", "movne"),
        AstNodeG::NotEqual { .. } => ("movne", "moveq"),
        AstNodeG::LessThan { .. } => ("movlt", "movge"),
        AstNodeG::LessThanOrEqual { .. } => ("movle", "movgt"),
        AstNodeG::GreaterThan { .. } => ("movgt", "movle"),
        _ => ("movge", "movlt"),
    }
}

/// The ARMv7 back end: the text emitted so far and which registers are free.
pub struct ArmV7Backend {
    output: String,
    reg_status: [bool; 4],
    log: Ghost<Seq<BackendOp>>,
    uses: Ghost<Seq<RegUse<ArmV7Reg>>>,
}

impl ArmV7Backend {
    /// The text emitted so far.
    pub closed spec fn text(&self) -> Seq<char> {
        self.output@
    }

    /// For each register, by its slot, whether it is free.
    pub closed spec fn free_regs(&self) -> Seq<bool> {
        self.reg_status@
    }

    /// A back end with nothing emitted and every register free.
    pub fn new() -> (b: ArmV7Backend)
        ensures
            b.text() == Seq::<char>::empty(),
            b.free_regs() == seq![true, true, true, true],
            b.ops() == Seq::<BackendOp>::empty(),
            b.in_sync(),
    {
        let b = ArmV7Backend { output: String::new(), reg_status: [true, true, true, true], log: Ghost(Seq::empty()), uses: Ghost(Seq::empty()) };
        assert(b.reg_status@ =~= seq![true, true, true, true]);
        b
    }

    /// The text emitted so far.
    pub fn output(&self) -> (s: &String)
        ensures
            s@ == self.text(),
    {
        &self.output
    }

    /// Whether `reg` is free.
    pub fn is_free(&self, reg: ArmV7Reg) -> (r: bool)
        ensures
            r == self.free_regs()[reg_index(reg)],
    {
        self.reg_status[reg.index()]
    }

    /// Mark `reg` free.
    pub fn free_register(&mut self, reg: ArmV7Reg)
        ensures
            final(self).free_regs() == old(self).free_regs().update(reg_index(reg), true),
            final(self).text() == old(self).text(),
            final(self).ops() == old(self).ops(),
            final(self).reg_uses() == old(self).reg_uses(),
    {
        let i = reg.index();
        self.reg_status.set(i, true);
    }

    /// The first free register, in the order r4, r5, r6, r7, now in use; an
    /// error when none is free.
    pub fn alloc_register(&mut self) -> (r: Result<ArmV7Reg, CompileError>)
        ensures
            final(self).text() == old(self).text(),
            final(self).ops() == old(self).ops(),
            final(self).reg_uses() == old(self).reg_uses(),
            match r {
                Ok(reg) => old(self).free_regs()[reg_index(reg)] && (forall|j: int|
                    0 <= j < reg_index(reg) ==> !old(self).free_regs()[j]) && final(self).free_regs()
                    == old(self).free_regs().update(reg_index(reg), false),
                Err(e) => e == CompileError { kind: ErrorKind::OutOfRegisters, line: 0 } && (forall|j: int|
                    0 <= j < 4 ==> !old(self).free_regs()[j]) && final(self).free_regs()
                    == old(self).free_regs(),
            },
    {
        let mut i: usize = 0;
        while i < 4
            invariant
                i <= 4,
                self.reg_status == old(self).reg_status,
                self.output == old(self).output,
                self.log == old(self).log,
                self.uses == old(self).uses,
                forall|j: int| 0 <= j < i ==> !old(self).reg_status@[j],
            decreases 4 - i,
        {
            if self.reg_status[i] {
                self.reg_status.set(i, false);
                let reg = if i == 0 {
                    ArmV7Reg::R4
                } else if i == 1 {
                    ArmV7Reg::R5
                } else if i == 2 {
                    ArmV7Reg::R6
                } else {
                    ArmV7Reg::R7
                };
                return Ok(reg);
            }
            i += 1;
        }
        Err(CompileError { kind: ErrorKind::OutOfRegisters, line: 0 })
    }
}

/// The size of each type on ARMv7.
pub open spec fn arm_type_size(dtype: PrimType) -> usize {
    match dtype {
        PrimType::Char => 1,
        PrimType::Void => 0,
        _ => 4,
    }
}

pub open spec fn label_text(n: usize) -> Seq<char> {
    ".L"@ + dec_text(n as nat) + ":\n"@
}

pub open spec fn jump_text(n: usize) -> Seq<char> {
    "\tb\t.L"@ + dec_text(n as nat) + "\n"@
}

/// The instructions that load `val`, cut to 32 bits: its low half, and its
/// high half when that is not zero.
pub open spec fn load_int_text(val: i64, reg: ArmV7Reg) -> Seq<char> {
    let uval = val as u32;
    "\tmovw\t"@ + reg_text(reg) + ", "@ + hex_text((uval & 0xFFFF) as nat) + "\n"@ + if uval > 0xFFFF {
        "\tmovt\t"@ + reg_text(reg) + ", "@ + hex_text((uval >> 16) as nat) + "\n"@
    } else {
        Seq::empty()
    }
}

/// The text of one request, given the registers it was handed and the one
/// it left a value in.
pub open spec fn arm_op_text(op: BackendOp, u: RegUse<ArmV7Reg>) -> Seq<char> {
    let a = u.args[0];
    let b = u.args[1];
    match op {
        BackendOp::FreeAll => Seq::empty(),
        BackendOp::Preamble => "\t.text\n"@,
        BackendOp::FuncPreamble(name) => "\n.text\n\t.globl\t"@ + name + "\n\t.type\t"@ + name + ", %function\n"@
            + name + ":\n\tpush\t{fp, lr}\n\tadd\tfp, sp, #4\n\tsub\tsp, sp, #8\n\tstr\tr0, [fp, #-8]\n"@,
        BackendOp::FuncPostamble(n) => label_text(n) + POSTAMBLE@,
        BackendOp::LoadInt(val) => load_int_text(val, u.result.unwrap()),
        BackendOp::LoadGlob(name, _) => "\tldr\tr3, ="@ + name + "\n\tldr\t"@ + reg_text(u.result.unwrap()) + ", [r3]\n"@,
        BackendOp::StoreGlob(name, dtype) => "\tldr\tr3, ="@ + name + "\n"@ + (if dtype == PrimType::Char {
            "\tstrb\t"@
        } else {
            "\tstr\t"@
        }) + reg_text(a) + ", [r3]\n"@,
        BackendOp::GlobSym(name, dtype) => ".global "@ + name + "\n"@ + name + ":\n\t.zero "@ + dec_text(
            arm_type_size(dtype) as nat,
        ) + "\n"@,
        BackendOp::Add => "\tadd\t"@ + reg_text(b) + ", "@ + reg_text(b) + ", "@ + reg_text(a) + "\n"@,
        BackendOp::Sub => "\tsub\t"@ + reg_text(a) + ", "@ + reg_text(a) + ", "@ + reg_text(b) + "\n"@,
        BackendOp::Mul => "\tmul\t"@ + reg_text(b) + ", "@ + reg_text(b) + ", "@ + reg_text(a) + "\n"@,
        BackendOp::Div => "\tmov\tr0, "@ + reg_text(a) + "\n\tmov\tr1, "@ + reg_text(b) + "\n\tbl\t__aeabi_idiv\n\tmov\t"@
            + reg_text(a) + ", r0\n"@,
        BackendOp::CompareSet(c) => "\tcmp\t"@ + reg_text(b) + ", "@ + reg_text(a) + "\n\t"@ + set_text(c).0 + "\t"@
            + reg_text(b) + ", #1\n\t"@ + set_text(c).1 + "\t"@ + reg_text(b) + ", #0\n"@,
        BackendOp::CompareJump(c, n) => "\tcmp\t"@ + reg_text(b) + ", "@ + reg_text(a) + "\n\t"@ + jmp_text(c)
            + "\t.L"@ + dec_text(n as nat) + "\n"@,
        BackendOp::Label(n) => label_text(n),
        BackendOp::Jump(n) => jump_text(n),
        BackendOp::PrintInt => "\tmov\tr0, "@ + reg_text(a) + "\n\tbl\tprintint\n"@,
        BackendOp::Call(name) => "\tmov\tr0, "@ + reg_text(a) + "\n\tbl\t"@ + name + "\n\tmov\t"@ + reg_text(a) + ", r0\n"@,
        BackendOp::Ret(_, n) => "\tmov\tr0, "@ + reg_text(a) + "\n"@ + jump_text(n),
        BackendOp::Refused => Seq::empty(),
    }
}

/// The text that the requests `ops`, with the registers in `uses`, make.
pub open spec fn arm_render(ops: Seq<BackendOp>, uses: Seq<RegUse<ArmV7Reg>>) -> Seq<char>
    decreases ops.len(),
{
    if ops.len() == 0 || uses.len() == 0 {
        Seq::empty()
    } else {
        arm_render(ops.drop_last(), uses.drop_last()) + arm_op_text(ops.last(), uses.last())
    }
}

/// One more request adds its text at the end.
pub proof fn lemma_arm_render_push(ops: Seq<BackendOp>, uses: Seq<RegUse<ArmV7Reg>>, op: BackendOp, u: RegUse<ArmV7Reg>)
    requires
        ops.len() == uses.len(),
    ensures
        arm_render(ops.push(op), uses.push(u)) == arm_render(ops, uses) + arm_op_text(op, u),
        arm_render(ops, uses) + Seq::<char>::empty() == arm_render(ops, uses),
{
    assert(ops.push(op).drop_last() =~= ops);
    assert(uses.push(u).drop_last() =~= uses);
    assert(arm_render(ops, uses) + Seq::<char>::empty() =~= arm_render(ops, uses));
}

impl CodeBackend for ArmV7Backend {
    type Reg = ArmV7Reg;

    open spec fn spec_type_size(&self, dtype: PrimType) -> usize {
        arm_type_size(dtype)
    }

    open spec fn spec_alignment() -> usize {
        2
    }

    closed spec fn ops(&self) -> Seq<BackendOp> {
        self.log@
    }

    closed spec fn reg_uses(&self) -> Seq<RegUse<ArmV7Reg>> {
        self.uses@
    }

    open spec fn in_sync(&self) -> bool {
        self.text() == arm_render(self.ops(), self.reg_uses()) && self.ops().len() == self.reg_uses().len()
    }

    fn alignment() -> (r: usize) {
        2
    }

    fn free_all_registers(&mut self) -> (r: Result<(), CompileError>)
        ensures
            r is Ok,
            final(self).free_regs() == seq![true, true, true, true],
            final(self).text() == old(self).text(),
    {
        self.reg_status = [true, true, true, true];
        assert(self.reg_status@ =~= seq![true, true, true, true]);
        proof {
            if self.log@.len() == self.uses@.len() {
                lemma_arm_render_push(self.log@, self.uses@, BackendOp::FreeAll, reg_use(Seq::empty(), None));
            }
        }
        self.log = Ghost(self.log@.push(BackendOp::FreeAll));
        self.uses = Ghost(self.uses@.push(reg_use(Seq::empty(), None)));
        assert(self.output@ =~= old(self).output@ + arm_op_text(BackendOp::FreeAll, reg_use(Seq::empty(), None)));
        Ok(())
    }

    fn preamble(&mut self) -> (r: Result<(), CompileError>)
        ensures
            r is Ok,
            final(self).free_regs() == seq![true, true, true, true],
            final(self).text() == old(self).text() + "\t.text\n"@,
    {
        self.reg_status = [true, true, true, true];
        assert(self.reg_status@ =~= seq![true, true, true, true]);
        self.output.append("\t.text\n");
        proof {
            if self.log@.len() == self.uses@.len() {
                lemma_arm_render_push(self.log@, self.uses@, BackendOp::Preamble, reg_use(Seq::empty(), None));
            }
        }
        self.log = Ghost(self.log@.push(BackendOp::Preamble));
        self.uses = Ghost(self.uses@.push(reg_use(Seq::empty(), None)));
        assert(self.output@ =~= old(self).output@ + arm_op_text(BackendOp::Preamble, reg_use(Seq::empty(), None)));
        Ok(())
    }

    fn type_size(&self, dtype: PrimType) -> (r: usize) {
        match dtype {
            PrimType::Char => 1,
            PrimType::Void => 0,
            _ => 4,
        }
    }

    fn func_preamble(&mut self, ident: &str) -> (r: Result<(), CompileError>)
        ensures
            r is Ok,
            final(self).free_regs() == old(self).free_regs(),
            final(self).text() == old(self).text() + "\n.text\n\t.globl\t"@ + ident@ + "\n\t.type\t"@
                + ident@ + ", %function\n"@ + ident@
                + ":\n\tpush\t{fp, lr}\n\tadd\tfp, sp, #4\n\tsub\tsp, sp, #8\n\tstr\tr0, [fp, #-8]\n"@,
    {
        self.output.append("\n.text\n\t.globl\t");
        self.output.append(ident);
        self.output.append("\n\t.type\t");
        self.output.append(ident);
        self.output.append(", %function\n");
        self.output.append(ident);
        self.output.append(":\n\tpush\t{fp, lr}\n\tadd\tfp, sp, #4\n\tsub\tsp, sp, #8\n\tstr\tr0, [fp, #-8]\n");
        proof {
            if self.log@.len() == self.uses@.len() {
                lemma_arm_render_push(self.log@, self.uses@, BackendOp::FuncPreamble(ident@), reg_use(Seq::empty(), None));
            }
        }
        self.log = Ghost(self.log@.push(BackendOp::FuncPreamble(ident@)));
        self.uses = Ghost(self.uses@.push(reg_use(Seq::empty(), None)));
        assert(self.output@ =~= old(self).output@ + arm_op_text(BackendOp::FuncPreamble(ident@), reg_use(Seq::empty(), None)));
        Ok(())
    }

    fn func_postamble(&mut self, label_num: usize) -> (r: Result<(), CompileError>)
        ensures
            r is Ok,
            final(self).free_regs() == old(self).free_regs(),
            final(self).text() == old(self).text() + label_text(label_num) + POSTAMBLE@,
    {
        self.output.append(".L");
        push_dec(&mut self.output, label_num as u64);
        self.output.append(":\n");
        self.output.append(POSTAMBLE);
        proof {
            if self.log@.len() == self.uses@.len() {
                lemma_arm_render_push(self.log@, self.uses@, BackendOp::FuncPostamble(label_num), reg_use(Seq::empty(), None));
            }
        }
        self.log = Ghost(self.log@.push(BackendOp::FuncPostamble(label_num)));
        self.uses = Ghost(self.uses@.push(reg_use(Seq::empty(), None)));
        assert(self.output@ =~= old(self).output@ + arm_op_text(BackendOp::FuncPostamble(label_num), reg_use(Seq::empty(), None)));
        Ok(())
    }

    fn load_int(&mut self, val: i64) -> (r: Result<ArmV7Reg, CompileError>)
        ensures
            match r {
                Ok(reg) => old(self).free_regs()[reg_index(reg)] && (forall|j: int|
                    0 <= j < reg_index(reg) ==> !old(self).free_regs()[j]) && final(self).free_regs()
                    == old(self).free_regs().update(reg_index(reg), false) && final(self).text()
                    == old(self).text() + load_int_text(val, reg),
                Err(e) => e.kind == ErrorKind::OutOfRegisters,
            },
    {
        let uval = val as u32;
        let reg = match self.alloc_register() {
            Ok(reg) => reg,
            Err(e) => {
                proof {
                    if self.log@.len() == self.uses@.len() {
                        lemma_arm_render_push(self.log@, self.uses@, BackendOp::Refused, reg_use(Seq::empty(), None));
                    }
                }
                self.log = Ghost(self.log@.push(BackendOp::Refused));
                self.uses = Ghost(self.uses@.push(reg_use(Seq::empty(), None)));
                assert(self.output@ =~= old(self).output@ + arm_op_text(BackendOp::Refused, reg_use(Seq::empty(), None)));
                return Err(e);
            },
        };
        self.output.append("\tmovw\t");
        self.output.append(reg.name());
        self.output.append(", ");
        push_hex(&mut self.output, (uval & 0xFFFF) as u64);
        self.output.append("\n");
        if uval > 0xFFFF {
            self.output.append("\tmovt\t");
            self.output.append(reg.name());
            self.output.append(", ");
            push_hex(&mut self.output, (uval >> 16) as u64);
            self.output.append("\n");
        }
        proof {
            if self.log@.len() == self.uses@.len() {
                lemma_arm_render_push(self.log@, self.uses@, BackendOp::LoadInt(val), reg_use(Seq::empty(), Some(reg)));
            }
        }
        self.log = Ghost(self.log@.push(BackendOp::LoadInt(val)));
        self.uses = Ghost(self.uses@.push(reg_use(Seq::empty(), Some(reg))));
        assert(self.output@ =~= old(self).output@ + arm_op_text(BackendOp::LoadInt(val), reg_use(Seq::empty(), Some(reg))));
        Ok(reg)
    }

    fn load_glob(&mut self, ident: &str, dtype: PrimType) -> (r: Result<ArmV7Reg, CompileError>)
        ensures
            match r {
                Ok(reg) => old(self).free_regs()[reg_index(reg)] && (forall|j: int|
                    0 <= j < reg_index(reg) ==> !old(self).free_regs()[j]) && final(self).free_regs()
                    == old(self).free_regs().update(reg_index(reg), false) && final(self).text()
                    == old(self).text() + "\tldr\tr3, ="@ + ident@ + "\n\tldr\t"@ + reg_text(reg)
                    + ", [r3]\n"@,
                Err(e) => e.kind == ErrorKind::OutOfRegisters,
            },
    {
        let reg = match self.alloc_register() {
            Ok(reg) => reg,
            Err(e) => {
                proof {
                    if self.log@.len() == self.uses@.len() {
                        lemma_arm_render_push(self.log@, self.uses@, BackendOp::Refused, reg_use(Seq::empty(), None));
                    }
                }
                self.log = Ghost(self.log@.push(BackendOp::Refused));
                self.uses = Ghost(self.uses@.push(reg_use(Seq::empty(), None)));
                assert(self.output@ =~= old(self).output@ + arm_op_text(BackendOp::Refused, reg_use(Seq::empty(), None)));
                return Err(e);
            },
        };
        self.output.append("\tldr\tr3, =");
        self.output.append(ident);
        self.output.append("\n\tldr\t");
        self.output.append(reg.name());
        self.output.append(", [r3]\n");
        proof {
            if self.log@.len() == self.uses@.len() {
                lemma_arm_render_push(self.log@, self.uses@, BackendOp::LoadGlob(ident@, dtype), reg_use(Seq::empty(), Some(reg)));
            }
        }
        self.log = Ghost(self.log@.push(BackendOp::LoadGlob(ident@, dtype)));
        self.uses = Ghost(self.uses@.push(reg_use(Seq::empty(), Some(reg))));
        assert(self.output@ =~= old(self).output@ + arm_op_text(BackendOp::LoadGlob(ident@, dtype), reg_use(Seq::empty(), Some(reg))));
        Ok(reg)
    }

    fn store_glob(&mut self, r: ArmV7Reg, ident: &str, dtype: PrimType) -> (res: Result<ArmV7Reg, CompileError>)
        ensures
            dtype == PrimType::Void ==> res == Err::<ArmV7Reg, CompileError>(
                CompileError { kind: ErrorKind::InvalidTree, line: 0 },
            ),
            dtype != PrimType::Void ==> res == Ok::<ArmV7Reg, CompileError>(r) && final(self).free_regs()
                == old(self).free_regs() && final(self).text() == old(self).text() + "\tldr\tr3, ="@
                + ident@ + "\n"@ + (if dtype == PrimType::Char {
                "\tstrb\t"@
            } else {
                "\tstr\t"@
            }) + reg_text(r) + ", [r3]\n"@,
    {
        if dtype == PrimType::Void {
            proof {
                if self.log@.len() == self.uses@.len() {
                    lemma_arm_render_push(self.log@, self.uses@, BackendOp::Refused, reg_use(seq![r], None));
                }
            }
            self.log = Ghost(self.log@.push(BackendOp::Refused));
            self.uses = Ghost(self.uses@.push(reg_use(seq![r], None)));
            assert(self.output@ =~= old(self).output@ + arm_op_text(BackendOp::Refused, reg_use(seq![r], None)));
            return Err(CompileError { kind: ErrorKind::InvalidTree, line: 0 });
        }
        self.output.append("\tldr\tr3, =");
        self.output.append(ident);
        self.output.append("\n");
        if dtype == PrimType::Char {
            self.output.append("\tstrb\t");
        } else {
            self.output.append("\tstr\t");
        }
        self.output.append(r.name());
        self.output.append(", [r3]\n");
        proof {
            if self.log@.len() == self.uses@.len() {
                lemma_arm_render_push(self.log@, self.uses@, BackendOp::StoreGlob(ident@, dtype), reg_use(seq![r], Some(r)));
            }
        }
        self.log = Ghost(self.log@.push(BackendOp::StoreGlob(ident@, dtype)));
        self.uses = Ghost(self.uses@.push(reg_use(seq![r], Some(r))));
        assert(self.output@ =~= old(self).output@ + arm_op_text(BackendOp::StoreGlob(ident@, dtype), reg_use(seq![r], Some(r))));
        Ok(r)
    }

    fn glob_sym(&mut self, sym: &str, dtype: PrimType) -> (r: Result<(), CompileError>)
        ensures
            dtype == PrimType::Void ==> r == Err::<(), CompileError>(
                CompileError { kind: ErrorKind::InvalidTree, line: 0 },
            ),
            dtype != PrimType::Void ==> r is Ok && final(self).free_regs() == old(self).free_regs()
                && final(self).text() == old(self).text() + ".global "@ + sym@ + "\n"@ + sym@
                + ":\n\t.zero "@ + dec_text(arm_type_size(dtype) as nat) + "\n"@,
    {
        if dtype == PrimType::Void {
            proof {
                if self.log@.len() == self.uses@.len() {
                    lemma_arm_render_push(self.log@, self.uses@, BackendOp::Refused, reg_use(Seq::empty(), None));
                }
            }
            self.log = Ghost(self.log@.push(BackendOp::Refused));
            self.uses = Ghost(self.uses@.push(reg_use(Seq::empty(), None)));
            assert(self.output@ =~= old(self).output@ + arm_op_text(BackendOp::Refused, reg_use(Seq::empty(), None)));
            return Err(CompileError { kind: ErrorKind::InvalidTree, line: 0 });
        }
        let size = self.type_size(dtype);
        self.output.append(".global ");
        self.output.append(sym);
        self.output.append("\n");
        self.output.append(sym);
        self.output.append(":\n\t.zero ");
        push_dec(&mut self.output, size as u64);
        self.output.append("\n");
        proof {
            if self.log@.len() == self.uses@.len() {
                lemma_arm_render_push(self.log@, self.uses@, BackendOp::GlobSym(sym@, dtype), reg_use(Seq::empty(), None));
            }
        }
        self.log = Ghost(self.log@.push(BackendOp::GlobSym(sym@, dtype)));
        self.uses = Ghost(self.uses@.push(reg_use(Seq::empty(), None)));
        assert(self.output@ =~= old(self).output@ + arm_op_text(BackendOp::GlobSym(sym@, dtype), reg_use(Seq::empty(), None)));
        Ok(())
    }

    fn add(&mut self, r1: ArmV7Reg, r2: ArmV7Reg) -> (r: Result<Option<ArmV7Reg>, CompileError>)
        ensures
            r == Ok::<Option<ArmV7Reg>, CompileError>(Some(r2)),
            final(self).free_regs() == old(self).free_regs().update(reg_index(r1), true),
            final(self).text() == old(self).text() + "\tadd\t"@ + reg_text(r2) + ", "@ + reg_text(r2)
                + ", "@ + reg_text(r1) + "\n"@,
    {
        self.output.append("\tadd\t");
        self.output.append(r2.name());
        self.output.append(", ");
        self.output.append(r2.name());
        self.output.append(", ");
        self.output.append(r1.name());
        self.output.append("\n");
        self.free_register(r1);
        proof {
            if self.log@.len() == self.uses@.len() {
                lemma_arm_render_push(self.log@, self.uses@, BackendOp::Add, reg_use(seq![r1, r2], Some(r2)));
            }
        }
        self.log = Ghost(self.log@.push(BackendOp::Add));
        self.uses = Ghost(self.uses@.push(reg_use(seq![r1, r2], Some(r2))));
        assert(self.output@ =~= old(self).output@ + arm_op_text(BackendOp::Add, reg_use(seq![r1, r2], Some(r2))));
        Ok(Some(r2))
    }

    fn sub(&mut self, r1: ArmV7Reg, r2: ArmV7Reg) -> (r: Result<Option<ArmV7Reg>, CompileError>)
        ensures
            r == Ok::<Option<ArmV7Reg>, CompileError>(Some(r1)),
            final(self).free_regs() == old(self).free_regs().update(reg_index(r2), true),
            final(self).text() == old(self).text() + "\tsub\t"@ + reg_text(r1) + ", "@ + reg_text(r1)
                + ", "@ + reg_text(r2) + "\n"@,
    {
        self.output.append("\tsub\t");
        self.output.append(r1.name());
        self.output.append(", ");
        self.output.append(r1.name());
        self.output.append(", ");
        self.output.append(r2.name());
        self.output.append("\n");
        self.free_register(r2);
        proof {
            if self.log@.len() == self.uses@.len() {
                lemma_arm_render_push(self.log@, self.uses@, BackendOp::Sub, reg_use(seq![r1, r2], Some(r1)));
            }
        }
        self.log = Ghost(self.log@.push(BackendOp::Sub));
        self.uses = Ghost(self.uses@.push(reg_use(seq![r1, r2], Some(r1))));
        assert(self.output@ =~= old(self).output@ + arm_op_text(BackendOp::Sub, reg_use(seq![r1, r2], Some(r1))));
        Ok(Some(r1))
    }

    fn mul(&mut self, r1: ArmV7Reg, r2: ArmV7Reg) -> (r: Result<Option<ArmV7Reg>, CompileError>)
        ensures
            r == Ok::<Option<ArmV7Reg>, CompileError>(Some(r2)),
            final(self).free_regs() == old(self).free_regs().update(reg_index(r1), true),
            final(self).text() == old(self).text() + "\tmul\t"@ + reg_text(r2) + ", "@ + reg_text(r2)
                + ", "@ + reg_text(r1) + "\n"@,
    {
        self.output.append("\tmul\t");
        self.output.append(r2.name());
        self.output.append(", ");
        self.output.append(r2.name());
        self.output.append(", ");
        self.output.append(r1.name());
        self.output.append("\n");
        self.free_register(r1);
        proof {
            if self.log@.len() == self.uses@.len() {
                lemma_arm_render_push(self.log@, self.uses@, BackendOp::Mul, reg_use(seq![r1, r2], Some(r2)));
            }
        }
        self.log = Ghost(self.log@.push(BackendOp::Mul));
        self.uses = Ghost(self.uses@.push(reg_use(seq![r1, r2], Some(r2))));
        assert(self.output@ =~= old(self).output@ + arm_op_text(BackendOp::Mul, reg_use(seq![r1, r2], Some(r2))));
        Ok(Some(r2))
    }

    fn div(&mut self, r1: ArmV7Reg, r2: ArmV7Reg) -> (r: Result<Option<ArmV7Reg>, CompileError>)
        ensures
            r == Ok::<Option<ArmV7Reg>, CompileError>(Some(r1)),
            final(self).free_regs() == old(self).free_regs().update(reg_index(r2), true),
            final(self).text() == old(self).text() + "\tmov\tr0, "@ + reg_text(r1) + "\n\tmov\tr1, "@
                + reg_text(r2) + "\n\tbl\t__aeabi_idiv\n\tmov\t"@ + reg_text(r1) + ", r0\n"@,
    {
        self.output.append("\tmov\tr0, ");
        self.output.append(r1.name());
        self.output.append("\n\tmov\tr1, ");
        self.output.append(r2.name());
        self.output.append("\n\tbl\t__aeabi_idiv\n\tmov\t");
        self.output.append(r1.name());
        self.output.append(", r0\n");
        self.free_register(r2);
        proof {
            if self.log@.len() == self.uses@.len() {
                lemma_arm_render_push(self.log@, self.uses@, BackendOp::Div, reg_use(seq![r1, r2], Some(r1)));
            }
        }
        self.log = Ghost(self.log@.push(BackendOp::Div));
        self.uses = Ghost(self.uses@.push(reg_use(seq![r1, r2], Some(r1))));
        assert(self.output@ =~= old(self).output@ + arm_op_text(BackendOp::Div, reg_use(seq![r1, r2], Some(r1))));
        Ok(Some(r1))
    }

    fn compare_and_set(&mut self, op: &AstNode, r1: ArmV7Reg, r2: ArmV7Reg) -> (r: Result<Option<ArmV7Reg>, CompileError>)
        ensures
            r == Ok::<Option<ArmV7Reg>, CompileError>(Some(r2)),
            final(self).free_regs() == old(self).free_regs().update(reg_index(r1), true),
            final(self).text() == old(self).text() + "\tcmp\t"@ + reg_text(r2) + ", "@ + reg_text(r1)
                + "\n\t"@ + set_text(comparison_of(*op)).0 + "\t"@ + reg_text(r2) + ", #1\n\t"@
                + set_text(comparison_of(*op)).1 + "\t"@ + reg_text(r2) + ", #0\n"@,
    {
        self.output.append("\tcmp\t");
        self.output.append(r2.name());
        self.output.append(", ");
        self.output.append(r1.name());
        self.output.append("\n\t");
        let (op1, op2) = ast_to_set_op(op);
        self.output.append(op1);
        self.output.append("\t");
        self.output.append(r2.name());
        self.output.append(", #1\n\t");
        self.output.append(op2);
        self.output.append("\t");
        self.output.append(r2.name());
        self.output.append(", #0\n");
        self.free_register(r1);
        proof {
            if self.log@.len() == self.uses@.len() {
                lemma_arm_render_push(self.log@, self.uses@, BackendOp::CompareSet(comparison_of(*op)), reg_use(seq![r1, r2], Some(r2)));
            }
        }
        self.log = Ghost(self.log@.push(BackendOp::CompareSet(comparison_of(*op))));
        self.uses = Ghost(self.uses@.push(reg_use(seq![r1, r2], Some(r2))));
        assert(self.output@ =~= old(self).output@ + arm_op_text(BackendOp::CompareSet(comparison_of(*op)), reg_use(seq![r1, r2], Some(r2))));
        Ok(Some(r2))
    }

    fn compare_and_jump(&mut self, op: &AstNode, r1: ArmV7Reg, r2: ArmV7Reg, label_num: usize) -> (r: Result<Option<ArmV7Reg>, CompileError>)
        ensures
            r == Ok::<Option<ArmV7Reg>, CompileError>(None),
            final(self).free_regs() == seq![true, true, true, true],
            final(self).text() == old(self).text() + "\tcmp\t"@ + reg_text(r2) + ", "@ + reg_text(r1)
                + "\n\t"@ + jmp_text(comparison_of(*op)) + "\t.L"@ + dec_text(label_num as nat) + "\n"@,
    {
        self.output.append("\tcmp\t");
        self.output.append(r2.name());
        self.output.append(", ");
        self.output.append(r1.name());
        self.output.append("\n\t");
        self.output.append(ast_to_jmp_op(op));
        self.output.append("\t.L");
        push_dec(&mut self.output, label_num as u64);
        self.output.append("\n");
        self.reg_status = [true, true, true, true];
        assert(self.reg_status@ =~= seq![true, true, true, true]);
        proof {
            if self.log@.len() == self.uses@.len() {
                lemma_arm_render_push(self.log@, self.uses@, BackendOp::CompareJump(comparison_of(*op), label_num), reg_use(seq![r1, r2], None));
            }
        }
        self.log = Ghost(self.log@.push(BackendOp::CompareJump(comparison_of(*op), label_num)));
        self.uses = Ghost(self.uses@.push(reg_use(seq![r1, r2], None)));
        assert(self.output@ =~= old(self).output@ + arm_op_text(BackendOp::CompareJump(comparison_of(*op), label_num), reg_use(seq![r1, r2], None)));
        Ok(None)
    }

    fn label(&mut self, label_num: usize) -> (r: Result<(), CompileError>)
        ensures
            r is Ok,
            final(self).free_regs() == old(self).free_regs(),
            final(self).text() == old(self).text() + label_text(label_num),
    {
        self.output.append(".L");
        push_dec(&mut self.output, label_num as u64);
        self.output.append(":\n");
        proof {
            if self.log@.len() == self.uses@.len() {
                lemma_arm_render_push(self.log@, self.uses@, BackendOp::Label(label_num), reg_use(Seq::empty(), None));
            }
        }
        self.log = Ghost(self.log@.push(BackendOp::Label(label_num)));
        self.uses = Ghost(self.uses@.push(reg_use(Seq::empty(), None)));
        assert(self.output@ =~= old(self).output@ + arm_op_text(BackendOp::Label(label_num), reg_use(Seq::empty(), None)));
        Ok(())
    }

    fn jump(&mut self, label_num: usize) -> (r: Result<(), CompileError>)
        ensures
            r is Ok,
            final(self).free_regs() == old(self).free_regs(),
            final(self).text() == old(self).text() + jump_text(label_num),
    {
        self.output.append("\tb\t.L");
        push_dec(&mut self.output, label_num as u64);
        self.output.append("\n");
        proof {
            if self.log@.len() == self.uses@.len() {
                lemma_arm_render_push(self.log@, self.uses@, BackendOp::Jump(label_num), reg_use(Seq::empty(), None));
            }
        }
        self.log = Ghost(self.log@.push(BackendOp::Jump(label_num)));
        self.uses = Ghost(self.uses@.push(reg_use(Seq::empty(), None)));
        assert(self.output@ =~= old(self).output@ + arm_op_text(BackendOp::Jump(label_num), reg_use(Seq::empty(), None)));
        Ok(())
    }

    fn print_int(&mut self, r: ArmV7Reg) -> (res: Result<(), CompileError>)
        ensures
            res is Ok,
            final(self).free_regs() == old(self).free_regs().update(reg_index(r), true),
            final(self).text() == old(self).text() + "\tmov\tr0, "@ + reg_text(r) + "\n\tbl\tprintint\n"@,
    {
        self.output.append("\tmov\tr0, ");
        self.output.append(r.name());
        self.output.append("\n\tbl\tprintint\n");
        self.free_register(r);
        proof {
            if self.log@.len() == self.uses@.len() {
                lemma_arm_render_push(self.log@, self.uses@, BackendOp::PrintInt, reg_use(seq![r], None));
            }
        }
        self.log = Ghost(self.log@.push(BackendOp::PrintInt));
        self.uses = Ghost(self.uses@.push(reg_use(seq![r], None)));
        assert(self.output@ =~= old(self).output@ + arm_op_text(BackendOp::PrintInt, reg_use(seq![r], None)));
        Ok(())
    }

    fn call(&mut self, r: ArmV7Reg, ident: &str) -> (res: Result<Option<ArmV7Reg>, CompileError>)
        ensures
            res == Ok::<Option<ArmV7Reg>, CompileError>(Some(r)),
            final(self).free_regs() == old(self).free_regs(),
            final(self).text() == old(self).text() + "\tmov\tr0, "@ + reg_text(r) + "\n\tbl\t"@ + ident@
                + "\n\tmov\t"@ + reg_text(r) + ", r0\n"@,
    {
        self.output.append("\tmov\tr0, ");
        self.output.append(r.name());
        self.output.append("\n\tbl\t");
        self.output.append(ident);
        self.output.append("\n\tmov\t");
        self.output.append(r.name());
        self.output.append(", r0\n");
        proof {
            if self.log@.len() == self.uses@.len() {
                lemma_arm_render_push(self.log@, self.uses@, BackendOp::Call(ident@), reg_use(seq![r], Some(r)));
            }
        }
        self.log = Ghost(self.log@.push(BackendOp::Call(ident@)));
        self.uses = Ghost(self.uses@.push(reg_use(seq![r], Some(r))));
        assert(self.output@ =~= old(self).output@ + arm_op_text(BackendOp::Call(ident@), reg_use(seq![r], Some(r))));
        Ok(Some(r))
    }

    fn ret(&mut self, r: ArmV7Reg, dtype: PrimType, label_num: usize) -> (res: Result<(), CompileError>)
        ensures
            res is Ok,
            final(self).free_regs() == old(self).free_regs(),
            final(self).text() == old(self).text() + "\tmov\tr0, "@ + reg_text(r) + "\n"@ + jump_text(
                label_num,
            ),
    {
        self.output.append("\tmov\tr0, ");
        self.output.append(r.name());
        self.output.append("\n");
        self.output.append("\tb\t.L");
        push_dec(&mut self.output, label_num as u64);
        self.output.append("\n");
        proof {
            if self.log@.len() == self.uses@.len() {
                lemma_arm_render_push(self.log@, self.uses@, BackendOp::Ret(dtype, label_num), reg_use(seq![r], None));
            }
        }
        self.log = Ghost(self.log@.push(BackendOp::Ret(dtype, label_num)));
        self.uses = Ghost(self.uses@.push(reg_use(seq![r], None)));
        assert(self.output@ =~= old(self).output@ + arm_op_text(BackendOp::Ret(dtype, label_num), reg_use(seq![r], None)));
        Ok(())
    }
}

} // verus!
