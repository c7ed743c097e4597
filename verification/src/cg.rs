//! The x86-64 back end: AT&T assembly for the GNU assembler.
use vstd::prelude::*;
use crate::ast::{AstNode, AstNodeG};
use crate::cgen::{comparison_of, reg_use, BackendOp, CodeBackend, Comparison, RegUse};
use crate::emit::{dec_text, int_text, push_dec, push_int};
use crate::error::{CompileError, ErrorKind};
use crate::sym::PrimType;

verus! {

/// The start of every program: the `printint` routine.
pub const PREAMBLE: &'static str = "
\t.text
.LC0:
\t.string\t\"%d\\n\"
printint:
\tpushq\t%rbp
\tmovq\t%rsp, %rbp
\tsubq\t$16, %rsp
\tmovl\t%edi, -4(%rbp)
\tmovl\t-4(%rbp), %eax
\tmovl\t%eax, %esi
\tleaq\t.LC0(%rip), %rdi
\tmovl\t$0, %eax
\tcall\tprintf@PLT
\tnop
\tleave
\tret
";

/// The end of every function, after its end label.
pub const POSTAMBLE: &'static str = "\tpopq\t%rbp\n\tret\n";

/// The registers that hold values.
#[derive(Clone, Copy, PartialEq, Eq, Hash, Debug, Structural)]
pub enum X86_64Reg {
    R8,
    R9,
    R10,
    R11,
}

/// The low bytes of the value registers.
#[derive(Clone, Copy, PartialEq, Eq, Hash, Debug, Structural)]
pub enum X86_64Reg8b {
    R8,
    R9,
    R10,
    R11,
}

pub open spec fn reg_text(r: X86_64Reg) -> Seq<char> {
    match r {
        X86_64Reg::R8 => "%r8"@,
        X86_64Reg::R9 => "%r9"@,
        X86_64Reg::R10 => "%r10"@,
        X86_64Reg::R11 => "%r11"@,
    }
}

pub open spec fn reg8b_text(r: X86_64Reg8b) -> Seq<char> {
    match r {
        X86_64Reg8b::R8 => "%r8b"@,
        X86_64Reg8b::R9 => "%r9b"@,
        X86_64Reg8b::R10 => "%r10b"@,
        X86_64Reg8b::R11 => "%r11b"@,
    }
}

pub open spec fn low_byte(r: X86_64Reg) -> X86_64Reg8b {
    match r {
        X86_64Reg::R8 => X86_64Reg8b::R8,
        X86_64Reg::R9 => X86_64Reg8b::R9,
        X86_64Reg::R10 => X86_64Reg8b::R10,
        X86_64Reg::R11 => X86_64Reg8b::R11,
    }
}

/// The slot of a register in the table of free registers.
pub open spec fn reg_index(r: X86_64Reg) -> int {
    match r {
        X86_64Reg::R8 => 0,
        X86_64Reg::R9 => 1,
        X86_64Reg::R10 => 2,
        X86_64Reg::R11 => 3,
    }
}

pub open spec fn reg_at(i: int) -> X86_64Reg {
    if i == 0 {
        X86_64Reg::R8
    } else if i == 1 {
        X86_64Reg::R9
    } else if i == 2 {
        X86_64Reg::R10
    } else {
        X86_64Reg::R11
    }
}

impl X86_64Reg {
    /// The register's name in assembly.
    pub fn name(&self) -> (s: &'static str)
        ensures
            s@ == reg_text(*self),
    {
        match self {
            X86_64Reg::R8 => "%r8",
            X86_64Reg::R9 => "%r9",
            X86_64Reg::R10 => "%r10",
            X86_64Reg::R11 => "%r11",
        }
    }

    /// The register's low byte.
    pub fn as_8b(&self) -> (r: X86_64Reg8b)
        ensures
            r == low_byte(*self),
    {
        match self {
            X86_64Reg::R8 => X86_64Reg8b::R8,
            X86_64Reg::R9 => X86_64Reg8b::R9,
            X86_64Reg::R10 => X86_64Reg8b::R10,
            X86_64Reg::R11 => X86_64Reg8b::R11,
        }
    }

    fn index(&self) -> (i: usize)
        ensures
            i == reg_index(*self),
    {
        match self {
            X86_64Reg::R8 => 0,
            X86_64Reg::R9 => 1,
            X86_64Reg::R10 => 2,
            X86_64Reg::R11 => 3,
        }
    }
}

impl X86_64Reg8b {
    /// The byte register's name in assembly.
    pub fn name(&self) -> (s: &'static str)
        ensures
            s@ == reg8b_text(*self),
    {
        match self {
            X86_64Reg8b::R8 => "%r8b",
            X86_64Reg8b::R9 => "%r9b",
            X86_64Reg8b::R10 => "%r10b",
            X86_64Reg8b::R11 => "%r11b",
        }
    }
}

pub open spec fn jmp_text(c: Comparison) -> Seq<char> {
    match c {
        Comparison::Eq => "jne"@,
        Comparison::Ne => "je"@,
        Comparison::Lt => "jge"@,
        Comparison::Le => "jg"@,
        Comparison::Gt => "jle"@,
        Comparison::Ge => "jl"@,
    }
}

pub open spec fn set_text(c: Comparison) -> Seq<char> {
    match c {
        Comparison::Eq => "sete"@,
        Comparison::Ne => "setne"@,
        Comparison::Lt => "setl"@,
        Comparison::Le => "setle"@,
        Comparison::Gt => "setg"@,
        Comparison::Ge => "setge"@,
    }
}

/// The jump taken when the comparison `op` fails.
pub fn ast_to_jmp_op(op: &AstNode) -> (s: &'static str)
    requires
        op.spec_is_comparison(),
    ensures
        s@ == jmp_text(comparison_of(*op)),
{
    match op {
        AstNodeG::Equal { .. } => "jne",
        AstNodeG::NotEqual { .. } => "je",
        AstNodeG::LessThan { .. } => "jge",
        AstNodeG::LessThanOrEqual { .. } => "jg",
        AstNodeG::GreaterThan { .. } => "jle",
        _ => "jl",
    }
}

/// The instruction that sets a byte to the outcome of the comparison `op`.
pub fn ast_to_set_op(op: &AstNode) -> (s: &'static str)
    requires
        op.spec_is_comparison(),
    ensures
        s@ == set_text(comparison_of(*op)),
{
    match op {
        AstNodeG::Equal { .. } => "sete",
        AstNodeG::NotEqual { .. } => "setne",
        AstNodeG::LessThan { .. } => "setl",
        AstNodeG::LessThanOrEqual { .. } => "setle",
        AstNodeG::GreaterThan { .. } => "setg",
        _ => "setge",
    }
}

/// The x86-64 back end: the text emitted so far and which registers are free.
pub struct X86_64Backend {
    output: String,
    reg_status: [bool; 4],
    log: Ghost<Seq<BackendOp>>,
    uses: Ghost<Seq<RegUse<X86_64Reg>>>,
}

impl X86_64Backend {
    /// The text emitted so far.
    pub closed spec fn text(&self) -> Seq<char> {
        self.output@
    }

    /// For each register, by its slot, whether it is free.
    pub closed spec fn free_regs(&self) -> Seq<bool> {
        self.reg_status@
    }

    /// A back end with nothing emitted and every register free.
    pub fn new() -> (b: X86_64Backend)
        ensures
            b.text() == Seq::<char>::empty(),
            b.free_regs() == seq![true, true, true, true],
            b.ops() == Seq::<BackendOp>::empty(),
            b.in_sync(),
    {
        let b = X86_64Backend { output: String::new(), reg_status: [true, true, true, true], log: Ghost(Seq::empty()), uses: Ghost(Seq::empty()) };
        assert(b.reg_status@ =~= seq![true, true, true, true]);
        b
    }

    /// The text emitted so far.
    pub fn output(&self) -> (s: &String)
        ensures
            s@ == self.text(),
    {
        &self.output
    }

    /// Whether `reg` is free.
    pub fn is_free(&self, reg: X86_64Reg) -> (r: bool)
        ensures
            r == self.free_regs()[reg_index(reg)],
    {
        self.reg_status[reg.index()]
    }

    /// Mark `reg` free.
    pub fn free_register(&mut self, reg: X86_64Reg)
        ensures
            final(self).free_regs() == old(self).free_regs().update(reg_index(reg), true),
            final(self).text() == old(self).text(),
            final(self).ops() == old(self).ops(),
            final(self).reg_uses() == old(self).reg_uses(),
    {
        let i = reg.index();
        self.reg_status.set(i, true);
    }

    /// The first free register, in the order r8, r9, r10, r11, now in use;
    /// an error when none is free.
    pub fn alloc_register(&mut self) -> (r: Result<X86_64Reg, CompileError>)
        ensures
            final(self).text() == old(self).text(),
            final(self).ops() == old(self).ops(),
            final(self).reg_uses() == old(self).reg_uses(),
            match r {
                Ok(reg) => old(self).free_regs()[reg_index(reg)] && (forall|j: int|
                    0 <= j < reg_index(reg) ==> !old(self).free_regs()[j]) && final(self).free_regs()
                    == old(self).free_regs().update(reg_index(reg), false),
                Err(e) => e == CompileError { kind: ErrorKind::OutOfRegisters, line: 0 } && (forall|j: int|
                    0 <= j < 4 ==> !old(self).free_regs()[j]) && final(self).free_regs()
                    == old(self).free_regs(),
            },
    {
        let mut i: usize = 0;
        while i < 4
            invariant
                i <= 4,
                self.reg_status == old(self).reg_status,
                self.output == old(self).output,
                self.log == old(self).log,
                self.uses == old(self).uses,
                forall|j: int| 0 <= j < i ==> !old(self).reg_status@[j],
            decreases 4 - i,
        {
            if self.reg_status[i] {
                self.reg_status.set(i, false);
                let reg = if i == 0 {
                    X86_64Reg::R8
                } else if i == 1 {
                    X86_64Reg::R9
                } else if i == 2 {
                    X86_64Reg::R10
                } else {
                    X86_64Reg::R11
                };
                return Ok(reg);
            }
            i += 1;
        }
        Err(CompileError { kind: ErrorKind::OutOfRegisters, line: 0 })
    }
}


/// The size of each type on x86-64.
pub open spec fn x86_type_size(dtype: PrimType) -> usize {
    match dtype {
        PrimType::Char => 1,
        PrimType::Int => 4,
        PrimType::Void => 0,
        _ => 8,
    }
}

/// The instruction that loads a global of type `dtype`.
pub open spec fn load_text(dtype: PrimType) -> Seq<char> {
    if dtype == PrimType::Char {
        "\tmovzbq\t"@
    } else {
        "\tmovq\t"@
    }
}

/// The directive that reserves a global of type `dtype`.
pub open spec fn comm_text(sym: Seq<char>, dtype: PrimType) -> Seq<char> {
    match dtype {
        PrimType::Void => Seq::empty(),
        PrimType::Char => "\t.comm\t"@ + sym + ",1,1\n"@,
        _ => "\t.comm\t"@ + sym + ",8,8\n"@,
    }
}

pub open spec fn label_text(n: usize) -> Seq<char> {
    "L"@ + dec_text(n as nat) + ":\n"@
}

pub open spec fn jump_text(n: usize) -> Seq<char> {
    "\tjmp\tL"@ + dec_text(n as nat) + "\n"@
}

/// The text of one request, given the registers it was handed and the one
/// it left a value in.
pub open spec fn x86_op_text(op: BackendOp, u: RegUse<X86_64Reg>) -> Seq<char> {
    let a = u.args[0];
    let b = u.args[1];
    match op {
        BackendOp::FreeAll => Seq::empty(),
        BackendOp::Preamble => PREAMBLE@,
        BackendOp::FuncPreamble(name) => "\n\t.text\n\t.globl\t"@ + name + "\n\t.type\t"@ + name + " @function\n"@
            + name + ":\n\tpushq\t%rbp\n\tmovq\t%rsp, %rbp\n"@,
        BackendOp::FuncPostamble(n) => label_text(n) + POSTAMBLE@,
        BackendOp::LoadInt(val) => "\tmovq\t$"@ + int_text(val as int) + ", "@ + reg_text(u.result.unwrap()) + "\n"@,
        BackendOp::LoadGlob(name, dtype) => load_text(dtype) + name + "(%rip), "@ + reg_text(u.result.unwrap()) + "\n"@,
        BackendOp::StoreGlob(name, dtype) => (if dtype == PrimType::Char {
            "\tmovb\t"@ + reg8b_text(low_byte(a))
        } else {
            "\tmovq\t"@ + reg_text(a)
        }) + ", "@ + name + "(%rip)\n"@,
        BackendOp::GlobSym(name, dtype) => comm_text(name, dtype),
        BackendOp::Add => "\taddq\t"@ + reg_text(a) + ", "@ + reg_text(b) + "\n"@,
        BackendOp::Sub => "\tsubq\t"@ + reg_text(b) + ", "@ + reg_text(a) + "\n"@,
        BackendOp::Mul => "\timulq\t"@ + reg_text(a) + ", "@ + reg_text(b) + "\n"@,
        BackendOp::Div => "\tmovq\t"@ + reg_text(a) + ", %rax\n\tcqo\n\tidivq\t"@ + reg_text(b) + "\n\tmovq\t%rax, "@
            + reg_text(a) + "\n"@,
        BackendOp::CompareSet(c) => "\tcmpq\t"@ + reg_text(b) + ", "@ + reg_text(a) + "\n\t"@ + set_text(c) + "\t"@
            + reg8b_text(low_byte(b)) + "\n\tmovzbq\t"@ + reg8b_text(low_byte(b)) + ", "@ + reg_text(b) + "\n"@,
        BackendOp::CompareJump(c, n) => "\tcmpq\t"@ + reg_text(b) + ", "@ + reg_text(a) + "\n\t"@ + jmp_text(c)
            + "\tL"@ + dec_text(n as nat) + "\n"@,
        BackendOp::Label(n) => label_text(n),
        BackendOp::Jump(n) => jump_text(n),
        BackendOp::PrintInt => "\tmovq\t"@ + reg_text(a) + ", %rdi\n\tcall\tprintint\n"@,
        BackendOp::Call(name) => "\tmovq\t"@ + reg_text(a) + ", %rdi\n\tcall\t"@ + name + "\n\tmovq\t%rax, "@ + reg_text(a)
            + "\n"@,
        BackendOp::Ret(_, n) => "\tmovq\t"@ + reg_text(a) + ", %rax\n"@ + jump_text(n),
        BackendOp::Refused => Seq::empty(),
    }
}

/// The text that the requests `ops`, with the registers in `uses`, make.
pub open spec fn x86_render(ops: Seq<BackendOp>, uses: Seq<RegUse<X86_64Reg>>) -> Seq<char>
    decreases ops.len(),
{
    if ops.len() == 0 || uses.len() == 0 {
        Seq::empty()
    } else {
        x86_render(ops.drop_last(), uses.drop_last()) + x86_op_text(ops.last(), uses.last())
    }
}

/// One more request adds its text at the end.
pub proof fn lemma_x86_render_push(ops: Seq<BackendOp>, uses: Seq<RegUse<X86_64Reg>>, op: BackendOp, u: RegUse<X86_64Reg>)
    requires
        ops.len() == uses.len(),
    ensures
        x86_render(ops.push(op), uses.push(u)) == x86_render(ops, uses) + x86_op_text(op, u),
        x86_render(ops, uses) + Seq::<char>::empty() == x86_render(ops, uses),
{
    assert(ops.push(op).drop_last() =~= ops);
    assert(uses.push(u).drop_last() =~= uses);
    assert(x86_render(ops, uses) + Seq::<char>::empty() =~= x86_render(ops, uses));
}

impl CodeBackend for X86_64Backend {
    type Reg = X86_64Reg;

    open spec fn spec_type_size(&self, dtype: PrimType) -> usize {
        x86_type_size(dtype)
    }

    open spec fn spec_alignment() -> usize {
        3
    }

    closed spec fn ops(&self) -> Seq<BackendOp> {
        self.log@
    }

    closed spec fn reg_uses(&self) -> Seq<RegUse<X86_64Reg>> {
        self.uses@
    }

    open spec fn in_sync(&self) -> bool {
        self.text() == x86_render(self.ops(), self.reg_uses()) && self.ops().len() == self.reg_uses().len()
    }

    fn alignment() -> (r: usize) {
        3
    }

    fn free_all_registers(&mut self) -> (r: Result<(), CompileError>)
        ensures
            r is Ok,
            final(self).free_regs() == seq![true, true, true, true],
            final(self).text() == old(self).text(),
    {
        self.reg_status = [true, true, true, true];
        assert(self.reg_status@ =~= seq![true, true, true, true]);
        proof {
            if self.log@.len() == self.uses@.len() {
                lemma_x86_render_push(self.log@, self.uses@, BackendOp::FreeAll, reg_use(Seq::empty(), None));
            }
        }
        self.log = Ghost(self.log@.push(BackendOp::FreeAll));
        self.uses = Ghost(self.uses@.push(reg_use(Seq::empty(), None)));
        assert(self.output@ =~= old(self).output@ + x86_op_text(BackendOp::FreeAll, reg_use(Seq::empty(), None)));
        Ok(())
    }

    fn preamble(&mut self) -> (r: Result<(), CompileError>)
        ensures
            r is Ok,
            final(self).free_regs() == seq![true, true, true, true],
            final(self).text() == old(self).text() + PREAMBLE@,
    {
        self.reg_status = [true, true, true, true];
        assert(self.reg_status@ =~= seq![true, true, true, true]);
        self.output.append(PREAMBLE);
        proof {
            if self.log@.len() == self.uses@.len() {
                lemma_x86_render_push(self.log@, self.uses@, BackendOp::Preamble, reg_use(Seq::empty(), None));
            }
        }
        self.log = Ghost(self.log@.push(BackendOp::Preamble));
        self.uses = Ghost(self.uses@.push(reg_use(Seq::empty(), None)));
        assert(self.output@ =~= old(self).output@ + x86_op_text(BackendOp::Preamble, reg_use(Seq::empty(), None)));
        Ok(())
    }

    fn type_size(&self, dtype: PrimType) -> (r: usize) {
        match dtype {
            PrimType::Char => 1,
            PrimType::Int => 4,
            PrimType::Void => 0,
            _ => 8,
        }
    }

    fn func_preamble(&mut self, ident: &str) -> (r: Result<(), CompileError>)
        ensures
            r is Ok,
            final(self).free_regs() == old(self).free_regs(),
            final(self).text() == old(self).text() + "\n\t.text\n\t.globl\t"@ + ident@ + "\n\t.type\t"@
                + ident@ + " @function\n"@ + ident@ + ":\n\tpushq\t%rbp\n\tmovq\t%rsp, %rbp\n"@,
    {
        self.output.append("\n\t.text\n\t.globl\t");
        self.output.append(ident);
        self.output.append("\n\t.type\t");
        self.output.append(ident);
        self.output.append(" @function\n");
        self.output.append(ident);
        self.output.append(":\n\tpushq\t%rbp\n\tmovq\t%rsp, %rbp\n");
        proof {
            if self.log@.len() == self.uses@.len() {
                lemma_x86_render_push(self.log@, self.uses@, BackendOp::FuncPreamble(ident@), reg_use(Seq::empty(), None));
            }
        }
        self.log = Ghost(self.log@.push(BackendOp::FuncPreamble(ident@)));
        self.uses = Ghost(self.uses@.push(reg_use(Seq::empty(), None)));
        assert(self.output@ =~= old(self).output@ + x86_op_text(BackendOp::FuncPreamble(ident@), reg_use(Seq::empty(), None)));
        Ok(())
    }

    fn func_postamble(&mut self, label_num: usize) -> (r: Result<(), CompileError>)
        ensures
            r is Ok,
            final(self).free_regs() == old(self).free_regs(),
            final(self).text() == old(self).text() + label_text(label_num) + POSTAMBLE@,
    {
        self.output.append("L");
        push_dec(&mut self.output, label_num as u64);
        self.output.append(":\n");
        self.output.append(POSTAMBLE);
        proof {
            if self.log@.len() == self.uses@.len() {
                lemma_x86_render_push(self.log@, self.uses@, BackendOp::FuncPostamble(label_num), reg_use(Seq::empty(), None));
            }
        }
        self.log = Ghost(self.log@.push(BackendOp::FuncPostamble(label_num)));
        self.uses = Ghost(self.uses@.push(reg_use(Seq::empty(), None)));
        assert(self.output@ =~= old(self).output@ + x86_op_text(BackendOp::FuncPostamble(label_num), reg_use(Seq::empty(), None)));
        Ok(())
    }

    fn load_int(&mut self, val: i64) -> (r: Result<X86_64Reg, CompileError>)
        ensures
            match r {
                Ok(reg) => old(self).free_regs()[reg_index(reg)] && (forall|j: int|
                    0 <= j < reg_index(reg) ==> !old(self).free_regs()[j]) && final(self).free_regs()
                    == old(self).free_regs().update(reg_index(reg), false) && final(self).text()
                    == old(self).text() + "\tmovq\t$"@ + int_text(val as int) + ", "@ + reg_text(reg)
                    + "\n"@,
                Err(e) => e.kind == ErrorKind::OutOfRegisters,
            },
    {
        let reg = match self.alloc_register() {
            Ok(reg) => reg,
            Err(e) => {
                proof {
                    if self.log@.len() == self.uses@.len() {
                        lemma_x86_render_push(self.log@, self.uses@, BackendOp::Refused, reg_use(Seq::empty(), None));
                    }
                }
                self.log = Ghost(self.log@.push(BackendOp::Refused));
                self.uses = Ghost(self.uses@.push(reg_use(Seq::empty(), None)));
                assert(self.output@ =~= old(self).output@ + x86_op_text(BackendOp::Refused, reg_use(Seq::empty(), None)));
                return Err(e);
            },
        };
        self.output.append("\tmovq\t$");
        push_int(&mut self.output, val);
        self.output.append(", ");
        self.output.append(reg.name());
        self.output.append("\n");
        proof {
            if self.log@.len() == self.uses@.len() {
                lemma_x86_render_push(self.log@, self.uses@, BackendOp::LoadInt(val), reg_use(Seq::empty(), Some(reg)));
            }
        }
        self.log = Ghost(self.log@.push(BackendOp::LoadInt(val)));
        self.uses = Ghost(self.uses@.push(reg_use(Seq::empty(), Some(reg))));
        assert(self.output@ =~= old(self).output@ + x86_op_text(BackendOp::LoadInt(val), reg_use(Seq::empty(), Some(reg))));
        Ok(reg)
    }

    fn load_glob(&mut self, ident: &str, dtype: PrimType) -> (r: Result<X86_64Reg, CompileError>)
        ensures
            dtype == PrimType::Void ==> r == Err::<X86_64Reg, CompileError>(
                CompileError { kind: ErrorKind::InvalidTree, line: 0 },
            ),
            match r {
                Ok(reg) => old(self).free_regs()[reg_index(reg)] && (forall|j: int|
                    0 <= j < reg_index(reg) ==> !old(self).free_regs()[j]) && final(self).free_regs()
                    == old(self).free_regs().update(reg_index(reg), false) && final(self).text()
                    == old(self).text() + load_text(dtype) + ident@ + "(%rip), "@ + reg_text(reg)
                    + "\n"@,
                Err(e) => e.kind == ErrorKind::OutOfRegisters || e.kind == ErrorKind::InvalidTree,
            },
    {
        if dtype == PrimType::Void {
            proof {
                if self.log@.len() == self.uses@.len() {
                    lemma_x86_render_push(self.log@, self.uses@, BackendOp::Refused, reg_use(Seq::empty(), None));
                }
            }
            self.log = Ghost(self.log@.push(BackendOp::Refused));
            self.uses = Ghost(self.uses@.push(reg_use(Seq::empty(), None)));
            assert(self.output@ =~= old(self).output@ + x86_op_text(BackendOp::Refused, reg_use(Seq::empty(), None)));
            return Err(CompileError { kind: ErrorKind::InvalidTree, line: 0 });
        }
        let reg = match self.alloc_register() {
            Ok(reg) => reg,
            Err(e) => {
                proof {
                    if self.log@.len() == self.uses@.len() {
                        lemma_x86_render_push(self.log@, self.uses@, BackendOp::Refused, reg_use(Seq::empty(), None));
                    }
                }
                self.log = Ghost(self.log@.push(BackendOp::Refused));
                self.uses = Ghost(self.uses@.push(reg_use(Seq::empty(), None)));
                assert(self.output@ =~= old(self).output@ + x86_op_text(BackendOp::Refused, reg_use(Seq::empty(), None)));
                return Err(e);
            },
        };
        if dtype == PrimType::Char {
            self.output.append("\tmovzbq\t");
        } else {
            self.output.append("\tmovq\t");
        }
        self.output.append(ident);
        self.output.append("(%rip), ");
        self.output.append(reg.name());
        self.output.append("\n");
        proof {
            if self.log@.len() == self.uses@.len() {
                lemma_x86_render_push(self.log@, self.uses@, BackendOp::LoadGlob(ident@, dtype), reg_use(Seq::empty(), Some(reg)));
            }
        }
        self.log = Ghost(self.log@.push(BackendOp::LoadGlob(ident@, dtype)));
        self.uses = Ghost(self.uses@.push(reg_use(Seq::empty(), Some(reg))));
        assert(self.output@ =~= old(self).output@ + x86_op_text(BackendOp::LoadGlob(ident@, dtype), reg_use(Seq::empty(), Some(reg))));
        Ok(reg)
    }

    fn store_glob(&mut self, r: X86_64Reg, ident: &str, dtype: PrimType) -> (res: Result<X86_64Reg, CompileError>)
        ensures
            dtype == PrimType::Void ==> res == Err::<X86_64Reg, CompileError>(
                CompileError { kind: ErrorKind::InvalidTree, line: 0 },
            ),
            dtype != PrimType::Void ==> res == Ok::<X86_64Reg, CompileError>(r) && final(self).free_regs()
                == old(self).free_regs() && final(self).text() == old(self).text() + (if dtype
                == PrimType::Char {
                "\tmovb\t"@ + reg8b_text(low_byte(r))
            } else {
                "\tmovq\t"@ + reg_text(r)
            }) + ", "@ + ident@ + "(%rip)\n"@,
    {
        if dtype == PrimType::Void {
            proof {
                if self.log@.len() == self.uses@.len() {
                    lemma_x86_render_push(self.log@, self.uses@, BackendOp::Refused, reg_use(seq![r], None));
                }
            }
            self.log = Ghost(self.log@.push(BackendOp::Refused));
            self.uses = Ghost(self.uses@.push(reg_use(seq![r], None)));
            assert(self.output@ =~= old(self).output@ + x86_op_text(BackendOp::Refused, reg_use(seq![r], None)));
            return Err(CompileError { kind: ErrorKind::InvalidTree, line: 0 });
        }
        if dtype == PrimType::Char {
            self.output.append("\tmovb\t");
            self.output.append(r.as_8b().name());
        } else {
            self.output.append("\tmovq\t");
            self.output.append(r.name());
        }
        self.output.append(", ");
        self.output.append(ident);
        self.output.append("(%rip)\n");
        proof {
            if self.log@.len() == self.uses@.len() {
                lemma_x86_render_push(self.log@, self.uses@, BackendOp::StoreGlob(ident@, dtype), reg_use(seq![r], Some(r)));
            }
        }
        self.log = Ghost(self.log@.push(BackendOp::StoreGlob(ident@, dtype)));
        self.uses = Ghost(self.uses@.push(reg_use(seq![r], Some(r))));
        assert(self.output@ =~= old(self).output@ + x86_op_text(BackendOp::StoreGlob(ident@, dtype), reg_use(seq![r], Some(r))));
        Ok(r)
    }

    fn glob_sym(&mut self, sym: &str, dtype: PrimType) -> (r: Result<(), CompileError>)
        ensures
            r is Ok,
            final(self).free_regs() == old(self).free_regs(),
            final(self).text() == old(self).text() + comm_text(sym@, dtype),
    {
        if dtype == PrimType::Char {
            self.output.append("\t.comm\t");
            self.output.append(sym);
            self.output.append(",1,1\n");
        } else if dtype != PrimType::Void {
            self.output.append("\t.comm\t");
            self.output.append(sym);
            self.output.append(",8,8\n");
        }
        proof {
            if dtype == PrimType::Void {
                assert(self.output@ =~= old(self).output@ + comm_text(sym@, dtype));
            }
        }
        proof {
            if self.log@.len() == self.uses@.len() {
                lemma_x86_render_push(self.log@, self.uses@, BackendOp::GlobSym(sym@, dtype), reg_use(Seq::empty(), None));
            }
        }
        self.log = Ghost(self.log@.push(BackendOp::GlobSym(sym@, dtype)));
        self.uses = Ghost(self.uses@.push(reg_use(Seq::empty(), None)));
        assert(self.output@ =~= old(self).output@ + x86_op_text(BackendOp::GlobSym(sym@, dtype), reg_use(Seq::empty(), None)));
        Ok(())
    }

    fn add(&mut self, r1: X86_64Reg, r2: X86_64Reg) -> (r: Result<Option<X86_64Reg>, CompileError>)
        ensures
            r == Ok::<Option<X86_64Reg>, CompileError>(Some(r2)),
            final(self).free_regs() == old(self).free_regs().update(reg_index(r1), true),
            final(self).text() == old(self).text() + "\taddq\t"@ + reg_text(r1) + ", "@ + reg_text(r2)
                + "\n"@,
    {
        self.output.append("\taddq\t");
        self.output.append(r1.name());
        self.output.append(", ");
        self.output.append(r2.name());
        self.output.append("\n");
        self.free_register(r1);
        proof {
            if self.log@.len() == self.uses@.len() {
                lemma_x86_render_push(self.log@, self.uses@, BackendOp::Add, reg_use(seq![r1, r2], Some(r2)));
            }
        }
        self.log = Ghost(self.log@.push(BackendOp::Add));
        self.uses = Ghost(self.uses@.push(reg_use(seq![r1, r2], Some(r2))));
        assert(self.output@ =~= old(self).output@ + x86_op_text(BackendOp::Add, reg_use(seq![r1, r2], Some(r2))));
        Ok(Some(r2))
    }

    fn sub(&mut self, r1: X86_64Reg, r2: X86_64Reg) -> (r: Result<Option<X86_64Reg>, CompileError>)
        ensures
            r == Ok::<Option<X86_64Reg>, CompileError>(Some(r1)),
            final(self).free_regs() == old(self).free_regs().update(reg_index(r2), true),
            final(self).text() == old(self).text() + "\tsubq\t"@ + reg_text(r2) + ", "@ + reg_text(r1)
                + "\n"@,
    {
        self.output.append("\tsubq\t");
        self.output.append(r2.name());
        self.output.append(", ");
        self.output.append(r1.name());
        self.output.append("\n");
        self.free_register(r2);
        proof {
            if self.log@.len() == self.uses@.len() {
                lemma_x86_render_push(self.log@, self.uses@, BackendOp::Sub, reg_use(seq![r1, r2], Some(r1)));
            }
        }
        self.log = Ghost(self.log@.push(BackendOp::Sub));
        self.uses = Ghost(self.uses@.push(reg_use(seq![r1, r2], Some(r1))));
        assert(self.output@ =~= old(self).output@ + x86_op_text(BackendOp::Sub, reg_use(seq![r1, r2], Some(r1))));
        Ok(Some(r1))
    }

    fn mul(&mut self, r1: X86_64Reg, r2: X86_64Reg) -> (r: Result<Option<X86_64Reg>, CompileError>)
        ensures
            r == Ok::<Option<X86_64Reg>, CompileError>(Some(r2)),
            final(self).free_regs() == old(self).free_regs().update(reg_index(r1), true),
            final(self).text() == old(self).text() + "\timulq\t"@ + reg_text(r1) + ", "@ + reg_text(r2)
                + "\n"@,
    {
        self.output.append("\timulq\t");
        self.output.append(r1.name());
        self.output.append(", ");
        self.output.append(r2.name());
        self.output.append("\n");
        self.free_register(r1);
        proof {
            if self.log@.len() == self.uses@.len() {
                lemma_x86_render_push(self.log@, self.uses@, BackendOp::Mul, reg_use(seq![r1, r2], Some(r2)));
            }
        }
        self.log = Ghost(self.log@.push(BackendOp::Mul));
        self.uses = Ghost(self.uses@.push(reg_use(seq![r1, r2], Some(r2))));
        assert(self.output@ =~= old(self).output@ + x86_op_text(BackendOp::Mul, reg_use(seq![r1, r2], Some(r2))));
        Ok(Some(r2))
    }

    fn div(&mut self, r1: X86_64Reg, r2: X86_64Reg) -> (r: Result<Option<X86_64Reg>, CompileError>)
        ensures
            r == Ok::<Option<X86_64Reg>, CompileError>(Some(r1)),
            final(self).free_regs() == old(self).free_regs().update(reg_index(r2), true),
            final(self).text() == old(self).text() + "\tmovq\t"@ + reg_text(r1) + ", %rax\n\tcqo\n\tidivq\t"@
                + reg_text(r2) + "\n\tmovq\t%rax, "@ + reg_text(r1) + "\n"@,
    {
        self.output.append("\tmovq\t");
        self.output.append(r1.name());
        self.output.append(", %rax\n\tcqo\n\tidivq\t");
        self.output.append(r2.name());
        self.output.append("\n\tmovq\t%rax, ");
        self.output.append(r1.name());
        self.output.append("\n");
        self.free_register(r2);
        proof {
            if self.log@.len() == self.uses@.len() {
                lemma_x86_render_push(self.log@, self.uses@, BackendOp::Div, reg_use(seq![r1, r2], Some(r1)));
            }
        }
        self.log = Ghost(self.log@.push(BackendOp::Div));
        self.uses = Ghost(self.uses@.push(reg_use(seq![r1, r2], Some(r1))));
        assert(self.output@ =~= old(self).output@ + x86_op_text(BackendOp::Div, reg_use(seq![r1, r2], Some(r1))));
        Ok(Some(r1))
    }

    fn compare_and_set(&mut self, op: &AstNode, r1: X86_64Reg, r2: X86_64Reg) -> (r: Result<Option<X86_64Reg>, CompileError>)
        ensures
            r == Ok::<Option<X86_64Reg>, CompileError>(Some(r2)),
            final(self).free_regs() == old(self).free_regs().update(reg_index(r1), true),
            final(self).text() == old(self).text() + "\tcmpq\t"@ + reg_text(r2) + ", "@ + reg_text(r1)
                + "\n\t"@ + set_text(comparison_of(*op)) + "\t"@ + reg8b_text(low_byte(r2))
                + "\n\tmovzbq\t"@ + reg8b_text(low_byte(r2)) + ", "@ + reg_text(r2) + "\n"@,
    {
        let r2_8b = r2.as_8b();
        self.output.append("\tcmpq\t");
        self.output.append(r2.name());
        self.output.append(", ");
        self.output.append(r1.name());
        self.output.append("\n\t");
        self.output.append(ast_to_set_op(op));
        self.output.append("\t");
        self.output.append(r2_8b.name());
        self.output.append("\n\tmovzbq\t");
        self.output.append(r2_8b.name());
        self.output.append(", ");
        self.output.append(r2.name());
        self.output.append("\n");
        self.free_register(r1);
        proof {
            if self.log@.len() == self.uses@.len() {
                lemma_x86_render_push(self.log@, self.uses@, BackendOp::CompareSet(comparison_of(*op)), reg_use(seq![r1, r2], Some(r2)));
            }
        }
        self.log = Ghost(self.log@.push(BackendOp::CompareSet(comparison_of(*op))));
        self.uses = Ghost(self.uses@.push(reg_use(seq![r1, r2], Some(r2))));
        assert(self.output@ =~= old(self).output@ + x86_op_text(BackendOp::CompareSet(comparison_of(*op)), reg_use(seq![r1, r2], Some(r2))));
        Ok(Some(r2))
    }

    fn compare_and_jump(&mut self, op: &AstNode, r1: X86_64Reg, r2: X86_64Reg, label_num: usize) -> (r: Result<Option<X86_64Reg>, CompileError>)
        ensures
            r == Ok::<Option<X86_64Reg>, CompileError>(None),
            final(self).free_regs() == seq![true, true, true, true],
            final(self).text() == old(self).text() + "\tcmpq\t"@ + reg_text(r2) + ", "@ + reg_text(r1)
                + "\n\t"@ + jmp_text(comparison_of(*op)) + "\tL"@ + dec_text(label_num as nat) + "\n"@,
    {
        self.output.append("\tcmpq\t");
        self.output.append(r2.name());
        self.output.append(", ");
        self.output.append(r1.name());
        self.output.append("\n\t");
        self.output.append(ast_to_jmp_op(op));
        self.output.append("\tL");
        push_dec(&mut self.output, label_num as u64);
        self.output.append("\n");
        self.reg_status = [true, true, true, true];
        assert(self.reg_status@ =~= seq![true, true, true, true]);
        proof {
            if self.log@.len() == self.uses@.len() {
                lemma_x86_render_push(self.log@, self.uses@, BackendOp::CompareJump(comparison_of(*op), label_num), reg_use(seq![r1, r2], None));
            }
        }
        self.log = Ghost(self.log@.push(BackendOp::CompareJump(comparison_of(*op), label_num)));
        self.uses = Ghost(self.uses@.push(reg_use(seq![r1, r2], None)));
        assert(self.output@ =~= old(self).output@ + x86_op_text(BackendOp::CompareJump(comparison_of(*op), label_num), reg_use(seq![r1, r2], None)));
        Ok(None)
    }

    fn label(&mut self, label_num: usize) -> (r: Result<(), CompileError>)
        ensures
            r is Ok,
            final(self).free_regs() == old(self).free_regs(),
            final(self).text() == old(self).text() + label_text(label_num),
    {
        self.output.append("L");
        push_dec(&mut self.output, label_num as u64);
        self.output.append(":\n");
        proof {
            if self.log@.len() == self.uses@.len() {
                lemma_x86_render_push(self.log@, self.uses@, BackendOp::Label(label_num), reg_use(Seq::empty(), None));
            }
        }
        self.log = Ghost(self.log@.push(BackendOp::Label(label_num)));
        self.uses = Ghost(self.uses@.push(reg_use(Seq::empty(), None)));
        assert(self.output@ =~= old(self).output@ + x86_op_text(BackendOp::Label(label_num), reg_use(Seq::empty(), None)));
        Ok(())
    }

    fn jump(&mut self, label_num: usize) -> (r: Result<(), CompileError>)
        ensures
            r is Ok,
            final(self).free_regs() == old(self).free_regs(),
            final(self).text() == old(self).text() + jump_text(label_num),
    {
        self.output.append("\tjmp\tL");
        push_dec(&mut self.output, label_num as u64);
        self.output.append("\n");
        proof {
            if self.log@.len() == self.uses@.len() {
                lemma_x86_render_push(self.log@, self.uses@, BackendOp::Jump(label_num), reg_use(Seq::empty(), None));
            }
        }
        self.log = Ghost(self.log@.push(BackendOp::Jump(label_num)));
        self.uses = Ghost(self.uses@.push(reg_use(Seq::empty(), None)));
        assert(self.output@ =~= old(self).output@ + x86_op_text(BackendOp::Jump(label_num), reg_use(Seq::empty(), None)));
        Ok(())
    }

    fn print_int(&mut self, r: X86_64Reg) -> (res: Result<(), CompileError>)
        ensures
            res is Ok,
            final(self).free_regs() == old(self).free_regs().update(reg_index(r), true),
            final(self).text() == old(self).text() + "\tmovq\t"@ + reg_text(r)
                + ", %rdi\n\tcall\tprintint\n"@,
    {
        self.output.append("\tmovq\t");
        self.output.append(r.name());
        self.output.append(", %rdi\n\tcall\tprintint\n");
        self.free_register(r);
        proof {
            if self.log@.len() == self.uses@.len() {
                lemma_x86_render_push(self.log@, self.uses@, BackendOp::PrintInt, reg_use(seq![r], None));
            }
        }
        self.log = Ghost(self.log@.push(BackendOp::PrintInt));
        self.uses = Ghost(self.uses@.push(reg_use(seq![r], None)));
        assert(self.output@ =~= old(self).output@ + x86_op_text(BackendOp::PrintInt, reg_use(seq![r], None)));
        Ok(())
    }

    fn call(&mut self, r: X86_64Reg, ident: &str) -> (res: Result<Option<X86_64Reg>, CompileError>)
        ensures
            res == Ok::<Option<X86_64Reg>, CompileError>(Some(r)),
            final(self).free_regs() == old(self).free_regs(),
            final(self).text() == old(self).text() + "\tmovq\t"@ + reg_text(r) + ", %rdi\n\tcall\t"@
                + ident@ + "\n\tmovq\t%rax, "@ + reg_text(r) + "\n"@,
    {
        self.output.append("\tmovq\t");
        self.output.append(r.name());
        self.output.append(", %rdi\n\tcall\t");
        self.output.append(ident);
        self.output.append("\n\tmovq\t%rax, ");
        self.output.append(r.name());
        self.output.append("\n");
        proof {
            if self.log@.len() == self.uses@.len() {
                lemma_x86_render_push(self.log@, self.uses@, BackendOp::Call(ident@), reg_use(seq![r], Some(r)));
            }
        }
        self.log = Ghost(self.log@.push(BackendOp::Call(ident@)));
        self.uses = Ghost(self.uses@.push(reg_use(seq![r], Some(r))));
        assert(self.output@ =~= old(self).output@ + x86_op_text(BackendOp::Call(ident@), reg_use(seq![r], Some(r))));
        Ok(Some(r))
    }

    fn ret(&mut self, r: X86_64Reg, dtype: PrimType, label_num: usize) -> (res: Result<(), CompileError>)
        ensures
            res is Ok,
            final(self).free_regs() == old(self).free_regs(),
            final(self).text() == old(self).text() + "\tmovq\t"@ + reg_text(r) + ", %rax\n"@ + jump_text(
                label_num,
            ),
    {
        self.output.append("\tmovq\t");
        self.output.append(r.name());
        self.output.append(", %rax\n");
        self.output.append("\tjmp\tL");
        push_dec(&mut self.output, label_num as u64);
        self.output.append("\n");
        proof {
            if self.log@.len() == self.uses@.len() {
                lemma_x86_render_push(self.log@, self.uses@, BackendOp::Ret(dtype, label_num), reg_use(seq![r], None));
            }
        }
        self.log = Ghost(self.log@.push(BackendOp::Ret(dtype, label_num)));
        self.uses = Ghost(self.uses@.push(reg_use(seq![r], None)));
        assert(self.output@ =~= old(self).output@ + x86_op_text(BackendOp::Ret(dtype, label_num), reg_use(seq![r], None)));
        Ok(())
    }
}

} // verus!
