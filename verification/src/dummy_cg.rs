//! A back end that emits nothing: it gives type sizes and records requests,
//! for parsing and tests.
use vstd::prelude::*;
use crate::ast::AstNode;
use crate::cgen::{comparison_of, reg_use, BackendOp, CodeBackend, RegUse};
use crate::error::CompileError;
use crate::sym::PrimType;

verus! {

/// The one register of the dummy back end.
#[derive(Clone, Copy, PartialEq, Eq, Debug, Structural)]
pub enum DummyReg {
    Acc,
}

/// A back end that emits nothing.
pub struct DummyBackend {
    log: Ghost<Seq<BackendOp>>,
    uses: Ghost<Seq<RegUse<DummyReg>>>,
}

impl DummyBackend {
    /// A back end that was asked nothing yet.
    pub fn new() -> (b: DummyBackend)
        ensures
            b.ops() == Seq::<BackendOp>::empty(),
    {
        DummyBackend { log: Ghost(Seq::empty()), uses: Ghost(Seq::empty()) }
    }
}

/// The size of each type on the dummy back end.
pub open spec fn dummy_type_size(dtype: PrimType) -> usize {
    match dtype {
        PrimType::Char => 1,
        PrimType::Int => 4,
        PrimType::Void => 0,
        _ => 8,
    }
}

impl CodeBackend for DummyBackend {
    type Reg = DummyReg;

    open spec fn spec_type_size(&self, dtype: PrimType) -> usize {
        dummy_type_size(dtype)
    }

    open spec fn spec_alignment() -> usize {
        0
    }

    closed spec fn ops(&self) -> Seq<BackendOp> {
        self.log@
    }

    closed spec fn reg_uses(&self) -> Seq<RegUse<DummyReg>> {
        self.uses@
    }

    /// The dummy back end emits nothing, so it is always in step with its log.
    open spec fn in_sync(&self) -> bool {
        true
    }

    fn alignment() -> (r: usize) {
        0
    }

    fn free_all_registers(&mut self) -> (r: Result<(), CompileError>)
        ensures
            r is Ok,
    {
        self.log = Ghost(self.log@.push(BackendOp::FreeAll));
        self.uses = Ghost(self.uses@.push(reg_use(Seq::empty(), None)));
        Ok(())
    }

    fn preamble(&mut self) -> (r: Result<(), CompileError>)
        ensures
            r is Ok,
    {
        self.log = Ghost(self.log@.push(BackendOp::Preamble));
        self.uses = Ghost(self.uses@.push(reg_use(Seq::empty(), None)));
        Ok(())
    }

    fn type_size(&self, dtype: PrimType) -> (r: usize) {
        match dtype {
            PrimType::Char => 1,
            PrimType::Int => 4,
            PrimType::Void => 0,
            _ => 8,
        }
    }

    fn func_preamble(&mut self, ident: &str) -> (r: Result<(), CompileError>)
        ensures
            r is Ok,
    {
        self.log = Ghost(self.log@.push(BackendOp::FuncPreamble(ident@)));
        self.uses = Ghost(self.uses@.push(reg_use(Seq::empty(), None)));
        Ok(())
    }

    fn func_postamble(&mut self, label_num: usize) -> (r: Result<(), CompileError>)
        ensures
            r is Ok,
    {
        self.log = Ghost(self.log@.push(BackendOp::FuncPostamble(label_num)));
        self.uses = Ghost(self.uses@.push(reg_use(Seq::empty(), None)));
        Ok(())
    }

    fn load_int(&mut self, val: i64) -> (r: Result<DummyReg, CompileError>)
        ensures
            r is Ok,
    {
        self.log = Ghost(self.log@.push(BackendOp::LoadInt(val)));
        self.uses = Ghost(self.uses@.push(reg_use(Seq::empty(), Some(DummyReg::Acc))));
        Ok(DummyReg::Acc)
    }

    fn load_glob(&mut self, ident: &str, dtype: PrimType) -> (r: Result<DummyReg, CompileError>)
        ensures
            r is Ok,
    {
        self.log = Ghost(self.log@.push(BackendOp::LoadGlob(ident@, dtype)));
        self.uses = Ghost(self.uses@.push(reg_use(Seq::empty(), Some(DummyReg::Acc))));
        Ok(DummyReg::Acc)
    }

    fn store_glob(&mut self, r: DummyReg, ident: &str, dtype: PrimType) -> (res: Result<DummyReg, CompileError>)
        ensures
            res is Ok,
    {
        self.log = Ghost(self.log@.push(BackendOp::StoreGlob(ident@, dtype)));
        self.uses = Ghost(self.uses@.push(reg_use(seq![r], Some(r))));
        Ok(r)
    }

    fn glob_sym(&mut self, sym: &str, dtype: PrimType) -> (r: Result<(), CompileError>)
        ensures
            r is Ok,
    {
        self.log = Ghost(self.log@.push(BackendOp::GlobSym(sym@, dtype)));
        self.uses = Ghost(self.uses@.push(reg_use(Seq::empty(), None)));
        Ok(())
    }

    fn add(&mut self, r1: DummyReg, r2: DummyReg) -> (r: Result<Option<DummyReg>, CompileError>)
        ensures
            r is Ok,
    {
        self.log = Ghost(self.log@.push(BackendOp::Add));
        self.uses = Ghost(self.uses@.push(reg_use(seq![r1, r2], Some(r2))));
        Ok(Some(r2))
    }

    fn sub(&mut self, r1: DummyReg, r2: DummyReg) -> (r: Result<Option<DummyReg>, CompileError>)
        ensures
            r is Ok,
    {
        self.log = Ghost(self.log@.push(BackendOp::Sub));
        self.uses = Ghost(self.uses@.push(reg_use(seq![r1, r2], Some(r1))));
        Ok(Some(r1))
    }

    fn mul(&mut self, r1: DummyReg, r2: DummyReg) -> (r: Result<Option<DummyReg>, CompileError>)
        ensures
            r is Ok,
    {
        self.log = Ghost(self.log@.push(BackendOp::Mul));
        self.uses = Ghost(self.uses@.push(reg_use(seq![r1, r2], Some(r2))));
        Ok(Some(r2))
    }

    fn div(&mut self, r1: DummyReg, r2: DummyReg) -> (r: Result<Option<DummyReg>, CompileError>)
        ensures
            r is Ok,
    {
        self.log = Ghost(self.log@.push(BackendOp::Div));
        self.uses = Ghost(self.uses@.push(reg_use(seq![r1, r2], Some(r1))));
        Ok(Some(r1))
    }

    fn compare_and_set(&mut self, op: &AstNode, r1: DummyReg, r2: DummyReg) -> (r: Result<Option<DummyReg>, CompileError>)
        ensures
            r is Ok,
    {
        self.log = Ghost(self.log@.push(BackendOp::CompareSet(comparison_of(*op))));
        self.uses = Ghost(self.uses@.push(reg_use(seq![r1, r2], Some(r2))));
        Ok(Some(r2))
    }

    fn compare_and_jump(&mut self, op: &AstNode, r1: DummyReg, r2: DummyReg, label_num: usize) -> (r: Result<Option<DummyReg>, CompileError>)
        ensures
            r is Ok,
    {
        self.log = Ghost(self.log@.push(BackendOp::CompareJump(comparison_of(*op), label_num)));
        self.uses = Ghost(self.uses@.push(reg_use(seq![r1, r2], None)));
        Ok(None)
    }

    fn label(&mut self, label_num: usize) -> (r: Result<(), CompileError>)
        ensures
            r is Ok,
    {
        self.log = Ghost(self.log@.push(BackendOp::Label(label_num)));
        self.uses = Ghost(self.uses@.push(reg_use(Seq::empty(), None)));
        Ok(())
    }

    fn jump(&mut self, label_num: usize) -> (r: Result<(), CompileError>)
        ensures
            r is Ok,
    {
        self.log = Ghost(self.log@.push(BackendOp::Jump(label_num)));
        self.uses = Ghost(self.uses@.push(reg_use(Seq::empty(), None)));
        Ok(())
    }

    fn print_int(&mut self, r: DummyReg) -> (res: Result<(), CompileError>)
        ensures
            res is Ok,
    {
        self.log = Ghost(self.log@.push(BackendOp::PrintInt));
        self.uses = Ghost(self.uses@.push(reg_use(seq![r], None)));
        Ok(())
    }

    fn call(&mut self, r: DummyReg, ident: &str) -> (res: Result<Option<DummyReg>, CompileError>)
        ensures
            res is Ok,
    {
        self.log = Ghost(self.log@.push(BackendOp::Call(ident@)));
        self.uses = Ghost(self.uses@.push(reg_use(seq![r], Some(r))));
        Ok(Some(r))
    }

    fn ret(&mut self, r: DummyReg, dtype: PrimType, label_num: usize) -> (res: Result<(), CompileError>)
        ensures
            res is Ok,
    {
        self.log = Ghost(self.log@.push(BackendOp::Ret(dtype, label_num)));
        self.uses = Ghost(self.uses@.push(reg_use(seq![r], None)));
        Ok(())
    }
}

} // verus!
