//! Code generation: a tree walk over the AST that drives a target back end.
//!
//! A back end is described by the requests it was given so far (`ops`); the
//! generator's contract says which requests each tree turns into.
use vstd::prelude::*;
use crate::ast::{AstNode, AstNodeG, AstV};
use crate::error::{CompileError, ErrorKind};
use crate::sym::{
    filtered, find_first, lemma_find_first_props, with_end_label, EntryFilter, PrimType,
    StructuralType, SymbolEntryV, SymbolTable,
};

verus! {

/// Which comparison a node makes.
#[derive(Clone, Copy, Debug, PartialEq, Eq, Structural)]
pub enum Comparison {
    Eq,
    Ne,
    Lt,
    Gt,
    Le,
    Ge,
}

pub open spec fn comparison_of<S>(op: AstNodeG<S>) -> Comparison {
    match op {
        AstNodeG::Equal { .. } => Comparison::Eq,
        AstNodeG::NotEqual { .. } => Comparison::Ne,
        AstNodeG::LessThan { .. } => Comparison::Lt,
        AstNodeG::GreaterThan { .. } => Comparison::Gt,
        AstNodeG::LessThanOrEqual { .. } => Comparison::Le,
        _ => Comparison::Ge,
    }
}

/// One request to a back end, as the code generator issues it.
pub enum BackendOp {
    FreeAll,
    Preamble,
    FuncPreamble(Seq<char>),
    FuncPostamble(usize),
    LoadInt(i64),
    LoadGlob(Seq<char>, PrimType),
    StoreGlob(Seq<char>, PrimType),
    GlobSym(Seq<char>, PrimType),
    Add,
    Sub,
    Mul,
    Div,
    CompareSet(Comparison),
    CompareJump(Comparison, usize),
    Label(usize),
    Jump(usize),
    PrintInt,
    Call(Seq<char>),
    Ret(PrimType, usize),
    /// A request that the back end refused; a walk stops at it.
    Refused,
}

/// The registers one request to a back end was handed, and the register in
/// which it left a value, if any.
pub struct RegUse<R> {
    pub args: Seq<R>,
    pub result: Option<R>,
}

/// The registers a request was handed and the one it left a value in.
pub open spec fn reg_use<R>(args: Seq<R>, result: Option<R>) -> RegUse<R> {
    RegUse { args, result }
}

/// The register a request that gives one register back left its value in.
pub open spec fn reg_of<R>(r: Result<R, CompileError>) -> Option<R> {
    match r {
        Ok(x) => Some(x),
        Err(_) => None,
    }
}

/// The register a request that may give a register back left its value in.
pub open spec fn opt_reg_of<R>(r: Result<Option<R>, CompileError>) -> Option<R> {
    match r {
        Ok(o) => o,
        Err(_) => None,
    }
}

/// A target back end: register allocation and the instructions it emits.
/// `ops` is the list of requests it was given so far: each method that
/// succeeds adds its own request to it, and one that fails adds `Refused`.
pub trait CodeBackend: Sized {
    type Reg: Copy;

    /// The size in bytes that the back end gives each type.
    spec fn spec_type_size(&self, dtype: PrimType) -> usize;

    spec fn spec_alignment() -> usize;

    /// The requests carried out so far.
    spec fn ops(&self) -> Seq<BackendOp>;

    /// For each request in `ops`, the registers it was handed and the one it
    /// left a value in.
    spec fn reg_uses(&self) -> Seq<RegUse<Self::Reg>>;

    /// Whether what the back end emitted agrees with its request log: the
    /// text that those requests, with those registers, make.
    spec fn in_sync(&self) -> bool;

    /// The alignment, as a power of two, that globals get.
    fn alignment() -> (r: usize)
        ensures
            r == Self::spec_alignment(),
    ;

    fn free_all_registers(&mut self) -> (r: Result<(), CompileError>)
        ensures
            old(self).in_sync() ==> final(self).in_sync(),
            final(self).reg_uses() == old(self).reg_uses().push(reg_use(Seq::<Self::Reg>::empty(), None)),
            r is Err ==> final(self).ops() == old(self).ops().push(BackendOp::Refused),
            r is Ok ==> final(self).ops() == old(self).ops().push(BackendOp::FreeAll),
    ;

    fn preamble(&mut self) -> (r: Result<(), CompileError>)
        ensures
            old(self).in_sync() ==> final(self).in_sync(),
            final(self).reg_uses() == old(self).reg_uses().push(reg_use(Seq::<Self::Reg>::empty(), None)),
            r is Err ==> final(self).ops() == old(self).ops().push(BackendOp::Refused),
            r is Ok ==> final(self).ops() == old(self).ops().push(BackendOp::Preamble),
    ;

    fn type_size(&self, dtype: PrimType) -> (r: usize)
        ensures
            r == self.spec_type_size(dtype),
    ;

    fn func_preamble(&mut self, ident: &str) -> (r: Result<(), CompileError>)
        ensures
            old(self).in_sync() ==> final(self).in_sync(),
            final(self).reg_uses() == old(self).reg_uses().push(reg_use(Seq::<Self::Reg>::empty(), None)),
            r is Err ==> final(self).ops() == old(self).ops().push(BackendOp::Refused),
            r is Ok ==> final(self).ops() == old(self).ops().push(BackendOp::FuncPreamble(ident@)),
    ;

    fn func_postamble(&mut self, label_num: usize) -> (r: Result<(), CompileError>)
        ensures
            old(self).in_sync() ==> final(self).in_sync(),
            final(self).reg_uses() == old(self).reg_uses().push(reg_use(Seq::<Self::Reg>::empty(), None)),
            r is Err ==> final(self).ops() == old(self).ops().push(BackendOp::Refused),
            r is Ok ==> final(self).ops() == old(self).ops().push(BackendOp::FuncPostamble(label_num)),
    ;

    fn load_int(&mut self, val: i64) -> (r: Result<Self::Reg, CompileError>)
        ensures
            old(self).in_sync() ==> final(self).in_sync(),
            final(self).reg_uses() == old(self).reg_uses().push(reg_use(Seq::<Self::Reg>::empty(), reg_of(r))),
            r is Err ==> final(self).ops() == old(self).ops().push(BackendOp::Refused),
            r is Ok ==> final(self).ops() == old(self).ops().push(BackendOp::LoadInt(val)),
    ;

    fn load_glob(&mut self, ident: &str, dtype: PrimType) -> (r: Result<Self::Reg, CompileError>)
        ensures
            old(self).in_sync() ==> final(self).in_sync(),
            final(self).reg_uses() == old(self).reg_uses().push(reg_use(Seq::<Self::Reg>::empty(), reg_of(r))),
            r is Err ==> final(self).ops() == old(self).ops().push(BackendOp::Refused),
            r is Ok ==> final(self).ops() == old(self).ops().push(BackendOp::LoadGlob(ident@, dtype)),
    ;

    fn store_glob(&mut self, r: Self::Reg, ident: &str, dtype: PrimType) -> (res: Result<Self::Reg, CompileError>)
        ensures
            old(self).in_sync() ==> final(self).in_sync(),
            final(self).reg_uses() == old(self).reg_uses().push(reg_use(seq![r], reg_of(res))),
            res is Err ==> final(self).ops() == old(self).ops().push(BackendOp::Refused),
            res is Ok ==> final(self).ops() == old(self).ops().push(BackendOp::StoreGlob(ident@, dtype)),
    ;

    fn glob_sym(&mut self, sym: &str, dtype: PrimType) -> (r: Result<(), CompileError>)
        ensures
            old(self).in_sync() ==> final(self).in_sync(),
            final(self).reg_uses() == old(self).reg_uses().push(reg_use(Seq::<Self::Reg>::empty(), None)),
            r is Err ==> final(self).ops() == old(self).ops().push(BackendOp::Refused),
            r is Ok ==> final(self).ops() == old(self).ops().push(BackendOp::GlobSym(sym@, dtype)),
    ;

    fn add(&mut self, r1: Self::Reg, r2: Self::Reg) -> (r: Result<Option<Self::Reg>, CompileError>)
        ensures
            old(self).in_sync() ==> final(self).in_sync(),
            final(self).reg_uses() == old(self).reg_uses().push(reg_use(seq![r1, r2], opt_reg_of(r))),
            r is Err ==> final(self).ops() == old(self).ops().push(BackendOp::Refused),
            r matches Ok(o) ==> o is Some && final(self).ops() == old(self).ops().push(BackendOp::Add),
    ;

    fn sub(&mut self, r1: Self::Reg, r2: Self::Reg) -> (r: Result<Option<Self::Reg>, CompileError>)
        ensures
            old(self).in_sync() ==> final(self).in_sync(),
            final(self).reg_uses() == old(self).reg_uses().push(reg_use(seq![r1, r2], opt_reg_of(r))),
            r is Err ==> final(self).ops() == old(self).ops().push(BackendOp::Refused),
            r matches Ok(o) ==> o is Some && final(self).ops() == old(self).ops().push(BackendOp::Sub),
    ;

    fn mul(&mut self, r1: Self::Reg, r2: Self::Reg) -> (r: Result<Option<Self::Reg>, CompileError>)
        ensures
            old(self).in_sync() ==> final(self).in_sync(),
            final(self).reg_uses() == old(self).reg_uses().push(reg_use(seq![r1, r2], opt_reg_of(r))),
            r is Err ==> final(self).ops() == old(self).ops().push(BackendOp::Refused),
            r matches Ok(o) ==> o is Some && final(self).ops() == old(self).ops().push(BackendOp::Mul),
    ;

    fn div(&mut self, r1: Self::Reg, r2: Self::Reg) -> (r: Result<Option<Self::Reg>, CompileError>)
        ensures
            old(self).in_sync() ==> final(self).in_sync(),
            final(self).reg_uses() == old(self).reg_uses().push(reg_use(seq![r1, r2], opt_reg_of(r))),
            r is Err ==> final(self).ops() == old(self).ops().push(BackendOp::Refused),
            r matches Ok(o) ==> o is Some && final(self).ops() == old(self).ops().push(BackendOp::Div),
    ;

    fn compare_and_set(&mut self, op: &AstNode, r1: Self::Reg, r2: Self::Reg) -> (r: Result<Option<Self::Reg>, CompileError>)
        requires
            op.spec_is_comparison(),
        ensures
            old(self).in_sync() ==> final(self).in_sync(),
            final(self).reg_uses() == old(self).reg_uses().push(reg_use(seq![r1, r2], opt_reg_of(r))),
            r is Err ==> final(self).ops() == old(self).ops().push(BackendOp::Refused),
            r matches Ok(o) ==> o is Some && final(self).ops() == old(self).ops().push(
                BackendOp::CompareSet(comparison_of(*op)),
            ),
    ;

    fn compare_and_jump(&mut self, op: &AstNode, r1: Self::Reg, r2: Self::Reg, label_num: usize) -> (r: Result<Option<Self::Reg>, CompileError>)
        requires
            op.spec_is_comparison(),
        ensures
            old(self).in_sync() ==> final(self).in_sync(),
            final(self).reg_uses() == old(self).reg_uses().push(reg_use(seq![r1, r2], opt_reg_of(r))),
            r is Err ==> final(self).ops() == old(self).ops().push(BackendOp::Refused),
            r matches Ok(o) ==> o is None && final(self).ops() == old(self).ops().push(
                BackendOp::CompareJump(comparison_of(*op), label_num),
            ),
    ;

    fn label(&mut self, label_num: usize) -> (r: Result<(), CompileError>)
        ensures
            old(self).in_sync() ==> final(self).in_sync(),
            final(self).reg_uses() == old(self).reg_uses().push(reg_use(Seq::<Self::Reg>::empty(), None)),
            r is Err ==> final(self).ops() == old(self).ops().push(BackendOp::Refused),
            r is Ok ==> final(self).ops() == old(self).ops().push(BackendOp::Label(label_num)),
    ;

    fn jump(&mut self, label_num: usize) -> (r: Result<(), CompileError>)
        ensures
            old(self).in_sync() ==> final(self).in_sync(),
            final(self).reg_uses() == old(self).reg_uses().push(reg_use(Seq::<Self::Reg>::empty(), None)),
            r is Err ==> final(self).ops() == old(self).ops().push(BackendOp::Refused),
            r is Ok ==> final(self).ops() == old(self).ops().push(BackendOp::Jump(label_num)),
    ;

    fn print_int(&mut self, r: Self::Reg) -> (res: Result<(), CompileError>)
        ensures
            old(self).in_sync() ==> final(self).in_sync(),
            final(self).reg_uses() == old(self).reg_uses().push(reg_use(seq![r], None)),
            res is Err ==> final(self).ops() == old(self).ops().push(BackendOp::Refused),
            res is Ok ==> final(self).ops() == old(self).ops().push(BackendOp::PrintInt),
    ;

    fn call(&mut self, r: Self::Reg, ident: &str) -> (res: Result<Option<Self::Reg>, CompileError>)
        ensures
            old(self).in_sync() ==> final(self).in_sync(),
            final(self).reg_uses() == old(self).reg_uses().push(reg_use(seq![r], opt_reg_of(res))),
            res is Err ==> final(self).ops() == old(self).ops().push(BackendOp::Refused),
            res matches Ok(o) ==> o is Some && final(self).ops() == old(self).ops().push(BackendOp::Call(ident@)),
    ;

    fn ret(&mut self, r: Self::Reg, dtype: PrimType, label_num: usize) -> (res: Result<(), CompileError>)
        ensures
            old(self).in_sync() ==> final(self).in_sync(),
            final(self).reg_uses() == old(self).reg_uses().push(reg_use(seq![r], None)),
            res is Err ==> final(self).ops() == old(self).ops().push(BackendOp::Refused),
            res is Ok ==> final(self).ops() == old(self).ops().push(BackendOp::Ret(dtype, label_num)),
    ;
}

// ---------------------------------------------------------------------------
// What the generator asks of the back end for each tree.
// ---------------------------------------------------------------------------

/// The generator's own state: the last label handed out and the symbols.
pub struct GenState {
    pub last_label: usize,
    pub syms: Seq<SymbolEntryV>,
}

/// The outcome of generating code for a tree when every request to the back
/// end succeeds: `Fail` for a tree that cannot be translated; else the requests,
/// whether a register holds the tree's value, and the state afterwards.
pub enum Gen {
    Fail,
    Done { ops: Seq<BackendOp>, reg: bool, st: GenState },
}

/// What a binary node does once both operands are in registers.
pub enum Step {
    /// Issue a request; `reg` tells whether it leaves a value in a register.
    Emit(BackendOp, bool),
    /// The value is the right operand's register (assignment).
    TakeRight,
}

pub open spec fn done(ops: Seq<BackendOp>, reg: bool, st: GenState) -> Gen {
    Gen::Done { ops, reg, st }
}

/// The number of nodes of a tree.
pub open spec fn ast_size(t: AstV) -> nat
    decreases t,
{
    match t {
        AstNodeG::FuncCall { left, .. } => 1 + ast_size(*left),
        AstNodeG::Deref { inner, .. } => 1 + ast_size(*inner),
        AstNodeG::Add { left, right, .. } => 1 + ast_size(*left) + ast_size(*right),
        AstNodeG::Subtract { left, right, .. } => 1 + ast_size(*left) + ast_size(*right),
        AstNodeG::Multiply { left, right, .. } => 1 + ast_size(*left) + ast_size(*right),
        AstNodeG::Divide { left, right, .. } => 1 + ast_size(*left) + ast_size(*right),
        AstNodeG::Equal { left, right, .. } => 1 + ast_size(*left) + ast_size(*right),
        AstNodeG::NotEqual { left, right, .. } => 1 + ast_size(*left) + ast_size(*right),
        AstNodeG::LessThan { left, right, .. } => 1 + ast_size(*left) + ast_size(*right),
        AstNodeG::GreaterThan { left, right, .. } => 1 + ast_size(*left) + ast_size(*right),
        AstNodeG::LessThanOrEqual { left, right, .. } => 1 + ast_size(*left) + ast_size(*right),
        AstNodeG::GreaterThanOrEqual { left, right, .. } => 1 + ast_size(*left) + ast_size(*right),
        AstNodeG::Function { name, body } => 1 + ast_size(*name) + ast_size(*body),
        AstNodeG::Assign { id, expr } => 1 + ast_size(*id) + ast_size(*expr),
        AstNodeG::Glue { left, right } => 1 + ast_size(*left) + ast_size(*right),
        AstNodeG::If { cond, branch_t, branch_f } => 1 + ast_size(*cond) + ast_size(*branch_t) + match branch_f {
            Some(b) => ast_size(*b),
            None => 0,
        },
        AstNodeG::Return { expr, .. } => 1 + ast_size(*expr),
        AstNodeG::While { cond, body } => 1 + ast_size(*cond) + ast_size(*body),
        _ => 1,
    }
}

/// Code for tree `t`. `has_reg` tells whether a register was handed in (the
/// value an l-value stores); `branch` whether the parent is `if` or `while`,
/// in which case a comparison jumps to `label` when it fails.
pub open spec fn spec_gen(t: AstV, has_reg: bool, branch: bool, label: usize, st: GenState) -> Gen
    decreases ast_size(t), 1nat,
{
    match t {
        AstNodeG::Empty => done(seq![], false, st),
        AstNodeG::Function { .. } => spec_gen_function(t, st),
        AstNodeG::If { .. } => spec_gen_if(t, st),
        AstNodeG::While { .. } => spec_gen_while(t, st),
        AstNodeG::Glue { .. } => spec_gen_glue(t, st),
        AstNodeG::Add { left, right, .. } => spec_binary(*left, *right, Step::Emit(BackendOp::Add, true), st),
        AstNodeG::Subtract { left, right, .. } => spec_binary(*left, *right, Step::Emit(BackendOp::Sub, true), st),
        AstNodeG::Multiply { left, right, .. } => spec_binary(*left, *right, Step::Emit(BackendOp::Mul, true), st),
        AstNodeG::Divide { left, right, .. } => spec_binary(*left, *right, Step::Emit(BackendOp::Div, true), st),
        AstNodeG::Equal { left, right, .. } => spec_binary(*left, *right, compare_step(t, branch, label), st),
        AstNodeG::NotEqual { left, right, .. } => spec_binary(*left, *right, compare_step(t, branch, label), st),
        AstNodeG::LessThan { left, right, .. } => spec_binary(*left, *right, compare_step(t, branch, label), st),
        AstNodeG::GreaterThan { left, right, .. } => spec_binary(*left, *right, compare_step(t, branch, label), st),
        AstNodeG::LessThanOrEqual { left, right, .. } => spec_binary(*left, *right, compare_step(t, branch, label), st),
        AstNodeG::GreaterThanOrEqual { left, right, .. } => spec_binary(*left, *right, compare_step(t, branch, label), st),
        AstNodeG::IntLit { val, .. } => done(seq![BackendOp::LoadInt(val)], true, st),
        AstNodeG::Ident { id, dtype } => done(seq![BackendOp::LoadGlob(id.name, dtype)], true, st),
        AstNodeG::LvIdent { id, dtype } => if has_reg {
            done(seq![BackendOp::StoreGlob(id.name, dtype)], true, st)
        } else {
            Gen::Fail
        },
        AstNodeG::Assign { id, expr } => spec_binary(*expr, *id, Step::TakeRight, st),
        AstNodeG::GlobalDec { .. } => done(seq![], false, st),
        AstNodeG::FuncCall { .. } => spec_gen_call(t, st),
        AstNodeG::Return { .. } => spec_gen_return(t, st),
        _ => Gen::Fail,
    }
}

/// A comparison jumps to `label` under `if` and `while`, else leaves 0 or 1.
pub open spec fn compare_step(t: AstV, branch: bool, label: usize) -> Step {
    if branch {
        Step::Emit(BackendOp::CompareJump(comparison_of(t), label), false)
    } else {
        Step::Emit(BackendOp::CompareSet(comparison_of(t)), true)
    }
}

/// Both operands, the left one first, then `step`; both must leave a value.
pub open spec fn spec_binary(left: AstV, right: AstV, step: Step, st: GenState) -> Gen
    decreases ast_size(left) + ast_size(right), 0nat,
{
    match spec_gen(left, false, false, 0, st) {
        Gen::Fail => Gen::Fail,
        Gen::Done { ops: o1, reg: r1, st: s1 } => match spec_gen(right, r1, false, 0, s1) {
            Gen::Fail => Gen::Fail,
            Gen::Done { ops: o2, reg: r2, st: s2 } => if !(r1 && r2) {
                Gen::Fail
            } else {
                match step {
                    Step::Emit(op, reg) => done(o1 + o2 + seq![op], reg, s2),
                    Step::TakeRight => done(o1 + o2, true, s2),
                }
            },
        },
    }
}

/// `if`: the condition jumps to the false label; the true branch jumps past
/// the false branch when there is one.
pub open spec fn spec_gen_if(t: AstV, st: GenState) -> Gen
    decreases ast_size(t), 0nat,
{
    match t {
        AstNodeG::If { cond, branch_t, branch_f } => {
            let needed: int = if branch_f is Some { 2 } else { 1 };
            if st.last_label + needed > usize::MAX {
                Gen::Fail
            } else {
                let l_false = (st.last_label + 1) as usize;
                let l_end = (st.last_label + 2) as usize;
                let s0 = GenState { last_label: (st.last_label + needed) as usize, syms: st.syms };
                match spec_gen(*cond, false, true, l_false, s0) {
                    Gen::Fail => Gen::Fail,
                    Gen::Done { ops: o1, st: s1, .. } => match spec_gen(*branch_t, false, true, 0, s1) {
                        Gen::Fail => Gen::Fail,
                        Gen::Done { ops: o2, st: s2, .. } => {
                            let pre = o1 + seq![BackendOp::FreeAll] + o2 + seq![BackendOp::FreeAll]
                                + (if branch_f is Some {
                                seq![BackendOp::Jump(l_end)]
                            } else {
                                seq![]
                            }) + seq![BackendOp::Label(l_false)];
                            match branch_f {
                                None => done(pre, false, s2),
                                Some(f) => match spec_gen(*f, false, true, 0, s2) {
                                    Gen::Fail => Gen::Fail,
                                    Gen::Done { ops: o3, st: s3, .. } => done(
                                        pre + o3 + seq![BackendOp::FreeAll, BackendOp::Label(l_end)],
                                        false,
                                        s3,
                                    ),
                                },
                            }
                        },
                    },
                }
            }
        },
        _ => Gen::Fail,
    }
}

/// `while`: a start label, the condition jumping to the end label, the body
/// and a jump back.
pub open spec fn spec_gen_while(t: AstV, st: GenState) -> Gen
    decreases ast_size(t), 0nat,
{
    match t {
        AstNodeG::While { cond, body } => if st.last_label + 2 > usize::MAX {
            Gen::Fail
        } else {
            let l_start = (st.last_label + 1) as usize;
            let l_end = (st.last_label + 2) as usize;
            let s0 = GenState { last_label: l_end, syms: st.syms };
            match spec_gen(*cond, false, true, l_end, s0) {
                Gen::Fail => Gen::Fail,
                Gen::Done { ops: o1, st: s1, .. } => match spec_gen(*body, false, true, 0, s1) {
                    Gen::Fail => Gen::Fail,
                    Gen::Done { ops: o2, st: s2, .. } => done(
                        seq![BackendOp::Label(l_start)] + o1 + seq![BackendOp::FreeAll] + o2 + seq![
                            BackendOp::FreeAll,
                            BackendOp::Jump(l_start),
                            BackendOp::Label(l_end),
                        ],
                        false,
                        s2,
                    ),
                },
            }
        },
        _ => Gen::Fail,
    }
}

/// Two statements in order, registers freed after each.
pub open spec fn spec_gen_glue(t: AstV, st: GenState) -> Gen
    decreases ast_size(t), 0nat,
{
    match t {
        AstNodeG::Glue { left, right } => match spec_gen(*left, false, false, 0, st) {
            Gen::Fail => Gen::Fail,
            Gen::Done { ops: o1, st: s1, .. } => match spec_gen(*right, false, false, 0, s1) {
                Gen::Fail => Gen::Fail,
                Gen::Done { ops: o2, st: s2, .. } => done(
                    o1 + seq![BackendOp::FreeAll] + o2 + seq![BackendOp::FreeAll],
                    false,
                    s2,
                ),
            },
        },
        _ => Gen::Fail,
    }
}

/// A function: its preamble, a fresh end label recorded in the symbol table,
/// the body and the postamble at the end label.
pub open spec fn spec_gen_function(t: AstV, st: GenState) -> Gen
    decreases ast_size(t), 0nat,
{
    match t {
        AstNodeG::Function { name, body } => match *name {
            AstNodeG::Ident { id, .. } => if st.last_label == usize::MAX {
                Gen::Fail
            } else {
                let end = (st.last_label + 1) as usize;
                match find_first(st.syms, id.name) {
                    Some(i) => if st.syms[i].stype == (StructuralType::Function { end_label: None }) {
                        let s1 = GenState {
                            last_label: end,
                            syms: st.syms.update(i, with_end_label(st.syms[i], end)),
                        };
                        match spec_gen(*body, false, false, 0, s1) {
                            Gen::Fail => Gen::Fail,
                            Gen::Done { ops, st: s2, .. } => done(
                                seq![BackendOp::FuncPreamble(id.name)] + ops + seq![BackendOp::FuncPostamble(end)],
                                false,
                                s2,
                            ),
                        }
                    } else {
                        Gen::Fail
                    },
                    None => Gen::Fail,
                }
            },
            _ => Gen::Fail,
        },
        _ => Gen::Fail,
    }
}

/// A call: the argument, then the call.
pub open spec fn spec_gen_call(t: AstV, st: GenState) -> Gen
    decreases ast_size(t), 0nat,
{
    match t {
        AstNodeG::FuncCall { id, left, .. } => match spec_gen(*left, false, false, 0, st) {
            Gen::Fail => Gen::Fail,
            Gen::Done { ops, reg, st: s1 } => if reg {
                done(ops + seq![BackendOp::Call(id.name)], true, s1)
            } else {
                Gen::Fail
            },
        },
        _ => Gen::Fail,
    }
}

/// A return: the value, then a jump to the end label of the function.
pub open spec fn spec_gen_return(t: AstV, st: GenState) -> Gen
    decreases ast_size(t), 0nat,
{
    match t {
        AstNodeG::Return { id, expr } => match find_first(st.syms, id.name) {
            Some(i) => match st.syms[i].stype {
                StructuralType::Function { end_label: Some(l) } => match spec_gen(*expr, false, false, 0, st) {
                    Gen::Fail => Gen::Fail,
                    Gen::Done { ops, reg, st: s1 } => if reg {
                        done(ops + seq![BackendOp::Ret(st.syms[i].dtype, l)], false, s1)
                    } else {
                        Gen::Fail
                    },
                },
                _ => Gen::Fail,
            },
            None => Gen::Fail,
        },
        _ => Gen::Fail,
    }
}


/// The requests from `before` to `after` ended with one that the back end
/// refused.
pub open spec fn ended_refused(before: Seq<BackendOp>, after: Seq<BackendOp>) -> bool {
    after.len() > before.len() && after.last() == BackendOp::Refused
}

/// `after` is `before` with more entries at the end.
pub open spec fn extends<T>(before: Seq<T>, after: Seq<T>) -> bool {
    before.len() <= after.len() && forall|i: int| 0 <= i < before.len() ==> #[trigger] after[i] == before[i]
}

/// The register in which the requests `uses[start .. start + len]` left
/// their value: that of the last of them.
pub open spec fn walk_result<R>(uses: Seq<RegUse<R>>, start: int, len: int) -> Option<R> {
    if len > 0 {
        uses[start + len - 1].result
    } else {
        None
    }
}

/// The request right after the walks over `left` and then `right` (from state
/// `st`, their requests recorded from entry `start` of `uses` on) was handed
/// the register holding `left`'s value, then the one holding `right`'s.
pub open spec fn operands_in_order<R>(left: AstV, right: AstV, st: GenState, start: int, uses: Seq<RegUse<R>>) -> bool {
    match spec_gen(left, false, false, 0, st) {
        Gen::Done { ops: o1, reg: r1, st: s1 } => match spec_gen(right, r1, false, 0, s1) {
            Gen::Done { ops: o2, .. } => {
                let k = start + o1.len() + o2.len();
                match (walk_result(uses, start, o1.len() as int), walk_result(uses, start + o1.len(), o2.len() as int)) {
                    (Some(a), Some(b)) => 0 <= k < uses.len() && uses[k].args == seq![a, b],
                    _ => false,
                }
            },
            Gen::Fail => true,
        },
        Gen::Fail => true,
    }
}

/// The last request of the walk over `target`, made after the walk over
/// `value` with the register holding `value`'s value handed in, was handed
/// that register.
pub open spec fn stored_from<R>(value: AstV, target: AstV, st: GenState, start: int, uses: Seq<RegUse<R>>) -> bool {
    match spec_gen(value, false, false, 0, st) {
        Gen::Done { ops: o1, reg: r1, st: s1 } => match spec_gen(target, r1, false, 0, s1) {
            Gen::Done { ops: o2, .. } => {
                let k = start + o1.len() + o2.len() - 1;
                match walk_result(uses, start, o1.len() as int) {
                    Some(a) => o2.len() > 0 && 0 <= k < uses.len() && uses[k].args == seq![a],
                    None => false,
                }
            },
            Gen::Fail => true,
        },
        Gen::Fail => true,
    }
}

/// The request right after the walk over `arg` was handed the register
/// holding `arg`'s value.
pub open spec fn arg_in_register<R>(arg: AstV, st: GenState, start: int, uses: Seq<RegUse<R>>) -> bool {
    match spec_gen(arg, false, false, 0, st) {
        Gen::Done { ops, .. } => {
            let k = start + ops.len();
            match walk_result(uses, start, ops.len() as int) {
                Some(a) => 0 <= k < uses.len() && uses[k].args == seq![a],
                None => false,
            }
        },
        Gen::Fail => true,
    }
}

/// Which registers the requests for the root of `t` were handed, as recorded
/// from entry `start` of `uses` on: a binary node combines its left operand's
/// register with its right one's, in that order; an assignment stores the
/// value's register; a call and a return hand on the argument's register; an
/// l-value stores the register `r` it was given.
pub open spec fn root_registers<R>(t: AstV, r: Option<R>, st: GenState, start: int, uses: Seq<RegUse<R>>) -> bool {
    match t {
        AstNodeG::Add { left, right, .. } => operands_in_order(*left, *right, st, start, uses),
        AstNodeG::Subtract { left, right, .. } => operands_in_order(*left, *right, st, start, uses),
        AstNodeG::Multiply { left, right, .. } => operands_in_order(*left, *right, st, start, uses),
        AstNodeG::Divide { left, right, .. } => operands_in_order(*left, *right, st, start, uses),
        AstNodeG::Equal { left, right, .. } => operands_in_order(*left, *right, st, start, uses),
        AstNodeG::NotEqual { left, right, .. } => operands_in_order(*left, *right, st, start, uses),
        AstNodeG::LessThan { left, right, .. } => operands_in_order(*left, *right, st, start, uses),
        AstNodeG::GreaterThan { left, right, .. } => operands_in_order(*left, *right, st, start, uses),
        AstNodeG::LessThanOrEqual { left, right, .. } => operands_in_order(*left, *right, st, start, uses),
        AstNodeG::GreaterThanOrEqual { left, right, .. } => operands_in_order(*left, *right, st, start, uses),
        AstNodeG::Assign { id, expr } => *id is LvIdent ==> stored_from(*expr, *id, st, start, uses),
        AstNodeG::FuncCall { left, .. } => arg_in_register(*left, st, start, uses),
        AstNodeG::Return { expr, .. } => arg_in_register(*expr, st, start, uses),
        AstNodeG::LvIdent { .. } => r matches Some(x) ==> 0 <= start < uses.len() && uses[start].args == seq![x],
        _ => true,
    }
}

/// Registers at every node of `t`, walked from state `st` with the register
/// `r` handed in and its requests recorded from entry `start` of `uses` on:
/// each node's requests were handed the registers that `root_registers`
/// names, its operands' walks in turn.
pub open spec fn regs_ok<R>(t: AstV, r: Option<R>, st: GenState, start: int, uses: Seq<RegUse<R>>) -> bool {
    root_registers(t, r, st, start, uses) && children_regs_ok(t, st, start, uses)
}

/// `regs_ok` for the operands and statements below the root of `t`, each walk
/// at the entry where its requests begin: for each of them, `root_registers`
/// and `children_regs_ok` in turn.
#[verifier::opaque]
pub open spec fn children_regs_ok<R>(t: AstV, st: GenState, start: int, uses: Seq<RegUse<R>>) -> bool
    decreases ast_size(t), 1nat,
{
    match t {
        AstNodeG::Add { left, right, .. } => pair_regs_ok(*left, *right, st, start, uses),
        AstNodeG::Subtract { left, right, .. } => pair_regs_ok(*left, *right, st, start, uses),
        AstNodeG::Multiply { left, right, .. } => pair_regs_ok(*left, *right, st, start, uses),
        AstNodeG::Divide { left, right, .. } => pair_regs_ok(*left, *right, st, start, uses),
        AstNodeG::Equal { left, right, .. } => pair_regs_ok(*left, *right, st, start, uses),
        AstNodeG::NotEqual { left, right, .. } => pair_regs_ok(*left, *right, st, start, uses),
        AstNodeG::LessThan { left, right, .. } => pair_regs_ok(*left, *right, st, start, uses),
        AstNodeG::GreaterThan { left, right, .. } => pair_regs_ok(*left, *right, st, start, uses),
        AstNodeG::LessThanOrEqual { left, right, .. } => pair_regs_ok(*left, *right, st, start, uses),
        AstNodeG::GreaterThanOrEqual { left, right, .. } => pair_regs_ok(*left, *right, st, start, uses),
        AstNodeG::Assign { id, expr } => pair_regs_ok(*expr, *id, st, start, uses),
        AstNodeG::FuncCall { left, .. } => (root_registers(*left, None, st, start, uses) && children_regs_ok(*left, st, start, uses)),
        AstNodeG::Return { expr, .. } => (root_registers(*expr, None, st, start, uses) && children_regs_ok(*expr, st, start, uses)),
        AstNodeG::Glue { left, right } => match spec_gen(*left, false, false, 0, st) {
            Gen::Done { ops: o1, st: s1, .. } => (root_registers(*left, None, st, start, uses) && children_regs_ok(*left, st, start, uses)) && (root_registers(*right, None, s1, start + o1.len() + 1, uses) && children_regs_ok(*right, s1, start + o1.len() + 1, uses)),
            Gen::Fail => true,
        },
        AstNodeG::While { cond, body } => if st.last_label + 2 > usize::MAX {
            true
        } else {
            let l_end = (st.last_label + 2) as usize;
            let s0 = GenState { last_label: l_end, syms: st.syms };
            match spec_gen(*cond, false, true, l_end, s0) {
                Gen::Done { ops: o1, st: s1, .. } => (root_registers(*cond, None, s0, start + 1, uses) && children_regs_ok(*cond, s0, start + 1, uses)) && (root_registers(*body, None, s1, start + 1 + o1.len() + 1, uses) && children_regs_ok(*body, s1, start + 1 + o1.len() + 1, uses)),
                Gen::Fail => true,
            }
        },
        AstNodeG::If { cond, branch_t, branch_f } => {
            let needed: int = if branch_f is Some { 2 } else { 1 };
            if st.last_label + needed > usize::MAX {
                true
            } else {
                let l_false = (st.last_label + 1) as usize;
                let s0 = GenState { last_label: (st.last_label + needed) as usize, syms: st.syms };
                match spec_gen(*cond, false, true, l_false, s0) {
                    Gen::Done { ops: o1, st: s1, .. } => (root_registers(*cond, None, s0, start, uses) && children_regs_ok(*cond, s0, start, uses)) && match spec_gen(
                        *branch_t,
                        false,
                        true,
                        0,
                        s1,
                    ) {
                        Gen::Done { ops: o2, st: s2, .. } => (root_registers(*branch_t, None, s1, start + o1.len() + 1, uses) && children_regs_ok(*branch_t, s1, start + o1.len() + 1, uses))
                            && match branch_f {
                            Some(f) => (root_registers(*f, None, s2, start + o1.len() + o2.len() + 4, uses) && children_regs_ok(*f, s2, start + o1.len() + o2.len() + 4, uses)),
                            None => true,
                        },
                        Gen::Fail => true,
                    },
                    Gen::Fail => true,
                }
            }
        },
        AstNodeG::Function { name, body } => match *name {
            AstNodeG::Ident { id, .. } => if st.last_label == usize::MAX {
                true
            } else {
                let end = (st.last_label + 1) as usize;
                match find_first(st.syms, id.name) {
                    Some(i) => {
                        let s1 = GenState {
                            last_label: end,
                            syms: st.syms.update(i, with_end_label(st.syms[i], end)),
                        };
                        (root_registers(*body, None, s1, start + 1, uses) && children_regs_ok(*body, s1, start + 1, uses))
                    },
                    None => true,
                }
            },
            _ => true,
        },
        _ => true,
    }
}

/// `regs_ok` for the two operand walks of a binary node: the right one is
/// handed the register of the left one, if it left a value.
#[verifier::opaque]
pub open spec fn pair_regs_ok<R>(left: AstV, right: AstV, st: GenState, start: int, uses: Seq<RegUse<R>>) -> bool
    decreases ast_size(left) + ast_size(right), 0nat,
{
    match spec_gen(left, false, false, 0, st) {
        Gen::Done { ops: o1, reg: r1, st: s1 } => (root_registers(left, None, st, start, uses) && children_regs_ok(left, st, start, uses)) && (root_registers(right, if r1 {
                walk_result(uses, start, o1.len() as int)
            } else {
                None
            }, s1, start + o1.len(), uses) && children_regs_ok(right, s1, start + o1.len(), uses)),
        Gen::Fail => true,
    }
}

/// Requests recorded after a walk leave what `root_registers` says of it as
/// it was.
pub proof fn lemma_root_registers_stable<R>(
    t: AstV,
    r: Option<R>,
    has: bool,
    branch: bool,
    label: usize,
    st: GenState,
    start: int,
    uses: Seq<RegUse<R>>,
    later: Seq<RegUse<R>>,
)
    requires
        root_registers(t, r, st, start, uses),
        spec_gen(t, has, branch, label, st) matches Gen::Done { ops, .. } && 0 <= start && start
            + ops.len() <= uses.len(),
        extends(uses, later),
    ensures
        root_registers(t, r, st, start, later),
{
}

/// Requests recorded after a walk leave what `regs_ok` says of it as it was.
#[verifier::rlimit(100)]
#[verifier::spinoff_prover]
pub proof fn lemma_regs_ok_stable<R>(
    t: AstV,
    r: Option<R>,
    has: bool,
    branch: bool,
    label: usize,
    st: GenState,
    start: int,
    uses: Seq<RegUse<R>>,
    later: Seq<RegUse<R>>,
)
    requires
        regs_ok(t, r, st, start, uses),
        spec_gen(t, has, branch, label, st) matches Gen::Done { ops, .. } && 0 <= start && start
            + ops.len() <= uses.len(),
        extends(uses, later),
    ensures
        regs_ok(t, r, st, start, later),
    decreases ast_size(t), 1nat,
{
    reveal(children_regs_ok);
    lemma_root_registers_stable(t, r, has, branch, label, st, start, uses, later);
    match t {
        AstNodeG::Add { left, right, .. } => lemma_pair_regs_ok_stable(*left, *right, Step::Emit(BackendOp::Add, true), st, start, uses, later),
        AstNodeG::Subtract { left, right, .. } => lemma_pair_regs_ok_stable(*left, *right, Step::Emit(BackendOp::Sub, true), st, start, uses, later),
        AstNodeG::Multiply { left, right, .. } => lemma_pair_regs_ok_stable(*left, *right, Step::Emit(BackendOp::Mul, true), st, start, uses, later),
        AstNodeG::Divide { left, right, .. } => lemma_pair_regs_ok_stable(*left, *right, Step::Emit(BackendOp::Div, true), st, start, uses, later),
        AstNodeG::Equal { left, right, .. } => lemma_pair_regs_ok_stable(*left, *right, compare_step(t, branch, label), st, start, uses, later),
        AstNodeG::NotEqual { left, right, .. } => lemma_pair_regs_ok_stable(*left, *right, compare_step(t, branch, label), st, start, uses, later),
        AstNodeG::LessThan { left, right, .. } => lemma_pair_regs_ok_stable(*left, *right, compare_step(t, branch, label), st, start, uses, later),
        AstNodeG::GreaterThan { left, right, .. } => lemma_pair_regs_ok_stable(*left, *right, compare_step(t, branch, label), st, start, uses, later),
        AstNodeG::LessThanOrEqual { left, right, .. } => lemma_pair_regs_ok_stable(*left, *right, compare_step(t, branch, label), st, start, uses, later),
        AstNodeG::GreaterThanOrEqual { left, right, .. } => lemma_pair_regs_ok_stable(*left, *right, compare_step(t, branch, label), st, start, uses, later),
        AstNodeG::Assign { id, expr } => lemma_pair_regs_ok_stable(*expr, *id, Step::TakeRight, st, start, uses, later),
        AstNodeG::FuncCall { left, .. } => {
            lemma_regs_ok_stable(*left, None, false, false, 0, st, start, uses, later);
        },
        AstNodeG::Return { expr, .. } => {
            lemma_regs_ok_stable(*expr, None, false, false, 0, st, start, uses, later);
        },
        AstNodeG::Glue { .. } => lemma_glue_regs_stable(t, r, st, start, uses, later),
        AstNodeG::While { .. } => lemma_while_regs_stable(t, r, st, start, uses, later),
        AstNodeG::If { .. } => lemma_if_regs_stable(t, r, st, start, uses, later),
        AstNodeG::Function { .. } => lemma_function_regs_stable(t, r, st, start, uses, later),
        _ => {},
    }
}

/// `lemma_regs_ok_stable` for the operand walks of a binary node.
#[verifier::rlimit(100)]
#[verifier::spinoff_prover]
pub proof fn lemma_pair_regs_ok_stable<R>(
    left: AstV,
    right: AstV,
    step: Step,
    st: GenState,
    start: int,
    uses: Seq<RegUse<R>>,
    later: Seq<RegUse<R>>,
)
    requires
        pair_regs_ok(left, right, st, start, uses),
        spec_binary(left, right, step, st) matches Gen::Done { ops, .. } && 0 <= start && start + ops.len()
            <= uses.len(),
        extends(uses, later),
    ensures
        pair_regs_ok(left, right, st, start, later),
    decreases ast_size(left) + ast_size(right), 0nat,
{
    reveal(pair_regs_ok);
    lemma_ast_size_pos(left);
    lemma_ast_size_pos(right);
    if let Gen::Done { ops: o1, reg: r1, st: s1 } = spec_gen(left, false, false, 0, st) {
        if let Gen::Done { ops: o2, .. } = spec_gen(right, r1, false, 0, s1) {
            lemma_regs_ok_stable(left, None, false, false, 0, st, start, uses, later);
            let ru = if r1 { walk_result(uses, start, o1.len() as int) } else { None };
            let rl = if r1 { walk_result(later, start, o1.len() as int) } else { None };
            assert(ru == rl);
            lemma_regs_ok_stable(right, ru, r1, false, 0, s1, start + o1.len(), uses, later);
        }
    }
}

/// `lemma_regs_ok_stable` for a sequence of two statements.
#[verifier::rlimit(100)]
#[verifier::spinoff_prover]
pub proof fn lemma_glue_regs_stable<R>(t: AstV, r: Option<R>, st: GenState, start: int, uses: Seq<RegUse<R>>, later: Seq<RegUse<R>>)
    requires
        t is Glue,
        regs_ok(t, r, st, start, uses),
        spec_gen_glue(t, st) matches Gen::Done { ops, .. } && 0 <= start && start + ops.len() <= uses.len(),
        extends(uses, later),
    ensures
        regs_ok(t, r, st, start, later),
    decreases ast_size(t), 0nat,
{
    reveal(children_regs_ok);
    if let AstNodeG::Glue { left, right } = t {
        if let Gen::Done { ops: o1, st: s1, .. } = spec_gen(*left, false, false, 0, st) {
            lemma_regs_ok_stable(*left, None, false, false, 0, st, start, uses, later);
            lemma_regs_ok_stable(*right, None, false, false, 0, s1, start + o1.len() + 1, uses, later);
        }
    }
}

/// `lemma_regs_ok_stable` for a `while` loop.
#[verifier::rlimit(100)]
#[verifier::spinoff_prover]
pub proof fn lemma_while_regs_stable<R>(t: AstV, r: Option<R>, st: GenState, start: int, uses: Seq<RegUse<R>>, later: Seq<RegUse<R>>)
    requires
        t is While,
        regs_ok(t, r, st, start, uses),
        spec_gen_while(t, st) matches Gen::Done { ops, .. } && 0 <= start && start + ops.len() <= uses.len(),
        extends(uses, later),
    ensures
        regs_ok(t, r, st, start, later),
    decreases ast_size(t), 0nat,
{
    reveal(children_regs_ok);
    if let AstNodeG::While { cond, body } = t {
        let l_end = (st.last_label + 2) as usize;
        let s0 = GenState { last_label: l_end, syms: st.syms };
        if let Gen::Done { ops: o1, st: s1, .. } = spec_gen(*cond, false, true, l_end, s0) {
            lemma_regs_ok_stable(*cond, None, false, true, l_end, s0, start + 1, uses, later);
            lemma_regs_ok_stable(*body, None, false, true, 0, s1, start + 1 + o1.len() + 1, uses, later);
        }
    }
}

/// `lemma_regs_ok_stable` for an `if` statement.
#[verifier::rlimit(100)]
#[verifier::spinoff_prover]
pub proof fn lemma_if_regs_stable<R>(t: AstV, r: Option<R>, st: GenState, start: int, uses: Seq<RegUse<R>>, later: Seq<RegUse<R>>)
    requires
        t is If,
        regs_ok(t, r, st, start, uses),
        spec_gen_if(t, st) matches Gen::Done { ops, .. } && 0 <= start && start + ops.len() <= uses.len(),
        extends(uses, later),
    ensures
        regs_ok(t, r, st, start, later),
    decreases ast_size(t), 0nat,
{
    reveal(children_regs_ok);
    if let AstNodeG::If { cond, branch_t, branch_f } = t {
        let needed: int = if branch_f is Some { 2 } else { 1 };
        let l_false = (st.last_label + 1) as usize;
        let s0 = GenState { last_label: (st.last_label + needed) as usize, syms: st.syms };
        if let Gen::Done { ops: o1, st: s1, .. } = spec_gen(*cond, false, true, l_false, s0) {
            lemma_regs_ok_stable(*cond, None, false, true, l_false, s0, start, uses, later);
            if let Gen::Done { ops: o2, st: s2, .. } = spec_gen(*branch_t, false, true, 0, s1) {
                lemma_regs_ok_stable(*branch_t, None, false, true, 0, s1, start + o1.len() + 1, uses, later);
                if let Some(f) = branch_f {
                    lemma_regs_ok_stable(*f, None, false, true, 0, s2, start + o1.len() + o2.len() + 4, uses, later);
                }
            }
        }
    }
}

/// `lemma_regs_ok_stable` for a function.
#[verifier::rlimit(100)]
#[verifier::spinoff_prover]
pub proof fn lemma_function_regs_stable<R>(t: AstV, r: Option<R>, st: GenState, start: int, uses: Seq<RegUse<R>>, later: Seq<RegUse<R>>)
    requires
        t is Function,
        regs_ok(t, r, st, start, uses),
        spec_gen_function(t, st) matches Gen::Done { ops, .. } && 0 <= start && start + ops.len() <= uses.len(),
        extends(uses, later),
    ensures
        regs_ok(t, r, st, start, later),
    decreases ast_size(t), 0nat,
{
    reveal(children_regs_ok);
    if let AstNodeG::Function { name, body } = t {
        if let AstNodeG::Ident { id, .. } = *name {
            let end = (st.last_label + 1) as usize;
            if let Some(i) = find_first(st.syms, id.name) {
                let s1 = GenState { last_label: end, syms: st.syms.update(i, with_end_label(st.syms[i], end)) };
                lemma_regs_ok_stable(*body, None, false, false, 0, s1, start + 1, uses, later);
            }
        }
    }
}

/// An error that code generation itself reports: a tree it cannot translate,
/// or no label number left.
pub open spec fn generation_error(e: CompileError) -> bool {
    e.kind == ErrorKind::InvalidTree || e.kind == ErrorKind::LabelOverflow
}

/// The requests that declaring the globals `s` makes, in order.
pub open spec fn glob_ops(s: Seq<SymbolEntryV>) -> Seq<BackendOp> {
    s.map_values(|e: SymbolEntryV| BackendOp::GlobSym(e.name, e.dtype))
}

/// Every tree has at least one node.
pub proof fn lemma_ast_size_pos(t: AstV)
    ensures
        ast_size(t) >= 1,
{
}

/// The view keeps which comparison a node makes.
pub proof fn lemma_view_comparison(n: AstNode)
    ensures
        comparison_of(n@) == comparison_of(n),
{
}

/// Whether `parent_op` is an `if` or a `while`.
pub open spec fn branch_parent(parent_op: Option<&AstNode>) -> bool {
    match parent_op {
        Some(p) => p.spec_is_branching_stmt(),
        None => false,
    }
}

/// What a binary node does once both operands are in registers.
pub enum BinaryStep {
    Add,
    Sub,
    Mul,
    Div,
    CompareSet,
    CompareJump,
    TakeRight,
}

pub open spec fn step_of(step: BinaryStep, op: AstV, label: usize) -> Step {
    match step {
        BinaryStep::Add => Step::Emit(BackendOp::Add, true),
        BinaryStep::Sub => Step::Emit(BackendOp::Sub, true),
        BinaryStep::Mul => Step::Emit(BackendOp::Mul, true),
        BinaryStep::Div => Step::Emit(BackendOp::Div, true),
        BinaryStep::CompareSet => Step::Emit(BackendOp::CompareSet(comparison_of(op)), true),
        BinaryStep::CompareJump => Step::Emit(BackendOp::CompareJump(comparison_of(op), label), false),
        BinaryStep::TakeRight => Step::TakeRight,
    }
}

fn invalid_tree() -> (e: CompileError)
    ensures
        e.kind == ErrorKind::InvalidTree,
{
    CompileError::new(ErrorKind::InvalidTree, 0)
}

/// Walks ASTs and drives a back end; hands out fresh labels.
pub struct CodeGenerator<B: CodeBackend> {
    backend: B,
    symbols: SymbolTable,
    last_label: usize,
}

impl<B: CodeBackend> CodeGenerator<B> {
    pub closed spec fn spec_last_label(&self) -> usize {
        self.last_label
    }

    pub closed spec fn spec_backend(&self) -> B {
        self.backend
    }

    pub closed spec fn spec_symbols(&self) -> SymbolTable {
        self.symbols
    }

    /// The state that the code specifications speak of.
    pub open spec fn gen_state(&self) -> GenState {
        GenState { last_label: self.spec_last_label(), syms: self.spec_symbols()@ }
    }

    /// `self` is what `before` became after a walk that was expected to give
    /// `g`: a walk that cannot be translated fails, with an invalid tree or a
    /// label overflow unless the back end refused a request first; one that
    /// can be translated fails only where the back end refused a request, and
    /// else made exactly `g`'s requests, left a value in a register as `g`
    /// says, and reached `g`'s state.
    pub open spec fn generated(self, before: Self, g: Gen, res: Result<Option<B::Reg>, CompileError>) -> bool {
        &&& before.spec_backend().in_sync() ==> self.spec_backend().in_sync()
        &&& g is Fail ==> res is Err
        &&& res matches Err(e) ==> (g is Fail && generation_error(e)) || ended_refused(
            before.spec_backend().ops(),
            self.spec_backend().ops(),
        )
        &&& res matches Ok(o) ==> (g matches Gen::Done { ops, reg, st } && self.spec_backend().ops()
            =~= before.spec_backend().ops() + ops && o.is_some() == reg && self.gen_state() == st
            && self.spec_backend().reg_uses().len() == before.spec_backend().reg_uses().len() + ops.len()
            && extends(before.spec_backend().reg_uses(), self.spec_backend().reg_uses())
            && (o matches Some(r) ==> ops.len() > 0 && self.spec_backend().reg_uses().last().result == Some(r)))
    }

    /// A generator for `backend` that uses a copy of `symbols`; no label handed out yet.
    pub fn new(backend: B, symbols: &SymbolTable) -> (cg: Self)
        ensures
            cg.spec_backend() == backend,
            cg.spec_symbols()@ == symbols@,
            cg.spec_last_label() == 0,
    {
        CodeGenerator { backend, symbols: symbols.duplicate(), last_label: 0 }
    }

    /// The back end, with what it emitted so far.
    pub fn backend(&self) -> (r: &B)
        ensures
            *r == self.spec_backend(),
    {
        &self.backend
    }

    /// The generator's copy of the symbol table.
    pub fn symbols(&self) -> (r: &SymbolTable)
        ensures
            *r == self.spec_symbols(),
    {
        &self.symbols
    }

    /// The generator's back end, taken out.
    pub fn into_backend(self) -> (r: B)
        ensures
            r == self.spec_backend(),
    {
        self.backend
    }

    /// A fresh label: one more than the last one.
    pub fn label(&mut self) -> (r: usize)
        requires
            old(self).spec_last_label() < usize::MAX,
        ensures
            r == old(self).spec_last_label() + 1,
            final(self).spec_last_label() == r,
            final(self).spec_backend() == old(self).spec_backend(),
            final(self).spec_symbols() == old(self).spec_symbols(),
    {
        self.last_label = self.last_label + 1;
        self.last_label
    }

    /// The last label handed out.
    pub fn get_last_label(&self) -> (r: usize)
        ensures
            r == self.spec_last_label(),
    {
        self.last_label
    }

    /// Both operands of `op`, the left one first, then `step`.
    #[verifier::rlimit(100)]
    #[verifier::spinoff_prover]
    fn binary(&mut self, op: &AstNode, left: &AstNode, right: &AstNode, step: BinaryStep, label: usize) -> (res: Result<Option<B::Reg>, CompileError>)
        requires
            !op.spec_is_branching_stmt(),
            (step is CompareSet || step is CompareJump) ==> op.spec_is_comparison(),
        ensures
            final(self).generated(
                *old(self),
                spec_binary(left@, right@, step_of(step, op@, label), old(self).gen_state()),
                res,
            ),
            res is Ok ==> match step {
                BinaryStep::TakeRight => right@ is LvIdent ==> stored_from(
                    left@,
                    right@,
                    old(self).gen_state(),
                    old(self).spec_backend().reg_uses().len() as int,
                    final(self).spec_backend().reg_uses(),
                ),
                _ => operands_in_order(
                    left@,
                    right@,
                    old(self).gen_state(),
                    old(self).spec_backend().reg_uses().len() as int,
                    final(self).spec_backend().reg_uses(),
                ),
            },
            res is Ok ==> pair_regs_ok(
                left@,
                right@,
                old(self).gen_state(),
                old(self).spec_backend().reg_uses().len() as int,
                final(self).spec_backend().reg_uses(),
            ),
        decreases ast_size(left@) + ast_size(right@), 0nat,
    {
        proof {
            lemma_ast_size_pos(left@);
            lemma_ast_size_pos(right@);
            lemma_view_comparison(*op);
        }
        let ghost st0 = self.gen_state();
        let ghost n0 = self.backend.reg_uses().len() as int;
        let left_reg = self.gen_ast(left, None, Some(op), 0)?;
        let ghost u1 = self.backend.reg_uses();
        let ghost s1 = self.gen_state();
        let right_reg = self.gen_ast(right, left_reg, Some(op), 0)?;
        let ghost u2 = self.backend.reg_uses();
        proof {
            if let Gen::Done { ops: o1, reg: r1, st: s1x } = spec_gen(left@, false, false, 0, st0) {
                assert forall|later: Seq<RegUse<B::Reg>>| extends(u2, later) implies #[trigger] pair_regs_ok(
                    left@,
                    right@,
                    st0,
                    n0,
                    later,
                ) by {
                    lemma_regs_ok_stable(left@, None, false, false, 0, st0, n0, u1, later);
                    let rl = if r1 { walk_result(later, n0, o1.len() as int) } else { None };
                    assert(rl == left_reg);
                    lemma_regs_ok_stable(right@, left_reg, r1, false, 0, s1, n0 + o1.len(), u2, later);
                    reveal(pair_regs_ok);
                }
            }
        }
        match (left_reg, right_reg) {
            (Some(lr), Some(rr)) => match step {
                BinaryStep::Add => self.backend.add(lr, rr),
                BinaryStep::Sub => self.backend.sub(lr, rr),
                BinaryStep::Mul => self.backend.mul(lr, rr),
                BinaryStep::Div => self.backend.div(lr, rr),
                BinaryStep::CompareSet => self.backend.compare_and_set(op, lr, rr),
                BinaryStep::CompareJump => self.backend.compare_and_jump(op, lr, rr, label),
                BinaryStep::TakeRight => Ok(Some(rr)),
            },
            _ => Err(invalid_tree()),
        }
    }

    /// A call: the argument, then the call.
    #[verifier::rlimit(60)]
    #[verifier::spinoff_prover]
    fn gen_func_call(&mut self, tree: &AstNode) -> (res: Result<Option<B::Reg>, CompileError>)
        ensures
            final(self).generated(*old(self), spec_gen_call(tree@, old(self).gen_state()), res),
            res is Ok ==> children_regs_ok(
                tree@,
                old(self).gen_state(),
                old(self).spec_backend().reg_uses().len() as int,
                final(self).spec_backend().reg_uses(),
            ),
            res is Ok ==> root_registers(
                tree@,
                None,
                old(self).gen_state(),
                old(self).spec_backend().reg_uses().len() as int,
                final(self).spec_backend().reg_uses(),
            ),
        decreases ast_size(tree@), 0nat,
    {
        match tree {
            AstNodeG::FuncCall { id, left, .. } => {
                let ghost st0 = self.gen_state();
                let ghost n0 = self.backend.reg_uses().len() as int;
                let reg = match self.gen_ast(left, None, Some(tree), 0)? {
                    Some(r) => r,
                    None => return Err(invalid_tree()),
                };
                let ghost u1 = self.backend.reg_uses();
                let res = self.backend.call(reg, id.name.as_str());
                proof {
                    if res is Ok {
                        let uses = self.backend.reg_uses();
                        lemma_regs_ok_stable(left@, None, false, false, 0, st0, n0, u1, uses);
                        assert(children_regs_ok(tree@, st0, n0, uses)) by {
                        reveal(children_regs_ok);
                    }
                    }
                }
                res
            },
            _ => Err(invalid_tree()),
        }
    }

    /// A return: the value, then a jump to the end label of the function.
    #[verifier::rlimit(60)]
    #[verifier::spinoff_prover]
    fn gen_return(&mut self, tree: &AstNode) -> (res: Result<Option<B::Reg>, CompileError>)
        ensures
            final(self).generated(*old(self), spec_gen_return(tree@, old(self).gen_state()), res),
            res is Ok ==> children_regs_ok(
                tree@,
                old(self).gen_state(),
                old(self).spec_backend().reg_uses().len() as int,
                final(self).spec_backend().reg_uses(),
            ),
            res is Ok ==> root_registers(
                tree@,
                None,
                old(self).gen_state(),
                old(self).spec_backend().reg_uses().len() as int,
                final(self).spec_backend().reg_uses(),
            ),
        decreases ast_size(tree@), 0nat,
    {
        match tree {
            AstNodeG::Return { id, expr } => {
                let name = id.name.as_str();
                let known = match self.symbols.find_glob(name) {
                    Some(sym) => match sym.stype {
                        StructuralType::Function { end_label: Some(_) } => true,
                        _ => false,
                    },
                    None => false,
                };
                if !known {
                    return Err(invalid_tree());
                }
                let label_num = self.symbols.get_fn_end_label(name);
                let dtype = self.symbols.get_fn_dtype(name);
                let ghost st0 = self.gen_state();
                let ghost n0 = self.backend.reg_uses().len() as int;
                let reg = match self.gen_ast(expr, None, Some(tree), 0)? {
                    Some(r) => r,
                    None => return Err(invalid_tree()),
                };
                let ghost u1 = self.backend.reg_uses();
                self.backend.ret(reg, dtype, label_num)?;
                proof {
                    let uses = self.backend.reg_uses();
                    lemma_regs_ok_stable(expr@, None, false, false, 0, st0, n0, u1, uses);
                    assert(children_regs_ok(tree@, st0, n0, uses)) by {
                        reveal(children_regs_ok);
                    }
                }
                Ok(None)
            },
            _ => Err(invalid_tree()),
        }
    }

    /// `if`: the condition jumps to the false label; the true branch jumps
    /// past the false branch when there is one.
    #[verifier::rlimit(60)]
    #[verifier::spinoff_prover]
    pub fn gen_if(&mut self, tree: &AstNode) -> (res: Result<Option<B::Reg>, CompileError>)
        ensures
            final(self).generated(*old(self), spec_gen_if(tree@, old(self).gen_state()), res),
            res is Ok ==> children_regs_ok(
                tree@,
                old(self).gen_state(),
                old(self).spec_backend().reg_uses().len() as int,
                final(self).spec_backend().reg_uses(),
            ),
        decreases ast_size(tree@), 0nat,
    {
        match tree {
            AstNodeG::If { cond, branch_t, branch_f } => {
                let has_else = branch_f.is_some();
                let needed: usize = if has_else {
                    2
                } else {
                    1
                };
                if self.last_label > usize::MAX - needed {
                    return Err(CompileError::new(ErrorKind::LabelOverflow, 0));
                }
                let l_false = self.label();
                let l_end = if has_else {
                    self.label()
                } else {
                    0
                };
                let ghost s0 = self.gen_state();
                let ghost n0 = self.backend.reg_uses().len() as int;
                self.gen_ast(cond, None, Some(tree), l_false)?;
                let ghost u1 = self.backend.reg_uses();
                let ghost s1 = self.gen_state();
                self.backend.free_all_registers()?;
                let ghost n2 = self.backend.reg_uses().len() as int;
                self.gen_ast(branch_t, None, Some(tree), 0)?;
                let ghost u3 = self.backend.reg_uses();
                let ghost s2 = self.gen_state();
                self.backend.free_all_registers()?;
                if has_else {
                    self.backend.jump(l_end)?;
                }
                self.backend.label(l_false)?;
                let ghost n4 = self.backend.reg_uses().len() as int;
                let ghost mut u5 = self.backend.reg_uses();
                match branch_f {
                    Some(f) => {
                        self.gen_ast(f, None, Some(tree), 0)?;
                        proof {
                            u5 = self.backend.reg_uses();
                        }
                        self.backend.free_all_registers()?;
                        self.backend.label(l_end)?;
                    },
                    None => {},
                }
                proof {
                    let uses = self.backend.reg_uses();
                    lemma_regs_ok_stable(cond@, None, false, true, l_false, s0, n0, u1, uses);
                    lemma_regs_ok_stable(branch_t@, None, false, true, 0, s1, n2, u3, uses);
                    if let Some(f) = branch_f {
                        lemma_regs_ok_stable(f@, None, false, true, 0, s2, n4, u5, uses);
                    }
                    if let Gen::Done { ops: o1, st: s1x, .. } = spec_gen(cond@, false, true, l_false, s0) {
                        assert(s1x == s1);
                        assert(n2 == n0 + o1.len() + 1);
                        if let Gen::Done { ops: o2, st: s2x, .. } = spec_gen(branch_t@, false, true, 0, s1) {
                            assert(s2x == s2);
                            assert(has_else ==> n4 == n0 + o1.len() + o2.len() + 4);
                        }
                    }
                    assert(children_regs_ok(tree@, old(self).gen_state(), n0, uses)) by {
                        reveal(children_regs_ok);
                    }
                }
                Ok(None)
            },
            _ => Err(invalid_tree()),
        }
    }

    /// `while`: a start label, the condition jumping to the end label, the
    /// body and a jump back.
    #[verifier::rlimit(60)]
    #[verifier::spinoff_prover]
    pub fn gen_while(&mut self, tree: &AstNode) -> (res: Result<Option<B::Reg>, CompileError>)
        ensures
            final(self).generated(*old(self), spec_gen_while(tree@, old(self).gen_state()), res),
            res is Ok ==> children_regs_ok(
                tree@,
                old(self).gen_state(),
                old(self).spec_backend().reg_uses().len() as int,
                final(self).spec_backend().reg_uses(),
            ),
        decreases ast_size(tree@), 0nat,
    {
        match tree {
            AstNodeG::While { cond, body } => {
                if self.last_label > usize::MAX - 2 {
                    return Err(CompileError::new(ErrorKind::LabelOverflow, 0));
                }
                let l_start = self.label();
                let l_end = self.label();
                self.backend.label(l_start)?;
                let ghost s0 = self.gen_state();
                let ghost n1 = self.backend.reg_uses().len() as int;
                self.gen_ast(cond, None, Some(tree), l_end)?;
                let ghost u1 = self.backend.reg_uses();
                let ghost s1 = self.gen_state();
                self.backend.free_all_registers()?;
                let ghost n2 = self.backend.reg_uses().len() as int;
                self.gen_ast(body, None, Some(tree), 0)?;
                let ghost u3 = self.backend.reg_uses();
                self.backend.free_all_registers()?;
                self.backend.jump(l_start)?;
                self.backend.label(l_end)?;
                proof {
                    let uses = self.backend.reg_uses();
                    lemma_regs_ok_stable(cond@, None, false, true, l_end, s0, n1, u1, uses);
                    lemma_regs_ok_stable(body@, None, false, true, 0, s1, n2, u3, uses);
                    if let Gen::Done { ops: o1, st: s1x, .. } = spec_gen(cond@, false, true, l_end, s0) {
                        assert(s1x == s1);
                        assert(n2 == n1 + o1.len() + 1);
                    }
                    assert(children_regs_ok(tree@, old(self).gen_state(), old(self).spec_backend().reg_uses().len() as int, uses)) by {
                        reveal(children_regs_ok);
                    }
                }
                Ok(None)
            },
            _ => Err(invalid_tree()),
        }
    }

    /// Two statements in order, registers freed after each.
    #[verifier::rlimit(60)]
    #[verifier::spinoff_prover]
    pub fn gen_glue_ast(&mut self, tree: &AstNode) -> (res: Result<Option<B::Reg>, CompileError>)
        ensures
            final(self).generated(*old(self), spec_gen_glue(tree@, old(self).gen_state()), res),
            res is Ok ==> children_regs_ok(
                tree@,
                old(self).gen_state(),
                old(self).spec_backend().reg_uses().len() as int,
                final(self).spec_backend().reg_uses(),
            ),
        decreases ast_size(tree@), 0nat,
    {
        match tree {
            AstNodeG::Glue { left, right } => {
                let ghost st0 = self.gen_state();
                let ghost n0 = self.backend.reg_uses().len() as int;
                self.gen_ast(left, None, Some(tree), 0)?;
                let ghost u1 = self.backend.reg_uses();
                let ghost s1 = self.gen_state();
                self.backend.free_all_registers()?;
                let ghost n2 = self.backend.reg_uses().len() as int;
                self.gen_ast(right, None, Some(tree), 0)?;
                let ghost u3 = self.backend.reg_uses();
                self.backend.free_all_registers()?;
                proof {
                    let uses = self.backend.reg_uses();
                    lemma_regs_ok_stable(left@, None, false, false, 0, st0, n0, u1, uses);
                    lemma_regs_ok_stable(right@, None, false, false, 0, s1, n2, u3, uses);
                    if let Gen::Done { ops: o1, st: s1x, .. } = spec_gen(left@, false, false, 0, st0) {
                        assert(s1x == s1);
                        assert(n2 == n0 + o1.len() + 1);
                    }
                    assert(children_regs_ok(tree@, st0, n0, uses)) by {
                        reveal(children_regs_ok);
                    }
                }
                Ok(None)
            },
            _ => Err(invalid_tree()),
        }
    }

    /// A function: its preamble, a fresh end label recorded in the symbol
    /// table, the body and the postamble at the end label.
    #[verifier::rlimit(60)]
    #[verifier::spinoff_prover]
    pub fn gen_function(&mut self, tree: &AstNode) -> (res: Result<Option<B::Reg>, CompileError>)
        ensures
            final(self).generated(*old(self), spec_gen_function(tree@, old(self).gen_state()), res),
            res is Ok ==> children_regs_ok(
                tree@,
                old(self).gen_state(),
                old(self).spec_backend().reg_uses().len() as int,
                final(self).spec_backend().reg_uses(),
            ),
        decreases ast_size(tree@), 0nat,
    {
        match tree {
            AstNodeG::Function { name, body } => {
                let ident = match &**name {
                    AstNodeG::Ident { id, dtype } => {
                        assert((**name)@ == (AstNodeG::Ident::<Seq<char>> {
                            id: crate::ast::IdentifierG { name: id.name@ },
                            dtype: *dtype,
                        }));
                        id.name.as_str()
                    },
                    _ => return Err(invalid_tree()),
                };
                self.backend.func_preamble(ident)?;
                if self.last_label == usize::MAX {
                    return Err(CompileError::new(ErrorKind::LabelOverflow, 0));
                }
                let end_label = self.label();
                let fresh = match self.symbols.find_glob(ident) {
                    Some(sym) => sym.stype == (StructuralType::Function { end_label: None }),
                    None => false,
                };
                if !fresh {
                    return Err(invalid_tree());
                }
                self.symbols.set_fn_end_label(ident, end_label);
                let ghost s1 = self.gen_state();
                let ghost n1 = self.backend.reg_uses().len() as int;
                self.gen_ast(body, None, Some(tree), 0)?;
                let ghost u2 = self.backend.reg_uses();
                self.backend.func_postamble(end_label)?;
                proof {
                    let uses = self.backend.reg_uses();
                    lemma_regs_ok_stable(body@, None, false, false, 0, s1, n1, u2, uses);
                    assert(children_regs_ok(tree@, old(self).gen_state(), old(self).spec_backend().reg_uses().len() as int, uses)) by {
                        reveal(children_regs_ok);
                    }
                }
                Ok(None)
            },
            _ => Err(invalid_tree()),
        }
    }

    /// Code for `tree`. `r` is the register that an l-value stores; under an
    /// `if` or `while` parent a comparison jumps to `label` when it fails.
    #[verifier::rlimit(100)]
    #[verifier::spinoff_prover]
    pub fn gen_ast(&mut self, tree: &AstNode, r: Option<B::Reg>, parent_op: Option<&AstNode>, label: usize) -> (res: Result<Option<B::Reg>, CompileError>)
        ensures
            final(self).generated(
                *old(self),
                spec_gen(tree@, r is Some, branch_parent(parent_op), label, old(self).gen_state()),
                res,
            ),
            res is Ok ==> regs_ok(
                tree@,
                r,
                old(self).gen_state(),
                old(self).spec_backend().reg_uses().len() as int,
                final(self).spec_backend().reg_uses(),
            ),
        decreases ast_size(tree@), 1nat,
    {
        let branch = match parent_op {
            Some(p) => p.is_branching_stmt(),
            None => false,
        };
        let ghost st0 = self.gen_state();
        let ghost n0 = self.backend.reg_uses().len() as int;
        let res = match tree {
            AstNodeG::Empty => Ok(None),
            AstNodeG::Function { .. } => self.gen_function(tree),
            AstNodeG::If { .. } => self.gen_if(tree),
            AstNodeG::While { .. } => self.gen_while(tree),
            AstNodeG::Glue { .. } => self.gen_glue_ast(tree),
            AstNodeG::Add { left, right, .. } => self.binary(tree, left, right, BinaryStep::Add, label),
            AstNodeG::Subtract { left, right, .. } => self.binary(tree, left, right, BinaryStep::Sub, label),
            AstNodeG::Multiply { left, right, .. } => self.binary(tree, left, right, BinaryStep::Mul, label),
            AstNodeG::Divide { left, right, .. } => self.binary(tree, left, right, BinaryStep::Div, label),
            AstNodeG::Equal { left, right, .. }
            | AstNodeG::NotEqual { left, right, .. }
            | AstNodeG::LessThan { left, right, .. }
            | AstNodeG::GreaterThan { left, right, .. }
            | AstNodeG::LessThanOrEqual { left, right, .. }
            | AstNodeG::GreaterThanOrEqual { left, right, .. } => {
                if branch {
                    self.binary(tree, left, right, BinaryStep::CompareJump, label)
                } else {
                    self.binary(tree, left, right, BinaryStep::CompareSet, label)
                }
            },
            AstNodeG::IntLit { val, .. } => Ok(Some(self.backend.load_int(*val)?)),
            AstNodeG::Ident { id, dtype } => Ok(Some(self.backend.load_glob(id.name.as_str(), *dtype)?)),
            AstNodeG::LvIdent { id, dtype } => match r {
                Some(reg) => Ok(Some(self.backend.store_glob(reg, id.name.as_str(), *dtype)?)),
                None => Err(invalid_tree()),
            },
            AstNodeG::Assign { id, expr } => self.binary(tree, expr, id, BinaryStep::TakeRight, label),
            AstNodeG::GlobalDec { .. } => Ok(None),
            AstNodeG::FuncCall { .. } => self.gen_func_call(tree),
            AstNodeG::Return { .. } => self.gen_return(tree),
            _ => Err(invalid_tree()),
        };
        proof {
            if res is Ok {
                assert(children_regs_ok(tree@, st0, n0, self.backend.reg_uses())) by {
                        reveal(children_regs_ok);
                    }
            }
        }
        res
    }

    /// The back end's preamble, then every global variable in table order.
    pub fn gen_preamble(&mut self) -> (res: Result<(), CompileError>)
        ensures
            res is Ok ==> final(self).spec_backend().ops() == old(self).spec_backend().ops().push(
                BackendOp::Preamble,
            ) + glob_ops(filtered(old(self).spec_symbols()@, EntryFilter::Variables)),
            res is Err ==> ended_refused(old(self).spec_backend().ops(), final(self).spec_backend().ops()),
            old(self).spec_backend().in_sync() ==> final(self).spec_backend().in_sync(),
            final(self).gen_state() == old(self).gen_state(),
    {
        self.backend.preamble()?;
        let ghost base = self.backend.ops();
        let ghost all = filtered(self.symbols@, EntryFilter::Variables);
        let mut it = self.symbols.iter_global_vars();
        loop
            invariant
                it.wf(),
                it.remaining().len() <= all.len(),
                it.remaining() == all.skip(all.len() - it.remaining().len()),
                self.backend.ops() == base + glob_ops(all.take(all.len() - it.remaining().len())),
                self.gen_state() == old(self).gen_state(),
                base == old(self).spec_backend().ops().push(BackendOp::Preamble),
                all == filtered(old(self).spec_symbols()@, EntryFilter::Variables),
                old(self).spec_backend().in_sync() ==> self.backend.in_sync(),
            ensures
                self.backend.ops() == base + glob_ops(all),
                self.gen_state() == old(self).gen_state(),
                old(self).spec_backend().in_sync() ==> self.backend.in_sync(),
            decreases it.remaining().len(),
        {
            let ghost k = all.len() - it.remaining().len();
            match it.next() {
                None => {
                    assert(all.take(all.len() as int) =~= all);
                    break;
                },
                Some(sym) => {
                    let ghost before = self.backend.ops();
                    self.backend.glob_sym(sym.name.as_str(), sym.dtype)?;
                    assert(all[k] == sym@);
                    assert(glob_ops(all.take(k + 1)) =~= glob_ops(all.take(k)).push(
                        BackendOp::GlobSym(sym.name@, sym.dtype),
                    ));
                    assert(it.remaining() =~= all.skip(k + 1));
                },
            }
        }
        Ok(())
    }

    /// Free every register of the back end.
    pub fn gen_freeregs(&mut self) -> (res: Result<(), CompileError>)
        ensures
            res is Ok ==> final(self).spec_backend().ops() == old(self).spec_backend().ops().push(
                BackendOp::FreeAll,
            ),
            res is Err ==> final(self).spec_backend().ops() == old(self).spec_backend().ops().push(
                BackendOp::Refused,
            ),
            old(self).spec_backend().in_sync() ==> final(self).spec_backend().in_sync(),
            final(self).gen_state() == old(self).gen_state(),
    {
        self.backend.free_all_registers()
    }

    /// The size of `dtype` on the back end.
    pub fn type_size(&self, dtype: PrimType) -> (r: usize)
        ensures
            r == self.spec_backend().spec_type_size(dtype),
    {
        self.backend.type_size(dtype)
    }
}


/// Code for a list of functions, in order.
pub open spec fn gen_all(fns: Seq<AstV>, st: GenState) -> Gen
    decreases fns.len(),
{
    if fns.len() == 0 {
        done(seq![], false, st)
    } else {
        match gen_all(fns.drop_last(), st) {
            Gen::Fail => Gen::Fail,
            Gen::Done { ops: o1, st: s1, .. } => match spec_gen(fns.last(), false, false, 0, s1) {
                Gen::Fail => Gen::Fail,
                Gen::Done { ops: o2, st: s2, .. } => done(o1 + o2, false, s2),
            },
        }
    }
}

/// A list of functions whose first `k` cannot all be translated cannot be
/// translated as a whole.
pub proof fn lemma_gen_all_fail_prefix(fns: Seq<AstV>, k: int, st: GenState)
    requires
        0 <= k <= fns.len(),
        gen_all(fns.take(k), st) is Fail,
    ensures
        gen_all(fns, st) is Fail,
    decreases fns.len(),
{
    if k == fns.len() {
        assert(fns.take(k) =~= fns);
    } else {
        assert(fns.drop_last().take(k) =~= fns.take(k));
        lemma_gen_all_fail_prefix(fns.drop_last(), k, st);
    }
}

} // verus!
