//! The grammar of the language as specifications: what the expression and
//! statement parsers return, and in which state they leave scanner, symbol
//! table and function context, for every input.
use vstd::prelude::*;
use crate::ast::{AstNodeG, AstV, IdentifierG, is_binop_token, spec_make_binary};
use crate::error::{CompileError, ErrorKind};
use crate::expr::{Compatibility, TypeSizes};
use crate::scan::{
    line_at, scan_step, spec_expect, spec_ident, spec_is_eof, spec_maybe_token, ScanState,
    TokenTypeG, TokenTypeV, TokenV,
};
use crate::sym::{find_first, PrimType, StructuralType, SymbolEntryG, SymbolEntryV};

verus! {

/// Everything the parser reads and changes: the scanner, the global symbols
/// and the stack of functions being parsed.
pub struct PState {
    pub scan: ScanState,
    pub syms: Seq<SymbolEntryV>,
    pub funcs: Seq<SymbolEntryV>,
}

pub type PRes<T> = (Result<T, CompileError>, PState);

pub open spec fn with_scan(st: PState, s: ScanState) -> PState {
    PState { scan: s, syms: st.syms, funcs: st.funcs }
}

/// A measure that every consumed token makes smaller.
pub open spec fn meas(inp: Seq<u8>, st: PState) -> nat {
    ((if 0 <= st.scan.lpos <= inp.len() {
        2 * (inp.len() - st.scan.lpos)
    } else {
        0int
    }) + (if st.scan.pb is Some {
        1int
    } else {
        0int
    })) as nat
}

/// The state after `st` is smaller than `st`.
pub open spec fn progress(inp: Seq<u8>, after: PState, before: PState) -> bool {
    meas(inp, after) < meas(inp, before)
}

/// A scanner state that the scanner can be in.
pub open spec fn scan_ok(inp: Seq<u8>, s: ScanState) -> bool {
    0 <= s.lpos <= s.pos <= inp.len() && s.pos <= s.lpos + 1 && inp.len() < usize::MAX
}

pub open spec fn line_now(inp: Seq<u8>, st: PState) -> usize {
    line_at(inp, st.scan.pos)
}

pub open spec fn err<T>(kind: ErrorKind, line: usize, st: PState) -> PRes<T> {
    (Err(CompileError { kind, line }), st)
}

/// The result of a branch that the measure rules out.
pub open spec fn unreachable<T>(st: PState) -> PRes<T> {
    (Err(CompileError { kind: ErrorKind::SyntaxError, line: 0 }), st)
}

pub open spec fn p_scan(inp: Seq<u8>, st: PState) -> PRes<Option<TokenV>> {
    let (r, s2) = scan_step(inp, st.scan);
    (r, with_scan(st, s2))
}

pub open spec fn p_maybe(inp: Seq<u8>, st: PState, tt: TokenTypeV) -> PRes<bool> {
    let (r, s2) = spec_maybe_token(inp, st.scan, tt);
    (r, with_scan(st, s2))
}

pub open spec fn p_expect(inp: Seq<u8>, st: PState, tt: TokenTypeV) -> PRes<TokenV> {
    let (r, s2) = spec_expect(inp, st.scan, tt);
    (r, with_scan(st, s2))
}

pub open spec fn p_ident(inp: Seq<u8>, st: PState) -> PRes<Seq<char>> {
    let (r, s2) = spec_ident(inp, st.scan);
    (r, with_scan(st, s2))
}

pub open spec fn p_putback(st: PState, t: TokenV) -> PState {
    with_scan(st, ScanState { pb: Some(t), lpos: st.scan.lpos, pos: st.scan.pos })
}

pub open spec fn size_of(sz: TypeSizes, t: PrimType) -> usize {
    match t {
        PrimType::Char => sz.char_size,
        PrimType::Int => sz.int_size,
        PrimType::Long => sz.long_size,
        PrimType::Void => sz.void_size,
        PrimType::CharPtr => sz.char_ptr_size,
        PrimType::IntPtr => sz.int_ptr_size,
        PrimType::LongPtr => sz.long_ptr_size,
        PrimType::VoidPtr => sz.void_ptr_size,
    }
}

/// Whether two types can meet in one expression, and which side widens.
/// With `only_right`, only the left side may be widened.
pub open spec fn spec_type_compatibility(sz: TypeSizes, left: PrimType, right: PrimType, only_right: bool) -> Compatibility {
    let sl = size_of(sz, left);
    let sr = size_of(sz, right);
    if left == right {
        Compatibility::Compatible(left)
    } else if sl == 0 || sr == 0 {
        Compatibility::Incompatible
    } else if sl < sr {
        Compatibility::WidenLeft(right)
    } else if sr < sl {
        if only_right {
            Compatibility::Incompatible
        } else {
            Compatibility::WidenRight(left)
        }
    } else {
        Compatibility::Compatible(left)
    }
}

/// Binding strength of the binary operators.
pub open spec fn op_prec<S>(t: TokenTypeG<S>) -> int {
    match t {
        TokenTypeG::Plus | TokenTypeG::Minus => 10,
        TokenTypeG::Star | TokenTypeG::Slash => 20,
        TokenTypeG::EQ | TokenTypeG::NE => 30,
        _ => 40,
    }
}

/// The type of an integer literal: `char` when it fits in 0..256, else `int`.
pub open spec fn literal_type(v: i64) -> PrimType {
    if 0 <= v < 256 {
        PrimType::Char
    } else {
        PrimType::Int
    }
}

pub open spec fn sym_dtype(syms: Seq<SymbolEntryV>, i: int) -> PrimType {
    syms[i].dtype
}

// ---------------------------------------------------------------------------
// Expressions.
// ---------------------------------------------------------------------------

/// `binexpr(ptp)`: a prefix expression followed by binary operators that bind
/// more strongly than `ptp`, folded to the left.
pub open spec fn sp_binexpr(inp: Seq<u8>, sz: TypeSizes, st: PState, ptp: int) -> PRes<AstV>
    decreases meas(inp, st), 3nat,
{
    let (r, st1) = sp_prefix(inp, sz, st);
    match r {
        Err(e) => (Err(e), st1),
        Ok(left) => if progress(inp, st1, st) {
            sp_binexpr_loop(inp, sz, st1, left, ptp)
        } else {
            unreachable(st1)
        },
    }
}

/// The operator loop of `binexpr`, with `left` parsed so far.
pub open spec fn sp_binexpr_loop(inp: Seq<u8>, sz: TypeSizes, st: PState, left: AstV, ptp: int) -> PRes<AstV>
    decreases meas(inp, st), 2nat,
{
    let (r, st1) = p_scan(inp, st);
    match r {
        Err(e) => (Err(e), st1),
        Ok(None) => (Ok(left), st1),
        Ok(Some(tok)) => if !is_binop_token(tok.ttype) || op_prec(tok.ttype) <= ptp {
            (Ok(left), p_putback(st1, tok))
        } else if !progress(inp, st1, st) {
            unreachable(st1)
        } else {
            let (rr, st2) = sp_binexpr(inp, sz, st1, op_prec(tok.ttype));
            match rr {
                Err(e) => (Err(e), st2),
                Ok(right) => match spec_combine(sz, tok, left, right) {
                    Err(e) => (Err(e), st2),
                    Ok(n) => if progress(inp, st2, st) {
                        sp_binexpr_loop(inp, sz, st2, n, ptp)
                    } else {
                        unreachable(st2)
                    },
                },
            }
        },
    }
}

/// The node that operator `tok` builds from `left` and `right`: the narrower
/// operand is widened to the wider type; an operand without a type, or a
/// `void` one, is an error.
pub open spec fn spec_combine(sz: TypeSizes, tok: TokenV, left: AstV, right: AstV) -> Result<AstV, CompileError> {
    let compat = match (left.spec_get_type(), right.spec_get_type()) {
        (Some(lt), Some(rt)) => spec_type_compatibility(sz, lt, rt, false),
        _ => Compatibility::Incompatible,
    };
    match compat {
        Compatibility::Incompatible => Err(
            CompileError { kind: ErrorKind::IncompatibleTypes, line: tok.line },
        ),
        Compatibility::WidenLeft(t) => if left.can_retype() {
            Ok(spec_make_binary(tok.ttype, left.spec_new_type(t), right, t))
        } else {
            Err(CompileError { kind: ErrorKind::CantChangeType, line: tok.line })
        },
        Compatibility::WidenRight(t) => if right.can_retype() {
            Ok(spec_make_binary(tok.ttype, left, right.spec_new_type(t), t))
        } else {
            Err(CompileError { kind: ErrorKind::CantChangeType, line: tok.line })
        },
        Compatibility::Compatible(t) => Ok(spec_make_binary(tok.ttype, left, right, t)),
    }
}

/// `prefix`: `&` and `*` applied to a prefix expression, or a primary expression.
pub open spec fn sp_prefix(inp: Seq<u8>, sz: TypeSizes, st: PState) -> PRes<AstV>
    decreases meas(inp, st), 2nat,
{
    let (r, st1) = p_scan(inp, st);
    match r {
        Err(e) => (Err(e), st1),
        Ok(None) => err(ErrorKind::UnexpectedEof, line_now(inp, st1), st1),
        Ok(Some(tok)) => match tok.ttype {
            TokenTypeG::Amper => if !progress(inp, st1, st) {
                unreachable(st1)
            } else {
                let (r2, st2) = sp_prefix(inp, sz, st1);
                match r2 {
                    Err(e) => (Err(e), st2),
                    Ok(n) => match n {
                        AstNodeG::Ident { id, dtype } => if dtype.is_pointer() {
                            err(ErrorKind::PointerToPointer, line_now(inp, st2), st2)
                        } else {
                            (Ok(AstNodeG::Addr { id, dtype: dtype.spec_pointer_to() }), st2)
                        },
                        _ => err(ErrorKind::AddressOfNonIdentifier, line_now(inp, st2), st2),
                    },
                }
            },
            TokenTypeG::Star => if !progress(inp, st1, st) {
                unreachable(st1)
            } else {
                let (r2, st2) = sp_prefix(inp, sz, st1);
                match r2 {
                    Err(e) => (Err(e), st2),
                    Ok(n) => if !(n is Ident || n is Deref) {
                        err(ErrorKind::DerefOfNonIdentifier, line_now(inp, st2), st2)
                    } else if !n.spec_get_type().unwrap().is_pointer() {
                        err(ErrorKind::DerefOfNonPointer, line_now(inp, st2), st2)
                    } else {
                        (
                            Ok(AstNodeG::Deref {
                                inner: Box::new(n),
                                dtype: n.spec_get_type().unwrap().spec_value_at(),
                            }),
                            st2,
                        )
                    },
                }
            },
            _ => if meas(inp, p_putback(st1, tok)) <= meas(inp, st) {
                sp_primary(inp, sz, p_putback(st1, tok))
            } else {
                unreachable(st1)
            },
        },
    }
}

/// `primary`: an integer literal, a variable, or a function call.
pub open spec fn sp_primary(inp: Seq<u8>, sz: TypeSizes, st: PState) -> PRes<AstV>
    decreases meas(inp, st), 1nat,
{
    let (r, st1) = p_scan(inp, st);
    match r {
        Err(e) => (Err(e), st1),
        Ok(None) => err(ErrorKind::UnexpectedEof, line_now(inp, st1), st1),
        Ok(Some(tok)) => match tok.ttype {
            TokenTypeG::IntLit(v) => (Ok(AstNodeG::IntLit { val: v, dtype: literal_type(v) }), st1),
            TokenTypeG::Ident(name) => {
                let (m, st2) = p_maybe(inp, st1, TokenTypeG::LeftParen);
                match m {
                    Err(e) => (Err(e), st2),
                    Ok(true) => if progress(inp, st2, st) {
                        sp_function_call(inp, sz, st2, name, tok.line)
                    } else {
                        unreachable(st2)
                    },
                    Ok(false) => match find_first(st2.syms, name) {
                        Some(i) => (
                            Ok(AstNodeG::Ident { id: IdentifierG { name }, dtype: sym_dtype(st2.syms, i) }),
                            st2,
                        ),
                        None => err(ErrorKind::UnknownVariable, tok.line, st2),
                    },
                }
            },
            _ => err(ErrorKind::SyntaxError, tok.line, st1),
        },
    }
}

/// `function_call`: the argument and `)` of a call of `name`, whose `(` was read.
pub open spec fn sp_function_call(inp: Seq<u8>, sz: TypeSizes, st: PState, name: Seq<char>, line: usize) -> PRes<AstV>
    decreases meas(inp, st), 4nat,
{
    match find_first(st.syms, name) {
        None => err(ErrorKind::UndeclaredFunction, line, st),
        Some(i) => {
            let (r, st1) = sp_binexpr(inp, sz, st, 0);
            match r {
                Err(e) => (Err(e), st1),
                Ok(e) => {
                    let (r2, st2) = p_expect(inp, st1, TokenTypeG::RightParen);
                    match r2 {
                        Err(er) => (Err(er), st2),
                        Ok(_) => (
                            Ok(AstNodeG::FuncCall {
                                id: IdentifierG { name },
                                dtype: sym_dtype(st.syms, i),
                                left: Box::new(e),
                            }),
                            st2,
                        ),
                    }
                },
            }
        },
    }
}


// ---------------------------------------------------------------------------
// Each scanner step keeps the state in range and never makes the measure grow;
// a consumed token makes it shrink.
// ---------------------------------------------------------------------------

pub proof fn lemma_p_scan(inp: Seq<u8>, st: PState)
    requires
        scan_ok(inp, st.scan),
    ensures
        ({
            let (r, st2) = p_scan(inp, st);
            &&& r is Ok ==> scan_ok(inp, st2.scan)
            &&& r is Ok ==> st2.syms == st.syms && st2.funcs == st.funcs
            &&& r matches Ok(Some(t)) ==> progress(inp, st2, st) && meas(inp, p_putback(st2, t))
                <= meas(inp, st)
            &&& r matches Ok(None) ==> meas(inp, st2) <= meas(inp, st)
        }),
{
    crate::scan::lemma_lex_progress(inp, st.scan.lpos);
    crate::scan::lemma_skip_ws_bounds(inp, st.scan.lpos);
}

pub proof fn lemma_p_maybe(inp: Seq<u8>, st: PState, tt: TokenTypeV)
    requires
        scan_ok(inp, st.scan),
    ensures
        ({
            let (r, st2) = p_maybe(inp, st, tt);
            &&& r is Ok ==> scan_ok(inp, st2.scan) && st2.syms == st.syms && st2.funcs == st.funcs
            &&& r == Ok::<bool, CompileError>(true) ==> progress(inp, st2, st)
            &&& r == Ok::<bool, CompileError>(false) ==> meas(inp, st2) <= meas(inp, st)
        }),
{
    lemma_p_scan(inp, st);
}

pub proof fn lemma_p_expect(inp: Seq<u8>, st: PState, tt: TokenTypeV)
    requires
        scan_ok(inp, st.scan),
    ensures
        ({
            let (r, st2) = p_expect(inp, st, tt);
            r is Ok ==> scan_ok(inp, st2.scan) && st2.syms == st.syms && st2.funcs == st.funcs
                && progress(inp, st2, st)
        }),
{
    lemma_p_scan(inp, st);
}

pub proof fn lemma_p_ident(inp: Seq<u8>, st: PState)
    requires
        scan_ok(inp, st.scan),
    ensures
        ({
            let (r, st2) = p_ident(inp, st);
            r is Ok ==> scan_ok(inp, st2.scan) && st2.syms == st.syms && st2.funcs == st.funcs
                && progress(inp, st2, st)
        }),
{
    lemma_p_scan(inp, st);
}


/// A successful parse leaves the scanner in range and the symbols and the
/// function stack as they were; with `strict` it also consumed input.
pub open spec fn expr_ok<T>(inp: Seq<u8>, res: PRes<T>, st: PState, strict: bool) -> bool {
    res.0 is Ok ==> {
        &&& scan_ok(inp, res.1.scan)
        &&& res.1.syms == st.syms
        &&& res.1.funcs == st.funcs
        &&& if strict {
            meas(inp, res.1) < meas(inp, st)
        } else {
            meas(inp, res.1) <= meas(inp, st)
        }
    }
}

pub proof fn lemma_binexpr_ok(inp: Seq<u8>, sz: TypeSizes, st: PState, ptp: int)
    requires
        scan_ok(inp, st.scan),
    ensures
        expr_ok(inp, sp_binexpr(inp, sz, st, ptp), st, true),
    decreases meas(inp, st), 3nat,
{
    lemma_prefix_ok(inp, sz, st);
    let (r, st1) = sp_prefix(inp, sz, st);
    if r is Ok && progress(inp, st1, st) {
        lemma_binexpr_loop_ok(inp, sz, st1, r->Ok_0, ptp);
    }
}

pub proof fn lemma_binexpr_loop_ok(inp: Seq<u8>, sz: TypeSizes, st: PState, left: AstV, ptp: int)
    requires
        scan_ok(inp, st.scan),
    ensures
        expr_ok(inp, sp_binexpr_loop(inp, sz, st, left, ptp), st, false),
    decreases meas(inp, st), 2nat,
{
    lemma_p_scan(inp, st);
    let (r, st1) = p_scan(inp, st);
    if let Ok(Some(tok)) = r {
        if is_binop_token(tok.ttype) && op_prec(tok.ttype) > ptp && progress(inp, st1, st) {
            lemma_binexpr_ok(inp, sz, st1, op_prec(tok.ttype));
            let (rr, st2) = sp_binexpr(inp, sz, st1, op_prec(tok.ttype));
            if let Ok(right) = rr {
                if let Ok(n) = spec_combine(sz, tok, left, right) {
                    if progress(inp, st2, st) {
                        lemma_binexpr_loop_ok(inp, sz, st2, n, ptp);
                    }
                }
            }
        }
    }
}

pub proof fn lemma_prefix_ok(inp: Seq<u8>, sz: TypeSizes, st: PState)
    requires
        scan_ok(inp, st.scan),
    ensures
        expr_ok(inp, sp_prefix(inp, sz, st), st, true),
    decreases meas(inp, st), 2nat,
{
    lemma_p_scan(inp, st);
    let (r, st1) = p_scan(inp, st);
    if let Ok(Some(tok)) = r {
        if tok.ttype is Amper || tok.ttype is Star {
            if progress(inp, st1, st) {
                lemma_prefix_ok(inp, sz, st1);
            }
        } else if meas(inp, p_putback(st1, tok)) <= meas(inp, st) {
            lemma_primary_ok(inp, sz, p_putback(st1, tok));
        }
    }
}

pub proof fn lemma_primary_ok(inp: Seq<u8>, sz: TypeSizes, st: PState)
    requires
        scan_ok(inp, st.scan),
    ensures
        expr_ok(inp, sp_primary(inp, sz, st), st, true),
    decreases meas(inp, st), 1nat,
{
    lemma_p_scan(inp, st);
    let (r, st1) = p_scan(inp, st);
    if let Ok(Some(tok)) = r {
        if let TokenTypeG::Ident(name) = tok.ttype {
            lemma_p_maybe(inp, st1, TokenTypeG::LeftParen);
            let (m, st2) = p_maybe(inp, st1, TokenTypeG::LeftParen);
            if m == Ok::<bool, CompileError>(true) && progress(inp, st2, st) {
                lemma_function_call_ok(inp, sz, st2, name, tok.line);
            }
        }
    }
}

pub proof fn lemma_function_call_ok(inp: Seq<u8>, sz: TypeSizes, st: PState, name: Seq<char>, line: usize)
    requires
        scan_ok(inp, st.scan),
    ensures
        expr_ok(inp, sp_function_call(inp, sz, st, name, line), st, true),
    decreases meas(inp, st), 4nat,
{
    if find_first(st.syms, name) is Some {
        lemma_binexpr_ok(inp, sz, st, 0);
        let (r, st1) = sp_binexpr(inp, sz, st, 0);
        if r is Ok {
            lemma_p_expect(inp, st1, TokenTypeG::RightParen);
        }
    }
}


// ---------------------------------------------------------------------------
// Statements.
// ---------------------------------------------------------------------------

pub open spec fn p_is_eof(inp: Seq<u8>, st: PState) -> (bool, PState) {
    let (b, s2) = spec_is_eof(inp, st.scan);
    (b, with_scan(st, s2))
}

/// The state with `e` added at the end of the symbol table.
pub open spec fn add_sym(st: PState, e: SymbolEntryV) -> PState {
    PState { scan: st.scan, syms: st.syms.push(e), funcs: st.funcs }
}

/// `expr` made to fit a target of type `target`: kept if the types agree,
/// widened if it is the narrower one; `incompat` if it is wider or `void`.
pub open spec fn spec_widen(sz: TypeSizes, expr: AstV, target: PrimType, incompat: ErrorKind, line: usize) -> Result<AstV, CompileError> {
    match expr.spec_get_type() {
        None => Err(CompileError { kind: ErrorKind::InvalidTree, line }),
        Some(t) => match spec_type_compatibility(sz, t, target, true) {
            Compatibility::Compatible(_) => Ok(expr),
            Compatibility::WidenLeft(w) => if expr.can_retype() {
                Ok(expr.spec_new_type(w))
            } else {
                Err(CompileError { kind: ErrorKind::CantChangeType, line })
            },
            _ => Err(CompileError { kind: incompat, line }),
        },
    }
}

/// `condition`: an expression, which must be a comparison.
pub open spec fn sp_condition(inp: Seq<u8>, sz: TypeSizes, st: PState) -> PRes<AstV> {
    let (r, st1) = sp_binexpr(inp, sz, st, 0);
    match r {
        Err(e) => (Err(e), st1),
        Ok(t) => if t.spec_is_comparison() {
            (Ok(t), st1)
        } else {
            err(ErrorKind::BadComparison, line_now(inp, st1), st1)
        },
    }
}

/// The stars after a type keyword: each makes the type a pointer to it.
pub open spec fn sp_stars(inp: Seq<u8>, st: PState, dtype: PrimType) -> PRes<PrimType>
    decreases meas(inp, st),
{
    let (m, st1) = p_maybe(inp, st, TokenTypeG::Star);
    match m {
        Err(e) => (Err(e), st1),
        Ok(false) => (Ok(dtype), st1),
        Ok(true) => if dtype.is_pointer() {
            err(ErrorKind::PointerToPointer, line_now(inp, st1), st1)
        } else if progress(inp, st1, st) {
            sp_stars(inp, st1, dtype.spec_pointer_to())
        } else {
            unreachable(st1)
        },
    }
}

/// A variable declaration after its type keyword `tt`: stars and a name; the
/// variable joins the symbol table.
pub open spec fn sp_var_declaration(inp: Seq<u8>, st: PState, tt: TokenTypeV) -> PRes<AstV> {
    let (r, st1) = sp_stars(inp, st, PrimType::spec_from_token(tt));
    match r {
        Err(e) => (Err(e), st1),
        Ok(dtype) => {
            let (ri, st2) = p_ident(inp, st1);
            match ri {
                Err(e) => (Err(e), st2),
                Ok(name) => (
                    Ok(AstNodeG::GlobalDec { id: IdentifierG { name }, dtype }),
                    add_sym(st2, SymbolEntryG { name, dtype, stype: StructuralType::Variable }),
                ),
            }
        },
    }
}

/// An assignment to `name`, whose `=` was read.
pub open spec fn sp_assignment(inp: Seq<u8>, sz: TypeSizes, st: PState, name: Seq<char>) -> PRes<AstV> {
    match find_first(st.syms, name) {
        None => err(ErrorKind::UndeclaredVariable, line_now(inp, st), st),
        Some(i) => {
            let dtype = st.syms[i].dtype;
            let (r, st1) = sp_binexpr(inp, sz, st, -1);
            match r {
                Err(e) => (Err(e), st1),
                Ok(e) => match spec_widen(sz, e, dtype, ErrorKind::IncompatibleTypes, line_now(inp, st1)) {
                    Err(er) => (Err(er), st1),
                    Ok(e2) => (
                        Ok(AstNodeG::Assign {
                            id: Box::new(AstNodeG::LvIdent { id: IdentifierG { name }, dtype }),
                            expr: Box::new(e2),
                        }),
                        st1,
                    ),
                },
            }
        },
    }
}

/// `return`, whose keyword was read: a value in parentheses, which must fit the
/// type of the function being parsed.
pub open spec fn sp_return(inp: Seq<u8>, sz: TypeSizes, st: PState) -> PRes<AstV> {
    if st.funcs.len() == 0 {
        err(ErrorKind::ReturnOutsideFunction, line_now(inp, st), st)
    } else if st.funcs.last().dtype == PrimType::Void {
        err(ErrorKind::ReturnFromVoid, line_now(inp, st), st)
    } else {
        let ftype = st.funcs.last().dtype;
        let (r1, st1) = p_expect(inp, st, TokenTypeG::LeftParen);
        match r1 {
            Err(e) => (Err(e), st1),
            Ok(_) => {
                let (r2, st2) = sp_binexpr(inp, sz, st1, 0);
                match r2 {
                    Err(e) => (Err(e), st2),
                    Ok(e) => match spec_widen(sz, e, ftype, ErrorKind::IncompatibleReturnType, line_now(inp, st2)) {
                        Err(er) => (Err(er), st2),
                        Ok(e2) => {
                            let (r3, st3) = p_expect(inp, st2, TokenTypeG::RightParen);
                            match r3 {
                                Err(er) => (Err(er), st3),
                                Ok(_) => (
                                    Ok(AstNodeG::Return {
                                        id: IdentifierG { name: st.funcs.last().name },
                                        expr: Box::new(e2),
                                    }),
                                    st3,
                                ),
                            }
                        },
                    },
                }
            },
        }
    }
}

/// A statement that starts with the name `name`: an assignment or a call.
pub open spec fn sp_ident_statement(inp: Seq<u8>, sz: TypeSizes, st: PState, name: Seq<char>, line: usize) -> PRes<AstV> {
    let (m, st1) = p_maybe(inp, st, TokenTypeG::Assign);
    match m {
        Err(e) => (Err(e), st1),
        Ok(true) => sp_assignment(inp, sz, st1, name),
        Ok(false) => {
            let (m2, st2) = p_maybe(inp, st1, TokenTypeG::LeftParen);
            match m2 {
                Err(e) => (Err(e), st2),
                Ok(true) => sp_function_call(inp, sz, st2, name, line),
                Ok(false) => {
                    let (r3, st3) = p_scan(inp, st2);
                    match r3 {
                        Err(e) => (Err(e), st3),
                        Ok(Some(_)) => err(ErrorKind::UnexpectedToken, line_now(inp, st3), st3),
                        Ok(None) => err(ErrorKind::UnexpectedEof, line_now(inp, st3), st3),
                    }
                },
            }
        },
    }
}

/// A single statement: a declaration, an assignment, a call, `if`, `for`,
/// `while` or `return`.
pub open spec fn sp_single(inp: Seq<u8>, sz: TypeSizes, st: PState) -> PRes<AstV>
    decreases meas(inp, st), 1nat,
{
    let (r, st1) = p_scan(inp, st);
    match r {
        Err(e) => (Err(e), st1),
        Ok(None) => err(ErrorKind::UnexpectedEof, line_now(inp, st1), st1),
        Ok(Some(tok)) => match tok.ttype {
            TokenTypeG::Int | TokenTypeG::Char | TokenTypeG::Long => sp_var_declaration(inp, st1, tok.ttype),
            TokenTypeG::Ident(name) => sp_ident_statement(inp, sz, st1, name, tok.line),
            TokenTypeG::Return => sp_return(inp, sz, st1),
            TokenTypeG::If => if progress(inp, st1, st) {
                sp_if(inp, sz, st1)
            } else {
                unreachable(st1)
            },
            TokenTypeG::While => if progress(inp, st1, st) {
                sp_while(inp, sz, st1)
            } else {
                unreachable(st1)
            },
            TokenTypeG::For => if progress(inp, st1, st) {
                sp_for(inp, sz, st1)
            } else {
                unreachable(st1)
            },
            _ => err(ErrorKind::SyntaxError, line_now(inp, st1), st1),
        },
    }
}

/// `if`, whose keyword was read: a condition in parentheses, a block and an
/// optional `else` block.
pub open spec fn sp_if(inp: Seq<u8>, sz: TypeSizes, st: PState) -> PRes<AstV>
    decreases meas(inp, st), 1nat,
{
    let (r1, st1) = p_expect(inp, st, TokenTypeG::LeftParen);
    match r1 {
        Err(e) => (Err(e), st1),
        Ok(_) => {
            let (c, st2) = sp_condition(inp, sz, st1);
            match c {
                Err(e) => (Err(e), st2),
                Ok(cond) => {
                    let (r3, st3) = p_expect(inp, st2, TokenTypeG::RightParen);
                    match r3 {
                        Err(e) => (Err(e), st3),
                        Ok(_) => if !progress(inp, st3, st) {
                            unreachable(st3)
                        } else {
                            let (bt, st4) = sp_compound(inp, sz, st3);
                            match bt {
                                Err(e) => (Err(e), st4),
                                Ok(t) => {
                                    let (m, st5) = p_maybe(inp, st4, TokenTypeG::Else);
                                    match m {
                                        Err(e) => (Err(e), st5),
                                        Ok(false) => (
                                            Ok(AstNodeG::If { cond: Box::new(cond), branch_t: Box::new(t), branch_f: None }),
                                            st5,
                                        ),
                                        Ok(true) => if !progress(inp, st5, st) {
                                            unreachable(st5)
                                        } else {
                                            let (bf, st6) = sp_compound(inp, sz, st5);
                                            match bf {
                                                Err(e) => (Err(e), st6),
                                                Ok(f) => (
                                                    Ok(AstNodeG::If {
                                                        cond: Box::new(cond),
                                                        branch_t: Box::new(t),
                                                        branch_f: Some(Box::new(f)),
                                                    }),
                                                    st6,
                                                ),
                                            }
                                        },
                                    }
                                },
                            }
                        },
                    }
                },
            }
        },
    }
}

/// `while`, whose keyword was read: a condition in parentheses and a block.
pub open spec fn sp_while(inp: Seq<u8>, sz: TypeSizes, st: PState) -> PRes<AstV>
    decreases meas(inp, st), 1nat,
{
    let (r1, st1) = p_expect(inp, st, TokenTypeG::LeftParen);
    match r1 {
        Err(e) => (Err(e), st1),
        Ok(_) => {
            let (c, st2) = sp_condition(inp, sz, st1);
            match c {
                Err(e) => (Err(e), st2),
                Ok(cond) => {
                    let (r3, st3) = p_expect(inp, st2, TokenTypeG::RightParen);
                    match r3 {
                        Err(e) => (Err(e), st3),
                        Ok(_) => if !progress(inp, st3, st) {
                            unreachable(st3)
                        } else {
                            let (b, st4) = sp_compound(inp, sz, st3);
                            match b {
                                Err(e) => (Err(e), st4),
                                Ok(body) => (Ok(AstNodeG::While { cond: Box::new(cond), body: Box::new(body) }), st4),
                            }
                        },
                    }
                },
            }
        },
    }
}

/// The tree that `for (pre; cond; post) body` stands for:
/// `pre` followed by `while (cond) { body post }`.
pub open spec fn for_tree(pre: AstV, cond: AstV, post: AstV, body: AstV) -> AstV {
    AstNodeG::Glue {
        left: Box::new(pre),
        right: Box::new(AstNodeG::While {
            cond: Box::new(cond),
            body: Box::new(AstNodeG::Glue { left: Box::new(body), right: Box::new(post) }),
        }),
    }
}

/// `for`, whose keyword was read.
pub open spec fn sp_for(inp: Seq<u8>, sz: TypeSizes, st: PState) -> PRes<AstV>
    decreases meas(inp, st), 1nat,
{
    let (r1, st1) = p_expect(inp, st, TokenTypeG::LeftParen);
    match r1 {
        Err(e) => (Err(e), st1),
        Ok(_) => if !progress(inp, st1, st) {
            unreachable(st1)
        } else {
            let (rp, st2) = sp_single(inp, sz, st1);
            match rp {
                Err(e) => (Err(e), st2),
                Ok(pre) => {
                    let (r3, st3) = p_expect(inp, st2, TokenTypeG::Semi);
                    match r3 {
                        Err(e) => (Err(e), st3),
                        Ok(_) => {
                            let (c, st4) = sp_condition(inp, sz, st3);
                            match c {
                                Err(e) => (Err(e), st4),
                                Ok(cond) => {
                                    let (r5, st5) = p_expect(inp, st4, TokenTypeG::Semi);
                                    match r5 {
                                        Err(e) => (Err(e), st5),
                                        Ok(_) => if !progress(inp, st5, st) {
                                            unreachable(st5)
                                        } else {
                                            let (rq, st6) = sp_single(inp, sz, st5);
                                            match rq {
                                                Err(e) => (Err(e), st6),
                                                Ok(post) => {
                                                    let (r7, st7) = p_expect(inp, st6, TokenTypeG::RightParen);
                                                    match r7 {
                                                        Err(e) => (Err(e), st7),
                                                        Ok(_) => if !progress(inp, st7, st) {
                                                            unreachable(st7)
                                                        } else {
                                                            let (rb, st8) = sp_compound(inp, sz, st7);
                                                            match rb {
                                                                Err(e) => (Err(e), st8),
                                                                Ok(body) => (Ok(for_tree(pre, cond, post, body)), st8),
                                                            }
                                                        },
                                                    }
                                                },
                                            }
                                        },
                                    }
                                },
                            }
                        },
                    }
                },
            }
        },
    }
}

/// A block: `{`, statements, `}`.
pub open spec fn sp_compound(inp: Seq<u8>, sz: TypeSizes, st: PState) -> PRes<AstV>
    decreases meas(inp, st), 1nat,
{
    let (r, st1) = p_expect(inp, st, TokenTypeG::LeftBrace);
    match r {
        Err(e) => (Err(e), st1),
        Ok(_) => if progress(inp, st1, st) {
            sp_compound_loop(inp, sz, st1, AstNodeG::Empty)
        } else {
            unreachable(st1)
        },
    }
}

/// The statements glued so far with one more statement.
pub open spec fn glue_next(left: AstV, tree: AstV) -> AstV {
    if tree is Empty {
        left
    } else if left is Empty {
        tree
    } else {
        AstNodeG::Glue { left: Box::new(left), right: Box::new(tree) }
    }
}

/// The rest of a block, with the statements so far glued into `left`: empty
/// statements are skipped, assignments and calls end with `;`.
pub open spec fn sp_compound_loop(inp: Seq<u8>, sz: TypeSizes, st: PState, left: AstV) -> PRes<AstV>
    decreases meas(inp, st), 2nat,
{
    let (eof, st1) = p_is_eof(inp, st);
    if eof {
        err(ErrorKind::UnexpectedEof, line_now(inp, st1), st1)
    } else {
        let (m, st2) = p_maybe(inp, st1, TokenTypeG::RightBrace);
        match m {
            Err(e) => (Err(e), st2),
            Ok(true) => (Ok(left), st2),
            Ok(false) => {
                let (m3, st3) = p_maybe(inp, st2, TokenTypeG::Semi);
                match m3 {
                    Err(e) => (Err(e), st3),
                    Ok(true) => if progress(inp, st3, st) {
                        sp_compound_loop(inp, sz, st3, left)
                    } else {
                        unreachable(st3)
                    },
                    Ok(false) => if meas(inp, st3) > meas(inp, st) {
                        unreachable(st3)
                    } else {
                        let (r4, st4) = sp_single(inp, sz, st3);
                        match r4 {
                            Err(e) => (Err(e), st4),
                            Ok(tree) => {
                                let (r5, st5) = sp_end_statement(inp, st4, tree);
                                match r5 {
                                    Err(e) => (Err(e), st5),
                                    Ok(_) => if progress(inp, st5, st) {
                                        sp_compound_loop(inp, sz, st5, glue_next(left, tree))
                                    } else {
                                        unreachable(st5)
                                    },
                                }
                            },
                        }
                    },
                }
            },
        }
    }
}

/// The `;` that ends an assignment or a call inside a block.
pub open spec fn sp_end_statement(inp: Seq<u8>, st: PState, tree: AstV) -> PRes<()> {
    if tree is Assign || tree is FuncCall {
        let (r, st1) = p_expect(inp, st, TokenTypeG::Semi);
        match r {
            Ok(_) => (Ok(()), st1),
            Err(e) => (Err(e), st1),
        }
    } else {
        (Ok(()), st)
    }
}

/// Whether a function body ends with a `return`.
pub open spec fn ends_with_return(body: AstV) -> bool {
    match body {
        AstNodeG::Return { .. } => true,
        AstNodeG::Glue { right, .. } => *right is Return,
        _ => false,
    }
}

/// A function definition: a type keyword, a name, `()` and a block. The
/// function joins the symbol table before its body is parsed. `None` at the
/// end of the input.
#[verifier::opaque]
pub open spec fn sp_function_declaration(inp: Seq<u8>, sz: TypeSizes, st: PState) -> PRes<Option<AstV>> {
    let (r, st1) = p_scan(inp, st);
    match r {
        Err(e) => (Err(e), st1),
        Ok(None) => (Ok(None), st1),
        Ok(Some(t)) => if !t.ttype.spec_is_type() {
            err(ErrorKind::ExpectedFunctionDeclaration, t.line, st1)
        } else {
            let ftype = PrimType::spec_from_token(t.ttype);
            let (ri, st2) = p_ident(inp, st1);
            match ri {
                Err(e) => (Err(e), st2),
                Ok(name) => {
                    let st2a = add_sym(
                        st2,
                        SymbolEntryG { name, dtype: ftype, stype: StructuralType::Function { end_label: None } },
                    );
                    let (r3, st3) = p_expect(inp, st2a, TokenTypeG::LeftParen);
                    match r3 {
                        Err(e) => (Err(e), st3),
                        Ok(_) => {
                            let (r4, st4) = p_expect(inp, st3, TokenTypeG::RightParen);
                            match r4 {
                                Err(e) => (Err(e), st4),
                                Ok(_) => {
                                    let entered = PState {
                                        scan: st4.scan,
                                        syms: st4.syms,
                                        funcs: st4.funcs.push(st4.syms[find_first(st4.syms, name).unwrap()]),
                                    };
                                    let (rb, st5) = sp_compound(inp, sz, entered);
                                    match rb {
                                        Err(e) => (Err(e), st5),
                                        Ok(body) => {
                                            let left = PState { scan: st5.scan, syms: st5.syms, funcs: st5.funcs.drop_last() };
                                            if ftype != PrimType::Void && !ends_with_return(body) {
                                                err(ErrorKind::MissingReturn, line_now(inp, left), left)
                                            } else {
                                                (
                                                    Ok(Some(AstNodeG::Function {
                                                        name: Box::new(AstNodeG::Ident { id: IdentifierG { name }, dtype: ftype }),
                                                        body: Box::new(body),
                                                    })),
                                                    left,
                                                )
                                            }
                                        },
                                    }
                                },
                            }
                        },
                    }
                },
            }
        },
    }
}


/// A successful statement parse leaves the scanner in range and the function
/// stack as it was, and has consumed input.
pub open spec fn stmt_ok<T>(inp: Seq<u8>, res: PRes<T>, st: PState) -> bool {
    res.0 is Ok ==> {
        &&& scan_ok(inp, res.1.scan)
        &&& res.1.funcs == st.funcs
        &&& meas(inp, res.1) < meas(inp, st)
    }
}

pub proof fn lemma_p_is_eof(inp: Seq<u8>, st: PState)
    requires
        scan_ok(inp, st.scan),
    ensures
        ({
            let (b, st2) = p_is_eof(inp, st);
            &&& scan_ok(inp, st2.scan)
            &&& st2.syms == st.syms
            &&& st2.funcs == st.funcs
            &&& meas(inp, st2) <= meas(inp, st)
        }),
{
    crate::scan::lemma_skip_ws_bounds(inp, st.scan.lpos);
}

pub proof fn lemma_stars_ok(inp: Seq<u8>, st: PState, dtype: PrimType)
    requires
        scan_ok(inp, st.scan),
    ensures
        expr_ok(inp, sp_stars(inp, st, dtype), st, false),
    decreases meas(inp, st),
{
    lemma_p_maybe(inp, st, TokenTypeG::Star);
    let (m, st1) = p_maybe(inp, st, TokenTypeG::Star);
    if m == Ok::<bool, CompileError>(true) && !dtype.is_pointer() && progress(inp, st1, st) {
        lemma_stars_ok(inp, st1, dtype.spec_pointer_to());
    }
}

pub proof fn lemma_condition_ok(inp: Seq<u8>, sz: TypeSizes, st: PState)
    requires
        scan_ok(inp, st.scan),
    ensures
        expr_ok(inp, sp_condition(inp, sz, st), st, true),
{
    lemma_binexpr_ok(inp, sz, st, 0);
}

pub proof fn lemma_var_declaration_ok(inp: Seq<u8>, st: PState, tt: TokenTypeV)
    requires
        scan_ok(inp, st.scan),
    ensures
        stmt_ok(inp, sp_var_declaration(inp, st, tt), st),
{
    lemma_stars_ok(inp, st, PrimType::spec_from_token(tt));
    let (r, st1) = sp_stars(inp, st, PrimType::spec_from_token(tt));
    if r is Ok {
        lemma_p_ident(inp, st1);
    }
}

pub proof fn lemma_assignment_ok(inp: Seq<u8>, sz: TypeSizes, st: PState, name: Seq<char>)
    requires
        scan_ok(inp, st.scan),
    ensures
        stmt_ok(inp, sp_assignment(inp, sz, st, name), st),
{
    lemma_binexpr_ok(inp, sz, st, -1);
}

pub proof fn lemma_return_ok(inp: Seq<u8>, sz: TypeSizes, st: PState)
    requires
        scan_ok(inp, st.scan),
    ensures
        stmt_ok(inp, sp_return(inp, sz, st), st),
{
    lemma_p_expect(inp, st, TokenTypeG::LeftParen);
    let (r1, st1) = p_expect(inp, st, TokenTypeG::LeftParen);
    if r1 is Ok {
        lemma_binexpr_ok(inp, sz, st1, 0);
        let (r2, st2) = sp_binexpr(inp, sz, st1, 0);
        if r2 is Ok {
            lemma_p_expect(inp, st2, TokenTypeG::RightParen);
        }
    }
}

pub proof fn lemma_ident_statement_ok(inp: Seq<u8>, sz: TypeSizes, st: PState, name: Seq<char>, line: usize)
    requires
        scan_ok(inp, st.scan),
    ensures
        stmt_ok(inp, sp_ident_statement(inp, sz, st, name, line), st),
{
    lemma_p_maybe(inp, st, TokenTypeG::Assign);
    let (m, st1) = p_maybe(inp, st, TokenTypeG::Assign);
    if m is Ok {
        lemma_assignment_ok(inp, sz, st1, name);
        lemma_p_maybe(inp, st1, TokenTypeG::LeftParen);
        let (m2, st2) = p_maybe(inp, st1, TokenTypeG::LeftParen);
        if m2 is Ok {
            lemma_function_call_ok(inp, sz, st2, name, line);
        }
    }
}

pub proof fn lemma_end_statement_ok(inp: Seq<u8>, st: PState, tree: AstV)
    requires
        scan_ok(inp, st.scan),
    ensures
        expr_ok(inp, sp_end_statement(inp, st, tree), st, false),
{
    lemma_p_expect(inp, st, TokenTypeG::Semi);
}

pub proof fn lemma_single_ok(inp: Seq<u8>, sz: TypeSizes, st: PState)
    requires
        scan_ok(inp, st.scan),
    ensures
        stmt_ok(inp, sp_single(inp, sz, st), st),
    decreases meas(inp, st), 1nat,
{
    lemma_p_scan(inp, st);
    let (r, st1) = p_scan(inp, st);
    if let Ok(Some(tok)) = r {
        match tok.ttype {
            TokenTypeG::Int | TokenTypeG::Char | TokenTypeG::Long => {
                lemma_var_declaration_ok(inp, st1, tok.ttype);
            },
            TokenTypeG::Ident(name) => {
                lemma_ident_statement_ok(inp, sz, st1, name, tok.line);
            },
            TokenTypeG::Return => {
                lemma_return_ok(inp, sz, st1);
            },
            TokenTypeG::If => {
                lemma_if_ok(inp, sz, st1);
            },
            TokenTypeG::While => {
                lemma_while_ok(inp, sz, st1);
            },
            TokenTypeG::For => {
                lemma_for_ok(inp, sz, st1);
            },
            _ => {},
        }
    }
}

pub proof fn lemma_if_ok(inp: Seq<u8>, sz: TypeSizes, st: PState)
    requires
        scan_ok(inp, st.scan),
    ensures
        stmt_ok(inp, sp_if(inp, sz, st), st),
    decreases meas(inp, st), 1nat,
{
    lemma_p_expect(inp, st, TokenTypeG::LeftParen);
    let (r1, st1) = p_expect(inp, st, TokenTypeG::LeftParen);
    if r1 is Ok {
        lemma_condition_ok(inp, sz, st1);
        let (c, st2) = sp_condition(inp, sz, st1);
        if c is Ok {
            lemma_p_expect(inp, st2, TokenTypeG::RightParen);
            let (r3, st3) = p_expect(inp, st2, TokenTypeG::RightParen);
            if r3 is Ok && progress(inp, st3, st) {
                lemma_compound_ok(inp, sz, st3);
                let (bt, st4) = sp_compound(inp, sz, st3);
                if bt is Ok {
                    lemma_p_maybe(inp, st4, TokenTypeG::Else);
                    let (m, st5) = p_maybe(inp, st4, TokenTypeG::Else);
                    if m == Ok::<bool, CompileError>(true) && progress(inp, st5, st) {
                        lemma_compound_ok(inp, sz, st5);
                    }
                }
            }
        }
    }
}

pub proof fn lemma_while_ok(inp: Seq<u8>, sz: TypeSizes, st: PState)
    requires
        scan_ok(inp, st.scan),
    ensures
        stmt_ok(inp, sp_while(inp, sz, st), st),
    decreases meas(inp, st), 1nat,
{
    lemma_p_expect(inp, st, TokenTypeG::LeftParen);
    let (r1, st1) = p_expect(inp, st, TokenTypeG::LeftParen);
    if r1 is Ok {
        lemma_condition_ok(inp, sz, st1);
        let (c, st2) = sp_condition(inp, sz, st1);
        if c is Ok {
            lemma_p_expect(inp, st2, TokenTypeG::RightParen);
            let (r3, st3) = p_expect(inp, st2, TokenTypeG::RightParen);
            if r3 is Ok && progress(inp, st3, st) {
                lemma_compound_ok(inp, sz, st3);
            }
        }
    }
}

pub proof fn lemma_for_ok(inp: Seq<u8>, sz: TypeSizes, st: PState)
    requires
        scan_ok(inp, st.scan),
    ensures
        stmt_ok(inp, sp_for(inp, sz, st), st),
    decreases meas(inp, st), 1nat,
{
    lemma_p_expect(inp, st, TokenTypeG::LeftParen);
    let (r1, st1) = p_expect(inp, st, TokenTypeG::LeftParen);
    if r1 is Ok && progress(inp, st1, st) {
        lemma_single_ok(inp, sz, st1);
        let (rp, st2) = sp_single(inp, sz, st1);
        if rp is Ok {
            lemma_p_expect(inp, st2, TokenTypeG::Semi);
            let (r3, st3) = p_expect(inp, st2, TokenTypeG::Semi);
            if r3 is Ok {
                lemma_condition_ok(inp, sz, st3);
                let (c, st4) = sp_condition(inp, sz, st3);
                if c is Ok {
                    lemma_p_expect(inp, st4, TokenTypeG::Semi);
                    let (r5, st5) = p_expect(inp, st4, TokenTypeG::Semi);
                    if r5 is Ok && progress(inp, st5, st) {
                        lemma_single_ok(inp, sz, st5);
                        let (rq, st6) = sp_single(inp, sz, st5);
                        if rq is Ok {
                            lemma_p_expect(inp, st6, TokenTypeG::RightParen);
                            let (r7, st7) = p_expect(inp, st6, TokenTypeG::RightParen);
                            if r7 is Ok && progress(inp, st7, st) {
                                lemma_compound_ok(inp, sz, st7);
                            }
                        }
                    }
                }
            }
        }
    }
}

pub proof fn lemma_compound_ok(inp: Seq<u8>, sz: TypeSizes, st: PState)
    requires
        scan_ok(inp, st.scan),
    ensures
        stmt_ok(inp, sp_compound(inp, sz, st), st),
    decreases meas(inp, st), 1nat,
{
    lemma_p_expect(inp, st, TokenTypeG::LeftBrace);
    let (r, st1) = p_expect(inp, st, TokenTypeG::LeftBrace);
    if r is Ok && progress(inp, st1, st) {
        lemma_compound_loop_ok(inp, sz, st1, AstNodeG::Empty);
    }
}

pub proof fn lemma_compound_loop_ok(inp: Seq<u8>, sz: TypeSizes, st: PState, left: AstV)
    requires
        scan_ok(inp, st.scan),
    ensures
        stmt_ok(inp, sp_compound_loop(inp, sz, st, left), st),
    decreases meas(inp, st), 2nat,
{
    lemma_p_is_eof(inp, st);
    let (eof, st1) = p_is_eof(inp, st);
    if !eof {
        lemma_p_maybe(inp, st1, TokenTypeG::RightBrace);
        let (m, st2) = p_maybe(inp, st1, TokenTypeG::RightBrace);
        if m == Ok::<bool, CompileError>(false) {
            lemma_p_maybe(inp, st2, TokenTypeG::Semi);
            let (m3, st3) = p_maybe(inp, st2, TokenTypeG::Semi);
            if m3 == Ok::<bool, CompileError>(true) && progress(inp, st3, st) {
                lemma_compound_loop_ok(inp, sz, st3, left);
            } else if m3 == Ok::<bool, CompileError>(false) && meas(inp, st3) <= meas(inp, st) {
                lemma_single_ok(inp, sz, st3);
                let (r4, st4) = sp_single(inp, sz, st3);
                if let Ok(tree) = r4 {
                    lemma_end_statement_ok(inp, st4, tree);
                    let (r5, st5) = sp_end_statement(inp, st4, tree);
                    if r5 is Ok && progress(inp, st5, st) {
                        lemma_compound_loop_ok(inp, sz, st5, glue_next(left, tree));
                    }
                }
            }
        }
    }
}


/// A name added to the symbol table is found there afterwards.
pub proof fn lemma_add_sym_find(st: PState, name: Seq<char>, dtype: PrimType)
    ensures
        ({
            let syms = st.syms.push(
                SymbolEntryG { name, dtype, stype: StructuralType::Function { end_label: None } },
            );
            find_first(syms, name) is Some
        }),
{
    crate::sym::lemma_add_then_find(
        st.syms,
        SymbolEntryG { name, dtype, stype: StructuralType::Function { end_label: None } },
        name,
    );
}


pub proof fn lemma_function_declaration_ok(inp: Seq<u8>, sz: TypeSizes, st: PState)
    requires
        scan_ok(inp, st.scan),
    ensures
        ({
            let (r, st2) = sp_function_declaration(inp, sz, st);
            &&& r is Ok ==> scan_ok(inp, st2.scan) && st2.funcs == st.funcs
            &&& r matches Ok(Some(_)) ==> progress(inp, st2, st)
            &&& r == Ok::<Option<AstV>, CompileError>(None) ==> meas(inp, st2) <= meas(inp, st)
        }),
{
    reveal(sp_function_declaration);
    lemma_p_scan(inp, st);
    let (r, st1) = p_scan(inp, st);
    if let Ok(Some(t)) = r {
        lemma_p_ident(inp, st1);
        let (ri, st2) = p_ident(inp, st1);
        if let Ok(name) = ri {
            let st2a = add_sym(
                st2,
                SymbolEntryG { name, dtype: PrimType::spec_from_token(t.ttype), stype: StructuralType::Function { end_label: None } },
            );
            lemma_p_expect(inp, st2a, TokenTypeG::LeftParen);
            let (r3, st3) = p_expect(inp, st2a, TokenTypeG::LeftParen);
            if r3 is Ok {
                lemma_p_expect(inp, st3, TokenTypeG::RightParen);
                let (r4, st4) = p_expect(inp, st3, TokenTypeG::RightParen);
                if r4 is Ok {
                    let entered = PState {
                        scan: st4.scan,
                        syms: st4.syms,
                        funcs: st4.funcs.push(st4.syms[find_first(st4.syms, name).unwrap()]),
                    };
                    lemma_compound_ok(inp, sz, entered);
                }
            }
        }
    }
}

/// A whole program: function definitions up to the end of the input.
pub open spec fn sp_program(inp: Seq<u8>, sz: TypeSizes, st: PState) -> PRes<Seq<AstV>>
    decreases meas(inp, st),
{
    let (r, st1) = sp_function_declaration(inp, sz, st);
    match r {
        Err(e) => (Err(e), st1),
        Ok(None) => (Ok(Seq::empty()), st1),
        Ok(Some(f)) => if progress(inp, st1, st) {
            let (rest, st2) = sp_program(inp, sz, st1);
            match rest {
                Err(e) => (Err(e), st2),
                Ok(fs) => (Ok(seq![f] + fs), st2),
            }
        } else {
            unreachable(st1)
        },
    }
}

/// `r` with the functions `pre` put before the ones it parsed.
pub open spec fn with_prefix(pre: Seq<AstV>, r: PRes<Seq<AstV>>) -> PRes<Seq<AstV>> {
    (
        match r.0 {
            Ok(fs) => Ok(pre + fs),
            Err(e) => Err(e),
        },
        r.1,
    )
}

} // verus!
