//! Properties that relate several operations of the library.
use vstd::prelude::*;
use crate::ast::{is_binop_token, AstNodeG, AstV};
use crate::cgen::{
    ast_size, compare_step, lemma_ast_size_pos, spec_binary, spec_gen, spec_gen_call,
    spec_gen_function, spec_gen_glue, spec_gen_if, spec_gen_return, spec_gen_while, BackendOp, Gen,
    GenState, Step,
};
use crate::expr::{Compatibility, TypeSizes};
use crate::grammar::{
    literal_type, op_prec, p_putback, p_scan, scan_ok, sp_binexpr, sp_binexpr_loop, sp_prefix,
    sp_primary, spec_combine, spec_type_compatibility, with_scan, PState,
};
use crate::scan::TokenTypeG;
use crate::sym::PrimType;
use crate::interp::{eval, TreeNode};
use crate::scan::{
    ident_end, is_ident_char, lex_at, scan_step, spec_maybe_token, word_token, Lexed, ScanState,
    TokenTypeV, TokenV, TEXTLEN,
};

verus! {

/// A token put back is the next one scanned, and scanning it leaves the
/// position where it was.
pub proof fn law_putback_then_scan(inp: Seq<u8>, s: ScanState, t: TokenV)
    ensures
        scan_step(inp, ScanState { pb: Some(t), lpos: s.lpos, pos: s.pos }) == (
            Ok::<Option<TokenV>, crate::error::CompileError>(Some(t)),
            ScanState { pb: None, lpos: s.lpos, pos: s.pos },
        ),
{
}

/// `maybe_token` that declines consumes nothing: the next scan gives what a
/// scan in its place would have given, and leaves the same state.
pub proof fn law_declined_maybe_token_consumes_nothing(inp: Seq<u8>, s: ScanState, tt: TokenTypeV)
    requires
        spec_maybe_token(inp, s, tt).0 == Ok::<bool, crate::error::CompileError>(false),
    ensures
        scan_step(inp, spec_maybe_token(inp, s, tt).1) == scan_step(inp, s),
{
}

/// Widening is symmetric: the left side of `a` and `b` widens to `t` exactly
/// when the right side of `b` and `a` does.
pub proof fn law_widening_is_symmetric(sz: TypeSizes, a: crate::sym::PrimType, b: crate::sym::PrimType, t: crate::sym::PrimType)
    ensures
        (spec_type_compatibility(sz, a, b, false) == Compatibility::WidenLeft(t)) <==> (
        spec_type_compatibility(sz, b, a, false) == Compatibility::WidenRight(t)),
{
}

/// With `only_right`, the right side is never widened.
pub proof fn law_only_right_never_widens_right(sz: TypeSizes, a: crate::sym::PrimType, b: crate::sym::PrimType)
    ensures
        !(spec_type_compatibility(sz, a, b, true) is WidenRight),
{
}

/// Looking deeper never changes a value already found: the depth bound of
/// the interpreter only cuts off cycles.
pub proof fn law_eval_stable_under_more_fuel(nodes: Seq<TreeNode>, root: usize, idx: Option<usize>, fuel: nat)
    requires
        eval(nodes, root, idx, fuel) is Ok,
    ensures
        eval(nodes, root, idx, fuel + 1) == eval(nodes, root, idx, fuel),
    decreases fuel,
{
    let i: int = match idx {
        Some(k) => k as int,
        None => root as int,
    };
    if fuel > 0 && i < nodes.len() && !(nodes[i].op is IntLit) {
        law_eval_stable_under_more_fuel(nodes, root, nodes[i].left, (fuel - 1) as nat);
        law_eval_stable_under_more_fuel(nodes, root, nodes[i].right, (fuel - 1) as nat);
    }
}


/// The label that a request places in the code, if any.
pub open spec fn defined_label(op: BackendOp) -> Option<usize> {
    match op {
        BackendOp::Label(l) => Some(l),
        BackendOp::FuncPostamble(l) => Some(l),
        _ => None,
    }
}

/// Every label that `ops` places lies above `lo` and at most `hi`.
pub open spec fn labels_within(ops: Seq<BackendOp>, lo: int, hi: int) -> bool {
    forall|i: int|
        0 <= i < ops.len() ==> (defined_label(#[trigger] ops[i]) matches Some(l) ==> lo < l <= hi)
}

/// No label is placed twice in `ops`.
pub open spec fn labels_unique(ops: Seq<BackendOp>) -> bool {
    forall|i: int, j: int|
        0 <= i < j < ops.len() ==> (defined_label(#[trigger] ops[i]) matches Some(l)
            ==> defined_label(#[trigger] ops[j]) != Some(l))
}

/// The labels placed in `a` and in `b` differ.
pub open spec fn labels_disjoint(a: Seq<BackendOp>, b: Seq<BackendOp>) -> bool {
    forall|i: int, j: int|
        0 <= i < a.len() && 0 <= j < b.len() ==> (defined_label(#[trigger] a[i]) matches Some(l)
            ==> defined_label(#[trigger] b[j]) != Some(l))
}

/// What a successful code generation from `st` guarantees of its labels.
pub open spec fn fresh_labels(g: Gen, st: GenState) -> bool {
    g matches Gen::Done { ops, st: s2, .. } ==> st.last_label <= s2.last_label && labels_within(
        ops,
        st.last_label as int,
        s2.last_label as int,
    ) && labels_unique(ops)
}

proof fn lemma_concat_labels(a: Seq<BackendOp>, b: Seq<BackendOp>, lo: int, hi: int)
    requires
        labels_within(a, lo, hi),
        labels_within(b, lo, hi),
        labels_unique(a),
        labels_unique(b),
        labels_disjoint(a, b),
    ensures
        labels_within(a + b, lo, hi),
        labels_unique(a + b),
{
    assert forall|i: int| 0 <= i < (a + b).len() implies (defined_label(#[trigger] (a + b)[i]) matches Some(l)
        ==> lo < l <= hi) by {
        if i < a.len() {
            assert((a + b)[i] == a[i]);
        } else {
            assert((a + b)[i] == b[i - a.len()]);
        }
    }
    assert forall|i: int, j: int| 0 <= i < j < (a + b).len() implies (defined_label(
        #[trigger] (a + b)[i],
    ) matches Some(l) ==> defined_label(#[trigger] (a + b)[j]) != Some(l)) by {
        if j < a.len() {
            assert((a + b)[i] == a[i] && (a + b)[j] == a[j]);
        } else if i < a.len() {
            assert((a + b)[i] == a[i] && (a + b)[j] == b[j - a.len()]);
        } else {
            assert((a + b)[i] == b[i - a.len()] && (a + b)[j] == b[j - a.len()]);
        }
    }
}

proof fn lemma_disjoint_by_range(a: Seq<BackendOp>, b: Seq<BackendOp>, lo1: int, hi1: int, lo2: int, hi2: int)
    requires
        labels_within(a, lo1, hi1),
        labels_within(b, lo2, hi2),
        hi1 <= lo2 || hi2 <= lo1,
    ensures
        labels_disjoint(a, b),
{
    assert forall|i: int, j: int| 0 <= i < a.len() && 0 <= j < b.len() implies (defined_label(
        #[trigger] a[i],
    ) matches Some(l) ==> defined_label(#[trigger] b[j]) != Some(l)) by {
        if defined_label(a[i]) is Some && defined_label(b[j]) is Some {
        }
    }
}

proof fn lemma_widen(a: Seq<BackendOp>, lo: int, hi: int, lo2: int, hi2: int)
    requires
        labels_within(a, lo, hi),
        lo2 <= lo,
        hi <= hi2,
    ensures
        labels_within(a, lo2, hi2),
{
}

/// `a + b` where the labels of `a` lie in `(lo1, hi1]` and those of `b` in
/// `(lo2, hi2]`, two ranges that do not overlap.
proof fn lemma_join(a: Seq<BackendOp>, b: Seq<BackendOp>, lo1: int, hi1: int, lo2: int, hi2: int, lo: int, hi: int)
    requires
        labels_within(a, lo1, hi1),
        labels_within(b, lo2, hi2),
        labels_unique(a),
        labels_unique(b),
        hi1 <= lo2 || hi2 <= lo1,
        lo <= lo1,
        lo <= lo2,
        hi1 <= hi,
        hi2 <= hi,
    ensures
        labels_within(a + b, lo, hi),
        labels_unique(a + b),
{
    lemma_disjoint_by_range(a, b, lo1, hi1, lo2, hi2);
    lemma_widen(a, lo1, hi1, lo, hi);
    lemma_widen(b, lo2, hi2, lo, hi);
    lemma_concat_labels(a, b, lo, hi);
}

/// Code generation places each label at most once, and only labels that it
/// handed out itself: above the last label before it and at most the last
/// label after it.
pub proof fn law_gen_labels_fresh(t: AstV, has_reg: bool, branch: bool, label: usize, st: GenState)
    ensures
        fresh_labels(spec_gen(t, has_reg, branch, label, st), st),
    decreases ast_size(t), 1nat,
{
    let g = spec_gen(t, has_reg, branch, label, st);
    match t {
        AstNodeG::Function { .. } => lemma_function_labels(t, st),
        AstNodeG::If { .. } => lemma_if_labels(t, st),
        AstNodeG::While { .. } => lemma_while_labels(t, st),
        AstNodeG::Glue { .. } => lemma_glue_labels(t, st),
        AstNodeG::Add { left, right, .. } => lemma_binary_labels(*left, *right, Step::Emit(BackendOp::Add, true), st),
        AstNodeG::Subtract { left, right, .. } => lemma_binary_labels(*left, *right, Step::Emit(BackendOp::Sub, true), st),
        AstNodeG::Multiply { left, right, .. } => lemma_binary_labels(*left, *right, Step::Emit(BackendOp::Mul, true), st),
        AstNodeG::Divide { left, right, .. } => lemma_binary_labels(*left, *right, Step::Emit(BackendOp::Div, true), st),
        AstNodeG::Equal { left, right, .. } => lemma_binary_labels(*left, *right, compare_step(t, branch, label), st),
        AstNodeG::NotEqual { left, right, .. } => lemma_binary_labels(*left, *right, compare_step(t, branch, label), st),
        AstNodeG::LessThan { left, right, .. } => lemma_binary_labels(*left, *right, compare_step(t, branch, label), st),
        AstNodeG::GreaterThan { left, right, .. } => lemma_binary_labels(*left, *right, compare_step(t, branch, label), st),
        AstNodeG::LessThanOrEqual { left, right, .. } => lemma_binary_labels(*left, *right, compare_step(t, branch, label), st),
        AstNodeG::GreaterThanOrEqual { left, right, .. } => lemma_binary_labels(*left, *right, compare_step(t, branch, label), st),
        AstNodeG::Assign { id, expr } => lemma_binary_labels(*expr, *id, Step::TakeRight, st),
        AstNodeG::FuncCall { .. } => lemma_call_labels(t, st),
        AstNodeG::Return { .. } => lemma_return_labels(t, st),
        _ => {},
    }
}

proof fn lemma_binary_labels(left: AstV, right: AstV, step: Step, st: GenState)
    requires
        step matches Step::Emit(op, _) ==> defined_label(op) is None,
    ensures
        fresh_labels(spec_binary(left, right, step, st), st),
    decreases ast_size(left) + ast_size(right), 0nat,
{
    lemma_ast_size_pos(left);
    lemma_ast_size_pos(right);
    law_gen_labels_fresh(left, false, false, 0, st);
    if let Gen::Done { ops: o1, reg: r1, st: s1 } = spec_gen(left, false, false, 0, st) {
        law_gen_labels_fresh(right, r1, false, 0, s1);
        if let Gen::Done { ops: o2, st: s2, .. } = spec_gen(right, r1, false, 0, s1) {
            lemma_join(o1, o2, st.last_label as int, s1.last_label as int, s1.last_label as int, s2.last_label as int, st.last_label as int, s2.last_label as int);
            match step {
                Step::Emit(op, _) => {
                    lemma_join(o1 + o2, seq![op], st.last_label as int, s2.last_label as int, s2.last_label as int, s2.last_label as int, st.last_label as int, s2.last_label as int);
                },
                Step::TakeRight => {},
            }
        }
    }
}

proof fn lemma_call_labels(t: AstV, st: GenState)
    ensures
        fresh_labels(spec_gen_call(t, st), st),
    decreases ast_size(t), 0nat,
{
    if let AstNodeG::FuncCall { id, left, .. } = t {
        law_gen_labels_fresh(*left, false, false, 0, st);
        if let Gen::Done { ops, st: s1, .. } = spec_gen(*left, false, false, 0, st) {
            lemma_join(ops, seq![BackendOp::Call(id.name)], st.last_label as int, s1.last_label as int, s1.last_label as int, s1.last_label as int, st.last_label as int, s1.last_label as int);
        }
    }
}

proof fn lemma_return_labels(t: AstV, st: GenState)
    ensures
        fresh_labels(spec_gen_return(t, st), st),
    decreases ast_size(t), 0nat,
{
    if let AstNodeG::Return { id, expr } = t {
        law_gen_labels_fresh(*expr, false, false, 0, st);
        if let Gen::Done { ops, st: s1, .. } = spec_gen(*expr, false, false, 0, st) {
            if let Some(i) = crate::sym::find_first(st.syms, id.name) {
                if let crate::sym::StructuralType::Function { end_label: Some(l) } = st.syms[i].stype {
                    lemma_join(ops, seq![BackendOp::Ret(st.syms[i].dtype, l)], st.last_label as int, s1.last_label as int, s1.last_label as int, s1.last_label as int, st.last_label as int, s1.last_label as int);
                }
            }
        }
    }
}

proof fn lemma_glue_labels(t: AstV, st: GenState)
    ensures
        fresh_labels(spec_gen_glue(t, st), st),
    decreases ast_size(t), 0nat,
{
    if let AstNodeG::Glue { left, right } = t {
        law_gen_labels_fresh(*left, false, false, 0, st);
        if let Gen::Done { ops: o1, st: s1, .. } = spec_gen(*left, false, false, 0, st) {
            law_gen_labels_fresh(*right, false, false, 0, s1);
            if let Gen::Done { ops: o2, st: s2, .. } = spec_gen(*right, false, false, 0, s1) {
                let (a, b, c) = (st.last_label as int, s1.last_label as int, s2.last_label as int);
                let f = seq![BackendOp::FreeAll];
                lemma_join(o1, f, a, b, b, b, a, b);
                lemma_join(o1 + f, o2, a, b, b, c, a, c);
                lemma_join(o1 + f + o2, f, a, c, c, c, a, c);
            }
        }
    }
}

proof fn lemma_function_labels(t: AstV, st: GenState)
    ensures
        fresh_labels(spec_gen_function(t, st), st),
    decreases ast_size(t), 0nat,
{
    if let AstNodeG::Function { name, body } = t {
        if let AstNodeG::Ident { id, .. } = *name {
            if st.last_label < usize::MAX {
                let end = (st.last_label + 1) as usize;
                if let Some(i) = crate::sym::find_first(st.syms, id.name) {
                    let s1 = GenState {
                        last_label: end,
                        syms: st.syms.update(i, crate::sym::with_end_label(st.syms[i], end)),
                    };
                    law_gen_labels_fresh(*body, false, false, 0, s1);
                    if let Gen::Done { ops, st: s2, .. } = spec_gen(*body, false, false, 0, s1) {
                        let (a, c) = (st.last_label as int, s2.last_label as int);
                        let pre = seq![BackendOp::FuncPreamble(id.name)];
                        let post = seq![BackendOp::FuncPostamble(end)];
                        lemma_join(pre, ops, a, a, end as int, c, a, c);
                        lemma_join(pre + ops, post, end as int, c, a, end as int, a, c);
                    }
                }
            }
        }
    }
}

proof fn lemma_while_labels(t: AstV, st: GenState)
    ensures
        fresh_labels(spec_gen_while(t, st), st),
    decreases ast_size(t), 0nat,
{
    if let AstNodeG::While { cond, body } = t {
        if st.last_label + 2 <= usize::MAX {
            let l_start = (st.last_label + 1) as usize;
            let l_end = (st.last_label + 2) as usize;
            let s0 = GenState { last_label: l_end, syms: st.syms };
            law_gen_labels_fresh(*cond, false, true, l_end, s0);
            if let Gen::Done { ops: o1, st: s1, .. } = spec_gen(*cond, false, true, l_end, s0) {
                law_gen_labels_fresh(*body, false, true, 0, s1);
                if let Gen::Done { ops: o2, st: s2, .. } = spec_gen(*body, false, true, 0, s1) {
                    let (a, b0, b, c) = (st.last_label as int, l_end as int, s1.last_label as int, s2.last_label as int);
                    let start = seq![BackendOp::Label(l_start)];
                    let f = seq![BackendOp::FreeAll];
                    let tail = seq![BackendOp::FreeAll, BackendOp::Jump(l_start), BackendOp::Label(l_end)];
                    lemma_join(start, o1, a, a + 1, b0, b, a, c);
                    lemma_join(start + o1, f, a, b, b, b, a, c);
                    lemma_join(start + o1 + f, o2, a, b, b, c, a, c);
                    assert(labels_within(start + o1 + f + o2, a, c));
                    assert forall|i: int| 0 <= i < (start + o1 + f + o2).len() implies (defined_label(
                        #[trigger] (start + o1 + f + o2)[i],
                    ) matches Some(l) ==> l != l_end) by {
                        if i == 0 {
                        } else if i < 1 + o1.len() {
                            assert((start + o1 + f + o2)[i] == o1[i - 1]);
                        } else if i < 2 + o1.len() {
                        } else {
                            assert((start + o1 + f + o2)[i] == o2[i - 2 - o1.len()]);
                        }
                    }
                    assert(labels_within(tail, a + 1, a + 2));
                    assert(labels_disjoint(start + o1 + f + o2, tail));
                    lemma_widen(tail, a + 1, a + 2, a, c);
                    lemma_concat_labels(start + o1 + f + o2, tail, a, c);
                }
            }
        }
    }
}

proof fn lemma_if_labels(t: AstV, st: GenState)
    ensures
        fresh_labels(spec_gen_if(t, st), st),
    decreases ast_size(t), 0nat,
{
    if let AstNodeG::If { cond, branch_t, branch_f } = t {
        let needed: int = if branch_f is Some {
            2
        } else {
            1
        };
        if st.last_label + needed <= usize::MAX {
            let l_false = (st.last_label + 1) as usize;
            let l_end = (st.last_label + 2) as usize;
            let s0 = GenState { last_label: (st.last_label + needed) as usize, syms: st.syms };
            law_gen_labels_fresh(*cond, false, true, l_false, s0);
            if let Gen::Done { ops: o1, st: s1, .. } = spec_gen(*cond, false, true, l_false, s0) {
                law_gen_labels_fresh(*branch_t, false, true, 0, s1);
                if let Gen::Done { ops: o2, st: s2, .. } = spec_gen(*branch_t, false, true, 0, s1) {
                    let (a, b0, b, c) = (st.last_label as int, s0.last_label as int, s1.last_label as int, s2.last_label as int);
                    let f = seq![BackendOp::FreeAll];
                    let jmp: Seq<BackendOp> = if branch_f is Some {
                        seq![BackendOp::Jump(l_end)]
                    } else {
                        seq![]
                    };
                    let lf = seq![BackendOp::Label(l_false)];
                    lemma_join(o1, f, b0, b, b, b, b0, c);
                    lemma_join(o1 + f, o2, b0, b, b, c, b0, c);
                    lemma_join(o1 + f + o2, f, b0, c, c, c, b0, c);
                    lemma_join(o1 + f + o2 + f, jmp, b0, c, c, c, b0, c);
                    lemma_join(o1 + f + o2 + f + jmp, lf, b0, c, a, a + 1, a, c);
                    let pre = o1 + f + o2 + f + jmp + lf;
                    assert(labels_within(pre, a, c));
                    match branch_f {
                        None => {},
                        Some(fb) => {
                            law_gen_labels_fresh(*fb, false, true, 0, s2);
                            if let Gen::Done { ops: o3, st: s3, .. } = spec_gen(*fb, false, true, 0, s2) {
                                let d = s3.last_label as int;
                                lemma_widen(pre, a, c, a, d);
                                lemma_join(pre, o3, a, c, c, d, a, d);
                                let tail = seq![BackendOp::FreeAll, BackendOp::Label(l_end)];
                                assert forall|i: int| 0 <= i < (pre + o3).len() implies (defined_label(
                                    #[trigger] (pre + o3)[i],
                                ) matches Some(l) ==> l != l_end) by {
                                    if i < pre.len() {
                                        assert((pre + o3)[i] == pre[i]);
                                        if i < pre.len() - 1 {
                                            assert(pre[i] == (o1 + f + o2 + f + jmp)[i]);
                                            assert(labels_within(o1 + f + o2 + f + jmp, b0, c));
                                        }
                                    } else {
                                        assert((pre + o3)[i] == o3[i - pre.len()]);
                                    }
                                }
                                assert(labels_within(tail, a + 1, a + 2));
                                assert(labels_disjoint(pre + o3, tail));
                                lemma_widen(tail, a + 1, a + 2, a, d);
                                lemma_concat_labels(pre + o3, tail, a, d);
                            }
                        },
                    }
                }
            }
        }
    }
}


/// A byte that an identifier may hold: an ASCII letter, a digit or `_`.
pub open spec fn word_byte(c: u8) -> bool {
    (48 <= c && c <= 57) || (65 <= c && c <= 90) || (97 <= c && c <= 122) || c == 95
}

/// The bytes that continue an identifier are exactly the letters, the digits
/// and `_`.
pub proof fn law_identifier_bytes(c: u8)
    ensures
        is_ident_char(c) <==> word_byte(c),
{
}

/// A run of letters, digits and `_` ends where the first other byte (or the
/// end of the input) stands.
proof fn lemma_word_run_end(inp: Seq<u8>, i: int, e: int)
    requires
        0 <= i <= e <= inp.len(),
        forall|j: int| i <= j < e ==> word_byte(#[trigger] inp[j]),
        e == inp.len() || !word_byte(inp[e]),
    ensures
        ident_end(inp, i) == e,
    decreases e - i,
{
    if i < e {
        lemma_word_run_end(inp, i + 1, e);
    }
}

/// A word that starts with a letter or `_` is one token that takes every
/// letter, digit and `_` after it: it ends at the first other byte, and it is
/// the keyword or the identifier that the whole run spells.
pub proof fn law_word_is_maximal(inp: Seq<u8>, p: int, e: int)
    requires
        0 <= p < e <= inp.len(),
        (65 <= inp[p] && inp[p] <= 90) || (97 <= inp[p] && inp[p] <= 122) || inp[p] == 95,
        forall|j: int| p <= j < e ==> word_byte(#[trigger] inp[j]),
        e == inp.len() || !word_byte(inp[e]),
        e - p <= TEXTLEN,
    ensures
        lex_at(inp, p) == (Lexed::Tok { tt: word_token(inp.subrange(p, e)), end: e, la: e < inp.len() }),
{
    reveal(lex_at);
    lemma_word_run_end(inp, p, e);
}


/// The operator and the two operands of a binary node.
pub open spec fn split_binary(n: AstV) -> Option<(TokenTypeV, AstV, AstV)> {
    match n {
        AstNodeG::Add { left, right, .. } => Some((TokenTypeG::Plus, *left, *right)),
        AstNodeG::Subtract { left, right, .. } => Some((TokenTypeG::Minus, *left, *right)),
        AstNodeG::Multiply { left, right, .. } => Some((TokenTypeG::Star, *left, *right)),
        AstNodeG::Divide { left, right, .. } => Some((TokenTypeG::Slash, *left, *right)),
        AstNodeG::Equal { left, right, .. } => Some((TokenTypeG::EQ, *left, *right)),
        AstNodeG::NotEqual { left, right, .. } => Some((TokenTypeG::NE, *left, *right)),
        AstNodeG::LessThan { left, right, .. } => Some((TokenTypeG::LT, *left, *right)),
        AstNodeG::GreaterThan { left, right, .. } => Some((TokenTypeG::GT, *left, *right)),
        AstNodeG::LessThanOrEqual { left, right, .. } => Some((TokenTypeG::LE, *left, *right)),
        AstNodeG::GreaterThanOrEqual { left, right, .. } => Some((TokenTypeG::GE, *left, *right)),
        _ => None,
    }
}

/// The value of an integer literal node.
pub open spec fn literal_value(n: AstV) -> Option<i64> {
    match n {
        AstNodeG::IntLit { val, .. } => Some(val),
        _ => None,
    }
}

/// A literal or a binary node whose type is `char` or `int`.
pub open spec fn small_operand(n: AstV) -> bool {
    &&& (n is IntLit || split_binary(n) is Some)
    &&& (n.spec_get_type() == Some(PrimType::Char) || n.spec_get_type() == Some(PrimType::Int))
}

/// With `char` and `int` of some size, a binary operator joins two small
/// operands into its own node; widening an operand keeps its value or its
/// operator and operands.
proof fn lemma_combine_keeps_operands(sz: TypeSizes, tok: TokenV, l: AstV, r: AstV)
    requires
        is_binop_token(tok.ttype),
        small_operand(l),
        small_operand(r),
        sz.char_size > 0,
        sz.int_size > 0,
    ensures
        match spec_combine(sz, tok, l, r) {
            Ok(n) => small_operand(n) && match split_binary(n) {
                Some((o, l2, r2)) => o == tok.ttype && literal_value(l2) == literal_value(l)
                    && split_binary(l2) == split_binary(l) && literal_value(r2) == literal_value(r)
                    && split_binary(r2) == split_binary(r),
                None => false,
            },
            Err(_) => false,
        },
{
}

/// Operators of equal precedence fold to the left: an expression of three
/// integer literals joined by two binary operators that bind equally
/// strongly, followed by the end of the input or a token that is no
/// binary operator, parses as the second operator applied to the first
/// operator's node and the third literal.
pub proof fn law_binexpr_left_associative(
    inp: Seq<u8>,
    sz: TypeSizes,
    st0: PState,
    s1: PState,
    s2: PState,
    s3: PState,
    s4: PState,
    s5: PState,
    a: TokenV,
    op1: TokenV,
    b: TokenV,
    op2: TokenV,
    c: TokenV,
    va: i64,
    vb: i64,
    vc: i64,
)
    requires
        scan_ok(inp, st0.scan),
        sz.char_size > 0,
        sz.int_size > 0,
        a.ttype == TokenTypeG::<Seq<char>>::IntLit(va),
        b.ttype == TokenTypeG::<Seq<char>>::IntLit(vb),
        c.ttype == TokenTypeG::<Seq<char>>::IntLit(vc),
        is_binop_token(op1.ttype),
        is_binop_token(op2.ttype),
        op_prec(op1.ttype) == op_prec(op2.ttype),
        p_scan(inp, st0) == (Ok::<Option<TokenV>, crate::error::CompileError>(Some(a)), s1),
        p_scan(inp, s1) == (Ok::<Option<TokenV>, crate::error::CompileError>(Some(op1)), s2),
        p_scan(inp, s2) == (Ok::<Option<TokenV>, crate::error::CompileError>(Some(b)), s3),
        p_scan(inp, s3) == (Ok::<Option<TokenV>, crate::error::CompileError>(Some(op2)), s4),
        p_scan(inp, s4) == (Ok::<Option<TokenV>, crate::error::CompileError>(Some(c)), s5),
        match p_scan(inp, s5).0 {
            Ok(Some(t)) => !is_binop_token(t.ttype),
            Ok(None) => true,
            Err(_) => false,
        },
    ensures
        match sp_binexpr(inp, sz, st0, 0).0 {
            Ok(n) => match split_binary(n) {
                Some((o2, l, r)) => o2 == op2.ttype && literal_value(r) == Some(vc) && match split_binary(l) {
                    Some((o1, la, lb)) => o1 == op1.ttype && literal_value(la) == Some(va)
                        && literal_value(lb) == Some(vb),
                    None => false,
                },
                None => false,
            },
            Err(_) => false,
        },
{
    crate::grammar::lemma_p_scan(inp, st0);
    crate::grammar::lemma_p_scan(inp, s1);
    crate::grammar::lemma_p_scan(inp, s2);
    crate::grammar::lemma_p_scan(inp, s3);
    crate::grammar::lemma_p_scan(inp, s4);
    crate::grammar::lemma_p_scan(inp, s5);
    let prec = op_prec(op1.ttype);
    let na = AstNodeG::IntLit { val: va, dtype: literal_type(va) };
    let nb = AstNodeG::IntLit { val: vb, dtype: literal_type(vb) };
    let nc = AstNodeG::IntLit { val: vc, dtype: literal_type(vc) };
    // Each literal is a primary expression, read back from where it was put.
    assert(p_scan(inp, p_putback(s1, a)) == (Ok::<Option<TokenV>, crate::error::CompileError>(Some(a)), s1));
    assert(sp_primary(inp, sz, p_putback(s1, a)) == (Ok::<AstV, crate::error::CompileError>(na), s1));
    assert(sp_prefix(inp, sz, st0) == (Ok::<AstV, crate::error::CompileError>(na), s1));
    assert(p_scan(inp, p_putback(s3, b)) == (Ok::<Option<TokenV>, crate::error::CompileError>(Some(b)), s3));
    assert(sp_primary(inp, sz, p_putback(s3, b)) == (Ok::<AstV, crate::error::CompileError>(nb), s3));
    assert(sp_prefix(inp, sz, s2) == (Ok::<AstV, crate::error::CompileError>(nb), s3));
    assert(p_scan(inp, p_putback(s5, c)) == (Ok::<Option<TokenV>, crate::error::CompileError>(Some(c)), s5));
    assert(sp_primary(inp, sz, p_putback(s5, c)) == (Ok::<AstV, crate::error::CompileError>(nc), s5));
    assert(sp_prefix(inp, sz, s4) == (Ok::<AstV, crate::error::CompileError>(nc), s5));
    // The second operator binds no more strongly than the first: it ends the
    // first operator's right operand.
    assert(sp_binexpr_loop(inp, sz, s3, nb, prec) == (Ok::<AstV, crate::error::CompileError>(nb), p_putback(s4, op2)));
    assert(sp_binexpr(inp, sz, s2, prec) == (Ok::<AstV, crate::error::CompileError>(nb), p_putback(s4, op2)));
    lemma_combine_keeps_operands(sz, op1, na, nb);
    let n1 = spec_combine(sz, op1, na, nb).unwrap();
    // The second operator is read again and takes the first node as its left
    // operand.
    assert(p_scan(inp, p_putback(s4, op2)) == (Ok::<Option<TokenV>, crate::error::CompileError>(Some(op2)), s4));
    let (r5, s6) = p_scan(inp, s5);
    let after_c = match r5 {
        Ok(Some(t)) => p_putback(s6, t),
        _ => s6,
    };
    assert(sp_binexpr_loop(inp, sz, s5, nc, prec) == (Ok::<AstV, crate::error::CompileError>(nc), after_c));
    assert(sp_binexpr(inp, sz, s4, prec) == (Ok::<AstV, crate::error::CompileError>(nc), after_c));
    lemma_combine_keeps_operands(sz, op2, n1, nc);
    let n2 = spec_combine(sz, op2, n1, nc).unwrap();
    // Nothing binds after the third literal.
    match r5 {
        Ok(Some(t)) => {
            assert(p_scan(inp, p_putback(s6, t)) == (Ok::<Option<TokenV>, crate::error::CompileError>(Some(t)), s6));
        },
        _ => {
            reveal(lex_at);
            assert(p_scan(inp, s6).0 == Ok::<Option<TokenV>, crate::error::CompileError>(None));
        },
    }
    assert(sp_binexpr_loop(inp, sz, after_c, n2, 0).0 == Ok::<AstV, crate::error::CompileError>(n2));
    assert(sp_binexpr_loop(inp, sz, p_putback(s4, op2), n1, 0).0 == Ok::<AstV, crate::error::CompileError>(n2));
    assert(sp_binexpr_loop(inp, sz, s1, na, 0).0 == Ok::<AstV, crate::error::CompileError>(n2));
}


/// An operator that binds more strongly is applied first: three integer
/// literals joined by an operator and then a more strongly binding one,
/// followed by the end of the input or a token that is no binary operator,
/// parse as the first operator applied to the first literal and the second
/// operator's node.
pub proof fn law_binexpr_precedence(
    inp: Seq<u8>,
    sz: TypeSizes,
    st0: PState,
    s1: PState,
    s2: PState,
    s3: PState,
    s4: PState,
    s5: PState,
    a: TokenV,
    op1: TokenV,
    b: TokenV,
    op2: TokenV,
    c: TokenV,
    va: i64,
    vb: i64,
    vc: i64,
)
    requires
        scan_ok(inp, st0.scan),
        sz.char_size > 0,
        sz.int_size > 0,
        a.ttype == TokenTypeG::<Seq<char>>::IntLit(va),
        b.ttype == TokenTypeG::<Seq<char>>::IntLit(vb),
        c.ttype == TokenTypeG::<Seq<char>>::IntLit(vc),
        is_binop_token(op1.ttype),
        is_binop_token(op2.ttype),
        op_prec(op1.ttype) < op_prec(op2.ttype),
        p_scan(inp, st0) == (Ok::<Option<TokenV>, crate::error::CompileError>(Some(a)), s1),
        p_scan(inp, s1) == (Ok::<Option<TokenV>, crate::error::CompileError>(Some(op1)), s2),
        p_scan(inp, s2) == (Ok::<Option<TokenV>, crate::error::CompileError>(Some(b)), s3),
        p_scan(inp, s3) == (Ok::<Option<TokenV>, crate::error::CompileError>(Some(op2)), s4),
        p_scan(inp, s4) == (Ok::<Option<TokenV>, crate::error::CompileError>(Some(c)), s5),
        match p_scan(inp, s5).0 {
            Ok(Some(t)) => !is_binop_token(t.ttype),
            Ok(None) => true,
            Err(_) => false,
        },
    ensures
        match sp_binexpr(inp, sz, st0, 0).0 {
            Ok(n) => match split_binary(n) {
                Some((o1, l, r)) => o1 == op1.ttype && literal_value(l) == Some(va) && match split_binary(r) {
                    Some((o2, rb, rc)) => o2 == op2.ttype && literal_value(rb) == Some(vb)
                        && literal_value(rc) == Some(vc),
                    None => false,
                },
                None => false,
            },
            Err(_) => false,
        },
{
    crate::grammar::lemma_p_scan(inp, st0);
    crate::grammar::lemma_p_scan(inp, s1);
    crate::grammar::lemma_p_scan(inp, s2);
    crate::grammar::lemma_p_scan(inp, s3);
    crate::grammar::lemma_p_scan(inp, s4);
    crate::grammar::lemma_p_scan(inp, s5);
    let p1 = op_prec(op1.ttype);
    let p2 = op_prec(op2.ttype);
    let na = AstNodeG::IntLit { val: va, dtype: literal_type(va) };
    let nb = AstNodeG::IntLit { val: vb, dtype: literal_type(vb) };
    let nc = AstNodeG::IntLit { val: vc, dtype: literal_type(vc) };
    assert(p_scan(inp, p_putback(s1, a)) == (Ok::<Option<TokenV>, crate::error::CompileError>(Some(a)), s1));
    assert(sp_primary(inp, sz, p_putback(s1, a)) == (Ok::<AstV, crate::error::CompileError>(na), s1));
    assert(sp_prefix(inp, sz, st0) == (Ok::<AstV, crate::error::CompileError>(na), s1));
    assert(p_scan(inp, p_putback(s3, b)) == (Ok::<Option<TokenV>, crate::error::CompileError>(Some(b)), s3));
    assert(sp_primary(inp, sz, p_putback(s3, b)) == (Ok::<AstV, crate::error::CompileError>(nb), s3));
    assert(sp_prefix(inp, sz, s2) == (Ok::<AstV, crate::error::CompileError>(nb), s3));
    assert(p_scan(inp, p_putback(s5, c)) == (Ok::<Option<TokenV>, crate::error::CompileError>(Some(c)), s5));
    assert(sp_primary(inp, sz, p_putback(s5, c)) == (Ok::<AstV, crate::error::CompileError>(nc), s5));
    assert(sp_prefix(inp, sz, s4) == (Ok::<AstV, crate::error::CompileError>(nc), s5));
    let (r5, s6) = p_scan(inp, s5);
    let after_c = match r5 {
        Ok(Some(t)) => p_putback(s6, t),
        _ => s6,
    };
    match r5 {
        Ok(Some(t)) => {
            assert(p_scan(inp, p_putback(s6, t)) == (Ok::<Option<TokenV>, crate::error::CompileError>(Some(t)), s6));
        },
        _ => {
            reveal(lex_at);
            assert(p_scan(inp, s6).0 == Ok::<Option<TokenV>, crate::error::CompileError>(None));
        },
    }
    // The more strongly binding operator takes the second and third literals.
    assert(sp_binexpr_loop(inp, sz, s5, nc, p2) == (Ok::<AstV, crate::error::CompileError>(nc), after_c));
    assert(sp_binexpr(inp, sz, s4, p2) == (Ok::<AstV, crate::error::CompileError>(nc), after_c));
    lemma_combine_keeps_operands(sz, op2, nb, nc);
    let m = spec_combine(sz, op2, nb, nc).unwrap();
    assert(sp_binexpr_loop(inp, sz, after_c, m, p1) == (Ok::<AstV, crate::error::CompileError>(m), after_c));
    assert(sp_binexpr_loop(inp, sz, s3, nb, p1) == (Ok::<AstV, crate::error::CompileError>(m), after_c));
    assert(sp_binexpr(inp, sz, s2, p1) == (Ok::<AstV, crate::error::CompileError>(m), after_c));
    // That node is the right operand of the first operator.
    lemma_combine_keeps_operands(sz, op1, na, m);
    let n = spec_combine(sz, op1, na, m).unwrap();
    assert(sp_binexpr_loop(inp, sz, after_c, n, 0).0 == Ok::<AstV, crate::error::CompileError>(n));
    assert(sp_binexpr_loop(inp, sz, s1, na, 0).0 == Ok::<AstV, crate::error::CompileError>(n));
}

} // verus!
