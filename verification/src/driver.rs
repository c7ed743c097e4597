//! The whole compiler: parse a program, then generate code for it.
use vstd::prelude::*;
use crate::ast::{AstNode, AstV};
use crate::cgen::{
    ended_refused, gen_all, generation_error, glob_ops, lemma_gen_all_fail_prefix, BackendOp,
    CodeBackend, CodeGenerator, Gen, GenState,
};
use crate::error::CompileError;
use crate::expr::TypeSizes;
use crate::grammar::{
    lemma_function_declaration_ok, meas, size_of, sp_program, with_prefix, PState,
};
use crate::pars::Parser;
use crate::scan::{ScanState, Scanner};
use crate::sym::{filtered, EntryFilter, PrimType, StructuralType, SymbolEntryG, SymbolEntryV, SymbolTable};

verus! {

/// The symbols every program starts with: the function `printint`.
pub open spec fn builtin_symbols() -> Seq<SymbolEntryV> {
    seq![
        SymbolEntryG {
            name: "printint"@,
            dtype: PrimType::Void,
            stype: StructuralType::Function { end_label: None },
        },
    ]
}

/// The parser state at the start of a program.
pub open spec fn initial_state() -> PState {
    PState {
        scan: ScanState { pb: None, lpos: 0, pos: 0 },
        syms: builtin_symbols(),
        funcs: Seq::empty(),
    }
}

/// The type sizes of a back end.
pub open spec fn backend_sizes<B: CodeBackend>(b: B) -> TypeSizes {
    TypeSizes {
        char_size: b.spec_type_size(PrimType::Char),
        int_size: b.spec_type_size(PrimType::Int),
        long_size: b.spec_type_size(PrimType::Long),
        void_size: b.spec_type_size(PrimType::Void),
        char_ptr_size: b.spec_type_size(PrimType::CharPtr),
        int_ptr_size: b.spec_type_size(PrimType::IntPtr),
        long_ptr_size: b.spec_type_size(PrimType::LongPtr),
        void_ptr_size: b.spec_type_size(PrimType::VoidPtr),
    }
}

pub open spec fn views(v: Seq<AstNode>) -> Seq<AstV> {
    v.map_values(|n: AstNode| n@)
}

/// Compile the program `source` with `backend`: parse every function, then
/// emit the back end's preamble, the global variables and the code of each
/// function in order. The back end is handed back on failure as well. A parse
/// error is returned as it is, with the back end untouched; a code generation
/// failure is an invalid tree or a label overflow unless the back end refused
/// a request, and a program that can be translated fails only where the back
/// end refused a request.
pub fn compile<B: CodeBackend>(source: Vec<u8>, backend: B) -> (res: Result<B, (B, CompileError)>)
    requires
        source@.len() < usize::MAX,
    ensures
        ({
            let (parsed, st) = sp_program(source@, backend_sizes(backend), initial_state());
            &&& parsed matches Err(e) ==> res == Err::<B, (B, CompileError)>((backend, e))
            &&& parsed matches Ok(fns) ==> match gen_all(fns, GenState { last_label: 0, syms: st.syms }) {
                Gen::Fail => res matches Err((b, e)) && (generation_error(e) || ended_refused(
                    backend.ops(),
                    b.ops(),
                )),
                Gen::Done { ops, .. } => match res {
                    Ok(b) => b.ops() =~= backend.ops().push(BackendOp::Preamble) + glob_ops(
                        filtered(st.syms, EntryFilter::Variables),
                    ) + ops,
                    Err((b, _)) => ended_refused(backend.ops(), b.ops()),
                },
            }
        }),
        backend.in_sync() ==> match res {
            Ok(b) => b.in_sync(),
            Err((b, _)) => b.in_sync(),
        },
{
    let ghost inp = source@;
    let ghost b0 = backend;
    let scanner = Scanner::new(source);
    let symbols = SymbolTable::default();
    let probe = CodeGenerator::new(backend, &symbols);
    let mut parser = Parser::new(scanner, symbols, &probe);
    let ghost sz = parser.sizes();
    assert(sz == backend_sizes(b0)) by {
        assert(size_of(sz, PrimType::Char) == b0.spec_type_size(PrimType::Char));
        assert(size_of(sz, PrimType::Int) == b0.spec_type_size(PrimType::Int));
        assert(size_of(sz, PrimType::Long) == b0.spec_type_size(PrimType::Long));
        assert(size_of(sz, PrimType::Void) == b0.spec_type_size(PrimType::Void));
        assert(size_of(sz, PrimType::CharPtr) == b0.spec_type_size(PrimType::CharPtr));
        assert(size_of(sz, PrimType::IntPtr) == b0.spec_type_size(PrimType::IntPtr));
        assert(size_of(sz, PrimType::LongPtr) == b0.spec_type_size(PrimType::LongPtr));
        assert(size_of(sz, PrimType::VoidPtr) == b0.spec_type_size(PrimType::VoidPtr));
    }
    let ghost st0 = parser.pstate();
    assert(st0 == initial_state()) by {
        assert(crate::sym::entries_view(parser.expr.in_function@) =~= Seq::<SymbolEntryV>::empty());
    }
    let mut functions: Vec<AstNode> = Vec::new();
    loop
        invariant_except_break
            sp_program(inp, sz, st0) == with_prefix(views(functions@), sp_program(inp, sz, parser.pstate())),
        invariant
            inp == source@,
            b0 == backend,
            sz == backend_sizes(b0),
            st0 == initial_state(),
            parser.expr.scanner.wf(),
            parser.input() == inp,
            parser.sizes() == sz,
            parser.pstate().funcs.len() == 0,
            probe.spec_backend() == b0,
        ensures
            sp_program(inp, sz, st0) == (Ok::<Seq<AstV>, CompileError>(views(functions@)), parser.pstate()),
        decreases meas(inp, parser.pstate()),
    {
        let ghost st = parser.pstate();
        proof {
            parser.expr.scanner.lemma_view_bounds();
            lemma_function_declaration_ok(inp, sz, st);
        }
        match parser.function_declaration() {
            Err(e) => {
                assert(sp_program(inp, sz, st).0 == Err::<Seq<AstV>, CompileError>(e));
                return Err((probe.into_backend(), e));
            },
            Ok(None) => {
                assert(views(functions@) + Seq::<AstV>::empty() =~= views(functions@));
                break;
            },
            Ok(Some(tree)) => {
                let ghost before = functions@;
                functions.push(tree);
                proof {
                    assert(views(functions@) =~= views(before) + seq![tree@]);
                    let r = sp_program(inp, sz, parser.pstate());
                    match r.0 {
                        Ok(fs) => {
                            assert(views(before) + (seq![tree@] + fs) =~= views(functions@) + fs);
                        },
                        Err(_) => {},
                    }
                }
            },
        }
    }
    let target = probe.into_backend();
    let mut code_gen = CodeGenerator::new(target, parser.symbols());
    let ghost parsed = parser.pstate();
    let ghost syms = parser.pstate().syms;
    let ghost fns = views(functions@);
    match code_gen.gen_preamble() {
        Ok(()) => {},
        Err(e) => return Err((code_gen.into_backend(), e)),
    }
    let ghost base = code_gen.spec_backend().ops();
    let mut i: usize = 0;
    while i < functions.len()
        invariant
            inp == source@,
            b0 == backend,
            sz == backend_sizes(b0),
            st0 == initial_state(),
            sp_program(inp, sz, st0) == (Ok::<Seq<AstV>, CompileError>(fns), parsed),
            syms == parsed.syms,
            base == b0.ops().push(BackendOp::Preamble) + glob_ops(filtered(syms, EntryFilter::Variables)),
            i <= functions@.len(),
            fns == views(functions@),
            b0.in_sync() ==> code_gen.spec_backend().in_sync(),
            gen_all(fns.take(i as int), GenState { last_label: 0, syms }) matches Gen::Done { ops, st, .. }
                && code_gen.spec_backend().ops() =~= base + ops && code_gen.gen_state() == st,
        decreases functions@.len() - i,
    {
        proof {
            assert(fns.take(i + 1).drop_last() =~= fns.take(i as int));
            assert(fns.take(i + 1).last() == functions@[i as int]@);
        }
        let ghost before = code_gen.spec_backend().ops();
        match code_gen.gen_ast(&functions[i], None, None, 0) {
            Ok(_) => {},
            Err(e) => {
                proof {
                    if !ended_refused(before, code_gen.spec_backend().ops()) {
                        lemma_gen_all_fail_prefix(fns, i + 1, GenState { last_label: 0, syms });
                    }
                }
                return Err((code_gen.into_backend(), e));
            },
        }
        i += 1;
    }
    assert(fns.take(fns.len() as int) =~= fns);
    Ok(code_gen.into_backend())
}

} // verus!
