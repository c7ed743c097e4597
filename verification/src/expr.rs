//! The expression parser: a Pratt-style parser over binary operators with
//! prefix `&` and `*`, integer literals, variables and function calls.
use vstd::prelude::*;
use crate::ast::{
    is_binop_token, lemma_view_make_binary, lemma_view_new_type, lemma_view_shape, AstNode, AstNodeG,
    AstV,
};
use crate::cgen::{CodeBackend, CodeGenerator};
use crate::error::{CompileError, ErrorKind};
use crate::grammar::{
    lemma_binexpr_ok, lemma_p_expect, lemma_p_maybe, lemma_p_scan, lemma_prefix_ok, meas, op_prec,
    progress, size_of, sp_binexpr, sp_binexpr_loop, sp_function_call, sp_prefix, sp_primary,
    spec_combine, spec_type_compatibility, PRes, PState,
};
use crate::misc::{fatal_other, fatal_pos, fatal_tok};
use crate::scan::{Scanner, Token, TokenType, TokenTypeG};
use crate::sym::{entries_view, find_first, PrimType, SymbolEntry, SymbolTable};

verus! {

/// How two types meet in an expression.
#[derive(Clone, Copy, Debug, PartialEq, Eq, Structural)]
pub enum Compatibility {
    Incompatible,
    /// The types agree; carries the common type.
    Compatible(PrimType),
    /// The left side widens to this type.
    WidenLeft(PrimType),
    /// The right side widens to this type.
    WidenRight(PrimType),
}

/// The size in bytes of each primitive type on a back end.
#[derive(Clone, Copy, Debug, PartialEq, Eq, Structural)]
pub struct TypeSizes {
    pub char_size: usize,
    pub int_size: usize,
    pub long_size: usize,
    pub void_size: usize,
    pub char_ptr_size: usize,
    pub int_ptr_size: usize,
    pub long_ptr_size: usize,
    pub void_ptr_size: usize,
}

/// Binding strength of a binary operator; an error for any other token.
pub fn op_precedence(line: usize, token: &TokenType) -> (r: Result<i16, CompileError>)
    ensures
        is_binop_token(*token) ==> r == Ok::<i16, CompileError>(op_prec(*token) as i16),
        !is_binop_token(*token) ==> r == Err::<i16, CompileError>(
            CompileError { kind: ErrorKind::SyntaxError, line },
        ),
{
    match token {
        TokenTypeG::Plus | TokenTypeG::Minus => Ok(10),
        TokenTypeG::Star | TokenTypeG::Slash => Ok(20),
        TokenTypeG::EQ | TokenTypeG::NE => Ok(30),
        TokenTypeG::LT | TokenTypeG::LE | TokenTypeG::GT | TokenTypeG::GE => Ok(40),
        _ => Err(CompileError { kind: ErrorKind::SyntaxError, line }),
    }
}

/// Whether the token is a binary operator.
pub fn is_arithop(token: &TokenType) -> (r: bool)
    ensures
        r == is_binop_token(*token),
{
    match token {
        TokenTypeG::Plus | TokenTypeG::Minus | TokenTypeG::Star | TokenTypeG::Slash
        | TokenTypeG::EQ | TokenTypeG::NE | TokenTypeG::LT | TokenTypeG::LE | TokenTypeG::GT
        | TokenTypeG::GE => true,
        _ => false,
    }
}

/// A parse result as specifications see it.
pub open spec fn res_view(r: Result<AstNode, CompileError>) -> Result<AstV, CompileError> {
    match r {
        Ok(n) => Ok(n@),
        Err(e) => Err(e),
    }
}

/// The expression parser: a scanner, the symbol table, the type sizes of the
/// target, and the stack of functions whose bodies are being parsed.
pub struct ExpressionGenerator {
    pub scanner: Scanner,
    pub sym_table: SymbolTable,
    pub sizes: TypeSizes,
    pub in_function: Vec<SymbolEntry>,
}

impl ExpressionGenerator {
    /// The source text.
    pub open spec fn input(&self) -> Seq<u8> {
        self.scanner.text()
    }

    /// The parser state that the grammar speaks of.
    pub open spec fn pstate(&self) -> PState {
        PState {
            scan: self.scanner@,
            syms: self.sym_table@,
            funcs: entries_view(self.in_function@),
        }
    }

    /// `self` is what `before` became after a parse that returned `res` where
    /// the grammar says `expect`: same result, and on success the same state.
    pub open spec fn follows(self, before: Self, expect: PRes<AstV>, res: Result<AstNode, CompileError>) -> bool {
        &&& self.scanner.wf()
        &&& self.input() == before.input()
        &&& self.sizes == before.sizes
        &&& res_view(res) == expect.0
        &&& expect.0 is Ok ==> self.pstate() == expect.1
    }

    /// A parser over `scanner` and `sym_table` for the back end of `code_gen`,
    /// outside any function.
    pub fn new<B: CodeBackend>(scanner: Scanner, sym_table: SymbolTable, code_gen: &CodeGenerator<B>) -> (e: Self)
        ensures
            e.scanner == scanner,
            e.sym_table == sym_table,
            e.in_function@.len() == 0,
            forall|t: PrimType| #[trigger] size_of(e.sizes, t) == code_gen.spec_backend().spec_type_size(t),
    {
        let sizes = TypeSizes {
            char_size: code_gen.type_size(PrimType::Char),
            int_size: code_gen.type_size(PrimType::Int),
            long_size: code_gen.type_size(PrimType::Long),
            void_size: code_gen.type_size(PrimType::Void),
            char_ptr_size: code_gen.type_size(PrimType::CharPtr),
            int_ptr_size: code_gen.type_size(PrimType::IntPtr),
            long_ptr_size: code_gen.type_size(PrimType::LongPtr),
            void_ptr_size: code_gen.type_size(PrimType::VoidPtr),
        };
        ExpressionGenerator { scanner, sym_table, sizes, in_function: Vec::new() }
    }

    fn size(&self, t: PrimType) -> (r: usize)
        ensures
            r == size_of(self.sizes, t),
    {
        match t {
            PrimType::Char => self.sizes.char_size,
            PrimType::Int => self.sizes.int_size,
            PrimType::Long => self.sizes.long_size,
            PrimType::Void => self.sizes.void_size,
            PrimType::CharPtr => self.sizes.char_ptr_size,
            PrimType::IntPtr => self.sizes.int_ptr_size,
            PrimType::LongPtr => self.sizes.long_ptr_size,
            PrimType::VoidPtr => self.sizes.void_ptr_size,
        }
    }

    /// Whether two types can meet in one expression; with `only_right`, only
    /// the left side may be widened.
    pub fn type_compatibility(&self, left: PrimType, right: PrimType, only_right: bool) -> (c: Compatibility)
        ensures
            c == spec_type_compatibility(self.sizes, left, right, only_right),
    {
        let size_left = self.size(left);
        let size_right = self.size(right);
        if left == right {
            Compatibility::Compatible(left)
        } else if size_left == 0 || size_right == 0 {
            Compatibility::Incompatible
        } else if size_left < size_right {
            Compatibility::WidenLeft(right)
        } else if size_right < size_left {
            if only_right {
                Compatibility::Incompatible
            } else {
                Compatibility::WidenRight(left)
            }
        } else {
            Compatibility::Compatible(left)
        }
    }

    /// Enter the body of the function `id`, which the symbol table holds.
    pub fn enter_function(&mut self, id: &str)
        requires
            find_first(old(self).sym_table@, id@) is Some,
        ensures
            final(self).scanner == old(self).scanner,
            final(self).sym_table == old(self).sym_table,
            final(self).sizes == old(self).sizes,
            final(self).pstate().funcs == old(self).pstate().funcs.push(
                old(self).sym_table@[find_first(old(self).sym_table@, id@).unwrap()],
            ),
    {
        let ghost before = self.in_function@;
        if let Some(sym) = self.sym_table.find_glob(id) {
            let e = sym.duplicate();
            self.in_function.push(e);
            assert(entries_view(self.in_function@) =~= entries_view(before).push(e@));
        }
    }

    /// The type of the function being parsed.
    pub fn current_function_type(&self) -> (r: PrimType)
        requires
            self.pstate().funcs.len() > 0,
        ensures
            r == self.pstate().funcs.last().dtype,
    {
        let n = self.in_function.len();
        self.in_function[n - 1].dtype
    }

    /// The name of the function being parsed.
    pub fn current_function_name(&self) -> (r: String)
        requires
            self.pstate().funcs.len() > 0,
        ensures
            r@ == self.pstate().funcs.last().name,
    {
        let n = self.in_function.len();
        self.in_function[n - 1].name.clone()
    }

    /// Leave the body of the innermost function.
    pub fn exit_function(&mut self)
        requires
            old(self).in_function@.len() > 0,
        ensures
            final(self).scanner == old(self).scanner,
            final(self).sym_table == old(self).sym_table,
            final(self).sizes == old(self).sizes,
            final(self).pstate().funcs == old(self).pstate().funcs.drop_last(),
    {
        let ghost before = self.in_function@;
        let _ = self.in_function.pop();
        assert(entries_view(self.in_function@) =~= entries_view(before).drop_last());
    }

    /// The argument and `)` of a call of the function that `token` names,
    /// whose `(` was read.
    pub fn function_call(&mut self, token: Token) -> (res: Result<AstNode, CompileError>)
        requires
            old(self).scanner.wf(),
            token.ttype is Ident,
        ensures
            final(self).follows(
                *old(self),
                sp_function_call(
                    old(self).input(),
                    old(self).sizes,
                    old(self).pstate(),
                    token@.ttype->Ident_0,
                    token.line,
                ),
                res,
            ),
        decreases meas(old(self).input(), old(self).pstate()), 4nat,
    {
        proof {
            self.scanner.lemma_view_bounds();
            lemma_binexpr_ok(self.input(), self.sizes, self.pstate(), 0);
        }
        let found = match &token.ttype {
            TokenTypeG::Ident(id) => match self.sym_table.find_glob(id.as_str()) {
                Some(sym) => Some(sym.dtype),
                None => None,
            },
            _ => None,
        };
        match found {
            None => Err(fatal_other(ErrorKind::UndeclaredFunction, &token)),
            Some(dtype) => {
                let expr = match self.binexpr(0) {
                    Ok(e) => e,
                    Err(e) => return Err(e),
                };
                proof {
                    self.scanner.lemma_view_bounds();
                }
                match self.scanner.rparen() {
                    Ok(_) => {},
                    Err(e) => return Err(e),
                }
                match &token.ttype {
                    TokenTypeG::Ident(id) => Ok(AstNode::make_function_call(id.as_str(), expr, dtype)),
                    _ => Err(fatal_pos(ErrorKind::SyntaxError, &token)),
                }
            },
        }
    }

    /// A primary expression: an integer literal, a variable or a function call.
    /// Source text that breaks the grammar or the typing rules is a fatal
    /// error: the parse stops and returns `Err` with the kind and the line.
    /// A token that starts no primary expression gives `SyntaxError`, the end
    /// of the input `UnexpectedEof`, and an undeclared name
    /// `UnknownVariable`.
    pub fn primary(&mut self) -> (res: Result<AstNode, CompileError>)
        requires
            old(self).scanner.wf(),
        ensures
            final(self).follows(
                *old(self),
                sp_primary(old(self).input(), old(self).sizes, old(self).pstate()),
                res,
            ),
        decreases meas(old(self).input(), old(self).pstate()), 1nat,
    {
        proof {
            self.scanner.lemma_view_bounds();
            lemma_p_scan(self.input(), self.pstate());
        }
        let tok = match self.scanner.scan() {
            Err(e) => return Err(e),
            Ok(None) => return Err(self.scanner.fatal(ErrorKind::UnexpectedEof)),
            Ok(Some(t)) => t,
        };
        let is_ident = match &tok.ttype {
            TokenTypeG::IntLit(v) => {
                let v = *v;
                return if v >= 0 && v < 256 {
                    Ok(AstNode::make_intlit(v, PrimType::Char))
                } else {
                    Ok(AstNode::make_intlit(v, PrimType::Int))
                };
            },
            TokenTypeG::Ident(_) => true,
            _ => false,
        };
        if !is_ident {
            return Err(fatal_tok(ErrorKind::SyntaxError, &tok));
        }
        proof {
            self.scanner.lemma_view_bounds();
            lemma_p_maybe(self.input(), self.pstate(), TokenTypeG::LeftParen);
        }
        match self.scanner.maybe_token(TokenTypeG::LeftParen) {
            Err(e) => Err(e),
            Ok(true) => self.function_call(tok),
            Ok(false) => match &tok.ttype {
                TokenTypeG::Ident(id) => match self.sym_table.find_glob(id.as_str()) {
                    Some(sym) => Ok(AstNode::make_ident(id.as_str(), sym.dtype)),
                    None => Err(fatal_other(ErrorKind::UnknownVariable, &tok)),
                },
                _ => Err(fatal_tok(ErrorKind::SyntaxError, &tok)),
            },
        }
    }

    /// A prefix expression: `&` or `*` before a prefix expression, or a primary one.
    fn prefix(&mut self) -> (res: Result<AstNode, CompileError>)
        requires
            old(self).scanner.wf(),
        ensures
            final(self).follows(
                *old(self),
                sp_prefix(old(self).input(), old(self).sizes, old(self).pstate()),
                res,
            ),
        decreases meas(old(self).input(), old(self).pstate()), 2nat,
    {
        proof {
            self.scanner.lemma_view_bounds();
            lemma_p_scan(self.input(), self.pstate());
        }
        let tok = match self.scanner.scan() {
            Err(e) => return Err(e),
            Ok(None) => return Err(self.scanner.fatal(ErrorKind::UnexpectedEof)),
            Ok(Some(t)) => t,
        };
        let which: u8 = match &tok.ttype {
            TokenTypeG::Amper => 0,
            TokenTypeG::Star => 1,
            _ => 2,
        };
        if which == 2 {
            self.scanner.putback_token(tok);
            return self.primary();
        }
        let n = match self.prefix() {
            Ok(n) => n,
            Err(e) => return Err(e),
        };
        proof {
            lemma_view_shape(n);
        }
        if which == 0 {
            let shape: u8 = match &n {
                AstNodeG::Ident { dtype, .. } => if dtype.is_ptr() {
                    1
                } else {
                    0
                },
                _ => 2,
            };
            if shape == 0 {
                Ok(n.into_pointer())
            } else if shape == 1 {
                Err(self.scanner.fatal(ErrorKind::PointerToPointer))
            } else {
                Err(self.scanner.fatal(ErrorKind::AddressOfNonIdentifier))
            }
        } else {
            let named = match &n {
                AstNodeG::Ident { .. } | AstNodeG::Deref { .. } => true,
                _ => false,
            };
            if !named {
                return Err(self.scanner.fatal(ErrorKind::DerefOfNonIdentifier));
            }
            let is_ptr = match n.get_type() {
                Some(t) => t.is_ptr(),
                None => false,
            };
            if !is_ptr {
                return Err(self.scanner.fatal(ErrorKind::DerefOfNonPointer));
            }
            Ok(n.make_deref())
        }
    }

    /// An expression whose binary operators bind more strongly than `ptp`,
    /// folded to the left.
    pub fn binexpr(&mut self, ptp: i16) -> (res: Result<AstNode, CompileError>)
        requires
            old(self).scanner.wf(),
        ensures
            final(self).follows(
                *old(self),
                sp_binexpr(old(self).input(), old(self).sizes, old(self).pstate(), ptp as int),
                res,
            ),
        decreases meas(old(self).input(), old(self).pstate()), 3nat,
    {
        let ghost inp = self.input();
        let ghost sz = self.sizes;
        let ghost st0 = self.pstate();
        proof {
            self.scanner.lemma_view_bounds();
            lemma_prefix_ok(inp, sz, st0);
        }
        let mut left = match self.prefix() {
            Ok(n) => n,
            Err(e) => return Err(e),
        };
        loop
            invariant
                self.scanner.wf(),
                self.input() == inp,
                self.sizes == sz,
                inp == old(self).input(),
                sz == old(self).sizes,
                st0 == old(self).pstate(),
                meas(inp, self.pstate()) < meas(inp, st0),
                sp_binexpr_loop(inp, sz, self.pstate(), left@, ptp as int) == sp_binexpr(
                    inp,
                    sz,
                    st0,
                    ptp as int,
                ),
            decreases meas(inp, self.pstate()),
        {
            let ghost st = self.pstate();
            proof {
                self.scanner.lemma_view_bounds();
                lemma_p_scan(inp, st);
            }
            let tok = match self.scanner.scan() {
                Err(e) => return Err(e),
                Ok(None) => return Ok(left),
                Ok(Some(t)) => t,
            };
            if !is_arithop(&tok.ttype) {
                self.scanner.putback_token(tok);
                return Ok(left);
            }
            let curr_prec = match op_precedence(self.scanner.get_line(), &tok.ttype) {
                Ok(p) => p,
                Err(e) => return Err(e),
            };
            if curr_prec <= ptp {
                self.scanner.putback_token(tok);
                return Ok(left);
            }
            let ghost st1 = self.pstate();
            proof {
                self.scanner.lemma_view_bounds();
                lemma_binexpr_ok(inp, sz, st1, curr_prec as int);
            }
            let mut right = match self.binexpr(curr_prec) {
                Ok(n) => n,
                Err(e) => return Err(e),
            };
            proof {
                lemma_view_shape(left);
                lemma_view_shape(right);
            }
            let compat = match (left.get_type(), right.get_type()) {
                (Some(lt), Some(rt)) => self.type_compatibility(lt, rt, false),
                _ => Compatibility::Incompatible,
            };
            let bin_type = match compat {
                Compatibility::Incompatible => return Err(fatal_pos(ErrorKind::IncompatibleTypes, &tok)),
                Compatibility::WidenLeft(t) => {
                    if !left.can_change_type() {
                        return Err(fatal_pos(ErrorKind::CantChangeType, &tok));
                    }
                    proof {
                        lemma_view_new_type(left, t);
                    }
                    left = left.new_type(t);
                    t
                },
                Compatibility::WidenRight(t) => {
                    if !right.can_change_type() {
                        return Err(fatal_pos(ErrorKind::CantChangeType, &tok));
                    }
                    proof {
                        lemma_view_new_type(right, t);
                    }
                    right = right.new_type(t);
                    t
                },
                Compatibility::Compatible(t) => t,
            };
            proof {
                lemma_view_make_binary(tok.ttype, left, right, bin_type);
            }
            left = AstNode::make_binary(tok.ttype, left, right, bin_type);
        }
    }
}

} // verus!
