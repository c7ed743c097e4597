//! The statement parser: declarations, assignments, calls, `if`, `while`,
//! `for`, `return`, blocks and function definitions.
use vstd::prelude::*;
use crate::ast::{lemma_view_new_type, lemma_view_shape, AstNode, AstNodeG, AstV};
use crate::cgen::{CodeBackend, CodeGenerator};
use crate::error::{CompileError, ErrorKind};
use crate::expr::{res_view, Compatibility, ExpressionGenerator, TypeSizes};
use crate::grammar::{
    lemma_add_sym_find, lemma_binexpr_ok, lemma_compound_ok, lemma_condition_ok, lemma_p_expect,
    lemma_p_ident, lemma_p_is_eof, lemma_p_maybe, lemma_p_scan, lemma_single_ok, line_now, meas,
    progress, size_of, sp_assignment, sp_compound, sp_compound_loop, sp_condition, sp_for,
    sp_function_declaration, sp_if, sp_return, sp_single, sp_stars, sp_var_declaration,
    sp_while, spec_widen, PState,
};
use crate::misc::fatal_pos;
use crate::scan::{Scanner, Token, TokenTypeG};
use crate::sym::{PrimType, StructuralType, SymbolTable};

verus! {

/// A parse result that may be absent, as specifications see it.
pub open spec fn opt_res_view(r: Result<Option<AstNode>, CompileError>) -> Result<Option<AstV>, CompileError> {
    match r {
        Ok(Some(n)) => Ok(Some(n@)),
        Ok(None) => Ok(None),
        Err(e) => Err(e),
    }
}

/// The statement parser, on top of the expression parser.
pub struct Parser {
    pub expr: ExpressionGenerator,
}

impl Parser {
    /// The source text.
    pub open spec fn input(&self) -> Seq<u8> {
        self.expr.input()
    }

    /// The parser state that the grammar speaks of.
    pub open spec fn pstate(&self) -> PState {
        self.expr.pstate()
    }

    /// The type sizes of the target.
    pub open spec fn sizes(&self) -> TypeSizes {
        self.expr.sizes
    }

    /// A parser over `scanner` and `symbols` for the back end of `code_gen`.
    pub fn new<B: CodeBackend>(scanner: Scanner, symbols: SymbolTable, code_gen: &CodeGenerator<B>) -> (p: Parser)
        ensures
            p.expr.scanner == scanner,
            p.expr.sym_table == symbols,
            p.expr.in_function@.len() == 0,
            forall|t: PrimType| #[trigger] size_of(p.sizes(), t) == code_gen.spec_backend().spec_type_size(t),
    {
        Parser { expr: ExpressionGenerator::new(scanner, symbols, code_gen) }
    }

    /// The symbol table, with every symbol declared so far.
    pub fn symbols(&self) -> (r: &SymbolTable)
        ensures
            *r == self.expr.sym_table,
    {
        &self.expr.sym_table
    }

    /// A condition: an expression that must be a comparison.
    fn condition(&mut self) -> (res: Result<AstNode, CompileError>)
        requires
            old(self).expr.scanner.wf(),
        ensures
            final(self).expr.follows(
                old(self).expr,
                sp_condition(old(self).input(), old(self).sizes(), old(self).pstate()),
                res,
            ),
    {
        let tree = match self.expr.binexpr(0) {
            Ok(t) => t,
            Err(e) => return Err(e),
        };
        proof {
            lemma_view_shape(tree);
        }
        if !tree.is_comparison() {
            return Err(self.expr.scanner.fatal(ErrorKind::BadComparison));
        }
        Ok(tree)
    }

    /// `expr` made to fit a target of type `target` (see `spec_widen`).
    fn widen(&self, expr: AstNode, target: PrimType, incompat: ErrorKind) -> (r: Result<AstNode, CompileError>)
        requires
            self.expr.scanner.wf(),
        ensures
            res_view(r) == spec_widen(
                self.sizes(),
                expr@,
                target,
                incompat,
                line_now(self.input(), self.pstate()),
            ),
    {
        proof {
            lemma_view_shape(expr);
        }
        let ltype = match expr.get_type() {
            Some(t) => t,
            None => return Err(self.expr.scanner.fatal(ErrorKind::InvalidTree)),
        };
        match self.expr.type_compatibility(ltype, target, true) {
            Compatibility::Compatible(_) => Ok(expr),
            Compatibility::WidenLeft(t) => {
                if expr.can_change_type() {
                    proof {
                        lemma_view_new_type(expr, t);
                    }
                    Ok(expr.new_type(t))
                } else {
                    Err(self.expr.scanner.fatal(ErrorKind::CantChangeType))
                }
            },
            _ => Err(self.expr.scanner.fatal(incompat)),
        }
    }

    /// The stars after a type keyword, applied to `dtype`.
    fn stars(&mut self, dtype: PrimType) -> (res: Result<PrimType, CompileError>)
        requires
            old(self).expr.scanner.wf(),
        ensures
            final(self).expr.scanner.wf(),
            final(self).input() == old(self).input(),
            final(self).sizes() == old(self).sizes(),
            ({
                let (r, st2) = sp_stars(old(self).input(), old(self).pstate(), dtype);
                &&& res == r
                &&& r is Ok ==> final(self).pstate() == st2
            }),
        decreases meas(old(self).input(), old(self).pstate()),
    {
        proof {
            self.expr.scanner.lemma_view_bounds();
            lemma_p_maybe(self.input(), self.pstate(), TokenTypeG::Star);
        }
        match self.expr.scanner.maybe_token(TokenTypeG::Star) {
            Err(e) => Err(e),
            Ok(false) => Ok(dtype),
            Ok(true) => {
                if dtype.is_ptr() {
                    Err(self.expr.scanner.fatal(ErrorKind::PointerToPointer))
                } else {
                    self.stars(dtype.pointer_to())
                }
            },
        }
    }

    /// A variable declaration after its type keyword `type_token`.
    fn var_declaration(&mut self, type_token: Token) -> (res: Result<AstNode, CompileError>)
        requires
            old(self).expr.scanner.wf(),
            type_token.ttype.spec_is_type(),
        ensures
            final(self).expr.follows(
                old(self).expr,
                sp_var_declaration(old(self).input(), old(self).pstate(), type_token@.ttype),
                res,
            ),
    {
        let dtype = match self.stars(PrimType::from_token(type_token.ttype)) {
            Ok(t) => t,
            Err(e) => return Err(e),
        };
        let ident = match self.expr.scanner.ident() {
            Ok(i) => i,
            Err(e) => return Err(e),
        };
        self.expr.sym_table.add_glob(ident.as_str(), dtype, StructuralType::Variable);
        Ok(AstNode::make_global_declaration(ident.as_str(), dtype))
    }

    /// An assignment to `ident`, whose `=` was read.
    fn assignment_statement(&mut self, ident: String) -> (res: Result<AstNode, CompileError>)
        requires
            old(self).expr.scanner.wf(),
        ensures
            final(self).expr.follows(
                old(self).expr,
                sp_assignment(old(self).input(), old(self).sizes(), old(self).pstate(), ident@),
                res,
            ),
    {
        let dtype = match self.expr.sym_table.find_glob(ident.as_str()) {
            Some(sym) => sym.dtype,
            None => return Err(self.expr.scanner.fatal_extra(ErrorKind::UndeclaredVariable)),
        };
        let id = AstNode::make_lvident(ident.as_str(), dtype);
        proof {
            lemma_view_shape(id);
        }
        let expr = match self.expr.binexpr(-1) {
            Ok(e) => e,
            Err(e) => return Err(e),
        };
        let expr = match self.widen(expr, dtype, ErrorKind::IncompatibleTypes) {
            Ok(e) => e,
            Err(e) => return Err(e),
        };
        Ok(AstNode::make_assign(id, expr))
    }

    /// `if`, whose keyword was read.
    #[verifier::rlimit(80)]
    #[verifier::spinoff_prover]
    fn if_statement(&mut self) -> (res: Result<AstNode, CompileError>)
        requires
            old(self).expr.scanner.wf(),
        ensures
            final(self).expr.follows(
                old(self).expr,
                sp_if(old(self).input(), old(self).sizes(), old(self).pstate()),
                res,
            ),
        decreases meas(old(self).input(), old(self).pstate()), 1nat,
    {
        let ghost inp = self.input();
        let ghost sz = self.sizes();
        let ghost st = self.pstate();
        proof {
            self.expr.scanner.lemma_view_bounds();
            lemma_p_expect(inp, st, TokenTypeG::LeftParen);
        }
        match self.expr.scanner.lparen() {
            Ok(_) => {},
            Err(e) => return Err(e),
        }
        proof {
            self.expr.scanner.lemma_view_bounds();
            lemma_condition_ok(inp, sz, self.pstate());
        }
        let condition = match self.condition() {
            Ok(c) => c,
            Err(e) => return Err(e),
        };
        proof {
            self.expr.scanner.lemma_view_bounds();
            lemma_p_expect(inp, self.pstate(), TokenTypeG::RightParen);
        }
        match self.expr.scanner.rparen() {
            Ok(_) => {},
            Err(e) => return Err(e),
        }
        proof {
            self.expr.scanner.lemma_view_bounds();
            lemma_compound_ok(inp, sz, self.pstate());
        }
        let true_branch = match self.compound_statement() {
            Ok(b) => b,
            Err(e) => return Err(e),
        };
        proof {
            self.expr.scanner.lemma_view_bounds();
            lemma_p_maybe(inp, self.pstate(), TokenTypeG::Else);
        }
        let false_branch = match self.expr.scanner.maybe_token(TokenTypeG::Else) {
            Err(e) => return Err(e),
            Ok(false) => None,
            Ok(true) => match self.compound_statement() {
                Ok(b) => Some(b),
                Err(e) => return Err(e),
            },
        };
        Ok(AstNode::make_if(condition, true_branch, false_branch))
    }

    /// `while`, whose keyword was read.
    fn while_statement(&mut self) -> (res: Result<AstNode, CompileError>)
        requires
            old(self).expr.scanner.wf(),
        ensures
            final(self).expr.follows(
                old(self).expr,
                sp_while(old(self).input(), old(self).sizes(), old(self).pstate()),
                res,
            ),
        decreases meas(old(self).input(), old(self).pstate()), 1nat,
    {
        let ghost inp = self.input();
        let ghost sz = self.sizes();
        let ghost st = self.pstate();
        proof {
            self.expr.scanner.lemma_view_bounds();
            lemma_p_expect(inp, st, TokenTypeG::LeftParen);
        }
        match self.expr.scanner.lparen() {
            Ok(_) => {},
            Err(e) => return Err(e),
        }
        proof {
            self.expr.scanner.lemma_view_bounds();
            lemma_condition_ok(inp, sz, self.pstate());
        }
        let condition = match self.condition() {
            Ok(c) => c,
            Err(e) => return Err(e),
        };
        proof {
            self.expr.scanner.lemma_view_bounds();
            lemma_p_expect(inp, self.pstate(), TokenTypeG::RightParen);
        }
        match self.expr.scanner.rparen() {
            Ok(_) => {},
            Err(e) => return Err(e),
        }
        let body = match self.compound_statement() {
            Ok(b) => b,
            Err(e) => return Err(e),
        };
        Ok(AstNode::make_while(condition, body))
    }

    /// `for`, whose keyword was read: `for (pre; cond; post) body` becomes
    /// `pre` followed by `while (cond) { body post }`.
    #[verifier::rlimit(80)]
    #[verifier::spinoff_prover]
    fn for_statement(&mut self) -> (res: Result<AstNode, CompileError>)
        requires
            old(self).expr.scanner.wf(),
        ensures
            final(self).expr.follows(
                old(self).expr,
                sp_for(old(self).input(), old(self).sizes(), old(self).pstate()),
                res,
            ),
        decreases meas(old(self).input(), old(self).pstate()), 1nat,
    {
        let ghost inp = self.input();
        let ghost sz = self.sizes();
        let ghost st = self.pstate();
        proof {
            self.expr.scanner.lemma_view_bounds();
            lemma_p_expect(inp, st, TokenTypeG::LeftParen);
        }
        match self.expr.scanner.lparen() {
            Ok(_) => {},
            Err(e) => return Err(e),
        }
        proof {
            self.expr.scanner.lemma_view_bounds();
            lemma_single_ok(inp, sz, self.pstate());
        }
        let pre_op = match self.single_statement() {
            Ok(s) => s,
            Err(e) => return Err(e),
        };
        proof {
            self.expr.scanner.lemma_view_bounds();
            lemma_p_expect(inp, self.pstate(), TokenTypeG::Semi);
        }
        match self.expr.scanner.semi() {
            Ok(_) => {},
            Err(e) => return Err(e),
        }
        proof {
            self.expr.scanner.lemma_view_bounds();
            lemma_condition_ok(inp, sz, self.pstate());
        }
        let condition = match self.condition() {
            Ok(c) => c,
            Err(e) => return Err(e),
        };
        proof {
            self.expr.scanner.lemma_view_bounds();
            lemma_p_expect(inp, self.pstate(), TokenTypeG::Semi);
        }
        match self.expr.scanner.semi() {
            Ok(_) => {},
            Err(e) => return Err(e),
        }
        proof {
            self.expr.scanner.lemma_view_bounds();
            lemma_single_ok(inp, sz, self.pstate());
        }
        let post_op = match self.single_statement() {
            Ok(s) => s,
            Err(e) => return Err(e),
        };
        proof {
            self.expr.scanner.lemma_view_bounds();
            lemma_p_expect(inp, self.pstate(), TokenTypeG::RightParen);
        }
        match self.expr.scanner.rparen() {
            Ok(_) => {},
            Err(e) => return Err(e),
        }
        let body = match self.compound_statement() {
            Ok(b) => b,
            Err(e) => return Err(e),
        };
        let tail = AstNode::make_glue(body, post_op);
        let ghost tail_view = tail@;
        let looped = AstNode::make_while(condition, tail);
        assert(looped@ == (AstNodeG::While { cond: Box::new(condition@), body: Box::new(tail_view) }));
        Ok(AstNode::make_glue(pre_op, looped))
    }

    /// A function definition; `None` at the end of the input.
    /// Source text that breaks the grammar or the typing rules is a fatal
    /// error: the parse stops and returns `Err` with the kind and the line.
    /// An item that does not start with a type gives
    /// `ExpectedFunctionDeclaration`; a non-void function whose body does not
    /// end with a `return` gives `MissingReturn`.
    #[verifier::rlimit(100)]
    #[verifier::spinoff_prover]
    pub fn function_declaration(&mut self) -> (res: Result<Option<AstNode>, CompileError>)
        requires
            old(self).expr.scanner.wf(),
        ensures
            final(self).expr.scanner.wf(),
            final(self).input() == old(self).input(),
            final(self).sizes() == old(self).sizes(),
            ({
                let (r, st2) = sp_function_declaration(old(self).input(), old(self).sizes(), old(self).pstate());
                &&& opt_res_view(res) == r
                &&& r is Ok ==> final(self).pstate() == st2
            }),
    {
        let ghost inp = self.input();
        let ghost sz = self.sizes();
        proof {
            reveal(sp_function_declaration);
            self.expr.scanner.lemma_view_bounds();
        }
        let t = match self.expr.scanner.scan() {
            Err(e) => return Err(e),
            Ok(None) => return Ok(None),
            Ok(Some(t)) => t,
        };
        if !t.is_type() {
            return Err(fatal_pos(ErrorKind::ExpectedFunctionDeclaration, &t));
        }
        let ftype = PrimType::from_token(t.ttype);
        let ident = match self.expr.scanner.ident() {
            Ok(i) => i,
            Err(e) => return Err(e),
        };
        let name = AstNode::make_ident(ident.as_str(), ftype);
        proof {
            lemma_view_shape(name);
            lemma_add_sym_find(self.pstate(), ident@, ftype);
        }
        self.expr.sym_table.add_glob_fn(ident.as_str(), ftype);
        match self.expr.scanner.lparen() {
            Ok(_) => {},
            Err(e) => return Err(e),
        }
        match self.expr.scanner.rparen() {
            Ok(_) => {},
            Err(e) => return Err(e),
        }
        self.expr.enter_function(ident.as_str());
        proof {
            self.expr.scanner.lemma_view_bounds();
            lemma_compound_ok(inp, sz, self.pstate());
        }
        let body = match self.compound_statement() {
            Ok(b) => b,
            Err(e) => return Err(e),
        };
        self.expr.exit_function();
        proof {
            lemma_view_shape(body);
        }
        if ftype != PrimType::Void {
            let has_return = match &body {
                AstNodeG::Return { .. } => true,
                AstNodeG::Glue { right, .. } => match &**right {
                    AstNodeG::Return { .. } => true,
                    _ => false,
                },
                _ => false,
            };
            if !has_return {
                return Err(self.expr.scanner.fatal(ErrorKind::MissingReturn));
            }
        }
        Ok(Some(AstNode::make_function(name, body)))
    }

    /// `return`, whose keyword was read: a value in parentheses that must fit
    /// the type of the function being parsed.
    /// Source text that breaks the grammar or the typing rules is a fatal
    /// error: the parse stops and returns `Err` with the kind and the line.
    /// Outside any function it gives `ReturnOutsideFunction`, in a `void`
    /// function `ReturnFromVoid`, and a value that cannot be widened to the
    /// function's type `IncompatibleReturnType`.
    pub fn return_statement(&mut self) -> (res: Result<AstNode, CompileError>)
        requires
            old(self).expr.scanner.wf(),
        ensures
            final(self).expr.follows(
                old(self).expr,
                sp_return(old(self).input(), old(self).sizes(), old(self).pstate()),
                res,
            ),
    {
        let ghost inp = self.input();
        let ghost sz = self.sizes();
        if self.expr.in_function.len() == 0 {
            return Err(self.expr.scanner.fatal(ErrorKind::ReturnOutsideFunction));
        }
        let ftype = self.expr.current_function_type();
        if ftype == PrimType::Void {
            return Err(self.expr.scanner.fatal(ErrorKind::ReturnFromVoid));
        }
        proof {
            self.expr.scanner.lemma_view_bounds();
            lemma_p_expect(inp, self.pstate(), TokenTypeG::LeftParen);
        }
        match self.expr.scanner.lparen() {
            Ok(_) => {},
            Err(e) => return Err(e),
        }
        proof {
            self.expr.scanner.lemma_view_bounds();
            lemma_binexpr_ok(inp, sz, self.pstate(), 0);
        }
        let expr = match self.expr.binexpr(0) {
            Ok(e) => e,
            Err(e) => return Err(e),
        };
        let expr = match self.widen(expr, ftype, ErrorKind::IncompatibleReturnType) {
            Ok(e) => e,
            Err(e) => return Err(e),
        };
        match self.expr.scanner.rparen() {
            Ok(_) => {},
            Err(e) => return Err(e),
        }
        let name = self.expr.current_function_name();
        Ok(AstNode::make_return(name.as_str(), expr))
    }

    /// A single statement.
    /// Source text that breaks the grammar or the typing rules is a fatal
    /// error: the parse stops and returns `Err` with the kind and the line.
    /// A token that cannot start a statement (such as `}`, `;`, `void`, `&`,
    /// an operator or a literal) gives `SyntaxError`; the end of the input
    /// gives `UnexpectedEof`; a name followed by neither `=` nor `(` gives
    /// `UnexpectedToken`.
    #[verifier::rlimit(80)]
    #[verifier::spinoff_prover]
    pub fn single_statement(&mut self) -> (res: Result<AstNode, CompileError>)
        requires
            old(self).expr.scanner.wf(),
        ensures
            final(self).expr.follows(
                old(self).expr,
                sp_single(old(self).input(), old(self).sizes(), old(self).pstate()),
                res,
            ),
        decreases meas(old(self).input(), old(self).pstate()), 1nat,
    {
        let ghost inp = self.input();
        proof {
            self.expr.scanner.lemma_view_bounds();
            lemma_p_scan(inp, self.pstate());
        }
        let tok = match self.expr.scanner.scan() {
            Err(e) => return Err(e),
            Ok(None) => return Err(self.expr.scanner.fatal(ErrorKind::UnexpectedEof)),
            Ok(Some(t)) => t,
        };
        let which: u8 = match &tok.ttype {
            TokenTypeG::Int | TokenTypeG::Char | TokenTypeG::Long => 0,
            TokenTypeG::Ident(_) => 1,
            TokenTypeG::Return => 2,
            TokenTypeG::If => 3,
            TokenTypeG::While => 4,
            TokenTypeG::For => 5,
            _ => 6,
        };
        if which == 0 {
            self.var_declaration(tok)
        } else if which == 1 {
            proof {
                self.expr.scanner.lemma_view_bounds();
            }
            match self.expr.scanner.maybe_token(TokenTypeG::Assign) {
                Err(e) => Err(e),
                Ok(true) => {
                    let name = match tok.ttype {
                        TokenTypeG::Ident(n) => n,
                        _ => String::new(),
                    };
                    self.assignment_statement(name)
                },
                Ok(false) => match self.expr.scanner.maybe_token(TokenTypeG::LeftParen) {
                    Err(e) => Err(e),
                    Ok(true) => self.expr.function_call(tok),
                    Ok(false) => match self.expr.scanner.scan() {
                        Err(e) => Err(e),
                        Ok(Some(_)) => Err(self.expr.scanner.fatal_extra(ErrorKind::UnexpectedToken)),
                        Ok(None) => Err(self.expr.scanner.fatal(ErrorKind::UnexpectedEof)),
                    },
                },
            }
        } else if which == 2 {
            self.return_statement()
        } else if which == 3 {
            self.if_statement()
        } else if which == 4 {
            self.while_statement()
        } else if which == 5 {
            self.for_statement()
        } else {
            Err(self.expr.scanner.fatal(ErrorKind::SyntaxError))
        }
    }

    /// A block: `{`, statements glued in order, `}`. Empty statements are
    /// skipped; assignments and calls end with `;`.
    /// Source text that breaks the grammar or the typing rules is a fatal
    /// error: the parse stops and returns `Err` with the kind and the line.
    /// Assignment to an undeclared name gives `UndeclaredVariable`, a missing
    /// `;` gives `UnexpectedToken`, a condition that is not a comparison gives
    /// `BadComparison`, and the end of the input before `}` gives
    /// `UnexpectedEof`.
    pub fn compound_statement(&mut self) -> (res: Result<AstNode, CompileError>)
        requires
            old(self).expr.scanner.wf(),
        ensures
            final(self).expr.follows(
                old(self).expr,
                sp_compound(old(self).input(), old(self).sizes(), old(self).pstate()),
                res,
            ),
        decreases meas(old(self).input(), old(self).pstate()), 1nat,
    {
        let ghost inp = self.input();
        let ghost sz = self.sizes();
        let ghost st0 = self.pstate();
        proof {
            self.expr.scanner.lemma_view_bounds();
            lemma_p_expect(inp, st0, TokenTypeG::LeftBrace);
        }
        match self.expr.scanner.lbrace() {
            Ok(_) => {},
            Err(e) => return Err(e),
        }
        let mut left: AstNode = AstNodeG::Empty;
        loop
            invariant
                self.expr.scanner.wf(),
                self.input() == inp,
                self.sizes() == sz,
                inp == old(self).input(),
                sz == old(self).sizes(),
                st0 == old(self).pstate(),
                meas(inp, self.pstate()) < meas(inp, st0),
                sp_compound_loop(inp, sz, self.pstate(), left@) == sp_compound(inp, sz, st0),
            decreases meas(inp, self.pstate()),
        {
            let ghost st = self.pstate();
            proof {
                self.expr.scanner.lemma_view_bounds();
                lemma_p_is_eof(inp, st);
            }
            if self.expr.scanner.is_eof() {
                return Err(self.expr.scanner.fatal(ErrorKind::UnexpectedEof));
            }
            proof {
                self.expr.scanner.lemma_view_bounds();
                lemma_p_maybe(inp, self.pstate(), TokenTypeG::RightBrace);
            }
            match self.expr.scanner.maybe_token(TokenTypeG::RightBrace) {
                Err(e) => return Err(e),
                Ok(true) => return Ok(left),
                Ok(false) => {},
            }
            proof {
                self.expr.scanner.lemma_view_bounds();
                lemma_p_maybe(inp, self.pstate(), TokenTypeG::Semi);
            }
            match self.expr.scanner.maybe_token(TokenTypeG::Semi) {
                Err(e) => return Err(e),
                Ok(true) => continue,
                Ok(false) => {},
            }
            proof {
                self.expr.scanner.lemma_view_bounds();
                lemma_single_ok(inp, sz, self.pstate());
            }
            let tree = match self.single_statement() {
                Ok(t) => t,
                Err(e) => return Err(e),
            };
            proof {
                lemma_view_shape(tree);
                self.expr.scanner.lemma_view_bounds();
                lemma_p_expect(inp, self.pstate(), TokenTypeG::Semi);
            }
            let ends_with_semi = match &tree {
                AstNodeG::Assign { .. } | AstNodeG::FuncCall { .. } => true,
                _ => false,
            };
            if ends_with_semi {
                match self.expr.scanner.semi() {
                    Ok(_) => {},
                    Err(e) => return Err(e),
                }
            }
            let tree_empty = match &tree {
                AstNodeG::Empty => true,
                _ => false,
            };
            if !tree_empty {
                let left_empty = match &left {
                    AstNodeG::Empty => true,
                    _ => false,
                };
                proof {
                    lemma_view_shape(left);
                }
                left = if left_empty {
                    tree
                } else {
                    AstNode::make_glue(left, tree)
                };
            }
        }
    }
}

} // verus!
