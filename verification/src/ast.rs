use vstd::prelude::*;
use crate::scan::{TokenType, TokenTypeG};
use crate::sym::PrimType;

verus! {

/// A name in the program, generic over the representation of names.
#[derive(Clone, Debug, PartialEq, Eq)]
pub struct IdentifierG<S> {
    pub name: S,
}

pub type Identifier = IdentifierG<String>;

impl IdentifierG<String> {
    /// An identifier with the given name.
    pub fn new(name: &str) -> (r: Identifier)
        ensures
            r.name@ == name@,
    {
        IdentifierG { name: name.to_owned() }
    }

    /// A copy of the identifier.
    pub fn duplicate(&self) -> (r: Identifier)
        ensures
            r == *self,
    {
        IdentifierG { name: self.name.clone() }
    }
}

/// A node of the abstract syntax tree, generic over the representation of names.
#[derive(Debug, PartialEq, Eq)]
pub enum AstNodeG<S> {
    // Literals and identifiers
    IntLit { val: i64, dtype: PrimType },
    Ident { id: IdentifierG<S>, dtype: PrimType },
    LvIdent { id: IdentifierG<S>, dtype: PrimType },
    // Unary operations
    FuncCall { id: IdentifierG<S>, dtype: PrimType, left: Box<AstNodeG<S>> },
    Addr { id: IdentifierG<S>, dtype: PrimType },
    Deref { inner: Box<AstNodeG<S>>, dtype: PrimType },
    // Binary operations
    Add { left: Box<AstNodeG<S>>, right: Box<AstNodeG<S>>, dtype: PrimType },
    Subtract { left: Box<AstNodeG<S>>, right: Box<AstNodeG<S>>, dtype: PrimType },
    Multiply { left: Box<AstNodeG<S>>, right: Box<AstNodeG<S>>, dtype: PrimType },
    Divide { left: Box<AstNodeG<S>>, right: Box<AstNodeG<S>>, dtype: PrimType },
    Equal { left: Box<AstNodeG<S>>, right: Box<AstNodeG<S>>, dtype: PrimType },
    NotEqual { left: Box<AstNodeG<S>>, right: Box<AstNodeG<S>>, dtype: PrimType },
    LessThan { left: Box<AstNodeG<S>>, right: Box<AstNodeG<S>>, dtype: PrimType },
    GreaterThan { left: Box<AstNodeG<S>>, right: Box<AstNodeG<S>>, dtype: PrimType },
    LessThanOrEqual { left: Box<AstNodeG<S>>, right: Box<AstNodeG<S>>, dtype: PrimType },
    GreaterThanOrEqual { left: Box<AstNodeG<S>>, right: Box<AstNodeG<S>>, dtype: PrimType },
    // Declarations
    Function { name: Box<AstNodeG<S>>, body: Box<AstNodeG<S>> },
    GlobalDec { id: IdentifierG<S>, dtype: PrimType },
    // Statements
    Assign { id: Box<AstNodeG<S>>, expr: Box<AstNodeG<S>> },
    Glue { left: Box<AstNodeG<S>>, right: Box<AstNodeG<S>> },
    Empty,
    If { cond: Box<AstNodeG<S>>, branch_t: Box<AstNodeG<S>>, branch_f: Option<Box<AstNodeG<S>>> },
    Return { id: IdentifierG<S>, expr: Box<AstNodeG<S>> },
    While { cond: Box<AstNodeG<S>>, body: Box<AstNodeG<S>> },
}

pub type AstNode = AstNodeG<String>;

/// An AST as specifications see it.
pub type AstV = AstNodeG<Seq<char>>;

pub open spec fn id_view(id: Identifier) -> IdentifierG<Seq<char>> {
    IdentifierG { name: id.name@ }
}

/// The specification view of an AST: names become character sequences.
pub open spec fn ast_view(n: AstNode) -> AstV
    decreases n,
{
    match n {
        AstNodeG::IntLit { val, dtype } => AstNodeG::IntLit { val, dtype },
        AstNodeG::Ident { id, dtype } => AstNodeG::Ident { id: id_view(id), dtype },
        AstNodeG::LvIdent { id, dtype } => AstNodeG::LvIdent { id: id_view(id), dtype },
        AstNodeG::FuncCall { id, dtype, left } => AstNodeG::FuncCall {
            id: id_view(id),
            dtype,
            left: Box::new(ast_view(*left)),
        },
        AstNodeG::Addr { id, dtype } => AstNodeG::Addr { id: id_view(id), dtype },
        AstNodeG::Deref { inner, dtype } => AstNodeG::Deref { inner: Box::new(ast_view(*inner)), dtype },
        AstNodeG::Add { left, right, dtype } => AstNodeG::Add {
            left: Box::new(ast_view(*left)),
            right: Box::new(ast_view(*right)),
            dtype,
        },
        AstNodeG::Subtract { left, right, dtype } => AstNodeG::Subtract {
            left: Box::new(ast_view(*left)),
            right: Box::new(ast_view(*right)),
            dtype,
        },
        AstNodeG::Multiply { left, right, dtype } => AstNodeG::Multiply {
            left: Box::new(ast_view(*left)),
            right: Box::new(ast_view(*right)),
            dtype,
        },
        AstNodeG::Divide { left, right, dtype } => AstNodeG::Divide {
            left: Box::new(ast_view(*left)),
            right: Box::new(ast_view(*right)),
            dtype,
        },
        AstNodeG::Equal { left, right, dtype } => AstNodeG::Equal {
            left: Box::new(ast_view(*left)),
            right: Box::new(ast_view(*right)),
            dtype,
        },
        AstNodeG::NotEqual { left, right, dtype } => AstNodeG::NotEqual {
            left: Box::new(ast_view(*left)),
            right: Box::new(ast_view(*right)),
            dtype,
        },
        AstNodeG::LessThan { left, right, dtype } => AstNodeG::LessThan {
            left: Box::new(ast_view(*left)),
            right: Box::new(ast_view(*right)),
            dtype,
        },
        AstNodeG::GreaterThan { left, right, dtype } => AstNodeG::GreaterThan {
            left: Box::new(ast_view(*left)),
            right: Box::new(ast_view(*right)),
            dtype,
        },
        AstNodeG::LessThanOrEqual { left, right, dtype } => AstNodeG::LessThanOrEqual {
            left: Box::new(ast_view(*left)),
            right: Box::new(ast_view(*right)),
            dtype,
        },
        AstNodeG::GreaterThanOrEqual { left, right, dtype } => AstNodeG::GreaterThanOrEqual {
            left: Box::new(ast_view(*left)),
            right: Box::new(ast_view(*right)),
            dtype,
        },
        AstNodeG::Function { name, body } => AstNodeG::Function {
            name: Box::new(ast_view(*name)),
            body: Box::new(ast_view(*body)),
        },
        AstNodeG::GlobalDec { id, dtype } => AstNodeG::GlobalDec { id: id_view(id), dtype },
        AstNodeG::Assign { id, expr } => AstNodeG::Assign {
            id: Box::new(ast_view(*id)),
            expr: Box::new(ast_view(*expr)),
        },
        AstNodeG::Glue { left, right } => AstNodeG::Glue {
            left: Box::new(ast_view(*left)),
            right: Box::new(ast_view(*right)),
        },
        AstNodeG::Empty => AstNodeG::Empty,
        AstNodeG::If { cond, branch_t, branch_f } => AstNodeG::If {
            cond: Box::new(ast_view(*cond)),
            branch_t: Box::new(ast_view(*branch_t)),
            branch_f: match branch_f {
                Some(b) => Some(Box::new(ast_view(*b))),
                None => None,
            },
        },
        AstNodeG::Return { id, expr } => AstNodeG::Return { id: id_view(id), expr: Box::new(ast_view(*expr)) },
        AstNodeG::While { cond, body } => AstNodeG::While {
            cond: Box::new(ast_view(*cond)),
            body: Box::new(ast_view(*body)),
        },
    }
}

impl Clone for AstNodeG<String> {
    /// A deep copy of the tree.
    fn clone(&self) -> (r: Self)
        ensures
            r == *self,
        decreases self,
    {
        match self {
            AstNodeG::IntLit { val, dtype } => AstNodeG::IntLit { val: *val, dtype: *dtype },
            AstNodeG::Ident { id, dtype } => AstNodeG::Ident { id: id.duplicate(), dtype: *dtype },
            AstNodeG::LvIdent { id, dtype } => AstNodeG::LvIdent { id: id.duplicate(), dtype: *dtype },
            AstNodeG::Addr { id, dtype } => AstNodeG::Addr { id: id.duplicate(), dtype: *dtype },
            AstNodeG::GlobalDec { id, dtype } => AstNodeG::GlobalDec { id: id.duplicate(), dtype: *dtype },
            AstNodeG::FuncCall { id, dtype, left } => AstNodeG::FuncCall { id: id.duplicate(), dtype: *dtype, left: Box::new((**left).clone()) },
            AstNodeG::Deref { inner, dtype } => AstNodeG::Deref { inner: Box::new((**inner).clone()), dtype: *dtype },
            AstNodeG::Add { left, right, dtype } => AstNodeG::Add { left: Box::new((**left).clone()), right: Box::new((**right).clone()), dtype: *dtype },
            AstNodeG::Subtract { left, right, dtype } => AstNodeG::Subtract { left: Box::new((**left).clone()), right: Box::new((**right).clone()), dtype: *dtype },
            AstNodeG::Multiply { left, right, dtype } => AstNodeG::Multiply { left: Box::new((**left).clone()), right: Box::new((**right).clone()), dtype: *dtype },
            AstNodeG::Divide { left, right, dtype } => AstNodeG::Divide { left: Box::new((**left).clone()), right: Box::new((**right).clone()), dtype: *dtype },
            AstNodeG::Equal { left, right, dtype } => AstNodeG::Equal { left: Box::new((**left).clone()), right: Box::new((**right).clone()), dtype: *dtype },
            AstNodeG::NotEqual { left, right, dtype } => AstNodeG::NotEqual { left: Box::new((**left).clone()), right: Box::new((**right).clone()), dtype: *dtype },
            AstNodeG::LessThan { left, right, dtype } => AstNodeG::LessThan { left: Box::new((**left).clone()), right: Box::new((**right).clone()), dtype: *dtype },
            AstNodeG::GreaterThan { left, right, dtype } => AstNodeG::GreaterThan { left: Box::new((**left).clone()), right: Box::new((**right).clone()), dtype: *dtype },
            AstNodeG::LessThanOrEqual { left, right, dtype } => AstNodeG::LessThanOrEqual { left: Box::new((**left).clone()), right: Box::new((**right).clone()), dtype: *dtype },
            AstNodeG::GreaterThanOrEqual { left, right, dtype } => AstNodeG::GreaterThanOrEqual { left: Box::new((**left).clone()), right: Box::new((**right).clone()), dtype: *dtype },
            AstNodeG::Function { name, body } => AstNodeG::Function { name: Box::new((**name).clone()), body: Box::new((**body).clone()) },
            AstNodeG::Assign { id, expr } => AstNodeG::Assign { id: Box::new((**id).clone()), expr: Box::new((**expr).clone()) },
            AstNodeG::Glue { left, right } => AstNodeG::Glue { left: Box::new((**left).clone()), right: Box::new((**right).clone()) },
            AstNodeG::Empty => AstNodeG::Empty,
            AstNodeG::If { cond, branch_t, branch_f } => AstNodeG::If {
                cond: Box::new((**cond).clone()),
                branch_t: Box::new((**branch_t).clone()),
                branch_f: match branch_f {
                    Some(b) => Some(Box::new((**b).clone())),
                    None => None,
                },
            },
            AstNodeG::Return { id, expr } => AstNodeG::Return { id: id.duplicate(), expr: Box::new((**expr).clone()) },
            AstNodeG::While { cond, body } => AstNodeG::While { cond: Box::new((**cond).clone()), body: Box::new((**body).clone()) },
        }
    }
}

impl View for AstNodeG<String> {
    type V = AstV;

    open spec fn view(&self) -> AstV {
        ast_view(*self)
    }
}

impl<S> AstNodeG<S> {
    pub open spec fn spec_is_arith(&self) -> bool {
        self is Add || self is Subtract || self is Multiply || self is Divide
    }

    pub open spec fn spec_is_comparison(&self) -> bool {
        self is Equal || self is NotEqual || self is LessThan || self is GreaterThan
            || self is LessThanOrEqual || self is GreaterThanOrEqual
    }

    pub open spec fn spec_is_branching_stmt(&self) -> bool {
        self is While || self is If
    }

    /// The data type carried by expression nodes.
    pub open spec fn spec_get_type(&self) -> Option<PrimType> {
        match self {
            AstNodeG::IntLit { dtype, .. } => Some(*dtype),
            AstNodeG::Ident { dtype, .. } => Some(*dtype),
            AstNodeG::LvIdent { dtype, .. } => Some(*dtype),
            AstNodeG::FuncCall { dtype, .. } => Some(*dtype),
            AstNodeG::Addr { dtype, .. } => Some(*dtype),
            AstNodeG::Deref { dtype, .. } => Some(*dtype),
            AstNodeG::Add { dtype, .. } => Some(*dtype),
            AstNodeG::Subtract { dtype, .. } => Some(*dtype),
            AstNodeG::Multiply { dtype, .. } => Some(*dtype),
            AstNodeG::Divide { dtype, .. } => Some(*dtype),
            AstNodeG::Equal { dtype, .. } => Some(*dtype),
            AstNodeG::NotEqual { dtype, .. } => Some(*dtype),
            AstNodeG::LessThan { dtype, .. } => Some(*dtype),
            AstNodeG::GreaterThan { dtype, .. } => Some(*dtype),
            AstNodeG::LessThanOrEqual { dtype, .. } => Some(*dtype),
            AstNodeG::GreaterThanOrEqual { dtype, .. } => Some(*dtype),
            _ => None,
        }
    }

    /// Nodes whose type `new_type` can change.
    pub open spec fn can_retype(&self) -> bool {
        self is IntLit || self is Ident || self.spec_is_arith() || self.spec_is_comparison()
    }

    /// The node with its data type replaced.
    pub open spec fn spec_new_type(self, dtype: PrimType) -> AstNodeG<S> {
        match self {
            AstNodeG::IntLit { val, .. } => AstNodeG::IntLit { val, dtype },
            AstNodeG::Ident { id, .. } => AstNodeG::Ident { id, dtype },
            AstNodeG::Add { left, right, .. } => AstNodeG::Add { left, right, dtype },
            AstNodeG::Subtract { left, right, .. } => AstNodeG::Subtract { left, right, dtype },
            AstNodeG::Multiply { left, right, .. } => AstNodeG::Multiply { left, right, dtype },
            AstNodeG::Divide { left, right, .. } => AstNodeG::Divide { left, right, dtype },
            AstNodeG::Equal { left, right, .. } => AstNodeG::Equal { left, right, dtype },
            AstNodeG::NotEqual { left, right, .. } => AstNodeG::NotEqual { left, right, dtype },
            AstNodeG::LessThan { left, right, .. } => AstNodeG::LessThan { left, right, dtype },
            AstNodeG::GreaterThan { left, right, .. } => AstNodeG::GreaterThan { left, right, dtype },
            AstNodeG::LessThanOrEqual { left, right, .. } => AstNodeG::LessThanOrEqual { left, right, dtype },
            AstNodeG::GreaterThanOrEqual { left, right, .. } => AstNodeG::GreaterThanOrEqual { left, right, dtype },
            _ => self,
        }
    }
}

/// Binary operator tokens.
pub open spec fn is_binop_token<S>(op: TokenTypeG<S>) -> bool {
        op is Plus || op is Minus || op is Star || op is Slash || op is EQ || op is NE || op is LT || op is GT || op is LE || op is GE
}

/// The binary node that an operator token builds.
pub open spec fn spec_make_binary<S>(op: TokenTypeG<S>, l: AstNodeG<S>, r: AstNodeG<S>, dtype: PrimType) -> AstNodeG<S> {
    match op {
        TokenTypeG::Plus => AstNodeG::Add { left: Box::new(l), right: Box::new(r), dtype },
        TokenTypeG::Minus => AstNodeG::Subtract { left: Box::new(l), right: Box::new(r), dtype },
        TokenTypeG::Star => AstNodeG::Multiply { left: Box::new(l), right: Box::new(r), dtype },
        TokenTypeG::Slash => AstNodeG::Divide { left: Box::new(l), right: Box::new(r), dtype },
        TokenTypeG::EQ => AstNodeG::Equal { left: Box::new(l), right: Box::new(r), dtype },
        TokenTypeG::NE => AstNodeG::NotEqual { left: Box::new(l), right: Box::new(r), dtype },
        TokenTypeG::LT => AstNodeG::LessThan { left: Box::new(l), right: Box::new(r), dtype },
        TokenTypeG::GT => AstNodeG::GreaterThan { left: Box::new(l), right: Box::new(r), dtype },
        TokenTypeG::LE => AstNodeG::LessThanOrEqual { left: Box::new(l), right: Box::new(r), dtype },
        TokenTypeG::GE => AstNodeG::GreaterThanOrEqual { left: Box::new(l), right: Box::new(r), dtype },
        _ => AstNodeG::Empty,
    }
}

impl AstNodeG<String> {
    /// Whether the node is an arithmetic operation.
    pub fn is_arith(&self) -> (r: bool)
        ensures
            r == self.spec_is_arith(),
    {
        match self {
            AstNodeG::Add { .. } | AstNodeG::Subtract { .. } | AstNodeG::Multiply { .. }
            | AstNodeG::Divide { .. } => true,
            _ => false,
        }
    }

    /// Whether the node is a comparison.
    pub fn is_comparison(&self) -> (r: bool)
        ensures
            r == self.spec_is_comparison(),
    {
        match self {
            AstNodeG::Equal { .. } | AstNodeG::NotEqual { .. } | AstNodeG::LessThan { .. }
            | AstNodeG::GreaterThan { .. } | AstNodeG::LessThanOrEqual { .. }
            | AstNodeG::GreaterThanOrEqual { .. } => true,
            _ => false,
        }
    }

    /// Whether the node is a statement that branches (`while` or `if`).
    pub fn is_branching_stmt(&self) -> (r: bool)
        ensures
            r == self.spec_is_branching_stmt(),
    {
        match self {
            AstNodeG::While { .. } | AstNodeG::If { .. } => true,
            _ => false,
        }
    }

    /// The data type of an expression node; `None` for statements and declarations.
    pub fn get_type(&self) -> (r: Option<PrimType>)
        ensures
            r == self.spec_get_type(),
    {
        match self {
            AstNodeG::IntLit { dtype, .. } | AstNodeG::Ident { dtype, .. }
            | AstNodeG::LvIdent { dtype, .. } | AstNodeG::FuncCall { dtype, .. }
            | AstNodeG::Addr { dtype, .. } | AstNodeG::Deref { dtype, .. }
            | AstNodeG::Add { dtype, .. }
            | AstNodeG::Subtract { dtype, .. }
            | AstNodeG::Multiply { dtype, .. }
            | AstNodeG::Divide { dtype, .. }
            | AstNodeG::Equal { dtype, .. }
            | AstNodeG::NotEqual { dtype, .. }
            | AstNodeG::LessThan { dtype, .. }
            | AstNodeG::GreaterThan { dtype, .. }
            | AstNodeG::LessThanOrEqual { dtype, .. }
            | AstNodeG::GreaterThanOrEqual { dtype, .. }
            => Some(*dtype),
            _ => None,
        }
    }

    /// Whether `new_type` can change the node's type.
    pub fn can_change_type(&self) -> (r: bool)
        ensures
            r == self.can_retype(),
    {
        match self {
            AstNodeG::IntLit { .. } | AstNodeG::Ident { .. } => true,
            _ => self.is_arith() || self.is_comparison(),
        }
    }

    /// The node with its data type replaced by `dtype`.
    pub fn new_type(self, dtype: PrimType) -> (r: AstNode)
        requires
            self.can_retype(),
        ensures
            r == self.spec_new_type(dtype),
            r.spec_get_type() == Some(dtype),
    {
        match self {
            AstNodeG::IntLit { val, .. } => AstNodeG::IntLit { val, dtype },
            AstNodeG::Ident { id, .. } => AstNodeG::Ident { id, dtype },
            AstNodeG::Add { left, right, .. } => AstNodeG::Add { left, right, dtype },
            AstNodeG::Subtract { left, right, .. } => AstNodeG::Subtract { left, right, dtype },
            AstNodeG::Multiply { left, right, .. } => AstNodeG::Multiply { left, right, dtype },
            AstNodeG::Divide { left, right, .. } => AstNodeG::Divide { left, right, dtype },
            AstNodeG::Equal { left, right, .. } => AstNodeG::Equal { left, right, dtype },
            AstNodeG::NotEqual { left, right, .. } => AstNodeG::NotEqual { left, right, dtype },
            AstNodeG::LessThan { left, right, .. } => AstNodeG::LessThan { left, right, dtype },
            AstNodeG::GreaterThan { left, right, .. } => AstNodeG::GreaterThan { left, right, dtype },
            AstNodeG::LessThanOrEqual { left, right, .. } => AstNodeG::LessThanOrEqual { left, right, dtype },
            AstNodeG::GreaterThanOrEqual { left, right, .. } => AstNodeG::GreaterThanOrEqual { left, right, dtype },
            _ => self,
        }
    }

    /// The binary node for operator token `op` with operands `l` and `r`.
    pub fn make_binary(op: TokenType, l: AstNode, r: AstNode, dtype: PrimType) -> (n: AstNode)
        requires
            is_binop_token(op),
        ensures
            n == spec_make_binary(op, l, r, dtype),
    {
        match op {
            TokenTypeG::Plus => AstNodeG::Add { left: Box::new(l), right: Box::new(r), dtype },
            TokenTypeG::Minus => AstNodeG::Subtract { left: Box::new(l), right: Box::new(r), dtype },
            TokenTypeG::Star => AstNodeG::Multiply { left: Box::new(l), right: Box::new(r), dtype },
            TokenTypeG::Slash => AstNodeG::Divide { left: Box::new(l), right: Box::new(r), dtype },
            TokenTypeG::EQ => AstNodeG::Equal { left: Box::new(l), right: Box::new(r), dtype },
            TokenTypeG::NE => AstNodeG::NotEqual { left: Box::new(l), right: Box::new(r), dtype },
            TokenTypeG::LT => AstNodeG::LessThan { left: Box::new(l), right: Box::new(r), dtype },
            TokenTypeG::GT => AstNodeG::GreaterThan { left: Box::new(l), right: Box::new(r), dtype },
            TokenTypeG::LE => AstNodeG::LessThanOrEqual { left: Box::new(l), right: Box::new(r), dtype },
            TokenTypeG::GE => AstNodeG::GreaterThanOrEqual { left: Box::new(l), right: Box::new(r), dtype },
            _ => AstNodeG::Empty,
        }
    }

    /// An integer literal node.
    pub fn make_intlit(val: i64, dtype: PrimType) -> (n: AstNode)
        ensures
            n == (AstNodeG::IntLit::<String> { val, dtype }),
    {
        AstNodeG::IntLit { val, dtype }
    }

    /// An identifier (r-value) node.
    pub fn make_ident(name: &str, dtype: PrimType) -> (n: AstNode)
        ensures
            n@ == (AstNodeG::Ident::<Seq<char>> { id: IdentifierG { name: name@ }, dtype }),
    {
        AstNodeG::Ident { id: Identifier::new(name), dtype }
    }

    /// An l-value identifier node.
    pub fn make_lvident(name: &str, dtype: PrimType) -> (n: AstNode)
        ensures
            n@ == (AstNodeG::LvIdent::<Seq<char>> { id: IdentifierG { name: name@ }, dtype }),
    {
        AstNodeG::LvIdent { id: Identifier::new(name), dtype }
    }

    /// A function definition node; `name` is the function's identifier node.
    pub fn make_function(name: AstNode, body: AstNode) -> (n: AstNode)
        requires
            name is Ident,
        ensures
            n == (AstNodeG::Function { name: Box::new(name), body: Box::new(body) }),
    {
        AstNodeG::Function { name: Box::new(name), body: Box::new(body) }
    }

    /// A call of the function `name` with argument `expr`, returning `dtype`.
    pub fn make_function_call(name: &str, expr: AstNode, dtype: PrimType) -> (n: AstNode)
        ensures
            n matches AstNodeG::FuncCall { id, dtype: d, left } && id.name@ == name@ && d == dtype
                && *left == expr,
    {
        AstNodeG::FuncCall { id: Identifier::new(name), dtype, left: Box::new(expr) }
    }

    /// A global variable declaration.
    pub fn make_global_declaration(name: &str, dtype: PrimType) -> (n: AstNode)
        ensures
            n@ == (AstNodeG::GlobalDec::<Seq<char>> { id: IdentifierG { name: name@ }, dtype }),
    {
        AstNodeG::GlobalDec { id: Identifier::new(name), dtype }
    }

    /// An assignment of `expr` to the l-value `id`.
    pub fn make_assign(id: AstNode, expr: AstNode) -> (n: AstNode)
        requires
            id is LvIdent,
        ensures
            n == (AstNodeG::Assign { id: Box::new(id), expr: Box::new(expr) }),
    {
        AstNodeG::Assign { id: Box::new(id), expr: Box::new(expr) }
    }

    /// An `if` statement with an optional `else` branch.
    pub fn make_if(cond: AstNode, branch_t: AstNode, branch_f: Option<AstNode>) -> (n: AstNode)
        ensures
            n == (AstNodeG::If {
                cond: Box::new(cond),
                branch_t: Box::new(branch_t),
                branch_f: match branch_f {
                    Some(b) => Some(Box::new(b)),
                    None => None,
                },
            }),
    {
        let f = match branch_f {
            Some(b) => Some(Box::new(b)),
            None => None,
        };
        AstNodeG::If { cond: Box::new(cond), branch_t: Box::new(branch_t), branch_f: f }
    }

    /// A `while` loop.
    pub fn make_while(cond: AstNode, body: AstNode) -> (n: AstNode)
        ensures
            n == (AstNodeG::While { cond: Box::new(cond), body: Box::new(body) }),
    {
        AstNodeG::While { cond: Box::new(cond), body: Box::new(body) }
    }

    /// Two statements in sequence.
    pub fn make_glue(left: AstNode, right: AstNode) -> (n: AstNode)
        ensures
            n == (AstNodeG::Glue { left: Box::new(left), right: Box::new(right) }),
    {
        AstNodeG::Glue { left: Box::new(left), right: Box::new(right) }
    }

    /// A `return` of `expr` from the function `name`.
    pub fn make_return(name: &str, expr: AstNode) -> (n: AstNode)
        ensures
            n matches AstNodeG::Return { id, expr: e } && id.name@ == name@ && *e == expr,
    {
        AstNodeG::Return { id: Identifier::new(name), expr: Box::new(expr) }
    }

    /// `&ident`: the address of a non-pointer identifier.
    pub fn into_pointer(self) -> (n: AstNode)
        requires
            self matches AstNodeG::Ident { dtype, .. } && !dtype.is_pointer(),
        ensures
            n == (match self {
                AstNodeG::Ident { id, dtype } => AstNodeG::Addr { id, dtype: dtype.spec_pointer_to() },
                _ => self,
            }),
    {
        match self {
            AstNodeG::Ident { id, dtype } => AstNodeG::Addr { id, dtype: dtype.pointer_to() },
            _ => self,
        }
    }

    /// `*expr`: dereference an identifier or another dereference of pointer type.
    pub fn make_deref(self) -> (n: AstNode)
        requires
            self is Ident || self is Deref,
            self.spec_get_type() matches Some(t) && t.is_pointer(),
        ensures
            n == (AstNodeG::Deref {
                inner: Box::new(self),
                dtype: self.spec_get_type().unwrap().spec_value_at(),
            }),
    {
        let t = match &self {
            AstNodeG::Ident { dtype, .. } => *dtype,
            AstNodeG::Deref { dtype, .. } => *dtype,
            _ => PrimType::Void,
        };
        AstNodeG::Deref { inner: Box::new(self), dtype: t.value_at() }
    }
}


/// The view keeps the shape and the types of a node.
pub proof fn lemma_view_shape(n: AstNode)
    ensures
        n@.spec_get_type() == n.spec_get_type(),
        n@.can_retype() == n.can_retype(),
        n@.spec_is_comparison() == n.spec_is_comparison(),
        n@.spec_is_arith() == n.spec_is_arith(),
        (n@ is Ident) == (n is Ident),
        (n@ is Deref) == (n is Deref),
        (n@ is Assign) == (n is Assign),
        (n@ is FuncCall) == (n is FuncCall),
        (n@ is Empty) == (n is Empty),
        (n@ is Return) == (n is Return),
        (n@ is Glue) == (n is Glue),
        n matches AstNodeG::Glue { right, .. } ==> (n@ matches AstNodeG::Glue { right: r2, .. } && (
        (*r2 is Return) == (*right is Return))),
{
    match n {
        AstNodeG::Glue { left, right } => {
            assert(ast_view(*right) is Return == (*right is Return));
        },
        _ => {},
    }
}

/// Retyping commutes with the view.
pub proof fn lemma_view_new_type(n: AstNode, t: PrimType)
    requires
        n.can_retype(),
    ensures
        n.spec_new_type(t)@ == n@.spec_new_type(t),
{
}

/// Building a binary node commutes with the view.
pub proof fn lemma_view_make_binary(op: TokenType, l: AstNode, r: AstNode, t: PrimType)
    requires
        is_binop_token(op),
    ensures
        spec_make_binary(op, l, r, t)@ == spec_make_binary(op@, l@, r@, t),
        is_binop_token(op@),
{
}

} // verus!
