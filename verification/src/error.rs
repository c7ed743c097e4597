use vstd::prelude::*;

verus! {

/// What went wrong while scanning, parsing or generating code. Every error
/// is fatal: the function that meets it stops and returns it, and the
/// compilation ends with it.
#[derive(Clone, Copy, Debug, PartialEq, Eq, Structural)]
pub enum ErrorKind {
    /// A byte that starts no token (or follows a lone `!`).
    UnrecognisedChar(u8),
    /// The input ended right after a `!`.
    EofAfterBang,
    /// An identifier longer than the scanner's limit.
    IdentifierTooLong,
    /// An integer literal that does not fit in an `i64`.
    IntegerOverflow,
    /// A token other than the one the grammar asked for.
    UnexpectedToken,
    /// The input ended where the grammar asked for a token.
    UnexpectedEof,
    /// A condition that is not a comparison.
    BadComparison,
    /// Assignment to a name that was never declared.
    UndeclaredVariable,
    /// Use of a variable that was never declared.
    UnknownVariable,
    /// Call of a function that was never declared.
    UndeclaredFunction,
    /// Operands or assignment sides whose types cannot be reconciled.
    IncompatibleTypes,
    /// A return value whose type cannot be widened to the function's.
    IncompatibleReturnType,
    /// Widening asked of a node that carries no changeable type.
    CantChangeType,
    /// `&` applied to something that is not a plain identifier.
    AddressOfNonIdentifier,
    /// `*` applied to something that is not an identifier or a dereference.
    DerefOfNonIdentifier,
    /// A pointer type asked of a type that is already a pointer.
    PointerToPointer,
    /// A dereference of a value that is not a pointer.
    DerefOfNonPointer,
    /// A token that cannot start a statement or a primary expression.
    SyntaxError,
    /// A function body with a non-void type and no final return.
    MissingReturn,
    /// A `return` inside a `void` function.
    ReturnFromVoid,
    /// A `return` outside any function.
    ReturnOutsideFunction,
    /// A top-level item that does not start with a type.
    ExpectedFunctionDeclaration,
    /// The back end ran out of registers.
    OutOfRegisters,
    /// The code generator met an AST or symbol it cannot translate.
    InvalidTree,
    /// The code generator ran out of label numbers.
    LabelOverflow,
    /// A division by zero while evaluating a tree.
    DivisionByZero,
}

/// An error together with the source line it was detected on.
#[derive(Clone, Copy, Debug, PartialEq, Eq, Structural)]
pub struct CompileError {
    pub kind: ErrorKind,
    pub line: usize,
}

impl CompileError {
    pub fn new(kind: ErrorKind, line: usize) -> (e: CompileError)
        ensures
            e == (CompileError { kind, line }),
    {
        CompileError { kind, line }
    }
}

} // verus!
