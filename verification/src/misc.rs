//! Errors located at a token.
use vstd::prelude::*;
use crate::error::{CompileError, ErrorKind};
use crate::scan::Token;

verus! {

/// An error of kind `kind` at the position of `tok`.
pub fn fatal_pos(kind: ErrorKind, tok: &Token) -> (e: CompileError)
    ensures
        e == (CompileError { kind, line: tok.line }),
{
    CompileError { kind, line: tok.line }
}

/// An error of kind `kind` about the token `tok`, at its position.
pub fn fatal_tok(kind: ErrorKind, tok: &Token) -> (e: CompileError)
    ensures
        e == (CompileError { kind, line: tok.line }),
{
    fatal_pos(kind, tok)
}

/// An error of kind `kind` about something that `tok` names, at its position.
pub fn fatal_other(kind: ErrorKind, tok: &Token) -> (e: CompileError)
    ensures
        e == (CompileError { kind, line: tok.line }),
{
    fatal_pos(kind, tok)
}

} // verus!
