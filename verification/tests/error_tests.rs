use acwj_rs::driver::compile;
use acwj_rs::dummy_cg::DummyBackend;
use acwj_rs::error::{CompileError, ErrorKind};

fn error_of(src: &str) -> CompileError {
    compile(src.as_bytes().to_vec(), DummyBackend::new()).err().expect("expected an error").1
}

#[test]
fn error_unrecognised_character() {
    let e = error_of("void main() { @ }");
    assert_eq!(e.kind, ErrorKind::UnrecognisedChar(b'@'));
    assert_eq!(e.line, 1);
}

#[test]
fn error_eof_after_bang() {
    assert_eq!(error_of("void main() { !").kind, ErrorKind::EofAfterBang);
}

#[test]
fn error_identifier_too_long() {
    let long = "a".repeat(600);
    let src = format!("void main() {{ int {}; }}", long);
    assert_eq!(error_of(&src).kind, ErrorKind::IdentifierTooLong);
}

#[test]
fn error_integer_literal_overflow() {
    let src = "void main() { printint(99999999999999999999); }";
    assert_eq!(error_of(src).kind, ErrorKind::IntegerOverflow);
}

#[test]
fn error_unexpected_token_and_eof() {
    assert_eq!(error_of("void main( {}").kind, ErrorKind::UnexpectedToken);
    assert_eq!(error_of("void main() {").kind, ErrorKind::UnexpectedEof);
}

#[test]
fn error_bad_comparison() {
    let e = error_of("void main() {\n int x;\n if (x) { printint(x); } }");
    assert_eq!(e.kind, ErrorKind::BadComparison);
    assert_eq!(e.line, 3);
}

#[test]
fn error_unknown_variable_and_function() {
    assert_eq!(error_of("void main() { printint(y); }").kind, ErrorKind::UnknownVariable);
    assert_eq!(error_of("void main() { foo(1); }").kind, ErrorKind::UndeclaredFunction);
}

#[test]
fn error_incompatible_types() {
    let src = "void main() { int *p; char c; c = p; }";
    assert_eq!(error_of(src).kind, ErrorKind::IncompatibleTypes);
}

#[test]
fn error_incompatible_return_type() {
    let src = "char f() { int *p; return(p); }";
    assert_eq!(error_of(src).kind, ErrorKind::IncompatibleReturnType);
}

#[test]
fn error_address_and_deref_of_non_identifier() {
    assert_eq!(error_of("void main() { printint(&5); }").kind, ErrorKind::AddressOfNonIdentifier);
    assert_eq!(error_of("void main() { printint(*5); }").kind, ErrorKind::DerefOfNonIdentifier);
}

#[test]
fn error_pointer_to_pointer() {
    assert_eq!(error_of("void main() { int **x; }").kind, ErrorKind::PointerToPointer);
}

#[test]
fn error_deref_of_non_pointer() {
    assert_eq!(error_of("void main() { int x; printint(*x); }").kind, ErrorKind::DerefOfNonPointer);
}

#[test]
fn error_syntax_error() {
    assert_eq!(error_of("void main() { ; else }").kind, ErrorKind::SyntaxError);
}

#[test]
fn error_returns_in_wrong_places() {
    assert_eq!(error_of("void main() { return(1); }").kind, ErrorKind::ReturnFromVoid);
}

#[test]
fn error_compile_succeeds_on_valid_program() {
    assert!(compile("void main() { int x; x = 1; printint(x); }".as_bytes().to_vec(), DummyBackend::new()).is_ok());
}
