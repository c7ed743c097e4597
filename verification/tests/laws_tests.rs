use acwj_rs::cgen::CodeGenerator;
use acwj_rs::dummy_cg::DummyBackend;
use acwj_rs::expr::{Compatibility, ExpressionGenerator};
use acwj_rs::scan::{Scanner, TokenType};
use acwj_rs::sym::{PrimType, StructuralType, SymbolTable};

#[test]
fn putback_token_is_scanned_next() {
    let mut scanner = Scanner::new(b"a b".to_vec());
    let a = scanner.scan().unwrap().unwrap();
    let line = scanner.get_line();
    scanner.putback_token(a.clone());
    let again = scanner.scan().unwrap().unwrap();
    assert_eq!(again, a);
    assert_eq!(scanner.get_line(), line);
    assert_eq!(scanner.scan().unwrap().unwrap().ttype, TokenType::Ident("b".to_string()));
}

#[test]
fn declined_maybe_token_consumes_nothing() {
    let mut first = Scanner::new(b"x + 1".to_vec());
    let mut second = Scanner::new(b"x + 1".to_vec());
    assert!(!first.maybe_token(TokenType::Semi).unwrap());
    for _ in 0..4 {
        let a = first.scan().unwrap();
        let b = second.scan().unwrap();
        assert_eq!(a.map(|t| t.ttype), b.map(|t| t.ttype));
    }
}

#[test]
fn widening_is_symmetric() {
    let symbols = SymbolTable::new();
    let cg = CodeGenerator::new(DummyBackend::new(), &symbols);
    let expr = ExpressionGenerator::new(Scanner::new(vec![]), SymbolTable::new(), &cg);
    let all = [
        PrimType::Char, PrimType::Int, PrimType::Long, PrimType::Void,
        PrimType::CharPtr, PrimType::IntPtr, PrimType::LongPtr, PrimType::VoidPtr,
    ];
    for a in all {
        for b in all {
            let ab = expr.type_compatibility(a, b, false);
            let ba = expr.type_compatibility(b, a, false);
            if let Compatibility::WidenLeft(t) = ab {
                assert_eq!(ba, Compatibility::WidenRight(t));
            }
            assert!(!matches!(expr.type_compatibility(a, b, true), Compatibility::WidenRight(_)));
        }
    }
}

#[test]
fn pointer_round_trip() {
    for t in [PrimType::Char, PrimType::Int, PrimType::Long, PrimType::Void] {
        assert_eq!(t.pointer_to().value_at(), t);
        assert_eq!(t.pointer_to().value_at().pointer_to(), t.pointer_to());
    }
}

#[test]
fn lookup_finds_the_first_entry_of_a_name() {
    let mut symbols = SymbolTable::new();
    symbols.add_glob("x", PrimType::Char, StructuralType::Variable);
    symbols.add_glob("x", PrimType::Long, StructuralType::Variable);
    assert_eq!(symbols.len(), 2);
    assert_eq!(symbols.find_glob("x").unwrap().dtype, PrimType::Char);
    symbols.add_glob("y", PrimType::Int, StructuralType::Variable);
    assert_eq!(symbols.find_glob("y").unwrap().dtype, PrimType::Int);
}

#[test]
fn default_table_holds_printint() {
    let symbols = SymbolTable::default();
    assert_eq!(symbols.len(), 1);
    let entry = symbols.find_glob("printint").unwrap();
    assert_eq!(entry.dtype, PrimType::Void);
    assert_eq!(entry.stype, StructuralType::Function { end_label: None });
}
