use acwj_rs::scan::TokenType;
use acwj_rs::sym::{PrimType, StructuralType, SymbolTable, SymbolTableBuilder};

#[test]
fn test_add_glob() {
    let mut symbols = SymbolTable::new();
    symbols.add_glob("x", PrimType::Int, StructuralType::Variable);
    symbols.add_glob("y", PrimType::Int, StructuralType::Variable);

    assert_eq!(symbols.len(), 2);
    assert!(symbols.has_global("x"));
    assert!(symbols.has_global("y"));
}

#[test]
fn test_find_glob_found() {
    let mut symbols = SymbolTable::new();
    symbols.add_glob("x", PrimType::Int, StructuralType::Variable);
    symbols.add_glob("y", PrimType::Int, StructuralType::Variable);

    let result = symbols.find_glob("x");
    assert!(result.is_some());
    assert_eq!(result.unwrap().name, "x");

    let result = symbols.find_glob("y");
    assert!(result.is_some());
    assert_eq!(result.unwrap().name, "y");
}

#[test]
fn test_find_glob_not_found() {
    let mut symbols = SymbolTable::new();
    symbols.add_glob("x", PrimType::Int, StructuralType::Variable);
    symbols.add_glob("y", PrimType::Int, StructuralType::Variable);

    let result = symbols.find_glob("z");
    assert!(result.is_none());
}

#[test]
fn test_global_vars_iterator_only_returns_vars() {
    let mut symbols = SymbolTable::default();

    // Adds "main" to the default symbols, to ensure there's at least one function
    symbols.add_glob_fn("main", PrimType::Int);
    symbols.add_glob("foo", PrimType::Char, StructuralType::Variable);
    symbols.add_glob("bar", PrimType::Int, StructuralType::Variable);

    let mut it = symbols.iter_global_vars();
    let mut names = vec![];
    while let Some(se) = it.next() {
        names.push(se.name.clone());
    }
    assert_eq!(names, vec!["foo", "bar"]);
}

#[test]
fn pointer_to_char_returns_charptr() {
    assert_eq!(PrimType::Char.pointer_to(), PrimType::CharPtr);
}

#[test]
fn pointer_to_int_returns_intptr() {
    assert_eq!(PrimType::Int.pointer_to(), PrimType::IntPtr);
}

#[test]
fn pointer_to_long_returns_longptr() {
    assert_eq!(PrimType::Long.pointer_to(), PrimType::LongPtr);
}

#[test]
fn pointer_to_void_returns_voidptr() {
    assert_eq!(PrimType::Void.pointer_to(), PrimType::VoidPtr);
}

#[test]
fn value_at_charptr_returns_char() {
    assert_eq!(PrimType::CharPtr.value_at(), PrimType::Char);
}

#[test]
fn value_at_intptr_returns_int() {
    assert_eq!(PrimType::IntPtr.value_at(), PrimType::Int);
}

#[test]
fn value_at_longptr_returns_long() {
    assert_eq!(PrimType::LongPtr.value_at(), PrimType::Long);
}

#[test]
fn value_at_voidptr_returns_void() {
    assert_eq!(PrimType::VoidPtr.value_at(), PrimType::Void);
}

#[test]
fn prim_from_char_token() {
    assert_eq!(PrimType::from_token(TokenType::Char), PrimType::Char);
}

#[test]
fn prim_from_int_token() {
    assert_eq!(PrimType::from_token(TokenType::Int), PrimType::Int);
}

#[test]
fn prim_from_long_token() {
    assert_eq!(PrimType::from_token(TokenType::Long), PrimType::Long);
}

#[test]
fn prim_from_void_token() {
    assert_eq!(PrimType::from_token(TokenType::Void), PrimType::Void);
}

#[test]
fn set_and_get_fn_end_label() {
    let mut symbols = SymbolTable::new();
    symbols.add_glob_fn("foo", PrimType::Int);
    symbols.set_fn_end_label("foo", 42);
    assert_eq!(symbols.get_fn_end_label("foo"), 42);
}

#[test]
fn get_fn_dtype_returns_type() {
    let mut symbols = SymbolTable::new();
    symbols.add_glob_fn("foo", PrimType::Int);
    assert_eq!(symbols.get_fn_dtype("foo"), PrimType::Int);
}

#[test]
fn builder_add_glob_fn_creates_function() {
    let st = SymbolTableBuilder::new()
        .add_glob_fn("main", PrimType::Int)
        .build();
    assert_eq!(st.len(), 1);
    let entry = st.find_glob("main").unwrap();
    assert!(matches!(entry.stype, StructuralType::Function { .. }));
    assert_eq!(entry.dtype, PrimType::Int);
}

#[test]
fn is_empty_on_new_table() {
    let symbols = SymbolTable::new();
    assert!(symbols.is_empty());
}

#[test]
fn add_glob_fn_adds_function() {
    let mut symbols = SymbolTable::new();
    symbols.add_glob_fn("foo", PrimType::Void);
    assert!(symbols.has_global("foo"));
    assert_eq!(symbols.len(), 1);
}
