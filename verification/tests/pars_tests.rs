use acwj_rs::ast::{AstNode, Identifier};
use acwj_rs::cgen::CodeGenerator;
use acwj_rs::dummy_cg::DummyBackend;
use acwj_rs::pars::Parser;
use acwj_rs::scan::{Scanner, TokenType};
use acwj_rs::sym::{PrimType, SymbolTable};

fn parser_from(s: &str) -> Parser {
    let scanner = Scanner::new(s.as_bytes().to_vec());
    let symbols = SymbolTable::default();
    let code_gen = CodeGenerator::new(DummyBackend::new(), &symbols);
    Parser::new(scanner, symbols, &code_gen)
}

fn print(val: i64) -> AstNode {
    AstNode::make_function_call("printint", AstNode::make_intlit(val, PrimType::Char), PrimType::Void)
}

fn one_lt_two() -> AstNode {
    AstNode::make_binary(TokenType::LT, AstNode::make_intlit(1, PrimType::Char), AstNode::make_intlit(2, PrimType::Char), PrimType::Char)
}

#[test]
fn compound_statement_empty_body() {
    let mut parser = parser_from("{}");
    let tree = parser.compound_statement().expect("parse failed");
    assert_eq!(tree, AstNode::Empty);
}

#[test]
fn compound_statement_var_declaration() {
    for (kword, dtype) in [("char", PrimType::Char), ("int", PrimType::Int), ("long", PrimType::Long)] {
        let mut parser = parser_from(&format!("{{ {kword} x; }}"));
        let tree = parser.compound_statement().expect("parse failed");
        assert_eq!(tree, AstNode::GlobalDec { id: Identifier::new("x"), dtype });
    }
}

#[test]
fn compound_statement_multiple_statements() {
    let mut parser = parser_from("{ printint(1); printint(2); }");
    let tree = parser.compound_statement().expect("parse failed");
    assert_eq!(tree, AstNode::make_glue(print(1), print(2)));
}

#[test]
fn compound_statement_skips_standalone_semicolons() {
    let mut parser = parser_from("{ ; ; printint(42); }");
    let tree = parser.compound_statement().expect("parse failed");
    assert_eq!(tree, print(42));
}

#[test]
fn compound_statement_assignment() {
    for (kword, dtype) in [("char", PrimType::Char), ("int", PrimType::Int), ("long", PrimType::Long)] {
        let mut parser = parser_from(&format!("{{ {kword} x; x = 5; }}"));
        let tree = parser.compound_statement().expect("parse failed");
        assert_eq!(tree, AstNode::make_glue(
            AstNode::make_global_declaration("x", dtype),
            AstNode::make_assign(AstNode::make_lvident("x", dtype), AstNode::make_intlit(5, dtype)),
        ));
    }
}

#[test]
fn compound_statement_if_without_else() {
    let mut parser = parser_from("{ if (1 < 2) { printint(42); } }");
    let tree = parser.compound_statement().expect("parse failed");
    assert_eq!(tree, AstNode::make_if(one_lt_two(), print(42), None));
}

#[test]
fn compound_statement_if_with_else() {
    let mut parser = parser_from("{ if (1 < 2) { printint(1); } else { printint(2); } }");
    let tree = parser.compound_statement().expect("parse failed");
    assert_eq!(tree, AstNode::make_if(one_lt_two(), print(1), Some(print(2))));
}

#[test]
fn compound_statement_while() {
    let mut parser = parser_from("{ while (1 < 2) { printint(42); } }");
    let tree = parser.compound_statement().expect("parse failed");
    assert_eq!(tree, AstNode::make_while(one_lt_two(), print(42)));
}

#[test]
fn compound_statement_for_desugars_to_glue_while() {
    // for (pre; cond; post) { body } becomes Glue(pre, While(cond, Glue(body, post)))
    let mut parser = parser_from("{ for (printint(1); 1 < 2; printint(3)) { printint(42); } }");
    let tree = parser.compound_statement().expect("parse failed");
    assert_eq!(tree, AstNode::make_glue(
        print(1),
        AstNode::make_while(one_lt_two(), AstNode::make_glue(print(42), print(3))),
    ));
}

#[test]
fn compound_statement_empty_for_loop() {
    let mut parser = parser_from("{ char i; for (i = 0; i < 5; i = i + 1) {} }");
    let tree = parser.compound_statement().expect("parse failed");
    let decl = AstNode::make_global_declaration("i", PrimType::Char);
    let while_stmt = AstNode::make_glue(
        AstNode::make_assign(AstNode::make_lvident("i", PrimType::Char), AstNode::make_intlit(0, PrimType::Char)),
        AstNode::make_while(
            AstNode::make_binary(TokenType::LT, AstNode::make_ident("i", PrimType::Char), AstNode::make_intlit(5, PrimType::Char), PrimType::Char),
            AstNode::make_glue(
                AstNode::Empty,
                AstNode::make_assign(AstNode::make_lvident("i", PrimType::Char),
                        AstNode::make_binary(TokenType::Plus, AstNode::make_ident("i", PrimType::Char),
                                                              AstNode::make_intlit(1, PrimType::Char),
                                                              PrimType::Char))
            ),
        ),
    );
    assert_eq!(tree, AstNode::make_glue(decl, while_stmt));
}

#[test]
fn function_declaration_empty_body() {
    let mut parser = parser_from("void foo() {}");
    let result = parser.function_declaration().expect("parse failed");
    assert_eq!(result, Some(AstNode::make_function(
        AstNode::make_ident("foo", PrimType::Void),
        AstNode::Empty,
    )));
}

#[test]
fn function_declaration_eof_returns_none() {
    let mut parser = parser_from("");
    let result = parser.function_declaration().expect("parse failed");
    assert_eq!(result, None);
}

#[test]
fn single_statement_operator_fails() {
    let mut parser = parser_from("+ 5");
    assert!(parser.single_statement().is_err());
}

#[test]
fn single_statement_intlit_fails() {
    let mut parser = parser_from("42");
    assert!(parser.single_statement().is_err());
}

#[test]
fn var_declaration_ptr() {
    let mut parser = parser_from("{ int *x; }");
    let tree = parser.compound_statement().expect("parse failed");
    assert_eq!(tree, AstNode::make_global_declaration("x", PrimType::IntPtr));
}

#[test]
fn var_declaration_char_ptr() {
    let mut parser = parser_from("{ char *c; }");
    let tree = parser.compound_statement().expect("parse failed");
    assert_eq!(tree, AstNode::make_global_declaration("c", PrimType::CharPtr));
}

#[test]
fn function_declaration_with_return_statement() {
    let mut parser = parser_from("int foo() { return(42); }");
    let result = parser.function_declaration().expect("parse failed");
    assert!(result.is_some());
}
