use rs_lisp::conslist::ConsList;
use rs_lisp::rational::Rational;
use std::rc::Rc;
use rs_lisp::lexer::{Lexer, Token};
use rs_lisp::lisptype::LispType;
use rs_lisp::parser::Parser;
use rs_lisp::type_enums::{BinOp, BinPred, SpecForms};

fn tokens_of(src: &str) -> Vec<Token> {
    let mut lexer = Lexer::new(src);
    let mut tokens: Vec<Token> = Vec::new();
    while let Ok(Some(t)) = lexer.next_token() {
        tokens.push(t);
    }
    tokens
}

#[test]
fn parse_round_trip_rendering() {
    let parsed = Parser::parse(tokens_of("(+ 1 (* 2 3))"));
    let expr = parsed.car().expect("one top-level expression");
    assert_eq!(expr.show(), "(+ 1 (* 2 3))");
}

#[test]
fn parse_resolves_operator_spellings() {
    let parsed = Parser::parse(tokens_of("(== def + foo)"));
    let expr = match parsed.car() {
        Some(LispType::Cons(list)) => list,
        other => panic!("expected a nested list, got {:?}", other),
    };
    assert!(matches!(expr.car(), Some(LispType::BinPred(BinPred::EQ))));
    let rest = expr.cdr().unwrap();
    assert!(matches!(rest.car(), Some(LispType::SpecForm(SpecForms::DEF))));
    let rest2 = rest.cdr().unwrap();
    assert!(matches!(rest2.car(), Some(LispType::BinOp(BinOp::ADD))));
    let rest3 = rest2.cdr().unwrap();
    assert!(matches!(rest3.car(), Some(LispType::Symbol(s)) if s == "foo"));
}

#[test]
fn parse_drops_comments() {
    let parsed = Parser::parse(tokens_of("(1 ; gone\n 2)"));
    let expr = parsed.car().expect("one top-level expression");
    assert_eq!(expr.show(), "(1 2)");
}

#[test]
fn parse_empty_input_is_empty_list() {
    let parsed = Parser::parse(tokens_of(""));
    assert!(matches!(&*parsed, ConsList::Nil));
    assert_eq!(parsed.show(), "()");
}

#[test]
fn parse_keeps_nesting_and_order() {
    let parsed = Parser::parse(tokens_of("((a b) (c (d)))"));
    let expr = parsed.car().expect("one top-level expression");
    assert_eq!(expr.show(), "((a b) (c (d)))");
}

#[test]
fn operator_tables_round_trip() {
    assert_eq!(BinOp::from_str("+"), Some(BinOp::ADD));
    assert_eq!(BinOp::from_str("++"), Some(BinOp::SCONCAT));
    assert_eq!(BinOp::from_str("plus"), None);
    assert_eq!(BinOp::ADD.to_string(), "+");
    assert_eq!(BinPred::from_str(">="), Some(BinPred::GTE));
    assert_eq!(BinPred::GTE.to_string(), ">=");
    assert_eq!(BinPred::from_str("=>"), None);
    assert_eq!(SpecForms::from_str("set!"), Some(SpecForms::SET));
    assert_eq!(SpecForms::SET.to_string(), "set!");
    assert_eq!(SpecForms::from_str("lambda"), Some(SpecForms::LAMBDA));
    assert_eq!(SpecForms::from_str("nope"), None);
}

#[test]
fn show_renders_each_scalar_kind() {
    assert_eq!(LispType::Integer(-5).show(), "-5");
    assert_eq!(LispType::Bool(true).show(), "true");
    assert_eq!(LispType::Bool(false).show(), "false");
    assert_eq!(LispType::String(String::from("hi")).show(), "'hi'");
    assert_eq!(LispType::Symbol(String::from("abc")).show(), "abc");
    assert_eq!(LispType::BinOp(BinOp::MOD).show(), "%");
    assert_eq!(LispType::BinPred(BinPred::NOEQ).show(), "!=");
    assert_eq!(LispType::SpecForm(SpecForms::QUOTE).show(), "quote");
}

#[test]
fn test_show_list_of_all_types() {
    let pi = Rational::from_decimal(314, 2).unwrap();
    let cons_list = Rc::new(ConsList::Cons(
        LispType::Integer(42),
        Rc::new(ConsList::Cons(
            LispType::Float(pi),
            Rc::new(ConsList::Cons(
                LispType::Bool(true),
                Rc::new(ConsList::Cons(
                    LispType::String("hello".to_string()),
                    Rc::new(ConsList::Cons(
                        LispType::Symbol("my_symbol".to_string()),
                        Rc::new(ConsList::Nil),
                    )),
                )),
            )),
        )),
    ));
    let new_cons_list = Rc::new(ConsList::Cons(LispType::Integer(10), cons_list));
    let cons_test_lisp_type = LispType::Cons(new_cons_list.clone());
    println!("{:?}", cons_test_lisp_type);
    assert_eq!("(10 42 3.14 true 'hello' my_symbol)", cons_test_lisp_type.show());
    assert_eq!("(10 42 3.14 true 'hello' my_symbol)", new_cons_list.show());
}
