use rs_lisp::evaluator::{Evaluator, EvaluatorError};
use rs_lisp::type_enums::BinOp;
use rs_lisp::lexer::Lexer;
use rs_lisp::lisptype::LispType;
use rs_lisp::parser::Parser;

fn read_one(src: &str) -> LispType {
    let mut lexer = Lexer::new(src);
    let mut tokens = Vec::new();
    loop {
        match lexer.next_token() {
            Ok(Some(t)) => tokens.push(t),
            Ok(None) => break,
            Err(e) => panic!("lexical error in test input {:?}: {:?}", src, e),
        }
    }
    let parsed = Parser::parse(tokens);
    parsed.car().expect("one expression").clone()
}

fn run_in(ev: &mut Evaluator, src: &str) -> Result<LispType, EvaluatorError> {
    ev.eval(read_one(src))
}

fn run(src: &str) -> Result<LispType, EvaluatorError> {
    let mut ev = Evaluator::new();
    run_in(&mut ev, src)
}

fn shown(r: Result<LispType, EvaluatorError>) -> String {
    r.expect("expected successful evaluation").show()
}

#[test]
fn integer_division_truncates() {
    assert_eq!(shown(run("(/ 7 2)")), "3");
    assert_eq!(shown(run("(/ -7 2)")), "-3");
    assert_eq!(shown(run("(/ 7 -2)")), "-3");
    assert_eq!(shown(run("(/ -7 -2)")), "3");
}

#[test]
fn integer_division_by_zero_fails() {
    assert!(matches!(run("(/ 7 0)"), Err(EvaluatorError::DivisionByZero)));
    let m = Evaluator::apply_bo(BinOp::MOD, read_one("7"), read_one("0"));
    assert!(matches!(m, Err(EvaluatorError::DivisionByZero)));
}

#[test]
fn float_division_by_zero_fails() {
    assert!(matches!(run("(/ 1.5 0.0)"), Err(EvaluatorError::DivisionByZero)));
    let m = Evaluator::apply_bo(BinOp::MOD, read_one("2.5"), read_one("0.0"));
    assert!(matches!(m, Err(EvaluatorError::DivisionByZero)));
}

#[test]
fn car_of_cons_is_first_argument() {
    assert_eq!(shown(run("(car (cons 1 2))")), "1");
    assert_eq!(shown(run("(car (cons \"a\" (quote (5))))")), "'a'");
}

#[test]
fn cdr_of_two_element_cons_is_singleton() {
    assert_eq!(shown(run("(cdr (cons 1 (cons 2 (quote ()))))")), "(2)");
}

#[test]
fn cons_builds_pair_from_scalars() {
    assert_eq!(shown(run("(cons 1 2)")), "(1 2)");
    assert_eq!(shown(run("(cons 1 (quote (2 3)))")), "(1 2 3)");
}

#[test]
fn quote_defers_and_eval_resumes() {
    assert_eq!(shown(run("(quote (+ 1 2))")), "(+ 1 2)");
    assert_eq!(shown(run("(eval (quote (+ 1 2)))")), "3");
    assert_eq!(shown(run("(eval (quote 42))")), "42");
}

#[test]
fn def_then_get_returns_binding() {
    let mut ev = Evaluator::new();
    assert_eq!(shown(run_in(&mut ev, "(def x 5)")), "5");
    assert_eq!(shown(run_in(&mut ev, "(get x)")), "5");
    assert_eq!(shown(run_in(&mut ev, "x")), "5");
}

#[test]
fn set_of_undefined_symbol_fails() {
    let r = run("(set! y 1)");
    match r {
        Err(EvaluatorError::UndefinedSymbol(name)) => assert_eq!(name, "y"),
        other => panic!("expected an undefined-symbol error, got {:?}", other),
    }
}

#[test]
fn set_overwrites_existing_binding() {
    let mut ev = Evaluator::new();
    assert_eq!(shown(run_in(&mut ev, "(def x 1)")), "1");
    assert_eq!(shown(run_in(&mut ev, "(set! x 2)")), "2");
    assert_eq!(shown(run_in(&mut ev, "(get x)")), "2");
}

#[test]
fn def_overwrites_equal_key() {
    let mut ev = Evaluator::new();
    assert_eq!(shown(run_in(&mut ev, "(def x 1)")), "1");
    assert_eq!(shown(run_in(&mut ev, "(def x 2)")), "2");
    assert_eq!(shown(run_in(&mut ev, "(get x)")), "2");
}

#[test]
fn equality_on_strings_and_across_numeric_kinds() {
    assert_eq!(shown(run("(== \"a\" \"a\")")), "true");
    assert_eq!(shown(run("(== \"a\" \"b\")")), "false");
    assert_eq!(shown(run("(== 1 1.0)")), "true");
    assert_eq!(shown(run("(== 1 1.5)")), "false");
    assert_eq!(shown(run("(!= 1 2)")), "true");
}

#[test]
fn comparisons_after_numeric_coercion() {
    assert_eq!(shown(run("(< 1 2)")), "true");
    assert_eq!(shown(run("(< 2.5 2)")), "false");
    assert_eq!(shown(run("(>= 2.0 2)")), "true");
    assert_eq!(shown(run("(<= 3 2.5)")), "false");
    assert_eq!(shown(run("(> 0.5 0)")), "true");
}

#[test]
fn arithmetic_on_integers() {
    assert_eq!(shown(run("(+ 1 (* 2 3))")), "7");
    assert_eq!(shown(run("(- 1 9)")), "-8");
    // the remainder operator's spelling is not a symbol character the
    // scanner accepts, so it is applied directly
    let m = Evaluator::apply_bo(BinOp::MOD, read_one("7"), read_one("2"));
    assert_eq!(m.unwrap().unwrap().show(), "1");
    let m2 = Evaluator::apply_bo(BinOp::MOD, read_one("-7"), read_one("2"));
    assert_eq!(m2.unwrap().unwrap().show(), "-1");
}

#[test]
fn arithmetic_on_decimals_is_exact() {
    assert_eq!(shown(run("(+ 1.5 0.25)")), "1.750");
    assert_eq!(shown(run("(* 1.5 2)")), "3.0");
    assert_eq!(shown(run("(- 0.5 1)")), "-0.5");
    let m = Evaluator::apply_bo(BinOp::MOD, read_one("7.5"), read_one("2.0"));
    assert_eq!(m.unwrap().unwrap().show(), "1.50");
}

#[test]
fn division_leaving_decimal_range_shows_fraction() {
    assert_eq!(shown(run("(/ 1.0 4.0)")), "100/400");
}

#[test]
fn integer_overflow_is_an_error() {
    let r = run("(+ 9223372036854775807 1)");
    match r {
        Err(EvaluatorError::Other(msg)) => assert_eq!(msg, "arithmetic overflow"),
        other => panic!("expected an overflow error, got {:?}", other),
    }
}

#[test]
fn string_concatenation() {
    assert_eq!(shown(run("(++ \"ab\" \"cd\")")), "'abcd'");
    assert!(matches!(run("(++ \"ab\" 1)"), Err(EvaluatorError::TypeMismatch(_))));
}

#[test]
fn type_mismatches_are_reported() {
    assert!(matches!(run("(+ 1 \"a\")"), Err(EvaluatorError::TypeMismatch(_))));
    assert!(matches!(run("(car 5)"), Err(EvaluatorError::TypeMismatch(_))));
    assert!(matches!(run("(def 5 1)"), Err(EvaluatorError::TypeMismatch(_))));
}

#[test]
fn ordering_two_strings_fails_application() {
    let r = run("(> \"a\" \"b\")");
    match r {
        Err(EvaluatorError::Other(msg)) => assert_eq!(msg, "BinPred application failed"),
        other => panic!("expected a failed application, got {:?}", other),
    }
}

#[test]
fn empty_list_and_arity_errors() {
    assert!(matches!(run("()"), Err(EvaluatorError::InvalidArguments(_))));
    match run("(+ 1)") {
        Err(EvaluatorError::InvalidArguments(msg)) => {
            assert_eq!(msg, "BinOp + requires exactly two arguments")
        }
        other => panic!("expected a wrong-arity error, got {:?}", other),
    }
    match run("(< 1)") {
        Err(EvaluatorError::InvalidArguments(msg)) => {
            assert_eq!(msg, "BinPred < requires exactly two arguments")
        }
        other => panic!("expected a wrong-arity error, got {:?}", other),
    }
    assert!(matches!(run("(quote 1 2)"), Err(EvaluatorError::InvalidArguments(_))));
    assert!(matches!(run("(car (quote ()))"), Err(EvaluatorError::InvalidArguments(_))));
    assert!(matches!(run("(cdr (quote ()))"), Err(EvaluatorError::InvalidArguments(_))));
}

#[test]
fn undefined_symbol_lookup_fails() {
    assert!(matches!(run("nope"), Err(EvaluatorError::UndefinedSymbol(_))));
    assert!(matches!(run("(get nope)"), Err(EvaluatorError::UndefinedSymbol(_))));
}

#[test]
fn unimplemented_forms_are_rejected() {
    assert!(matches!(run("(lambda x 1)"), Err(EvaluatorError::UndefinedSymbol(_))));
    assert!(matches!(run("(cond 1 2)"), Err(EvaluatorError::UndefinedSymbol(_))));
}

#[test]
fn print_logs_renderings_and_returns_true() {
    let mut ev = Evaluator::new();
    assert_eq!(shown(run_in(&mut ev, "(print 42 \"hi\" (+ 1 2))")), "true");
    let out = ev.take_output();
    assert_eq!(out, vec!["42", "'hi'", "3"]);
    assert!(ev.take_output().is_empty());
}

#[test]
fn do_returns_its_second_argument_unevaluated() {
    assert_eq!(shown(run("(do 1 (quote x) 3)")), "(quote x)");
    assert!(matches!(run("(do 1)"), Err(EvaluatorError::InvalidArguments(_))));
}

#[test]
fn nested_list_in_operator_position_becomes_the_head() {
    // the inner list's result stands as the operator head over the rest
    assert_eq!(shown(run("((quote +) 1 2)")), "3");
    assert_eq!(shown(run("((quote car) (cons 1 2))")), "1");
    // a head that reduces to a plain value is no operator
    assert!(matches!(run("((quote 5) 1 2)"), Err(EvaluatorError::TypeMismatch(_))));
    assert!(matches!(run("((+ 1 2))"), Err(EvaluatorError::TypeMismatch(_))));
}

#[test]
fn symbol_in_operator_position_is_a_type_mismatch() {
    let r = run("(x 1 2)");
    match r {
        Err(EvaluatorError::TypeMismatch(msg)) => {
            assert_eq!(msg, "Cannot apply operator to symbol: x")
        }
        other => panic!("expected a type mismatch, got {:?}", other),
    }
}

#[test]
fn error_messages_render_with_their_kind() {
    let e = EvaluatorError::UndefinedSymbol(String::from("y"));
    assert_eq!(e.show(), "Undefined symbol: y");
    assert_eq!(EvaluatorError::DivisionByZero.show(), "Error: Division by zero");
    assert_eq!(EvaluatorError::UnmatchedBrace.show(), "Error: Unmatched brace detected");
}

#[test]
fn shared_tails_are_not_copied() {
    let mut ev = Evaluator::new();
    assert_eq!(shown(run_in(&mut ev, "(def t (quote (2 3)))")), "(2 3)");
    assert_eq!(shown(run_in(&mut ev, "(cons 1 (get t))")), "(1 2 3)");
    assert_eq!(shown(run_in(&mut ev, "(cons 0 (get t))")), "(0 2 3)");
    assert_eq!(shown(run_in(&mut ev, "(get t)")), "(2 3)");
}

#[test]
fn failed_evaluation_keeps_earlier_bindings() {
    let mut ev = Evaluator::new();
    assert_eq!(shown(run_in(&mut ev, "(def x 1)")), "1");
    assert!(run_in(&mut ev, "(/ 1 0)").is_err());
    assert_eq!(shown(run_in(&mut ev, "(get x)")), "1");
}

#[test]
fn values_as_float_and_as_integer_and_as_string() {
    let v = read_one("42");
    assert_eq!(v.as_integer(), Some(42));
    assert!(v.as_float().is_some());
    assert!(v.as_string().is_none());
    let s = read_one("\"txt\"");
    assert_eq!(s.as_string(), Some(String::from("txt")));
    assert!(s.as_integer().is_none());
    let f = read_one("2.5");
    let q = f.as_float().unwrap();
    assert_eq!(q.num(), 25);
    assert_eq!(q.den(), 10);
}
