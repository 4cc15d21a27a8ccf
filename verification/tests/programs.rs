//! Whole programs run through the scanner, the parser and the
//! interpreter, with their printed output checked byte for byte.

use rlox::ast::TokenRef;
use rlox::interpreter::Interpreter;
use rlox::parser::Parser;
use rlox::scanner::Scanner;

fn run_program(source: &str) -> Result<String, String> {
    let mut scanner = Scanner::build_scanner(source.as_bytes().to_vec());
    let tokens = scanner.scan_all()?;
    let refs: Vec<TokenRef> = tokens.into_iter().map(std::rc::Rc::new).collect();
    let mut parser = Parser::new(refs);
    let decls = parser.parse()?;
    let mut interp = Interpreter::new();
    interp.interpret(decls, 1_000_000)?;
    Ok(interp.output().clone())
}

#[test]
fn adds_two_variables() {
    assert_eq!(run_program("var a = 1; var b = 2; print a + b;").unwrap(), "3\n");
}

#[test]
fn inner_declaration_shadows_and_outer_survives() {
    let out = run_program("var a = \"hi\"; { var a = \"lo\"; print a; } print a;").unwrap();
    assert_eq!(out, "lo\nhi\n");
}

#[test]
fn while_loop_counts() {
    let out = run_program("var i = 0; while (i < 3) { print i; i = i + 1; }").unwrap();
    assert_eq!(out, "0\n1\n2\n");
}

#[test]
fn closure_keeps_captured_scope() {
    let src = "fun make(n) { fun inner() { return n; } return inner; } var f = make(42); print f();";
    assert_eq!(run_program(src).unwrap(), "42\n");
}

#[test]
fn or_short_circuits_past_unbound_name() {
    let out = run_program("if (true or crash) print \"ok\"; else print \"no\";").unwrap();
    assert_eq!(out, "ok\n");
}

#[test]
fn and_short_circuits_past_unbound_name() {
    let out = run_program("if (false and crash) print \"no\"; else print \"ok\";").unwrap();
    assert_eq!(out, "ok\n");
}

#[test]
fn break_leaves_loop() {
    let src = "var i = 0; while (i < 10) { if (i == 3) break; print i; i = i + 1; }";
    assert_eq!(run_program(src).unwrap(), "0\n1\n2\n");
}

#[test]
fn break_leaves_only_innermost_loop() {
    let src = "var i = 0; while (i < 2) { var j = 0; while (j < 10) { if (j == 1) break; j = j + 1; } print i; i = i + 1; }";
    assert_eq!(run_program(src).unwrap(), "0\n1\n");
}

#[test]
fn plus_rejects_mixed_operands() {
    let err = run_program("print 1 + \"a\";").unwrap_err();
    assert_eq!(err, "invalid operands for plus operator");
}

#[test]
fn assignment_hits_nearest_binding() {
    assert_eq!(run_program("var a = 1; { a = 2; } print a;").unwrap(), "2\n");
}

#[test]
fn closure_mutation_is_observable_between_calls() {
    let src = "fun make() { var c = 0; fun inc() { c = c + 1; return c; } return inc; } var f = make(); print f(); print f();";
    assert_eq!(run_program(src).unwrap(), "1\n2\n");
}

#[test]
fn return_cuts_through_enclosing_loop() {
    let src = "fun f() { var i = 0; while (i < 10) { if (i == 2) { return i; } i = i + 1; } return 99; } print f();";
    assert_eq!(run_program(src).unwrap(), "2\n");
}

#[test]
fn block_scope_is_not_visible_after_block() {
    let err = run_program("{ var x = 5; } print x;").unwrap_err();
    assert_eq!(err, "variable x not in scope");
}

#[test]
fn break_outside_loop_is_an_error() {
    assert_eq!(run_program("break;").unwrap_err(), "break outside loop");
}

#[test]
fn wrong_arity_is_an_error() {
    let src = "fun f(a) { return a; } print f(1, 2);";
    assert_eq!(run_program(src).unwrap_err(), "expected 1 arguments but got 2");
}

#[test]
fn uninitialized_read_is_an_error() {
    assert_eq!(run_program("var a; print a;").unwrap_err(), "variable is not initialized");
}

#[test]
fn nil_prints_as_empty_line() {
    assert_eq!(run_program("var a = nil; print a;").unwrap(), "\n");
}

#[test]
fn equality_is_structural_across_variants() {
    let out = run_program("print 1 == 1; print 1 == \"a\"; print \"x\" == \"x\"; print 1 != 2;").unwrap();
    assert_eq!(out, "true\nfalse\ntrue\ntrue\n");
}

#[test]
fn negative_numbers_print_with_sign() {
    assert_eq!(run_program("print -5; print 0 - 7;").unwrap(), "-5\n-7\n");
}

#[test]
fn division_truncates_and_zero_divisor_is_an_error() {
    assert_eq!(run_program("print 10 / 3;").unwrap(), "3\n");
    assert_eq!(run_program("print 1 / 0;").unwrap_err(), "division by zero");
}

#[test]
fn strings_concatenate() {
    assert_eq!(run_program("print \"a\" + \"b\";").unwrap(), "ab\n");
}

#[test]
fn comments_run_to_end_of_line() {
    assert_eq!(run_program("// nothing here\nprint 1;").unwrap(), "1\n");
}

#[test]
fn unknown_character_is_a_scan_error() {
    assert_eq!(run_program("print @;").unwrap_err(), "error scanning token: @");
}

#[test]
fn unterminated_string_is_a_scan_error() {
    assert_eq!(run_program("print \"abc").unwrap_err(), "unterminated string");
}

#[test]
fn missing_semicolon_is_a_parse_error() {
    assert_eq!(run_program("print 1").unwrap_err(), "semicolon missing");
}

#[test]
fn calling_a_number_is_an_error() {
    assert_eq!(run_program("var a = 3; a();").unwrap_err(), "3 is not callable");
}

#[test]
fn callee_is_checked_before_any_argument_is_evaluated() {
    // the unbound argument is never reached: the callee fails first
    assert_eq!(run_program("var a = 3; a(crash);").unwrap_err(), "3 is not callable");
}

#[test]
fn arguments_do_not_run_for_an_uncallable_callee() {
    // the assignment inside the argument list must not land
    let src = "var a = 3; var b = 1; if (a(b = 2) == nil) print b; print b;";
    assert_eq!(run_program(src).unwrap_err(), "3 is not callable");
}

#[test]
fn if_condition_must_be_boolean() {
    assert_eq!(
        run_program("if (1) print 1;").unwrap_err(),
        "condition expression should return boolean"
    );
}

#[test]
fn grouping_changes_precedence() {
    assert_eq!(run_program("print (1 + 2) * 3; print 1 + 2 * 3;").unwrap(), "9\n7\n");
}
