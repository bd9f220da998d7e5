use chawk::{Interpreter, RunError, RuntimeError};

fn run_ok(program: &str, input: &[&str]) -> Vec<String> {
    let mut interp = Interpreter::new();
    let records: Vec<String> = input.iter().map(|s| s.to_string()).collect();
    match interp.run(program, &records) {
        Ok(()) => interp.out,
        Err(e) => panic!("unexpected failure: {:?}", e),
    }
}

fn run_err(program: &str, input: &[&str]) -> RunError {
    let mut interp = Interpreter::new();
    let records: Vec<String> = input.iter().map(|s| s.to_string()).collect();
    match interp.run(program, &records) {
        Ok(()) => panic!("expected a failure, printed {:?}", interp.out),
        Err(e) => e,
    }
}

#[test]
fn default_action_prints_records() {
    assert_eq!(run_ok("{ }", &["a b", "c d"]), vec!["a b", "c d"]);
}

#[test]
fn field_arithmetic() {
    assert_eq!(run_ok("{ print $1 + $2 }", &["3 4"]), vec!["7"]);
}

#[test]
fn pattern_filter() {
    assert_eq!(run_ok("$1 == \"x\" { print $2 }", &["x y", "z w"]), vec!["y"]);
}

#[test]
fn accumulator_without_declaration() {
    assert_eq!(
        run_ok("{ sum += $1 } END { print sum }", &["1", "2", "3"]),
        vec!["6"]
    );
}

#[test]
fn function_call_and_scoping() {
    assert_eq!(
        run_ok("add(a,b){ return a+b } { print add(2,3) }", &["x"]),
        vec!["5"]
    );
    // A global with a parameter's name is untouched by the call.
    assert_eq!(
        run_ok(
            "add(a,b){ return a+b } { a = 99 print add(2,3) print a }",
            &["x"]
        ),
        vec!["5", "99"]
    );
}

#[test]
fn regex_match_pattern() {
    let prog = "$1 ~ /^[0-9]+$/ { print \"numeric\" }";
    assert_eq!(run_ok(prog, &["42 x"]), vec!["numeric"]);
    assert_eq!(run_ok(prog, &["foo x"]), Vec::<String>::new());
}

#[test]
fn bare_regex_tests_whole_record() {
    assert_eq!(
        run_ok("/b.d/ { print \"hit\" }", &["xyz", "bad day"]),
        vec!["hit"]
    );
}

#[test]
fn match_falls_back_to_substring() {
    assert_eq!(
        run_ok("{ if ($1 ~ \"bc\") print \"has\" }", &["abcd", "xyz"]),
        vec!["has"]
    );
}

#[test]
fn regex_on_left_warns_and_is_false() {
    let mut interp = Interpreter::new();
    let records = vec!["abc".to_string()];
    interp
        .run("{ if (/a/ ~ $1) print \"yes\" else print \"no\" }", &records)
        .unwrap();
    assert_eq!(interp.out, vec!["no"]);
    assert_eq!(interp.warnings.len(), 1);
}

#[test]
fn nr_counts_records() {
    assert_eq!(run_ok("{ print NR }", &["a", "b", "c"]), vec!["1", "2", "3"]);
}

#[test]
fn begin_and_end_order() {
    assert_eq!(
        run_ok(
            "BEGIN { print \"start\" } { print $0 } END { print \"stop\" }",
            &["mid"]
        ),
        vec!["start", "mid", "stop"]
    );
}

#[test]
fn concatenation_by_juxtaposition() {
    assert_eq!(run_ok("{ print $1 $2 }", &["ab cd"]), vec!["abcd"]);
    assert_eq!(run_ok("{ print $1 \"-\" $2 }", &["ab cd"]), vec!["ab-cd"]);
}

#[test]
fn missing_field_is_empty_text() {
    assert_eq!(run_ok("{ print $5 \"x\" }", &["a b"]), vec!["x"]);
    assert_eq!(run_ok("{ print $0 }", &["  a  b "]), vec!["  a  b "]);
}

#[test]
fn while_loop() {
    assert_eq!(
        run_ok("{ var i = 0 while (i < 3) { i += 1 } print i }", &["go"]),
        vec!["3"]
    );
}

#[test]
fn for_loop() {
    assert_eq!(
        run_ok(
            "{ for (var j = 0; j < 4; j += 1) { s += j } print s }",
            &["go"]
        ),
        vec!["6"]
    );
}

#[test]
fn if_else() {
    let prog = "{ if ($1 < $2) print \"lt\" else print \"ge\" }";
    assert_eq!(run_ok(prog, &["1 2", "5 4"]), vec!["lt", "ge"]);
}

#[test]
fn numeric_display_rounds_to_four_places() {
    assert_eq!(run_ok("{ print 1 / 3 }", &["x"]), vec!["0.3333"]);
    assert_eq!(run_ok("{ print 10 / 4 }", &["x"]), vec!["2.5"]);
    assert_eq!(run_ok("{ print 7 % 3 }", &["x"]), vec!["1"]);
}

#[test]
fn division_by_zero_saturates() {
    assert_eq!(run_ok("{ print 1 / 0 }", &["x"]), vec!["922337203685477.5807"]);
    assert_eq!(run_ok("{ print 0 / 0 }", &["x"]), vec!["0"]);
}

#[test]
fn undefined_function_is_fatal() {
    assert_eq!(
        run_err("{ print nosuch(1) }", &["x"]),
        RunError::Runtime(RuntimeError::UndefinedFunction)
    );
}

#[test]
fn too_many_arguments_is_fatal() {
    assert_eq!(
        run_err("f(a){ return a } { print f(1,2) }", &["x"]),
        RunError::Runtime(RuntimeError::TooManyArguments)
    );
}

#[test]
fn extra_parameters_default_to_empty() {
    assert_eq!(
        run_ok("f(a,b){ return a b \"z\" } { print f(1) }", &["x"]),
        vec!["1z"]
    );
}

#[test]
fn begin_without_action_is_fatal() {
    assert_eq!(
        run_err("BEGIN", &[]),
        RunError::Runtime(RuntimeError::MissingBeginAction)
    );
}

#[test]
fn end_without_action_is_fatal() {
    assert_eq!(
        run_err("END", &[]),
        RunError::Runtime(RuntimeError::MissingEndAction)
    );
}

#[test]
fn return_outside_function_is_fatal() {
    assert_eq!(
        run_err("{ return 1 }", &["x"]),
        RunError::Runtime(RuntimeError::ReturnOutsideFunction)
    );
}

#[test]
fn duplicate_local_is_fatal() {
    assert_eq!(
        run_err("{ var x var x }", &["go"]),
        RunError::Runtime(RuntimeError::DuplicateLocal)
    );
}

#[test]
fn syntax_error_reports_offset() {
    match run_err("{ print ( }", &[]) {
        RunError::Syntax(se) => assert_eq!(se.pos, 10),
        other => panic!("expected a syntax error, got {:?}", other),
    }
}

#[test]
fn fatal_error_keeps_earlier_output() {
    let mut interp = Interpreter::new();
    let records = vec!["a".to_string(), "b".to_string()];
    let r = interp.run("{ print $0 } $1 == \"b\" { print nosuch() }", &records);
    assert_eq!(r, Err(RunError::Runtime(RuntimeError::UndefinedFunction)));
    assert_eq!(interp.out, vec!["a", "b"]);
}

#[test]
fn last_function_definition_wins() {
    assert_eq!(
        run_ok("f(a){ return 1 } f(a){ return 2 } { print f(0) }", &["x"]),
        vec!["2"]
    );
}

#[test]
fn assignment_expression_yields_value() {
    assert_eq!(run_ok("{ print x = 5 print x }", &["go"]), vec!["5", "5"]);
}

#[test]
fn nested_block_scopes() {
    assert_eq!(
        run_ok("{ var x = 1 { var x = 2 print x } print x }", &["go"]),
        vec!["2", "1"]
    );
}

#[test]
fn string_comparison_is_lexicographic() {
    assert_eq!(
        run_ok("{ if ($1 < $2) print \"lt\" else print \"ge\" }", &["apple banana"]),
        vec!["lt"]
    );
    assert_eq!(
        run_ok("{ if ($1 == $1) print \"eq\" }", &["same x"]),
        vec!["eq"]
    );
}
