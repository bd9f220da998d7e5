use chawk::{parse, uncomment, Expression, Fixed, Pattern, Statement, Value};

#[test]
fn test_uncomment() {
    let text = r#"
        # This will print the same output for each line
        { print "This line will be repeated!" }
        { print $1 } # This comment is at the end
        "#;

    // The "first" line of this string has a bunch of whitespace rather than a comment
    // The "third" line of this string has whitespace at the end rather than a comment
    let text_with_spaces = format!(
        "\n{}\n        {{ print \"This line will be repeated!\" }}\n        {{ print $1 }}{}\n        ",
        " ".repeat(55),
        " ".repeat(29)
    );

    assert_eq!(uncomment(text), text_with_spaces);
}

#[test]
fn parse_default_action() {
    // Empty braces leave the rule without an action, so the default
    // print action applies to it.
    let prog = parse("{ }").unwrap();
    assert_eq!(prog.pattern_blocks.len(), 1);
    assert!(prog.pattern_blocks[0].pattern.is_none());
    assert!(prog.pattern_blocks[0].block.is_none());

    let prog2 = parse("{ print $1 }").unwrap();
    assert!(prog2.pattern_blocks[0].block.is_some());
}

#[test]
fn parse_field_arithmetic() {
    let prog = parse("{ print $1 + $2 }").unwrap();
    let block = prog.pattern_blocks[0].block.as_ref().unwrap();
    match &block.statements[0] {
        Statement::PrintStatement(ps) => match &ps.expression {
            Expression::Plus(a, b) => {
                assert_eq!(**a, Expression::ColumnNumber(1));
                assert_eq!(**b, Expression::ColumnNumber(2));
            }
            other => panic!("wrong expression: {:?}", other),
        },
        other => panic!("wrong statement: {:?}", other),
    }
}

#[test]
fn parse_pattern_filter() {
    let prog = parse("$1 == \"x\" { print $2 }").unwrap();
    match prog.pattern_blocks[0].pattern.as_ref().unwrap() {
        Pattern::Expression(Expression::Equals(a, b)) => {
            assert_eq!(**a, Expression::ColumnNumber(1));
            assert_eq!(
                **b,
                Expression::Str {
                    value: "x".to_string()
                }
            );
        }
        other => panic!("wrong pattern: {:?}", other),
    }
}

#[test]
fn parse_function_def() {
    let prog = parse("add(a,b){ return a+b } { print add(2,3) }").unwrap();
    assert_eq!(prog.function_defs.len(), 1);
    assert_eq!(prog.function_defs[0].name.0, "add");
    assert_eq!(prog.function_defs[0].parameters.len(), 2);
    assert_eq!(prog.pattern_blocks.len(), 1);
}

#[test]
fn parse_regex_pattern() {
    let prog = parse("$1 ~ /^[0-9]+$/ { print \"numeric\" }").unwrap();
    match prog.pattern_blocks[0].pattern.as_ref().unwrap() {
        Pattern::Expression(Expression::RegexMatch(_, rhs)) => match &**rhs {
            Expression::Regex { source } => assert_eq!(source, "^[0-9]+$"),
            other => panic!("wrong rhs: {:?}", other),
        },
        other => panic!("wrong pattern: {:?}", other),
    }
}

#[test]
fn parse_rejects_garbage() {
    assert!(parse("{ print ( }").is_err());
    assert!(parse("!").is_err());
}

#[test]
fn fixed_arithmetic() {
    let three = Fixed { units: 30000 };
    let four = Fixed { units: 40000 };
    assert_eq!(three.plus(four).units, 70000);
    assert_eq!(three.minus(four).units, -10000);
    assert_eq!(three.times(four).units, 120000);
    assert_eq!(four.divided_by(Fixed { units: 20000 }).units, 20000);
    assert_eq!(three.rem(Fixed { units: 20000 }).units, 10000);
}

#[test]
fn value_coercions() {
    let v = Value::Str("3.5".to_string());
    assert_eq!(v.to_num().units, 35000);
    assert_eq!(Value::Num(Fixed { units: 70000 }).to_text(), "7");
    assert_eq!(Value::Num(Fixed { units: 35000 }).to_text(), "3.5");
    assert_eq!(Value::Num(Fixed { units: -1 }).to_text(), "-0.0001");
    assert!(Value::Str("x".to_string()).to_bool());
    assert!(!Value::Str(String::new()).to_bool());
    assert!(!Value::Num(Fixed { units: 0 }).to_bool());
}

#[test]
fn coercion_round_trip() {
    for units in [0i64, 1, -1, 70000, 35000, -123456789, 99999] {
        let v = Value::Num(Fixed { units });
        let text = Value::Str(v.to_text());
        assert_eq!(text.to_num().units, units);
    }
}

#[test]
fn split_fields_round_trip() {
    let chars: Vec<char> = "  a  bb\tccc ".chars().collect();
    let fields = chawk::fields::split_record(&chars);
    assert_eq!(fields, vec!["a".to_string(), "bb".to_string(), "ccc".to_string()]);
    let joined = fields.join(" ");
    let again = chawk::fields::split_record(&joined.chars().collect());
    assert_eq!(fields, again);
}

#[test]
fn parse_output_file_blocks() {
    let src = "{{ data.txt }}\nhello\nworld\n{{ other.txt }}\nbye\n";
    let blocks = chawk::parse_output_file(src).unwrap();
    assert_eq!(blocks.len(), 2);
    assert_eq!(blocks[0].data_file_name, "data.txt");
    assert_eq!(blocks[0].output, "hello\nworld\n");
    assert_eq!(blocks[1].data_file_name, "other.txt");
    assert_eq!(blocks[1].output, "bye\n");
}

#[test]
fn parse_output_file_needs_header() {
    assert!(chawk::parse_output_file("stray line\n").is_none());
}
