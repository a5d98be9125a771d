use monkey::environment::Environment;
use monkey::evaluator::eval;
use monkey::lexer::Lexer;
use monkey::object::{Integer, Null, Object, ObjectType};
use monkey::parser::Parser;
use monkey::token::TokenType;

fn run(input: &str) -> Object {
    let l = Lexer::new(input.to_string());
    let mut p = Parser::new(l);
    let program = p.parse_program();
    assert_eq!(p.errors().len(), 0, "unexpected parse errors for {}: {:?}", input, p.errors());
    eval(&program.statements, &mut Environment::new())
}

fn parse_errors(input: &str) -> Vec<String> {
    let l = Lexer::new(input.to_string());
    let mut p = Parser::new(l);
    let _ = p.parse_program();
    p.errors().clone()
}

fn int_of(o: Object) -> i64 {
    let shown = o.inspect();
    match o.downcast::<Integer>() {
        Some(i) => i.value,
        None => panic!("not an integer: {}", shown),
    }
}

fn error_of(o: Object) -> String {
    assert_eq!(o.object_type(), ObjectType::Error, "not an error: {}", o.inspect());
    o.inspect()
}

#[test]
fn integer_literals_evaluate_to_themselves() {
    assert_eq!(int_of(run("0")), 0);
    assert_eq!(int_of(run("42;")), 42);
    assert_eq!(int_of(run("9223372036854775807")), i64::MAX);
}

#[test]
fn integer_literal_out_of_range_is_a_parse_error() {
    let errors = parse_errors("9223372036854775808");
    assert_eq!(errors, vec!["Could not parse 9223372036854775808 as integer".to_string()]);
}

#[test]
fn double_negation() {
    assert_eq!(run("!!true").inspect(), "true");
    assert_eq!(run("!!false").inspect(), "false");
    assert_eq!(run("!!0").inspect(), "true");
    assert_eq!(run("!fn(x) { x }").inspect(), "false");
    assert_eq!(run("!if (false) { 1 }").inspect(), "true");
}

#[test]
fn arithmetic_precedence_values() {
    assert_eq!(int_of(run("2 * (5 + 10)")), 30);
    assert_eq!(int_of(run("-50 + 100 + -50")), 0);
    assert_eq!(int_of(run("7 / 2")), 3);
    assert_eq!(int_of(run("-7 / 2")), -3);
    assert_eq!(int_of(run("7 / -2")), -3);
}

#[test]
fn error_short_circuits_later_statements() {
    assert_eq!(error_of(run("5 + true;")), "type mismatch: Integer + Boolean");
    assert_eq!(error_of(run("5 + true; 5;")), "type mismatch: Integer + Boolean");
    assert_eq!(error_of(run("let a = 5 + true; a")), "type mismatch: Integer + Boolean");
}

#[test]
fn return_unwinds_nested_blocks() {
    assert_eq!(int_of(run("if (10 > 1) { if (10 > 1) { return 10; } return 1; }")), 10);
    assert_eq!(int_of(run("let f = fn() { if (true) { return 3; } 4 }; f() + 1")), 4);
}

#[test]
fn closures_keep_their_defining_scope() {
    let prelude = "let newAdder = fn(x) { fn(y) { x + y } }; let addTwo = newAdder(2); ";
    assert_eq!(int_of(run(&format!("{}addTwo(3)", prelude))), 5);
    assert_eq!(int_of(run(&format!("{}addTwo(3); addTwo(10)", prelude))), 12);
    assert_eq!(error_of(run(&format!("{}addTwo(3); x", prelude))), "identifier not found: x");
    assert_eq!(int_of(run(&format!("{}let x = 100; addTwo(1)", prelude))), 3);
}

#[test]
fn closures_share_scope_so_recursion_works() {
    let src = "let sum = fn(n) { if (n < 1) { 0 } else { n + sum(n - 1) } }; sum(10)";
    assert_eq!(int_of(run(src)), 55);
}

#[test]
fn read_char_moves_past_the_end() {
    let mut l = Lexer::new(String::new());
    assert_eq!((l.position, l.read_position, l.ch), (0, 1, '\0'));
    l.read_char();
    assert_eq!((l.position, l.read_position, l.ch), (1, 2, '\0'));
    let mut l = Lexer::new("ab".to_string());
    l.read_char();
    assert_eq!((l.position, l.read_position, l.ch), (1, 2, 'b'));
    l.read_char();
    l.read_char();
    assert_eq!((l.position, l.read_position, l.ch), (3, 4, '\0'));
    assert_eq!(l.next_token().token_type, TokenType::EOF);
}

#[test]
fn unbound_identifier() {
    assert_eq!(error_of(run("foobar")), "identifier not found: foobar");
}

#[test]
fn arity_is_not_checked() {
    assert_eq!(int_of(run("let f = fn(x, y) { x }; f(1)")), 1);
    assert_eq!(error_of(run("let f = fn(x, y) { y }; f(1)")), "identifier not found: y");
    assert_eq!(int_of(run("fn(x) { x }(1, 2)")), 1);
}

#[test]
fn runtime_error_messages() {
    assert_eq!(error_of(run("5(1)")), "not a function: Integer");
    assert_eq!(error_of(run("10 / 0")), "division by zero: 10 / 0");
    assert_eq!(error_of(run("9223372036854775807 + 1")), "integer overflow: 9223372036854775807 + 1");
    assert_eq!(
        error_of(run("-9223372036854775807 - 2")),
        "integer overflow: -9223372036854775807 - 2"
    );
    assert_eq!(error_of(run("-true")), "unknown operator: -Boolean");
    assert_eq!(error_of(run("true < false")), "unknown operator: Boolean < Boolean");
    assert_eq!(error_of(run("fn(x) { x } + fn(x) { x }")), "unknown operator: Function + Function");
    assert_eq!(error_of(run("1 == true")), "type mismatch: Integer == Boolean");
}

#[test]
fn null_compares_equal_to_null() {
    assert_eq!(run("if (false) { 1 } == if (false) { 2 }").inspect(), "true");
    let r = run("if (false) { 1 }");
    assert!(r.downcast::<Null>().is_some());
}

#[test]
fn inspect_renders_values() {
    assert_eq!(run("fn(x) { x + 2; };").inspect(), "fn (x) {\n(x + 2)\n}");
    assert_eq!(run("if (false) { 1 }").inspect(), "null");
    assert_eq!(run("-123").inspect(), "-123");
    assert_eq!(run("true").inspect(), "true");
}

#[test]
fn parser_round_trip_of_infix_chain() {
    let l = Lexer::new("a + b * c + d / e - f".to_string());
    let mut p = Parser::new(l);
    let program = p.parse_program();
    assert_eq!(program.string(), "(((a + (b * c)) + (d / e)) - f)");
}

#[test]
fn parse_errors_are_collected() {
    assert_eq!(
        parse_errors("let = 5;"),
        vec![
            "Expected next token to be IDENT, got ASSIGN instead".to_string(),
            "no prefix parse function for ASSIGN".to_string(),
        ]
    );
    assert_eq!(parse_errors("@"), vec!["no prefix parse function for ILLEGAL".to_string()]);
    assert_eq!(parse_errors("(1 + 2"), vec!["Expected next token to be RPAREN, got EOF instead".to_string()]);
    assert_eq!(
        parse_errors("let x = 1; let y 2; let z = 3;"),
        vec!["Expected next token to be ASSIGN, got INT instead".to_string()]
    );
}

#[test]
fn lexer_reads_two_character_operators_and_illegal_characters() {
    let mut l = Lexer::new("a != b == c @ 12_x".to_string());
    let expected = vec![
        (TokenType::IDENT, "a"),
        (TokenType::NOTEQ, "!="),
        (TokenType::IDENT, "b"),
        (TokenType::EQ, "=="),
        (TokenType::IDENT, "c"),
        (TokenType::ILLEGAL, "@"),
        (TokenType::INT, "12"),
        (TokenType::IDENT, "_x"),
        (TokenType::EOF, "\0"),
        (TokenType::EOF, "\0"),
    ];
    for (kind, lit) in expected {
        let t = l.next_token();
        assert_eq!(t.token_type, kind);
        assert_eq!(t.literal, lit);
    }
}

#[test]
fn environment_scopes() {
    let mut env = Environment::new();
    env.set("a".to_string(), run("1"));
    let mut inner = Environment::new_enclosed(env);
    assert_eq!(inner.get("a").map(|o| o.inspect()), Some("1".to_string()));
    inner.set("a".to_string(), run("2"));
    inner.set("b".to_string(), run("3"));
    assert_eq!(inner.get("a").map(|o| o.inspect()), Some("2".to_string()));
    assert!(inner.get("c").is_none());
    let outer_scope = inner.outer[inner.current].unwrap();
    inner.restore_scope(outer_scope);
    assert_eq!(inner.get("a").map(|o| o.inspect()), Some("1".to_string()));
    assert!(inner.get("b").is_none());
}

#[test]
fn bindings_survive_between_programs() {
    let mut env = Environment::new();
    for (src, want) in [("let a = 2;", "2"), ("let b = a * 3;", "6"), ("a + b", "8")] {
        let mut p = Parser::new(Lexer::new(src.to_string()));
        let program = p.parse_program();
        assert_eq!(eval(&program.statements, &mut env).inspect(), want);
    }
}

#[test]
fn functions_compare_as_values() {
    assert_eq!(run("fn(x) { x } == fn(x) { x }").inspect(), "true");
    assert_eq!(run("fn(x) { x } != fn(x) { x }").inspect(), "false");
    assert_eq!(run("fn(x) { x } == fn(y) { y }").inspect(), "false");
    assert_eq!(run("let f = fn(x) { x }; let g = f; f == g").inspect(), "true");
}

#[test]
fn return_signals_never_leave_a_program_or_a_call() {
    assert_eq!(int_of(run("return if (true) { return 1; };")), 1);
    assert_eq!(int_of(run("let f = fn() { return if (true) { return 1; }; }; f()")), 1);
    assert_eq!(int_of(run("1 + if (true) { return 2; }")), 2);
    assert_eq!(int_of(run("let f = fn() { let a = if (true) { return 3; }; 4 }; f()")), 3);
    assert_eq!(int_of(run("let f = fn(x) { x }; f(if (true) { return 5; })")), 5);
}

#[test]
fn deep_recursion_within_the_limit() {
    let src = "let sum = fn(n) { if (n < 1) { 0 } else { n + sum(n - 1) } }; sum(500)";
    assert_eq!(int_of(run(src)), 125250);
}
