use monkey::ast::{BooleanExpression, Expression, Identifier, IntegerLiteral, Program};
use monkey::lexer::Lexer;
use monkey::parser::Parser;
use monkey::token::TokenType;

fn init_program(input: String) -> Program {
    let l = Lexer::new(input);
    let mut p = Parser::new(l);
    p.parse_program()
}

fn test_literal_expression(expr: &Expression, expected: &str) {
    match expr {
        Expression::Identifier(_) => test_identifier(expr.get_identifer(), expected),
        Expression::IntegerLiteral(_) => {
            test_integer(expr.get_integer_literal(), expected.parse::<i64>().unwrap())
        }
        Expression::BooleanExpression(_) => {
            test_boolean(expr.get_boolean_expression(), expected.parse::<bool>().unwrap())
        }
        _ => panic!("{:?} Isn't a literal expression", expr),
    }
}

fn test_identifier(ident: &Identifier, value: &str) {
    assert_eq!(ident.value, value, "Identifier Value is wrong");
    assert_eq!(ident.token.token_type, TokenType::IDENT, "Identifier Token Type is wrong");
    assert_eq!(ident.token.literal, value, "Identifier Token Literal is wrong");
}

fn test_integer(int: &IntegerLiteral, value: i64) {
    assert_eq!(int.value, value, "Integer Value is wrong");
    assert_eq!(int.token.token_type, TokenType::INT, "Integer Token Type is wrong");
    assert_eq!(int.token.literal, value.to_string(), "Integer Token Literal is wrong");
}

fn test_boolean(boolean: &BooleanExpression, value: bool) {
    assert_eq!(boolean.value, value, "Boolean Value is wrong");
    assert_eq!(
        boolean.token.token_type,
        if value { TokenType::TRUE } else { TokenType::FALSE },
        "Boolean Token Type is wrong"
    );
    assert_eq!(boolean.token.literal, value.to_string(), "Boolean Token Literal is wrong");
}

fn test_infix_expression_local(infix: &Expression, expected_left: &str, operator: &str, expected_right: &str) {
    let infix_expr = infix.get_infix_expr();
    test_literal_expression(&infix_expr.left, expected_left);
    test_literal_expression(&infix_expr.right, expected_right);
    assert_eq!(&infix_expr.operator, operator, "Operator is wrong");
}

#[test]
fn test_let_statements() {
    let tests = vec![("let x = 5;", "5"), ("let y = true;", "true"), ("let foobar = y;", "y")];
    for tt in tests.iter() {
        let program = init_program(tt.0.to_string());
        let stmts = program.statements;
        assert_eq!(stmts.len(), 1, "Test [{}] Statement length is wrong", tt.0);
        let stmt = stmts.get(0).unwrap();
        assert_eq!(stmt.get_token().token_type, TokenType::LET, "Test [{}] Statement Token Type is wrong", tt.0);
        assert_eq!(stmt.get_token().literal, "let", "Test [{}] Statement Token Literal is wrong", tt.0);
        let expr = &stmt.get_statement().get_let_stmt().value;
        test_literal_expression(expr, tt.1);
    }
}

#[test]
fn test_return_statements() {
    let tests = vec![("return 5;", "5"), ("return true;", "true"), ("return foobar;", "foobar")];
    for tt in tests.iter() {
        let program = init_program(tt.0.to_string());
        let stmts = program.statements;
        assert_eq!(stmts.len(), 1, "Test [{}] Statement length is wrong", tt.0);
        let stmt = stmts.get(0).unwrap();
        assert_eq!(stmt.get_token().token_type, TokenType::RETURN, "Test [{}] Statement Token Type is wrong", tt.0);
        let expr = &stmt.get_statement().get_return_stmt().return_value;
        test_literal_expression(expr, tt.1);
    }
}

#[test]
fn test_identifier_expression() {
    let program = init_program(String::from("foobar;"));
    let stmts = program.statements;
    assert_eq!(stmts.len(), 1);
    let stmt = stmts.get(0).unwrap();
    assert_eq!(stmt.get_token().token_type, TokenType::IDENT, "Statement Token Type is wrong");
    assert_eq!(stmt.get_token().literal, "foobar", "Statement Token Literal is wrong");
    let expr = &stmt.get_statement_expr().expression;
    assert_eq!(expr.get_identifer().value, "foobar", "Expression Identifier is wrong");
    assert_eq!(expr.string(), "foobar", "Expression String is wrong");
}

#[test]
fn test_integer_literal_expression() {
    let program = init_program(String::from("5;"));
    let stmts = program.statements;
    assert_eq!(stmts.len(), 1, "Statement length is wrong");
    let stmt = stmts.get(0).unwrap();
    assert_eq!(stmt.get_token().token_type, TokenType::INT, "Statement Token Type is wrong");
    assert_eq!(stmt.get_token().literal, "5", "Statement Token Literal is wrong");
    let expr = &stmt.get_statement_expr().expression;
    assert_eq!(expr.get_integer_literal().value, 5, "Expression Integer Literal Value is wrong");
    assert_eq!(expr.string(), "5", "Expression String is wrong");
}

#[test]
fn test_boolean_expresion() {
    let tests = vec![("true;", true, TokenType::TRUE), ("false;", false, TokenType::FALSE)];
    for tt in tests {
        let p = init_program(tt.0.to_string());
        let stmts = p.statements;
        assert_eq!(stmts.len(), 1, "Test [{}] Statement length is wrong", tt.0);
        let stmt = stmts.get(0).unwrap();
        let boolean = stmt.get_statement_expr().expression.get_boolean_expression();
        assert_eq!(boolean.value, tt.1, "Test [{}] Boolean Value is wrong", tt.0);
        assert_eq!(boolean.token.token_type, tt.2, "Test [{}] Boolean Token Type is wrong", tt.0);
        assert_eq!(boolean.token.literal, tt.1.to_string(), "Test [{}] Boolean Token Literal is wrong", tt.0);
    }
}

fn prefix_cases() -> Vec<(&'static str, &'static str, &'static str, TokenType, TokenType)> {
    vec![
        ("!5;", "!", "5", TokenType::BANG, TokenType::INT),
        ("-15;", "-", "15", TokenType::MINUS, TokenType::INT),
        ("!foobar;", "!", "foobar", TokenType::BANG, TokenType::IDENT),
        ("-foobar;", "-", "foobar", TokenType::MINUS, TokenType::IDENT),
        ("!true;", "!", "true", TokenType::BANG, TokenType::TRUE),
        ("!false;", "!", "false", TokenType::BANG, TokenType::FALSE),
    ]
}

#[test]
fn test_prefix_expression() {
    for tt in prefix_cases() {
        let input = tt.0;
        let program = init_program(input.to_string());
        let stmts = program.statements;
        assert_eq!(stmts.len(), 1, "Test [{}] Statement length is wrong", input);
        let stmt = stmts.get(0).unwrap();
        assert_eq!(stmt.get_token().token_type, tt.3, "Test [{}] Expression Statement Token Type is wrong", input);
        assert_eq!(stmt.get_token().literal, tt.1, "Test [{}] Expression Statement Literal is wrong", input);
        let prefix_expr = stmt.get_statement_expr().expression.get_prefix_expr();
        assert_eq!(prefix_expr.token.token_type, tt.3, "Test [{}] Prefix Expression Token Type is wrong", input);
        assert_eq!(prefix_expr.token.literal, tt.1, "Test [{}] Prefix Expression Token Literal is wrong", input);
        assert_eq!(prefix_expr.operator, tt.1, "Test [{}] Prefix Expression Operator is wrong", input);
        test_literal_expression(&prefix_expr.right, tt.2);
        assert_eq!(
            prefix_expr.string(),
            format!("({}{})", tt.1, tt.2),
            "Test [{}] Prefix Expression String is wrong",
            input
        );
    }
}

fn infix_cases() -> Vec<(&'static str, &'static str, &'static str, &'static str, TokenType, TokenType, TokenType)> {
    vec![
        ("5 + 5;", "5", "+", "5", TokenType::INT, TokenType::PLUS, TokenType::INT),
        ("5 - 5;", "5", "-", "5", TokenType::INT, TokenType::MINUS, TokenType::INT),
        ("5 * 5;", "5", "*", "5", TokenType::INT, TokenType::ASTERISK, TokenType::INT),
        ("5 / 5;", "5", "/", "5", TokenType::INT, TokenType::SLASH, TokenType::INT),
        ("5 > 5;", "5", ">", "5", TokenType::INT, TokenType::GT, TokenType::INT),
        ("5 < 5;", "5", "<", "5", TokenType::INT, TokenType::LT, TokenType::INT),
        ("5 == 5;", "5", "==", "5", TokenType::INT, TokenType::EQ, TokenType::INT),
        ("5 != 5;", "5", "!=", "5", TokenType::INT, TokenType::NOTEQ, TokenType::INT),
        ("true == true;", "true", "==", "true", TokenType::TRUE, TokenType::EQ, TokenType::TRUE),
        ("true != false;", "true", "!=", "false", TokenType::TRUE, TokenType::NOTEQ, TokenType::FALSE),
        ("false == false;", "false", "==", "false", TokenType::FALSE, TokenType::EQ, TokenType::FALSE),
    ]
}

#[test]
fn test_infix_expression() {
    for tt in infix_cases() {
        let input = tt.0;
        let program = init_program(input.to_string());
        let stmts = program.statements;
        assert_eq!(stmts.len(), 1, "Test [{}] Statement length is wrong", input);
        let stmt = stmts.get(0).unwrap();
        assert_eq!(stmt.get_token().token_type, tt.4, "Test [{}] Expression Statement Token Type is wrong", input);
        assert_eq!(stmt.get_token().literal, tt.1, "Test [{}] Expression Statement Literal is wrong", input);
        let infix_expr = stmt.get_statement_expr().expression.get_infix_expr();
        assert_eq!(infix_expr.token.token_type, tt.5);
        test_literal_expression(&infix_expr.left, tt.1);
        test_literal_expression(&infix_expr.right, tt.3);
        assert_eq!(&infix_expr.operator, tt.2, "Operator is wrong");
    }
}

fn precedence_cases() -> Vec<(&'static str, &'static str)> {
    vec![
        ("-a * b;", "((-a) * b)"),
        ("!-a;", "(!(-a))"),
        ("a + b + c;", "((a + b) + c)"),
        ("a + b - c;", "((a + b) - c)"),
        ("a * b * c;", "((a * b) * c)"),
        ("a * b / c;", "((a * b) / c)"),
        ("a + b / c;", "(a + (b / c))"),
        ("a + b * c + d / e - f;", "(((a + (b * c)) + (d / e)) - f)"),
        ("3 + 4; -5 * 5;", "(3 + 4)((-5) * 5)"),
        ("5 > 4 == 3 < 4;", "((5 > 4) == (3 < 4))"),
        ("5 < 4 != 3 > 4;", "((5 < 4) != (3 > 4))"),
        ("3 + 4 * 5 == 3 * 1 + 4 * 5;", "((3 + (4 * 5)) == ((3 * 1) + (4 * 5)))"),
        ("true;", "true"),
        ("false;", "false"),
        ("3 < 5 == true;", "((3 < 5) == true)"),
        ("3 > 5 == false;", "((3 > 5) == false)"),
        ("1 + (2 + 3) + 4;", "((1 + (2 + 3)) + 4)"),
        ("(5 + 5) * 2;", "((5 + 5) * 2)"),
        ("2 / (5 + 5);", "(2 / (5 + 5))"),
        ("-(5 + 5);", "(-(5 + 5))"),
        ("!(true == true);", "(!(true == true))"),
        ("a + add(b * c) + d;", "((a + add((b * c))) + d)"),
        ("add(a, b, 1, 2 * 3, 4 + 5);", "add(a, b, 1, (2 * 3), (4 + 5))"),
        ("add(a + b + c * d / f + g);", "add((((a + b) + ((c * d) / f)) + g))"),
    ]
}

#[test]
fn test_operator_precedence() {
    for tt in precedence_cases() {
        let program = init_program(tt.0.to_string());
        assert_eq!(program.string(), tt.1, "Test [{}] Expression String is wrong", tt.0);
    }
}

#[test]
fn test_if_expression() {
    let p = init_program("if (x < y) { x }".to_string());
    let stmts = p.statements;
    assert_eq!(stmts.len(), 1, "Statement length is wrong");
    let stmt = stmts.get(0).unwrap();
    let if_expr = stmt.get_statement_expr().expression.get_if_expr();
    assert_eq!(if_expr.token.literal, "if", "Token Literal is wrong");
    assert_eq!(if_expr.alternative.is_none(), true, "Alternative is wrong");
    assert_eq!(if_expr.string(), "if (x < y) { x }", "String is wrong");
}

#[test]
fn test_if_else_expression() {
    let p = init_program("if (x < y) { x } else { y }".to_string());
    let stmts = p.statements;
    assert_eq!(stmts.len(), 1, "Statement length is wrong");
    let stmt = stmts.get(0).unwrap();
    let if_else_expr = stmt.get_statement_expr().expression.get_if_expr();
    assert_eq!(if_else_expr.token.literal, "if", "Token Literal is wrong");
    assert_eq!(if_else_expr.alternative.is_some(), true, "Alternative is wrong");
    assert_eq!(if_else_expr.string(), "if (x < y) { x } else { y }", "String is wrong");
}

#[test]
fn test_function_literal_expression() {
    let p = init_program("fn(x, y) { x + y; }".to_string());
    let stmts = p.statements;
    assert_eq!(stmts.len(), 1, "Statement length is wrong");
    let func_expr = stmts.get(0).unwrap().get_statement_expr().expression.get_function_expr();
    assert_eq!(func_expr.parameters.len(), 2, "Function parameters length is wrong");
    assert_eq!(func_expr.body.statements.len(), 1, "Body statements length is wrong");
    assert_eq!(func_expr.string(), "fn ( x, y ) { (x + y) }", "Function String is wrong");
}

#[test]
fn test_function_literal_parameters() {
    let tests: Vec<(&str, Vec<&str>)> = vec![
        ("fn() {};", vec![]),
        ("fn(x) {};", vec!["x"]),
        ("fn(x, y, z) {};", vec!["x", "y", "z"]),
    ];
    for tt in tests {
        let p = init_program(tt.0.to_string());
        let function_expr = p.statements.get(0).unwrap().get_statement_expr().expression.get_function_expr();
        assert_eq!(function_expr.parameters.len(), tt.1.len(), "Parameters Length is wrong");
        for (j, param) in function_expr.parameters.iter().enumerate() {
            test_identifier(param, tt.1.get(j).unwrap())
        }
    }
}

#[test]
fn test_call_expression() {
    let p = init_program("add(1, 2 * 3, 4 + 5);".to_string());
    let stmts = p.statements;
    assert_eq!(stmts.len(), 1, "Statement length is wrong");
    let call_expr = stmts.get(0).unwrap().get_statement_expr().expression.get_call_expr();
    test_identifier(call_expr.function.get_identifer(), "add");
    assert_eq!(call_expr.arguments.len(), 3, "Arguments length is wrong");
    test_literal_expression(&call_expr.arguments[0], "1");
    test_infix_expression_local(&call_expr.arguments[1], "2", "*", "3");
    test_infix_expression_local(&call_expr.arguments[2], "4", "+", "5");
}

#[test]
fn test_call_expression_args() {
    let tests: Vec<(&str, &str, Vec<&str>)> = vec![
        ("add();", "add", vec![]),
        ("add(1);", "add", vec!["1"]),
        ("add(1, 2 * 3, 4 + 5);", "add", vec!["1", "(2 * 3)", "(4 + 5)"]),
    ];
    for (i, tt) in tests.iter().enumerate() {
        let p = init_program(tt.0.to_string());
        let call_expr = p.statements.get(0).unwrap().get_statement_expr().expression.get_call_expr();
        test_identifier(call_expr.function.get_identifer(), tt.1);
        assert_eq!(call_expr.arguments.len(), tt.2.len(), "Test [{}] Arguments length is wrong", i);
        for (j, arg) in call_expr.arguments.iter().enumerate() {
            assert_eq!(&arg.string(), tt.2.get(j).unwrap(), "Test [{}] Argument String is wrong", i);
        }
    }
}
