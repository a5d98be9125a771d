use monkey::ast::{Expression, Program};
use monkey::lexer::Lexer;
use monkey::parser::Parser;
use monkey::token::TokenType;

fn init_program(input: String) -> Program {
    let l = Lexer::new(input);
    let mut p = Parser::new(l);
    p.parse_program()
}

fn test_literal_expression(expr: &Expression, expected: &str) {
    match expr {
        Expression::Identifier(_) => test_identifier(expr, expected),
        Expression::IntegerLiteral(_) => test_integer(expr, expected.parse::<i64>().unwrap()),
        Expression::BooleanExpression(_) => test_boolean(expr, expected.parse::<bool>().unwrap()),
        _ => panic!("Not a literal expression"),
    }
}

fn test_identifier(expr: &Expression, value: &str) {
    let ident = expr.get_identifer();
    assert_eq!(ident.value, value, "Identifier Value is wrong");
    assert_eq!(ident.token.token_type, TokenType::IDENT, "Identifier Token Type is wrong");
    assert_eq!(ident.token.literal, value, "Identifier Token Literal is wrong");
}

fn test_integer(expr: &Expression, value: i64) {
    let int = expr.get_integer_literal();
    assert_eq!(int.value, value, "Integer Value is wrong");
    assert_eq!(int.token.token_type, TokenType::INT, "Integer Token Type is wrong");
    assert_eq!(int.token.literal, value.to_string(), "Integer Token Literal is wrong");
}

fn test_boolean(expr: &Expression, value: bool) {
    let boolean = expr.get_boolean_expression();
    assert_eq!(boolean.value, value, "Boolean Value is wrong");
    assert_eq!(
        boolean.token.token_type,
        if value { TokenType::TRUE } else { TokenType::FALSE },
        "Boolean Token Type is wrong"
    );
    assert_eq!(boolean.token.literal, value.to_string(), "Boolean Token Literal is wrong");
}

#[test]
fn tests_test_let_statements() {
    let tests = vec![("let", "x", "5"), ("let", "y", "true"), ("let", "foobar", "y")];
    for tt in tests.iter() {
        let input = format!("{} {} = {};", tt.0, tt.1, tt.2);
        let program = init_program(input.clone());
        let stmts = program.statements;
        assert_eq!(stmts.len(), 1, "Test [{}] Statement length is wrong", input);
        let stmt = stmts.get(0).unwrap();
        assert_eq!(stmt.get_token().token_type, TokenType::LET, "Test [{}] Statement Token Type is wrong", input);
        assert_eq!(stmt.get_token().literal, tt.0, "Test [{}] Statement Token Literal is wrong", input);
    }
}

#[test]
fn tests_test_return_statements() {
    let tests = vec![("return", "5"), ("return", "true"), ("return", "foobar")];
    for tt in tests.iter() {
        let input = format!("{} {};", tt.0, tt.1);
        let program = init_program(input.clone());
        let stmts = program.statements;
        assert_eq!(stmts.len(), 1, "Test [{}] Statement length is wrong", input);
        let stmt = stmts.get(0).unwrap();
        assert_eq!(stmt.get_token().token_type, TokenType::RETURN, "Test [{}] Statement Token Type is wrong", input);
        assert_eq!(stmt.get_token().literal, tt.0, "Test [{}] Statement Token Literal is wrong", input);
    }
}

#[test]
fn tests_test_identifier_expression() {
    let program = init_program(String::from("foobar;"));
    let stmts = program.statements;
    assert_eq!(stmts.len(), 1);
    let stmt = stmts.get(0).unwrap();
    assert_eq!(stmt.get_token().token_type, TokenType::IDENT, "Statement Token Type is wrong");
    assert_eq!(stmt.get_token().literal, "foobar", "Statement Token Literal is wrong");
    let expr = &stmt.get_statement_expr().expression;
    assert_eq!(expr.get_identifer().value, "foobar", "Expression Identifier is wrong");
    assert_eq!(expr.string(), "foobar", "Expression String is wrong");
}

#[test]
fn tests_test_integer_literal_expression() {
    let program = init_program(String::from("5;"));
    let stmts = program.statements;
    assert_eq!(stmts.len(), 1, "Statement length is wrong");
    let stmt = stmts.get(0).unwrap();
    assert_eq!(stmt.get_token().token_type, TokenType::INT, "Statement Token Type is wrong");
    assert_eq!(stmt.get_token().literal, "5", "Statement Token Literal is wrong");
    let expr = &stmt.get_statement_expr().expression;
    assert_eq!(expr.get_integer_literal().value, 5, "Expression Integer Literal Value is wrong");
    assert_eq!(expr.string(), "5", "Expression String is wrong");
}

#[test]
fn tests_test_boolean_expresion() {
    let tests = vec![("true;", true, TokenType::TRUE), ("false;", false, TokenType::FALSE)];
    for tt in tests {
        let p = init_program(tt.0.to_string());
        let stmts = p.statements;
        assert_eq!(stmts.len(), 1, "Test [{}] Statement length is wrong", tt.0);
        let stmt = stmts.get(0).unwrap();
        let boolean = stmt.get_statement_expr().expression.get_boolean_expression();
        assert_eq!(boolean.value, tt.1, "Test [{}] Boolean Value is wrong", tt.0);
        assert_eq!(boolean.token.token_type, tt.2, "Test [{}] Boolean Token Type is wrong", tt.0);
        assert_eq!(boolean.token.literal, tt.1.to_string(), "Test [{}] Boolean Token Literal is wrong", tt.0);
    }
}

#[test]
fn tests_test_prefix_expression() {
    let tests = vec![
        ("!5;", "!", "5", TokenType::BANG),
        ("-15;", "-", "15", TokenType::MINUS),
        ("!foobar;", "!", "foobar", TokenType::BANG),
        ("-foobar;", "-", "foobar", TokenType::MINUS),
        ("!true;", "!", "true", TokenType::BANG),
        ("!false;", "!", "false", TokenType::BANG),
    ];
    for tt in tests {
        let input = tt.0;
        let program = init_program(input.to_string());
        let stmts = program.statements;
        assert_eq!(stmts.len(), 1, "Test [{}] Statement length is wrong", input);
        let stmt = stmts.get(0).unwrap();
        assert_eq!(stmt.get_token().token_type, tt.3, "Test [{}] Expression Statement Token Type is wrong", input);
        assert_eq!(stmt.get_token().literal, tt.1, "Test [{}] Expression Statement Literal is wrong", input);
        let prefix_expr = stmt.get_statement_expr().expression.get_prefix_expr();
        assert_eq!(prefix_expr.token.token_type, tt.3, "Test [{}] Prefix Expression Token Type is wrong", input);
        assert_eq!(prefix_expr.token.literal, tt.1, "Test [{}] Prefix Expression Token Literal is wrong", input);
        assert_eq!(prefix_expr.operator, tt.1, "Test [{}] Prefix Expression Operator is wrong", input);
        test_literal_expression(&prefix_expr.right, tt.2);
        assert_eq!(
            prefix_expr.string(),
            format!("({}{})", tt.1, tt.2),
            "Test [{}] Prefix Expression String is wrong",
            input
        );
    }
}

#[test]
fn tests_test_infix_expression() {
    let tests = vec![
        ("5 + 5;", "5", "+", "5", TokenType::INT),
        ("5 - 5;", "5", "-", "5", TokenType::INT),
        ("5 * 5;", "5", "*", "5", TokenType::INT),
        ("5 / 5;", "5", "/", "5", TokenType::INT),
        ("5 > 5;", "5", ">", "5", TokenType::INT),
        ("5 < 5;", "5", "<", "5", TokenType::INT),
        ("5 == 5;", "5", "==", "5", TokenType::INT),
        ("5 != 5;", "5", "!=", "5", TokenType::INT),
        ("true == true;", "true", "==", "true", TokenType::TRUE),
        ("true != false;", "true", "!=", "false", TokenType::TRUE),
        ("false == false;", "false", "==", "false", TokenType::FALSE),
    ];
    for tt in tests {
        let input = tt.0;
        let program = init_program(input.to_string());
        let stmts = program.statements;
        assert_eq!(stmts.len(), 1, "Test [{}] Statement length is wrong", input);
        let stmt = stmts.get(0).unwrap();
        assert_eq!(stmt.get_token().token_type, tt.4, "Test [{}] Expression Statement Token Type is wrong", input);
        assert_eq!(stmt.get_token().literal, tt.1, "Test [{}] Expression Statement Literal is wrong", input);
        let infix_expr = stmt.get_statement_expr().expression.get_infix_expr();
        test_literal_expression(&infix_expr.left, tt.1);
        test_literal_expression(&infix_expr.right, tt.3);
        assert_eq!(&infix_expr.operator, tt.2, "Operator is wrong");
    }
}

#[test]
fn tests_test_operator_precedence() {
    let tests = vec![
        ("-a * b;", "((-a) * b)"),
        ("!-a;", "(!(-a))"),
        ("a + b + c;", "((a + b) + c)"),
        ("a + b - c;", "((a + b) - c)"),
        ("a * b * c;", "((a * b) * c)"),
        ("a * b / c;", "((a * b) / c)"),
        ("a + b / c;", "(a + (b / c))"),
        ("a + b * c + d / e - f;", "(((a + (b * c)) + (d / e)) - f)"),
        ("3 + 4; -5 * 5;", "(3 + 4)((-5) * 5)"),
        ("5 > 4 == 3 < 4;", "((5 > 4) == (3 < 4))"),
        ("5 < 4 != 3 > 4;", "((5 < 4) != (3 > 4))"),
        ("3 + 4 * 5 == 3 * 1 + 4 * 5;", "((3 + (4 * 5)) == ((3 * 1) + (4 * 5)))"),
        ("true;", "true"),
        ("false;", "false"),
        ("3 < 5 == true;", "((3 < 5) == true)"),
        ("3 > 5 == false;", "((3 > 5) == false)"),
        ("1 + (2 + 3) + 4;", "((1 + (2 + 3)) + 4)"),
        ("(5 + 5) * 2;", "((5 + 5) * 2)"),
        ("2 / (5 + 5);", "(2 / (5 + 5))"),
        ("-(5 + 5);", "(-(5 + 5))"),
        ("!(true == true);", "(!(true == true))"),
    ];
    for tt in tests {
        let program = init_program(tt.0.to_string());
        assert_eq!(program.string(), tt.1, "Test [{}] Expression String is wrong", tt.0);
    }
}

#[test]
fn tests_test_if_expression() {
    let p = init_program("if (x < y) { x }".to_string());
    let stmts = p.statements;
    assert_eq!(stmts.len(), 1, "Statement length is wrong");
    let stmt = stmts.get(0).unwrap();
    let if_expr = stmt.get_statement_expr().expression.get_if_expr();
    assert_eq!(if_expr.token.literal, "if", "Token Literal is wrong");
    let cond = if_expr.condition.get_infix_expr();
    test_literal_expression(&cond.left, "x");
    test_literal_expression(&cond.right, "y");
    assert_eq!(if_expr.condition.string(), "(x < y)", "Condition String is wrong");
    assert_eq!(if_expr.consequence.string(), "x", "Consequence String is wrong");
}
