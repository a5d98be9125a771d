use monkey::environment::Environment;
use monkey::evaluator::eval;
use monkey::lexer::Lexer;
use monkey::object::{Boolean, Function, Integer, Null, Object, ObjectType};
use monkey::parser::Parser;

fn evaluate(input: String) -> Object {
    let l = Lexer::new(input);
    let mut p = Parser::new(l);
    let program = p.parse_program();
    eval(&program.statements, &mut Environment::new())
}

fn test_integer_object(object: Object, expected: i64) {
    let obj_type = object.object_type();
    let inspect = object.inspect();
    let obj: Integer = match object.downcast() {
        Some(x) => x,
        None => panic!("Could not downcast {:?} to Integer", obj_type),
    };
    assert_eq!(
        obj.value, expected,
        "Test [{}] - Integer Object has wrong value. Got {}, Expected {}",
        inspect, obj.value, expected
    );
}

fn test_boolean_object(object: Object, expected: bool) {
    let obj_type = object.object_type();
    let inspect = object.inspect();
    let obj: Boolean = match object.downcast() {
        Some(x) => x,
        None => panic!("Could not downcast {:?} to Boolean", obj_type),
    };
    assert_eq!(
        obj.value, expected,
        "Test [{}] - Boolean Object has wrong value. Got {}, Expected {}",
        inspect, obj.value, expected
    );
}

fn test_null_object(object: Object) {
    let obj_type = object.object_type();
    let _obj: Null = match object.downcast() {
        Some(x) => x,
        None => panic!("Could not downcast {:?} to Null", obj_type),
    };
}

#[test]
fn test_eval_integer_expression() {
    let tests: Vec<(&str, i64)> = vec![
        ("5", 5),
        ("10", 10),
        ("-5", -5),
        ("-10", -10),
        ("5 + 5 + 5 + 5 - 10", 10),
        ("2 * 2 * 2 * 2 * 2", 32),
        ("-50 + 100 + -50", 0),
        ("5 * 2 + 10", 20),
        ("5 + 2 * 10", 25),
        ("20 + 2 * -10", 0),
        ("50 / 2 * 2 + 10", 60),
        ("2 * (5 + 10)", 30),
        ("(5 + 10 * 2 + 15 / 3) * 2 + -10", 50),
    ];
    for (input, expected) in tests {
        test_integer_object(evaluate(input.to_string()), expected);
    }
}

#[test]
fn test_eval_boolean_expression() {
    let tests: Vec<(&str, bool)> = vec![
        ("true", true),
        ("false", false),
        ("1 < 2", true),
        ("1 > 2", false),
        ("1 < 1", false),
        ("1 > 1", false),
        ("1 == 1", true),
        ("1 != 1", false),
        ("1 == 2", false),
        ("1 != 2", true),
        ("true == true", true),
        ("false == false", true),
        ("true == false", false),
        ("true != false", true),
        ("false != true", true),
        ("(1 < 2) == true", true),
        ("(1 < 2) == false", false),
        ("(1 > 2) == true", false),
        ("(1 > 2) == false", true),
    ];
    for (input, expected) in tests {
        test_boolean_object(evaluate(input.to_string()), expected);
    }
}

#[test]
fn test_eval_bang_prefix() {
    let tests: Vec<(&str, bool)> = vec![
        ("!true", false),
        ("!false", true),
        ("!5", false),
        ("!!true", true),
        ("!!false", false),
        ("!!5", true),
    ];
    for (input, expected) in tests {
        test_boolean_object(evaluate(input.to_string()), expected);
    }
}

#[test]
fn test_eval_if_else_expression() {
    let tests: Vec<(&str, Option<i64>)> = vec![
        ("if (true) { 10 }", Some(10)),
        ("if (false) { 10 }", None),
        ("if (1) { 10 }", Some(10)),
        ("if (1 < 2) { 10 }", Some(10)),
        ("if (1 > 2) { 10 }", None),
        ("if (1 > 2) { 10 } else { 20 }", Some(20)),
        ("if (1 < 2) { 10 } else { 20 }", Some(10)),
    ];
    for (input, expected) in tests {
        let res = evaluate(input.to_string());
        match expected {
            Some(x) => test_integer_object(res, x),
            None => test_null_object(res),
        }
    }
}

#[test]
fn test_eval_return_statement() {
    let tests: Vec<(&str, i64)> = vec![
        ("return 10;", 10),
        ("return 10; 9;", 10),
        ("return 2 * 5; 9;", 10),
        ("9; return 2 * 5; 20;", 10),
        ("if (10 > 1) { if (10 > 1) { return 10; } return 1; }", 10),
    ];
    for (input, expected) in tests {
        test_integer_object(evaluate(input.to_string()), expected);
    }
}

#[test]
fn test_eval_let_statement() {
    let tests: Vec<(&str, i64)> = vec![
        ("let a = 5; a;", 5),
        ("let a = 5 * 5; a;", 25),
        ("let a = 5; let b = a; b;", 5),
        ("let a = 5; let b = a; let c = a + b + 5; c;", 15),
    ];
    for (input, expected) in tests {
        test_integer_object(evaluate(input.to_string()), expected);
    }
}

#[test]
fn test_eval_function_application() {
    let tests: Vec<(&str, i64)> = vec![
        ("let identity = fn(x) { x; }; identity(5);", 5),
        ("let identity = fn(x) { return x; }; identity(5);", 5),
        ("let double = fn(x) { x * 2; }; double(5);", 10),
        ("let add = fn(x, y) { x + y; }; add(5, 5);", 10),
        ("let add = fn(x, y) { x + y; }; add(5 + 5, add(5, 5));", 20),
        ("fn(x) { x; }(5);", 5),
    ];
    for (input, expected) in tests {
        test_integer_object(evaluate(input.to_string()), expected);
    }
}

#[test]
fn test_eval_function_object() {
    let res = evaluate("fn(x) { x + 2; };".to_string());
    assert_eq!(res.object_type(), ObjectType::Function, "Object is not a Function.");
    let fn_obj: Function = match res.downcast() {
        Some(x) => x,
        None => panic!("Could not downcast to Function"),
    };
    assert_eq!(fn_obj.parameters.len(), 1, "Function has wrong parameters.");
    assert_eq!(fn_obj.parameters.get(0).unwrap(), "x", "Parameter is not 'x'.");
}

#[test]
fn test_closures() {
    let input = "
    let newAdder = fn(x) {
        fn(y) { x + y };
    };
    let addTwo = newAdder(2);
    addTwo(3);
    "
    .to_string();
    test_integer_object(evaluate(input), 5);
}

#[test]
fn test_error_handling() {
    let tests: Vec<(&str, &str)> = vec![
        ("5 + true;", "type mismatch: Integer + Boolean"),
        ("5 + true; 5;", "type mismatch: Integer + Boolean"),
        ("-true", "unknown operator: -Boolean"),
        ("true + false;", "unknown operator: Boolean + Boolean"),
        ("5; true + false; 5", "unknown operator: Boolean + Boolean"),
        ("if (10 > 1) { true + false; }", "unknown operator: Boolean + Boolean"),
        (
            "if (10 > 1) { if (10 > 1) { return true + false; } return 1; }",
            "unknown operator: Boolean + Boolean",
        ),
        ("foobar", "identifier not found: foobar"),
    ];
    for (input, expected) in tests {
        let evaluated = evaluate(input.to_string());
        assert_eq!(evaluated.object_type(), ObjectType::Error, "No error object returned");
        assert_eq!(evaluated.inspect(), expected, "Wrong error message");
    }
}
