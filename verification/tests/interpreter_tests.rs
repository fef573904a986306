use aspirina::interpreter::Interpreter;
use aspirina::parser::{Expr, Parser, Statement};

fn show(expr: &Expr) -> String {
    match expr {
        Expr::Number(n) => format!("{}", n),
        Expr::Variable(name) => name.clone(),
        Expr::Add(l, r) => format!("({} + {})", show(l), show(r)),
        Expr::Sub(l, r) => format!("({} - {})", show(l), show(r)),
        Expr::And(l, r) => format!("({} & {})", show(l), show(r)),
        Expr::Or(l, r) => format!("({} | {})", show(l), show(r)),
        Expr::Xor(l, r) => format!("({} ^ {})", show(l), show(r)),
    }
}

fn show_statement(statement: &Statement) -> String {
    match statement {
        Statement::Let(name, expr) => format!("let {} = {}", name, show(expr)),
        Statement::Assign(name, expr) => format!("{} = {}", name, show(expr)),
        Statement::Print(expr) => format!("print {}", show(expr)),
    }
}

fn parsed(line: &str) -> String {
    match Parser::parse_statement(line) {
        Ok(statement) => show_statement(&statement),
        Err(message) => format!("error: {}", message),
    }
}

fn run(lines: &[&str]) -> (Interpreter, Result<(), String>) {
    let mut statements = Vec::new();
    for line in lines {
        statements.push(Parser::parse_statement(line).unwrap());
    }
    let mut interpreter = Interpreter::new();
    let result = interpreter.execute(statements);
    (interpreter, result)
}

#[test]
fn bitwise_and_program_prints_four() {
    let (interpreter, result) = run(&["let a = 12", "let b = 5", "let r = a & b", "print(r)"]);
    assert_eq!(result, Ok(()));
    assert_eq!(interpreter.variable("r"), Some(4));
    assert_eq!(interpreter.output(), &vec![4]);
}

#[test]
fn addition_program_prints_eight() {
    let (interpreter, result) =
        run(&["let a = 5", "let b = 3", "let result = a + b", "print(result)"]);
    assert_eq!(result, Ok(()));
    assert_eq!(interpreter.output(), &vec![8]);
}

#[test]
fn logic_program_prints_each_result() {
    let (interpreter, result) = run(&[
        "let x = 12",
        "let y = 5",
        "let and_result = x & y",
        "let or_result = x | y",
        "let xor_result = x ^ y",
        "print(and_result)",
        "print(or_result)",
        "print(xor_result)",
    ]);
    assert_eq!(result, Ok(()));
    assert_eq!(interpreter.output(), &vec![4, 13, 9]);
}

#[test]
fn chained_expression_groups_from_the_left() {
    let (interpreter, result) =
        run(&["let a = 8", "let b = 3", "let c = 2", "let result = a - b + c", "print(result)"]);
    assert_eq!(result, Ok(()));
    assert_eq!(interpreter.output(), &vec![7]);
}

#[test]
fn result_is_what_the_machine_leaves_in_memory() {
    // With 8 as second operand the program overwrites its own HALT with the
    // opcode of JUMP, and the cell for the result is written once more
    // before the twenty cycles are spent.
    let (interpreter, result) = run(&["let r = 5 + 8", "let s = 1 - 2", "let t = 5 + 2"]);
    assert_eq!(result, Ok(()));
    assert_eq!(interpreter.variable("r"), Some(5));
    assert_eq!(interpreter.variable("s"), Some(13));
    assert_eq!(interpreter.variable("t"), Some(7));
}

#[test]
fn parses_let_assign_and_print() {
    assert_eq!(parsed("let x = 5"), "let x = 5");
    assert_eq!(parsed("  let total = a + 3  "), "let total = (a + 3)");
    assert_eq!(parsed("x = y"), "x = y");
    assert_eq!(parsed("print(x)"), "print x");
    assert_eq!(parsed("print(a ^ 7)"), "print (a ^ 7)");
    assert_eq!(parsed("let x = +5"), "let x = 5");
}

#[test]
fn expressions_split_at_the_last_loose_operator() {
    assert_eq!(parsed("print(a - b + c)"), "print ((a - b) + c)");
    assert_eq!(parsed("print(a + b - c)"), "print ((a + b) - c)");
    assert_eq!(parsed("print(a - b - c - d)"), "print (((a - b) - c) - d)");
    assert_eq!(parsed("print(a & b | c ^ d)"), "print (((a & b) | c) ^ d)");
    assert_eq!(parsed("print(a + b & c)"), "print (a + (b & c))");
    assert_eq!(parsed("print(a & b + c | d)"), "print ((a & b) + (c | d))");
    assert_eq!(parsed("print(1 + 2)"), "print (1 + 2)");
}

#[test]
fn operators_need_a_space_on_both_sides() {
    assert_eq!(parsed("print(a+b)"), "error: Invalid expression: a+b");
    assert_eq!(parsed("let x = 5 +"), "error: Invalid expression: 5 +");
    assert_eq!(parsed("let x = a  +  b"), "let x = (a + b)");
}

#[test]
fn leaves_are_numbers_or_identifiers() {
    assert_eq!(parsed("let x = 255"), "let x = 255");
    assert_eq!(parsed("let x = 256"), "let x = 256");
    assert!(matches!(
        Parser::parse_statement("let x = 256"),
        Ok(Statement::Let(_, Expr::Variable(_)))
    ));
    assert!(matches!(
        Parser::parse_statement("let x = 255"),
        Ok(Statement::Let(_, Expr::Number(255)))
    ));
    assert_eq!(parsed("let x = my_var2"), "let x = my_var2");
    assert_eq!(parsed("let x = na\u{00EF}ve\u{0663}"), "let x = na\u{00EF}ve\u{0663}");
    assert_eq!(parsed("let x = a\u{2212}b"), "error: Invalid expression: a\u{2212}b");
    assert_eq!(parsed("let x = a.b"), "error: Invalid expression: a.b");
    assert!(matches!(Parser::parse_expression(""), Ok(Expr::Variable(_))));
    assert!(matches!(Parser::leaf_expression(&['7'], false), Ok(Expr::Number(7))));
    assert!(matches!(Parser::leaf_expression(&['q'], true), Ok(Expr::Variable(_))));
    assert_eq!(
        Parser::leaf_expression(&['q'], false).unwrap_err(),
        "Invalid expression: q".to_string()
    );
}

#[test]
fn rejects_what_is_no_statement() {
    assert_eq!(parsed("hello"), "error: Unknown statement: hello");
    assert_eq!(parsed("  x=5 "), "error: Unknown statement: x=5");
    assert_eq!(parsed("print(x"), "error: Unknown statement: print(x");
    assert_eq!(parsed(""), "error: Unknown statement: ");
    assert_eq!(parsed("let x"), "error: Invalid let statement. Use: let x = expression");
    assert_eq!(
        Parser::parse_assign("x").unwrap_err(),
        "Invalid assignment. Use: variable = expression".to_string()
    );
}

#[test]
fn parses_the_parts_of_a_statement_on_their_own() {
    assert_eq!(show_statement(&Parser::parse_let("let a = 1 | 2").unwrap()), "let a = (1 | 2)");
    assert_eq!(show_statement(&Parser::parse_assign("a = b - 1").unwrap()), "a = (b - 1)");
    assert_eq!(show_statement(&Parser::parse_print("print(9)").unwrap()), "print 9");
    assert_eq!(show(&Parser::parse_expression(" a ^ b ").unwrap()), "(a ^ b)");
}

#[test]
fn assignment_needs_a_declaration() {
    let (interpreter, result) = run(&["let a = 1", "b = 2", "let c = 3"]);
    assert_eq!(result, Err("Variable 'b' not declared".to_string()));
    assert_eq!(interpreter.variable("a"), Some(1));
    assert_eq!(interpreter.variable("b"), None);
    assert_eq!(interpreter.variable("c"), None);

    let (interpreter, result) = run(&["let a = 1", "a = 2", "print(a)"]);
    assert_eq!(result, Ok(()));
    assert_eq!(interpreter.variable("a"), Some(2));
    assert_eq!(interpreter.output(), &vec![2]);
}

#[test]
fn reading_an_unknown_variable_fails() {
    let (interpreter, result) = run(&["print(1)", "print(y)", "print(2)"]);
    assert_eq!(result, Err("Variable 'y' not found".to_string()));
    assert_eq!(interpreter.output(), &vec![1]);
}

#[test]
fn numbers_above_fifteen_fail() {
    let (_, result) = run(&["let x = 16"]);
    assert_eq!(result, Err("Number 16 exceeds 4-bit range (0-15)".to_string()));
    let (_, result) = run(&["let x = 15 + 200"]);
    assert_eq!(result, Err("Number 200 exceeds 4-bit range (0-15)".to_string()));
    let (interpreter, result) = run(&["let x = 15"]);
    assert_eq!(result, Ok(()));
    assert_eq!(interpreter.variable("x"), Some(15));
}

#[test]
fn each_program_starts_afresh() {
    let mut interpreter = Interpreter::new();
    let first = vec![
        Parser::parse_statement("let a = 3").unwrap(),
        Parser::parse_statement("print(a)").unwrap(),
    ];
    assert_eq!(interpreter.execute(first), Ok(()));
    assert_eq!(interpreter.output(), &vec![3]);
    let second = vec![Parser::parse_statement("print(a)").unwrap()];
    assert_eq!(interpreter.execute(second), Err("Variable 'a' not found".to_string()));
    assert!(interpreter.output().is_empty());
    assert_eq!(interpreter.variable("a"), None);
}
