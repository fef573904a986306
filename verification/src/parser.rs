//! The parser of the expression language: one statement per line, with
//! expressions over numbers, variables and the five operators `+`, `-`, `&`,
//! `|` and `^`, each written between two spaces.

use vstd::prelude::*;
use crate::text::{
    byte_from_digits, chars_of, copy_range, find_pattern, holds_at, lemma_trim_is_shorter,
    occurs_at, parse_byte, position_of_pattern, push_all, push_str, starts_with, string_of, trim,
    trimmed,
};

verus! {

/// Whether a character is a letter or a digit, as `char::is_alphanumeric`
/// tells it: by the Unicode properties `Alphabetic` and the number
/// categories.
pub uninterp spec fn alphanumeric(c: char) -> bool;

/// `char::is_alphanumeric` tells whether the character is a letter or a
/// digit.
pub assume_specification[ char::is_alphanumeric ](c: char) -> (yes: bool)
    ensures
        yes == alphanumeric(c),
;

/// An expression.
pub enum ExprTree {
    Number(u8),
    Variable(Seq<char>),
    Add(Box<ExprTree>, Box<ExprTree>),
    Sub(Box<ExprTree>, Box<ExprTree>),
    And(Box<ExprTree>, Box<ExprTree>),
    Or(Box<ExprTree>, Box<ExprTree>),
    Xor(Box<ExprTree>, Box<ExprTree>),
}

/// An expression: a number, a variable, or an operator with its two
/// operands.
#[derive(Debug)]
pub enum Expr {
    Number(u8),
    Variable(String),
    Add(Box<Expr>, Box<Expr>),
    Sub(Box<Expr>, Box<Expr>),
    And(Box<Expr>, Box<Expr>),
    Or(Box<Expr>, Box<Expr>),
    Xor(Box<Expr>, Box<Expr>),
}

impl Expr {
    /// The expression as a tree of plain values.
    pub open spec fn tree(&self) -> ExprTree
        decreases self,
    {
        match self {
            Expr::Number(n) => ExprTree::Number(*n),
            Expr::Variable(name) => ExprTree::Variable(name@),
            Expr::Add(left, right) => ExprTree::Add(Box::new(left.tree()), Box::new(right.tree())),
            Expr::Sub(left, right) => ExprTree::Sub(Box::new(left.tree()), Box::new(right.tree())),
            Expr::And(left, right) => ExprTree::And(Box::new(left.tree()), Box::new(right.tree())),
            Expr::Or(left, right) => ExprTree::Or(Box::new(left.tree()), Box::new(right.tree())),
            Expr::Xor(left, right) => ExprTree::Xor(Box::new(left.tree()), Box::new(right.tree())),
        }
    }
}

impl View for Expr {
    type V = ExprTree;

    open spec fn view(&self) -> ExprTree {
        self.tree()
    }
}

/// A statement.
pub enum StatementTree {
    Let(Seq<char>, ExprTree),
    Assign(Seq<char>, ExprTree),
    Print(ExprTree),
}

/// A statement: the declaration of a variable, an assignment to one, or the
/// printing of a value.
#[derive(Debug)]
pub enum Statement {
    Let(String, Expr),
    Assign(String, Expr),
    Print(Expr),
}

impl View for Statement {
    type V = StatementTree;

    open spec fn view(&self) -> StatementTree {
        match self {
            Statement::Let(name, expr) => StatementTree::Let(name@, expr@),
            Statement::Assign(name, expr) => StatementTree::Assign(name@, expr@),
            Statement::Print(expr) => StatementTree::Print(expr@),
        }
    }
}

/// Whether `c` is one of the operators that bind loosely, `+` and `-`, or,
/// with `loose` false, one of those that bind tightly: `&`, `|` and `^`.
pub open spec fn is_operator(c: char, loose: bool) -> bool {
    if loose {
        c == '+' || c == '-'
    } else {
        c == '&' || c == '|' || c == '^'
    }
}

/// Whether `text` holds at `at` a space, an operator of the given kind and
/// another space.
pub open spec fn operator_at(text: Seq<char>, at: int, loose: bool) -> bool {
    &&& 0 <= at
    &&& at + 3 <= text.len()
    &&& text[at] == ' '
    &&& is_operator(text[at + 1], loose)
    &&& text[at + 2] == ' '
}

/// The last position before `end` where `text` holds an operator of the
/// given kind between two spaces, if there is one.
pub open spec fn last_operator(text: Seq<char>, loose: bool, end: int) -> Option<int>
    decreases end,
{
    if end <= 0 {
        None
    } else if operator_at(text, end - 1, loose) {
        Some(end - 1)
    } else {
        last_operator(text, loose, end - 1)
    }
}

/// The place where an expression splits: at its last loose operator, or, if
/// it has none, at its last tight one.
pub open spec fn split_point(text: Seq<char>) -> Option<int> {
    match last_operator(text, true, text.len() as int) {
        Some(at) => Some(at),
        None => last_operator(text, false, text.len() as int),
    }
}

/// The expression that joins `left` and `right` by `operator`.
pub open spec fn join(operator: char, left: ExprTree, right: ExprTree) -> ExprTree {
    if operator == '+' {
        ExprTree::Add(Box::new(left), Box::new(right))
    } else if operator == '-' {
        ExprTree::Sub(Box::new(left), Box::new(right))
    } else if operator == '&' {
        ExprTree::And(Box::new(left), Box::new(right))
    } else if operator == '|' {
        ExprTree::Or(Box::new(left), Box::new(right))
    } else {
        ExprTree::Xor(Box::new(left), Box::new(right))
    }
}

/// The message for a text that is no expression.
pub open spec fn invalid_expression(text: Seq<char>) -> Seq<char> {
    "Invalid expression: "@ + text
}

/// Whether `text` can name a variable: it is made of letters, digits and
/// underscores.
pub open spec fn is_identifier(text: Seq<char>) -> bool {
    forall|i: int| 0 <= i < text.len() ==> alphanumeric(#[trigger] text[i]) || text[i] == '_'
}

/// The expression that a text without operators stands for, given whether
/// it can name a variable: a number if it reads as a byte in decimal, else a
/// variable if it can name one.
pub open spec fn leaf(text: Seq<char>, identifier: bool) -> Result<ExprTree, Seq<char>> {
    match parse_byte(text, 10) {
        Some(n) => Ok(ExprTree::Number(n)),
        None => if identifier {
            Ok(ExprTree::Variable(text))
        } else {
            Err(invalid_expression(text))
        },
    }
}

/// A split point lies inside the text, with room for the operator.
pub proof fn lemma_last_operator_in_range(text: Seq<char>, loose: bool, end: int)
    ensures
        last_operator(text, loose, end) is Some ==> operator_at(
            text,
            last_operator(text, loose, end)->0,
            loose,
        ) && last_operator(text, loose, end)->0 < end,
    decreases end,
{
    if end > 0 && !operator_at(text, end - 1, loose) {
        lemma_last_operator_in_range(text, loose, end - 1);
    }
}

/// The expression that `input` stands for, or the message that rejects it.
///
/// White space at either end does not count. The text is split at its last
/// `+` or `-`, or, if it has neither, at its last `&`, `|` or `^`; an
/// operator is one only between two spaces. Both sides are read in the same
/// way. So the loose operators group from left to right, and so do the tight
/// ones, which bind more closely: `a - b + c` is `(a - b) + c`. A text
/// without operators is a number or a variable.
pub open spec fn parse_expr(input: Seq<char>) -> Result<ExprTree, Seq<char>>
    decreases input.len(),
{
    let text = trim(input);
    match split_point(text) {
        Some(at) => {
            proof {
                lemma_trim_is_shorter(input);
                lemma_last_operator_in_range(text, true, text.len() as int);
                lemma_last_operator_in_range(text, false, text.len() as int);
            }
            match parse_expr(text.take(at)) {
                Err(message) => Err(message),
                Ok(left) => match parse_expr(text.skip(at + 3)) {
                    Err(message) => Err(message),
                    Ok(right) => Ok(join(text[at + 1], left, right)),
                },
            }
        },
        None => leaf(text, is_identifier(text)),
    }
}

/// The message for a line that is no statement.
pub open spec fn unknown_statement(text: Seq<char>) -> Seq<char> {
    "Unknown statement: "@ + text
}

/// The message for a `let` without ` = `.
pub open spec fn invalid_let() -> Seq<char> {
    "Invalid let statement. Use: let x = expression"@
}

/// The message for an assignment without ` = `.
pub open spec fn invalid_assignment() -> Seq<char> {
    "Invalid assignment. Use: variable = expression"@
}

/// The parts of a definition: the name before the first ` = `, trimmed, and
/// the expression after it. There is none if the text has no ` = `.
pub open spec fn definition(text: Seq<char>) -> Option<(Seq<char>, Result<ExprTree, Seq<char>>)> {
    match find_pattern(text, " = "@, 0) {
        None => None,
        Some(at) => Some((trim(text.take(at)), parse_expr(text.skip(at + 3)))),
    }
}

/// The statement that a text beginning with `let ` stands for.
pub open spec fn parse_let(text: Seq<char>) -> Result<StatementTree, Seq<char>> {
    match definition(text.skip(4)) {
        None => Err(invalid_let()),
        Some((name, Ok(expr))) => Ok(StatementTree::Let(name, expr)),
        Some((name, Err(message))) => Err(message),
    }
}

/// The statement that an assignment stands for.
pub open spec fn parse_assign(text: Seq<char>) -> Result<StatementTree, Seq<char>> {
    match definition(text) {
        None => Err(invalid_assignment()),
        Some((name, Ok(expr))) => Ok(StatementTree::Assign(name, expr)),
        Some((name, Err(message))) => Err(message),
    }
}

/// The statement that a text of the form `print(...)` stands for.
pub open spec fn parse_print(text: Seq<char>) -> Result<StatementTree, Seq<char>> {
    match parse_expr(text.subrange(6, text.len() - 1)) {
        Ok(expr) => Ok(StatementTree::Print(expr)),
        Err(message) => Err(message),
    }
}

/// Whether a text has the form `print(...)`.
pub open spec fn is_print(text: Seq<char>) -> bool {
    starts_with(text, "print("@) && text.last() == ')'
}

/// The statement that `input` stands for, or the message that rejects it.
///
/// White space at either end does not count. A text that begins with `let `
/// declares a variable; one of the form `print(...)` prints a value; any
/// other text with ` = ` in it assigns to a variable.
pub open spec fn parse_stmt(input: Seq<char>) -> Result<StatementTree, Seq<char>> {
    let text = trim(input);
    if starts_with(text, "let "@) {
        parse_let(text)
    } else if is_print(text) {
        parse_print(text)
    } else if find_pattern(text, " = "@, 0) is Some {
        parse_assign(text)
    } else {
        Err(unknown_statement(text))
    }
}

/// Whether `result` holds the expression, or the message, that `expected`
/// gives.
pub open spec fn expr_agrees(result: Result<Expr, String>, expected: Result<ExprTree, Seq<char>>) -> bool {
    match expected {
        Ok(tree) => result is Ok && result->Ok_0@ == tree,
        Err(message) => result is Err && result->Err_0@ == message,
    }
}

/// Whether `result` holds the statement, or the message, that `expected`
/// gives.
pub open spec fn statement_agrees(
    result: Result<Statement, String>,
    expected: Result<StatementTree, Seq<char>>,
) -> bool {
    match expected {
        Ok(tree) => result is Ok && result->Ok_0@ == tree,
        Err(message) => result is Err && result->Err_0@ == message,
    }
}

/// Finds the last operator of the given kind in `text`.
fn find_last_operator(text: &[char], loose: bool) -> (at: Option<usize>)
    ensures
        at is Some == last_operator(text@, loose, text.len() as int) is Some,
        at is Some ==> at->0 == last_operator(text@, loose, text.len() as int)->0,
        at is Some ==> at->0 + 3 <= text.len(),
{
    let mut end: usize = text.len();
    while end > 0
        invariant
            end <= text.len(),
            last_operator(text@, loose, text.len() as int) == last_operator(
                text@,
                loose,
                end as int,
            ),
        decreases end,
    {
        let at = end - 1;
        if text.len() - at >= 3 && text[at] == ' ' && text[at + 2] == ' ' {
            let c = text[at + 1];
            let found = if loose {
                c == '+' || c == '-'
            } else {
                c == '&' || c == '|' || c == '^'
            };
            if found {
                return Some(at);
            }
        }
        end -= 1;
    }
    None
}

/// Tells whether `text` can name a variable.
pub fn can_name_variable(text: &[char]) -> (yes: bool)
    ensures
        yes == is_identifier(text@),
{
    let mut i: usize = 0;
    while i < text.len()
        invariant
            i <= text.len(),
            forall|j: int| 0 <= j < i ==> alphanumeric(#[trigger] text@[j]) || text@[j] == '_',
        decreases text.len() - i,
    {
        if !(text[i].is_alphanumeric() || text[i] == '_') {
            return false;
        }
        i += 1;
    }
    true
}

/// Reads an expression from characters.
fn expression_from(input: &[char]) -> (result: Result<Expr, String>)
    ensures
        expr_agrees(result, parse_expr(input@)),
    decreases input.len(),
{
    let text = trimmed(input);
    proof {
        lemma_trim_is_shorter(input@);
        lemma_last_operator_in_range(text@, true, text.len() as int);
        lemma_last_operator_in_range(text@, false, text.len() as int);
    }
    let split = match find_last_operator(text.as_slice(), true) {
        Some(at) => Some(at),
        None => find_last_operator(text.as_slice(), false),
    };
    match split {
        Some(at) => {
            let left_text = copy_range(text.as_slice(), 0, at);
            let right_text = copy_range(text.as_slice(), at + 3, text.len());
            assert(left_text@ =~= text@.take(at as int));
            assert(right_text@ =~= text@.skip(at + 3));
            let left = match expression_from(left_text.as_slice()) {
                Ok(left) => left,
                Err(message) => {
                    return Err(message);
                },
            };
            let right = match expression_from(right_text.as_slice()) {
                Ok(right) => right,
                Err(message) => {
                    return Err(message);
                },
            };
            let operator = text[at + 1];
            let expr = if operator == '+' {
                Expr::Add(Box::new(left), Box::new(right))
            } else if operator == '-' {
                Expr::Sub(Box::new(left), Box::new(right))
            } else if operator == '&' {
                Expr::And(Box::new(left), Box::new(right))
            } else if operator == '|' {
                Expr::Or(Box::new(left), Box::new(right))
            } else {
                Expr::Xor(Box::new(left), Box::new(right))
            };
            Ok(expr)
        },
        None => {
            let identifier = can_name_variable(text.as_slice());
            Parser::leaf_expression(text.as_slice(), identifier)
        },
    }
}

/// Reads the name and the expression of a definition.
fn definition_from(text: &[char]) -> (result: Option<(String, Result<Expr, String>)>)
    ensures
        match definition(text@) {
            None => result is None,
            Some((name, expr)) => match result {
                None => false,
                Some((found_name, found_expr)) => found_name@ == name && expr_agrees(
                    found_expr,
                    expr,
                ),
            },
        },
{
    let pattern = chars_of(" = ");
    proof {
        reveal_strlit(" = ");
    }
    match position_of_pattern(text, pattern.as_slice(), 0) {
        None => None,
        Some(at) => {
            assert(pattern@.len() == 3);
            assert(occurs_at(text@, pattern@, at as int));
            assert(at + 3 <= text.len());
            let name_text = copy_range(text, 0, at);
            assert(name_text@ =~= text@.take(at as int));
            let name = trimmed(name_text.as_slice());
            let expr_text = copy_range(text, at + 3, text.len());
            assert(expr_text@ =~= text@.skip(at + 3));
            Some((string_of(name.as_slice()), expression_from(expr_text.as_slice())))
        },
    }
}

/// Reads a `let` statement from characters that begin with `let `.
fn let_from(text: &[char]) -> (result: Result<Statement, String>)
    requires
        text.len() >= 4,
    ensures
        statement_agrees(result, parse_let(text@)),
{
    let rest = copy_range(text, 4, text.len());
    assert(rest@ =~= text@.skip(4));
    match definition_from(rest.as_slice()) {
        None => {
            let mut out: Vec<char> = Vec::new();
            push_str(&mut out, "Invalid let statement. Use: let x = expression");
            assert(out@ =~= invalid_let());
            Err(string_of(out.as_slice()))
        },
        Some((name, Ok(expr))) => Ok(Statement::Let(name, expr)),
        Some((name, Err(message))) => Err(message),
    }
}

/// Reads an assignment from characters.
fn assign_from(text: &[char]) -> (result: Result<Statement, String>)
    ensures
        statement_agrees(result, parse_assign(text@)),
{
    match definition_from(text) {
        None => {
            let mut out: Vec<char> = Vec::new();
            push_str(&mut out, "Invalid assignment. Use: variable = expression");
            assert(out@ =~= invalid_assignment());
            Err(string_of(out.as_slice()))
        },
        Some((name, Ok(expr))) => Ok(Statement::Assign(name, expr)),
        Some((name, Err(message))) => Err(message),
    }
}

/// Reads a `print` statement from characters of the form `print(...)`.
fn print_from(text: &[char]) -> (result: Result<Statement, String>)
    requires
        text.len() >= 7,
    ensures
        statement_agrees(result, parse_print(text@)),
{
    let inner = copy_range(text, 6, text.len() - 1);
    match expression_from(inner.as_slice()) {
        Ok(expr) => Ok(Statement::Print(expr)),
        Err(message) => Err(message),
    }
}

/// Tells whether characters have the form `print(...)`.
fn has_print_form(text: &[char]) -> (yes: bool)
    ensures
        yes == is_print(text@),
        yes ==> text.len() >= 7,
{
    let print = chars_of("print(");
    proof {
        reveal_strlit("print(");
    }
    if holds_at(text, print.as_slice(), 0) {
        assert(text@[5] == '(') by {
            assert(text@.subrange(0, 6)[5] == "print("@[5]);
        }
        text[text.len() - 1] == ')'
    } else {
        false
    }
}

/// The parser of the expression language.
pub struct Parser;

impl Parser {
    /// Reads one statement.
    pub fn parse_statement(input: &str) -> (result: Result<Statement, String>)
        ensures
            statement_agrees(result, parse_stmt(input@)),
    {
        let chars = chars_of(input);
        let text = trimmed(chars.as_slice());
        let let_word = chars_of("let ");
        let pattern = chars_of(" = ");
        proof {
            reveal_strlit("let ");
            reveal_strlit(" = ");
        }
        if holds_at(text.as_slice(), let_word.as_slice(), 0) {
            let_from(text.as_slice())
        } else if has_print_form(text.as_slice()) {
            print_from(text.as_slice())
        } else if position_of_pattern(text.as_slice(), pattern.as_slice(), 0).is_some() {
            assign_from(text.as_slice())
        } else {
            let mut out: Vec<char> = Vec::new();
            push_str(&mut out, "Unknown statement: ");
            push_all(&mut out, text.as_slice());
            assert(out@ =~= unknown_statement(text@));
            Err(string_of(out.as_slice()))
        }
    }

    /// Reads a `let` statement from a text that begins with `let `.
    pub fn parse_let(input: &str) -> (result: Result<Statement, String>)
        requires
            starts_with(input@, "let "@),
        ensures
            statement_agrees(result, parse_let(input@)),
    {
        let chars = chars_of(input);
        proof {
            reveal_strlit("let ");
        }
        let_from(chars.as_slice())
    }

    /// Reads an assignment: a name, ` = ` and an expression.
    pub fn parse_assign(input: &str) -> (result: Result<Statement, String>)
        ensures
            statement_agrees(result, parse_assign(input@)),
    {
        let chars = chars_of(input);
        assign_from(chars.as_slice())
    }

    /// Reads a `print` statement from a text of the form `print(...)`.
    pub fn parse_print(input: &str) -> (result: Result<Statement, String>)
        requires
            is_print(input@),
        ensures
            statement_agrees(result, parse_print(input@)),
    {
        let chars = chars_of(input);
        let form = has_print_form(chars.as_slice());
        print_from(chars.as_slice())
    }

    /// Reads an expression.
    pub fn parse_expression(input: &str) -> (result: Result<Expr, String>)
        ensures
            expr_agrees(result, parse_expr(input@)),
    {
        let chars = chars_of(input);
        expression_from(chars.as_slice())
    }

    /// Reads a text without operators, given whether it can name a
    /// variable.
    pub fn leaf_expression(text: &[char], identifier: bool) -> (result: Result<Expr, String>)
        ensures
            expr_agrees(result, leaf(text@, identifier)),
    {
        match byte_from_digits(text, 10) {
            Some(n) => Ok(Expr::Number(n)),
            None => {
                if identifier {
                    Ok(Expr::Variable(string_of(text)))
                } else {
                    let mut out: Vec<char> = Vec::new();
                    push_str(&mut out, "Invalid expression: ");
                    push_all(&mut out, text);
                    assert(out@ =~= invalid_expression(text@));
                    Err(string_of(out.as_slice()))
                }
            },
        }
    }
}

} // verus!
