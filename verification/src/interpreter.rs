//! The interpreter of the expression language. Every operation of an
//! expression is compiled into a short program, which is run on a processor
//! that was reset, and whose result is then read back from memory.

use vstd::prelude::*;
use crate::cpu::{CpuState, SimpleCPU};
use crate::memory::{memory_load, memory_read};
use crate::parser::{Expr, ExprTree, Statement, StatementTree};
use crate::text::{
    agrees, chars_of, decimal, push_all, push_decimal, push_str, same_chars, string_of,
};

verus! {

/// The number of cycles that a compiled program may run.
pub const CYCLE_BUDGET: usize = 20;

/// The variables that a list of bindings defines: of two bindings of one
/// name the later one counts.
pub open spec fn bindings(entries: Seq<(Seq<char>, u8)>) -> Map<Seq<char>, u8>
    decreases entries.len(),
{
    if entries.len() == 0 {
        Map::empty()
    } else {
        bindings(entries.drop_last()).insert(entries.last().0, entries.last().1)
    }
}

/// The address of the temporary cell that is handed out when the counter
/// stands at `counter`: 0xF, 0xE or 0xD.
pub open spec fn temp_address(counter: nat) -> u8 {
    (15 - counter) as u8
}

/// The counter after a temporary cell was handed out: it goes round from 2
/// to 0.
pub open spec fn next_counter(counter: nat) -> nat {
    (counter + 1) % 3
}

/// The program for one operation on `a` and `b`: it stores both operands in
/// temporary cells, loads the first, applies the instruction with the given
/// opcode to the second, stores the result in a third cell, and halts.
pub open spec fn snippet(a: u8, b: u8, opcode: u8, counter: nat) -> Seq<u8> {
    let temp1 = temp_address(counter);
    let temp2 = temp_address(next_counter(counter));
    let result = temp_address(next_counter(next_counter(counter)));
    seq![0xAu8, a, 0x2, temp1, 0xA, b, 0x2, temp2, 0x1, temp1, opcode, temp2, 0x2, result, 0xF]
}

/// What one operation yields: the cell for the result, as it stands after
/// the program for the operation has run, from a reset, until it halted or
/// twenty cycles were spent.
///
/// The program shares the sixteen cells of memory with its own temporaries,
/// so this need not be the result that the ALU gives for `a` and `b`.
pub open spec fn machine_result(a: u8, b: u8, opcode: u8, counter: nat) -> u8 {
    let start = CpuState {
        memory: memory_load(CpuState::initial().memory, snippet(a, b, opcode, counter)),
        ..CpuState::initial()
    };
    memory_read(
        start.run(CYCLE_BUDGET as nat).memory,
        temp_address(next_counter(next_counter(counter))),
    )
}

/// The message for a number above 15.
pub open spec fn number_too_large(n: u8) -> Seq<char> {
    "Number "@ + decimal(n as nat) + " exceeds 4-bit range (0-15)"@
}

/// The message for a variable that is read and has no value.
pub open spec fn variable_not_found(name: Seq<char>) -> Seq<char> {
    "Variable '"@ + name + "' not found"@
}

/// The message for a variable that is assigned to and was not declared.
pub open spec fn variable_not_declared(name: Seq<char>) -> Seq<char> {
    "Variable '"@ + name + "' not declared"@
}

/// The value of an operation whose operands have the values `left` and
/// `right`, or the message of the first operand that has none.
pub open spec fn combine(
    left: Result<u8, Seq<char>>,
    right: Result<u8, Seq<char>>,
    opcode: u8,
    counter: nat,
) -> Result<u8, Seq<char>> {
    match left {
        Err(message) => Err(message),
        Ok(a) => match right {
            Err(message) => Err(message),
            Ok(b) => Ok(machine_result(a, b, opcode, counter)),
        },
    }
}

/// The value of an expression, or the message that says why it has none.
///
/// A number must be a nibble, and a variable must have a value. The left
/// operand of an operation is evaluated before the right one.
pub open spec fn evaluate(expr: ExprTree, variables: Map<Seq<char>, u8>, counter: nat) -> Result<
    u8,
    Seq<char>,
>
    decreases expr,
{
    match expr {
        ExprTree::Number(n) => if n > 15 {
            Err(number_too_large(n))
        } else {
            Ok(n)
        },
        ExprTree::Variable(name) => if variables.contains_key(name) {
            Ok(variables[name])
        } else {
            Err(variable_not_found(name))
        },
        ExprTree::Add(left, right) => combine(
            evaluate(*left, variables, counter),
            evaluate(*right, variables, counter),
            0x3,
            counter,
        ),
        ExprTree::Sub(left, right) => combine(
            evaluate(*left, variables, counter),
            evaluate(*right, variables, counter),
            0x4,
            counter,
        ),
        ExprTree::And(left, right) => combine(
            evaluate(*left, variables, counter),
            evaluate(*right, variables, counter),
            0x5,
            counter,
        ),
        ExprTree::Or(left, right) => combine(
            evaluate(*left, variables, counter),
            evaluate(*right, variables, counter),
            0x6,
            counter,
        ),
        ExprTree::Xor(left, right) => combine(
            evaluate(*left, variables, counter),
            evaluate(*right, variables, counter),
            0x7,
            counter,
        ),
    }
}

/// What an interpreter holds.
pub struct InterpreterState {
    /// The variables with their values.
    pub variables: Map<Seq<char>, u8>,
    /// The values printed so far.
    pub output: Seq<u8>,
    /// The counter that hands out temporary cells.
    pub memory_counter: nat,
}

impl InterpreterState {
    /// An interpreter at the start of a program: no variable, nothing
    /// printed, the counter at 0.
    pub open spec fn initial() -> InterpreterState {
        InterpreterState { variables: Map::empty(), output: Seq::empty(), memory_counter: 0 }
    }

    /// The state after a statement, with the message that stopped it if it
    /// failed. A statement that fails changes nothing.
    pub open spec fn step(self, statement: StatementTree) -> (InterpreterState, Option<Seq<char>>) {
        match statement {
            StatementTree::Let(name, expr) => match evaluate(
                expr,
                self.variables,
                self.memory_counter,
            ) {
                Ok(value) => (
                    InterpreterState { variables: self.variables.insert(name, value), ..self },
                    None,
                ),
                Err(message) => (self, Some(message)),
            },
            StatementTree::Assign(name, expr) => if !self.variables.contains_key(name) {
                (self, Some(variable_not_declared(name)))
            } else {
                match evaluate(expr, self.variables, self.memory_counter) {
                    Ok(value) => (
                        InterpreterState { variables: self.variables.insert(name, value), ..self },
                        None,
                    ),
                    Err(message) => (self, Some(message)),
                }
            },
            StatementTree::Print(expr) => match evaluate(
                expr,
                self.variables,
                self.memory_counter,
            ) {
                Ok(value) => (InterpreterState { output: self.output.push(value), ..self }, None),
                Err(message) => (self, Some(message)),
            },
        }
    }

    /// The state after the statements, run in order up to the first that
    /// fails, with its message.
    pub open spec fn run(self, statements: Seq<StatementTree>) -> (
        InterpreterState,
        Option<Seq<char>>,
    )
        decreases statements.len(),
    {
        if statements.len() == 0 {
            (self, None)
        } else {
            let (next, error) = self.step(statements[0]);
            if error is Some {
                (next, error)
            } else {
                next.run(statements.skip(1))
            }
        }
    }
}

/// The models of a list of statements.
pub open spec fn statements_of(statements: Seq<Statement>) -> Seq<StatementTree> {
    statements.map_values(|statement: Statement| statement@)
}

/// The models of a list of bindings.
pub open spec fn entries_of(entries: Seq<(String, u8)>) -> Seq<(Seq<char>, u8)> {
    entries.map_values(|entry: (String, u8)| (entry.0@, entry.1))
}

/// The counter that hands out temporary cells in turn.
struct TempCounter {
    count: u8,
}

impl TempCounter {
    /// The counter stands at 0, 1 or 2.
    #[verifier::type_invariant]
    spec fn in_range(&self) -> bool {
        self.count < 3
    }

    /// Where the counter stands.
    closed spec fn position(&self) -> nat {
        self.count as nat
    }

    /// Creates a counter at 0.
    fn new() -> (counter: Self)
        ensures
            counter.position() == 0,
    {
        TempCounter { count: 0 }
    }

    /// Hands out the next temporary cell.
    fn take(&mut self) -> (address: u8)
        ensures
            address == temp_address(old(self).position()),
            final(self).position() == next_counter(old(self).position()),
            old(self).position() < 3,
    {
        proof {
            use_type_invariant(&*self);
        }
        let addr = 0xF - self.count;
        self.count = (self.count + 1) % 3;
        addr
    }
}

/// An interpreter with its own processor.
pub struct Interpreter {
    cpu: SimpleCPU,
    variables: Vec<(String, u8)>,
    memory_counter: TempCounter,
    output: Vec<u8>,
}

impl View for Interpreter {
    type V = InterpreterState;

    closed spec fn view(&self) -> InterpreterState {
        InterpreterState {
            variables: bindings(entries_of(self.variables@)),
            output: self.output@,
            memory_counter: self.memory_counter.position(),
        }
    }
}

impl Interpreter {
    /// Creates an interpreter at the start of a program.
    pub fn new() -> (interpreter: Self)
        ensures
            interpreter@ == InterpreterState::initial(),
    {
        let interpreter = Interpreter {
            cpu: SimpleCPU::new(),
            variables: Vec::new(),
            memory_counter: TempCounter::new(),
            output: Vec::new(),
        };
        assert(entries_of(interpreter.variables@) =~= Seq::empty());
        interpreter
    }

    /// Hands out the next temporary cell: 0xF, 0xE and 0xD in turn.
    fn get_temp_address(&mut self) -> (address: u8)
        ensures
            address == temp_address(old(self)@.memory_counter),
            old(self)@.memory_counter < 3,
            final(self)@ == (InterpreterState {
                memory_counter: next_counter(old(self)@.memory_counter),
                ..old(self)@
            }),
    {
        self.memory_counter.take()
    }

    /// Compiles one operation, runs it on the processor and reads the result
    /// back.
    fn run_operation(&mut self, a: u8, b: u8, opcode: u8) -> (value: u8)
        ensures
            value == machine_result(a, b, opcode, old(self)@.memory_counter),
            final(self)@ == old(self)@,
    {
        let temp1 = self.get_temp_address();
        let temp2 = self.get_temp_address();
        let result_addr = self.get_temp_address();
        let program = vec![
            0xA,
            a,
            0x2,
            temp1,
            0xA,
            b,
            0x2,
            temp2,
            0x1,
            temp1,
            opcode,
            temp2,
            0x2,
            result_addr,
            0xF,
        ];
        assert(program@ =~= snippet(a, b, opcode, old(self)@.memory_counter));
        self.cpu.reset();
        self.cpu.load_program(program.as_slice());
        self.cpu.run(CYCLE_BUDGET);
        self.cpu.memory.read(result_addr)
    }

    /// Adds on the processor.
    fn neural_add(&mut self, a: u8, b: u8) -> (result: Result<u8, String>)
        ensures
            result == Ok::<u8, String>(machine_result(a, b, 0x3, old(self)@.memory_counter)),
            final(self)@ == old(self)@,
    {
        Ok(self.run_operation(a, b, 0x3))
    }

    /// Subtracts on the processor.
    fn neural_sub(&mut self, a: u8, b: u8) -> (result: Result<u8, String>)
        ensures
            result == Ok::<u8, String>(machine_result(a, b, 0x4, old(self)@.memory_counter)),
            final(self)@ == old(self)@,
    {
        Ok(self.run_operation(a, b, 0x4))
    }

    /// Combines by AND on the processor.
    fn neural_and(&mut self, a: u8, b: u8) -> (result: Result<u8, String>)
        ensures
            result == Ok::<u8, String>(machine_result(a, b, 0x5, old(self)@.memory_counter)),
            final(self)@ == old(self)@,
    {
        Ok(self.run_operation(a, b, 0x5))
    }

    /// Combines by OR on the processor.
    fn neural_or(&mut self, a: u8, b: u8) -> (result: Result<u8, String>)
        ensures
            result == Ok::<u8, String>(machine_result(a, b, 0x6, old(self)@.memory_counter)),
            final(self)@ == old(self)@,
    {
        Ok(self.run_operation(a, b, 0x6))
    }

    /// Combines by XOR on the processor.
    fn neural_xor(&mut self, a: u8, b: u8) -> (result: Result<u8, String>)
        ensures
            result == Ok::<u8, String>(machine_result(a, b, 0x7, old(self)@.memory_counter)),
            final(self)@ == old(self)@,
    {
        Ok(self.run_operation(a, b, 0x7))
    }

    /// Looks a variable up.
    fn lookup(&self, name: &[char]) -> (value: Option<u8>)
        ensures
            value is Some == self@.variables.contains_key(name@),
            value is Some ==> value->0 == self@.variables[name@],
    {
        let mut i: usize = self.variables.len();
        assert(self.variables@.take(i as int) =~= self.variables@);
        while i > 0
            invariant
                i <= self.variables.len(),
                self@.variables.contains_key(name@) == bindings(
                    entries_of(self.variables@.take(i as int)),
                ).contains_key(name@),
                self@.variables.contains_key(name@) ==> self@.variables[name@] == bindings(
                    entries_of(self.variables@.take(i as int)),
                )[name@],
            decreases i,
        {
            let ghost longer = entries_of(self.variables@.take(i as int));
            assert(longer.drop_last() =~= entries_of(self.variables@.take(i - 1)));
            let entry = chars_of(self.variables[i - 1].0.as_str());
            if same_chars(entry.as_slice(), name) {
                return Some(self.variables[i - 1].1);
            }
            i -= 1;
        }
        None
    }

    /// Gives a variable a value.
    fn bind(&mut self, name: String, value: u8)
        ensures
            final(self)@ == (InterpreterState {
                variables: old(self)@.variables.insert(name@, value),
                ..old(self)@
            }),
    {
        proof {
            let longer = entries_of(self.variables@.push((name, value)));
            assert(longer.drop_last() =~= entries_of(self.variables@));
        }
        self.variables.push((name, value));
    }

    /// Evaluates an expression, operation by operation, on the processor.
    fn evaluate_expression(&mut self, expr: &Expr) -> (result: Result<u8, String>)
        ensures
            agrees(result, evaluate(expr@, old(self)@.variables, old(self)@.memory_counter)),
            final(self)@ == old(self)@,
        decreases expr,
    {
        match expr {
            Expr::Number(n) => {
                if *n > 15 {
                    let mut out: Vec<char> = Vec::new();
                    push_str(&mut out, "Number ");
                    push_decimal(&mut out, *n as usize);
                    push_str(&mut out, " exceeds 4-bit range (0-15)");
                    assert(out@ =~= number_too_large(*n));
                    Err(string_of(out.as_slice()))
                } else {
                    Ok(*n)
                }
            },
            Expr::Variable(var_name) => {
                let name = chars_of(var_name.as_str());
                match self.lookup(name.as_slice()) {
                    Some(value) => Ok(value),
                    None => {
                        let mut out: Vec<char> = Vec::new();
                        push_str(&mut out, "Variable '");
                        push_all(&mut out, name.as_slice());
                        push_str(&mut out, "' not found");
                        assert(out@ =~= variable_not_found(name@));
                        Err(string_of(out.as_slice()))
                    },
                }
            },
            Expr::Add(left, right) => {
                let a = match self.evaluate_expression(left) {
                    Ok(a) => a,
                    Err(message) => {
                        return Err(message);
                    },
                };
                let b = match self.evaluate_expression(right) {
                    Ok(b) => b,
                    Err(message) => {
                        return Err(message);
                    },
                };
                self.neural_add(a, b)
            },
            Expr::Sub(left, right) => {
                let a = match self.evaluate_expression(left) {
                    Ok(a) => a,
                    Err(message) => {
                        return Err(message);
                    },
                };
                let b = match self.evaluate_expression(right) {
                    Ok(b) => b,
                    Err(message) => {
                        return Err(message);
                    },
                };
                self.neural_sub(a, b)
            },
            Expr::And(left, right) => {
                let a = match self.evaluate_expression(left) {
                    Ok(a) => a,
                    Err(message) => {
                        return Err(message);
                    },
                };
                let b = match self.evaluate_expression(right) {
                    Ok(b) => b,
                    Err(message) => {
                        return Err(message);
                    },
                };
                self.neural_and(a, b)
            },
            Expr::Or(left, right) => {
                let a = match self.evaluate_expression(left) {
                    Ok(a) => a,
                    Err(message) => {
                        return Err(message);
                    },
                };
                let b = match self.evaluate_expression(right) {
                    Ok(b) => b,
                    Err(message) => {
                        return Err(message);
                    },
                };
                self.neural_or(a, b)
            },
            Expr::Xor(left, right) => {
                let a = match self.evaluate_expression(left) {
                    Ok(a) => a,
                    Err(message) => {
                        return Err(message);
                    },
                };
                let b = match self.evaluate_expression(right) {
                    Ok(b) => b,
                    Err(message) => {
                        return Err(message);
                    },
                };
                self.neural_xor(a, b)
            },
        }
    }

    /// Executes one statement. A statement that fails changes nothing.
    fn execute_statement(&mut self, statement: &Statement) -> (result: Result<(), String>)
        ensures
            final(self)@ == old(self)@.step(statement@).0,
            match old(self)@.step(statement@).1 {
                None => result is Ok,
                Some(message) => result is Err && result->Err_0@ == message,
            },
    {
        match statement {
            Statement::Let(var_name, expr) => {
                match self.evaluate_expression(expr) {
                    Ok(value) => {
                        self.bind(var_name.clone(), value);
                        Ok(())
                    },
                    Err(message) => Err(message),
                }
            },
            Statement::Assign(var_name, expr) => {
                let name = chars_of(var_name.as_str());
                if self.lookup(name.as_slice()).is_none() {
                    let mut out: Vec<char> = Vec::new();
                    push_str(&mut out, "Variable '");
                    push_all(&mut out, name.as_slice());
                    push_str(&mut out, "' not declared");
                    assert(out@ =~= variable_not_declared(name@));
                    return Err(string_of(out.as_slice()));
                }
                match self.evaluate_expression(expr) {
                    Ok(value) => {
                        self.bind(var_name.clone(), value);
                        Ok(())
                    },
                    Err(message) => Err(message),
                }
            },
            Statement::Print(expr) => {
                match self.evaluate_expression(expr) {
                    Ok(value) => {
                        self.output.push(value);
                        Ok(())
                    },
                    Err(message) => Err(message),
                }
            },
        }
    }

    /// Runs a program from a fresh start: forgets all variables and all that
    /// was printed, then executes the statements in order. The first
    /// statement that fails ends the run with its message; what came before
    /// it stays done.
    pub fn execute(&mut self, statements: Vec<Statement>) -> (result: Result<(), String>)
        ensures
            final(self)@ == InterpreterState::initial().run(statements_of(statements@)).0,
            match InterpreterState::initial().run(statements_of(statements@)).1 {
                None => result is Ok,
                Some(message) => result is Err && result->Err_0@ == message,
            },
    {
        self.cpu.reset();
        self.variables.clear();
        self.output.clear();
        self.memory_counter = TempCounter::new();
        assert(entries_of(self.variables@) =~= Seq::empty());
        let ghost program = statements_of(statements@);
        let mut i: usize = 0;
        assert(program.skip(0) =~= program);
        while i < statements.len()
            invariant
                i <= statements.len(),
                program == statements_of(statements@),
                InterpreterState::initial().run(program) == self@.run(program.skip(i as int)),
            decreases statements.len() - i,
        {
            assert(program.skip(i as int)[0] == statements@[i as int]@);
            assert(program.skip(i as int).skip(1) =~= program.skip(i + 1));
            match self.execute_statement(&statements[i]) {
                Ok(()) => {},
                Err(message) => {
                    return Err(message);
                },
            }
            i += 1;
        }
        Ok(())
    }

    /// The values that the program has printed, in order.
    pub fn output(&self) -> (values: &Vec<u8>)
        ensures
            values@ == self@.output,
    {
        &self.output
    }

    /// The value of a variable, if it has one.
    pub fn variable(&self, name: &str) -> (value: Option<u8>)
        ensures
            value is Some == self@.variables.contains_key(name@),
            value is Some ==> value->0 == self@.variables[name@],
    {
        let chars = chars_of(name);
        self.lookup(chars.as_slice())
    }
}

impl Default for Interpreter {
    fn default() -> (interpreter: Self)
        ensures
            interpreter@ == InterpreterState::initial(),
    {
        Self::new()
    }
}

} // verus!
