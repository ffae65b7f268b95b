//! Infix and postfix notation: the shunting-yard conversion of an infix
//! expression to postfix notation, and the evaluation of a postfix
//! expression over single-digit operands.

use vstd::prelude::*;
use crate::tokens::alphabet::{char_is_digit, is_digit};
use crate::tokens::variables::{char_is_letter, is_letter};
use crate::util::text::string_from_chars;

verus! {

/// The two notations that are converted: arithmetic over single digits with
/// `+ - * /`, and logic over single letters with `& | =`.
#[derive(Debug, Clone, Copy, PartialEq, Eq, Structural)]
pub enum Notation {
    Arithmetic,
    Logic,
}

impl Notation {
    /// Whether `c` is an operand of this notation.
    pub open spec fn is_operand(self, c: char) -> bool {
        match self {
            Notation::Arithmetic => is_digit(c),
            Notation::Logic => is_letter(c),
        }
    }

    /// How tightly the operator `c` binds; 0 for what is no operator.
    pub open spec fn precedence(self, c: char) -> int {
        match self {
            Notation::Arithmetic => if c == '+' || c == '-' {
                1
            } else if c == '*' || c == '/' {
                2
            } else {
                0
            },
            Notation::Logic => if c == '&' || c == '|' {
                1
            } else if c == '=' {
                2
            } else {
                0
            },
        }
    }

    /// Whether `c` is an operator of this notation.
    pub open spec fn is_operator(self, c: char) -> bool {
        self.precedence(c) > 0
    }

    /// Tests a character for being an operand of this notation.
    pub fn operand(&self, c: char) -> (yes: bool)
        ensures
            yes == self.is_operand(c),
    {
        match self {
            Notation::Arithmetic => char_is_digit(c),
            Notation::Logic => char_is_letter(c),
        }
    }

    /// How tightly the operator `c` binds; 0 for what is no operator.
    pub fn binding(&self, c: char) -> (level: u8)
        ensures
            level == self.precedence(c),
    {
        match self {
            Notation::Arithmetic => if c == '+' || c == '-' {
                1
            } else if c == '*' || c == '/' {
                2
            } else {
                0
            },
            Notation::Logic => if c == '&' || c == '|' {
                1
            } else if c == '=' {
                2
            } else {
                0
            },
        }
    }
}

/// The output and the operator stack after the operators on top of the
/// stack that bind at least as tightly as `token` have moved to the output.
/// An opening parenthesis binds less than any operator and stops the move.
pub open spec fn pop_operators(
    notation: Notation,
    output: Seq<char>,
    stack: Seq<char>,
    token: char,
) -> (Seq<char>, Seq<char>)
    decreases stack.len(),
{
    if stack.len() > 0 && notation.precedence(token) <= notation.precedence(stack.last()) {
        pop_operators(notation, output.push(stack.last()), stack.drop_last(), token)
    } else {
        (output, stack)
    }
}

/// The output and the operator stack after the operators above the last
/// opening parenthesis have moved to the output and the parenthesis has
/// been dropped; the whole stack moves where it holds no parenthesis.
pub open spec fn pop_to_open(output: Seq<char>, stack: Seq<char>) -> (Seq<char>, Seq<char>)
    decreases stack.len(),
{
    if stack.len() == 0 {
        (output, stack)
    } else if stack.last() == '(' {
        (output, stack.drop_last())
    } else {
        pop_to_open(output.push(stack.last()), stack.drop_last())
    }
}

/// The output after all that is left on the stack has moved to it, the top
/// first.
pub open spec fn drain(output: Seq<char>, stack: Seq<char>) -> Seq<char>
    decreases stack.len(),
{
    if stack.len() == 0 {
        output
    } else {
        drain(output.push(stack.last()), stack.drop_last())
    }
}

/// The output and the operator stack after the character `token` has been
/// read: an operand goes to the output, an operator goes to the stack
/// behind the operators it does not bind tighter than, an opening
/// parenthesis goes to the stack, a closing one empties the stack down to
/// its partner, and any other character is passed over.
pub open spec fn infix_step(notation: Notation, output: Seq<char>, stack: Seq<char>, token: char)
    -> (Seq<char>, Seq<char>) {
    if notation.is_operand(token) {
        (output.push(token), stack)
    } else if notation.is_operator(token) {
        let popped = pop_operators(notation, output, stack, token);
        (popped.0, popped.1.push(token))
    } else if token == '(' {
        (output, stack.push(token))
    } else if token == ')' {
        pop_to_open(output, stack)
    } else {
        (output, stack)
    }
}

/// The postfix notation of `expression` from index `i` on, given the output
/// and the operator stack so far.
pub open spec fn infix_run(
    notation: Notation,
    expression: Seq<char>,
    i: int,
    output: Seq<char>,
    stack: Seq<char>,
) -> Seq<char>
    decreases expression.len() - i,
{
    if i < 0 || i >= expression.len() {
        drain(output, stack)
    } else {
        let next = infix_step(notation, output, stack, expression[i]);
        infix_run(notation, expression, i + 1, next.0, next.1)
    }
}

/// The postfix notation of the infix expression `expression`.
pub open spec fn postfix_of(notation: Notation, expression: Seq<char>) -> Seq<char> {
    infix_run(notation, expression, 0, Seq::empty(), Seq::empty())
}

/// Converts an infix expression to postfix notation by the shunting-yard
/// algorithm.
pub fn shunting_yard(notation: Notation, expression: &str) -> (postfix: String)
    ensures
        postfix@ == postfix_of(notation, expression@),
{
    let mut output: Vec<char> = Vec::new();
    let mut stack: Vec<char> = Vec::new();
    for token in it: expression.chars()
        invariant
            it.seq() == expression@,
            postfix_of(notation, expression@) == infix_run(
                notation,
                expression@,
                it.index(),
                output@,
                stack@,
            ),
    {
        let ghost output_before = output@;
        let ghost stack_before = stack@;
        if notation.operand(token) {
            output.push(token);
        } else if notation.binding(token) > 0 {
            while stack.len() > 0 && notation.binding(token) <= notation.binding(
                stack[stack.len() - 1],
            )
                invariant
                    pop_operators(notation, output_before, stack_before, token) == pop_operators(
                        notation,
                        output@,
                        stack@,
                        token,
                    ),
                decreases stack@.len(),
            {
                let top = stack.pop().unwrap();
                output.push(top);
            }
            stack.push(token);
        } else if token == '(' {
            stack.push(token);
        } else if token == ')' {
            loop
                invariant_except_break
                    pop_to_open(output_before, stack_before) == pop_to_open(output@, stack@),
                ensures
                    pop_to_open(output_before, stack_before) == (output@, stack@),
                decreases stack@.len(),
            {
                match stack.pop() {
                    None => {
                        break ;
                    },
                    Some(top) => {
                        if top == '(' {
                            break ;
                        }
                        output.push(top);
                    },
                }
            }
        }
    }
    while stack.len() > 0
        invariant
            postfix_of(notation, expression@) == drain(output@, stack@),
        decreases stack@.len(),
    {
        let top = stack.pop().unwrap();
        output.push(top);
    }
    string_from_chars(output.as_slice())
}

/// Converts an infix expression of single digits, `+ - * /` and
/// parentheses to postfix notation.
pub fn infix_to_postfix(expression: &str) -> (postfix: String)
    ensures
        postfix@ == postfix_of(Notation::Arithmetic, expression@),
{
    shunting_yard(Notation::Arithmetic, expression)
}

/// Converts an infix expression of single letters, `& | =` and parentheses
/// to postfix notation.
pub fn test_infix_to_postfix(expression: &str) -> (postfix: String)
    ensures
        postfix@ == postfix_of(Notation::Logic, expression@),
{
    shunting_yard(Notation::Logic, expression)
}

/// The quotient of `a` by `b`, rounded towards zero.
pub open spec fn quotient(a: int, b: int) -> int {
    if a >= 0 {
        a / b
    } else {
        -((-a) / b)
    }
}

/// A quotient is no larger in magnitude than what is divided.
pub proof fn lemma_quotient_bounds(a: int, b: int)
    requires
        b != 0,
    ensures
        a >= 0 ==> -a <= quotient(a, b) <= a,
        a < 0 ==> a <= quotient(a, b) <= -a,
{
    let n = if a >= 0 {
        a
    } else {
        -a
    };
    assert(-n <= n / b <= n) by (nonlinear_arith)
        requires
            n >= 0,
            b != 0,
    ;
}

/// Whether `c` is one of the four operators of arithmetic.
pub open spec fn is_arithmetic(c: char) -> bool {
    c == '+' || c == '-' || c == '*' || c == '/'
}

/// What the operator `op` makes of `a` and `b`, where that is defined and
/// fits in 32 bits: there is no quotient by zero.
pub open spec fn applied(op: char, a: int, b: int) -> Option<i32> {
    let result = if op == '+' {
        a + b
    } else if op == '-' {
        a - b
    } else if op == '*' {
        a * b
    } else {
        quotient(a, b)
    };
    if (op == '/' && b == 0) || result < i32::MIN || result > i32::MAX {
        None
    } else {
        Some(result as i32)
    }
}

/// The operand stack after the character `token` has been read, or nothing
/// where an operation is not defined. A digit is pushed; an operator takes
/// the two operands on top of the stack and pushes its result, and where
/// fewer than two operands are there it takes what is there and pushes
/// nothing; any other character is passed over.
pub open spec fn postfix_step(stack: Seq<i32>, token: char) -> Option<Seq<i32>> {
    if is_digit(token) {
        Some(stack.push((token as u8 - '0' as u8) as i32))
    } else if is_arithmetic(token) {
        if stack.len() >= 2 {
            match applied(token, stack[stack.len() - 2] as int, stack[stack.len() - 1] as int) {
                Some(result) => Some(stack.drop_last().drop_last().push(result)),
                None => None,
            }
        } else {
            Some(Seq::empty())
        }
    } else {
        Some(stack)
    }
}

/// The operand stack after `expression` has been read from index `i` on.
pub open spec fn postfix_run(expression: Seq<char>, i: int, stack: Seq<i32>) -> Option<Seq<i32>>
    decreases expression.len() - i,
{
    if i < 0 || i >= expression.len() {
        Some(stack)
    } else {
        match postfix_step(stack, expression[i]) {
            Some(next) => postfix_run(expression, i + 1, next),
            None => None,
        }
    }
}

/// The value of the postfix expression `expression`: what is on top of the
/// operand stack at its end. There is none where an operation is not
/// defined or the stack ends up empty.
pub open spec fn postfix_value(expression: Seq<char>) -> Option<i32> {
    match postfix_run(expression, 0, Seq::empty()) {
        Some(stack) => if stack.len() > 0 {
            Some(stack.last())
        } else {
            None
        },
        None => None,
    }
}

/// Applies an operator of arithmetic to two operands.
pub fn apply(op: char, a: i32, b: i32) -> (result: Option<i32>)
    requires
        is_arithmetic(op),
    ensures
        result == applied(op, a as int, b as int),
{
    let wide: i64 = if op == '+' {
        a as i64 + b as i64
    } else if op == '-' {
        a as i64 - b as i64
    } else if op == '*' {
        assert(-0x4000_0000_0000_0000 <= (a as int) * (b as int) <= 0x4000_0000_0000_0000)
            by (nonlinear_arith)
            requires
                -0x8000_0000 <= a <= 0x7fff_ffff,
                -0x8000_0000 <= b <= 0x7fff_ffff,
        ;
        (a as i64) * (b as i64)
    } else {
        if b == 0 {
            return None;
        }
        proof {
            lemma_quotient_bounds(a as int, b as int);
        }
        (a as i64) / (b as i64)
    };
    if wide < i32::MIN as i64 || wide > i32::MAX as i64 {
        None
    } else {
        Some(wide as i32)
    }
}

/// Evaluates a postfix expression over single-digit operands, or finds
/// that it has no value.
pub fn checked_evaluate_postfix(expression: &str) -> (value: Option<i32>)
    ensures
        value == postfix_value(expression@),
{
    let mut stack: Vec<i32> = Vec::new();
    for token in it: expression.chars()
        invariant
            it.seq() == expression@,
            postfix_run(expression@, 0, Seq::empty()) == postfix_run(
                expression@,
                it.index(),
                stack@,
            ),
    {
        if char_is_digit(token) {
            stack.push((token as u8 - '0' as u8) as i32);
        } else if token == '+' || token == '-' || token == '*' || token == '/' {
            let ghost before = stack@;
            let right = stack.pop();
            let left = stack.pop();
            match (left, right) {
                (Some(a), Some(b)) => {
                    match apply(token, a, b) {
                        Some(result) => {
                            stack.push(result);
                            assert(stack@ =~= before.drop_last().drop_last().push(result));
                        },
                        None => {
                            return None;
                        },
                    }
                },
                _ => {
                    assert(stack@ =~= Seq::<i32>::empty());
                },
            }
        }
    }
    stack.pop()
}

/// Evaluates a postfix expression over single-digit operands. The
/// expression must have a value: it leaves an operand on the stack, takes
/// no quotient by zero and stays within 32 bits.
pub fn evaluate_postfix(expression: &str) -> (value: i32)
    requires
        postfix_value(expression@) is Some,
    ensures
        postfix_value(expression@) == Some(value),
{
    match checked_evaluate_postfix(expression) {
        Some(value) => value,
        None => 0,
    }
}

} // verus!
