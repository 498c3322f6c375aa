//! The arithmetic evaluator's engine: integer operator semantics, the
//! rearrangement of an element sequence into reverse-Polish order, and the
//! stack-machine evaluation of that order.
//!
//! Every step is pinned down by a spec function: `bin_int_spec` and
//! `unary_int_spec` give the exact value of each operator (with two's
//! complement wrapping, as the shell's 64-bit arithmetic wraps),
//! `rearrange_spec` the exact postfix order, and `eval_rpn_spec` the exact
//! result and variable-table updates of an evaluation.
//!
//! Floating-point elements are carried through tokenization as raw text but
//! refused here with a typed error: this evaluator is the integer engine.

use vstd::prelude::*;
use crate::shellcore::{var_value, ShellCore};
use crate::numstr::{i64_to_dec, i64_to_string, parse_i64, parse_i64_spec};
use crate::textutil::str_eq;
use vstd::wrapping::i64_specs;

verus! {

/// One element of an arithmetic expression, as tokenized and as evaluated.
#[derive(Clone, Debug)]
pub enum CalcElement {
    Integer(i64),
    /// A floating-point literal, kept as its source text; the integer
    /// engine refuses it, and a separate component may take over.
    FloatLit(String),
    /// A variable reference: its name, and the attached post-increment
    /// amount (`x++` is `Word("x", 1)`).
    Word(String, i64),
    BinaryOp(String),
    UnaryOp(String),
    /// A pre-increment by the given amount (`++x` is `Increment(1)`).
    Increment(i64),
    /// The ternary `?:`, consuming condition and both branch values.
    TernaryOp,
    /// The `?` of a ternary, before its branches are grouped.
    Question,
    /// The `:` of a ternary, before its branches are grouped.
    Colon,
    LeftParen,
    RightParen,
}

impl CalcElement {
    /// An equal copy of this element.
    pub fn dup(&self) -> (r: CalcElement)
        ensures
            r == *self,
    {
        match self {
            CalcElement::Integer(n) => CalcElement::Integer(*n),
            CalcElement::FloatLit(s) => CalcElement::FloatLit(s.clone()),
            CalcElement::Word(s, n) => CalcElement::Word(s.clone(), *n),
            CalcElement::BinaryOp(s) => CalcElement::BinaryOp(s.clone()),
            CalcElement::UnaryOp(s) => CalcElement::UnaryOp(s.clone()),
            CalcElement::Increment(n) => CalcElement::Increment(*n),
            CalcElement::TernaryOp => CalcElement::TernaryOp,
            CalcElement::Question => CalcElement::Question,
            CalcElement::Colon => CalcElement::Colon,
            CalcElement::LeftParen => CalcElement::LeftParen,
            CalcElement::RightParen => CalcElement::RightParen,
        }
    }
}

/// A typed arithmetic failure; never a crash.
#[derive(Clone, Copy, PartialEq, Eq, Structural, Debug)]
pub enum CalcError {
    DividedByZero,
    NegativeExponent,
    ShiftOutOfRange,
    NoOperand,
    InvalidIncrement,
    /// An assignment whose left side is a literal.  A parser never
    /// produces this shape, so the other branch of this library treats it
    /// as beyond recovery and aborts; verified code does not abort, so
    /// the evaluator reports the same condition as a typed failure.
    AssignmentToValue,
    NonNumericVariable,
    StackInconsistency,
    FloatUnsupported,
    UnknownOperator,
    UnbalancedParen,
    MisplacedTernary,
}

/// The message shown for each arithmetic failure.
pub open spec fn error_message_spec(e: CalcError) -> Seq<char> {
    match e {
        CalcError::DividedByZero => "divided by 0"@,
        CalcError::NegativeExponent => "exponent less than 0"@,
        CalcError::ShiftOutOfRange => "shift out of range"@,
        CalcError::NoOperand => "no operand"@,
        CalcError::InvalidIncrement => "invalid increment"@,
        CalcError::AssignmentToValue => "assignment to a value"@,
        CalcError::NonNumericVariable => "non-numeric variable"@,
        CalcError::StackInconsistency => "unknown syntax error (stack inconsistency)"@,
        CalcError::FloatUnsupported => "floating point not supported here"@,
        CalcError::UnknownOperator => "unknown operator"@,
        CalcError::UnbalancedParen => "unbalanced parenthesis"@,
        CalcError::MisplacedTernary => "misplaced ternary operator"@,
    }
}

impl CalcError {
    /// The message shown for this failure.
    pub fn message(&self) -> (r: String)
        ensures
            r@ == error_message_spec(*self),
    {
        proof {
            reveal_strlit("divided by 0");
            reveal_strlit("exponent less than 0");
            reveal_strlit("shift out of range");
            reveal_strlit("no operand");
            reveal_strlit("invalid increment");
            reveal_strlit("assignment to a value");
            reveal_strlit("non-numeric variable");
            reveal_strlit("unknown syntax error (stack inconsistency)");
            reveal_strlit("floating point not supported here");
            reveal_strlit("unknown operator");
            reveal_strlit("unbalanced parenthesis");
            reveal_strlit("misplaced ternary operator");
        }
        match self {
            CalcError::DividedByZero => "divided by 0".to_owned(),
            CalcError::NegativeExponent => "exponent less than 0".to_owned(),
            CalcError::ShiftOutOfRange => "shift out of range".to_owned(),
            CalcError::NoOperand => "no operand".to_owned(),
            CalcError::InvalidIncrement => "invalid increment".to_owned(),
            CalcError::AssignmentToValue => "assignment to a value".to_owned(),
            CalcError::NonNumericVariable => "non-numeric variable".to_owned(),
            CalcError::StackInconsistency => "unknown syntax error (stack inconsistency)".to_owned(),
            CalcError::FloatUnsupported => "floating point not supported here".to_owned(),
            CalcError::UnknownOperator => "unknown operator".to_owned(),
            CalcError::UnbalancedParen => "unbalanced parenthesis".to_owned(),
            CalcError::MisplacedTernary => "misplaced ternary operator".to_owned(),
        }
    }
}

/// Iterated wrapping multiplication: the value of `b ** e` in 64-bit
/// two's complement arithmetic.
pub open spec fn pow_wrap(b: i64, e: nat) -> i64
    decreases e,
{
    if e == 0 {
        1i64
    } else {
        i64_specs::wrapping_mul(pow_wrap(b, (e - 1) as nat), b)
    }
}

pub open spec fn b2i(b: bool) -> i64 {
    if b {
        1i64
    } else {
        0i64
    }
}

/// The exact value of a binary integer operator, or its typed failure.
/// Addition, subtraction, multiplication and exponentiation wrap; division
/// and remainder truncate toward zero and refuse a zero divisor;
/// exponentiation refuses a negative exponent; shifts refuse a shift amount
/// outside 0 to 63.
pub open spec fn bin_int_spec(op: Seq<char>, l: i64, r: i64) -> Result<i64, CalcError> {
    if op == "+"@ {
        Ok(i64_specs::wrapping_add(l, r))
    } else if op == "-"@ {
        Ok(i64_specs::wrapping_sub(l, r))
    } else if op == "*"@ {
        Ok(i64_specs::wrapping_mul(l, r))
    } else if op == "/"@ {
        if r == 0 {
            Err(CalcError::DividedByZero)
        } else {
            match l.checked_div(r) {
                Some(q) => Ok(q),
                None => Ok(i64::MIN),
            }
        }
    } else if op == "%"@ {
        if r == 0 {
            Err(CalcError::DividedByZero)
        } else {
            match l.checked_rem(r) {
                Some(m) => Ok(m),
                None => Ok(0i64),
            }
        }
    } else if op == "**"@ {
        if r < 0 {
            Err(CalcError::NegativeExponent)
        } else {
            Ok(pow_wrap(l, r as nat))
        }
    } else if op == "<="@ {
        Ok(b2i(l <= r))
    } else if op == ">="@ {
        Ok(b2i(l >= r))
    } else if op == "<"@ {
        Ok(b2i(l < r))
    } else if op == ">"@ {
        Ok(b2i(l > r))
    } else if op == "=="@ {
        Ok(b2i(l == r))
    } else if op == "!="@ {
        Ok(b2i(l != r))
    } else if op == "&&"@ {
        Ok(b2i(l != 0 && r != 0))
    } else if op == "||"@ {
        Ok(b2i(l != 0 || r != 0))
    } else if op == "&"@ {
        Ok(l & r)
    } else if op == "|"@ {
        Ok(l | r)
    } else if op == "^"@ {
        Ok(l ^ r)
    } else if op == "<<"@ {
        if 0 <= r < 64 {
            Ok(i64_specs::wrapping_shl(l, r as u32))
        } else {
            Err(CalcError::ShiftOutOfRange)
        }
    } else if op == ">>"@ {
        if 0 <= r < 64 {
            Ok(i64_specs::wrapping_shr(l, r as u32))
        } else {
            Err(CalcError::ShiftOutOfRange)
        }
    } else {
        Err(CalcError::UnknownOperator)
    }
}

/// The exact value of a unary integer operator.  `!` and `~` are
/// integer-only by nature; unary minus wraps on `i64::MIN`.
pub open spec fn unary_int_spec(op: Seq<char>, n: i64) -> Result<i64, CalcError> {
    if op == "+"@ {
        Ok(n)
    } else if op == "-"@ {
        Ok(i64_specs::wrapping_sub(0i64, n))
    } else if op == "!"@ {
        Ok(b2i(n == 0))
    } else if op == "~"@ {
        Ok((-1 - n) as i64)
    } else {
        Err(CalcError::UnknownOperator)
    }
}

/// Compute `bin_int_spec` for the operator text `op`.
pub fn bin_int(op: &str, l: i64, r: i64) -> (res: Result<i64, CalcError>)
    ensures
        res == bin_int_spec(op@, l, r),
{
    if str_eq(op, "+") {
        Ok(l.wrapping_add(r))
    } else if str_eq(op, "-") {
        Ok(l.wrapping_sub(r))
    } else if str_eq(op, "*") {
        Ok(l.wrapping_mul(r))
    } else if str_eq(op, "/") {
        if r == 0 {
            Err(CalcError::DividedByZero)
        } else {
            match l.checked_div(r) {
                Some(q) => Ok(q),
                None => Ok(i64::MIN),
            }
        }
    } else if str_eq(op, "%") {
        if r == 0 {
            Err(CalcError::DividedByZero)
        } else {
            match l.checked_rem(r) {
                Some(m) => Ok(m),
                None => Ok(0i64),
            }
        }
    } else if str_eq(op, "**") {
        if r < 0 {
            Err(CalcError::NegativeExponent)
        } else {
            let mut res: i64 = 1;
            let mut i: u64 = 0;
            let e = r as u64;
            while i < e
                invariant
                    0 <= i <= e,
                    e == r as u64,
                    r >= 0,
                    res == pow_wrap(l, i as nat),
                decreases e - i,
            {
                res = res.wrapping_mul(l);
                i = i + 1;
            }
            Ok(res)
        }
    } else if str_eq(op, "<=") {
        Ok(if l <= r { 1 } else { 0 })
    } else if str_eq(op, ">=") {
        Ok(if l >= r { 1 } else { 0 })
    } else if str_eq(op, "<") {
        Ok(if l < r { 1 } else { 0 })
    } else if str_eq(op, ">") {
        Ok(if l > r { 1 } else { 0 })
    } else if str_eq(op, "==") {
        Ok(if l == r { 1 } else { 0 })
    } else if str_eq(op, "!=") {
        Ok(if l != r { 1 } else { 0 })
    } else if str_eq(op, "&&") {
        Ok(if l != 0 && r != 0 { 1 } else { 0 })
    } else if str_eq(op, "||") {
        Ok(if l != 0 || r != 0 { 1 } else { 0 })
    } else if str_eq(op, "&") {
        Ok(l & r)
    } else if str_eq(op, "|") {
        Ok(l | r)
    } else if str_eq(op, "^") {
        Ok(l ^ r)
    } else if str_eq(op, "<<") {
        if 0 <= r && r < 64 {
            Ok(l.wrapping_shl(r as u32))
        } else {
            Err(CalcError::ShiftOutOfRange)
        }
    } else if str_eq(op, ">>") {
        if 0 <= r && r < 64 {
            Ok(l.wrapping_shr(r as u32))
        } else {
            Err(CalcError::ShiftOutOfRange)
        }
    } else {
        Err(CalcError::UnknownOperator)
    }
}

/// Compute `unary_int_spec` for the operator text `op`.
pub fn unary_int(op: &str, n: i64) -> (res: Result<i64, CalcError>)
    ensures
        res == unary_int_spec(op@, n),
{
    if str_eq(op, "+") {
        Ok(n)
    } else if str_eq(op, "-") {
        Ok((0i64).wrapping_sub(n))
    } else if str_eq(op, "!") {
        Ok(if n == 0 { 1 } else { 0 })
    } else if str_eq(op, "~") {
        Ok(-1 - n)
    } else {
        Err(CalcError::UnknownOperator)
    }
}

/// The assignment-class operators.
pub open spec fn is_assign_op(op: Seq<char>) -> bool {
    op == "="@ || op == "*="@ || op == "/="@ || op == "%="@ || op == "+="@ || op == "-="@ || op
        == "<<="@ || op == ">>="@ || op == "&="@ || op == "^="@ || op == "|="@
}

/// An element that can neither read nor write the variable table: not a
/// variable reference, an increment, or an assignment operator.
pub open spec fn elem_pure(e: CalcElement) -> bool {
    match e {
        CalcElement::Word(_, _) => false,
        CalcElement::Increment(_) => false,
        CalcElement::BinaryOp(op) => !is_assign_op(op@),
        _ => true,
    }
}

/// A sequence of pure elements: evaluating it, even to a typed failure,
/// leaves the variable table untouched.
pub open spec fn elems_pure(s: Seq<CalcElement>) -> bool {
    forall|i: int| 0 <= i < s.len() ==> elem_pure(#[trigger] s[i])
}

/// A stack without variable references: popping its operands writes
/// nothing back.
pub open spec fn stack_pure(s: Seq<CalcElement>) -> bool {
    forall|i: int| 0 <= i < s.len() ==> !((#[trigger] s[i]) is Word)
}

/// The arithmetic operator a compound assignment applies (`+=` applies `+`).
pub open spec fn assign_base(op: Seq<char>) -> Seq<char> {
    if op == "*="@ {
        "*"@
    } else if op == "/="@ {
        "/"@
    } else if op == "%="@ {
        "%"@
    } else if op == "+="@ {
        "+"@
    } else if op == "-="@ {
        "-"@
    } else if op == "<<="@ {
        "<<"@
    } else if op == ">>="@ {
        ">>"@
    } else if op == "&="@ {
        "&"@
    } else if op == "^="@ {
        "^"@
    } else if op == "|="@ {
        "|"@
    } else {
        Seq::empty()
    }
}

/// The integer value of a variable in arithmetic: unset or empty is 0, a
/// decimal literal is its value, anything else is a typed failure.
pub open spec fn var_int_spec(vars: Map<Seq<char>, Seq<char>>, name: Seq<char>) -> Result<
    i64,
    CalcError,
> {
    let s = var_value(vars, name);
    if s.len() == 0 {
        Ok(0i64)
    } else {
        match parse_i64_spec(s) {
            Some(v) => Ok(v as i64),
            None => Err(CalcError::NonNumericVariable),
        }
    }
}

/// Resolving an operand element to its integer value, with the updated
/// variable table: a literal is itself; a variable reference reads the
/// table, applies the pre-increment `pre` and its own post-increment,
/// writes the updated value back when either is nonzero, and yields the
/// pre-incremented (not post-incremented) value.
pub open spec fn operand_value_spec(
    e: CalcElement,
    pre: i64,
    vars: Map<Seq<char>, Seq<char>>,
) -> Result<(i64, Map<Seq<char>, Seq<char>>), CalcError> {
    match e {
        CalcElement::Integer(n) => if pre == 0 {
            Ok((n, vars))
        } else {
            Err(CalcError::InvalidIncrement)
        },
        CalcElement::Word(name, post) => match var_int_spec(vars, name@) {
            Err(er) => Err(er),
            Ok(cur) => {
                let pushed = i64_specs::wrapping_add(cur, pre);
                let newv = i64_specs::wrapping_add(pushed, post);
                if pre == 0 && post == 0 {
                    Ok((cur, vars))
                } else {
                    Ok((pushed, vars.insert(name@, i64_to_dec(newv as int))))
                }
            },
        },
        CalcElement::FloatLit(_) => Err(CalcError::FloatUnsupported),
        _ => Err(CalcError::NoOperand),
    }
}

/// One binary operator applied to the stack: the right then the left
/// operand are resolved, the operator's value is pushed.
pub open spec fn bin_step_spec(
    op: Seq<char>,
    stack: Seq<CalcElement>,
    vars: Map<Seq<char>, Seq<char>>,
) -> Result<(Seq<CalcElement>, Map<Seq<char>, Seq<char>>), CalcError> {
    if stack.len() < 2 {
        Err(CalcError::NoOperand)
    } else {
        match operand_value_spec(stack.last(), 0, vars) {
            Err(er) => Err(er),
            Ok((rv, vars1)) => match operand_value_spec(stack[stack.len() - 2], 0, vars1) {
                Err(er) => Err(er),
                Ok((lv, vars2)) => match bin_int_spec(op, lv, rv) {
                    Err(er) => Err(er),
                    Ok(res) => Ok(
                        (stack.drop_last().drop_last().push(CalcElement::Integer(res)), vars2),
                    ),
                },
            },
        }
    }
}

/// An assignment operator applied to the stack: the right operand is
/// resolved, the left operand must be a plain variable reference, and the
/// assigned value is written back and pushed for chaining.
pub open spec fn subst_spec(
    op: Seq<char>,
    stack: Seq<CalcElement>,
    vars: Map<Seq<char>, Seq<char>>,
) -> Result<(Seq<CalcElement>, Map<Seq<char>, Seq<char>>), CalcError> {
    if stack.len() < 2 {
        Err(CalcError::NoOperand)
    } else {
        match operand_value_spec(stack.last(), 0, vars) {
            Err(er) => Err(er),
            Ok((rv, vars1)) => match stack[stack.len() - 2] {
                CalcElement::Word(name, post) => if post != 0 {
                    Err(CalcError::InvalidIncrement)
                } else if op == "="@ {
                    Ok(
                        (
                            stack.drop_last().drop_last().push(CalcElement::Integer(rv)),
                            vars1.insert(name@, i64_to_dec(rv as int)),
                        ),
                    )
                } else {
                    match var_int_spec(vars1, name@) {
                        Err(er) => Err(er),
                        Ok(cur) => match bin_int_spec(assign_base(op), cur, rv) {
                            Err(er) => Err(er),
                            Ok(nv) => Ok(
                                (
                                    stack.drop_last().drop_last().push(CalcElement::Integer(nv)),
                                    vars1.insert(name@, i64_to_dec(nv as int)),
                                ),
                            ),
                        },
                    }
                },
                _ => Err(CalcError::AssignmentToValue),
            },
        }
    }
}

/// The ternary applied to the stack: both branch values and the condition
/// are resolved (in stack order) and the chosen branch's value is pushed.
pub open spec fn ternary_step_spec(
    stack: Seq<CalcElement>,
    vars: Map<Seq<char>, Seq<char>>,
) -> Result<(Seq<CalcElement>, Map<Seq<char>, Seq<char>>), CalcError> {
    if stack.len() < 3 {
        Err(CalcError::NoOperand)
    } else {
        match operand_value_spec(stack.last(), 0, vars) {
            Err(er) => Err(er),
            Ok((bv, vars1)) => match operand_value_spec(stack[stack.len() - 2], 0, vars1) {
                Err(er) => Err(er),
                Ok((av, vars2)) => match operand_value_spec(stack[stack.len() - 3], 0, vars2) {
                    Err(er) => Err(er),
                    Ok((cv, vars3)) => Ok(
                        (
                            stack.drop_last().drop_last().drop_last().push(
                                CalcElement::Integer(if cv != 0 { av } else { bv }),
                            ),
                            vars3,
                        ),
                    ),
                },
            },
        }
    }
}

/// One reverse-Polish evaluation step: operands push themselves, operators
/// pop and apply.
pub open spec fn step_spec(
    stack: Seq<CalcElement>,
    e: CalcElement,
    vars: Map<Seq<char>, Seq<char>>,
) -> Result<(Seq<CalcElement>, Map<Seq<char>, Seq<char>>), CalcError> {
    match e {
        CalcElement::Integer(_) => Ok((stack.push(e), vars)),
        CalcElement::FloatLit(_) => Ok((stack.push(e), vars)),
        CalcElement::Word(_, _) => Ok((stack.push(e), vars)),
        CalcElement::BinaryOp(op) => if is_assign_op(op@) {
            subst_spec(op@, stack, vars)
        } else {
            bin_step_spec(op@, stack, vars)
        },
        CalcElement::UnaryOp(op) => if stack.len() == 0 {
            Err(CalcError::NoOperand)
        } else {
            match operand_value_spec(stack.last(), 0, vars) {
                Err(er) => Err(er),
                Ok((v, vars1)) => match unary_int_spec(op@, v) {
                    Err(er) => Err(er),
                    Ok(res) => Ok((stack.drop_last().push(CalcElement::Integer(res)), vars1)),
                },
            }
        },
        CalcElement::Increment(n) => if stack.len() == 0 {
            Err(CalcError::InvalidIncrement)
        } else {
            match stack.last() {
                CalcElement::Word(_, _) => match operand_value_spec(stack.last(), n, vars) {
                    Err(er) => Err(er),
                    Ok((v, vars1)) => Ok((stack.drop_last().push(CalcElement::Integer(v)), vars1)),
                },
                _ => Err(CalcError::InvalidIncrement),
            }
        },
        CalcElement::TernaryOp => ternary_step_spec(stack, vars),
        CalcElement::Question => Err(CalcError::MisplacedTernary),
        CalcElement::Colon => Err(CalcError::MisplacedTernary),
        CalcElement::LeftParen => Err(CalcError::UnbalancedParen),
        CalcElement::RightParen => Err(CalcError::UnbalancedParen),
    }
}

/// Evaluation of a reverse-Polish sequence from position `i` with the given
/// stack and variable table.
pub open spec fn eval_rpn_spec(
    elems: Seq<CalcElement>,
    i: int,
    stack: Seq<CalcElement>,
    vars: Map<Seq<char>, Seq<char>>,
) -> Result<(Seq<CalcElement>, Map<Seq<char>, Seq<char>>), CalcError>
    decreases elems.len() - i,
    when 0 <= i <= elems.len()
{
    if i >= elems.len() {
        Ok((stack, vars))
    } else {
        match step_spec(stack, elems[i], vars) {
            Err(er) => Err(er),
            Ok((s2, v2)) => eval_rpn_spec(elems, i + 1, s2, v2),
        }
    }
}

/// Binding strength of a binary operator; higher binds tighter.  The comma
/// is weakest, assignments next, then the usual C ladder up to `**`.
pub open spec fn prec_of(op: Seq<char>) -> int {
    if is_assign_op(op) {
        1
    } else if op == "||"@ {
        3
    } else if op == "&&"@ {
        4
    } else if op == "|"@ {
        5
    } else if op == "^"@ {
        6
    } else if op == "&"@ {
        7
    } else if op == "=="@ || op == "!="@ {
        8
    } else if op == "<"@ || op == "<="@ || op == ">"@ || op == ">="@ {
        9
    } else if op == "<<"@ || op == ">>"@ {
        10
    } else if op == "+"@ || op == "-"@ {
        11
    } else if op == "*"@ || op == "/"@ || op == "%"@ {
        12
    } else if op == "**"@ {
        13
    } else {
        0
    }
}

pub open spec fn right_assoc(op: Seq<char>) -> bool {
    is_assign_op(op) || op == "**"@
}

/// Whether the operator `top` of the pending stack is emitted before an
/// incoming operator of strength `p`: pending unary operators always are;
/// a pending binary operator is when it binds tighter, or equally tightly
/// for a left-associative incoming operator.  Parentheses and the pending
/// parts of a ternary act as barriers.
pub open spec fn should_pop_spec(top: CalcElement, p: int, right: bool) -> bool {
    match top {
        CalcElement::UnaryOp(_) => true,
        CalcElement::Increment(_) => true,
        CalcElement::BinaryOp(op) => prec_of(op@) > p || (prec_of(op@) == p && !right),
        _ => false,
    }
}

/// Emit pending operators for an incoming operator of strength `p`.
pub open spec fn pop_while_spec(
    ops: Seq<CalcElement>,
    out: Seq<CalcElement>,
    p: int,
    right: bool,
) -> (Seq<CalcElement>, Seq<CalcElement>)
    decreases ops.len(),
{
    if ops.len() > 0 && should_pop_spec(ops.last(), p, right) {
        pop_while_spec(ops.drop_last(), out.push(ops.last()), p, right)
    } else {
        (ops, out)
    }
}

/// Emit pending operators for an incoming `:` down to its `?`, which turns
/// into a pending `:`.
pub open spec fn pop_until_question_spec(
    ops: Seq<CalcElement>,
    out: Seq<CalcElement>,
) -> Result<(Seq<CalcElement>, Seq<CalcElement>), CalcError>
    decreases ops.len(),
{
    if ops.len() == 0 {
        Err(CalcError::MisplacedTernary)
    } else {
        match ops.last() {
            CalcElement::Question => Ok((ops.drop_last().push(CalcElement::Colon), out)),
            CalcElement::Colon => Err(CalcError::MisplacedTernary),
            CalcElement::LeftParen => Err(CalcError::MisplacedTernary),
            _ => pop_until_question_spec(ops.drop_last(), out.push(ops.last())),
        }
    }
}

/// Emit pending operators for a closing parenthesis down to its opening
/// one; a completed ternary on the way out emits its operator.
pub open spec fn pop_until_lparen_spec(
    ops: Seq<CalcElement>,
    out: Seq<CalcElement>,
) -> Result<(Seq<CalcElement>, Seq<CalcElement>), CalcError>
    decreases ops.len(),
{
    if ops.len() == 0 {
        Err(CalcError::UnbalancedParen)
    } else {
        match ops.last() {
            CalcElement::LeftParen => Ok((ops.drop_last(), out)),
            CalcElement::Question => Err(CalcError::MisplacedTernary),
            CalcElement::Colon => pop_until_lparen_spec(
                ops.drop_last(),
                out.push(CalcElement::TernaryOp),
            ),
            _ => pop_until_lparen_spec(ops.drop_last(), out.push(ops.last())),
        }
    }
}

/// Emit every pending operator at the end of the expression.
pub open spec fn pop_all_spec(ops: Seq<CalcElement>, out: Seq<CalcElement>) -> Result<
    Seq<CalcElement>,
    CalcError,
>
    decreases ops.len(),
{
    if ops.len() == 0 {
        Ok(out)
    } else {
        match ops.last() {
            CalcElement::LeftParen => Err(CalcError::UnbalancedParen),
            CalcElement::Question => Err(CalcError::MisplacedTernary),
            CalcElement::Colon => pop_all_spec(ops.drop_last(), out.push(CalcElement::TernaryOp)),
            _ => pop_all_spec(ops.drop_last(), out.push(ops.last())),
        }
    }
}

/// The exact reverse-Polish rearrangement, from position `i` with the
/// pending-operator stack `ops` and the output accumulated so far.
pub open spec fn rearrange_from(
    elems: Seq<CalcElement>,
    i: int,
    ops: Seq<CalcElement>,
    out: Seq<CalcElement>,
) -> Result<Seq<CalcElement>, CalcError>
    decreases elems.len() - i,
    when 0 <= i <= elems.len()
{
    if i >= elems.len() {
        pop_all_spec(ops, out)
    } else {
        let e = elems[i];
        match e {
            CalcElement::Integer(_) => rearrange_from(elems, i + 1, ops, out.push(e)),
            CalcElement::FloatLit(_) => rearrange_from(elems, i + 1, ops, out.push(e)),
            CalcElement::Word(_, _) => rearrange_from(elems, i + 1, ops, out.push(e)),
            CalcElement::UnaryOp(_) => rearrange_from(elems, i + 1, ops.push(e), out),
            CalcElement::Increment(_) => rearrange_from(elems, i + 1, ops.push(e), out),
            CalcElement::LeftParen => rearrange_from(elems, i + 1, ops.push(e), out),
            CalcElement::RightParen => match pop_until_lparen_spec(ops, out) {
                Err(er) => Err(er),
                Ok((o2, u2)) => rearrange_from(elems, i + 1, o2, u2),
            },
            CalcElement::Question => {
                let (o2, u2) = pop_while_spec(ops, out, 2, true);
                rearrange_from(elems, i + 1, o2.push(CalcElement::Question), u2)
            },
            CalcElement::Colon => match pop_until_question_spec(ops, out) {
                Err(er) => Err(er),
                Ok((o2, u2)) => rearrange_from(elems, i + 1, o2, u2),
            },
            CalcElement::TernaryOp => Err(CalcError::MisplacedTernary),
            CalcElement::BinaryOp(op) => {
                let (o2, u2) = pop_while_spec(ops, out, prec_of(op@), right_assoc(op@));
                rearrange_from(elems, i + 1, o2.push(e), u2)
            },
        }
    }
}

/// The reverse-Polish form of an element sequence.
pub open spec fn rearrange_spec(elems: Seq<CalcElement>) -> Result<Seq<CalcElement>, CalcError> {
    rearrange_from(elems, 0, Seq::empty(), Seq::empty())
}

/// The result of one comma segment: its reverse-Polish form evaluated to a
/// single resolved value (an empty segment is 0).
pub open spec fn calc_seg_spec(seg: Seq<CalcElement>, vars: Map<Seq<char>, Seq<char>>) -> Result<
    (i64, Map<Seq<char>, Seq<char>>),
    CalcError,
> {
    if seg.len() == 0 {
        Ok((0i64, vars))
    } else {
        match rearrange_spec(seg) {
            Err(er) => Err(er),
            Ok(rpn) => match eval_rpn_spec(rpn, 0, Seq::empty(), vars) {
                Err(er) => Err(er),
                Ok((stack, v2)) => if stack.len() != 1 {
                    Err(CalcError::StackInconsistency)
                } else {
                    match operand_value_spec(stack[0], 0, v2) {
                        Err(er) => Err(er),
                        Ok((n, v3)) => Ok((n, v3)),
                    }
                },
            },
        }
    }
}

/// Position of the next comma at parenthesis depth zero, from `i` at depth
/// `depth`; the sequence's length when there is none.
pub open spec fn next_comma(elems: Seq<CalcElement>, i: int, depth: int) -> int
    decreases elems.len() - i,
    when 0 <= i <= elems.len()
{
    if i >= elems.len() {
        elems.len() as int
    } else {
        match elems[i] {
            CalcElement::LeftParen => next_comma(elems, i + 1, depth + 1),
            CalcElement::RightParen => next_comma(elems, i + 1, depth - 1),
            CalcElement::BinaryOp(op) => if op@ == ","@ && depth == 0 {
                i
            } else {
                next_comma(elems, i + 1, depth)
            },
            _ => next_comma(elems, i + 1, depth),
        }
    }
}

/// The value of a whole expression from position `i`: each comma segment is
/// evaluated in turn, and the final segment's value is the result.
pub open spec fn calc_from_spec(
    elems: Seq<CalcElement>,
    i: int,
    vars: Map<Seq<char>, Seq<char>>,
) -> Result<(i64, Map<Seq<char>, Seq<char>>), CalcError>
    decreases elems.len() - i,
    when 0 <= i <= elems.len()
{
    let j0 = next_comma(elems, i, 0);
    let j = if j0 < i {
        i
    } else if j0 > elems.len() {
        elems.len() as int
    } else {
        j0
    };
    match calc_seg_spec(elems.subrange(i, j), vars) {
        Err(er) => Err(er),
        Ok((v, v2)) => if j >= elems.len() {
            Ok((v, v2))
        } else {
            calc_from_spec(elems, j + 1, v2)
        },
    }
}

/// The value of a whole arithmetic expression and the variable table it
/// leaves behind.
pub open spec fn calculate_spec(elems: Seq<CalcElement>, vars: Map<Seq<char>, Seq<char>>) -> Result<
    (i64, Map<Seq<char>, Seq<char>>),
    CalcError,
> {
    calc_from_spec(elems, 0, vars)
}

/// The integer value of the variable `name`, per `var_int_spec`.
fn var_int(core: &ShellCore, name: &str) -> (r: Result<i64, CalcError>)
    ensures
        match var_int_spec(core.vars_map(), name@) {
            Ok(v) => r == Ok::<i64, CalcError>(v),
            Err(er) => r == Err::<i64, CalcError>(er),
        },
{
    let value = core.get_var(name);
    if value.as_str().unicode_len() == 0 {
        Ok(0)
    } else {
        match parse_i64(value.as_str()) {
            Ok(v) => Ok(v),
            Err(()) => Err(CalcError::NonNumericVariable),
        }
    }
}

/// Resolve one operand element, per `operand_value_spec`.
fn operand_value(e: &CalcElement, pre: i64, core: &mut ShellCore) -> (r: Result<i64, CalcError>)
    ensures
        final(core).history == old(core).history,
        final(core).job_table == old(core).job_table,
        match operand_value_spec(*e, pre, old(core).vars_map()) {
            Ok((v, m)) => r == Ok::<i64, CalcError>(v) && final(core).vars_map() == m,
            Err(er) => r == Err::<i64, CalcError>(er) && final(core).vars_map() == old(core).vars_map(),
        },
{
    match e {
        CalcElement::Integer(n) => if pre == 0 {
            Ok(*n)
        } else {
            Err(CalcError::InvalidIncrement)
        },
        CalcElement::Word(name, post) => {
            let cur = match var_int(core, name.as_str()) {
                Ok(v) => v,
                Err(er) => {
                    return Err(er);
                },
            };
            let pushed = cur.wrapping_add(pre);
            let newv = pushed.wrapping_add(*post);
            if pre != 0 || *post != 0 {
                let s = i64_to_string(newv);
                core.set_var(name.as_str(), s.as_str());
            }
            Ok(pushed)
        },
        CalcElement::FloatLit(_) => Err(CalcError::FloatUnsupported),
        _ => Err(CalcError::NoOperand),
    }
}

/// Pop the topmost stack element and resolve it to an integer element.
/// The element is removed even when resolving it fails.
pub fn pop_operand(stack: &mut Vec<CalcElement>, core: &mut ShellCore) -> (r: Result<
    CalcElement,
    CalcError,
>)
    ensures
        final(core).history == old(core).history,
        final(core).job_table == old(core).job_table,
        old(stack)@.len() == 0 ==> r == Err::<CalcElement, CalcError>(CalcError::NoOperand)
            && final(stack)@ == old(stack)@ && *final(core) == *old(core),
        old(stack)@.len() > 0 ==> (final(stack)@ == old(stack)@.drop_last() && (match
        operand_value_spec(old(stack)@.last(), 0, old(core).vars_map()) {
            Ok((v, m)) => r == Ok::<CalcElement, CalcError>(CalcElement::Integer(v)) && final(core).vars_map() == m,
            Err(er) => r == Err::<CalcElement, CalcError>(er) && final(core).vars_map() == old(core).vars_map(),
        })),
{
    let e = match stack.pop() {
        Some(e) => e,
        None => {
            return Err(CalcError::NoOperand);
        },
    };
    match operand_value(&e, 0, core) {
        Ok(v) => Ok(CalcElement::Integer(v)),
        Err(er) => Err(er),
    }
}

/// Apply a non-assignment binary operator to the stack, per
/// `bin_step_spec`.
fn bin_calc_operation(op: &str, stack: &mut Vec<CalcElement>, core: &mut ShellCore) -> (r: Result<
    (),
    CalcError,
>)
    ensures
        final(core).history == old(core).history,
        final(core).job_table == old(core).job_table,
        stack_pure(old(stack)@) ==> final(core).vars_map() == old(core).vars_map() && stack_pure(
            final(stack)@,
        ),
        match bin_step_spec(op@, old(stack)@, old(core).vars_map()) {
            Ok((s2, m)) => r is Ok && final(stack)@ == s2 && final(core).vars_map() == m,
            Err(er) => r == Err::<(), CalcError>(er),
        },
{
    let n = stack.len();
    if n < 2 {
        return Err(CalcError::NoOperand);
    }
    let rv = match operand_value(&stack[n - 1], 0, core) {
        Ok(v) => v,
        Err(er) => {
            return Err(er);
        },
    };
    let lv = match operand_value(&stack[n - 2], 0, core) {
        Ok(v) => v,
        Err(er) => {
            return Err(er);
        },
    };
    let res = match bin_int(op, lv, rv) {
        Ok(v) => v,
        Err(er) => {
            return Err(er);
        },
    };
    stack.pop();
    stack.pop();
    stack.push(CalcElement::Integer(res));
    Ok(())
}

fn assign_base_str(op: &str) -> (r: &'static str)
    ensures
        r@ == assign_base(op@),
{
    proof {
        reveal_strlit("*=");
        reveal_strlit("/=");
        reveal_strlit("%=");
        reveal_strlit("+=");
        reveal_strlit("-=");
        reveal_strlit("<<=");
        reveal_strlit(">>=");
        reveal_strlit("&=");
        reveal_strlit("^=");
        reveal_strlit("|=");
    }
    if str_eq(op, "*=") {
        "*"
    } else if str_eq(op, "/=") {
        "/"
    } else if str_eq(op, "%=") {
        "%"
    } else if str_eq(op, "+=") {
        "+"
    } else if str_eq(op, "-=") {
        "-"
    } else if str_eq(op, "<<=") {
        "<<"
    } else if str_eq(op, ">>=") {
        ">>"
    } else if str_eq(op, "&=") {
        "&"
    } else if str_eq(op, "^=") {
        "^"
    } else if str_eq(op, "|=") {
        "|"
    } else {
        proof {
            reveal_strlit("");
            assert(""@ =~= Seq::<char>::empty());
        }
        ""
    }
}

fn is_assign_op_exec(op: &str) -> (r: bool)
    ensures
        r == is_assign_op(op@),
{
    str_eq(op, "=") || str_eq(op, "*=") || str_eq(op, "/=") || str_eq(op, "%=") || str_eq(op, "+=")
        || str_eq(op, "-=") || str_eq(op, "<<=") || str_eq(op, ">>=") || str_eq(op, "&=") || str_eq(
        op,
        "^=",
    ) || str_eq(op, "|=")
}

/// Apply an assignment operator to the stack, per `subst_spec`.
fn substitution(op: &str, stack: &mut Vec<CalcElement>, core: &mut ShellCore) -> (r: Result<
    (),
    CalcError,
>)
    ensures
        final(core).history == old(core).history,
        final(core).job_table == old(core).job_table,
        stack_pure(old(stack)@) ==> final(core).vars_map() == old(core).vars_map() && stack_pure(
            final(stack)@,
        ),
        match subst_spec(op@, old(stack)@, old(core).vars_map()) {
            Ok((s2, m)) => r is Ok && final(stack)@ == s2 && final(core).vars_map() == m,
            Err(er) => r == Err::<(), CalcError>(er),
        },
{
    let n = stack.len();
    if n < 2 {
        return Err(CalcError::NoOperand);
    }
    let rv = match operand_value(&stack[n - 1], 0, core) {
        Ok(v) => v,
        Err(er) => {
            return Err(er);
        },
    };
    let (name, post) = match &stack[n - 2] {
        CalcElement::Word(name, post) => (name.clone(), *post),
        _ => {
            return Err(CalcError::AssignmentToValue);
        },
    };
    if post != 0 {
        return Err(CalcError::InvalidIncrement);
    }
    let nv: i64;
    if str_eq(op, "=") {
        nv = rv;
    } else {
        let cur = match var_int(core, name.as_str()) {
            Ok(v) => v,
            Err(er) => {
                return Err(er);
            },
        };
        nv = match bin_int(assign_base_str(op), cur, rv) {
            Ok(v) => v,
            Err(er) => {
                return Err(er);
            },
        };
    }
    let s = i64_to_string(nv);
    core.set_var(name.as_str(), s.as_str());
    stack.pop();
    stack.pop();
    stack.push(CalcElement::Integer(nv));
    Ok(())
}

/// Dispatch a binary operator: assignment class or plain calculation.
fn bin_operation(op: &str, stack: &mut Vec<CalcElement>, core: &mut ShellCore) -> (r: Result<
    (),
    CalcError,
>)
    ensures
        final(core).history == old(core).history,
        final(core).job_table == old(core).job_table,
        stack_pure(old(stack)@) ==> final(core).vars_map() == old(core).vars_map() && stack_pure(
            final(stack)@,
        ),
        match (if is_assign_op(op@) {
            subst_spec(op@, old(stack)@, old(core).vars_map())
        } else {
            bin_step_spec(op@, old(stack)@, old(core).vars_map())
        }) {
            Ok((s2, m)) => r is Ok && final(stack)@ == s2 && final(core).vars_map() == m,
            Err(er) => r == Err::<(), CalcError>(er),
        },
{
    if is_assign_op_exec(op) {
        substitution(op, stack, core)
    } else {
        bin_calc_operation(op, stack, core)
    }
}

/// Apply a unary operator to the stack.
fn unary_operation(op: &str, stack: &mut Vec<CalcElement>, core: &mut ShellCore) -> (r: Result<
    (),
    CalcError,
>)
    ensures
        final(core).history == old(core).history,
        final(core).job_table == old(core).job_table,
        stack_pure(old(stack)@) ==> final(core).vars_map() == old(core).vars_map() && stack_pure(
            final(stack)@,
        ),
        old(stack)@.len() == 0 ==> r == Err::<(), CalcError>(CalcError::NoOperand) && *final(stack)
            == *old(stack) && *final(core) == *old(core),
        old(stack)@.len() > 0 ==> match operand_value_spec(
            old(stack)@.last(),
            0,
            old(core).vars_map(),
        ) {
            Err(er) => r == Err::<(), CalcError>(er),
            Ok((v, m)) => match unary_int_spec(op@, v) {
                Err(er) => r == Err::<(), CalcError>(er),
                Ok(res) => r is Ok && final(stack)@ == old(stack)@.drop_last().push(
                    CalcElement::Integer(res),
                ) && final(core).vars_map() == m,
            },
        },
{
    let n = stack.len();
    if n == 0 {
        return Err(CalcError::NoOperand);
    }
    let v = match operand_value(&stack[n - 1], 0, core) {
        Ok(v) => v,
        Err(er) => {
            return Err(er);
        },
    };
    let res = match unary_int(op, v) {
        Ok(v) => v,
        Err(er) => {
            return Err(er);
        },
    };
    stack.pop();
    stack.push(CalcElement::Integer(res));
    Ok(())
}

/// Apply a pre-increment to the variable reference on top of the stack.
fn inc(n: i64, stack: &mut Vec<CalcElement>, core: &mut ShellCore) -> (r: Result<(), CalcError>)
    ensures
        final(core).history == old(core).history,
        final(core).job_table == old(core).job_table,
        stack_pure(old(stack)@) ==> final(core).vars_map() == old(core).vars_map() && stack_pure(
            final(stack)@,
        ),
        match step_spec(old(stack)@, CalcElement::Increment(n), old(core).vars_map()) {
            Ok((s2, m)) => r is Ok && final(stack)@ == s2 && final(core).vars_map() == m,
            Err(er) => r == Err::<(), CalcError>(er),
        },
{
    let len = stack.len();
    if len == 0 {
        return Err(CalcError::InvalidIncrement);
    }
    let is_word = match &stack[len - 1] {
        CalcElement::Word(_, _) => true,
        _ => false,
    };
    if !is_word {
        return Err(CalcError::InvalidIncrement);
    }
    let v = match operand_value(&stack[len - 1], n, core) {
        Ok(v) => v,
        Err(er) => {
            return Err(er);
        },
    };
    stack.pop();
    stack.push(CalcElement::Integer(v));
    Ok(())
}

/// Apply the ternary to the stack, per `ternary_step_spec`.
fn ternary_operation(stack: &mut Vec<CalcElement>, core: &mut ShellCore) -> (r: Result<
    (),
    CalcError,
>)
    ensures
        final(core).history == old(core).history,
        final(core).job_table == old(core).job_table,
        stack_pure(old(stack)@) ==> final(core).vars_map() == old(core).vars_map() && stack_pure(
            final(stack)@,
        ),
        match ternary_step_spec(old(stack)@, old(core).vars_map()) {
            Ok((s2, m)) => r is Ok && final(stack)@ == s2 && final(core).vars_map() == m,
            Err(er) => r == Err::<(), CalcError>(er),
        },
{
    let n = stack.len();
    if n < 3 {
        return Err(CalcError::NoOperand);
    }
    let bv = match operand_value(&stack[n - 1], 0, core) {
        Ok(v) => v,
        Err(er) => {
            return Err(er);
        },
    };
    let av = match operand_value(&stack[n - 2], 0, core) {
        Ok(v) => v,
        Err(er) => {
            return Err(er);
        },
    };
    let cv = match operand_value(&stack[n - 3], 0, core) {
        Ok(v) => v,
        Err(er) => {
            return Err(er);
        },
    };
    stack.pop();
    stack.pop();
    stack.pop();
    stack.push(CalcElement::Integer(if cv != 0 { av } else { bv }));
    Ok(())
}

fn prec_exec(op: &str) -> (p: u32)
    ensures
        p as int == prec_of(op@),
{
    if is_assign_op_exec(op) {
        1
    } else if str_eq(op, "||") {
        3
    } else if str_eq(op, "&&") {
        4
    } else if str_eq(op, "|") {
        5
    } else if str_eq(op, "^") {
        6
    } else if str_eq(op, "&") {
        7
    } else if str_eq(op, "==") || str_eq(op, "!=") {
        8
    } else if str_eq(op, "<") || str_eq(op, "<=") || str_eq(op, ">") || str_eq(op, ">=") {
        9
    } else if str_eq(op, "<<") || str_eq(op, ">>") {
        10
    } else if str_eq(op, "+") || str_eq(op, "-") {
        11
    } else if str_eq(op, "*") || str_eq(op, "/") || str_eq(op, "%") {
        12
    } else if str_eq(op, "**") {
        13
    } else {
        0
    }
}

fn right_assoc_exec(op: &str) -> (r: bool)
    ensures
        r == right_assoc(op@),
{
    is_assign_op_exec(op) || str_eq(op, "**")
}

fn should_pop(top: &CalcElement, p: u32, right: bool) -> (r: bool)
    ensures
        r == should_pop_spec(*top, p as int, right),
{
    match top {
        CalcElement::UnaryOp(_) => true,
        CalcElement::Increment(_) => true,
        CalcElement::BinaryOp(op) => {
            let tp = prec_exec(op.as_str());
            tp > p || (tp == p && !right)
        },
        _ => false,
    }
}

/// Emit pending operators for an incoming operator of strength `p`, per
/// `pop_while_spec`.
fn flush_for_op(ops: &mut Vec<CalcElement>, out: &mut Vec<CalcElement>, p: u32, right: bool)
    ensures
        final(ops)@ == pop_while_spec(old(ops)@, old(out)@, p as int, right).0,
        final(out)@ == pop_while_spec(old(ops)@, old(out)@, p as int, right).1,
        elems_pure(old(ops)@) && elems_pure(old(out)@) ==> elems_pure(final(ops)@) && elems_pure(
            final(out)@,
        ),
{
    while ops.len() > 0 && should_pop(&ops[ops.len() - 1], p, right)
        invariant
            pop_while_spec(ops@, out@, p as int, right) == pop_while_spec(
                old(ops)@,
                old(out)@,
                p as int,
                right,
            ),
            elems_pure(old(ops)@) && elems_pure(old(out)@) ==> elems_pure(ops@) && elems_pure(
                out@,
            ),
        decreases ops@.len(),
    {
        match ops.pop() {
            Some(top) => out.push(top),
            None => {},
        }
    }
}

/// Emit pending operators for an incoming `:`, per
/// `pop_until_question_spec`.
fn flush_for_colon(ops: &mut Vec<CalcElement>, out: &mut Vec<CalcElement>) -> (r: Result<
    (),
    CalcError,
>)
    ensures
        match pop_until_question_spec(old(ops)@, old(out)@) {
            Ok((o2, u2)) => r is Ok && final(ops)@ == o2 && final(out)@ == u2,
            Err(er) => r == Err::<(), CalcError>(er),
        },
        elems_pure(old(ops)@) && elems_pure(old(out)@) ==> elems_pure(final(ops)@) && elems_pure(
            final(out)@,
        ),
{
    while ops.len() > 0
        invariant
            pop_until_question_spec(ops@, out@) == pop_until_question_spec(old(ops)@, old(out)@),
            elems_pure(old(ops)@) && elems_pure(old(out)@) ==> elems_pure(ops@) && elems_pure(
                out@,
            ),
        decreases ops@.len(),
    {
        let top = match ops.pop() {
            Some(top) => top,
            None => {
                return Err(CalcError::MisplacedTernary);
            },
        };
        match top {
            CalcElement::Question => {
                ops.push(CalcElement::Colon);
                return Ok(());
            },
            CalcElement::Colon => {
                return Err(CalcError::MisplacedTernary);
            },
            CalcElement::LeftParen => {
                return Err(CalcError::MisplacedTernary);
            },
            other => out.push(other),
        }
    }
    Err(CalcError::MisplacedTernary)
}

/// Emit pending operators for a closing parenthesis, per
/// `pop_until_lparen_spec`.
fn flush_for_rparen(ops: &mut Vec<CalcElement>, out: &mut Vec<CalcElement>) -> (r: Result<
    (),
    CalcError,
>)
    ensures
        match pop_until_lparen_spec(old(ops)@, old(out)@) {
            Ok((o2, u2)) => r is Ok && final(ops)@ == o2 && final(out)@ == u2,
            Err(er) => r == Err::<(), CalcError>(er),
        },
        elems_pure(old(ops)@) && elems_pure(old(out)@) ==> elems_pure(final(ops)@) && elems_pure(
            final(out)@,
        ),
{
    while ops.len() > 0
        invariant
            pop_until_lparen_spec(ops@, out@) == pop_until_lparen_spec(old(ops)@, old(out)@),
            elems_pure(old(ops)@) && elems_pure(old(out)@) ==> elems_pure(ops@) && elems_pure(
                out@,
            ),
        decreases ops@.len(),
    {
        let top = match ops.pop() {
            Some(top) => top,
            None => {
                return Err(CalcError::UnbalancedParen);
            },
        };
        match top {
            CalcElement::LeftParen => {
                return Ok(());
            },
            CalcElement::Question => {
                return Err(CalcError::MisplacedTernary);
            },
            CalcElement::Colon => out.push(CalcElement::TernaryOp),
            other => out.push(other),
        }
    }
    Err(CalcError::UnbalancedParen)
}

/// Emit every pending operator at the end, per `pop_all_spec`.
fn flush_all(ops: &mut Vec<CalcElement>, out: &mut Vec<CalcElement>) -> (r: Result<(), CalcError>)
    ensures
        match pop_all_spec(old(ops)@, old(out)@) {
            Ok(u2) => r is Ok && final(out)@ == u2,
            Err(er) => r == Err::<(), CalcError>(er),
        },
        elems_pure(old(ops)@) && elems_pure(old(out)@) ==> elems_pure(final(out)@),
{
    while ops.len() > 0
        invariant
            pop_all_spec(ops@, out@) == pop_all_spec(old(ops)@, old(out)@),
            elems_pure(old(ops)@) && elems_pure(old(out)@) ==> elems_pure(ops@) && elems_pure(
                out@,
            ),
        decreases ops@.len(),
    {
        let top = match ops.pop() {
            Some(top) => top,
            None => {
                return Err(CalcError::UnbalancedParen);
            },
        };
        match top {
            CalcElement::LeftParen => {
                return Err(CalcError::UnbalancedParen);
            },
            CalcElement::Question => {
                return Err(CalcError::MisplacedTernary);
            },
            CalcElement::Colon => out.push(CalcElement::TernaryOp),
            other => out.push(other),
        }
    }
    Ok(())
}

/// Rearrange the elements between `start` and `end` into reverse-Polish
/// order, per `rearrange_spec`.
fn rearrange(elements: &Vec<CalcElement>, start: usize, end: usize) -> (r: Result<
    Vec<CalcElement>,
    CalcError,
>)
    requires
        start <= end <= elements@.len(),
    ensures
        match rearrange_spec(elements@.subrange(start as int, end as int)) {
            Ok(s) => (r matches Ok(v) && v@ == s),
            Err(er) => r == Err::<Vec<CalcElement>, CalcError>(er),
        },
        elems_pure(elements@.subrange(start as int, end as int)) ==> (r matches Ok(v)
            ==> elems_pure(v@)),
{
    let ghost seg = elements@.subrange(start as int, end as int);
    let mut ops: Vec<CalcElement> = Vec::new();
    let mut out: Vec<CalcElement> = Vec::new();
    let mut i: usize = start;
    while i < end
        invariant
            start <= i <= end <= elements@.len(),
            seg == elements@.subrange(start as int, end as int),
            rearrange_from(seg, i - start, ops@, out@) == rearrange_spec(seg),
            elems_pure(seg) ==> elems_pure(ops@) && elems_pure(out@),
        decreases end - i,
    {
        proof {
            assert(seg[i - start] == elements@[i as int]);
        }
        let e = &elements[i];
        match e {
            CalcElement::Integer(_) => out.push(e.dup()),
            CalcElement::FloatLit(_) => out.push(e.dup()),
            CalcElement::Word(_, _) => out.push(e.dup()),
            CalcElement::UnaryOp(_) => ops.push(e.dup()),
            CalcElement::Increment(_) => ops.push(e.dup()),
            CalcElement::LeftParen => ops.push(CalcElement::LeftParen),
            CalcElement::RightParen => {
                match flush_for_rparen(&mut ops, &mut out) {
                    Ok(()) => {},
                    Err(er) => {
                        return Err(er);
                    },
                }
            },
            CalcElement::Question => {
                flush_for_op(&mut ops, &mut out, 2, true);
                ops.push(CalcElement::Question);
            },
            CalcElement::Colon => {
                match flush_for_colon(&mut ops, &mut out) {
                    Ok(()) => {},
                    Err(er) => {
                        return Err(er);
                    },
                }
            },
            CalcElement::TernaryOp => {
                return Err(CalcError::MisplacedTernary);
            },
            CalcElement::BinaryOp(op) => {
                let p = prec_exec(op.as_str());
                let ra = right_assoc_exec(op.as_str());
                flush_for_op(&mut ops, &mut out, p, ra);
                ops.push(e.dup());
            },
        }
        i = i + 1;
    }
    match flush_all(&mut ops, &mut out) {
        Ok(()) => Ok(out),
        Err(er) => Err(er),
    }
}

/// Apply one reverse-Polish element to the stack, per `step_spec`.
#[verifier::rlimit(60)]
fn calc_step(e: &CalcElement, stack: &mut Vec<CalcElement>, core: &mut ShellCore) -> (r: Result<
    (),
    CalcError,
>)
    ensures
        final(core).history == old(core).history,
        final(core).job_table == old(core).job_table,
        elem_pure(*e) && stack_pure(old(stack)@) ==> final(core).vars_map() == old(
            core,
        ).vars_map() && stack_pure(final(stack)@),
        match step_spec(old(stack)@, *e, old(core).vars_map()) {
            Ok((s2, m)) => r is Ok && final(stack)@ == s2 && final(core).vars_map() == m,
            Err(er) => r == Err::<(), CalcError>(er),
        },
{
    match e {
        CalcElement::Integer(_) => {
            stack.push(e.dup());
            Ok(())
        },
        CalcElement::FloatLit(_) => {
            stack.push(e.dup());
            Ok(())
        },
        CalcElement::Word(_, _) => {
            stack.push(e.dup());
            Ok(())
        },
        CalcElement::BinaryOp(op) => bin_operation(op.as_str(), stack, core),
        CalcElement::UnaryOp(op) => unary_operation(op.as_str(), stack, core),
        CalcElement::Increment(n) => inc(*n, stack, core),
        CalcElement::TernaryOp => ternary_operation(stack, core),
        CalcElement::Question => Err(CalcError::MisplacedTernary),
        CalcElement::Colon => Err(CalcError::MisplacedTernary),
        CalcElement::LeftParen => Err(CalcError::UnbalancedParen),
        CalcElement::RightParen => Err(CalcError::UnbalancedParen),
    }
}

/// Evaluate one comma segment, per `calc_seg_spec`: rearrange it, run the
/// stack machine over the reverse-Polish order, and resolve the single
/// remaining element.
#[verifier::rlimit(80)]
fn calculate_sub(elements: &Vec<CalcElement>, start: usize, end: usize, core: &mut ShellCore) -> (r:
    Result<i64, CalcError>)
    requires
        start <= end <= elements@.len(),
    ensures
        final(core).history == old(core).history,
        final(core).job_table == old(core).job_table,
        elems_pure(elements@.subrange(start as int, end as int)) ==> final(core).vars_map() == old(
            core,
        ).vars_map(),
        match calc_seg_spec(elements@.subrange(start as int, end as int), old(core).vars_map()) {
            Ok((v, m)) => r == Ok::<i64, CalcError>(v) && final(core).vars_map() == m,
            Err(er) => r == Err::<i64, CalcError>(er),
        },
{
    let ghost seg = elements@.subrange(start as int, end as int);
    proof {
        assert(seg.len() == end - start);
    }
    if start == end {
        return Ok(0);
    }
    let rpn = match rearrange(elements, start, end) {
        Ok(v) => v,
        Err(er) => {
            return Err(er);
        },
    };
    let mut stack: Vec<CalcElement> = Vec::new();
    let ghost vars0 = core.vars_map();
    let ghost rp = rpn@;
    let mut i: usize = 0;
    while i < rpn.len()
        invariant
            0 <= i <= rpn@.len(),
            rp == rpn@,
            seg == elements@.subrange(start as int, end as int),
            seg.len() > 0,
            rearrange_spec(seg) == Ok::<Seq<CalcElement>, CalcError>(rp),
            core.history == old(core).history,
            core.job_table == old(core).job_table,
            vars0 == old(core).vars_map(),
            eval_rpn_spec(rp, i as int, stack@, core.vars_map()) == eval_rpn_spec(
                rp,
                0,
                Seq::empty(),
                vars0,
            ),
            elems_pure(seg) ==> elems_pure(rp) && stack_pure(stack@) && core.vars_map() == vars0,
        decreases rpn@.len() - i,
    {
        let ghost st0 = stack@;
        let ghost v0 = core.vars_map();
        let e = &rpn[i];
        match calc_step(e, &mut stack, core) {
            Ok(()) => {
                i = i + 1;
            },
            Err(er) => {
                proof {
                    assert(eval_rpn_spec(rp, i as int, st0, v0) == Err::<(Seq<CalcElement>, Map<
                        Seq<char>,
                        Seq<char>,
                    >), CalcError>(er));
                    assert(eval_rpn_spec(rp, 0, Seq::empty(), vars0) == Err::<(Seq<CalcElement>,
                    Map<Seq<char>, Seq<char>>), CalcError>(er));
                    assert(calc_seg_spec(seg, vars0) == Err::<(i64, Map<Seq<char>, Seq<char>>),
                    CalcError>(er));
                }
                return Err(er);
            },
        }
    }
    if stack.len() != 1 {
        return Err(CalcError::StackInconsistency);
    }
    let top = &stack[0];
    match operand_value(top, 0, core) {
        Ok(v) => Ok(v),
        Err(er) => Err(er),
    }
}

/// Position of the next comma at parenthesis depth zero, at or after
/// `left`.
fn find_comma(elements: &Vec<CalcElement>, left: usize) -> (j: usize)
    requires
        left <= elements@.len(),
    ensures
        left <= j <= elements@.len(),
        j as int == next_comma(elements@, left as int, 0),
{
    let n = elements.len();
    let mut j: usize = left;
    let mut lp: usize = 0;
    let mut rp: usize = 0;
    while j < n
        invariant
            left <= j <= n,
            n == elements@.len(),
            lp <= j,
            rp <= j,
            next_comma(elements@, j as int, lp as int - rp as int) == next_comma(
                elements@,
                left as int,
                0,
            ),
        decreases n - j,
    {
        match &elements[j] {
            CalcElement::LeftParen => {
                lp = lp + 1;
            },
            CalcElement::RightParen => {
                rp = rp + 1;
            },
            CalcElement::BinaryOp(op) => {
                proof {
                    reveal_strlit(",");
                }
                if lp == rp && str_eq(op.as_str(), ",") {
                    return j;
                }
            },
            _ => {},
        }
        j = j + 1;
    }
    j
}

/// Evaluate a whole arithmetic expression: each comma segment in turn, the
/// final segment's value being the result, per `calculate_spec`.
pub fn calculate(elements: &Vec<CalcElement>, core: &mut ShellCore) -> (r: Result<i64, CalcError>)
    ensures
        final(core).history == old(core).history,
        final(core).job_table == old(core).job_table,
        elems_pure(elements@) ==> final(core).vars_map() == old(core).vars_map(),
        match calculate_spec(elements@, old(core).vars_map()) {
            Ok((v, m)) => r == Ok::<i64, CalcError>(v) && final(core).vars_map() == m,
            Err(er) => r == Err::<i64, CalcError>(er),
        },
{
    let n = elements.len();
    let mut left: usize = 0;
    let ghost vars_entry = core.vars_map();
    while left <= n
        invariant
            0 <= left <= n,
            n == elements@.len(),
            core.history == old(core).history,
            core.job_table == old(core).job_table,
            vars_entry == old(core).vars_map(),
            calc_from_spec(elements@, left as int, core.vars_map()) == calculate_spec(
                elements@,
                vars_entry,
            ),
            elems_pure(elements@) ==> core.vars_map() == vars_entry,
        decreases n + 1 - left,
    {
        let j = find_comma(elements, left);
        let v = match calculate_sub(elements, left, j, core) {
            Ok(v) => v,
            Err(er) => {
                return Err(er);
            },
        };
        if j >= n {
            return Ok(v);
        }
        left = j + 1;
    }
    proof {
        assert(false);
    }
    Err(CalcError::UnknownOperator)
}

} // verus!
