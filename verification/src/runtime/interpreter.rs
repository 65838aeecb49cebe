use vstd::prelude::*;
use vstd::string::StringExecFns;
use crate::compiler::ast::{Ast, SAst};
use crate::compiler::token::{Token, TokenType};
use crate::runtime::memory::types::{Type, has_name};
use crate::program::errors::runtime::{
    func_has_no_return, func_has_no_return_msg,
    wrong_type, wrong_arguments_count, wrong_type_msg, wrong_arguments_count_msg,
};

verus! {

/// The functions that the language provides.
#[derive(Debug, Clone, Copy, PartialEq, Eq, Structural)]
pub enum Builtin {
    /// `базар`: prints its arguments.
    Print,
    /// `базарлн`: prints its arguments, then a line break.
    PrintLn,
    /// `шоти`: prints its arguments, then reads a line.
    Input,
    /// `тіпацифри`: reads its argument as a number.
    ToNumber,
}

pub open spec fn spec_builtin(name: Seq<char>) -> Option<Builtin> {
    if name == "базар"@ {
        Some(Builtin::Print)
    } else if name == "базарлн"@ {
        Some(Builtin::PrintLn)
    } else if name == "шоти"@ {
        Some(Builtin::Input)
    } else if name == "тіпацифри"@ {
        Some(Builtin::ToNumber)
    } else {
        None
    }
}

fn is(s: &String, lit: &str) -> (b: bool)
    ensures
        b == (s@ == lit@),
{
    *s == String::from_str(lit)
}

/// The built-in function that `name` names, if any.
pub fn builtin(name: &String) -> (r: Option<Builtin>)
    ensures
        r == spec_builtin(name@),
{
    if is(name, "базар") {
        Some(Builtin::Print)
    } else if is(name, "базарлн") {
        Some(Builtin::PrintLn)
    } else if is(name, "шоти") {
        Some(Builtin::Input)
    } else if is(name, "тіпацифри") {
        Some(Builtin::ToNumber)
    } else {
        None
    }
}

/// The arithmetic operators.
#[derive(Debug, Clone, Copy, PartialEq, Eq, Structural)]
pub enum ArithOp {
    Add,
    Sub,
    Mul,
    Div,
    Rem,
}

pub open spec fn spec_arith_op(value: Seq<char>) -> Option<ArithOp> {
    if value == "+"@ {
        Some(ArithOp::Add)
    } else if value == "-"@ {
        Some(ArithOp::Sub)
    } else if value == "*"@ {
        Some(ArithOp::Mul)
    } else if value == "/"@ {
        Some(ArithOp::Div)
    } else if value == "%"@ {
        Some(ArithOp::Rem)
    } else {
        None
    }
}

/// The arithmetic operator that an operator token stands for, by its text.
pub fn arith_op(op: &Token) -> (r: Option<ArithOp>)
    ensures
        r == spec_arith_op(op.value@),
{
    if is(&op.value, "+") {
        Some(ArithOp::Add)
    } else if is(&op.value, "-") {
        Some(ArithOp::Sub)
    } else if is(&op.value, "*") {
        Some(ArithOp::Mul)
    } else if is(&op.value, "/") {
        Some(ArithOp::Div)
    } else if is(&op.value, "%") {
        Some(ArithOp::Rem)
    } else {
        None
    }
}

/// How the interpreter evaluates an expression, told by its form alone.
#[derive(Debug, Clone, Copy, PartialEq, Eq, Structural)]
pub enum EvalMode {
    /// A `+` expression: numbers are added or strings joined, as the type of
    /// its innermost left operand decides.
    NumberOrText,
    /// An arithmetic expression other than `+`, or a number literal.
    Number,
    /// A string literal.
    Text,
    /// A variable: evaluated by its declared type.
    Variable,
    /// A call of a function.
    Call,
    /// Any other form, of which no value is computed.
    Unsupported,
}

pub open spec fn spec_eval_mode(a: SAst) -> EvalMode {
    match a {
        SAst::Expression { left, op, right } => match spec_arith_op(op.1) {
            Some(ArithOp::Add) => EvalMode::NumberOrText,
            Some(_) => EvalMode::Number,
            None => EvalMode::Unsupported,
        },
        SAst::Num(_) => EvalMode::Number,
        SAst::Str(_) => EvalMode::Text,
        SAst::Keyword(_) => EvalMode::Variable,
        SAst::CallFunc { name, args } => EvalMode::Call,
        _ => EvalMode::Unsupported,
    }
}

/// How the interpreter evaluates `expr`.
pub fn eval_mode(expr: &Ast) -> (m: EvalMode)
    ensures
        m == spec_eval_mode(expr.sview()),
{
    match expr {
        Ast::Expression { left: _, op, right: _ } => match arith_op(op) {
            Some(ArithOp::Add) => EvalMode::NumberOrText,
            Some(_) => EvalMode::Number,
            None => EvalMode::Unsupported,
        },
        Ast::Num(_) => EvalMode::Number,
        Ast::Str(_) => EvalMode::Text,
        Ast::Keyword(_) => EvalMode::Variable,
        Ast::CallFunc { name: _, args: _ } => EvalMode::Call,
        _ => EvalMode::Unsupported,
    }
}

/// The innermost left operand of a chain of binary expressions: its type
/// decides whether `+` adds numbers or joins strings.
pub open spec fn spec_leftmost(a: SAst) -> SAst
    decreases a,
{
    match a {
        SAst::Expression { left, op, right } => spec_leftmost(*left),
        _ => a,
    }
}

/// The innermost left operand of a chain of binary expressions.
pub fn leftmost(expr: &Ast) -> (r: &Ast)
    ensures
        r.sview() == spec_leftmost(expr.sview()),
    decreases expr,
{
    match expr {
        Ast::Expression { left, op: _, right: _ } => leftmost(left),
        _ => expr,
    }
}

/// How the interpreter evaluates a condition, told by its form alone.
#[derive(Debug, Clone, Copy, PartialEq, Eq, Structural)]
pub enum CondMode {
    /// `більше`: the left number is greater than the right one.
    Greater,
    /// `меньше`: the left number is less than the right one.
    Less,
    /// Any other operator: the two values are compared for equality, and
    /// `equality_result` gives the outcome.
    Equality,
    /// A boolean literal.
    Literal(bool),
    /// Not a condition: the error `type_expected` of the boolean type.
    NotBool,
}

pub open spec fn spec_cond_mode(a: SAst) -> CondMode {
    match a {
        SAst::Expression { left, op, right } => if op.0 == TokenType::More {
            CondMode::Greater
        } else if op.0 == TokenType::Less {
            CondMode::Less
        } else {
            CondMode::Equality
        },
        SAst::Bool(b) => CondMode::Literal(b),
        _ => CondMode::NotBool,
    }
}

/// How the interpreter evaluates the condition `expr`.
pub fn cond_mode(expr: &Ast) -> (m: CondMode)
    ensures
        m == spec_cond_mode(expr.sview()),
{
    match expr {
        Ast::Expression { left: _, op, right: _ } => if op.name == TokenType::More {
            CondMode::Greater
        } else if op.name == TokenType::Less {
            CondMode::Less
        } else {
            CondMode::Equality
        },
        Ast::Bool(b) => CondMode::Literal(*b),
        _ => CondMode::NotBool,
    }
}

/// The outcome of an equality comparison written with `op`, given whether the
/// two sides are equal: `внатурі` holds of equal sides, `не` of unequal ones.
pub open spec fn spec_equality_result(op_value: Seq<char>, equal: bool) -> bool {
    if equal {
        op_value == "внатурі"@
    } else {
        op_value == "не"@
    }
}

/// The outcome of an equality comparison written with `op`, given whether the
/// two sides are equal.
pub fn equality_result(op: &Token, equal: bool) -> (b: bool)
    ensures
        b == spec_equality_result(op.value@, equal),
{
    let comparison_result = if equal { "внатурі" } else { "не" };
    if is(&op.value, "не") && !equal {
        return true;
    }
    is(&op.value, comparison_result)
}

/// Why a call of a declared function fails before it runs, if it does: a
/// result of another type than the call site needs, or another number of
/// arguments than the function takes.
pub open spec fn spec_call_error(
    name: Seq<char>,
    expected_return: Type,
    declared_return: Type,
    declared_args: nat,
    passed_args: nat,
) -> Option<Seq<char>> {
    if declared_return != expected_return {
        Some(wrong_type_msg(name, expected_return, declared_return))
    } else if passed_args != declared_args {
        Some(wrong_arguments_count_msg(name, declared_args, passed_args))
    } else {
        None
    }
}

/// Why a call of a declared function fails before it runs, if it does.
pub fn call_error(
    name: &String,
    expected_return: Type,
    declared_return: Type,
    declared_args: usize,
    passed_args: usize,
) -> (r: Option<String>)
    requires
        declared_return != expected_return ==> has_name(expected_return) && has_name(declared_return),
    ensures
        match spec_call_error(name@, expected_return, declared_return, declared_args as nat, passed_args as nat) {
            Some(m) => r matches Some(s) && s@ == m,
            None => r is None,
        },
{
    if declared_return != expected_return {
        return Some(wrong_type(name, &expected_return, &declared_return));
    }
    if passed_args != declared_args {
        return Some(wrong_arguments_count(name, declared_args, passed_args));
    }
    None
}


/// What becomes of the value of a built-in function at a call site that
/// expects `expected`: `Ok(true)` where it is kept (the types agree and a
/// value is expected), `Ok(false)` where it is dropped (nothing is expected),
/// and otherwise the error of a wrong type.
pub open spec fn spec_builtin_result(name: Seq<char>, expected: Type, returned: Type) -> Result<bool, Seq<char>> {
    if expected != Type::Null && expected == returned {
        Ok(true)
    } else if expected == Type::Null {
        Ok(false)
    } else {
        Err(wrong_type_msg(name, expected, returned))
    }
}

/// What becomes of the value of the built-in function `name`, which gave a
/// value of type `returned`, at a call site that expects `expected`.
pub fn builtin_result(name: &String, expected: Type, returned: Type) -> (r: Result<bool, String>)
    requires
        expected != Type::Null && expected != returned ==> has_name(expected) && has_name(returned),
    ensures
        match spec_builtin_result(name@, expected, returned) {
            Ok(b) => r == Ok::<bool, String>(b),
            Err(m) => r matches Err(s) && s@ == m,
        },
{
    if expected != Type::Null && expected == returned {
        return Ok(true);
    }
    if expected == Type::Null {
        return Ok(false);
    }
    Err(wrong_type(name, &expected, &returned))
}

/// What the interpreter does with one item of a body.
#[derive(Debug, Clone, Copy, PartialEq, Eq, Structural)]
pub enum StatementAction {
    /// Not a statement: it is passed over.
    Skip,
    /// Calls a function, expecting no value.
    Call,
    /// Ends the body with the value of an expression.
    Return,
    DeclareFunction,
    DeclareVariable,
    SetVariable,
    If,
    While,
    /// A statement the interpreter cannot run.
    Unsupported,
}

pub open spec fn spec_statement_action(a: SAst) -> StatementAction {
    match a {
        SAst::Statement { line, statement } => match *statement {
            SAst::CallFunc { name, args } => StatementAction::Call,
            SAst::Return { expression } => StatementAction::Return,
            SAst::Function { name, args, return_type, compound_statement } => StatementAction::DeclareFunction,
            SAst::DeclareVariable { array, name, vtype, value } => StatementAction::DeclareVariable,
            SAst::SetVariable { name, value } => StatementAction::SetVariable,
            SAst::If { condition, compound_statement, else_statement } => StatementAction::If,
            SAst::While { condition, compound_statement } => StatementAction::While,
            _ => StatementAction::Unsupported,
        },
        _ => StatementAction::Skip,
    }
}

/// What the interpreter does with the item `a` of a body.
pub fn statement_action(a: &Ast) -> (r: StatementAction)
    ensures
        r == spec_statement_action(a.sview()),
{
    proof {
        reveal_with_fuel(Ast::sview, 2);
    }
    match a {
        Ast::Statement { line: _, statement } => match &**statement {
            Ast::CallFunc { name: _, args: _ } => StatementAction::Call,
            Ast::Return { expression: _ } => StatementAction::Return,
            Ast::Function { name: _, args: _, return_type: _, compound_statement: _ } => StatementAction::DeclareFunction,
            Ast::DeclareVariable { array: _, name: _, vtype: _, value: _ } => StatementAction::DeclareVariable,
            Ast::SetVariable { name: _, value: _ } => StatementAction::SetVariable,
            Ast::If { condition: _, compound_statement: _, else_statement: _ } => StatementAction::If,
            Ast::While { condition: _, compound_statement: _ } => StatementAction::While,
            _ => StatementAction::Unsupported,
        },
        _ => StatementAction::Skip,
    }
}

/// Whether the body stops after `action`, given whether the nested body it
/// ran (the branch of an `if`, the loop of a `while`) returned a value: a
/// return always stops it, an `if` or a `while` stops it when its nested
/// body returned, and nothing else does.
pub open spec fn spec_stops_after(action: StatementAction, returned: bool) -> bool {
    match action {
        StatementAction::Return => true,
        StatementAction::If | StatementAction::While => returned,
        _ => false,
    }
}

/// Whether the body stops after `action`.
pub fn stops_after(action: StatementAction, returned: bool) -> (b: bool)
    ensures
        b == spec_stops_after(action, returned),
{
    match action {
        StatementAction::Return => true,
        StatementAction::If | StatementAction::While => returned,
        _ => false,
    }
}

/// The error of a call of the declared function `name` whose body ended
/// (`returned` tells whether by returning a value): a function that declares
/// a result and returned none fails with `func_has_no_return`; otherwise
/// there is none.
pub fn missing_result(name: &String, expected_return: Type, returned: bool) -> (r: Option<String>)
    ensures
        r is Some <==> (expected_return != Type::Null && !returned),
        r matches Some(m) ==> m@ == func_has_no_return_msg(name@),
{
    if expected_return != Type::Null && !returned {
        Some(func_has_no_return(name))
    } else {
        None
    }
}

/// Each statement is run by the action of its own kind: an item that is not
/// a statement is passed over, a statement of each runnable kind (call,
/// return, function or variable declaration, assignment, `if`, `while`) gets
/// the action of that kind, and only a statement of another kind is one the
/// interpreter cannot run.
pub proof fn law_statement_kind_decides_action(a: SAst)
    ensures
        (spec_statement_action(a) == StatementAction::Skip) <==> !(a is Statement),
        a matches SAst::Statement { line, statement } ==> {
            &&& (spec_statement_action(a) == StatementAction::Call) <==> (*statement is CallFunc)
            &&& (spec_statement_action(a) == StatementAction::Return) <==> (*statement is Return)
            &&& (spec_statement_action(a) == StatementAction::DeclareFunction) <==> (*statement is Function)
            &&& (spec_statement_action(a) == StatementAction::DeclareVariable) <==> (*statement is DeclareVariable)
            &&& (spec_statement_action(a) == StatementAction::SetVariable) <==> (*statement is SetVariable)
            &&& (spec_statement_action(a) == StatementAction::If) <==> (*statement is If)
            &&& (spec_statement_action(a) == StatementAction::While) <==> (*statement is While)
            &&& (spec_statement_action(a) == StatementAction::Unsupported) <==> !(*statement is CallFunc
                || *statement is Return || *statement is Function || *statement is DeclareVariable
                || *statement is SetVariable || *statement is If || *statement is While)
        },
{
}

/// What becomes of a built-in's value at a call site, for every expected and
/// returned type: nothing expected drops it; an expected type equal to the
/// returned one keeps it; only an expected type other than the returned one
/// is an error, the wrong type's.
pub proof fn law_builtin_value_kept_when_types_agree(name: Seq<char>, expected: Type, returned: Type)
    ensures
        expected == Type::Null ==> spec_builtin_result(name, expected, returned) == Ok::<bool, Seq<char>>(false),
        expected != Type::Null && expected == returned ==> spec_builtin_result(name, expected, returned)
            == Ok::<bool, Seq<char>>(true),
        spec_builtin_result(name, expected, returned) is Err <==> (expected != Type::Null && expected
            != returned),
        expected != Type::Null && expected != returned ==> spec_builtin_result(name, expected, returned)
            == Err::<bool, Seq<char>>(wrong_type_msg(name, expected, returned)),
{
}

/// Each built-in is named by its own word, and no other name is a built-in.
pub proof fn law_builtin_names(name: Seq<char>)
    ensures
        (spec_builtin(name) == Some(Builtin::Print)) <==> name == "базар"@,
        (spec_builtin(name) == Some(Builtin::PrintLn)) <==> name == "базарлн"@,
        (spec_builtin(name) == Some(Builtin::Input)) <==> name == "шоти"@,
        (spec_builtin(name) == Some(Builtin::ToNumber)) <==> name == "тіпацифри"@,
        spec_builtin(name) is None <==> !(name == "базар"@ || name == "базарлн"@ || name == "шоти"@
            || name == "тіпацифри"@),
{
    reveal_strlit("базар");
    reveal_strlit("базарлн");
    reveal_strlit("шоти");
    reveal_strlit("тіпацифри");
    assert("базар"@.len() == 5 && "базарлн"@.len() == 7 && "шоти"@.len() == 4 && "тіпацифри"@.len() == 9);
}

/// Each arithmetic operator is written by its own character, and no other
/// text is an arithmetic operator.
pub proof fn law_arith_op_texts(value: Seq<char>)
    ensures
        (spec_arith_op(value) == Some(ArithOp::Add)) <==> value == "+"@,
        (spec_arith_op(value) == Some(ArithOp::Sub)) <==> value == "-"@,
        (spec_arith_op(value) == Some(ArithOp::Mul)) <==> value == "*"@,
        (spec_arith_op(value) == Some(ArithOp::Div)) <==> value == "/"@,
        (spec_arith_op(value) == Some(ArithOp::Rem)) <==> value == "%"@,
        spec_arith_op(value) is None <==> !(value == "+"@ || value == "-"@ || value == "*"@ || value
            == "/"@ || value == "%"@),
{
    reveal_strlit("+");
    reveal_strlit("-");
    reveal_strlit("*");
    reveal_strlit("/");
    reveal_strlit("%");
    assert("+"@[0] == '+' && "-"@[0] == '-' && "*"@[0] == '*' && "/"@[0] == '/' && "%"@[0] == '%');
}

/// An expression is evaluated by its form: `+` as numbers or text, the other
/// arithmetic operators as numbers, a number literal as a number, a string
/// literal as text, a name as its variable, a call as a call; any other
/// operator or form cannot be evaluated.
pub proof fn law_evaluation_follows_the_form(a: SAst)
    ensures
        a matches SAst::Expression { left, op, right } ==> {
            &&& (spec_eval_mode(a) == EvalMode::NumberOrText) <==> op.1 == "+"@
            &&& (spec_eval_mode(a) == EvalMode::Number) <==> (op.1 == "-"@ || op.1 == "*"@ || op.1 == "/"@
                || op.1 == "%"@)
            &&& (spec_eval_mode(a) == EvalMode::Unsupported) <==> spec_arith_op(op.1) is None
        },
        a is Num ==> spec_eval_mode(a) == EvalMode::Number,
        a is Str ==> spec_eval_mode(a) == EvalMode::Text,
        a is Keyword ==> spec_eval_mode(a) == EvalMode::Variable,
        a is CallFunc ==> spec_eval_mode(a) == EvalMode::Call,
        !(a is Expression || a is Num || a is Str || a is Keyword || a is CallFunc) ==> spec_eval_mode(a)
            == EvalMode::Unsupported,
{
    match a {
        SAst::Expression { left, op, right } => law_arith_op_texts(op.1),
        _ => {},
    }
}

/// A condition is evaluated by its form: `більше` and `меньше` compare
/// numbers, any other operator compares for equality, a boolean literal is
/// itself, and anything else is not a condition.
pub proof fn law_condition_follows_the_form(a: SAst)
    ensures
        a matches SAst::Expression { left, op, right } ==> {
            &&& (spec_cond_mode(a) == CondMode::Greater) <==> op.0 == TokenType::More
            &&& (spec_cond_mode(a) == CondMode::Less) <==> op.0 == TokenType::Less
            &&& (spec_cond_mode(a) == CondMode::Equality) <==> (op.0 != TokenType::More && op.0
                != TokenType::Less)
        },
        a matches SAst::Bool(b) ==> spec_cond_mode(a) == CondMode::Literal(b),
        !(a is Expression || a is Bool) ==> spec_cond_mode(a) == CondMode::NotBool,
{
}

/// `внатурі` holds exactly of equal sides, `не` exactly of unequal ones, and
/// any other operator holds of none.
pub proof fn law_equality_outcome(op_value: Seq<char>, equal: bool)
    ensures
        op_value == "внатурі"@ ==> spec_equality_result(op_value, equal) == equal,
        op_value == "не"@ ==> spec_equality_result(op_value, equal) == !equal,
        op_value != "внатурі"@ && op_value != "не"@ ==> !spec_equality_result(op_value, equal),
{
    reveal_strlit("внатурі");
    reveal_strlit("не");
    assert("внатурі"@.len() != "не"@.len());
}

/// A call of a declared function fails exactly when the result type or the
/// number of arguments differs; a result type that differs is reported
/// first, and each error has its own message.
pub proof fn law_call_errors(name: Seq<char>, expected: Type, declared: Type, declared_args: nat, passed_args: nat)
    ensures
        spec_call_error(name, expected, declared, declared_args, passed_args) is None <==> (expected
            == declared && declared_args == passed_args),
        expected != declared ==> spec_call_error(name, expected, declared, declared_args, passed_args)
            == Some(wrong_type_msg(name, expected, declared)),
        expected == declared && declared_args != passed_args ==> spec_call_error(
            name,
            expected,
            declared,
            declared_args,
            passed_args,
        ) == Some(wrong_arguments_count_msg(name, declared_args, passed_args)),
{
}

/// A body stops after a return always, after an `if` or a `while` exactly
/// when the nested body returned a value, and after nothing else.
pub proof fn law_when_a_body_stops(action: StatementAction, returned: bool)
    ensures
        action == StatementAction::Return ==> spec_stops_after(action, returned),
        (action == StatementAction::If || action == StatementAction::While) ==> spec_stops_after(
            action,
            returned,
        ) == returned,
        !(action == StatementAction::Return || action == StatementAction::If || action
            == StatementAction::While) ==> !spec_stops_after(action, returned),
{
}

} // verus!
