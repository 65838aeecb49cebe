use vstd::prelude::*;
use vstd::string::StringExecFns;
use crate::program::text::{decimal, usize_to_string};
use crate::runtime::memory::types::{Type, get_type_name, has_name, spec_type_name};

verus! {

pub open spec fn wrong_type_msg(var_name: Seq<char>, expected: Type, passed: Type) -> Seq<char> {
    "масть \""@ + spec_type_name(passed) + "\" штріха \""@ + var_name + "\" не підходить, очікувалось: \""@
        + spec_type_name(expected) + "\""@
}

/// The value of a variable, or of a function's result, has the wrong type.
pub fn wrong_type(var_name: &String, expected_type: &Type, passed_type: &Type) -> (s: String)
    requires
        has_name(*expected_type),
        has_name(*passed_type),
    ensures
        s@ == wrong_type_msg(var_name@, *expected_type, *passed_type),
{
    let mut s = String::from_str("масть \"");
    s.append(get_type_name(passed_type).as_str());
    s.append("\" штріха \"");
    s.append(var_name.as_str());
    s.append("\" не підходить, очікувалось: \"");
    s.append(get_type_name(expected_type).as_str());
    s.append("\"");
    s
}

pub open spec fn wrong_return_type_msg(var_name: Seq<char>, expected: Type) -> Seq<char> {
    "тємка \""@ + var_name + "\" рішає \""@ + spec_type_name(expected) + "\""@
}

/// A function returns a value of another type than it declares.
pub fn wrong_return_type(var_name: &String, expected_type: &Type) -> (s: String)
    requires
        has_name(*expected_type),
    ensures
        s@ == wrong_return_type_msg(var_name@, *expected_type),
{
    let mut s = String::from_str("тємка \"");
    s.append(var_name.as_str());
    s.append("\" рішає \"");
    s.append(get_type_name(expected_type).as_str());
    s.append("\"");
    s
}

pub open spec fn func_has_no_return_msg(var_name: Seq<char>) -> Seq<char> {
    "тємка \""@ + var_name + "\" нічого не рішає"@
}

/// A function that declares a result ended without returning one.
pub fn func_has_no_return(var_name: &String) -> (s: String)
    ensures
        s@ == func_has_no_return_msg(var_name@),
{
    let mut s = String::from_str("тємка \"");
    s.append(var_name.as_str());
    s.append("\" нічого не рішає");
    s
}

pub open spec fn unallowed_operation_msg(op: Seq<char>, vtype: Type) -> Seq<char> {
    "не допустима тєма "@ + op + " для масті "@ + spec_type_name(vtype)
}

/// An operation that values of this type do not allow.
pub fn unallowed_operation(op: String, vtype: &Type) -> (s: String)
    requires
        has_name(*vtype),
    ensures
        s@ == unallowed_operation_msg(op@, *vtype),
{
    let mut s = String::from_str("не допустима тєма ");
    s.append(op.as_str());
    s.append(" для масті ");
    s.append(get_type_name(vtype).as_str());
    s
}

pub open spec fn type_expected_msg(vtype: Type) -> Seq<char> {
    "тут має бути \""@ + spec_type_name(vtype) + "\""@
}

/// A value of another type was expected here.
pub fn type_expected(vtype: &Type) -> (s: String)
    requires
        has_name(*vtype),
    ensures
        s@ == type_expected_msg(*vtype),
{
    let mut s = String::from_str("тут має бути \"");
    s.append(get_type_name(vtype).as_str());
    s.append("\"");
    s
}

pub open spec fn var_not_found_msg(var_name: Seq<char>) -> Seq<char> {
    "штріх \""@ + var_name + "\" не прописаний"@
}

/// The variable is not declared (or not yet given a value).
pub fn var_not_found(var_name: &String) -> (s: String)
    ensures
        s@ == var_not_found_msg(var_name@),
{
    let mut s = String::from_str("штріх \"");
    s.append(var_name.as_str());
    s.append("\" не прописаний");
    s
}

pub open spec fn var_already_exists_msg(var_name: Seq<char>) -> Seq<char> {
    "штріх з ім'ям "@ + var_name + " вже існує"@
}

/// The variable is declared twice.
pub fn var_already_exists(var_name: &String) -> (s: String)
    ensures
        s@ == var_already_exists_msg(var_name@),
{
    let mut s = String::from_str("штріх з ім'ям ");
    s.append(var_name.as_str());
    s.append(" вже існує");
    s
}

/// "needed": singular for one argument, plural otherwise.
pub open spec fn needed_word(expected: nat) -> Seq<char> {
    if expected == 1 { "потрібен"@ } else { "потрібно"@ }
}

/// "argument", in the form that the count takes: genitive plural for 0 and
/// for 5 and more, singular for 1, paucal for 2 to 4.
pub open spec fn argument_word(expected: nat) -> Seq<char> {
    if expected == 0 || expected >= 5 {
        "штріхів"@
    } else if expected == 1 {
        "штріх"@
    } else {
        "штріха"@
    }
}

pub open spec fn wrong_arguments_count_msg(name: Seq<char>, expected: nat, passed: nat) -> Seq<char> {
    "тємці \""@ + name + "\" "@ + needed_word(expected) + " "@ + decimal(expected) + " "@
        + argument_word(expected) + ", а тут "@ + decimal(passed)
}

/// A function was called with another number of arguments than it takes.
pub fn wrong_arguments_count(name: &String, expected: usize, passed: usize) -> (s: String)
    ensures
        s@ == wrong_arguments_count_msg(name@, expected as nat, passed as nat),
{
    let mut s = String::from_str("тємці \"");
    s.append(name.as_str());
    s.append("\" ");
    if expected == 1 {
        s.append("потрібен");
    } else {
        s.append("потрібно");
    }
    s.append(" ");
    s.append(usize_to_string(expected).as_str());
    s.append(" ");
    if expected == 0 || expected >= 5 {
        s.append("штріхів");
    } else if expected == 1 {
        s.append("штріх");
    } else {
        s.append("штріха");
    }
    s.append(", а тут ");
    s.append(usize_to_string(passed).as_str());
    s
}

} // verus!
