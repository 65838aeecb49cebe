use vstd::prelude::*;
use vstd::string::StringExecFns;

verus! {

/// The types of the values that variables hold.
#[derive(Debug, PartialEq, Eq, Clone, Copy, Structural)]
pub enum Type {
    Null,
    Number,
    Char,
    Bool,
    Stack,
    Func,
    List,
    String,
    Class,
}

pub open spec fn t_null() -> Seq<char> {
    "галяк"@
}

pub open spec fn t_num() -> Seq<char> {
    "цифри"@
}

pub open spec fn t_bool() -> Seq<char> {
    "факт"@
}

pub open spec fn t_char() -> Seq<char> {
    "буква"@
}

pub open spec fn t_string() -> Seq<char> {
    "букви"@
}

/// The type that a type name stands for; a name that is none of the built-in
/// ones names a class.
pub open spec fn spec_get_type(t: Seq<char>) -> Type {
    if t == t_num() {
        Type::Number
    } else if t == t_bool() {
        Type::Bool
    } else if t == t_char() {
        Type::Char
    } else if t == t_null() {
        Type::Null
    } else if t == t_string() {
        Type::String
    } else {
        Type::Class
    }
}

/// Whether the type has a name in the language.
pub open spec fn has_name(t: Type) -> bool {
    match t {
        Type::Null | Type::Number | Type::Char | Type::Bool | Type::String => true,
        _ => false,
    }
}

/// The name of a type that has one.
pub open spec fn spec_type_name(t: Type) -> Seq<char>
    recommends
        has_name(t),
{
    match t {
        Type::Null => t_null(),
        Type::Number => t_num(),
        Type::Char => t_char(),
        Type::Bool => t_bool(),
        _ => t_string(),
    }
}

fn same_text(s: &String, lit: &str) -> (b: bool)
    ensures
        b == (s@ == lit@),
{
    *s == String::from_str(lit)
}

/// The type that a type name stands for.
pub fn get_type(t: &String) -> (r: Type)
    ensures
        r == spec_get_type(t@),
{
    if same_text(t, "цифри") {
        Type::Number
    } else if same_text(t, "факт") {
        Type::Bool
    } else if same_text(t, "буква") {
        Type::Char
    } else if same_text(t, "галяк") {
        Type::Null
    } else if same_text(t, "букви") {
        Type::String
    } else {
        Type::Class
    }
}

/// Whether the type has a name in the language.
pub fn type_has_name(t: &Type) -> (b: bool)
    ensures
        b == has_name(*t),
{
    match t {
        Type::Null | Type::Number | Type::Char | Type::Bool | Type::String => true,
        _ => false,
    }
}

/// The name of a type. (Stacks, functions, lists and classes have none.)
pub fn get_type_name(t: &Type) -> (s: String)
    requires
        has_name(*t),
    ensures
        s@ == spec_type_name(*t),
{
    match t {
        Type::Null => String::from_str("галяк"),
        Type::Number => String::from_str("цифри"),
        Type::Char => String::from_str("буква"),
        Type::Bool => String::from_str("факт"),
        _ => String::from_str("букви"),
    }
}

/// A type's name reads back as the type: `get_type` undoes `get_type_name`
/// for every type that has a name.
pub proof fn law_type_name_round_trip(t: Type)
    requires
        has_name(t),
    ensures
        spec_get_type(spec_type_name(t)) == t,
{
    reveal_strlit("цифри");
    reveal_strlit("факт");
    reveal_strlit("буква");
    reveal_strlit("галяк");
    reveal_strlit("букви");
    assert(t_num()[0] != t_bool()[0]);
    assert(t_num()[0] != t_char()[0]);
    assert(t_num()[0] != t_null()[0]);
    assert(t_num()[0] != t_string()[0]);
    assert(t_bool()[0] != t_char()[0]);
    assert(t_bool()[0] != t_null()[0]);
    assert(t_bool()[0] != t_string()[0]);
    assert(t_char()[0] != t_null()[0]);
    assert(t_char().len() != t_string().len() || t_char()[4] != t_string()[4]);
    assert(t_null()[0] != t_string()[0]);
}

/// Each built-in type is named by its own word, and any other name stands for
/// a class.
pub proof fn law_type_of_a_name(t: Seq<char>)
    ensures
        (spec_get_type(t) == Type::Number) <==> t == t_num(),
        (spec_get_type(t) == Type::Bool) <==> t == t_bool(),
        (spec_get_type(t) == Type::Char) <==> t == t_char(),
        (spec_get_type(t) == Type::Null) <==> t == t_null(),
        (spec_get_type(t) == Type::String) <==> t == t_string(),
        (spec_get_type(t) == Type::Class) <==> !(t == t_num() || t == t_bool() || t == t_char() || t
            == t_null() || t == t_string()),
{
    law_type_name_round_trip(Type::Number);
    law_type_name_round_trip(Type::Bool);
    law_type_name_round_trip(Type::Char);
    law_type_name_round_trip(Type::Null);
    law_type_name_round_trip(Type::String);
}

} // verus!
