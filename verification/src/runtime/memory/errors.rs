use vstd::prelude::*;
use crate::runtime::memory::types::{Type, has_name};
use crate::program::errors::runtime::{
    wrong_type, var_not_found as not_found, var_already_exists as already_exists, wrong_type_msg,
    var_not_found_msg, var_already_exists_msg,
};

verus! {

pub fn err_wrong_type(var_name: &String, expected_type: &Type, passed_type: &Type) -> (s: String)
    requires
        has_name(*expected_type),
        has_name(*passed_type),
    ensures
        s@ == wrong_type_msg(var_name@, *expected_type, *passed_type),
{
    wrong_type(var_name, expected_type, passed_type)
}

pub fn var_not_found(var_name: &String) -> (s: String)
    ensures
        s@ == var_not_found_msg(var_name@),
{
    not_found(var_name)
}

pub fn var_already_exists(var_name: &String) -> (s: String)
    ensures
        s@ == var_already_exists_msg(var_name@),
{
    already_exists(var_name)
}

} // verus!
