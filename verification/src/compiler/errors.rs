use vstd::prelude::*;
use crate::compiler::token::Token;
use crate::program::errors::compilation::{
    unknown_token, unexpected_token, unmatched_quote, inner_compilation_error, unknown_token_msg,
    unexpected_token_msg, unmatched_quote_msg, inner_compilation_error_msg,
};

verus! {

pub fn err_unknown_token(t: &Token) -> (s: String)
    ensures
        s@ == unknown_token_msg(t.value@),
{
    unknown_token(t)
}

pub fn err_unexpected_token(t: &Token) -> (s: String)
    ensures
        s@ == unexpected_token_msg(t.value@),
{
    unexpected_token(t)
}

pub fn err_unmatched_quote() -> (s: String)
    ensures
        s@ == unmatched_quote_msg(),
{
    unmatched_quote()
}

pub fn err_inner_compilation_error() -> (s: String)
    ensures
        s@ == inner_compilation_error_msg(),
{
    inner_compilation_error()
}

} // verus!
