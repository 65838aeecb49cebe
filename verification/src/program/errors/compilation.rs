use vstd::prelude::*;
use vstd::string::StringExecFns;
use crate::compiler::token::Token;

verus! {

pub open spec fn unknown_token_msg(value: Seq<char>) -> Seq<char> {
    "якийсь кучерявий базар \""@ + value + "\""@
}

/// A token that the lexer could not read.
pub fn unknown_token(t: &Token) -> (s: String)
    ensures
        s@ == unknown_token_msg(t.value@),
{
    let mut s = String::from_str("якийсь кучерявий базар \"");
    s.append(t.value.as_str());
    s.append("\"");
    s
}

pub open spec fn unexpected_token_msg(value: Seq<char>) -> Seq<char> {
    "\""@ + value + "\" - цього тіпа сюда ніхто не кликав"@
}

/// A token that the grammar does not allow where it stands.
pub fn unexpected_token(t: &Token) -> (s: String)
    ensures
        s@ == unexpected_token_msg(t.value@),
{
    let mut s = String::from_str("\"");
    s.append(t.value.as_str());
    s.append("\" - цього тіпа сюда ніхто не кликав");
    s
}

pub open spec fn unmatched_quote_msg() -> Seq<char> {
    "не закрита \""@
}

/// A string literal without its closing quote.
pub fn unmatched_quote() -> (s: String)
    ensures
        s@ == unmatched_quote_msg(),
{
    String::from_str("не закрита \"")
}

pub open spec fn inner_compilation_error_msg() -> Seq<char> {
    "Якась залупа тут кароче закинь пж сюда https://github.com/siuhh/galyak/issues шо сталось"@
}

/// A fault of the compiler itself.
pub fn inner_compilation_error() -> (s: String)
    ensures
        s@ == inner_compilation_error_msg(),
{
    String::from_str("Якась залупа тут кароче закинь пж сюда https://github.com/siuhh/galyak/issues шо сталось")
}

} // verus!
