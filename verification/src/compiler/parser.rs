use vstd::prelude::*;
use crate::compiler::ast::{Ast, SAst, seq_sview, pair_views, lemma_seq_sview_push, lemma_seq_sview_empty};
use crate::pre::chars::chars_of;
use vstd::string::StringExecFns;
use crate::compiler::token::{Token, TokenType};
use crate::pre::lexer::{TokenView, lex_file, tokenize};

verus! {

/// Why parsing stopped.
pub enum ParseError {
    /// A token that the grammar does not allow where it stands.
    Unexpected(Token),
    /// A construct that the language does not implement: a class declaration,
    /// or a number literal that is not a decimal number.
    Unsupported(Token),
}

pub ghost enum SpecParseError {
    Unexpected(TokenView),
    Unsupported(TokenView),
}

impl View for ParseError {
    type V = SpecParseError;

    open spec fn view(&self) -> SpecParseError {
        match self {
            ParseError::Unexpected(t) => SpecParseError::Unexpected(t@),
            ParseError::Unsupported(t) => SpecParseError::Unsupported(t@),
        }
    }
}

/// A node and the position after it, or why parsing stopped.
pub type PAst = Result<(SAst, int), SpecParseError>;

/// A list of nodes and the position after it, or why parsing stopped.
pub type PList = Result<(Seq<SAst>, int), SpecParseError>;

/// The token at position `i`; past the end, the last token (the lexer keeps
/// returning it: it is the end of the file, or a character it cannot read).
pub open spec fn tok(t: Seq<TokenView>, i: int) -> TokenView {
    if 0 <= i < t.len() {
        t[i]
    } else if t.len() > 0 {
        t.last()
    } else {
        (TokenType::Eof, Seq::empty(), 0, 0)
    }
}

pub open spec fn kind(t: Seq<TokenView>, i: int) -> TokenType {
    tok(t, i).0
}

pub open spec fn unexpected(t: Seq<TokenView>, i: int) -> SpecParseError {
    SpecParseError::Unexpected(tok(t, i))
}

/// Consuming a token of kind `k` at `i`. The last token is never consumed.
pub open spec fn p_eat(t: Seq<TokenView>, i: int, k: TokenType) -> Result<int, SpecParseError> {
    if kind(t, i) == k && i + 1 < t.len() {
        Ok(i + 1)
    } else {
        Err(unexpected(t, i))
    }
}

/// Skips one end-of-line token, if there is one.
pub open spec fn p_break_line(t: Seq<TokenView>, i: int) -> int {
    match p_eat(t, i, TokenType::Eol) {
        Ok(j) => j,
        Err(_) => i,
    }
}

/// Skips all end-of-line tokens.
pub open spec fn p_skip_eols(t: Seq<TokenView>, i: int) -> int
    decreases t.len() - i,
{
    match p_eat(t, i, TokenType::Eol) {
        Ok(j) => p_skip_eols(t, j),
        Err(_) => i,
    }
}

pub open spec fn is_digit(c: char) -> bool {
    '0' <= c <= '9'
}

/// Whether `s` reads as a decimal number: digits with at most one dot, and
/// at least one digit.
pub open spec fn valid_number(s: Seq<char>) -> bool {
    &&& forall|k: int| 0 <= k < s.len() ==> is_digit(#[trigger] s[k]) || s[k] == '.'
    &&& exists|k: int| 0 <= k < s.len() && is_digit(#[trigger] s[k])
    &&& forall|a: int, b: int| 0 <= a < b < s.len() && #[trigger] s[a] == '.' ==> #[trigger] s[b] != '.'
}

/// factor : NUMBER | STRING | NAME | call_func | TRUE | FALSE | ( expr )
pub open spec fn p_factor(t: Seq<TokenView>, i: int) -> PAst
    decreases t.len() - i, 2int,
{
    let c = tok(t, i);
    if c.0 == TokenType::Number {
        match p_eat(t, i, TokenType::Number) {
            Ok(j) => if valid_number(c.1) {
                Ok((SAst::Num(c.1), j))
            } else {
                Err(SpecParseError::Unsupported(c))
            },
            Err(e) => Err(e),
        }
    } else if c.0 == TokenType::Str {
        match p_eat(t, i, TokenType::Str) {
            Ok(j) => Ok((SAst::Str(c.1), j)),
            Err(e) => Err(e),
        }
    } else if c.0 == TokenType::Name {
        if kind(t, i + 1) == TokenType::LPar {
            p_call_func(t, i)
        } else {
            match p_eat(t, i, TokenType::Name) {
                Ok(j) => Ok((SAst::Keyword(c.1), j)),
                Err(e) => Err(e),
            }
        }
    } else if c.0 == TokenType::True {
        match p_eat(t, i, TokenType::True) {
            Ok(j) => Ok((SAst::Bool(true), j)),
            Err(e) => Err(e),
        }
    } else if c.0 == TokenType::False {
        match p_eat(t, i, TokenType::False) {
            Ok(j) => Ok((SAst::Bool(false), j)),
            Err(e) => Err(e),
        }
    } else if c.0 == TokenType::LPar {
        match p_eat(t, i, TokenType::LPar) {
            Ok(j) => match p_expr(t, j) {
                Ok((node, k)) => match p_eat(t, k, TokenType::RPar) {
                    Ok(m) => Ok((node, m)),
                    Err(e) => Err(e),
                },
                Err(e) => Err(e),
            },
            Err(e) => Err(e),
        }
    } else {
        Err(unexpected(t, i))
    }
}

/// The rest of a term: ((MUL | DIV) factor)*, folded to the left onto `left`.
pub open spec fn p_term_tail(t: Seq<TokenView>, i: int, left: SAst) -> PAst
    decreases t.len() - i, 1int,
{
    let c = tok(t, i);
    if c.1 == "*"@ || c.1 == "/"@ {
        match p_eat(t, i, TokenType::AriphOp) {
            Ok(j) => match p_factor(t, j) {
                Ok((right, k)) => if i < k < t.len() {
                    p_term_tail(
                        t,
                        k,
                        SAst::Expression { left: Box::new(left), op: c, right: Box::new(right) },
                    )
                } else {
                    Err(unexpected(t, k))
                },
                Err(e) => Err(e),
            },
            Err(e) => Err(e),
        }
    } else {
        Ok((left, i))
    }
}

/// term : factor ((MUL | DIV) factor)*
pub open spec fn p_term(t: Seq<TokenView>, i: int) -> PAst
    decreases t.len() - i, 3int,
{
    match p_factor(t, i) {
        Ok((node, j)) => if i < j < t.len() {
            p_term_tail(t, j, node)
        } else {
            Err(unexpected(t, j))
        },
        Err(e) => Err(e),
    }
}

/// The operator that continues an expression at `c`, if any: `+` and `-`
/// (which must be arithmetic operators) and the comparisons.
pub open spec fn expr_op(c: TokenView) -> Option<TokenType> {
    if c.1 == "+"@ || c.1 == "-"@ {
        Some(TokenType::AriphOp)
    } else if c.0 == TokenType::Equals || c.0 == TokenType::NotEquals || c.0 == TokenType::More
        || c.0 == TokenType::Less {
        Some(c.0)
    } else {
        None
    }
}

/// The rest of an expression: ((PLUS | MINUS | comparison) term)*, folded to
/// the left onto `left`.
pub open spec fn p_expr_tail(t: Seq<TokenView>, i: int, left: SAst) -> PAst
    decreases t.len() - i, 3int,
{
    let c = tok(t, i);
    match expr_op(c) {
        None => Ok((left, i)),
        Some(k) => match p_eat(t, i, k) {
            Ok(j) => match p_term(t, j) {
                Ok((right, m)) => if i < m < t.len() {
                    p_expr_tail(
                        t,
                        m,
                        SAst::Expression { left: Box::new(left), op: c, right: Box::new(right) },
                    )
                } else {
                    Err(unexpected(t, m))
                },
                Err(e) => Err(e),
            },
            Err(e) => Err(e),
        },
    }
}

/// expr : term ((PLUS | MINUS | comparison) term)*
pub open spec fn p_expr(t: Seq<TokenView>, i: int) -> PAst
    decreases t.len() - i, 4int,
{
    match p_term(t, i) {
        Ok((node, j)) => if i < j < t.len() {
            p_expr_tail(t, j, node)
        } else {
            Err(unexpected(t, j))
        },
        Err(e) => Err(e),
    }
}

/// Every comparison (`внатурі`, `не`, `більше`, `меньше`), and `+` and `-`,
/// continues an expression: a term that ends at `j`, the operator token at
/// `j` and a term after it fold into one expression with that operator, and
/// the expression goes on after the second term.
pub proof fn law_operator_continues_expression(
    t: Seq<TokenView>,
    i: int,
    j: int,
    k: int,
    left: SAst,
    right: SAst,
)
    requires
        0 <= i < j,
        j + 1 < k < t.len(),
        p_term(t, i) == Ok::<(SAst, int), SpecParseError>((left, j)),
        p_term(t, j + 1) == Ok::<(SAst, int), SpecParseError>((right, k)),
        (t[j].0 == TokenType::AriphOp && (t[j].1 == "+"@ || t[j].1 == "-"@)) || ((t[j].0
            == TokenType::Equals || t[j].0 == TokenType::NotEquals || t[j].0 == TokenType::More
            || t[j].0 == TokenType::Less) && t[j].1 != "+"@ && t[j].1 != "-"@),
    ensures
        p_expr(t, i) == p_expr_tail(
            t,
            k,
            SAst::Expression { left: Box::new(left), op: t[j], right: Box::new(right) },
        ),
{
    assert(tok(t, j) == t[j]);
}

/// `*` and `/` continue a term: a factor that ends at `j`, the operator at
/// `j` and a factor after it fold into one expression with that operator,
/// and the term goes on after the second factor. Any other token (`+`, `-`,
/// a comparison) ends the term there, so those operators bind looser.
pub proof fn law_operator_continues_term(
    t: Seq<TokenView>,
    i: int,
    j: int,
    k: int,
    left: SAst,
    right: SAst,
)
    requires
        0 <= i < j,
        j + 1 < k < t.len(),
        p_factor(t, i) == Ok::<(SAst, int), SpecParseError>((left, j)),
        p_factor(t, j + 1) == Ok::<(SAst, int), SpecParseError>((right, k)),
    ensures
        t[j].0 == TokenType::AriphOp && (t[j].1 == "*"@ || t[j].1 == "/"@) ==> p_term(t, i) == p_term_tail(
            t,
            k,
            SAst::Expression { left: Box::new(left), op: t[j], right: Box::new(right) },
        ),
        t[j].1 != "*"@ && t[j].1 != "/"@ ==> p_term(t, i) == Ok::<(SAst, int), SpecParseError>((left, j)),
{
    assert(tok(t, j) == t[j]);
}

/// The arguments of a call, after its opening parenthesis: (expr (, expr)*)? )
pub open spec fn p_call_args(t: Seq<TokenView>, i: int, acc: Seq<SAst>) -> PList
    decreases t.len() - i, 5int,
{
    if kind(t, i) == TokenType::RPar {
        match p_eat(t, i, TokenType::RPar) {
            Ok(j) => Ok((acc, j)),
            Err(e) => Err(e),
        }
    } else {
        match p_expr(t, i) {
            Ok((arg, k)) => if i < k < t.len() {
                if kind(t, k) == TokenType::RPar {
                    match p_eat(t, k, TokenType::RPar) {
                        Ok(j) => Ok((acc.push(arg), j)),
                        Err(e) => Err(e),
                    }
                } else {
                    match p_eat(t, k, TokenType::Coma) {
                        Ok(j) => p_call_args(t, j, acc.push(arg)),
                        Err(e) => Err(e),
                    }
                }
            } else {
                Err(unexpected(t, k))
            },
            Err(e) => Err(e),
        }
    }
}

/// call_func : NAME ( args )
pub open spec fn p_call_func(t: Seq<TokenView>, i: int) -> PAst
    decreases t.len() - i, 1int,
{
    match p_eat(t, i, TokenType::Name) {
        Ok(j) => match p_eat(t, j, TokenType::LPar) {
            Ok(k) => match p_call_args(t, k, Seq::empty()) {
                Ok((args, m)) => Ok((SAst::CallFunc { name: tok(t, i).1, args }, m)),
                Err(e) => Err(e),
            },
            Err(e) => Err(e),
        },
        Err(e) => Err(e),
    }
}

/// set_var : NAME = expr
pub open spec fn p_set_var(t: Seq<TokenView>, i: int) -> PAst {
    match p_eat(t, i, TokenType::Name) {
        Ok(j) => match p_eat(t, j, TokenType::Assign) {
            Ok(k) => match p_expr(t, k) {
                Ok((value, m)) => Ok((SAst::SetVariable { name: tok(t, i).1, value: Box::new(value) }, m)),
                Err(e) => Err(e),
            },
            Err(e) => Err(e),
        },
        Err(e) => Err(e),
    }
}

/// return : RETURN expr
pub open spec fn p_return(t: Seq<TokenView>, i: int) -> PAst {
    match p_eat(t, i, TokenType::Return) {
        Ok(j) => match p_expr(t, j) {
            Ok((e, k)) => Ok((SAst::Return { expression: Box::new(e) }, k)),
            Err(e) => Err(e),
        },
        Err(e) => Err(e),
    }
}

/// The name of the type of nothing: the return type of a function that
/// declares none.
pub open spec fn null_type_name() -> Seq<char> {
    "галяк"@
}

/// The rest of a variable declaration, once the type and the name are read:
/// nothing before an end of line, or = expr.
pub open spec fn p_dec_var_value(t: Seq<TokenView>, i: int) -> PAst {
    if kind(t, i) == TokenType::Eol {
        Ok((SAst::Nothing, i))
    } else {
        match p_eat(t, i, TokenType::Assign) {
            Ok(j) => p_expr(t, j),
            Err(e) => Err(e),
        }
    }
}

/// dec_var : (VAR | ARRAY) TYPE NAME (= expr)?
pub open spec fn p_dec_var(t: Seq<TokenView>, i: int) -> PAst {
    let c = tok(t, i);
    let head: Result<(bool, int), SpecParseError> = if c.0 == TokenType::Array {
        match p_eat(t, i, TokenType::Array) {
            Ok(j) => Ok((true, j)),
            Err(e) => Err(e),
        }
    } else if c.0 == TokenType::Var {
        match p_eat(t, i, TokenType::Var) {
            Ok(j) => Ok((false, j)),
            Err(e) => Err(e),
        }
    } else {
        Err(SpecParseError::Unsupported(c))
    };
    match head {
        Ok((array, j0)) => match p_eat(t, j0, TokenType::Name) {
            Ok(j1) => match p_eat(t, j1, TokenType::Name) {
                Ok(j2) => match p_dec_var_value(t, j2) {
                    Ok((value, k)) => Ok((
                        SAst::DeclareVariable {
                            array,
                            name: tok(t, j1).1,
                            vtype: tok(t, j0).1,
                            value: Box::new(value),
                        },
                        k,
                    )),
                    Err(e) => Err(e),
                },
                Err(e) => Err(e),
            },
            Err(e) => Err(e),
        },
        Err(e) => Err(e),
    }
}

/// The parameters of a function declaration, after its opening parenthesis:
/// (TYPE NAME (, TYPE NAME)*)? )
pub open spec fn p_func_args(t: Seq<TokenView>, i: int, acc: Seq<(Seq<char>, Seq<char>)>) -> Result<
    (Seq<(Seq<char>, Seq<char>)>, int),
    SpecParseError,
>
    decreases t.len() - i,
{
    if kind(t, i) == TokenType::RPar {
        match p_eat(t, i, TokenType::RPar) {
            Ok(j) => Ok((acc, j)),
            Err(e) => Err(e),
        }
    } else {
        match p_eat(t, i, TokenType::Name) {
            Ok(j1) => match p_eat(t, j1, TokenType::Name) {
                Ok(j2) => {
                    let acc2 = acc.push((tok(t, i).1, tok(t, j1).1));
                    if kind(t, j2) == TokenType::RPar {
                        match p_eat(t, j2, TokenType::RPar) {
                            Ok(j3) => Ok((acc2, j3)),
                            Err(e) => Err(e),
                        }
                    } else {
                        match p_eat(t, j2, TokenType::Coma) {
                            Ok(j3) => p_func_args(t, j3, acc2),
                            Err(e) => Err(e),
                        }
                    }
                },
                Err(e) => Err(e),
            },
            Err(e) => Err(e),
        }
    }
}

/// The return type of a function declaration: RET_TYPE NAME, or nothing
/// (the null type).
pub open spec fn p_ret_type(t: Seq<TokenView>, i: int) -> Result<(Seq<char>, int), SpecParseError> {
    if kind(t, i) == TokenType::RetType {
        match p_eat(t, i, TokenType::RetType) {
            Ok(j) => match p_eat(t, j, TokenType::Name) {
                Ok(k) => Ok((tok(t, j).1, k)),
                Err(e) => Err(e),
            },
            Err(e) => Err(e),
        }
    } else {
        Ok((null_type_name(), i))
    }
}

/// A compound statement: COMPOUND_START statement_list COMPOUND_END
pub open spec fn p_compound(t: Seq<TokenView>, i: int) -> PList
    decreases t.len() - i, 10int,
{
    match p_eat(t, i, TokenType::LBrack) {
        Ok(j) => match p_statement_list(t, j, Seq::empty()) {
            Ok((body, k)) => match p_eat(t, k, TokenType::RBrack) {
                Ok(m) => Ok((body, m)),
                Err(e) => Err(e),
            },
            Err(e) => Err(e),
        },
        Err(e) => Err(e),
    }
}

/// dec_func : FUNC NAME ( params ) (RET_TYPE TYPE)? compound
pub open spec fn p_dec_func(t: Seq<TokenView>, i: int) -> PAst
    decreases t.len() - i, 11int,
{
    match p_eat(t, i, TokenType::Func) {
        Ok(j1) => match p_eat(t, j1, TokenType::Name) {
            Ok(j2) => match p_eat(t, j2, TokenType::LPar) {
                Ok(j3) => match p_func_args(t, j3, Seq::empty()) {
                    Ok((args, k)) => match p_ret_type(t, k) {
                        Ok((return_type, k2)) => if i < k2 < t.len() {
                            match p_compound(t, k2) {
                                Ok((body, m)) => Ok((
                                    SAst::Function {
                                        name: tok(t, j1).1,
                                        args,
                                        return_type,
                                        compound_statement: body,
                                    },
                                    m,
                                )),
                                Err(e) => Err(e),
                            }
                        } else {
                            Err(unexpected(t, k2))
                        },
                        Err(e) => Err(e),
                    },
                    Err(e) => Err(e),
                },
                Err(e) => Err(e),
            },
            Err(e) => Err(e),
        },
        Err(e) => Err(e),
    }
}

/// if : IF expr compound EOL* (ELSE compound)?
pub open spec fn p_if(t: Seq<TokenView>, i: int) -> PAst
    decreases t.len() - i, 11int,
{
    match p_eat(t, i, TokenType::If) {
        Ok(j) => match p_expr(t, j) {
            Ok((condition, k)) => if i < k < t.len() {
                match p_compound(t, k) {
                    Ok((body, m)) => if i < m < t.len() {
                        let n = p_skip_eols(t, m);
                        match p_eat(t, n, TokenType::Else) {
                            Ok(e1) => if i < e1 {
                                match p_compound(t, e1) {
                                    Ok((else_body, q)) => Ok((
                                        SAst::If {
                                            condition: Box::new(condition),
                                            compound_statement: body,
                                            else_statement: Some(else_body),
                                        },
                                        q,
                                    )),
                                    Err(e) => Err(e),
                                }
                            } else {
                                Err(unexpected(t, e1))
                            },
                            Err(_) => Ok((
                                SAst::If {
                                    condition: Box::new(condition),
                                    compound_statement: body,
                                    else_statement: None,
                                },
                                n,
                            )),
                        }
                    } else {
                        Err(unexpected(t, m))
                    },
                    Err(e) => Err(e),
                }
            } else {
                Err(unexpected(t, k))
            },
            Err(e) => Err(e),
        },
        Err(e) => Err(e),
    }
}

/// while : WHILE expr compound
pub open spec fn p_while(t: Seq<TokenView>, i: int) -> PAst
    decreases t.len() - i, 11int,
{
    match p_eat(t, i, TokenType::While) {
        Ok(j) => match p_expr(t, j) {
            Ok((condition, k)) => if i < k < t.len() {
                match p_compound(t, k) {
                    Ok((body, m)) => Ok((
                        SAst::While { condition: Box::new(condition), compound_statement: body },
                        m,
                    )),
                    Err(e) => Err(e),
                }
            } else {
                Err(unexpected(t, k))
            },
            Err(e) => Err(e),
        },
        Err(e) => Err(e),
    }
}

/// A declaration: a function, or a variable followed by an optional end of
/// line. A class declaration is not implemented.
pub open spec fn p_declaration(t: Seq<TokenView>, i: int) -> PAst
    decreases t.len() - i, 12int,
{
    let c = tok(t, i);
    if c.0 == TokenType::Func {
        p_dec_func(t, i)
    } else if c.0 == TokenType::Var {
        match p_dec_var(t, i) {
            Ok((d, j)) => Ok((d, p_break_line(t, j))),
            Err(e) => Err(e),
        }
    } else if c.0 == TokenType::Class {
        Err(SpecParseError::Unsupported(c))
    } else {
        Err(unexpected(t, i))
    }
}

/// A statement with the end of line that may follow it.
pub open spec fn p_then_break_line(t: Seq<TokenView>, r: PAst) -> PAst {
    match r {
        Ok((node, j)) => Ok((node, p_break_line(t, j))),
        Err(e) => Err(e),
    }
}

/// statement : set_var | call_func | return | if | while | EOL | declaration
pub open spec fn p_statement(t: Seq<TokenView>, i: int) -> PAst
    decreases t.len() - i, 13int,
{
    let c = tok(t, i);
    if c.0 == TokenType::Name {
        let next = kind(t, i + 1);
        if next == TokenType::Assign {
            p_then_break_line(t, p_set_var(t, i))
        } else if next == TokenType::LPar {
            p_then_break_line(t, p_call_func(t, i))
        } else {
            Err(unexpected(t, i))
        }
    } else if c.0 == TokenType::Return {
        p_then_break_line(t, p_return(t, i))
    } else if c.0 == TokenType::If {
        p_then_break_line(t, p_if(t, i))
    } else if c.0 == TokenType::While {
        p_then_break_line(t, p_while(t, i))
    } else if c.0 == TokenType::Eol {
        Ok((SAst::Nothing, p_break_line(t, i)))
    } else {
        p_declaration(t, i)
    }
}

/// statement_list : statement*, up to the end of a compound statement or of
/// the file; each statement but the empty ones is recorded with its line.
pub open spec fn p_statement_list(t: Seq<TokenView>, i: int, acc: Seq<SAst>) -> PList
    decreases t.len() - i, 14int,
{
    let c = tok(t, i);
    if c.0 == TokenType::RBrack || c.0 == TokenType::Eof {
        Ok((acc, i))
    } else {
        match p_statement(t, i) {
            Ok((st, j)) => if i < j < t.len() {
                if st is Nothing {
                    p_statement_list(t, j, acc)
                } else {
                    p_statement_list(t, j, acc.push(SAst::Statement { line: c.2, statement: Box::new(st) }))
                }
            } else {
                Err(unexpected(t, j))
            },
            Err(e) => Err(e),
        }
    }
}

/// The syntax tree that `r` holds stands for the spec result `s`, and `at`
/// is the position after it.
pub open spec fn ast_result(r: Result<Ast, ParseError>, at: int, s: PAst) -> bool {
    match s {
        Ok((a, j)) => r matches Ok(x) && x.sview() == a && at == j,
        Err(e) => r matches Err(x) && x@ == e,
    }
}

/// Whether the text of `s` is `lit`.
fn is_text(s: &String, lit: &str) -> (b: bool)
    ensures
        b == (s@ == lit@),
{
    let l = String::from_str(lit);
    *s == l
}

/// Whether `s` reads as a decimal number.
pub fn valid_number_text(s: &String) -> (b: bool)
    ensures
        b == valid_number(s@),
{
    let cs = chars_of(s.as_str());
    let mut seen_dot = false;
    let mut seen_digit = false;
    let mut i: usize = 0;
    while i < cs.len()
        invariant
            cs@ == s@,
            i <= cs.len(),
            forall|k: int| 0 <= k < i ==> is_digit(#[trigger] cs@[k]) || cs@[k] == '.',
            forall|a: int, b: int| 0 <= a < b < i && #[trigger] cs@[a] == '.' ==> #[trigger] cs@[b] != '.',
            seen_dot <==> exists|k: int| 0 <= k < i && #[trigger] cs@[k] == '.',
            seen_digit <==> exists|k: int| 0 <= k < i && is_digit(#[trigger] cs@[k]),
        decreases cs.len() - i,
    {
        let c = cs[i];
        if '0' <= c && c <= '9' {
            seen_digit = true;
        } else if c == '.' {
            if seen_dot {
                proof {
                    let a = choose|k: int| 0 <= k < i && #[trigger] cs@[k] == '.';
                    assert(cs@[a] == '.' && cs@[i as int] == '.');
                }
                return false;
            }
            seen_dot = true;
        } else {
            assert(!(is_digit(cs@[i as int]) || cs@[i as int] == '.'));
            return false;
        }
        i = i + 1;
    }
    seen_digit
}

/// The parser of the language: it reads the tokens of a file and builds its
/// syntax tree.
pub struct Parser {
    tokens: Vec<Token>,
    pos: usize,
}

impl Parser {
    /// The tokens being parsed.
    pub closed spec fn toks(&self) -> Seq<TokenView> {
        self.tokens@.map_values(|x: Token| x@)
    }

    /// The position of the current token.
    pub closed spec fn at(&self) -> int {
        self.pos as int
    }

    /// The parser's internal invariant: the last token is the end of the file
    /// or a character that the lexer cannot read, and the position is inside.
    pub closed spec fn wf(&self) -> bool {
        &&& 0 < self.tokens@.len() <= usize::MAX
        &&& self.pos < self.tokens@.len()
        &&& (self.tokens@.last().name == TokenType::Eof || self.tokens@.last().name
            == TokenType::Unknown)
    }

    /// A parser at the first token of `file`. (The file holds at least one
    /// character: the lexer starts by reading the first one.)
    pub fn new(file: &String) -> (p: Parser)
        requires
            0 < file@.len(),
            file@.len() + 4 < usize::MAX,
        ensures
            p.wf(),
            p.toks() == lex_file(file@),
            p.at() == 0,
    {
        let tokens = tokenize(file.as_str());
        // Reading the length tells the invariant that it fits in a usize.
        let _len: usize = tokens.len();
        Parser { tokens, pos: 0 }
    }

    fn cur(&self) -> (t: &Token)
        requires
            self.wf(),
        ensures
            t@ == tok(self.toks(), self.at()),
    {
        &self.tokens[self.pos]
    }

    fn peek_kind(&self) -> (k: TokenType)
        requires
            self.wf(),
        ensures
            k == kind(self.toks(), self.at() + 1),
    {
        if self.pos + 1 < self.tokens.len() {
            self.tokens[self.pos + 1].name
        } else {
            self.tokens[self.tokens.len() - 1].name
        }
    }

    fn eat(&mut self, k: TokenType) -> (r: Result<Token, ParseError>)
        requires
            old(self).wf(),
            k != TokenType::Eof,
            k != TokenType::Unknown,
        ensures
            final(self).wf(),
            final(self).toks() == old(self).toks(),
            match p_eat(old(self).toks(), old(self).at(), k) {
                Ok(j) => r matches Ok(t) && t@ == tok(old(self).toks(), old(self).at()) && final(self).at() == j,
                Err(e) => r matches Err(x) && x@ == e && final(self).at() == old(self).at(),
            },
    {
        if self.tokens[self.pos].name == k {
            let prev = self.tokens[self.pos].duplicate();
            self.pos = self.pos + 1;
            Ok(prev)
        } else {
            Err(ParseError::Unexpected(self.tokens[self.pos].duplicate()))
        }
    }

    fn break_line(&mut self) -> (b: bool)
        requires
            old(self).wf(),
        ensures
            final(self).wf(),
            final(self).toks() == old(self).toks(),
            final(self).at() == p_break_line(old(self).toks(), old(self).at()),
            b == (final(self).at() != old(self).at()),
    {
        if self.tokens[self.pos].name == TokenType::Eol {
            let _ = self.eat(TokenType::Eol);
            return true;
        }
        false
    }

    /// factor : NUMBER | STRING | NAME | call_func | TRUE | FALSE | ( expr )
    fn st_factor(&mut self) -> (r: Result<Ast, ParseError>)
        requires
            old(self).wf(),
        ensures
            final(self).wf(),
            final(self).toks() == old(self).toks(),
            ast_result(r, final(self).at(), p_factor(old(self).toks(), old(self).at())),
            r is Ok ==> old(self).at() < final(self).at(),
        decreases old(self).toks().len() - old(self).at(), 2int,
    {
        let token = self.cur().duplicate();
        if token.name == TokenType::Number {
            let t = match self.eat(TokenType::Number) {
                Ok(t) => t,
                Err(e) => return Err(e),
            };
            if valid_number_text(&t.value) {
                return Ok(Ast::Num(t.value));
            } else {
                return Err(ParseError::Unsupported(t));
            }
        } else if token.name == TokenType::Str {
            let t = match self.eat(TokenType::Str) {
                Ok(t) => t,
                Err(e) => return Err(e),
            };
            return Ok(Ast::Str(t.value));
        } else if token.name == TokenType::Name {
            if self.peek_kind() == TokenType::LPar {
                return self.st_call_func();
            }
            let t = match self.eat(TokenType::Name) {
                Ok(t) => t,
                Err(e) => return Err(e),
            };
            return Ok(Ast::Keyword(t.value));
        } else if token.name == TokenType::True {
            match self.eat(TokenType::True) {
                Ok(_) => {},
                Err(e) => return Err(e),
            }
            return Ok(Ast::Bool(true));
        } else if token.name == TokenType::False {
            match self.eat(TokenType::False) {
                Ok(_) => {},
                Err(e) => return Err(e),
            }
            return Ok(Ast::Bool(false));
        } else if token.name == TokenType::LPar {
            match self.eat(TokenType::LPar) {
                Ok(_) => {},
                Err(e) => return Err(e),
            }
            let node = match self.st_expr() {
                Ok(n) => n,
                Err(e) => return Err(e),
            };
            match self.eat(TokenType::RPar) {
                Ok(_) => {},
                Err(e) => return Err(e),
            }
            return Ok(node);
        }
        Err(ParseError::Unexpected(token))
    }

    /// term : factor ((MUL | DIV) factor)*
    fn st_term(&mut self) -> (r: Result<Ast, ParseError>)
        requires
            old(self).wf(),
        ensures
            final(self).wf(),
            final(self).toks() == old(self).toks(),
            ast_result(r, final(self).at(), p_term(old(self).toks(), old(self).at())),
            r is Ok ==> old(self).at() < final(self).at(),
        decreases old(self).toks().len() - old(self).at(), 3int,
    {
        let ghost t = self.toks();
        let ghost p0 = self.at();
        let mut node = match self.st_factor() {
            Ok(n) => n,
            Err(e) => return Err(e),
        };
        loop
            invariant_except_break
                p_term(t, p0) == p_term_tail(t, self.at(), node.sview()),
            invariant
                self.wf(),
                self.toks() == old(self).toks(),
                t == old(self).toks(),
                p0 == old(self).at(),
                p0 < self.at(),
            ensures
                p_term(t, p0) == Ok::<(SAst, int), SpecParseError>((node.sview(), self.at())),
            decreases t.len() - self.at(),
        {
            let token = self.cur().duplicate();
            if is_text(&token.value, "*") || is_text(&token.value, "/") {
                match self.eat(TokenType::AriphOp) {
                    Ok(_) => {},
                    Err(e) => return Err(e),
                }
            } else {
                break;
            }
            let right = match self.st_factor() {
                Ok(n) => n,
                Err(e) => return Err(e),
            };
            node = Ast::Expression { left: Box::new(node), op: token, right: Box::new(right) };
        }
        Ok(node)
    }

    /// expr : term ((PLUS | MINUS | comparison) term)*
    fn st_expr(&mut self) -> (r: Result<Ast, ParseError>)
        requires
            old(self).wf(),
        ensures
            final(self).wf(),
            final(self).toks() == old(self).toks(),
            ast_result(r, final(self).at(), p_expr(old(self).toks(), old(self).at())),
            r is Ok ==> old(self).at() < final(self).at(),
        decreases old(self).toks().len() - old(self).at(), 4int,
    {
        let ghost t = self.toks();
        let ghost p0 = self.at();
        let mut node = match self.st_term() {
            Ok(n) => n,
            Err(e) => return Err(e),
        };
        loop
            invariant_except_break
                p_expr(t, p0) == p_expr_tail(t, self.at(), node.sview()),
            invariant
                self.wf(),
                self.toks() == old(self).toks(),
                t == old(self).toks(),
                p0 == old(self).at(),
                p0 < self.at(),
            ensures
                p_expr(t, p0) == Ok::<(SAst, int), SpecParseError>((node.sview(), self.at())),
            decreases t.len() - self.at(),
        {
            let token = self.cur().duplicate();
            let op = if is_text(&token.value, "+") || is_text(&token.value, "-") {
                TokenType::AriphOp
            } else if token.name == TokenType::Equals || token.name == TokenType::NotEquals
                || token.name == TokenType::More || token.name == TokenType::Less {
                token.name
            } else {
                break;
            };
            match self.eat(op) {
                Ok(_) => {},
                Err(e) => return Err(e),
            }
            let right = match self.st_term() {
                Ok(n) => n,
                Err(e) => return Err(e),
            };
            node = Ast::Expression { left: Box::new(node), op: token, right: Box::new(right) };
        }
        Ok(node)
    }

    /// call_func : NAME ( (expr (, expr)*)? )
    pub fn st_call_func(&mut self) -> (r: Result<Ast, ParseError>)
        requires
            old(self).wf(),
        ensures
            final(self).wf(),
            final(self).toks() == old(self).toks(),
            ast_result(r, final(self).at(), p_call_func(old(self).toks(), old(self).at())),
            r is Ok ==> old(self).at() < final(self).at(),
        decreases old(self).toks().len() - old(self).at(), 1int,
    {
        let ghost t = self.toks();
        let ghost p0 = self.at();
        let name = match self.eat(TokenType::Name) {
            Ok(tk) => tk.value,
            Err(e) => return Err(e),
        };
        match self.eat(TokenType::LPar) {
            Ok(_) => {},
            Err(e) => return Err(e),
        }
        let ghost start = self.at();
        let mut args: Vec<Ast> = Vec::new();
        proof { lemma_seq_sview_empty(); }
        loop
            invariant_except_break
                p_call_func(t, p0) == match p_call_args(t, self.at(), seq_sview(args@)) {
                    Ok((a, m)) => Ok((SAst::CallFunc { name: name@, args: a }, m)),
                    Err(e) => Err(e),
                },
            invariant
                self.wf(),
                self.toks() == old(self).toks(),
                t == old(self).toks(),
                p0 == old(self).at(),
                p0 < self.at(),
                name@ == tok(t, p0).1,
            ensures
                p_call_func(t, p0) == Ok::<(SAst, int), SpecParseError>(
                    (SAst::CallFunc { name: name@, args: seq_sview(args@) }, self.at()),
                ),
            decreases t.len() - self.at(),
        {
            if self.cur().name == TokenType::RPar {
                match self.eat(TokenType::RPar) {
                    Ok(_) => {},
                    Err(e) => return Err(e),
                }
                break;
            }
            let arg = match self.st_expr() {
                Ok(a) => a,
                Err(e) => return Err(e),
            };
            proof { lemma_seq_sview_push(args@, arg); }
            args.push(arg);
            if self.cur().name == TokenType::RPar {
                match self.eat(TokenType::RPar) {
                    Ok(_) => {},
                    Err(e) => return Err(e),
                }
                break;
            }
            match self.eat(TokenType::Coma) {
                Ok(_) => {},
                Err(e) => return Err(e),
            }
        }
        Ok(Ast::CallFunc { name, args })
    }

    /// set_var : NAME = expr
    pub fn st_set_var(&mut self) -> (r: Result<Ast, ParseError>)
        requires
            old(self).wf(),
        ensures
            final(self).wf(),
            final(self).toks() == old(self).toks(),
            ast_result(r, final(self).at(), p_set_var(old(self).toks(), old(self).at())),
            r is Ok ==> old(self).at() < final(self).at(),
    {
        let name = match self.eat(TokenType::Name) {
            Ok(tk) => tk.value,
            Err(e) => return Err(e),
        };
        match self.eat(TokenType::Assign) {
            Ok(_) => {},
            Err(e) => return Err(e),
        }
        let value = match self.st_expr() {
            Ok(v) => v,
            Err(e) => return Err(e),
        };
        Ok(Ast::SetVariable { name, value: Box::new(value) })
    }

    /// return : RETURN expr
    fn st_return(&mut self) -> (r: Result<Ast, ParseError>)
        requires
            old(self).wf(),
        ensures
            final(self).wf(),
            final(self).toks() == old(self).toks(),
            ast_result(r, final(self).at(), p_return(old(self).toks(), old(self).at())),
            r is Ok ==> old(self).at() < final(self).at(),
    {
        match self.eat(TokenType::Return) {
            Ok(_) => {},
            Err(e) => return Err(e),
        }
        let expression = match self.st_expr() {
            Ok(v) => v,
            Err(e) => return Err(e),
        };
        Ok(Ast::Return { expression: Box::new(expression) })
    }

    /// dec_var : (VAR | ARRAY) TYPE NAME (= expr)?
    pub fn st_dec_var(&mut self) -> (r: Result<Ast, ParseError>)
        requires
            old(self).wf(),
        ensures
            final(self).wf(),
            final(self).toks() == old(self).toks(),
            ast_result(r, final(self).at(), p_dec_var(old(self).toks(), old(self).at())),
            r is Ok ==> old(self).at() < final(self).at(),
    {
        let c = self.cur().duplicate();
        let array = if c.name == TokenType::Array {
            match self.eat(TokenType::Array) {
                Ok(_) => {},
                Err(e) => return Err(e),
            }
            true
        } else if c.name == TokenType::Var {
            match self.eat(TokenType::Var) {
                Ok(_) => {},
                Err(e) => return Err(e),
            }
            false
        } else {
            return Err(ParseError::Unsupported(c));
        };
        let vtype = match self.eat(TokenType::Name) {
            Ok(tk) => tk.value,
            Err(e) => return Err(e),
        };
        let name = match self.eat(TokenType::Name) {
            Ok(tk) => tk.value,
            Err(e) => return Err(e),
        };
        let value;
        if self.cur().name == TokenType::Eol {
            value = Ast::Nothing;
        } else {
            match self.eat(TokenType::Assign) {
                Ok(_) => {},
                Err(e) => return Err(e),
            }
            value = match self.st_expr() {
                Ok(v) => v,
                Err(e) => return Err(e),
            };
        }
        Ok(Ast::DeclareVariable { array, name, vtype, value: Box::new(value) })
    }

    /// The parameters of a function declaration, after its opening
    /// parenthesis: (TYPE NAME (, TYPE NAME)*)? )
    fn st_func_args(&mut self) -> (r: Result<Vec<(String, String)>, ParseError>)
        requires
            old(self).wf(),
        ensures
            final(self).wf(),
            final(self).toks() == old(self).toks(),
            match p_func_args(old(self).toks(), old(self).at(), Seq::empty()) {
                Ok((a, j)) => r matches Ok(x) && pair_views(x@) == a && final(self).at() == j,
                Err(e) => r matches Err(x) && x@ == e,
            },
            r is Ok ==> old(self).at() < final(self).at(),
    {
        let ghost t = self.toks();
        let ghost p0 = self.at();
        let ghost start = self.at();
        let mut args: Vec<(String, String)> = Vec::new();
        assert(pair_views(args@) =~= Seq::<(Seq<char>, Seq<char>)>::empty());
        loop
            invariant_except_break
                p_func_args(t, start, Seq::empty()) == p_func_args(t, self.at(), pair_views(args@)),
            invariant
                self.wf(),
                self.toks() == old(self).toks(),
                t == old(self).toks(),
                p0 == old(self).at(),
                p0 == start,
                start <= self.at(),
            ensures
                p_func_args(t, start, Seq::empty()) == Ok::<(Seq<(Seq<char>, Seq<char>)>, int), SpecParseError>(
                    (pair_views(args@), self.at()),
                ),
                start < self.at(),
            decreases t.len() - self.at(),
        {
            if self.cur().name == TokenType::RPar {
                match self.eat(TokenType::RPar) {
                    Ok(_) => {},
                    Err(e) => return Err(e),
                }
                break;
            }
            let vtype = match self.eat(TokenType::Name) {
                Ok(tk) => tk.value,
                Err(e) => return Err(e),
            };
            let vname = match self.eat(TokenType::Name) {
                Ok(tk) => tk.value,
                Err(e) => return Err(e),
            };
            let ghost before = args@;
            args.push((vtype, vname));
            assert(pair_views(args@) =~= pair_views(before).push((vtype@, vname@)));
            if self.cur().name == TokenType::RPar {
                match self.eat(TokenType::RPar) {
                    Ok(_) => {},
                    Err(e) => return Err(e),
                }
                break;
            }
            match self.eat(TokenType::Coma) {
                Ok(_) => {},
                Err(e) => return Err(e),
            }
        }
        Ok(args)
    }

    /// dec_func : FUNC NAME ( (TYPE NAME (, TYPE NAME)*)? ) (RET_TYPE TYPE)? compound
    pub fn st_dec_func(&mut self) -> (r: Result<Ast, ParseError>)
        requires
            old(self).wf(),
        ensures
            final(self).wf(),
            final(self).toks() == old(self).toks(),
            ast_result(r, final(self).at(), p_dec_func(old(self).toks(), old(self).at())),
            r is Ok ==> old(self).at() < final(self).at(),
        decreases old(self).toks().len() - old(self).at(), 11int,
    {
        let ghost t = self.toks();
        let ghost p0 = self.at();
        match self.eat(TokenType::Func) {
            Ok(_) => {},
            Err(e) => return Err(e),
        }
        let name = match self.eat(TokenType::Name) {
            Ok(tk) => tk.value,
            Err(e) => return Err(e),
        };
        match self.eat(TokenType::LPar) {
            Ok(_) => {},
            Err(e) => return Err(e),
        }
        let args = match self.st_func_args() {
            Ok(a) => a,
            Err(e) => return Err(e),
        };
        let return_type: String;
        if self.cur().name == TokenType::RetType {
            match self.eat(TokenType::RetType) {
                Ok(_) => {},
                Err(e) => return Err(e),
            }
            return_type = match self.eat(TokenType::Name) {
                Ok(tk) => tk.value,
                Err(e) => return Err(e),
            };
        } else {
            return_type = String::from_str(null_type_text());
        }
        match self.eat(TokenType::LBrack) {
            Ok(_) => {},
            Err(e) => return Err(e),
        }
        let compound_statement = match self.statement_list() {
            Ok(l) => l,
            Err(e) => return Err(e),
        };
        match self.eat(TokenType::RBrack) {
            Ok(_) => {},
            Err(e) => return Err(e),
        }
        Ok(Ast::Function { name, args, return_type, compound_statement })
    }

    /// declaration : dec_func | dec_var EOL?
    pub fn declaration_statement(&mut self) -> (r: Result<Ast, ParseError>)
        requires
            old(self).wf(),
        ensures
            final(self).wf(),
            final(self).toks() == old(self).toks(),
            ast_result(r, final(self).at(), p_declaration(old(self).toks(), old(self).at())),
            r is Ok ==> old(self).at() < final(self).at(),
        decreases old(self).toks().len() - old(self).at(), 12int,
    {
        let c = self.cur().duplicate();
        if c.name == TokenType::Func {
            self.st_dec_func()
        } else if c.name == TokenType::Var {
            let dec_var = match self.st_dec_var() {
                Ok(d) => d,
                Err(e) => return Err(e),
            };
            self.break_line();
            Ok(dec_var)
        } else if c.name == TokenType::Class {
            Err(ParseError::Unsupported(c))
        } else {
            Err(ParseError::Unexpected(c))
        }
    }

    /// if : IF expr compound EOL* (ELSE compound)?
    pub fn st_if(&mut self) -> (r: Result<Ast, ParseError>)
        requires
            old(self).wf(),
        ensures
            final(self).wf(),
            final(self).toks() == old(self).toks(),
            ast_result(r, final(self).at(), p_if(old(self).toks(), old(self).at())),
            r is Ok ==> old(self).at() < final(self).at(),
        decreases old(self).toks().len() - old(self).at(), 11int,
    {
        let ghost t = self.toks();
        let ghost p0 = self.at();
        match self.eat(TokenType::If) {
            Ok(_) => {},
            Err(e) => return Err(e),
        }
        let condition = match self.st_expr() {
            Ok(c) => c,
            Err(e) => return Err(e),
        };
        match self.eat(TokenType::LBrack) {
            Ok(_) => {},
            Err(e) => return Err(e),
        }
        let compound_statement = match self.statement_list() {
            Ok(l) => l,
            Err(e) => return Err(e),
        };
        match self.eat(TokenType::RBrack) {
            Ok(_) => {},
            Err(e) => return Err(e),
        }
        let ghost m = self.at();
        while self.break_line()
            invariant
                self.wf(),
                self.toks() == old(self).toks(),
                t == old(self).toks(),
                m <= self.at(),
                p_skip_eols(t, m) == p_skip_eols(t, self.at()),
            decreases t.len() - self.at(),
        {
        }
        let else_statement = if self.cur().name == TokenType::Else {
            match self.eat(TokenType::Else) {
                Ok(_) => {},
                Err(e) => return Err(e),
            }
            match self.eat(TokenType::LBrack) {
                Ok(_) => {},
                Err(e) => return Err(e),
            }
            let stat = match self.statement_list() {
                Ok(l) => l,
                Err(e) => return Err(e),
            };
            match self.eat(TokenType::RBrack) {
                Ok(_) => {},
                Err(e) => return Err(e),
            }
            Some(stat)
        } else {
            None
        };
        Ok(Ast::If { condition: Box::new(condition), compound_statement, else_statement })
    }

    /// while : WHILE expr compound
    pub fn st_while(&mut self) -> (r: Result<Ast, ParseError>)
        requires
            old(self).wf(),
        ensures
            final(self).wf(),
            final(self).toks() == old(self).toks(),
            ast_result(r, final(self).at(), p_while(old(self).toks(), old(self).at())),
            r is Ok ==> old(self).at() < final(self).at(),
        decreases old(self).toks().len() - old(self).at(), 11int,
    {
        match self.eat(TokenType::While) {
            Ok(_) => {},
            Err(e) => return Err(e),
        }
        let condition = match self.st_expr() {
            Ok(c) => c,
            Err(e) => return Err(e),
        };
        match self.eat(TokenType::LBrack) {
            Ok(_) => {},
            Err(e) => return Err(e),
        }
        let compound_statement = match self.statement_list() {
            Ok(l) => l,
            Err(e) => return Err(e),
        };
        match self.eat(TokenType::RBrack) {
            Ok(_) => {},
            Err(e) => return Err(e),
        }
        Ok(Ast::While { condition: Box::new(condition), compound_statement })
    }

    /// statement : set_var | call_func | return | if | while | EOL | declaration
    pub fn statement(&mut self) -> (r: Result<Ast, ParseError>)
        requires
            old(self).wf(),
        ensures
            final(self).wf(),
            final(self).toks() == old(self).toks(),
            ast_result(r, final(self).at(), p_statement(old(self).toks(), old(self).at())),
            r is Ok ==> old(self).at() < final(self).at(),
        decreases old(self).toks().len() - old(self).at(), 13int,
    {
        let c = self.cur().duplicate();
        if c.name == TokenType::Name {
            let peak = self.peek_kind();
            let expr = if peak == TokenType::Assign {
                self.st_set_var()
            } else if peak == TokenType::LPar {
                self.st_call_func()
            } else {
                return Err(ParseError::Unexpected(c));
            };
            let expr = match expr {
                Ok(e) => e,
                Err(e) => return Err(e),
            };
            self.break_line();
            Ok(expr)
        } else if c.name == TokenType::Return {
            let ret = match self.st_return() {
                Ok(e) => e,
                Err(e) => return Err(e),
            };
            self.break_line();
            Ok(ret)
        } else if c.name == TokenType::If {
            let ifst = match self.st_if() {
                Ok(e) => e,
                Err(e) => return Err(e),
            };
            self.break_line();
            Ok(ifst)
        } else if c.name == TokenType::While {
            let st_while = match self.st_while() {
                Ok(e) => e,
                Err(e) => return Err(e),
            };
            self.break_line();
            Ok(st_while)
        } else if c.name == TokenType::Eol {
            self.break_line();
            Ok(Ast::Nothing)
        } else {
            self.declaration_statement()
        }
    }

    /// statement_list : statement*, up to the end of a compound statement or
    /// of the file.
    pub fn statement_list(&mut self) -> (r: Result<Vec<Ast>, ParseError>)
        requires
            old(self).wf(),
        ensures
            final(self).wf(),
            final(self).toks() == old(self).toks(),
            list_result(r, final(self).at(), p_statement_list(old(self).toks(), old(self).at(), Seq::empty())),
            r is Ok ==> old(self).at() <= final(self).at(),
        decreases old(self).toks().len() - old(self).at(), 14int,
    {
        let ghost t = self.toks();
        let ghost p0 = self.at();
        let mut statements: Vec<Ast> = Vec::new();
        proof { lemma_seq_sview_empty(); }
        while self.cur().name != TokenType::RBrack && self.cur().name != TokenType::Eof
            invariant
                self.wf(),
                self.toks() == old(self).toks(),
                t == old(self).toks(),
                p0 == old(self).at(),
                p0 <= self.at(),
                p_statement_list(t, p0, Seq::empty()) == p_statement_list(t, self.at(), seq_sview(statements@)),
            decreases t.len() - self.at(),
        {
            let line = self.cur().line;
            let statement = match self.statement() {
                Ok(s) => s,
                Err(e) => return Err(e),
            };
            if let Ast::Nothing = statement {
                continue;
            }
            let st = Ast::Statement { line, statement: Box::new(statement) };
            proof { lemma_seq_sview_push(statements@, st); }
            statements.push(st);
        }
        Ok(statements)
    }

    /// The syntax tree of the whole file: its statements, up to the end of the
    /// file or to the first unmatched end of a compound statement.
    pub fn parse(&mut self) -> (r: Result<Vec<Ast>, ParseError>)
        requires
            old(self).wf(),
        ensures
            final(self).wf(),
            final(self).toks() == old(self).toks(),
            list_result(r, final(self).at(), p_statement_list(old(self).toks(), old(self).at(), Seq::empty())),
    {
        self.statement_list()
    }
}

/// The list of syntax trees that `r` holds stands for the spec result `s`,
/// and `at` is the position after it.
pub open spec fn list_result(r: Result<Vec<Ast>, ParseError>, at: int, s: PList) -> bool {
    match s {
        Ok((l, j)) => r matches Ok(x) && seq_sview(x@) == l && at == j,
        Err(e) => r matches Err(x) && x@ == e,
    }
}

/// The name of the type of nothing.
pub fn null_type_text() -> (s: &'static str)
    ensures
        s@ == null_type_name(),
{
    "галяк"
}

} // verus!
