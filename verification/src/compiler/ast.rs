use vstd::prelude::*;
use crate::compiler::token::Token;
use crate::pre::lexer::TokenView;

verus! {

/// A node of the syntax tree that the parser builds.
#[derive(Debug)]
pub enum Ast {
    Nothing,
    /// A number literal, as written.
    Num(String),
    Bool(bool),
    Keyword(String),
    Str(String),
    Expression { left: Box<Ast>, op: Token, right: Box<Ast> },
    DeclareVariable { array: bool, name: String, vtype: String, value: Box<Ast> },
    SetVariable { name: String, value: Box<Ast> },
    Return { expression: Box<Ast> },
    CallFunc { name: String, args: Vec<Ast> },
    Statement { line: usize, statement: Box<Ast> },
    Function {
        name: String,
        args: Vec<(String, String)>,
        return_type: String,
        compound_statement: Vec<Ast>,
    },
    If { condition: Box<Ast>, compound_statement: Vec<Ast>, else_statement: Option<Vec<Ast>> },
    While { condition: Box<Ast>, compound_statement: Vec<Ast> },
}

/// What a syntax tree holds, with texts as character sequences.
pub ghost enum SAst {
    Nothing,
    Num(Seq<char>),
    Bool(bool),
    Keyword(Seq<char>),
    Str(Seq<char>),
    Expression { left: Box<SAst>, op: TokenView, right: Box<SAst> },
    DeclareVariable { array: bool, name: Seq<char>, vtype: Seq<char>, value: Box<SAst> },
    SetVariable { name: Seq<char>, value: Box<SAst> },
    Return { expression: Box<SAst> },
    CallFunc { name: Seq<char>, args: Seq<SAst> },
    Statement { line: int, statement: Box<SAst> },
    Function {
        name: Seq<char>,
        args: Seq<(Seq<char>, Seq<char>)>,
        return_type: Seq<char>,
        compound_statement: Seq<SAst>,
    },
    If { condition: Box<SAst>, compound_statement: Seq<SAst>, else_statement: Option<Seq<SAst>> },
    While { condition: Box<SAst>, compound_statement: Seq<SAst> },
}

pub open spec fn pair_views(s: Seq<(String, String)>) -> Seq<(Seq<char>, Seq<char>)> {
    s.map_values(|p: (String, String)| (p.0@, p.1@))
}

impl Ast {
    pub open spec fn sview(self) -> SAst
        decreases self,
    {
        match self {
            Ast::Nothing => SAst::Nothing,
            Ast::Num(s) => SAst::Num(s@),
            Ast::Bool(b) => SAst::Bool(b),
            Ast::Keyword(s) => SAst::Keyword(s@),
            Ast::Str(s) => SAst::Str(s@),
            Ast::Expression { left, op, right } => SAst::Expression {
                left: Box::new(left.sview()),
                op: op@,
                right: Box::new(right.sview()),
            },
            Ast::DeclareVariable { array, name, vtype, value } => SAst::DeclareVariable {
                array,
                name: name@,
                vtype: vtype@,
                value: Box::new(value.sview()),
            },
            Ast::SetVariable { name, value } => SAst::SetVariable { name: name@, value: Box::new(value.sview()) },
            Ast::Return { expression } => SAst::Return { expression: Box::new(expression.sview()) },
            Ast::CallFunc { name, args } => SAst::CallFunc { name: name@, args: seq_sview(args@) },
            Ast::Statement { line, statement } => SAst::Statement {
                line: line as int,
                statement: Box::new(statement.sview()),
            },
            Ast::Function { name, args, return_type, compound_statement } => SAst::Function {
                name: name@,
                args: pair_views(args@),
                return_type: return_type@,
                compound_statement: seq_sview(compound_statement@),
            },
            Ast::If { condition, compound_statement, else_statement } => SAst::If {
                condition: Box::new(condition.sview()),
                compound_statement: seq_sview(compound_statement@),
                else_statement: match else_statement {
                    Some(e) => Some(seq_sview(e@)),
                    None => None,
                },
            },
            Ast::While { condition, compound_statement } => SAst::While {
                condition: Box::new(condition.sview()),
                compound_statement: seq_sview(compound_statement@),
            },
        }
    }
}

/// The views of the nodes of `s`, in order.
pub open spec fn seq_sview(s: Seq<Ast>) -> Seq<SAst>
    decreases s,
{
    if s.len() == 0 {
        Seq::empty()
    } else {
        seq![s[0].sview()] + seq_sview(s.drop_first())
    }
}

pub proof fn lemma_seq_sview_len(s: Seq<Ast>)
    ensures
        seq_sview(s).len() == s.len(),
    decreases s.len(),
{
    if s.len() > 0 {
        lemma_seq_sview_len(s.drop_first());
    }
}

pub proof fn lemma_seq_sview_push(s: Seq<Ast>, a: Ast)
    ensures
        seq_sview(s.push(a)) == seq_sview(s).push(a.sview()),
    decreases s.len(),
{
    if s.len() == 0 {
        assert(s.push(a).drop_first() =~= Seq::<Ast>::empty());
        assert(seq_sview(Seq::<Ast>::empty()) =~= Seq::<SAst>::empty());
        assert(seq_sview(s.push(a)) =~= seq![a.sview()]);
        assert(seq_sview(s) =~= Seq::<SAst>::empty());
    } else {
        lemma_seq_sview_push(s.drop_first(), a);
        assert(s.push(a).drop_first() =~= s.drop_first().push(a));
        assert(s.push(a)[0] == s[0]);
        assert(seq_sview(s.push(a)) =~= seq_sview(s).push(a.sview()));
    }
}

pub proof fn lemma_seq_sview_empty()
    ensures
        seq_sview(Seq::<Ast>::empty()) == Seq::<SAst>::empty(),
{
    assert(seq_sview(Seq::<Ast>::empty()) =~= Seq::<SAst>::empty());
}

pub proof fn lemma_seq_sview_index(s: Seq<Ast>, i: int)
    requires
        0 <= i < s.len(),
    ensures
        seq_sview(s)[i] == s[i].sview(),
        seq_sview(s).len() == s.len(),
    decreases s.len(),
{
    lemma_seq_sview_len(s);
    if i > 0 {
        lemma_seq_sview_index(s.drop_first(), i - 1);
    }
}

/// A copy of the pairs of texts `v`.
fn copy_pairs(v: &Vec<(String, String)>) -> (r: Vec<(String, String)>)
    ensures
        pair_views(r@) == pair_views(v@),
{
    let mut r: Vec<(String, String)> = Vec::new();
    let mut i: usize = 0;
    while i < v.len()
        invariant
            i <= v@.len(),
            r@.len() == i,
            forall|k: int| 0 <= k < i ==> (#[trigger] r@[k]).0@ == v@[k].0@ && r@[k].1@ == v@[k].1@,
        decreases v@.len() - i,
    {
        r.push((v[i].0.clone(), v[i].1.clone()));
        i = i + 1;
    }
    assert(pair_views(r@) =~= pair_views(v@));
    r
}

/// A copy of the nodes `v`.
fn copy_nodes(v: &Vec<Ast>) -> (r: Vec<Ast>)
    ensures
        seq_sview(r@) == seq_sview(v@),
    decreases v,
{
    let mut r: Vec<Ast> = Vec::new();
    let mut i: usize = 0;
    proof {
        lemma_seq_sview_len(v@);
    }
    while i < v.len()
        invariant
            i <= v@.len(),
            r@.len() == i,
            forall|k: int| 0 <= k < i ==> (#[trigger] r@[k]).sview() == v@[k].sview(),
        decreases v@.len() - i,
    {
        let a = v[i].duplicate();
        r.push(a);
        i = i + 1;
    }
    proof {
        lemma_seq_sview_len(r@);
        assert forall|k: int| 0 <= k < r@.len() implies #[trigger] seq_sview(r@)[k] == seq_sview(v@)[k] by {
            lemma_seq_sview_index(r@, k);
            lemma_seq_sview_index(v@, k);
        }
        assert(seq_sview(r@) =~= seq_sview(v@));
    }
    r
}

impl Ast {
    /// A copy of the tree.
    pub fn duplicate(&self) -> (a: Ast)
        ensures
            a.sview() == self.sview(),
        decreases self,
    {
        match self {
            Ast::Nothing => Ast::Nothing,
            Ast::Num(s) => Ast::Num(s.clone()),
            Ast::Bool(b) => Ast::Bool(*b),
            Ast::Keyword(s) => Ast::Keyword(s.clone()),
            Ast::Str(s) => Ast::Str(s.clone()),
            Ast::Expression { left, op, right } => Ast::Expression {
                left: Box::new(left.duplicate()),
                op: op.duplicate(),
                right: Box::new(right.duplicate()),
            },
            Ast::DeclareVariable { array, name, vtype, value } => Ast::DeclareVariable {
                array: *array,
                name: name.clone(),
                vtype: vtype.clone(),
                value: Box::new(value.duplicate()),
            },
            Ast::SetVariable { name, value } => Ast::SetVariable {
                name: name.clone(),
                value: Box::new(value.duplicate()),
            },
            Ast::Return { expression } => Ast::Return { expression: Box::new(expression.duplicate()) },
            Ast::CallFunc { name, args } => Ast::CallFunc { name: name.clone(), args: copy_nodes(args) },
            Ast::Statement { line, statement } => Ast::Statement {
                line: *line,
                statement: Box::new(statement.duplicate()),
            },
            Ast::Function { name, args, return_type, compound_statement } => Ast::Function {
                name: name.clone(),
                args: copy_pairs(args),
                return_type: return_type.clone(),
                compound_statement: copy_nodes(compound_statement),
            },
            Ast::If { condition, compound_statement, else_statement } => Ast::If {
                condition: Box::new(condition.duplicate()),
                compound_statement: copy_nodes(compound_statement),
                else_statement: match else_statement {
                    Some(e) => Some(copy_nodes(e)),
                    None => None,
                },
            },
            Ast::While { condition, compound_statement } => Ast::While {
                condition: Box::new(condition.duplicate()),
                compound_statement: copy_nodes(compound_statement),
            },
        }
    }
}

/// The tree that `ast` points to, copied.
pub fn deref_ast(ast: &Box<Ast>) -> (a: Ast)
    ensures
        a.sview() == ast.sview(),
{
    ast.duplicate()
}

} // verus!
