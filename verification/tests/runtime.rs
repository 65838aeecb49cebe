use galyak::compiler::ast::Ast;
use galyak::compiler::parser::Parser;
use galyak::compiler::token::{Token, TokenType};
use galyak::runtime::func::{init_stack_res, GlkFuncDeclaration};
use galyak::runtime::interpreter::{
    arith_op, builtin, builtin_result, call_error, cond_mode, equality_result, eval_mode, leftmost,
    missing_result, statement_action, stops_after, ArithOp, Builtin, CondMode, EvalMode, StatementAction,
};
use galyak::runtime::memory::storage::VarInfo;
use galyak::runtime::memory::types::Type;

fn s(x: &str) -> String {
    x.to_string()
}

fn op(name: TokenType, value: &str) -> Token {
    Token::new(name, s(value), 1, 0)
}

fn bin(left: Ast, o: Token, right: Ast) -> Ast {
    Ast::Expression { left: Box::new(left), op: o, right: Box::new(right) }
}

fn stmt(a: Ast) -> Ast {
    Ast::Statement { line: 1, statement: Box::new(a) }
}

fn names(v: &[VarInfo]) -> Vec<(Type, String)> {
    v.iter().map(|i| (i.vtype, i.name.clone())).collect()
}

#[test]
fn reservations_of_a_parsed_program() {
    let file = s("штріх цифри а = 1 крч\nштріх букви б крч\nа = 2\nбазар(а)\n");
    let body = Parser::new(&file).parse().ok().unwrap();
    let res = init_stack_res(&body);
    assert_eq!(names(&res), vec![(Type::Number, s("а")), (Type::String, s("б"))]);
}

#[test]
fn reservations_include_functions_and_unknown_types() {
    let body = vec![
        stmt(Ast::Function {
            name: s("ф"),
            args: vec![],
            return_type: s("галяк"),
            compound_statement: vec![],
        }),
        stmt(Ast::DeclareVariable {
            array: false,
            name: s("х"),
            vtype: s("щось"),
            value: Box::new(Ast::Nothing),
        }),
        Ast::Num(s("1")),
    ];
    let res = init_stack_res(&body);
    assert_eq!(names(&res), vec![(Type::Func, s("ф")), (Type::Class, s("х"))]);
}

#[test]
fn function_frame_reserves_body_then_arguments_then_result() {
    let body = vec![stmt(Ast::DeclareVariable {
        array: false,
        name: s("в"),
        vtype: s("цифри"),
        value: Box::new(Ast::Nothing),
    })];
    let args = vec![
        VarInfo { vtype: Type::Number, name: s("а") },
        VarInfo { vtype: Type::String, name: s("б") },
    ];
    let f = GlkFuncDeclaration::new(body, args, Type::Number, s("сума"));
    assert_eq!(f.name, "сума");
    assert_eq!(f.return_type, Type::Number);
    assert_eq!(f.args.len(), 2);
    assert_eq!(
        names(&f.stack_reservation),
        vec![
            (Type::Number, s("в")),
            (Type::Number, s("а")),
            (Type::String, s("б")),
            (Type::Number, s("#")),
        ]
    );
}

#[test]
fn function_without_result_reserves_no_result_place() {
    let f = GlkFuncDeclaration::new(vec![], vec![], Type::Null, s("main"));
    assert!(f.stack_reservation.is_empty());
    assert_eq!(f.call_stack.len(), 0);
}

#[test]
fn reservation_duplicate_is_equal() {
    let v = VarInfo { vtype: Type::String, name: s("рядок") };
    let d = v.duplicate();
    assert_eq!(d.vtype, Type::String);
    assert_eq!(d.name, "рядок");
}

#[test]
fn builtins_by_name() {
    assert_eq!(builtin(&s("базар")), Some(Builtin::Print));
    assert_eq!(builtin(&s("базарлн")), Some(Builtin::PrintLn));
    assert_eq!(builtin(&s("шоти")), Some(Builtin::Input));
    assert_eq!(builtin(&s("тіпацифри")), Some(Builtin::ToNumber));
    assert_eq!(builtin(&s("сума")), None);
    assert_eq!(builtin(&s("")), None);
}

#[test]
fn arithmetic_operators_by_text() {
    assert_eq!(arith_op(&op(TokenType::AriphOp, "+")), Some(ArithOp::Add));
    assert_eq!(arith_op(&op(TokenType::AriphOp, "-")), Some(ArithOp::Sub));
    assert_eq!(arith_op(&op(TokenType::AriphOp, "*")), Some(ArithOp::Mul));
    assert_eq!(arith_op(&op(TokenType::AriphOp, "/")), Some(ArithOp::Div));
    assert_eq!(arith_op(&op(TokenType::AriphOp, "%")), Some(ArithOp::Rem));
    assert_eq!(arith_op(&op(TokenType::Equals, "внатурі")), None);
}

#[test]
fn leftmost_operand_of_a_chain() {
    let e = bin(
        bin(Ast::Str(s("а")), op(TokenType::AriphOp, "+"), Ast::Num(s("1"))),
        op(TokenType::AriphOp, "+"),
        Ast::Keyword(s("х")),
    );
    match leftmost(&e) {
        Ast::Str(t) => assert_eq!(t, "а"),
        _ => panic!("wrong operand"),
    }
    let k = Ast::Keyword(s("х"));
    match leftmost(&k) {
        Ast::Keyword(t) => assert_eq!(t, "х"),
        _ => panic!("wrong operand"),
    }
}

#[test]
fn equality_outcomes() {
    let eq = op(TokenType::Equals, "внатурі");
    let ne = op(TokenType::NotEquals, "не");
    assert!(equality_result(&eq, true));
    assert!(!equality_result(&eq, false));
    assert!(!equality_result(&ne, true));
    assert!(equality_result(&ne, false));
    let other = op(TokenType::More, "більше");
    assert!(!equality_result(&other, true));
    assert!(!equality_result(&other, false));
}

#[test]
fn call_errors() {
    assert_eq!(call_error(&s("ф"), Type::Number, Type::Number, 2, 2), None);
    assert_eq!(
        call_error(&s("ф"), Type::Number, Type::String, 2, 2),
        Some(s("масть \"букви\" штріха \"ф\" не підходить, очікувалось: \"цифри\""))
    );
    assert_eq!(
        call_error(&s("ф"), Type::Null, Type::Null, 2, 1),
        Some(s("тємці \"ф\" потрібно 2 штріха, а тут 1"))
    );
}

#[test]
fn evaluation_modes() {
    let plus = bin(Ast::Num(s("1")), op(TokenType::AriphOp, "+"), Ast::Num(s("2")));
    let minus = bin(Ast::Num(s("1")), op(TokenType::AriphOp, "-"), Ast::Num(s("2")));
    let rem = bin(Ast::Num(s("1")), op(TokenType::AriphOp, "%"), Ast::Num(s("2")));
    let cmp = bin(Ast::Num(s("1")), op(TokenType::Equals, "внатурі"), Ast::Num(s("2")));
    assert_eq!(eval_mode(&plus), EvalMode::NumberOrText);
    assert_eq!(eval_mode(&minus), EvalMode::Number);
    assert_eq!(eval_mode(&rem), EvalMode::Number);
    assert_eq!(eval_mode(&cmp), EvalMode::Unsupported);
    assert_eq!(eval_mode(&Ast::Num(s("3"))), EvalMode::Number);
    assert_eq!(eval_mode(&Ast::Str(s("а"))), EvalMode::Text);
    assert_eq!(eval_mode(&Ast::Keyword(s("а"))), EvalMode::Variable);
    assert_eq!(eval_mode(&Ast::CallFunc { name: s("ф"), args: vec![] }), EvalMode::Call);
    assert_eq!(eval_mode(&Ast::Bool(true)), EvalMode::Unsupported);
    assert_eq!(eval_mode(&Ast::Nothing), EvalMode::Unsupported);
}

#[test]
fn condition_modes() {
    let more = bin(Ast::Num(s("1")), op(TokenType::More, "більше"), Ast::Num(s("2")));
    let less = bin(Ast::Num(s("1")), op(TokenType::Less, "меньше"), Ast::Num(s("2")));
    let eq = bin(Ast::Num(s("1")), op(TokenType::Equals, "внатурі"), Ast::Num(s("2")));
    assert_eq!(cond_mode(&more), CondMode::Greater);
    assert_eq!(cond_mode(&less), CondMode::Less);
    assert_eq!(cond_mode(&eq), CondMode::Equality);
    assert_eq!(cond_mode(&Ast::Bool(false)), CondMode::Literal(false));
    assert_eq!(cond_mode(&Ast::Num(s("1"))), CondMode::NotBool);
}

#[test]
fn builtin_results_at_call_sites() {
    assert_eq!(builtin_result(&s("шоти"), Type::String, Type::String), Ok(true));
    assert_eq!(builtin_result(&s("шоти"), Type::Null, Type::String), Ok(false));
    assert_eq!(builtin_result(&s("базар"), Type::Null, Type::Null), Ok(false));
    assert_eq!(
        builtin_result(&s("базар"), Type::Number, Type::Null),
        Err(s("масть \"галяк\" штріха \"базар\" не підходить, очікувалось: \"цифри\""))
    );
}

#[test]
fn statement_actions() {
    let call = stmt(Ast::CallFunc { name: s("базар"), args: vec![] });
    let ret = stmt(Ast::Return { expression: Box::new(Ast::Num(s("1"))) });
    let set = stmt(Ast::SetVariable { name: s("а"), value: Box::new(Ast::Num(s("1"))) });
    let wh = stmt(Ast::While { condition: Box::new(Ast::Bool(false)), compound_statement: vec![] });
    let iff = stmt(Ast::If { condition: Box::new(Ast::Bool(true)), compound_statement: vec![], else_statement: None });
    assert_eq!(statement_action(&call), StatementAction::Call);
    assert_eq!(statement_action(&ret), StatementAction::Return);
    assert_eq!(statement_action(&set), StatementAction::SetVariable);
    assert_eq!(statement_action(&wh), StatementAction::While);
    assert_eq!(statement_action(&iff), StatementAction::If);
    assert_eq!(statement_action(&stmt(Ast::Num(s("1")))), StatementAction::Unsupported);
    assert_eq!(statement_action(&Ast::Num(s("1"))), StatementAction::Skip);
    assert!(stops_after(StatementAction::Return, false));
    assert!(stops_after(StatementAction::If, true));
    assert!(!stops_after(StatementAction::If, false));
    assert!(stops_after(StatementAction::While, true));
    assert!(!stops_after(StatementAction::While, false));
    assert!(!stops_after(StatementAction::Call, true));
}

#[test]
fn missing_results() {
    assert_eq!(missing_result(&s("ф"), Type::Number, false), Some(s("тємка \"ф\" нічого не рішає")));
    assert_eq!(missing_result(&s("ф"), Type::Number, true), None);
    assert_eq!(missing_result(&s("ф"), Type::Null, false), None);
    assert_eq!(missing_result(&s("ф"), Type::Null, true), None);
}
