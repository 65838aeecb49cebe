use galyak::compiler::ast::{deref_ast, Ast};
use galyak::compiler::parser::{ParseError, Parser, valid_number_text};
use galyak::compiler::token::TokenType;

fn show(a: &Ast) -> String {
    match a {
        Ast::Nothing => "nothing".to_string(),
        Ast::Num(n) => format!("num {}", n),
        Ast::Bool(b) => format!("bool {}", b),
        Ast::Keyword(k) => format!("kw {}", k),
        Ast::Str(s) => format!("str {:?}", s),
        Ast::Expression { left, op, right } => format!("({} {} {})", show(left), op.value, show(right)),
        Ast::DeclareVariable { array, name, vtype, value } => {
            format!("dec {} {} {} = {}", array, vtype, name, show(value))
        }
        Ast::SetVariable { name, value } => format!("set {} = {}", name, show(value)),
        Ast::Return { expression } => format!("return {}", show(expression)),
        Ast::CallFunc { name, args } => {
            format!("call {}[{}]", name, args.iter().map(show).collect::<Vec<_>>().join(", "))
        }
        Ast::Statement { line, statement } => format!("{}: {}", line, show(statement)),
        Ast::Function { name, args, return_type, compound_statement } => format!(
            "func {}({}) -> {} {{{}}}",
            name,
            args.iter().map(|(t, n)| format!("{} {}", t, n)).collect::<Vec<_>>().join(", "),
            return_type,
            compound_statement.iter().map(show).collect::<Vec<_>>().join("; ")
        ),
        Ast::If { condition, compound_statement, else_statement } => format!(
            "if {} {{{}}} else {:?}",
            show(condition),
            compound_statement.iter().map(show).collect::<Vec<_>>().join("; "),
            else_statement.as_ref().map(|e| e.iter().map(show).collect::<Vec<_>>().join("; "))
        ),
        Ast::While { condition, compound_statement } => format!(
            "while {} {{{}}}",
            show(condition),
            compound_statement.iter().map(show).collect::<Vec<_>>().join("; ")
        ),
    }
}

fn parse(file: &str) -> Result<Vec<String>, (bool, TokenType, String, usize, usize)> {
    let mut p = Parser::new(&file.to_string());
    match p.parse() {
        Ok(v) => Ok(v.iter().map(show).collect()),
        Err(ParseError::Unexpected(t)) => Err((false, t.name, t.value, t.line, t.on_char)),
        Err(ParseError::Unsupported(t)) => Err((true, t.name, t.value, t.line, t.on_char)),
    }
}

#[test]
fn declaration_with_precedence() {
    assert_eq!(
        parse("штріх цифри а = 2 + 2 * 2 крч"),
        Ok(vec!["1: dec false цифри а = (num 2 + (num 2 * num 2))".to_string()])
    );
}

#[test]
fn operators_fold_to_the_left() {
    assert_eq!(
        parse("а = 1 - 2 - 3 / 4 * 5"),
        Ok(vec!["1: set а = ((num 1 - num 2) - ((num 3 / num 4) * num 5))".to_string()])
    );
}

#[test]
fn parentheses_group() {
    assert_eq!(parse("а = (1 + 2) * 3"), Ok(vec!["1: set а = ((num 1 + num 2) * num 3)".to_string()]));
}

#[test]
fn declaration_without_value() {
    assert_eq!(parse("штріх букви б крч"), Ok(vec!["1: dec false букви б = nothing".to_string()]));
}

#[test]
fn calls_and_returns() {
    assert_eq!(
        parse("базар(а)\nрішани 5 крч\nбазарлн()"),
        Ok(vec![
            "1: call базар[kw а]".to_string(),
            "2: return num 5".to_string(),
            "3: call базарлн[]".to_string(),
        ])
    );
}

#[test]
fn call_inside_an_expression() {
    assert_eq!(parse("а = сума(1) + б"), Ok(vec!["1: set а = (call сума[num 1] + kw б)".to_string()]));
}

#[test]
fn comparisons_and_booleans() {
    assert_eq!(
        parse("а = 1 внатурі 2\nб = база не гон\nв = \"x\" більше \"y\""),
        Ok(vec![
            "1: set а = (num 1 внатурі num 2)".to_string(),
            "2: set б = (bool true не bool false)".to_string(),
            "3: set в = (str \"x\" більше str \"y\")".to_string(),
        ])
    );
}

#[test]
fn empty_lines_are_skipped() {
    assert_eq!(parse("крч крч\n\n"), Ok(vec![]));
}

#[test]
fn unmatched_end_of_compound_ends_the_program() {
    assert_eq!(parse("а = 1 всьо б = 2"), Ok(vec!["1: set а = num 1".to_string()]));
}

#[test]
fn missing_name_is_unexpected() {
    assert_eq!(parse("штріх цифри"), Err((false, TokenType::Eof, "eof".to_string(), 1, 12)));
}

#[test]
fn class_is_not_implemented() {
    assert_eq!(parse("масть а"), Err((true, TokenType::Class, "масть".to_string(), 1, 1)));
}

#[test]
fn malformed_number_is_not_implemented() {
    assert_eq!(parse("а = 1.2.3"), Err((true, TokenType::Number, "1.2.3".to_string(), 1, 5)));
}

#[test]
fn compound_statements_need_a_colon_the_lexer_cannot_read() {
    assert_eq!(parse("варік база:"), Err((false, TokenType::Unknown, ":".to_string(), 1, 11)));
    assert_eq!(parse("поки а"), Err((false, TokenType::Eof, "eof".to_string(), 1, 7)));
    assert_eq!(parse("тємка ф() нарішає цифри"), Err((false, TokenType::Eof, "eof".to_string(), 1, 24)));
}

#[test]
fn string_plus_is_not_an_operator() {
    assert_eq!(parse("а = 1 \"+\" 2"), Err((false, TokenType::Str, "+".to_string(), 1, 8)));
}

#[test]
fn name_must_be_followed_by_assignment_or_call() {
    assert_eq!(parse("а б"), Err((false, TokenType::Name, "а".to_string(), 1, 1)));
}

#[test]
fn unknown_token_is_unexpected() {
    assert_eq!(parse("а = $"), Err((false, TokenType::Unknown, "$".to_string(), 1, 5)));
}

#[test]
fn array_declaration_is_not_a_statement() {
    assert_eq!(parse("штріхи цифри а"), Err((false, TokenType::Array, "штріхи".to_string(), 1, 1)));
}

#[test]
fn number_literals() {
    assert!(valid_number_text(&"3.14".to_string()));
    assert!(valid_number_text(&"5.".to_string()));
    assert!(valid_number_text(&"42".to_string()));
    assert!(!valid_number_text(&"1.2.3".to_string()));
    assert!(!valid_number_text(&"٣".to_string()));
    assert!(!valid_number_text(&".".to_string()));
}

#[test]
fn call_parsed_on_its_own() {
    let mut p = Parser::new(&"сума(а * 2) крч".to_string());
    let r = p.st_call_func().ok().unwrap();
    assert_eq!(show(&r), "call сума[(kw а * num 2)]");
    let mut p = Parser::new(&"сума 1".to_string());
    assert!(p.st_call_func().is_err());
}

#[test]
fn copies_are_equal() {
    let file = "штріх цифри а = (1 + 2) * 3 крч\nбазар(\"x\")\nрішани а крч";
    let tree = Parser::new(&file.to_string()).parse().ok().unwrap();
    for a in &tree {
        assert_eq!(show(&a.duplicate()), show(a));
        assert_eq!(show(&deref_ast(&Box::new(a.duplicate()))), show(a));
    }
}
