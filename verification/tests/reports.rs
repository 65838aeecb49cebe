use galyak::compiler::token::{Token, TokenType};
use galyak::error_mgr::CompilationError;
use galyak::program::error_mgr::ErrorCaller;

fn s(x: &str) -> String {
    x.to_string()
}

#[test]
fn compilation_error_report() {
    let file = s("штріх цифри а = 5\nбазар(а $ б)");
    let c = ErrorCaller::new(&s("тест.глк"), &file, false);
    let t = Token::new(TokenType::Unknown, s("$"), 2, 9);
    let r = c.comp_error(s("помилка"), &t);
    assert_eq!(r.line, 2);
    assert_eq!(r.column, 10);
    assert_eq!(r.message, "помилка");
    assert_eq!(r.name_indent, 2);
    assert_eq!(r.file_name, "тест.глк");
    assert_eq!(r.before, "базар(а $");
    assert_eq!(r.marked, " ");
    assert_eq!(r.after, "б)");
    assert_eq!(r.arrows_indent, 1 + 3 + 9);
    assert_eq!(r.arrows, 1);
    assert_eq!(r.message_indent, 1 + 2 + 6);
    assert!(!r.panics);
}

#[test]
fn compilation_error_report_marks_the_token() {
    let file = s("а = бб + 1");
    let c = ErrorCaller::new(&s("f"), &file, true);
    let t = Token::new(TokenType::Name, s("бб"), 1, 4);
    let r = c.comp_error(s("повідомлення"), &t);
    assert_eq!((r.before.as_str(), r.marked.as_str(), r.after.as_str()), ("а = ", "бб", " + 1"));
    assert_eq!(r.message_indent, 3);
    assert!(r.panics);
}

#[test]
fn runtime_error_report() {
    let file = s("а = 1\nб = в");
    let c = ErrorCaller::new(&s("f.глк"), &file, false);
    let r = c.runt_error(s("штріх \"в\" не прописаний"), 2);
    assert_eq!(r.line, 2);
    assert_eq!(r.line_text, "б = в");
    assert_eq!(r.name_indent, 2);
    assert_eq!(r.message_indent, 3);
    assert_eq!(r.file_name, "f.глк");
    let r = c.runt_error(s("x"), 1);
    assert_eq!(r.line_text, "а = 1");
}

#[test]
fn call_report_counts_lines_from_zero() {
    let e = CompilationError::new(s("test"), s("рядок нуль\nрядок один\nрядок два"));
    let t = Token::new(TokenType::Name, s("один"), 1, 7);
    let r = e.call(s("msg"), &t);
    assert_eq!(r.line, 2);
    assert_eq!(r.column, 7);
    assert_eq!((r.before.as_str(), r.marked.as_str(), r.after.as_str()), ("рядок ", "один", ""));
    assert_eq!(r.arrows_indent, 14);
    assert_eq!(r.arrows, 4);
    assert_eq!(r.message_indent, 15);
}

#[test]
fn call_report_messages() {
    let e = CompilationError::new(s("test"), s("а\nб $"));
    let t = Token::new(TokenType::Unknown, s("$"), 1, 3);
    assert_eq!(e.unknown_token(&t).message, "якийсь кучерявий базар \"$\"");
    assert_eq!(e.unexpected_token(&t).message, "\"$\" - цього тіпа сюда ніхто не кликав");
    assert_eq!(e.unmatched_quote(&t).message, "не закрита \"");
    assert_eq!(e.unallowed_operation(&t, "цифри").message, "якась кучерява операція для штріха масті цифри");
    assert!(e.inner_compilation_error(&t).message.starts_with("Якась залупа"));
    let r = e.unknown_token(&t);
    assert_eq!(r.line, 2);
    assert_eq!((r.before.as_str(), r.marked.as_str(), r.after.as_str()), ("б ", "$", ""));
}

#[test]
fn call_report_past_the_line_end() {
    let e = CompilationError::new(s("test"), s("а\nб $"));
    let t = Token::new(TokenType::Unknown, s("$"), 0, 3);
    let r = e.call(s("m"), &t);
    assert_eq!((r.before.as_str(), r.marked.as_str(), r.after.as_str()), (" ", " ", ""));
}

#[test]
fn report_shows_the_whole_line() {
    let file = s("перший\nштріх цифри число = 55 крч\nтретій");
    let c = ErrorCaller::new(&s("f"), &file, false);
    let t = Token::new(TokenType::Name, s("число"), 2, 12);
    let r = c.comp_error(s("m"), &t);
    assert_eq!(r.marked, "число");
    assert_eq!(format!("{}{}{}", r.before, r.marked, r.after), "штріх цифри число = 55 крч");
    let e = CompilationError::new(s("f"), file.clone());
    let t = Token::new(TokenType::Number, s("55"), 1, 21);
    let r = e.call(s("m"), &t);
    assert_eq!(r.marked, "55");
    assert_eq!(format!("{}{}{}", r.before, r.marked, r.after), "штріх цифри число = 55 крч");
}
