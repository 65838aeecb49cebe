use galyak::compiler::token::{Token, TokenType};
use galyak::pre::lexer::{tokenize, Lexer};

fn all_tokens(file: &str) -> Vec<(TokenType, String, usize, usize)> {
    tokenize(file).into_iter().map(|t| (t.name, t.value, t.line, t.on_char)).collect()
}

fn tk(name: TokenType, value: &str, line: usize, ch: usize) -> (TokenType, String, usize, usize) {
    (name, value.to_string(), line, ch)
}

#[test]
fn lexes_a_declaration() {
    assert_eq!(
        all_tokens("штріх цифри а = 5 крч"),
        vec![
            tk(TokenType::Var, "штріх", 1, 1),
            tk(TokenType::Name, "цифри", 1, 7),
            tk(TokenType::Name, "а", 1, 13),
            tk(TokenType::Assign, "=", 1, 15),
            tk(TokenType::Number, "5", 1, 17),
            tk(TokenType::Eol, "крч", 1, 19),
            tk(TokenType::Eof, "eof", 1, 22),
        ]
    );
}

#[test]
fn next_token_reads_one_token_at_a_time() {
    let mut l = Lexer::new("базар(а)");
    let t = l.next_token();
    assert_eq!((t.name, t.value.as_str(), t.line, t.on_char), (TokenType::Name, "базар", 1, 1));
    let t = l.next_token();
    assert_eq!((t.name, t.value.as_str()), (TokenType::LPar, "("));
    let t = l.next_token();
    assert_eq!((t.name, t.value.as_str()), (TokenType::Name, "а"));
    let t = l.next_token();
    assert_eq!((t.name, t.value.as_str()), (TokenType::RPar, ")"));
    let t = l.next_token();
    assert_eq!((t.name, t.value.as_str(), t.on_char), (TokenType::Eof, "eof", 9));
    let t = l.next_token();
    assert_eq!((t.name, t.on_char), (TokenType::Eof, 9));
}

#[test]
fn line_breaks_start_new_lines_at_column_zero() {
    assert_eq!(
        all_tokens("а\nб"),
        vec![tk(TokenType::Name, "а", 1, 1), tk(TokenType::Name, "б", 2, 1), tk(TokenType::Eof, "eof", 2, 2)]
    );
}

#[test]
fn operators_report_their_own_column() {
    assert_eq!(
        all_tokens("1+2"),
        vec![
            tk(TokenType::Number, "1", 1, 1),
            tk(TokenType::AriphOp, "+", 1, 2),
            tk(TokenType::Number, "2", 1, 3),
            tk(TokenType::Eof, "eof", 1, 4),
        ]
    );
}

#[test]
fn operator_before_line_break_wraps_its_column() {
    let toks = all_tokens("1 +\n2");
    assert_eq!(toks[1], tk(TokenType::AriphOp, "+", 2, usize::MAX));
    assert_eq!(toks[2], tk(TokenType::Number, "2", 2, 1));
}

#[test]
fn string_literal_starts_after_the_quote() {
    assert_eq!(
        all_tokens("\"ab\" x"),
        vec![tk(TokenType::Str, "ab", 1, 2), tk(TokenType::Name, "x", 1, 6), tk(TokenType::Eof, "eof", 1, 7)]
    );
}

#[test]
fn unclosed_string_runs_to_the_end_of_the_file() {
    assert_eq!(
        all_tokens("\"ab"),
        vec![tk(TokenType::Str, "ab", 1, 2), tk(TokenType::Eof, "eof", 1, 5)]
    );
}

#[test]
fn unclosed_string_stops_at_a_line_break() {
    assert_eq!(
        all_tokens("\"ab\nx"),
        vec![tk(TokenType::Str, "ab", 1, 2), tk(TokenType::Name, "x", 2, 1), tk(TokenType::Eof, "eof", 2, 2)]
    );
}

#[test]
fn string_may_begin_with_a_line_break() {
    assert_eq!(
        all_tokens("\"\nx\""),
        vec![tk(TokenType::Str, "\nx", 2, 0), tk(TokenType::Eof, "eof", 2, 3)]
    );
}

#[test]
fn unknown_character_stops_the_lexer() {
    assert_eq!(all_tokens("$"), vec![tk(TokenType::Unknown, "$", 1, 1)]);
    assert_eq!(
        all_tokens("а $ б"),
        vec![tk(TokenType::Name, "а", 1, 1), tk(TokenType::Unknown, "$", 1, 3), tk(TokenType::Unknown, "$", 1, 3)]
    );
}

#[test]
fn symbols_without_a_token_are_unknown_but_read() {
    assert_eq!(
        all_tokens("> ="),
        vec![tk(TokenType::Unknown, ">", 1, 1), tk(TokenType::Assign, "=", 1, 3), tk(TokenType::Eof, "eof", 1, 4)]
    );
}

#[test]
fn colon_and_comma_are_not_read() {
    assert_eq!(all_tokens(":"), vec![tk(TokenType::Unknown, ":", 1, 1)]);
    assert_eq!(all_tokens("а,б")[1], tk(TokenType::Unknown, ",", 1, 2));
}

#[test]
fn numbers_take_digits_and_dots() {
    assert_eq!(
        all_tokens("3.14 1.2.3"),
        vec![tk(TokenType::Number, "3.14", 1, 1), tk(TokenType::Number, "1.2.3", 1, 6), tk(TokenType::Eof, "eof", 1, 11)]
    );
}

#[test]
fn keywords_are_static_tokens() {
    let toks = all_tokens("тємка рішани нарішає масть варік найоб поки внатурі не меньше більше база гон галяк всьо штріхи кент тіхарь");
    let names: Vec<TokenType> = toks.iter().map(|t| t.0).collect();
    assert_eq!(
        names,
        vec![
            TokenType::Func,
            TokenType::Return,
            TokenType::RetType,
            TokenType::Class,
            TokenType::If,
            TokenType::Else,
            TokenType::While,
            TokenType::Equals,
            TokenType::NotEquals,
            TokenType::Less,
            TokenType::More,
            TokenType::True,
            TokenType::False,
            TokenType::Null,
            TokenType::RBrack,
            TokenType::Array,
            TokenType::Public,
            TokenType::Private,
            TokenType::Eof,
        ]
    );
}

#[test]
fn type_names_are_plain_names() {
    assert_eq!(all_tokens("цифри букви")[1], tk(TokenType::Name, "букви", 1, 7));
}

#[test]
fn unmatched_quote() {
    let file = "тіп цифри число = 55 крч\nбазар(число + 92 / (32 + число)) крч\nбазар(\"12341234) крч";
    let toks = all_tokens(file);
    let last_str = toks.iter().filter(|t| t.0 == TokenType::Str).last().unwrap().clone();
    assert_eq!(last_str, tk(TokenType::Str, "12341234) крч", 3, 8));
    assert_eq!(toks.last().unwrap().0, TokenType::Eof);
}

#[test]
fn unexpected_token() {
    let file = "тіп цифри число = 55 крч\nбазар(число + 92 / (32 + числ$о)) крч\nбазар(\"12341234\") крч";
    let toks = all_tokens(file);
    assert_eq!(toks.last().unwrap(), &tk(TokenType::Unknown, "$", 2, 30));
    assert_eq!(toks[toks.len() - 2], tk(TokenType::Name, "числ", 2, 26));
}

#[test]
fn token_new_and_duplicate() {
    let t = Token::new(TokenType::Name, "а".to_string(), 3, 4);
    let d = t.duplicate();
    assert_eq!((d.name, d.value.as_str(), d.line, d.on_char), (TokenType::Name, "а", 3, 4));
    assert_eq!(TokenType::Eol.as_str(), "крч");
    assert_eq!(TokenType::Assign.as_str(), "=");
}

#[test]
fn end_of_file_repeats() {
    let mut l = Lexer::new("а   \n ");
    let t = l.next_token();
    assert_eq!(t.name, TokenType::Name);
    let first = l.next_token();
    let p = l.pos();
    for _ in 0..3 {
        let t = l.next_token();
        assert_eq!((t.name, t.value.as_str(), t.line, t.on_char), (TokenType::Eof, "eof", first.line, first.on_char));
        assert_eq!(l.pos(), p);
    }
    assert_eq!(first.name, TokenType::Eof);
}

#[test]
fn ascii_letters_digits_and_punctuation() {
    assert_eq!(
        all_tokens("ab12+cd(9)"),
        vec![
            tk(TokenType::Name, "ab", 1, 1),
            tk(TokenType::Number, "12", 1, 3),
            tk(TokenType::AriphOp, "+", 1, 5),
            tk(TokenType::Name, "cd", 1, 6),
            tk(TokenType::LPar, "(", 1, 8),
            tk(TokenType::Number, "9", 1, 9),
            tk(TokenType::RPar, ")", 1, 10),
            tk(TokenType::Eof, "eof", 1, 11),
        ]
    );
}

#[test]
fn every_keyword_reads_as_its_token() {
    for t in galyak::compiler::token::static_token_list() {
        let text = t.as_str().to_string();
        assert_eq!(galyak::compiler::token::find_static_token(&text), Some(t));
    }
}
