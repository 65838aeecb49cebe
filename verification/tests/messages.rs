use galyak::compiler::errors::{err_inner_compilation_error, err_unexpected_token, err_unknown_token, err_unmatched_quote};
use galyak::compiler::token::{Token, TokenType};
use galyak::program::errors::compilation;
use galyak::program::errors::runtime::{
    func_has_no_return, type_expected, unallowed_operation, var_already_exists, var_not_found, wrong_arguments_count,
    wrong_return_type, wrong_type,
};
use galyak::program::text::{nth_line, sub_str, usize_to_string, char_count};
use galyak::runtime::memory::errors::{err_wrong_type, var_already_exists as mem_var_already_exists, var_not_found as mem_var_not_found};
use galyak::runtime::memory::types::{get_type, get_type_name, type_has_name, Type};

fn s(x: &str) -> String {
    x.to_string()
}

#[test]
fn wrong_type_message() {
    assert_eq!(
        wrong_type(&s("а"), &Type::Number, &Type::String),
        "масть \"букви\" штріха \"а\" не підходить, очікувалось: \"цифри\""
    );
    assert_eq!(
        err_wrong_type(&s("б"), &Type::Bool, &Type::Null),
        "масть \"галяк\" штріха \"б\" не підходить, очікувалось: \"факт\""
    );
}

#[test]
fn runtime_messages() {
    assert_eq!(wrong_return_type(&s("ф"), &Type::Char), "тємка \"ф\" рішає \"буква\"");
    assert_eq!(func_has_no_return(&s("ф")), "тємка \"ф\" нічого не рішає");
    assert_eq!(unallowed_operation(s("-"), &Type::String), "не допустима тєма - для масті букви");
    assert_eq!(type_expected(&Type::Number), "тут має бути \"цифри\"");
    assert_eq!(var_not_found(&s("а")), "штріх \"а\" не прописаний");
    assert_eq!(var_already_exists(&s("а")), "штріх з ім'ям а вже існує");
    assert_eq!(mem_var_not_found(&s("а")), "штріх \"а\" не прописаний");
    assert_eq!(mem_var_already_exists(&s("а")), "штріх з ім'ям а вже існує");
}

#[test]
fn wrong_arguments_count_declines_the_words() {
    assert_eq!(wrong_arguments_count(&s("ф"), 0, 2), "тємці \"ф\" потрібно 0 штріхів, а тут 2");
    assert_eq!(wrong_arguments_count(&s("ф"), 1, 0), "тємці \"ф\" потрібен 1 штріх, а тут 0");
    assert_eq!(wrong_arguments_count(&s("ф"), 3, 1), "тємці \"ф\" потрібно 3 штріха, а тут 1");
    assert_eq!(wrong_arguments_count(&s("ф"), 4, 10), "тємці \"ф\" потрібно 4 штріха, а тут 10");
    assert_eq!(wrong_arguments_count(&s("ф"), 5, 4), "тємці \"ф\" потрібно 5 штріхів, а тут 4");
    assert_eq!(wrong_arguments_count(&s("ф"), 21, 123), "тємці \"ф\" потрібно 21 штріхів, а тут 123");
}

#[test]
fn compilation_messages() {
    let t = Token::new(TokenType::Unknown, s("$"), 1, 1);
    assert_eq!(compilation::unknown_token(&t), "якийсь кучерявий базар \"$\"");
    assert_eq!(compilation::unexpected_token(&t), "\"$\" - цього тіпа сюда ніхто не кликав");
    assert_eq!(compilation::unmatched_quote(), "не закрита \"");
    assert_eq!(
        compilation::inner_compilation_error(),
        "Якась залупа тут кароче закинь пж сюда https://github.com/siuhh/galyak/issues шо сталось"
    );
    assert_eq!(err_unknown_token(&t), compilation::unknown_token(&t));
    assert_eq!(err_unexpected_token(&t), compilation::unexpected_token(&t));
    assert_eq!(err_unmatched_quote(), compilation::unmatched_quote());
    assert_eq!(err_inner_compilation_error(), compilation::inner_compilation_error());
}

#[test]
fn type_names() {
    assert_eq!(get_type(&s("цифри")), Type::Number);
    assert_eq!(get_type(&s("факт")), Type::Bool);
    assert_eq!(get_type(&s("буква")), Type::Char);
    assert_eq!(get_type(&s("галяк")), Type::Null);
    assert_eq!(get_type(&s("букви")), Type::String);
    assert_eq!(get_type(&s("кент")), Type::Class);
    assert_eq!(get_type_name(&Type::Bool), "факт");
    assert_eq!(get_type_name(&Type::String), "букви");
    assert!(type_has_name(&Type::Char));
    assert!(!type_has_name(&Type::Func));
    assert!(!type_has_name(&Type::List));
}

#[test]
fn decimal_numbers() {
    assert_eq!(usize_to_string(0), "0");
    assert_eq!(usize_to_string(7), "7");
    assert_eq!(usize_to_string(1488), "1488");
    assert_eq!(usize_to_string(usize::MAX), usize::MAX.to_string());
}

#[test]
fn lines_and_substrings() {
    let f = s("перший\nдругий\n\nчетвертий");
    assert_eq!(nth_line(&f, 0), "перший");
    assert_eq!(nth_line(&f, 1), "другий");
    assert_eq!(nth_line(&f, 2), "");
    assert_eq!(nth_line(&f, 3), "четвертий");
    assert_eq!(nth_line(&s("а\n"), 1), "");
    assert_eq!(sub_str(&s("базар"), 1, 3), "аз");
    assert_eq!(sub_str(&s("базар"), 0, 5), "базар");
    assert_eq!(sub_str(&s("базар"), 2, 9), " ");
    assert_eq!(sub_str(&s("базар"), 3, 1), "");
    assert_eq!(char_count(&s("базар")), 5);
}

#[test]
fn type_names_read_back_as_their_types() {
    for t in [Type::Null, Type::Number, Type::Char, Type::Bool, Type::String] {
        assert_eq!(get_type(&get_type_name(&t)), t);
    }
}

#[test]
fn adjacent_pieces_make_the_span() {
    let m = s("штріх цифри");
    for (a, b, c) in [(0, 3, 11), (2, 2, 5), (0, 0, 0), (5, 6, 11)] {
        assert_eq!(format!("{}{}", sub_str(&m, a, b), sub_str(&m, b, c)), sub_str(&m, a, c));
    }
}
