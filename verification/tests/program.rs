use galyak::pre::chars::{chars_of, string_of_chars};
use galyak::program::program::{run, Prog};

fn s(x: &str) -> String {
    x.to_string()
}

#[test]
fn program_text_gets_plain_line_breaks() {
    let p = Prog::new(s("тест.глк"), s("штріх цифри а = 1\r\nбазар(а)\r\n"));
    assert_eq!(p.file_name, "тест.глк");
    assert_eq!(p.file_content, "штріх цифри а = 1\nбазар(а)\n");
}

#[test]
fn lone_carriage_returns_stay() {
    let p = Prog::new(s("a"), s("а\rб\r\r\nв\n\r"));
    assert_eq!(p.file_content, "а\rб\r\nв\n\r");
}

#[test]
fn empty_program() {
    let p = Prog::new(s("a"), s(""));
    assert_eq!(p.file_content, "");
}

#[test]
fn run_gives_back_the_path() {
    assert_eq!(run(s("C:\\шлях\\тест.глк")), "C:\\шлях\\тест.глк");
}

#[test]
fn characters_round_trip() {
    let cs = chars_of("тіп ab 1");
    assert_eq!(cs, vec!['т', 'і', 'п', ' ', 'a', 'b', ' ', '1']);
    assert_eq!(string_of_chars(&cs), "тіп ab 1");
}

#[test]
fn text_without_carriage_returns_is_unchanged() {
    let text = "штріх букви б = \"a\nb\" крч\n\n";
    assert_eq!(Prog::new(s("f"), s(text)).file_content, text);
}
