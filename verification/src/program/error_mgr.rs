use vstd::prelude::*;
use vstd::string::StringExecFns;
use crate::compiler::token::Token;
use crate::program::text::{split_lines, spec_sub_str, nth_line, sub_str, char_count, law_sub_str_adjacent};

verus! {

/// The width that error reports give to a line number.
pub open spec fn num_size(num: nat) -> nat {
    num / 10 + 1
}

fn get_num_size(num: usize) -> (n: usize)
    ensures
        n == num_size(num as nat),
{
    num / 10 + 1
}

/// Reports the errors of a program against its source file.
pub struct ErrorCaller {
    file_name: String,
    file: String,
    debug: bool,
}

/// What the report of a compilation error shows: a heading with the place and
/// the message, the file's name, the line with the faulty token marked, and
/// arrows under the token with the message under them.
pub struct CompErrorReport {
    pub line: usize,
    pub column: usize,
    pub message: String,
    pub name_indent: usize,
    pub file_name: String,
    pub before: String,
    pub marked: String,
    pub after: String,
    pub arrows_indent: usize,
    pub arrows: usize,
    pub message_indent: usize,
    /// Whether the program then panics (in debug mode) rather than exits.
    pub panics: bool,
}

/// What the report of a runtime error shows: a heading with the line and the
/// message, the file's name, the whole line, and the message.
pub struct RuntErrorReport {
    pub line: usize,
    pub message: String,
    pub name_indent: usize,
    pub file_name: String,
    pub line_text: String,
    pub message_indent: usize,
    /// Whether the program then panics (in debug mode) rather than exits.
    pub panics: bool,
}

/// How far the message stands right of the arrows' start, so that it is
/// centred under them where the line leaves room.
pub open spec fn msg_offset(ch: usize, err_length: usize, message_len: nat) -> int {
    if ch.wrapping_add(err_length / 2) > message_len / 2 {
        ch.wrapping_add(err_length / 2) - message_len / 2
    } else {
        0
    }
}

/// The report of `message` at `token`, as `ErrorCaller::comp_error` lays it
/// out against the file of `c`.
pub open spec fn comp_report_ok(c: &ErrorCaller, message: Seq<char>, token: &Token, r: &CompErrorReport) -> bool {
    let line = split_lines(c.file())[token.line - 1];
    let ch = token.on_char;
    let len = token.value@.len() as usize;
    let offset = num_size(token.line as nat) as usize;
    &&& r.line == token.line
    &&& r.column == ch.wrapping_add(1)
    &&& r.message@ == message
    &&& r.name_indent == offset + 1
    &&& r.file_name@ == c.file_name()
    &&& r.before@ == spec_sub_str(line, 0, ch as int)
    &&& r.marked@ == spec_sub_str(line, ch as int, ch.wrapping_add(len) as int)
    &&& r.after@ == spec_sub_str(line, ch.wrapping_add(len) as int, line.len() as int)
    &&& r.arrows_indent == offset.wrapping_add(3).wrapping_add(ch)
    &&& r.arrows == len
    &&& r.message_indent == offset.wrapping_add(2).wrapping_add(msg_offset(ch, len, message.len()) as usize)
    &&& r.panics == c.debug()
}

/// Where the faulty token lies within its line, the report of a compilation
/// error shows that line whole: the text before the token, the token, and
/// the text after it.
pub proof fn law_report_shows_the_line(c: &ErrorCaller, message: Seq<char>, token: &Token, r: &CompErrorReport)
    requires
        1 <= token.line <= split_lines(c.file()).len(),
        comp_report_ok(c, message, token, r),
        token.on_char + token.value@.len() <= split_lines(c.file())[token.line - 1].len(),
        token.on_char + token.value@.len() <= usize::MAX,
    ensures
        r.before@ + r.marked@ + r.after@ == split_lines(c.file())[token.line - 1],
{
    let line = split_lines(c.file())[token.line - 1];
    let ch = token.on_char as int;
    let e = ch + token.value@.len();
    law_sub_str_adjacent(line, 0, ch, e);
    law_sub_str_adjacent(line, 0, e, line.len() as int);
    assert(spec_sub_str(line, 0, line.len() as int) =~= line);
}

impl ErrorCaller {
    pub fn new(file_name: &String, file: &String, debug: bool) -> (c: ErrorCaller)
        ensures
            c.file_name() == file_name@,
            c.file() == file@,
            c.debug() == debug,
    {
        let file_name = file_name.clone();
        let file = file.clone();
        ErrorCaller { file, file_name, debug }
    }

    pub closed spec fn file_name(&self) -> Seq<char> {
        self.file_name@
    }

    pub closed spec fn file(&self) -> Seq<char> {
        self.file@
    }

    pub closed spec fn debug(&self) -> bool {
        self.debug
    }

    /// The report of a compilation error at `token`. Its line must be a line
    /// of the file (lines count from 1).
    pub fn comp_error(&self, message: String, token: &Token) -> (r: CompErrorReport)
        requires
            1 <= token.line <= split_lines(self.file()).len(),
        ensures
            comp_report_ok(self, message@, token, &r),
    {
        let line = token.line;
        let ch = token.on_char;
        let err_length = char_count(&token.value);
        let text = nth_line(&self.file, line - 1);
        let offset = get_num_size(line);
        let before = sub_str(&text, 0, ch);
        let marked = sub_str(&text, ch, ch.wrapping_add(err_length));
        let after = sub_str(&text, ch.wrapping_add(err_length), char_count(&text));
        let message_len = char_count(&message);
        let mut msg_offset: usize = 0;
        if ch.wrapping_add(err_length / 2) > message_len / 2 {
            msg_offset = ch.wrapping_add(err_length / 2) - message_len / 2;
        }
        CompErrorReport {
            line,
            column: ch.wrapping_add(1),
            message,
            name_indent: offset + 1,
            file_name: self.file_name.clone(),
            before,
            marked,
            after,
            arrows_indent: offset.wrapping_add(3).wrapping_add(ch),
            arrows: err_length,
            message_indent: offset.wrapping_add(2).wrapping_add(msg_offset),
            panics: self.debug,
        }
    }

    /// The report of a runtime error on line `line` (counted from 1).
    pub fn runt_error(&self, message: String, line: usize) -> (r: RuntErrorReport)
        requires
            1 <= line <= split_lines(self.file()).len(),
        ensures
            r.line == line,
            r.message@ == message@,
            r.name_indent == num_size(line as nat) + 1,
            r.file_name@ == self.file_name(),
            r.line_text@ == split_lines(self.file())[line - 1],
            r.message_indent == num_size(line as nat) + 2,
            r.panics == self.debug(),
    {
        let text = nth_line(&self.file, line - 1);
        let offset = get_num_size(line);
        RuntErrorReport {
            line,
            message,
            name_indent: offset + 1,
            file_name: self.file_name.clone(),
            line_text: text,
            message_indent: offset + 2,
            panics: self.debug,
        }
    }
}

} // verus!
