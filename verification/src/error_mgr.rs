use vstd::prelude::*;
use vstd::string::StringExecFns;
use crate::compiler::token::Token;
use crate::program::text::{split_lines, spec_sub_str, nth_line, sub_str, char_count, law_sub_str_adjacent};
use crate::program::errors::compilation::{
    unknown_token_msg, unexpected_token_msg, unmatched_quote_msg, inner_compilation_error_msg,
    unknown_token as unknown_token_text, unexpected_token as unexpected_token_text,
};

verus! {

/// Reports compilation errors against a source file, for tokens whose lines
/// count from 0 and whose columns count from 1.
pub struct CompilationError {
    file_name: String,
    file: String,
}

/// What the report shows: a heading with the place and the message, the
/// file's name, the line with the faulty token marked, and arrows under the
/// token with the message under them.
pub struct CallReport {
    pub line: usize,
    pub column: usize,
    pub message: String,
    pub file_name: String,
    pub before: String,
    pub marked: String,
    pub after: String,
    pub arrows_indent: usize,
    pub arrows: usize,
    pub message_indent: usize,
}

/// How far right of the frame the message starts, so that it is centred
/// under the arrows where the line leaves room.
pub open spec fn call_msg_offset(ch: usize, err_length: usize, message_len: nat) -> int {
    let centre = ch.wrapping_add(8).wrapping_add(err_length / 2);
    if centre > message_len / 2 {
        centre - message_len / 2
    } else {
        0
    }
}

/// The report of `message` at `token`, as `CompilationError::call` lays it out.
pub open spec fn call_report_ok(e: &CompilationError, message: Seq<char>, token: &Token, r: &CallReport) -> bool {
    let ln = (token.line + 1) as usize;
    let ch = token.on_char.wrapping_sub(1);
    let len = token.value@.len() as usize;
    let line = split_lines(e.file())[ln - 1];
    &&& r.line == ln
    &&& r.column == ch.wrapping_add(1)
    &&& r.message@ == message
    &&& r.file_name@ == e.file_name()
    &&& r.before@ == spec_sub_str(line, 0, ch as int)
    &&& r.marked@ == spec_sub_str(line, ch as int, ch.wrapping_add(len) as int)
    &&& r.after@ == spec_sub_str(line, ch.wrapping_add(len) as int, line.len() as int)
    &&& r.arrows_indent == ch.wrapping_add(8)
    &&& r.arrows == len
    &&& r.message_indent == call_msg_offset(ch, len, message.len())
}

/// Where the token lies within its line (its column counting from 1), the
/// report shows that line whole: the text before the token, the token, and
/// the text after it.
pub proof fn law_call_report_shows_the_line(e: &CompilationError, message: Seq<char>, token: &Token, r: &CallReport)
    requires
        token.line < split_lines(e.file()).len(),
        token.line < usize::MAX,
        call_report_ok(e, message, token, r),
        1 <= token.on_char,
        token.on_char - 1 + token.value@.len() <= split_lines(e.file())[token.line as int].len(),
        token.on_char - 1 + token.value@.len() <= usize::MAX,
    ensures
        r.before@ + r.marked@ + r.after@ == split_lines(e.file())[token.line as int],
{
    let line = split_lines(e.file())[token.line as int];
    let ch = token.on_char - 1;
    let end = ch + token.value@.len();
    law_sub_str_adjacent(line, 0, ch, end);
    law_sub_str_adjacent(line, 0, end, line.len() as int);
    assert(spec_sub_str(line, 0, line.len() as int) =~= line);
}

impl CompilationError {
    pub fn new(file_name: String, file: String) -> (e: CompilationError)
        ensures
            e.file_name() == file_name@,
            e.file() == file@,
    {
        CompilationError { file, file_name }
    }

    pub closed spec fn file_name(&self) -> Seq<char> {
        self.file_name@
    }

    pub closed spec fn file(&self) -> Seq<char> {
        self.file@
    }

    /// The report of `message` at `token`, whose line counts from 0 here and
    /// must be a line of the file; the heading counts lines from 1.
    pub fn call(&self, message: String, token: &Token) -> (r: CallReport)
        requires
            token.line < split_lines(self.file()).len(),
            token.line < usize::MAX,
        ensures
            call_report_ok(self, message@, token, &r),
    {
        let ln = token.line + 1;
        let ch = token.on_char.wrapping_sub(1);
        let err_length = char_count(&token.value);
        let text = nth_line(&self.file, ln - 1);
        let before = sub_str(&text, 0, ch);
        let marked = sub_str(&text, ch, ch.wrapping_add(err_length));
        let after = sub_str(&text, ch.wrapping_add(err_length), char_count(&text));
        let message_len = char_count(&message);
        let mut msg_offset: usize = 0;
        let centre = ch.wrapping_add(8).wrapping_add(err_length / 2);
        if centre > message_len / 2 {
            msg_offset = centre - message_len / 2;
        }
        CallReport {
            line: ln,
            column: ch.wrapping_add(1),
            message,
            file_name: self.file_name.clone(),
            before,
            marked,
            after,
            arrows_indent: ch.wrapping_add(8),
            arrows: err_length,
            message_indent: msg_offset,
        }
    }

    pub fn unknown_token(&self, t: &Token) -> (r: CallReport)
        requires
            t.line < split_lines(self.file()).len(),
            t.line < usize::MAX,
        ensures
            call_report_ok(self, unknown_token_msg(t.value@), t, &r),
    {
        let msg = unknown_token_text(t);
        self.call(msg, t)
    }

    pub fn unexpected_token(&self, t: &Token) -> (r: CallReport)
        requires
            t.line < split_lines(self.file()).len(),
            t.line < usize::MAX,
        ensures
            call_report_ok(self, unexpected_token_msg(t.value@), t, &r),
    {
        let msg = unexpected_token_text(t);
        self.call(msg, t)
    }

    pub fn unmatched_quote(&self, t: &Token) -> (r: CallReport)
        requires
            t.line < split_lines(self.file()).len(),
            t.line < usize::MAX,
        ensures
            call_report_ok(self, unmatched_quote_msg(), t, &r),
    {
        let msg = String::from_str("не закрита \"");
        self.call(msg, t)
    }

    pub fn unallowed_operation(&self, t: &Token, vtype: &str) -> (r: CallReport)
        requires
            t.line < split_lines(self.file()).len(),
            t.line < usize::MAX,
        ensures
            call_report_ok(self, "якась кучерява операція для штріха масті "@ + vtype@, t, &r),
    {
        let mut msg = String::from_str("якась кучерява операція для штріха масті ");
        msg.append(vtype);
        self.call(msg, t)
    }

    pub fn inner_compilation_error(&self, t: &Token) -> (r: CallReport)
        requires
            t.line < split_lines(self.file()).len(),
            t.line < usize::MAX,
        ensures
            call_report_ok(self, inner_compilation_error_msg(), t, &r),
    {
        let msg = String::from_str(
            "Якась залупа тут кароче закинь пж сюда https://github.com/siuhh/galyak/issues шо сталось",
        );
        self.call(msg, t)
    }
}

} // verus!
