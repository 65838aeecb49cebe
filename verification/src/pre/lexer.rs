use vstd::prelude::*;
use crate::compiler::token::{Token, TokenType, static_token_of, find_static_token};
use crate::pre::chars::{letter_char, number_char, is_alphabetic, is_numeric, push_char, chars_of};

verus! {

/// Where the lexer stands: the index of the current character, and the line
/// and the column that it reports for it.
pub ghost struct LexState {
    pub pos: int,
    pub line: int,
    pub col: int,
}

/// What a token holds: its kind, its text, its line and its column.
pub type TokenView = (TokenType, Seq<char>, int, int);

impl View for Token {
    type V = TokenView;

    open spec fn view(&self) -> TokenView {
        (self.name, self.value@, self.line as int, self.on_char as int)
    }
}

pub open spec fn is_ariphmetic_op_spec(c: char) -> bool {
    c == '+' || c == '-' || c == '/' || c == '*'
}

pub open spec fn is_symbol_spec(c: char) -> bool {
    c == '(' || c == ')' || c == '>' || c == '=' || c == '<' || c == '!'
}

pub open spec fn is_space_spec(c: char) -> bool {
    c == ' ' || c == '\n' || c == '\t'
}

fn is_ariphmetic_op(ch: &char) -> (b: bool)
    ensures
        b == is_ariphmetic_op_spec(*ch),
{
    *ch == '+' || *ch == '-' || *ch == '/' || *ch == '*'
}

fn is_symbol(ch: &char) -> (b: bool)
    ensures
        b == is_symbol_spec(*ch),
{
    *ch == '(' || *ch == ')' || *ch == '>' || *ch == '=' || *ch == '<' || *ch == '!'
}

/// One step forward: the next character; a line break starts a new line at
/// column 0, anything else moves one column on.
pub open spec fn adv(file: Seq<char>, s: LexState) -> LexState {
    let p = s.pos + 1;
    if p < file.len() && file[p] == '\n' {
        LexState { pos: p, line: s.line + 1, col: 0 }
    } else {
        LexState { pos: p, line: s.line, col: s.col + 1 }
    }
}

/// `n` steps forward.
pub open spec fn adv_n(file: Seq<char>, s: LexState, n: nat) -> LexState
    decreases n,
{
    if n == 0 {
        s
    } else {
        adv(file, adv_n(file, s, (n - 1) as nat))
    }
}

/// The state reached after skipping spaces, tabs and line breaks.
pub open spec fn skip_space(file: Seq<char>, s: LexState) -> LexState
    decreases file.len() - s.pos,
{
    if 0 <= s.pos < file.len() && is_space_spec(file[s.pos]) {
        skip_space(file, adv(file, s))
    } else {
        s
    }
}

/// The end of the run of letters that starts at `i`.
pub open spec fn word_end(file: Seq<char>, i: int) -> int
    decreases file.len() - i,
{
    if i < 0 || i >= file.len() || !letter_char(file[i]) {
        i
    } else {
        word_end(file, i + 1)
    }
}

/// The end of the run of digits and dots that starts at `i`.
pub open spec fn number_end(file: Seq<char>, i: int) -> int
    decreases file.len() - i,
{
    if i < 0 || i >= file.len() || !(number_char(file[i]) || file[i] == '.') {
        i
    } else {
        number_end(file, i + 1)
    }
}

/// The end of the text of a string literal whose first character is at
/// `start`: the first closing quote, the end of the file, or a line break
/// after the first character.
pub open spec fn str_end(file: Seq<char>, start: int, i: int) -> int
    decreases file.len() - i,
{
    if i < 0 || i >= file.len() || file[i] == '"' || (i > start && file[i] == '\n') {
        i
    } else {
        str_end(file, start, i + 1)
    }
}

/// The column reported for an arithmetic operator: one before the column
/// reached after it, wrapping around below 0.
pub open spec fn col_before(col: int) -> int {
    if col == 0 { usize::MAX as int } else { col - 1 }
}

/// The token that the lexer reads at `s`, and the state after it.
pub open spec fn next_tok(file: Seq<char>, s: LexState) -> (TokenView, LexState) {
    let s1 = skip_space(file, s);
    let p = s1.pos;
    if p >= file.len() {
        ((TokenType::Eof, "eof"@, s1.line, s1.col), s1)
    } else {
        let c = file[p];
        if c == '"' {
            let s2 = adv(file, s1);
            let e = str_end(file, p + 1, p + 1);
            (
                (TokenType::Str, file.subrange(p + 1, e), s2.line, s2.col),
                adv_n(file, s1, (e - p + 1) as nat),
            )
        } else if letter_char(c) {
            let e = word_end(file, p);
            let w = file.subrange(p, e);
            let kind = match static_token_of(w) {
                Some(t) => t,
                None => TokenType::Name,
            };
            ((kind, w, s1.line, s1.col), adv_n(file, s1, (e - p) as nat))
        } else if is_symbol_spec(c) {
            let kind = match static_token_of(seq![c]) {
                Some(t) => t,
                None => TokenType::Unknown,
            };
            ((kind, seq![c], s1.line, s1.col), adv(file, s1))
        } else if number_char(c) {
            let e = number_end(file, p);
            ((TokenType::Number, file.subrange(p, e), s1.line, s1.col), adv_n(file, s1, (e - p) as nat))
        } else if is_ariphmetic_op_spec(c) {
            let s2 = adv(file, s1);
            ((TokenType::AriphOp, seq![c], s2.line, col_before(s2.col)), s2)
        } else {
            ((TokenType::Unknown, seq![c], s1.line, s1.col), s1)
        }
    }
}

/// Whether `s` is a state that the lexer can reach in `file`.
pub open spec fn state_ok(file: Seq<char>, s: LexState) -> bool {
    &&& 0 < file.len()
    &&& file.len() + 4 < usize::MAX
    &&& 0 <= s.pos <= file.len() + 1
    &&& 0 <= s.line <= s.pos + 1
    &&& 0 <= s.col <= s.pos + 1
}

pub proof fn lemma_adv_ok(file: Seq<char>, s: LexState)
    requires
        state_ok(file, s),
        s.pos <= file.len(),
    ensures
        state_ok(file, adv(file, s)),
        adv(file, s).pos == s.pos + 1,
{
}

pub proof fn lemma_adv_n_pos(file: Seq<char>, s: LexState, n: nat)
    requires
        state_ok(file, s),
        s.pos + n <= file.len() + 1,
    ensures
        state_ok(file, adv_n(file, s, n)),
        adv_n(file, s, n).pos == s.pos + n,
    decreases n,
{
    if n > 0 {
        lemma_adv_n_pos(file, s, (n - 1) as nat);
        lemma_adv_ok(file, adv_n(file, s, (n - 1) as nat));
    }
}

pub proof fn lemma_word_end(file: Seq<char>, i: int, j: int)
    requires
        0 <= i <= j,
        j <= file.len(),
        forall|k: int| i <= k < j ==> letter_char(#[trigger] file[k]),
    ensures
        word_end(file, i) == word_end(file, j),
    decreases j - i,
{
    if i < j {
        assert(letter_char(file[i]));
        lemma_word_end(file, i + 1, j);
    }
}

pub proof fn lemma_number_end(file: Seq<char>, i: int, j: int)
    requires
        0 <= i <= j,
        j <= file.len(),
        forall|k: int| i <= k < j ==> (number_char(#[trigger] file[k]) || file[k] == '.'),
    ensures
        number_end(file, i) == number_end(file, j),
    decreases j - i,
{
    if i < j {
        assert(number_char(file[i]) || file[i] == '.');
        lemma_number_end(file, i + 1, j);
    }
}

pub proof fn lemma_str_end(file: Seq<char>, start: int, i: int, j: int)
    requires
        0 <= start <= i <= j,
        j <= file.len(),
        forall|k: int| i <= k < j ==> (#[trigger] file[k] != '"' && (k > start ==> file[k] != '\n')),
    ensures
        str_end(file, start, i) == str_end(file, start, j),
    decreases j - i,
{
    if i < j {
        assert(file[i] != '"');
        lemma_str_end(file, start, i + 1, j);
    }
}

pub proof fn lemma_ends_bounded(file: Seq<char>, i: int)
    requires
        0 <= i <= file.len(),
    ensures
        i <= word_end(file, i) <= file.len(),
        i <= number_end(file, i) <= file.len(),
        forall|start: int| 0 <= start <= i ==> i <= #[trigger] str_end(file, start, i) <= file.len(),
    decreases file.len() - i,
{
    if i < file.len() {
        lemma_ends_bounded(file, i + 1);
        assert forall|start: int| 0 <= start <= i implies i <= #[trigger] str_end(file, start, i) <= file.len() by {
            assert(str_end(file, start, i + 1) >= i + 1);
        }
    }
}

pub proof fn lemma_subrange_push(file: Seq<char>, p: int, q: int)
    requires
        0 <= p <= q < file.len(),
    ensures
        file.subrange(p, q + 1) == file.subrange(p, q).push(file[q]),
{
    assert(file.subrange(p, q + 1) =~= file.subrange(p, q).push(file[q]));
}

/// The lexer of the language: it reads a file, one token at a time.
pub struct Lexer {
    file: Vec<char>,
    pos: usize,
    curr_char: char,
    curr_line: usize,
    line_char: usize,
}

impl Lexer {
    /// The characters of the file being read.
    pub closed spec fn file(&self) -> Seq<char> {
        self.file@
    }

    /// Where the lexer stands.
    pub closed spec fn state(&self) -> LexState {
        LexState { pos: self.pos as int, line: self.curr_line as int, col: self.line_char as int }
    }

    /// The lexer's internal invariant.
    pub closed spec fn wf(&self) -> bool {
        &&& state_ok(self.file@, self.state())
        &&& self.curr_char == if self.pos < self.file@.len() {
            self.file@[self.pos as int]
        } else {
            self.file@[self.file@.len() - 1]
        }
    }

    /// A lexer at the start of `file`: line 1, column 1.
    pub fn new(file: &str) -> (l: Lexer)
        requires
            0 < file@.len(),
            file@.len() + 4 < usize::MAX,
        ensures
            l.wf(),
            l.file() == file@,
            l.state() == (LexState { pos: 0, line: 1, col: 1 }),
    {
        let chars = chars_of(file);
        let mut lexer = Lexer { file: chars, pos: 0, curr_char: '\0', curr_line: 1, line_char: 1 };
        lexer.curr_char = lexer.at_pos(0);
        lexer
    }

    fn at_pos(&self, pos: usize) -> (c: char)
        requires
            pos < self.file@.len(),
        ensures
            c == self.file@[pos as int],
    {
        self.file[pos]
    }

    fn advance(&mut self)
        requires
            old(self).wf(),
            old(self).pos <= old(self).file@.len(),
        ensures
            final(self).wf(),
            final(self).file == old(self).file,
            final(self).state() == adv(old(self).file@, old(self).state()),
    {
        self.line_char = self.line_char + 1;
        self.pos = self.pos + 1;
        if self.eof() {
            return;
        }
        self.curr_char = self.at_pos(self.pos);
        if self.curr_char == '\n' {
            self.curr_line = self.curr_line + 1;
            self.line_char = 0;
        }
    }

    fn eof(&self) -> (b: bool)
        ensures
            b == (self.pos >= self.file@.len()),
    {
        self.pos >= self.file.len()
    }

    fn space(&self) -> (b: bool)
        ensures
            b == is_space_spec(self.curr_char),
    {
        self.curr_char == ' ' || self.curr_char == '\n' || self.curr_char == '\t'
    }

    fn tok_inst(&self, line: usize, ch: usize, typ: TokenType, val: String) -> (t: Token)
        ensures
            t.name == typ,
            t.value == val,
            t.line == line,
            t.on_char == ch,
    {
        Token::new(typ, val, line, ch)
    }

    fn get_number_token(&mut self) -> (t: Token)
        requires
            old(self).wf(),
            old(self).pos < old(self).file@.len(),
        ensures
            final(self).wf(),
            final(self).file@ == old(self).file@,
            ({
                let p = old(self).pos as int;
                let e = number_end(old(self).file@, p);
                &&& t@ == (TokenType::Number, old(self).file@.subrange(p, e), old(self).curr_line as int, old(self).line_char as int)
                &&& final(self).state() == adv_n(old(self).file@, old(self).state(), (e - p) as nat)
            }),
    {
        let l = self.curr_line;
        let c = self.line_char;
        let ghost file = self.file@;
        let ghost s0 = self.state();
        let ghost p = self.pos as int;
        let mut num = String::new();
        while !self.eof() && (is_numeric(self.curr_char) || self.curr_char == '.')
            invariant
                self.wf(),
                self.file@ == file,
                0 <= p <= self.pos <= file.len(),
                num@ == file.subrange(p, self.pos as int),
                self.state() == adv_n(file, s0, (self.pos - p) as nat),
                number_end(file, p) == number_end(file, self.pos as int),
            decreases file.len() - self.pos,
        {
            proof {
                lemma_number_end(file, self.pos as int, self.pos + 1);
            }
            let ghost n0 = num@;
            let ghost q = self.pos as int;
            assert(q < file.len());
            assert(p <= q);
            assert(self.curr_char == file[q]);
            push_char(&mut num, self.curr_char);
            assert(num@ == n0.push(file[q]));
            self.advance();
            assert(self.pos == q + 1);
            proof { lemma_subrange_push(file, p, q); }
        }
        self.tok_inst(l, c, TokenType::Number, num)
    }

    fn get_word(&mut self) -> (w: String)
        requires
            old(self).wf(),
            old(self).pos <= old(self).file@.len(),
        ensures
            final(self).wf(),
            final(self).file@ == old(self).file@,
            ({
                let p = old(self).pos as int;
                let e = word_end(old(self).file@, p);
                &&& w@ == old(self).file@.subrange(p, e)
                &&& final(self).state() == adv_n(old(self).file@, old(self).state(), (e - p) as nat)
            }),
    {
        let ghost file = self.file@;
        let ghost s0 = self.state();
        let ghost p = self.pos as int;
        let mut word = String::new();
        while !self.eof() && is_alphabetic(self.curr_char)
            invariant
                self.wf(),
                self.file@ == file,
                0 <= p <= self.pos <= file.len(),
                word@ == file.subrange(p, self.pos as int),
                self.state() == adv_n(file, s0, (self.pos - p) as nat),
                word_end(file, p) == word_end(file, self.pos as int),
            decreases file.len() - self.pos,
        {
            proof {
                lemma_word_end(file, self.pos as int, self.pos + 1);
            }
            proof { lemma_subrange_push(file, p, self.pos as int); }
            push_char(&mut word, self.curr_char);
            self.advance();
        }
        word
    }

    fn get_static_token(&mut self) -> (t: Token)
        requires
            old(self).wf(),
            old(self).pos < old(self).file@.len(),
        ensures
            final(self).wf(),
            final(self).file@ == old(self).file@,
            ({
                let p = old(self).pos as int;
                let e = word_end(old(self).file@, p);
                let w = old(self).file@.subrange(p, e);
                let kind = match static_token_of(w) {
                    Some(k) => k,
                    None => TokenType::Name,
                };
                &&& t@ == (kind, w, old(self).curr_line as int, old(self).line_char as int)
                &&& final(self).state() == adv_n(old(self).file@, old(self).state(), (e - p) as nat)
            }),
    {
        let l = self.curr_line;
        let c = self.line_char;
        let word = self.get_word();
        match find_static_token(&word) {
            Some(st) => self.tok_inst(l, c, st, word),
            None => self.tok_inst(l, c, TokenType::Name, word),
        }
    }

    fn get_str_token(&mut self) -> (t: Token)
        requires
            old(self).wf(),
            old(self).pos < old(self).file@.len(),
            old(self).curr_char == '"',
        ensures
            final(self).wf(),
            final(self).file@ == old(self).file@,
            ({
                let file = old(self).file@;
                let p = old(self).pos as int;
                let s2 = adv(file, old(self).state());
                let e = str_end(file, p + 1, p + 1);
                &&& t@ == (TokenType::Str, file.subrange(p + 1, e), s2.line, s2.col)
                &&& final(self).state() == adv_n(file, old(self).state(), (e - p + 1) as nat)
            }),
    {
        let ghost file = self.file@;
        let ghost s0 = self.state();
        let ghost p = self.pos as int;
        if self.curr_char == '"' {
            self.advance();
        }
        proof {
            lemma_ends_bounded(file, p + 1);
        }
        assert(adv_n(file, s0, 0) == s0);
        assert(self.state() == adv_n(file, s0, 1));
        let l = self.curr_line;
        let c = self.line_char;
        let mut str_val = String::new();
        let ghost start = p + 1;
        while self.curr_char != '"'
            invariant_except_break
                self.wf(),
                self.file@ == file,
                0 <= p,
                start == p + 1,
                start <= self.pos <= file.len(),
                str_val@ == file.subrange(start, self.pos as int),
                self.state() == adv_n(file, s0, (self.pos - p) as nat),
                str_end(file, start, start) == str_end(file, start, self.pos as int),
                self.pos < file.len() || self.curr_char == '"',
                self.pos > start ==> file[self.pos as int] != '\n',
            ensures
                self.wf(),
                self.file@ == file,
                0 <= p,
                start == p + 1,
                start <= self.pos <= file.len(),
                str_val@ == file.subrange(start, self.pos as int),
                self.state() == adv_n(file, s0, (self.pos - p) as nat),
                self.pos == str_end(file, start, start),
            decreases file.len() - self.pos,
        {
            proof {
                lemma_str_end(file, start, self.pos as int, self.pos + 1);
            }
            proof { lemma_subrange_push(file, start, self.pos as int); }
            push_char(&mut str_val, self.curr_char);
            self.advance();
            if self.eof() || self.curr_char == '\n' {
                break;
            }
        }
        self.advance();
        self.tok_inst(l, c, TokenType::Str, str_val)
    }

    fn get_symbol_token(&mut self) -> (t: Token)
        requires
            old(self).wf(),
            old(self).pos < old(self).file@.len(),
        ensures
            final(self).wf(),
            final(self).file@ == old(self).file@,
            ({
                let c = old(self).curr_char;
                let kind = match static_token_of(seq![c]) {
                    Some(k) => k,
                    None => TokenType::Unknown,
                };
                &&& t@ == (kind, seq![c], old(self).curr_line as int, old(self).line_char as int)
                &&& final(self).state() == adv(old(self).file@, old(self).state())
            }),
    {
        let mut word = String::new();
        push_char(&mut word, self.curr_char);
        assert(word@ =~= seq![self.curr_char]);
        let l = self.curr_line;
        let c = self.line_char;
        self.advance();
        match find_static_token(&word) {
            Some(st) => self.tok_inst(l, c, st, word),
            None => self.tok_inst(l, c, TokenType::Unknown, word),
        }
    }

    fn skip_space(&mut self)
        requires
            old(self).wf(),
        ensures
            final(self).wf(),
            final(self).file@ == old(self).file@,
            final(self).state() == skip_space(old(self).file@, old(self).state()),
    {
        let ghost file = self.file@;
        let ghost s0 = self.state();
        while !self.eof() && self.space()
            invariant
                self.wf(),
                self.file@ == file,
                skip_space(file, s0) == skip_space(file, self.state()),
            decreases file.len() - self.pos,
        {
            self.advance();
        }
    }

    /// Reads the next token of the file.
    pub fn next_token(&mut self) -> (t: Token)
        requires
            old(self).wf(),
        ensures
            final(self).wf(),
            final(self).file() == old(self).file(),
            (t@, final(self).state()) == next_tok(old(self).file(), old(self).state()),
    {
        let ghost file = self.file@;
        self.skip_space();
        let ghost s1 = self.state();
        if self.eof() {
            let mut v = String::new();
            push_char(&mut v, 'e');
            push_char(&mut v, 'o');
            push_char(&mut v, 'f');
            proof {
                reveal_strlit("eof");
                assert(v@ =~= "eof"@);
            }
            return self.tok_inst(self.curr_line, self.line_char, TokenType::Eof, v);
        }
        let curr = self.curr_char;
        if curr == '"' {
            return self.get_str_token();
        }
        if is_alphabetic(curr) {
            proof { lemma_ends_bounded(file, s1.pos as int); }
            return self.get_static_token();
        }
        if is_symbol(&curr) {
            return self.get_symbol_token();
        }
        if is_numeric(curr) {
            proof { lemma_ends_bounded(file, s1.pos as int); }
            return self.get_number_token();
        }
        if is_ariphmetic_op(&curr) {
            self.advance();
            let mut v = String::new();
            push_char(&mut v, curr);
            assert(v@ =~= seq![curr]);
            return self.tok_inst(self.curr_line, self.line_char.wrapping_sub(1), TokenType::AriphOp, v);
        }
        let mut v = String::new();
        push_char(&mut v, curr);
        assert(v@ =~= seq![curr]);
        self.tok_inst(self.curr_line, self.line_char, TokenType::Unknown, v)
    }
}

/// The tokens that the lexer reads from `s` on, up to the first token after
/// which it no longer moves: the end of the file, or a character it cannot
/// read (it would return that token again and again).
pub open spec fn lex_from(file: Seq<char>, s: LexState) -> Seq<TokenView>
    decreases file.len() + 2 - s.pos,
{
    let (t, s2) = next_tok(file, s);
    if s.pos < s2.pos <= file.len() + 1 {
        seq![t] + lex_from(file, s2)
    } else {
        seq![t]
    }
}

/// The start of a file: line 1, column 1.
pub open spec fn lex_start() -> LexState {
    LexState { pos: 0, line: 1, col: 1 }
}

/// The tokens of `file`.
pub open spec fn lex_file(file: Seq<char>) -> Seq<TokenView> {
    lex_from(file, lex_start())
}

pub proof fn lemma_skip_space(file: Seq<char>, s: LexState)
    requires
        state_ok(file, s),
    ensures
        state_ok(file, skip_space(file, s)),
        skip_space(file, s).pos >= s.pos,
        skip_space(file, s).pos < file.len() ==> !is_space_spec(file[skip_space(file, s).pos]),
    decreases file.len() - s.pos,
{
    if 0 <= s.pos < file.len() && is_space_spec(file[s.pos]) {
        lemma_adv_ok(file, s);
        lemma_skip_space(file, adv(file, s));
    }
}

/// The lexer never moves back, and it stands still only on the end of the
/// file or on a character it cannot read.
pub proof fn lemma_next_tok_progress(file: Seq<char>, s: LexState)
    requires
        state_ok(file, s),
    ensures
        state_ok(file, next_tok(file, s).1),
        next_tok(file, s).1.pos >= s.pos,
        next_tok(file, s).1.pos == s.pos ==> (next_tok(file, s).0.0 == TokenType::Eof
            || next_tok(file, s).0.0 == TokenType::Unknown),
{
    lemma_skip_space(file, s);
    let s1 = skip_space(file, s);
    let p = s1.pos;
    if p < file.len() {
        let c = file[p];
        lemma_ends_bounded(file, p);
        lemma_ends_bounded(file, p + 1);
        if c == '"' {
            let e = str_end(file, p + 1, p + 1);
            lemma_adv_n_pos(file, s1, (e - p + 1) as nat);
        } else if letter_char(c) {
            let e = word_end(file, p);
            lemma_adv_n_pos(file, s1, (e - p) as nat);
        } else if is_symbol_spec(c) {
            lemma_adv_ok(file, s1);
        } else if number_char(c) {
            let e = number_end(file, p);
            lemma_adv_n_pos(file, s1, (e - p) as nat);
        } else if is_ariphmetic_op_spec(c) {
            lemma_adv_ok(file, s1);
        }
    }
}

/// A space, a tab or a line break between tokens is skipped: the lexer
/// reads from such a character the same token, and reaches the same state,
/// as from the character after it.
pub proof fn law_whitespace_is_skipped(file: Seq<char>, s: LexState)
    requires
        0 <= s.pos < file.len(),
        file[s.pos] == ' ' || file[s.pos] == '\t' || file[s.pos] == '\n',
    ensures
        skip_space(file, s) == skip_space(file, adv(file, s)),
        next_tok(file, s) == next_tok(file, adv(file, s)),
{
}

/// After the spaces, each of `( ) > = < !` is read as a one-character token
/// at its own place, and the lexer moves past it; each of `+ - * /` is read as a
/// one-character arithmetic operator, and the lexer moves past it; a quote
/// starts a string whose text begins after it; a letter starts a word and a
/// digit a number.
pub proof fn law_first_character_decides_the_token(file: Seq<char>, s: LexState)
    requires
        state_ok(file, s),
        skip_space(file, s).pos < file.len(),
    ensures
        ({
            let s1 = skip_space(file, s);
            let c = file[s1.pos];
            let (t, s2) = next_tok(file, s);
            &&& (c == '(' || c == ')' || c == '>' || c == '=' || c == '<' || c == '!') ==> t.1 == seq![c]
                && t.2 == s1.line && t.3 == s1.col && s2 == adv(file, s1)
            &&& (c == '+' || c == '-' || c == '*' || c == '/') ==> t.0 == TokenType::AriphOp && t.1 == seq![c]
                && s2 == adv(file, s1)
            &&& c == '"' ==> t.0 == TokenType::Str && s2.pos > s1.pos
            &&& letter_char(c) ==> t.1.len() > 0 && t.1[0] == c && s2.pos > s1.pos
            &&& number_char(c) && !letter_char(c) ==> t.0 == TokenType::Number && t.1.len() > 0 && t.1[0] == c
                && s2.pos > s1.pos
        }),
{
    lemma_skip_space(file, s);
    let s1 = skip_space(file, s);
    let p = s1.pos;
    let c = file[p];
    lemma_ends_bounded(file, p);
    lemma_ends_bounded(file, p + 1);
    if letter_char(c) && c != '"' {
        let e = word_end(file, p);
        assert(file.subrange(p, e)[0] == c);
        lemma_adv_n_pos(file, s1, (e - p) as nat);
    }
    if c == '"' {
        let e = str_end(file, p + 1, p + 1);
        lemma_adv_n_pos(file, s1, (e - p + 1) as nat);
    }
    if number_char(c) && !letter_char(c) && c != '"' {
        let e = number_end(file, p);
        assert(file.subrange(p, e)[0] == c);
        lemma_adv_n_pos(file, s1, (e - p) as nat);
    }
}

/// With nothing but spaces left, the lexer reads the end of the file, and
/// from there it reads the end of the file again, at the same place.
pub proof fn law_end_of_file_repeats(file: Seq<char>, s: LexState)
    requires
        state_ok(file, s),
        skip_space(file, s).pos >= file.len(),
    ensures
        next_tok(file, s).0.0 == TokenType::Eof,
        next_tok(file, next_tok(file, s).1) == next_tok(file, s),
{
    let s1 = skip_space(file, s);
    assert(skip_space(file, s1) == s1);
}

impl Lexer {
    /// The index of the current character.
    pub fn pos(&self) -> (p: usize)
        ensures
            p == self.state().pos,
    {
        self.pos
    }
}

/// The tokens of `file`, read up to the end of the file or to a character
/// that the lexer cannot read.
pub fn tokenize(file: &str) -> (v: Vec<Token>)
    requires
        0 < file@.len(),
        file@.len() + 4 < usize::MAX,
    ensures
        v@.map_values(|t: Token| t@) == lex_file(file@),
        0 < v@.len(),
        v@.last().name == TokenType::Eof || v@.last().name == TokenType::Unknown,
{
    let mut lexer = Lexer::new(file);
    let mut v: Vec<Token> = Vec::new();
    let ghost f = file@;
    loop
        invariant_except_break
            lex_file(f) == v@.map_values(|t: Token| t@) + lex_from(f, lexer.state()),
        invariant
            lexer.wf(),
            lexer.file() == f,
            f == file@,
        ensures
            lex_file(f) == v@.map_values(|t: Token| t@),
            0 < v@.len(),
            v@.last().name == TokenType::Eof || v@.last().name == TokenType::Unknown,
        decreases f.len() + 2 - lexer.state().pos,
    {
        let ghost s0 = lexer.state();
        let ghost before = v@;
        proof { lemma_next_tok_progress(f, s0); }
        let p0 = lexer.pos();
        let t = lexer.next_token();
        let ghost tv = t@;
        v.push(t);
        assert(v@.map_values(|t: Token| t@) =~= before.map_values(|t: Token| t@).push(tv));
        assert(v@.map_values(|t: Token| t@) == before.map_values(|t: Token| t@) + seq![tv]);
        if lexer.pos() <= p0 {
            assert(lex_from(f, s0) == seq![tv]);
            break;
        }
        assert(lex_from(f, s0) == seq![tv] + lex_from(f, lexer.state()));
    }
    v
}

} // verus!
