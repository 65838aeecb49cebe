use vstd::prelude::*;
use vstd::string::StringExecFns;

verus! {

/// The kinds of tokens of the language. Each kind is named by a word of the
/// language (see `TokenType::text`).
#[derive(Clone, Copy, Debug, PartialEq, Eq, Structural)]
pub enum TokenType {
    Number,
    AriphOp,
    Str,
    Name,
    Unknown,
    Eof,
    Eol,
    LPar,
    RPar,
    LBrack,
    RBrack,
    Coma,
    Func,
    RetType,
    Return,
    Class,
    Constructor,
    Private,
    Public,
    Var,
    Array,
    Assign,
    Get,
    If,
    Else,
    While,
    Equals,
    NotEquals,
    Less,
    More,
    True,
    False,
    Null,
}

/// The opening of a compound statement (functions, `if`, `while`).
pub const COMPOUND_START: TokenType = TokenType::LBrack;

/// The closing of a compound statement.
pub const COMPOUND_END: TokenType = TokenType::RBrack;

impl TokenType {
    /// The word that names the token kind; for the static tokens it is also
    /// the text that the lexer recognises.
    pub open spec fn text(self) -> Seq<char> {
        match self {
            TokenType::Number => "цифри"@,
            TokenType::AriphOp => "мт"@,
            TokenType::Str => "букви"@,
            TokenType::Name => "назва"@,
            TokenType::Unknown => "якась хуйня"@,
            TokenType::Eof => "кінець"@,
            TokenType::Eol => "крч"@,
            TokenType::LPar => "("@,
            TokenType::RPar => ")"@,
            TokenType::LBrack => ":"@,
            TokenType::RBrack => "всьо"@,
            TokenType::Coma => ","@,
            TokenType::Func => "тємка"@,
            TokenType::RetType => "нарішає"@,
            TokenType::Return => "рішани"@,
            TokenType::Class => "масть"@,
            TokenType::Constructor => "вилупився"@,
            TokenType::Private => "тіхарь"@,
            TokenType::Public => "кент"@,
            TokenType::Var => "штріх"@,
            TokenType::Array => "штріхи"@,
            TokenType::Assign => "="@,
            TokenType::Get => "."@,
            TokenType::If => "варік"@,
            TokenType::Else => "найоб"@,
            TokenType::While => "поки"@,
            TokenType::Equals => "внатурі"@,
            TokenType::NotEquals => "не"@,
            TokenType::Less => "меньше"@,
            TokenType::More => "більше"@,
            TokenType::True => "база"@,
            TokenType::False => "гон"@,
            TokenType::Null => "галяк"@,
        }
    }

    /// The word that names the token kind.
    pub fn as_str(&self) -> (s: &'static str)
        ensures
            s@ == self.text(),
    {
        match self {
            TokenType::Number => "цифри",
            TokenType::AriphOp => "мт",
            TokenType::Str => "букви",
            TokenType::Name => "назва",
            TokenType::Unknown => "якась хуйня",
            TokenType::Eof => "кінець",
            TokenType::Eol => "крч",
            TokenType::LPar => "(",
            TokenType::RPar => ")",
            TokenType::LBrack => ":",
            TokenType::RBrack => "всьо",
            TokenType::Coma => ",",
            TokenType::Func => "тємка",
            TokenType::RetType => "нарішає",
            TokenType::Return => "рішани",
            TokenType::Class => "масть",
            TokenType::Constructor => "вилупився",
            TokenType::Private => "тіхарь",
            TokenType::Public => "кент",
            TokenType::Var => "штріх",
            TokenType::Array => "штріхи",
            TokenType::Assign => "=",
            TokenType::Get => ".",
            TokenType::If => "варік",
            TokenType::Else => "найоб",
            TokenType::While => "поки",
            TokenType::Equals => "внатурі",
            TokenType::NotEquals => "не",
            TokenType::Less => "меньше",
            TokenType::More => "більше",
            TokenType::True => "база",
            TokenType::False => "гон",
            TokenType::Null => "галяк",
        }
    }
}

/// The static tokens, in the order in which the lexer tries them.
pub open spec fn static_tokens() -> Seq<TokenType> {
    seq![
        TokenType::Eol,
        TokenType::LPar,
        TokenType::RPar,
        TokenType::LBrack,
        TokenType::RBrack,
        TokenType::Coma,
        TokenType::Func,
        TokenType::RetType,
        TokenType::Return,
        TokenType::Class,
        TokenType::Private,
        TokenType::Public,
        TokenType::Array,
        TokenType::If,
        TokenType::Else,
        TokenType::While,
        TokenType::Var,
        TokenType::Assign,
        TokenType::Get,
        TokenType::Equals,
        TokenType::NotEquals,
        TokenType::Less,
        TokenType::More,
        TokenType::True,
        TokenType::False,
        TokenType::Null,
    ]
}

/// The first static token of `toks[from..]` whose text is `word`.
pub open spec fn find_static_from(toks: Seq<TokenType>, from: int, word: Seq<char>) -> Option<TokenType>
    decreases toks.len() - from,
{
    if from < 0 || from >= toks.len() {
        None
    } else if toks[from].text() == word {
        Some(toks[from])
    } else {
        find_static_from(toks, from + 1, word)
    }
}

/// The static token whose text is `word`, trying them in order.
pub open spec fn static_token_of(word: Seq<char>) -> Option<TokenType> {
    find_static_from(static_tokens(), 0, word)
}

/// The static tokens, in the order in which the lexer tries them.
pub fn static_token_list() -> (v: Vec<TokenType>)
    ensures
        v@ == static_tokens(),
{
    let v = vec![
        TokenType::Eol,
        TokenType::LPar,
        TokenType::RPar,
        TokenType::LBrack,
        TokenType::RBrack,
        TokenType::Coma,
        TokenType::Func,
        TokenType::RetType,
        TokenType::Return,
        TokenType::Class,
        TokenType::Private,
        TokenType::Public,
        TokenType::Array,
        TokenType::If,
        TokenType::Else,
        TokenType::While,
        TokenType::Var,
        TokenType::Assign,
        TokenType::Get,
        TokenType::Equals,
        TokenType::NotEquals,
        TokenType::Less,
        TokenType::More,
        TokenType::True,
        TokenType::False,
        TokenType::Null,
    ];
    assert(v@ =~= static_tokens());
    v
}

/// Tokens whose texts are not `word` are passed over by the lookup.
proof fn lemma_find_static_skip(toks: Seq<TokenType>, from: int, to: int, word: Seq<char>)
    requires
        0 <= from <= to <= toks.len(),
        forall|k: int| from <= k < to ==> (#[trigger] toks[k]).text() != word,
    ensures
        find_static_from(toks, from, word) == find_static_from(toks, to, word),
    decreases to - from,
{
    if from < to {
        lemma_find_static_skip(toks, from + 1, to, word);
    }
}

/// Each static token's text reads back as that token: the texts of the
/// static tokens are all different.
pub proof fn law_keyword_reads_as_its_token(i: int)
    requires
        0 <= i < static_tokens().len(),
    ensures
        static_token_of(static_tokens()[i].text()) == Some(static_tokens()[i]),
{
    reveal_strlit("крч");
    reveal_strlit("(");
    reveal_strlit(")");
    reveal_strlit(":");
    reveal_strlit("всьо");
    reveal_strlit(",");
    reveal_strlit("тємка");
    reveal_strlit("нарішає");
    reveal_strlit("рішани");
    reveal_strlit("масть");
    reveal_strlit("тіхарь");
    reveal_strlit("кент");
    reveal_strlit("штріхи");
    reveal_strlit("варік");
    reveal_strlit("найоб");
    reveal_strlit("поки");
    reveal_strlit("штріх");
    reveal_strlit("=");
    reveal_strlit(".");
    reveal_strlit("внатурі");
    reveal_strlit("не");
    reveal_strlit("меньше");
    reveal_strlit("більше");
    reveal_strlit("база");
    reveal_strlit("гон");
    reveal_strlit("галяк");
    let t = static_tokens();
    let w = t[i].text();
    assert forall|k: int| 0 <= k < i implies (#[trigger] t[k]).text() != w by {
        // Any two texts differ in their length or in one of these characters.
        assert(t[k].text().len() != w.len() || t[k].text()[0] != w[0] || t[k].text()[1] != w[1]
            || t[k].text()[4] != w[4] || t[k].text()[5] != w[5]);
    }
    lemma_find_static_skip(t, 0, i, w);
}

/// Looks `word` up among the static tokens.
pub fn find_static_token(word: &String) -> (r: Option<TokenType>)
    ensures
        r == static_token_of(word@),
{
    let list = static_token_list();
    let mut i: usize = 0;
    while i < list.len()
        invariant
            list@ == static_tokens(),
            i <= list.len(),
            find_static_from(list@, 0, word@) == find_static_from(list@, i as int, word@),
        decreases list.len() - i,
    {
        let t = list[i];
        let text = String::from_str(t.as_str());
        if text == *word {
            return Some(t);
        }
        i = i + 1;
    }
    None
}

/// A token read by the lexer: its kind, its text, and where it starts.
#[derive(Clone, Debug)]
pub struct Token {
    pub name: TokenType,
    pub value: String,
    pub line: usize,
    pub on_char: usize,
}

impl Token {
    pub fn new(name: TokenType, val: String, line: usize, ch: usize) -> (t: Token)
        ensures
            t.name == name,
            t.value == val,
            t.line == line,
            t.on_char == ch,
    {
        Token { name, value: val, line, on_char: ch }
    }

    /// A copy of the token, equal to it.
    pub fn duplicate(&self) -> (t: Token)
        ensures
            t == *self,
    {
        Token { name: self.name, value: self.value.clone(), line: self.line, on_char: self.on_char }
    }
}

} // verus!
