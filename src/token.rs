use vstd::prelude::*;

verus! {

/// A half-open range `[low, high)` of character offsets into the source.
#[derive(Debug, Clone, Copy, PartialEq, Eq, Structural)]
pub struct Span {
    pub low: usize,
    pub high: usize,
}

impl Span {
    pub fn set(low: usize, high: usize) -> (r: Span)
        ensures
            r == (Span { low, high }),
    {
        Span { low, high }
    }
}

/// One classified, positioned unit of the source.
#[derive(Debug, Clone, PartialEq)]
pub struct Token {
    pub kind: TokenKind,
    pub span: Span,
}

impl Token {
    pub fn new(kind: TokenKind, span: Span) -> (r: Token)
        ensures
            r == (Token { kind, span }),
    {
        Token { kind, span }
    }

    /// Looks a word up in the table of reserved words.
    pub fn literal_to_keyword(literal: &str) -> (r: Option<KeywordKind>)
        ensures
            r == keyword_of(literal@),
    {
        let w = literal.to_owned();
        if spelled(&w, "let") {
            Some(KeywordKind::Let)
        } else if spelled(&w, "const") {
            Some(KeywordKind::Const)
        } else if spelled(&w, "function") {
            Some(KeywordKind::Function)
        } else if spelled(&w, "fn") {
            Some(KeywordKind::Fn)
        } else if spelled(&w, "while") {
            Some(KeywordKind::While)
        } else if spelled(&w, "do") {
            Some(KeywordKind::Do)
        } else if spelled(&w, "for") {
            Some(KeywordKind::For)
        } else if spelled(&w, "continue") {
            Some(KeywordKind::Continue)
        } else if spelled(&w, "break") {
            Some(KeywordKind::Break)
        } else if spelled(&w, "return") {
            Some(KeywordKind::Return)
        } else if spelled(&w, "if") {
            Some(KeywordKind::If)
        } else if spelled(&w, "else") {
            Some(KeywordKind::Else)
        } else if spelled(&w, "struct") {
            Some(KeywordKind::Struct)
        } else if spelled(&w, "enum") {
            Some(KeywordKind::Enum)
        } else if spelled(&w, "switch") {
            Some(KeywordKind::Switch)
        } else if spelled(&w, "case") {
            Some(KeywordKind::Case)
        } else if spelled(&w, "true") {
            Some(KeywordKind::True)
        } else if spelled(&w, "false") {
            Some(KeywordKind::False)
        } else if spelled(&w, "int") {
            Some(KeywordKind::IntegerType)
        } else if spelled(&w, "float") {
            Some(KeywordKind::FloatType)
        } else if spelled(&w, "str") {
            Some(KeywordKind::StringType)
        } else if spelled(&w, "bool") {
            Some(KeywordKind::BooleanType)
        } else {
            None
        }
    }
}

/// Whether `w` spells exactly `word`.
fn spelled(w: &String, word: &str) -> (r: bool)
    ensures
        r == (w@ == word@),
{
    let other = word.to_owned();
    *w == other
}

/// The reserved word spelled by `w`, if any.
pub open spec fn keyword_of(w: Seq<char>) -> Option<KeywordKind> {
    if w == "let"@ {
        Some(KeywordKind::Let)
    } else if w == "const"@ {
        Some(KeywordKind::Const)
    } else if w == "function"@ {
        Some(KeywordKind::Function)
    } else if w == "fn"@ {
        Some(KeywordKind::Fn)
    } else if w == "while"@ {
        Some(KeywordKind::While)
    } else if w == "do"@ {
        Some(KeywordKind::Do)
    } else if w == "for"@ {
        Some(KeywordKind::For)
    } else if w == "continue"@ {
        Some(KeywordKind::Continue)
    } else if w == "break"@ {
        Some(KeywordKind::Break)
    } else if w == "return"@ {
        Some(KeywordKind::Return)
    } else if w == "if"@ {
        Some(KeywordKind::If)
    } else if w == "else"@ {
        Some(KeywordKind::Else)
    } else if w == "struct"@ {
        Some(KeywordKind::Struct)
    } else if w == "enum"@ {
        Some(KeywordKind::Enum)
    } else if w == "switch"@ {
        Some(KeywordKind::Switch)
    } else if w == "case"@ {
        Some(KeywordKind::Case)
    } else if w == "true"@ {
        Some(KeywordKind::True)
    } else if w == "false"@ {
        Some(KeywordKind::False)
    } else if w == "int"@ {
        Some(KeywordKind::IntegerType)
    } else if w == "float"@ {
        Some(KeywordKind::FloatType)
    } else if w == "str"@ {
        Some(KeywordKind::StringType)
    } else if w == "bool"@ {
        Some(KeywordKind::BooleanType)
    } else {
        None
    }
}

/// What a token is.
#[derive(Debug, Clone, PartialEq)]
pub enum TokenKind {
    /// `// comment`, up to the end of the line.
    LineComment,
    /// `/* comment */`, possibly nested; `terminated` is false when the input
    /// ended before the matching close.
    BlockComment { terminated: bool },
    /// A run of whitespace characters.
    Whitespace,
    Ident { name: String },
    Keyword { kind: KeywordKind },
    /// An identifier run that is followed by an emoji.
    InvalidIdent,
    Literal { kind: LiteralKind },
    /// A decimal point with no digit after it.
    InvalidDecimal,
    /// An exponent marker with no digit after it.
    InvalidExponent,
    /// A well-formed integer literal whose value does not fit in an `i64`.
    InvalidLiteral,
    /// `::`
    Scope,
    /// `->`
    Arrow,
    /// `||`
    Or,
    /// `&&`
    And,
    /// `!=`
    NotEq,
    /// `==`
    EqEq,
    /// `>=`
    GtEq,
    /// `<=`
    LtEq,
    /// `+=`
    PlusEq,
    /// `-=`
    MinusEq,
    /// `*=`
    AsteriskEq,
    /// `/=`
    SlashEq,
    /// `%=`
    PercentEq,
    /// `^=`
    CaretEq,
    /// `;`
    Semi,
    /// `:`
    Colon,
    /// `,`
    Comma,
    /// `.`
    Dot,
    /// `/`
    Slash,
    /// `?`
    Question,
    /// `<`
    Lt,
    /// `>`
    Gt,
    /// `{`
    OpenBrace,
    /// `}`
    CloseBrace,
    /// `[`
    OpenBracket,
    /// `]`
    CloseBracket,
    /// `|`
    Pipe,
    /// `\`
    BSlash,
    /// `~`
    Tilde,
    /// `` ` ``
    Btick,
    /// `!`
    Bang,
    /// `@`
    At,
    /// `#`
    Sharp,
    /// `$`
    Dollar,
    /// `%`
    Percent,
    /// `^`
    Caret,
    /// `&`
    Ampersand,
    /// `*`
    Asterisk,
    /// `(`
    OpenPara,
    /// `)`
    ClosePara,
    /// `-`
    Minus,
    /// `+`
    Plus,
    /// `=`
    Eq,
    /// A character that starts no token.
    Unknown,
    /// The end of the input.
    Eof,
}

/// The value a literal token carries.
#[derive(Debug, Clone, PartialEq)]
pub enum LiteralKind {
    /// Digits alone.
    Int { value: i64 },
    /// Digits with a fraction, an exponent or both; `literal` is the text of
    /// the number as written.
    Float { literal: String },
    /// A quoted string; escapes are kept as written.
    Str { terminated: bool, value: String },
}

/// The reserved words of the language.
#[derive(Debug, Clone, Copy, PartialEq, Eq, Structural)]
pub enum KeywordKind {
    Let,
    Const,
    Function,
    Fn,
    While,
    Do,
    For,
    Continue,
    Break,
    Return,
    If,
    Else,
    Struct,
    Enum,
    Switch,
    Case,
    True,
    False,
    IntegerType,
    FloatType,
    StringType,
    BooleanType,
}

} // verus!
