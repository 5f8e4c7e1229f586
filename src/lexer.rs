use crate::grammar::{
    after_fraction_scan, block_end, decimal_value, emoji_char, exponent_digits_scan, exponent_scan,
    fraction_scan, id_start, ident_end, ident_kind_ok, ident_token_end, int_kind,
    lemma_decimal_prefix, lemma_run_end, lemma_token_progress, lexes_as, number_kind_ok,
    number_scan, operator_end, operator_kind_ok, run_end, slash_kind_ok, slash_token_end,
    string_scan, token_end, whitespace_char, CharClass,
};
use crate::token::{LiteralKind, Span, Token, TokenKind};
use crate::unicode::{
    ascii, ascii_digit, is_emoji_char, is_xid_continue, is_xid_start, xid_continue_char,
};
use vstd::prelude::*;
use vstd::string::StringExecFns;
use vstd::std_specs::iter::IteratorSpec;

verus! {

/// Relies on `String::push`: the character is appended to the text.
#[verifier::external_body]
fn push_char(s: &mut String, c: char)
    ensures
        final(s)@ == old(s)@.push(c),
{
    s.push(c)
}

/// The characters of `code`, in order.
fn chars_of(code: &str) -> (r: Vec<char>)
    ensures
        r@ == code@,
{
    let mut v: Vec<char> = Vec::new();
    for c in it: code.chars()
        invariant
            v@ == it.seq().take(it.index() as int),
            it.seq() == code@,
    {
        v.push(c);
    }
    v
}

/// A scanning session over one source text.
///
/// The session keeps the source's characters, the offset at which the
/// current token began and the offset of the next character to read.
#[derive(Debug)]
pub struct Lexer {
    input: Vec<char>,
    begin: usize,
    end: usize,
}

impl Lexer {
    /// The characters of the source.
    pub closed spec fn source(&self) -> Seq<char> {
        self.input@
    }

    /// The offset at which the current token began.
    pub closed spec fn token_start(&self) -> int {
        self.begin as int
    }

    /// The offset of the next character to read.
    pub closed spec fn offset(&self) -> int {
        self.end as int
    }

    /// Both offsets lie within the source, the token start first.
    pub closed spec fn wf(&self) -> bool {
        self.begin <= self.end <= self.input@.len()
    }

    /// Whether `self` is well formed and differs from `other` at most in its
    /// offset.
    pub open spec fn same_source(&self, other: &Lexer) -> bool {
        &&& self.wf()
        &&& self.source() == other.source()
        &&& self.token_start() == other.token_start()
    }

    pub fn new(code: &str) -> (r: Lexer)
        ensures
            r.wf(),
            r.source() == code@,
            r.token_start() == 0,
            r.offset() == 0,
    {
        Lexer { input: chars_of(code), begin: 0, end: 0 }
    }

    pub fn is_whitespace(ch: char) -> (r: bool)
        ensures
            r == whitespace_char(ch),
    {
        ch == '\u{0009}' || ch == '\u{000A}' || ch == '\u{000B}' || ch == '\u{000C}' || ch
            == '\u{000D}' || ch == '\u{0020}' || ch == '\u{0085}' || ch == '\u{200E}' || ch
            == '\u{200F}' || ch == '\u{2028}' || ch == '\u{2029}'
    }

    fn is_ascii(c: char) -> (r: bool)
        ensures
            r == ascii(c),
    {
        (c as u32) < 128
    }

    fn is_id_start(c: char) -> (r: bool)
        ensures
            r == id_start(c),
    {
        c == '_' || is_xid_start(c)
    }

    fn is_id_continue(c: char) -> (r: bool)
        ensures
            r == xid_continue_char(c),
    {
        is_xid_continue(c)
    }

    fn is_emoji(c: char) -> (r: bool)
        ensures
            r == emoji_char(c),
    {
        !Self::is_ascii(c) && is_emoji_char(c)
    }

    fn is_digit(c: char) -> (r: bool)
        ensures
            r == ascii_digit(c),
    {
        '0' <= c && c <= '9'
    }

    /// Whether `c` belongs to `class`.
    pub fn in_class(class: CharClass, c: char) -> (r: bool)
        ensures
            r == crate::grammar::in_class(class, c),
    {
        match class {
            CharClass::Whitespace => Self::is_whitespace(c),
            CharClass::NotNewline => c != '\n',
            CharClass::Digit => Self::is_digit(c),
            CharClass::IdContinue => Self::is_id_continue(c),
            CharClass::InvalidIdContinue => Self::is_id_continue(c) || Self::is_emoji(c) || c
                == '\u{200D}',
        }
    }

    pub fn is_eof(&self) -> (r: bool)
        requires
            self.wf(),
        ensures
            r == (self.offset() == self.source().len()),
    {
        self.end == self.input.len()
    }

    /// Starts the next token where the current one ended.
    pub fn reset(&mut self)
        requires
            old(self).wf(),
        ensures
            final(self).wf(),
            final(self).source() == old(self).source(),
            final(self).offset() == old(self).offset(),
            final(self).token_start() == old(self).offset(),
    {
        self.begin = self.end;
    }

    /// The span from the current token's start to the current offset.
    pub fn create_span(&self) -> (r: Span)
        requires
            self.wf(),
        ensures
            r.low == self.token_start(),
            r.high == self.offset(),
    {
        Span::set(self.begin, self.end)
    }

    /// Takes the next character, if any is left.
    pub fn next(&mut self) -> (r: Option<char>)
        requires
            old(self).wf(),
        ensures
            final(self).same_source(old(self)),
            old(self).offset() < old(self).source().len() ==> r == Some(
                old(self).source()[old(self).offset()],
            ) && final(self).offset() == old(self).offset() + 1,
            old(self).offset() == old(self).source().len() ==> r is None && final(self).offset()
                == old(self).offset(),
    {
        if self.end < self.input.len() {
            let c = self.input[self.end];
            self.end = self.end + 1;
            Some(c)
        } else {
            None
        }
    }

    /// Skips the next character, if any is left.
    pub fn read_char(&mut self)
        requires
            old(self).wf(),
        ensures
            final(self).same_source(old(self)),
            final(self).offset() == if old(self).offset() < old(self).source().len() {
                old(self).offset() + 1
            } else {
                old(self).offset()
            },
    {
        let _ = self.next();
    }

    /// The next character without taking it, or `'\0'` at the end.
    pub fn first(&self) -> (r: char)
        requires
            self.wf(),
        ensures
            r == if self.offset() < self.source().len() {
                self.source()[self.offset()]
            } else {
                '\0'
            },
    {
        if self.end < self.input.len() {
            self.input[self.end]
        } else {
            '\0'
        }
    }

    /// Skips the run of characters of `class` that comes next.
    pub fn eat_while(&mut self, class: CharClass)
        requires
            old(self).wf(),
        ensures
            final(self).same_source(old(self)),
            final(self).offset() == run_end(old(self).source(), old(self).offset(), class),
    {
        let ghost cs = self.input@;
        proof { lemma_run_end(cs, self.end as int, class); }
        while !self.is_eof() && Self::in_class(class, self.first())
            invariant
                self.same_source(old(self)),
                cs == self.source(),
                old(self).offset() <= self.offset(),
                run_end(cs, self.offset(), class) == run_end(cs, old(self).offset(), class),
            decreases self.source().len() - self.offset(),
        {
            self.read_char();
        }
    }

    /// Takes the run of characters of `class` that comes next and returns it,
    /// after `first_char` where that is given.
    pub fn eat_while_get_literal(&mut self, class: CharClass, first_char: Option<char>) -> (r:
        String)
        requires
            old(self).wf(),
        ensures
            final(self).same_source(old(self)),
            final(self).offset() == run_end(old(self).source(), old(self).offset(), class),
            r@ == match first_char {
                Some(c) => seq![c],
                None => Seq::empty(),
            } + old(self).source().subrange(old(self).offset(), final(self).offset()),
    {
        let ghost cs = self.input@;
        let ghost lead = match first_char {
            Some(c) => seq![c],
            None => Seq::<char>::empty(),
        };
        let mut literal = String::new();
        match first_char {
            Some(value) => push_char(&mut literal, value),
            None => {},
        }
        while !self.is_eof() && Self::in_class(class, self.first())
            invariant
                self.same_source(old(self)),
                cs == self.source(),
                old(self).offset() <= self.offset(),
                run_end(cs, self.offset(), class) == run_end(cs, old(self).offset(), class),
                literal@ == lead + cs.subrange(old(self).offset(), self.offset()),
            decreases self.source().len() - self.offset(),
        {
            let c = self.first();
            self.read_char();
            push_char(&mut literal, c);
            assert(cs.subrange(old(self).offset(), self.offset()) =~= cs.subrange(
                old(self).offset(),
                self.offset() - 1,
            ).push(c));
        }
        literal
    }

    /// Takes a run of whitespace.
    pub fn whitespace(&mut self) -> (r: TokenKind)
        requires
            old(self).wf(),
        ensures
            final(self).same_source(old(self)),
            final(self).offset() == run_end(
                old(self).source(),
                old(self).offset(),
                CharClass::Whitespace,
            ),
            r == TokenKind::Whitespace,
    {
        self.eat_while(CharClass::Whitespace);
        TokenKind::Whitespace
    }

    fn handle_slash(&mut self) -> (r: TokenKind)
        requires
            old(self).wf(),
            0 < old(self).offset(),
            old(self).source()[old(self).offset() - 1] == '/',
        ensures
            final(self).same_source(old(self)),
            final(self).offset() == slash_token_end(old(self).source(), old(self).offset() - 1),
            slash_kind_ok(old(self).source(), old(self).offset() - 1, r),
    {
        match self.first() {
            '/' => self.line_comment(),
            '*' => self.block_comment(),
            '=' => {
                self.read_char();
                TokenKind::SlashEq
            },
            _ => TokenKind::Slash,
        }
    }

    fn line_comment(&mut self) -> (r: TokenKind)
        requires
            old(self).wf(),
        ensures
            final(self).same_source(old(self)),
            final(self).offset() == run_end(
                old(self).source(),
                old(self).offset(),
                CharClass::NotNewline,
            ),
            r == TokenKind::LineComment,
    {
        self.eat_while(CharClass::NotNewline);
        TokenKind::LineComment
    }

    /// Takes a block comment whose `/` has been taken and whose `*` comes next.
    fn block_comment(&mut self) -> (r: TokenKind)
        requires
            old(self).wf(),
            old(self).offset() < old(self).source().len(),
            old(self).source()[old(self).offset()] == '*',
        ensures
            final(self).same_source(old(self)),
            final(self).offset() == block_end(old(self).source(), old(self).offset() + 1, 1).0,
            r == (TokenKind::BlockComment {
                terminated: block_end(old(self).source(), old(self).offset() + 1, 1).1,
            }),
    {
        let ghost cs = self.input@;
        let ghost goal = block_end(cs, self.end + 1, 1);
        self.next();
        let mut depth: usize = 1;
        loop
            invariant
                self.same_source(old(self)),
                cs == self.source(),
                1 <= depth <= self.offset(),
                goal == block_end(old(self).source(), old(self).offset() + 1, 1),
                block_end(cs, self.offset(), depth as nat) == goal,
            decreases self.source().len() - self.offset(),
        {
            match self.next() {
                None => {
                    assert(block_end(cs, self.offset(), depth as nat) == (self.offset(), false));
                    return TokenKind::BlockComment { terminated: false };
                },
                Some(c) => {
                    if c == '/' && self.first() == '*' {
                        self.next();
                        depth = depth + 1;
                    } else if c == '*' && self.first() == '/' {
                        self.next();
                        if depth == 1 {
                            return TokenKind::BlockComment { terminated: true };
                        }
                        depth = depth - 1;
                    }
                },
            }
        }
    }

    /// Takes the rest of an identifier that has turned out to hold an emoji.
    fn invalid_ident(&mut self) -> (r: TokenKind)
        requires
            old(self).wf(),
        ensures
            final(self).same_source(old(self)),
            final(self).offset() == run_end(
                old(self).source(),
                old(self).offset(),
                CharClass::InvalidIdContinue,
            ),
            r == TokenKind::InvalidIdent,
    {
        self.eat_while(CharClass::InvalidIdContinue);
        TokenKind::InvalidIdent
    }

    /// Takes an identifier, a reserved word, or an identifier run into an
    /// emoji, whose first character `first_char` has been taken.
    fn valid_or_invalid_identifier(&mut self, first_char: char) -> (r: TokenKind)
        requires
            old(self).wf(),
            0 < old(self).offset(),
            old(self).source()[old(self).offset() - 1] == first_char,
        ensures
            final(self).same_source(old(self)),
            final(self).offset() == ident_token_end(old(self).source(), old(self).offset() - 1),
            ident_kind_ok(old(self).source(), old(self).offset() - 1, r),
    {
        let ghost cs = self.input@;
        let ghost i = self.end - 1;
        let literal = self.eat_while_get_literal(CharClass::IdContinue, Some(first_char));
        proof {
            lemma_run_end(cs, i + 1, CharClass::IdContinue);
            assert(literal@ =~= cs.subrange(i, ident_end(cs, i)));
        }
        if Self::is_emoji(self.first()) {
            self.invalid_ident()
        } else {
            match Token::literal_to_keyword(literal.as_str()) {
                Some(keyword) => TokenKind::Keyword { kind: keyword },
                None => TokenKind::Ident { name: literal },
            }
        }
    }

    /// The token for the digits at `[lo, hi)`: their value, or the mark of a
    /// value too large for an `i64`.
    fn int_literal(&self, lo: usize, hi: usize) -> (r: TokenKind)
        requires
            self.wf(),
            lo <= hi <= self.source().len(),
            forall|j: int| lo <= j < hi ==> ascii_digit(#[trigger] self.source()[j]),
        ensures
            r == int_kind(self.source().subrange(lo as int, hi as int)),
    {
        let ghost cs = self.input@;
        let mut value: i64 = 0;
        let mut j: usize = lo;
        assert(cs.subrange(lo as int, lo as int) =~= Seq::<char>::empty());
        while j < hi
            invariant
                self.wf(),
                cs == self.source(),
                lo <= j <= hi <= cs.len(),
                forall|m: int| lo <= m < hi ==> ascii_digit(#[trigger] cs[m]),
                0 <= value,
                value as nat == decimal_value(cs.subrange(lo as int, j as int)),
            decreases hi - j,
        {
            let c = self.input[j];
            assert(ascii_digit(cs[j as int]));
            let digit = (c as u32 - '0' as u32) as i64;
            let ghost next = cs.subrange(lo as int, j + 1);
            assert(next.drop_last() =~= cs.subrange(lo as int, j as int));
            assert(decimal_value(next) == value * 10 + digit);
            if value > (i64::MAX - digit) / 10 {
                assert(value * 10 + digit > i64::MAX) by (nonlinear_arith)
                    requires
                        value > (i64::MAX - digit) / 10,
                        0 <= digit <= 9,
                ;
                proof {
                    let whole = cs.subrange(lo as int, hi as int);
                    lemma_decimal_prefix(whole, j + 1 - lo);
                    assert(whole.take(j + 1 - lo) =~= next);
                }
                return TokenKind::InvalidLiteral;
            }
            assert(value * 10 + digit <= i64::MAX) by (nonlinear_arith)
                requires
                    value <= (i64::MAX - digit) / 10,
                    0 <= digit <= 9,
            ;
            value = value * 10 + digit;
            j = j + 1;
        }
        TokenKind::Literal { kind: LiteralKind::Int { value } }
    }

    /// Takes a number whose first digit `ch` has been taken.
    fn integer_or_float(&mut self, ch: char) -> (r: TokenKind)
        requires
            old(self).wf(),
            old(self).offset() == old(self).token_start() + 1,
            old(self).source()[old(self).token_start()] == ch,
            ascii_digit(ch),
        ensures
            final(self).same_source(old(self)),
            final(self).offset() == number_scan(old(self).source(), old(self).token_start()).0,
            number_kind_ok(
                old(self).source(),
                old(self).token_start(),
                number_scan(old(self).source(), old(self).token_start()),
                r,
            ),
    {
        let ghost cs = self.input@;
        let ghost i = self.begin as int;
        let mut literal = self.eat_while_get_literal(CharClass::Digit, Some(ch));
        proof {
            lemma_run_end(cs, i + 1, CharClass::Digit);
            assert(literal@ =~= cs.subrange(i, self.offset()));
        }
        match self.first() {
            '.' => {
                push_char(&mut literal, self.next().unwrap());
                proof {
                    assert(literal@ =~= cs.subrange(i, self.offset()));
                }
                self.handle_float(literal)
            },
            'e' | 'E' => {
                push_char(&mut literal, self.next().unwrap());
                proof {
                    assert(literal@ =~= cs.subrange(i, self.offset()));
                }
                self.handle_exponent(literal)
            },
            _ => self.int_literal(self.begin, self.end),
        }
    }

    /// Takes the fraction of a number whose decimal point has been taken.
    fn handle_float(&mut self, number_prefix: String) -> (r: TokenKind)
        requires
            old(self).wf(),
            number_prefix@ == old(self).source().subrange(
                old(self).token_start(),
                old(self).offset(),
            ),
        ensures
            final(self).same_source(old(self)),
            final(self).offset() == fraction_scan(old(self).source(), old(self).offset()).0,
            number_kind_ok(
                old(self).source(),
                old(self).token_start(),
                fraction_scan(old(self).source(), old(self).offset()),
                r,
            ),
    {
        let ghost cs = self.input@;
        let ghost i = self.begin as int;
        let mut number_prefix = number_prefix;
        proof {
            lemma_run_end(cs, self.offset(), CharClass::Digit);
        }
        if Self::is_digit(self.first()) {
            let decimals = self.eat_while_get_literal(CharClass::Digit, None);
            number_prefix.append(decimals.as_str());
            proof {
                assert(number_prefix@ =~= cs.subrange(i, self.offset()));
            }
            self.handle_float_inner(number_prefix)
        } else {
            TokenKind::InvalidDecimal
        }
    }

    /// Goes on from the end of a number's fraction digits.
    fn handle_float_inner(&mut self, number_prefix: String) -> (r: TokenKind)
        requires
            old(self).wf(),
            number_prefix@ == old(self).source().subrange(
                old(self).token_start(),
                old(self).offset(),
            ),
        ensures
            final(self).same_source(old(self)),
            final(self).offset() == after_fraction_scan(old(self).source(), old(self).offset()).0,
            number_kind_ok(
                old(self).source(),
                old(self).token_start(),
                after_fraction_scan(old(self).source(), old(self).offset()),
                r,
            ),
    {
        let ghost cs = self.input@;
        let ghost i = self.begin as int;
        let mut number_prefix = number_prefix;
        match self.first() {
            'e' | 'E' => {
                push_char(&mut number_prefix, self.next().unwrap());
                proof {
                    assert(number_prefix@ =~= cs.subrange(i, self.offset()));
                }
                self.handle_exponent(number_prefix)
            },
            _ => TokenKind::Literal { kind: LiteralKind::Float { literal: number_prefix } },
        }
    }

    /// Takes an exponent whose marker has been taken.
    fn handle_exponent(&mut self, number_prefix: String) -> (r: TokenKind)
        requires
            old(self).wf(),
            number_prefix@ == old(self).source().subrange(
                old(self).token_start(),
                old(self).offset(),
            ),
        ensures
            final(self).same_source(old(self)),
            final(self).offset() == exponent_scan(old(self).source(), old(self).offset()).0,
            number_kind_ok(
                old(self).source(),
                old(self).token_start(),
                exponent_scan(old(self).source(), old(self).offset()),
                r,
            ),
    {
        let ghost cs = self.input@;
        let ghost i = self.begin as int;
        let mut number_prefix = number_prefix;
        let c = self.first();
        if c == '+' || c == '-' {
            push_char(&mut number_prefix, self.next().unwrap());
            proof {
                assert(number_prefix@ =~= cs.subrange(i, self.offset()));
            }
            self.handle_exponent_value(number_prefix)
        } else if Self::is_digit(c) {
            self.handle_exponent_value(number_prefix)
        } else {
            proof {
                lemma_run_end(cs, self.offset(), CharClass::Digit);
            }
            TokenKind::InvalidExponent
        }
    }

    /// Takes the digits of an exponent, after its marker and sign.
    fn handle_exponent_value(&mut self, number_exponent_prefix: String) -> (r: TokenKind)
        requires
            old(self).wf(),
            number_exponent_prefix@ == old(self).source().subrange(
                old(self).token_start(),
                old(self).offset(),
            ),
        ensures
            final(self).same_source(old(self)),
            final(self).offset() == exponent_digits_scan(old(self).source(), old(self).offset()).0,
            number_kind_ok(
                old(self).source(),
                old(self).token_start(),
                exponent_digits_scan(old(self).source(), old(self).offset()),
                r,
            ),
    {
        let ghost cs = self.input@;
        let ghost i = self.begin as int;
        let mut number_exponent_prefix = number_exponent_prefix;
        proof {
            lemma_run_end(cs, self.offset(), CharClass::Digit);
        }
        if Self::is_digit(self.first()) {
            let exponent = self.eat_while_get_literal(CharClass::Digit, None);
            number_exponent_prefix.append(exponent.as_str());
            proof {
                assert(number_exponent_prefix@ =~= cs.subrange(i, self.offset()));
            }
            TokenKind::Literal { kind: LiteralKind::Float { literal: number_exponent_prefix } }
        } else {
            TokenKind::InvalidExponent
        }
    }

    /// Takes a string whose opening quote `ch` has been taken.
    fn quoted_string(&mut self, ch: char) -> (r: TokenKind)
        requires
            old(self).wf(),
        ensures
            final(self).same_source(old(self)),
            final(self).offset() == string_scan(old(self).source(), old(self).offset(), ch).0,
            match r {
                TokenKind::Literal { kind: LiteralKind::Str { terminated, value } } => terminated
                    == string_scan(old(self).source(), old(self).offset(), ch).2 && value@
                    == string_scan(old(self).source(), old(self).offset(), ch).1,
                _ => false,
            },
    {
        let ghost cs = self.input@;
        let ghost goal = string_scan(cs, self.end as int, ch);
        let mut str_literal = String::new();
        loop
            invariant
                self.same_source(old(self)),
                cs == self.source(),
                goal == string_scan(old(self).source(), old(self).offset(), ch),
                goal.0 == string_scan(cs, self.offset(), ch).0,
                goal.1 == str_literal@ + string_scan(cs, self.offset(), ch).1,
                goal.2 == string_scan(cs, self.offset(), ch).2,
            decreases self.source().len() - self.offset(),
        {
            let ghost at = self.offset();
            match self.next() {
                None => {
                    assert(str_literal@ + Seq::<char>::empty() =~= str_literal@);
                    return TokenKind::Literal {
                        kind: LiteralKind::Str { terminated: false, value: str_literal },
                    };
                },
                Some(c) => {
                    let n = self.first();
                    if c == ch {
                        assert(str_literal@ + Seq::<char>::empty() =~= str_literal@);
                        return TokenKind::Literal {
                            kind: LiteralKind::Str { terminated: true, value: str_literal },
                        };
                    } else if c == '\\' && (n == '\\' || n == '"' || n == '\'') {
                        let ghost before = str_literal@;
                        push_char(&mut str_literal, c);
                        push_char(&mut str_literal, n);
                        self.read_char();
                        assert(before + (seq![c, n] + string_scan(cs, self.offset(), ch).1)
                            =~= str_literal@ + string_scan(cs, self.offset(), ch).1);
                    } else {
                        let ghost before = str_literal@;
                        push_char(&mut str_literal, c);
                        assert(before + (seq![c] + string_scan(cs, self.offset(), ch).1)
                            =~= str_literal@ + string_scan(cs, self.offset(), ch).1);
                    }
                },
            }
        }
    }

    /// The token that the character just taken begins is punctuation: `k`
    /// is its kind and `after` stands just past it.
    spec fn took_operator(before: Lexer, after: Lexer, k: TokenKind) -> bool {
        let cs = before.source();
        let i = before.offset() - 1;
        &&& after.same_source(&before)
        &&& after.offset() == operator_end(cs, i)
        &&& operator_kind_ok(cs, i, k)
    }

    fn handle_colon(&mut self) -> (r: TokenKind)
        requires
            old(self).wf(),
            0 < old(self).offset(),
            old(self).source()[old(self).offset() - 1] == ':',
        ensures
            Self::took_operator(*old(self), *final(self), r),
    {
        match self.first() {
            ':' => {
                self.read_char();
                TokenKind::Scope
            },
            _ => TokenKind::Colon,
        }
    }

    fn handle_minus(&mut self) -> (r: TokenKind)
        requires
            old(self).wf(),
            0 < old(self).offset(),
            old(self).source()[old(self).offset() - 1] == '-',
        ensures
            Self::took_operator(*old(self), *final(self), r),
    {
        match self.first() {
            '>' => {
                self.read_char();
                TokenKind::Arrow
            },
            '=' => {
                self.read_char();
                TokenKind::MinusEq
            },
            _ => TokenKind::Minus,
        }
    }

    fn handle_equal(&mut self) -> (r: TokenKind)
        requires
            old(self).wf(),
            0 < old(self).offset(),
            old(self).source()[old(self).offset() - 1] == '=',
        ensures
            Self::took_operator(*old(self), *final(self), r),
    {
        match self.first() {
            '=' => {
                self.read_char();
                TokenKind::EqEq
            },
            _ => TokenKind::Eq,
        }
    }

    fn handle_bang(&mut self) -> (r: TokenKind)
        requires
            old(self).wf(),
            0 < old(self).offset(),
            old(self).source()[old(self).offset() - 1] == '!',
        ensures
            Self::took_operator(*old(self), *final(self), r),
    {
        match self.first() {
            '=' => {
                self.read_char();
                TokenKind::NotEq
            },
            _ => TokenKind::Bang,
        }
    }

    fn handle_lt(&mut self) -> (r: TokenKind)
        requires
            old(self).wf(),
            0 < old(self).offset(),
            old(self).source()[old(self).offset() - 1] == '<',
        ensures
            Self::took_operator(*old(self), *final(self), r),
    {
        match self.first() {
            '=' => {
                self.read_char();
                TokenKind::LtEq
            },
            _ => TokenKind::Lt,
        }
    }

    fn handle_gt(&mut self) -> (r: TokenKind)
        requires
            old(self).wf(),
            0 < old(self).offset(),
            old(self).source()[old(self).offset() - 1] == '>',
        ensures
            Self::took_operator(*old(self), *final(self), r),
    {
        match self.first() {
            '=' => {
                self.read_char();
                TokenKind::GtEq
            },
            _ => TokenKind::Gt,
        }
    }

    fn handle_ampersand(&mut self) -> (r: TokenKind)
        requires
            old(self).wf(),
            0 < old(self).offset(),
            old(self).source()[old(self).offset() - 1] == '&',
        ensures
            Self::took_operator(*old(self), *final(self), r),
    {
        match self.first() {
            '&' => {
                self.read_char();
                TokenKind::And
            },
            _ => TokenKind::Ampersand,
        }
    }

    fn handle_pipe(&mut self) -> (r: TokenKind)
        requires
            old(self).wf(),
            0 < old(self).offset(),
            old(self).source()[old(self).offset() - 1] == '|',
        ensures
            Self::took_operator(*old(self), *final(self), r),
    {
        match self.first() {
            '|' => {
                self.read_char();
                TokenKind::Or
            },
            _ => TokenKind::Pipe,
        }
    }

    fn handle_plus(&mut self) -> (r: TokenKind)
        requires
            old(self).wf(),
            0 < old(self).offset(),
            old(self).source()[old(self).offset() - 1] == '+',
        ensures
            Self::took_operator(*old(self), *final(self), r),
    {
        match self.first() {
            '=' => {
                self.read_char();
                TokenKind::PlusEq
            },
            _ => TokenKind::Plus,
        }
    }

    fn handle_asterisk(&mut self) -> (r: TokenKind)
        requires
            old(self).wf(),
            0 < old(self).offset(),
            old(self).source()[old(self).offset() - 1] == '*',
        ensures
            Self::took_operator(*old(self), *final(self), r),
    {
        match self.first() {
            '=' => {
                self.read_char();
                TokenKind::AsteriskEq
            },
            _ => TokenKind::Asterisk,
        }
    }

    fn handle_caret(&mut self) -> (r: TokenKind)
        requires
            old(self).wf(),
            0 < old(self).offset(),
            old(self).source()[old(self).offset() - 1] == '^',
        ensures
            Self::took_operator(*old(self), *final(self), r),
    {
        match self.first() {
            '=' => {
                self.read_char();
                TokenKind::CaretEq
            },
            _ => TokenKind::Caret,
        }
    }

    fn handle_percent(&mut self) -> (r: TokenKind)
        requires
            old(self).wf(),
            0 < old(self).offset(),
            old(self).source()[old(self).offset() - 1] == '%',
        ensures
            Self::took_operator(*old(self), *final(self), r),
    {
        match self.first() {
            '=' => {
                self.read_char();
                TokenKind::PercentEq
            },
            _ => TokenKind::Percent,
        }
    }

    /// Scans the next token and starts a new one after it.
    ///
    /// At the end of the input this yields `Eof` (with the span `[0, 0)`)
    /// and leaves the session as it is, however often it is called.
    pub fn next_token(&mut self) -> (tok: Token)
        requires
            old(self).wf(),
        ensures
            final(self).wf(),
            final(self).source() == old(self).source(),
            final(self).token_start() == final(self).offset(),
            old(self).offset() == old(self).source().len() ==> {
                &&& tok.kind == TokenKind::Eof
                &&& tok.span == Span { low: 0, high: 0 }
                &&& final(self).offset() == old(self).offset()
            },
            old(self).offset() < old(self).source().len() ==> {
                &&& final(self).offset() == token_end(old(self).source(), old(self).offset())
                &&& lexes_as(old(self).source(), old(self).offset(), tok.kind)
                &&& tok.span == Span { low: old(self).offset() as usize, high: final(self).offset() as usize }
            },
    {
        let ghost cs = self.input@;
        let ghost i = self.end as int;
        // a token starts where the last one ended
        self.reset();
        let first_char = match self.next() {
            Some(character) => character,
            None => {
                return Token::new(TokenKind::Eof, Span::set(0, 0));
            },
        };
        let token_kind = match first_char {
            '/' => self.handle_slash(),
            ch if Self::is_whitespace(ch) => self.whitespace(),
            ch if Self::is_id_start(ch) => self.valid_or_invalid_identifier(first_char),
            ch if Self::is_emoji(ch) => self.invalid_ident(),
            ch if Self::is_digit(ch) => self.integer_or_float(ch),
            ch if ch == '\'' || ch == '"' => self.quoted_string(ch),
            ';' => TokenKind::Semi,
            ',' => TokenKind::Comma,
            '.' => TokenKind::Dot,
            '(' => TokenKind::OpenPara,
            ')' => TokenKind::ClosePara,
            '{' => TokenKind::OpenBrace,
            '}' => TokenKind::CloseBrace,
            '[' => TokenKind::OpenBracket,
            ']' => TokenKind::CloseBracket,
            '@' => TokenKind::At,
            '#' => TokenKind::Sharp,
            '~' => TokenKind::Tilde,
            '?' => TokenKind::Question,
            ':' => self.handle_colon(),
            '$' => TokenKind::Dollar,
            '=' => self.handle_equal(),
            '!' => self.handle_bang(),
            '<' => self.handle_lt(),
            '>' => self.handle_gt(),
            '-' => self.handle_minus(),
            '&' => self.handle_ampersand(),
            '|' => self.handle_pipe(),
            '+' => self.handle_plus(),
            '*' => self.handle_asterisk(),
            '^' => self.handle_caret(),
            '%' => self.handle_percent(),
            _ => TokenKind::Unknown,
        };
        let res = Token::new(token_kind, self.create_span());
        self.reset();
        res
    }
}

/// Scans the whole of `code`: the tokens in order, then one `Eof`.
///
/// The spans of the tokens before `Eof` cut the source into consecutive,
/// non-empty pieces from offset 0 to its end, and each token is what the
/// grammar gives at its offset.
pub fn tokenize(code: &str) -> (tokens: Vec<Token>)
    ensures
        tokens.len() >= 1,
        tokens@.last().kind == TokenKind::Eof,
        tokens.len() == 1 <==> code@.len() == 0,
        tokens.len() >= 2 ==> tokens@[0].span.low == 0 && tokens@[tokens.len() - 2].span.high
            == code@.len(),
        forall|j: int|
            0 <= j < tokens.len() - 1 ==> {
                &&& (#[trigger] tokens@[j]).span.low < tokens@[j].span.high
                &&& tokens@[j].span.high == token_end(code@, tokens@[j].span.low as int)
                &&& lexes_as(code@, tokens@[j].span.low as int, tokens@[j].kind)
            },
        forall|j: int|
            0 <= j < tokens.len() - 2 ==> (#[trigger] tokens@[j]).span.high == tokens@[j
                + 1].span.low,
{
    let mut lexer = Lexer::new(code);
    let mut tokens: Vec<Token> = Vec::new();
    while !lexer.is_eof()
        invariant
            lexer.wf(),
            lexer.source() == code@,
            lexer.token_start() == lexer.offset(),
            tokens.len() == 0 ==> lexer.offset() == 0,
            tokens.len() > 0 ==> tokens@.last().span.high == lexer.offset(),
            tokens.len() > 0 ==> tokens@[0].span.low == 0,
            forall|j: int|
                0 <= j < tokens.len() ==> {
                    &&& (#[trigger] tokens@[j]).span.low < tokens@[j].span.high
                    &&& tokens@[j].span.high == token_end(code@, tokens@[j].span.low as int)
                    &&& lexes_as(code@, tokens@[j].span.low as int, tokens@[j].kind)
                },
            forall|j: int|
                0 <= j < tokens.len() - 1 ==> (#[trigger] tokens@[j]).span.high == tokens@[j
                    + 1].span.low,
        decreases code@.len() - lexer.offset(),
    {
        proof {
            lemma_token_progress(code@, lexer.offset());
        }
        let tok = lexer.next_token();
        tokens.push(tok);
    }
    let eof = lexer.next_token();
    tokens.push(eof);
    tokens
}

} // verus!
