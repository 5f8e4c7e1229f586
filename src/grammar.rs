//! The lexical grammar as spec functions over the source's characters.
//!
//! Positions are character offsets into the whole source `cs`; each
//! function describes what the scanner does from a given offset.
use crate::token::{keyword_of, LiteralKind, TokenKind};
use crate::unicode::{
    ascii, ascii_digit, ascii_letter, emoji, xid_continue, xid_continue_char, xid_start_char,
};
use vstd::prelude::*;

verus! {

/// The character sets that the scanner consumes runs of.
#[derive(Debug, Clone, Copy, PartialEq, Eq, Structural)]
pub enum CharClass {
    Whitespace,
    NotNewline,
    Digit,
    IdContinue,
    /// What may follow once an identifier has been found to hold an emoji.
    InvalidIdContinue,
}

pub open spec fn whitespace_char(c: char) -> bool {
    c == '\u{0009}' || c == '\u{000A}' || c == '\u{000B}' || c == '\u{000C}' || c == '\u{000D}'
        || c == '\u{0020}' || c == '\u{0085}' || c == '\u{200E}' || c == '\u{200F}' || c
        == '\u{2028}' || c == '\u{2029}'
}

pub open spec fn id_start(c: char) -> bool {
    c == '_' || xid_start_char(c)
}

pub open spec fn emoji_char(c: char) -> bool {
    !ascii(c) && emoji(c)
}

pub open spec fn in_class(class: CharClass, c: char) -> bool {
    match class {
        CharClass::Whitespace => whitespace_char(c),
        CharClass::NotNewline => c != '\n',
        CharClass::Digit => ascii_digit(c),
        CharClass::IdContinue => xid_continue_char(c),
        CharClass::InvalidIdContinue => xid_continue_char(c) || emoji_char(c) || c == '\u{200D}',
    }
}

/// The first offset at or after `i` whose character is not in `class`, or
/// the end of the source.
pub open spec fn run_end(cs: Seq<char>, i: int, class: CharClass) -> int
    decreases cs.len() - i,
{
    if 0 <= i < cs.len() && in_class(class, cs[i]) {
        run_end(cs, i + 1, class)
    } else {
        i
    }
}

/// Where a block comment whose body starts at `i`, inside `depth` open
/// comments, ends, and whether it was closed.
pub open spec fn block_end(cs: Seq<char>, i: int, depth: nat) -> (int, bool)
    decreases cs.len() - i,
{
    if i < 0 || i >= cs.len() {
        (i, false)
    } else if cs[i] == '/' && i + 1 < cs.len() && cs[i + 1] == '*' {
        block_end(cs, i + 2, depth + 1)
    } else if cs[i] == '*' && i + 1 < cs.len() && cs[i + 1] == '/' {
        if depth <= 1 {
            (i + 2, true)
        } else {
            block_end(cs, i + 2, (depth - 1) as nat)
        }
    } else {
        block_end(cs, i + 1, depth)
    }
}

/// The characters that a backslash in a string keeps together with it.
pub open spec fn escapable(c: char) -> bool {
    c == '\\' || c == '"' || c == '\''
}

/// Scanning a string body from `i` that the quote `q` closes: where it ends,
/// the text it holds, and whether the closing quote was found.
pub open spec fn string_scan(cs: Seq<char>, i: int, q: char) -> (int, Seq<char>, bool)
    decreases cs.len() - i,
{
    if i < 0 || i >= cs.len() {
        (i, Seq::empty(), false)
    } else if cs[i] == q {
        (i + 1, Seq::empty(), true)
    } else if cs[i] == '\\' && i + 1 < cs.len() && escapable(cs[i + 1]) {
        let rest = string_scan(cs, i + 2, q);
        (rest.0, seq![cs[i], cs[i + 1]] + rest.1, rest.2)
    } else {
        let rest = string_scan(cs, i + 1, q);
        (rest.0, seq![cs[i]] + rest.1, rest.2)
    }
}

/// The outcome of scanning a number.
#[derive(Debug, Clone, Copy, PartialEq, Eq, Structural)]
pub enum NumberShape {
    Int,
    Float,
    MissingFraction,
    MissingExponent,
}

pub open spec fn exponent_marker(c: char) -> bool {
    c == 'e' || c == 'E'
}

/// Scanning the digits of an exponent from `q`, after its marker and sign.
pub open spec fn exponent_digits_scan(cs: Seq<char>, q: int) -> (int, NumberShape) {
    let x = run_end(cs, q, CharClass::Digit);
    if x == q {
        (q, NumberShape::MissingExponent)
    } else {
        (x, NumberShape::Float)
    }
}

/// Scanning an exponent whose marker ends just before `p`.
pub open spec fn exponent_scan(cs: Seq<char>, p: int) -> (int, NumberShape) {
    if 0 <= p < cs.len() && (cs[p] == '+' || cs[p] == '-') {
        exponent_digits_scan(cs, p + 1)
    } else {
        exponent_digits_scan(cs, p)
    }
}

/// Scanning on from `f`, the end of a number's fraction digits.
pub open spec fn after_fraction_scan(cs: Seq<char>, f: int) -> (int, NumberShape) {
    if 0 <= f < cs.len() && exponent_marker(cs[f]) {
        exponent_scan(cs, f + 1)
    } else {
        (f, NumberShape::Float)
    }
}

/// Scanning a fraction whose decimal point ends just before `p`.
pub open spec fn fraction_scan(cs: Seq<char>, p: int) -> (int, NumberShape) {
    let f = run_end(cs, p, CharClass::Digit);
    if f == p {
        (p, NumberShape::MissingFraction)
    } else {
        after_fraction_scan(cs, f)
    }
}

/// Scanning a number whose first digit is at `i`: where it ends and what it is.
pub open spec fn number_scan(cs: Seq<char>, i: int) -> (int, NumberShape) {
    let d = run_end(cs, i + 1, CharClass::Digit);
    if 0 <= d < cs.len() && cs[d] == '.' {
        fraction_scan(cs, d + 1)
    } else if 0 <= d < cs.len() && exponent_marker(cs[d]) {
        exponent_scan(cs, d + 1)
    } else {
        (d, NumberShape::Int)
    }
}

/// The value of a run of decimal digits.
pub open spec fn decimal_value(s: Seq<char>) -> nat
    decreases s.len(),
{
    if s.len() == 0 {
        0
    } else {
        decimal_value(s.drop_last()) * 10 + (s.last() as nat - '0' as nat) as nat
    }
}

/// The kind an integer literal spelled by `digits` takes.
pub open spec fn int_kind(digits: Seq<char>) -> TokenKind {
    if decimal_value(digits) <= i64::MAX {
        TokenKind::Literal { kind: LiteralKind::Int { value: decimal_value(digits) as i64 } }
    } else {
        TokenKind::InvalidLiteral
    }
}

/// Whether `k` is the kind of a number that starts at `i` and that scanned
/// as `scan`.
pub open spec fn number_kind_ok(cs: Seq<char>, i: int, scan: (int, NumberShape), k: TokenKind) -> bool {
    match scan.1 {
        NumberShape::Int => k == int_kind(cs.subrange(i, scan.0)),
        NumberShape::Float => match k {
            TokenKind::Literal { kind: LiteralKind::Float { literal } } => literal@ == cs.subrange(
                i,
                scan.0,
            ),
            _ => false,
        },
        NumberShape::MissingFraction => k == TokenKind::InvalidDecimal,
        NumberShape::MissingExponent => k == TokenKind::InvalidExponent,
    }
}

/// The end of the identifier run whose first character is at `i`.
pub open spec fn ident_end(cs: Seq<char>, i: int) -> int {
    run_end(cs, i + 1, CharClass::IdContinue)
}

/// Whether the identifier starting at `i` runs into an emoji.
pub open spec fn ident_is_invalid(cs: Seq<char>, i: int) -> bool {
    let e = ident_end(cs, i);
    e < cs.len() && emoji_char(cs[e])
}

/// The end of the token that an identifier start at `i` begins.
pub open spec fn ident_token_end(cs: Seq<char>, i: int) -> int {
    if ident_is_invalid(cs, i) {
        run_end(cs, ident_end(cs, i), CharClass::InvalidIdContinue)
    } else {
        ident_end(cs, i)
    }
}

/// Whether `k` is the kind of the token that an identifier start at `i` begins.
pub open spec fn ident_kind_ok(cs: Seq<char>, i: int, k: TokenKind) -> bool {
    if ident_is_invalid(cs, i) {
        k == TokenKind::InvalidIdent
    } else {
        let word = cs.subrange(i, ident_end(cs, i));
        match keyword_of(word) {
            Some(kw) => k == (TokenKind::Keyword { kind: kw }),
            None => match k {
                TokenKind::Ident { name } => name@ == word,
                _ => false,
            },
        }
    }
}

/// Whether `k` is the kind of the string that the quote at `i` opens.
pub open spec fn string_kind_ok(cs: Seq<char>, i: int, k: TokenKind) -> bool {
    let (e, text, closed) = string_scan(cs, i + 1, cs[i]);
    match k {
        TokenKind::Literal { kind: LiteralKind::Str { terminated, value } } => terminated == closed
            && value@ == text,
        _ => false,
    }
}

/// The end of the token that a slash at `i` begins.
pub open spec fn slash_token_end(cs: Seq<char>, i: int) -> int {
    if next_char(cs, i) == Some('/') {
        run_end(cs, i + 1, CharClass::NotNewline)
    } else if next_char(cs, i) == Some('*') {
        block_end(cs, i + 2, 1).0
    } else if next_char(cs, i) == Some('=') {
        i + 2
    } else {
        i + 1
    }
}

/// Whether `k` is the kind of the token that a slash at `i` begins.
pub open spec fn slash_kind_ok(cs: Seq<char>, i: int, k: TokenKind) -> bool {
    if next_char(cs, i) == Some('/') {
        k == TokenKind::LineComment
    } else if next_char(cs, i) == Some('*') {
        k == (TokenKind::BlockComment { terminated: block_end(cs, i + 2, 1).1 })
    } else if next_char(cs, i) == Some('=') {
        k == TokenKind::SlashEq
    } else {
        k == TokenKind::Slash
    }
}

/// The end of an operator or other punctuation that starts at `i`.
pub open spec fn operator_end(cs: Seq<char>, i: int) -> int {
    if starts_pair(cs, i) {
        i + 2
    } else {
        i + 1
    }
}

/// Whether `k` is the kind of the operator or other punctuation at `i`.
pub open spec fn operator_kind_ok(cs: Seq<char>, i: int, k: TokenKind) -> bool {
    if starts_pair(cs, i) {
        Some(k) == pair_kind(cs[i], cs[i + 1])
    } else {
        k == single_kind(cs[i])
    }
}

/// The operator that `c` followed by `n` spells, if they spell one.
pub open spec fn pair_kind(c: char, n: char) -> Option<TokenKind> {
    if c == ':' && n == ':' {
        Some(TokenKind::Scope)
    } else if c == '-' && n == '>' {
        Some(TokenKind::Arrow)
    } else if c == '-' && n == '=' {
        Some(TokenKind::MinusEq)
    } else if c == '=' && n == '=' {
        Some(TokenKind::EqEq)
    } else if c == '!' && n == '=' {
        Some(TokenKind::NotEq)
    } else if c == '<' && n == '=' {
        Some(TokenKind::LtEq)
    } else if c == '>' && n == '=' {
        Some(TokenKind::GtEq)
    } else if c == '&' && n == '&' {
        Some(TokenKind::And)
    } else if c == '|' && n == '|' {
        Some(TokenKind::Or)
    } else if c == '+' && n == '=' {
        Some(TokenKind::PlusEq)
    } else if c == '*' && n == '=' {
        Some(TokenKind::AsteriskEq)
    } else if c == '^' && n == '=' {
        Some(TokenKind::CaretEq)
    } else if c == '%' && n == '=' {
        Some(TokenKind::PercentEq)
    } else {
        None
    }
}

/// The token that `c` forms on its own.
pub open spec fn single_kind(c: char) -> TokenKind {
    if c == ';' {
        TokenKind::Semi
    } else if c == ',' {
        TokenKind::Comma
    } else if c == '.' {
        TokenKind::Dot
    } else if c == '(' {
        TokenKind::OpenPara
    } else if c == ')' {
        TokenKind::ClosePara
    } else if c == '{' {
        TokenKind::OpenBrace
    } else if c == '}' {
        TokenKind::CloseBrace
    } else if c == '[' {
        TokenKind::OpenBracket
    } else if c == ']' {
        TokenKind::CloseBracket
    } else if c == '@' {
        TokenKind::At
    } else if c == '#' {
        TokenKind::Sharp
    } else if c == '~' {
        TokenKind::Tilde
    } else if c == '?' {
        TokenKind::Question
    } else if c == ':' {
        TokenKind::Colon
    } else if c == '$' {
        TokenKind::Dollar
    } else if c == '=' {
        TokenKind::Eq
    } else if c == '!' {
        TokenKind::Bang
    } else if c == '<' {
        TokenKind::Lt
    } else if c == '>' {
        TokenKind::Gt
    } else if c == '-' {
        TokenKind::Minus
    } else if c == '&' {
        TokenKind::Ampersand
    } else if c == '|' {
        TokenKind::Pipe
    } else if c == '+' {
        TokenKind::Plus
    } else if c == '*' {
        TokenKind::Asterisk
    } else if c == '^' {
        TokenKind::Caret
    } else if c == '%' {
        TokenKind::Percent
    } else {
        TokenKind::Unknown
    }
}

/// The character after offset `i`, if there is one.
pub open spec fn next_char(cs: Seq<char>, i: int) -> Option<char> {
    if i + 1 < cs.len() {
        Some(cs[i + 1])
    } else {
        None
    }
}

pub open spec fn is_quote(c: char) -> bool {
    c == '\'' || c == '"'
}

/// Whether `c`, followed by what `next_char` gives, spells an operator of two
/// characters.
pub open spec fn starts_pair(cs: Seq<char>, i: int) -> bool {
    next_char(cs, i) is Some && pair_kind(cs[i], next_char(cs, i)->0) is Some
}

/// The offset just past the token that starts at `i` (for `0 <= i < cs.len()`).
pub open spec fn token_end(cs: Seq<char>, i: int) -> int {
    let c = cs[i];
    if c == '/' {
        slash_token_end(cs, i)
    } else if whitespace_char(c) {
        run_end(cs, i + 1, CharClass::Whitespace)
    } else if id_start(c) {
        ident_token_end(cs, i)
    } else if emoji_char(c) {
        run_end(cs, i + 1, CharClass::InvalidIdContinue)
    } else if ascii_digit(c) {
        number_scan(cs, i).0
    } else if is_quote(c) {
        string_scan(cs, i + 1, c).0
    } else {
        operator_end(cs, i)
    }
}

/// Whether `k` is the kind of the token that starts at `i`.
pub open spec fn lexes_as(cs: Seq<char>, i: int, k: TokenKind) -> bool {
    let c = cs[i];
    if c == '/' {
        slash_kind_ok(cs, i, k)
    } else if whitespace_char(c) {
        k == TokenKind::Whitespace
    } else if id_start(c) {
        ident_kind_ok(cs, i, k)
    } else if emoji_char(c) {
        k == TokenKind::InvalidIdent
    } else if ascii_digit(c) {
        number_kind_ok(cs, i, number_scan(cs, i), k)
    } else if is_quote(c) {
        string_kind_ok(cs, i, k)
    } else {
        operator_kind_ok(cs, i, k)
    }
}

pub proof fn lemma_run_end(cs: Seq<char>, i: int, class: CharClass)
    requires
        0 <= i <= cs.len(),
    ensures
        i <= run_end(cs, i, class) <= cs.len(),
        forall|j: int| i <= j < run_end(cs, i, class) ==> in_class(class, #[trigger] cs[j]),
        run_end(cs, i, class) == cs.len() || !in_class(class, cs[run_end(cs, i, class)]),
    decreases cs.len() - i,
{
    if i < cs.len() && in_class(class, cs[i]) {
        lemma_run_end(cs, i + 1, class);
    }
}

pub proof fn lemma_block_end(cs: Seq<char>, i: int, depth: nat)
    requires
        0 <= i <= cs.len(),
    ensures
        i <= block_end(cs, i, depth).0 <= cs.len(),
        !block_end(cs, i, depth).1 ==> block_end(cs, i, depth).0 == cs.len(),
    decreases cs.len() - i,
{
    if i < cs.len() {
        if cs[i] == '/' && i + 1 < cs.len() && cs[i + 1] == '*' {
            lemma_block_end(cs, i + 2, depth + 1);
        } else if cs[i] == '*' && i + 1 < cs.len() && cs[i + 1] == '/' {
            if depth > 1 {
                lemma_block_end(cs, i + 2, (depth - 1) as nat);
            }
        } else {
            lemma_block_end(cs, i + 1, depth);
        }
    }
}

pub proof fn lemma_string_scan(cs: Seq<char>, i: int, q: char)
    requires
        0 <= i <= cs.len(),
    ensures
        i <= string_scan(cs, i, q).0 <= cs.len(),
        !string_scan(cs, i, q).2 ==> string_scan(cs, i, q).0 == cs.len(),
    decreases cs.len() - i,
{
    if i < cs.len() && cs[i] != q {
        if cs[i] == '\\' && i + 1 < cs.len() && escapable(cs[i + 1]) {
            lemma_string_scan(cs, i + 2, q);
        } else {
            lemma_string_scan(cs, i + 1, q);
        }
    }
}

pub proof fn lemma_exponent_scan(cs: Seq<char>, p: int)
    requires
        0 <= p <= cs.len(),
    ensures
        p <= exponent_scan(cs, p).0 <= cs.len(),
{
    lemma_run_end(cs, p, CharClass::Digit);
    if p < cs.len() {
        lemma_run_end(cs, p + 1, CharClass::Digit);
    }
}

pub proof fn lemma_fraction_scan(cs: Seq<char>, p: int)
    requires
        0 <= p <= cs.len(),
    ensures
        p <= fraction_scan(cs, p).0 <= cs.len(),
{
    lemma_run_end(cs, p, CharClass::Digit);
    let f = run_end(cs, p, CharClass::Digit);
    if f < cs.len() {
        lemma_exponent_scan(cs, f + 1);
    }
}

pub proof fn lemma_number_scan(cs: Seq<char>, i: int)
    requires
        0 <= i < cs.len(),
    ensures
        i < number_scan(cs, i).0 <= cs.len(),
{
    lemma_run_end(cs, i + 1, CharClass::Digit);
    let d = run_end(cs, i + 1, CharClass::Digit);
    if d < cs.len() {
        lemma_fraction_scan(cs, d + 1);
        lemma_exponent_scan(cs, d + 1);
    }
}

/// Every token that starts inside the source takes at least one character
/// and ends within the source, so that scanning again and again reaches the
/// end after at most as many tokens as there are characters.
pub proof fn lemma_token_progress(cs: Seq<char>, i: int)
    requires
        0 <= i < cs.len(),
    ensures
        i < token_end(cs, i) <= cs.len(),
{
    let c = cs[i];
    lemma_run_end(cs, i + 1, CharClass::NotNewline);
    lemma_run_end(cs, i + 1, CharClass::Whitespace);
    lemma_run_end(cs, i + 1, CharClass::InvalidIdContinue);
    lemma_run_end(cs, i + 1, CharClass::IdContinue);
    let e = ident_end(cs, i);
    lemma_run_end(cs, e, CharClass::InvalidIdContinue);
    if c == '/' && next_char(cs, i) == Some('*') {
        lemma_block_end(cs, i + 2, 1);
    }
    if c == '/' && next_char(cs, i) == Some('/') {
        lemma_run_end(cs, i + 1, CharClass::NotNewline);
    }
    lemma_number_scan(cs, i);
    lemma_string_scan(cs, i + 1, c);
}


/// A prefix of a run of digits is worth no more than the whole run.
pub proof fn lemma_decimal_prefix(s: Seq<char>, k: int)
    requires
        0 <= k <= s.len(),
    ensures
        decimal_value(s.take(k)) <= decimal_value(s),
    decreases s.len(),
{
    if k == s.len() {
        assert(s.take(k) =~= s);
    } else {
        lemma_decimal_prefix(s.drop_last(), k);
        assert(s.drop_last().take(k) =~= s.take(k));
    }
}


/// A run that holds `class` over `[i, k)` and stops at `k` ends at `k`.
pub proof fn lemma_run_exact(cs: Seq<char>, i: int, k: int, class: CharClass)
    requires
        0 <= i <= k <= cs.len(),
        forall|j: int| i <= j < k ==> in_class(class, #[trigger] cs[j]),
        k == cs.len() || !in_class(class, cs[k]),
    ensures
        run_end(cs, i, class) == k,
    decreases k - i,
{
    if i < k {
        lemma_run_exact(cs, i + 1, k, class);
    }
}

pub open spec fn pow10(n: nat) -> nat
    decreases n,
{
    if n == 0 {
        1
    } else {
        10 * pow10((n - 1) as nat)
    }
}

/// Digits are worth less than ten to the power of their count.
pub proof fn lemma_decimal_bound(s: Seq<char>)
    requires
        forall|j: int| 0 <= j < s.len() ==> ascii_digit(#[trigger] s[j]),
    ensures
        decimal_value(s) < pow10(s.len()),
    decreases s.len(),
{
    if s.len() > 0 {
        let t = s.drop_last();
        assert forall|j: int| 0 <= j < t.len() implies ascii_digit(#[trigger] t[j]) by {
            assert(t[j] == s[j]);
        }
        lemma_decimal_bound(t);
        assert(ascii_digit(s[s.len() - 1]));
        let dv = decimal_value(t);
        let p = pow10(t.len());
        let last = (s.last() as nat - '0' as nat) as nat;
        assert(last <= 9);
        assert(dv * 10 + last < 10 * p) by (nonlinear_arith)
            requires
                dv < p,
                last <= 9,
        ;
    }
}

/// A run of one to fifteen digits scans as one integer literal worth the
/// digits' decimal value; those digits, a point and one or more further
/// digits scan as one float literal that holds the whole text.
pub proof fn lemma_number_round_trip(d: Seq<char>, d2: Seq<char>)
    requires
        1 <= d.len() <= 15,
        forall|j: int| 0 <= j < d.len() ==> ascii_digit(#[trigger] d[j]),
        1 <= d2.len(),
        forall|j: int| 0 <= j < d2.len() ==> ascii_digit(#[trigger] d2[j]),
    ensures
        decimal_value(d) <= i64::MAX,
        token_end(d, 0) == d.len(),
        lexes_as(d, 0, TokenKind::Literal { kind: LiteralKind::Int { value: decimal_value(d) as i64 } }),
        token_end(d + seq!['.'] + d2, 0) == d.len() + 1 + d2.len(),
        forall|k: TokenKind|
            lexes_as(d + seq!['.'] + d2, 0, k) <==> match k {
                TokenKind::Literal { kind: LiteralKind::Float { literal } } => literal@ == d
                    + seq!['.'] + d2,
                _ => false,
            },
{
    // the integer
    lemma_decimal_bound(d);
    reveal_with_fuel(pow10, 16);
    lemma_pow10_mono(d.len(), 15);
    assert(pow10(15) == 1_000_000_000_000_000);
    lemma_run_exact(d, 1, d.len() as int, CharClass::Digit);
    assert(d.subrange(0, d.len() as int) =~= d);
    assert(ascii_digit(d[0]));
    // the float
    let f = d + seq!['.'] + d2;
    assert forall|j: int| 0 <= j < d.len() implies f[j] == d[j] by {}
    assert forall|j: int| d.len() < j < f.len() implies f[j] == d2[j - d.len() - 1] by {}
    assert(f[d.len() as int] == '.');
    lemma_run_exact(f, 1, d.len() as int, CharClass::Digit);
    assert forall|j: int| d.len() + 1 <= j < f.len() implies in_class(
        CharClass::Digit,
        #[trigger] f[j],
    ) by {
        assert(f[j] == d2[j - d.len() - 1]);
    }
    lemma_run_exact(f, d.len() + 1 as int, f.len() as int, CharClass::Digit);
    assert(f.subrange(0, f.len() as int) =~= f);
    assert(f[0] == d[0]);
}

pub proof fn lemma_pow10_mono(a: nat, b: nat)
    requires
        a <= b,
    ensures
        pow10(a) <= pow10(b),
    decreases b - a,
{
    if a < b {
        lemma_pow10_mono(a, (b - 1) as nat);
    }
}

/// A run of ASCII letters followed by an emoji that does not itself continue
/// identifiers scans as one invalid identifier spanning the letters and the
/// emoji.
pub proof fn lemma_letters_then_emoji(letters: Seq<char>, e: char)
    requires
        1 <= letters.len(),
        forall|j: int| 0 <= j < letters.len() ==> ascii_letter(#[trigger] letters[j]),
        emoji_char(e),
        !xid_continue(e),
    ensures
        token_end(letters.push(e), 0) == letters.len() + 1,
        lexes_as(letters.push(e), 0, TokenKind::InvalidIdent),
{
    let s = letters.push(e);
    assert forall|j: int| 0 <= j < letters.len() implies s[j] == letters[j] by {}
    assert(ascii_letter(s[0]));
    assert forall|j: int| 1 <= j < letters.len() implies in_class(
        CharClass::IdContinue,
        #[trigger] s[j],
    ) by {
        assert(ascii_letter(letters[j]));
    }
    lemma_run_exact(s, 1, letters.len() as int, CharClass::IdContinue);
    lemma_run_exact(s, letters.len() as int, s.len() as int, CharClass::InvalidIdContinue);
}

} // verus!
