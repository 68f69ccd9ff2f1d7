//! Lexical analysis: from source text to tokens.
//!
//! The first half of this file says, over `Seq<char>`, which tokens a text
//! holds ([`tokenize`]). The second half is the scanner, proved to produce
//! exactly those.

use vstd::prelude::*;
use crate::arith::{lemma_wrap_accumulate, lemma_wrap_fits, wrap, wrapping_add, wrapping_mul};

verus! {

/// The smallest lexical unit. Tokens carry no source position.
#[derive(Debug, PartialEq)]
pub enum Token {
    // literals
    Number(i64),
    Ident(String),
    True,
    False,
    // keywords
    Int,
    Bool,
    Return,
    If,
    Else,
    While,
    For,
    // arithmetic operators
    Mais,
    Menos,
    Multiplica,
    Divide,
    Assign,
    // comparison operators
    Equal,
    NotEqual,
    Less,
    Greater,
    LessEqual,
    GreaterEqual,
    // logical operators
    And,
    Or,
    Not,
    // punctuation
    AbrePar,
    FechaPar,
    AbreChave,
    FechaChave,
    PontoEVirgula,
    Virgula,
}

/// What a [`Token`] denotes: the same variants, an identifier by its characters.
pub enum TokenView {
    Number(i64),
    Ident(Seq<char>),
    True,
    False,
    Int,
    Bool,
    Return,
    If,
    Else,
    While,
    For,
    Mais,
    Menos,
    Multiplica,
    Divide,
    Assign,
    Equal,
    NotEqual,
    Less,
    Greater,
    LessEqual,
    GreaterEqual,
    And,
    Or,
    Not,
    AbrePar,
    FechaPar,
    AbreChave,
    FechaChave,
    PontoEVirgula,
    Virgula,
}

impl View for Token {
    type V = TokenView;

    open spec fn view(&self) -> TokenView {
        match self {
            Token::Number(n) => TokenView::Number(*n),
            Token::Ident(name) => TokenView::Ident(name@),
            Token::True => TokenView::True,
            Token::False => TokenView::False,
            Token::Int => TokenView::Int,
            Token::Bool => TokenView::Bool,
            Token::Return => TokenView::Return,
            Token::If => TokenView::If,
            Token::Else => TokenView::Else,
            Token::While => TokenView::While,
            Token::For => TokenView::For,
            Token::Mais => TokenView::Mais,
            Token::Menos => TokenView::Menos,
            Token::Multiplica => TokenView::Multiplica,
            Token::Divide => TokenView::Divide,
            Token::Assign => TokenView::Assign,
            Token::Equal => TokenView::Equal,
            Token::NotEqual => TokenView::NotEqual,
            Token::Less => TokenView::Less,
            Token::Greater => TokenView::Greater,
            Token::LessEqual => TokenView::LessEqual,
            Token::GreaterEqual => TokenView::GreaterEqual,
            Token::And => TokenView::And,
            Token::Or => TokenView::Or,
            Token::Not => TokenView::Not,
            Token::AbrePar => TokenView::AbrePar,
            Token::FechaPar => TokenView::FechaPar,
            Token::AbreChave => TokenView::AbreChave,
            Token::FechaChave => TokenView::FechaChave,
            Token::PontoEVirgula => TokenView::PontoEVirgula,
            Token::Virgula => TokenView::Virgula,
        }
    }
}

/// Whether two tokens are of the same kind: equal, or both numbers, or both
/// identifiers.
pub open spec fn same_kind(a: TokenView, b: TokenView) -> bool {
    match (a, b) {
        (TokenView::Number(_), TokenView::Number(_)) => true,
        (TokenView::Ident(_), TokenView::Ident(_)) => true,
        _ => a == b,
    }
}

impl Token {
    /// Whether `self` and `other` are of the same kind, whatever number or
    /// name they carry.
    pub fn same_kind(&self, other: &Token) -> (r: bool)
        ensures
            r == same_kind(self@, other@),
    {
        match (self, other) {
            (Token::Number(_), Token::Number(_)) => true,
            (Token::Ident(_), Token::Ident(_)) => true,
            (Token::True, Token::True) => true,
            (Token::False, Token::False) => true,
            (Token::Int, Token::Int) => true,
            (Token::Bool, Token::Bool) => true,
            (Token::Return, Token::Return) => true,
            (Token::If, Token::If) => true,
            (Token::Else, Token::Else) => true,
            (Token::While, Token::While) => true,
            (Token::For, Token::For) => true,
            (Token::Mais, Token::Mais) => true,
            (Token::Menos, Token::Menos) => true,
            (Token::Multiplica, Token::Multiplica) => true,
            (Token::Divide, Token::Divide) => true,
            (Token::Assign, Token::Assign) => true,
            (Token::Equal, Token::Equal) => true,
            (Token::NotEqual, Token::NotEqual) => true,
            (Token::Less, Token::Less) => true,
            (Token::Greater, Token::Greater) => true,
            (Token::LessEqual, Token::LessEqual) => true,
            (Token::GreaterEqual, Token::GreaterEqual) => true,
            (Token::And, Token::And) => true,
            (Token::Or, Token::Or) => true,
            (Token::Not, Token::Not) => true,
            (Token::AbrePar, Token::AbrePar) => true,
            (Token::FechaPar, Token::FechaPar) => true,
            (Token::AbreChave, Token::AbreChave) => true,
            (Token::FechaChave, Token::FechaChave) => true,
            (Token::PontoEVirgula, Token::PontoEVirgula) => true,
            (Token::Virgula, Token::Virgula) => true,
            _ => false,
        }
    }
}

/// The views of a list of tokens.
pub open spec fn tokens_view(v: Seq<Token>) -> Seq<TokenView> {
    Seq::new(v.len(), |i: int| v[i]@)
}

/// Why a text has no tokens.
#[derive(Debug, Clone, Copy, PartialEq, Eq, Structural)]
pub enum LexError {
    /// A block comment opens at this character index and is never closed.
    UnterminatedComment(usize),
}

// ---------------------------------------------------------------------------
// Character classes
// ---------------------------------------------------------------------------

/// White space: the characters with the Unicode property `White_Space`.
pub open spec fn is_whitespace(c: char) -> bool {
    let n = c as u32;
    ||| 0x09 <= n <= 0x0D
    ||| n == 0x20
    ||| n == 0x85
    ||| n == 0xA0
    ||| n == 0x1680
    ||| 0x2000 <= n <= 0x200A
    ||| n == 0x2028
    ||| n == 0x2029
    ||| n == 0x202F
    ||| n == 0x205F
    ||| n == 0x3000
}

/// A decimal digit.
pub open spec fn is_digit(c: char) -> bool {
    '0' <= c <= '9'
}

/// A character that may start an identifier or keyword.
pub open spec fn is_word_start(c: char) -> bool {
    ('a' <= c <= 'z') || ('A' <= c <= 'Z') || c == '_'
}

/// A character that may continue an identifier or keyword.
pub open spec fn is_word_part(c: char) -> bool {
    is_word_start(c) || is_digit(c)
}

/// The value of a decimal digit.
pub open spec fn digit_value(c: char) -> int {
    c as int - '0' as int
}

// ---------------------------------------------------------------------------
// Extents
// ---------------------------------------------------------------------------

/// Where the run of digits that starts at `from` ends.
pub open spec fn digits_end(s: Seq<char>, from: int) -> int
    decreases s.len() - from,
{
    if 0 <= from < s.len() && is_digit(s[from]) {
        digits_end(s, from + 1)
    } else {
        from
    }
}

/// Where the run of word characters that starts at `from` ends.
pub open spec fn word_end(s: Seq<char>, from: int) -> int
    decreases s.len() - from,
{
    if 0 <= from < s.len() && is_word_part(s[from]) {
        word_end(s, from + 1)
    } else {
        from
    }
}

/// Where a line comment whose text starts at `from` ends: just after the first
/// line feed, or at the end of the text.
pub open spec fn line_end(s: Seq<char>, from: int) -> int
    decreases s.len() - from,
{
    if 0 <= from < s.len() {
        if s[from] == '\n' {
            from + 1
        } else {
            line_end(s, from + 1)
        }
    } else {
        from
    }
}

/// Where a block comment whose text starts at `from` ends: just after the first
/// `*/`, if there is one.
pub open spec fn comment_end(s: Seq<char>, from: int) -> Option<int>
    decreases s.len() - from,
{
    if 0 <= from < s.len() {
        if s[from] == '*' && from + 1 < s.len() && s[from + 1] == '/' {
            Some(from + 2)
        } else {
            comment_end(s, from + 1)
        }
    } else {
        None
    }
}

/// The number that the decimal numeral `digits` writes, however large.
pub open spec fn decimal(digits: Seq<char>) -> int
    decreases digits.len(),
{
    if digits.len() == 0 {
        0
    } else {
        decimal(digits.drop_last()) * 10 + digit_value(digits.last())
    }
}

/// The token that a word is: a keyword, or else an identifier.
pub open spec fn word_token(w: Seq<char>) -> TokenView {
    if w == "int"@ {
        TokenView::Int
    } else if w == "bool"@ {
        TokenView::Bool
    } else if w == "return"@ {
        TokenView::Return
    } else if w == "if"@ {
        TokenView::If
    } else if w == "else"@ {
        TokenView::Else
    } else if w == "while"@ {
        TokenView::While
    } else if w == "for"@ {
        TokenView::For
    } else if w == "true"@ {
        TokenView::True
    } else if w == "false"@ {
        TokenView::False
    } else {
        TokenView::Ident(w)
    }
}

// ---------------------------------------------------------------------------
// Tokens of a text
// ---------------------------------------------------------------------------

/// What stands at one position of a text.
pub enum Scan {
    /// A token, and the position after it.
    Token(TokenView, int),
    /// Nothing that counts (white space, a comment, a stray character), and the
    /// position after it.
    Skip(int),
    /// A block comment that never closes.
    Unterminated,
}

/// Whether `s` has the character `c` at `at`.
pub open spec fn has(s: Seq<char>, at: int, c: char) -> bool {
    0 <= at < s.len() && s[at] == c
}

/// What stands at `pos`, a position inside `s`.
///
/// A lone `&` or `|`, and any character that starts no token, are skipped.
/// A numeral that does not fit 64 bits wraps around.
pub open spec fn scan(s: Seq<char>, pos: int) -> Scan
    recommends
        0 <= pos < s.len(),
{
    let c = s[pos];
    if is_whitespace(c) {
        Scan::Skip(pos + 1)
    } else if c == '/' {
        if has(s, pos + 1, '/') {
            Scan::Skip(line_end(s, pos + 2))
        } else if has(s, pos + 1, '*') {
            match comment_end(s, pos + 2) {
                Some(end) => Scan::Skip(end),
                None => Scan::Unterminated,
            }
        } else {
            Scan::Token(TokenView::Divide, pos + 1)
        }
    } else if is_digit(c) {
        let end = digits_end(s, pos);
        Scan::Token(TokenView::Number(wrap(decimal(s.subrange(pos, end)))), end)
    } else if is_word_start(c) {
        let end = word_end(s, pos + 1);
        Scan::Token(word_token(s.subrange(pos, end)), end)
    } else if c == '+' {
        Scan::Token(TokenView::Mais, pos + 1)
    } else if c == '-' {
        Scan::Token(TokenView::Menos, pos + 1)
    } else if c == '*' {
        Scan::Token(TokenView::Multiplica, pos + 1)
    } else if c == '(' {
        Scan::Token(TokenView::AbrePar, pos + 1)
    } else if c == ')' {
        Scan::Token(TokenView::FechaPar, pos + 1)
    } else if c == '{' {
        Scan::Token(TokenView::AbreChave, pos + 1)
    } else if c == '}' {
        Scan::Token(TokenView::FechaChave, pos + 1)
    } else if c == ';' {
        Scan::Token(TokenView::PontoEVirgula, pos + 1)
    } else if c == ',' {
        Scan::Token(TokenView::Virgula, pos + 1)
    } else if c == '=' {
        if has(s, pos + 1, '=') {
            Scan::Token(TokenView::Equal, pos + 2)
        } else {
            Scan::Token(TokenView::Assign, pos + 1)
        }
    } else if c == '!' {
        if has(s, pos + 1, '=') {
            Scan::Token(TokenView::NotEqual, pos + 2)
        } else {
            Scan::Token(TokenView::Not, pos + 1)
        }
    } else if c == '<' {
        if has(s, pos + 1, '=') {
            Scan::Token(TokenView::LessEqual, pos + 2)
        } else {
            Scan::Token(TokenView::Less, pos + 1)
        }
    } else if c == '>' {
        if has(s, pos + 1, '=') {
            Scan::Token(TokenView::GreaterEqual, pos + 2)
        } else {
            Scan::Token(TokenView::Greater, pos + 1)
        }
    } else if c == '&' {
        if has(s, pos + 1, '&') {
            Scan::Token(TokenView::And, pos + 2)
        } else {
            Scan::Skip(pos + 1)
        }
    } else if c == '|' {
        if has(s, pos + 1, '|') {
            Scan::Token(TokenView::Or, pos + 2)
        } else {
            Scan::Skip(pos + 1)
        }
    } else {
        Scan::Skip(pos + 1)
    }
}

/// The first token at or after a position.
pub enum Lexed {
    /// A token, and the position after it.
    Token(TokenView, int),
    /// The text ends before any token.
    End,
    /// A block comment opens at this position and never closes.
    Unterminated(int),
}

/// The first token of `s` at or after `pos`.
pub open spec fn next_token(s: Seq<char>, pos: int) -> Lexed
    decreases s.len() - pos,
    via next_token_terminates
{
    if 0 <= pos < s.len() {
        match scan(s, pos) {
            Scan::Token(t, next) => Lexed::Token(t, next),
            Scan::Skip(next) => next_token(s, next),
            Scan::Unterminated => Lexed::Unterminated(pos),
        }
    } else {
        Lexed::End
    }
}

#[via_fn]
proof fn next_token_terminates(s: Seq<char>, pos: int) {
    if 0 <= pos < s.len() {
        lemma_scan_advances(s, pos);
    }
}

/// The tokens of `s` from `pos` on, after those in `acc`.
pub open spec fn tokens_from(s: Seq<char>, pos: int, acc: Seq<TokenView>) -> Result<
    Seq<TokenView>,
    LexError,
>
    decreases s.len() - pos,
    via tokens_from_terminates
{
    match next_token(s, pos) {
        Lexed::Token(t, next) => tokens_from(s, next, acc.push(t)),
        Lexed::End => Ok(acc),
        Lexed::Unterminated(at) => Err(LexError::UnterminatedComment(at as usize)),
    }
}

#[via_fn]
proof fn tokens_from_terminates(s: Seq<char>, pos: int, acc: Seq<TokenView>) {
    lemma_next_token_advances(s, pos);
}

/// The tokens of a text, in order; or the block comment that never closes.
pub open spec fn tokenize(s: Seq<char>) -> Result<Seq<TokenView>, LexError> {
    tokens_from(s, 0, Seq::empty())
}

// ---------------------------------------------------------------------------
// Facts about extents
// ---------------------------------------------------------------------------

/// A run of digits ends at or after its start, inside the text, on a character
/// that is no digit; all before it are digits.
pub proof fn lemma_digits_end(s: Seq<char>, from: int)
    requires
        0 <= from <= s.len(),
    ensures
        from <= digits_end(s, from) <= s.len(),
        forall|i: int| from <= i < digits_end(s, from) ==> is_digit(#[trigger] s[i]),
        digits_end(s, from) < s.len() ==> !is_digit(s[digits_end(s, from)]),
    decreases s.len() - from,
{
    if from < s.len() && is_digit(s[from]) {
        lemma_digits_end(s, from + 1);
    }
}

/// A run of word characters ends at or after its start, inside the text.
pub proof fn lemma_word_end(s: Seq<char>, from: int)
    requires
        0 <= from <= s.len(),
    ensures
        from <= word_end(s, from) <= s.len(),
        forall|i: int| from <= i < word_end(s, from) ==> is_word_part(#[trigger] s[i]),
        word_end(s, from) < s.len() ==> !is_word_part(s[word_end(s, from)]),
    decreases s.len() - from,
{
    if from < s.len() && is_word_part(s[from]) {
        lemma_word_end(s, from + 1);
    }
}

/// A line comment ends at or after its start, inside the text.
pub proof fn lemma_line_end(s: Seq<char>, from: int)
    requires
        0 <= from <= s.len(),
    ensures
        from <= line_end(s, from) <= s.len(),
    decreases s.len() - from,
{
    if from < s.len() && s[from] != '\n' {
        lemma_line_end(s, from + 1);
    }
}

/// A block comment that closes ends at least two characters after its start,
/// inside the text.
pub proof fn lemma_comment_end(s: Seq<char>, from: int)
    requires
        0 <= from <= s.len(),
    ensures
        comment_end(s, from) matches Some(end) ==> from + 2 <= end <= s.len(),
    decreases s.len() - from,
{
    if from < s.len() && !(s[from] == '*' && from + 1 < s.len() && s[from + 1] == '/') {
        lemma_comment_end(s, from + 1);
    }
}

/// Whatever stands at a position, the next position is further on and inside
/// the text.
pub proof fn lemma_scan_advances(s: Seq<char>, pos: int)
    requires
        0 <= pos < s.len(),
    ensures
        scan(s, pos) matches Scan::Token(_, next) ==> pos < next <= s.len(),
        scan(s, pos) matches Scan::Skip(next) ==> pos < next <= s.len(),
{
    let c = s[pos];
    if c == '/' {
        if has(s, pos + 1, '/') {
            lemma_line_end(s, pos + 2);
        } else if has(s, pos + 1, '*') {
            lemma_comment_end(s, pos + 2);
        }
    } else if is_digit(c) {
        lemma_digits_end(s, pos);
    } else if is_word_start(c) {
        lemma_word_end(s, pos + 1);
    }
}

/// A token ends after the position from which it was looked for, inside the
/// text; an unclosed comment starts at or after that position.
pub proof fn lemma_next_token_advances(s: Seq<char>, pos: int)
    ensures
        next_token(s, pos) matches Lexed::Token(_, next) ==> pos < next <= s.len() && 0 <= pos,
        next_token(s, pos) matches Lexed::Unterminated(at) ==> 0 <= pos <= at < s.len(),
    decreases s.len() - pos,
{
    if 0 <= pos < s.len() {
        lemma_scan_advances(s, pos);
        match scan(s, pos) {
            Scan::Skip(next) => {
                lemma_next_token_advances(s, next);
            },
            _ => {},
        }
    }
}

// ---------------------------------------------------------------------------
// The scanner
// ---------------------------------------------------------------------------

/// `String::push` appends one character to the string and changes nothing
/// else of it.
pub assume_specification[ String::push ](s: &mut String, ch: char)
    ensures
        final(s)@ == old(s)@.push(ch),
;

fn char_is_whitespace(c: char) -> (r: bool)
    ensures
        r == is_whitespace(c),
{
    let n = c as u32;
    (0x09 <= n && n <= 0x0D) || n == 0x20 || n == 0x85 || n == 0xA0 || n == 0x1680 || (0x2000 <= n
        && n <= 0x200A) || n == 0x2028 || n == 0x2029 || n == 0x202F || n == 0x205F || n == 0x3000
}

fn char_is_digit(c: char) -> (r: bool)
    ensures
        r == is_digit(c),
{
    '0' <= c && c <= '9'
}

fn char_is_word_start(c: char) -> (r: bool)
    ensures
        r == is_word_start(c),
{
    ('a' <= c && c <= 'z') || ('A' <= c && c <= 'Z') || c == '_'
}

fn char_is_word_part(c: char) -> (r: bool)
    ensures
        r == is_word_part(c),
{
    char_is_word_start(c) || char_is_digit(c)
}

/// A scanner over one source text.
pub struct Lexer<'a> {
    input: &'a str,
    chars: Vec<char>,
    pos: usize,
}

impl<'a> Lexer<'a> {
    #[verifier::type_invariant]
    spec fn inv(&self) -> bool {
        self.pos <= self.chars@.len() && self.chars@ == self.input@
    }

    /// The whole text.
    pub closed spec fn source(&self) -> Seq<char> {
        self.chars@
    }

    /// How many characters of the text have been read.
    pub closed spec fn position(&self) -> int {
        self.pos as int
    }

    /// A scanner at the start of `input`.
    pub fn nova_instancia(input: &'a str) -> (lexer: Self)
        ensures
            lexer.source() == input@,
            lexer.position() == 0,
    {
        let mut chars: Vec<char> = Vec::new();
        for c in it: input.chars()
            invariant
                chars@ == input@.take(it.index()),
                it.seq() == input@,
        {
            chars.push(c);
        }
        assert(chars@ == input@) by {
            assert(input@.take(input@.len() as int) =~= input@);
        }
        Lexer { input, chars, pos: 0 }
    }

    /// The text that this scanner reads.
    pub fn input(&self) -> (text: &'a str)
        ensures
            text@ == self.source(),
    {
        proof {
            use_type_invariant(self);
        }
        self.input
    }

    /// All the tokens from the current position to the end of the text.
    ///
    /// The text from that position on must have no block comment that never
    /// closes; [`Lexer::try_tokenize`] reports one instead.
    pub fn tokenizador(&mut self) -> (tokens: Vec<Token>)
        requires
            tokens_from(old(self).source(), old(self).position(), Seq::empty()) is Ok,
        ensures
            final(self).source() == old(self).source(),
            final(self).position() == final(self).source().len(),
            Ok::<Seq<TokenView>, LexError>(tokens_view(tokens@)) == tokens_from(
                old(self).source(),
                old(self).position(),
                Seq::empty(),
            ),
    {
        match self.try_tokenize() {
            Ok(tokens) => tokens,
            Err(_) => vstd::pervasive::unreached(),
        }
    }

    /// All the tokens from the current position to the end of the text, or the
    /// block comment that never closes.
    pub fn try_tokenize(&mut self) -> (r: Result<Vec<Token>, LexError>)
        ensures
            final(self).source() == old(self).source(),
            match tokens_from(old(self).source(), old(self).position(), Seq::empty()) {
                Ok(ts) => {
                    &&& r matches Ok(tokens) && tokens_view(tokens@) == ts
                    &&& final(self).position() == final(self).source().len()
                },
                Err(e) => r == Err::<Vec<Token>, LexError>(e),
            },
    {
        let mut tokens: Vec<Token> = Vec::new();
        assert(tokens_view(tokens@) =~= Seq::empty());
        loop
            invariant
                self.source() == old(self).source(),
                tokens_from(old(self).source(), old(self).position(), Seq::empty()) == tokens_from(
                    self.source(),
                    self.position(),
                    tokens_view(tokens@),
                ),
            decreases self.source().len() - self.position(),
        {
            proof {
                use_type_invariant(&*self);
                lemma_next_token_advances(self.source(), self.position());
            }
            let ghost before = tokens@;
            match self.proximo_token() {
                Ok(Some(token)) => {
                    tokens.push(token);
                    assert(tokens_view(tokens@) =~= tokens_view(before).push(token@));
                },
                Ok(None) => {
                    return Ok(tokens);
                },
                Err(e) => {
                    return Err(e);
                },
            }
        }
    }

    /// The next token at or after the current position: `None` at the end of
    /// the text.
    pub fn proximo_token(&mut self) -> (r: Result<Option<Token>, LexError>)
        ensures
            final(self).source() == old(self).source(),
            match next_token(old(self).source(), old(self).position()) {
                Lexed::Token(t, next) => {
                    &&& r matches Ok(Some(token)) && token@ == t
                    &&& final(self).position() == next
                },
                Lexed::End => {
                    &&& r matches Ok(None)
                    &&& final(self).position() == final(self).source().len()
                },
                Lexed::Unterminated(at) => r == Err::<Option<Token>, LexError>(
                    LexError::UnterminatedComment(at as usize),
                ),
            },
    {
        loop
            invariant
                self.source() == old(self).source(),
                next_token(old(self).source(), old(self).position()) == next_token(
                    self.source(),
                    self.position(),
                ),
            decreases self.source().len() - self.position(),
        {
            proof {
                use_type_invariant(&*self);
            }
            if self.pos >= self.chars.len() {
                return Ok(None);
            }
            let ghost s = self.chars@;
            let start = self.pos;
            let c = self.chars[start];
            let follows = start + 1 < self.chars.len();
            proof {
                lemma_scan_advances(s, start as int);
            }
            if char_is_whitespace(c) {
                self.pos = start + 1;
            } else if c == '/' {
                if follows && self.chars[start + 1] == '/' {
                    self.pos = start + 2;
                    self.skip_line_comment();
                } else if follows && self.chars[start + 1] == '*' {
                    self.pos = start + 2;
                    if !self.skip_block_comment() {
                        return Err(LexError::UnterminatedComment(start));
                    }
                } else {
                    self.pos = start + 1;
                    return Ok(Some(Token::Divide));
                }
            } else if char_is_digit(c) {
                let number = self.read_number();
                return Ok(Some(Token::Number(number)));
            } else if char_is_word_start(c) {
                let token = self.read_word();
                return Ok(Some(token));
            } else if c == '+' {
                self.pos = start + 1;
                return Ok(Some(Token::Mais));
            } else if c == '-' {
                self.pos = start + 1;
                return Ok(Some(Token::Menos));
            } else if c == '*' {
                self.pos = start + 1;
                return Ok(Some(Token::Multiplica));
            } else if c == '(' {
                self.pos = start + 1;
                return Ok(Some(Token::AbrePar));
            } else if c == ')' {
                self.pos = start + 1;
                return Ok(Some(Token::FechaPar));
            } else if c == '{' {
                self.pos = start + 1;
                return Ok(Some(Token::AbreChave));
            } else if c == '}' {
                self.pos = start + 1;
                return Ok(Some(Token::FechaChave));
            } else if c == ';' {
                self.pos = start + 1;
                return Ok(Some(Token::PontoEVirgula));
            } else if c == ',' {
                self.pos = start + 1;
                return Ok(Some(Token::Virgula));
            } else if c == '=' {
                if follows && self.chars[start + 1] == '=' {
                    self.pos = start + 2;
                    return Ok(Some(Token::Equal));
                }
                self.pos = start + 1;
                return Ok(Some(Token::Assign));
            } else if c == '!' {
                if follows && self.chars[start + 1] == '=' {
                    self.pos = start + 2;
                    return Ok(Some(Token::NotEqual));
                }
                self.pos = start + 1;
                return Ok(Some(Token::Not));
            } else if c == '<' {
                if follows && self.chars[start + 1] == '=' {
                    self.pos = start + 2;
                    return Ok(Some(Token::LessEqual));
                }
                self.pos = start + 1;
                return Ok(Some(Token::Less));
            } else if c == '>' {
                if follows && self.chars[start + 1] == '=' {
                    self.pos = start + 2;
                    return Ok(Some(Token::GreaterEqual));
                }
                self.pos = start + 1;
                return Ok(Some(Token::Greater));
            } else if c == '&' {
                if follows && self.chars[start + 1] == '&' {
                    self.pos = start + 2;
                    return Ok(Some(Token::And));
                }
                self.pos = start + 1;
            } else if c == '|' {
                if follows && self.chars[start + 1] == '|' {
                    self.pos = start + 2;
                    return Ok(Some(Token::Or));
                }
                self.pos = start + 1;
            } else {
                self.pos = start + 1;
            }
        }
    }

    /// Moves past a line comment whose text starts at the current position.
    fn skip_line_comment(&mut self)
        ensures
            final(self).source() == old(self).source(),
            final(self).position() == line_end(old(self).source(), old(self).position()),
    {
        proof {
            use_type_invariant(&*self);
        }
        while self.pos < self.chars.len()
            invariant
                self.pos <= self.chars@.len(),
                self.source() == old(self).source(),
                line_end(old(self).source(), old(self).position()) == line_end(
                    self.source(),
                    self.position(),
                ),
            decreases self.chars@.len() - self.pos,
        {
            proof {
                use_type_invariant(&*self);
            }
            let c = self.chars[self.pos];
            self.pos = self.pos + 1;
            if c == '\n' {
                return ;
            }
        }
    }

    /// Moves past a block comment whose text starts at the current position.
    /// Says whether the comment closes; if not, moves to the end of the text.
    fn skip_block_comment(&mut self) -> (closed: bool)
        ensures
            final(self).source() == old(self).source(),
            match comment_end(old(self).source(), old(self).position()) {
                Some(end) => closed && final(self).position() == end,
                None => !closed,
            },
    {
        proof {
            use_type_invariant(&*self);
        }
        while self.pos < self.chars.len()
            invariant
                self.pos <= self.chars@.len(),
                self.source() == old(self).source(),
                comment_end(old(self).source(), old(self).position()) == comment_end(
                    self.source(),
                    self.position(),
                ),
            decreases self.chars@.len() - self.pos,
        {
            proof {
                use_type_invariant(&*self);
            }
            let c = self.chars[self.pos];
            if c == '*' && self.pos + 1 < self.chars.len() && self.chars[self.pos + 1] == '/' {
                self.pos = self.pos + 2;
                return true;
            }
            self.pos = self.pos + 1;
        }
        false
    }

    /// Reads the numeral that starts at the current position.
    fn read_number(&mut self) -> (number: i64)
        ensures
            final(self).source() == old(self).source(),
            final(self).position() == digits_end(old(self).source(), old(self).position()),
            number == wrap(
                decimal(
                    old(self).source().subrange(old(self).position(), final(self).position()),
                ),
            ),
    {
        proof {
            use_type_invariant(&*self);
        }
        let start = self.pos;
        let mut number: i64 = 0;
        proof {
            assert(self.chars@.subrange(start as int, start as int).len() == 0);
            lemma_wrap_fits(0);
        }
        while self.pos < self.chars.len() && char_is_digit(self.chars[self.pos])
            invariant
                start <= self.pos <= self.chars@.len(),
                start == old(self).pos,
                self.source() == old(self).source(),
                digits_end(self.chars@, start as int) == digits_end(self.chars@, self.pos as int),
                number == wrap(decimal(self.chars@.subrange(start as int, self.pos as int))),
            decreases self.chars@.len() - self.pos,
        {
            let c = self.chars[self.pos];
            let digit = (c as u32 - '0' as u32) as i64;
            proof {
                use_type_invariant(&*self);
                let before = self.chars@.subrange(start as int, self.pos as int);
                let after = self.chars@.subrange(start as int, self.pos + 1);
                assert(after.drop_last() =~= before);
                assert(after.last() == c);
                assert(decimal(after) == decimal(before) * 10 + digit);
                lemma_wrap_accumulate(decimal(before), digit as int);
            }
            number = wrapping_add(wrapping_mul(number, 10), digit);
            self.pos = self.pos + 1;
        }
        number
    }

    /// Whether the characters from `start` to `end` spell `word`.
    fn spells(&self, start: usize, end: usize, word: &str) -> (r: bool)
        requires
            start <= end <= self.source().len(),
        ensures
            r == (self.source().subrange(start as int, end as int) == word@),
    {
        let n = word.unicode_len();
        if end - start != n {
            return false;
        }
        let mut i: usize = 0;
        while i < n
            invariant
                i <= n,
                n == word@.len(),
                end - start == n,
                start <= end <= self.chars@.len(),
                forall|j: int| 0 <= j < i ==> self.chars@[start + j] == word@[j],
            decreases n - i,
        {
            if self.chars[start + i] != word.get_char(i) {
                assert(self.chars@.subrange(start as int, end as int)[i as int] != word@[i as int]);
                return false;
            }
            i = i + 1;
        }
        assert(self.chars@.subrange(start as int, end as int) =~= word@);
        true
    }

    /// Reads the keyword or identifier that starts at the current position.
    fn read_word(&mut self) -> (token: Token)
        requires
            old(self).position() < old(self).source().len(),
        ensures
            final(self).source() == old(self).source(),
            final(self).position() == word_end(old(self).source(), old(self).position() + 1),
            token@ == word_token(
                old(self).source().subrange(old(self).position(), final(self).position()),
            ),
    {
        proof {
            use_type_invariant(&*self);
        }
        let start = self.pos;
        assert(start < self.chars.len());
        let mut name = String::new();
        name.push(self.chars[start]);
        self.pos = start + 1;
        assert(name@ =~= self.chars@.subrange(start as int, start + 1));
        while self.pos < self.chars.len() && char_is_word_part(self.chars[self.pos])
            invariant
                start < self.pos <= self.chars@.len(),
                start == old(self).pos,
                self.source() == old(self).source(),
                word_end(self.chars@, start + 1) == word_end(self.chars@, self.pos as int),
                name@ == self.chars@.subrange(start as int, self.pos as int),
            decreases self.chars@.len() - self.pos,
        {
            proof {
                use_type_invariant(&*self);
            }
            name.push(self.chars[self.pos]);
            self.pos = self.pos + 1;
            assert(name@ =~= self.chars@.subrange(start as int, self.pos as int));
        }
        let end = self.pos;
        if self.spells(start, end, "int") {
            Token::Int
        } else if self.spells(start, end, "bool") {
            Token::Bool
        } else if self.spells(start, end, "return") {
            Token::Return
        } else if self.spells(start, end, "if") {
            Token::If
        } else if self.spells(start, end, "else") {
            Token::Else
        } else if self.spells(start, end, "while") {
            Token::While
        } else if self.spells(start, end, "for") {
            Token::For
        } else if self.spells(start, end, "true") {
            Token::True
        } else if self.spells(start, end, "false") {
            Token::False
        } else {
            Token::Ident(name)
        }
    }
}

} // verus!
