//! Tokens and the lexer.
//!
//! The grammar of tokens is given by [`step`], which says what one scan step
//! at a position of the input produces, and by [`lex`], which repeats it to
//! the end of the input.  [`Lexer::tokenize`] is proved to compute [`lex`].

use super::errors::{ParserError, ParserErrorView};
use crate::text::{chars_of, string_from_chars};
use vstd::prelude::*;

verus! {

/// One lexical unit of an expression.
#[derive(Debug, PartialEq, Eq, Hash, PartialOrd, Ord)]
pub enum Token {
    /// A quoted string, without its quotes.
    String(String),
    /// A number, as the digits and dots that were written.
    Number(String),
    Boolean(bool),
    Identifier(String),
    Plus,
    Minus,
    Dot,
    LeftParen,
    RightParen,
    Comma,
}

/// The mathematical value of a [`Token`].
pub enum TokenView {
    String(Seq<char>),
    Number(Seq<char>),
    Boolean(bool),
    Identifier(Seq<char>),
    Plus,
    Minus,
    Dot,
    LeftParen,
    RightParen,
    Comma,
}

impl View for Token {
    type V = TokenView;

    open spec fn view(&self) -> TokenView {
        match self {
            Token::String(s) => TokenView::String(s@),
            Token::Number(s) => TokenView::Number(s@),
            Token::Boolean(b) => TokenView::Boolean(*b),
            Token::Identifier(s) => TokenView::Identifier(s@),
            Token::Plus => TokenView::Plus,
            Token::Minus => TokenView::Minus,
            Token::Dot => TokenView::Dot,
            Token::LeftParen => TokenView::LeftParen,
            Token::RightParen => TokenView::RightParen,
            Token::Comma => TokenView::Comma,
        }
    }
}

impl DeepView for Token {
    type V = TokenView;

    open spec fn deep_view(&self) -> TokenView {
        self@
    }
}

impl Clone for Token {
    fn clone(&self) -> (copy: Self)
        ensures
            copy@ == self@,
    {
        match self {
            Token::String(s) => Token::String(s.clone()),
            Token::Number(s) => Token::Number(s.clone()),
            Token::Boolean(b) => Token::Boolean(*b),
            Token::Identifier(s) => Token::Identifier(s.clone()),
            Token::Plus => Token::Plus,
            Token::Minus => Token::Minus,
            Token::Dot => Token::Dot,
            Token::LeftParen => Token::LeftParen,
            Token::RightParen => Token::RightParen,
            Token::Comma => Token::Comma,
        }
    }
}

impl Token {
    pub fn identifier(s: &str) -> (token: Self)
        ensures
            token@ == TokenView::Identifier(s@),
    {
        Token::Identifier(s.to_owned())
    }

    pub fn string(s: &str) -> (token: Self)
        ensures
            token@ == TokenView::String(s@),
    {
        Token::String(s.to_owned())
    }
}

/// Space, tab, carriage return and line feed separate tokens and produce none.
pub open spec fn is_whitespace(c: char) -> bool {
    c == ' ' || c == '\r' || c == '\n' || c == '\t'
}

pub open spec fn is_digit(c: char) -> bool {
    '0' <= c <= '9'
}

/// ASCII letters, ASCII digits and the underscore make up identifiers.
pub open spec fn is_identifier_char(c: char) -> bool {
    is_digit(c) || 'a' <= c <= 'z' || 'A' <= c <= 'Z' || c == '_'
}

/// The token that a punctuation character stands for.
pub open spec fn punctuation(c: char) -> Option<TokenView> {
    if c == '.' {
        Some(TokenView::Dot)
    } else if c == ',' {
        Some(TokenView::Comma)
    } else if c == '(' {
        Some(TokenView::LeftParen)
    } else if c == ')' {
        Some(TokenView::RightParen)
    } else if c == '+' {
        Some(TokenView::Plus)
    } else if c == '-' {
        Some(TokenView::Minus)
    } else {
        None
    }
}

/// The kinds of character that a run of the input is made of.
#[derive(Clone, Copy)]
pub enum CharClass {
    /// Digits and dots: the body of a number.
    Numeric,
    /// Anything but a quote: the body of a string.
    Quoted,
    /// Identifier characters.
    Name,
}

pub open spec fn in_class(class: CharClass, c: char) -> bool {
    match class {
        CharClass::Numeric => is_digit(c) || c == '.',
        CharClass::Quoted => c != '\'',
        CharClass::Name => is_identifier_char(c),
    }
}

/// Where the longest run of characters of `class` that starts at `from` ends:
/// the first position at or after `from` that holds no such character, or
/// the end of the input.
pub open spec fn run_end(s: Seq<char>, from: int, class: CharClass) -> int
    decreases s.len() - from,
{
    if 0 <= from < s.len() && in_class(class, s[from]) {
        run_end(s, from + 1, class)
    } else {
        from
    }
}

/// The token for a maximal run of identifier characters: the two words
/// `true` and `false` are booleans, every other word is an identifier.
pub open spec fn word(text: Seq<char>) -> TokenView {
    if text == seq!['t', 'r', 'u', 'e'] {
        TokenView::Boolean(true)
    } else if text == seq!['f', 'a', 'l', 's', 'e'] {
        TokenView::Boolean(false)
    } else {
        TokenView::Identifier(text)
    }
}

/// Whether `text` is written as an identifier: one or more identifier
/// characters, the first of them no digit, and not one of the words `true`
/// and `false`.
pub open spec fn is_name(text: Seq<char>) -> bool {
    &&& text.len() > 0
    &&& forall|i: int| 0 <= i < text.len() ==> is_identifier_char(#[trigger] text[i])
    &&& !is_digit(text[0])
    &&& word(text) is Identifier
}

/// What one scan step does.
pub enum Step {
    /// Whitespace: nothing is produced, scanning goes on at `next`.
    Skip { next: int },
    /// A token was read, scanning goes on at `next`.
    Emit { token: TokenView, next: int },
    /// The input is rejected.
    Fail { error: ParserErrorView },
}

/// The scan step at position `from` of `s`, for `0 <= from < s.len()`.
pub open spec fn step(s: Seq<char>, from: int) -> Step {
    let c = s[from];
    if is_whitespace(c) {
        Step::Skip { next: from + 1 }
    } else if punctuation(c) is Some {
        Step::Emit { token: punctuation(c)->0, next: from + 1 }
    } else if is_digit(c) {
        let end = run_end(s, from + 1, CharClass::Numeric);
        Step::Emit { token: TokenView::Number(s.subrange(from, end)), next: end }
    } else if c == '\'' {
        let end = run_end(s, from + 1, CharClass::Quoted);
        if end >= s.len() {
            Step::Fail { error: ParserErrorView::InvalidString }
        } else {
            Step::Emit { token: TokenView::String(s.subrange(from + 1, end)), next: end + 1 }
        }
    } else if !is_identifier_char(c) {
        Step::Fail { error: ParserErrorView::InvalidIdentifierCharacter(c) }
    } else {
        let end = run_end(s, from + 1, CharClass::Name);
        Step::Emit { token: word(s.subrange(from, end)), next: end }
    }
}

/// `tokens` followed by what `rest` holds; a failure in `rest` stays one.
pub open spec fn prefixed(
    tokens: Seq<TokenView>,
    rest: Result<Seq<TokenView>, ParserErrorView>,
) -> Result<Seq<TokenView>, ParserErrorView> {
    match rest {
        Ok(more) => Ok(tokens + more),
        Err(error) => Err(error),
    }
}

/// The tokens of `s` from position `from` on, or the first failure.
pub open spec fn lex(s: Seq<char>, from: int) -> Result<Seq<TokenView>, ParserErrorView>
    decreases s.len() - from,
{
    if 0 <= from < s.len() {
        proof {
            lemma_step_advances(s, from);
        }
        match step(s, from) {
            Step::Skip { next } => lex(s, next),
            Step::Emit { token, next } => prefixed(seq![token], lex(s, next)),
            Step::Fail { error } => Err(error),
        }
    } else {
        Ok(Seq::empty())
    }
}

/// Where scanning `s` from position `from` stops: at the end of the input,
/// or at the first character of what was rejected.
pub open spec fn lex_stop(s: Seq<char>, from: int) -> int
    decreases s.len() - from,
{
    if 0 <= from < s.len() {
        proof {
            lemma_step_advances(s, from);
        }
        match step(s, from) {
            Step::Skip { next } => lex_stop(s, next),
            Step::Emit { token, next } => lex_stop(s, next),
            Step::Fail { error } => from,
        }
    } else {
        from
    }
}

/// The tokens of a whole expression.
pub open spec fn tokens_of(s: Seq<char>) -> Result<Seq<TokenView>, ParserErrorView> {
    lex(s, 0)
}

/// A run ends at or after its start and within the input; every character
/// before its end is of the class, and the one at its end is not.
pub proof fn lemma_run_end(s: Seq<char>, from: int, class: CharClass)
    requires
        0 <= from <= s.len(),
    ensures
        from <= run_end(s, from, class) <= s.len(),
        forall|i: int| from <= i < run_end(s, from, class) ==> in_class(class, #[trigger] s[i]),
        run_end(s, from, class) < s.len() ==> !in_class(class, s[run_end(s, from, class)]),
    decreases s.len() - from,
{
    if from < s.len() && in_class(class, s[from]) {
        lemma_run_end(s, from + 1, class);
    }
}

/// Every scan step that does not fail moves forward, and stays in the input.
pub proof fn lemma_step_advances(s: Seq<char>, from: int)
    requires
        0 <= from < s.len(),
    ensures
        step(s, from) matches Step::Skip { next } ==> from < next <= s.len(),
        step(s, from) matches Step::Emit { next, .. } ==> from < next <= s.len(),
{
    lemma_run_end(s, from + 1, CharClass::Numeric);
    lemma_run_end(s, from + 1, CharClass::Quoted);
    lemma_run_end(s, from + 1, CharClass::Name);
}

/// A stretch of characters of one class that is followed by a character of
/// another class, or by nothing, is a run.
pub proof fn lemma_run_end_is(s: Seq<char>, from: int, end: int, class: CharClass)
    requires
        0 <= from <= end <= s.len(),
        forall|i: int| from <= i < end ==> in_class(class, #[trigger] s[i]),
        end < s.len() ==> !in_class(class, s[end]),
    ensures
        run_end(s, from, class) == end,
    decreases end - from,
{
    if from < end {
        lemma_run_end_is(s, from + 1, end, class);
    }
}

/// Where a run ends depends on nothing before its start.
pub proof fn lemma_run_end_of_suffix(s: Seq<char>, cut: int, from: int, class: CharClass)
    requires
        0 <= cut <= from <= s.len(),
    ensures
        run_end(s, from, class) == cut + run_end(
            s.subrange(cut, s.len() as int),
            from - cut,
            class,
        ),
    decreases s.len() - from,
{
    if from < s.len() && in_class(class, s[from]) {
        lemma_run_end_of_suffix(s, cut, from + 1, class);
    }
}

/// The tokens from a position on depend on nothing before that position.
pub proof fn lemma_lex_of_suffix(s: Seq<char>, from: int)
    requires
        0 <= from <= s.len(),
    ensures
        lex(s, from) == lex(s.subrange(from, s.len() as int), 0),
    decreases s.len() - from,
{
    let tail = s.subrange(from, s.len() as int);
    if from < s.len() {
        lemma_step_advances(s, from);
        lemma_step_advances(tail, 0);
        lemma_run_end_of_suffix(s, from, from + 1, CharClass::Numeric);
        lemma_run_end_of_suffix(s, from, from + 1, CharClass::Quoted);
        lemma_run_end_of_suffix(s, from, from + 1, CharClass::Name);
        lemma_run_end(s, from + 1, CharClass::Numeric);
        lemma_run_end(s, from + 1, CharClass::Quoted);
        lemma_run_end(s, from + 1, CharClass::Name);
        match step(s, from) {
            Step::Skip { next } => {
                lemma_lex_of_suffix(s, next);
                lemma_lex_of_suffix(tail, next - from);
                assert(tail.subrange(next - from, tail.len() as int) =~= s.subrange(
                    next,
                    s.len() as int,
                ));
            },
            Step::Emit { token, next } => {
                assert(tail.subrange(0, next - from) =~= s.subrange(from, next));
                if s[from] == '\'' {
                    assert(tail.subrange(1, next - from - 1) =~= s.subrange(from + 1, next - 1));
                }
                lemma_lex_of_suffix(s, next);
                lemma_lex_of_suffix(tail, next - from);
                assert(tail.subrange(next - from, tail.len() as int) =~= s.subrange(
                    next,
                    s.len() as int,
                ));
            },
            Step::Fail { error } => {},
        }
    }
}

/// Reads an expression character by character.
pub struct Lexer {
    input: Vec<char>,
    position: usize,
}

const TOKEN_SIZE_ESTIMATE: usize = 4;

impl Lexer {
    /// The characters of the expression.
    pub closed spec fn text(&self) -> Seq<char> {
        self.input@
    }

    /// The position of the next character to read.
    pub closed spec fn position(&self) -> int {
        self.position as int
    }

    pub fn new(input: &str) -> (lexer: Lexer)
        ensures
            lexer.text() == input@,
            lexer.position() == 0,
    {
        Lexer { input: chars_of(input), position: 0 }
    }

    /// Reads all tokens from the current position to the end of the input.
    ///
    /// The result is exactly [`lex`] of the input: the tokens in the order in
    /// which they were written, or the first failure, in which case no token
    /// is returned.  The lexer is left at the end of the input, or at the
    /// first character of what it rejected.
    pub fn tokenize(&mut self) -> (result: Result<Vec<Token>, ParserError>)
        ensures
            final(self).text() == old(self).text(),
            final(self).position() == lex_stop(old(self).text(), old(self).position()),
            match result {
                Ok(tokens) => lex(old(self).text(), old(self).position()) == Ok::<
                    Seq<TokenView>,
                    ParserErrorView,
                >(tokens.deep_view()),
                Err(error) => lex(old(self).text(), old(self).position()) == Err::<
                    Seq<TokenView>,
                    ParserErrorView,
                >(error@),
            },
    {
        let mut tokens: Vec<Token> = Vec::with_capacity(self.input.len() / TOKEN_SIZE_ESTIMATE);
        let ghost s = self.input@;
        let ghost start = self.position as int;
        assert(prefixed(tokens.deep_view(), lex(s, start)) == lex(s, start));
        while self.position < self.input.len()
            invariant
                self.input@ == s,
                s == old(self).text(),
                start == old(self).position(),
                lex(s, start) == prefixed(tokens.deep_view(), lex(s, self.position as int)),
                lex_stop(s, start) == lex_stop(s, self.position as int),
            decreases self.input.len() - self.position,
        {
            let from = self.position;
            let c = self.input[from];
            let ghost before = tokens.deep_view();
            proof {
                lemma_step_advances(s, from as int);
            }
            let next: usize;
            let token: Option<Token>;
            if is_whitespace_char(c) {
                token = None;
                next = from + 1;
            } else if let Some(mark) = punctuation_token(c) {
                token = Some(mark);
                next = from + 1;
            } else if is_digit_char(c) {
                let end = self.scan_run(from + 1, CharClass::Numeric);
                token = Some(Token::Number(string_from_chars(&self.input, from, end)));
                next = end;
            } else if c == '\'' {
                let end = self.scan_run(from + 1, CharClass::Quoted);
                if end >= self.input.len() {
                    return Err(ParserError::InvalidString);
                }
                token = Some(Token::String(string_from_chars(&self.input, from + 1, end)));
                next = end + 1;
            } else if !is_valid_identifier_char(c) {
                return Err(ParserError::InvalidIdentifierCharacter(c));
            } else {
                let end = self.scan_run(from + 1, CharClass::Name);
                token = Some(word_token(string_from_chars(&self.input, from, end)));
                next = end;
            }
            if let Some(token) = token {
                tokens.push(token);
                proof {
                    assert(tokens.deep_view() =~= before.push(token@));
                    if let Ok(more) = lex(s, next as int) {
                        assert(before + (seq![token@] + more) =~= before.push(token@) + more);
                    }
                }
            }
            self.position = next;
        }
        Ok(tokens)
    }

    /// Finds the end of the run of `class` that starts at `from`.
    fn scan_run(&self, from: usize, class: CharClass) -> (end: usize)
        requires
            from <= self.input.len(),
        ensures
            end == run_end(self.input@, from as int, class),
            from <= end <= self.input.len(),
    {
        let mut end = from;
        while end < self.input.len() && belongs_to(class, self.input[end])
            invariant
                from <= end <= self.input.len(),
                run_end(self.input@, from as int, class) == run_end(self.input@, end as int, class),
            decreases self.input.len() - end,
        {
            end += 1;
        }
        end
    }
}

fn is_whitespace_char(c: char) -> (b: bool)
    ensures
        b == is_whitespace(c),
{
    c == ' ' || c == '\r' || c == '\n' || c == '\t'
}

fn is_digit_char(c: char) -> (b: bool)
    ensures
        b == is_digit(c),
{
    '0' <= c && c <= '9'
}

pub fn is_valid_identifier_char(c: char) -> (b: bool)
    ensures
        b == is_identifier_char(c),
{
    ('0' <= c && c <= '9') || ('a' <= c && c <= 'z') || ('A' <= c && c <= 'Z') || c == '_'
}

fn belongs_to(class: CharClass, c: char) -> (b: bool)
    ensures
        b == in_class(class, c),
{
    match class {
        CharClass::Numeric => is_digit_char(c) || c == '.',
        CharClass::Quoted => c != '\'',
        CharClass::Name => is_valid_identifier_char(c),
    }
}

fn punctuation_token(c: char) -> (token: Option<Token>)
    ensures
        match token {
            Some(t) => punctuation(c) == Some(t@),
            None => punctuation(c) is None,
        },
{
    match c {
        '.' => Some(Token::Dot),
        ',' => Some(Token::Comma),
        '(' => Some(Token::LeftParen),
        ')' => Some(Token::RightParen),
        '+' => Some(Token::Plus),
        '-' => Some(Token::Minus),
        _ => None,
    }
}

fn word_token(text: String) -> (token: Token)
    ensures
        token@ == word(text@),
{
    proof {
        reveal_strlit("true");
        reveal_strlit("false");
        assert("true"@ =~= seq!['t', 'r', 'u', 'e']);
        assert("false"@ =~= seq!['f', 'a', 'l', 's', 'e']);
    }
    if text.as_str().eq("true") {
        Token::Boolean(true)
    } else if text.as_str().eq("false") {
        Token::Boolean(false)
    } else {
        Token::Identifier(text)
    }
}

} // verus!
