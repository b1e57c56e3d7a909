//! How the tokens of an expression relate to its text: every token is read
//! from a span of the text that can be written back from the token, and
//! between the spans stands nothing but whitespace.

use super::errors::ParserErrorView;
use super::lexer::{
    in_class, is_digit, is_name, is_whitespace, lemma_lex_of_suffix, lemma_run_end,
    lemma_run_end_is, lemma_step_advances, lex, prefixed, step, tokens_of, CharClass, Step,
    TokenView,
};
use vstd::prelude::*;

verus! {

/// The text that a token is read from.  A string stands between its quotes;
/// a boolean is the word `true` or `false`; a number and an identifier are
/// their own text.
pub open spec fn source(token: TokenView) -> Seq<char> {
    match token {
        TokenView::String(text) => seq!['\''] + text + seq!['\''],
        TokenView::Number(raw) => raw,
        TokenView::Boolean(true) => seq!['t', 'r', 'u', 'e'],
        TokenView::Boolean(false) => seq!['f', 'a', 'l', 's', 'e'],
        TokenView::Identifier(name) => name,
        TokenView::Plus => seq!['+'],
        TokenView::Minus => seq!['-'],
        TokenView::Dot => seq!['.'],
        TokenView::LeftParen => seq!['('],
        TokenView::RightParen => seq![')'],
        TokenView::Comma => seq![','],
    }
}

/// The sources of `tokens`, one after the other.
pub open spec fn sources(tokens: Seq<TokenView>) -> Seq<char>
    decreases tokens.len(),
{
    if tokens.len() == 0 {
        Seq::empty()
    } else {
        source(tokens[0]) + sources(tokens.skip(1))
    }
}

/// `text` without its whitespace characters.
pub open spec fn without_whitespace(text: Seq<char>) -> Seq<char>
    decreases text.len(),
{
    if text.len() == 0 {
        Seq::empty()
    } else if is_whitespace(text[0]) {
        without_whitespace(text.skip(1))
    } else {
        seq![text[0]] + without_whitespace(text.skip(1))
    }
}

/// Removing whitespace from two texts and joining them is removing it from
/// the joined text.
pub proof fn lemma_without_whitespace_concat(a: Seq<char>, b: Seq<char>)
    ensures
        without_whitespace(a + b) == without_whitespace(a) + without_whitespace(b),
    decreases a.len(),
{
    if a.len() > 0 {
        assert((a + b).skip(1) =~= a.skip(1) + b);
        lemma_without_whitespace_concat(a.skip(1), b);
    }
}

/// A token is read from exactly the span of the text that its source
/// writes: nothing of the span is lost and nothing is added.
pub proof fn lemma_token_span(s: Seq<char>, from: int)
    requires
        0 <= from < s.len(),
    ensures
        step(s, from) matches Step::Emit { token, next } ==> from < next <= s.len() && source(token)
            == s.subrange(from, next),
{
    lemma_step_advances(s, from);
    lemma_run_end(s, from + 1, CharClass::Numeric);
    lemma_run_end(s, from + 1, CharClass::Quoted);
    lemma_run_end(s, from + 1, CharClass::Name);
}

/// The tokens of an expression, written back one after the other, give the
/// expression again but for its whitespace.
pub proof fn lemma_round_trip(text: Seq<char>)
    requires
        tokens_of(text) is Ok,
    ensures
        without_whitespace(sources(tokens_of(text)->Ok_0)) == without_whitespace(text),
        spells(text, tokens_of(text)->Ok_0),
{
    lemma_tokens_reconstruct_text(text, 0);
    lemma_text_spells_tokens(text, 0);
    assert(text.subrange(0, text.len() as int) =~= text);
}

/// The tokens read from a position on, written back one after the other,
/// give the text from that position on but for its whitespace.
pub proof fn lemma_tokens_reconstruct_text(s: Seq<char>, from: int)
    requires
        0 <= from <= s.len(),
        lex(s, from) is Ok,
    ensures
        without_whitespace(sources(lex(s, from)->Ok_0)) == without_whitespace(
            s.subrange(from, s.len() as int),
        ),
    decreases s.len() - from,
{
    let text = s.subrange(from, s.len() as int);
    if from < s.len() {
        lemma_step_advances(s, from);
        lemma_token_span(s, from);
        match step(s, from) {
            Step::Skip { next } => {
                lemma_tokens_reconstruct_text(s, next);
                assert(text.skip(1) =~= s.subrange(next, s.len() as int));
            },
            Step::Emit { token, next } => {
                lemma_tokens_reconstruct_text(s, next);
                let rest = lex(s, next)->Ok_0;
                let tokens = lex(s, from)->Ok_0;
                assert(tokens.skip(1) =~= rest);
                assert(text =~= s.subrange(from, next) + s.subrange(next, s.len() as int));
                lemma_without_whitespace_concat(source(token), sources(rest));
                lemma_without_whitespace_concat(
                    s.subrange(from, next),
                    s.subrange(next, s.len() as int),
                );
            },
            Step::Fail { error } => {},
        }
    }
}

/// Whether `text` is made of the sources of `tokens` in their order, with
/// nothing but whitespace before, between and after them.
pub open spec fn spells(text: Seq<char>, tokens: Seq<TokenView>) -> bool
    decreases tokens.len(), text.len(),
{
    if text.len() > 0 && is_whitespace(text[0]) {
        spells(text.skip(1), tokens)
    } else if tokens.len() == 0 {
        text.len() == 0
    } else {
        source(tokens[0]).is_prefix_of(text) && spells(
            text.skip(source(tokens[0]).len() as int),
            tokens.skip(1),
        )
    }
}

/// The text from a position on is made of the sources of the tokens read
/// from there, in their order, and of whitespace around them.
pub proof fn lemma_text_spells_tokens(s: Seq<char>, from: int)
    requires
        0 <= from <= s.len(),
        lex(s, from) is Ok,
    ensures
        spells(s.subrange(from, s.len() as int), lex(s, from)->Ok_0),
    decreases s.len() - from,
{
    let text = s.subrange(from, s.len() as int);
    if from < s.len() {
        lemma_step_advances(s, from);
        lemma_token_span(s, from);
        match step(s, from) {
            Step::Skip { next } => {
                lemma_text_spells_tokens(s, next);
                assert(text.skip(1) =~= s.subrange(next, s.len() as int));
            },
            Step::Emit { token, next } => {
                lemma_text_spells_tokens(s, next);
                let rest = lex(s, next)->Ok_0;
                let tokens = lex(s, from)->Ok_0;
                assert(tokens.skip(1) =~= rest);
                assert(text.skip(next - from) =~= s.subrange(next, s.len() as int));
            },
            Step::Fail { error } => {},
        }
    }
}

/// Whether a token is one that the lexer can read from a text.  A number
/// starts with a digit and goes on with digits and dots; a string holds no
/// quote; an identifier is written as a name.
pub open spec fn readable(token: TokenView) -> bool {
    match token {
        TokenView::Number(raw) => raw.len() > 0 && is_digit(raw[0]) && forall|i: int|
            0 <= i < raw.len() ==> in_class(CharClass::Numeric, #[trigger] raw[i]),
        TokenView::String(text) => forall|i: int|
            0 <= i < text.len() ==> #[trigger] text[i] != '\'',
        TokenView::Identifier(name) => is_name(name),
        _ => true,
    }
}

/// Every token that the lexer reads is readable.
pub proof fn lemma_tokens_are_readable(s: Seq<char>, from: int)
    requires
        0 <= from <= s.len(),
        lex(s, from) is Ok,
    ensures
        forall|i: int|
            0 <= i < lex(s, from)->Ok_0.len() ==> readable(#[trigger] lex(s, from)->Ok_0[i]),
    decreases s.len() - from,
{
    if from < s.len() {
        lemma_step_advances(s, from);
        lemma_run_end(s, from + 1, CharClass::Numeric);
        lemma_run_end(s, from + 1, CharClass::Quoted);
        lemma_run_end(s, from + 1, CharClass::Name);
        match step(s, from) {
            Step::Skip { next } => {
                lemma_tokens_are_readable(s, next);
            },
            Step::Emit { token, next } => {
                lemma_tokens_are_readable(s, next);
                let tokens = lex(s, from)->Ok_0;
                assert forall|i: int| 0 <= i < tokens.len() implies readable(
                    #[trigger] tokens[i],
                ) by {}
            },
            Step::Fail { error } => {},
        }
    }
}

/// The sources of `tokens`, each followed by one space.
pub open spec fn spaced(tokens: Seq<TokenView>) -> Seq<char>
    decreases tokens.len(),
{
    if tokens.len() == 0 {
        Seq::empty()
    } else {
        source(tokens[0]) + seq![' '] + spaced(tokens.skip(1))
    }
}

/// Readable tokens that are written out with a space after each are read
/// back as they were: the lexer undoes the writing.
pub proof fn lemma_written_tokens_are_read_back(tokens: Seq<TokenView>)
    requires
        forall|i: int| 0 <= i < tokens.len() ==> readable(#[trigger] tokens[i]),
    ensures
        tokens_of(spaced(tokens)) == Ok::<Seq<TokenView>, ParserErrorView>(tokens),
    decreases tokens.len(),
{
    let s = spaced(tokens);
    if tokens.len() == 0 {
        assert(tokens =~= Seq::<TokenView>::empty());
    } else {
        let token = tokens[0];
        let later = tokens.skip(1);
        let written = source(token);
        let n = written.len() as int;
        assert(s.subrange(0, n) =~= written);
        match token {
            TokenView::Number(raw) => {
                lemma_run_end_is(s, 1, n, CharClass::Numeric);
            },
            TokenView::String(text) => {
                lemma_run_end_is(s, 1, n - 1, CharClass::Quoted);
                assert(s.subrange(1, n - 1) =~= text);
            },
            TokenView::Identifier(name) => {
                lemma_run_end_is(s, 1, n, CharClass::Name);
            },
            TokenView::Boolean(_) => {
                lemma_run_end_is(s, 1, n, CharClass::Name);
            },
            _ => {},
        }
        assert(lex(s, n) == lex(s, n + 1));
        lemma_lex_of_suffix(s, n + 1);
        assert(s.subrange(n + 1, s.len() as int) =~= spaced(later));
        assert forall|i: int| 0 <= i < later.len() implies readable(#[trigger] later[i]) by {}
        lemma_written_tokens_are_read_back(later);
        assert(seq![token] + later =~= tokens);
    }
}

} // verus!
