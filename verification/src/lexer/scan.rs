//! Matching the lexical rules against a buffer of characters.

use vstd::prelude::*;
use vstd::string::StrSliceExecFns;
use crate::lexer::chars::{at, is_at, run_end, CharClass};
use crate::lexer::number::scaled_integer;
use crate::lexer::rules::{
    block_comment_span, char_span, comment_close, exponent_span, float_span, integer_span,
    lemma_integer_span_literal, lemma_rule_count, lemma_span_in_bounds,
    lemma_token_of_winner, lemma_token_unmatched, line_comment_span, matches_at, rule, rules,
    scaled_span, text_span, token_at, wins, Rule, RULE_COUNT,
};
use crate::lexer::{Lexeme, Token, TokenType};

verus! {

/// Appends one character to a string: `String::push`, which puts the
/// character at the end and leaves what stood before it as it was.
#[verifier::external_body]
fn push_char(text: &mut String, c: char)
    ensures
        final(text)@ == old(text)@.push(c),
{
    text.push(c);
}

/// The characters at `from..to` as a string.
pub(crate) fn text_of(chars: &Vec<char>, from: usize, to: usize) -> (text: String)
    requires
        from <= to <= chars.len(),
    ensures
        text@ == chars@.subrange(from as int, to as int),
{
    let mut text = String::new();
    let mut i: usize = from;
    while i < to
        invariant
            from <= i <= to <= chars.len(),
            text@ == chars@.subrange(from as int, i as int),
        decreases to - i,
    {
        push_char(&mut text, chars[i]);
        assert(chars@.subrange(from as int, i as int).push(chars@[i as int])
            =~= chars@.subrange(from as int, i + 1));
        i = i + 1;
    }
    text
}

/// Measures the line comment at `i`.
fn line_comment(chars: &Vec<char>, i: usize) -> (n: usize)
    requires
        i <= chars.len(),
    ensures
        n == line_comment_span(chars@, i as int),
        i + n <= chars.len(),
{
    if is_at(chars, i, '/') && is_at(chars, i + 1, '/') {
        let end = run_end(chars, i + 2, CharClass::InLine);
        if is_at(chars, end, '\n') {
            end + 1 - i
        } else {
            0
        }
    } else {
        0
    }
}

/// Measures the block comment at `i`.
fn block_comment(chars: &Vec<char>, i: usize) -> (n: usize)
    requires
        i <= chars.len(),
    ensures
        n == block_comment_span(chars@, i as int),
        i + n <= chars.len(),
{
    if is_at(chars, i, '/') && is_at(chars, i + 1, '*') {
        let mut j: usize = i + 2;
        while j < chars.len() && j + 1 < chars.len()
            invariant
                i + 2 <= j <= chars.len(),
                at(chars@, i as int, '/'),
                at(chars@, i + 1, '*'),
                comment_close(chars@, i + 2) == comment_close(chars@, j as int),
            decreases chars.len() - j,
        {
            if chars[j] == '*' && chars[j + 1] == '/' {
                return j + 2 - i;
            }
            j = j + 1;
        }
        0
    } else {
        0
    }
}

/// Measures the fixed text `text` at `i`.
fn fixed(chars: &Vec<char>, i: usize, text: &str) -> (n: usize)
    requires
        i <= chars.len(),
    ensures
        n == if matches_at(chars@, i as int, text@) {
            text@.len()
        } else {
            0
        },
        i + n <= chars.len(),
{
    let len = text.unicode_len();
    if len > chars.len() - i {
        return 0;
    }
    let mut j: usize = 0;
    while j < len
        invariant
            j <= len,
            len == text@.len(),
            i + len <= chars.len(),
            forall|k: int| 0 <= k < j ==> chars@[i + k] == text@[k],
        decreases len - j,
    {
        if chars[i + j] != text.get_char(j) {
            assert(chars@.subrange(i as int, i + len)[j as int] == chars@[i + j]);
            return 0;
        }
        j = j + 1;
    }
    assert(chars@.subrange(i as int, i + len) =~= text@);
    len
}

/// Measures the integer literal at `i`.
fn integer(chars: &Vec<char>, i: usize) -> (n: usize)
    requires
        i <= chars.len(),
    ensures
        n == integer_span(chars@, i as int),
        i + n <= chars.len(),
{
    let start: usize = if is_at(chars, i, '-') {
        i + 1
    } else {
        i
    };
    let end = run_end(chars, start, CharClass::Digit);
    if end > start {
        end - i
    } else {
        0
    }
}

/// Measures the integer literal with the given suffix at `i`.
fn scaled(chars: &Vec<char>, i: usize, suffix: char) -> (n: usize)
    requires
        i <= chars.len(),
    ensures
        n == scaled_span(chars@, i as int, suffix),
        i + n <= chars.len(),
{
    let n = integer(chars, i);
    if n > 0 && is_at(chars, i + n, suffix) {
        n + 1
    } else {
        0
    }
}

/// Measures the exponent at `i`.
fn exponent(chars: &Vec<char>, i: usize) -> (n: usize)
    requires
        i <= chars.len(),
    ensures
        n == exponent_span(chars@, i as int),
        i + n <= chars.len(),
{
    if is_at(chars, i, 'e') {
        let start: usize = if is_at(chars, i + 1, '-') {
            i + 2
        } else {
            i + 1
        };
        let end = run_end(chars, start, CharClass::Digit);
        if end > start {
            end - i
        } else {
            0
        }
    } else {
        0
    }
}

/// Measures the floating-point literal at `i`.
fn float(chars: &Vec<char>, i: usize) -> (n: usize)
    requires
        i <= chars.len(),
    ensures
        n == float_span(chars@, i as int),
        i + n <= chars.len(),
{
    let whole = integer(chars, i);
    if whole > 0 && is_at(chars, i + whole, '.') {
        let end = run_end(chars, i + whole + 1, CharClass::Digit);
        if end > i + whole + 1 {
            let more = exponent(chars, end);
            end - i + more
        } else {
            0
        }
    } else {
        0
    }
}

/// Measures the character literal at `i`.
fn character(chars: &Vec<char>, i: usize) -> (n: usize)
    requires
        i <= chars.len(),
    ensures
        n == char_span(chars@, i as int),
        i + n <= chars.len(),
{
    if is_at(chars, i, '\'') && i + 1 < chars.len() && CharClass::Letter.contains(chars[i + 1])
        && is_at(chars, i + 2, '\'') {
        3
    } else {
        0
    }
}

/// Measures the string literal at `i`.
fn text(chars: &Vec<char>, i: usize) -> (n: usize)
    requires
        i <= chars.len(),
    ensures
        n == text_span(chars@, i as int),
        i + n <= chars.len(),
{
    if is_at(chars, i, '"') {
        let end = run_end(chars, i + 1, CharClass::InText);
        if end > i + 1 && is_at(chars, end, '"') {
            end + 1 - i
        } else {
            0
        }
    } else {
        0
    }
}

impl Rule {
    /// Measures the longest match of the rule at `i`: zero where the rule
    /// does not match there.
    pub fn measure(&self, chars: &Vec<char>, i: usize) -> (n: usize)
        ensures
            n == self.span(chars@, i as int),
            n > 0 ==> i + n <= chars.len(),
    {
        proof {
            lemma_span_in_bounds(*self, chars@, i as int);
        }
        if i >= chars.len() {
            return 0;
        }
        match self {
            Rule::LineComment => line_comment(chars, i),
            Rule::BlockComment => block_comment(chars, i),
            Rule::Fixed(text, _) => fixed(chars, i, text),
            Rule::Ident => run_end(chars, i, CharClass::Ident) - i,
            Rule::Float => float(chars, i),
            Rule::Scaled(suffix, _) => scaled(chars, i, *suffix),
            Rule::Integer => integer(chars, i),
            Rule::Char => character(chars, i),
            Rule::Text => text(chars, i),
        }
    }

    /// Makes the token of the rule's longest match at `i`, which is `n`
    /// characters long.
    pub(crate) fn token(self, chars: &Vec<char>, i: usize, n: usize) -> (t: TokenType)
        requires
            i <= chars.len(),
            n > 0,
            n == self.span(chars@, i as int),
        ensures
            t@ == self.lexeme(chars@, i as int),
    {
        proof {
            lemma_span_in_bounds(self, chars@, i as int);
        }
        match self {
            Rule::LineComment => TokenType::LineComment,
            Rule::BlockComment => TokenType::BlockComment,
            Rule::Fixed(_, token) => token,
            Rule::Ident => TokenType::Ident(text_of(chars, i, i + n)),
            Rule::Float => TokenType::Float(text_of(chars, i, i + n)),
            Rule::Scaled(_, factor) => {
                proof {
                    lemma_integer_span_literal(chars@, i as int);
                }
                integer_token(scaled_integer(chars, i, i + n - 1, factor))
            },
            Rule::Integer => {
                proof {
                    lemma_integer_span_literal(chars@, i as int);
                }
                integer_token(scaled_integer(chars, i, i + n, 1))
            },
            Rule::Char => TokenType::Char(chars[i + 1]),
            Rule::Text => TokenType::String(text_of(chars, i + 1, i + n - 1)),
        }
    }
}

/// The token of an integer literal: its value where it could be computed.
fn integer_token(value: Option<i64>) -> (t: TokenType)
    ensures
        t@ == match value {
            Some(v) => Lexeme::Integer(v as int),
            None => Lexeme::Invalid,
        },
{
    match value {
        Some(v) => TokenType::Integer(v),
        None => TokenType::Invalid,
    }
}

/// Finds the token that starts at `i`: tries every rule of the table in turn
/// and keeps the first among those that match furthest.
pub fn token_here(chars: &Vec<char>, i: usize) -> (t: Token)
    ensures
        t@ == token_at(chars@, i as int),
        1 <= t.length,
        i < chars.len() ==> i + t.length <= chars.len(),
{
    let mut best: usize = 0;
    let mut longest: usize = 0;
    let mut k: usize = 0;
    proof {
        lemma_rule_count();
    }
    while k < RULE_COUNT
        invariant
            k <= RULE_COUNT,
            rules().len() == RULE_COUNT,
            longest > 0 ==> i + longest <= chars.len(),
            forall|j: int| 0 <= j < k ==> (#[trigger] rules()[j]).span(chars@, i as int) <= longest,
            longest > 0 ==> best < k && rules()[best as int].span(chars@, i as int) == longest,
            forall|j: int|
                0 <= j < best ==> (#[trigger] rules()[j]).span(chars@, i as int) < longest,
            longest == 0 ==> best == 0,
        decreases RULE_COUNT - k,
    {
        let n = rule(k).measure(chars, i);
        if n > longest {
            best = k;
            longest = n;
        }
        k = k + 1;
    }
    if longest == 0 {
        proof {
            lemma_token_unmatched(chars@, i as int);
        }
        Token { length: 1, token_type: TokenType::Invalid }
    } else {
        proof {
            assert(wins(chars@, i as int, best as int));
            lemma_token_of_winner(chars@, i as int, best as int);
        }
        Token { length: longest, token_type: rule(best).token(chars, i, longest) }
    }
}

} // verus!
