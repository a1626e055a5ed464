//! The lexical rules: what each of them matches, in which order they stand,
//! and which of them wins.

use vstd::prelude::*;
use crate::lexer::chars::{at, lemma_run_is_maximal, lemma_run_unique, run, CharClass};
use crate::lexer::number::{fits_i64, integer_value, is_integer_literal, sign_len};
use crate::lexer::{Lexeme, TokenType, TokenView};

verus! {

/// A lexical rule.
pub enum Rule {
    /// `//`, any characters but a newline, and the newline. A last line that
    /// no newline ends holds no comment.
    LineComment,
    /// `/*`, any characters, and the first `*/` that follows. Comments do
    /// not nest, and one that is never closed is no comment.
    BlockComment,
    /// A keyword or a punctuation mark: exactly the given text, which makes
    /// the given token.
    Fixed(&'static str, TokenType),
    /// One or more letters and underscores.
    Ident,
    /// An integer literal, a point, one or more digits, and optionally an
    /// `e`, an optional minus sign and one or more digits.
    Float,
    /// An integer literal and the given suffix, which multiplies the value by
    /// the given factor.
    Scaled(char, i64),
    /// An optional minus sign and one or more digits.
    Integer,
    /// One letter between single quotes.
    Char,
    /// One or more characters between double quotes, none of them a double
    /// quote or a newline. There are no escape sequences: a backslash is a
    /// character like any other, and the literal ends at the next quote.
    Text,
}

/// The number of lexical rules.
pub const RULE_COUNT: usize = 27;

/// The lexical rules in the order of their priority. The longest match wins,
/// and among rules that match equally far the one that stands first. Keywords
/// stand before the identifier rule, which matches them too.
pub open spec fn rules() -> Seq<Rule> {
    seq![
        Rule::LineComment,
        Rule::BlockComment,
        Rule::Fixed("let", TokenType::Declaration),
        Rule::Fixed("const", TokenType::ConstantDeclaration),
        Rule::Fixed("fn", TokenType::FuncInitiator),
        Rule::Fixed("->", TokenType::FuncReturn),
        Rule::Fixed("(", TokenType::ParenthesesOpen),
        Rule::Fixed(")", TokenType::ParenthesesClose),
        Rule::Fixed("{", TokenType::BracesOpen),
        Rule::Fixed("}", TokenType::BracesClose),
        Rule::Fixed("=", TokenType::Assign),
        Rule::Fixed("+", TokenType::Plus),
        Rule::Fixed("+=", TokenType::PlusEq),
        Rule::Fixed("==", TokenType::Eq),
        Rule::Fixed("<", TokenType::Lt),
        Rule::Fixed(">", TokenType::Gt),
        Rule::Fixed("<=", TokenType::Le),
        Rule::Fixed(">=", TokenType::Ge),
        Rule::Fixed("||", TokenType::Or),
        Rule::Fixed("&&", TokenType::And),
        Rule::Ident,
        Rule::Float,
        Rule::Scaled('k', 1_000),
        Rule::Scaled('m', 1_000_000),
        Rule::Integer,
        Rule::Char,
        Rule::Text,
    ]
}

/// The rule at place `k` of the table.
pub fn rule(k: usize) -> (r: Rule)
    requires
        k < RULE_COUNT,
    ensures
        r == rules()[k as int],
        rules().len() == RULE_COUNT,
{
    match k {
        0 => Rule::LineComment,
        1 => Rule::BlockComment,
        2 => Rule::Fixed("let", TokenType::Declaration),
        3 => Rule::Fixed("const", TokenType::ConstantDeclaration),
        4 => Rule::Fixed("fn", TokenType::FuncInitiator),
        5 => Rule::Fixed("->", TokenType::FuncReturn),
        6 => Rule::Fixed("(", TokenType::ParenthesesOpen),
        7 => Rule::Fixed(")", TokenType::ParenthesesClose),
        8 => Rule::Fixed("{", TokenType::BracesOpen),
        9 => Rule::Fixed("}", TokenType::BracesClose),
        10 => Rule::Fixed("=", TokenType::Assign),
        11 => Rule::Fixed("+", TokenType::Plus),
        12 => Rule::Fixed("+=", TokenType::PlusEq),
        13 => Rule::Fixed("==", TokenType::Eq),
        14 => Rule::Fixed("<", TokenType::Lt),
        15 => Rule::Fixed(">", TokenType::Gt),
        16 => Rule::Fixed("<=", TokenType::Le),
        17 => Rule::Fixed(">=", TokenType::Ge),
        18 => Rule::Fixed("||", TokenType::Or),
        19 => Rule::Fixed("&&", TokenType::And),
        20 => Rule::Ident,
        21 => Rule::Float,
        22 => Rule::Scaled('k', 1_000),
        23 => Rule::Scaled('m', 1_000_000),
        24 => Rule::Integer,
        25 => Rule::Char,
        _ => Rule::Text,
    }
}

/// Whether `text` stands in `s` at index `i`.
pub open spec fn matches_at(s: Seq<char>, i: int, text: Seq<char>) -> bool {
    0 <= i && i + text.len() <= s.len() && s.subrange(i, i + text.len()) == text
}

/// The index of the first `*/` in `s` that starts at `j` or later.
pub open spec fn comment_close(s: Seq<char>, j: int) -> Option<int>
    decreases s.len() - j,
{
    if j < 0 || j + 1 >= s.len() {
        None
    } else if s[j] == '*' && s[j + 1] == '/' {
        Some(j)
    } else {
        comment_close(s, j + 1)
    }
}

/// How far a line comment reaches from index `i`: zero where none starts.
pub open spec fn line_comment_span(s: Seq<char>, i: int) -> nat {
    let body = run(s, i + 2, CharClass::InLine);
    if at(s, i, '/') && at(s, i + 1, '/') && at(s, i + 2 + body, '\n') {
        3 + body
    } else {
        0
    }
}

/// How far a block comment reaches from index `i`: zero where none starts,
/// or where none is closed.
pub open spec fn block_comment_span(s: Seq<char>, i: int) -> nat {
    if at(s, i, '/') && at(s, i + 1, '*') {
        match comment_close(s, i + 2) {
            Some(j) => (j + 2 - i) as nat,
            None => 0,
        }
    } else {
        0
    }
}

/// How far an integer literal reaches from index `i`.
pub open spec fn integer_span(s: Seq<char>, i: int) -> nat {
    let sign = sign_len(s, i);
    let digits = run(s, i + sign, CharClass::Digit);
    if digits > 0 {
        (sign + digits) as nat
    } else {
        0
    }
}

/// How far an integer literal with the given suffix reaches from index `i`.
pub open spec fn scaled_span(s: Seq<char>, i: int, suffix: char) -> nat {
    let n = integer_span(s, i);
    if n > 0 && at(s, i + n, suffix) {
        n + 1
    } else {
        0
    }
}

/// How far an integer literal, a point and one or more digits reach from
/// index `i`.
pub open spec fn fraction_span(s: Seq<char>, i: int) -> nat {
    let n = integer_span(s, i);
    let digits = run(s, i + n + 1, CharClass::Digit);
    if n > 0 && at(s, i + n, '.') && digits > 0 {
        n + 1 + digits
    } else {
        0
    }
}

/// How far an exponent reaches from index `i`: an `e`, an optional minus
/// sign, and one or more digits.
pub open spec fn exponent_span(s: Seq<char>, i: int) -> nat {
    let sign = sign_len(s, i + 1);
    let digits = run(s, i + 1 + sign, CharClass::Digit);
    if at(s, i, 'e') && digits > 0 {
        (1 + sign + digits) as nat
    } else {
        0
    }
}

/// How far a floating-point literal reaches from index `i`.
pub open spec fn float_span(s: Seq<char>, i: int) -> nat {
    let n = fraction_span(s, i);
    if n > 0 {
        n + exponent_span(s, i + n)
    } else {
        0
    }
}

/// How far a character literal reaches from index `i`.
pub open spec fn char_span(s: Seq<char>, i: int) -> nat {
    if at(s, i, '\'') && i + 1 < s.len() && CharClass::Letter.has(s[i + 1]) && at(
        s,
        i + 2,
        '\'',
    ) {
        3
    } else {
        0
    }
}

/// How far a string literal reaches from index `i`.
pub open spec fn text_span(s: Seq<char>, i: int) -> nat {
    let body = run(s, i + 1, CharClass::InText);
    if at(s, i, '"') && body > 0 && at(s, i + 1 + body, '"') {
        body + 2
    } else {
        0
    }
}

/// The token that an integer of value `v` makes.
pub open spec fn integer_lexeme(v: int) -> Lexeme {
    if fits_i64(v) {
        Lexeme::Integer(v)
    } else {
        Lexeme::Invalid
    }
}

impl Rule {
    /// The number of characters of the longest match of the rule at index
    /// `i` of `s`; zero where the rule does not match there.
    pub open spec fn span(self, s: Seq<char>, i: int) -> nat {
        match self {
            Rule::LineComment => line_comment_span(s, i),
            Rule::BlockComment => block_comment_span(s, i),
            Rule::Fixed(text, _) => if matches_at(s, i, text@) {
                text@.len()
            } else {
                0
            },
            Rule::Ident => run(s, i, CharClass::Ident),
            Rule::Float => float_span(s, i),
            Rule::Scaled(suffix, _) => scaled_span(s, i, suffix),
            Rule::Integer => integer_span(s, i),
            Rule::Char => char_span(s, i),
            Rule::Text => text_span(s, i),
        }
    }

    /// The token that the rule makes of its longest match at index `i`.
    pub open spec fn lexeme(self, s: Seq<char>, i: int) -> Lexeme {
        let n = self.span(s, i);
        match self {
            Rule::LineComment => Lexeme::LineComment,
            Rule::BlockComment => Lexeme::BlockComment,
            Rule::Fixed(_, token) => token@,
            Rule::Ident => Lexeme::Ident(s.subrange(i, i + n)),
            Rule::Float => Lexeme::Float(s.subrange(i, i + n)),
            Rule::Scaled(_, factor) => integer_lexeme(
                integer_value(s.subrange(i, i + n - 1)) * factor,
            ),
            Rule::Integer => integer_lexeme(integer_value(s.subrange(i, i + n))),
            Rule::Char => Lexeme::Char(s[i + 1]),
            Rule::Text => Lexeme::String(s.subrange(i + 1, i + n - 1)),
        }
    }
}

/// The table holds `RULE_COUNT` rules.
pub proof fn lemma_rule_count()
    ensures
        rules().len() == RULE_COUNT,
{
}

/// What an integer rule matches is an integer literal.
pub proof fn lemma_integer_span_literal(s: Seq<char>, i: int)
    requires
        integer_span(s, i) > 0,
    ensures
        0 <= i,
        i + integer_span(s, i) <= s.len(),
        is_integer_literal(s.subrange(i, i + integer_span(s, i))),
{
    let n = integer_span(s, i);
    let sign = sign_len(s, i);
    lemma_run_is_maximal(s, i + sign, CharClass::Digit);
    let lit = s.subrange(i, i + n);
    assert(sign_len(lit, 0) == sign);
    lemma_run_unique(lit, sign, CharClass::Digit, (n - sign) as nat);
}

/// Whether rule `k` of the table wins at index `i` of `s`: it matches there,
/// no rule matches further, and no rule before it matches as far.
pub open spec fn wins(s: Seq<char>, i: int, k: int) -> bool {
    &&& 0 <= k < rules().len()
    &&& rules()[k].span(s, i) > 0
    &&& forall|j: int|
        0 <= j < rules().len() ==> (#[trigger] rules()[j]).span(s, i) <= rules()[k].span(s, i)
    &&& forall|j: int| 0 <= j < k ==> (#[trigger] rules()[j]).span(s, i) < rules()[k].span(s, i)
}

/// Whether no rule of the table matches at index `i` of `s`.
pub open spec fn unmatched(s: Seq<char>, i: int) -> bool {
    forall|j: int| 0 <= j < rules().len() ==> (#[trigger] rules()[j]).span(s, i) == 0
}

/// The token that starts at index `i` of `s`: that of the winning rule, with
/// the length of its match; where no rule matches, one invalid character.
#[verifier::opaque]
pub open spec fn token_at(s: Seq<char>, i: int) -> TokenView {
    if exists|k: int| wins(s, i, k) {
        let k = choose|k: int| wins(s, i, k);
        TokenView { length: rules()[k].span(s, i), kind: rules()[k].lexeme(s, i) }
    } else {
        TokenView { length: 1, kind: Lexeme::Invalid }
    }
}

/// The tokens of `s` from index `i` on: whitespace is passed over, and each
/// token starts where the one before it ended.
pub open spec fn tokens_from(s: Seq<char>, i: int) -> Seq<TokenView>
    decreases s.len() - i,
    via tokens_from_terminates
{
    let start = i + run(s, i, CharClass::Space);
    if 0 <= i && start < s.len() {
        seq![token_at(s, start)] + tokens_from(s, start + token_at(s, start).length)
    } else {
        Seq::empty()
    }
}

#[via_fn]
proof fn tokens_from_terminates(s: Seq<char>, i: int) {
    let start = i + run(s, i, CharClass::Space);
    if 0 <= i && start < s.len() {
        lemma_token_in_bounds(s, start);
    }
}

/// The tokens of `s`.
pub open spec fn tokens(s: Seq<char>) -> Seq<TokenView> {
    tokens_from(s, 0)
}

/// At most one rule wins.
pub proof fn lemma_winner_unique(s: Seq<char>, i: int, k: int, l: int)
    requires
        wins(s, i, k),
        wins(s, i, l),
    ensures
        k == l,
{
    if k < l {
        assert(rules()[k].span(s, i) < rules()[l].span(s, i));
        assert(rules()[l].span(s, i) <= rules()[k].span(s, i));
    } else if l < k {
        assert(rules()[l].span(s, i) < rules()[k].span(s, i));
        assert(rules()[k].span(s, i) <= rules()[l].span(s, i));
    }
}

/// The token at an index where rule `k` wins is the one that rule `k` makes.
pub proof fn lemma_token_of_winner(s: Seq<char>, i: int, k: int)
    requires
        wins(s, i, k),
    ensures
        token_at(s, i) == (TokenView {
            length: rules()[k].span(s, i),
            kind: rules()[k].lexeme(s, i),
        }),
{
    reveal(token_at);
    let l = choose|l: int| wins(s, i, l);
    lemma_winner_unique(s, i, k, l);
}

/// Where no rule matches, the token is one invalid character.
pub proof fn lemma_token_unmatched(s: Seq<char>, i: int)
    requires
        unmatched(s, i),
    ensures
        token_at(s, i) == (TokenView { length: 1, kind: Lexeme::Invalid }),
{
    reveal(token_at);
    assert forall|k: int| !wins(s, i, k) by {
        if 0 <= k < rules().len() {
            assert(rules()[k].span(s, i) == 0);
        }
    }
}

/// The first `*/` at or after `j`, where there is one, lies at or after `j`
/// and wholly inside `s`, and no `*/` starts between `j` and it.
pub proof fn lemma_comment_close(s: Seq<char>, j: int)
    requires
        0 <= j,
    ensures
        match comment_close(s, j) {
            Some(c) => {
                &&& j <= c
                &&& c + 2 <= s.len()
                &&& s[c] == '*'
                &&& s[c + 1] == '/'
                &&& forall|k: int| j <= k < c ==> !(s[k] == '*' && #[trigger] s[k + 1] == '/')
            },
            None => forall|k: int|
                j <= k && k + 1 < s.len() ==> !(s[k] == '*' && #[trigger] s[k + 1] == '/'),
        },
    decreases s.len() - j,
{
    if j + 1 < s.len() && !(s[j] == '*' && s[j + 1] == '/') {
        lemma_comment_close(s, j + 1);
    }
}

/// A match starts at an index of `s` and ends inside `s`.
pub proof fn lemma_span_in_bounds(r: Rule, s: Seq<char>, i: int)
    ensures
        r.span(s, i) > 0 ==> 0 <= i < s.len() && i + r.span(s, i) <= s.len(),
{
    if r.span(s, i) > 0 {
        match r {
            Rule::LineComment => {},
            Rule::BlockComment => {
                lemma_comment_close(s, i + 2);
            },
            Rule::Fixed(_, _) => {},
            Rule::Ident => {
                lemma_run_is_maximal(s, i, CharClass::Ident);
            },
            Rule::Float => {
                let n = fraction_span(s, i);
                let sign = sign_len(s, i + n + 1);
                lemma_run_is_maximal(s, i + integer_span(s, i) + 1, CharClass::Digit);
                if exponent_span(s, i + n) > 0 {
                    lemma_run_is_maximal(s, i + n + 1 + sign, CharClass::Digit);
                }
            },
            Rule::Scaled(_, _) => {},
            Rule::Integer => {
                lemma_run_is_maximal(s, i + sign_len(s, i), CharClass::Digit);
            },
            Rule::Char => {},
            Rule::Text => {},
        }
    }
}

/// Every token consumes at least one character, and where it starts at an
/// index of `s`, it ends inside `s`.
pub proof fn lemma_token_in_bounds(s: Seq<char>, i: int)
    ensures
        token_at(s, i).length >= 1,
        0 <= i < s.len() ==> i + token_at(s, i).length <= s.len(),
{
    reveal(token_at);
    if exists|k: int| wins(s, i, k) {
        let k = choose|k: int| wins(s, i, k);
        assert(wins(s, i, k));
        lemma_span_in_bounds(rules()[k], s, i);
    }
}

} // verus!
