//! What stands before the cursor has no part in what is found behind it.

use vstd::prelude::*;
use crate::lexer::chars::{at, run, CharClass};
use crate::lexer::number::sign_len;
use crate::lexer::laws::{lemma_unmatched_iff, lemma_whitespace_skipped};
use crate::lexer::TokenView;
use crate::lexer::rules::{
    block_comment_span, char_span, comment_close, exponent_span, float_span, fraction_span,
    integer_span, lemma_span_in_bounds, lemma_token_in_bounds, lemma_token_of_winner,
    line_comment_span, matches_at, rules, scaled_span, text_span, token_at, tokens, tokens_from,
    unmatched, wins, Rule,
};

verus! {

/// A run in `s` is the same run behind any prefix.
pub proof fn lemma_run_behind_prefix(p: Seq<char>, s: Seq<char>, i: int, class: CharClass)
    requires
        0 <= i,
    ensures
        run(p + s, p.len() + i, class) == run(s, i, class),
    decreases s.len() - i,
{
    if i < s.len() {
        assert((p + s)[p.len() + i] == s[i]);
        if class.has(s[i]) {
            lemma_run_behind_prefix(p, s, i + 1, class);
        }
    }
}

/// The close of a block comment in `s` is the same close behind any prefix.
proof fn lemma_close_behind_prefix(p: Seq<char>, s: Seq<char>, j: int)
    requires
        0 <= j,
    ensures
        comment_close(p + s, p.len() + j) == match comment_close(s, j) {
            Some(c) => Some(p.len() + c),
            None => None,
        },
    decreases s.len() - j,
{
    if j + 1 < s.len() {
        assert((p + s)[p.len() + j] == s[j]);
        assert((p + s)[p.len() + j + 1] == s[j + 1]);
        if !(s[j] == '*' && s[j + 1] == '/') {
            lemma_close_behind_prefix(p, s, j + 1);
        }
    }
}

/// A character stands in `s` where it stands behind any prefix.
proof fn lemma_at_behind_prefix(p: Seq<char>, s: Seq<char>, i: int, c: char)
    requires
        0 <= i,
    ensures
        at(p + s, p.len() + i, c) == at(s, i, c),
{
    if i < s.len() {
        assert((p + s)[p.len() + i] == s[i]);
    }
}

/// A stretch of `s` is the same stretch behind any prefix.
proof fn lemma_subrange_behind_prefix(p: Seq<char>, s: Seq<char>, from: int, to: int)
    requires
        0 <= from <= to <= s.len(),
    ensures
        (p + s).subrange(p.len() + from, p.len() + to) == s.subrange(from, to),
{
    assert((p + s).subrange(p.len() + from, p.len() + to) =~= s.subrange(from, to));
}

/// A sign stands in `s` where it stands behind any prefix.
proof fn lemma_sign_behind_prefix(p: Seq<char>, s: Seq<char>, i: int)
    requires
        0 <= i,
    ensures
        sign_len(p + s, p.len() + i) == sign_len(s, i),
{
    lemma_at_behind_prefix(p, s, i, '-');
}

/// An integer literal in `s` reaches as far behind any prefix.
proof fn lemma_integer_behind_prefix(p: Seq<char>, s: Seq<char>, i: int)
    requires
        0 <= i,
    ensures
        integer_span(p + s, p.len() + i) == integer_span(s, i),
{
    lemma_sign_behind_prefix(p, s, i);
    lemma_run_behind_prefix(p, s, i + sign_len(s, i), CharClass::Digit);
}

/// A line comment in `s` reaches as far behind any prefix.
proof fn lemma_line_comment_behind_prefix(p: Seq<char>, s: Seq<char>, i: int)
    requires
        0 <= i,
    ensures
        line_comment_span(p + s, p.len() + i) == line_comment_span(s, i),
{
    lemma_at_behind_prefix(p, s, i, '/');
    lemma_at_behind_prefix(p, s, i + 1, '/');
    lemma_run_behind_prefix(p, s, i + 2, CharClass::InLine);
    lemma_at_behind_prefix(p, s, i + 2 + run(s, i + 2, CharClass::InLine), '\n');
}

/// A block comment in `s` reaches as far behind any prefix.
proof fn lemma_block_comment_behind_prefix(p: Seq<char>, s: Seq<char>, i: int)
    requires
        0 <= i,
    ensures
        block_comment_span(p + s, p.len() + i) == block_comment_span(s, i),
{
    lemma_at_behind_prefix(p, s, i, '/');
    lemma_at_behind_prefix(p, s, i + 1, '*');
    lemma_close_behind_prefix(p, s, i + 2);
}

/// A text stands in `s` where it stands behind any prefix.
proof fn lemma_matches_behind_prefix(p: Seq<char>, s: Seq<char>, i: int, text: Seq<char>)
    requires
        0 <= i,
    ensures
        matches_at(p + s, p.len() + i, text) == matches_at(s, i, text),
{
    if i + text.len() <= s.len() {
        lemma_subrange_behind_prefix(p, s, i, i + text.len());
    }
}

/// A number with a fraction in `s` reaches as far behind any prefix.
proof fn lemma_fraction_behind_prefix(p: Seq<char>, s: Seq<char>, i: int)
    requires
        0 <= i,
    ensures
        fraction_span(p + s, p.len() + i) == fraction_span(s, i),
{
    lemma_integer_behind_prefix(p, s, i);
    let whole = integer_span(s, i);
    lemma_at_behind_prefix(p, s, i + whole, '.');
    lemma_run_behind_prefix(p, s, i + whole + 1, CharClass::Digit);
}

/// An exponent in `s` reaches as far behind any prefix.
proof fn lemma_exponent_behind_prefix(p: Seq<char>, s: Seq<char>, i: int)
    requires
        0 <= i,
    ensures
        exponent_span(p + s, p.len() + i) == exponent_span(s, i),
{
    lemma_at_behind_prefix(p, s, i, 'e');
    lemma_sign_behind_prefix(p, s, i + 1);
    lemma_run_behind_prefix(p, s, i + 1 + sign_len(s, i + 1), CharClass::Digit);
}

/// A floating-point literal in `s` reaches as far behind any prefix.
proof fn lemma_float_behind_prefix(p: Seq<char>, s: Seq<char>, i: int)
    requires
        0 <= i,
    ensures
        float_span(p + s, p.len() + i) == float_span(s, i),
{
    lemma_fraction_behind_prefix(p, s, i);
    lemma_exponent_behind_prefix(p, s, i + fraction_span(s, i));
}

/// An integer literal with a suffix in `s` reaches as far behind any prefix.
proof fn lemma_scaled_behind_prefix(p: Seq<char>, s: Seq<char>, i: int, suffix: char)
    requires
        0 <= i,
    ensures
        scaled_span(p + s, p.len() + i, suffix) == scaled_span(s, i, suffix),
{
    lemma_integer_behind_prefix(p, s, i);
    lemma_at_behind_prefix(p, s, i + integer_span(s, i), suffix);
}

/// A character literal in `s` reaches as far behind any prefix, and holds
/// the same character.
proof fn lemma_char_behind_prefix(p: Seq<char>, s: Seq<char>, i: int)
    requires
        0 <= i,
    ensures
        char_span(p + s, p.len() + i) == char_span(s, i),
        char_span(s, i) > 0 ==> (p + s)[p.len() + i + 1] == s[i + 1],
{
    lemma_at_behind_prefix(p, s, i, '\'');
    lemma_at_behind_prefix(p, s, i + 2, '\'');
    if i + 1 < s.len() {
        assert((p + s)[p.len() + i + 1] == s[i + 1]);
    }
}

/// A string literal in `s` reaches as far behind any prefix.
proof fn lemma_text_behind_prefix(p: Seq<char>, s: Seq<char>, i: int)
    requires
        0 <= i,
    ensures
        text_span(p + s, p.len() + i) == text_span(s, i),
{
    lemma_at_behind_prefix(p, s, i, '"');
    lemma_run_behind_prefix(p, s, i + 1, CharClass::InText);
    lemma_at_behind_prefix(p, s, i + 1 + run(s, i + 1, CharClass::InText), '"');
}

/// A rule matches in `s` as far as it matches behind any prefix.
pub proof fn lemma_span_behind_prefix(r: Rule, p: Seq<char>, s: Seq<char>, i: int)
    requires
        0 <= i,
    ensures
        r.span(p + s, p.len() + i) == r.span(s, i),
{
    match r {
        Rule::LineComment => lemma_line_comment_behind_prefix(p, s, i),
        Rule::BlockComment => lemma_block_comment_behind_prefix(p, s, i),
        Rule::Fixed(text, _) => lemma_matches_behind_prefix(p, s, i, text@),
        Rule::Ident => lemma_run_behind_prefix(p, s, i, CharClass::Ident),
        Rule::Float => lemma_float_behind_prefix(p, s, i),
        Rule::Scaled(suffix, _) => lemma_scaled_behind_prefix(p, s, i, suffix),
        Rule::Integer => lemma_integer_behind_prefix(p, s, i),
        Rule::Char => lemma_char_behind_prefix(p, s, i),
        Rule::Text => lemma_text_behind_prefix(p, s, i),
    }
}

/// A rule that matches in `s` makes the token of its match that it makes
/// behind any prefix.
pub proof fn lemma_lexeme_behind_prefix(r: Rule, p: Seq<char>, s: Seq<char>, i: int)
    requires
        0 <= i,
        r.span(s, i) > 0,
    ensures
        r.lexeme(p + s, p.len() + i) == r.lexeme(s, i),
{
    let len = r.span(s, i);
    lemma_span_behind_prefix(r, p, s, i);
    lemma_span_in_bounds(r, s, i);
    match r {
        Rule::Ident | Rule::Float | Rule::Integer => {
            lemma_subrange_behind_prefix(p, s, i, i + len);
        },
        Rule::Scaled(_, _) => {
            lemma_subrange_behind_prefix(p, s, i, i + len - 1);
        },
        Rule::Char => {
            lemma_char_behind_prefix(p, s, i);
        },
        Rule::Text => {
            lemma_subrange_behind_prefix(p, s, i + 1, i + len - 1);
        },
        _ => {},
    }
}

/// The token at an index of `s` is the token at that place behind any
/// prefix.
pub proof fn lemma_token_behind_prefix(p: Seq<char>, s: Seq<char>, i: int)
    requires
        0 <= i,
    ensures
        token_at(p + s, p.len() + i) == token_at(s, i),
{
    let t = p + s;
    let n = p.len() as int;
    assert forall|j: int| 0 <= j < rules().len() implies (#[trigger] rules()[j]).span(t, n + i)
        == rules()[j].span(s, i) by {
        lemma_span_behind_prefix(rules()[j], p, s, i);
    }
    lemma_unmatched_iff(s, i);
    lemma_unmatched_iff(t, n + i);
    if unmatched(s, i) {
        assert(unmatched(t, n + i));
    } else {
        let k = choose|k: int| wins(s, i, k);
        assert(wins(s, i, k));
        assert(wins(t, n + i, k));
        lemma_lexeme_behind_prefix(rules()[k], p, s, i);
        lemma_token_of_winner(s, i, k);
        lemma_token_of_winner(t, n + i, k);
    }
}

/// The tokens from an index of `s` on are the tokens from that place on
/// behind any prefix.
pub proof fn lemma_tokens_behind_prefix(p: Seq<char>, s: Seq<char>, i: int)
    requires
        0 <= i,
    ensures
        tokens_from(p + s, p.len() + i) == tokens_from(s, i),
    decreases s.len() - i,
{
    let t = p + s;
    let n = p.len() as int;
    lemma_run_behind_prefix(p, s, i, CharClass::Space);
    let start = i + run(s, i, CharClass::Space);
    assert(n + i + run(t, n + i, CharClass::Space) == n + start);
    assert(t.len() == n + s.len());
    if start < s.len() {
        let token = token_at(s, start);
        lemma_token_behind_prefix(p, s, start);
        lemma_token_in_bounds(s, start);
        lemma_tokens_behind_prefix(p, s, start + token.length);
        assert(tokens_from(s, i) == seq![token] + tokens_from(s, start + token.length));
        assert(tokens_from(t, n + i) == seq![token] + tokens_from(t, n + start + token.length));
    } else {
        assert(tokens_from(s, i) == Seq::<TokenView>::empty());
        assert(tokens_from(t, n + i) == Seq::<TokenView>::empty());
    }
}

/// Whitespace in front of a text leaves its tokens as they are.
pub proof fn lemma_leading_whitespace(space: Seq<char>, s: Seq<char>)
    requires
        forall|k: int| 0 <= k < space.len() ==> CharClass::Space.has(#[trigger] space[k]),
    ensures
        tokens(space + s) == tokens(s),
{
    let t = space + s;
    assert forall|k: int| 0 <= k < space.len() implies CharClass::Space.has(#[trigger] t[k]) by {
        assert(t[k] == space[k]);
    }
    lemma_whitespace_skipped(t, 0, space.len() as int);
    lemma_tokens_behind_prefix(space, s, 0);
}

} // verus!
