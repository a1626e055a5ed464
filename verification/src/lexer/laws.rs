//! What the rule table implies for whole inputs.

use vstd::prelude::*;
use crate::ast::is_name;
use crate::lexer::chars::{lemma_run_is_maximal, lemma_run_unique, run, CharClass};
use crate::lexer::number::{integer_value, is_integer_literal, sign_len};
use crate::lexer::rules::{
    exponent_span, float_span, fraction_span, integer_lexeme, integer_span,
    lemma_span_in_bounds, lemma_token_in_bounds, lemma_token_of_winner, lemma_token_unmatched,
    lemma_winner_unique, matches_at, rules, token_at, tokens, tokens_from, unmatched, wins,
    Rule,
};
use crate::lexer::{Lexeme, TokenView};

verus! {

/// The text of the keyword or punctuation mark at place `k` of the table.
pub open spec fn fixed_text(k: int) -> Seq<char> {
    rules()[k]->Fixed_0@
}

/// The token of the keyword or punctuation mark at place `k` of the table.
pub open spec fn fixed_lexeme(k: int) -> Lexeme {
    rules()[k]->Fixed_1@
}

/// Whether place `k` of the table holds a keyword or a punctuation mark.
pub open spec fn is_fixed(k: int) -> bool {
    0 <= k < rules().len() && rules()[k] is Fixed
}

/// Whether a token of this kind carries a value, or is invalid.
pub open spec fn carries_value(kind: Lexeme) -> bool {
    kind is Ident || kind is Integer || kind is Float || kind is Char || kind is String
        || kind is Invalid
}

/// Spells out the keywords and punctuation marks of the table.
proof fn lemma_fixed_texts()
    ensures
        rules().len() == 27,
        forall|k: int| #[trigger] is_fixed(k) <==> 2 <= k < 20,
        forall|k: int| 2 <= k < 20 ==> !carries_value(#[trigger] fixed_lexeme(k)),
        fixed_text(2).len() == 3
            && fixed_text(2)[0] == 'l'
            && fixed_text(2)[1] == 'e'
            && fixed_text(2)[2] == 't',
        fixed_text(3).len() == 5
            && fixed_text(3)[0] == 'c'
            && fixed_text(3)[1] == 'o'
            && fixed_text(3)[2] == 'n'
            && fixed_text(3)[3] == 's'
            && fixed_text(3)[4] == 't',
        fixed_text(4).len() == 2 && fixed_text(4)[0] == 'f' && fixed_text(4)[1] == 'n',
        fixed_text(5).len() == 2 && fixed_text(5)[0] == '-' && fixed_text(5)[1] == '>',
        fixed_text(6).len() == 1 && fixed_text(6)[0] == '(',
        fixed_text(7).len() == 1 && fixed_text(7)[0] == ')',
        fixed_text(8).len() == 1 && fixed_text(8)[0] == '{',
        fixed_text(9).len() == 1 && fixed_text(9)[0] == '}',
        fixed_text(10).len() == 1 && fixed_text(10)[0] == '=',
        fixed_text(11).len() == 1 && fixed_text(11)[0] == '+',
        fixed_text(12).len() == 2 && fixed_text(12)[0] == '+' && fixed_text(12)[1] == '=',
        fixed_text(13).len() == 2 && fixed_text(13)[0] == '=' && fixed_text(13)[1] == '=',
        fixed_text(14).len() == 1 && fixed_text(14)[0] == '<',
        fixed_text(15).len() == 1 && fixed_text(15)[0] == '>',
        fixed_text(16).len() == 2 && fixed_text(16)[0] == '<' && fixed_text(16)[1] == '=',
        fixed_text(17).len() == 2 && fixed_text(17)[0] == '>' && fixed_text(17)[1] == '=',
        fixed_text(18).len() == 2 && fixed_text(18)[0] == '|' && fixed_text(18)[1] == '|',
        fixed_text(19).len() == 2 && fixed_text(19)[0] == '&' && fixed_text(19)[1] == '&',
{
    reveal_strlit("let");
    reveal_strlit("const");
    reveal_strlit("fn");
    reveal_strlit("->");
    reveal_strlit("(");
    reveal_strlit(")");
    reveal_strlit("{");
    reveal_strlit("}");
    reveal_strlit("=");
    reveal_strlit("+");
    reveal_strlit("+=");
    reveal_strlit("==");
    reveal_strlit("<");
    reveal_strlit(">");
    reveal_strlit("<=");
    reveal_strlit(">=");
    reveal_strlit("||");
    reveal_strlit("&&");
}

/// No keyword or punctuation mark starts with a digit, a slash, a quote or
/// whitespace, and only `->` starts with a minus sign.
proof fn lemma_fixed_first(k: int)
    requires
        is_fixed(k),
    ensures
        rules()[k] is Fixed,
        fixed_text(k).len() >= 1,
        !CharClass::Space.has(fixed_text(k)[0]),
        !CharClass::Digit.has(fixed_text(k)[0]),
        fixed_text(k)[0] != '/',
        fixed_text(k)[0] != '\'',
        fixed_text(k)[0] != '"',
        fixed_text(k)[0] == '-' ==> fixed_text(k).len() == 2 && fixed_text(k)[1] == '>',
{
    lemma_fixed_texts();
}

/// No two places of the table hold the same keyword or punctuation mark.
proof fn lemma_fixed_distinct(j: int, k: int)
    requires
        is_fixed(j),
        is_fixed(k),
        j != k,
    ensures
        fixed_text(j) != fixed_text(k),
{
    lemma_fixed_texts();
    if fixed_text(j) == fixed_text(k) {
        assert(fixed_text(j).len() == fixed_text(k).len());
        assert(fixed_text(j)[0] == fixed_text(k)[0]);
    }
}

/// A keyword or punctuation mark matches only where its first character
/// stands.
proof fn lemma_fixed_span(k: int, s: Seq<char>, i: int)
    requires
        is_fixed(k),
        rules()[k].span(s, i) > 0,
    ensures
        0 <= i < s.len(),
        s[i] == fixed_text(k)[0],
        fixed_text(k).len() >= 2 ==> i + 1 < s.len() && s[i + 1] == fixed_text(k)[1],
        rules()[k].span(s, i) == fixed_text(k).len(),
{
    lemma_fixed_first(k);
    let text = fixed_text(k);
    assert(matches_at(s, i, text));
    assert(s.subrange(i, i + text.len())[0] == s[i]);
    if text.len() >= 2 {
        assert(s.subrange(i, i + text.len())[1] == s[i + 1]);
    }
}

/// After the last token nothing is left.
proof fn lemma_tokens_at_end(s: Seq<char>)
    ensures
        tokens_from(s, s.len() as int) == Seq::<TokenView>::empty(),
{
}

/// Where rule `k` wins at the start of `s` and matches all of it, `s` is
/// that one token.
proof fn lemma_single_token(s: Seq<char>, k: int)
    requires
        s.len() > 0,
        !CharClass::Space.has(s[0]),
        wins(s, 0, k),
        rules()[k].span(s, 0) == s.len(),
    ensures
        tokens(s) == seq![TokenView { length: s.len(), kind: rules()[k].lexeme(s, 0) }],
{
    lemma_token_of_winner(s, 0, k);
    lemma_tokens_at_end(s);
    assert(run(s, 0, CharClass::Space) == 0);
    let token = token_at(s, 0);
    assert(tokens_from(s, 0) == seq![token] + tokens_from(s, token.length as int));
    assert(seq![token] + Seq::<TokenView>::empty() =~= seq![token]);
}

/// A keyword or a punctuation mark on its own is one token of its kind, as
/// long as its text.
pub proof fn lemma_fixed_alone(k: int)
    requires
        is_fixed(k),
    ensures
        tokens(fixed_text(k)) == seq![
            TokenView { length: fixed_text(k).len(), kind: fixed_lexeme(k) },
        ],
{
    let text = fixed_text(k);
    lemma_fixed_texts();
    lemma_fixed_first(k);
    assert(text.subrange(0, text.len() as int) =~= text);
    assert(rules()[k].span(text, 0) == text.len());
    assert forall|j: int| 0 <= j < rules().len() implies (#[trigger] rules()[j]).span(text, 0)
        <= text.len() by {
        lemma_span_in_bounds(rules()[j], text, 0);
    }
    assert forall|j: int| 0 <= j < k implies (#[trigger] rules()[j]).span(text, 0)
        < text.len() by {
        lemma_span_in_bounds(rules()[j], text, 0);
        if is_fixed(j) {
            lemma_fixed_first(j);
            lemma_fixed_distinct(j, k);
            if rules()[j].span(text, 0) == text.len() {
                lemma_fixed_span(j, text, 0);
                assert(text.subrange(0, fixed_text(j).len() as int) == fixed_text(j));
            }
        }
    }
    assert(wins(text, 0, k));
    lemma_single_token(text, k);
}

/// An integer literal on its own is one token: the integer that it stands
/// for, or an invalid token where that integer cannot be held in 64 bits.
pub proof fn lemma_integer_alone(d: Seq<char>)
    requires
        is_integer_literal(d),
    ensures
        tokens(d) == seq![
            TokenView { length: d.len(), kind: integer_lexeme(integer_value(d)) },
        ],
{
    lemma_fixed_texts();
    let sign = sign_len(d, 0);
    lemma_run_is_maximal(d, sign, CharClass::Digit);
    assert(CharClass::Digit.has(d[sign]));
    assert(integer_span(d, 0) == d.len());
    assert(d.subrange(0, d.len() as int) =~= d);
    assert forall|j: int| 0 <= j < rules().len() implies (#[trigger] rules()[j]).span(d, 0)
        <= d.len() by {
        lemma_span_in_bounds(rules()[j], d, 0);
    }
    assert forall|j: int| 0 <= j < 24 implies (#[trigger] rules()[j]).span(d, 0) < d.len() by {
        if is_fixed(j) {
            lemma_fixed_first(j);
            if rules()[j].span(d, 0) > 0 {
                lemma_fixed_span(j, d, 0);
            }
        }
    }
    assert(wins(d, 0, 24));
    lemma_single_token(d, 24);
}

/// An integer literal followed by `k` is one token: a thousand times the
/// integer that the literal stands for. Followed by `m` it is a million times
/// that integer. Where the product cannot be held in 64 bits, the token is
/// invalid.
pub proof fn lemma_scaled_alone(d: Seq<char>)
    requires
        is_integer_literal(d),
    ensures
        tokens(d.push('k')) == seq![
            TokenView { length: d.len() + 1, kind: integer_lexeme(integer_value(d) * 1_000) },
        ],
        tokens(d.push('m')) == seq![
            TokenView { length: d.len() + 1, kind: integer_lexeme(integer_value(d) * 1_000_000) },
        ],
{
    lemma_scaled_by(d, 'k', 22);
    lemma_scaled_by(d, 'm', 23);
}

/// An integer literal followed by the suffix of the rule at place `k`.
proof fn lemma_scaled_by(d: Seq<char>, suffix: char, k: int)
    requires
        is_integer_literal(d),
        k == 22 && suffix == 'k' || k == 23 && suffix == 'm',
    ensures
        tokens(d.push(suffix)) == seq![
            TokenView {
                length: d.len() + 1,
                kind: integer_lexeme(integer_value(d) * rules()[k]->Scaled_1),
            },
        ],
        rules()[22]->Scaled_1 == 1_000,
        rules()[23]->Scaled_1 == 1_000_000,
{
    lemma_fixed_texts();
    let s = d.push(suffix);
    let sign = sign_len(d, 0);
    lemma_run_is_maximal(d, sign, CharClass::Digit);
    assert(CharClass::Digit.has(d[sign]));
    assert(sign_len(s, 0) == sign);
    assert forall|j: int| sign <= j < d.len() implies CharClass::Digit.has(#[trigger] s[j]) by {
        assert(s[j] == d[j]);
    }
    lemma_run_unique(s, sign, CharClass::Digit, (d.len() - sign) as nat);
    assert(integer_span(s, 0) == d.len());
    assert(s[d.len() as int] == suffix);
    assert(rules()[k].span(s, 0) == s.len());
    assert(s.subrange(0, d.len() as int) =~= d);
    assert forall|j: int| 0 <= j < rules().len() implies (#[trigger] rules()[j]).span(s, 0)
        <= s.len() by {
        lemma_span_in_bounds(rules()[j], s, 0);
    }
    assert forall|j: int| 0 <= j < k implies (#[trigger] rules()[j]).span(s, 0) < s.len() by {
        if is_fixed(j) {
            lemma_fixed_first(j);
            if rules()[j].span(s, 0) > 0 {
                lemma_fixed_span(j, s, 0);
            }
        }
    }
    assert(wins(s, 0, k));
    lemma_single_token(s, k);
}

/// Whether `f` is a floating-point literal and nothing else: an integer
/// literal, a point and digits, with or without an exponent.
pub open spec fn is_float_literal(f: Seq<char>) -> bool {
    f.len() > 0 && float_span(f, 0) == f.len()
}

/// A floating-point literal on its own is one token, which carries the
/// literal as it is written.
pub proof fn lemma_float_alone(f: Seq<char>)
    requires
        is_float_literal(f),
    ensures
        tokens(f) == seq![TokenView { length: f.len(), kind: Lexeme::Float(f) }],
{
    lemma_fixed_texts();
    let sign = sign_len(f, 0);
    lemma_run_is_maximal(f, sign, CharClass::Digit);
    assert(CharClass::Digit.has(f[sign]));
    assert(f.subrange(0, f.len() as int) =~= f);
    assert forall|j: int| 0 <= j < rules().len() implies (#[trigger] rules()[j]).span(f, 0)
        <= f.len() by {
        lemma_span_in_bounds(rules()[j], f, 0);
    }
    assert forall|j: int| 0 <= j < 21 implies (#[trigger] rules()[j]).span(f, 0) < f.len() by {
        if is_fixed(j) {
            lemma_fixed_first(j);
            if rules()[j].span(f, 0) > 0 {
                lemma_fixed_span(j, f, 0);
            }
        }
    }
    assert(wins(f, 0, 21));
    lemma_single_token(f, 21);
}

/// Maximal munch: no rule matches further than the token reaches.
pub proof fn lemma_longest_match(s: Seq<char>, i: int, j: int)
    requires
        0 <= j < rules().len(),
    ensures
        rules()[j].span(s, i) <= token_at(s, i).length,
{
    if exists|k: int| wins(s, i, k) {
        let k = choose|k: int| wins(s, i, k);
        lemma_token_of_winner(s, i, k);
    } else if rules()[j].span(s, i) > 0 {
        lemma_some_rule_wins(s, i, rules().len() as int);
    }
}

/// Among the first `n` rules, where one of them matches, one of them wins
/// over the others.
proof fn lemma_best_of(s: Seq<char>, i: int, n: int) -> (k: int)
    requires
        0 <= n <= rules().len(),
        exists|j: int| 0 <= j < n && (#[trigger] rules()[j]).span(s, i) > 0,
    ensures
        0 <= k < n,
        rules()[k].span(s, i) > 0,
        forall|j: int| 0 <= j < n ==> (#[trigger] rules()[j]).span(s, i) <= rules()[k].span(s, i),
        forall|j: int| 0 <= j < k ==> (#[trigger] rules()[j]).span(s, i) < rules()[k].span(s, i),
    decreases n,
{
    let last = n - 1;
    if exists|j: int| 0 <= j < last && (#[trigger] rules()[j]).span(s, i) > 0 {
        let before = lemma_best_of(s, i, last);
        if rules()[last].span(s, i) > rules()[before].span(s, i) {
            last
        } else {
            before
        }
    } else {
        last
    }
}

/// Where some rule matches, some rule wins.
proof fn lemma_some_rule_wins(s: Seq<char>, i: int, n: int)
    requires
        n == rules().len(),
        exists|j: int| 0 <= j < n && (#[trigger] rules()[j]).span(s, i) > 0,
    ensures
        exists|k: int| wins(s, i, k),
{
    let k = lemma_best_of(s, i, n);
    assert(wins(s, i, k));
}

/// No rule wins exactly where no rule matches, and there the token is one
/// invalid character.
pub proof fn lemma_unmatched_iff(s: Seq<char>, i: int)
    ensures
        unmatched(s, i) <==> !exists|k: int| wins(s, i, k),
        unmatched(s, i) ==> token_at(s, i) == (TokenView { length: 1, kind: Lexeme::Invalid }),
{
    if unmatched(s, i) {
        lemma_token_unmatched(s, i);
        assert forall|k: int| !wins(s, i, k) by {
            if 0 <= k < rules().len() {
                assert(rules()[k].span(s, i) == 0);
            }
        }
    } else {
        let j = choose|j: int| 0 <= j < rules().len() && (#[trigger] rules()[j]).span(s, i) != 0;
        assert(rules()[j].span(s, i) > 0);
        lemma_some_rule_wins(s, i, rules().len() as int);
    }
}

/// A token is invalid in two cases and no other: no rule matches, or an
/// integer rule wins and the value of the literal, times the factor of its
/// suffix, cannot be held in 64 bits.
pub proof fn lemma_invalid_iff(s: Seq<char>, i: int)
    ensures
        token_at(s, i).kind is Invalid <==> unmatched(s, i) || exists|k: int|
            #[trigger] wins(s, i, k) && (rules()[k] is Integer || rules()[k] is Scaled)
                && rules()[k].lexeme(s, i) is Invalid,
{
    lemma_fixed_texts();
    lemma_unmatched_iff(s, i);
    if !unmatched(s, i) {
        let k = choose|k: int| wins(s, i, k);
        assert(wins(s, i, k));
        lemma_token_of_winner(s, i, k);
        assert forall|l: int| wins(s, i, l) implies l == k by {
            lemma_winner_unique(s, i, k, l);
        }
        if is_fixed(k) {
            assert(!carries_value(fixed_lexeme(k)));
        }
    }
}

/// The sum of the lengths of the tokens in `found`.
pub open spec fn total_length(found: Seq<TokenView>) -> nat
    decreases found.len(),
{
    if found.len() == 0 {
        0
    } else {
        found[0].length + total_length(found.drop_first())
    }
}

/// A scan ends: from index `i` on there are at most as many tokens as
/// characters, and together the tokens are no longer than what is left of
/// the text.
pub proof fn lemma_tokens_fit(s: Seq<char>, i: int)
    requires
        0 <= i <= s.len(),
    ensures
        tokens_from(s, i).len() <= total_length(tokens_from(s, i)) <= s.len() - i,
    decreases s.len() - i,
{
    let start = i + run(s, i, CharClass::Space);
    if start < s.len() {
        let token = token_at(s, start);
        lemma_token_in_bounds(s, start);
        let rest = tokens_from(s, start + token.length);
        lemma_tokens_fit(s, start + token.length);
        assert(tokens_from(s, i) == seq![token] + rest);
        assert((seq![token] + rest).drop_first() =~= rest);
    }
}

/// Whitespace makes no token: a scan that starts in a stretch of whitespace
/// gives the tokens of a scan that starts behind it.
pub proof fn lemma_whitespace_skipped(s: Seq<char>, i: int, j: int)
    requires
        0 <= i <= j <= s.len(),
        forall|k: int| i <= k < j ==> CharClass::Space.has(#[trigger] s[k]),
    ensures
        tokens_from(s, i) == tokens_from(s, j),
    decreases j - i,
{
    if i < j {
        lemma_whitespace_skipped(s, i + 1, j);
        assert(run(s, i, CharClass::Space) == 1 + run(s, i + 1, CharClass::Space));
        lemma_run_is_maximal(s, i + 1, CharClass::Space);
        lemma_run_is_maximal(s, j, CharClass::Space);
        lemma_tokens_start(s, i);
        lemma_tokens_start(s, i + 1);
    }
}

/// The tokens from `i` on are those from the end of the whitespace at `i`
/// on.
proof fn lemma_tokens_start(s: Seq<char>, i: int)
    requires
        0 <= i <= s.len(),
    ensures
        tokens_from(s, i) == tokens_from(s, i + run(s, i, CharClass::Space)),
{
    let start = i + run(s, i, CharClass::Space);
    lemma_run_is_maximal(s, i, CharClass::Space);
    if start < s.len() {
        assert(run(s, start, CharClass::Space) == 0);
    } else {
        assert(run(s, start, CharClass::Space) == 0);
    }
}

/// Text that holds nothing but whitespace holds no token.
pub proof fn lemma_whitespace_only(s: Seq<char>)
    requires
        forall|k: int| 0 <= k < s.len() ==> CharClass::Space.has(#[trigger] s[k]),
    ensures
        tokens(s) == Seq::<TokenView>::empty(),
{
    lemma_whitespace_skipped(s, 0, s.len() as int);
    lemma_tokens_at_end(s);
}

/// A single character that no rule matches and that is no whitespace is one
/// invalid token.
pub proof fn lemma_unmatched_character(c: char)
    requires
        !CharClass::Space.has(c),
        unmatched(seq![c], 0),
    ensures
        tokens(seq![c]) == seq![TokenView { length: 1, kind: Lexeme::Invalid }],
{
    let s = seq![c];
    lemma_token_unmatched(s, 0);
    lemma_tokens_at_end(s);
    assert(run(s, 0, CharClass::Space) == 0);
    let token = token_at(s, 0);
    assert(tokens_from(s, 0) == seq![token] + tokens_from(s, token.length as int));
    assert(seq![token] + Seq::<TokenView>::empty() =~= seq![token]);
}

/// The text of an identifier token is what it matched and is a name, and the
/// keywords never come out as identifiers.
pub proof fn lemma_ident_token_is_name(s: Seq<char>, i: int)
    requires
        token_at(s, i).kind is Ident,
    ensures
        0 <= i,
        i + token_at(s, i).length <= s.len(),
        token_at(s, i).kind->Ident_0 == s.subrange(i, i + token_at(s, i).length),
        is_name(token_at(s, i).kind->Ident_0),
        forall|k: int| is_fixed(k) ==> token_at(s, i).kind->Ident_0 != #[trigger] fixed_text(k),
{
    lemma_fixed_texts();
    lemma_unmatched_iff(s, i);
    let k = choose|k: int| wins(s, i, k);
    assert(wins(s, i, k));
    lemma_token_of_winner(s, i, k);
    lemma_span_in_bounds(rules()[k], s, i);
    assert(k == 20) by {
        if is_fixed(k) {
            assert(!carries_value(fixed_lexeme(k)));
        }
    }
    lemma_run_is_maximal(s, i, CharClass::Ident);
    let n = token_at(s, i).length;
    let text = s.subrange(i, i + n);
    assert forall|j: int| 0 <= j < text.len() implies CharClass::Ident.has(#[trigger] text[j]) by {
        assert(text[j] == s[i + j]);
    }
    assert forall|j: int| is_fixed(j) implies text != #[trigger] fixed_text(j) by {
        lemma_fixed_first(j);
        if text == fixed_text(j) {
            assert(matches_at(s, i, fixed_text(j)));
            assert(rules()[j].span(s, i) == n);
        }
    }
}

/// Cut off where its digits and point end, a number with a fraction is still
/// one, and nothing else.
proof fn lemma_fraction_cut(s: Seq<char>, i: int, n: int)
    requires
        fraction_span(s, i) > 0,
        fraction_span(s, i) <= n,
        i + n <= s.len(),
        n > fraction_span(s, i) ==> s[i + fraction_span(s, i)] == 'e',
    ensures
        0 <= i,
        fraction_span(s.subrange(i, i + n), 0) == fraction_span(s, i),
{
    let text = s.subrange(i, i + n);
    let sign = sign_len(s, i);
    let whole = integer_span(s, i) as int;
    let base = fraction_span(s, i) as int;
    lemma_run_is_maximal(s, i + sign, CharClass::Digit);
    lemma_run_is_maximal(s, i + whole + 1, CharClass::Digit);
    assert(text[0] == s[i]);
    assert(sign_len(text, 0) == sign);
    assert forall|j: int| sign <= j < whole implies CharClass::Digit.has(#[trigger] text[j]) by {
        assert(text[j] == s[i + j]);
    }
    assert(text[whole] == s[i + whole]);
    lemma_run_unique(text, sign, CharClass::Digit, (whole - sign) as nat);
    assert(integer_span(text, 0) == whole);
    assert forall|j: int| whole + 1 <= j < base implies CharClass::Digit.has(
        #[trigger] text[j],
    ) by {
        assert(text[j] == s[i + j]);
    }
    if base < n {
        assert(text[base] == s[i + base]);
    }
    lemma_run_unique(text, whole + 1, CharClass::Digit, (base - whole - 1) as nat);
}

/// Cut off where its digits end, an exponent is still one.
proof fn lemma_exponent_cut(s: Seq<char>, i: int, from: int)
    requires
        0 <= i <= from,
        exponent_span(s, from) > 0,
    ensures
        from + exponent_span(s, from) <= s.len(),
        exponent_span(s.subrange(i, from + exponent_span(s, from)), from - i) == exponent_span(
            s,
            from,
        ),
{
    let n = exponent_span(s, from) as int;
    let sign = sign_len(s, from + 1);
    lemma_run_is_maximal(s, from + 1 + sign, CharClass::Digit);
    let text = s.subrange(i, from + n);
    let at_e = from - i;
    assert(text[at_e] == s[from]);
    assert(text[at_e + 1] == s[from + 1]);
    assert(sign_len(text, at_e + 1) == sign);
    assert forall|j: int| at_e + 1 + sign <= j < text.len() implies CharClass::Digit.has(
        #[trigger] text[j],
    ) by {
        assert(text[j] == s[i + j]);
    }
    lemma_run_unique(text, at_e + 1 + sign, CharClass::Digit, (n - 1 - sign) as nat);
}

/// What the floating-point rule matches is a floating-point literal and
/// nothing else.
pub proof fn lemma_float_span_literal(s: Seq<char>, i: int)
    requires
        float_span(s, i) > 0,
    ensures
        0 <= i,
        i + float_span(s, i) <= s.len(),
        is_float_literal(s.subrange(i, i + float_span(s, i))),
{
    let n = float_span(s, i) as int;
    let base = fraction_span(s, i) as int;
    lemma_span_in_bounds(Rule::Float, s, i);
    if exponent_span(s, i + base) > 0 {
        lemma_fraction_cut(s, i, n);
        lemma_exponent_cut(s, i, i + base);
    } else {
        lemma_fraction_cut(s, i, n);
        let text = s.subrange(i, i + n);
        assert(exponent_span(text, base) == 0);
    }
}

/// The text of a floating-point token is what it matched, and is a
/// floating-point literal and nothing else.
pub proof fn lemma_float_token_is_literal(s: Seq<char>, i: int)
    requires
        token_at(s, i).kind is Float,
    ensures
        0 <= i,
        i + token_at(s, i).length <= s.len(),
        token_at(s, i).kind->Float_0 == s.subrange(i, i + token_at(s, i).length),
        is_float_literal(token_at(s, i).kind->Float_0),
{
    lemma_fixed_texts();
    lemma_unmatched_iff(s, i);
    let k = choose|k: int| wins(s, i, k);
    assert(wins(s, i, k));
    lemma_token_of_winner(s, i, k);
    assert(k == 21) by {
        if is_fixed(k) {
            assert(!carries_value(fixed_lexeme(k)));
        }
    }
    lemma_float_span_literal(s, i);
}

/// The character of a character token is the letter between the quotes.
pub proof fn lemma_char_token_is_letter(s: Seq<char>, i: int)
    requires
        token_at(s, i).kind is Char,
    ensures
        0 <= i,
        i + 3 <= s.len(),
        token_at(s, i).length == 3,
        token_at(s, i).kind->Char_0 == s[i + 1],
        CharClass::Letter.has(token_at(s, i).kind->Char_0),
{
    lemma_fixed_texts();
    lemma_unmatched_iff(s, i);
    let k = choose|k: int| wins(s, i, k);
    assert(wins(s, i, k));
    lemma_token_of_winner(s, i, k);
    assert(k == 25) by {
        if is_fixed(k) {
            assert(!carries_value(fixed_lexeme(k)));
        }
    }
}

/// The text of a string token is what stands between the quotes: at least one
/// character, none of them a double quote or a newline.
pub proof fn lemma_string_token_text(s: Seq<char>, i: int)
    requires
        token_at(s, i).kind is String,
    ensures
        0 <= i,
        i + token_at(s, i).length <= s.len(),
        token_at(s, i).length >= 3,
        token_at(s, i).kind->String_0 == s.subrange(i + 1, i + token_at(s, i).length - 1),
        forall|j: int|
            0 <= j < token_at(s, i).kind->String_0.len() ==> CharClass::InText.has(
                #[trigger] token_at(s, i).kind->String_0[j],
            ),
{
    lemma_fixed_texts();
    lemma_unmatched_iff(s, i);
    let k = choose|k: int| wins(s, i, k);
    assert(wins(s, i, k));
    lemma_token_of_winner(s, i, k);
    assert(k == 26) by {
        if is_fixed(k) {
            assert(!carries_value(fixed_lexeme(k)));
        }
    }
    lemma_run_is_maximal(s, i + 1, CharClass::InText);
    let text = token_at(s, i).kind->String_0;
    assert forall|j: int| 0 <= j < text.len() implies CharClass::InText.has(#[trigger] text[j]) by {
        assert(text[j] == s[i + 1 + j]);
    }
}

} // verus!
