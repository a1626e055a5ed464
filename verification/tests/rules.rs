use styxc_syntax::lexer::chars::{chars_of, is_at, run_end, CharClass};
use styxc_syntax::lexer::rules::{rule, Rule, RULE_COUNT};
use styxc_syntax::lexer::scan::token_here;
use styxc_syntax::lexer::{Token, TokenType};

#[test]
fn character_classes() {
    for c in [' ', '\t', '\n', '\x0c'] {
        assert!(CharClass::Space.contains(c));
    }
    for c in ['\r', 'a', '0', '\u{a0}'] {
        assert!(!CharClass::Space.contains(c));
    }
    for c in ['a', 'z', 'A', 'Z', 'm'] {
        assert!(CharClass::Letter.contains(c));
        assert!(CharClass::Ident.contains(c));
    }
    assert!(CharClass::Ident.contains('_'));
    assert!(!CharClass::Letter.contains('_'));
    for c in ['`', '{', '@', '[', '0', '\u{e9}'] {
        assert!(!CharClass::Letter.contains(c));
        assert!(!CharClass::Ident.contains(c));
    }
    for c in ['0', '5', '9'] {
        assert!(CharClass::Digit.contains(c));
    }
    for c in ['/', ':', 'a', '\u{661}'] {
        assert!(!CharClass::Digit.contains(c));
    }
    assert!(CharClass::InLine.contains('"'));
    assert!(!CharClass::InLine.contains('\n'));
    assert!(CharClass::InText.contains(' '));
    assert!(!CharClass::InText.contains('"'));
    assert!(!CharClass::InText.contains('\n'));
}

#[test]
fn runs_stop_at_the_first_stranger() {
    let chars = chars_of("abc12 ");
    assert_eq!(chars, vec!['a', 'b', 'c', '1', '2', ' ']);
    assert_eq!(run_end(&chars, 0, CharClass::Ident), 3);
    assert_eq!(run_end(&chars, 1, CharClass::Ident), 3);
    assert_eq!(run_end(&chars, 3, CharClass::Ident), 3);
    assert_eq!(run_end(&chars, 3, CharClass::Digit), 5);
    assert_eq!(run_end(&chars, 5, CharClass::Space), 6);
    assert_eq!(run_end(&chars, 6, CharClass::Space), 6);
    assert_eq!(run_end(&chars, 0, CharClass::InLine), 6);
    assert_eq!(run_end(&chars, 9, CharClass::InLine), 9);
    assert!(is_at(&chars, 2, 'c'));
    assert!(!is_at(&chars, 2, 'b'));
    assert!(!is_at(&chars, 6, ' '));
}

#[test]
fn the_table_holds_every_rule_once() {
    assert_eq!(RULE_COUNT, 27);
    let mut fixed = Vec::new();
    let mut others = 0;
    for k in 0..RULE_COUNT {
        match rule(k) {
            Rule::Fixed(text, _) => fixed.push(text),
            _ => others += 1,
        }
    }
    assert_eq!(
        fixed,
        vec![
            "let", "const", "fn", "->", "(", ")", "{", "}", "=", "+", "+=", "==", "<", ">", "<=",
            ">=", "||", "&&"
        ]
    );
    assert_eq!(others, 9);
    assert!(matches!(rule(0), Rule::LineComment));
    assert!(matches!(rule(1), Rule::BlockComment));
    assert!(matches!(rule(20), Rule::Ident));
    assert!(matches!(rule(21), Rule::Float));
    assert!(matches!(rule(22), Rule::Scaled('k', 1_000)));
    assert!(matches!(rule(23), Rule::Scaled('m', 1_000_000)));
    assert!(matches!(rule(24), Rule::Integer));
    assert!(matches!(rule(25), Rule::Char));
    assert!(matches!(rule(26), Rule::Text));
}

#[test]
fn each_rule_measures_its_own_match() {
    let chars = chars_of("let x <= -12.5e3 'c' \"s\" // z\n/* */ 7k");
    let spans = |k: usize, i: usize| rule(k).measure(&chars, i);
    assert_eq!(spans(2, 0), 3);
    assert_eq!(spans(20, 0), 3);
    assert_eq!(spans(3, 0), 0);
    assert_eq!(spans(20, 4), 1);
    assert_eq!(spans(14, 6), 1);
    assert_eq!(spans(16, 6), 2);
    assert_eq!(spans(10, 7), 1);
    assert_eq!(spans(24, 9), 3);
    assert_eq!(spans(21, 9), 7);
    assert_eq!(spans(21, 10), 6);
    assert_eq!(spans(5, 9), 0);
    assert_eq!(spans(25, 17), 3);
    assert_eq!(spans(26, 21), 3);
    assert_eq!(spans(0, 25), 5);
    assert_eq!(spans(1, 25), 0);
    assert_eq!(spans(1, 30), 5);
    assert_eq!(spans(0, 30), 0);
    assert_eq!(spans(22, 36), 2);
    assert_eq!(spans(23, 36), 0);
    assert_eq!(spans(24, 36), 1);
    for k in 0..RULE_COUNT {
        assert_eq!(spans(k, 3), 0);
        assert_eq!(spans(k, chars.len()), 0);
        assert_eq!(spans(k, chars.len() + 5), 0);
        assert_eq!(spans(k, usize::MAX), 0);
    }
}

#[test]
fn the_token_is_that_of_the_first_longest_match() {
    let chars = chars_of("ab -3k 4.5 'q' \"h\u{e9}\" let");
    let at = |i: usize| token_here(&chars, i);
    assert_eq!(at(0), Token { length: 2, token_type: TokenType::Ident("ab".into()) });
    assert_eq!(at(1), Token { length: 1, token_type: TokenType::Ident("b".into()) });
    assert_eq!(at(2), Token { length: 1, token_type: TokenType::Invalid });
    assert_eq!(at(3), Token { length: 3, token_type: TokenType::Integer(-3_000) });
    assert_eq!(at(4), Token { length: 2, token_type: TokenType::Integer(3_000) });
    assert_eq!(at(7), Token { length: 3, token_type: TokenType::Float("4.5".into()) });
    assert_eq!(at(11), Token { length: 3, token_type: TokenType::Char('q') });
    assert_eq!(at(15), Token { length: 4, token_type: TokenType::String("h\u{e9}".into()) });
    assert_eq!(at(20), Token { length: 3, token_type: TokenType::Declaration });
    assert_eq!(at(21), Token { length: 2, token_type: TokenType::Ident("et".into()) });
    assert_eq!(at(23), Token { length: 1, token_type: TokenType::Invalid });
    assert_eq!(at(99), Token { length: 1, token_type: TokenType::Invalid });
}
