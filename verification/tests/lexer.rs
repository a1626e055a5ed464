use styxc_syntax::lexer::{tokenize, Lexer, Token, TokenType};

fn next(lex: &mut Lexer) -> Option<TokenType> {
    lex.next_token().map(|token| token.token_type)
}

fn kinds(input: &str) -> Vec<TokenType> {
    tokenize(input).into_iter().map(|token| token.token_type).collect()
}

fn float_value(token: Option<TokenType>) -> Option<f64> {
    match token {
        Some(TokenType::Float(text)) => text.parse().ok(),
        _ => None,
    }
}

#[test]
fn test_ident() {
    let mut lex = Lexer::new("hello_world\ni_love_foxes");
    assert_eq!(next(&mut lex), Some(TokenType::Ident("hello_world".into())));
    assert_eq!(next(&mut lex), Some(TokenType::Ident("i_love_foxes".into())));
}

#[test]
fn test_integer() {
    let mut lex = Lexer::new("1\n-30\n2k\n3m");
    assert_eq!(next(&mut lex), Some(TokenType::Integer(1)));
    assert_eq!(next(&mut lex), Some(TokenType::Integer(-30)));
    assert_eq!(next(&mut lex), Some(TokenType::Integer(2_000)));
    assert_eq!(next(&mut lex), Some(TokenType::Integer(3_000_000)));
}

#[test]
fn test_float() {
    let mut lex = Lexer::new("1.0\n2.0e2\n3.1e3\n-46.2e-3");
    assert_eq!(float_value(next(&mut lex)), Some(1.0));
    assert_eq!(float_value(next(&mut lex)), Some(2e2));
    assert_eq!(float_value(next(&mut lex)), Some(3.1e3));
    assert_eq!(float_value(next(&mut lex)), Some(-46.2e-3));
}

#[test]
fn test_tokenize() {
    let mut iter = tokenize("input\n123").into_iter();
    let first = iter.next().unwrap();
    let second = iter.next().unwrap();
    assert_eq!(first.length, "input".len());
    assert_eq!(first.token_type, TokenType::Ident("input".into()));
    assert_eq!(second.length, "123".len());
    assert_eq!(second.token_type, TokenType::Integer(123));
}

#[test]
fn test_binary_expr() {
    let mut lex = Lexer::new("x <= 3");
    assert_eq!(next(&mut lex), Some(TokenType::Ident("x".into())));
    assert_eq!(next(&mut lex), Some(TokenType::Le));
    assert_eq!(next(&mut lex), Some(TokenType::Integer(3)));

    let mut lex = Lexer::new("x += 2");
    assert_eq!(next(&mut lex), Some(TokenType::Ident("x".into())));
    assert_eq!(next(&mut lex), Some(TokenType::PlusEq));
    assert_eq!(next(&mut lex), Some(TokenType::Integer(2)));
}

#[test]
fn test_char() {
    let mut lex = Lexer::new("'u'");
    assert_eq!(next(&mut lex), Some(TokenType::Char('u')));
}

#[test]
fn float_tokens_keep_their_text() {
    assert_eq!(
        kinds("1.0 -46.2e-3"),
        vec![TokenType::Float("1.0".into()), TokenType::Float("-46.2e-3".into())]
    );
}

#[test]
fn end_of_input_gives_none() {
    let mut lex = Lexer::new("a  ");
    assert_eq!(
        lex.next_token(),
        Some(Token { length: 1, token_type: TokenType::Ident("a".into()) })
    );
    assert_eq!(lex.next_token(), None);
    assert_eq!(lex.next_token(), None);
    assert_eq!(lex.offset(), 3);
}

fn token(length: usize, token_type: TokenType) -> Token {
    Token { length, token_type }
}

fn ident(text: &str) -> TokenType {
    TokenType::Ident(text.into())
}

#[test]
fn each_keyword_and_mark_alone_is_one_token() {
    let table = vec![
        ("let", TokenType::Declaration),
        ("const", TokenType::ConstantDeclaration),
        ("fn", TokenType::FuncInitiator),
        ("->", TokenType::FuncReturn),
        ("(", TokenType::ParenthesesOpen),
        (")", TokenType::ParenthesesClose),
        ("{", TokenType::BracesOpen),
        ("}", TokenType::BracesClose),
        ("=", TokenType::Assign),
        ("+", TokenType::Plus),
        ("+=", TokenType::PlusEq),
        ("==", TokenType::Eq),
        ("<", TokenType::Lt),
        (">", TokenType::Gt),
        ("<=", TokenType::Le),
        (">=", TokenType::Ge),
        ("||", TokenType::Or),
        ("&&", TokenType::And),
    ];
    assert_eq!(table.len(), 18);
    for (text, kind) in table {
        assert_eq!(tokenize(text), vec![token(text.len(), kind)]);
    }
}

#[test]
fn keywords_are_not_identifiers_but_longer_names_are() {
    assert_eq!(kinds("let"), vec![TokenType::Declaration]);
    assert_eq!(kinds("letx"), vec![ident("letx")]);
    assert_eq!(kinds("le"), vec![ident("le")]);
    assert_eq!(kinds("const_"), vec![ident("const_")]);
    assert_eq!(kinds("fn f"), vec![TokenType::FuncInitiator, ident("f")]);
    assert_eq!(kinds("Let"), vec![ident("Let")]);
}

#[test]
fn digits_are_no_part_of_an_identifier() {
    assert_eq!(
        tokenize("foo1"),
        vec![token(3, ident("foo")), token(1, TokenType::Integer(1))]
    );
}

#[test]
fn integers_with_and_without_suffix() {
    assert_eq!(tokenize("0"), vec![token(1, TokenType::Integer(0))]);
    assert_eq!(tokenize("-0"), vec![token(2, TokenType::Integer(0))]);
    assert_eq!(tokenize("007"), vec![token(3, TokenType::Integer(7))]);
    assert_eq!(tokenize("-30"), vec![token(3, TokenType::Integer(-30))]);
    assert_eq!(tokenize("2k"), vec![token(2, TokenType::Integer(2_000))]);
    assert_eq!(tokenize("3m"), vec![token(2, TokenType::Integer(3_000_000))]);
    assert_eq!(tokenize("-12k"), vec![token(4, TokenType::Integer(-12_000))]);
    assert_eq!(tokenize("-7m"), vec![token(3, TokenType::Integer(-7_000_000))]);
    assert_eq!(
        tokenize("12km"),
        vec![token(3, TokenType::Integer(12_000)), token(1, ident("m"))]
    );
}

#[test]
fn integers_at_the_limits_of_64_bits() {
    assert_eq!(
        tokenize("9223372036854775807"),
        vec![token(19, TokenType::Integer(i64::MAX))]
    );
    assert_eq!(
        tokenize("-9223372036854775808"),
        vec![token(20, TokenType::Integer(i64::MIN))]
    );
    assert_eq!(tokenize("9223372036854775808"), vec![token(19, TokenType::Invalid)]);
    assert_eq!(tokenize("-9223372036854775809"), vec![token(20, TokenType::Invalid)]);
    assert_eq!(
        tokenize("99999999999999999999999999"),
        vec![token(26, TokenType::Invalid)]
    );
    assert_eq!(
        tokenize("000000000000000000000000000012"),
        vec![token(30, TokenType::Integer(12))]
    );
    assert_eq!(
        tokenize("9223372036854775k"),
        vec![token(17, TokenType::Integer(9_223_372_036_854_775_000))]
    );
    assert_eq!(tokenize("9223372036854776k"), vec![token(17, TokenType::Invalid)]);
    assert_eq!(
        tokenize("-9223372036854m"),
        vec![token(15, TokenType::Integer(-9_223_372_036_854_000_000))]
    );
    assert_eq!(tokenize("9223372036855m"), vec![token(14, TokenType::Invalid)]);
    assert_eq!(tokenize("18446744073709551616k"), vec![token(21, TokenType::Invalid)]);
}

#[test]
fn floats_reach_as_far_as_they_match() {
    assert_eq!(tokenize("1.0"), vec![token(3, TokenType::Float("1.0".into()))]);
    assert_eq!(tokenize("2.0e2"), vec![token(5, TokenType::Float("2.0e2".into()))]);
    assert_eq!(
        tokenize("-46.2e-3"),
        vec![token(8, TokenType::Float("-46.2e-3".into()))]
    );
    assert_eq!(
        tokenize("1.5e"),
        vec![token(3, TokenType::Float("1.5".into())), token(1, ident("e"))]
    );
    assert_eq!(
        tokenize("1.5e-"),
        vec![
            token(3, TokenType::Float("1.5".into())),
            token(1, ident("e")),
            token(1, TokenType::Invalid),
        ]
    );
    assert_eq!(
        tokenize("1."),
        vec![token(1, TokenType::Integer(1)), token(1, TokenType::Invalid)]
    );
    assert_eq!(
        tokenize(".5"),
        vec![token(1, TokenType::Invalid), token(1, TokenType::Integer(5))]
    );
    assert_eq!(
        tokenize("1.5k"),
        vec![token(3, TokenType::Float("1.5".into())), token(1, ident("k"))]
    );
    assert_eq!(
        tokenize("2k.5"),
        vec![
            token(2, TokenType::Integer(2_000)),
            token(1, TokenType::Invalid),
            token(1, TokenType::Integer(5)),
        ]
    );
}

#[test]
fn float_values_within_tolerance() {
    let cases = vec![
        ("1.0", 1.0),
        ("2.0e2", 200.0),
        ("3.1e3", 3100.0),
        ("-46.2e-3", -0.0462),
        ("0.5", 0.5),
        ("123.456e2", 12345.6),
    ];
    for (text, expected) in cases {
        let mut lex = Lexer::new(text);
        let value: f64 = float_value(next(&mut lex)).unwrap();
        assert!((value - expected).abs() <= 1e-12 * expected.abs());
        assert_eq!(next(&mut lex), None);
    }
}

#[test]
fn longest_match_wins() {
    assert_eq!(tokenize("<="), vec![token(2, TokenType::Le)]);
    assert_eq!(tokenize("+="), vec![token(2, TokenType::PlusEq)]);
    assert_eq!(kinds("<=="), vec![TokenType::Le, TokenType::Assign]);
    assert_eq!(kinds("==="), vec![TokenType::Eq, TokenType::Assign]);
    assert_eq!(kinds("< ="), vec![TokenType::Lt, TokenType::Assign]);
    assert_eq!(kinds("+ ="), vec![TokenType::Plus, TokenType::Assign]);
    assert_eq!(kinds(">=>"), vec![TokenType::Ge, TokenType::Gt]);
    assert_eq!(kinds("->"), vec![TokenType::FuncReturn]);
    assert_eq!(kinds("|| &&"), vec![TokenType::Or, TokenType::And]);
    assert_eq!(kinds("|"), vec![TokenType::Invalid]);
    assert_eq!(kinds("&"), vec![TokenType::Invalid]);
}

#[test]
fn minus_sign_belongs_to_the_number_or_the_arrow() {
    assert_eq!(kinds("-5"), vec![TokenType::Integer(-5)]);
    assert_eq!(kinds("a-5"), vec![ident("a"), TokenType::Integer(-5)]);
    assert_eq!(kinds("- 5"), vec![TokenType::Invalid, TokenType::Integer(5)]);
    assert_eq!(kinds("--5"), vec![TokenType::Invalid, TokenType::Integer(-5)]);
    assert_eq!(kinds("->5"), vec![TokenType::FuncReturn, TokenType::Integer(5)]);
    assert_eq!(kinds("-"), vec![TokenType::Invalid]);
}

#[test]
fn whitespace_makes_no_token() {
    assert_eq!(tokenize("a   b"), vec![token(1, ident("a")), token(1, ident("b"))]);
    assert_eq!(tokenize(" \t\n\x0c a \t\n\x0c "), vec![token(1, ident("a"))]);
    assert_eq!(tokenize(""), vec![]);
    assert_eq!(tokenize(" \t\n\x0c"), vec![]);
}

#[test]
fn carriage_return_is_no_whitespace() {
    assert_eq!(
        tokenize("a\r\nb"),
        vec![token(1, ident("a")), token(1, TokenType::Invalid), token(1, ident("b"))]
    );
}

#[test]
fn unmatched_characters_are_invalid_one_by_one() {
    assert_eq!(tokenize("@"), vec![token(1, TokenType::Invalid)]);
    assert_eq!(
        tokenize("@#"),
        vec![token(1, TokenType::Invalid), token(1, TokenType::Invalid)]
    );
    assert_eq!(tokenize("\u{e9}"), vec![token(1, TokenType::Invalid)]);
    assert_eq!(
        tokenize("x\u{1f98a}y"),
        vec![token(1, ident("x")), token(1, TokenType::Invalid), token(1, ident("y"))]
    );
    let mut lex = Lexer::new("$$$");
    for passed in 1..=3 {
        assert_eq!(lex.next_token(), Some(token(1, TokenType::Invalid)));
        assert_eq!(lex.offset(), passed);
    }
    assert_eq!(lex.next_token(), None);
}

#[test]
fn line_comments_end_with_their_newline() {
    assert_eq!(
        tokenize("// hi\nx"),
        vec![token(6, TokenType::LineComment), token(1, ident("x"))]
    );
    assert_eq!(
        tokenize("//\nx"),
        vec![token(3, TokenType::LineComment), token(1, ident("x"))]
    );
    assert_eq!(
        tokenize("x // a // b\n// c\n"),
        vec![
            token(1, ident("x")),
            token(10, TokenType::LineComment),
            token(5, TokenType::LineComment),
        ]
    );
    assert_eq!(
        kinds("// open"),
        vec![TokenType::Invalid, TokenType::Invalid, ident("open")]
    );
    assert_eq!(kinds("/"), vec![TokenType::Invalid]);
}

#[test]
fn block_comments_end_at_the_nearest_close() {
    assert_eq!(
        tokenize("/* a */ b"),
        vec![token(7, TokenType::BlockComment), token(1, ident("b"))]
    );
    assert_eq!(tokenize("/**/"), vec![token(4, TokenType::BlockComment)]);
    assert_eq!(tokenize("/* a\n b */"), vec![token(10, TokenType::BlockComment)]);
    assert_eq!(
        tokenize("/* a */ x /* b */"),
        vec![
            token(7, TokenType::BlockComment),
            token(1, ident("x")),
            token(7, TokenType::BlockComment),
        ]
    );
    assert_eq!(
        kinds("/* a */ */"),
        vec![TokenType::BlockComment, TokenType::Invalid, TokenType::Invalid]
    );
    assert_eq!(
        kinds("/* /* a */ b"),
        vec![TokenType::BlockComment, ident("b")]
    );
    assert_eq!(
        kinds("/*/"),
        vec![TokenType::Invalid, TokenType::Invalid, TokenType::Invalid]
    );
    assert_eq!(
        kinds("/* open"),
        vec![TokenType::Invalid, TokenType::Invalid, ident("open")]
    );
    assert_eq!(tokenize("/*//*/"), vec![token(6, TokenType::BlockComment)]);
}

#[test]
fn character_literals_hold_one_letter() {
    assert_eq!(tokenize("'u'"), vec![token(3, TokenType::Char('u'))]);
    assert_eq!(tokenize("'Z'"), vec![token(3, TokenType::Char('Z'))]);
    assert_eq!(
        kinds("'_'"),
        vec![TokenType::Invalid, ident("_"), TokenType::Invalid]
    );
    assert_eq!(
        kinds("'1'"),
        vec![TokenType::Invalid, TokenType::Integer(1), TokenType::Invalid]
    );
    assert_eq!(
        kinds("'ab'"),
        vec![TokenType::Invalid, ident("ab"), TokenType::Invalid]
    );
    assert_eq!(kinds("''"), vec![TokenType::Invalid, TokenType::Invalid]);
    assert_eq!(kinds("'a"), vec![TokenType::Invalid, ident("a")]);
}

#[test]
fn string_literals_end_at_the_next_quote() {
    assert_eq!(tokenize("\"hi\""), vec![token(4, TokenType::String("hi".into()))]);
    assert_eq!(
        tokenize("\"a b // c\""),
        vec![token(10, TokenType::String("a b // c".into()))]
    );
    assert_eq!(
        tokenize("\"h\u{e9}llo\""),
        vec![token(7, TokenType::String("h\u{e9}llo".into()))]
    );
    assert_eq!(
        kinds("\"a\"b\""),
        vec![TokenType::String("a".into()), ident("b"), TokenType::Invalid]
    );
    assert_eq!(
        kinds("\"a\\\"b\""),
        vec![TokenType::String("a\\".into()), ident("b"), TokenType::Invalid]
    );
    assert_eq!(kinds("\"\""), vec![TokenType::Invalid, TokenType::Invalid]);
    assert_eq!(
        kinds("\"\"a\""),
        vec![TokenType::Invalid, TokenType::String("a".into())]
    );
    assert_eq!(
        kinds("\"a\nb\""),
        vec![TokenType::Invalid, ident("a"), ident("b"), TokenType::Invalid]
    );
    assert_eq!(kinds("\"open"), vec![TokenType::Invalid, ident("open")]);
}

#[test]
fn a_function_header() {
    assert_eq!(
        kinds("fn add(a, b) -> int { let x = a + b }"),
        vec![
            TokenType::FuncInitiator,
            ident("add"),
            TokenType::ParenthesesOpen,
            ident("a"),
            TokenType::Invalid,
            ident("b"),
            TokenType::ParenthesesClose,
            TokenType::FuncReturn,
            ident("int"),
            TokenType::BracesOpen,
            TokenType::Declaration,
            ident("x"),
            TokenType::Assign,
            ident("a"),
            TokenType::Plus,
            ident("b"),
            TokenType::BracesClose,
        ]
    );
}

#[test]
fn lengths_and_offsets_give_the_place_of_each_token() {
    let source = "  let  total += 12k // sum\n";
    let mut lex = Lexer::new(source);
    let mut places = Vec::new();
    while let Some(found) = lex.next_token() {
        places.push((lex.offset() - found.length, found.length));
    }
    assert_eq!(places, vec![(2, 3), (7, 5), (13, 2), (16, 3), (20, 7)]);
    assert_eq!(lex.offset(), source.len());
}

#[test]
fn two_scans_do_not_disturb_each_other() {
    let mut one = Lexer::new("a b");
    let mut two = Lexer::new("1 2");
    assert_eq!(next(&mut one), Some(ident("a")));
    assert_eq!(next(&mut two), Some(TokenType::Integer(1)));
    assert_eq!(next(&mut one), Some(ident("b")));
    assert_eq!(next(&mut two), Some(TokenType::Integer(2)));
    assert_eq!(next(&mut one), None);
    assert_eq!(next(&mut two), None);
}

#[test]
fn tokenize_gives_what_the_scan_gives() {
    let source = "fn f(x) -> y { x <= 3.5e2 } // end\n'c' \"s\" @";
    let mut lex = Lexer::new(source);
    let mut one_by_one = Vec::new();
    while let Some(found) = lex.next_token() {
        one_by_one.push(found);
    }
    assert_eq!(tokenize(source), one_by_one);
    assert_eq!(one_by_one.len(), 16);
}
