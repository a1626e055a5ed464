//! The lexical analyzer: source text in, tokens out.

use vstd::prelude::*;
use crate::lexer::chars::{chars_of, run, run_end, CharClass};
use crate::lexer::rules::{lemma_token_in_bounds, token_at, tokens, tokens_from};
use crate::lexer::scan::token_here;

pub mod chars;
pub mod laws;
pub mod number;
pub mod prefix;
pub mod rules;
pub mod scan;

verus! {

/// The lexical categories, each with the value that its token carries.
#[derive(Clone, Debug, PartialEq)]
pub enum TokenType {
    /// A comment that runs to the end of its line.
    LineComment,
    /// A comment between `/*` and the nearest `*/`.
    BlockComment,
    /// An identifier, with its text.
    Ident(String),
    /// The `let` keyword.
    Declaration,
    /// The `const` keyword.
    ConstantDeclaration,
    /// The `fn` keyword.
    FuncInitiator,
    /// The `->` that precedes a return type.
    FuncReturn,
    /// `(`
    ParenthesesOpen,
    /// `)`
    ParenthesesClose,
    /// `{`
    BracesOpen,
    /// `}`
    BracesClose,
    /// The assignment operator `=`.
    Assign,
    /// The addition operator `+`.
    Plus,
    /// The increment operator `+=`.
    PlusEq,
    /// The equality operator `==`.
    Eq,
    /// The operator `<`.
    Lt,
    /// The operator `>`.
    Gt,
    /// The operator `<=`.
    Le,
    /// The operator `>=`.
    Ge,
    /// The logical operator `||`.
    Or,
    /// The logical operator `&&`.
    And,
    /// An integer literal, with its value; a suffix `k` or `m` is already
    /// multiplied in.
    Integer(i64),
    /// A floating-point literal, with its text as written: sign, digits,
    /// point, digits and the optional exponent. Rounding it to a binary
    /// floating-point number is left to the caller.
    Float(String),
    /// A character literal, with the character between the quotes.
    Char(char),
    /// A string literal, with the text between the quotes. A backslash
    /// escapes nothing.
    String(String),
    /// Input that no rule matches, or an integer literal whose value cannot
    /// be held in 64 bits.
    Invalid,
}

/// The model of a token type: the category together with the value as a
/// mathematical object. The variants are those of [`TokenType`]; text is a
/// sequence of characters, and an integer is unbounded.
pub enum Lexeme {
    LineComment,
    BlockComment,
    Ident(Seq<char>),
    Declaration,
    ConstantDeclaration,
    FuncInitiator,
    FuncReturn,
    ParenthesesOpen,
    ParenthesesClose,
    BracesOpen,
    BracesClose,
    Assign,
    Plus,
    PlusEq,
    Eq,
    Lt,
    Gt,
    Le,
    Ge,
    Or,
    And,
    Integer(int),
    Float(Seq<char>),
    Char(char),
    String(Seq<char>),
    Invalid,
}

impl View for TokenType {
    type V = Lexeme;

    open spec fn view(&self) -> Lexeme {
        match self {
            TokenType::LineComment => Lexeme::LineComment,
            TokenType::BlockComment => Lexeme::BlockComment,
            TokenType::Ident(text) => Lexeme::Ident(text@),
            TokenType::Declaration => Lexeme::Declaration,
            TokenType::ConstantDeclaration => Lexeme::ConstantDeclaration,
            TokenType::FuncInitiator => Lexeme::FuncInitiator,
            TokenType::FuncReturn => Lexeme::FuncReturn,
            TokenType::ParenthesesOpen => Lexeme::ParenthesesOpen,
            TokenType::ParenthesesClose => Lexeme::ParenthesesClose,
            TokenType::BracesOpen => Lexeme::BracesOpen,
            TokenType::BracesClose => Lexeme::BracesClose,
            TokenType::Assign => Lexeme::Assign,
            TokenType::Plus => Lexeme::Plus,
            TokenType::PlusEq => Lexeme::PlusEq,
            TokenType::Eq => Lexeme::Eq,
            TokenType::Lt => Lexeme::Lt,
            TokenType::Gt => Lexeme::Gt,
            TokenType::Le => Lexeme::Le,
            TokenType::Ge => Lexeme::Ge,
            TokenType::Or => Lexeme::Or,
            TokenType::And => Lexeme::And,
            TokenType::Integer(value) => Lexeme::Integer(*value as int),
            TokenType::Float(text) => Lexeme::Float(text@),
            TokenType::Char(c) => Lexeme::Char(*c),
            TokenType::String(text) => Lexeme::String(text@),
            TokenType::Invalid => Lexeme::Invalid,
        }
    }
}

/// One matched lexical unit.
#[derive(Clone, Debug, PartialEq)]
pub struct Token {
    /// The number of characters of the source that the match consumed.
    pub length: usize,
    /// The category of the match, with its value.
    pub token_type: TokenType,
}

/// The model of a token.
pub struct TokenView {
    /// The number of characters that the token covers.
    pub length: nat,
    /// The category of the token, with its value.
    pub kind: Lexeme,
}

impl View for Token {
    type V = TokenView;

    open spec fn view(&self) -> TokenView {
        TokenView { length: self.length as nat, kind: self.token_type@ }
    }
}

/// The models of a sequence of tokens.
pub open spec fn views(tokens: Seq<Token>) -> Seq<TokenView> {
    tokens.map_values(|t: Token| t@)
}

/// A scan of one source text: the text and a cursor into it. Each scan has a
/// cursor of its own.
pub struct Lexer {
    chars: Vec<char>,
    cursor: usize,
}

impl Lexer {
    #[verifier::type_invariant]
    spec fn cursor_in_source(self) -> bool {
        self.cursor <= self.chars.len()
    }

    /// The characters of the text that is scanned.
    pub closed spec fn source(self) -> Seq<char> {
        self.chars@
    }

    /// The index in the source at which the scan stands.
    pub closed spec fn position(self) -> nat {
        self.cursor as nat
    }

    /// The tokens that the scan has yet to give.
    pub open spec fn remaining(self) -> Seq<TokenView> {
        tokens_from(self.source(), self.position() as int)
    }

    /// Starts a scan of `source` at its first character.
    pub fn new(source: &str) -> (lexer: Lexer)
        ensures
            lexer.source() == source@,
            lexer.position() == 0,
            lexer.remaining() == tokens(source@),
    {
        Lexer { chars: chars_of(source), cursor: 0 }
    }

    /// The number of characters that the scan has passed, whitespace
    /// included. Right after a token was given, the token ends here.
    pub fn offset(&self) -> (n: usize)
        ensures
            n == self.position(),
            n <= self.source().len(),
    {
        proof {
            use_type_invariant(self);
        }
        self.cursor
    }

    /// Gives the next token and moves past it, or gives `None` once nothing
    /// but whitespace is left. The token starts at the first character at or
    /// after the cursor that is no whitespace.
    pub fn next_token(&mut self) -> (next: Option<Token>)
        ensures
            final(self).source() == old(self).source(),
            final(self).position() <= final(self).source().len(),
            next is Some ==> final(self).position() > old(self).position(),
            ({
                let s = old(self).source();
                let start = old(self).position() + run(
                    s,
                    old(self).position() as int,
                    CharClass::Space,
                );
                match next {
                    Some(token) => {
                        &&& start < s.len()
                        &&& token@ == token_at(s, start as int)
                        &&& token.length >= 1
                        &&& final(self).position() == start + token.length
                    },
                    None => start == s.len() && final(self).position() == s.len(),
                }
            }),
            old(self).remaining() == match next {
                Some(token) => seq![token@] + final(self).remaining(),
                None => Seq::empty(),
            },
            next is None ==> final(self).remaining() == Seq::<TokenView>::empty(),
    {
        proof {
            use_type_invariant(&*self);
        }
        let start = run_end(&self.chars, self.cursor, CharClass::Space);
        if start < self.chars.len() {
            let token = token_here(&self.chars, start);
            proof {
                lemma_token_in_bounds(self.chars@, start as int);
            }
            self.cursor = start + token.length;
            Some(token)
        } else {
            self.cursor = start;
            None
        }
    }
}

/// The tokens of `input`, in the order in which they stand in it.
pub fn tokenize(input: &str) -> (found: Vec<Token>)
    ensures
        views(found@) == tokens(input@),
{
    let mut lexer = Lexer::new(input);
    let mut found: Vec<Token> = Vec::new();
    let mut next = lexer.next_token();
    assert(views(found@) =~= Seq::<TokenView>::empty());
    while next.is_some()
        invariant
            lexer.source() == input@,
            lexer.position() <= lexer.source().len(),
            tokens(input@) == views(found@) + match next {
                Some(token) => seq![token@] + lexer.remaining(),
                None => Seq::empty(),
            },
        decreases
            lexer.source().len() - lexer.position() + if next is Some {
                1int
            } else {
                0int
            },
    {
        let token = next.unwrap();
        let ghost before = views(found@);
        found.push(token);
        assert(views(found@) =~= before + seq![token@]);
        next = lexer.next_token();
    }
    found
}

} // verus!
