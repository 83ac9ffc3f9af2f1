use rcc::is_keyword;
use rcc::is_symbol;
use rcc::Lexer;
use rcc::Token;

/// Pull every token out of `input`, in order.
fn all_tokens(input: &str) -> Vec<Token> {
    let mut lexer = Lexer::new(input);
    let mut tokens = Vec::new();
    while let Some(token) = lexer.next_token() {
        tokens.push(token);
    }
    tokens
}

/// Pull every token out of `input`, discarding `Whitespace` markers.
fn visible_tokens(input: &str) -> Vec<Token> {
    all_tokens(input)
        .into_iter()
        .filter(|t| !matches!(t, Token::Whitespace))
        .collect()
}

#[test]
fn is_keyword_valid() {
    assert_eq!(is_keyword("return"), true, "return should be made a keyword if failed.");
    assert_eq!(is_keyword("hello"), false, "hello should NOT be a keyword.");
}

#[test]
fn is_symbol_valid() {
    assert_eq!(is_symbol('|'), false, "Pipe is not yet supported as a symbol, should be removed.");
    assert_eq!(is_symbol(';'), true, "semi-colon should be made a valid symbol.");
}

#[test]
fn lexer_basic_operations() {
    let contents = "int main(void) { return 0; }";

    let mut lexer = Lexer::new(contents);
    let mut tokens = Vec::new();

    while let Some(token) = lexer.next_token() {
        match token {
            Token::Whitespace => continue, // Skip whitespace tokens
            _ => tokens.push(token),      // Collect other tokens
        }
    }

    let expected_tokens = vec![
        Token::Keyword("int".to_string()),
        Token::Identifier("main".to_string()),
        Token::Symbol('('),
        Token::Keyword("void".to_string()),
        Token::Symbol(')'),
        Token::Symbol('{'),
        Token::Keyword("return".to_string()),
        Token::Number("0".to_string()),
        Token::Symbol(';'),
        Token::Symbol('}'),
    ];

    assert_eq!(tokens, expected_tokens, "The lexer did not produce the expected tokens.");
}

#[test]
fn reconstruction_without_whitespace() {
    let input = "foo+12;bar(){}@#";
    let mut rebuilt = String::new();
    for token in all_tokens(input) {
        match token {
            Token::Keyword(w) | Token::Identifier(w) | Token::Number(w) => rebuilt.push_str(&w),
            Token::Symbol(c) | Token::Unknown(c) => rebuilt.push(c),
            Token::Whitespace => panic!("no whitespace in this input"),
        }
    }
    assert_eq!(rebuilt, input);
}

#[test]
fn reconstruction_with_spaces() {
    // Every whitespace character in this input is a plain space, and each
    // Whitespace marker stands for exactly one consumed whitespace character,
    // so the input can be rebuilt token by token.
    let input = "int  x = 42 ;";
    let mut rebuilt = String::new();
    for token in all_tokens(input) {
        match token {
            Token::Keyword(w) | Token::Identifier(w) | Token::Number(w) => rebuilt.push_str(&w),
            Token::Symbol(c) | Token::Unknown(c) => rebuilt.push(c),
            Token::Whitespace => rebuilt.push(' '),
        }
    }
    assert_eq!(rebuilt, input);
}

#[test]
fn totality_bounded_calls_then_none_forever() {
    let input = "a 1+~";
    let mut lexer = Lexer::new(input);
    let mut pulls = 0;
    while let Some(_) = lexer.next_token() {
        pulls += 1;
        assert!(pulls <= input.chars().count(), "more tokens than characters");
    }
    assert_eq!(pulls, 5);
    assert_eq!(lexer.next_token(), None);
    assert_eq!(lexer.next_token(), None);
}

#[test]
fn maximal_munch_digits() {
    assert_eq!(all_tokens("1234"), vec![Token::Number("1234".to_string())]);
    assert_eq!(all_tokens("007"), vec![Token::Number("007".to_string())]);
}

#[test]
fn maximal_munch_identifiers() {
    assert_eq!(
        all_tokens("while9 while"),
        vec![
            Token::Identifier("while9".to_string()),
            Token::Whitespace,
            Token::Keyword("while".to_string()),
        ]
    );
    assert_eq!(all_tokens("_foo1"), vec![Token::Identifier("_foo1".to_string())]);
}

#[test]
fn keyword_exactness() {
    assert!(is_keyword("return"));
    assert!(!is_keyword("returning"));
    assert!(!is_keyword("Return"));
    for word in ["if", "else", "for", "while", "int", "return", "void"] {
        assert!(is_keyword(word));
    }
    assert!(!is_keyword(""));
    assert!(!is_keyword("in"));
}

#[test]
fn symbol_exactness() {
    assert!(is_symbol(';'));
    assert!(!is_symbol('|'));
    assert!(is_symbol('='));
    for c in ['+', '-', '*', '/', '=', '<', '>', ';', ',', '(', ')', '{', '}'] {
        assert!(is_symbol(c));
    }
    assert_eq!(all_tokens("=="), vec![Token::Symbol('='), Token::Symbol('=')]);
}

#[test]
fn unknown_fallback() {
    let mut lexer = Lexer::new("@");
    assert_eq!(lexer.next_token(), Some(Token::Unknown('@')));
    assert_eq!(lexer.next_token(), None);
}

#[test]
fn unknown_takes_non_ascii() {
    assert_eq!(visible_tokens("a\u{20AC}b"), vec![
        Token::Identifier("a".to_string()),
        Token::Unknown('\u{20AC}'),
        Token::Identifier("b".to_string()),
    ]);
}

#[test]
fn empty_input() {
    let mut lexer = Lexer::new("");
    assert_eq!(lexer.next_token(), None);
}

#[test]
fn mixed_digit_letter() {
    assert_eq!(all_tokens("3x"), vec![
        Token::Number("3".to_string()),
        Token::Identifier("x".to_string()),
    ]);
}

#[test]
fn one_whitespace_token_per_character() {
    assert_eq!(all_tokens("  "), vec![Token::Whitespace, Token::Whitespace]);
    assert_eq!(all_tokens("\t\n"), vec![Token::Whitespace, Token::Whitespace]);
    // U+00A0 (no-break space) has the Unicode White_Space property.
    assert_eq!(all_tokens("\u{00A0}"), vec![Token::Whitespace]);
}
