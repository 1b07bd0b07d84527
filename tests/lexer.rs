use pratt::lexer::{TokenStart, token_start};
use pratt::{Lexer, SyntaxError, Token, TokenType};

fn get_obs(source: &str) -> Vec<Token> {
    let mut lexer = Lexer::new(source);
    let mut obs = vec![];
    loop {
        let token = lexer.next().expect("the input lexes");
        if token.token_type == TokenType::Eof {
            break;
        }
        obs.push(token);
    }
    obs
}

fn token(token_type: TokenType, text: &str) -> Token {
    Token {
        token_type,
        text: String::from(text),
    }
}

#[test]
fn test_next() {
    let obs = get_obs("from + offset(time)");
    let expected = vec![
        token(TokenType::Name, "from"),
        token(TokenType::Plus, "+"),
        token(TokenType::Name, "offset"),
        token(TokenType::LeftParen, "("),
        token(TokenType::Name, "time"),
        token(TokenType::RightParen, ")"),
    ];
    assert_eq!(format!("{:?}", obs), format!("{:?}", expected));
}

#[test]
fn test_assign_vs_comma() {
    let mut obs = get_obs("a := b");
    let mut expected = vec![
        token(TokenType::Name, "a"),
        token(TokenType::Assign, ":="),
        token(TokenType::Name, "b"),
    ];
    assert_eq!(format!("{:?}", obs), format!("{:?}", expected));

    obs = get_obs("a:b");
    expected = vec![
        token(TokenType::Name, "a"),
        token(TokenType::Colon, ":"),
        token(TokenType::Name, "b"),
    ];
    assert_eq!(format!("{:?}", obs), format!("{:?}", expected));
}

#[test]
fn test_relations() {
    let mut obs = get_obs("a == b");
    let mut expected = vec![
        token(TokenType::Name, "a"),
        token(TokenType::Eq1, "=="),
        token(TokenType::Name, "b"),
    ];
    assert_eq!(format!("{:?}", obs), format!("{:?}", expected));

    obs = get_obs("a <= b");
    expected = vec![
        token(TokenType::Name, "a"),
        token(TokenType::Le, "<="),
        token(TokenType::Name, "b"),
    ];
    assert_eq!(format!("{:?}", obs), format!("{:?}", expected));
}

#[test]
fn test_line_comment() {
    let obs = get_obs("// This is a line comment.");
    let expected = vec![token(TokenType::LineComment, "// This is a line comment.")];
    assert_eq!(format!("{:?}", obs), format!("{:?}", expected));
}

#[test]
fn test_block_comment() {
    let mut obs = get_obs("/* This is a block comment.*/");
    let mut expected = vec![token(
        TokenType::BlockComment,
        "/* This is a block comment.*/",
    )];
    assert_eq!(format!("{:?}", obs), format!("{:?}", expected));

    obs = get_obs(
        "
/* This is also a
 * block
 * comment.
 */
 ",
    );
    expected = vec![token(
        TokenType::BlockComment,
        "/* This is also a\n * block\n * comment.\n */",
    )];
    assert_eq!(format!("{:?}", obs), format!("{:?}", expected));
}

#[test]
fn test_block_comment_unterminated() {
    let mut lexer = Lexer::new("/* This is an unfinished block comment.*");
    assert_eq!(
        lexer.next(),
        Err(SyntaxError::UnterminatedComment {
            text: String::from("/* This is an unfinished block comment.*"),
        })
    );
    assert_eq!(lexer.next(), Ok(token(TokenType::Eof, "")));
}

#[test]
fn test_block_comment_unterminated_with_opener() {
    let mut lexer = Lexer::new("/* This one is even worse./*");
    assert_eq!(
        lexer.next(),
        Err(SyntaxError::UnterminatedComment {
            text: String::from("/* This one is even worse./*"),
        })
    );
}

#[test]
fn never_closed_comment_is_an_error() {
    let mut lexer = Lexer::new("/* never closed");
    assert_eq!(
        lexer.next(),
        Err(SyntaxError::UnterminatedComment {
            text: String::from("/* never closed"),
        })
    );
}

#[test]
fn whitespace_and_comments_give_only_comments() {
    let mut lexer = Lexer::new("  // x\n\t/* y */ \r\n");
    assert_eq!(lexer.next(), Ok(token(TokenType::LineComment, "// x")));
    assert_eq!(lexer.next(), Ok(token(TokenType::BlockComment, "/* y */")));
    assert_eq!(lexer.next(), Ok(token(TokenType::Eof, "")));
}

#[test]
fn comments_keep_their_delimiters() {
    assert_eq!(get_obs("// x"), vec![token(TokenType::LineComment, "// x")]);
    assert_eq!(get_obs("/* x */"), vec![token(TokenType::BlockComment, "/* x */")]);
    assert_eq!(get_obs("   \n\t "), vec![]);
}

#[test]
fn block_comment_closes_at_first_terminator() {
    assert_eq!(
        get_obs("/* a **/ b"),
        vec![
            token(TokenType::BlockComment, "/* a **/"),
            token(TokenType::Name, "b"),
        ]
    );
}

#[test]
fn line_comment_stops_before_line_break() {
    assert_eq!(
        get_obs("// one\r\ntwo"),
        vec![
            token(TokenType::LineComment, "// one"),
            token(TokenType::Name, "two"),
        ]
    );
}

#[test]
fn assign_is_one_token() {
    assert_eq!(get_obs(":="), vec![token(TokenType::Assign, ":=")]);
    assert_eq!(
        get_obs(":b"),
        vec![token(TokenType::Colon, ":"), token(TokenType::Name, "b")]
    );
}

#[test]
fn comparisons_are_told_apart() {
    assert_eq!(get_obs("=="), vec![token(TokenType::Eq1, "==")]);
    assert_eq!(get_obs("<="), vec![token(TokenType::Le, "<=")]);
    assert_eq!(get_obs("<"), vec![token(TokenType::Lt, "<")]);
    assert_eq!(get_obs(">="), vec![token(TokenType::Ge, ">=")]);
    assert_eq!(get_obs("!="), vec![token(TokenType::Ne2, "!=")]);
    assert_eq!(get_obs("#"), vec![token(TokenType::Ne1, "#")]);
    assert_eq!(get_obs("="), vec![token(TokenType::Eq2, "=")]);
}

#[test]
fn compound_assignments() {
    assert_eq!(
        get_obs("+= -= *= /= %= ^="),
        vec![
            token(TokenType::PlusEq, "+="),
            token(TokenType::MinusEq, "-="),
            token(TokenType::MultEq, "*="),
            token(TokenType::DivEq, "/="),
            token(TokenType::ModEq, "%="),
            token(TokenType::ExpEq, "^="),
        ]
    );
}

#[test]
fn eof_repeats_forever() {
    let mut lexer = Lexer::new("a");
    assert_eq!(lexer.next(), Ok(token(TokenType::Name, "a")));
    for _ in 0..5 {
        assert_eq!(lexer.next(), Ok(token(TokenType::Eof, "")));
    }
}

#[test]
fn unknown_characters_are_skipped() {
    assert_eq!(
        get_obs("a1b @ 7"),
        vec![token(TokenType::Name, "a"), token(TokenType::Name, "b")]
    );
}

#[test]
fn names_may_be_non_ascii() {
    assert_eq!(
        get_obs("über straße"),
        vec![
            token(TokenType::Name, "über"),
            token(TokenType::Name, "straße"),
        ]
    );
}

#[test]
fn token_start_decisions() {
    assert_eq!(
        token_start(':', Some('='), false),
        TokenStart::Compound(TokenType::Assign)
    );
    assert_eq!(
        token_start(':', Some('b'), false),
        TokenStart::Simple(TokenType::Colon)
    );
    assert_eq!(token_start('/', Some('/'), false), TokenStart::LineComment);
    assert_eq!(token_start('/', Some('*'), false), TokenStart::BlockComment);
    assert_eq!(
        token_start('/', Some('='), false),
        TokenStart::Compound(TokenType::DivEq)
    );
    assert_eq!(token_start('/', None, false), TokenStart::Simple(TokenType::Slash));
    assert_eq!(token_start('x', None, true), TokenStart::Name);
    assert_eq!(token_start(' ', Some('x'), false), TokenStart::Skip);
}
