use pratt::registry::{EXPONENT, PREFIX, PRODUCT, SUM};
use pratt::{
    Expr, InfixParselet, Lexer, Parselet, Parser, PrefixParselet, Registry, SyntaxError, Token,
    TokenType,
};

fn standard(source: &str) -> Parser {
    Parser::with_registry(Lexer::new(source), Registry::standard())
}

fn name(n: &str) -> Expr {
    Expr::Name(String::from(n))
}

fn binary(left: Expr, operator: TokenType, right: Expr) -> Expr {
    Expr::Binary {
        left: Box::new(left),
        operator,
        right: Box::new(right),
    }
}

fn token(token_type: TokenType, text: &str) -> Token {
    Token {
        token_type,
        text: String::from(text),
    }
}

#[test]
fn product_binds_tighter_than_sum() {
    let mut parser = standard("a + b * c");
    assert_eq!(
        parser.parse_expression(0),
        Ok(binary(
            name("a"),
            TokenType::Plus,
            binary(name("b"), TokenType::Asterisk, name("c"))
        ))
    );
}

#[test]
fn minus_is_left_associative() {
    let mut parser = standard("a - b - c");
    assert_eq!(
        parser.parse_expression(0),
        Ok(binary(
            binary(name("a"), TokenType::Minus, name("b")),
            TokenType::Minus,
            name("c")
        ))
    );
}

#[test]
fn caret_is_right_associative() {
    let mut parser = standard("a ^ b ^ c");
    assert_eq!(
        parser.parse_expression(0),
        Ok(binary(
            name("a"),
            TokenType::Caret,
            binary(name("b"), TokenType::Caret, name("c"))
        ))
    );
}

#[test]
fn grouping_overrides_precedence() {
    let mut parser = standard("(a + b) * c");
    assert_eq!(
        parser.parse_expression(0),
        Ok(binary(
            Expr::Group(Box::new(binary(name("a"), TokenType::Plus, name("b")))),
            TokenType::Asterisk,
            name("c")
        ))
    );
}

#[test]
fn unary_operators() {
    let mut parser = standard("-a * !b");
    assert_eq!(
        parser.parse_expression(0),
        Ok(binary(
            Expr::Prefix {
                operator: TokenType::Minus,
                operand: Box::new(name("a")),
            },
            TokenType::Asterisk,
            Expr::Prefix {
                operator: TokenType::Bang,
                operand: Box::new(name("b")),
            }
        ))
    );
}

#[test]
fn unknown_leading_token_is_unexpected() {
    let mut parser = standard(")");
    assert_eq!(
        parser.parse_expression(0),
        Err(SyntaxError::UnexpectedToken {
            token: token(TokenType::RightParen, ")"),
        })
    );
}

#[test]
fn empty_input_is_end_of_input() {
    let mut parser = standard("");
    assert_eq!(
        parser.parse_expression(0),
        Err(SyntaxError::UnexpectedEndOfInput)
    );
    let mut parser = standard("a +");
    assert_eq!(
        parser.parse_expression(0),
        Err(SyntaxError::UnexpectedEndOfInput)
    );
}

#[test]
fn unclosed_group_fails() {
    let mut parser = standard("(a + b");
    assert_eq!(
        parser.parse_expression(0),
        Err(SyntaxError::UnexpectedEndOfInput)
    );
    let mut parser = standard("(a b)");
    assert_eq!(
        parser.parse_expression(0),
        Err(SyntaxError::UnexpectedToken {
            token: token(TokenType::Name, "b"),
        })
    );
}

#[test]
fn lexing_errors_reach_the_caller() {
    let mut parser = standard("a + /* open");
    assert_eq!(
        parser.parse_expression(0),
        Err(SyntaxError::UnterminatedComment {
            text: String::from("/* open"),
        })
    );
}

#[test]
fn trailing_tokens_stay_for_the_next_call() {
    let mut parser = standard("a * b c");
    assert_eq!(
        parser.parse_expression(0),
        Ok(binary(name("a"), TokenType::Asterisk, name("b")))
    );
    assert_eq!(parser.parse_expression(0), Ok(name("c")));
    assert_eq!(parser.consume(), Ok(token(TokenType::Eof, "")));
}

#[test]
fn minimum_precedence_stops_the_climb() {
    let mut parser = standard("a + b");
    assert_eq!(parser.parse_expression(SUM), Ok(name("a")));
    assert_eq!(parser.consume(), Ok(token(TokenType::Plus, "+")));
}

#[test]
fn empty_registry_parses_nothing() {
    let mut parser = Parser::new(Lexer::new("a"));
    assert_eq!(
        parser.parse_expression(0),
        Err(SyntaxError::UnexpectedToken {
            token: token(TokenType::Name, "a"),
        })
    );
}

#[test]
fn registered_parselets_are_used() {
    let mut parser = Parser::new(Lexer::new("a ? b ? c"));
    parser.register(TokenType::Name, Parselet::Prefix(PrefixParselet::Name));
    parser.register(
        TokenType::Question,
        Parselet::Infix(InfixParselet {
            precedence: 1,
            right_associative: true,
        }),
    );
    assert_eq!(
        parser.parse_expression(0),
        Ok(binary(
            name("a"),
            TokenType::Question,
            binary(name("b"), TokenType::Question, name("c"))
        ))
    );
}

#[test]
fn look_ahead_does_not_consume() {
    let mut parser = standard("a , b");
    assert_eq!(parser.look_ahead(2), Ok(token(TokenType::Name, "b")));
    assert_eq!(parser.look_ahead(5), Ok(token(TokenType::Eof, "")));
    assert_eq!(parser.look_ahead(0), Ok(token(TokenType::Name, "a")));
    assert_eq!(parser.consume(), Ok(token(TokenType::Name, "a")));
    assert_eq!(parser.look_ahead(0), Ok(token(TokenType::Comma, ",")));
}

#[test]
fn match_if_consumes_only_on_match() {
    let mut parser = standard("a , b");
    assert_eq!(parser.match_if(TokenType::Comma), Ok(false));
    assert_eq!(parser.match_if(TokenType::Name), Ok(true));
    assert_eq!(parser.match_if(TokenType::Comma), Ok(true));
    assert_eq!(parser.consume(), Ok(token(TokenType::Name, "b")));
}

#[test]
fn consume_expecting_checks_the_category() {
    let mut parser = standard("a )");
    assert_eq!(
        parser.consume_expecting(TokenType::RightParen),
        Err(SyntaxError::UnexpectedToken {
            token: token(TokenType::Name, "a"),
        })
    );
    assert_eq!(
        parser.consume_expecting(TokenType::Name),
        Ok(token(TokenType::Name, "a"))
    );
    assert_eq!(
        parser.consume_expecting(TokenType::RightParen),
        Ok(token(TokenType::RightParen, ")"))
    );
    assert_eq!(
        parser.consume_expecting(TokenType::RightParen),
        Err(SyntaxError::UnexpectedEndOfInput)
    );
}

#[test]
fn standard_registry_precedences() {
    let registry = Registry::standard();
    assert_eq!(registry.precedence(TokenType::Plus), SUM);
    assert_eq!(registry.precedence(TokenType::Percent), PRODUCT);
    assert_eq!(registry.precedence(TokenType::Caret), EXPONENT);
    assert_eq!(registry.precedence(TokenType::Name), 0);
    assert_eq!(registry.precedence(TokenType::Eof), 0);
    assert_eq!(
        registry.prefix(TokenType::Minus),
        Some(PrefixParselet::Operator { precedence: PREFIX })
    );
    assert_eq!(registry.prefix(TokenType::LeftParen), Some(PrefixParselet::Group));
    assert_eq!(registry.prefix(TokenType::Asterisk), None);
    assert_eq!(
        registry.infix(TokenType::Caret),
        Some(InfixParselet {
            precedence: EXPONENT,
            right_associative: true,
        })
    );
    assert_eq!(registry.infix(TokenType::Bang), None);
}

#[test]
fn register_replaces_one_kind_only() {
    let mut registry = Registry::new();
    assert_eq!(registry.prefix(TokenType::Minus), None);
    registry.register(TokenType::Minus, Parselet::Prefix(PrefixParselet::Name));
    registry.register(
        TokenType::Minus,
        Parselet::Infix(InfixParselet {
            precedence: 2,
            right_associative: false,
        }),
    );
    registry.register(TokenType::Minus, Parselet::Prefix(PrefixParselet::Group));
    assert_eq!(registry.prefix(TokenType::Minus), Some(PrefixParselet::Group));
    assert_eq!(registry.precedence(TokenType::Minus), 2);
}

#[test]
fn eof_takes_its_registered_precedence() {
    let mut registry = Registry::new();
    assert_eq!(registry.precedence(TokenType::Eof), 0);
    registry.register(
        TokenType::Eof,
        Parselet::Infix(InfixParselet {
            precedence: 7,
            right_associative: false,
        }),
    );
    assert_eq!(registry.precedence(TokenType::Eof), 7);
}

#[test]
fn eof_as_operator_ends_in_end_of_input() {
    let mut parser = standard("a + b");
    parser.register(
        TokenType::Eof,
        Parselet::Infix(InfixParselet {
            precedence: 1,
            right_associative: false,
        }),
    );
    assert_eq!(
        parser.parse_expression(0),
        Err(SyntaxError::UnexpectedEndOfInput)
    );
    let mut parser = standard("a + b");
    parser.register(
        TokenType::Eof,
        Parselet::Infix(InfixParselet {
            precedence: 1,
            right_associative: false,
        }),
    );
    assert_eq!(parser.parse_expression(1), Ok(binary(name("a"), TokenType::Plus, name("b"))));
}

#[test]
fn missing_prefix_consumes_exactly_that_token() {
    let mut parser = standard(") a");
    assert_eq!(
        parser.parse_expression(0),
        Err(SyntaxError::UnexpectedToken {
            token: token(TokenType::RightParen, ")"),
        })
    );
    assert_eq!(parser.consume(), Ok(token(TokenType::Name, "a")));
}
