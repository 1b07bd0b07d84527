pub mod error;
pub mod lexer;
pub mod parser;
pub mod registry;
pub mod token;

pub use error::SyntaxError;
pub use lexer::Lexer;
pub use parser::{Expr, Parser};
pub use registry::{InfixParselet, Parselet, PrefixParselet, Registry};
pub use token::{Token, TokenType};
