use vstd::prelude::*;

verus! {

/// Number of token categories.
pub const TOKEN_TYPE_COUNT: usize = 32;

/// The lexical category of a token.
#[derive(Clone, Copy, Debug, PartialEq, Eq, Structural, Hash)]
pub enum TokenType {
    // Grouping and punctuation
    LeftParen,
    RightParen,
    Comma,
    // Compound operators
    Assign,
    PlusEq,
    MinusEq,
    MultEq,
    DivEq,
    ModEq,
    ExpEq,
    // Relations
    Eq1,
    Eq2,
    Ne1,
    Ne2,
    Le,
    Ge,
    Lt,
    Gt,
    // Arithmetic and other single-character operators
    Dollar,
    Plus,
    Minus,
    Asterisk,
    Slash,
    Percent,
    Caret,
    Bang,
    Question,
    Colon,
    // Names
    Name,
    // Comments
    BlockComment,
    LineComment,
    // End of input
    Eof,
}

impl TokenType {
    /// Position of the category in the list of all categories.
    pub open spec fn ordinal(self) -> nat {
        match self {
            TokenType::LeftParen => 0,
            TokenType::RightParen => 1,
            TokenType::Comma => 2,
            TokenType::Assign => 3,
            TokenType::PlusEq => 4,
            TokenType::MinusEq => 5,
            TokenType::MultEq => 6,
            TokenType::DivEq => 7,
            TokenType::ModEq => 8,
            TokenType::ExpEq => 9,
            TokenType::Eq1 => 10,
            TokenType::Eq2 => 11,
            TokenType::Ne1 => 12,
            TokenType::Ne2 => 13,
            TokenType::Le => 14,
            TokenType::Ge => 15,
            TokenType::Lt => 16,
            TokenType::Gt => 17,
            TokenType::Dollar => 18,
            TokenType::Plus => 19,
            TokenType::Minus => 20,
            TokenType::Asterisk => 21,
            TokenType::Slash => 22,
            TokenType::Percent => 23,
            TokenType::Caret => 24,
            TokenType::Bang => 25,
            TokenType::Question => 26,
            TokenType::Colon => 27,
            TokenType::Name => 28,
            TokenType::BlockComment => 29,
            TokenType::LineComment => 30,
            TokenType::Eof => 31,
        }
    }

    /// The two-character spelling of a compound operator; empty for other categories.
    pub open spec fn compound_spelling(self) -> Seq<char> {
        match self {
            TokenType::Assign => seq![':', '='],
            TokenType::PlusEq => seq!['+', '='],
            TokenType::MinusEq => seq!['-', '='],
            TokenType::MultEq => seq!['*', '='],
            TokenType::DivEq => seq!['/', '='],
            TokenType::ModEq => seq!['%', '='],
            TokenType::ExpEq => seq!['^', '='],
            TokenType::Eq1 => seq!['=', '='],
            TokenType::Ne2 => seq!['!', '='],
            TokenType::Le => seq!['<', '='],
            TokenType::Ge => seq!['>', '='],
            _ => Seq::empty(),
        }
    }

    /// The one-character spelling of a simple operator; empty for other categories.
    pub open spec fn simple_spelling(self) -> Seq<char> {
        match self {
            TokenType::LeftParen => seq!['('],
            TokenType::RightParen => seq![')'],
            TokenType::Comma => seq![','],
            TokenType::Eq2 => seq!['='],
            TokenType::Ne1 => seq!['#'],
            TokenType::Lt => seq!['<'],
            TokenType::Gt => seq!['>'],
            TokenType::Dollar => seq!['$'],
            TokenType::Plus => seq!['+'],
            TokenType::Minus => seq!['-'],
            TokenType::Asterisk => seq!['*'],
            TokenType::Slash => seq!['/'],
            TokenType::Percent => seq!['%'],
            TokenType::Caret => seq!['^'],
            TokenType::Bang => seq!['!'],
            TokenType::Question => seq!['?'],
            TokenType::Colon => seq![':'],
            _ => Seq::empty(),
        }
    }

    /// The spelling of a compound operator, or `""` for any other category.
    pub fn compound_operator(self) -> (r: &'static str)
        ensures
            r@ == self.compound_spelling(),
    {
        match self {
            TokenType::Assign => {
                proof {
                    reveal_strlit(":=");
                }
                ":="
            },
            TokenType::PlusEq => {
                proof {
                    reveal_strlit("+=");
                }
                "+="
            },
            TokenType::MinusEq => {
                proof {
                    reveal_strlit("-=");
                }
                "-="
            },
            TokenType::MultEq => {
                proof {
                    reveal_strlit("*=");
                }
                "*="
            },
            TokenType::DivEq => {
                proof {
                    reveal_strlit("/=");
                }
                "/="
            },
            TokenType::ModEq => {
                proof {
                    reveal_strlit("%=");
                }
                "%="
            },
            TokenType::ExpEq => {
                proof {
                    reveal_strlit("^=");
                }
                "^="
            },
            TokenType::Eq1 => {
                proof {
                    reveal_strlit("==");
                }
                "=="
            },
            TokenType::Ne2 => {
                proof {
                    reveal_strlit("!=");
                }
                "!="
            },
            TokenType::Le => {
                proof {
                    reveal_strlit("<=");
                }
                "<="
            },
            TokenType::Ge => {
                proof {
                    reveal_strlit(">=");
                }
                ">="
            },
            _ => {
                proof {
                    reveal_strlit("");
                }
                ""
            },
        }
    }

    /// The spelling of a simple operator, or `""` for any other category.
    pub fn simple_operator(self) -> (r: &'static str)
        ensures
            r@ == self.simple_spelling(),
    {
        match self {
            TokenType::LeftParen => {
                proof {
                    reveal_strlit("(");
                }
                "("
            },
            TokenType::RightParen => {
                proof {
                    reveal_strlit(")");
                }
                ")"
            },
            TokenType::Comma => {
                proof {
                    reveal_strlit(",");
                }
                ","
            },
            TokenType::Eq2 => {
                proof {
                    reveal_strlit("=");
                }
                "="
            },
            TokenType::Ne1 => {
                proof {
                    reveal_strlit("#");
                }
                "#"
            },
            TokenType::Lt => {
                proof {
                    reveal_strlit("<");
                }
                "<"
            },
            TokenType::Gt => {
                proof {
                    reveal_strlit(">");
                }
                ">"
            },
            TokenType::Dollar => {
                proof {
                    reveal_strlit("$");
                }
                "$"
            },
            TokenType::Plus => {
                proof {
                    reveal_strlit("+");
                }
                "+"
            },
            TokenType::Minus => {
                proof {
                    reveal_strlit("-");
                }
                "-"
            },
            TokenType::Asterisk => {
                proof {
                    reveal_strlit("*");
                }
                "*"
            },
            TokenType::Slash => {
                proof {
                    reveal_strlit("/");
                }
                "/"
            },
            TokenType::Percent => {
                proof {
                    reveal_strlit("%");
                }
                "%"
            },
            TokenType::Caret => {
                proof {
                    reveal_strlit("^");
                }
                "^"
            },
            TokenType::Bang => {
                proof {
                    reveal_strlit("!");
                }
                "!"
            },
            TokenType::Question => {
                proof {
                    reveal_strlit("?");
                }
                "?"
            },
            TokenType::Colon => {
                proof {
                    reveal_strlit(":");
                }
                ":"
            },
            _ => {
                proof {
                    reveal_strlit("");
                }
                ""
            },
        }
    }

    /// The character of a single-character operator.
    pub fn punctuator(&self) -> (r: Option<char>)
        ensures
            r == if self.simple_spelling().len() == 1 {
                Some(self.simple_spelling()[0])
            } else {
                None::<char>
            },
    {
        match self {
            TokenType::LeftParen => Some('('),
            TokenType::RightParen => Some(')'),
            TokenType::Comma => Some(','),
            TokenType::Eq2 => Some('='),
            TokenType::Ne1 => Some('#'),
            TokenType::Lt => Some('<'),
            TokenType::Gt => Some('>'),
            TokenType::Dollar => Some('$'),
            TokenType::Plus => Some('+'),
            TokenType::Minus => Some('-'),
            TokenType::Asterisk => Some('*'),
            TokenType::Slash => Some('/'),
            TokenType::Percent => Some('%'),
            TokenType::Caret => Some('^'),
            TokenType::Bang => Some('!'),
            TokenType::Question => Some('?'),
            TokenType::Colon => Some(':'),
            _ => None,
        }
    }

    /// Every category, each once, in declaration order.
    pub fn iterator() -> (r: Vec<TokenType>)
        ensures
            r@.len() == TOKEN_TYPE_COUNT,
            forall|i: int| 0 <= i < r@.len() ==> (#[trigger] r@[i]).ordinal() == i,
            forall|t: TokenType| r@[t.ordinal() as int] == t,
    {
        let r: Vec<TokenType> = vec![
            TokenType::LeftParen,
            TokenType::RightParen,
            TokenType::Comma,
            TokenType::Assign,
            TokenType::PlusEq,
            TokenType::MinusEq,
            TokenType::MultEq,
            TokenType::DivEq,
            TokenType::ModEq,
            TokenType::ExpEq,
            TokenType::Eq1,
            TokenType::Eq2,
            TokenType::Ne1,
            TokenType::Ne2,
            TokenType::Le,
            TokenType::Ge,
            TokenType::Lt,
            TokenType::Gt,
            TokenType::Dollar,
            TokenType::Plus,
            TokenType::Minus,
            TokenType::Asterisk,
            TokenType::Slash,
            TokenType::Percent,
            TokenType::Caret,
            TokenType::Bang,
            TokenType::Question,
            TokenType::Colon,
            TokenType::Name,
            TokenType::BlockComment,
            TokenType::LineComment,
            TokenType::Eof,
        ];
        r
    }

    /// Index of the category in `iterator()`.
    pub fn index(self) -> (r: usize)
        ensures
            r == self.ordinal(),
            r < TOKEN_TYPE_COUNT,
    {
        match self {
            TokenType::LeftParen => 0,
            TokenType::RightParen => 1,
            TokenType::Comma => 2,
            TokenType::Assign => 3,
            TokenType::PlusEq => 4,
            TokenType::MinusEq => 5,
            TokenType::MultEq => 6,
            TokenType::DivEq => 7,
            TokenType::ModEq => 8,
            TokenType::ExpEq => 9,
            TokenType::Eq1 => 10,
            TokenType::Eq2 => 11,
            TokenType::Ne1 => 12,
            TokenType::Ne2 => 13,
            TokenType::Le => 14,
            TokenType::Ge => 15,
            TokenType::Lt => 16,
            TokenType::Gt => 17,
            TokenType::Dollar => 18,
            TokenType::Plus => 19,
            TokenType::Minus => 20,
            TokenType::Asterisk => 21,
            TokenType::Slash => 22,
            TokenType::Percent => 23,
            TokenType::Caret => 24,
            TokenType::Bang => 25,
            TokenType::Question => 26,
            TokenType::Colon => 27,
            TokenType::Name => 28,
            TokenType::BlockComment => 29,
            TokenType::LineComment => 30,
            TokenType::Eof => 31,
        }
    }

    /// Looks up the compound operator spelled `a` then `b`.
    pub fn from_compound(a: char, b: char) -> (r: Option<TokenType>)
        ensures
            r == compound_of(a, b),
    {
        if b != '=' {
            return None;
        }
        match a {
            ':' => Some(TokenType::Assign),
            '+' => Some(TokenType::PlusEq),
            '-' => Some(TokenType::MinusEq),
            '*' => Some(TokenType::MultEq),
            '/' => Some(TokenType::DivEq),
            '%' => Some(TokenType::ModEq),
            '^' => Some(TokenType::ExpEq),
            '=' => Some(TokenType::Eq1),
            '!' => Some(TokenType::Ne2),
            '<' => Some(TokenType::Le),
            '>' => Some(TokenType::Ge),
            _ => None,
        }
    }

    /// Looks up the simple operator spelled `c`.
    pub fn from_simple(c: char) -> (r: Option<TokenType>)
        ensures
            r == simple_of(c),
    {
        match c {
            '(' => Some(TokenType::LeftParen),
            ')' => Some(TokenType::RightParen),
            ',' => Some(TokenType::Comma),
            '=' => Some(TokenType::Eq2),
            '#' => Some(TokenType::Ne1),
            '<' => Some(TokenType::Lt),
            '>' => Some(TokenType::Gt),
            '$' => Some(TokenType::Dollar),
            '+' => Some(TokenType::Plus),
            '-' => Some(TokenType::Minus),
            '*' => Some(TokenType::Asterisk),
            '/' => Some(TokenType::Slash),
            '%' => Some(TokenType::Percent),
            '^' => Some(TokenType::Caret),
            '!' => Some(TokenType::Bang),
            '?' => Some(TokenType::Question),
            ':' => Some(TokenType::Colon),
            _ => None,
        }
    }

    /// The category at position `n` of the list of all categories.
    pub open spec fn from_ordinal(n: nat) -> TokenType {
        if n == 0 {
            TokenType::LeftParen
        } else if n == 1 {
            TokenType::RightParen
        } else if n == 2 {
            TokenType::Comma
        } else if n == 3 {
            TokenType::Assign
        } else if n == 4 {
            TokenType::PlusEq
        } else if n == 5 {
            TokenType::MinusEq
        } else if n == 6 {
            TokenType::MultEq
        } else if n == 7 {
            TokenType::DivEq
        } else if n == 8 {
            TokenType::ModEq
        } else if n == 9 {
            TokenType::ExpEq
        } else if n == 10 {
            TokenType::Eq1
        } else if n == 11 {
            TokenType::Eq2
        } else if n == 12 {
            TokenType::Ne1
        } else if n == 13 {
            TokenType::Ne2
        } else if n == 14 {
            TokenType::Le
        } else if n == 15 {
            TokenType::Ge
        } else if n == 16 {
            TokenType::Lt
        } else if n == 17 {
            TokenType::Gt
        } else if n == 18 {
            TokenType::Dollar
        } else if n == 19 {
            TokenType::Plus
        } else if n == 20 {
            TokenType::Minus
        } else if n == 21 {
            TokenType::Asterisk
        } else if n == 22 {
            TokenType::Slash
        } else if n == 23 {
            TokenType::Percent
        } else if n == 24 {
            TokenType::Caret
        } else if n == 25 {
            TokenType::Bang
        } else if n == 26 {
            TokenType::Question
        } else if n == 27 {
            TokenType::Colon
        } else if n == 28 {
            TokenType::Name
        } else if n == 29 {
            TokenType::BlockComment
        } else if n == 30 {
            TokenType::LineComment
        } else {
            TokenType::Eof
        }
    }

    /// Distinct categories have distinct positions.
    pub proof fn lemma_ordinal_injective(a: TokenType, b: TokenType)
        ensures
            a.ordinal() == b.ordinal() ==> a == b,
    {
        assert(TokenType::from_ordinal(a.ordinal()) == a);
        assert(TokenType::from_ordinal(b.ordinal()) == b);
    }
}

/// The category of the compound operator spelled `a` then `b`.
pub open spec fn compound_of(a: char, b: char) -> Option<TokenType> {
    if b != '=' {
        None
    } else {
        match a {
            ':' => Some(TokenType::Assign),
            '+' => Some(TokenType::PlusEq),
            '-' => Some(TokenType::MinusEq),
            '*' => Some(TokenType::MultEq),
            '/' => Some(TokenType::DivEq),
            '%' => Some(TokenType::ModEq),
            '^' => Some(TokenType::ExpEq),
            '=' => Some(TokenType::Eq1),
            '!' => Some(TokenType::Ne2),
            '<' => Some(TokenType::Le),
            '>' => Some(TokenType::Ge),
            _ => None,
        }
    }
}

/// The category of the simple operator spelled `c`.
pub open spec fn simple_of(c: char) -> Option<TokenType> {
    match c {
        '(' => Some(TokenType::LeftParen),
        ')' => Some(TokenType::RightParen),
        ',' => Some(TokenType::Comma),
        '=' => Some(TokenType::Eq2),
        '#' => Some(TokenType::Ne1),
        '<' => Some(TokenType::Lt),
        '>' => Some(TokenType::Gt),
        '$' => Some(TokenType::Dollar),
        '+' => Some(TokenType::Plus),
        '-' => Some(TokenType::Minus),
        '*' => Some(TokenType::Asterisk),
        '/' => Some(TokenType::Slash),
        '%' => Some(TokenType::Percent),
        '^' => Some(TokenType::Caret),
        '!' => Some(TokenType::Bang),
        '?' => Some(TokenType::Question),
        ':' => Some(TokenType::Colon),
        _ => None,
    }
}

/// The lookup of operators by their characters agrees with the spellings: `a` then `b`
/// is looked up as `t` exactly when `t` is spelled `a` then `b`, and `a` alone exactly
/// when `t` is spelled `a`.
pub proof fn lemma_spellings_agree(t: TokenType, a: char, b: char)
    ensures
        compound_of(a, b) == Some(t) <==> t.compound_spelling() == seq![a, b],
        simple_of(a) == Some(t) <==> t.simple_spelling() == seq![a],
{
    if t.compound_spelling() == seq![a, b] {
        assert(t.compound_spelling()[0] == a && t.compound_spelling()[1] == b);
    }
    if compound_of(a, b) == Some(t) {
        assert(t.compound_spelling() =~= seq![a, b]);
    }
    if t.simple_spelling() == seq![a] {
        assert(t.simple_spelling()[0] == a);
    }
    if simple_of(a) == Some(t) {
        assert(t.simple_spelling() =~= seq![a]);
    }
}

/// A lexeme: its category and the exact text matched.
#[derive(Clone, Debug, PartialEq, Eq)]
pub struct Token {
    pub token_type: TokenType,
    pub text: String,
}

impl View for Token {
    type V = (TokenType, Seq<char>);

    open spec fn view(&self) -> (TokenType, Seq<char>) {
        (self.token_type, self.text@)
    }
}

impl Token {
    /// A token of category `token_type` whose text is `text`.
    pub fn new(token_type: TokenType, text: String) -> (r: Token)
        ensures
            r.token_type == token_type,
            r.text@ == text@,
    {
        Token { token_type, text }
    }
}

} // verus!
