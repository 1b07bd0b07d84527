use vstd::prelude::*;

use crate::token::{TOKEN_TYPE_COUNT, TokenType};

verus! {

/// How a token that starts an expression is parsed.
#[derive(Clone, Copy, Debug, PartialEq, Eq, Structural)]
pub enum PrefixParselet {
    /// The token is a whole expression by itself.
    Name,
    /// A parenthesised expression: the inner expression, then a closing parenthesis.
    Group,
    /// A unary operator whose operand is parsed with the given precedence.
    Operator { precedence: u32 },
}

/// How an operator that continues an expression is parsed.
#[derive(Clone, Copy, Debug, PartialEq, Eq, Structural)]
pub struct InfixParselet {
    /// Binding strength: higher binds tighter; 0 never continues an expression.
    pub precedence: u32,
    /// Whether an operator of equal precedence on the right groups to the right.
    pub right_associative: bool,
}

/// A parselet of either kind.
#[derive(Clone, Copy, Debug, PartialEq, Eq, Structural)]
pub enum Parselet {
    Prefix(PrefixParselet),
    Infix(InfixParselet),
}

/// Maps each token category to at most one prefix and at most one infix parselet.
pub struct Registry {
    prefix: Vec<Option<PrefixParselet>>,
    infix: Vec<Option<InfixParselet>>,
}

impl Registry {
    /// One slot of each kind per token category.
    pub closed spec fn wf(&self) -> bool {
        &&& self.prefix@.len() == TOKEN_TYPE_COUNT
        &&& self.infix@.len() == TOKEN_TYPE_COUNT
    }

    /// The prefix parselet registered for `t`.
    pub closed spec fn prefix_of(&self, t: TokenType) -> Option<PrefixParselet> {
        self.prefix@[t.ordinal() as int]
    }

    /// The infix parselet registered for `t`.
    pub closed spec fn infix_of(&self, t: TokenType) -> Option<InfixParselet> {
        self.infix@[t.ordinal() as int]
    }

    /// The precedence with which `t` continues an expression: that of its infix
    /// parselet, and 0 where it has none.
    pub open spec fn precedence_of(&self, t: TokenType) -> u32 {
        match self.infix_of(t) {
            Some(p) => p.precedence,
            None => 0,
        }
    }

    /// A registry with no parselets.
    pub fn new() -> (r: Registry)
        ensures
            r.wf(),
            forall|t: TokenType| r.prefix_of(t) is None && r.infix_of(t) is None,
    {
        let mut prefix: Vec<Option<PrefixParselet>> = Vec::new();
        let mut infix: Vec<Option<InfixParselet>> = Vec::new();
        let mut i: usize = 0;
        while i < TOKEN_TYPE_COUNT
            invariant
                i <= TOKEN_TYPE_COUNT,
                prefix@.len() == i,
                infix@.len() == i,
                forall|j: int| 0 <= j < i ==> prefix@[j] is None && infix@[j] is None,
            decreases TOKEN_TYPE_COUNT - i,
        {
            prefix.push(None);
            infix.push(None);
            i = i + 1;
        }
        Registry { prefix, infix }
    }

    /// Binds `parselet` to `token_type`, replacing the binding of the same kind.
    pub fn register(&mut self, token_type: TokenType, parselet: Parselet)
        requires
            old(self).wf(),
        ensures
            final(self).wf(),
            forall|t: TokenType|
                #![auto]
                final(self).prefix_of(t) == if t == token_type && parselet is Prefix {
                    Some(parselet->Prefix_0)
                } else {
                    old(self).prefix_of(t)
                },
            forall|t: TokenType|
                #![auto]
                final(self).infix_of(t) == if t == token_type && parselet is Infix {
                    Some(parselet->Infix_0)
                } else {
                    old(self).infix_of(t)
                },
    {
        let i = token_type.index();
        match parselet {
            Parselet::Prefix(p) => {
                self.prefix.set(i, Some(p));
            },
            Parselet::Infix(p) => {
                self.infix.set(i, Some(p));
            },
        }
        assert forall|t: TokenType| t.ordinal() == token_type.ordinal() implies t == token_type by {
            TokenType::lemma_ordinal_injective(t, token_type);
        }
    }

    /// The prefix parselet registered for `token_type`.
    pub fn prefix(&self, token_type: TokenType) -> (r: Option<PrefixParselet>)
        requires
            self.wf(),
        ensures
            r == self.prefix_of(token_type),
    {
        self.prefix[token_type.index()]
    }

    /// The infix parselet registered for `token_type`.
    pub fn infix(&self, token_type: TokenType) -> (r: Option<InfixParselet>)
        requires
            self.wf(),
        ensures
            r == self.infix_of(token_type),
    {
        self.infix[token_type.index()]
    }

    /// The precedence with which `token_type` continues an expression.
    pub fn precedence(&self, token_type: TokenType) -> (r: u32)
        requires
            self.wf(),
        ensures
            r == self.precedence_of(token_type),
    {
        match self.infix(token_type) {
            Some(p) => p.precedence,
            None => 0,
        }
    }
}

/// Precedence of `+` and `-` between operands.
pub const SUM: u32 = 3;

/// Precedence of `*`, `/` and `%`.
pub const PRODUCT: u32 = 4;

/// Precedence of `^`, which groups to the right.
pub const EXPONENT: u32 = 5;

/// Precedence with which the operand of a unary `+`, `-` or `!` is parsed.
pub const PREFIX: u32 = 6;

/// The prefix parselets of the default grammar.
pub open spec fn standard_prefix(t: TokenType) -> Option<PrefixParselet> {
    match t {
        TokenType::Name => Some(PrefixParselet::Name),
        TokenType::LeftParen => Some(PrefixParselet::Group),
        TokenType::Plus | TokenType::Minus | TokenType::Bang => Some(
            PrefixParselet::Operator { precedence: PREFIX },
        ),
        _ => None,
    }
}

/// The infix parselets of the default grammar.
pub open spec fn standard_infix(t: TokenType) -> Option<InfixParselet> {
    match t {
        TokenType::Plus | TokenType::Minus => Some(
            InfixParselet { precedence: SUM, right_associative: false },
        ),
        TokenType::Asterisk | TokenType::Slash | TokenType::Percent => Some(
            InfixParselet { precedence: PRODUCT, right_associative: false },
        ),
        TokenType::Caret => Some(InfixParselet { precedence: EXPONENT, right_associative: true }),
        _ => None,
    }
}

impl Registry {
    /// The default grammar: names and parenthesised groups; unary `+`, `-` and `!`;
    /// `+ -` below `* / %`, all left-associative; `^` above them, right-associative.
    pub fn standard() -> (r: Registry)
        ensures
            r.wf(),
            forall|t: TokenType| #[trigger] r.prefix_of(t) == standard_prefix(t),
            forall|t: TokenType| #[trigger] r.infix_of(t) == standard_infix(t),
    {
        let mut r = Registry::new();
        let unary = PrefixParselet::Operator { precedence: PREFIX };
        let sum = InfixParselet { precedence: SUM, right_associative: false };
        let product = InfixParselet { precedence: PRODUCT, right_associative: false };
        let exponent = InfixParselet { precedence: EXPONENT, right_associative: true };
        r.register(TokenType::Name, Parselet::Prefix(PrefixParselet::Name));
        r.register(TokenType::LeftParen, Parselet::Prefix(PrefixParselet::Group));
        r.register(TokenType::Plus, Parselet::Prefix(unary));
        r.register(TokenType::Minus, Parselet::Prefix(unary));
        r.register(TokenType::Bang, Parselet::Prefix(unary));
        r.register(TokenType::Plus, Parselet::Infix(sum));
        r.register(TokenType::Minus, Parselet::Infix(sum));
        r.register(TokenType::Asterisk, Parselet::Infix(product));
        r.register(TokenType::Slash, Parselet::Infix(product));
        r.register(TokenType::Percent, Parselet::Infix(product));
        r.register(TokenType::Caret, Parselet::Infix(exponent));
        r
    }
}

} // verus!
