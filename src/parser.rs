use vstd::prelude::*;

use std::collections::VecDeque;

use crate::error::{ErrorModel, SyntaxError, pulled_view};
use crate::lexer::{
    Lexer,
    is_eof,
    lemma_later_pull_closer,
    lemma_pull_advances,
    position_after,
    pulled,
};
use crate::registry::{Parselet, PrefixParselet, Registry};
use crate::token::{Token, TokenType};

verus! {

/// A parsed expression; each node owns its children.
#[derive(Debug, PartialEq, Eq)]
pub enum Expr {
    /// A name standing alone.
    Name(String),
    /// A unary operator applied to its operand.
    Prefix { operator: TokenType, operand: Box<Expr> },
    /// A binary operator between two operands.
    Binary { left: Box<Expr>, operator: TokenType, right: Box<Expr> },
    /// A parenthesised expression.
    Group(Box<Expr>),
}

/// The mathematical value of an `Expr`.
pub enum Tree {
    Name(Seq<char>),
    Prefix(TokenType, Box<Tree>),
    Binary(Box<Tree>, TokenType, Box<Tree>),
    Group(Box<Tree>),
}

impl Expr {
    /// The mathematical value of the expression.
    pub open spec fn tree(&self) -> Tree
        decreases self,
    {
        match self {
            Expr::Name(name) => Tree::Name(name@),
            Expr::Prefix { operator, operand } => Tree::Prefix(*operator, Box::new(operand.tree())),
            Expr::Binary { left, operator, right } => Tree::Binary(
                Box::new(left.tree()),
                *operator,
                Box::new(right.tree()),
            ),
            Expr::Group(inner) => Tree::Group(Box::new(inner.tree())),
        }
    }
}

/// A parse result: the tree and the number of tokens pulled before the first one not used.
pub type Parsed = Result<(Tree, nat), ErrorModel>;

/// How much input is left after `k` pulls; every recursive step of parsing lowers it.
pub open spec fn input_left(s: Seq<char>, start: nat, k: nat) -> int {
    s.len() - position_after(s, start, k)
}

/// Parses an expression from pull `k` on, continuing only with operators whose precedence
/// exceeds `min`: a prefix parselet for the first token, then `climb`.
///
/// A successful parse always ends past where it began (`Parser::parse_expression` proves
/// this of its result), so each test `k < k2` below holds; it is written out so that the
/// recursion visibly moves forward.
pub open spec fn parse_from(g: Registry, s: Seq<char>, start: nat, k: nat, min: nat) -> Parsed
    decreases input_left(s, start, k), 1int,
{
    match pulled(s, start, k) {
        Err(e) => Err(e),
        Ok((t, text)) => {
            if t == TokenType::Eof {
                Err(ErrorModel::UnexpectedEndOfInput)
            } else {
                proof {
                    lemma_pull_advances(s, start, k);
                }
                match g.prefix_of(t) {
                    None => Err(ErrorModel::UnexpectedToken(t, text)),
                    Some(PrefixParselet::Name) => climb(g, s, start, Tree::Name(text), k + 1, min),
                    Some(PrefixParselet::Operator { precedence }) => {
                        match parse_from(g, s, start, k + 1, precedence as nat) {
                            Err(e) => Err(e),
                            Ok((operand, k2)) => {
                                if k < k2 {
                                    proof {
                                        lemma_later_pull_closer(s, start, k, k2);
                                    }
                                    climb(g, s, start, Tree::Prefix(t, Box::new(operand)), k2, min)
                                } else {
                                    Err(ErrorModel::UnexpectedEndOfInput)
                                }
                            },
                        }
                    },
                    Some(PrefixParselet::Group) => {
                        match parse_from(g, s, start, k + 1, 0) {
                            Err(e) => Err(e),
                            Ok((inner, k2)) => {
                                match pulled(s, start, k2) {
                                    Err(e) => Err(e),
                                    Ok((t2, text2)) => {
                                        if t2 == TokenType::RightParen && k < k2 {
                                            proof {
                                                lemma_later_pull_closer(s, start, k, k2 + 1);
                                            }
                                            climb(
                                                g,
                                                s,
                                                start,
                                                Tree::Group(Box::new(inner)),
                                                k2 + 1,
                                                min,
                                            )
                                        } else if t2 == TokenType::Eof {
                                            Err(ErrorModel::UnexpectedEndOfInput)
                                        } else {
                                            Err(ErrorModel::UnexpectedToken(t2, text2))
                                        }
                                    },
                                }
                            },
                        }
                    },
                }
            }
        },
    }
}

/// Extends `left`, which ends before pull `k`, with every operator whose precedence exceeds
/// `min`; the right operand of an operator of precedence `p` is parsed above `p`, or above
/// `p - 1` where the operator is right-associative. Where `Eof` has an infix parselet that
/// binds tighter than `min`, its right operand could only be `Eof` again: the parse fails
/// with `UnexpectedEndOfInput`.
pub open spec fn climb(g: Registry, s: Seq<char>, start: nat, left: Tree, k: nat, min: nat) -> Parsed
    decreases input_left(s, start, k), 0int,
{
    match pulled(s, start, k) {
        Err(e) => Err(e),
        Ok((t, text)) => {
            let p = g.precedence_of(t);
            if p > min && t == TokenType::Eof {
                Err(ErrorModel::UnexpectedEndOfInput)
            } else if p > min {
                proof {
                    lemma_pull_advances(s, start, k);
                }
                let right_min: nat = if g.infix_of(t)->0.right_associative {
                    (p - 1) as nat
                } else {
                    p as nat
                };
                match parse_from(g, s, start, k + 1, right_min) {
                    Err(e) => Err(e),
                    Ok((right, k2)) => {
                        if k < k2 {
                            proof {
                                lemma_later_pull_closer(s, start, k, k2);
                            }
                            climb(g, s, start, Tree::Binary(Box::new(left), t, Box::new(right)), k2, min)
                        } else {
                            Err(ErrorModel::UnexpectedEndOfInput)
                        }
                    },
                }
            } else {
                Ok((left, k))
            }
        },
    }
}

/// A Pratt parser: a lookahead buffer over a tokenizer, and a registry of parselets.
pub struct Parser {
    lexer: Lexer,
    read: VecDeque<Token>,
    registry: Registry,
    start: Ghost<nat>,
    consumed: Ghost<nat>,
}

impl Parser {
    /// The source text of the tokenizer.
    pub closed spec fn source(&self) -> Seq<char> {
        self.lexer.source()
    }

    /// The tokenizer's position when it was handed to the parser.
    pub closed spec fn start(&self) -> nat {
        self.start@
    }

    /// How many tokens have been consumed.
    pub closed spec fn consumed(&self) -> nat {
        self.consumed@
    }

    /// The parselets in force.
    pub closed spec fn grammar(&self) -> Registry {
        self.registry
    }

    /// The token stream: what pull `k` of the tokenizer gives.
    pub open spec fn stream(&self, k: nat) -> crate::error::Pulled {
        pulled(self.source(), self.start(), k)
    }

    /// The buffer holds, in order, the tokens pulled but not yet consumed.
    pub closed spec fn wf(&self) -> bool {
        &&& self.lexer.wf()
        &&& self.registry.wf()
        &&& self.lexer.position() == position_after(
            self.lexer.source(),
            self.start@,
            self.consumed@ + self.read@.len(),
        )
        &&& forall|j: int|
            0 <= j < self.read@.len() ==> #[trigger] pulled(
                self.lexer.source(),
                self.start@,
                (self.consumed@ + j) as nat,
            ) == Ok::<(TokenType, Seq<char>), ErrorModel>(self.read@[j]@)
    }

    /// Whether `other` reads the same stream with the same parselets.
    pub open spec fn same_stream(&self, other: &Parser) -> bool {
        &&& self.source() == other.source()
        &&& self.start() == other.start()
        &&& self.grammar() == other.grammar()
    }

    /// A parser with no parselets over the tokens that `lexer` gives from now on.
    pub fn new(lexer: Lexer) -> (r: Parser)
        requires
            lexer.wf(),
        ensures
            r.wf(),
            r.source() == lexer.source(),
            r.start() == lexer.position(),
            r.consumed() == 0,
            r.grammar().wf(),
            forall|t: TokenType| r.grammar().prefix_of(t) is None && r.grammar().infix_of(t) is None,
    {
        Parser::with_registry(lexer, Registry::new())
    }

    /// A parser with the parselets of `registry` over the tokens that `lexer` gives from now on.
    pub fn with_registry(lexer: Lexer, registry: Registry) -> (r: Parser)
        requires
            lexer.wf(),
            registry.wf(),
        ensures
            r.wf(),
            r.source() == lexer.source(),
            r.start() == lexer.position(),
            r.consumed() == 0,
            r.grammar() == registry,
    {
        let ghost start = lexer.position();
        Parser {
            lexer,
            read: VecDeque::new(),
            registry,
            start: Ghost(start),
            consumed: Ghost(0),
        }
    }

    /// Binds `parselet` to `token`; see `Registry::register`.
    pub fn register(&mut self, token: TokenType, parselet: Parselet)
        requires
            old(self).wf(),
        ensures
            final(self).wf(),
            final(self).source() == old(self).source(),
            final(self).start() == old(self).start(),
            final(self).consumed() == old(self).consumed(),
            forall|t: TokenType|
                #![auto]
                final(self).grammar().prefix_of(t) == if t == token && parselet is Prefix {
                    Some(parselet->Prefix_0)
                } else {
                    old(self).grammar().prefix_of(t)
                },
            forall|t: TokenType|
                #![auto]
                final(self).grammar().infix_of(t) == if t == token && parselet is Infix {
                    Some(parselet->Infix_0)
                } else {
                    old(self).grammar().infix_of(t)
                },
    {
        self.registry.register(token, parselet);
    }

    /// Pulls one token from the tokenizer into the back of the buffer.
    fn fill(&mut self) -> (r: Result<(), SyntaxError>)
        requires
            old(self).wf(),
        ensures
            final(self).same_stream(old(self)),
            match old(self).stream(old(self).consumed() + old(self).read@.len()) {
                Ok(_) => {
                    &&& r is Ok
                    &&& final(self).wf()
                    &&& final(self).same_stream(old(self))
                    &&& final(self).consumed() == old(self).consumed()
                    &&& final(self).read@.len() == old(self).read@.len() + 1
                },
                Err(e) => r is Err && r->Err_0@ == e,
            },
    {
        let ghost k = self.consumed@ + self.read@.len();
        let pulled_token = self.lexer.next();
        match pulled_token {
            Ok(token) => {
                self.read.push_back(token);
                assert forall|j: int| 0 <= j < self.read@.len() implies #[trigger] pulled(
                    self.lexer.source(),
                    self.start@,
                    (self.consumed@ + j) as nat,
                ) == Ok::<(TokenType, Seq<char>), ErrorModel>(self.read@[j]@) by {
                    if j == self.read@.len() - 1 {
                        assert((self.consumed@ + j) as nat == k);
                    }
                }
                Ok(())
            },
            Err(e) => Err(e),
        }
    }

    /// The token `distance` places ahead of the next one to be consumed, pulling as many
    /// tokens as that takes; nothing is consumed.
    pub fn look_ahead(&mut self, distance: usize) -> (r: Result<Token, SyntaxError>)
        requires
            old(self).wf(),
        ensures
            final(self).same_stream(old(self)),
            r is Ok <==> forall|j: nat| j <= distance ==> !(#[trigger] old(self).stream(
                old(self).consumed() + j,
            ) is Err),
            r is Ok ==> {
                &&& final(self).wf()
                &&& final(self).same_stream(old(self))
                &&& final(self).consumed() == old(self).consumed()
                &&& old(self).stream((old(self).consumed() + distance) as nat) == Ok::<
                    (TokenType, Seq<char>),
                    ErrorModel,
                >(r->Ok_0@)
            },
            r is Err ==> exists|j: nat|
                j <= distance && #[trigger] old(self).stream(old(self).consumed() + j) == Err::<
                    (TokenType, Seq<char>),
                    ErrorModel,
                >(r->Err_0@),
    {
        let ghost before = *self;
        while self.read.len() <= distance
            invariant
                before == *old(self),
                self.wf(),
                self.same_stream(&before),
                self.consumed() == before.consumed(),
                forall|j: nat| j < self.read@.len() ==> !(#[trigger] before.stream(before.consumed() + j) is Err),
            decreases distance + 1 - self.read@.len(),
        {
            let ghost n = self.read@.len();
            match self.fill() {
                Ok(()) => {
                    assert forall|j: nat| j < self.read@.len() implies !(#[trigger] before.stream(before.consumed() + j) is Err) by {
                        if j < n {
                        } else {
                            assert(j == n);
                        }
                    }
                },
                Err(e) => {
                    assert(before.stream(before.consumed() + n) == Err::<(TokenType, Seq<char>), ErrorModel>(e@));
                    return Err(e);
                },
            }
        }
        let token = &self.read[distance];
        let r = Token { token_type: token.token_type, text: token.text.clone() };
        assert(self.stream((self.consumed() + distance) as nat) == Ok::<(TokenType, Seq<char>), ErrorModel>(r@));
        assert forall|j: nat| j <= distance implies !(#[trigger] before.stream(before.consumed() + j) is Err) by {
            assert(j < self.read@.len());
        }
        Ok(r)
    }

    /// Removes and returns the next token.
    pub fn consume(&mut self) -> (r: Result<Token, SyntaxError>)
        requires
            old(self).wf(),
        ensures
            final(self).same_stream(old(self)),
            pulled_view(r) == old(self).stream(old(self).consumed()),
            r is Ok ==> {
                &&& final(self).wf()
                &&& final(self).same_stream(old(self))
                &&& final(self).consumed() == old(self).consumed() + 1
            },
    {
        if self.read.len() == 0 {
            match self.fill() {
                Ok(()) => {},
                Err(e) => {
                    return Err(e);
                },
            }
        }
        let ghost before = *self;
        let front = self.read.pop_front();
        match front {
            Some(token) => {
                self.consumed = Ghost(self.consumed@ + 1);
                assert(pulled(before.lexer.source(), before.start@, (before.consumed@ + 0) as nat)
                    == Ok::<(TokenType, Seq<char>), ErrorModel>(before.read@[0]@));
                assert forall|j: int| 0 <= j < self.read@.len() implies #[trigger] pulled(
                    self.lexer.source(),
                    self.start@,
                    (self.consumed@ + j) as nat,
                ) == Ok::<(TokenType, Seq<char>), ErrorModel>(self.read@[j]@) by {
                    assert(before.read@[j + 1] == self.read@[j]);
                    assert((before.consumed@ + (j + 1)) as nat == (self.consumed@ + j) as nat);
                }
                Ok(token)
            },
            None => Err(SyntaxError::UnexpectedEndOfInput),
        }
    }
    /// Consumes the next token if it is of category `expected`; fails otherwise, with
    /// `UnexpectedEndOfInput` at the end of the input and `UnexpectedToken` elsewhere.
    pub fn consume_expecting(&mut self, expected: TokenType) -> (r: Result<Token, SyntaxError>)
        requires
            old(self).wf(),
        ensures
            final(self).same_stream(old(self)),
            match old(self).stream(old(self).consumed()) {
                Err(e) => r is Err && r->Err_0@ == e,
                Ok((t, text)) => {
                    if t == expected {
                        &&& r is Ok
                        &&& r->Ok_0@ == (t, text)
                        &&& final(self).wf()
                        &&& final(self).same_stream(old(self))
                        &&& final(self).consumed() == old(self).consumed() + 1
                    } else if t == TokenType::Eof {
                        &&& r is Err
                        &&& r->Err_0@ == ErrorModel::UnexpectedEndOfInput
                        &&& final(self).wf()
                        &&& final(self).consumed() == old(self).consumed()
                    } else {
                        &&& r is Err
                        &&& r->Err_0@ == ErrorModel::UnexpectedToken(t, text)
                        &&& final(self).wf()
                        &&& final(self).consumed() == old(self).consumed()
                    }
                },
            },
    {
        let next = self.look_ahead(0);
        match next {
            Err(e) => Err(e),
            Ok(token) => {
                if token.token_type == expected {
                    self.consume()
                } else if token.token_type == TokenType::Eof {
                    Err(SyntaxError::UnexpectedEndOfInput)
                } else {
                    Err(SyntaxError::UnexpectedToken { token })
                }
            },
        }
    }

    /// Consumes the next token if it is of category `expected`, and says whether it did;
    /// otherwise nothing changes.
    pub fn match_if(&mut self, expected: TokenType) -> (r: Result<bool, SyntaxError>)
        requires
            old(self).wf(),
        ensures
            final(self).same_stream(old(self)),
            match old(self).stream(old(self).consumed()) {
                Err(e) => r is Err && r->Err_0@ == e,
                Ok((t, _)) => {
                    &&& r == Ok::<bool, SyntaxError>(t == expected)
                    &&& final(self).wf()
                    &&& final(self).same_stream(old(self))
                    &&& final(self).consumed() == old(self).consumed() + if t == expected {
                        1int
                    } else {
                        0int
                    }
                },
            },
    {
        let next = self.look_ahead(0);
        match next {
            Err(e) => Err(e),
            Ok(token) => {
                if token.token_type == expected {
                    match self.consume() {
                        Ok(_) => Ok(true),
                        Err(e) => Err(e),
                    }
                } else {
                    Ok(false)
                }
            },
        }
    }

    /// The precedence with which the next token would continue an expression.
    fn get_precedence(&mut self) -> (r: Result<u32, SyntaxError>)
        requires
            old(self).wf(),
        ensures
            final(self).same_stream(old(self)),
            match old(self).stream(old(self).consumed()) {
                Err(e) => r is Err && r->Err_0@ == e,
                Ok((t, _)) => {
                    &&& r == Ok::<u32, SyntaxError>(old(self).grammar().precedence_of(t))
                    &&& final(self).wf()
                    &&& final(self).same_stream(old(self))
                    &&& final(self).consumed() == old(self).consumed()
                },
            },
    {
        let next = self.look_ahead(0);
        match next {
            Err(e) => Err(e),
            Ok(token) => Ok(self.registry.precedence(token.token_type)),
        }
    }

    /// How much input is left before the next token to be consumed.
    pub open spec fn input_left(&self) -> int {
        input_left(self.source(), self.start(), self.consumed())
    }

    /// Parses one expression, continuing only with operators whose precedence exceeds
    /// `precedence`. Tokens after the expression stay unconsumed.
    pub fn parse_expression(&mut self, precedence: u32) -> (r: Result<Expr, SyntaxError>)
        requires
            old(self).wf(),
        ensures
            final(self).same_stream(old(self)),
            match parse_from(
                old(self).grammar(),
                old(self).source(),
                old(self).start(),
                old(self).consumed(),
                precedence as nat,
            ) {
                Ok((tree, k)) => {
                    &&& r is Ok
                    &&& r->Ok_0.tree() == tree
                    &&& final(self).wf()
                    &&& final(self).same_stream(old(self))
                    &&& final(self).consumed() == k
                    &&& old(self).consumed() < k
                },
                Err(e) => r is Err && r->Err_0@ == e,
            },
            old(self).stream(old(self).consumed()) matches Ok((t, _)) && (t == TokenType::Eof
                || old(self).grammar().prefix_of(t) is None) ==> {
                &&& final(self).wf()
                &&& final(self).consumed() == old(self).consumed() + 1
            },
        decreases old(self).input_left(), 1int,
    {
        let ghost before = *self;
        let ghost g = self.grammar();
        let ghost s = self.source();
        let ghost start = self.start();
        let ghost k0 = self.consumed();
        let token = match self.consume() {
            Ok(token) => token,
            Err(e) => {
                return Err(e);
            },
        };
        if token.token_type == TokenType::Eof {
            return Err(SyntaxError::UnexpectedEndOfInput);
        }
        proof {
            lemma_pull_advances(s, start, k0);
        }
        let mut left = match self.registry.prefix(token.token_type) {
            None => {
                return Err(SyntaxError::UnexpectedToken { token });
            },
            Some(PrefixParselet::Name) => Expr::Name(token.text),
            Some(PrefixParselet::Operator { precedence: operand_precedence }) => {
                let operand = match self.parse_expression(operand_precedence) {
                    Ok(e) => e,
                    Err(e) => {
                        return Err(e);
                    },
                };
                proof {
                    lemma_later_pull_closer(s, start, k0, self.consumed());
                }
                Expr::Prefix { operator: token.token_type, operand: Box::new(operand) }
            },
            Some(PrefixParselet::Group) => {
                let inner = match self.parse_expression(0) {
                    Ok(e) => e,
                    Err(e) => {
                        return Err(e);
                    },
                };
                proof {
                    lemma_later_pull_closer(s, start, k0, self.consumed() + 1);
                }
                match self.consume_expecting(TokenType::RightParen) {
                    Ok(_) => {},
                    Err(e) => {
                        return Err(e);
                    },
                }
                Expr::Group(Box::new(inner))
            },
        };
        loop
            invariant
                self.wf(),
                self.same_stream(&before),
                g == before.grammar(),
                s == before.source(),
                start == before.start(),
                k0 == before.consumed(),
                before == *old(self),
                k0 < self.consumed(),
                !is_eof(pulled(s, start, k0)),
                !(before.stream(k0) matches Ok((t, _)) && (t == TokenType::Eof
                    || g.prefix_of(t) is None)),
                climb(g, s, start, left.tree(), self.consumed(), precedence as nat) == parse_from(
                    g,
                    s,
                    start,
                    k0,
                    precedence as nat,
                ),
            decreases self.input_left(),
        {
            let ghost k = self.consumed();
            proof {
                lemma_later_pull_closer(s, start, k0, k);
            }
            let p = match self.get_precedence() {
                Ok(p) => p,
                Err(e) => {
                    return Err(e);
                },
            };
            if p <= precedence {
                return Ok(left);
            }
            let operator = match self.consume() {
                Ok(t) => t,
                Err(e) => {
                    return Err(e);
                },
            };
            if operator.token_type == TokenType::Eof {
                return Err(SyntaxError::UnexpectedEndOfInput);
            }
            proof {
                lemma_pull_advances(s, start, k);
                lemma_later_pull_closer(s, start, k0, k + 1);
            }
            let right_precedence = match self.registry.infix(operator.token_type) {
                Some(rule) => {
                    if rule.right_associative {
                        p - 1
                    } else {
                        p
                    }
                },
                None => p,
            };
            let right = match self.parse_expression(right_precedence) {
                Ok(e) => e,
                Err(e) => {
                    return Err(e);
                },
            };
            proof {
                lemma_later_pull_closer(s, start, k, self.consumed());
            }
            left = Expr::Binary { left: Box::new(left), operator: operator.token_type, right: Box::new(right) };
        }
    }
}

} // verus!
