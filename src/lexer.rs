use vstd::prelude::*;

use crate::error::{ErrorModel, Pulled, SyntaxError, pulled_view};
use crate::token::{Token, TokenType, compound_of, simple_of};

verus! {

/// Whether `c` has the Unicode Alphabetic property.
pub uninterp spec fn alphabetic(c: char) -> bool;

/// Relies on `char::is_alphabetic`: whether the character is alphabetic.
#[verifier::external_body]
fn is_alphabetic(c: char) -> (r: bool)
    ensures
        r == alphabetic(c),
{
    c.is_alphabetic()
}

/// Relies on `String::push`: appends one character at the end.
#[verifier::external_body]
fn push_char(s: &mut String, c: char)
    ensures
        final(s)@ == old(s)@.push(c),
{
    s.push(c)
}

/// What the character under the cursor begins.
#[derive(Clone, Copy, Debug, PartialEq, Eq, Structural)]
pub enum TokenStart {
    /// A two-character operator of the given category.
    Compound(TokenType),
    /// `//`.
    LineComment,
    /// `/*`.
    BlockComment,
    /// A one-character operator of the given category.
    Simple(TokenType),
    /// A run of alphabetic characters.
    Name,
    /// A character that belongs to no token.
    Skip,
}

/// What `c` begins, given the character after it and whether `c` is alphabetic:
/// the longest operator first, then comments, then simple operators, then names.
pub open spec fn start_of(c: char, next: Option<char>, c_alphabetic: bool) -> TokenStart {
    if next is Some && compound_of(c, next->0) is Some {
        TokenStart::Compound(compound_of(c, next->0)->0)
    } else if c == '/' && next == Some('/') {
        TokenStart::LineComment
    } else if c == '/' && next == Some('*') {
        TokenStart::BlockComment
    } else if simple_of(c) is Some {
        TokenStart::Simple(simple_of(c)->0)
    } else if c_alphabetic {
        TokenStart::Name
    } else {
        TokenStart::Skip
    }
}

/// Decides what `c` begins, given the character after it and whether `c` is alphabetic.
pub fn token_start(c: char, next: Option<char>, c_alphabetic: bool) -> (r: TokenStart)
    ensures
        r == start_of(c, next, c_alphabetic),
{
    if let Some(d) = next {
        if let Some(t) = TokenType::from_compound(c, d) {
            return TokenStart::Compound(t);
        }
        if c == '/' && d == '/' {
            return TokenStart::LineComment;
        }
        if c == '/' && d == '*' {
            return TokenStart::BlockComment;
        }
    }
    if let Some(t) = TokenType::from_simple(c) {
        TokenStart::Simple(t)
    } else if c_alphabetic {
        TokenStart::Name
    } else {
        TokenStart::Skip
    }
}

/// The character at `i`, if any.
pub open spec fn char_at(s: Seq<char>, i: int) -> Option<char> {
    if 0 <= i < s.len() {
        Some(s[i])
    } else {
        None
    }
}

/// The first index from `j` on that holds a line break, or the end of `s`.
pub open spec fn line_end(s: Seq<char>, j: int) -> int
    decreases s.len() - j,
{
    if j >= s.len() || s[j] == '\n' || s[j] == '\r' {
        j
    } else {
        line_end(s, j + 1)
    }
}

/// The index just past the first `*/` that starts at `j` or later, if there is one.
pub open spec fn block_end(s: Seq<char>, j: int) -> Option<int>
    decreases s.len() - j,
{
    if j + 1 >= s.len() {
        None
    } else if s[j] == '*' && s[j + 1] == '/' {
        Some(j + 2)
    } else {
        block_end(s, j + 1)
    }
}

/// The first index from `j` on that holds a character that is not alphabetic, or the end.
pub open spec fn name_end(s: Seq<char>, j: int) -> int
    decreases s.len() - j,
{
    if j >= s.len() || !alphabetic(s[j]) {
        j
    } else {
        name_end(s, j + 1)
    }
}

/// One pull of the tokenizer from position `i` of `s`: what it gives, and the position after.
pub open spec fn scan(s: Seq<char>, i: int) -> (Pulled, int)
    decreases s.len() - i,
{
    if i < 0 || i >= s.len() {
        (Ok((TokenType::Eof, Seq::empty())), i)
    } else {
        match start_of(s[i], char_at(s, i + 1), alphabetic(s[i])) {
            TokenStart::Compound(t) => (Ok((t, s.subrange(i, i + 2))), i + 2),
            TokenStart::LineComment => (
                Ok((TokenType::LineComment, s.subrange(i, line_end(s, i + 2)))),
                line_end(s, i + 2),
            ),
            TokenStart::BlockComment => match block_end(s, i + 2) {
                Some(e) => (Ok((TokenType::BlockComment, s.subrange(i, e))), e),
                None => (
                    Err(ErrorModel::UnterminatedComment(s.subrange(i, s.len() as int))),
                    s.len() as int,
                ),
            },
            TokenStart::Simple(t) => (Ok((t, seq![s[i]])), i + 1),
            TokenStart::Name => (
                Ok((TokenType::Name, s.subrange(i, name_end(s, i + 1)))),
                name_end(s, i + 1),
            ),
            TokenStart::Skip => scan(s, i + 1),
        }
    }
}

/// The position of a tokenizer over `s` after `k` pulls, starting at `start`.
pub open spec fn position_after(s: Seq<char>, start: nat, k: nat) -> int
    decreases k,
{
    if k == 0 {
        start as int
    } else {
        scan(s, position_after(s, start, (k - 1) as nat)).1
    }
}

/// What pull number `k` (counting from 0) of a tokenizer over `s` started at `start` gives.
pub open spec fn pulled(s: Seq<char>, start: nat, k: nat) -> Pulled {
    scan(s, position_after(s, start, k)).0
}

/// Whether a pull gave the end-of-input token.
pub open spec fn is_eof(p: Pulled) -> bool {
    p matches Ok((t, _)) && t == TokenType::Eof
}

/// A line comment ends at or after where its scan starts, and within the input.
pub proof fn lemma_line_end_bounds(s: Seq<char>, j: int)
    requires
        0 <= j,
    ensures
        j <= line_end(s, j),
        j <= s.len() ==> line_end(s, j) <= s.len(),
    decreases s.len() - j,
{
    if !(j >= s.len() || s[j] == '\n' || s[j] == '\r') {
        lemma_line_end_bounds(s, j + 1);
    }
}

/// A closed block comment ends past its terminator, within the input.
pub proof fn lemma_block_end_bounds(s: Seq<char>, j: int)
    requires
        0 <= j,
    ensures
        block_end(s, j) matches Some(e) ==> j + 2 <= e <= s.len(),
    decreases s.len() - j,
{
    if !(j + 1 >= s.len()) && !(s[j] == '*' && s[j + 1] == '/') {
        lemma_block_end_bounds(s, j + 1);
    }
}

/// A name ends at or after where its scan starts, and within the input.
pub proof fn lemma_name_end_bounds(s: Seq<char>, j: int)
    requires
        0 <= j,
    ensures
        j <= name_end(s, j),
        j <= s.len() ==> name_end(s, j) <= s.len(),
    decreases s.len() - j,
{
    if !(j >= s.len() || !alphabetic(s[j])) {
        lemma_name_end_bounds(s, j + 1);
    }
}

/// A pull never moves backwards; `Eof` comes only at the end of the input and carries
/// empty text; anything else consumes input.
pub proof fn lemma_scan_progress(s: Seq<char>, i: int)
    requires
        0 <= i,
    ensures
        i <= scan(s, i).1,
        i <= s.len() ==> scan(s, i).1 <= s.len(),
        i >= s.len() ==> scan(s, i).1 == i && is_eof(scan(s, i).0),
        is_eof(scan(s, i).0) ==> scan(s, i).1 >= s.len() && scan(s, i).0 == Ok::<
            (TokenType, Seq<char>),
            ErrorModel,
        >((TokenType::Eof, Seq::empty())),
        !is_eof(scan(s, i).0) ==> i < scan(s, i).1 <= s.len(),
    decreases s.len() - i,
{
    if i < s.len() {
        lemma_line_end_bounds(s, i + 2);
        lemma_block_end_bounds(s, i + 2);
        lemma_name_end_bounds(s, i + 1);
        let st = start_of(s[i], char_at(s, i + 1), alphabetic(s[i]));
        if st == TokenStart::Skip {
            lemma_scan_progress(s, i + 1);
        }
    }
}

/// Positions never decrease from one pull to the next.
pub proof fn lemma_position_monotone(s: Seq<char>, start: nat, k1: nat, k2: nat)
    requires
        k1 <= k2,
    ensures
        start <= position_after(s, start, k1) <= position_after(s, start, k2),
    decreases k2,
{
    if k2 > 0 {
        if k1 < k2 {
            lemma_position_monotone(s, start, k1, (k2 - 1) as nat);
        }
        lemma_position_monotone(s, start, 0, (k2 - 1) as nat);
        lemma_scan_progress(s, position_after(s, start, (k2 - 1) as nat));
    }
}

/// A pull that gives anything but `Eof` moves the position forward, within the input.
pub proof fn lemma_pull_advances(s: Seq<char>, start: nat, k: nat)
    requires
        !is_eof(pulled(s, start, k)),
    ensures
        position_after(s, start, k) < position_after(s, start, k + 1) <= s.len(),
{
    lemma_position_monotone(s, start, 0, k);
    lemma_scan_progress(s, position_after(s, start, k));
}

/// A position within the input stays within it.
pub proof fn lemma_position_bounded(s: Seq<char>, start: nat, k1: nat, k2: nat)
    requires
        k1 <= k2,
        position_after(s, start, k1) <= s.len(),
    ensures
        position_after(s, start, k2) <= s.len(),
    decreases k2,
{
    if k1 < k2 {
        lemma_position_bounded(s, start, k1, (k2 - 1) as nat);
        lemma_position_monotone(s, start, 0, (k2 - 1) as nat);
        lemma_scan_progress(s, position_after(s, start, (k2 - 1) as nat));
    }
}

/// After a pull that gives anything but `Eof`, every later position is closer to the end.
pub proof fn lemma_later_pull_closer(s: Seq<char>, start: nat, k: nat, k2: nat)
    requires
        !is_eof(pulled(s, start, k)),
        k < k2,
    ensures
        0 <= s.len() - position_after(s, start, k2) < s.len() - position_after(s, start, k),
{
    lemma_pull_advances(s, start, k);
    lemma_position_monotone(s, start, k + 1, k2);
    lemma_position_bounded(s, start, k + 1, k2);
}

/// Once the tokenizer has given `Eof`, every later pull gives `Eof` with empty text.
pub proof fn lemma_eof_forever(s: Seq<char>, start: nat, k: nat, j: nat)
    requires
        is_eof(pulled(s, start, k)),
    ensures
        pulled(s, start, k + j) == Ok::<(TokenType, Seq<char>), ErrorModel>(
            (TokenType::Eof, Seq::empty()),
        ),
    decreases j,
{
    lemma_position_monotone(s, start, 0, k);
    lemma_scan_progress(s, position_after(s, start, k));
    if j > 0 {
        lemma_eof_forever(s, start, k, (j - 1) as nat);
        let p = position_after(s, start, (k + j - 1) as nat);
        lemma_position_monotone(s, start, 0, (k + j - 1) as nat);
        lemma_scan_progress(s, p);
        assert(position_after(s, start, k + j) == scan(s, p).1);
        lemma_scan_progress(s, scan(s, p).1);
    }
}

/// A character that starts no token: neither alphabetic nor an operator character.
pub open spec fn ignorable(c: char) -> bool {
    !alphabetic(c) && simple_of(c) is None
}

/// Whether `s` from index `i` on holds only ignorable characters (such as whitespace)
/// and complete comments.
pub open spec fn blank_from(s: Seq<char>, i: int) -> bool
    decreases s.len() - i,
{
    if i < 0 || i >= s.len() {
        true
    } else if ignorable(s[i]) {
        blank_from(s, i + 1)
    } else if s[i] == '/' && i + 1 < s.len() && s[i + 1] == '/' {
        proof {
            lemma_line_end_bounds(s, i + 2);
        }
        blank_from(s, line_end(s, i + 2))
    } else if s[i] == '/' && i + 1 < s.len() && s[i + 1] == '*' {
        proof {
            lemma_block_end_bounds(s, i + 2);
        }
        block_end(s, i + 2) matches Some(e) && blank_from(s, e)
    } else {
        false
    }
}

/// Whether a pull gave a comment or the end of input.
pub open spec fn is_comment_or_eof(p: Pulled) -> bool {
    p matches Ok((t, _)) && (t == TokenType::LineComment || t == TokenType::BlockComment
        || t == TokenType::Eof)
}

/// The first index from `i` on that holds a character that is not ignorable, or the end.
pub open spec fn first_token_char(s: Seq<char>, i: int) -> int
    decreases s.len() - i,
{
    if i < 0 || i >= s.len() || !ignorable(s[i]) {
        i
    } else {
        first_token_char(s, i + 1)
    }
}

/// What one pull from a blank position reads: a run of ignorable characters, then either
/// the end of the input or one comment, whose text is exactly the input up to the position
/// after the pull.
pub open spec fn blank_pull(s: Seq<char>, i: int, p: Pulled, next: int) -> bool {
    &&& is_comment_or_eof(p)
    &&& blank_from(s, next)
    &&& i <= first_token_char(s, i) <= next
    &&& forall|j: int| i <= j < first_token_char(s, i) ==> ignorable(#[trigger] s[j])
    &&& is_eof(p) ==> first_token_char(s, i) == next && next >= s.len()
    &&& match p {
        Ok((t, text)) => t != TokenType::Eof ==> text == s.subrange(first_token_char(s, i), next),
        Err(_) => true,
    }
}

proof fn lemma_scan_blank(s: Seq<char>, i: int)
    requires
        0 <= i,
        blank_from(s, i),
    ensures
        blank_pull(s, i, scan(s, i).0, scan(s, i).1),
    decreases s.len() - i,
{
    lemma_scan_progress(s, i);
    if i < s.len() {
        lemma_line_end_bounds(s, i + 2);
        lemma_block_end_bounds(s, i + 2);
        if ignorable(s[i]) {
            let n = char_at(s, i + 1);
            assert(n is Some ==> compound_of(s[i], n->0) is None);
            lemma_scan_blank(s, i + 1);
            assert forall|j: int| i <= j < first_token_char(s, i) implies ignorable(
                #[trigger] s[j],
            ) by {
                if j > i {
                    assert(i + 1 <= j < first_token_char(s, i + 1));
                }
            }
        }
    }
}

/// Input made only of characters that start no token (whitespace among them) and of
/// complete comments gives comment tokens and then `Eof`, and no other token at any pull.
/// Each pull reads a run of such characters and then one comment, whose text is exactly
/// the input it covers, delimiters included; so the runs and the comment texts, in order,
/// make up the whole input, and `Eof` comes once only such characters are left.
pub proof fn lemma_blank_input_gives_no_content(s: Seq<char>, start: nat, k: nat)
    requires
        blank_from(s, start as int),
    ensures
        blank_from(s, position_after(s, start, k)),
        blank_pull(
            s,
            position_after(s, start, k),
            pulled(s, start, k),
            position_after(s, start, k + 1),
        ),
    decreases k,
{
    if k > 0 {
        lemma_blank_input_gives_no_content(s, start, (k - 1) as nat);
        assert(((k - 1) as nat + 1) as nat == k);
    }
    lemma_position_monotone(s, start, 0, k);
    lemma_scan_blank(s, position_after(s, start, k));
}

/// Splits source text into tokens, one per call of `next`.
pub struct Lexer {
    chars: Vec<char>,
    index: usize,
}

impl Lexer {
    /// The characters of the source text.
    pub closed spec fn source(&self) -> Seq<char> {
        self.chars@
    }

    /// The scan position, an index into `source()`.
    pub closed spec fn position(&self) -> nat {
        self.index as nat
    }

    /// The position lies within the source.
    pub closed spec fn wf(&self) -> bool {
        self.index <= self.chars@.len()
    }

    /// A tokenizer at the start of `text`.
    pub fn new(text: &str) -> (r: Lexer)
        ensures
            r.wf(),
            r.source() == text@,
            r.position() == 0,
    {
        let mut chars: Vec<char> = Vec::new();
        for c in it: text.chars()
            invariant
                chars@ == it.history(),
        {
            chars.push(c);
        }
        Lexer { chars, index: 0 }
    }

    /// The character under the cursor, if any.
    fn peek(&self) -> (r: Option<char>)
        requires
            self.wf(),
        ensures
            r == char_at(self.source(), self.position() as int),
    {
        if self.index < self.chars.len() {
            Some(self.chars[self.index])
        } else {
            None
        }
    }

    /// Takes the character under the cursor, if any.
    fn advance(&mut self) -> (r: Option<char>)
        requires
            old(self).wf(),
        ensures
            final(self).wf(),
            final(self).source() == old(self).source(),
            r == char_at(old(self).source(), old(self).position() as int),
            final(self).position() == if r is Some {
                old(self).position() + 1
            } else {
                old(self).position() + 0
            },
    {
        if self.index < self.chars.len() {
            let c = self.chars[self.index];
            self.index = self.index + 1;
            Some(c)
        } else {
            None
        }
    }

    /// Reads a line comment whose `//` starts at the cursor.
    fn read_line_comment(&mut self) -> (r: Token)
        requires
            old(self).wf(),
            old(self).position() + 1 < old(self).source().len(),
        ensures
            final(self).wf(),
            final(self).source() == old(self).source(),
            ({
                let s = old(self).source();
                let i = old(self).position() as int;
                &&& r@ == (TokenType::LineComment, s.subrange(i, line_end(s, i + 2)))
                &&& final(self).position() == line_end(s, i + 2)
            }),
    {
        let ghost s = self.source();
        let ghost i = self.position() as int;
        let mut comment = String::new();
        let first = self.advance();
        let second = self.advance();
        if let (Some(a), Some(b)) = (first, second) {
            push_char(&mut comment, a);
            push_char(&mut comment, b);
        }
        assert(comment@ =~= s.subrange(i, i + 2));
        loop
            invariant
                self.wf(),
                self.source() == s,
                0 <= i,
                i + 2 <= self.position() <= s.len(),
                line_end(s, self.position() as int) == line_end(s, i + 2),
                comment@ == s.subrange(i, self.position() as int),
            ensures
                line_end(s, self.position() as int) == self.position(),
            decreases s.len() - self.position(),
        {
            match self.peek() {
                Some(c) => {
                    if c == '\n' || c == '\r' {
                        break ;
                    }
                    self.advance();
                    push_char(&mut comment, c);
                    assert(comment@ =~= s.subrange(i, self.position() as int));
                },
                None => {
                    break ;
                },
            }
        }
        Token { token_type: TokenType::LineComment, text: comment }
    }

    /// Reads a block comment whose `/*` starts at the cursor, up to and including `*/`.
    fn read_block_comment(&mut self) -> (r: Result<Token, SyntaxError>)
        requires
            old(self).wf(),
            old(self).position() + 1 < old(self).source().len(),
        ensures
            final(self).wf(),
            final(self).source() == old(self).source(),
            ({
                let s = old(self).source();
                let i = old(self).position() as int;
                match block_end(s, i + 2) {
                    Some(e) => {
                        &&& pulled_view(r) == Ok::<_, ErrorModel>(
                            (TokenType::BlockComment, s.subrange(i, e)),
                        )
                        &&& final(self).position() == e
                    },
                    None => {
                        &&& pulled_view(r) == Err::<(TokenType, Seq<char>), _>(
                            ErrorModel::UnterminatedComment(s.subrange(i, s.len() as int)),
                        )
                        &&& final(self).position() == s.len()
                    },
                }
            }),
    {
        let ghost s = self.source();
        let ghost i = self.position() as int;
        let mut comment = String::new();
        let first = self.advance();
        let second = self.advance();
        if let (Some(a), Some(b)) = (first, second) {
            push_char(&mut comment, a);
            push_char(&mut comment, b);
        }
        assert(comment@ =~= s.subrange(i, i + 2));
        loop
            invariant
                self.wf(),
                self.source() == s,
                0 <= i,
                i + 2 <= self.position() <= s.len(),
                s == old(self).source(),
                i == old(self).position(),
                block_end(s, self.position() as int) == block_end(s, i + 2),
                comment@ == s.subrange(i, self.position() as int),
            decreases s.len() - self.position(),
        {
            match self.advance() {
                Some(c) => {
                    push_char(&mut comment, c);
                    assert(comment@ =~= s.subrange(i, self.position() as int));
                    if c == '*' {
                        if self.peek() == Some('/') {
                            self.advance();
                            push_char(&mut comment, '/');
                            assert(comment@ =~= s.subrange(i, self.position() as int));
                            return Ok(Token { token_type: TokenType::BlockComment, text: comment });
                        }
                    }
                },
                None => {
                    return Err(SyntaxError::UnterminatedComment { text: comment });
                },
            }
        }
    }

    /// Reads a name whose first character was taken just before the cursor.
    fn read_name(&mut self, first: char) -> (r: Token)
        requires
            old(self).wf(),
            1 <= old(self).position(),
            old(self).source()[old(self).position() - 1] == first,
        ensures
            final(self).wf(),
            final(self).source() == old(self).source(),
            ({
                let s = old(self).source();
                let i = old(self).position() as int;
                &&& r@ == (TokenType::Name, s.subrange(i - 1, name_end(s, i)))
                &&& final(self).position() == name_end(s, i)
            }),
    {
        let ghost s = self.source();
        let ghost i = self.position() as int;
        let mut name = String::new();
        push_char(&mut name, first);
        assert(name@ =~= s.subrange(i - 1, i));
        loop
            invariant
                self.wf(),
                self.source() == s,
                1 <= i <= self.position() <= s.len(),
                name_end(s, self.position() as int) == name_end(s, i),
                name@ == s.subrange(i - 1, self.position() as int),
            ensures
                name_end(s, self.position() as int) == self.position(),
            decreases s.len() - self.position(),
        {
            match self.peek() {
                Some(c) => {
                    if !is_alphabetic(c) {
                        break ;
                    }
                    self.advance();
                    push_char(&mut name, c);
                    assert(name@ =~= s.subrange(i - 1, self.position() as int));
                },
                None => {
                    break ;
                },
            }
        }
        Token { token_type: TokenType::Name, text: name }
    }

    /// Pulls the next token. At the end of the input this gives `Eof` with empty text,
    /// again at every later call.
    pub fn next(&mut self) -> (r: Result<Token, SyntaxError>)
        requires
            old(self).wf(),
        ensures
            final(self).wf(),
            final(self).source() == old(self).source(),
            pulled_view(r) == scan(old(self).source(), old(self).position() as int).0,
            final(self).position() == scan(old(self).source(), old(self).position() as int).1,
    {
        let ghost s = self.source();
        let ghost i0 = self.position() as int;
        loop
            invariant
                self.wf(),
                self.source() == s,
                s == old(self).source(),
                i0 == old(self).position(),
                0 <= i0 <= self.position(),
                scan(s, self.position() as int) == scan(s, i0),
            decreases s.len() - self.position(),
        {
            let here = self.advance();
            let c = match here {
                Some(c) => c,
                None => {
                    return Ok(Token { token_type: TokenType::Eof, text: String::new() });
                },
            };
            let alpha = is_alphabetic(c);
            let following = self.peek();
            match token_start(c, following, alpha) {
                TokenStart::Compound(t) => {
                    let mut text = String::new();
                    push_char(&mut text, c);
                    if let Some(d) = self.advance() {
                        push_char(&mut text, d);
                    }
                    assert(text@ =~= s.subrange(self.position() - 2, self.position() as int));
                    return Ok(Token { token_type: t, text });
                },
                TokenStart::LineComment => {
                    self.index = self.index - 1;
                    return Ok(self.read_line_comment());
                },
                TokenStart::BlockComment => {
                    self.index = self.index - 1;
                    return self.read_block_comment();
                },
                TokenStart::Simple(t) => {
                    let mut text = String::new();
                    push_char(&mut text, c);
                    assert(text@ =~= seq![c]);
                    return Ok(Token { token_type: t, text });
                },
                TokenStart::Name => {
                    return Ok(self.read_name(c));
                },
                TokenStart::Skip => {},
            }
        }
    }
}

} // verus!
