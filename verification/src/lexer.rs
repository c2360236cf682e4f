//! The scanner itself.

use vstd::prelude::*;
use vstd::string::StringExecFns;
use crate::charclass::{char_class, class_of, is_boundary, CharClass};
use crate::laws::lemma_scan_free_of_eof;
use crate::model::{
    eof_lexeme, eof_token, finish, free_of_eof, initial_state, lemma_scan_push, lex, scan,
    step, step_given, structural_token, word_for, word_let, word_token, ScanState,
};
use crate::numeral::parse_i32;
use crate::token::{lemma_models_push, models, Token, TokenModel, TokenType};

verus! {

/// A scanner over one source text. It is made once and consumed by one call
/// of [`Lexer::tokenize`].
pub struct Lexer {
    /// The tokens produced so far, in source order.
    pub tokens: Vec<Token>,
    /// The source text.
    pub src: Vec<char>,
    /// The index of the next character to scan.
    pub position: usize,
    /// The word being accumulated; empty between words.
    pub identifier: String,
}

impl Lexer {
    /// The scan state that this lexer holds.
    pub open spec fn state(&self) -> ScanState {
        ScanState { tokens: models(self.tokens@), pending: self.identifier@ }
    }

    /// The characters that are still to be scanned.
    pub open spec fn rest(&self) -> Seq<char> {
        if self.position <= self.src@.len() {
            self.src@.skip(self.position as int)
        } else {
            Seq::empty()
        }
    }

    /// The token sequence that scanning the rest of the source ends with.
    pub open spec fn outcome(&self) -> Seq<TokenModel> {
        finish(scan(self.state(), self.rest()))
    }

    /// True of a lexer that has not scanned anything yet.
    pub open spec fn is_fresh(&self) -> bool {
        self.position == 0 && self.tokens@.len() == 0 && self.identifier@.len() == 0
    }

    /// A fresh lexer over `src`.
    pub fn new(src: Vec<char>) -> (r: Lexer)
        ensures
            r.src == src,
            r.is_fresh(),
            r.state() == initial_state(),
            r.rest() == src@,
    {
        let r = Lexer { tokens: Vec::new(), src, position: 0, identifier: String::new() };
        assert(r.state().tokens =~= Seq::empty());
        assert(r.rest() =~= r.src@);
        r
    }

    /// Appends `token` to the output.
    pub fn add_token(&mut self, token: Token)
        ensures
            final(self).tokens@ == old(self).tokens@.push(token),
            final(self).src == old(self).src,
            final(self).position == old(self).position,
            final(self).identifier == old(self).identifier,
    {
        self.tokens.push(token);
    }

    /// Tells whether the character just consumed is a boundary.
    pub fn handle_whitespace(&mut self) -> (r: bool)
        requires
            0 < old(self).position <= old(self).src@.len(),
        ensures
            *final(self) == *old(self),
            r == is_boundary(old(self).src@[old(self).position - 1]),
    {
        let c = self.src[self.position - 1];
        c == ' ' || c == '\t' || c == '\n' || c == '\r'
    }

    /// Turns the accumulated word into exactly one token, appends it and
    /// clears the accumulator.
    pub fn flush_identifier(&mut self)
        ensures
            final(self).tokens@.len() == old(self).tokens@.len() + 1,
            final(self).tokens@.drop_last() == old(self).tokens@,
            final(self).tokens@.last()@ == word_token(old(self).identifier@),
            final(self).state() == (ScanState {
                tokens: old(self).state().tokens.push(word_token(old(self).identifier@)),
                pending: Seq::empty(),
            }),
            final(self).src == old(self).src,
            final(self).position == old(self).position,
    {
        proof {
            reveal_strlit("let");
            reveal_strlit("for");
            assert("let"@ =~= word_let());
            assert("for"@ =~= word_for());
        }
        let word = self.identifier.clone();
        let kind = if self.identifier == String::from_str("let") {
            TokenType::Let
        } else if self.identifier == String::from_str("for") {
            TokenType::For
        } else {
            match parse_i32(&self.identifier) {
                Some(n) => TokenType::Number(n),
                None => TokenType::Identifier(self.identifier.clone()),
            }
        };
        let token = Token::new(word, kind);
        proof {
            lemma_models_push(self.tokens@, token);
            assert(self.tokens@.push(token).drop_last() =~= self.tokens@);
        }
        self.add_token(token);
        self.identifier.clear();
    }

    /// What scanning the character `c` of class `class` does to a lexer,
    /// the cursor apart. A structural character changes nothing and hands
    /// its token out: the caller flushes the pending word before it appends
    /// the token. Every other character is a whole step of the scan.
    pub open spec fn accepts(
        &self,
        c: char,
        class: CharClass,
        after: &Lexer,
        produced: Option<Token>,
    ) -> bool {
        &&& after.src == self.src
        &&& self.tokens@.is_prefix_of(after.tokens@)
        &&& if class.is_structural() {
            &&& after.tokens == self.tokens
            &&& after.identifier == self.identifier
            &&& produced is Some
            &&& produced.unwrap()@ == structural_token(c, class)
        } else {
            &&& produced is None
            &&& after.state() == step_given(self.state(), c, class)
        }
    }

    /// Scans the character `c`, whose class is handed in.
    pub fn accept(&mut self, c: char, class: CharClass) -> (r: Option<Token>)
        ensures
            old(self).accepts(c, class, final(self), r),
            final(self).position == old(self).position,
    {
        match class {
            CharClass::OpenParen => Some(Token::new(single(c), TokenType::OpenParen)),
            CharClass::CloseParen => Some(Token::new(single(c), TokenType::CloseParen)),
            CharClass::BinaryOperator => Some(Token::new(single(c), TokenType::BinaryOperator)),
            CharClass::Equals => Some(Token::new(single(c), TokenType::Equals)),
            CharClass::SemiColon => Some(Token::new(single(c), TokenType::SemiColon)),
            CharClass::Boundary => {
                if !self.identifier.as_str().is_empty() {
                    self.flush_identifier();
                }
                assert(self.identifier@ =~= Seq::<char>::empty());
                None
            },
            CharClass::Accumulable => {
                self.identifier.push(c);
                None
            },
            CharClass::SilentlyIgnored => None,
        }
    }

    /// Scans the character at the cursor and moves the cursor past it.
    pub fn next_token(&mut self) -> (r: Option<Token>)
        requires
            old(self).position < old(self).src@.len(),
        ensures
            final(self).position == old(self).position + 1,
            old(self).accepts(
                old(self).src@[old(self).position as int],
                class_of(old(self).src@[old(self).position as int]),
                final(self),
                r,
            ),
    {
        let c = self.src[self.position];
        assert(self.position < self.src.len());
        self.position += 1;
        self.accept(c, char_class(c))
    }

    /// Scans what is left of the source and returns all tokens, closed by
    /// the end-of-input token. On a fresh lexer these are the tokens of the
    /// whole source.
    pub fn tokenize(&mut self) -> (r: Vec<Token>)
        ensures
            r@ == final(self).tokens@,
            models(r@) == old(self).outcome(),
            old(self).is_fresh() ==> models(r@) == lex(old(self).src@),
            r@.len() > 0 && r@.last()@ == eof_token(),
            old(self).tokens@.is_prefix_of(r@),
            free_of_eof(models(old(self).tokens@)) ==> free_of_eof(models(r@).drop_last()),
            final(self).src == old(self).src,
            final(self).identifier@ == Seq::<char>::empty(),
            final(self).position == if old(self).position <= old(self).src@.len() {
                old(self).src@.len()
            } else {
                old(self).position as nat
            },
    {
        let ghost start = self.state();
        let ghost input = self.rest();
        let ghost first = self.position;
        assert(input.take(0) =~= Seq::<char>::empty());
        while self.position < self.src.len()
            invariant
                self.src == old(self).src,
                first == old(self).position,
                input == old(self).rest(),
                first <= self.position,
                old(self).tokens@.is_prefix_of(self.tokens@),
                self.position <= self.src@.len() || self.position == first,
                self.state() == scan(start, input.take(self.position - first)),
            decreases self.src@.len() - self.position,
        {
            let ghost before = self.state();
            let ghost c = self.src@[self.position as int];
            proof {
                assert(input.take(self.position + 1 - first) =~= input.take(
                    self.position - first,
                ).push(c));
                lemma_scan_push(start, input.take(self.position - first), c);
            }
            if let Some(token) = self.next_token() {
                if !self.identifier.as_str().is_empty() {
                    self.flush_identifier();
                }
                proof {
                    lemma_models_push(self.tokens@, token);
                    assert(self.identifier@ =~= Seq::<char>::empty());
                }
                self.add_token(token);
            }
            assert(self.state() == step(before, c));
        }
        assert(input.take(self.position - first) =~= input);
        if !self.identifier.as_str().is_empty() {
            self.flush_identifier();
        }
        let end = Token::new(String::from_str("EndOfFile"), TokenType::Eof);
        proof {
            reveal_strlit("EndOfFile");
            assert("EndOfFile"@ =~= eof_lexeme());
            lemma_models_push(self.tokens@, end);
            if free_of_eof(models(old(self).tokens@)) {
                lemma_scan_free_of_eof(old(self).state(), old(self).rest());
            }
            if old(self).is_fresh() {
                assert(old(self).rest() =~= old(self).src@);
                assert(old(self).state().tokens =~= initial_state().tokens);
                assert(old(self).state().pending =~= initial_state().pending);
            }
        }
        self.add_token(end);
        let r = self.tokens.clone();
        assert(r@ =~= self.tokens@);
        r
    }
}

/// The string that holds the one character `c`.
fn single(c: char) -> (r: String)
    ensures
        r@ == seq![c],
{
    let mut r = String::new();
    r.push(c);
    assert(r@ =~= seq![c]);
    r
}

} // verus!
