//! The scanner as a mathematical function: a state, one step per character,
//! and the token sequence of a whole source.

use vstd::prelude::*;
use crate::charclass::{class_of, CharClass};
use crate::numeral::decimal_i32;
use crate::token::{Kind, TokenModel};

verus! {

/// The reserved word `let`.
pub open spec fn word_let() -> Seq<char> {
    seq!['l', 'e', 't']
}

/// The reserved word `for`.
pub open spec fn word_for() -> Seq<char> {
    seq!['f', 'o', 'r']
}

/// The lexeme of the end-of-input token.
pub open spec fn eof_lexeme() -> Seq<char> {
    seq!['E', 'n', 'd', 'O', 'f', 'F', 'i', 'l', 'e']
}

/// The kind of an accumulated word: a reserved word first, then a number if
/// the word reads as one, an identifier otherwise.
pub open spec fn word_kind(word: Seq<char>) -> Kind {
    if word == word_let() {
        Kind::Let
    } else if word == word_for() {
        Kind::For
    } else {
        match decimal_i32(word) {
            Some(n) => Kind::Number(n),
            None => Kind::Identifier(word),
        }
    }
}

/// The one token that a flush makes of an accumulated word.
pub open spec fn word_token(word: Seq<char>) -> TokenModel {
    TokenModel { lexeme: word, kind: word_kind(word) }
}

/// The kind of the token that a structural character yields.
pub open spec fn structural_kind(class: CharClass) -> Kind
    recommends
        class.is_structural(),
{
    match class {
        CharClass::OpenParen => Kind::OpenParen,
        CharClass::CloseParen => Kind::CloseParen,
        CharClass::BinaryOperator => Kind::BinaryOperator,
        CharClass::Equals => Kind::Equals,
        _ => Kind::SemiColon,
    }
}

/// The token that a structural character yields: its lexeme is the
/// character itself.
pub open spec fn structural_token(c: char, class: CharClass) -> TokenModel
    recommends
        class.is_structural(),
{
    TokenModel { lexeme: seq![c], kind: structural_kind(class) }
}

/// The token that ends every result.
pub open spec fn eof_token() -> TokenModel {
    TokenModel { lexeme: eof_lexeme(), kind: Kind::Eof }
}

/// What a scan has produced so far: the finished tokens and the word that is
/// still being accumulated. An empty `pending` is the idle state.
pub struct ScanState {
    pub tokens: Seq<TokenModel>,
    pub pending: Seq<char>,
}

/// The state before the first character.
pub open spec fn initial_state() -> ScanState {
    ScanState { tokens: Seq::empty(), pending: Seq::empty() }
}

/// The tokens of `s` after its pending word, if there is one, has been
/// flushed into one more token.
pub open spec fn flushed(s: ScanState) -> Seq<TokenModel> {
    if s.pending.len() == 0 {
        s.tokens
    } else {
        s.tokens.push(word_token(s.pending))
    }
}

/// One step of the scan on the character `c` of class `class`.
pub open spec fn step_given(s: ScanState, c: char, class: CharClass) -> ScanState {
    match class {
        CharClass::Boundary => ScanState { tokens: flushed(s), pending: Seq::empty() },
        CharClass::Accumulable => ScanState { tokens: s.tokens, pending: s.pending.push(c) },
        CharClass::SilentlyIgnored => s,
        _ => ScanState {
            tokens: flushed(s).push(structural_token(c, class)),
            pending: Seq::empty(),
        },
    }
}

/// One step of the scan on the character `c`.
pub open spec fn step(s: ScanState, c: char) -> ScanState {
    step_given(s, c, class_of(c))
}

/// The state after the characters of `input` have been scanned from `s`,
/// left to right.
pub open spec fn scan(s: ScanState, input: Seq<char>) -> ScanState
    decreases input.len(),
{
    if input.len() == 0 {
        s
    } else {
        step(scan(s, input.drop_last()), input.last())
    }
}

/// The result of a scan that stops in `s`: the pending word is flushed and
/// the end-of-input token closes the sequence.
pub open spec fn finish(s: ScanState) -> Seq<TokenModel> {
    flushed(s).push(eof_token())
}

/// The token sequence of a whole source.
pub open spec fn lex(src: Seq<char>) -> Seq<TokenModel> {
    finish(scan(initial_state(), src))
}

/// True when no token of `tokens` is the end-of-input token.
pub open spec fn free_of_eof(tokens: Seq<TokenModel>) -> bool {
    forall|i: int| 0 <= i < tokens.len() ==> (#[trigger] tokens[i]).kind != Kind::Eof
}

/// Scanning one character more is one step more.
pub proof fn lemma_scan_push(s: ScanState, input: Seq<char>, c: char)
    ensures
        scan(s, input.push(c)) == step(scan(s, input), c),
{
    assert(input.push(c).drop_last() =~= input);
}

/// True of the characters that end up in some lexeme: the structural and
/// the accumulable ones.
pub open spec fn is_significant(c: char) -> bool {
    class_of(c) != CharClass::Boundary && class_of(c) != CharClass::SilentlyIgnored
}

/// The significant characters of `src`, in order.
pub open spec fn significant(src: Seq<char>) -> Seq<char>
    decreases src.len(),
{
    if src.len() == 0 {
        Seq::empty()
    } else if is_significant(src.last()) {
        significant(src.drop_last()).push(src.last())
    } else {
        significant(src.drop_last())
    }
}

/// The lexemes of `tokens`, one after the other.
pub open spec fn joined(tokens: Seq<TokenModel>) -> Seq<char>
    decreases tokens.len(),
{
    if tokens.len() == 0 {
        Seq::empty()
    } else {
        joined(tokens.drop_last()) + tokens.last().lexeme
    }
}

} // verus!
