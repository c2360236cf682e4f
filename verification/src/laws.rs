//! What holds of every scan.

use vstd::prelude::*;
use crate::charclass::{class_of, is_boundary, CharClass};
use crate::lexer::Lexer;
use crate::model::{
    eof_token, finish, flushed, free_of_eof, initial_state, joined, lex, scan, significant,
    step, word_token, ScanState,
};
use crate::token::{Kind, TokenModel};

verus! {

/// A step adds no end-of-input token.
proof fn lemma_step_free_of_eof(s: ScanState, c: char)
    requires
        free_of_eof(s.tokens),
    ensures
        free_of_eof(step(s, c).tokens),
{
}

/// A scan adds no end-of-input token: only the finish does.
pub proof fn lemma_scan_free_of_eof(s: ScanState, input: Seq<char>)
    requires
        free_of_eof(s.tokens),
    ensures
        free_of_eof(scan(s, input).tokens),
        free_of_eof(finish(scan(s, input)).drop_last()),
    decreases input.len(),
{
    if input.len() > 0 {
        lemma_scan_free_of_eof(s, input.drop_last());
        lemma_step_free_of_eof(scan(s, input.drop_last()), input.last());
    }
    assert(finish(scan(s, input)).drop_last() =~= flushed(scan(s, input)));
}

/// The token sequence of every source ends with the end-of-input token, and
/// that token stands nowhere else in it.
pub proof fn lemma_eof_last_and_only(src: Seq<char>)
    ensures
        lex(src).len() >= 1,
        lex(src).last() == eof_token(),
        forall|i: int| 0 <= i < lex(src).len() - 1 ==> (#[trigger] lex(src)[i]).kind != Kind::Eof,
{
    lemma_scan_free_of_eof(initial_state(), src);
}

/// A scan only appends: the tokens it starts with stay in front, unchanged.
pub proof fn lemma_scan_appends(s: ScanState, input: Seq<char>)
    ensures
        s.tokens.is_prefix_of(scan(s, input).tokens),
        s.tokens.is_prefix_of(finish(scan(s, input))),
    decreases input.len(),
{
    if input.len() > 0 {
        lemma_scan_appends(s, input.drop_last());
    }
}

/// True when every character of `src` is a boundary.
pub open spec fn all_boundaries(src: Seq<char>) -> bool {
    forall|i: int| 0 <= i < src.len() ==> is_boundary(#[trigger] src[i])
}

/// Boundaries alone leave the initial state as it is.
proof fn lemma_boundaries_scan(src: Seq<char>)
    requires
        all_boundaries(src),
    ensures
        scan(initial_state(), src) == initial_state(),
    decreases src.len(),
{
    if src.len() > 0 {
        lemma_boundaries_scan(src.drop_last());
        assert(is_boundary(src[src.len() - 1]));
        assert(class_of(src.last()) == CharClass::Boundary);
    }
}

/// A source that holds nothing but whitespace, the empty source among them,
/// yields the end-of-input token alone.
pub proof fn lemma_whitespace_only(src: Seq<char>)
    requires
        all_boundaries(src),
    ensures
        lex(src) == seq![eof_token()],
{
    lemma_boundaries_scan(src);
    assert(lex(src) =~= seq![eof_token()]);
}

/// The result of a scan depends on the source alone: two fresh lexers over
/// equal sources end with equal token sequences, those of the source.
pub proof fn lemma_same_source_same_tokens(a: Lexer, b: Lexer)
    requires
        a.is_fresh(),
        b.is_fresh(),
        a.src@ == b.src@,
    ensures
        a.outcome() == b.outcome(),
        a.outcome() == lex(a.src@),
{
    lemma_fresh_outcome(a);
    lemma_fresh_outcome(b);
}

/// A fresh lexer ends with the tokens of its source.
pub proof fn lemma_fresh_outcome(a: Lexer)
    requires
        a.is_fresh(),
    ensures
        a.outcome() == lex(a.src@),
{
    assert(a.rest() =~= a.src@);
    assert(a.state().tokens =~= initial_state().tokens);
    assert(a.state().pending =~= initial_state().pending);
}

/// Joining after one more token appends its lexeme.
proof fn lemma_joined_push(tokens: Seq<TokenModel>, token: TokenModel)
    ensures
        joined(tokens.push(token)) == joined(tokens) + token.lexeme,
{
    assert(tokens.push(token).drop_last() =~= tokens);
}

/// The lexemes of a flushed state are those of its tokens and then the
/// pending word.
proof fn lemma_joined_flushed(s: ScanState)
    ensures
        joined(flushed(s)) == joined(s.tokens) + s.pending,
{
    if s.pending.len() == 0 {
        assert(joined(s.tokens) + s.pending =~= joined(s.tokens));
    } else {
        lemma_joined_push(s.tokens, word_token(s.pending));
    }
}

/// During a scan the lexemes so far, followed by the pending word, are the
/// significant characters so far.
proof fn lemma_scan_keeps_significant(src: Seq<char>)
    ensures
        joined(scan(initial_state(), src).tokens) + scan(initial_state(), src).pending
            == significant(src),
    decreases src.len(),
{
    if src.len() == 0 {
        assert(joined(initial_state().tokens) + initial_state().pending =~= significant(src));
    } else {
        let before = scan(initial_state(), src.drop_last());
        let c = src.last();
        let after = step(before, c);
        lemma_scan_keeps_significant(src.drop_last());
        lemma_joined_flushed(before);
        if class_of(c) == CharClass::Boundary {
            assert(joined(after.tokens) + after.pending =~= joined(before.tokens)
                + before.pending);
        } else if class_of(c) == CharClass::Accumulable {
            assert(joined(after.tokens) + after.pending =~= (joined(before.tokens)
                + before.pending).push(c));
        } else if class_of(c) == CharClass::SilentlyIgnored {
        } else {
            lemma_joined_push(flushed(before), after.tokens.last());
            assert(joined(after.tokens) + after.pending =~= (joined(before.tokens)
                + before.pending).push(c));
        }
    }
}

/// The lexemes of all tokens but the end-of-input token, one after the
/// other, are the source without its whitespace and its ignored characters:
/// no significant character is lost, added or moved.
pub proof fn lemma_lexemes_rebuild_source(src: Seq<char>)
    ensures
        joined(lex(src).drop_last()) == significant(src),
{
    let end = scan(initial_state(), src);
    lemma_scan_keeps_significant(src);
    lemma_joined_flushed(end);
    assert(lex(src).drop_last() =~= flushed(end));
}

} // verus!
