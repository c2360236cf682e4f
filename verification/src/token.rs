//! Tokens and their mathematical models.

use vstd::prelude::*;

verus! {

/// The kind of a token, with the value that a number or an identifier carries.
#[derive(Debug, PartialEq)]
pub enum TokenType {
    Number(i32),
    Identifier(String),
    Equals,
    OpenParen,
    CloseParen,
    BinaryOperator,
    SemiColon,
    Let,
    For,
    Eof,
}

/// The model of a [`TokenType`]: the same variants over a sequence of
/// characters.
pub enum Kind {
    Number(i32),
    Identifier(Seq<char>),
    Equals,
    OpenParen,
    CloseParen,
    BinaryOperator,
    SemiColon,
    Let,
    For,
    Eof,
}

impl View for TokenType {
    type V = Kind;

    open spec fn view(&self) -> Kind {
        match self {
            TokenType::Number(n) => Kind::Number(*n),
            TokenType::Identifier(name) => Kind::Identifier(name@),
            TokenType::Equals => Kind::Equals,
            TokenType::OpenParen => Kind::OpenParen,
            TokenType::CloseParen => Kind::CloseParen,
            TokenType::BinaryOperator => Kind::BinaryOperator,
            TokenType::SemiColon => Kind::SemiColon,
            TokenType::Let => Kind::Let,
            TokenType::For => Kind::For,
            TokenType::Eof => Kind::Eof,
        }
    }
}

impl Clone for TokenType {
    fn clone(&self) -> (r: Self)
        ensures
            r == *self,
    {
        match self {
            TokenType::Number(n) => TokenType::Number(*n),
            TokenType::Identifier(name) => TokenType::Identifier(name.clone()),
            TokenType::Equals => TokenType::Equals,
            TokenType::OpenParen => TokenType::OpenParen,
            TokenType::CloseParen => TokenType::CloseParen,
            TokenType::BinaryOperator => TokenType::BinaryOperator,
            TokenType::SemiColon => TokenType::SemiColon,
            TokenType::Let => TokenType::Let,
            TokenType::For => TokenType::For,
            TokenType::Eof => TokenType::Eof,
        }
    }
}

/// One token: the text that produced it (its lexeme) and its kind.
#[derive(Debug, PartialEq)]
pub struct Token {
    /// The lexeme.
    pub value: String,
    pub token_type: TokenType,
}

/// The model of a [`Token`].
pub struct TokenModel {
    pub lexeme: Seq<char>,
    pub kind: Kind,
}

impl View for Token {
    type V = TokenModel;

    open spec fn view(&self) -> TokenModel {
        TokenModel { lexeme: self.value@, kind: self.token_type@ }
    }
}

impl Clone for Token {
    fn clone(&self) -> (r: Self)
        ensures
            r == *self,
    {
        Token { value: self.value.clone(), token_type: self.token_type.clone() }
    }
}

impl Token {
    pub fn new(value: String, token_type: TokenType) -> (r: Token)
        ensures
            r == (Token { value, token_type }),
    {
        Token { value, token_type }
    }
}

/// The models of a sequence of tokens, in order.
pub open spec fn models(tokens: Seq<Token>) -> Seq<TokenModel> {
    Seq::new(tokens.len(), |i: int| tokens[i]@)
}

/// Appending a token appends its model.
pub proof fn lemma_models_push(tokens: Seq<Token>, token: Token)
    ensures
        models(tokens.push(token)) == models(tokens).push(token@),
{
    assert(models(tokens.push(token)) =~= models(tokens).push(token@));
}

} // verus!
