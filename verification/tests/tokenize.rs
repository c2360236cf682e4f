use lexer::lexer::Lexer;
use lexer::token::{Token, TokenType};

fn scan(source: &str) -> Vec<Token> {
    let mut lexer = Lexer::new(source.chars().collect());
    lexer.tokenize()
}

fn token(lexeme: &str, kind: TokenType) -> Token {
    Token::new(String::from(lexeme), kind)
}

fn ident(name: &str) -> Token {
    token(name, TokenType::Identifier(String::from(name)))
}

fn eof() -> Token {
    token("EndOfFile", TokenType::Eof)
}

#[test]
fn let_statement() {
    assert_eq!(
        scan("let my_var = 10;"),
        vec![
            token("let", TokenType::Let),
            ident("my_var"),
            token("=", TokenType::Equals),
            token("10", TokenType::Number(10)),
            token(";", TokenType::SemiColon),
            eof(),
        ]
    );
}

#[test]
fn word_is_flushed_before_a_parenthesis() {
    assert_eq!(
        scan("for(x)"),
        vec![
            token("for", TokenType::For),
            token("(", TokenType::OpenParen),
            ident("x"),
            token(")", TokenType::CloseParen),
            eof(),
        ]
    );
}

#[test]
fn word_is_flushed_before_an_operator() {
    assert_eq!(
        scan("a+b"),
        vec![ident("a"), token("+", TokenType::BinaryOperator), ident("b"), eof()]
    );
}

#[test]
fn digits_then_letters_are_one_identifier() {
    assert_eq!(scan("10x"), vec![ident("10x"), eof()]);
}

#[test]
fn end_of_input_flushes_the_pending_word() {
    assert_eq!(scan("42"), vec![token("42", TokenType::Number(42)), eof()]);
    assert_eq!(scan("let"), vec![token("let", TokenType::Let), eof()]);
    assert_eq!(scan("abc"), vec![ident("abc"), eof()]);
}

#[test]
fn empty_source_yields_end_of_input_alone() {
    assert_eq!(scan(""), vec![eof()]);
}

#[test]
fn whitespace_alone_yields_end_of_input_alone() {
    assert_eq!(scan(" "), vec![eof()]);
    assert_eq!(scan(" \t\n\r  \r\n\t"), vec![eof()]);
}

#[test]
fn end_of_input_is_last_and_stands_once() {
    for source in ["", "  ", "let x = 1;", "EndOfFile", "a+b", "((", "#", "x #"] {
        let tokens = scan(source);
        assert_eq!(tokens.last(), Some(&eof()));
        let count = tokens.iter().filter(|t| t.token_type == TokenType::Eof).count();
        assert_eq!(count, 1);
    }
}

#[test]
fn a_word_that_spells_the_end_marker_is_an_identifier() {
    assert_eq!(scan("EndOfFile"), vec![ident("EndOfFile"), eof()]);
}

#[test]
fn scanning_the_same_source_again_gives_equal_tokens() {
    for source in ["", "let my_var = 10;", "for(x)", "10x 42 \t y", "a # b"] {
        assert_eq!(scan(source), scan(source));
    }
}

#[test]
fn lexemes_in_order_are_the_significant_characters() {
    let source = "let  my_var\t= 10 ;\n for(x) # a+b 10x";
    let tokens = scan(source);
    let mut joined = String::new();
    for t in &tokens[..tokens.len() - 1] {
        joined.push_str(&t.value);
    }
    assert_eq!(joined, "letmy_var=10;for(x)a+b10x");
}

#[test]
fn lexemes_with_spaces_put_back_are_the_source() {
    let source = "let my_var = 10 ;";
    let tokens = scan(source);
    let words: Vec<&str> =
        tokens[..tokens.len() - 1].iter().map(|t| t.value.as_str()).collect();
    assert_eq!(words.join(" "), source);
}

#[test]
fn every_structural_character_yields_its_own_token() {
    assert_eq!(
        scan("()+-*/=;"),
        vec![
            token("(", TokenType::OpenParen),
            token(")", TokenType::CloseParen),
            token("+", TokenType::BinaryOperator),
            token("-", TokenType::BinaryOperator),
            token("*", TokenType::BinaryOperator),
            token("/", TokenType::BinaryOperator),
            token("=", TokenType::Equals),
            token(";", TokenType::SemiColon),
            eof(),
        ]
    );
}

#[test]
fn assignment_without_spaces() {
    assert_eq!(
        scan("x=10;"),
        vec![
            ident("x"),
            token("=", TokenType::Equals),
            token("10", TokenType::Number(10)),
            token(";", TokenType::SemiColon),
            eof(),
        ]
    );
}

#[test]
fn keyword_is_recognised_before_a_structural_character() {
    assert_eq!(
        scan("let=for;"),
        vec![
            token("let", TokenType::Let),
            token("=", TokenType::Equals),
            token("for", TokenType::For),
            token(";", TokenType::SemiColon),
            eof(),
        ]
    );
}

#[test]
fn keywords_are_whole_words_only() {
    assert_eq!(scan("letter fore Let"), vec![ident("letter"), ident("fore"), ident("Let"), eof()]);
}

#[test]
fn ignored_characters_leave_no_trace() {
    assert_eq!(scan("#"), vec![eof()]);
    assert_eq!(scan("@ $ % ! ."), vec![eof()]);
    assert_eq!(scan("a # b"), vec![ident("a"), ident("b"), eof()]);
}

#[test]
fn ignored_character_does_not_end_a_word() {
    assert_eq!(scan("ab#cd"), vec![ident("abcd"), eof()]);
    assert_eq!(scan("1.5"), vec![token("15", TokenType::Number(15)), eof()]);
}

#[test]
fn minus_is_an_operator_and_never_a_sign() {
    assert_eq!(
        scan("-5"),
        vec![token("-", TokenType::BinaryOperator), token("5", TokenType::Number(5)), eof()]
    );
}

#[test]
fn numbers_at_the_edge_of_the_range() {
    assert_eq!(scan("2147483647"), vec![token("2147483647", TokenType::Number(2147483647)), eof()]);
    assert_eq!(scan("2147483648"), vec![ident("2147483648"), eof()]);
    assert_eq!(scan("007"), vec![token("007", TokenType::Number(7)), eof()]);
    assert_eq!(scan("0"), vec![token("0", TokenType::Number(0)), eof()]);
}

#[test]
fn letters_and_digits_beyond_ascii() {
    assert_eq!(scan("été"), vec![ident("été"), eof()]);
    assert_eq!(scan("٣"), vec![ident("٣"), eof()]);
    assert_eq!(scan("x² _y"), vec![ident("x²"), ident("_y"), eof()]);
}

#[test]
fn tokenize_leaves_its_result_in_the_lexer() {
    let mut lexer = Lexer::new("a b".chars().collect());
    let tokens = lexer.tokenize();
    assert_eq!(tokens, lexer.tokens);
    assert_eq!(lexer.position, 3);
    assert_eq!(lexer.identifier, "");
    assert_eq!(lexer.src, vec!['a', ' ', 'b']);
}

#[test]
fn tokenize_resumes_from_the_state_it_finds() {
    let mut lexer = Lexer::new("a b".chars().collect());
    lexer.tokenize();
    assert_eq!(lexer.tokenize(), vec![ident("a"), ident("b"), eof(), eof()]);

    let mut ahead = Lexer::new("a b".chars().collect());
    ahead.position = 2;
    ahead.identifier.push('z');
    assert_eq!(ahead.tokenize(), vec![ident("zb"), eof()]);

    let mut beyond = Lexer::new("a b".chars().collect());
    beyond.position = 7;
    assert_eq!(beyond.tokenize(), vec![eof()]);
    assert_eq!(beyond.position, 7);
}

#[test]
fn new_lexer_is_fresh() {
    let lexer = Lexer::new(vec!['x', 'y']);
    assert_eq!(lexer.src, vec!['x', 'y']);
    assert_eq!(lexer.position, 0);
    assert!(lexer.tokens.is_empty());
    assert!(lexer.identifier.is_empty());
}
