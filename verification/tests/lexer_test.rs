use uwu::tokenizer::Lexer;
use uwu::tokens::{Number, Token};

fn tokens_of(src: &str) -> Vec<Token> {
    let mut lx = Lexer::new(src);
    let mut out = Vec::new();
    loop {
        let n = lx.next_token();
        let done = n.token == Token::Eof;
        out.push(n.token);
        if done {
            break;
        }
    }
    out
}

#[test]
fn lexes_a_let_statement() {
    assert_eq!(
        tokens_of("let five = 5;"),
        vec![
            Token::Let,
            Token::Ident("five".to_string()),
            Token::Assign,
            Token::Number(Number::Int(5)),
            Token::Semicolon,
            Token::Eof,
        ]
    );
}

#[test]
fn lexes_two_character_operators() {
    assert_eq!(
        tokens_of("== != <= >= < >"),
        vec![
            Token::Equal,
            Token::NotEqual,
            Token::LessThanEqual,
            Token::GreaterThanEqual,
            Token::LessThan,
            Token::GreaterThan,
            Token::Eof,
        ]
    );
}

#[test]
fn lexes_compound_assignment_operators() {
    assert_eq!(
        tokens_of("+= -= *= /= + - * /"),
        vec![
            Token::PlusAssign,
            Token::SubAssign,
            Token::MulAssign,
            Token::DivAssign,
            Token::Plus,
            Token::Minus,
            Token::Asterisk,
            Token::Slash,
            Token::Eof,
        ]
    );
}

#[test]
fn skips_whitespace_newlines_and_comments() {
    assert_eq!(
        tokens_of("x # a comment with ) junk\n\t y"),
        vec![
            Token::Ident("x".to_string()),
            Token::Ident("y".to_string()),
            Token::Eof,
        ]
    );
}

#[test]
fn keywords_map_to_keyword_tokens() {
    assert_eq!(
        tokens_of("if let else while fn true false end return ifx"),
        vec![
            Token::If,
            Token::Let,
            Token::Else,
            Token::While,
            Token::Func,
            Token::Bool(true),
            Token::Bool(false),
            Token::End,
            Token::Return,
            Token::Ident("ifx".to_string()),
            Token::Eof,
        ]
    );
}

#[test]
fn lexes_numbers_int_and_float() {
    assert_eq!(
        tokens_of("7 190.7"),
        vec![
            Token::Number(Number::Int(7)),
            Token::Number(Number::Float("190.7".to_string())),
            Token::Eof,
        ]
    );
}

#[test]
fn a_numeric_run_with_two_dots_becomes_illegal() {
    assert_eq!(tokens_of("1.2.3"), vec![Token::Illegal, Token::Eof]);
}

#[test]
fn integer_literal_too_large_becomes_illegal() {
    assert_eq!(
        tokens_of("2147483647 2147483648"),
        vec![
            Token::Number(Number::Int(2147483647)),
            Token::Illegal,
            Token::Eof,
        ]
    );
}

#[test]
fn string_literals_keep_their_contents() {
    assert_eq!(
        tokens_of("\"hi there\""),
        vec![Token::String("hi there".to_string()), Token::Eof]
    );
}

#[test]
fn unterminated_string_is_accepted_to_end_of_input() {
    assert_eq!(
        tokens_of("\"runs off"),
        vec![Token::String("runs off".to_string()), Token::Eof]
    );
}

#[test]
fn unknown_byte_yields_illegal_token() {
    assert_eq!(
        tokens_of("@"),
        vec![Token::Illegal, Token::Eof]
    );
}

#[test]
fn a_fresh_lexer_has_performed_exactly_one_read() {
    let lx = Lexer::new("ab");
    assert_eq!(lx.pos, 0);
    assert_eq!(lx.next_pos, 1);
    assert_eq!(lx.ch, 'a');
    let le = Lexer::new("");
    assert_eq!(le.pos, 0);
    assert_eq!(le.next_pos, 1);
    assert_eq!(le.ch, '\0');
}

#[test]
fn eof_repeats_forever() {
    let mut lx = Lexer::new("x");
    assert_eq!(lx.next_token().token, Token::Ident("x".to_string()));
    assert_eq!(lx.next_token().token, Token::Eof);
    assert_eq!(lx.next_token().token, Token::Eof);
    assert_eq!(lx.next_token().token, Token::Eof);
}

#[test]
fn token_offsets_count_characters() {
    let mut lx = Lexer::new("ab  cd");
    let a = lx.next_token();
    let c = lx.next_token();
    assert_eq!(a.loc, 0);
    assert_eq!(c.loc, 4);
}
