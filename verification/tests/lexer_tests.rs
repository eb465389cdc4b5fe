use layerscript::lexer::{Lexer, Token, TokenKind};

fn lex(code: &str) -> Vec<Token> {
    Lexer::New(code).CollectTokens()
}

#[test]
fn test_lexer() {
    let Code = "fn main() { var x: i32 = 10; havoc x; }";
    let Tokens: Vec<Token> = lex(Code);
    assert_eq!(Tokens[5].Kind, TokenKind::Let(true));
}

#[test]
fn lexer_reads_let_as_immutable_binding() {
    let tokens = lex("let y = 3;");
    assert_eq!(tokens[0].Kind, TokenKind::Let(false));
    assert_eq!(tokens[1].Kind, TokenKind::Ident("y".to_string()));
    assert_eq!(tokens[2].Kind, TokenKind::Equal);
    assert_eq!(tokens[3].Kind, TokenKind::IntLiteral(3));
    assert_eq!(tokens[4].Kind, TokenKind::Semicolon);
}

#[test]
fn lexer_tracks_lines_and_columns() {
    let tokens = lex("a\n  b");
    assert_eq!(tokens[0].Line, 1);
    assert_eq!(tokens[1].Line, 2);
    assert_eq!(tokens[1].Column, 3);
}

#[test]
fn lexer_empty_source_gives_no_tokens() {
    assert!(lex("").is_empty());
    assert!(lex("   \n\t ").is_empty());
}

#[test]
fn lexer_peek_then_next_gives_same_token() {
    let mut l = Lexer::New("while x");
    let peeked = l.PeekToken();
    let next = l.NextToken();
    assert_eq!(peeked, next);
    assert_eq!(next.unwrap().Kind, TokenKind::While);
}

#[test]
fn peeking_leaves_the_lexer_as_a_read_would() {
    let mut peeking = Lexer::New("let a = 1; b");
    let mut plain = Lexer::New("let a = 1; b");
    let peeked = peeking.PeekToken();
    assert_eq!(peeking.PeekToken(), peeked);
    let first = peeking.NextToken();
    assert_eq!(first, peeked);
    assert_eq!(first, plain.NextToken());
    assert_eq!(peeking.Offset, plain.Offset);
    loop {
        let a = peeking.NextToken();
        let b = plain.NextToken();
        assert_eq!(a, b);
        if a.is_none() {
            break;
        }
    }
}

#[test]
fn token_new_keeps_its_fields() {
    let t = Token::New(TokenKind::Semicolon, 3, 7);
    assert_eq!(t.Kind, TokenKind::Semicolon);
    assert_eq!(t.Line, 3);
    assert_eq!(t.Column, 7);
}
