use whitespace::lexer::{Lexer, Token};

#[test]
fn simple() {
    let lexer = Lexer::new("aa \n  comment \t\n\t");
    let tokens = lexer.lex();

    assert_eq!(
        tokens,
        vec![
            Token::Space,
            Token::LineFeed,
            Token::Space,
            Token::Space,
            Token::Space,
            Token::Tab,
            Token::LineFeed,
            Token::Tab
        ]
    );
}

#[test]
fn empty_text_has_no_tokens() {
    assert_eq!(Lexer::new("").lex(), Vec::<Token>::new());
}

#[test]
fn comments_leave_no_tokens() {
    assert_eq!(Lexer::new("push\u{a0}one\rétoile\u{2028}").lex(), Vec::<Token>::new());
}

#[test]
fn every_meaningful_character_gives_its_token() {
    assert_eq!(Lexer::new(" ").lex(), vec![Token::Space]);
    assert_eq!(Lexer::new("\t").lex(), vec![Token::Tab]);
    assert_eq!(Lexer::new("\n").lex(), vec![Token::LineFeed]);
}

#[test]
fn tokens_keep_the_order_of_the_text() {
    let tokens = Lexer::new("\n\t x\t\n ").lex();
    assert_eq!(
        tokens,
        vec![
            Token::LineFeed,
            Token::Tab,
            Token::Space,
            Token::Tab,
            Token::LineFeed,
            Token::Space
        ]
    );
}

#[test]
fn lexing_twice_gives_the_same_tokens() {
    let lexer = Lexer::new(" a\tb\nc");
    assert_eq!(lexer.lex(), lexer.lex());
}
