use turtle_syntax::lexing::{Delimiter, Keyword, Punct, Token, TokenKind, TokenList, Tokens};
use turtle_syntax::span::Span;

#[test]
fn span_operations() {
    let a = Span::new(3, 7);
    let b = Span::new(5, 12);
    assert_eq!((a.start, a.end), (3, 7));
    assert_eq!(a.union(b), Span::new(3, 12));
    assert_eq!(b.union(a), Span::new(3, 12));
    assert_eq!(a.next(), Span::new(7, 7));
    let mut c = Span::new(10, 11);
    c.append(Span::new(2, 4));
    assert_eq!(c, Span::new(2, 11));
    // An end below the start is moved up to the start.
    let d = Span::new(9, 4);
    assert_eq!((d.start, d.end), (9, 9));
}

#[test]
fn token_kinds() {
    assert_eq!(Token::Punct(Punct::Comma).kind(), TokenKind::Punct(Punct::Comma));
    assert_eq!(Token::IriRef("x".to_string()).kind(), TokenKind::IriRef);
    assert_eq!(Token::Keyword(Keyword::A).kind(), TokenKind::Keyword(Keyword::A));
    assert_eq!(Token::End(Delimiter::Bracket).kind(), TokenKind::End(Delimiter::Bracket));
    assert_eq!(Token::LangTag("en".to_string()).kind(), TokenKind::LangTag);
}

#[test]
fn token_list_reads_in_order() {
    let tokens = vec![
        (Token::IriRef("a".to_string()), Span::new(0, 3)),
        (Token::Punct(Punct::Period), Span::new(4, 5)),
    ];
    let mut list: TokenList<u8> = TokenList::new(tokens, Ok(Span::new(5, 5)));
    assert_eq!(list.last(), Span::new(0, 0));
    assert_eq!(list.peek(), Ok((Some(TokenKind::IriRef), Span::new(0, 3))));
    assert_eq!(list.next(), Ok((Some(Token::IriRef("a".to_string())), Span::new(0, 3))));
    assert_eq!(list.last(), Span::new(0, 3));
    assert_eq!(list.next(), Ok((Some(Token::Punct(Punct::Period)), Span::new(4, 5))));
    assert_eq!(list.peek(), Ok((None, Span::new(5, 5))));
    assert_eq!(list.next(), Ok((None, Span::new(5, 5))));
    assert_eq!(list.last(), Span::new(4, 5));
    let mut failing: TokenList<u8> = TokenList::new(vec![], Err((3, Span::new(0, 1))));
    assert_eq!(failing.next(), Err((3, Span::new(0, 1))));
}
