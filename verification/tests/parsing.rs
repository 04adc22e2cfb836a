use turtle_syntax::ast::{
    BlankNode, Collection, Directive, Document, Iri, Literal, LiteralType, NumericLiteral, Object,
    Objects, PredicateObjects, RdfLiteral, Statement, Subject, Triples, Verb,
};
use turtle_syntax::lexing::{Delimiter, Keyword, Punct, Token, TokenList};
use turtle_syntax::parsing::{Error, ParseError, Parser, Unexpected};
use turtle_syntax::span::Span;

fn sp(start: usize, end: usize) -> Span {
    Span::new(start, end)
}

fn iri(s: &str) -> Token {
    Token::IriRef(s.to_string())
}

fn compact(prefix: &str, p: Span, suffix: &str, x: Span) -> Token {
    Token::CompactIri((prefix.to_string(), p), (suffix.to_string(), x))
}

fn period() -> Token {
    Token::Punct(Punct::Period)
}

/// Parses the tokens (each with its span), the input ending at `end`.
fn parse(tokens: Vec<(Token, Span)>, end: usize) -> Result<(Document<Span>, Span), ParseError<u8, Span>> {
    let lexer: TokenList<u8> = TokenList::new(tokens, Ok(sp(end, end)));
    let mut parser = Parser::new(lexer, |span: Span| span);
    Document::parse_with(&mut parser)
}

fn simple_triple(offset: usize) -> Vec<(Token, Span)> {
    vec![
        (iri("http://example.org/s"), sp(offset, offset + 3)),
        (iri("http://example.org/p"), sp(offset + 4, offset + 7)),
        (iri("http://example.org/o"), sp(offset + 8, offset + 11)),
        (period(), sp(offset + 12, offset + 13)),
    ]
}

#[test]
fn empty_input_is_empty_document() {
    let (doc, span) = parse(vec![], 7).unwrap();
    assert!(doc.statements.is_empty());
    assert_eq!(span, sp(7, 7));
}

#[test]
fn one_triple() {
    let (doc, span) = parse(simple_triple(0), 13).unwrap();
    assert_eq!(span, sp(0, 13));
    assert_eq!(doc.statements.len(), 1);
    let expected = Statement::Triples(Triples {
        subject: (Subject::Iri(Iri::IriRef("http://example.org/s".to_string())), sp(0, 3)),
        predicate_objects_list: (
            vec![(
                PredicateObjects {
                    verb: (Verb::Predicate(Iri::IriRef("http://example.org/p".to_string())), sp(4, 7)),
                    objects: (
                        Objects(vec![(
                            Object::Iri(Iri::IriRef("http://example.org/o".to_string())),
                            sp(8, 11),
                        )]),
                        sp(8, 11),
                    ),
                },
                sp(4, 11),
            )],
            sp(4, 7),
        ),
    });
    // The triples' span stops before the final period.
    assert_eq!(doc.statements[0], (expected, sp(0, 11)));
}

#[test]
fn prefix_and_base_directives() {
    let tokens = vec![
        (Token::Keyword(Keyword::Prefix), sp(0, 7)),
        (compact("ex", sp(8, 10), "", sp(11, 11)), sp(8, 11)),
        (iri("http://example.org/"), sp(12, 33)),
        (period(), sp(34, 35)),
        (Token::Keyword(Keyword::Base), sp(36, 41)),
        (iri("http://example.org/base/"), sp(42, 68)),
        (period(), sp(69, 70)),
        (Token::Keyword(Keyword::SparqlPrefix), sp(71, 77)),
        (compact("s", sp(78, 79), "", sp(80, 80)), sp(78, 80)),
        (iri("http://s.org/"), sp(81, 96)),
        (Token::Keyword(Keyword::SparqlBase), sp(97, 101)),
        (iri("http://b.org/"), sp(102, 117)),
    ];
    let (doc, span) = parse(tokens, 117).unwrap();
    assert_eq!(span, sp(0, 117));
    assert_eq!(
        doc.statements,
        vec![
            (
                Statement::Directive(Directive::Prefix(
                    ("ex".to_string(), sp(8, 10)),
                    ("http://example.org/".to_string(), sp(12, 33)),
                )),
                sp(0, 35),
            ),
            (
                Statement::Directive(Directive::Base(("http://example.org/base/".to_string(), sp(42, 68)))),
                sp(36, 70),
            ),
            (
                Statement::Directive(Directive::SparqlPrefix(
                    ("s".to_string(), sp(78, 79)),
                    ("http://s.org/".to_string(), sp(81, 96)),
                )),
                sp(71, 96),
            ),
            (
                Statement::Directive(Directive::SparqlBase(("http://b.org/".to_string(), sp(102, 117)))),
                sp(97, 117),
            ),
        ]
    );
}

#[test]
fn prefix_with_suffix_is_refused_at_the_keyword() {
    let tokens = vec![
        (Token::Keyword(Keyword::Prefix), sp(0, 7)),
        (compact("ex", sp(8, 10), "x", sp(11, 12)), sp(8, 12)),
        (iri("http://example.org/"), sp(13, 34)),
        (period(), sp(35, 36)),
    ];
    let (err, span) = parse(tokens, 36).unwrap_err();
    assert_eq!(
        *err,
        Error::Unexpected(Unexpected::Token(compact("ex", sp(8, 10), "x", sp(11, 12))))
    );
    assert_eq!(span, sp(0, 7));
}

#[test]
fn directive_without_period() {
    let tokens = vec![
        (Token::Keyword(Keyword::Base), sp(0, 5)),
        (iri("http://example.org/"), sp(6, 27)),
    ];
    let (err, span) = parse(tokens, 27).unwrap_err();
    assert_eq!(*err, Error::Unexpected(Unexpected::EndOfFile));
    assert_eq!(span, sp(27, 27));
}

#[test]
fn object_and_predicate_lists() {
    // <s> <p> <o1> , <o2> ; a <C> ; .
    let tokens = vec![
        (iri("s"), sp(0, 3)),
        (iri("p"), sp(4, 7)),
        (iri("o1"), sp(8, 12)),
        (Token::Punct(Punct::Comma), sp(13, 14)),
        (iri("o2"), sp(15, 19)),
        (Token::Punct(Punct::Semicolon), sp(20, 21)),
        (Token::Keyword(Keyword::A), sp(22, 23)),
        (iri("C"), sp(24, 27)),
        (Token::Punct(Punct::Semicolon), sp(28, 29)),
        (period(), sp(30, 31)),
    ];
    let (doc, _) = parse(tokens, 31).unwrap();
    let expected = Statement::Triples(Triples {
        subject: (Subject::Iri(Iri::IriRef("s".to_string())), sp(0, 3)),
        predicate_objects_list: (
            vec![
                (
                    PredicateObjects {
                        verb: (Verb::Predicate(Iri::IriRef("p".to_string())), sp(4, 7)),
                        objects: (
                            Objects(vec![
                                (Object::Iri(Iri::IriRef("o1".to_string())), sp(8, 12)),
                                (Object::Iri(Iri::IriRef("o2".to_string())), sp(15, 19)),
                            ]),
                            sp(8, 12),
                        ),
                    },
                    sp(4, 19),
                ),
                (
                    PredicateObjects {
                        verb: (Verb::A, sp(22, 23)),
                        objects: (
                            Objects(vec![(Object::Iri(Iri::IriRef("C".to_string())), sp(24, 27))]),
                            sp(24, 27),
                        ),
                    },
                    sp(22, 27),
                ),
            ],
            sp(4, 7),
        ),
    });
    assert_eq!(doc.statements, vec![(expected, sp(0, 29))]);
}

#[test]
fn described_blank_node_needs_no_predicate() {
    // [ <p> <o> ] .
    let tokens = vec![
        (Token::Begin(Delimiter::Bracket), sp(0, 1)),
        (iri("p"), sp(2, 5)),
        (iri("o"), sp(6, 9)),
        (Token::End(Delimiter::Bracket), sp(10, 11)),
        (period(), sp(12, 13)),
    ];
    let (doc, _) = parse(tokens, 13).unwrap();
    let properties = vec![(
        PredicateObjects {
            verb: (Verb::Predicate(Iri::IriRef("p".to_string())), sp(2, 5)),
            objects: (
                Objects(vec![(Object::Iri(Iri::IriRef("o".to_string())), sp(6, 9))]),
                sp(6, 9),
            ),
        },
        sp(2, 9),
    )];
    let expected = Statement::Triples(Triples {
        subject: (Subject::BlankNode(BlankNode::Anonymous((properties, sp(2, 5)))), sp(0, 11)),
        // The empty list sits right after the closing bracket.
        predicate_objects_list: (vec![], sp(11, 11)),
    });
    assert_eq!(doc.statements, vec![(expected, sp(0, 11))]);
}

#[test]
fn empty_blank_node_needs_a_predicate() {
    // [] .
    let tokens = vec![
        (Token::Begin(Delimiter::Bracket), sp(0, 1)),
        (Token::End(Delimiter::Bracket), sp(1, 2)),
        (period(), sp(3, 4)),
    ];
    let (err, span) = parse(tokens, 4).unwrap_err();
    assert_eq!(*err, Error::Unexpected(Unexpected::Token(period())));
    assert_eq!(span, sp(3, 4));
}

#[test]
fn empty_blank_node_as_object() {
    // <s> <p> [] .
    let tokens = vec![
        (iri("s"), sp(0, 3)),
        (iri("p"), sp(4, 7)),
        (Token::Begin(Delimiter::Bracket), sp(8, 9)),
        (Token::End(Delimiter::Bracket), sp(9, 10)),
        (period(), sp(11, 12)),
    ];
    let (doc, _) = parse(tokens, 12).unwrap();
    match &doc.statements[0].0 {
        Statement::Triples(t) => {
            let objects = &t.predicate_objects_list.0[0].0.objects.0 .0;
            assert_eq!(
                objects[0],
                (Object::BlankNode(BlankNode::Anonymous((vec![], sp(9, 9)))), sp(8, 10))
            );
        }
        other => panic!("not triples: {:?}", other),
    }
}

#[test]
fn collections() {
    // ( <a> "b" 1 ) <p> ( ) .
    let tokens = vec![
        (Token::Begin(Delimiter::Parenthesis), sp(0, 1)),
        (iri("a"), sp(2, 5)),
        (Token::StringLiteral("b".to_string()), sp(6, 9)),
        (Token::Numeric(NumericLiteral::Integer("1".to_string())), sp(10, 11)),
        (Token::End(Delimiter::Parenthesis), sp(12, 13)),
        (iri("p"), sp(14, 17)),
        (Token::Begin(Delimiter::Parenthesis), sp(18, 19)),
        (Token::End(Delimiter::Parenthesis), sp(20, 21)),
        (period(), sp(22, 23)),
    ];
    let (doc, _) = parse(tokens, 23).unwrap();
    let xsd_string = "http://www.w3.org/2001/XMLSchema#string".to_string();
    let subject = Subject::Collection(Collection(vec![
        (Object::Iri(Iri::IriRef("a".to_string())), sp(2, 5)),
        (
            Object::Literal(Literal::Rdf(RdfLiteral {
                value: ("b".to_string(), sp(6, 9)),
                type_: (LiteralType::Any(Iri::IriRef(xsd_string)), sp(6, 9)),
            })),
            sp(6, 9),
        ),
        (Object::Literal(Literal::Numeric(NumericLiteral::Integer("1".to_string()))), sp(10, 11)),
    ]));
    match &doc.statements[0] {
        (Statement::Triples(t), span) => {
            assert_eq!(t.subject, (subject, sp(0, 13)));
            assert_eq!(
                t.predicate_objects_list.0[0].0.objects.0 .0,
                vec![(Object::Collection(Collection(vec![])), sp(18, 21))]
            );
            assert_eq!(*span, sp(0, 21));
        }
        other => panic!("not triples: {:?}", other),
    }
}

#[test]
fn unclosed_collection() {
    let tokens = vec![
        (iri("s"), sp(0, 3)),
        (iri("p"), sp(4, 7)),
        (Token::Begin(Delimiter::Parenthesis), sp(8, 9)),
        (iri("a"), sp(10, 13)),
    ];
    let (err, span) = parse(tokens, 13).unwrap_err();
    assert_eq!(*err, Error::Unexpected(Unexpected::EndOfFile));
    assert_eq!(span, sp(13, 13));
}

#[test]
fn literal_forms() {
    // <s> <p> "chat"@fr , "1"^^<int> , "x" , true , false , 4.2 .
    let tokens = vec![
        (iri("s"), sp(0, 3)),
        (iri("p"), sp(4, 7)),
        (Token::StringLiteral("chat".to_string()), sp(8, 14)),
        (Token::LangTag("fr".to_string()), sp(14, 17)),
        (Token::Punct(Punct::Comma), sp(18, 19)),
        (Token::StringLiteral("1".to_string()), sp(20, 23)),
        (Token::Punct(Punct::Carets), sp(23, 25)),
        (iri("int"), sp(25, 30)),
        (Token::Punct(Punct::Comma), sp(31, 32)),
        (Token::StringLiteral("x".to_string()), sp(33, 36)),
        (Token::Punct(Punct::Comma), sp(37, 38)),
        (Token::Keyword(Keyword::True), sp(39, 43)),
        (Token::Punct(Punct::Comma), sp(44, 45)),
        (Token::Keyword(Keyword::False), sp(46, 51)),
        (Token::Punct(Punct::Comma), sp(52, 53)),
        (Token::Numeric(NumericLiteral::Decimal("4.2".to_string())), sp(54, 57)),
        (period(), sp(58, 59)),
    ];
    let (doc, _) = parse(tokens, 59).unwrap();
    let objects = match &doc.statements[0].0 {
        Statement::Triples(t) => &t.predicate_objects_list.0[0].0.objects.0 .0,
        other => panic!("not triples: {:?}", other),
    };
    assert_eq!(objects.len(), 6);
    assert_eq!(
        objects[0],
        (
            Object::Literal(Literal::Rdf(RdfLiteral {
                value: ("chat".to_string(), sp(8, 14)),
                type_: (LiteralType::LangString("fr".to_string()), sp(14, 17)),
            })),
            sp(8, 17)
        )
    );
    assert_eq!(
        objects[1],
        (
            Object::Literal(Literal::Rdf(RdfLiteral {
                value: ("1".to_string(), sp(20, 23)),
                type_: (LiteralType::Any(Iri::IriRef("int".to_string())), sp(25, 30)),
            })),
            sp(20, 30)
        )
    );
    assert_eq!(
        objects[2],
        (
            Object::Literal(Literal::Rdf(RdfLiteral {
                value: ("x".to_string(), sp(33, 36)),
                type_: (
                    LiteralType::Any(Iri::IriRef("http://www.w3.org/2001/XMLSchema#string".to_string())),
                    sp(33, 36)
                ),
            })),
            sp(33, 36)
        )
    );
    assert_eq!(objects[3], (Object::Literal(Literal::Boolean(true)), sp(39, 43)));
    assert_eq!(objects[4], (Object::Literal(Literal::Boolean(false)), sp(46, 51)));
    assert_eq!(
        objects[5],
        (Object::Literal(Literal::Numeric(NumericLiteral::Decimal("4.2".to_string()))), sp(54, 57))
    );
}

#[test]
fn prefixed_names() {
    // ex:s ex:p ex:o .
    let tokens = vec![
        (compact("ex", sp(0, 2), "s", sp(3, 4)), sp(0, 4)),
        (compact("ex", sp(5, 7), "p", sp(8, 9)), sp(5, 9)),
        (compact("ex", sp(10, 12), "o", sp(13, 14)), sp(10, 14)),
        (period(), sp(15, 16)),
    ];
    let (doc, _) = parse(tokens, 16).unwrap();
    match &doc.statements[0].0 {
        Statement::Triples(t) => {
            assert_eq!(
                t.subject,
                (
                    Subject::Iri(Iri::PrefixedName(
                        ("ex".to_string(), sp(0, 2)),
                        ("s".to_string(), sp(3, 4))
                    )),
                    sp(0, 4)
                )
            );
            assert_eq!(
                t.predicate_objects_list.0[0].0.verb,
                (
                    Verb::Predicate(Iri::PrefixedName(
                        ("ex".to_string(), sp(5, 7)),
                        ("p".to_string(), sp(8, 9))
                    )),
                    sp(5, 9)
                )
            );
        }
        other => panic!("not triples: {:?}", other),
    }
}

#[test]
fn unexpected_tokens() {
    // A literal cannot be a subject.
    let (err, span) = parse(vec![(Token::StringLiteral("x".to_string()), sp(0, 3))], 3).unwrap_err();
    assert_eq!(*err, Error::Unexpected(Unexpected::Token(Token::StringLiteral("x".to_string()))));
    assert_eq!(span, sp(0, 3));
    // A literal cannot be a predicate.
    let tokens = vec![
        (iri("s"), sp(0, 3)),
        (Token::Keyword(Keyword::True), sp(4, 8)),
        (iri("o"), sp(9, 12)),
        (period(), sp(13, 14)),
    ];
    let (err, span) = parse(tokens, 14).unwrap_err();
    assert_eq!(*err, Error::Unexpected(Unexpected::Token(Token::Keyword(Keyword::True))));
    assert_eq!(span, sp(4, 8));
    // Two objects need a comma between them.
    let tokens = vec![
        (iri("s"), sp(0, 3)),
        (iri("p"), sp(4, 7)),
        (iri("o"), sp(8, 11)),
        (iri("o2"), sp(12, 16)),
        (period(), sp(17, 18)),
    ];
    let (err, span) = parse(tokens, 18).unwrap_err();
    assert_eq!(*err, Error::Unexpected(Unexpected::Token(iri("o2"))));
    assert_eq!(span, sp(12, 16));
    // A subject with no predicate.
    let tokens = vec![(iri("s"), sp(0, 3)), (period(), sp(4, 5))];
    let (err, span) = parse(tokens, 5).unwrap_err();
    assert_eq!(*err, Error::Unexpected(Unexpected::Token(period())));
    assert_eq!(span, sp(4, 5));
}

#[test]
fn lexical_error_is_reported() {
    let mut tokens = simple_triple(0);
    tokens.truncate(2);
    let lexer: TokenList<u8> = TokenList::new(tokens, Err((42, sp(8, 9))));
    let mut parser = Parser::new(lexer, |span: Span| span);
    let (err, span) = Document::parse_with(&mut parser).unwrap_err();
    assert_eq!(*err, Error::Lexer(42));
    assert_eq!(span, sp(8, 9));
    // An error that comes after a whole document still fails it.
    let lexer: TokenList<u8> = TokenList::new(simple_triple(0), Err((7, sp(14, 15))));
    let mut parser = Parser::new(lexer, |span: Span| span);
    let (err, span) = Document::parse_with(&mut parser).unwrap_err();
    assert_eq!(*err, Error::Lexer(7));
    assert_eq!(span, sp(14, 15));
}

#[test]
fn documents_concatenate() {
    let mut first = simple_triple(0);
    first.extend(vec![
        (Token::Keyword(Keyword::Base), sp(14, 19)),
        (iri("http://b/"), sp(20, 30)),
        (period(), sp(31, 32)),
    ]);
    let second = simple_triple(40);
    let (d1, _) = parse(first.clone_tokens(), 32).unwrap();
    let (d2, m2) = parse(second.clone_tokens(), 53).unwrap();
    let mut both = first;
    both.extend(second);
    let (d, m) = parse(both, 53).unwrap();
    let mut statements = d1.statements;
    statements.extend(d2.statements);
    assert_eq!(d.statements, statements);
    assert_eq!(m, sp(0, 53));
    assert_eq!(m2, sp(40, 53));
}

trait CloneTokens {
    fn clone_tokens(&self) -> Vec<(Token, Span)>;
}

impl CloneTokens for Vec<(Token, Span)> {
    fn clone_tokens(&self) -> Vec<(Token, Span)> {
        self.iter().map(|(t, s)| (clone_token(t), *s)).collect()
    }
}

fn clone_token(t: &Token) -> Token {
    match t {
        Token::Keyword(k) => Token::Keyword(*k),
        Token::Begin(d) => Token::Begin(*d),
        Token::End(d) => Token::End(*d),
        Token::LangTag(s) => Token::LangTag(s.clone()),
        Token::IriRef(s) => Token::IriRef(s.clone()),
        Token::StringLiteral(s) => Token::StringLiteral(s.clone()),
        Token::BlankNodeLabel(s) => Token::BlankNodeLabel(s.clone()),
        Token::CompactIri((a, x), (b, y)) => Token::CompactIri((a.clone(), *x), (b.clone(), *y)),
        Token::Numeric(NumericLiteral::Integer(s)) => Token::Numeric(NumericLiteral::Integer(s.clone())),
        Token::Numeric(NumericLiteral::Decimal(s)) => Token::Numeric(NumericLiteral::Decimal(s.clone())),
        Token::Numeric(NumericLiteral::Double(s)) => Token::Numeric(NumericLiteral::Double(s.clone())),
        Token::Punct(p) => Token::Punct(*p),
    }
}

#[test]
fn blank_node_labels() {
    let tokens = vec![
        (Token::BlankNodeLabel("b0".to_string()), sp(0, 4)),
        (iri("p"), sp(5, 8)),
        (Token::BlankNodeLabel("b1".to_string()), sp(9, 13)),
        (period(), sp(14, 15)),
    ];
    let (doc, _) = parse(tokens, 15).unwrap();
    match &doc.statements[0].0 {
        Statement::Triples(t) => {
            assert_eq!(t.subject, (Subject::BlankNode(BlankNode::Label("b0".to_string())), sp(0, 4)));
            assert_eq!(
                t.predicate_objects_list.0[0].0.objects.0 .0[0],
                (Object::BlankNode(BlankNode::Label("b1".to_string())), sp(9, 13))
            );
        }
        other => panic!("not triples: {:?}", other),
    }
}

/// Parses a statement whose first token is `first`, the rest coming from `rest`.
fn parse_statement(
    first: (Token, Span),
    rest: Vec<(Token, Span)>,
    end: usize,
) -> Result<(Statement<Span>, Span), ParseError<u8, Span>> {
    let lexer: TokenList<u8> = TokenList::new(rest, Ok(sp(end, end)));
    let mut parser = Parser::new(lexer, |span: Span| span);
    Statement::parse_from(&mut parser, first.0, first.1)
}

#[test]
fn statement_does_not_read_past_its_end() {
    let alone = parse_statement(
        (iri("s"), sp(0, 3)),
        vec![(iri("p"), sp(4, 7)), (iri("o"), sp(8, 11)), (period(), sp(12, 13))],
        13,
    )
    .unwrap();
    // The same statement, followed by tokens that cannot start a statement.
    let followed = parse_statement(
        (iri("s"), sp(0, 3)),
        vec![
            (iri("p"), sp(4, 7)),
            (iri("o"), sp(8, 11)),
            (period(), sp(12, 13)),
            (Token::End(Delimiter::Parenthesis), sp(14, 15)),
            (Token::Punct(Punct::Carets), sp(16, 18)),
        ],
        18,
    )
    .unwrap();
    assert_eq!(alone, followed);
    // A directive too.
    let base = |more: Vec<(Token, Span)>| {
        let mut rest = vec![(iri("http://b/"), sp(5, 15))];
        rest.extend(more);
        parse_statement((Token::Keyword(Keyword::SparqlBase), sp(0, 4)), rest, 40).unwrap()
    };
    assert_eq!(base(vec![]), base(vec![(Token::LangTag("en".to_string()), sp(16, 19))]));
}

#[test]
fn object_list_needs_an_end() {
    // <s> <p> <o> then the end of the input: the list is not closed.
    let tokens = vec![(iri("s"), sp(0, 3)), (iri("p"), sp(4, 7)), (iri("o"), sp(8, 11))];
    let (err, span) = parse(tokens, 11).unwrap_err();
    assert_eq!(*err, Error::Unexpected(Unexpected::EndOfFile));
    assert_eq!(span, sp(11, 11));
    // A semicolon at the very end.
    let tokens = vec![
        (iri("s"), sp(0, 3)),
        (iri("p"), sp(4, 7)),
        (iri("o"), sp(8, 11)),
        (Token::Punct(Punct::Semicolon), sp(12, 13)),
    ];
    let (err, span) = parse(tokens, 13).unwrap_err();
    assert_eq!(*err, Error::Unexpected(Unexpected::EndOfFile));
    assert_eq!(span, sp(13, 13));
}

#[test]
fn lexical_error_while_looking_ahead() {
    // "x" then a lexical error: looking for a language tag or `^^` meets the error.
    let tokens = vec![
        (iri("s"), sp(0, 3)),
        (iri("p"), sp(4, 7)),
        (Token::StringLiteral("x".to_string()), sp(8, 11)),
    ];
    let lexer: TokenList<u8> = TokenList::new(tokens, Err((5, sp(11, 12))));
    let mut parser = Parser::new(lexer, |span: Span| span);
    let (err, span) = Document::parse_with(&mut parser).unwrap_err();
    assert_eq!(*err, Error::Lexer(5));
    assert_eq!(span, sp(11, 12));
}

#[test]
fn directive_errors() {
    // @prefix without a prefixed name.
    let tokens = vec![
        (Token::Keyword(Keyword::Prefix), sp(0, 7)),
        (iri("http://x/"), sp(8, 19)),
        (period(), sp(20, 21)),
    ];
    let (err, span) = parse(tokens, 21).unwrap_err();
    assert_eq!(*err, Error::Unexpected(Unexpected::Token(iri("http://x/"))));
    assert_eq!(span, sp(8, 19));
    // @base with a prefixed name.
    let tokens = vec![
        (Token::Keyword(Keyword::Base), sp(0, 5)),
        (compact("ex", sp(6, 8), "", sp(9, 9)), sp(6, 9)),
        (period(), sp(10, 11)),
    ];
    let (err, span) = parse(tokens, 11).unwrap_err();
    assert_eq!(*err, Error::Unexpected(Unexpected::Token(compact("ex", sp(6, 8), "", sp(9, 9)))));
    assert_eq!(span, sp(6, 9));
    // PREFIX cut short.
    let tokens = vec![(Token::Keyword(Keyword::SparqlPrefix), sp(0, 6))];
    let (err, span) = parse(tokens, 6).unwrap_err();
    assert_eq!(*err, Error::Unexpected(Unexpected::EndOfFile));
    assert_eq!(span, sp(6, 6));
    // @prefix whose IRI is followed by something else than a period.
    let tokens = vec![
        (Token::Keyword(Keyword::Prefix), sp(0, 7)),
        (compact("ex", sp(8, 10), "", sp(11, 11)), sp(8, 11)),
        (iri("http://example.org/"), sp(12, 33)),
        (Token::Punct(Punct::Semicolon), sp(34, 35)),
    ];
    let (err, span) = parse(tokens, 35).unwrap_err();
    assert_eq!(*err, Error::Unexpected(Unexpected::Token(Token::Punct(Punct::Semicolon))));
    assert_eq!(span, sp(34, 35));
}

#[test]
fn unexpected_from_option() {
    assert_eq!(Unexpected::from(None), Unexpected::EndOfFile);
    assert_eq!(Unexpected::from(Some(period())), Unexpected::Token(period()));
}

#[test]
fn nested_blank_nodes() {
    // <s> <p> [ <q> [ <r> <o> ] ] .
    let tokens = vec![
        (iri("s"), sp(0, 3)),
        (iri("p"), sp(4, 7)),
        (Token::Begin(Delimiter::Bracket), sp(8, 9)),
        (iri("q"), sp(10, 13)),
        (Token::Begin(Delimiter::Bracket), sp(14, 15)),
        (iri("r"), sp(16, 19)),
        (iri("o"), sp(20, 23)),
        (Token::End(Delimiter::Bracket), sp(24, 25)),
        (Token::End(Delimiter::Bracket), sp(26, 27)),
        (period(), sp(28, 29)),
    ];
    let (doc, span) = parse(tokens, 29).unwrap();
    assert_eq!(span, sp(0, 29));
    let inner = Object::BlankNode(BlankNode::Anonymous((
        vec![(
            PredicateObjects {
                verb: (Verb::Predicate(Iri::IriRef("r".to_string())), sp(16, 19)),
                objects: (Objects(vec![(Object::Iri(Iri::IriRef("o".to_string())), sp(20, 23))]), sp(20, 23)),
            },
            sp(16, 23),
        )],
        sp(16, 19),
    )));
    let outer = Object::BlankNode(BlankNode::Anonymous((
        vec![(
            PredicateObjects {
                verb: (Verb::Predicate(Iri::IriRef("q".to_string())), sp(10, 13)),
                objects: (Objects(vec![(inner, sp(14, 25))]), sp(14, 15)),
            },
            sp(10, 25),
        )],
        sp(10, 13),
    )));
    match &doc.statements[0].0 {
        Statement::Triples(t) => {
            assert_eq!(t.predicate_objects_list.0[0].0.objects.0 .0, vec![(outer, sp(8, 27))]);
        }
        other => panic!("not triples: {:?}", other),
    }
}

#[test]
fn metadata_builder_gives_the_metadata() {
    // Each node carries what the builder makes of its span: here, where the span starts.
    let lexer: TokenList<u8> = TokenList::new(simple_triple(20), Ok(sp(33, 33)));
    let mut parser = Parser::new(lexer, |span: Span| span.start);
    let (doc, start) = Document::parse_with(&mut parser).unwrap();
    assert_eq!(start, 20);
    let expected = Statement::Triples(Triples {
        subject: (Subject::Iri(Iri::IriRef("http://example.org/s".to_string())), 20),
        predicate_objects_list: (
            vec![(
                PredicateObjects {
                    verb: (Verb::Predicate(Iri::IriRef("http://example.org/p".to_string())), 24),
                    objects: (
                        Objects(vec![(Object::Iri(Iri::IriRef("http://example.org/o".to_string())), 28)]),
                        28,
                    ),
                },
                24,
            )],
            24,
        ),
    });
    assert_eq!(doc.statements, vec![(expected, 20)]);
    // An error carries the builder's metadata too.
    let tokens = vec![(iri("s"), sp(5, 8)), (period(), sp(9, 10))];
    let lexer: TokenList<u8> = TokenList::new(tokens, Ok(sp(10, 10)));
    let mut parser = Parser::new(lexer, |span: Span| span.end);
    let (err, end) = Document::parse_with(&mut parser).unwrap_err();
    assert_eq!(*err, Error::Unexpected(Unexpected::Token(period())));
    assert_eq!(end, 10);
}

fn parser_over(tokens: Vec<(Token, Span)>, end: usize) -> Parser<TokenList<u8>, impl Fn(Span) -> Span> {
    Parser::new(TokenList::new(tokens, Ok(sp(end, end))), |span: Span| span)
}

#[test]
fn parse_with_at_end_of_input() {
    let eof = Error::Unexpected(Unexpected::EndOfFile);
    assert_eq!(*Verb::parse_with(&mut parser_over(vec![], 3)).unwrap_err().0, eof);
    assert_eq!(*Literal::parse_with(&mut parser_over(vec![], 3)).unwrap_err().0, eof);
    assert_eq!(*Collection::parse_with(&mut parser_over(vec![], 3)).unwrap_err().0, eof);
    assert_eq!(*Subject::parse_with(&mut parser_over(vec![], 3)).unwrap_err().0, eof);
    assert_eq!(*Triples::parse_with(&mut parser_over(vec![], 3)).unwrap_err().0, eof);
    assert_eq!(*Directive::parse_with(&mut parser_over(vec![], 3)).unwrap_err().0, eof);
    let (err, span) = Statement::parse_with(&mut parser_over(vec![], 3)).unwrap_err();
    assert_eq!(*err, eof);
    assert_eq!(span, sp(3, 3));
}

#[test]
fn parse_with_reads_the_first_token() {
    let mut parser = parser_over(vec![(Token::Keyword(Keyword::A), sp(0, 1))], 1);
    assert_eq!(Verb::parse_with(&mut parser).unwrap(), (Verb::A, sp(0, 1)));
    let mut parser = parser_over(vec![(Token::Keyword(Keyword::True), sp(0, 4))], 4);
    assert_eq!(Literal::parse_with(&mut parser).unwrap(), (Literal::Boolean(true), sp(0, 4)));
    let tokens = vec![(Token::Keyword(Keyword::SparqlBase), sp(0, 4)), (iri("b"), sp(5, 8))];
    let (d, span) = Directive::parse_with(&mut parser_over(tokens, 8)).unwrap();
    assert_eq!(d, Directive::SparqlBase(("b".to_string(), sp(5, 8))));
    assert_eq!(span, sp(0, 8));
    let (t, span) = Triples::parse_with(&mut parser_over(simple_triple(0), 13)).unwrap();
    assert_eq!(t.subject.1, sp(0, 3));
    assert_eq!(span, sp(0, 11));
    let tokens = vec![
        (Token::Begin(Delimiter::Parenthesis), sp(0, 1)),
        (iri("o"), sp(2, 5)),
        (Token::End(Delimiter::Parenthesis), sp(6, 7)),
    ];
    let (c, span) = Collection::parse_with(&mut parser_over(tokens, 7)).unwrap();
    assert_eq!(c, Collection(vec![(Object::Iri(Iri::IriRef("o".to_string())), sp(2, 5))]));
    assert_eq!(span, sp(0, 7));
    let (s, _) = Subject::parse_with(&mut parser_over(vec![(iri("s"), sp(0, 3))], 3)).unwrap();
    assert_eq!(s, Subject::Iri(Iri::IriRef("s".to_string())));
}

#[test]
fn failed_prefix_reads_only_the_prefixed_name() {
    let tokens = vec![
        (Token::Keyword(Keyword::Prefix), sp(0, 7)),
        (compact("ex", sp(8, 10), "b", sp(11, 12)), sp(8, 12)),
        (iri("http://a.org/"), sp(13, 28)),
        (period(), sp(29, 30)),
    ];
    let mut parser = parser_over(tokens, 30);
    let (err, span) = Statement::parse_with(&mut parser).unwrap_err();
    assert_eq!(*err, Error::Unexpected(Unexpected::Token(compact("ex", sp(8, 10), "b", sp(11, 12)))));
    assert_eq!(span, sp(0, 7));
    // The IRI reference is still the next token.
    assert_eq!(
        Iri::parse_with(&mut parser).unwrap(),
        (Iri::IriRef("http://a.org/".to_string()), sp(13, 28))
    );
}

#[test]
fn period_after_plain_subject_is_left_unread() {
    let mut parser = parser_over(vec![(iri("s"), sp(0, 3)), (period(), sp(4, 5))], 5);
    let (err, span) = Triples::parse_with(&mut parser).unwrap_err();
    assert_eq!(*err, Error::Unexpected(Unexpected::Token(period())));
    assert_eq!(span, sp(4, 5));
    // The period was only looked at: reading a verb now meets it.
    let (err, span) = Verb::parse_with(&mut parser).unwrap_err();
    assert_eq!(*err, Error::Unexpected(Unexpected::Token(period())));
    assert_eq!(span, sp(4, 5));
    // Now it has been read: the input is over.
    let (err, _) = Verb::parse_with(&mut parser).unwrap_err();
    assert_eq!(*err, Error::Unexpected(Unexpected::EndOfFile));
}

#[test]
fn token_that_starts_no_directive_reads_nothing() {
    let mut parser = parser_over(vec![(iri("y"), sp(4, 7))], 7);
    let (err, span) = Directive::parse_from(&mut parser, iri("x"), sp(0, 3)).unwrap_err();
    assert_eq!(*err, Error::Unexpected(Unexpected::Token(iri("x"))));
    assert_eq!(span, sp(0, 3));
    assert_eq!(Iri::parse_with(&mut parser).unwrap(), (Iri::IriRef("y".to_string()), sp(4, 7)));
}

#[test]
fn offending_token_after_objects_is_read() {
    let tokens = vec![
        (iri("s"), sp(0, 3)),
        (iri("p"), sp(4, 7)),
        (iri("o"), sp(8, 11)),
        (iri("x"), sp(12, 15)),
        (iri("y"), sp(16, 19)),
    ];
    let mut parser = parser_over(tokens, 19);
    let (err, span) = Statement::parse_with(&mut parser).unwrap_err();
    assert_eq!(*err, Error::Unexpected(Unexpected::Token(iri("x"))));
    assert_eq!(span, sp(12, 15));
    assert_eq!(Iri::parse_with(&mut parser).unwrap(), (Iri::IriRef("y".to_string()), sp(16, 19)));
}

#[test]
fn any_builder_gives_the_same_shape() {
    // A builder that counts its calls gives other metadata, but the same tree and the same
    // failures.
    let calls = std::cell::Cell::new(0usize);
    let counting = |_: Span| {
        calls.set(calls.get() + 1);
        calls.get()
    };
    let tokens = vec![
        (iri("s"), sp(0, 3)),
        (iri("p"), sp(4, 7)),
        (Token::Begin(Delimiter::Bracket), sp(8, 9)),
        (iri("q"), sp(10, 13)),
        (iri("o"), sp(14, 17)),
        (Token::End(Delimiter::Bracket), sp(18, 19)),
        (period(), sp(20, 21)),
    ];
    let copy: Vec<(Token, Span)> = tokens.iter().map(|(t, s)| (clone_token(t), *s)).collect();
    let mut parser = Parser::new(TokenList::<u8>::new(tokens, Ok(sp(21, 21))), counting);
    let (doc, _) = Document::parse_with(&mut parser).unwrap();
    assert!(calls.get() > 0);
    let (by_span, _) = parse(copy, 21).unwrap();
    assert_eq!(doc.statements.len(), by_span.statements.len());
    match (&doc.statements[0].0, &by_span.statements[0].0) {
        (Statement::Triples(a), Statement::Triples(b)) => {
            assert!(matches!(a.subject.0, Subject::Iri(Iri::IriRef(ref s)) if s == "s"));
            assert!(matches!(b.subject.0, Subject::Iri(Iri::IriRef(ref s)) if s == "s"));
            let (pa, pb) = (&a.predicate_objects_list.0[0].0, &b.predicate_objects_list.0[0].0);
            assert!(matches!(pa.verb.0, Verb::Predicate(Iri::IriRef(ref p)) if p == "p"));
            assert!(matches!(pb.verb.0, Verb::Predicate(Iri::IriRef(ref p)) if p == "p"));
            assert!(matches!(pa.objects.0 .0[0].0, Object::BlankNode(BlankNode::Anonymous(ref l)) if l.0.len() == 1));
            assert!(matches!(pb.objects.0 .0[0].0, Object::BlankNode(BlankNode::Anonymous(ref l)) if l.0.len() == 1));
        }
        _ => panic!("not triples"),
    }
    // A failure is the same error at the same point, with the builder's metadata.
    let mut parser = Parser::new(
        TokenList::<u8>::new(vec![(iri("s"), sp(0, 3)), (period(), sp(4, 5))], Ok(sp(5, 5))),
        |_: Span| 7u8,
    );
    let (err, meta) = Triples::parse_with(&mut parser).unwrap_err();
    assert_eq!(*err, Error::Unexpected(Unexpected::Token(period())));
    assert_eq!(meta, 7);
}

#[test]
fn prefix_metadata_is_built_namespace_first() {
    let calls = std::cell::RefCell::new(Vec::new());
    let recording = |span: Span| {
        calls.borrow_mut().push(span);
        span
    };
    let tokens = vec![
        (compact("ex", sp(8, 10), "", sp(11, 11)), sp(8, 11)),
        (iri("http://example.org/"), sp(12, 33)),
        (period(), sp(34, 35)),
    ];
    let mut parser = Parser::new(TokenList::<u8>::new(tokens, Ok(sp(35, 35))), recording);
    let (d, span) = Directive::parse_from(&mut parser, Token::Keyword(Keyword::Prefix), sp(0, 7)).unwrap();
    assert_eq!(
        d,
        Directive::Prefix(("ex".to_string(), sp(8, 10)), ("http://example.org/".to_string(), sp(12, 33)))
    );
    assert_eq!(span, sp(0, 35));
    assert_eq!(*calls.borrow(), vec![sp(8, 10), sp(12, 33), sp(0, 35)]);
}
