//! The grammar of Turtle, as the mathematical definition of what the parser gives for a
//! stream of tokens: each function reads the stream as the parser does and gives the model
//! of the node parsed, its metadata and what is left of the stream, or the error.
//!
//! `meta` stands for the parser's metadata builder: the metadata of a node is `meta`
//! applied to the span of source text that the node covers.
use vstd::prelude::*;

use crate::ast::{
    SpecBlankNode, SpecCollection, SpecDirective, SpecDocument, SpecIri, SpecLiteral,
    SpecLiteralType, SpecObject, SpecObjects, SpecPredicateObjects, SpecRdfLiteral,
    SpecStatement, SpecSubject, SpecTriples, SpecVerb,
};
use crate::lexing::{Delimiter, Keyword, Punct, Token, TokenKind, TokenStream};
use crate::parsing::{Error, ParseError, Unexpected};
use crate::span::Span;

verus! {

/// A failed parse: the error, and what is left of the token stream once the parser has
/// read the tokens it reads before it gives up.
pub type Failure<E, M> = (ParseError<E, M>, TokenStream<E>);

/// The expected outcome of parsing a node: the node's model, its metadata and what is
/// left of the token stream; or the failure.
pub type Parsed<T, E, M> = Result<(T, M, TokenStream<E>), Failure<E, M>>;

/// The expected outcome of parsing a list whose metadata is not made where it ends.
pub type ParsedList<T, E, M> = Result<(Seq<T>, TokenStream<E>), Failure<E, M>>;

/// What becomes of a token, or of the end of the input, found where it cannot stand.
pub open spec fn unexpected_of(token: Option<Token>) -> Unexpected {
    match token {
        Some(t) => Unexpected::Token(t),
        None => Unexpected::EndOfFile,
    }
}

/// The error for an unexpected token or end of file, at `span`.
pub open spec fn unexpected_error<E, M>(u: Unexpected, span: Span, meta: spec_fn(Span) -> M) -> ParseError<E, M> {
    (Box::new(Error::Unexpected(u)), meta(span))
}

/// The error where the stream has no token left: the lexical error that ends it, or an
/// unexpected end of file at the end of the input.
pub open spec fn end_error<E, M>(s: TokenStream<E>, meta: spec_fn(Span) -> M) -> ParseError<E, M> {
    match s.end {
        Ok(span) => unexpected_error(Unexpected::EndOfFile, span, meta),
        Err((e, span)) => (Box::new(Error::Lexer(e)), meta(span)),
    }
}

/// The error where the next token, or the end of the input, is not the one expected.
pub open spec fn mismatch_error<E, M>(s: TokenStream<E>, meta: spec_fn(Span) -> M) -> ParseError<E, M> {
    if s.tokens.len() > 0 {
        unexpected_error(Unexpected::Token(s.tokens[0].0), s.tokens[0].1, meta)
    } else {
        end_error(s, meta)
    }
}

/// The failure where the next token, or the end of the input, is read and is not the
/// one expected: the token is consumed.
pub open spec fn read_failure<E, M>(s: TokenStream<E>, meta: spec_fn(Span) -> M) -> Failure<E, M> {
    (mismatch_error(s, meta), s.advance())
}

/// `s` starts with a token of kind `k`.
pub open spec fn next_is<E>(s: TokenStream<E>, k: TokenKind) -> bool {
    s.tokens.len() > 0 && s.tokens[0].0.spec_kind() == k
}

/// A sub-parser's remaining stream that is not a suffix of its input; no parser
/// function ever gives one (the parsing functions' postconditions, and the lemmas
/// of `laws`, show it), but the definitions below test for it, which makes their
/// termination evident.
pub open spec fn not_a_suffix<T, E, M>(s: TokenStream<E>, meta: spec_fn(Span) -> M) -> Parsed<T, E, M> {
    Err((end_error(s, meta), s))
}

/// The datatype IRI of plain string literals.
pub open spec fn xsd_string_iri() -> Seq<char> {
    "http://www.w3.org/2001/XMLSchema#string"@
}

/// The prefixed name made from a prefix and a suffix, each with its span.
pub open spec fn compact_iri_model<M>(
    prefix: (String, Span),
    suffix: (String, Span),
    meta: spec_fn(Span) -> M,
) -> SpecIri<M> {
    SpecIri::PrefixedName((prefix.0@, meta(prefix.1)), (suffix.0@, meta(suffix.1)))
}

/// An IRI, starting with `token`.
pub open spec fn iri_from<E, M>(
    s: TokenStream<E>,
    token: Token,
    span: Span,
    meta: spec_fn(Span) -> M,
) -> Parsed<SpecIri<M>, E, M> {
    match token {
        Token::IriRef(i) => Ok((SpecIri::IriRef(i@), meta(span), s)),
        Token::CompactIri(p, x) => Ok((compact_iri_model(p, x, meta), meta(span), s)),
        _ => Err((unexpected_error(Unexpected::Token(token), span, meta), s)),
    }
}

/// An IRI, read from the stream.
pub open spec fn iri_with<E, M>(s: TokenStream<E>, meta: spec_fn(Span) -> M) -> Parsed<
    SpecIri<M>,
    E,
    M,
> {
    if s.tokens.len() > 0 {
        iri_from(s.advance(), s.tokens[0].0, s.tokens[0].1, meta)
    } else {
        Err((end_error(s, meta), s))
    }
}

/// A verb, starting with `token`.
pub open spec fn verb_from<E, M>(
    s: TokenStream<E>,
    token: Token,
    span: Span,
    meta: spec_fn(Span) -> M,
) -> Parsed<SpecVerb<M>, E, M> {
    match token {
        Token::Keyword(Keyword::A) => Ok((SpecVerb::A, meta(span), s)),
        _ => match iri_from(s, token, span, meta) {
            Ok((i, m, rest)) => Ok((SpecVerb::Predicate(i), m, rest)),
            Err(e) => Err(e),
        },
    }
}

/// The literal that a string literal token starts: a language tag or a `^^` and a
/// datatype IRI may follow; without them, the type is `xsd:string`.
pub open spec fn rdf_literal<E, M>(
    s: TokenStream<E>,
    string: String,
    string_span: Span,
    meta: spec_fn(Span) -> M,
) -> Parsed<SpecRdfLiteral<M>, E, M> {
    let plain = Ok((
        SpecRdfLiteral {
            value: (string@, meta(string_span)),
            type_: (SpecLiteralType::Any(SpecIri::IriRef(xsd_string_iri())), meta(string_span)),
        },
        meta(string_span),
        s,
    ));
    if s.tokens.len() > 0 {
        match s.tokens[0].0 {
            Token::LangTag(tag) => {
                let tag_span = s.tokens[0].1;
                Ok((
                    SpecRdfLiteral {
                        value: (string@, meta(string_span)),
                        type_: (SpecLiteralType::LangString(tag@), meta(tag_span)),
                    },
                    meta(string_span.spec_union(tag_span)),
                    s.advance(),
                ))
            },
            Token::Punct(Punct::Carets) => match iri_with(s.advance(), meta) {
                Ok((i, m, rest)) => Ok((
                    SpecRdfLiteral {
                        value: (string@, meta(string_span)),
                        type_: (SpecLiteralType::Any(i), m),
                    },
                    meta(string_span.spec_union(rest.last)),
                    rest,
                )),
                Err(e) => Err(e),
            },
            _ => plain,
        }
    } else {
        match s.end {
            Ok(_) => plain,
            Err(_) => Err((end_error(s, meta), s)),
        }
    }
}

/// A literal, starting with `token`.
pub open spec fn literal_from<E, M>(
    s: TokenStream<E>,
    token: Token,
    span: Span,
    meta: spec_fn(Span) -> M,
) -> Parsed<SpecLiteral<M>, E, M> {
    match token {
        Token::StringLiteral(string) => match rdf_literal(s, string, span, meta) {
            Ok((l, m, rest)) => Ok((SpecLiteral::Rdf(l), m, rest)),
            Err(e) => Err(e),
        },
        Token::Numeric(n) => Ok((SpecLiteral::Numeric(n@), meta(span), s)),
        Token::Keyword(Keyword::True) => Ok((SpecLiteral::Boolean(true), meta(span), s)),
        Token::Keyword(Keyword::False) => Ok((SpecLiteral::Boolean(false), meta(span), s)),
        _ => Err((unexpected_error(Unexpected::Token(token), span, meta), s)),
    }
}

/// An anonymous blank node, its opening `[` having been read at `span`: its
/// predicate-objects list (possibly empty), with the list's metadata, up to the closing
/// `]`. The node's span runs from `[` to `]`.
pub open spec fn anonymous_from<E, M>(s: TokenStream<E>, span: Span, meta: spec_fn(Span) -> M) -> Parsed<
    SpecBlankNode<M>,
    E,
    M,
>
    decreases s.tokens.len(), 1nat,
{
    let list = if next_is(s, TokenKind::End(Delimiter::Bracket)) {
        Ok((Seq::empty(), meta(s.last.spec_next()), s))
    } else {
        po_list_with(s, meta)
    };
    match list {
        Ok((l, l_meta, rest)) => {
            if !s.is_suffix(rest) {
                not_a_suffix(rest, meta)
            } else {
                anonymous_end(rest, (l, l_meta), span, meta)
            }
        },
        Err(e) => Err(e),
    }
}

/// The `]` that closes an anonymous blank node opened at `span`, whose
/// predicate-objects list is read.
pub open spec fn anonymous_end<E, M>(
    s: TokenStream<E>,
    list: (Seq<(SpecPredicateObjects<M>, M)>, M),
    span: Span,
    meta: spec_fn(Span) -> M,
) -> Parsed<SpecBlankNode<M>, E, M> {
    if next_is(s, TokenKind::End(Delimiter::Bracket)) {
        let after = s.advance();
        Ok((SpecBlankNode::Anonymous(list), meta(span.spec_union(after.last)), after))
    } else {
        Err(read_failure(s, meta))
    }
}

/// The objects of a collection, its opening `(` having been read at `span`, `items`
/// being those read so far.
pub open spec fn collection_rest<E, M>(
    s: TokenStream<E>,
    items: Seq<(SpecObject<M>, M)>,
    span: Span,
    meta: spec_fn(Span) -> M,
) -> Parsed<SpecCollection<M>, E, M>
    decreases s.tokens.len(), 0nat,
{
    if s.tokens.len() > 0 {
        let (t, t_span) = s.tokens[0];
        let after = s.advance();
        match t {
            Token::End(Delimiter::Parenthesis) => Ok(
                (SpecCollection(items), meta(span.spec_union(t_span)), after),
            ),
            _ => match object_from(after, t, t_span, meta) {
                Ok((o, m, rest)) => if !after.is_suffix(rest) {
                    not_a_suffix(rest, meta)
                } else {
                    collection_rest(rest, items.push((o, m)), span, meta)
                },
                Err(e) => Err(e),
            },
        }
    } else {
        Err((end_error(s, meta), s))
    }
}

/// A collection, starting with `token`.
pub open spec fn collection_from<E, M>(
    s: TokenStream<E>,
    token: Token,
    span: Span,
    meta: spec_fn(Span) -> M,
) -> Parsed<SpecCollection<M>, E, M>
    decreases s.tokens.len(), 1nat,
{
    match token {
        Token::Begin(Delimiter::Parenthesis) => collection_rest(s, Seq::empty(), span, meta),
        _ => Err((unexpected_error(Unexpected::Token(token), span, meta), s)),
    }
}

/// A subject, starting with `token`.
pub open spec fn subject_from<E, M>(
    s: TokenStream<E>,
    token: Token,
    span: Span,
    meta: spec_fn(Span) -> M,
) -> Parsed<SpecSubject<M>, E, M>
    decreases s.tokens.len(), 3nat,
{
    match token {
        Token::IriRef(i) => Ok((SpecSubject::Iri(SpecIri::IriRef(i@)), meta(span), s)),
        Token::CompactIri(p, x) => Ok(
            (SpecSubject::Iri(compact_iri_model(p, x, meta)), meta(span), s),
        ),
        Token::BlankNodeLabel(l) => Ok(
            (SpecSubject::BlankNode(SpecBlankNode::Label(l@)), meta(span), s),
        ),
        Token::Begin(Delimiter::Bracket) => match anonymous_from(s, span, meta) {
            Ok((b, m, rest)) => Ok((SpecSubject::BlankNode(b), m, rest)),
            Err(e) => Err(e),
        },
        Token::Begin(Delimiter::Parenthesis) => match collection_from(s, token, span, meta) {
            Ok((c, m, rest)) => Ok((SpecSubject::Collection(c), m, rest)),
            Err(e) => Err(e),
        },
        _ => Err((unexpected_error(Unexpected::Token(token), span, meta), s)),
    }
}

/// An object, starting with `token`.
pub open spec fn object_from<E, M>(
    s: TokenStream<E>,
    token: Token,
    span: Span,
    meta: spec_fn(Span) -> M,
) -> Parsed<SpecObject<M>, E, M>
    decreases s.tokens.len(), 3nat,
{
    match token {
        Token::IriRef(i) => Ok((SpecObject::Iri(SpecIri::IriRef(i@)), meta(span), s)),
        Token::CompactIri(p, x) => Ok(
            (SpecObject::Iri(compact_iri_model(p, x, meta)), meta(span), s),
        ),
        Token::BlankNodeLabel(l) => Ok(
            (SpecObject::BlankNode(SpecBlankNode::Label(l@)), meta(span), s),
        ),
        Token::Begin(Delimiter::Bracket) => match anonymous_from(s, span, meta) {
            Ok((b, m, rest)) => Ok((SpecObject::BlankNode(b), m, rest)),
            Err(e) => Err(e),
        },
        Token::Begin(Delimiter::Parenthesis) => match collection_from(s, token, span, meta) {
            Ok((c, m, rest)) => Ok((SpecObject::Collection(c), m, rest)),
            Err(e) => Err(e),
        },
        _ => match literal_from(s, token, span, meta) {
            Ok((l, m, rest)) => Ok((SpecObject::Literal(l), m, rest)),
            Err(e) => Err(e),
        },
    }
}

/// An object, read from the stream.
pub open spec fn object_with<E, M>(s: TokenStream<E>, meta: spec_fn(Span) -> M) -> Parsed<
    SpecObject<M>,
    E,
    M,
>
    decreases s.tokens.len(), 0nat,
{
    if s.tokens.len() > 0 {
        object_from(s.advance(), s.tokens[0].0, s.tokens[0].1, meta)
    } else {
        Err((end_error(s, meta), s))
    }
}

/// The objects after the first one of a list, `items` being those read so far: each
/// follows a `,`, and the list ends before a `.`, a `;` or a `]`.
pub open spec fn objects_rest<E, M>(
    s: TokenStream<E>,
    items: Seq<(SpecObject<M>, M)>,
    meta: spec_fn(Span) -> M,
) -> ParsedList<(SpecObject<M>, M), E, M>
    decreases s.tokens.len(), 0nat,
{
    if s.tokens.len() > 0 {
        match s.tokens[0].0 {
            Token::Punct(Punct::Comma) => {
                let after = s.advance();
                match object_with(after, meta) {
                    Ok((o, m, rest)) => if !after.is_suffix(rest) {
                        Err((end_error(rest, meta), rest))
                    } else {
                        objects_rest(rest, items.push((o, m)), meta)
                    },
                    Err(e) => Err(e),
                }
            },
            Token::Punct(Punct::Period) | Token::Punct(Punct::Semicolon) | Token::End(
                Delimiter::Bracket,
            ) => Ok((items, s)),
            _ => Err(read_failure(s, meta)),
        }
    } else {
        Err((end_error(s, meta), s))
    }
}

/// A list of objects, starting with `token`; its span is that of `token`.
pub open spec fn objects_from<E, M>(
    s: TokenStream<E>,
    token: Token,
    span: Span,
    meta: spec_fn(Span) -> M,
) -> Parsed<SpecObjects<M>, E, M>
    decreases s.tokens.len(), 4nat,
{
    match object_from(s, token, span, meta) {
        Ok((o, m, rest)) => if !s.is_suffix(rest) {
            not_a_suffix(rest, meta)
        } else {
            match objects_rest(rest, seq![(o, m)], meta) {
                Ok((items, after)) => Ok((SpecObjects(items), meta(span), after)),
                Err(e) => Err(e),
            }
        },
        Err(e) => Err(e),
    }
}

/// A list of objects, read from the stream.
pub open spec fn objects_with<E, M>(s: TokenStream<E>, meta: spec_fn(Span) -> M) -> Parsed<
    SpecObjects<M>,
    E,
    M,
>
    decreases s.tokens.len(), 1nat,
{
    if s.tokens.len() > 0 {
        objects_from(s.advance(), s.tokens[0].0, s.tokens[0].1, meta)
    } else {
        Err((end_error(s, meta), s))
    }
}

/// A verb and its objects, starting with `token`.
pub open spec fn predicate_objects_from<E, M>(
    s: TokenStream<E>,
    token: Token,
    span: Span,
    meta: spec_fn(Span) -> M,
) -> Parsed<SpecPredicateObjects<M>, E, M>
    decreases s.tokens.len(), 2nat,
{
    match verb_from(s, token, span, meta) {
        Ok((v, v_meta, rest)) => match objects_with(rest, meta) {
            Ok((o, o_meta, after)) => Ok((
                SpecPredicateObjects { verb: (v, v_meta), objects: (o, o_meta) },
                meta(span.spec_union(after.last)),
                after,
            )),
            Err(e) => Err(e),
        },
        Err(e) => Err(e),
    }
}

/// A verb and its objects, read from the stream.
pub open spec fn predicate_objects_with<E, M>(s: TokenStream<E>, meta: spec_fn(Span) -> M) -> Parsed<
    SpecPredicateObjects<M>,
    E,
    M,
>
    decreases s.tokens.len(), 0nat,
{
    if s.tokens.len() > 0 {
        predicate_objects_from(s.advance(), s.tokens[0].0, s.tokens[0].1, meta)
    } else {
        Err((end_error(s, meta), s))
    }
}

/// The rest of a predicate-objects list, `items` being those read so far: each item
/// follows a `;`, a `;` may end the list, and the list ends before a `.` or a `]`.
pub open spec fn po_list_rest<E, M>(
    s: TokenStream<E>,
    items: Seq<(SpecPredicateObjects<M>, M)>,
    meta: spec_fn(Span) -> M,
) -> ParsedList<(SpecPredicateObjects<M>, M), E, M>
    decreases s.tokens.len(), 0nat,
{
    if s.tokens.len() > 0 {
        match s.tokens[0].0 {
            Token::Punct(Punct::Semicolon) => {
                let after = s.advance();
                if after.tokens.len() > 0 {
                    match after.tokens[0].0 {
                        Token::Punct(Punct::Period) | Token::End(Delimiter::Bracket) => Ok(
                            (items, after),
                        ),
                        _ => match predicate_objects_with(after, meta) {
                            Ok((p, m, rest)) => if !after.is_suffix(rest) {
                                Err((end_error(rest, meta), rest))
                            } else {
                                po_list_rest(rest, items.push((p, m)), meta)
                            },
                            Err(e) => Err(e),
                        },
                    }
                } else {
                    Err((end_error(after, meta), after))
                }
            },
            Token::Punct(Punct::Period) | Token::End(Delimiter::Bracket) => Ok((items, s)),
            _ => Err(read_failure(s, meta)),
        }
    } else {
        Err((end_error(s, meta), s))
    }
}

/// A predicate-objects list, starting with `token`; its span is that of `token`.
pub open spec fn po_list_from<E, M>(
    s: TokenStream<E>,
    token: Token,
    span: Span,
    meta: spec_fn(Span) -> M,
) -> Parsed<Seq<(SpecPredicateObjects<M>, M)>, E, M>
    decreases s.tokens.len(), 3nat,
{
    match predicate_objects_from(s, token, span, meta) {
        Ok((p, m, rest)) => if !s.is_suffix(rest) {
            not_a_suffix(rest, meta)
        } else {
            match po_list_rest(rest, seq![(p, m)], meta) {
                Ok((items, after)) => Ok((items, meta(span), after)),
                Err(e) => Err(e),
            }
        },
        Err(e) => Err(e),
    }
}

/// A predicate-objects list, read from the stream.
pub open spec fn po_list_with<E, M>(s: TokenStream<E>, meta: spec_fn(Span) -> M) -> Parsed<
    Seq<(SpecPredicateObjects<M>, M)>,
    E,
    M,
>
    decreases s.tokens.len(), 0nat,
{
    if s.tokens.len() > 0 {
        po_list_from(s.advance(), s.tokens[0].0, s.tokens[0].1, meta)
    } else {
        Err((end_error(s, meta), s))
    }
}

/// The subject is an anonymous blank node with at least one property.
pub open spec fn spec_is_described_blank_node<M>(subject: SpecSubject<M>) -> bool {
    subject matches SpecSubject::BlankNode(SpecBlankNode::Anonymous(l)) && l.0.len() > 0
}

/// What follows the subject of triples: its predicate-objects list, and a `.`. The list
/// may be left out only after an anonymous blank node with properties. `span` is that of
/// the first token of the triples.
pub open spec fn triples_rest<E, M>(
    s: TokenStream<E>,
    subject: (SpecSubject<M>, M),
    span: Span,
    meta: spec_fn(Span) -> M,
) -> Parsed<SpecTriples<M>, E, M>
    decreases s.tokens.len(), 3nat,
{
    let list = if next_is(s, TokenKind::Punct(Punct::Period)) {
        if spec_is_described_blank_node(subject.0) {
            Ok((Seq::empty(), meta(s.last.spec_next()), s))
        } else {
            Err((mismatch_error(s, meta), s))
        }
    } else {
        po_list_with(s, meta)
    };
    match list {
        Ok((l, l_meta, after)) => triples_end(after, subject, (l, l_meta), span, meta),
        Err(e) => Err(e),
    }
}

/// The `.` that ends triples, whose subject and predicate-objects list are read; the
/// span of the triples stops before it.
pub open spec fn triples_end<E, M>(
    s: TokenStream<E>,
    subject: (SpecSubject<M>, M),
    list: (Seq<(SpecPredicateObjects<M>, M)>, M),
    span: Span,
    meta: spec_fn(Span) -> M,
) -> Parsed<SpecTriples<M>, E, M> {
    if next_is(s, TokenKind::Punct(Punct::Period)) {
        Ok((
            SpecTriples { subject, predicate_objects_list: list },
            meta(span.spec_union(s.last)),
            s.advance(),
        ))
    } else {
        Err(read_failure(s, meta))
    }
}

/// The triples that start with `token`: a subject, then what `triples_rest` reads.
pub open spec fn triples_from<E, M>(
    s: TokenStream<E>,
    token: Token,
    span: Span,
    meta: spec_fn(Span) -> M,
) -> Parsed<SpecTriples<M>, E, M>
    decreases s.tokens.len(), 4nat,
{
    match subject_from(s, token, span, meta) {
        Ok((subject, subject_meta, rest)) => if !s.is_suffix(rest) {
            not_a_suffix(rest, meta)
        } else {
            triples_rest(rest, (subject, subject_meta), span, meta)
        },
        Err(e) => Err(e),
    }
}

/// The IRI reference that ends a directive; `period` tells whether a `.` must follow.
/// Gives the reference with its span, the span of the directive's last token, and the
/// stream after the directive; the directive makes the metadata.
pub open spec fn directive_iri<E, M>(s: TokenStream<E>, period: bool, meta: spec_fn(Span) -> M) -> Result<
    ((Seq<char>, Span), Span, TokenStream<E>),
    Failure<E, M>,
> {
    if s.tokens.len() > 0 {
        match s.tokens[0].0 {
            Token::IriRef(i) => {
                let after = s.advance();
                if !period {
                    Ok(((i@, s.tokens[0].1), s.tokens[0].1, after))
                } else if next_is(after, TokenKind::Punct(Punct::Period)) {
                    Ok(((i@, s.tokens[0].1), after.tokens[0].1, after.advance()))
                } else {
                    Err(read_failure(after, meta))
                }
            },
            _ => Err(read_failure(s, meta)),
        }
    } else {
        Err((end_error(s, meta), s))
    }
}

/// The namespace of a prefix directive, written as a prefixed name with an empty
/// suffix, followed by its IRI reference; gives both and the end of the directive.
pub open spec fn directive_prefix<E, M>(
    s: TokenStream<E>,
    keyword_span: Span,
    period: bool,
    meta: spec_fn(Span) -> M,
) -> Result<((Seq<char>, Span), (Seq<char>, Span), Span, TokenStream<E>), Failure<E, M>> {
    if s.tokens.len() > 0 {
        match s.tokens[0].0 {
            Token::CompactIri(ns, suffix) => if suffix.0@.len() == 0 {
                match directive_iri(s.advance(), period, meta) {
                    Ok((i, end, after)) => Ok(((ns.0@, ns.1), i, end, after)),
                    Err(e) => Err(e),
                }
            } else {
                Err((unexpected_error(Unexpected::Token(s.tokens[0].0), keyword_span, meta), s.advance()))
            },
            _ => Err(read_failure(s, meta)),
        }
    } else {
        Err((end_error(s, meta), s))
    }
}

/// A directive, starting with `token`: `@prefix` and `@base` end with a `.`, their
/// SPARQL forms do not. The span runs from the keyword to the end of the directive.
pub open spec fn directive_from<E, M>(
    s: TokenStream<E>,
    token: Token,
    span: Span,
    meta: spec_fn(Span) -> M,
) -> Parsed<SpecDirective<M>, E, M> {
    match token {
        Token::Keyword(Keyword::Prefix) => match directive_prefix(s, span, true, meta) {
            Ok((ns, i, end, after)) => Ok(
                (
                    SpecDirective::Prefix((ns.0, meta(ns.1)), (i.0, meta(i.1))),
                    meta(span.spec_union(end)),
                    after,
                ),
            ),
            Err(e) => Err(e),
        },
        Token::Keyword(Keyword::Base) => match directive_iri(s, true, meta) {
            Ok((i, end, after)) => Ok(
                (SpecDirective::Base((i.0, meta(i.1))), meta(span.spec_union(end)), after),
            ),
            Err(e) => Err(e),
        },
        Token::Keyword(Keyword::SparqlPrefix) => match directive_prefix(s, span, false, meta) {
            Ok((ns, i, end, after)) => Ok(
                (
                    SpecDirective::SparqlPrefix((ns.0, meta(ns.1)), (i.0, meta(i.1))),
                    meta(span.spec_union(end)),
                    after,
                ),
            ),
            Err(e) => Err(e),
        },
        Token::Keyword(Keyword::SparqlBase) => match directive_iri(s, false, meta) {
            Ok((i, end, after)) => Ok(
                (SpecDirective::SparqlBase((i.0, meta(i.1))), meta(span.spec_union(end)), after),
            ),
            Err(e) => Err(e),
        },
        _ => Err((unexpected_error(Unexpected::Token(token), span, meta), s)),
    }
}

/// The keywords that start a directive.
pub open spec fn starts_directive(token: Token) -> bool {
    token matches Token::Keyword(Keyword::Prefix) || token matches Token::Keyword(Keyword::Base)
        || token matches Token::Keyword(Keyword::SparqlPrefix) || token matches Token::Keyword(
        Keyword::SparqlBase,
    )
}

/// A statement, starting with `token`: a directive or triples.
pub open spec fn statement_from<E, M>(
    s: TokenStream<E>,
    token: Token,
    span: Span,
    meta: spec_fn(Span) -> M,
) -> Parsed<SpecStatement<M>, E, M> {
    if starts_directive(token) {
        match directive_from(s, token, span, meta) {
            Ok((d, m, rest)) => Ok((SpecStatement::Directive(d), m, rest)),
            Err(e) => Err(e),
        }
    } else {
        match triples_from(s, token, span, meta) {
            Ok((t, m, rest)) => Ok((SpecStatement::Triples(t), m, rest)),
            Err(e) => Err(e),
        }
    }
}

/// The statements of a document after its first one, `items` being those read so
/// far, up to the end of the input.
pub open spec fn document_rest<E, M>(
    s: TokenStream<E>,
    items: Seq<(SpecStatement<M>, M)>,
    meta: spec_fn(Span) -> M,
) -> ParsedList<(SpecStatement<M>, M), E, M>
    decreases s.tokens.len(),
{
    if s.tokens.len() > 0 {
        let after = s.advance();
        match statement_from(after, s.tokens[0].0, s.tokens[0].1, meta) {
            Ok((st, m, rest)) => if !after.is_suffix(rest) {
                Err((end_error(rest, meta), rest))
            } else {
                document_rest(rest, items.push((st, m)), meta)
            },
            Err(e) => Err(e),
        }
    } else {
        match s.end {
            Ok(_) => Ok((items, s)),
            Err(_) => Err((end_error(s, meta), s)),
        }
    }
}

/// A document, starting with `token`; its span runs from `token` to the last token.
pub open spec fn document_from<E, M>(
    s: TokenStream<E>,
    token: Token,
    span: Span,
    meta: spec_fn(Span) -> M,
) -> Parsed<SpecDocument<M>, E, M> {
    match statement_from(s, token, span, meta) {
        Ok((st, m, rest)) => if !s.is_suffix(rest) {
            not_a_suffix(rest, meta)
        } else {
            match document_rest(rest, seq![(st, m)], meta) {
                Ok((items, after)) => Ok(
                    (SpecDocument { statements: items }, meta(span.spec_union(after.last)), after),
                ),
                Err(e) => Err(e),
            }
        },
        Err(e) => Err(e),
    }
}

/// A document, read from the stream: an empty input is the empty document, whose span
/// is the end of the input.
pub open spec fn document_with<E, M>(s: TokenStream<E>, meta: spec_fn(Span) -> M) -> Parsed<
    SpecDocument<M>,
    E,
    M,
> {
    if s.tokens.len() > 0 {
        document_from(s.advance(), s.tokens[0].0, s.tokens[0].1, meta)
    } else {
        match s.end {
            Ok(span) => Ok((SpecDocument { statements: Seq::empty() }, meta(span), s)),
            Err(_) => Err((end_error(s, meta), s)),
        }
    }
}

/// A verb, read from the stream; the end of the input is an error.
pub open spec fn verb_with<E, M>(s: TokenStream<E>, meta: spec_fn(Span) -> M) -> Parsed<
    SpecVerb<M>,
    E,
    M,
> {
    if s.tokens.len() > 0 {
        verb_from(s.advance(), s.tokens[0].0, s.tokens[0].1, meta)
    } else {
        Err((end_error(s, meta), s))
    }
}

/// A literal, read from the stream; the end of the input is an error.
pub open spec fn literal_with<E, M>(s: TokenStream<E>, meta: spec_fn(Span) -> M) -> Parsed<
    SpecLiteral<M>,
    E,
    M,
> {
    if s.tokens.len() > 0 {
        literal_from(s.advance(), s.tokens[0].0, s.tokens[0].1, meta)
    } else {
        Err((end_error(s, meta), s))
    }
}

/// A collection, read from the stream; the end of the input is an error.
pub open spec fn collection_with<E, M>(s: TokenStream<E>, meta: spec_fn(Span) -> M) -> Parsed<
    SpecCollection<M>,
    E,
    M,
> {
    if s.tokens.len() > 0 {
        collection_from(s.advance(), s.tokens[0].0, s.tokens[0].1, meta)
    } else {
        Err((end_error(s, meta), s))
    }
}

/// A subject, read from the stream; the end of the input is an error.
pub open spec fn subject_with<E, M>(s: TokenStream<E>, meta: spec_fn(Span) -> M) -> Parsed<
    SpecSubject<M>,
    E,
    M,
> {
    if s.tokens.len() > 0 {
        subject_from(s.advance(), s.tokens[0].0, s.tokens[0].1, meta)
    } else {
        Err((end_error(s, meta), s))
    }
}

/// Triples, read from the stream; the end of the input is an error.
pub open spec fn triples_with<E, M>(s: TokenStream<E>, meta: spec_fn(Span) -> M) -> Parsed<
    SpecTriples<M>,
    E,
    M,
> {
    if s.tokens.len() > 0 {
        triples_from(s.advance(), s.tokens[0].0, s.tokens[0].1, meta)
    } else {
        Err((end_error(s, meta), s))
    }
}

/// A directive, read from the stream; the end of the input is an error.
pub open spec fn directive_with<E, M>(s: TokenStream<E>, meta: spec_fn(Span) -> M) -> Parsed<
    SpecDirective<M>,
    E,
    M,
> {
    if s.tokens.len() > 0 {
        directive_from(s.advance(), s.tokens[0].0, s.tokens[0].1, meta)
    } else {
        Err((end_error(s, meta), s))
    }
}

/// A statement, read from the stream; the end of the input is an error.
pub open spec fn statement_with<E, M>(s: TokenStream<E>, meta: spec_fn(Span) -> M) -> Parsed<
    SpecStatement<M>,
    E,
    M,
> {
    if s.tokens.len() > 0 {
        statement_from(s.advance(), s.tokens[0].0, s.tokens[0].1, meta)
    } else {
        Err((end_error(s, meta), s))
    }
}

} // verus!
