//! The parser: from a stream of tokens to the syntax tree of a Turtle document.
use vstd::prelude::*;

use crate::ast::{
    lemma_objects_model_push, lemma_predicate_objects_list_model_push,
    lemma_statements_model_push, object_model, objects_model, predicate_objects_list_model,
    predicate_objects_model, statement_model, statements_model, BlankNode, Collection, Directive,
    Document, Iri, Literal, LiteralType, Object, Objects, PredicateObjects, RdfLiteral,
    SpecCollection, SpecDocument, SpecIri, SpecObject, SpecSubject, SpecObjects, SpecPredicateObjects, SpecStatement, Statement,
    Subject, Triples, Verb,
};
use crate::grammar::{
    anonymous_end, anonymous_from, next_is, collection_with, directive_with, literal_with, statement_with,
    subject_with, triples_with, verb_with, collection_from, collection_rest, compact_iri_model, directive_from,
    directive_iri, directive_prefix, document_from, document_rest, document_with, iri_from,
    iri_with, literal_from, object_from, object_with, objects_from, objects_rest, objects_with,
    po_list_from, po_list_rest, po_list_with, predicate_objects_from, predicate_objects_with,
    rdf_literal, spec_is_described_blank_node, statement_from, subject_from, triples_end,
    triples_from, triples_rest, unexpected_of, verb_from, xsd_string_iri, Failure, Parsed,
};
use crate::lexing::{Delimiter, Keyword, Punct, Token, TokenKind, TokenStream, Tokens};
use crate::fit::{
    fit_iri, fit_objects, fit_po_list, fit_statements, lemma_fit_objects_push, lemma_fit_po_list_push,
    lemma_fit_statements_push, span_meta, Fit,
};
use crate::shape::{
    any_meta, erase_iri, erase_objects, erase_po_list, erase_statements, lemma_collection_rest_shape,
    lemma_document_rest_shape, lemma_erase_objects_push, lemma_erase_po_list_push,
    lemma_erase_statements_push, lemma_objects_rest_shape, lemma_po_list_rest_shape, lemma_triples_rest_shape, Erase,
};
use crate::span::Span;

verus! {

/// Unexpected token or end of file.
#[derive(Debug, PartialEq, Eq)]
pub enum Unexpected {
    /// An unexpected token.
    Token(Token),
    /// The input ended too early.
    EndOfFile,
}

/// A parse error: a lexical error, or an unexpected token or end of file.
#[derive(Debug, PartialEq, Eq)]
pub enum Error<E> {
    Lexer(E),
    Unexpected(Unexpected),
}

/// A parse error with the metadata of where it occurred.
pub type ParseError<E, M> = (Box<Error<E>>, M);

impl From<Option<Token>> for Unexpected {
    /// A token, or the end of the input (`None`), found where it cannot stand.
    fn from(value: Option<Token>) -> (u: Unexpected) {
        match value {
            Some(token) => Unexpected::Token(token),
            None => Unexpected::EndOfFile,
        }
    }
}

impl vstd::std_specs::convert::FromSpecImpl<Option<Token>> for Unexpected {
    open spec fn obeys_from_spec() -> bool {
        true
    }

    open spec fn from_spec(value: Option<Token>) -> Unexpected {
        unexpected_of(value)
    }
}

broadcast use crate::lexing::group_suffix;

/// `meta` gives the metadata that `builder` makes of each span: whenever the builder
/// returns, it returns `meta` of its argument. A builder written with
/// `ensures r == meta(span)` builds with `meta`.
pub open spec fn builds_with<F: Fn(Span) -> M, M>(builder: F, meta: spec_fn(Span) -> M) -> bool {
    forall|span: Span, m: M| #[trigger] call_ensures(builder, (span,), m) ==> m == meta(span)
}

/// The metadata values that `builder` may give for a span: `m` for `span` when a call of
/// the builder on `span` may return `m`.
pub open spec fn may_build<F: Fn(Span) -> M, M>(builder: F) -> spec_fn(Span, M) -> bool {
    |span: Span, m: M| call_ensures(builder, (span,), m)
}

/// A parser: reads tokens from a lexer, and makes the metadata of each node of the
/// syntax tree with its metadata builder, from the span of source text the node covers.
pub struct Parser<L, F> {
    lexer: L,
    metadata_builder: F,
}

impl<L, F> Parser<L, F> {
    /// The lexer the parser reads from.
    pub closed spec fn lexer(&self) -> L {
        self.lexer
    }

    /// The metadata builder.
    pub closed spec fn builder(&self) -> F {
        self.metadata_builder
    }

    /// A parser reading from `lexer`, making metadata with `metadata_builder`.
    pub fn new(lexer: L, metadata_builder: F) -> (p: Self)
        ensures
            p.lexer() == lexer,
            p.builder() == metadata_builder,
    {
        Parser { lexer, metadata_builder }
    }
}

impl<L: Tokens, F: Fn(Span) -> M, M> Parser<L, F> {
    /// What the parser has left to read.
    pub open spec fn stream(&self) -> TokenStream<L::Error> {
        self.lexer().stream()
    }

    /// The builder can be called on any span.
    pub open spec fn can_build(&self) -> bool {
        forall|span: Span| call_requires(self.builder(), (span,))
    }

    /// The parser only reads tokens, and keeps its builder, to become `after`.
    pub open spec fn reads(&self, after: Self) -> bool {
        &&& after.builder() == self.builder()
        &&& self.stream().is_suffix(after.stream())
    }

    /// What reading the next token gives: a lexical error becomes a parse error.
    pub open spec fn next_result(&self) -> Result<(Option<Token>, Span), (Box<Error<L::Error>>, Span)> {
        match self.stream().next_item() {
            Ok(x) => Ok(x),
            Err((e, span)) => Err((Box::new(Error::Lexer(e)), span)),
        }
    }

    /// What looking at the next token gives.
    pub open spec fn peek_result(&self) -> Result<(Option<TokenKind>, Span), (Box<Error<L::Error>>, Span)> {
        match self.stream().peek_item() {
            Ok(x) => Ok(x),
            Err((e, span)) => Err((Box::new(Error::Lexer(e)), span)),
        }
    }

    /// `after` is this parser once it has parsed a node with the outcome `r`, and `r` is
    /// the `expected` outcome: the same node (by its model) with the same metadata and the
    /// same stream left, or the same error with the same stream left.
    pub open spec fn parsed<T: View>(
        &self,
        after: Self,
        r: Result<(T, M), ParseError<L::Error, M>>,
        expected: Parsed<T::V, L::Error, M>,
    ) -> bool {
        match expected {
            Ok((v, m, rest)) => r matches Ok((t, m2)) && t@ == v && m2 == m && after.stream()
                == rest,
            Err((e, rest)) => r == Err::<(T, M), ParseError<L::Error, M>>(e) && after.stream()
                == rest,
        }
    }

    /// The list version of `parsed`, for a predicate-objects list.
    pub open spec fn parsed_list(
        &self,
        after: Self,
        r: Result<(Vec<(PredicateObjects<M>, M)>, M), ParseError<L::Error, M>>,
        expected: Parsed<Seq<(SpecPredicateObjects<M>, M)>, L::Error, M>,
    ) -> bool {
        match expected {
            Ok((v, m, rest)) => r matches Ok((t, m2)) && predicate_objects_list_model(t@) == v
                && m2 == m && after.stream() == rest,
            Err((e, rest)) => r == Err::<(Vec<(PredicateObjects<M>, M)>, M), ParseError<L::Error, M>>(
                e,
            ) && after.stream() == rest,
        }
    }

    /// `after` is this parser once it has parsed a node with the outcome `r`, and `r` has
    /// the shape of the `expected` outcome whatever the metadata: a node of the same shape
    /// with the same stream left, or the same error with the same stream left.
    pub open spec fn shaped<T: View>(
        &self,
        after: Self,
        r: Result<(T, M), ParseError<L::Error, M>>,
        expected: Parsed<T::V, L::Error, M>,
    ) -> bool where T::V: Erase {
        match expected {
            Ok((v, _, rest)) => r matches Ok((t, _)) && t@.erase() == v.erase() && after.stream()
                == rest,
            Err((e, rest)) => r matches Err((e2, _)) && e2 == e.0 && after.stream() == rest,
        }
    }

    /// The list version of `shaped`, for a predicate-objects list.
    pub open spec fn shaped_list(
        &self,
        after: Self,
        r: Result<(Vec<(PredicateObjects<M>, M)>, M), ParseError<L::Error, M>>,
        expected: Parsed<Seq<(SpecPredicateObjects<M>, M)>, L::Error, M>,
    ) -> bool {
        match expected {
            Ok((v, _, rest)) => r matches Ok((t, _)) && erase_po_list(predicate_objects_list_model(t@))
                == erase_po_list(v) && after.stream() == rest,
            Err((e, rest)) => r matches Err((e2, _)) && e2 == e.0 && after.stream() == rest,
        }
    }

    /// `after` is this parser once it has parsed a node with the outcome `r`, and `r` fits
    /// the outcome `spans` of the grammar with the span of each place as its metadata:
    /// the same tree, each metadata value being one the builder may give for the span at
    /// its place, with the same stream left; or the same error, with metadata the builder
    /// may give for its span, and the same stream left.
    pub open spec fn fitted<T: View, S>(
        &self,
        after: Self,
        r: Result<(T, M), ParseError<L::Error, M>>,
        spans: Parsed<S, L::Error, Span>,
    ) -> bool where T::V: Fit<S, M> {
        match spans {
            Ok((v, sp, rest)) => r matches Ok((t, m)) && t@.fits(may_build(self.builder()), v)
                && call_ensures(self.builder(), (sp,), m) && after.stream() == rest,
            Err(((e, sp), rest)) => r matches Err((e2, m)) && e2 == e && call_ensures(
                self.builder(),
                (sp,),
                m,
            ) && after.stream() == rest,
        }
    }

    /// The list version of `fitted`, for a predicate-objects list.
    pub open spec fn fitted_list(
        &self,
        after: Self,
        r: Result<(Vec<(PredicateObjects<M>, M)>, M), ParseError<L::Error, M>>,
        spans: Parsed<Seq<(SpecPredicateObjects<Span>, Span)>, L::Error, Span>,
    ) -> bool {
        match spans {
            Ok((v, sp, rest)) => r matches Ok((t, m)) && fit_po_list(
                may_build(self.builder()),
                predicate_objects_list_model(t@),
                v,
            ) && call_ensures(self.builder(), (sp,), m) && after.stream() == rest,
            Err(((e, sp), rest)) => r matches Err((e2, m)) && e2 == e && call_ensures(
                self.builder(),
                (sp,),
                m,
            ) && after.stream() == rest,
        }
    }

    fn next(&mut self) -> (r: Result<(Option<Token>, Span), (Box<Error<L::Error>>, Span)>)
        ensures
            r == old(self).next_result(),
            final(self).stream() == old(self).stream().advance(),
            final(self).builder() == old(self).builder(),
    {
        match self.lexer.next() {
            Ok(x) => Ok(x),
            Err((e, span)) => Err((Box::new(Error::Lexer(e)), span)),
        }
    }

    fn peek(&mut self) -> (r: Result<(Option<TokenKind>, Span), (Box<Error<L::Error>>, Span)>)
        ensures
            r == old(self).peek_result(),
            final(self).stream() == old(self).stream(),
            final(self).builder() == old(self).builder(),
    {
        match self.lexer.peek() {
            Ok(x) => Ok(x),
            Err((e, span)) => Err((Box::new(Error::Lexer(e)), span)),
        }
    }

    fn last_span(&self) -> (r: Span)
        ensures
            r == self.stream().last,
    {
        self.lexer.last()
    }

    fn build_metadata(&self, span: Span) -> (m: M)
        requires
            self.can_build(),
        ensures
            call_ensures(self.builder(), (span,), m),
    {
        assert(call_requires(self.builder(), (span,)));
        (self.metadata_builder)(span)
    }

    /// The parse error that a lexical error read from the lexer becomes.
    fn lexer_error(&self, error: (Box<Error<L::Error>>, Span)) -> (r: ParseError<L::Error, M>)
        requires
            self.can_build(),
        ensures
            r.0 == error.0,
            call_ensures(self.builder(), (error.1,), r.1),
    {
        let (e, span) = error;
        (e, self.build_metadata(span))
    }

    /// The parse error for `e`, a lexical error or an unexpected token or end of file, at
    /// `span`.
    fn error(&self, e: Error<L::Error>, span: Span) -> (r: ParseError<L::Error, M>)
        requires
            self.can_build(),
        ensures
            r.0 == Box::new(e),
            call_ensures(self.builder(), (span,), r.1),
    {
        (Box::new(e), self.build_metadata(span))
    }
}


/// The prefixed name made of `prefix` and `suffix`.
fn compact_iri<L: Tokens, F: Fn(Span) -> M, M>(
    parser: &Parser<L, F>,
    prefix: (String, Span),
    suffix: (String, Span),
) -> (i: Iri<M>)
    requires
        parser.can_build(),
    ensures
        forall|g: spec_fn(Span) -> M| #[trigger] builds_with(parser.builder(), g) ==> i@
            == compact_iri_model(prefix, suffix, g),
        erase_iri(i@) == SpecIri::<()>::PrefixedName((prefix.0@, ()), (suffix.0@, ())),
        fit_iri(may_build(parser.builder()), i@, compact_iri_model(prefix, suffix, span_meta())),
{
    let (prefix, prefix_span) = prefix;
    let (suffix, suffix_span) = suffix;
    Iri::PrefixedName(
        (prefix, parser.build_metadata(prefix_span)),
        (suffix, parser.build_metadata(suffix_span)),
    )
}

impl<M> Iri<M> {
    /// Parses an IRI starting with `token`, read at `span`.
    pub fn parse_from<L: Tokens, F: Fn(Span) -> M>(
        parser: &mut Parser<L, F>,
        token: Token,
        span: Span,
    ) -> (r: Result<(Iri<M>, M), ParseError<L::Error, M>>)
        requires
            old(parser).can_build(),
        ensures
            old(parser).reads(*final(parser)),
            forall|g: spec_fn(Span) -> M| #[trigger] builds_with(old(parser).builder(), g)
                ==> old(parser).parsed(*final(parser), r, iri_from(old(parser).stream(), token, span, g)),
            old(parser).shaped(*final(parser), r, iri_from(old(parser).stream(), token, span, any_meta())),
            old(parser).fitted(*final(parser), r, iri_from(old(parser).stream(), token, span, span_meta())),
            final(parser).stream() == old(parser).stream(),
            r matches Ok((_, m)) ==> call_ensures(old(parser).builder(), (span,), m),
            !(token is IriRef || token is CompactIri) ==> (r matches Err((e, m)) && e == Box::new(
                Error::<L::Error>::Unexpected(Unexpected::Token(token)),
            ) && call_ensures(old(parser).builder(), (span,), m)),
    {
        match token {
            Token::IriRef(iri_ref) => Ok((Iri::IriRef(iri_ref), parser.build_metadata(span))),
            Token::CompactIri(prefix, suffix) => Ok(
                (compact_iri(parser, prefix, suffix), parser.build_metadata(span)),
            ),
            unexpected => Err(parser.error(Error::Unexpected(Unexpected::Token(unexpected)), span)),
        }
    }

    /// Parses an IRI read from the parser.
    pub fn parse_with<L: Tokens, F: Fn(Span) -> M>(parser: &mut Parser<L, F>) -> (r: Result<
        (Iri<M>, M),
        ParseError<L::Error, M>,
    >)
        requires
            old(parser).can_build(),
        ensures
            old(parser).reads(*final(parser)),
            forall|g: spec_fn(Span) -> M| #[trigger] builds_with(old(parser).builder(), g)
                ==> old(parser).parsed(*final(parser), r, iri_with(old(parser).stream(), g)),
            old(parser).shaped(*final(parser), r, iri_with(old(parser).stream(), any_meta())),
            old(parser).fitted(*final(parser), r, iri_with(old(parser).stream(), span_meta())),
    {
        match parser.next() {
            Ok((Some(token), span)) => Iri::parse_from(parser, token, span),
            Ok((None, span)) => Err(parser.error(Error::Unexpected(Unexpected::EndOfFile), span)),
            Err(e) => Err(parser.lexer_error(e)),
        }
    }
}

impl<M> Verb<M> {
    /// Parses a verb read from the parser; the end of the input is an error.
    pub fn parse_with<L: Tokens, F: Fn(Span) -> M>(parser: &mut Parser<L, F>) -> (r: Result<
        (Verb<M>, M),
        ParseError<L::Error, M>,
    >)
        requires
            old(parser).can_build(),
        ensures
            old(parser).reads(*final(parser)),
            forall|g: spec_fn(Span) -> M| #[trigger] builds_with(old(parser).builder(), g)
                ==> old(parser).parsed(*final(parser), r, verb_with(old(parser).stream(), g)),
            old(parser).shaped(*final(parser), r, verb_with(old(parser).stream(), any_meta())),
            old(parser).fitted(*final(parser), r, verb_with(old(parser).stream(), span_meta())),
    {
        match parser.next() {
            Ok((Some(token), span)) => Verb::parse_from(parser, token, span),
            Ok((None, span)) => Err(parser.error(Error::Unexpected(Unexpected::EndOfFile), span)),
            Err(e) => Err(parser.lexer_error(e)),
        }
    }

    /// Parses a verb starting with `token`, read at `span`.
    pub fn parse_from<L: Tokens, F: Fn(Span) -> M>(
        parser: &mut Parser<L, F>,
        token: Token,
        span: Span,
    ) -> (r: Result<(Verb<M>, M), ParseError<L::Error, M>>)
        requires
            old(parser).can_build(),
        ensures
            old(parser).reads(*final(parser)),
            forall|g: spec_fn(Span) -> M| #[trigger] builds_with(old(parser).builder(), g)
                ==> old(parser).parsed(*final(parser), r, verb_from(old(parser).stream(), token, span, g)),
            old(parser).shaped(*final(parser), r, verb_from(old(parser).stream(), token, span, any_meta())),
            old(parser).fitted(*final(parser), r, verb_from(old(parser).stream(), token, span, span_meta())),
    {
        match token {
            Token::Keyword(Keyword::A) => Ok((Verb::A, parser.build_metadata(span))),
            token => match Iri::parse_from(parser, token, span) {
                Ok((iri, meta)) => Ok((Verb::Predicate(iri), meta)),
                Err(e) => Err(e),
            },
        }
    }
}

/// The datatype IRI of plain string literals.
fn xsd_string() -> (s: String)
    ensures
        s@ == xsd_string_iri(),
{
    "http://www.w3.org/2001/XMLSchema#string".to_owned()
}

/// Parses the rest of an RDF literal whose string, read at `string_span`, is `string`.
fn parse_rdf_literal<L: Tokens, F: Fn(Span) -> M, M>(
    parser: &mut Parser<L, F>,
    string: String,
    string_span: Span,
) -> (r: Result<(RdfLiteral<M>, M), ParseError<L::Error, M>>)
    requires
        old(parser).can_build(),
    ensures
        old(parser).reads(*final(parser)),
        forall|g: spec_fn(Span) -> M| #[trigger] builds_with(old(parser).builder(), g)
            ==> old(parser).parsed(*final(parser), r, rdf_literal(old(parser).stream(), string, string_span, g)),
        old(parser).shaped(*final(parser), r, rdf_literal(old(parser).stream(), string, string_span, any_meta())),
        old(parser).fitted(*final(parser), r, rdf_literal(old(parser).stream(), string, string_span, span_meta())),
{
    match parser.peek() {
        Err(e) => Err(parser.lexer_error(e)),
        Ok((Some(TokenKind::LangTag), tag_span)) => match parser.next() {
            Ok((Some(Token::LangTag(tag)), _)) => {
                let span = string_span.union(tag_span);
                Ok((
                    RdfLiteral {
                        value: (string, parser.build_metadata(string_span)),
                        type_: (LiteralType::LangString(tag), parser.build_metadata(tag_span)),
                    },
                    parser.build_metadata(span),
                ))
            },
            _ => {
                proof {
                    assert(false);
                }
                Err(parser.error(Error::Unexpected(Unexpected::EndOfFile), tag_span))
            },
        },
        Ok((Some(TokenKind::Punct(Punct::Carets)), _)) => {
            let _ = parser.next();
            match Iri::parse_with(parser) {
                Ok((type_iri, metadata)) => {
                    let span = string_span.union(parser.last_span());
                    Ok((
                        RdfLiteral {
                            value: (string, parser.build_metadata(string_span)),
                            type_: (LiteralType::Any(type_iri), metadata),
                        },
                        parser.build_metadata(span),
                    ))
                },
                Err(e) => Err(e),
            }
        },
        Ok(_) => {
            let ty = (
                LiteralType::Any(Iri::IriRef(xsd_string())),
                parser.build_metadata(string_span),
            );
            Ok((
                RdfLiteral { value: (string, parser.build_metadata(string_span)), type_: ty },
                parser.build_metadata(string_span),
            ))
        },
    }
}

impl<M> Literal<M> {
    /// Parses a literal read from the parser; the end of the input is an error.
    pub fn parse_with<L: Tokens, F: Fn(Span) -> M>(parser: &mut Parser<L, F>) -> (r: Result<
        (Literal<M>, M),
        ParseError<L::Error, M>,
    >)
        requires
            old(parser).can_build(),
        ensures
            old(parser).reads(*final(parser)),
            forall|g: spec_fn(Span) -> M| #[trigger] builds_with(old(parser).builder(), g)
                ==> old(parser).parsed(*final(parser), r, literal_with(old(parser).stream(), g)),
            old(parser).shaped(*final(parser), r, literal_with(old(parser).stream(), any_meta())),
            old(parser).fitted(*final(parser), r, literal_with(old(parser).stream(), span_meta())),
    {
        match parser.next() {
            Ok((Some(token), span)) => Literal::parse_from(parser, token, span),
            Ok((None, span)) => Err(parser.error(Error::Unexpected(Unexpected::EndOfFile), span)),
            Err(e) => Err(parser.lexer_error(e)),
        }
    }

    /// Parses a literal starting with `token`, read at `span`.
    pub fn parse_from<L: Tokens, F: Fn(Span) -> M>(
        parser: &mut Parser<L, F>,
        token: Token,
        span: Span,
    ) -> (r: Result<(Literal<M>, M), ParseError<L::Error, M>>)
        requires
            old(parser).can_build(),
        ensures
            old(parser).reads(*final(parser)),
            forall|g: spec_fn(Span) -> M| #[trigger] builds_with(old(parser).builder(), g)
                ==> old(parser).parsed(*final(parser), r, literal_from(old(parser).stream(), token, span, g)),
            old(parser).shaped(*final(parser), r, literal_from(old(parser).stream(), token, span, any_meta())),
            old(parser).fitted(*final(parser), r, literal_from(old(parser).stream(), token, span, span_meta())),
    {
        match token {
            Token::StringLiteral(string) => match parse_rdf_literal(parser, string, span) {
                Ok((lit, loc)) => Ok((Literal::Rdf(lit), loc)),
                Err(e) => Err(e),
            },
            Token::Numeric(n) => Ok((Literal::Numeric(n), parser.build_metadata(span))),
            Token::Keyword(Keyword::True) => Ok((Literal::Boolean(true), parser.build_metadata(span))),
            Token::Keyword(Keyword::False) => Ok(
                (Literal::Boolean(false), parser.build_metadata(span)),
            ),
            unexpected => Err(parser.error(Error::Unexpected(Unexpected::Token(unexpected)), span)),
        }
    }
}


/// Parses the rest of an anonymous blank node, whose `[` was read at `span`.
fn parse_anonymous<L: Tokens, F: Fn(Span) -> M, M>(parser: &mut Parser<L, F>, span: Span) -> (r:
    Result<(BlankNode<M>, M), ParseError<L::Error, M>>)
    requires
        old(parser).can_build(),
    ensures
        old(parser).reads(*final(parser)),
        forall|g: spec_fn(Span) -> M| #[trigger] builds_with(old(parser).builder(), g)
            ==> old(parser).parsed(*final(parser), r, anonymous_from(old(parser).stream(), span, g)),
        old(parser).shaped(*final(parser), r, anonymous_from(old(parser).stream(), span, any_meta())),
        old(parser).fitted(*final(parser), r, anonymous_from(old(parser).stream(), span, span_meta())),
    decreases old(parser).stream().tokens.len(), 1nat,
{
    let ghost s0 = parser.stream();
    let po_list = match parser.peek() {
        Err(e) => return Err(parser.lexer_error(e)),
        Ok((Some(TokenKind::End(Delimiter::Bracket)), _)) => {
            let next = parser.last_span().next();
            (Vec::new(), parser.build_metadata(next))
        },
        Ok(_) => match parse_po_list_with(parser) {
            Ok(l) => l,
            Err(e) => return Err(e),
        },
    };
    proof {
        assert(predicate_objects_list_model(Seq::<(PredicateObjects<M>, M)>::empty()) =~= Seq::<
            (SpecPredicateObjects<M>, M),
        >::empty());
    }
    let ghost list_spans = if next_is(s0, TokenKind::End(Delimiter::Bracket)) {
        (Seq::<(SpecPredicateObjects<Span>, Span)>::empty(), s0.last.spec_next())
    } else {
        let v = po_list_with(s0, span_meta())->Ok_0;
        (v.0, v.1)
    };
    finish_anonymous(parser, po_list, span, Ghost(list_spans))
}

/// Reads the `]` that closes an anonymous blank node opened at `span`, whose list is given.
fn finish_anonymous<L: Tokens, F: Fn(Span) -> M, M>(
    parser: &mut Parser<L, F>,
    po_list: (Vec<(PredicateObjects<M>, M)>, M),
    span: Span,
    Ghost(list_spans): Ghost<(Seq<(SpecPredicateObjects<Span>, Span)>, Span)>,
) -> (r: Result<(BlankNode<M>, M), ParseError<L::Error, M>>)
    requires
        old(parser).can_build(),
        fit_po_list(may_build(old(parser).builder()), predicate_objects_list_model(po_list.0@), list_spans.0),
        call_ensures(old(parser).builder(), (list_spans.1,), po_list.1),
    ensures
        old(parser).reads(*final(parser)),
        forall|g: spec_fn(Span) -> M| #[trigger] builds_with(old(parser).builder(), g)
            ==> old(parser).parsed(*final(parser), r, anonymous_end(old(parser).stream(), (predicate_objects_list_model(po_list.0@), po_list.1), span, g)),
        old(parser).shaped(*final(parser), r, anonymous_end(old(parser).stream(), (predicate_objects_list_model(po_list.0@), po_list.1), span, any_meta())),
        old(parser).fitted(*final(parser), r, anonymous_end(old(parser).stream(), list_spans, span, span_meta())),
{
    match parser.next() {
        Ok((Some(Token::End(Delimiter::Bracket)), _)) => {},
        Ok((unexpected, err_span)) => return Err(
            parser.error(Error::Unexpected(Unexpected::from(unexpected)), err_span),
        ),
        Err(e) => return Err(parser.lexer_error(e)),
    }
    let mut span = span;
    span.append(parser.last_span());
    Ok((BlankNode::Anonymous(po_list), parser.build_metadata(span)))
}

impl<M> Collection<M> {
    /// Parses a collection read from the parser; the end of the input is an error.
    pub fn parse_with<L: Tokens, F: Fn(Span) -> M>(parser: &mut Parser<L, F>) -> (r: Result<
        (Collection<M>, M),
        ParseError<L::Error, M>,
    >)
        requires
            old(parser).can_build(),
        ensures
            old(parser).reads(*final(parser)),
            forall|g: spec_fn(Span) -> M| #[trigger] builds_with(old(parser).builder(), g)
                ==> old(parser).parsed(*final(parser), r, collection_with(old(parser).stream(), g)),
            old(parser).shaped(*final(parser), r, collection_with(old(parser).stream(), any_meta())),
            old(parser).fitted(*final(parser), r, collection_with(old(parser).stream(), span_meta())),
    {
        match parser.next() {
            Ok((Some(token), span)) => Collection::parse_from(parser, token, span),
            Ok((None, span)) => Err(parser.error(Error::Unexpected(Unexpected::EndOfFile), span)),
            Err(e) => Err(parser.lexer_error(e)),
        }
    }

    /// Parses a collection starting with `token`, read at `span`.
    pub fn parse_from<L: Tokens, F: Fn(Span) -> M>(
        parser: &mut Parser<L, F>,
        token: Token,
        span: Span,
    ) -> (r: Result<(Collection<M>, M), ParseError<L::Error, M>>)
        requires
            old(parser).can_build(),
        ensures
            old(parser).reads(*final(parser)),
            forall|g: spec_fn(Span) -> M| #[trigger] builds_with(old(parser).builder(), g)
                ==> old(parser).parsed(*final(parser), r, collection_from(old(parser).stream(), token, span, g)),
            old(parser).shaped(*final(parser), r, collection_from(old(parser).stream(), token, span, any_meta())),
            old(parser).fitted(*final(parser), r, collection_from(old(parser).stream(), token, span, span_meta())),
        decreases old(parser).stream().tokens.len(), 1nat,
    {
        let ghost p0 = *parser;
        match token {
            Token::Begin(Delimiter::Parenthesis) => {
                let mut objects: Vec<(Object<M>, M)> = Vec::new();
                proof {
                    assert(objects_model(objects@) =~= Seq::<(SpecObject<M>, M)>::empty());
                    assert(erase_objects(objects_model(objects@)) =~= erase_objects(
                        Seq::<(SpecObject<M>, M)>::empty(),
                    ));
                }
                let ghost mut spans: Seq<(SpecObject<Span>, Span)> = Seq::empty();
                proof {
                    assert(fit_objects(may_build(p0.builder()), objects_model(objects@), spans));
                }
                loop
                    invariant
                        fit_objects(may_build(p0.builder()), objects_model(objects@), spans),
                        collection_rest(parser.stream(), spans, span, span_meta()) == collection_from(
                            p0.stream(),
                            token,
                            span,
                            span_meta(),
                        ),
                        p0 == *old(parser),
                        p0.can_build(),
                        parser.builder() == p0.builder(),
                        p0.stream().is_suffix(parser.stream()),
                        forall|g: spec_fn(Span) -> M| #[trigger] builds_with(p0.builder(), g) ==> collection_rest(
                            parser.stream(),
                            objects_model(objects@),
                            span,
                            g,
                        ) == collection_from(p0.stream(), token, span, g),
                        match collection_rest(
                            parser.stream(),
                            objects_model(objects@),
                            span,
                            any_meta::<M>(),
                        ) {
                            Ok((c, m, after)) => collection_from(
                                p0.stream(),
                                token,
                                span,
                                any_meta::<M>(),
                            ) matches Ok((v, n, rest)) && erase_objects(v.0) == erase_objects(c.0)
                                && rest == after,
                            Err(e) => collection_from(p0.stream(), token, span, any_meta::<M>())
                                == Err::<(SpecCollection<M>, M, TokenStream<L::Error>), _>(e),
                        },
                    decreases parser.stream().tokens.len(),
                {
                    let ghost s_b = parser.stream();
                    let ghost items_b = objects_model(objects@);
                    match parser.next() {
                        Ok((Some(Token::End(Delimiter::Parenthesis)), end_span)) => {
                            let mut span = span;
                            span.append(end_span);
                            return Ok((Collection(objects), parser.build_metadata(span)));
                        },
                        Ok((Some(token), token_span)) => {
                            match Object::parse_from(parser, token, token_span) {
                                Ok((object, meta)) => {
                                    proof {
                                        let t0 = s_b.tokens[0];
                                        let (o, sp, _) = object_from(s_b.advance(), t0.0, t0.1, span_meta())->Ok_0;
                                        lemma_fit_objects_push(
                                            may_build(p0.builder()),
                                            objects_model(objects@),
                                            spans,
                                            (object@, meta),
                                            (o, sp),
                                        );
                                        spans = spans.push((o, sp));
                                        lemma_objects_model_push(objects@, object, meta);
                                        let a = any_meta::<M>();
                                        let t = s_b.tokens[0];
                                        match object_from(s_b.advance(), t.0, t.1, a) {
                                            Ok((o, m, rest)) => {
                                                lemma_erase_objects_push(items_b, (o, m));
                                                lemma_erase_objects_push(items_b, (object@, meta));
                                                lemma_collection_rest_shape(
                                                    rest,
                                                    items_b.push((o, m)),
                                                    items_b.push((object@, meta)),
                                                    span,
                                                    a,
                                                );
                                            },
                                            Err(_) => {},
                                        }
                                    }
                                    objects.push((object, meta));
                                },
                                Err(e) => return Err(e),
                            }
                        },
                        Ok((None, end_span)) => return Err(
                            parser.error(Error::Unexpected(Unexpected::EndOfFile), end_span),
                        ),
                        Err(e) => return Err(parser.lexer_error(e)),
                    }
                }
            },
            unexpected => Err(parser.error(Error::Unexpected(Unexpected::Token(unexpected)), span)),
        }
    }
}

impl<M> Subject<M> {
    /// Parses a subject read from the parser; the end of the input is an error.
    pub fn parse_with<L: Tokens, F: Fn(Span) -> M>(parser: &mut Parser<L, F>) -> (r: Result<
        (Subject<M>, M),
        ParseError<L::Error, M>,
    >)
        requires
            old(parser).can_build(),
        ensures
            old(parser).reads(*final(parser)),
            forall|g: spec_fn(Span) -> M| #[trigger] builds_with(old(parser).builder(), g)
                ==> old(parser).parsed(*final(parser), r, subject_with(old(parser).stream(), g)),
            old(parser).shaped(*final(parser), r, subject_with(old(parser).stream(), any_meta())),
            old(parser).fitted(*final(parser), r, subject_with(old(parser).stream(), span_meta())),
    {
        match parser.next() {
            Ok((Some(token), span)) => Subject::parse_from(parser, token, span),
            Ok((None, span)) => Err(parser.error(Error::Unexpected(Unexpected::EndOfFile), span)),
            Err(e) => Err(parser.lexer_error(e)),
        }
    }

    /// Parses a subject starting with `token`, read at `span`.
    pub fn parse_from<L: Tokens, F: Fn(Span) -> M>(
        parser: &mut Parser<L, F>,
        token: Token,
        span: Span,
    ) -> (r: Result<(Subject<M>, M), ParseError<L::Error, M>>)
        requires
            old(parser).can_build(),
        ensures
            old(parser).reads(*final(parser)),
            forall|g: spec_fn(Span) -> M| #[trigger] builds_with(old(parser).builder(), g)
                ==> old(parser).parsed(*final(parser), r, subject_from(old(parser).stream(), token, span, g)),
            old(parser).shaped(*final(parser), r, subject_from(old(parser).stream(), token, span, any_meta())),
            old(parser).fitted(*final(parser), r, subject_from(old(parser).stream(), token, span, span_meta())),
        decreases old(parser).stream().tokens.len(), 3nat,
    {
        match token {
            Token::IriRef(iri_ref) => Ok(
                (Subject::Iri(Iri::IriRef(iri_ref)), parser.build_metadata(span)),
            ),
            Token::CompactIri(prefix, suffix) => Ok(
                (Subject::Iri(compact_iri(parser, prefix, suffix)), parser.build_metadata(span)),
            ),
            Token::BlankNodeLabel(label) => Ok(
                (Subject::BlankNode(BlankNode::Label(label)), parser.build_metadata(span)),
            ),
            Token::Begin(Delimiter::Bracket) => match parse_anonymous(parser, span) {
                Ok((b, meta)) => Ok((Subject::BlankNode(b), meta)),
                Err(e) => Err(e),
            },
            Token::Begin(Delimiter::Parenthesis) => match Collection::parse_from(
                parser,
                Token::Begin(Delimiter::Parenthesis),
                span,
            ) {
                Ok((c, meta)) => Ok((Subject::Collection(c), meta)),
                Err(e) => Err(e),
            },
            unexpected => Err(parser.error(Error::Unexpected(Unexpected::Token(unexpected)), span)),
        }
    }
}

impl<M> Object<M> {
    /// Parses an object starting with `token`, read at `span`.
    pub fn parse_from<L: Tokens, F: Fn(Span) -> M>(
        parser: &mut Parser<L, F>,
        token: Token,
        span: Span,
    ) -> (r: Result<(Object<M>, M), ParseError<L::Error, M>>)
        requires
            old(parser).can_build(),
        ensures
            old(parser).reads(*final(parser)),
            forall|g: spec_fn(Span) -> M| #[trigger] builds_with(old(parser).builder(), g)
                ==> old(parser).parsed(*final(parser), r, object_from(old(parser).stream(), token, span, g)),
            old(parser).shaped(*final(parser), r, object_from(old(parser).stream(), token, span, any_meta())),
            old(parser).fitted(*final(parser), r, object_from(old(parser).stream(), token, span, span_meta())),
        decreases old(parser).stream().tokens.len(), 3nat,
    {
        match token {
            Token::IriRef(iri_ref) => Ok(
                (Object::Iri(Iri::IriRef(iri_ref)), parser.build_metadata(span)),
            ),
            Token::CompactIri(prefix, suffix) => Ok(
                (Object::Iri(compact_iri(parser, prefix, suffix)), parser.build_metadata(span)),
            ),
            Token::BlankNodeLabel(label) => Ok(
                (Object::BlankNode(BlankNode::Label(label)), parser.build_metadata(span)),
            ),
            Token::Begin(Delimiter::Bracket) => match parse_anonymous(parser, span) {
                Ok((b, meta)) => Ok((Object::BlankNode(b), meta)),
                Err(e) => Err(e),
            },
            Token::Begin(Delimiter::Parenthesis) => match Collection::parse_from(
                parser,
                Token::Begin(Delimiter::Parenthesis),
                span,
            ) {
                Ok((c, meta)) => Ok((Object::Collection(c), meta)),
                Err(e) => Err(e),
            },
            token => match Literal::parse_from(parser, token, span) {
                Ok((literal, meta)) => Ok((Object::Literal(literal), meta)),
                Err(e) => Err(e),
            },
        }
    }

    /// Parses an object read from the parser.
    pub fn parse_with<L: Tokens, F: Fn(Span) -> M>(parser: &mut Parser<L, F>) -> (r: Result<
        (Object<M>, M),
        ParseError<L::Error, M>,
    >)
        requires
            old(parser).can_build(),
        ensures
            old(parser).reads(*final(parser)),
            forall|g: spec_fn(Span) -> M| #[trigger] builds_with(old(parser).builder(), g)
                ==> old(parser).parsed(*final(parser), r, object_with(old(parser).stream(), g)),
            old(parser).shaped(*final(parser), r, object_with(old(parser).stream(), any_meta())),
            old(parser).fitted(*final(parser), r, object_with(old(parser).stream(), span_meta())),
        decreases old(parser).stream().tokens.len(), 0nat,
    {
        match parser.next() {
            Ok((Some(token), span)) => Object::parse_from(parser, token, span),
            Ok((None, span)) => Err(parser.error(Error::Unexpected(Unexpected::EndOfFile), span)),
            Err(e) => Err(parser.lexer_error(e)),
        }
    }
}

impl<M> Objects<M> {
    /// Parses a list of objects starting with `token`, read at `span`.
    pub fn parse_from<L: Tokens, F: Fn(Span) -> M>(
        parser: &mut Parser<L, F>,
        token: Token,
        span: Span,
    ) -> (r: Result<(Objects<M>, M), ParseError<L::Error, M>>)
        requires
            old(parser).can_build(),
        ensures
            old(parser).reads(*final(parser)),
            forall|g: spec_fn(Span) -> M| #[trigger] builds_with(old(parser).builder(), g)
                ==> old(parser).parsed(*final(parser), r, objects_from(old(parser).stream(), token, span, g)),
            old(parser).shaped(*final(parser), r, objects_from(old(parser).stream(), token, span, any_meta())),
            old(parser).fitted(*final(parser), r, objects_from(old(parser).stream(), token, span, span_meta())),
        decreases old(parser).stream().tokens.len(), 4nat,
    {
        let ghost p0 = *parser;
        let first = match Object::parse_from(parser, token, span) {
            Ok(o) => o,
            Err(e) => return Err(e),
        };
        let mut result: Vec<(Object<M>, M)> = Vec::new();
        proof {
            lemma_objects_model_push(result@, first.0, first.1);
            assert(objects_model(result@) =~= Seq::<(SpecObject<M>, M)>::empty());
            assert(seq![(object_model(first.0), first.1)] =~= Seq::<(SpecObject<M>, M)>::empty().push(
                (object_model(first.0), first.1),
            ));
        }
        result.push(first);
        proof {
            let a = any_meta::<M>();
            match object_from(p0.stream(), token, span, a) {
                Ok((o, m, rest)) => {
                    assert(erase_objects(seq![(o, m)]) =~= erase_objects(objects_model(result@)));
                    lemma_objects_rest_shape(rest, seq![(o, m)], objects_model(result@), a);
                },
                Err(_) => {},
            }
        }
        let ghost mut spans: Seq<(SpecObject<Span>, Span)> = seq![
            (object_from(p0.stream(), token, span, span_meta())->Ok_0.0,
            object_from(p0.stream(), token, span, span_meta())->Ok_0.1),
        ];
        proof {
            let ok = may_build(p0.builder());
            assert(ok(spans[0].1, result@[0].1));
            assert(fit_objects(ok, objects_model(result@), spans));
        }
        loop
            invariant
                fit_objects(may_build(p0.builder()), objects_model(result@), spans),
                match objects_rest(parser.stream(), spans, span_meta()) {
                    Ok((items, after)) => objects_from(p0.stream(), token, span, span_meta()) == Ok::<
                        _,
                        Failure<L::Error, Span>,
                    >((SpecObjects(items), span, after)),
                    Err(e) => objects_from(p0.stream(), token, span, span_meta()) == Err::<
                        (SpecObjects<Span>, Span, TokenStream<L::Error>),
                        _,
                    >(e),
                },
                p0 == *old(parser),
                p0.can_build(),
                parser.builder() == p0.builder(),
                p0.stream().is_suffix(parser.stream()),
                forall|g: spec_fn(Span) -> M| #[trigger] builds_with(p0.builder(), g) ==> match objects_rest(
                    parser.stream(),
                    objects_model(result@),
                    g,
                ) {
                    Ok((items, after)) => objects_from(p0.stream(), token, span, g) == Ok::<
                        _,
                        Failure<L::Error, M>,
                    >((SpecObjects(items), g(span), after)),
                    Err(e) => objects_from(p0.stream(), token, span, g) == Err::<
                        (SpecObjects<M>, M, TokenStream<L::Error>),
                        _,
                    >(e),
                },
                match objects_rest(parser.stream(), objects_model(result@), any_meta::<M>()) {
                    Ok((items, after)) => objects_from(p0.stream(), token, span, any_meta::<M>()) matches Ok(
                        (v, _, rest),
                    ) && erase_objects(v.0) == erase_objects(items) && rest == after,
                    Err(e) => objects_from(p0.stream(), token, span, any_meta::<M>()) == Err::<
                        (SpecObjects<M>, M, TokenStream<L::Error>),
                        _,
                    >(e),
                },
            decreases parser.stream().tokens.len(),
        {
            let ghost s_b = parser.stream();
            let ghost items_b = objects_model(result@);
            match parser.peek() {
                Err(e) => return Err(parser.lexer_error(e)),
                Ok((Some(TokenKind::Punct(Punct::Comma)), _)) => {
                    let _ = parser.next();
                    match Object::parse_with(parser) {
                        Ok((object, meta)) => {
                            proof {
                                let (o, sp, _) = object_with(s_b.advance(), span_meta())->Ok_0;
                                lemma_fit_objects_push(
                                    may_build(p0.builder()),
                                    objects_model(result@),
                                    spans,
                                    (object@, meta),
                                    (o, sp),
                                );
                                spans = spans.push((o, sp));
                                lemma_objects_model_push(result@, object, meta);
                                let a = any_meta::<M>();
                                match object_with(s_b.advance(), a) {
                                    Ok((o, m, rest)) => {
                                        lemma_erase_objects_push(items_b, (o, m));
                                        lemma_erase_objects_push(items_b, (object@, meta));
                                        lemma_objects_rest_shape(
                                            rest,
                                            items_b.push((o, m)),
                                            items_b.push((object@, meta)),
                                            a,
                                        );
                                    },
                                    Err(_) => {},
                                }
                            }
                            result.push((object, meta));
                        },
                        Err(e) => return Err(e),
                    }
                },
                Ok((Some(TokenKind::Punct(Punct::Period)), _))
                | Ok((Some(TokenKind::Punct(Punct::Semicolon)), _))
                | Ok((Some(TokenKind::End(Delimiter::Bracket)), _)) => {
                    return Ok((Objects(result), parser.build_metadata(span)));
                },
                Ok(_) => {
                    return match parser.next() {
                        Ok((unexpected, err_span)) => Err(
                            parser.error(Error::Unexpected(Unexpected::from(unexpected)), err_span),
                        ),
                        Err(e) => Err(parser.lexer_error(e)),
                    };
                },
            }
        }
    }

    /// Parses a list of objects read from the parser.
    pub fn parse_with<L: Tokens, F: Fn(Span) -> M>(parser: &mut Parser<L, F>) -> (r: Result<
        (Objects<M>, M),
        ParseError<L::Error, M>,
    >)
        requires
            old(parser).can_build(),
        ensures
            old(parser).reads(*final(parser)),
            forall|g: spec_fn(Span) -> M| #[trigger] builds_with(old(parser).builder(), g)
                ==> old(parser).parsed(*final(parser), r, objects_with(old(parser).stream(), g)),
            old(parser).shaped(*final(parser), r, objects_with(old(parser).stream(), any_meta())),
            old(parser).fitted(*final(parser), r, objects_with(old(parser).stream(), span_meta())),
        decreases old(parser).stream().tokens.len(), 1nat,
    {
        match parser.next() {
            Ok((Some(token), span)) => Objects::parse_from(parser, token, span),
            Ok((None, span)) => Err(parser.error(Error::Unexpected(Unexpected::EndOfFile), span)),
            Err(e) => Err(parser.lexer_error(e)),
        }
    }
}

impl<M> PredicateObjects<M> {
    /// Parses a verb and its objects, starting with `token`, read at `span`.
    pub fn parse_from<L: Tokens, F: Fn(Span) -> M>(
        parser: &mut Parser<L, F>,
        token: Token,
        span: Span,
    ) -> (r: Result<(PredicateObjects<M>, M), ParseError<L::Error, M>>)
        requires
            old(parser).can_build(),
        ensures
            old(parser).reads(*final(parser)),
            forall|g: spec_fn(Span) -> M| #[trigger] builds_with(old(parser).builder(), g)
                ==> old(parser).parsed(*final(parser), r, predicate_objects_from(old(parser).stream(), token, span, g)),
            old(parser).shaped(*final(parser), r, predicate_objects_from(old(parser).stream(), token, span, any_meta())),
            old(parser).fitted(*final(parser), r, predicate_objects_from(old(parser).stream(), token, span, span_meta())),
        decreases old(parser).stream().tokens.len(), 2nat,
    {
        let verb = match Verb::parse_from(parser, token, span) {
            Ok(v) => v,
            Err(e) => return Err(e),
        };
        let objects = match Objects::parse_with(parser) {
            Ok(o) => o,
            Err(e) => return Err(e),
        };
        let mut span = span;
        span.append(parser.last_span());
        Ok((PredicateObjects { verb, objects }, parser.build_metadata(span)))
    }

    /// Parses a verb and its objects, read from the parser.
    pub fn parse_with<L: Tokens, F: Fn(Span) -> M>(parser: &mut Parser<L, F>) -> (r: Result<
        (PredicateObjects<M>, M),
        ParseError<L::Error, M>,
    >)
        requires
            old(parser).can_build(),
        ensures
            old(parser).reads(*final(parser)),
            forall|g: spec_fn(Span) -> M| #[trigger] builds_with(old(parser).builder(), g)
                ==> old(parser).parsed(*final(parser), r, predicate_objects_with(old(parser).stream(), g)),
            old(parser).shaped(*final(parser), r, predicate_objects_with(old(parser).stream(), any_meta())),
            old(parser).fitted(*final(parser), r, predicate_objects_with(old(parser).stream(), span_meta())),
        decreases old(parser).stream().tokens.len(), 0nat,
    {
        match parser.next() {
            Ok((Some(token), span)) => PredicateObjects::parse_from(parser, token, span),
            Ok((None, span)) => Err(parser.error(Error::Unexpected(Unexpected::EndOfFile), span)),
            Err(e) => Err(parser.lexer_error(e)),
        }
    }
}

/// Parses a predicate-objects list starting with `token`, read at `span`.
pub fn parse_po_list_from<L: Tokens, F: Fn(Span) -> M, M>(
    parser: &mut Parser<L, F>,
    token: Token,
    span: Span,
) -> (r: Result<(Vec<(PredicateObjects<M>, M)>, M), ParseError<L::Error, M>>)
    requires
        old(parser).can_build(),
    ensures
        old(parser).reads(*final(parser)),
        forall|g: spec_fn(Span) -> M| #[trigger] builds_with(old(parser).builder(), g)
            ==> old(parser).parsed_list(*final(parser), r, po_list_from(old(parser).stream(), token, span, g)),
        old(parser).shaped_list(*final(parser), r, po_list_from(old(parser).stream(), token, span, any_meta())),
        old(parser).fitted_list(*final(parser), r, po_list_from(old(parser).stream(), token, span, span_meta())),
    decreases old(parser).stream().tokens.len(), 3nat,
{
    let ghost p0 = *parser;
    let first = match PredicateObjects::parse_from(parser, token, span) {
        Ok(p) => p,
        Err(e) => return Err(e),
    };
    let mut result: Vec<(PredicateObjects<M>, M)> = Vec::new();
    proof {
        lemma_predicate_objects_list_model_push(result@, first.0, first.1);
        assert(predicate_objects_list_model(result@) =~= Seq::<
            (SpecPredicateObjects<M>, M),
        >::empty());
        assert(seq![(predicate_objects_model(first.0), first.1)] =~= Seq::<
            (SpecPredicateObjects<M>, M),
        >::empty().push((predicate_objects_model(first.0), first.1)));
    }
    result.push(first);
    proof {
        let a = any_meta::<M>();
        match predicate_objects_from(p0.stream(), token, span, a) {
            Ok((p, m, rest)) => {
                assert(erase_po_list(seq![(p, m)]) =~= erase_po_list(
                    predicate_objects_list_model(result@),
                ));
                lemma_po_list_rest_shape(rest, seq![(p, m)], predicate_objects_list_model(result@), a);
            },
            Err(_) => {},
        }
    }
    let ghost mut spans: Seq<(SpecPredicateObjects<Span>, Span)> = seq![
        (predicate_objects_from(p0.stream(), token, span, span_meta())->Ok_0.0,
        predicate_objects_from(p0.stream(), token, span, span_meta())->Ok_0.1),
    ];
    proof {
        let ok = may_build(p0.builder());
        assert(ok(spans[0].1, result@[0].1));
        assert(fit_po_list(ok, predicate_objects_list_model(result@), spans));
    }
    loop
        invariant
            fit_po_list(may_build(p0.builder()), predicate_objects_list_model(result@), spans),
            match po_list_rest(parser.stream(), spans, span_meta()) {
                Ok((items, after)) => po_list_from(p0.stream(), token, span, span_meta()) == Ok::<
                    _,
                    Failure<L::Error, Span>,
                >((items, span, after)),
                Err(e) => po_list_from(p0.stream(), token, span, span_meta()) == Err::<
                    (Seq<(SpecPredicateObjects<Span>, Span)>, Span, TokenStream<L::Error>),
                    _,
                >(e),
            },
            p0 == *old(parser),
            p0.can_build(),
            parser.builder() == p0.builder(),
            p0.stream().is_suffix(parser.stream()),
            forall|g: spec_fn(Span) -> M| #[trigger] builds_with(p0.builder(), g) ==> match po_list_rest(
                parser.stream(),
                predicate_objects_list_model(result@),
                g,
            ) {
                Ok((items, after)) => po_list_from(p0.stream(), token, span, g) == Ok::<
                    _,
                    Failure<L::Error, M>,
                >((items, g(span), after)),
                Err(e) => po_list_from(p0.stream(), token, span, g) == Err::<
                    (Seq<(SpecPredicateObjects<M>, M)>, M, TokenStream<L::Error>),
                    _,
                >(e),
            },
            match po_list_rest(parser.stream(), predicate_objects_list_model(result@), any_meta::<M>()) {
                Ok((items, after)) => po_list_from(p0.stream(), token, span, any_meta::<M>()) matches Ok(
                    (v, _, rest),
                ) && erase_po_list(v) == erase_po_list(items) && rest == after,
                Err(e) => po_list_from(p0.stream(), token, span, any_meta::<M>()) == Err::<
                    (Seq<(SpecPredicateObjects<M>, M)>, M, TokenStream<L::Error>),
                    _,
                >(e),
            },
        decreases parser.stream().tokens.len(),
    {
        let ghost s_b = parser.stream();
        let ghost items_b = predicate_objects_list_model(result@);
        match parser.peek() {
            Err(e) => return Err(parser.lexer_error(e)),
            Ok((Some(TokenKind::Punct(Punct::Semicolon)), _)) => {
                let _ = parser.next();
                match parser.peek() {
                    Err(e) => return Err(parser.lexer_error(e)),
                    Ok((Some(TokenKind::Punct(Punct::Period)), _))
                    | Ok((Some(TokenKind::End(Delimiter::Bracket)), _)) => {
                        return Ok((result, parser.build_metadata(span)));
                    },
                    Ok(_) => match PredicateObjects::parse_with(parser) {
                        Ok((p, meta)) => {
                            proof {
                                let (q, sp, _) = predicate_objects_with(s_b.advance(), span_meta())->Ok_0;
                                lemma_fit_po_list_push(
                                    may_build(p0.builder()),
                                    predicate_objects_list_model(result@),
                                    spans,
                                    (p@, meta),
                                    (q, sp),
                                );
                                spans = spans.push((q, sp));
                                lemma_predicate_objects_list_model_push(result@, p, meta);
                                let a = any_meta::<M>();
                                match predicate_objects_with(s_b.advance(), a) {
                                    Ok((q, m, rest)) => {
                                        lemma_erase_po_list_push(items_b, (q, m));
                                        lemma_erase_po_list_push(items_b, (p@, meta));
                                        lemma_po_list_rest_shape(
                                            rest,
                                            items_b.push((q, m)),
                                            items_b.push((p@, meta)),
                                            a,
                                        );
                                    },
                                    Err(_) => {},
                                }
                            }
                            result.push((p, meta));
                        },
                        Err(e) => return Err(e),
                    },
                }
            },
            Ok((Some(TokenKind::Punct(Punct::Period)), _))
            | Ok((Some(TokenKind::End(Delimiter::Bracket)), _)) => {
                return Ok((result, parser.build_metadata(span)));
            },
            Ok(_) => {
                return match parser.next() {
                    Ok((unexpected, err_span)) => Err(
                        parser.error(Error::Unexpected(Unexpected::from(unexpected)), err_span),
                    ),
                    Err(e) => Err(parser.lexer_error(e)),
                };
            },
        }
    }
}

/// Parses a predicate-objects list read from the parser.
pub fn parse_po_list_with<L: Tokens, F: Fn(Span) -> M, M>(parser: &mut Parser<L, F>) -> (r:
    Result<(Vec<(PredicateObjects<M>, M)>, M), ParseError<L::Error, M>>)
    requires
        old(parser).can_build(),
    ensures
        old(parser).reads(*final(parser)),
        forall|g: spec_fn(Span) -> M| #[trigger] builds_with(old(parser).builder(), g)
            ==> old(parser).parsed_list(*final(parser), r, po_list_with(old(parser).stream(), g)),
        old(parser).shaped_list(*final(parser), r, po_list_with(old(parser).stream(), any_meta())),
        old(parser).fitted_list(*final(parser), r, po_list_with(old(parser).stream(), span_meta())),
    decreases old(parser).stream().tokens.len(), 0nat,
{
    match parser.next() {
        Ok((Some(token), span)) => parse_po_list_from(parser, token, span),
        Ok((None, span)) => Err(parser.error(Error::Unexpected(Unexpected::EndOfFile), span)),
        Err(e) => Err(parser.lexer_error(e)),
    }
}


/// Tells whether the subject is an anonymous blank node with at least one property.
fn is_described_blank_node<M>(subject: &Subject<M>) -> (b: bool)
    ensures
        b == spec_is_described_blank_node(subject@),
{
    match subject {
        Subject::BlankNode(BlankNode::Anonymous(l)) => !l.0.is_empty(),
        _ => false,
    }
}

/// Parses what follows the subject of triples, whose first token was read at `span`.
fn parse_triples_rest<L: Tokens, F: Fn(Span) -> M, M>(
    parser: &mut Parser<L, F>,
    subject: (Subject<M>, M),
    span: Span,
    Ghost(subject_spans): Ghost<(SpecSubject<Span>, Span)>,
) -> (r: Result<(Triples<M>, M), ParseError<L::Error, M>>)
    requires
        old(parser).can_build(),
        subject.0@.fits(may_build(old(parser).builder()), subject_spans.0),
        call_ensures(old(parser).builder(), (subject_spans.1,), subject.1),
    ensures
        old(parser).reads(*final(parser)),
        forall|g: spec_fn(Span) -> M| #[trigger] builds_with(old(parser).builder(), g)
            ==> old(parser).parsed(*final(parser), r, triples_rest(old(parser).stream(), (subject.0@, subject.1), span, g)),
        old(parser).shaped(*final(parser), r, triples_rest(old(parser).stream(), (subject.0@, subject.1), span, any_meta())),
        old(parser).fitted(*final(parser), r, triples_rest(old(parser).stream(), subject_spans, span, span_meta())),
    decreases old(parser).stream().tokens.len(), 3nat,
{
    let ghost s0 = parser.stream();
    let po_list = match parser.peek() {
        Err(e) => return Err(parser.lexer_error(e)),
        Ok((Some(TokenKind::Punct(Punct::Period)), p_span)) => {
            if !is_described_blank_node(&subject.0) {
                return Err(
                    parser.error(
                        Error::Unexpected(Unexpected::Token(Token::Punct(Punct::Period))),
                        p_span,
                    ),
                );
            }
            let next = parser.last_span().next();
            (Vec::new(), parser.build_metadata(next))
        },
        Ok(_) => match parse_po_list_with(parser) {
            Ok(l) => l,
            Err(e) => return Err(e),
        },
    };
    proof {
        assert(predicate_objects_list_model(Seq::<(PredicateObjects<M>, M)>::empty()) =~= Seq::<
            (SpecPredicateObjects<M>, M),
        >::empty());
    }
    let ghost list_spans = if next_is(s0, TokenKind::Punct(Punct::Period)) {
        (Seq::<(SpecPredicateObjects<Span>, Span)>::empty(), s0.last.spec_next())
    } else {
        let v = po_list_with(s0, span_meta())->Ok_0;
        (v.0, v.1)
    };
    finish_triples(parser, subject, po_list, span, Ghost(subject_spans), Ghost(list_spans))
}

/// Reads the `.` that ends triples, whose subject and list are given.
fn finish_triples<L: Tokens, F: Fn(Span) -> M, M>(
    parser: &mut Parser<L, F>,
    subject: (Subject<M>, M),
    po_list: (Vec<(PredicateObjects<M>, M)>, M),
    span: Span,
    Ghost(subject_spans): Ghost<(SpecSubject<Span>, Span)>,
    Ghost(list_spans): Ghost<(Seq<(SpecPredicateObjects<Span>, Span)>, Span)>,
) -> (r: Result<(Triples<M>, M), ParseError<L::Error, M>>)
    requires
        old(parser).can_build(),
        subject.0@.fits(may_build(old(parser).builder()), subject_spans.0),
        call_ensures(old(parser).builder(), (subject_spans.1,), subject.1),
        fit_po_list(may_build(old(parser).builder()), predicate_objects_list_model(po_list.0@), list_spans.0),
        call_ensures(old(parser).builder(), (list_spans.1,), po_list.1),
    ensures
        old(parser).reads(*final(parser)),
        forall|g: spec_fn(Span) -> M| #[trigger] builds_with(old(parser).builder(), g)
            ==> old(parser).parsed(*final(parser), r, triples_end(old(parser).stream(), (subject.0@, subject.1), (predicate_objects_list_model(po_list.0@), po_list.1), span, g)),
        old(parser).shaped(*final(parser), r, triples_end(old(parser).stream(), (subject.0@, subject.1), (predicate_objects_list_model(po_list.0@), po_list.1), span, any_meta())),
        old(parser).fitted(*final(parser), r, triples_end(old(parser).stream(), subject_spans, list_spans, span, span_meta())),
{
    let mut span = span;
    span.append(parser.last_span());
    match parser.next() {
        Ok((Some(Token::Punct(Punct::Period)), _)) => {},
        Ok((unexpected, err_span)) => return Err(
            parser.error(Error::Unexpected(Unexpected::from(unexpected)), err_span),
        ),
        Err(e) => return Err(parser.lexer_error(e)),
    }
    Ok((Triples { subject, predicate_objects_list: po_list }, parser.build_metadata(span)))
}

impl<M> Triples<M> {
    /// Parses triples read from the parser; the end of the input is an error.
    pub fn parse_with<L: Tokens, F: Fn(Span) -> M>(parser: &mut Parser<L, F>) -> (r: Result<
        (Triples<M>, M),
        ParseError<L::Error, M>,
    >)
        requires
            old(parser).can_build(),
        ensures
            old(parser).reads(*final(parser)),
            forall|g: spec_fn(Span) -> M| #[trigger] builds_with(old(parser).builder(), g)
                ==> old(parser).parsed(*final(parser), r, triples_with(old(parser).stream(), g)),
            old(parser).shaped(*final(parser), r, triples_with(old(parser).stream(), any_meta())),
            old(parser).fitted(*final(parser), r, triples_with(old(parser).stream(), span_meta())),
    {
        match parser.next() {
            Ok((Some(token), span)) => Triples::parse_from(parser, token, span),
            Ok((None, span)) => Err(parser.error(Error::Unexpected(Unexpected::EndOfFile), span)),
            Err(e) => Err(parser.lexer_error(e)),
        }
    }

    /// Parses triples starting with `token`, read at `span`.
    pub fn parse_from<L: Tokens, F: Fn(Span) -> M>(
        parser: &mut Parser<L, F>,
        token: Token,
        span: Span,
    ) -> (r: Result<(Triples<M>, M), ParseError<L::Error, M>>)
        requires
            old(parser).can_build(),
        ensures
            old(parser).reads(*final(parser)),
            forall|g: spec_fn(Span) -> M| #[trigger] builds_with(old(parser).builder(), g)
                ==> old(parser).parsed(*final(parser), r, triples_from(old(parser).stream(), token, span, g)),
            old(parser).shaped(*final(parser), r, triples_from(old(parser).stream(), token, span, any_meta())),
            old(parser).fitted(*final(parser), r, triples_from(old(parser).stream(), token, span, span_meta())),
        decreases old(parser).stream().tokens.len(), 4nat,
    {
        let ghost p0 = *parser;
        match Subject::parse_from(parser, token, span) {
            Ok(subject) => {
                proof {
                    match subject_from(p0.stream(), token, span, any_meta::<M>()) {
                        Ok((v, m, rest)) => lemma_triples_rest_shape(
                            rest,
                            (v, m),
                            (subject.0@, subject.1),
                            span,
                            any_meta::<M>(),
                        ),
                        Err(_) => {},
                    }
                }
                let ghost subject_spans = {
                    let v = subject_from(p0.stream(), token, span, span_meta())->Ok_0;
                    (v.0, v.1)
                };
                parse_triples_rest(parser, subject, span, Ghost(subject_spans))
            },
            Err(e) => Err(e),
        }
    }
}

/// Reads the IRI reference that ends a directive, and the `.` after it when `period`
/// holds: gives the reference with its metadata, and the span of the directive's last
/// Reads the IRI reference that ends a directive, and the `.` after it when `period`
/// holds: gives the reference with its span, and the span of the directive's last token.
fn parse_directive_iri<L: Tokens, F: Fn(Span) -> M, M>(parser: &mut Parser<L, F>, period: bool) -> (r:
    Result<((String, Span), Span), ParseError<L::Error, M>>)
    requires
        old(parser).can_build(),
    ensures
        old(parser).reads(*final(parser)),
        forall|g: spec_fn(Span) -> M| #[trigger] builds_with(old(parser).builder(), g) ==> match directive_iri(
            old(parser).stream(),
            period,
            g,
        ) {
            Ok((i, end, after)) => r matches Ok((x, e)) && x.0@ == i.0 && x.1 == i.1 && e == end
                && final(parser).stream() == after,
            Err((e, rest)) => r == Err::<((String, Span), Span), ParseError<L::Error, M>>(e)
                && final(parser).stream() == rest,
        },
        match directive_iri(old(parser).stream(), period, any_meta::<M>()) {
            Ok((i, end, after)) => r matches Ok((x, e)) && x.0@ == i.0 && x.1 == i.1 && e == end
                && final(parser).stream() == after,
            Err((e, rest)) => r matches Err((e2, _)) && e2 == e.0 && final(parser).stream() == rest,
        },
        match directive_iri(old(parser).stream(), period, span_meta()) {
            Ok(_) => true,
            Err(((e, sp), rest)) => r matches Err((e2, m)) && e2 == e && call_ensures(
                old(parser).builder(),
                (sp,),
                m,
            ) && final(parser).stream() == rest,
        },
{
    match parser.next() {
        Ok((Some(Token::IriRef(iri_ref)), iri_ref_span)) => {
            if !period {
                Ok(((iri_ref, iri_ref_span), iri_ref_span))
            } else {
                match parser.next() {
                    Ok((Some(Token::Punct(Punct::Period)), dot_span)) => Ok(
                        ((iri_ref, iri_ref_span), dot_span),
                    ),
                    Ok((unexpected, err_span)) => Err(
                        parser.error(Error::Unexpected(Unexpected::from(unexpected)), err_span),
                    ),
                    Err(e) => Err(parser.lexer_error(e)),
                }
            }
        },
        Ok((unexpected, err_span)) => Err(
            parser.error(Error::Unexpected(Unexpected::from(unexpected)), err_span),
        ),
        Err(e) => Err(parser.lexer_error(e)),
    }
}

/// Reads the namespace of a prefix directive, a prefixed name with an empty suffix,
/// and the IRI reference after it (and the `.` when `period` holds): gives both with
/// their spans, and the span of the directive's last token.
fn parse_directive_prefix<L: Tokens, F: Fn(Span) -> M, M>(
    parser: &mut Parser<L, F>,
    keyword_span: Span,
    period: bool,
) -> (r: Result<((String, Span), (String, Span), Span), ParseError<L::Error, M>>)
    requires
        old(parser).can_build(),
    ensures
        old(parser).reads(*final(parser)),
        forall|g: spec_fn(Span) -> M| #[trigger] builds_with(old(parser).builder(), g) ==> match directive_prefix(
            old(parser).stream(),
            keyword_span,
            period,
            g,
        ) {
            Ok((ns, i, end, after)) => r matches Ok((x, y, e)) && x.0@ == ns.0 && x.1 == ns.1
                && y.0@ == i.0 && y.1 == i.1 && e == end && final(parser).stream() == after,
            Err((e, rest)) => r == Err::<((String, Span), (String, Span), Span), ParseError<L::Error, M>>(e)
                && final(parser).stream() == rest,
        },
        match directive_prefix(old(parser).stream(), keyword_span, period, any_meta::<M>()) {
            Ok((ns, i, end, after)) => r matches Ok((x, y, e)) && x.0@ == ns.0 && x.1 == ns.1
                && y.0@ == i.0 && y.1 == i.1 && e == end && final(parser).stream() == after,
            Err((e, rest)) => r matches Err((e2, _)) && e2 == e.0 && final(parser).stream() == rest,
        },
        match directive_prefix(old(parser).stream(), keyword_span, period, span_meta()) {
            Ok(_) => true,
            Err(((e, sp), rest)) => r matches Err((e2, m)) && e2 == e && call_ensures(
                old(parser).builder(),
                (sp,),
                m,
            ) && final(parser).stream() == rest,
        },
{
    match parser.next() {
        Ok((Some(Token::CompactIri((namespace, ns_span), (suffix, suffix_span))), _)) => {
            if suffix.as_str().is_empty() {
                match parse_directive_iri(parser, period) {
                    Ok((iri_ref, end)) => Ok(((namespace, ns_span), iri_ref, end)),
                    Err(e) => Err(e),
                }
            } else {
                Err(
                    parser.error(
                        Error::Unexpected(
                            Unexpected::Token(
                                Token::CompactIri((namespace, ns_span), (suffix, suffix_span)),
                            ),
                        ),
                        keyword_span,
                    ),
                )
            }
        },
        Ok((unexpected, err_span)) => Err(
            parser.error(Error::Unexpected(Unexpected::from(unexpected)), err_span),
        ),
        Err(e) => Err(parser.lexer_error(e)),
    }
}

impl<M> Directive<M> {
    /// Parses a directive read from the parser; the end of the input is an error.
    pub fn parse_with<L: Tokens, F: Fn(Span) -> M>(parser: &mut Parser<L, F>) -> (r: Result<
        (Directive<M>, M),
        ParseError<L::Error, M>,
    >)
        requires
            old(parser).can_build(),
        ensures
            old(parser).reads(*final(parser)),
            forall|g: spec_fn(Span) -> M| #[trigger] builds_with(old(parser).builder(), g)
                ==> old(parser).parsed(*final(parser), r, directive_with(old(parser).stream(), g)),
            old(parser).shaped(*final(parser), r, directive_with(old(parser).stream(), any_meta())),
            old(parser).fitted(*final(parser), r, directive_with(old(parser).stream(), span_meta())),
    {
        match parser.next() {
            Ok((Some(token), span)) => Directive::parse_from(parser, token, span),
            Ok((None, span)) => Err(parser.error(Error::Unexpected(Unexpected::EndOfFile), span)),
            Err(e) => Err(parser.lexer_error(e)),
        }
    }

    /// Parses a directive starting with `token`, read at `span`.
    pub fn parse_from<L: Tokens, F: Fn(Span) -> M>(
        parser: &mut Parser<L, F>,
        token: Token,
        span: Span,
    ) -> (r: Result<(Directive<M>, M), ParseError<L::Error, M>>)
        requires
            old(parser).can_build(),
        ensures
            old(parser).reads(*final(parser)),
            forall|g: spec_fn(Span) -> M| #[trigger] builds_with(old(parser).builder(), g)
                ==> old(parser).parsed(*final(parser), r, directive_from(old(parser).stream(), token, span, g)),
            old(parser).shaped(*final(parser), r, directive_from(old(parser).stream(), token, span, any_meta())),
            old(parser).fitted(*final(parser), r, directive_from(old(parser).stream(), token, span, span_meta())),
    {
        let mut span = span;
        match token {
            Token::Keyword(Keyword::Prefix) => match parse_directive_prefix(parser, span, true) {
                Ok(((namespace, ns_span), (iri_ref, iri_ref_span), end)) => {
                    span.append(end);
                    let namespace = (namespace, parser.build_metadata(ns_span));
                    let iri_ref = (iri_ref, parser.build_metadata(iri_ref_span));
                    Ok((Directive::Prefix(namespace, iri_ref), parser.build_metadata(span)))
                },
                Err(e) => Err(e),
            },
            Token::Keyword(Keyword::Base) => match parse_directive_iri(parser, true) {
                Ok(((iri_ref, iri_ref_span), end)) => {
                    span.append(end);
                    let iri_ref = (iri_ref, parser.build_metadata(iri_ref_span));
                    Ok((Directive::Base(iri_ref), parser.build_metadata(span)))
                },
                Err(e) => Err(e),
            },
            Token::Keyword(Keyword::SparqlPrefix) => match parse_directive_prefix(
                parser,
                span,
                false,
            ) {
                Ok(((namespace, ns_span), (iri_ref, iri_ref_span), end)) => {
                    span.append(end);
                    let namespace = (namespace, parser.build_metadata(ns_span));
                    let iri_ref = (iri_ref, parser.build_metadata(iri_ref_span));
                    Ok((Directive::SparqlPrefix(namespace, iri_ref), parser.build_metadata(span)))
                },
                Err(e) => Err(e),
            },
            Token::Keyword(Keyword::SparqlBase) => match parse_directive_iri(parser, false) {
                Ok(((iri_ref, iri_ref_span), end)) => {
                    span.append(end);
                    let iri_ref = (iri_ref, parser.build_metadata(iri_ref_span));
                    Ok((Directive::SparqlBase(iri_ref), parser.build_metadata(span)))
                },
                Err(e) => Err(e),
            },
            unexpected => Err(parser.error(Error::Unexpected(Unexpected::Token(unexpected)), span)),
        }
    }
}

impl<M> Statement<M> {
    /// Parses a statement read from the parser; the end of the input is an error.
    pub fn parse_with<L: Tokens, F: Fn(Span) -> M>(parser: &mut Parser<L, F>) -> (r: Result<
        (Statement<M>, M),
        ParseError<L::Error, M>,
    >)
        requires
            old(parser).can_build(),
        ensures
            old(parser).reads(*final(parser)),
            forall|g: spec_fn(Span) -> M| #[trigger] builds_with(old(parser).builder(), g)
                ==> old(parser).parsed(*final(parser), r, statement_with(old(parser).stream(), g)),
            old(parser).shaped(*final(parser), r, statement_with(old(parser).stream(), any_meta())),
            old(parser).fitted(*final(parser), r, statement_with(old(parser).stream(), span_meta())),
    {
        match parser.next() {
            Ok((Some(token), span)) => Statement::parse_from(parser, token, span),
            Ok((None, span)) => Err(parser.error(Error::Unexpected(Unexpected::EndOfFile), span)),
            Err(e) => Err(parser.lexer_error(e)),
        }
    }

    /// Parses a statement starting with `token`, read at `span`.
    pub fn parse_from<L: Tokens, F: Fn(Span) -> M>(
        parser: &mut Parser<L, F>,
        token: Token,
        span: Span,
    ) -> (r: Result<(Statement<M>, M), ParseError<L::Error, M>>)
        requires
            old(parser).can_build(),
        ensures
            old(parser).reads(*final(parser)),
            forall|g: spec_fn(Span) -> M| #[trigger] builds_with(old(parser).builder(), g)
                ==> old(parser).parsed(*final(parser), r, statement_from(old(parser).stream(), token, span, g)),
            old(parser).shaped(*final(parser), r, statement_from(old(parser).stream(), token, span, any_meta())),
            old(parser).fitted(*final(parser), r, statement_from(old(parser).stream(), token, span, span_meta())),
    {
        let is_directive = match &token {
            Token::Keyword(Keyword::Prefix)
            | Token::Keyword(Keyword::Base)
            | Token::Keyword(Keyword::SparqlPrefix)
            | Token::Keyword(Keyword::SparqlBase) => true,
            _ => false,
        };
        if is_directive {
            match Directive::parse_from(parser, token, span) {
                Ok((directive, meta)) => Ok((Statement::Directive(directive), meta)),
                Err(e) => Err(e),
            }
        } else {
            match Triples::parse_from(parser, token, span) {
                Ok((triples, meta)) => Ok((Statement::Triples(triples), meta)),
                Err(e) => Err(e),
            }
        }
    }
}

impl<M> Document<M> {
    /// The empty document.
    pub fn new() -> (d: Document<M>)
        ensures
            d.statements@ == Seq::<(Statement<M>, M)>::empty(),
    {
        Document { statements: Vec::new() }
    }

    /// Adds a statement at the end of the document.
    pub fn insert(&mut self, statement: (Statement<M>, M))
        ensures
            final(self).statements@ == old(self).statements@.push(statement),
    {
        self.statements.push(statement);
    }

    /// Parses a document starting with `token`, read at `span`, up to the end of the input.
    pub fn parse_from<L: Tokens, F: Fn(Span) -> M>(
        parser: &mut Parser<L, F>,
        token: Token,
        span: Span,
    ) -> (r: Result<(Document<M>, M), ParseError<L::Error, M>>)
        requires
            old(parser).can_build(),
        ensures
            old(parser).reads(*final(parser)),
            forall|g: spec_fn(Span) -> M| #[trigger] builds_with(old(parser).builder(), g)
                ==> old(parser).parsed(*final(parser), r, document_from(old(parser).stream(), token, span, g)),
            old(parser).shaped(*final(parser), r, document_from(old(parser).stream(), token, span, any_meta())),
            old(parser).fitted(*final(parser), r, document_from(old(parser).stream(), token, span, span_meta())),
    {
        let ghost p0 = *parser;
        let mut result = Document::new();
        let first = match Statement::parse_from(parser, token, span) {
            Ok(st) => st,
            Err(e) => return Err(e),
        };
        proof {
            lemma_statements_model_push(result.statements@, first.0, first.1);
            assert(statements_model(result.statements@) =~= Seq::<(SpecStatement<M>, M)>::empty());
            assert(seq![(statement_model(first.0), first.1)] =~= Seq::<
                (SpecStatement<M>, M),
            >::empty().push((statement_model(first.0), first.1)));
        }
        result.insert(first);
        proof {
            let a = any_meta::<M>();
            match statement_from(p0.stream(), token, span, a) {
                Ok((st, m, rest)) => {
                    assert(erase_statements(seq![(st, m)]) =~= erase_statements(
                        statements_model(result.statements@),
                    ));
                    lemma_document_rest_shape(
                        rest,
                        seq![(st, m)],
                        statements_model(result.statements@),
                        a,
                    );
                },
                Err(_) => {},
            }
        }
        let ghost mut spans: Seq<(SpecStatement<Span>, Span)> = seq![
            (statement_from(p0.stream(), token, span, span_meta())->Ok_0.0,
            statement_from(p0.stream(), token, span, span_meta())->Ok_0.1),
        ];
        proof {
            let ok = may_build(p0.builder());
            assert(ok(spans[0].1, result.statements@[0].1));
            assert(statements_model(result.statements@)[0] == (statement_model(result.statements@[0].0), result.statements@[0].1));
            assert(fit_statements(ok, statements_model(result.statements@), spans));
        }
        loop
            invariant
                fit_statements(may_build(p0.builder()), statements_model(result.statements@), spans),
                match document_rest(parser.stream(), spans, span_meta()) {
                    Ok((items, after)) => document_from(p0.stream(), token, span, span_meta()) == Ok::<
                        _,
                        Failure<L::Error, Span>,
                    >((SpecDocument { statements: items }, span.spec_union(after.last), after)),
                    Err(e) => document_from(p0.stream(), token, span, span_meta()) == Err::<
                        (SpecDocument<Span>, Span, TokenStream<L::Error>),
                        _,
                    >(e),
                },
                p0 == *old(parser),
                p0.can_build(),
                parser.builder() == p0.builder(),
                p0.stream().is_suffix(parser.stream()),
                forall|g: spec_fn(Span) -> M| #[trigger] builds_with(p0.builder(), g) ==> match document_rest(
                    parser.stream(),
                    statements_model(result.statements@),
                    g,
                ) {
                    Ok((items, after)) => document_from(p0.stream(), token, span, g) == Ok::<
                        _,
                        Failure<L::Error, M>,
                    >((SpecDocument { statements: items }, g(span.spec_union(after.last)), after)),
                    Err(e) => document_from(p0.stream(), token, span, g) == Err::<
                        (SpecDocument<M>, M, TokenStream<L::Error>),
                        _,
                    >(e),
                },
                match document_rest(
                    parser.stream(),
                    statements_model(result.statements@),
                    any_meta::<M>(),
                ) {
                    Ok((items, after)) => document_from(p0.stream(), token, span, any_meta::<M>())
                        matches Ok((v, _, rest)) && erase_statements(v.statements)
                        == erase_statements(items) && rest == after,
                    Err(e) => document_from(p0.stream(), token, span, any_meta::<M>()) == Err::<
                        (SpecDocument<M>, M, TokenStream<L::Error>),
                        _,
                    >(e),
                },
            decreases parser.stream().tokens.len(),
        {
            let ghost s_b = parser.stream();
            let ghost items_b = statements_model(result.statements@);
            match parser.next() {
                Ok((Some(token), token_span)) => match Statement::parse_from(
                    parser,
                    token,
                    token_span,
                ) {
                    Ok((statement, meta)) => {
                        proof {
                            let t0 = s_b.tokens[0];
                            let (st, sp, _) = statement_from(s_b.advance(), t0.0, t0.1, span_meta())->Ok_0;
                            lemma_statements_model_push(result.statements@, statement, meta);
                            lemma_fit_statements_push(
                                may_build(p0.builder()),
                                items_b,
                                spans,
                                (statement@, meta),
                                (st, sp),
                            );
                            spans = spans.push((st, sp));
                            let a = any_meta::<M>();
                            let t = s_b.tokens[0];
                            match statement_from(s_b.advance(), t.0, t.1, a) {
                                Ok((st, m, rest)) => {
                                    lemma_erase_statements_push(items_b, (st, m));
                                    lemma_erase_statements_push(items_b, (statement@, meta));
                                    lemma_document_rest_shape(
                                        rest,
                                        items_b.push((st, m)),
                                        items_b.push((statement@, meta)),
                                        a,
                                    );
                                },
                                Err(_) => {},
                            }
                        }
                        result.insert((statement, meta));
                    },
                    Err(e) => return Err(e),
                },
                Ok((None, _)) => {
                    let mut span = span;
                    span.append(parser.last_span());
                    return Ok((result, parser.build_metadata(span)));
                },
                Err(e) => return Err(parser.lexer_error(e)),
            }
        }
    }

    /// Parses a whole document read from the parser; an empty input gives the empty
    /// document, whose span is the end of the input.
    pub fn parse_with<L: Tokens, F: Fn(Span) -> M>(parser: &mut Parser<L, F>) -> (r: Result<
        (Document<M>, M),
        ParseError<L::Error, M>,
    >)
        requires
            old(parser).can_build(),
        ensures
            old(parser).reads(*final(parser)),
            forall|g: spec_fn(Span) -> M| #[trigger] builds_with(old(parser).builder(), g)
                ==> old(parser).parsed(*final(parser), r, document_with(old(parser).stream(), g)),
            old(parser).shaped(*final(parser), r, document_with(old(parser).stream(), any_meta())),
            old(parser).fitted(*final(parser), r, document_with(old(parser).stream(), span_meta())),
    {
        match parser.next() {
            Ok((Some(token), span)) => Document::parse_from(parser, token, span),
            Ok((None, span)) => {
                let d = Document::new();
                proof {
                    assert(statements_model(d.statements@) =~= Seq::<(SpecStatement<M>, M)>::empty());
                }
                Ok((d, parser.build_metadata(span)))
            },
            Err(e) => Err(parser.lexer_error(e)),
        }
    }
}

} // verus!
