//! What the tokens of a statement stand for: an IRI token is the same IRI wherever it
//! stands, and triples hold the predicate-objects list written after their subject.
use vstd::prelude::*;

use crate::ast::{
    SpecBlankNode, SpecCollection, SpecDirective, SpecIri, SpecLiteral, SpecLiteralType,
    SpecObject, SpecPredicateObjects, SpecSubject, SpecVerb,
};
use crate::grammar::{
    anonymous_from, collection_rest, directive_from, iri_from, literal_from, object_from,
    po_list_with, rdf_literal, subject_from, triples_from, triples_rest, verb_from, next_is,
    xsd_string_iri, Failure,
};
use crate::lexing::{Delimiter, Keyword, Punct, Token, TokenKind, TokenStream};
use crate::span::Span;

verus! {

/// A prefixed name is the same IRI wherever it stands, as an IRI, the predicate of a
/// verb, a subject or an object: the IRI whose prefix is the token's prefix text and
/// whose suffix is its suffix text, each with the metadata of its own span. The node
/// covers the token's span and nothing after the token is read.
pub proof fn lemma_prefixed_name_everywhere<E, M>(
    s: TokenStream<E>,
    prefix: (String, Span),
    suffix: (String, Span),
    span: Span,
    meta: spec_fn(Span) -> M,
)
    ensures
        iri_from(s, Token::CompactIri(prefix, suffix), span, meta) == Ok::<_, Failure<E, M>>(
            (
                SpecIri::PrefixedName((prefix.0@, meta(prefix.1)), (suffix.0@, meta(suffix.1))),
                meta(span),
                s,
            ),
        ),
        verb_from(s, Token::CompactIri(prefix, suffix), span, meta) == Ok::<_, Failure<E, M>>(
            (
                SpecVerb::Predicate(
                    SpecIri::PrefixedName((prefix.0@, meta(prefix.1)), (suffix.0@, meta(suffix.1))),
                ),
                meta(span),
                s,
            ),
        ),
        subject_from(s, Token::CompactIri(prefix, suffix), span, meta) == Ok::<_, Failure<E, M>>(
            (
                SpecSubject::Iri(
                    SpecIri::PrefixedName((prefix.0@, meta(prefix.1)), (suffix.0@, meta(suffix.1))),
                ),
                meta(span),
                s,
            ),
        ),
        object_from(s, Token::CompactIri(prefix, suffix), span, meta) == Ok::<_, Failure<E, M>>(
            (
                SpecObject::Iri(
                    SpecIri::PrefixedName((prefix.0@, meta(prefix.1)), (suffix.0@, meta(suffix.1))),
                ),
                meta(span),
                s,
            ),
        ),
{
}

/// An IRI reference is the same IRI wherever it stands, as an IRI, the predicate of a
/// verb, a subject or an object: the IRI with the token's text.
pub proof fn lemma_iri_reference_everywhere<E, M>(
    s: TokenStream<E>,
    iri: String,
    span: Span,
    meta: spec_fn(Span) -> M,
)
    ensures
        iri_from(s, Token::IriRef(iri), span, meta) == Ok::<_, Failure<E, M>>(
            (SpecIri::<M>::IriRef(iri@), meta(span), s),
        ),
        verb_from(s, Token::IriRef(iri), span, meta) == Ok::<_, Failure<E, M>>(
            (SpecVerb::Predicate(SpecIri::<M>::IriRef(iri@)), meta(span), s),
        ),
        subject_from(s, Token::IriRef(iri), span, meta) == Ok::<_, Failure<E, M>>(
            (SpecSubject::Iri(SpecIri::<M>::IriRef(iri@)), meta(span), s),
        ),
        object_from(s, Token::IriRef(iri), span, meta) == Ok::<_, Failure<E, M>>(
            (SpecObject::Iri(SpecIri::<M>::IriRef(iri@)), meta(span), s),
        ),
{
}

/// The datatype of a literal written `"…"^^prefix:suffix` is the IRI that the prefixed
/// name stands for, with the metadata of the name's span.
pub proof fn lemma_datatype_prefixed_name<E, M>(
    s: TokenStream<E>,
    string: String,
    string_span: Span,
    meta: spec_fn(Span) -> M,
)
    requires
        s.tokens.len() >= 2,
        s.tokens[0].0 == Token::Punct(Punct::Carets),
        s.tokens[1].0 is CompactIri,
    ensures
        rdf_literal(s, string, string_span, meta) matches Ok((l, _, r)) && r == s.advance().advance()
            && l.value == (string@, meta(string_span)) && match s.tokens[1].0 {
            Token::CompactIri(p, x) => l.type_ == (
                SpecLiteralType::Any(
                    SpecIri::PrefixedName((p.0@, meta(p.1)), (x.0@, meta(x.1))),
                ),
                meta(s.tokens[1].1),
            ),
            _ => false,
        },
{
    assert(s.advance().tokens[0] == s.tokens[1]);
}

/// An `@prefix` directive binds the prefix text of its prefixed name to the text of its
/// IRI reference, each with the metadata of its own span, and spans from its keyword to
/// its `.`.
pub proof fn lemma_prefix_directive<E, M>(
    s: TokenStream<E>,
    span: Span,
    meta: spec_fn(Span) -> M,
)
    requires
        s.tokens.len() >= 3,
        s.tokens[0].0 matches Token::CompactIri(_, x) && x.0@.len() == 0,
        s.tokens[1].0 is IriRef,
        s.tokens[2].0 == Token::Punct(Punct::Period),
    ensures
        directive_from(s, Token::Keyword(Keyword::Prefix), span, meta) matches Ok((d, m, r)) && r
            == s.advance().advance().advance() && m == meta(span.spec_union(s.tokens[2].1))
            && match (s.tokens[0].0, s.tokens[1].0) {
            (Token::CompactIri(p, _), Token::IriRef(i)) => d == SpecDirective::Prefix(
                (p.0@, meta(p.1)),
                (i@, meta(s.tokens[1].1)),
            ),
            _ => false,
        },
{
    assert(s.advance().tokens[0] == s.tokens[1]);
    assert(s.advance().advance().tokens[0] == s.tokens[2]);
}

/// Triples hold the predicate-objects list written after their subject, whatever the
/// subject: when a `.` follows the subject the list is empty (its metadata is that of the
/// empty span after the subject); otherwise it is the list read right after the subject,
/// items and metadata, and it is not empty. The subject is kept as it was read.
pub proof fn lemma_triples_hold_their_list<E, M>(
    s: TokenStream<E>,
    subject: (SpecSubject<M>, M),
    span: Span,
    meta: spec_fn(Span) -> M,
)
    ensures
        match triples_rest(s, subject, span, meta) {
            Ok((t, _, _)) => {
                &&& t.subject == subject
                &&& if next_is(s, TokenKind::Punct(Punct::Period)) {
                    t.predicate_objects_list == (
                        Seq::<(crate::ast::SpecPredicateObjects<M>, M)>::empty(),
                        meta(s.last.spec_next()),
                    )
                } else {
                    po_list_with(s, meta) matches Ok((l, lm, _)) && t.predicate_objects_list == (
                        l,
                        lm,
                    ) && l.len() > 0
                }
            },
            Err(_) => true,
        },
{
    if !next_is(s, TokenKind::Punct(Punct::Period)) && s.tokens.len() > 0 {
        crate::laws::lemma_po_list_shape(s.advance(), s.tokens[0].0, s.tokens[0].1, meta);
    }
}

/// The triples that start with `token` hold the subject read from `token` and the
/// predicate-objects list written after it, as `lemma_triples_hold_their_list` says.
pub proof fn lemma_triples_from_hold_their_list<E, M>(
    s: TokenStream<E>,
    token: Token,
    span: Span,
    meta: spec_fn(Span) -> M,
)
    ensures
        match triples_from(s, token, span, meta) {
            Ok((t, _, _)) => subject_from(s, token, span, meta) matches Ok((x, m, rest)) && {
                &&& t.subject == (x, m)
                &&& if next_is(rest, TokenKind::Punct(Punct::Period)) {
                    t.predicate_objects_list.0.len() == 0
                } else {
                    po_list_with(rest, meta) matches Ok((l, lm, _)) && t.predicate_objects_list
                        == (l, lm) && l.len() > 0
                }
            },
            Err(_) => true,
        },
{
    match subject_from(s, token, span, meta) {
        Ok((x, m, rest)) => lemma_triples_hold_their_list(rest, (x, m), span, meta),
        Err(_) => {},
    }
}

/// `a` as a verb is the verb `a`; a blank node label, as a subject or an object, is the
/// blank node with that label; numbers and booleans are the literals they write.
pub proof fn lemma_simple_terms<E, M>(
    s: TokenStream<E>,
    label: String,
    number: crate::lexing::Token,
    span: Span,
    meta: spec_fn(Span) -> M,
)
    ensures
        verb_from(s, Token::Keyword(Keyword::A), span, meta) == Ok::<_, Failure<E, M>>(
            (SpecVerb::<M>::A, meta(span), s),
        ),
        subject_from(s, Token::BlankNodeLabel(label), span, meta) == Ok::<_, Failure<E, M>>(
            (SpecSubject::BlankNode(SpecBlankNode::<M>::Label(label@)), meta(span), s),
        ),
        object_from(s, Token::BlankNodeLabel(label), span, meta) == Ok::<_, Failure<E, M>>(
            (SpecObject::BlankNode(SpecBlankNode::<M>::Label(label@)), meta(span), s),
        ),
        object_from(s, Token::Keyword(Keyword::True), span, meta) == Ok::<_, Failure<E, M>>(
            (SpecObject::Literal(SpecLiteral::<M>::Boolean(true)), meta(span), s),
        ),
        object_from(s, Token::Keyword(Keyword::False), span, meta) == Ok::<_, Failure<E, M>>(
            (SpecObject::Literal(SpecLiteral::<M>::Boolean(false)), meta(span), s),
        ),
        number matches Token::Numeric(n) ==> object_from(s, number, span, meta) == Ok::<
            _,
            Failure<E, M>,
        >((SpecObject::Literal(SpecLiteral::<M>::Numeric(n@)), meta(span), s)),
{
}

/// A string literal followed by a language tag has that tag as its type, with the tag's
/// metadata, and spans from the string to the tag; one followed by neither a tag nor
/// `^^` is an `xsd:string`, every part with the string's metadata, and reads nothing more.
pub proof fn lemma_string_literal_types<E, M>(
    s: TokenStream<E>,
    string: String,
    string_span: Span,
    meta: spec_fn(Span) -> M,
)
    ensures
        s.tokens.len() > 0 && s.tokens[0].0 is LangTag ==> (rdf_literal(s, string, string_span, meta)
            matches Ok((l, m, r)) && r == s.advance() && m == meta(
            string_span.spec_union(s.tokens[0].1),
        ) && l.value == (string@, meta(string_span)) && match s.tokens[0].0 {
            Token::LangTag(tag) => l.type_ == (
                SpecLiteralType::<M>::LangString(tag@),
                meta(s.tokens[0].1),
            ),
            _ => false,
        }),
        (s.tokens.len() > 0 && !(s.tokens[0].0 is LangTag) && s.tokens[0].0 != Token::Punct(
            Punct::Carets,
        )) || (s.tokens.len() == 0 && s.end is Ok) ==> rdf_literal(s, string, string_span, meta)
            == Ok::<_, Failure<E, M>>(
            (
                crate::ast::SpecRdfLiteral {
                    value: (string@, meta(string_span)),
                    type_: (
                        SpecLiteralType::Any(SpecIri::IriRef(xsd_string_iri())),
                        meta(string_span),
                    ),
                },
                meta(string_span),
                s,
            ),
        ),
{
}

/// An anonymous blank node holds the predicate-objects list written between its
/// brackets: empty when `]` follows `[` at once, otherwise the list read after `[`; it
/// ends with the `]` read right after that list.
pub proof fn lemma_anonymous_holds_its_list<E, M>(
    s: TokenStream<E>,
    span: Span,
    meta: spec_fn(Span) -> M,
)
    ensures
        match anonymous_from(s, span, meta) {
            Ok((b, m, r)) => b matches SpecBlankNode::Anonymous(l) && if next_is(
                s,
                TokenKind::End(Delimiter::Bracket),
            ) {
                l == (Seq::<(SpecPredicateObjects<M>, M)>::empty(), meta(s.last.spec_next()))
                    && r == s.advance()
            } else {
                po_list_with(s, meta) matches Ok((k, km, after)) && l == (k, km) && k.len() > 0
                    && r == after.advance() && m == meta(span.spec_union(after.tokens[0].1))
            },
            Err(_) => true,
        },
{
    if !next_is(s, TokenKind::End(Delimiter::Bracket)) && s.tokens.len() > 0 {
        crate::laws::lemma_po_list_shape(s.advance(), s.tokens[0].0, s.tokens[0].1, meta);
    }
}

/// The objects of a collection keep the order in which they are written: what is read
/// after the objects already read adds to them, and the collection ends with a `)`.
pub proof fn lemma_collection_keeps_order<E, M>(
    s: TokenStream<E>,
    items: Seq<(SpecObject<M>, M)>,
    span: Span,
    meta: spec_fn(Span) -> M,
)
    ensures
        match collection_rest(s, items, span, meta) {
            Ok((c, _, _)) => items.len() <= c.0.len() && forall|i: int|
                0 <= i < items.len() ==> c.0[i] == items[i],
            Err(_) => true,
        },
        s.tokens.len() > 0 && s.tokens[0].0 == Token::End(Delimiter::Parenthesis) ==> collection_rest(
            s,
            items,
            span,
            meta,
        ) == Ok::<_, Failure<E, M>>(
            (SpecCollection(items), meta(span.spec_union(s.tokens[0].1)), s.advance()),
        ),
        s.tokens.len() > 0 && s.tokens[0].0 != Token::End(Delimiter::Parenthesis) ==> match object_from(
            s.advance(),
            s.tokens[0].0,
            s.tokens[0].1,
            meta,
        ) {
            Ok((o, m, rest)) => s.advance().is_suffix(rest) ==> collection_rest(s, items, span, meta)
                == collection_rest(rest, items.push((o, m)), span, meta),
            Err(e) => collection_rest(s, items, span, meta) == Err::<
                (SpecCollection<M>, M, TokenStream<E>),
                Failure<E, M>,
            >(e),
        },
    decreases s.tokens.len(),
{
    if s.tokens.len() > 0 {
        let (t, t_span) = s.tokens[0];
        let after = s.advance();
        if t != Token::End(Delimiter::Parenthesis) {
            match object_from(after, t, t_span, meta) {
                Ok((o, m, rest)) => if after.is_suffix(rest) {
                    lemma_collection_keeps_order(rest, items.push((o, m)), span, meta);
                    assert forall|i: int| 0 <= i < items.len() implies items.push((o, m))[i]
                        == items[i] by {}
                },
                Err(_) => {},
            }
        }
    }
}

/// A SPARQL `PREFIX` directive binds the prefix text of its prefixed name to the text of
/// its IRI reference, each with the metadata of its own span, with no `.` after it.
pub proof fn lemma_sparql_prefix_directive<E, M>(
    s: TokenStream<E>,
    span: Span,
    meta: spec_fn(Span) -> M,
)
    requires
        s.tokens.len() >= 2,
        s.tokens[0].0 matches Token::CompactIri(_, x) && x.0@.len() == 0,
        s.tokens[1].0 is IriRef,
    ensures
        directive_from(s, Token::Keyword(Keyword::SparqlPrefix), span, meta) matches Ok((d, m, r))
            && r == s.advance().advance() && m == meta(span.spec_union(s.tokens[1].1)) && match (
            s.tokens[0].0,
            s.tokens[1].0,
        ) {
            (Token::CompactIri(p, _), Token::IriRef(i)) => d == SpecDirective::SparqlPrefix(
                (p.0@, meta(p.1)),
                (i@, meta(s.tokens[1].1)),
            ),
            _ => false,
        },
{
    assert(s.advance().tokens[0] == s.tokens[1]);
}

/// `@base` followed by an IRI reference and a `.`, and SPARQL `BASE` followed by an IRI
/// reference, set the base to the text of that reference, with the metadata of its span.
pub proof fn lemma_base_directives<E, M>(s: TokenStream<E>, span: Span, meta: spec_fn(Span) -> M)
    requires
        s.tokens.len() >= 1,
        s.tokens[0].0 is IriRef,
    ensures
        directive_from(s, Token::Keyword(Keyword::SparqlBase), span, meta) matches Ok((d, m, r))
            && r == s.advance() && m == meta(span.spec_union(s.tokens[0].1)) && match s.tokens[0].0 {
            Token::IriRef(i) => d == SpecDirective::SparqlBase((i@, meta(s.tokens[0].1))),
            _ => false,
        },
        s.tokens.len() >= 2 && s.tokens[1].0 == Token::Punct(Punct::Period) ==> (directive_from(
            s,
            Token::Keyword(Keyword::Base),
            span,
            meta,
        ) matches Ok((d, m, r)) && r == s.advance().advance() && m == meta(
            span.spec_union(s.tokens[1].1),
        ) && match s.tokens[0].0 {
            Token::IriRef(i) => d == SpecDirective::Base((i@, meta(s.tokens[0].1))),
            _ => false,
        }),
{
    if s.tokens.len() >= 2 {
        assert(s.advance().tokens[0] == s.tokens[1]);
    }
}

} // verus!
