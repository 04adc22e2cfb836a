//! The shape of what is parsed: the tree without its metadata, and what is left of the
//! token stream; or the error without its metadata, and what is left of the stream.
//!
//! The parser's contracts state the shape of each outcome for every metadata builder:
//! whether the parse succeeds, the tree without its metadata, the error, and the tokens
//! read.
use vstd::prelude::*;

use crate::grammar::{
    collection_rest, document_rest, object_from, object_with, objects_rest, po_list_rest,
    predicate_objects_with, spec_is_described_blank_node, statement_from, triples_rest, Failure,
};
use crate::lexing::{Delimiter, Punct, Token, TokenStream};
use crate::span::Span;

use crate::ast::{
    SpecBlankNode, SpecCollection, SpecDirective, SpecDocument, SpecIri, SpecLiteral,
    SpecLiteralType, SpecObject, SpecObjects, SpecPredicateObjects, SpecRdfLiteral,
    SpecStatement, SpecSubject, SpecTriples, SpecVerb,
};

verus! {

/// Metadata that stands for any value: the parser's contracts give the shape of each
/// outcome, whatever the builder, as that of the grammar's outcome with this metadata
/// (which, as `shape_laws` shows, any other metadata function would give too).
pub open spec fn any_meta<M>() -> spec_fn(Span) -> M {
    |span: Span| arbitrary()
}

/// A model of a node whose metadata can be left out.
pub trait Erase {
    /// The model without metadata.
    type Shape;

    /// This model, its metadata left out.
    spec fn erase(self) -> Self::Shape;
}

pub open spec fn erase_iri<M>(i: SpecIri<M>) -> SpecIri<()> {
    match i {
        SpecIri::IriRef(x) => SpecIri::IriRef(x),
        SpecIri::PrefixedName(p, s) => SpecIri::PrefixedName((p.0, ()), (s.0, ())),
    }
}

pub open spec fn erase_literal<M>(l: SpecLiteral<M>) -> SpecLiteral<()> {
    match l {
        SpecLiteral::Rdf(r) => SpecLiteral::Rdf(
            SpecRdfLiteral {
                value: (r.value.0, ()),
                type_: (
                    match r.type_.0 {
                        SpecLiteralType::Any(i) => SpecLiteralType::Any(erase_iri(i)),
                        SpecLiteralType::LangString(t) => SpecLiteralType::LangString(t),
                    },
                    (),
                ),
            },
        ),
        SpecLiteral::Numeric(n) => SpecLiteral::Numeric(n),
        SpecLiteral::Boolean(b) => SpecLiteral::Boolean(b),
    }
}

pub open spec fn erase_verb<M>(v: SpecVerb<M>) -> SpecVerb<()> {
    match v {
        SpecVerb::A => SpecVerb::A,
        SpecVerb::Predicate(i) => SpecVerb::Predicate(erase_iri(i)),
    }
}

pub open spec fn erase_directive<M>(d: SpecDirective<M>) -> SpecDirective<()> {
    match d {
        SpecDirective::Prefix(p, i) => SpecDirective::Prefix((p.0, ()), (i.0, ())),
        SpecDirective::Base(i) => SpecDirective::Base((i.0, ())),
        SpecDirective::SparqlPrefix(p, i) => SpecDirective::SparqlPrefix((p.0, ()), (i.0, ())),
        SpecDirective::SparqlBase(i) => SpecDirective::SparqlBase((i.0, ())),
    }
}

pub open spec fn erase_blank_node<M>(b: SpecBlankNode<M>) -> SpecBlankNode<()>
    decreases b,
{
    match b {
        SpecBlankNode::Label(l) => SpecBlankNode::Label(l),
        SpecBlankNode::Anonymous(l) => SpecBlankNode::Anonymous((erase_po_list(l.0), ())),
    }
}

/// A predicate-objects list without metadata.
pub open spec fn erase_po_list<M>(s: Seq<(SpecPredicateObjects<M>, M)>) -> Seq<
    (SpecPredicateObjects<()>, ()),
>
    decreases s,
{
    Seq::new(
        s.len(),
        |i: int|
            if 0 <= i < s.len() {
                (erase_predicate_objects(s[i].0), ())
            } else {
                (
                    SpecPredicateObjects {
                        verb: (SpecVerb::A, ()),
                        objects: (SpecObjects(Seq::empty()), ()),
                    },
                    (),
                )
            },
    )
}

pub open spec fn erase_predicate_objects<M>(p: SpecPredicateObjects<M>) -> SpecPredicateObjects<
    (),
>
    decreases p,
{
    SpecPredicateObjects {
        verb: (erase_verb(p.verb.0), ()),
        objects: (SpecObjects(erase_objects(p.objects.0.0)), ()),
    }
}

/// A list of objects without metadata.
pub open spec fn erase_objects<M>(s: Seq<(SpecObject<M>, M)>) -> Seq<(SpecObject<()>, ())>
    decreases s,
{
    Seq::new(
        s.len(),
        |i: int|
            if 0 <= i < s.len() {
                (erase_object(s[i].0), ())
            } else {
                (SpecObject::Literal(SpecLiteral::Boolean(false)), ())
            },
    )
}

pub open spec fn erase_object<M>(o: SpecObject<M>) -> SpecObject<()>
    decreases o,
{
    match o {
        SpecObject::Iri(i) => SpecObject::Iri(erase_iri(i)),
        SpecObject::BlankNode(b) => SpecObject::BlankNode(erase_blank_node(b)),
        SpecObject::Collection(c) => SpecObject::Collection(SpecCollection(erase_objects(c.0))),
        SpecObject::Literal(l) => SpecObject::Literal(erase_literal(l)),
    }
}

pub open spec fn erase_subject<M>(s: SpecSubject<M>) -> SpecSubject<()> {
    match s {
        SpecSubject::Iri(i) => SpecSubject::Iri(erase_iri(i)),
        SpecSubject::BlankNode(b) => SpecSubject::BlankNode(erase_blank_node(b)),
        SpecSubject::Collection(c) => SpecSubject::Collection(SpecCollection(erase_objects(c.0))),
    }
}

pub open spec fn erase_triples<M>(t: SpecTriples<M>) -> SpecTriples<()> {
    SpecTriples {
        subject: (erase_subject(t.subject.0), ()),
        predicate_objects_list: (erase_po_list(t.predicate_objects_list.0), ()),
    }
}

pub open spec fn erase_statement<M>(s: SpecStatement<M>) -> SpecStatement<()> {
    match s {
        SpecStatement::Directive(d) => SpecStatement::Directive(erase_directive(d)),
        SpecStatement::Triples(t) => SpecStatement::Triples(erase_triples(t)),
    }
}

/// A list of statements without metadata.
pub open spec fn erase_statements<M>(s: Seq<(SpecStatement<M>, M)>) -> Seq<(SpecStatement<()>, ())> {
    s.map_values(|p: (SpecStatement<M>, M)| (erase_statement(p.0), ()))
}

impl<M> Erase for SpecIri<M> {
    type Shape = SpecIri<()>;

    open spec fn erase(self) -> SpecIri<()> {
        erase_iri(self)
    }
}

impl<M> Erase for SpecLiteral<M> {
    type Shape = SpecLiteral<()>;

    open spec fn erase(self) -> SpecLiteral<()> {
        erase_literal(self)
    }
}

impl<M> Erase for SpecRdfLiteral<M> {
    type Shape = SpecLiteral<()>;

    open spec fn erase(self) -> SpecLiteral<()> {
        erase_literal(SpecLiteral::Rdf(self))
    }
}

impl<M> Erase for SpecVerb<M> {
    type Shape = SpecVerb<()>;

    open spec fn erase(self) -> SpecVerb<()> {
        erase_verb(self)
    }
}

impl<M> Erase for SpecDirective<M> {
    type Shape = SpecDirective<()>;

    open spec fn erase(self) -> SpecDirective<()> {
        erase_directive(self)
    }
}

impl<M> Erase for SpecBlankNode<M> {
    type Shape = SpecBlankNode<()>;

    open spec fn erase(self) -> SpecBlankNode<()> {
        erase_blank_node(self)
    }
}

impl<M> Erase for SpecCollection<M> {
    type Shape = SpecCollection<()>;

    open spec fn erase(self) -> SpecCollection<()> {
        SpecCollection(erase_objects(self.0))
    }
}

impl<M> Erase for SpecObject<M> {
    type Shape = SpecObject<()>;

    open spec fn erase(self) -> SpecObject<()> {
        erase_object(self)
    }
}

impl<M> Erase for SpecObjects<M> {
    type Shape = SpecObjects<()>;

    open spec fn erase(self) -> SpecObjects<()> {
        SpecObjects(erase_objects(self.0))
    }
}

impl<M> Erase for SpecPredicateObjects<M> {
    type Shape = SpecPredicateObjects<()>;

    open spec fn erase(self) -> SpecPredicateObjects<()> {
        erase_predicate_objects(self)
    }
}

impl<M> Erase for Seq<(SpecPredicateObjects<M>, M)> {
    type Shape = Seq<(SpecPredicateObjects<()>, ())>;

    open spec fn erase(self) -> Seq<(SpecPredicateObjects<()>, ())> {
        erase_po_list(self)
    }
}

impl<M> Erase for SpecSubject<M> {
    type Shape = SpecSubject<()>;

    open spec fn erase(self) -> SpecSubject<()> {
        erase_subject(self)
    }
}

impl<M> Erase for SpecTriples<M> {
    type Shape = SpecTriples<()>;

    open spec fn erase(self) -> SpecTriples<()> {
        erase_triples(self)
    }
}

impl<M> Erase for SpecStatement<M> {
    type Shape = SpecStatement<()>;

    open spec fn erase(self) -> SpecStatement<()> {
        erase_statement(self)
    }
}

impl<M> Erase for SpecDocument<M> {
    type Shape = SpecDocument<()>;

    open spec fn erase(self) -> SpecDocument<()> {
        SpecDocument { statements: erase_statements(self.statements) }
    }
}

/// Adding an object at the end of a list adds its shape at the end of the list's shape.
pub proof fn lemma_erase_objects_push<M>(a: Seq<(SpecObject<M>, M)>, x: (SpecObject<M>, M))
    ensures
        erase_objects(a.push(x)) == erase_objects(a).push((erase_object(x.0), ())),
{
    assert(erase_objects(a.push(x)) =~= erase_objects(a).push((erase_object(x.0), ())));
}

/// Adding a predicate with its objects at the end of a list adds its shape at the end.
pub proof fn lemma_erase_po_list_push<M>(
    a: Seq<(SpecPredicateObjects<M>, M)>,
    x: (SpecPredicateObjects<M>, M),
)
    ensures
        erase_po_list(a.push(x)) == erase_po_list(a).push((erase_predicate_objects(x.0), ())),
{
    assert(erase_po_list(a.push(x)) =~= erase_po_list(a).push((erase_predicate_objects(x.0), ())));
}

/// Adding a statement at the end of a list adds its shape at the end.
pub proof fn lemma_erase_statements_push<M>(a: Seq<(SpecStatement<M>, M)>, x: (SpecStatement<M>, M))
    ensures
        erase_statements(a.push(x)) == erase_statements(a).push((erase_statement(x.0), ())),
{
    assert(erase_statements(a.push(x)) =~= erase_statements(a).push((erase_statement(x.0), ())));
}

/// The objects after the first ones of a list are read alike whatever the metadata of
/// those first ones: outcomes of the same shape, or the same failure.
pub proof fn lemma_objects_rest_shape<E, M>(
    s: TokenStream<E>,
    a: Seq<(SpecObject<M>, M)>,
    b: Seq<(SpecObject<M>, M)>,
    meta: spec_fn(Span) -> M,
)
    requires
        erase_objects(a) == erase_objects(b),
    ensures
        match objects_rest(s, a, meta) {
            Ok((x, r)) => objects_rest(s, b, meta) matches Ok((y, t)) && erase_objects(x)
                == erase_objects(y) && r == t,
            Err(e) => objects_rest(s, b, meta) == Err::<
                (Seq<(SpecObject<M>, M)>, TokenStream<E>),
                Failure<E, M>,
            >(e),
        },
    decreases s.tokens.len(),
{
    if s.tokens.len() > 0 {
        if s.tokens[0].0 == Token::Punct(Punct::Comma) {
            let after = s.advance();
            match object_with(after, meta) {
                Ok((o, m, rest)) => if after.is_suffix(rest) {
                    lemma_erase_objects_push(a, (o, m));
                    lemma_erase_objects_push(b, (o, m));
                    lemma_objects_rest_shape(rest, a.push((o, m)), b.push((o, m)), meta);
                },
                Err(_) => {},
            }
        }
    }
}

/// The rest of a predicate-objects list is read alike whatever the metadata of its first
/// items.
pub proof fn lemma_po_list_rest_shape<E, M>(
    s: TokenStream<E>,
    a: Seq<(SpecPredicateObjects<M>, M)>,
    b: Seq<(SpecPredicateObjects<M>, M)>,
    meta: spec_fn(Span) -> M,
)
    requires
        erase_po_list(a) == erase_po_list(b),
    ensures
        match po_list_rest(s, a, meta) {
            Ok((x, r)) => po_list_rest(s, b, meta) matches Ok((y, t)) && erase_po_list(x)
                == erase_po_list(y) && r == t,
            Err(e) => po_list_rest(s, b, meta) == Err::<
                (Seq<(SpecPredicateObjects<M>, M)>, TokenStream<E>),
                Failure<E, M>,
            >(e),
        },
    decreases s.tokens.len(),
{
    if s.tokens.len() > 0 {
        if s.tokens[0].0 == Token::Punct(Punct::Semicolon) {
            let after = s.advance();
            if after.tokens.len() > 0 {
                match predicate_objects_with(after, meta) {
                    Ok((p, m, rest)) => if after.is_suffix(rest) {
                        lemma_erase_po_list_push(a, (p, m));
                        lemma_erase_po_list_push(b, (p, m));
                        lemma_po_list_rest_shape(rest, a.push((p, m)), b.push((p, m)), meta);
                    },
                    Err(_) => {},
                }
            }
        }
    }
}

/// The rest of a collection is read alike whatever the metadata of its first objects.
pub proof fn lemma_collection_rest_shape<E, M>(
    s: TokenStream<E>,
    a: Seq<(SpecObject<M>, M)>,
    b: Seq<(SpecObject<M>, M)>,
    span: Span,
    meta: spec_fn(Span) -> M,
)
    requires
        erase_objects(a) == erase_objects(b),
    ensures
        match collection_rest(s, a, span, meta) {
            Ok((x, m, r)) => collection_rest(s, b, span, meta) matches Ok((y, n, t)) && erase_objects(
                x.0,
            ) == erase_objects(y.0) && m == n && r == t,
            Err(e) => collection_rest(s, b, span, meta) == Err::<
                (SpecCollection<M>, M, TokenStream<E>),
                Failure<E, M>,
            >(e),
        },
    decreases s.tokens.len(),
{
    if s.tokens.len() > 0 {
        let (t, t_span) = s.tokens[0];
        let after = s.advance();
        if t != Token::End(Delimiter::Parenthesis) {
            match object_from(after, t, t_span, meta) {
                Ok((o, m, rest)) => if after.is_suffix(rest) {
                    lemma_erase_objects_push(a, (o, m));
                    lemma_erase_objects_push(b, (o, m));
                    lemma_collection_rest_shape(rest, a.push((o, m)), b.push((o, m)), span, meta);
                },
                Err(_) => {},
            }
        }
    }
}

/// The statements after the first ones of a document are read alike whatever the
/// metadata of those first ones.
pub proof fn lemma_document_rest_shape<E, M>(
    s: TokenStream<E>,
    a: Seq<(SpecStatement<M>, M)>,
    b: Seq<(SpecStatement<M>, M)>,
    meta: spec_fn(Span) -> M,
)
    requires
        erase_statements(a) == erase_statements(b),
    ensures
        match document_rest(s, a, meta) {
            Ok((x, r)) => document_rest(s, b, meta) matches Ok((y, t)) && erase_statements(x)
                == erase_statements(y) && r == t,
            Err(e) => document_rest(s, b, meta) == Err::<
                (Seq<(SpecStatement<M>, M)>, TokenStream<E>),
                Failure<E, M>,
            >(e),
        },
    decreases s.tokens.len(),
{
    if s.tokens.len() > 0 {
        let after = s.advance();
        match statement_from(after, s.tokens[0].0, s.tokens[0].1, meta) {
            Ok((st, m, rest)) => if after.is_suffix(rest) {
                lemma_erase_statements_push(a, (st, m));
                lemma_erase_statements_push(b, (st, m));
                lemma_document_rest_shape(rest, a.push((st, m)), b.push((st, m)), meta);
            },
            Err(_) => {},
        }
    }
}

/// What follows the subject of triples is read alike whatever the subject's metadata.
pub proof fn lemma_triples_rest_shape<E, M>(
    s: TokenStream<E>,
    a: (SpecSubject<M>, M),
    b: (SpecSubject<M>, M),
    span: Span,
    meta: spec_fn(Span) -> M,
)
    requires
        erase_subject(a.0) == erase_subject(b.0),
    ensures
        match triples_rest(s, a, span, meta) {
            Ok((x, m, r)) => triples_rest(s, b, span, meta) matches Ok((y, n, t)) && erase_triples(x)
                == erase_triples(y) && m == n && r == t,
            Err(e) => triples_rest(s, b, span, meta) == Err::<
                (SpecTriples<M>, M, TokenStream<E>),
                Failure<E, M>,
            >(e),
        },
{
    match a.0 {
        SpecSubject::BlankNode(SpecBlankNode::Anonymous(l)) => {
            assert(erase_po_list(l.0).len() == l.0.len());
            match b.0 {
                SpecSubject::BlankNode(SpecBlankNode::Anonymous(k)) => {
                    assert(erase_po_list(k.0).len() == k.0.len());
                },
                _ => {},
            }
        },
        _ => {},
    }
    assert(spec_is_described_blank_node(a.0) == spec_is_described_blank_node(b.0));
}

} // verus!
