//! How a tree made with any metadata builder fits the grammar's tree of spans: the same
//! tree, each metadata value being one that the builder may give for the span at the
//! same place.
use vstd::prelude::*;

use crate::ast::{
    SpecBlankNode, SpecCollection, SpecDirective, SpecDocument, SpecIri, SpecLiteral,
    SpecLiteralType, SpecObject, SpecObjects, SpecPredicateObjects, SpecRdfLiteral,
    SpecStatement, SpecSubject, SpecTriples, SpecVerb,
};
use crate::span::Span;

verus! {

/// The metadata function that gives each span itself: the grammar with it gives the
/// span of source text at each place of the tree.
pub open spec fn span_meta() -> spec_fn(Span) -> Span {
    |span: Span| span
}

/// A model whose metadata can be set against a model of spans, `ok` telling which
/// metadata value may stand for which span.
pub trait Fit<S, M> {
    /// This model is `spans` but for its metadata, each value `m` standing where `spans`
    /// has a span `sp` with `ok(sp, m)`.
    spec fn fits(self, ok: spec_fn(Span, M) -> bool, spans: S) -> bool;
}

pub open spec fn fit_iri<M>(ok: spec_fn(Span, M) -> bool, t: SpecIri<M>, v: SpecIri<Span>) -> bool {
    match t {
        SpecIri::IriRef(x) => v == SpecIri::<Span>::IriRef(x),
        SpecIri::PrefixedName(p, s) => v matches SpecIri::PrefixedName(q, r) && p.0 == q.0 && ok(
            q.1,
            p.1,
        ) && s.0 == r.0 && ok(r.1, s.1),
    }
}

pub open spec fn fit_literal<M>(
    ok: spec_fn(Span, M) -> bool,
    t: SpecLiteral<M>,
    v: SpecLiteral<Span>,
) -> bool {
    match t {
        SpecLiteral::Rdf(l) => v matches SpecLiteral::Rdf(w) && l.value.0 == w.value.0 && ok(
            w.value.1,
            l.value.1,
        ) && ok(w.type_.1, l.type_.1) && match l.type_.0 {
            SpecLiteralType::Any(i) => w.type_.0 matches SpecLiteralType::Any(j) && fit_iri(ok, i, j),
            SpecLiteralType::LangString(x) => w.type_.0 == SpecLiteralType::<Span>::LangString(x),
        },
        SpecLiteral::Numeric(n) => v == SpecLiteral::<Span>::Numeric(n),
        SpecLiteral::Boolean(b) => v == SpecLiteral::<Span>::Boolean(b),
    }
}

pub open spec fn fit_verb<M>(ok: spec_fn(Span, M) -> bool, t: SpecVerb<M>, v: SpecVerb<Span>) -> bool {
    match t {
        SpecVerb::A => v == SpecVerb::<Span>::A,
        SpecVerb::Predicate(i) => v matches SpecVerb::Predicate(j) && fit_iri(ok, i, j),
    }
}

pub open spec fn fit_directive<M>(
    ok: spec_fn(Span, M) -> bool,
    t: SpecDirective<M>,
    v: SpecDirective<Span>,
) -> bool {
    match t {
        SpecDirective::Prefix(p, i) => v matches SpecDirective::Prefix(q, j) && p.0 == q.0 && ok(
            q.1,
            p.1,
        ) && i.0 == j.0 && ok(j.1, i.1),
        SpecDirective::Base(i) => v matches SpecDirective::Base(j) && i.0 == j.0 && ok(j.1, i.1),
        SpecDirective::SparqlPrefix(p, i) => v matches SpecDirective::SparqlPrefix(q, j) && p.0
            == q.0 && ok(q.1, p.1) && i.0 == j.0 && ok(j.1, i.1),
        SpecDirective::SparqlBase(i) => v matches SpecDirective::SparqlBase(j) && i.0 == j.0 && ok(
            j.1,
            i.1,
        ),
    }
}

pub open spec fn fit_blank_node<M>(
    ok: spec_fn(Span, M) -> bool,
    t: SpecBlankNode<M>,
    v: SpecBlankNode<Span>,
) -> bool
    decreases t,
{
    match t {
        SpecBlankNode::Label(l) => v == SpecBlankNode::<Span>::Label(l),
        SpecBlankNode::Anonymous(l) => v matches SpecBlankNode::Anonymous(k) && fit_po_list(
            ok,
            l.0,
            k.0,
        ) && ok(k.1, l.1),
    }
}

/// A predicate-objects list fits a list of spans.
pub open spec fn fit_po_list<M>(
    ok: spec_fn(Span, M) -> bool,
    a: Seq<(SpecPredicateObjects<M>, M)>,
    c: Seq<(SpecPredicateObjects<Span>, Span)>,
) -> bool
    decreases a,
{
    a.len() == c.len() && forall|i: int|
        0 <= i < a.len() ==> fit_predicate_objects(ok, #[trigger] a[i].0, c[i].0) && ok(c[i].1, a[i].1)
}

pub open spec fn fit_predicate_objects<M>(
    ok: spec_fn(Span, M) -> bool,
    p: SpecPredicateObjects<M>,
    q: SpecPredicateObjects<Span>,
) -> bool
    decreases p,
{
    &&& fit_verb(ok, p.verb.0, q.verb.0)
    &&& ok(q.verb.1, p.verb.1)
    &&& fit_objects(ok, p.objects.0.0, q.objects.0.0)
    &&& ok(q.objects.1, p.objects.1)
}

/// A list of objects fits a list of spans.
pub open spec fn fit_objects<M>(
    ok: spec_fn(Span, M) -> bool,
    a: Seq<(SpecObject<M>, M)>,
    c: Seq<(SpecObject<Span>, Span)>,
) -> bool
    decreases a,
{
    a.len() == c.len() && forall|i: int|
        0 <= i < a.len() ==> fit_object(ok, #[trigger] a[i].0, c[i].0) && ok(c[i].1, a[i].1)
}

pub open spec fn fit_object<M>(ok: spec_fn(Span, M) -> bool, t: SpecObject<M>, v: SpecObject<Span>) -> bool
    decreases t,
{
    match t {
        SpecObject::Iri(i) => v matches SpecObject::Iri(j) && fit_iri(ok, i, j),
        SpecObject::BlankNode(b) => v matches SpecObject::BlankNode(c) && fit_blank_node(ok, b, c),
        SpecObject::Collection(c) => v matches SpecObject::Collection(d) && fit_objects(ok, c.0, d.0),
        SpecObject::Literal(l) => v matches SpecObject::Literal(k) && fit_literal(ok, l, k),
    }
}

pub open spec fn fit_subject<M>(
    ok: spec_fn(Span, M) -> bool,
    t: SpecSubject<M>,
    v: SpecSubject<Span>,
) -> bool {
    match t {
        SpecSubject::Iri(i) => v matches SpecSubject::Iri(j) && fit_iri(ok, i, j),
        SpecSubject::BlankNode(b) => v matches SpecSubject::BlankNode(c) && fit_blank_node(ok, b, c),
        SpecSubject::Collection(c) => v matches SpecSubject::Collection(d) && fit_objects(
            ok,
            c.0,
            d.0,
        ),
    }
}

pub open spec fn fit_triples<M>(
    ok: spec_fn(Span, M) -> bool,
    t: SpecTriples<M>,
    v: SpecTriples<Span>,
) -> bool {
    &&& fit_subject(ok, t.subject.0, v.subject.0)
    &&& ok(v.subject.1, t.subject.1)
    &&& fit_po_list(ok, t.predicate_objects_list.0, v.predicate_objects_list.0)
    &&& ok(v.predicate_objects_list.1, t.predicate_objects_list.1)
}

pub open spec fn fit_statement<M>(
    ok: spec_fn(Span, M) -> bool,
    t: SpecStatement<M>,
    v: SpecStatement<Span>,
) -> bool {
    match t {
        SpecStatement::Directive(d) => v matches SpecStatement::Directive(e) && fit_directive(
            ok,
            d,
            e,
        ),
        SpecStatement::Triples(x) => v matches SpecStatement::Triples(y) && fit_triples(ok, x, y),
    }
}

/// A list of statements fits a list of spans.
pub open spec fn fit_statements<M>(
    ok: spec_fn(Span, M) -> bool,
    a: Seq<(SpecStatement<M>, M)>,
    c: Seq<(SpecStatement<Span>, Span)>,
) -> bool {
    a.len() == c.len() && forall|i: int|
        0 <= i < a.len() ==> fit_statement(ok, #[trigger] a[i].0, c[i].0) && ok(c[i].1, a[i].1)
}

impl<M> Fit<SpecIri<Span>, M> for SpecIri<M> {
    open spec fn fits(self, ok: spec_fn(Span, M) -> bool, spans: SpecIri<Span>) -> bool {
        fit_iri(ok, self, spans)
    }
}

impl<M> Fit<SpecLiteral<Span>, M> for SpecLiteral<M> {
    open spec fn fits(self, ok: spec_fn(Span, M) -> bool, spans: SpecLiteral<Span>) -> bool {
        fit_literal(ok, self, spans)
    }
}

impl<M> Fit<SpecRdfLiteral<Span>, M> for SpecRdfLiteral<M> {
    open spec fn fits(self, ok: spec_fn(Span, M) -> bool, spans: SpecRdfLiteral<Span>) -> bool {
        fit_literal(ok, SpecLiteral::Rdf(self), SpecLiteral::Rdf(spans))
    }
}

impl<M> Fit<SpecVerb<Span>, M> for SpecVerb<M> {
    open spec fn fits(self, ok: spec_fn(Span, M) -> bool, spans: SpecVerb<Span>) -> bool {
        fit_verb(ok, self, spans)
    }
}

impl<M> Fit<SpecDirective<Span>, M> for SpecDirective<M> {
    open spec fn fits(self, ok: spec_fn(Span, M) -> bool, spans: SpecDirective<Span>) -> bool {
        fit_directive(ok, self, spans)
    }
}

impl<M> Fit<SpecBlankNode<Span>, M> for SpecBlankNode<M> {
    open spec fn fits(self, ok: spec_fn(Span, M) -> bool, spans: SpecBlankNode<Span>) -> bool {
        fit_blank_node(ok, self, spans)
    }
}

impl<M> Fit<SpecCollection<Span>, M> for SpecCollection<M> {
    open spec fn fits(self, ok: spec_fn(Span, M) -> bool, spans: SpecCollection<Span>) -> bool {
        fit_objects(ok, self.0, spans.0)
    }
}

impl<M> Fit<SpecObject<Span>, M> for SpecObject<M> {
    open spec fn fits(self, ok: spec_fn(Span, M) -> bool, spans: SpecObject<Span>) -> bool {
        fit_object(ok, self, spans)
    }
}

impl<M> Fit<SpecObjects<Span>, M> for SpecObjects<M> {
    open spec fn fits(self, ok: spec_fn(Span, M) -> bool, spans: SpecObjects<Span>) -> bool {
        fit_objects(ok, self.0, spans.0)
    }
}

impl<M> Fit<SpecPredicateObjects<Span>, M> for SpecPredicateObjects<M> {
    open spec fn fits(self, ok: spec_fn(Span, M) -> bool, spans: SpecPredicateObjects<Span>) -> bool {
        fit_predicate_objects(ok, self, spans)
    }
}

impl<M> Fit<SpecSubject<Span>, M> for SpecSubject<M> {
    open spec fn fits(self, ok: spec_fn(Span, M) -> bool, spans: SpecSubject<Span>) -> bool {
        fit_subject(ok, self, spans)
    }
}

impl<M> Fit<SpecTriples<Span>, M> for SpecTriples<M> {
    open spec fn fits(self, ok: spec_fn(Span, M) -> bool, spans: SpecTriples<Span>) -> bool {
        fit_triples(ok, self, spans)
    }
}

impl<M> Fit<SpecStatement<Span>, M> for SpecStatement<M> {
    open spec fn fits(self, ok: spec_fn(Span, M) -> bool, spans: SpecStatement<Span>) -> bool {
        fit_statement(ok, self, spans)
    }
}

impl<M> Fit<SpecDocument<Span>, M> for SpecDocument<M> {
    open spec fn fits(self, ok: spec_fn(Span, M) -> bool, spans: SpecDocument<Span>) -> bool {
        fit_statements(ok, self.statements, spans.statements)
    }
}

/// Adding an object that fits at the end of a list that fits keeps it fitting.
pub proof fn lemma_fit_objects_push<M>(
    ok: spec_fn(Span, M) -> bool,
    a: Seq<(SpecObject<M>, M)>,
    c: Seq<(SpecObject<Span>, Span)>,
    x: (SpecObject<M>, M),
    y: (SpecObject<Span>, Span),
)
    requires
        fit_objects(ok, a, c),
        fit_object(ok, x.0, y.0),
        ok(y.1, x.1),
    ensures
        fit_objects(ok, a.push(x), c.push(y)),
{
    assert forall|i: int| 0 <= i < a.push(x).len() implies fit_object(
        ok,
        #[trigger] a.push(x)[i].0,
        c.push(y)[i].0,
    ) && ok(c.push(y)[i].1, a.push(x)[i].1) by {
        if i < a.len() {
            assert(a.push(x)[i] == a[i]);
        }
    }
}

/// Adding a predicate with its objects that fits at the end of a list that fits keeps
/// it fitting.
pub proof fn lemma_fit_po_list_push<M>(
    ok: spec_fn(Span, M) -> bool,
    a: Seq<(SpecPredicateObjects<M>, M)>,
    c: Seq<(SpecPredicateObjects<Span>, Span)>,
    x: (SpecPredicateObjects<M>, M),
    y: (SpecPredicateObjects<Span>, Span),
)
    requires
        fit_po_list(ok, a, c),
        fit_predicate_objects(ok, x.0, y.0),
        ok(y.1, x.1),
    ensures
        fit_po_list(ok, a.push(x), c.push(y)),
{
    assert forall|i: int| 0 <= i < a.push(x).len() implies fit_predicate_objects(
        ok,
        #[trigger] a.push(x)[i].0,
        c.push(y)[i].0,
    ) && ok(c.push(y)[i].1, a.push(x)[i].1) by {
        if i < a.len() {
            assert(a.push(x)[i] == a[i]);
        }
    }
}

/// Adding a statement that fits at the end of a list that fits keeps it fitting.
pub proof fn lemma_fit_statements_push<M>(
    ok: spec_fn(Span, M) -> bool,
    a: Seq<(SpecStatement<M>, M)>,
    c: Seq<(SpecStatement<Span>, Span)>,
    x: (SpecStatement<M>, M),
    y: (SpecStatement<Span>, Span),
)
    requires
        fit_statements(ok, a, c),
        fit_statement(ok, x.0, y.0),
        ok(y.1, x.1),
    ensures
        fit_statements(ok, a.push(x), c.push(y)),
{
    assert forall|i: int| 0 <= i < a.push(x).len() implies fit_statement(
        ok,
        #[trigger] a.push(x)[i].0,
        c.push(y)[i].0,
    ) && ok(c.push(y)[i].1, a.push(x)[i].1) by {
        if i < a.len() {
            assert(a.push(x)[i] == a[i]);
        }
    }
}

} // verus!
