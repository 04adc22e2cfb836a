//! The syntax tree of a Turtle document, and its mathematical model.
//!
//! Every node comes with its metadata, which the parser makes from the span of source
//! text that the node covers.
use vstd::prelude::*;

verus! {

/// A numeric literal, kept as written in the source.
#[derive(Debug, PartialEq, Eq)]
pub enum NumericLiteral {
    /// An integer, such as `42`.
    Integer(String),
    /// A decimal, such as `4.2`.
    Decimal(String),
    /// A double, such as `4.2e1`.
    Double(String),
}

/// An IRI: a full IRI reference, or a prefixed name (prefix and suffix, each with its
/// metadata).
#[derive(Debug, PartialEq, Eq)]
pub enum Iri<M> {
    IriRef(String),
    PrefixedName((String, M), (String, M)),
}

/// The type of an RDF literal: a datatype IRI, or a language tag for a language-tagged string.
#[derive(Debug, PartialEq, Eq)]
pub enum LiteralType<M> {
    Any(Iri<M>),
    LangString(String),
}

/// A string literal with its type.
#[derive(Debug, PartialEq, Eq)]
pub struct RdfLiteral<M> {
    pub value: (String, M),
    pub type_: (LiteralType<M>, M),
}

/// A literal.
#[derive(Debug, PartialEq, Eq)]
pub enum Literal<M> {
    Rdf(RdfLiteral<M>),
    Numeric(NumericLiteral),
    Boolean(bool),
}

/// A predicate: `a` or an IRI.
#[derive(Debug, PartialEq, Eq)]
pub enum Verb<M> {
    A,
    Predicate(Iri<M>),
}

/// A directive: a prefix or base declaration, in Turtle or SPARQL style.
#[derive(Debug, PartialEq, Eq)]
pub enum Directive<M> {
    Prefix((String, M), (String, M)),
    Base((String, M)),
    SparqlPrefix((String, M), (String, M)),
    SparqlBase((String, M)),
}

/// A blank node: labelled, or anonymous with its property list (`[ ... ]`).
#[derive(Debug, PartialEq, Eq)]
pub enum BlankNode<M> {
    Label(String),
    Anonymous((Vec<(PredicateObjects<M>, M)>, M)),
}

/// A collection `( ... )` of objects.
#[derive(Debug, PartialEq, Eq)]
pub struct Collection<M>(pub Vec<(Object<M>, M)>);

/// The subject of triples.
#[derive(Debug, PartialEq, Eq)]
pub enum Subject<M> {
    Iri(Iri<M>),
    BlankNode(BlankNode<M>),
    Collection(Collection<M>),
}

/// An object of triples.
#[derive(Debug, PartialEq, Eq)]
pub enum Object<M> {
    Iri(Iri<M>),
    BlankNode(BlankNode<M>),
    Collection(Collection<M>),
    Literal(Literal<M>),
}

/// A non-empty list of objects, separated by `,`.
#[derive(Debug, PartialEq, Eq)]
pub struct Objects<M>(pub Vec<(Object<M>, M)>);

/// A predicate with its objects.
#[derive(Debug, PartialEq, Eq)]
pub struct PredicateObjects<M> {
    pub verb: (Verb<M>, M),
    pub objects: (Objects<M>, M),
}

/// A subject with its predicate-objects list, ended by `.`.
#[derive(Debug, PartialEq, Eq)]
pub struct Triples<M> {
    pub subject: (Subject<M>, M),
    pub predicate_objects_list: (Vec<(PredicateObjects<M>, M)>, M),
}

/// A statement.
#[derive(Debug, PartialEq, Eq)]
pub enum Statement<M> {
    Directive(Directive<M>),
    Triples(Triples<M>),
}

/// A Turtle document: its statements in order.
#[derive(Debug, PartialEq, Eq)]
pub struct Document<M> {
    pub statements: Vec<(Statement<M>, M)>,
}

// The model: the same tree, with sequences in place of vectors and the text
// of each string in place of the string.

pub enum SpecNumericLiteral {
    Integer(Seq<char>),
    Decimal(Seq<char>),
    Double(Seq<char>),
}

pub enum SpecIri<M> {
    IriRef(Seq<char>),
    PrefixedName((Seq<char>, M), (Seq<char>, M)),
}

pub enum SpecLiteralType<M> {
    Any(SpecIri<M>),
    LangString(Seq<char>),
}

pub struct SpecRdfLiteral<M> {
    pub value: (Seq<char>, M),
    pub type_: (SpecLiteralType<M>, M),
}

pub enum SpecLiteral<M> {
    Rdf(SpecRdfLiteral<M>),
    Numeric(SpecNumericLiteral),
    Boolean(bool),
}

pub enum SpecVerb<M> {
    A,
    Predicate(SpecIri<M>),
}

pub enum SpecDirective<M> {
    Prefix((Seq<char>, M), (Seq<char>, M)),
    Base((Seq<char>, M)),
    SparqlPrefix((Seq<char>, M), (Seq<char>, M)),
    SparqlBase((Seq<char>, M)),
}

impl View for NumericLiteral {
    type V = SpecNumericLiteral;

    open spec fn view(&self) -> SpecNumericLiteral {
        match self {
            NumericLiteral::Integer(s) => SpecNumericLiteral::Integer(s@),
            NumericLiteral::Decimal(s) => SpecNumericLiteral::Decimal(s@),
            NumericLiteral::Double(s) => SpecNumericLiteral::Double(s@),
        }
    }
}

impl<M> View for Iri<M> {
    type V = SpecIri<M>;

    open spec fn view(&self) -> SpecIri<M> {
        match self {
            Iri::IriRef(s) => SpecIri::IriRef(s@),
            Iri::PrefixedName(p, x) => SpecIri::PrefixedName((p.0@, p.1), (x.0@, x.1)),
        }
    }
}

impl<M> View for LiteralType<M> {
    type V = SpecLiteralType<M>;

    open spec fn view(&self) -> SpecLiteralType<M> {
        match self {
            LiteralType::Any(i) => SpecLiteralType::Any(i@),
            LiteralType::LangString(t) => SpecLiteralType::LangString(t@),
        }
    }
}

impl<M> View for RdfLiteral<M> {
    type V = SpecRdfLiteral<M>;

    open spec fn view(&self) -> SpecRdfLiteral<M> {
        SpecRdfLiteral {
            value: (self.value.0@, self.value.1),
            type_: (self.type_.0@, self.type_.1),
        }
    }
}

impl<M> View for Literal<M> {
    type V = SpecLiteral<M>;

    open spec fn view(&self) -> SpecLiteral<M> {
        match self {
            Literal::Rdf(l) => SpecLiteral::Rdf(l@),
            Literal::Numeric(n) => SpecLiteral::Numeric(n@),
            Literal::Boolean(b) => SpecLiteral::Boolean(*b),
        }
    }
}

impl<M> View for Verb<M> {
    type V = SpecVerb<M>;

    open spec fn view(&self) -> SpecVerb<M> {
        match self {
            Verb::A => SpecVerb::A,
            Verb::Predicate(i) => SpecVerb::Predicate(i@),
        }
    }
}

impl<M> View for Directive<M> {
    type V = SpecDirective<M>;

    open spec fn view(&self) -> SpecDirective<M> {
        match self {
            Directive::Prefix(p, i) => SpecDirective::Prefix((p.0@, p.1), (i.0@, i.1)),
            Directive::Base(i) => SpecDirective::Base((i.0@, i.1)),
            Directive::SparqlPrefix(p, i) => SpecDirective::SparqlPrefix((p.0@, p.1), (i.0@, i.1)),
            Directive::SparqlBase(i) => SpecDirective::SparqlBase((i.0@, i.1)),
        }
    }
}

pub enum SpecBlankNode<M> {
    Label(Seq<char>),
    Anonymous((Seq<(SpecPredicateObjects<M>, M)>, M)),
}

pub struct SpecCollection<M>(pub Seq<(SpecObject<M>, M)>);

pub enum SpecSubject<M> {
    Iri(SpecIri<M>),
    BlankNode(SpecBlankNode<M>),
    Collection(SpecCollection<M>),
}

pub enum SpecObject<M> {
    Iri(SpecIri<M>),
    BlankNode(SpecBlankNode<M>),
    Collection(SpecCollection<M>),
    Literal(SpecLiteral<M>),
}

pub struct SpecObjects<M>(pub Seq<(SpecObject<M>, M)>);

pub struct SpecPredicateObjects<M> {
    pub verb: (SpecVerb<M>, M),
    pub objects: (SpecObjects<M>, M),
}

pub struct SpecTriples<M> {
    pub subject: (SpecSubject<M>, M),
    pub predicate_objects_list: (Seq<(SpecPredicateObjects<M>, M)>, M),
}

pub enum SpecStatement<M> {
    Directive(SpecDirective<M>),
    Triples(SpecTriples<M>),
}

pub struct SpecDocument<M> {
    pub statements: Seq<(SpecStatement<M>, M)>,
}

/// The model of a list of objects with their metadata.
pub open spec fn objects_model<M>(s: Seq<(Object<M>, M)>) -> Seq<(SpecObject<M>, M)>
    decreases s,
{
    Seq::new(
        s.len(),
        |i: int|
            if 0 <= i < s.len() {
                (object_model(s[i].0), s[i].1)
            } else {
                (SpecObject::Literal(SpecLiteral::Boolean(false)), arbitrary())
            },
    )
}

/// The model of a predicate-objects list.
pub open spec fn predicate_objects_list_model<M>(s: Seq<(PredicateObjects<M>, M)>) -> Seq<
    (SpecPredicateObjects<M>, M),
>
    decreases s,
{
    Seq::new(
        s.len(),
        |i: int|
            if 0 <= i < s.len() {
                (predicate_objects_model(s[i].0), s[i].1)
            } else {
                (
                    SpecPredicateObjects {
                        verb: (SpecVerb::A, arbitrary()),
                        objects: (SpecObjects(Seq::empty()), arbitrary()),
                    },
                    arbitrary(),
                )
            },
    )
}

pub open spec fn predicate_objects_model<M>(p: PredicateObjects<M>) -> SpecPredicateObjects<M>
    decreases p,
{
    SpecPredicateObjects {
        verb: (p.verb.0@, p.verb.1),
        objects: (SpecObjects(objects_model(p.objects.0.0@)), p.objects.1),
    }
}

pub open spec fn blank_node_model<M>(b: BlankNode<M>) -> SpecBlankNode<M>
    decreases b,
{
    match b {
        BlankNode::Label(l) => SpecBlankNode::Label(l@),
        BlankNode::Anonymous(l) => SpecBlankNode::Anonymous(
            (predicate_objects_list_model(l.0@), l.1),
        ),
    }
}

pub open spec fn object_model<M>(o: Object<M>) -> SpecObject<M>
    decreases o,
{
    match o {
        Object::Iri(i) => SpecObject::Iri(i@),
        Object::BlankNode(b) => SpecObject::BlankNode(blank_node_model(b)),
        Object::Collection(c) => SpecObject::Collection(SpecCollection(objects_model(c.0@))),
        Object::Literal(l) => SpecObject::Literal(l@),
    }
}

pub open spec fn subject_model<M>(s: Subject<M>) -> SpecSubject<M> {
    match s {
        Subject::Iri(i) => SpecSubject::Iri(i@),
        Subject::BlankNode(b) => SpecSubject::BlankNode(blank_node_model(b)),
        Subject::Collection(c) => SpecSubject::Collection(SpecCollection(objects_model(c.0@))),
    }
}

pub open spec fn triples_model<M>(t: Triples<M>) -> SpecTriples<M> {
    SpecTriples {
        subject: (subject_model(t.subject.0), t.subject.1),
        predicate_objects_list: (
            predicate_objects_list_model(t.predicate_objects_list.0@),
            t.predicate_objects_list.1,
        ),
    }
}

pub open spec fn statement_model<M>(s: Statement<M>) -> SpecStatement<M> {
    match s {
        Statement::Directive(d) => SpecStatement::Directive(d@),
        Statement::Triples(t) => SpecStatement::Triples(triples_model(t)),
    }
}

/// The model of a list of statements.
pub open spec fn statements_model<M>(s: Seq<(Statement<M>, M)>) -> Seq<(SpecStatement<M>, M)> {
    s.map_values(|p: (Statement<M>, M)| (statement_model(p.0), p.1))
}

impl<M> View for Collection<M> {
    type V = SpecCollection<M>;

    open spec fn view(&self) -> SpecCollection<M> {
        SpecCollection(objects_model(self.0@))
    }
}

impl<M> View for Objects<M> {
    type V = SpecObjects<M>;

    open spec fn view(&self) -> SpecObjects<M> {
        SpecObjects(objects_model(self.0@))
    }
}

impl<M> View for Object<M> {
    type V = SpecObject<M>;

    open spec fn view(&self) -> SpecObject<M> {
        object_model(*self)
    }
}

impl<M> View for Subject<M> {
    type V = SpecSubject<M>;

    open spec fn view(&self) -> SpecSubject<M> {
        subject_model(*self)
    }
}

impl<M> View for BlankNode<M> {
    type V = SpecBlankNode<M>;

    open spec fn view(&self) -> SpecBlankNode<M> {
        blank_node_model(*self)
    }
}

impl<M> View for PredicateObjects<M> {
    type V = SpecPredicateObjects<M>;

    open spec fn view(&self) -> SpecPredicateObjects<M> {
        predicate_objects_model(*self)
    }
}

impl<M> View for Triples<M> {
    type V = SpecTriples<M>;

    open spec fn view(&self) -> SpecTriples<M> {
        triples_model(*self)
    }
}

impl<M> View for Statement<M> {
    type V = SpecStatement<M>;

    open spec fn view(&self) -> SpecStatement<M> {
        statement_model(*self)
    }
}

impl<M> View for Document<M> {
    type V = SpecDocument<M>;

    open spec fn view(&self) -> SpecDocument<M> {
        SpecDocument { statements: statements_model(self.statements@) }
    }
}

/// Adding an object at the end of a list adds its model at the end of the list's model.
pub proof fn lemma_objects_model_push<M>(s: Seq<(Object<M>, M)>, o: Object<M>, meta: M)
    ensures
        objects_model(s.push((o, meta))) == objects_model(s).push((object_model(o), meta)),
{
    assert(objects_model(s.push((o, meta))) =~= objects_model(s).push((object_model(o), meta)));
}

/// Adding a predicate with its objects at the end of a list adds its model at the end.
pub proof fn lemma_predicate_objects_list_model_push<M>(
    s: Seq<(PredicateObjects<M>, M)>,
    p: PredicateObjects<M>,
    meta: M,
)
    ensures
        predicate_objects_list_model(s.push((p, meta))) == predicate_objects_list_model(s).push(
            (predicate_objects_model(p), meta),
        ),
{
    assert(predicate_objects_list_model(s.push((p, meta))) =~= predicate_objects_list_model(
        s,
    ).push((predicate_objects_model(p), meta)));
}

/// Adding a statement at the end of a list adds its model at the end.
pub proof fn lemma_statements_model_push<M>(s: Seq<(Statement<M>, M)>, st: Statement<M>, meta: M)
    ensures
        statements_model(s.push((st, meta))) == statements_model(s).push(
            (statement_model(st), meta),
        ),
{
    assert(statements_model(s.push((st, meta))) =~= statements_model(s).push(
        (statement_model(st), meta),
    ));
}

} // verus!
