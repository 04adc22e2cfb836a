//! The metadata builder changes nothing of a parse but its metadata: with any two
//! metadata functions the grammar gives outcomes of the same shape.
use vstd::prelude::*;

use crate::ast::{SpecObject, SpecPredicateObjects, SpecStatement, SpecSubject};
use crate::grammar::{
    anonymous_from, collection_from, collection_rest, directive_from, document_from,
    document_rest, document_with, iri_with, literal_from, object_from, object_with,
    objects_from, objects_rest, objects_with, po_list_from, po_list_rest, po_list_with,
    predicate_objects_from, predicate_objects_with, rdf_literal, spec_is_described_blank_node,
    statement_from, subject_from, triples_from, triples_rest, verb_from, Parsed, ParsedList,
};
use crate::lexing::{Delimiter, Punct, Token, TokenStream};
use crate::shape::{
    erase_objects, erase_po_list, erase_statements, erase_subject, lemma_erase_objects_push,
    lemma_erase_po_list_push, lemma_erase_statements_push, Erase,
};
use crate::span::Span;

verus! {

/// `p` and `q` have the same shape: both succeed with trees of the same shape and the
/// same stream left, or both fail with the same error (but for its metadata) and the
/// same stream left.
pub open spec fn same_shape<V: Erase, E, M>(p: Parsed<V, E, M>, q: Parsed<V, E, M>) -> bool {
    match p {
        Ok((x, _, r)) => q matches Ok((y, _, t)) && x.erase() == y.erase() && r == t,
        Err((e, r)) => q matches Err((f, t)) && e.0 == f.0 && r == t,
    }
}

/// `same_shape` for lists of objects.
pub open spec fn same_objects<E, M>(
    p: ParsedList<(SpecObject<M>, M), E, M>,
    q: ParsedList<(SpecObject<M>, M), E, M>,
) -> bool {
    match p {
        Ok((x, r)) => q matches Ok((y, t)) && erase_objects(x) == erase_objects(y) && r == t,
        Err((e, r)) => q matches Err((f, t)) && e.0 == f.0 && r == t,
    }
}

/// `same_shape` for predicate-objects lists.
pub open spec fn same_po_list<E, M>(
    p: ParsedList<(SpecPredicateObjects<M>, M), E, M>,
    q: ParsedList<(SpecPredicateObjects<M>, M), E, M>,
) -> bool {
    match p {
        Ok((x, r)) => q matches Ok((y, t)) && erase_po_list(x) == erase_po_list(y) && r == t,
        Err((e, r)) => q matches Err((f, t)) && e.0 == f.0 && r == t,
    }
}

/// `same_shape` for lists of statements.
pub open spec fn same_statements<E, M>(
    p: ParsedList<(SpecStatement<M>, M), E, M>,
    q: ParsedList<(SpecStatement<M>, M), E, M>,
) -> bool {
    match p {
        Ok((x, r)) => q matches Ok((y, t)) && erase_statements(x) == erase_statements(y) && r == t,
        Err((e, r)) => q matches Err((f, t)) && e.0 == f.0 && r == t,
    }
}

proof fn lemma_iri_with_shape<E, M>(s: TokenStream<E>, g: spec_fn(Span) -> M, h: spec_fn(Span) -> M)
    ensures
        same_shape(iri_with(s, g), iri_with(s, h)),
{
}

proof fn lemma_verb_from_shape<E, M>(
    s: TokenStream<E>,
    token: Token,
    span: Span,
    g: spec_fn(Span) -> M,
    h: spec_fn(Span) -> M,
)
    ensures
        same_shape(verb_from(s, token, span, g), verb_from(s, token, span, h)),
{
}

proof fn lemma_literal_from_shape<E, M>(
    s: TokenStream<E>,
    token: Token,
    span: Span,
    g: spec_fn(Span) -> M,
    h: spec_fn(Span) -> M,
)
    ensures
        same_shape(literal_from(s, token, span, g), literal_from(s, token, span, h)),
{
    match token {
        Token::StringLiteral(string) => {
            if s.tokens.len() > 0 {
                lemma_iri_with_shape(s.advance(), g, h);
            }
            assert(same_shape(rdf_literal(s, string, span, g), rdf_literal(s, string, span, h)));
        },
        _ => {},
    }
}

proof fn lemma_anonymous_from_shape<E, M>(
    s: TokenStream<E>,
    span: Span,
    g: spec_fn(Span) -> M,
    h: spec_fn(Span) -> M,
)
    ensures
        same_shape(anonymous_from(s, span, g), anonymous_from(s, span, h)),
    decreases s.tokens.len(), 1nat,
{
    lemma_po_list_with_shape(s, g, h);
}

proof fn lemma_collection_rest_shape<E, M>(
    s: TokenStream<E>,
    a: Seq<(SpecObject<M>, M)>,
    b: Seq<(SpecObject<M>, M)>,
    span: Span,
    g: spec_fn(Span) -> M,
    h: spec_fn(Span) -> M,
)
    requires
        erase_objects(a) == erase_objects(b),
    ensures
        same_shape(collection_rest(s, a, span, g), collection_rest(s, b, span, h)),
    decreases s.tokens.len(), 0nat,
{
    if s.tokens.len() > 0 {
        let (t, t_span) = s.tokens[0];
        let after = s.advance();
        if t != Token::End(Delimiter::Parenthesis) {
            lemma_object_from_shape(after, t, t_span, g, h);
            match (object_from(after, t, t_span, g), object_from(after, t, t_span, h)) {
                (Ok((o, m, rest)), Ok((p, n, _))) => if after.is_suffix(rest) {
                    lemma_erase_objects_push(a, (o, m));
                    lemma_erase_objects_push(b, (p, n));
                    lemma_collection_rest_shape(rest, a.push((o, m)), b.push((p, n)), span, g, h);
                },
                _ => {},
            }
        }
    }
}

proof fn lemma_collection_from_shape<E, M>(
    s: TokenStream<E>,
    token: Token,
    span: Span,
    g: spec_fn(Span) -> M,
    h: spec_fn(Span) -> M,
)
    ensures
        same_shape(collection_from(s, token, span, g), collection_from(s, token, span, h)),
    decreases s.tokens.len(), 1nat,
{
    lemma_collection_rest_shape(s, Seq::empty(), Seq::empty(), span, g, h);
}

proof fn lemma_subject_from_shape<E, M>(
    s: TokenStream<E>,
    token: Token,
    span: Span,
    g: spec_fn(Span) -> M,
    h: spec_fn(Span) -> M,
)
    ensures
        same_shape(subject_from(s, token, span, g), subject_from(s, token, span, h)),
    decreases s.tokens.len(), 3nat,
{
    lemma_anonymous_from_shape(s, span, g, h);
    lemma_collection_from_shape(s, token, span, g, h);
}

proof fn lemma_object_from_shape<E, M>(
    s: TokenStream<E>,
    token: Token,
    span: Span,
    g: spec_fn(Span) -> M,
    h: spec_fn(Span) -> M,
)
    ensures
        same_shape(object_from(s, token, span, g), object_from(s, token, span, h)),
    decreases s.tokens.len(), 3nat,
{
    lemma_anonymous_from_shape(s, span, g, h);
    lemma_collection_from_shape(s, token, span, g, h);
    lemma_literal_from_shape(s, token, span, g, h);
}

proof fn lemma_object_with_shape<E, M>(s: TokenStream<E>, g: spec_fn(Span) -> M, h: spec_fn(Span) -> M)
    ensures
        same_shape(object_with(s, g), object_with(s, h)),
    decreases s.tokens.len(), 0nat,
{
    if s.tokens.len() > 0 {
        lemma_object_from_shape(s.advance(), s.tokens[0].0, s.tokens[0].1, g, h);
    }
}

proof fn lemma_objects_rest_shape<E, M>(
    s: TokenStream<E>,
    a: Seq<(SpecObject<M>, M)>,
    b: Seq<(SpecObject<M>, M)>,
    g: spec_fn(Span) -> M,
    h: spec_fn(Span) -> M,
)
    requires
        erase_objects(a) == erase_objects(b),
    ensures
        same_objects(objects_rest(s, a, g), objects_rest(s, b, h)),
    decreases s.tokens.len(), 0nat,
{
    if s.tokens.len() > 0 {
        if s.tokens[0].0 == Token::Punct(Punct::Comma) {
            let after = s.advance();
            lemma_object_with_shape(after, g, h);
            match (object_with(after, g), object_with(after, h)) {
                (Ok((o, m, rest)), Ok((p, n, _))) => if after.is_suffix(rest) {
                    lemma_erase_objects_push(a, (o, m));
                    lemma_erase_objects_push(b, (p, n));
                    lemma_objects_rest_shape(rest, a.push((o, m)), b.push((p, n)), g, h);
                },
                _ => {},
            }
        }
    }
}

proof fn lemma_objects_from_shape<E, M>(
    s: TokenStream<E>,
    token: Token,
    span: Span,
    g: spec_fn(Span) -> M,
    h: spec_fn(Span) -> M,
)
    ensures
        same_shape(objects_from(s, token, span, g), objects_from(s, token, span, h)),
    decreases s.tokens.len(), 4nat,
{
    lemma_object_from_shape(s, token, span, g, h);
    match (object_from(s, token, span, g), object_from(s, token, span, h)) {
        (Ok((o, m, rest)), Ok((p, n, _))) => if s.is_suffix(rest) {
            assert(erase_objects(seq![(o, m)]) =~= erase_objects(seq![(p, n)]));
            lemma_objects_rest_shape(rest, seq![(o, m)], seq![(p, n)], g, h);
        },
        _ => {},
    }
}

proof fn lemma_objects_with_shape<E, M>(s: TokenStream<E>, g: spec_fn(Span) -> M, h: spec_fn(Span) -> M)
    ensures
        same_shape(objects_with(s, g), objects_with(s, h)),
    decreases s.tokens.len(), 1nat,
{
    if s.tokens.len() > 0 {
        lemma_objects_from_shape(s.advance(), s.tokens[0].0, s.tokens[0].1, g, h);
    }
}

proof fn lemma_predicate_objects_from_shape<E, M>(
    s: TokenStream<E>,
    token: Token,
    span: Span,
    g: spec_fn(Span) -> M,
    h: spec_fn(Span) -> M,
)
    ensures
        same_shape(predicate_objects_from(s, token, span, g), predicate_objects_from(s, token, span, h)),
    decreases s.tokens.len(), 2nat,
{
    lemma_verb_from_shape(s, token, span, g, h);
    match verb_from(s, token, span, g) {
        Ok((_, _, rest)) => lemma_objects_with_shape(rest, g, h),
        Err(_) => {},
    }
}

proof fn lemma_predicate_objects_with_shape<E, M>(
    s: TokenStream<E>,
    g: spec_fn(Span) -> M,
    h: spec_fn(Span) -> M,
)
    ensures
        same_shape(predicate_objects_with(s, g), predicate_objects_with(s, h)),
    decreases s.tokens.len(), 0nat,
{
    if s.tokens.len() > 0 {
        lemma_predicate_objects_from_shape(s.advance(), s.tokens[0].0, s.tokens[0].1, g, h);
    }
}

proof fn lemma_po_list_rest_shape<E, M>(
    s: TokenStream<E>,
    a: Seq<(SpecPredicateObjects<M>, M)>,
    b: Seq<(SpecPredicateObjects<M>, M)>,
    g: spec_fn(Span) -> M,
    h: spec_fn(Span) -> M,
)
    requires
        erase_po_list(a) == erase_po_list(b),
    ensures
        same_po_list(po_list_rest(s, a, g), po_list_rest(s, b, h)),
    decreases s.tokens.len(), 0nat,
{
    if s.tokens.len() > 0 {
        if s.tokens[0].0 == Token::Punct(Punct::Semicolon) {
            let after = s.advance();
            if after.tokens.len() > 0 {
                lemma_predicate_objects_with_shape(after, g, h);
                match (predicate_objects_with(after, g), predicate_objects_with(after, h)) {
                    (Ok((p, m, rest)), Ok((q, n, _))) => if after.is_suffix(rest) {
                        lemma_erase_po_list_push(a, (p, m));
                        lemma_erase_po_list_push(b, (q, n));
                        lemma_po_list_rest_shape(rest, a.push((p, m)), b.push((q, n)), g, h);
                    },
                    _ => {},
                }
            }
        }
    }
}

proof fn lemma_po_list_from_shape<E, M>(
    s: TokenStream<E>,
    token: Token,
    span: Span,
    g: spec_fn(Span) -> M,
    h: spec_fn(Span) -> M,
)
    ensures
        same_shape(po_list_from(s, token, span, g), po_list_from(s, token, span, h)),
    decreases s.tokens.len(), 3nat,
{
    lemma_predicate_objects_from_shape(s, token, span, g, h);
    match (predicate_objects_from(s, token, span, g), predicate_objects_from(s, token, span, h)) {
        (Ok((p, m, rest)), Ok((q, n, _))) => if s.is_suffix(rest) {
            assert(erase_po_list(seq![(p, m)]) =~= erase_po_list(seq![(q, n)]));
            lemma_po_list_rest_shape(rest, seq![(p, m)], seq![(q, n)], g, h);
        },
        _ => {},
    }
}

proof fn lemma_po_list_with_shape<E, M>(s: TokenStream<E>, g: spec_fn(Span) -> M, h: spec_fn(Span) -> M)
    ensures
        same_shape(po_list_with(s, g), po_list_with(s, h)),
    decreases s.tokens.len(), 0nat,
{
    if s.tokens.len() > 0 {
        lemma_po_list_from_shape(s.advance(), s.tokens[0].0, s.tokens[0].1, g, h);
    }
}

proof fn lemma_triples_rest_shape<E, M>(
    s: TokenStream<E>,
    a: (SpecSubject<M>, M),
    b: (SpecSubject<M>, M),
    span: Span,
    g: spec_fn(Span) -> M,
    h: spec_fn(Span) -> M,
)
    requires
        erase_subject(a.0) == erase_subject(b.0),
    ensures
        same_shape(triples_rest(s, a, span, g), triples_rest(s, b, span, h)),
    decreases s.tokens.len(), 3nat,
{
    crate::shape::lemma_triples_rest_shape(s, a, b, span, g);
    lemma_po_list_with_shape(s, g, h);
    match a.0 {
        crate::ast::SpecSubject::BlankNode(crate::ast::SpecBlankNode::Anonymous(l)) => {
            assert(erase_po_list(l.0).len() == l.0.len());
            match b.0 {
                crate::ast::SpecSubject::BlankNode(crate::ast::SpecBlankNode::Anonymous(k)) => {
                    assert(erase_po_list(k.0).len() == k.0.len());
                },
                _ => {},
            }
        },
        _ => {},
    }
    assert(spec_is_described_blank_node(a.0) == spec_is_described_blank_node(b.0));
}

proof fn lemma_triples_from_shape<E, M>(
    s: TokenStream<E>,
    token: Token,
    span: Span,
    g: spec_fn(Span) -> M,
    h: spec_fn(Span) -> M,
)
    ensures
        same_shape(triples_from(s, token, span, g), triples_from(s, token, span, h)),
    decreases s.tokens.len(), 4nat,
{
    lemma_subject_from_shape(s, token, span, g, h);
    match (subject_from(s, token, span, g), subject_from(s, token, span, h)) {
        (Ok((x, m, rest)), Ok((y, n, _))) => if s.is_suffix(rest) {
            lemma_triples_rest_shape(rest, (x, m), (y, n), span, g, h);
        },
        _ => {},
    }
}

proof fn lemma_statement_from_shape<E, M>(
    s: TokenStream<E>,
    token: Token,
    span: Span,
    g: spec_fn(Span) -> M,
    h: spec_fn(Span) -> M,
)
    ensures
        same_shape(statement_from(s, token, span, g), statement_from(s, token, span, h)),
{
    lemma_triples_from_shape(s, token, span, g, h);
    assert(same_shape(directive_from(s, token, span, g), directive_from(s, token, span, h)));
}

proof fn lemma_document_rest_shape<E, M>(
    s: TokenStream<E>,
    a: Seq<(SpecStatement<M>, M)>,
    b: Seq<(SpecStatement<M>, M)>,
    g: spec_fn(Span) -> M,
    h: spec_fn(Span) -> M,
)
    requires
        erase_statements(a) == erase_statements(b),
    ensures
        same_statements(document_rest(s, a, g), document_rest(s, b, h)),
    decreases s.tokens.len(),
{
    if s.tokens.len() > 0 {
        let after = s.advance();
        lemma_statement_from_shape(after, s.tokens[0].0, s.tokens[0].1, g, h);
        match (
            statement_from(after, s.tokens[0].0, s.tokens[0].1, g),
            statement_from(after, s.tokens[0].0, s.tokens[0].1, h),
        ) {
            (Ok((x, m, rest)), Ok((y, n, _))) => if after.is_suffix(rest) {
                lemma_erase_statements_push(a, (x, m));
                lemma_erase_statements_push(b, (y, n));
                lemma_document_rest_shape(rest, a.push((x, m)), b.push((y, n)), g, h);
            },
            _ => {},
        }
    }
}

/// The metadata builder changes nothing of a document's parse but its metadata: with
/// any two metadata functions, the grammar reads the same tokens, and gives documents of
/// the same shape or the same error.
pub proof fn lemma_document_shape<E, M>(s: TokenStream<E>, g: spec_fn(Span) -> M, h: spec_fn(Span) -> M)
    ensures
        same_shape(document_with(s, g), document_with(s, h)),
{
    if s.tokens.len() > 0 {
        let after = s.advance();
        let (t, t_span) = s.tokens[0];
        lemma_statement_from_shape(after, t, t_span, g, h);
        match (statement_from(after, t, t_span, g), statement_from(after, t, t_span, h)) {
            (Ok((x, m, rest)), Ok((y, n, _))) => if after.is_suffix(rest) {
                assert(erase_statements(seq![(x, m)]) =~= erase_statements(seq![(y, n)]));
                lemma_document_rest_shape(rest, seq![(x, m)], seq![(y, n)], g, h);
            },
            _ => {},
        }
        assert(same_shape(document_from(after, t, t_span, g), document_from(after, t, t_span, h)));
    } else {
        assert(erase_statements(Seq::<(SpecStatement<M>, M)>::empty()) =~= Seq::empty());
    }
}

} // verus!
