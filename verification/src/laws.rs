//! Laws of the parser: what it reads, and how a document is the sequence of its statements.
use vstd::prelude::*;

use crate::ast::{
    SpecBlankNode, SpecCollection, SpecDocument, SpecIri, SpecLiteral, SpecObject, SpecObjects,
    SpecPredicateObjects, SpecRdfLiteral, SpecStatement, SpecSubject, SpecTriples, SpecVerb,
};
use crate::lexing::{Delimiter, Punct, Token, TokenKind, TokenStream};
use crate::grammar::{
    anonymous_from, collection_from, collection_rest, directive_from, directive_iri,
    directive_prefix, document_from, document_rest, document_with, iri_with,
    literal_from, object_from, object_with, objects_from, objects_rest, objects_with,
    po_list_from, po_list_rest, po_list_with, predicate_objects_from, predicate_objects_with,
    rdf_literal, statement_from, subject_from, triples_end, triples_from, triples_rest, verb_from,
    next_is, read_failure, Failure, Parsed, ParsedList,
};

use crate::span::Span;

verus! {

broadcast use {
    crate::lexing::group_suffix,
    crate::lexing::lemma_extend_advance,
    crate::lexing::lemma_extend_suffix,
};

/// Whether parsing succeeds or fails, what is left is a suffix of what was read from.
pub open spec fn consumes<T, E, M>(s: TokenStream<E>, p: Parsed<T, E, M>) -> bool {
    match p {
        Ok((_, _, r)) => s.is_suffix(r),
        Err((_, r)) => s.is_suffix(r),
    }
}

/// Whether parsing a list succeeds or fails, what is left is a suffix of what was read
/// from.
pub open spec fn consumes_list<T, E, M>(s: TokenStream<E>, p: ParsedList<T, E, M>) -> bool {
    match p {
        Ok((_, r)) => s.is_suffix(r),
        Err((_, r)) => s.is_suffix(r),
    }
}

/// `q` is `p` with `more` tokens, then `end`, after what `p` left, provided `p`
/// succeeded and left at least one token.
pub open spec fn keeps<T, E, M>(
    p: Parsed<T, E, M>,
    q: Parsed<T, E, M>,
    more: Seq<(Token, Span)>,
    end: Result<Span, (E, Span)>,
) -> bool {
    match p {
        Ok((v, m, r)) => r.tokens.len() > 0 ==> q == Ok::<_, Failure<E, M>>(
            (v, m, r.extend(more, end)),
        ),
        Err(_) => true,
    }
}

/// `q` is `p` with `more` tokens, then `end`, after what `p` left, provided `p`
/// succeeded.
pub open spec fn keeps_always<T, E, M>(
    p: Parsed<T, E, M>,
    q: Parsed<T, E, M>,
    more: Seq<(Token, Span)>,
    end: Result<Span, (E, Span)>,
) -> bool {
    match p {
        Ok((v, m, r)) => q == Ok::<_, Failure<E, M>>((v, m, r.extend(more, end))),
        Err(_) => true,
    }
}

/// The list version of `keeps`.
pub open spec fn keeps_list<T, E, M>(
    p: ParsedList<T, E, M>,
    q: ParsedList<T, E, M>,
    more: Seq<(Token, Span)>,
    end: Result<Span, (E, Span)>,
) -> bool {
    match p {
        Ok((v, r)) => r.tokens.len() > 0 ==> q == Ok::<_, Failure<E, M>>((v, r.extend(more, end))),
        Err(_) => true,
    }
}

proof fn lemma_iri_with<E, M>(s: TokenStream<E>, meta: spec_fn(Span) -> M, more: Seq<(Token, Span)>, end: Result<Span, (E, Span)>)
    ensures
        consumes(s, iri_with(s, meta)),
        keeps_always(iri_with(s, meta), iri_with(s.extend(more, end), meta), more, end),
{
}

proof fn lemma_verb_from<E, M>(
    s: TokenStream<E>,
    token: Token,
    span: Span,
    meta: spec_fn(Span) -> M,
    more: Seq<(Token, Span)>,
    end: Result<Span, (E, Span)>,
)
    ensures
        consumes(s, verb_from(s, token, span, meta)),
        keeps_always(verb_from(s, token, span, meta), verb_from(s.extend(more, end), token, span, meta), more, end),
{
}

proof fn lemma_rdf_literal<E, M>(
    s: TokenStream<E>,
    string: String,
    span: Span,
    meta: spec_fn(Span) -> M,
    more: Seq<(Token, Span)>,
    end: Result<Span, (E, Span)>,
)
    ensures
        consumes(s, rdf_literal(s, string, span, meta)),
        keeps(rdf_literal(s, string, span, meta), rdf_literal(s.extend(more, end), string, span, meta), more, end),
{
    if s.tokens.len() > 0 {
        lemma_iri_with(s.advance(), meta, more, end);
    }
}

proof fn lemma_literal_from<E, M>(
    s: TokenStream<E>,
    token: Token,
    span: Span,
    meta: spec_fn(Span) -> M,
    more: Seq<(Token, Span)>,
    end: Result<Span, (E, Span)>,
)
    ensures
        consumes(s, literal_from(s, token, span, meta)),
        keeps(literal_from(s, token, span, meta), literal_from(s.extend(more, end), token, span, meta), more, end),
{
    match token {
        Token::StringLiteral(string) => lemma_rdf_literal(s, string, span, meta, more, end),
        _ => {},
    }
}


proof fn lemma_anonymous_from<E, M>(
    s: TokenStream<E>,
    span: Span,
    meta: spec_fn(Span) -> M,
    more: Seq<(Token, Span)>,
    end: Result<Span, (E, Span)>,
)
    ensures
        consumes(s, anonymous_from(s, span, meta)),
        keeps(anonymous_from(s, span, meta), anonymous_from(s.extend(more, end), span, meta), more, end),
    decreases s.tokens.len(), 1nat,
{
    if s.tokens.len() > 0 {
        if !(s.tokens[0].0 matches Token::End(crate::lexing::Delimiter::Bracket)) {
            lemma_po_list_with(s, meta, more, end);
        }
    } else {
        lemma_po_list_with(s, meta, more, end);
    }
}

proof fn lemma_collection_rest<E, M>(
    s: TokenStream<E>,
    items: Seq<(SpecObject<M>, M)>,
    span: Span,
    meta: spec_fn(Span) -> M,
    more: Seq<(Token, Span)>,
    end: Result<Span, (E, Span)>,
)
    ensures
        consumes(s, collection_rest(s, items, span, meta)),
        keeps(
            collection_rest(s, items, span, meta),
            collection_rest(s.extend(more, end), items, span, meta),
            more,
            end,
        ),
    decreases s.tokens.len(), 0nat,
{
    if s.tokens.len() > 0 {
        let (t, t_span) = s.tokens[0];
        let after = s.advance();
        match t {
            Token::End(crate::lexing::Delimiter::Parenthesis) => {},
            _ => {
                lemma_object_from(after, t, t_span, meta, more, end);
                match object_from(after, t, t_span, meta) {
                    Ok((o, m, rest)) => {
                        if after.is_suffix(rest) {
                            lemma_collection_rest(rest, items.push((o, m)), span, meta, more, end);
                        }
                    },
                    Err(_) => {},
                }
            },
        }
    }
}

proof fn lemma_collection_from<E, M>(
    s: TokenStream<E>,
    token: Token,
    span: Span,
    meta: spec_fn(Span) -> M,
    more: Seq<(Token, Span)>,
    end: Result<Span, (E, Span)>,
)
    ensures
        consumes(s, collection_from(s, token, span, meta)),
        keeps(
            collection_from(s, token, span, meta),
            collection_from(s.extend(more, end), token, span, meta),
            more,
            end,
        ),
    decreases s.tokens.len(), 1nat,
{
    lemma_collection_rest(s, Seq::empty(), span, meta, more, end);
}

proof fn lemma_subject_from<E, M>(
    s: TokenStream<E>,
    token: Token,
    span: Span,
    meta: spec_fn(Span) -> M,
    more: Seq<(Token, Span)>,
    end: Result<Span, (E, Span)>,
)
    ensures
        consumes(s, subject_from(s, token, span, meta)),
        keeps(subject_from(s, token, span, meta), subject_from(s.extend(more, end), token, span, meta), more, end),
    decreases s.tokens.len(), 3nat,
{
    lemma_anonymous_from(s, span, meta, more, end);
    lemma_collection_from(s, token, span, meta, more, end);
}

proof fn lemma_object_from<E, M>(
    s: TokenStream<E>,
    token: Token,
    span: Span,
    meta: spec_fn(Span) -> M,
    more: Seq<(Token, Span)>,
    end: Result<Span, (E, Span)>,
)
    ensures
        consumes(s, object_from(s, token, span, meta)),
        keeps(object_from(s, token, span, meta), object_from(s.extend(more, end), token, span, meta), more, end),
    decreases s.tokens.len(), 3nat,
{
    lemma_anonymous_from(s, span, meta, more, end);
    lemma_collection_from(s, token, span, meta, more, end);
    lemma_literal_from(s, token, span, meta, more, end);
}

proof fn lemma_object_with<E, M>(s: TokenStream<E>, meta: spec_fn(Span) -> M, more: Seq<(Token, Span)>, end: Result<Span, (E, Span)>)
    ensures
        consumes(s, object_with(s, meta)),
        keeps(object_with(s, meta), object_with(s.extend(more, end), meta), more, end),
    decreases s.tokens.len(), 0nat,
{
    if s.tokens.len() > 0 {
        lemma_object_from(s.advance(), s.tokens[0].0, s.tokens[0].1, meta, more, end);
    }
}

proof fn lemma_objects_rest<E, M>(
    s: TokenStream<E>,
    items: Seq<(SpecObject<M>, M)>,
    meta: spec_fn(Span) -> M,
    more: Seq<(Token, Span)>,
    end: Result<Span, (E, Span)>,
)
    ensures
        consumes_list(s, objects_rest(s, items, meta)),
        keeps_list(objects_rest(s, items, meta), objects_rest(s.extend(more, end), items, meta), more, end),
    decreases s.tokens.len(), 0nat,
{
    if s.tokens.len() > 0 {
        let after = s.advance();
        lemma_object_with(after, meta, more, end);
        match object_with(after, meta) {
            Ok((o, m, rest)) => {
                if after.is_suffix(rest) {
                    lemma_objects_rest(rest, items.push((o, m)), meta, more, end);
                }
            },
            Err(_) => {},
        }
    }
}

proof fn lemma_objects_from<E, M>(
    s: TokenStream<E>,
    token: Token,
    span: Span,
    meta: spec_fn(Span) -> M,
    more: Seq<(Token, Span)>,
    end: Result<Span, (E, Span)>,
)
    ensures
        consumes(s, objects_from(s, token, span, meta)),
        keeps(objects_from(s, token, span, meta), objects_from(s.extend(more, end), token, span, meta), more, end),
    decreases s.tokens.len(), 4nat,
{
    lemma_object_from(s, token, span, meta, more, end);
    match object_from(s, token, span, meta) {
        Ok((o, m, rest)) => {
            if s.is_suffix(rest) {
                lemma_objects_rest(rest, seq![(o, m)], meta, more, end);
            }
        },
        Err(_) => {},
    }
}

proof fn lemma_objects_with<E, M>(s: TokenStream<E>, meta: spec_fn(Span) -> M, more: Seq<(Token, Span)>, end: Result<Span, (E, Span)>)
    ensures
        consumes(s, objects_with(s, meta)),
        keeps(objects_with(s, meta), objects_with(s.extend(more, end), meta), more, end),
    decreases s.tokens.len(), 1nat,
{
    if s.tokens.len() > 0 {
        lemma_objects_from(s.advance(), s.tokens[0].0, s.tokens[0].1, meta, more, end);
    }
}

proof fn lemma_predicate_objects_from<E, M>(
    s: TokenStream<E>,
    token: Token,
    span: Span,
    meta: spec_fn(Span) -> M,
    more: Seq<(Token, Span)>,
    end: Result<Span, (E, Span)>,
)
    ensures
        consumes(s, predicate_objects_from(s, token, span, meta)),
        keeps(
            predicate_objects_from(s, token, span, meta),
            predicate_objects_from(s.extend(more, end), token, span, meta),
            more,
            end,
        ),
    decreases s.tokens.len(), 2nat,
{
    lemma_verb_from(s, token, span, meta, more, end);
    match verb_from(s, token, span, meta) {
        Ok((v, m, rest)) => {
            lemma_objects_with(rest, meta, more, end);
        },
        Err(_) => {},
    }
}

proof fn lemma_predicate_objects_with<E, M>(
    s: TokenStream<E>,
    meta: spec_fn(Span) -> M,
    more: Seq<(Token, Span)>,
    end: Result<Span, (E, Span)>,
)
    ensures
        consumes(s, predicate_objects_with(s, meta)),
        keeps(predicate_objects_with(s, meta), predicate_objects_with(s.extend(more, end), meta), more, end),
    decreases s.tokens.len(), 0nat,
{
    if s.tokens.len() > 0 {
        lemma_predicate_objects_from(s.advance(), s.tokens[0].0, s.tokens[0].1, meta, more, end);
    }
}

proof fn lemma_po_list_rest<E, M>(
    s: TokenStream<E>,
    items: Seq<(SpecPredicateObjects<M>, M)>,
    meta: spec_fn(Span) -> M,
    more: Seq<(Token, Span)>,
    end: Result<Span, (E, Span)>,
)
    ensures
        consumes_list(s, po_list_rest(s, items, meta)),
        keeps_list(po_list_rest(s, items, meta), po_list_rest(s.extend(more, end), items, meta), more, end),
    decreases s.tokens.len(), 0nat,
{
    if s.tokens.len() > 0 {
        let after = s.advance();
        if after.tokens.len() > 0 {
            lemma_predicate_objects_with(after, meta, more, end);
            match predicate_objects_with(after, meta) {
                Ok((p, m, rest)) => {
                    if after.is_suffix(rest) {
                        lemma_po_list_rest(rest, items.push((p, m)), meta, more, end);
                    }
                },
                Err(_) => {},
            }
        }
    }
}

#[verifier::spinoff_prover]
#[verifier::rlimit(100)]
proof fn lemma_po_list_from<E, M>(
    s: TokenStream<E>,
    token: Token,
    span: Span,
    meta: spec_fn(Span) -> M,
    more: Seq<(Token, Span)>,
    end: Result<Span, (E, Span)>,
)
    ensures
        consumes(s, po_list_from(s, token, span, meta)),
        keeps(po_list_from(s, token, span, meta), po_list_from(s.extend(more, end), token, span, meta), more, end),
    decreases s.tokens.len(), 3nat,
{
    lemma_predicate_objects_from(s, token, span, meta, more, end);
    match predicate_objects_from(s, token, span, meta) {
        Ok((p, m, rest)) => {
            if s.is_suffix(rest) {
                lemma_po_list_rest(rest, seq![(p, m)], meta, more, end);
                match po_list_rest(rest, seq![(p, m)], meta) {
                    Ok((items, after)) => {
                        if after.tokens.len() > 0 {
                            lemma_po_list_from_extended(s, token, span, meta, more, end, p, m, rest, items, after);
                        }
                    },
                    Err(_) => {},
                }
            }
        },
        Err(_) => {},
    }
}

proof fn lemma_po_list_from_extended<E, M>(
    s: TokenStream<E>,
    token: Token,
    span: Span,
    meta: spec_fn(Span) -> M,
    more: Seq<(Token, Span)>,
    end: Result<Span, (E, Span)>,
    p: SpecPredicateObjects<M>,
    m: M,
    rest: TokenStream<E>,
    items: Seq<(SpecPredicateObjects<M>, M)>,
    after: TokenStream<E>,
)
    requires
        s.is_suffix(rest),
        rest.is_suffix(after),
        after.tokens.len() > 0,
        predicate_objects_from(s.extend(more, end), token, span, meta) == Ok::<_, Failure<E, M>>(
            (p, m, rest.extend(more, end)),
        ),
        po_list_rest(rest.extend(more, end), seq![(p, m)], meta) == Ok::<_, Failure<E, M>>(
            (items, after.extend(more, end)),
        ),
    ensures
        po_list_from(s.extend(more, end), token, span, meta) == Ok::<_, Failure<E, M>>(
            (items, meta(span), after.extend(more, end)),
        ),
{
    assert(s.extend(more, end).is_suffix(rest.extend(more, end)));
}

proof fn lemma_po_list_with<E, M>(s: TokenStream<E>, meta: spec_fn(Span) -> M, more: Seq<(Token, Span)>, end: Result<Span, (E, Span)>)
    ensures
        consumes(s, po_list_with(s, meta)),
        keeps(po_list_with(s, meta), po_list_with(s.extend(more, end), meta), more, end),
    decreases s.tokens.len(), 0nat,
{
    if s.tokens.len() > 0 {
        lemma_po_list_from(s.advance(), s.tokens[0].0, s.tokens[0].1, meta, more, end);
    }
}


proof fn lemma_triples_end<E, M>(
    s: TokenStream<E>,
    subject: (SpecSubject<M>, M),
    list: (Seq<(SpecPredicateObjects<M>, M)>, M),
    span: Span,
    meta: spec_fn(Span) -> M,
    more: Seq<(Token, Span)>,
    end: Result<Span, (E, Span)>,
)
    ensures
        consumes(s, triples_end(s, subject, list, span, meta)),
        keeps_always(
            triples_end(s, subject, list, span, meta),
            triples_end(s.extend(more, end), subject, list, span, meta),
            more,
            end,
        ),
{
}

proof fn lemma_triples_rest<E, M>(
    s: TokenStream<E>,
    subject: (SpecSubject<M>, M),
    span: Span,
    meta: spec_fn(Span) -> M,
    more: Seq<(Token, Span)>,
    end: Result<Span, (E, Span)>,
)
    ensures
        consumes(s, triples_rest(s, subject, span, meta)),
        keeps_always(
            triples_rest(s, subject, span, meta),
            triples_rest(s.extend(more, end), subject, span, meta),
            more,
            end,
        ),
        triples_rest(s, subject, span, meta) is Ok ==> s.tokens.len() > 0,
    decreases s.tokens.len(), 3nat,
{
    lemma_po_list_with(s, meta, more, end);
    match po_list_with(s, meta) {
        Ok((l, l_span, after)) => {
            lemma_triples_end(after, subject, (l, l_span), span, meta, more, end);
        },
        Err(_) => {},
    }
    if s.tokens.len() > 0 {
        lemma_triples_end(s, subject, (Seq::empty(), meta(s.last.spec_next())), span, meta, more, end);
    }
}

proof fn lemma_triples_from<E, M>(
    s: TokenStream<E>,
    token: Token,
    span: Span,
    meta: spec_fn(Span) -> M,
    more: Seq<(Token, Span)>,
    end: Result<Span, (E, Span)>,
)
    ensures
        consumes(s, triples_from(s, token, span, meta)),
        keeps_always(
            triples_from(s, token, span, meta),
            triples_from(s.extend(more, end), token, span, meta),
            more,
            end,
        ),
    decreases s.tokens.len(), 4nat,
{
    lemma_subject_from(s, token, span, meta, more, end);
    match subject_from(s, token, span, meta) {
        Ok((subject, subject_span, rest)) => {
            if s.is_suffix(rest) {
                lemma_triples_rest(rest, (subject, subject_span), span, meta, more, end);
            }
        },
        Err(_) => {},
    }
}

proof fn lemma_directive_from<E, M>(
    s: TokenStream<E>,
    token: Token,
    span: Span,
    meta: spec_fn(Span) -> M,
    more: Seq<(Token, Span)>,
    end: Result<Span, (E, Span)>,
)
    ensures
        consumes(s, directive_from(s, token, span, meta)),
        keeps_always(
            directive_from(s, token, span, meta),
            directive_from(s.extend(more, end), token, span, meta),
            more,
            end,
        ),
{
    if s.tokens.len() > 0 {
        let after = s.advance();
        if after.tokens.len() > 0 {
            assert(after.extend(more, end).advance() == after.advance().extend(more, end));
        }
    }
}

/// Statement locality: a statement that parses reads no token past its own last one, so
/// tokens written after it, and what ends the input, change nothing of its outcome but
/// what is left to read.
pub proof fn lemma_statement_local<E, M>(
    s: TokenStream<E>,
    token: Token,
    span: Span,
    meta: spec_fn(Span) -> M,
    more: Seq<(Token, Span)>,
    end: Result<Span, (E, Span)>,
)
    ensures
        consumes(s, statement_from(s, token, span, meta)),
        keeps_always(
            statement_from(s, token, span, meta),
            statement_from(s.extend(more, end), token, span, meta),
            more,
            end,
        ),
{
    lemma_directive_from(s, token, span, meta, more, end);
    lemma_triples_from(s, token, span, meta, more, end);
}


/// `items` put before the items of the outcome `p`.
pub open spec fn prefixed<T, E, M>(items: Seq<T>, p: ParsedList<T, E, M>) -> ParsedList<T, E, M> {
    match p {
        Ok((x, r)) => Ok((items + x, r)),
        Err(e) => Err(e),
    }
}

proof fn lemma_document_rest_items<E, M>(
    s: TokenStream<E>,
    a: Seq<(SpecStatement<M>, M)>,
    b: Seq<(SpecStatement<M>, M)>,
    meta: spec_fn(Span) -> M,
)
    ensures
        document_rest(s, a + b, meta) == prefixed(a, document_rest(s, b, meta)),
    decreases s.tokens.len(),
{
    if s.tokens.len() > 0 {
        let after = s.advance();
        match statement_from(after, s.tokens[0].0, s.tokens[0].1, meta) {
            Ok((st, m, rest)) => {
                if after.is_suffix(rest) {
                    assert((a + b).push((st, m)) =~= a + b.push((st, m)));
                    lemma_document_rest_items(rest, a, b.push((st, m)), meta);
                }
            },
            Err(_) => {},
        }
    }
}

proof fn lemma_document_rest_concat<E, M>(
    s: TokenStream<E>,
    items: Seq<(SpecStatement<M>, M)>,
    meta: spec_fn(Span) -> M,
    more: Seq<(Token, Span)>,
    end: Result<Span, (E, Span)>,
)
    requires
        document_rest(s, items, meta) is Ok,
    ensures
        match document_rest(s, items, meta) {
            Ok((x, r)) => {
                &&& r.tokens.len() == 0
                &&& document_rest(s.extend(more, end), items, meta) == document_rest(TokenStream { tokens: more, end, last: r.last }, x, meta)
            },
            Err(_) => true,
        },
    decreases s.tokens.len(),
{
    if s.tokens.len() > 0 {
        let after = s.advance();
        lemma_statement_local(after, s.tokens[0].0, s.tokens[0].1, meta, more, end);
        match statement_from(after, s.tokens[0].0, s.tokens[0].1, meta) {
            Ok((st, m, rest)) => {
                lemma_document_rest_concat(rest, items.push((st, m)), meta, more, end);
            },
            Err(_) => {},
        }
    } else {
        assert(s.extend(more, end).tokens =~= more);
    }
}

/// The empty document: a stream with no token and no error is the empty document,
/// whose span is the end of the input.
pub proof fn lemma_empty_document<E, M>(end_span: Span, last: Span, meta: spec_fn(Span) -> M)
    ensures
        document_with(TokenStream::<E> { tokens: Seq::empty(), end: Ok(end_span), last }, meta) == Ok::<
            _,
            Failure<E, M>,
        >(
            (
                SpecDocument::<M> { statements: Seq::empty() },
                meta(end_span),
                TokenStream::<E> { tokens: Seq::empty(), end: Ok(end_span), last },
            ),
        ),
{
}

/// A document is the sequence of its statements: the tokens of two documents written
/// one after the other parse as the statements of the first followed by those of the
/// second. The span runs from the first token to the last one, and the input is read
/// to its end as for the second document.
pub proof fn lemma_document_concat<E, M>(
    first: Seq<(Token, Span)>,
    second: Seq<(Token, Span)>,
    first_end: Result<Span, (E, Span)>,
    end: Result<Span, (E, Span)>,
    first_last: Span,
    second_last: Span,
    meta: spec_fn(Span) -> M,
)
    requires
        first.len() > 0,
        second.len() > 0,
        document_with(TokenStream { tokens: first, end: first_end, last: first_last }, meta) is Ok,
        document_with(TokenStream { tokens: second, end, last: second_last }, meta) is Ok,
    ensures
        match (
            document_with(TokenStream { tokens: first, end: first_end, last: first_last }, meta),
            document_with(TokenStream { tokens: second, end, last: second_last }, meta),
        ) {
            (Ok((d1, _, _)), Ok((d2, _, r2))) => document_with(TokenStream { tokens: first + second, end, last: first_last }, meta) == Ok::<_, Failure<E, M>>(
                (
                    SpecDocument { statements: d1.statements + d2.statements },
                    meta(first[0].1.spec_union(r2.last)),
                    r2,
                ),
            ),
            _ => true,
        },
{
    let s1 = TokenStream { tokens: first, end: first_end, last: first_last };
    let s2 = TokenStream { tokens: second, end, last: second_last };
    let s12 = TokenStream { tokens: first + second, end, last: first_last };
    assert(s12 == s1.extend(second, end));
    let after1 = s1.advance();
    lemma_statement_local(after1, first[0].0, first[0].1, meta, second, end);
    let (st1, m1, rest1) = statement_from(after1, first[0].0, first[0].1, meta)->Ok_0;
    lemma_document_rest_concat(rest1, seq![(st1, m1)], meta, second, end);
    let (x1, r1) = document_rest(rest1, seq![(st1, m1)], meta)->Ok_0;
    let s2b = TokenStream { tokens: second, end, last: r1.last };
    // Reading the second document from a different last span changes nothing.
    assert(s2b.advance() == s2.advance());
    let after2 = s2.advance();
    let (st2, m2, rest2) = statement_from(after2, second[0].0, second[0].1, meta)->Ok_0;
    lemma_document_rest_items(rest2, x1, seq![(st2, m2)], meta);
    assert(x1.push((st2, m2)) =~= x1 + seq![(st2, m2)]);
    let (x2, r2) = document_rest(rest2, seq![(st2, m2)], meta)->Ok_0;
    assert(document_rest(s2b, x1, meta) == document_rest(rest2, x1.push((st2, m2)), meta));
}

/// Reading the next token of a suffix `a` of `s` reads the token of `s` at
/// `s.tokens.len() - a.tokens.len()`.
proof fn lemma_read_in_suffix<E>(s: TokenStream<E>, a: TokenStream<E>)
    requires
        s.is_suffix(a),
        a.tokens.len() > 0,
    ensures
        s.is_suffix(a.advance()),
        a.advance().tokens.len() == a.tokens.len() - 1,
        s.tokens[s.tokens.len() - a.tokens.len()] == a.tokens[0],
        a.advance().last == a.tokens[0].1,
{
    assert(a.tokens[0] == s.tokens.skip(s.tokens.len() - a.tokens.len())[0]);
}

/// A suffix of a suffix: the token of `a` at `j` is that of `s` at the same distance
/// from the end.
proof fn lemma_suffix_index<E>(s: TokenStream<E>, a: TokenStream<E>, j: int)
    requires
        s.is_suffix(a),
        0 <= j < a.tokens.len(),
    ensures
        a.tokens[j] == s.tokens[s.tokens.len() - a.tokens.len() + j],
{
    assert(a.tokens[j] == s.tokens.skip(s.tokens.len() - a.tokens.len())[j]);
}

/// The only token of the kind of `.` is `.`.
proof fn lemma_period_kind(t: Token)
    requires
        t.spec_kind() == TokenKind::Punct(Punct::Period),
    ensures
        t == Token::Punct(Punct::Period),
{
}

/// A predicate-objects list read from the stream leaves a suffix of it.
proof fn lemma_po_list_with_consumes<E, M>(s: TokenStream<E>, meta: spec_fn(Span) -> M)
    ensures
        po_list_with(s, meta) matches Ok((_, _, after)) ==> s.is_suffix(after),
{
    lemma_po_list_with(s, meta, Seq::empty(), s.end);
}

/// What follows the subject of triples ends at a `.`, the last token it reads.
#[verifier::spinoff_prover]
proof fn lemma_triples_rest_ends<E, M>(
    s: TokenStream<E>,
    subject: (SpecSubject<M>, M),
    span: Span,
    meta: spec_fn(Span) -> M,
)
    ensures
        match triples_rest(s, subject, span, meta) {
            Ok((t, _, r)) => {
                &&& s.is_suffix(r)
                &&& r.tokens.len() < s.tokens.len()
                &&& s.tokens[s.tokens.len() - r.tokens.len() - 1].0 == Token::Punct(Punct::Period)
                &&& r.last == s.tokens[s.tokens.len() - r.tokens.len() - 1].1
                &&& t.subject == subject
            },
            Err(_) => true,
        },
{
    if next_is(s, TokenKind::Punct(Punct::Period)) {
        lemma_read_in_suffix(s, s);
        lemma_period_kind(s.tokens[0].0);
    } else {
        match po_list_with(s, meta) {
            Ok((l, lm, after)) => {
                assert(s.is_suffix(after)) by {
                    lemma_po_list_with_consumes(s, meta);
                }
                assert(triples_rest(s, subject, span, meta) == triples_end(
                    after,
                    subject,
                    (l, lm),
                    span,
                    meta,
                ));
                if next_is(after, TokenKind::Punct(Punct::Period)) {
                    lemma_read_in_suffix(s, after);
                    lemma_period_kind(after.tokens[0].0);
                }
            },
            Err(_) => {},
        }
    }
}

/// Triples end at their own `.`: the last token they read is a `.`, nothing after it is
/// read, and their subject is the subject read from their first token.
pub proof fn lemma_triples_end_at_period<E, M>(
    s: TokenStream<E>,
    token: Token,
    span: Span,
    meta: spec_fn(Span) -> M,
)
    ensures
        match triples_from(s, token, span, meta) {
            Ok((t, _, r)) => {
                &&& s.is_suffix(r)
                &&& r.tokens.len() < s.tokens.len()
                &&& s.tokens[s.tokens.len() - r.tokens.len() - 1].0 == Token::Punct(Punct::Period)
                &&& r.last == s.tokens[s.tokens.len() - r.tokens.len() - 1].1
                &&& subject_from(s, token, span, meta) matches Ok((x, m, _)) && t.subject == (x, m)
            },
            Err(_) => true,
        },
{
    match subject_from(s, token, span, meta) {
        Ok((subject, m, rest)) => {
            if s.is_suffix(rest) {
                lemma_triples_rest_ends(rest, (subject, m), span, meta);
                match triples_rest(rest, (subject, m), span, meta) {
                    Ok((_, _, r)) => {
                        lemma_suffix_index(s, rest, rest.tokens.len() - r.tokens.len() - 1);
                    },
                    Err(_) => {},
                }
            }
        },
        Err(_) => {},
    }
}

/// What a predicate-objects list gives keeps the items read before it, and ends before
/// a `.` or a `]`.
proof fn lemma_po_list_rest_ends<E, M>(
    s: TokenStream<E>,
    items: Seq<(SpecPredicateObjects<M>, M)>,
    meta: spec_fn(Span) -> M,
)
    ensures
        match po_list_rest(s, items, meta) {
            Ok((v, r)) => {
                &&& items.len() <= v.len()
                &&& forall|i: int| 0 <= i < items.len() ==> v[i] == items[i]
                &&& next_is(r, TokenKind::Punct(Punct::Period)) || next_is(
                    r,
                    TokenKind::End(Delimiter::Bracket),
                )
            },
            Err(_) => true,
        },
    decreases s.tokens.len(),
{
    if s.tokens.len() > 0 && s.tokens[0].0 == Token::Punct(Punct::Semicolon) {
        let after = s.advance();
        if after.tokens.len() > 0 {
            match predicate_objects_with(after, meta) {
                Ok((p, m, rest)) => if after.is_suffix(rest) {
                    lemma_po_list_rest_ends(rest, items.push((p, m)), meta);
                },
                Err(_) => {},
            }
        }
    }
}

/// A predicate-objects list is not empty: its first item is read from its first token,
/// whose span gives the list's metadata, and the list ends before a `.` or a `]`.
pub proof fn lemma_po_list_shape<E, M>(
    s: TokenStream<E>,
    token: Token,
    span: Span,
    meta: spec_fn(Span) -> M,
)
    ensures
        match po_list_from(s, token, span, meta) {
            Ok((v, m, r)) => {
                &&& v.len() > 0
                &&& m == meta(span)
                &&& predicate_objects_from(s, token, span, meta) matches Ok((p, pm, _)) && v[0] == (
                    p,
                    pm,
                )
                &&& next_is(r, TokenKind::Punct(Punct::Period)) || next_is(
                    r,
                    TokenKind::End(Delimiter::Bracket),
                )
            },
            Err(_) => true,
        },
{
    match predicate_objects_from(s, token, span, meta) {
        Ok((p, m, rest)) => lemma_po_list_rest_ends(rest, seq![(p, m)], meta),
        Err(_) => {},
    }
}

/// What a list of objects gives keeps the objects read before it, and ends before a
/// `.`, a `;` or a `]`.
proof fn lemma_objects_rest_ends<E, M>(
    s: TokenStream<E>,
    items: Seq<(SpecObject<M>, M)>,
    meta: spec_fn(Span) -> M,
)
    ensures
        match objects_rest(s, items, meta) {
            Ok((v, r)) => {
                &&& items.len() <= v.len()
                &&& forall|i: int| 0 <= i < items.len() ==> v[i] == items[i]
                &&& next_is(r, TokenKind::Punct(Punct::Period)) || next_is(
                    r,
                    TokenKind::Punct(Punct::Semicolon),
                ) || next_is(r, TokenKind::End(Delimiter::Bracket))
            },
            Err(_) => true,
        },
    decreases s.tokens.len(),
{
    if s.tokens.len() > 0 && s.tokens[0].0 == Token::Punct(Punct::Comma) {
        let after = s.advance();
        match object_with(after, meta) {
            Ok((o, m, rest)) => if after.is_suffix(rest) {
                lemma_objects_rest_ends(rest, items.push((o, m)), meta);
            },
            Err(_) => {},
        }
    }
}

/// A list of objects is not empty: its first object is read from its first token, whose
/// span gives the list's metadata, and the list ends before a `.`, a `;` or a `]`.
pub proof fn lemma_objects_shape<E, M>(
    s: TokenStream<E>,
    token: Token,
    span: Span,
    meta: spec_fn(Span) -> M,
)
    ensures
        match objects_from(s, token, span, meta) {
            Ok((v, m, r)) => {
                &&& v.0.len() > 0
                &&& m == meta(span)
                &&& object_from(s, token, span, meta) matches Ok((o, om, _)) && v.0[0] == (o, om)
                &&& next_is(r, TokenKind::Punct(Punct::Period)) || next_is(
                    r,
                    TokenKind::Punct(Punct::Semicolon),
                ) || next_is(r, TokenKind::End(Delimiter::Bracket))
            },
            Err(_) => true,
        },
{
    match object_from(s, token, span, meta) {
        Ok((o, m, rest)) => lemma_objects_rest_ends(rest, seq![(o, m)], meta),
        Err(_) => {},
    }
}

/// After an object, a token that is neither a `,` nor one that ends the list is read and
/// refused.
pub proof fn lemma_objects_refuse_stray_token<E, M>(
    s: TokenStream<E>,
    items: Seq<(SpecObject<M>, M)>,
    meta: spec_fn(Span) -> M,
)
    requires
        s.tokens.len() > 0,
        s.tokens[0].0 != Token::Punct(Punct::Comma),
        s.tokens[0].0 != Token::Punct(Punct::Period),
        s.tokens[0].0 != Token::Punct(Punct::Semicolon),
        s.tokens[0].0 != Token::End(Delimiter::Bracket),
    ensures
        objects_rest(s, items, meta) == Err::<(Seq<(SpecObject<M>, M)>, TokenStream<E>), Failure<E, M>>(
            read_failure(s, meta),
        ),
{
}

/// What the statements of a document give keeps the statements read before them, and
/// reads the input to its end.
proof fn lemma_document_rest_ends<E, M>(
    s: TokenStream<E>,
    items: Seq<(SpecStatement<M>, M)>,
    meta: spec_fn(Span) -> M,
)
    ensures
        match document_rest(s, items, meta) {
            Ok((v, r)) => {
                &&& items.len() <= v.len()
                &&& forall|i: int| 0 <= i < items.len() ==> v[i] == items[i]
                &&& r.tokens.len() == 0
                &&& r.end is Ok
            },
            Err(_) => true,
        },
    decreases s.tokens.len(),
{
    if s.tokens.len() > 0 {
        let after = s.advance();
        match statement_from(after, s.tokens[0].0, s.tokens[0].1, meta) {
            Ok((st, m, rest)) => if after.is_suffix(rest) {
                lemma_document_rest_ends(rest, items.push((st, m)), meta);
            },
            Err(_) => {},
        }
    }
}

/// A document that parses is read to the end of the input, which no lexical error ends;
/// its first statement is read from its first token, and its span runs from that token
/// to the last one.
pub proof fn lemma_document_reads_to_end<E, M>(s: TokenStream<E>, meta: spec_fn(Span) -> M)
    ensures
        match document_with(s, meta) {
            Ok((d, m, r)) => {
                &&& r.tokens.len() == 0
                &&& r.end is Ok
                &&& s.tokens.len() > 0 ==> {
                    &&& m == meta(s.tokens[0].1.spec_union(r.last))
                    &&& statement_from(s.advance(), s.tokens[0].0, s.tokens[0].1, meta) matches Ok(
                        (st, sm, _),
                    ) && d.statements.len() > 0 && d.statements[0] == (st, sm)
                }
            },
            Err(_) => true,
        },
{
    if s.tokens.len() > 0 {
        let after = s.advance();
        match statement_from(after, s.tokens[0].0, s.tokens[0].1, meta) {
            Ok((st, m, rest)) => lemma_document_rest_ends(rest, seq![(st, m)], meta),
            Err(_) => {},
        }
    }
}

/// Parsing a document stops at its first failing statement: the document fails with
/// that statement's failure, reading nothing after it.
pub proof fn lemma_document_stops_at_failure<E, M>(
    s: TokenStream<E>,
    items: Seq<(SpecStatement<M>, M)>,
    meta: spec_fn(Span) -> M,
)
    ensures
        s.tokens.len() > 0 ==> match statement_from(s.advance(), s.tokens[0].0, s.tokens[0].1, meta) {
            Err(e) => document_rest(s, items, meta) == Err::<
                (Seq<(SpecStatement<M>, M)>, TokenStream<E>),
                Failure<E, M>,
            >(e),
            Ok(_) => true,
        },
        s.tokens.len() > 0 ==> match statement_from(s.advance(), s.tokens[0].0, s.tokens[0].1, meta) {
            Err(e) => document_with(s, meta) == Err::<
                (SpecDocument<M>, M, TokenStream<E>),
                Failure<E, M>,
            >(e),
            Ok(_) => true,
        },
{
}

} // verus!
