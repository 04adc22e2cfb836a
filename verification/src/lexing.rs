//! Lexical tokens of Turtle, and the interface of a token source.
use vstd::prelude::*;

use crate::ast::NumericLiteral;
use crate::span::Span;

verus! {

/// Keywords of the Turtle syntax.
#[derive(Clone, Copy, Debug, PartialEq, Eq, Structural)]
pub enum Keyword {
    /// `a`, standing for `rdf:type`.
    A,
    /// `@prefix`.
    Prefix,
    /// `@base`.
    Base,
    /// `PREFIX` (SPARQL style).
    SparqlPrefix,
    /// `BASE` (SPARQL style).
    SparqlBase,
    /// `true`.
    True,
    /// `false`.
    False,
}

/// Opening and closing delimiters.
#[derive(Clone, Copy, Debug, PartialEq, Eq, Structural)]
pub enum Delimiter {
    /// `(` and `)`.
    Parenthesis,
    /// `[` and `]`.
    Bracket,
}

/// Punctuation marks.
#[derive(Clone, Copy, Debug, PartialEq, Eq, Structural)]
pub enum Punct {
    /// `.`
    Period,
    /// `;`
    Semicolon,
    /// `,`
    Comma,
    /// `^^`
    Carets,
}

/// A lexical token.
///
/// IRI references, language tags and blank node labels are given by their text,
/// as the lexer validated them.
#[derive(Debug, PartialEq, Eq)]
pub enum Token {
    /// A keyword.
    Keyword(Keyword),
    /// An opening delimiter.
    Begin(Delimiter),
    /// A closing delimiter.
    End(Delimiter),
    /// A language tag such as `en` in `"chat"@en`.
    LangTag(String),
    /// An IRI reference, between `<` and `>`.
    IriRef(String),
    /// A string literal (its value, without the quotes).
    StringLiteral(String),
    /// A blank node label such as `_:b0`.
    BlankNodeLabel(String),
    /// A prefixed name `prefix:suffix`: the prefix and the suffix, each with its span.
    CompactIri((String, Span), (String, Span)),
    /// A numeric literal.
    Numeric(NumericLiteral),
    /// A punctuation mark.
    Punct(Punct),
}

/// What kind of token a token is; it is all the parser reads of a token it looks ahead at.
#[derive(Clone, Copy, Debug, PartialEq, Eq, Structural)]
pub enum TokenKind {
    /// A keyword.
    Keyword(Keyword),
    /// An opening delimiter.
    Begin(Delimiter),
    /// A closing delimiter.
    End(Delimiter),
    /// A language tag.
    LangTag,
    /// An IRI reference.
    IriRef,
    /// A string literal.
    StringLiteral,
    /// A blank node label.
    BlankNodeLabel,
    /// A prefixed name.
    CompactIri,
    /// A numeric literal.
    Numeric,
    /// A punctuation mark.
    Punct(Punct),
}

impl Token {
    /// The kind of this token.
    pub open spec fn spec_kind(&self) -> TokenKind {
        match self {
            Token::Keyword(k) => TokenKind::Keyword(*k),
            Token::Begin(d) => TokenKind::Begin(*d),
            Token::End(d) => TokenKind::End(*d),
            Token::LangTag(_) => TokenKind::LangTag,
            Token::IriRef(_) => TokenKind::IriRef,
            Token::StringLiteral(_) => TokenKind::StringLiteral,
            Token::BlankNodeLabel(_) => TokenKind::BlankNodeLabel,
            Token::CompactIri(_, _) => TokenKind::CompactIri,
            Token::Numeric(_) => TokenKind::Numeric,
            Token::Punct(p) => TokenKind::Punct(*p),
        }
    }

    /// The kind of this token.
    pub fn kind(&self) -> (k: TokenKind)
        ensures
            k == self.spec_kind(),
    {
        match self {
            Token::Keyword(k) => TokenKind::Keyword(*k),
            Token::Begin(d) => TokenKind::Begin(*d),
            Token::End(d) => TokenKind::End(*d),
            Token::LangTag(_) => TokenKind::LangTag,
            Token::IriRef(_) => TokenKind::IriRef,
            Token::StringLiteral(_) => TokenKind::StringLiteral,
            Token::BlankNodeLabel(_) => TokenKind::BlankNodeLabel,
            Token::CompactIri(_, _) => TokenKind::CompactIri,
            Token::Numeric(_) => TokenKind::Numeric,
            Token::Punct(p) => TokenKind::Punct(*p),
        }
    }
}

/// What a token source has left to give, as a value.
///
/// `tokens` are the tokens still to be read, each with its span. After them the
/// source either reaches the end of the input, whose position `end` gives as
/// `Ok(span)`, or fails with a lexical error, `end` being `Err((error, span))`.
/// `last` is the span of the last token read.
pub struct TokenStream<E> {
    pub tokens: Seq<(Token, Span)>,
    pub end: Result<Span, (E, Span)>,
    pub last: Span,
}

impl<E> TokenStream<E> {
    /// What reading the next token gives.
    pub open spec fn next_item(self) -> Result<(Option<Token>, Span), (E, Span)> {
        if self.tokens.len() > 0 {
            Ok((Some(self.tokens[0].0), self.tokens[0].1))
        } else {
            match self.end {
                Ok(span) => Ok((None, span)),
                Err(e) => Err(e),
            }
        }
    }

    /// The stream once the next token has been read.
    pub open spec fn advance(self) -> TokenStream<E> {
        if self.tokens.len() > 0 {
            TokenStream { tokens: self.tokens.drop_first(), end: self.end, last: self.tokens[0].1 }
        } else {
            self
        }
    }

    /// What looking at the next token, without reading it, gives.
    pub open spec fn peek_item(self) -> Result<(Option<TokenKind>, Span), (E, Span)> {
        if self.tokens.len() > 0 {
            Ok((Some(self.tokens[0].0.spec_kind()), self.tokens[0].1))
        } else {
            match self.end {
                Ok(span) => Ok((None, span)),
                Err(e) => Err(e),
            }
        }
    }

    /// This stream with the tokens `more` after its own, then `end` in place of its end.
    pub open spec fn extend(self, more: Seq<(Token, Span)>, end: Result<Span, (E, Span)>) -> TokenStream<E> {
        TokenStream { tokens: self.tokens + more, end, last: self.last }
    }

    /// `rest` is what is left of this stream after some of its tokens were read.
    pub open spec fn is_suffix(self, rest: TokenStream<E>) -> bool {
        &&& rest.tokens.len() <= self.tokens.len()
        &&& rest.tokens == self.tokens.skip(self.tokens.len() - rest.tokens.len())
        &&& rest.end == self.end
    }
}

/// Reading a token leaves a suffix of the stream.
pub broadcast proof fn lemma_advance_suffix<E>(s: TokenStream<E>)
    ensures
        s.is_suffix(#[trigger] s.advance()),
{
    assert(s.tokens.skip(0) =~= s.tokens);
    if s.tokens.len() > 0 {
        assert(s.tokens.skip(1) =~= s.tokens.drop_first());
    }
}

/// A stream is a suffix of itself.
pub broadcast proof fn lemma_suffix_refl<E>(s: TokenStream<E>)
    ensures
        #[trigger] s.is_suffix(s),
{
    assert(s.tokens.skip(0) =~= s.tokens);
}

/// A suffix of a suffix is a suffix.
pub broadcast proof fn lemma_suffix_trans<E>(a: TokenStream<E>, b: TokenStream<E>, c: TokenStream<E>)
    requires
        #[trigger] a.is_suffix(b),
        #[trigger] b.is_suffix(c),
    ensures
        a.is_suffix(c),
{
    assert(a.tokens.skip(a.tokens.len() - c.tokens.len()) =~= b.tokens.skip(
        b.tokens.len() - c.tokens.len(),
    ));
}

/// Extending a stream that has tokens left changes neither its next token nor what
/// reading it leaves, but for the extension.
pub broadcast proof fn lemma_extend_advance<E>(
    s: TokenStream<E>,
    more: Seq<(Token, Span)>,
    end: Result<Span, (E, Span)>,
)
    requires
        s.tokens.len() > 0,
    ensures
        #[trigger] s.extend(more, end).advance() == s.advance().extend(more, end),
        s.extend(more, end).tokens[0] == s.tokens[0],
        s.extend(more, end).tokens.len() > 0,
{
    assert(s.extend(more, end).tokens.drop_first() =~= s.tokens.drop_first() + more);
}

/// Extending two streams alike keeps one a suffix of the other.
pub broadcast proof fn lemma_extend_suffix<E>(
    s: TokenStream<E>,
    rest: TokenStream<E>,
    more: Seq<(Token, Span)>,
    end: Result<Span, (E, Span)>,
)
    requires
        s.is_suffix(rest),
    ensures
        #[trigger] s.extend(more, end).is_suffix(rest.extend(more, end)),
{
    let k = s.tokens.len() - rest.tokens.len();
    assert(s.extend(more, end).tokens.skip(k) =~= rest.tokens + more);
}

pub broadcast group group_suffix {
    lemma_advance_suffix,
    lemma_suffix_refl,
    lemma_suffix_trans,
}

/// A source of tokens, such as a lexer.
pub trait Tokens: Sized {
    /// The lexical error.
    type Error;

    /// What this source has left to give.
    spec fn stream(&self) -> TokenStream<Self::Error>;

    /// Reads the next token: `None` at the end of the input.
    fn next(&mut self) -> (r: Result<(Option<Token>, Span), (Self::Error, Span)>)
        ensures
            r == old(self).stream().next_item(),
            final(self).stream() == old(self).stream().advance(),
    ;

    /// Looks at the kind of the next token without reading it.
    fn peek(&mut self) -> (r: Result<(Option<TokenKind>, Span), (Self::Error, Span)>)
        ensures
            r == old(self).stream().peek_item(),
            final(self).stream() == old(self).stream(),
    ;

    /// The span of the last token read.
    fn last(&self) -> (r: Span)
        ensures
            r == self.stream().last,
    ;
}

/// A token source over tokens already lexed, held in a vector.
///
/// After its tokens the list reaches the end of the input, or a lexical error,
/// as given when it is made.
pub struct TokenList<E> {
    /// The tokens still to be read, the next one last.
    reversed: Vec<(Token, Span)>,
    end: Result<Span, (E, Span)>,
    last: Span,
}

impl<E: Copy> TokenList<E> {
    /// A source that gives `tokens` in order, then `end`; no token has been read yet,
    /// and the last span is the empty span at the start of the input.
    pub fn new(tokens: Vec<(Token, Span)>, end: Result<Span, (E, Span)>) -> (l: Self)
        ensures
            l.stream() == (TokenStream { tokens: tokens@, end, last: Span::spec_new(0, 0) }),
    {
        let mut tokens = tokens;
        let ghost all = tokens@;
        let mut reversed: Vec<(Token, Span)> = Vec::new();
        while tokens.len() > 0
            invariant
                all == tokens@ + reversed@.reverse(),
            decreases tokens.len(),
        {
            let ghost before = tokens@;
            let ghost rev_before = reversed@;
            let item = tokens.pop().unwrap();
            reversed.push(item);
            assert(reversed@.reverse() =~= seq![item] + rev_before.reverse());
            assert(before =~= tokens@ + seq![item]);
            assert(all =~= tokens@ + reversed@.reverse());
        }
        assert(all =~= reversed@.reverse());
        TokenList { reversed, end, last: Span::new(0, 0) }
    }
}

impl<E: Copy> Tokens for TokenList<E> {
    type Error = E;

    closed spec fn stream(&self) -> TokenStream<E> {
        TokenStream { tokens: self.reversed@.reverse(), end: self.end, last: self.last }
    }

    fn next(&mut self) -> (r: Result<(Option<Token>, Span), (E, Span)>) {
        match self.reversed.pop() {
            Some((token, span)) => {
                self.last = span;
                assert(self.reversed@.reverse() =~= old(self).reversed@.reverse().drop_first());
                Ok((Some(token), span))
            },
            None => match self.end {
                Ok(span) => Ok((None, span)),
                Err(e) => Err(e),
            },
        }
    }

    fn peek(&mut self) -> (r: Result<(Option<TokenKind>, Span), (E, Span)>) {
        let n = self.reversed.len();
        if n > 0 {
            let kind = self.reversed[n - 1].0.kind();
            Ok((Some(kind), self.reversed[n - 1].1))
        } else {
            match self.end {
                Ok(span) => Ok((None, span)),
                Err(e) => Err(e),
            }
        }
    }

    fn last(&self) -> (r: Span) {
        self.last
    }
}

} // verus!
