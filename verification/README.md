# turtle_syntax

A parser for the [Turtle](https://www.w3.org/TR/turtle/) RDF syntax, verified with Verus.
It reads a stream of lexical tokens and builds the syntax tree of a Turtle document; each
node carries the metadata that a caller-supplied builder makes of the span of source text
the node covers (the span itself, with the builder `|span| span`).

Layout of `src/`:

- `span.rs`: byte ranges in the source, with union and the like.
- `lexing.rs`: tokens, the `Tokens` interface of a token source and its model
  (`TokenStream`), and `TokenList`, a token source over a vector of tokens.
- `ast.rs`: the syntax tree, and its model (the same tree with sequences for vectors and
  the text of each string).
- `grammar.rs`: the grammar, as spec functions from a token stream to the model of what
  is parsed, its metadata and what is left of the stream, or the error and what is left
  of the stream once the parser has read the tokens it reads before it gives up.
- `shape.rs`: the shape of a tree, without its metadata, and the lemmas showing that
  lists are read alike whatever the metadata of their first items.
- `fit.rs`: how a tree made with any builder fits the grammar's tree of spans: the same
  tree, each metadata value one that the builder may give for the span at its place.
- `parsing.rs`: the parser. Each parse function is proved, for every metadata builder,
  to succeed or fail as the grammar does, with a tree of the grammar's shape or the
  grammar's error, leaving the stream where the grammar leaves it (on success and on
  failure), each metadata value being one the builder may give for the span of its
  place; and, for a builder that gives `meta(span)` for each span, to give exactly
  the grammar's outcome with `meta`, metadata included.
- `laws.rs`: parsing only consumes tokens, whether it succeeds or fails; a statement's
  parse does not look past its end; the tokens of two documents one after the other
  parse as the statements of the first followed by those of the second; triples end at
  their own `.`; predicate-objects lists and object lists are not empty and end before
  the tokens that close them; a document is read to the end of the input, and its
  parse stops at the first failing statement.
- `shape_laws.rs`: the metadata changes nothing of a document's parse but its metadata
  (the same tokens read, a document of the same shape or the same error).

`app/` holds the error types with their messages (`thiserror`), conversions to and from
the spans of `locspan`, and a metadata builder made from one over `locspan` spans.
