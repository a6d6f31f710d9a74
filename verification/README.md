# tout

Utilities for working with Rust token trees, verified with Verus.

- `src/token.rs`: the token model (groups, idents, puncts, literals, streams;
  spans are `proc_macro2::Span`), what text spells an identifier,
  structural equivalence with and without spans, copies, and the laws that equivalence is reflexive, symmetric and
  transitive.
- `src/extension.rs`: extension traits with kind tests, conversions,
  comparisons and literal constructors, and the law that `unraw` leaves an
  identifier that is not raw.
- `src/parser.rs`: a backtracking parser over the remaining trees, with the
  laws that successful steps consume exactly the tokens they return and that
  refused steps put every token back, where the mapping functions give back
  what they cannot map (as the kind conversions `into_group`, ... do). The
  methods that take several trees take a limit on how many.
- `src/escape.rs`: what the text of a string, character or byte literal
  stands for (Rust's escapes as spec functions); the literal constructors
  state that their text decodes to their argument.
- `src/diagnostic.rs`: `::core::compile_error! { "..." }` token streams, and
  the law that such a stream is fixed by its spans and its message.
- `src/visitor.rs`: the token visitor, its default actions, and `Identity`,
  the visitor that copies a stream, spans included.
- `src/decimal.rs`: decimal text of integers for integer literals.
- `app/lib.rs`: conversions to and from `proc_macro2` values, the
  quasi-quotation and assertion macros, float and C-string literals, and the
  textual forms of a parser.
