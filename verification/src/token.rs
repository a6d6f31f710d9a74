//! The token model: spans, delimiters, token trees and token streams.
use proc_macro2::Span;
use vstd::prelude::*;

use crate::escape::{byte_codes, char_codes, decodes_to};

verus! {

/// A region of source code. Spans are carried through unchanged.
#[verifier::external_type_specification]
#[verifier::external_body]
pub struct ExSpan(Span);

/// Describes how a sequence of token trees is delimited.
#[derive(Clone, Copy, Debug, PartialEq, Eq, Structural)]
pub enum Delimiter {
    /// `( ... )`
    Parenthesis,
    /// `{ ... }`
    Brace,
    /// `[ ... ]`
    Bracket,
    /// An invisible delimiter (`None` in proc-macro2).
    Undelimited,
}

/// Whether a punct is followed immediately by another punct.
#[derive(Clone, Copy, Debug, PartialEq, Eq, Structural)]
pub enum Spacing {
    /// The punct is followed by whitespace or a non-punct token.
    Alone,
    /// The punct is immediately followed by another punct.
    Joint,
}

/// A word of Rust code. `text` is the identifier as written, including a
/// leading `r#` for raw identifiers; `Ident::new` asks that it satisfy
/// `is_ident_text`.
pub struct Ident {
    pub text: String,
    pub span: Span,
}

/// An identifier is raw when it is written with a leading `r#`.
pub open spec fn is_raw_text(text: Seq<char>) -> bool {
    text.len() >= 2 && text[0] == 'r' && text[1] == '#'
}

/// The identifier without its raw prefix `r#`, where it has one.
pub open spec fn ident_body(text: Seq<char>) -> Seq<char> {
    if is_raw_text(text) {
        text.skip(2)
    } else {
        text
    }
}

/// An ASCII character that may stand in an identifier: a letter, a digit or
/// `_`.
pub open spec fn is_ident_ascii(c: char) -> bool {
    ('a' <= c <= 'z') || ('A' <= c <= 'Z') || ('0' <= c <= '9') || c == '_'
}

/// The words that cannot be raw identifiers: `_`, `super`, `self`, `Self`
/// and `crate`.
pub open spec fn is_reserved_raw_word(word: Seq<char>) -> bool {
    ||| word == seq!['_']
    ||| word == seq!['s', 'u', 'p', 'e', 'r']
    ||| word == seq!['s', 'e', 'l', 'f']
    ||| word == seq!['S', 'e', 'l', 'f']
    ||| word == seq!['c', 'r', 'a', 't', 'e']
}

/// Text that spells an identifier: past the raw prefix `r#` it is not
/// empty, does not start with a digit, and holds no ASCII character but
/// letters, digits and `_`; a raw identifier is not one of the reserved
/// words. Which characters beyond ASCII may stand in an identifier is a
/// matter of Unicode's identifier tables, and is not checked here.
pub open spec fn is_ident_text(text: Seq<char>) -> bool {
    let body = ident_body(text);
    &&& body.len() > 0
    &&& !('0' <= body[0] <= '9')
    &&& (forall|i: int|
        0 <= i < body.len() ==> (body[i] as int) >= 0x80 || is_ident_ascii(#[trigger] body[i]))
    &&& is_raw_text(text) ==> !is_reserved_raw_word(body)
}

/// A single punctuation character.
pub struct Punct {
    pub ch: char,
    pub spacing: Spacing,
    pub span: Span,
}

/// A literal; `repr` is its source representation.
pub struct Literal {
    pub repr: String,
    pub span: Span,
}

/// A delimited token stream.
pub struct Group {
    pub delimiter: Delimiter,
    pub stream: TokenStream,
    pub span: Span,
}

/// A single token or a delimited sequence of token trees.
pub enum TokenTree {
    Group(Group),
    Ident(Ident),
    Punct(Punct),
    Literal(Literal),
}

/// A sequence of token trees.
pub struct TokenStream {
    pub trees: Vec<TokenTree>,
}

/// Compares two token trees by kind and contents; when `spans` holds, the
/// spans of every token must agree as well.
pub open spec fn tree_rel(a: TokenTree, b: TokenTree, spans: bool) -> bool
    decreases a, 0int,
{
    match a {
        TokenTree::Group(ga) => match b {
            TokenTree::Group(gb) => ga.delimiter == gb.delimiter && (spans ==> ga.span == gb.span)
                && ga.stream.trees@.len() == gb.stream.trees@.len() && prefix_rel(
                ga.stream,
                gb.stream,
                ga.stream.trees@.len() as int,
                spans,
            ),
            _ => false,
        },
        TokenTree::Ident(ia) => match b {
            TokenTree::Ident(ib) => ia.text@ == ib.text@ && (spans ==> ia.span == ib.span),
            _ => false,
        },
        TokenTree::Punct(pa) => match b {
            TokenTree::Punct(pb) => pa.ch == pb.ch && pa.spacing == pb.spacing && (spans
                ==> pa.span == pb.span),
            _ => false,
        },
        TokenTree::Literal(la) => match b {
            TokenTree::Literal(lb) => la.repr@ == lb.repr@ && (spans ==> la.span == lb.span),
            _ => false,
        },
    }
}

/// The first `n` trees of `a` and `b` are pairwise related by `tree_rel`.
pub open spec fn prefix_rel(a: TokenStream, b: TokenStream, n: int, spans: bool) -> bool
    decreases a, n,
{
    if n <= 0 {
        true
    } else if n > a.trees@.len() || n > b.trees@.len() {
        false
    } else {
        proof {
            assert(decreases_to!(a => a.trees));
            assert(decreases_to!(a.trees => a.trees@));
            assert(decreases_to!(a.trees@ => a.trees@[n - 1]));
        }
        prefix_rel(a, b, n - 1, spans) && tree_rel(a.trees@[n - 1], b.trees@[n - 1], spans)
    }
}

/// Streams related tree by tree by `tree_rel`.
pub open spec fn stream_rel(a: TokenStream, b: TokenStream, spans: bool) -> bool {
    a.trees@.len() == b.trees@.len() && prefix_rel(a, b, a.trees@.len() as int, spans)
}

/// Two token trees are equivalent when they have the same kind and the same
/// contents, ignoring spans.
pub open spec fn tree_equiv(a: TokenTree, b: TokenTree) -> bool {
    tree_rel(a, b, false)
}

/// Two token streams are equivalent when they have the same length and their
/// trees are pairwise equivalent.
pub open spec fn stream_equiv(a: TokenStream, b: TokenStream) -> bool {
    stream_rel(a, b, false)
}

/// Two token trees are copies of each other: equivalent, with the same spans.
pub open spec fn tree_copy(a: TokenTree, b: TokenTree) -> bool {
    tree_rel(a, b, true)
}

/// Two token streams are copies of each other: equivalent, with the same spans.
pub open spec fn stream_copy(a: TokenStream, b: TokenStream) -> bool {
    stream_rel(a, b, true)
}

/// `prefix_rel`, stated elementwise.
pub proof fn lemma_prefix_rel_elementwise(a: TokenStream, b: TokenStream, n: int, spans: bool)
    requires
        0 <= n <= a.trees@.len(),
        n <= b.trees@.len(),
    ensures
        prefix_rel(a, b, n, spans) <==> forall|i: int|
            0 <= i < n ==> #[trigger] tree_rel(a.trees@[i], b.trees@[i], spans),
    decreases n,
{
    if n > 0 {
        lemma_prefix_rel_elementwise(a, b, n - 1, spans);
        if prefix_rel(a, b, n, spans) {
            assert forall|i: int| 0 <= i < n implies #[trigger] tree_rel(
                a.trees@[i],
                b.trees@[i],
                spans,
            ) by {
                if i < n - 1 {
                    assert(tree_rel(a.trees@[i], b.trees@[i], spans));
                }
            }
        } else {
            assert(!tree_rel(a.trees@[n - 1], b.trees@[n - 1], spans) || !prefix_rel(
                a,
                b,
                n - 1,
                spans,
            ));
        }
    }
}

/// `stream_rel`, stated elementwise.
pub proof fn lemma_stream_rel_elementwise(a: TokenStream, b: TokenStream, spans: bool)
    ensures
        stream_rel(a, b, spans) <==> (a.trees@.len() == b.trees@.len() && forall|i: int|
            0 <= i < a.trees@.len() ==> #[trigger] tree_rel(a.trees@[i], b.trees@[i], spans)),
{
    if a.trees@.len() == b.trees@.len() {
        lemma_prefix_rel_elementwise(a, b, a.trees@.len() as int, spans);
    }
}

/// Compares two token trees, ignoring spans.
pub fn tree_equals(a: &TokenTree, b: &TokenTree) -> (r: bool)
    ensures
        r == tree_equiv(*a, *b),
    decreases *a,
{
    match (a, b) {
        (TokenTree::Group(ga), TokenTree::Group(gb)) => {
            let same = ga.delimiter == gb.delimiter;
            if !same {
        return false;
            }
            let r = stream_equals(&ga.stream, &gb.stream);
            proof {
                if ga.stream.trees@.len() == gb.stream.trees@.len() {
                    lemma_prefix_rel_elementwise(
                        ga.stream,
                        gb.stream,
                        ga.stream.trees@.len() as int,
                        false,
                    );
                }
            }
            r
        },
        (TokenTree::Ident(ia), TokenTree::Ident(ib)) => ia.text == ib.text,
        (TokenTree::Punct(pa), TokenTree::Punct(pb)) => pa.ch == pb.ch && pa.spacing
            == pb.spacing,
        (TokenTree::Literal(la), TokenTree::Literal(lb)) => la.repr == lb.repr,
        _ => false,
    }
}

/// Compares two token streams tree by tree, ignoring spans.
pub fn stream_equals(a: &TokenStream, b: &TokenStream) -> (r: bool)
    ensures
        r == stream_equiv(*a, *b),
    decreases *a,
{
    proof {
        lemma_stream_rel_elementwise(*a, *b, false);
    }
    let n = a.trees.len();
    if n != b.trees.len() {
        return false;
    }
    let mut i: usize = 0;
    while i < n
        invariant
            n == a.trees@.len(),
            n == b.trees@.len(),
            0 <= i <= n,
            forall|j: int| 0 <= j < i ==> #[trigger] tree_rel(a.trees@[j], b.trees@[j], false),
        decreases n - i,
    {
        proof {
            assert(decreases_to!(*a => a.trees));
            assert(decreases_to!(a.trees => a.trees@));
            assert(decreases_to!(a.trees@ => a.trees@[i as int]));
        }
        if !tree_equals(&a.trees[i], &b.trees[i]) {
            proof {
                lemma_stream_rel_elementwise(*a, *b, false);
                assert(!tree_rel(a.trees@[i as int], b.trees@[i as int], false));
            }
            return false;
        }
        i = i + 1;
    }
    true
}


/// Every token tree is related to itself, with or without spans.
pub proof fn lemma_tree_rel_reflexive(a: TokenTree, spans: bool)
    ensures
        tree_rel(a, a, spans),
    decreases a, 0int,
{
    if let TokenTree::Group(g) = a {
        lemma_stream_rel_reflexive(g.stream, spans);
    }
}

/// Every token stream is related to itself, with or without spans.
pub proof fn lemma_stream_rel_reflexive(s: TokenStream, spans: bool)
    ensures
        stream_rel(s, s, spans),
    decreases s, 1int,
{
    assert forall|i: int| 0 <= i < s.trees@.len() implies #[trigger] tree_rel(
        s.trees@[i],
        s.trees@[i],
        spans,
    ) by {
        assert(decreases_to!(s => s.trees));
        assert(decreases_to!(s.trees => s.trees@));
        assert(decreases_to!(s.trees@ => s.trees@[i]));
        lemma_tree_rel_reflexive(s.trees@[i], spans);
    }
    lemma_stream_rel_elementwise(s, s, spans);
}

/// `tree_rel` is symmetric.
pub proof fn lemma_tree_rel_symmetric(a: TokenTree, b: TokenTree, spans: bool)
    requires
        tree_rel(a, b, spans),
    ensures
        tree_rel(b, a, spans),
    decreases a, 0int,
{
    if let TokenTree::Group(ga) = a {
        if let TokenTree::Group(gb) = b {
            lemma_stream_rel_elementwise(ga.stream, gb.stream, spans);
            lemma_stream_rel_symmetric(ga.stream, gb.stream, spans);
            lemma_stream_rel_elementwise(gb.stream, ga.stream, spans);
        }
    }
}

/// `stream_rel` is symmetric.
pub proof fn lemma_stream_rel_symmetric(a: TokenStream, b: TokenStream, spans: bool)
    requires
        stream_rel(a, b, spans),
    ensures
        stream_rel(b, a, spans),
    decreases a, 1int,
{
    lemma_stream_rel_elementwise(a, b, spans);
    lemma_stream_rel_elementwise(b, a, spans);
    assert forall|i: int| 0 <= i < b.trees@.len() implies #[trigger] tree_rel(
        b.trees@[i],
        a.trees@[i],
        spans,
    ) by {
        assert(tree_rel(a.trees@[i], b.trees@[i], spans));
        assert(decreases_to!(a => a.trees));
        assert(decreases_to!(a.trees => a.trees@));
        assert(decreases_to!(a.trees@ => a.trees@[i]));
        lemma_tree_rel_symmetric(a.trees@[i], b.trees@[i], spans);
    }
}

/// `tree_rel` is transitive.
pub proof fn lemma_tree_rel_transitive(a: TokenTree, b: TokenTree, c: TokenTree, spans: bool)
    requires
        tree_rel(a, b, spans),
        tree_rel(b, c, spans),
    ensures
        tree_rel(a, c, spans),
    decreases a, 0int,
{
    if let TokenTree::Group(ga) = a {
        if let TokenTree::Group(gb) = b {
            if let TokenTree::Group(gc) = c {
                lemma_stream_rel_elementwise(ga.stream, gb.stream, spans);
                lemma_stream_rel_elementwise(gb.stream, gc.stream, spans);
                lemma_stream_rel_transitive(ga.stream, gb.stream, gc.stream, spans);
                lemma_stream_rel_elementwise(ga.stream, gc.stream, spans);
            }
        }
    }
}

/// `stream_rel` is transitive.
pub proof fn lemma_stream_rel_transitive(
    a: TokenStream,
    b: TokenStream,
    c: TokenStream,
    spans: bool,
)
    requires
        stream_rel(a, b, spans),
        stream_rel(b, c, spans),
    ensures
        stream_rel(a, c, spans),
    decreases a, 1int,
{
    lemma_stream_rel_elementwise(a, b, spans);
    lemma_stream_rel_elementwise(b, c, spans);
    lemma_stream_rel_elementwise(a, c, spans);
    assert forall|i: int| 0 <= i < a.trees@.len() implies #[trigger] tree_rel(
        a.trees@[i],
        c.trees@[i],
        spans,
    ) by {
        assert(tree_rel(a.trees@[i], b.trees@[i], spans));
        assert(tree_rel(b.trees@[i], c.trees@[i], spans));
        assert(decreases_to!(a => a.trees));
        assert(decreases_to!(a.trees => a.trees@));
        assert(decreases_to!(a.trees@ => a.trees@[i]));
        lemma_tree_rel_transitive(a.trees@[i], b.trees@[i], c.trees@[i], spans);
    }
}

/// A copy is equivalent: `tree_rel` with spans implies `tree_rel` without.
pub proof fn lemma_tree_copy_equiv(a: TokenTree, b: TokenTree)
    requires
        tree_copy(a, b),
    ensures
        tree_equiv(a, b),
    decreases a, 0int,
{
    if let TokenTree::Group(ga) = a {
        if let TokenTree::Group(gb) = b {
            lemma_stream_copy_equiv(ga.stream, gb.stream);
            lemma_stream_rel_elementwise(ga.stream, gb.stream, false);
            lemma_stream_rel_elementwise(ga.stream, gb.stream, true);
        }
    }
}

/// A copied stream is equivalent.
pub proof fn lemma_stream_copy_equiv(a: TokenStream, b: TokenStream)
    requires
        stream_copy(a, b),
    ensures
        stream_equiv(a, b),
    decreases a, 1int,
{
    lemma_stream_rel_elementwise(a, b, true);
    lemma_stream_rel_elementwise(a, b, false);
    assert forall|i: int| 0 <= i < a.trees@.len() implies #[trigger] tree_rel(
        a.trees@[i],
        b.trees@[i],
        false,
    ) by {
        assert(tree_rel(a.trees@[i], b.trees@[i], true));
        assert(decreases_to!(a => a.trees));
        assert(decreases_to!(a.trees => a.trees@));
        assert(decreases_to!(a.trees@ => a.trees@[i]));
        lemma_tree_copy_equiv(a.trees@[i], b.trees@[i]);
    }
}

/// What equivalence (spans ignored) means, kind by kind: two trees are
/// equivalent exactly when they are of one kind and groups have the same
/// delimiter and pairwise equivalent trees, identifiers the same text,
/// puncts the same character and spacing, and literals the same text.
pub proof fn law_tree_equiv_by_kind(a: TokenTree, b: TokenTree)
    ensures
        tree_equiv(a, b) <==> match (a, b) {
            (TokenTree::Group(ga), TokenTree::Group(gb)) => ga.delimiter == gb.delimiter
                && ga.stream.trees@.len() == gb.stream.trees@.len() && forall|i: int|
                0 <= i < ga.stream.trees@.len() ==> #[trigger] tree_equiv(
                    ga.stream.trees@[i],
                    gb.stream.trees@[i],
                ),
            (TokenTree::Ident(ia), TokenTree::Ident(ib)) => ia.text@ == ib.text@,
            (TokenTree::Punct(pa), TokenTree::Punct(pb)) => pa.ch == pb.ch && pa.spacing
                == pb.spacing,
            (TokenTree::Literal(la), TokenTree::Literal(lb)) => la.repr@ == lb.repr@,
            _ => false,
        },
{
    if let (TokenTree::Group(ga), TokenTree::Group(gb)) = (a, b) {
        if ga.stream.trees@.len() == gb.stream.trees@.len() {
            lemma_prefix_rel_elementwise(ga.stream, gb.stream, ga.stream.trees@.len() as int, false);
            let (sa, sb) = (ga.stream, gb.stream);
            if tree_rel(a, b, false) {
                assert forall|i: int| 0 <= i < sa.trees@.len() implies #[trigger] tree_equiv(
                    sa.trees@[i],
                    sb.trees@[i],
                ) by {
                    assert(tree_rel(sa.trees@[i], sb.trees@[i], false));
                }
            }
            if forall|i: int|
                0 <= i < sa.trees@.len() ==> #[trigger] tree_equiv(sa.trees@[i], sb.trees@[i]) {
                assert forall|i: int| 0 <= i < sa.trees@.len() implies #[trigger] tree_rel(
                    sa.trees@[i],
                    sb.trees@[i],
                    false,
                ) by {
                    assert(tree_equiv(sa.trees@[i], sb.trees@[i]));
                }
            }
        }
    }
}

/// What a copy means, kind by kind: a tree is a copy of another exactly
/// when it is of the same kind, with the same span, and groups have the same
/// delimiter and pairwise copied trees, identifiers the same text, puncts
/// the same character and spacing, and literals the same text.
pub proof fn law_tree_copy_by_kind(a: TokenTree, b: TokenTree)
    ensures
        tree_copy(a, b) <==> match (a, b) {
            (TokenTree::Group(ga), TokenTree::Group(gb)) => ga.delimiter == gb.delimiter && ga.span
                == gb.span && ga.stream.trees@.len() == gb.stream.trees@.len() && forall|i: int|
                0 <= i < ga.stream.trees@.len() ==> #[trigger] tree_copy(
                    ga.stream.trees@[i],
                    gb.stream.trees@[i],
                ),
            (TokenTree::Ident(ia), TokenTree::Ident(ib)) => ia.text@ == ib.text@ && ia.span
                == ib.span,
            (TokenTree::Punct(pa), TokenTree::Punct(pb)) => pa.ch == pb.ch && pa.spacing
                == pb.spacing && pa.span == pb.span,
            (TokenTree::Literal(la), TokenTree::Literal(lb)) => la.repr@ == lb.repr@ && la.span
                == lb.span,
            _ => false,
        },
{
    if let (TokenTree::Group(ga), TokenTree::Group(gb)) = (a, b) {
        if ga.stream.trees@.len() == gb.stream.trees@.len() {
            lemma_prefix_rel_elementwise(ga.stream, gb.stream, ga.stream.trees@.len() as int, true);
            let (sa, sb) = (ga.stream, gb.stream);
            if tree_rel(a, b, true) {
                assert forall|i: int| 0 <= i < sa.trees@.len() implies #[trigger] tree_copy(
                    sa.trees@[i],
                    sb.trees@[i],
                ) by {
                    assert(tree_rel(sa.trees@[i], sb.trees@[i], true));
                }
            }
            if forall|i: int|
                0 <= i < sa.trees@.len() ==> #[trigger] tree_copy(sa.trees@[i], sb.trees@[i]) {
                assert forall|i: int| 0 <= i < sa.trees@.len() implies #[trigger] tree_rel(
                    sa.trees@[i],
                    sb.trees@[i],
                    true,
                ) by {
                    assert(tree_copy(sa.trees@[i], sb.trees@[i]));
                }
            }
        }
    }
}

/// Streams are equivalent exactly when they have the same length and their
/// trees are pairwise equivalent.
pub proof fn law_stream_equiv_elementwise(a: TokenStream, b: TokenStream)
    ensures
        stream_equiv(a, b) <==> a.trees@.len() == b.trees@.len() && forall|i: int|
            0 <= i < a.trees@.len() ==> #[trigger] tree_equiv(a.trees@[i], b.trees@[i]),
{
    lemma_stream_rel_elementwise(a, b, false);
    if stream_equiv(a, b) {
        assert forall|i: int| 0 <= i < a.trees@.len() implies #[trigger] tree_equiv(
            a.trees@[i],
            b.trees@[i],
        ) by {
            assert(tree_rel(a.trees@[i], b.trees@[i], false));
        }
    }
    if a.trees@.len() == b.trees@.len() && forall|i: int|
        0 <= i < a.trees@.len() ==> #[trigger] tree_equiv(a.trees@[i], b.trees@[i]) {
        assert forall|i: int| 0 <= i < a.trees@.len() implies #[trigger] tree_rel(
            a.trees@[i],
            b.trees@[i],
            false,
        ) by {
            assert(tree_equiv(a.trees@[i], b.trees@[i]));
        }
    }
}

/// A stream is a copy of another exactly when they have the same length and
/// each tree is a copy of the other's.
pub proof fn law_stream_copy_elementwise(a: TokenStream, b: TokenStream)
    ensures
        stream_copy(a, b) <==> a.trees@.len() == b.trees@.len() && forall|i: int|
            0 <= i < a.trees@.len() ==> #[trigger] tree_copy(a.trees@[i], b.trees@[i]),
{
    lemma_stream_rel_elementwise(a, b, true);
    if stream_copy(a, b) {
        assert forall|i: int| 0 <= i < a.trees@.len() implies #[trigger] tree_copy(
            a.trees@[i],
            b.trees@[i],
        ) by {
            assert(tree_rel(a.trees@[i], b.trees@[i], true));
        }
    }
    if a.trees@.len() == b.trees@.len() && forall|i: int|
        0 <= i < a.trees@.len() ==> #[trigger] tree_copy(a.trees@[i], b.trees@[i]) {
        assert forall|i: int| 0 <= i < a.trees@.len() implies #[trigger] tree_rel(
            a.trees@[i],
            b.trees@[i],
            true,
        ) by {
            assert(tree_copy(a.trees@[i], b.trees@[i]));
        }
    }
}

/// An identifier written with a leading `r#` is raw, whatever follows, and
/// its body is what follows; one written otherwise is not raw, and its body
/// is the whole text.
pub proof fn law_raw_prefix(text: Seq<char>, rest: Seq<char>)
    ensures
        is_raw_text(seq!['r', '#'] + rest),
        ident_body(seq!['r', '#'] + rest) == rest,
        !(text.len() >= 2 && text[0] == 'r' && text[1] == '#') ==> !is_raw_text(text)
            && ident_body(text) == text,
{
    assert((seq!['r', '#'] + rest).skip(2) =~= rest);
}

/// Identifier text of ASCII: text made of ASCII letters (either case),
/// digits and `_`, not empty and not starting with a digit, spells an
/// identifier that is not raw; with `r#` in front it spells a raw
/// identifier, unless it is `_`, `super`, `self`, `Self` or `crate`.
pub proof fn law_ascii_identifiers(text: Seq<char>)
    requires
        text.len() > 0,
        !('0' <= text[0] <= '9'),
        forall|i: int|
            0 <= i < text.len() ==> ('a' <= #[trigger] text[i] <= 'z') || ('A' <= text[i] <= 'Z')
                || ('0' <= text[i] <= '9') || text[i] == '_',
    ensures
        is_ident_text(text),
        !is_raw_text(text),
        text != seq!['_'] && text != seq!['s', 'u', 'p', 'e', 'r'] && text != seq!['s', 'e', 'l', 'f']
            && text != seq!['S', 'e', 'l', 'f'] && text != seq!['c', 'r', 'a', 't', 'e']
            ==> is_ident_text(seq!['r', '#'] + text),
{
    let raw = seq!['r', '#'] + text;
    assert(raw.skip(2) =~= text);
    if text.len() >= 2 {
        assert(text[1] != '#');
    }
}

/// Identifier text holds no ASCII character but letters, digits and `_`,
/// past the raw prefix: no whitespace and no punctuation; its body is not
/// empty and does not start with a digit; and a raw identifier is none of
/// `_`, `super`, `self`, `Self` and `crate`.
pub proof fn law_identifier_characters(text: Seq<char>)
    requires
        is_ident_text(text),
    ensures
        ident_body(text).len() > 0,
        !('0' <= ident_body(text)[0] <= '9'),
        forall|i: int|
            0 <= i < ident_body(text).len() && (#[trigger] ident_body(text)[i] as int) < 0x80 ==> (
            'a' <= ident_body(text)[i] <= 'z') || ('A' <= ident_body(text)[i] <= 'Z') || ('0'
                <= ident_body(text)[i] <= '9') || ident_body(text)[i] == '_',
        is_raw_text(text) ==> ident_body(text) != seq!['_'] && ident_body(text) != seq![
            's',
            'u',
            'p',
            'e',
            'r',
        ] && ident_body(text) != seq!['s', 'e', 'l', 'f'] && ident_body(text) != seq![
            'S',
            'e',
            'l',
            'f',
        ] && ident_body(text) != seq!['c', 'r', 'a', 't', 'e'],
{
}

/// The span of the macro invocation: `proc_macro2::Span::call_site`. Inside
/// a procedural macro this is the call site of the macro; elsewhere it is a
/// placeholder span. Which one comes back depends on the environment, so
/// nothing is stated of it.
#[verifier::external_body]
pub(crate) fn call_site() -> Span {
    Span::call_site()
}

/// A character that every escaper of literals writes as it is: printable
/// ASCII other than the quotes and the backslash.
pub open spec fn is_plain_char(c: char) -> bool {
    ' ' <= c <= '~' && c != '"' && c != '\'' && c != '\\'
}

/// A byte that every escaper of literals writes as it is, as a character.
pub open spec fn is_plain_byte(b: u8) -> bool {
    0x20 <= b <= 0x7e && b != 0x22 && b != 0x27 && b != 0x5c
}

/// `repr` is the text of a string literal holding `s`: it is quoted, what
/// stands between the quotes decodes to `s`, and where `s` holds only plain
/// characters it is `s` itself.
pub open spec fn is_string_literal_repr(repr: Seq<char>, s: Seq<char>) -> bool {
    &&& repr.len() >= 2
    &&& repr[0] == '"'
    &&& repr.last() == '"'
    &&& decodes_to(repr.subrange(1, repr.len() - 1), char_codes(s), '"', false)
    &&& (forall|i: int| 0 <= i < s.len() ==> is_plain_char(#[trigger] s[i])) ==> repr == seq!['"']
        + s + seq!['"']
}

/// `repr` is the text of a byte string literal holding `bytes`: it is
/// `b"..."`, what stands between the quotes decodes to `bytes`, and where
/// every byte is plain it is those bytes, as characters.
pub open spec fn is_byte_string_literal_repr(repr: Seq<char>, bytes: Seq<u8>) -> bool {
    &&& repr.len() >= 3
    &&& repr[0] == 'b'
    &&& repr[1] == '"'
    &&& repr.last() == '"'
    &&& decodes_to(repr.subrange(2, repr.len() - 1), byte_codes(bytes), '"', true)
    &&& (forall|i: int| 0 <= i < bytes.len() ==> is_plain_byte(#[trigger] bytes[i])) ==> {
        &&& repr.len() == bytes.len() + 3
        &&& forall|i: int| 0 <= i < bytes.len() ==> (#[trigger] repr[i + 2]) as u32 == bytes[i] as u32
    }
}

/// `repr` is the text of a character literal holding `c`: it is quoted with
/// `'`, what stands between the quotes decodes to `c`, and for a plain
/// character it is `c` itself.
pub open spec fn is_character_literal_repr(repr: Seq<char>, c: char) -> bool {
    &&& repr.len() >= 2
    &&& repr[0] == '\''
    &&& repr.last() == '\''
    &&& decodes_to(repr.subrange(1, repr.len() - 1), seq![c as int], '\'', false)
    &&& is_plain_char(c) ==> repr == seq!['\'', c, '\'']
}

/// `repr` is the text of a byte character literal holding `b`: it is
/// `b'...'`, what stands between the quotes decodes to `b`, and for a plain
/// byte it is that byte, as a character.
pub open spec fn is_byte_character_literal_repr(repr: Seq<char>, b: u8) -> bool {
    &&& repr.len() >= 3
    &&& repr[0] == 'b'
    &&& repr[1] == '\''
    &&& repr.last() == '\''
    &&& decodes_to(repr.subrange(2, repr.len() - 1), seq![b as int], '\'', true)
    &&& is_plain_byte(b) ==> repr.len() == 4 && repr[2] as u32 == b as u32
}

/// The source text of a string literal holding `s`:
/// `proc_macro2::Literal::string(s).to_string()`. The text is `s` between
/// double quotes, escaped by proc-macro2 or, inside a procedural macro, by
/// the compiler; stated is that it is quoted, that it decodes to `s`, and
/// that plain characters are kept as they are. Which escape each other
/// character gets is left unsaid, since it depends on which of the two
/// escapes it.
#[verifier::external_body]
pub(crate) fn string_literal_repr(s: &str) -> (r: String)
    ensures
        is_string_literal_repr(r@, s@),
{
    proc_macro2::Literal::string(s).to_string()
}

/// The source text of a byte string literal holding `bytes`:
/// `proc_macro2::Literal::byte_string(bytes).to_string()`. Stated is the
/// `b"..."` form, that it decodes to `bytes`, and that plain bytes are kept
/// as they are; which escape each other byte gets depends on whether the
/// code runs inside a procedural macro, and is left unsaid.
#[verifier::external_body]
pub(crate) fn byte_string_literal_repr(bytes: &[u8]) -> (r: String)
    ensures
        is_byte_string_literal_repr(r@, bytes@),
{
    proc_macro2::Literal::byte_string(bytes).to_string()
}

/// The source text of a character literal holding `c`:
/// `proc_macro2::Literal::character(c).to_string()`. Stated is the quoting,
/// that it decodes to `c`, and that a plain character stands as it is;
/// which escape another character gets depends on whether the code runs
/// inside a procedural macro, and is left unsaid.
#[verifier::external_body]
pub(crate) fn character_literal_repr(c: char) -> (r: String)
    ensures
        is_character_literal_repr(r@, c),
{
    proc_macro2::Literal::character(c).to_string()
}

/// The source text of a byte character literal holding `byte`:
/// `proc_macro2::Literal::byte_character(byte).to_string()`. Stated is the
/// `b'...'` form, that it decodes to `byte`, and that a plain byte stands as
/// it is; which escape another byte gets depends on whether the code runs
/// inside a procedural macro, and is left unsaid.
#[verifier::external_body]
pub(crate) fn byte_character_literal_repr(byte: u8) -> (r: String)
    ensures
        is_byte_character_literal_repr(r@, byte),
{
    proc_macro2::Literal::byte_character(byte).to_string()
}

/// Copies a token tree, spans and all.
pub fn clone_tree(t: &TokenTree) -> (r: TokenTree)
    ensures
        tree_copy(r, *t),
    decreases *t,
{
    match t {
        TokenTree::Group(g) => {
            let stream = clone_stream(&g.stream);
            proof {
                lemma_stream_rel_elementwise(stream, g.stream, true);
                lemma_prefix_rel_elementwise(
                    stream,
                    g.stream,
                    stream.trees@.len() as int,
                    true,
                );
            }
            TokenTree::Group(Group { delimiter: g.delimiter, stream, span: g.span })
        },
        TokenTree::Ident(i) => TokenTree::Ident(Ident { text: i.text.clone(), span: i.span }),
        TokenTree::Punct(p) => TokenTree::Punct(
            Punct { ch: p.ch, spacing: p.spacing, span: p.span },
        ),
        TokenTree::Literal(l) => TokenTree::Literal(Literal { repr: l.repr.clone(), span: l.span }),
    }
}

/// Copies a token stream, spans and all.
pub fn clone_stream(s: &TokenStream) -> (r: TokenStream)
    ensures
        stream_copy(r, *s),
    decreases *s,
{
    let n = s.trees.len();
    let mut trees: Vec<TokenTree> = Vec::new();
    let mut i: usize = 0;
    while i < n
        invariant
            n == s.trees@.len(),
            0 <= i <= n,
            trees@.len() == i,
            forall|j: int| 0 <= j < i ==> #[trigger] tree_rel(trees@[j], s.trees@[j], true),
        decreases n - i,
    {
        proof {
            assert(decreases_to!(*s => s.trees));
            assert(decreases_to!(s.trees => s.trees@));
            assert(decreases_to!(s.trees@ => s.trees@[i as int]));
        }
        let t = clone_tree(&s.trees[i]);
        trees.push(t);
        i = i + 1;
    }
    let r = TokenStream { trees };
    proof {
        lemma_stream_rel_elementwise(r, *s, true);
    }
    r
}

impl Clone for TokenTree {
    fn clone(&self) -> (r: Self)
        ensures
            tree_copy(r, *self),
    {
        clone_tree(self)
    }
}

impl Clone for TokenStream {
    fn clone(&self) -> (r: Self)
        ensures
            stream_copy(r, *self),
    {
        clone_stream(self)
    }
}

impl Clone for Group {
    fn clone(&self) -> (r: Self)
        ensures
            r.delimiter == self.delimiter,
            r.span == self.span,
            stream_copy(r.stream, self.stream),
    {
        Group { delimiter: self.delimiter, stream: clone_stream(&self.stream), span: self.span }
    }
}

impl Clone for Ident {
    fn clone(&self) -> (r: Self)
        ensures
            r == *self,
    {
        Ident { text: self.text.clone(), span: self.span }
    }
}

impl Clone for Punct {
    fn clone(&self) -> (r: Self)
        ensures
            r == *self,
    {
        Punct { ch: self.ch, spacing: self.spacing, span: self.span }
    }
}

impl Clone for Literal {
    fn clone(&self) -> (r: Self)
        ensures
            r == *self,
    {
        Literal { repr: self.repr.clone(), span: self.span }
    }
}


impl From<Group> for TokenTree {
    fn from(g: Group) -> Self {
        TokenTree::Group(g)
    }
}

impl vstd::std_specs::convert::FromSpecImpl<Group> for TokenTree {
    open spec fn obeys_from_spec() -> bool {
        true
    }

    open spec fn from_spec(v: Group) -> Self {
        TokenTree::Group(v)
    }
}

impl From<Ident> for TokenTree {
    fn from(i: Ident) -> Self {
        TokenTree::Ident(i)
    }
}

impl vstd::std_specs::convert::FromSpecImpl<Ident> for TokenTree {
    open spec fn obeys_from_spec() -> bool {
        true
    }

    open spec fn from_spec(v: Ident) -> Self {
        TokenTree::Ident(v)
    }
}

impl From<Punct> for TokenTree {
    fn from(p: Punct) -> Self {
        TokenTree::Punct(p)
    }
}

impl vstd::std_specs::convert::FromSpecImpl<Punct> for TokenTree {
    open spec fn obeys_from_spec() -> bool {
        true
    }

    open spec fn from_spec(v: Punct) -> Self {
        TokenTree::Punct(v)
    }
}

impl From<Literal> for TokenTree {
    fn from(l: Literal) -> Self {
        TokenTree::Literal(l)
    }
}

impl vstd::std_specs::convert::FromSpecImpl<Literal> for TokenTree {
    open spec fn obeys_from_spec() -> bool {
        true
    }

    open spec fn from_spec(v: Literal) -> Self {
        TokenTree::Literal(v)
    }
}

/// The characters that a punct may hold.
pub open spec fn is_punct_char(c: char) -> bool {
    c == '!' || c == '#' || c == '$' || c == '%' || c == '&' || c == '\'' || c == '*' || c
        == '+' || c == ',' || c == '-' || c == '.' || c == '/' || c == ':' || c == ';' || c
        == '<' || c == '=' || c == '>' || c == '?' || c == '@' || c == '^' || c == '|' || c
        == '~'
}

impl TokenStream {
    /// Returns an empty token stream.
    pub fn new() -> (r: TokenStream)
        ensures
            r.trees@.len() == 0,
    {
        TokenStream { trees: Vec::new() }
    }

    /// Returns `true` if the stream holds no trees.
    pub fn is_empty(&self) -> (r: bool)
        ensures
            r == (self.trees@.len() == 0),
    {
        self.trees.len() == 0
    }

    /// Returns the number of trees in the stream.
    pub fn len(&self) -> (r: usize)
        ensures
            r == self.trees@.len(),
    {
        self.trees.len()
    }
}

impl Group {
    /// Constructs a group with `Span::call_site()` as its span.
    pub fn new(delimiter: Delimiter, stream: TokenStream) -> (r: Group)
        ensures
            r.delimiter == delimiter,
            r.stream == stream,
    {
        Group { delimiter, stream, span: call_site() }
    }

    /// Returns the delimiter of the group.
    pub fn delimiter(&self) -> (r: Delimiter)
        ensures
            r == self.delimiter,
    {
        self.delimiter
    }

    /// Returns a copy of the delimited stream.
    pub fn stream(&self) -> (r: TokenStream)
        ensures
            stream_copy(r, self.stream),
    {
        clone_stream(&self.stream)
    }

    /// Returns the span of the group.
    pub fn span(&self) -> (r: Span)
        ensures
            r == self.span,
    {
        self.span
    }

    /// Sets the span of the group.
    pub fn set_span(&mut self, span: Span)
        ensures
            final(self).span == span,
            final(self).delimiter == old(self).delimiter,
            final(self).stream == old(self).stream,
    {
        self.span = span;
    }
}

/// Returns `true` if `text` spells an identifier, as `is_ident_text` says.
pub fn is_ident(text: &str) -> (r: bool)
    ensures
        r == is_ident_text(text@),
{
    let n = text.unicode_len();
    let raw = n >= 2 && text.get_char(0) == 'r' && text.get_char(1) == '#';
    let start: usize = if raw { 2 } else { 0 };
    let ghost body = ident_body(text@);
    assert(body =~= text@.skip(start as int));
    if start >= n {
        return false;
    }
    let first = text.get_char(start);
    assert(body[0] == first);
    if '0' <= first && first <= '9' {
        return false;
    }
    let mut i: usize = start;
    while i < n
        invariant
            start <= i <= n,
            n == text@.len(),
            body == ident_body(text@),
            body =~= text@.skip(start as int),
            forall|j: int|
                0 <= j < i - start ==> (body[j] as int) >= 0x80 || is_ident_ascii(#[trigger] body[j]),
        decreases n - i,
    {
        let c = text.get_char(i);
        let ascii_ok = ('a' <= c && c <= 'z') || ('A' <= c && c <= 'Z') || ('0' <= c && c <= '9')
            || c == '_';
        if c < '\u{80}' && !ascii_ok {
            assert(body[i - start] == c);
            return false;
        }
        i = i + 1;
    }
    if raw {
        !is_reserved_raw(text, start)
    } else {
        true
    }
}

/// Returns `true` if `text` from index `start` on is a reserved raw word.
fn is_reserved_raw(text: &str, start: usize) -> (r: bool)
    requires
        start <= text@.len(),
    ensures
        r == is_reserved_raw_word(text@.skip(start as int)),
{
    let n = text.unicode_len();
    let len = n - start;
    let ghost word = text@.skip(start as int);
    assert(seq!['_'].len() == 1 && seq!['s', 'e', 'l', 'f'].len() == 4 && seq!['S', 'e', 'l', 'f'].len()
        == 4 && seq!['s', 'u', 'p', 'e', 'r'].len() == 5 && seq!['c', 'r', 'a', 't', 'e'].len() == 5);
    assert(seq!['_'][0] == '_');
    assert(seq!['s', 'e', 'l', 'f'][0] == 's' && seq!['s', 'e', 'l', 'f'][1] == 'e'
        && seq!['s', 'e', 'l', 'f'][2] == 'l' && seq!['s', 'e', 'l', 'f'][3] == 'f');
    assert(seq!['S', 'e', 'l', 'f'][0] == 'S' && seq!['S', 'e', 'l', 'f'][1] == 'e'
        && seq!['S', 'e', 'l', 'f'][2] == 'l' && seq!['S', 'e', 'l', 'f'][3] == 'f');
    assert(seq!['s', 'u', 'p', 'e', 'r'][0] == 's' && seq!['s', 'u', 'p', 'e', 'r'][1] == 'u'
        && seq!['s', 'u', 'p', 'e', 'r'][2] == 'p' && seq!['s', 'u', 'p', 'e', 'r'][3] == 'e'
        && seq!['s', 'u', 'p', 'e', 'r'][4] == 'r');
    assert(seq!['c', 'r', 'a', 't', 'e'][0] == 'c' && seq!['c', 'r', 'a', 't', 'e'][1] == 'r'
        && seq!['c', 'r', 'a', 't', 'e'][2] == 'a' && seq!['c', 'r', 'a', 't', 'e'][3] == 't'
        && seq!['c', 'r', 'a', 't', 'e'][4] == 'e');
    if len == 1 {
        let c0 = text.get_char(start);
        assert(word =~= seq![c0]);
        c0 == '_'
    } else if len == 4 {
        let c0 = text.get_char(start);
        let c1 = text.get_char(start + 1);
        let c2 = text.get_char(start + 2);
        let c3 = text.get_char(start + 3);
        assert(word =~= seq![c0, c1, c2, c3]);
        (c0 == 's' || c0 == 'S') && c1 == 'e' && c2 == 'l' && c3 == 'f'
    } else if len == 5 {
        let c0 = text.get_char(start);
        let c1 = text.get_char(start + 1);
        let c2 = text.get_char(start + 2);
        let c3 = text.get_char(start + 3);
        let c4 = text.get_char(start + 4);
        assert(word =~= seq![c0, c1, c2, c3, c4]);
        (c0 == 's' && c1 == 'u' && c2 == 'p' && c3 == 'e' && c4 == 'r') || (c0 == 'c' && c1 == 'r'
            && c2 == 'a' && c3 == 't' && c4 == 'e')
    } else {
        false
    }
}

impl Ident {
    /// Constructs an identifier spelled `text` (with a leading `r#` for a raw
    /// identifier).
    pub fn new(text: &str, span: Span) -> (r: Ident)
        requires
            is_ident_text(text@),
        ensures
            r.text@ == text@,
            r.span == span,
    {
        Ident { text: String::from_str(text), span }
    }

    /// Returns the span of the identifier.
    pub fn span(&self) -> (r: Span)
        ensures
            r == self.span,
    {
        self.span
    }

    /// Sets the span of the identifier.
    pub fn set_span(&mut self, span: Span)
        ensures
            final(self).span == span,
            final(self).text == old(self).text,
    {
        self.span = span;
    }

    /// Returns the identifier as written.
    pub fn to_string(&self) -> (r: String)
        ensures
            r@ == self.text@,
    {
        self.text.clone()
    }
}

impl Punct {
    /// Constructs a punct with `Span::call_site()` as its span.
    pub fn new(ch: char, spacing: Spacing) -> (r: Punct)
        requires
            is_punct_char(ch),
        ensures
            r.ch == ch,
            r.spacing == spacing,
    {
        Punct { ch, spacing, span: call_site() }
    }

    /// Returns the punctuation character.
    pub fn as_char(&self) -> (r: char)
        ensures
            r == self.ch,
    {
        self.ch
    }

    /// Returns the spacing of the punct.
    pub fn spacing(&self) -> (r: Spacing)
        ensures
            r == self.spacing,
    {
        self.spacing
    }

    /// Returns the span of the punct.
    pub fn span(&self) -> (r: Span)
        ensures
            r == self.span,
    {
        self.span
    }

    /// Sets the span of the punct.
    pub fn set_span(&mut self, span: Span)
        ensures
            final(self).span == span,
            final(self).ch == old(self).ch,
            final(self).spacing == old(self).spacing,
    {
        self.span = span;
    }
}

impl Literal {
    /// Constructs a literal from its source text, which is taken as given.
    pub fn from_repr(repr: &str, span: Span) -> (r: Literal)
        ensures
            r.repr@ == repr@,
            r.span == span,
    {
        Literal { repr: String::from_str(repr), span }
    }

    /// Returns the span of the literal.
    pub fn span(&self) -> (r: Span)
        ensures
            r == self.span,
    {
        self.span
    }

    /// Sets the span of the literal.
    pub fn set_span(&mut self, span: Span)
        ensures
            final(self).span == span,
            final(self).repr == old(self).repr,
    {
        self.span = span;
    }

    /// Returns the source text of the literal.
    pub fn to_string(&self) -> (r: String)
        ensures
            r@ == self.repr@,
    {
        self.repr.clone()
    }
}

/// The span of a token tree.
pub open spec fn tree_span(t: TokenTree) -> Span {
    match t {
        TokenTree::Group(g) => g.span,
        TokenTree::Ident(i) => i.span,
        TokenTree::Punct(p) => p.span,
        TokenTree::Literal(l) => l.span,
    }
}

impl TokenTree {
    /// Returns the span of this tree.
    pub fn span(&self) -> (r: Span)
        ensures
            r == tree_span(*self),
    {
        match self {
            TokenTree::Group(g) => g.span,
            TokenTree::Ident(i) => i.span,
            TokenTree::Punct(p) => p.span,
            TokenTree::Literal(l) => l.span,
        }
    }
}

} // verus!
