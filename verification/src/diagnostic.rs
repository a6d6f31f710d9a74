//! Diagnostic messages.
use proc_macro2::Span;
use vstd::prelude::*;

use crate::escape::{char_codes, decodes_to};
use crate::token::{
    is_plain_char, is_string_literal_repr, lemma_stream_rel_elementwise, stream_copy, stream_rel,
    string_literal_repr, tree_copy, tree_rel, Delimiter, Group, Ident, Literal, Punct, Spacing,
    TokenStream, TokenTree,
};

verus! {

/// `r` is the token stream `::core::compile_error! { "..." }` whose string
/// literal holds `message`: every token but the braces is spanned by
/// `start`; the braces and the string literal are spanned by `end`.
pub open spec fn is_compile_error(
    r: TokenStream,
    start: Span,
    end: Span,
    message: Seq<char>,
) -> bool {
    let t = r.trees@;
    &&& t.len() == 8
    &&& t[0] == TokenTree::Punct(Punct { ch: ':', spacing: Spacing::Joint, span: start })
    &&& t[1] == TokenTree::Punct(Punct { ch: ':', spacing: Spacing::Alone, span: start })
    &&& t[2] is Ident && t[2]->Ident_0.text@ == seq!['c', 'o', 'r', 'e'] && t[2]->Ident_0.span
        == start
    &&& t[3] == TokenTree::Punct(Punct { ch: ':', spacing: Spacing::Joint, span: start })
    &&& t[4] == TokenTree::Punct(Punct { ch: ':', spacing: Spacing::Alone, span: start })
    &&& t[5] is Ident && t[5]->Ident_0.text@ == seq![
        'c',
        'o',
        'm',
        'p',
        'i',
        'l',
        'e',
        '_',
        'e',
        'r',
        'r',
        'o',
        'r',
    ] && t[5]->Ident_0.span == start
    &&& t[6] == TokenTree::Punct(Punct { ch: '!', spacing: Spacing::Alone, span: start })
    &&& t[7] is Group && t[7]->Group_0.delimiter == Delimiter::Brace && t[7]->Group_0.span == end
        && t[7]->Group_0.stream.trees@.len() == 1 && t[7]->Group_0.stream.trees@[0] is Literal
        && t[7]->Group_0.stream.trees@[0]->Literal_0.span == end
        && is_string_literal_repr(t[7]->Group_0.stream.trees@[0]->Literal_0.repr@, message)
}

/// A compile-error stream is fixed by its spans and its message: two such
/// streams agree, spans included, on every token but the text of the string
/// literal, and both literals stand for the message. Where the message holds
/// only plain characters the literal's text agrees too, and the streams are
/// copies of each other. So `error(span, m)` gives the tokens of
/// `error_ranged(span, span, m)`, and `Parser::error` those of `error` at
/// the parser's span.
pub proof fn law_compile_error_fixed_by_message(
    a: TokenStream,
    b: TokenStream,
    start: Span,
    end: Span,
    message: Seq<char>,
)
    requires
        is_compile_error(a, start, end, message),
        is_compile_error(b, start, end, message),
    ensures
        forall|i: int| 0 <= i < 7 ==> #[trigger] tree_copy(a.trees@[i], b.trees@[i]),
        a.trees@[7]->Group_0.delimiter == b.trees@[7]->Group_0.delimiter,
        a.trees@[7]->Group_0.span == b.trees@[7]->Group_0.span,
        a.trees@[7]->Group_0.stream.trees@[0]->Literal_0.span
            == b.trees@[7]->Group_0.stream.trees@[0]->Literal_0.span,
        decodes_to(
            a.trees@[7]->Group_0.stream.trees@[0]->Literal_0.repr@.subrange(
                1,
                a.trees@[7]->Group_0.stream.trees@[0]->Literal_0.repr@.len() - 1,
            ),
            char_codes(message),
            '"',
            false,
        ),
        decodes_to(
            b.trees@[7]->Group_0.stream.trees@[0]->Literal_0.repr@.subrange(
                1,
                b.trees@[7]->Group_0.stream.trees@[0]->Literal_0.repr@.len() - 1,
            ),
            char_codes(message),
            '"',
            false,
        ),
        (forall|i: int| 0 <= i < message.len() ==> is_plain_char(#[trigger] message[i]))
            ==> stream_copy(a, b),
{
    assert forall|i: int| 0 <= i < 7 implies #[trigger] tree_copy(a.trees@[i], b.trees@[i]) by {
        assert(0 <= i < 7);
    }
    if forall|i: int| 0 <= i < message.len() ==> is_plain_char(#[trigger] message[i]) {
        let ga = a.trees@[7]->Group_0;
        let gb = b.trees@[7]->Group_0;
        lemma_stream_rel_elementwise(ga.stream, gb.stream, true);
        assert(tree_rel(ga.stream.trees@[0], gb.stream.trees@[0], true));
        assert(stream_rel(ga.stream, gb.stream, true));
        assert(tree_rel(a.trees@[7], b.trees@[7], true));
        lemma_stream_rel_elementwise(a, b, true);
        assert forall|i: int| 0 <= i < a.trees@.len() implies #[trigger] tree_rel(
            a.trees@[i],
            b.trees@[i],
            true,
        ) by {
            if i < 7 {
                assert(tree_copy(a.trees@[i], b.trees@[i]));
            }
        }
    }
}

/// Returns a token stream holding `::core::compile_error!` with `message`,
/// spanned by `span`.
pub fn error(span: Span, message: &str) -> (r: TokenStream)
    ensures
        is_compile_error(r, span, span, message@),
{
    error_ranged(span, span, message)
}

/// Returns a token stream holding `::core::compile_error!` with `message`,
/// spanning `start` to `end`.
pub fn error_ranged(start: Span, end: Span, message: &str) -> (r: TokenStream)
    ensures
        is_compile_error(r, start, end, message@),
{
    let mut trees: Vec<TokenTree> = Vec::new();
    trees.push(TokenTree::Punct(Punct { ch: ':', spacing: Spacing::Joint, span: start }));
    trees.push(TokenTree::Punct(Punct { ch: ':', spacing: Spacing::Alone, span: start }));
    let core = String::from_str("core");
    proof {
        reveal_strlit("core");
        assert(core@ =~= seq!['c', 'o', 'r', 'e']);
    }
    trees.push(TokenTree::Ident(Ident { text: core, span: start }));
    trees.push(TokenTree::Punct(Punct { ch: ':', spacing: Spacing::Joint, span: start }));
    trees.push(TokenTree::Punct(Punct { ch: ':', spacing: Spacing::Alone, span: start }));
    let macro_name = String::from_str("compile_error");
    proof {
        reveal_strlit("compile_error");
        assert(macro_name@ =~= seq![
            'c',
            'o',
            'm',
            'p',
            'i',
            'l',
            'e',
            '_',
            'e',
            'r',
            'r',
            'o',
            'r',
        ]);
    }
    trees.push(TokenTree::Ident(Ident { text: macro_name, span: start }));
    trees.push(TokenTree::Punct(Punct { ch: '!', spacing: Spacing::Alone, span: start }));
    let literal = Literal { repr: string_literal_repr(message), span: end };
    let mut inner: Vec<TokenTree> = Vec::new();
    inner.push(TokenTree::Literal(literal));
    let group = Group {
        delimiter: Delimiter::Brace,
        stream: TokenStream { trees: inner },
        span: end,
    };
    trees.push(TokenTree::Group(group));
    let r = TokenStream { trees };
    assert(r.trees@[7]->Group_0.stream.trees@.len() == 1);
    r
}

} // verus!
