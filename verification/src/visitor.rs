//! Visit tokens.
use vstd::prelude::*;

use crate::extension::TokenStreamExt;
use crate::parser::Parser;
use crate::token::{
    lemma_stream_rel_elementwise, lemma_tree_rel_reflexive, tree_copy, tree_rel, Group, Ident,
    Literal, Punct, TokenStream, TokenTree,
};

verus! {

/// Traverses tokens, calling the visit method for each one.
///
/// Each method may take further trees from `parser`, but must not put trees
/// back: the remaining trees may only get fewer. That is what makes a visit
/// of a stream end, since each step takes at least the tree it visits.
///
/// An implementation writes all six methods. The free functions of this
/// module (`visit_stream`, `visit_tree`, ...) are the default actions; an
/// implementation of its own type calls them for what it leaves alone
/// (`Identity` below writes them out instead, as a type of this crate
/// cannot hand itself to them).
///
/// Each `visits_*` spec function says what the matching method does; a
/// verified implementation may state it, and by default nothing is stated.
pub trait Visitor {
    /// What `visit_tree` does on this visitor: it holds of the visitor, the
    /// output and the remaining trees before (`self`, `output`, `parser`) and
    /// after (`after`, `output_after`, `parser_after`) a visit of `tree`.
    open spec fn visits_tree(
        &self,
        after: &Self,
        output: TokenStream,
        output_after: TokenStream,
        tree: TokenTree,
        parser: Seq<TokenTree>,
        parser_after: Seq<TokenTree>,
    ) -> bool {
        true
    }

    /// What `visit_group` does on this visitor: it holds of the visitor, the
    /// output and the remaining trees before (`self`, `output`, `parser`) and
    /// after (`after`, `output_after`, `parser_after`) a visit of `group`.
    open spec fn visits_group(
        &self,
        after: &Self,
        output: TokenStream,
        output_after: TokenStream,
        group: Group,
        parser: Seq<TokenTree>,
        parser_after: Seq<TokenTree>,
    ) -> bool {
        true
    }

    /// What `visit_ident` does on this visitor: it holds of the visitor, the
    /// output and the remaining trees before (`self`, `output`, `parser`) and
    /// after (`after`, `output_after`, `parser_after`) a visit of `ident`.
    open spec fn visits_ident(
        &self,
        after: &Self,
        output: TokenStream,
        output_after: TokenStream,
        ident: Ident,
        parser: Seq<TokenTree>,
        parser_after: Seq<TokenTree>,
    ) -> bool {
        true
    }

    /// What `visit_punct` does on this visitor: it holds of the visitor, the
    /// output and the remaining trees before (`self`, `output`, `parser`) and
    /// after (`after`, `output_after`, `parser_after`) a visit of `punct`.
    open spec fn visits_punct(
        &self,
        after: &Self,
        output: TokenStream,
        output_after: TokenStream,
        punct: Punct,
        parser: Seq<TokenTree>,
        parser_after: Seq<TokenTree>,
    ) -> bool {
        true
    }

    /// What `visit_literal` does on this visitor: it holds of the visitor, the
    /// output and the remaining trees before (`self`, `output`, `parser`) and
    /// after (`after`, `output_after`, `parser_after`) a visit of `literal`.
    open spec fn visits_literal(
        &self,
        after: &Self,
        output: TokenStream,
        output_after: TokenStream,
        literal: Literal,
        parser: Seq<TokenTree>,
        parser_after: Seq<TokenTree>,
    ) -> bool {
        true
    }

    /// What `visit_stream` does on this visitor: it holds of the visitor and
    /// the output before (`self`, `output`) and after (`after`,
    /// `output_after`) a visit of `stream`.
    open spec fn visits_stream(
        &self,
        after: &Self,
        output: TokenStream,
        output_after: TokenStream,
        stream: TokenStream,
    ) -> bool {
        true
    }

    /// Invoked when a token stream is encountered.
    fn visit_stream(&mut self, output: &mut TokenStream, stream: TokenStream)
        ensures
            old(self).visits_stream(final(self), *old(output), *final(output), stream),
    ;

    /// Invoked when a token tree is encountered; the trees that follow it
    /// are in `parser`.
    fn visit_tree(&mut self, output: &mut TokenStream, tree: TokenTree, parser: &mut Parser)
        ensures
            final(parser)@.len() <= old(parser)@.len(),
            old(self).visits_tree(
                final(self),
                *old(output),
                *final(output),
                tree,
                old(parser)@,
                final(parser)@,
            ),
    ;

    /// Invoked when a group is encountered; the trees that follow it are in
    /// `parser`.
    fn visit_group(&mut self, output: &mut TokenStream, group: Group, parser: &mut Parser)
        ensures
            final(parser)@.len() <= old(parser)@.len(),
            old(self).visits_group(
                final(self),
                *old(output),
                *final(output),
                group,
                old(parser)@,
                final(parser)@,
            ),
    ;

    /// Invoked when an ident is encountered; the trees that follow it are in
    /// `parser`.
    fn visit_ident(&mut self, output: &mut TokenStream, ident: Ident, parser: &mut Parser)
        ensures
            final(parser)@.len() <= old(parser)@.len(),
            old(self).visits_ident(
                final(self),
                *old(output),
                *final(output),
                ident,
                old(parser)@,
                final(parser)@,
            ),
    ;

    /// Invoked when a punct is encountered; the trees that follow it are in
    /// `parser`.
    fn visit_punct(&mut self, output: &mut TokenStream, punct: Punct, parser: &mut Parser)
        ensures
            final(parser)@.len() <= old(parser)@.len(),
            old(self).visits_punct(
                final(self),
                *old(output),
                *final(output),
                punct,
                old(parser)@,
                final(parser)@,
            ),
    ;

    /// Invoked when a literal is encountered; the trees that follow it are
    /// in `parser`.
    fn visit_literal(&mut self, output: &mut TokenStream, literal: Literal, parser: &mut Parser)
        ensures
            final(parser)@.len() <= old(parser)@.len(),
            old(self).visits_literal(
                final(self),
                *old(output),
                *final(output),
                literal,
                old(parser)@,
                final(parser)@,
            ),
    ;
}

/// A visit of a stream, state by state: before the `i`-th step the visitor
/// is `visitors[i]`, the output `outputs[i]` and the trees still to visit
/// `remaining[i]`; the step hands `remaining[i][0]` to `visit_tree` with the
/// trees that follow it, and leaves the states `i + 1`. No tree remains at
/// the last state.
pub open spec fn is_stream_visit<'a, V: Visitor + ?Sized>(
    visitors: Seq<&'a V>,
    outputs: Seq<TokenStream>,
    remaining: Seq<Seq<TokenTree>>,
) -> bool {
    let n = visitors.len();
    &&& n >= 1
    &&& outputs.len() == n
    &&& remaining.len() == n
    &&& remaining[n - 1].len() == 0
    &&& forall|i: int| 0 <= i < n - 1 ==> #[trigger] remaining[i].len() > 0
    &&& forall|i: int|
        0 <= i < n - 1 ==> #[trigger] visitors[i].visits_tree(
            visitors[i + 1],
            outputs[i],
            outputs[i + 1],
            remaining[i][0],
            remaining[i].drop_first(),
            remaining[i + 1],
        )
}

/// Default action on a token stream: hands its trees, in order, to
/// `visit_tree`, each with the trees that follow it.
pub fn visit_stream<V>(visitor: &mut V, output: &mut TokenStream, stream: TokenStream) where
    V: Visitor + ?Sized,
    ensures
        exists|visitors: Seq<&V>, outputs: Seq<TokenStream>, remaining: Seq<Seq<TokenTree>>| #[trigger]
            is_stream_visit(visitors, outputs, remaining) && visitors[0] == &*old(visitor)
                && outputs[0] == *old(output) && remaining[0] == stream.trees@
                && visitors.last() == &*final(visitor) && outputs.last() == *final(output),
{
    let ghost trees = stream.trees@;
    let mut parser = Parser::new(stream);
    let ghost mut visitors: Seq<&V> = seq![&*visitor];
    let ghost mut outputs: Seq<TokenStream> = seq![*output];
    let ghost mut remaining: Seq<Seq<TokenTree>> = seq![trees];
    while !parser.is_empty()
        invariant
            visitors.len() >= 1,
            outputs.len() == visitors.len(),
            remaining.len() == visitors.len(),
            visitors[0] == &*old(visitor),
            outputs[0] == *old(output),
            remaining[0] == trees,
            visitors.last() == &*visitor,
            outputs.last() == *output,
            remaining.last() == parser@,
            forall|i: int| 0 <= i < visitors.len() - 1 ==> #[trigger] remaining[i].len() > 0,
            forall|i: int|
                0 <= i < visitors.len() - 1 ==> #[trigger] visitors[i].visits_tree(
                    visitors[i + 1],
                    outputs[i],
                    outputs[i + 1],
                    remaining[i][0],
                    remaining[i].drop_first(),
                    remaining[i + 1],
                ),
        decreases parser@.len(),
    {
        let ghost before = parser@;
        let ghost v_before: &V = &*visitor;
        let ghost out_before = *output;
        let tree = parser.next_tree().unwrap();
        let ghost rest = parser@;
        let ghost t = tree;
        visitor.visit_tree(output, tree, &mut parser);
        proof {
            assert(v_before.visits_tree(&*visitor, out_before, *output, t, rest, parser@));
            let ghost pv = visitors;
            let ghost po = outputs;
            let ghost pr = remaining;
            visitors = visitors.push(&*visitor);
            outputs = outputs.push(*output);
            remaining = remaining.push(parser@);
            assert forall|i: int| 0 <= i < visitors.len() - 1 implies #[trigger] remaining[
                i
            ].len() > 0 by {
                if i < pv.len() - 1 {
                    assert(remaining[i] == pr[i]);
                } else {
                    assert(remaining[i] == before);
                }
            }
            assert forall|i: int| 0 <= i < visitors.len() - 1 implies #[trigger] visitors[i].visits_tree(
                visitors[i + 1],
                outputs[i],
                outputs[i + 1],
                remaining[i][0],
                remaining[i].drop_first(),
                remaining[i + 1],
            ) by {
                if i < pv.len() - 1 {
                    assert(visitors[i] == pv[i]);
                    assert(visitors[i + 1] == pv[i + 1]);
                    assert(pv[i].visits_tree(
                        pv[i + 1],
                        po[i],
                        po[i + 1],
                        pr[i][0],
                        pr[i].drop_first(),
                        pr[i + 1],
                    ));
                } else {
                    assert(i == pv.len() - 1);
                    assert(remaining[i] == before);
                    assert(before.drop_first() == rest);
                }
            }
        }
    }
    assert(remaining[remaining.len() - 1].len() == 0);
    assert(is_stream_visit(visitors, outputs, remaining));
}

/// Default action on a token tree: hands it to the visit method of its kind.
pub fn visit_tree<V>(visitor: &mut V, output: &mut TokenStream, tree: TokenTree, parser: &mut Parser) where
    V: Visitor + ?Sized,
    ensures
        final(parser)@.len() <= old(parser)@.len(),
        match tree {
            TokenTree::Group(group) => old(visitor).visits_group(
                final(visitor),
                *old(output),
                *final(output),
                group,
                old(parser)@,
                final(parser)@,
            ),
            TokenTree::Ident(ident) => old(visitor).visits_ident(
                final(visitor),
                *old(output),
                *final(output),
                ident,
                old(parser)@,
                final(parser)@,
            ),
            TokenTree::Punct(punct) => old(visitor).visits_punct(
                final(visitor),
                *old(output),
                *final(output),
                punct,
                old(parser)@,
                final(parser)@,
            ),
            TokenTree::Literal(literal) => old(visitor).visits_literal(
                final(visitor),
                *old(output),
                *final(output),
                literal,
                old(parser)@,
                final(parser)@,
            ),
        },
{
    match tree {
        TokenTree::Group(group) => visitor.visit_group(output, group, parser),
        TokenTree::Ident(ident) => visitor.visit_ident(output, ident, parser),
        TokenTree::Punct(punct) => visitor.visit_punct(output, punct, parser),
        TokenTree::Literal(literal) => visitor.visit_literal(output, literal, parser),
    }
}

/// Default action on a group: visits its stream, by `visit_stream`, into a
/// new empty stream, and appends a group of the visited stream with the same
/// delimiter and span.
pub fn visit_group<V>(visitor: &mut V, output: &mut TokenStream, group: Group, parser: &mut Parser) where
    V: Visitor + ?Sized,
    ensures
        final(parser)@ == old(parser)@,
        exists|empty: TokenStream, inner: TokenStream| #[trigger]
            old(visitor).visits_stream(final(visitor), empty, inner, group.stream)
                && empty.trees@.len() == 0 && final(output).trees@ == old(output).trees@.push(
                TokenTree::Group(Group { delimiter: group.delimiter, stream: inner, span: group.span }),
            ),
{
    let mut inner = TokenStream::new();
    let ghost empty = inner;
    visitor.visit_stream(&mut inner, group.stream);
    let ghost visited_stream = inner;
    let visited = Group { delimiter: group.delimiter, stream: inner, span: group.span };
    output.append(TokenTree::Group(visited));
    assert(old(visitor).visits_stream(&*visitor, empty, visited_stream, group.stream));
}

/// Default action on an ident: appends it.
pub fn visit_ident<V>(visitor: &mut V, output: &mut TokenStream, ident: Ident, parser: &mut Parser) where
    V: Visitor + ?Sized,
    ensures
        final(parser)@ == old(parser)@,
        &*final(visitor) == &*old(visitor),
        final(output).trees@ == old(output).trees@.push(TokenTree::Ident(ident)),
{
    output.append(TokenTree::Ident(ident));
}

/// Default action on a punct: appends it.
pub fn visit_punct<V>(visitor: &mut V, output: &mut TokenStream, punct: Punct, parser: &mut Parser) where
    V: Visitor + ?Sized,
    ensures
        final(parser)@ == old(parser)@,
        &*final(visitor) == &*old(visitor),
        final(output).trees@ == old(output).trees@.push(TokenTree::Punct(punct)),
{
    output.append(TokenTree::Punct(punct));
}

/// Default action on a literal: appends it.
pub fn visit_literal<V>(visitor: &mut V, output: &mut TokenStream, literal: Literal, parser: &mut Parser) where
    V: Visitor + ?Sized,
    ensures
        final(parser)@ == old(parser)@,
        &*final(visitor) == &*old(visitor),
        final(output).trees@ == old(output).trees@.push(TokenTree::Literal(literal)),
{
    output.append(TokenTree::Literal(literal));
}


/// `output_after` is `output` followed by copies of `trees`, spans included.
pub open spec fn appends_copies(
    output: TokenStream,
    output_after: TokenStream,
    trees: Seq<TokenTree>,
) -> bool {
    let n = output.trees@.len();
    &&& output_after.trees@.len() == n + trees.len()
    &&& output_after.trees@.take(n as int) == output.trees@
    &&& forall|i: int|
        0 <= i < trees.len() ==> #[trigger] tree_copy(output_after.trees@[n + i], trees[i])
}

/// Appending copies of `done`, then a copy of `tree`, appends copies of
/// `done` followed by `tree`.
proof fn lemma_appends_copies_push(
    o0: TokenStream,
    o1: TokenStream,
    o2: TokenStream,
    done: Seq<TokenTree>,
    tree: TokenTree,
)
    requires
        appends_copies(o0, o1, done),
        appends_copies(o1, o2, seq![tree]),
    ensures
        appends_copies(o0, o2, done.push(tree)),
{
    let n0 = o0.trees@.len();
    let n1 = o1.trees@.len();
    assert(o2.trees@.take(n0 as int) =~= o1.trees@.take(n0 as int));
    assert forall|i: int| 0 <= i < done.push(tree).len() implies #[trigger] tree_copy(
        o2.trees@[n0 + i],
        done.push(tree)[i],
    ) by {
        if i < done.len() {
            assert(o2.trees@[n0 + i] == o1.trees@.take(n1 as int)[n0 + i]);
            assert(tree_copy(o1.trees@[n0 + i], done[i]));
        } else {
            assert(tree_copy(o2.trees@[n1 + 0int], seq![tree][0]));
        }
    }
}

/// Appending a token appends a copy of it.
proof fn lemma_append_is_copy(o0: TokenStream, o1: TokenStream, tree: TokenTree)
    requires
        o1.trees@ == o0.trees@.push(tree),
    ensures
        appends_copies(o0, o1, seq![tree]),
{
    lemma_tree_rel_reflexive(tree, true);
    assert(o1.trees@.take(o0.trees@.len() as int) =~= o0.trees@);
    assert(o1.trees@[o0.trees@.len() + 0int] == tree);
}

/// The visitor that changes nothing: it copies every token into the output,
/// spans included, and takes nothing from the parser, as the default actions
/// do. Its `visits_*` spec functions state this, so `visit_stream` on it
/// appends a copy of the stream. Its methods write the default actions out,
/// since an implementation cannot hand itself to the generic default
/// actions.
pub struct Identity;

impl Visitor for Identity {
    open spec fn visits_stream(
        &self,
        after: &Self,
        output: TokenStream,
        output_after: TokenStream,
        stream: TokenStream,
    ) -> bool {
        appends_copies(output, output_after, stream.trees@)
    }

    open spec fn visits_tree(
        &self,
        after: &Self,
        output: TokenStream,
        output_after: TokenStream,
        tree: TokenTree,
        parser: Seq<TokenTree>,
        parser_after: Seq<TokenTree>,
    ) -> bool {
        appends_copies(output, output_after, seq![tree]) && parser_after == parser
    }

    open spec fn visits_group(
        &self,
        after: &Self,
        output: TokenStream,
        output_after: TokenStream,
        group: Group,
        parser: Seq<TokenTree>,
        parser_after: Seq<TokenTree>,
    ) -> bool {
        appends_copies(output, output_after, seq![TokenTree::Group(group)])
            && parser_after == parser
    }

    open spec fn visits_ident(
        &self,
        after: &Self,
        output: TokenStream,
        output_after: TokenStream,
        ident: Ident,
        parser: Seq<TokenTree>,
        parser_after: Seq<TokenTree>,
    ) -> bool {
        appends_copies(output, output_after, seq![TokenTree::Ident(ident)])
            && parser_after == parser
    }

    open spec fn visits_punct(
        &self,
        after: &Self,
        output: TokenStream,
        output_after: TokenStream,
        punct: Punct,
        parser: Seq<TokenTree>,
        parser_after: Seq<TokenTree>,
    ) -> bool {
        appends_copies(output, output_after, seq![TokenTree::Punct(punct)])
            && parser_after == parser
    }

    open spec fn visits_literal(
        &self,
        after: &Self,
        output: TokenStream,
        output_after: TokenStream,
        literal: Literal,
        parser: Seq<TokenTree>,
        parser_after: Seq<TokenTree>,
    ) -> bool {
        appends_copies(output, output_after, seq![TokenTree::Literal(literal)])
            && parser_after == parser
    }

    fn visit_stream(&mut self, output: &mut TokenStream, stream: TokenStream)
        decreases stream, 2int,
    {
        let ghost trees = stream.trees@;
        let mut parser = Parser::new(stream);
        let ghost mut k: int = 0;
        assert(output.trees@.take(output.trees@.len() as int) =~= output.trees@);
        while !parser.is_empty()
            invariant
                parser@ == trees.skip(k),
                0 <= k <= trees.len(),
                trees == stream.trees@,
                appends_copies(*old(output), *output, trees.take(k)),
            decreases parser@.len(),
        {
            let tree = parser.next_tree().unwrap();
            assert(tree == trees[k]);
            proof {
                assert(decreases_to!(stream => stream.trees));
                assert(decreases_to!(stream.trees => stream.trees@));
                assert(decreases_to!(stream.trees@ => stream.trees@[k]));
                k = k + 1;
                assert(parser@ =~= trees.skip(k));
            }
            let ghost out_before = *output;
            self.visit_tree(output, tree, &mut parser);
            proof {
                lemma_appends_copies_push(*old(output), out_before, *output, trees.take(k - 1), tree);
                assert(trees.take(k - 1).push(tree) =~= trees.take(k));
            }
        }
        assert(trees.take(k) =~= trees);
    }

    fn visit_tree(&mut self, output: &mut TokenStream, tree: TokenTree, parser: &mut Parser)
        decreases tree, 1int,
    {
        let ghost t = tree;
        match tree {
            TokenTree::Group(group) => self.visit_group(output, group, parser),
            TokenTree::Ident(ident) => output.append(TokenTree::Ident(ident)),
            TokenTree::Punct(punct) => output.append(TokenTree::Punct(punct)),
            TokenTree::Literal(literal) => output.append(TokenTree::Literal(literal)),
        }
        proof {
            if !(t is Group) {
                lemma_append_is_copy(*old(output), *output, t);
            }
        }
    }

    fn visit_group(&mut self, output: &mut TokenStream, group: Group, parser: &mut Parser)
        decreases group, 0int,
    {
        let mut inner = TokenStream::new();
        self.visit_stream(&mut inner, group.stream);
        let ghost visited = inner;
        output.append(
            TokenTree::Group(Group { delimiter: group.delimiter, stream: inner, span: group.span }),
        );
        proof {
            let g = Group { delimiter: group.delimiter, stream: visited, span: group.span };
            assert forall|i: int| 0 <= i < visited.trees@.len() implies #[trigger] tree_rel(
                visited.trees@[i],
                group.stream.trees@[i],
                true,
            ) by {
                assert(tree_copy(visited.trees@[0 + i], group.stream.trees@[i]));
            }
            lemma_stream_rel_elementwise(visited, group.stream, true);
            assert(tree_rel(TokenTree::Group(g), TokenTree::Group(group), true));
            assert(output.trees@.take(old(output).trees@.len() as int) =~= old(output).trees@);
            assert(output.trees@[old(output).trees@.len() + 0int] == TokenTree::Group(g));
        }
    }

    fn visit_ident(&mut self, output: &mut TokenStream, ident: Ident, parser: &mut Parser) {
        let ghost t = TokenTree::Ident(ident);
        output.append(TokenTree::Ident(ident));
        proof {
            lemma_append_is_copy(*old(output), *output, t);
        }
    }

    fn visit_punct(&mut self, output: &mut TokenStream, punct: Punct, parser: &mut Parser) {
        let ghost t = TokenTree::Punct(punct);
        output.append(TokenTree::Punct(punct));
        proof {
            lemma_append_is_copy(*old(output), *output, t);
        }
    }

    fn visit_literal(&mut self, output: &mut TokenStream, literal: Literal, parser: &mut Parser) {
        let ghost t = TokenTree::Literal(literal);
        output.append(TokenTree::Literal(literal));
        proof {
            lemma_append_is_copy(*old(output), *output, t);
        }
    }
}

/// The copying visitor copies: a visit of a stream by `Identity` keeps what
/// the output held and appends, after it, a copy of each tree of the stream
/// in order, with the same delimiters, texts, characters, spacing and spans.
pub proof fn law_identity_copies_stream(
    visitor: Identity,
    after: Identity,
    output: TokenStream,
    output_after: TokenStream,
    stream: TokenStream,
)
    requires
        visitor.visits_stream(&after, output, output_after, stream),
    ensures
        output_after.trees@.len() == output.trees@.len() + stream.trees@.len(),
        forall|i: int|
            0 <= i < output.trees@.len() ==> #[trigger] output_after.trees@[i] == output.trees@[i],
        forall|i: int|
            0 <= i < stream.trees@.len() ==> #[trigger] tree_copy(
                output_after.trees@[output.trees@.len() + i],
                stream.trees@[i],
            ),
{
    let n = output.trees@.len() as int;
    assert forall|i: int| 0 <= i < n implies #[trigger] output_after.trees@[i]
        == output.trees@[i] by {
        assert(output_after.trees@.take(n)[i] == output_after.trees@[i]);
    }
}

/// The copying visitor copies a tree: a visit of it by `Identity` keeps
/// what the output held, appends one copy of it, and leaves the parser as it
/// was.
pub proof fn law_identity_copies_tree(
    visitor: Identity,
    after: Identity,
    output: TokenStream,
    output_after: TokenStream,
    tree: TokenTree,
    parser: Seq<TokenTree>,
    parser_after: Seq<TokenTree>,
)
    requires
        visitor.visits_tree(&after, output, output_after, tree, parser, parser_after),
    ensures
        output_after.trees@.len() == output.trees@.len() + 1,
        forall|i: int|
            0 <= i < output.trees@.len() ==> #[trigger] output_after.trees@[i] == output.trees@[i],
        tree_copy(output_after.trees@[output.trees@.len() as int], tree),
        parser_after == parser,
{
    let n = output.trees@.len() as int;
    assert forall|i: int| 0 <= i < n implies #[trigger] output_after.trees@[i]
        == output.trees@[i] by {
        assert(output_after.trees@.take(n)[i] == output_after.trees@[i]);
    }
    assert(tree_copy(output_after.trees@[n + 0], seq![tree][0]));
}

/// The copying visitor copies a group: a visit of it by `Identity` keeps
/// what the output held, appends one copy of it, and leaves the parser as it
/// was.
pub proof fn law_identity_copies_group(
    visitor: Identity,
    after: Identity,
    output: TokenStream,
    output_after: TokenStream,
    group: Group,
    parser: Seq<TokenTree>,
    parser_after: Seq<TokenTree>,
)
    requires
        visitor.visits_group(&after, output, output_after, group, parser, parser_after),
    ensures
        output_after.trees@.len() == output.trees@.len() + 1,
        forall|i: int|
            0 <= i < output.trees@.len() ==> #[trigger] output_after.trees@[i] == output.trees@[i],
        tree_copy(output_after.trees@[output.trees@.len() as int], TokenTree::Group(group)),
        parser_after == parser,
{
    let n = output.trees@.len() as int;
    assert forall|i: int| 0 <= i < n implies #[trigger] output_after.trees@[i]
        == output.trees@[i] by {
        assert(output_after.trees@.take(n)[i] == output_after.trees@[i]);
    }
    assert(tree_copy(output_after.trees@[n + 0], seq![TokenTree::Group(group)][0]));
}

/// The copying visitor copies an identifier: a visit of it by `Identity` keeps
/// what the output held, appends one copy of it, and leaves the parser as it
/// was.
pub proof fn law_identity_copies_ident(
    visitor: Identity,
    after: Identity,
    output: TokenStream,
    output_after: TokenStream,
    ident: Ident,
    parser: Seq<TokenTree>,
    parser_after: Seq<TokenTree>,
)
    requires
        visitor.visits_ident(&after, output, output_after, ident, parser, parser_after),
    ensures
        output_after.trees@.len() == output.trees@.len() + 1,
        forall|i: int|
            0 <= i < output.trees@.len() ==> #[trigger] output_after.trees@[i] == output.trees@[i],
        tree_copy(output_after.trees@[output.trees@.len() as int], TokenTree::Ident(ident)),
        parser_after == parser,
{
    let n = output.trees@.len() as int;
    assert forall|i: int| 0 <= i < n implies #[trigger] output_after.trees@[i]
        == output.trees@[i] by {
        assert(output_after.trees@.take(n)[i] == output_after.trees@[i]);
    }
    assert(tree_copy(output_after.trees@[n + 0], seq![TokenTree::Ident(ident)][0]));
}

/// The copying visitor copies a punct: a visit of it by `Identity` keeps
/// what the output held, appends one copy of it, and leaves the parser as it
/// was.
pub proof fn law_identity_copies_punct(
    visitor: Identity,
    after: Identity,
    output: TokenStream,
    output_after: TokenStream,
    punct: Punct,
    parser: Seq<TokenTree>,
    parser_after: Seq<TokenTree>,
)
    requires
        visitor.visits_punct(&after, output, output_after, punct, parser, parser_after),
    ensures
        output_after.trees@.len() == output.trees@.len() + 1,
        forall|i: int|
            0 <= i < output.trees@.len() ==> #[trigger] output_after.trees@[i] == output.trees@[i],
        tree_copy(output_after.trees@[output.trees@.len() as int], TokenTree::Punct(punct)),
        parser_after == parser,
{
    let n = output.trees@.len() as int;
    assert forall|i: int| 0 <= i < n implies #[trigger] output_after.trees@[i]
        == output.trees@[i] by {
        assert(output_after.trees@.take(n)[i] == output_after.trees@[i]);
    }
    assert(tree_copy(output_after.trees@[n + 0], seq![TokenTree::Punct(punct)][0]));
}

/// The copying visitor copies a literal: a visit of it by `Identity` keeps
/// what the output held, appends one copy of it, and leaves the parser as it
/// was.
pub proof fn law_identity_copies_literal(
    visitor: Identity,
    after: Identity,
    output: TokenStream,
    output_after: TokenStream,
    literal: Literal,
    parser: Seq<TokenTree>,
    parser_after: Seq<TokenTree>,
)
    requires
        visitor.visits_literal(&after, output, output_after, literal, parser, parser_after),
    ensures
        output_after.trees@.len() == output.trees@.len() + 1,
        forall|i: int|
            0 <= i < output.trees@.len() ==> #[trigger] output_after.trees@[i] == output.trees@[i],
        tree_copy(output_after.trees@[output.trees@.len() as int], TokenTree::Literal(literal)),
        parser_after == parser,
{
    let n = output.trees@.len() as int;
    assert forall|i: int| 0 <= i < n implies #[trigger] output_after.trees@[i]
        == output.trees@[i] by {
        assert(output_after.trees@.take(n)[i] == output_after.trees@[i]);
    }
    assert(tree_copy(output_after.trees@[n + 0], seq![TokenTree::Literal(literal)][0]));
}

} // verus!
