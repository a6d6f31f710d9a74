//! A backtracking parser over a sequence of token trees.
use std::collections::VecDeque;

use proc_macro2::Span;
use vstd::prelude::*;
use vstd::std_specs::convert::FromSpec;

use crate::extension::TokenTreeExt;
use crate::diagnostic::{error, is_compile_error};
use crate::token::{call_site, clone_tree, tree_copy, tree_span, Group, Ident, Literal, Punct, TokenStream, TokenTree};

verus! {

/// Parses a token stream: the remaining trees are taken from the front.
pub struct Parser {
    tokens: VecDeque<TokenTree>,
}

impl View for Parser {
    type V = Seq<TokenTree>;

    /// The trees that remain, front first.
    closed spec fn view(&self) -> Seq<TokenTree> {
        self.tokens@
    }
}

/// The outcome of one call of a mapping function on the tree `before[0]`:
/// on `Ok` the tree is consumed, on `Err` the returned tree is put back in
/// its place.
pub open spec fn map_step<T>(
    before: Seq<TokenTree>,
    out: Result<T, TokenTree>,
    r: Option<T>,
    after: Seq<TokenTree>,
) -> bool {
    match out {
        Ok(t) => r == Some(t) && after == before.drop_first(),
        Err(o) => r is None && after == seq![o] + before.drop_first(),
    }
}

/// What `Parser::next_if_map` does: `before` and `after` are the remaining
/// trees before and after the call, `r` its result.
pub open spec fn if_map_post<T, M: FnOnce(TokenTree) -> Result<T, TokenTree>>(
    before: Seq<TokenTree>,
    map: M,
    r: Option<T>,
    after: Seq<TokenTree>,
) -> bool {
    if before.len() == 0 {
        r is None && after == before
    } else {
        exists|out: Result<T, TokenTree>| #[trigger]
            call_ensures(map, (before[0],), out) && map_step(before, out, r, after)
    }
}

/// What `Parser::next_if_map_and` does: like `if_map_post`, and a mapped
/// value that the predicate refuses is put back as a tree.
pub open spec fn if_map_and_post<T, M, P>(
    before: Seq<TokenTree>,
    map: M,
    predicate: P,
    r: Option<T>,
    after: Seq<TokenTree>,
) -> bool where
    TokenTree: From<T>,
    M: FnOnce(TokenTree) -> Result<T, TokenTree>,
    P: FnOnce(&T) -> bool,
 {
    if before.len() == 0 {
        r is None && after == before
    } else {
        exists|out: Result<T, TokenTree>| #[trigger]
            call_ensures(map, (before[0],), out) && match out {
                Err(o) => r is None && after == seq![o] + before.drop_first(),
                Ok(t) => exists|b: bool| #[trigger]
                    call_ensures(predicate, (&t,), b) && if b {
                        r == Some(t) && after == before.drop_first()
                    } else {
                        r is None && after == seq![
                            <TokenTree as FromSpec<T>>::from_spec(t),
                        ] + before.drop_first()
                    },
            }
    }
}

/// What `Parser::next2_if_map` does.
pub open spec fn if_map2_post<T1, M1, T2, M2>(
    before: Seq<TokenTree>,
    map1: M1,
    map2: M2,
    r: Option<(T1, T2)>,
    after: Seq<TokenTree>,
) -> bool where
    TokenTree: From<T1>,
    M1: FnOnce(TokenTree) -> Result<T1, TokenTree>,
    M2: FnOnce(TokenTree) -> Result<T2, TokenTree>,
 {
    exists|r1: Option<T1>, mid: Seq<TokenTree>| #[trigger]
        if_map_post(before, map1, r1, mid) && match r1 {
            None => r is None && after == mid,
            Some(t1) => exists|r2: Option<T2>, mid2: Seq<TokenTree>| #[trigger]
                if_map_post(mid, map2, r2, mid2) && match r2 {
                    Some(t2) => r == Some((t1, t2)) && after == mid2,
                    None => r is None && after == seq![
                        <TokenTree as FromSpec<T1>>::from_spec(t1),
                    ] + mid2,
                },
        }
}

/// What `Parser::next2_if_map_and` does.
pub open spec fn if_map2_and_post<T1, M1, P1, T2, M2, P2>(
    before: Seq<TokenTree>,
    map1: M1,
    predicate1: P1,
    map2: M2,
    predicate2: P2,
    r: Option<(T1, T2)>,
    after: Seq<TokenTree>,
) -> bool where
    TokenTree: From<T1>,
    TokenTree: From<T2>,
    M1: FnOnce(TokenTree) -> Result<T1, TokenTree>,
    P1: FnOnce(&T1) -> bool,
    M2: FnOnce(TokenTree) -> Result<T2, TokenTree>,
    P2: FnOnce(&T2) -> bool,
 {
    exists|r1: Option<T1>, mid: Seq<TokenTree>| #[trigger]
        if_map_and_post(before, map1, predicate1, r1, mid) && match r1 {
            None => r is None && after == mid,
            Some(t1) => exists|r2: Option<T2>, mid2: Seq<TokenTree>| #[trigger]
                if_map_and_post(mid, map2, predicate2, r2, mid2) && match r2 {
                    Some(t2) => r == Some((t1, t2)) && after == mid2,
                    None => r is None && after == seq![
                        <TokenTree as FromSpec<T1>>::from_spec(t1),
                    ] + mid2,
                },
        }
}

/// What `Parser::next3_if_map` does.
pub open spec fn if_map3_post<T1, M1, T2, M2, T3, M3>(
    before: Seq<TokenTree>,
    map1: M1,
    map2: M2,
    map3: M3,
    r: Option<(T1, T2, T3)>,
    after: Seq<TokenTree>,
) -> bool where
    TokenTree: From<T1>,
    TokenTree: From<T2>,
    M1: FnOnce(TokenTree) -> Result<T1, TokenTree>,
    M2: FnOnce(TokenTree) -> Result<T2, TokenTree>,
    M3: FnOnce(TokenTree) -> Result<T3, TokenTree>,
 {
    exists|r12: Option<(T1, T2)>, mid: Seq<TokenTree>| #[trigger]
        if_map2_post(before, map1, map2, r12, mid) && match r12 {
            None => r is None && after == mid,
            Some(t12) => exists|r3: Option<T3>, mid3: Seq<TokenTree>| #[trigger]
                if_map_post(mid, map3, r3, mid3) && match r3 {
                    Some(t3) => r == Some((t12.0, t12.1, t3)) && after == mid3,
                    None => r is None && after == seq![
                        <TokenTree as FromSpec<T1>>::from_spec(t12.0),
                        <TokenTree as FromSpec<T2>>::from_spec(t12.1),
                    ] + mid3,
                },
        }
}

/// What `Parser::next3_if_map_and` does.
pub open spec fn if_map3_and_post<T1, M1, P1, T2, M2, P2, T3, M3, P3>(
    before: Seq<TokenTree>,
    map1: M1,
    predicate1: P1,
    map2: M2,
    predicate2: P2,
    map3: M3,
    predicate3: P3,
    r: Option<(T1, T2, T3)>,
    after: Seq<TokenTree>,
) -> bool where
    TokenTree: From<T1>,
    TokenTree: From<T2>,
    TokenTree: From<T3>,
    M1: FnOnce(TokenTree) -> Result<T1, TokenTree>,
    P1: FnOnce(&T1) -> bool,
    M2: FnOnce(TokenTree) -> Result<T2, TokenTree>,
    P2: FnOnce(&T2) -> bool,
    M3: FnOnce(TokenTree) -> Result<T3, TokenTree>,
    P3: FnOnce(&T3) -> bool,
 {
    exists|r12: Option<(T1, T2)>, mid: Seq<TokenTree>| #[trigger]
        if_map2_and_post(before, map1, predicate1, map2, predicate2, r12, mid) && match r12 {
            None => r is None && after == mid,
            Some(t12) => exists|r3: Option<T3>, mid3: Seq<TokenTree>| #[trigger]
                if_map_and_post(mid, map3, predicate3, r3, mid3) && match r3 {
                    Some(t3) => r == Some((t12.0, t12.1, t3)) && after == mid3,
                    None => r is None && after == seq![
                        <TokenTree as FromSpec<T1>>::from_spec(t12.0),
                        <TokenTree as FromSpec<T2>>::from_spec(t12.1),
                    ] + mid3,
                },
        }
}

impl Parser {
    /// Constructs a parser that will parse the given token stream.
    pub fn new(stream: TokenStream) -> (r: Parser)
        ensures
            r@ == stream.trees@,
    {
        let ghost all = stream.trees@;
        let mut trees = stream.trees;
        let mut tokens: VecDeque<TokenTree> = VecDeque::new();
        while trees.len() > 0
            invariant
                trees@.len() <= all.len(),
                trees@ == all.subrange(0, trees@.len() as int),
                tokens@ == all.subrange(trees@.len() as int, all.len() as int),
            decreases trees@.len(),
        {
            let t = trees.pop().unwrap();
            tokens.push_front(t);
            assert(tokens@ == all.subrange(trees@.len() as int, all.len() as int));
        }
        Parser { tokens }
    }

    /// Peeks at the first token; `None` when no tokens remain.
    pub fn first(&self) -> (r: Option<&TokenTree>)
        ensures
            r == (if self@.len() > 0 { Some(&self@[0]) } else { None }),
    {
        if self.tokens.len() > 0 {
            Some(&self.tokens[0])
        } else {
            None
        }
    }

    /// Peeks at the token at `index`; `None` when it doesn't exist.
    pub fn peek(&self, index: usize) -> (r: Option<&TokenTree>)
        ensures
            r == (if index < self@.len() { Some(&self@[index as int]) } else { None }),
    {
        if index < self.tokens.len() {
            Some(&self.tokens[index])
        } else {
            None
        }
    }

    /// Returns `true` if there are no more tokens to parse.
    pub fn is_empty(&self) -> (r: bool)
        ensures
            r == (self@.len() == 0),
    {
        self.tokens.len() == 0
    }

    /// Returns the number of remaining tokens.
    pub fn len(&self) -> (r: usize)
        ensures
            r == self@.len(),
    {
        self.tokens.len()
    }

    /// Takes the next tree; `None` when no tokens remain.
    pub fn next_tree(&mut self) -> (r: Option<TokenTree>)
        ensures
            old(self)@.len() == 0 ==> r is None && final(self)@ == old(self)@,
            old(self)@.len() > 0 ==> r == Some(old(self)@[0]) && final(self)@
                == old(self)@.drop_first(),
    {
        let r = self.tokens.pop_front();
        proof {
            if old(self)@.len() > 0 {
                assert(self@ == old(self)@.drop_first());
            }
        }
        r
    }

    /// Takes the next tree and applies `map` to it. On `Ok` the mapped value
    /// is returned; on `Err` the returned tree is put back in front.
    pub fn next_if_map<T, M>(&mut self, map: M) -> (r: Option<T>) where
        M: FnOnce(TokenTree) -> Result<T, TokenTree>,
        requires
            forall|x: TokenTree| #[trigger] call_requires(map, (x,)),
        ensures
            if_map_post(old(self)@, map, r, final(self)@),
    {
        match self.next_tree() {
            None => None,
            Some(t) => {
                let out = map(t);
                proof {
                    assert(call_ensures(map, (old(self)@[0],), out));
                }
                match out {
                    Ok(v) => Some(v),
                    Err(o) => {
                        self.tokens.push_front(o);
                        None
                    },
                }
            },
        }
    }
    /// Takes the next tree and applies `map` to it. On `Ok` the value is
    /// returned if `predicate` accepts it; otherwise the token is put back.
    pub fn next_if_map_and<T, M, P>(&mut self, map: M, predicate: P) -> (r: Option<T>) where
        TokenTree: From<T>,
        M: FnOnce(TokenTree) -> Result<T, TokenTree>,
        P: FnOnce(&T) -> bool,
        requires
            <TokenTree as FromSpec<T>>::obeys_from_spec(),
            forall|x: TokenTree| #[trigger] call_requires(map, (x,)),
            forall|x: &T| #[trigger] call_requires(predicate, (x,)),
        ensures
            if_map_and_post(old(self)@, map, predicate, r, final(self)@),
    {
        match self.next_tree() {
            None => None,
            Some(x) => {
                let out = map(x);
                proof {
                    assert(call_ensures(map, (old(self)@[0],), out));
                }
                match out {
                    Err(o) => {
                        self.tokens.push_front(o);
                        None
                    },
                    Ok(t) => {
                        let b = predicate(&t);
                        proof {
                            assert(call_ensures(predicate, (&t,), b));
                        }
                        if b {
                            Some(t)
                        } else {
                            self.tokens.push_front(TokenTree::from(t));
                            None
                        }
                    },
                }
            },
        }
    }

    /// Takes the next two trees and applies the mapping functions. If both
    /// return `Ok`, the values are returned; otherwise the tokens are put back.
    pub fn next2_if_map<T1, M1, T2, M2>(&mut self, map1: M1, map2: M2) -> (r: Option<(T1, T2)>) where
        TokenTree: From<T1>,
        M1: FnOnce(TokenTree) -> Result<T1, TokenTree>,
        M2: FnOnce(TokenTree) -> Result<T2, TokenTree>,
        requires
            <TokenTree as FromSpec<T1>>::obeys_from_spec(),
            forall|x: TokenTree| #[trigger] call_requires(map1, (x,)),
            forall|x: TokenTree| #[trigger] call_requires(map2, (x,)),
        ensures
            if_map2_post(old(self)@, map1, map2, r, final(self)@),
    {
        let ghost s0 = self@;
        let r1 = self.next_if_map(map1);
        let ghost s1 = self@;
        assert(if_map_post(s0, map1, r1, s1));
        match r1 {
            None => None,
            Some(first) => {
                let r2 = self.next_if_map(map2);
                let ghost s2 = self@;
                assert(if_map_post(s1, map2, r2, s2));
                match r2 {
                    Some(second) => Some((first, second)),
                    None => {
                        self.tokens.push_front(TokenTree::from(first));
                        None
                    },
                }
            },
        }
    }

    /// Takes the next two trees and applies the mapping functions and
    /// predicates; on any refusal the tokens are put back.
    pub fn next2_if_map_and<T1, M1, P1, T2, M2, P2>(
        &mut self,
        map1: M1,
        predicate1: P1,
        map2: M2,
        predicate2: P2,
    ) -> (r: Option<(T1, T2)>) where
        TokenTree: From<T1>,
        TokenTree: From<T2>,
        M1: FnOnce(TokenTree) -> Result<T1, TokenTree>,
        P1: FnOnce(&T1) -> bool,
        M2: FnOnce(TokenTree) -> Result<T2, TokenTree>,
        P2: FnOnce(&T2) -> bool,
        requires
            <TokenTree as FromSpec<T1>>::obeys_from_spec(),
            <TokenTree as FromSpec<T2>>::obeys_from_spec(),
            forall|x: TokenTree| #[trigger] call_requires(map1, (x,)),
            forall|x: &T1| #[trigger] call_requires(predicate1, (x,)),
            forall|x: TokenTree| #[trigger] call_requires(map2, (x,)),
            forall|x: &T2| #[trigger] call_requires(predicate2, (x,)),
        ensures
            if_map2_and_post(
                old(self)@,
                map1,
                predicate1,
                map2,
                predicate2,
                r,
                final(self)@,
            ),
    {
        let ghost s0 = self@;
        let r1 = self.next_if_map_and(map1, predicate1);
        let ghost s1 = self@;
        assert(if_map_and_post(s0, map1, predicate1, r1, s1));
        match r1 {
            None => None,
            Some(first) => {
                let r2 = self.next_if_map_and(map2, predicate2);
                let ghost s2 = self@;
                assert(if_map_and_post(s1, map2, predicate2, r2, s2));
                match r2 {
                    Some(second) => Some((first, second)),
                    None => {
                        self.tokens.push_front(TokenTree::from(first));
                        None
                    },
                }
            },
        }
    }

    /// Takes the next three trees and applies the mapping functions. If all
    /// return `Ok`, the values are returned; otherwise the tokens are put back.
    pub fn next3_if_map<T1, M1, T2, M2, T3, M3>(&mut self, map1: M1, map2: M2, map3: M3) -> (r:
        Option<(T1, T2, T3)>) where
        TokenTree: From<T1>,
        TokenTree: From<T2>,
        M1: FnOnce(TokenTree) -> Result<T1, TokenTree>,
        M2: FnOnce(TokenTree) -> Result<T2, TokenTree>,
        M3: FnOnce(TokenTree) -> Result<T3, TokenTree>,
        requires
            <TokenTree as FromSpec<T1>>::obeys_from_spec(),
            <TokenTree as FromSpec<T2>>::obeys_from_spec(),
            forall|x: TokenTree| #[trigger] call_requires(map1, (x,)),
            forall|x: TokenTree| #[trigger] call_requires(map2, (x,)),
            forall|x: TokenTree| #[trigger] call_requires(map3, (x,)),
        ensures
            if_map3_post(old(self)@, map1, map2, map3, r, final(self)@),
    {
        let ghost s0 = self@;
        let r12 = self.next2_if_map(map1, map2);
        let ghost s1 = self@;
        assert(if_map2_post(s0, map1, map2, r12, s1));
        match r12 {
            None => {
                assert(if_map3_post(s0, map1, map2, map3, None, s1));
                None
            },
            Some(pair) => {
                let (first, second) = pair;
                let r3 = self.next_if_map(map3);
                let ghost s2 = self@;
                assert(if_map_post(s1, map3, r3, s2));
                match r3 {
                    Some(third) => Some((first, second, third)),
                    None => {
                        let ghost t12 = (first, second);
                        self.tokens.push_front(TokenTree::from(second));
                        self.tokens.push_front(TokenTree::from(first));
                        assert(self@ == seq![
                            <TokenTree as FromSpec<T1>>::from_spec(t12.0),
                            <TokenTree as FromSpec<T2>>::from_spec(t12.1),
                        ] + s2);
                        None
                    },
                }
            },
        }
    }

    /// Takes the next three trees and applies the mapping functions and
    /// predicates; on any refusal the tokens are put back.
    pub fn next3_if_map_and<T1, M1, P1, T2, M2, P2, T3, M3, P3>(
        &mut self,
        map1: M1,
        predicate1: P1,
        map2: M2,
        predicate2: P2,
        map3: M3,
        predicate3: P3,
    ) -> (r: Option<(T1, T2, T3)>) where
        TokenTree: From<T1>,
        TokenTree: From<T2>,
        TokenTree: From<T3>,
        M1: FnOnce(TokenTree) -> Result<T1, TokenTree>,
        P1: FnOnce(&T1) -> bool,
        M2: FnOnce(TokenTree) -> Result<T2, TokenTree>,
        P2: FnOnce(&T2) -> bool,
        M3: FnOnce(TokenTree) -> Result<T3, TokenTree>,
        P3: FnOnce(&T3) -> bool,
        requires
            <TokenTree as FromSpec<T1>>::obeys_from_spec(),
            <TokenTree as FromSpec<T2>>::obeys_from_spec(),
            <TokenTree as FromSpec<T3>>::obeys_from_spec(),
            forall|x: TokenTree| #[trigger] call_requires(map1, (x,)),
            forall|x: &T1| #[trigger] call_requires(predicate1, (x,)),
            forall|x: TokenTree| #[trigger] call_requires(map2, (x,)),
            forall|x: &T2| #[trigger] call_requires(predicate2, (x,)),
            forall|x: TokenTree| #[trigger] call_requires(map3, (x,)),
            forall|x: &T3| #[trigger] call_requires(predicate3, (x,)),
        ensures
            if_map3_and_post(
                old(self)@,
                map1,
                predicate1,
                map2,
                predicate2,
                map3,
                predicate3,
                r,
                final(self)@,
            ),
    {
        let ghost s0 = self@;
        let r12 = self.next2_if_map_and(map1, predicate1, map2, predicate2);
        let ghost s1 = self@;
        assert(if_map2_and_post(s0, map1, predicate1, map2, predicate2, r12, s1));
        match r12 {
            None => {
                None
            },
            Some(pair) => {
                let (first, second) = pair;
                let r3 = self.next_if_map_and(map3, predicate3);
                let ghost s2 = self@;
                assert(if_map_and_post(s1, map3, predicate3, r3, s2));
                match r3 {
                    Some(third) => Some((first, second, third)),
                    None => {
                        let ghost t12 = (first, second);
                        self.tokens.push_front(TokenTree::from(second));
                        self.tokens.push_front(TokenTree::from(first));
                        assert(self@ == seq![
                            <TokenTree as FromSpec<T1>>::from_spec(t12.0),
                            <TokenTree as FromSpec<T2>>::from_spec(t12.1),
                        ] + s2);
                        None
                    },
                }
            },
        }
    }
}

impl Parser {
    /// Returns the span of the next token, or `Span::call_site()` when no
    /// tokens remain.
    pub fn span(&self) -> (r: Span)
        ensures
            self@.len() > 0 ==> r == tree_span(self@[0]),
    {
        if self.tokens.len() > 0 {
            self.tokens[0].span()
        } else {
            call_site()
        }
    }

    /// Collects the remaining tokens into a token stream; the parser is left
    /// empty.
    pub fn stream(&mut self) -> (r: TokenStream)
        ensures
            r.trees@ == old(self)@,
            final(self)@.len() == 0,
    {
        let n = self.tokens.len();
        let trees = self.next_trees(n);
        TokenStream { trees }
    }

    /// Returns a token stream holding `::core::compile_error!` with `message`,
    /// spanned by the next token (by `Span::call_site()` when none remains).
    pub fn error(&mut self, message: &str) -> (r: TokenStream)
        ensures
            final(self)@ == old(self)@,
            exists|s: Span| #[trigger]
                is_compile_error(r, s, s, message@) && (old(self)@.len() > 0 ==> s == tree_span(
                    old(self)@[0],
                )),
    {
        let span = self.span();
        let r = error(span, message);
        assert(is_compile_error(r, span, span, message@));
        r
    }

    /// Takes up to `limit` trees, front first, and leaves the rest; with a
    /// limit of at least `self.len()` the parser is left empty.
    pub fn next_trees(&mut self, limit: usize) -> (r: Vec<TokenTree>)
        ensures
            old(self)@ == r@ + final(self)@,
            r@.len() <= limit,
            r@.len() < limit ==> final(self)@.len() == 0,
    {
        let mut r: Vec<TokenTree> = Vec::new();
        while r.len() < limit && self.tokens.len() > 0
            invariant
                old(self)@ == r@ + self@,
                r@.len() <= limit,
            decreases self@.len(),
        {
            let t = self.tokens.pop_front().unwrap();
            r.push(t);
        }
        r
    }

    /// Takes the next tree if `predicate` accepts it.
    pub fn next_tree_if<P>(&mut self, predicate: P) -> (r: Option<TokenTree>) where
        P: FnOnce(&TokenTree) -> bool,
        requires
            forall|x: &TokenTree| #[trigger] call_requires(predicate, (x,)),
        ensures
            match r {
                Some(t) => old(self)@.len() > 0 && t == old(self)@[0] && call_ensures(
                    predicate,
                    (&old(self)@[0],),
                    true,
                ) && final(self)@ == old(self)@.drop_first(),
                None => final(self)@ == old(self)@ && (old(self)@.len() > 0 ==> call_ensures(
                    predicate,
                    (&old(self)@[0],),
                    false,
                )),
            },
    {
        if self.tokens.len() == 0 {
            return None;
        }
        if predicate(&self.tokens[0]) {
            self.next_tree()
        } else {
            None
        }
    }

    /// Takes consecutive trees while `predicate` accepts them, at most
    /// `limit` of them; `predicate` is asked about no tree past the limit.
    pub fn next_trees_while<P>(&mut self, predicate: P, limit: usize) -> (r: Vec<TokenTree>) where
        P: Fn(&TokenTree) -> bool,
        requires
            forall|x: &TokenTree| #[trigger] call_requires(predicate, (x,)),
        ensures
            old(self)@ == r@ + final(self)@,
            r@.len() <= limit,
            forall|i: int| 0 <= i < r@.len() ==> call_ensures(predicate, (&#[trigger] r@[i],), true),
            r@.len() < limit && final(self)@.len() > 0 ==> call_ensures(
                predicate,
                (&final(self)@[0],),
                false,
            ),
    {
        let mut r: Vec<TokenTree> = Vec::new();
        loop
            invariant
                forall|x: &TokenTree| #[trigger] call_requires(predicate, (x,)),
                old(self)@ == r@ + self@,
                r@.len() <= limit,
                forall|i: int|
                    0 <= i < r@.len() ==> call_ensures(predicate, (&#[trigger] r@[i],), true),
            ensures
                old(self)@ == r@ + self@,
                r@.len() <= limit,
                forall|i: int|
                    0 <= i < r@.len() ==> call_ensures(predicate, (&#[trigger] r@[i],), true),
                r@.len() < limit && self@.len() > 0 ==> call_ensures(
                    predicate,
                    (&self@[0],),
                    false,
                ),
            decreases self@.len(),
        {
            if r.len() >= limit || self.tokens.len() == 0 {
                break;
            }
            let b = predicate(&self.tokens[0]);
            if !b {
                break;
            }
            let t = self.tokens.pop_front().unwrap();
            r.push(t);
            assert(old(self)@ == r@ + self@);
        }
        r
    }

    /// Returns `true` and skips the next tree if the parser isn't empty.
    pub fn skip_tree(&mut self) -> (r: bool)
        ensures
            r == (old(self)@.len() > 0),
            final(self)@ == if r { old(self)@.drop_first() } else { old(self)@ },
    {
        self.next_tree().is_some()
    }

    /// Returns `true` and skips the next tree if `predicate` accepts it.
    pub fn skip_tree_if<P>(&mut self, predicate: P) -> (r: bool) where
        P: FnOnce(&TokenTree) -> bool,
        requires
            forall|x: &TokenTree| #[trigger] call_requires(predicate, (x,)),
        ensures
            r ==> old(self)@.len() > 0 && call_ensures(predicate, (&old(self)@[0],), true)
                && final(self)@ == old(self)@.drop_first(),
            !r ==> final(self)@ == old(self)@ && (old(self)@.len() > 0 ==> call_ensures(
                predicate,
                (&old(self)@[0],),
                false,
            )),
    {
        self.next_tree_if(predicate).is_some()
    }

    /// Returns `true` if the next token is a group.
    pub fn is_next_group(&self) -> (r: bool)
        ensures
            r == (self@.len() > 0 && self@[0] is Group),
    {
        if self.tokens.len() == 0 {
            return false;
        }
        match &self.tokens[0] {
            TokenTree::Group(_) => true,
            _ => false,
        }
    }

    /// Takes the next token if it is a group.
    pub fn next_group(&mut self) -> (r: Option<Group>)
        ensures
            match r {
                Some(x) => old(self)@.len() > 0 && old(self)@[0] == TokenTree::Group(x)
                    && final(self)@ == old(self)@.drop_first(),
                None => final(self)@ == old(self)@ && !(old(self)@.len() > 0
                    && old(self)@[0] is Group),
            },
    {
        let ghost before = self@;
        let r = self.next_if_map(TokenTree::into_group);
        proof {
            law_into_group_gives_back();
            if r is Some {
                law_next_if_map_success_consumes::<Group, _>(
                    before,
                    TokenTree::into_group,
                    r->0,
                    self@,
                );
            } else {
                law_next_if_map_refusal_restores::<Group, _>(before, TokenTree::into_group, self@);
            }
        }
        r
    }

    /// Takes the next token if it is a group and `predicate` accepts it.
    pub fn next_group_if<P>(&mut self, predicate: P) -> (r: Option<Group>) where
        P: FnOnce(&Group) -> bool,
        requires
            forall|x: &Group| #[trigger] call_requires(predicate, (x,)),
        ensures
            match r {
                Some(x) => old(self)@.len() > 0 && old(self)@[0] == TokenTree::Group(x)
                    && call_ensures(predicate, (&x,), true) && final(self)@
                    == old(self)@.drop_first(),
                None => final(self)@ == old(self)@ && (old(self)@.len() > 0
                    && old(self)@[0] is Group ==> call_ensures(
                    predicate,
                    (&old(self)@[0]->Group_0,),
                    false,
                )),
            },
    {
        let ghost before = self@;
        let r = self.next_if_map_and(TokenTree::into_group, predicate);
        proof {
            law_into_group_gives_back();
            if r is Some {
                law_next_if_map_and_success_consumes::<Group, _, P>(
                    before,
                    TokenTree::into_group,
                    predicate,
                    r->0,
                    self@,
                );
            } else {
                law_next_if_map_and_refusal_restores::<Group, _, P>(
                    before,
                    TokenTree::into_group,
                    predicate,
                    self@,
                );
                if before.len() > 0 {
                    law_next_if_map_and_refusal_by_predicate::<Group, _, P>(
                        before,
                        TokenTree::into_group,
                        predicate,
                        self@,
                    );
                }
            }
        }
        r
    }

    /// Takes consecutive tokens while they are groups, at most `limit` of them.
    pub fn next_groups(&mut self, limit: usize) -> (r: Vec<Group>)
        ensures
            old(self)@ == r@.map_values(|x: Group| TokenTree::Group(x)) + final(self)@,
            r@.len() <= limit,
            r@.len() < limit ==> !(final(self)@.len() > 0 && final(self)@[0] is Group),
    {
        let mut r: Vec<Group> = Vec::new();
        loop
            invariant
                old(self)@ == r@.map_values(|x: Group| TokenTree::Group(x)) + self@,
                r@.len() <= limit,
            ensures
                old(self)@ == r@.map_values(|x: Group| TokenTree::Group(x)) + self@,
                r@.len() <= limit,
                r@.len() < limit ==> !(self@.len() > 0 && self@[0] is Group),
            decreases self@.len(),
        {
            if r.len() >= limit {
                break;
            }
            let ghost prev = r@;
            match self.next_group() {
                Some(x) => {
                    r.push(x);
                    assert(r@.map_values(|x: Group| TokenTree::Group(x)) == prev.map_values(
                        |x: Group| TokenTree::Group(x),
                    ).push(TokenTree::Group(x)));
                },
                None => break,
            }
        }
        r
    }

    /// Takes consecutive tokens while they are groups that `predicate` accepts,
    /// at most `limit` of them; `predicate` is asked about none past the limit.
    pub fn next_groups_while<P>(&mut self, predicate: P, limit: usize) -> (r: Vec<Group>) where
        P: Fn(&Group) -> bool,
        requires
            forall|x: &Group| #[trigger] call_requires(predicate, (x,)),
        ensures
            old(self)@ == r@.map_values(|x: Group| TokenTree::Group(x)) + final(self)@,
            r@.len() <= limit,
            forall|i: int| 0 <= i < r@.len() ==> call_ensures(predicate, (&#[trigger] r@[i],), true),
            r@.len() < limit && final(self)@.len() > 0 && final(self)@[0] is Group ==> call_ensures(
                predicate,
                (&final(self)@[0]->Group_0,),
                false,
            ),
    {
        let mut r: Vec<Group> = Vec::new();
        loop
            invariant
                forall|x: &Group| #[trigger] call_requires(predicate, (x,)),
                old(self)@ == r@.map_values(|x: Group| TokenTree::Group(x)) + self@,
                r@.len() <= limit,
                forall|i: int|
                    0 <= i < r@.len() ==> call_ensures(predicate, (&#[trigger] r@[i],), true),
            ensures
                old(self)@ == r@.map_values(|x: Group| TokenTree::Group(x)) + self@,
                r@.len() <= limit,
                forall|i: int|
                    0 <= i < r@.len() ==> call_ensures(predicate, (&#[trigger] r@[i],), true),
                r@.len() < limit && self@.len() > 0 && self@[0] is Group ==> call_ensures(
                    predicate,
                    (&self@[0]->Group_0,),
                    false,
                ),
            decreases self@.len(),
        {
            if r.len() >= limit {
                break;
            }
            let ghost prev = r@;
            match self.next_group_if(&predicate) {
                Some(x) => {
                    r.push(x);
                    assert(r@.map_values(|x: Group| TokenTree::Group(x)) == prev.map_values(
                        |x: Group| TokenTree::Group(x),
                    ).push(TokenTree::Group(x)));
                },
                None => break,
            }
        }
        r
    }

    /// Returns `true` and skips the next tree if it is a group.
    pub fn skip_group(&mut self) -> (r: bool)
        ensures
            r == (old(self)@.len() > 0 && old(self)@[0] is Group),
            final(self)@ == if r { old(self)@.drop_first() } else { old(self)@ },
    {
        self.next_group().is_some()
    }

    /// Returns `true` and skips the next tree if it is a group and `predicate`
    /// accepts it.
    pub fn skip_group_if<P>(&mut self, predicate: P) -> (r: bool) where
        P: FnOnce(&Group) -> bool,
        requires
            forall|x: &Group| #[trigger] call_requires(predicate, (x,)),
        ensures
            r ==> old(self)@.len() > 0 && old(self)@[0] is Group && call_ensures(
                predicate,
                (&old(self)@[0]->Group_0,),
                true,
            ) && final(self)@ == old(self)@.drop_first(),
            !r ==> final(self)@ == old(self)@ && (old(self)@.len() > 0 && old(self)@[0] is Group
                ==> call_ensures(predicate, (&old(self)@[0]->Group_0,), false)),
    {
        self.next_group_if(predicate).is_some()
    }

    /// Returns `true` if the next token is an ident.
    pub fn is_next_ident(&self) -> (r: bool)
        ensures
            r == (self@.len() > 0 && self@[0] is Ident),
    {
        if self.tokens.len() == 0 {
            return false;
        }
        match &self.tokens[0] {
            TokenTree::Ident(_) => true,
            _ => false,
        }
    }

    /// Takes the next token if it is an ident.
    pub fn next_ident(&mut self) -> (r: Option<Ident>)
        ensures
            match r {
                Some(x) => old(self)@.len() > 0 && old(self)@[0] == TokenTree::Ident(x)
                    && final(self)@ == old(self)@.drop_first(),
                None => final(self)@ == old(self)@ && !(old(self)@.len() > 0
                    && old(self)@[0] is Ident),
            },
    {
        let ghost before = self@;
        let r = self.next_if_map(TokenTree::into_ident);
        proof {
            law_into_ident_gives_back();
            if r is Some {
                law_next_if_map_success_consumes::<Ident, _>(
                    before,
                    TokenTree::into_ident,
                    r->0,
                    self@,
                );
            } else {
                law_next_if_map_refusal_restores::<Ident, _>(before, TokenTree::into_ident, self@);
            }
        }
        r
    }

    /// Takes the next token if it is an ident and `predicate` accepts it.
    pub fn next_ident_if<P>(&mut self, predicate: P) -> (r: Option<Ident>) where
        P: FnOnce(&Ident) -> bool,
        requires
            forall|x: &Ident| #[trigger] call_requires(predicate, (x,)),
        ensures
            match r {
                Some(x) => old(self)@.len() > 0 && old(self)@[0] == TokenTree::Ident(x)
                    && call_ensures(predicate, (&x,), true) && final(self)@
                    == old(self)@.drop_first(),
                None => final(self)@ == old(self)@ && (old(self)@.len() > 0
                    && old(self)@[0] is Ident ==> call_ensures(
                    predicate,
                    (&old(self)@[0]->Ident_0,),
                    false,
                )),
            },
    {
        let ghost before = self@;
        let r = self.next_if_map_and(TokenTree::into_ident, predicate);
        proof {
            law_into_ident_gives_back();
            if r is Some {
                law_next_if_map_and_success_consumes::<Ident, _, P>(
                    before,
                    TokenTree::into_ident,
                    predicate,
                    r->0,
                    self@,
                );
            } else {
                law_next_if_map_and_refusal_restores::<Ident, _, P>(
                    before,
                    TokenTree::into_ident,
                    predicate,
                    self@,
                );
                if before.len() > 0 {
                    law_next_if_map_and_refusal_by_predicate::<Ident, _, P>(
                        before,
                        TokenTree::into_ident,
                        predicate,
                        self@,
                    );
                }
            }
        }
        r
    }

    /// Takes consecutive tokens while they are idents, at most `limit` of them.
    pub fn next_idents(&mut self, limit: usize) -> (r: Vec<Ident>)
        ensures
            old(self)@ == r@.map_values(|x: Ident| TokenTree::Ident(x)) + final(self)@,
            r@.len() <= limit,
            r@.len() < limit ==> !(final(self)@.len() > 0 && final(self)@[0] is Ident),
    {
        let mut r: Vec<Ident> = Vec::new();
        loop
            invariant
                old(self)@ == r@.map_values(|x: Ident| TokenTree::Ident(x)) + self@,
                r@.len() <= limit,
            ensures
                old(self)@ == r@.map_values(|x: Ident| TokenTree::Ident(x)) + self@,
                r@.len() <= limit,
                r@.len() < limit ==> !(self@.len() > 0 && self@[0] is Ident),
            decreases self@.len(),
        {
            if r.len() >= limit {
                break;
            }
            let ghost prev = r@;
            match self.next_ident() {
                Some(x) => {
                    r.push(x);
                    assert(r@.map_values(|x: Ident| TokenTree::Ident(x)) == prev.map_values(
                        |x: Ident| TokenTree::Ident(x),
                    ).push(TokenTree::Ident(x)));
                },
                None => break,
            }
        }
        r
    }

    /// Takes consecutive tokens while they are idents that `predicate` accepts,
    /// at most `limit` of them; `predicate` is asked about none past the limit.
    pub fn next_idents_while<P>(&mut self, predicate: P, limit: usize) -> (r: Vec<Ident>) where
        P: Fn(&Ident) -> bool,
        requires
            forall|x: &Ident| #[trigger] call_requires(predicate, (x,)),
        ensures
            old(self)@ == r@.map_values(|x: Ident| TokenTree::Ident(x)) + final(self)@,
            r@.len() <= limit,
            forall|i: int| 0 <= i < r@.len() ==> call_ensures(predicate, (&#[trigger] r@[i],), true),
            r@.len() < limit && final(self)@.len() > 0 && final(self)@[0] is Ident ==> call_ensures(
                predicate,
                (&final(self)@[0]->Ident_0,),
                false,
            ),
    {
        let mut r: Vec<Ident> = Vec::new();
        loop
            invariant
                forall|x: &Ident| #[trigger] call_requires(predicate, (x,)),
                old(self)@ == r@.map_values(|x: Ident| TokenTree::Ident(x)) + self@,
                r@.len() <= limit,
                forall|i: int|
                    0 <= i < r@.len() ==> call_ensures(predicate, (&#[trigger] r@[i],), true),
            ensures
                old(self)@ == r@.map_values(|x: Ident| TokenTree::Ident(x)) + self@,
                r@.len() <= limit,
                forall|i: int|
                    0 <= i < r@.len() ==> call_ensures(predicate, (&#[trigger] r@[i],), true),
                r@.len() < limit && self@.len() > 0 && self@[0] is Ident ==> call_ensures(
                    predicate,
                    (&self@[0]->Ident_0,),
                    false,
                ),
            decreases self@.len(),
        {
            if r.len() >= limit {
                break;
            }
            let ghost prev = r@;
            match self.next_ident_if(&predicate) {
                Some(x) => {
                    r.push(x);
                    assert(r@.map_values(|x: Ident| TokenTree::Ident(x)) == prev.map_values(
                        |x: Ident| TokenTree::Ident(x),
                    ).push(TokenTree::Ident(x)));
                },
                None => break,
            }
        }
        r
    }

    /// Returns `true` and skips the next tree if it is an ident.
    pub fn skip_ident(&mut self) -> (r: bool)
        ensures
            r == (old(self)@.len() > 0 && old(self)@[0] is Ident),
            final(self)@ == if r { old(self)@.drop_first() } else { old(self)@ },
    {
        self.next_ident().is_some()
    }

    /// Returns `true` and skips the next tree if it is an ident and `predicate`
    /// accepts it.
    pub fn skip_ident_if<P>(&mut self, predicate: P) -> (r: bool) where
        P: FnOnce(&Ident) -> bool,
        requires
            forall|x: &Ident| #[trigger] call_requires(predicate, (x,)),
        ensures
            r ==> old(self)@.len() > 0 && old(self)@[0] is Ident && call_ensures(
                predicate,
                (&old(self)@[0]->Ident_0,),
                true,
            ) && final(self)@ == old(self)@.drop_first(),
            !r ==> final(self)@ == old(self)@ && (old(self)@.len() > 0 && old(self)@[0] is Ident
                ==> call_ensures(predicate, (&old(self)@[0]->Ident_0,), false)),
    {
        self.next_ident_if(predicate).is_some()
    }

    /// Returns `true` if the next token is a punct.
    pub fn is_next_punct(&self) -> (r: bool)
        ensures
            r == (self@.len() > 0 && self@[0] is Punct),
    {
        if self.tokens.len() == 0 {
            return false;
        }
        match &self.tokens[0] {
            TokenTree::Punct(_) => true,
            _ => false,
        }
    }

    /// Takes the next token if it is a punct.
    pub fn next_punct(&mut self) -> (r: Option<Punct>)
        ensures
            match r {
                Some(x) => old(self)@.len() > 0 && old(self)@[0] == TokenTree::Punct(x)
                    && final(self)@ == old(self)@.drop_first(),
                None => final(self)@ == old(self)@ && !(old(self)@.len() > 0
                    && old(self)@[0] is Punct),
            },
    {
        let ghost before = self@;
        let r = self.next_if_map(TokenTree::into_punct);
        proof {
            law_into_punct_gives_back();
            if r is Some {
                law_next_if_map_success_consumes::<Punct, _>(
                    before,
                    TokenTree::into_punct,
                    r->0,
                    self@,
                );
            } else {
                law_next_if_map_refusal_restores::<Punct, _>(before, TokenTree::into_punct, self@);
            }
        }
        r
    }

    /// Takes the next token if it is a punct and `predicate` accepts it.
    pub fn next_punct_if<P>(&mut self, predicate: P) -> (r: Option<Punct>) where
        P: FnOnce(&Punct) -> bool,
        requires
            forall|x: &Punct| #[trigger] call_requires(predicate, (x,)),
        ensures
            match r {
                Some(x) => old(self)@.len() > 0 && old(self)@[0] == TokenTree::Punct(x)
                    && call_ensures(predicate, (&x,), true) && final(self)@
                    == old(self)@.drop_first(),
                None => final(self)@ == old(self)@ && (old(self)@.len() > 0
                    && old(self)@[0] is Punct ==> call_ensures(
                    predicate,
                    (&old(self)@[0]->Punct_0,),
                    false,
                )),
            },
    {
        let ghost before = self@;
        let r = self.next_if_map_and(TokenTree::into_punct, predicate);
        proof {
            law_into_punct_gives_back();
            if r is Some {
                law_next_if_map_and_success_consumes::<Punct, _, P>(
                    before,
                    TokenTree::into_punct,
                    predicate,
                    r->0,
                    self@,
                );
            } else {
                law_next_if_map_and_refusal_restores::<Punct, _, P>(
                    before,
                    TokenTree::into_punct,
                    predicate,
                    self@,
                );
                if before.len() > 0 {
                    law_next_if_map_and_refusal_by_predicate::<Punct, _, P>(
                        before,
                        TokenTree::into_punct,
                        predicate,
                        self@,
                    );
                }
            }
        }
        r
    }

    /// Takes consecutive tokens while they are puncts, at most `limit` of them.
    pub fn next_puncts(&mut self, limit: usize) -> (r: Vec<Punct>)
        ensures
            old(self)@ == r@.map_values(|x: Punct| TokenTree::Punct(x)) + final(self)@,
            r@.len() <= limit,
            r@.len() < limit ==> !(final(self)@.len() > 0 && final(self)@[0] is Punct),
    {
        let mut r: Vec<Punct> = Vec::new();
        loop
            invariant
                old(self)@ == r@.map_values(|x: Punct| TokenTree::Punct(x)) + self@,
                r@.len() <= limit,
            ensures
                old(self)@ == r@.map_values(|x: Punct| TokenTree::Punct(x)) + self@,
                r@.len() <= limit,
                r@.len() < limit ==> !(self@.len() > 0 && self@[0] is Punct),
            decreases self@.len(),
        {
            if r.len() >= limit {
                break;
            }
            let ghost prev = r@;
            match self.next_punct() {
                Some(x) => {
                    r.push(x);
                    assert(r@.map_values(|x: Punct| TokenTree::Punct(x)) == prev.map_values(
                        |x: Punct| TokenTree::Punct(x),
                    ).push(TokenTree::Punct(x)));
                },
                None => break,
            }
        }
        r
    }

    /// Takes consecutive tokens while they are puncts that `predicate` accepts,
    /// at most `limit` of them; `predicate` is asked about none past the limit.
    pub fn next_puncts_while<P>(&mut self, predicate: P, limit: usize) -> (r: Vec<Punct>) where
        P: Fn(&Punct) -> bool,
        requires
            forall|x: &Punct| #[trigger] call_requires(predicate, (x,)),
        ensures
            old(self)@ == r@.map_values(|x: Punct| TokenTree::Punct(x)) + final(self)@,
            r@.len() <= limit,
            forall|i: int| 0 <= i < r@.len() ==> call_ensures(predicate, (&#[trigger] r@[i],), true),
            r@.len() < limit && final(self)@.len() > 0 && final(self)@[0] is Punct ==> call_ensures(
                predicate,
                (&final(self)@[0]->Punct_0,),
                false,
            ),
    {
        let mut r: Vec<Punct> = Vec::new();
        loop
            invariant
                forall|x: &Punct| #[trigger] call_requires(predicate, (x,)),
                old(self)@ == r@.map_values(|x: Punct| TokenTree::Punct(x)) + self@,
                r@.len() <= limit,
                forall|i: int|
                    0 <= i < r@.len() ==> call_ensures(predicate, (&#[trigger] r@[i],), true),
            ensures
                old(self)@ == r@.map_values(|x: Punct| TokenTree::Punct(x)) + self@,
                r@.len() <= limit,
                forall|i: int|
                    0 <= i < r@.len() ==> call_ensures(predicate, (&#[trigger] r@[i],), true),
                r@.len() < limit && self@.len() > 0 && self@[0] is Punct ==> call_ensures(
                    predicate,
                    (&self@[0]->Punct_0,),
                    false,
                ),
            decreases self@.len(),
        {
            if r.len() >= limit {
                break;
            }
            let ghost prev = r@;
            match self.next_punct_if(&predicate) {
                Some(x) => {
                    r.push(x);
                    assert(r@.map_values(|x: Punct| TokenTree::Punct(x)) == prev.map_values(
                        |x: Punct| TokenTree::Punct(x),
                    ).push(TokenTree::Punct(x)));
                },
                None => break,
            }
        }
        r
    }

    /// Returns `true` and skips the next tree if it is a punct.
    pub fn skip_punct(&mut self) -> (r: bool)
        ensures
            r == (old(self)@.len() > 0 && old(self)@[0] is Punct),
            final(self)@ == if r { old(self)@.drop_first() } else { old(self)@ },
    {
        self.next_punct().is_some()
    }

    /// Returns `true` and skips the next tree if it is a punct and `predicate`
    /// accepts it.
    pub fn skip_punct_if<P>(&mut self, predicate: P) -> (r: bool) where
        P: FnOnce(&Punct) -> bool,
        requires
            forall|x: &Punct| #[trigger] call_requires(predicate, (x,)),
        ensures
            r ==> old(self)@.len() > 0 && old(self)@[0] is Punct && call_ensures(
                predicate,
                (&old(self)@[0]->Punct_0,),
                true,
            ) && final(self)@ == old(self)@.drop_first(),
            !r ==> final(self)@ == old(self)@ && (old(self)@.len() > 0 && old(self)@[0] is Punct
                ==> call_ensures(predicate, (&old(self)@[0]->Punct_0,), false)),
    {
        self.next_punct_if(predicate).is_some()
    }

    /// Returns `true` if the next token is a literal.
    pub fn is_next_literal(&self) -> (r: bool)
        ensures
            r == (self@.len() > 0 && self@[0] is Literal),
    {
        if self.tokens.len() == 0 {
            return false;
        }
        match &self.tokens[0] {
            TokenTree::Literal(_) => true,
            _ => false,
        }
    }

    /// Takes the next token if it is a literal.
    pub fn next_literal(&mut self) -> (r: Option<Literal>)
        ensures
            match r {
                Some(x) => old(self)@.len() > 0 && old(self)@[0] == TokenTree::Literal(x)
                    && final(self)@ == old(self)@.drop_first(),
                None => final(self)@ == old(self)@ && !(old(self)@.len() > 0
                    && old(self)@[0] is Literal),
            },
    {
        let ghost before = self@;
        let r = self.next_if_map(TokenTree::into_literal);
        proof {
            law_into_literal_gives_back();
            if r is Some {
                law_next_if_map_success_consumes::<Literal, _>(
                    before,
                    TokenTree::into_literal,
                    r->0,
                    self@,
                );
            } else {
                law_next_if_map_refusal_restores::<Literal, _>(before, TokenTree::into_literal, self@);
            }
        }
        r
    }

    /// Takes the next token if it is a literal and `predicate` accepts it.
    pub fn next_literal_if<P>(&mut self, predicate: P) -> (r: Option<Literal>) where
        P: FnOnce(&Literal) -> bool,
        requires
            forall|x: &Literal| #[trigger] call_requires(predicate, (x,)),
        ensures
            match r {
                Some(x) => old(self)@.len() > 0 && old(self)@[0] == TokenTree::Literal(x)
                    && call_ensures(predicate, (&x,), true) && final(self)@
                    == old(self)@.drop_first(),
                None => final(self)@ == old(self)@ && (old(self)@.len() > 0
                    && old(self)@[0] is Literal ==> call_ensures(
                    predicate,
                    (&old(self)@[0]->Literal_0,),
                    false,
                )),
            },
    {
        let ghost before = self@;
        let r = self.next_if_map_and(TokenTree::into_literal, predicate);
        proof {
            law_into_literal_gives_back();
            if r is Some {
                law_next_if_map_and_success_consumes::<Literal, _, P>(
                    before,
                    TokenTree::into_literal,
                    predicate,
                    r->0,
                    self@,
                );
            } else {
                law_next_if_map_and_refusal_restores::<Literal, _, P>(
                    before,
                    TokenTree::into_literal,
                    predicate,
                    self@,
                );
                if before.len() > 0 {
                    law_next_if_map_and_refusal_by_predicate::<Literal, _, P>(
                        before,
                        TokenTree::into_literal,
                        predicate,
                        self@,
                    );
                }
            }
        }
        r
    }

    /// Takes consecutive tokens while they are literals, at most `limit` of them.
    pub fn next_literals(&mut self, limit: usize) -> (r: Vec<Literal>)
        ensures
            old(self)@ == r@.map_values(|x: Literal| TokenTree::Literal(x)) + final(self)@,
            r@.len() <= limit,
            r@.len() < limit ==> !(final(self)@.len() > 0 && final(self)@[0] is Literal),
    {
        let mut r: Vec<Literal> = Vec::new();
        loop
            invariant
                old(self)@ == r@.map_values(|x: Literal| TokenTree::Literal(x)) + self@,
                r@.len() <= limit,
            ensures
                old(self)@ == r@.map_values(|x: Literal| TokenTree::Literal(x)) + self@,
                r@.len() <= limit,
                r@.len() < limit ==> !(self@.len() > 0 && self@[0] is Literal),
            decreases self@.len(),
        {
            if r.len() >= limit {
                break;
            }
            let ghost prev = r@;
            match self.next_literal() {
                Some(x) => {
                    r.push(x);
                    assert(r@.map_values(|x: Literal| TokenTree::Literal(x)) == prev.map_values(
                        |x: Literal| TokenTree::Literal(x),
                    ).push(TokenTree::Literal(x)));
                },
                None => break,
            }
        }
        r
    }

    /// Takes consecutive tokens while they are literals that `predicate` accepts,
    /// at most `limit` of them; `predicate` is asked about none past the limit.
    pub fn next_literals_while<P>(&mut self, predicate: P, limit: usize) -> (r: Vec<Literal>) where
        P: Fn(&Literal) -> bool,
        requires
            forall|x: &Literal| #[trigger] call_requires(predicate, (x,)),
        ensures
            old(self)@ == r@.map_values(|x: Literal| TokenTree::Literal(x)) + final(self)@,
            r@.len() <= limit,
            forall|i: int| 0 <= i < r@.len() ==> call_ensures(predicate, (&#[trigger] r@[i],), true),
            r@.len() < limit && final(self)@.len() > 0 && final(self)@[0] is Literal ==> call_ensures(
                predicate,
                (&final(self)@[0]->Literal_0,),
                false,
            ),
    {
        let mut r: Vec<Literal> = Vec::new();
        loop
            invariant
                forall|x: &Literal| #[trigger] call_requires(predicate, (x,)),
                old(self)@ == r@.map_values(|x: Literal| TokenTree::Literal(x)) + self@,
                r@.len() <= limit,
                forall|i: int|
                    0 <= i < r@.len() ==> call_ensures(predicate, (&#[trigger] r@[i],), true),
            ensures
                old(self)@ == r@.map_values(|x: Literal| TokenTree::Literal(x)) + self@,
                r@.len() <= limit,
                forall|i: int|
                    0 <= i < r@.len() ==> call_ensures(predicate, (&#[trigger] r@[i],), true),
                r@.len() < limit && self@.len() > 0 && self@[0] is Literal ==> call_ensures(
                    predicate,
                    (&self@[0]->Literal_0,),
                    false,
                ),
            decreases self@.len(),
        {
            if r.len() >= limit {
                break;
            }
            let ghost prev = r@;
            match self.next_literal_if(&predicate) {
                Some(x) => {
                    r.push(x);
                    assert(r@.map_values(|x: Literal| TokenTree::Literal(x)) == prev.map_values(
                        |x: Literal| TokenTree::Literal(x),
                    ).push(TokenTree::Literal(x)));
                },
                None => break,
            }
        }
        r
    }

    /// Returns `true` and skips the next tree if it is a literal.
    pub fn skip_literal(&mut self) -> (r: bool)
        ensures
            r == (old(self)@.len() > 0 && old(self)@[0] is Literal),
            final(self)@ == if r { old(self)@.drop_first() } else { old(self)@ },
    {
        self.next_literal().is_some()
    }

    /// Returns `true` and skips the next tree if it is a literal and `predicate`
    /// accepts it.
    pub fn skip_literal_if<P>(&mut self, predicate: P) -> (r: bool) where
        P: FnOnce(&Literal) -> bool,
        requires
            forall|x: &Literal| #[trigger] call_requires(predicate, (x,)),
        ensures
            r ==> old(self)@.len() > 0 && old(self)@[0] is Literal && call_ensures(
                predicate,
                (&old(self)@[0]->Literal_0,),
                true,
            ) && final(self)@ == old(self)@.drop_first(),
            !r ==> final(self)@ == old(self)@ && (old(self)@.len() > 0 && old(self)@[0] is Literal
                ==> call_ensures(predicate, (&old(self)@[0]->Literal_0,), false)),
    {
        self.next_literal_if(predicate).is_some()
    }
}

impl Clone for Parser {
    /// Copies the parser: the remaining trees are copied one by one.
    fn clone(&self) -> (r: Self)
        ensures
            r@.len() == self@.len(),
            forall|i: int| 0 <= i < self@.len() ==> #[trigger] tree_copy(r@[i], self@[i]),
    {
        let n = self.tokens.len();
        let mut tokens: VecDeque<TokenTree> = VecDeque::new();
        let mut i: usize = 0;
        while i < n
            invariant
                n == self@.len(),
                0 <= i <= n,
                tokens@.len() == i,
                forall|j: int| 0 <= j < i ==> #[trigger] tree_copy(tokens@[j], self@[j]),
            decreases n - i,
        {
            tokens.push_back(clone_tree(&self.tokens[i]));
            i = i + 1;
        }
        Parser { tokens }
    }
}

/// A mapping function gives back what it cannot map: on `Err` it returns its
/// argument, and a mapped value converts back into its argument. The
/// conversions of `TokenTreeExt` (`into_group`, ...) are such functions.
pub open spec fn gives_back<T, M: FnOnce(TokenTree) -> Result<T, TokenTree>>(map: M) -> bool where
    TokenTree: From<T>,
 {
    &&& <TokenTree as FromSpec<T>>::obeys_from_spec()
    &&& forall|x: TokenTree, out: Result<T, TokenTree>| #[trigger]
        call_ensures(map, (x,), out) ==> match out {
            Ok(t) => <TokenTree as FromSpec<T>>::from_spec(t) == x,
            Err(o) => o == x,
        }
}

/// A refused `next_if_map` by a mapping function that gives back its
/// argument leaves the parser as it was.
pub proof fn law_next_if_map_refusal_restores<T, M>(
    before: Seq<TokenTree>,
    map: M,
    after: Seq<TokenTree>,
) where
    TokenTree: From<T>,
    M: FnOnce(TokenTree) -> Result<T, TokenTree>,

    requires
        if_map_post(before, map, None::<T>, after),
        gives_back::<T, M>(map),
    ensures
        after == before,
{
    if before.len() > 0 {
        let out = choose|out: Result<T, TokenTree>|
            #[trigger] call_ensures(map, (before[0],), out) && map_step(before, out, None::<T>, after);
        assert(after =~= before);
    }
}

/// A successful `next_if_map` consumes exactly the first tree, which the
/// mapping function mapped to the result.
pub proof fn law_next_if_map_success_consumes<T, M>(
    before: Seq<TokenTree>,
    map: M,
    t: T,
    after: Seq<TokenTree>,
) where M: FnOnce(TokenTree) -> Result<T, TokenTree>
    requires
        if_map_post(before, map, Some(t), after),
    ensures
        before.len() >= 1,
        after == before.skip(1),
        call_ensures(map, (before[0],), Ok::<T, TokenTree>(t)),
{
    let out = choose|out: Result<T, TokenTree>|
        #[trigger] call_ensures(map, (before[0],), out) && map_step(before, out, Some(t), after);
    assert(after =~= before.skip(1));
}

/// A refused `next_if_map_and` by a mapping function that gives back its
/// argument leaves the parser as it was, whatever the predicate said.
pub proof fn law_next_if_map_and_refusal_restores<T, M, P>(
    before: Seq<TokenTree>,
    map: M,
    predicate: P,
    after: Seq<TokenTree>,
) where
    TokenTree: From<T>,
    M: FnOnce(TokenTree) -> Result<T, TokenTree>,
    P: FnOnce(&T) -> bool,

    requires
        if_map_and_post(before, map, predicate, None::<T>, after),
        gives_back::<T, M>(map),
    ensures
        after == before,
{
    if before.len() > 0 {
        let out = choose|out: Result<T, TokenTree>| #[trigger]
            call_ensures(map, (before[0],), out) && match out {
                Err(o) => after == seq![o] + before.drop_first(),
                Ok(t) => exists|b: bool| #[trigger]
                    call_ensures(predicate, (&t,), b) && if b {
                        None::<T> == Some(t) && after == before.drop_first()
                    } else {
                        after == seq![<TokenTree as FromSpec<T>>::from_spec(t)]
                            + before.drop_first()
                    },
            };
        assert(after =~= before);
    }
}

/// When `next_if_map_and` refuses a tree that the mapping function mapped,
/// the predicate refused the mapped value.
pub proof fn law_next_if_map_and_refusal_by_predicate<T, M, P>(
    before: Seq<TokenTree>,
    map: M,
    predicate: P,
    after: Seq<TokenTree>,
) where
    TokenTree: From<T>,
    M: FnOnce(TokenTree) -> Result<T, TokenTree>,
    P: FnOnce(&T) -> bool,

    requires
        if_map_and_post(before, map, predicate, None::<T>, after),
        before.len() > 0,
    ensures
        exists|out: Result<T, TokenTree>| #[trigger]
            call_ensures(map, (before[0],), out) && (out is Ok ==> call_ensures(
                predicate,
                (&out->Ok_0,),
                false,
            )),
{
    let out = choose|out: Result<T, TokenTree>| #[trigger]
        call_ensures(map, (before[0],), out) && match out {
            Err(o) => after == seq![o] + before.drop_first(),
            Ok(t) => exists|b: bool| #[trigger]
                call_ensures(predicate, (&t,), b) && if b {
                    None::<T> == Some(t) && after == before.drop_first()
                } else {
                    after == seq![<TokenTree as FromSpec<T>>::from_spec(t)] + before.drop_first()
                },
        };
    assert(call_ensures(map, (before[0],), out));
}

/// A successful `next_if_map_and` consumes exactly the first tree, which was
/// mapped to the result, and the predicate accepted it.
pub proof fn law_next_if_map_and_success_consumes<T, M, P>(
    before: Seq<TokenTree>,
    map: M,
    predicate: P,
    t: T,
    after: Seq<TokenTree>,
) where
    TokenTree: From<T>,
    M: FnOnce(TokenTree) -> Result<T, TokenTree>,
    P: FnOnce(&T) -> bool,

    requires
        if_map_and_post(before, map, predicate, Some(t), after),
    ensures
        before.len() >= 1,
        after == before.skip(1),
        call_ensures(map, (before[0],), Ok::<T, TokenTree>(t)),
        call_ensures(predicate, (&t,), true),
{
    assert(before.len() >= 1);
    assert(after =~= before.skip(1));
}

/// A refused `next2_if_map` by mapping functions that give back their
/// arguments leaves the parser as it was.
pub proof fn law_next2_if_map_refusal_restores<T1, M1, T2, M2>(
    before: Seq<TokenTree>,
    map1: M1,
    map2: M2,
    after: Seq<TokenTree>,
) where
    TokenTree: From<T1>,
    TokenTree: From<T2>,
    M1: FnOnce(TokenTree) -> Result<T1, TokenTree>,
    M2: FnOnce(TokenTree) -> Result<T2, TokenTree>,

    requires
        if_map2_post(before, map1, map2, None::<(T1, T2)>, after),
        gives_back::<T1, M1>(map1),
        gives_back::<T2, M2>(map2),
    ensures
        after == before,
{
    let (r1, mid) = choose|r1: Option<T1>, mid: Seq<TokenTree>| #[trigger]
        if_map_post(before, map1, r1, mid) && match r1 {
            None => None::<(T1, T2)> is None && after == mid,
            Some(t1) => exists|r2: Option<T2>, mid2: Seq<TokenTree>| #[trigger]
                if_map_post(mid, map2, r2, mid2) && match r2 {
                    Some(t2) => None::<(T1, T2)> == Some((t1, t2)) && after == mid2,
                    None => after == seq![<TokenTree as FromSpec<T1>>::from_spec(t1)] + mid2,
                },
        };
    match r1 {
        None => {
            law_next_if_map_refusal_restores::<T1, M1>(before, map1, mid);
        },
        Some(t1) => {
            law_next_if_map_success_consumes::<T1, M1>(before, map1, t1, mid);
            let (r2, mid2) = choose|r2: Option<T2>, mid2: Seq<TokenTree>| #[trigger]
                if_map_post(mid, map2, r2, mid2) && match r2 {
                    Some(t2) => None::<(T1, T2)> == Some((t1, t2)) && after == mid2,
                    None => after == seq![<TokenTree as FromSpec<T1>>::from_spec(t1)] + mid2,
                };
            law_next_if_map_refusal_restores::<T2, M2>(mid, map2, mid2);
            assert(after =~= before);
        },
    }
}

/// A successful `next2_if_map` consumes exactly the first two trees, which
/// the mapping functions mapped to the results.
pub proof fn law_next2_if_map_success_consumes<T1, M1, T2, M2>(
    before: Seq<TokenTree>,
    map1: M1,
    map2: M2,
    t1: T1,
    t2: T2,
    after: Seq<TokenTree>,
) where
    TokenTree: From<T1>,
    M1: FnOnce(TokenTree) -> Result<T1, TokenTree>,
    M2: FnOnce(TokenTree) -> Result<T2, TokenTree>,

    requires
        if_map2_post(before, map1, map2, Some((t1, t2)), after),
    ensures
        before.len() >= 2,
        after == before.skip(2),
        call_ensures(map1, (before[0],), Ok::<T1, TokenTree>(t1)),
        call_ensures(map2, (before[1],), Ok::<T2, TokenTree>(t2)),
{
    let (r1, mid) = choose|r1: Option<T1>, mid: Seq<TokenTree>| #[trigger]
        if_map_post(before, map1, r1, mid) && match r1 {
            None => Some((t1, t2)) is None && after == mid,
            Some(u1) => exists|r2: Option<T2>, mid2: Seq<TokenTree>| #[trigger]
                if_map_post(mid, map2, r2, mid2) && match r2 {
                    Some(u2) => Some((t1, t2)) == Some((u1, u2)) && after == mid2,
                    None => Some((t1, t2)) is None,
                },
        };
    let u1 = r1->0;
    law_next_if_map_success_consumes::<T1, M1>(before, map1, u1, mid);
    let (r2, mid2) = choose|r2: Option<T2>, mid2: Seq<TokenTree>| #[trigger]
        if_map_post(mid, map2, r2, mid2) && match r2 {
            Some(u2) => Some((t1, t2)) == Some((u1, u2)) && after == mid2,
            None => Some((t1, t2)) is None,
        };
    let u2 = r2->0;
    law_next_if_map_success_consumes::<T2, M2>(mid, map2, u2, mid2);
    assert(after =~= before.skip(2));
}

/// A refused `next2_if_map_and` by mapping functions that give back their
/// arguments leaves the parser as it was, whatever the predicates said.
pub proof fn law_next2_if_map_and_refusal_restores<T1, M1, P1, T2, M2, P2>(
    before: Seq<TokenTree>,
    map1: M1,
    predicate1: P1,
    map2: M2,
    predicate2: P2,
    after: Seq<TokenTree>,
) where
    TokenTree: From<T1>,
    TokenTree: From<T2>,
    M1: FnOnce(TokenTree) -> Result<T1, TokenTree>,
    P1: FnOnce(&T1) -> bool,
    M2: FnOnce(TokenTree) -> Result<T2, TokenTree>,
    P2: FnOnce(&T2) -> bool,

    requires
        if_map2_and_post(before, map1, predicate1, map2, predicate2, None::<(T1, T2)>, after),
        gives_back::<T1, M1>(map1),
        gives_back::<T2, M2>(map2),
    ensures
        after == before,
{
    let (r1, mid) = choose|r1: Option<T1>, mid: Seq<TokenTree>| #[trigger]
        if_map_and_post(before, map1, predicate1, r1, mid) && match r1 {
            None => None::<(T1, T2)> is None && after == mid,
            Some(t1) => exists|r2: Option<T2>, mid2: Seq<TokenTree>| #[trigger]
                if_map_and_post(mid, map2, predicate2, r2, mid2) && match r2 {
                    Some(t2) => None::<(T1, T2)> == Some((t1, t2)) && after == mid2,
                    None => after == seq![<TokenTree as FromSpec<T1>>::from_spec(t1)] + mid2,
                },
        };
    match r1 {
        None => {
            law_next_if_map_and_refusal_restores::<T1, M1, P1>(before, map1, predicate1, mid);
        },
        Some(t1) => {
            law_next_if_map_and_success_consumes::<T1, M1, P1>(
                before,
                map1,
                predicate1,
                t1,
                mid,
            );
            let (r2, mid2) = choose|r2: Option<T2>, mid2: Seq<TokenTree>| #[trigger]
                if_map_and_post(mid, map2, predicate2, r2, mid2) && match r2 {
                    Some(t2) => None::<(T1, T2)> == Some((t1, t2)) && after == mid2,
                    None => after == seq![<TokenTree as FromSpec<T1>>::from_spec(t1)] + mid2,
                };
            law_next_if_map_and_refusal_restores::<T2, M2, P2>(mid, map2, predicate2, mid2);
            assert(after =~= before);
        },
    }
}

/// A successful `next2_if_map_and` consumes exactly the first two trees,
/// which were mapped to the results, and the predicates accepted them.
pub proof fn law_next2_if_map_and_success_consumes<T1, M1, P1, T2, M2, P2>(
    before: Seq<TokenTree>,
    map1: M1,
    predicate1: P1,
    map2: M2,
    predicate2: P2,
    t1: T1,
    t2: T2,
    after: Seq<TokenTree>,
) where
    TokenTree: From<T1>,
    TokenTree: From<T2>,
    M1: FnOnce(TokenTree) -> Result<T1, TokenTree>,
    P1: FnOnce(&T1) -> bool,
    M2: FnOnce(TokenTree) -> Result<T2, TokenTree>,
    P2: FnOnce(&T2) -> bool,

    requires
        if_map2_and_post(before, map1, predicate1, map2, predicate2, Some((t1, t2)), after),
    ensures
        before.len() >= 2,
        after == before.skip(2),
        call_ensures(map1, (before[0],), Ok::<T1, TokenTree>(t1)),
        call_ensures(predicate1, (&t1,), true),
        call_ensures(map2, (before[1],), Ok::<T2, TokenTree>(t2)),
        call_ensures(predicate2, (&t2,), true),
{
    let (r1, mid) = choose|r1: Option<T1>, mid: Seq<TokenTree>| #[trigger]
        if_map_and_post(before, map1, predicate1, r1, mid) && match r1 {
            None => Some((t1, t2)) is None && after == mid,
            Some(u1) => exists|r2: Option<T2>, mid2: Seq<TokenTree>| #[trigger]
                if_map_and_post(mid, map2, predicate2, r2, mid2) && match r2 {
                    Some(u2) => Some((t1, t2)) == Some((u1, u2)) && after == mid2,
                    None => Some((t1, t2)) is None,
                },
        };
    let u1 = r1->0;
    law_next_if_map_and_success_consumes::<T1, M1, P1>(before, map1, predicate1, u1, mid);
    let (r2, mid2) = choose|r2: Option<T2>, mid2: Seq<TokenTree>| #[trigger]
        if_map_and_post(mid, map2, predicate2, r2, mid2) && match r2 {
            Some(u2) => Some((t1, t2)) == Some((u1, u2)) && after == mid2,
            None => Some((t1, t2)) is None,
        };
    let u2 = r2->0;
    law_next_if_map_and_success_consumes::<T2, M2, P2>(mid, map2, predicate2, u2, mid2);
    assert(after =~= before.skip(2));
}

/// A refused `next3_if_map` by mapping functions that give back their
/// arguments leaves the parser as it was.
pub proof fn law_next3_if_map_refusal_restores<T1, M1, T2, M2, T3, M3>(
    before: Seq<TokenTree>,
    map1: M1,
    map2: M2,
    map3: M3,
    after: Seq<TokenTree>,
) where
    TokenTree: From<T1>,
    TokenTree: From<T2>,
    TokenTree: From<T3>,
    M1: FnOnce(TokenTree) -> Result<T1, TokenTree>,
    M2: FnOnce(TokenTree) -> Result<T2, TokenTree>,
    M3: FnOnce(TokenTree) -> Result<T3, TokenTree>,

    requires
        if_map3_post(before, map1, map2, map3, None::<(T1, T2, T3)>, after),
        gives_back::<T1, M1>(map1),
        gives_back::<T2, M2>(map2),
        gives_back::<T3, M3>(map3),
    ensures
        after == before,
{
    let (r12, mid) = choose|r12: Option<(T1, T2)>, mid: Seq<TokenTree>| #[trigger]
        if_map2_post(before, map1, map2, r12, mid) && match r12 {
            None => after == mid,
            Some(t12) => exists|r3: Option<T3>, mid3: Seq<TokenTree>| #[trigger]
                if_map_post(mid, map3, r3, mid3) && match r3 {
                    Some(t3) => None::<(T1, T2, T3)> == Some((t12.0, t12.1, t3)) && after == mid3,
                    None => after == seq![
                        <TokenTree as FromSpec<T1>>::from_spec(t12.0),
                        <TokenTree as FromSpec<T2>>::from_spec(t12.1),
                    ] + mid3,
                },
        };
    match r12 {
        None => {
            law_next2_if_map_refusal_restores::<T1, M1, T2, M2>(before, map1, map2, mid);
        },
        Some(t12) => {
            law_next2_if_map_success_consumes::<T1, M1, T2, M2>(
                before,
                map1,
                map2,
                t12.0,
                t12.1,
                mid,
            );
            let (r3, mid3) = choose|r3: Option<T3>, mid3: Seq<TokenTree>| #[trigger]
                if_map_post(mid, map3, r3, mid3) && match r3 {
                    Some(t3) => None::<(T1, T2, T3)> == Some((t12.0, t12.1, t3)) && after == mid3,
                    None => after == seq![
                        <TokenTree as FromSpec<T1>>::from_spec(t12.0),
                        <TokenTree as FromSpec<T2>>::from_spec(t12.1),
                    ] + mid3,
                };
            law_next_if_map_refusal_restores::<T3, M3>(mid, map3, mid3);
            assert(after =~= before);
        },
    }
}

/// A successful `next3_if_map` consumes exactly the first three trees, which
/// the mapping functions mapped to the results.
pub proof fn law_next3_if_map_success_consumes<T1, M1, T2, M2, T3, M3>(
    before: Seq<TokenTree>,
    map1: M1,
    map2: M2,
    map3: M3,
    t1: T1,
    t2: T2,
    t3: T3,
    after: Seq<TokenTree>,
) where
    TokenTree: From<T1>,
    TokenTree: From<T2>,
    M1: FnOnce(TokenTree) -> Result<T1, TokenTree>,
    M2: FnOnce(TokenTree) -> Result<T2, TokenTree>,
    M3: FnOnce(TokenTree) -> Result<T3, TokenTree>,

    requires
        if_map3_post(before, map1, map2, map3, Some((t1, t2, t3)), after),
    ensures
        before.len() >= 3,
        after == before.skip(3),
        call_ensures(map1, (before[0],), Ok::<T1, TokenTree>(t1)),
        call_ensures(map2, (before[1],), Ok::<T2, TokenTree>(t2)),
        call_ensures(map3, (before[2],), Ok::<T3, TokenTree>(t3)),
{
    let (r12, mid) = choose|r12: Option<(T1, T2)>, mid: Seq<TokenTree>| #[trigger]
        if_map2_post(before, map1, map2, r12, mid) && match r12 {
            None => Some((t1, t2, t3)) is None,
            Some(u12) => exists|r3: Option<T3>, mid3: Seq<TokenTree>| #[trigger]
                if_map_post(mid, map3, r3, mid3) && match r3 {
                    Some(u3) => Some((t1, t2, t3)) == Some((u12.0, u12.1, u3)) && after == mid3,
                    None => Some((t1, t2, t3)) is None,
                },
        };
    let u12 = r12->0;
    law_next2_if_map_success_consumes::<T1, M1, T2, M2>(before, map1, map2, u12.0, u12.1, mid);
    let (r3, mid3) = choose|r3: Option<T3>, mid3: Seq<TokenTree>| #[trigger]
        if_map_post(mid, map3, r3, mid3) && match r3 {
            Some(u3) => Some((t1, t2, t3)) == Some((u12.0, u12.1, u3)) && after == mid3,
            None => Some((t1, t2, t3)) is None,
        };
    let u3 = r3->0;
    law_next_if_map_success_consumes::<T3, M3>(mid, map3, u3, mid3);
    assert(after =~= before.skip(3));
}

/// A refused `next3_if_map_and` by mapping functions that give back their
/// arguments leaves the parser as it was, whatever the predicates said.
pub proof fn law_next3_if_map_and_refusal_restores<T1, M1, P1, T2, M2, P2, T3, M3, P3>(
    before: Seq<TokenTree>,
    map1: M1,
    predicate1: P1,
    map2: M2,
    predicate2: P2,
    map3: M3,
    predicate3: P3,
    after: Seq<TokenTree>,
) where
    TokenTree: From<T1>,
    TokenTree: From<T2>,
    TokenTree: From<T3>,
    M1: FnOnce(TokenTree) -> Result<T1, TokenTree>,
    P1: FnOnce(&T1) -> bool,
    M2: FnOnce(TokenTree) -> Result<T2, TokenTree>,
    P2: FnOnce(&T2) -> bool,
    M3: FnOnce(TokenTree) -> Result<T3, TokenTree>,
    P3: FnOnce(&T3) -> bool,

    requires
        if_map3_and_post(
            before,
            map1,
            predicate1,
            map2,
            predicate2,
            map3,
            predicate3,
            None::<(T1, T2, T3)>,
            after,
        ),
        gives_back::<T1, M1>(map1),
        gives_back::<T2, M2>(map2),
        gives_back::<T3, M3>(map3),
    ensures
        after == before,
{
    let (r12, mid) = choose|r12: Option<(T1, T2)>, mid: Seq<TokenTree>| #[trigger]
        if_map2_and_post(before, map1, predicate1, map2, predicate2, r12, mid) && match r12 {
            None => after == mid,
            Some(t12) => exists|r3: Option<T3>, mid3: Seq<TokenTree>| #[trigger]
                if_map_and_post(mid, map3, predicate3, r3, mid3) && match r3 {
                    Some(t3) => None::<(T1, T2, T3)> == Some((t12.0, t12.1, t3)) && after == mid3,
                    None => after == seq![
                        <TokenTree as FromSpec<T1>>::from_spec(t12.0),
                        <TokenTree as FromSpec<T2>>::from_spec(t12.1),
                    ] + mid3,
                },
        };
    match r12 {
        None => {
            law_next2_if_map_and_refusal_restores::<T1, M1, P1, T2, M2, P2>(
                before,
                map1,
                predicate1,
                map2,
                predicate2,
                mid,
            );
        },
        Some(t12) => {
            law_next2_if_map_and_success_consumes::<T1, M1, P1, T2, M2, P2>(
                before,
                map1,
                predicate1,
                map2,
                predicate2,
                t12.0,
                t12.1,
                mid,
            );
            let (r3, mid3) = choose|r3: Option<T3>, mid3: Seq<TokenTree>| #[trigger]
                if_map_and_post(mid, map3, predicate3, r3, mid3) && match r3 {
                    Some(t3) => None::<(T1, T2, T3)> == Some((t12.0, t12.1, t3)) && after == mid3,
                    None => after == seq![
                        <TokenTree as FromSpec<T1>>::from_spec(t12.0),
                        <TokenTree as FromSpec<T2>>::from_spec(t12.1),
                    ] + mid3,
                };
            law_next_if_map_and_refusal_restores::<T3, M3, P3>(mid, map3, predicate3, mid3);
            assert(after =~= before);
        },
    }
}

/// A successful `next3_if_map_and` consumes exactly the first three trees,
/// which were mapped to the results, and the predicates accepted them.
pub proof fn law_next3_if_map_and_success_consumes<T1, M1, P1, T2, M2, P2, T3, M3, P3>(
    before: Seq<TokenTree>,
    map1: M1,
    predicate1: P1,
    map2: M2,
    predicate2: P2,
    map3: M3,
    predicate3: P3,
    t1: T1,
    t2: T2,
    t3: T3,
    after: Seq<TokenTree>,
) where
    TokenTree: From<T1>,
    TokenTree: From<T2>,
    TokenTree: From<T3>,
    M1: FnOnce(TokenTree) -> Result<T1, TokenTree>,
    P1: FnOnce(&T1) -> bool,
    M2: FnOnce(TokenTree) -> Result<T2, TokenTree>,
    P2: FnOnce(&T2) -> bool,
    M3: FnOnce(TokenTree) -> Result<T3, TokenTree>,
    P3: FnOnce(&T3) -> bool,

    requires
        if_map3_and_post(
            before,
            map1,
            predicate1,
            map2,
            predicate2,
            map3,
            predicate3,
            Some((t1, t2, t3)),
            after,
        ),
    ensures
        before.len() >= 3,
        after == before.skip(3),
        call_ensures(map1, (before[0],), Ok::<T1, TokenTree>(t1)),
        call_ensures(predicate1, (&t1,), true),
        call_ensures(map2, (before[1],), Ok::<T2, TokenTree>(t2)),
        call_ensures(predicate2, (&t2,), true),
        call_ensures(map3, (before[2],), Ok::<T3, TokenTree>(t3)),
        call_ensures(predicate3, (&t3,), true),
{
    let (r12, mid) = choose|r12: Option<(T1, T2)>, mid: Seq<TokenTree>| #[trigger]
        if_map2_and_post(before, map1, predicate1, map2, predicate2, r12, mid) && match r12 {
            None => Some((t1, t2, t3)) is None,
            Some(u12) => exists|r3: Option<T3>, mid3: Seq<TokenTree>| #[trigger]
                if_map_and_post(mid, map3, predicate3, r3, mid3) && match r3 {
                    Some(u3) => Some((t1, t2, t3)) == Some((u12.0, u12.1, u3)) && after == mid3,
                    None => Some((t1, t2, t3)) is None,
                },
        };
    let u12 = r12->0;
    law_next2_if_map_and_success_consumes::<T1, M1, P1, T2, M2, P2>(
        before,
        map1,
        predicate1,
        map2,
        predicate2,
        u12.0,
        u12.1,
        mid,
    );
    let (r3, mid3) = choose|r3: Option<T3>, mid3: Seq<TokenTree>| #[trigger]
        if_map_and_post(mid, map3, predicate3, r3, mid3) && match r3 {
            Some(u3) => Some((t1, t2, t3)) == Some((u12.0, u12.1, u3)) && after == mid3,
            None => Some((t1, t2, t3)) is None,
        };
    let u3 = r3->0;
    law_next_if_map_and_success_consumes::<T3, M3, P3>(mid, map3, predicate3, u3, mid3);
    assert(after =~= before.skip(3));
}

/// The conversion `TokenTree::into_group` gives back what it cannot convert,
/// so the laws on refusals apply to it.
pub proof fn law_into_group_gives_back()
    ensures
        gives_back::<Group, _>(TokenTree::into_group),
{
}

/// The conversion `TokenTree::into_ident` gives back what it cannot convert,
/// so the laws on refusals apply to it.
pub proof fn law_into_ident_gives_back()
    ensures
        gives_back::<Ident, _>(TokenTree::into_ident),
{
}

/// The conversion `TokenTree::into_punct` gives back what it cannot convert,
/// so the laws on refusals apply to it.
pub proof fn law_into_punct_gives_back()
    ensures
        gives_back::<Punct, _>(TokenTree::into_punct),
{
}

/// The conversion `TokenTree::into_literal` gives back what it cannot convert,
/// so the laws on refusals apply to it.
pub proof fn law_into_literal_gives_back()
    ensures
        gives_back::<Literal, _>(TokenTree::into_literal),
{
}

} // verus!
