use proc_macro2::{Delimiter as PmDelimiter, Spacing as PmSpacing, Span};
use tout::extension::{GroupExt, IdentExt, PunctExt, TokenStreamExt, TokenTreeExt};
use tout::parser::Parser;
use tout::token::{Delimiter, Group, Ident, Literal, Punct, Spacing, TokenStream, TokenTree};

fn convert(stream: proc_macro2::TokenStream) -> TokenStream {
    let mut trees = Vec::new();
    for tree in stream {
        trees.push(convert_tree(tree));
    }
    TokenStream { trees }
}

fn convert_tree(tree: proc_macro2::TokenTree) -> TokenTree {
    match tree {
        proc_macro2::TokenTree::Group(g) => TokenTree::Group(Group {
            delimiter: match g.delimiter() {
                PmDelimiter::Parenthesis => Delimiter::Parenthesis,
                PmDelimiter::Brace => Delimiter::Brace,
                PmDelimiter::Bracket => Delimiter::Bracket,
                PmDelimiter::None => Delimiter::Undelimited,
            },
            stream: convert(g.stream()),
            span: g.span(),
        }),
        proc_macro2::TokenTree::Ident(i) => TokenTree::Ident(Ident::new(&i.to_string(), i.span())),
        proc_macro2::TokenTree::Punct(p) => TokenTree::Punct(Punct {
            ch: p.as_char(),
            spacing: match p.spacing() {
                PmSpacing::Alone => Spacing::Alone,
                PmSpacing::Joint => Spacing::Joint,
            },
            span: p.span(),
        }),
        proc_macro2::TokenTree::Literal(l) => {
            TokenTree::Literal(Literal::from_repr(&l.to_string(), l.span()))
        }
    }
}

fn stream(src: &str) -> TokenStream {
    convert(src.parse().expect("couldn't parse tokens"))
}

fn tree(src: &str) -> TokenTree {
    stream(src).trees.remove(0)
}

fn group(src: &str) -> Group {
    tree(src).into_group().ok().expect("expected a group")
}

fn ident(src: &str) -> Ident {
    tree(src).into_ident().ok().expect("expected an ident")
}

fn punct(src: &str) -> Punct {
    tree(src).into_punct().ok().expect("expected a punct")
}

fn parser(src: &str) -> Parser {
    Parser::new(stream(src))
}

#[test]
fn first_follows_the_parser() {
    let mut parser = parser("number < 10");
    assert!(parser.first().unwrap().equals(&tree("number")));
    parser.next_tree();
    assert!(parser.first().unwrap().equals(&tree("<")));
}

#[test]
fn peek_follows_the_parser() {
    let mut parser = parser("number < 10");
    assert!(parser.peek(1).unwrap().equals(&tree("<")));
    parser.next_tree();
    assert!(parser.peek(1).unwrap().equals(&tree("10")));
    assert!(parser.peek(2).is_none());
}

#[test]
fn stream_empties_the_parser() {
    let mut parser = parser("number < 10");
    assert!(!parser.is_empty());
    assert_eq!(parser.len(), 3);
    let rest = parser.stream();
    assert!(rest.equals(&stream("number < 10")));
    assert!(parser.is_empty());
    assert_eq!(parser.len(), 0);
}

#[test]
fn next2_if_map_takes_two() {
    let mut parser = parser("data[3].x");
    let (ident, group) = parser
        .next2_if_map(TokenTree::into_ident, TokenTree::into_group)
        .unwrap();
    assert!(ident.equals(&self::ident("data")));
    assert!(group.equals(&self::group("[3]")));
    assert!(parser.stream().equals(&stream(".x")));
}

#[test]
fn next2_if_map_refusal_restores() {
    let mut parser = parser("data.x[3]");
    let parsed = parser.next2_if_map(TokenTree::into_ident, TokenTree::into_group);
    assert!(parsed.is_none());
    assert!(parser.stream().equals(&stream("data.x[3]")));
}

#[test]
fn next3_if_map_and_takes_three() {
    let mut parser = parser("$(,)? %");
    let (punct1, group, punct2) = parser
        .next3_if_map_and(
            TokenTree::into_punct,
            |punct: &Punct| punct.is_char('$'),
            TokenTree::into_group,
            Group::is_parenthesized,
            TokenTree::into_punct,
            |punct: &Punct| punct.is_char('?'),
        )
        .unwrap();
    assert!(punct1.equals(&punct("$")));
    assert!(group.equals(&self::group("(,)")));
    assert!(punct2.equals(&punct("?")));
    assert!(parser.stream().equals(&stream("%")));
}

#[test]
fn next3_if_map_and_refusal_restores() {
    let mut parser = parser("$(,)* %");
    let parsed = parser.next3_if_map_and(
        TokenTree::into_punct,
        |punct: &Punct| punct.is_char('$'),
        TokenTree::into_group,
        Group::is_parenthesized,
        TokenTree::into_punct,
        |punct: &Punct| punct.is_char('?'),
    );
    assert!(parsed.is_none());
    assert!(parser.stream().equals(&stream("$(,)* %")));
}

#[test]
fn next3_if_map_takes_three_or_restores() {
    let mut parser = parser("a b c d");
    let taken = parser.next3_if_map(
        TokenTree::into_ident,
        TokenTree::into_ident,
        TokenTree::into_ident,
    );
    let (a, b, c) = taken.unwrap();
    assert_eq!(a.to_string(), "a");
    assert_eq!(b.to_string(), "b");
    assert_eq!(c.to_string(), "c");
    assert!(parser.stream().equals(&stream("d")));

    let mut parser = self::parser("a b ; d");
    let refused = parser.next3_if_map(
        TokenTree::into_ident,
        TokenTree::into_ident,
        TokenTree::into_ident,
    );
    assert!(refused.is_none());
    assert!(parser.stream().equals(&stream("a b ; d")));
}

#[test]
fn next2_if_map_and_refusal_by_predicate_restores() {
    let mut parser = parser("let x = 5;");
    let refused = parser.next2_if_map_and(
        TokenTree::into_ident,
        |ident: &Ident| ident.to_string() == "let",
        TokenTree::into_ident,
        |ident: &Ident| ident.to_string() == "y",
    );
    assert!(refused.is_none());
    assert!(parser.stream().equals(&stream("let x = 5;")));

    let mut parser = self::parser("let x = 5;");
    let (kw, name) = parser
        .next2_if_map_and(
            TokenTree::into_ident,
            |ident: &Ident| ident.to_string() == "let",
            TokenTree::into_ident,
            |ident: &Ident| ident.to_string() == "x",
        )
        .unwrap();
    assert_eq!(kw.to_string(), "let");
    assert_eq!(name.to_string(), "x");
    assert!(parser.stream().equals(&stream("= 5;")));
}

#[test]
fn next_if_map_puts_back_what_the_map_returns() {
    let mut parser = parser("a b");
    let refused: Option<()> = parser.next_if_map(|_tree| Err(tree(";")));
    assert!(refused.is_none());
    assert!(parser.stream().equals(&stream("; b")));
}

#[test]
fn next_if_map_and_puts_back_refused_value() {
    let mut parser = parser("a b");
    let refused = parser.next_if_map_and(TokenTree::into_ident, |_ident: &Ident| false);
    assert!(refused.is_none());
    assert!(parser.stream().equals(&stream("a b")));
}

#[test]
fn next_tree_takes_in_order() {
    let mut parser = parser("number < 10");
    assert!(parser.next_tree().unwrap().equals(&tree("number")));
    assert!(parser.next_tree().unwrap().equals(&tree("<")));
    assert!(parser.next_tree().unwrap().equals(&tree("10")));
    assert!(parser.next_tree().is_none());
}

#[test]
fn next_group_takes_groups() {
    let mut parser = parser("(self.function)();");
    assert!(parser.next_group().unwrap().equals(&group("(self.function)")));
    assert!(parser.next_group().unwrap().equals(&group("()")));
    assert!(parser.next_group().is_none());
    assert!(parser.stream().equals(&stream(";")));
}

#[test]
fn next_ident_takes_idents() {
    let mut parser = parser("let x = 5;");
    assert!(parser.next_ident().unwrap().equals(&ident("let")));
    assert!(parser.next_ident().unwrap().equals(&ident("x")));
    assert!(parser.next_ident().is_none());
    assert!(parser.stream().equals(&stream("= 5;")));
}

#[test]
fn next_punct_and_literal_take_their_kind() {
    let mut parser = parser("= 5;");
    assert!(parser.next_literal().is_none());
    assert!(parser.next_punct().unwrap().is_char('='));
    assert!(parser.next_punct().is_none());
    assert_eq!(parser.next_literal().unwrap().to_string(), "5");
    assert!(parser.stream().equals(&stream(";")));
}

#[test]
fn next_tree_if_follows_predicate() {
    let mut parser = parser("number < 10");
    let tree = parser.next_tree_if(|tree: &TokenTree| tree.is_ident());
    assert!(tree.unwrap().equals(&self::tree("number")));
    let tree = parser.next_tree_if(|tree: &TokenTree| tree.is_group());
    assert!(tree.is_none());
    assert!(parser.stream().equals(&stream("< 10")));
}

#[test]
fn next_group_if_follows_predicate() {
    let mut parser = parser("(self.function)();");
    let group = parser.next_group_if(Group::is_parenthesized);
    assert!(group.unwrap().equals(&self::group("(self.function)")));
    let group = parser.next_group_if(Group::is_braced);
    assert!(group.is_none());
    assert!(parser.stream().equals(&stream("();")));
}

#[test]
fn next_ident_if_follows_predicate() {
    let mut parser = parser("let x = 5;");
    let ident = parser.next_ident_if(|ident: &Ident| ident.to_string() == "let");
    assert!(ident.unwrap().equals(&self::ident("let")));
    let ident = parser.next_ident_if(|ident: &Ident| ident.to_string() == "y");
    assert!(ident.is_none());
    assert!(parser.stream().equals(&stream("x = 5;")));
}

#[test]
fn next_punct_and_literal_if_follow_predicate() {
    let mut parser = parser("< 10");
    assert!(parser.next_punct_if(|p: &Punct| p.is_char('>')).is_none());
    assert!(parser.next_punct_if(|p: &Punct| p.is_char('<')).is_some());
    assert!(parser.next_literal_if(|l: &Literal| l.to_string() == "11").is_none());
    assert!(parser.next_literal_if(|l: &Literal| l.to_string() == "10").is_some());
    assert!(parser.is_empty());
}

#[test]
fn next_trees_takes_everything() {
    let mut parser = parser("number < 10");
    let trees = parser.next_trees(usize::MAX);
    assert_eq!(trees.len(), 3);
    assert!(trees[0].equals(&tree("number")));
    assert!(trees[1].equals(&tree("<")));
    assert!(trees[2].equals(&tree("10")));
    assert!(parser.is_empty());
}

#[test]
fn next_trees_takes_up_to_the_limit() {
    let mut parser = parser("number < 10");
    let trees = parser.next_trees(2);
    assert_eq!(trees.len(), 2);
    assert!(trees[0].equals(&tree("number")));
    assert!(trees[1].equals(&tree("<")));
    assert!(parser.stream().equals(&stream("10")));
}

#[test]
fn next_trees_with_zero_limit_takes_nothing() {
    let mut parser = parser("number < 10");
    assert!(parser.next_trees(0).is_empty());
    assert_eq!(parser.len(), 3);
}

#[test]
fn next_kinds_stop_at_the_limit() {
    let mut parser = parser("a b c () () , , 1 2");
    assert_eq!(parser.next_idents(2).len(), 2);
    assert!(parser.is_next_ident());
    assert_eq!(parser.next_idents(5).len(), 1);
    assert_eq!(parser.next_groups(1).len(), 1);
    assert_eq!(parser.next_groups(1).len(), 1);
    assert_eq!(parser.next_puncts(1).len(), 1);
    assert_eq!(parser.next_puncts(3).len(), 1);
    assert_eq!(parser.next_literals(1).len(), 1);
    assert!(parser.stream().equals(&stream("2")));
}

#[test]
fn while_forms_ask_nothing_past_the_limit() {
    let mut parser = parser("a b c");
    let asked = std::cell::Cell::new(0);
    let trees = parser.next_trees_while(
        |_: &TokenTree| {
            asked.set(asked.get() + 1);
            true
        },
        2,
    );
    assert_eq!(trees.len(), 2);
    assert_eq!(asked.get(), 2);
    assert!(parser.stream().equals(&stream("c")));
}

#[test]
fn next_groups_takes_consecutive_groups() {
    let mut parser = parser("(self.function)();");
    let groups = parser.next_groups(usize::MAX);
    assert_eq!(groups.len(), 2);
    assert!(groups[0].equals(&group("(self.function)")));
    assert!(groups[1].equals(&group("()")));
    assert!(parser.stream().equals(&stream(";")));
}

#[test]
fn next_idents_takes_consecutive_idents() {
    let mut parser = parser("let x = 5;");
    let idents = parser.next_idents(usize::MAX);
    assert_eq!(idents.len(), 2);
    assert!(idents[0].equals(&ident("let")));
    assert!(idents[1].equals(&ident("x")));
    assert!(parser.stream().equals(&stream("= 5;")));
}

#[test]
fn next_puncts_and_literals_take_consecutive_tokens() {
    let mut parser = parser("+= 1 2 x");
    let puncts = parser.next_puncts(usize::MAX);
    assert_eq!(puncts.len(), 2);
    assert!(puncts[0].is_char('+') && puncts[0].is_joint());
    assert!(puncts[1].is_char('=') && puncts[1].is_alone());
    let literals = parser.next_literals(usize::MAX);
    assert_eq!(literals.len(), 2);
    assert!(parser.stream().equals(&stream("x")));
}

#[test]
fn next_trees_while_stops_at_refusal() {
    let mut parser = parser("number < 10");
    let trees = parser.next_trees_while(|tree: &TokenTree| tree.is_ident() || tree.is_punct(), usize::MAX);
    assert_eq!(trees.len(), 2);
    assert!(trees[0].equals(&tree("number")));
    assert!(trees[1].equals(&tree("<")));
    assert!(parser.stream().equals(&stream("10")));
}

#[test]
fn next_groups_while_stops_at_refusal() {
    let mut parser = parser("(self.function)();");
    let groups = parser.next_groups_while(|group: &Group| !group.is_empty(), usize::MAX);
    assert_eq!(groups.len(), 1);
    assert!(groups[0].equals(&group("(self.function)")));
    assert!(parser.stream().equals(&stream("();")));
}

#[test]
fn next_idents_while_stops_at_refusal() {
    let mut parser = parser("let x = 5;");
    let idents = parser.next_idents_while(|ident: &Ident| !ident.is_raw(), usize::MAX);
    assert_eq!(idents.len(), 2);
    assert!(idents[0].equals(&ident("let")));
    assert!(idents[1].equals(&ident("x")));
    assert!(parser.stream().equals(&stream("= 5;")));
}

#[test]
fn next_puncts_and_literals_while_stop_at_refusal() {
    let mut parser = parser(", , ; 1 2 x");
    let puncts = parser.next_puncts_while(|p: &Punct| p.is_char(','), usize::MAX);
    assert_eq!(puncts.len(), 2);
    assert!(parser.first().unwrap().is_punct_and(|p: &Punct| p.is_char(';')));
    parser.skip_punct();
    let literals = parser.next_literals_while(|l: &Literal| l.to_string() == "1", usize::MAX);
    assert_eq!(literals.len(), 1);
    assert!(parser.stream().equals(&stream("2 x")));
}

#[test]
fn is_next_group_after_skip() {
    let mut parser = parser("data[x]");
    assert!(!parser.is_next_group());
    assert!(parser.is_next_ident());
    assert!(parser.skip_tree());
    assert!(parser.is_next_group());
    assert!(!parser.is_next_punct());
    assert!(!parser.is_next_literal());
}

#[test]
fn skips_report_what_they_did() {
    let mut parser = parser("a ; 1 [] x");
    assert!(!parser.skip_group());
    assert!(parser.skip_ident());
    assert!(!parser.skip_literal());
    assert!(parser.skip_punct());
    assert!(parser.skip_literal());
    assert!(!parser.skip_group_if(|g: &Group| g.is_braced()));
    assert!(parser.skip_group_if(|g: &Group| g.is_bracketed()));
    assert!(!parser.skip_ident_if(|i: &Ident| i.to_string() == "y"));
    assert!(parser.skip_tree_if(|t: &TokenTree| t.is_ident()));
    assert!(!parser.skip_tree());
    assert!(!parser.skip_punct_if(|_p: &Punct| true));
    assert!(!parser.skip_literal_if(|_l: &Literal| true));
    assert!(!parser.skip_tree_if(|_t: &TokenTree| true));
}

#[test]
fn span_is_the_next_tokens() {
    let mut parser = parser("a b");
    let first = parser.first().unwrap().span();
    assert_eq!(format!("{:?}", parser.span()), format!("{:?}", first));
    parser.stream();
    assert_eq!(format!("{:?}", parser.span()), format!("{:?}", Span::call_site()));
}

#[test]
fn error_is_compile_error_at_next_token() {
    let mut parser = parser("a b");
    let error = parser.error("oops");
    assert!(error.equals(&stream("::core::compile_error! { \"oops\" }")));
    assert!(parser.stream().equals(&stream("a b")));
}

#[test]
fn clone_copies_the_remaining_trees() {
    let mut parser = parser("a (b c) 1");
    parser.next_tree();
    let mut copy = parser.clone();
    assert!(copy.stream().equals(&parser.stream()));
}

#[test]
fn new_then_stream_gives_back_the_stream() {
    let input = stream("fn f(x: u8) -> u8 { x + 1 }");
    let mut parser = Parser::new(input.clone());
    assert!(parser.stream().equals(&input));
}

#[test]
fn punct_new_spanned_keeps_fields() {
    let p = Punct::new_spanned(Span::call_site(), '#', Spacing::Joint);
    assert!(p.is_char('#'));
    assert!(p.is_joint());
    let t = TokenStream::token(TokenTree::Punct(p));
    assert!(t.equals(&stream("#")) == false);
}
