use std::collections::HashMap;

use proc_macro2::{Delimiter as PmDelimiter, Spacing as PmSpacing};
use tout::extension::{PunctExt, TokenStreamExt};
use tout::parser::Parser;
use tout::token::{Delimiter, Group, Ident, Literal, Punct, Spacing, TokenStream, TokenTree};
use tout::visitor::{
    visit_group, visit_ident, visit_literal, visit_punct, visit_stream, visit_tree, Identity,
    Visitor,
};

fn convert(stream: proc_macro2::TokenStream) -> TokenStream {
    let mut trees = Vec::new();
    for tree in stream {
        trees.push(match tree {
            proc_macro2::TokenTree::Group(g) => TokenTree::Group(Group {
                delimiter: match g.delimiter() {
                    PmDelimiter::Parenthesis => Delimiter::Parenthesis,
                    PmDelimiter::Brace => Delimiter::Brace,
                    PmDelimiter::Bracket => Delimiter::Bracket,
                    PmDelimiter::None => Delimiter::Undelimited,
                },
                stream: convert(g.stream()),
                span: g.span(),
            }),
            proc_macro2::TokenTree::Ident(i) => TokenTree::Ident(Ident::new(&i.to_string(), i.span())),
            proc_macro2::TokenTree::Punct(p) => TokenTree::Punct(Punct {
                ch: p.as_char(),
                spacing: match p.spacing() {
                    PmSpacing::Alone => Spacing::Alone,
                    PmSpacing::Joint => Spacing::Joint,
                },
                span: p.span(),
            }),
            proc_macro2::TokenTree::Literal(l) => {
                TokenTree::Literal(Literal::from_repr(&l.to_string(), l.span()))
            }
        });
    }
    TokenStream { trees }
}

fn stream(src: &str) -> TokenStream {
    convert(src.parse().expect("couldn't parse tokens"))
}

/// Copies every token with the default actions.
struct Defaults;

impl Visitor for Defaults {
    fn visit_stream(&mut self, output: &mut TokenStream, stream: TokenStream) {
        visit_stream(self, output, stream)
    }
    fn visit_tree(&mut self, output: &mut TokenStream, tree: TokenTree, parser: &mut Parser) {
        visit_tree(self, output, tree, parser)
    }
    fn visit_group(&mut self, output: &mut TokenStream, group: Group, parser: &mut Parser) {
        visit_group(self, output, group, parser)
    }
    fn visit_ident(&mut self, output: &mut TokenStream, ident: Ident, parser: &mut Parser) {
        visit_ident(self, output, ident, parser)
    }
    fn visit_punct(&mut self, output: &mut TokenStream, punct: Punct, parser: &mut Parser) {
        visit_punct(self, output, punct, parser)
    }
    fn visit_literal(&mut self, output: &mut TokenStream, literal: Literal, parser: &mut Parser) {
        visit_literal(self, output, literal, parser)
    }
}

/// Replaces each `$variable` by the mapped token stream.
struct ReplaceVariables(HashMap<String, TokenStream>);

impl Visitor for ReplaceVariables {
    fn visit_stream(&mut self, output: &mut TokenStream, stream: TokenStream) {
        visit_stream(self, output, stream)
    }
    fn visit_tree(&mut self, output: &mut TokenStream, tree: TokenTree, parser: &mut Parser) {
        visit_tree(self, output, tree, parser)
    }
    fn visit_group(&mut self, output: &mut TokenStream, group: Group, parser: &mut Parser) {
        visit_group(self, output, group, parser)
    }
    fn visit_ident(&mut self, output: &mut TokenStream, ident: Ident, parser: &mut Parser) {
        visit_ident(self, output, ident, parser)
    }
    fn visit_punct(&mut self, output: &mut TokenStream, punct: Punct, parser: &mut Parser) {
        if punct.is_char('$') {
            let map = &self.0;
            if let Some(ident) = parser.next_ident_if(|ident: &Ident| map.contains_key(&ident.to_string())) {
                for tree in self.0[&ident.to_string()].clone().trees {
                    output.append(tree);
                }
                return;
            }
        }
        visit_punct(self, output, punct, parser)
    }
    fn visit_literal(&mut self, output: &mut TokenStream, literal: Literal, parser: &mut Parser) {
        visit_literal(self, output, literal, parser)
    }
}

#[test]
fn default_visitor_copies_the_stream() {
    let input = stream("fn f(x: [u8; 2]) -> u8 { x[0] + 'a' as u8 }");
    let mut output = TokenStream::new();
    Defaults.visit_stream(&mut output, input.clone());
    assert!(output.equals(&input));
}

#[test]
fn visitor_replaces_variables() {
    let input = stream("fn $method() { println!($print); }");
    let mut visitor = ReplaceVariables(HashMap::from([
        (String::from("method"), stream("duck")),
        (String::from("print"), stream("\"quack\"")),
    ]));
    let mut output = TokenStream::new();
    visitor.visit_stream(&mut output, input);
    assert!(output.equals(&stream("fn duck() { println!(\"quack\"); }")));
}

#[test]
fn default_actions_append_the_token() {
    let mut output = TokenStream::new();
    let mut parser = Parser::new(stream("rest"));
    visit_ident(&mut Defaults, &mut output, Ident::new("a", proc_macro2::Span::call_site()), &mut parser);
    visit_punct(&mut Defaults, &mut output, Punct::new('+', Spacing::Alone), &mut parser);
    visit_literal(&mut Defaults, &mut output, Literal::from_repr("1", proc_macro2::Span::call_site()), &mut parser);
    assert!(output.equals(&stream("a + 1")));
    assert_eq!(parser.len(), 1);
}

#[test]
fn identity_visitor_copies_nested_groups_with_spans() {
    let input = stream("a (b [c {d}]) , 'x' 1.5");
    let mut output = stream("prefix");
    Identity.visit_stream(&mut output, input.clone());
    assert_eq!(output.len(), 1 + input.len());
    let mut expected = stream("prefix");
    for tree in input.trees.iter() {
        expected.append(tree.clone());
    }
    assert!(output.equals(&expected));
    for i in 0..input.len() {
        assert_eq!(format!("{:?}", output.trees[1 + i].span()), format!("{:?}", input.trees[i].span()));
    }
}
