use proc_macro2::Span;
use tout::diagnostic::{error, error_ranged};
use tout::extension::{GroupExt, PunctExt, TokenStreamExt, TokenTreeExt};
use tout::token::{Delimiter, TokenTree};

#[test]
fn error_has_the_compile_error_shape() {
    let out = error(Span::call_site(), "something went wrong");
    assert_eq!(out.len(), 8);
    let chars: Vec<char> = [0, 1, 3, 4, 6]
        .iter()
        .map(|&i| out.trees[i].as_punct().unwrap().as_char())
        .collect();
    assert_eq!(chars, vec![':', ':', ':', ':', '!']);
    assert!(out.trees[0].as_punct().unwrap().is_joint());
    assert!(out.trees[1].as_punct().unwrap().is_alone());
    assert_eq!(out.trees[2].as_ident().unwrap().to_string(), "core");
    assert_eq!(out.trees[5].as_ident().unwrap().to_string(), "compile_error");
    let group = out.trees[7].as_group().unwrap();
    assert!(group.is_braced());
    assert_eq!(group.stream.len(), 1);
    assert_eq!(
        group.stream.trees[0].as_literal().unwrap().to_string(),
        proc_macro2::Literal::string("something went wrong").to_string()
    );
}

#[test]
fn error_ranged_spans_message_with_end() {
    let start = Span::call_site();
    let end = Span::mixed_site();
    let out = error_ranged(start, end, "quote \" here");
    let group = out.trees[7].as_group().unwrap();
    assert_eq!(format!("{:?}", group.span()), format!("{:?}", end));
    assert_eq!(format!("{:?}", out.trees[0].span()), format!("{:?}", start));
    let literal = group.stream.trees[0].as_literal().unwrap();
    assert_eq!(literal.to_string(), "\"quote \\\" here\"");
    assert!(matches!(out.trees[7], TokenTree::Group(ref g) if g.delimiter() == Delimiter::Brace));
    assert!(error(start, "a").equals(&error(end, "a")));
    assert!(!error(start, "a").equals(&error(start, "b")));
}

#[test]
fn error_ranged_quotes_the_message() {
    let out = error_ranged(Span::call_site(), Span::call_site(), "oops");
    let group = out.trees[7].as_group().unwrap();
    assert_eq!(group.stream.trees[0].as_literal().unwrap().to_string(), "\"oops\"");
}

#[test]
fn error_gives_the_tokens_of_error_ranged() {
    let span = Span::call_site();
    assert!(error(span, "oops").equals(&error_ranged(span, span, "oops")));
}
