use proc_macro2::Span;
use tout::extension::{GroupExt, IdentExt, LiteralExt, PunctExt, TokenStreamExt, TokenTreeExt};
use tout::token::{Delimiter, Group, Ident, Literal, Punct, Spacing, TokenStream, TokenTree};

fn span() -> Span {
    Span::call_site()
}

fn ident_tree(text: &str) -> TokenTree {
    TokenTree::Ident(Ident::new(text, span()))
}

fn punct_tree(ch: char, spacing: Spacing) -> TokenTree {
    TokenTree::Punct(Punct::new_spanned(span(), ch, spacing))
}

fn literal_tree(repr: &str) -> TokenTree {
    TokenTree::Literal(Literal::from_repr(repr, span()))
}

fn group_tree(delimiter: Delimiter, trees: Vec<TokenTree>) -> TokenTree {
    TokenTree::Group(Group::new_spanned(span(), delimiter, TokenStream { trees }))
}

fn sample() -> TokenStream {
    TokenStream {
        trees: vec![
            ident_tree("f"),
            group_tree(
                Delimiter::Parenthesis,
                vec![ident_tree("x"), punct_tree(',', Spacing::Alone), literal_tree("1")],
            ),
            punct_tree(';', Spacing::Alone),
        ],
    }
}

#[test]
fn stream_equals_is_reflexive_and_symmetric() {
    let a = sample();
    let b = sample();
    assert!(a.equals(&a));
    assert!(a.equals(&b));
    assert!(b.equals(&a));
}

#[test]
fn stream_equals_detects_nested_difference() {
    let a = sample();
    let mut b = sample();
    if let TokenTree::Group(g) = &mut b.trees[1] {
        g.stream.trees[2] = literal_tree("2");
    }
    assert!(!a.equals(&b));
    assert!(!b.equals(&a));
}

#[test]
fn stream_equals_detects_length_and_delimiter_difference() {
    let a = sample();
    let mut b = sample();
    b.append(punct_tree(';', Spacing::Alone));
    assert!(!a.equals(&b));
    let c = TokenStream { trees: vec![group_tree(Delimiter::Bracket, vec![])] };
    let d = TokenStream { trees: vec![group_tree(Delimiter::Brace, vec![])] };
    assert!(!c.equals(&d));
    assert!(TokenStream::new().equals(&TokenStream::new()));
}

#[test]
fn stream_equals_ignores_spans() {
    let a = sample();
    let mut b = sample();
    if let Some(ident) = b.trees[0].as_ident_mut() {
        ident.set_span(Span::mixed_site());
    }
    assert!(a.equals(&b));
}

#[test]
fn stream_equals_is_transitive_on_samples() {
    let a = sample();
    let b = sample();
    let c = sample();
    assert!(a.equals(&b) && b.equals(&c) && a.equals(&c));
}

#[test]
fn tree_equals_needs_same_kind() {
    assert!(!ident_tree("a").equals(&literal_tree("a")));
    assert!(punct_tree('+', Spacing::Alone).equals(&punct_tree('+', Spacing::Alone)));
    assert!(!punct_tree('+', Spacing::Alone).equals(&punct_tree('+', Spacing::Joint)));
    assert!(!punct_tree('+', Spacing::Alone).equals(&punct_tree('-', Spacing::Alone)));
}

#[test]
fn token_and_append_build_streams() {
    let mut s = TokenStream::token(ident_tree("a"));
    assert_eq!(s.len(), 1);
    s.append(ident_tree("b"));
    assert_eq!(s.len(), 2);
    assert!(s.trees[1].equals(&ident_tree("b")));
    assert!(!s.is_empty());
}

#[test]
fn kind_tests_and_conversions() {
    let t = ident_tree("a");
    assert!(t.is_ident() && !t.is_group() && !t.is_punct() && !t.is_literal());
    assert!(t.is_ident_and(|i: &Ident| i.to_string() == "a"));
    assert!(!t.is_ident_and(|i: &Ident| i.to_string() == "b"));
    assert!(!t.is_group_and(|_g: &Group| true));
    assert!(t.as_ident().is_some());
    assert!(t.as_group().is_none() && t.as_punct().is_none() && t.as_literal().is_none());
    let back = t.into_group().err().unwrap();
    assert!(back.equals(&ident_tree("a")));
    let back = back.into_ident_if(|i: &Ident| i.to_string() == "z").err().unwrap();
    assert!(back.equals(&ident_tree("a")));
    let i = back.into_ident_if(|i: &Ident| i.to_string() == "a").ok().unwrap();
    assert_eq!(i.to_string(), "a");
    let l = literal_tree("7").into_literal().ok().unwrap();
    assert_eq!(l.to_string(), "7");
    let p = punct_tree('*', Spacing::Alone).into_punct_if(|p: &Punct| p.is_alone()).ok().unwrap();
    assert!(p.is_char('*'));
    assert!(literal_tree("7").is_literal_and(|l: &Literal| l.to_string() == "7"));
    assert!(punct_tree('*', Spacing::Alone).is_punct_and(|p: &Punct| p.is_char('*')));
    assert!(group_tree(Delimiter::Brace, vec![]).into_group_if(|g: &Group| g.is_braced()).is_ok());
    assert!(group_tree(Delimiter::Brace, vec![]).into_literal_if(|_l: &Literal| true).is_err());
}

#[test]
fn mutable_views_change_the_tree() {
    let mut t = group_tree(Delimiter::Brace, vec![]);
    t.as_group_mut().unwrap().stream.append(ident_tree("x"));
    assert!(t.equals(&group_tree(Delimiter::Brace, vec![ident_tree("x")])));
    assert!(t.as_ident_mut().is_none());
    let mut l = literal_tree("1");
    l.as_literal_mut().unwrap().repr = String::from("2");
    assert!(l.equals(&literal_tree("2")));
    let mut p = punct_tree('+', Spacing::Alone);
    p.as_punct_mut().unwrap().spacing = Spacing::Joint;
    assert!(p.equals(&punct_tree('+', Spacing::Joint)));
}

#[test]
fn group_tests() {
    let g = Group::new_spanned(span(), Delimiter::Parenthesis, TokenStream::new());
    assert!(g.is_parenthesized() && !g.is_braced() && !g.is_bracketed() && !g.is_undelimited());
    assert!(g.is_delimiter(Delimiter::Parenthesis));
    assert!(g.is_empty());
    let h = Group::new(Delimiter::Undelimited, TokenStream::token(ident_tree("a")));
    assert!(h.is_undelimited() && !h.is_empty());
    assert!(!g.equals(&h));
    assert!(h.stream().equals(&TokenStream::token(ident_tree("a"))));
    assert_eq!(h.delimiter(), Delimiter::Undelimited);
}

#[test]
fn raw_idents_are_unrawed() {
    let raw = Ident::new("r#match", span());
    assert!(raw.is_raw());
    let plain = raw.unraw();
    assert_eq!(plain.to_string(), "match");
    assert!(!plain.is_raw());
    let again = plain.unraw();
    assert!(again.equals(&plain));
    assert!(!Ident::new("r", span()).is_raw());
    assert!(!Ident::new("rust", span()).is_raw());
    assert!(!raw.equals(&plain));
}

#[test]
fn punct_tests() {
    let p = Punct::new('<', Spacing::Alone);
    assert!(p.is_char('<') && p.is_alone() && !p.is_joint());
    assert!(p.is_spacing(Spacing::Alone));
    assert_eq!(p.as_char(), '<');
    assert!(p.equals(&Punct::new_spanned(span(), '<', Spacing::Alone)));
    assert!(!p.equals(&Punct::new('<', Spacing::Joint)));
}

#[test]
fn integer_literals_match_proc_macro2() {
    let s = span();
    assert_eq!(Literal::i8_suffixed_spanned(s, -128).to_string(), proc_macro2::Literal::i8_suffixed(-128).to_string());
    assert_eq!(Literal::i8_unsuffixed_spanned(s, 127).to_string(), "127");
    assert_eq!(Literal::i16_suffixed_spanned(s, -300).to_string(), "-300i16");
    assert_eq!(Literal::i16_unsuffixed_spanned(s, 0).to_string(), "0");
    assert_eq!(Literal::i32_suffixed_spanned(s, 42).to_string(), "42i32");
    assert_eq!(Literal::i32_unsuffixed_spanned(s, -1).to_string(), "-1");
    assert_eq!(Literal::i64_suffixed_spanned(s, i64::MIN).to_string(), proc_macro2::Literal::i64_suffixed(i64::MIN).to_string());
    assert_eq!(Literal::i64_unsuffixed_spanned(s, 1000).to_string(), "1000");
    assert_eq!(Literal::i128_suffixed_spanned(s, i128::MIN).to_string(), proc_macro2::Literal::i128_suffixed(i128::MIN).to_string());
    assert_eq!(Literal::i128_unsuffixed_spanned(s, i128::MAX).to_string(), proc_macro2::Literal::i128_unsuffixed(i128::MAX).to_string());
    assert_eq!(Literal::isize_suffixed_spanned(s, -7).to_string(), "-7isize");
    assert_eq!(Literal::isize_unsuffixed_spanned(s, 7).to_string(), "7");
    assert_eq!(Literal::u8_suffixed_spanned(s, 255).to_string(), "255u8");
    assert_eq!(Literal::u8_unsuffixed_spanned(s, 0).to_string(), "0");
    assert_eq!(Literal::u16_suffixed_spanned(s, 65535).to_string(), "65535u16");
    assert_eq!(Literal::u16_unsuffixed_spanned(s, 10).to_string(), "10");
    assert_eq!(Literal::u32_suffixed_spanned(s, 100).to_string(), "100u32");
    assert_eq!(Literal::u32_unsuffixed_spanned(s, 9).to_string(), "9");
    assert_eq!(Literal::u64_suffixed_spanned(s, u64::MAX).to_string(), proc_macro2::Literal::u64_suffixed(u64::MAX).to_string());
    assert_eq!(Literal::u64_unsuffixed_spanned(s, 12345).to_string(), "12345");
    assert_eq!(Literal::u128_suffixed_spanned(s, u128::MAX).to_string(), proc_macro2::Literal::u128_suffixed(u128::MAX).to_string());
    assert_eq!(Literal::u128_unsuffixed_spanned(s, 1).to_string(), "1");
    assert_eq!(Literal::usize_suffixed_spanned(s, 3).to_string(), "3usize");
    assert_eq!(Literal::usize_unsuffixed_spanned(s, 30).to_string(), "30");
}

#[test]
fn text_literals_match_proc_macro2() {
    let s = span();
    assert_eq!(Literal::string_spanned(s, "a\"b\n").to_string(), proc_macro2::Literal::string("a\"b\n").to_string());
    assert_eq!(Literal::string_spanned(s, "tout").to_string(), "\"tout\"");
    assert_eq!(Literal::byte_string_spanned(s, b"\x00\x01a").to_string(), proc_macro2::Literal::byte_string(b"\x00\x01a").to_string());
    assert_eq!(Literal::character_spanned(s, '\'').to_string(), proc_macro2::Literal::character('\'').to_string());
    assert_eq!(Literal::character_spanned(s, 'x').to_string(), "'x'");
    assert_eq!(Literal::byte_string_spanned(s, b"ab").to_string(), "b\"ab\"");
    assert_eq!(Literal::byte_character_spanned(s, b'a').to_string(), "b'a'");
    assert_eq!(Literal::byte_character_spanned(s, b'\n').to_string(), proc_macro2::Literal::byte_character(b'\n').to_string());
}

#[test]
fn literal_equals_compares_text() {
    let s = span();
    assert!(Literal::u8_suffixed_spanned(s, 1).equals(&Literal::from_repr("1u8", s)));
    assert!(!Literal::u8_suffixed_spanned(s, 1).equals(&Literal::u16_suffixed_spanned(s, 1)));
    assert!(!Literal::u8_unsuffixed_spanned(s, 1).equals(&Literal::u8_suffixed_spanned(s, 1)));
}

#[test]
fn clones_are_equivalent_copies() {
    let a = sample();
    let b = a.clone();
    assert!(a.equals(&b));
    let t = a.trees[1].clone();
    assert!(t.equals(&a.trees[1]));
}
