use tout::token::is_ident;

#[test]
fn is_ident_accepts_identifiers() {
    assert!(is_ident("x"));
    assert!(is_ident("_"));
    assert!(is_ident("snake_case_2"));
    assert!(is_ident("r#match"));
    assert!(is_ident("r#self_type"));
    assert!(is_ident("\u{e9}t\u{e9}"));
}

#[test]
fn is_ident_refuses_other_text() {
    assert!(!is_ident(""));
    assert!(!is_ident("r#"));
    assert!(!is_ident("a-b"));
    assert!(!is_ident("1x"));
    assert!(!is_ident("42"));
    assert!(!is_ident("a b"));
    assert!(!is_ident("r#r#x"));
    assert!(!is_ident("r#_"));
    assert!(!is_ident("r#self"));
    assert!(!is_ident("r#Self"));
    assert!(!is_ident("r#super"));
    assert!(!is_ident("r#crate"));
}
