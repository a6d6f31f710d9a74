//! Extension traits: structural comparison, kind tests and conversions for
//! the token types.
use proc_macro2::Span;
use vstd::prelude::*;

use crate::decimal::{decimal, signed_decimal, unsigned_decimal};
use crate::token::{
    byte_character_literal_repr, byte_string_literal_repr, character_literal_repr, ident_body,
    is_byte_character_literal_repr, is_byte_string_literal_repr, is_character_literal_repr,
    is_ident_text, is_punct_char, is_raw_text, is_string_literal_repr, stream_equals, stream_equiv,
    string_literal_repr, tree_equals, tree_equiv, Delimiter, Group, Ident, Literal, Punct, Spacing,
    TokenStream, TokenTree,
};

mod sealed;

use sealed::Sealed;

verus! {

/// Extension trait for `TokenStream`.
pub trait TokenStreamExt: Sealed + Sized {
    /// Constructs a token stream from a single token.
    fn token(token: TokenTree) -> Self;

    /// Returns `true` if the token stream is equivalent to `other`.
    fn equals(&self, other: &Self) -> bool;

    /// Appends a token to the token stream.
    fn append(&mut self, token: TokenTree);
}

impl Sealed for TokenStream {

}

impl TokenStreamExt for TokenStream {
    fn token(token: TokenTree) -> (r: Self)
        ensures
            r.trees@ == seq![token],
    {
        let mut trees: Vec<TokenTree> = Vec::new();
        trees.push(token);
        TokenStream { trees }
    }

    fn equals(&self, other: &Self) -> (r: bool)
        ensures
            r == stream_equiv(*self, *other),
    {
        stream_equals(self, other)
    }

    fn append(&mut self, token: TokenTree)
        ensures
            final(self).trees@ == old(self).trees@.push(token),
    {
        self.trees.push(token);
    }
}

/// Extension trait for `TokenTree`.
pub trait TokenTreeExt: Sealed + Sized {
    /// Returns `true` if this token tree is equivalent to `other`.
    fn equals(&self, other: &Self) -> bool;

    /// Returns `true` if the token tree is a group.
    fn is_group(&self) -> bool;

    /// Returns `true` if the token tree is an ident.
    fn is_ident(&self) -> bool;

    /// Returns `true` if the token tree is a punct.
    fn is_punct(&self) -> bool;

    /// Returns `true` if the token tree is a literal.
    fn is_literal(&self) -> bool;

    /// Returns `true` if the token tree is a group and `predicate` accepts it.
    fn is_group_and<P>(&self, predicate: P) -> bool where P: FnOnce(&Group) -> bool
        requires
            forall|x: &Group| #[trigger] call_requires(predicate, (x,)),
    ;

    /// Returns `true` if the token tree is an ident and `predicate` accepts it.
    fn is_ident_and<P>(&self, predicate: P) -> bool where P: FnOnce(&Ident) -> bool
        requires
            forall|x: &Ident| #[trigger] call_requires(predicate, (x,)),
    ;

    /// Returns `true` if the token tree is a punct and `predicate` accepts it.
    fn is_punct_and<P>(&self, predicate: P) -> bool where P: FnOnce(&Punct) -> bool
        requires
            forall|x: &Punct| #[trigger] call_requires(predicate, (x,)),
    ;

    /// Returns `true` if the token tree is a literal and `predicate` accepts it.
    fn is_literal_and<P>(&self, predicate: P) -> bool where P: FnOnce(&Literal) -> bool
        requires
            forall|x: &Literal| #[trigger] call_requires(predicate, (x,)),
    ;

    /// Converts the token tree into a group; gives the tree back otherwise.
    fn into_group(self) -> Result<Group, Self>;

    /// Converts the token tree into an ident; gives the tree back otherwise.
    fn into_ident(self) -> Result<Ident, Self>;

    /// Converts the token tree into a punct; gives the tree back otherwise.
    fn into_punct(self) -> Result<Punct, Self>;

    /// Converts the token tree into a literal; gives the tree back otherwise.
    fn into_literal(self) -> Result<Literal, Self>;

    /// Converts the token tree into a group if `predicate` accepts it; gives the
    /// tree back otherwise.
    fn into_group_if<P>(self, predicate: P) -> Result<Group, Self> where P: FnOnce(&Group) -> bool
        requires
            forall|x: &Group| #[trigger] call_requires(predicate, (x,)),
    ;

    /// Converts the token tree into an ident if `predicate` accepts it; gives the
    /// tree back otherwise.
    fn into_ident_if<P>(self, predicate: P) -> Result<Ident, Self> where P: FnOnce(&Ident) -> bool
        requires
            forall|x: &Ident| #[trigger] call_requires(predicate, (x,)),
    ;

    /// Converts the token tree into a punct if `predicate` accepts it; gives the
    /// tree back otherwise.
    fn into_punct_if<P>(self, predicate: P) -> Result<Punct, Self> where P: FnOnce(&Punct) -> bool
        requires
            forall|x: &Punct| #[trigger] call_requires(predicate, (x,)),
    ;

    /// Converts the token tree into a literal if `predicate` accepts it; gives the
    /// tree back otherwise.
    fn into_literal_if<P>(self, predicate: P) -> Result<Literal, Self> where P: FnOnce(&Literal) -> bool
        requires
            forall|x: &Literal| #[trigger] call_requires(predicate, (x,)),
    ;

    /// Returns a reference to the group, if the tree is one.
    fn as_group(&self) -> Option<&Group>;

    /// Returns a reference to the ident, if the tree is one.
    fn as_ident(&self) -> Option<&Ident>;

    /// Returns a reference to the punct, if the tree is one.
    fn as_punct(&self) -> Option<&Punct>;

    /// Returns a reference to the literal, if the tree is one.
    fn as_literal(&self) -> Option<&Literal>;

    /// Returns a mutable reference to the group, if the tree is one.
    fn as_group_mut(&mut self) -> Option<&mut Group>;

    /// Returns a mutable reference to the ident, if the tree is one.
    fn as_ident_mut(&mut self) -> Option<&mut Ident>;

    /// Returns a mutable reference to the punct, if the tree is one.
    fn as_punct_mut(&mut self) -> Option<&mut Punct>;

    /// Returns a mutable reference to the literal, if the tree is one.
    fn as_literal_mut(&mut self) -> Option<&mut Literal>;
}

impl Sealed for TokenTree {

}

impl TokenTreeExt for TokenTree {
    fn equals(&self, other: &Self) -> (r: bool)
        ensures
            r == tree_equiv(*self, *other),
    {
        tree_equals(self, other)
    }

    fn is_group(&self) -> (r: bool)
        ensures
            r == (*self is Group),
    {
        match self {
            TokenTree::Group(_) => true,
            _ => false,
        }
    }

    fn is_ident(&self) -> (r: bool)
        ensures
            r == (*self is Ident),
    {
        match self {
            TokenTree::Ident(_) => true,
            _ => false,
        }
    }

    fn is_punct(&self) -> (r: bool)
        ensures
            r == (*self is Punct),
    {
        match self {
            TokenTree::Punct(_) => true,
            _ => false,
        }
    }

    fn is_literal(&self) -> (r: bool)
        ensures
            r == (*self is Literal),
    {
        match self {
            TokenTree::Literal(_) => true,
            _ => false,
        }
    }

    fn is_group_and<P>(&self, predicate: P) -> (r: bool) where P: FnOnce(&Group) -> bool
        ensures
            r ==> *self is Group && call_ensures(predicate, (&self->Group_0,), true),
            !r && *self is Group ==> call_ensures(predicate, (&self->Group_0,), false),
    {
        match self {
            TokenTree::Group(x) => predicate(x),
            _ => false,
        }
    }

    fn is_ident_and<P>(&self, predicate: P) -> (r: bool) where P: FnOnce(&Ident) -> bool
        ensures
            r ==> *self is Ident && call_ensures(predicate, (&self->Ident_0,), true),
            !r && *self is Ident ==> call_ensures(predicate, (&self->Ident_0,), false),
    {
        match self {
            TokenTree::Ident(x) => predicate(x),
            _ => false,
        }
    }

    fn is_punct_and<P>(&self, predicate: P) -> (r: bool) where P: FnOnce(&Punct) -> bool
        ensures
            r ==> *self is Punct && call_ensures(predicate, (&self->Punct_0,), true),
            !r && *self is Punct ==> call_ensures(predicate, (&self->Punct_0,), false),
    {
        match self {
            TokenTree::Punct(x) => predicate(x),
            _ => false,
        }
    }

    fn is_literal_and<P>(&self, predicate: P) -> (r: bool) where P: FnOnce(&Literal) -> bool
        ensures
            r ==> *self is Literal && call_ensures(predicate, (&self->Literal_0,), true),
            !r && *self is Literal ==> call_ensures(predicate, (&self->Literal_0,), false),
    {
        match self {
            TokenTree::Literal(x) => predicate(x),
            _ => false,
        }
    }

    fn into_group(self) -> (r: Result<Group, Self>)
        ensures
            r == (if self is Group {
                Ok::<Group, Self>(self->Group_0)
            } else {
                Err::<Group, Self>(self)
            }),
    {
        match self {
            TokenTree::Group(x) => Ok(x),
            _ => Err(self),
        }
    }

    fn into_ident(self) -> (r: Result<Ident, Self>)
        ensures
            r == (if self is Ident {
                Ok::<Ident, Self>(self->Ident_0)
            } else {
                Err::<Ident, Self>(self)
            }),
    {
        match self {
            TokenTree::Ident(x) => Ok(x),
            _ => Err(self),
        }
    }

    fn into_punct(self) -> (r: Result<Punct, Self>)
        ensures
            r == (if self is Punct {
                Ok::<Punct, Self>(self->Punct_0)
            } else {
                Err::<Punct, Self>(self)
            }),
    {
        match self {
            TokenTree::Punct(x) => Ok(x),
            _ => Err(self),
        }
    }

    fn into_literal(self) -> (r: Result<Literal, Self>)
        ensures
            r == (if self is Literal {
                Ok::<Literal, Self>(self->Literal_0)
            } else {
                Err::<Literal, Self>(self)
            }),
    {
        match self {
            TokenTree::Literal(x) => Ok(x),
            _ => Err(self),
        }
    }

    fn into_group_if<P>(self, predicate: P) -> (r: Result<Group, Self>) where
        P: FnOnce(&Group) -> bool,
        ensures
            r is Ok ==> self is Group && r == Ok::<Group, Self>(self->Group_0) && call_ensures(
                predicate,
                (&self->Group_0,),
                true,
            ),
            r is Err ==> r == Err::<Group, Self>(self) && (self is Group ==> call_ensures(
                predicate,
                (&self->Group_0,),
                false,
            )),
    {
        let accepted = match &self {
            TokenTree::Group(x) => predicate(x),
            _ => false,
        };
        if accepted {
            match self {
                TokenTree::Group(x) => Ok(x),
                _ => Err(self),
            }
        } else {
            Err(self)
        }
    }

    fn into_ident_if<P>(self, predicate: P) -> (r: Result<Ident, Self>) where
        P: FnOnce(&Ident) -> bool,
        ensures
            r is Ok ==> self is Ident && r == Ok::<Ident, Self>(self->Ident_0) && call_ensures(
                predicate,
                (&self->Ident_0,),
                true,
            ),
            r is Err ==> r == Err::<Ident, Self>(self) && (self is Ident ==> call_ensures(
                predicate,
                (&self->Ident_0,),
                false,
            )),
    {
        let accepted = match &self {
            TokenTree::Ident(x) => predicate(x),
            _ => false,
        };
        if accepted {
            match self {
                TokenTree::Ident(x) => Ok(x),
                _ => Err(self),
            }
        } else {
            Err(self)
        }
    }

    fn into_punct_if<P>(self, predicate: P) -> (r: Result<Punct, Self>) where
        P: FnOnce(&Punct) -> bool,
        ensures
            r is Ok ==> self is Punct && r == Ok::<Punct, Self>(self->Punct_0) && call_ensures(
                predicate,
                (&self->Punct_0,),
                true,
            ),
            r is Err ==> r == Err::<Punct, Self>(self) && (self is Punct ==> call_ensures(
                predicate,
                (&self->Punct_0,),
                false,
            )),
    {
        let accepted = match &self {
            TokenTree::Punct(x) => predicate(x),
            _ => false,
        };
        if accepted {
            match self {
                TokenTree::Punct(x) => Ok(x),
                _ => Err(self),
            }
        } else {
            Err(self)
        }
    }

    fn into_literal_if<P>(self, predicate: P) -> (r: Result<Literal, Self>) where
        P: FnOnce(&Literal) -> bool,
        ensures
            r is Ok ==> self is Literal && r == Ok::<Literal, Self>(self->Literal_0) && call_ensures(
                predicate,
                (&self->Literal_0,),
                true,
            ),
            r is Err ==> r == Err::<Literal, Self>(self) && (self is Literal ==> call_ensures(
                predicate,
                (&self->Literal_0,),
                false,
            )),
    {
        let accepted = match &self {
            TokenTree::Literal(x) => predicate(x),
            _ => false,
        };
        if accepted {
            match self {
                TokenTree::Literal(x) => Ok(x),
                _ => Err(self),
            }
        } else {
            Err(self)
        }
    }

    fn as_group(&self) -> (r: Option<&Group>)
        ensures
            r == (if *self is Group {
                Some(&self->Group_0)
            } else {
                None
            }),
    {
        match self {
            TokenTree::Group(x) => Some(x),
            _ => None,
        }
    }

    fn as_ident(&self) -> (r: Option<&Ident>)
        ensures
            r == (if *self is Ident {
                Some(&self->Ident_0)
            } else {
                None
            }),
    {
        match self {
            TokenTree::Ident(x) => Some(x),
            _ => None,
        }
    }

    fn as_punct(&self) -> (r: Option<&Punct>)
        ensures
            r == (if *self is Punct {
                Some(&self->Punct_0)
            } else {
                None
            }),
    {
        match self {
            TokenTree::Punct(x) => Some(x),
            _ => None,
        }
    }

    fn as_literal(&self) -> (r: Option<&Literal>)
        ensures
            r == (if *self is Literal {
                Some(&self->Literal_0)
            } else {
                None
            }),
    {
        match self {
            TokenTree::Literal(x) => Some(x),
            _ => None,
        }
    }

    fn as_group_mut(&mut self) -> (r: Option<&mut Group>)
        ensures
            r is Some <==> *old(self) is Group,
            r is None ==> *final(self) == *old(self),
            r is Some ==> *r->0 == old(self)->Group_0 && *final(self) == TokenTree::Group(
                *final(r->0),
            ),
    {
        match self {
            TokenTree::Group(x) => Some(x),
            _ => None,
        }
    }

    fn as_ident_mut(&mut self) -> (r: Option<&mut Ident>)
        ensures
            r is Some <==> *old(self) is Ident,
            r is None ==> *final(self) == *old(self),
            r is Some ==> *r->0 == old(self)->Ident_0 && *final(self) == TokenTree::Ident(
                *final(r->0),
            ),
    {
        match self {
            TokenTree::Ident(x) => Some(x),
            _ => None,
        }
    }

    fn as_punct_mut(&mut self) -> (r: Option<&mut Punct>)
        ensures
            r is Some <==> *old(self) is Punct,
            r is None ==> *final(self) == *old(self),
            r is Some ==> *r->0 == old(self)->Punct_0 && *final(self) == TokenTree::Punct(
                *final(r->0),
            ),
    {
        match self {
            TokenTree::Punct(x) => Some(x),
            _ => None,
        }
    }

    fn as_literal_mut(&mut self) -> (r: Option<&mut Literal>)
        ensures
            r is Some <==> *old(self) is Literal,
            r is None ==> *final(self) == *old(self),
            r is Some ==> *r->0 == old(self)->Literal_0 && *final(self) == TokenTree::Literal(
                *final(r->0),
            ),
    {
        match self {
            TokenTree::Literal(x) => Some(x),
            _ => None,
        }
    }
}

/// Extension trait for `Group`.
pub trait GroupExt: Sealed + Sized {
    /// Constructs a group with the given span, delimiter, and token stream.
    fn new_spanned(span: Span, delimiter: Delimiter, stream: TokenStream) -> Self;

    /// Returns `true` if this group is equivalent to `other`.
    fn equals(&self, other: &Self) -> bool;

    /// Returns `true` if the group's delimiter matches `delimiter`.
    fn is_delimiter(&self, delimiter: Delimiter) -> bool;

    /// Returns `true` if the delimiter is `Delimiter::Parenthesis`.
    fn is_parenthesized(&self) -> bool;

    /// Returns `true` if the delimiter is `Delimiter::Brace`.
    fn is_braced(&self) -> bool;

    /// Returns `true` if the delimiter is `Delimiter::Bracket`.
    fn is_bracketed(&self) -> bool;

    /// Returns `true` if the delimiter is `Delimiter::Undelimited`.
    fn is_undelimited(&self) -> bool;

    /// Returns `true` if there are no tokens delimited in this group.
    fn is_empty(&self) -> bool;
}

impl Sealed for Group {

}

impl GroupExt for Group {
    fn new_spanned(span: Span, delimiter: Delimiter, stream: TokenStream) -> (r: Self)
        ensures
            r.span == span,
            r.delimiter == delimiter,
            r.stream == stream,
    {
        let mut group = Group::new(delimiter, stream);
        group.set_span(span);
        group
    }

    fn equals(&self, other: &Self) -> (r: bool)
        ensures
            r == (self.delimiter == other.delimiter && stream_equiv(self.stream, other.stream)),
    {
        self.delimiter == other.delimiter && stream_equals(&self.stream, &other.stream)
    }

    fn is_delimiter(&self, delimiter: Delimiter) -> (r: bool)
        ensures
            r == (self.delimiter == delimiter),
    {
        self.delimiter == delimiter
    }

    fn is_parenthesized(&self) -> (r: bool)
        ensures
            r == (self.delimiter == Delimiter::Parenthesis),
    {
        self.is_delimiter(Delimiter::Parenthesis)
    }

    fn is_braced(&self) -> (r: bool)
        ensures
            r == (self.delimiter == Delimiter::Brace),
    {
        self.is_delimiter(Delimiter::Brace)
    }

    fn is_bracketed(&self) -> (r: bool)
        ensures
            r == (self.delimiter == Delimiter::Bracket),
    {
        self.is_delimiter(Delimiter::Bracket)
    }

    fn is_undelimited(&self) -> (r: bool)
        ensures
            r == (self.delimiter == Delimiter::Undelimited),
    {
        self.is_delimiter(Delimiter::Undelimited)
    }

    fn is_empty(&self) -> (r: bool)
        ensures
            r == (self.stream.trees@.len() == 0),
    {
        self.stream.is_empty()
    }
}

/// Extension trait for `Ident`.
pub trait IdentExt: Sealed + Sized {
    /// Returns `true` if this ident is equal to `other`.
    fn equals(&self, other: &Self) -> bool;

    /// Returns `true` if the identifier is prefixed with `r#`.
    fn is_raw(&self) -> bool;

    /// If present, strips the raw identifier prefix `r#`.
    fn unraw(&self) -> Self;
}

impl Sealed for Ident {

}

impl IdentExt for Ident {
    fn equals(&self, other: &Self) -> (r: bool)
        ensures
            r == (self.text@ == other.text@),
    {
        self.text == other.text
    }

    fn is_raw(&self) -> (r: bool)
        ensures
            r == is_raw_text(self.text@),
    {
        let text = self.text.as_str();
        let n = text.unicode_len();
        n >= 2 && text.get_char(0) == 'r' && text.get_char(1) == '#'
    }

    fn unraw(&self) -> (r: Self)
        ensures
            r.span == self.span,
            r.text@ == ident_body(self.text@),
            is_ident_text(self.text@) ==> is_ident_text(r.text@) && !is_raw_text(r.text@),
    {
        proof {
            if is_ident_text(self.text@) {
                law_unraw_idempotent(self.text@);
            }
        }
        if self.is_raw() {
            let text = self.text.as_str();
            let stripped = text.substring_char(2, text.unicode_len());
            Ident { text: String::from_str(stripped), span: self.span }
        } else {
            Ident { text: self.text.clone(), span: self.span }
        }
    }
}

/// Stripping the raw prefix: what `unraw` leaves of an identifier is an
/// identifier that is not raw, so that a second `unraw` changes nothing.
pub proof fn law_unraw_idempotent(text: Seq<char>)
    requires
        is_ident_text(text),
    ensures
        is_ident_text(ident_body(text)),
        !is_raw_text(ident_body(text)),
        ident_body(ident_body(text)) == ident_body(text),
{
    let body = ident_body(text);
    if body.len() >= 2 {
        assert(body[1] != '#');
    }
}

/// Extension trait for `Punct`.
pub trait PunctExt: Sealed + Sized {
    /// Constructs a punct with the given span, character, and spacing.
    fn new_spanned(span: Span, character: char, spacing: Spacing) -> Self
        requires
            is_punct_char(character),
    ;

    /// Returns `true` if this punct is equal to `other`.
    fn equals(&self, other: &Self) -> bool;

    /// Returns `true` if the punct character is `character`.
    fn is_char(&self, character: char) -> bool;

    /// Returns `true` if the spacing matches `spacing`.
    fn is_spacing(&self, spacing: Spacing) -> bool;

    /// Returns `true` if the spacing is `Spacing::Alone`.
    fn is_alone(&self) -> bool;

    /// Returns `true` if the spacing is `Spacing::Joint`.
    fn is_joint(&self) -> bool;
}

impl Sealed for Punct {

}

impl PunctExt for Punct {
    fn new_spanned(span: Span, character: char, spacing: Spacing) -> (r: Self)
        ensures
            r.span == span,
            r.ch == character,
            r.spacing == spacing,
    {
        let mut punct = Punct::new(character, spacing);
        punct.set_span(span);
        punct
    }

    fn equals(&self, other: &Self) -> (r: bool)
        ensures
            r == (self.ch == other.ch && self.spacing == other.spacing),
    {
        self.ch == other.ch && self.spacing == other.spacing
    }

    fn is_char(&self, character: char) -> (r: bool)
        ensures
            r == (self.ch == character),
    {
        self.ch == character
    }

    fn is_spacing(&self, spacing: Spacing) -> (r: bool)
        ensures
            r == (self.spacing == spacing),
    {
        self.spacing == spacing
    }

    fn is_alone(&self) -> (r: bool)
        ensures
            r == (self.spacing == Spacing::Alone),
    {
        self.is_spacing(Spacing::Alone)
    }

    fn is_joint(&self) -> (r: bool)
        ensures
            r == (self.spacing == Spacing::Joint),
    {
        self.is_spacing(Spacing::Joint)
    }
}

/// Extension trait for `Literal`. The floating-point and C-string
/// constructors are not here.
pub trait LiteralExt: Sealed + Sized {

    /// Constructs a suffixed `i8` literal with the given span and integer.
    fn i8_suffixed_spanned(span: Span, integer: i8) -> Self;

    /// Constructs an unsuffixed `i8` literal with the given span and integer.
    fn i8_unsuffixed_spanned(span: Span, integer: i8) -> Self;

    /// Constructs a suffixed `i16` literal with the given span and integer.
    fn i16_suffixed_spanned(span: Span, integer: i16) -> Self;

    /// Constructs an unsuffixed `i16` literal with the given span and integer.
    fn i16_unsuffixed_spanned(span: Span, integer: i16) -> Self;

    /// Constructs a suffixed `i32` literal with the given span and integer.
    fn i32_suffixed_spanned(span: Span, integer: i32) -> Self;

    /// Constructs an unsuffixed `i32` literal with the given span and integer.
    fn i32_unsuffixed_spanned(span: Span, integer: i32) -> Self;

    /// Constructs a suffixed `i64` literal with the given span and integer.
    fn i64_suffixed_spanned(span: Span, integer: i64) -> Self;

    /// Constructs an unsuffixed `i64` literal with the given span and integer.
    fn i64_unsuffixed_spanned(span: Span, integer: i64) -> Self;

    /// Constructs a suffixed `i128` literal with the given span and integer.
    fn i128_suffixed_spanned(span: Span, integer: i128) -> Self;

    /// Constructs an unsuffixed `i128` literal with the given span and integer.
    fn i128_unsuffixed_spanned(span: Span, integer: i128) -> Self;

    /// Constructs a suffixed `isize` literal with the given span and integer.
    fn isize_suffixed_spanned(span: Span, integer: isize) -> Self;

    /// Constructs an unsuffixed `isize` literal with the given span and integer.
    fn isize_unsuffixed_spanned(span: Span, integer: isize) -> Self;

    /// Constructs a suffixed `u8` literal with the given span and integer.
    fn u8_suffixed_spanned(span: Span, integer: u8) -> Self;

    /// Constructs an unsuffixed `u8` literal with the given span and integer.
    fn u8_unsuffixed_spanned(span: Span, integer: u8) -> Self;

    /// Constructs a suffixed `u16` literal with the given span and integer.
    fn u16_suffixed_spanned(span: Span, integer: u16) -> Self;

    /// Constructs an unsuffixed `u16` literal with the given span and integer.
    fn u16_unsuffixed_spanned(span: Span, integer: u16) -> Self;

    /// Constructs a suffixed `u32` literal with the given span and integer.
    fn u32_suffixed_spanned(span: Span, integer: u32) -> Self;

    /// Constructs an unsuffixed `u32` literal with the given span and integer.
    fn u32_unsuffixed_spanned(span: Span, integer: u32) -> Self;

    /// Constructs a suffixed `u64` literal with the given span and integer.
    fn u64_suffixed_spanned(span: Span, integer: u64) -> Self;

    /// Constructs an unsuffixed `u64` literal with the given span and integer.
    fn u64_unsuffixed_spanned(span: Span, integer: u64) -> Self;

    /// Constructs a suffixed `u128` literal with the given span and integer.
    fn u128_suffixed_spanned(span: Span, integer: u128) -> Self;

    /// Constructs an unsuffixed `u128` literal with the given span and integer.
    fn u128_unsuffixed_spanned(span: Span, integer: u128) -> Self;

    /// Constructs a suffixed `usize` literal with the given span and integer.
    fn usize_suffixed_spanned(span: Span, integer: usize) -> Self;

    /// Constructs an unsuffixed `usize` literal with the given span and integer.
    fn usize_unsuffixed_spanned(span: Span, integer: usize) -> Self;

    /// Constructs a string literal with the given span and string.
    fn string_spanned(span: Span, string: &str) -> Self;

    /// Constructs a byte string literal with the given span and bytes.
    fn byte_string_spanned(span: Span, bytes: &[u8]) -> Self;

    /// Constructs a `char` literal with the given span and character.
    fn character_spanned(span: Span, character: char) -> Self;

    /// Constructs a byte character literal with the given span and byte.
    fn byte_character_spanned(span: Span, byte: u8) -> Self;

    /// Returns `true` if this literal is equal to `other`.
    fn equals(&self, other: &Self) -> bool;
}

impl Sealed for Literal {

}

impl LiteralExt for Literal {

    fn i8_suffixed_spanned(span: Span, integer: i8) -> (r: Self)
        ensures
            r.repr@ == decimal(integer as int) + "i8"@,
            r.span == span,
    {
        let mut repr = signed_decimal(integer as i128);
        proof {
            reveal_strlit("i8");
        }
        repr.append("i8");
        Literal { repr, span }
    }

    fn i8_unsuffixed_spanned(span: Span, integer: i8) -> (r: Self)
        ensures
            r.repr@ == decimal(integer as int),
            r.span == span,
    {
        let mut repr = signed_decimal(integer as i128);
        Literal { repr, span }
    }

    fn i16_suffixed_spanned(span: Span, integer: i16) -> (r: Self)
        ensures
            r.repr@ == decimal(integer as int) + "i16"@,
            r.span == span,
    {
        let mut repr = signed_decimal(integer as i128);
        proof {
            reveal_strlit("i16");
        }
        repr.append("i16");
        Literal { repr, span }
    }

    fn i16_unsuffixed_spanned(span: Span, integer: i16) -> (r: Self)
        ensures
            r.repr@ == decimal(integer as int),
            r.span == span,
    {
        let mut repr = signed_decimal(integer as i128);
        Literal { repr, span }
    }

    fn i32_suffixed_spanned(span: Span, integer: i32) -> (r: Self)
        ensures
            r.repr@ == decimal(integer as int) + "i32"@,
            r.span == span,
    {
        let mut repr = signed_decimal(integer as i128);
        proof {
            reveal_strlit("i32");
        }
        repr.append("i32");
        Literal { repr, span }
    }

    fn i32_unsuffixed_spanned(span: Span, integer: i32) -> (r: Self)
        ensures
            r.repr@ == decimal(integer as int),
            r.span == span,
    {
        let mut repr = signed_decimal(integer as i128);
        Literal { repr, span }
    }

    fn i64_suffixed_spanned(span: Span, integer: i64) -> (r: Self)
        ensures
            r.repr@ == decimal(integer as int) + "i64"@,
            r.span == span,
    {
        let mut repr = signed_decimal(integer as i128);
        proof {
            reveal_strlit("i64");
        }
        repr.append("i64");
        Literal { repr, span }
    }

    fn i64_unsuffixed_spanned(span: Span, integer: i64) -> (r: Self)
        ensures
            r.repr@ == decimal(integer as int),
            r.span == span,
    {
        let mut repr = signed_decimal(integer as i128);
        Literal { repr, span }
    }

    fn i128_suffixed_spanned(span: Span, integer: i128) -> (r: Self)
        ensures
            r.repr@ == decimal(integer as int) + "i128"@,
            r.span == span,
    {
        let mut repr = signed_decimal(integer as i128);
        proof {
            reveal_strlit("i128");
        }
        repr.append("i128");
        Literal { repr, span }
    }

    fn i128_unsuffixed_spanned(span: Span, integer: i128) -> (r: Self)
        ensures
            r.repr@ == decimal(integer as int),
            r.span == span,
    {
        let mut repr = signed_decimal(integer as i128);
        Literal { repr, span }
    }

    fn isize_suffixed_spanned(span: Span, integer: isize) -> (r: Self)
        ensures
            r.repr@ == decimal(integer as int) + "isize"@,
            r.span == span,
    {
        let mut repr = signed_decimal(integer as i128);
        proof {
            reveal_strlit("isize");
        }
        repr.append("isize");
        Literal { repr, span }
    }

    fn isize_unsuffixed_spanned(span: Span, integer: isize) -> (r: Self)
        ensures
            r.repr@ == decimal(integer as int),
            r.span == span,
    {
        let mut repr = signed_decimal(integer as i128);
        Literal { repr, span }
    }

    fn u8_suffixed_spanned(span: Span, integer: u8) -> (r: Self)
        ensures
            r.repr@ == decimal(integer as int) + "u8"@,
            r.span == span,
    {
        let mut repr = unsigned_decimal(integer as u128);
        proof {
            reveal_strlit("u8");
        }
        repr.append("u8");
        Literal { repr, span }
    }

    fn u8_unsuffixed_spanned(span: Span, integer: u8) -> (r: Self)
        ensures
            r.repr@ == decimal(integer as int),
            r.span == span,
    {
        let mut repr = unsigned_decimal(integer as u128);
        Literal { repr, span }
    }

    fn u16_suffixed_spanned(span: Span, integer: u16) -> (r: Self)
        ensures
            r.repr@ == decimal(integer as int) + "u16"@,
            r.span == span,
    {
        let mut repr = unsigned_decimal(integer as u128);
        proof {
            reveal_strlit("u16");
        }
        repr.append("u16");
        Literal { repr, span }
    }

    fn u16_unsuffixed_spanned(span: Span, integer: u16) -> (r: Self)
        ensures
            r.repr@ == decimal(integer as int),
            r.span == span,
    {
        let mut repr = unsigned_decimal(integer as u128);
        Literal { repr, span }
    }

    fn u32_suffixed_spanned(span: Span, integer: u32) -> (r: Self)
        ensures
            r.repr@ == decimal(integer as int) + "u32"@,
            r.span == span,
    {
        let mut repr = unsigned_decimal(integer as u128);
        proof {
            reveal_strlit("u32");
        }
        repr.append("u32");
        Literal { repr, span }
    }

    fn u32_unsuffixed_spanned(span: Span, integer: u32) -> (r: Self)
        ensures
            r.repr@ == decimal(integer as int),
            r.span == span,
    {
        let mut repr = unsigned_decimal(integer as u128);
        Literal { repr, span }
    }

    fn u64_suffixed_spanned(span: Span, integer: u64) -> (r: Self)
        ensures
            r.repr@ == decimal(integer as int) + "u64"@,
            r.span == span,
    {
        let mut repr = unsigned_decimal(integer as u128);
        proof {
            reveal_strlit("u64");
        }
        repr.append("u64");
        Literal { repr, span }
    }

    fn u64_unsuffixed_spanned(span: Span, integer: u64) -> (r: Self)
        ensures
            r.repr@ == decimal(integer as int),
            r.span == span,
    {
        let mut repr = unsigned_decimal(integer as u128);
        Literal { repr, span }
    }

    fn u128_suffixed_spanned(span: Span, integer: u128) -> (r: Self)
        ensures
            r.repr@ == decimal(integer as int) + "u128"@,
            r.span == span,
    {
        let mut repr = unsigned_decimal(integer as u128);
        proof {
            reveal_strlit("u128");
        }
        repr.append("u128");
        Literal { repr, span }
    }

    fn u128_unsuffixed_spanned(span: Span, integer: u128) -> (r: Self)
        ensures
            r.repr@ == decimal(integer as int),
            r.span == span,
    {
        let mut repr = unsigned_decimal(integer as u128);
        Literal { repr, span }
    }

    fn usize_suffixed_spanned(span: Span, integer: usize) -> (r: Self)
        ensures
            r.repr@ == decimal(integer as int) + "usize"@,
            r.span == span,
    {
        let mut repr = unsigned_decimal(integer as u128);
        proof {
            reveal_strlit("usize");
        }
        repr.append("usize");
        Literal { repr, span }
    }

    fn usize_unsuffixed_spanned(span: Span, integer: usize) -> (r: Self)
        ensures
            r.repr@ == decimal(integer as int),
            r.span == span,
    {
        let mut repr = unsigned_decimal(integer as u128);
        Literal { repr, span }
    }

    fn string_spanned(span: Span, string: &str) -> (r: Self)
        ensures
            r.span == span,
            is_string_literal_repr(r.repr@, string@),
    {
        Literal { repr: string_literal_repr(string), span }
    }

    fn byte_string_spanned(span: Span, bytes: &[u8]) -> (r: Self)
        ensures
            r.span == span,
            is_byte_string_literal_repr(r.repr@, bytes@),
    {
        Literal { repr: byte_string_literal_repr(bytes), span }
    }

    fn character_spanned(span: Span, character: char) -> (r: Self)
        ensures
            r.span == span,
            is_character_literal_repr(r.repr@, character),
    {
        Literal { repr: character_literal_repr(character), span }
    }

    fn byte_character_spanned(span: Span, byte: u8) -> (r: Self)
        ensures
            r.span == span,
            is_byte_character_literal_repr(r.repr@, byte),
    {
        Literal { repr: byte_character_literal_repr(byte), span }
    }

    fn equals(&self, other: &Self) -> (r: bool)
        ensures
            r == (self.repr@ == other.repr@),
    {
        self.repr == other.repr
    }
}

} // verus!
