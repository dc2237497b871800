//! The tokens that annotations are made of, and how their delimiters nest.

use vstd::prelude::*;
use crate::ident::Ident;

verus! {

/// The three kinds of bracket.
#[derive(Clone, Copy, Debug, PartialEq, Eq, Structural)]
pub enum Delimiter {
    /// `(` and `)`
    Parenthesis,
    /// `[` and `]`
    Bracket,
    /// `{` and `}`
    Brace,
}

/// One token of an annotation. A sequence of tokens is flat: an opening
/// delimiter and its closing partner are two tokens, and nothing in the type
/// keeps them paired.
#[derive(Debug, PartialEq, Eq)]
pub enum Token {
    /// An identifier.
    Ident(Ident),
    /// One character of punctuation, such as `#`, `=` or `,`.
    Punct(char),
    /// An opening delimiter.
    Open(Delimiter),
    /// A closing delimiter.
    Close(Delimiter),
    /// Any other lexeme (a literal, a keyword), carried as written.
    Other(String),
}

/// What a [`Token`] stands for in contracts.
pub enum TokenView {
    Ident(Seq<char>),
    Punct(char),
    Open(Delimiter),
    Close(Delimiter),
    Other(Seq<char>),
}

impl DeepView for Token {
    type V = TokenView;

    open spec fn deep_view(&self) -> TokenView {
        match self {
            Token::Ident(ident) => TokenView::Ident(ident@),
            Token::Punct(c) => TokenView::Punct(*c),
            Token::Open(d) => TokenView::Open(*d),
            Token::Close(d) => TokenView::Close(*d),
            Token::Other(text) => TokenView::Other(text@),
        }
    }
}

impl Clone for Token {
    fn clone(&self) -> (copy: Self)
        ensures
            copy.deep_view() == self.deep_view(),
    {
        match self {
            Token::Ident(ident) => Token::Ident(ident.clone()),
            Token::Punct(c) => Token::Punct(*c),
            Token::Open(d) => Token::Open(*d),
            Token::Close(d) => Token::Close(*d),
            Token::Other(text) => Token::Other(text.clone()),
        }
    }
}

impl Token {
    /// Whether the token is the punctuation character `c`.
    pub fn is_punct(&self, c: char) -> (same: bool)
        ensures
            same == (self.deep_view() == TokenView::Punct(c)),
    {
        match self {
            Token::Punct(own) => *own == c,
            _ => false,
        }
    }

    /// Whether the token opens a delimiter of kind `d`.
    pub fn is_open(&self, d: Delimiter) -> (same: bool)
        ensures
            same == (self.deep_view() == TokenView::Open(d)),
    {
        match self {
            Token::Open(own) => *own == d,
            _ => false,
        }
    }

    /// Whether the token closes a delimiter of kind `d`.
    pub fn is_close(&self, d: Delimiter) -> (same: bool)
        ensures
            same == (self.deep_view() == TokenView::Close(d)),
    {
        match self {
            Token::Close(own) => *own == d,
            _ => false,
        }
    }

    /// The identifier that the token is, if it is one.
    pub fn as_ident(&self) -> (ident: Option<&Ident>)
        ensures
            match ident {
                Some(ident) => self.deep_view() == TokenView::Ident(ident@),
                None => !(self.deep_view() is Ident),
            },
    {
        match self {
            Token::Ident(ident) => Some(ident),
            _ => None,
        }
    }
}

/// The delimiters that are open after `tokens`, innermost last, counted from
/// `open`. `None` once a closing delimiter has met no opening partner of its
/// own kind.
pub open spec fn delimiters_after(open: Option<Seq<Delimiter>>, tokens: Seq<TokenView>) -> Option<
    Seq<Delimiter>,
>
    decreases tokens.len(),
{
    if tokens.len() == 0 {
        open
    } else {
        match delimiters_after(open, tokens.drop_last()) {
            None => None,
            Some(stack) => match tokens.last() {
                TokenView::Open(d) => Some(stack.push(d)),
                TokenView::Close(d) => if stack.len() > 0 && stack.last() == d {
                    Some(stack.drop_last())
                } else {
                    None
                },
                _ => Some(stack),
            },
        }
    }
}

/// The delimiters that `tokens` leaves open, with none open before them.
pub open spec fn open_delimiters(tokens: Seq<TokenView>) -> Option<Seq<Delimiter>> {
    delimiters_after(Some(Seq::empty()), tokens)
}

/// Every delimiter in `tokens` is closed by a partner of its own kind, in
/// nesting order, and nothing is closed that was not opened.
pub open spec fn balanced(tokens: Seq<TokenView>) -> bool {
    open_delimiters(tokens) == Some(Seq::<Delimiter>::empty())
}

/// Scanning `a + b` is scanning `a`, then `b` from where `a` ended.
pub proof fn lemma_delimiters_after_concat(
    open: Option<Seq<Delimiter>>,
    a: Seq<TokenView>,
    b: Seq<TokenView>,
)
    ensures
        delimiters_after(open, a + b) == delimiters_after(delimiters_after(open, a), b),
    decreases b.len(),
{
    if b.len() == 0 {
        assert(a + b =~= a);
    } else {
        lemma_delimiters_after_concat(open, a, b.drop_last());
        assert((a + b).drop_last() =~= a + b.drop_last());
        assert((a + b).last() == b.last());
    }
}

/// Once the nesting is broken, no further token mends it.
pub proof fn lemma_delimiters_after_none(tokens: Seq<TokenView>)
    ensures
        delimiters_after(None, tokens) is None,
    decreases tokens.len(),
{
    if tokens.len() > 0 {
        lemma_delimiters_after_none(tokens.drop_last());
    }
}

/// Delimiters that were open before stay open, untouched, under tokens
/// that are scanned without fault from an empty start.
pub proof fn lemma_delimiters_after_above(base: Seq<Delimiter>, tokens: Seq<TokenView>)
    requires
        open_delimiters(tokens) is Some,
    ensures
        delimiters_after(Some(base), tokens) == Some(base + open_delimiters(tokens)->0),
    decreases tokens.len(),
{
    if tokens.len() == 0 {
        assert(base + Seq::<Delimiter>::empty() =~= base);
    } else {
        let before = tokens.drop_last();
        lemma_delimiters_after_above(base, before);
        let stack = open_delimiters(before)->0;
        match tokens.last() {
            TokenView::Open(d) => {
                assert((base + stack).push(d) =~= base + stack.push(d));
            },
            TokenView::Close(d) => {
                assert((base + stack).last() == stack.last());
                assert((base + stack).drop_last() =~= base + stack.drop_last());
            },
            _ => {},
        }
    }
}

/// Balanced tokens after balanced tokens are balanced.
pub proof fn lemma_balanced_concat(a: Seq<TokenView>, b: Seq<TokenView>)
    requires
        balanced(a),
        balanced(b),
    ensures
        balanced(a + b),
{
    lemma_delimiters_after_concat(Some(Seq::empty()), a, b);
}

/// Balanced tokens between an opening delimiter and the closing one of the
/// same kind are balanced.
pub proof fn lemma_balanced_group(d: Delimiter, inner: Seq<TokenView>)
    requires
        balanced(inner),
    ensures
        balanced(seq![TokenView::Open(d)] + inner + seq![TokenView::Close(d)]),
{
    reveal_with_fuel(delimiters_after, 2);
    let opened = seq![TokenView::Open(d)];
    let closed = seq![TokenView::Close(d)];
    assert(opened.drop_last() =~= Seq::<TokenView>::empty());
    assert(Seq::<Delimiter>::empty().push(d) =~= seq![d]);
    assert(open_delimiters(opened) == Some(seq![d]));
    lemma_delimiters_after_above(seq![d], inner);
    lemma_delimiters_after_concat(Some(Seq::empty()), opened, inner);
    assert(seq![d] + Seq::<Delimiter>::empty() =~= seq![d]);
    assert(open_delimiters(opened + inner) == Some(seq![d]));
    lemma_delimiters_after_concat(Some(Seq::empty()), opened + inner, closed);
    assert(closed.drop_last() =~= Seq::<TokenView>::empty());
    assert(seq![d].drop_last() =~= Seq::<Delimiter>::empty());
}

/// A token that is no delimiter is balanced by itself.
pub proof fn lemma_balanced_plain(token: TokenView)
    requires
        !(token is Open),
        !(token is Close),
    ensures
        balanced(seq![token]),
{
    reveal_with_fuel(delimiters_after, 2);
    assert(seq![token].drop_last() =~= Seq::<TokenView>::empty());
}

} // verus!
