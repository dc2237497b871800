//! Identifiers, as the identifier parser of `syn` accepts them.

use vstd::prelude::*;
use vstd::string::*;

verus! {

/// A single identifier.
///
/// That its text is not empty is proved here. The rest is the word of the
/// identifier parser of `syn`, by which [`Ident::parse`] goes: it refuses
/// keywords, and whatever is more than one token. The text is private, so an
/// identifier is made by [`Ident::parse`], or by [`Ident::confirm`] from a
/// verdict that the caller vouches for.
#[derive(Debug, PartialEq, Eq)]
pub struct Ident {
    text: String,
}

impl View for Ident {
    type V = Seq<char>;

    closed spec fn view(&self) -> Seq<char> {
        self.text@
    }
}

impl Ident {
    #[verifier::type_invariant]
    spec fn never_empty(self) -> bool {
        self.text@.len() > 0
    }
}

impl DeepView for Ident {
    type V = Seq<char>;

    open spec fn deep_view(&self) -> Seq<char> {
        self@
    }
}

/// Whether `c` opens a delimited group.
pub open spec fn opens_group(c: char) -> bool {
    c == '(' || c == '[' || c == '{'
}

/// No character of `text` opens a delimited group.
pub open spec fn free_of_groups(text: Seq<char>) -> bool {
    forall|i: int| 0 <= i < text.len() ==> !opens_group(#[trigger] text[i])
}

/// Calls `syn::parse_str::<syn::Ident>` and hands back the text of the
/// identifier it parsed, or `None` where it reports an error.
///
/// Nothing is claimed of the result. Which lexer reads the text depends on
/// whether the process is a macro expansion, so not even that equal texts
/// fare equally is assumed. The parser descends into delimited groups as
/// deep as they nest, so a text that opens one is kept away from it.
#[verifier::external_body]
fn canonical_identifier(text: &str) -> (canonical: Option<String>)
    requires
        free_of_groups(text@),
{
    match syn::parse_str::<syn::Ident>(text) {
        Ok(ident) => Some(ident.to_string()),
        Err(_) => None,
    }
}

/// Whether some character of `text` opens a delimited group.
pub fn holds_group(text: &str) -> (found: bool)
    ensures
        found == !free_of_groups(text@),
{
    let n = text.unicode_len();
    let mut i: usize = 0;
    while i < n
        invariant
            i <= n,
            n == text@.len(),
            forall|j: int| 0 <= j < i ==> !opens_group(#[trigger] text@[j]),
        decreases n - i,
    {
        let c = text.get_char(i);
        if c == '(' || c == '[' || c == '{' {
            return true;
        }
        i += 1;
    }
    false
}

impl Ident {
    /// Reads `text` as one identifier.
    ///
    /// The text is accepted only if the parser finds a single identifier in it
    /// and prints that identifier back letter for letter, so surrounding
    /// white space or comments are refused along with keywords and compound
    /// names.
    pub fn parse(text: &str) -> (parsed: Option<Ident>)
        ensures
            parsed matches Some(ident) ==> ident@ == text@ && text@.len() > 0 && free_of_groups(
                text@,
            ),
    {
        if holds_group(text) {
            None
        } else {
            Ident::confirm(text, canonical_identifier(text))
        }
    }

    /// Makes the identifier of `text`, given what the identifier parser made
    /// of `text`: the identifier that it printed back, or `None` for its
    /// error. The text is confirmed where the two are the same.
    pub fn confirm(text: &str, canonical: Option<String>) -> (confirmed: Option<Ident>)
        ensures
            match confirmed {
                Some(ident) => ident@ == text@ && text@.len() > 0 && canonical.deep_view() == Some(
                    text@,
                ),
                None => text@.len() == 0 || canonical.deep_view() != Some(text@),
            },
    {
        if text.is_empty() {
            return None;
        }
        match canonical {
            Some(canonical) => {
                let given = text.to_owned();
                if canonical == given {
                    Some(Ident { text: canonical })
                } else {
                    None
                }
            },
            None => None,
        }
    }

    /// The identifier's text, which is never empty.
    pub fn as_str(&self) -> (text: &str)
        ensures
            text@ == self@,
            text@.len() > 0,
    {
        proof {
            use_type_invariant(self);
        }
        self.text.as_str()
    }

    /// Whether the identifier reads `word`.
    pub fn is_word(&self, word: &str) -> (same: bool)
        ensures
            same == (self@ == word@),
    {
        let other = word.to_owned();
        self.text == other
    }
}

impl Clone for Ident {
    fn clone(&self) -> (copy: Self)
        ensures
            copy@ == self@,
            copy@.len() > 0,
    {
        proof {
            use_type_invariant(self);
        }
        Ident { text: self.text.clone() }
    }
}

} // verus!
