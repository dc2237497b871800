//! The two dialects in which an annotation can name the table.

use vstd::prelude::*;
use crate::error::MalformedReason;
use crate::ident::Ident;
use crate::token::{Delimiter, Token, TokenView};

verus! {

/// The designator of the legacy dialect: `#[table = orders]`.
pub const LEGACY_DESIGNATOR: &'static str = "table";

/// The designator of the current dialect: `#[diesel(table_name = orders)]`.
pub const CURRENT_DESIGNATOR: &'static str = "diesel";

/// How an annotation names the table.
#[derive(Clone, Copy, Debug, PartialEq, Eq, Structural)]
pub enum Dialect {
    /// `#[table = <identifier>]`: the annotation carries the table and
    /// nothing else.
    Legacy,
    /// `#[diesel(key = value, ...)]`: the table is the value of the argument
    /// whose key is `table_name`.
    Current,
}

/// The fault in how an annotation starts, if there is one: every annotation
/// starts with `#`, `[` and an identifier, its designator.
pub open spec fn head_fault(tokens: Seq<TokenView>) -> Option<MalformedReason> {
    if !(tokens.len() > 0 && tokens[0] == TokenView::Punct('#')) {
        Some(MalformedReason::ExpectedPound)
    } else if !(tokens.len() > 1 && tokens[1] == TokenView::Open(Delimiter::Bracket)) {
        Some(MalformedReason::ExpectedBracket)
    } else if !(tokens.len() > 2 && tokens[2] is Ident) {
        Some(MalformedReason::ExpectedDesignator)
    } else {
        None
    }
}

/// Finds the fault in how an annotation starts.
pub fn check_head(tokens: &[Token]) -> (fault: Option<MalformedReason>)
    ensures
        fault == head_fault(tokens.deep_view()),
{
    let n = tokens.len();
    if !(n > 0 && tokens[0].is_punct('#')) {
        Some(MalformedReason::ExpectedPound)
    } else if !(n > 1 && tokens[1].is_open(Delimiter::Bracket)) {
        Some(MalformedReason::ExpectedBracket)
    } else if !(n > 2 && tokens[2].as_ident().is_some()) {
        Some(MalformedReason::ExpectedDesignator)
    } else {
        None
    }
}

/// The dialect that `tokens` announce. An annotation is a binding annotation
/// by how it starts: `#`, `[` and one of the two designators. Whether the
/// rest keeps the promise is its dialect's matter.
pub open spec fn binding_dialect(tokens: Seq<TokenView>) -> Option<Dialect> {
    if head_fault(tokens) is Some {
        None
    } else if tokens[2] == TokenView::Ident(LEGACY_DESIGNATOR@) {
        Some(Dialect::Legacy)
    } else if tokens[2] == TokenView::Ident(CURRENT_DESIGNATOR@) {
        Some(Dialect::Current)
    } else {
        None
    }
}

/// The table of the legacy annotation `tokens`, which reads
/// `#[designator = table]` and not a token more, or else the first thing
/// that keeps it from reading so.
pub open spec fn legacy_table(tokens: Seq<TokenView>) -> Result<Seq<char>, MalformedReason> {
    match head_fault(tokens) {
        Some(reason) => Err(reason),
        None => if !(tokens.len() > 3 && tokens[3] == TokenView::Punct('=')) {
            Err(MalformedReason::ExpectedAssignment)
        } else if !(tokens.len() > 4 && tokens[4] is Ident) {
            Err(MalformedReason::ExpectedIdentifier)
        } else if !(tokens.len() > 5 && tokens[5] == TokenView::Close(Delimiter::Bracket)) {
            Err(MalformedReason::Unclosed)
        } else if tokens.len() > 6 {
            Err(MalformedReason::TrailingTokens)
        } else {
            Ok(tokens[4]->Ident_0)
        },
    }
}

impl Dialect {
    /// Tells by its first three tokens whether an annotation is a binding
    /// annotation, and of which dialect.
    pub fn of(tokens: &[Token]) -> (dialect: Option<Dialect>)
        ensures
            dialect == binding_dialect(tokens.deep_view()),
    {
        if check_head(tokens).is_some() {
            return None;
        }
        match tokens[2].as_ident() {
            Some(designator) => if designator.is_word(LEGACY_DESIGNATOR) {
                Some(Dialect::Legacy)
            } else if designator.is_word(CURRENT_DESIGNATOR) {
                Some(Dialect::Current)
            } else {
                None
            },
            None => None,
        }
    }
}

/// The one value of a legacy annotation.
#[derive(Debug, PartialEq, Eq)]
pub struct LegacyTableParser {
    pub table: Ident,
}

impl LegacyTableParser {
    /// Reads an annotation of the form `#[designator = table]`.
    pub fn parse(tokens: &[Token]) -> (parsed: Result<LegacyTableParser, MalformedReason>)
        ensures
            match parsed {
                Ok(found) => legacy_table(tokens.deep_view()) == Ok::<Seq<char>, MalformedReason>(
                    found.table@,
                ) && found.table@.len() > 0,
                Err(reason) => legacy_table(tokens.deep_view()) == Err::<
                    Seq<char>,
                    MalformedReason,
                >(reason),
            },
    {
        let n = tokens.len();
        match check_head(tokens) {
            Some(reason) => {
                return Err(reason);
            },
            None => {},
        }
        if !(n > 3 && tokens[3].is_punct('=')) {
            return Err(MalformedReason::ExpectedAssignment);
        }
        if n <= 4 {
            return Err(MalformedReason::ExpectedIdentifier);
        }
        match tokens[4].as_ident() {
            None => Err(MalformedReason::ExpectedIdentifier),
            Some(table) => if !(n > 5 && tokens[5].is_close(Delimiter::Bracket)) {
                Err(MalformedReason::Unclosed)
            } else if n > 6 {
                Err(MalformedReason::TrailingTokens)
            } else {
                Ok(LegacyTableParser { table: table.clone() })
            },
        }
    }
}

} // verus!
