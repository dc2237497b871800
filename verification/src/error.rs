//! What can go wrong when a binding is extracted.

use vstd::prelude::*;
use vstd::string::*;

verus! {

/// Why the tokens of a binding annotation do not have the shape of their
/// dialect.
#[derive(Clone, Copy, Debug, PartialEq, Eq, Structural)]
pub enum MalformedReason {
    /// The annotation does not start with `#`.
    ExpectedPound,
    /// The `#` is not followed by `[`.
    ExpectedBracket,
    /// The bracket does not start with an identifier.
    ExpectedDesignator,
    /// The designator is not followed by `(`.
    ExpectedArgumentList,
    /// The designator is not followed by `=`.
    ExpectedAssignment,
    /// The `=` is not followed by an identifier.
    ExpectedIdentifier,
    /// The annotation does not end where its dialect closes it: with `)]`
    /// after an argument list, with `]` after a single value.
    Unclosed,
    /// Inside the argument list a delimiter is left open, or closed without
    /// having been opened, or closed by one of another kind.
    UnbalancedDelimiters,
    /// Tokens follow the closing `]`.
    TrailingTokens,
}

/// Why no binding could be extracted from a type definition.
#[derive(Clone, Copy, Debug, PartialEq, Eq, Structural)]
pub enum ExtractionError {
    /// The record has a field without a name, or no field at all.
    UnsupportedShape,
    /// None of the annotations is a binding annotation.
    MissingAnnotation,
    /// The binding annotation, the one at index `annotation`, does not parse.
    MalformedAnnotation { annotation: usize, reason: MalformedReason },
    /// The argument list parses, but none of its arguments is
    /// `table_name = <identifier>`.
    MissingTableName,
}

/// The reason in words.
pub open spec fn reason_text(reason: MalformedReason) -> Seq<char> {
    match reason {
        MalformedReason::ExpectedPound => "expected `#`"@,
        MalformedReason::ExpectedBracket => "expected `[` after `#`"@,
        MalformedReason::ExpectedDesignator => "expected an identifier after `#[`"@,
        MalformedReason::ExpectedArgumentList => "expected `(` after the attribute's name"@,
        MalformedReason::ExpectedAssignment => "expected `=` after the attribute's name"@,
        MalformedReason::ExpectedIdentifier => "expected an identifier after `=`"@,
        MalformedReason::Unclosed => "the attribute is not closed"@,
        MalformedReason::UnbalancedDelimiters => "mismatched delimiters among the arguments"@,
        MalformedReason::TrailingTokens => "unexpected tokens after `]`"@,
    }
}

/// The decimal digit for `d`, which is below ten.
pub open spec fn digit(d: nat) -> char {
    if d == 0 {
        '0'
    } else if d == 1 {
        '1'
    } else if d == 2 {
        '2'
    } else if d == 3 {
        '3'
    } else if d == 4 {
        '4'
    } else if d == 5 {
        '5'
    } else if d == 6 {
        '6'
    } else if d == 7 {
        '7'
    } else if d == 8 {
        '8'
    } else {
        '9'
    }
}

/// `n` in decimal digits, the highest first, without leading zeros.
pub open spec fn decimal_text(n: nat) -> Seq<char>
    decreases n,
{
    if n < 10 {
        seq![digit(n)]
    } else {
        decimal_text(n / 10).push(digit(n % 10))
    }
}

/// The error in words. A malformed annotation is told by its index among
/// the annotations of the type, counted from zero, and by what is wrong
/// with it.
pub open spec fn error_text(error: ExtractionError) -> Seq<char> {
    match error {
        ExtractionError::UnsupportedShape => "Selectable only supports structs with named fields"@,
        ExtractionError::MissingAnnotation => "A `diesel` or `table` attribute is required"@,
        ExtractionError::MalformedAnnotation { annotation, reason } =>
            "Unable to parse the attribute at index "@ + decimal_text(annotation as nat) + ": "@
                + reason_text(reason),
        ExtractionError::MissingTableName => "No `table_name` argument found"@,
    }
}

/// The decimal digit for `d` as a text of its own.
fn digit_str(d: usize) -> (text: &'static str)
    requires
        d < 10,
    ensures
        text@ == seq![digit(d as nat)],
{
    proof {
        reveal_strlit("0");
        reveal_strlit("1");
        reveal_strlit("2");
        reveal_strlit("3");
        reveal_strlit("4");
        reveal_strlit("5");
        reveal_strlit("6");
        reveal_strlit("7");
        reveal_strlit("8");
        reveal_strlit("9");
    }
    let text = if d == 0 {
        "0"
    } else if d == 1 {
        "1"
    } else if d == 2 {
        "2"
    } else if d == 3 {
        "3"
    } else if d == 4 {
        "4"
    } else if d == 5 {
        "5"
    } else if d == 6 {
        "6"
    } else if d == 7 {
        "7"
    } else if d == 8 {
        "8"
    } else {
        "9"
    };
    assert(text@ =~= seq![digit(d as nat)]);
    text
}

/// Writes `n` in decimal digits.
pub fn decimal(n: usize) -> (text: String)
    ensures
        text@ == decimal_text(n as nat),
    decreases n,
{
    if n < 10 {
        String::from_str(digit_str(n))
    } else {
        let mut text = decimal(n / 10);
        let last = digit_str(n % 10);
        text.append(last);
        assert(text@ =~= decimal_text((n / 10) as nat).push(digit((n % 10) as nat)));
        text
    }
}

impl MalformedReason {
    /// The reason in words.
    pub fn describe(&self) -> (text: &'static str)
        ensures
            text@ == reason_text(*self),
    {
        match self {
            MalformedReason::ExpectedPound => "expected `#`",
            MalformedReason::ExpectedBracket => "expected `[` after `#`",
            MalformedReason::ExpectedDesignator => "expected an identifier after `#[`",
            MalformedReason::ExpectedArgumentList => "expected `(` after the attribute's name",
            MalformedReason::ExpectedAssignment => "expected `=` after the attribute's name",
            MalformedReason::ExpectedIdentifier => "expected an identifier after `=`",
            MalformedReason::Unclosed => "the attribute is not closed",
            MalformedReason::UnbalancedDelimiters => "mismatched delimiters among the arguments",
            MalformedReason::TrailingTokens => "unexpected tokens after `]`",
        }
    }
}

impl ExtractionError {
    /// The error in words.
    pub fn describe(&self) -> (text: String)
        ensures
            text@ == error_text(*self),
    {
        match self {
            ExtractionError::UnsupportedShape => String::from_str(
                "Selectable only supports structs with named fields",
            ),
            ExtractionError::MissingAnnotation => String::from_str(
                "A `diesel` or `table` attribute is required",
            ),
            ExtractionError::MalformedAnnotation { annotation, reason } => {
                let index = decimal(*annotation);
                let mut text = String::from_str("Unable to parse the attribute at index ");
                text.append(index.as_str());
                text.append(": ");
                text.append(reason.describe());
                text
            },
            ExtractionError::MissingTableName => String::from_str(
                "No `table_name` argument found",
            ),
        }
    }
}

} // verus!
