//! The whole way, from a type definition to its generated code.

use vstd::prelude::*;
use vstd::string::*;
use crate::error::{error_text, ExtractionError};
use crate::extract::{extract, extracted};
use crate::generate::{generate, generated, CodeView, GeneratedCode};
use crate::ident::Ident;
use crate::metadata::{MetadataView, TypeDefinitionMetadata};

verus! {

/// Why nothing was generated for a type, and for which.
#[derive(Debug, PartialEq, Eq)]
pub struct Diagnostic {
    /// The type that the code was to be generated for.
    pub target: Ident,
    /// What kept its binding from being extracted.
    pub error: ExtractionError,
}

/// What a [`Diagnostic`] stands for in contracts.
pub struct DiagnosticView {
    pub target: Seq<char>,
    pub error: ExtractionError,
}

impl DeepView for Diagnostic {
    type V = DiagnosticView;

    open spec fn deep_view(&self) -> DiagnosticView {
        DiagnosticView { target: self.target@, error: self.error }
    }
}

/// The message of a diagnostic: the type by name, then the error in words.
pub open spec fn diagnostic_text(diagnostic: DiagnosticView) -> Seq<char> {
    "cannot derive `Selectable` for `"@ + diagnostic.target + "`: "@ + error_text(
        diagnostic.error,
    )
}

impl Diagnostic {
    /// The message to show to the author of the type.
    pub fn message(&self) -> (text: String)
        ensures
            text@ == diagnostic_text(self.deep_view()),
    {
        let error = self.error.describe();
        let mut text = String::from_str("cannot derive `Selectable` for `");
        text.append(self.target.as_str());
        text.append("`: ");
        text.append(error.as_str());
        text
    }
}

/// What is derived for the type that `metadata` describes: the code that is
/// generated from its binding, or the diagnostic for the error that left it
/// without one. There is nothing in between: a type gets both of its
/// functions or none.
pub open spec fn derived(metadata: MetadataView) -> Result<CodeView, DiagnosticView> {
    match extracted(metadata) {
        Ok(binding) => Ok(generated(binding, metadata.name, metadata.generics)),
        Err(error) => Err(DiagnosticView { target: metadata.name, error }),
    }
}

/// Provides `select()`, and `fields()` with it in the current dialect, for
/// the type that `input` describes.
pub fn derive_selectable(input: &TypeDefinitionMetadata) -> (result: Result<
    GeneratedCode,
    Diagnostic,
>)
    ensures
        match result {
            Ok(code) => derived(input.deep_view()) == Ok::<CodeView, DiagnosticView>(
                code.deep_view(),
            ),
            Err(diagnostic) => derived(input.deep_view()) == Err::<CodeView, DiagnosticView>(
                diagnostic.deep_view(),
            ),
        },
{
    match extract(input) {
        Ok(spec) => Ok(generate(&spec, &input.name, &input.generics)),
        Err(error) => Err(Diagnostic { target: input.name.clone(), error }),
    }
}

} // verus!
