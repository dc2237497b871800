//! From an annotated type definition to its binding.

use vstd::prelude::*;
use crate::arguments::{argument_list, table_name_among, CommaSeparatedArguments, TableNameParser};
use crate::dialect::{binding_dialect, legacy_table, Dialect, LegacyTableParser};
use crate::error::ExtractionError;
use crate::ident::Ident;
use crate::metadata::{named_record, names_of, well_formed, BindingSpec, BindingView, MetadataView};
use crate::metadata::TypeDefinitionMetadata;
use crate::token::{Token, TokenView};

verus! {

/// The annotation at `i` is the first binding annotation.
pub open spec fn is_binding_at(annotations: Seq<Seq<TokenView>>, i: int) -> bool {
    &&& 0 <= i < annotations.len()
    &&& binding_dialect(annotations[i]) is Some
    &&& forall|j: int| 0 <= j < i ==> binding_dialect(annotations[j]) is None
}

/// The index of the first binding annotation: the one that decides, whatever
/// follows it.
pub open spec fn binding_annotation(annotations: Seq<Seq<TokenView>>) -> Option<int> {
    if exists|i: int| is_binding_at(annotations, i) {
        Some(choose|i: int| is_binding_at(annotations, i))
    } else {
        None
    }
}

/// The table that the annotation `tokens` names when read in `dialect`, or
/// why it names none. `annotation` is the index to report.
pub open spec fn table_in(tokens: Seq<TokenView>, dialect: Dialect, annotation: int) -> Result<
    Seq<char>,
    ExtractionError,
> {
    match dialect {
        Dialect::Legacy => match legacy_table(tokens) {
            Ok(table) => Ok(table),
            Err(reason) => Err(
                ExtractionError::MalformedAnnotation { annotation: annotation as usize, reason },
            ),
        },
        Dialect::Current => match argument_list(tokens) {
            Ok(pieces) => match table_name_among(pieces) {
                Some(table) => Ok(table),
                None => Err(ExtractionError::MissingTableName),
            },
            Err(reason) => Err(
                ExtractionError::MalformedAnnotation { annotation: annotation as usize, reason },
            ),
        },
    }
}

/// The binding of the type that `metadata` describes, or why it has none.
///
/// The shape of the record is judged first, then the first binding
/// annotation is looked for, then that annotation is read in its dialect.
pub open spec fn extracted(metadata: MetadataView) -> Result<BindingView, ExtractionError> {
    if !named_record(metadata.fields) {
        Err(ExtractionError::UnsupportedShape)
    } else {
        match binding_annotation(metadata.annotations) {
            None => Err(ExtractionError::MissingAnnotation),
            Some(i) => {
                let dialect = binding_dialect(metadata.annotations[i])->0;
                match table_in(metadata.annotations[i], dialect, i) {
                    Ok(table) => Ok(
                        BindingView { table, columns: names_of(metadata.fields), dialect },
                    ),
                    Err(error) => Err(error),
                }
            },
        }
    }
}

/// Where a binding annotation stands at `i` and none before it, `i` is the
/// index that decides.
pub proof fn lemma_binding_annotation_is(annotations: Seq<Seq<TokenView>>, i: int)
    requires
        is_binding_at(annotations, i),
    ensures
        binding_annotation(annotations) == Some(i),
{
    let k = choose|k: int| is_binding_at(annotations, k);
    assert(k == i);
}

/// Finds the first binding annotation and its dialect.
pub fn find_binding(annotations: &Vec<Vec<Token>>) -> (found: Option<(usize, Dialect)>)
    ensures
        match found {
            Some((i, dialect)) => binding_annotation(annotations.deep_view()) == Some(i as int)
                && binding_dialect(annotations.deep_view()[i as int]) == Some(dialect),
            None => binding_annotation(annotations.deep_view()) is None,
        },
{
    let ghost all = annotations.deep_view();
    let mut i: usize = 0;
    while i < annotations.len()
        invariant
            i <= annotations.len(),
            all == annotations.deep_view(),
            forall|j: int| 0 <= j < i ==> binding_dialect(all[j]) is None,
        decreases annotations.len() - i,
    {
        let tokens = annotations[i].as_slice();
        assert(tokens.deep_view() =~= all[i as int]);
        match Dialect::of(tokens) {
            Some(dialect) => {
                proof {
                    lemma_binding_annotation_is(all, i as int);
                }
                return Some((i, dialect));
            },
            None => {},
        }
        i += 1;
    }
    None
}

/// Reads the table out of a binding annotation of the given dialect.
/// `annotation` is the index to report in an error.
pub fn read_table(tokens: &[Token], dialect: Dialect, annotation: usize) -> (table: Result<
    Ident,
    ExtractionError,
>)
    ensures
        match table {
            Ok(table) => table_in(tokens.deep_view(), dialect, annotation as int) == Ok::<
                Seq<char>,
                ExtractionError,
            >(table@) && table@.len() > 0,
            Err(error) => table_in(tokens.deep_view(), dialect, annotation as int) == Err::<
                Seq<char>,
                ExtractionError,
            >(error),
        },
{
    match dialect {
        Dialect::Legacy => match LegacyTableParser::parse(tokens) {
            Ok(found) => Ok(found.table),
            Err(reason) => Err(ExtractionError::MalformedAnnotation { annotation, reason }),
        },
        Dialect::Current => match CommaSeparatedArguments::parse(tokens) {
            Ok(arguments) => match TableNameParser::find(&arguments) {
                Some(found) => Ok(found.table_name),
                None => Err(ExtractionError::MissingTableName),
            },
            Err(reason) => Err(ExtractionError::MalformedAnnotation { annotation, reason }),
        },
    }
}

/// Extracts the binding of an annotated type definition: the table that its
/// first binding annotation names, and one column for each of its fields, in
/// declared order and under the field's own name. What is extracted is well
/// formed; what is not is reported and nothing of it is handed out.
pub fn extract(metadata: &TypeDefinitionMetadata) -> (result: Result<BindingSpec, ExtractionError>)
    ensures
        match result {
            Ok(spec) => extracted(metadata.deep_view()) == Ok::<BindingView, ExtractionError>(
                spec.deep_view(),
            ) && well_formed(spec.deep_view()),
            Err(error) => extracted(metadata.deep_view()) == Err::<BindingView, ExtractionError>(
                error,
            ),
        },
{
    let columns = match metadata.field_names() {
        Ok(columns) => columns,
        Err(error) => {
            return Err(error);
        },
    };
    let (i, dialect) = match find_binding(&metadata.annotations) {
        Some(found) => found,
        None => {
            return Err(ExtractionError::MissingAnnotation);
        },
    };
    let tokens = metadata.annotations[i].as_slice();
    assert(tokens.deep_view() =~= metadata.deep_view().annotations[i as int]);
    match read_table(tokens, dialect, i) {
        Ok(table) => Ok(BindingSpec { table, columns, dialect }),
        Err(error) => Err(error),
    }
}

} // verus!
