//! What holds of extraction and generation taken together.

use vstd::prelude::*;
use crate::arguments::{argument_list, arguments, table_name_among, table_name_of, TABLE_NAME_KEY};
use crate::arguments::{is_argument, lemma_rejoined_arguments_are_cut_again, rejoined};
use crate::derive::{derived, DiagnosticView};
use crate::dialect::{binding_dialect, legacy_table, Dialect, CURRENT_DESIGNATOR, LEGACY_DESIGNATOR};
use crate::error::{ExtractionError, MalformedReason};
use crate::extract::{extracted, is_binding_at, lemma_binding_annotation_is};
use crate::generate::{columns_of, CodeView, ColumnRefView};
use crate::metadata::{named_record, names_of, BindingView, MetadataView};
use crate::source::{selected_text, source_text, tuple_text};
use crate::token::{balanced, delimiters_after, Delimiter, TokenView};

verus! {

/// The legacy annotation that names `table`: `#[table = <table>]`.
pub open spec fn legacy_annotation(table: Seq<char>) -> Seq<TokenView> {
    seq![
        TokenView::Punct('#'),
        TokenView::Open(Delimiter::Bracket),
        TokenView::Ident(LEGACY_DESIGNATOR@),
        TokenView::Punct('='),
        TokenView::Ident(table),
        TokenView::Close(Delimiter::Bracket),
    ]
}

/// The annotation of the current dialect around the argument list
/// `content`: `#[diesel(<content>)]`.
pub open spec fn current_annotation(content: Seq<TokenView>) -> Seq<TokenView> {
    seq![
        TokenView::Punct('#'),
        TokenView::Open(Delimiter::Bracket),
        TokenView::Ident(CURRENT_DESIGNATOR@),
        TokenView::Open(Delimiter::Parenthesis),
    ] + content + seq![
        TokenView::Close(Delimiter::Parenthesis),
        TokenView::Close(Delimiter::Bracket),
    ]
}

/// The argument `table_name = <table>`.
pub open spec fn table_name_argument(table: Seq<char>) -> Seq<TokenView> {
    seq![TokenView::Ident(TABLE_NAME_KEY@), TokenView::Punct('='), TokenView::Ident(table)]
}

/// The two designators differ, so no annotation belongs to both dialects.
pub proof fn lemma_designators_differ()
    ensures
        LEGACY_DESIGNATOR@ != CURRENT_DESIGNATOR@,
{
    reveal_strlit("table");
    reveal_strlit("diesel");
    assert(LEGACY_DESIGNATOR@.len() == 5);
    assert(CURRENT_DESIGNATOR@.len() == 6);
}

/// A legacy annotation is read as what it was written as.
pub proof fn lemma_legacy_annotation_reads(table: Seq<char>)
    ensures
        binding_dialect(legacy_annotation(table)) == Some(Dialect::Legacy),
        legacy_table(legacy_annotation(table)) == Ok::<Seq<char>, MalformedReason>(table),
{
}

/// An annotation of the current dialect whose argument list is balanced is
/// read as what it was written as: its arguments are those of the list.
pub proof fn lemma_current_annotation_reads(content: Seq<TokenView>)
    requires
        balanced(content),
    ensures
        binding_dialect(current_annotation(content)) == Some(Dialect::Current),
        argument_list(current_annotation(content)) == Ok::<Seq<Seq<TokenView>>, MalformedReason>(
            arguments(content),
        ),
{
    lemma_designators_differ();
    let tokens = current_annotation(content);
    assert(tokens.subrange(4, tokens.len() - 2) =~= content);
}

/// Where an argument names a table and none before it does, that table is
/// the one that is found.
pub proof fn lemma_first_table_name_wins(pieces: Seq<Seq<TokenView>>, k: int, table: Seq<char>)
    requires
        0 <= k < pieces.len(),
        table_name_of(pieces[k]) == Some(table),
        forall|j: int| 0 <= j < k ==> table_name_of(pieces[j]) is None,
    ensures
        table_name_among(pieces) == Some(table),
    decreases k,
{
    if k > 0 {
        let rest = pieces.skip(1);
        assert(rest[k - 1] == pieces[k]);
        assert forall|j: int| 0 <= j < k - 1 implies table_name_of(rest[j]) is None by {
            assert(rest[j] == pieces[j + 1]);
        }
        lemma_first_table_name_wins(rest, k - 1, table);
    }
}

/// A table is found if and only if some argument names one.
pub proof fn lemma_table_name_found_iff_present(pieces: Seq<Seq<TokenView>>)
    ensures
        table_name_among(pieces) is Some <==> exists|k: int|
            0 <= k < pieces.len() && table_name_of(#[trigger] pieces[k]) is Some,
    decreases pieces.len(),
{
    if pieces.len() > 0 {
        let rest = pieces.skip(1);
        lemma_table_name_found_iff_present(rest);
        if table_name_of(pieces[0]) is Some {
        } else if table_name_among(rest) is Some {
            let k = choose|k: int| 0 <= k < rest.len() && table_name_of(#[trigger] rest[k]) is Some;
            assert(pieces[k + 1] == rest[k]);
        } else {
            assert forall|k: int| 0 <= k < pieces.len() implies !(table_name_of(
                #[trigger] pieces[k],
            ) is Some) by {
                if k > 0 {
                    assert(rest[k - 1] == pieces[k]);
                }
            }
        }
    }
}

/// What is extracted has one column for each field of the record, in
/// declared order and under the field's own name, and a record that yields a
/// binding has a field.
pub proof fn lemma_columns_mirror_fields(metadata: MetadataView)
    requires
        extracted(metadata) is Ok,
    ensures
        metadata.fields.len() > 0,
        extracted(metadata)->Ok_0.columns.len() == metadata.fields.len(),
        forall|k: int|
            0 <= k < metadata.fields.len() ==> metadata.fields[k] == Some(
                #[trigger] extracted(metadata)->Ok_0.columns[k],
            ),
{
}

/// In the legacy dialect `select()` selects the columns named like the
/// record's fields, each from the annotation's table, in declared order, and
/// names them itself, for no `fields()` is generated.
///
/// The annotation that names `table` stands at `i`, before any other binding
/// annotation; the record has a supported shape.
pub proof fn lemma_legacy_selects_fields_in_order(
    metadata: MetadataView,
    i: int,
    table: Seq<char>,
)
    requires
        named_record(metadata.fields),
        is_binding_at(metadata.annotations, i),
        metadata.annotations[i] == legacy_annotation(table),
    ensures
        derived(metadata) is Ok,
        derived(metadata)->Ok_0.accessor is None,
        derived(metadata)->Ok_0.selection.table == table,
        derived(metadata)->Ok_0.selection.columns.len() == metadata.fields.len(),
        forall|k: int|
            0 <= k < metadata.fields.len() ==> #[trigger] derived(
                metadata,
            )->Ok_0.selection.columns[k] == (ColumnRefView {
                table,
                column: metadata.fields[k]->0,
            }),
        selected_text(derived(metadata)->Ok_0.selection) == tuple_text(
            columns_of(table, names_of(metadata.fields)),
        ),
{
    lemma_binding_annotation_is(metadata.annotations, i);
    lemma_legacy_annotation_reads(table);
}

/// In the current dialect extraction succeeds with the table `table`
/// wherever an argument `table_name = table` stands in the list, whatever
/// the other arguments are, as long as no argument before it names a table
/// too.
///
/// The annotation stands at `i`, before any other binding annotation; its
/// argument list `content` is balanced and its `k`-th argument is the one in
/// question; the record has a supported shape.
pub proof fn lemma_table_name_is_found_anywhere(
    metadata: MetadataView,
    i: int,
    content: Seq<TokenView>,
    k: int,
    table: Seq<char>,
)
    requires
        named_record(metadata.fields),
        is_binding_at(metadata.annotations, i),
        metadata.annotations[i] == current_annotation(content),
        balanced(content),
        0 <= k < arguments(content).len(),
        arguments(content)[k] == table_name_argument(table),
        forall|j: int| 0 <= j < k ==> table_name_of(#[trigger] arguments(content)[j]) is None,
    ensures
        extracted(metadata) == Ok::<BindingView, ExtractionError>(
            BindingView {
                table,
                columns: names_of(metadata.fields),
                dialect: Dialect::Current,
            },
        ),
{
    lemma_binding_annotation_is(metadata.annotations, i);
    lemma_current_annotation_reads(content);
    lemma_first_table_name_wins(arguments(content), k, table);
}

/// `table_name = <table>` can stand as an argument of a list.
pub proof fn lemma_table_name_argument_is_argument(table: Seq<char>)
    ensures
        is_argument(table_name_argument(table)),
        table_name_of(table_name_argument(table)) == Some(table),
{
    let piece = table_name_argument(table);
    reveal_with_fuel(delimiters_after, 4);
    assert(piece.drop_last().drop_last().drop_last() =~= Seq::<TokenView>::empty());
    assert(balanced(piece));
}

/// The same of the list as it is written: in `#[diesel(a, b, ...)]`, with
/// the arguments `pieces` written out and a comma between each two,
/// extraction succeeds with the table `table` where the `k`-th argument is
/// `table_name = table` and no argument before it names a table, whatever
/// the other arguments are and wherever among them it stands.
///
/// The annotation stands at `i`, before any other binding annotation; the
/// record has a supported shape.
pub proof fn lemma_table_name_is_found_in_the_written_list(
    metadata: MetadataView,
    i: int,
    pieces: Seq<Seq<TokenView>>,
    k: int,
    table: Seq<char>,
)
    requires
        named_record(metadata.fields),
        is_binding_at(metadata.annotations, i),
        metadata.annotations[i] == current_annotation(rejoined(pieces)),
        forall|j: int| 0 <= j < pieces.len() ==> is_argument(#[trigger] pieces[j]),
        0 <= k < pieces.len(),
        pieces[k] == table_name_argument(table),
        forall|j: int| 0 <= j < k ==> table_name_of(#[trigger] pieces[j]) is None,
    ensures
        extracted(metadata) == Ok::<BindingView, ExtractionError>(
            BindingView {
                table,
                columns: names_of(metadata.fields),
                dialect: Dialect::Current,
            },
        ),
{
    lemma_rejoined_arguments_are_cut_again(pieces);
    lemma_table_name_is_found_anywhere(metadata, i, rejoined(pieces), k, table);
}

/// In the current dialect extraction succeeds as soon as any argument of the
/// list reads `table_name = <identifier>`.
pub proof fn lemma_table_name_anywhere_suffices(
    metadata: MetadataView,
    i: int,
    content: Seq<TokenView>,
    k: int,
)
    requires
        named_record(metadata.fields),
        is_binding_at(metadata.annotations, i),
        metadata.annotations[i] == current_annotation(content),
        balanced(content),
        0 <= k < arguments(content).len(),
        table_name_of(arguments(content)[k]) is Some,
    ensures
        extracted(metadata) is Ok,
        extracted(metadata)->Ok_0.dialect == Dialect::Current,
{
    lemma_binding_annotation_is(metadata.annotations, i);
    lemma_current_annotation_reads(content);
    lemma_table_name_found_iff_present(arguments(content));
}

/// In the current dialect an argument list that parses but names no table is
/// reported as `MissingTableName`, not as malformed.
///
/// The annotation stands at `i`, before any other binding annotation; its
/// argument list `content` is balanced; the record has a supported shape.
pub proof fn lemma_missing_table_name_is_told_apart(
    metadata: MetadataView,
    i: int,
    content: Seq<TokenView>,
)
    requires
        named_record(metadata.fields),
        is_binding_at(metadata.annotations, i),
        metadata.annotations[i] == current_annotation(content),
        balanced(content),
        forall|k: int|
            0 <= k < arguments(content).len() ==> table_name_of(#[trigger] arguments(content)[k])
                is None,
    ensures
        extracted(metadata) == Err::<BindingView, ExtractionError>(
            ExtractionError::MissingTableName,
        ),
        derived(metadata) == Err::<CodeView, DiagnosticView>(
            DiagnosticView { target: metadata.name, error: ExtractionError::MissingTableName },
        ),
{
    lemma_binding_annotation_is(metadata.annotations, i);
    lemma_current_annotation_reads(content);
    lemma_table_name_found_iff_present(arguments(content));
}

/// The same of the list as it is written: `#[diesel(a, b, ...)]` with the
/// arguments `pieces`, none of which names a table, is reported as
/// `MissingTableName`.
pub proof fn lemma_missing_table_name_in_the_written_list(
    metadata: MetadataView,
    i: int,
    pieces: Seq<Seq<TokenView>>,
)
    requires
        named_record(metadata.fields),
        is_binding_at(metadata.annotations, i),
        metadata.annotations[i] == current_annotation(rejoined(pieces)),
        forall|j: int| 0 <= j < pieces.len() ==> is_argument(#[trigger] pieces[j]),
        forall|j: int| 0 <= j < pieces.len() ==> table_name_of(#[trigger] pieces[j]) is None,
    ensures
        extracted(metadata) == Err::<BindingView, ExtractionError>(
            ExtractionError::MissingTableName,
        ),
{
    lemma_rejoined_arguments_are_cut_again(pieces);
    lemma_missing_table_name_is_told_apart(metadata, i, rejoined(pieces));
}

/// In the current dialect the tuple of `fields()` holds one column for each
/// field of the record, in declared order, and `select()` selects that very
/// tuple: it has the same columns and obtains them by calling `fields()`.
pub proof fn lemma_accessor_follows_fields_and_selection_follows_accessor(metadata: MetadataView)
    requires
        extracted(metadata) is Ok,
        extracted(metadata)->Ok_0.dialect == Dialect::Current,
    ensures
        derived(metadata) is Ok,
        derived(metadata)->Ok_0.accessor is Some,
        derived(metadata)->Ok_0.accessor->0.len() == metadata.fields.len(),
        forall|k: int|
            0 <= k < metadata.fields.len() ==> (#[trigger] derived(metadata)->Ok_0.accessor->0[k])
                == (ColumnRefView {
                table: extracted(metadata)->Ok_0.table,
                column: metadata.fields[k]->0,
            }),
        derived(metadata)->Ok_0.selection.columns == derived(metadata)->Ok_0.accessor->0,
        derived(metadata)->Ok_0.selection.reuses_accessor,
        selected_text(derived(metadata)->Ok_0.selection) == "Self::fields()"@,
{
}

/// Generation is a function of the metadata: the same metadata gives the
/// same outcome, and where that is code, the same source text.
pub proof fn lemma_generation_repeats(first: MetadataView, second: MetadataView)
    requires
        first.name == second.name,
        first.generics == second.generics,
        first.fields =~= second.fields,
        first.annotations =~~= second.annotations,
    ensures
        derived(first) == derived(second),
        derived(first) is Ok ==> source_text(derived(first)->Ok_0) == source_text(
            derived(second)->Ok_0,
        ),
{
    assert(first == second);
}

/// A record without fields is rejected as `UnsupportedShape`, whatever its
/// annotations are, and so is one with a field that has no name.
pub proof fn lemma_unnamed_or_empty_record_is_rejected(metadata: MetadataView)
    requires
        metadata.fields.len() == 0 || exists|k: int|
            0 <= k < metadata.fields.len() && metadata.fields[k] is None,
    ensures
        extracted(metadata) == Err::<BindingView, ExtractionError>(
            ExtractionError::UnsupportedShape,
        ),
        derived(metadata) == Err::<CodeView, DiagnosticView>(
            DiagnosticView { target: metadata.name, error: ExtractionError::UnsupportedShape },
        ),
{
}

} // verus!
