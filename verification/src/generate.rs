//! From a binding to the two functions that are generated for the type.

use vstd::prelude::*;
use crate::dialect::Dialect;
use crate::ident::Ident;
use crate::metadata::{BindingSpec, BindingView, Generics, GenericsView};

verus! {

/// A reference to one column of one table.
#[derive(Debug, PartialEq, Eq)]
pub struct ColumnRef {
    pub table: Ident,
    pub column: Ident,
}

/// What a [`ColumnRef`] stands for in contracts.
pub struct ColumnRefView {
    pub table: Seq<char>,
    pub column: Seq<char>,
}

impl DeepView for ColumnRef {
    type V = ColumnRefView;

    open spec fn deep_view(&self) -> ColumnRefView {
        ColumnRefView { table: self.table@, column: self.column@ }
    }
}

/// The function `select()`: a query on `table` for `columns`, in that order.
#[derive(Debug, PartialEq, Eq)]
pub struct Selection {
    /// The table that is queried.
    pub table: Ident,
    /// The columns that are selected, in this order.
    pub columns: Vec<ColumnRef>,
    /// Whether the function takes its columns from a call of `fields()`
    /// instead of naming them once more.
    pub reuses_accessor: bool,
}

/// What a [`Selection`] stands for in contracts.
pub struct SelectionView {
    pub table: Seq<char>,
    pub columns: Seq<ColumnRefView>,
    pub reuses_accessor: bool,
}

impl DeepView for Selection {
    type V = SelectionView;

    open spec fn deep_view(&self) -> SelectionView {
        SelectionView {
            table: self.table@,
            columns: self.columns.deep_view(),
            reuses_accessor: self.reuses_accessor,
        }
    }
}

/// The code that is generated for one type: an `impl` block for the type
/// with `select()` in it and, in the current dialect, `fields()`.
#[derive(Debug, PartialEq, Eq)]
pub struct GeneratedCode {
    /// The type that the functions are attached to.
    pub target: Ident,
    /// Its generic parameters, unchanged.
    pub generics: Generics,
    /// The function `fields()`, by the columns of the tuple that it returns;
    /// `None` where it is not generated.
    pub accessor: Option<Vec<ColumnRef>>,
    /// The function `select()`.
    pub selection: Selection,
}

/// What a [`GeneratedCode`] stands for in contracts.
pub struct CodeView {
    pub target: Seq<char>,
    pub generics: GenericsView,
    pub accessor: Option<Seq<ColumnRefView>>,
    pub selection: SelectionView,
}

impl DeepView for GeneratedCode {
    type V = CodeView;

    open spec fn deep_view(&self) -> CodeView {
        CodeView {
            target: self.target@,
            generics: self.generics.deep_view(),
            accessor: match self.accessor {
                Some(columns) => Some(columns.deep_view()),
                None => None,
            },
            selection: self.selection.deep_view(),
        }
    }
}

/// The columns `columns` of `table`, in the same order.
pub open spec fn columns_of(table: Seq<char>, columns: Seq<Seq<char>>) -> Seq<ColumnRefView> {
    Seq::new(columns.len(), |i: int| ColumnRefView { table, column: columns[i] })
}

/// The code for a binding: `select()` selects the binding's columns from its
/// table; in the current dialect `fields()` returns the same columns and
/// `select()` calls it; in the legacy dialect there is no `fields()`.
pub open spec fn generated(binding: BindingView, target: Seq<char>, generics: GenericsView)
    -> CodeView {
    let columns = columns_of(binding.table, binding.columns);
    let current = binding.dialect == Dialect::Current;
    CodeView {
        target,
        generics,
        accessor: if current {
            Some(columns)
        } else {
            None
        },
        selection: SelectionView { table: binding.table, columns, reuses_accessor: current },
    }
}

/// Scopes each of `columns` to `table`.
pub fn column_refs(table: &Ident, columns: &Vec<Ident>) -> (refs: Vec<ColumnRef>)
    ensures
        refs.deep_view() == columns_of(table@, columns.deep_view()),
{
    let mut refs: Vec<ColumnRef> = Vec::new();
    let mut i: usize = 0;
    while i < columns.len()
        invariant
            i <= columns.len(),
            refs.deep_view() == columns_of(table@, columns.deep_view().take(i as int)),
        decreases columns.len() - i,
    {
        let ghost before = refs.deep_view();
        refs.push(ColumnRef { table: table.clone(), column: columns[i].clone() });
        assert(refs.deep_view() =~= before.push(
            ColumnRefView { table: table@, column: columns[i as int]@ },
        ));
        assert(refs.deep_view() =~= columns_of(table@, columns.deep_view().take(i + 1)));
        i += 1;
    }
    assert(columns.deep_view().take(i as int) =~= columns.deep_view());
    refs
}

/// Generates the code for a binding. Nothing is validated here and nothing
/// can fail: every identifier is put where it belongs, and the generic
/// parameters are carried over as they are.
pub fn generate(spec: &BindingSpec, target: &Ident, generics: &Generics) -> (code:
    GeneratedCode)
    ensures
        code.deep_view() == generated(spec.deep_view(), target@, generics.deep_view()),
{
    let current = match spec.dialect {
        Dialect::Current => true,
        Dialect::Legacy => false,
    };
    let accessor = if current {
        Some(column_refs(&spec.table, &spec.columns))
    } else {
        None
    };
    GeneratedCode {
        target: target.clone(),
        generics: generics.clone(),
        accessor,
        selection: Selection {
            table: spec.table.clone(),
            columns: column_refs(&spec.table, &spec.columns),
            reuses_accessor: current,
        },
    }
}

} // verus!
