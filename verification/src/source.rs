//! The generated code as source text.

use vstd::prelude::*;
use vstd::string::*;
use crate::generate::{CodeView, ColumnRef, ColumnRefView, GeneratedCode, Selection, SelectionView};
use crate::ident::Ident;
use crate::metadata::{Generics, GenericsView};

verus! {

/// The path under which a column is found: `crate::schema::<table>::dsl::<column>`.
pub open spec fn column_path(column: ColumnRefView) -> Seq<char> {
    "crate::schema::"@ + column.table + "::dsl::"@ + column.column
}

/// The path under which a table is found: `crate::schema::<table>::dsl::<table>`.
pub open spec fn table_path(table: Seq<char>) -> Seq<char> {
    "crate::schema::"@ + table + "::dsl::"@ + table
}

/// The paths of `columns`, in order, with `, ` between each two.
pub open spec fn column_list(columns: Seq<ColumnRefView>) -> Seq<char>
    decreases columns.len(),
{
    if columns.len() == 0 {
        Seq::empty()
    } else if columns.len() == 1 {
        column_path(columns[0])
    } else {
        column_list(columns.drop_last()) + ", "@ + column_path(columns.last())
    }
}

/// The tuple of `columns`: their paths between parentheses. A single column
/// takes a comma before the closing parenthesis, without which the language
/// reads no tuple of one but the column itself; so the tuple has as many
/// members as there are columns, whatever their number.
pub open spec fn tuple_text(columns: Seq<ColumnRefView>) -> Seq<char> {
    if columns.len() == 1 {
        "("@ + column_list(columns) + ",)"@
    } else {
        "("@ + column_list(columns) + ")"@
    }
}

/// The line that opens the `impl` block. The three texts of the generic
/// parameters stand where the language wants them; a `where` clause that is
/// empty leaves no gap.
pub open spec fn header_text(target: Seq<char>, generics: GenericsView) -> Seq<char> {
    let head = "#[automatically_derived]\nimpl"@ + generics.impl_generics + " "@ + target
        + generics.type_generics;
    if generics.where_clause.len() > 0 {
        head + " "@ + generics.where_clause + " {\n"@
    } else {
        head + " {\n"@
    }
}

/// The function `fields()`: it returns the tuple of `columns`.
pub open spec fn accessor_text(columns: Seq<ColumnRefView>) -> Seq<char> {
    "    /// Return a tuple of the table's fields.\n    pub fn fields() -> "@ + tuple_text(columns)
        + " {\n        "@ + tuple_text(columns) + "\n    }\n\n"@
}

/// What `select()` hands to the query builder: a call of `fields()` where
/// the selection reuses the accessor, the tuple of its columns where not.
pub open spec fn selected_text(selection: SelectionView) -> Seq<char> {
    if selection.reuses_accessor {
        "Self::fields()"@
    } else {
        tuple_text(selection.columns)
    }
}

/// The function `select()`.
pub open spec fn selection_text(selection: SelectionView) -> Seq<char> {
    "    /// Construct a query object to retrieve objects from the corresponding\n    /// database table.\n    pub fn select() -> diesel::dsl::Select<"@
        + table_path(selection.table) + ", "@ + tuple_text(selection.columns) + "> {\n        "@
        + table_path(selection.table) + ".select("@ + selected_text(selection) + ")\n    }\n"@
}

/// The whole `impl` block.
pub open spec fn source_text(code: CodeView) -> Seq<char> {
    let head = header_text(code.target, code.generics);
    let functions = match code.accessor {
        Some(columns) => head + accessor_text(columns),
        None => head,
    };
    functions + selection_text(code.selection) + "}\n"@
}

/// The tuple of a single column ends in `,)`: it is a tuple of one.
pub proof fn lemma_tuple_of_one(column: ColumnRefView)
    ensures
        tuple_text(seq![column]) == "("@ + column_path(column) + ",)"@,
{
}

impl ColumnRef {
    /// The path under which the column is found.
    pub fn path(&self) -> (path: String)
        ensures
            path@ == column_path(self.deep_view()),
    {
        let mut path = String::from_str("crate::schema::");
        path.append(self.table.as_str());
        path.append("::dsl::");
        path.append(self.column.as_str());
        path
    }
}

/// The path under which `table` is found.
pub fn table_source(table: &Ident) -> (path: String)
    ensures
        path@ == table_path(table@),
{
    let mut path = String::from_str("crate::schema::");
    path.append(table.as_str());
    path.append("::dsl::");
    path.append(table.as_str());
    path
}

/// The tuple of `columns`.
pub fn tuple_source(columns: &Vec<ColumnRef>) -> (tuple: String)
    ensures
        tuple@ == tuple_text(columns.deep_view()),
{
    let ghost all = columns.deep_view();
    let mut list = String::new();
    let mut i: usize = 0;
    while i < columns.len()
        invariant
            i <= columns.len(),
            all == columns.deep_view(),
            list@ == column_list(all.take(i as int)),
        decreases columns.len() - i,
    {
        let ghost before = list@;
        let ghost next = all.take(i + 1);
        assert(next.drop_last() =~= all.take(i as int));
        assert(next.last() == columns[i as int].deep_view());
        if i > 0 {
            list.append(", ");
        }
        let path = columns[i].path();
        list.append(path.as_str());
        assert(i == 0 ==> list@ =~= column_path(next[0]));
        i += 1;
    }
    assert(all.take(i as int) =~= all);
    let mut tuple = String::from_str("(");
    tuple.append(list.as_str());
    if columns.len() == 1 {
        tuple.append(",)");
    } else {
        tuple.append(")");
    }
    tuple
}

impl Generics {
    /// The line that opens the `impl` block for the type `target`.
    pub fn header(&self, target: &Ident) -> (header: String)
        ensures
            header@ == header_text(target@, self.deep_view()),
    {
        let mut header = String::from_str("#[automatically_derived]\nimpl");
        header.append(self.impl_generics.as_str());
        header.append(" ");
        header.append(target.as_str());
        header.append(self.type_generics.as_str());
        if !self.where_clause.as_str().is_empty() {
            header.append(" ");
            header.append(self.where_clause.as_str());
        }
        header.append(" {\n");
        header
    }
}

/// The function `fields()` for the tuple of `columns`.
pub fn accessor_source(columns: &Vec<ColumnRef>) -> (source: String)
    ensures
        source@ == accessor_text(columns.deep_view()),
{
    let tuple = tuple_source(columns);
    let mut source = String::from_str(
        "    /// Return a tuple of the table's fields.\n    pub fn fields() -> ",
    );
    source.append(tuple.as_str());
    source.append(" {\n        ");
    source.append(tuple.as_str());
    source.append("\n    }\n\n");
    source
}

impl Selection {
    /// The function `select()`.
    pub fn to_source(&self) -> (source: String)
        ensures
            source@ == selection_text(self.deep_view()),
    {
        let table = table_source(&self.table);
        let tuple = tuple_source(&self.columns);
        let mut source = String::from_str(
            "    /// Construct a query object to retrieve objects from the corresponding\n    /// database table.\n    pub fn select() -> diesel::dsl::Select<",
        );
        source.append(table.as_str());
        source.append(", ");
        source.append(tuple.as_str());
        source.append("> {\n        ");
        source.append(table.as_str());
        source.append(".select(");
        if self.reuses_accessor {
            source.append("Self::fields()");
        } else {
            source.append(tuple.as_str());
        }
        source.append(")\n    }\n");
        source
    }
}

impl GeneratedCode {
    /// The generated `impl` block as source text. Equal code gives equal
    /// text, character for character.
    pub fn to_source(&self) -> (source: String)
        ensures
            source@ == source_text(self.deep_view()),
    {
        let mut source = self.generics.header(&self.target);
        match &self.accessor {
            Some(columns) => {
                let accessor = accessor_source(columns);
                source.append(accessor.as_str());
            },
            None => {},
        }
        let selection = self.selection.to_source();
        source.append(selection.as_str());
        source.append("}\n");
        source
    }
}

} // verus!
