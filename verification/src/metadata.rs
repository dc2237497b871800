//! What is known of an annotated type definition, and the binding that is
//! extracted from it.

use vstd::prelude::*;
use crate::dialect::Dialect;
use crate::error::ExtractionError;
use crate::ident::Ident;
use crate::token::{Token, TokenView};

verus! {

/// The generic parameters of a type, in the three forms in which an `impl`
/// block repeats them. Each is source text and is copied as it stands; an
/// empty text stands for none.
#[derive(Debug, PartialEq, Eq)]
pub struct Generics {
    /// The parameters with their bounds, as they follow `impl`: `<T: Clone>`.
    pub impl_generics: String,
    /// The parameters by name, as they follow the type: `<T>`.
    pub type_generics: String,
    /// The `where` clause, with the word `where`.
    pub where_clause: String,
}

/// What a [`Generics`] stands for in contracts.
pub struct GenericsView {
    pub impl_generics: Seq<char>,
    pub type_generics: Seq<char>,
    pub where_clause: Seq<char>,
}

impl DeepView for Generics {
    type V = GenericsView;

    open spec fn deep_view(&self) -> GenericsView {
        GenericsView {
            impl_generics: self.impl_generics@,
            type_generics: self.type_generics@,
            where_clause: self.where_clause@,
        }
    }
}

impl Clone for Generics {
    fn clone(&self) -> (copy: Self)
        ensures
            copy.deep_view() == self.deep_view(),
    {
        Generics {
            impl_generics: self.impl_generics.clone(),
            type_generics: self.type_generics.clone(),
            where_clause: self.where_clause.clone(),
        }
    }
}

/// One field of the record: its name, or `None` for a field that is known by
/// position only.
#[derive(Debug, PartialEq, Eq)]
pub struct SelectableField {
    pub ident: Option<Ident>,
}

impl DeepView for SelectableField {
    type V = Option<Seq<char>>;

    open spec fn deep_view(&self) -> Option<Seq<char>> {
        match self.ident {
            Some(ident) => Some(ident@),
            None => None,
        }
    }
}

impl SelectableField {
    /// The field's name.
    pub fn name(&self) -> (name: &Ident)
        requires
            self.deep_view() is Some,
        ensures
            self.deep_view() == Some(name@),
    {
        self.ident.as_ref().unwrap()
    }
}

/// An annotated type definition, as far as a binding depends on it.
#[derive(Debug, PartialEq, Eq)]
pub struct TypeDefinitionMetadata {
    /// The name of the type.
    pub name: Ident,
    /// Its generic parameters.
    pub generics: Generics,
    /// Its fields, in declared order. A type that is no record has none.
    pub fields: Vec<SelectableField>,
    /// Its annotations, in written order, each as its tokens from `#` to `]`.
    pub annotations: Vec<Vec<Token>>,
}

/// What a [`TypeDefinitionMetadata`] stands for in contracts.
pub struct MetadataView {
    pub name: Seq<char>,
    pub generics: GenericsView,
    pub fields: Seq<Option<Seq<char>>>,
    pub annotations: Seq<Seq<TokenView>>,
}

impl DeepView for TypeDefinitionMetadata {
    type V = MetadataView;

    open spec fn deep_view(&self) -> MetadataView {
        MetadataView {
            name: self.name@,
            generics: self.generics.deep_view(),
            fields: self.fields.deep_view(),
            annotations: self.annotations.deep_view(),
        }
    }
}

/// A record is supported if it has at least one field and every field has a
/// name.
pub open spec fn named_record(fields: Seq<Option<Seq<char>>>) -> bool {
    &&& fields.len() > 0
    &&& forall|i: int| 0 <= i < fields.len() ==> fields[i] is Some
}

/// The names of the fields, in declared order.
pub open spec fn names_of(fields: Seq<Option<Seq<char>>>) -> Seq<Seq<char>> {
    Seq::new(fields.len(), |i: int| fields[i]->0)
}

impl TypeDefinitionMetadata {
    /// The names of the record's fields, in declared order, or
    /// `UnsupportedShape` where a field has no name or there is no field.
    pub fn field_names(&self) -> (names: Result<Vec<Ident>, ExtractionError>)
        ensures
            match names {
                Ok(names) => named_record(self.deep_view().fields) && names.deep_view()
                    == names_of(self.deep_view().fields) && forall|i: int|
                    0 <= i < names.len() ==> (#[trigger] names.deep_view()[i]).len() > 0,
                Err(error) => !named_record(self.deep_view().fields) && error
                    == ExtractionError::UnsupportedShape,
            },
    {
        let ghost fields = self.fields.deep_view();
        if self.fields.len() == 0 {
            return Err(ExtractionError::UnsupportedShape);
        }
        let mut names: Vec<Ident> = Vec::new();
        let mut i: usize = 0;
        while i < self.fields.len()
            invariant
                i <= self.fields.len(),
                fields == self.fields.deep_view(),
                fields == self.deep_view().fields,
                forall|j: int| 0 <= j < i ==> fields[j] is Some,
                names.deep_view() == names_of(fields.take(i as int)),
                forall|j: int| 0 <= j < names.len() ==> (#[trigger] names.deep_view()[j]).len() > 0,
            decreases self.fields.len() - i,
        {
            let field = &self.fields[i];
            assert(fields[i as int] == field.deep_view());
            if field.ident.is_none() {
                return Err(ExtractionError::UnsupportedShape);
            }
            let name = field.name();
            let ghost before = names.deep_view();
            names.push(name.clone());
            assert(names.deep_view() =~= before.push(name@));
            assert(before.push(name@) =~= names_of(fields.take(i + 1)));
            i += 1;
        }
        assert(fields.take(i as int) =~= fields);
        Ok(names)
    }
}

/// The binding of a record type to its table.
#[derive(Debug, PartialEq, Eq)]
pub struct BindingSpec {
    /// The table.
    pub table: Ident,
    /// The columns, one for each field of the record, in declared order and
    /// under the field's own name.
    pub columns: Vec<Ident>,
    /// The dialect of the annotation that named the table.
    pub dialect: Dialect,
}

/// What a [`BindingSpec`] stands for in contracts.
pub struct BindingView {
    pub table: Seq<char>,
    pub columns: Seq<Seq<char>>,
    pub dialect: Dialect,
}

/// A binding is well formed if it has a column, and neither its table nor
/// any of its columns has an empty name.
pub open spec fn well_formed(binding: BindingView) -> bool {
    &&& binding.table.len() > 0
    &&& binding.columns.len() > 0
    &&& forall|i: int| 0 <= i < binding.columns.len() ==> (#[trigger] binding.columns[i]).len() > 0
}

impl DeepView for BindingSpec {
    type V = BindingView;

    open spec fn deep_view(&self) -> BindingView {
        BindingView {
            table: self.table@,
            columns: self.columns.deep_view(),
            dialect: self.dialect,
        }
    }
}

} // verus!
