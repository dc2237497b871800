//! Column bindings for record types.
//!
//! A record type that names its storage table in an annotation gets two
//! companion functions: `fields()`, the tuple of its columns in declared
//! order, and `select()`, a query over exactly those columns, so that a
//! query addresses the columns by name and cannot drift from the record.
//!
//! This crate holds the two steps that produce them. [`extract`] reads the
//! description of an annotated type, a [`TypeDefinitionMetadata`], and
//! yields its [`BindingSpec`] or an [`ExtractionError`]. [`generate`] turns a
//! binding into [`GeneratedCode`], which [`GeneratedCode::to_source`] writes
//! out. [`derive_selectable`] does both in one go.

pub mod arguments;
pub mod derive;
pub mod dialect;
pub mod error;
pub mod extract;
pub mod generate;
pub mod ident;
pub mod laws;
pub mod metadata;
pub mod source;
pub mod token;

pub use arguments::{AnnotationArgument, CommaSeparatedArguments, TableNameParser};
pub use derive::{derive_selectable, Diagnostic};
pub use dialect::{Dialect, LegacyTableParser};
pub use error::{ExtractionError, MalformedReason};
pub use extract::extract;
pub use generate::{generate, ColumnRef, GeneratedCode, Selection};
pub use ident::Ident;
pub use metadata::{BindingSpec, Generics, SelectableField, TypeDefinitionMetadata};
pub use token::{Delimiter, Token};
