//! Generation of `Display`, `Error` and `From` impls for annotated error
//! enums, from a plain-value model of the enum's declaration.
//!
//! A case is annotated `error("message with {} slots")`, `error(from)`, or
//! both; [`derive_errors`] reads a [`Declaration`] into a [`Collection`]
//! and emits the impls as Rust source text.

pub mod collection;
pub mod error;
pub mod generics;
pub mod template;
pub mod text;
pub mod variant;

pub use collection::{derive_errors, Collection, CollectionModel, DeclBody, Declaration};
pub use error::{DeriveError, ErrorKind, ErrorModel};
pub use generics::{GenericParam, Generics, GenericsModel};
pub use template::{fill_template, template_has_slots};
pub use text::{decimal, escape_literal, join_strings};
pub use variant::{AttrArg, Attribute, CaseDecl, FieldShape, FieldsModel, Variant, VariantModel};
