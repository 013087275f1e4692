//! Why generation of an annotated type was refused.

use vstd::prelude::*;

verus! {

/// The kind of a generation error.
#[derive(Clone, Copy, Debug, PartialEq, Eq, Structural)]
pub enum ErrorKind {
    /// The annotated declaration is not an enum.
    NotAnEnum,
    /// A case sets its message or its `from` flag twice, or carries two
    /// `error` annotations.
    AnnotationConflict,
    /// An `error` annotation holds something other than a string literal or
    /// `from`, or is not of the list form `error(...)`.
    AnnotationForm,
    /// `from` on a case without exactly one unnamed field, or a case with
    /// named fields.
    FieldShape,
    /// A case without exactly one unnamed field has no message.
    MissingMessage,
    /// A message is not a well-formed template with one slot per field.
    TemplateMismatch,
    /// Two cases ask for a conversion from the same type.
    AmbiguousConversion,
}

/// A generation error, with the type and the case it concerns (the case
/// name is empty where no case is at fault).
#[derive(Debug)]
pub struct DeriveError {
    pub kind: ErrorKind,
    pub enum_name: String,
    pub variant_name: String,
}

/// The mathematical value of a [`DeriveError`].
pub struct ErrorModel {
    pub kind: ErrorKind,
    pub enum_name: Seq<char>,
    pub variant_name: Seq<char>,
}

impl View for DeriveError {
    type V = ErrorModel;

    open spec fn view(&self) -> ErrorModel {
        ErrorModel { kind: self.kind, enum_name: self.enum_name@, variant_name: self.variant_name@ }
    }
}

/// The error of kind `kind` for case `variant_name` of type `enum_name`.
pub open spec fn error_model(kind: ErrorKind, enum_name: Seq<char>, variant_name: Seq<char>) -> ErrorModel {
    ErrorModel { kind, enum_name, variant_name }
}

/// The sentence that describes an error kind.
pub open spec fn kind_text(kind: ErrorKind) -> Seq<char> {
    match kind {
        ErrorKind::NotAnEnum => "expected an enum type"@,
        ErrorKind::AnnotationConflict => "option or annotation given twice"@,
        ErrorKind::AnnotationForm => "unexpected option in error annotation"@,
        ErrorKind::FieldShape => "`from` needs exactly one unnamed field; named fields are not supported"@,
        ErrorKind::MissingMessage => "no error message set"@,
        ErrorKind::TemplateMismatch => "message needs one `{}` per field"@,
        ErrorKind::AmbiguousConversion => "`from` already used for the same field type"@,
    }
}

/// The diagnostic for an error.
pub open spec fn message_text(e: ErrorModel) -> Seq<char> {
    if e.kind == ErrorKind::NotAnEnum {
        kind_text(e.kind) + ": "@ + e.enum_name
    } else {
        kind_text(e.kind) + ": variant "@ + e.variant_name + " of "@ + e.enum_name
    }
}

fn kind_str(kind: ErrorKind) -> (r: &'static str)
    ensures
        r@ == kind_text(kind),
{
    match kind {
        ErrorKind::NotAnEnum => "expected an enum type",
        ErrorKind::AnnotationConflict => "option or annotation given twice",
        ErrorKind::AnnotationForm => "unexpected option in error annotation",
        ErrorKind::FieldShape => "`from` needs exactly one unnamed field; named fields are not supported",
        ErrorKind::MissingMessage => "no error message set",
        ErrorKind::TemplateMismatch => "message needs one `{}` per field",
        ErrorKind::AmbiguousConversion => "`from` already used for the same field type",
    }
}

impl DeriveError {
    /// Builds the error of kind `kind` for case `variant_name` of `enum_name`.
    pub fn new(kind: ErrorKind, enum_name: &String, variant_name: &String) -> (r: DeriveError)
        ensures
            r@ == error_model(kind, enum_name@, variant_name@),
    {
        DeriveError { kind, enum_name: enum_name.clone(), variant_name: variant_name.clone() }
    }

    /// The diagnostic shown when generation fails.
    pub fn message(&self) -> (r: String)
        ensures
            r@ == message_text(self@),
    {
        let mut r = String::from_str(kind_str(self.kind));
        if self.kind == ErrorKind::NotAnEnum {
            r.append(": ");
            r.append(self.enum_name.as_str());
        } else {
            r.append(": variant ");
            r.append(self.variant_name.as_str());
            r.append(" of ");
            r.append(self.enum_name.as_str());
        }
        r
    }
}

} // verus!
