use error_utils_derive::{
    derive_errors, AttrArg, Attribute, CaseDecl, Collection, DeclBody, Declaration, DeriveError,
    ErrorKind, FieldShape, Generics,
};

fn s(x: &str) -> String {
    x.to_string()
}

fn error_attr(args: Vec<AttrArg>) -> Attribute {
    Attribute { path: s("error"), args: Some(args) }
}

fn msg(m: &str) -> AttrArg {
    AttrArg::Str(s(m))
}

fn from() -> AttrArg {
    AttrArg::Ident(s("from"))
}

fn case(name: &str, fields: FieldShape, attrs: Vec<Attribute>) -> CaseDecl {
    CaseDecl { name: s(name), fields, attrs }
}

fn unnamed(types: &[&str]) -> FieldShape {
    FieldShape::Unnamed(types.iter().map(|t| s(t)).collect())
}

fn decl(cases: Vec<CaseDecl>) -> Declaration {
    Declaration { name: s("E"), generics: Generics::new(vec![], None), body: DeclBody::Enum(cases) }
}

fn accepted(cases: Vec<CaseDecl>) -> Collection {
    match Collection::parse(decl(cases)) {
        Ok(c) => c,
        Err(e) => panic!("{}", e.message()),
    }
}

fn refused(cases: Vec<CaseDecl>) -> DeriveError {
    match Collection::parse(decl(cases)) {
        Ok(_) => panic!("declaration accepted"),
        Err(e) => e,
    }
}

#[test]
fn fixed_text_unit_case() {
    let c = accepted(vec![case("U", FieldShape::Unit, vec![error_attr(vec![msg("fixed text")])])]);
    assert_eq!(c.display(0, &vec![]), "fixed text");
    assert_eq!(
        c.generate(),
        "impl ::std::fmt::Display for E { fn fmt(&self, f: &mut ::std::fmt::Formatter<'_>) -> ::std::fmt::Result { match self { Self::U => f.write_str(\"fixed text\"), } } }\nimpl ::std::error::Error for E {}"
    );
}

#[test]
fn one_slot_template() {
    let c = accepted(vec![case("V", unnamed(&["i32"]), vec![error_attr(vec![msg("val={}")])])]);
    assert_eq!(c.display(0, &vec![3.to_string()]), "val=3");
    assert_eq!(
        c.display_impl(),
        "impl ::std::fmt::Display for E { fn fmt(&self, f: &mut ::std::fmt::Formatter<'_>) -> ::std::fmt::Result { match self { Self::V(e0) => f.write_fmt(::std::format_args!(\"val={}\", e0)), } } }"
    );
}

#[test]
fn from_without_message_delegates() {
    let c = accepted(vec![case("W", unnamed(&["SomeErr"]), vec![error_attr(vec![from()])])]);
    assert_eq!(c.conversion_for(&s("SomeErr")), Some(0));
    assert_eq!(c.conversion_for(&s("OtherErr")), None);
    assert_eq!(
        c.conversion_impls(),
        vec![s("impl ::std::convert::From<SomeErr> for E { fn from(e: SomeErr) -> Self { Self::W(e) } }")]
    );
    assert_eq!(c.display(0, &vec![s("inner text")]), "inner text");
}

#[test]
fn from_with_too_many_slots_is_refused() {
    let e = refused(vec![case("X", unnamed(&["i32"]), vec![error_attr(vec![msg("{} {}"), from()])])]);
    assert_eq!(e.kind, ErrorKind::TemplateMismatch);
    assert_eq!(e.variant_name, "X");
    assert_eq!(e.enum_name, "E");
}

#[test]
fn same_type_converted_twice_is_refused() {
    let e = refused(vec![
        case("A", unnamed(&["std::io::Error"]), vec![error_attr(vec![from()])]),
        case("B", unnamed(&["std::io::Error"]), vec![error_attr(vec![from()])]),
    ]);
    assert_eq!(e.kind, ErrorKind::AmbiguousConversion);
    assert_eq!(e.variant_name, "B");
}

#[test]
fn distinct_conversions_one_impl_each() {
    let c = accepted(vec![
        case("A", unnamed(&["std::io::Error"]), vec![error_attr(vec![from()])]),
        case("N", FieldShape::Unit, vec![error_attr(vec![msg("n")])]),
        case("B", unnamed(&["std::fmt::Error"]), vec![error_attr(vec![msg("fmt: {}"), from()])]),
    ]);
    let froms = c.conversion_impls();
    assert_eq!(froms.len(), 2);
    assert!(froms[0].ends_with("Self::A(e) } }"));
    assert!(froms[1].ends_with("Self::B(e) } }"));
    assert_eq!(c.conversion_for(&s("std::io::Error")), Some(0));
    assert_eq!(c.conversion_for(&s("std::fmt::Error")), Some(2));
}

#[test]
fn unit_without_message_is_refused() {
    let e = refused(vec![case("U", FieldShape::Unit, vec![])]);
    assert_eq!(e.kind, ErrorKind::MissingMessage);
}

#[test]
fn two_fields_without_message_are_refused() {
    let e = refused(vec![case("P", unnamed(&["i32", "i32"]), vec![])]);
    assert_eq!(e.kind, ErrorKind::MissingMessage);
}

#[test]
fn named_fields_are_refused() {
    let e = refused(vec![case("N", FieldShape::Named(vec![s("code")]), vec![])]);
    assert_eq!(e.kind, ErrorKind::FieldShape);
    let e = refused(vec![case("N", FieldShape::Named(vec![s("code")]), vec![error_attr(vec![msg("{}")])])]);
    assert_eq!(e.kind, ErrorKind::FieldShape);
}

#[test]
fn not_an_enum_is_refused() {
    let d = Declaration { name: s("S"), generics: Generics::new(vec![], None), body: DeclBody::Struct };
    let e = derive_errors(d).unwrap_err();
    assert_eq!(e.kind, ErrorKind::NotAnEnum);
    assert_eq!(e.message(), "expected an enum type: S");
}

#[test]
fn repeated_options_are_refused() {
    let e = refused(vec![case("U", FieldShape::Unit, vec![error_attr(vec![msg("a"), msg("b")])])]);
    assert_eq!(e.kind, ErrorKind::AnnotationConflict);
    let e = refused(vec![case("W", unnamed(&["T"]), vec![error_attr(vec![from(), from()])])]);
    assert_eq!(e.kind, ErrorKind::AnnotationConflict);
    let e = refused(vec![case(
        "W",
        unnamed(&["T"]),
        vec![error_attr(vec![msg("{}")]), error_attr(vec![from()])],
    )]);
    assert_eq!(e.kind, ErrorKind::AnnotationConflict);
    assert_eq!(e.message(), "option or annotation given twice: variant W of E");
}

#[test]
fn unknown_options_are_refused() {
    let e = refused(vec![case("W", unnamed(&["T"]), vec![error_attr(vec![AttrArg::Ident(s("into"))])])]);
    assert_eq!(e.kind, ErrorKind::AnnotationForm);
    let e = refused(vec![case("W", unnamed(&["T"]), vec![error_attr(vec![AttrArg::Other(s("x = 1"))])])]);
    assert_eq!(e.kind, ErrorKind::AnnotationForm);
    let e = refused(vec![case("W", unnamed(&["T"]), vec![Attribute { path: s("error"), args: None }])]);
    assert_eq!(e.kind, ErrorKind::AnnotationForm);
}

#[test]
fn other_attributes_are_ignored() {
    let doc = Attribute { path: s("doc"), args: None };
    let c = accepted(vec![case("W", unnamed(&["T"]), vec![doc])]);
    assert_eq!(c.display(0, &vec![s("t")]), "t");
}

#[test]
fn from_needs_one_field() {
    let e = refused(vec![case("U", FieldShape::Unit, vec![error_attr(vec![msg("u"), from()])])]);
    assert_eq!(e.kind, ErrorKind::FieldShape);
    let e = refused(vec![case("P", unnamed(&["A", "B"]), vec![error_attr(vec![msg("{} {}"), from()])])]);
    assert_eq!(e.kind, ErrorKind::FieldShape);
}

#[test]
fn slot_count_must_match() {
    let e = refused(vec![case("P", unnamed(&["A", "B"]), vec![error_attr(vec![msg("{}")])])]);
    assert_eq!(e.kind, ErrorKind::TemplateMismatch);
    let e = refused(vec![case("P", unnamed(&["A"]), vec![error_attr(vec![msg("{0}")])])]);
    assert_eq!(e.kind, ErrorKind::TemplateMismatch);
    let e = refused(vec![case("P", unnamed(&["A"]), vec![error_attr(vec![msg("{} }")])])]);
    assert_eq!(e.kind, ErrorKind::TemplateMismatch);
}

#[test]
fn unit_message_is_shown_as_written() {
    let c = accepted(vec![case("U", FieldShape::Unit, vec![error_attr(vec![msg("a {} b {{")])])]);
    assert_eq!(c.display(0, &vec![]), "a {} b {{");
}

#[test]
fn braces_and_quotes_in_messages() {
    let c = accepted(vec![case(
        "Q",
        unnamed(&["i32"]),
        vec![error_attr(vec![msg("say \"{{{}}}\"\\")])],
    )]);
    assert_eq!(c.display(0, &vec![s("7")]), "say \"{7}\"\\");
    assert!(c.display_impl().contains("format_args!(\"say \\\"{{{}}}\\\"\\\\\", e0)"));
}

#[test]
fn many_fields_are_bound_in_order() {
    let types: Vec<&str> = vec!["u8"; 11];
    let template = "{}".repeat(11);
    let c = accepted(vec![case("M", unnamed(&types), vec![error_attr(vec![msg(&template)])])]);
    let fields: Vec<String> = (0..11).map(|i| i.to_string()).collect();
    assert_eq!(c.display(0, &fields), "012345678910");
    assert!(c.display_impl().contains("Self::M(e0, e1, e2, e3, e4, e5, e6, e7, e8, e9, e10) =>"));
}

#[test]
fn generation_is_repeatable() {
    let build = || {
        decl(vec![
            case("A", unnamed(&["std::io::Error"]), vec![error_attr(vec![msg("io: {}"), from()])]),
            case("U", FieldShape::Unit, vec![error_attr(vec![msg("u")])]),
        ])
    };
    let first = derive_errors(build()).unwrap();
    let second = derive_errors(build()).unwrap();
    assert_eq!(first, second);
    assert_eq!(first.lines().count(), 3);
}

#[test]
fn case_refusal_comes_before_conversion_clash() {
    let e = refused(vec![
        case("A", unnamed(&["T"]), vec![error_attr(vec![from()])]),
        case("B", unnamed(&["T"]), vec![error_attr(vec![from()])]),
        case("C", FieldShape::Unit, vec![error_attr(vec![msg("one"), msg("two")])]),
    ]);
    assert_eq!(e.kind, ErrorKind::AnnotationConflict);
    assert_eq!(e.variant_name, "C");
}

#[test]
fn first_refused_case_is_named() {
    let e = refused(vec![
        case("Ok1", FieldShape::Unit, vec![error_attr(vec![msg("fine")])]),
        case("Bad1", FieldShape::Unit, vec![]),
        case("Bad2", FieldShape::Named(vec![s("x")]), vec![]),
    ]);
    assert_eq!(e.kind, ErrorKind::MissingMessage);
    assert_eq!(e.variant_name, "Bad1");
}

#[test]
fn first_clash_is_named() {
    let e = refused(vec![
        case("A", unnamed(&["T"]), vec![error_attr(vec![from()])]),
        case("B", unnamed(&["U"]), vec![error_attr(vec![from()])]),
        case("C", unnamed(&["U"]), vec![error_attr(vec![from()])]),
        case("D", unnamed(&["T"]), vec![error_attr(vec![from()])]),
    ]);
    assert_eq!(e.kind, ErrorKind::AmbiguousConversion);
    assert_eq!(e.variant_name, "C");
}

#[test]
fn from_on_named_fields_is_refused() {
    let e = refused(vec![case("N", FieldShape::Named(vec![s("inner")]), vec![error_attr(vec![from()])])]);
    assert_eq!(e.kind, ErrorKind::FieldShape);
}
