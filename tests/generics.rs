use error_utils_derive::{
    AttrArg, Attribute, CaseDecl, Collection, DeclBody, Declaration, FieldShape, GenericParam,
    Generics,
};
use std::num::ParseIntError;

fn s(x: &str) -> String {
    x.to_string()
}

fn error_attr(args: Vec<AttrArg>) -> Attribute {
    Attribute { path: s("error"), args: Some(args) }
}

fn generic_enum() -> Collection {
    let generics = Generics::new(
        vec![GenericParam::Type {
            name: s("T"),
            bounds: vec![s("std::fmt::Debug"), s("std::fmt::Display")],
        }],
        None,
    );
    let decl = Declaration {
        name: s("Generic"),
        generics,
        body: DeclBody::Enum(vec![
            CaseDecl {
                name: s("T"),
                fields: FieldShape::Unnamed(vec![s("T")]),
                attrs: vec![error_attr(vec![AttrArg::Str(s("error: {}")), AttrArg::Ident(s("from"))])],
            },
            CaseDecl {
                name: s("CustomError"),
                fields: FieldShape::Unit,
                attrs: vec![error_attr(vec![AttrArg::Str(s("custom error"))])],
            },
        ]),
    };
    match Collection::parse(decl) {
        Ok(c) => c,
        Err(e) => panic!("{}", e.message()),
    }
}

#[test]
fn generic() {
    let c = generic_enum();
    assert_eq!(c.display(0, &vec![0.to_string()]), "error: 0");
}

#[test]
fn generic_from() {
    let c = generic_enum();
    let fail: Result<i32, ParseIntError> = "".parse();
    if let Err(err) = fail {
        let index = c.conversion_for(&s("T")).unwrap();
        assert_eq!(
            c.display(index, &vec![err.to_string()]),
            "error: cannot parse integer from empty string"
        )
    } else {
        unreachable!()
    }
}

#[test]
fn generics_custom_error() {
    let c = generic_enum();
    assert_eq!(c.display(1, &vec![]), "custom error");
}

#[test]
fn generic_impls_restate_signature() {
    let c = generic_enum();
    let froms = c.conversion_impls();
    assert_eq!(
        froms,
        vec![s(
            "impl<T: std::fmt::Debug + std::fmt::Display> ::std::convert::From<T> for Generic<T> { fn from(e: T) -> Self { Self::T(e) } }"
        )]
    );
    assert_eq!(
        c.marker_impl(),
        "impl<T: std::fmt::Debug + std::fmt::Display> ::std::error::Error for Generic<T> {}"
    );
}

#[test]
fn where_clause_in_every_impl() {
    let params = vec![
        GenericParam::Type { name: s("A"), bounds: vec![] },
        GenericParam::Type { name: s("B"), bounds: vec![] },
        GenericParam::Type { name: s("C"), bounds: vec![] },
    ];
    let clause = s("where A: std::error::Error, B: std::error::Error, C: std::error::Error");
    let cases = ["A", "B", "C"]
        .iter()
        .map(|n| CaseDecl { name: s(n), fields: FieldShape::Unnamed(vec![s(n)]), attrs: vec![] })
        .collect();
    let decl = Declaration {
        name: s("Error"),
        generics: Generics::new(params, Some(clause.clone())),
        body: DeclBody::Enum(cases),
    };
    let c = match Collection::parse(decl) {
        Ok(c) => c,
        Err(e) => panic!("{}", e.message()),
    };
    assert!(c.conversion_impls().is_empty());
    assert_eq!(
        c.marker_impl(),
        format!("impl<A, B, C> ::std::error::Error for Error<A, B, C> {} {{}}", clause)
    );
    assert!(c.display_impl().starts_with(&format!(
        "impl<A, B, C> ::std::fmt::Display for Error<A, B, C> {} {{",
        clause
    )));
    assert_eq!(c.display(2, &vec![s("inner")]), "inner");
    let text = c.generate();
    assert_eq!(text.lines().count(), 2);
}

#[test]
fn bounds_rendering() {
    let g = Generics::new(
        vec![
            GenericParam::Lifetime { name: s("'a"), bounds: vec![] },
            GenericParam::Type { name: s("T"), bounds: vec![s("Clone"), s("'a")] },
            GenericParam::Const { name: s("N"), ty: s("usize") },
        ],
        Some(s("where T: Send")),
    );
    assert_eq!(g.with_bounds(), Some(s("<'a, T: Clone + 'a, const N: usize>")));
    assert_eq!(g.without_bounds(), Some(s("<'a, T, N>")));
    assert_eq!(g.where_clause(), Some(&s("where T: Send")));
    let empty = Generics::new(vec![], None);
    assert_eq!(empty.with_bounds(), None);
    assert_eq!(empty.without_bounds(), None);
    assert_eq!(empty.where_clause(), None);
}
