use error_utils_derive::{
    AttrArg, Attribute, CaseDecl, Collection, DeclBody, Declaration, FieldShape, Generics,
};
use std::num::{ParseFloatError, ParseIntError};

fn s(x: &str) -> String {
    x.to_string()
}

fn error_attr(args: Vec<AttrArg>) -> Attribute {
    Attribute { path: s("error"), args: Some(args) }
}

fn case(name: &str, fields: FieldShape, attrs: Vec<Attribute>) -> CaseDecl {
    CaseDecl { name: s(name), fields, attrs }
}

fn unnamed(types: &[&str]) -> FieldShape {
    FieldShape::Unnamed(types.iter().map(|t| s(t)).collect())
}

fn plain_enum(name: &str, cases: Vec<CaseDecl>) -> Collection {
    let decl = Declaration {
        name: s(name),
        generics: Generics::new(vec![], None),
        body: DeclBody::Enum(cases),
    };
    match Collection::parse(decl) {
        Ok(c) => c,
        Err(e) => panic!("{}", e.message()),
    }
}

fn parse_error() -> Collection {
    plain_enum(
        "ParseError",
        vec![
            case(
                "ParseInt",
                unnamed(&["ParseIntError"]),
                vec![error_attr(vec![
                    AttrArg::Str(s("Failed to parse int (Reason: {})")),
                    AttrArg::Ident(s("from")),
                ])],
            ),
            case(
                "ParseFloat",
                unnamed(&["ParseFloatError"]),
                vec![error_attr(vec![
                    AttrArg::Str(s("Failed to parse float (Reason: {})")),
                    AttrArg::Ident(s("from")),
                ])],
            ),
        ],
    )
}

#[test]
fn impl_from() {
    let c = parse_error();
    assert_eq!(c.conversion_for(&s("ParseIntError")), Some(0));
    assert_eq!(c.conversion_for(&s("ParseFloatError")), Some(1));
    let froms = c.conversion_impls();
    assert_eq!(froms.len(), 2);
    assert!(froms[0].contains("::std::convert::From<ParseIntError> for ParseError"));
    assert!(froms[1].contains("::std::convert::From<ParseFloatError> for ParseError"));
    let i: Result<i32, ParseIntError> = "0".parse();
    assert_eq!(i.unwrap(), 0);
    let f: Result<f32, ParseFloatError> = "0.0".parse();
    assert_eq!(f.unwrap(), 0.0);
}

#[test]
fn impl_display() {
    let c = parse_error();
    let fail: Result<i32, ParseIntError> = "".parse();
    if let Err(err) = fail {
        let index = c.conversion_for(&s("ParseIntError")).unwrap();
        assert_eq!(
            c.display(index, &vec![err.to_string()]),
            "Failed to parse int (Reason: cannot parse integer from empty string)"
        )
    } else {
        unreachable!()
    }
}

fn custom_error() -> Collection {
    plain_enum(
        "CustomError",
        vec![
            case("CustomError1", FieldShape::Unit, vec![error_attr(vec![AttrArg::Str(s("Custom error 1"))])]),
            case("CustomError2", FieldShape::Unit, vec![error_attr(vec![AttrArg::Str(s("Custom error 2"))])]),
        ],
    )
}

#[test]
fn base_custom_error() {
    let c = custom_error();
    assert_eq!(c.display(0, &vec![]), "Custom error 1");
    assert_eq!(c.display(1, &vec![]), "Custom error 2");
}

#[test]
fn multi_error() {
    let c = plain_enum(
        "MultiError",
        vec![case(
            "Multi",
            unnamed(&["f32", "i32"]),
            vec![error_attr(vec![AttrArg::Str(s("Error: {} {}"))])],
        )],
    );
    let fields = vec![format!("{}", 0.0f32), format!("{}", 0i32)];
    assert_eq!(c.display(0, &fields), "Error: 0 0")
}
