//! One case of the annotated enum: how its annotation is read, which
//! combinations are refused, and the code emitted for it.

use vstd::prelude::*;
use crate::error::{error_model, DeriveError, ErrorKind, ErrorModel};
use crate::generics::{impl_head, impl_header, opt_view, Generics, GenericsModel};
use crate::template::{
    brace_free, fill, fill_template, interleave, lemma_fill_slotted, slotted, template_fits,
    template_has_slots,
};
use crate::text::{
    clone_strings, decimal, decimal_text, escape_literal, is_word, join, join_strings,
    literal_text, views,
};

verus! {

/// One argument inside `error(...)`.
#[derive(Debug)]
pub enum AttrArg {
    /// A string literal, by its value.
    Str(String),
    /// A path of one identifier, such as `from`.
    Ident(String),
    /// Anything else, by its source text.
    Other(String),
}

/// An attribute attached to a case.
#[derive(Debug)]
pub struct Attribute {
    /// The attribute's path, e.g. `error` or `doc`.
    pub path: String,
    /// The arguments of the list form `path(...)`; `None` for any other form.
    pub args: Option<Vec<AttrArg>>,
}

/// The fields of a declared case.
#[derive(Debug)]
pub enum FieldShape {
    /// No fields.
    Unit,
    /// Unnamed fields, by the text of each one's type.
    Unnamed(Vec<String>),
    /// Named fields, by name.
    Named(Vec<String>),
}

/// One declared case of the annotated enum.
#[derive(Debug)]
pub struct CaseDecl {
    pub name: String,
    pub fields: FieldShape,
    pub attrs: Vec<Attribute>,
}

/// What the annotations of a case have set so far.
pub struct Options {
    pub message: Option<Seq<char>>,
    pub impl_from: bool,
    /// Whether an `error` annotation has been read.
    pub seen: bool,
}

pub open spec fn no_options() -> Options {
    Options { message: None, impl_from: false, seen: false }
}

/// Reads one argument of `error(...)`.
pub open spec fn apply_arg(a: AttrArg, o: Options) -> Result<Options, ErrorKind> {
    match a {
        AttrArg::Str(s) => {
            if o.message is Some {
                Err(ErrorKind::AnnotationConflict)
            } else {
                Ok(Options { message: Some(s@), impl_from: o.impl_from, seen: o.seen })
            }
        },
        AttrArg::Ident(x) => {
            if x@ != "from"@ {
                Err(ErrorKind::AnnotationForm)
            } else if o.impl_from {
                Err(ErrorKind::AnnotationConflict)
            } else {
                Ok(Options { message: o.message, impl_from: true, seen: o.seen })
            }
        },
        AttrArg::Other(_) => Err(ErrorKind::AnnotationForm),
    }
}

/// Reads the arguments of `error(...)` from the left; the first refusal wins.
pub open spec fn apply_args(args: Seq<AttrArg>, o: Options) -> Result<Options, ErrorKind>
    decreases args.len(),
{
    if args.len() == 0 {
        Ok(o)
    } else {
        match apply_arg(args[0], o) {
            Ok(o2) => apply_args(args.skip(1), o2),
            Err(k) => Err(k),
        }
    }
}

/// Reads one attribute; attributes other than `error` are passed over.
pub open spec fn apply_attr(a: Attribute, o: Options) -> Result<Options, ErrorKind> {
    if a.path@ != "error"@ {
        Ok(o)
    } else if o.seen {
        Err(ErrorKind::AnnotationConflict)
    } else {
        match a.args {
            None => Err(ErrorKind::AnnotationForm),
            Some(args) => apply_args(
                args@,
                Options { message: o.message, impl_from: o.impl_from, seen: true },
            ),
        }
    }
}

/// Reads the attributes of a case from the left; the first refusal wins.
pub open spec fn read_attrs(attrs: Seq<Attribute>, o: Options) -> Result<Options, ErrorKind>
    decreases attrs.len(),
{
    if attrs.len() == 0 {
        Ok(o)
    } else {
        match apply_attr(attrs[0], o) {
            Ok(o2) => read_attrs(attrs.skip(1), o2),
            Err(k) => Err(k),
        }
    }
}

/// The fields of an accepted case.
pub enum FieldsModel {
    Unit,
    /// The text of each field's type.
    Unnamed(Seq<Seq<char>>),
}

/// The mathematical value of a [`Variant`].
pub struct VariantModel {
    pub name: Seq<char>,
    pub fields: FieldsModel,
    pub impl_from: bool,
    pub message: Option<Seq<char>>,
}

/// `e0`, `e1`, ...: the names bound to the fields of a case.
pub open spec fn binder_seq(k: nat) -> Seq<Seq<char>> {
    Seq::new(k, |i: int| "e"@ + decimal_text(i as nat))
}

/// The field arguments after the template in `format_args!`.
pub open spec fn arg_suffix(k: nat) -> Seq<char> {
    if k == 0 {
        Seq::empty()
    } else {
        ", "@ + join(binder_seq(k), ", "@)
    }
}

impl VariantModel {
    /// Number of fields.
    pub open spec fn arity(self) -> nat {
        match self.fields {
            FieldsModel::Unit => 0,
            FieldsModel::Unnamed(ts) => ts.len(),
        }
    }

    /// Exactly one unnamed field.
    pub open spec fn has_one_field(self) -> bool {
        self.fields matches FieldsModel::Unnamed(ts) && ts.len() == 1
    }

    /// The type of the first field.
    pub open spec fn wrapped(self) -> Seq<char> {
        match self.fields {
            FieldsModel::Unit => Seq::empty(),
            FieldsModel::Unnamed(ts) => ts[0],
        }
    }

    /// The rules that an accepted case meets.
    pub open spec fn valid(self) -> bool {
        &&& self.impl_from ==> self.has_one_field()
        &&& match self.message {
            None => self.has_one_field(),
            Some(m) => match self.fields {
                FieldsModel::Unit => true,
                FieldsModel::Unnamed(ts) => template_fits(m, ts.len()),
            },
        }
    }

    /// What the emitted branch displays, given the display text of each field.
    /// A message on a case without fields is shown as written.
    pub open spec fn display(self, fields: Seq<Seq<char>>) -> Seq<char> {
        match self.message {
            Some(m) => match self.fields {
                FieldsModel::Unit => m,
                FieldsModel::Unnamed(_) => fill(m, fields),
            },
            None => fields[0],
        }
    }

    /// The match arm emitted in the `Display` impl.
    pub open spec fn display_branch(self) -> Seq<char> {
        "Self::"@ + self.name + match self.message {
            Some(m) => match self.fields {
                FieldsModel::Unit => " => f.write_str("@ + literal_text(m) + ")"@,
                FieldsModel::Unnamed(ts) => "("@ + join(binder_seq(ts.len()), ", "@)
                    + ") => f.write_fmt(::std::format_args!("@ + literal_text(m) + arg_suffix(
                    ts.len(),
                ) + "))"@,
            },
            None => "(e0) => ::std::fmt::Display::fmt(e0, f)"@,
        }
    }

    /// The `From` impl that builds this case of `enum_name` from its field.
    pub open spec fn from_impl(self, enum_name: Seq<char>, g: GenericsModel) -> Seq<char> {
        impl_head(g, "::std::convert::From<"@ + self.wrapped() + ">"@, enum_name)
            + " { fn from(e: "@ + self.wrapped() + ") -> Self { Self::"@ + self.name
            + "(e) } }"@
    }
}

/// The fields of a case that has no named fields.
pub open spec fn fields_model(f: FieldShape) -> FieldsModel {
    match f {
        FieldShape::Unnamed(ts) => FieldsModel::Unnamed(views(ts@)),
        _ => FieldsModel::Unit,
    }
}

/// Why a case with these fields and options is refused, if it is.
pub open spec fn shape_problem(f: FieldShape, o: Options) -> Option<ErrorKind> {
    match f {
        FieldShape::Named(_) => Some(ErrorKind::FieldShape),
        FieldShape::Unit => {
            if o.impl_from {
                Some(ErrorKind::FieldShape)
            } else if o.message is None {
                Some(ErrorKind::MissingMessage)
            } else {
                None
            }
        },
        FieldShape::Unnamed(ts) => {
            if o.impl_from && ts@.len() != 1 {
                Some(ErrorKind::FieldShape)
            } else {
                match o.message {
                    None => if ts@.len() != 1 {
                        Some(ErrorKind::MissingMessage)
                    } else {
                        None
                    },
                    Some(m) => if template_fits(m, ts@.len()) {
                        None
                    } else {
                        Some(ErrorKind::TemplateMismatch)
                    },
                }
            }
        },
    }
}

/// The variant read from case `c` of `enum_name`, or the first refusal.
pub open spec fn case_outcome(enum_name: Seq<char>, c: CaseDecl) -> Result<VariantModel, ErrorModel> {
    match read_attrs(c.attrs@, no_options()) {
        Err(k) => Err(error_model(k, enum_name, c.name@)),
        Ok(o) => match shape_problem(c.fields, o) {
            Some(k) => Err(error_model(k, enum_name, c.name@)),
            None => Ok(
                VariantModel {
                    name: c.name@,
                    fields: fields_model(c.fields),
                    impl_from: o.impl_from,
                    message: o.message,
                },
            ),
        },
    }
}

#[derive(Debug)]
enum Payload {
    Unit,
    Unnamed(Vec<String>),
}

/// An accepted case of the annotated enum.
#[derive(Debug)]
pub struct Variant {
    impl_from: bool,
    message: Option<String>,
    ident: String,
    fields: Payload,
}

impl View for Variant {
    type V = VariantModel;

    closed spec fn view(&self) -> VariantModel {
        VariantModel {
            name: self.ident@,
            fields: match self.fields {
                Payload::Unit => FieldsModel::Unit,
                Payload::Unnamed(ts) => FieldsModel::Unnamed(views(ts@)),
            },
            impl_from: self.impl_from,
            message: opt_view(self.message),
        }
    }
}

fn binders(k: usize) -> (r: Vec<String>)
    ensures
        views(r@) == binder_seq(k as nat),
{
    let mut r: Vec<String> = Vec::new();
    for i in 0..k
        invariant
            r@.len() == i,
            forall|j: int| 0 <= j < i ==> #[trigger] r@[j]@ == "e"@ + decimal_text(j as nat),
    {
        let mut b = String::from_str("e");
        let d = decimal(i);
        b.append(d.as_str());
        r.push(b);
    }
    assert(views(r@) =~= binder_seq(k as nat));
    r
}

fn error_for(kind: ErrorKind, enum_name: &String, c: &CaseDecl) -> (r: DeriveError)
    ensures
        r@ == error_model(kind, enum_name@, c.name@),
{
    DeriveError::new(kind, enum_name, &c.name)
}

impl Variant {
    #[verifier::type_invariant]
    closed spec fn wf(self) -> bool {
        self@.valid()
    }

    /// Reads case `c` of the enum `enum_name`: its `error(...)` annotation
    /// (a message and the `from` flag) and the rules on its fields.
    pub fn parse(enum_name: &String, c: &CaseDecl) -> (r: Result<Variant, DeriveError>)
        ensures
            match r {
                Ok(v) => case_outcome(enum_name@, *c) == Ok::<VariantModel, ErrorModel>(v@),
                Err(e) => case_outcome(enum_name@, *c) == Err::<VariantModel, ErrorModel>(e@),
            },
    {
        let mut message: Option<String> = None;
        let mut impl_from = false;
        let mut seen = false;
        let n = c.attrs.len();
        let ghost start = read_attrs(c.attrs@, no_options());
        assert(c.attrs@.skip(0) =~= c.attrs@);
        for i in 0..n
            invariant
                n == c.attrs@.len(),
                start == read_attrs(c.attrs@, no_options()),
                start == read_attrs(
                    c.attrs@.skip(i as int),
                    Options { message: opt_view(message), impl_from, seen },
                ),
        {
            let a = &c.attrs[i];
            let ghost o0 = Options { message: opt_view(message), impl_from, seen };
            assert(c.attrs@.skip(i as int).skip(1) =~= c.attrs@.skip(i + 1));
            assert(c.attrs@.skip(i as int)[0] == *a);
            if is_word(&a.path, "error") {
                if seen {
                    return Err(error_for(ErrorKind::AnnotationConflict, enum_name, c));
                }
                seen = true;
                match &a.args {
                    None => {
                        return Err(error_for(ErrorKind::AnnotationForm, enum_name, c));
                    },
                    Some(args) => {
                        let m = args.len();
                        let ghost inner = apply_args(args@, Options { message: opt_view(message), impl_from, seen });
                        assert(args@.skip(0) =~= args@);
                        assert(apply_attr(*a, o0) == inner);
                        for j in 0..m
                            invariant
                                m == args@.len(),
                                start == read_attrs(c.attrs@, no_options()),
                                start == match inner {
                                    Ok(o2) => read_attrs(c.attrs@.skip(i + 1), o2),
                                    Err(k) => Err(k),
                                },
                                inner == apply_args(
                                    args@.skip(j as int),
                                    Options { message: opt_view(message), impl_from, seen },
                                ),
                        {
                            assert(args@.skip(j as int).skip(1) =~= args@.skip(j + 1));
                            assert(args@.skip(j as int)[0] == args@[j as int]);
                            match &args[j] {
                                AttrArg::Str(s) => {
                                    if message.is_some() {
                                        return Err(error_for(ErrorKind::AnnotationConflict, enum_name, c));
                                    }
                                    message = Some(s.clone());
                                },
                                AttrArg::Ident(x) => {
                                    if !is_word(x, "from") {
                                        return Err(error_for(ErrorKind::AnnotationForm, enum_name, c));
                                    }
                                    if impl_from {
                                        return Err(error_for(ErrorKind::AnnotationConflict, enum_name, c));
                                    }
                                    impl_from = true;
                                },
                                AttrArg::Other(_) => {
                                    return Err(error_for(ErrorKind::AnnotationForm, enum_name, c));
                                },
                            }
                        }
                        assert(args@.skip(m as int).len() == 0);
                    },
                }
            }
        }
        assert(c.attrs@.skip(n as int).len() == 0);
        let ghost o = Options { message: opt_view(message), impl_from, seen };
        assert(start == Ok::<Options, ErrorKind>(o));
        match &c.fields {
            FieldShape::Named(_) => Err(error_for(ErrorKind::FieldShape, enum_name, c)),
            FieldShape::Unit => {
                if impl_from {
                    Err(error_for(ErrorKind::FieldShape, enum_name, c))
                } else if message.is_none() {
                    Err(error_for(ErrorKind::MissingMessage, enum_name, c))
                } else {
                    let v = Variant { impl_from, message, ident: c.name.clone(), fields: Payload::Unit };
                    Ok(v)
                }
            },
            FieldShape::Unnamed(ts) => {
                if impl_from && ts.len() != 1 {
                    return Err(error_for(ErrorKind::FieldShape, enum_name, c));
                }
                match &message {
                    None => {
                        if ts.len() != 1 {
                            return Err(error_for(ErrorKind::MissingMessage, enum_name, c));
                        }
                    },
                    Some(m) => {
                        if !template_has_slots(m.as_str(), ts.len()) {
                            return Err(error_for(ErrorKind::TemplateMismatch, enum_name, c));
                        }
                    },
                }
                let v = Variant {
                    impl_from,
                    message,
                    ident: c.name.clone(),
                    fields: Payload::Unnamed(clone_strings(ts)),
                };
                Ok(v)
            },
        }
    }

    /// Whether both cases wrap one field of the same type.
    pub(crate) fn same_wrapped(&self, other: &Variant) -> (r: bool)
        requires
            self@.has_one_field(),
            other@.has_one_field(),
        ensures
            r == (self@.wrapped() == other@.wrapped()),
    {
        match (&self.fields, &other.fields) {
            (Payload::Unnamed(a), Payload::Unnamed(b)) => a[0].eq(&b[0]),
            _ => false,
        }
    }

    /// Whether the case wraps one field of type `ty`.
    pub(crate) fn wraps(&self, ty: &String) -> (r: bool)
        ensures
            r == (self@.has_one_field() && self@.wrapped() == ty@),
    {
        match &self.fields {
            Payload::Unnamed(ts) => ts.len() == 1 && ts[0].eq(ty),
            Payload::Unit => false,
        }
    }

    /// The case's name.
    pub fn name(&self) -> (r: &String)
        ensures
            r@ == self@.name,
    {
        &self.ident
    }

    /// Whether a `From` impl is asked for this case.
    pub fn is_impl_from(&self) -> (r: bool)
        ensures
            r == self@.impl_from,
            r ==> self@.has_one_field(),
    {
        proof {
            use_type_invariant(self);
        }
        self.impl_from
    }

    /// The `From` impl that builds this case of the enum `ident`, whose
    /// generic signature is `generics`, from the case's one field.
    pub fn generate_from(&self, ident: &String, generics: &Generics) -> (r: String)
        requires
            self@.impl_from,
        ensures
            r@ == self@.from_impl(ident@, generics@),
    {
        proof {
            use_type_invariant(self);
        }
        let ty = match &self.fields {
            Payload::Unnamed(ts) => &ts[0],
            Payload::Unit => {
                // `from` on a case without fields is refused when it is read
                proof {
                    assert(false);
                }
                &self.ident
            },
        };
        let mut tr = String::from_str("::std::convert::From<");
        tr.append(ty.as_str());
        tr.append(">");
        let mut r = impl_header(generics, tr.as_str(), ident.as_str());
        r.append(" { fn from(e: ");
        r.append(ty.as_str());
        r.append(") -> Self { Self::");
        r.append(self.ident.as_str());
        r.append("(e) } }");
        assert(r@ =~= self@.from_impl(ident@, generics@));
        r
    }

    /// The arm of the `Display` impl's `match` for this case.
    pub fn generate_display(&self) -> (r: String)
        ensures
            r@ == self@.display_branch(),
    {
        proof {
            use_type_invariant(self);
        }
        let mut r = String::from_str("Self::");
        r.append(self.ident.as_str());
        match &self.message {
            Some(m) => {
                let lit = escape_literal(m.as_str());
                match &self.fields {
                    Payload::Unit => {
                        r.append(" => f.write_str(");
                        r.append(lit.as_str());
                        r.append(")");
                    },
                    Payload::Unnamed(ts) => {
                        let names = binders(ts.len());
                        let list = join_strings(&names, ", ");
                        r.append("(");
                        r.append(list.as_str());
                        r.append(") => f.write_fmt(::std::format_args!(");
                        r.append(lit.as_str());
                        if ts.len() > 0 {
                            r.append(", ");
                            r.append(list.as_str());
                        }
                        r.append("))");
                    },
                }
            },
            None => {
                r.append("(e0) => ::std::fmt::Display::fmt(e0, f)");
            },
        }
        assert(r@ =~= self@.display_branch());
        r
    }

    /// What the emitted arm displays for this case, given the display text
    /// of each field.
    pub fn display(&self, fields: &Vec<String>) -> (r: String)
        requires
            fields@.len() == self@.arity(),
        ensures
            r@ == self@.display(views(fields@)),
    {
        proof {
            use_type_invariant(self);
        }
        match &self.message {
            Some(m) => match &self.fields {
                Payload::Unit => m.clone(),
                Payload::Unnamed(_) => fill_template(m.as_str(), fields),
            },
            None => fields[0].clone(),
        }
    }
}

/// A case whose message is literal parts without braces joined by one slot
/// per unnamed field displays those parts with the text of each field where
/// its slot stood, in field order.
pub proof fn lemma_display_fills_slots(
    v: VariantModel,
    pieces: Seq<Seq<char>>,
    fields: Seq<Seq<char>>,
)
    requires
        v.message == Some(slotted(pieces)),
        v.fields is Unnamed,
        v.arity() == fields.len(),
        pieces.len() == fields.len() + 1,
        forall|i: int| 0 <= i < pieces.len() ==> brace_free(#[trigger] pieces[i]),
    ensures
        template_fits(slotted(pieces), v.arity()),
        v.display(fields) == interleave(pieces, fields),
{
    lemma_fill_slotted(pieces, fields);
}

/// A case without a message and with one unnamed field displays exactly
/// what that field displays.
pub proof fn lemma_display_delegates(v: VariantModel, field: Seq<char>)
    requires
        v.message is None,
        v.has_one_field(),
    ensures
        v.display(seq![field]) == field,
{
}

/// A case whose annotation asks for `from` and is otherwise accepted, but
/// which has no fields, named fields, or a number of unnamed fields other
/// than one, is refused with a field-shape error, whatever its message.
pub proof fn lemma_from_needs_one_field(enum_name: Seq<char>, c: CaseDecl)
    requires
        read_attrs(c.attrs@, no_options()) matches Ok(o) && o.impl_from,
        !(c.fields matches FieldShape::Unnamed(ts) && ts@.len() == 1),
    ensures
        case_outcome(enum_name, c) == Err::<VariantModel, ErrorModel>(
            error_model(ErrorKind::FieldShape, enum_name, c.name@),
        ),
{
}

} // verus!
