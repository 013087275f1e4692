//! The annotated enum as a whole: reading its declaration and emitting the
//! `From`, `Display` and `Error` impls.

use vstd::prelude::*;
use crate::error::{error_model, DeriveError, ErrorKind, ErrorModel};
use crate::generics::{impl_head, impl_header, Generics, GenericsModel};
use crate::text::{join, join_strings, views};
use crate::variant::{
    case_outcome, no_options, read_attrs, CaseDecl, FieldShape, Variant, VariantModel,
};

verus! {

broadcast use vstd::seq_lib::group_seq_properties;

/// What kind of item was annotated.
#[derive(Debug)]
pub enum DeclBody {
    /// An enum, with its cases in declaration order.
    Enum(Vec<CaseDecl>),
    Struct,
    Union,
}

/// An annotated type declaration, before it is read.
#[derive(Debug)]
pub struct Declaration {
    pub name: String,
    pub generics: Generics,
    pub body: DeclBody,
}

/// The mathematical value of a [`Collection`].
pub struct CollectionModel {
    pub name: Seq<char>,
    pub generics: GenericsModel,
    pub variants: Seq<VariantModel>,
}

/// No two cases flagged for conversion wrap the same type.
pub open spec fn unambiguous(vs: Seq<VariantModel>) -> bool {
    forall|i: int, j: int|
        0 <= i < j < vs.len() && #[trigger] vs[i].impl_from && #[trigger] vs[j].impl_from
            ==> vs[i].wrapped() != vs[j].wrapped()
}

/// `v` asks for a conversion from a type that one of `vs` already converts.
pub open spec fn clashes(vs: Seq<VariantModel>, v: VariantModel) -> bool {
    v.impl_from && exists|j: int|
        0 <= j < vs.len() && #[trigger] vs[j].impl_from && vs[j].wrapped() == v.wrapped()
}

/// The cases of `enum_name`, each read on its own, in declaration order;
/// the first refused case decides the error.
pub open spec fn read_cases(enum_name: Seq<char>, cases: Seq<CaseDecl>) -> Result<
    Seq<VariantModel>,
    ErrorModel,
>
    decreases cases.len(),
{
    if cases.len() == 0 {
        Ok(Seq::empty())
    } else {
        match read_cases(enum_name, cases.drop_last()) {
            Err(e) => Err(e),
            Ok(vs) => match case_outcome(enum_name, cases.last()) {
                Err(e) => Err(e),
                Ok(v) => Ok(vs.push(v)),
            },
        }
    }
}

/// The error for the first case of `vs` that asks for a conversion from a
/// type that an earlier case already converts, if there is one.
pub open spec fn first_clash(enum_name: Seq<char>, vs: Seq<VariantModel>) -> Option<ErrorModel>
    decreases vs.len(),
{
    if vs.len() == 0 {
        None
    } else {
        match first_clash(enum_name, vs.drop_last()) {
            Some(e) => Some(e),
            None => if clashes(vs.drop_last(), vs.last()) {
                Some(error_model(ErrorKind::AmbiguousConversion, enum_name, vs.last().name))
            } else {
                None
            },
        }
    }
}

/// All cases are read first; only when each is accepted on its own are the
/// conversions checked against each other.
pub open spec fn parse_cases(enum_name: Seq<char>, cases: Seq<CaseDecl>) -> Result<
    Seq<VariantModel>,
    ErrorModel,
> {
    match read_cases(enum_name, cases) {
        Err(e) => Err(e),
        Ok(vs) => match first_clash(enum_name, vs) {
            Some(e) => Err(e),
            None => Ok(vs),
        },
    }
}

/// The model read from a declaration, or the first refusal.
pub open spec fn parse_outcome(d: Declaration) -> Result<CollectionModel, ErrorModel> {
    match d.body {
        DeclBody::Enum(cases) => match parse_cases(d.name@, cases@) {
            Ok(vs) => Ok(CollectionModel { name: d.name@, generics: d.generics@, variants: vs }),
            Err(e) => Err(e),
        },
        _ => Err(error_model(ErrorKind::NotAnEnum, d.name@, Seq::empty())),
    }
}

/// The arms of the `Display` match, each followed by `, `.
pub open spec fn arms(vs: Seq<VariantModel>) -> Seq<char>
    decreases vs.len(),
{
    if vs.len() == 0 {
        Seq::empty()
    } else {
        arms(vs.drop_last()) + vs.last().display_branch() + ", "@
    }
}

/// Case `i` builds a value from type `ty` in the emitted `From` impls.
pub open spec fn converts(vs: Seq<VariantModel>, ty: Seq<char>, i: int) -> bool {
    0 <= i < vs.len() && vs[i].impl_from && vs[i].wrapped() == ty
}

impl CollectionModel {
    /// The cases flagged for conversion, in declaration order.
    pub open spec fn flagged(self) -> Seq<VariantModel> {
        self.variants.filter(|v: VariantModel| v.impl_from)
    }

    /// One `From` impl per flagged case, in declaration order.
    pub open spec fn conversions(self) -> Seq<Seq<char>> {
        self.flagged().map_values(|v: VariantModel| v.from_impl(self.name, self.generics))
    }

    /// The `Display` impl: one `match` over all cases in declaration order.
    pub open spec fn display_impl(self) -> Seq<char> {
        impl_head(self.generics, "::std::fmt::Display"@, self.name)
            + " { fn fmt(&self, f: &mut ::std::fmt::Formatter<'_>) -> ::std::fmt::Result { match self { "@
            + arms(self.variants) + "} } }"@
    }

    /// The empty `Error` impl.
    pub open spec fn marker_impl(self) -> Seq<char> {
        impl_head(self.generics, "::std::error::Error"@, self.name) + " {}"@
    }

    /// All emitted items, one per line.
    pub open spec fn expansion(self) -> Seq<char> {
        join(self.conversions() + seq![self.display_impl(), self.marker_impl()], "\n"@)
    }
}

/// The text emitted for a declaration, or the first refusal.
pub open spec fn expand_outcome(d: Declaration) -> Result<Seq<char>, ErrorModel> {
    match parse_outcome(d) {
        Ok(c) => Ok(c.expansion()),
        Err(e) => Err(e),
    }
}

/// The models of a list of variants.
pub open spec fn models(vs: Seq<Variant>) -> Seq<VariantModel> {
    vs.map_values(|v: Variant| v@)
}

/// An annotated enum that has been read and accepted.
#[derive(Debug)]
pub struct Collection {
    ident: String,
    generics: Generics,
    variants: Vec<Variant>,
}

impl View for Collection {
    type V = CollectionModel;

    closed spec fn view(&self) -> CollectionModel {
        CollectionModel {
            name: self.ident@,
            generics: self.generics@,
            variants: models(self.variants@),
        }
    }
}

proof fn lemma_no_clash_unambiguous(enum_name: Seq<char>, vs: Seq<VariantModel>)
    requires
        first_clash(enum_name, vs) is None,
    ensures
        unambiguous(vs),
    decreases vs.len(),
{
    if vs.len() > 0 {
        let pre = vs.drop_last();
        lemma_no_clash_unambiguous(enum_name, pre);
        assert forall|i: int, j: int|
            0 <= i < j < vs.len() && #[trigger] vs[i].impl_from && #[trigger] vs[j].impl_from
            implies vs[i].wrapped() != vs[j].wrapped() by {
            if j == pre.len() {
                assert(!clashes(pre, vs.last()));
                assert(pre[i].impl_from);
            } else {
                assert(pre[i].impl_from && pre[j].impl_from);
            }
        }
    }
}

/// A clash in a prefix is the first clash of the whole list.
proof fn lemma_clash_prefix(enum_name: Seq<char>, vs: Seq<VariantModel>, k: int)
    requires
        0 <= k <= vs.len(),
        first_clash(enum_name, vs.take(k)) is Some,
    ensures
        first_clash(enum_name, vs) == first_clash(enum_name, vs.take(k)),
    decreases vs.len() - k,
{
    if k < vs.len() {
        assert(vs.take(k + 1).drop_last() =~= vs.take(k));
        lemma_clash_prefix(enum_name, vs, k + 1);
    } else {
        assert(vs.take(k) =~= vs);
    }
}

impl Collection {
    #[verifier::type_invariant]
    closed spec fn wf(self) -> bool {
        unambiguous(self@.variants)
    }

    /// Reads an annotated declaration: it must be an enum; its cases are
    /// read in order and the first refused case decides the error; only when
    /// every case is accepted are the conversions checked, and the first case
    /// whose `from` type repeats an earlier one's is refused.
    pub fn parse(decl: Declaration) -> (r: Result<Collection, DeriveError>)
        ensures
            match r {
                Ok(c) => parse_outcome(decl) == Ok::<CollectionModel, ErrorModel>(c@),
                Err(e) => parse_outcome(decl) == Err::<CollectionModel, ErrorModel>(e@),
            },
    {
        let ghost d = decl;
        let Declaration { name, generics, body } = decl;
        let cases = match body {
            DeclBody::Enum(cases) => cases,
            _ => {
                return Err(DeriveError::new(ErrorKind::NotAnEnum, &name, &String::new()));
            },
        };
        let mut variants: Vec<Variant> = Vec::new();
        let n = cases.len();
        assert(cases@.take(0) =~= Seq::<CaseDecl>::empty());
        assert(models(variants@) =~= Seq::<VariantModel>::empty());
        for i in 0..n
            invariant
                n == cases@.len(),
                d == decl,
                d.name == name,
                d.generics == generics,
                d.body == DeclBody::Enum(cases),
                read_cases(name@, cases@.take(i as int)) == Ok::<Seq<VariantModel>, ErrorModel>(
                    models(variants@),
                ),
        {
            let ghost cur = cases@.take(i as int + 1);
            assert(cur.drop_last() =~= cases@.take(i as int));
            assert(cur.last() == cases@[i as int]);
            match Variant::parse(&name, &cases[i]) {
                Ok(v) => {
                    let ghost vs = models(variants@);
                    variants.push(v);
                    assert(models(variants@) =~= vs.push(v@));
                },
                Err(e) => {
                    proof {
                        assert(read_cases(name@, cur) == Err::<Seq<VariantModel>, ErrorModel>(e@));
                        lemma_read_prefix_err(name@, cases@, i as int + 1);
                    }
                    return Err(e);
                },
            }
        }
        assert(cases@.take(n as int) =~= cases@);
        let ghost vs = models(variants@);
        assert(vs.take(0) =~= Seq::<VariantModel>::empty());
        let m = variants.len();
        for i in 0..m
            invariant
                m == vs.len(),
                vs == models(variants@),
                d == decl,
                d.name == name,
                d.body == DeclBody::Enum(cases),
                read_cases(name@, cases@) == Ok::<Seq<VariantModel>, ErrorModel>(vs),
                first_clash(name@, vs.take(i as int)) is None,
        {
            let v = &variants[i];
            let ghost pre = vs.take(i as int);
            let ghost cur = vs.take(i as int + 1);
            assert(cur.drop_last() =~= pre);
            assert(cur.last() == v@);
            if v.is_impl_from() {
                for j in 0..i
                    invariant
                        i < m,
                        m == vs.len(),
                        pre == vs.take(i as int),
                        cur == vs.take(i as int + 1),
                        cur.drop_last() == pre,
                        cur.last() == v@,
                        first_clash(name@, pre) is None,
                        d == decl,
                        d.name == name,
                        d.body == DeclBody::Enum(cases),
                        read_cases(name@, cases@) == Ok::<Seq<VariantModel>, ErrorModel>(vs),
                        vs == models(variants@),
                        v@ == vs[i as int],
                        v@.impl_from,
                        v@.has_one_field(),
                        forall|k: int| 0 <= k < j && #[trigger] vs[k].impl_from
                            ==> vs[k].wrapped() != v@.wrapped(),
                {
                    let w = &variants[j];
                    assert(vs[j as int] == w@);
                    if w.is_impl_from() && w.same_wrapped(v) {
                        proof {
                            assert(pre[j as int] == vs[j as int]);
                            assert(clashes(pre, v@));
                            assert(first_clash(name@, cur) == Some(
                                error_model(ErrorKind::AmbiguousConversion, name@, v@.name),
                            ));
                            lemma_clash_prefix(name@, vs, i as int + 1);
                        }
                        return Err(DeriveError::new(ErrorKind::AmbiguousConversion, &name, v.name()));
                    }
                }
                assert forall|k: int| 0 <= k < pre.len() && #[trigger] pre[k].impl_from
                    implies pre[k].wrapped() != v@.wrapped() by {
                    assert(pre[k] == vs[k]);
                }
            }
            assert(!clashes(pre, v@));
        }
        assert(vs.take(m as int) =~= vs);
        proof {
            lemma_no_clash_unambiguous(name@, vs);
        }
        Ok(Collection { ident: name, generics, variants })
    }

    /// One `From` impl per case flagged `from`, in declaration order.
    pub fn conversion_impls(&self) -> (r: Vec<String>)
        ensures
            views(r@) == self@.conversions(),
    {
        let ghost vs = self@.variants;
        let ghost f = |v: VariantModel| v.impl_from;
        let ghost g = |v: VariantModel| v.from_impl(self@.name, self@.generics);
        let mut r: Vec<String> = Vec::new();
        let n = self.variants.len();
        assert(vs.take(0) =~= Seq::<VariantModel>::empty());
        assert(Seq::<VariantModel>::empty().filter(f) =~= Seq::<VariantModel>::empty()) by {
            reveal(Seq::filter);
        }
        assert(views(r@) =~= Seq::<Seq<char>>::empty());
        for i in 0..n
            invariant
                n == vs.len(),
                vs == self@.variants,
                f == (|v: VariantModel| v.impl_from),
                g == (|v: VariantModel| v.from_impl(self@.name, self@.generics)),
                views(r@) == vs.take(i as int).filter(f).map_values(g),
        {
            let v = &self.variants[i];
            assert(vs.take(i as int + 1) =~= vs.take(i as int).push(v@));
            proof {
                vs.take(i as int).lemma_filter_push(v@, f);
            }
            if v.is_impl_from() {
                let t = v.generate_from(&self.ident, &self.generics);
                let ghost prev = views(r@);
                r.push(t);
                assert(f(v@));
                assert(g(v@) == t@);
                assert(vs.take(i as int + 1).filter(f) == vs.take(i as int).filter(f).push(v@));
                assert(views(r@) =~= prev.push(t@));
                assert(views(r@) =~= vs.take(i as int + 1).filter(f).map_values(g));
            } else {
                assert(views(r@) =~= vs.take(i as int + 1).filter(f).map_values(g));
            }
        }
        assert(vs.take(n as int) =~= vs);
        r
    }

    /// The `Display` impl: a `match` with one arm per case.
    pub fn display_impl(&self) -> (r: String)
        ensures
            r@ == self@.display_impl(),
    {
        let mut r = impl_header(&self.generics, "::std::fmt::Display", self.ident.as_str());
        r.append(" { fn fmt(&self, f: &mut ::std::fmt::Formatter<'_>) -> ::std::fmt::Result { match self { ");
        let ghost head = r@;
        let ghost vs = self@.variants;
        let n = self.variants.len();
        assert(vs.take(0) =~= Seq::<VariantModel>::empty());
        assert(r@ =~= head + arms(vs.take(0)));
        for i in 0..n
            invariant
                n == vs.len(),
                vs == self@.variants,
                r@ == head + arms(vs.take(i as int)),
        {
            let v = &self.variants[i];
            let b = v.generate_display();
            r.append(b.as_str());
            r.append(", ");
            assert(vs.take(i as int + 1).drop_last() =~= vs.take(i as int));
            assert(r@ =~= head + arms(vs.take(i as int + 1)));
        }
        assert(vs.take(n as int) =~= vs);
        r.append("} } }");
        assert(r@ =~= self@.display_impl());
        r
    }

    /// The empty `Error` impl.
    pub fn marker_impl(&self) -> (r: String)
        ensures
            r@ == self@.marker_impl(),
    {
        let mut r = impl_header(&self.generics, "::std::error::Error", self.ident.as_str());
        r.append(" {}");
        r
    }

    /// The emitted source: the `From` impls, then the `Display` impl, then
    /// the `Error` impl, one per line.
    pub fn generate(self) -> (r: String)
        ensures
            r@ == self@.expansion(),
    {
        let mut items = self.conversion_impls();
        let ghost convs = views(items@);
        let d = self.display_impl();
        let m = self.marker_impl();
        items.push(d);
        items.push(m);
        assert(views(items@) =~= convs + seq![self@.display_impl(), self@.marker_impl()]);
        join_strings(&items, "\n")
    }

    /// The case that the emitted `From<ty>` impl builds, if there is one.
    pub fn conversion_for(&self, ty: &String) -> (r: Option<usize>)
        ensures
            match r {
                Some(i) => converts(self@.variants, ty@, i as int),
                None => forall|i: int| !converts(self@.variants, ty@, i),
            },
            forall|i: int, j: int|
                converts(self@.variants, ty@, i) && converts(self@.variants, ty@, j) ==> i == j,
    {
        proof {
            use_type_invariant(self);
        }
        let ghost vs = self@.variants;
        let n = self.variants.len();
        for i in 0..n
            invariant
                n == vs.len(),
                vs == self@.variants,
                unambiguous(vs),
                forall|k: int| 0 <= k < i ==> !converts(vs, ty@, k),
        {
            let v = &self.variants[i];
            assert(vs[i as int] == v@);
            if v.is_impl_from() && v.wraps(ty) {
                return Some(i);
            }
        }
        None
    }

    /// What the emitted `Display` impl shows for case `index`, given the
    /// display text of each of its fields.
    pub fn display(&self, index: usize, fields: &Vec<String>) -> (r: String)
        requires
            index < self@.variants.len(),
            fields@.len() == self@.variants[index as int].arity(),
        ensures
            r@ == self@.variants[index as int].display(views(fields@)),
    {
        let v = &self.variants[index];
        assert(self@.variants[index as int] == v@);
        v.display(fields)
    }
}

/// Reads an annotated declaration and emits its `From`, `Display` and
/// `Error` impls, or says why the declaration is refused.
pub fn derive_errors(item: Declaration) -> (r: Result<String, DeriveError>)
    ensures
        match r {
            Ok(s) => expand_outcome(item) == Ok::<Seq<char>, ErrorModel>(s@),
            Err(e) => expand_outcome(item) == Err::<Seq<char>, ErrorModel>(e@),
        },
{
    match Collection::parse(item) {
        Ok(c) => Ok(c.generate()),
        Err(e) => Err(e),
    }
}

/// A refusal on a prefix of the cases is the refusal on all of them.
proof fn lemma_read_prefix_err(enum_name: Seq<char>, cases: Seq<CaseDecl>, k: int)
    requires
        0 <= k <= cases.len(),
        read_cases(enum_name, cases.take(k)) is Err,
    ensures
        read_cases(enum_name, cases) == read_cases(enum_name, cases.take(k)),
    decreases cases.len() - k,
{
    if k < cases.len() {
        let nxt = cases.take(k + 1);
        assert(nxt.drop_last() =~= cases.take(k));
        lemma_read_prefix_err(enum_name, cases, k + 1);
    } else {
        assert(cases.take(k) =~= cases);
    }
}

/// With the cases flagged for conversion each wrapping a distinct type,
/// exactly one `From` impl is emitted per flagged case, in declaration
/// order; the impl from a flagged case's field type is that case's own and
/// builds that case.
pub proof fn lemma_one_conversion_per_flagged_case(c: CollectionModel)
    requires
        unambiguous(c.variants),
    ensures
        c.conversions().len() == c.flagged().len(),
        forall|k: int|
            0 <= k < c.flagged().len() ==> #[trigger] c.conversions()[k] == c.flagged()[k].from_impl(
                c.name,
                c.generics,
            ),
        forall|i: int|
            0 <= i < c.variants.len() && #[trigger] c.variants[i].impl_from ==> {
                &&& c.conversions().contains(c.variants[i].from_impl(c.name, c.generics))
                &&& forall|j: int| converts(c.variants, c.variants[i].wrapped(), j) <==> j == i
            },
{
    let f = |v: VariantModel| v.impl_from;
    let g = |v: VariantModel| v.from_impl(c.name, c.generics);
    assert forall|i: int| 0 <= i < c.variants.len() && #[trigger] c.variants[i].impl_from implies {
        &&& c.conversions().contains(c.variants[i].from_impl(c.name, c.generics))
        &&& forall|j: int| converts(c.variants, c.variants[i].wrapped(), j) <==> j == i
    } by {
        assert(f(c.variants[i]));
        c.variants.lemma_filter_contains(f, i);
        assert(c.flagged().contains(c.variants[i]));
        let k = choose|k: int| 0 <= k < c.flagged().len() && c.flagged()[k] == c.variants[i];
        assert(c.conversions()[k] == g(c.variants[i]));
        assert forall|j: int| converts(c.variants, c.variants[i].wrapped(), j) implies j == i by {
            if j < i {
                assert(c.variants[j].impl_from);
            } else if i < j {
                assert(c.variants[j].impl_from);
            }
        }
    }
}

/// Generation depends on the declaration alone: two reads of one
/// declaration give the same model, hence the same emitted items, byte for
/// byte.
pub proof fn lemma_generation_repeatable(d: Declaration, c1: CollectionModel, c2: CollectionModel)
    requires
        parse_outcome(d) == Ok::<CollectionModel, ErrorModel>(c1),
        parse_outcome(d) == Ok::<CollectionModel, ErrorModel>(c2),
    ensures
        c1 == c2,
        c1.conversions() == c2.conversions(),
        c1.display_impl() == c2.display_impl(),
        c1.marker_impl() == c2.marker_impl(),
        c1.expansion() == c2.expansion(),
{
}

/// Whether the annotations of `c` leave it without a message (or are
/// refused themselves).
pub open spec fn lacks_message(c: CaseDecl) -> bool {
    !(read_attrs(c.attrs@, no_options()) matches Ok(o) && o.message is Some)
}

/// A case that no rule can accept: named fields, or no message with zero
/// or with two or more fields.
pub open spec fn boundary_case(c: CaseDecl) -> bool {
    match c.fields {
        FieldShape::Named(_) => true,
        FieldShape::Unit => lacks_message(c),
        FieldShape::Unnamed(ts) => ts@.len() >= 2 && lacks_message(c),
    }
}

proof fn lemma_read_cases_err(enum_name: Seq<char>, cases: Seq<CaseDecl>, i: int)
    requires
        0 <= i < cases.len(),
        case_outcome(enum_name, cases[i]) is Err,
    ensures
        read_cases(enum_name, cases) is Err,
    decreases cases.len(),
{
    if i < cases.len() - 1 {
        let pre = cases.drop_last();
        assert(pre[i] == cases[i]);
        lemma_read_cases_err(enum_name, pre, i);
    }
}

proof fn lemma_read_cases_ok(enum_name: Seq<char>, cases: Seq<CaseDecl>, k: int)
    requires
        0 <= k <= cases.len(),
        forall|j: int| 0 <= j < k ==> #[trigger] case_outcome(enum_name, cases[j]) is Ok,
    ensures
        read_cases(enum_name, cases.take(k)) is Ok,
    decreases k,
{
    if k > 0 {
        lemma_read_cases_ok(enum_name, cases, k - 1);
        assert(cases.take(k).drop_last() =~= cases.take(k - 1));
        assert(cases.take(k).last() == cases[k - 1]);
    }
}

/// Cases are read in declaration order and the first refusal ends the
/// reading: when every case before case `i` is accepted and case `i` is
/// refused, the declaration is refused with case `i`'s own error, whatever
/// the later cases hold and whatever their conversions are.
pub proof fn lemma_first_refusal_reported(d: Declaration, i: int)
    requires
        d.body matches DeclBody::Enum(cases) && 0 <= i < cases@.len(),
        forall|j: int|
            0 <= j < i ==> #[trigger] case_outcome(d.name@, d.body->Enum_0@[j]) is Ok,
        case_outcome(d.name@, d.body->Enum_0@[i]) is Err,
    ensures
        parse_outcome(d) == Err::<CollectionModel, ErrorModel>(
            case_outcome(d.name@, d.body->Enum_0@[i])->Err_0,
        ),
{
    let cases = d.body->Enum_0@;
    lemma_read_cases_ok(d.name@, cases, i);
    let cur = cases.take(i + 1);
    assert(cur.drop_last() =~= cases.take(i));
    assert(cur.last() == cases[i]);
    lemma_read_prefix_err(d.name@, cases, i + 1);
}

/// A case with no fields and no message, with two or more fields and no
/// message, or with named fields is refused with an error that names it and
/// its enum; every enum that has such a case is refused, and with that
/// case's error when the cases before it are accepted.
pub proof fn lemma_boundary_cases_refused(d: Declaration, i: int)
    requires
        d.body matches DeclBody::Enum(cases) && 0 <= i < cases@.len() && boundary_case(
            cases@[i],
        ),
    ensures
        case_outcome(d.name@, d.body->Enum_0@[i]) is Err,
        case_outcome(d.name@, d.body->Enum_0@[i])->Err_0.variant_name == d.body->Enum_0@[i].name@,
        case_outcome(d.name@, d.body->Enum_0@[i])->Err_0.enum_name == d.name@,
        parse_outcome(d) is Err,
        (forall|j: int| 0 <= j < i ==> #[trigger] case_outcome(d.name@, d.body->Enum_0@[j]) is Ok)
            ==> parse_outcome(d) == Err::<CollectionModel, ErrorModel>(
            case_outcome(d.name@, d.body->Enum_0@[i])->Err_0,
        ),
{
    let cases = d.body->Enum_0@;
    lemma_read_cases_err(d.name@, cases, i);
    if forall|j: int| 0 <= j < i ==> #[trigger] case_outcome(d.name@, d.body->Enum_0@[j]) is Ok {
        lemma_first_refusal_reported(d, i);
    }
}

} // verus!
