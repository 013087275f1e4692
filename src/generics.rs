//! The generic parameter list and `where` clause of the annotated type, and
//! the three forms in which generated impls restate them.

use vstd::prelude::*;
use crate::text::{join, join_strings, views};

verus! {

/// One declared generic parameter.
#[derive(Debug)]
pub enum GenericParam {
    /// `T: B1 + B2`; `bounds` holds the text of each bound.
    Type { name: String, bounds: Vec<String> },
    /// `'a: 'b`; `name` holds the lifetime with its quote.
    Lifetime { name: String, bounds: Vec<String> },
    /// `const N: usize`; `ty` holds the text of the type.
    Const { name: String, ty: String },
}

/// The parameter as declared, bounds included.
pub open spec fn param_with_bounds(p: GenericParam) -> Seq<char> {
    match p {
        GenericParam::Type { name, bounds } | GenericParam::Lifetime { name, bounds } => {
            if bounds@.len() == 0 {
                name@
            } else {
                name@ + ": "@ + join(views(bounds@), " + "@)
            }
        },
        GenericParam::Const { name, ty } => "const "@ + name@ + ": "@ + ty@,
    }
}

/// The parameter as it stands in a type's argument list: its name alone.
pub open spec fn param_name(p: GenericParam) -> Seq<char> {
    match p {
        GenericParam::Type { name, .. } => name@,
        GenericParam::Lifetime { name, .. } => name@,
        GenericParam::Const { name, .. } => name@,
    }
}

/// `<...>` around the parameters rendered by `f`, or nothing for an empty list.
pub open spec fn angle_list(ps: Seq<GenericParam>, f: spec_fn(GenericParam) -> Seq<char>) -> Option<Seq<char>> {
    if ps.len() == 0 {
        None
    } else {
        Some("<"@ + join(ps.map_values(f), ", "@) + ">"@)
    }
}

/// The mathematical value of [`Generics`].
pub struct GenericsModel {
    pub params: Seq<GenericParam>,
    pub where_clause: Option<Seq<char>>,
}

impl GenericsModel {
    /// `<A: Bound, B, ...>`, or nothing without parameters.
    pub open spec fn bounded(self) -> Option<Seq<char>> {
        angle_list(self.params, |p: GenericParam| param_with_bounds(p))
    }

    /// `<A, B, ...>`, or nothing without parameters.
    pub open spec fn unbounded(self) -> Option<Seq<char>> {
        angle_list(self.params, |p: GenericParam| param_name(p))
    }

    /// Text for right after `impl`.
    pub open spec fn impl_params(self) -> Seq<char> {
        match self.bounded() {
            Some(s) => s,
            None => Seq::empty(),
        }
    }

    /// Text for right after the type's name.
    pub open spec fn type_args(self) -> Seq<char> {
        match self.unbounded() {
            Some(s) => s,
            None => Seq::empty(),
        }
    }

    /// The `where` clause with a space before it, or nothing.
    pub open spec fn where_suffix(self) -> Seq<char> {
        match self.where_clause {
            Some(w) => " "@ + w,
            None => Seq::empty(),
        }
    }
}

/// `impl<..> trait_text for name<..> where ..`: the head of an impl of
/// `trait_text` for the annotated type `name`.
pub open spec fn impl_head(g: GenericsModel, trait_text: Seq<char>, name: Seq<char>) -> Seq<char> {
    "impl"@ + g.impl_params() + " "@ + trait_text + " for "@ + name + g.type_args() + g.where_suffix()
}

/// The characters of an optional string.
pub open spec fn opt_view(o: Option<String>) -> Option<Seq<char>> {
    match o {
        Some(s) => Some(s@),
        None => None,
    }
}

/// The generic signature of the annotated type.
#[derive(Debug)]
pub struct Generics {
    params: Vec<GenericParam>,
    where_clause: Option<String>,
}

impl View for Generics {
    type V = GenericsModel;

    closed spec fn view(&self) -> GenericsModel {
        GenericsModel { params: self.params@, where_clause: opt_view(self.where_clause) }
    }
}

fn render_with_bounds(p: &GenericParam) -> (r: String)
    ensures
        r@ == param_with_bounds(*p),
{
    match p {
        GenericParam::Type { name, bounds } | GenericParam::Lifetime { name, bounds } => {
            if bounds.len() == 0 {
                name.clone()
            } else {
                let mut r = name.clone();
                r.append(": ");
                let b = join_strings(bounds, " + ");
                r.append(b.as_str());
                r
            }
        },
        GenericParam::Const { name, ty } => {
            let mut r = String::from_str("const ");
            r.append(name.as_str());
            r.append(": ");
            r.append(ty.as_str());
            r
        },
    }
}

fn render_name(p: &GenericParam) -> (r: String)
    ensures
        r@ == param_name(*p),
{
    match p {
        GenericParam::Type { name, .. } => name.clone(),
        GenericParam::Lifetime { name, .. } => name.clone(),
        GenericParam::Const { name, .. } => name.clone(),
    }
}

fn angle(parts: &Vec<String>) -> (r: String)
    ensures
        r@ == "<"@ + join(views(parts@), ", "@) + ">"@,
{
    let mut r = String::from_str("<");
    let j = join_strings(parts, ", ");
    r.append(j.as_str());
    r.append(">");
    r
}

impl Generics {
    /// Generics with the given parameters and `where` clause (its text
    /// starts with `where`).
    pub fn new(params: Vec<GenericParam>, where_clause: Option<String>) -> (r: Generics)
        ensures
            r@.params == params@,
            r@.where_clause == opt_view(where_clause),
    {
        Generics { params, where_clause }
    }

    /// The parameter list with bounds, e.g. `<A: Display, B: Debug>`;
    /// `None` when there are no parameters.
    pub fn with_bounds(&self) -> (r: Option<String>)
        ensures
            opt_view(r) == self@.bounded(),
    {
        if self.params.len() == 0 {
            return None;
        }
        let mut parts: Vec<String> = Vec::new();
        let n = self.params.len();
        for i in 0..n
            invariant
                n == self.params@.len(),
                parts@.len() == i,
                forall|k: int| 0 <= k < i ==> #[trigger] parts@[k]@ == param_with_bounds(self.params@[k]),
        {
            parts.push(render_with_bounds(&self.params[i]));
        }
        let r = angle(&parts);
        assert(views(parts@) =~= self.params@.map_values(|p: GenericParam| param_with_bounds(p)));
        Some(r)
    }

    /// The parameter list without bounds, e.g. `<A, B>`; `None` when there
    /// are no parameters.
    pub fn without_bounds(&self) -> (r: Option<String>)
        ensures
            opt_view(r) == self@.unbounded(),
    {
        if self.params.len() == 0 {
            return None;
        }
        let mut parts: Vec<String> = Vec::new();
        let n = self.params.len();
        for i in 0..n
            invariant
                n == self.params@.len(),
                parts@.len() == i,
                forall|k: int| 0 <= k < i ==> #[trigger] parts@[k]@ == param_name(self.params@[k]),
        {
            parts.push(render_name(&self.params[i]));
        }
        let r = angle(&parts);
        assert(views(parts@) =~= self.params@.map_values(|p: GenericParam| param_name(p)));
        Some(r)
    }

    /// The `where` clause as declared, if there is one.
    pub fn where_clause(&self) -> (r: Option<&String>)
        ensures
            match r {
                Some(w) => self@.where_clause == Some(w@),
                None => self@.where_clause is None,
            },
    {
        self.where_clause.as_ref()
    }
}

/// The head of an impl of `trait_text` for the type `name` with generics `g`.
pub(crate) fn impl_header(g: &Generics, trait_text: &str, name: &str) -> (r: String)
    ensures
        r@ == impl_head(g@, trait_text@, name@),
{
    let mut r = String::from_str("impl");
    match g.with_bounds() {
        Some(b) => r.append(b.as_str()),
        None => {},
    }
    r.append(" ");
    r.append(trait_text);
    r.append(" for ");
    r.append(name);
    match g.without_bounds() {
        Some(b) => r.append(b.as_str()),
        None => {},
    }
    match g.where_clause() {
        Some(w) => {
            r.append(" ");
            r.append(w.as_str());
        },
        None => {},
    }
    assert(r@ =~= impl_head(g@, trait_text@, name@));
    r
}

} // verus!
