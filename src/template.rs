//! Display templates: text with `{}` slots, where `{{` and `}}` stand for
//! a literal brace.

use vstd::prelude::*;
use crate::text::{chars_of, push_char, views};

verus! {

/// Every brace of `t` belongs to a slot `{}` or to an escape `{{` / `}}`.
pub open spec fn well_formed(t: Seq<char>) -> bool
    decreases t.len(),
{
    if t.len() == 0 {
        true
    } else if t[0] == '{' {
        t.len() >= 2 && (t[1] == '{' || t[1] == '}') && well_formed(t.skip(2))
    } else if t[0] == '}' {
        t.len() >= 2 && t[1] == '}' && well_formed(t.skip(2))
    } else {
        well_formed(t.skip(1))
    }
}

/// Number of slots `{}` in `t`, read from the left.
pub open spec fn slot_count(t: Seq<char>) -> nat
    decreases t.len(),
{
    if t.len() < 2 {
        0
    } else if t[0] == '{' && t[1] == '}' {
        1 + slot_count(t.skip(2))
    } else if (t[0] == '{' && t[1] == '{') || (t[0] == '}' && t[1] == '}') {
        slot_count(t.skip(2))
    } else {
        slot_count(t.skip(1))
    }
}

/// `t` with its slots replaced by `fields` in order, and each escape by the
/// brace it stands for.
pub open spec fn fill(t: Seq<char>, fields: Seq<Seq<char>>) -> Seq<char>
    decreases t.len(),
{
    if t.len() == 0 {
        Seq::empty()
    } else if t.len() >= 2 && t[0] == '{' && t[1] == '}' {
        fields[0] + fill(t.skip(2), fields.drop_first())
    } else if t.len() >= 2 && ((t[0] == '{' && t[1] == '{') || (t[0] == '}' && t[1] == '}')) {
        seq![t[0]] + fill(t.skip(2), fields)
    } else {
        seq![t[0]] + fill(t.skip(1), fields)
    }
}

/// Whether `t` is a template with exactly `k` slots.
pub open spec fn template_fits(t: Seq<char>, k: nat) -> bool {
    well_formed(t) && slot_count(t) == k
}

/// Whether `t` is well formed with exactly `k` slots.
pub fn template_has_slots(t: &str, k: usize) -> (r: bool)
    ensures
        r == template_fits(t@, k as nat),
{
    let cs = chars_of(t);
    let n = cs.len();
    let mut i: usize = 0;
    let mut count: usize = 0;
    assert(t@.skip(0) =~= t@);
    while i < n
        invariant
            n == cs@.len(),
            cs@ == t@,
            i <= n,
            count <= i,
            well_formed(t@) == well_formed(t@.skip(i as int)),
            slot_count(t@) == count + slot_count(t@.skip(i as int)),
        decreases n - i,
    {
        let ghost rest = t@.skip(i as int);
        let c = cs[i];
        if c == '{' || c == '}' {
            if i + 1 >= n {
                assert(!well_formed(rest));
                return false;
            }
            let d = cs[i + 1];
            assert(rest[0] == c && rest[1] == d);
            assert(rest.skip(2) =~= t@.skip(i + 2));
            if c == '{' && d == '}' {
                count = count + 1;
            } else if d != c {
                assert(!well_formed(rest));
                return false;
            }
            i = i + 2;
        } else {
            assert(rest.skip(1) =~= t@.skip(i + 1));
            i = i + 1;
        }
    }
    assert(t@.skip(i as int).len() == 0);
    count == k
}

/// `t` with its slots replaced by `fields` in order.
pub fn fill_template(t: &str, fields: &Vec<String>) -> (r: String)
    requires
        template_fits(t@, fields@.len()),
    ensures
        r@ == fill(t@, views(fields@)),
{
    let cs = chars_of(t);
    let n = cs.len();
    let mut i: usize = 0;
    let mut j: usize = 0;
    let mut r = String::new();
    let ghost fs = views(fields@);
    let m = fields.len();
    assert(t@.skip(0) =~= t@);
    assert(fs.skip(0) =~= fs);
    while i < n
        invariant
            n == cs@.len(),
            cs@ == t@,
            fs == views(fields@),
            m == fields@.len(),
            i <= n,
            well_formed(t@.skip(i as int)),
            j + slot_count(t@.skip(i as int)) == fields@.len(),
            r@ + fill(t@.skip(i as int), fs.skip(j as int)) == fill(t@, fs),
        decreases n - i,
    {
        let ghost rest = t@.skip(i as int);
        let ghost fr = fs.skip(j as int);
        let c = cs[i];
        assert(rest[0] == c);
        if c == '{' || c == '}' {
            let d = cs[i + 1];
            assert(rest[1] == d);
            assert(rest.skip(2) =~= t@.skip(i + 2));
            if c == '{' && d == '}' {
                assert(fr.drop_first() =~= fs.skip(j + 1));
                assert(slot_count(rest) == 1 + slot_count(rest.skip(2)));
                assert(fr[0] == fields@[j as int]@);
                r.append(fields[j].as_str());
                j = j + 1;
            } else {
                push_char(&mut r, c);
            }
            i = i + 2;
        } else {
            assert(rest.skip(1) =~= t@.skip(i + 1));
            push_char(&mut r, c);
            i = i + 1;
        }
        assert(r@ + fill(t@.skip(i as int), fs.skip(j as int)) =~= fill(t@, fs));
    }
    assert(fill(t@.skip(i as int), fs.skip(j as int)) =~= Seq::<char>::empty());
    assert(r@ =~= fill(t@, fs));
    r
}

/// `t` holds no brace.
pub open spec fn brace_free(t: Seq<char>) -> bool {
    forall|i: int| 0 <= i < t.len() ==> #[trigger] t[i] != '{' && t[i] != '}'
}

/// The template whose literal parts are `pieces`, with a slot between
/// neighbours.
pub open spec fn slotted(pieces: Seq<Seq<char>>) -> Seq<char>
    decreases pieces.len(),
{
    if pieces.len() <= 1 {
        if pieces.len() == 0 { Seq::empty() } else { pieces[0] }
    } else {
        pieces[0] + "{}"@ + slotted(pieces.drop_first())
    }
}

/// `pieces` with the fields between neighbours, in order.
pub open spec fn interleave(pieces: Seq<Seq<char>>, fields: Seq<Seq<char>>) -> Seq<char>
    decreases pieces.len(),
{
    if pieces.len() <= 1 {
        if pieces.len() == 0 { Seq::empty() } else { pieces[0] }
    } else {
        pieces[0] + fields[0] + interleave(pieces.drop_first(), fields.drop_first())
    }
}

proof fn lemma_plain_prefix(p: Seq<char>, x: Seq<char>, fields: Seq<Seq<char>>)
    requires
        brace_free(p),
    ensures
        fill(p + x, fields) == p + fill(x, fields),
        well_formed(p + x) == well_formed(x),
        slot_count(p + x) == slot_count(x),
    decreases p.len(),
{
    if p.len() == 0 {
        assert(p + x =~= x);
    } else {
        let t = p + x;
        assert(t[0] == p[0]);
        assert(t.skip(1) =~= p.skip(1) + x);
        lemma_plain_prefix(p.skip(1), x, fields);
        if t.len() >= 2 {
            assert(slot_count(t) == slot_count(t.skip(1)));
        }
        assert(p + fill(x, fields) =~= seq![p[0]] + (p.skip(1) + fill(x, fields)));
    }
}

proof fn lemma_slot_text()
    ensures
        "{}"@ == seq!['{', '}'],
{
    reveal_strlit("{}");
}

/// A template written as literal parts without braces, with a slot between
/// neighbours, has one slot fewer than it has parts; filling it puts each
/// field, in order, where its slot stood.
pub proof fn lemma_fill_slotted(pieces: Seq<Seq<char>>, fields: Seq<Seq<char>>)
    requires
        pieces.len() == fields.len() + 1,
        forall|i: int| 0 <= i < pieces.len() ==> brace_free(#[trigger] pieces[i]),
    ensures
        template_fits(slotted(pieces), fields.len()),
        fill(slotted(pieces), fields) == interleave(pieces, fields),
    decreases pieces.len(),
{
    if pieces.len() == 1 {
        lemma_plain_prefix(pieces[0], Seq::empty(), fields);
        assert(pieces[0] + Seq::<char>::empty() =~= pieces[0]);
        assert(pieces[0] + fill(Seq::empty(), fields) =~= pieces[0]);
    } else {
        let rest = pieces.drop_first();
        let frest = fields.drop_first();
        assert forall|i: int| 0 <= i < rest.len() implies brace_free(#[trigger] rest[i]) by {
            assert(rest[i] == pieces[i + 1]);
        }
        lemma_fill_slotted(rest, frest);
        let tail = slotted(rest);
        let x = "{}"@ + tail;
        lemma_slot_text();
        assert(pieces[0] + "{}"@ + tail =~= pieces[0] + x);
        lemma_plain_prefix(pieces[0], x, fields);
        assert(x.skip(2) =~= tail);
        assert(x[0] == '{' && x[1] == '}');
        assert(fill(x, fields) == fields[0] + fill(tail, frest));
        assert(pieces[0] + (fields[0] + interleave(rest, frest)) =~= pieces[0] + fields[0]
            + interleave(rest, frest));
    }
}

} // verus!
