use vstd::prelude::*;

use crate::model::Function;
use crate::model::Implementation;
use crate::model::Info;
use crate::model::InfoV;
use crate::model::Output;
use crate::model::lemma_view_functions_index;
use crate::model::lemma_view_impls_index;
use crate::model::lemma_view_outputs_index;
use crate::model::view_function;
use crate::model::view_functions;
use crate::model::view_impl;
use crate::model::view_impls;
use crate::model::view_info;
use crate::model::view_output;
use crate::model::view_outputs;

verus! {

/// Whether two extracted methods carry the same model.
fn method_eq(a: &Function, b: &Function) -> (r: bool)
    ensures
        r == (view_function(*a) == view_function(*b)),
{
    a.name == b.name && a.doc == b.doc && a.signature == b.signature && a.is_method == b.is_method
}

/// Whether two method sequences agree from position `k` on.
fn methods_eq_at(a: &Vec<Function>, b: &Vec<Function>, k: usize) -> (r: bool)
    requires
        a@.len() == b@.len(),
    ensures
        r == (forall|j: int|
            k <= j < a@.len() ==> view_function(a@[j]) == view_function(b@[j])),
    decreases a@.len() - k,
{
    if k >= a.len() {
        true
    } else {
        if method_eq(&a[k], &b[k]) {
            methods_eq_at(a, b, k + 1)
        } else {
            false
        }
    }
}

/// Whether two method lists carry the same model.
fn methods_eq(a: &Vec<Function>, b: &Vec<Function>) -> (r: bool)
    ensures
        r == (view_functions(a@) == view_functions(b@)),
{
    proof {
        lemma_view_functions_index(a@, 0);
        lemma_view_functions_index(b@, 0);
    }
    if a.len() != b.len() {
        return false;
    }
    let r = methods_eq_at(a, b, 0);
    proof {
        if r {
            assert forall|j: int| 0 <= j < a@.len() implies view_functions(a@)[j]
                == view_functions(b@)[j] by {
                lemma_view_functions_index(a@, j);
                lemma_view_functions_index(b@, j);
            }
            assert(view_functions(a@) =~= view_functions(b@));
        } else {
            let j = choose|j: int|
                0 <= j < a@.len() && view_function(a@[j]) != view_function(b@[j]);
            lemma_view_functions_index(a@, j);
            lemma_view_functions_index(b@, j);
        }
    }
    r
}

/// Whether two extensions carry the same model.
fn impl_eq(a: &Implementation, b: &Implementation) -> (r: bool)
    ensures
        r == (view_impl(*a) == view_impl(*b)),
{
    a.signature == b.signature && methods_eq(&a.functions, &b.functions)
}

/// Whether two extension sequences agree from position `k` on.
fn impls_eq_at(a: &Vec<Implementation>, b: &Vec<Implementation>, k: usize) -> (r: bool)
    requires
        a@.len() == b@.len(),
    ensures
        r == (forall|j: int| k <= j < a@.len() ==> view_impl(a@[j]) == view_impl(b@[j])),
    decreases a@.len() - k,
{
    if k >= a.len() {
        true
    } else {
        if impl_eq(&a[k], &b[k]) {
            impls_eq_at(a, b, k + 1)
        } else {
            false
        }
    }
}

/// Whether two extension lists carry the same model.
fn impls_eq(a: &Vec<Implementation>, b: &Vec<Implementation>) -> (r: bool)
    ensures
        r == (view_impls(a@) == view_impls(b@)),
{
    proof {
        lemma_view_impls_index(a@, 0);
        lemma_view_impls_index(b@, 0);
    }
    if a.len() != b.len() {
        return false;
    }
    let r = impls_eq_at(a, b, 0);
    proof {
        if r {
            assert forall|j: int| 0 <= j < a@.len() implies view_impls(a@)[j] == view_impls(b@)[j]
                by {
                lemma_view_impls_index(a@, j);
                lemma_view_impls_index(b@, j);
            }
            assert(view_impls(a@) =~= view_impls(b@));
        } else {
            let j = choose|j: int| 0 <= j < a@.len() && view_impl(a@[j]) != view_impl(b@[j]);
            lemma_view_impls_index(a@, j);
            lemma_view_impls_index(b@, j);
        }
    }
    r
}

/// Whether two declaration payloads carry the same model.
pub fn info_eq(a: &Info, b: &Info) -> (r: bool)
    ensures
        r == (view_info(*a) == view_info(*b)),
    decreases *a, 0int, 0int,
{
    match (a, b) {
        (Info::Function { signature: s1 }, Info::Function { signature: s2 }) => *s1 == *s2,
        (Info::Module { content: c1 }, Info::Module { content: c2 }) => outputs_eq(c1, c2),
        (
            Info::Struct { signature: s1, additional_doc: d1, implementations: i1 },
            Info::Struct { signature: s2, additional_doc: d2, implementations: i2 },
        ) => *s1 == *s2 && *d1 == *d2 && impls_eq(i1, i2),
        (
            Info::Trait {
                signature: s1,
                additional_doc: d1,
                required_methods: r1,
                provided_methods: p1,
                implementations: i1,
            },
            Info::Trait {
                signature: s2,
                additional_doc: d2,
                required_methods: r2,
                provided_methods: p2,
                implementations: i2,
            },
        ) => *s1 == *s2 && *d1 == *d2 && methods_eq(r1, r2) && methods_eq(p1, p2) && impls_eq(
            i1,
            i2,
        ),
        (Info::Blanc, Info::Blanc) => true,
        _ => false,
    }
}

/// Whether two declarations carry the same model.
fn output_eq(a: &Output, b: &Output) -> (r: bool)
    ensures
        r == (view_output(*a) == view_output(*b)),
    decreases *a, 0int, 0int,
{
    a.kind == b.kind && a.name == b.name && a.doc == b.doc && info_eq(
        &a.information,
        &b.information,
    )
}

/// Whether two declaration sequences agree from position `k` on.
fn outputs_eq_at(a: &Vec<Output>, b: &Vec<Output>, k: usize) -> (r: bool)
    requires
        a@.len() == b@.len(),
    ensures
        r == (forall|j: int| k <= j < a@.len() ==> view_output(a@[j]) == view_output(b@[j])),
    decreases a@, a@.len() - k, 0int,
{
    if k >= a.len() {
        true
    } else {
        if output_eq(&a[k], &b[k]) {
            outputs_eq_at(a, b, k + 1)
        } else {
            false
        }
    }
}

/// Whether two declaration lists carry the same model.
fn outputs_eq(a: &Vec<Output>, b: &Vec<Output>) -> (r: bool)
    ensures
        r == (view_outputs(a@) == view_outputs(b@)),
    decreases a@, a@.len() + 1, 0int,
{
    proof {
        lemma_view_outputs_index(a@, 0);
        lemma_view_outputs_index(b@, 0);
    }
    if a.len() != b.len() {
        return false;
    }
    let r = outputs_eq_at(a, b, 0);
    proof {
        if r {
            assert forall|j: int| 0 <= j < a@.len() implies view_outputs(a@)[j] == view_outputs(
                b@,
            )[j] by {
                lemma_view_outputs_index(a@, j);
                lemma_view_outputs_index(b@, j);
            }
            assert(view_outputs(a@) =~= view_outputs(b@));
        } else {
            let j = choose|j: int| 0 <= j < a@.len() && view_output(a@[j]) != view_output(b@[j]);
            lemma_view_outputs_index(a@, j);
            lemma_view_outputs_index(b@, j);
        }
    }
    r
}

// ---------------------------------------------------------------------------
// The derived lookup structure
// ---------------------------------------------------------------------------

/// A mapping from each declaration's payload to its doc text, content
/// addressed: inserting under a payload equal to one already present
/// replaces that entry's doc text.
#[derive(Debug, PartialEq, Eq)]
pub struct DocMap {
    entries: Vec<(Info, String)>,
}

/// The model of the mapping's entries.
pub open spec fn view_entries(s: Seq<(Info, String)>) -> Seq<(InfoV, Seq<char>)>
    decreases s.len(),
{
    if s.len() == 0 {
        Seq::empty()
    } else {
        seq![(view_info(s[0].0), s[0].1@)] + view_entries(s.drop_first())
    }
}

/// Insertion into the model: a pair whose key equals an existing key
/// replaces that entry in place; a new key is appended.
pub open spec fn spec_insert(
    m: Seq<(InfoV, Seq<char>)>,
    k: InfoV,
    v: Seq<char>,
) -> Seq<(InfoV, Seq<char>)>
    decreases m.len(),
{
    if m.len() == 0 {
        seq![(k, v)]
    } else if m[0].0 == k {
        seq![(k, v)] + m.drop_first()
    } else {
        seq![m[0]] + spec_insert(m.drop_first(), k, v)
    }
}

fn insert_entries(m: Vec<(Info, String)>, k: Info, v: String) -> (r: Vec<(Info, String)>)
    ensures
        view_entries(r@) == spec_insert(view_entries(m@), view_info(k), v@),
    decreases m@.len(),
{
    let mut m = m;
    if m.len() == 0 {
        let ghost m0 = m@;
        m.push((k, v));
        proof {
            reveal_with_fuel(view_entries, 2);
            assert(m@ =~= seq![(k, v)]);
            assert(m@.drop_first().len() == 0);
        }
        m
    } else {
        let first = m.remove(0);
        let ghost m1 = m@;
        proof {
            assert(m1 =~= (seq![first] + m1).drop_first());
        }
        if info_eq(&first.0, &k) {
            let ghost m2 = m1;
            m.insert(0, (k, v));
            proof {
                assert(m@ =~= seq![(k, v)] + m2);
                assert((seq![(k, v)] + m2).drop_first() =~= m2);
                assert(view_entries(seq![first] + m2).drop_first() =~= view_entries(m2));
            }
            m
        } else {
            let mut rest = insert_entries(m, k, v);
            let ghost rest1 = rest@;
            rest.insert(0, first);
            proof {
                assert(rest@ =~= seq![first] + rest1);
                assert((seq![first] + rest1).drop_first() =~= rest1);
                assert(view_entries(seq![first] + m1).drop_first() =~= view_entries(m1));
            }
            rest
        }
    }
}

impl View for DocMap {
    type V = Seq<(InfoV, Seq<char>)>;

    closed spec fn view(&self) -> Seq<(InfoV, Seq<char>)> {
        view_entries(self.entries@)
    }
}

impl DocMap {
    /// An empty mapping.
    pub fn new() -> (r: DocMap)
        ensures
            r@ =~= Seq::<(InfoV, Seq<char>)>::empty(),
    {
        DocMap { entries: Vec::new() }
    }

    /// Maps `key` to `value`, replacing the doc text of an entry whose
    /// payload equals `key` if one is present.
    pub fn insert(&mut self, key: Info, value: String)
        ensures
            final(self)@ == spec_insert(old(self)@, view_info(key), value@),
    {
        let mut entries = Vec::new();
        core::mem::swap(&mut entries, &mut self.entries);
        self.entries = insert_entries(entries, key, value);
    }

    /// The number of entries held.
    pub fn len(&self) -> (r: usize)
        ensures
            r == self@.len(),
    {
        proof {
            lemma_view_entries_len(self.entries@);
        }
        self.entries.len()
    }
}

proof fn lemma_view_entries_len(s: Seq<(Info, String)>)
    ensures
        view_entries(s).len() == s.len(),
    decreases s.len(),
{
    if s.len() > 0 {
        lemma_view_entries_len(s.drop_first());
    }
}

} // verus!
