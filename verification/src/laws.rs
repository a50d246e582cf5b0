use vstd::prelude::*;

use crate::api::spec_fold_map;
use crate::docmap::spec_insert;
use crate::extract::lookup_unit;
use crate::extract::module_output;
use crate::extract::spec_outputs_from;
use crate::extract::spec_step;
use crate::extract::spec_to_output;
use crate::impls::impl_body;
use crate::impls::impl_header;
use crate::impls::impls_scan;
use crate::impls::is_name_match;
use crate::model::DocErrorV;
use crate::model::InfoV;
use crate::model::ImplV;
use crate::model::MethodV;
use crate::model::OutputV;
use crate::scan::find_close;
use crate::sigs::clamp_after;
use crate::sigs::provided_of;
use crate::sigs::required_of;
use crate::sigs::struct_fields;
use crate::sigs::trait_body;
use crate::sigs::TraitOcc;
use crate::token::is_decl_boundary;
use crate::token::tok_text;
use crate::token::Tok;

verus! {

// ---------------------------------------------------------------------------
// Determinism
// ---------------------------------------------------------------------------

/// Re-running extraction on the same unmodified unit yields structurally
/// identical document trees: the result is a function of the token sequence
/// and the available units alone, so any two successful runs agree.
pub proof fn lemma_extraction_deterministic(
    toks: Seq<Tok>,
    units: Seq<(String, Vec<Tok>)>,
    depth: nat,
    v1: Seq<OutputV>,
    v2: Seq<OutputV>,
)
    requires
        spec_to_output(toks, units, depth) == Ok::<Seq<OutputV>, DocErrorV>(v1),
        spec_to_output(toks, units, depth) == Ok::<Seq<OutputV>, DocErrorV>(v2),
    ensures
        v1 == v2,
{
}

// ---------------------------------------------------------------------------
// Units without declarations
// ---------------------------------------------------------------------------

/// True of the tokens the main scan reacts to: declaration-introducing
/// keywords, extension keywords, and outer comments.
pub open spec fn is_scan_trigger(t: Tok) -> bool {
    is_decl_boundary(t) || t is DocOuter
}

proof fn lemma_quiet_scan_from(
    toks: Seq<Tok>,
    units: Seq<(String, Vec<Tok>)>,
    depth: nat,
    i: int,
    first: bool,
)
    requires
        0 <= i,
        forall|j: int| 0 <= j < toks.len() ==> !is_scan_trigger(#[trigger] toks[j]),
    ensures
        spec_outputs_from(toks, units, depth, i, first) == Ok::<Seq<OutputV>, DocErrorV>(
            Seq::empty(),
        ),
    decreases toks.len() - i,
{
    if i < toks.len() {
        assert(!is_scan_trigger(toks[i]));
        assert(spec_step(toks, units, depth, i, first) == Ok::<
            (Option<OutputV>, int, bool),
            DocErrorV,
        >((None, i + 1, first)));
        lemma_quiet_scan_from(toks, units, depth, i + 1, first);
    }
}

/// A source unit with no declarations extracts to an empty document tree,
/// with no error: a scan over tokens none of which introduce a declaration,
/// an extension or an outer comment emits nothing and never fails.
pub proof fn lemma_empty_tree_without_declarations(
    toks: Seq<Tok>,
    units: Seq<(String, Vec<Tok>)>,
    depth: nat,
)
    requires
        forall|j: int| 0 <= j < toks.len() ==> !is_scan_trigger(#[trigger] toks[j]),
    ensures
        spec_to_output(toks, units, depth) == Ok::<Seq<OutputV>, DocErrorV>(Seq::empty()),
{
    lemma_quiet_scan_from(toks, units, depth, 0, true);
}

// ---------------------------------------------------------------------------
// Module recursion
// ---------------------------------------------------------------------------

/// A module declared with a terminator recurses into the separate unit
/// registered under its name: the children of the emitted declaration are
/// exactly the declarations extracted from that unit, in their order.
pub proof fn lemma_module_children_file(
    toks: Seq<Tok>,
    units: Seq<(String, Vec<Tok>)>,
    depth: nat,
    i: int,
    first: bool,
    utoks: Seq<Tok>,
    cs: Seq<OutputV>,
)
    requires
        0 <= i,
        i + 2 < toks.len(),
        toks[i] is KwMod,
        toks[i + 1] is Ident,
        toks[i + 2] is Semi,
        depth > 0,
        lookup_unit(units, 0, tok_text(toks[i + 1])) == Some(utoks),
        spec_to_output(utoks, units, (depth - 1) as nat) == Ok::<Seq<OutputV>, DocErrorV>(cs),
    ensures
        spec_step(toks, units, depth, i, first) == Ok::<(Option<OutputV>, int, bool), DocErrorV>(
            (Some(module_output(toks, i, cs)), i + 1, first),
        ),
{
    reveal_with_fuel(crate::extract::find_mod_body, 4);
    assert(crate::extract::find_mod_body(toks, i) == Some((true, i + 2)));
}

/// A module declared with an inline brace-delimited body recurses into the
/// slice between its braces: the children of the emitted declaration are
/// exactly the declarations extracted from that slice, in their order.
pub proof fn lemma_module_children_inline(
    toks: Seq<Tok>,
    units: Seq<(String, Vec<Tok>)>,
    depth: nat,
    i: int,
    first: bool,
    e: int,
    cs: Seq<OutputV>,
)
    requires
        0 <= i,
        i + 2 < toks.len(),
        toks[i] is KwMod,
        toks[i + 1] is Ident,
        toks[i + 2] is LBrace,
        depth > 0,
        find_close(toks, i + 3, 1) == Some(e),
        spec_to_output(toks.subrange(i + 3, e - 1), units, (depth - 1) as nat) == Ok::<
            Seq<OutputV>,
            DocErrorV,
        >(cs),
    ensures
        spec_step(toks, units, depth, i, first) == Ok::<(Option<OutputV>, int, bool), DocErrorV>(
            (Some(module_output(toks, i, cs)), clamp_after(toks, i, e), first),
        ),
{
    reveal_with_fuel(crate::extract::find_mod_body, 4);
    assert(crate::extract::find_mod_body(toks, i) == Some((false, i + 2)));
}

// ---------------------------------------------------------------------------
// Structs without visible fields
// ---------------------------------------------------------------------------

/// A struct with no publicly visible fields renders with the hidden-fields
/// placeholder: when no visibility marker stands between the scan position
/// and the brace that closes the field block, the rendered field part is
/// exactly the placeholder line and the closing brace.
pub proof fn lemma_private_struct_placeholder(toks: Seq<Tok>, j: int, r: int)
    requires
        0 <= j <= r < toks.len(),
        toks[r] is RBrace,
        forall|k: int| j <= k < r ==> !(#[trigger] toks[k] is KwPub) && !(toks[k] is RBrace),
    ensures
        struct_fields(toks, j, true) == Some("/* private fields */"@ + "\n}"@),
    decreases r - j,
{
    if j < r {
        assert(!(toks[j] is KwPub) && !(toks[j] is RBrace));
        lemma_private_struct_placeholder(toks, j + 1, r);
    }
}

// ---------------------------------------------------------------------------
// Extension matching
// ---------------------------------------------------------------------------

/// Whether `needle` occurs contiguously inside `hay`.
pub open spec fn contains_seq(hay: Seq<char>, needle: Seq<char>) -> bool {
    exists|off: int|
        0 <= off && off + needle.len() <= hay.len() && #[trigger] hay.subrange(
            off,
            off + needle.len(),
        ) == needle
}

proof fn lemma_contains_head(hay: Seq<char>, needle: Seq<char>)
    requires
        needle.len() <= hay.len(),
        hay.subrange(0, needle.len() as int) == needle,
    ensures
        contains_seq(hay, needle),
{
    assert(hay.subrange(0, 0 + needle.len() as int) == needle);
}

proof fn lemma_contains_extend(prefix: Seq<char>, rest: Seq<char>, needle: Seq<char>)
    requires
        contains_seq(rest, needle),
    ensures
        contains_seq(prefix + rest, needle),
{
    let off = choose|off: int|
        0 <= off && off + needle.len() <= rest.len() && #[trigger] rest.subrange(
            off,
            off + needle.len(),
        ) == needle;
    let p = prefix.len() as int;
    assert((prefix + rest).subrange(p + off, p + off + needle.len()) =~= rest.subrange(
        off,
        off + needle.len(),
    ));
}

proof fn lemma_impl_header_match(toks: Seq<Tok>, j: int, name: Seq<char>)
    requires
        impl_header(toks, j, name) matches Some((t, m, b)) && m,
    ensures
        impl_header(toks, j, name) matches Some((t, m, b)) && contains_seq(t, name),
    decreases toks.len() - j,
{
    let (t, m, b) = impl_header(toks, j, name)->Some_0;
    let (t2, m2, b2) = impl_header(toks, j + 1, name)->Some_0;
    assert(t == tok_text(toks[j]) + " "@ + t2);
    if is_name_match(toks[j], name) {
        assert(t.subrange(0, name.len() as int) =~= name);
        lemma_contains_head(t, name);
    } else {
        lemma_impl_header_match(toks, j + 1, name);
        lemma_contains_extend(tok_text(toks[j]) + " "@, t2, name);
    }
}

/// Extensions whose header does not textually name the owning type are
/// never present in that type's extensions: every extension the matcher
/// keeps has the type's name contiguously inside its header text.
pub proof fn lemma_extensions_name_type(toks: Seq<Tok>, j: int, name: Seq<char>, ims: Seq<ImplV>)
    requires
        impls_scan(toks, j, name) == Some(ims),
    ensures
        forall|k: int| 0 <= k < ims.len() ==> contains_seq(#[trigger] ims[k].signature, name),
    decreases toks.len() - j, 1int,
{
    if j < 0 || j >= toks.len() {
    } else if toks[j] is KwImpl {
        let (htext, matched, b) = impl_header(toks, j, name)->Some_0;
        if !matched {
            lemma_extensions_name_type(toks, clamp_after(toks, j, b), name, ims);
        } else {
            let (ms, e) = impl_body(toks, b + 1, 1)->Some_0;
            let rest = impls_scan(toks, clamp_after(toks, j, e), name)->Some_0;
            lemma_extensions_name_type(toks, clamp_after(toks, j, e), name, rest);
            lemma_impl_header_match(toks, j, name);
            assert(ims == seq![ImplV { signature: htext, functions: ms }] + rest);
            assert forall|k: int| 0 <= k < ims.len() implies contains_seq(
                #[trigger] ims[k].signature,
                name,
            ) by {
                if k > 0 {
                    assert(ims[k] == rest[k - 1]);
                }
            }
        }
    } else {
        lemma_extensions_name_type(toks, j + 1, name, ims);
    }
}

// ---------------------------------------------------------------------------
// The derived mapping collapses equal payloads
// ---------------------------------------------------------------------------

/// No two entries of a mapping carry equal keys.
pub open spec fn unique_keys(m: Seq<(InfoV, Seq<char>)>) -> bool {
    forall|a: int, b: int| 0 <= a < b < m.len() ==> (#[trigger] m[a]).0 != (#[trigger] m[b]).0
}

/// Every key of an inserted-into mapping is the inserted key or one that
/// was already present.
proof fn lemma_insert_keys(m: Seq<(InfoV, Seq<char>)>, k: InfoV, v: Seq<char>)
    ensures
        forall|j: int|
            0 <= j < spec_insert(m, k, v).len() ==> (#[trigger] spec_insert(m, k, v)[j]).0 == k
                || exists|j2: int| 0 <= j2 < m.len() && (#[trigger] m[j2]).0 == spec_insert(
                m,
                k,
                v,
            )[j].0,
    decreases m.len(),
{
    if m.len() == 0 {
    } else if m[0].0 == k {
        assert forall|j: int| 0 <= j < spec_insert(m, k, v).len() implies (#[trigger] spec_insert(
            m,
            k,
            v,
        )[j]).0 == k || exists|j2: int|
            0 <= j2 < m.len() && (#[trigger] m[j2]).0 == spec_insert(m, k, v)[j].0 by {
            if j > 0 {
                assert(spec_insert(m, k, v)[j] == m.drop_first()[j - 1]);
                assert(m[j] == m.drop_first()[j - 1]);
            }
        }
    } else {
        lemma_insert_keys(m.drop_first(), k, v);
        let rest = spec_insert(m.drop_first(), k, v);
        assert forall|j: int| 0 <= j < spec_insert(m, k, v).len() implies (#[trigger] spec_insert(
            m,
            k,
            v,
        )[j]).0 == k || exists|j2: int|
            0 <= j2 < m.len() && (#[trigger] m[j2]).0 == spec_insert(m, k, v)[j].0 by {
            if j == 0 {
                assert(m[0].0 == spec_insert(m, k, v)[0].0);
            } else {
                assert(spec_insert(m, k, v)[j] == rest[j - 1]);
                if rest[j - 1].0 != k {
                    let j2 = choose|j2: int|
                        0 <= j2 < m.drop_first().len() && (#[trigger] m.drop_first()[j2]).0
                            == rest[j - 1].0;
                    assert(m[j2 + 1].0 == rest[j - 1].0);
                }
            }
        }
    }
}

/// Insertion keeps the keys of a mapping pairwise distinct.
proof fn lemma_insert_unique(m: Seq<(InfoV, Seq<char>)>, k: InfoV, v: Seq<char>)
    requires
        unique_keys(m),
    ensures
        unique_keys(spec_insert(m, k, v)),
    decreases m.len(),
{
    if m.len() == 0 {
    } else if m[0].0 == k {
        let r = spec_insert(m, k, v);
        assert forall|a: int, b: int| 0 <= a < b < r.len() implies (#[trigger] r[a]).0 != (
        #[trigger] r[b]).0 by {
            assert(r[b] == m.drop_first()[b - 1]);
            assert(m[b] == m.drop_first()[b - 1]);
            if a > 0 {
                assert(r[a] == m.drop_first()[a - 1]);
                assert(m[a] == m.drop_first()[a - 1]);
            } else {
                assert(r[0].0 == k && m[0].0 == k);
            }
        }
    } else {
        assert(unique_keys(m.drop_first())) by {
            assert forall|a: int, b: int|
                0 <= a < b < m.drop_first().len() implies (#[trigger] m.drop_first()[a]).0 != (
            #[trigger] m.drop_first()[b]).0 by {
                assert(m.drop_first()[a] == m[a + 1] && m.drop_first()[b] == m[b + 1]);
            }
        }
        lemma_insert_unique(m.drop_first(), k, v);
        lemma_insert_keys(m.drop_first(), k, v);
        let rest = spec_insert(m.drop_first(), k, v);
        let r = spec_insert(m, k, v);
        assert forall|a: int, b: int| 0 <= a < b < r.len() implies (#[trigger] r[a]).0 != (
        #[trigger] r[b]).0 by {
            assert(r[b] == rest[b - 1]);
            if a > 0 {
                assert(r[a] == rest[a - 1]);
            } else {
                assert(r[0] == m[0]);
                if rest[b - 1].0 == k {
                } else {
                    let j2 = choose|j2: int|
                        0 <= j2 < m.drop_first().len() && (#[trigger] m.drop_first()[j2]).0
                            == rest[b - 1].0;
                    assert(m[j2 + 1].0 == rest[b - 1].0);
                }
            }
        }
    }
}

/// The derived mapping collapses declarations whose payloads compare
/// equal: folding any declaration sequence into a mapping with pairwise
/// distinct keys leaves the keys pairwise distinct, so each payload maps
/// to at most one doc text.
pub proof fn lemma_fold_map_keys_unique(m: Seq<(InfoV, Seq<char>)>, outs: Seq<OutputV>)
    requires
        unique_keys(m),
    ensures
        unique_keys(spec_fold_map(m, outs)),
    decreases outs.len(),
{
    if outs.len() > 0 {
        lemma_insert_unique(m, outs[0].information, outs[0].doc);
        lemma_fold_map_keys_unique(
            spec_insert(m, outs[0].information, outs[0].doc),
            outs.drop_first(),
        );
    }
}

// ---------------------------------------------------------------------------
// Required and provided trait methods
// ---------------------------------------------------------------------------

/// The occurrence indices of a trait body's methods strictly increase: no
/// occurrence is recorded twice, so a method occurrence classified as
/// required is never also classified as provided, and the other way round.
pub proof fn lemma_trait_occurrences_distinct(toks: Seq<Tok>, j: int)
    requires
        trait_body(toks, j) matches Some(p),
    ensures
        trait_body(toks, j) matches Some(p) && {
            let occs = p.1;
            &&& forall|a: int| 0 <= a < occs.len() ==> j <= #[trigger] occs[a].at
            &&& forall|a: int, b: int| 0 <= a < b < occs.len() ==> occs[a].at < occs[b].at
        },
    decreases toks.len() - j,
{
    let occs = trait_body(toks, j)->Some_0.1;
    if j < 0 || j >= toks.len() {
    } else if toks[j] is RBrace {
    } else if toks[j] is KwFn {
        if j + 1 >= toks.len() {
        } else {
            match toks[j + 1] {
                Tok::Ident(nm) => {
                    let t = crate::scan::find_terminator(toks, j)->Some_0;
                    let r2 = if toks[t] is Semi {
                        clamp_after(toks, j, t + 1)
                    } else {
                        clamp_after(toks, j, find_close(toks, t + 1, 1)->Some_0)
                    };
                    lemma_trait_occurrences_distinct(toks, r2);
                    let rest = trait_body(toks, r2)->Some_0.1;
                    assert forall|a: int| 0 <= a < occs.len() implies j <= #[trigger] occs[a].at
                        by {
                        if a > 0 {
                            assert(occs[a] == rest[a - 1]);
                        }
                    }
                    assert forall|a: int, b: int| 0 <= a < b < occs.len() implies occs[a].at
                        < occs[b].at by {
                        assert(occs[b] == rest[b - 1]);
                        if a > 0 {
                            assert(occs[a] == rest[a - 1]);
                        }
                    }
                },
                _ => {},
            }
        }
    } else {
        lemma_trait_occurrences_distinct(toks, j + 1);
    }
}

/// Every method occurrence of a trait body lands in exactly one of the two
/// projections: the required and provided lists together hold as many
/// methods as there are occurrences, and each element of either list is the
/// method of an occurrence with the matching classification.
pub proof fn lemma_trait_methods_partition(occs: Seq<TraitOcc>)
    ensures
        required_of(occs).len() + provided_of(occs).len() == occs.len(),
        forall|x: MethodV|
            required_of(occs).contains(x) ==> exists|k: int|
                0 <= k < occs.len() && #[trigger] occs[k].required && occs[k].method == x,
        forall|x: MethodV|
            provided_of(occs).contains(x) ==> exists|k: int|
                0 <= k < occs.len() && !(#[trigger] occs[k].required) && occs[k].method == x,
    decreases occs.len(),
{
    if occs.len() > 0 {
        lemma_trait_methods_partition(occs.drop_first());
        let rest = occs.drop_first();
        assert forall|x: MethodV| required_of(occs).contains(x) implies exists|k: int|
            0 <= k < occs.len() && #[trigger] occs[k].required && occs[k].method == x by {
            if occs[0].required && x == occs[0].method {
                assert(occs[0].required && occs[0].method == x);
            } else {
                let i = choose|i: int| 0 <= i < required_of(occs).len() && required_of(occs)[i] == x;
                if occs[0].required {
                    assert(required_of(occs) == seq![occs[0].method] + required_of(rest));
                    assert(required_of(rest).contains(x));
                } else {
                    assert(required_of(occs) == required_of(rest));
                    assert(required_of(rest).contains(x));
                }
                let k = choose|k: int|
                    0 <= k < rest.len() && #[trigger] rest[k].required && rest[k].method == x;
                assert(occs[k + 1].required && occs[k + 1].method == x);
            }
        }
        assert forall|x: MethodV| provided_of(occs).contains(x) implies exists|k: int|
            0 <= k < occs.len() && !(#[trigger] occs[k].required) && occs[k].method == x by {
            if !occs[0].required && x == occs[0].method {
                assert(!occs[0].required && occs[0].method == x);
            } else {
                if !occs[0].required {
                    assert(provided_of(occs) == seq![occs[0].method] + provided_of(rest));
                    assert(provided_of(rest).contains(x));
                } else {
                    assert(provided_of(occs) == provided_of(rest));
                    assert(provided_of(rest).contains(x));
                }
                let k = choose|k: int|
                    0 <= k < rest.len() && !(#[trigger] rest[k].required) && rest[k].method == x;
                assert(!occs[k + 1].required && occs[k + 1].method == x);
            }
        }
    }
}

/// When the method names in a trait body are pairwise distinct, the union
/// of the required and provided lists has no duplicate names: a name never
/// stands in both lists, nor twice in either.
pub proof fn lemma_trait_method_names_disjoint(occs: Seq<TraitOcc>)
    requires
        forall|a: int, b: int|
            0 <= a < b < occs.len() ==> occs[a].method.name != occs[b].method.name,
    ensures
        forall|a: int, b: int|
            0 <= a < required_of(occs).len() && 0 <= b < provided_of(occs).len()
                ==> #[trigger] required_of(occs)[a].name != #[trigger] provided_of(occs)[b].name,
    decreases occs.len(),
{
    lemma_trait_methods_partition(occs);
    assert forall|a: int, b: int|
        0 <= a < required_of(occs).len() && 0 <= b < provided_of(occs).len()
        implies #[trigger] required_of(occs)[a].name != #[trigger] provided_of(occs)[b].name by {
        let x = required_of(occs)[a];
        let y = provided_of(occs)[b];
        assert(required_of(occs).contains(x));
        assert(provided_of(occs).contains(y));
        let k1 = choose|k: int|
            0 <= k < occs.len() && #[trigger] occs[k].required && occs[k].method == x;
        let k2 = choose|k: int|
            0 <= k < occs.len() && !(#[trigger] occs[k].required) && occs[k].method == y;
        assert(k1 != k2);
        if x.name == y.name {
            if k1 < k2 {
                assert(occs[k1].method.name != occs[k2].method.name);
            } else {
                assert(occs[k2].method.name != occs[k1].method.name);
            }
        }
    }
}

} // verus!
