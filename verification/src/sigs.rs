use vstd::prelude::*;

use crate::model::Function;
use crate::model::MethodV;
use crate::model::view_function;
use crate::model::view_functions;
use crate::scan::doc;
use crate::scan::exec_find_close;
use crate::scan::exec_find_open;
use crate::scan::exec_find_terminator;
use crate::scan::exec_join_tokens;
use crate::scan::find_close;
use crate::scan::find_open;
use crate::scan::find_terminator;
use crate::scan::join_tokens;
use crate::scan::lemma_find_open_bounds;
use crate::scan::lemma_find_terminator_bounds;
use crate::scan::spec_doc;
use crate::token::tok_text;
use crate::token::tok_text_str;
use crate::token::Tok;

verus! {

// ---------------------------------------------------------------------------
// Struct signatures
// ---------------------------------------------------------------------------

/// The rendered text of one visibility-marked field run starting at `j`
/// (at the visibility marker itself), together with the index at which the
/// field-block scan resumes: just past a separating comma, or at the closing
/// brace. `None` if the sequence ends first.
pub open spec fn pub_field(toks: Seq<Tok>, j: int) -> Option<(Seq<char>, int)>
    decreases toks.len() - j, 0int,
{
    if j < 0 || j >= toks.len() {
        None
    } else if toks[j] is Comma {
        if j + 1 >= toks.len() {
            None
        } else if toks[j + 1] is RBrace {
            Some((","@, j + 1))
        } else {
            Some((",\n"@, j + 1))
        }
    } else if toks[j] is RBrace {
        Some((Seq::empty(), j))
    } else {
        match pub_field(toks, j + 1) {
            None => None,
            Some((t, j2)) => Some((tok_text(toks[j]) + " "@ + t, j2)),
        }
    }
}

/// The rendered text of a struct's field block scanned from `j`, keeping
/// only visibility-marked fields. `is_private` records whether no such field
/// has been seen yet; if none is seen before the closing brace, a
/// placeholder line stands in for the hidden fields.
pub open spec fn struct_fields(toks: Seq<Tok>, j: int, is_private: bool) -> Option<Seq<char>>
    decreases toks.len() - j, 1int,
{
    if j < 0 || j >= toks.len() {
        None
    } else if toks[j] is RBrace {
        Some(
            (if is_private {
                "/* private fields */"@
            } else {
                Seq::empty()
            }) + "\n}"@,
        )
    } else if toks[j] is KwPub {
        match pub_field(toks, j) {
            None => None,
            Some((t, j2)) => {
                let j3 = if j2 <= j {
                    j + 1
                } else if j2 > toks.len() {
                    toks.len() as int
                } else {
                    j2
                };
                match struct_fields(toks, j3, false) {
                    None => None,
                    Some(rest) => Some(t + rest),
                }
            },
        }
    } else {
        struct_fields(toks, j + 1, is_private)
    }
}

/// The rebuilt signature of a struct declaration whose introducing keyword
/// stands at `i`: the header text up to the opening brace, then the
/// visibility-marked fields (or a placeholder when there are none), then the
/// closing brace.
pub open spec fn spec_struct_signature(toks: Seq<Tok>, i: int) -> Option<Seq<char>> {
    match find_open(toks, i) {
        None => None,
        Some(b) => match struct_fields(toks, b + 1, true) {
            None => None,
            Some(body) => Some(join_tokens(toks, i, b) + "{\n"@ + body),
        },
    }
}

// ---------------------------------------------------------------------------
// Trait signatures and methods
// ---------------------------------------------------------------------------

/// One method occurrence found while scanning a trait body: the index of its
/// introducing keyword, whether it is required (ends in a terminator) rather
/// than provided (carries a default body), and the extracted method itself.
pub struct TraitOcc {
    pub at: int,
    pub required: bool,
    pub method: MethodV,
}

/// The scan of a trait body from `j`: the text appended to the trait's
/// rendered signature, and the method occurrences found, in source order.
/// Required methods contribute their signature and a terminator mark;
/// provided methods contribute their signature and a body-omitted mark, and
/// their body is skipped. A method keyword not followed by an identifier
/// stops the body scan. `None` if the sequence ends inside the body.
pub open spec fn trait_body(toks: Seq<Tok>, j: int) -> Option<(Seq<char>, Seq<TraitOcc>)>
    decreases toks.len() - j,
{
    if j < 0 || j >= toks.len() {
        None
    } else if toks[j] is RBrace {
        Some(("}"@, Seq::empty()))
    } else if toks[j] is KwFn {
        if j + 1 >= toks.len() {
            None
        } else {
            match toks[j + 1] {
                Tok::Ident(nm) => match find_terminator(toks, j) {
                    None => None,
                    Some(t) => {
                        let seg = join_tokens(toks, j, t);
                        if toks[t] is Semi {
                            let r2 = clamp_after(toks, j, t + 1);
                            match trait_body(toks, r2) {
                                None => None,
                                Some((bs, occs)) => Some(
                                    (seg + ";\n"@ + bs, seq![occ_of(toks, j, t, true)] + occs),
                                ),
                            }
                        } else {
                            match find_close(toks, t + 1, 1) {
                                None => None,
                                Some(e) => {
                                    let r2 = clamp_after(toks, j, e);
                                    match trait_body(toks, r2) {
                                        None => None,
                                        Some((bs, occs)) => Some(
                                            (
                                                seg + "{ ... }\n"@ + bs,
                                                seq![occ_of(toks, j, t, false)] + occs,
                                            ),
                                        ),
                                    }
                                },
                            }
                        }
                    },
                },
                _ => Some((Seq::empty(), Seq::empty())),
            }
        }
    } else {
        trait_body(toks, j + 1)
    }
}

/// The identifier text of a token; empty for any other token.
pub open spec fn ident_text(t: Tok) -> Seq<char> {
    match t {
        Tok::Ident(nm) => nm@,
        _ => Seq::empty(),
    }
}

/// The method occurrence extracted at a method keyword standing at `j`
/// inside a trait body, whose signature ends at the terminator `t`.
pub open spec fn occ_of(toks: Seq<Tok>, j: int, t: int, required: bool) -> TraitOcc {
    TraitOcc {
        at: j,
        required,
        method: MethodV {
            name: ident_text(toks[j + 1]),
            doc: spec_doc(toks, j),
            signature: join_tokens(toks, j, t),
            is_method: true,
        },
    }
}

/// A resume index forced strictly past `j` and at most the sequence length.
/// The scans only ever resume inside that range; the bound makes the
/// progress of the scan plain.
pub open spec fn clamp_after(toks: Seq<Tok>, j: int, r: int) -> int {
    if r <= j {
        j + 1
    } else if r > toks.len() {
        toks.len() as int
    } else {
        r
    }
}

/// The rebuilt signature and the method occurrences of a trait declaration
/// whose introducing keyword stands at `i`: the header text from the name up
/// to the opening brace, then the body scan.
pub open spec fn spec_trait_parts(toks: Seq<Tok>, i: int) -> Option<(Seq<char>, Seq<TraitOcc>)> {
    match find_open(toks, i + 1) {
        None => None,
        Some(b) => match trait_body(toks, b + 1) {
            None => None,
            Some((bs, occs)) => Some((join_tokens(toks, i + 1, b) + "{\n"@ + bs, occs)),
        },
    }
}

/// The required methods among a sequence of occurrences, in order.
pub open spec fn required_of(occs: Seq<TraitOcc>) -> Seq<MethodV>
    decreases occs.len(),
{
    if occs.len() == 0 {
        Seq::empty()
    } else if occs[0].required {
        seq![occs[0].method] + required_of(occs.drop_first())
    } else {
        required_of(occs.drop_first())
    }
}

/// The provided methods among a sequence of occurrences, in order.
pub open spec fn provided_of(occs: Seq<TraitOcc>) -> Seq<MethodV>
    decreases occs.len(),
{
    if occs.len() == 0 {
        Seq::empty()
    } else if !occs[0].required {
        seq![occs[0].method] + provided_of(occs.drop_first())
    } else {
        provided_of(occs.drop_first())
    }
}

fn exec_trait_body(toks: &Vec<Tok>, j: usize) -> (r: Option<(String, Vec<Function>, Vec<Function>)>)
    ensures
        match r {
            Some(parts) => trait_body(toks@, j as int) matches Some((bs, occs))
                && parts.0@ == bs
                && view_functions(parts.1@) == required_of(occs)
                && view_functions(parts.2@) == provided_of(occs),
            None => trait_body(toks@, j as int) is None,
        },
    decreases toks@.len() - j,
{
    let n = toks.len();
    if j >= n {
        return None;
    }
    match &toks[j] {
        Tok::RBrace => Some((String::from_str("}"), Vec::new(), Vec::new())),
        Tok::KwFn => {
            if j + 1 >= n {
                return None;
            }
            match &toks[j + 1] {
                Tok::Ident(nm) => {
                    match exec_find_terminator(toks, j) {
                        None => None,
                        Some(t) => {
                            proof {
                                lemma_find_terminator_bounds(toks@, j as int);
                            }
                            let seg = exec_join_tokens(toks, j, t);
                            let m_doc = doc(toks, j);
                            let is_semi = matches!(&toks[t], Tok::Semi);
                            if is_semi {
                                let r2 = if t + 1 <= j {
                                    j + 1
                                } else if t + 1 > n {
                                    n
                                } else {
                                    t + 1
                                };
                                match exec_trait_body(toks, r2) {
                                    None => None,
                                    Some((bs, mut req, prov)) => {
                                        let ghost req0 = req@;
                                        let ghost occs = trait_body(toks@, r2 as int)->Some_0.1;
                                        let f = Function {
                                            name: nm.clone(),
                                            doc: m_doc,
                                            signature: seg.clone(),
                                            is_method: true,
                                        };
                                        req.insert(0, f);
                                        let mut sig = seg;
                                        sig.append(";\n");
                                        sig.append(bs.as_str());
                                        proof {
                                            assert(req@ =~= seq![f] + req0);
                                            assert((seq![f] + req0).drop_first() =~= req0);
                                            assert((seq![occ_of(toks@, j as int, t as int, true)]
                                                + occs).drop_first() =~= occs);
                                            assert(view_functions(req@) == required_of(
                                                seq![occ_of(toks@, j as int, t as int, true)]
                                                    + occs,
                                            ));
                                        }
                                        Some((sig, req, prov))
                                    },
                                }
                            } else {
                                match exec_find_close(toks, t + 1, 1) {
                                    None => None,
                                    Some(e) => {
                                        let r2 = if e <= j {
                                            j + 1
                                        } else if e > n {
                                            n
                                        } else {
                                            e
                                        };
                                        match exec_trait_body(toks, r2) {
                                            None => None,
                                            Some((bs, req, mut prov)) => {
                                                let ghost prov0 = prov@;
                                                let ghost occs = trait_body(
                                                    toks@,
                                                    r2 as int,
                                                )->Some_0.1;
                                                let f = Function {
                                                    name: nm.clone(),
                                                    doc: m_doc,
                                                    signature: seg.clone(),
                                                    is_method: true,
                                                };
                                                prov.insert(0, f);
                                                let mut sig = seg;
                                                sig.append("{ ... }\n");
                                                sig.append(bs.as_str());
                                                proof {
                                                    assert(prov@ =~= seq![f] + prov0);
                                                    assert((seq![f] + prov0).drop_first()
                                                        =~= prov0);
                                                    assert((seq![occ_of(
                                                        toks@,
                                                        j as int,
                                                        t as int,
                                                        false,
                                                    )] + occs).drop_first() =~= occs);
                                                    assert(view_functions(prov@) == provided_of(
                                                        seq![occ_of(
                                                            toks@,
                                                            j as int,
                                                            t as int,
                                                            false,
                                                        )] + occs,
                                                    ));
                                                }
                                                Some((sig, req, prov))
                                            },
                                        }
                                    },
                                }
                            }
                        },
                    }
                },
                _ => Some((String::new(), Vec::new(), Vec::new())),
            }
        },
        _ => exec_trait_body(toks, j + 1),
    }
}

/// Rebuilds the signature of a trait declaration whose introducing keyword
/// stands at `i`, and extracts its required and provided methods.
pub fn trait_info(toks: &Vec<Tok>, i: usize) -> (r: Option<(String, Vec<Function>, Vec<Function>)>)
    requires
        i < toks@.len(),
    ensures
        match r {
            Some(parts) => spec_trait_parts(toks@, i as int) matches Some((sig, occs))
                && parts.0@ == sig
                && view_functions(parts.1@) == required_of(occs)
                && view_functions(parts.2@) == provided_of(occs),
            None => spec_trait_parts(toks@, i as int) is None,
        },
{
    let n = toks.len();
    match exec_find_open(toks, i + 1) {
        None => None,
        Some(b) => {
            proof {
                lemma_find_open_bounds(toks@, i as int + 1);
            }
            match exec_trait_body(toks, b + 1) {
                None => None,
                Some((bs, req, prov)) => {
                    let mut sig = exec_join_tokens(toks, i + 1, b);
                    sig.append("{\n");
                    sig.append(bs.as_str());
                    Some((sig, req, prov))
                },
            }
        },
    }
}

fn exec_pub_field(toks: &Vec<Tok>, j: usize) -> (r: Option<(String, usize)>)
    ensures
        match r {
            Some((t, j2)) => pub_field(toks@, j as int) == Some((t@, j2 as int)) && j2
                < toks@.len(),
            None => pub_field(toks@, j as int) is None,
        },
    decreases toks@.len() - j,
{
    let n = toks.len();
    if j >= n {
        return None;
    }
    match &toks[j] {
        Tok::Comma => {
            if j + 1 >= n {
                None
            } else if let Tok::RBrace = &toks[j + 1] {
                Some((String::from_str(","), j + 1))
            } else {
                Some((String::from_str(",\n"), j + 1))
            }
        },
        Tok::RBrace => Some((String::new(), j)),
        _ => {
            match exec_pub_field(toks, j + 1) {
                None => None,
                Some((t, j2)) => {
                    let mut res = String::new();
                    res.append(tok_text_str(&toks[j]));
                    res.append(" ");
                    res.append(t.as_str());
                    Some((res, j2))
                },
            }
        },
    }
}

fn exec_struct_fields(toks: &Vec<Tok>, j: usize, is_private: bool) -> (r: Option<String>)
    ensures
        match r {
            Some(t) => struct_fields(toks@, j as int, is_private) == Some(t@),
            None => struct_fields(toks@, j as int, is_private) is None,
        },
    decreases toks@.len() - j, 1int,
{
    let n = toks.len();
    if j >= n {
        return None;
    }
    match &toks[j] {
        Tok::RBrace => {
            let mut res = if is_private {
                String::from_str("/* private fields */")
            } else {
                String::new()
            };
            res.append("\n}");
            Some(res)
        },
        Tok::KwPub => {
            match exec_pub_field(toks, j) {
                None => None,
                Some((t, j2)) => {
                    let j3 = if j2 <= j {
                        j + 1
                    } else if j2 > n {
                        n
                    } else {
                        j2
                    };
                    match exec_struct_fields(toks, j3, false) {
                        None => None,
                        Some(rest) => {
                            let mut res = t;
                            res.append(rest.as_str());
                            Some(res)
                        },
                    }
                },
            }
        },
        _ => exec_struct_fields(toks, j + 1, is_private),
    }
}

/// Rebuilds the signature of a struct declaration whose introducing keyword
/// stands at `i`, hiding fields without a visibility marker.
pub fn struct_signature(toks: &Vec<Tok>, i: usize) -> (r: Option<String>)
    ensures
        match r {
            Some(s) => spec_struct_signature(toks@, i as int) == Some(s@),
            None => spec_struct_signature(toks@, i as int) is None,
        },
{
    let n = toks.len();
    match exec_find_open(toks, i) {
        None => None,
        Some(b) => {
            proof {
                lemma_find_open_bounds(toks@, i as int);
            }
            match exec_struct_fields(toks, b + 1, true) {
                None => None,
                Some(body) => {
                    let mut res = exec_join_tokens(toks, i, b);
                    res.append("{\n");
                    res.append(body.as_str());
                    Some(res)
                },
            }
        },
    }
}

} // verus!
