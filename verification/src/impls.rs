use vstd::prelude::*;

use crate::model::Function;
use crate::model::Implementation;
use crate::model::ImplV;
use crate::model::MethodV;
use crate::model::view_function;
use crate::model::view_functions;
use crate::model::view_impl;
use crate::model::view_impls;
use crate::scan::doc;
use crate::scan::exec_find_terminator;
use crate::scan::exec_join_tokens;
use crate::scan::find_terminator;
use crate::scan::join_tokens;
use crate::scan::lemma_find_terminator_bounds;
use crate::scan::spec_doc;
use crate::sigs::clamp_after;
use crate::sigs::ident_text;
use crate::token::tok_text;
use crate::token::tok_text_str;
use crate::token::Tok;

verus! {

/// Whether a token is an identifier spelling exactly `name`.
pub open spec fn is_name_match(t: Tok, name: Seq<char>) -> bool {
    t matches Tok::Ident(nm) && nm@ == name
}

/// The header of an extension block whose introducing keyword stands at `j`:
/// the space-joined text of the tokens up to the opening brace, whether any
/// identifier among them spells `name`, and the index of that brace.
/// `None` if the sequence ends before a brace is found.
pub open spec fn impl_header(toks: Seq<Tok>, j: int, name: Seq<char>) -> Option<
    (Seq<char>, bool, int),
>
    decreases toks.len() - j,
{
    if j < 0 || j >= toks.len() {
        None
    } else if toks[j] is LBrace {
        Some((Seq::empty(), false, j))
    } else {
        match impl_header(toks, j + 1, name) {
            None => None,
            Some((t, m, b)) => Some(
                (tok_text(toks[j]) + " "@ + t, m || is_name_match(toks[j], name), b),
            ),
        }
    }
}

/// The method extracted at a method keyword standing at `j` inside an
/// extension body, whose signature ends at the terminator `t`.
pub open spec fn method_of(toks: Seq<Tok>, j: int, t: int) -> MethodV {
    MethodV {
        name: ident_text(toks[j + 1]),
        doc: spec_doc(toks, j),
        signature: join_tokens(toks, j, t),
        is_method: true,
    }
}

/// The harvest of an extension body scanned from `j` with `depth` braces
/// open: every method found before the body closes, in source order, and
/// the index at which the enclosing scan resumes. A method keyword not
/// followed by an identifier is skipped. `None` if the sequence ends before
/// the body closes.
pub open spec fn impl_body(toks: Seq<Tok>, j: int, depth: nat) -> Option<(Seq<MethodV>, int)>
    decreases toks.len() - j,
{
    if depth == 0 {
        Some((Seq::empty(), j))
    } else if j < 0 || j >= toks.len() {
        None
    } else if toks[j] is KwFn {
        if j + 1 >= toks.len() {
            None
        } else {
            match toks[j + 1] {
                Tok::Ident(nm) => match find_terminator(toks, j) {
                    None => None,
                    Some(t) => match impl_body(toks, j + 1, depth) {
                        None => None,
                        Some((ms, e)) => Some((seq![method_of(toks, j, t)] + ms, e)),
                    },
                },
                _ => impl_body(toks, j + 1, depth),
            }
        }
    } else if toks[j] is LBrace {
        impl_body(toks, j + 1, depth + 1)
    } else if toks[j] is RBrace {
        if depth == 1 {
            Some((Seq::empty(), j + 1))
        } else {
            impl_body(toks, j + 1, (depth - 1) as nat)
        }
    } else {
        impl_body(toks, j + 1, depth)
    }
}

/// The extensions of the type named `name` found by scanning from `j` to
/// the end of the unit: for each extension keyword, the block is kept only
/// if an identifier in its header spells `name`; a kept block contributes
/// its header text and the methods of its body. `None` if a header or a
/// kept body runs past the end of the sequence.
pub open spec fn impls_scan(toks: Seq<Tok>, j: int, name: Seq<char>) -> Option<Seq<ImplV>>
    decreases toks.len() - j, 1int,
{
    if j < 0 || j >= toks.len() {
        Some(Seq::empty())
    } else if toks[j] is KwImpl {
        match impl_header(toks, j, name) {
            None => None,
            Some((htext, matched, b)) => {
                if !matched {
                    impls_scan(toks, clamp_after(toks, j, b), name)
                } else {
                    match impl_body(toks, b + 1, 1) {
                        None => None,
                        Some((ms, e)) => {
                            match impls_scan(toks, clamp_after(toks, j, e), name) {
                                None => None,
                                Some(rest) => Some(
                                    seq![ImplV { signature: htext, functions: ms }] + rest,
                                ),
                            }
                        },
                    }
                }
            },
        }
    } else {
        impls_scan(toks, j + 1, name)
    }
}

fn exec_impl_header(toks: &Vec<Tok>, j: usize, name: &String) -> (r: Option<(String, bool, usize)>)
    ensures
        match r {
            Some((t, m, b)) => impl_header(toks@, j as int, name@) == Some((t@, m, b as int))
                && b < toks@.len(),
            None => impl_header(toks@, j as int, name@) is None,
        },
    decreases toks@.len() - j,
{
    let n = toks.len();
    if j >= n {
        return None;
    }
    match &toks[j] {
        Tok::LBrace => Some((String::new(), false, j)),
        _ => {
            match exec_impl_header(toks, j + 1, name) {
                None => None,
                Some((t, m, b)) => {
                    let mut res = String::new();
                    res.append(tok_text_str(&toks[j]));
                    res.append(" ");
                    res.append(t.as_str());
                    let here = if let Tok::Ident(nm) = &toks[j] {
                        *nm == *name
                    } else {
                        false
                    };
                    Some((res, m || here, b))
                },
            }
        },
    }
}

/// A body with more open braces than remaining tokens can never close.
proof fn lemma_impl_body_depth(toks: Seq<Tok>, j: int, depth: nat)
    requires
        0 <= j <= toks.len(),
        depth > toks.len() - j,
    ensures
        impl_body(toks, j, depth) is None,
    decreases toks.len() - j,
{
    if j < toks.len() {
        if toks[j] is KwFn {
            if j + 1 < toks.len() {
                match toks[j + 1] {
                    Tok::Ident(nm) => lemma_impl_body_depth(toks, j + 1, depth),
                    _ => lemma_impl_body_depth(toks, j + 1, depth),
                }
            }
        } else if toks[j] is LBrace {
            lemma_impl_body_depth(toks, j + 1, depth + 1);
        } else if toks[j] is RBrace {
            lemma_impl_body_depth(toks, j + 1, (depth - 1) as nat);
        } else {
            lemma_impl_body_depth(toks, j + 1, depth);
        }
    }
}

fn exec_impl_body(toks: &Vec<Tok>, j: usize, depth: usize) -> (r: Option<(Vec<Function>, usize)>)
    requires
        1 <= depth <= j + 1,
    ensures
        match r {
            Some((ms, e)) => impl_body(toks@, j as int, depth as nat) matches Some((sms, se))
                && view_functions(ms@) == sms
                && e as int == se
                && e <= toks@.len(),
            None => impl_body(toks@, j as int, depth as nat) is None,
        },
    decreases toks@.len() - j,
{
    let n = toks.len();
    if j >= n {
        return None;
    }
    match &toks[j] {
        Tok::KwFn => {
            if j + 1 >= n {
                return None;
            }
            match &toks[j + 1] {
                Tok::Ident(nm) => {
                    match exec_find_terminator(toks, j) {
                        None => None,
                        Some(t) => {
                            proof {
                                lemma_find_terminator_bounds(toks@, j as int);
                            }
                            match exec_impl_body(toks, j + 1, depth) {
                                None => None,
                                Some((mut ms, e)) => {
                                    let ghost ms0 = ms@;
                                    let m_doc = doc(toks, j);
                                    let seg = exec_join_tokens(toks, j, t);
                                    let f = Function {
                                        name: nm.clone(),
                                        doc: m_doc,
                                        signature: seg,
                                        is_method: true,
                                    };
                                    ms.insert(0, f);
                                    proof {
                                        assert(ms@ =~= seq![f] + ms0);
                                        assert((seq![f] + ms0).drop_first() =~= ms0);
                                        assert(view_functions(ms@) == seq![method_of(
                                            toks@,
                                            j as int,
                                            t as int,
                                        )] + view_functions(ms0));
                                        let smse = impl_body(toks@, j as int, depth as nat);
                                        assert(smse matches Some((sms, se)) && view_functions(ms@)
                                            == sms);
                                    }
                                    Some((ms, e))
                                },
                            }
                        },
                    }
                },
                _ => exec_impl_body(toks, j + 1, depth),
            }
        },
        Tok::LBrace => {
            if depth == usize::MAX {
                // Unreachable for any sequence that fits in memory; treat as
                // an unclosed body.
                proof {
                    lemma_impl_body_depth(toks@, j as int, depth as nat);
                }
                None
            } else {
                exec_impl_body(toks, j + 1, depth + 1)
            }
        },
        Tok::RBrace => {
            if depth == 1 {
                Some((Vec::new(), j + 1))
            } else {
                exec_impl_body(toks, j + 1, depth - 1)
            }
        },
        _ => exec_impl_body(toks, j + 1, depth),
    }
}

fn exec_impls_scan(toks: &Vec<Tok>, j: usize, name: &String) -> (r: Option<Vec<Implementation>>)
    ensures
        match r {
            Some(ims) => impls_scan(toks@, j as int, name@) matches Some(sims) && view_impls(ims@)
                == sims,
            None => impls_scan(toks@, j as int, name@) is None,
        },
    decreases toks@.len() - j, 1int,
{
    let n = toks.len();
    if j >= n {
        return Some(Vec::new());
    }
    match &toks[j] {
        Tok::KwImpl => {
            match exec_impl_header(toks, j, name) {
                None => None,
                Some((htext, matched, b)) => {
                    if !matched {
                        let r2 = if b <= j {
                            j + 1
                        } else {
                            b
                        };
                        exec_impls_scan(toks, r2, name)
                    } else {
                        match exec_impl_body(toks, b + 1, 1) {
                            None => None,
                            Some((ms, e)) => {
                                let r2 = if e <= j {
                                    j + 1
                                } else if e > n {
                                    n
                                } else {
                                    e
                                };
                                match exec_impls_scan(toks, r2, name) {
                                    None => None,
                                    Some(mut rest) => {
                                        let ghost rest0 = rest@;
                                        let im = Implementation {
                                            signature: htext,
                                            functions: ms,
                                        };
                                        rest.insert(0, im);
                                        proof {
                                            assert(rest@ =~= seq![im] + rest0);
                                            assert((seq![im] + rest0).drop_first() =~= rest0);
                                            let sims = impls_scan(toks@, j as int, name@);
                                            assert(sims matches Some(s) && view_impls(rest@)
                                                =~= s);
                                        }
                                        Some(rest)
                                    },
                                }
                            },
                        }
                    }
                },
            }
        },
        _ => exec_impls_scan(toks, j + 1, name),
    }
}

impl Implementation {
    /// Scans the remainder of the unit from `index` for extension blocks of
    /// the type named `orig_name` and harvests the methods of each block
    /// whose header names that type.
    pub fn get_implementations(toks: &Vec<Tok>, index: usize, orig_name: &String) -> (r: Option<
        Vec<Implementation>,
    >)
        ensures
            match r {
                Some(ims) => impls_scan(toks@, index as int, orig_name@) matches Some(sims)
                    && view_impls(ims@) == sims,
                None => impls_scan(toks@, index as int, orig_name@) is None,
            },
    {
        exec_impls_scan(toks, index, orig_name)
    }
}

} // verus!
