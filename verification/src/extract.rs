use vstd::prelude::*;

use crate::impls::impls_scan;
use crate::model::DocError;
use crate::model::DocErrorV;
use crate::model::Implementation;
use crate::model::Info;
use crate::model::InfoV;
use crate::model::Output;
use crate::model::OutputV;
use crate::model::Type;
use crate::model::view_err;
use crate::model::view_output;
use crate::model::view_outputs;
use crate::scan::additional_doc;
use crate::scan::doc;
use crate::scan::exec_find_close;
use crate::scan::exec_skip_past;
use crate::scan::find_close;
use crate::scan::fn_signature;
use crate::scan::lemma_find_close_bounds;
use crate::scan::lemma_skip_past_bounds;
use crate::scan::outer_doc;
use crate::scan::outer_run_end;
use crate::scan::outer_run_text;
use crate::scan::skip_past;
use crate::scan::spec_doc;
use crate::scan::spec_fn_signature;
use crate::scan::spec_remarks;
use crate::sigs::clamp_after;
use crate::sigs::ident_text;
use crate::sigs::provided_of;
use crate::sigs::required_of;
use crate::sigs::spec_struct_signature;
use crate::sigs::spec_trait_parts;
use crate::sigs::struct_signature;
use crate::sigs::trait_info;
use crate::token::clone_tok;
use crate::token::tok_text;
use crate::token::tok_text_str;
use crate::token::Tok;

verus! {

/// How deep file-backed and inline modules may nest before extraction
/// reports an error instead of recursing further. Module nesting itself is
/// unbounded in the source language, so some documented safety limit is
/// needed to keep the recursion finite on cyclic module references.
pub const MODULE_DEPTH_LIMIT: usize = 64;

/// The source units available to the extractor, each under the name by
/// which a file-backed module declaration refers to it. This is the
/// extractor's view of the file system: whoever drives the extraction
/// tokenizes each unit and hands the set over.
pub struct Units {
    entries: Vec<(String, Vec<Tok>)>,
}

/// The first unit registered under `name` at or after position `k`.
pub open spec fn lookup_unit(units: Seq<(String, Vec<Tok>)>, k: int, name: Seq<char>) -> Option<
    Seq<Tok>,
>
    decreases units.len() - k,
{
    if k < 0 || k >= units.len() {
        None
    } else if units[k].0@ == name {
        Some(units[k].1@)
    } else {
        lookup_unit(units, k + 1, name)
    }
}

impl View for Units {
    type V = Seq<(String, Vec<Tok>)>;

    closed spec fn view(&self) -> Seq<(String, Vec<Tok>)> {
        self.entries@
    }
}

impl Units {
    /// An empty set of units.
    pub fn new() -> (r: Units)
        ensures
            r@ =~= Seq::<(String, Vec<Tok>)>::empty(),
    {
        Units { entries: Vec::new() }
    }

    /// Registers `toks` as the unit named `name`. An earlier registration
    /// under the same name keeps precedence.
    pub fn insert(&mut self, name: String, toks: Vec<Tok>)
        ensures
            final(self)@ =~= old(self)@.push((name, toks)),
    {
        self.entries.push((name, toks));
    }

    /// The unit registered under `name`, if any.
    pub fn get(&self, name: &String) -> (r: Option<&Vec<Tok>>)
        ensures
            match r {
                Some(ut) => lookup_unit(self@, 0, name@) == Some(ut@),
                None => lookup_unit(self@, 0, name@) is None,
            },
    {
        get_from(&self.entries, 0, name)
    }
}

fn get_from<'a>(entries: &'a Vec<(String, Vec<Tok>)>, k: usize, name: &String) -> (r: Option<
    &'a Vec<Tok>,
>)
    ensures
        match r {
            Some(ut) => lookup_unit(entries@, k as int, name@) == Some(ut@),
            None => lookup_unit(entries@, k as int, name@) is None,
        },
    decreases entries@.len() - k,
{
    if k >= entries.len() {
        None
    } else if entries[k].0 == *name {
        Some(&entries[k].1)
    } else {
        get_from(entries, k + 1, name)
    }
}

/// The first semicolon or opening brace at or after `j`: the token that
/// decides whether a module declaration is file-backed or inline. The flag
/// is true for a semicolon.
pub open spec fn find_mod_body(toks: Seq<Tok>, j: int) -> Option<(bool, int)>
    decreases toks.len() - j,
{
    if j < 0 || j >= toks.len() {
        None
    } else if toks[j] is Semi {
        Some((true, j))
    } else if toks[j] is LBrace {
        Some((false, j))
    } else {
        find_mod_body(toks, j + 1)
    }
}

pub proof fn lemma_find_mod_body_bounds(toks: Seq<Tok>, j: int)
    requires
        0 <= j,
    ensures
        match find_mod_body(toks, j) {
            Some((f, p)) => j <= p < toks.len() && (f ==> toks[p] is Semi) && (!f ==> toks[p]
                is LBrace),
            None => true,
        },
    decreases toks.len() - j,
{
    if j < toks.len() && !(toks[j] is Semi) && !(toks[j] is LBrace) {
        lemma_find_mod_body_bounds(toks, j + 1);
    }
}

fn exec_find_mod_body(toks: &Vec<Tok>, j: usize) -> (r: Option<(bool, usize)>)
    ensures
        match r {
            Some((f, p)) => find_mod_body(toks@, j as int) == Some((f, p as int)) && j <= p
                < toks@.len() && (f ==> toks@[p as int] is Semi) && (!f ==> toks@[p as int]
                is LBrace),
            None => find_mod_body(toks@, j as int) is None,
        },
    decreases toks@.len() - j,
{
    let n = toks.len();
    if j >= n {
        return None;
    }
    match &toks[j] {
        Tok::Semi => Some((true, j)),
        Tok::LBrace => Some((false, j)),
        _ => exec_find_mod_body(toks, j + 1),
    }
}

/// A fresh copy of the tokens in `[from, to)`.
fn subvec(toks: &Vec<Tok>, from: usize, to: usize) -> (r: Vec<Tok>)
    requires
        from <= to <= toks@.len(),
    ensures
        r@ == toks@.subrange(from as int, to as int),
    decreases to - from,
{
    if from >= to {
        let r = Vec::new();
        assert(r@ =~= toks@.subrange(from as int, to as int));
        r
    } else {
        let mut rest = subvec(toks, from + 1, to);
        rest.insert(0, clone_tok(&toks[from]));
        assert(rest@ =~= toks@.subrange(from as int, to as int));
        rest
    }
}

/// The model of an optional declaration.
pub open spec fn opt_view(o: Option<Output>) -> Option<OutputV> {
    match o {
        Some(out) => Some(view_output(out)),
        None => None,
    }
}

/// One step of the main scan at index `i` of a unit: classifies the token
/// there, and yields the declaration to emit (if any), the index at which
/// the scan resumes, and the outer-comment state after the step.
///
/// The step follows the classifier's rules: a declaration keyword must be
/// followed by an identifier, else it is ignored; a trait's body and an
/// extension block are skipped after handling; a module's body is resolved
/// recursively, inline or from the named unit; an outer-comment run becomes
/// the unit's summary once per scan.
pub open spec fn spec_step(
    toks: Seq<Tok>,
    units: Seq<(String, Vec<Tok>)>,
    depth: nat,
    i: int,
    first: bool,
) -> Result<(Option<OutputV>, int, bool), DocErrorV>
    decreases depth, toks.len() - i, 0int,
{
    if i < 0 || i >= toks.len() {
        Ok((None, i + 1, first))
    } else {
        match toks[i] {
            Tok::KwFn => {
                if i + 1 < toks.len() && toks[i + 1] is Ident {
                    match spec_fn_signature(toks, i) {
                        None => Err(DocErrorV::MalformedInput),
                        Some(sig) => Ok(
                            (
                                Some(
                                    OutputV {
                                        kind: Type::Function,
                                        name: ident_text(toks[i + 1]),
                                        doc: spec_doc(toks, i),
                                        information: InfoV::Function { signature: sig },
                                    },
                                ),
                                i + 1,
                                first,
                            ),
                        ),
                    }
                } else {
                    Ok((None, i + 1, first))
                }
            },
            Tok::KwStruct => {
                if i + 1 < toks.len() && toks[i + 1] is Ident {
                    match spec_struct_signature(toks, i) {
                        None => Err(DocErrorV::MalformedInput),
                        Some(sig) => match impls_scan(toks, i, ident_text(toks[i + 1])) {
                            None => Err(DocErrorV::MalformedInput),
                            Some(ims) => Ok(
                                (
                                    Some(
                                        OutputV {
                                            kind: Type::Struct,
                                            name: ident_text(toks[i + 1]),
                                            doc: spec_doc(toks, i),
                                            information: InfoV::Struct {
                                                signature: sig,
                                                additional_doc: spec_remarks(toks, i),
                                                implementations: ims,
                                            },
                                        },
                                    ),
                                    i + 1,
                                    first,
                                ),
                            ),
                        },
                    }
                } else {
                    Ok((None, i + 1, first))
                }
            },
            Tok::KwTrait => {
                match skip_past(toks, i) {
                    None => Err(DocErrorV::MalformedInput),
                    Some(e0) => {
                        let e = clamp_after(toks, i, e0);
                        if i + 1 < toks.len() && toks[i + 1] is Ident {
                            match spec_trait_parts(toks, i) {
                                None => Err(DocErrorV::MalformedInput),
                                Some((sig, occs)) => match impls_scan(
                                    toks,
                                    i,
                                    ident_text(toks[i + 1]),
                                ) {
                                    None => Err(DocErrorV::MalformedInput),
                                    Some(ims) => Ok(
                                        (
                                            Some(
                                                OutputV {
                                                    kind: Type::Trait,
                                                    name: ident_text(toks[i + 1]),
                                                    doc: spec_doc(toks, i),
                                                    information: InfoV::Trait {
                                                        signature: sig,
                                                        additional_doc: spec_remarks(toks, i),
                                                        required_methods: required_of(occs),
                                                        provided_methods: provided_of(occs),
                                                        implementations: ims,
                                                    },
                                                },
                                            ),
                                            e,
                                            first,
                                        ),
                                    ),
                                },
                            }
                        } else {
                            Ok((None, e, first))
                        }
                    },
                }
            },
            Tok::KwMod => {
                if i + 2 >= toks.len() {
                    // deciding between an inline and a file-backed body
                    // needs the token two places ahead; a declaration cut
                    // short is malformed input
                    Err(DocErrorV::MalformedInput)
                } else {
                    let inline = toks[i + 2] is LBrace;
                    if !(toks[i + 1] is Ident) {
                        if inline {
                            match skip_past(toks, i) {
                                None => Err(DocErrorV::MalformedInput),
                                Some(e0) => Ok((None, clamp_after(toks, i, e0), first)),
                            }
                        } else {
                            Ok((None, i + 1, first))
                        }
                    } else {
                        match find_mod_body(toks, i) {
                            None => Err(DocErrorV::MalformedInput),
                            Some((is_file, p)) => {
                                if is_file {
                                    let uname = tok_text(toks[p - 1]);
                                    match lookup_unit(units, 0, uname) {
                                        None => Err(DocErrorV::SourceUnreadable(uname)),
                                        Some(utoks) => {
                                            if depth == 0 {
                                                Err(DocErrorV::DepthExceeded)
                                            } else {
                                                match spec_outputs_from(
                                                    utoks,
                                                    units,
                                                    (depth - 1) as nat,
                                                    0,
                                                    true,
                                                ) {
                                                    Err(e) => Err(e),
                                                    Ok(children) => Ok(
                                                        (
                                                            Some(
                                                                module_output(
                                                                    toks,
                                                                    i,
                                                                    children,
                                                                ),
                                                            ),
                                                            i + 1,
                                                            first,
                                                        ),
                                                    ),
                                                }
                                            }
                                        },
                                    }
                                } else {
                                    match find_close(toks, p + 1, 1) {
                                        None => Err(DocErrorV::MalformedInput),
                                        Some(e0) => {
                                            let interior = toks.subrange(p + 1, e0 - 1);
                                            if depth == 0 {
                                                Err(DocErrorV::DepthExceeded)
                                            } else {
                                                match spec_outputs_from(
                                                    interior,
                                                    units,
                                                    (depth - 1) as nat,
                                                    0,
                                                    true,
                                                ) {
                                                    Err(e) => Err(e),
                                                    Ok(children) => Ok(
                                                        (
                                                            Some(
                                                                module_output(
                                                                    toks,
                                                                    i,
                                                                    children,
                                                                ),
                                                            ),
                                                            if inline {
                                                                clamp_after(toks, i, e0)
                                                            } else {
                                                                i + 1
                                                            },
                                                            first,
                                                        ),
                                                    ),
                                                }
                                            }
                                        },
                                    }
                                }
                            },
                        }
                    }
                }
            },
            Tok::DocOuter(_) => {
                if first {
                    Ok(
                        (
                            Some(
                                OutputV {
                                    kind: Type::OuterComment,
                                    name: Seq::empty(),
                                    doc: outer_run_text(toks, i),
                                    information: InfoV::Blanc,
                                },
                            ),
                            i + 1,
                            false,
                        ),
                    )
                } else {
                    Ok(
                        (
                            Some(
                                OutputV {
                                    kind: Type::OuterComment,
                                    name: Seq::empty(),
                                    doc: Seq::empty(),
                                    information: InfoV::Blanc,
                                },
                            ),
                            i + 1,
                            outer_run_end(toks, i) == i,
                        ),
                    )
                }
            },
            Tok::KwImpl => {
                match skip_past(toks, i) {
                    None => Err(DocErrorV::MalformedInput),
                    Some(e0) => Ok((None, clamp_after(toks, i, e0), first)),
                }
            },
            _ => Ok((None, i + 1, first)),
        }
    }
}

/// The module declaration emitted at `i` with the given children.
pub open spec fn module_output(toks: Seq<Tok>, i: int, children: Seq<OutputV>) -> OutputV {
    OutputV {
        kind: Type::Module,
        name: ident_text(toks[i + 1]),
        doc: spec_doc(toks, i),
        information: InfoV::Module { content: children },
    }
}

/// The declarations extracted from `toks` by scanning from `i` with the
/// outer-comment state `first`, in source order. Errs when a construct runs
/// past the end of the unit, a file-backed module's unit is missing, or
/// modules nest deeper than `depth`.
pub open spec fn spec_outputs_from(
    toks: Seq<Tok>,
    units: Seq<(String, Vec<Tok>)>,
    depth: nat,
    i: int,
    first: bool,
) -> Result<Seq<OutputV>, DocErrorV>
    decreases depth, toks.len() - i, 1int,
{
    if i < 0 || i >= toks.len() {
        Ok(Seq::empty())
    } else {
        match spec_step(toks, units, depth, i, first) {
            Err(e) => Err(e),
            Ok((emit, i2, f2)) => {
                let i3 = clamp_after(toks, i, i2);
                match spec_outputs_from(toks, units, depth, i3, f2) {
                    Err(e) => Err(e),
                    Ok(rest) => Ok(
                        match emit {
                            Some(o) => seq![o] + rest,
                            None => rest,
                        },
                    ),
                }
            },
        }
    }
}

/// The declarations extracted from one source unit.
pub open spec fn spec_to_output(
    toks: Seq<Tok>,
    units: Seq<(String, Vec<Tok>)>,
    depth: nat,
) -> Result<Seq<OutputV>, DocErrorV> {
    spec_outputs_from(toks, units, depth, 0, true)
}

fn exec_step(toks: &Vec<Tok>, units: &Units, depth: usize, i: usize, first: bool) -> (r: Result<
    (Option<Output>, usize, bool),
    DocError,
>)
    requires
        i < toks@.len(),
    ensures
        match r {
            Ok((emit, i2, f2)) => spec_step(toks@, units@, depth as nat, i as int, first)
                matches Ok((se, si2, sf2))
                && opt_view(emit) == se
                && i2 as int == si2
                && f2 == sf2,
            Err(e) => spec_step(toks@, units@, depth as nat, i as int, first) matches Err(se)
                && se == view_err(e),
        },
    decreases depth, toks@.len() - i, 0int,
{
    let n = toks.len();
    match &toks[i] {
        Tok::KwFn => {
            if i + 1 < n {
                if let Tok::Ident(nm) = &toks[i + 1] {
                    match fn_signature(toks, i) {
                        None => Err(DocError::MalformedInput),
                        Some(sig) => {
                            let out = Output {
                                kind: Type::Function,
                                name: nm.clone(),
                                doc: doc(toks, i),
                                information: Info::Function { signature: sig },
                            };
                            Ok((Some(out), i + 1, first))
                        },
                    }
                } else {
                    Ok((None, i + 1, first))
                }
            } else {
                Ok((None, i + 1, first))
            }
        },
        Tok::KwStruct => {
            if i + 1 < n {
                if let Tok::Ident(nm) = &toks[i + 1] {
                    match struct_signature(toks, i) {
                        None => Err(DocError::MalformedInput),
                        Some(sig) => {
                            let name = nm.clone();
                            match Implementation::get_implementations(toks, i, &name) {
                                None => Err(DocError::MalformedInput),
                                Some(ims) => {
                                    let out = Output {
                                        kind: Type::Struct,
                                        name,
                                        doc: doc(toks, i),
                                        information: Info::Struct {
                                            signature: sig,
                                            additional_doc: additional_doc(toks, i),
                                            implementations: ims,
                                        },
                                    };
                                    Ok((Some(out), i + 1, first))
                                },
                            }
                        },
                    }
                } else {
                    Ok((None, i + 1, first))
                }
            } else {
                Ok((None, i + 1, first))
            }
        },
        Tok::KwTrait => {
            match exec_skip_past(toks, i) {
                None => Err(DocError::MalformedInput),
                Some(e0) => {
                    proof {
                        lemma_skip_past_bounds(toks@, i as int);
                    }
                    let e = if e0 <= i {
                        i + 1
                    } else if e0 > n {
                        n
                    } else {
                        e0
                    };
                    let named = if i + 1 < n {
                        matches!(&toks[i + 1], Tok::Ident(_))
                    } else {
                        false
                    };
                    if named {
                        match trait_info(toks, i) {
                            None => Err(DocError::MalformedInput),
                            Some((sig, req, prov)) => {
                                let name = if let Tok::Ident(nm) = &toks[i + 1] {
                                    nm.clone()
                                } else {
                                    String::new()
                                };
                                match Implementation::get_implementations(toks, i, &name) {
                                    None => Err(DocError::MalformedInput),
                                    Some(ims) => {
                                        let out = Output {
                                            kind: Type::Trait,
                                            name,
                                            doc: doc(toks, i),
                                            information: Info::Trait {
                                                signature: sig,
                                                additional_doc: additional_doc(toks, i),
                                                required_methods: req,
                                                provided_methods: prov,
                                                implementations: ims,
                                            },
                                        };
                                        Ok((Some(out), e, first))
                                    },
                                }
                            },
                        }
                    } else {
                        Ok((None, e, first))
                    }
                },
            }
        },
        Tok::KwMod => {
            if n - i <= 2 {
                return Err(DocError::MalformedInput);
            }
            let inline = matches!(&toks[i + 2], Tok::LBrace);
            let named = matches!(&toks[i + 1], Tok::Ident(_));
            if !named {
                if inline {
                    match exec_skip_past(toks, i) {
                        None => Err(DocError::MalformedInput),
                        Some(e0) => {
                            proof {
                                lemma_skip_past_bounds(toks@, i as int);
                            }
                            let e = if e0 <= i {
                                i + 1
                            } else if e0 > n {
                                n
                            } else {
                                e0
                            };
                            Ok((None, e, first))
                        },
                    }
                } else {
                    Ok((None, i + 1, first))
                }
            } else {
                match exec_find_mod_body(toks, i) {
                    None => Err(DocError::MalformedInput),
                    Some((is_file, p)) => {
                        if is_file {
                            assert(p as int != i as int && p as int != i + 1);
                            let uname = String::from_str(tok_text_str(&toks[p - 1]));
                            match units.get(&uname) {
                                None => Err(DocError::SourceUnreadable(uname)),
                                Some(ut) => {
                                    if depth == 0 {
                                        Err(DocError::DepthExceeded)
                                    } else {
                                        match exec_outputs_from(ut, units, depth - 1, 0, true) {
                                            Err(e) => Err(e),
                                            Ok(children) => {
                                                let name = if let Tok::Ident(nm) = &toks[i + 1] {
                                                    nm.clone()
                                                } else {
                                                    String::new()
                                                };
                                                let out = Output {
                                                    kind: Type::Module,
                                                    name,
                                                    doc: doc(toks, i),
                                                    information: Info::Module {
                                                        content: children,
                                                    },
                                                };
                                                Ok((Some(out), i + 1, first))
                                            },
                                        }
                                    }
                                },
                            }
                        } else {
                            match exec_find_close(toks, p + 1, 1) {
                                None => Err(DocError::MalformedInput),
                                Some(e0) => {
                                    proof {
                                        lemma_find_close_bounds(toks@, p as int + 1, 1);
                                    }
                                    let su = subvec(toks, p + 1, e0 - 1);
                                    if depth == 0 {
                                        Err(DocError::DepthExceeded)
                                    } else {
                                        match exec_outputs_from(&su, units, depth - 1, 0, true) {
                                            Err(e) => Err(e),
                                            Ok(children) => {
                                                let name = if let Tok::Ident(nm) = &toks[i + 1] {
                                                    nm.clone()
                                                } else {
                                                    String::new()
                                                };
                                                let out = Output {
                                                    kind: Type::Module,
                                                    name,
                                                    doc: doc(toks, i),
                                                    information: Info::Module {
                                                        content: children,
                                                    },
                                                };
                                                let e = if inline {
                                                    if e0 <= i {
                                                        i + 1
                                                    } else if e0 > n {
                                                        n
                                                    } else {
                                                        e0
                                                    }
                                                } else {
                                                    i + 1
                                                };
                                                Ok((Some(out), e, first))
                                            },
                                        }
                                    }
                                },
                            }
                        }
                    },
                }
            }
        },
        Tok::DocOuter(_) => {
            let (text, e) = outer_doc(toks, i);
            if first {
                let out = Output {
                    kind: Type::OuterComment,
                    name: String::new(),
                    doc: text,
                    information: Info::Blanc,
                };
                Ok((Some(out), i + 1, false))
            } else {
                let out = Output {
                    kind: Type::OuterComment,
                    name: String::new(),
                    doc: String::new(),
                    information: Info::Blanc,
                };
                Ok((Some(out), i + 1, e == i))
            }
        },
        Tok::KwImpl => {
            match exec_skip_past(toks, i) {
                None => Err(DocError::MalformedInput),
                Some(e0) => {
                    proof {
                        lemma_skip_past_bounds(toks@, i as int);
                    }
                    let e = if e0 <= i {
                        i + 1
                    } else if e0 > n {
                        n
                    } else {
                        e0
                    };
                    Ok((None, e, first))
                },
            }
        },
        _ => Ok((None, i + 1, first)),
    }
}

fn exec_outputs_from(toks: &Vec<Tok>, units: &Units, depth: usize, i: usize, first: bool) -> (r:
    Result<Vec<Output>, DocError>)
    ensures
        match r {
            Ok(v) => spec_outputs_from(toks@, units@, depth as nat, i as int, first) matches Ok(s)
                && view_outputs(v@) == s,
            Err(e) => spec_outputs_from(toks@, units@, depth as nat, i as int, first)
                matches Err(se) && se == view_err(e),
        },
    decreases depth, toks@.len() - i, 1int,
{
    let n = toks.len();
    if i >= n {
        return Ok(Vec::new());
    }
    match exec_step(toks, units, depth, i, first) {
        Err(e) => Err(e),
        Ok((emit, i2, f2)) => {
            let i3 = if i2 <= i {
                i + 1
            } else if i2 > n {
                n
            } else {
                i2
            };
            match exec_outputs_from(toks, units, depth, i3, f2) {
                Err(e) => Err(e),
                Ok(mut rest) => {
                    let ghost rest0 = rest@;
                    match emit {
                        Some(o) => {
                            rest.insert(0, o);
                            proof {
                                assert(rest@ =~= seq![o] + rest0);
                                assert((seq![o] + rest0).drop_first() =~= rest0);
                                assert(view_outputs(rest@) == seq![view_output(o)] + view_outputs(
                                    rest0,
                                ));
                            }
                            Ok(rest)
                        },
                        None => Ok(rest),
                    }
                },
            }
        },
    }
}

impl Output {
    /// Extracts the declarations of one source unit, given its token
    /// sequence and the set of units that file-backed modules may refer to.
    /// Module bodies, inline or file-backed, are resolved recursively, down
    /// to the extractor's nesting limit.
    pub fn to_output(tokens: &Vec<Tok>, units: &Units) -> (r: Result<Vec<Output>, DocError>)
        ensures
            match r {
                Ok(v) => spec_to_output(tokens@, units@, MODULE_DEPTH_LIMIT as nat) matches Ok(s)
                    && view_outputs(v@) == s,
                Err(e) => spec_to_output(tokens@, units@, MODULE_DEPTH_LIMIT as nat)
                    matches Err(se) && se == view_err(e),
            },
    {
        exec_outputs_from(tokens, units, MODULE_DEPTH_LIMIT, 0, true)
    }
}

} // verus!
