use vstd::prelude::*;

use crate::docmap::DocMap;
use crate::docmap::spec_insert;
use crate::extract::MODULE_DEPTH_LIMIT;
use crate::extract::Units;
use crate::extract::lookup_unit;
use crate::extract::spec_to_output;
use crate::model::DocError;
use crate::model::DocErrorV;
use crate::model::InfoV;
use crate::model::Output;
use crate::model::OutputV;
use crate::model::lemma_view_outputs_index;
use crate::model::view_err;
use crate::model::view_output;
use crate::model::view_outputs;
use crate::token::Tok;

verus! {

// ---------------------------------------------------------------------------
// File stems
// ---------------------------------------------------------------------------

/// The index of the last `c` strictly before position `m` of `s`, or -1.
pub open spec fn last_pos(s: Seq<char>, c: char, m: int) -> int
    decreases m,
{
    if m <= 0 || m > s.len() {
        -1
    } else if s[m - 1] == c {
        m - 1
    } else {
        last_pos(s, c, m - 1)
    }
}

/// The stem of a file name at the end of a path: the final path component
/// without its extension. The component runs from past the last separator;
/// an empty component, `.` and `..` have no stem; the extension begins at
/// the last dot, unless that dot starts the component.
pub open spec fn spec_file_stem(s: Seq<char>) -> Option<Seq<char>> {
    let sl = last_pos(s, '/', s.len() as int);
    let name = s.subrange(sl + 1, s.len() as int);
    if name.len() == 0 || name =~= "."@ || name =~= ".."@ {
        None
    } else {
        let d = last_pos(name, '.', name.len() as int);
        if d <= 0 {
            Some(name)
        } else {
            Some(name.subrange(0, d))
        }
    }
}

pub proof fn lemma_last_pos_bounds(s: Seq<char>, c: char, m: int)
    requires
        0 <= m,
    ensures
        -1 <= last_pos(s, c, m) < m,
        0 <= last_pos(s, c, m) ==> last_pos(s, c, m) < s.len(),
    decreases m,
{
    if !(m <= 0 || m > s.len()) && !(s[m - 1] == c) {
        lemma_last_pos_bounds(s, c, m - 1);
    }
}

fn exec_last_pos(s: &str, c: char, m: usize) -> (r: (bool, usize))
    requires
        m <= s@.len(),
    ensures
        r.0 ==> r.1 as int == last_pos(s@, c, m as int) && r.1 < m,
        !r.0 ==> last_pos(s@, c, m as int) == -1,
    decreases m,
{
    if m == 0 {
        (false, 0)
    } else if s.get_char(m - 1) == c {
        (true, m - 1)
    } else {
        exec_last_pos(s, c, m - 1)
    }
}

/// The stem of the file named by a path: the final component of the path
/// without its extension, or nothing when the path ends in an empty, `.` or
/// `..` component.
pub fn extract_filename(filename_with_path: &str) -> (r: Option<&str>)
    ensures
        match r {
            Some(stem) => spec_file_stem(filename_with_path@) == Some(stem@),
            None => spec_file_stem(filename_with_path@) is None,
        },
{
    let s = filename_with_path;
    let n = s.unicode_len();
    let (has_sl, sl) = exec_last_pos(s, '/', n);
    let start: usize = if has_sl {
        sl + 1
    } else {
        0
    };
    proof {
        lemma_last_pos_bounds(s@, '/', n as int);
        assert(start as int == last_pos(s@, '/', n as int) + 1);
    }
    let name_len = n - start;
    let ghost name = s@.subrange(start as int, n as int);
    if name_len == 0 {
        return None;
    }
    // a component of dots alone has no stem
    if name_len == 1 && s.get_char(start) == '.' {
        proof {
            reveal_strlit(".");
            assert(name =~= "."@);
        }
        return None;
    }
    if name_len == 2 && s.get_char(start) == '.' && s.get_char(start + 1) == '.' {
        proof {
            reveal_strlit("..");
            assert(name =~= ".."@);
        }
        return None;
    }
    proof {
        reveal_strlit(".");
        reveal_strlit("..");
        assert(!(name =~= "."@) && !(name =~= ".."@)) by {
            if name =~= "."@ {
                assert(name.len() == 1 && name[0] == '.');
            }
            if name =~= ".."@ {
                assert(name.len() == 2 && name[0] == '.' && name[1] == '.');
            }
        }
    }
    let (has_d, d0) = exec_last_pos(s, '.', n);
    proof {
        lemma_last_pos_bounds(s@, '.', n as int);
    }
    let has_dot_in_name = has_d && d0 > start;
    proof {
        lemma_last_pos_in_subrange(s@, '.', start as int, n as int);
    }
    if has_dot_in_name {
        let stem = s.substring_char(start, d0);
        proof {
            assert(stem@ =~= name.subrange(0, d0 - start));
        }
        Some(stem)
    } else {
        let stem = s.substring_char(start, n);
        proof {
            assert(stem@ =~= name);
        }
        Some(stem)
    }
}

/// Looking for a character inside the final component: a hit past `start`
/// in the whole string is the same hit in the component, and a miss there
/// means the component has none past its first position.
proof fn lemma_last_pos_in_subrange(s: Seq<char>, c: char, start: int, n: int)
    requires
        0 <= start <= n <= s.len(),
        last_pos(s, '/', n) < start,
    ensures
        ({
            let name = s.subrange(start, n);
            let dw = last_pos(s, c, n);
            let dn = last_pos(name, c, name.len() as int);
            &&& (dw > start ==> dn == dw - start)
            &&& (!(dw > start) ==> dn <= 0)
        }),
    decreases n,
{
    let name = s.subrange(start, n);
    let dw = last_pos(s, c, n);
    lemma_last_pos_bounds(s, c, n);
    lemma_last_pos_sub(s, c, start, n, n - start);
}

/// Relates searching the tail of `s` with searching the subrange directly:
/// positions shift by `start`.
proof fn lemma_last_pos_sub(s: Seq<char>, c: char, start: int, n: int, m: int)
    requires
        0 <= start <= n <= s.len(),
        0 <= m <= n - start,
    ensures
        ({
            let name = s.subrange(start, n);
            let dw = last_pos(s, c, start + m);
            let dn = last_pos(name, c, m);
            &&& (dw >= start ==> dn == dw - start)
            &&& (dw < start ==> dn == -1)
        }),
    decreases m,
{
    lemma_last_pos_bounds(s, c, start + m);
    if m > 0 {
        lemma_last_pos_sub(s, c, start, n, m - 1);
    }
}

// ---------------------------------------------------------------------------
// The public entry points
// ---------------------------------------------------------------------------

/// The extracted declarations of a root unit together with the unit's name,
/// ready for rendering.
#[derive(Debug)]
pub struct AllOutput {
    pub all_output: Vec<Output>,
    pub filename: String,
}

/// What extraction of the unit named by `path` yields: the unit's stem and
/// its declarations, or the error. A path without a stem, and a stem with
/// no registered unit, are reported as unreadable.
pub open spec fn spec_generate_doc(path: Seq<char>, units: Seq<(String, Vec<Tok>)>) -> Result<
    (Seq<char>, Seq<OutputV>),
    DocErrorV,
> {
    match spec_file_stem(path) {
        None => Err(DocErrorV::SourceUnreadable(path)),
        Some(stem) => match lookup_unit(units, 0, stem) {
            None => Err(DocErrorV::SourceUnreadable(stem)),
            Some(toks) => match spec_to_output(toks, units, MODULE_DEPTH_LIMIT as nat) {
                Err(e) => Err(e),
                Ok(outs) => Ok((stem, outs)),
            },
        },
    }
}

/// Extracts the document tree of the source unit named by `input_file`:
/// the unit registered under the path's stem, with file-backed modules
/// resolved among `units`.
pub fn generate_doc(input_file: &str, units: &Units) -> (r: Result<AllOutput, DocError>)
    ensures
        match r {
            Ok(a) => spec_generate_doc(input_file@, units@) matches Ok((fname, outs))
                && a.filename@ == fname
                && view_outputs(a.all_output@) == outs,
            Err(e) => spec_generate_doc(input_file@, units@) matches Err(se) && se == view_err(e),
        },
{
    match extract_filename(input_file) {
        None => Err(DocError::SourceUnreadable(String::from_str(input_file))),
        Some(stem) => {
            let filename = String::from_str(stem);
            match units.get(&filename) {
                None => Err(DocError::SourceUnreadable(filename)),
                Some(toks) => match Output::to_output(toks, units) {
                    Err(e) => Err(e),
                    Ok(outs) => Ok(AllOutput { all_output: outs, filename }),
                },
            }
        },
    }
}

/// The mapping derived from extraction of the unit named by `path`: each
/// declaration's payload mapped to its doc text, in scan order, later
/// declarations with an equal payload replacing earlier ones.
pub open spec fn spec_get_map(path: Seq<char>, units: Seq<(String, Vec<Tok>)>) -> Result<
    Seq<(InfoV, Seq<char>)>,
    DocErrorV,
> {
    match spec_generate_doc(path, units) {
        Err(e) => Err(e),
        Ok((fname, outs)) => Ok(spec_fold_map(Seq::empty(), outs)),
    }
}

/// Folds the declarations into the mapping, in order.
pub open spec fn spec_fold_map(m: Seq<(InfoV, Seq<char>)>, outs: Seq<OutputV>) -> Seq<
    (InfoV, Seq<char>),
>
    decreases outs.len(),
{
    if outs.len() == 0 {
        m
    } else {
        spec_fold_map(spec_insert(m, outs[0].information, outs[0].doc), outs.drop_first())
    }
}

/// Builds the content-addressed mapping from each extracted declaration's
/// payload to its doc text, for the unit named by `input_file`.
pub fn get_map(input_file: &str, units: &Units) -> (r: Result<DocMap, DocError>)
    ensures
        match r {
            Ok(m) => spec_get_map(input_file@, units@) matches Ok(sm) && m@ == sm,
            Err(e) => spec_get_map(input_file@, units@) matches Err(se) && se == view_err(e),
        },
{
    match generate_doc(input_file, units) {
        Err(e) => Err(e),
        Ok(a) => {
            let mut outs = a.all_output;
            let ghost souts = view_outputs(outs@);
            let mut m = DocMap::new();
            proof {
                assert(spec_fold_map(m@, view_outputs(outs@)) == spec_fold_map(
                    Seq::empty(),
                    souts,
                ));
            }
            while outs.len() > 0
                invariant
                    spec_fold_map(m@, view_outputs(outs@)) == spec_fold_map(Seq::empty(), souts),
                decreases outs@.len(),
            {
                let ghost outs0 = outs@;
                let ghost m_old = m@;
                let first = outs.remove(0);
                m.insert(first.information, first.doc);
                proof {
                    assert(outs@ =~= outs0.drop_first());
                    let v0 = view_output(outs0[0]);
                    let rest = view_outputs(outs0.drop_first());
                    assert(view_outputs(outs0) == seq![v0] + rest);
                    assert((seq![v0] + rest).drop_first() =~= rest);
                    assert(spec_fold_map(m_old, view_outputs(outs0)) == spec_fold_map(
                        spec_insert(m_old, v0.information, v0.doc),
                        rest,
                    ));
                    assert(view_outputs(outs@) == rest);
                }
            }
            proof {
                assert(view_outputs(outs@).len() == 0);
            }
            Ok(m)
        },
    }
}

} // verus!
