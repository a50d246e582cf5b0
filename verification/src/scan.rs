use vstd::prelude::*;

use crate::token::is_decl_boundary;
use crate::token::is_ordinary_doc;
use crate::token::ordinary_doc_text;
use crate::token::outer_doc_text;
use crate::token::tok_text;
use crate::token::tok_text_str;
use crate::token::Tok;

verus! {

// ---------------------------------------------------------------------------
// Brace tracking
// ---------------------------------------------------------------------------

/// The index of the first opening brace at or after `i`, if any.
pub open spec fn find_open(toks: Seq<Tok>, i: int) -> Option<int>
    decreases toks.len() - i,
{
    if i < 0 || i >= toks.len() {
        None
    } else if toks[i] is LBrace {
        Some(i)
    } else {
        find_open(toks, i + 1)
    }
}

/// Starting at `i` with `depth` braces already open, the index just past the
/// token that closes the outermost of them; `None` if the sequence ends first.
pub open spec fn find_close(toks: Seq<Tok>, i: int, depth: nat) -> Option<int>
    decreases toks.len() - i,
{
    if depth == 0 {
        Some(i)
    } else if i < 0 || i >= toks.len() {
        None
    } else if toks[i] is LBrace {
        find_close(toks, i + 1, depth + 1)
    } else if toks[i] is RBrace {
        find_close(toks, i + 1, (depth - 1) as nat)
    } else {
        find_close(toks, i + 1, depth)
    }
}

/// The index just past the brace-balanced block whose opening brace is the
/// first one at or after `i`: the scan resumes there after skipping a block.
pub open spec fn skip_past(toks: Seq<Tok>, i: int) -> Option<int> {
    match find_open(toks, i) {
        None => None,
        Some(b) => find_close(toks, b + 1, 1),
    }
}

/// Whatever index `find_close` returns lies between `i` and the end.
pub proof fn lemma_find_close_bounds(toks: Seq<Tok>, i: int, depth: nat)
    requires
        0 <= i <= toks.len(),
    ensures
        match find_close(toks, i, depth) {
            Some(e) => i <= e <= toks.len() && (depth != 0 ==> i < e),
            None => true,
        },
    decreases toks.len() - i,
{
    if depth != 0 && i < toks.len() {
        if toks[i] is LBrace {
            lemma_find_close_bounds(toks, i + 1, depth + 1);
        } else if toks[i] is RBrace {
            lemma_find_close_bounds(toks, i + 1, (depth - 1) as nat);
        } else {
            lemma_find_close_bounds(toks, i + 1, depth);
        }
    }
}

/// Whatever index `find_open` returns points at a brace within bounds.
pub proof fn lemma_find_open_bounds(toks: Seq<Tok>, i: int)
    requires
        0 <= i,
    ensures
        match find_open(toks, i) {
            Some(b) => i <= b < toks.len() && toks[b] is LBrace,
            None => true,
        },
    decreases toks.len() - i,
{
    if i < toks.len() && !(toks[i] is LBrace) {
        lemma_find_open_bounds(toks, i + 1);
    }
}

/// Whatever index `skip_past` returns lies after `i` and within the sequence.
pub proof fn lemma_skip_past_bounds(toks: Seq<Tok>, i: int)
    requires
        0 <= i,
    ensures
        match skip_past(toks, i) {
            Some(e) => i < e <= toks.len(),
            None => true,
        },
{
    lemma_find_open_bounds(toks, i);
    if let Some(b) = find_open(toks, i) {
        lemma_find_close_bounds(toks, b + 1, 1);
    }
}

pub fn exec_find_open(toks: &Vec<Tok>, i: usize) -> (r: Option<usize>)
    ensures
        match r {
            Some(b) => find_open(toks@, i as int) == Some(b as int),
            None => find_open(toks@, i as int) is None,
        },
    decreases toks@.len() - i,
{
    if i >= toks.len() {
        None
    } else if let Tok::LBrace = &toks[i] {
        Some(i)
    } else {
        exec_find_open(toks, i + 1)
    }
}

pub fn exec_find_close(toks: &Vec<Tok>, i: usize, depth: usize) -> (r: Option<usize>)
    requires
        depth <= i + 1,
    ensures
        match r {
            Some(e) => find_close(toks@, i as int, depth as nat) == Some(e as int),
            None => find_close(toks@, i as int, depth as nat) is None,
        },
    decreases toks@.len() - i,
{
    if depth == 0 {
        Some(i)
    } else if i >= toks.len() {
        None
    } else {
        match &toks[i] {
            Tok::LBrace => {
                if depth == usize::MAX {
                    // Unreachable for any sequence that fits in memory: the
                    // depth never exceeds the number of tokens seen. Treat it
                    // as an unclosed block.
                    proof {
                        lemma_depth_bounded_by_len(toks@, i as int, depth as nat);
                    }
                    None
                } else {
                    exec_find_close(toks, i + 1, depth + 1)
                }
            },
            Tok::RBrace => exec_find_close(toks, i + 1, depth - 1),
            _ => exec_find_close(toks, i + 1, depth),
        }
    }
}

/// A closing index can only be found if the remaining tokens can close the
/// open braces, so the open count is bounded by the remaining length.
proof fn lemma_depth_bounded_by_len(toks: Seq<Tok>, i: int, depth: nat)
    requires
        0 <= i <= toks.len(),
        depth > toks.len() - i,
    ensures
        find_close(toks, i, depth) is None,
    decreases toks.len() - i,
{
    if depth != 0 && i < toks.len() {
        if toks[i] is LBrace {
            lemma_depth_bounded_by_len(toks, i + 1, depth + 1);
        } else if toks[i] is RBrace {
            lemma_depth_bounded_by_len(toks, i + 1, (depth - 1) as nat);
        } else {
            lemma_depth_bounded_by_len(toks, i + 1, depth);
        }
    }
}

pub fn exec_skip_past(toks: &Vec<Tok>, i: usize) -> (r: Option<usize>)
    ensures
        match r {
            Some(e) => skip_past(toks@, i as int) == Some(e as int),
            None => skip_past(toks@, i as int) is None,
        },
{
    let n = toks.len();
    match exec_find_open(toks, i) {
        None => None,
        Some(b) => {
            proof {
                lemma_find_open_bounds(toks@, i as int);
            }
            exec_find_close(toks, b + 1, 1)
        },
    }
}

// ---------------------------------------------------------------------------
// Signature text
// ---------------------------------------------------------------------------

/// The index of the first opening brace or semicolon at or after `i`: the
/// token that terminates a plain signature.
pub open spec fn find_terminator(toks: Seq<Tok>, i: int) -> Option<int>
    decreases toks.len() - i,
{
    if i < 0 || i >= toks.len() {
        None
    } else if toks[i] is LBrace || toks[i] is Semi {
        Some(i)
    } else {
        find_terminator(toks, i + 1)
    }
}

pub proof fn lemma_find_terminator_bounds(toks: Seq<Tok>, i: int)
    requires
        0 <= i,
    ensures
        match find_terminator(toks, i) {
            Some(t) => i <= t < toks.len(),
            None => true,
        },
    decreases toks.len() - i,
{
    if i < toks.len() && !(toks[i] is LBrace || toks[i] is Semi) {
        lemma_find_terminator_bounds(toks, i + 1);
    }
}

/// The texts of the tokens in `[i, end)`, each followed by a single space.
pub open spec fn join_tokens(toks: Seq<Tok>, i: int, end: int) -> Seq<char>
    decreases end - i,
{
    if i < 0 || i >= end || end > toks.len() {
        Seq::empty()
    } else {
        tok_text(toks[i]) + " "@ + join_tokens(toks, i + 1, end)
    }
}

/// The rebuilt text of a plain signature starting at `i`: every token up to
/// the first opening brace or semicolon, space-joined; `None` if the
/// sequence ends without a terminator.
pub open spec fn spec_fn_signature(toks: Seq<Tok>, i: int) -> Option<Seq<char>> {
    match find_terminator(toks, i) {
        None => None,
        Some(t) => Some(join_tokens(toks, i, t)),
    }
}

pub fn exec_find_terminator(toks: &Vec<Tok>, i: usize) -> (r: Option<usize>)
    ensures
        match r {
            Some(t) => find_terminator(toks@, i as int) == Some(t as int),
            None => find_terminator(toks@, i as int) is None,
        },
    decreases toks@.len() - i,
{
    if i >= toks.len() {
        None
    } else {
        match &toks[i] {
            Tok::LBrace => Some(i),
            Tok::Semi => Some(i),
            _ => exec_find_terminator(toks, i + 1),
        }
    }
}

pub fn exec_join_tokens(toks: &Vec<Tok>, i: usize, end: usize) -> (r: String)
    requires
        end <= toks@.len(),
    ensures
        r@ == join_tokens(toks@, i as int, end as int),
    decreases end - i,
{
    let mut res = String::new();
    if i < end {
        res.append(tok_text_str(&toks[i]));
        res.append(" ");
        let rest = exec_join_tokens(toks, i + 1, end);
        res.append(rest.as_str());
    }
    res
}

/// Rebuilds the signature of a function declaration whose introducing
/// keyword stands at `i`.
pub fn fn_signature(toks: &Vec<Tok>, i: usize) -> (r: Option<String>)
    ensures
        match r {
            Some(s) => spec_fn_signature(toks@, i as int) == Some(s@),
            None => spec_fn_signature(toks@, i as int) is None,
        },
{
    match exec_find_terminator(toks, i) {
        None => None,
        Some(t) => {
            proof {
                lemma_find_terminator_bounds(toks@, i as int);
            }
            Some(exec_join_tokens(toks, i, t))
        },
    }
}

// ---------------------------------------------------------------------------
// Doc-comment association
// ---------------------------------------------------------------------------

/// The concatenated text of the contiguous run of ordinary doc comments
/// ending at `e` (inclusive), in source order; empty if `e` holds none.
pub open spec fn ordinary_run_text(toks: Seq<Tok>, e: int) -> Seq<char>
    decreases e + 1,
{
    if e < 0 || e >= toks.len() {
        Seq::empty()
    } else if is_ordinary_doc(toks[e]) {
        ordinary_run_text(toks, e - 1) + ordinary_doc_text(toks[e])
    } else {
        Seq::empty()
    }
}

/// Walking backward from `j`, the ordinary doc comments found before the
/// nearest declaration-introducing keyword, concatenated in source order.
pub open spec fn gather_ordinary(toks: Seq<Tok>, j: int) -> Seq<char>
    decreases j + 1,
{
    if j < 0 || j >= toks.len() {
        Seq::empty()
    } else if is_ordinary_doc(toks[j]) {
        gather_ordinary(toks, j - 1) + ordinary_doc_text(toks[j])
    } else if is_decl_boundary(toks[j]) {
        Seq::empty()
    } else {
        gather_ordinary(toks, j - 1)
    }
}

/// The doc text attached to the declaration whose introducing keyword stands
/// at `i`: if the token directly before it is an ordinary doc comment, the
/// whole contiguous run of them; otherwise whatever ordinary doc comments
/// stand between the declaration and the nearest earlier declaration keyword.
pub open spec fn spec_doc(toks: Seq<Tok>, i: int) -> Seq<char> {
    if i <= 0 || i > toks.len() {
        Seq::empty()
    } else if i - 1 < toks.len() && is_ordinary_doc(toks[i - 1]) {
        ordinary_run_text(toks, i - 1)
    } else {
        gather_ordinary(toks, i - 2)
    }
}

/// The concatenated text of the contiguous run of outer comments ending at
/// `e` (inclusive), in source order; empty if `e` holds none.
pub open spec fn outer_run_back(toks: Seq<Tok>, e: int) -> Seq<char>
    decreases e + 1,
{
    if e < 0 || e >= toks.len() {
        Seq::empty()
    } else if toks[e] is DocOuter {
        outer_run_back(toks, e - 1) + outer_doc_text(toks[e])
    } else {
        Seq::empty()
    }
}

/// Walking backward from `j`, the outer comments found before the nearest
/// declaration-introducing keyword, concatenated in source order.
pub open spec fn gather_outer(toks: Seq<Tok>, j: int) -> Seq<char>
    decreases j + 1,
{
    if j < 0 || j >= toks.len() {
        Seq::empty()
    } else if toks[j] is DocOuter {
        gather_outer(toks, j - 1) + outer_doc_text(toks[j])
    } else if is_decl_boundary(toks[j]) {
        Seq::empty()
    } else {
        gather_outer(toks, j - 1)
    }
}

/// The remarks attached to a struct or trait declaration at `i`: the same
/// two-branch search as `spec_doc`, restricted to outer comments.
pub open spec fn spec_remarks(toks: Seq<Tok>, i: int) -> Seq<char> {
    if i <= 0 || i > toks.len() {
        Seq::empty()
    } else if i - 1 < toks.len() && toks[i - 1] is DocOuter {
        outer_run_back(toks, i - 1)
    } else {
        gather_outer(toks, i - 2)
    }
}

/// The index of the last token of the contiguous outer-comment run starting
/// at `i`.
pub open spec fn outer_run_end(toks: Seq<Tok>, i: int) -> int
    decreases toks.len() - i,
{
    if 0 <= i && i + 1 < toks.len() && toks[i + 1] is DocOuter {
        outer_run_end(toks, i + 1)
    } else {
        i
    }
}

/// The text following the head of an outer-comment run starting at `i`: the
/// concatenated contents of the contiguous outer comments after `i`.
pub open spec fn outer_tail_text(toks: Seq<Tok>, i: int) -> Seq<char>
    decreases toks.len() - i,
{
    if 0 <= i && i + 1 < toks.len() && toks[i + 1] is DocOuter {
        outer_doc_text(toks[i + 1]) + outer_tail_text(toks, i + 1)
    } else {
        Seq::empty()
    }
}

/// The full text of the outer-comment run starting at `i`: the head token's
/// textual form followed by the contents of the rest of the run.
pub open spec fn outer_run_text(toks: Seq<Tok>, i: int) -> Seq<char> {
    if 0 <= i < toks.len() {
        tok_text(toks[i]) + outer_tail_text(toks, i)
    } else {
        Seq::empty()
    }
}

fn exec_ordinary_run_text(toks: &Vec<Tok>, e: usize) -> (r: String)
    requires
        e < toks@.len(),
    ensures
        r@ == ordinary_run_text(toks@, e as int),
    decreases e,
{
    match &toks[e] {
        Tok::DocLine(s) => {
            let mut res = if e > 0 {
                exec_ordinary_run_text(toks, e - 1)
            } else {
                String::new()
            };
            res.append(s.as_str());
            assert(res@ == ordinary_run_text(toks@, e as int - 1) + ordinary_doc_text(
                toks@[e as int],
            ));
            res
        },
        Tok::DocBlock(s) => {
            let mut res = if e > 0 {
                exec_ordinary_run_text(toks, e - 1)
            } else {
                String::new()
            };
            res.append(s.as_str());
            assert(res@ == ordinary_run_text(toks@, e as int - 1) + ordinary_doc_text(
                toks@[e as int],
            ));
            res
        },
        _ => String::new(),
    }
}

fn exec_gather_ordinary(toks: &Vec<Tok>, j: usize) -> (r: String)
    requires
        j < toks@.len(),
    ensures
        r@ == gather_ordinary(toks@, j as int),
    decreases j,
{
    match &toks[j] {
        Tok::DocLine(s) => {
            let mut res = if j > 0 {
                exec_gather_ordinary(toks, j - 1)
            } else {
                String::new()
            };
            res.append(s.as_str());
            assert(res@ == gather_ordinary(toks@, j as int - 1) + ordinary_doc_text(
                toks@[j as int],
            ));
            res
        },
        Tok::DocBlock(s) => {
            let mut res = if j > 0 {
                exec_gather_ordinary(toks, j - 1)
            } else {
                String::new()
            };
            res.append(s.as_str());
            assert(res@ == gather_ordinary(toks@, j as int - 1) + ordinary_doc_text(
                toks@[j as int],
            ));
            res
        },
        Tok::KwFn | Tok::KwMod | Tok::KwStruct | Tok::KwTrait | Tok::KwImpl => String::new(),
        _ => {
            proof {
                reveal_with_fuel(gather_ordinary, 2);
            }
            if j > 0 {
                exec_gather_ordinary(toks, j - 1)
            } else {
                String::new()
            }
        },
    }
}

/// The doc text attached to the declaration whose introducing keyword stands
/// at `i`.
pub fn doc(toks: &Vec<Tok>, i: usize) -> (r: String)
    requires
        i <= toks@.len(),
    ensures
        r@ == spec_doc(toks@, i as int),
{
    if i == 0 {
        return String::new();
    }
    match &toks[i - 1] {
        Tok::DocLine(_) | Tok::DocBlock(_) => exec_ordinary_run_text(toks, i - 1),
        _ => {
            if i >= 2 {
                exec_gather_ordinary(toks, i - 2)
            } else {
                String::new()
            }
        },
    }
}

fn exec_outer_run_back(toks: &Vec<Tok>, e: usize) -> (r: String)
    requires
        e < toks@.len(),
    ensures
        r@ == outer_run_back(toks@, e as int),
    decreases e,
{
    match &toks[e] {
        Tok::DocOuter(s) => {
            let mut res = if e > 0 {
                exec_outer_run_back(toks, e - 1)
            } else {
                String::new()
            };
            res.append(s.as_str());
            assert(res@ == outer_run_back(toks@, e as int - 1) + outer_doc_text(
                toks@[e as int],
            ));
            res
        },
        _ => String::new(),
    }
}

fn exec_gather_outer(toks: &Vec<Tok>, j: usize) -> (r: String)
    requires
        j < toks@.len(),
    ensures
        r@ == gather_outer(toks@, j as int),
    decreases j,
{
    match &toks[j] {
        Tok::DocOuter(s) => {
            let mut res = if j > 0 {
                exec_gather_outer(toks, j - 1)
            } else {
                String::new()
            };
            res.append(s.as_str());
            assert(res@ == gather_outer(toks@, j as int - 1) + outer_doc_text(toks@[j as int]));
            res
        },
        Tok::KwFn | Tok::KwMod | Tok::KwStruct | Tok::KwTrait | Tok::KwImpl => String::new(),
        _ => {
            proof {
                reveal_with_fuel(gather_outer, 2);
            }
            if j > 0 {
                exec_gather_outer(toks, j - 1)
            } else {
                String::new()
            }
        },
    }
}

/// The remarks attached to a struct or trait declaration at `i`.
pub fn additional_doc(toks: &Vec<Tok>, i: usize) -> (r: String)
    requires
        i <= toks@.len(),
    ensures
        r@ == spec_remarks(toks@, i as int),
{
    if i == 0 {
        return String::new();
    }
    match &toks[i - 1] {
        Tok::DocOuter(_) => exec_outer_run_back(toks, i - 1),
        _ => {
            if i >= 2 {
                exec_gather_outer(toks, i - 2)
            } else {
                String::new()
            }
        },
    }
}

/// The outer-comment run starting at `i`: its full text and the index of its
/// last token.
pub fn outer_doc(toks: &Vec<Tok>, i: usize) -> (r: (String, usize))
    requires
        i < toks@.len(),
    ensures
        r.0@ == outer_run_text(toks@, i as int),
        r.1 as int == outer_run_end(toks@, i as int),
        i <= r.1 < toks@.len(),
    decreases toks@.len() - i,
{
    let n = toks.len();
    let mut res = String::new();
    res.append(tok_text_str(&toks[i]));
    if i < n - 1 {
        if let Tok::DocOuter(s) = &toks[i + 1] {
            let (tail, e) = outer_doc_tail(toks, i);
            res.append(tail.as_str());
            return (res, e);
        }
    }
    (res, i)
}

fn outer_doc_tail(toks: &Vec<Tok>, i: usize) -> (r: (String, usize))
    requires
        i < toks@.len(),
    ensures
        r.0@ == outer_tail_text(toks@, i as int),
        r.1 as int == outer_run_end(toks@, i as int),
        i <= r.1 < toks@.len(),
    decreases toks@.len() - i,
{
    let n = toks.len();
    if i < n - 1 {
        if let Tok::DocOuter(s) = &toks[i + 1] {
            let mut res = String::new();
            res.append(s.as_str());
            let (tail, e) = outer_doc_tail(toks, i + 1);
            res.append(tail.as_str());
            return (res, e);
        }
    }
    (String::new(), i)
}

} // verus!
