//! Structured failures. A soft match failure carries what was expected, the
//! input position reached, and — for sub-grammar alternatives — the nested
//! reasons that got furthest; a hard diagnostic aborts the whole match.
use vstd::prelude::*;

use crate::ast::Builtin;

verus! {

/// Why one pattern did not match at a position.
#[derive(Debug)]
pub enum FailKind {
    /// The token at the position is not what the pattern requires.
    TokenMismatch,
    /// The input ended before the pattern was satisfied.
    UnexpectedEndOfInput,
    /// Every alternative of the named sub-grammar failed.
    AltsFailed(String),
}

/// The mathematical value of a [`FailKind`].
pub ghost enum FailKindV {
    TokenMismatch,
    UnexpectedEndOfInput,
    AltsFailed(Seq<char>),
}

/// The value of a failure kind.
pub open spec fn fail_kind_view(k: FailKind) -> FailKindV {
    match k {
        FailKind::TokenMismatch => FailKindV::TokenMismatch,
        FailKind::UnexpectedEndOfInput => FailKindV::UnexpectedEndOfInput,
        FailKind::AltsFailed(s) => FailKindV::AltsFailed(s@),
    }
}

/// A soft match failure: its kind, the offset reached in the slice being
/// matched, and, for a sub-grammar, the reasons of the alternatives that got
/// furthest.
#[derive(Debug)]
pub struct MatchFail {
    pub kind: FailKind,
    pub offset: usize,
    pub reasons: Vec<MatchFail>,
}

/// The mathematical value of a [`MatchFail`].
#[verifier::ext_equal]
pub ghost struct FailV {
    pub kind: FailKindV,
    pub offset: int,
    pub reasons: Seq<FailV>,
}

/// The value of a failure.
pub open spec fn fail_view(f: MatchFail) -> FailV
    decreases f, 0int,
{
    FailV {
        kind: fail_kind_view(f.kind),
        offset: f.offset as int,
        reasons: fails_view_from(f.reasons, 0),
    }
}

/// The values of the failures of `fs` from index `i` on.
pub open spec fn fails_view_from(fs: Vec<MatchFail>, i: int) -> Seq<FailV>
    decreases fs, fs@.len() - i + 1,
{
    if 0 <= i < fs@.len() {
        seq![fail_view(fs[i])] + fails_view_from(fs, i + 1)
    } else {
        Seq::empty()
    }
}

/// The values of a whole failure sequence.
pub open spec fn fails_view(fs: Vec<MatchFail>) -> Seq<FailV> {
    fails_view_from(fs, 0)
}

/// `fails_view_from(fs, i)` lists the values of `fs[i..]`, elementwise.
pub broadcast proof fn lemma_fails_view_from(fs: Vec<MatchFail>, i: int)
    requires
        0 <= i <= fs@.len(),
    ensures
        (#[trigger] fails_view_from(fs, i)).len() == fs@.len() - i,
        forall|k: int|
            0 <= k < fs@.len() - i ==> fails_view_from(fs, i)[k] == fail_view(fs@[i + k]),
    decreases fs@.len() - i,
{
    if i < fs@.len() {
        lemma_fails_view_from(fs, i + 1);
    }
}

/// `fails_view` lists the values of `fs`, elementwise.
pub broadcast proof fn lemma_fails_view(fs: Vec<MatchFail>)
    ensures
        (#[trigger] fails_view(fs)).len() == fs@.len(),
        forall|k: int| 0 <= k < fs@.len() ==> fails_view(fs)[k] == fail_view(fs@[k]),
{
    lemma_fails_view_from(fs, 0);
}

/// A hard diagnostic: the whole match stops with it.
#[derive(Debug)]
pub enum MatchDiag {
    /// The slice being matched was not fully consumed: an unexpected token
    /// stands at the offset.
    TrailingInput { offset: usize },
    /// The pattern sequence failed against the slice.
    Unmatched(MatchFail),
    /// A matcher names a sub-grammar that the rule set does not define;
    /// defensive, an upstream invariant rules it out.
    GrammarLookupError { name: String, offset: usize },
    /// The recursion bound was reached while descending into nested groups or
    /// sub-grammars.
    DepthExceeded,
}

/// The mathematical value of a [`MatchDiag`].
pub ghost enum DiagV {
    TrailingInput { offset: int },
    Unmatched(FailV),
    GrammarLookupError { name: Seq<char>, offset: int },
    DepthExceeded,
}

/// The value of a hard diagnostic.
pub open spec fn diag_view(d: MatchDiag) -> DiagV {
    match d {
        MatchDiag::TrailingInput { offset } => DiagV::TrailingInput { offset: offset as int },
        MatchDiag::Unmatched(f) => DiagV::Unmatched(fail_view(f)),
        MatchDiag::GrammarLookupError { name, offset } => DiagV::GrammarLookupError {
            name: name@,
            offset: offset as int,
        },
        MatchDiag::DepthExceeded => DiagV::DepthExceeded,
    }
}

/// A template expansion failure.
#[derive(Debug)]
pub enum ExpandErr {
    /// A path addresses a capture that does not exist.
    CaptureMissing { path: Vec<String> },
    /// `first` or `last` was applied to an existing but empty capture.
    CaptureEmpty { path: Vec<String> },
    /// A builtin was called with the wrong number of arguments.
    ArityError { func: Builtin, got: usize },
    /// `$else` or `$else if` without a preceding conditional.
    ControlFlowMisuse,
}

/// The mathematical value of an [`ExpandErr`].
pub ghost enum ExpandErrV {
    CaptureMissing { path: Seq<Seq<char>> },
    CaptureEmpty { path: Seq<Seq<char>> },
    ArityError { func: Builtin, got: int },
    ControlFlowMisuse,
}

/// The value of an expansion failure.
pub open spec fn expand_err_view(e: ExpandErr) -> ExpandErrV {
    match e {
        ExpandErr::CaptureMissing { path } => ExpandErrV::CaptureMissing {
            path: Seq::new(path@.len(), |i: int| path@[i]@),
        },
        ExpandErr::CaptureEmpty { path } => ExpandErrV::CaptureEmpty {
            path: Seq::new(path@.len(), |i: int| path@[i]@),
        },
        ExpandErr::ArityError { func, got } => ExpandErrV::ArityError {
            func,
            got: got as int,
        },
        ExpandErr::ControlFlowMisuse => ExpandErrV::ControlFlowMisuse,
    }
}

/// The greatest offset among the failures `s[0..i]`; `-1` when `i <= 0`.
pub open spec fn max_offset_upto(s: Seq<FailV>, i: int) -> int
    decreases i,
{
    if 1 < i <= s.len() {
        let m = max_offset_upto(s, i - 1);
        if s[i - 1].offset >= m {
            s[i - 1].offset
        } else {
            m
        }
    } else if i == 1 && i <= s.len() {
        s[0].offset
    } else {
        -1
    }
}

/// The failures among `s[j..]` whose offset is exactly `best`, in order.
pub open spec fn retained_reasons(s: Seq<FailV>, best: int, j: int) -> Seq<FailV>
    decreases s.len() - j,
{
    if 0 <= j < s.len() {
        if s[j].offset == best {
            seq![s[j]] + retained_reasons(s, best, j + 1)
        } else {
            retained_reasons(s, best, j + 1)
        }
    } else {
        Seq::empty()
    }
}

/// The deepest-progress tie-break of a set of alternative failures: the
/// failure of the sub-grammar `name` at the greatest offset any alternative
/// reached, keeping exactly the reasons that reached it.
pub open spec fn alts_failure(name: Seq<char>, offset: int, errs: Seq<FailV>) -> FailV {
    if errs.len() == 0 {
        FailV { kind: FailKindV::AltsFailed(name), offset: offset, reasons: Seq::empty() }
    } else {
        let best = max_offset_upto(errs, errs.len() as int);
        FailV {
            kind: FailKindV::AltsFailed(name),
            offset: best,
            reasons: retained_reasons(errs, best, 0),
        }
    }
}

/// The greatest offset among the failures of `errs`.
pub fn best_offset(errs: &Vec<MatchFail>) -> (r: usize)
    requires
        errs@.len() > 0,
    ensures
        r as int == max_offset_upto(fails_view(*errs), fails_view(*errs).len() as int),
{
    proof {
        broadcast use lemma_fails_view;
    }
    let mut best: usize = errs[0].offset;
    let mut i: usize = 1;
    proof {
        let v = fails_view(*errs);
        assert(max_offset_upto(v, 1) == v[0].offset);
    }
    while i < errs.len()
        invariant
            1 <= i <= errs@.len(),
            best as int == max_offset_upto(fails_view(*errs), i as int),
        decreases errs@.len() - i,
    {
        proof {
            broadcast use lemma_fails_view;
        }
        if errs[i].offset > best {
            best = errs[i].offset;
        }
        i = i + 1;
    }
    best
}

/// Keeps, in order, exactly the failures whose offset is `best`.
pub fn retain_best(errs: Vec<MatchFail>, best: usize) -> (r: Vec<MatchFail>)
    ensures
        fails_view(r) == retained_reasons(fails_view(errs), best as int, 0),
{
    let ghost origv = fails_view(errs);
    let mut rest = errs;
    let mut kept: Vec<MatchFail> = Vec::new();
    let ghost j: int = 0;
    proof {
        broadcast use lemma_fails_view;

        assert(fails_view(kept) =~= Seq::<FailV>::empty());
        assert(fails_view(kept) + retained_reasons(origv, best as int, 0) =~= retained_reasons(
            origv,
            best as int,
            0,
        ));
    }
    while rest.len() > 0
        invariant
            0 <= j <= origv.len(),
            rest@.len() == origv.len() - j,
            forall|k: int| 0 <= k < rest@.len() ==> fail_view(rest@[k]) == origv[j + k],
            fails_view(kept) + retained_reasons(origv, best as int, j) == retained_reasons(
                origv,
                best as int,
                0,
            ),
        decreases rest@.len(),
    {
        proof {
            broadcast use lemma_fails_view;
        }
        let ghost old_keptv = fails_view(kept);
        let e = rest.remove(0);
        if e.offset == best {
            kept.push(e);
            proof {
                assert(fails_view(kept) =~= old_keptv.push(origv[j]));
                assert(fails_view(kept) + retained_reasons(origv, best as int, j + 1)
                    =~= old_keptv + retained_reasons(origv, best as int, j));
            }
        } else {
            proof {
                assert(retained_reasons(origv, best as int, j + 1) == retained_reasons(
                    origv,
                    best as int,
                    j,
                ));
            }
        }
        proof {
            j = j + 1;
        }
    }
    proof {
        broadcast use lemma_fails_view;

        assert(retained_reasons(origv, best as int, j) =~= Seq::<FailV>::empty());
        assert(fails_view(kept) =~= fails_view(kept) + Seq::<FailV>::empty());
    }
    kept
}

} // verus!
