//! The engine's laws: properties of matching and expansion, proved once and
//! for all against the functional models that the executable engine is
//! verified to implement exactly.
use vstd::prelude::*;

use crate::ast::{Matcher, Path, Pattern, Quantifier, Repeat, Replacement, RuleSet,
    SpecialReplacement, path_view};
use crate::capture::{CapEntries, CaptureV, cap_add_token, cap_find};
use crate::diag::{FailV, alts_failure, max_offset_upto, retained_reasons};
use crate::expand::{ExpV, IfState, spec_expand, spec_expand_seq};
use crate::matching::{AltsV, SliceV, StepV, spec_match_alts, spec_match_matcher,
    spec_match_repeat, spec_match_rules, spec_match_seq};
use crate::token::{Delimiter, Spacing, TokenV};

verus! {

/// Determinism: matching the same input against the same rule set always
/// yields the same capture tree or the same failure — the result is a
/// function of the rule set and the input alone. `match_rules` returns
/// exactly `spec_match_rules(rs, tokens)`, so any two of its results agree.
pub proof fn lemma_match_deterministic(rs: RuleSet, tokens: Seq<TokenV>, r1: SliceV, r2: SliceV)
    requires
        r1 == spec_match_rules(rs, tokens),
        r2 == spec_match_rules(rs, tokens),
    ensures
        r1 == r2,
{
}

/// Determinism of expansion: the same capture tree and template always yield
/// the same output tokens or the same failure.
pub proof fn lemma_expand_deterministic(
    m: CaptureV,
    template: Vec<Replacement>,
    r1: ExpV,
    r2: ExpV,
)
    requires
        r1 == spec_expand(m, template),
        r2 == spec_expand(m, template),
    ensures
        r1 == r2,
{
}

/// Ordered choice: when the first alternative of a sub-grammar matches, its
/// result is the one used — even if a later alternative would also match, or
/// would consume more tokens. Later alternatives are never consulted.
pub proof fn lemma_ordered_choice(
    rs: RuleSet,
    alts: Vec<Vec<Pattern>>,
    tokens: Seq<TokenV>,
    offset: int,
    depth: nat,
    o: int,
    c: CapEntries,
)
    requires
        alts@.len() > 0,
        spec_match_seq(rs, alts@[0], 0, tokens, offset, Seq::empty(), depth) == (StepV::Advanced {
            offset: o,
            caps: c,
        }),
    ensures
        spec_match_alts(rs, alts, 0, tokens, offset, depth) == (AltsV::Chosen {
            offset: o,
            cap: CaptureV {
                tokens: seq![TokenV::Group(Delimiter::Bare, tokens.subrange(offset, o))],
                children: c,
            },
        }),
{
}

/// Zero repetition: at the end of the input, a star matcher succeeds with
/// zero captures and an unchanged offset — the sequence simply moves past it.
pub proof fn lemma_zero_repetition(
    rs: RuleSet,
    pats: Vec<Pattern>,
    pi: int,
    m: Matcher,
    tokens: Seq<TokenV>,
    offset: int,
    caps: CapEntries,
    depth: nat,
)
    requires
        0 <= pi < pats@.len(),
        pats@[pi] == Pattern::Matcher(m),
        m.spec_quantifier() == Some(Quantifier::Star),
        offset >= tokens.len(),
    ensures
        spec_match_seq(rs, pats, pi, tokens, offset, caps, depth) == spec_match_seq(
            rs,
            pats,
            pi + 1,
            tokens,
            offset,
            caps,
            depth,
        ),
        pi + 1 == pats@.len() ==> spec_match_seq(rs, pats, pi, tokens, offset, caps, depth) == (
        StepV::Advanced { offset: offset, caps: caps }),
{
}

/// A conditional whose condition is bound — even to an empty capture — emits
/// its own branch, and a directly following `$else` emits nothing.
pub proof fn lemma_conditional_taken(
    m: CaptureV,
    reps: Vec<Replacement>,
    cond: Path,
    abody: Vec<Replacement>,
    bbody: Vec<Replacement>,
    oa: Seq<TokenV>,
    sa: IfState,
)
    requires
        reps@.len() == 2,
        reps@[0] == Replacement::Special(SpecialReplacement::If { cond: cond, body: abody }),
        reps@[1] == Replacement::Special(SpecialReplacement::Else { body: bbody }),
        cap_find(m, path_view(cond), 0) is Some,
        spec_expand_seq(m, abody, 0, IfState::Unset) == (ExpV::Done { out: oa, state: sa }),
    ensures
        spec_expand(m, reps) == (ExpV::Done { out: oa, state: IfState::Unset }),
{
    reveal_with_fuel(spec_expand_seq, 4);
    assert(oa + (Seq::<TokenV>::empty() + Seq::<TokenV>::empty()) =~= oa);
}

/// A conditional whose condition is unbound emits nothing itself, and a
/// directly following `$else` emits its branch.
pub proof fn lemma_conditional_not_taken(
    m: CaptureV,
    reps: Vec<Replacement>,
    cond: Path,
    abody: Vec<Replacement>,
    bbody: Vec<Replacement>,
    ob: Seq<TokenV>,
    sb: IfState,
)
    requires
        reps@.len() == 2,
        reps@[0] == Replacement::Special(SpecialReplacement::If { cond: cond, body: abody }),
        reps@[1] == Replacement::Special(SpecialReplacement::Else { body: bbody }),
        cap_find(m, path_view(cond), 0) is None,
        spec_expand_seq(m, bbody, 0, IfState::Unset) == (ExpV::Done { out: ob, state: sb }),
    ensures
        spec_expand(m, reps) == (ExpV::Done { out: ob, state: IfState::Taken }),
{
    reveal_with_fuel(spec_expand_seq, 4);
    assert(Seq::<TokenV>::empty() + (ob + Seq::<TokenV>::empty()) =~= ob);
}

/// An `$else` with no preceding conditional is a control-flow misuse.
pub proof fn lemma_bare_else_misuse(m: CaptureV, reps: Vec<Replacement>, bbody: Vec<Replacement>)
    requires
        reps@.len() >= 1,
        reps@[0] == Replacement::Special(SpecialReplacement::Else { body: bbody }),
    ensures
        spec_expand(m, reps) == ExpV::Aborted(crate::diag::ExpandErrV::ControlFlowMisuse),
{
    reveal_with_fuel(spec_expand_seq, 4);
}

/// A `$for` whose source capture is absent emits nothing and is no failure;
/// it only leaves the conditional state behind as not taken.
pub proof fn lemma_for_absent_source(
    m: CaptureV,
    reps: Vec<Replacement>,
    binding: String,
    source: Path,
    body: Vec<Replacement>,
)
    requires
        reps@.len() == 1,
        reps@[0] == Replacement::Special(
            SpecialReplacement::For { binding: binding, source: source, body: body },
        ),
        cap_find(m, path_view(source), 0) is None,
    ensures
        spec_expand(m, reps) == (ExpV::Done { out: Seq::empty(), state: IfState::NotTaken }),
{
    reveal_with_fuel(spec_expand_seq, 4);
    assert(Seq::<TokenV>::empty() + Seq::<TokenV>::empty() =~= Seq::<TokenV>::empty());
}

/// The lifetime builtin: an apostrophe punct with joint spacing immediately
/// followed by an identifier matches as one two-token capture wrapped in a
/// delimiter-less group.
pub proof fn lemma_lifetime_joint(
    rs: RuleSet,
    m: Matcher,
    tokens: Seq<TokenV>,
    offset: int,
    caps: CapEntries,
    depth: nat,
)
    requires
        m.kind is Lifetime,
        0 <= offset,
        offset + 1 < tokens.len(),
        tokens[offset] == TokenV::Punct('\'', Spacing::Joint),
        tokens[offset + 1] is Ident,
    ensures
        spec_match_matcher(rs, m, tokens, offset, caps, depth) == (StepV::Advanced {
            offset: offset + 2,
            caps: cap_add_token(
                caps,
                m.spec_name(),
                TokenV::Group(Delimiter::Bare, seq![tokens[offset], tokens[offset + 1]]),
            ),
        }),
{
}

/// An apostrophe punct with alone spacing never matches the lifetime builtin,
/// whatever follows it.
pub proof fn lemma_lifetime_alone(
    rs: RuleSet,
    m: Matcher,
    tokens: Seq<TokenV>,
    offset: int,
    caps: CapEntries,
    depth: nat,
)
    requires
        m.kind is Lifetime,
        0 <= offset < tokens.len(),
        tokens[offset] == TokenV::Punct('\'', Spacing::Alone),
    ensures
        spec_match_matcher(rs, m, tokens, offset, caps, depth) is Failed,
{
}

/// The greatest offset among `s[0..i]` bounds every one of them and is
/// attained by one of them.
pub proof fn lemma_max_offset_attained(s: Seq<FailV>, i: int)
    requires
        0 < i <= s.len(),
    ensures
        forall|j: int| 0 <= j < i ==> s[j].offset <= max_offset_upto(s, i),
        exists|j: int| 0 <= j < i && s[j].offset == max_offset_upto(s, i),
    decreases i,
{
    if i > 1 {
        lemma_max_offset_attained(s, i - 1);
    }
}

/// What the tie-break retains: exactly the failures at offset `best`.
pub proof fn lemma_retained_reasons(s: Seq<FailV>, best: int, j: int)
    requires
        0 <= j <= s.len(),
    ensures
        forall|k: int|
            0 <= k < retained_reasons(s, best, j).len() ==> retained_reasons(s, best, j)[k].offset
                == best,
        forall|k: int|
            j <= k < s.len() && s[k].offset == best ==> retained_reasons(s, best, j).contains(
                s[k],
            ),
    decreases s.len() - j,
{
    if j < s.len() {
        lemma_retained_reasons(s, best, j + 1);
        let r = retained_reasons(s, best, j);
        let rest = retained_reasons(s, best, j + 1);
        if s[j].offset == best {
            assert(r[0] == s[j]);
            assert forall|k: int| j <= k < s.len() && s[k].offset == best implies r.contains(
                s[k],
            ) by {
                if k == j {
                    assert(r[0] == s[k]);
                } else {
                    let w = choose|w: int| 0 <= w < rest.len() && rest[w] == s[k];
                    assert(r[w + 1] == s[k]);
                }
            }
        } else {
            assert forall|k: int| j <= k < s.len() && s[k].offset == best implies r.contains(
                s[k],
            ) by {
                let w = choose|w: int| 0 <= w < rest.len() && rest[w] == s[k];
                assert(r[w] == s[k]);
            }
        }
    }
}

/// Diagnostic tie-break: when every alternative of a sub-grammar fails, the
/// reported failure sits at the greatest offset any alternative reached, and
/// its reasons are exactly the alternatives that reached it — one that
/// progressed less far is not reported.
pub proof fn lemma_deepest_reasons(name: Seq<char>, offset: int, errs: Seq<FailV>)
    requires
        errs.len() > 0,
    ensures
        ({
            let f = alts_failure(name, offset, errs);
            &&& forall|k: int| 0 <= k < f.reasons.len() ==> f.reasons[k].offset == f.offset
            &&& forall|j: int| 0 <= j < errs.len() ==> errs[j].offset <= f.offset
            &&& exists|j: int| 0 <= j < errs.len() && errs[j].offset == f.offset
            &&& forall|j: int|
                0 <= j < errs.len() && errs[j].offset == f.offset ==> f.reasons.contains(errs[j])
        }),
{
    lemma_max_offset_attained(errs, errs.len() as int);
    lemma_retained_reasons(errs, max_offset_upto(errs, errs.len() as int), 0);
}

/// The captures a star token-tree matcher accumulates: each remaining token
/// appended, in input order, under the matcher's name.
pub open spec fn tt_fold(
    caps: CapEntries,
    name: Seq<char>,
    tokens: Seq<TokenV>,
    offset: int,
) -> CapEntries
    decreases tokens.len() - offset,
{
    if 0 <= offset < tokens.len() {
        tt_fold(cap_add_token(caps, name, tokens[offset]), name, tokens, offset + 1)
    } else {
        caps
    }
}

/// Appending the remaining tokens one by one to a lone capture gathers them
/// after what the capture already held.
pub proof fn lemma_tt_fold_single(
    name: Seq<char>,
    tokens: Seq<TokenV>,
    offset: int,
    pre: Seq<TokenV>,
)
    requires
        0 <= offset <= tokens.len(),
    ensures
        tt_fold(
            seq![(name, CaptureV { tokens: pre, children: Seq::empty() })],
            name,
            tokens,
            offset,
        ) == seq![
            (
                name,
                CaptureV {
                    tokens: pre + tokens.subrange(offset, tokens.len() as int),
                    children: Seq::empty(),
                },
            ),
        ],
    decreases tokens.len() - offset,
{
    reveal_with_fuel(tt_fold, 2);
    let single = seq![(name, CaptureV { tokens: pre, children: Seq::empty() })];
    if offset < tokens.len() {
        assert(crate::assoc::key_idx(single, name) == 0);
        let stepped = cap_add_token(single, name, tokens[offset]);
        assert(stepped =~~= seq![
            (name, CaptureV { tokens: pre.push(tokens[offset]), children: Seq::empty() }),
        ]);
        lemma_tt_fold_single(name, tokens, offset + 1, pre.push(tokens[offset]));
        assert(pre.push(tokens[offset]) + tokens.subrange(offset + 1, tokens.len() as int) =~= pre
            + tokens.subrange(offset, tokens.len() as int));
        assert(tt_fold(single, name, tokens, offset) =~~= seq![
            (
                name,
                CaptureV {
                    tokens: pre + tokens.subrange(offset, tokens.len() as int),
                    children: Seq::empty(),
                },
            ),
        ]);
    } else {
        assert(pre + tokens.subrange(offset, tokens.len() as int) =~= pre);
        assert(tt_fold(single, name, tokens, offset) =~~= seq![
            (
                name,
                CaptureV {
                    tokens: pre + tokens.subrange(offset, tokens.len() as int),
                    children: Seq::empty(),
                },
            ),
        ]);
    }
}

/// The repetition loop of a star token-tree matcher without a separator
/// consumes the whole remaining input, capturing every token.
pub proof fn lemma_tt_star_repeat(
    rs: RuleSet,
    m: Matcher,
    tokens: Seq<TokenV>,
    offset: int,
    caps: CapEntries,
    depth: nat,
)
    requires
        m.kind is Tt,
        m.repeat == Some(Repeat { quantifier: Quantifier::Star, sep: None }),
        0 <= offset < tokens.len(),
    ensures
        spec_match_repeat(rs, m, tokens, offset, caps, depth) == (StepV::Advanced {
            offset: tokens.len() as int,
            caps: tt_fold(caps, m.spec_name(), tokens, offset),
        }),
    decreases tokens.len() - offset,
{
    reveal_with_fuel(spec_match_repeat, 3);
    reveal_with_fuel(tt_fold, 2);
    let caps2 = cap_add_token(caps, m.spec_name(), tokens[offset]);
    assert(tt_fold(caps, m.spec_name(), tokens, offset) == tt_fold(
        caps2,
        m.spec_name(),
        tokens,
        offset + 1,
    ));
    if offset + 1 < tokens.len() {
        lemma_tt_star_repeat(rs, m, tokens, offset + 1, caps2, depth);
    } else {
        assert(spec_match_repeat(rs, m, tokens, offset + 1, caps2, depth) == (StepV::Advanced {
            offset: tokens.len() as int,
            caps: caps2,
        }));
    }
}

/// Round trip: a grammar that is one star token-tree matcher captures any
/// non-empty input whole, and a template that only re-emits the captured path
/// reproduces that input token for token. (Over empty input the matcher binds
/// nothing, so the path would be unbound.)
pub proof fn lemma_round_trip(rs: RuleSet, m: Matcher, p: Path, tokens: Seq<TokenV>)
    requires
        rs.rule.patterns@ == seq![Pattern::Matcher(m)],
        m.kind is Tt,
        m.repeat == Some(Repeat { quantifier: Quantifier::Star, sep: None }),
        rs.rule.template@ == seq![Replacement::Special(SpecialReplacement::Path(p))],
        path_view(p) == seq![m.spec_name()],
        tokens.len() >= 1,
    ensures
        spec_match_rules(rs, tokens) is Done,
        spec_expand(spec_match_rules(rs, tokens)->Done_0, rs.rule.template) == (ExpV::Done {
            out: tokens,
            state: IfState::Unset,
        }),
{
    reveal_with_fuel(spec_match_seq, 3);
    reveal_with_fuel(spec_match_repeat, 3);
    reveal_with_fuel(spec_expand_seq, 3);
    reveal_with_fuel(tt_fold, 2);
    reveal_with_fuel(crate::capture::cap_find, 3);
    reveal_with_fuel(crate::assoc::key_idx_from, 2);
    let name = m.spec_name();
    let depth = crate::matching::MAX_DEPTH as nat;
    let caps1 = cap_add_token(Seq::empty(), name, tokens[0]);
    assert(caps1 =~~= seq![
        (name, CaptureV { tokens: seq![tokens[0]], children: Seq::empty() }),
    ]);
    if 1 < tokens.len() {
        lemma_tt_star_repeat(rs, m, tokens, 1, caps1, depth);
    } else {
        assert(spec_match_repeat(rs, m, tokens, 1, caps1, depth) == (StepV::Advanced {
            offset: tokens.len() as int,
            caps: caps1,
        }));
    }
    lemma_tt_fold_single(name, tokens, 1, seq![tokens[0]]);
    let capsn = tt_fold(caps1, name, tokens, 1);
    assert(seq![tokens[0]] + tokens.subrange(1, tokens.len() as int) =~= tokens);
    assert(capsn =~~= seq![(name, CaptureV { tokens: tokens, children: Seq::empty() })]);
    assert(spec_match_seq(rs, rs.rule.patterns, 1, tokens, tokens.len() as int, capsn, depth)
        == (StepV::Advanced { offset: tokens.len() as int, caps: capsn }));
    assert(spec_match_seq(rs, rs.rule.patterns, 0, tokens, 0, Seq::empty(), depth) == (
    StepV::Advanced { offset: tokens.len() as int, caps: capsn }));
    let cap = spec_match_rules(rs, tokens)->Done_0;
    assert(cap.children == capsn);
    assert(crate::assoc::key_idx(capsn, name) == 0);
    assert(cap_find(cap, path_view(p), 0) == Some(tokens));
    assert(tokens + Seq::<TokenV>::empty() =~= tokens);
}

} // verus!
