//! The matching engine: matches a rule set's patterns against an input token
//! sequence, producing a capture tree or a diagnostic.
//!
//! The whole engine is specified by a functional model (`spec_match_*`): each
//! executable function returns exactly what the model says for its inputs, so
//! matching is deterministic by construction. Backtracking is local: only the
//! ordered search through a sub-grammar's alternatives and the repetition
//! loop roll back; any other failure aborts the surrounding sequence.
//! Descent into a nested group or sub-grammar decrements an explicit depth
//! counter, turning runaway recursion between sub-grammars into a reported
//! failure.
use vstd::prelude::*;

use crate::ast::{Matcher, MatcherKind, Pattern, RuleSet};
use crate::capture::{CapEntries, CaptureV, Match, cap_add_token, cap_extend, cap_nest, match_view};
use crate::diag::{
    DiagV, FailKind, FailKindV, FailV, MatchDiag, MatchFail, alts_failure, best_offset, diag_view,
    fail_view, fails_view, retain_best,
};
use crate::token::{Delimiter, Spacing, Token, TokenV, clone_token_range, deep_clone_tokens, tokens_view};

verus! {

broadcast use {
    crate::token::lemma_tokens_view,
    crate::capture::lemma_children_view,
    crate::diag::lemma_fails_view,
};

/// How deep matching may descend into nested groups and sub-grammars before
/// it stops with [`MatchDiag::DepthExceeded`].
pub const MAX_DEPTH: u32 = 255;

/// The outcome of matching part of a pattern sequence: the new offset on
/// success, or a soft failure the enclosing alternative search may catch.
#[derive(Debug)]
pub enum Matched {
    Success { offset: usize },
    Failed { error: MatchFail },
}

/// The model of a [`Matched`] outcome together with the captures accumulated
/// so far, or a hard diagnostic.
pub ghost enum StepV {
    Advanced { offset: int, caps: CapEntries },
    Failed(FailV),
    Aborted(DiagV),
}

/// The model of the search through a sub-grammar's alternatives: the first
/// success, or every alternative's failure, in declaration order.
pub ghost enum AltsV {
    Chosen { offset: int, cap: CaptureV },
    Exhausted(Seq<FailV>),
    Aborted(DiagV),
}

/// The model of matching a whole slice: its capture tree, or a diagnostic.
pub ghost enum SliceV {
    Done(CaptureV),
    Aborted(DiagV),
}

/// The input not yet consumed, clamped to zero; a termination measure.
pub open spec fn rem(len: int, offset: int) -> int {
    if offset <= len {
        len - offset
    } else {
        0
    }
}

/// What one matcher matches at `offset`: a builtin consumes the token shape
/// it names, and a sub-grammar matcher tries the sub-grammar's alternatives
/// in declaration order at `depth - 1`, nesting the winner under the capture
/// name. When every alternative fails, only the reason(s) that reached the
/// greatest offset are retained.
pub open spec fn spec_match_matcher(
    rs: RuleSet,
    m: Matcher,
    tokens: Seq<TokenV>,
    offset: int,
    caps: CapEntries,
    depth: nat,
) -> StepV
    decreases depth, 0int, 0int,
{
    match m.kind {
        MatcherKind::Rule(g) => match rs.spec_subgrammar(g@) {
            Option::None => StepV::Aborted(
                DiagV::GrammarLookupError { name: g@, offset: offset },
            ),
            Option::Some(alts) => if depth == 0 {
                StepV::Aborted(DiagV::DepthExceeded)
            } else {
                match spec_match_alts(rs, alts, 0, tokens, offset, (depth - 1) as nat) {
                    AltsV::Chosen { offset: newoff, cap } => StepV::Advanced {
                        offset: newoff,
                        caps: cap_nest(caps, m.spec_name(), cap),
                    },
                    AltsV::Exhausted(errs) => StepV::Failed(alts_failure(m.spec_name(), offset, errs)),
                    AltsV::Aborted(e) => StepV::Aborted(e),
                }
            },
        },
        MatcherKind::Tt => if 0 <= offset < tokens.len() {
            StepV::Advanced {
                offset: offset + 1,
                caps: cap_add_token(caps, m.spec_name(), tokens[offset]),
            }
        } else {
            StepV::Failed(
                FailV {
                    kind: FailKindV::UnexpectedEndOfInput,
                    offset: offset,
                    reasons: Seq::empty(),
                },
            )
        },
        MatcherKind::Ident => if 0 <= offset < tokens.len() {
            if tokens[offset] is Ident {
                StepV::Advanced {
                    offset: offset + 1,
                    caps: cap_add_token(caps, m.spec_name(), tokens[offset]),
                }
            } else {
                StepV::Failed(
                    FailV {
                        kind: FailKindV::TokenMismatch,
                        offset: offset,
                        reasons: Seq::empty(),
                    },
                )
            }
        } else {
            StepV::Failed(
                FailV {
                    kind: FailKindV::UnexpectedEndOfInput,
                    offset: offset,
                    reasons: Seq::empty(),
                },
            )
        },
        MatcherKind::Literal => if 0 <= offset < tokens.len() {
            if tokens[offset] is Literal {
                StepV::Advanced {
                    offset: offset + 1,
                    caps: cap_add_token(caps, m.spec_name(), tokens[offset]),
                }
            } else {
                StepV::Failed(
                    FailV {
                        kind: FailKindV::TokenMismatch,
                        offset: offset,
                        reasons: Seq::empty(),
                    },
                )
            }
        } else {
            StepV::Failed(
                FailV {
                    kind: FailKindV::UnexpectedEndOfInput,
                    offset: offset,
                    reasons: Seq::empty(),
                },
            )
        },
        MatcherKind::Lifetime => if 0 <= offset && offset + 1 < tokens.len() {
            if (tokens[offset] matches TokenV::Punct('\'', Spacing::Joint)) && (tokens[offset + 1]
                is Ident) {
                StepV::Advanced {
                    offset: offset + 2,
                    caps: cap_add_token(
                        caps,
                        m.spec_name(),
                        TokenV::Group(Delimiter::Bare, seq![tokens[offset], tokens[offset + 1]]),
                    ),
                }
            } else {
                StepV::Failed(
                    FailV {
                        kind: FailKindV::TokenMismatch,
                        offset: offset,
                        reasons: Seq::empty(),
                    },
                )
            }
        } else {
            StepV::Failed(
                FailV {
                    kind: FailKindV::UnexpectedEndOfInput,
                    offset: offset,
                    reasons: Seq::empty(),
                },
            )
        },
    }
}

/// One further repetition of `m` starting at `offset` (just after a
/// successful repetition): a declared separator at `offset` is consumed, then
/// the matcher is tried again. The loop stops at the first failed attempt —
/// keeping a consumed dangling separator only for the trailing style — and at
/// any attempt that consumed nothing.
pub open spec fn spec_match_repeat(
    rs: RuleSet,
    m: Matcher,
    tokens: Seq<TokenV>,
    offset: int,
    caps: CapEntries,
    depth: nat,
) -> StepV
    decreases depth, 1int, rem(tokens.len() as int, offset),
{
    let sep_off = match m.spec_sep() {
        Option::Some(s) => if 0 <= offset < tokens.len() && (tokens[offset] matches TokenV::Punct(
            c,
            _,
        ) && c == s.ch) {
            offset + 1
        } else {
            offset
        },
        Option::None => offset,
    };
    match spec_match_matcher(rs, m, tokens, sep_off, caps, depth) {
        StepV::Advanced { offset: off2, caps: caps2 } => if offset < off2 <= tokens.len() {
            spec_match_repeat(rs, m, tokens, off2, caps2, depth)
        } else {
            StepV::Advanced { offset: off2, caps: caps2 }
        },
        StepV::Failed(_) => if m.keeps_trailing_sep() {
            StepV::Advanced { offset: sep_off, caps: caps }
        } else {
            StepV::Advanced { offset: offset, caps: caps }
        },
        StepV::Aborted(e) => StepV::Aborted(e),
    }
}

/// What one pattern matches at `offset` (which must address a token): a group
/// pattern requires a group with the same delimiter and matches its contents
/// as a whole fresh slice at `depth - 1`, hoisting the captures; ident,
/// punct and literal patterns require the same token; a matcher captures (see
/// [`spec_match_matcher`]), repeating when it carries a star or plus
/// repetition, and a failed first attempt is no failure for a star or
/// question matcher.
pub open spec fn spec_match_one(
    rs: RuleSet,
    pat: Pattern,
    tokens: Seq<TokenV>,
    offset: int,
    caps: CapEntries,
    depth: nat,
) -> StepV
    decreases depth, 2int, 0int,
{
    if !(0 <= offset < tokens.len()) {
        StepV::Failed(
            FailV { kind: FailKindV::UnexpectedEndOfInput, offset: offset, reasons: Seq::empty() },
        )
    } else {
        match pat {
            Pattern::Group(d, content) => match tokens[offset] {
                TokenV::Group(d2, inner) => if d == d2 {
                    if depth == 0 {
                        StepV::Aborted(DiagV::DepthExceeded)
                    } else {
                        match spec_match_slice(rs, content, inner, (depth - 1) as nat) {
                            SliceV::Done(cap) => StepV::Advanced {
                                offset: offset + 1,
                                caps: cap_extend(caps, cap.children, 0),
                            },
                            SliceV::Aborted(e) => StepV::Aborted(e),
                        }
                    }
                } else {
                    StepV::Failed(
                        FailV {
                            kind: FailKindV::TokenMismatch,
                            offset: offset,
                            reasons: Seq::empty(),
                        },
                    )
                },
                _ => StepV::Failed(
                    FailV {
                        kind: FailKindV::TokenMismatch,
                        offset: offset,
                        reasons: Seq::empty(),
                    },
                ),
            },
            Pattern::Ident(s) => if tokens[offset] matches TokenV::Ident(n) && n == s@ {
                StepV::Advanced { offset: offset + 1, caps: caps }
            } else {
                StepV::Failed(
                    FailV {
                        kind: FailKindV::TokenMismatch,
                        offset: offset,
                        reasons: Seq::empty(),
                    },
                )
            },
            Pattern::Punct(c) => if tokens[offset] matches TokenV::Punct(c2, _) && c2 == c {
                StepV::Advanced { offset: offset + 1, caps: caps }
            } else {
                StepV::Failed(
                    FailV {
                        kind: FailKindV::TokenMismatch,
                        offset: offset,
                        reasons: Seq::empty(),
                    },
                )
            },
            Pattern::Literal(s) => if tokens[offset] matches TokenV::Literal(t) && t == s@ {
                StepV::Advanced { offset: offset + 1, caps: caps }
            } else {
                StepV::Failed(
                    FailV {
                        kind: FailKindV::TokenMismatch,
                        offset: offset,
                        reasons: Seq::empty(),
                    },
                )
            },
            Pattern::Matcher(m) => {
                let off1 = match m.leading_sep() {
                    Option::Some(c) => if tokens[offset] matches TokenV::Punct(c2, _) && c2 == c {
                        offset + 1
                    } else {
                        offset
                    },
                    Option::None => offset,
                };
                match spec_match_matcher(rs, m, tokens, off1, caps, depth) {
                    StepV::Advanced { offset: off2, caps: caps2 } => if m.loops() {
                        spec_match_repeat(rs, m, tokens, off2, caps2, depth)
                    } else {
                        StepV::Advanced { offset: off2, caps: caps2 }
                    },
                    StepV::Failed(f) => if m.zero_allowed() {
                        StepV::Advanced { offset: offset, caps: caps }
                    } else {
                        StepV::Failed(f)
                    },
                    StepV::Aborted(e) => StepV::Aborted(e),
                }
            },
        }
    }
}

/// What the pattern sequence `pats[pi..]` matches from `offset` on: patterns
/// are matched by concatenation, left to right; at the end of the input a
/// star or question matcher is skipped and anything else is an unexpected end
/// of input; the first failure aborts the sequence.
pub open spec fn spec_match_seq(
    rs: RuleSet,
    pats: Vec<Pattern>,
    pi: int,
    tokens: Seq<TokenV>,
    offset: int,
    caps: CapEntries,
    depth: nat,
) -> StepV
    decreases depth, 3int, pats@.len() - pi,
{
    if !(0 <= pi < pats@.len()) {
        StepV::Advanced { offset: offset, caps: caps }
    } else if offset >= tokens.len() {
        if pats[pi] matches Pattern::Matcher(m) && m.zero_allowed() {
            spec_match_seq(rs, pats, pi + 1, tokens, offset, caps, depth)
        } else {
            StepV::Failed(
                FailV {
                    kind: FailKindV::UnexpectedEndOfInput,
                    offset: offset,
                    reasons: Seq::empty(),
                },
            )
        }
    } else {
        match spec_match_one(rs, pats[pi], tokens, offset, caps, depth) {
            StepV::Advanced { offset: newoff, caps: caps2 } => spec_match_seq(
                rs,
                pats,
                pi + 1,
                tokens,
                newoff,
                caps2,
                depth,
            ),
            StepV::Failed(f) => StepV::Failed(f),
            StepV::Aborted(e) => StepV::Aborted(e),
        }
    }
}

/// The ordered-choice search through a sub-grammar's alternatives from index
/// `ai` on: each alternative is tried at `offset` with fresh captures; the
/// first success wins — even if a later alternative would consume more — and
/// exactly the tokens it consumed are wrapped in one delimiter-less group.
pub open spec fn spec_match_alts(
    rs: RuleSet,
    alts: Vec<Vec<Pattern>>,
    ai: int,
    tokens: Seq<TokenV>,
    offset: int,
    depth: nat,
) -> AltsV
    decreases depth, 4int, alts@.len() - ai,
{
    if !(0 <= ai < alts@.len()) {
        AltsV::Exhausted(Seq::empty())
    } else {
        match spec_match_seq(rs, alts[ai], 0, tokens, offset, Seq::empty(), depth) {
            StepV::Advanced { offset: newoff, caps } => AltsV::Chosen {
                offset: newoff,
                cap: CaptureV {
                    tokens: seq![
                        TokenV::Group(Delimiter::Bare, tokens.subrange(offset, newoff)),
                    ],
                    children: caps,
                },
            },
            StepV::Failed(f) => match spec_match_alts(rs, alts, ai + 1, tokens, offset, depth) {
                AltsV::Exhausted(errs) => AltsV::Exhausted(seq![f] + errs),
                other => other,
            },
            StepV::Aborted(e) => AltsV::Aborted(e),
        }
    }
}

/// What a whole slice matches: the pattern sequence must consume the slice
/// exactly — a leftover token is trailing input — and the slice's tokens are
/// wrapped in one delimiter-less group.
pub open spec fn spec_match_slice(
    rs: RuleSet,
    pats: Vec<Pattern>,
    tokens: Seq<TokenV>,
    depth: nat,
) -> SliceV
    decreases depth, 5int, 0int,
{
    match spec_match_seq(rs, pats, 0, tokens, 0, Seq::empty(), depth) {
        StepV::Advanced { offset, caps } => if offset < tokens.len() {
            SliceV::Aborted(DiagV::TrailingInput { offset: offset })
        } else {
            SliceV::Done(
                CaptureV {
                    tokens: seq![TokenV::Group(Delimiter::Bare, tokens)],
                    children: caps,
                },
            )
        },
        StepV::Failed(f) => SliceV::Aborted(DiagV::Unmatched(f)),
        StepV::Aborted(e) => SliceV::Aborted(e),
    }
}

/// What matching the rule set's top-level pattern against `tokens` yields.
pub open spec fn spec_match_rules(rs: RuleSet, tokens: Seq<TokenV>) -> SliceV {
    spec_match_slice(rs, rs.rule.patterns, tokens, MAX_DEPTH as nat)
}


/// A failure with no nested reasons.
fn simple_fail(kind: FailKind, offset: usize) -> (f: MatchFail)
    ensures
        fail_view(f) == (FailV {
            kind: crate::diag::fail_kind_view(kind),
            offset: offset as int,
            reasons: Seq::empty(),
        }),
{
    let f = MatchFail { kind, offset, reasons: Vec::new() };
    proof {
        assert(crate::diag::fails_view(f.reasons) =~= Seq::<FailV>::empty());
        assert(fail_view(f) =~~= (FailV {
            kind: crate::diag::fail_kind_view(f.kind),
            offset: offset as int,
            reasons: Seq::empty(),
        }));
    }
    f
}

/// The result of the ordered search through a sub-grammar's alternatives.
pub enum AltOutcome {
    /// The first alternative that matched: the offset it reached and its
    /// capture, the consumed tokens wrapped in one delimiter-less group.
    Matched { offset: usize, cap: Match },
    /// Every alternative failed; their failures, in declaration order.
    Failed { errors: Vec<MatchFail> },
}

/// Matches one matcher at `offset`; see [`spec_match_matcher`].
pub(crate) fn match_matcher(
    rs: &RuleSet,
    m: &Matcher,
    tokens: &Vec<Token>,
    offset: usize,
    caps: &mut Match,
    depth: u32,
) -> (r: Result<Matched, MatchDiag>)
    requires
        offset <= tokens@.len(),
    ensures
        match_view(*final(caps)).tokens == match_view(*old(caps)).tokens,
        ({
            let step = spec_match_matcher(
                *rs,
                *m,
                tokens_view(*tokens),
                offset as int,
                match_view(*old(caps)).children,
                depth as nat,
            );
            match r {
                Result::Ok(Matched::Success { offset: o }) => offset <= o <= tokens@.len()
                    && step == (StepV::Advanced {
                    offset: o as int,
                    caps: match_view(*final(caps)).children,
                }),
                Result::Ok(Matched::Failed { error }) => step == StepV::Failed(fail_view(error))
                    && match_view(*final(caps)).children == match_view(*old(caps)).children,
                Result::Err(d) => step == StepV::Aborted(diag_view(d)),
            }
        }),
    decreases depth, 0int, 0int,
{
    proof {
        broadcast use crate::token::lemma_tokens_view;
    }
    match &m.kind {
        MatcherKind::Rule(g) => {
            match rs.subgrammar(g) {
                None => Err(MatchDiag::GrammarLookupError { name: g.clone(), offset }),
                Some(alts) => {
                    if depth == 0 {
                        Err(MatchDiag::DepthExceeded)
                    } else {
                        match match_alts(rs, alts, 0, tokens, offset, depth - 1) {
                            Err(e) => Err(e),
                            Ok(AltOutcome::Matched { offset: newoff, cap }) => {
                                let name = m.capture_name();
                                caps.nest(&name, &cap);
                                Ok(Matched::Success { offset: newoff })
                            },
                            Ok(AltOutcome::Failed { errors }) => {
                                let name = m.capture_name();
                                if errors.len() == 0 {
                                    proof {
                                        broadcast use crate::diag::lemma_fails_view;
                                    }
                                    let f = MatchFail {
                                        kind: FailKind::AltsFailed(name),
                                        offset,
                                        reasons: Vec::new(),
                                    };
                                    proof {
                                        assert(crate::diag::fails_view(f.reasons)
                                            =~= Seq::<FailV>::empty());
                                        assert(fails_view(errors) =~= Seq::<FailV>::empty());
                                        assert(fail_view(f) =~~= alts_failure(
                                            m.spec_name(),
                                            offset as int,
                                            fails_view(errors),
                                        ));
                                    }
                                    Ok(Matched::Failed { error: f })
                                } else {
                                    let ghost errsv = fails_view(errors);
                                    let best = best_offset(&errors);
                                    let kept = retain_best(errors, best);
                                    let f = MatchFail {
                                        kind: FailKind::AltsFailed(name),
                                        offset: best,
                                        reasons: kept,
                                    };
                                    proof {
                                        broadcast use crate::diag::lemma_fails_view;

                                        assert(fail_view(f) =~~= alts_failure(
                                            m.spec_name(),
                                            offset as int,
                                            errsv,
                                        ));
                                    }
                                    Ok(Matched::Failed { error: f })
                                }
                            },
                        }
                    }
                },
            }
        },
        MatcherKind::Tt => {
            if offset < tokens.len() {
                let name = m.capture_name();
                caps.add_child(&name, tokens[offset].deep_clone());
                Ok(Matched::Success { offset: offset + 1 })
            } else {
                Ok(Matched::Failed {
                    error: simple_fail(FailKind::UnexpectedEndOfInput, offset),
                })
            }
        },
        MatcherKind::Ident => {
            if offset < tokens.len() {
                let hit = match &tokens[offset] {
                    Token::Ident(_) => true,
                    _ => false,
                };
                if hit {
                    let name = m.capture_name();
                    caps.add_child(&name, tokens[offset].deep_clone());
                    Ok(Matched::Success { offset: offset + 1 })
                } else {
                    Ok(Matched::Failed { error: simple_fail(FailKind::TokenMismatch, offset) })
                }
            } else {
                Ok(Matched::Failed {
                    error: simple_fail(FailKind::UnexpectedEndOfInput, offset),
                })
            }
        },
        MatcherKind::Literal => {
            if offset < tokens.len() {
                let hit = match &tokens[offset] {
                    Token::Literal(_) => true,
                    _ => false,
                };
                if hit {
                    let name = m.capture_name();
                    caps.add_child(&name, tokens[offset].deep_clone());
                    Ok(Matched::Success { offset: offset + 1 })
                } else {
                    Ok(Matched::Failed { error: simple_fail(FailKind::TokenMismatch, offset) })
                }
            } else {
                Ok(Matched::Failed {
                    error: simple_fail(FailKind::UnexpectedEndOfInput, offset),
                })
            }
        },
        MatcherKind::Lifetime => {
            if offset < tokens.len() && offset + 1 < tokens.len() {
                let quote = match &tokens[offset] {
                    Token::Punct(c, sp) => *c == '\'' && *sp == Spacing::Joint,
                    _ => false,
                };
                let ident = match &tokens[offset + 1] {
                    Token::Ident(_) => true,
                    _ => false,
                };
                if quote && ident {
                    let mut inner: Vec<Token> = Vec::new();
                    inner.push(tokens[offset].deep_clone());
                    inner.push(tokens[offset + 1].deep_clone());
                    let unit = Token::Group(Delimiter::Bare, inner);
                    proof {
                        assert(tokens_view(inner) =~= seq![
                            tokens_view(*tokens)[offset as int],
                            tokens_view(*tokens)[offset as int + 1],
                        ]);
                        assert(crate::token::token_view(unit) =~~= TokenV::Group(
                            Delimiter::Bare,
                            seq![
                                tokens_view(*tokens)[offset as int],
                                tokens_view(*tokens)[offset as int + 1],
                            ],
                        ));
                    }
                    let name = m.capture_name();
                    caps.add_child(&name, unit);
                    Ok(Matched::Success { offset: offset + 2 })
                } else {
                    Ok(Matched::Failed { error: simple_fail(FailKind::TokenMismatch, offset) })
                }
            } else {
                Ok(Matched::Failed {
                    error: simple_fail(FailKind::UnexpectedEndOfInput, offset),
                })
            }
        },
    }
}

/// Repeats a matcher from `offset` on; see [`spec_match_repeat`].
pub(crate) fn match_repeat(
    rs: &RuleSet,
    m: &Matcher,
    tokens: &Vec<Token>,
    offset: usize,
    caps: &mut Match,
    depth: u32,
) -> (r: Result<Matched, MatchDiag>)
    requires
        offset <= tokens@.len(),
    ensures
        match_view(*final(caps)).tokens == match_view(*old(caps)).tokens,
        ({
            let step = spec_match_repeat(
                *rs,
                *m,
                tokens_view(*tokens),
                offset as int,
                match_view(*old(caps)).children,
                depth as nat,
            );
            match r {
                Result::Ok(Matched::Success { offset: o }) => offset <= o <= tokens@.len()
                    && step == (StepV::Advanced {
                    offset: o as int,
                    caps: match_view(*final(caps)).children,
                }),
                Result::Ok(Matched::Failed { error }) => step == StepV::Failed(fail_view(error))
                    && match_view(*final(caps)).children == match_view(*old(caps)).children,
                Result::Err(d) => step == StepV::Aborted(diag_view(d)),
            }
        }),
    decreases depth, 1int, rem(tokens@.len() as int, offset as int),
{
    proof {
        broadcast use crate::token::lemma_tokens_view;
    }
    let mut sep_off = offset;
    match m.sep() {
        Some(s) => {
            if sep_off < tokens.len() {
                let hit = match &tokens[sep_off] {
                    Token::Punct(c, _) => *c == s.ch,
                    _ => false,
                };
                if hit {
                    sep_off = offset + 1;
                }
            }
        },
        None => {},
    }
    match match_matcher(rs, m, tokens, sep_off, caps, depth) {
        Err(e) => Err(e),
        Ok(Matched::Success { offset: off2 }) => {
            if offset < off2 && off2 <= tokens.len() {
                proof {
                    lemma_repeat_no_fail(
                        *rs,
                        *m,
                        tokens_view(*tokens),
                        off2 as int,
                        match_view(*caps).children,
                        depth as nat,
                    );
                }
                match_repeat(rs, m, tokens, off2, caps, depth)
            } else {
                Ok(Matched::Success { offset: off2 })
            }
        },
        Ok(Matched::Failed { error: _ }) => {
            if m.keeps_trailing() {
                Ok(Matched::Success { offset: sep_off })
            } else {
                Ok(Matched::Success { offset })
            }
        },
    }
}


/// The repetition loop never reports a soft failure: a failed attempt only
/// ends the loop.
pub proof fn lemma_repeat_no_fail(
    rs: RuleSet,
    m: Matcher,
    tokens: Seq<TokenV>,
    offset: int,
    caps: CapEntries,
    depth: nat,
)
    ensures
        !(spec_match_repeat(rs, m, tokens, offset, caps, depth) is Failed),
    decreases depth, 1int, rem(tokens.len() as int, offset),
{
    let sep_off = match m.spec_sep() {
        Option::Some(s) => if 0 <= offset < tokens.len() && (tokens[offset] matches TokenV::Punct(
            c,
            _,
        ) && c == s.ch) {
            offset + 1
        } else {
            offset
        },
        Option::None => offset,
    };
    match spec_match_matcher(rs, m, tokens, sep_off, caps, depth) {
        StepV::Advanced { offset: off2, caps: caps2 } => {
            if offset < off2 <= tokens.len() {
                lemma_repeat_no_fail(rs, m, tokens, off2, caps2, depth);
            }
        },
        StepV::Failed(_) => {},
        StepV::Aborted(_) => {},
    }
}

/// Matches one pattern at `offset`; see [`spec_match_one`].
pub(crate) fn match_one(
    rs: &RuleSet,
    pat: &Pattern,
    tokens: &Vec<Token>,
    offset: usize,
    caps: &mut Match,
    depth: u32,
) -> (r: Result<Matched, MatchDiag>)
    requires
        offset < tokens@.len(),
    ensures
        match_view(*final(caps)).tokens == match_view(*old(caps)).tokens,
        ({
            let step = spec_match_one(
                *rs,
                *pat,
                tokens_view(*tokens),
                offset as int,
                match_view(*old(caps)).children,
                depth as nat,
            );
            match r {
                Result::Ok(Matched::Success { offset: o }) => offset <= o <= tokens@.len()
                    && step == (StepV::Advanced {
                    offset: o as int,
                    caps: match_view(*final(caps)).children,
                }),
                Result::Ok(Matched::Failed { error }) => step == StepV::Failed(fail_view(error))
                    && match_view(*final(caps)).children == match_view(*old(caps)).children,
                Result::Err(d) => step == StepV::Aborted(diag_view(d)),
            }
        }),
    decreases depth, 2int, 0int,
{
    let tlen = tokens.len();
    proof {
        assert(offset < tlen);
    }
    match pat {
        Pattern::Group(d, content) => {
            match &tokens[offset] {
                Token::Group(d2, inner) => {
                    if *d == *d2 {
                        if depth == 0 {
                            Err(MatchDiag::DepthExceeded)
                        } else {
                            match match_patterns(rs, content, inner, depth - 1) {
                                Ok(mm) => {
                                    caps.hoist_children(&mm);
                                    Ok(Matched::Success { offset: offset + 1 })
                                },
                                Err(e) => Err(e),
                            }
                        }
                    } else {
                        Ok(Matched::Failed {
                            error: simple_fail(FailKind::TokenMismatch, offset),
                        })
                    }
                },
                _ => Ok(Matched::Failed { error: simple_fail(FailKind::TokenMismatch, offset) }),
            }
        },
        Pattern::Ident(s) => {
            let hit = match &tokens[offset] {
                Token::Ident(n) => *n == *s,
                _ => false,
            };
            if hit {
                Ok(Matched::Success { offset: offset + 1 })
            } else {
                Ok(Matched::Failed { error: simple_fail(FailKind::TokenMismatch, offset) })
            }
        },
        Pattern::Punct(c) => {
            let hit = match &tokens[offset] {
                Token::Punct(c2, _) => *c2 == *c,
                _ => false,
            };
            if hit {
                Ok(Matched::Success { offset: offset + 1 })
            } else {
                Ok(Matched::Failed { error: simple_fail(FailKind::TokenMismatch, offset) })
            }
        },
        Pattern::Literal(s) => {
            let hit = match &tokens[offset] {
                Token::Literal(t) => *t == *s,
                _ => false,
            };
            if hit {
                Ok(Matched::Success { offset: offset + 1 })
            } else {
                Ok(Matched::Failed { error: simple_fail(FailKind::TokenMismatch, offset) })
            }
        },
        Pattern::Matcher(m) => {
            let mut off1 = offset;
            match m.leading() {
                Some(c) => {
                    let hit = match &tokens[offset] {
                        Token::Punct(c2, _) => *c2 == c,
                        _ => false,
                    };
                    if hit {
                        off1 = offset + 1;
                    }
                },
                None => {},
            }
            match match_matcher(rs, m, tokens, off1, caps, depth) {
                Err(e) => Err(e),
                Ok(Matched::Success { offset: off2 }) => {
                    if m.has_loop() {
                        proof {
                            lemma_repeat_no_fail(
                                *rs,
                                *m,
                                tokens_view(*tokens),
                                off2 as int,
                                match_view(*caps).children,
                                depth as nat,
                            );
                        }
                        match_repeat(rs, m, tokens, off2, caps, depth)
                    } else {
                        Ok(Matched::Success { offset: off2 })
                    }
                },
                Ok(Matched::Failed { error }) => {
                    if m.allows_zero() {
                        Ok(Matched::Success { offset })
                    } else {
                        Ok(Matched::Failed { error })
                    }
                },
            }
        },
    }
}

/// Matches the pattern sequence `pats[pi..]` from `offset` on; see
/// [`spec_match_seq`].
pub(crate) fn match_seq(
    rs: &RuleSet,
    pats: &Vec<Pattern>,
    pi: usize,
    tokens: &Vec<Token>,
    offset: usize,
    caps: &mut Match,
    depth: u32,
) -> (r: Result<Matched, MatchDiag>)
    requires
        pi <= pats@.len(),
        offset <= tokens@.len(),
    ensures
        match_view(*final(caps)).tokens == match_view(*old(caps)).tokens,
        ({
            let step = spec_match_seq(
                *rs,
                *pats,
                pi as int,
                tokens_view(*tokens),
                offset as int,
                match_view(*old(caps)).children,
                depth as nat,
            );
            match r {
                Result::Ok(Matched::Success { offset: o }) => offset <= o <= tokens@.len()
                    && step == (StepV::Advanced {
                    offset: o as int,
                    caps: match_view(*final(caps)).children,
                }),
                Result::Ok(Matched::Failed { error }) => step == StepV::Failed(fail_view(error)),
                Result::Err(d) => step == StepV::Aborted(diag_view(d)),
            }
        }),
    decreases depth, 3int, pats@.len() - pi,
{
    if pi == pats.len() {
        Ok(Matched::Success { offset })
    } else if offset == tokens.len() {
        let skip = match &pats[pi] {
            Pattern::Matcher(m) => m.allows_zero(),
            _ => false,
        };
        if skip {
            match_seq(rs, pats, pi + 1, tokens, offset, caps, depth)
        } else {
            Ok(Matched::Failed { error: simple_fail(FailKind::UnexpectedEndOfInput, offset) })
        }
    } else {
        match match_one(rs, &pats[pi], tokens, offset, caps, depth) {
            Err(e) => Err(e),
            Ok(Matched::Failed { error }) => Ok(Matched::Failed { error }),
            Ok(Matched::Success { offset: newoff }) => match_seq(
                rs,
                pats,
                pi + 1,
                tokens,
                newoff,
                caps,
                depth,
            ),
        }
    }
}

/// Searches a sub-grammar's alternatives from index `ai` on; see
/// [`spec_match_alts`].
pub(crate) fn match_alts(
    rs: &RuleSet,
    alts: &Vec<Vec<Pattern>>,
    ai: usize,
    tokens: &Vec<Token>,
    offset: usize,
    depth: u32,
) -> (r: Result<AltOutcome, MatchDiag>)
    requires
        ai <= alts@.len(),
        offset <= tokens@.len(),
    ensures
        ({
            let av = spec_match_alts(
                *rs,
                *alts,
                ai as int,
                tokens_view(*tokens),
                offset as int,
                depth as nat,
            );
            match r {
                Result::Ok(AltOutcome::Matched { offset: o, cap }) => offset <= o <= tokens@.len()
                    && av == (AltsV::Chosen { offset: o as int, cap: match_view(cap) }),
                Result::Ok(AltOutcome::Failed { errors }) => av == AltsV::Exhausted(
                    fails_view(errors),
                ),
                Result::Err(d) => av == AltsV::Aborted(diag_view(d)),
            }
        }),
    decreases depth, 4int, alts@.len() - ai,
{
    proof {
        broadcast use crate::diag::lemma_fails_view;
    }
    if ai == alts.len() {
        let errors: Vec<MatchFail> = Vec::new();
        proof {
            assert(fails_view(errors) =~= Seq::<FailV>::empty());
        }
        Ok(AltOutcome::Failed { errors })
    } else {
        assert(decreases_to!(alts => alts[ai as int]));
        let mut fresh = Match::leaf(Vec::new());
        match match_seq(rs, &alts[ai], 0, tokens, offset, &mut fresh, depth) {
            Err(e) => Err(e),
            Ok(Matched::Success { offset: newoff }) => {
                let captured = clone_token_range(tokens, offset, newoff);
                let mut gts: Vec<Token> = Vec::new();
                gts.push(Token::Group(Delimiter::Bare, captured));
                let cap = Match { tokens: gts, children: fresh.children };
                proof {
                    broadcast use crate::token::lemma_tokens_view;
                    broadcast use crate::capture::lemma_children_view;

                    assert(match_view(cap) =~~= (CaptureV {
                        tokens: seq![
                            TokenV::Group(
                                Delimiter::Bare,
                                tokens_view(*tokens).subrange(offset as int, newoff as int),
                            ),
                        ],
                        children: match_view(fresh).children,
                    }));
                }
                Ok(AltOutcome::Matched { offset: newoff, cap })
            },
            Ok(Matched::Failed { error }) => {
                match match_alts(rs, alts, ai + 1, tokens, offset, depth) {
                    Err(e) => Err(e),
                    Ok(AltOutcome::Matched { offset: o2, cap }) => Ok(AltOutcome::Matched {
                        offset: o2,
                        cap,
                    }),
                    Ok(AltOutcome::Failed { errors }) => {
                        let ghost restv = fails_view(errors);
                        let mut errors = errors;
                        errors.insert(0, error);
                        proof {
                            assert(fails_view(errors) =~= seq![fail_view(error)] + restv);
                        }
                        Ok(AltOutcome::Failed { errors })
                    },
                }
            },
        }
    }
}

/// Matches a pattern sequence against a whole token slice: the slice must be
/// consumed exactly, and the result's tokens are the slice wrapped in one
/// delimiter-less group; see [`spec_match_slice`].
pub fn match_patterns(
    rs: &RuleSet,
    pats: &Vec<Pattern>,
    tokens: &Vec<Token>,
    depth: u32,
) -> (r: Result<Match, MatchDiag>)
    ensures
        ({
            let sv = spec_match_slice(*rs, *pats, tokens_view(*tokens), depth as nat);
            match r {
                Result::Ok(mm) => sv == SliceV::Done(match_view(mm)),
                Result::Err(d) => sv == SliceV::Aborted(diag_view(d)),
            }
        }),
    decreases depth, 5int, 0int,
{
    let mut acc = Match::leaf(Vec::new());
    match match_seq(rs, pats, 0, tokens, 0, &mut acc, depth) {
        Err(e) => Err(e),
        Ok(Matched::Failed { error }) => Err(MatchDiag::Unmatched(error)),
        Ok(Matched::Success { offset }) => {
            if offset < tokens.len() {
                Err(MatchDiag::TrailingInput { offset })
            } else {
                let copied = deep_clone_tokens(tokens);
                let mut gts: Vec<Token> = Vec::new();
                gts.push(Token::Group(Delimiter::Bare, copied));
                let mm = Match { tokens: gts, children: acc.children };
                proof {
                    broadcast use crate::token::lemma_tokens_view;
                    broadcast use crate::capture::lemma_children_view;

                    assert(match_view(mm) =~~= (CaptureV {
                        tokens: seq![TokenV::Group(Delimiter::Bare, tokens_view(*tokens))],
                        children: match_view(acc).children,
                    }));
                }
                Ok(mm)
            }
        },
    }
}

/// Matches the rule set's top-level pattern sequence against the input, with
/// the engine's recursion bound; see [`spec_match_rules`].
pub fn match_rules(rs: &RuleSet, input: &Vec<Token>) -> (r: Result<Match, MatchDiag>)
    ensures
        ({
            let sv = spec_match_rules(*rs, tokens_view(*input));
            match r {
                Result::Ok(m) => sv == SliceV::Done(match_view(m)),
                Result::Err(d) => sv == SliceV::Aborted(diag_view(d)),
            }
        }),
{
    match_patterns(rs, &rs.rule.patterns, input, MAX_DEPTH)
}

} // verus!
