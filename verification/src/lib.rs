//! A pattern-matching and template-expansion engine for a macro-by-example
//! DSL: a rule set's pattern grammar is matched against an input token
//! sequence, producing a tree of named captures, and a template is expanded
//! against that capture tree, producing an output token sequence.
use vstd::prelude::*;

pub mod assoc;
pub mod ast;
pub mod capture;
pub mod diag;
pub mod expand;
pub mod laws;
pub mod matching;
pub mod registry;
pub mod shim;
pub mod token;

use crate::ast::RuleSet;
use crate::diag::{ExpandErr, MatchDiag, diag_view, expand_err_view};
use crate::expand::{ExpV, expand_template, spec_expand};
use crate::matching::{SliceV, match_rules, spec_match_rules};
use crate::token::{Token, tokens_view};

verus! {

/// Why one whole invocation failed: the rule set is not the named one, the
/// input did not match, or the template did not expand.
#[derive(Debug)]
pub enum MacroDiag {
    NoSuchRule,
    Match(MatchDiag),
    Expand(ExpandErr),
}

/// Runs one whole invocation of the macro called `name`: matches the rule
/// set's top-level pattern against the input and expands its template against
/// the captures. The first failure aborts the invocation — no partial output.
pub fn expand_macro(name: &String, rs: &RuleSet, input: &Vec<Token>) -> (r: Result<
    Vec<Token>,
    MacroDiag,
>)
    ensures
        ({
            let sv = spec_match_rules(*rs, tokens_view(*input));
            match r {
                Result::Ok(ts) => name@ == rs.rule.name@ && sv is Done && (spec_expand(
                    sv->Done_0,
                    rs.rule.template,
                ) matches ExpV::Done { out, .. } && tokens_view(ts) == out),
                Result::Err(MacroDiag::NoSuchRule) => name@ != rs.rule.name@,
                Result::Err(MacroDiag::Match(d)) => name@ == rs.rule.name@ && sv
                    == SliceV::Aborted(diag_view(d)),
                Result::Err(MacroDiag::Expand(e)) => name@ == rs.rule.name@ && sv is Done
                    && spec_expand(sv->Done_0, rs.rule.template) == ExpV::Aborted(
                    expand_err_view(e),
                ),
            }
        }),
{
    if !(*name == rs.rule.name) {
        return Err(MacroDiag::NoSuchRule);
    }
    match match_rules(rs, input) {
        Err(d) => Err(MacroDiag::Match(d)),
        Ok(mat) => match expand_template(&mat, &rs.rule.template) {
            Ok(ts) => Ok(ts),
            Err(e) => Err(MacroDiag::Expand(e)),
        },
    }
}

} // verus!
