//! The pattern and template grammars: what a rule set matches and how output
//! tokens are rebuilt from the captures.
use vstd::prelude::*;

use crate::assoc::{skey_idx, lemma_skey_idx};
use crate::token::{Delimiter, Spacing};

verus! {

/// A dot-separated capture path: a non-empty sequence of names addressing a
/// nested capture in a match tree.
#[derive(Debug)]
pub struct Path {
    pub segments: Vec<String>,
}

/// The mathematical value of a path: the character sequences of its segments.
pub open spec fn path_view(p: Path) -> Seq<Seq<char>> {
    Seq::new(p.segments@.len(), |i: int| p.segments@[i]@)
}

impl Path {
    /// A path from its segments.
    pub fn new(path: Vec<String>) -> (r: Path)
        ensures
            path_view(r) == Seq::new(path@.len(), |i: int| path@[i]@),
    {
        let r = Path { segments: path };
        proof {
            assert(path_view(r) =~= Seq::new(r.segments@.len(), |i: int| r.segments@[i]@));
        }
        r
    }

    /// A copy of the path, segment for segment.
    pub fn deep_clone(&self) -> (r: Path)
        ensures
            path_view(r) == path_view(*self),
    {
        let mut segments: Vec<String> = Vec::new();
        let mut i: usize = 0;
        while i < self.segments.len()
            invariant
                i <= self.segments@.len(),
                segments@.len() == i as int,
                forall|j: int| 0 <= j < i as int ==> segments@[j]@ == self.segments@[j]@,
            decreases self.segments@.len() - i,
        {
            segments.push(self.segments[i].clone());
            i = i + 1;
        }
        let r = Path { segments };
        proof {
            assert(path_view(r) =~= path_view(*self));
        }
        r
    }
}

/// How often a matcher repeats: zero or more, one or more, or at most once.
#[derive(Clone, Copy, PartialEq, Eq, Structural, Debug)]
pub enum Quantifier {
    Star,
    Plus,
    Question,
}

/// Where the separator of a repetition may stand: before the first item, after
/// the last item (a dangling separator is kept), or strictly between items.
#[derive(Clone, Copy, PartialEq, Eq, Structural, Debug)]
pub enum SepStyle {
    Leading,
    Trailing,
    Middle,
}

/// The separator of a repetition: one punctuation character and its style.
#[derive(Clone, Copy, PartialEq, Eq, Structural, Debug)]
pub struct Sep {
    pub style: SepStyle,
    pub ch: char,
}

/// A repetition: a quantifier and an optional interspersed separator.
#[derive(Clone, Copy, PartialEq, Eq, Structural, Debug)]
pub struct Repeat {
    pub quantifier: Quantifier,
    pub sep: Option<Sep>,
}

/// What a matcher matches: one of the builtin kinds, or a named sub-grammar
/// resolved through the rule set at match time.
#[derive(Debug)]
pub enum MatcherKind {
    Tt,
    Ident,
    Literal,
    Lifetime,
    Rule(String),
}

/// A named capture point in a pattern: `$name:kind` with an optional
/// repetition. A missing name defaults to the kind's own name.
#[derive(Debug)]
pub struct Matcher {
    pub name: Option<String>,
    pub kind: MatcherKind,
    pub repeat: Option<Repeat>,
}

/// The default capture name of a matcher kind.
pub open spec fn kind_name(k: MatcherKind) -> Seq<char> {
    match k {
        MatcherKind::Tt => "tt"@,
        MatcherKind::Ident => "ident"@,
        MatcherKind::Literal => "literal"@,
        MatcherKind::Lifetime => "lifetime"@,
        MatcherKind::Rule(s) => s@,
    }
}

impl Matcher {
    /// The name the capture is nested under: the explicit name if one was
    /// given, else the kind's own name.
    pub open spec fn spec_name(&self) -> Seq<char> {
        match self.name {
            Some(n) => n@,
            None => kind_name(self.kind),
        }
    }

    /// The capture name as a string.
    pub fn capture_name(&self) -> (r: String)
        ensures
            r@ == self.spec_name(),
    {
        match &self.name {
            Some(n) => n.clone(),
            None => match &self.kind {
                MatcherKind::Tt => "tt".to_owned(),
                MatcherKind::Ident => "ident".to_owned(),
                MatcherKind::Literal => "literal".to_owned(),
                MatcherKind::Lifetime => "lifetime".to_owned(),
                MatcherKind::Rule(s) => s.clone(),
            },
        }
    }

    /// The quantifier of the repetition, if the matcher repeats.
    pub open spec fn spec_quantifier(&self) -> Option<Quantifier> {
        match self.repeat {
            Some(r) => Some(r.quantifier),
            None => None,
        }
    }

    /// Whether a failing first repetition leaves the sequence intact.
    pub open spec fn zero_allowed(&self) -> bool {
        self.spec_quantifier() == Some(Quantifier::Star) || self.spec_quantifier() == Some(
            Quantifier::Question,
        )
    }

    /// The separator character, if a separator is declared.
    pub open spec fn spec_sep(&self) -> Option<Sep> {
        match self.repeat {
            Some(r) => r.sep,
            None => None,
        }
    }

    /// The separator consumed before the first item, for the leading style.
    pub open spec fn leading_sep(&self) -> Option<char> {
        match self.spec_sep() {
            Some(s) => if s.style == SepStyle::Leading {
                Some(s.ch)
            } else {
                None
            },
            None => None,
        }
    }

    /// Whether a dangling final separator is kept, for the trailing style.
    pub open spec fn keeps_trailing_sep(&self) -> bool {
        match self.spec_sep() {
            Some(s) => s.style == SepStyle::Trailing,
            None => false,
        }
    }

    /// Whether the matcher repeats after a successful first match.
    pub open spec fn loops(&self) -> bool {
        self.spec_quantifier() == Some(Quantifier::Star) || self.spec_quantifier() == Some(
            Quantifier::Plus,
        )
    }

    /// Runtime test for [`Matcher::zero_allowed`].
    pub fn allows_zero(&self) -> (b: bool)
        ensures
            b == self.zero_allowed(),
    {
        match self.repeat {
            Some(r) => r.quantifier == Quantifier::Star || r.quantifier == Quantifier::Question,
            None => false,
        }
    }

    /// Runtime test for [`Matcher::loops`].
    pub fn has_loop(&self) -> (b: bool)
        ensures
            b == self.loops(),
    {
        match self.repeat {
            Some(r) => r.quantifier == Quantifier::Star || r.quantifier == Quantifier::Plus,
            None => false,
        }
    }

    /// The declared separator, if any.
    pub fn sep(&self) -> (s: Option<Sep>)
        ensures
            s == self.spec_sep(),
    {
        match self.repeat {
            Some(r) => r.sep,
            None => None,
        }
    }

    /// The leading separator character, if the separator style is leading.
    pub fn leading(&self) -> (c: Option<char>)
        ensures
            c == self.leading_sep(),
    {
        match self.repeat {
            Some(r) => match r.sep {
                Some(s) => if s.style == SepStyle::Leading {
                    Some(s.ch)
                } else {
                    None
                },
                None => None,
            },
            None => None,
        }
    }

    /// Runtime test for [`Matcher::keeps_trailing_sep`].
    pub fn keeps_trailing(&self) -> (b: bool)
        ensures
            b == self.keeps_trailing_sep(),
    {
        match self.repeat {
            Some(r) => match r.sep {
                Some(s) => s.style == SepStyle::Trailing,
                None => false,
            },
            None => false,
        }
    }
}

/// One pattern of a production: a delimited group of sub-patterns, an exact
/// identifier, punctuation or literal, or a matcher.
#[derive(Debug)]
pub enum Pattern {
    Group(Delimiter, Vec<Pattern>),
    Ident(String),
    Punct(char),
    Literal(String),
    Matcher(Matcher),
}

/// The builtin template functions, closed by construction.
#[derive(Clone, Copy, PartialEq, Eq, Structural, Debug)]
pub enum Builtin {
    First,
    Last,
    Count,
    Concat,
}

/// A template entry that is driven by the capture tree rather than emitted
/// verbatim.
#[derive(Debug)]
pub enum SpecialReplacement {
    Path(Path),
    Call { func: Builtin, args: Vec<Path> },
    If { cond: Path, body: Vec<Replacement> },
    ElseIf { cond: Path, body: Vec<Replacement> },
    Else { body: Vec<Replacement> },
    For { binding: String, source: Path, body: Vec<Replacement> },
}

/// One template entry: tokens emitted verbatim (groups recurse), or a special
/// entry driven by the captures.
#[derive(Debug)]
pub enum Replacement {
    Group(Delimiter, Vec<Replacement>),
    Ident(String),
    Punct(char, Spacing),
    Literal(String),
    Special(SpecialReplacement),
}

/// A macro rule: its name, the top-level pattern sequence, and the template.
#[derive(Debug)]
pub struct MacroRule {
    pub name: String,
    pub patterns: Vec<Pattern>,
    pub template: Vec<Replacement>,
}

/// A rule set: one macro rule together with its named sub-grammars, each a
/// sequence of alternative productions tried in declaration order.
#[derive(Debug)]
pub struct RuleSet {
    pub rule: MacroRule,
    pub subgrammars: Vec<(String, Vec<Vec<Pattern>>)>,
}

impl RuleSet {
    /// The productions of the sub-grammar called `name`, if there is one:
    /// those of the first entry with that name.
    pub open spec fn spec_subgrammar(&self, name: Seq<char>) -> Option<Vec<Vec<Pattern>>> {
        let i = skey_idx(self.subgrammars@, name);
        if i == -1 {
            None
        } else {
            Some(self.subgrammars@[i].1)
        }
    }

    /// Looks the sub-grammar called `name` up.
    pub fn subgrammar(&self, name: &String) -> (r: Option<&Vec<Vec<Pattern>>>)
        ensures
            match r {
                Some(alts) => self.spec_subgrammar(name@) == Some(*alts),
                None => self.spec_subgrammar(name@) is None,
            },
    {
        proof {
            lemma_skey_idx(self.subgrammars@, name@);
        }
        let mut i: usize = 0;
        while i < self.subgrammars.len()
            invariant
                i <= self.subgrammars@.len(),
                forall|j: int| 0 <= j < i as int ==> self.subgrammars@[j].0@ != name@,
            decreases self.subgrammars@.len() - i,
        {
            if self.subgrammars[i].0 == *name {
                proof {
                    lemma_skey_idx(self.subgrammars@, name@);
                    assert(skey_idx(self.subgrammars@, name@) == i as int);
                }
                return Some(&self.subgrammars[i].1);
            }
            i = i + 1;
        }
        None
    }
}

} // verus!
