//! The capture tree: named input fragments bound during matching and read
//! during expansion. Children are kept as a name-indexed association vector;
//! its mathematical value is a sequence of name/capture pairs where lookup
//! takes the first entry with the sought name.
use vstd::prelude::*;

use crate::assoc::{key_idx, lemma_key_idx, lemma_skey_idx};
use crate::ast::{Path, path_view};
use crate::token::{Token, TokenV, tokens_view, lemma_tokens_view, deep_clone_tokens};

verus! {

broadcast use {
    crate::token::lemma_tokens_view,
    crate::assoc::lemma_key_idx,
    crate::assoc::lemma_skey_idx,
};

/// A capture tree: the tokens bound at this node and the named sub-captures.
#[derive(Debug)]
pub struct Match {
    pub tokens: Vec<Token>,
    pub children: Vec<(String, Match)>,
}

/// The mathematical value of a [`Match`].
#[verifier::ext_equal]
pub ghost struct CaptureV {
    pub tokens: Seq<TokenV>,
    pub children: Seq<(Seq<char>, CaptureV)>,
}

/// The children of a capture tree, as a mathematical table.
pub type CapEntries = Seq<(Seq<char>, CaptureV)>;

/// The mathematical value of a capture tree.
pub open spec fn match_view(m: Match) -> CaptureV
    decreases m, 0int,
{
    CaptureV { tokens: tokens_view(m.tokens), children: children_view_from(m.children, 0) }
}

/// The values of the child entries of `cs` from index `i` on.
pub open spec fn children_view_from(cs: Vec<(String, Match)>, i: int) -> CapEntries
    decreases cs, cs@.len() - i + 1,
{
    if 0 <= i < cs@.len() {
        seq![(cs[i].0@, match_view(cs[i].1))] + children_view_from(cs, i + 1)
    } else {
        Seq::empty()
    }
}

/// The values of all child entries of `cs`.
pub open spec fn children_view(cs: Vec<(String, Match)>) -> CapEntries {
    children_view_from(cs, 0)
}

/// `children_view_from(cs, i)` lists the entries of `cs[i..]`, elementwise.
pub broadcast proof fn lemma_children_view_from(cs: Vec<(String, Match)>, i: int)
    requires
        0 <= i <= cs@.len(),
    ensures
        (#[trigger] children_view_from(cs, i)).len() == cs@.len() - i,
        forall|k: int|
            0 <= k < cs@.len() - i ==> children_view_from(cs, i)[k] == (
            cs@[i + k].0@,
            match_view(cs@[i + k].1),
            ),
    decreases cs@.len() - i,
{
    if i < cs@.len() {
        lemma_children_view_from(cs, i + 1);
    }
}

/// `children_view` lists the entries of `cs`, elementwise.
pub broadcast proof fn lemma_children_view(cs: Vec<(String, Match)>)
    ensures
        (#[trigger] children_view(cs)).len() == cs@.len(),
        forall|k: int|
            0 <= k < cs@.len() ==> children_view(cs)[k] == (cs@[k].0@, match_view(cs@[k].1)),
{
    lemma_children_view_from(cs, 0);
}

/// The capture bound to `name`: the first entry with that name, if any.
pub open spec fn cap_get(cs: CapEntries, name: Seq<char>) -> Option<CaptureV> {
    let i = key_idx(cs, name);
    if i == -1 {
        None
    } else {
        Some(cs[i].1)
    }
}

/// `cs` with the token `t` appended to the capture named `name`; a new
/// capture holding only `t` is added when the name is not yet bound.
/// Repeated captures append, they never overwrite.
pub open spec fn cap_add_token(cs: CapEntries, name: Seq<char>, t: TokenV) -> CapEntries {
    let i = key_idx(cs, name);
    if i == -1 {
        cs.push((name, CaptureV { tokens: seq![t], children: Seq::empty() }))
    } else {
        cs.update(
            i,
            (name, CaptureV { tokens: cs[i].1.tokens.push(t), children: cs[i].1.children }),
        )
    }
}

/// `cs` with the capture named `name` replaced (not merged) by one that holds
/// the single token `t` and no children.
pub open spec fn cap_replace(cs: CapEntries, name: Seq<char>, t: TokenV) -> CapEntries {
    let fresh = CaptureV { tokens: seq![t], children: Seq::empty() };
    let i = key_idx(cs, name);
    if i == -1 {
        cs.push((name, fresh))
    } else {
        cs.update(i, (name, fresh))
    }
}

/// `cs` with `v` bound to `name`, replacing an existing binding.
pub open spec fn cap_put(cs: CapEntries, name: Seq<char>, v: CaptureV) -> CapEntries {
    let i = key_idx(cs, name);
    if i == -1 {
        cs.push((name, v))
    } else {
        cs.update(i, (name, v))
    }
}

/// `cs` with every entry of `ds` (from index `j` on) bound, in order, each
/// replacing an existing binding of its name.
pub open spec fn cap_extend(cs: CapEntries, ds: CapEntries, j: int) -> CapEntries
    decreases ds.len() - j,
{
    if 0 <= j < ds.len() {
        cap_extend(cap_put(cs, ds[j].0, ds[j].1), ds, j + 1)
    } else {
        cs
    }
}

/// `cs` with the capture `m` nested under `name`: when the name is already
/// bound, `m`'s tokens are appended to the binding's and `m`'s children are
/// nested into the binding's children, recursively — this is how the captures
/// of the repetitions of one matcher merge positionally; otherwise `m` is
/// added as a new binding.
pub open spec fn cap_nest(cs: CapEntries, name: Seq<char>, m: CaptureV) -> CapEntries
    decreases m, 0int,
{
    let i = key_idx(cs, name);
    if i == -1 {
        cs.push((name, m))
    } else {
        cs.update(
            i,
            (
                name,
                CaptureV {
                    tokens: cs[i].1.tokens + m.tokens,
                    children: cap_nest_all(cs[i].1.children, m.children, 0),
                },
            ),
        )
    }
}

/// `cs` with every entry of `ms` (from index `j` on) nested, in order.
pub open spec fn cap_nest_all(cs: CapEntries, ms: CapEntries, j: int) -> CapEntries
    decreases ms, ms.len() - j + 1,
{
    if 0 <= j < ms.len() {
        cap_nest_all(cap_nest(cs, ms[j].0, ms[j].1), ms, j + 1)
    } else {
        cs
    }
}

/// The tokens addressed by the path segments `path[i..]`, walking the child
/// named by each segment in turn: `None` as soon as a segment is unbound.
pub open spec fn cap_find(c: CaptureV, path: Seq<Seq<char>>, i: int) -> Option<Seq<TokenV>>
    decreases path.len() - i,
{
    if i < 0 || i >= path.len() {
        Some(c.tokens)
    } else {
        match cap_get(c.children, path[i]) {
            Some(ch) => cap_find(ch, path, i + 1),
            None => None,
        }
    }
}

impl Match {
    /// A capture tree holding `tokens` and no children.
    pub fn leaf(tokens: Vec<Token>) -> (r: Match)
        ensures
            match_view(r) == (CaptureV { tokens: tokens_view(tokens), children: Seq::empty() }),
    {
        let r = Match { tokens, children: Vec::new() };
        proof {
            assert(match_view(r) =~~= (CaptureV {
                tokens: tokens_view(r.tokens),
                children: Seq::empty(),
            }));
        }
        r
    }

    /// The index of this node's child named `name`, if one exists.
    fn child_index(&self, name: &String) -> (r: Option<usize>)
        ensures
            match r {
                Some(i) => i < self.children@.len() && key_idx(
                    children_view(self.children),
                    name@,
                ) == i as int,
                None => key_idx(children_view(self.children), name@) == -1,
            },
    {
        children_index(&self.children, name)
    }

    /// Appends `t` to the capture named `name`, adding the capture if the
    /// name is not yet bound.
    pub fn add_child(&mut self, name: &String, t: Token)
        ensures
            match_view(*final(self)).tokens == match_view(*old(self)).tokens,
            match_view(*final(self)).children == cap_add_token(
                match_view(*old(self)).children,
                name@,
                crate::token::token_view(t),
            ),
    {
        proof {
            broadcast use lemma_children_view;
        }
        let idx = self.child_index(name);
        match idx {
            Some(i) => {
                let ghost old_children = self.children;
                let mut entry = self.children.remove(i);
                let ghost old_entry_tokens = entry.1.tokens;
                entry.1.tokens.push(t);
                self.children.insert(i, entry);
                proof {
                    assert(self.children@ =~= old_children@.update(
                        i as int,
                        (old_children@[i as int].0, entry.1),
                    ));
                    assert(tokens_view(entry.1.tokens) =~= tokens_view(old_entry_tokens).push(
                        crate::token::token_view(t),
                    ));
                    assert(children_view(self.children) =~~= cap_add_token(
                        children_view(old_children),
                        name@,
                        crate::token::token_view(t),
                    ));
                }
            },
            None => {
                let ghost old_children = self.children;
                let mut tokens: Vec<Token> = Vec::new();
                tokens.push(t);
                self.children.push((name.clone(), Match { tokens, children: Vec::new() }));
                proof {
                    let tv = crate::token::token_view(t);
                    assert(tokens_view(self.children@.last().1.tokens) =~= seq![tv]);
                    assert(children_view(self.children@.last().1.children) =~= Seq::empty());
                    assert(children_view(self.children) =~~= cap_add_token(
                        children_view(old_children),
                        name@,
                        tv,
                    ));
                }
            },
        }
    }

    /// Replaces (never merges) the capture named `name` by one holding the
    /// single token `t` and no children; used to rebind a loop variable.
    pub fn replace_child(&mut self, name: &String, t: Token)
        ensures
            match_view(*final(self)).tokens == match_view(*old(self)).tokens,
            match_view(*final(self)).children == cap_replace(
                match_view(*old(self)).children,
                name@,
                crate::token::token_view(t),
            ),
    {
        proof {
            broadcast use lemma_children_view;
        }
        let mut tokens: Vec<Token> = Vec::new();
        tokens.push(t);
        let fresh = Match { tokens, children: Vec::new() };
        proof {
            assert(match_view(fresh) =~~= (CaptureV {
                tokens: seq![crate::token::token_view(t)],
                children: Seq::empty(),
            }));
        }
        let idx = self.child_index(name);
        match idx {
            Some(i) => {
                let ghost old_children = self.children;
                let _ = self.children.remove(i);
                self.children.insert(i, (name.clone(), fresh));
                proof {
                    assert(self.children@ =~= old_children@.update(
                        i as int,
                        self.children@[i as int],
                    ));
                    assert(children_view(self.children) =~~= cap_replace(
                        children_view(old_children),
                        name@,
                        crate::token::token_view(t),
                    ));
                }
            },
            None => {
                let ghost old_children = self.children;
                self.children.push((name.clone(), fresh));
                proof {
                    assert(children_view(self.children) =~~= cap_replace(
                        children_view(old_children),
                        name@,
                        crate::token::token_view(t),
                    ));
                }
            },
        }
    }

    /// The tokens addressed by `path`, copied out; `None` when some segment
    /// is unbound.
    pub fn find_child(&self, path: &Path) -> (r: Option<Vec<Token>>)
        ensures
            match r {
                Some(ts) => cap_find(match_view(*self), path_view(*path), 0) == Some(
                    tokens_view(ts),
                ),
                None => cap_find(match_view(*self), path_view(*path), 0) is None,
            },
    {
        self.find_from(path, 0)
    }

    /// The tokens addressed by the path segments `path[i..]`.
    fn find_from(&self, path: &Path, i: usize) -> (r: Option<Vec<Token>>)
        requires
            i <= path.segments@.len(),
        ensures
            match r {
                Some(ts) => cap_find(match_view(*self), path_view(*path), i as int) == Some(
                    tokens_view(ts),
                ),
                None => cap_find(match_view(*self), path_view(*path), i as int) is None,
            },
        decreases path.segments@.len() - i,
    {
        proof {
            broadcast use lemma_children_view;
        }
        if i == path.segments.len() {
            Some(deep_clone_tokens(&self.tokens))
        } else {
            let idx = self.child_index(&path.segments[i]);
            match idx {
                Some(k) => {
                    proof {
                        assert(cap_get(match_view(*self).children, path_view(*path)[i as int])
                            == Some(match_view(self.children@[k as int].1)));
                    }
                    self.children[k].1.find_from(path, i + 1)
                },
                None => None,
            }
        }
    }

    /// Nests `m` under `name` among this node's children (merging captures of
    /// repeated matchers positionally).
    pub fn nest(&mut self, name: &String, m: &Match)
        ensures
            match_view(*final(self)).tokens == match_view(*old(self)).tokens,
            match_view(*final(self)).children == cap_nest(
                match_view(*old(self)).children,
                name@,
                match_view(*m),
            ),
    {
        nest_into(&mut self.children, name, m);
    }

    /// Hoists every child of `other` into this node's children, each
    /// replacing an existing binding of its name; used when the captures of a
    /// delimited group are not scoped per group.
    pub fn hoist_children(&mut self, other: &Match)
        ensures
            match_view(*final(self)).tokens == match_view(*old(self)).tokens,
            match_view(*final(self)).children == cap_extend(
                match_view(*old(self)).children,
                match_view(*other).children,
                0,
            ),
    {
        let ghost orig = *self;
        let mut j: usize = 0;
        while j < other.children.len()
            invariant
                j <= other.children@.len(),
                self.tokens == orig.tokens,
                cap_extend(
                    children_view(self.children),
                    children_view(other.children),
                    j as int,
                ) == cap_extend(children_view(orig.children), children_view(other.children), 0),
            decreases other.children@.len() - j,
        {
            proof {
                broadcast use lemma_children_view;
            }
            assert(decreases_to!(other.children => other.children[j as int]));
            let ghost before = children_view(self.children);
            let sub = other.children[j].1.deep_clone();
            put_child(&mut self.children, &other.children[j].0, sub);
            proof {
                let ov = children_view(other.children);
                assert(cap_extend(before, ov, j as int) == cap_extend(
                    cap_put(before, ov[j as int].0, ov[j as int].1),
                    ov,
                    j as int + 1,
                ));
                assert(children_view(self.children) == cap_put(
                    before,
                    ov[j as int].0,
                    ov[j as int].1,
                ));
            }
            j = j + 1;
        }
        proof {
            broadcast use lemma_children_view;

            assert(cap_extend(
                children_view(self.children),
                children_view(other.children),
                other.children@.len() as int,
            ) == children_view(self.children));
        }
    }

    /// A structural copy of the capture tree.
    pub fn deep_clone(&self) -> (r: Match)
        ensures
            match_view(r) == match_view(*self),
        decreases self, 1int,
    {
        proof {
            broadcast use lemma_children_view;
        }
        let tokens = deep_clone_tokens(&self.tokens);
        let children = deep_clone_children(&self.children);
        let r = Match { tokens, children };
        proof {
            assert(match_view(r) =~~= match_view(*self));
        }
        r
    }
}

/// A structural copy of a child table.
pub fn deep_clone_children(cs: &Vec<(String, Match)>) -> (r: Vec<(String, Match)>)
    ensures
        children_view(r) == children_view(*cs),
        r@.len() == cs@.len(),
    decreases cs, 0int,
{
    proof {
        broadcast use lemma_children_view;
    }
    let mut r: Vec<(String, Match)> = Vec::new();
    let mut i: usize = 0;
    while i < cs.len()
        invariant
            i <= cs@.len(),
            r@.len() == i as int,
            forall|j: int|
                0 <= j < i as int ==> r@[j].0@ == cs@[j].0@ && match_view(r@[j].1) == match_view(
                    cs@[j].1,
                ),
        decreases cs@.len() - i,
    {
        assert(decreases_to!(cs => cs[i as int]));
        let name = cs[i].0.clone();
        let sub = cs[i].1.deep_clone();
        r.push((name, sub));
        i = i + 1;
    }
    proof {
        assert(children_view(r) =~~= children_view(*cs));
    }
    r
}


/// Nests `m` under `name` in the child table `cs`: appended tokens and
/// recursively merged children when the name is bound, a new entry otherwise.
pub fn nest_into(cs: &mut Vec<(String, Match)>, name: &String, m: &Match)
    ensures
        children_view(*final(cs)) == cap_nest(children_view(*old(cs)), name@, match_view(*m)),
    decreases m, 1int,
{
    let idx = children_index(cs, name);
    match idx {
        Some(i) => {
            let ghost old_cs = *cs;
            let mut entry = cs.remove(i);
            let ghost old_entry = entry;
            let mut tail = deep_clone_tokens(&m.tokens);
            entry.1.tokens.append(&mut tail);
            nest_all(&mut entry.1.children, &m.children, 0);
            cs.insert(i, entry);
            proof {
                broadcast use lemma_children_view;

                assert(cs@ =~= old_cs@.update(i as int, (old_cs@[i as int].0, entry.1)));
                assert(tokens_view(entry.1.tokens) =~= tokens_view(old_entry.1.tokens)
                    + tokens_view(m.tokens));
                assert(children_view(*cs) =~~= cap_nest(
                    children_view(old_cs),
                    name@,
                    match_view(*m),
                ));
            }
        },
        None => {
            let ghost old_cs = *cs;
            cs.push((name.clone(), m.deep_clone()));
            proof {
                broadcast use lemma_children_view;

                assert(children_view(*cs) =~~= cap_nest(
                    children_view(old_cs),
                    name@,
                    match_view(*m),
                ));
            }
        },
    }
}

/// Nests every entry of `ms` from index `j` on into `cs`, in order.
pub fn nest_all(cs: &mut Vec<(String, Match)>, ms: &Vec<(String, Match)>, j: usize)
    requires
        j <= ms@.len(),
    ensures
        children_view(*final(cs)) == cap_nest_all(
            children_view(*old(cs)),
            children_view(*ms),
            j as int,
        ),
    decreases ms, ms@.len() - j + 2,
{
    proof {
        broadcast use lemma_children_view;

    }
    if j < ms.len() {
        assert(decreases_to!(ms => ms[j as int]));
        nest_into(cs, &ms[j].0, &ms[j].1);
        nest_all(cs, ms, j + 1);
    }
}

/// Binds `m` to `name` in `cs`, replacing an existing binding of that name.
pub fn put_child(cs: &mut Vec<(String, Match)>, name: &String, m: Match)
    ensures
        children_view(*final(cs)) == cap_put(children_view(*old(cs)), name@, match_view(m)),
{
    let idx = children_index(cs, name);
    match idx {
        Some(i) => {
            let ghost old_cs = *cs;
            let _ = cs.remove(i);
            cs.insert(i, (name.clone(), m));
            proof {
                broadcast use lemma_children_view;

                assert(cs@ =~= old_cs@.update(i as int, cs@[i as int]));
                assert(children_view(*cs) =~~= cap_put(
                    children_view(old_cs),
                    name@,
                    match_view(cs@[i as int].1),
                ));
            }
        },
        None => {
            let ghost old_cs = *cs;
            cs.push((name.clone(), m));
            proof {
                broadcast use lemma_children_view;

                assert(children_view(*cs) =~~= cap_put(
                    children_view(old_cs),
                    name@,
                    match_view(cs@[cs@.len() - 1].1),
                ));
            }
        },
    }
}

/// The index of the entry of `cs` named `name`, if one exists.
pub fn children_index(cs: &Vec<(String, Match)>, name: &String) -> (r: Option<usize>)
    ensures
        match r {
            Some(i) => i < cs@.len() && key_idx(children_view(*cs), name@) == i as int,
            None => key_idx(children_view(*cs), name@) == -1,
        },
{
    let mut i: usize = 0;
    while i < cs.len()
        invariant
            i <= cs@.len(),
            forall|j: int| 0 <= j < i as int ==> cs@[j].0@ != name@,
        decreases cs@.len() - i,
    {
        if cs[i].0 == *name {
            proof {
                lemma_children_view(*cs);
                let cv = children_view(*cs);
                assert(forall|j: int| 0 <= j < i as int ==> cv[j].0 != name@);
                assert(cv[i as int].0 == name@);
            }
            return Some(i);
        }
        i = i + 1;
    }
    proof {
        lemma_children_view(*cs);
        let cv = children_view(*cs);
        assert(forall|j: int| 0 <= j < cv.len() ==> cv[j].0 != name@);
    }
    None
}

} // verus!
