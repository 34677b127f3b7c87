//! The rule registry: a write-once-per-entry store of rule sets by name, each
//! name carrying the versions in registration order. It is an explicitly
//! constructed, injectable value; a host that shares one across threads puts
//! it behind its own lock.
use vstd::prelude::*;

use crate::assoc::{skey_idx, lemma_skey_idx};
use crate::ast::RuleSet;

verus! {

/// A failed registry lookup.
#[derive(Clone, Copy, PartialEq, Eq, Structural, Debug)]
pub enum LookupErr {
    /// No rule set was ever registered under the name.
    UnknownMacro,
    /// The name exists, but not that version.
    UnknownVersion,
}

/// The store: one entry per name, holding that name's versions in
/// registration order. Entries are only ever added to, never removed.
pub struct Registry {
    pub entries: Vec<(String, Vec<RuleSet>)>,
}

impl Registry {
    /// An empty registry.
    pub fn new() -> (r: Registry)
        ensures
            r.entries@.len() == 0,
    {
        Registry { entries: Vec::new() }
    }

    /// Registers a rule set under `name` and returns its version: the number
    /// of rule sets registered under that name before, so versions are
    /// 0-based and monotonic per name. Nothing is ever overwritten.
    pub fn register(&mut self, name: String, rs: RuleSet) -> (v: usize)
        ensures
            ({
                let i = skey_idx(old(self).entries@, name@);
                if i == -1 {
                    &&& final(self).entries@.len() == old(self).entries@.len() + 1
                    &&& final(self).entries@.subrange(0, old(self).entries@.len() as int) == old(
                        self,
                    ).entries@
                    &&& final(self).entries@.last().0 == name
                    &&& final(self).entries@.last().1@ == seq![rs]
                    &&& v == 0
                } else {
                    &&& final(self).entries@.len() == old(self).entries@.len()
                    &&& forall|j: int|
                        0 <= j < old(self).entries@.len() && j != i ==> final(self).entries@[j]
                            == old(self).entries@[j]
                    &&& final(self).entries@[i].0 == old(self).entries@[i].0
                    &&& final(self).entries@[i].1@ == old(self).entries@[i].1@.push(rs)
                    &&& v as int == old(self).entries@[i].1@.len()
                }
            }),
    {
        proof {
            lemma_skey_idx(self.entries@, name@);
        }
        let mut i: usize = 0;
        while i < self.entries.len()
            invariant
                i <= self.entries@.len(),
                *self == *old(self),
                forall|j: int| 0 <= j < i as int ==> self.entries@[j].0@ != name@,
            decreases self.entries@.len() - i,
        {
            if self.entries[i].0 == name {
                proof {
                    lemma_skey_idx(self.entries@, name@);
                    assert(skey_idx(self.entries@, name@) == i as int);
                }
                let ghost old_entries = self.entries@;
                let mut entry = self.entries.remove(i);
                let version = entry.1.len();
                entry.1.push(rs);
                self.entries.insert(i, entry);
                proof {
                    assert(self.entries@ =~= old_entries.update(i as int, self.entries@[i as int]));
                    assert(self.entries@[i as int].1@ =~= old_entries[i as int].1@.push(rs));
                }
                return version;
            }
            i = i + 1;
        }
        proof {
            lemma_skey_idx(self.entries@, name@);
            assert(skey_idx(self.entries@, name@) == -1);
        }
        let ghost old_entries = self.entries@;
        let mut versions: Vec<RuleSet> = Vec::new();
        versions.push(rs);
        proof {
            assert(versions@ =~= seq![rs]);
        }
        let ghost pushed_name = name@;
        self.entries.push((name, versions));
        proof {
            assert(self.entries@.subrange(0, old_entries.len() as int) =~= old_entries);
            assert(self.entries@.len() == old_entries.len() + 1);
            assert(self.entries@.last().1@ =~= seq![rs]);
            assert(self.entries@.last().0@ == pushed_name);
        }
        0
    }

    /// Looks the rule set registered under `name` with the given version up.
    pub fn lookup(&self, name: &String, version: usize) -> (r: Result<&RuleSet, LookupErr>)
        ensures
            ({
                let i = skey_idx(self.entries@, name@);
                match r {
                    Result::Ok(rs) => i != -1 && version < self.entries@[i].1@.len() && *rs
                        == self.entries@[i].1@[version as int],
                    Result::Err(LookupErr::UnknownMacro) => i == -1,
                    Result::Err(LookupErr::UnknownVersion) => i != -1 && version
                        >= self.entries@[i].1@.len(),
                }
            }),
    {
        proof {
            lemma_skey_idx(self.entries@, name@);
        }
        let mut i: usize = 0;
        while i < self.entries.len()
            invariant
                i <= self.entries@.len(),
                forall|j: int| 0 <= j < i as int ==> self.entries@[j].0@ != name@,
            decreases self.entries@.len() - i,
        {
            if self.entries[i].0 == *name {
                proof {
                    lemma_skey_idx(self.entries@, name@);
                    assert(skey_idx(self.entries@, name@) == i as int);
                }
                if version < self.entries[i].1.len() {
                    return Ok(&self.entries[i].1[version]);
                } else {
                    return Err(LookupErr::UnknownVersion);
                }
            }
            i = i + 1;
        }
        Err(LookupErr::UnknownMacro)
    }
}

} // verus!
