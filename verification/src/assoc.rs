//! Name-indexed association sequences: the shared model of every
//! name-to-value table in the engine (sub-grammars, capture children, the
//! rule registry). Lookup finds the first entry whose key has the given
//! character sequence.
use vstd::prelude::*;

verus! {

/// The index of the first entry of `s` (from index `i` on) whose key is
/// `name`, or `-1` if there is none. Keys are `String`s compared by value.
pub open spec fn skey_idx_from<T>(s: Seq<(String, T)>, name: Seq<char>, i: int) -> int
    decreases s.len() - i,
{
    if 0 <= i < s.len() {
        if s[i].0@ == name {
            i
        } else {
            skey_idx_from(s, name, i + 1)
        }
    } else {
        -1
    }
}

/// The index of the first entry of `s` whose key is `name`, or `-1`.
pub open spec fn skey_idx<T>(s: Seq<(String, T)>, name: Seq<char>) -> int {
    skey_idx_from(s, name, 0)
}

/// What `skey_idx_from` finds: the first key equal to `name`, if any.
pub broadcast proof fn lemma_skey_idx_from<T>(s: Seq<(String, T)>, name: Seq<char>, i: int)
    requires
        0 <= i <= s.len(),
    ensures
        #[trigger] skey_idx_from(s, name, i) == -1 ==> forall|j: int|
            i <= j < s.len() ==> s[j].0@ != name,
        skey_idx_from(s, name, i) != -1 ==> i <= skey_idx_from(s, name, i) < s.len()
            && s[skey_idx_from(s, name, i)].0@ == name && forall|j: int|
            i <= j < skey_idx_from(s, name, i) ==> s[j].0@ != name,
    decreases s.len() - i,
{
    if i < s.len() && s[i].0@ != name {
        lemma_skey_idx_from(s, name, i + 1);
    }
}

/// What `skey_idx` finds: the first key equal to `name`, if any.
pub broadcast proof fn lemma_skey_idx<T>(s: Seq<(String, T)>, name: Seq<char>)
    ensures
        #[trigger] skey_idx(s, name) == -1 ==> forall|j: int| 0 <= j < s.len() ==> s[j].0@ != name,
        skey_idx(s, name) != -1 ==> 0 <= skey_idx(s, name) < s.len()
            && s[skey_idx(s, name)].0@ == name && forall|j: int|
            0 <= j < skey_idx(s, name) ==> s[j].0@ != name,
{
    lemma_skey_idx_from(s, name, 0);
}

/// The index of the first entry of the mathematical table `s` (from index `i`
/// on) whose key is `name`, or `-1`.
pub open spec fn key_idx_from<T>(s: Seq<(Seq<char>, T)>, name: Seq<char>, i: int) -> int
    decreases s.len() - i,
{
    if 0 <= i < s.len() {
        if s[i].0 == name {
            i
        } else {
            key_idx_from(s, name, i + 1)
        }
    } else {
        -1
    }
}

/// The index of the first entry of `s` whose key is `name`, or `-1`.
pub open spec fn key_idx<T>(s: Seq<(Seq<char>, T)>, name: Seq<char>) -> int {
    key_idx_from(s, name, 0)
}

/// What `key_idx` finds: the first key equal to `name`, if any.
pub broadcast proof fn lemma_key_idx<T>(s: Seq<(Seq<char>, T)>, name: Seq<char>)
    ensures
        #[trigger] key_idx(s, name) == -1 ==> forall|j: int| 0 <= j < s.len() ==> s[j].0 != name,
        key_idx(s, name) != -1 ==> 0 <= key_idx(s, name) < s.len() && s[key_idx(s, name)].0 == name
            && forall|j: int| 0 <= j < key_idx(s, name) ==> s[j].0 != name,
{
    lemma_key_idx_from(s, name, 0);
}

/// What `key_idx_from` finds: the first key equal to `name`, if any.
pub broadcast proof fn lemma_key_idx_from<T>(s: Seq<(Seq<char>, T)>, name: Seq<char>, i: int)
    requires
        0 <= i <= s.len(),
    ensures
        #[trigger] key_idx_from(s, name, i) == -1 ==> forall|j: int|
            i <= j < s.len() ==> s[j].0 != name,
        key_idx_from(s, name, i) != -1 ==> i <= key_idx_from(s, name, i) < s.len()
            && s[key_idx_from(s, name, i)].0 == name && forall|j: int|
            i <= j < key_idx_from(s, name, i) ==> s[j].0 != name,
    decreases s.len() - i,
{
    if i < s.len() && s[i].0 != name {
        lemma_key_idx_from(s, name, i + 1);
    }
}

} // verus!
