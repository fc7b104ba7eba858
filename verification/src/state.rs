//! Per-clone state: for each branch, its ticket (or no-ticket mode) and when it was set.

use vstd::prelude::*;

use crate::text::{decimal, str_eq, u64_to_decimal};

verus! {

/// The state-file format version this library reads and writes.
pub const CURRENT_VERSION: u32 = 1;

/// A point in time, in seconds and nanoseconds since the Unix epoch (UTC).
#[derive(Debug, Clone, Copy, PartialEq, Eq, Structural)]
pub struct Timestamp {
    pub secs: i64,
    pub nanos: u32,
}

/// What is known about one branch. A `ticket` of `None` is no-ticket mode, which is
/// distinct from the branch having no entry at all.
#[derive(Debug, Clone, PartialEq, Eq)]
pub struct BranchEntry {
    pub ticket: Option<String>,
    pub set_at: Timestamp,
    pub amended_through: Option<String>,
}

/// The state of one clone: a format version and the entries of the branches.
#[derive(Debug, Clone, PartialEq, Eq)]
pub struct State {
    pub version: u32,
    pub branches: Vec<(String, BranchEntry)>,
}

/// The entry for the branch `k` among `s`: the first one with that name.
pub open spec fn lookup_in(s: Seq<(String, BranchEntry)>, k: Seq<char>) -> Option<BranchEntry>
    decreases s.len(),
{
    if s.len() == 0 {
        None
    } else if s[0].0@ == k {
        Some(s[0].1)
    } else {
        lookup_in(s.drop_first(), k)
    }
}

/// `s` without the entries named `k`.
pub open spec fn without(s: Seq<(String, BranchEntry)>, k: Seq<char>) -> Seq<(String, BranchEntry)>
    decreases s.len(),
{
    if s.len() == 0 {
        s
    } else if s[0].0@ == k {
        without(s.drop_first(), k)
    } else {
        seq![s[0]] + without(s.drop_first(), k)
    }
}

proof fn lemma_lookup_update(s: Seq<(String, BranchEntry)>, i: int, p: (String, BranchEntry), k: Seq<char>)
    requires
        0 <= i < s.len(),
        s[i].0@ == p.0@,
        forall|j: int| 0 <= j < i ==> (#[trigger] s[j]).0@ != p.0@,
    ensures
        lookup_in(s.update(i, p), k) == if k == p.0@ {
            Some(p.1)
        } else {
            lookup_in(s, k)
        },
    decreases i,
{
    if i > 0 {
        assert(s.update(i, p).drop_first() =~= s.drop_first().update(i - 1, p));
        assert forall|j: int| 0 <= j < i - 1 implies (#[trigger] s.drop_first()[j]).0@ != p.0@ by {
            assert(s.drop_first()[j] == s[j + 1]);
        }
        lemma_lookup_update(s.drop_first(), i - 1, p, k);
        assert(s.update(i, p)[0] == s[0]);
    } else {
        assert(s.update(i, p).drop_first() =~= s.drop_first());
    }
}

proof fn lemma_lookup_push(s: Seq<(String, BranchEntry)>, p: (String, BranchEntry), k: Seq<char>)
    requires
        forall|j: int| 0 <= j < s.len() ==> (#[trigger] s[j]).0@ != p.0@,
    ensures
        lookup_in(s.push(p), k) == if k == p.0@ {
            Some(p.1)
        } else {
            lookup_in(s, k)
        },
    decreases s.len(),
{
    if s.len() > 0 {
        assert(s.push(p).drop_first() =~= s.drop_first().push(p));
        assert forall|j: int| 0 <= j < s.drop_first().len() implies (#[trigger] s.drop_first()[j]).0@ != p.0@ by {
            assert(s.drop_first()[j] == s[j + 1]);
        }
        lemma_lookup_push(s.drop_first(), p, k);
    } else {
        assert(s.push(p).drop_first() =~= s);
    }
}

proof fn lemma_lookup_without(s: Seq<(String, BranchEntry)>, name: Seq<char>, k: Seq<char>)
    ensures
        lookup_in(without(s, name), k) == if k == name {
            None
        } else {
            lookup_in(s, k)
        },
    decreases s.len(),
{
    if s.len() > 0 {
        lemma_lookup_without(s.drop_first(), name, k);
        if s[0].0@ != name {
            let w = seq![s[0]] + without(s.drop_first(), name);
            assert(w.drop_first() =~= without(s.drop_first(), name));
        }
    }
}

impl State {
    /// The entry of the branch named `k`, if it has one.
    pub open spec fn entry(self, k: Seq<char>) -> Option<BranchEntry> {
        lookup_in(self.branches@, k)
    }

    /// A state of the current version with no branch entries.
    pub fn empty() -> (s: Self)
        ensures
            s.version == CURRENT_VERSION,
            s.branches@.len() == 0,
            forall|k: Seq<char>| #[trigger] s.entry(k) is None,
    {
        State { version: CURRENT_VERSION, branches: Vec::new() }
    }

    /// The entry of the branch `name`, if it has one.
    pub fn get_branch(&self, name: &str) -> (r: Option<&BranchEntry>)
        ensures
            r matches Some(e) ==> self.entry(name@) == Some(*e),
            r is None ==> self.entry(name@) is None,
    {
        let mut i: usize = 0;
        assert(self.branches@.skip(0) =~= self.branches@);
        while i < self.branches.len()
            invariant
                i <= self.branches@.len(),
                lookup_in(self.branches@, name@) == lookup_in(self.branches@.skip(i as int), name@),
            decreases self.branches.len() - i,
        {
            assert(self.branches@.skip(i as int).drop_first() =~= self.branches@.skip(i + 1));
            if str_eq(self.branches[i].0.as_str(), name) {
                return Some(&self.branches[i].1);
            }
            i += 1;
        }
        None
    }

    /// Gives the branch `name` the entry `entry`, replacing the one it had. The other
    /// branches keep theirs.
    pub fn set_branch(&mut self, name: &str, entry: BranchEntry)
        ensures
            final(self).version == old(self).version,
            final(self).entry(name@) == Some(entry),
            forall|k: Seq<char>| k != name@ ==> #[trigger] final(self).entry(k) == old(self).entry(k),
    {
        let mut i: usize = 0;
        while i < self.branches.len()
            invariant
                i <= self.branches@.len(),
                self.branches@ == old(self).branches@,
                self.version == old(self).version,
                forall|j: int| 0 <= j < i ==> (#[trigger] self.branches@[j]).0@ != name@,
            decreases self.branches.len() - i,
        {
            if str_eq(self.branches[i].0.as_str(), name) {
                let p = (name.to_owned(), entry);
                proof {
                    assert forall|k: Seq<char>| #[trigger] lookup_in(self.branches@.update(i as int, p), k) == if k == name@ {
                        Some(p.1)
                    } else {
                        lookup_in(self.branches@, k)
                    } by {
                        lemma_lookup_update(self.branches@, i as int, p, k);
                    }
                }
                self.branches.set(i, p);
                return;
            }
            i += 1;
        }
        let p = (name.to_owned(), entry);
        proof {
            assert forall|k: Seq<char>| #[trigger] lookup_in(self.branches@.push(p), k) == if k == name@ {
                Some(p.1)
            } else {
                lookup_in(self.branches@, k)
            } by {
                lemma_lookup_push(self.branches@, p, k);
            }
        }
        self.branches.push(p);
    }

    /// Removes the entry of the branch `name`; the other branches keep theirs.
    pub fn clear_branch(&mut self, name: &str)
        ensures
            final(self).version == old(self).version,
            final(self).entry(name@) is None,
            forall|k: Seq<char>| k != name@ ==> #[trigger] final(self).entry(k) == old(self).entry(k),
    {
        let mut kept: Vec<(String, BranchEntry)> = Vec::new();
        let mut rest: Vec<(String, BranchEntry)> = Vec::new();
        std::mem::swap(&mut rest, &mut self.branches);
        assert(kept@ + without(rest@, name@) =~= without(rest@, name@));
        while rest.len() > 0
            invariant
                without(old(self).branches@, name@) == kept@ + without(rest@, name@),
            decreases rest.len(),
        {
            let ghost before_rest = rest@;
            let p = rest.remove(0);
            assert(before_rest.drop_first() =~= rest@);
            if !str_eq(p.0.as_str(), name) {
                let ghost before = kept@;
                kept.push(p);
                assert(before + (seq![before_rest[0]] + without(rest@, name@)) =~= kept@ + without(
                    rest@,
                    name@,
                ));
            }
        }
        assert(without(rest@, name@) =~= Seq::<(String, BranchEntry)>::empty());
        assert(kept@ + Seq::<(String, BranchEntry)>::empty() =~= kept@);
        proof {
            assert forall|k: Seq<char>| #[trigger] lookup_in(kept@, k) == if k == name@ {
                None
            } else {
                lookup_in(old(self).branches@, k)
            } by {
                lemma_lookup_without(old(self).branches@, name@, k);
            }
        }
        self.branches = kept;
    }
}

/// The entry a branch gets when its ticket is set (or cleared, with `None`) at
/// `set_at`: the point up to which commits were amended is carried over from the
/// previous entry.
pub fn carried_entry(prev: Option<&BranchEntry>, ticket: Option<String>, set_at: Timestamp) -> (e: BranchEntry)
    ensures
        e.ticket == ticket,
        e.set_at == set_at,
        e.amended_through == match prev {
            Some(p) => p.amended_through,
            None => None,
        },
{
    let amended_through = match prev {
        Some(p) => match &p.amended_through {
            Some(a) => Some(a.clone()),
            None => None,
        },
        None => None,
    };
    BranchEntry { ticket, set_at, amended_through }
}

/// The message for a state file of a version this library does not read.
pub open spec fn version_error_text(path: Seq<char>, version: u32) -> Seq<char> {
    "state file "@ + path + " has unsupported version "@ + decimal(version as nat)
        + " (expected 1)"@
}

/// Accepts a loaded state of the current version; refuses another version with a
/// message naming the file and the version found.
pub fn check_version(state: State, path: &str) -> (r: Result<State, String>)
    ensures
        r matches Ok(s) ==> s == state && state.version == CURRENT_VERSION,
        r matches Err(m) ==> state.version != CURRENT_VERSION && m@ == version_error_text(path@, state.version),
        r is Ok <==> state.version == CURRENT_VERSION,
{
    if state.version == CURRENT_VERSION {
        Ok(state)
    } else {
        let mut m = "state file ".to_owned();
        m.append(path);
        m.append(" has unsupported version ");
        let v = u64_to_decimal(state.version as u64);
        m.append(v.as_str());
        m.append(" (expected 1)");
        Err(m)
    }
}

} // verus!
