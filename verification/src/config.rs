//! Static cluster membership: the voters and the local node among them.

use vstd::prelude::*;

verus! {

/// Identifier of a cluster member.
pub type NodeId = u64;

/// Why a membership cannot be used.
#[derive(Clone, Copy, Debug, PartialEq, Eq, Structural)]
pub enum ConfigError {
    /// The local node is not one of the voters.
    LocalNotMember,
    /// A voter is listed twice.
    DuplicateMember,
}

/// A committed change of the membership.
#[derive(Clone, Copy, Debug, PartialEq, Eq, Structural)]
pub enum ConfChange {
    /// The node becomes a voter.
    AddVoter(NodeId),
    /// The node stops being a voter.
    RemoveVoter(NodeId),
}

/// The voters after `change`, given the voters before it. Adding a present
/// voter, removing an absent one and removing the local node change nothing.
pub open spec fn voters_after(voters: Seq<NodeId>, local: NodeId, change: ConfChange) -> Seq<
    NodeId,
> {
    match change {
        ConfChange::AddVoter(id) => if voters.contains(id) {
            voters
        } else {
            voters.push(id)
        },
        ConfChange::RemoveVoter(id) => if id != local && voters.contains(id) {
            voters.remove(voters.index_of(id))
        } else {
            voters
        },
    }
}

/// The version of a membership after one more change was applied to it. It
/// stays at the largest number once that is reached.
pub open spec fn version_after(version: u64) -> u64 {
    if version < u64::MAX {
        (version + 1) as u64
    } else {
        version
    }
}

/// The number of voters that forms a strict majority of `n`.
pub open spec fn majority_of(n: nat) -> nat {
    n / 2 + 1
}

/// The voters of the cluster, in the order in which they joined, the local
/// node, which is one of them, and the number of committed changes that led
/// to this membership.
#[derive(Debug)]
pub struct ClusterConfig {
    voters: Vec<NodeId>,
    local: NodeId,
    version: u64,
}

impl ClusterConfig {
    /// The voters, in joining order.
    pub closed spec fn voters(&self) -> Seq<NodeId> {
        self.voters@
    }

    /// The local node.
    pub closed spec fn local(&self) -> NodeId {
        self.local
    }

    /// The number of committed changes applied so far.
    pub closed spec fn version(&self) -> u64 {
        self.version
    }

    /// No voter is listed twice and the local node is a voter.
    pub open spec fn wf(&self) -> bool {
        self.voters().no_duplicates() && self.voters().contains(self.local())
    }

    /// The cluster whose only voter is the local node.
    pub fn single(local: NodeId) -> (r: ClusterConfig)
        ensures
            r.wf(),
            r.local() == local,
            r.voters() == seq![local],
            r.version() == 0,
    {
        let mut voters: Vec<NodeId> = Vec::new();
        voters.push(local);
        proof {
            assert(voters@ =~= seq![local]);
            assert(voters@[0] == local);
        }
        ClusterConfig { voters, local, version: 0 }
    }

    /// Validates a membership.
    pub fn new(local: NodeId, voters: Vec<NodeId>) -> (r: Result<ClusterConfig, ConfigError>)
        ensures
            match r {
                Ok(c) => c.wf() && c.voters() == voters@ && c.local() == local && c.version() == 0,
                Err(ConfigError::LocalNotMember) => !voters@.contains(local),
                Err(ConfigError::DuplicateMember) => voters@.contains(local)
                    && !voters@.no_duplicates(),
            },
    {
        let at: usize = match position_of(&voters, local) {
            None => {
                return Err(ConfigError::LocalNotMember);
            },
            Some(at) => at,
        };
        let n: usize = voters.len();
        let mut i: usize = 0;
        while i < n
            invariant
                i <= n,
                n == voters@.len(),
                at < n && voters@[at as int] == local,
                forall|a: int, b: int| 0 <= a < b < i ==> voters@[a] != voters@[b],
            decreases n - i,
        {
            let mut j: usize = 0;
            while j < i
                invariant
                    j <= i < n,
                    n == voters@.len(),
                    at < n && voters@[at as int] == local,
                    forall|a: int| 0 <= a < j ==> voters@[a] != voters@[i as int],
                decreases i - j,
            {
                if voters[j] == voters[i] {
                    assert(voters@[j as int] == voters@[i as int] && j != i);
                    return Err(ConfigError::DuplicateMember);
                }
                j = j + 1;
            }
            i = i + 1;
        }
        Ok(ClusterConfig { voters, local, version: 0 })
    }

    /// The local node's id.
    pub fn local_id(&self) -> (r: NodeId)
        ensures
            r == self.local(),
    {
        self.local
    }

    /// The number of committed changes applied so far.
    pub fn current_version(&self) -> (r: u64)
        ensures
            r == self.version(),
    {
        self.version
    }

    /// The number of voters.
    pub fn len(&self) -> (r: usize)
        ensures
            r == self.voters().len(),
    {
        self.voters.len()
    }

    /// The voter at position `i` of the joining order, if there is one.
    pub fn voter_at(&self, i: usize) -> (r: Option<NodeId>)
        ensures
            r == if i < self.voters().len() {
                Some(self.voters()[i as int])
            } else {
                None
            },
    {
        if i < self.voters.len() {
            Some(self.voters[i])
        } else {
            None
        }
    }

    /// Whether `id` is a voter.
    pub fn contains(&self, id: NodeId) -> (r: bool)
        ensures
            r == self.voters().contains(id),
    {
        position_of(&self.voters, id).is_some()
    }

    /// The size of a quorum: a strict majority of the voters.
    pub fn quorum(&self) -> (r: usize)
        ensures
            r == majority_of(self.voters().len()),
    {
        self.voters.len() / 2 + 1
    }

    /// Applies a committed membership change.
    pub fn apply(&mut self, change: ConfChange)
        requires
            old(self).wf(),
        ensures
            final(self).wf(),
            final(self).local() == old(self).local(),
            final(self).voters() == voters_after(old(self).voters(), old(self).local(), change),
            final(self).version() == version_after(old(self).version()),
    {
        if self.version < u64::MAX {
            self.version = self.version + 1;
        }
        match change {
            ConfChange::AddVoter(id) => {
                if position_of(&self.voters, id).is_none() {
                    self.voters.push(id);
                    proof {
                        let before = old(self).voters@;
                        assert(before.push(id)[before.len() as int] == id);
                        assert(before.push(id)[before.index_of(self.local)] == self.local);
                    }
                }
            },
            ConfChange::RemoveVoter(id) => {
                if id != self.local {
                    match position_of(&self.voters, id) {
                        Some(at) => {
                            let ghost before = self.voters@;
                            self.voters.remove(at);
                            proof {
                                assert(before.index_of(id) == at);
                                let k = before.index_of(self.local);
                                assert(k != at);
                                if k < at {
                                    assert(before.remove(at as int)[k] == self.local);
                                } else {
                                    assert(before.remove(at as int)[k - 1] == self.local);
                                }
                            }
                        },
                        None => {},
                    }
                }
            },
        }
    }
}

/// The first position of `id` in `ids`, if it occurs there.
pub fn position_of(ids: &Vec<NodeId>, id: NodeId) -> (r: Option<usize>)
    ensures
        match r {
            Some(at) => at < ids@.len() && ids@[at as int] == id && forall|j: int|
                0 <= j < at ==> ids@[j] != id,
            None => !ids@.contains(id),
        },
{
    let n: usize = ids.len();
    let mut i: usize = 0;
    while i < n
        invariant
            i <= n,
            n == ids@.len(),
            forall|j: int| 0 <= j < i ==> ids@[j] != id,
        decreases n - i,
    {
        if ids[i] == id {
            return Some(i);
        }
        i = i + 1;
    }
    None
}

} // verus!
