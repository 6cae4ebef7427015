//! The three record kinds the engine owns — repositories, bounties, and
//! contribution certificates — together with their mathematical views and
//! well-formedness conditions.

use vstd::prelude::*;

use crate::account::AccountId;
use crate::account::Balance;

verus! {

/// Where a bounty stands in its lifecycle.
///
/// The only reachable path is `Open` → `Assigned` → `Completed`; `Cancelled`
/// exists in the model but no operation transitions a bounty into it.
#[derive(Clone, Copy, PartialEq, Eq, Structural, Debug)]
pub enum BountyStatus {
    Open,
    Assigned,
    Completed,
    Cancelled,
}

/// The reflexive-transitive closure of the bounty status machine's edges:
/// `Open` → `Assigned` → `Completed`, with a modeled (never taken)
/// `Open` → `Cancelled` edge. Statuses only ever move forward along this
/// order.
pub open spec fn status_le(a: BountyStatus, b: BountyStatus) -> bool {
    ||| a == b
    ||| (a is Open && (b is Assigned || b is Completed || b is Cancelled))
    ||| (a is Assigned && b is Completed)
}

/// A tracked software project record.
#[derive(Debug)]
pub struct Repository {
    pub id: u32,
    pub name: String,
    pub description: String,
    pub owner: AccountId,
    pub is_private: bool,
    pub ipfs_hash: String,
    pub created_at: u64,
    pub collaborators: Vec<AccountId>,
    pub stars: u32,
    pub forks: u32,
}

/// The mathematical value of a [`Repository`].
#[verifier::ext_equal]
pub struct RepositoryView {
    pub id: u32,
    pub name: Seq<char>,
    pub description: Seq<char>,
    pub owner: AccountId,
    pub is_private: bool,
    pub ipfs_hash: Seq<char>,
    pub created_at: u64,
    pub collaborators: Seq<AccountId>,
    pub stars: u32,
    pub forks: u32,
}

impl View for Repository {
    type V = RepositoryView;

    open spec fn view(&self) -> RepositoryView {
        RepositoryView {
            id: self.id,
            name: self.name@,
            description: self.description@,
            owner: self.owner,
            is_private: self.is_private,
            ipfs_hash: self.ipfs_hash@,
            created_at: self.created_at,
            collaborators: self.collaborators@,
            stars: self.stars,
            forks: self.forks,
        }
    }
}

impl RepositoryView {
    /// The collaborator list never holds the same identity twice:
    /// `add_collaborator` is a no-op on an identity already present.
    pub open spec fn wf(self) -> bool {
        forall|j: int, k: int|
            0 <= j < k < self.collaborators.len() ==> self.collaborators[j] != self.collaborators[k]
    }

    /// Whether `who` may act on this repository under the
    /// owner-or-collaborator policy.
    pub open spec fn can_contribute(self, who: AccountId) -> bool {
        self.owner == who || self.collaborators.contains(who)
    }
}

/// The collaborator list after an idempotent add: unchanged when `c` is
/// already present, else `c` appended.
pub open spec fn with_collaborator(s: Seq<AccountId>, c: AccountId) -> Seq<AccountId> {
    if s.contains(c) {
        s
    } else {
        s.push(c)
    }
}

/// A funded task attached to a repository.
#[derive(Debug)]
pub struct Bounty {
    pub id: u32,
    pub repository_id: u32,
    pub title: String,
    pub description: String,
    pub reward: Balance,
    pub creator: AccountId,
    pub assignee: Option<AccountId>,
    pub status: BountyStatus,
    pub deadline: u64,
    pub created_at: u64,
}

/// The mathematical value of a [`Bounty`].
#[verifier::ext_equal]
pub struct BountyView {
    pub id: u32,
    pub repository_id: u32,
    pub title: Seq<char>,
    pub description: Seq<char>,
    pub reward: Balance,
    pub creator: AccountId,
    pub assignee: Option<AccountId>,
    pub status: BountyStatus,
    pub deadline: u64,
    pub created_at: u64,
}

impl View for Bounty {
    type V = BountyView;

    open spec fn view(&self) -> BountyView {
        BountyView {
            id: self.id,
            repository_id: self.repository_id,
            title: self.title@,
            description: self.description@,
            reward: self.reward,
            creator: self.creator,
            assignee: self.assignee,
            status: self.status,
            deadline: self.deadline,
            created_at: self.created_at,
        }
    }
}

impl BountyView {
    /// Coupling between status and assignee, and the binding to an existing
    /// repository: an assignee is recorded exactly from `Assigned` onward,
    /// and no operation ever reaches `Cancelled`.
    pub open spec fn wf(self, repo_count: int) -> bool {
        &&& 1 <= self.repository_id <= repo_count
        &&& (self.assignee is Some <==> (self.status is Assigned || self.status is Completed))
        &&& !(self.status is Cancelled)
    }
}

/// An immutable, non-transferable ("soulbound") proof of contribution.
#[derive(Debug)]
pub struct NFTCertificate {
    pub id: u32,
    pub owner: AccountId,
    pub repository_id: u32,
    pub contribution_type: String,
    pub ipfs_metadata: String,
    pub issued_at: u64,
    pub is_soulbound: bool,
}

/// The mathematical value of an [`NFTCertificate`].
#[verifier::ext_equal]
pub struct CertificateView {
    pub id: u32,
    pub owner: AccountId,
    pub repository_id: u32,
    pub contribution_type: Seq<char>,
    pub ipfs_metadata: Seq<char>,
    pub issued_at: u64,
    pub is_soulbound: bool,
}

impl View for NFTCertificate {
    type V = CertificateView;

    open spec fn view(&self) -> CertificateView {
        CertificateView {
            id: self.id,
            owner: self.owner,
            repository_id: self.repository_id,
            contribution_type: self.contribution_type@,
            ipfs_metadata: self.ipfs_metadata@,
            issued_at: self.issued_at,
            is_soulbound: self.is_soulbound,
        }
    }
}

/// Whether `v` holds the identity `a`.
pub(crate) fn contains_account(v: &Vec<AccountId>, a: AccountId) -> (r: bool)
    ensures
        r == v@.contains(a),
{
    let mut i: usize = 0;
    while i < v.len()
        invariant
            i <= v@.len(),
            forall|k: int| 0 <= k < i ==> v@[k] != a,
        decreases v@.len() - i,
    {
        if v[i] == a {
            return true;
        }
        i = i + 1;
    }
    false
}

/// An element-wise copy of an identity list.
pub(crate) fn clone_accounts(v: &Vec<AccountId>) -> (r: Vec<AccountId>)
    ensures
        r@ == v@,
{
    let mut r: Vec<AccountId> = Vec::new();
    let mut i: usize = 0;
    while i < v.len()
        invariant
            i <= v@.len(),
            r@ == v@.take(i as int),
        decreases v@.len() - i,
    {
        r.push(v[i]);
        i = i + 1;
        proof {
            assert(v@.take(i as int) =~= v@.take(i - 1).push(v@[i - 1]));
        }
    }
    proof {
        assert(v@.take(v@.len() as int) =~= v@);
    }
    r
}

impl Clone for Repository {
    /// A copy with the same mathematical value.
    fn clone(&self) -> (res: Self)
        ensures
            res@ == self@,
    {
        let res = Repository {
            id: self.id,
            name: self.name.clone(),
            description: self.description.clone(),
            owner: self.owner,
            is_private: self.is_private,
            ipfs_hash: self.ipfs_hash.clone(),
            created_at: self.created_at,
            collaborators: clone_accounts(&self.collaborators),
            stars: self.stars,
            forks: self.forks,
        };
        proof {
            assert(res@ =~= self@);
        }
        res
    }
}

impl Clone for Bounty {
    /// A copy with the same mathematical value.
    fn clone(&self) -> (res: Self)
        ensures
            res@ == self@,
    {
        let res = Bounty {
            id: self.id,
            repository_id: self.repository_id,
            title: self.title.clone(),
            description: self.description.clone(),
            reward: self.reward,
            creator: self.creator,
            assignee: self.assignee,
            status: self.status,
            deadline: self.deadline,
            created_at: self.created_at,
        };
        proof {
            assert(res@ =~= self@);
        }
        res
    }
}

impl Clone for NFTCertificate {
    /// A copy with the same mathematical value.
    fn clone(&self) -> (res: Self)
        ensures
            res@ == self@,
    {
        let res = NFTCertificate {
            id: self.id,
            owner: self.owner,
            repository_id: self.repository_id,
            contribution_type: self.contribution_type.clone(),
            ipfs_metadata: self.ipfs_metadata.clone(),
            issued_at: self.issued_at,
            is_soulbound: self.is_soulbound,
        };
        proof {
            assert(res@ =~= self@);
        }
        res
    }
}

} // verus!
