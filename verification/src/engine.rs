//! The entity lifecycle engine: a deterministic state machine over
//! repositories, bounties and certificates.
//!
//! Every operation takes the caller identity and timestamp (and, for bounty
//! creation, the attached value) as explicit parameters, validates before any
//! mutation, and either applies its whole effect or leaves the state
//! untouched. Completing a bounty needs the hosting environment to move
//! value: [`PolkaForge::prepare_completion`] validates and says what to pay,
//! the host attempts the transfer, and [`PolkaForge::complete_bounty`] takes
//! the outcome and only then marks the bounty completed.

use vstd::prelude::*;

use crate::account::AccountId;
use crate::account::Balance;
use crate::errors::Error;
use crate::events::BountyCreated;
use crate::events::NFTMinted;
use crate::events::RepositoryCreated;
use crate::events::TransferRequest;
use crate::indexes::bounty_views;
use crate::indexes::cert_views;
use crate::indexes::collect_holder_nft_ids;
use crate::indexes::collect_owned_repo_ids;
use crate::indexes::collect_repo_bounty_ids;
use crate::indexes::holder_nft_ids;
use crate::indexes::owned_repo_ids;
use crate::indexes::repo_bounty_ids;
use crate::indexes::repo_views;
use crate::records::contains_account;
use crate::records::status_le;
use crate::records::with_collaborator;
use crate::records::Bounty;
use crate::records::BountyStatus;
use crate::records::BountyView;
use crate::records::CertificateView;
use crate::records::NFTCertificate;
use crate::records::Repository;
use crate::records::RepositoryView;

verus! {

/// The mathematical value of the whole engine state.
#[verifier::ext_equal]
pub struct StateView {
    pub next_repo_id: u32,
    pub next_bounty_id: u32,
    pub next_nft_id: u32,
    pub repositories: Seq<RepositoryView>,
    pub bounties: Seq<BountyView>,
    pub certificates: Seq<CertificateView>,
    pub owner: AccountId,
}

impl StateView {
    /// The engine's invariant, established by [`PolkaForge::new`] and
    /// preserved by every operation.
    ///
    /// Identifiers of each kind are allocated densely from 1, so the record
    /// with identifier `n` sits at position `n - 1` and the three counters
    /// always hold one more than the number of records of their kind.
    pub open spec fn wf(self) -> bool {
        &&& self.next_repo_id == self.repositories.len() + 1
        &&& self.next_bounty_id == self.bounties.len() + 1
        &&& self.next_nft_id == self.certificates.len() + 1
        &&& forall|i: int|
            0 <= i < self.repositories.len() ==> (#[trigger] self.repositories[i]).id == i + 1
        &&& forall|i: int| 0 <= i < self.repositories.len() ==> (#[trigger] self.repositories[i]).wf()
        &&& forall|i: int|
            0 <= i < self.bounties.len() ==> (#[trigger] self.bounties[i]).id == i + 1
        &&& forall|i: int|
            0 <= i < self.bounties.len() ==> (#[trigger] self.bounties[i]).wf(
                self.repositories.len() as int,
            )
        &&& forall|i: int|
            0 <= i < self.certificates.len() ==> (#[trigger] self.certificates[i]).id == i + 1
        &&& forall|i: int|
            0 <= i < self.certificates.len() ==> (#[trigger] self.certificates[i]).is_soulbound
    }

    /// Whether a repository with identifier `id` exists.
    pub open spec fn has_repo(self, id: u32) -> bool {
        1 <= id && id <= self.repositories.len()
    }

    /// The repository with identifier `id` (meaningful under [`Self::has_repo`]).
    pub open spec fn repo(self, id: u32) -> RepositoryView {
        self.repositories[id - 1]
    }

    /// Whether a bounty with identifier `id` exists.
    pub open spec fn has_bounty(self, id: u32) -> bool {
        1 <= id && id <= self.bounties.len()
    }

    /// The bounty with identifier `id` (meaningful under [`Self::has_bounty`]).
    pub open spec fn bounty(self, id: u32) -> BountyView {
        self.bounties[id - 1]
    }

    /// Whether a certificate with identifier `id` exists.
    pub open spec fn has_cert(self, id: u32) -> bool {
        1 <= id && id <= self.certificates.len()
    }

    /// The certificate with identifier `id` (meaningful under [`Self::has_cert`]).
    pub open spec fn cert(self, id: u32) -> CertificateView {
        self.certificates[id - 1]
    }
}

/// The registry engine. Records are exclusively owned by this value; the
/// hosting environment mutates them only through the operations below.
pub struct PolkaForge {
    next_repo_id: u32,
    next_bounty_id: u32,
    next_nft_id: u32,
    repositories: Vec<Repository>,
    bounties: Vec<Bounty>,
    nft_certificates: Vec<NFTCertificate>,
    owner: AccountId,
}

impl View for PolkaForge {
    type V = StateView;

    closed spec fn view(&self) -> StateView {
        StateView {
            next_repo_id: self.next_repo_id,
            next_bounty_id: self.next_bounty_id,
            next_nft_id: self.next_nft_id,
            repositories: repo_views(self.repositories@),
            bounties: bounty_views(self.bounties@),
            certificates: cert_views(self.nft_certificates@),
            owner: self.owner,
        }
    }
}

impl PolkaForge {
    /// An empty registry. `caller` (the instantiating identity) is recorded
    /// as the engine's owner; all three identifier counters start at 1.
    pub fn new(caller: AccountId) -> (s: Self)
        ensures
            s@.wf(),
            s@.next_repo_id == 1,
            s@.next_bounty_id == 1,
            s@.next_nft_id == 1,
            s@.repositories.len() == 0,
            s@.bounties.len() == 0,
            s@.certificates.len() == 0,
            s@.owner == caller,
    {
        Self {
            next_repo_id: 1,
            next_bounty_id: 1,
            next_nft_id: 1,
            repositories: Vec::new(),
            bounties: Vec::new(),
            nft_certificates: Vec::new(),
            owner: caller,
        }
    }

    /// Creates a repository owned by `caller`, with an empty collaborator
    /// list and zero counters, and returns its identifier together with the
    /// notification to dispatch. Never fails on well-formed state.
    pub fn create_repository(
        &mut self,
        name: String,
        description: String,
        is_private: bool,
        ipfs_hash: String,
        caller: AccountId,
        timestamp: u64,
    ) -> (r: Result<(u32, RepositoryCreated), Error>)
        requires
            old(self)@.wf(),
            // counter exhaustion is a non-goal: the host never gets near
            // u32::MAX repositories
            old(self)@.next_repo_id < u32::MAX,
        ensures
            final(self)@.wf(),
            ({
                let id = old(self)@.next_repo_id;
                let rep = (RepositoryView {
                    id,
                    name: name@,
                    description: description@,
                    owner: caller,
                    is_private,
                    ipfs_hash: ipfs_hash@,
                    created_at: timestamp,
                    collaborators: Seq::empty(),
                    stars: 0,
                    forks: 0,
                });
                &&& r matches Ok(p) && p.0 == id && p.1.repo_id == id && p.1.owner == caller
                    && p.1.name@ == name@
                &&& final(self)@ =~= (StateView {
                    next_repo_id: (id + 1) as u32,
                    repositories: old(self)@.repositories.push(rep),
                    ..old(self)@
                })
            }),
    {
        let repo_id = self.next_repo_id;
        let repository = Repository {
            id: repo_id,
            name: name.clone(),
            description,
            owner: caller,
            is_private,
            ipfs_hash,
            created_at: timestamp,
            collaborators: Vec::new(),
            stars: 0,
            forks: 0,
        };
        let ghost rep = repository@;
        self.repositories.push(repository);
        self.next_repo_id = repo_id + 1;
        proof {
            assert(self@.repositories =~= old(self)@.repositories.push(rep));
            assert(self@ =~= (StateView {
                next_repo_id: (repo_id + 1) as u32,
                repositories: old(self)@.repositories.push(rep),
                ..old(self)@
            }));
        }
        Ok((repo_id, RepositoryCreated { repo_id, owner: caller, name }))
    }

    /// Adds `collaborator` to the repository's collaborator list under the
    /// owner-only policy. Adding an identity already present is a no-op, not
    /// an error.
    pub fn add_collaborator(&mut self, repo_id: u32, collaborator: AccountId, caller: AccountId) -> (r:
        Result<(), Error>)
        requires
            old(self)@.wf(),
        ensures
            final(self)@.wf(),
            ({
                let pre = old(self)@;
                if !pre.has_repo(repo_id) {
                    r == Err::<(), Error>(Error::RepositoryNotFound) && final(self)@ == pre
                } else if pre.repo(repo_id).owner != caller {
                    r == Err::<(), Error>(Error::NotAuthorized) && final(self)@ == pre
                } else {
                    r == Ok::<(), Error>(()) && final(self)@ =~= (StateView {
                        repositories: pre.repositories.update(
                            repo_id - 1,
                            (RepositoryView {
                                collaborators: with_collaborator(
                                    pre.repo(repo_id).collaborators,
                                    collaborator,
                                ),
                                ..pre.repo(repo_id)
                            }),
                        ),
                        ..pre
                    })
                }
            }),
    {
        if repo_id == 0 || repo_id as usize > self.repositories.len() {
            return Err(Error::RepositoryNotFound);
        }
        let idx: usize = (repo_id - 1) as usize;
        if self.repositories[idx].owner != caller {
            return Err(Error::NotAuthorized);
        }
        let already = contains_account(&self.repositories[idx].collaborators, collaborator);
        if !already {
            self.repositories[idx].collaborators.push(collaborator);
        }
        proof {
            assert(self@.repositories =~= old(self)@.repositories.update(
                repo_id - 1,
                (RepositoryView {
                    collaborators: with_collaborator(
                        old(self)@.repo(repo_id).collaborators,
                        collaborator,
                    ),
                    ..old(self)@.repo(repo_id)
                }),
            ));
            assert(self@ =~= (StateView {
                repositories: self@.repositories,
                ..old(self)@
            }));
        }
        Ok(())
    }

    /// Increments the repository's star counter. Open policy: any caller,
    /// owner or not, may star, any number of times.
    pub fn star_repository(&mut self, repo_id: u32) -> (r: Result<(), Error>)
        requires
            old(self)@.wf(),
            old(self)@.has_repo(repo_id) ==> old(self)@.repo(repo_id).stars < u32::MAX,
        ensures
            final(self)@.wf(),
            ({
                let pre = old(self)@;
                if !pre.has_repo(repo_id) {
                    r == Err::<(), Error>(Error::RepositoryNotFound) && final(self)@ == pre
                } else {
                    r == Ok::<(), Error>(()) && final(self)@ =~= (StateView {
                        repositories: pre.repositories.update(
                            repo_id - 1,
                            (RepositoryView {
                                stars: (pre.repo(repo_id).stars + 1) as u32,
                                ..pre.repo(repo_id)
                            }),
                        ),
                        ..pre
                    })
                }
            }),
    {
        if repo_id == 0 || repo_id as usize > self.repositories.len() {
            return Err(Error::RepositoryNotFound);
        }
        let idx: usize = (repo_id - 1) as usize;
        let stars = self.repositories[idx].stars;
        self.repositories[idx].stars = stars + 1;
        proof {
            assert(self@.repositories =~= old(self)@.repositories.update(
                repo_id - 1,
                (RepositoryView {
                    stars: (old(self)@.repo(repo_id).stars + 1) as u32,
                    ..old(self)@.repo(repo_id)
                }),
            ));
            assert(self@ =~= (StateView {
                repositories: self@.repositories,
                ..old(self)@
            }));
        }
        Ok(())
    }

    /// Increments the repository's fork counter. Open policy, as for
    /// [`Self::star_repository`].
    pub fn fork_repository(&mut self, repo_id: u32) -> (r: Result<(), Error>)
        requires
            old(self)@.wf(),
            old(self)@.has_repo(repo_id) ==> old(self)@.repo(repo_id).forks < u32::MAX,
        ensures
            final(self)@.wf(),
            ({
                let pre = old(self)@;
                if !pre.has_repo(repo_id) {
                    r == Err::<(), Error>(Error::RepositoryNotFound) && final(self)@ == pre
                } else {
                    r == Ok::<(), Error>(()) && final(self)@ =~= (StateView {
                        repositories: pre.repositories.update(
                            repo_id - 1,
                            (RepositoryView {
                                forks: (pre.repo(repo_id).forks + 1) as u32,
                                ..pre.repo(repo_id)
                            }),
                        ),
                        ..pre
                    })
                }
            }),
    {
        if repo_id == 0 || repo_id as usize > self.repositories.len() {
            return Err(Error::RepositoryNotFound);
        }
        let idx: usize = (repo_id - 1) as usize;
        let forks = self.repositories[idx].forks;
        self.repositories[idx].forks = forks + 1;
        proof {
            assert(self@.repositories =~= old(self)@.repositories.update(
                repo_id - 1,
                (RepositoryView {
                    forks: (old(self)@.repo(repo_id).forks + 1) as u32,
                    ..old(self)@.repo(repo_id)
                }),
            ));
            assert(self@ =~= (StateView {
                repositories: self@.repositories,
                ..old(self)@
            }));
        }
        Ok(())
    }

    /// Creates a bounty on an existing repository under the
    /// owner-or-collaborator policy. `reward` is the monetary value the
    /// caller attached to the operation; it is escrowed under the host's
    /// custody from this point until completion. Returns the new identifier
    /// and the notification to dispatch.
    pub fn create_bounty(
        &mut self,
        repository_id: u32,
        title: String,
        description: String,
        deadline: u64,
        reward: Balance,
        caller: AccountId,
        timestamp: u64,
    ) -> (r: Result<(u32, BountyCreated), Error>)
        requires
            old(self)@.wf(),
            // counter exhaustion is a non-goal: the host never gets near
            // u32::MAX bounties
            old(self)@.next_bounty_id < u32::MAX,
        ensures
            final(self)@.wf(),
            ({
                let pre = old(self)@;
                let id = pre.next_bounty_id;
                let bounty = (BountyView {
                    id,
                    repository_id,
                    title: title@,
                    description: description@,
                    reward,
                    creator: caller,
                    assignee: None,
                    status: BountyStatus::Open,
                    deadline,
                    created_at: timestamp,
                });
                if !pre.has_repo(repository_id) {
                    r == Err::<(u32, BountyCreated), Error>(Error::RepositoryNotFound)
                        && final(self)@ == pre
                } else if !pre.repo(repository_id).can_contribute(caller) {
                    r == Err::<(u32, BountyCreated), Error>(Error::NotAuthorized)
                        && final(self)@ == pre
                } else {
                    &&& r matches Ok(p) && p.0 == id && p.1 == (BountyCreated {
                        bounty_id: id,
                        repository_id,
                        creator: caller,
                        reward,
                    })
                    &&& final(self)@ =~= (StateView {
                        next_bounty_id: (id + 1) as u32,
                        bounties: pre.bounties.push(bounty),
                        ..pre
                    })
                }
            }),
    {
        if repository_id == 0 || repository_id as usize > self.repositories.len() {
            return Err(Error::RepositoryNotFound);
        }
        let idx: usize = (repository_id - 1) as usize;
        let authorized = self.repositories[idx].owner == caller || contains_account(
            &self.repositories[idx].collaborators,
            caller,
        );
        if !authorized {
            return Err(Error::NotAuthorized);
        }
        let bounty_id = self.next_bounty_id;
        let bounty = Bounty {
            id: bounty_id,
            repository_id,
            title,
            description,
            reward,
            creator: caller,
            assignee: None,
            status: BountyStatus::Open,
            deadline,
            created_at: timestamp,
        };
        let ghost bv = bounty@;
        self.bounties.push(bounty);
        self.next_bounty_id = bounty_id + 1;
        proof {
            assert(self@.bounties =~= old(self)@.bounties.push(bv));
            assert(self@ =~= (StateView {
                next_bounty_id: (bounty_id + 1) as u32,
                bounties: old(self)@.bounties.push(bv),
                ..old(self)@
            }));
        }
        Ok((bounty_id, BountyCreated { bounty_id, repository_id, creator: caller, reward }))
    }

    /// Assigns an open bounty to `assignee`. Only the bounty's creator may
    /// assign, only while the bounty is `Open`, and any identity value is
    /// accepted as assignee. On success the status moves to `Assigned`.
    pub fn assign_bounty(&mut self, bounty_id: u32, assignee: AccountId, caller: AccountId) -> (r:
        Result<(), Error>)
        requires
            old(self)@.wf(),
        ensures
            final(self)@.wf(),
            ({
                let pre = old(self)@;
                if !pre.has_bounty(bounty_id) {
                    r == Err::<(), Error>(Error::BountyNotFound) && final(self)@ == pre
                } else if pre.bounty(bounty_id).creator != caller {
                    r == Err::<(), Error>(Error::NotAuthorized) && final(self)@ == pre
                } else if !(pre.bounty(bounty_id).status is Open) {
                    r == Err::<(), Error>(Error::InvalidParameters) && final(self)@ == pre
                } else {
                    r == Ok::<(), Error>(()) && final(self)@ =~= (StateView {
                        bounties: pre.bounties.update(
                            bounty_id - 1,
                            (BountyView {
                                assignee: Some(assignee),
                                status: BountyStatus::Assigned,
                                ..pre.bounty(bounty_id)
                            }),
                        ),
                        ..pre
                    })
                }
            }),
            // statuses only ever move forward along the lifecycle
            forall|i: int|
                0 <= i < old(self)@.bounties.len() ==> status_le(
                    old(self)@.bounties[i].status,
                    (#[trigger] final(self)@.bounties[i]).status,
                ),
            // a bounty's identity and escrowed reward are fixed at creation
            forall|i: int|
                0 <= i < old(self)@.bounties.len() ==> {
                    let post = #[trigger] final(self)@.bounties[i];
                    let pre = old(self)@.bounties[i];
                    post.id == pre.id && post.repository_id == pre.repository_id && post.reward
                        == pre.reward && post.creator == pre.creator
                },
    {
        if bounty_id == 0 || bounty_id as usize > self.bounties.len() {
            return Err(Error::BountyNotFound);
        }
        let idx: usize = (bounty_id - 1) as usize;
        if self.bounties[idx].creator != caller {
            return Err(Error::NotAuthorized);
        }
        if !(self.bounties[idx].status == BountyStatus::Open) {
            return Err(Error::InvalidParameters);
        }
        self.bounties[idx].assignee = Some(assignee);
        self.bounties[idx].status = BountyStatus::Assigned;
        proof {
            assert(self@.bounties =~= old(self)@.bounties.update(
                bounty_id - 1,
                (BountyView {
                    assignee: Some(assignee),
                    status: BountyStatus::Assigned,
                    ..old(self)@.bounty(bounty_id)
                }),
            ));
            assert(self@ =~= (StateView { bounties: self@.bounties, ..old(self)@ }));
        }
        Ok(())
    }

    /// Validates a completion attempt and, when it would go ahead, says what
    /// the host must pay: the escrowed reward, to the assignee. The engine is
    /// not touched; the host is expected to attempt the transfer and then
    /// call [`Self::complete_bounty`] with the outcome.
    pub fn prepare_completion(&self, bounty_id: u32, caller: AccountId) -> (r: Result<
        TransferRequest,
        Error,
    >)
        requires
            self@.wf(),
        ensures
            ({
                let pre = self@;
                if !pre.has_bounty(bounty_id) {
                    r == Err::<TransferRequest, Error>(Error::BountyNotFound)
                } else if pre.bounty(bounty_id).creator != caller {
                    r == Err::<TransferRequest, Error>(Error::NotAuthorized)
                } else if !(pre.bounty(bounty_id).status is Assigned) {
                    r == Err::<TransferRequest, Error>(Error::InvalidParameters)
                } else if pre.bounty(bounty_id).assignee is None {
                    r == Err::<TransferRequest, Error>(Error::InvalidParameters)
                } else {
                    r == Ok::<TransferRequest, Error>((TransferRequest {
                        to: pre.bounty(bounty_id).assignee.unwrap(),
                        amount: pre.bounty(bounty_id).reward,
                    }))
                }
            }),
    {
        if bounty_id == 0 || bounty_id as usize > self.bounties.len() {
            return Err(Error::BountyNotFound);
        }
        let idx: usize = (bounty_id - 1) as usize;
        if self.bounties[idx].creator != caller {
            return Err(Error::NotAuthorized);
        }
        if !(self.bounties[idx].status == BountyStatus::Assigned) {
            return Err(Error::InvalidParameters);
        }
        match self.bounties[idx].assignee {
            Some(assignee) => Ok(TransferRequest { to: assignee, amount: self.bounties[idx].reward }),
            None => Err(Error::InvalidParameters),
        }
    }

    /// Finishes a completion attempt, given whether the host's value
    /// transfer to the assignee committed. Validation mirrors
    /// [`Self::prepare_completion`]; the transfer is the one possibly-failing
    /// mutating step, so on a failed transfer the operation fails as a whole
    /// with `InsufficientFunds` and the bounty record is left unchanged. Only
    /// a committed transfer moves the status to `Completed`.
    pub fn complete_bounty(
        &mut self,
        bounty_id: u32,
        caller: AccountId,
        transfer_committed: bool,
    ) -> (r: Result<(), Error>)
        requires
            old(self)@.wf(),
        ensures
            final(self)@.wf(),
            ({
                let pre = old(self)@;
                if !pre.has_bounty(bounty_id) {
                    r == Err::<(), Error>(Error::BountyNotFound) && final(self)@ == pre
                } else if pre.bounty(bounty_id).creator != caller {
                    r == Err::<(), Error>(Error::NotAuthorized) && final(self)@ == pre
                } else if !(pre.bounty(bounty_id).status is Assigned) {
                    r == Err::<(), Error>(Error::InvalidParameters) && final(self)@ == pre
                } else if pre.bounty(bounty_id).assignee is None {
                    r == Err::<(), Error>(Error::InvalidParameters) && final(self)@ == pre
                } else if !transfer_committed {
                    r == Err::<(), Error>(Error::InsufficientFunds) && final(self)@ == pre
                } else {
                    r == Ok::<(), Error>(()) && final(self)@ =~= (StateView {
                        bounties: pre.bounties.update(
                            bounty_id - 1,
                            (BountyView {
                                status: BountyStatus::Completed,
                                ..pre.bounty(bounty_id)
                            }),
                        ),
                        ..pre
                    })
                }
            }),
            // without a committed transfer, nothing at all changes
            !transfer_committed ==> final(self)@ == old(self)@,
            // statuses only ever move forward along the lifecycle
            forall|i: int|
                0 <= i < old(self)@.bounties.len() ==> status_le(
                    old(self)@.bounties[i].status,
                    (#[trigger] final(self)@.bounties[i]).status,
                ),
            // a bounty's identity, escrowed reward and assignee are fixed
            forall|i: int|
                0 <= i < old(self)@.bounties.len() ==> {
                    let post = #[trigger] final(self)@.bounties[i];
                    let pre = old(self)@.bounties[i];
                    post.id == pre.id && post.repository_id == pre.repository_id && post.reward
                        == pre.reward && post.creator == pre.creator && post.assignee
                        == pre.assignee
                },
    {
        if bounty_id == 0 || bounty_id as usize > self.bounties.len() {
            return Err(Error::BountyNotFound);
        }
        let idx: usize = (bounty_id - 1) as usize;
        if self.bounties[idx].creator != caller {
            return Err(Error::NotAuthorized);
        }
        if !(self.bounties[idx].status == BountyStatus::Assigned) {
            return Err(Error::InvalidParameters);
        }
        if self.bounties[idx].assignee.is_none() {
            return Err(Error::InvalidParameters);
        }
        if !transfer_committed {
            return Err(Error::InsufficientFunds);
        }
        self.bounties[idx].status = BountyStatus::Completed;
        proof {
            assert(self@.bounties =~= old(self)@.bounties.update(
                bounty_id - 1,
                (BountyView { status: BountyStatus::Completed, ..old(self)@.bounty(bounty_id) }),
            ));
            assert(self@ =~= (StateView { bounties: self@.bounties, ..old(self)@ }));
        }
        Ok(())
    }

    /// Mints a permanently soulbound contribution certificate for
    /// `contributor`, under the owner-or-collaborator policy on the addressed
    /// repository. No operation exists anywhere in the public contract to
    /// transfer, revoke or mutate an issued certificate.
    pub fn mint_contribution_nft(
        &mut self,
        repository_id: u32,
        contributor: AccountId,
        contribution_type: String,
        ipfs_metadata: String,
        caller: AccountId,
        timestamp: u64,
    ) -> (r: Result<(u32, NFTMinted), Error>)
        requires
            old(self)@.wf(),
            // counter exhaustion is a non-goal: the host never gets near
            // u32::MAX certificates
            old(self)@.next_nft_id < u32::MAX,
        ensures
            final(self)@.wf(),
            ({
                let pre = old(self)@;
                let id = pre.next_nft_id;
                let cert = (CertificateView {
                    id,
                    owner: contributor,
                    repository_id,
                    contribution_type: contribution_type@,
                    ipfs_metadata: ipfs_metadata@,
                    issued_at: timestamp,
                    is_soulbound: true,
                });
                if !pre.has_repo(repository_id) {
                    r == Err::<(u32, NFTMinted), Error>(Error::RepositoryNotFound) && final(self)@
                        == pre
                } else if !pre.repo(repository_id).can_contribute(caller) {
                    r == Err::<(u32, NFTMinted), Error>(Error::NotAuthorized) && final(self)@ == pre
                } else {
                    &&& r matches Ok(p) && p.0 == id && p.1 == (NFTMinted {
                        nft_id: id,
                        owner: contributor,
                        repository_id,
                    })
                    &&& final(self)@ =~= (StateView {
                        next_nft_id: (id + 1) as u32,
                        certificates: pre.certificates.push(cert),
                        ..pre
                    })
                }
            }),
            // certificates already issued are untouched, holder included
            forall|i: int|
                0 <= i < old(self)@.certificates.len() ==> (#[trigger] final(self)@.certificates[i])
                    == old(self)@.certificates[i],
    {
        if repository_id == 0 || repository_id as usize > self.repositories.len() {
            return Err(Error::RepositoryNotFound);
        }
        let idx: usize = (repository_id - 1) as usize;
        let authorized = self.repositories[idx].owner == caller || contains_account(
            &self.repositories[idx].collaborators,
            caller,
        );
        if !authorized {
            return Err(Error::NotAuthorized);
        }
        let nft_id = self.next_nft_id;
        let nft = NFTCertificate {
            id: nft_id,
            owner: contributor,
            repository_id,
            contribution_type,
            ipfs_metadata,
            issued_at: timestamp,
            is_soulbound: true,
        };
        let ghost cv = nft@;
        self.nft_certificates.push(nft);
        self.next_nft_id = nft_id + 1;
        proof {
            assert(self@.certificates =~= old(self)@.certificates.push(cv));
            assert(self@ =~= (StateView {
                next_nft_id: (nft_id + 1) as u32,
                certificates: old(self)@.certificates.push(cv),
                ..old(self)@
            }));
        }
        Ok((nft_id, NFTMinted { nft_id, owner: contributor, repository_id }))
    }

    /// The repository with identifier `repo_id`, or `None` when there is
    /// none ("not found" is an empty result on reads, not an error).
    pub fn get_repository(&self, repo_id: u32) -> (r: Option<Repository>)
        ensures
            match r {
                Some(rep) => self@.has_repo(repo_id) && rep@ == self@.repo(repo_id),
                None => !self@.has_repo(repo_id),
            },
    {
        if repo_id == 0 || repo_id as usize > self.repositories.len() {
            return None;
        }
        let idx: usize = (repo_id - 1) as usize;
        Some(self.repositories[idx].clone())
    }

    /// The identifiers of the repositories owned by `user`, in creation
    /// order; empty for an identity that owns none.
    pub fn get_user_repositories(&self, user: AccountId) -> (r: Vec<u32>)
        ensures
            r@ == owned_repo_ids(self@.repositories, user),
    {
        collect_owned_repo_ids(&self.repositories, user)
    }

    /// The bounty with identifier `bounty_id`, or `None` when there is none.
    pub fn get_bounty(&self, bounty_id: u32) -> (r: Option<Bounty>)
        ensures
            match r {
                Some(b) => self@.has_bounty(bounty_id) && b@ == self@.bounty(bounty_id),
                None => !self@.has_bounty(bounty_id),
            },
    {
        if bounty_id == 0 || bounty_id as usize > self.bounties.len() {
            return None;
        }
        let idx: usize = (bounty_id - 1) as usize;
        Some(self.bounties[idx].clone())
    }

    /// The identifiers of the bounties attached to `repo_id`, in creation
    /// order; empty for an unknown repository.
    pub fn get_repository_bounties(&self, repo_id: u32) -> (r: Vec<u32>)
        ensures
            r@ == repo_bounty_ids(self@.bounties, repo_id),
    {
        collect_repo_bounty_ids(&self.bounties, repo_id)
    }

    /// The certificate with identifier `nft_id`, or `None` when there is
    /// none.
    pub fn get_nft_certificate(&self, nft_id: u32) -> (r: Option<NFTCertificate>)
        ensures
            match r {
                Some(c) => self@.has_cert(nft_id) && c@ == self@.cert(nft_id),
                None => !self@.has_cert(nft_id),
            },
    {
        if nft_id == 0 || nft_id as usize > self.nft_certificates.len() {
            return None;
        }
        let idx: usize = (nft_id - 1) as usize;
        Some(self.nft_certificates[idx].clone())
    }

    /// The identifiers of the certificates held by `user`, in issuance
    /// order; empty for an identity that holds none.
    pub fn get_user_nfts(&self, user: AccountId) -> (r: Vec<u32>)
        ensures
            r@ == holder_nft_ids(self@.certificates, user),
    {
        collect_holder_nft_ids(&self.nft_certificates, user)
    }
}

} // verus!
