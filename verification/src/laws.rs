//! Registry-wide properties, stated and proved once for every state the
//! operations can reach.

use vstd::prelude::*;

use crate::account::AccountId;
use crate::engine::StateView;
use crate::records::status_le;
use crate::records::with_collaborator;
use crate::records::BountyStatus;

verus! {

/// Identifier allocation: in any well-formed state the stored identifiers of
/// each kind start at 1, are strictly increasing in creation order (hence
/// unique), and all lie below the counter serving the next allocation — an
/// identifier, once handed out, is never reused for a later record.
pub proof fn lemma_identifiers_unique(s: StateView)
    requires
        s.wf(),
    ensures
        forall|i: int|
            0 <= i < s.repositories.len() ==> 1 <= (#[trigger] s.repositories[i]).id
                < s.next_repo_id,
        forall|i: int, j: int|
            0 <= i < j < s.repositories.len() ==> (#[trigger] s.repositories[i]).id < (
            #[trigger] s.repositories[j]).id,
        forall|i: int|
            0 <= i < s.bounties.len() ==> 1 <= (#[trigger] s.bounties[i]).id < s.next_bounty_id,
        forall|i: int, j: int|
            0 <= i < j < s.bounties.len() ==> (#[trigger] s.bounties[i]).id < (
            #[trigger] s.bounties[j]).id,
        forall|i: int|
            0 <= i < s.certificates.len() ==> 1 <= (#[trigger] s.certificates[i]).id
                < s.next_nft_id,
        forall|i: int, j: int|
            0 <= i < j < s.certificates.len() ==> (#[trigger] s.certificates[i]).id < (
            #[trigger] s.certificates[j]).id,
{
}

/// Forward movement along the bounty lifecycle composes: whatever a sequence
/// of operations does, each single step moves a status forward, so the
/// status reached after any number of operations still lies forward of where
/// it started — `Open` → `Assigned` → `Completed` is the only path.
pub proof fn lemma_status_le_transitive(a: BountyStatus, b: BountyStatus, c: BountyStatus)
    requires
        status_le(a, b),
        status_le(b, c),
    ensures
        status_le(a, c),
{
}

/// Adding a collaborator is idempotent: adding the same identity twice
/// yields the same collaborator list as adding it once.
pub proof fn lemma_with_collaborator_idempotent(s: Seq<AccountId>, c: AccountId)
    ensures
        with_collaborator(with_collaborator(s, c), c) == with_collaborator(s, c),
{
    if !s.contains(c) {
        assert(s.push(c)[s.len() as int] == c);
        assert(s.push(c).contains(c));
    }
}

} // verus!
