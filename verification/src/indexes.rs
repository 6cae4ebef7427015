//! Derived enumeration indexes.
//!
//! The primary records are the sole source of truth; the per-owner,
//! per-repository and per-holder identifier lists are derived from them on
//! demand, in creation order (identifiers ascending, since records are
//! created with ascending identifiers).

use vstd::prelude::*;

use crate::account::AccountId;
use crate::records::Bounty;
use crate::records::BountyView;
use crate::records::CertificateView;
use crate::records::NFTCertificate;
use crate::records::Repository;
use crate::records::RepositoryView;

verus! {

/// The views of a sequence of repository records.
pub open spec fn repo_views(repos: Seq<Repository>) -> Seq<RepositoryView> {
    repos.map_values(|x: Repository| x@)
}

/// The views of a sequence of bounty records.
pub open spec fn bounty_views(bounties: Seq<Bounty>) -> Seq<BountyView> {
    bounties.map_values(|x: Bounty| x@)
}

/// The views of a sequence of certificate records.
pub open spec fn cert_views(certs: Seq<NFTCertificate>) -> Seq<CertificateView> {
    certs.map_values(|x: NFTCertificate| x@)
}

/// The identifiers of the repositories owned by `owner`, in creation order.
pub open spec fn owned_repo_ids(repos: Seq<RepositoryView>, owner: AccountId) -> Seq<u32>
    decreases repos.len(),
{
    if repos.len() == 0 {
        Seq::empty()
    } else if repos.last().owner == owner {
        owned_repo_ids(repos.drop_last(), owner).push(repos.last().id)
    } else {
        owned_repo_ids(repos.drop_last(), owner)
    }
}

/// The identifiers of the bounties attached to repository `repo_id`, in
/// creation order.
pub open spec fn repo_bounty_ids(bounties: Seq<BountyView>, repo_id: u32) -> Seq<u32>
    decreases bounties.len(),
{
    if bounties.len() == 0 {
        Seq::empty()
    } else if bounties.last().repository_id == repo_id {
        repo_bounty_ids(bounties.drop_last(), repo_id).push(bounties.last().id)
    } else {
        repo_bounty_ids(bounties.drop_last(), repo_id)
    }
}

/// The identifiers of the certificates held by `holder`, in issuance order.
pub open spec fn holder_nft_ids(certs: Seq<CertificateView>, holder: AccountId) -> Seq<u32>
    decreases certs.len(),
{
    if certs.len() == 0 {
        Seq::empty()
    } else if certs.last().owner == holder {
        holder_nft_ids(certs.drop_last(), holder).push(certs.last().id)
    } else {
        holder_nft_ids(certs.drop_last(), holder)
    }
}

/// The per-owner index is sound and complete: it holds an identifier exactly
/// when some stored repository carries that identifier and that owner.
pub proof fn lemma_owned_repo_ids_membership(repos: Seq<RepositoryView>, owner: AccountId)
    ensures
        forall|id: u32|
            owned_repo_ids(repos, owner).contains(id) <==> exists|i: int|
                0 <= i < repos.len() && (#[trigger] repos[i]).owner == owner && repos[i].id == id,
    decreases repos.len(),
{
    if repos.len() > 0 {
        let prefix = repos.drop_last();
        let part = owned_repo_ids(prefix, owner);
        let full = owned_repo_ids(repos, owner);
        lemma_owned_repo_ids_membership(prefix, owner);
        assert forall|id: u32| full.contains(id) implies exists|i: int|
            0 <= i < repos.len() && (#[trigger] repos[i]).owner == owner && repos[i].id
                == id by {
            if repos.last().owner == owner && id == repos.last().id {
                assert(repos[repos.len() - 1].owner == owner && repos[repos.len() - 1].id == id);
            } else {
                let k = choose|k: int| 0 <= k < full.len() && full[k] == id;
                assert(part[k] == id);
                assert(part.contains(id));
                let i = choose|i: int|
                    0 <= i < prefix.len() && (#[trigger] prefix[i]).owner == owner && prefix[i].id
                        == id;
                assert(repos[i].owner == owner && repos[i].id == id);
            }
        }
        assert forall|id: u32|
            exists|i: int|
                0 <= i < repos.len() && (#[trigger] repos[i]).owner == owner && repos[i].id
                    == id implies full.contains(id) by {
            let i = choose|i: int|
                0 <= i < repos.len() && (#[trigger] repos[i]).owner == owner && repos[i].id == id;
            if i == repos.len() - 1 {
                assert(full[full.len() - 1] == id);
            } else {
                assert(prefix[i].owner == owner && prefix[i].id == id);
                assert(part.contains(id));
                let k = choose|k: int| 0 <= k < part.len() && part[k] == id;
                assert(full[k] == id);
            }
        }
    }
}

/// Every identifier the per-owner index lists names one of the stored
/// records, so under the dense identifier discipline it lies between 1 and
/// the record count.
proof fn lemma_owned_repo_ids_bound(repos: Seq<RepositoryView>, owner: AccountId)
    requires
        forall|i: int| 0 <= i < repos.len() ==> (#[trigger] repos[i]).id == i + 1,
    ensures
        forall|k: int|
            0 <= k < owned_repo_ids(repos, owner).len() ==> 1 <= #[trigger] owned_repo_ids(
                repos,
                owner,
            )[k] <= repos.len(),
    decreases repos.len(),
{
    if repos.len() > 0 {
        let prefix = repos.drop_last();
        let part = owned_repo_ids(prefix, owner);
        let full = owned_repo_ids(repos, owner);
        lemma_owned_repo_ids_bound(prefix, owner);
        assert forall|k: int| 0 <= k < full.len() implies 1 <= #[trigger] full[k] <= repos.len() by {
            if repos.last().owner == owner {
                assert(full == part.push(repos.last().id));
                if k < part.len() {
                    assert(full[k] == part[k]);
                } else {
                    assert(full[k] == repos.last().id);
                    assert(repos[repos.len() - 1].id == repos.len());
                }
            } else {
                assert(full == part);
            }
        }
    }
}

/// The per-owner index lists identifiers in strictly increasing order:
/// records are created with ascending identifiers and enumerated in creation
/// order.
pub proof fn lemma_owned_repo_ids_sorted(repos: Seq<RepositoryView>, owner: AccountId)
    requires
        forall|i: int| 0 <= i < repos.len() ==> (#[trigger] repos[i]).id == i + 1,
    ensures
        forall|k: int, l: int|
            0 <= k < l < owned_repo_ids(repos, owner).len() ==> owned_repo_ids(repos, owner)[k]
                < owned_repo_ids(repos, owner)[l],
    decreases repos.len(),
{
    if repos.len() > 0 {
        let prefix = repos.drop_last();
        let part = owned_repo_ids(prefix, owner);
        let full = owned_repo_ids(repos, owner);
        lemma_owned_repo_ids_sorted(prefix, owner);
        lemma_owned_repo_ids_bound(prefix, owner);
        assert forall|k: int, l: int| 0 <= k < l < full.len() implies #[trigger] full[k] < #[trigger] full[l] by {
            if repos.last().owner == owner {
                assert(full == part.push(repos.last().id));
                if l < part.len() {
                    assert(full[k] == part[k] && full[l] == part[l]);
                } else {
                    assert(full[k] == part[k]);
                    assert(part[k] <= prefix.len());
                    assert(full[l] == repos.last().id);
                    assert(repos[repos.len() - 1].id == repos.len());
                }
            } else {
                assert(full == part);
            }
        }
    }
}

/// The per-repository index is sound and complete: it holds an identifier exactly
/// when some stored bounty carries that identifier and is attached to that repository.
pub proof fn lemma_repo_bounty_ids_membership(bounties: Seq<BountyView>, repo_id: u32)
    ensures
        forall|id: u32|
            repo_bounty_ids(bounties, repo_id).contains(id) <==> exists|i: int|
                0 <= i < bounties.len() && (#[trigger] bounties[i]).repository_id == repo_id && bounties[i].id == id,
    decreases bounties.len(),
{
    if bounties.len() > 0 {
        let prefix = bounties.drop_last();
        let part = repo_bounty_ids(prefix, repo_id);
        let full = repo_bounty_ids(bounties, repo_id);
        lemma_repo_bounty_ids_membership(prefix, repo_id);
        assert forall|id: u32| full.contains(id) implies exists|i: int|
            0 <= i < bounties.len() && (#[trigger] bounties[i]).repository_id == repo_id && bounties[i].id
                == id by {
            if bounties.last().repository_id == repo_id && id == bounties.last().id {
                assert(bounties[bounties.len() - 1].repository_id == repo_id && bounties[bounties.len() - 1].id == id);
            } else {
                let k = choose|k: int| 0 <= k < full.len() && full[k] == id;
                assert(part[k] == id);
                assert(part.contains(id));
                let i = choose|i: int|
                    0 <= i < prefix.len() && (#[trigger] prefix[i]).repository_id == repo_id && prefix[i].id
                        == id;
                assert(bounties[i].repository_id == repo_id && bounties[i].id == id);
            }
        }
        assert forall|id: u32|
            exists|i: int|
                0 <= i < bounties.len() && (#[trigger] bounties[i]).repository_id == repo_id && bounties[i].id
                    == id implies full.contains(id) by {
            let i = choose|i: int|
                0 <= i < bounties.len() && (#[trigger] bounties[i]).repository_id == repo_id && bounties[i].id == id;
            if i == bounties.len() - 1 {
                assert(full[full.len() - 1] == id);
            } else {
                assert(prefix[i].repository_id == repo_id && prefix[i].id == id);
                assert(part.contains(id));
                let k = choose|k: int| 0 <= k < part.len() && part[k] == id;
                assert(full[k] == id);
            }
        }
    }
}

/// Every identifier the per-repository index lists names one of the stored
/// records, so under the dense identifier discipline it lies between 1 and
/// the record count.
proof fn lemma_repo_bounty_ids_bound(bounties: Seq<BountyView>, repo_id: u32)
    requires
        forall|i: int| 0 <= i < bounties.len() ==> (#[trigger] bounties[i]).id == i + 1,
    ensures
        forall|k: int|
            0 <= k < repo_bounty_ids(bounties, repo_id).len() ==> 1 <= #[trigger] repo_bounty_ids(
                bounties,
                repo_id,
            )[k] <= bounties.len(),
    decreases bounties.len(),
{
    if bounties.len() > 0 {
        let prefix = bounties.drop_last();
        let part = repo_bounty_ids(prefix, repo_id);
        let full = repo_bounty_ids(bounties, repo_id);
        lemma_repo_bounty_ids_bound(prefix, repo_id);
        assert forall|k: int| 0 <= k < full.len() implies 1 <= #[trigger] full[k] <= bounties.len() by {
            if bounties.last().repository_id == repo_id {
                assert(full == part.push(bounties.last().id));
                if k < part.len() {
                    assert(full[k] == part[k]);
                } else {
                    assert(full[k] == bounties.last().id);
                    assert(bounties[bounties.len() - 1].id == bounties.len());
                }
            } else {
                assert(full == part);
            }
        }
    }
}

/// The per-repository index lists identifiers in strictly increasing order:
/// records are created with ascending identifiers and enumerated in creation
/// order.
pub proof fn lemma_repo_bounty_ids_sorted(bounties: Seq<BountyView>, repo_id: u32)
    requires
        forall|i: int| 0 <= i < bounties.len() ==> (#[trigger] bounties[i]).id == i + 1,
    ensures
        forall|k: int, l: int|
            0 <= k < l < repo_bounty_ids(bounties, repo_id).len() ==> repo_bounty_ids(bounties, repo_id)[k]
                < repo_bounty_ids(bounties, repo_id)[l],
    decreases bounties.len(),
{
    if bounties.len() > 0 {
        let prefix = bounties.drop_last();
        let part = repo_bounty_ids(prefix, repo_id);
        let full = repo_bounty_ids(bounties, repo_id);
        lemma_repo_bounty_ids_sorted(prefix, repo_id);
        lemma_repo_bounty_ids_bound(prefix, repo_id);
        assert forall|k: int, l: int| 0 <= k < l < full.len() implies #[trigger] full[k] < #[trigger] full[l] by {
            if bounties.last().repository_id == repo_id {
                assert(full == part.push(bounties.last().id));
                if l < part.len() {
                    assert(full[k] == part[k] && full[l] == part[l]);
                } else {
                    assert(full[k] == part[k]);
                    assert(part[k] <= prefix.len());
                    assert(full[l] == bounties.last().id);
                    assert(bounties[bounties.len() - 1].id == bounties.len());
                }
            } else {
                assert(full == part);
            }
        }
    }
}

/// The per-holder index is sound and complete: it holds an identifier exactly
/// when some stored certificate carries that identifier and that holder.
pub proof fn lemma_holder_nft_ids_membership(certs: Seq<CertificateView>, holder: AccountId)
    ensures
        forall|id: u32|
            holder_nft_ids(certs, holder).contains(id) <==> exists|i: int|
                0 <= i < certs.len() && (#[trigger] certs[i]).owner == holder && certs[i].id == id,
    decreases certs.len(),
{
    if certs.len() > 0 {
        let prefix = certs.drop_last();
        let part = holder_nft_ids(prefix, holder);
        let full = holder_nft_ids(certs, holder);
        lemma_holder_nft_ids_membership(prefix, holder);
        assert forall|id: u32| full.contains(id) implies exists|i: int|
            0 <= i < certs.len() && (#[trigger] certs[i]).owner == holder && certs[i].id
                == id by {
            if certs.last().owner == holder && id == certs.last().id {
                assert(certs[certs.len() - 1].owner == holder && certs[certs.len() - 1].id == id);
            } else {
                let k = choose|k: int| 0 <= k < full.len() && full[k] == id;
                assert(part[k] == id);
                assert(part.contains(id));
                let i = choose|i: int|
                    0 <= i < prefix.len() && (#[trigger] prefix[i]).owner == holder && prefix[i].id
                        == id;
                assert(certs[i].owner == holder && certs[i].id == id);
            }
        }
        assert forall|id: u32|
            exists|i: int|
                0 <= i < certs.len() && (#[trigger] certs[i]).owner == holder && certs[i].id
                    == id implies full.contains(id) by {
            let i = choose|i: int|
                0 <= i < certs.len() && (#[trigger] certs[i]).owner == holder && certs[i].id == id;
            if i == certs.len() - 1 {
                assert(full[full.len() - 1] == id);
            } else {
                assert(prefix[i].owner == holder && prefix[i].id == id);
                assert(part.contains(id));
                let k = choose|k: int| 0 <= k < part.len() && part[k] == id;
                assert(full[k] == id);
            }
        }
    }
}

/// Every identifier the per-holder index lists names one of the stored
/// records, so under the dense identifier discipline it lies between 1 and
/// the record count.
proof fn lemma_holder_nft_ids_bound(certs: Seq<CertificateView>, holder: AccountId)
    requires
        forall|i: int| 0 <= i < certs.len() ==> (#[trigger] certs[i]).id == i + 1,
    ensures
        forall|k: int|
            0 <= k < holder_nft_ids(certs, holder).len() ==> 1 <= #[trigger] holder_nft_ids(
                certs,
                holder,
            )[k] <= certs.len(),
    decreases certs.len(),
{
    if certs.len() > 0 {
        let prefix = certs.drop_last();
        let part = holder_nft_ids(prefix, holder);
        let full = holder_nft_ids(certs, holder);
        lemma_holder_nft_ids_bound(prefix, holder);
        assert forall|k: int| 0 <= k < full.len() implies 1 <= #[trigger] full[k] <= certs.len() by {
            if certs.last().owner == holder {
                assert(full == part.push(certs.last().id));
                if k < part.len() {
                    assert(full[k] == part[k]);
                } else {
                    assert(full[k] == certs.last().id);
                    assert(certs[certs.len() - 1].id == certs.len());
                }
            } else {
                assert(full == part);
            }
        }
    }
}

/// The per-holder index lists identifiers in strictly increasing order:
/// records are created with ascending identifiers and enumerated in creation
/// order.
pub proof fn lemma_holder_nft_ids_sorted(certs: Seq<CertificateView>, holder: AccountId)
    requires
        forall|i: int| 0 <= i < certs.len() ==> (#[trigger] certs[i]).id == i + 1,
    ensures
        forall|k: int, l: int|
            0 <= k < l < holder_nft_ids(certs, holder).len() ==> holder_nft_ids(certs, holder)[k]
                < holder_nft_ids(certs, holder)[l],
    decreases certs.len(),
{
    if certs.len() > 0 {
        let prefix = certs.drop_last();
        let part = holder_nft_ids(prefix, holder);
        let full = holder_nft_ids(certs, holder);
        lemma_holder_nft_ids_sorted(prefix, holder);
        lemma_holder_nft_ids_bound(prefix, holder);
        assert forall|k: int, l: int| 0 <= k < l < full.len() implies #[trigger] full[k] < #[trigger] full[l] by {
            if certs.last().owner == holder {
                assert(full == part.push(certs.last().id));
                if l < part.len() {
                    assert(full[k] == part[k] && full[l] == part[l]);
                } else {
                    assert(full[k] == part[k]);
                    assert(part[k] <= prefix.len());
                    assert(full[l] == certs.last().id);
                    assert(certs[certs.len() - 1].id == certs.len());
                }
            } else {
                assert(full == part);
            }
        }
    }
}

/// Collects [`owned_repo_ids`] of the stored records.
pub(crate) fn collect_owned_repo_ids(repos: &Vec<Repository>, owner: AccountId) -> (r: Vec<u32>)
    ensures
        r@ == owned_repo_ids(repo_views(repos@), owner),
{
    let ghost vs = repo_views(repos@);
    let mut r: Vec<u32> = Vec::new();
    let mut i: usize = 0;
    while i < repos.len()
        invariant
            i <= repos@.len(),
            vs == repo_views(repos@),
            r@ == owned_repo_ids(vs.take(i as int), owner),
        decreases repos@.len() - i,
    {
        if repos[i].owner == owner {
            r.push(repos[i].id);
        }
        i = i + 1;
        proof {
            assert(vs.take(i as int).drop_last() =~= vs.take(i as int - 1));
        }
    }
    proof {
        assert(vs.take(vs.len() as int) =~= vs);
    }
    r
}

/// Collects [`repo_bounty_ids`] of the stored records.
pub(crate) fn collect_repo_bounty_ids(bounties: &Vec<Bounty>, repo_id: u32) -> (r: Vec<u32>)
    ensures
        r@ == repo_bounty_ids(bounty_views(bounties@), repo_id),
{
    let ghost vs = bounty_views(bounties@);
    let mut r: Vec<u32> = Vec::new();
    let mut i: usize = 0;
    while i < bounties.len()
        invariant
            i <= bounties@.len(),
            vs == bounty_views(bounties@),
            r@ == repo_bounty_ids(vs.take(i as int), repo_id),
        decreases bounties@.len() - i,
    {
        if bounties[i].repository_id == repo_id {
            r.push(bounties[i].id);
        }
        i = i + 1;
        proof {
            assert(vs.take(i as int).drop_last() =~= vs.take(i as int - 1));
        }
    }
    proof {
        assert(vs.take(vs.len() as int) =~= vs);
    }
    r
}

/// Collects [`holder_nft_ids`] of the stored records.
pub(crate) fn collect_holder_nft_ids(certs: &Vec<NFTCertificate>, holder: AccountId) -> (r: Vec<u32>)
    ensures
        r@ == holder_nft_ids(cert_views(certs@), holder),
{
    let ghost vs = cert_views(certs@);
    let mut r: Vec<u32> = Vec::new();
    let mut i: usize = 0;
    while i < certs.len()
        invariant
            i <= certs@.len(),
            vs == cert_views(certs@),
            r@ == holder_nft_ids(vs.take(i as int), holder),
        decreases certs@.len() - i,
    {
        if certs[i].owner == holder {
            r.push(certs[i].id);
        }
        i = i + 1;
        proof {
            assert(vs.take(i as int).drop_last() =~= vs.take(i as int - 1));
        }
    }
    proof {
        assert(vs.take(vs.len() as int) =~= vs);
    }
    r
}

} // verus!
