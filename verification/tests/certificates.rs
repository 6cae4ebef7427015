use polkaforge::account::AccountId;
use polkaforge::engine::PolkaForge;
use polkaforge::errors::Error;

#[test]
fn mint_nft_works() {
    let caller = AccountId(1);
    let alice = AccountId(1);
    let mut contract = PolkaForge::new(caller);

    // Create repository
    let repo_id = contract
        .create_repository(
            "test-repo".to_string(),
            "Test repository".to_string(),
            false,
            "QmTest123".to_string(),
            caller,
            0,
        )
        .unwrap()
        .0;

    // Mint NFT
    let result = contract.mint_contribution_nft(
        repo_id,
        alice,
        "Code Contribution".to_string(),
        "QmNFTMetadata".to_string(),
        caller,
        0,
    );
    assert!(result.is_ok());
}

#[test]
fn certificate_is_soulbound() {
    let a = AccountId(1);
    let b = AccountId(2);
    let mut contract = PolkaForge::new(a);
    contract
        .create_repository("lib".to_string(), "desc".to_string(), false, "Qm1".to_string(), a, 0)
        .unwrap();

    let (id, event) = contract
        .mint_contribution_nft(1, b, "bugfix".to_string(), "Qm2".to_string(), a, 9)
        .unwrap();
    assert_eq!(id, 1);
    assert_eq!(event.nft_id, 1);
    assert_eq!(event.owner, b);
    assert_eq!(event.repository_id, 1);

    let cert = contract.get_nft_certificate(1).unwrap();
    assert_eq!(cert.id, 1);
    assert_eq!(cert.owner, b);
    assert_eq!(cert.repository_id, 1);
    assert_eq!(cert.contribution_type, "bugfix");
    assert_eq!(cert.ipfs_metadata, "Qm2");
    assert_eq!(cert.issued_at, 9);
    assert!(cert.is_soulbound);

    // no operation exists to change the holder: run every mutating
    // operation the engine has and look again
    contract.add_collaborator(1, AccountId(3), a).unwrap();
    contract.star_repository(1).unwrap();
    contract.fork_repository(1).unwrap();
    contract.create_bounty(1, "t".to_string(), "d".to_string(), 1, 1, a, 0).unwrap();
    contract.assign_bounty(1, b, a).unwrap();
    contract.complete_bounty(1, a, true).unwrap();
    contract
        .mint_contribution_nft(1, AccountId(4), "doc".to_string(), "Qm3".to_string(), a, 10)
        .unwrap();

    let again = contract.get_nft_certificate(1).unwrap();
    assert_eq!(again.owner, b);
    assert!(again.is_soulbound);
}

#[test]
fn outsider_mint_not_authorized() {
    let a = AccountId(1);
    let outsider = AccountId(5);
    let mut contract = PolkaForge::new(a);
    contract
        .create_repository("lib".to_string(), "d".to_string(), false, "h".to_string(), a, 0)
        .unwrap();

    let err = contract
        .mint_contribution_nft(1, outsider, "t".to_string(), "m".to_string(), outsider, 0)
        .unwrap_err();
    assert_eq!(err, Error::NotAuthorized);
    assert!(contract.get_nft_certificate(1).is_none());
}

#[test]
fn mint_on_missing_repository() {
    let a = AccountId(1);
    let mut contract = PolkaForge::new(a);
    let err = contract
        .mint_contribution_nft(1, a, "t".to_string(), "m".to_string(), a, 0)
        .unwrap_err();
    assert_eq!(err, Error::RepositoryNotFound);
}

#[test]
fn certificates_listed_by_holder_in_order() {
    let a = AccountId(1);
    let b = AccountId(2);
    let c = AccountId(3);
    let mut contract = PolkaForge::new(a);
    contract
        .create_repository("lib".to_string(), "d".to_string(), false, "h".to_string(), a, 0)
        .unwrap();

    contract.mint_contribution_nft(1, b, "t1".to_string(), "m".to_string(), a, 0).unwrap();
    contract.mint_contribution_nft(1, c, "t2".to_string(), "m".to_string(), a, 0).unwrap();
    contract.mint_contribution_nft(1, b, "t3".to_string(), "m".to_string(), a, 0).unwrap();

    assert_eq!(contract.get_user_nfts(b), vec![1, 3]);
    assert_eq!(contract.get_user_nfts(c), vec![2]);
    assert!(contract.get_user_nfts(AccountId(9)).is_empty());
}
