use polkaforge::account::AccountId;
use polkaforge::engine::PolkaForge;
use polkaforge::errors::Error;

#[test]
fn create_repository_works() {
    let mut contract = PolkaForge::new(AccountId(1));
    let result = contract.create_repository(
        "test-repo".to_string(),
        "Test repository".to_string(),
        false,
        "QmTest123".to_string(),
        AccountId(1),
        0,
    );
    assert!(result.is_ok());
    assert_eq!(result.unwrap().0, 1);
}

#[test]
fn repository_fields_after_creation() {
    let a = AccountId(1);
    let mut contract = PolkaForge::new(a);
    let (id, event) = contract
        .create_repository(
            "lib".to_string(),
            "desc".to_string(),
            false,
            "Qm1".to_string(),
            a,
            77,
        )
        .unwrap();
    assert_eq!(id, 1);
    assert_eq!(event.repo_id, 1);
    assert_eq!(event.owner, a);
    assert_eq!(event.name, "lib");

    let repo = contract.get_repository(1).unwrap();
    assert_eq!(repo.id, 1);
    assert_eq!(repo.name, "lib");
    assert_eq!(repo.description, "desc");
    assert_eq!(repo.owner, a);
    assert!(!repo.is_private);
    assert_eq!(repo.ipfs_hash, "Qm1");
    assert_eq!(repo.created_at, 77);
    assert_eq!(repo.stars, 0);
    assert_eq!(repo.forks, 0);
    assert!(repo.collaborators.is_empty());

    assert!(contract.get_repository(2).is_none());
}

#[test]
fn identifiers_start_at_one_and_increase() {
    let a = AccountId(1);
    let mut contract = PolkaForge::new(a);
    let mut ids: Vec<u32> = Vec::new();
    for n in 0..4u32 {
        let (id, _) = contract
            .create_repository(
                format!("repo-{}", n),
                "d".to_string(),
                false,
                "h".to_string(),
                a,
                0,
            )
            .unwrap();
        ids.push(id);
    }
    assert_eq!(ids, vec![1, 2, 3, 4]);
}

#[test]
fn add_collaborator_twice_same_set() {
    let a = AccountId(1);
    let b = AccountId(2);
    let mut contract = PolkaForge::new(a);
    contract
        .create_repository("r".to_string(), "d".to_string(), false, "h".to_string(), a, 0)
        .unwrap();

    assert!(contract.add_collaborator(1, b, a).is_ok());
    let once = contract.get_repository(1).unwrap().collaborators;
    assert_eq!(once, vec![b]);

    assert!(contract.add_collaborator(1, b, a).is_ok());
    let twice = contract.get_repository(1).unwrap().collaborators;
    assert_eq!(twice, once);
}

#[test]
fn non_owner_add_collaborator_not_authorized() {
    let a = AccountId(1);
    let b = AccountId(2);
    let c = AccountId(3);
    let mut contract = PolkaForge::new(a);
    contract
        .create_repository("r".to_string(), "d".to_string(), false, "h".to_string(), a, 0)
        .unwrap();

    assert_eq!(contract.add_collaborator(1, c, b).unwrap_err(), Error::NotAuthorized);
    assert!(contract.get_repository(1).unwrap().collaborators.is_empty());
}

#[test]
fn add_collaborator_on_missing_repository() {
    let a = AccountId(1);
    let mut contract = PolkaForge::new(a);
    assert_eq!(
        contract.add_collaborator(1, AccountId(2), a).unwrap_err(),
        Error::RepositoryNotFound
    );
}

#[test]
fn stars_increment_for_any_caller() {
    let a = AccountId(1);
    let mut contract = PolkaForge::new(a);
    contract
        .create_repository("r".to_string(), "d".to_string(), false, "h".to_string(), a, 0)
        .unwrap();

    // the open policy: starring needs no authorization, and repeated calls
    // keep incrementing
    assert!(contract.star_repository(1).is_ok());
    assert!(contract.star_repository(1).is_ok());
    assert!(contract.star_repository(1).is_ok());
    assert_eq!(contract.get_repository(1).unwrap().stars, 3);

    assert_eq!(contract.star_repository(9).unwrap_err(), Error::RepositoryNotFound);
}

#[test]
fn forks_increment_for_any_caller() {
    let a = AccountId(1);
    let mut contract = PolkaForge::new(a);
    contract
        .create_repository("r".to_string(), "d".to_string(), false, "h".to_string(), a, 0)
        .unwrap();

    assert!(contract.fork_repository(1).is_ok());
    assert!(contract.fork_repository(1).is_ok());
    assert_eq!(contract.get_repository(1).unwrap().forks, 2);
    assert_eq!(contract.get_repository(1).unwrap().stars, 0);

    assert_eq!(contract.fork_repository(2).unwrap_err(), Error::RepositoryNotFound);
}

#[test]
fn repositories_listed_by_owner_in_order() {
    let a = AccountId(1);
    let b = AccountId(2);
    let mut contract = PolkaForge::new(a);
    contract
        .create_repository("one".to_string(), "d".to_string(), false, "h".to_string(), a, 0)
        .unwrap();
    contract
        .create_repository("two".to_string(), "d".to_string(), false, "h".to_string(), b, 0)
        .unwrap();
    contract
        .create_repository("three".to_string(), "d".to_string(), true, "h".to_string(), a, 0)
        .unwrap();

    assert_eq!(contract.get_user_repositories(a), vec![1, 3]);
    assert_eq!(contract.get_user_repositories(b), vec![2]);
    assert!(contract.get_user_repositories(AccountId(9)).is_empty());
}
