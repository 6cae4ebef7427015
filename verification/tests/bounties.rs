use polkaforge::account::AccountId;
use polkaforge::engine::PolkaForge;
use polkaforge::errors::Error;
use polkaforge::records::BountyStatus;

#[test]
fn create_bounty_works() {
    let caller = AccountId(1);
    let mut contract = PolkaForge::new(caller);

    // First create a repository
    let repo_id = contract
        .create_repository(
            "test-repo".to_string(),
            "Test repository".to_string(),
            false,
            "QmTest123".to_string(),
            caller,
            0,
        )
        .unwrap()
        .0;

    // Then create a bounty
    let result = contract.create_bounty(
        repo_id,
        "Fix bug".to_string(),
        "Fix the critical bug".to_string(),
        1000000000000, // deadline
        0,
        caller,
        0,
    );
    assert!(result.is_ok());
}

#[test]
fn bounty_fields_after_creation() {
    let a = AccountId(1);
    let mut contract = PolkaForge::new(a);
    contract
        .create_repository("lib".to_string(), "desc".to_string(), false, "Qm1".to_string(), a, 0)
        .unwrap();

    let (id, event) = contract
        .create_bounty(1, "fix bug".to_string(), "desc".to_string(), 1000, 500, a, 3)
        .unwrap();
    assert_eq!(id, 1);
    assert_eq!(event.bounty_id, 1);
    assert_eq!(event.repository_id, 1);
    assert_eq!(event.creator, a);
    assert_eq!(event.reward, 500);

    let bounty = contract.get_bounty(1).unwrap();
    assert_eq!(bounty.id, 1);
    assert_eq!(bounty.repository_id, 1);
    assert_eq!(bounty.title, "fix bug");
    assert_eq!(bounty.description, "desc");
    assert_eq!(bounty.status, BountyStatus::Open);
    assert_eq!(bounty.reward, 500);
    assert_eq!(bounty.assignee, None);
    assert_eq!(bounty.deadline, 1000);
    assert_eq!(bounty.created_at, 3);

    assert!(contract.get_bounty(2).is_none());
}

#[test]
fn outsider_create_bounty_not_authorized() {
    let a = AccountId(1);
    let outsider = AccountId(5);
    let mut contract = PolkaForge::new(a);
    contract
        .create_repository("lib".to_string(), "d".to_string(), false, "h".to_string(), a, 0)
        .unwrap();

    let err = contract
        .create_bounty(1, "t".to_string(), "d".to_string(), 10, 5, outsider, 0)
        .unwrap_err();
    assert_eq!(err, Error::NotAuthorized);
    assert!(contract.get_bounty(1).is_none());
}

#[test]
fn collaborator_may_create_bounty() {
    let a = AccountId(1);
    let b = AccountId(2);
    let mut contract = PolkaForge::new(a);
    contract
        .create_repository("lib".to_string(), "d".to_string(), false, "h".to_string(), a, 0)
        .unwrap();
    contract.add_collaborator(1, b, a).unwrap();

    let (id, _) = contract
        .create_bounty(1, "t".to_string(), "d".to_string(), 10, 5, b, 0)
        .unwrap();
    assert_eq!(id, 1);
    assert_eq!(contract.get_bounty(1).unwrap().creator, b);
}

#[test]
fn create_bounty_on_missing_repository() {
    let a = AccountId(1);
    let mut contract = PolkaForge::new(a);
    let err = contract
        .create_bounty(1, "t".to_string(), "d".to_string(), 10, 5, a, 0)
        .unwrap_err();
    assert_eq!(err, Error::RepositoryNotFound);
}

#[test]
fn assign_then_foreign_assign_fails() {
    let a = AccountId(1);
    let b = AccountId(2);
    let c = AccountId(3);
    let mut contract = PolkaForge::new(a);
    contract
        .create_repository("lib".to_string(), "d".to_string(), false, "h".to_string(), a, 0)
        .unwrap();
    contract
        .create_bounty(1, "fix bug".to_string(), "d".to_string(), 1000, 500, a, 0)
        .unwrap();

    assert!(contract.assign_bounty(1, b, a).is_ok());
    let bounty = contract.get_bounty(1).unwrap();
    assert_eq!(bounty.status, BountyStatus::Assigned);
    assert_eq!(bounty.assignee, Some(b));

    // only the creator may assign
    assert_eq!(contract.assign_bounty(1, c, b).unwrap_err(), Error::NotAuthorized);
    let unchanged = contract.get_bounty(1).unwrap();
    assert_eq!(unchanged.assignee, Some(b));

    // and an already-assigned bounty cannot be assigned again
    assert_eq!(contract.assign_bounty(1, c, a).unwrap_err(), Error::InvalidParameters);
    assert_eq!(contract.get_bounty(1).unwrap().assignee, Some(b));

    assert_eq!(contract.assign_bounty(9, c, a).unwrap_err(), Error::BountyNotFound);
}

#[test]
fn complete_pays_then_second_complete_fails() {
    let a = AccountId(1);
    let b = AccountId(2);
    let mut contract = PolkaForge::new(a);
    contract
        .create_repository("lib".to_string(), "d".to_string(), false, "h".to_string(), a, 0)
        .unwrap();
    contract
        .create_bounty(1, "fix bug".to_string(), "d".to_string(), 1000, 500, a, 0)
        .unwrap();
    contract.assign_bounty(1, b, a).unwrap();

    // the engine tells the host to pay the escrowed reward to the assignee
    let request = contract.prepare_completion(1, a).unwrap();
    assert_eq!(request.to, b);
    assert_eq!(request.amount, 500);

    // the host's transfer committed: the bounty completes
    assert!(contract.complete_bounty(1, a, true).is_ok());
    assert_eq!(contract.get_bounty(1).unwrap().status, BountyStatus::Completed);
    assert_eq!(contract.get_bounty(1).unwrap().reward, 500);

    // a second completion finds the status no longer Assigned
    assert_eq!(contract.complete_bounty(1, a, true).unwrap_err(), Error::InvalidParameters);
    assert_eq!(contract.get_bounty(1).unwrap().status, BountyStatus::Completed);
}

#[test]
fn complete_without_transfer_leaves_assigned() {
    let a = AccountId(1);
    let b = AccountId(2);
    let mut contract = PolkaForge::new(a);
    contract
        .create_repository("lib".to_string(), "d".to_string(), false, "h".to_string(), a, 0)
        .unwrap();
    contract
        .create_bounty(1, "t".to_string(), "d".to_string(), 1000, 500, a, 0)
        .unwrap();
    contract.assign_bounty(1, b, a).unwrap();

    // the host reports the transfer failed: the whole operation fails and
    // the record is untouched
    assert_eq!(contract.complete_bounty(1, a, false).unwrap_err(), Error::InsufficientFunds);
    let bounty = contract.get_bounty(1).unwrap();
    assert_eq!(bounty.status, BountyStatus::Assigned);
    assert_eq!(bounty.assignee, Some(b));
    assert_eq!(bounty.reward, 500);
}

#[test]
fn complete_open_bounty_invalid() {
    let a = AccountId(1);
    let mut contract = PolkaForge::new(a);
    contract
        .create_repository("lib".to_string(), "d".to_string(), false, "h".to_string(), a, 0)
        .unwrap();
    contract
        .create_bounty(1, "t".to_string(), "d".to_string(), 1000, 500, a, 0)
        .unwrap();

    assert_eq!(contract.complete_bounty(1, a, true).unwrap_err(), Error::InvalidParameters);
    assert_eq!(contract.get_bounty(1).unwrap().status, BountyStatus::Open);
    assert_eq!(contract.prepare_completion(1, a).unwrap_err(), Error::InvalidParameters);
    assert_eq!(contract.complete_bounty(9, a, true).unwrap_err(), Error::BountyNotFound);
}

#[test]
fn bounties_listed_by_repository_in_order() {
    let a = AccountId(1);
    let mut contract = PolkaForge::new(a);
    contract
        .create_repository("one".to_string(), "d".to_string(), false, "h".to_string(), a, 0)
        .unwrap();
    contract
        .create_repository("two".to_string(), "d".to_string(), false, "h".to_string(), a, 0)
        .unwrap();
    contract.create_bounty(1, "t1".to_string(), "d".to_string(), 1, 1, a, 0).unwrap();
    contract.create_bounty(2, "t2".to_string(), "d".to_string(), 2, 2, a, 0).unwrap();
    contract.create_bounty(1, "t3".to_string(), "d".to_string(), 3, 3, a, 0).unwrap();

    assert_eq!(contract.get_repository_bounties(1), vec![1, 3]);
    assert_eq!(contract.get_repository_bounties(2), vec![2]);
    assert!(contract.get_repository_bounties(3).is_empty());
}
