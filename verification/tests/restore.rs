use contract_marketplace::deployment::DeploymentManager;
use contract_marketplace::key::Key;
use contract_marketplace::principal::{Principal, ScopeKey};
use contract_marketplace::registry::types::{Category, PublishParams};
use contract_marketplace::registry::ContractRegistry;
use contract_marketplace::review::types::Error;
use contract_marketplace::review::ReviewSystem;

fn who(n: u32) -> Principal {
    Principal::new(format!("GUSER{}", n))
}

fn params(category: Category) -> PublishParams {
    PublishParams {
        wasm_hash: [0u8; 32],
        name: String::from("TestContract"),
        description: String::from("A test contract for the marketplace"),
        version: String::from("1.0.0"),
        category,
        tags: vec![String::from("test")],
        source_url: String::from("https://github.com/test/contract"),
        documentation_url: String::from("https://docs.test.com"),
        license: String::from("MIT"),
    }
}

#[test]
fn registry_is_rebuilt_from_its_records() {
    let mut registry = ContractRegistry::new();
    registry.publish_contract(who(1), params(Category::DeFi), 10).unwrap();
    registry.publish_contract(who(2), params(Category::NFT), 11).unwrap();
    registry.publish_contract(who(1), params(Category::DeFi), 12).unwrap();
    registry.verify_contract(2, who(3)).unwrap();
    registry.increment_deployment_count(3, &who(3)).unwrap();

    let records = registry.get_all_contracts();
    let mut rebuilt = ContractRegistry::restore(&records).unwrap();
    assert_eq!(rebuilt.get_all_contracts(), records);
    assert_eq!(rebuilt.get_contract_count(), 3);
    assert_eq!(rebuilt.search_by_category(Category::DeFi).len(), 2);
    assert_eq!(rebuilt.search_by_category(Category::NFT)[0].id, 2);
    assert!(rebuilt.get_contract(2).unwrap().verified);
    assert!(rebuilt.take_events().is_empty());
    assert_eq!(rebuilt.publish_contract(who(1), params(Category::Other), 13), Ok(4));
}

#[test]
fn registry_is_not_rebuilt_from_misnumbered_records() {
    let mut registry = ContractRegistry::new();
    registry.publish_contract(who(1), params(Category::DeFi), 10).unwrap();
    registry.publish_contract(who(2), params(Category::NFT), 11).unwrap();
    let mut records = registry.get_all_contracts();
    records.swap(0, 1);
    assert!(ContractRegistry::restore(&records).is_none());
    records.swap(0, 1);
    records[1].id = 3;
    assert!(ContractRegistry::restore(&records).is_none());
    records.remove(0);
    assert!(ContractRegistry::restore(&records).is_none());
    assert!(ContractRegistry::restore(&Vec::new()).is_some());
}

#[test]
fn deployments_are_rebuilt_from_their_records() {
    let mut manager = DeploymentManager::new();
    for n in 0..4u32 {
        manager
            .deploy_from_wasm(n % 2, who(n % 3), [1u8; 32], [n as u8; 32], vec![], Some(who(50 + n)), 5)
            .unwrap();
    }
    let records = manager.get_all_deployments();
    let mut rebuilt = DeploymentManager::restore(&records).unwrap();
    assert_eq!(rebuilt.get_all_deployments(), records);
    assert_eq!(rebuilt.get_total_deployments(), 4);
    assert_eq!(rebuilt.get_contract_deployments(0).len(), 2);
    assert_eq!(rebuilt.get_deployment_history(who(0)).len(), 2);
    assert!(rebuilt.take_events().is_empty());

    let mut bad = manager.get_all_deployments();
    bad[0].deployment_id = 2;
    assert!(DeploymentManager::restore(&bad).is_none());
}

#[test]
fn reviews_are_rebuilt_from_reviews_and_votes() {
    let mut system = ReviewSystem::new();
    system.submit_review(1, who(1), 5, String::from("Great!"), 1).unwrap();
    system.submit_review(1, who(2), 4, String::from("Good"), 2).unwrap();
    system.submit_review(2, who(1), 3, String::from("Okay"), 3).unwrap();
    system.upvote_review(2, who(9)).unwrap();
    system.upvote_review(2, who(8)).unwrap();
    system.upvote_review(3, who(9)).unwrap();

    let reviews = system.get_all_reviews();
    let votes = system.get_votes();
    assert_eq!(reviews.len(), 3);
    assert_eq!(votes.len(), 3);
    assert!(votes.iter().any(|k| k.same(&ScopeKey { id: 3, principal: who(9) })));

    let mut rebuilt = ReviewSystem::restore(&reviews, &votes).unwrap();
    assert_eq!(rebuilt.get_all_reviews(), reviews);
    assert_eq!(rebuilt.get_review_count(), 3);
    assert_eq!(rebuilt.get_review(2).unwrap().upvotes, 2);
    assert_eq!(rebuilt.get_review_summary(1).average_rating, 450);
    assert_eq!(rebuilt.get_reviews_by_user(who(1)).len(), 2);
    assert_eq!(rebuilt.upvote_review(2, who(9)), Err(Error::AlreadyVoted));
    assert_eq!(
        rebuilt.submit_review(1, who(2), 1, String::from("Again"), 4),
        Err(Error::AlreadyReviewed)
    );
    assert_eq!(rebuilt.upvote_review(1, who(9)), Ok(()));
    assert_eq!(rebuilt.submit_review(2, who(2), 1, String::from("New"), 4), Ok(4));
}

#[test]
fn reviews_are_not_rebuilt_from_invalid_parts() {
    let mut system = ReviewSystem::new();
    system.submit_review(1, who(1), 5, String::from("Great!"), 1).unwrap();
    system.submit_review(1, who(2), 4, String::from("Good"), 2).unwrap();
    let reviews = system.get_all_reviews();
    assert!(ReviewSystem::restore(&reviews, &Vec::new()).is_some());

    let stray = vec![ScopeKey { id: 3, principal: who(1) }];
    assert!(ReviewSystem::restore(&reviews, &stray).is_none());
    let stray = vec![ScopeKey { id: 0, principal: who(1) }];
    assert!(ReviewSystem::restore(&reviews, &stray).is_none());

    let mut bad = system.get_all_reviews();
    bad[1].rating = 6;
    assert!(ReviewSystem::restore(&bad, &Vec::new()).is_none());
    let mut bad = system.get_all_reviews();
    bad[1].comment = String::new();
    assert!(ReviewSystem::restore(&bad, &Vec::new()).is_none());
    let mut bad = system.get_all_reviews();
    bad[1].reviewer = who(1);
    assert!(ReviewSystem::restore(&bad, &Vec::new()).is_none());
    let mut bad = system.get_all_reviews();
    bad[0].review_id = 2;
    assert!(ReviewSystem::restore(&bad, &Vec::new()).is_none());
}

#[test]
fn deployment_count_stops_at_the_maximum() {
    let mut registry = ContractRegistry::new();
    registry.publish_contract(who(1), params(Category::DeFi), 10).unwrap();
    let mut records = registry.get_all_contracts();
    records[0].total_deployments = u32::MAX - 1;
    let mut rebuilt = ContractRegistry::restore(&records).unwrap();
    rebuilt.increment_deployment_count(1, &who(2)).unwrap();
    assert_eq!(rebuilt.get_contract(1).unwrap().total_deployments, u32::MAX);
    rebuilt.increment_deployment_count(1, &who(2)).unwrap();
    assert_eq!(rebuilt.get_contract(1).unwrap().total_deployments, u32::MAX);
}

#[test]
fn vote_count_stops_at_the_maximum() {
    let mut system = ReviewSystem::new();
    system.submit_review(1, who(1), 5, String::from("Great!"), 1).unwrap();
    let mut reviews = system.get_all_reviews();
    reviews[0].upvotes = u32::MAX - 1;
    let mut rebuilt = ReviewSystem::restore(&reviews, &Vec::new()).unwrap();
    rebuilt.upvote_review(1, who(2)).unwrap();
    assert_eq!(rebuilt.get_review(1).unwrap().upvotes, u32::MAX);
    rebuilt.upvote_review(1, who(3)).unwrap();
    assert_eq!(rebuilt.get_review(1).unwrap().upvotes, u32::MAX);
    assert_eq!(rebuilt.upvote_review(1, who(3)), Err(Error::AlreadyVoted));
}
