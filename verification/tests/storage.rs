use contract_marketplace::deployment::storage as deployments;
use contract_marketplace::deployment::types::{DeploymentRecord, InitArg};
use contract_marketplace::principal::Principal;
use contract_marketplace::registry::storage as contracts;
use contract_marketplace::registry::types::{Category, ContractMetadata};
use contract_marketplace::review::storage as reviews;
use contract_marketplace::review::types::Review;

fn metadata(id: u32, category: Category) -> ContractMetadata {
    ContractMetadata {
        id,
        wasm_hash: [7u8; 32],
        name: String::from("Name"),
        description: String::from("Description"),
        version: String::from("1.0.0"),
        author: Principal::from_str("GAUTHOR"),
        category,
        tags: vec![String::from("tag")],
        source_url: String::from("https://example.org"),
        documentation_url: String::new(),
        license: String::from("MIT"),
        published_at: 1,
        updated_at: 2,
        total_deployments: 3,
        verified: true,
    }
}

#[test]
fn registry_storage_keeps_each_key_apart() {
    let mut store = contracts::Storage::new();
    assert_eq!(contracts::get_counter(&store), 0);
    assert_eq!(contracts::get_contract(&store, 1), None);
    assert!(contracts::get_all_contract_ids(&store).is_empty());
    assert!(contracts::get_category_contracts(&store, &Category::NFT).is_empty());

    assert_eq!(contracts::increment_counter(&mut store), 1);
    assert_eq!(contracts::increment_counter(&mut store), 2);
    assert_eq!(contracts::get_counter(&store), 2);

    contracts::save_contract(&mut store, 1, &metadata(1, Category::NFT));
    contracts::add_to_all_contracts(&mut store, 1);
    contracts::add_to_category(&mut store, &Category::NFT, 1);
    contracts::add_to_category(&mut store, &Category::DeFi, 2);
    contracts::add_to_category(&mut store, &Category::NFT, 3);

    assert_eq!(contracts::get_contract(&store, 1), Some(metadata(1, Category::NFT)));
    assert_eq!(contracts::get_contract(&store, 2), None);
    assert_eq!(contracts::get_all_contract_ids(&store), vec![1]);
    assert_eq!(contracts::get_category_contracts(&store, &Category::NFT), vec![1, 3]);
    assert_eq!(contracts::get_category_contracts(&store, &Category::DeFi), vec![2]);
    assert!(contracts::get_category_contracts(&store, &Category::DAO).is_empty());
    assert_eq!(contracts::get_counter(&store), 2);

    contracts::save_contract(&mut store, 1, &metadata(1, Category::Other));
    assert_eq!(contracts::get_contract(&store, 1).unwrap().category, Category::Other);
}

#[test]
fn deployment_storage_keeps_each_key_apart() {
    let mut store = deployments::Storage::new();
    let who = Principal::from_str("GDEPLOYER");
    let record = DeploymentRecord {
        deployment_id: 1,
        contract_id: 5,
        deployer: who.clone(),
        deployed_contract_address: Principal::from_str("CADDRESS"),
        deployed_at: 9,
        wasm_hash: [1u8; 32],
        salt: [2u8; 32],
        init_args: vec![InitArg::Value(3)],
    };
    assert_eq!(deployments::get_counter(&store), 0);
    assert_eq!(deployments::increment_counter(&mut store), 1);
    deployments::save_deployment(&mut store, 1, &record);
    deployments::add_to_all_deployments(&mut store, 1);
    deployments::add_to_deployer(&mut store, &who, 1);
    deployments::add_to_contract_deployments(&mut store, 5, 1);

    assert_eq!(deployments::get_deployment(&store, 1), Some(record));
    assert_eq!(deployments::get_deployment(&store, 5), None);
    assert_eq!(deployments::get_all_deployment_ids(&store), vec![1]);
    assert_eq!(deployments::get_deployer_deployments(&store, &who), vec![1]);
    assert!(deployments::get_deployer_deployments(&store, &Principal::from_str("G")).is_empty());
    assert_eq!(deployments::get_contract_deployments(&store, 5), vec![1]);
    assert!(deployments::get_contract_deployments(&store, 1).is_empty());
}

#[test]
fn review_storage_keeps_each_key_apart() {
    let mut store = reviews::Storage::new();
    let who = Principal::from_str("GUSER");
    let other = Principal::from_str("GOTHER");
    let review = Review {
        review_id: 1,
        contract_id: 1,
        reviewer: who.clone(),
        rating: 4,
        comment: String::from("Fine"),
        created_at: 3,
        upvotes: 0,
    };
    assert_eq!(reviews::get_counter(&store), 0);
    assert_eq!(reviews::increment_counter(&mut store), 1);
    reviews::save_review(&mut store, 1, &review);
    reviews::add_to_contract_reviews(&mut store, 1, 1);
    reviews::add_to_user_reviews(&mut store, &who, 1);

    assert!(!reviews::has_reviewed(&store, 1, &who));
    reviews::mark_as_reviewed(&mut store, 1, &who);
    assert!(reviews::has_reviewed(&store, 1, &who));
    assert!(!reviews::has_reviewed(&store, 1, &other));
    assert!(!reviews::has_reviewed(&store, 2, &who));
    assert!(!reviews::has_upvoted(&store, 1, &who));

    reviews::mark_as_upvoted(&mut store, 1, &other);
    assert!(reviews::has_upvoted(&store, 1, &other));
    assert!(!reviews::has_upvoted(&store, 1, &who));
    assert!(!reviews::has_reviewed(&store, 1, &other));
    assert_eq!(reviews::get_upvotes(&store).len(), 1);

    assert_eq!(reviews::get_review(&store, 1), Some(review));
    assert_eq!(reviews::get_review(&store, 2), None);
    assert_eq!(reviews::get_contract_reviews(&store, 1), vec![1]);
    assert!(reviews::get_contract_reviews(&store, 2).is_empty());
    assert_eq!(reviews::get_user_reviews(&store, &who), vec![1]);
    assert!(reviews::get_user_reviews(&store, &other).is_empty());
}
