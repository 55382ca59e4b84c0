use contract_marketplace::deployment::types::{DeploymentRecord, Error, InitArg};
use contract_marketplace::deployment::{DeployedEvent, DeploymentManager};
use contract_marketplace::principal::Principal;

const NOW: u64 = 1_700_000_000;

fn generate(n: u32) -> Principal {
    Principal::new(format!("GDEPLOYER{}", n))
}

fn address(n: u32) -> Option<Principal> {
    Some(Principal::new(format!("CDEPLOYED{}", n)))
}

#[test]
fn test_deploy_from_wasm_success() {
    let mut client = DeploymentManager::new();

    let deployer = generate(1);
    let wasm_hash = [1u8; 32];
    let salt = [2u8; 32];
    let contract_registry_id = 1u32;

    let init_args = vec![];
    let deployment_id = client
        .deploy_from_wasm(contract_registry_id, deployer, wasm_hash, salt, init_args, address(1), NOW)
        .unwrap();

    assert_eq!(deployment_id, 1);
}

#[test]
fn test_get_deployment() {
    let mut client = DeploymentManager::new();

    let deployer = generate(1);
    let wasm_hash = [1u8; 32];
    let salt = [2u8; 32];
    let contract_registry_id = 1u32;

    let init_args = vec![];
    let deployment_id = client
        .deploy_from_wasm(
            contract_registry_id,
            deployer.clone(),
            wasm_hash,
            salt,
            init_args,
            address(1),
            NOW,
        )
        .unwrap();

    let record = client.get_deployment(deployment_id).unwrap();
    assert_eq!(record.deployment_id, deployment_id);
    assert_eq!(record.contract_id, contract_registry_id);
    assert_eq!(record.deployer, deployer);
}

#[test]
#[should_panic]
fn test_get_deployment_not_found() {
    let client = DeploymentManager::new();

    let fake_id = 999u32;
    client.get_deployment(fake_id).unwrap();
}

#[test]
fn test_get_deployment_history() {
    let mut client = DeploymentManager::new();

    let deployer = generate(1);
    let wasm_hash = [1u8; 32];
    let salt1 = [2u8; 32];
    let salt2 = [3u8; 32];
    let contract_id1 = 1u32;
    let contract_id2 = 2u32;

    client
        .deploy_from_wasm(contract_id1, deployer.clone(), wasm_hash, salt1, vec![], address(1), NOW)
        .unwrap();

    client
        .deploy_from_wasm(contract_id2, deployer.clone(), wasm_hash, salt2, vec![], address(2), NOW)
        .unwrap();

    let history = client.get_deployment_history(deployer);
    assert_eq!(history.len(), 2);
}

#[test]
fn test_get_contract_deployments() {
    let mut client = DeploymentManager::new();

    let deployer1 = generate(1);
    let deployer2 = generate(2);
    let wasm_hash = [1u8; 32];
    let salt1 = [2u8; 32];
    let salt2 = [3u8; 32];
    let contract_registry_id = 1u32;

    client
        .deploy_from_wasm(contract_registry_id, deployer1, wasm_hash, salt1, vec![], address(1), NOW)
        .unwrap();

    client
        .deploy_from_wasm(contract_registry_id, deployer2, wasm_hash, salt2, vec![], address(2), NOW)
        .unwrap();

    let deployments = client.get_contract_deployments(contract_registry_id);
    assert_eq!(deployments.len(), 2);
}

#[test]
fn test_get_all_deployments() {
    let mut client = DeploymentManager::new();

    let deployer = generate(1);
    let wasm_hash = [1u8; 32];
    let salt1 = [2u8; 32];
    let salt2 = [3u8; 32];
    let salt3 = [4u8; 32];
    let contract_id1 = 1u32;
    let contract_id2 = 2u32;
    let contract_id3 = 3u32;

    client
        .deploy_from_wasm(contract_id1, deployer.clone(), wasm_hash, salt1, vec![], address(1), NOW)
        .unwrap();

    client
        .deploy_from_wasm(contract_id2, deployer.clone(), wasm_hash, salt2, vec![], address(2), NOW)
        .unwrap();

    client
        .deploy_from_wasm(contract_id3, deployer.clone(), wasm_hash, salt3, vec![], address(3), NOW)
        .unwrap();

    let all = client.get_all_deployments();
    assert_eq!(all.len(), 3);
}

#[test]
fn test_get_total_deployments() {
    let mut client = DeploymentManager::new();

    assert_eq!(client.get_total_deployments(), 0);

    let deployer = generate(1);
    let wasm_hash = [1u8; 32];
    let salt = [2u8; 32];
    let contract_registry_id = 1u32;

    client
        .deploy_from_wasm(
            contract_registry_id,
            deployer.clone(),
            wasm_hash,
            salt,
            vec![],
            address(1),
            NOW,
        )
        .unwrap();

    assert_eq!(client.get_total_deployments(), 1);

    let salt2 = [3u8; 32];
    client
        .deploy_from_wasm(
            contract_registry_id,
            deployer.clone(),
            wasm_hash,
            salt2,
            vec![],
            address(2),
            NOW,
        )
        .unwrap();

    assert_eq!(client.get_total_deployments(), 2);
}

#[test]
fn test_multiple_deployments_same_contract() {
    let mut client = DeploymentManager::new();

    let deployer = generate(1);
    let wasm_hash = [1u8; 32];
    let contract_registry_id = 1u32;

    for i in 0..3 {
        let salt = [i as u8; 32];
        client
            .deploy_from_wasm(
                contract_registry_id,
                deployer.clone(),
                wasm_hash,
                salt,
                vec![],
                address(i),
                NOW,
            )
            .unwrap();
    }

    let contract_deployments = client.get_contract_deployments(contract_registry_id);
    assert_eq!(contract_deployments.len(), 3);

    let deployer_history = client.get_deployment_history(deployer);
    assert_eq!(deployer_history.len(), 3);
}

#[test]
fn deployment_record_holds_what_was_submitted() {
    let mut client = DeploymentManager::new();
    let args = vec![InitArg::Value(7), InitArg::Address(generate(9))];
    let id = client
        .deploy_from_wasm(42, generate(1), [1u8; 32], [2u8; 32], args, address(5), NOW)
        .unwrap();
    assert_eq!(id, 1);
    let expected = DeploymentRecord {
        deployment_id: 1,
        contract_id: 42,
        deployer: generate(1),
        deployed_contract_address: address(5).unwrap(),
        deployed_at: NOW,
        wasm_hash: [1u8; 32],
        salt: [2u8; 32],
        init_args: vec![InitArg::Value(7), InitArg::Address(generate(9))],
    };
    assert_eq!(client.get_deployment(id), Ok(expected));
    assert_eq!(
        client.take_events(),
        vec![DeployedEvent { deployment_id: 1, deployed_address: address(5).unwrap() }]
    );
    assert!(client.take_events().is_empty());
}

#[test]
fn deploy_with_admin_passes_the_admin_as_the_only_argument() {
    let mut client = DeploymentManager::new();
    let id = client
        .deploy_with_admin(3, generate(1), [8u8; 32], [9u8; 32], generate(2), address(1), NOW + 3)
        .unwrap();
    let record = client.get_deployment(id).unwrap();
    assert_eq!(record.init_args, vec![InitArg::Address(generate(2))]);
    assert_eq!(record.init_args, DeploymentManager::admin_args(generate(2)));
    assert_eq!(record.contract_id, 3);
    assert_eq!(record.deployed_at, NOW + 3);
    assert_eq!(record.salt, [9u8; 32]);
}

#[test]
fn failed_instantiation_leaves_no_trace() {
    let mut client = DeploymentManager::new();
    let r = client.deploy_from_wasm(1, generate(1), [1u8; 32], [2u8; 32], vec![], None, NOW);
    assert_eq!(r, Err(Error::DeploymentFailed));
    let r = client.deploy_with_admin(1, generate(1), [1u8; 32], [2u8; 32], generate(2), None, NOW);
    assert_eq!(r, Err(Error::DeploymentFailed));
    assert_eq!(client.get_total_deployments(), 0);
    assert!(client.get_all_deployments().is_empty());
    assert!(client.get_deployment_history(generate(1)).is_empty());
    assert!(client.get_contract_deployments(1).is_empty());
    assert!(client.take_events().is_empty());
    assert_eq!(client.get_deployment(1), Err(Error::ContractNotFound));
    assert_eq!(client.get_deployment(0), Err(Error::ContractNotFound));

    let r = client.deploy_from_wasm(1, generate(1), [1u8; 32], [2u8; 32], vec![], address(1), NOW);
    assert_eq!(r, Ok(1));
}

#[test]
fn deployment_lists_keep_order_and_exclude_others() {
    let mut client = DeploymentManager::new();
    let plan = [(1u32, 1u32), (2, 1), (1, 2), (3, 3), (1, 1)];
    for (n, (contract, who)) in plan.iter().enumerate() {
        let id = client
            .deploy_from_wasm(
                *contract,
                generate(*who),
                [0u8; 32],
                [n as u8; 32],
                vec![],
                address(n as u32),
                NOW,
            )
            .unwrap();
        assert_eq!(id, n as u32 + 1);
    }
    let ids = |v: Vec<DeploymentRecord>| v.iter().map(|r| r.deployment_id).collect::<Vec<u32>>();
    assert_eq!(ids(client.get_contract_deployments(1)), vec![1, 3, 5]);
    assert_eq!(ids(client.get_contract_deployments(2)), vec![2]);
    assert_eq!(ids(client.get_contract_deployments(9)), Vec::<u32>::new());
    assert_eq!(ids(client.get_deployment_history(generate(1))), vec![1, 2, 5]);
    assert_eq!(ids(client.get_deployment_history(generate(2))), vec![3]);
    assert_eq!(ids(client.get_deployment_history(generate(7))), Vec::<u32>::new());
    assert_eq!(ids(client.get_all_deployments()), vec![1, 2, 3, 4, 5]);
}

#[test]
fn deployment_error_codes() {
    assert_eq!(Error::ContractNotFound.code(), 1);
    assert_eq!(Error::DeploymentFailed.code(), 2);
    assert_eq!(Error::InvalidParameters.code(), 3);
    assert_eq!(Error::InvalidWasmHash.code(), 4);
    assert_eq!(Error::UnauthorizedAccess.code(), 5);
}
