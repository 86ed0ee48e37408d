use tiedye::chain_spec::{
    accounts_from_seeds, authorities_from_seeds, genesis_from_seeds, get_authority_keys_from_seed, get_from_seed,
    session_keys, testnet_genesis, try_get_authority_keys_from_seed, try_get_from_seed, Alternative, ChainSpec,
    SessionKeys, Staker, StakerStatus, ENDOWMENT, STASH, SUNBURST_FILE,
};
use tiedye::chain_spec::KeyScheme;

fn hex(key: &[u8]) -> String {
    let mut s = String::new();
    for b in key {
        s.push_str(&format!("{:02x}", b));
    }
    s
}

#[test]
fn chain_names() {
    assert_eq!(Alternative::from("dev"), Some(Alternative::Development));
    assert_eq!(Alternative::from(""), Some(Alternative::LocalTestnet));
    assert_eq!(Alternative::from("local"), Some(Alternative::LocalTestnet));
    assert_eq!(Alternative::from("sunburst"), Some(Alternative::Sunburst));
    assert_eq!(Alternative::from("Dev"), None);
    assert_eq!(Alternative::from("local_testnet"), None);
    assert_eq!(Alternative::from(" dev"), None);
}

#[test]
fn well_known_keys() {
    let alice = get_from_seed(KeyScheme::Sr25519, "Alice");
    assert_eq!(hex(&alice), "d43593c715fdd31c61141abd04a99fd6822c8558854ccde39a5684e7a56da27d");
    let bob = get_from_seed(KeyScheme::Sr25519, "Bob");
    assert_eq!(hex(&bob), "8eaf04151687736326c9fea17e25fc5287613693c912909cb226aa4794f26a48");
    let alice_ed = get_from_seed(KeyScheme::Ed25519, "Alice");
    assert_eq!(hex(&alice_ed), "88dc3417d5058ec4b4503e0c12ea1a0a89be200fe98922423d4334014fa6b0ee");
}

#[test]
fn seed_that_is_no_junction_has_no_key() {
    assert_eq!(try_get_from_seed(KeyScheme::Sr25519, ""), None);
    assert_eq!(try_get_from_seed(KeyScheme::Ed25519, ""), None);
    assert_eq!(try_get_authority_keys_from_seed(""), None);
}

#[test]
fn authority_keys_of_a_seed() {
    let keys = get_authority_keys_from_seed("Alice");
    assert_eq!(hex(&keys.stash), "be5ddb1579b72e84524fc29e78609e3caf42e85aa118ebfe0b0ad404b5bdd25f");
    assert_eq!(keys.stash, get_from_seed(KeyScheme::Sr25519, "Alice//stash"));
    assert_eq!(keys.controller, get_from_seed(KeyScheme::Sr25519, "Alice"));
    assert_eq!(keys.grandpa, get_from_seed(KeyScheme::Ed25519, "Alice"));
    assert_eq!(keys.babe, keys.controller);
    assert_eq!(keys.oracle, keys.controller);
    assert_ne!(keys.grandpa, keys.controller);
    let session = session_keys(keys.grandpa.clone(), keys.babe.clone(), keys.oracle.clone());
    assert_eq!((session.grandpa, session.babe, session.oracle), (keys.grandpa, keys.babe, keys.oracle));
}

#[test]
fn genesis_of_given_keys() {
    let alice = get_authority_keys_from_seed("Alice");
    let root = vec![7u8; 32];
    let endowed = vec![vec![1u8; 32], vec![2u8; 32]];
    let genesis = testnet_genesis(&vec![alice.clone()], root.clone(), &endowed, true);
    assert_eq!(ENDOWMENT, 1152921504606846976);
    assert_eq!(STASH, 576460752303423488);
    assert_eq!(genesis.indices, endowed);
    assert_eq!(genesis.balances, vec![(vec![1u8; 32], ENDOWMENT), (vec![2u8; 32], ENDOWMENT)]);
    assert_eq!(genesis.sudo_key, root);
    assert_eq!(
        genesis.session_keys,
        vec![(
            alice.stash.clone(),
            SessionKeys { grandpa: alice.grandpa.clone(), babe: alice.babe.clone(), oracle: alice.oracle.clone() }
        )]
    );
    assert_eq!(
        genesis.stakers,
        vec![Staker {
            stash: alice.stash.clone(),
            controller: alice.controller.clone(),
            bonded: STASH,
            status: StakerStatus::Validator
        }]
    );
    assert_eq!(genesis.invulnerables, vec![alice.stash.clone()]);
    assert_eq!(genesis.current_era, 0);
    assert_eq!(genesis.validator_count, 7);
    assert_eq!(genesis.minimum_validator_count, 4);
    assert_eq!(genesis.slash_reward_percent, 0);
}

#[test]
fn genesis_without_authorities_or_accounts() {
    let genesis = testnet_genesis(&vec![], vec![], &vec![], false);
    assert!(genesis.indices.is_empty());
    assert!(genesis.balances.is_empty());
    assert!(genesis.session_keys.is_empty());
    assert!(genesis.stakers.is_empty());
    assert!(genesis.invulnerables.is_empty());
    assert_eq!(genesis.validator_count, 7);
}

#[test]
fn keys_of_several_seeds() {
    let seeds = vec!["Alice", "Bob"];
    let authorities = authorities_from_seeds(&seeds).unwrap();
    assert_eq!(authorities.len(), 2);
    assert_eq!(authorities[1], get_authority_keys_from_seed("Bob"));
    let accounts = accounts_from_seeds(&seeds).unwrap();
    assert_eq!(hex(&accounts[0]), "d43593c715fdd31c61141abd04a99fd6822c8558854ccde39a5684e7a56da27d");
    assert_eq!(hex(&accounts[1]), "8eaf04151687736326c9fea17e25fc5287613693c912909cb226aa4794f26a48");
    assert_eq!(authorities_from_seeds(&vec!["Alice", ""]), None);
    assert_eq!(accounts_from_seeds(&vec!["", "Bob"]), None);
    assert_eq!(genesis_from_seeds(&vec!["Alice"], "", &vec![]), None);
    assert_eq!(genesis_from_seeds(&vec![""], "Alice", &vec![]), None);
    assert_eq!(genesis_from_seeds(&vec![], "Alice", &vec![""]), None);
    assert_eq!(
        genesis_from_seeds(&vec![], "Alice", &vec![]).map(|g| g.sudo_key),
        Some(get_from_seed(KeyScheme::Sr25519, "Alice"))
    );
}

#[test]
fn development_chain() {
    match Alternative::Development.load() {
        Ok(ChainSpec::Generated { name, id, genesis }) => {
            assert_eq!(name, "Development");
            assert_eq!(id, "dev");
            let alice = get_authority_keys_from_seed("Alice");
            assert_eq!(genesis.sudo_key, alice.controller);
            assert_eq!(genesis.stakers.len(), 1);
            assert_eq!(genesis.stakers[0].stash, alice.stash);
            assert_eq!(genesis.balances.len(), 4);
            assert_eq!(
                Some(genesis.indices.clone()),
                accounts_from_seeds(&vec!["Alice", "Bob", "Alice//stash", "Bob//stash"])
            );
            for (_, balance) in &genesis.balances {
                assert_eq!(*balance, 1u128 << 60);
            }
        }
        other => panic!("unexpected {:?}", other),
    }
}

#[test]
fn local_testnet_chain() {
    match Alternative::LocalTestnet.load() {
        Ok(ChainSpec::Generated { name, id, genesis }) => {
            assert_eq!(name, "Local Testnet");
            assert_eq!(id, "local_testnet");
            assert_eq!(genesis.session_keys.len(), 2);
            assert_eq!(genesis.invulnerables.len(), 2);
            assert_eq!(genesis.balances.len(), 12);
            assert_eq!(genesis.balances[5].0, get_from_seed(KeyScheme::Sr25519, "Ferdie"));
            assert_eq!(genesis.balances[11].0, get_from_seed(KeyScheme::Sr25519, "Ferdie//stash"));
            assert_eq!(genesis.stakers[1].controller, get_from_seed(KeyScheme::Sr25519, "Bob"));
            assert_eq!(genesis.stakers[1].bonded, 1u128 << 59);
        }
        other => panic!("unexpected {:?}", other),
    }
}

#[test]
fn public_test_network_comes_from_its_file() {
    assert_eq!(Alternative::Sunburst.load(), Ok(ChainSpec::JsonFile { path: "../sunburst.json" }));
    assert_eq!(SUNBURST_FILE, "../sunburst.json");
}

#[test]
fn tested_derivation_agrees_with_the_plain_one() {
    for seed in ["Alice", "Bob", "Alice//stash", "1"] {
        assert_eq!(try_get_from_seed(KeyScheme::Sr25519, seed), Some(get_from_seed(KeyScheme::Sr25519, seed)));
        assert_eq!(try_get_from_seed(KeyScheme::Ed25519, seed), Some(get_from_seed(KeyScheme::Ed25519, seed)));
    }
    assert_eq!(try_get_from_seed(KeyScheme::Sr25519, "a/b"), Some(get_from_seed(KeyScheme::Sr25519, "a/b")));
    assert_eq!(try_get_from_seed(KeyScheme::Ed25519, "a/b"), None);
    assert_eq!(try_get_authority_keys_from_seed("Bob"), Some(get_authority_keys_from_seed("Bob")));
    assert_eq!(try_get_authority_keys_from_seed("a/b"), None);
}
