use sp_core::Pair;
use tiedye::oracle::{
    authority_ids, fetch, signed_call, verdict_for, Call, InvalidTransaction, LocalKey, OffchainErr, Oracle,
    OracleMessage, OracleResult, ValidTransaction,
};
use tiedye::signature::is_signed;

fn pair(seed: u8) -> sp_core::sr25519::Pair {
    sp_core::sr25519::Pair::from_seed(&[seed; 32])
}

fn public(seed: u8) -> Vec<u8> {
    pair(seed).public().0.to_vec()
}

fn local(seed: u8) -> LocalKey {
    LocalKey { public: public(seed), seed: vec![seed; 32] }
}

fn oracle_abc() -> Oracle {
    let mut oracle = Oracle::new();
    oracle.initialize_keys(vec![public(1), public(2), public(3)]);
    oracle
}

fn signed_update(value: u32, authority_index: u32, signer: u8) -> Call {
    let message = OracleMessage { value, authority_index };
    let signature = pair(signer).sign(&message.encode()).0.to_vec();
    Call::UpdateFeed { message, signature }
}

fn tag(session: u32, key: &[u8]) -> Vec<u8> {
    let mut t = session.to_le_bytes().to_vec();
    t.extend_from_slice(key);
    t
}

#[test]
fn signature_round_trip() {
    let message = b"seven hundred".to_vec();
    let signature = pair(1).sign(&message).0.to_vec();
    assert!(is_signed(&public(1), &message, &signature));
    assert!(!is_signed(&public(2), &message, &signature));
    assert!(!is_signed(&public(1), b"seven hundred and one", &signature));
}

#[test]
fn malformed_signature_or_key_does_not_verify() {
    let message = b"m".to_vec();
    let signature = pair(1).sign(&message).0.to_vec();
    let key = public(1);
    assert!(!is_signed(&key, &message, &signature[..63]));
    assert!(!is_signed(&key, &message, &[]));
    assert!(!is_signed(&key[..31], &message, &signature));
    assert!(!is_signed(&[], &message, &signature));
    let mut long = signature.clone();
    long.push(0);
    assert!(!is_signed(&key, &message, &long));
    assert!(!is_signed(&key, &message, &[0xff; 64]));
    assert!(!is_signed(&[0xff; 32], &message, &signature));
}

#[test]
fn message_encoding_is_value_then_index() {
    let message = OracleMessage { value: 0x01020304, authority_index: 5 };
    assert_eq!(message.encode(), vec![4, 3, 2, 1, 5, 0, 0, 0]);
    let other = OracleMessage { value: u32::MAX, authority_index: 0x100 };
    assert_eq!(other.encode(), vec![0xff, 0xff, 0xff, 0xff, 0, 1, 0, 0]);
}

#[test]
fn window_keeps_the_last_hundred() {
    let mut window = OracleResult::new();
    for v in 0u32..150 {
        window.record(v, u64::from(v));
    }
    let expected: Vec<u32> = (50u32..150).collect();
    assert_eq!(window.values(), &expected);
    assert_eq!(window.last_update(), 149);
}

#[test]
fn window_below_capacity_keeps_everything() {
    let mut window = OracleResult::new();
    assert_eq!(window.values(), &Vec::<u32>::new());
    for v in 0u32..99 {
        window.record(v * 3, 1);
    }
    let expected: Vec<u32> = (0u32..99).map(|v| v * 3).collect();
    assert_eq!(window.values(), &expected);
    window.record(7, 2);
    assert_eq!(window.values().len(), 100);
    assert_eq!(window.values()[0], 0);
    window.record(8, 3);
    assert_eq!(window.values().len(), 100);
    assert_eq!(window.values()[0], 3);
    assert_eq!(window.values()[98], 7);
    assert_eq!(window.values()[99], 8);
}

#[test]
fn update_feed_fills_the_slot() {
    let mut oracle = oracle_abc();
    assert!(oracle.results(1).is_none());
    oracle.update_feed(OracleMessage { value: 11, authority_index: 0 }, &[], 1000);
    oracle.update_feed(OracleMessage { value: 12, authority_index: 2 }, &[1; 64], 1001);
    let result = oracle.results(1).unwrap();
    assert_eq!(result.values(), &vec![11, 12]);
    assert_eq!(result.last_update(), 1001);
    assert!(oracle.results(0).is_none());
    assert!(oracle.results(2).is_none());
    for v in 0u32..150 {
        oracle.update_feed(OracleMessage { value: v, authority_index: 1 }, &[], 2000);
    }
    let expected: Vec<u32> = (50u32..150).collect();
    assert_eq!(oracle.results(1).unwrap().values(), &expected);
}

#[test]
fn registry_is_set_once_and_rotated() {
    let mut oracle = Oracle::new();
    assert!(oracle.keys().is_empty());
    oracle.initialize_keys(vec![]);
    assert!(oracle.keys().is_empty());
    oracle.initialize_keys(vec![public(1), public(2)]);
    assert_eq!(oracle.keys(), &vec![public(1), public(2)]);
    oracle.initialize_keys(vec![]);
    assert_eq!(oracle.keys(), &vec![public(1), public(2)]);
    oracle.rotate(vec![public(3)]);
    assert_eq!(oracle.keys(), &vec![public(3)]);
    oracle.rotate(vec![]);
    assert!(oracle.keys().is_empty());
}

#[test]
fn sessions_deliver_the_validators_keys() {
    let validators = vec![(10u64, public(1)), (11u64, public(2))];
    assert_eq!(authority_ids(&validators), vec![public(1), public(2)]);
    let mut oracle = Oracle::new();
    oracle.on_genesis_session(&validators);
    assert_eq!(oracle.keys(), &vec![public(1), public(2)]);
    let next = vec![(11u64, public(2)), (12u64, public(3)), (10u64, public(1))];
    oracle.on_new_session(true, &next, &validators);
    assert_eq!(oracle.keys(), &vec![public(2), public(3), public(1)]);
    oracle.on_before_session_ending();
    oracle.on_disabled(0);
    assert_eq!(oracle.keys().len(), 3);
}

#[test]
fn authority_at_index_one_is_admitted_with_its_tag() {
    let oracle = oracle_abc();
    let verdict = oracle.validate_unsigned(&signed_update(42, 1, 2), 9);
    assert_eq!(
        verdict,
        Ok(ValidTransaction {
            priority: 0,
            depends_on: vec![],
            provides: vec![tag(9, &public(2))],
            longevity: u64::MAX,
            propagate: true,
        })
    );
    let second = oracle.validate_unsigned(&signed_update(43, 1, 2), 9).unwrap();
    assert_eq!(second.provides, verdict.unwrap().provides);
    let later = oracle.validate_unsigned(&signed_update(43, 1, 2), 10).unwrap();
    assert_eq!(later.provides, vec![tag(10, &public(2))]);
    assert_eq!(later.provides[0].len(), 36);
    assert_eq!(&later.provides[0][..4], &[10, 0, 0, 0]);
}

#[test]
fn index_outside_the_registry_is_a_bad_proof() {
    let oracle = oracle_abc();
    assert_eq!(oracle.validate_unsigned(&signed_update(42, 3, 2), 0), Err(InvalidTransaction::BadProof));
    assert_eq!(oracle.validate_unsigned(&signed_update(42, u32::MAX, 1), 0), Err(InvalidTransaction::BadProof));
    let empty = Oracle::new();
    assert_eq!(empty.validate_unsigned(&signed_update(42, 0, 1), 0), Err(InvalidTransaction::BadProof));
}

#[test]
fn signature_of_another_authority_is_a_bad_proof() {
    let oracle = oracle_abc();
    assert_eq!(oracle.validate_unsigned(&signed_update(42, 1, 1), 0), Err(InvalidTransaction::BadProof));
    assert_eq!(oracle.validate_unsigned(&signed_update(42, 0, 2), 0), Err(InvalidTransaction::BadProof));
    let message = OracleMessage { value: 42, authority_index: 1 };
    let for_other_value = pair(2).sign(&OracleMessage { value: 41, authority_index: 1 }.encode()).0.to_vec();
    assert_eq!(
        oracle.validate_unsigned(&Call::UpdateFeed { message, signature: for_other_value }, 0),
        Err(InvalidTransaction::BadProof)
    );
    assert_eq!(
        oracle.validate_unsigned(&Call::UpdateFeed { message, signature: vec![] }, 0),
        Err(InvalidTransaction::BadProof)
    );
}

#[test]
fn rotation_invalidates_old_indices() {
    let mut oracle = oracle_abc();
    let call = signed_update(42, 1, 2);
    assert!(oracle.validate_unsigned(&call, 0).is_ok());
    oracle.rotate(vec![public(2), public(1), public(3)]);
    assert_eq!(oracle.validate_unsigned(&call, 1), Err(InvalidTransaction::BadProof));
    assert!(oracle.validate_unsigned(&signed_update(42, 0, 2), 1).is_ok());
}

#[test]
fn other_calls_are_not_recognised() {
    let oracle = oracle_abc();
    assert_eq!(oracle.validate_unsigned(&Call::Other, 0), Err(InvalidTransaction::Call));
}

#[test]
fn verdict_follows_the_signature_check() {
    let key = public(2);
    assert_eq!(verdict_for(3, &key, false), Err(InvalidTransaction::BadProof));
    let tx = verdict_for(0x01020304, &key, true).unwrap();
    assert_eq!(tx.priority, 0);
    assert!(tx.depends_on.is_empty());
    assert_eq!(tx.provides, vec![tag(0x01020304, &key)]);
    assert_eq!(&tx.provides[0][..4], &[4, 3, 2, 1]);
    assert_eq!(tx.longevity, u64::MAX);
    assert!(tx.propagate);
}

#[test]
fn worker_signs_for_each_local_authority() {
    let oracle = oracle_abc();
    let locals = vec![local(3), local(9), local(1)];
    let attempts = oracle.do_update(77, &locals);
    assert_eq!(attempts.len(), 2);
    let mut indices = vec![];
    for attempt in &attempts {
        let call = attempt.clone().unwrap();
        match &call {
            Call::UpdateFeed { message, signature } => {
                assert_eq!(message.value, 77);
                assert_eq!(signature.len(), 64);
                indices.push(message.authority_index);
            }
            Call::Other => panic!("not an update"),
        }
        assert!(oracle.validate_unsigned(&call, 4).is_ok());
    }
    assert_eq!(indices, vec![0, 2]);
}

#[test]
fn worker_without_local_authority_submits_nothing() {
    let oracle = oracle_abc();
    assert!(oracle.do_update(1, &vec![local(8)]).is_empty());
    assert!(oracle.do_update(1, &vec![]).is_empty());
    assert!(Oracle::new().do_update(1, &vec![local(1)]).is_empty());
}

#[test]
fn a_key_that_cannot_sign_does_not_hold_up_the_others() {
    let oracle = oracle_abc();
    let broken = LocalKey { public: public(1), seed: vec![1; 5] };
    let attempts = oracle.do_update(5, &vec![broken, local(2)]);
    assert_eq!(attempts.len(), 2);
    assert_eq!(attempts[0], Err(OffchainErr::FailedSigning));
    let call = attempts[1].clone().unwrap();
    assert!(oracle.validate_unsigned(&call, 0).is_ok());
}

#[test]
fn signed_call_wraps_the_signature() {
    let message = OracleMessage { value: 1, authority_index: 2 };
    assert_eq!(signed_call(message, None), Err(OffchainErr::FailedSigning));
    assert_eq!(
        signed_call(message, Some(vec![9; 64])),
        Ok(Call::UpdateFeed { message, signature: vec![9; 64] })
    );
}

#[test]
fn observation_is_the_first_four_bytes() {
    assert_eq!(fetch(&[1, 0, 0, 0]), Ok(1));
    assert_eq!(fetch(&[0x78, 0x56, 0x34, 0x12]), Ok(0x12345678));
    assert_eq!(fetch(&[0xff, 0xff, 0xff, 0xff, 9]), Ok(u32::MAX));
    assert_eq!(fetch(&[1, 2, 3]), Err(OffchainErr::NetworkState));
    assert_eq!(fetch(&[]), Err(OffchainErr::NetworkState));
}

#[test]
fn worker_cycle_reads_then_signs() {
    let oracle = oracle_abc();
    let locals = vec![local(2)];
    assert_eq!(oracle.offchain_worker(&[1, 2], &locals), Err(OffchainErr::NetworkState));
    let attempts = oracle.offchain_worker(&[0x2a, 0, 0, 0], &locals).unwrap();
    assert_eq!(attempts.len(), 1);
    match attempts[0].clone().unwrap() {
        Call::UpdateFeed { message, .. } => {
            assert_eq!(message, OracleMessage { value: 42, authority_index: 1 });
        }
        Call::Other => panic!("not an update"),
    }
}

#[test]
fn offchain_errors_in_words() {
    assert_eq!(OffchainErr::DecodeWorkerStatus.message(), "Offchain error: decoding WorkerStatus failed!");
    assert_eq!(OffchainErr::FailedSigning.message(), "Offchain error: signing failed!");
    assert_eq!(OffchainErr::NetworkState.message(), "Offchain error: fetching network state failed!");
    assert_eq!(OffchainErr::SubmitTransaction.message(), "Offchain error: submitting transaction failed!");
}

#[test]
fn only_admitted_updates_reach_the_window() {
    let mut oracle = oracle_abc();
    assert_eq!(oracle.apply_unsigned(&signed_update(5, 3, 1), 0, 10), Err(InvalidTransaction::BadProof));
    assert_eq!(oracle.apply_unsigned(&signed_update(5, 0, 2), 0, 10), Err(InvalidTransaction::BadProof));
    assert_eq!(oracle.apply_unsigned(&Call::Other, 0, 10), Err(InvalidTransaction::Call));
    assert!(oracle.results(1).is_none());
    let verdict = oracle.apply_unsigned(&signed_update(5, 0, 1), 2, 11).unwrap();
    assert_eq!(verdict.provides, vec![tag(2, &public(1))]);
    assert!(oracle.apply_unsigned(&signed_update(6, 2, 3), 2, 12).is_ok());
    assert_eq!(oracle.apply_unsigned(&signed_update(7, 1, 3), 2, 13), Err(InvalidTransaction::BadProof));
    let result = oracle.results(1).unwrap();
    assert_eq!(result.values(), &vec![5, 6]);
    assert_eq!(result.last_update(), 12);
}

#[test]
fn seed_length_decides_whether_a_key_signs() {
    let oracle = oracle_abc();
    for length in [0usize, 1, 31, 33, 63, 65] {
        let broken = LocalKey { public: public(2), seed: vec![2; length] };
        assert_eq!(oracle.do_update(5, &vec![broken]), vec![Err(OffchainErr::FailedSigning)]);
    }
    let attempts = oracle.do_update(5, &vec![local(2)]);
    assert_eq!(attempts.len(), 1);
    assert!(attempts[0].is_ok());
}

#[test]
fn the_first_local_key_for_an_authority_signs() {
    let oracle = oracle_abc();
    let broken = LocalKey { public: public(2), seed: vec![] };
    assert_eq!(oracle.do_update(5, &vec![broken.clone(), local(2)]), vec![Err(OffchainErr::FailedSigning)]);
    let attempts = oracle.do_update(5, &vec![local(2), broken]);
    assert!(attempts[0].is_ok());
}
