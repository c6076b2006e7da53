use phala_types::messaging::{
    DispatchMasterKeyEvent, GatekeeperChange, GatekeeperEvent, GatekeeperLaunch, KeyDistribution,
    MasterPubkeyEvent, NewGatekeeperEvent, RandomNumberEvent, RemoveGatekeeperEvent,
    RotateMasterKeyEvent, SettleInfo, SystemEvent, WorkerEvent, WorkerEventWithKey,
    WorkingInfoUpdateEvent,
};
use phala_types::primitives::Public;
use phala_types::WorkerIdentity;

#[test]
fn new_update_event_is_empty() {
    let e = WorkingInfoUpdateEvent::new(17u32, 1000);
    assert_eq!(e.block_number, 17);
    assert_eq!(e.timestamp_ms, 1000);
    assert!(e.offline.is_empty() && e.recovered_to_online.is_empty() && e.settle.is_empty());
    assert!(e.is_empty());
}

#[test]
fn default_update_event_is_new_event_of_default_block() {
    let d: WorkingInfoUpdateEvent<u32> = Default::default();
    assert_eq!(d, WorkingInfoUpdateEvent::new(0u32, 0));
    assert!(d.is_empty());
    let made = WorkingInfoUpdateEvent::new(5u32, 9);
    assert_eq!(made, WorkingInfoUpdateEvent { block_number: 5, timestamp_ms: 9, ..Default::default() });
}

#[test]
fn update_event_with_any_report_is_not_empty() {
    let mut e = WorkingInfoUpdateEvent::new(1u32, 2);
    e.offline.push(Public([1; 32]));
    assert!(!e.is_empty());
    let mut e = WorkingInfoUpdateEvent::new(1u32, 2);
    e.recovered_to_online.push(Public([1; 32]));
    assert!(!e.is_empty());
    let mut e = WorkingInfoUpdateEvent::new(1u32, 2);
    e.settle.push(SettleInfo { pubkey: Public([1; 32]), v: 1, payout: 2, treasury: 3 });
    assert!(!e.is_empty());
}

#[test]
fn worker_event_carries_key_and_event() {
    match SystemEvent::new_worker_event(Public([4; 32]), WorkerEvent::BenchScore(9)) {
        SystemEvent::WorkerEvent(WorkerEventWithKey { pubkey, event: WorkerEvent::BenchScore(s) }) => {
            assert_eq!(pubkey, Public([4; 32]));
            assert_eq!(s, 9);
        }
        _ => panic!("wrong event"),
    }
}

#[test]
fn key_hex_is_lowercase_hex() {
    let mut bytes = [0u8; 32];
    bytes[0] = 0xab;
    bytes[1] = 0x0f;
    bytes[31] = 0x90;
    let text = Public(bytes).to_hex();
    assert_eq!(text.len(), 64);
    assert!(text.starts_with("ab0f00"));
    assert!(text.ends_with("0090"));
    assert!(text.chars().all(|c| matches!(c, '0'..='9' | 'a'..='f')));
    let decoded: Vec<u8> = (0..32)
        .map(|i| u8::from_str_radix(&text[2 * i..2 * i + 2], 16).unwrap())
        .collect();
    assert_eq!(decoded, bytes.to_vec());
}

#[test]
fn gatekeeper_launch_constructors() {
    let a = Public([1; 32]);
    let b = Public([2; 32]);
    assert_eq!(
        GatekeeperLaunch::first_gatekeeper(a, b),
        GatekeeperLaunch::FirstGatekeeper(NewGatekeeperEvent { pubkey: a, ecdh_pubkey: b })
    );
    assert_eq!(
        GatekeeperLaunch::master_pubkey_on_chain(a),
        GatekeeperLaunch::MasterPubkeyOnChain(MasterPubkeyEvent { master_pubkey: a })
    );
    assert_eq!(
        GatekeeperLaunch::master_pubkey_rotated(b),
        GatekeeperLaunch::MasterPubkeyRotated(MasterPubkeyEvent { master_pubkey: b })
    );
    let ids = vec![WorkerIdentity { pubkey: a, ecdh_pubkey: b }];
    assert_eq!(
        GatekeeperLaunch::rotate_master_key(3, ids.clone()),
        GatekeeperLaunch::RotateMasterKey(RotateMasterKeyEvent { rotation_id: 3, gk_identities: ids })
    );
}

#[test]
fn gatekeeper_change_constructors() {
    let a = Public([1; 32]);
    let b = Public([2; 32]);
    assert_eq!(
        GatekeeperChange::gatekeeper_registered(a, b),
        GatekeeperChange::Registered(NewGatekeeperEvent { pubkey: a, ecdh_pubkey: b })
    );
    assert_eq!(
        GatekeeperChange::gatekeeper_unregistered(a),
        GatekeeperChange::Unregistered(RemoveGatekeeperEvent { pubkey: a })
    );
}

#[test]
fn master_key_distribution_constructor() {
    let a = Public([1; 32]);
    let b = Public([2; 32]);
    let d: KeyDistribution<u32> = KeyDistribution::master_key_distribution(a, b, vec![5, 6], [3; 12]);
    assert_eq!(
        d,
        KeyDistribution::MasterKeyDistribution(DispatchMasterKeyEvent {
            dest: a,
            ecdh_pubkey: b,
            encrypted_master_key: vec![5, 6],
            iv: [3; 12],
        })
    );
}

#[test]
fn random_number_constructor() {
    assert_eq!(
        GatekeeperEvent::new_random_number(8, [1; 32], [2; 32]),
        GatekeeperEvent::NewRandomNumber(RandomNumberEvent {
            block_number: 8,
            random_number: [1; 32],
            last_random_number: [2; 32],
        })
    );
}
