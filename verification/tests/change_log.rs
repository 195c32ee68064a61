use subnet_relay::address::NativeAddress;
use subnet_relay::change_log::{
    DuplicateConfigurationNumber, EnqueueOutcome, StakingChangeLog,
};
use subnet_relay::staking::{
    ChangeOutcome, StakingChange, StakingChangeRequest, StakingOperation, ValidatorSetEntry,
};

fn amount(value: u128) -> Vec<u8> {
    let mut payload = vec![0u8; 16];
    payload.extend_from_slice(&value.to_be_bytes());
    payload
}

fn request(number: u64, op: StakingOperation, validator: u64, payload: Vec<u8>) -> StakingChangeRequest {
    StakingChangeRequest {
        configuration_number: number,
        change: StakingChange { op, payload, validator: NativeAddress::Id(validator) },
    }
}

fn deposit(number: u64, validator: u64, value: u128) -> StakingChangeRequest {
    request(number, StakingOperation::Deposit, validator, amount(value))
}

fn withdraw(number: u64, validator: u64, value: u128) -> StakingChangeRequest {
    request(number, StakingOperation::Withdraw, validator, amount(value))
}

#[test]
fn new_log_is_empty() {
    let mut log = StakingChangeLog::new();
    assert_eq!(log.applied_frontier, 0);
    assert!(log.pending.is_empty());
    assert!(log.validator_set.is_empty());
    let report = log.drain_applicable();
    assert!(report.applied.is_empty());
    assert_eq!(report.frontier, 0);
}

#[test]
fn out_of_order_arrivals_are_applied_in_number_order() {
    let mut log = StakingChangeLog::new();
    assert_eq!(log.enqueue(deposit(1, 7, 10)), Ok(EnqueueOutcome::Buffered));
    assert_eq!(log.enqueue(deposit(3, 7, 30)), Ok(EnqueueOutcome::Buffered));
    assert_eq!(log.enqueue(withdraw(2, 7, 5)), Ok(EnqueueOutcome::Buffered));
    let report = log.drain_applicable();
    let numbers: Vec<u64> =
        report.applied.iter().map(|turn| turn.request.configuration_number).collect();
    assert_eq!(numbers, vec![1, 2, 3]);
    assert_eq!(report.applied[0].request, deposit(1, 7, 10));
    assert_eq!(report.applied[1].request, withdraw(2, 7, 5));
    assert_eq!(report.applied[2].request, deposit(3, 7, 30));
    assert!(report.applied.iter().all(|turn| turn.outcome == ChangeOutcome::Applied));
    assert_eq!(report.frontier, 3);
    assert_eq!(log.applied_frontier, 3);
    assert!(log.pending.is_empty());
    assert_eq!(log.validator_set[0].stake, 35);
}

#[test]
fn changes_past_a_gap_wait() {
    let mut log = StakingChangeLog::new();
    log.enqueue(deposit(2, 7, 20)).unwrap();
    log.enqueue(deposit(3, 7, 30)).unwrap();
    let idle = log.drain_applicable();
    assert!(idle.applied.is_empty());
    assert_eq!(idle.frontier, 0);
    assert_eq!(log.pending.len(), 2);
    assert!(log.validator_set.is_empty());
    log.enqueue(deposit(1, 7, 10)).unwrap();
    log.enqueue(deposit(5, 7, 50)).unwrap();
    let report = log.drain_applicable();
    assert_eq!(report.applied.len(), 3);
    assert_eq!(report.frontier, 3);
    assert_eq!(log.validator_set[0].stake, 60);
    assert_eq!(log.pending.len(), 1);
    assert!(log.pending.contains_key(&5));
}

#[test]
fn overdrawn_withdrawal_keeps_the_stake_and_advances_the_frontier() {
    let mut log = StakingChangeLog::new();
    log.enqueue(deposit(1, 7, 10)).unwrap();
    log.enqueue(withdraw(2, 7, 11)).unwrap();
    log.enqueue(deposit(3, 7, 1)).unwrap();
    let report = log.drain_applicable();
    assert_eq!(report.applied.len(), 3);
    assert_eq!(report.applied[0].outcome, ChangeOutcome::Applied);
    assert_eq!(report.applied[1].outcome, ChangeOutcome::InsufficientStake);
    assert_eq!(report.applied[2].outcome, ChangeOutcome::Applied);
    assert_eq!(report.frontier, 3);
    assert_eq!(log.validator_set[0].stake, 11);
}

#[test]
fn a_lone_overdrawn_withdrawal_uses_up_its_number() {
    let mut log = StakingChangeLog::new();
    log.enqueue(withdraw(1, 7, 1)).unwrap();
    let report = log.drain_applicable();
    assert_eq!(report.applied.len(), 1);
    assert_eq!(report.applied[0].outcome, ChangeOutcome::InsufficientStake);
    assert_eq!(log.applied_frontier, 1);
    assert!(log.validator_set.is_empty());
    assert!(log.pending.is_empty());
}

#[test]
fn malformed_payload_uses_up_its_number() {
    let mut log = StakingChangeLog::new();
    log.enqueue(request(1, StakingOperation::Deposit, 7, vec![1, 2, 3])).unwrap();
    log.enqueue(deposit(2, 7, 4)).unwrap();
    let report = log.drain_applicable();
    assert_eq!(report.applied[0].outcome, ChangeOutcome::MalformedPayload);
    assert_eq!(report.applied[1].outcome, ChangeOutcome::Applied);
    assert_eq!(log.applied_frontier, 2);
    assert_eq!(log.validator_set[0].stake, 4);
}

#[test]
fn enqueue_after_application_is_a_no_op() {
    let mut log = StakingChangeLog::new();
    log.enqueue(deposit(1, 7, 10)).unwrap();
    log.drain_applicable();
    let set_before = log.snapshot();
    assert_eq!(log.enqueue(deposit(1, 7, 10)), Ok(EnqueueOutcome::Stale));
    assert_eq!(log.enqueue(deposit(0, 7, 10)), Ok(EnqueueOutcome::Stale));
    assert!(log.pending.is_empty());
    assert_eq!(log.applied_frontier, 1);
    let report = log.drain_applicable();
    assert!(report.applied.is_empty());
    assert_eq!(log.snapshot(), set_before);
    assert_eq!(log.validator_set[0].stake, 10);
}

#[test]
fn enqueue_of_a_waiting_number() {
    let mut log = StakingChangeLog::new();
    assert_eq!(log.enqueue(deposit(2, 7, 10)), Ok(EnqueueOutcome::Buffered));
    assert_eq!(log.enqueue(deposit(2, 7, 10)), Ok(EnqueueOutcome::AlreadyPending));
    assert_eq!(
        log.enqueue(deposit(2, 7, 11)),
        Err(DuplicateConfigurationNumber { configuration_number: 2 })
    );
    assert_eq!(
        log.enqueue(withdraw(2, 7, 10)),
        Err(DuplicateConfigurationNumber { configuration_number: 2 })
    );
    assert_eq!(
        log.enqueue(deposit(2, 8, 10)),
        Err(DuplicateConfigurationNumber { configuration_number: 2 })
    );
    assert_eq!(log.pending.len(), 1);
    assert_eq!(log.pending.get(&2), Some(&deposit(2, 7, 10).change));
}

#[test]
fn arrival_order_does_not_change_the_validator_set() {
    let requests = vec![
        deposit(1, 7, 10),
        deposit(2, 8, 5),
        withdraw(3, 7, 4),
        request(4, StakingOperation::SetMetadata, 8, vec![1, 2]),
        withdraw(5, 8, 6),
        deposit(6, 9, 1),
    ];
    let mut in_order = StakingChangeLog::new();
    for r in requests.iter() {
        in_order.enqueue(r.clone()).unwrap();
        in_order.drain_applicable();
    }
    let mut shuffled = StakingChangeLog::new();
    for i in [4usize, 1, 5, 0, 3, 2] {
        shuffled.enqueue(requests[i].clone()).unwrap();
    }
    let report = shuffled.drain_applicable();
    assert_eq!(report.applied.len(), 6);
    assert_eq!(shuffled.snapshot(), in_order.snapshot());
    assert_eq!(
        shuffled.snapshot(),
        vec![
            ValidatorSetEntry { validator: NativeAddress::Id(7), stake: 6, metadata: vec![] },
            ValidatorSetEntry { validator: NativeAddress::Id(8), stake: 5, metadata: vec![1, 2] },
            ValidatorSetEntry { validator: NativeAddress::Id(9), stake: 1, metadata: vec![] },
        ]
    );
    assert_eq!(shuffled.applied_frontier, in_order.applied_frontier);
}

#[test]
fn drain_stops_at_the_greatest_number() {
    let mut log = StakingChangeLog::new();
    log.applied_frontier = u64::MAX - 1;
    assert_eq!(log.enqueue(deposit(u64::MAX, 7, 1)), Ok(EnqueueOutcome::Buffered));
    let report = log.drain_applicable();
    assert_eq!(report.applied.len(), 1);
    assert_eq!(report.frontier, u64::MAX);
    let again = log.drain_applicable();
    assert!(again.applied.is_empty());
    assert_eq!(log.enqueue(deposit(u64::MAX, 7, 1)), Ok(EnqueueOutcome::Stale));
}

#[test]
fn snapshot_is_a_copy() {
    let mut log = StakingChangeLog::new();
    log.enqueue(deposit(1, 7, 10)).unwrap();
    log.drain_applicable();
    let copy = log.snapshot();
    log.enqueue(deposit(2, 7, 10)).unwrap();
    log.drain_applicable();
    assert_eq!(copy[0].stake, 10);
    assert_eq!(log.validator_set[0].stake, 20);
}

#[test]
fn restored_log_goes_on_from_its_frontier() {
    let records = vec![
        ValidatorSetEntry { validator: NativeAddress::Id(7), stake: 10, metadata: vec![1] },
        ValidatorSetEntry { validator: NativeAddress::Id(8), stake: 20, metadata: vec![] },
    ];
    let mut log = StakingChangeLog::restore(4, records.clone()).unwrap();
    assert_eq!(log.applied_frontier, 4);
    assert!(log.pending.is_empty());
    assert_eq!(log.snapshot(), records);
    assert_eq!(log.enqueue(deposit(4, 7, 1)), Ok(EnqueueOutcome::Stale));
    assert_eq!(log.enqueue(deposit(5, 7, 1)), Ok(EnqueueOutcome::Buffered));
    let report = log.drain_applicable();
    assert_eq!(report.frontier, 5);
    assert_eq!(log.validator_set[0].stake, 11);
}

#[test]
fn restore_refuses_a_validator_with_two_records() {
    let records = vec![
        ValidatorSetEntry { validator: NativeAddress::Id(7), stake: 10, metadata: vec![] },
        ValidatorSetEntry { validator: NativeAddress::Id(8), stake: 20, metadata: vec![] },
        ValidatorSetEntry { validator: NativeAddress::Id(7), stake: 30, metadata: vec![] },
    ];
    assert!(StakingChangeLog::restore(4, records).is_none());
    assert!(StakingChangeLog::restore(0, Vec::new()).is_some());
}
