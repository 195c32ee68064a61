//! Staking changes of one subnet, ordered by configuration number.

use crate::address::{
    bytes_eq, copy_bytes, native_of_evm, to_native, AddressModel, EvmAddress, NativeAddress,
};
use std::collections::HashMap;
use vstd::prelude::*;

verus! {

broadcast use vstd::std_specs::hash::group_hash_axioms;

/// Orders the staking changes of one subnet.
pub type ConfigurationNumber = u64;

/// What a staking change does to a validator's record.
#[derive(Clone, Copy, Debug, PartialEq, Eq, Structural)]
pub enum StakingOperation {
    Deposit,
    Withdraw,
    SetMetadata,
}

/// The operation that a wire code stands for. Codes other than 0 and 1 are
/// read as `SetMetadata`.
pub open spec fn operation_of_code(code: u8) -> StakingOperation {
    if code == 0 {
        StakingOperation::Deposit
    } else if code == 1 {
        StakingOperation::Withdraw
    } else {
        StakingOperation::SetMetadata
    }
}

impl vstd::std_specs::convert::FromSpecImpl<u8> for StakingOperation {
    open spec fn obeys_from_spec() -> bool {
        true
    }

    open spec fn from_spec(value: u8) -> Self {
        operation_of_code(value)
    }
}

impl From<u8> for StakingOperation {
    fn from(value: u8) -> (op: Self)
    {
        match value {
            0 => Self::Deposit,
            1 => Self::Withdraw,
            _ => Self::SetMetadata,
        }
    }
}

/// A change to one validator's record.
#[derive(Clone, Debug, PartialEq, Eq)]
pub struct StakingChange {
    pub op: StakingOperation,
    /// An amount for a deposit or a withdrawal, free-form bytes for metadata.
    pub payload: Vec<u8>,
    pub validator: NativeAddress,
}

/// What a staking change is, as a mathematical value.
pub struct ChangeModel {
    pub op: StakingOperation,
    pub payload: Seq<u8>,
    pub validator: AddressModel,
}

impl View for StakingChange {
    type V = ChangeModel;

    open spec fn view(&self) -> ChangeModel {
        ChangeModel { op: self.op, payload: self.payload@, validator: self.validator@ }
    }
}

impl StakingChange {
    /// Whether both changes have the same operation, payload and validator.
    pub fn same_as(&self, other: &StakingChange) -> (same: bool)
        ensures
            same == (self@ == other@),
    {
        self.op == other.op && bytes_eq(&self.payload, &other.payload) && self.validator.same_as(
            &other.validator,
        )
    }

    /// A copy of this change.
    pub fn duplicate(&self) -> (copy: StakingChange)
        ensures
            copy@ == self@,
    {
        StakingChange {
            op: self.op,
            payload: copy_bytes(&self.payload),
            validator: self.validator.duplicate(),
        }
    }
}

/// A staking change with the configuration number that orders it.
#[derive(Clone, Debug, PartialEq, Eq)]
pub struct StakingChangeRequest {
    pub configuration_number: ConfigurationNumber,
    pub change: StakingChange,
}

/// A staking request as the parent chain's contract emits it.
#[derive(Clone, Debug, PartialEq, Eq)]
pub struct NewStakingRequest {
    pub op: u8,
    pub validator: EvmAddress,
    pub payload: Vec<u8>,
    pub configuration_number: u64,
}

/// The validator of an emitted request has no native address.
#[derive(Clone, Copy, Debug, PartialEq, Eq, Structural)]
pub struct AddressTranslationError;

impl StakingChangeRequest {
    /// The request that an emitted event stands for: the same number and
    /// payload, the operation of its code, and the validator's native
    /// address. Fails where the validator is not a 20-byte address.
    pub fn try_from(value: NewStakingRequest) -> (made: Result<
        StakingChangeRequest,
        AddressTranslationError,
    >)
        ensures
            made is Ok == value.validator.wf(),
            made matches Ok(request) ==> request.configuration_number
                == value.configuration_number && request.change@ == (ChangeModel {
                op: operation_of_code(value.op),
                payload: value.payload@,
                validator: native_of_evm(value.validator@),
            }),
    {
        if value.validator.bytes.len() != 20 {
            return Err(AddressTranslationError);
        }
        let validator = to_native(&value.validator);
        Ok(
            StakingChangeRequest {
                configuration_number: value.configuration_number,
                change: StakingChange {
                    op: StakingOperation::from(value.op),
                    payload: value.payload,
                    validator,
                },
            },
        )
    }
}

/// Length in bytes of the payload of a deposit or a withdrawal.
pub const AMOUNT_PAYLOAD_LEN: usize = 32;

/// Number of leading bytes of an amount payload that must be zero.
pub const AMOUNT_PADDING_LEN: usize = 16;

/// 256 to the power `n`.
pub open spec fn pow256(n: nat) -> nat
    decreases n,
{
    if n == 0 {
        1
    } else {
        256 * pow256((n - 1) as nat)
    }
}

/// The number that the bytes spell, most significant byte first.
pub open spec fn be_value(bytes: Seq<u8>) -> nat
    decreases bytes.len(),
{
    if bytes.len() == 0 {
        0
    } else {
        be_value(bytes.drop_last()) * 256 + bytes.last() as nat
    }
}

/// The amount that a payload encodes: 32 bytes, most significant first, of
/// which the first 16 are zero. Any other payload encodes no amount.
pub open spec fn amount_of_payload(payload: Seq<u8>) -> Option<u128> {
    if payload.len() == AMOUNT_PAYLOAD_LEN && (forall|i: int|
        0 <= i < AMOUNT_PADDING_LEN ==> payload[i] == 0u8) {
        Some(be_value(payload.subrange(AMOUNT_PADDING_LEN as int, AMOUNT_PAYLOAD_LEN as int)) as u128)
    } else {
        None
    }
}

/// The bytes spell a number below 256 to the power of their count.
pub proof fn lemma_be_value_bound(bytes: Seq<u8>)
    ensures
        be_value(bytes) < pow256(bytes.len()),
    decreases bytes.len(),
{
    if bytes.len() > 0 {
        lemma_be_value_bound(bytes.drop_last());
    }
}

proof fn lemma_pow256_monotone(a: nat, b: nat)
    requires
        a <= b,
    ensures
        pow256(a) <= pow256(b),
    decreases b,
{
    if a < b {
        lemma_pow256_monotone(a, (b - 1) as nat);
    }
}

proof fn lemma_pow256_of_16()
    ensures
        pow256(16) == 0x1_0000_0000_0000_0000_0000_0000_0000_0000,
{
    reveal_with_fuel(pow256, 17);
}

/// The amount that a payload encodes, if it encodes one.
pub fn parse_amount(payload: &Vec<u8>) -> (amount: Option<u128>)
    ensures
        amount == amount_of_payload(payload@),
{
    if payload.len() != AMOUNT_PAYLOAD_LEN {
        return None;
    }
    let mut i: usize = 0;
    while i < AMOUNT_PADDING_LEN
        invariant
            i <= AMOUNT_PADDING_LEN,
            payload@.len() == AMOUNT_PAYLOAD_LEN,
            forall|j: int| 0 <= j < i ==> payload@[j] == 0u8,
        decreases AMOUNT_PADDING_LEN - i,
    {
        if payload[i] != 0 {
            return None;
        }
        i += 1;
    }
    let ghost digits = payload@.subrange(AMOUNT_PADDING_LEN as int, AMOUNT_PAYLOAD_LEN as int);
    let mut value: u128 = 0;
    let mut k: usize = 0;
    while k < 16
        invariant
            k <= 16,
            payload@.len() == AMOUNT_PAYLOAD_LEN,
            digits == payload@.subrange(AMOUNT_PADDING_LEN as int, AMOUNT_PAYLOAD_LEN as int),
            value as nat == be_value(digits.subrange(0, k as int)),
        decreases 16 - k,
    {
        proof {
            lemma_be_value_bound(digits.subrange(0, k as int));
            lemma_pow256_monotone(k as nat, 15);
            lemma_pow256_of_16();
            assert(pow256(16) == 256 * pow256(15));
            assert(digits.subrange(0, k + 1).drop_last() =~= digits.subrange(0, k as int));
        }
        value = value * 256 + payload[k + AMOUNT_PADDING_LEN] as u128;
        k += 1;
    }
    proof {
        assert(digits.subrange(0, 16) =~= digits);
    }
    Some(value)
}

/// The derived record of one validator.
#[derive(Clone, Debug, PartialEq, Eq)]
pub struct ValidatorSetEntry {
    pub validator: NativeAddress,
    pub stake: u128,
    pub metadata: Vec<u8>,
}

/// What a validator's record is, as a mathematical value.
pub struct EntryModel {
    pub validator: AddressModel,
    pub stake: u128,
    pub metadata: Seq<u8>,
}

impl View for ValidatorSetEntry {
    type V = EntryModel;

    open spec fn view(&self) -> EntryModel {
        EntryModel { validator: self.validator@, stake: self.stake, metadata: self.metadata@ }
    }
}

impl ValidatorSetEntry {
    /// A copy of this record.
    pub fn duplicate(&self) -> (copy: ValidatorSetEntry)
        ensures
            copy@ == self@,
    {
        ValidatorSetEntry {
            validator: self.validator.duplicate(),
            stake: self.stake,
            metadata: copy_bytes(&self.metadata),
        }
    }
}

/// The records of a validator set, in the order in which the validators
/// first appeared.
pub open spec fn set_model(entries: Seq<ValidatorSetEntry>) -> Seq<EntryModel> {
    Seq::new(entries.len(), |i: int| entries[i]@)
}

/// No validator has two records.
pub open spec fn distinct_validators(set: Seq<EntryModel>) -> bool {
    forall|i: int, j: int|
        0 <= i < set.len() && 0 <= j < set.len() && i != j ==> (#[trigger] set[i]).validator != (
        #[trigger] set[j]).validator
}

/// Whether the validator has a record.
pub open spec fn has_validator(set: Seq<EntryModel>, validator: AddressModel) -> bool {
    exists|i: int| 0 <= i < set.len() && (#[trigger] set[i]).validator == validator
}

/// Where the validator's record stands, if it has one.
pub open spec fn index_of_validator(set: Seq<EntryModel>, validator: AddressModel) -> int {
    choose|i: int| 0 <= i < set.len() && (#[trigger] set[i]).validator == validator
}

/// The validator's stake: zero without a record.
pub open spec fn stake_of(set: Seq<EntryModel>, validator: AddressModel) -> u128 {
    if has_validator(set, validator) {
        set[index_of_validator(set, validator)].stake
    } else {
        0
    }
}

/// The validator's metadata: empty without a record.
pub open spec fn metadata_of(set: Seq<EntryModel>, validator: AddressModel) -> Seq<u8> {
    if has_validator(set, validator) {
        set[index_of_validator(set, validator)].metadata
    } else {
        Seq::empty()
    }
}

/// What became of a change when its turn came.
#[derive(Clone, Copy, Debug, PartialEq, Eq, Structural)]
pub enum ChangeOutcome {
    /// The validator's record was changed.
    Applied,
    /// A withdrawal of more than the validator's stake: nothing changed.
    InsufficientStake,
    /// A deposit or withdrawal whose payload encodes no amount: nothing changed.
    MalformedPayload,
    /// A deposit that would take the stake past the greatest amount that can
    /// be held: nothing changed.
    StakeOverflow,
}

/// What becomes of a change on a validator set.
pub open spec fn outcome_of(set: Seq<EntryModel>, change: ChangeModel) -> ChangeOutcome {
    match change.op {
        StakingOperation::SetMetadata => ChangeOutcome::Applied,
        StakingOperation::Deposit => match amount_of_payload(change.payload) {
            None => ChangeOutcome::MalformedPayload,
            Some(amount) => if stake_of(set, change.validator) + amount > u128::MAX {
                ChangeOutcome::StakeOverflow
            } else {
                ChangeOutcome::Applied
            },
        },
        StakingOperation::Withdraw => match amount_of_payload(change.payload) {
            None => ChangeOutcome::MalformedPayload,
            Some(amount) => if amount > stake_of(set, change.validator) {
                ChangeOutcome::InsufficientStake
            } else {
                ChangeOutcome::Applied
            },
        },
    }
}

/// The validator's record after a change that is applied: a deposit adds
/// to the stake, a withdrawal takes from it, metadata replaces the blob.
pub open spec fn entry_after(set: Seq<EntryModel>, change: ChangeModel) -> EntryModel {
    let stake = stake_of(set, change.validator);
    let metadata = metadata_of(set, change.validator);
    match change.op {
        StakingOperation::Deposit => EntryModel {
            validator: change.validator,
            stake: (stake + amount_of_payload(change.payload).unwrap()) as u128,
            metadata,
        },
        StakingOperation::Withdraw => EntryModel {
            validator: change.validator,
            stake: (stake - amount_of_payload(change.payload).unwrap()) as u128,
            metadata,
        },
        StakingOperation::SetMetadata => EntryModel {
            validator: change.validator,
            stake,
            metadata: change.payload,
        },
    }
}

/// The validator set after a change had its turn. A change that is not
/// applied leaves the set as it was; one that is applied replaces the
/// validator's record, or adds one at the end.
pub open spec fn set_after(set: Seq<EntryModel>, change: ChangeModel) -> Seq<EntryModel> {
    if outcome_of(set, change) != ChangeOutcome::Applied {
        set
    } else if has_validator(set, change.validator) {
        set.update(index_of_validator(set, change.validator), entry_after(set, change))
    } else {
        set.push(entry_after(set, change))
    }
}

/// The validator set after the changes had their turns, first to last.
pub open spec fn apply_all(set: Seq<EntryModel>, changes: Seq<ChangeModel>) -> Seq<EntryModel>
    decreases changes.len(),
{
    if changes.len() == 0 {
        set
    } else {
        set_after(apply_all(set, changes.drop_last()), changes.last())
    }
}

/// Where the validator's record stands in the set, if it has one.
pub fn find_validator(entries: &Vec<ValidatorSetEntry>, validator: &NativeAddress) -> (found:
    Option<usize>)
    requires
        distinct_validators(set_model(entries@)),
    ensures
        found is Some == has_validator(set_model(entries@), validator@),
        found matches Some(i) ==> i < entries@.len() && i == index_of_validator(
            set_model(entries@),
            validator@,
        ),
{
    let ghost set = set_model(entries@);
    let mut i: usize = 0;
    while i < entries.len()
        invariant
            i <= entries.len(),
            set == set_model(entries@),
            distinct_validators(set),
            forall|j: int| 0 <= j < i ==> (#[trigger] set[j]).validator != validator@,
        decreases entries.len() - i,
    {
        if entries[i].validator.same_as(validator) {
            proof {
                assert(set[i as int].validator == validator@);
                let k = index_of_validator(set, validator@);
                assert(set[k].validator == validator@);
            }
            return Some(i);
        }
        i += 1;
    }
    None
}

/// Whether no validator has two records.
pub fn has_distinct_validators(entries: &Vec<ValidatorSetEntry>) -> (distinct: bool)
    ensures
        distinct == distinct_validators(set_model(entries@)),
{
    let ghost set = set_model(entries@);
    let mut i: usize = 0;
    while i < entries.len()
        invariant
            i <= entries.len(),
            set == set_model(entries@),
            forall|a: int, b: int|
                0 <= a < b < i ==> (#[trigger] set[a]).validator != (#[trigger] set[b]).validator,
        decreases entries.len() - i,
    {
        let mut j: usize = 0;
        while j < i
            invariant
                j <= i < entries.len(),
                set == set_model(entries@),
                forall|a: int| 0 <= a < j ==> (#[trigger] set[a]).validator != set[i as int].validator,
            decreases i - j,
        {
            if entries[j].validator.same_as(&entries[i].validator) {
                proof {
                    assert(set[j as int].validator == set[i as int].validator);
                }
                return false;
            }
            j += 1;
        }
        i += 1;
    }
    proof {
        assert forall|a: int, b: int|
            0 <= a < set.len() && 0 <= b < set.len() && a != b implies (#[trigger] set[a]).validator
            != (#[trigger] set[b]).validator by {
            if a < b {
                assert(set[a].validator != set[b].validator);
            } else {
                assert(set[b].validator != set[a].validator);
            }
        }
    }
    true
}

/// Gives a change its turn on a validator set, and says what became of it.
pub fn apply_one(entries: &mut Vec<ValidatorSetEntry>, change: &StakingChange) -> (outcome:
    ChangeOutcome)
    requires
        distinct_validators(set_model(old(entries)@)),
    ensures
        outcome == outcome_of(set_model(old(entries)@), change@),
        set_model(final(entries)@) == set_after(set_model(old(entries)@), change@),
        distinct_validators(set_model(final(entries)@)),
{
    let ghost set = set_model(entries@);
    let found = find_validator(entries, &change.validator);
    let stake: u128 = match found {
        Some(i) => entries[i].stake,
        None => 0,
    };
    let new_stake: u128 = match change.op {
        StakingOperation::SetMetadata => stake,
        StakingOperation::Deposit => match parse_amount(&change.payload) {
            None => {
                return ChangeOutcome::MalformedPayload;
            },
            Some(amount) => {
                if amount > u128::MAX - stake {
                    return ChangeOutcome::StakeOverflow;
                }
                stake + amount
            },
        },
        StakingOperation::Withdraw => match parse_amount(&change.payload) {
            None => {
                return ChangeOutcome::MalformedPayload;
            },
            Some(amount) => {
                if amount > stake {
                    return ChangeOutcome::InsufficientStake;
                }
                stake - amount
            },
        },
    };
    match found {
        Some(i) => {
            let metadata = match change.op {
                StakingOperation::SetMetadata => copy_bytes(&change.payload),
                _ => copy_bytes(&entries[i].metadata),
            };
            let entry = ValidatorSetEntry {
                validator: change.validator.duplicate(),
                stake: new_stake,
                metadata,
            };
            entries.set(i, entry);
            proof {
                assert(entry@ == entry_after(set, change@));
                assert(set_model(entries@) =~= set.update(i as int, entry@));
            }
        },
        None => {
            let metadata = match change.op {
                StakingOperation::SetMetadata => copy_bytes(&change.payload),
                _ => Vec::new(),
            };
            let entry = ValidatorSetEntry {
                validator: change.validator.duplicate(),
                stake: new_stake,
                metadata,
            };
            entries.push(entry);
            proof {
                assert(entry@.metadata =~= entry_after(set, change@).metadata);
                assert(entry@ == entry_after(set, change@));
                assert(set_model(entries@) =~= set.push(entry@));
            }
        },
    }
    ChangeOutcome::Applied
}

/// A change that is not applied changes no record.
pub proof fn lemma_rejected_change_changes_nothing(set: Seq<EntryModel>, change: ChangeModel)
    requires
        outcome_of(set, change) != ChangeOutcome::Applied,
    ensures
        set_after(set, change) == set,
{
}

/// A withdrawal of more than the validator's stake changes no record.
pub proof fn lemma_overdrawn_withdrawal_changes_nothing(set: Seq<EntryModel>, change: ChangeModel)
    requires
        change.op == StakingOperation::Withdraw,
        amount_of_payload(change.payload) matches Some(amount) && amount > stake_of(
            set,
            change.validator,
        ),
    ensures
        outcome_of(set, change) == ChangeOutcome::InsufficientStake,
        set_after(set, change) == set,
        stake_of(set_after(set, change), change.validator) == stake_of(set, change.validator),
{
}

} // verus!
