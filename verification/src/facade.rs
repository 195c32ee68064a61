//! The request interface over the pool: every operation is first routed to
//! the manager of its subnet, and a subnet that is not registered is
//! refused before any manager is reached.

use crate::address::{AddressModel, NativeAddress};
use crate::checkpoint::FinalizedCheckpoint;
use crate::pool::{SubnetConfig, SubnetManagerPool};
use crate::staking::StakingChangeRequest;
use crate::subnet::SubnetID;
use std::sync::Arc;
use vstd::prelude::*;

verus! {

/// The operations that a manager offers.
#[derive(Clone, Copy, Debug, PartialEq, Eq, Structural)]
pub enum Operation {
    SendValue,
    ApplyStakingChange,
    FetchCheckpointTemplate,
    SubmitCheckpoint,
}

/// An operation with what it needs.
#[derive(Clone, Debug, PartialEq, Eq)]
pub enum ManagerRequest {
    SendValue { from: NativeAddress, to: NativeAddress, amount: u128 },
    ApplyStakingChange(StakingChangeRequest),
    FetchCheckpointTemplate { epoch: i64 },
    SubmitCheckpoint(FinalizedCheckpoint),
}

/// A request together with the manager that is to carry it out.
#[derive(Clone, Debug, PartialEq, Eq)]
pub struct ManagerCall {
    pub manager: u64,
    pub request: ManagerRequest,
}

/// Why a request failed.
#[derive(Clone, Copy, Debug, PartialEq, Eq, Structural)]
pub enum FacadeErrorKind {
    /// The subnet is not registered in the pool.
    SubnetNotFound,
    /// No sender was named and the subnet has no account to send from.
    NoSender,
    /// The manager or its chain failed, or did not answer in time.
    ManagerOperationFailed,
}

/// A failed request: why, in which operation, on which subnet.
#[derive(Clone, Debug, PartialEq, Eq)]
pub struct FacadeError {
    pub kind: FacadeErrorKind,
    pub operation: Operation,
    pub subnet: SubnetID,
}

/// How a manager's work on a call ended.
#[derive(Clone, Copy, Debug, PartialEq, Eq, Structural)]
pub enum ManagerOutcome {
    Done,
    Failed,
    TimedOut,
}

/// The operation that a request asks for.
pub open spec fn operation_of(request: ManagerRequest) -> Operation {
    match request {
        ManagerRequest::SendValue { .. } => Operation::SendValue,
        ManagerRequest::ApplyStakingChange(_) => Operation::ApplyStakingChange,
        ManagerRequest::FetchCheckpointTemplate { .. } => Operation::FetchCheckpointTemplate,
        ManagerRequest::SubmitCheckpoint(_) => Operation::SubmitCheckpoint,
    }
}

impl ManagerRequest {
    /// The operation that this request asks for.
    pub fn operation(&self) -> (operation: Operation)
        ensures
            operation == operation_of(*self),
    {
        match self {
            ManagerRequest::SendValue { .. } => Operation::SendValue,
            ManagerRequest::ApplyStakingChange(_) => Operation::ApplyStakingChange,
            ManagerRequest::FetchCheckpointTemplate { .. } => Operation::FetchCheckpointTemplate,
            ManagerRequest::SubmitCheckpoint(_) => Operation::SubmitCheckpoint,
        }
    }
}

/// Whether an operation may be tried again after a failure without harm:
/// only the one that reads.
pub fn is_safe_to_retry(operation: Operation) -> (safe: bool)
    ensures
        safe == (operation == Operation::FetchCheckpointTemplate),
{
    match operation {
        Operation::FetchCheckpointTemplate => true,
        _ => false,
    }
}

/// Finds the manager for a request. A subnet that is not registered is
/// refused with `SubnetNotFound`, and the error names subnet and operation.
pub fn route(pool: &SubnetManagerPool, subnet: &SubnetID, request: ManagerRequest) -> (answer:
    Result<ManagerCall, FacadeError>)
    requires
        pool.wf(),
    ensures
        pool.has(subnet@) ==> answer == Ok::<ManagerCall, FacadeError>(
            ManagerCall { manager: pool.connection_of(subnet@).manager, request },
        ),
        !pool.has(subnet@) ==> (answer matches Err(error) && error.kind
            == FacadeErrorKind::SubnetNotFound && error.operation == operation_of(request)
            && error.subnet@ == subnet@),
{
    match pool.get(subnet) {
        Some(connection) => Ok(ManagerCall { manager: connection.manager, request }),
        None => Err(
            FacadeError {
                kind: FacadeErrorKind::SubnetNotFound,
                operation: request.operation(),
                subnet: subnet.duplicate(),
            },
        ),
    }
}

/// What the caller is told once the manager has ended its work: success
/// where it was done, otherwise `ManagerOperationFailed` with subnet and
/// operation.
pub fn conclude(operation: Operation, subnet: &SubnetID, outcome: ManagerOutcome) -> (answer:
    Result<(), FacadeError>)
    ensures
        outcome == ManagerOutcome::Done ==> answer is Ok,
        outcome != ManagerOutcome::Done ==> (answer matches Err(error) && error.kind
            == FacadeErrorKind::ManagerOperationFailed && error.operation == operation
            && error.subnet@ == subnet@),
{
    match outcome {
        ManagerOutcome::Done => Ok(()),
        _ => Err(
            FacadeError {
                kind: FacadeErrorKind::ManagerOperationFailed,
                operation,
                subnet: subnet.duplicate(),
            },
        ),
    }
}

/// The sender of a transfer: the one that was named, else the first account
/// of the subnet, if it has one.
pub open spec fn sender_of(config: SubnetConfig, named: Option<NativeAddress>) -> Option<
    AddressModel,
> {
    match named {
        Some(sender) => Some(sender@),
        None => if config.accounts@.len() > 0 {
            Some(config.accounts@[0]@)
        } else {
            None
        },
    }
}

/// Plans transfers of value within a subnet of the pool.
pub struct SendValueHandler {
    pub pool: Arc<SubnetManagerPool>,
}

impl SendValueHandler {
    /// A handler over the pool.
    pub fn new(pool: Arc<SubnetManagerPool>) -> (handler: SendValueHandler)
        ensures
            handler.pool == pool,
    {
        SendValueHandler { pool }
    }

    /// The call that sends `amount` to `to` within `subnet`. The pool is
    /// asked first: a subnet that is not registered is refused. Where no
    /// sender is named, the subnet's first account sends.
    pub fn plan(
        &self,
        subnet: &SubnetID,
        from: Option<NativeAddress>,
        to: NativeAddress,
        amount: u128,
    ) -> (answer: Result<ManagerCall, FacadeError>)
        requires
            self.pool.wf(),
        ensures
            !self.pool.has(subnet@) ==> (answer matches Err(error) && error.kind
                == FacadeErrorKind::SubnetNotFound),
            self.pool.has(subnet@) && sender_of(
                self.pool.connection_of(subnet@).subnet_config,
                from,
            ) is None ==> (answer matches Err(error) && error.kind == FacadeErrorKind::NoSender),
            self.pool.has(subnet@) ==> (sender_of(
                self.pool.connection_of(subnet@).subnet_config,
                from,
            ) matches Some(sender) ==> (answer matches Ok(call) && call.manager
                == self.pool.connection_of(subnet@).manager && (call.request matches ManagerRequest::SendValue {
                from: planned_from,
                to: planned_to,
                amount: planned_amount,
            } && planned_from@ == sender && planned_to == to && planned_amount == amount))),
            answer matches Err(error) ==> error.operation == Operation::SendValue && error.subnet@
                == subnet@,
    {
        let connection = match self.pool.get(subnet) {
            Some(connection) => connection,
            None => {
                return Err(
                    FacadeError {
                        kind: FacadeErrorKind::SubnetNotFound,
                        operation: Operation::SendValue,
                        subnet: subnet.duplicate(),
                    },
                );
            },
        };
        let sender = match from {
            Some(sender) => sender,
            None => {
                if connection.subnet_config.accounts.len() == 0 {
                    return Err(
                        FacadeError {
                            kind: FacadeErrorKind::NoSender,
                            operation: Operation::SendValue,
                            subnet: subnet.duplicate(),
                        },
                    );
                }
                connection.subnet_config.accounts[0].duplicate()
            },
        };
        Ok(
            ManagerCall {
                manager: connection.manager,
                request: ManagerRequest::SendValue { from: sender, to, amount },
            },
        )
    }
}

} // verus!
