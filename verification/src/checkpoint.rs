//! Checkpoint templates: what a subnet hands up to its parent at an epoch,
//! and the structural rules that a template must keep before it is signed.

use crate::subnet::SubnetID;
use vstd::prelude::*;

verus! {

/// Points at the checkpoint that came before.
#[derive(Clone, Debug, PartialEq, Eq)]
pub struct CheckpointRef {
    pub epoch: i64,
    pub hash: Vec<u8>,
}

/// Points at a checkpoint of a child subnet.
#[derive(Clone, Debug, PartialEq, Eq)]
pub struct ChildCheckpoint {
    pub source: SubnetID,
    pub epoch: i64,
    pub hash: Vec<u8>,
}

/// Points at a cross-subnet message.
#[derive(Clone, Debug, PartialEq, Eq)]
pub struct MessageRef {
    pub nonce: u64,
    pub hash: Vec<u8>,
}

/// A checkpoint under assembly. Without a signature it is a draft; with one
/// it is finalized and no longer changes.
#[derive(Clone, Debug, PartialEq, Eq)]
pub struct CheckpointTemplate {
    pub source: SubnetID,
    pub epoch: i64,
    pub previous_checkpoint: Option<CheckpointRef>,
    pub children: Option<Vec<ChildCheckpoint>>,
    pub cross_subnet_messages: Option<Vec<MessageRef>>,
    pub proof: Option<Vec<u8>>,
    pub signature: Option<Vec<u8>>,
    /// The last configuration number whose staking change the checkpoint
    /// takes into account, if it refers to one.
    pub configuration_number: Option<u64>,
}

/// A structural rule that a template breaks, or a change that it refuses.
#[derive(Clone, Copy, Debug, PartialEq, Eq, Structural)]
pub enum CheckpointError {
    /// The epoch is not past that of the previous checkpoint.
    EpochNotIncreasing,
    /// A child checkpoint is of a later epoch than the template.
    ChildAhead,
    /// The template carries a signature already.
    AlreadyFinalized,
}

/// A template that kept the structural rules when it was signed.
#[derive(Clone, Debug, PartialEq, Eq)]
pub struct FinalizedCheckpoint {
    pub template: CheckpointTemplate,
}

/// A refused `finalize`: the rule that was broken, and the draft as it was
/// handed in.
#[derive(Clone, Debug, PartialEq, Eq)]
pub struct FinalizeFailure {
    pub error: CheckpointError,
    pub draft: CheckpointTemplate,
}

/// The epoch is past that of the previous checkpoint, where there is one.
pub open spec fn epoch_progresses(template: CheckpointTemplate) -> bool {
    template.previous_checkpoint matches Some(previous) ==> template.epoch > previous.epoch
}

/// No child checkpoint is of a later epoch than the template.
pub open spec fn children_not_ahead(template: CheckpointTemplate) -> bool {
    template.children matches Some(children) ==> forall|i: int|
        0 <= i < children@.len() ==> (#[trigger] children@[i]).epoch <= template.epoch
}

/// What the structural validation of a template answers. The epoch rule is
/// looked at first.
pub open spec fn structure_answer(template: CheckpointTemplate) -> Result<(), CheckpointError> {
    if !epoch_progresses(template) {
        Err(CheckpointError::EpochNotIncreasing)
    } else if !children_not_ahead(template) {
        Err(CheckpointError::ChildAhead)
    } else {
        Ok(())
    }
}

/// The cross-subnet messages of a template, in their order; none where the
/// field is unset.
pub open spec fn messages_of(template: CheckpointTemplate) -> Seq<MessageRef> {
    match template.cross_subnet_messages {
        Some(messages) => messages@,
        None => Seq::empty(),
    }
}

/// The child checkpoints of a template, in their order; none where the
/// field is unset.
pub open spec fn children_of(template: CheckpointTemplate) -> Seq<ChildCheckpoint> {
    match template.children {
        Some(children) => children@,
        None => Seq::empty(),
    }
}

impl FinalizedCheckpoint {
    /// A finalized checkpoint carries a signature and keeps the structural rules.
    pub open spec fn wf(&self) -> bool {
        self.template.signature is Some && structure_answer(self.template) is Ok
    }
}

impl CheckpointTemplate {
    /// A draft for `source` at `epoch`, with every optional part unset.
    pub fn new(source: SubnetID, epoch: i64) -> (draft: CheckpointTemplate)
        ensures
            draft == (CheckpointTemplate {
                source,
                epoch,
                previous_checkpoint: None,
                children: None,
                cross_subnet_messages: None,
                proof: None,
                signature: None,
                configuration_number: None,
            }),
            structure_answer(draft) is Ok,
    {
        CheckpointTemplate {
            source,
            epoch,
            previous_checkpoint: None,
            children: None,
            cross_subnet_messages: None,
            proof: None,
            signature: None,
            configuration_number: None,
        }
    }

    /// Whether the template carries a signature.
    pub fn is_finalized(&self) -> (signed: bool)
        ensures
            signed == self.signature is Some,
    {
        self.signature.is_some()
    }

    /// Checks the structural rules: the template's epoch is past that of the
    /// previous checkpoint, and no child checkpoint is of a later epoch than
    /// the template. Nothing is changed or reordered.
    pub fn validate_structure(&self) -> (answer: Result<(), CheckpointError>)
        ensures
            answer == structure_answer(*self),
    {
        match &self.previous_checkpoint {
            Some(previous) => {
                if self.epoch <= previous.epoch {
                    return Err(CheckpointError::EpochNotIncreasing);
                }
            },
            None => {},
        }
        match &self.children {
            Some(children) => {
                let mut i: usize = 0;
                while i < children.len()
                    invariant
                        i <= children.len(),
                        self.children == Some(*children),
                        epoch_progresses(*self),
                        forall|j: int| 0 <= j < i ==> (#[trigger] children@[j]).epoch <= self.epoch,
                    decreases children.len() - i,
                {
                    if children[i].epoch > self.epoch {
                        proof {
                            assert(self.children->Some_0@[i as int].epoch > self.epoch);
                        }
                        return Err(CheckpointError::ChildAhead);
                    }
                    i += 1;
                }
            },
            None => {},
        }
        Ok(())
    }

    /// Whether the configuration number that the template refers to, if any,
    /// has had its turn in a staking change log with this frontier.
    pub fn refers_to_applied_configuration(&self, applied_frontier: u64) -> (applied: bool)
        ensures
            applied == (self.configuration_number matches Some(number) ==> number
                <= applied_frontier),
    {
        match self.configuration_number {
            Some(number) => number <= applied_frontier,
            None => true,
        }
    }

    /// Signs a draft. A template that carries a signature, or that breaks a
    /// structural rule, is refused and handed back as it was.
    pub fn finalize(self, signature: Vec<u8>) -> (answer: Result<FinalizedCheckpoint, FinalizeFailure>)
        ensures
            self.signature is Some ==> answer == Err::<FinalizedCheckpoint, FinalizeFailure>(
                FinalizeFailure { error: CheckpointError::AlreadyFinalized, draft: self },
            ),
            self.signature is None ==> (structure_answer(self) matches Err(error) ==> answer
                == Err::<FinalizedCheckpoint, FinalizeFailure>(
                FinalizeFailure { error, draft: self },
            )),
            self.signature is None && structure_answer(self) is Ok ==> answer == Ok::<
                FinalizedCheckpoint,
                FinalizeFailure,
            >(
                FinalizedCheckpoint {
                    template: CheckpointTemplate { signature: Some(signature), ..self },
                },
            ),
            answer matches Ok(finalized) ==> finalized.wf(),
    {
        if self.signature.is_some() {
            return Err(FinalizeFailure { error: CheckpointError::AlreadyFinalized, draft: self });
        }
        match self.validate_structure() {
            Err(error) => Err(FinalizeFailure { error, draft: self }),
            Ok(()) => {
                let mut template = self;
                template.signature = Some(signature);
                Ok(FinalizedCheckpoint { template })
            },
        }
    }

    /// Appends a cross-subnet message after those that the draft holds. A
    /// finalized template refuses and stays as it was.
    pub fn push_message(&mut self, message: MessageRef) -> (answer: Result<(), CheckpointError>)
        ensures
            old(self).signature is Some ==> answer == Err::<(), CheckpointError>(
                CheckpointError::AlreadyFinalized,
            ) && *final(self) == *old(self),
            old(self).signature is None ==> answer is Ok && messages_of(*final(self))
                == messages_of(*old(self)).push(message) && final(self).cross_subnet_messages
                is Some && *final(self) == (CheckpointTemplate {
                cross_subnet_messages: final(self).cross_subnet_messages,
                ..*old(self)
            }),
    {
        if self.signature.is_some() {
            return Err(CheckpointError::AlreadyFinalized);
        }
        let mut messages: Vec<MessageRef> = match self.cross_subnet_messages.take() {
            Some(messages) => messages,
            None => Vec::new(),
        };
        messages.push(message);
        self.cross_subnet_messages = Some(messages);
        Ok(())
    }

    /// Appends a child checkpoint after those that the draft holds. A
    /// finalized template, and a child of a later epoch than the draft, are
    /// refused, and the template stays as it was.
    pub fn push_child(&mut self, child: ChildCheckpoint) -> (answer: Result<(), CheckpointError>)
        ensures
            old(self).signature is Some ==> answer == Err::<(), CheckpointError>(
                CheckpointError::AlreadyFinalized,
            ) && *final(self) == *old(self),
            old(self).signature is None && child.epoch > old(self).epoch ==> answer == Err::<
                (),
                CheckpointError,
            >(CheckpointError::ChildAhead) && *final(self) == *old(self),
            old(self).signature is None && child.epoch <= old(self).epoch ==> answer is Ok
                && children_of(*final(self)) == children_of(*old(self)).push(child)
                && final(self).children is Some && *final(self) == (CheckpointTemplate {
                children: final(self).children,
                ..*old(self)
            }),
            structure_answer(*old(self)) is Ok ==> structure_answer(*final(self)) is Ok,
    {
        if self.signature.is_some() {
            return Err(CheckpointError::AlreadyFinalized);
        }
        if child.epoch > self.epoch {
            return Err(CheckpointError::ChildAhead);
        }
        let mut children: Vec<ChildCheckpoint> = match self.children.take() {
            Some(children) => children,
            None => Vec::new(),
        };
        children.push(child);
        self.children = Some(children);
        Ok(())
    }

    /// Sets the pointer to the previous checkpoint. A finalized template,
    /// and a pointer to an epoch that is not before the draft's, are
    /// refused, and the template stays as it was.
    pub fn set_previous(&mut self, previous: CheckpointRef) -> (answer: Result<(), CheckpointError>)
        ensures
            old(self).signature is Some ==> answer == Err::<(), CheckpointError>(
                CheckpointError::AlreadyFinalized,
            ) && *final(self) == *old(self),
            old(self).signature is None && previous.epoch >= old(self).epoch ==> answer == Err::<
                (),
                CheckpointError,
            >(CheckpointError::EpochNotIncreasing) && *final(self) == *old(self),
            old(self).signature is None && previous.epoch < old(self).epoch ==> answer is Ok
                && *final(self) == (CheckpointTemplate {
                previous_checkpoint: Some(previous),
                ..*old(self)
            }),
            children_not_ahead(*old(self)) && answer is Ok ==> structure_answer(*final(self))
                is Ok,
    {
        if self.signature.is_some() {
            return Err(CheckpointError::AlreadyFinalized);
        }
        if previous.epoch >= self.epoch {
            return Err(CheckpointError::EpochNotIncreasing);
        }
        self.previous_checkpoint = Some(previous);
        Ok(())
    }
}

} // verus!
