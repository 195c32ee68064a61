//! The registry of subnet connections: one connection per subnet, looked up
//! by the subnet's identifier.

use crate::address::NativeAddress;
use crate::subnet::{SubnetID, SubnetModel};
use vstd::prelude::*;

verus! {

/// The kind of chain that backs a subnet.
#[derive(Clone, Copy, Debug, PartialEq, Eq, Structural)]
pub enum ChainKind {
    Fvm,
    Evm,
}

/// What is configured once for a subnet.
#[derive(Clone, Debug, PartialEq, Eq)]
pub struct SubnetConfig {
    pub chain: ChainKind,
    pub rpc_endpoint: String,
    pub gateway: NativeAddress,
    /// The accounts that may send from this subnet; the first is the default sender.
    pub accounts: Vec<NativeAddress>,
}

/// A live connection to a subnet: its configuration, and the number under
/// which the caller keeps the manager that talks to its chain.
#[derive(Clone, Debug, PartialEq, Eq)]
pub struct Connection {
    pub subnet_config: SubnetConfig,
    pub manager: u64,
}

/// A registered subnet with its connection.
#[derive(Clone, Debug, PartialEq, Eq)]
pub struct PoolEntry {
    pub id: SubnetID,
    pub connection: Connection,
}

/// Why the pool refused.
#[derive(Clone, Copy, Debug, PartialEq, Eq, Structural)]
pub enum PoolError {
    /// The subnet is registered already.
    DuplicateSubnet,
    /// The subnet is not registered.
    NotFound,
}

/// The registry of subnet connections, in the order of registration.
#[derive(Clone, Debug)]
pub struct SubnetManagerPool {
    pub entries: Vec<PoolEntry>,
}

/// Whether one of the entries is registered under the identifier.
pub open spec fn registered(entries: Seq<PoolEntry>, id: SubnetModel) -> bool {
    exists|i: int| 0 <= i < entries.len() && (#[trigger] entries[i]).id@ == id
}

/// Where the entry of the identifier stands, if it is registered.
pub open spec fn index_of_subnet(entries: Seq<PoolEntry>, id: SubnetModel) -> int {
    choose|i: int| 0 <= i < entries.len() && (#[trigger] entries[i]).id@ == id
}

/// No subnet is registered twice.
pub open spec fn distinct_subnets(entries: Seq<PoolEntry>) -> bool {
    forall|i: int, j: int|
        0 <= i < entries.len() && 0 <= j < entries.len() && i != j ==> (#[trigger] entries[i]).id@
            != (#[trigger] entries[j]).id@
}

impl SubnetManagerPool {
    /// No subnet is registered twice.
    pub open spec fn wf(&self) -> bool {
        distinct_subnets(self.entries@)
    }

    /// Whether the subnet is registered.
    pub open spec fn has(&self, id: SubnetModel) -> bool {
        registered(self.entries@, id)
    }

    /// The connection of a registered subnet.
    pub open spec fn connection_of(&self, id: SubnetModel) -> Connection {
        self.entries@[index_of_subnet(self.entries@, id)].connection
    }

    /// A pool without connections.
    pub fn new() -> (pool: SubnetManagerPool)
        ensures
            pool.wf(),
            pool.entries@ == Seq::<PoolEntry>::empty(),
    {
        SubnetManagerPool { entries: Vec::new() }
    }

    /// How many subnets are registered.
    pub fn len(&self) -> (count: usize)
        ensures
            count == self.entries@.len(),
    {
        self.entries.len()
    }

    /// Where the subnet's entry stands, if it is registered.
    pub fn position(&self, id: &SubnetID) -> (found: Option<usize>)
        requires
            self.wf(),
        ensures
            found is Some == self.has(id@),
            found matches Some(i) ==> i < self.entries@.len() && i == index_of_subnet(
                self.entries@,
                id@,
            ),
    {
        let mut i: usize = 0;
        while i < self.entries.len()
            invariant
                i <= self.entries.len(),
                self.wf(),
                forall|j: int| 0 <= j < i ==> (#[trigger] self.entries@[j]).id@ != id@,
            decreases self.entries.len() - i,
        {
            if self.entries[i].id.same_as(id) {
                proof {
                    assert(self.entries@[i as int].id@ == id@);
                    let k = index_of_subnet(self.entries@, id@);
                    assert(self.entries@[k].id@ == id@);
                }
                return Some(i);
            }
            i += 1;
        }
        None
    }

    /// The connection of the subnet, borrowed; `None` where the subnet is
    /// not registered.
    pub fn get(&self, id: &SubnetID) -> (found: Option<&Connection>)
        requires
            self.wf(),
        ensures
            found is Some == self.has(id@),
            found matches Some(connection) ==> *connection == self.connection_of(id@),
    {
        match self.position(id) {
            Some(i) => Some(&self.entries[i].connection),
            None => None,
        }
    }

    /// Registers a subnet after those that are registered. A subnet that is
    /// registered already is refused: the pool stays as it was.
    pub fn register(&mut self, id: SubnetID, connection: Connection) -> (answer: Result<
        (),
        PoolError,
    >)
        requires
            old(self).wf(),
        ensures
            final(self).wf(),
            old(self).has(id@) ==> answer == Err::<(), PoolError>(PoolError::DuplicateSubnet)
                && *final(self) == *old(self),
            !old(self).has(id@) ==> answer is Ok && final(self).entries@ == old(
                self,
            ).entries@.push(PoolEntry { id, connection }),
            answer is Ok ==> final(self).has(id@) && final(self).connection_of(id@) == connection,
    {
        if self.position(&id).is_some() {
            return Err(PoolError::DuplicateSubnet);
        }
        let ghost place = self.entries@.len() as int;
        self.entries.push(PoolEntry { id, connection });
        proof {
            assert(self.entries@[place].id@ == id@);
            let k = index_of_subnet(self.entries@, id@);
            assert(self.entries@[k].id@ == id@);
        }
        Ok(())
    }

    /// Takes a subnet out of the pool and hands its connection over. The
    /// other subnets keep their order. A subnet that is not registered is
    /// refused.
    pub fn deregister(&mut self, id: &SubnetID) -> (answer: Result<Connection, PoolError>)
        requires
            old(self).wf(),
        ensures
            final(self).wf(),
            !old(self).has(id@) ==> answer == Err::<Connection, PoolError>(PoolError::NotFound)
                && *final(self) == *old(self),
            old(self).has(id@) ==> answer == Ok::<Connection, PoolError>(
                old(self).connection_of(id@),
            ) && final(self).entries@ == old(self).entries@.remove(
                index_of_subnet(old(self).entries@, id@),
            ) && !final(self).has(id@),
    {
        match self.position(id) {
            None => Err(PoolError::NotFound),
            Some(i) => {
                let entry = self.entries.remove(i);
                proof {
                    let before = old(self).entries@;
                    let after = self.entries@;
                    assert forall|a: int| 0 <= a < after.len() implies (#[trigger] after[a]).id@
                        != id@ && exists|b: int|
                        0 <= b < before.len() && b != i && before[b] == after[a] && (b < i ==> b
                            == a) && (b > i ==> b == a + 1) by {
                        if a < i {
                            assert(before[a] == after[a]);
                        } else {
                            assert(before[a + 1] == after[a]);
                        }
                    }
                    assert forall|a: int, b: int|
                        0 <= a < after.len() && 0 <= b < after.len() && a != b implies (
                    #[trigger] after[a]).id@ != (#[trigger] after[b]).id@ by {
                        let a0 = if a < i { a } else { a + 1 };
                        let b0 = if b < i { b } else { b + 1 };
                        assert(before[a0] == after[a]);
                        assert(before[b0] == after[b]);
                    }
                }
                Ok(entry.connection)
            },
        }
    }

    /// The identifiers of the registered subnets as they stand, in the
    /// order of registration. The copy does not change with the pool.
    pub fn subnets(&self) -> (ids: Vec<SubnetID>)
        ensures
            ids@.len() == self.entries@.len(),
            forall|i: int| 0 <= i < ids@.len() ==> (#[trigger] ids@[i])@ == self.entries@[i].id@,
    {
        let mut ids: Vec<SubnetID> = Vec::new();
        let mut i: usize = 0;
        while i < self.entries.len()
            invariant
                i <= self.entries.len(),
                ids@.len() == i,
                forall|j: int| 0 <= j < i ==> (#[trigger] ids@[j])@ == self.entries@[j].id@,
            decreases self.entries.len() - i,
        {
            ids.push(self.entries[i].id.duplicate());
            i += 1;
        }
        ids
    }

    /// Calls the visitor once on every registered subnet, in the order of
    /// registration. The pool is borrowed for the whole walk, so the visitor
    /// sees the entries as they stood when the walk began.
    pub fn for_each<F: Fn(&SubnetID, &Connection)>(&self, visitor: F)
        requires
            forall|i: int|
                0 <= i < self.entries@.len() ==> call_requires(
                    visitor,
                    (&(#[trigger] self.entries@[i]).id, &self.entries@[i].connection),
                ),
        ensures
            forall|i: int|
                0 <= i < self.entries@.len() ==> call_ensures(
                    visitor,
                    (&(#[trigger] self.entries@[i]).id, &self.entries@[i].connection),
                    (),
                ),
    {
        let mut i: usize = 0;
        while i < self.entries.len()
            invariant
                i <= self.entries.len(),
                forall|j: int|
                    0 <= j < self.entries@.len() ==> call_requires(
                        visitor,
                        (&(#[trigger] self.entries@[j]).id, &self.entries@[j].connection),
                    ),
                forall|j: int|
                    0 <= j < i ==> call_ensures(
                        visitor,
                        (&(#[trigger] self.entries@[j]).id, &self.entries@[j].connection),
                        (),
                    ),
            decreases self.entries.len() - i,
        {
            let entry = &self.entries[i];
            visitor(&entry.id, &entry.connection);
            i += 1;
        }
    }

    /// The entry at a place in the order of registration.
    pub fn entry_at(&self, place: usize) -> (entry: Option<&PoolEntry>)
        ensures
            place < self.entries@.len() ==> entry == Some(&self.entries@[place as int]),
            place >= self.entries@.len() ==> entry is None,
    {
        if place < self.entries.len() {
            Some(&self.entries[place])
        } else {
            None
        }
    }
}

} // verus!
