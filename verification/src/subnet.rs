//! Subnet identifiers: a root network and the path of actors below it.

use crate::address::{AddressModel, NativeAddress};
use vstd::prelude::*;

verus! {

/// Identifies a subnet by its root network and the actors on the path from
/// the root down to it.
#[derive(Clone, Debug, PartialEq, Eq)]
pub struct SubnetID {
    pub root: u64,
    pub children: Vec<NativeAddress>,
}

/// What a subnet identifier is, as a mathematical value.
pub struct SubnetModel {
    pub root: u64,
    pub children: Seq<AddressModel>,
}

/// The addresses of a path, each as a mathematical value.
pub open spec fn path_model(path: Seq<NativeAddress>) -> Seq<AddressModel> {
    Seq::new(path.len(), |i: int| path[i]@)
}

impl View for SubnetID {
    type V = SubnetModel;

    open spec fn view(&self) -> SubnetModel {
        SubnetModel { root: self.root, children: path_model(self.children@) }
    }
}

/// Whether `upper` lies on the path from the root to `lower`, above it.
pub open spec fn is_ancestor(upper: SubnetModel, lower: SubnetModel) -> bool {
    &&& upper.root == lower.root
    &&& upper.children.len() < lower.children.len()
    &&& upper.children == lower.children.subrange(0, upper.children.len() as int)
}

impl SubnetID {
    /// The root network itself.
    pub fn new_root(root: u64) -> (id: SubnetID)
        ensures
            id@ == (SubnetModel { root, children: Seq::empty() }),
    {
        let id = SubnetID { root, children: Vec::new() };
        proof {
            assert(id@.children =~= Seq::<AddressModel>::empty());
        }
        id
    }

    /// The subnet that `actor` runs below `parent`.
    pub fn new_child(parent: &SubnetID, actor: NativeAddress) -> (id: SubnetID)
        ensures
            id@ == (SubnetModel { root: parent@.root, children: parent@.children.push(actor@) }),
    {
        let mut id = parent.duplicate();
        id.children.push(actor);
        proof {
            assert(id@.children =~= parent@.children.push(actor@));
        }
        id
    }

    /// Whether both identify the same subnet.
    pub fn same_as(&self, other: &SubnetID) -> (same: bool)
        ensures
            same == (self@ == other@),
    {
        if self.root != other.root || self.children.len() != other.children.len() {
            proof {
                assert(self@.children.len() == self.children@.len());
                assert(other@.children.len() == other.children@.len());
            }
            return false;
        }
        let mut i: usize = 0;
        while i < self.children.len()
            invariant
                i <= self.children.len(),
                self.children.len() == other.children.len(),
                forall|j: int| 0 <= j < i ==> self.children@[j]@ == other.children@[j]@,
            decreases self.children.len() - i,
        {
            if !self.children[i].same_as(&other.children[i]) {
                proof {
                    assert(self@.children[i as int] != other@.children[i as int]);
                }
                return false;
            }
            i += 1;
        }
        proof {
            assert(self@.children =~= other@.children);
        }
        true
    }

    /// A copy of this identifier.
    pub fn duplicate(&self) -> (copy: SubnetID)
        ensures
            copy@ == self@,
    {
        let mut children: Vec<NativeAddress> = Vec::new();
        let mut i: usize = 0;
        while i < self.children.len()
            invariant
                i <= self.children.len(),
                children@.len() == i,
                forall|j: int| 0 <= j < i ==> children@[j]@ == self.children@[j]@,
            decreases self.children.len() - i,
        {
            children.push(self.children[i].duplicate());
            i += 1;
        }
        let copy = SubnetID { root: self.root, children };
        proof {
            assert(copy@.children =~= self@.children);
        }
        copy
    }

    /// Whether this subnet lies above `other` on the path from the root.
    pub fn is_ancestor_of(&self, other: &SubnetID) -> (above: bool)
        ensures
            above == is_ancestor(self@, other@),
    {
        proof {
            assert(self@.children.len() == self.children@.len());
            assert(other@.children.len() == other.children@.len());
        }
        if self.root != other.root || self.children.len() >= other.children.len() {
            return false;
        }
        let mut i: usize = 0;
        while i < self.children.len()
            invariant
                i <= self.children.len(),
                self.children.len() < other.children.len(),
                forall|j: int| 0 <= j < i ==> self.children@[j]@ == other.children@[j]@,
            decreases self.children.len() - i,
        {
            if !self.children[i].same_as(&other.children[i]) {
                proof {
                    let prefix = other@.children.subrange(0, self@.children.len() as int);
                    assert(self@.children[i as int] != prefix[i as int]);
                }
                return false;
            }
            i += 1;
        }
        proof {
            assert(self@.children =~= other@.children.subrange(0, self@.children.len() as int));
        }
        true
    }
}

} // verus!
