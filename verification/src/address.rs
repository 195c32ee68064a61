//! Conversion between EVM addresses and subnet-native addresses.
//!
//! Every 20-byte EVM address has a native form, the delegated address that
//! embeds its bytes. Only some native addresses have an EVM form.

use vstd::prelude::*;

verus! {

/// Length in bytes of an EVM address.
pub const EVM_ADDRESS_LEN: usize = 20;

/// Length in bytes of the hash that a key-based or actor address carries.
pub const HASH_PAYLOAD_LEN: usize = 20;

/// Length in bytes of a BLS public key.
pub const BLS_KEY_LEN: usize = 48;

/// Greatest length in bytes of the subaddress of a delegated address.
pub const MAX_SUBADDRESS_LEN: usize = 54;

/// Namespace under which EVM addresses are embedded in delegated addresses.
pub const EVM_NAMESPACE: u64 = 10;

/// Whether two byte vectors hold the same bytes.
pub fn bytes_eq(a: &Vec<u8>, b: &Vec<u8>) -> (same: bool)
    ensures
        same == (a@ == b@),
{
    if a.len() != b.len() {
        return false;
    }
    let mut i: usize = 0;
    while i < a.len()
        invariant
            i <= a.len(),
            a.len() == b.len(),
            forall|j: int| 0 <= j < i ==> a@[j] == b@[j],
        decreases a.len() - i,
    {
        if a[i] != b[i] {
            return false;
        }
        i += 1;
    }
    proof {
        assert(a@ =~= b@);
    }
    true
}

/// A fresh vector with the same bytes.
pub fn copy_bytes(a: &Vec<u8>) -> (copy: Vec<u8>)
    ensures
        copy@ == a@,
{
    let mut copy: Vec<u8> = Vec::new();
    let mut i: usize = 0;
    while i < a.len()
        invariant
            i <= a.len(),
            copy@ == a@.subrange(0, i as int),
        decreases a.len() - i,
    {
        copy.push(a[i]);
        proof {
            assert(copy@ =~= a@.subrange(0, i + 1));
        }
        i += 1;
    }
    proof {
        assert(a@.subrange(0, a@.len() as int) =~= a@);
    }
    copy
}

/// An EVM address: 20 bytes.
#[derive(Clone, Debug, PartialEq, Eq)]
pub struct EvmAddress {
    pub bytes: Vec<u8>,
}

impl View for EvmAddress {
    type V = Seq<u8>;

    open spec fn view(&self) -> Seq<u8> {
        self.bytes@
    }
}

impl EvmAddress {
    /// An EVM address holds exactly 20 bytes.
    pub open spec fn wf(&self) -> bool {
        self.bytes@.len() == EVM_ADDRESS_LEN
    }

    /// The address with these bytes, if there are 20 of them.
    pub fn from_bytes(bytes: Vec<u8>) -> (made: Option<EvmAddress>)
        ensures
            bytes@.len() == EVM_ADDRESS_LEN ==> made == Some(EvmAddress { bytes }),
            bytes@.len() != EVM_ADDRESS_LEN ==> made is None,
    {
        if bytes.len() == EVM_ADDRESS_LEN {
            Some(EvmAddress { bytes })
        } else {
            None
        }
    }

    /// Whether both addresses hold the same bytes.
    pub fn same_as(&self, other: &EvmAddress) -> (same: bool)
        ensures
            same == (self@ == other@),
    {
        bytes_eq(&self.bytes, &other.bytes)
    }

    /// A copy of this address.
    pub fn duplicate(&self) -> (copy: EvmAddress)
        ensures
            copy@ == self@,
    {
        EvmAddress { bytes: copy_bytes(&self.bytes) }
    }
}

/// What a native address is, as a mathematical value.
pub enum AddressModel {
    Id(u64),
    Secp256k1(Seq<u8>),
    Actor(Seq<u8>),
    Bls(Seq<u8>),
    Delegated { namespace: u64, subaddress: Seq<u8> },
}

/// A subnet-native address.
#[derive(Clone, Debug, PartialEq, Eq)]
pub enum NativeAddress {
    /// An actor by its number.
    Id(u64),
    /// The hash of a secp256k1 public key.
    Secp256k1(Vec<u8>),
    /// The hash that names an actor.
    Actor(Vec<u8>),
    /// A BLS public key.
    Bls(Vec<u8>),
    /// An address that another actor, the namespace, assigns.
    Delegated { namespace: u64, subaddress: Vec<u8> },
}

impl View for NativeAddress {
    type V = AddressModel;

    open spec fn view(&self) -> AddressModel {
        match self {
            NativeAddress::Id(id) => AddressModel::Id(*id),
            NativeAddress::Secp256k1(hash) => AddressModel::Secp256k1(hash@),
            NativeAddress::Actor(hash) => AddressModel::Actor(hash@),
            NativeAddress::Bls(key) => AddressModel::Bls(key@),
            NativeAddress::Delegated { namespace, subaddress } => AddressModel::Delegated {
                namespace: *namespace,
                subaddress: subaddress@,
            },
        }
    }
}

/// Whether the payload of a native address has a length that its kind allows.
pub open spec fn address_well_formed(a: AddressModel) -> bool {
    match a {
        AddressModel::Id(_) => true,
        AddressModel::Secp256k1(hash) => hash.len() == HASH_PAYLOAD_LEN,
        AddressModel::Actor(hash) => hash.len() == HASH_PAYLOAD_LEN,
        AddressModel::Bls(key) => key.len() == BLS_KEY_LEN,
        AddressModel::Delegated { namespace, subaddress } => subaddress.len()
            <= MAX_SUBADDRESS_LEN,
    }
}

impl NativeAddress {
    /// The payload has a length that the kind of address allows.
    pub open spec fn wf(&self) -> bool {
        address_well_formed(self@)
    }

    /// Whether both are the same address.
    pub fn same_as(&self, other: &NativeAddress) -> (same: bool)
        ensures
            same == (self@ == other@),
    {
        match self {
            NativeAddress::Id(a) => match other {
                NativeAddress::Id(b) => *a == *b,
                _ => false,
            },
            NativeAddress::Secp256k1(a) => match other {
                NativeAddress::Secp256k1(b) => bytes_eq(a, b),
                _ => false,
            },
            NativeAddress::Actor(a) => match other {
                NativeAddress::Actor(b) => bytes_eq(a, b),
                _ => false,
            },
            NativeAddress::Bls(a) => match other {
                NativeAddress::Bls(b) => bytes_eq(a, b),
                _ => false,
            },
            NativeAddress::Delegated { namespace, subaddress } => match other {
                NativeAddress::Delegated { namespace: other_namespace, subaddress: other_sub } => {
                    *namespace == *other_namespace && bytes_eq(subaddress, other_sub)
                },
                _ => false,
            },
        }
    }

    /// A copy of this address.
    pub fn duplicate(&self) -> (copy: NativeAddress)
        ensures
            copy@ == self@,
    {
        match self {
            NativeAddress::Id(id) => NativeAddress::Id(*id),
            NativeAddress::Secp256k1(hash) => NativeAddress::Secp256k1(copy_bytes(hash)),
            NativeAddress::Actor(hash) => NativeAddress::Actor(copy_bytes(hash)),
            NativeAddress::Bls(key) => NativeAddress::Bls(copy_bytes(key)),
            NativeAddress::Delegated { namespace, subaddress } => NativeAddress::Delegated {
                namespace: *namespace,
                subaddress: copy_bytes(subaddress),
            },
        }
    }
}

/// A native address that has no EVM form.
#[derive(Clone, Copy, Debug, PartialEq, Eq, Structural)]
pub struct UnsupportedAddressKind;

/// The native form of an EVM address: the delegated address of the EVM
/// namespace that embeds the 20 bytes.
pub open spec fn native_of_evm(evm: Seq<u8>) -> AddressModel {
    AddressModel::Delegated { namespace: EVM_NAMESPACE, subaddress: evm }
}

/// The EVM form of an actor number: a byte 0xff, eleven zero bytes, and the
/// number in eight bytes, most significant first.
pub open spec fn evm_of_id(id: u64) -> Seq<u8> {
    seq![
        0xffu8,
        0u8,
        0u8,
        0u8,
        0u8,
        0u8,
        0u8,
        0u8,
        0u8,
        0u8,
        0u8,
        0u8,
        (id / 0x100_0000_0000_0000) as u8,
        (id / 0x1_0000_0000_0000 % 256) as u8,
        (id / 0x100_0000_0000 % 256) as u8,
        (id / 0x1_0000_0000 % 256) as u8,
        (id / 0x100_0000 % 256) as u8,
        (id / 0x1_0000 % 256) as u8,
        (id / 0x100 % 256) as u8,
        (id % 256) as u8,
    ]
}

/// The EVM form of a native address, where it has one: the embedded bytes of
/// a delegated address of the EVM namespace with a 20-byte subaddress, and
/// the masked form of an actor number.
pub open spec fn evm_of_native(a: AddressModel) -> Option<Seq<u8>> {
    match a {
        AddressModel::Id(id) => Some(evm_of_id(id)),
        AddressModel::Delegated { namespace, subaddress } => if namespace == EVM_NAMESPACE
            && subaddress.len() == EVM_ADDRESS_LEN {
            Some(subaddress)
        } else {
            None
        },
        _ => None,
    }
}

/// The native address of an EVM address.
pub fn to_native(evm: &EvmAddress) -> (native: NativeAddress)
    requires
        evm.wf(),
    ensures
        native@ == native_of_evm(evm@),
        native.wf(),
{
    NativeAddress::Delegated { namespace: EVM_NAMESPACE, subaddress: copy_bytes(&evm.bytes) }
}

/// The EVM address of a native address, or `UnsupportedAddressKind` where it
/// has none.
pub fn to_evm(native: &NativeAddress) -> (evm: Result<EvmAddress, UnsupportedAddressKind>)
    ensures
        evm is Ok == evm_of_native(native@) is Some,
        evm matches Ok(a) ==> a.wf() && Some(a@) == evm_of_native(native@),
{
    match native {
        NativeAddress::Id(id) => {
            let id: u64 = *id;
            let mut bytes: Vec<u8> = Vec::new();
            bytes.push(0xffu8);
            let mut i: usize = 0;
            while i < 11
                invariant
                    i <= 11,
                    bytes@.len() == 1 + i,
                    bytes@[0] == 0xffu8,
                    forall|j: int| 1 <= j < 1 + i ==> bytes@[j] == 0u8,
                decreases 11 - i,
            {
                bytes.push(0u8);
                i += 1;
            }
            bytes.push((id / 0x100_0000_0000_0000) as u8);
            bytes.push((id / 0x1_0000_0000_0000 % 256) as u8);
            bytes.push((id / 0x100_0000_0000 % 256) as u8);
            bytes.push((id / 0x1_0000_0000 % 256) as u8);
            bytes.push((id / 0x100_0000 % 256) as u8);
            bytes.push((id / 0x1_0000 % 256) as u8);
            bytes.push((id / 0x100 % 256) as u8);
            bytes.push((id % 256) as u8);
            proof {
                assert(bytes@ =~= evm_of_id(id));
            }
            Ok(EvmAddress { bytes })
        },
        NativeAddress::Delegated { namespace, subaddress } => {
            if *namespace == EVM_NAMESPACE && subaddress.len() == EVM_ADDRESS_LEN {
                Ok(EvmAddress { bytes: copy_bytes(subaddress) })
            } else {
                Err(UnsupportedAddressKind)
            }
        },
        _ => Err(UnsupportedAddressKind),
    }
}

/// Every EVM address comes back unchanged from its native form.
pub proof fn lemma_evm_round_trip(evm: Seq<u8>)
    requires
        evm.len() == EVM_ADDRESS_LEN,
    ensures
        evm_of_native(native_of_evm(evm)) == Some(evm),
{
}

} // verus!
