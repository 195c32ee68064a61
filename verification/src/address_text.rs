//! Addresses in text: the text form of a native address, and an EVM address
//! in hexadecimal.

use crate::address::{native_of_evm, to_native, AddressModel, EvmAddress, NativeAddress};
use vstd::prelude::*;

verus! {

/// The bytes that a text spells as an EVM address, where it spells one.
pub uninterp spec fn evm_address_of_text(text: Seq<char>) -> Option<Seq<u8>>;

/// Reads an EVM address with `ethers::types::Address::from_str`. The
/// contract gives the answer a name, since it is fixed by the text alone, and
/// says that an address that was read has 20 bytes.
#[verifier::external_body]
fn parse_evm_address(text: &str) -> (parsed: Option<EvmAddress>)
    ensures
        parsed is Some == evm_address_of_text(text@) is Some,
        parsed matches Some(address) ==> address.wf() && Some(address@) == evm_address_of_text(
            text@,
        ),
{
    match text.parse::<ethers::types::Address>() {
        Ok(address) => Some(EvmAddress { bytes: address.as_bytes().to_vec() }),
        Err(_) => None,
    }
}

/// The native address that a text spells, whatever network its first
/// character names, where it spells one.
pub uninterp spec fn native_address_of_text(text: Seq<char>) -> Option<AddressModel>;

/// Reads a native address with `fvm_shared::address::Address::from_str`.
/// That function first reads the address and the network from the text
/// alone, and then refuses the address where the network is not the one
/// that the process is set to. So the contract does not say which texts are
/// read. It says that an address that was read is the one that the text
/// spells, to which it gives a name, and that its payload has the length
/// that its kind allows.
#[verifier::external_body]
pub(crate) fn parse_native_address(text: &str) -> (parsed: Option<NativeAddress>)
    ensures
        parsed matches Some(address) ==> address.wf() && native_address_of_text(text@) == Some(
            address@,
        ),
{
    match text.parse::<fvm_shared::address::Address>() {
        Err(_) => None,
        Ok(address) => Some(match address.into_payload() {
            fvm_shared::address::Payload::ID(id) => NativeAddress::Id(id),
            fvm_shared::address::Payload::Secp256k1(hash) => NativeAddress::Secp256k1(hash.to_vec()),
            fvm_shared::address::Payload::Actor(hash) => NativeAddress::Actor(hash.to_vec()),
            fvm_shared::address::Payload::BLS(key) => NativeAddress::Bls(key.to_vec()),
            fvm_shared::address::Payload::Delegated(d) => NativeAddress::Delegated {
                namespace: d.namespace(),
                subaddress: d.subaddress().to_vec(),
            },
        }),
    }
}

/// The recipient that two readings of one text give: the native address
/// where the text was read as one, else the native form of the EVM address
/// where it was read as one, else none.
pub fn recipient_from(native: Option<NativeAddress>, evm: Option<EvmAddress>) -> (recipient:
    Option<NativeAddress>)
    requires
        native matches Some(address) ==> address.wf(),
        evm matches Some(address) ==> address.wf(),
    ensures
        native is Some ==> recipient == native,
        native is None ==> (evm matches Some(address) ==> (recipient matches Some(found)
            && found@ == native_of_evm(address@))),
        native is None && evm is None ==> recipient is None,
        recipient matches Some(found) ==> found.wf(),
{
    match native {
        Some(address) => Some(address),
        None => match evm {
            Some(address) => Some(to_native(&address)),
            None => None,
        },
    }
}

/// The recipient that two readings of one text stand for: the native
/// address, else the native form of the EVM address, else none.
pub open spec fn recipient_of_readings(
    native: Option<AddressModel>,
    evm: Option<Seq<u8>>,
) -> Option<AddressModel> {
    match native {
        Some(address) => Some(address),
        None => match evm {
            Some(bytes) => Some(native_of_evm(bytes)),
            None => None,
        },
    }
}

/// The recipient that a text names: a native address in its text form, or
/// an EVM address in hexadecimal, which stands for its native form. The
/// native reading comes first, and whether it is made depends on the network
/// that the process is set to. A recipient that is named is the address
/// that the text spells as a native address, or else the native form of the
/// EVM address that it spells. A text that spells an EVM address always
/// names a recipient, and a text that spells no native address names the
/// recipient of its EVM reading and no other.
pub fn resolve_recipient(text: &str) -> (recipient: Option<NativeAddress>)
    ensures
        recipient matches Some(found) ==> found.wf(),
        evm_address_of_text(text@) is Some ==> recipient is Some,
        recipient matches Some(found) ==> Some(found@) == native_address_of_text(text@) || Some(
            found@,
        ) == recipient_of_readings(None, evm_address_of_text(text@)),
        recipient is None ==> evm_address_of_text(text@) is None,
        native_address_of_text(text@) is None ==> (match recipient {
            Some(found) => Some(found@),
            None => None,
        }) == recipient_of_readings(None, evm_address_of_text(text@)),
{
    let native = parse_native_address(text);
    let evm = parse_evm_address(text);
    recipient_from(native, evm)
}

} // verus!
