use subnet_relay::address::{
    bytes_eq, copy_bytes, to_evm, to_native, EvmAddress, NativeAddress, UnsupportedAddressKind,
    EVM_NAMESPACE,
};

fn sample_evm_bytes() -> Vec<u8> {
    vec![
        0xab, 0xc0, 0x01, 0x02, 0x03, 0x04, 0x05, 0x06, 0x07, 0x08, 0x09, 0x0a, 0x0b, 0x0c, 0x0d,
        0x0e, 0x0f, 0x10, 0x01, 0x23,
    ]
}

#[test]
fn evm_address_needs_twenty_bytes() {
    assert!(EvmAddress::from_bytes(vec![0u8; 19]).is_none());
    assert!(EvmAddress::from_bytes(vec![0u8; 21]).is_none());
    assert!(EvmAddress::from_bytes(Vec::new()).is_none());
    let made = EvmAddress::from_bytes(sample_evm_bytes()).unwrap();
    assert_eq!(made.bytes, sample_evm_bytes());
}

#[test]
fn to_native_embeds_the_bytes() {
    let evm = EvmAddress::from_bytes(sample_evm_bytes()).unwrap();
    let native = to_native(&evm);
    assert_eq!(
        native,
        NativeAddress::Delegated { namespace: 10, subaddress: sample_evm_bytes() }
    );
    assert_eq!(EVM_NAMESPACE, 10);
}

#[test]
fn evm_address_round_trips_through_native() {
    let evm = EvmAddress::from_bytes(sample_evm_bytes()).unwrap();
    let back = to_evm(&to_native(&evm));
    assert_eq!(back, Ok(evm));
}

#[test]
fn round_trip_holds_for_edge_addresses() {
    for bytes in [vec![0u8; 20], vec![0xffu8; 20]] {
        let evm = EvmAddress::from_bytes(bytes).unwrap();
        assert_eq!(to_evm(&to_native(&evm)), Ok(evm));
    }
}

#[test]
fn to_evm_of_an_actor_number_is_masked() {
    let evm = to_evm(&NativeAddress::Id(258)).unwrap();
    assert_eq!(
        evm.bytes,
        vec![0xff, 0, 0, 0, 0, 0, 0, 0, 0, 0, 0, 0, 0, 0, 0, 0, 0, 0, 1, 2]
    );
    let top = to_evm(&NativeAddress::Id(u64::MAX)).unwrap();
    assert_eq!(
        top.bytes,
        vec![
            0xff, 0, 0, 0, 0, 0, 0, 0, 0, 0, 0, 0, 0xff, 0xff, 0xff, 0xff, 0xff, 0xff, 0xff, 0xff
        ]
    );
    let mixed = to_evm(&NativeAddress::Id(0x0102_0304_0506_0708)).unwrap();
    assert_eq!(
        mixed.bytes,
        vec![0xff, 0, 0, 0, 0, 0, 0, 0, 0, 0, 0, 0, 1, 2, 3, 4, 5, 6, 7, 8]
    );
    let zero = to_evm(&NativeAddress::Id(0)).unwrap();
    assert_eq!(zero.bytes, vec![0xff, 0, 0, 0, 0, 0, 0, 0, 0, 0, 0, 0, 0, 0, 0, 0, 0, 0, 0, 0]);
}

#[test]
fn to_evm_refuses_other_kinds() {
    assert_eq!(to_evm(&NativeAddress::Secp256k1(vec![1u8; 20])), Err(UnsupportedAddressKind));
    assert_eq!(to_evm(&NativeAddress::Actor(vec![2u8; 20])), Err(UnsupportedAddressKind));
    assert_eq!(to_evm(&NativeAddress::Bls(vec![3u8; 48])), Err(UnsupportedAddressKind));
    assert_eq!(
        to_evm(&NativeAddress::Delegated { namespace: 11, subaddress: vec![4u8; 20] }),
        Err(UnsupportedAddressKind)
    );
    assert_eq!(
        to_evm(&NativeAddress::Delegated { namespace: 10, subaddress: vec![4u8; 19] }),
        Err(UnsupportedAddressKind)
    );
    assert_eq!(
        to_evm(&NativeAddress::Delegated { namespace: 10, subaddress: vec![4u8; 21] }),
        Err(UnsupportedAddressKind)
    );
}

#[test]
fn addresses_compare_by_kind_and_payload() {
    let a = NativeAddress::Secp256k1(vec![1u8; 20]);
    let b = NativeAddress::Actor(vec![1u8; 20]);
    assert!(!a.same_as(&b));
    assert!(a.same_as(&a.duplicate()));
    assert!(NativeAddress::Id(7).same_as(&NativeAddress::Id(7)));
    assert!(!NativeAddress::Id(7).same_as(&NativeAddress::Id(8)));
    let d = NativeAddress::Delegated { namespace: 10, subaddress: vec![9u8; 20] };
    let e = NativeAddress::Delegated { namespace: 11, subaddress: vec![9u8; 20] };
    assert!(!d.same_as(&e));
    assert!(d.same_as(&d.duplicate()));
    assert_eq!(d.duplicate(), d);
    assert!(NativeAddress::Bls(vec![5u8; 48]).same_as(&NativeAddress::Bls(vec![5u8; 48])));
}

#[test]
fn byte_helpers_agree_with_vectors() {
    assert!(bytes_eq(&vec![1, 2, 3], &vec![1, 2, 3]));
    assert!(!bytes_eq(&vec![1, 2, 3], &vec![1, 2, 4]));
    assert!(!bytes_eq(&vec![1, 2, 3], &vec![1, 2]));
    assert!(bytes_eq(&Vec::new(), &Vec::new()));
    assert_eq!(copy_bytes(&vec![7, 8, 9]), vec![7, 8, 9]);
    let evm = EvmAddress::from_bytes(sample_evm_bytes()).unwrap();
    assert!(evm.same_as(&evm.duplicate()));
}
