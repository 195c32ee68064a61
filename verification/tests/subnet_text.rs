use std::cell::RefCell;
use subnet_relay::address::NativeAddress;
use subnet_relay::pool::{ChainKind, Connection, SubnetConfig, SubnetManagerPool};
use subnet_relay::subnet::SubnetID;
use subnet_relay::subnet_text::{
    find_segment_end, parse_decimal, subnet_from_readings, subnet_from_text,
};

#[test]
fn decimal_numbers_are_read() {
    assert_eq!(parse_decimal("0"), Some(0));
    assert_eq!(parse_decimal("123"), Some(123));
    assert_eq!(parse_decimal("007"), Some(7));
    assert_eq!(parse_decimal("18446744073709551615"), Some(u64::MAX));
}

#[test]
fn unreadable_decimal_numbers() {
    assert_eq!(parse_decimal(""), None);
    assert_eq!(parse_decimal("12a"), None);
    assert_eq!(parse_decimal("-1"), None);
    assert_eq!(parse_decimal("+1"), None);
    assert_eq!(parse_decimal(" 1"), None);
    assert_eq!(parse_decimal("18446744073709551616"), None);
    assert_eq!(parse_decimal("99999999999999999999"), None);
    assert_eq!(parse_decimal("184467440737095516150"), None);
}

#[test]
fn segments_end_at_the_next_slash() {
    assert_eq!(find_segment_end("/r123/f01/f064", 2), 5);
    assert_eq!(find_segment_end("/r123/f01/f064", 6), 9);
    assert_eq!(find_segment_end("/r123/f01/f064", 10), 14);
    assert_eq!(find_segment_end("/r123/f01/f064", 14), 14);
    assert_eq!(find_segment_end("/r123/f01/f064", 5), 5);
    assert_eq!(find_segment_end("", 0), 0);
}

#[test]
fn subnet_is_read_from_its_path() {
    assert_eq!(
        subnet_from_text("/r123/f01/f064"),
        Some(SubnetID { root: 123, children: vec![NativeAddress::Id(1), NativeAddress::Id(64)] })
    );
    assert_eq!(
        subnet_from_text("/r123/f010000000002"),
        Some(SubnetID { root: 123, children: vec![NativeAddress::Id(10000000002)] })
    );
    assert_eq!(
        subnet_from_text("/r123/f01002"),
        Some(SubnetID { root: 123, children: vec![NativeAddress::Id(1002)] })
    );
    assert_eq!(subnet_from_text("/r123/f099"), Some(SubnetID::new_child(
        &SubnetID::new_root(123),
        NativeAddress::Id(99),
    )));
}

#[test]
fn root_subnet_is_read() {
    assert_eq!(subnet_from_text("/r123"), Some(SubnetID::new_root(123)));
    assert_eq!(subnet_from_text("/r0"), Some(SubnetID::new_root(0)));
}

#[test]
fn unreadable_subnet_paths() {
    assert_eq!(subnet_from_text(""), None);
    assert_eq!(subnet_from_text("/"), None);
    assert_eq!(subnet_from_text("/r"), None);
    assert_eq!(subnet_from_text("r123"), None);
    assert_eq!(subnet_from_text("/x123"), None);
    assert_eq!(subnet_from_text("/r12a"), None);
    assert_eq!(subnet_from_text("/r123/"), None);
    assert_eq!(subnet_from_text("/r123//f01"), None);
    assert_eq!(subnet_from_text("/r123/nothing"), None);
    assert_eq!(subnet_from_text("/r99999999999999999999/f01"), None);
}

#[test]
fn readings_make_a_subnet_only_when_all_were_read() {
    assert_eq!(subnet_from_readings(5, &vec![]), Some(SubnetID::new_root(5)));
    assert_eq!(
        subnet_from_readings(5, &vec![Some(NativeAddress::Id(1)), Some(NativeAddress::Id(2))]),
        Some(SubnetID { root: 5, children: vec![NativeAddress::Id(1), NativeAddress::Id(2)] })
    );
    assert_eq!(subnet_from_readings(5, &vec![Some(NativeAddress::Id(1)), None]), None);
    assert_eq!(subnet_from_readings(5, &vec![None, Some(NativeAddress::Id(1))]), None);
}

#[test]
fn every_connection_is_visited_in_order() {
    let mut pool = SubnetManagerPool::new();
    for actor in [4u64, 2, 8] {
        let id = SubnetID::new_child(&SubnetID::new_root(123), NativeAddress::Id(actor));
        let connection = Connection {
            subnet_config: SubnetConfig {
                chain: ChainKind::Fvm,
                rpc_endpoint: String::new(),
                gateway: NativeAddress::Id(64),
                accounts: vec![],
            },
            manager: actor * 10,
        };
        pool.register(id, connection).unwrap();
    }
    let seen: RefCell<Vec<(SubnetID, u64)>> = RefCell::new(Vec::new());
    pool.for_each(|id: &SubnetID, connection: &Connection| {
        seen.borrow_mut().push((id.clone(), connection.manager));
    });
    let seen = seen.into_inner();
    assert_eq!(seen.len(), 3);
    assert_eq!(seen[0].1, 40);
    assert_eq!(seen[1].1, 20);
    assert_eq!(seen[2].1, 80);
    assert_eq!(seen[1].0.children, vec![NativeAddress::Id(2)]);
    let empty = SubnetManagerPool::new();
    let count: RefCell<u32> = RefCell::new(0);
    empty.for_each(|_id: &SubnetID, _connection: &Connection| {
        *count.borrow_mut() += 1;
    });
    assert_eq!(count.into_inner(), 0);
}
