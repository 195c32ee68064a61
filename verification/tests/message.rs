use subnet_relay::address::NativeAddress;
use subnet_relay::checkpoint::CheckpointTemplate;
use subnet_relay::subnet::SubnetID;
use subnet_relay::subnet_text::{
    subnet_below, subnet_from_map, subnet_from_text, token_amount_from_text, whole_tokens,
    UNITS_PER_TOKEN,
};

fn text_field<'a>(value: &'a serde_json::Value, outer: &str, inner: &str) -> Option<&'a str> {
    value.get(outer)?.get(inner)?.as_str()
}

#[test]
fn test_subnet_from_map() {
    let raw_str = r#"
    {
        "ID": {
            "Parent": "/r123/f01",
            "Actor": "f064"
        }
    }"#;

    let value: serde_json::Value = serde_json::from_str(raw_str).unwrap();
    let parent = text_field(&value, "ID", "Parent").unwrap();
    let actor = text_field(&value, "ID", "Actor").unwrap();
    let w = subnet_from_map(parent, actor);
    assert!(w.is_some());
    assert_eq!(w.unwrap(), subnet_from_text("/r123/f01/f064").unwrap())
}

#[test]
fn test_token_amount_from_str() {
    let raw_str = r#"
    {
        "TokenAmount": "20000000000000000000"
    }"#;

    let value: serde_json::Value = serde_json::from_str(raw_str).unwrap();
    let text = value.get("TokenAmount").unwrap().as_str().unwrap();
    let w = token_amount_from_text(text);
    assert!(w.is_some());
    assert_eq!(w.unwrap(), whole_tokens(20).unwrap());
}

#[test]
fn test_subnet_info_from_str() {
    let raw_str = r#"
    {
        "ID": {
            "Parent": "/r123",
            "Actor": "f010000000002"
        },
        "Stake": "10000000000000000000",
        "TopDownMsgs": {
            "/": "bafy2bzacedijw74yui7otvo63nfl3hdq2vdzuy7wx2tnptwed6zml4vvz7wee"
        },
        "Nonce": 0,
        "CircSupply": "0",
        "Status": 0,
        "PrevCheckpoint": null
    }
    "#;

    let value: serde_json::Value = serde_json::from_str(raw_str).unwrap();
    let id = subnet_from_map(
        text_field(&value, "ID", "Parent").unwrap(),
        text_field(&value, "ID", "Actor").unwrap(),
    )
    .unwrap();
    assert_eq!(id, subnet_from_text("/r123/f010000000002").unwrap());
    let stake = token_amount_from_text(value.get("Stake").unwrap().as_str().unwrap());
    assert_eq!(stake, whole_tokens(10));
    let supply = token_amount_from_text(value.get("CircSupply").unwrap().as_str().unwrap());
    assert_eq!(supply, Some(0));
}

#[test]
fn test_checkpoint_template_from_str() {
    let raw_str = r#"
    {
    "Data": {
        "Source": {
            "Parent": "/r123",
            "Actor": "f01002"
        },
        "Proof": null,
        "Epoch": 0,
        "PrevCheck": null,
        "Children": null,
        "CrossMsgs": null
    },
    "Sig": null
    }
    "#;

    let value: serde_json::Value = serde_json::from_str(raw_str).unwrap();
    let data = value.get("Data").unwrap();
    let source = subnet_from_map(
        text_field(data, "Source", "Parent").unwrap(),
        text_field(data, "Source", "Actor").unwrap(),
    )
    .unwrap();
    let epoch = data.get("Epoch").unwrap().as_i64().unwrap();
    let w = CheckpointTemplate::new(source, epoch);
    assert_eq!(w.source, subnet_from_text("/r123/f01002").unwrap());
    assert_eq!(w.epoch, 0);
    assert!(w.signature.is_none());
    assert_eq!(w.validate_structure(), Ok(()));
}

#[test]
fn subnet_from_map_needs_both_parts() {
    assert_eq!(subnet_from_map("65", "f064"), None);
    assert_eq!(subnet_from_map("/r123/f01", "64"), None);
    assert_eq!(subnet_from_map("/r123/f01", ""), None);
    assert_eq!(
        subnet_from_map("/r123", "f064"),
        Some(SubnetID { root: 123, children: vec![NativeAddress::Id(64)] })
    );
}

#[test]
fn subnet_below_needs_both_parts() {
    let parent = SubnetID::new_root(7);
    assert_eq!(subnet_below(None, Some(NativeAddress::Id(1))), None);
    assert_eq!(subnet_below(Some(parent.clone()), None), None);
    assert_eq!(subnet_below(None, None), None);
    assert_eq!(
        subnet_below(Some(parent), Some(NativeAddress::Id(1))),
        Some(SubnetID { root: 7, children: vec![NativeAddress::Id(1)] })
    );
}

#[test]
fn token_amounts_in_text_and_whole_tokens() {
    assert_eq!(UNITS_PER_TOKEN, 1_000_000_000_000_000_000);
    assert_eq!(whole_tokens(0), Some(0));
    assert_eq!(whole_tokens(1), Some(1_000_000_000_000_000_000));
    assert_eq!(whole_tokens(20), Some(20_000_000_000_000_000_000));
    assert_eq!(whole_tokens(340_282_366_920_938_463_463), Some(340_282_366_920_938_463_463 * UNITS_PER_TOKEN));
    assert_eq!(whole_tokens(340_282_366_920_938_463_464), None);
    assert_eq!(whole_tokens(u128::MAX), None);
    assert_eq!(
        token_amount_from_text("340282366920938463463374607431768211455"),
        Some(u128::MAX)
    );
    assert_eq!(token_amount_from_text("340282366920938463463374607431768211456"), None);
    assert_eq!(token_amount_from_text("1.5"), None);
    assert_eq!(token_amount_from_text(""), None);
}
