use export_findmy::account::{account_ids, hash_password};
use export_findmy::escrow::{bottle_line, choose_bottle, device_name, Bottle};

fn hex(bytes: &[u8]) -> String {
    bytes.iter().map(|b| format!("{:02x}", b)).collect()
}

#[test]
fn password_digests() {
    assert_eq!(
        hex(&hash_password("")),
        "e3b0c44298fc1c149afbf4c8996fb92427ae41e4649b934ca495991b7852b855"
    );
    assert_eq!(
        hex(&hash_password("abc")),
        "ba7816bf8f01cfea414140de5dae2223b00361a396177a9cb410ff61f20015ad"
    );
    assert_eq!(hash_password("p\u{e4}ss").len(), 32);
}

fn spd(dsid: plist::Value, adsid: plist::Value) -> plist::Dictionary {
    let mut dictionary = plist::Dictionary::new();
    dictionary.insert("DsPrsId".to_string(), dsid);
    dictionary.insert("adsid".to_string(), adsid);
    dictionary
}

fn number(n: u64) -> plist::Value {
    plist::Value::Integer(n.into())
}

fn text(t: &str) -> plist::Value {
    plist::Value::String(t.to_string())
}

#[test]
fn identifiers_of_an_account() {
    let ids = account_ids(&spd(number(12345678901), text("000-1"))).unwrap();
    assert_eq!(ids.dsid, "12345678901");
    assert_eq!(ids.adsid, "000-1");
    let ids = account_ids(&spd(number(u64::MAX), text(""))).unwrap();
    assert_eq!(ids.dsid, "18446744073709551615");
    assert_eq!(ids.adsid, "");
}

#[test]
fn identifiers_that_are_not_there() {
    assert!(account_ids(&plist::Dictionary::new()).is_none());
    assert!(account_ids(&spd(text("12"), text("000-1"))).is_none());
    assert!(account_ids(&spd(number(12), number(1))).is_none());
    assert!(account_ids(&spd(plist::Value::Integer((-1i64).into()), text("000-1"))).is_none());
    let mut lone = plist::Dictionary::new();
    lone.insert("DsPrsId".to_string(), number(1));
    assert!(account_ids(&lone).is_none());
    let mut lone = plist::Dictionary::new();
    lone.insert("adsid".to_string(), text("x"));
    assert!(account_ids(&lone).is_none());
}

#[test]
fn names_of_devices() {
    let mut dictionary = plist::Dictionary::new();
    dictionary.insert("device_name".to_string(), text("Phone"));
    assert_eq!(
        device_name(&plist::Value::Dictionary(dictionary)),
        Some("Phone".to_string())
    );
    let mut dictionary = plist::Dictionary::new();
    dictionary.insert("device_name".to_string(), number(1));
    assert_eq!(device_name(&plist::Value::Dictionary(dictionary)), None);
    assert_eq!(device_name(&plist::Value::Dictionary(plist::Dictionary::new())), None);
    assert_eq!(device_name(&text("Phone")), None);
}

#[test]
fn lines_of_bottles() {
    let named = Bottle {
        serial: "C02".to_string(),
        device_name: Some("Phone".to_string()),
    };
    let nameless = Bottle {
        serial: "F17".to_string(),
        device_name: None,
    };
    assert_eq!(bottle_line(0, &named), "    [0] C02 (Phone)");
    assert_eq!(bottle_line(12, &nameless), "    [12] F17");
}

#[test]
fn choices_of_bottles() {
    assert_eq!(choose_bottle("1\n", 3), Ok(1));
    assert_eq!(choose_bottle("  +2  \r\n", 3), Ok(2));
    assert_eq!(choose_bottle("\n", 3), Ok(0));
    assert_eq!(choose_bottle("first", 3), Ok(0));
    assert_eq!(choose_bottle("-1", 3), Ok(0));
    assert_eq!(choose_bottle("99999999999999999999", 3), Ok(0));
    assert_eq!(
        choose_bottle("3", 3),
        Err("Invalid bottle index 3. Must be 0-2.".to_string())
    );
    assert_eq!(
        choose_bottle("1", 1),
        Err("Invalid bottle index 1. Must be 0-0.".to_string())
    );
}
