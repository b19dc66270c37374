use std::time::{Duration, SystemTime, UNIX_EPOCH};

use export_findmy::accessory::{accessory_to_plist, BeaconAccessory, MasterRecord, Naming};
use export_findmy::file_name::{file_name, safe_char, safe_name};

fn accessory(complete: bool) -> BeaconAccessory {
    BeaconAccessory {
        master_record: MasterRecord {
            private_key: vec![1, 2, 3],
            shared_secret: vec![4, 5],
            shared_secret_2: if complete { Some(vec![6]) } else { None },
            secure_locations_shared_secret: if complete { Some(vec![7, 8]) } else { None },
            public_key: vec![9],
            stable_identifier: "stable~1".to_string(),
            model: "AirTag1,1".to_string(),
            pairing_date: if complete {
                Some(UNIX_EPOCH + Duration::from_secs(1700000000))
            } else {
                None
            },
        },
        naming: Naming {
            name: "Keys".to_string(),
            emoji: "\u{1f511}".to_string(),
        },
    }
}

#[test]
fn a_complete_accessory_has_every_key_in_order() {
    let value = accessory_to_plist(&accessory(true));
    let dictionary = value.as_dictionary().unwrap();
    let keys: Vec<&str> = dictionary.keys().map(|k| k.as_str()).collect();
    assert_eq!(
        keys,
        vec![
            "privateKey",
            "sharedSecret",
            "secondarySharedSecret",
            "secureLocationsSharedSecret",
            "publicKey",
            "identifier",
            "model",
            "pairingDate",
            "name",
            "emoji",
        ]
    );
    assert_eq!(dictionary["privateKey"].as_data(), Some(&[1u8, 2, 3][..]));
    assert_eq!(dictionary["sharedSecret"].as_data(), Some(&[4u8, 5][..]));
    assert_eq!(dictionary["secondarySharedSecret"].as_data(), Some(&[6u8][..]));
    assert_eq!(
        dictionary["secureLocationsSharedSecret"].as_data(),
        Some(&[7u8, 8][..])
    );
    assert_eq!(dictionary["publicKey"].as_data(), Some(&[9u8][..]));
    assert_eq!(dictionary["identifier"].as_string(), Some("stable~1"));
    assert_eq!(dictionary["model"].as_string(), Some("AirTag1,1"));
    assert_eq!(
        SystemTime::from(dictionary["pairingDate"].as_date().unwrap()),
        UNIX_EPOCH + Duration::from_secs(1700000000)
    );
    assert_eq!(dictionary["name"].as_string(), Some("Keys"));
    assert_eq!(dictionary["emoji"].as_string(), Some("\u{1f511}"));
}

#[test]
fn what_an_accessory_lacks_has_no_key() {
    let value = accessory_to_plist(&accessory(false));
    let dictionary = value.as_dictionary().unwrap();
    let keys: Vec<&str> = dictionary.keys().map(|k| k.as_str()).collect();
    assert_eq!(
        keys,
        vec!["privateKey", "sharedSecret", "publicKey", "identifier", "model", "name", "emoji"]
    );
}

#[test]
fn an_export_survives_the_file_format() {
    let value = accessory_to_plist(&accessory(true));
    let mut bytes: Vec<u8> = Vec::new();
    value.to_writer_xml(&mut bytes).unwrap();
    let read = plist::Value::from_reader_xml(&bytes[..]).unwrap();
    assert_eq!(read, value);
}

#[test]
fn safe_names() {
    assert_eq!(safe_name("Keys"), "Keys");
    assert_eq!(safe_name("Bob's keys / spare"), "Bob_s_keys___spare");
    assert_eq!(safe_name("../../etc/passwd"), "______etc_passwd");
    assert_eq!(safe_name("caf\u{e9}-\u{5bb6}_9"), "caf\u{e9}-\u{5bb6}_9");
    assert_eq!(safe_name("\u{1f511} a"), "__a");
    assert_eq!(safe_name(""), "");
}

#[test]
fn safe_names_stay() {
    let name = safe_name("a b/c.d:e");
    assert_eq!(name, "a_b_c_d_e");
    assert_eq!(safe_name(&name), name);
}

#[test]
fn ascii_in_safe_names() {
    for n in 0u8..128 {
        let c = n as char;
        let expected = if c.is_ascii_alphanumeric() || c == '-' || c == '_' {
            c
        } else {
            '_'
        };
        assert_eq!(safe_name(&c.to_string()), expected.to_string());
    }
}

#[test]
fn safe_chars() {
    assert_eq!(safe_char('x', true), 'x');
    assert_eq!(safe_char('x', false), '_');
    assert_eq!(safe_char('-', false), '-');
    assert_eq!(safe_char('_', false), '_');
    assert_eq!(safe_char('/', false), '_');
}

#[test]
fn file_names() {
    assert_eq!(file_name("My bag"), "My_bag.plist");
    assert_eq!(file_name(""), ".plist");
    assert_eq!(file_name("My bag"), file_name("My/bag"));
    assert_ne!(file_name("My bag"), file_name("My bags"));
}
