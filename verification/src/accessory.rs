//! Accessories, and the property list files that they are exported to.

use std::time::SystemTime;

use vstd::prelude::*;
use vstd::string::*;

use crate::property_list::{
    data_value, date_value, dictionary_value, text_value, Entries, Node,
};

verus! {

/// The keys of an accessory, and what it is.
pub struct MasterRecord {
    pub private_key: Vec<u8>,
    pub shared_secret: Vec<u8>,
    pub shared_secret_2: Option<Vec<u8>>,
    pub secure_locations_shared_secret: Option<Vec<u8>>,
    pub public_key: Vec<u8>,
    pub stable_identifier: String,
    pub model: String,
    pub pairing_date: Option<SystemTime>,
}

/// What the owner of an accessory calls it.
pub struct Naming {
    pub name: String,
    pub emoji: String,
}

/// An accessory.
pub struct BeaconAccessory {
    pub master_record: MasterRecord,
    pub naming: Naming,
}

/// An entry of bytes.
pub open spec fn data_entry(key: Seq<char>, data: Seq<u8>) -> Entries {
    seq![(key, Node::Data(data))]
}

/// An entry of bytes, where there are any.
pub open spec fn optional_data_entry(key: Seq<char>, data: Option<Vec<u8>>) -> Entries {
    match data {
        Some(d) => data_entry(key, d@),
        None => Seq::empty(),
    }
}

/// An entry of text.
pub open spec fn text_entry(key: Seq<char>, text: Seq<char>) -> Entries {
    seq![(key, Node::Text(text))]
}

/// An entry of a date, where there is one.
pub open spec fn optional_date_entry(key: Seq<char>, date: Option<SystemTime>) -> Entries {
    match date {
        Some(d) => seq![(key, Node::Date(d))],
        None => Seq::empty(),
    }
}

/// The entries of the property list of an accessory.
pub open spec fn accessory_entries(acc: BeaconAccessory) -> Entries {
    data_entry("privateKey"@, acc.master_record.private_key@)
        + data_entry("sharedSecret"@, acc.master_record.shared_secret@)
        + optional_data_entry("secondarySharedSecret"@, acc.master_record.shared_secret_2)
        + optional_data_entry(
        "secureLocationsSharedSecret"@,
        acc.master_record.secure_locations_shared_secret,
    )
        + data_entry("publicKey"@, acc.master_record.public_key@)
        + text_entry("identifier"@, acc.master_record.stable_identifier@)
        + text_entry("model"@, acc.master_record.model@)
        + optional_date_entry("pairingDate"@, acc.master_record.pairing_date)
        + text_entry("name"@, acc.naming.name@)
        + text_entry("emoji"@, acc.naming.emoji@)
}

/// The keys of the property list of an accessory, in their order.
spec fn accessory_keys() -> Seq<Seq<char>> {
    seq![
        "privateKey"@,
        "sharedSecret"@,
        "secondarySharedSecret"@,
        "secureLocationsSharedSecret"@,
        "publicKey"@,
        "identifier"@,
        "model"@,
        "pairingDate"@,
        "name"@,
        "emoji"@,
    ]
}

/// Whether the entries have keys among the first `n` ones, and none twice.
spec fn keyed(entries: Entries, n: int) -> bool {
    &&& crate::property_list::distinct_keys(entries)
    &&& forall|i: int|
        0 <= i < entries.len() ==> exists|j: int|
            0 <= j < n && (#[trigger] entries[i]).0 == #[trigger] accessory_keys()[j]
}

proof fn lemma_accessory_keys_differ()
    ensures
        forall|i: int, j: int|
            0 <= i < j < 10 ==> #[trigger] accessory_keys()[i] != #[trigger] accessory_keys()[j],
{
    reveal_strlit("privateKey");
    reveal_strlit("sharedSecret");
    reveal_strlit("secondarySharedSecret");
    reveal_strlit("secureLocationsSharedSecret");
    reveal_strlit("publicKey");
    reveal_strlit("identifier");
    reveal_strlit("model");
    reveal_strlit("pairingDate");
    reveal_strlit("name");
    reveal_strlit("emoji");
    let keys = accessory_keys();
    assert(keys[0].len() == 10 && keys[0][0] == 'p');
    assert(keys[1].len() == 12);
    assert(keys[2].len() == 21);
    assert(keys[3].len() == 27);
    assert(keys[4].len() == 9);
    assert(keys[5].len() == 10 && keys[5][0] == 'i');
    assert(keys[6].len() == 5 && keys[6][0] == 'm');
    assert(keys[7].len() == 11);
    assert(keys[8].len() == 4);
    assert(keys[9].len() == 5 && keys[9][0] == 'e');
}

/// The next key is new.
proof fn lemma_next_entry(entries: Entries, n: int, j: int, node: Node)
    requires
        keyed(entries, n),
        0 <= n <= j < 10,
    ensures
        crate::property_list::inserted(entries, accessory_keys()[j], node) == entries + seq![
            (accessory_keys()[j], node),
        ],
        keyed(entries + seq![(accessory_keys()[j], node)], j + 1),
{
    lemma_accessory_keys_differ();
    let key = accessory_keys()[j];
    assert forall|i: int| !crate::property_list::key_at(entries, key, i) by {
        if 0 <= i < entries.len() {
            let k = choose|k: int| 0 <= k < n && entries[i].0 == #[trigger] accessory_keys()[k];
            assert(accessory_keys()[k] != accessory_keys()[j]);
        }
    }
    let after = entries + seq![(key, node)];
    assert(entries.push((key, node)) == after);
    assert forall|i: int| 0 <= i < after.len() implies exists|k: int|
        0 <= k < j + 1 && (#[trigger] after[i]).0 == #[trigger] accessory_keys()[k] by {
        if i < entries.len() {
            let k = choose|k: int| 0 <= k < n && entries[i].0 == #[trigger] accessory_keys()[k];
            assert(after[i].0 == accessory_keys()[k]);
        } else {
            assert(after[i].0 == accessory_keys()[j]);
        }
    }
    assert forall|a: int, b: int| 0 <= a < b < after.len() implies (#[trigger] after[a]).0 != (
    #[trigger] after[b]).0 by {
        assert(!crate::property_list::key_at(entries, key, a));
    }
}

/// Lists the keys of an accessory, and what it is, as a property list.
pub fn accessory_to_plist(acc: &BeaconAccessory) -> (value: plist::Value)
    ensures
        crate::property_list::value_node(value) == Node::Dictionary(accessory_entries(*acc)),
{
    let mut dict = plist::Dictionary::new();
    let ghost e0 = crate::property_list::dictionary_entries(dict);
    proof {
        lemma_next_entry(e0, 0, 0, Node::Data(acc.master_record.private_key@));
    }
    dict.insert("privateKey".to_string(), data_value(acc.master_record.private_key.clone()));
    let ghost e1 = crate::property_list::dictionary_entries(dict);
    proof {
        lemma_next_entry(e1, 1, 1, Node::Data(acc.master_record.shared_secret@));
    }
    dict.insert("sharedSecret".to_string(), data_value(acc.master_record.shared_secret.clone()));
    let ghost e2 = crate::property_list::dictionary_entries(dict);
    if let Some(ss2) = &acc.master_record.shared_secret_2 {
        proof {
            lemma_next_entry(e2, 2, 2, Node::Data(ss2@));
        }
        dict.insert("secondarySharedSecret".to_string(), data_value(ss2.clone()));
    }
    let ghost e3 = crate::property_list::dictionary_entries(dict);
    if let Some(slss) = &acc.master_record.secure_locations_shared_secret {
        proof {
            lemma_next_entry(e3, 3, 3, Node::Data(slss@));
        }
        dict.insert("secureLocationsSharedSecret".to_string(), data_value(slss.clone()));
    }
    let ghost e4 = crate::property_list::dictionary_entries(dict);
    proof {
        lemma_next_entry(e4, 4, 4, Node::Data(acc.master_record.public_key@));
    }
    dict.insert("publicKey".to_string(), data_value(acc.master_record.public_key.clone()));
    let ghost e5 = crate::property_list::dictionary_entries(dict);
    proof {
        lemma_next_entry(e5, 5, 5, Node::Text(acc.master_record.stable_identifier@));
    }
    dict.insert("identifier".to_string(), text_value(acc.master_record.stable_identifier.clone()));
    let ghost e6 = crate::property_list::dictionary_entries(dict);
    proof {
        lemma_next_entry(e6, 6, 6, Node::Text(acc.master_record.model@));
    }
    dict.insert("model".to_string(), text_value(acc.master_record.model.clone()));
    let ghost e7 = crate::property_list::dictionary_entries(dict);
    if let Some(pairing_date) = acc.master_record.pairing_date {
        proof {
            lemma_next_entry(e7, 7, 7, Node::Date(pairing_date));
        }
        dict.insert("pairingDate".to_string(), date_value(pairing_date));
    }
    let ghost e8 = crate::property_list::dictionary_entries(dict);
    proof {
        lemma_next_entry(e8, 8, 8, Node::Text(acc.naming.name@));
    }
    dict.insert("name".to_string(), text_value(acc.naming.name.clone()));
    let ghost e9 = crate::property_list::dictionary_entries(dict);
    proof {
        lemma_next_entry(e9, 9, 9, Node::Text(acc.naming.emoji@));
    }
    dict.insert("emoji".to_string(), text_value(acc.naming.emoji.clone()));
    assert(crate::property_list::dictionary_entries(dict) == accessory_entries(*acc));
    dictionary_value(dict)
}

/// The property list of an accessory has its entries in a fixed order, those of what the
/// accessory lacks left out, and no others.
pub proof fn lemma_export_in_order(acc: BeaconAccessory)
    ensures
        ({
            let entries = accessory_entries(acc);
            let record = acc.master_record;
            let a: int = if record.shared_secret_2 is Some { 1 } else { 0 };
            let b: int = a + if record.secure_locations_shared_secret is Some { 1int } else { 0 };
            let c: int = b + if record.pairing_date is Some { 1int } else { 0 };
            &&& entries.len() == 7 + c
            &&& entries[0] == ("privateKey"@, Node::Data(record.private_key@))
            &&& entries[1] == ("sharedSecret"@, Node::Data(record.shared_secret@))
            &&& record.shared_secret_2 matches Some(ss2) ==> entries[2] == (
                "secondarySharedSecret"@,
                Node::Data(ss2@),
            )
            &&& record.secure_locations_shared_secret matches Some(slss) ==> entries[2 + a] == (
                "secureLocationsSharedSecret"@,
                Node::Data(slss@),
            )
            &&& entries[2 + b] == ("publicKey"@, Node::Data(record.public_key@))
            &&& entries[3 + b] == ("identifier"@, Node::Text(record.stable_identifier@))
            &&& entries[4 + b] == ("model"@, Node::Text(record.model@))
            &&& record.pairing_date matches Some(date) ==> entries[5 + b] == (
                "pairingDate"@,
                Node::Date(date),
            )
            &&& entries[5 + c] == ("name"@, Node::Text(acc.naming.name@))
            &&& entries[6 + c] == ("emoji"@, Node::Text(acc.naming.emoji@))
        }),
{
}

/// The property list of an accessory answers each key with what the accessory holds, and the
/// keys of what the accessory lacks are not there. No key stands twice.
pub proof fn lemma_export_reads_back(acc: BeaconAccessory)
    ensures
        crate::property_list::distinct_keys(accessory_entries(acc)),
        crate::property_list::lookup(accessory_entries(acc), "privateKey"@) == Some(
            Node::Data(acc.master_record.private_key@),
        ),
        crate::property_list::lookup(accessory_entries(acc), "sharedSecret"@) == Some(
            Node::Data(acc.master_record.shared_secret@),
        ),
        crate::property_list::lookup(accessory_entries(acc), "secondarySharedSecret"@) == (
        match acc.master_record.shared_secret_2 {
            Some(ss2) => Some(Node::Data(ss2@)),
            None => None,
        }),
        crate::property_list::lookup(accessory_entries(acc), "secureLocationsSharedSecret"@) == (
        match acc.master_record.secure_locations_shared_secret {
            Some(slss) => Some(Node::Data(slss@)),
            None => None,
        }),
        crate::property_list::lookup(accessory_entries(acc), "publicKey"@) == Some(
            Node::Data(acc.master_record.public_key@),
        ),
        crate::property_list::lookup(accessory_entries(acc), "identifier"@) == Some(
            Node::Text(acc.master_record.stable_identifier@),
        ),
        crate::property_list::lookup(accessory_entries(acc), "model"@) == Some(
            Node::Text(acc.master_record.model@),
        ),
        crate::property_list::lookup(accessory_entries(acc), "pairingDate"@) == (
        match acc.master_record.pairing_date {
            Some(date) => Some(Node::Date(date)),
            None => None,
        }),
        crate::property_list::lookup(accessory_entries(acc), "name"@) == Some(
            Node::Text(acc.naming.name@),
        ),
        crate::property_list::lookup(accessory_entries(acc), "emoji"@) == Some(
            Node::Text(acc.naming.emoji@),
        ),
{
    let entries = accessory_entries(acc);
    let record = acc.master_record;
    let keys = accessory_keys();
    lemma_accessory_keys_differ();
    assert(keys[0] == "privateKey"@ && keys[1] == "sharedSecret"@ && keys[2]
        == "secondarySharedSecret"@ && keys[3] == "secureLocationsSharedSecret"@ && keys[4]
        == "publicKey"@ && keys[5] == "identifier"@ && keys[6] == "model"@ && keys[7]
        == "pairingDate"@ && keys[8] == "name"@ && keys[9] == "emoji"@);
    let a: int = if record.shared_secret_2 is Some { 1 } else { 0 };
    let b: int = a + if record.secure_locations_shared_secret is Some { 1int } else { 0 };
    let c: int = b + if record.pairing_date is Some { 1int } else { 0 };
    assert(entries[0] == (keys[0], Node::Data(record.private_key@)));
    assert(entries[1] == (keys[1], Node::Data(record.shared_secret@)));
    assert(a == 1 ==> entries[2] == (keys[2], Node::Data(record.shared_secret_2->0@)));
    assert(b == a + 1 ==> entries[2 + a] == (
        keys[3],
        Node::Data(record.secure_locations_shared_secret->0@),
    ));
    assert(entries[2 + b] == (keys[4], Node::Data(record.public_key@)));
    assert(entries[3 + b] == (keys[5], Node::Text(record.stable_identifier@)));
    assert(entries[4 + b] == (keys[6], Node::Text(record.model@)));
    assert(c == b + 1 ==> entries[5 + b] == (keys[7], Node::Date(record.pairing_date->0)));
    assert(entries[5 + c] == (keys[8], Node::Text(acc.naming.name@)));
    assert(entries[6 + c] == (keys[9], Node::Text(acc.naming.emoji@)));
    assert(entries.len() == 7 + c);
    assert(crate::property_list::distinct_keys(entries));
    crate::property_list::lemma_lookup_at(entries, 0);
    crate::property_list::lemma_lookup_at(entries, 1);
    crate::property_list::lemma_lookup_at(entries, 2 + b);
    crate::property_list::lemma_lookup_at(entries, 3 + b);
    crate::property_list::lemma_lookup_at(entries, 4 + b);
    crate::property_list::lemma_lookup_at(entries, 5 + c);
    crate::property_list::lemma_lookup_at(entries, 6 + c);
    if a == 1 {
        crate::property_list::lemma_lookup_at(entries, 2);
    }
    if b == a + 1 {
        crate::property_list::lemma_lookup_at(entries, 2 + a);
    }
    if c == b + 1 {
        crate::property_list::lemma_lookup_at(entries, 5 + b);
    }
    assert(a == 0 ==> forall|i: int| !crate::property_list::key_at(entries, keys[2], i));
    assert(b == a ==> forall|i: int| !crate::property_list::key_at(entries, keys[3], i));
    assert(c == b ==> forall|i: int| !crate::property_list::key_at(entries, keys[7], i));
}

} // verus!
