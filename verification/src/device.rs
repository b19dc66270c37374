//! The device that the program presents itself as.

use std::collections::HashMap;

use vstd::arithmetic::power::*;
use vstd::prelude::*;
use vstd::string::*;

use crate::text::hex_text;

verus! {

/// `rand::random` gives a number of 128 bits, of which nothing is known. It panics only where
/// the system has no random numbers to give.
#[verifier::external_body]
fn random_number() -> (number: u128) {
    rand::random::<u128>()
}

/// The digit of a number in base sixteen at a place counted from the right.
pub open spec fn hex_digit_at(number: u128, place: nat) -> nat {
    number as nat / crate::text::pow16(place) % 16
}

/// Whether a number has the marks of a random universally unique identifier: version four, and
/// the variant of the standard.
pub open spec fn is_random_uuid(number: u128) -> bool {
    hex_digit_at(number, 19) == 4 && 8 <= hex_digit_at(number, 15) < 12
}

/// `Uuid::new_v4` gives a random universally unique identifier: two fields of the number are
/// fixed, and nothing is known of the rest. It panics only where the system has no random
/// numbers to give.
#[verifier::external_body]
fn random_uuid() -> (number: u128)
    ensures
        is_random_uuid(number),
{
    uuid::Uuid::new_v4().as_u128()
}

/// The text of a universally unique identifier: thirty-two hexadecimal digits in five groups.
pub open spec fn hyphenated(number: u128, capital: bool) -> Seq<char> {
    let digits = crate::text::hex(number as nat, 32, capital);
    digits.subrange(0, 8) + seq!['-'] + digits.subrange(8, 12) + seq!['-'] + digits.subrange(12, 16)
        + seq!['-'] + digits.subrange(16, 20) + seq!['-'] + digits.subrange(20, 32)
}

/// `Uuid::to_string` writes a universally unique identifier in small letters.
#[verifier::external_body]
fn uuid_text(number: u128) -> (text: String)
    ensures
        text@ == hyphenated(number, false),
{
    uuid::Uuid::from_u128(number).to_string()
}

/// The capital of a small letter of ASCII; any other character as it is.
pub open spec fn capital(c: char) -> char {
    if 'a' <= c <= 'z' {
        (c as u32 - 32) as char
    } else {
        c
    }
}

/// A text of ASCII in capital letters.
pub open spec fn capitals(text: Seq<char>) -> Seq<char> {
    Seq::new(text.len(), |i: int| capital(text[i]))
}

/// `str::to_uppercase` writes a text in capital letters. Only texts of ASCII are handed to it.
pub assume_specification[ str::to_uppercase ](text: &str) -> (result: String)
    requires
        text.is_ascii(),
    ensures
        result@ == capitals(text@),
;

proof fn lemma_capital_digits(n: nat, len: nat)
    ensures
        crate::text::hex(n, len, false).len() == len,
        crate::text::hex(n, len, true).len() == len,
        forall|i: int|
            #![trigger crate::text::hex(n, len, false)[i]]
            0 <= i < len ==> crate::text::hex(n, len, false)[i] < '\u{80}' && capital(
                crate::text::hex(n, len, false)[i],
            ) == crate::text::hex(n, len, true)[i],
    decreases len,
{
    if len > 0 {
        lemma_capital_digits(n / 16, (len - 1) as nat);
    }
}

proof fn lemma_capital_uuid(number: u128)
    ensures
        vstd::utf8::is_ascii_chars(hyphenated(number, false)),
        capitals(hyphenated(number, false)) == hyphenated(number, true),
{
    lemma_capital_digits(number as nat, 32);
}

/// What a device tells about itself when it registers.
pub struct RegisterMeta {
    pub hardware_version: String,
    pub os_version: String,
    pub software_version: String,
}

/// What a device tells about itself in diagnostics.
pub struct DebugMeta {
    pub user_version: String,
    pub hardware_version: String,
    pub serial_number: String,
}

/// Why a device did not answer.
pub enum PushError {
    BadMsg,
}

/// A phone that exists only in what it says of itself.
pub struct FakeIOSConfig {
    pub device_uuid: String,
    pub serial: String,
    pub udid: String,
}

impl FakeIOSConfig {
    /// Whether the fields are those of a device that was made from random numbers.
    pub open spec fn well_formed(self) -> bool {
        &&& exists|number: u128| #[trigger]
            is_random_uuid(number) && self.device_uuid@ == hyphenated(number, true)
        &&& self.serial@ == "F2LZN0FAKE00"@
        &&& exists|number: u128| self.udid@ == #[trigger] crate::text::hex(number as nat, 32, true)
    }

    /// Makes a device with random identifiers.
    pub fn new() -> (config: Self)
        ensures
            config.well_formed(),
            exists|number: u128| #[trigger]
                is_random_uuid(number) && config.device_uuid@ == hyphenated(number, true),
            config.serial@ == "F2LZN0FAKE00"@,
            exists|number: u128|
                config.udid@ == #[trigger] crate::text::hex(number as nat, 32, true),
    {
        let uuid = random_uuid();
        let udid = random_number();
        FakeIOSConfig::with_numbers(uuid, udid)
    }

    /// Makes a device with the given identifiers.
    pub fn with_numbers(uuid: u128, udid: u128) -> (config: Self)
        ensures
            config.device_uuid@ == hyphenated(uuid, true),
            config.serial@ == "F2LZN0FAKE00"@,
            config.udid@ == crate::text::hex(udid as nat, 32, true),
    {
        let device_uuid = uuid_text(uuid);
        proof {
            lemma_capital_uuid(uuid);
        }
        FakeIOSConfig {
            device_uuid: device_uuid.as_str().to_uppercase(),
            serial: "F2LZN0FAKE00".to_string(),
            udid: hex_text(udid, 32),
        }
    }

    /// The kind of device that is activated.
    pub fn get_activation_device(&self) -> (device: String)
        ensures
            device@ == "iPhone"@,
    {
        "iPhone".to_string()
    }

    /// Validation data is never generated.
    pub fn generate_validation_data(&self) -> (data: Result<Vec<u8>, PushError>)
        ensures
            data matches Err(PushError::BadMsg),
    {
        Err(PushError::BadMsg)
    }

    /// The version of the registration protocol.
    pub fn get_protocol_version(&self) -> (version: u32)
        ensures
            version == 1640,
    {
        1640
    }

    /// What the device tells about itself when it registers.
    pub fn get_register_meta(&self) -> (meta: RegisterMeta)
        ensures
            meta.hardware_version@ == "iPhone15,2"@,
            meta.os_version@ == "iPhone OS,17.4,21E219"@,
            meta.software_version@ == "21E219"@,
    {
        RegisterMeta {
            hardware_version: "iPhone15,2".to_string(),
            os_version: "iPhone OS,17.4,21E219".to_string(),
            software_version: "21E219".to_string(),
        }
    }

    /// How a part of the device introduces itself to a server.
    pub fn get_normal_ua(&self, item: &str) -> (agent: String)
        ensures
            agent@ == item@ + " CFNetwork/1494.0.7 Darwin/23.4.0"@,
    {
        item.to_string().concat(" CFNetwork/1494.0.7 Darwin/23.4.0")
    }

    /// How a part of the device introduces itself to the account service.
    pub fn get_mme_clientinfo(&self, for_item: &str) -> (info: String)
        ensures
            info@ == "<iPhone15,2> <iPhone OS;17.4;21E219> <"@ + for_item@ + ">"@,
    {
        "<iPhone15,2> <iPhone OS;17.4;21E219> <".to_string().concat(for_item).concat(">")
    }

    /// How the device introduces its version.
    pub fn get_version_ua(&self) -> (agent: String)
        ensures
            agent@ == "[iPhone OS,17.4,21E219,iPhone15,2]"@,
    {
        "[iPhone OS,17.4,21E219,iPhone15,2]".to_string()
    }

    /// What the device is called.
    pub fn get_device_name(&self) -> (name: String)
        ensures
            name@ == "iPhone"@,
    {
        "iPhone".to_string()
    }

    /// The universally unique identifier of the device.
    pub fn get_device_uuid(&self) -> (uuid: String)
        ensures
            uuid == self.device_uuid,
    {
        self.device_uuid.clone()
    }

    /// The device has no private data.
    pub fn get_private_data(&self) -> (data: plist::Dictionary)
        ensures
            crate::property_list::dictionary_entries(data).len() == 0,
    {
        plist::Dictionary::new()
    }

    /// What the device tells about itself in diagnostics.
    pub fn get_debug_meta(&self) -> (meta: DebugMeta)
        ensures
            meta.user_version@ == "17.4"@,
            meta.hardware_version@ == "iPhone15,2"@,
            meta.serial_number == self.serial,
    {
        DebugMeta {
            user_version: "17.4".to_string(),
            hardware_version: "iPhone15,2".to_string(),
            serial_number: self.serial.clone(),
        }
    }

    /// Where the device logs in.
    pub fn get_login_url(&self) -> (url: &'static str)
        ensures
            url@ == "https://setup.icloud.com/setup/iosbuddy/loginDelegates"@,
    {
        "https://setup.icloud.com/setup/iosbuddy/loginDelegates"
    }

    /// The serial number of the device.
    pub fn get_serial_number(&self) -> (serial: String)
        ensures
            serial == self.serial,
    {
        self.serial.clone()
    }

    /// The device adds no headers of its own to a login.
    pub fn get_gsa_hardware_headers(&self) -> (headers: HashMap<String, String>)
        ensures
            headers@ == Map::<String, String>::empty(),
    {
        HashMap::new()
    }

    /// The version of the account software.
    pub fn get_aoskit_version(&self) -> (version: String)
        ensures
            version@ == "com.apple.AuthKit/1 (com.apple.akd/1.0)"@,
    {
        "com.apple.AuthKit/1 (com.apple.akd/1.0)".to_string()
    }

    /// The unique device identifier.
    pub fn get_udid(&self) -> (udid: String)
        ensures
            udid == self.udid,
    {
        self.udid.clone()
    }
}

proof fn lemma_hex_char_at(n: nat, len: nat, i: int)
    requires
        0 <= i < len,
    ensures
        crate::text::hex(n, len, true).len() == len,
        crate::text::hex(n, len, true)[i] == crate::text::hex_char(
            n / crate::text::pow16((len - 1 - i) as nat) % 16,
            true,
        ),
    decreases len,
{
    lemma_capital_digits(n, len);
    lemma_capital_digits(n / 16, (len - 1) as nat);
    if i == len - 1 {
        assert(crate::text::pow16(0) == 1);
        assert(n / 1 == n);
    } else {
        lemma_hex_char_at(n / 16, (len - 1) as nat, i);
        let p = crate::text::pow16((len - 2 - i) as nat);
        assert(crate::text::pow16((len - 1 - i) as nat) == 16 * p);
        lemma_pow16_positive((len - 2 - i) as nat);
        vstd::arithmetic::div_mod::lemma_div_denominator(n as int, 16, p as int);
        assert(n / 16 / p == n / (16 * p));
        assert(crate::text::hex(n, len, true)[i] == crate::text::hex(
            n / 16,
            (len - 1) as nat,
            true,
        )[i]);
    }
}

proof fn lemma_pow16_positive(k: nat)
    ensures
        crate::text::pow16(k) > 0,
    decreases k,
{
    if k > 0 {
        lemma_pow16_positive((k - 1) as nat);
    }
}

/// Every device that is made from random numbers has the identifiers of a phone: a universally
/// unique identifier of thirty-six characters, in capital letters, with the marks of version
/// four; and a unique device identifier of thirty-two hexadecimal digits.
pub proof fn lemma_identifiers(config: FakeIOSConfig)
    requires
        config.well_formed(),
    ensures
        config.device_uuid@.len() == 36,
        forall|i: int|
            0 <= i < 36 ==> (#[trigger] config.device_uuid@[i] == '-' <==> i == 8 || i == 13 || i
                == 18 || i == 23),
        forall|i: int|
            0 <= i < 36 && #[trigger] config.device_uuid@[i] != '-' ==> crate::text::is_hex_digit(
                config.device_uuid@[i],
            ),
        config.device_uuid@[14] == '4',
        config.device_uuid@[19] == '8' || config.device_uuid@[19] == '9' || config.device_uuid@[19]
            == 'A' || config.device_uuid@[19] == 'B',
        config.serial@ == "F2LZN0FAKE00"@,
        config.udid@.len() == 32,
        forall|i: int| 0 <= i < 32 ==> crate::text::is_hex_digit(#[trigger] config.udid@[i]),
{
    let uuid = choose|number: u128| #[trigger]
        is_random_uuid(number) && config.device_uuid@ == hyphenated(number, true);
    let udid = choose|number: u128|
        config.udid@ == #[trigger] crate::text::hex(number as nat, 32, true);
    crate::text::lemma_hex_round_trip(uuid);
    crate::text::lemma_hex_round_trip(udid);
    let digits = crate::text::hex(uuid as nat, 32, true);
    lemma_hex_char_at(uuid as nat, 32, 12);
    lemma_hex_char_at(uuid as nat, 32, 16);
    assert(config.device_uuid@[14] == digits[12]);
    assert(config.device_uuid@[19] == digits[16]);
}

/// A universally unique identifier shows the digits of its number from left to right, in groups
/// of eight, four, four, four and twelve, with a hyphen between two groups.
pub proof fn lemma_uuid_by_place(number: u128, capital: bool)
    ensures
        hyphenated(number, capital).len() == 36,
        forall|i: int|
            #![trigger hyphenated(number, capital)[i]]
            0 <= i < 36 ==> {
                let hyphens: int = if i < 8 {
                    0
                } else if i < 13 {
                    1
                } else if i < 18 {
                    2
                } else if i < 23 {
                    3
                } else {
                    4
                };
                let d = number as int / pow(16, (31 - (i - hyphens)) as nat) % 16;
                hyphenated(number, capital)[i] as int == if i == 8 || i == 13 || i == 18 || i
                    == 23 {
                    45
                } else if d < 10 {
                    48 + d
                } else if capital {
                    55 + d
                } else {
                    87 + d
                }
            },
{
    crate::text::lemma_hex_by_place(number as nat, 32, capital);
    let digits = crate::text::hex(number as nat, 32, capital);
    let text = hyphenated(number, capital);
    assert forall|i: int| 0 <= i < 36 implies #[trigger] text[i] == if i == 8 || i == 13 || i == 18
        || i == 23 {
        '-'
    } else if i < 8 {
        digits[i]
    } else if i < 13 {
        digits[i - 1]
    } else if i < 18 {
        digits[i - 2]
    } else if i < 23 {
        digits[i - 3]
    } else {
        digits[i - 4]
    } by {}
    assert('-' as int == 45);
}

/// A number is that of a random universally unique identifier where its thirteenth digit tells
/// version four, and its seventeenth digit the variant of the standard.
pub proof fn lemma_marks_of_a_random_uuid(number: u128)
    ensures
        is_random_uuid(number) <==> number as int / pow(16, 19) % 16 == 4 && 8 <= number as int
            / pow(16, 15) % 16 < 12,
{
    lemma_power_of_sixteen(19);
    lemma_power_of_sixteen(15);
}

proof fn lemma_power_of_sixteen(k: nat)
    ensures
        crate::text::pow16(k) == pow(16, k),
    decreases k,
{
    reveal(pow);
    if k > 0 {
        lemma_power_of_sixteen((k - 1) as nat);
    }
}

/// The capital of a character of ASCII is thirty-two places before it where it is a small
/// letter, and the character itself where it is not.
pub proof fn lemma_capitals_by_character(text: Seq<char>)
    ensures
        capitals(text).len() == text.len(),
        forall|i: int|
            #![trigger capitals(text)[i]]
            0 <= i < text.len() ==> capitals(text)[i] as int == if 97 <= text[i] as int <= 122 {
                text[i] as int - 32
            } else {
                text[i] as int
            },
{
}

} // verus!
