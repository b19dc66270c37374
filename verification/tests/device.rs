use export_findmy::device::{FakeIOSConfig, PushError};

fn device() -> FakeIOSConfig {
    FakeIOSConfig::with_numbers(0x67e5504410b1426f9247bb680e5fe0c8, 0xabcdef)
}

#[test]
fn identifiers_of_given_numbers() {
    let config = device();
    assert_eq!(config.device_uuid, "67E55044-10B1-426F-9247-BB680E5FE0C8");
    assert_eq!(config.serial, "F2LZN0FAKE00");
    assert_eq!(config.udid, "00000000000000000000000000ABCDEF");
}

#[test]
fn random_identifiers_have_the_shape_of_a_device() {
    let config = FakeIOSConfig::new();
    let uuid: Vec<char> = config.device_uuid.chars().collect();
    assert_eq!(uuid.len(), 36);
    for (i, c) in uuid.iter().enumerate() {
        if [8, 13, 18, 23].contains(&i) {
            assert_eq!(*c, '-');
        } else {
            assert!("0123456789ABCDEF".contains(*c));
        }
    }
    assert_eq!(uuid[14], '4');
    assert!("89AB".contains(uuid[19]));
    assert_eq!(config.udid.len(), 32);
    assert!(config.udid.chars().all(|c| "0123456789ABCDEF".contains(c)));
    assert_eq!(config.serial, "F2LZN0FAKE00");
}

#[test]
fn random_identifiers_differ() {
    let a = FakeIOSConfig::new();
    let b = FakeIOSConfig::new();
    assert_ne!(a.device_uuid, b.device_uuid);
    assert_ne!(a.udid, b.udid);
}

#[test]
fn what_the_device_says_of_itself() {
    let config = device();
    assert_eq!(config.get_activation_device(), "iPhone");
    assert_eq!(config.get_protocol_version(), 1640);
    assert_eq!(config.get_device_name(), "iPhone");
    assert_eq!(config.get_version_ua(), "[iPhone OS,17.4,21E219,iPhone15,2]");
    assert_eq!(
        config.get_login_url(),
        "https://setup.icloud.com/setup/iosbuddy/loginDelegates"
    );
    assert_eq!(
        config.get_aoskit_version(),
        "com.apple.AuthKit/1 (com.apple.akd/1.0)"
    );
    assert_eq!(config.get_device_uuid(), config.device_uuid);
    assert_eq!(config.get_serial_number(), config.serial);
    assert_eq!(config.get_udid(), config.udid);
    assert!(config.get_gsa_hardware_headers().is_empty());
    assert!(config.get_private_data().is_empty());
}

#[test]
fn what_the_device_says_on_request() {
    let config = device();
    assert_eq!(
        config.get_normal_ua("akd/1.0"),
        "akd/1.0 CFNetwork/1494.0.7 Darwin/23.4.0"
    );
    assert_eq!(
        config.get_mme_clientinfo("com.apple.AuthKit/1"),
        "<iPhone15,2> <iPhone OS;17.4;21E219> <com.apple.AuthKit/1>"
    );
    let register = config.get_register_meta();
    assert_eq!(register.hardware_version, "iPhone15,2");
    assert_eq!(register.os_version, "iPhone OS,17.4,21E219");
    assert_eq!(register.software_version, "21E219");
    let debug = config.get_debug_meta();
    assert_eq!(debug.user_version, "17.4");
    assert_eq!(debug.hardware_version, "iPhone15,2");
    assert_eq!(debug.serial_number, "F2LZN0FAKE00");
}

#[test]
fn validation_data_is_refused() {
    assert!(matches!(
        device().generate_validation_data(),
        Err(PushError::BadMsg)
    ));
}
