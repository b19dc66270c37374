use export_findmy::accessory::{BeaconAccessory, MasterRecord, Naming};
use export_findmy::account::hash_password;
use export_findmy::command_line::Options;
use export_findmy::escrow::Bottle;
use export_findmy::session::{Action, Command, Event, Phase, Session};

fn start(apple_id: &str) -> (Session, Command) {
    Session::start(Options {
        apple_id: apple_id.to_string(),
        anisette_url: "http://localhost".to_string(),
        output_dir: "out".to_string(),
    })
}

fn line(text: &str) -> Event {
    Event::Line(text.to_string())
}

fn spd() -> plist::Dictionary {
    let mut dictionary = plist::Dictionary::new();
    dictionary.insert("DsPrsId".to_string(), plist::Value::Integer(42u64.into()));
    dictionary.insert("adsid".to_string(), plist::Value::String("000-1".to_string()));
    dictionary
}

fn bottle(serial: &str, name: Option<&str>) -> Bottle {
    Bottle {
        serial: serial.to_string(),
        device_name: name.map(|n| n.to_string()),
    }
}

fn accessory(name: &str) -> BeaconAccessory {
    BeaconAccessory {
        master_record: MasterRecord {
            private_key: vec![1],
            shared_secret: vec![2],
            shared_secret_2: None,
            secure_locations_shared_secret: None,
            public_key: vec![3],
            stable_identifier: "id".to_string(),
            model: "AirTag1,1".to_string(),
            pairing_date: None,
        },
        naming: Naming {
            name: name.to_string(),
            emoji: "*".to_string(),
        },
    }
}

fn advance(session: Session, event: Event) -> (Session, Command) {
    assert!(session.accepts(&event));
    session.step(event)
}

fn through(session: Session, events: Vec<Event>) -> (Session, Command) {
    let mut session = session;
    let mut last = Command {
        lines: Vec::new(),
        action: Action::Finish,
    };
    for event in events {
        let (s, command) = advance(session, event);
        session = s;
        last = command;
    }
    (session, last)
}

fn logged_in() -> Session {
    let (session, _) = start("me@example.com");
    let (session, command) = through(
        session,
        vec![line("pw\n"), Event::Done, Event::Done, Event::LoggedIn(Some(spd()))],
    );
    assert!(matches!(command.action, Action::CheckFindMyState));
    assert!(command.lines.is_empty());
    session
}

fn at_membership() -> Session {
    let (session, command) = through(
        logged_in(),
        vec![
            Event::Present(true),
            Event::Present(true),
            Event::Present(true),
            Event::Present(true),
        ],
    );
    assert_eq!(command.lines, vec!["[5/7] Joining iCloud Keychain trust circle..."]);
    assert!(matches!(command.action, Action::QueryMembership));
    session
}

fn at_bottles() -> Session {
    let (session, command) = advance(at_membership(), Event::Present(false));
    assert!(command.lines.is_empty());
    assert!(matches!(command.action, Action::FetchBottles));
    session
}

fn at_sync() -> Session {
    let (session, command) = advance(at_membership(), Event::Present(true));
    assert_eq!(
        command.lines,
        vec![
            "  Already in trust circle; skipping escrow join.",
            "[6/7] Fetching FindMy accessories from CloudKit...",
        ]
    );
    assert!(matches!(command.action, Action::Sync));
    session
}

#[test]
fn an_account_that_was_given_is_not_asked_for() {
    let (session, command) = start("me@example.com");
    assert!(session.phase == Phase::Password);
    match command.action {
        Action::Ask { prompt, secret } => {
            assert_eq!(prompt, "Password: ");
            assert!(secret);
        }
        _ => panic!("no question"),
    }
}

#[test]
fn an_account_that_was_not_given_is_asked_for() {
    let (session, command) = start("");
    assert!(session.phase == Phase::AppleId);
    match command.action {
        Action::Ask { prompt, secret } => {
            assert_eq!(prompt, "Apple ID: ");
            assert!(!secret);
        }
        _ => panic!("no question"),
    }
    let (session, command) = advance(session, line(" me@example.com \n"));
    assert_eq!(session.options.apple_id, "me@example.com");
    assert!(matches!(command.action, Action::Ask { secret: true, .. }));
}

#[test]
fn login_uses_the_digest_of_the_trimmed_password() {
    let (session, _) = start("me@example.com");
    let (session, command) = advance(session, line("  pass word\r\n"));
    assert!(command.lines.is_empty());
    match command.action {
        Action::PrepareStorage { output_dir } => assert_eq!(output_dir, "out"),
        _ => panic!("no storage"),
    }
    let (session, command) = advance(session, Event::Done);
    assert_eq!(command.lines, vec!["[1/7] Connecting to anisette server..."]);
    match command.action {
        Action::Connect { url } => assert_eq!(url, "http://localhost"),
        _ => panic!("no connection"),
    }
    let (_, command) = advance(session, Event::Done);
    assert_eq!(command.lines, vec!["[2/7] Logging in to Apple ID..."]);
    match command.action {
        Action::Login {
            apple_id,
            password_hash,
        } => {
            assert_eq!(apple_id, "me@example.com");
            assert_eq!(password_hash, hash_password("pass word"));
        }
        _ => panic!("no login"),
    }
}

#[test]
fn a_login_without_identifiers_ends_the_run() {
    for (event, message) in [
        (Event::LoggedIn(None), "No SPD after login"),
        (
            Event::LoggedIn(Some(plist::Dictionary::new())),
            "No account identifiers after login",
        ),
    ] {
        let (session, _) = start("me@example.com");
        let (session, _) = through(session, vec![line("pw"), Event::Done, Event::Done]);
        let (session, command) = advance(session, event);
        assert!(session.phase == Phase::Finished);
        match command.action {
            Action::Abort(m) => assert_eq!(m, message),
            _ => panic!("no end"),
        }
        assert!(!session.accepts(&Event::Done));
    }
}

#[test]
fn the_state_of_the_accessory_service_is_made_once() {
    let (_, command) = advance(logged_in(), Event::Present(true));
    assert_eq!(
        command.lines,
        vec!["  Logged in (dsid=42)", "[3/7] Fetching MobileMe delegate..."]
    );
    assert!(matches!(command.action, Action::FetchDelegate));

    let (session, command) = advance(logged_in(), Event::Present(false));
    match command.action {
        Action::CreateFindMyState { dsid } => assert_eq!(dsid, "42"),
        _ => panic!("no state"),
    }
    let (_, command) = advance(session, Event::Done);
    assert_eq!(
        command.lines,
        vec!["  Logged in (dsid=42)", "[3/7] Fetching MobileMe delegate..."]
    );
}

#[test]
fn a_missing_delegate_ends_the_run() {
    let (_, command) = through(logged_in(), vec![Event::Present(true), Event::Present(false)]);
    match command.action {
        Action::Abort(message) => assert_eq!(message, "No MobileMe delegate returned"),
        _ => panic!("no end"),
    }
}

#[test]
fn states_that_cannot_be_loaded_are_made_and_saved() {
    let (session, command) = through(logged_in(), vec![Event::Present(true), Event::Present(true)]);
    assert_eq!(command.lines, vec!["[4/7] Setting up CloudKit & Keychain..."]);
    assert!(matches!(command.action, Action::LoadKeychainState));
    let (session, command) = advance(session, Event::Present(false));
    match command.action {
        Action::NewKeychainState { dsid, adsid } => {
            assert_eq!(dsid, "42");
            assert_eq!(adsid, "000-1");
        }
        _ => panic!("no state"),
    }
    let (session, command) = advance(session, Event::Present(false));
    assert_eq!(
        command.lines,
        vec!["  (could not determine escrow proxy URL; using default)"]
    );
    match command.action {
        Action::NewKeychainStateWithHost { dsid, adsid, host } => {
            assert_eq!(dsid, "42");
            assert_eq!(adsid, "000-1");
            assert_eq!(host, "https://escrowproxy.icloud.com:443");
        }
        _ => panic!("no state"),
    }
    let (session, command) = advance(session, Event::Done);
    assert!(matches!(command.action, Action::SaveKeychainState));
    let (session, command) = advance(session, Event::Done);
    assert!(matches!(command.action, Action::LoadCloudKitState));
    let (session, command) = advance(session, Event::Present(false));
    match command.action {
        Action::NewCloudKitState { dsid } => assert_eq!(dsid, "42"),
        _ => panic!("no state"),
    }
    let (session, command) = advance(session, Event::Present(true));
    assert!(matches!(command.action, Action::SaveCloudKitState));
    let (_, command) = advance(session, Event::Done);
    assert!(matches!(command.action, Action::QueryMembership));
}

#[test]
fn a_key_chain_with_a_known_host_is_saved() {
    let (_, command) = through(
        logged_in(),
        vec![
            Event::Present(true),
            Event::Present(true),
            Event::Present(false),
            Event::Present(true),
        ],
    );
    assert!(command.lines.is_empty());
    assert!(matches!(command.action, Action::SaveKeychainState));
}

#[test]
fn a_record_store_that_cannot_be_made_ends_the_run() {
    let (_, command) = through(
        logged_in(),
        vec![
            Event::Present(true),
            Event::Present(true),
            Event::Present(true),
            Event::Present(false),
            Event::Present(false),
        ],
    );
    match command.action {
        Action::Abort(message) => assert_eq!(message, "Failed to create CloudKitState"),
        _ => panic!("no end"),
    }
}

#[test]
fn no_bottles() {
    let (_, command) = advance(at_bottles(), Event::Bottles(Vec::new()));
    match command.action {
        Action::Fail(message) => assert_eq!(
            message,
            "No escrow bottles found. Make sure you have another trusted device."
        ),
        _ => panic!("no end"),
    }
}

#[test]
fn a_single_bottle_is_taken() {
    let (session, command) = advance(
        at_bottles(),
        Event::Bottles(vec![bottle("C02", Some("Phone"))]),
    );
    assert_eq!(
        command.lines,
        vec![
            "  Found 1 escrow bottle(s):",
            "    [0] C02 (Phone)",
            "  Using escrow bottle from device: C02",
        ]
    );
    match command.action {
        Action::Ask { prompt, secret } => {
            assert_eq!(prompt, "  Enter the passcode of that device: ");
            assert!(secret);
        }
        _ => panic!("no question"),
    }
    let (session, command) = advance(session, line(" 123456\n"));
    assert!(command.lines.is_empty());
    match command.action {
        Action::Join {
            bottle,
            passcode,
            device_secret,
        } => {
            assert_eq!(bottle, 0);
            assert_eq!(passcode, b"123456".to_vec());
            assert_eq!(device_secret, b"findmy-export".to_vec());
        }
        _ => panic!("no joining"),
    }
    let (_, command) = advance(session, Event::Done);
    assert_eq!(
        command.lines,
        vec![
            "  Joined keychain trust circle!",
            "[6/7] Fetching FindMy accessories from CloudKit...",
        ]
    );
    assert!(matches!(command.action, Action::Sync));
}

fn two_bottles() -> Session {
    let (session, command) = advance(
        at_bottles(),
        Event::Bottles(vec![bottle("C02", Some("Phone")), bottle("F17", None)]),
    );
    assert_eq!(
        command.lines,
        vec!["  Found 2 escrow bottle(s):", "    [0] C02 (Phone)", "    [1] F17"]
    );
    match command.action {
        Action::Ask { prompt, secret } => {
            assert_eq!(prompt, "  Choose bottle [0]: ");
            assert!(!secret);
        }
        _ => panic!("no question"),
    }
    session
}

#[test]
fn one_of_several_bottles_is_chosen() {
    let (session, command) = advance(two_bottles(), line("1\n"));
    assert_eq!(command.lines, vec!["  Using escrow bottle from device: F17"]);
    let (_, command) = advance(session, line("0000\n"));
    assert!(matches!(command.action, Action::Join { bottle: 1, .. }));
    let (_, command) = advance(two_bottles(), line("\n"));
    assert_eq!(command.lines, vec!["  Using escrow bottle from device: C02"]);
}

#[test]
fn a_bottle_that_is_not_there() {
    let (session, command) = advance(two_bottles(), line("2\n"));
    assert!(session.phase == Phase::Finished);
    match command.action {
        Action::Fail(message) => assert_eq!(message, "Invalid bottle index 2. Must be 0-1."),
        _ => panic!("no end"),
    }
}

#[test]
fn no_accessories() {
    let (session, command) = advance(at_sync(), Event::Accessories(Vec::new()));
    assert!(session.phase == Phase::Finished);
    assert_eq!(
        command.lines,
        vec!["[7/7] Writing plist files...", "  No accessories found!"]
    );
    assert!(matches!(command.action, Action::Finish));
}

#[test]
fn every_accessory_is_written_and_reported() {
    let (session, command) = advance(
        at_sync(),
        Event::Accessories(vec![accessory("My keys"), accessory("Bag")]),
    );
    assert_eq!(command.lines, vec!["[7/7] Writing plist files..."]);
    match command.action {
        Action::WriteFile { file_name, content } => {
            assert_eq!(file_name, "My_keys.plist");
            let dictionary = content.as_dictionary().unwrap();
            assert_eq!(dictionary["name"].as_string(), Some("My keys"));
        }
        _ => panic!("no file"),
    }
    let (session, command) = advance(session, Event::Written("out/My_keys.plist".to_string()));
    assert_eq!(command.lines, vec!["  * My keys (AirTag1,1) -> out/My_keys.plist"]);
    match command.action {
        Action::WriteFile { file_name, content } => {
            assert_eq!(file_name, "Bag.plist");
            let dictionary = content.as_dictionary().unwrap();
            assert_eq!(dictionary["name"].as_string(), Some("Bag"));
        }
        _ => panic!("no file"),
    }
    let (session, command) = advance(session, Event::Written("out/Bag.plist".to_string()));
    assert!(session.phase == Phase::Finished);
    assert_eq!(
        command.lines,
        vec![
            "  * Bag (AirTag1,1) -> out/Bag.plist",
            "",
            "Done! Exported 2 accessory plist file(s) to out",
        ]
    );
    assert!(matches!(command.action, Action::Finish));
}

#[test]
fn no_file_is_written_outside_of_the_directory() {
    let (session, command) = advance(
        at_sync(),
        Event::Accessories(vec![accessory("a/b"), accessory("..\\c\0")]),
    );
    match command.action {
        Action::WriteFile { file_name, .. } => assert_eq!(file_name, "a_b.plist"),
        _ => panic!("no file"),
    }
    let (_, command) = advance(session, Event::Written("out/a_b.plist".to_string()));
    match command.action {
        Action::WriteFile { file_name, .. } => assert_eq!(file_name, "___c_.plist"),
        _ => panic!("no file"),
    }
}

#[test]
fn an_event_that_does_not_fit_is_not_accepted() {
    let (session, _) = start("");
    assert!(!session.accepts(&Event::Done));
    assert!(!session.accepts(&Event::Present(true)));
    assert!(session.accepts(&line("x")));
    assert!(!at_sync().accepts(&Event::Written("x".to_string())));
}
