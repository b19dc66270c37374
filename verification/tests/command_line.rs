use export_findmy::command_line::{parse_args, unknown_argument, usage, Invocation, Options};

fn parse(words: &[&str]) -> Invocation {
    let mut args: Vec<String> = vec!["export_findmy".to_string()];
    for word in words {
        args.push(word.to_string());
    }
    parse_args(&args)
}

fn options(words: &[&str]) -> Options {
    match parse(words) {
        Invocation::Run(options) => options,
        _ => panic!("the words do not ask for a run"),
    }
}

#[test]
fn defaults() {
    for o in [options(&[]), match parse_args(&Vec::new()) {
        Invocation::Run(options) => options,
        _ => panic!("an empty command line does not ask for a run"),
    }] {
        assert_eq!(o.apple_id, "");
        assert_eq!(o.anisette_url, "https://ani.sidestore.io");
        assert_eq!(o.output_dir, "accessories");
    }
}

#[test]
fn each_option() {
    let o = options(&[
        "--output-dir",
        "out",
        "--apple-id",
        "me@example.com",
        "--anisette-url",
        "http://localhost:6969",
    ]);
    assert_eq!(o.apple_id, "me@example.com");
    assert_eq!(o.anisette_url, "http://localhost:6969");
    assert_eq!(o.output_dir, "out");
}

#[test]
fn the_last_value_counts() {
    let o = options(&["--apple-id", "a", "--apple-id", "b"]);
    assert_eq!(o.apple_id, "b");
}

#[test]
fn an_option_takes_the_next_word_whatever_it_is() {
    let o = options(&["--apple-id", "--help"]);
    assert_eq!(o.apple_id, "--help");
}

#[test]
fn help_ends_the_reading() {
    assert!(matches!(parse(&["--help"]), Invocation::Help));
    assert!(matches!(parse(&["-h"]), Invocation::Help));
    assert!(matches!(
        parse(&["--apple-id", "a", "-h", "--unheard-of"]),
        Invocation::Help
    ));
}

#[test]
fn an_unknown_word_ends_the_reading() {
    match parse(&["--output-dir", "x", "verbose", "--help"]) {
        Invocation::Unknown(word) => {
            assert_eq!(word, "verbose");
            assert_eq!(unknown_argument(&word), "Unknown argument: verbose");
        }
        _ => panic!("the word is known"),
    }
    assert!(matches!(parse(&["--Help"]), Invocation::Unknown(_)));
}

#[test]
fn an_option_without_its_value() {
    assert!(matches!(parse(&["--apple-id"]), Invocation::MissingValue));
    assert!(matches!(
        parse(&["--apple-id", "a", "--output-dir"]),
        Invocation::MissingValue
    ));
    assert!(matches!(parse(&["--anisette-url"]), Invocation::MissingValue));
}

#[test]
fn usage_text() {
    assert_eq!(
        usage(),
        vec![
            "Usage: export_findmy [OPTIONS]",
            "",
            "Options:",
            "  --apple-id <email>       Apple ID email",
            "  --anisette-url <url>     Anisette server URL (default: https://ani.sidestore.io)",
            "  --output-dir <dir>       Output directory for plist files (default: accessories)",
            "",
            "WARNING: Output plist files contain private key material.",
        ]
    );
}
