//! The command line.

use vstd::prelude::*;
use vstd::string::*;

use crate::text::same_text;

verus! {

/// What a run of the program works with.
pub struct Options {
    /// Empty where it is to be asked for.
    pub apple_id: String,
    pub anisette_url: String,
    pub output_dir: String,
}

/// The content of the options.
pub struct OptionsView {
    pub apple_id: Seq<char>,
    pub anisette_url: Seq<char>,
    pub output_dir: Seq<char>,
}

impl View for Options {
    type V = OptionsView;

    open spec fn view(&self) -> OptionsView {
        OptionsView {
            apple_id: self.apple_id@,
            anisette_url: self.anisette_url@,
            output_dir: self.output_dir@,
        }
    }
}

/// What the command line asks for.
pub enum Invocation {
    /// To run with the options.
    Run(Options),
    /// To explain the options.
    Help,
    /// Something that is not known.
    Unknown(String),
    /// An option that lacks its value.
    MissingValue,
}

/// The content of what the command line asks for.
pub enum InvocationView {
    Run(OptionsView),
    Help,
    Unknown(Seq<char>),
    MissingValue,
}

impl View for Invocation {
    type V = InvocationView;

    open spec fn view(&self) -> InvocationView {
        match *self {
            Invocation::Run(options) => InvocationView::Run(options@),
            Invocation::Help => InvocationView::Help,
            Invocation::Unknown(word) => InvocationView::Unknown(word@),
            Invocation::MissingValue => InvocationView::MissingValue,
        }
    }
}

/// The options of an empty command line.
pub open spec fn default_options() -> OptionsView {
    OptionsView {
        apple_id: Seq::empty(),
        anisette_url: "https://ani.sidestore.io"@,
        output_dir: "accessories"@,
    }
}

/// Whether a word is an option that takes a value.
pub open spec fn takes_value(word: Seq<char>) -> bool {
    word == "--apple-id"@ || word == "--anisette-url"@ || word == "--output-dir"@
}

/// Whether a word asks for help.
pub open spec fn asks_for_help(word: Seq<char>) -> bool {
    word == "--help"@ || word == "-h"@
}

/// The options after one of them was given a value.
pub open spec fn with_value(options: OptionsView, word: Seq<char>, value: Seq<char>) -> OptionsView {
    if word == "--apple-id"@ {
        OptionsView { apple_id: value, ..options }
    } else if word == "--anisette-url"@ {
        OptionsView { anisette_url: value, ..options }
    } else {
        OptionsView { output_dir: value, ..options }
    }
}

/// What the words ask for, read from left to right on top of the options so far.
pub open spec fn interpreted(words: Seq<Seq<char>>, options: OptionsView) -> InvocationView
    decreases words.len(),
{
    if words.len() == 0 {
        InvocationView::Run(options)
    } else if takes_value(words[0]) {
        if words.len() == 1 {
            InvocationView::MissingValue
        } else {
            interpreted(words.skip(2), with_value(options, words[0], words[1]))
        }
    } else if asks_for_help(words[0]) {
        InvocationView::Help
    } else {
        InvocationView::Unknown(words[0])
    }
}

/// The words that follow the name of the program.
pub open spec fn arguments(words: Seq<Seq<char>>) -> Seq<Seq<char>> {
    if words.len() == 0 {
        words
    } else {
        words.skip(1)
    }
}

/// Reads the command line, whose first word is the name of the program.
pub fn parse_args(args: &Vec<String>) -> (invocation: Invocation)
    ensures
        invocation@ == interpreted(arguments(crate::text::views(args@)), default_options()),
{
    let mut options = Options {
        apple_id: String::new(),
        anisette_url: "https://ani.sidestore.io".to_string(),
        output_dir: "accessories".to_string(),
    };
    let ghost words = crate::text::views(args@);
    let mut i: usize = 1;
    while i < args.len()
        invariant
            1 <= i,
            words == crate::text::views(args@),
            args.len() > 0 ==> i <= args.len(),
            args.len() > 0 ==> interpreted(arguments(words), default_options()) == interpreted(
                words.skip(i as int),
                options@,
            ),
            args.len() == 0 ==> options@ == default_options(),
        decreases args.len() - i,
    {
        let ghost rest = words.skip(i as int);
        let arg = args[i].as_str();
        assert(rest[0] == arg@);
        if same_text(arg, "--apple-id") || same_text(arg, "--anisette-url") || same_text(
            arg,
            "--output-dir",
        ) {
            i = i + 1;
            if i == args.len() {
                return Invocation::MissingValue;
            }
            assert(rest[1] == args@[i as int]@);
            assert(rest.skip(2) == words.skip(i + 1));
            if same_text(arg, "--apple-id") {
                options.apple_id = args[i].clone();
            } else if same_text(arg, "--anisette-url") {
                options.anisette_url = args[i].clone();
            } else {
                options.output_dir = args[i].clone();
            }
        } else if same_text(arg, "--help") || same_text(arg, "-h") {
            return Invocation::Help;
        } else {
            return Invocation::Unknown(args[i].clone());
        }
        i = i + 1;
    }
    Invocation::Run(options)
}

/// The lines that explain the options.
pub open spec fn usage_lines() -> Seq<Seq<char>> {
    seq![
        "Usage: export_findmy [OPTIONS]"@,
        ""@,
        "Options:"@,
        "  --apple-id <email>       Apple ID email"@,
        "  --anisette-url <url>     Anisette server URL (default: https://ani.sidestore.io)"@,
        "  --output-dir <dir>       Output directory for plist files (default: accessories)"@,
        ""@,
        "WARNING: Output plist files contain private key material."@,
    ]
}

/// Explains the options.
pub fn usage() -> (lines: Vec<String>)
    ensures
        crate::text::views(lines@) == usage_lines(),
        lines.len() == 8,
        lines[0]@ == "Usage: export_findmy [OPTIONS]"@,
        lines[1]@ == ""@,
        lines[2]@ == "Options:"@,
        lines[3]@ == "  --apple-id <email>       Apple ID email"@,
        lines[4]@
            == "  --anisette-url <url>     Anisette server URL (default: https://ani.sidestore.io)"@,
        lines[5]@
            == "  --output-dir <dir>       Output directory for plist files (default: accessories)"@,
        lines[6]@ == ""@,
        lines[7]@ == "WARNING: Output plist files contain private key material."@,
{
    vec![
        "Usage: export_findmy [OPTIONS]".to_string(),
        "".to_string(),
        "Options:".to_string(),
        "  --apple-id <email>       Apple ID email".to_string(),
        "  --anisette-url <url>     Anisette server URL (default: https://ani.sidestore.io)".to_string(),
        "  --output-dir <dir>       Output directory for plist files (default: accessories)".to_string(),
        "".to_string(),
        "WARNING: Output plist files contain private key material.".to_string(),
    ]
}

/// Complains about something that is not known.
pub fn unknown_argument(word: &str) -> (line: String)
    ensures
        line@ == "Unknown argument: "@ + word@,
{
    "Unknown argument: ".to_string().concat(word)
}

/// Words that are options with their values change nothing but the options on top of which the
/// rest is read.
pub proof fn lemma_options_accumulate(
    first: Seq<Seq<char>>,
    rest: Seq<Seq<char>>,
    options: OptionsView,
    after: OptionsView,
)
    requires
        interpreted(first, options) == InvocationView::Run(after),
    ensures
        interpreted(first + rest, options) == interpreted(rest, after),
    decreases first.len(),
{
    if first.len() == 0 {
        assert(first + rest == rest);
    } else {
        lemma_options_accumulate(
            first.skip(2),
            rest,
            with_value(options, first[0], first[1]),
            after,
        );
        assert((first + rest).skip(2) == first.skip(2) + rest);
    }
}

/// Where an option is given more than once, its last value counts.
pub proof fn lemma_last_value_counts(
    first: Seq<Seq<char>>,
    word: Seq<char>,
    value: Seq<char>,
    options: OptionsView,
    after: OptionsView,
)
    requires
        interpreted(first, options) == InvocationView::Run(after),
        takes_value(word),
    ensures
        interpreted(first + seq![word, value], options) == InvocationView::Run(
            with_value(after, word, value),
        ),
{
    let last = seq![word, value];
    lemma_options_accumulate(first, last, options, after);
    assert(last.skip(2) == Seq::<Seq<char>>::empty());
    assert(interpreted(last.skip(2), with_value(after, word, value)) == InvocationView::Run(
        with_value(after, word, value),
    ));
}

/// What follows a request for help, or a word that is not known, is not read.
pub proof fn lemma_rest_is_not_read(
    first: Seq<Seq<char>>,
    rest: Seq<Seq<char>>,
    options: OptionsView,
)
    requires
        interpreted(first, options) is Help || interpreted(first, options) is Unknown,
    ensures
        interpreted(first + rest, options) == interpreted(first, options),
    decreases first.len(),
{
    if takes_value(first[0]) {
        lemma_rest_is_not_read(first.skip(2), rest, with_value(options, first[0], first[1]));
        assert((first + rest).skip(2) == first.skip(2) + rest);
    }
}

/// Words that are options with their values ask for a run, in which each option has the last
/// value that it was given, whatever the others are, or is left as it was.
pub proof fn lemma_each_option_has_its_last_value(
    pairs: Seq<(Seq<char>, Seq<char>)>,
    words: Seq<Seq<char>>,
    options: OptionsView,
)
    requires
        forall|i: int|
            0 <= i < pairs.len() ==> (#[trigger] pairs[i]).0 == "--apple-id"@ || pairs[i].0
                == "--anisette-url"@ || pairs[i].0 == "--output-dir"@,
        words.len() == 2 * pairs.len(),
        forall|j: int|
            0 <= j < words.len() ==> #[trigger] words[j] == if j % 2 == 0 {
                pairs[j / 2].0
            } else {
                pairs[j / 2].1
            },
    ensures
        interpreted(words, options) matches InvocationView::Run(after) && {
            &&& forall|i: int|
                0 <= i < pairs.len() && (#[trigger] pairs[i]).0 == "--apple-id"@ && (forall|j: int|
                    i < j < pairs.len() ==> (#[trigger] pairs[j]).0 != "--apple-id"@)
                    ==> after.apple_id == pairs[i].1
            &&& (forall|i: int| 0 <= i < pairs.len() ==> (#[trigger] pairs[i]).0 != "--apple-id"@)
                ==> after.apple_id == options.apple_id
            &&& forall|i: int|
                0 <= i < pairs.len() && (#[trigger] pairs[i]).0 == "--anisette-url"@ && (forall|j: int|
                    i < j < pairs.len() ==> (#[trigger] pairs[j]).0 != "--anisette-url"@)
                    ==> after.anisette_url == pairs[i].1
            &&& (forall|i: int| 0 <= i < pairs.len() ==> (#[trigger] pairs[i]).0 != "--anisette-url"@)
                ==> after.anisette_url == options.anisette_url
            &&& forall|i: int|
                0 <= i < pairs.len() && (#[trigger] pairs[i]).0 == "--output-dir"@ && (forall|j: int|
                    i < j < pairs.len() ==> (#[trigger] pairs[j]).0 != "--output-dir"@)
                    ==> after.output_dir == pairs[i].1
            &&& (forall|i: int| 0 <= i < pairs.len() ==> (#[trigger] pairs[i]).0 != "--output-dir"@)
                ==> after.output_dir == options.output_dir
        },
{
    reveal(is_last_of);
    lemma_options_are_last(pairs, words, options);
}

#[verifier::opaque]
spec fn is_last_of(
    pairs: Seq<(Seq<char>, Seq<char>)>,
    option: Seq<char>,
    start: Seq<char>,
    value: Seq<char>,
) -> bool {
    &&& forall|i: int|
        0 <= i < pairs.len() && (#[trigger] pairs[i]).0 == option && (forall|j: int|
            i < j < pairs.len() ==> (#[trigger] pairs[j]).0 != option) ==> value == pairs[i].1
    &&& (forall|i: int| 0 <= i < pairs.len() ==> (#[trigger] pairs[i]).0 != option) ==> value
        == start
}

proof fn lemma_options_are_last(
    pairs: Seq<(Seq<char>, Seq<char>)>,
    words: Seq<Seq<char>>,
    options: OptionsView,
)
    requires
        forall|i: int|
            0 <= i < pairs.len() ==> (#[trigger] pairs[i]).0 == "--apple-id"@ || pairs[i].0
                == "--anisette-url"@ || pairs[i].0 == "--output-dir"@,
        words.len() == 2 * pairs.len(),
        forall|j: int|
            0 <= j < words.len() ==> #[trigger] words[j] == if j % 2 == 0 {
                pairs[j / 2].0
            } else {
                pairs[j / 2].1
            },
    ensures
        interpreted(words, options) matches InvocationView::Run(after) && {
            &&& is_last_of(pairs, "--apple-id"@, options.apple_id, after.apple_id)
            &&& is_last_of(pairs, "--anisette-url"@, options.anisette_url, after.anisette_url)
            &&& is_last_of(pairs, "--output-dir"@, options.output_dir, after.output_dir)
        },
    decreases pairs.len(),
{
    if pairs.len() > 0 {
        let earlier = pairs.drop_last();
        let first = words.take(words.len() - 2);
        let (word, value) = pairs.last();
        lemma_last_pair(pairs, words);
        assert forall|i: int| 0 <= i < earlier.len() implies (#[trigger] earlier[i]).0
            == "--apple-id"@ || earlier[i].0 == "--anisette-url"@ || earlier[i].0
            == "--output-dir"@ by {
            assert(earlier[i] == pairs[i]);
        }
        lemma_options_are_last(earlier, first, options);
        let before = interpreted(first, options)->Run_0;
        assert(pairs[pairs.len() - 1] == (word, value));
        lemma_one_more(first, word, value, options, before);
        let after = interpreted(words, options)->Run_0;
        lemma_last_of(pairs, "--apple-id"@, options.apple_id, before.apple_id, after.apple_id);
        lemma_last_of(
            pairs,
            "--anisette-url"@,
            options.anisette_url,
            before.anisette_url,
            after.anisette_url,
        );
        lemma_last_of(
            pairs,
            "--output-dir"@,
            options.output_dir,
            before.output_dir,
            after.output_dir,
        );
    } else {
        reveal(is_last_of);
        assert(words.len() == 0);
    }
}

proof fn lemma_one_more(
    first: Seq<Seq<char>>,
    word: Seq<char>,
    value: Seq<char>,
    options: OptionsView,
    before: OptionsView,
)
    requires
        interpreted(first, options) == InvocationView::Run(before),
        word == "--apple-id"@ || word == "--anisette-url"@ || word == "--output-dir"@,
    ensures
        interpreted(first + seq![word, value], options) matches InvocationView::Run(after) && {
            &&& after.apple_id == if word == "--apple-id"@ {
                value
            } else {
                before.apple_id
            }
            &&& after.anisette_url == if word == "--anisette-url"@ {
                value
            } else {
                before.anisette_url
            }
            &&& after.output_dir == if word == "--output-dir"@ {
                value
            } else {
                before.output_dir
            }
        },
{
    lemma_options_differ();
    lemma_last_value_counts(first, word, value, options, before);
}

proof fn lemma_last_pair(pairs: Seq<(Seq<char>, Seq<char>)>, words: Seq<Seq<char>>)
    requires
        pairs.len() > 0,
        words.len() == 2 * pairs.len(),
        forall|j: int|
            0 <= j < words.len() ==> #[trigger] words[j] == if j % 2 == 0 {
                pairs[j / 2].0
            } else {
                pairs[j / 2].1
            },
    ensures
        words == words.take(words.len() - 2) + seq![pairs.last().0, pairs.last().1],
        forall|j: int|
            0 <= j < words.len() - 2 ==> #[trigger] words.take(words.len() - 2)[j] == if j % 2
                == 0 {
                pairs.drop_last()[j / 2].0
            } else {
                pairs.drop_last()[j / 2].1
            },
{
    let n: int = pairs.len() as int;
    let first = words.take(words.len() - 2);
    assert((2 * n - 2) / 2 == n - 1 && (2 * n - 2) % 2 == 0);
    assert((2 * n - 1) / 2 == n - 1 && (2 * n - 1) % 2 == 1);
    assert(words[2 * n - 2] == pairs[n - 1].0);
    assert(words[2 * n - 1] == pairs[n - 1].1);
    assert forall|j: int| 0 <= j < words.len() implies words[j] == (first + seq![
        pairs.last().0,
        pairs.last().1,
    ])[j] by {
        if j < 2 * n - 2 {
            assert(first[j] == words[j]);
        }
    }
    assert(words =~= first + seq![pairs.last().0, pairs.last().1]);
    assert forall|j: int| 0 <= j < words.len() - 2 implies #[trigger] first[j] == if j % 2 == 0 {
        pairs.drop_last()[j / 2].0
    } else {
        pairs.drop_last()[j / 2].1
    } by {
        assert(first[j] == words[j]);
        assert(pairs.drop_last()[j / 2] == pairs[j / 2]);
    }
}

/// Where the last pair sets a field if it names the option, and leaves it otherwise, the field
/// has the value of the last pair that names the option.
proof fn lemma_last_of(
    pairs: Seq<(Seq<char>, Seq<char>)>,
    option: Seq<char>,
    start: Seq<char>,
    before: Seq<char>,
    after: Seq<char>,
)
    requires
        pairs.len() > 0,
        after == if pairs.last().0 == option {
            pairs.last().1
        } else {
            before
        },
        is_last_of(pairs.drop_last(), option, start, before),
    ensures
        is_last_of(pairs, option, start, after),
{
    reveal(is_last_of);
    let earlier = pairs.drop_last();
    let last = pairs.len() - 1;
    assert(pairs[last] == pairs.last());
    assert forall|i: int|
        0 <= i < pairs.len() && (#[trigger] pairs[i]).0 == option && (forall|j: int|
            i < j < pairs.len() ==> (#[trigger] pairs[j]).0 != option) implies after
        == pairs[i].1 by {
        if i < last {
            assert(pairs[last].0 != option);
            assert(earlier[i] == pairs[i]);
            assert forall|j: int| i < j < pairs.len() - 1 implies (#[trigger] earlier[j]).0
                != option by {
                assert(earlier[j] == pairs[j]);
            }
        }
    }
    if forall|i: int| 0 <= i < pairs.len() ==> (#[trigger] pairs[i]).0 != option {
        assert(pairs[last].0 != option);
        assert forall|i: int| 0 <= i < pairs.len() - 1 implies (#[trigger] earlier[i]).0
            != option by {
            assert(earlier[i] == pairs[i]);
        }
    }
}

proof fn lemma_options_differ()
    ensures
        "--apple-id"@ != "--anisette-url"@,
        "--apple-id"@ != "--output-dir"@,
        "--anisette-url"@ != "--output-dir"@,
        "--help"@ != "--apple-id"@,
        "--help"@ != "--anisette-url"@,
        "--help"@ != "--output-dir"@,
        "-h"@ != "--apple-id"@,
        "-h"@ != "--anisette-url"@,
        "-h"@ != "--output-dir"@,
{
    reveal_strlit("--apple-id");
    reveal_strlit("--anisette-url");
    reveal_strlit("--output-dir");
    reveal_strlit("--help");
    reveal_strlit("-h");
    assert("--apple-id"@.len() == 10);
    assert("--anisette-url"@.len() == 14);
    assert("--output-dir"@.len() == 12);
    assert("--help"@.len() == 6);
    assert("-h"@.len() == 2);
}

/// One option with its value sets that option, whatever the options hold, and no other.
pub proof fn lemma_an_option_sets_its_own_field(options: OptionsView, value: Seq<char>)
    ensures
        interpreted(seq!["--apple-id"@, value], options) == InvocationView::Run(
            OptionsView {
                apple_id: value,
                anisette_url: options.anisette_url,
                output_dir: options.output_dir,
            },
        ),
        interpreted(seq!["--anisette-url"@, value], options) == InvocationView::Run(
            OptionsView {
                apple_id: options.apple_id,
                anisette_url: value,
                output_dir: options.output_dir,
            },
        ),
        interpreted(seq!["--output-dir"@, value], options) == InvocationView::Run(
            OptionsView {
                apple_id: options.apple_id,
                anisette_url: options.anisette_url,
                output_dir: value,
            },
        ),
{
    lemma_options_differ();
    let nothing = Seq::<Seq<char>>::empty();
    assert(interpreted(nothing, options) == InvocationView::Run(options));
    lemma_last_value_counts(nothing, "--apple-id"@, value, options, options);
    lemma_last_value_counts(nothing, "--anisette-url"@, value, options, options);
    lemma_last_value_counts(nothing, "--output-dir"@, value, options, options);
    assert(nothing + seq!["--apple-id"@, value] == seq!["--apple-id"@, value]);
    assert(nothing + seq!["--anisette-url"@, value] == seq!["--anisette-url"@, value]);
    assert(nothing + seq!["--output-dir"@, value] == seq!["--output-dir"@, value]);
}

/// After options with their values, a request for help asks for help, an option at the end
/// lacks its value, and any other word is not known; whatever follows a request for help or a
/// word that is not known.
pub proof fn lemma_what_ends_the_reading(
    pairs: Seq<(Seq<char>, Seq<char>)>,
    words: Seq<Seq<char>>,
    word: Seq<char>,
    rest: Seq<Seq<char>>,
    options: OptionsView,
)
    requires
        forall|i: int|
            0 <= i < pairs.len() ==> (#[trigger] pairs[i]).0 == "--apple-id"@ || pairs[i].0
                == "--anisette-url"@ || pairs[i].0 == "--output-dir"@,
        words.len() == 2 * pairs.len(),
        forall|j: int|
            0 <= j < words.len() ==> #[trigger] words[j] == if j % 2 == 0 {
                pairs[j / 2].0
            } else {
                pairs[j / 2].1
            },
    ensures
        word == "--help"@ || word == "-h"@ ==> interpreted(words + (seq![word] + rest), options)
            == InvocationView::Help,
        word == "--apple-id"@ || word == "--anisette-url"@ || word == "--output-dir"@
            ==> interpreted(words + seq![word], options) == InvocationView::MissingValue,
        word != "--help"@ && word != "-h"@ && word != "--apple-id"@ && word != "--anisette-url"@
            && word != "--output-dir"@ ==> interpreted(words + (seq![word] + rest), options)
            == InvocationView::Unknown(word),
{
    lemma_options_differ();
    lemma_each_option_has_its_last_value(pairs, words, options);
    let after = interpreted(words, options)->Run_0;
    lemma_options_accumulate(words, seq![word] + rest, options, after);
    lemma_options_accumulate(words, seq![word], options, after);
    assert((seq![word] + rest)[0] == word);
}

/// The first word of the command line is the name of the program and is not read. Where no
/// option is given, the account is to be asked for, the server is the public one, and the files
/// go to a directory of their own.
pub proof fn lemma_where_the_reading_begins(program: Seq<char>, words: Seq<Seq<char>>)
    ensures
        arguments(seq![program] + words) == words,
        arguments(Seq::empty()) == Seq::<Seq<char>>::empty(),
        default_options().apple_id.len() == 0,
        default_options().anisette_url == "https://ani.sidestore.io"@,
        default_options().output_dir == "accessories"@,
{
    assert((seq![program] + words).skip(1) == words);
}

/// Options, and what the command line asks for, are looked at as they are.
pub proof fn lemma_invocation_view(options: Options, word: String)
    ensures
        options@.apple_id == options.apple_id@,
        options@.anisette_url == options.anisette_url@,
        options@.output_dir == options.output_dir@,
        Invocation::Run(options)@ == InvocationView::Run(options@),
        Invocation::Help@ == InvocationView::Help,
        Invocation::Unknown(word)@ == InvocationView::Unknown(word@),
        Invocation::MissingValue@ == InvocationView::MissingValue,
{
}

} // verus!
