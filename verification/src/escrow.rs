//! The escrow bottles through which a device joins the circle of trust.

use vstd::prelude::*;
use vstd::string::*;

use crate::property_list::Node;
use crate::text::{decimal_text, parse_index, trim};

verus! {

/// What is shown of an escrow bottle.
pub struct Bottle {
    pub serial: String,
    pub device_name: Option<String>,
}

/// The name of a device in what it tells about itself.
pub open spec fn device_name_in(metadata: Node) -> Option<Seq<char>> {
    match metadata {
        Node::Dictionary(entries) => match crate::property_list::lookup(entries, "device_name"@) {
            Some(Node::Text(name)) => Some(name),
            _ => None,
        },
        _ => None,
    }
}

/// Finds the name of a device in what it tells about itself.
pub fn device_name(metadata: &plist::Value) -> (name: Option<String>)
    ensures
        match name {
            Some(n) => device_name_in(crate::property_list::value_node(*metadata)) == Some(n@),
            None => device_name_in(crate::property_list::value_node(*metadata)) is None,
        },
        match name {
            Some(n) => crate::property_list::value_node(*metadata) matches Node::Dictionary(entries)
                && crate::property_list::lookup(entries, "device_name"@) == Some(Node::Text(n@)),
            None => !(crate::property_list::value_node(*metadata) matches Node::Dictionary(entries)
                && crate::property_list::lookup(entries, "device_name"@) matches Some(
                Node::Text(_),
            )),
        },
{
    match metadata.as_dictionary() {
        Some(dictionary) => match dictionary.get("device_name") {
            Some(value) => match value.as_string() {
                Some(name) => Some(name.to_string()),
                None => None,
            },
            None => None,
        },
        None => None,
    }
}

/// The line that shows an escrow bottle.
pub open spec fn bottle_line_spec(index: nat, bottle: Bottle) -> Seq<char> {
    let start = "    ["@ + crate::text::decimal(index) + "] "@ + bottle.serial@;
    match bottle.device_name {
        Some(name) => start + " ("@ + name@ + ")"@,
        None => start,
    }
}

/// Shows an escrow bottle.
pub fn bottle_line(index: usize, bottle: &Bottle) -> (line: String)
    ensures
        line@ == bottle_line_spec(index as nat, *bottle),
        bottle.device_name matches Some(name) ==> line@ == "    ["@ + crate::text::decimal(
            index as nat,
        ) + "] "@ + bottle.serial@ + " ("@ + name@ + ")"@,
        bottle.device_name is None ==> line@ == "    ["@ + crate::text::decimal(index as nat)
            + "] "@ + bottle.serial@,
{
    let number = decimal_text(index as u64);
    let start = "    [".to_string().concat(number.as_str()).concat("] ").concat(
        bottle.serial.as_str(),
    );
    match &bottle.device_name {
        Some(name) => start.concat(" (").concat(name.as_str()).concat(")"),
        None => start,
    }
}

/// The number that an answer gives: what is not a number counts as zero.
pub open spec fn answered(answer: Seq<char>) -> usize {
    match crate::text::index(crate::text::trimmed(answer)) {
        Some(n) => n,
        None => 0,
    }
}

/// The complaint about a number that no bottle has.
pub open spec fn invalid_index_spec(index: nat, count: nat) -> Seq<char> {
    "Invalid bottle index "@ + crate::text::decimal(index) + ". Must be 0-"@ + crate::text::decimal(
        (count - 1) as nat,
    ) + "."@
}

/// Picks one of several bottles by an answer.
pub fn choose_bottle(answer: &str, count: usize) -> (choice: Result<usize, String>)
    requires
        count > 0,
    ensures
        match choice {
            Ok(index) => index == answered(answer@) && index < count,
            Err(message) => answered(answer@) >= count && message@ == invalid_index_spec(
                answered(answer@) as nat,
                count as nat,
            ),
        },
        ({
            let given = crate::text::number(crate::text::trimmed(answer@));
            let named: nat = if given is Some && given->0 <= usize::MAX {
                given->0
            } else {
                0
            };
            match choice {
                Ok(index) => index == named && named < count,
                Err(message) => named >= count && message@ == "Invalid bottle index "@
                    + crate::text::decimal(named) + ". Must be 0-"@ + crate::text::decimal(
                    (count - 1) as nat,
                ) + "."@,
            }
        }),
{
    let trimmed = trim(answer);
    let index: usize = match parse_index(trimmed.as_str()) {
        Some(n) => n,
        None => 0,
    };
    if index >= count {
        let number = decimal_text(index as u64);
        let last = decimal_text((count - 1) as u64);
        Err(
            "Invalid bottle index ".to_string().concat(number.as_str()).concat(
                ". Must be 0-",
            ).concat(last.as_str()).concat("."),
        )
    } else {
        Ok(index)
    }
}

/// The name of a device is the text that it tells under one key, whatever the text is, and there
/// is none where the key is missing or holds something else.
pub proof fn lemma_name_is_what_the_device_tells(metadata: Node, name: Seq<char>)
    ensures
        device_name_in(metadata) == Some(name) <==> (metadata matches Node::Dictionary(entries)
            && crate::property_list::lookup(entries, "device_name"@) == Some(Node::Text(name))),
{
}

/// A bottle is shown with its number, its serial number and, in brackets, the name of its device
/// if it is known.
pub proof fn lemma_bottle_lines(index: nat, bottle: Bottle)
    ensures
        bottle.device_name matches Some(name) ==> bottle_line_spec(index, bottle) == "    ["@
            + crate::text::decimal(index) + "] "@ + bottle.serial@ + " ("@ + name@ + ")"@,
        bottle.device_name is None ==> bottle_line_spec(index, bottle) == "    ["@
            + crate::text::decimal(index) + "] "@ + bottle.serial@,
{
}

/// An answer names the number that it is read as, without the white space around it, where that
/// number fits the machine's word; any other answer names the first bottle. A number beyond the
/// last bottle is answered with the number and with the last one that there is.
pub proof fn lemma_answer_is_read_as_a_number(answer: Seq<char>, index: nat, count: nat)
    requires
        count > 0,
    ensures
        crate::text::number(crate::text::trimmed(answer)) matches Some(n) ==> (n <= usize::MAX
            ==> answered(answer) == n),
        !(crate::text::number(crate::text::trimmed(answer)) matches Some(n) && n <= usize::MAX)
            ==> answered(answer) == 0,
        invalid_index_spec(index, count) == "Invalid bottle index "@ + crate::text::decimal(index)
            + ". Must be 0-"@ + crate::text::decimal((count - 1) as nat) + "."@,
{
}

/// A number that a bottle has picks that bottle, whatever white space stands around it; an
/// answer that is no number picks the first.
pub proof fn lemma_answers(index: usize, before: Seq<char>, after: Seq<char>, answer: Seq<char>)
    requires
        forall|i: int| 0 <= i < before.len() ==> crate::text::white_space(#[trigger] before[i]),
        forall|i: int| 0 <= i < after.len() ==> crate::text::white_space(#[trigger] after[i]),
    ensures
        answered(before + crate::text::decimal(index as nat) + after) == index,
        crate::text::number(crate::text::trimmed(answer)) is None ==> answered(answer) == 0,
{
    crate::text::lemma_decimal_round_trip(index as nat);
    crate::text::lemma_trimmed_decimal(before, index as nat, after);
}

} // verus!
