//! The names of the files that accessories are exported to.

use vstd::prelude::*;
use vstd::string::*;

verus! {

/// Whether a character is alphanumeric: a letter or a number of any script.
pub uninterp spec fn alphanumeric(c: char) -> bool;

/// The letters and digits of ASCII.
pub open spec fn ascii_alphanumeric(c: char) -> bool {
    '0' <= c <= '9' || 'A' <= c <= 'Z' || 'a' <= c <= 'z'
}

/// `char::is_alphanumeric` goes by the tables of Unicode. Of them only the part on ASCII is
/// stated, where the letters and the digits are alphanumeric and nothing else is.
pub assume_specification[ char::is_alphanumeric ](c: char) -> (result: bool)
    ensures
        result == alphanumeric(c),
        c <= '\u{7f}' ==> result == ascii_alphanumeric(c),
;

/// Whether a character may stand in a file name.
pub open spec fn is_safe(c: char) -> bool {
    alphanumeric(c) || c == '-' || c == '_'
}

/// What stands in a file name for a character, given whether it is alphanumeric.
pub open spec fn safe_char_spec(c: char, alphanumeric: bool) -> char {
    if alphanumeric || c == '-' || c == '_' {
        c
    } else {
        '_'
    }
}

/// The name of an accessory, with each character that may not stand in a file name replaced.
pub open spec fn safe_name_spec(name: Seq<char>) -> Seq<char> {
    Seq::new(name.len(), |i: int| safe_char_spec(name[i], alphanumeric(name[i])))
}

/// The name of the file of an accessory.
pub open spec fn file_name_spec(name: Seq<char>) -> Seq<char> {
    safe_name_spec(name) + ".plist"@
}

/// Whether a file name holds no path separator, so that it stays in the directory that it is
/// joined to.
pub open spec fn stays_in_directory(file_name: Seq<char>) -> bool {
    forall|i: int|
        0 <= i < file_name.len() ==> #[trigger] file_name[i] != '/' && file_name[i] != '\\'
            && file_name[i] != '\0'
}

/// Replaces a character that may not stand in a file name, given whether it is alphanumeric.
pub fn safe_char(c: char, alphanumeric: bool) -> (result: char)
    ensures
        result == safe_char_spec(c, alphanumeric),
        alphanumeric || c == '-' || c == '_' ==> result == c,
        !alphanumeric && c != '-' && c != '_' ==> result == '_',
{
    if alphanumeric || c == '-' || c == '_' {
        c
    } else {
        '_'
    }
}

/// Replaces each character of a name that may not stand in a file name.
///
/// What is left is safe in every directory: of ASCII, only letters, digits, hyphens and
/// underscores.
pub fn safe_name(name: &str) -> (result: String)
    ensures
        result@ == safe_name_spec(name@),
        result@.len() == name@.len(),
        forall|i: int|
            #![trigger result@[i]]
            0 <= i < name@.len() ==> result@[i] == if alphanumeric(name@[i]) || name@[i] == '-'
                || name@[i] == '_' {
                name@[i]
            } else {
                '_'
            },
        forall|i: int|
            0 <= i < result@.len() && #[trigger] result@[i] <= '\u{7f}' ==> ascii_alphanumeric(
                result@[i],
            ) || result@[i] == '-' || result@[i] == '_',
{
    let mut result = String::new();
    for c in it: name.chars()
        invariant
            result@ == safe_name_spec(it.seq().take(it.index())),
            forall|i: int|
                0 <= i < result@.len() && #[trigger] result@[i] <= '\u{7f}' ==> ascii_alphanumeric(
                    result@[i],
                ) || result@[i] == '-' || result@[i] == '_',
    {
        let ghost before = it.seq().take(it.index());
        let ghost after = it.seq().take(it.index() + 1);
        assert(after == before.push(c));
        result.push(safe_char(c, c.is_alphanumeric()));
        assert(safe_name_spec(after) == safe_name_spec(before).push(
            safe_char_spec(c, alphanumeric(c)),
        ));
    }
    result
}

/// Names the file of an accessory after the accessory.
pub fn file_name(name: &str) -> (result: String)
    ensures
        result@ == file_name_spec(name@),
        stays_in_directory(result@),
        forall|i: int|
            0 <= i < result@.len() ==> #[trigger] result@[i] != '/' && result@[i] != '\\'
                && result@[i] != '\0',
{
    let mut result = safe_name(name);
    proof {
        reveal_strlit(".plist");
    }
    result.append(".plist");
    result
}

/// A safe name keeps the length of the name and every safe character; each other character
/// becomes an underscore. Making a safe name safe changes nothing.
pub proof fn lemma_safe_name(name: Seq<char>)
    ensures
        safe_name_spec(name).len() == name.len(),
        forall|i: int|
            0 <= i < name.len() ==> #[trigger] safe_name_spec(name)[i] == if is_safe(name[i]) {
                name[i]
            } else {
                '_'
            },
        forall|i: int| 0 <= i < name.len() ==> is_safe(#[trigger] safe_name_spec(name)[i]),
        safe_name_spec(safe_name_spec(name)) == safe_name_spec(name),
{
}

/// The file name of an accessory is its name, character for character and in order, with an
/// underscore for each character that is neither alphanumeric nor a hyphen nor an underscore;
/// after it stands the extension.
pub proof fn lemma_file_name_by_character(name: Seq<char>)
    ensures
        file_name_spec(name).len() == name.len() + 6,
        forall|i: int|
            #![trigger file_name_spec(name)[i]]
            0 <= i < name.len() ==> file_name_spec(name)[i] == if alphanumeric(name[i]) || name[i]
                == '-' || name[i] == '_' {
                name[i]
            } else {
                '_'
            },
        file_name_spec(name).skip(name.len() as int) == ".plist"@,
        file_name_spec(name).skip(name.len() as int) == seq!['.', 'p', 'l', 'i', 's', 't'],
{
    reveal_strlit(".plist");
    assert(file_name_spec(name).skip(name.len() as int) == ".plist"@);
    assert(".plist"@ == seq!['.', 'p', 'l', 'i', 's', 't']);
}

/// Two accessories share a file exactly where their safe names are the same.
pub proof fn lemma_file_names_agree(a: Seq<char>, b: Seq<char>)
    ensures
        file_name_spec(a) == file_name_spec(b) <==> safe_name_spec(a) == safe_name_spec(b),
{
    if file_name_spec(a) == file_name_spec(b) {
        let n = safe_name_spec(a).len() as int;
        assert(file_name_spec(a).len() == n + ".plist"@.len());
        assert(file_name_spec(b).len() == safe_name_spec(b).len() + ".plist"@.len());
        assert(safe_name_spec(a) == file_name_spec(a).take(n));
        assert(safe_name_spec(b) == file_name_spec(b).take(n));
    }
}

} // verus!
