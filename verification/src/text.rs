//! Text that comes from or goes to the operator: a reply typed at a prompt,
//! a path as it is shown.

use vstd::prelude::*;
use vstd::string::*;
use crate::reconcile::ThresholdPolicy;

verus! {

/// `input` without one trailing line ending, "\r\n" or "\n".
pub open spec fn without_newline(input: Seq<char>) -> Seq<char> {
    let n = input.len() as int;
    if n >= 2 && input[n - 2] == '\r' && input[n - 1] == '\n' {
        input.subrange(0, n - 2)
    } else if n >= 1 && input[n - 1] == '\n' {
        input.subrange(0, n - 1)
    } else {
        input
    }
}

/// Strips one trailing line ending from a line that was read.
pub fn strip_newline<'a>(input: &'a str) -> (stripped: &'a str)
    ensures
        stripped@ == without_newline(input@),
{
    let n = input.unicode_len();
    if n >= 1 && input.get_char(n - 1) == '\n' {
        if n >= 2 && input.get_char(n - 2) == '\r' {
            input.substring_char(0, n - 2)
        } else {
            input.substring_char(0, n - 1)
        }
    } else {
        input
    }
}

/// Whether `std::path::Path::is_absolute` holds of the path with this text:
/// whether the path does not depend on the current directory. The answer is
/// read off the text alone, by the path syntax of the platform that the
/// crate is built for; no directory is looked at.
pub uninterp spec fn path_absolute(path: Seq<char>) -> bool;

/// The text of the path that `std::path::Path::join` makes of `base` and
/// `path`: `path` adjoined to `base`. It is made of the two texts alone.
pub uninterp spec fn joined_path(base: Seq<char>, path: Seq<char>) -> Seq<char>;

/// The text of the path that `path_clean::clean` makes of `path`: without
/// repeated separators and "." elements, and with ".." elements resolved
/// against the elements before them. The cleaning is lexical: it is made of
/// the text alone and no file system is touched.
pub uninterp spec fn cleaned_path(path: Seq<char>) -> Seq<char>;

/// A path as it is shown: the path itself if it is absolute, else the path
/// joined to the current directory, and that cleaned.
pub open spec fn shown_path(path: Seq<char>, current_dir: Seq<char>) -> Seq<char> {
    cleaned_path(
        if path_absolute(path) {
            path
        } else {
            joined_path(current_dir, path)
        },
    )
}

/// Asks `std::path::Path::is_absolute`. Trusted: the answer is
/// `path_absolute` of the text.
#[verifier::external_body]
pub(crate) fn path_is_absolute(path: &str) -> (absolute: bool)
    ensures
        absolute == path_absolute(path@),
{
    std::path::Path::new(path).is_absolute()
}

/// Calls `std::path::Path::join`. Trusted: the text of the result is
/// `joined_path` of the two texts.
#[verifier::external_body]
pub(crate) fn path_join(base: &str, path: &str) -> (joined: String)
    ensures
        joined@ == joined_path(base@, path@),
{
    std::path::Path::new(base).join(path).to_string_lossy().into_owned()
}

/// Calls `path_clean::clean`. Trusted: the text of the result is
/// `cleaned_path` of the text.
#[verifier::external_body]
pub(crate) fn path_cleaned(path: &str) -> (cleaned: String)
    ensures
        cleaned@ == cleaned_path(path@),
{
    path_clean::clean(path).to_string_lossy().into_owned()
}

/// Which text is cleaned to show a path: the path itself when it is
/// absolute, else the path joined to the current directory.
pub fn absolute_path<'a>(path: &'a str, is_absolute: bool, joined: &'a str) -> (chosen: &'a str)
    ensures
        chosen@ == if is_absolute {
            path@
        } else {
            joined@
        },
{
    if is_absolute {
        path
    } else {
        joined
    }
}

/// A path as it is shown to the operator: absolute, against `current_dir`
/// where it is relative, and cleaned.
pub fn stringify_path(path: &str, current_dir: &str) -> (shown: String)
    ensures
        shown@ == shown_path(path@, current_dir@),
{
    let is_absolute = path_is_absolute(path);
    let joined = path_join(current_dir, path);
    let chosen = absolute_path(path, is_absolute, joined.as_str());
    path_cleaned(chosen)
}

/// A decimal digit.
pub open spec fn is_digit(c: char) -> bool {
    48 <= c as u32 <= 57
}

/// The value of a decimal digit; zero for any other character.
pub open spec fn digit_value(c: char) -> nat {
    if is_digit(c) {
        (c as u32 - 48) as nat
    } else {
        0
    }
}

/// The number that a string of digits writes in base ten.
pub open spec fn decimal_value(digits: Seq<char>) -> nat
    decreases digits.len(),
{
    if digits.len() == 0 {
        0
    } else {
        decimal_value(digits.drop_last()) * 10 + digit_value(digits.last())
    }
}

/// Every character is a decimal digit.
pub open spec fn all_digits(text: Seq<char>) -> bool {
    forall|i: int| 0 <= i < text.len() ==> is_digit(#[trigger] text[i])
}

/// `text` without one leading plus sign.
pub open spec fn without_sign(text: Seq<char>) -> Seq<char> {
    if text.len() > 0 && text[0] == '+' {
        text.subrange(1, text.len() as int)
    } else {
        text
    }
}

/// The threshold that `text` writes: an optional plus sign, then at least one
/// decimal digit and nothing else, for a number of at most 255. Leading
/// zeros are accepted; spaces are not.
pub open spec fn parsed_threshold(text: Seq<char>) -> Option<u8> {
    let digits = without_sign(text);
    if digits.len() > 0 && all_digits(digits) && decimal_value(digits) <= 255 {
        Some(decimal_value(digits) as u8)
    } else {
        None
    }
}

/// The policy that the operator's reply to a threshold mismatch stands for:
/// an empty line keeps the threshold in use, a threshold replaces it, and
/// anything else aborts. One line ending is stripped first.
pub open spec fn reply_policy(line: Seq<char>) -> ThresholdPolicy {
    let reply = without_newline(line);
    if reply.len() == 0 {
        ThresholdPolicy::UseFile
    } else {
        match parsed_threshold(reply) {
            Some(threshold) => ThresholdPolicy::Override(threshold),
            None => ThresholdPolicy::Abort,
        }
    }
}

/// A string of digits writes at least what any of its prefixes writes.
proof fn lemma_decimal_value_grows(digits: Seq<char>, upto: int)
    requires
        0 <= upto <= digits.len(),
    ensures
        decimal_value(digits.take(upto)) <= decimal_value(digits),
    decreases digits.len() - upto,
{
    if upto < digits.len() {
        let next = digits.take(upto + 1);
        assert(next.drop_last() =~= digits.take(upto));
        lemma_decimal_value_grows(digits, upto + 1);
    } else {
        assert(digits.take(upto) =~= digits);
    }
}

/// Reads a threshold as `parsed_threshold` describes.
pub fn parse_threshold(text: &str) -> (threshold: Option<u8>)
    ensures
        threshold == parsed_threshold(text@),
{
    let n = text.unicode_len();
    let start: usize = if n > 0 && text.get_char(0) == '+' {
        1
    } else {
        0
    };
    let ghost digits = without_sign(text@);
    if start == n {
        return None;
    }
    let mut value: u32 = 0;
    let mut i: usize = start;
    while i < n
        invariant
            start <= i <= n,
            n == text@.len(),
            digits == without_sign(text@),
            digits.len() == n - start,
            forall|k: int| 0 <= k < digits.len() ==> digits[k] == text@[k + start],
            all_digits(digits.take(i - start)),
            value == decimal_value(digits.take(i - start)),
            value <= 255,
        decreases n - i,
    {
        let c = text.get_char(i);
        let code = c as u32;
        let ghost seen = digits.take(i - start + 1);
        proof {
            assert(seen.drop_last() =~= digits.take(i - start));
        }
        if code < 48 || code > 57 {
            assert(!is_digit(digits[i - start]));
            return None;
        }
        value = value * 10 + (code - 48);
        if value > 255 {
            proof {
                lemma_decimal_value_grows(digits, i - start + 1);
            }
            return None;
        }
        i = i + 1;
    }
    assert(digits.take(n - start) =~= digits);
    Some(value as u8)
}

/// Reads the operator's reply to a threshold mismatch.
pub fn policy_from_reply(line: &str) -> (policy: ThresholdPolicy)
    ensures
        policy == reply_policy(line@),
{
    let reply = strip_newline(line);
    if reply.unicode_len() == 0 {
        return ThresholdPolicy::UseFile;
    }
    match parse_threshold(reply) {
        Some(threshold) => ThresholdPolicy::Override(threshold),
        None => ThresholdPolicy::Abort,
    }
}

/// The sixteen lowercase hexadecimal digits.
pub open spec fn hex_alphabet() -> Seq<char> {
    seq!['0', '1', '2', '3', '4', '5', '6', '7', '8', '9', 'a', 'b', 'c', 'd', 'e', 'f']
}

/// Bytes in lowercase hexadecimal: two digits for each byte, the high half
/// first.
pub open spec fn hex_text(bytes: Seq<u8>) -> Seq<char> {
    Seq::new(
        2 * bytes.len(),
        |i: int|
            if i % 2 == 0 {
                hex_alphabet()[bytes[i / 2] as int / 16]
            } else {
                hex_alphabet()[bytes[i / 2] as int % 16]
            },
    )
}

/// Calls `hex::encode`. Trusted: the result is the bytes in lowercase
/// hexadecimal, two digits for each byte.
#[verifier::external_body]
pub(crate) fn hex_encode(bytes: &[u8]) -> (text: String)
    ensures
        text@ == hex_text(bytes@),
{
    hex::encode(bytes)
}

/// A nonce or a key as it is shown and as it names things: in lowercase
/// hexadecimal.
pub fn hex_id(bytes: &[u8]) -> (id: String)
    ensures
        id@ == hex_text(bytes@),
        id@.len() == 2 * bytes@.len(),
{
    hex_encode(bytes)
}

/// The character of a decimal digit.
pub open spec fn digit_char(digit: int) -> char {
    hex_alphabet()[digit]
}

/// A number in base ten, without leading zeros.
pub open spec fn decimal_text(number: nat) -> Seq<char>
    decreases number,
{
    if number < 10 {
        seq![digit_char(number as int)]
    } else {
        decimal_text(number / 10).push(digit_char((number % 10) as int))
    }
}

/// One decimal digit as text.
fn digit_text(digit: u8) -> (text: &'static str)
    requires
        digit < 10,
    ensures
        text@ == seq![digit_char(digit as int)],
{
    proof {
        reveal_strlit("0");
        reveal_strlit("1");
        reveal_strlit("2");
        reveal_strlit("3");
        reveal_strlit("4");
        reveal_strlit("5");
        reveal_strlit("6");
        reveal_strlit("7");
        reveal_strlit("8");
        reveal_strlit("9");
    }
    let text = match digit {
        0 => "0",
        1 => "1",
        2 => "2",
        3 => "3",
        4 => "4",
        5 => "5",
        6 => "6",
        7 => "7",
        8 => "8",
        _ => "9",
    };
    text
}

/// Writes the number of a share in base ten.
pub fn share_number_text(number: u8) -> (text: String)
    ensures
        text@ == decimal_text(number as nat),
{
    let mut text = String::new();
    if number >= 100 {
        text.append(digit_text(number / 100));
    }
    if number >= 10 {
        text.append(digit_text((number / 10) % 10));
    }
    text.append(digit_text(number % 10));
    proof {
        reveal_with_fuel(decimal_text, 3);
    }
    text
}

/// The name of the file that holds share `number` of the set that the nonce
/// names: the number, a hyphen, the nonce in hexadecimal, and ".ccms".
pub open spec fn share_file_name_text(number: u8, nonce: Seq<u8>) -> Seq<char> {
    decimal_text(number as nat) + seq!['-'] + hex_text(nonce) + seq!['.', 'c', 'c', 'm', 's']
}

/// Names the file of a share.
pub fn share_file_name(number: u8, nonce: &[u8]) -> (name: String)
    ensures
        name@ == share_file_name_text(number, nonce@),
{
    let mut name = share_number_text(number);
    let id = hex_id(nonce);
    proof {
        reveal_strlit("-");
        reveal_strlit(".ccms");
    }
    name.append("-");
    name.append(id.as_str());
    name.append(".ccms");
    name
}

} // verus!
