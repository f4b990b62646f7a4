//! The values of the command line's arguments, once they are parsed.

use crate::decimal::{all_digits, digits_value};
use std::str::FromStr;
use vstd::prelude::*;
use vstd::string::*;

verus! {

/// The value of the first of `entries` that is named `key`.
pub open spec fn value_in(entries: Seq<(Seq<char>, Seq<char>)>, key: Seq<char>) -> Option<
    Seq<char>,
>
    decreases entries.len(),
{
    if entries.len() == 0 {
        None
    } else if entries[0].0 == key {
        Some(entries[0].1)
    } else {
        value_in(entries.skip(1), key)
    }
}

/// The number that `text` writes as a `u16`: an optional `+`, then one or
/// more decimal digits, whose value is at most 65535.
pub open spec fn u16_notation(text: Seq<char>) -> Option<u16> {
    let digits = if text.len() > 0 && text[0] == '+' {
        text.skip(1)
    } else {
        text
    };
    if digits.len() > 0 && all_digits(digits) && digits_value(digits) <= u16::MAX {
        Some(digits_value(digits) as u16)
    } else {
        None
    }
}

/// How the standard library describes why `text` is no `u16`.
pub uninterp spec fn u16_parse_error(text: Seq<char>) -> Seq<char>;

/// The complaint about the value `value` of the argument `key`, which is
/// no number for the reason `reason`.
pub open spec fn invalid_message(key: Seq<char>, value: Seq<char>, reason: Seq<char>) -> Seq<
    char,
> {
    "Invalid "@ + key + ": '"@ + value + "'. Error: "@ + reason
}

/// What `get_u16` makes of the value `value` of the argument `key`.
pub open spec fn u16_value(key: Seq<char>, value: Seq<char>) -> Result<u16, Seq<char>> {
    match u16_notation(value) {
        Some(number) => Ok(number),
        None => Err(invalid_message(key, value, u16_parse_error(value))),
    }
}

/// Calls `u16::from_str`, and `to_string` on its error. The text is a
/// number if it is an optional `+` followed by decimal digits only, at
/// least one, and the number fits; any other text is an error, whose
/// description depends on the text alone.
#[verifier::external_body]
fn parse_u16(text: &str) -> (parsed: Result<u16, String>)
    ensures
        match parsed {
            Ok(number) => u16_notation(text@) == Some(number),
            Err(reason) => u16_notation(text@) is None && reason@ == u16_parse_error(text@),
        },
{
    match u16::from_str(text) {
        Ok(number) => Ok(number),
        Err(error) => Err(error.to_string()),
    }
}

/// Writes the complaint about the value `value` of the argument `key`.
pub fn describe_invalid(key: &str, value: &str, reason: &str) -> (msg: String)
    ensures
        msg@ == invalid_message(key@, value@, reason@),
{
    let mut msg = "Invalid ".to_owned();
    msg.append(key);
    msg.append(": '");
    msg.append(value);
    msg.append("'. Error: ");
    msg.append(reason);
    msg
}

/// The result of reading the value `value` of the argument `key` as a
/// number, from what parsing it gave: the number, or the complaint with
/// the reason that parsing gave.
pub fn number_or_complaint(key: &str, value: &str, parsed: Result<u16, String>) -> (result: Result<
    u16,
    String,
>)
    ensures
        match (parsed, result) {
            (Ok(number), Ok(same)) => same == number,
            (Err(reason), Err(msg)) => msg@ == invalid_message(key@, value@, reason@),
            _ => false,
        },
{
    match parsed {
        Ok(number) => Ok(number),
        Err(reason) => Err(describe_invalid(key, value, reason.as_str())),
    }
}

/// The arguments of the command line by name, each with its value.
#[derive(Clone, Debug, PartialEq, Eq)]
pub struct Args(pub Vec<(String, String)>);

impl View for Args {
    type V = Seq<(Seq<char>, Seq<char>)>;

    open spec fn view(&self) -> Seq<(Seq<char>, Seq<char>)> {
        self.0@.map_values(|entry: (String, String)| (entry.0@, entry.1@))
    }
}

impl Args {
    /// The arguments `values`, each a name with its value.
    pub fn new(values: Vec<(String, String)>) -> (args: Args)
        ensures
            args.0 == values,
    {
        Args(values)
    }

    /// The value of the argument `key`, if it has one.
    pub fn value_of(&self, key: &str) -> (value: Option<&str>)
        ensures
            match value {
                Some(text) => value_in(self@, key@) == Some(text@),
                None => value_in(self@, key@) is None,
            },
    {
        let name = key.to_owned();
        let mut idx: usize = 0;
        assert(self@.skip(0) =~= self@);
        while idx < self.0.len()
            invariant
                idx <= self.0.len(),
                self@.len() == self.0.len(),
                name@ == key@,
                value_in(self@, key@) == value_in(self@.skip(idx as int), key@),
            decreases self.0.len() - idx,
        {
            let ghost rest = self@.skip(idx as int);
            assert(rest[0] == self@[idx as int]);
            assert(self@[idx as int] == (self.0[idx as int].0@, self.0[idx as int].1@));
            assert(rest.skip(1) =~= self@.skip(idx + 1));
            if self.0[idx].0 == name {
                return Some(self.0[idx].1.as_str());
            }
            idx = idx + 1;
        }
        None
    }

    /// The value of the argument `key`, which has one.
    pub fn get_string(&self, key: &str) -> (value: String)
        requires
            value_in(self@, key@) is Some,
        ensures
            Some(value@) == value_in(self@, key@),
    {
        match self.value_of(key) {
            Some(text) => text.to_owned(),
            None => String::new(),
        }
    }

    /// The value of the argument `key`, which has one, as a number: the
    /// number that the value writes, or a complaint that names the
    /// argument, its value and why the value is no number.
    pub fn get_u16(&self, key: &str) -> (number: Result<u16, String>)
        requires
            value_in(self@, key@) is Some,
        ensures
            match number {
                Ok(n) => Ok::<u16, Seq<char>>(n) == u16_value(key@, value_in(self@, key@)->0),
                Err(msg) => Err::<u16, Seq<char>>(msg@) == u16_value(
                    key@,
                    value_in(self@, key@)->0,
                ),
            },
    {
        match self.value_of(key) {
            Some(value) => number_or_complaint(key, value, parse_u16(value)),
            None => Ok(0),
        }
    }
}

} // verus!
