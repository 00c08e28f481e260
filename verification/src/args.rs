//! Command-line values: target descriptors split into their parts, and the
//! validators of single arguments.

use crate::config::parsed_target;
use crate::text::{
    chars_of, ends_before, find, first_occurrence, lemma_absent_from_tail,
    lemma_first_occurrence_joined, lemma_first_occurrence_some,
};
use vstd::prelude::*;

verus! {

/// A target descriptor split into its parts, the pattern still as text.
#[derive(Clone, Debug, PartialEq, Eq)]
pub struct Target {
    pub name: String,
    pub address: String,
    pub pattern: Option<String>,
}

/// The parts of a target descriptor as character sequences.
pub struct TargetParts {
    pub name: Seq<char>,
    pub address: Seq<char>,
    pub pattern: Option<Seq<char>>,
}

impl View for Target {
    type V = TargetParts;

    open spec fn view(&self) -> TargetParts {
        TargetParts {
            name: self.name@,
            address: self.address@,
            pattern: match self.pattern {
                Some(pattern) => Some(pattern@),
                None => None,
            },
        }
    }
}

impl Target {
    /// The parts of a descriptor, copied.
    pub fn new(name: &str, address: &str, pattern: Option<&str>) -> (target: Target)
        ensures
            target@.name == name@,
            target@.address == address@,
            target@.pattern == match pattern {
                Some(text) => Some(text@),
                None => None,
            },
    {
        Target {
            name: name.to_owned(),
            address: address.to_owned(),
            pattern: match pattern {
                Some(text) => Some(text.to_owned()),
                None => None,
            },
        }
    }
}

/// What stands before the leftmost `separator` in `text`, where there is one.
pub open spec fn before(text: Seq<char>, separator: Seq<char>) -> Option<Seq<char>> {
    match first_occurrence(text, separator) {
        Some(at) => Some(text.subrange(0, at)),
        None => None,
    }
}

/// What stands behind the leftmost `separator` in `text`, where there is one.
pub open spec fn after(text: Seq<char>, separator: Seq<char>) -> Option<Seq<char>> {
    match first_occurrence(text, separator) {
        Some(at) => Some(text.subrange(at + separator.len(), text.len() as int)),
        None => None,
    }
}

/// The grammar of a descriptor: `[<name> " at "] <address> [" if " <pattern>]`.
/// The leftmost `" at "` ends the name; in what follows it, the leftmost `" if "`
/// ends the address and starts the pattern. An absent name is the address.
pub open spec fn split_target(descriptor: Seq<char>) -> TargetParts {
    let rest = match after(descriptor, " at "@) {
        Some(rest) => rest,
        None => descriptor,
    };
    let address = match before(rest, " if "@) {
        Some(address) => address,
        None => rest,
    };
    TargetParts {
        name: match before(descriptor, " at "@) {
            Some(name) => name,
            None => address,
        },
        address,
        pattern: after(rest, " if "@),
    }
}

/// A descriptor written as a name, `" at "`, an address, `" if "` and a
/// pattern splits into these three, provided no `" at "` begins inside the
/// name and no `" if "` inside the address.
pub proof fn lemma_split_name_address_pattern(
    name: Seq<char>,
    address: Seq<char>,
    pattern: Seq<char>,
)
    requires
        ends_before(name, " at "@),
        ends_before(address, " if "@),
    ensures
        split_target(name + " at "@ + address + " if "@ + pattern) == (TargetParts {
            name,
            address,
            pattern: Some(pattern),
        }),
{
    let rest = address + " if "@ + pattern;
    let descriptor = name + " at "@ + address + " if "@ + pattern;
    assert(descriptor =~= name + " at "@ + rest);
    lemma_first_occurrence_joined(name, " at "@, rest);
    lemma_first_occurrence_joined(address, " if "@, pattern);
}

/// A descriptor written as an address, `" if "` and a pattern, with no
/// `" at "` in it, has the address for its name too.
pub proof fn lemma_split_address_pattern(address: Seq<char>, pattern: Seq<char>)
    requires
        first_occurrence(address + " if "@ + pattern, " at "@) is None,
        ends_before(address, " if "@),
    ensures
        split_target(address + " if "@ + pattern) == (TargetParts {
            name: address,
            address,
            pattern: Some(pattern),
        }),
{
    lemma_first_occurrence_joined(address, " if "@, pattern);
}

/// In a descriptor without `" at "`, the name is the address.
pub proof fn lemma_name_defaults_to_address(descriptor: Seq<char>)
    requires
        first_occurrence(descriptor, " at "@) is None,
    ensures
        split_target(descriptor).name == split_target(descriptor).address,
{
}

/// A descriptor without `" if "` has no pattern, and what follows its name
/// is its address.
pub proof fn lemma_no_pattern(descriptor: Seq<char>)
    requires
        first_occurrence(descriptor, " if "@) is None,
    ensures
        split_target(descriptor).pattern is None,
        split_target(descriptor).address == match after(descriptor, " at "@) {
            Some(rest) => rest,
            None => descriptor,
        },
{
    match first_occurrence(descriptor, " at "@) {
        Some(at) => {
            lemma_first_occurrence_some(descriptor, " at "@);
            lemma_absent_from_tail(descriptor, " if "@, at + " at "@.len());
        },
        None => {},
    }
}

/// Splits `text` at its leftmost `separator`.
fn split_once<'a>(text: &'a str, separator: &str) -> (parts: Option<(&'a str, &'a str)>)
    ensures
        match parts {
            Some((head, tail)) => before(text@, separator@) == Some(head@) && after(
                text@,
                separator@,
            ) == Some(tail@),
            None => before(text@, separator@) is None && after(text@, separator@) is None,
        },
{
    let chars = chars_of(text);
    let needle = chars_of(separator);
    match find(&chars, &needle) {
        Some(at) => {
            let end: usize = chars.len();
            let head = text.substring_char(0, at);
            let tail = text.substring_char(at + needle.len(), end);
            Some((head, tail))
        },
        None => None,
    }
}

/// Splits a descriptor into name, address and pattern text. Every string is a
/// descriptor, so this never fails.
pub fn parse_target(v: &str) -> (parsed: Result<Target, String>)
    ensures
        parsed is Ok,
        parsed->Ok_0@ == split_target(v@),
{
    let (name, rest) = match split_once(v, " at ") {
        Some((name, rest)) => (Some(name), rest),
        None => (None, v),
    };
    let (address, pattern) = match split_once(rest, " if ") {
        Some((address, pattern)) => (address, Some(pattern)),
        None => (rest, None),
    };
    Ok(
        Target::new(
            match name {
                Some(name) => name,
                None => address,
            },
            address,
            pattern,
        ),
    )
}

/// Why a text is no port number.
#[derive(Clone, Copy, Debug, PartialEq, Eq)]
pub enum PortError {
    /// The text is empty.
    Empty,
    /// A character that is no decimal digit, or a sign with nothing behind it.
    InvalidDigit,
    /// The number is above 65535.
    TooLarge,
}

/// The value of a decimal digit.
pub open spec fn digit_value(c: char) -> Option<int> {
    if '0' <= c && c <= '9' {
        Some(c as int - '0' as int)
    } else {
        None
    }
}

/// Reads decimal digits from left to right onto `value`. The first character
/// that is no digit, or the first digit that takes the number above 65535,
/// ends the reading with its error.
pub open spec fn read_digits(digits: Seq<char>, value: int) -> Result<int, PortError>
    decreases digits.len(),
{
    if digits.len() == 0 {
        Ok(value)
    } else {
        match digit_value(digits[0]) {
            None => Err(PortError::InvalidDigit),
            Some(digit) => if value * 10 + digit > 65535 {
                Err(PortError::TooLarge)
            } else {
                read_digits(digits.drop_first(), value * 10 + digit)
            },
        }
    }
}

/// A port number is written as decimal digits with an optional `+` in front.
pub open spec fn port_of(text: Seq<char>) -> Result<int, PortError> {
    if text.len() == 0 {
        Err(PortError::Empty)
    } else if text[0] == '+' {
        if text.len() == 1 {
            Err(PortError::InvalidDigit)
        } else {
            read_digits(text.drop_first(), 0)
        }
    } else {
        read_digits(text, 0)
    }
}

/// The message for a text that is no port number.
pub open spec fn port_error_message(error: PortError) -> Seq<char> {
    let reason = match error {
        PortError::Empty => "cannot parse integer from empty string"@,
        PortError::InvalidDigit => "invalid digit found in string"@,
        PortError::TooLarge => "number too large to fit in target type"@,
    };
    reason + " (specify a number between 0 and 65535)"@
}

/// Reads a port number.
pub fn parse_port(text: &str) -> (port: Result<u16, PortError>)
    ensures
        match port {
            Ok(number) => port_of(text@) == Ok::<int, PortError>(number as int),
            Err(error) => port_of(text@) == Err::<int, PortError>(error),
        },
{
    let chars = chars_of(text);
    if chars.len() == 0 {
        return Err(PortError::Empty);
    }
    let mut next: usize = 0;
    if chars[0] == '+' {
        if chars.len() == 1 {
            return Err(PortError::InvalidDigit);
        }
        next = 1;
        assert(chars@.skip(1) == chars@.drop_first());
    } else {
        assert(chars@.skip(0) == chars@);
    }
    let mut value: u32 = 0;
    while next < chars.len()
        invariant
            next <= chars.len(),
            value <= 65535,
            port_of(text@) == read_digits(chars@.skip(next as int), value as int),
        decreases chars.len() - next,
    {
        let c = chars[next];
        assert(chars@.skip(next as int)[0] == c);
        assert(chars@.skip(next as int).drop_first() == chars@.skip(next + 1));
        if c < '0' || c > '9' {
            return Err(PortError::InvalidDigit);
        }
        let digit: u32 = c as u32 - '0' as u32;
        if value * 10 + digit > 65535 {
            return Err(PortError::TooLarge);
        }
        value = value * 10 + digit;
        next += 1;
    }
    Ok(value as u16)
}

/// Accepts the text of a port number, and says of any other text why it is none.
pub fn is_valid_port(v: String) -> (checked: Result<(), String>)
    ensures
        match port_of(v@) {
            Ok(_) => checked == Ok::<(), String>(()),
            Err(error) => checked is Err && checked->Err_0@ == port_error_message(error),
        },
{
    match parse_port(v.as_str()) {
        Ok(_) => Ok(()),
        Err(error) => {
            let reason = match error {
                PortError::Empty => "cannot parse integer from empty string",
                PortError::InvalidDigit => "invalid digit found in string",
                PortError::TooLarge => "number too large to fit in target type",
            };
            Err(String::from_str(reason).concat(" (specify a number between 0 and 65535)"))
        },
    }
}

/// Accepts a target descriptor whose pattern, if it has one, compiles, and
/// gives the parser's message for any other.
pub fn is_valid_target(v: String) -> (checked: Result<(), String>)
    ensures
        match parsed_target(v@) {
            Ok(_) => checked == Ok::<(), String>(()),
            Err(message) => checked is Err && checked->Err_0@ == message,
        },
{
    match crate::config::parse_target(v.as_str()) {
        Ok(_) => Ok(()),
        Err(message) => Err(message),
    }
}

} // verus!
