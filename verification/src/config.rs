//! Backend targets, and the descriptors they are declared with.

use crate::args::{
    lemma_name_defaults_to_address, lemma_no_pattern, lemma_split_name_address_pattern,
    split_target,
};
use crate::text::{ends_before, first_occurrence};
use regex::Regex;
use vstd::prelude::*;

verus! {

/// `regex::Regex`, a compiled expression. Nothing inside it is visible to
/// the proofs; they speak of it through the three names below.
#[verifier::external_type_specification]
#[verifier::external_body]
pub struct ExRegex(regex::Regex);

/// What compiling the pattern text `source` gives: the compiled expression,
/// or the compiler's diagnostic.
pub uninterp spec fn regex_new(source: Seq<char>) -> Result<Regex, Seq<char>>;

/// The pattern text that a compiled expression was built from.
pub uninterp spec fn regex_source(regex: Regex) -> Seq<char>;

/// Whether a compiled expression matches somewhere in `haystack`.
pub uninterp spec fn regex_matches(regex: Regex, haystack: Seq<char>) -> bool;

/// Calls `regex::Regex::new` and renders a failure as text with the error's
/// `Display`. Trusted: the outcome is fixed by the pattern text alone, and a
/// compiled expression keeps the text it was built from.
#[verifier::external_body]
fn compile(source: &str) -> (compiled: Result<Regex, String>)
    ensures
        match compiled {
            Ok(regex) => regex_new(source@) == Ok::<Regex, Seq<char>>(regex) && regex_source(regex)
                == source@,
            Err(diagnostic) => regex_new(source@) == Err::<Regex, Seq<char>>(diagnostic@),
        },
{
    Regex::new(source).map_err(|error| error.to_string())
}

/// Calls `regex::Regex::is_match`, an unanchored search. Trusted: the answer
/// is fixed by the compiled expression and the haystack alone.
#[verifier::external_body]
fn is_match(regex: &Regex, haystack: &str) -> (found: bool)
    ensures
        found == regex_matches(*regex, haystack@),
{
    regex.is_match(haystack)
}

/// A compiled pattern with the text it was built from.
pub struct PatternView {
    pub source: Seq<char>,
    pub regex: Regex,
}

/// A target as mathematical values.
pub struct TargetView {
    pub name: Seq<char>,
    pub address: Seq<char>,
    pub pattern: Option<PatternView>,
}

/// A compiled expression as the pattern of a target.
pub open spec fn pattern_of(regex: Regex) -> PatternView {
    PatternView { source: regex_source(regex), regex }
}

/// Whether a request for `path` may go to `target`: a target without a
/// pattern takes every path, one with a pattern the paths in which the
/// pattern matches somewhere.
pub open spec fn admits(target: TargetView, path: Seq<char>) -> bool {
    match target.pattern {
        Some(pattern) => regex_matches(pattern.regex, path),
        None => true,
    }
}

/// One backend: a display name, the base address that request paths are
/// appended to, and an optional compiled pattern for the paths it takes.
#[derive(Clone, Debug)]
pub struct Target {
    name: String,
    address: String,
    pattern: Option<Regex>,
}

impl View for Target {
    type V = TargetView;

    closed spec fn view(&self) -> TargetView {
        TargetView {
            name: self.name@,
            address: self.address@,
            pattern: match self.pattern {
                Some(regex) => Some(pattern_of(regex)),
                None => None,
            },
        }
    }
}

impl Target {
    /// A target with the given parts.
    pub fn new(name: &str, address: &str, pattern: Option<Regex>) -> (target: Target)
        ensures
            target@ == (TargetView {
                name: name@,
                address: address@,
                pattern: match pattern {
                    Some(regex) => Some(pattern_of(regex)),
                    None => None,
                },
            }),
    {
        Target { name: name.to_owned(), address: address.to_owned(), pattern }
    }

    /// The label under which the audit line names this target.
    pub fn name(&self) -> (name: &str)
        ensures
            name@ == self@.name,
    {
        self.name.as_str()
    }

    /// The base address that the path of a request is appended to.
    pub fn address(&self) -> (address: &str)
        ensures
            address@ == self@.address,
    {
        self.address.as_str()
    }

    /// The compiled pattern, where the target has one.
    pub fn pattern(&self) -> (pattern: Option<&Regex>)
        ensures
            self@.pattern == match pattern {
                Some(regex) => Some(pattern_of(*regex)),
                None => None,
            },
    {
        self.pattern.as_ref()
    }

    /// Whether a request for `path` may go to this target.
    pub fn valid_for(&self, path: &str) -> (valid: bool)
        ensures
            valid == admits(self@, path@),
    {
        match &self.pattern {
            Some(regex) => is_match(regex, path),
            None => true,
        }
    }
}

/// The message for a descriptor whose pattern text does not compile.
pub open spec fn invalid_pattern_text(pattern: Seq<char>, diagnostic: Seq<char>) -> Seq<char> {
    "The text '"@ + pattern + "' after '"@ + " if "@
        + "' is not a valid regular expression: "@ + diagnostic
}

/// Writes the message for a descriptor whose pattern text does not compile.
pub fn invalid_pattern_message(pattern: &str, diagnostic: &str) -> (message: String)
    ensures
        message@ == invalid_pattern_text(pattern@, diagnostic@),
{
    String::from_str("The text '").concat(pattern).concat("' after '").concat(" if ").concat(
        "' is not a valid regular expression: ",
    ).concat(diagnostic)
}

/// What parsing `descriptor` gives: the target with the descriptor's parts,
/// its pattern compiled, or the message for a pattern that does not compile.
pub open spec fn parsed_target(descriptor: Seq<char>) -> Result<TargetView, Seq<char>> {
    let parts = split_target(descriptor);
    match parts.pattern {
        Some(source) => match regex_new(source) {
            Ok(regex) => Ok(
                TargetView {
                    name: parts.name,
                    address: parts.address,
                    pattern: Some(PatternView { source, regex }),
                },
            ),
            Err(diagnostic) => Err(invalid_pattern_text(source, diagnostic)),
        },
        None => Ok(TargetView { name: parts.name, address: parts.address, pattern: None }),
    }
}

/// Parses a descriptor of the form `[<name> " at "] <address> [" if " <pattern>]`.
/// It fails on a pattern that does not compile, and on nothing else.
pub fn parse_target(v: &str) -> (parsed: Result<Target, String>)
    ensures
        match parsed_target(v@) {
            Ok(target) => parsed is Ok && parsed->Ok_0@ == target,
            Err(message) => parsed is Err && parsed->Err_0@ == message,
        },
{
    let parts = match crate::args::parse_target(v) {
        Ok(parts) => parts,
        Err(message) => { return Err(message); },
    };
    match &parts.pattern {
        Some(pattern) => match compile(pattern.as_str()) {
            Ok(regex) => Ok(Target::new(parts.name.as_str(), parts.address.as_str(), Some(regex))),
            Err(diagnostic) => Err(
                invalid_pattern_message(pattern.as_str(), diagnostic.as_str()),
            ),
        },
        None => Ok(Target::new(parts.name.as_str(), parts.address.as_str(), None)),
    }
}

/// A descriptor written as a name, `" at "`, an address, `" if "` and a
/// pattern that compiles gives a target with that name, that address and
/// that pattern text, provided no `" at "` begins inside the name and no
/// `" if "` inside the address.
pub proof fn lemma_parsed_name_address_pattern(
    name: Seq<char>,
    address: Seq<char>,
    pattern: Seq<char>,
)
    requires
        ends_before(name, " at "@),
        ends_before(address, " if "@),
        regex_new(pattern) is Ok,
    ensures
        parsed_target(name + " at "@ + address + " if "@ + pattern) is Ok,
        parsed_target(name + " at "@ + address + " if "@ + pattern)->Ok_0.name == name,
        parsed_target(name + " at "@ + address + " if "@ + pattern)->Ok_0.address == address,
        parsed_target(name + " at "@ + address + " if "@ + pattern)->Ok_0.pattern is Some,
        parsed_target(name + " at "@ + address + " if "@ + pattern)->Ok_0.pattern->Some_0.source
            == pattern,
{
    lemma_split_name_address_pattern(name, address, pattern);
}

/// A descriptor without `" at "` gives a target whose name is its address.
pub proof fn lemma_parsed_name_defaults_to_address(descriptor: Seq<char>)
    requires
        first_occurrence(descriptor, " at "@) is None,
        parsed_target(descriptor) is Ok,
    ensures
        parsed_target(descriptor)->Ok_0.name == parsed_target(descriptor)->Ok_0.address,
{
    lemma_name_defaults_to_address(descriptor);
}

/// A descriptor without `" if "` always parses; the target has no pattern
/// and takes every path.
pub proof fn lemma_parsed_without_pattern(descriptor: Seq<char>, path: Seq<char>)
    requires
        first_occurrence(descriptor, " if "@) is None,
    ensures
        parsed_target(descriptor) is Ok,
        parsed_target(descriptor)->Ok_0.pattern is None,
        admits(parsed_target(descriptor)->Ok_0, path),
{
    lemma_no_pattern(descriptor);
}

/// A descriptor whose pattern does not compile is refused, with the message
/// that holds the pattern text and the compiler's diagnostic.
pub proof fn lemma_parsed_invalid_pattern(descriptor: Seq<char>)
    requires
        split_target(descriptor).pattern is Some,
        regex_new(split_target(descriptor).pattern->Some_0) is Err,
    ensures
        parsed_target(descriptor) == Err::<TargetView, Seq<char>>(
            invalid_pattern_text(
                split_target(descriptor).pattern->Some_0,
                regex_new(split_target(descriptor).pattern->Some_0)->Err_0,
            ),
        ),
{
}

} // verus!
