//! Searching for literal tokens in character sequences, and building text.

use vstd::prelude::*;

verus! {

/// `needle` stands in `haystack` at index `at`.
pub open spec fn occurs_at(haystack: Seq<char>, needle: Seq<char>, at: int) -> bool {
    &&& 0 <= at
    &&& at + needle.len() <= haystack.len()
    &&& haystack.subrange(at, at + needle.len()) == needle
}

/// `needle` stands in `haystack` at index `at` and nowhere before it.
pub open spec fn is_first_occurrence(haystack: Seq<char>, needle: Seq<char>, at: int) -> bool {
    &&& occurs_at(haystack, needle, at)
    &&& forall|before: int| 0 <= before < at ==> !occurs_at(haystack, needle, before)
}

/// The index of the leftmost occurrence of `needle` in `haystack`, if there is one.
pub open spec fn first_occurrence(haystack: Seq<char>, needle: Seq<char>) -> Option<int> {
    if exists|at: int| occurs_at(haystack, needle, at) {
        Some(choose|at: int| is_first_occurrence(haystack, needle, at))
    } else {
        None
    }
}

/// A leftmost occurrence is the one `first_occurrence` names.
pub proof fn lemma_first_occurrence_is(haystack: Seq<char>, needle: Seq<char>, at: int)
    requires
        is_first_occurrence(haystack, needle, at),
    ensures
        first_occurrence(haystack, needle) == Some(at),
{
    let chosen = choose|i: int| is_first_occurrence(haystack, needle, i);
    assert(is_first_occurrence(haystack, needle, chosen));
    if chosen < at {
        assert(!occurs_at(haystack, needle, chosen));
    }
    if at < chosen {
        assert(!occurs_at(haystack, needle, at));
    }
}

/// Where `needle` occurs in `haystack` at all, `first_occurrence` names its
/// leftmost occurrence.
pub proof fn lemma_first_occurrence_leftmost(haystack: Seq<char>, needle: Seq<char>, at: int)
    requires
        occurs_at(haystack, needle, at),
    ensures
        first_occurrence(haystack, needle) is Some,
        is_first_occurrence(haystack, needle, first_occurrence(haystack, needle)->0),
        first_occurrence(haystack, needle)->0 <= at,
    decreases at,
{
    if exists|before: int| 0 <= before < at && occurs_at(haystack, needle, before) {
        let before = choose|before: int| 0 <= before < at && occurs_at(haystack, needle, before);
        lemma_first_occurrence_leftmost(haystack, needle, before);
    } else {
        lemma_first_occurrence_is(haystack, needle, at);
    }
}

/// What `first_occurrence` names is a leftmost occurrence.
pub proof fn lemma_first_occurrence_some(haystack: Seq<char>, needle: Seq<char>)
    requires
        first_occurrence(haystack, needle) is Some,
    ensures
        is_first_occurrence(haystack, needle, first_occurrence(haystack, needle)->0),
{
    let at = choose|at: int| occurs_at(haystack, needle, at);
    lemma_first_occurrence_leftmost(haystack, needle, at);
}

/// `separator`, written behind `left`, first stands where `left` ends: it
/// does not begin inside `left`.
pub open spec fn ends_before(left: Seq<char>, separator: Seq<char>) -> bool {
    forall|at: int| 0 <= at < left.len() ==> !occurs_at(left + separator, separator, at)
}

/// In `left`, `separator` and `right` written one after the other, the
/// leftmost `separator` is the one written, provided none begins inside `left`.
pub proof fn lemma_first_occurrence_joined(
    left: Seq<char>,
    separator: Seq<char>,
    right: Seq<char>,
)
    requires
        ends_before(left, separator),
    ensures
        first_occurrence(left + separator + right, separator) == Some(left.len() as int),
        (left + separator + right).subrange(0, left.len() as int) == left,
        (left + separator + right).subrange(
            (left.len() + separator.len()) as int,
            (left + separator + right).len() as int,
        ) == right,
{
    let whole = left + separator + right;
    let at = left.len() as int;
    assert(whole.subrange(at, at + separator.len()) =~= separator);
    assert forall|before: int| 0 <= before < at implies !occurs_at(whole, separator, before) by {
        if occurs_at(whole, separator, before) {
            assert((left + separator).subrange(before, before + separator.len())
                =~= whole.subrange(before, before + separator.len()));
            assert(occurs_at(left + separator, separator, before));
        }
    }
    lemma_first_occurrence_is(whole, separator, at);
    assert(whole.subrange(0, at) =~= left);
    assert(whole.subrange(at + separator.len(), whole.len() as int) =~= right);
}

/// What does not occur in a text does not occur in what is left of the text
/// once characters are taken from its front.
pub proof fn lemma_absent_from_tail(haystack: Seq<char>, needle: Seq<char>, from: int)
    requires
        0 <= from <= haystack.len(),
        first_occurrence(haystack, needle) is None,
    ensures
        first_occurrence(haystack.subrange(from, haystack.len() as int), needle) is None,
{
    let tail = haystack.subrange(from, haystack.len() as int);
    assert forall|at: int| !occurs_at(tail, needle, at) by {
        if occurs_at(tail, needle, at) {
            assert(haystack.subrange(from + at, from + at + needle.len()) =~= tail.subrange(
                at,
                at + needle.len(),
            ));
            assert(occurs_at(haystack, needle, from + at));
        }
    }
}

/// The characters of `s`, in order.
pub fn chars_of(s: &str) -> (chars: Vec<char>)
    ensures
        chars@ == s@,
{
    let mut chars: Vec<char> = Vec::new();
    for c in it: s.chars()
        invariant
            it.seq() == s@,
            chars@ == s@.take(it.index()),
    {
        chars.push(c);
    }
    chars
}

/// Whether `needle` stands in `haystack` at index `at`.
pub fn matches_at(haystack: &Vec<char>, needle: &Vec<char>, at: usize) -> (found: bool)
    ensures
        found == occurs_at(haystack@, needle@, at as int),
{
    if needle.len() > haystack.len() || at > haystack.len() - needle.len() {
        return false;
    }
    let mut k: usize = 0;
    while k < needle.len()
        invariant
            k <= needle.len(),
            at + needle.len() <= haystack.len(),
            forall|j: int| 0 <= j < k ==> haystack@[at + j] == needle@[j],
        decreases needle.len() - k,
    {
        if haystack[at + k] != needle[k] {
            assert(haystack@.subrange(at as int, at + needle.len())[k as int] != needle@[k as int]);
            return false;
        }
        k += 1;
    }
    assert(haystack@.subrange(at as int, at + needle.len()) =~= needle@);
    true
}

/// The index of the leftmost occurrence of `needle` in `haystack`.
pub fn find(haystack: &Vec<char>, needle: &Vec<char>) -> (found: Option<usize>)
    ensures
        match found {
            Some(at) => first_occurrence(haystack@, needle@) == Some(at as int)
                && is_first_occurrence(haystack@, needle@, at as int),
            None => first_occurrence(haystack@, needle@) is None,
        },
{
    if needle.len() > haystack.len() {
        return None;
    }
    let last: usize = haystack.len() - needle.len();
    let mut at: usize = 0;
    loop
        invariant
            last == haystack.len() - needle.len(),
            at <= last,
            forall|before: int| 0 <= before < at ==> !occurs_at(haystack@, needle@, before),
        decreases last - at,
    {
        if matches_at(haystack, needle, at) {
            proof {
                lemma_first_occurrence_is(haystack@, needle@, at as int);
            }
            return Some(at);
        }
        if at == last {
            return None;
        }
        at += 1;
    }
}

/// The character of a decimal digit.
pub open spec fn digit_char(digit: int) -> char {
    (('0' as u8) + digit) as char
}

/// A number written in decimal, without leading zeros.
pub open spec fn decimal(number: nat) -> Seq<char>
    decreases number,
{
    if number < 10 {
        seq![digit_char(number as int)]
    } else {
        decimal(number / 10).push(digit_char((number % 10) as int))
    }
}

fn digit_text(digit: u16) -> (text: &'static str)
    requires
        digit < 10,
    ensures
        text@ == seq![digit_char(digit as int)],
{
    proof {
        reveal_strlit("0");
        reveal_strlit("1");
        reveal_strlit("2");
        reveal_strlit("3");
        reveal_strlit("4");
        reveal_strlit("5");
        reveal_strlit("6");
        reveal_strlit("7");
        reveal_strlit("8");
        reveal_strlit("9");
    }
    let text = if digit == 0 {
        "0"
    } else if digit == 1 {
        "1"
    } else if digit == 2 {
        "2"
    } else if digit == 3 {
        "3"
    } else if digit == 4 {
        "4"
    } else if digit == 5 {
        "5"
    } else if digit == 6 {
        "6"
    } else if digit == 7 {
        "7"
    } else if digit == 8 {
        "8"
    } else {
        "9"
    };
    assert(text@ =~= seq![digit_char(digit as int)]);
    text
}

/// Writes `number` in decimal.
pub fn decimal_text(number: u16) -> (text: String)
    ensures
        text@ == decimal(number as nat),
    decreases number,
{
    if number < 10 {
        digit_text(number).to_owned()
    } else {
        let text = decimal_text(number / 10).concat(digit_text(number % 10));
        assert(text@ =~= decimal(number as nat));
        text
    }
}

} // verus!
