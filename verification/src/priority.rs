//! Task priorities: a three-level scale on which level 1 is the most urgent.

use std::cmp::Ordering;
use std::str::FromStr;
use vstd::prelude::*;
use vstd::std_specs::cmp::PartialOrdSpec;
use vstd::std_specs::convert::FromSpec;
use vstd::std_specs::convert::TryFromSpec;

verus! {

/// The priority of a task. [`Priority::One`] is the highest.
///
/// Priorities compare the other way round from their integer levels:
/// `Priority::One > Priority::Two > Priority::Three`.
#[derive(Debug, Clone, Copy, PartialEq, Eq, Structural)]
pub enum Priority {
    /// Level 1, the most urgent.
    One,
    /// Level 2.
    Two,
    /// Level 3, the least urgent.
    Three,
}

/// The error for an integer or a text that names no priority level. It
/// carries the rejected input.
#[derive(Debug, Clone, Copy, PartialEq, Eq)]
pub struct Error<T>(pub T);

/// The largest integer that encodes a priority.
pub const MAX_LEVEL: u8 = 3;

/// Whether `value` encodes a priority.
pub open spec fn is_level(value: int) -> bool {
    1 <= value <= MAX_LEVEL
}

/// The priority that a valid level encodes.
pub open spec fn from_level(value: int) -> Priority
    recommends
        is_level(value),
{
    if value == 1 {
        Priority::One
    } else if value == 2 {
        Priority::Two
    } else {
        Priority::Three
    }
}

/// The stored level of an optional priority.
pub open spec fn level_of(priority: Option<Priority>) -> Option<u8> {
    match priority {
        Some(p) => Some(p.level() as u8),
        None => None,
    }
}

/// The optional priority that a stored level stands for, or the error for a
/// level that is none.
pub open spec fn priority_of(level: Option<u8>) -> Result<
    Option<Priority>,
    Error<u8>,
> {
    match level {
        Some(value) => if is_level(value as int) {
            Ok(Some(from_level(value as int)))
        } else {
            Err(Error(value))
        },
        None => Ok(None),
    }
}

/// Whether `c` is one of the digits `0` to `9`.
pub open spec fn is_digit(c: char) -> bool {
    '0' <= c <= '9'
}

/// The number that the decimal digits `digits` write. It is meant for
/// digits only.
pub open spec fn decimal_value(digits: Seq<char>) -> nat
    decreases digits.len(),
{
    if digits.len() == 0 {
        0
    } else {
        decimal_value(digits.drop_last()) * 10 + ((digits.last() as u32 - '0' as u32) as nat)
    }
}

/// The number that `text` writes in decimal: digits only, and at least one,
/// with one `+` allowed before them. Numbers above 255 are none.
pub open spec fn parsed_u8(text: Seq<char>) -> Option<u8> {
    let digits = if text.len() > 0 && text[0] == '+' {
        text.drop_first()
    } else {
        text
    };
    if digits.len() > 0 && (forall|i: int| 0 <= i < digits.len() ==> is_digit(digits[i]))
        && decimal_value(digits) <= 255 {
        Some(decimal_value(digits) as u8)
    } else {
        None
    }
}

/// The priority that `text` names, or the error that hands `text` back.
pub open spec fn parsed(text: Seq<char>) -> Result<Priority, Error<Seq<char>>> {
    match parsed_u8(text) {
        Some(value) => if is_level(value as int) {
            Ok(from_level(value as int))
        } else {
            Err(Error(text))
        },
        None => Err(Error(text)),
    }
}

/// Reads a number with `str::parse::<u8>` of the standard library.
///
/// Trusted: a number comes back for decimal digits that write a number of at
/// most 255, with one `+` allowed before them, and for no other text.
#[verifier::external_body]
fn parse_u8(text: &str) -> (number: Option<u8>)
    ensures
        number == parsed_u8(text@),
{
    text.parse::<u8>().ok()
}

impl Priority {
    /// The integer level of this priority: 1, 2 or 3.
    pub open spec fn level(self) -> int {
        match self {
            Priority::One => 1,
            Priority::Two => 2,
            Priority::Three => 3,
        }
    }

    /// How `self` compares with `other`: the priority with the smaller level
    /// is the greater one.
    pub open spec fn compare(self, other: Priority) -> Ordering {
        if self.level() < other.level() {
            Ordering::Greater
        } else if self.level() == other.level() {
            Ordering::Equal
        } else {
            Ordering::Less
        }
    }

    /// The text that shows this priority: its level, and a line break after
    /// it.
    pub open spec fn text(self) -> Seq<char> {
        match self {
            Priority::One => seq!['1', '\n'],
            Priority::Two => seq!['2', '\n'],
            Priority::Three => seq!['3', '\n'],
        }
    }

    /// Shows the priority as its level, with a line break after it.
    #[must_use]
    pub fn to_string(&self) -> (shown: String)
        ensures
            shown@ == self.text(),
    {
        proof {
            reveal_strlit("1\n");
            reveal_strlit("2\n");
            reveal_strlit("3\n");
        }
        let shown = match self {
            Priority::One => "1\n".to_owned(),
            Priority::Two => "2\n".to_owned(),
            Priority::Three => "3\n".to_owned(),
        };
        assert(shown@ =~= self.text());
        shown
    }

    /// Reads a priority from the decimal text of its level. Every other
    /// text is rejected and handed back in the error.
    pub fn parse(text: &str) -> (read: Result<Priority, Error<String>>)
        ensures
            match parsed(text@) {
                Ok(priority) => read matches Ok(p) && p == priority,
                Err(_) => read matches Err(e) && e.0@ == text@,
            },
    {
        match parse_u8(text) {
            Some(value) => match Priority::try_from(value) {
                Ok(priority) => Ok(priority),
                Err(_) => Err(Error(text.to_owned())),
            },
            None => Err(Error(text.to_owned())),
        }
    }
}

impl FromStr for Priority {
    type Err = Error<String>;

    /// Reads a priority from the decimal text of its level, as
    /// [`Priority::parse`] does. Every other text is rejected and handed
    /// back in the error.
    fn from_str(s: &str) -> (read: Result<Self, Self::Err>)
        ensures
            match parsed(s@) {
                Ok(priority) => read matches Ok(p) && p == priority,
                Err(_) => read matches Err(e) && e.0@ == s@,
            },
    {
        Priority::parse(s)
    }
}

impl From<Priority> for u8 {
    /// Encodes a priority as its level.
    fn from(priority: Priority) -> (level: u8) {
        match priority {
            Priority::One => 1,
            Priority::Two => 2,
            Priority::Three => 3,
        }
    }
}

impl vstd::std_specs::convert::FromSpecImpl<Priority> for u8 {
    open spec fn obeys_from_spec() -> bool {
        true
    }

    open spec fn from_spec(priority: Priority) -> u8 {
        match priority {
            Priority::One => 1,
            Priority::Two => 2,
            Priority::Three => 3,
        }
    }
}

impl TryFrom<u8> for Priority {
    type Error = Error<u8>;

    /// Decodes a level. Every integer outside `1..=3` is rejected and handed
    /// back in the error.
    fn try_from(value: u8) -> (decoded: Result<Self, Self::Error>) {
        match value {
            1 => Ok(Priority::One),
            2 => Ok(Priority::Two),
            3 => Ok(Priority::Three),
            x => Err(Error(x)),
        }
    }
}

impl vstd::std_specs::convert::TryFromSpecImpl<u8> for Priority {
    open spec fn obeys_try_from_spec() -> bool {
        true
    }

    open spec fn try_from_spec(value: u8) -> Result<Self, Self::Error> {
        if is_level(value as int) {
            Ok(from_level(value as int))
        } else {
            Err(Error(value))
        }
    }
}

impl PartialOrd for Priority {
    /// Orders priorities by urgency: level 1 is the greatest.
    fn partial_cmp(&self, other: &Self) -> (order: Option<Ordering>) {
        let mine = u8::from(*self);
        let theirs = u8::from(*other);
        if mine < theirs {
            Some(Ordering::Greater)
        } else if mine == theirs {
            Some(Ordering::Equal)
        } else {
            Some(Ordering::Less)
        }
    }
}

impl vstd::std_specs::cmp::PartialOrdSpecImpl for Priority {
    open spec fn obeys_partial_cmp_spec() -> bool {
        true
    }

    open spec fn partial_cmp_spec(&self, other: &Self) -> Option<Ordering> {
        Some(self.compare(*other))
    }
}

/// Of two priorities the one with the smaller level is the greater: level 1
/// is above level 2, and level 2 above level 3.
pub proof fn lemma_order_is_inverted(a: Priority, b: Priority)
    ensures
        a.partial_cmp_spec(&b) == Some(Ordering::Greater) <==> a.level() < b.level(),
        a.partial_cmp_spec(&b) == Some(Ordering::Less) <==> a.level() > b.level(),
        a.partial_cmp_spec(&b) == Some(Ordering::Equal) <==> a == b,
        Priority::One.partial_cmp_spec(&Priority::Two) == Some(Ordering::Greater),
        Priority::Two.partial_cmp_spec(&Priority::Three) == Some(Ordering::Greater),
        Priority::One.partial_cmp_spec(&Priority::Three) == Some(Ordering::Greater),
{
}

/// Every integer outside the levels is rejected and handed back: none is
/// taken for the nearest level.
pub proof fn lemma_out_of_range_is_rejected(value: u8)
    requires
        value == 0 || value > MAX_LEVEL,
    ensures
        Priority::try_from_spec(value) == Err::<Priority, Error<u8>>(Error(value)),
{
}

/// A priority that is encoded and decoded again is the same priority, and
/// a level that is decoded and encoded again is the same level.
pub proof fn lemma_level_round_trip(priority: Priority, value: u8)
    ensures
        Priority::try_from_spec(u8::from_spec(priority)) == Ok::<Priority, Error<u8>>(priority),
        is_level(value as int) ==> (Priority::try_from_spec(value) matches Ok(p) && u8::from_spec(
            p,
        ) == value),
{
}

} // verus!
