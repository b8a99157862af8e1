//! Dates of last modification: calendar dates, their `YYYY-MM-DD` form, and
//! the conversion of other notations into it.

use vstd::prelude::*;
use vstd::string::*;
use crate::text::{
    four_digits, lowercase, push_four_digits, push_two_digits, same_text, to_lowercase, two_digits,
};

verus! {

/// The pattern of a date written as day, month name and year, such as
/// `20 May 2023`.
pub const DATE_PATTERN: &'static str = "(\\d{2}) (\\w{3}) (\\d{4})";

/// What the `regex` crate finds when it searches a text for a pattern: the
/// groups of the leftmost match, the whole match first, each with the text
/// it matched or `None` where it took no part. `None` where the pattern
/// does not compile or the text holds no match.
pub uninterp spec fn pattern_groups(pattern: Seq<char>, input: Seq<char>) -> Option<
    Seq<Option<Seq<char>>>,
>;

/// What the `dtt` crate reads from a text as a date and time: the year, the
/// month and the day, or `None` where it rejects the text.
pub uninterp spec fn parsed_date(input: Seq<char>) -> Option<(int, int, int)>;

/// The texts of the groups of a match.
pub open spec fn group_texts(groups: Seq<Option<String>>) -> Seq<Option<Seq<char>>> {
    groups.map_values(
        |g: Option<String>|
            match g {
                Some(text) => Some(text@),
                None => None,
            },
    )
}

/// Calls `regex::Regex::new` on the pattern and `Regex::captures` on the
/// input, and copies the text of each group of the match. The contract only
/// names the result.
#[verifier::external_body]
fn find_groups(pattern: &str, input: &str) -> (r: Option<Vec<Option<String>>>)
    ensures
        match r {
            Some(groups) => pattern_groups(pattern@, input@) == Some(group_texts(groups@)),
            None => pattern_groups(pattern@, input@) is None,
        },
{
    let compiled = regex::Regex::new(pattern).ok()?;
    let found = compiled.captures(input)?;
    Some(found.iter().map(|g| g.map(|m| m.as_str().to_string())).collect())
}

/// Calls `dtt::datetime::DateTime::parse` and reads year, month and day
/// from the value it returns. The contract only names the result.
#[verifier::external_body]
fn parse_date_parts(input: &str) -> (r: Option<(i32, u8, u8)>)
    ensures
        match r {
            Some((year, month, day)) => parsed_date(input@) == Some(
                (year as int, month as int, day as int),
            ),
            None => parsed_date(input@) is None,
        },
{
    let parsed = dtt::datetime::DateTime::parse(input).ok()?;
    Some((parsed.year(), u8::from(parsed.month()), parsed.day()))
}

/// Whether year, month and day are in the range of a calendar date.
pub open spec fn in_calendar(year: int, month: int, day: int) -> bool {
    -9999 <= year <= 9999 && 1 <= month <= 12 && 1 <= day <= 31
}

/// A date as `YYYY-MM-DD`, with `-` before a year that is negative.
pub open spec fn iso_date(year: int, month: int, day: int) -> Seq<char> {
    (if year < 0 {
        seq!['-']
    } else {
        Seq::empty()
    }) + four_digits((if year < 0 {
        -year
    } else {
        year
    }) as nat) + seq!['-'] + two_digits(month as nat) + seq!['-'] + two_digits(day as nat)
}

/// A calendar date: a year from -9999 to 9999, a month from 1 to 12 and a
/// day from 1 to 31.
#[derive(Debug, Clone, Copy, PartialEq, Eq)]
pub struct CalendarDate {
    year: i16,
    month: u8,
    day: u8,
}

impl View for CalendarDate {
    type V = (int, int, int);

    closed spec fn view(&self) -> (int, int, int) {
        (self.year as int, self.month as int, self.day as int)
    }
}

impl CalendarDate {
    #[verifier::type_invariant]
    spec fn in_range(self) -> bool {
        in_calendar(self.year as int, self.month as int, self.day as int)
    }

    /// Makes a date of year, month and day where they are in range.
    pub fn new(year: i32, month: u8, day: u8) -> (date: Option<CalendarDate>)
        ensures
            match date {
                Some(d) => in_calendar(year as int, month as int, day as int) && d@ == (
                    year as int,
                    month as int,
                    day as int,
                ),
                None => !in_calendar(year as int, month as int, day as int),
            },
    {
        if -9999 <= year && year <= 9999 && 1 <= month && month <= 12 && 1 <= day && day <= 31 {
            Some(CalendarDate { year: year as i16, month, day })
        } else {
            None
        }
    }

    /// The year.
    pub fn year(&self) -> (year: i16)
        ensures
            year == self@.0,
            -9999 <= year <= 9999,
    {
        proof {
            use_type_invariant(self);
        }
        self.year
    }

    /// The month, from 1 to 12.
    pub fn month(&self) -> (month: u8)
        ensures
            month == self@.1,
            1 <= month <= 12,
    {
        proof {
            use_type_invariant(self);
        }
        self.month
    }

    /// The day of the month, from 1 to 31.
    pub fn day(&self) -> (day: u8)
        ensures
            day == self@.2,
            1 <= day <= 31,
    {
        proof {
            use_type_invariant(self);
        }
        self.day
    }
}

/// Writes a date as `YYYY-MM-DD`.
pub fn format_date(date: &CalendarDate) -> (text: String)
    ensures
        text@ == iso_date(date@.0, date@.1, date@.2),
{
    let year = date.year();
    let mut text = String::new();
    let magnitude: u16 = if year < 0 {
        text.append("-");
        (-year) as u16
    } else {
        year as u16
    };
    push_four_digits(&mut text, magnitude);
    text.append("-");
    push_two_digits(&mut text, date.month() as u16);
    text.append("-");
    push_two_digits(&mut text, date.day() as u16);
    proof {
        reveal_strlit("-");
        assert("-"@ =~= seq!['-']);
        assert(text@ =~= iso_date(date@.0, date@.1, date@.2));
    }
    text
}

/// The two digits of the month that a lowercase English abbreviation
/// names.
pub open spec fn month_code(name: Seq<char>) -> Option<Seq<char>> {
    if name == "jan"@ {
        Some("01"@)
    } else if name == "feb"@ {
        Some("02"@)
    } else if name == "mar"@ {
        Some("03"@)
    } else if name == "apr"@ {
        Some("04"@)
    } else if name == "may"@ {
        Some("05"@)
    } else if name == "jun"@ {
        Some("06"@)
    } else if name == "jul"@ {
        Some("07"@)
    } else if name == "aug"@ {
        Some("08"@)
    } else if name == "sep"@ {
        Some("09"@)
    } else if name == "oct"@ {
        Some("10"@)
    } else if name == "nov"@ {
        Some("11"@)
    } else if name == "dec"@ {
        Some("12"@)
    } else {
        None
    }
}

/// Finds the two digits of the month that a lowercase English abbreviation
/// names.
pub fn month_number(name: &str) -> (code: Option<&'static str>)
    ensures
        match code {
            Some(digits) => month_code(name@) == Some(digits@),
            None => month_code(name@) is None,
        },
{
    if same_text(name, "jan") {
        Some("01")
    } else if same_text(name, "feb") {
        Some("02")
    } else if same_text(name, "mar") {
        Some("03")
    } else if same_text(name, "apr") {
        Some("04")
    } else if same_text(name, "may") {
        Some("05")
    } else if same_text(name, "jun") {
        Some("06")
    } else if same_text(name, "jul") {
        Some("07")
    } else if same_text(name, "aug") {
        Some("08")
    } else if same_text(name, "sep") {
        Some("09")
    } else if same_text(name, "oct") {
        Some("10")
    } else if same_text(name, "nov") {
        Some("11")
    } else if same_text(name, "dec") {
        Some("12")
    } else {
        None
    }
}

/// The text of a group of a match; empty where the match has no such group
/// or the group took no part.
pub open spec fn group(groups: Seq<Option<Seq<char>>>, index: int) -> Seq<char> {
    if 0 <= index < groups.len() {
        match groups[index] {
            Some(text) => text,
            None => Seq::empty(),
        }
    } else {
        Seq::empty()
    }
}

/// The date that the groups of a match give: year, month number and day
/// joined by `-` where the second group names a month, else the input as it
/// is.
pub open spec fn date_of_groups(groups: Seq<Option<Seq<char>>>, input: Seq<char>) -> Seq<char> {
    match month_code(lowercase(group(groups, 2))) {
        Some(digits) => group(groups, 3) + seq!['-'] + digits + seq!['-'] + group(groups, 1),
        None => input,
    }
}

/// The `YYYY-MM-DD` form of a date in another notation, or the input as it
/// is where no date is found in it.
pub open spec fn converted_date(input: Seq<char>) -> Seq<char> {
    match pattern_groups(DATE_PATTERN@, input) {
        Some(groups) => date_of_groups(groups, input),
        None => match parsed_date(input) {
            Some((year, month, day)) => if in_calendar(year, month, day) {
                iso_date(year, month, day)
            } else {
                input
            },
            None => input,
        },
    }
}

/// Reads the text of a group of a match.
fn group_text(groups: &Vec<Option<String>>, index: usize) -> (text: &str)
    ensures
        text@ == group(group_texts(groups@), index as int),
{
    proof {
        reveal_strlit("");
        assert(""@ =~= Seq::<char>::empty());
    }
    if index < groups.len() {
        match &groups[index] {
            Some(text) => text.as_str(),
            None => "",
        }
    } else {
        ""
    }
}

/// Joins year, month number and day by `-`.
pub fn join_date(year: &str, month: &str, day: &str) -> (text: String)
    ensures
        text@ == year@ + seq!['-'] + month@ + seq!['-'] + day@,
{
    let mut text = year.to_owned();
    text.append("-");
    text.append(month);
    text.append("-");
    text.append(day);
    proof {
        reveal_strlit("-");
        assert("-"@ =~= seq!['-']);
        assert(text@ =~= year@ + seq!['-'] + month@ + seq!['-'] + day@);
    }
    text
}

/// Makes a date of the groups of a match of [`DATE_PATTERN`]: day, month
/// name and year.
pub fn date_from_groups(groups: &Vec<Option<String>>, input: &str) -> (text: String)
    ensures
        text@ == date_of_groups(group_texts(groups@), input@),
{
    let day = group_text(groups, 1);
    let month = group_text(groups, 2);
    let year = group_text(groups, 3);
    let name = to_lowercase(month);
    match month_number(name.as_str()) {
        Some(digits) => join_date(year, digits, day),
        None => input.to_owned(),
    }
}

/// Converts a date to `YYYY-MM-DD`.
///
/// A date written as day, month name and year is rearranged; any other text
/// is read as a date and time by the `dtt` crate. A text that is neither
/// comes back as it is.
pub fn convert_date_format(input: &str) -> (text: String)
    ensures
        text@ == converted_date(input@),
{
    match find_groups(DATE_PATTERN, input) {
        Some(groups) => date_from_groups(&groups, input),
        None => match parse_date_parts(input) {
            Some((year, month, day)) => match CalendarDate::new(year, month, day) {
                Some(date) => format_date(&date),
                None => input.to_owned(),
            },
            None => input.to_owned(),
        },
    }
}

} // verus!
