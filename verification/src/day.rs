//! Calendar days: the natural key of a diary entry, and the derivation of
//! the `YYYY-MM-DD.txt` file name a day's entry is stored under.

use vstd::prelude::*;

verus! {

/// A calendar day, held as plain year / month / day numbers.
#[derive(Clone, Copy, PartialEq, Eq, Structural, Debug)]
pub struct Day {
    pub year: u32,
    pub month: u32,
    pub day: u32,
}

impl Day {
    /// A day the library accepts: a four-digit year and plausible
    /// month and day-of-month bounds.
    pub open spec fn wf(self) -> bool {
        &&& self.year <= 9999
        &&& 1 <= self.month <= 12
        &&& 1 <= self.day <= 31
    }

    /// Builds a day from its parts, rejecting values outside the
    /// well-formed ranges.
    pub fn new(year: u32, month: u32, day: u32) -> (r: Option<Day>)
        ensures
            r is Some <==> (Day { year, month, day }).wf(),
            r matches Some(d) ==> d == (Day { year, month, day }),
    {
        if year <= 9999 && 1 <= month && month <= 12 && 1 <= day && day <= 31 {
            Some(Day { year, month, day })
        } else {
            None
        }
    }
}

/// The decimal digit character for a value below ten.
pub open spec fn digit_char(n: int) -> char {
    if n == 0 { '0' }
    else if n == 1 { '1' }
    else if n == 2 { '2' }
    else if n == 3 { '3' }
    else if n == 4 { '4' }
    else if n == 5 { '5' }
    else if n == 6 { '6' }
    else if n == 7 { '7' }
    else if n == 8 { '8' }
    else { '9' }
}

/// A number rendered as exactly two decimal digits, zero padded.
pub open spec fn two_digit_chars(n: int) -> Seq<char> {
    seq![digit_char(n / 10 % 10), digit_char(n % 10)]
}

/// A number rendered as exactly four decimal digits, zero padded.
pub open spec fn four_digit_chars(n: int) -> Seq<char> {
    seq![
        digit_char(n / 1000 % 10),
        digit_char(n / 100 % 10),
        digit_char(n / 10 % 10),
        digit_char(n % 10),
    ]
}

/// A day rendered as `YYYY-MM-DD`.
pub open spec fn date_chars(d: Day) -> Seq<char> {
    four_digit_chars(d.year as int) + seq!['-'] + two_digit_chars(d.month as int) + seq!['-']
        + two_digit_chars(d.day as int)
}

/// The file name a day's entry is stored under: `YYYY-MM-DD.txt`.
pub open spec fn entry_file_name(d: Day) -> Seq<char> {
    date_chars(d) + seq!['.', 't', 'x', 't']
}

/// The one-character string for a decimal digit.
fn digit_str(n: u32) -> (r: &'static str)
    requires
        n < 10,
    ensures
        r@ == seq![digit_char(n as int)],
{
    let r: &'static str = if n == 0 { "0" }
    else if n == 1 { "1" }
    else if n == 2 { "2" }
    else if n == 3 { "3" }
    else if n == 4 { "4" }
    else if n == 5 { "5" }
    else if n == 6 { "6" }
    else if n == 7 { "7" }
    else if n == 8 { "8" }
    else { "9" };
    proof {
        reveal_strlit("0");
        reveal_strlit("1");
        reveal_strlit("2");
        reveal_strlit("3");
        reveal_strlit("4");
        reveal_strlit("5");
        reveal_strlit("6");
        reveal_strlit("7");
        reveal_strlit("8");
        reveal_strlit("9");
        assert(r@ =~= seq![digit_char(n as int)]);
    }
    r
}

/// Appends a value below one hundred as two zero-padded digits.
fn push_two_digits(s: &mut String, n: u32)
    requires
        n < 100,
    ensures
        final(s)@ == old(s)@ + two_digit_chars(n as int),
{
    s.append(digit_str(n / 10 % 10));
    s.append(digit_str(n % 10));
    proof {
        assert(final(s)@ =~= old(s)@ + two_digit_chars(n as int));
    }
}

/// Appends a value below ten thousand as four zero-padded digits.
fn push_four_digits(s: &mut String, n: u32)
    requires
        n < 10000,
    ensures
        final(s)@ == old(s)@ + four_digit_chars(n as int),
{
    s.append(digit_str(n / 1000 % 10));
    s.append(digit_str(n / 100 % 10));
    s.append(digit_str(n / 10 % 10));
    s.append(digit_str(n % 10));
    proof {
        assert(final(s)@ =~= old(s)@ + four_digit_chars(n as int));
    }
}

/// Relies on std's `SystemTime::now` and `duration_since` (an `Err` for a
/// clock before the Unix epoch), and on chrono's `DateTime::from_timestamp`
/// (`None` for an out-of-range number of seconds) and `Datelike` accessors:
/// `month` returns a value in 1..=12 and `day` one in 1..=31. None of these
/// calls panics; the year is whatever the clock yields.
#[verifier::external_body]
fn now_year_month_day() -> (r: Option<(i32, u32, u32)>)
    ensures
        r matches Some(t) ==> 1 <= t.1 <= 12 && 1 <= t.2 <= 31,
{
    let since_epoch = match std::time::SystemTime::now().duration_since(std::time::UNIX_EPOCH) {
        Ok(d) => d,
        Err(_) => return None,
    };
    let secs = match i64::try_from(since_epoch.as_secs()) {
        Ok(s) => s,
        Err(_) => return None,
    };
    match chrono::DateTime::from_timestamp(secs, 0) {
        Some(t) => Some(
            (chrono::Datelike::year(&t), chrono::Datelike::month(&t), chrono::Datelike::day(&t)),
        ),
        None => None,
    }
}

/// Today's calendar day, read from the clock in UTC. `None` if the clock
/// stands before the Unix epoch or outside the four-digit year range.
pub fn today() -> (r: Option<Day>)
    ensures
        r matches Some(d) ==> d.wf(),
{
    match now_year_month_day() {
        Some((y, m, d)) => {
            if 0 <= y && y <= 9999 {
                Day::new(y as u32, m, d)
            } else {
                None
            }
        },
        None => None,
    }
}

impl Day {
    /// The `YYYY-MM-DD.txt` file name for this day's entry.
    pub fn file_name(&self) -> (r: String)
        requires
            self.wf(),
        ensures
            r@ == entry_file_name(*self),
    {
        let mut s = String::new();
        push_four_digits(&mut s, self.year);
        s.append("-");
        push_two_digits(&mut s, self.month);
        s.append("-");
        push_two_digits(&mut s, self.day);
        s.append(".txt");
        proof {
            reveal_strlit("-");
            reveal_strlit(".txt");
            assert(s@ =~= entry_file_name(*self));
        }
        s
    }
}

} // verus!
