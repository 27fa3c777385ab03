//! Timestamps: the split 64-bit raw form, the calendar form, and the rule
//! that turns the platform's answer for a raw value into one or the other.

use crate::error::Error;
use vstd::prelude::*;
use vstd::string::*;

verus! {

/// The 64-bit quantity whose upper half is `high` and whose lower half is `low`.
pub open spec fn joined(high: u32, low: u32) -> int {
    high * 0x1_0000_0000 + low
}

/// Reassembles a 64-bit quantity from its two 32-bit halves.
pub fn join_words(high: u32, low: u32) -> (whole: u64)
    ensures
        whole == joined(high, low),
{
    (high as u64) * 0x1_0000_0000u64 + (low as u64)
}

/// A raw timestamp: a count of ticks, split into two 32-bit words.
#[derive(Clone, Copy, Debug, PartialEq, Eq, Structural)]
pub struct FileTime {
    pub dw_low_date_time: u32,
    pub dw_high_date_time: u32,
}

impl FileTime {
    /// The tick count as one number. Raw timestamps are ordered by it.
    pub open spec fn ticks_spec(self) -> int {
        joined(self.dw_high_date_time, self.dw_low_date_time)
    }

    /// The tick count as one number.
    pub fn ticks(&self) -> (ticks: u64)
        ensures
            ticks == self.ticks_spec(),
    {
        join_words(self.dw_high_date_time, self.dw_low_date_time)
    }

    /// Whether every bit is zero: the value of a timestamp that was never set.
    pub fn is_zero(&self) -> (zero: bool)
        ensures
            zero == (self.ticks_spec() == 0),
    {
        self.dw_low_date_time == 0 && self.dw_high_date_time == 0
    }
}

/// A calendar date and time of day.
#[derive(Clone, Copy, Debug, PartialEq, Eq, Structural)]
pub struct SystemTime {
    pub year: u16,
    pub month: u16,
    pub day_of_week: u16,
    pub day: u16,
    pub hour: u16,
    pub minute: u16,
    pub second: u16,
    pub milliseconds: u16,
}

impl Default for SystemTime {
    fn default() -> (time: SystemTime)
        ensures
            time == SystemTime::zero(),
    {
        SystemTime {
            year: 0,
            month: 0,
            day_of_week: 0,
            day: 0,
            hour: 0,
            minute: 0,
            second: 0,
            milliseconds: 0,
        }
    }
}

/// One timestamp of a raw record: the raw value, and the calendar form that
/// the platform's conversion gave for it.
#[derive(Clone, Copy, Debug, PartialEq, Eq, Structural)]
pub struct Timestamp {
    pub raw: FileTime,
    /// `None` where the platform refused to convert `raw`.
    pub calendar: Option<SystemTime>,
}

impl Timestamp {
    /// The calendar time that `resolve` settles on, if any.
    ///
    /// A converted timestamp stands for its calendar form. One that the
    /// platform refused stands for the zero calendar value if the raw value
    /// is zero, the mark of a timestamp that was never set, and for nothing
    /// otherwise.
    pub open spec fn resolved(self) -> Option<SystemTime> {
        match self.calendar {
            Some(time) => Some(time),
            None => if self.raw.ticks_spec() == 0 {
                Some(SystemTime::zero())
            } else {
                None
            },
        }
    }

    /// Settles the calendar time of this timestamp, or fails with
    /// `InvalidSystemTime` where it has none.
    pub fn resolve(&self) -> (time: Result<SystemTime, Error>)
        ensures
            time is Ok == self.resolved() is Some,
            time is Ok ==> time->Ok_0 == self.resolved()->0,
            time is Err ==> time->Err_0 is InvalidSystemTime,
    {
        match self.calendar {
            Some(time) => Ok(time),
            None => if self.raw.is_zero() {
                Ok(SystemTime::default())
            } else {
                Err(Error::InvalidSystemTime)
            },
        }
    }
}

/// The character of a decimal digit.
pub open spec fn digit(d: nat) -> char {
    if d == 0 {
        '0'
    } else if d == 1 {
        '1'
    } else if d == 2 {
        '2'
    } else if d == 3 {
        '3'
    } else if d == 4 {
        '4'
    } else if d == 5 {
        '5'
    } else if d == 6 {
        '6'
    } else if d == 7 {
        '7'
    } else if d == 8 {
        '8'
    } else {
        '9'
    }
}

/// The decimal numeral of `n`, without leading zeros.
pub open spec fn decimal(n: nat) -> Seq<char>
    decreases n,
{
    if n < 10 {
        seq![digit(n)]
    } else {
        decimal(n / 10).push(digit(n % 10))
    }
}

/// The decimal numeral of `n`, with zeros in front up to `width` characters.
/// A numeral that is already `width` long or longer is left as it is.
pub open spec fn padded(n: nat, width: nat) -> Seq<char> {
    let numeral = decimal(n);
    if numeral.len() >= width {
        numeral
    } else {
        Seq::new((width - numeral.len()) as nat, |i: int| '0') + numeral
    }
}

impl SystemTime {
    /// The calendar value with every field zero.
    pub open spec fn zero() -> SystemTime {
        SystemTime {
            year: 0,
            month: 0,
            day_of_week: 0,
            day: 0,
            hour: 0,
            minute: 0,
            second: 0,
            milliseconds: 0,
        }
    }

    /// The text of `dmyhm`: day, month and year between slashes, a space,
    /// hour and minute around a colon; two digits at least for each but the
    /// year, which has four at least.
    pub open spec fn dmyhm_spec(self) -> Seq<char> {
        padded(self.day as nat, 2) + seq!['/'] + padded(self.month as nat, 2) + seq!['/'] + padded(
            self.year as nat,
            4,
        ) + seq![' '] + padded(self.hour as nat, 2) + seq![':'] + padded(self.minute as nat, 2)
    }

    /// Returns the date in day/month/year hour:minute format.
    pub fn dmyhm(&self) -> (text: String)
        ensures
            text@ == self.dmyhm_spec(),
    {
        proof {
            reveal_strlit("/");
            reveal_strlit(" ");
            reveal_strlit(":");
        }
        let mut text = String::new();
        append_padded(&mut text, self.day, 2);
        text.append("/");
        append_padded(&mut text, self.month, 2);
        text.append("/");
        append_padded(&mut text, self.year, 4);
        text.append(" ");
        append_padded(&mut text, self.hour, 2);
        text.append(":");
        append_padded(&mut text, self.minute, 2);
        assert(text@ =~= self.dmyhm_spec());
        text
    }
}

/// The one-character text of a decimal digit.
fn digit_str(d: u16) -> (text: &'static str)
    requires
        d < 10,
    ensures
        text@ == seq![digit(d as nat)],
{
    proof {
        reveal_strlit("0");
        reveal_strlit("1");
        reveal_strlit("2");
        reveal_strlit("3");
        reveal_strlit("4");
        reveal_strlit("5");
        reveal_strlit("6");
        reveal_strlit("7");
        reveal_strlit("8");
        reveal_strlit("9");
    }
    let text = match d {
        0 => "0",
        1 => "1",
        2 => "2",
        3 => "3",
        4 => "4",
        5 => "5",
        6 => "6",
        7 => "7",
        8 => "8",
        _ => "9",
    };
    assert(text@ =~= seq![digit(d as nat)]);
    text
}

/// The number of digits in the decimal numeral of `n`.
fn decimal_len(n: u16) -> (len: usize)
    ensures
        len == decimal(n as nat).len(),
        1 <= len <= n + 1,
    decreases n,
{
    if n < 10 {
        1
    } else {
        1 + decimal_len(n / 10)
    }
}

/// Appends the decimal numeral of `n`.
fn append_decimal(text: &mut String, n: u16)
    ensures
        final(text)@ == old(text)@ + decimal(n as nat),
    decreases n,
{
    if n >= 10 {
        append_decimal(text, n / 10);
    }
    text.append(digit_str(n % 10));
    assert(text@ =~= old(text)@ + decimal(n as nat));
}

/// Appends the decimal numeral of `n`, padded with zeros to `width`.
fn append_padded(text: &mut String, n: u16, width: usize)
    ensures
        final(text)@ == old(text)@ + padded(n as nat, width as nat),
{
    let len = decimal_len(n);
    let mut zeros: usize = 0;
    while zeros + len < width
        invariant
            len == decimal(n as nat).len(),
            zeros == 0 || zeros + len <= width,
            text@ == old(text)@ + Seq::new(zeros as nat, |i: int| '0'),
        decreases width - zeros,
    {
        proof {
            reveal_strlit("0");
        }
        text.append("0");
        zeros = zeros + 1;
        assert(text@ =~= old(text)@ + Seq::new(zeros as nat, |i: int| '0'));
    }
    append_decimal(text, n);
    assert(text@ =~= old(text)@ + padded(n as nat, width as nat));
}

} // verus!
