//! Time units and time zones of timestamp columns.
use vstd::prelude::*;
use crate::text::{push, string_of, u64_to_string, nat_digits};

verus! {

/// The unit of a timestamp: how many of them make a second.
#[derive(Debug, Clone, Copy, PartialEq, Eq, Hash, Structural)]
pub enum PoSQLTimeUnit {
    /// Seconds, precision 0.
    Second,
    /// Milliseconds, precision 3.
    Millisecond,
    /// Microseconds, precision 6.
    Microsecond,
    /// Nanoseconds, precision 9.
    Nanosecond,
}

impl PoSQLTimeUnit {
    /// The number of decimal digits below the second that the unit resolves.
    pub open spec fn spec_precision(self) -> i8 {
        match self {
            PoSQLTimeUnit::Second => 0,
            PoSQLTimeUnit::Millisecond => 3,
            PoSQLTimeUnit::Microsecond => 6,
            PoSQLTimeUnit::Nanosecond => 9,
        }
    }

    /// The number of decimal digits below the second that the unit resolves.
    pub fn precision(&self) -> (p: i8)
        ensures
            p == self.spec_precision(),
    {
        match self {
            PoSQLTimeUnit::Second => 0,
            PoSQLTimeUnit::Millisecond => 3,
            PoSQLTimeUnit::Microsecond => 6,
            PoSQLTimeUnit::Nanosecond => 9,
        }
    }

    /// The unit's name as it is shown, e.g. `seconds (precision: 0)`.
    pub open spec fn spec_display(self) -> Seq<char> {
        match self {
            PoSQLTimeUnit::Second => "seconds (precision: 0)"@,
            PoSQLTimeUnit::Millisecond => "milliseconds (precision: 3)"@,
            PoSQLTimeUnit::Microsecond => "microseconds (precision: 6)"@,
            PoSQLTimeUnit::Nanosecond => "nanoseconds (precision: 9)"@,
        }
    }

    /// The unit's name as it is shown, e.g. `seconds (precision: 0)`.
    pub fn to_string(&self) -> (s: String)
        ensures
            s@ == self.spec_display(),
    {
        match self {
            PoSQLTimeUnit::Second => string_of("seconds (precision: 0)"),
            PoSQLTimeUnit::Millisecond => string_of("milliseconds (precision: 3)"),
            PoSQLTimeUnit::Microsecond => string_of("microseconds (precision: 6)"),
            PoSQLTimeUnit::Nanosecond => string_of("nanoseconds (precision: 9)"),
        }
    }
}

impl Default for PoSQLTimeUnit {
    /// Seconds.
    fn default() -> (u: Self)
        ensures
            u == PoSQLTimeUnit::Second,
    {
        PoSQLTimeUnit::Second
    }
}

/// A time zone, as its offset from UTC in seconds.
#[derive(Debug, Clone, Copy, PartialEq, Eq, Hash, Structural)]
pub struct PoSQLTimeZone {
    offset: i32,
}

impl PoSQLTimeZone {
    /// The offset from UTC in seconds.
    pub closed spec fn spec_offset(self) -> i32 {
        self.offset
    }

    /// The zone `offset` seconds east of UTC.
    pub fn new(offset: i32) -> (tz: Self)
        ensures
            tz.spec_offset() == offset,
    {
        PoSQLTimeZone { offset }
    }

    /// UTC.
    pub fn utc() -> (tz: Self)
        ensures
            tz.spec_offset() == 0,
    {
        PoSQLTimeZone { offset: 0 }
    }

    /// The offset from UTC in seconds.
    pub fn offset(&self) -> (o: i32)
        ensures
            o == self.spec_offset(),
    {
        self.offset
    }

    /// Two decimal digits, with a leading zero below ten.
    pub open spec fn two_digits(n: nat) -> Seq<char> {
        if n < 10 { seq!['0'] + nat_digits(n) } else { nat_digits(n) }
    }

    /// The zone as it is shown: a sign, then hours and minutes of the offset,
    /// e.g. `+01:00` or `-05:30`.
    pub open spec fn spec_display(self) -> Seq<char> {
        let o = self.spec_offset() as int;
        let sign = if o < 0 { '-' } else { '+' };
        let a: nat = if o < 0 { (-o) as nat } else { o as nat };
        seq![sign] + Self::two_digits(a / 3600) + seq![':'] + Self::two_digits((a % 3600) / 60)
    }

    /// The zone as it is shown, e.g. `+01:00`.
    pub fn to_string(&self) -> (s: String)
        ensures
            s@ == self.spec_display(),
    {
        let o = self.offset as i64;
        let a: u64 = if o < 0 { (-o) as u64 } else { o as u64 };
        let mut s = if o < 0 { string_of("-") } else { string_of("+") };
        let hours = a / 3600;
        let minutes = (a % 3600) / 60;
        if hours < 10 {
            push(&mut s, "0");
        }
        let h = u64_to_string(hours);
        push(&mut s, h.as_str());
        push(&mut s, ":");
        if minutes < 10 {
            push(&mut s, "0");
        }
        let m = u64_to_string(minutes);
        push(&mut s, m.as_str());
        proof {
            reveal_strlit("-");
            reveal_strlit("+");
            reveal_strlit("0");
            reveal_strlit(":");
        }
        assert(s@ =~= self.spec_display());
        s
    }
}

} // verus!
