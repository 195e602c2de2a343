//! Dates of a reference, and the questions that a condition can ask of them.

use vstd::prelude::*;
use vstd::string::StringExecFns;
use crate::numeric::{decimal, push_decimal};

verus! {

/// A calendar date. A month or a day of zero means that it is not known.
#[derive(Copy, Clone, PartialEq, Eq, Hash, Debug, Structural)]
pub struct Date {
    pub year: i32,
    /// 1 to 12 for months, 13 to 16 for seasons, 0 where unknown.
    pub month: u32,
    /// 1 to 31, 0 where unknown.
    pub day: u32,
}

/// One date, a range between two, or words that could not be read as a date.
#[derive(Clone, PartialEq, Eq, Debug)]
pub enum DateOrRange {
    Single(Date),
    Range(Date, Date),
    Literal(String),
}

impl Date {
    pub fn new(year: i32, month: u32, day: u32) -> (d: Date)
        ensures
            d == (Date { year, month, day }),
    {
        Date { year, month, day }
    }
}

impl DateOrRange {
    /// Only years are known: every date that is given has neither month nor day.
    pub open spec fn spec_has_year_only(&self) -> bool {
        match self {
            DateOrRange::Single(d) => d.month == 0 && d.day == 0,
            DateOrRange::Range(d1, d2) => d1.month == 0 && d1.day == 0 && d2.month == 0 && d2.day
                == 0,
            DateOrRange::Literal(_) => false,
        }
    }

    /// Some date that is given has a month or a season.
    pub open spec fn spec_has_month_or_season(&self) -> bool {
        match self {
            DateOrRange::Single(d) => d.month != 0,
            DateOrRange::Range(d1, d2) => d1.month != 0 || d2.month != 0,
            DateOrRange::Literal(_) => false,
        }
    }

    /// Some date that is given has a day.
    pub open spec fn spec_has_day(&self) -> bool {
        match self {
            DateOrRange::Single(d) => d.day != 0,
            DateOrRange::Range(d1, d2) => d1.day != 0 || d2.day != 0,
            DateOrRange::Literal(_) => false,
        }
    }

    #[verifier::when_used_as_spec(spec_has_year_only)]
    pub fn has_year_only(&self) -> (b: bool)
        ensures
            b == self.spec_has_year_only(),
    {
        match self {
            DateOrRange::Single(d) => d.month == 0 && d.day == 0,
            DateOrRange::Range(d1, d2) => d1.month == 0 && d1.day == 0 && d2.month == 0 && d2.day
                == 0,
            DateOrRange::Literal(_) => false,
        }
    }

    #[verifier::when_used_as_spec(spec_has_month_or_season)]
    pub fn has_month_or_season(&self) -> (b: bool)
        ensures
            b == self.spec_has_month_or_season(),
    {
        match self {
            DateOrRange::Single(d) => d.month != 0,
            DateOrRange::Range(d1, d2) => d1.month != 0 || d2.month != 0,
            DateOrRange::Literal(_) => false,
        }
    }

    #[verifier::when_used_as_spec(spec_has_day)]
    pub fn has_day(&self) -> (b: bool)
        ensures
            b == self.spec_has_day(),
    {
        match self {
            DateOrRange::Single(d) => d.day != 0,
            DateOrRange::Range(d1, d2) => d1.day != 0 || d2.day != 0,
            DateOrRange::Literal(_) => false,
        }
    }
}


/// The size of a year, whatever its sign.
pub open spec fn year_size(year: i32) -> nat {
    if year >= 0 {
        year as nat
    } else {
        (-year) as nat
    }
}

/// The plain text of a date: the year, then month and day where they are
/// known, each in decimal, with hyphens between them. Years before the
/// year 0 have a minus sign in front.
pub open spec fn date_text(d: Date) -> Seq<char> {
    let sign = if d.year < 0 {
        seq!['-']
    } else {
        Seq::<char>::empty()
    };
    let month = if d.month != 0 {
        seq!['-'] + decimal(d.month as nat)
    } else {
        Seq::<char>::empty()
    };
    let day = if d.day != 0 {
        seq!['-'] + decimal(d.day as nat)
    } else {
        Seq::<char>::empty()
    };
    sign + decimal(year_size(d.year)) + month + day
}

fn push_date(out: &mut String, d: &Date)
    ensures
        final(out)@ == old(out)@ + date_text(*d),
{
    proof {
        reveal_strlit("-");
    }
    let ghost start = out@;
    let size: u32 = if d.year >= 0 {
        d.year as u32
    } else {
        out.append("-");
        (-(d.year as i64)) as u32
    };
    let ghost sign = if d.year < 0 {
        seq!['-']
    } else {
        Seq::<char>::empty()
    };
    assert(out@ =~= start + sign);
    push_decimal(out, size);
    let ghost after_year = out@;
    if d.month != 0 {
        out.append("-");
        push_decimal(out, d.month);
    }
    let ghost month = if d.month != 0 {
        seq!['-'] + decimal(d.month as nat)
    } else {
        Seq::<char>::empty()
    };
    assert(out@ =~= after_year + month);
    let ghost after_month = out@;
    if d.day != 0 {
        out.append("-");
        push_decimal(out, d.day);
    }
    let ghost day = if d.day != 0 {
        seq!['-'] + decimal(d.day as nat)
    } else {
        Seq::<char>::empty()
    };
    assert(out@ =~= after_month + day);
    assert(out@ =~= start + date_text(*d));
}

impl DateOrRange {
    /// The plain text of a date or a range: the two ends of a range with a
    /// dash between them, words that are no date as they are.
    pub open spec fn spec_text(&self) -> Seq<char> {
        match self {
            DateOrRange::Single(d) => date_text(*d),
            DateOrRange::Range(d1, d2) => date_text(*d1) + seq!['\u{2013}'] + date_text(*d2),
            DateOrRange::Literal(s) => s@,
        }
    }

    pub fn text(&self) -> (s: String)
        ensures
            s@ == self.spec_text(),
    {
        match self {
            DateOrRange::Single(d) => {
                let mut s = String::new();
                push_date(&mut s, d);
                assert(s@ =~= date_text(*d));
                s
            },
            DateOrRange::Range(d1, d2) => {
                let mut s = String::new();
                push_date(&mut s, d1);
                proof {
                    reveal_strlit("\u{2013}");
                }
                s.append("\u{2013}");
                push_date(&mut s, d2);
                assert(s@ =~= date_text(*d1) + seq!['\u{2013}'] + date_text(*d2));
                s
            },
            DateOrRange::Literal(s) => s.clone(),
        }
    }
}

} // verus!
