//! Calendar dates of log files: validity, the previous day, ordering and text form, as the
//! proleptic Gregorian calendar of `chrono` defines them.
use crate::text::{decimal, push_char, push_decimal, zero_padded};
use vstd::prelude::*;

verus! {

/// The earliest year a date may have.
pub const MIN_YEAR: i32 = -262143;

/// The latest year a date may have.
pub const MAX_YEAR: i32 = 262142;

/// A calendar date (year, month 1 to 12, day of month from 1).
#[derive(Debug, Clone, Copy, PartialEq, Eq, Structural, Hash)]
pub struct LogDate {
    pub year: i32,
    pub month: u32,
    pub day: u32,
}

/// Whether `y` is a leap year.
pub open spec fn is_leap_year(y: int) -> bool {
    y % 4 == 0 && (y % 100 != 0 || y % 400 == 0)
}

/// The number of days of month `m` in year `y`.
pub open spec fn days_in_month(y: int, m: int) -> int {
    if m == 2 {
        if is_leap_year(y) { 29 } else { 28 }
    } else if m == 4 || m == 6 || m == 9 || m == 11 {
        30
    } else {
        31
    }
}

/// Whether year, month and day name a date of the calendar.
pub open spec fn valid_ymd(y: int, m: int, d: int) -> bool {
    &&& MIN_YEAR <= y <= MAX_YEAR
    &&& 1 <= m <= 12
    &&& 1 <= d <= days_in_month(y, m)
}

impl LogDate {
    /// Whether the date exists in the calendar.
    pub open spec fn valid(self) -> bool {
        valid_ymd(self.year as int, self.month as int, self.day as int)
    }

    /// Whether the date is the first representable one.
    pub open spec fn is_first(self) -> bool {
        self.year == MIN_YEAR && self.month == 1 && self.day == 1
    }

    /// The calendar order: `self` is on or before `other`.
    pub open spec fn spec_le(self, other: LogDate) -> bool {
        ||| self.year < other.year
        ||| (self.year == other.year && self.month < other.month)
        ||| (self.year == other.year && self.month == other.month && self.day <= other.day)
    }

    /// The calendar order: `self` is strictly before `other`.
    pub open spec fn spec_lt(self, other: LogDate) -> bool {
        self.spec_le(other) && self != other
    }

    /// The day before.
    pub open spec fn spec_pred(self) -> LogDate {
        if self.day > 1 {
            LogDate { year: self.year, month: self.month, day: (self.day - 1) as u32 }
        } else if self.month > 1 {
            LogDate {
                year: self.year,
                month: (self.month - 1) as u32,
                day: days_in_month(self.year as int, self.month - 1) as u32,
            }
        } else {
            LogDate { year: (self.year - 1) as i32, month: 12, day: 31 }
        }
    }

    /// The date `n` days before.
    pub open spec fn days_before(self, n: nat) -> LogDate
        decreases n,
    {
        if n == 0 {
            self
        } else {
            self.days_before((n - 1) as nat).spec_pred()
        }
    }

    /// Whether stepping back `n` days one at a time never steps before the first date.
    pub open spec fn can_go_back(self, n: nat) -> bool
        decreases n,
    {
        if n == 0 {
            true
        } else {
            self.can_go_back((n - 1) as nat) && !self.days_before((n - 1) as nat).is_first()
        }
    }

    /// The `%Y-%m-%d` text of the date: four digits of year (a sign and at least four digits
    /// outside 0 to 9999), two of month and two of day.
    pub open spec fn spec_text(self) -> Seq<char> {
        let y = self.year as int;
        let year_text = if 0 <= y <= 9999 {
            zero_padded(y as nat, 4)
        } else if y > 9999 {
            seq!['+'] + decimal(y as nat)
        } else {
            seq!['-'] + zero_padded((-y) as nat, 4)
        };
        year_text + seq!['-'] + zero_padded(self.month as nat, 2) + seq!['-'] + zero_padded(
            self.day as nat,
            2,
        )
    }

    /// Whether year, month and day name a date of the calendar.
    pub fn is_valid(&self) -> (r: bool)
        ensures
            r == self.valid(),
    {
        if self.year < MIN_YEAR || self.year > MAX_YEAR || self.month < 1 || self.month > 12
            || self.day < 1 {
            return false;
        }
        self.day <= days_in(self.year, self.month)
    }

    /// On or before `other`, in calendar order.
    pub fn le(&self, other: &LogDate) -> (r: bool)
        ensures
            r == self.spec_le(*other),
    {
        self.year < other.year || (self.year == other.year && self.month < other.month) || (
        self.year == other.year && self.month == other.month && self.day <= other.day)
    }

    /// Strictly before `other`, in calendar order.
    pub fn lt(&self, other: &LogDate) -> (r: bool)
        ensures
            r == self.spec_lt(*other),
    {
        self.le(other) && !(self.year == other.year && self.month == other.month && self.day
            == other.day)
    }

    /// The previous calendar day.
    pub fn pred(&self) -> (r: LogDate)
        requires
            self.valid(),
            !self.is_first(),
        ensures
            r == self.spec_pred(),
            r.valid(),
            r.spec_lt(*self),
    {
        if self.day > 1 {
            LogDate { year: self.year, month: self.month, day: self.day - 1 }
        } else if self.month > 1 {
            LogDate { year: self.year, month: self.month - 1, day: days_in(self.year, self.month - 1) }
        } else {
            LogDate { year: self.year - 1, month: 12, day: 31 }
        }
    }

    /// The date `n` days before.
    pub fn go_back(&self, n: u32) -> (r: LogDate)
        requires
            self.valid(),
            self.can_go_back(n as nat),
        ensures
            r == self.days_before(n as nat),
            r.valid(),
    {
        let mut d = *self;
        let mut i: u32 = 0;
        while i < n
            invariant
                i <= n,
                self.valid(),
                self.can_go_back(n as nat),
                d == self.days_before(i as nat),
                d.valid(),
            decreases n - i,
        {
            proof {
                lemma_can_go_back_prefix(*self, (i + 1) as nat, n as nat);
            }
            d = d.pred();
            i = i + 1;
        }
        d
    }

    /// The date `n` days before, or `None` when stepping back would pass the first date.
    pub fn try_go_back(&self, n: u32) -> (r: Option<LogDate>)
        requires
            self.valid(),
        ensures
            r is Some <==> self.can_go_back(n as nat),
            r matches Some(d) ==> d == self.days_before(n as nat) && d.valid(),
    {
        let mut d = *self;
        let mut i: u32 = 0;
        while i < n
            invariant
                i <= n,
                self.valid(),
                self.can_go_back(i as nat),
                d == self.days_before(i as nat),
                d.valid(),
            decreases n - i,
        {
            if d.year == MIN_YEAR && d.month == 1 && d.day == 1 {
                proof {
                    lemma_cannot_go_back_further(*self, i as nat, n as nat);
                }
                return None;
            }
            d = d.pred();
            i = i + 1;
        }
        Some(d)
    }

    /// Appends the `%Y-%m-%d` text of the date.
    pub fn push_text(&self, s: &mut String)
        ensures
            final(s)@ == old(s)@ + self.spec_text(),
    {
        let ghost start = s@;
        let y = self.year;
        if 0 <= y && y <= 9999 {
            push_padded(s, y as u64, 4);
        } else if y > 9999 {
            push_char(s, '+');
            push_decimal(s, y as u64);
            assert(s@ =~= start + (seq!['+'] + decimal(y as nat)));
        } else {
            push_char(s, '-');
            let a: i64 = -(y as i64);
            push_padded(s, a as u64, 4);
            assert(s@ =~= start + (seq!['-'] + zero_padded((-y) as nat, 4)));
        }
        let ghost mid = s@;
        push_char(s, '-');
        push_padded(s, self.month as u64, 2);
        push_char(s, '-');
        push_padded(s, self.day as u64, 2);
        assert(s@ =~= start + self.spec_text());
    }
}

proof fn lemma_cannot_go_back_further(d: LogDate, i: nat, n: nat)
    requires
        i < n,
        d.days_before(i).is_first(),
    ensures
        !d.can_go_back(n),
    decreases n,
{
    if i + 1 < n {
        lemma_cannot_go_back_further(d, i, (n - 1) as nat);
    }
}

proof fn lemma_can_go_back_prefix(d: LogDate, i: nat, n: nat)
    requires
        i <= n,
        d.can_go_back(n),
    ensures
        d.can_go_back(i),
    decreases n,
{
    if i < n {
        lemma_can_go_back_prefix(d, i, (n - 1) as nat);
    }
}

/// The number of days of a month.
fn days_in(y: i32, m: u32) -> (r: u32)
    ensures
        r == days_in_month(y as int, m as int),
{
    if m == 2 {
        let a: u32 = if y < 0 { (-(y as i64)) as u32 } else { y as u32 };
        assert(a as int % 4 == 0 <==> y as int % 4 == 0);
        assert(a as int % 100 == 0 <==> y as int % 100 == 0);
        assert(a as int % 400 == 0 <==> y as int % 400 == 0);
        if a % 4 == 0 && (a % 100 != 0 || a % 400 == 0) {
            29
        } else {
            28
        }
    } else if m == 4 || m == 6 || m == 9 || m == 11 {
        30
    } else {
        31
    }
}

/// Appends the decimal text of `n`, zero-padded to `width` characters.
pub fn push_padded(s: &mut String, n: u64, width: u64)
    ensures
        final(s)@ == old(s)@ + zero_padded(n as nat, width as nat),
{
    let ghost start = s@;
    let len = decimal_len(n);
    let mut i = len;
    while i < width
        invariant
            len <= i,
            len < width ==> i <= width,
            len >= width ==> i == len,
            len == decimal(n as nat).len(),
            s@ =~= start + Seq::new((i - len) as nat, |j: int| '0'),
        decreases width - i,
    {
        push_char(s, '0');
        i = i + 1;
    }
    let ghost before = s@;
    push_decimal(s, n);
    if len >= width {
        assert(i == len);
        assert(Seq::new((i - len) as nat, |j: int| '0') =~= Seq::<char>::empty());
        assert(before =~= start);
        assert(s@ =~= start + zero_padded(n as nat, width as nat));
    } else {
        assert(i == width);
        assert(s@ =~= start + zero_padded(n as nat, width as nat));
    }
}

proof fn lemma_decimal_len_bound(n: nat)
    ensures
        decimal(n).len() <= n + 1,
    decreases n,
{
    if n >= 10 {
        lemma_decimal_len_bound(n / 10);
    }
}

/// The number of decimal digits of `n`.
fn decimal_len(n: u64) -> (r: u64)
    ensures
        r == decimal(n as nat).len(),
    decreases n,
{
    if n < 10 {
        1
    } else {
        let r = decimal_len(n / 10);
        proof { lemma_decimal_len_bound((n / 10) as nat); }
        r + 1
    }
}

} // verus!
