//! The task model: dates and times as plain values, task states and tasks.
use vstd::prelude::*;

verus! {

/// The earliest year that a calendar date can have.
pub const MIN_YEAR: i32 = -262143;

/// The latest year that a calendar date can have.
pub const MAX_YEAR: i32 = 262142;

/// A day of the proleptic Gregorian calendar.
#[derive(Clone, Copy, Debug, PartialEq, Eq, Structural)]
pub struct Date {
    pub year: i32,
    pub month: u32,
    pub day: u32,
}

pub open spec fn is_leap_year(y: int) -> bool {
    y % 4 == 0 && (y % 100 != 0 || y % 400 == 0)
}

pub open spec fn days_in_month(y: int, m: int) -> int {
    if m == 2 {
        if is_leap_year(y) {
            29
        } else {
            28
        }
    } else if m == 4 || m == 6 || m == 9 || m == 11 {
        30
    } else {
        31
    }
}

impl Date {
    /// The date exists in the calendar and in the supported range of years.
    pub open spec fn wf(self) -> bool {
        &&& MIN_YEAR <= self.year <= MAX_YEAR
        &&& 1 <= self.month <= 12
        &&& 1 <= self.day <= days_in_month(self.year as int, self.month as int)
    }

    /// Whether the date exists in the calendar and in the supported range.
    pub fn is_valid(&self) -> (r: bool)
        ensures
            r == self.wf(),
    {
        if self.year < MIN_YEAR || self.year > MAX_YEAR || self.month < 1 || self.month > 12
            || self.day < 1 {
            return false;
        }
        let y = self.year as i64 + 400_000;
        assert(y % 4 == (self.year as int) % 4);
        assert(y % 100 == (self.year as int) % 100);
        assert(y % 400 == (self.year as int) % 400);
        let leap = y % 4 == 0 && (y % 100 != 0 || y % 400 == 0);
        let m = self.month;
        let days: u32 = if m == 2 {
            if leap {
                29
            } else {
                28
            }
        } else if m == 4 || m == 6 || m == 9 || m == 11 {
            30
        } else {
            31
        };
        self.day <= days
    }

    /// `self` is the same day as `other` or an earlier one.
    pub open spec fn le(self, other: Date) -> bool {
        ||| self.year < other.year
        ||| (self.year == other.year && self.month < other.month)
        ||| (self.year == other.year && self.month == other.month && self.day <= other.day)
    }

    /// Whether `self` is the same day as `other` or an earlier one.
    pub fn on_or_before(&self, other: &Date) -> (r: bool)
        ensures
            r == self.le(*other),
    {
        self.year < other.year || (self.year == other.year && self.month < other.month) || (
        self.year == other.year && self.month == other.month && self.day <= other.day)
    }

    /// Whether `self` and `other` are the same day.
    pub fn same_day(&self, other: &Date) -> (r: bool)
        ensures
            r == (*self == *other),
    {
        self.year == other.year && self.month == other.month && self.day == other.day
    }
}

/// A date and a time of day, without a time zone.
#[derive(Clone, Copy, Debug, PartialEq, Eq, Structural)]
pub struct DateTime {
    pub date: Date,
    pub hour: u32,
    pub minute: u32,
    pub second: u32,
    /// Nanoseconds; from one second on, a leap second in the 59th second.
    pub nanosecond: u32,
}

impl DateTime {
    /// The date and time exist; a leap second only stands in the 59th second.
    pub open spec fn wf(self) -> bool {
        &&& self.date.wf()
        &&& self.hour < 24
        &&& self.minute < 60
        &&& self.second < 60
        &&& self.nanosecond < 2_000_000_000
        &&& self.nanosecond >= 1_000_000_000 ==> self.second == 59
    }

    /// Whether the date and time exist.
    pub fn is_valid(&self) -> (r: bool)
        ensures
            r == self.wf(),
    {
        self.date.is_valid() && self.hour < 24 && self.minute < 60 && self.second < 60
            && self.nanosecond < 2_000_000_000 && (self.nanosecond < 1_000_000_000 || self.second
            == 59)
    }

    /// `self` comes strictly before `other`.
    pub open spec fn lt(self, other: DateTime) -> bool {
        ||| (self.date.le(other.date) && self.date != other.date)
        ||| (self.date == other.date && self.hour < other.hour)
        ||| (self.date == other.date && self.hour == other.hour && self.minute < other.minute)
        ||| (self.date == other.date && self.hour == other.hour && self.minute == other.minute
            && self.second < other.second)
        ||| (self.date == other.date && self.hour == other.hour && self.minute == other.minute
            && self.second == other.second && self.nanosecond < other.nanosecond)
    }

    /// Whether `self` comes strictly before `other`.
    pub fn is_before(&self, other: &DateTime) -> (r: bool)
        ensures
            r == self.lt(*other),
    {
        let same_date = self.date.same_day(&other.date);
        if !same_date {
            self.date.on_or_before(&other.date)
        } else if self.hour != other.hour {
            self.hour < other.hour
        } else if self.minute != other.minute {
            self.minute < other.minute
        } else if self.second != other.second {
            self.second < other.second
        } else {
            self.nanosecond < other.nanosecond
        }
    }
}

pub open spec fn opt_wf(t: Option<DateTime>) -> bool {
    match t {
        Some(d) => d.wf(),
        None => true,
    }
}

/// Where a task stands.
#[derive(Clone, Copy, Debug, PartialEq, Eq, Structural)]
pub enum State {
    Done,
    Pending,
    Ongoing,
    Notstarted,
}

impl State {
    /// The name of the state, as `{:?}` writes it.
    pub open spec fn name(self) -> Seq<char> {
        match self {
            State::Done => "Done"@,
            State::Pending => "Pending"@,
            State::Ongoing => "Ongoing"@,
            State::Notstarted => "Notstarted"@,
        }
    }

    /// The name of the state.
    pub fn name_str(&self) -> (r: &'static str)
        ensures
            r@ == self.name(),
    {
        match self {
            State::Done => "Done",
            State::Pending => "Pending",
            State::Ongoing => "Ongoing",
            State::Notstarted => "Notstarted",
        }
    }
}

/// A task of the list.
#[derive(Debug)]
pub struct Todo {
    pub id: u32,
    pub title: String,
    pub creat_time: Option<DateTime>,
    pub start_time: Option<DateTime>,
    pub finish_time: Option<DateTime>,
    pub scheduled_time: Option<DateTime>,
    pub deadline_time: Option<DateTime>,
    pub state: State,
}

/// A task as a mathematical value.
pub struct TodoView {
    pub id: u32,
    pub title: Seq<char>,
    pub creat_time: Option<DateTime>,
    pub start_time: Option<DateTime>,
    pub finish_time: Option<DateTime>,
    pub scheduled_time: Option<DateTime>,
    pub deadline_time: Option<DateTime>,
    pub state: State,
}

impl View for Todo {
    type V = TodoView;

    open spec fn view(&self) -> TodoView {
        TodoView {
            id: self.id,
            title: self.title@,
            creat_time: self.creat_time,
            start_time: self.start_time,
            finish_time: self.finish_time,
            scheduled_time: self.scheduled_time,
            deadline_time: self.deadline_time,
            state: self.state,
        }
    }
}

impl TodoView {
    /// Every time of the task exists in the calendar.
    pub open spec fn wf(self) -> bool {
        &&& opt_wf(self.creat_time)
        &&& opt_wf(self.start_time)
        &&& opt_wf(self.finish_time)
        &&& opt_wf(self.scheduled_time)
        &&& opt_wf(self.deadline_time)
    }
}

fn opt_valid(t: &Option<DateTime>) -> (r: bool)
    ensures
        r == opt_wf(*t),
{
    match t {
        Some(d) => d.is_valid(),
        None => true,
    }
}

impl Todo {
    /// Whether every time of the task exists in the calendar.
    pub fn is_valid(&self) -> (r: bool)
        ensures
            r == self@.wf(),
    {
        opt_valid(&self.creat_time) && opt_valid(&self.start_time) && opt_valid(&self.finish_time)
            && opt_valid(&self.scheduled_time) && opt_valid(&self.deadline_time)
    }

    /// A new task that has not started, created at `create_time`.
    pub fn new(
        id: u32,
        title: String,
        create_time: Option<DateTime>,
        scheduled_time: Option<DateTime>,
        deadline: Option<DateTime>,
    ) -> (r: Self)
        ensures
            r@ == (TodoView {
                id,
                title: title@,
                creat_time: create_time,
                start_time: None,
                finish_time: None,
                scheduled_time,
                deadline_time: deadline,
                state: State::Notstarted,
            }),
    {
        Todo {
            id,
            title,
            creat_time: create_time,
            start_time: None,
            finish_time: None,
            scheduled_time,
            deadline_time: deadline,
            state: State::Notstarted,
        }
    }
}

} // verus!
