//! Reading the command line's values: the arguments of a subcommand as plain
//! values, the id they name, the dates and times they give, and the id of a
//! new task.
use crate::calendar::{chrono_date_parse, chrono_datetime_parse, now, parse_date, parse_datetime};
use crate::model::{opt_wf, Date, DateTime, Todo, TodoView};
use crate::store::{input_time_fmt, views};
use crate::text::{chars_eq_ignore_ascii_case, chars_of, eq_ignore_ascii_case};
use vstd::prelude::*;

verus! {

/// The values given to a subcommand. A value or flag that the subcommand does
/// not take is `None` or `false`.
#[derive(Debug)]
pub struct SubArgs {
    /// The task that `edit`, `done`, `delete`, `start` and `pending` act on.
    pub id: Option<u32>,
    /// The title of `add`, or the new title of `edit`.
    pub title: Option<String>,
    /// `edit --creat`.
    pub creat: Option<String>,
    /// `edit --start`.
    pub start: Option<String>,
    /// `edit --finish`.
    pub finish: Option<String>,
    /// `add --scheduled`, `edit --scheduled`.
    pub scheduled: Option<String>,
    /// `add --deadline`, `edit --deadline`.
    pub deadline: Option<String>,
    /// `list --done`.
    pub done: bool,
    /// `list --pending`.
    pub pending: bool,
    /// `list --ongoing`.
    pub ongoing: bool,
    /// `list --not-started`.
    pub not_started: bool,
    /// `list --overdue`.
    pub overdue: bool,
    /// `list --should-start`.
    pub should_start: bool,
    /// `list --scheduled-at`.
    pub scheduled_at: Option<String>,
    /// `list --scheduled-before`.
    pub scheduled_before: Option<String>,
    /// `list --scheduled-after`.
    pub scheduled_after: Option<String>,
    /// `list --deadline-at`.
    pub deadline_at: Option<String>,
    /// `list --deadline-before`.
    pub deadline_before: Option<String>,
    /// `list --deadline-after`.
    pub deadline_after: Option<String>,
}

impl SubArgs {
    /// No value and no flag.
    pub fn empty() -> (r: SubArgs)
        ensures
            r.id is None,
            r.title is None,
            r.creat is None,
            r.start is None,
            r.finish is None,
            r.scheduled is None,
            r.deadline is None,
            !r.done && !r.pending && !r.ongoing && !r.not_started,
            !r.overdue && !r.should_start,
            r.scheduled_at is None,
            r.scheduled_before is None,
            r.scheduled_after is None,
            r.deadline_at is None,
            r.deadline_before is None,
            r.deadline_after is None,
    {
        SubArgs {
            id: None,
            title: None,
            creat: None,
            start: None,
            finish: None,
            scheduled: None,
            deadline: None,
            done: false,
            pending: false,
            ongoing: false,
            not_started: false,
            overdue: false,
            should_start: false,
            scheduled_at: None,
            scheduled_before: None,
            scheduled_after: None,
            deadline_at: None,
            deadline_before: None,
            deadline_after: None,
        }
    }
}

/// The text of an optional value.
pub open spec fn opt_text(s: Option<String>) -> Option<Seq<char>> {
    match s {
        Some(v) => Some(v@),
        None => None,
    }
}

/// The id that the subcommand names.
pub fn get_id(sub_m: &SubArgs) -> (r: Option<u32>)
    ensures
        r == sub_m.id,
{
    sub_m.id
}

/// The id of a new task: one more than that of the last task, or 1.
pub open spec fn next_id_spec(ts: Seq<TodoView>) -> int {
    if ts.len() == 0 {
        1
    } else {
        ts.last().id + 1
    }
}

/// The id of a new task after `tasks`.
pub fn next_id(tasks: &[Todo]) -> (r: u32)
    requires
        next_id_spec(views(tasks@)) <= u32::MAX,
    ensures
        r == next_id_spec(views(tasks@)),
{
    if tasks.len() == 0 {
        1
    } else {
        tasks[tasks.len() - 1].id + 1
    }
}

/// A date and time typed as `%Y-%m-%d_%H:%M:%S`, if `chrono` reads it.
pub open spec fn input_datetime(s: Option<Seq<char>>) -> Option<DateTime> {
    match s {
        Some(v) => match chrono_datetime_parse(v, input_time_fmt()) {
            Ok(d) => Some(d),
            Err(_) => None,
        },
        None => None,
    }
}

/// Reads an optional date and time typed on the command line.
pub fn parse_dt_opt(s: Option<&String>) -> (r: Option<DateTime>)
    ensures
        r == input_datetime(
            match s {
                Some(v) => Some(v@),
                None => None,
            },
        ),
        opt_wf(r),
{
    match s {
        Some(v) => match parse_datetime(v.as_str(), "%Y-%m-%d_%H:%M:%S") {
            Ok(d) => Some(d),
            Err(_) => None,
        },
        None => None,
    }
}

/// The format of days typed on the command line.
pub open spec fn day_fmt() -> Seq<char> {
    "%Y-%m-%d"@
}

/// The word that names the current day, in any ASCII case.
pub open spec fn is_today_word(v: Seq<char>) -> bool {
    eq_ignore_ascii_case(v, "today"@)
}

/// `r` is what a day typed on the command line reads as: the current day
/// (some existing day) for `today`, else the day `chrono` reads, if any.
pub open spec fn day_reading(r: Option<Date>, s: Option<Seq<char>>) -> bool {
    match s {
        None => r is None,
        Some(v) => if is_today_word(v) {
            r matches Some(d) && d.wf()
        } else {
            r == chrono_date_parse(v, day_fmt())
        },
    }
}

/// Reads an optional day typed on the command line; `today` in any ASCII case
/// names the current local day.
pub fn parse_day_opt(s: Option<&String>) -> (r: Option<Date>)
    ensures
        day_reading(
            r,
            match s {
                Some(v) => Some(v@),
                None => None,
            },
        ),
{
    match s {
        Some(v) => {
            let cs = chars_of(v.as_str());
            let today = chars_of("today");
            if chars_eq_ignore_ascii_case(&cs, &today) {
                let t = now();
                Some(t.date)
            } else {
                parse_date(v.as_str(), "%Y-%m-%d")
            }
        },
        None => None,
    }
}

} // verus!
