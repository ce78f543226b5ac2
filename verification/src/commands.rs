//! The subcommands: what each one changes in the task list, what it reports,
//! and whether the list is then written back.
use crate::calendar::{chrono_date_parse, now, parse_date};
use crate::model::{Date, DateTime, State, Todo, TodoView};
use crate::store::views;
use crate::utils::{
    day_fmt, day_reading, get_id, input_datetime, next_id, next_id_spec, opt_text, parse_day_opt,
    parse_dt_opt, SubArgs,
};
use vstd::prelude::*;

verus! {

// ---------------------------------------------------------------------------
// What a subcommand reports
// ---------------------------------------------------------------------------

/// A message that a subcommand prints.
#[derive(Clone, Copy, Debug, PartialEq, Eq, Structural)]
pub enum Notice {
    /// The list holds no task.
    NoTasks,
    /// No task has the id given.
    NoSuchTask,
}

impl Notice {
    pub open spec fn text(self) -> Seq<char> {
        match self {
            Notice::NoTasks => "No tasks yet"@,
            Notice::NoSuchTask => "There is no task with that number."@,
        }
    }

    /// The message to print.
    pub fn message(&self) -> (r: &'static str)
        ensures
            r@ == self.text(),
    {
        match self {
            Notice::NoTasks => "No tasks yet",
            Notice::NoSuchTask => "There is no task with that number.",
        }
    }
}

/// What a subcommand that changes the list reports, and whether the list is
/// then written back.
#[derive(Clone, Copy, Debug, PartialEq, Eq, Structural)]
pub struct Outcome {
    pub notice: Option<Notice>,
    pub save: bool,
}

// ---------------------------------------------------------------------------
// Finding a task
// ---------------------------------------------------------------------------

/// The index of the first task from `i` on with id `id`, or -1.
pub open spec fn index_from(ts: Seq<TodoView>, id: u32, i: int) -> int
    decreases ts.len() - i,
{
    if i < 0 || i >= ts.len() {
        -1
    } else if ts[i].id == id {
        i
    } else {
        index_from(ts, id, i + 1)
    }
}

/// The index of the first task with id `id`, or -1.
pub open spec fn first_index(ts: Seq<TodoView>, id: u32) -> int {
    index_from(ts, id, 0)
}

pub proof fn lemma_index_from(ts: Seq<TodoView>, id: u32, i: int)
    requires
        0 <= i,
    ensures
        index_from(ts, id, i) == -1 ==> forall|j: int| i <= j < ts.len() ==> ts[j].id != id,
        index_from(ts, id, i) != -1 ==> {
            &&& i <= index_from(ts, id, i) < ts.len()
            &&& ts[index_from(ts, id, i)].id == id
            &&& forall|j: int| i <= j < index_from(ts, id, i) ==> ts[j].id != id
        },
    decreases ts.len() - i,
{
    if i < ts.len() && ts[i].id != id {
        lemma_index_from(ts, id, i + 1);
    }
}

/// The index of the first task with id `id`, as `iter().find` finds it.
pub fn find_task(tasks: &[Todo], id: u32) -> (r: Option<usize>)
    ensures
        match r {
            Some(i) => i as int == first_index(views(tasks@), id),
            None => first_index(views(tasks@), id) == -1,
        },
        r matches Some(i) ==> i < tasks@.len(),
{
    let ghost ts = views(tasks@);
    let mut i: usize = 0;
    while i < tasks.len()
        invariant
            i <= tasks.len(),
            ts == views(tasks@),
            first_index(ts, id) == index_from(ts, id, i as int),
        decreases tasks.len() - i,
    {
        assert(ts[i as int] == tasks[i as int]@);
        if tasks[i].id == id {
            proof {
                lemma_index_from(ts, id, 0);
            }
            return Some(i);
        }
        i += 1;
    }
    None
}

/// The ids of `ts` grow strictly from first to last, so no two tasks share one.
pub open spec fn ids_increasing(ts: Seq<TodoView>) -> bool {
    forall|i: int, j: int| 0 <= i < j < ts.len() ==> ts[i].id < ts[j].id
}

/// `ts` with `t` in place of the task at `k`, unless `k` is -1.
pub open spec fn replace_at(ts: Seq<TodoView>, k: int, t: TodoView) -> Seq<TodoView> {
    if k < 0 {
        ts
    } else {
        ts.update(k, t)
    }
}

// ---------------------------------------------------------------------------
// Changes to the list
// ---------------------------------------------------------------------------

/// A task done at `at`: its finish time is `at`, and so is its start time if
/// it had none.
pub open spec fn done_view(t: TodoView, at: DateTime) -> TodoView {
    TodoView {
        state: State::Done,
        finish_time: Some(at),
        start_time: if t.start_time is None {
            Some(at)
        } else {
            t.start_time
        },
        ..t
    }
}

/// A task started at `at`.
pub open spec fn started_view(t: TodoView, at: DateTime) -> TodoView {
    TodoView { state: State::Ongoing, start_time: Some(at), ..t }
}

/// A task put on hold.
pub open spec fn pending_view(t: TodoView) -> TodoView {
    TodoView { state: State::Pending, ..t }
}

/// The new values that `edit` gives; a field left `None` is kept.
#[derive(Debug)]
pub struct Edits {
    pub title: Option<String>,
    pub creat_time: Option<DateTime>,
    pub start_time: Option<DateTime>,
    pub finish_time: Option<DateTime>,
    pub scheduled_time: Option<DateTime>,
    pub deadline_time: Option<DateTime>,
}

/// `new` where it is given, else `old`.
pub open spec fn or_keep<A>(new: Option<A>, old: Option<A>) -> Option<A> {
    if new is Some {
        new
    } else {
        old
    }
}

/// A task with the edits applied.
pub open spec fn edited_view(t: TodoView, e: Edits) -> TodoView {
    TodoView {
        title: match e.title {
            Some(s) => s@,
            None => t.title,
        },
        creat_time: or_keep(e.creat_time, t.creat_time),
        start_time: or_keep(e.start_time, t.start_time),
        finish_time: or_keep(e.finish_time, t.finish_time),
        scheduled_time: or_keep(e.scheduled_time, t.scheduled_time),
        deadline_time: or_keep(e.deadline_time, t.deadline_time),
        ..t
    }
}

/// `after` is `before` with each field that `e` gives set to the value given
/// and every other field kept.
pub open spec fn edits_applied(before: TodoView, after: TodoView, e: Edits) -> bool {
    &&& after.id == before.id
    &&& after.state == before.state
    &&& after.title == match e.title {
        Some(s) => s@,
        None => before.title,
    }
    &&& (e.creat_time is Some ==> after.creat_time == e.creat_time)
    &&& (e.creat_time is None ==> after.creat_time == before.creat_time)
    &&& (e.start_time is Some ==> after.start_time == e.start_time)
    &&& (e.start_time is None ==> after.start_time == before.start_time)
    &&& (e.finish_time is Some ==> after.finish_time == e.finish_time)
    &&& (e.finish_time is None ==> after.finish_time == before.finish_time)
    &&& (e.scheduled_time is Some ==> after.scheduled_time == e.scheduled_time)
    &&& (e.scheduled_time is None ==> after.scheduled_time == before.scheduled_time)
    &&& (e.deadline_time is Some ==> after.deadline_time == e.deadline_time)
    &&& (e.deadline_time is None ==> after.deadline_time == before.deadline_time)
}

/// The tasks of `ts` whose id is not `id`, in their order.
pub open spec fn without_id(ts: Seq<TodoView>, id: u32) -> Seq<TodoView>
    decreases ts.len(),
{
    if ts.len() == 0 {
        ts
    } else if ts.last().id == id {
        without_id(ts.drop_last(), id)
    } else {
        without_id(ts.drop_last(), id).push(ts.last())
    }
}

/// Appends a new task, not started, with the next id.
pub fn add_task(
    tasks: &mut Vec<Todo>,
    title: String,
    scheduled_time: Option<DateTime>,
    deadline_time: Option<DateTime>,
    created: DateTime,
)
    requires
        next_id_spec(views(old(tasks)@)) <= u32::MAX,
    ensures
        ids_increasing(views(old(tasks)@)) ==> ids_increasing(views(final(tasks)@)),
        views(final(tasks)@) == views(old(tasks)@).push(
            TodoView {
                id: next_id_spec(views(old(tasks)@)) as u32,
                title: title@,
                creat_time: Some(created),
                start_time: None,
                finish_time: None,
                scheduled_time,
                deadline_time,
                state: State::Notstarted,
            },
        ),
{
    let id = next_id(tasks.as_slice());
    let t = Todo::new(id, title, Some(created), scheduled_time, deadline_time);
    tasks.push(t);
    assert(views(tasks@) =~= views(old(tasks)@).push(t@));
    proof {
        if ids_increasing(views(old(tasks)@)) {
            crate::laws::law_add_keeps_ids_increasing(views(old(tasks)@), t@);
        }
    }
}

/// Marks the first task with id `id` done at `at`; false if there is none.
pub fn mark_done(tasks: &mut Vec<Todo>, id: u32, at: DateTime) -> (found: bool)
    ensures
        ids_increasing(views(old(tasks)@)) ==> ids_increasing(views(final(tasks)@)),
        found == (first_index(views(old(tasks)@), id) != -1),
        views(final(tasks)@) == replace_at(
            views(old(tasks)@),
            first_index(views(old(tasks)@), id),
            done_view(views(old(tasks)@)[first_index(views(old(tasks)@), id)], at),
        ),
        found ==> ({
            let k = first_index(views(old(tasks)@), id);
            &&& views(final(tasks)@)[k].state == State::Done
            &&& views(final(tasks)@)[k].finish_time == Some(at)
        }),
{
    proof {
        crate::laws::law_done_finishes(views(old(tasks)@), id, at);
    }
    match find_task(tasks.as_slice(), id) {
        Some(i) => {
            tasks[i].state = State::Done;
            tasks[i].finish_time = Some(at);
            if tasks[i].start_time.is_none() {
                tasks[i].start_time = Some(at);
            }
            assert(views(tasks@) =~= views(old(tasks)@).update(
                i as int,
                done_view(views(old(tasks)@)[i as int], at),
            ));
            true
        },
        None => false,
    }
}

/// Marks the first task with id `id` started at `at`; false if there is none.
pub fn mark_started(tasks: &mut Vec<Todo>, id: u32, at: DateTime) -> (found: bool)
    ensures
        ids_increasing(views(old(tasks)@)) ==> ids_increasing(views(final(tasks)@)),
        found == (first_index(views(old(tasks)@), id) != -1),
        views(final(tasks)@) == replace_at(
            views(old(tasks)@),
            first_index(views(old(tasks)@), id),
            started_view(views(old(tasks)@)[first_index(views(old(tasks)@), id)], at),
        ),
        found ==> ({
            let k = first_index(views(old(tasks)@), id);
            &&& views(final(tasks)@)[k].state == State::Ongoing
            &&& views(final(tasks)@)[k].start_time == Some(at)
        }),
{
    proof {
        crate::laws::law_start_starts(views(old(tasks)@), id, at);
    }
    match find_task(tasks.as_slice(), id) {
        Some(i) => {
            tasks[i].state = State::Ongoing;
            tasks[i].start_time = Some(at);
            assert(views(tasks@) =~= views(old(tasks)@).update(
                i as int,
                started_view(views(old(tasks)@)[i as int], at),
            ));
            true
        },
        None => false,
    }
}

/// Puts the first task with id `id` on hold; false if there is none.
pub fn mark_pending(tasks: &mut Vec<Todo>, id: u32) -> (found: bool)
    ensures
        ids_increasing(views(old(tasks)@)) ==> ids_increasing(views(final(tasks)@)),
        found == (first_index(views(old(tasks)@), id) != -1),
        views(final(tasks)@) == replace_at(
            views(old(tasks)@),
            first_index(views(old(tasks)@), id),
            pending_view(views(old(tasks)@)[first_index(views(old(tasks)@), id)]),
        ),
        found ==> views(final(tasks)@)[first_index(views(old(tasks)@), id)].state
            == State::Pending,
{
    proof {
        crate::laws::law_pending_puts_on_hold(views(old(tasks)@), id);
    }
    match find_task(tasks.as_slice(), id) {
        Some(i) => {
            tasks[i].state = State::Pending;
            assert(views(tasks@) =~= views(old(tasks)@).update(
                i as int,
                pending_view(views(old(tasks)@)[i as int]),
            ));
            true
        },
        None => false,
    }
}

/// Applies `edits` to the first task with id `id`; false if there is none.
pub fn edit_task(tasks: &mut Vec<Todo>, id: u32, edits: Edits) -> (found: bool)
    ensures
        ids_increasing(views(old(tasks)@)) ==> ids_increasing(views(final(tasks)@)),
        found == (first_index(views(old(tasks)@), id) != -1),
        views(final(tasks)@) == replace_at(
            views(old(tasks)@),
            first_index(views(old(tasks)@), id),
            edited_view(views(old(tasks)@)[first_index(views(old(tasks)@), id)], edits),
        ),
        found ==> edits_applied(
            views(old(tasks)@)[first_index(views(old(tasks)@), id)],
            views(final(tasks)@)[first_index(views(old(tasks)@), id)],
            edits,
        ),
{
    proof {
        lemma_index_from(views(old(tasks)@), id, 0);
        crate::laws::law_edit_sets_given_fields(
            views(old(tasks)@)[first_index(views(old(tasks)@), id)],
            edits,
        );
    }
    let ghost e = edits;
    match find_task(tasks.as_slice(), id) {
        Some(i) => {
            let Edits {
                title,
                creat_time,
                start_time,
                finish_time,
                scheduled_time,
                deadline_time,
            } = edits;
            if let Some(t) = title {
                tasks[i].title = t;
            }
            if let Some(t) = creat_time {
                tasks[i].creat_time = Some(t);
            }
            if let Some(t) = start_time {
                tasks[i].start_time = Some(t);
            }
            if let Some(t) = finish_time {
                tasks[i].finish_time = Some(t);
            }
            if let Some(t) = scheduled_time {
                tasks[i].scheduled_time = Some(t);
            }
            if let Some(t) = deadline_time {
                tasks[i].deadline_time = Some(t);
            }
            assert(views(tasks@) =~= views(old(tasks)@).update(
                i as int,
                edited_view(views(old(tasks)@)[i as int], e),
            ));
            true
        },
        None => false,
    }
}

/// Removes every task with id `id`, keeping the order of the others.
pub fn delete_tasks(tasks: &mut Vec<Todo>, id: u32)
    ensures
        ids_increasing(views(old(tasks)@)) ==> ids_increasing(views(final(tasks)@)),
        views(final(tasks)@) == without_id(views(old(tasks)@), id),
{
    let ghost ts = views(old(tasks)@);
    let mut i: usize = 0;
    let ghost mut k: int = 0;
    assert(ts.take(0) =~= Seq::<TodoView>::empty());
    assert(ts.skip(0) =~= ts);
    assert(views(tasks@).skip(0) =~= views(tasks@));
    while i < tasks.len()
        invariant
            ts == views(old(tasks)@),
            0 <= k <= ts.len(),
            i <= tasks.len(),
            views(tasks@).take(i as int) == without_id(ts.take(k), id),
            views(tasks@).skip(i as int) == ts.skip(k),
        decreases tasks.len() - i,
    {
        let ghost before = views(tasks@);
        assert(ts.skip(k).len() == ts.len() - k);
        assert(before.skip(i as int).len() == before.len() - i);
        assert(k < ts.len());
        assert(before[i as int] == ts[k]) by {
            assert(before.skip(i as int)[0] == ts.skip(k)[0]);
        }
        assert(ts.take(k + 1).drop_last() =~= ts.take(k));
        assert(ts.take(k + 1).last() == ts[k]);
        if tasks[i].id == id {
            tasks.remove(i);
            assert(views(tasks@).take(i as int) =~= before.take(i as int));
            assert(views(tasks@).skip(i as int) =~= ts.skip(k + 1)) by {
                assert(ts.skip(k + 1) =~= ts.skip(k).drop_first());
            }
        } else {
            i += 1;
            assert(views(tasks@).take(i as int) =~= before.take(i - 1).push(before[i - 1]));
            assert(views(tasks@).skip(i as int) =~= ts.skip(k + 1)) by {
                assert(ts.skip(k + 1) =~= ts.skip(k).drop_first());
            }
        }
        proof {
            k = k + 1;
        }
    }
    assert(views(tasks@).take(i as int) =~= views(tasks@));
    assert(k == ts.len()) by {
        assert(views(tasks@).skip(i as int).len() == 0);
    }
    assert(ts.take(k) =~= ts);
    proof {
        crate::laws::law_delete_removes_id(ts, id);
    }
}

// ---------------------------------------------------------------------------
// Listing
// ---------------------------------------------------------------------------

/// Which tasks `list` shows.
#[derive(Debug)]
pub struct ListFilter {
    /// Shown states; none means every state.
    pub states: Vec<State>,
    /// Only tasks whose deadline has passed.
    pub overdue: bool,
    /// Only tasks not started whose scheduled time has passed.
    pub should_start: bool,
    pub scheduled_at: Option<Date>,
    pub scheduled_before: Option<Date>,
    pub scheduled_after: Option<Date>,
    pub deadline_at: Option<Date>,
    pub deadline_before: Option<Date>,
    pub deadline_after: Option<Date>,
}

/// The day of an optional time.
pub open spec fn day_of(t: Option<DateTime>) -> Option<Date> {
    match t {
        Some(d) => Some(d.date),
        None => None,
    }
}

/// The day `day` is `at` if given, on or before `before` if given, and on or
/// after `after` if given.
pub open spec fn day_ok(
    day: Option<Date>,
    at: Option<Date>,
    before: Option<Date>,
    after: Option<Date>,
) -> bool {
    &&& (at matches Some(d) ==> day == Some(d))
    &&& (before matches Some(d) ==> (day matches Some(s) && s.le(d)))
    &&& (after matches Some(d) ==> (day matches Some(s) && d.le(s)))
}

/// `list` shows `t` under the filter `f` at the time `now`.
pub open spec fn shown(f: ListFilter, t: TodoView, now: DateTime) -> bool {
    &&& (f.states@.len() == 0 || f.states@.contains(t.state))
    &&& (f.overdue ==> (t.deadline_time matches Some(d) && d.lt(now)))
    &&& (f.should_start ==> (t.scheduled_time matches Some(s) && s.lt(now) && t.state
        == State::Notstarted))
    &&& day_ok(day_of(t.scheduled_time), f.scheduled_at, f.scheduled_before, f.scheduled_after)
    &&& day_ok(day_of(t.deadline_time), f.deadline_at, f.deadline_before, f.deadline_after)
}

/// The indices of the first `k` tasks that `list` shows, in order.
pub open spec fn shown_indices(f: ListFilter, ts: Seq<TodoView>, now: DateTime, k: int) -> Seq<
    usize,
>
    decreases k,
{
    if k <= 0 {
        Seq::empty()
    } else if shown(f, ts[k - 1], now) {
        shown_indices(f, ts, now, k - 1).push((k - 1) as usize)
    } else {
        shown_indices(f, ts, now, k - 1)
    }
}

fn opt_day_eq(a: Option<Date>, b: &Date) -> (r: bool)
    ensures
        r == (a == Some(*b)),
{
    match a {
        Some(x) => x.same_day(b),
        None => false,
    }
}

fn day_ok_exec(
    day: Option<Date>,
    at: Option<Date>,
    before: Option<Date>,
    after: Option<Date>,
) -> (r: bool)
    ensures
        r == day_ok(day, at, before, after),
{
    let at_ok = match at {
        Some(d) => opt_day_eq(day, &d),
        None => true,
    };
    let before_ok = match before {
        Some(d) => match day {
            Some(s) => s.on_or_before(&d),
            None => false,
        },
        None => true,
    };
    let after_ok = match after {
        Some(d) => match day {
            Some(s) => d.on_or_before(&s),
            None => false,
        },
        None => true,
    };
    at_ok && before_ok && after_ok
}

fn contains_state(states: &Vec<State>, s: State) -> (r: bool)
    ensures
        r == states@.contains(s),
{
    let mut i: usize = 0;
    while i < states.len()
        invariant
            i <= states.len(),
            forall|j: int| 0 <= j < i ==> states@[j] != s,
        decreases states.len() - i,
    {
        if states[i] == s {
            return true;
        }
        i += 1;
    }
    false
}

/// Whether `list` shows `task` under `f` at the time `now`.
pub fn is_shown(f: &ListFilter, task: &Todo, now: &DateTime) -> (r: bool)
    ensures
        r == shown(*f, task@, *now),
        r && f.should_start ==> task.state == State::Notstarted && (task.scheduled_time matches Some(
            s,
        ) && s.lt(*now)),
        r && f.overdue ==> (task.deadline_time matches Some(d) && d.lt(*now)),
        r && f.states@.len() > 0 ==> f.states@.contains(task.state),
{
    let state_ok = f.states.len() == 0 || contains_state(&f.states, task.state);
    let overdue_ok = if f.overdue {
        match task.deadline_time {
            Some(d) => d.is_before(now),
            None => false,
        }
    } else {
        true
    };
    let should_start_ok = if f.should_start {
        match task.scheduled_time {
            Some(s) => s.is_before(now) && task.state == State::Notstarted,
            None => false,
        }
    } else {
        true
    };
    let sched_day = match task.scheduled_time {
        Some(d) => Some(d.date),
        None => None,
    };
    let deadl_day = match task.deadline_time {
        Some(d) => Some(d.date),
        None => None,
    };
    let sched_ok = day_ok_exec(sched_day, f.scheduled_at, f.scheduled_before, f.scheduled_after);
    let deadl_ok = day_ok_exec(deadl_day, f.deadline_at, f.deadline_before, f.deadline_after);
    let r = state_ok && overdue_ok && should_start_ok && sched_ok && deadl_ok;
    proof {
        if r {
            crate::laws::law_flags_restrict_the_listing(*f, task@, *now);
        }
    }
    r
}

/// The indices of the tasks that `list` shows under `f` at the time `now`.
pub fn select_tasks(f: &ListFilter, tasks: &[Todo], now: &DateTime) -> (r: Vec<usize>)
    ensures
        r@ == shown_indices(*f, views(tasks@), *now, tasks@.len() as int),
        forall|j: int|
            0 <= j < r@.len() ==> #[trigger] r@[j] < tasks@.len() && shown(
                *f,
                tasks@[r@[j] as int]@,
                *now,
            ),
        forall|j: int|
            0 <= j < r@.len() && f.should_start ==> (#[trigger] tasks@[r@[j] as int]).state
                == State::Notstarted,
{
    let ghost ts = views(tasks@);
    let mut r: Vec<usize> = Vec::new();
    let mut i: usize = 0;
    while i < tasks.len()
        invariant
            i <= tasks.len(),
            ts == views(tasks@),
            r@ == shown_indices(*f, ts, *now, i as int),
        decreases tasks.len() - i,
    {
        assert(ts[i as int] == tasks[i as int]@);
        if is_shown(f, &tasks[i], now) {
            r.push(i);
        }
        i += 1;
    }
    proof {
        crate::laws::law_listing_holds_the_shown_tasks(*f, ts, *now, tasks@.len() as int);
        assert forall|j: int| 0 <= j < r@.len() && f.should_start implies (#[trigger] tasks@[r@[j]
            as int]).state == State::Notstarted by {
            assert(ts[r@[j] as int] == tasks@[r@[j] as int]@);
            crate::laws::law_flags_restrict_the_listing(*f, ts[r@[j] as int], *now);
        }
        assert forall|j: int| 0 <= j < r@.len() implies #[trigger] r@[j] < tasks@.len() && shown(
            *f,
            tasks@[r@[j] as int]@,
            *now,
        ) by {
            assert(ts[r@[j] as int] == tasks@[r@[j] as int]@);
        }
    }
    r
}

/// The states that the flags of `list` ask for, in the order of the flags.
pub open spec fn flag_states(sub_m: SubArgs) -> Seq<State> {
    (if sub_m.done {
        seq![State::Done]
    } else {
        Seq::empty()
    }) + (if sub_m.pending {
        seq![State::Pending]
    } else {
        Seq::empty()
    }) + (if sub_m.ongoing {
        seq![State::Ongoing]
    } else {
        Seq::empty()
    }) + (if sub_m.not_started {
        seq![State::Notstarted]
    } else {
        Seq::empty()
    })
}

/// `f` is the filter that the values of `list` give: the day of
/// `--deadline-at` is read as typed (the word `today` is not read there),
/// the other days as `parse_day_opt` reads them.
pub open spec fn filter_of_args(f: ListFilter, sub_m: SubArgs) -> bool {
    &&& f.states@ == flag_states(sub_m)
    &&& f.overdue == sub_m.overdue
    &&& f.should_start == sub_m.should_start
    &&& day_reading(f.scheduled_at, opt_text(sub_m.scheduled_at))
    &&& day_reading(f.scheduled_before, opt_text(sub_m.scheduled_before))
    &&& day_reading(f.scheduled_after, opt_text(sub_m.scheduled_after))
    &&& f.deadline_at == match opt_text(sub_m.deadline_at) {
        Some(v) => chrono_date_parse(v, day_fmt()),
        None => None,
    }
    &&& day_reading(f.deadline_before, opt_text(sub_m.deadline_before))
    &&& day_reading(f.deadline_after, opt_text(sub_m.deadline_after))
}

/// Builds the filter of `list` from its values.
pub fn list_filter(sub_m: &SubArgs) -> (f: ListFilter)
    ensures
        filter_of_args(f, *sub_m),
{
    let mut states: Vec<State> = Vec::new();
    if sub_m.done {
        states.push(State::Done);
    }
    let ghost s1 = states@;
    if sub_m.pending {
        states.push(State::Pending);
    }
    let ghost s2 = states@;
    if sub_m.ongoing {
        states.push(State::Ongoing);
    }
    let ghost s3 = states@;
    if sub_m.not_started {
        states.push(State::Notstarted);
    }
    assert(states@ =~= flag_states(*sub_m));
    let scheduled_at = parse_day_opt(sub_m.scheduled_at.as_ref());
    let scheduled_before = parse_day_opt(sub_m.scheduled_before.as_ref());
    let scheduled_after = parse_day_opt(sub_m.scheduled_after.as_ref());
    let deadline_at = match &sub_m.deadline_at {
        Some(v) => parse_date(v.as_str(), "%Y-%m-%d"),
        None => None,
    };
    let deadline_before = parse_day_opt(sub_m.deadline_before.as_ref());
    let deadline_after = parse_day_opt(sub_m.deadline_after.as_ref());
    ListFilter {
        states,
        overdue: sub_m.overdue,
        should_start: sub_m.should_start,
        scheduled_at,
        scheduled_before,
        scheduled_after,
        deadline_at,
        deadline_before,
        deadline_after,
    }
}

/// What `list` shows.
#[derive(Debug)]
pub enum ListOutcome {
    /// The list holds no task.
    NoTasks,
    /// The indices of the tasks shown, in the order of the list.
    Shown(Vec<usize>),
}

pub proof fn lemma_shown_indices_bounds(f: ListFilter, ts: Seq<TodoView>, now: DateTime, k: int)
    ensures
        forall|j: int|
            0 <= j < shown_indices(f, ts, now, k).len() ==> 0 <= #[trigger] shown_indices(
                f,
                ts,
                now,
                k,
            )[j] < k,
    decreases k,
{
    if k > 0 {
        lemma_shown_indices_bounds(f, ts, now, k - 1);
        let prev = shown_indices(f, ts, now, k - 1);
        let cur = shown_indices(f, ts, now, k);
        assert forall|j: int| 0 <= j < cur.len() implies 0 <= #[trigger] cur[j] < k by {
            if j < prev.len() {
                assert(cur[j] == prev[j]);
            }
        }
    }
}

/// `list`: the tasks that its values select, reading the clock once for the
/// current time.
pub fn cmd_list(sub_m: &SubArgs, tasks: &[Todo]) -> (r: ListOutcome)
    ensures
        tasks@.len() == 0 <==> r is NoTasks,
        r matches ListOutcome::Shown(idx) ==> {
            &&& forall|j: int| 0 <= j < idx@.len() ==> #[trigger] idx@[j] < tasks@.len()
            &&& sub_m.should_start ==> forall|j: int|
                0 <= j < idx@.len() ==> (#[trigger] tasks@[idx@[j] as int]).state
                    == State::Notstarted
            &&& exists|f: ListFilter, at: DateTime|
                {
                    &&& filter_of_args(f, *sub_m)
                    &&& at.wf()
                    &&& idx@ == shown_indices(f, views(tasks@), at, tasks@.len() as int)
                }
        },
{
    if tasks.len() == 0 {
        return ListOutcome::NoTasks;
    }
    let f = list_filter(sub_m);
    let at = now();
    let idx = select_tasks(&f, tasks, &at);
    proof {
        lemma_shown_indices_bounds(f, views(tasks@), at, tasks@.len() as int);
    }
    ListOutcome::Shown(idx)
}

// ---------------------------------------------------------------------------
// The subcommands that change the list
// ---------------------------------------------------------------------------

/// `add`: appends a task with the title, the times read from `--scheduled`
/// and `--deadline`, and the current time as its creation time.
pub fn cmd_add(sub_m: &SubArgs, tasks: &mut Vec<Todo>) -> (r: Outcome)
    requires
        sub_m.title is Some,
        next_id_spec(views(old(tasks)@)) <= u32::MAX,
    ensures
        ids_increasing(views(old(tasks)@)) ==> ids_increasing(views(final(tasks)@)),
        ids_increasing(views(old(tasks)@)) ==> forall|i: int|
            0 <= i < old(tasks)@.len() ==> #[trigger] views(old(tasks)@)[i].id != views(
                final(tasks)@,
            ).last().id,
        r == (Outcome { notice: None, save: true }),
        views(final(tasks)@).len() == views(old(tasks)@).len() + 1,
        views(final(tasks)@).drop_last() == views(old(tasks)@),
        ({
            let t = views(final(tasks)@).last();
            &&& t.id == next_id_spec(views(old(tasks)@))
            &&& t.title == sub_m.title->0@
            &&& t.creat_time matches Some(c) && c.wf()
            &&& t.start_time is None
            &&& t.finish_time is None
            &&& t.scheduled_time == input_datetime(opt_text(sub_m.scheduled))
            &&& t.deadline_time == input_datetime(opt_text(sub_m.deadline))
            &&& t.state == State::Notstarted
        }),
{
    let title = match &sub_m.title {
        Some(t) => t.clone(),
        None => String::new(),
    };
    let scheduled_time = parse_dt_opt(sub_m.scheduled.as_ref());
    let deadline_time = parse_dt_opt(sub_m.deadline.as_ref());
    let created = now();
    add_task(tasks, title, scheduled_time, deadline_time, created);
    assert(views(tasks@).drop_last() =~= views(old(tasks)@));
    Outcome { notice: None, save: true }
}

/// The edits that the values of `edit` give.
pub open spec fn edits_of_args(e: Edits, sub_m: SubArgs) -> bool {
    &&& opt_text(e.title) == opt_text(sub_m.title)
    &&& e.creat_time == input_datetime(opt_text(sub_m.creat))
    &&& e.start_time == input_datetime(opt_text(sub_m.start))
    &&& e.finish_time == input_datetime(opt_text(sub_m.finish))
    &&& e.scheduled_time == input_datetime(opt_text(sub_m.scheduled))
    &&& e.deadline_time == input_datetime(opt_text(sub_m.deadline))
}

/// `edit`: applies the given title and times to the first task with the id
/// (0 if none is given); the list is written back only if there is one.
pub fn cmd_edit(sub_m: &SubArgs, tasks: &mut Vec<Todo>) -> (r: Outcome)
    ensures
        ids_increasing(views(old(tasks)@)) ==> ids_increasing(views(final(tasks)@)),
        old(tasks)@.len() == 0 ==> r == (Outcome { notice: Some(Notice::NoTasks), save: false })
            && final(tasks)@ == old(tasks)@,
        old(tasks)@.len() > 0 ==> {
            let id = match sub_m.id {
                Some(n) => n,
                None => 0,
            };
            let k = first_index(views(old(tasks)@), id);
            &&& r == (if k == -1 {
                Outcome { notice: Some(Notice::NoSuchTask), save: false }
            } else {
                Outcome { notice: None, save: true }
            })
            &&& exists|e: Edits|
                {
                    &&& edits_of_args(e, *sub_m)
                    &&& views(final(tasks)@) == replace_at(
                        views(old(tasks)@),
                        k,
                        edited_view(views(old(tasks)@)[k], e),
                    )
                    &&& k != -1 ==> edits_applied(
                        views(old(tasks)@)[k],
                        views(final(tasks)@)[k],
                        e,
                    )
                }
        },
{
    if tasks.len() == 0 {
        return Outcome { notice: Some(Notice::NoTasks), save: false };
    }
    let id = match get_id(sub_m) {
        Some(n) => n,
        None => 0,
    };
    let title = match &sub_m.title {
        Some(t) => Some(t.clone()),
        None => None,
    };
    let edits = Edits {
        title,
        creat_time: parse_dt_opt(sub_m.creat.as_ref()),
        start_time: parse_dt_opt(sub_m.start.as_ref()),
        finish_time: parse_dt_opt(sub_m.finish.as_ref()),
        scheduled_time: parse_dt_opt(sub_m.scheduled.as_ref()),
        deadline_time: parse_dt_opt(sub_m.deadline.as_ref()),
    };
    let ghost e = edits;
    assert(edits_of_args(e, *sub_m));
    if edit_task(tasks, id, edits) {
        Outcome { notice: None, save: true }
    } else {
        Outcome { notice: Some(Notice::NoSuchTask), save: false }
    }
}

/// `done`: marks the first task with the id done at the current time; the
/// list is written back whether or not there is one.
pub fn cmd_done(sub_m: &SubArgs, tasks: &mut Vec<Todo>) -> (r: Outcome)
    requires
        old(tasks)@.len() > 0 ==> sub_m.id is Some,
    ensures
        ids_increasing(views(old(tasks)@)) ==> ids_increasing(views(final(tasks)@)),
        old(tasks)@.len() == 0 ==> r == (Outcome { notice: Some(Notice::NoTasks), save: false })
            && final(tasks)@ == old(tasks)@,
        old(tasks)@.len() > 0 ==> {
            let k = first_index(views(old(tasks)@), sub_m.id->0);
            &&& r == (if k == -1 {
                Outcome { notice: Some(Notice::NoSuchTask), save: true }
            } else {
                Outcome { notice: None, save: true }
            })
            &&& exists|at: DateTime|
                {
                    &&& at.wf()
                    &&& views(final(tasks)@) == replace_at(
                        views(old(tasks)@),
                        k,
                        done_view(views(old(tasks)@)[k], at),
                    )
                    &&& k != -1 ==> views(final(tasks)@)[k].state == State::Done
                        && views(final(tasks)@)[k].finish_time == Some(at)
                }
        },
{
    if tasks.len() == 0 {
        return Outcome { notice: Some(Notice::NoTasks), save: false };
    }
    let id = match get_id(sub_m) {
        Some(n) => n,
        None => 0,
    };
    let at = now();
    if mark_done(tasks, id, at) {
        Outcome { notice: None, save: true }
    } else {
        Outcome { notice: Some(Notice::NoSuchTask), save: true }
    }
}

/// `delete`: removes every task with the id.
pub fn cmd_delete(sub_m: &SubArgs, tasks: &mut Vec<Todo>) -> (r: Outcome)
    requires
        old(tasks)@.len() > 0 ==> sub_m.id is Some,
    ensures
        ids_increasing(views(old(tasks)@)) ==> ids_increasing(views(final(tasks)@)),
        old(tasks)@.len() == 0 ==> r == (Outcome { notice: Some(Notice::NoTasks), save: false })
            && final(tasks)@ == old(tasks)@,
        old(tasks)@.len() > 0 ==> r == (Outcome { notice: None, save: true }) && views(
            final(tasks)@,
        ) == without_id(views(old(tasks)@), sub_m.id->0),
{
    if tasks.len() == 0 {
        return Outcome { notice: Some(Notice::NoTasks), save: false };
    }
    let id = match get_id(sub_m) {
        Some(n) => n,
        None => 0,
    };
    delete_tasks(tasks, id);
    Outcome { notice: None, save: true }
}

/// `start`: marks the first task with the id started at the current time;
/// the list is written back only if there is one.
pub fn cmd_start(sub_m: &SubArgs, tasks: &mut Vec<Todo>) -> (r: Outcome)
    requires
        old(tasks)@.len() > 0 ==> sub_m.id is Some,
    ensures
        ids_increasing(views(old(tasks)@)) ==> ids_increasing(views(final(tasks)@)),
        old(tasks)@.len() == 0 ==> r == (Outcome { notice: Some(Notice::NoTasks), save: false })
            && final(tasks)@ == old(tasks)@,
        old(tasks)@.len() > 0 ==> {
            let k = first_index(views(old(tasks)@), sub_m.id->0);
            &&& r == (if k == -1 {
                Outcome { notice: Some(Notice::NoSuchTask), save: false }
            } else {
                Outcome { notice: None, save: true }
            })
            &&& exists|at: DateTime|
                {
                    &&& at.wf()
                    &&& views(final(tasks)@) == replace_at(
                        views(old(tasks)@),
                        k,
                        started_view(views(old(tasks)@)[k], at),
                    )
                    &&& k != -1 ==> views(final(tasks)@)[k].state == State::Ongoing
                        && views(final(tasks)@)[k].start_time == Some(at)
                }
        },
{
    if tasks.len() == 0 {
        return Outcome { notice: Some(Notice::NoTasks), save: false };
    }
    let id = match get_id(sub_m) {
        Some(n) => n,
        None => 0,
    };
    let at = now();
    if mark_started(tasks, id, at) {
        Outcome { notice: None, save: true }
    } else {
        Outcome { notice: Some(Notice::NoSuchTask), save: false }
    }
}

/// `pending`: puts the first task with the id on hold; the list is written
/// back only if there is one.
pub fn cmd_pending(sub_m: &SubArgs, tasks: &mut Vec<Todo>) -> (r: Outcome)
    requires
        old(tasks)@.len() > 0 ==> sub_m.id is Some,
    ensures
        ids_increasing(views(old(tasks)@)) ==> ids_increasing(views(final(tasks)@)),
        old(tasks)@.len() == 0 ==> r == (Outcome { notice: Some(Notice::NoTasks), save: false })
            && final(tasks)@ == old(tasks)@,
        old(tasks)@.len() > 0 ==> {
            let k = first_index(views(old(tasks)@), sub_m.id->0);
            &&& r == (if k == -1 {
                Outcome { notice: Some(Notice::NoSuchTask), save: false }
            } else {
                Outcome { notice: None, save: true }
            })
            &&& views(final(tasks)@) == replace_at(
                views(old(tasks)@),
                k,
                pending_view(views(old(tasks)@)[k]),
            )
            &&& k != -1 ==> views(final(tasks)@)[k].state == State::Pending
        },
{
    if tasks.len() == 0 {
        return Outcome { notice: Some(Notice::NoTasks), save: false };
    }
    let id = match get_id(sub_m) {
        Some(n) => n,
        None => 0,
    };
    if mark_pending(tasks, id) {
        Outcome { notice: None, save: true }
    } else {
        Outcome { notice: Some(Notice::NoSuchTask), save: false }
    }
}

} // verus!
