use chrono::Datelike;
use tasklist::commands::{
    add_task, cmd_add, cmd_delete, cmd_done, cmd_edit, cmd_list, cmd_pending, cmd_start,
    delete_tasks, edit_task, find_task, is_shown, list_filter, mark_done, mark_pending,
    mark_started, select_tasks, Edits, ListFilter, ListOutcome, Notice, Outcome,
};
use tasklist::model::{Date, DateTime, State, Todo};
use tasklist::store::tasks_valid;
use tasklist::utils::{get_id, next_id, parse_day_opt, parse_dt_opt, SubArgs};

fn dt(y: i32, mo: u32, d: u32, h: u32, mi: u32, s: u32) -> DateTime {
    DateTime { date: Date { year: y, month: mo, day: d }, hour: h, minute: mi, second: s, nanosecond: 0 }
}

fn task(id: u32, title: &str, state: State) -> Todo {
    Todo {
        id,
        title: title.to_string(),
        creat_time: Some(dt(2024, 1, 1, 9, 0, 0)),
        start_time: None,
        finish_time: None,
        scheduled_time: None,
        deadline_time: None,
        state,
    }
}

fn with_id(id: u32) -> SubArgs {
    let mut a = SubArgs::empty();
    a.id = Some(id);
    a
}

fn no_filter() -> ListFilter {
    ListFilter {
        states: vec![],
        overdue: false,
        should_start: false,
        scheduled_at: None,
        scheduled_before: None,
        scheduled_after: None,
        deadline_at: None,
        deadline_before: None,
        deadline_after: None,
    }
}

#[test]
fn next_id_follows_the_last_task() {
    assert_eq!(next_id(&[]), 1);
    let ts = vec![task(4, "a", State::Done), task(2, "b", State::Done)];
    assert_eq!(next_id(&ts), 3);
    assert_eq!(get_id(&with_id(9)), Some(9));
    assert_eq!(get_id(&SubArgs::empty()), None);
}

#[test]
fn add_appends_a_task_not_started() {
    let mut ts = vec![task(1, "a", State::Done)];
    let mut args = SubArgs::empty();
    args.title = Some("Write report".to_string());
    args.scheduled = Some("2024-06-01_10:00:00".to_string());
    args.deadline = Some("not a time".to_string());
    let r = cmd_add(&args, &mut ts);
    assert_eq!(r, Outcome { notice: None, save: true });
    assert_eq!(ts.len(), 2);
    let t = &ts[1];
    assert_eq!(t.id, 2);
    assert_eq!(t.title, "Write report");
    assert!(t.creat_time.is_some());
    assert_eq!(t.scheduled_time, Some(dt(2024, 6, 1, 10, 0, 0)));
    assert_eq!(t.deadline_time, None);
    assert_eq!(t.state, State::Notstarted);
    let mut empty: Vec<Todo> = vec![];
    add_task(&mut empty, "x".to_string(), None, None, dt(2024, 1, 1, 0, 0, 0));
    assert_eq!(empty[0].id, 1);
    assert_eq!(empty[0].creat_time, Some(dt(2024, 1, 1, 0, 0, 0)));
}

#[test]
fn done_marks_the_first_match() {
    let mut ts = vec![task(1, "a", State::Ongoing), task(2, "b", State::Notstarted), task(2, "c", State::Notstarted)];
    ts[0].start_time = Some(dt(2024, 1, 1, 10, 0, 0));
    let at = dt(2024, 1, 5, 12, 0, 0);
    assert!(mark_done(&mut ts, 2, at));
    assert_eq!(ts[1].state, State::Done);
    assert_eq!(ts[1].finish_time, Some(at));
    assert_eq!(ts[1].start_time, Some(at));
    assert_eq!(ts[2].state, State::Notstarted);
    assert!(mark_done(&mut ts, 1, at));
    assert_eq!(ts[0].start_time, Some(dt(2024, 1, 1, 10, 0, 0)));
    assert!(!mark_done(&mut ts, 9, at));
}

#[test]
fn cmd_done_reports_and_saves() {
    let mut empty: Vec<Todo> = vec![];
    assert_eq!(cmd_done(&SubArgs::empty(), &mut empty), Outcome { notice: Some(Notice::NoTasks), save: false });
    let mut ts = vec![task(1, "a", State::Notstarted)];
    assert_eq!(cmd_done(&with_id(5), &mut ts), Outcome { notice: Some(Notice::NoSuchTask), save: true });
    assert_eq!(ts[0].state, State::Notstarted);
    assert_eq!(cmd_done(&with_id(1), &mut ts), Outcome { notice: None, save: true });
    assert_eq!(ts[0].state, State::Done);
    assert!(ts[0].finish_time.is_some());
    assert_eq!(ts[0].start_time, ts[0].finish_time);
    assert!(tasks_valid(&ts));
}

#[test]
fn start_and_pending_change_the_state() {
    let mut ts = vec![task(1, "a", State::Notstarted)];
    let at = dt(2024, 2, 2, 2, 2, 2);
    assert!(mark_started(&mut ts, 1, at));
    assert_eq!(ts[0].state, State::Ongoing);
    assert_eq!(ts[0].start_time, Some(at));
    assert!(mark_pending(&mut ts, 1));
    assert_eq!(ts[0].state, State::Pending);
    assert_eq!(ts[0].start_time, Some(at));
    assert_eq!(cmd_start(&with_id(2), &mut ts), Outcome { notice: Some(Notice::NoSuchTask), save: false });
    assert_eq!(cmd_start(&with_id(1), &mut ts), Outcome { notice: None, save: true });
    assert_eq!(ts[0].state, State::Ongoing);
    assert_eq!(cmd_pending(&with_id(1), &mut ts), Outcome { notice: None, save: true });
    assert_eq!(ts[0].state, State::Pending);
    assert_eq!(cmd_pending(&with_id(3), &mut ts), Outcome { notice: Some(Notice::NoSuchTask), save: false });
    let mut empty: Vec<Todo> = vec![];
    assert_eq!(cmd_start(&SubArgs::empty(), &mut empty).notice, Some(Notice::NoTasks));
    assert_eq!(cmd_pending(&SubArgs::empty(), &mut empty).notice, Some(Notice::NoTasks));
}

#[test]
fn delete_removes_every_match() {
    let mut ts = vec![task(1, "a", State::Done), task(2, "b", State::Done), task(1, "c", State::Done), task(3, "d", State::Done)];
    delete_tasks(&mut ts, 1);
    let ids: Vec<u32> = ts.iter().map(|t| t.id).collect();
    assert_eq!(ids, vec![2, 3]);
    assert_eq!(cmd_delete(&with_id(7), &mut ts), Outcome { notice: None, save: true });
    assert_eq!(ts.len(), 2);
    assert_eq!(cmd_delete(&with_id(2), &mut ts), Outcome { notice: None, save: true });
    assert_eq!(ts[0].title, "d");
    delete_tasks(&mut ts, 2);
    assert_eq!(ts.len(), 1);
    let mut empty: Vec<Todo> = vec![];
    assert_eq!(cmd_delete(&SubArgs::empty(), &mut empty), Outcome { notice: Some(Notice::NoTasks), save: false });
}

#[test]
fn edit_changes_only_given_fields() {
    let mut ts = vec![task(1, "a", State::Ongoing), task(2, "b", State::Done)];
    let e = Edits {
        title: Some("renamed".to_string()),
        creat_time: None,
        start_time: Some(dt(2024, 3, 3, 3, 3, 3)),
        finish_time: None,
        scheduled_time: None,
        deadline_time: Some(dt(2024, 4, 4, 4, 4, 4)),
    };
    assert!(edit_task(&mut ts, 2, e));
    assert_eq!(ts[1].title, "renamed");
    assert_eq!(ts[1].start_time, Some(dt(2024, 3, 3, 3, 3, 3)));
    assert_eq!(ts[1].deadline_time, Some(dt(2024, 4, 4, 4, 4, 4)));
    assert_eq!(ts[1].creat_time, Some(dt(2024, 1, 1, 9, 0, 0)));
    assert_eq!(ts[1].state, State::Done);
    assert_eq!(ts[0].title, "a");

    let mut args = with_id(1);
    args.finish = Some("2024-05-05_05:05:05".to_string());
    args.creat = Some("garbage".to_string());
    assert_eq!(cmd_edit(&args, &mut ts), Outcome { notice: None, save: true });
    assert_eq!(ts[0].finish_time, Some(dt(2024, 5, 5, 5, 5, 5)));
    assert_eq!(ts[0].creat_time, Some(dt(2024, 1, 1, 9, 0, 0)));
    assert_eq!(cmd_edit(&with_id(9), &mut ts), Outcome { notice: Some(Notice::NoSuchTask), save: false });
    assert_eq!(cmd_edit(&SubArgs::empty(), &mut ts), Outcome { notice: Some(Notice::NoSuchTask), save: false });
    let mut empty: Vec<Todo> = vec![];
    assert_eq!(cmd_edit(&args, &mut empty), Outcome { notice: Some(Notice::NoTasks), save: false });
}

#[test]
fn find_task_returns_the_first_match() {
    let ts = vec![task(5, "a", State::Done), task(6, "b", State::Done), task(6, "c", State::Done)];
    assert_eq!(find_task(&ts, 6), Some(1));
    assert_eq!(find_task(&ts, 7), None);
}

#[test]
fn notices_have_the_printed_text() {
    assert_eq!(Notice::NoTasks.message(), "No tasks yet");
    assert_eq!(Notice::NoSuchTask.message(), "There is no task with that number.");
}

#[test]
fn list_without_filter_shows_every_task() {
    let ts = vec![task(1, "a", State::Done), task(2, "b", State::Pending)];
    let now = dt(2024, 1, 1, 0, 0, 0);
    assert_eq!(select_tasks(&no_filter(), &ts, &now), vec![0, 1]);
    match cmd_list(&SubArgs::empty(), &ts) {
        ListOutcome::Shown(idx) => assert_eq!(idx, vec![0, 1]),
        ListOutcome::NoTasks => panic!("tasks expected"),
    }
    let mut args = SubArgs::empty();
    args.pending = true;
    match cmd_list(&args, &ts) {
        ListOutcome::Shown(idx) => assert_eq!(idx, vec![1]),
        ListOutcome::NoTasks => panic!("tasks expected"),
    }
    let empty: Vec<Todo> = vec![];
    assert!(matches!(cmd_list(&SubArgs::empty(), &empty), ListOutcome::NoTasks));
}

#[test]
fn list_filters_by_state_and_time() {
    let mut a = task(1, "overdue", State::Ongoing);
    a.deadline_time = Some(dt(2024, 1, 10, 12, 0, 0));
    let mut b = task(2, "late start", State::Notstarted);
    b.scheduled_time = Some(dt(2024, 1, 10, 8, 0, 0));
    let mut c = task(3, "future", State::Notstarted);
    c.scheduled_time = Some(dt(2024, 3, 1, 8, 0, 0));
    c.deadline_time = Some(dt(2024, 3, 2, 8, 0, 0));
    let ts = vec![a, b, c];
    let now = dt(2024, 2, 1, 0, 0, 0);

    let mut f = no_filter();
    f.overdue = true;
    assert_eq!(select_tasks(&f, &ts, &now), vec![0]);

    let mut f = no_filter();
    f.should_start = true;
    assert_eq!(select_tasks(&f, &ts, &now), vec![1]);

    let mut f = no_filter();
    f.states = vec![State::Notstarted];
    assert_eq!(select_tasks(&f, &ts, &now), vec![1, 2]);

    let mut f = no_filter();
    f.scheduled_at = Some(Date { year: 2024, month: 1, day: 10 });
    assert_eq!(select_tasks(&f, &ts, &now), vec![1]);

    let mut f = no_filter();
    f.scheduled_after = Some(Date { year: 2024, month: 1, day: 10 });
    assert_eq!(select_tasks(&f, &ts, &now), vec![1, 2]);

    let mut f = no_filter();
    f.deadline_before = Some(Date { year: 2024, month: 1, day: 10 });
    assert_eq!(select_tasks(&f, &ts, &now), vec![0]);

    let mut f = no_filter();
    f.deadline_after = Some(Date { year: 2024, month: 1, day: 11 });
    f.states = vec![State::Done, State::Notstarted];
    assert_eq!(select_tasks(&f, &ts, &now), vec![2]);
    assert!(is_shown(&f, &ts[2], &now));
    assert!(!is_shown(&f, &ts[0], &now));
}

#[test]
fn list_filter_reads_the_arguments() {
    let mut args = SubArgs::empty();
    args.pending = true;
    args.done = true;
    args.scheduled_at = Some("2024-01-10".to_string());
    args.deadline_at = Some("today".to_string());
    args.deadline_before = Some("TODAY".to_string());
    args.scheduled_before = Some("bogus".to_string());
    let f = list_filter(&args);
    assert_eq!(f.states, vec![State::Done, State::Pending]);
    assert_eq!(f.scheduled_at, Some(Date { year: 2024, month: 1, day: 10 }));
    assert_eq!(f.scheduled_before, None);
    assert_eq!(f.deadline_at, None);
    assert!(f.deadline_before.is_some());
}

#[test]
fn day_and_time_arguments() {
    let s = "2024-02-29".to_string();
    assert_eq!(parse_day_opt(Some(&s)), Some(Date { year: 2024, month: 2, day: 29 }));
    let bad = "2023-02-29".to_string();
    assert_eq!(parse_day_opt(Some(&bad)), None);
    assert_eq!(parse_day_opt(None), None);
    let today = "ToDay".to_string();
    let d = parse_day_opt(Some(&today)).unwrap();
    let n = chrono::Local::now().date_naive();
    assert_eq!((d.year, d.month, d.day), (n.year(), n.month(), n.day()));
    let t = "2024-06-01_10:20:30".to_string();
    assert_eq!(parse_dt_opt(Some(&t)), Some(dt(2024, 6, 1, 10, 20, 30)));
    let u = "2024-06-01 10:20:30".to_string();
    assert_eq!(parse_dt_opt(Some(&u)), None);
}

#[test]
fn commands_keep_ids_increasing() {
    let mut ts: Vec<Todo> = vec![];
    for title in ["a", "b", "c", "d"].iter() {
        let mut args = SubArgs::empty();
        args.title = Some(title.to_string());
        cmd_add(&args, &mut ts);
    }
    cmd_delete(&with_id(2), &mut ts);
    cmd_done(&with_id(3), &mut ts);
    cmd_start(&with_id(4), &mut ts);
    let mut args = SubArgs::empty();
    args.title = Some("e".to_string());
    cmd_add(&args, &mut ts);
    let ids: Vec<u32> = ts.iter().map(|t| t.id).collect();
    assert_eq!(ids, vec![1, 3, 4, 5]);
    assert!(ids.windows(2).all(|w| w[0] < w[1]));
    assert!(tasks_valid(&ts));
}

#[test]
fn a_narrower_listing_shows_a_subsequence() {
    let mut ts = Vec::new();
    for i in 0..6u32 {
        let mut t = task(i + 1, "t", if i % 2 == 0 { State::Notstarted } else { State::Ongoing });
        t.scheduled_time = Some(dt(2024, 1, 1 + i, 8, 0, 0));
        if i % 3 == 0 {
            t.deadline_time = Some(dt(2024, 1, 2 + i, 8, 0, 0));
        }
        ts.push(t);
    }
    let now = dt(2024, 1, 4, 0, 0, 0);
    let wide = select_tasks(&no_filter(), &ts, &now);
    let mut f = no_filter();
    f.scheduled_before = Some(Date { year: 2024, month: 1, day: 5 });
    let narrow1 = select_tasks(&f, &ts, &now);
    f.overdue = true;
    let narrow2 = select_tasks(&f, &ts, &now);
    assert_eq!(wide, vec![0, 1, 2, 3, 4, 5]);
    assert_eq!(narrow1, vec![0, 1, 2, 3, 4]);
    assert_eq!(narrow2, vec![0]);
    assert!(narrow2.iter().all(|i| narrow1.contains(i)));
}
