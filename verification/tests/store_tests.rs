use chrono::NaiveDateTime;
use tasklist::model::{Date, DateTime, State, Todo};
use tasklist::store::{can_decode, decode_tasks, encode_tasks, from_json, list_row, to_json, verification_time};

fn dt(y: i32, mo: u32, d: u32, h: u32, mi: u32, s: u32) -> DateTime {
    DateTime { date: Date { year: y, month: mo, day: d }, hour: h, minute: mi, second: s, nanosecond: 0 }
}

fn chrono_dt(t: &DateTime) -> NaiveDateTime {
    chrono::NaiveDate::from_ymd_opt(t.date.year, t.date.month, t.date.day)
        .unwrap()
        .and_hms_nano_opt(t.hour, t.minute, t.second, t.nanosecond)
        .unwrap()
}

fn show(t: &Option<DateTime>) -> String {
    t.map_or("None".to_string(), |d| chrono_dt(&d).to_string())
}

fn sample() -> Todo {
    Todo {
        id: 1,
        title: "Buy milk".to_string(),
        creat_time: Some(dt(2024, 1, 2, 3, 4, 5)),
        start_time: None,
        finish_time: None,
        scheduled_time: Some(dt(2024, 2, 29, 23, 59, 59)),
        deadline_time: None,
        state: State::Notstarted,
    }
}

fn same(a: &Todo, b: &Todo) -> bool {
    a.id == b.id
        && a.title == b.title
        && a.creat_time == b.creat_time
        && a.start_time == b.start_time
        && a.finish_time == b.finish_time
        && a.scheduled_time == b.scheduled_time
        && a.deadline_time == b.deadline_time
        && a.state == b.state
}

#[test]
fn to_json_writes_the_stored_format() {
    let t = sample();
    assert_eq!(
        to_json(&t),
        "{\"id\": 1, \"title\": Buy milk, \"creat_time\": 2024-01-02 03:04:05, \"start_time\": None, \"finish_time\": None, \"scheduled_time\": 2024-02-29 23:59:59, \"deadline\": None, \"state\": Notstarted}"
    );
}

#[test]
fn from_json_reads_the_stored_format() {
    let t = from_json("{\"id\": 7, \"title\": Walk, \"creat_time\": 2023-12-31 10:00:00, \"start_time\": None, \"finish_time\": None, \"scheduled_time\": None, \"deadline\": 2024-01-01 00:00:00, \"state\": Ongoing}");
    assert_eq!(t.id, 7);
    assert_eq!(t.title, "Walk");
    assert_eq!(t.creat_time, Some(dt(2023, 12, 31, 10, 0, 0)));
    assert_eq!(t.start_time, None);
    assert_eq!(t.deadline_time, Some(dt(2024, 1, 1, 0, 0, 0)));
    assert_eq!(t.state, State::Ongoing);
}

#[test]
fn from_json_defaults_and_unknown_values() {
    let t = from_json("{}");
    assert_eq!(t.id, 0);
    assert_eq!(t.title, "");
    assert_eq!(t.creat_time, None);
    assert_eq!(t.state, State::Done);
    let u = from_json("{\"id\": x, \"state\": Sleeping, \"junk\", \"title\": a: b}");
    assert_eq!(u.id, 0);
    assert_eq!(u.state, State::Done);
    assert_eq!(u.title, "");
}

#[test]
fn a_time_with_fractional_seconds_reads_back() {
    let mut t = sample();
    t.creat_time = Some(DateTime { nanosecond: 123_000_000, ..dt(2024, 1, 2, 3, 4, 5) });
    t.start_time = Some(DateTime { nanosecond: 123_456_000, ..dt(2024, 1, 2, 3, 4, 5) });
    t.finish_time = Some(DateTime { nanosecond: 123_456_789, ..dt(2024, 1, 2, 3, 4, 5) });
    t.deadline_time = Some(DateTime { nanosecond: 1_500_000_000, ..dt(2024, 6, 30, 23, 59, 59) });
    let back = from_json(&to_json(&t));
    assert!(same(&back, &t));
}

#[test]
fn time_text_matches_chrono_display() {
    let times = [
        dt(2024, 1, 2, 3, 4, 5),
        dt(0, 1, 1, 0, 0, 0),
        dt(9999, 12, 31, 23, 59, 59),
        dt(-1, 1, 1, 0, 0, 0),
        dt(-262143, 1, 1, 0, 0, 0),
        dt(10000, 12, 31, 1, 2, 3),
        dt(262142, 12, 31, 1, 2, 3),
        DateTime { nanosecond: 7, ..dt(2024, 1, 2, 3, 4, 5) },
        DateTime { nanosecond: 7_000, ..dt(2024, 1, 2, 3, 4, 5) },
        DateTime { nanosecond: 7_000_000, ..dt(2024, 1, 2, 3, 4, 5) },
        DateTime { nanosecond: 1_000_000_000, ..dt(2024, 1, 2, 3, 4, 59) },
        DateTime { nanosecond: 1_999_999_999, ..dt(2024, 1, 2, 3, 4, 59) },
    ];
    for d in times.iter() {
        let mut t = sample();
        t.creat_time = Some(*d);
        let text = to_json(&t);
        let want = format!("\"creat_time\": {}, ", chrono_dt(d));
        assert!(text.contains(&want), "{} lacks {}", text, want);
    }
}

#[test]
fn times_with_signed_years_read_back() {
    let mut t = sample();
    t.creat_time = Some(dt(-5, 3, 4, 5, 6, 7));
    t.start_time = Some(dt(10000, 1, 1, 0, 0, 0));
    t.finish_time = Some(DateTime { nanosecond: 250_000_000, ..dt(262142, 12, 31, 23, 59, 59) });
    t.scheduled_time = Some(dt(-262143, 1, 1, 0, 0, 0));
    t.deadline_time = Some(dt(-10000, 6, 15, 12, 30, 0));
    let text = to_json(&t);
    assert!(text.contains("\"creat_time\": -0005-03-04 05:06:07, "), "{}", text);
    assert!(text.contains("\"start_time\": +10000-01-01 00:00:00, "), "{}", text);
    let back = from_json(&text);
    assert!(same(&back, &t));
}

#[test]
fn task_reads_back_from_its_json() {
    let t = sample();
    assert!(same(&from_json(&to_json(&t)), &t));
}

#[test]
fn list_reads_back_from_its_text() {
    let mut b = sample();
    b.id = 2;
    b.title = "Call mom".to_string();
    b.state = State::Done;
    b.finish_time = Some(dt(2024, 3, 1, 8, 0, 0));
    let mut c = sample();
    c.id = 3;
    c.title = "".to_string();
    c.state = State::Pending;
    let tasks = vec![sample(), b, c];
    let text = encode_tasks(&tasks);
    assert!(text.starts_with("[{\"id\": 1, "));
    assert!(text.contains("Notstarted}, {\"id\": 2, "));
    assert!(can_decode(&text));
    let back = decode_tasks(&text);
    assert_eq!(back.len(), 3);
    for i in 0..3 {
        assert!(same(&back[i], &tasks[i]), "task {}", i);
    }
    let one = vec![sample()];
    let back1 = decode_tasks(&encode_tasks(&one));
    assert_eq!(back1.len(), 1);
    assert!(same(&back1[0], &one[0]));
}

#[test]
fn list_text_edge_cases() {
    assert_eq!(encode_tasks(&[]), "[]");
    assert!(can_decode("[]"));
    assert_eq!(decode_tasks("[]").len(), 0);
    let blank = decode_tasks(" [ \n ] ");
    assert_eq!(blank.len(), 1);
    assert_eq!(blank[0].id, 0);
    assert_eq!(blank[0].title, "");
    assert_eq!(blank[0].state, State::Done);
    assert_eq!(decode_tasks(&encode_tasks(&[])).len(), 0);
    assert!(!can_decode("[}]"));
    assert!(can_decode(""));
    assert_eq!(decode_tasks("").len(), 0);
    assert_eq!(decode_tasks("no brackets").len(), 0);
    assert_eq!(decode_tasks("[").len(), 0);
    assert!(can_decode("  [{}]\n"));
    let d = decode_tasks("  [{}]\n");
    assert_eq!(d.len(), 1);
    assert_eq!(d[0].id, 0);
    assert!(!can_decode("[é]"));
    assert!(can_decode("[é}"));
}

#[test]
fn list_row_matches_the_listing_format() {
    let t = sample();
    let want = format!(
        "{:<4} {:<20} {:<20} {:<20} {:<20} {:<20} {:<20} {:?}",
        t.id,
        t.title,
        show(&t.creat_time),
        show(&t.start_time),
        show(&t.finish_time),
        show(&t.scheduled_time),
        show(&t.deadline_time),
        t.state
    );
    assert_eq!(list_row(&t), want);
}

#[test]
fn verification_time_accepts_and_rejects() {
    assert_eq!(verification_time("2024-05-06_07:08:09"), Ok("2024-05-06_07:08:09".to_string()));
    for bad in ["bad", "2024-02-30_00:00:00", "2024-05-06 07:08:09", "2024-05-06_07:08"].iter() {
        let e = NaiveDateTime::parse_from_str(bad, "%Y-%m-%d_%H:%M:%S").unwrap_err();
        assert_eq!(
            verification_time(bad),
            Err(format!("Date format error: {} (You entered: '{}')", e, bad))
        );
    }
    assert_eq!(
        verification_time("bad"),
        Err("Date format error: input contains invalid characters (You entered: 'bad')".to_string())
    );
}

#[test]
fn datetimes_order_as_chrono_orders_them() {
    let xs = [
        dt(2024, 1, 2, 3, 4, 5),
        dt(2024, 1, 2, 3, 4, 6),
        dt(2024, 1, 2, 3, 5, 0),
        dt(2024, 1, 3, 0, 0, 0),
        dt(2023, 12, 31, 23, 59, 59),
        DateTime { nanosecond: 1, ..dt(2024, 1, 2, 3, 4, 5) },
        DateTime { nanosecond: 1_500_000_000, ..dt(2024, 1, 2, 3, 4, 59) },
        dt(-5, 6, 7, 0, 0, 0),
    ];
    for a in xs.iter() {
        for b in xs.iter() {
            assert_eq!(a.is_before(b), chrono_dt(a) < chrono_dt(b));
            assert_eq!(a.date.on_or_before(&b.date), chrono_dt(a).date() <= chrono_dt(b).date());
        }
    }
}

#[test]
fn date_validity_agrees_with_chrono() {
    let years = [-262144, -262143, -1, 0, 1900, 2000, 2023, 2024, 2100, 262142, 262143];
    for y in years.iter() {
        for m in 0..=13u32 {
            for d in 0..=32u32 {
                let ours = Date { year: *y, month: m, day: d }.is_valid();
                let theirs = chrono::NaiveDate::from_ymd_opt(*y, m, d).is_some();
                assert_eq!(ours, theirs, "{}-{}-{}", y, m, d);
            }
        }
    }
    let t = dt(2024, 1, 1, 23, 59, 59);
    assert!(t.is_valid());
    assert!(DateTime { nanosecond: 1_999_999_999, ..t }.is_valid());
    assert!(!DateTime { nanosecond: 2_000_000_000, ..t }.is_valid());
    assert!(!DateTime { nanosecond: 1_000_000_000, ..dt(2024, 1, 1, 23, 59, 58) }.is_valid());
    assert!(!dt(2024, 1, 1, 24, 0, 0).is_valid());
    assert!(sample().is_valid());
    assert!(tasklist::store::tasks_valid(&[sample()]));
}

#[test]
fn every_state_reads_back() {
    let states = [State::Done, State::Pending, State::Ongoing, State::Notstarted];
    let mut tasks = Vec::new();
    for (i, st) in states.iter().enumerate() {
        let mut t = sample();
        t.id = i as u32 + 1;
        t.state = *st;
        tasks.push(t);
    }
    let back = decode_tasks(&encode_tasks(&tasks));
    assert_eq!(back.len(), 4);
    for i in 0..4 {
        assert_eq!(back[i].state, states[i]);
        assert_eq!(back[i].id, i as u32 + 1);
    }
}
