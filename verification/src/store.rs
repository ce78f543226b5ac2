//! The stored text of the task list, its reading back, the row that the
//! list shows for a task, and the check of a date and time typed on the
//! command line.
use crate::calendar::{
    chrono_datetime_parse, datetime_text, display_datetime, parse_datetime, shown_as, stored_time_fmt,
};
use crate::model::{opt_wf, DateTime, State, Todo, TodoView};
use crate::text::{
    chars_eq, chars_of, decimal, decimal_chars, pad_chars, pad_right, parse_u32, parse_u32_spec,
    push_chars, push_str, slice_chars, split, split_chars, string_of, strip, strip_chars, Pat,
};
use vstd::prelude::*;

verus! {

// ---------------------------------------------------------------------------
// Writing a task
// ---------------------------------------------------------------------------

/// The text of an optional time: its `Display` text, or `None`.
pub open spec fn time_text(t: Option<DateTime>) -> Seq<char> {
    match t {
        Some(d) => datetime_text(d),
        None => "None"@,
    }
}

/// `"key": value`.
pub open spec fn field_text(key: Seq<char>, value: Seq<char>) -> Seq<char> {
    seq!['"'] + key + seq!['"', ':', ' '] + value
}

/// The fields of a stored task, separated by `, `.
#[verifier::opaque]
pub open spec fn json_body(t: TodoView) -> Seq<char> {
    field_text("id"@, decimal(t.id as nat)) + seq![',', ' '] + field_text("title"@, t.title)
        + seq![',', ' '] + field_text("creat_time"@, time_text(t.creat_time)) + seq![',', ' ']
        + field_text("start_time"@, time_text(t.start_time)) + seq![',', ' '] + field_text(
        "finish_time"@,
        time_text(t.finish_time),
    ) + seq![',', ' '] + field_text("scheduled_time"@, time_text(t.scheduled_time)) + seq![
        ',',
        ' ',
    ] + field_text("deadline"@, time_text(t.deadline_time)) + seq![',', ' '] + field_text(
        "state"@,
        t.state.name(),
    )
}

/// The stored text of one task: its fields in braces.
pub open spec fn todo_json(t: TodoView) -> Seq<char> {
    seq!['{'] + json_body(t) + seq!['}']
}

fn time_chars(t: &Option<DateTime>) -> (r: Vec<char>)
    requires
        opt_wf(*t),
    ensures
        r@ == time_text(*t),
{
    match t {
        Some(d) => {
            let s = display_datetime(d);
            chars_of(s.as_str())
        },
        None => chars_of("None"),
    }
}

fn push_field(out: &mut Vec<char>, key: &str, value: &Vec<char>)
    ensures
        final(out)@ == old(out)@ + field_text(key@, value@),
{
    let ghost start = out@;
    out.push('"');
    push_str(out, key);
    out.push('"');
    out.push(':');
    out.push(' ');
    push_chars(out, value);
    assert(out@ =~= start + field_text(key@, value@));
}

fn push_sep(out: &mut Vec<char>)
    ensures
        final(out)@ == old(out)@ + seq![',', ' '],
{
    out.push(',');
    out.push(' ');
    assert(out@ =~= old(out)@ + seq![',', ' ']);
}

fn json_chars(task: &Todo) -> (r: Vec<char>)
    requires
        task@.wf(),
    ensures
        r@ == todo_json(task@),
{
    let mut out: Vec<char> = Vec::new();
    out.push('{');
    let ghost open = out@;
    let idv = decimal_chars(task.id);
    push_field(&mut out, "id", &idv);
    push_sep(&mut out);
    let title = chars_of(task.title.as_str());
    push_field(&mut out, "title", &title);
    push_sep(&mut out);
    let v = time_chars(&task.creat_time);
    push_field(&mut out, "creat_time", &v);
    push_sep(&mut out);
    let v = time_chars(&task.start_time);
    push_field(&mut out, "start_time", &v);
    push_sep(&mut out);
    let v = time_chars(&task.finish_time);
    push_field(&mut out, "finish_time", &v);
    push_sep(&mut out);
    let v = time_chars(&task.scheduled_time);
    push_field(&mut out, "scheduled_time", &v);
    push_sep(&mut out);
    let v = time_chars(&task.deadline_time);
    push_field(&mut out, "deadline", &v);
    push_sep(&mut out);
    let v = chars_of(task.state.name_str());
    push_field(&mut out, "state", &v);
    assert(out@ =~= open + json_body(task@)) by {
        reveal(json_body);
    }
    out.push('}');
    assert(out@ =~= todo_json(task@));
    out
}

/// The stored text of one task.
pub fn to_json(task: &Todo) -> (r: String)
    requires
        task@.wf(),
    ensures
        r@ == todo_json(task@),
{
    let v = json_chars(task);
    string_of(&v)
}

// ---------------------------------------------------------------------------
// Reading a task
// ---------------------------------------------------------------------------

/// The fields read so far from a stored task; the state is kept as text
/// until the end.
pub struct Fields {
    pub id: u32,
    pub title: Seq<char>,
    pub creat_time: Option<DateTime>,
    pub start_time: Option<DateTime>,
    pub finish_time: Option<DateTime>,
    pub scheduled_time: Option<DateTime>,
    pub deadline_time: Option<DateTime>,
    pub state: Seq<char>,
}

/// What a task holds before any field is read.
pub open spec fn initial_fields() -> Fields {
    Fields {
        id: 0,
        title: Seq::empty(),
        creat_time: None,
        start_time: None,
        finish_time: None,
        scheduled_time: None,
        deadline_time: None,
        state: "Done"@,
    }
}

/// A piece of text with white space, then `"`, removed at both ends.
pub open spec fn clean_part(p: Seq<char>) -> Seq<char> {
    strip(strip(p, Pat::Whitespace), Pat::Char('"'))
}

/// The parts of a field around `: `, each cleaned.
pub open spec fn field_parts(seg: Seq<char>) -> Seq<Seq<char>> {
    split(seg, seq![':', ' ']).map_values(|p: Seq<char>| clean_part(p))
}

/// A stored time read back, if `chrono` reads it: the text of a date and
/// time reads as it, `None` reads as no time, and any other text as `chrono`
/// reads it.
pub open spec fn read_time(v: Seq<char>) -> Option<DateTime> {
    if exists|d: DateTime| shown_as(d, v) {
        Some(choose|d: DateTime| shown_as(d, v))
    } else if v == "None"@ {
        None
    } else {
        match chrono_datetime_parse(v, stored_time_fmt()) {
            Ok(d) => Some(d),
            Err(_) => None,
        }
    }
}

/// `f` after reading the field `seg`: a field with one `: ` and a known name
/// sets that entry; any other text leaves `f` as it is.
pub open spec fn apply_field(f: Fields, seg: Seq<char>) -> Fields {
    let parts = field_parts(seg);
    if parts.len() != 2 {
        f
    } else {
        let key = parts[0];
        let v = parts[1];
        if key == "id"@ {
            Fields {
                id: match parse_u32_spec(v) {
                    Some(n) => n,
                    None => 0,
                },
                ..f
            }
        } else if key == "title"@ {
            Fields { title: v, ..f }
        } else if key == "creat_time"@ {
            Fields { creat_time: read_time(v), ..f }
        } else if key == "start_time"@ {
            Fields { start_time: read_time(v), ..f }
        } else if key == "finish_time"@ {
            Fields { finish_time: read_time(v), ..f }
        } else if key == "scheduled_time"@ {
            Fields { scheduled_time: read_time(v), ..f }
        } else if key == "deadline"@ {
            Fields { deadline_time: read_time(v), ..f }
        } else if key == "state"@ {
            Fields { state: v, ..f }
        } else {
            f
        }
    }
}

/// `f` after reading the fields `segs` from first to last.
pub open spec fn fields_from(f: Fields, segs: Seq<Seq<char>>) -> Fields
    decreases segs.len(),
{
    if segs.len() == 0 {
        f
    } else {
        fields_from(apply_field(f, segs[0]), segs.drop_first())
    }
}

/// The state named by `text`; an unknown name reads as `Done`.
pub open spec fn state_of(text: Seq<char>) -> State {
    if text == "Done"@ {
        State::Done
    } else if text == "Pending"@ {
        State::Pending
    } else if text == "Ongoing"@ {
        State::Ongoing
    } else if text == "Notstarted"@ {
        State::Notstarted
    } else {
        State::Done
    }
}

/// The text of a stored task without its first and last character.
pub open spec fn json_inner(s: Seq<char>) -> Seq<char> {
    s.subrange(1, s.len() - 1)
}

/// The task that `from_json` reads from `s`.
pub open spec fn parse_todo(s: Seq<char>) -> TodoView {
    let f = fields_from(initial_fields(), split(json_inner(s), seq![',']));
    TodoView {
        id: f.id,
        title: f.title,
        creat_time: f.creat_time,
        start_time: f.start_time,
        finish_time: f.finish_time,
        scheduled_time: f.scheduled_time,
        deadline_time: f.deadline_time,
        state: state_of(f.state),
    }
}

/// `s` has two characters or more, and the first and the last are ASCII, so
/// that cutting one byte at each end stays on character boundaries.
pub open spec fn json_sliceable(s: Seq<char>) -> bool {
    s.len() >= 2 && (s[0] as u32) < 128 && (s.last() as u32) < 128
}

fn read_time_chars(v: &Vec<char>) -> (r: Option<DateTime>)
    ensures
        r == read_time(v@),
        opt_wf(r),
{
    let s = string_of(v);
    let r = parse_datetime(s.as_str(), "%Y-%m-%d %H:%M:%S%.f");
    proof {
        if exists|d: DateTime| shown_as(d, v@) {
            let d0 = choose|d: DateTime| shown_as(d, v@);
            assert(crate::calendar::is_shown_text(s@));
            if let Ok(x) = r {
                crate::time_facts::lemma_text_injective(x, d0, v@);
            }
        }
    }
    match r {
        Ok(d) => Some(d),
        Err(_) => None,
    }
}

fn state_from(text: &Vec<char>) -> (r: State)
    ensures
        r == state_of(text@),
{
    if chars_eq(text, &chars_of("Done")) {
        State::Done
    } else if chars_eq(text, &chars_of("Pending")) {
        State::Pending
    } else if chars_eq(text, &chars_of("Ongoing")) {
        State::Ongoing
    } else if chars_eq(text, &chars_of("Notstarted")) {
        State::Notstarted
    } else {
        State::Done
    }
}

fn clean_chars(p: &Vec<char>) -> (r: Vec<char>)
    ensures
        r@ == clean_part(p@),
{
    let t = strip_chars(p, Pat::Whitespace);
    strip_chars(&t, Pat::Char('"'))
}

/// Reads a task from its stored text.
pub fn from_json(s: &str) -> (r: Todo)
    requires
        json_sliceable(s@),
    ensures
        r@ == parse_todo(s@),
        r@.wf(),
{
    let cs = chars_of(s);
    let inner = slice_chars(&cs, 1, cs.len() - 1);
    let mut comma: Vec<char> = Vec::new();
    comma.push(',');
    assert(comma@ =~= seq![',']);
    let segs = split_chars(&inner, &comma);
    let mut colon: Vec<char> = Vec::new();
    colon.push(':');
    colon.push(' ');
    assert(colon@ =~= seq![':', ' ']);
    let ghost all = segs.deep_view();
    let mut id: u32 = 0;
    let mut title: Vec<char> = Vec::new();
    let mut creat_time: Option<DateTime> = None;
    let mut start_time: Option<DateTime> = None;
    let mut finish_time: Option<DateTime> = None;
    let mut scheduled_time: Option<DateTime> = None;
    let mut deadline_time: Option<DateTime> = None;
    let mut state = chars_of("Done");
    let mut i: usize = 0;
    assert(all.skip(0) =~= all);
    while i < segs.len()
        invariant
            i <= segs.len(),
            all == segs.deep_view(),
            colon@ == seq![':', ' '],
            fields_from(initial_fields(), all) == fields_from(
                Fields {
                    id,
                    title: title@,
                    creat_time,
                    start_time,
                    finish_time,
                    scheduled_time,
                    deadline_time,
                    state: state@,
                },
                all.skip(i as int),
            ),
            opt_wf(creat_time),
            opt_wf(start_time),
            opt_wf(finish_time),
            opt_wf(scheduled_time),
            opt_wf(deadline_time),
        decreases segs.len() - i,
    {
        let ghost f = Fields {
            id,
            title: title@,
            creat_time,
            start_time,
            finish_time,
            scheduled_time,
            deadline_time,
            state: state@,
        };
        let ghost seg = all[i as int];
        assert(all.skip(i as int)[0] == seg);
        assert(all.skip(i as int).drop_first() =~= all.skip(i + 1));
        assert(segs[i as int].deep_view() =~= segs[i as int]@);
        let parts = split_chars(&segs[i], &colon);
        if parts.len() == 2 {
            assert(parts[0].deep_view() =~= parts[0]@);
            assert(parts[1].deep_view() =~= parts[1]@);
            let key = clean_chars(&parts[0]);
            let v = clean_chars(&parts[1]);
            assert(field_parts(seg)[0] == key@);
            assert(field_parts(seg)[1] == v@);
            if chars_eq(&key, &chars_of("id")) {
                id = match parse_u32(&v) {
                    Some(n) => n,
                    None => 0,
                };
            } else if chars_eq(&key, &chars_of("title")) {
                title = v;
            } else if chars_eq(&key, &chars_of("creat_time")) {
                creat_time = read_time_chars(&v);
            } else if chars_eq(&key, &chars_of("start_time")) {
                start_time = read_time_chars(&v);
            } else if chars_eq(&key, &chars_of("finish_time")) {
                finish_time = read_time_chars(&v);
            } else if chars_eq(&key, &chars_of("scheduled_time")) {
                scheduled_time = read_time_chars(&v);
            } else if chars_eq(&key, &chars_of("deadline")) {
                deadline_time = read_time_chars(&v);
            } else if chars_eq(&key, &chars_of("state")) {
                state = v;
            }
        }
        assert(apply_field(f, seg) == Fields {
            id,
            title: title@,
            creat_time,
            start_time,
            finish_time,
            scheduled_time,
            deadline_time,
            state: state@,
        });
        i += 1;
    }
    let st = state_from(&state);
    Todo {
        id,
        title: string_of(&title),
        creat_time,
        start_time,
        finish_time,
        scheduled_time,
        deadline_time,
        state: st,
    }
}

// ---------------------------------------------------------------------------
// The whole list
// ---------------------------------------------------------------------------

/// The tasks as mathematical values.
pub open spec fn views(ts: Seq<Todo>) -> Seq<TodoView> {
    ts.map_values(|t: Todo| t@)
}

/// The stored texts of the tasks, separated by `, `.
pub open spec fn join_json(ts: Seq<TodoView>) -> Seq<char>
    decreases ts.len(),
{
    if ts.len() == 0 {
        Seq::empty()
    } else if ts.len() == 1 {
        todo_json(ts[0])
    } else {
        join_json(ts.drop_last()) + seq![',', ' '] + todo_json(ts.last())
    }
}

/// The stored text of a task list: the tasks in brackets.
pub open spec fn tasks_json(ts: Seq<TodoView>) -> Seq<char> {
    seq!['['] + join_json(ts) + seq![']']
}

/// Every time of every task exists in the calendar.
pub open spec fn all_wf(ts: Seq<TodoView>) -> bool {
    forall|i: int| 0 <= i < ts.len() ==> (#[trigger] ts[i]).wf()
}

/// Whether every time of every task exists in the calendar.
pub fn tasks_valid(tasks: &[Todo]) -> (r: bool)
    ensures
        r == all_wf(views(tasks@)),
{
    let mut i: usize = 0;
    while i < tasks.len()
        invariant
            i <= tasks.len(),
            forall|k: int| 0 <= k < i ==> (#[trigger] views(tasks@)[k]).wf(),
        decreases tasks.len() - i,
    {
        assert(views(tasks@)[i as int] == tasks[i as int]@);
        if !tasks[i].is_valid() {
            return false;
        }
        i += 1;
    }
    true
}

/// The stored text of the task list, as `save_tasks` writes it.
pub fn encode_tasks(tasks: &[Todo]) -> (r: String)
    requires
        all_wf(views(tasks@)),
    ensures
        r@ == tasks_json(views(tasks@)),
{
    let ghost ts = views(tasks@);
    let mut out: Vec<char> = Vec::new();
    out.push('[');
    let mut i: usize = 0;
    assert(ts.take(0) =~= Seq::<TodoView>::empty());
    while i < tasks.len()
        invariant
            i <= tasks.len(),
            ts == views(tasks@),
            all_wf(ts),
            out@ == seq!['['] + join_json(ts.take(i as int)),
        decreases tasks.len() - i,
    {
        assert(ts[i as int] == tasks[i as int]@);
        let ghost before = out@;
        if i > 0 {
            push_sep(&mut out);
        }
        let v = json_chars(&tasks[i]);
        push_chars(&mut out, &v);
        assert(ts.take(i + 1).drop_last() =~= ts.take(i as int));
        assert(ts.take(i + 1).last() == ts[i as int]);
        if i == 0 {
            assert(out@ =~= seq!['['] + join_json(ts.take(i + 1)));
        } else {
            assert(out@ =~= seq!['['] + join_json(ts.take(i + 1)));
        }
        i += 1;
    }
    assert(ts.take(tasks.len() as int) =~= ts);
    out.push(']');
    string_of(&out)
}

/// The text between the brackets of a stored list, once the white space
/// around it is removed; none if the brackets are missing.
pub open spec fn list_body(c: Seq<char>) -> Option<Seq<char>> {
    let t = strip(c, Pat::Whitespace);
    if t.len() >= 2 && t[0] == '[' && t.last() == ']' {
        Some(t.subrange(1, t.len() - 1))
    } else {
        None
    }
}

/// The separator of stored tasks as the reader looks for it.
pub open spec fn record_sep() -> Seq<char> {
    seq!['}', ',', ' ', '{']
}

/// A piece of the stored list, closed by `}` if it does not end with one.
pub open spec fn piece_record(p: Seq<char>) -> Seq<char> {
    if p.len() > 0 && p.last() == '}' {
        p
    } else {
        p.push('}')
    }
}

/// The stored text of each task in the list; none when the brackets hold
/// nothing at all, as in the text of an empty list.
pub open spec fn list_records(c: Seq<char>) -> Seq<Seq<char>> {
    match list_body(c) {
        Some(b) => if b.len() == 0 {
            Seq::empty()
        } else {
            split(b, record_sep()).map_values(|p: Seq<char>| piece_record(p))
        },
        None => Seq::empty(),
    }
}

/// The tasks that `decode_tasks` reads from `c`.
pub open spec fn decode_spec(c: Seq<char>) -> Seq<TodoView> {
    list_records(c).map_values(|r: Seq<char>| parse_todo(r))
}

/// Every stored task of `c` can be cut at both ends; the reader does not
/// fail on `c`.
pub open spec fn decodable(c: Seq<char>) -> bool {
    forall|i: int| 0 <= i < list_records(c).len() ==> json_sliceable(#[trigger] list_records(c)[i])
}

fn body_chars(c: &str) -> (r: Option<Vec<char>>)
    ensures
        match r {
            Some(b) => list_body(c@) == Some(b@),
            None => list_body(c@) is None,
        },
{
    let cs = chars_of(c);
    let t = strip_chars(&cs, Pat::Whitespace);
    let n = t.len();
    if n >= 2 && t[0] == '[' && t[n - 1] == ']' {
        Some(slice_chars(&t, 1, n - 1))
    } else {
        None
    }
}

fn record_chars(p: &Vec<char>) -> (r: Vec<char>)
    ensures
        r@ == piece_record(p@),
{
    let mut r = slice_chars(p, 0, p.len());
    assert(r@ =~= p@);
    if p.len() > 0 && p[p.len() - 1] == '}' {
        r
    } else {
        r.push('}');
        r
    }
}

fn records(c: &str) -> (r: Vec<Vec<char>>)
    ensures
        r.deep_view() == list_records(c@),
{
    match body_chars(c) {
        Some(b) => {
            if b.len() == 0 {
                return Vec::new();
            }
            let mut sep: Vec<char> = Vec::new();
            sep.push('}');
            sep.push(',');
            sep.push(' ');
            sep.push('{');
            assert(sep@ =~= record_sep());
            let pieces = split_chars(&b, &sep);
            let ghost ps = pieces.deep_view();
            let mut out: Vec<Vec<char>> = Vec::new();
            let mut i: usize = 0;
            while i < pieces.len()
                invariant
                    i <= pieces.len(),
                    ps == pieces.deep_view(),
                    ps == split(b@, record_sep()),
                    out.deep_view() =~= ps.take(i as int).map_values(
                        |p: Seq<char>| piece_record(p),
                    ),
                decreases pieces.len() - i,
            {
                assert(pieces[i as int].deep_view() =~= pieces[i as int]@);
                let rec = record_chars(&pieces[i]);
                let ghost before = out.deep_view();
                assert(rec.deep_view() =~= rec@);
                out.push(rec);
                assert(out.deep_view() =~= before.push(rec@));
                i += 1;
            }
            assert(ps.take(pieces.len() as int) =~= ps);
            out
        },
        None => Vec::new(),
    }
}

/// Whether `decode_tasks` can read `content`.
pub fn can_decode(content: &str) -> (r: bool)
    ensures
        r == decodable(content@),
{
    let recs = records(content);
    let ghost rs = recs.deep_view();
    let mut i: usize = 0;
    while i < recs.len()
        invariant
            i <= recs.len(),
            rs == recs.deep_view(),
            rs == list_records(content@),
            forall|k: int| 0 <= k < i ==> json_sliceable(#[trigger] rs[k]),
        decreases recs.len() - i,
    {
        assert(recs[i as int].deep_view() =~= recs[i as int]@);
        let n = recs[i].len();
        if !(n >= 2 && (recs[i][0] as u32) < 128 && (recs[i][n - 1] as u32) < 128) {
            assert(!json_sliceable(rs[i as int]));
            return false;
        }
        i += 1;
    }
    true
}

/// Reads the stored task list, as `load_tasks` does with the file's text.
pub fn decode_tasks(content: &str) -> (r: Vec<Todo>)
    requires
        decodable(content@),
    ensures
        views(r@) == decode_spec(content@),
        all_wf(views(r@)),
{
    let recs = records(content);
    let ghost rs = recs.deep_view();
    let mut out: Vec<Todo> = Vec::new();
    let mut i: usize = 0;
    while i < recs.len()
        invariant
            i <= recs.len(),
            rs == recs.deep_view(),
            rs == list_records(content@),
            decodable(content@),
            views(out@) =~= rs.take(i as int).map_values(|r: Seq<char>| parse_todo(r)),
            all_wf(views(out@)),
        decreases recs.len() - i,
    {
        assert(recs[i as int].deep_view() =~= recs[i as int]@);
        assert(json_sliceable(rs[i as int]));
        let s = string_of(&recs[i]);
        let t = from_json(s.as_str());
        let ghost before = out@;
        out.push(t);
        assert(views(out@) =~= views(before).push(t@));
        i += 1;
    }
    assert(rs.take(recs.len() as int) =~= rs);
    out
}

// ---------------------------------------------------------------------------
// A row of the listing
// ---------------------------------------------------------------------------

/// The row that the listing shows for a task: the id in 4 columns, the title
/// and each time in 20, then the state, separated by spaces.
pub open spec fn row_text(t: TodoView) -> Seq<char> {
    pad_right(decimal(t.id as nat), 4) + seq![' '] + pad_right(t.title, 20) + seq![' ']
        + pad_right(time_text(t.creat_time), 20) + seq![' '] + pad_right(
        time_text(t.start_time),
        20,
    ) + seq![' '] + pad_right(time_text(t.finish_time), 20) + seq![' '] + pad_right(
        time_text(t.scheduled_time),
        20,
    ) + seq![' '] + pad_right(time_text(t.deadline_time), 20) + seq![' '] + t.state.name()
}

/// Each value of the row fits its column: the id in 4 characters, the title
/// and each time in 20.
pub open spec fn row_fits(t: TodoView) -> bool {
    &&& decimal(t.id as nat).len() <= 4
    &&& t.title.len() <= 20
    &&& time_text(t.creat_time).len() <= 20
    &&& time_text(t.start_time).len() <= 20
    &&& time_text(t.finish_time).len() <= 20
    &&& time_text(t.scheduled_time).len() <= 20
    &&& time_text(t.deadline_time).len() <= 20
}

/// The row `r` shows, column by column, the id in columns 0..4, the title in
/// 5..25, the creation time in 26..46, the start time in 47..67, the finish
/// time in 68..88, the scheduled time in 89..109, the deadline in 110..130,
/// each padded with spaces and followed by one, then the state from 131 on.
pub open spec fn row_columns(r: Seq<char>, t: TodoView) -> bool {
    &&& r.len() == 131 + t.state.name().len()
    &&& r.subrange(0, 4) == pad_right(decimal(t.id as nat), 4)
    &&& r.subrange(5, 25) == pad_right(t.title, 20)
    &&& r.subrange(26, 46) == pad_right(time_text(t.creat_time), 20)
    &&& r.subrange(47, 67) == pad_right(time_text(t.start_time), 20)
    &&& r.subrange(68, 88) == pad_right(time_text(t.finish_time), 20)
    &&& r.subrange(89, 109) == pad_right(time_text(t.scheduled_time), 20)
    &&& r.subrange(110, 130) == pad_right(time_text(t.deadline_time), 20)
    &&& r.subrange(131, r.len() as int) == t.state.name()
    &&& r[4] == ' ' && r[25] == ' ' && r[46] == ' ' && r[67] == ' '
    &&& r[88] == ' ' && r[109] == ' ' && r[130] == ' '
}

fn push_padded(out: &mut Vec<char>, v: &Vec<char>, w: usize)
    ensures
        final(out)@ == old(out)@ + pad_right(v@, w as nat) + seq![' '],
{
    let p = pad_chars(v, w);
    push_chars(out, &p);
    out.push(' ');
    assert(out@ =~= old(out)@ + pad_right(v@, w as nat) + seq![' ']);
}

/// The row that the listing shows for `task`.
pub fn list_row(task: &Todo) -> (r: String)
    requires
        task@.wf(),
    ensures
        r@ == row_text(task@),
        row_fits(task@) ==> row_columns(r@, task@),
{
    let mut out: Vec<char> = Vec::new();
    let idv = decimal_chars(task.id);
    push_padded(&mut out, &idv, 4);
    let title = chars_of(task.title.as_str());
    push_padded(&mut out, &title, 20);
    let v = time_chars(&task.creat_time);
    push_padded(&mut out, &v, 20);
    let v = time_chars(&task.start_time);
    push_padded(&mut out, &v, 20);
    let v = time_chars(&task.finish_time);
    push_padded(&mut out, &v, 20);
    let v = time_chars(&task.scheduled_time);
    push_padded(&mut out, &v, 20);
    let v = time_chars(&task.deadline_time);
    push_padded(&mut out, &v, 20);
    push_str(&mut out, task.state.name_str());
    assert(out@ =~= row_text(task@));
    proof {
        if row_fits(task@) {
            crate::laws::law_row_columns(task@);
        }
    }
    string_of(&out)
}

// ---------------------------------------------------------------------------
// Checking a date and time typed on the command line
// ---------------------------------------------------------------------------

/// The format of dates and times on the command line.
pub open spec fn input_time_fmt() -> Seq<char> {
    "%Y-%m-%d_%H:%M:%S"@
}

/// `s` itself if it reads as a date and time, else the message that names
/// the reason and repeats `s`.
pub fn verification_time(s: &str) -> (r: Result<String, String>)
    ensures
        match chrono_datetime_parse(s@, input_time_fmt()) {
            Ok(_) => r matches Ok(v) && v@ == s@,
            Err(e) => r matches Err(m) && m@ == "Date format error: "@ + e + " (You entered: '"@
                + s@ + "')"@,
        },
{
    match parse_datetime(s, "%Y-%m-%d_%H:%M:%S") {
        Ok(_) => {
            let v = chars_of(s);
            Ok(string_of(&v))
        },
        Err(e) => {
            let mut m: Vec<char> = Vec::new();
            push_str(&mut m, "Date format error: ");
            push_str(&mut m, e.as_str());
            push_str(&mut m, " (You entered: '");
            push_str(&mut m, s);
            push_str(&mut m, "')");
            Err(string_of(&m))
        },
    }
}

} // verus!
