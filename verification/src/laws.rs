//! What holds of the library as a whole: the stored text of tasks reads
//! back as the tasks, numbers read back as written, and what the commands
//! keep and change.
use crate::commands::{
    done_view, edited_view, first_index, ids_increasing, lemma_index_from, pending_view, replace_at, shown,
    shown_indices, started_view, without_id, Edits, ListFilter,
};
use crate::calendar::{datetime_text, shown_as};
use crate::model::{opt_wf, DateTime, State, TodoView};
use crate::time_facts::{lemma_text_chars, lemma_text_injective};
use crate::utils::next_id_spec;
use crate::split_facts::{
    join_sep, lemma_no_match_before_first_char, lemma_split_concat, lemma_split_join,
    lemma_split_whole, lemma_strip_end_snoc, lemma_strip_none, lemma_strip_start_cons, no_match,
};
use crate::store::{
    all_wf, apply_field, row_columns, row_fits, row_text, clean_part, field_parts, field_text, fields_from, initial_fields, json_body,
    json_inner, parse_todo, read_time, state_of, time_text, todo_json, Fields,
};
use crate::text::{
    all_digits, pad_right, decimal, digit_char, digit_value, digits_value, is_digit, is_ws, parse_u32_spec, split, strip,
    Pat,
};
use vstd::prelude::*;

verus! {

// ---------------------------------------------------------------------------
// Numbers
// ---------------------------------------------------------------------------

/// The decimal text of `n` is non-empty, all digits, and writes `n`.
pub proof fn lemma_decimal(n: nat)
    ensures
        decimal(n).len() > 0,
        all_digits(decimal(n)),
        digits_value(decimal(n)) == n,
    decreases n,
{
    if n < 10 {
        assert(is_digit(digit_char(n as int)));
        assert(digit_value(digit_char(n as int)) == n);
        assert(decimal(n).drop_last() =~= Seq::<char>::empty());
        assert(decimal(n).last() == digit_char(n as int));
        assert(digits_value(decimal(n)) == digits_value(Seq::<char>::empty()) * 10 + n);
    } else {
        lemma_decimal(n / 10);
        let d = decimal(n);
        assert(d.drop_last() =~= decimal(n / 10));
        assert(is_digit(digit_char((n % 10) as int)));
        assert(digit_value(digit_char((n % 10) as int)) == n % 10);
        assert(digits_value(d) == digits_value(decimal(n / 10)) * 10 + n % 10);
        assert(n == (n / 10) * 10 + n % 10) by (nonlinear_arith);
        assert forall|i: int| 0 <= i < d.len() implies is_digit(#[trigger] d[i]) by {
            if i < d.len() - 1 {
                assert(d[i] == decimal(n / 10)[i]);
            }
        }
    }
}

/// A number written in decimal reads back as itself.
pub proof fn law_decimal_reads_back(n: u32)
    ensures
        parse_u32_spec(decimal(n as nat)) == Some(n),
{
    lemma_decimal(n as nat);
    let d = decimal(n as nat);
    assert(is_digit(d[0]));
}

// ---------------------------------------------------------------------------
// Texts that a stored field keeps as they are
// ---------------------------------------------------------------------------

/// A field value that reads back as itself: no `,`, no `: `, and neither
/// white space nor `"` at either end.
pub open spec fn field_safe(v: Seq<char>) -> bool {
    &&& forall|i: int| 0 <= i < v.len() ==> #[trigger] v[i] != ','
    &&& no_match(v, seq![':', ' '])
    &&& v.len() > 0 ==> !is_ws(v[0]) && v[0] != '"' && !is_ws(v.last()) && v.last() != '"'
}

/// A field name: lower-case letters and `_`.
pub open spec fn plain_key(k: Seq<char>) -> bool {
    &&& k.len() > 0
    &&& forall|i: int| 0 <= i < k.len() ==> ('a' <= #[trigger] k[i] && k[i] <= 'z') || k[i] == '_'
}

/// The stored text of an optional time reads back as that time and keeps as
/// it is in a field.
pub open spec fn time_reads_back(t: Option<DateTime>) -> bool {
    field_safe(time_text(t)) && read_time(time_text(t)) == t
}

/// Every field of the task keeps as it is in its stored text, and each of
/// its times reads back.
pub open spec fn fields_read_back(t: TodoView) -> bool {
    &&& t.wf()
    &&& field_safe(t.title)
    &&& time_reads_back(t.creat_time)
    &&& time_reads_back(t.start_time)
    &&& time_reads_back(t.finish_time)
    &&& time_reads_back(t.scheduled_time)
    &&& time_reads_back(t.deadline_time)
}

/// A task whose stored text reads back as itself: its times exist in the
/// calendar, and its title has no `,` and no `: `, and neither white space nor
/// `"` at either end.
pub open spec fn storable(t: TodoView) -> bool {
    &&& t.wf()
    &&& field_safe(t.title)
}

proof fn lemma_time_reads_back(t: Option<DateTime>)
    requires
        opt_wf(t),
    ensures
        time_reads_back(t),
{
    match t {
        Some(d) => {
            let v = datetime_text(d);
            lemma_text_chars(d);
            assert forall|m: int| !crate::text::matches_at(v, seq![':', ' '], m) by {
                if crate::text::matches_at(v, seq![':', ' '], m) {
                    let w = v.subrange(m, m + 2);
                    assert(w[0] == ':' && w[1] == ' ');
                    assert(v[m] == ':');
                    assert(is_digit(v[m + 1]));
                }
            }
            assert(shown_as(d, v));
            let d0 = choose|x: DateTime| shown_as(x, v);
            lemma_text_injective(d0, d, v);
        },
        None => {
            reveal_strlit("None");
            let v = "None"@;
            assert forall|i: int| 0 <= i < v.len() implies v[i] != ',' && v[i] != ':' by {}
            lemma_no_match_before_first_char(v, seq![':', ' ']);
            assert forall|x: DateTime| !shown_as(x, v) by {
                if shown_as(x, v) {
                    lemma_text_chars(x);
                    assert(datetime_text(x)[0] == v[0]);
                }
            }
        },
    }
}

proof fn lemma_storable(t: TodoView)
    requires
        storable(t),
    ensures
        fields_read_back(t),
{
    lemma_time_reads_back(t.creat_time);
    lemma_time_reads_back(t.start_time);
    lemma_time_reads_back(t.finish_time);
    lemma_time_reads_back(t.scheduled_time);
    lemma_time_reads_back(t.deadline_time);
}

proof fn lemma_digits_field_safe(n: nat)
    ensures
        field_safe(decimal(n)),
{
    lemma_decimal(n);
    let d = decimal(n);
    assert forall|i: int| 0 <= i < d.len() implies #[trigger] d[i] != ':' by {
        assert(is_digit(d[i]));
    }
    assert forall|i: int| 0 <= i < d.len() implies #[trigger] d[i] != ',' by {
        assert(is_digit(d[i]));
    }
    lemma_no_match_before_first_char(d, seq![':', ' ']);
    assert(is_digit(d[0]));
    assert(is_digit(d[d.len() - 1]));
}

proof fn lemma_state_names_differ()
    ensures
        "Pending"@ != "Done"@,
        "Ongoing"@ != "Done"@,
        "Ongoing"@ != "Pending"@,
        "Notstarted"@ != "Done"@,
        "Notstarted"@ != "Pending"@,
        "Notstarted"@ != "Ongoing"@,
{
    reveal_strlit("Done");
    reveal_strlit("Pending");
    reveal_strlit("Ongoing");
    reveal_strlit("Notstarted");
    assert("Pending"@.len() == 7);
    assert("Done"@.len() == 4);
    assert("Ongoing"@.len() == 7);
    assert("Notstarted"@.len() == 10);
    assert("Ongoing"@[0] != "Pending"@[0]);
}

proof fn lemma_state_name(s: State)
    ensures
        field_safe(s.name()),
        state_of(s.name()) == s,
{
    lemma_state_names_differ();
    let n = s.name();
    match s {
        State::Done => {
            reveal_strlit("Done");
        },
        State::Pending => {
            reveal_strlit("Pending");
        },
        State::Ongoing => {
            reveal_strlit("Ongoing");
        },
        State::Notstarted => {
            reveal_strlit("Notstarted");
        },
    }
    assert forall|i: int| 0 <= i < n.len() implies #[trigger] n[i] != ':' && n[i] != ',' by {}
    lemma_no_match_before_first_char(n, seq![':', ' ']);
}

proof fn lemma_keys()
    ensures
        plain_key("id"@),
        plain_key("title"@),
        plain_key("creat_time"@),
        plain_key("start_time"@),
        plain_key("finish_time"@),
        plain_key("scheduled_time"@),
        plain_key("deadline"@),
        plain_key("state"@),
        "title"@ != "id"@,
        "creat_time"@ != "id"@,
        "creat_time"@ != "title"@,
        "start_time"@ != "id"@,
        "start_time"@ != "title"@,
        "start_time"@ != "creat_time"@,
        "finish_time"@ != "id"@,
        "finish_time"@ != "title"@,
        "finish_time"@ != "creat_time"@,
        "finish_time"@ != "start_time"@,
        "scheduled_time"@ != "id"@,
        "scheduled_time"@ != "title"@,
        "scheduled_time"@ != "creat_time"@,
        "scheduled_time"@ != "start_time"@,
        "scheduled_time"@ != "finish_time"@,
        "deadline"@ != "id"@,
        "deadline"@ != "title"@,
        "deadline"@ != "creat_time"@,
        "deadline"@ != "start_time"@,
        "deadline"@ != "finish_time"@,
        "deadline"@ != "scheduled_time"@,
        "state"@ != "id"@,
        "state"@ != "title"@,
        "state"@ != "creat_time"@,
        "state"@ != "start_time"@,
        "state"@ != "finish_time"@,
        "state"@ != "scheduled_time"@,
        "state"@ != "deadline"@,
{
    reveal_strlit("id");
    reveal_strlit("title");
    reveal_strlit("creat_time");
    reveal_strlit("start_time");
    reveal_strlit("finish_time");
    reveal_strlit("scheduled_time");
    reveal_strlit("deadline");
    reveal_strlit("state");
    assert("creat_time"@[0] != "start_time"@[0]);
    assert("state"@[0] != "title"@[0]);
}

// ---------------------------------------------------------------------------
// One field
// ---------------------------------------------------------------------------

proof fn lemma_clean_safe(v: Seq<char>)
    requires
        field_safe(v),
    ensures
        clean_part(v) == v,
{
    lemma_strip_none(v, Pat::Whitespace);
    lemma_strip_none(v, Pat::Char('"'));
}

proof fn lemma_clean_quoted_key(k: Seq<char>)
    requires
        plain_key(k),
    ensures
        clean_part(seq!['"'] + k + seq!['"']) == k,
        clean_part(seq![' ', '"'] + k + seq!['"']) == k,
        clean_part(k + seq!['"']) == k,
{
    assert(('a' <= k[0] && k[0] <= 'z') || k[0] == '_');
    assert(('a' <= k[k.len() - 1] && k[k.len() - 1] <= 'z') || k[k.len() - 1] == '_');
    let q = seq!['"'] + k + seq!['"'];
    lemma_strip_none(q, Pat::Whitespace);
    assert(q =~= seq!['"'] + (k + seq!['"']));
    lemma_strip_start_cons('"', k + seq!['"'], Pat::Char('"'));
    lemma_strip_none(k + seq!['"'], Pat::Whitespace);
    lemma_strip_end_snoc(k, '"', Pat::Char('"'));
    lemma_strip_none(k, Pat::Char('"'));
    assert(strip(q, Pat::Whitespace) == q);
    let sq = seq![' ', '"'] + k + seq!['"'];
    assert(sq =~= seq![' '] + q);
    lemma_strip_start_cons(' ', q, Pat::Whitespace);
    assert(strip(sq, Pat::Whitespace) == q);
}

/// The three shapes in which a field stands in a piece of a stored task.
pub open spec fn field_shape(k: Seq<char>, v: Seq<char>, shape: int) -> Seq<char> {
    if shape == 0 {
        field_text(k, v)
    } else if shape == 1 {
        seq![' '] + field_text(k, v)
    } else {
        field_text(k, v).drop_first()
    }
}

proof fn lemma_field_parts(k: Seq<char>, v: Seq<char>, shape: int)
    requires
        plain_key(k),
        field_safe(v),
    ensures
        field_parts(field_shape(k, v, shape)) == seq![k, v],
        forall|i: int|
            0 <= i < field_shape(k, v, shape).len() ==> #[trigger] field_shape(k, v, shape)[i]
                != ',',
        field_shape(k, v, shape).len() > 0,
{
    let sep = seq![':', ' '];
    let a = if shape == 0 {
        seq!['"'] + k + seq!['"']
    } else if shape == 1 {
        seq![' ', '"'] + k + seq!['"']
    } else {
        k + seq!['"']
    };
    let s = field_shape(k, v, shape);
    assert(s =~= a + sep + v);
    assert forall|i: int| 0 <= i < a.len() implies a[i] != sep[0] && a[i] != ',' by {
        if shape == 0 {
            if 0 < i < a.len() - 1 {
                assert(a[i] == k[i - 1]);
            }
        } else if shape == 1 {
            if 1 < i < a.len() - 1 {
                assert(a[i] == k[i - 2]);
            }
        } else {
            if i < a.len() - 1 {
                assert(a[i] == k[i]);
            }
        }
    }
    lemma_no_match_before_first_char(a, sep);
    lemma_split_concat(a, sep, v);
    lemma_split_whole(v, sep);
    lemma_clean_safe(v);
    lemma_clean_quoted_key(k);
    assert(split(s, sep) =~= seq![a, v]);
    assert(field_parts(s) =~= seq![clean_part(a), clean_part(v)]);
    assert forall|i: int| 0 <= i < s.len() implies #[trigger] s[i] != ',' by {
        if i < a.len() {
        } else if i >= a.len() + 2 {
            assert(s[i] == v[i - a.len() - 2]);
        }
    }
}

// ---------------------------------------------------------------------------
// One task
// ---------------------------------------------------------------------------

/// The fields of a stored task as the reader cuts them at `,`; `shape` is the
/// shape of the first one.
pub open spec fn body_segments(t: TodoView, shape: int) -> Seq<Seq<char>> {
    seq![
        field_shape("id"@, decimal(t.id as nat), shape),
        field_shape("title"@, t.title, 1),
        field_shape("creat_time"@, time_text(t.creat_time), 1),
        field_shape("start_time"@, time_text(t.start_time), 1),
        field_shape("finish_time"@, time_text(t.finish_time), 1),
        field_shape("scheduled_time"@, time_text(t.scheduled_time), 1),
        field_shape("deadline"@, time_text(t.deadline_time), 1),
        field_shape("state"@, t.state.name(), 1),
    ]
}

#[verifier::spinoff_prover]
#[verifier::rlimit(100)]
proof fn lemma_body_join(t: TodoView)
    ensures
        json_body(t) == join_sep(body_segments(t, 0), seq![',']),
        json_body(t).drop_first() == join_sep(body_segments(t, 2), seq![',']),
{
    reveal_with_fuel(join_sep, 9);
    reveal(json_body);
    assert(json_body(t) =~= join_sep(body_segments(t, 0), seq![',']));
    assert(json_body(t).drop_first() =~= join_sep(body_segments(t, 2), seq![',']));
}

#[verifier::spinoff_prover]
#[verifier::rlimit(50)]
proof fn lemma_body_fields(t: TodoView, shape: int)
    requires
        fields_read_back(t),
        shape == 0 || shape == 2,
    ensures
        split(join_sep(body_segments(t, shape), seq![',']), seq![',']) == body_segments(t, shape),
        fields_from(initial_fields(), body_segments(t, shape)) == (Fields {
            id: t.id,
            title: t.title,
            creat_time: t.creat_time,
            start_time: t.start_time,
            finish_time: t.finish_time,
            scheduled_time: t.scheduled_time,
            deadline_time: t.deadline_time,
            state: t.state.name(),
        }),
{
    let segs = body_segments(t, shape);
    lemma_keys();
    lemma_digits_field_safe(t.id as nat);
    law_decimal_reads_back(t.id);
    lemma_state_name(t.state);
    lemma_field_parts("id"@, decimal(t.id as nat), shape);
    lemma_field_parts("title"@, t.title, 1);
    lemma_field_parts("creat_time"@, time_text(t.creat_time), 1);
    lemma_field_parts("start_time"@, time_text(t.start_time), 1);
    lemma_field_parts("finish_time"@, time_text(t.finish_time), 1);
    lemma_field_parts("scheduled_time"@, time_text(t.scheduled_time), 1);
    lemma_field_parts("deadline"@, time_text(t.deadline_time), 1);
    lemma_field_parts("state"@, t.state.name(), 1);
    assert forall|i: int| 0 <= i < segs.len() implies crate::split_facts::no_match_before(
        #[trigger] segs[i],
        seq![','],
    ) && no_match(segs[i], seq![',']) by {
        let g = segs[i];
        assert(forall|j: int| 0 <= j < g.len() ==> g[j] != ',');
        lemma_no_match_before_first_char(g, seq![',']);
    }
    lemma_split_join(segs, seq![',']);
    let f0 = initial_fields();
    let f1 = apply_field(f0, segs[0]);
    assert(f1 == Fields { id: t.id, ..f0 });
    let f2 = apply_field(f1, segs[1]);
    assert(f2 == Fields { title: t.title, ..f1 });
    let f3 = apply_field(f2, segs[2]);
    assert(f3 == Fields { creat_time: t.creat_time, ..f2 });
    let f4 = apply_field(f3, segs[3]);
    assert(f4 == Fields { start_time: t.start_time, ..f3 });
    let f5 = apply_field(f4, segs[4]);
    assert(f5 == Fields { finish_time: t.finish_time, ..f4 });
    let f6 = apply_field(f5, segs[5]);
    assert(f6 == Fields { scheduled_time: t.scheduled_time, ..f5 });
    let f7 = apply_field(f6, segs[6]);
    assert(f7 == Fields { deadline_time: t.deadline_time, ..f6 });
    let f8 = apply_field(f7, segs[7]);
    assert(f8 == Fields { state: t.state.name(), ..f7 });
    reveal_with_fuel(fields_from, 9);
    assert(fields_from(f8, segs.skip(8)) == f8) by {
        assert(segs.skip(8).len() == 0);
    }
    assert(segs.drop_first() =~= segs.skip(1));
    assert(segs.skip(1).drop_first() =~= segs.skip(2));
    assert(segs.skip(2).drop_first() =~= segs.skip(3));
    assert(segs.skip(3).drop_first() =~= segs.skip(4));
    assert(segs.skip(4).drop_first() =~= segs.skip(5));
    assert(segs.skip(5).drop_first() =~= segs.skip(6));
    assert(segs.skip(6).drop_first() =~= segs.skip(7));
    assert(segs.skip(7).drop_first() =~= segs.skip(8));
}

/// The view of `fields` read from a task, with its state named.
pub open spec fn fields_view(f: Fields) -> TodoView {
    TodoView {
        id: f.id,
        title: f.title,
        creat_time: f.creat_time,
        start_time: f.start_time,
        finish_time: f.finish_time,
        scheduled_time: f.scheduled_time,
        deadline_time: f.deadline_time,
        state: state_of(f.state),
    }
}

/// The stored text of a task, and that text without its first field's
/// opening quote, read back as the task.
pub proof fn lemma_body_reads_back(t: TodoView)
    requires
        fields_read_back(t),
    ensures
        fields_view(fields_from(initial_fields(), split(json_body(t), seq![',']))) == t,
        fields_view(fields_from(initial_fields(), split(json_body(t).drop_first(), seq![','])))
            == t,
{
    lemma_body_join(t);
    lemma_body_fields(t, 0);
    lemma_body_fields(t, 2);
    lemma_state_name(t.state);
}

/// The stored text of a task reads back as the task.
pub proof fn law_task_reads_back(t: TodoView)
    requires
        storable(t),
    ensures
        parse_todo(todo_json(t)) == t,
{
    lemma_storable(t);
    lemma_body_reads_back(t);
    assert(json_inner(todo_json(t)) =~= json_body(t));
}

// ---------------------------------------------------------------------------
// The whole list
// ---------------------------------------------------------------------------

/// Every `,` of `s` is followed, one character further, by `"`.
pub open spec fn commas_before_quotes(s: Seq<char>) -> bool {
    forall|q: int|
        0 <= q < s.len() && #[trigger] s[q] == ',' ==> q + 2 < s.len() && s[q + 2] == '"'
}

proof fn lemma_join_commas(segs: Seq<Seq<char>>)
    requires
        segs.len() >= 1,
        forall|i: int, j: int|
            0 <= i < segs.len() && 0 <= j < segs[i].len() ==> #[trigger] segs[i][j] != ',',
        forall|i: int| 1 <= i < segs.len() ==> (#[trigger] segs[i]).len() >= 2 && segs[i][1] == '"',
    ensures
        commas_before_quotes(join_sep(segs, seq![','])),
        join_sep(segs, seq![',']).len() >= segs[0].len(),
        forall|j: int| 0 <= j < segs[0].len() ==> join_sep(segs, seq![','])[j] == segs[0][j],
    decreases segs.len(),
{
    let s = join_sep(segs, seq![',']);
    if segs.len() == 1 {
        assert forall|q: int| 0 <= q < s.len() && #[trigger] s[q] == ',' implies q + 2 < s.len()
            && s[q + 2] == '"' by {
            assert(segs[0][q] != ',');
        }
    } else {
        let rest = segs.drop_first();
        assert forall|i: int, j: int| 0 <= i < rest.len() && 0 <= j < rest[i].len() implies #[trigger] rest[i][j] != ',' by {
            assert(rest[i] == segs[i + 1]);
        }
        assert forall|i: int| 1 <= i < rest.len() implies (#[trigger] rest[i]).len() >= 2
            && rest[i][1] == '"' by {
            assert(rest[i] == segs[i + 1]);
        }
        lemma_join_commas(rest);
        let a = segs[0];
        let b = join_sep(rest, seq![',']);
        assert(s == a + seq![','] + b);
        assert(rest[0] == segs[1]);
        assert(b[1] == segs[1][1]);
        assert forall|q: int| 0 <= q < s.len() && #[trigger] s[q] == ',' implies q + 2 < s.len()
            && s[q + 2] == '"' by {
            if q < a.len() {
                assert(s[q] == a[q]);
            } else if q == a.len() {
                assert(s[q + 2] == b[1]);
            } else {
                assert(s[q] == b[q - a.len() - 1]);
                assert(s[q + 2] == b[q - a.len() + 1]);
            }
        }
    }
}

proof fn lemma_body_commas(t: TodoView)
    requires
        fields_read_back(t),
    ensures
        commas_before_quotes(json_body(t)),
        json_body(t).len() >= 2,
        json_body(t)[0] == '"',
        json_body(t).last() != '}',
{
    lemma_body_join(t);
    let segs = body_segments(t, 0);
    lemma_keys();
    lemma_digits_field_safe(t.id as nat);
    lemma_state_name(t.state);
    lemma_field_parts("id"@, decimal(t.id as nat), 0);
    lemma_field_parts("title"@, t.title, 1);
    lemma_field_parts("creat_time"@, time_text(t.creat_time), 1);
    lemma_field_parts("start_time"@, time_text(t.start_time), 1);
    lemma_field_parts("finish_time"@, time_text(t.finish_time), 1);
    lemma_field_parts("scheduled_time"@, time_text(t.scheduled_time), 1);
    lemma_field_parts("deadline"@, time_text(t.deadline_time), 1);
    lemma_field_parts("state"@, t.state.name(), 1);
    assert forall|i: int| 1 <= i < segs.len() implies (#[trigger] segs[i]).len() >= 2 && segs[i][1]
        == '"' by {}
    lemma_join_commas(segs);
    assert(segs[0][0] == '"');
    let n = t.state.name();
    reveal_strlit("Done");
    reveal_strlit("Pending");
    reveal_strlit("Ongoing");
    reveal_strlit("Notstarted");
    assert(n.last() != '}');
    assert(json_body(t).last() == n.last()) by {
        reveal(json_body);
    }
}

/// No occurrence of the separator of stored tasks starts in `p` followed by it.
proof fn lemma_commas_no_match_before(p: Seq<char>)
    requires
        commas_before_quotes(p),
    ensures
        crate::split_facts::no_match_before(p, crate::store::record_sep()),
{
    let sep = crate::store::record_sep();
    assert forall|m: int| 0 <= m < p.len() implies !crate::text::matches_at(
        #[trigger] (p + sep),
        sep,
        m,
    ) by {
        let s = p + sep;
        if crate::text::matches_at(s, sep, m) {
            let w = s.subrange(m, m + 4);
            assert(w[1] == ',' && w[3] == '{');
            assert(s[m + 1] == ',');
            if m + 1 < p.len() {
                assert(p[m + 1] == ',');
                assert(s[m + 3] == p[m + 3]);
            }
        }
    }
}

/// No occurrence of the separator of stored tasks in `p` closed by `}`.
proof fn lemma_commas_no_match(p: Seq<char>)
    requires
        commas_before_quotes(p),
    ensures
        no_match(p + seq!['}'], crate::store::record_sep()),
{
    let sep = crate::store::record_sep();
    let s = p + seq!['}'];
    assert forall|m: int| !crate::text::matches_at(s, sep, m) by {
        if crate::text::matches_at(s, sep, m) {
            let w = s.subrange(m, m + 4);
            assert(w[1] == ',' && w[3] == '{');
            assert(s[m + 1] == ',');
            assert(p[m + 1] == ',');
            assert(s[m + 3] == p[m + 3]);
        }
    }
}

/// The stored texts of the tasks after the first `{`: each body, then `}, {`
/// before the next, and `}` after the last.
pub open spec fn list_tail(ts: Seq<TodoView>) -> Seq<char>
    decreases ts.len(),
{
    if ts.len() <= 1 {
        if ts.len() == 1 {
            json_body(ts[0]) + seq!['}']
        } else {
            Seq::empty()
        }
    } else {
        json_body(ts[0]) + crate::store::record_sep() + list_tail(ts.drop_first())
    }
}

proof fn lemma_list_tail_push(ts: Seq<TodoView>, t: TodoView)
    requires
        ts.len() >= 1,
    ensures
        list_tail(ts.push(t)) == list_tail(ts) + seq![',', ' ', '{'] + json_body(t) + seq!['}'],
    decreases ts.len(),
{
    let sep = crate::store::record_sep();
    if ts.len() == 1 {
        assert(ts.push(t).drop_first() =~= seq![t]);
        assert(ts.push(t)[0] == ts[0]);
        assert(seq![t][0] == t);
        assert(list_tail(seq![t]) == json_body(t) + seq!['}']);
        assert(list_tail(ts) == json_body(ts[0]) + seq!['}']);
        assert(list_tail(ts.push(t)) =~= list_tail(ts) + seq![',', ' ', '{'] + json_body(t)
            + seq!['}']);
    } else {
        assert(ts.push(t).drop_first() =~= ts.drop_first().push(t));
        lemma_list_tail_push(ts.drop_first(), t);
        assert(list_tail(ts.push(t)) =~= list_tail(ts) + seq![',', ' ', '{'] + json_body(t)
            + seq!['}']);
    }
}

proof fn lemma_join_json_tail(ts: Seq<TodoView>)
    requires
        ts.len() >= 1,
    ensures
        crate::store::join_json(ts) == seq!['{'] + list_tail(ts),
    decreases ts.len(),
{
    if ts.len() == 1 {
        assert(crate::store::join_json(ts) =~= seq!['{'] + list_tail(ts));
    } else {
        let init = ts.drop_last();
        lemma_join_json_tail(init);
        assert(init.push(ts.last()) =~= ts);
        lemma_list_tail_push(init, ts.last());
        assert(crate::store::join_json(ts) =~= seq!['{'] + list_tail(ts));
    }
}

/// The pieces of the stored list between separators, before each is closed.
pub open spec fn tail_pieces(ts: Seq<TodoView>) -> Seq<Seq<char>> {
    Seq::new(
        ts.len(),
        |i: int|
            if i == ts.len() - 1 {
                json_body(ts[i]) + seq!['}']
            } else {
                json_body(ts[i])
            },
    )
}

proof fn lemma_split_tail(ts: Seq<TodoView>)
    requires
        ts.len() >= 1,
        forall|i: int| 0 <= i < ts.len() ==> fields_read_back(#[trigger] ts[i]),
    ensures
        split(list_tail(ts), crate::store::record_sep()) == tail_pieces(ts),
    decreases ts.len(),
{
    let sep = crate::store::record_sep();
    lemma_body_commas(ts[0]);
    if ts.len() == 1 {
        lemma_commas_no_match(json_body(ts[0]));
        lemma_split_whole(json_body(ts[0]) + seq!['}'], sep);
        assert(tail_pieces(ts) =~= seq![json_body(ts[0]) + seq!['}']]);
    } else {
        let rest = ts.drop_first();
        assert forall|i: int| 0 <= i < rest.len() implies fields_read_back(#[trigger] rest[i]) by {
            assert(rest[i] == ts[i + 1]);
        }
        lemma_split_tail(rest);
        lemma_commas_no_match_before(json_body(ts[0]));
        lemma_split_concat(json_body(ts[0]), sep, list_tail(rest));
        assert(tail_pieces(ts) =~= seq![json_body(ts[0])] + tail_pieces(rest));
    }
}

/// The pieces that the reader cuts from the stored list.
pub open spec fn list_pieces(ts: Seq<TodoView>) -> Seq<Seq<char>> {
    Seq::new(
        ts.len(),
        |i: int|
            (if i == 0 {
                seq!['{']
            } else {
                Seq::empty()
            }) + json_body(ts[i]) + (if i == ts.len() - 1 {
                seq!['}']
            } else {
                Seq::empty()
            }),
    )
}

proof fn lemma_split_list(ts: Seq<TodoView>)
    requires
        ts.len() >= 1,
        forall|i: int| 0 <= i < ts.len() ==> fields_read_back(#[trigger] ts[i]),
    ensures
        split(crate::store::join_json(ts), crate::store::record_sep()) == list_pieces(ts),
{
    let sep = crate::store::record_sep();
    lemma_join_json_tail(ts);
    lemma_body_commas(ts[0]);
    let b0 = json_body(ts[0]);
    assert(commas_before_quotes(seq!['{'] + b0)) by {
        let s = seq!['{'] + b0;
        assert forall|q: int| 0 <= q < s.len() && #[trigger] s[q] == ',' implies q + 2 < s.len()
            && s[q + 2] == '"' by {
            assert(s[q] == b0[q - 1]);
            assert(s[q + 2] == b0[q + 1]);
        }
    }
    if ts.len() == 1 {
        lemma_commas_no_match(seq!['{'] + b0);
        assert(seq!['{'] + list_tail(ts) =~= seq!['{'] + b0 + seq!['}']);
        lemma_split_whole(seq!['{'] + b0 + seq!['}'], sep);
        assert(list_pieces(ts) =~= seq![seq!['{'] + b0 + seq!['}']]);
    } else {
        let rest = ts.drop_first();
        assert forall|i: int| 0 <= i < rest.len() implies fields_read_back(#[trigger] rest[i]) by {
            assert(rest[i] == ts[i + 1]);
        }
        lemma_split_tail(rest);
        lemma_commas_no_match_before(seq!['{'] + b0);
        assert(seq!['{'] + list_tail(ts) =~= (seq!['{'] + b0) + sep + list_tail(rest));
        lemma_split_concat(seq!['{'] + b0, sep, list_tail(rest));
        assert(list_pieces(ts) =~= seq![seq!['{'] + b0] + tail_pieces(rest));
    }
}

/// A list of storable tasks, the empty list included, reads back from its
/// stored text as the same list, and the reader does not fail on it.
pub proof fn law_tasks_read_back(ts: Seq<TodoView>)
    requires
        forall|i: int| 0 <= i < ts.len() ==> storable(#[trigger] ts[i]),
    ensures
        crate::store::decodable(crate::store::tasks_json(ts)),
        crate::store::decode_spec(crate::store::tasks_json(ts)) == ts,
{
    let c = crate::store::tasks_json(ts);
    if ts.len() == 0 {
        assert(c =~= seq!['[', ']']);
        lemma_strip_none(c, Pat::Whitespace);
        assert(c.subrange(1, c.len() - 1) =~= Seq::<char>::empty());
        assert(crate::store::list_records(c) =~= Seq::<Seq<char>>::empty());
        assert(crate::store::decode_spec(c) =~= ts);
        return;
    }
    assert forall|i: int| 0 <= i < ts.len() implies fields_read_back(#[trigger] ts[i]) by {
        lemma_storable(ts[i]);
    }
    let sep = crate::store::record_sep();
    let j = crate::store::join_json(ts);
    assert(j[0] == '{' && j.last() == '}') by {
        if ts.len() == 1 {
        } else {
            assert(j == crate::store::join_json(ts.drop_last()) + seq![',', ' '] + todo_json(ts.last()));
            lemma_join_json_tail(ts.drop_last());
        }
    }
    lemma_strip_none(j, Pat::Whitespace);
    lemma_join_json_tail(ts);
    lemma_strip_none(c, Pat::Whitespace);
    assert(c.subrange(1, c.len() - 1) =~= crate::store::join_json(ts));
    assert(crate::store::list_body(c) == Some(crate::store::join_json(ts)));
    lemma_split_list(ts);
    let recs = crate::store::list_records(c);
    let pieces = list_pieces(ts);
    assert(recs == pieces.map_values(|p: Seq<char>| crate::store::piece_record(p)));
    assert forall|i: int| 0 <= i < ts.len() implies crate::store::json_sliceable(
        #[trigger] recs[i],
    ) && parse_todo(recs[i]) == ts[i] by {
        let t = ts[i];
        lemma_body_commas(t);
        lemma_body_reads_back(t);
        let b = json_body(t);
        let r = recs[i];
        if i == 0 {
            assert(r =~= seq!['{'] + b + seq!['}']);
            assert(json_inner(r) =~= b);
        } else {
            assert(r =~= b + seq!['}']);
            assert(json_inner(r) =~= b.drop_first());
        }
    }
    assert(crate::store::decode_spec(c) =~= ts);
}

// ---------------------------------------------------------------------------
// The commands
// ---------------------------------------------------------------------------


proof fn lemma_without_id_subseq(ts: Seq<TodoView>, id: u32)
    ensures
        forall|i: int|
            0 <= i < without_id(ts, id).len() ==> exists|k: int|
                0 <= k < ts.len() && #[trigger] without_id(ts, id)[i] == ts[k],
        forall|i: int| 0 <= i < without_id(ts, id).len() ==> (#[trigger] without_id(ts, id)[i]).id != id,
        without_id(ts, id).len() <= ts.len(),
        ids_increasing(ts) ==> ids_increasing(without_id(ts, id)),
    decreases ts.len(),
{
    if ts.len() > 0 {
        let init = ts.drop_last();
        lemma_without_id_subseq(init, id);
        let w = without_id(init, id);
        assert forall|i: int| 0 <= i < w.len() implies exists|k: int|
            0 <= k < ts.len() && #[trigger] w[i] == ts[k] by {
            let k = choose|k: int| 0 <= k < init.len() && w[i] == init[k];
            assert(w[i] == ts[k]);
        }
        if ts.last().id != id {
            let r = w.push(ts.last());
            assert forall|i: int| 0 <= i < r.len() implies exists|k: int|
                0 <= k < ts.len() && #[trigger] r[i] == ts[k] by {
                if i < w.len() {
                    assert(r[i] == w[i]);
                } else {
                    assert(r[i] == ts[ts.len() - 1]);
                }
            }
            if ids_increasing(ts) {
                assert(ids_increasing(init));
                assert forall|i: int, j: int| 0 <= i < j < r.len() implies r[i].id < r[j].id by {
                    if j == r.len() - 1 {
                        let k = choose|k: int| 0 <= k < init.len() && w[i] == init[k];
                        assert(r[i] == ts[k]);
                        assert(r[j] == ts[ts.len() - 1]);
                    } else {
                        assert(r[i] == w[i] && r[j] == w[j]);
                    }
                }
            }
        } else {
            if ids_increasing(ts) {
                assert(ids_increasing(init));
            }
        }
    }
}

/// `delete` leaves no task with the id, keeps ids increasing, and deleting
/// the same id again changes nothing.
pub proof fn law_delete_removes_id(ts: Seq<TodoView>, id: u32)
    ensures
        forall|i: int| 0 <= i < without_id(ts, id).len() ==> (#[trigger] without_id(ts, id)[i]).id != id,
        ids_increasing(ts) ==> ids_increasing(without_id(ts, id)),
        without_id(without_id(ts, id), id) == without_id(ts, id),
        (forall|i: int| 0 <= i < ts.len() ==> (#[trigger] ts[i]).id != id) ==> without_id(ts, id) == ts,
{
    lemma_without_id_subseq(ts, id);
    lemma_without_id_none(without_id(ts, id), id);
    lemma_without_id_none(ts, id);
}

proof fn lemma_without_id_none(ts: Seq<TodoView>, id: u32)
    ensures
        (forall|i: int| 0 <= i < ts.len() ==> (#[trigger] ts[i]).id != id) ==> without_id(ts, id) == ts,
    decreases ts.len(),
{
    if ts.len() > 0 {
        lemma_without_id_none(ts.drop_last(), id);
        if forall|i: int| 0 <= i < ts.len() ==> (#[trigger] ts[i]).id != id {
            assert(ts.last().id != id);
            assert forall|i: int| 0 <= i < ts.drop_last().len() implies (
            #[trigger] ts.drop_last()[i]).id != id by {
                assert(ts.drop_last()[i] == ts[i]);
            }
            assert(ts.drop_last().push(ts.last()) =~= ts);
        }
    }
}

/// Adding a task keeps ids increasing: the new id is above every other.
pub proof fn law_add_keeps_ids_increasing(ts: Seq<TodoView>, t: TodoView)
    requires
        ids_increasing(ts),
        t.id == next_id_spec(ts),
    ensures
        ids_increasing(ts.push(t)),
{
    let r = ts.push(t);
    assert forall|i: int, j: int| 0 <= i < j < r.len() implies r[i].id < r[j].id by {
        if j == r.len() - 1 {
            assert(r[i] == ts[i]);
            if i < ts.len() - 1 {
                assert(ts[i].id < ts[ts.len() - 1].id);
            }
        } else {
            assert(r[i] == ts[i] && r[j] == ts[j]);
        }
    }
}

/// Marking, starting, putting on hold or editing a task keeps every id, so ids
/// stay increasing; with increasing ids, the task found for an id is the one
/// task with that id.
pub proof fn law_changes_keep_ids(ts: Seq<TodoView>, id: u32, at: DateTime, e: Edits)
    requires
        ids_increasing(ts),
    ensures
        ids_increasing(replace_at(ts, first_index(ts, id), done_view(ts[first_index(ts, id)], at))),
        ids_increasing(
            replace_at(ts, first_index(ts, id), started_view(ts[first_index(ts, id)], at)),
        ),
        ids_increasing(replace_at(ts, first_index(ts, id), pending_view(ts[first_index(ts, id)]))),
        ids_increasing(replace_at(ts, first_index(ts, id), edited_view(ts[first_index(ts, id)], e))),
        first_index(ts, id) != -1 ==> forall|j: int|
            0 <= j < ts.len() && ts[j].id == id ==> j == first_index(ts, id),
{
    lemma_index_from(ts, id, 0);
    let k = first_index(ts, id);
    if k != -1 {
        assert forall|j: int| 0 <= j < ts.len() && ts[j].id == id implies j == k by {
            if j > k {
                assert(ts[k].id < ts[j].id);
            }
        }
    }
}

/// Every change to the list keeps each of its times valid, given valid times
/// from the clock and the command line.
pub proof fn law_changes_keep_times_valid(
    ts: Seq<TodoView>,
    id: u32,
    at: DateTime,
    e: Edits,
    t: TodoView,
)
    requires
        all_wf(ts),
        at.wf(),
        opt_wf(e.creat_time) && opt_wf(e.start_time) && opt_wf(e.finish_time) && opt_wf(
            e.scheduled_time,
        ) && opt_wf(e.deadline_time),
        t.wf(),
    ensures
        all_wf(replace_at(ts, first_index(ts, id), done_view(ts[first_index(ts, id)], at))),
        all_wf(replace_at(ts, first_index(ts, id), started_view(ts[first_index(ts, id)], at))),
        all_wf(replace_at(ts, first_index(ts, id), pending_view(ts[first_index(ts, id)]))),
        all_wf(replace_at(ts, first_index(ts, id), edited_view(ts[first_index(ts, id)], e))),
        all_wf(without_id(ts, id)),
        all_wf(ts.push(t)),
{
    lemma_index_from(ts, id, 0);
    lemma_without_id_subseq(ts, id);
    let w = without_id(ts, id);
    assert forall|i: int| 0 <= i < w.len() implies (#[trigger] w[i]).wf() by {
        let k = choose|k: int| 0 <= k < ts.len() && w[i] == ts[k];
        assert(ts[k].wf());
    }
    let p = ts.push(t);
    assert forall|i: int| 0 <= i < p.len() implies (#[trigger] p[i]).wf() by {
        if i < ts.len() {
            assert(p[i] == ts[i]);
        }
    }
}

/// The filter that `list` builds without flags or days.
pub open spec fn no_filter(f: ListFilter) -> bool {
    &&& f.states@.len() == 0
    &&& !f.overdue
    &&& !f.should_start
    &&& f.scheduled_at is None
    &&& f.scheduled_before is None
    &&& f.scheduled_after is None
    &&& f.deadline_at is None
    &&& f.deadline_before is None
    &&& f.deadline_after is None
}

/// Without flags or days, `list` shows every task, in order.
pub proof fn law_list_without_filter_shows_all(f: ListFilter, ts: Seq<TodoView>, now: DateTime, k: int)
    requires
        no_filter(f),
        0 <= k <= ts.len(),
    ensures
        shown_indices(f, ts, now, k) == Seq::new(k as nat, |i: int| i as usize),
    decreases k,
{
    if k > 0 {
        law_list_without_filter_shows_all(f, ts, now, k - 1);
        assert(shown(f, ts[k - 1], now));
        assert(shown_indices(f, ts, now, k) =~= Seq::new(k as nat, |i: int| i as usize));
    }
}

/// A state's name reads back as the state.
pub proof fn law_state_name_reads_back(s: State)
    ensures
        state_of(s.name()) == s,
{
    lemma_state_name(s);
}

/// `f2` asks for all that `f1` asks for: the same states, each flag that
/// `f1` sets, and each day that `f1` gives; a listing option other than a state
/// added to `f1` gives such an `f2`.
pub open spec fn narrower(f2: ListFilter, f1: ListFilter) -> bool {
    &&& f2.states@ == f1.states@
    &&& f1.overdue ==> f2.overdue
    &&& f1.should_start ==> f2.should_start
    &&& f1.scheduled_at is Some ==> f2.scheduled_at == f1.scheduled_at
    &&& f1.scheduled_before is Some ==> f2.scheduled_before == f1.scheduled_before
    &&& f1.scheduled_after is Some ==> f2.scheduled_after == f1.scheduled_after
    &&& f1.deadline_at is Some ==> f2.deadline_at == f1.deadline_at
    &&& f1.deadline_before is Some ==> f2.deadline_before == f1.deadline_before
    &&& f1.deadline_after is Some ==> f2.deadline_after == f1.deadline_after
}

/// The indices of `idx` whose tasks `f` shows, in their order.
pub open spec fn keep_shown(f: ListFilter, ts: Seq<TodoView>, now: DateTime, idx: Seq<usize>) -> Seq<
    usize,
>
    decreases idx.len(),
{
    if idx.len() == 0 {
        idx
    } else if shown(f, ts[idx.last() as int], now) {
        keep_shown(f, ts, now, idx.drop_last()).push(idx.last())
    } else {
        keep_shown(f, ts, now, idx.drop_last())
    }
}

/// Under a narrower filter, `list` shows those of the tasks shown before that
/// the narrower filter still shows, in the same order: a subsequence.
pub proof fn law_narrower_filter_lists_a_subsequence(
    f1: ListFilter,
    f2: ListFilter,
    ts: Seq<TodoView>,
    now: DateTime,
    k: int,
)
    requires
        narrower(f2, f1),
        0 <= k <= ts.len() <= usize::MAX,
    ensures
        shown_indices(f2, ts, now, k) == keep_shown(f2, ts, now, shown_indices(f1, ts, now, k)),
        forall|i: int| 0 <= i < ts.len() && shown(f2, ts[i], now) ==> shown(f1, ts[i], now),
    decreases k,
{
    assert forall|i: int| 0 <= i < ts.len() && shown(f2, ts[i], now) implies shown(
        f1,
        ts[i],
        now,
    ) by {}
    if k > 0 {
        law_narrower_filter_lists_a_subsequence(f1, f2, ts, now, k - 1);
        assert(((k - 1) as usize) as int == k - 1);
        let prev = shown_indices(f1, ts, now, k - 1);
        if shown(f1, ts[k - 1], now) {
            let cur = prev.push((k - 1) as usize);
            assert(cur.drop_last() =~= prev);
            assert(cur.last() == (k - 1) as usize);
            assert(((k - 1) as usize) as int == k - 1);
        }
    }
}


// ---------------------------------------------------------------------------
// What each change does to the task it finds
// ---------------------------------------------------------------------------

/// `pending` puts the task found for the id on hold, whatever its state
/// before, changes nothing else of it, and leaves every other task as it was.
pub proof fn law_pending_puts_on_hold(ts: Seq<TodoView>, id: u32)
    ensures
        ({
            let k = first_index(ts, id);
            let after = replace_at(ts, k, pending_view(ts[k]));
            &&& after.len() == ts.len()
            &&& k != -1 ==> {
                &&& after[k].state == State::Pending
                &&& after[k] == TodoView { state: after[k].state, ..ts[k] }
            }
            &&& forall|j: int| 0 <= j < ts.len() && j != k ==> after[j] == ts[j]
        }),
{
    lemma_index_from(ts, id, 0);
}

/// `done` at `at` marks the task found for the id done, finished at `at`, and
/// started at `at` only if it had no start time; nothing else of it changes,
/// and every other task stays as it was.
pub proof fn law_done_finishes(ts: Seq<TodoView>, id: u32, at: DateTime)
    ensures
        ({
            let k = first_index(ts, id);
            let after = replace_at(ts, k, done_view(ts[k], at));
            &&& after.len() == ts.len()
            &&& k != -1 ==> {
                &&& after[k].state == State::Done
                &&& after[k].finish_time == Some(at)
                &&& ts[k].start_time is Some ==> after[k].start_time == ts[k].start_time
                &&& ts[k].start_time is None ==> after[k].start_time == Some(at)
                &&& after[k] == TodoView {
                    state: after[k].state,
                    finish_time: after[k].finish_time,
                    start_time: after[k].start_time,
                    ..ts[k]
                }
            }
            &&& forall|j: int| 0 <= j < ts.len() && j != k ==> after[j] == ts[j]
        }),
{
    lemma_index_from(ts, id, 0);
}

/// `start` at `at` marks the task found for the id ongoing, started at `at`;
/// nothing else of it changes, and every other task stays as it was.
pub proof fn law_start_starts(ts: Seq<TodoView>, id: u32, at: DateTime)
    ensures
        ({
            let k = first_index(ts, id);
            let after = replace_at(ts, k, started_view(ts[k], at));
            &&& after.len() == ts.len()
            &&& k != -1 ==> {
                &&& after[k].state == State::Ongoing
                &&& after[k].start_time == Some(at)
                &&& after[k] == TodoView {
                    state: after[k].state,
                    start_time: after[k].start_time,
                    ..ts[k]
                }
            }
            &&& forall|j: int| 0 <= j < ts.len() && j != k ==> after[j] == ts[j]
        }),
{
    lemma_index_from(ts, id, 0);
}

/// `edit` sets each field that it is given to the value given and keeps each
/// field that it is not given; the id and the state never change.
pub proof fn law_edit_sets_given_fields(t: TodoView, e: Edits)
    ensures
        ({
            let a = edited_view(t, e);
            &&& a.id == t.id
            &&& a.state == t.state
            &&& (e.title matches Some(s) ==> a.title == s@)
            &&& (e.title is None ==> a.title == t.title)
            &&& (e.creat_time is Some ==> a.creat_time == e.creat_time)
            &&& (e.creat_time is None ==> a.creat_time == t.creat_time)
            &&& (e.start_time is Some ==> a.start_time == e.start_time)
            &&& (e.start_time is None ==> a.start_time == t.start_time)
            &&& (e.finish_time is Some ==> a.finish_time == e.finish_time)
            &&& (e.finish_time is None ==> a.finish_time == t.finish_time)
            &&& (e.scheduled_time is Some ==> a.scheduled_time == e.scheduled_time)
            &&& (e.scheduled_time is None ==> a.scheduled_time == t.scheduled_time)
            &&& (e.deadline_time is Some ==> a.deadline_time == e.deadline_time)
            &&& (e.deadline_time is None ==> a.deadline_time == t.deadline_time)
        }),
{
}

// ---------------------------------------------------------------------------
// What the listing shows
// ---------------------------------------------------------------------------

/// With `--should-start`, only a task not yet started whose scheduled time has
/// passed is shown; with `--overdue`, only a task whose deadline has passed;
/// with state flags, only a task in one of those states.
pub proof fn law_flags_restrict_the_listing(f: ListFilter, t: TodoView, now: DateTime)
    requires
        shown(f, t, now),
    ensures
        f.should_start ==> t.state == State::Notstarted,
        f.should_start ==> (t.scheduled_time matches Some(s) && s.lt(now)),
        f.overdue ==> (t.deadline_time matches Some(d) && d.lt(now)),
        f.states@.len() > 0 ==> f.states@.contains(t.state),
{
}

/// With `--should-start` alone, a task is shown exactly when it has not
/// started and its scheduled time has passed.
pub proof fn law_should_start_alone(f: ListFilter, t: TodoView, now: DateTime)
    requires
        f.should_start,
        !f.overdue,
        f.states@.len() == 0,
        f.scheduled_at is None,
        f.scheduled_before is None,
        f.scheduled_after is None,
        f.deadline_at is None,
        f.deadline_before is None,
        f.deadline_after is None,
    ensures
        shown(f, t, now) <==> (t.state == State::Notstarted && (t.scheduled_time matches Some(s)
            && s.lt(now))),
{
}

/// The listing of the first `k` tasks holds, in increasing order, exactly the
/// indices below `k` of the tasks that the filter shows.
pub proof fn law_listing_holds_the_shown_tasks(
    f: ListFilter,
    ts: Seq<TodoView>,
    now: DateTime,
    k: int,
)
    requires
        0 <= k <= ts.len(),
        ts.len() <= usize::MAX,
    ensures
        ({
            let idx = shown_indices(f, ts, now, k);
            &&& forall|j: int|
                0 <= j < idx.len() ==> #[trigger] idx[j] < k && shown(f, ts[idx[j] as int], now)
            &&& forall|i: int, j: int| 0 <= i < j < idx.len() ==> idx[i] < idx[j]
            &&& forall|i: int|
                0 <= i < k && #[trigger] shown(f, ts[i], now) ==> exists|j: int|
                    0 <= j < idx.len() && idx[j] == i
        }),
    decreases k,
{
    if k > 0 {
        law_listing_holds_the_shown_tasks(f, ts, now, k - 1);
        let prev = shown_indices(f, ts, now, k - 1);
        let idx = shown_indices(f, ts, now, k);
        if shown(f, ts[k - 1], now) {
            assert(idx == prev.push((k - 1) as usize));
            assert forall|j: int| 0 <= j < idx.len() implies #[trigger] idx[j] < k && shown(
                f,
                ts[idx[j] as int],
                now,
            ) by {
                if j < prev.len() {
                    assert(idx[j] == prev[j]);
                }
            }
            assert forall|i: int| 0 <= i < k && #[trigger] shown(f, ts[i], now) implies exists|
                j: int,
            | 0 <= j < idx.len() && idx[j] == i by {
                if i < k - 1 {
                    let j = choose|j: int| 0 <= j < prev.len() && prev[j] == i;
                    assert(idx[j] == prev[j]);
                } else {
                    assert(idx[prev.len() as int] == i);
                }
            }
        } else {
            assert forall|i: int| 0 <= i < k && #[trigger] shown(f, ts[i], now) implies exists|
                j: int,
            | 0 <= j < idx.len() && idx[j] == i by {
                let j = choose|j: int| 0 <= j < prev.len() && prev[j] == i;
                assert(idx[j] == prev[j]);
            }
        }
    }
}

// ---------------------------------------------------------------------------
// The row of the listing
// ---------------------------------------------------------------------------

proof fn lemma_pad_right_len(v: Seq<char>, w: nat)
    requires
        v.len() <= w,
    ensures
        pad_right(v, w).len() == w,
{
}

/// When each value fits its column, the row of a task shows the id, the
/// title, the creation, start, finish and scheduled times and the deadline,
/// each in its own fixed column, in that order, then the state.
pub proof fn law_row_columns(t: TodoView)
    requires
        row_fits(t),
    ensures
        row_columns(row_text(t), t),
{
    let sp = seq![' '];
    let a = pad_right(decimal(t.id as nat), 4);
    let b = pad_right(t.title, 20);
    let c = pad_right(time_text(t.creat_time), 20);
    let d = pad_right(time_text(t.start_time), 20);
    let e = pad_right(time_text(t.finish_time), 20);
    let g = pad_right(time_text(t.scheduled_time), 20);
    let h = pad_right(time_text(t.deadline_time), 20);
    let n = t.state.name();
    lemma_pad_right_len(decimal(t.id as nat), 4);
    lemma_pad_right_len(t.title, 20);
    lemma_pad_right_len(time_text(t.creat_time), 20);
    lemma_pad_right_len(time_text(t.start_time), 20);
    lemma_pad_right_len(time_text(t.finish_time), 20);
    lemma_pad_right_len(time_text(t.scheduled_time), 20);
    lemma_pad_right_len(time_text(t.deadline_time), 20);
    let r = row_text(t);
    let p1 = a + sp;
    let p2 = p1 + b + sp;
    let p3 = p2 + c + sp;
    let p4 = p3 + d + sp;
    let p5 = p4 + e + sp;
    let p6 = p5 + g + sp;
    let p7 = p6 + h + sp;
    assert(r =~= p7 + n);
    assert(r.subrange(0, 4) =~= a);
    assert(r.subrange(5, 25) =~= b);
    assert(r.subrange(26, 46) =~= c);
    assert(r.subrange(47, 67) =~= d);
    assert(r.subrange(68, 88) =~= e);
    assert(r.subrange(89, 109) =~= g);
    assert(r.subrange(110, 130) =~= h);
    assert(r.subrange(131, r.len() as int) =~= n);
    assert(r[4] == p1[4]);
    assert(r[25] == p2[25]);
    assert(r[46] == p3[46]);
    assert(r[67] == p4[67]);
    assert(r[88] == p5[88]);
    assert(r[109] == p6[109]);
    assert(r[130] == p7[130]);
}

} // verus!
