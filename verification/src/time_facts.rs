//! Facts about the text of a date and time: it is made of digits and a few
//! separators, and different dates and times have different texts.
use crate::calendar::{datetime_text, fraction_text, padded, shown_as, year_text};
use crate::laws::lemma_decimal;
use crate::model::{DateTime, MAX_YEAR, MIN_YEAR};
use crate::text::{decimal, digit_char, digit_value, digits_value, is_digit};
use vstd::prelude::*;

verus! {

pub open spec fn pow10(k: nat) -> int
    decreases k,
{
    if k == 0 {
        1
    } else {
        10 * pow10((k - 1) as nat)
    }
}

proof fn lemma_digit_char(d: int)
    requires
        0 <= d < 10,
    ensures
        is_digit(digit_char(d)),
        digit_value(digit_char(d)) == d,
{
}

/// `padded(n, k)` has `k` characters, all of them digits.
pub proof fn lemma_padded_digits(n: int, k: nat)
    requires
        n >= 0,
    ensures
        padded(n, k).len() == k,
        forall|i: int| 0 <= i < k ==> is_digit(#[trigger] padded(n, k)[i]),
    decreases k,
{
    if k > 0 {
        lemma_padded_digits(n / 10, (k - 1) as nat);
        lemma_digit_char(n % 10);
        let p = padded(n, k);
        assert forall|i: int| 0 <= i < k implies is_digit(#[trigger] p[i]) by {
            if i < k - 1 {
                assert(p[i] == padded(n / 10, (k - 1) as nat)[i]);
            }
        }
    }
}

proof fn lemma_div_bound(a: int, k: nat)
    requires
        k > 0,
        0 <= a < pow10(k),
    ensures
        0 <= a / 10 < pow10((k - 1) as nat),
        a == 10 * (a / 10) + a % 10,
{
    let p = pow10((k - 1) as nat);
    assert(pow10(k) == 10 * p);
    assert(0 <= a / 10 < p && a == 10 * (a / 10) + a % 10) by (nonlinear_arith)
        requires
            0 <= a < 10 * p,
    ;
}

/// Two numbers below `10^k` with the same `k` padded digits are equal.
pub proof fn lemma_padded_injective(a: int, b: int, k: nat)
    requires
        0 <= a < pow10(k),
        0 <= b < pow10(k),
        padded(a, k) == padded(b, k),
    ensures
        a == b,
    decreases k,
{
    if k > 0 {
        lemma_div_bound(a, k);
        lemma_div_bound(b, k);
        let pa = padded(a, k);
        let pb = padded(b, k);
        assert(pa.last() == digit_char(a % 10));
        assert(pb.last() == digit_char(b % 10));
        lemma_digit_char(a % 10);
        lemma_digit_char(b % 10);
        assert(pa.drop_last() =~= padded(a / 10, (k - 1) as nat));
        assert(pb.drop_last() =~= padded(b / 10, (k - 1) as nat));
        lemma_padded_injective(a / 10, b / 10, (k - 1) as nat);
    }
}

proof fn lemma_pow10_values()
    ensures
        pow10(2) == 100,
        pow10(3) == 1000,
        pow10(4) == 10000,
        pow10(6) == 1000000,
        pow10(9) == 1000000000,
{
    reveal_with_fuel(pow10, 10);
}

/// The fraction text of a number of nanoseconds below one second: empty, or
/// a dot and digits; the same text means the same number.
pub proof fn lemma_fraction(n: int)
    requires
        0 <= n < 1_000_000_000,
    ensures
        n == 0 ==> fraction_text(n).len() == 0,
        n != 0 ==> fraction_text(n).len() >= 2 && fraction_text(n)[0] == '.' && forall|i: int|
            1 <= i < fraction_text(n).len() ==> is_digit(#[trigger] fraction_text(n)[i]),
        n == 0 || n % 1_000_000 == 0 ==> fraction_text(n).len() <= 4,
        n % 1_000_000 != 0 && n % 1_000 == 0 ==> fraction_text(n).len() == 7,
        n % 1_000 != 0 ==> fraction_text(n).len() == 10,
        n != 0 && n % 1_000_000 == 0 ==> fraction_text(n).len() == 4,
{
    let f = fraction_text(n);
    if n == 0 {
    } else if n % 1_000_000 == 0 {
        lemma_padded_digits(n / 1_000_000, 3);
        assert forall|i: int| 1 <= i < f.len() implies is_digit(#[trigger] f[i]) by {
            assert(f[i] == padded(n / 1_000_000, 3)[i - 1]);
        }
    } else if n % 1_000 == 0 {
        lemma_padded_digits(n / 1_000, 6);
        assert forall|i: int| 1 <= i < f.len() implies is_digit(#[trigger] f[i]) by {
            assert(f[i] == padded(n / 1_000, 6)[i - 1]);
        }
    } else {
        lemma_padded_digits(n, 9);
        assert forall|i: int| 1 <= i < f.len() implies is_digit(#[trigger] f[i]) by {
            assert(f[i] == padded(n, 9)[i - 1]);
        }
    }
}

proof fn lemma_fraction_injective(a: int, b: int)
    requires
        0 <= a < 1_000_000_000,
        0 <= b < 1_000_000_000,
        fraction_text(a) == fraction_text(b),
    ensures
        a == b,
{
    lemma_fraction(a);
    lemma_fraction(b);
    lemma_pow10_values();
    let f = fraction_text(a);
    if a == 0 || b == 0 {
    } else if a % 1_000_000 == 0 {
        assert(f.drop_first() =~= padded(a / 1_000_000, 3));
        assert(fraction_text(b).drop_first() =~= padded(b / 1_000_000, 3));
        lemma_padded_injective(a / 1_000_000, b / 1_000_000, 3);
    } else if a % 1_000 == 0 {
        assert(f.drop_first() =~= padded(a / 1_000, 6));
        assert(fraction_text(b).drop_first() =~= padded(b / 1_000, 6));
        lemma_padded_injective(a / 1_000, b / 1_000, 6);
    } else {
        assert(f.drop_first() =~= padded(a, 9));
        assert(fraction_text(b).drop_first() =~= padded(b, 9));
        lemma_padded_injective(a, b, 9);
    }
}

/// The second shown, 60 for a leap second.
pub open spec fn shown_second(d: DateTime) -> int {
    if d.nanosecond >= 1_000_000_000 {
        d.second + 1
    } else {
        d.second as int
    }
}

/// The nanoseconds shown after the second.
pub open spec fn shown_nano(d: DateTime) -> int {
    if d.nanosecond >= 1_000_000_000 {
        d.nanosecond - 1_000_000_000
    } else {
        d.nanosecond as int
    }
}

/// The text of a date and time after its year.
pub open spec fn time_tail(d: DateTime) -> Seq<char> {
    seq!['-'] + padded(d.date.month as int, 2) + seq!['-'] + padded(d.date.day as int, 2) + seq![
        ' ',
    ] + padded(d.hour as int, 2) + seq![':'] + padded(d.minute as int, 2) + seq![':'] + padded(
        shown_second(d),
        2,
    ) + fraction_text(shown_nano(d))
}

/// Where the fields of a date and time stand in its text after the year.
proof fn lemma_tail_layout(d: DateTime)
    requires
        d.wf(),
    ensures
        datetime_text(d) == year_text(d.date.year as int) + time_tail(d),
        time_tail(d).len() == 15 + fraction_text(shown_nano(d)).len(),
        time_tail(d).subrange(1, 3) == padded(d.date.month as int, 2),
        time_tail(d).subrange(4, 6) == padded(d.date.day as int, 2),
        time_tail(d).subrange(7, 9) == padded(d.hour as int, 2),
        time_tail(d).subrange(10, 12) == padded(d.minute as int, 2),
        time_tail(d).subrange(13, 15) == padded(shown_second(d), 2),
        time_tail(d).subrange(15, time_tail(d).len() as int) == fraction_text(shown_nano(d)),
        time_tail(d)[0] == '-',
        time_tail(d)[3] == '-',
        time_tail(d)[6] == ' ',
        time_tail(d)[9] == ':',
        time_tail(d)[12] == ':',
        forall|i: int|
            0 <= i < 15 && i != 0 && i != 3 && i != 6 && i != 9 && i != 12 ==> is_digit(
                #[trigger] time_tail(d)[i],
            ),
        forall|i: int|
            15 <= i < time_tail(d).len() ==> (#[trigger] time_tail(d)[i] == '.' || is_digit(
                time_tail(d)[i],
            )),
        is_digit(time_tail(d).last()),
{
    lemma_padded_digits(d.date.month as int, 2);
    lemma_padded_digits(d.date.day as int, 2);
    lemma_padded_digits(d.hour as int, 2);
    lemma_padded_digits(d.minute as int, 2);
    lemma_padded_digits(shown_second(d), 2);
    lemma_fraction(shown_nano(d));
    let t = time_tail(d);
    let mo = padded(d.date.month as int, 2);
    let da = padded(d.date.day as int, 2);
    let h = padded(d.hour as int, 2);
    let mi = padded(d.minute as int, 2);
    let s = padded(shown_second(d), 2);
    let f = fraction_text(shown_nano(d));
    assert(datetime_text(d) =~= year_text(d.date.year as int) + t);
    assert(t =~= seq!['-'] + mo + seq!['-'] + da + seq![' '] + h + seq![':'] + mi + seq![':'] + s
        + f);
    assert(t.subrange(1, 3) =~= mo);
    assert(t.subrange(4, 6) =~= da);
    assert(t.subrange(7, 9) =~= h);
    assert(t.subrange(10, 12) =~= mi);
    assert(t.subrange(13, 15) =~= s);
    assert(t.subrange(15, t.len() as int) =~= f);
    assert forall|i: int| 0 <= i < 15 && i != 0 && i != 3 && i != 6 && i != 9 && i != 12 implies is_digit(
        #[trigger] t[i],
    ) by {
        if i < 3 {
            assert(t[i] == t.subrange(1, 3)[i - 1]);
        } else if i < 6 {
            assert(t[i] == t.subrange(4, 6)[i - 4]);
        } else if i < 9 {
            assert(t[i] == t.subrange(7, 9)[i - 7]);
        } else if i < 12 {
            assert(t[i] == t.subrange(10, 12)[i - 10]);
        } else {
            assert(t[i] == t.subrange(13, 15)[i - 13]);
        }
    }
    assert forall|i: int| 15 <= i < t.len() implies (#[trigger] t[i] == '.' || is_digit(t[i])) by {
        assert(t[i] == t.subrange(15, t.len() as int)[i - 15]);
    }
    if f.len() == 0 {
        assert(is_digit(t[14]));
    } else {
        assert(t[t.len() - 1] == f[f.len() - 1]);
    }
}

proof fn lemma_decimal_long(n: nat, k: nat)
    requires
        n >= pow10(k),
    ensures
        decimal(n).len() >= k + 1,
    decreases k,
{
    if k > 0 {
        assert(pow10(k) == 10 * pow10((k - 1) as nat));
        assert(pow10((k - 1) as nat) >= 1) by {
            lemma_pow10_positive((k - 1) as nat);
        }
        assert(n / 10 >= pow10((k - 1) as nat)) by (nonlinear_arith)
            requires
                n >= 10 * pow10((k - 1) as nat),
        ;
        lemma_decimal_long(n / 10, (k - 1) as nat);
        assert(n >= 10);
    } else {
        lemma_decimal(n);
    }
}

proof fn lemma_pow10_positive(k: nat)
    ensures
        pow10(k) >= 1,
    decreases k,
{
    if k > 0 {
        lemma_pow10_positive((k - 1) as nat);
    }
}

/// The text of a year: four digits in 0..=9999, else a sign then digits; its
/// first character tells which.
proof fn lemma_year_text(y: int)
    requires
        MIN_YEAR <= y <= MAX_YEAR,
    ensures
        year_text(y).len() >= 4,
        forall|i: int| 1 <= i < year_text(y).len() ==> is_digit(#[trigger] year_text(y)[i]),
        is_digit(year_text(y)[0]) <==> 0 <= y <= 9999,
        year_text(y)[0] == '+' <==> y > 9999,
        year_text(y)[0] == '-' <==> y < 0,
        is_digit(year_text(y)[0]) || year_text(y)[0] == '+' || year_text(y)[0] == '-',
{
    lemma_pow10_values();
    let t = year_text(y);
    if 0 <= y <= 9999 {
        lemma_padded_digits(y, 4);
    } else {
        let a = if y < 0 {
            -y
        } else {
            y
        };
        let r = if a < 10000 {
            padded(a, 4)
        } else {
            decimal(a as nat)
        };
        if a < 10000 {
            lemma_padded_digits(a, 4);
        } else {
            lemma_decimal(a as nat);
            lemma_decimal_long(a as nat, 4);
        }
        assert(t =~= seq![t[0]] + r);
        assert forall|i: int| 1 <= i < t.len() implies is_digit(#[trigger] t[i]) by {
            assert(t[i] == r[i - 1]);
            if a >= 10000 {
                assert(crate::text::all_digits(r));
            }
        }
    }
}

proof fn lemma_year_injective(y1: int, y2: int)
    requires
        MIN_YEAR <= y1 <= MAX_YEAR,
        MIN_YEAR <= y2 <= MAX_YEAR,
        year_text(y1) == year_text(y2),
    ensures
        y1 == y2,
{
    lemma_year_text(y1);
    lemma_year_text(y2);
    lemma_pow10_values();
    let t = year_text(y1);
    if 0 <= y1 <= 9999 {
        lemma_padded_injective(y1, y2, 4);
    } else {
        let a1 = if y1 < 0 {
            -y1
        } else {
            y1
        };
        let a2 = if y2 < 0 {
            -y2
        } else {
            y2
        };
        let r1 = t.drop_first();
        if a1 < 10000 {
            assert(r1 =~= padded(a1, 4));
        } else {
            assert(r1 =~= decimal(a1 as nat));
            lemma_decimal(a1 as nat);
            lemma_decimal_long(a1 as nat, 4);
        }
        if a2 < 10000 {
            assert(r1 =~= padded(a2, 4));
        } else {
            assert(r1 =~= decimal(a2 as nat));
            lemma_decimal(a2 as nat);
            lemma_decimal_long(a2 as nat, 4);
        }
        if a1 < 10000 && a2 < 10000 {
            lemma_padded_digits(a1, 4);
            lemma_padded_injective(a1, a2, 4);
        } else if a1 < 10000 {
            lemma_padded_digits(a1, 4);
        } else if a2 < 10000 {
            lemma_padded_digits(a2, 4);
        }
    }
}

/// Different valid dates and times have different texts.
pub proof fn lemma_text_injective(d1: DateTime, d2: DateTime, v: Seq<char>)
    requires
        shown_as(d1, v),
        shown_as(d2, v),
    ensures
        d1 == d2,
{
    lemma_tail_layout(d1);
    lemma_tail_layout(d2);
    lemma_year_text(d1.date.year as int);
    lemma_year_text(d2.date.year as int);
    let y1 = year_text(d1.date.year as int);
    let y2 = year_text(d2.date.year as int);
    let t1 = time_tail(d1);
    let t2 = time_tail(d2);
    assert(y1.len() == y2.len()) by {
        if y1.len() < y2.len() {
            assert(v[y1.len() as int] == t1[0]);
            assert(v[y1.len() as int] == y2[y1.len() as int]);
        } else if y2.len() < y1.len() {
            assert(v[y2.len() as int] == t2[0]);
            assert(v[y2.len() as int] == y1[y2.len() as int]);
        }
    }
    assert(y1 =~= v.subrange(0, y1.len() as int));
    assert(y2 =~= v.subrange(0, y2.len() as int));
    assert(t1 =~= v.subrange(y1.len() as int, v.len() as int));
    assert(t2 =~= v.subrange(y2.len() as int, v.len() as int));
    lemma_year_injective(d1.date.year as int, d2.date.year as int);
    lemma_pow10_values();
    lemma_padded_injective(d1.date.month as int, d2.date.month as int, 2);
    lemma_padded_injective(d1.date.day as int, d2.date.day as int, 2);
    lemma_padded_injective(d1.hour as int, d2.hour as int, 2);
    lemma_padded_injective(d1.minute as int, d2.minute as int, 2);
    lemma_padded_injective(shown_second(d1), shown_second(d2), 2);
    lemma_fraction_injective(shown_nano(d1), shown_nano(d2));
}

/// The text of a valid date and time starts with a digit or a sign, ends
/// with a digit, holds no `,`, and each `:` in it is followed by a digit.
pub proof fn lemma_text_chars(d: DateTime)
    requires
        d.wf(),
    ensures
        is_digit(datetime_text(d)[0]) || datetime_text(d)[0] == '+' || datetime_text(d)[0] == '-',
        is_digit(datetime_text(d).last()),
        forall|i: int| 0 <= i < datetime_text(d).len() ==> #[trigger] datetime_text(d)[i] != ',',
        forall|i: int|
            0 <= i < datetime_text(d).len() && #[trigger] datetime_text(d)[i] == ':' ==> i + 1
                < datetime_text(d).len() && is_digit(datetime_text(d)[i + 1]),
{
    lemma_tail_layout(d);
    lemma_year_text(d.date.year as int);
    let v = datetime_text(d);
    let y = year_text(d.date.year as int);
    let t = time_tail(d);
    let n = y.len() as int;
    assert(v[0] == y[0]);
    assert(v.last() == t.last());
    assert forall|i: int| 0 <= i < v.len() implies #[trigger] v[i] != ',' && (v[i] == ':' ==> i + 1
        < v.len() && is_digit(v[i + 1])) by {
        if i < n {
            assert(v[i] == y[i]);
            if i > 0 {
                assert(is_digit(y[i]));
            }
        } else {
            let j = i - n;
            assert(v[i] == t[j]);
            if j < 15 && j != 0 && j != 3 && j != 6 && j != 9 && j != 12 {
                assert(is_digit(t[j]));
            } else if j >= 15 {
                assert(t[j] == '.' || is_digit(t[j]));
            } else if j == 9 || j == 12 {
                assert(v[i + 1] == t[j + 1]);
                assert(is_digit(t[j + 1]));
            }
        }
    }
}

} // verus!
