//! Character-level text handling: splitting, trimming, decimal numbers and
//! padding, each stated over `Seq<char>`.
use vstd::prelude::*;

verus! {

// ---------------------------------------------------------------------------
// Character classes
// ---------------------------------------------------------------------------

/// The characters of Unicode's `White_Space` property, which is what
/// `char::is_whitespace` accepts.
pub open spec fn is_ws(c: char) -> bool {
    let u = c as u32;
    ||| u == 0x20
    ||| (0x09 <= u && u <= 0x0d)
    ||| u == 0x85
    ||| u == 0xa0
    ||| u == 0x1680
    ||| (0x2000 <= u && u <= 0x200a)
    ||| u == 0x2028
    ||| u == 0x2029
    ||| u == 0x202f
    ||| u == 0x205f
    ||| u == 0x3000
}

/// Whether `c` is a Unicode white-space character.
pub fn is_whitespace(c: char) -> (r: bool)
    ensures
        r == is_ws(c),
{
    let u = c as u32;
    u == 0x20 || (0x09 <= u && u <= 0x0d) || u == 0x85 || u == 0xa0 || u == 0x1680 || (0x2000
        <= u && u <= 0x200a) || u == 0x2028 || u == 0x2029 || u == 0x202f || u == 0x205f || u
        == 0x3000
}

/// What a trim removes at both ends of a text.
#[derive(Clone, Copy, Debug)]
pub enum Pat {
    /// White space, as `str::trim` removes it.
    Whitespace,
    /// One given character, as `str::trim_matches` removes it.
    Char(char),
}

pub open spec fn pat_hit(p: Pat, c: char) -> bool {
    match p {
        Pat::Whitespace => is_ws(c),
        Pat::Char(x) => c == x,
    }
}

fn hits(p: Pat, c: char) -> (r: bool)
    ensures
        r == pat_hit(p, c),
{
    match p {
        Pat::Whitespace => is_whitespace(c),
        Pat::Char(x) => c == x,
    }
}

// ---------------------------------------------------------------------------
// Trimming
// ---------------------------------------------------------------------------

/// `s` without the characters that `p` hits at its start.
pub open spec fn strip_start(s: Seq<char>, p: Pat) -> Seq<char>
    decreases s.len(),
{
    if s.len() > 0 && pat_hit(p, s[0]) {
        strip_start(s.drop_first(), p)
    } else {
        s
    }
}

/// `s` without the characters that `p` hits at its end.
pub open spec fn strip_end(s: Seq<char>, p: Pat) -> Seq<char>
    decreases s.len(),
{
    if s.len() > 0 && pat_hit(p, s.last()) {
        strip_end(s.drop_last(), p)
    } else {
        s
    }
}

/// `s` without the characters that `p` hits at either end.
pub open spec fn strip(s: Seq<char>, p: Pat) -> Seq<char> {
    strip_end(strip_start(s, p), p)
}

/// The characters `s[lo..hi]`.
pub fn slice_chars(s: &Vec<char>, lo: usize, hi: usize) -> (r: Vec<char>)
    requires
        lo <= hi <= s.len(),
    ensures
        r@ == s@.subrange(lo as int, hi as int),
{
    let mut r: Vec<char> = Vec::new();
    let mut i = lo;
    while i < hi
        invariant
            lo <= i <= hi <= s.len(),
            r@ == s@.subrange(lo as int, i as int),
        decreases hi - i,
    {
        r.push(s[i]);
        i += 1;
    }
    r
}

/// `s` with what `p` hits removed at both ends.
pub fn strip_chars(s: &Vec<char>, p: Pat) -> (r: Vec<char>)
    ensures
        r@ == strip(s@, p),
{
    let n = s.len();
    let mut lo: usize = 0;
    assert(s@.subrange(0, n as int) =~= s@);
    while lo < n && hits(p, s[lo])
        invariant
            lo <= n == s.len(),
            strip_start(s@, p) == strip_start(s@.subrange(lo as int, n as int), p),
        decreases n - lo,
    {
        assert(s@.subrange(lo as int, n as int).drop_first() =~= s@.subrange(
            lo + 1,
            n as int,
        ));
        lo += 1;
    }
    let mut hi: usize = n;
    while hi > lo && hits(p, s[hi - 1])
        invariant
            lo <= hi <= n == s.len(),
            strip_start(s@, p) == s@.subrange(lo as int, n as int),
            strip(s@, p) == strip_end(s@.subrange(lo as int, hi as int), p),
        decreases hi - lo,
    {
        assert(s@.subrange(lo as int, hi as int).drop_last() =~= s@.subrange(
            lo as int,
            hi - 1,
        ));
        hi -= 1;
    }
    slice_chars(s, lo, hi)
}

// ---------------------------------------------------------------------------
// Splitting
// ---------------------------------------------------------------------------

/// `sep` occurs in `s` starting at index `i`.
pub open spec fn matches_at(s: Seq<char>, sep: Seq<char>, i: int) -> bool {
    0 <= i && i + sep.len() <= s.len() && s.subrange(i, i + sep.len()) == sep
}

/// The first index at or after `i` where `sep` occurs in `s`, or -1.
pub open spec fn find_from(s: Seq<char>, sep: Seq<char>, i: int) -> int
    decreases s.len() - i,
{
    if i < 0 || sep.len() == 0 || i + sep.len() > s.len() {
        -1
    } else if matches_at(s, sep, i) {
        i
    } else {
        find_from(s, sep, i + 1)
    }
}

pub proof fn lemma_find_from_range(s: Seq<char>, sep: Seq<char>, i: int)
    ensures
        find_from(s, sep, i) == -1 || (i <= find_from(s, sep, i) && matches_at(
            s,
            sep,
            find_from(s, sep, i),
        ) && sep.len() > 0),
    decreases s.len() - i,
{
    if i < 0 || sep.len() == 0 || i + sep.len() > s.len() {
    } else if matches_at(s, sep, i) {
    } else {
        lemma_find_from_range(s, sep, i + 1);
    }
}

/// The pieces of `s[start..]` between the occurrences of `sep`, found from
/// left to right without overlap, as `str::split` gives them.
pub open spec fn split_from(s: Seq<char>, sep: Seq<char>, start: int) -> Seq<Seq<char>>
    decreases s.len() - start,
{
    let k = find_from(s, sep, start);
    if k < 0 || start < 0 {
        seq![s.subrange(start, s.len() as int)]
    } else {
        proof {
            lemma_find_from_range(s, sep, start);
        }
        seq![s.subrange(start, k)] + split_from(s, sep, k + sep.len())
    }
}

/// The pieces of `s` between the occurrences of `sep`.
pub open spec fn split(s: Seq<char>, sep: Seq<char>) -> Seq<Seq<char>> {
    split_from(s, sep, 0)
}

fn matches_at_exec(s: &Vec<char>, sep: &Vec<char>, i: usize) -> (r: bool)
    requires
        sep.len() <= s.len(),
        i <= s.len() - sep.len(),
    ensures
        r == matches_at(s@, sep@, i as int),
{
    let m = sep.len();
    let mut j: usize = 0;
    while j < m
        invariant
            m == sep.len() <= s.len(),
            i <= s.len() - m,
            j <= m,
            forall|k: int| 0 <= k < j ==> s@[i + k] == sep@[k],
        decreases m - j,
    {
        if s[i + j] != sep[j] {
            assert(s@.subrange(i as int, i + m)[j as int] != sep@[j as int]);
            return false;
        }
        j += 1;
    }
    assert(s@.subrange(i as int, i + m) =~= sep@);
    true
}

/// The pieces of `s` between the occurrences of `sep`.
pub fn split_chars(s: &Vec<char>, sep: &Vec<char>) -> (r: Vec<Vec<char>>)
    requires
        sep.len() > 0,
    ensures
        r.deep_view() == split(s@, sep@),
{
    let n = s.len();
    let m = sep.len();
    let mut out: Vec<Vec<char>> = Vec::new();
    let mut start: usize = 0;
    let mut i: usize = 0;
    while m <= n && i <= n - m
        invariant
            n == s.len(),
            m == sep.len() > 0,
            start <= i <= n,
            find_from(s@, sep@, start as int) == find_from(s@, sep@, i as int),
            split(s@, sep@) == out.deep_view() + split_from(s@, sep@, start as int),
        decreases n - i,
    {
        if matches_at_exec(s, sep, i) {
            let piece = slice_chars(s, start, i);
            proof {
                lemma_find_from_range(s@, sep@, start as int);
            }
            let ghost before = out.deep_view();
            assert(piece.deep_view() =~= piece@);
            out.push(piece);
            assert(out.deep_view() =~= before.push(piece@));
            assert(split_from(s@, sep@, start as int) == seq![
                s@.subrange(start as int, i as int),
            ] + split_from(s@, sep@, (i + m) as int));
            assert(split(s@, sep@) =~= out.deep_view() + split_from(s@, sep@, (i + m) as int));
            start = i + m;
            i = i + m;
        } else {
            i += 1;
        }
    }
    let piece = slice_chars(s, start, n);
    let ghost before = out.deep_view();
    assert(piece.deep_view() =~= piece@);
    out.push(piece);
    assert(out.deep_view() =~= before.push(piece@));
    assert(split(s@, sep@) =~= out.deep_view());
    out
}

// ---------------------------------------------------------------------------
// Equality, concatenation, conversion
// ---------------------------------------------------------------------------

/// Whether two texts are equal.
pub fn chars_eq(a: &Vec<char>, b: &Vec<char>) -> (r: bool)
    ensures
        r == (a@ == b@),
{
    if a.len() != b.len() {
        return false;
    }
    let mut i: usize = 0;
    while i < a.len()
        invariant
            a.len() == b.len(),
            i <= a.len(),
            forall|k: int| 0 <= k < i ==> a@[k] == b@[k],
        decreases a.len() - i,
    {
        if a[i] != b[i] {
            return false;
        }
        i += 1;
    }
    assert(a@ =~= b@);
    true
}

/// Appends `src` to `dst`.
pub fn push_chars(dst: &mut Vec<char>, src: &Vec<char>)
    ensures
        final(dst)@ == old(dst)@ + src@,
{
    let mut i: usize = 0;
    while i < src.len()
        invariant
            i <= src.len(),
            dst@ == old(dst)@ + src@.subrange(0, i as int),
        decreases src.len() - i,
    {
        dst.push(src[i]);
        i += 1;
        assert(dst@ =~= old(dst)@ + src@.subrange(0, i as int));
    }
    assert(src@.subrange(0, src.len() as int) =~= src@);
}

/// Appends the characters of `s` to `dst`.
pub fn push_str(dst: &mut Vec<char>, s: &str)
    ensures
        final(dst)@ == old(dst)@ + s@,
{
    let v = chars_of(s);
    push_chars(dst, &v);
}

/// The characters of `s`, one by one.
pub fn chars_of(s: &str) -> (r: Vec<char>)
    ensures
        r@ == s@,
{
    let mut r: Vec<char> = Vec::new();
    for c in it: s.chars()
        invariant
            r@ == it.seq().take(it.index() as int),
    {
        r.push(c);
    }
    r
}

/// The string made of the characters `v`; `String`'s `FromIterator<char>`.
#[verifier::external_body]
pub(crate) fn string_of(v: &Vec<char>) -> (r: String)
    ensures
        r@ == v@,
{
    v.iter().collect()
}

// ---------------------------------------------------------------------------
// Decimal numbers
// ---------------------------------------------------------------------------

pub open spec fn is_digit(c: char) -> bool {
    '0' <= c && c <= '9'
}

pub open spec fn digit_value(c: char) -> int {
    c as int - '0' as int
}

pub open spec fn digit_char(d: int) -> char {
    (d + '0' as int) as char
}

pub open spec fn all_digits(s: Seq<char>) -> bool {
    forall|i: int| 0 <= i < s.len() ==> is_digit(#[trigger] s[i])
}

/// The number that the decimal digits `s` write.
pub open spec fn digits_value(s: Seq<char>) -> int
    decreases s.len(),
{
    if s.len() == 0 {
        0
    } else {
        digits_value(s.drop_last()) * 10 + digit_value(s.last())
    }
}

/// What `str::parse::<u32>` gives: an optional `+`, then at least one decimal
/// digit, of a value that fits in `u32`.
pub open spec fn parse_u32_spec(s: Seq<char>) -> Option<u32> {
    let d = if s.len() > 0 && s[0] == '+' {
        s.drop_first()
    } else {
        s
    };
    if d.len() == 0 || !all_digits(d) || digits_value(d) > u32::MAX {
        None
    } else {
        Some(digits_value(d) as u32)
    }
}

/// The decimal digits of `n`, without leading zeros, as `Display` writes them.
pub open spec fn decimal(n: nat) -> Seq<char>
    decreases n,
{
    if n < 10 {
        seq![digit_char(n as int)]
    } else {
        decimal(n / 10) + seq![digit_char((n % 10) as int)]
    }
}

proof fn lemma_digits_value_nonneg(s: Seq<char>)
    requires
        all_digits(s),
    ensures
        digits_value(s) >= 0,
    decreases s.len(),
{
    if s.len() > 0 {
        assert(all_digits(s.drop_last())) by {
            assert forall|i: int| 0 <= i < s.drop_last().len() implies is_digit(
                #[trigger] s.drop_last()[i],
            ) by {
                assert(s.drop_last()[i] == s[i]);
            }
        }
        lemma_digits_value_nonneg(s.drop_last());
        assert(is_digit(s[s.len() - 1]));
    }
}

proof fn lemma_digits_value_prefix(s: Seq<char>, k: int)
    requires
        all_digits(s),
        0 <= k <= s.len(),
    ensures
        digits_value(s.take(k)) <= digits_value(s),
    decreases s.len() - k,
{
    if k < s.len() {
        lemma_digits_value_prefix(s, k + 1);
        assert(s.take(k + 1).drop_last() =~= s.take(k));
        assert(s.take(k + 1).last() == s[k]);
        assert(is_digit(s[k]));
        assert(all_digits(s.take(k))) by {
            assert forall|i: int| 0 <= i < s.take(k).len() implies is_digit(#[trigger] s.take(k)[i]) by {
                assert(s.take(k)[i] == s[i]);
            }
        }
        lemma_digits_value_nonneg(s.take(k));
    } else {
        assert(s.take(k) =~= s);
    }
}

/// The value of the decimal text `s`, as `str::parse::<u32>` reads it.
pub fn parse_u32(s: &Vec<char>) -> (r: Option<u32>)
    ensures
        r == parse_u32_spec(s@),
{
    let n = s.len();
    let mut i: usize = 0;
    if n > 0 && s[0] == '+' {
        i = 1;
    }
    let ghost d = if s@.len() > 0 && s@[0] == '+' {
        s@.drop_first()
    } else {
        s@
    };
    assert(d =~= s@.subrange(i as int, n as int));
    if i == n {
        return None;
    }
    let start = i;
    let mut acc: u64 = 0;
    while i < n
        invariant
            n == s.len(),
            start <= i <= n,
            start < n,
            d == s@.subrange(start as int, n as int),
            d == (if s@.len() > 0 && s@[0] == '+' {
                s@.drop_first()
            } else {
                s@
            }),
            all_digits(s@.subrange(start as int, i as int)),
            acc == digits_value(s@.subrange(start as int, i as int)),
            acc <= u32::MAX,
        decreases n - i,
    {
        let c = s[i];
        let ghost pre = s@.subrange(start as int, i as int);
        let ghost next = s@.subrange(start as int, i + 1);
        assert(next.drop_last() =~= pre);
        assert(next.last() == c);
        if !('0' <= c && c <= '9') {
            assert(d[i - start] == c);
            assert(!is_digit(d[i - start]));
            return None;
        }
        assert(all_digits(next)) by {
            assert forall|k: int| 0 <= k < next.len() implies is_digit(#[trigger] next[k]) by {
                if k < pre.len() {
                    assert(next[k] == pre[k]);
                }
            }
        }
        let dv = (c as u32 - '0' as u32) as u64;
        acc = acc * 10 + dv;
        if acc > 0xffff_ffff {
            proof {
                assert(next =~= d.take(i + 1 - start));
                assert(digits_value(next) == acc);
                if all_digits(d) {
                    lemma_digits_value_prefix(d, i + 1 - start);
                }
            }
            return None;
        }
        i += 1;
    }
    assert(s@.subrange(start as int, n as int) =~= d);
    Some(acc as u32)
}

/// The decimal digits of `n`.
pub fn decimal_chars(n: u32) -> (r: Vec<char>)
    ensures
        r@ == decimal(n as nat),
    decreases n,
{
    if n < 10 {
        let c = char_of_digit(n);
        let mut v: Vec<char> = Vec::new();
        v.push(c);
        v
    } else {
        let mut v = decimal_chars(n / 10);
        let c = char_of_digit(n % 10);
        v.push(c);
        v
    }
}

fn char_of_digit(d: u32) -> (c: char)
    requires
        d < 10,
    ensures
        c == digit_char(d as int),
{
    if d == 0 {
        '0'
    } else if d == 1 {
        '1'
    } else if d == 2 {
        '2'
    } else if d == 3 {
        '3'
    } else if d == 4 {
        '4'
    } else if d == 5 {
        '5'
    } else if d == 6 {
        '6'
    } else if d == 7 {
        '7'
    } else if d == 8 {
        '8'
    } else {
        '9'
    }
}

// ---------------------------------------------------------------------------
// Padding
// ---------------------------------------------------------------------------

/// `s` followed by spaces up to `w` characters, as `{:<w}` writes it.
pub open spec fn pad_right(s: Seq<char>, w: nat) -> Seq<char> {
    if s.len() >= w {
        s
    } else {
        s + Seq::new((w - s.len()) as nat, |_i: int| ' ')
    }
}

/// `s` padded with spaces on the right to `w` characters.
pub fn pad_chars(s: &Vec<char>, w: usize) -> (r: Vec<char>)
    ensures
        r@ == pad_right(s@, w as nat),
{
    let mut r: Vec<char> = Vec::new();
    push_chars(&mut r, s);
    assert(r@ =~= s@);
    while r.len() < w
        invariant
            r@.subrange(0, s@.len() as int) == s@,
            s@.len() <= r@.len(),
            forall|k: int| s@.len() <= k < r@.len() ==> r@[k] == ' ',
            r@.len() <= w || r@ == s@,
        decreases w - r.len(),
    {
        r.push(' ');
    }
    assert(r@ =~= pad_right(s@, w as nat));
    r
}

// ---------------------------------------------------------------------------
// Case-insensitive comparison
// ---------------------------------------------------------------------------

pub open spec fn ascii_lower(c: char) -> char {
    if 'A' <= c && c <= 'Z' {
        ((c as u32) + 32) as char
    } else {
        c
    }
}

/// Equality up to ASCII case, as `str::eq_ignore_ascii_case` decides it.
pub open spec fn eq_ignore_ascii_case(a: Seq<char>, b: Seq<char>) -> bool {
    a.len() == b.len() && forall|i: int| 0 <= i < a.len() ==> ascii_lower(#[trigger] a[i])
        == ascii_lower(b[i])
}

fn lower_char(c: char) -> (r: char)
    ensures
        r == ascii_lower(c),
{
    if 'A' <= c && c <= 'Z' {
        ((c as u8) + 32) as char
    } else {
        c
    }
}

/// Whether `a` and `b` are equal up to ASCII case.
pub fn chars_eq_ignore_ascii_case(a: &Vec<char>, b: &Vec<char>) -> (r: bool)
    ensures
        r == eq_ignore_ascii_case(a@, b@),
{
    if a.len() != b.len() {
        return false;
    }
    let mut i: usize = 0;
    while i < a.len()
        invariant
            a.len() == b.len(),
            i <= a.len(),
            forall|k: int| 0 <= k < i ==> ascii_lower(#[trigger] a@[k]) == ascii_lower(b@[k]),
        decreases a.len() - i,
    {
        if lower_char(a[i]) != lower_char(b[i]) {
            return false;
        }
        i += 1;
    }
    true
}

} // verus!
