//! Extracting metrics embedded in log lines.  A log line may carry a
//! marker followed by a semicolon-separated triple `name;value;timestamp`;
//! the command picks the text after the last marker, parses the triple, and
//! stores it as a metric row.  Reading the lines is the host program's
//! side; everything from characters to rows happens here.
use crate::db::{Db, MetricRow};
use crate::ParseWebserverLogsOpts;
use vstd::prelude::*;
use vstd::string::*;

verus! {

/// A decimal digit.
pub open spec fn is_digit(c: char) -> bool {
    48 <= c as u32 && c as u32 <= 57
}

/// The value of one digit character.
pub open spec fn digit_value(c: char) -> int {
    c as u32 - 48
}

/// Every character is a digit.
pub open spec fn all_digits(s: Seq<char>) -> bool {
    forall|i: int| 0 <= i < s.len() ==> is_digit(#[trigger] s[i])
}

/// The value of a digit string read in base ten.
pub open spec fn digits_value(s: Seq<char>) -> int
    decreases s.len(),
{
    if s.len() == 0 {
        0
    } else {
        digits_value(s.drop_last()) * 10 + digit_value(s.last())
    }
}

/// A digit string's value is never negative.
pub proof fn lemma_digits_value_nonneg(s: Seq<char>)
    requires
        all_digits(s),
    ensures
        digits_value(s) >= 0,
    decreases s.len(),
{
    if s.len() > 0 {
        assert(all_digits(s.drop_last()));
        lemma_digits_value_nonneg(s.drop_last());
    }
}

/// Reading more digits never shrinks the value.
pub proof fn lemma_digits_prefix_bound(s: Seq<char>, k: int)
    requires
        all_digits(s),
        0 <= k <= s.len(),
    ensures
        digits_value(s.take(k)) <= digits_value(s),
    decreases s.len(),
{
    if k == s.len() {
        assert(s.take(k) =~= s);
    } else {
        assert(all_digits(s.drop_last()));
        lemma_digits_prefix_bound(s.drop_last(), k);
        assert(s.take(k) =~= s.drop_last().take(k));
        lemma_digits_value_nonneg(s.drop_last());
    }
}

/// The text of an `i64`: an optional plus or minus sign, then one or more
/// digits whose value fits the type — the texts std's integer parsing
/// accepts.
pub open spec fn is_i64_text(s: Seq<char>) -> bool {
    if s.len() > 0 && s[0] == '-' {
        let ds = s.subrange(1, s.len() as int);
        &&& ds.len() > 0
        &&& all_digits(ds)
        &&& digits_value(ds) <= i64::MAX + 1
    } else if s.len() > 0 && s[0] == '+' {
        let ds = s.subrange(1, s.len() as int);
        &&& ds.len() > 0
        &&& all_digits(ds)
        &&& digits_value(ds) <= i64::MAX
    } else {
        &&& s.len() > 0
        &&& all_digits(s)
        &&& digits_value(s) <= i64::MAX
    }
}

/// The number an `i64` text denotes.
pub open spec fn i64_text_value(s: Seq<char>) -> int {
    if s.len() > 0 && s[0] == '-' {
        -digits_value(s.subrange(1, s.len() as int))
    } else if s.len() > 0 && s[0] == '+' {
        digits_value(s.subrange(1, s.len() as int))
    } else {
        digits_value(s)
    }
}

/// Parses an `i64` from its decimal text: `Some` exactly for a well-formed
/// text whose value fits, and then the denoted value.
pub fn parse_i64(s: &str) -> (r: Option<i64>)
    ensures
        (r is Some) == is_i64_text(s@),
        r matches Some(v) ==> v == i64_text_value(s@),
{
    let n = s.unicode_len();
    if n == 0 {
        return None;
    }
    let first = s.get_char(0);
    let neg = first == '-';
    let signed = neg || first == '+';
    let start: usize = if signed {
        1
    } else {
        0
    };
    if start >= n {
        return None;
    }
    let ghost ds = if signed {
        s@.subrange(1, s@.len() as int)
    } else {
        s@
    };
    let limit: i128 = if neg {
        (i64::MAX as i128) + 1
    } else {
        i64::MAX as i128
    };
    let mut acc: i128 = 0;
    let mut i: usize = start;
    proof {
        assert(ds.take(0) =~= Seq::<char>::empty());
    }
    while i < n
        invariant
            n == s@.len(),
            start <= i <= n,
            start == if signed {
                1int
            } else {
                0int
            },
            neg == (s@.len() > 0 && s@[0] == '-'),
            signed == (s@.len() > 0 && (s@[0] == '-' || s@[0] == '+')),
            ds == if signed {
                s@.subrange(1, s@.len() as int)
            } else {
                s@
            },
            limit == if neg {
                i64::MAX + 1
            } else {
                i64::MAX as int
            },
            all_digits(ds.take(i - start)),
            acc == digits_value(ds.take(i - start)),
            0 <= acc <= limit,
        decreases n - i,
    {
        let c = s.get_char(i);
        let u = c as u32;
        if u < 48 || u > 57 {
            proof {
                assert(ds[i - start] == s@[i as int]);
                assert(!is_digit(ds[i - start]));
            }
            return None;
        }
        let d = (u - 48) as i128;
        let acc2 = acc * 10 + d;
        proof {
            assert(ds.take(i - start + 1).drop_last() =~= ds.take(i - start));
            assert(ds.take(i - start + 1).last() == ds[i - start]);
            assert(ds[i - start] == s@[i as int]);
            assert(digit_value(ds[i - start]) == d);
            assert(acc2 == digits_value(ds.take(i - start + 1)));
        }
        if acc2 > limit {
            proof {
                if is_i64_text(s@) {
                    assert(all_digits(ds));
                    lemma_digits_prefix_bound(ds, i - start + 1);
                    assert(digits_value(ds) >= acc2);
                }
            }
            return None;
        }
        acc = acc2;
        i = i + 1;
    }
    proof {
        assert(ds.take(n - start) =~= ds);
    }
    if neg {
        Some((-acc) as i64)
    } else {
        Some(acc as i64)
    }
}

/// The states of the numeric-text scanner.  State 0 is the start; negative
/// means rejected; the accepting states are those of
/// [`spec_numeric_accepting`].  Beside the decimal forms, the scanner
/// accepts the spellings `inf`, `infinity` and `nan` in any letter case,
/// with an optional sign, as Rust's float parsing does.
pub open spec fn num_step(state: int, c: char) -> int {
    let u = c as u32;
    let digit = 48 <= u && u <= 57;
    if state == 0 {
        if c == '-' || c == '+' {
            1
        } else if digit {
            2
        } else if c == '.' {
            5
        } else if c == 'i' || c == 'I' {
            9
        } else if c == 'n' || c == 'N' {
            16
        } else {
            -1
        }
    } else if state == 1 {
        if digit {
            2
        } else if c == '.' {
            5
        } else if c == 'i' || c == 'I' {
            9
        } else if c == 'n' || c == 'N' {
            16
        } else {
            -1
        }
    } else if state == 2 {
        if digit {
            2
        } else if c == '.' {
            3
        } else if c == 'e' || c == 'E' {
            6
        } else {
            -1
        }
    } else if state == 3 {
        if digit {
            4
        } else if c == 'e' || c == 'E' {
            6
        } else {
            -1
        }
    } else if state == 4 {
        if digit {
            4
        } else if c == 'e' || c == 'E' {
            6
        } else {
            -1
        }
    } else if state == 5 {
        if digit {
            4
        } else {
            -1
        }
    } else if state == 6 {
        if c == '-' || c == '+' {
            7
        } else if digit {
            8
        } else {
            -1
        }
    } else if state == 7 {
        if digit {
            8
        } else {
            -1
        }
    } else if state == 8 {
        if digit {
            8
        } else {
            -1
        }
    } else if state == 9 {
        if c == 'n' || c == 'N' {
            10
        } else {
            -1
        }
    } else if state == 10 {
        if c == 'f' || c == 'F' {
            11
        } else {
            -1
        }
    } else if state == 11 {
        if c == 'i' || c == 'I' {
            12
        } else {
            -1
        }
    } else if state == 12 {
        if c == 'n' || c == 'N' {
            13
        } else {
            -1
        }
    } else if state == 13 {
        if c == 'i' || c == 'I' {
            14
        } else {
            -1
        }
    } else if state == 14 {
        if c == 't' || c == 'T' {
            15
        } else {
            -1
        }
    } else if state == 15 {
        if c == 'y' || c == 'Y' {
            19
        } else {
            -1
        }
    } else if state == 16 {
        if c == 'a' || c == 'A' {
            17
        } else {
            -1
        }
    } else if state == 17 {
        if c == 'n' || c == 'N' {
            18
        } else {
            -1
        }
    } else {
        -1
    }
}

/// The scanner's state after the first `k` characters.
pub open spec fn num_scan(s: Seq<char>, k: int) -> int
    decreases k,
{
    if k <= 0 {
        0
    } else {
        num_step(num_scan(s, k - 1), s[k - 1])
    }
}

/// The scanner accepts: a complete decimal form (digits were read, and
/// neither a decimal point nor an exponent marker is left dangling), or a
/// complete `inf`, `infinity` or `nan` spelling.
pub open spec fn spec_numeric_accepting(state: int) -> bool {
    state == 2 || state == 3 || state == 4 || state == 8 || state == 11 || state == 18 || state
        == 19
}

/// The text of a decimal number as the metric rows store it: an optional
/// sign, an integer and/or fractional part, and an optional exponent.
pub open spec fn is_numeric_text(s: Seq<char>) -> bool {
    spec_numeric_accepting(num_scan(s, s.len() as int))
}

/// One scanner step.
fn num_step_exec(state: i32, c: char) -> (r: i32)
    requires
        -1 <= state <= 19,
    ensures
        r as int == num_step(state as int, c),
        -1 <= r <= 19,
{
    let u = c as u32;
    let digit = 48 <= u && u <= 57;
    match state {
        0 => {
            if c == '-' || c == '+' {
                1
            } else if digit {
                2
            } else if c == '.' {
                5
            } else if c == 'i' || c == 'I' {
                9
            } else if c == 'n' || c == 'N' {
                16
            } else {
                -1
            }
        },
        1 => {
            if digit {
                2
            } else if c == '.' {
                5
            } else if c == 'i' || c == 'I' {
                9
            } else if c == 'n' || c == 'N' {
                16
            } else {
                -1
            }
        },
        2 => {
            if digit {
                2
            } else if c == '.' {
                3
            } else if c == 'e' || c == 'E' {
                6
            } else {
                -1
            }
        },
        3 => {
            if digit {
                4
            } else if c == 'e' || c == 'E' {
                6
            } else {
                -1
            }
        },
        4 => {
            if digit {
                4
            } else if c == 'e' || c == 'E' {
                6
            } else {
                -1
            }
        },
        5 => {
            if digit {
                4
            } else {
                -1
            }
        },
        6 => {
            if c == '-' || c == '+' {
                7
            } else if digit {
                8
            } else {
                -1
            }
        },
        7 => {
            if digit {
                8
            } else {
                -1
            }
        },
        8 => {
            if digit {
                8
            } else {
                -1
            }
        },
        9 => {
            if c == 'n' || c == 'N' {
                10
            } else {
                -1
            }
        },
        10 => {
            if c == 'f' || c == 'F' {
                11
            } else {
                -1
            }
        },
        11 => {
            if c == 'i' || c == 'I' {
                12
            } else {
                -1
            }
        },
        12 => {
            if c == 'n' || c == 'N' {
                13
            } else {
                -1
            }
        },
        13 => {
            if c == 'i' || c == 'I' {
                14
            } else {
                -1
            }
        },
        14 => {
            if c == 't' || c == 'T' {
                15
            } else {
                -1
            }
        },
        15 => {
            if c == 'y' || c == 'Y' {
                19
            } else {
                -1
            }
        },
        16 => {
            if c == 'a' || c == 'A' {
                17
            } else {
                -1
            }
        },
        17 => {
            if c == 'n' || c == 'N' {
                18
            } else {
                -1
            }
        },
        _ => -1,
    }
}

/// Whether the text is a decimal number in the stored form.
pub fn is_numeric_value(s: &str) -> (r: bool)
    ensures
        r == is_numeric_text(s@),
{
    let n = s.unicode_len();
    let mut state: i32 = 0;
    let mut i: usize = 0;
    while i < n
        invariant
            n == s@.len(),
            i <= n,
            -1 <= state <= 19,
            state as int == num_scan(s@, i as int),
        decreases n - i,
    {
        let c = s.get_char(i);
        state = num_step_exec(state, c);
        i = i + 1;
    }
    state == 2 || state == 3 || state == 4 || state == 8 || state == 11 || state == 18 || state
        == 19
}

/// Positions `p1 < p2` hold the line's only two semicolons.
pub open spec fn two_semis(line: Seq<char>, p1: int, p2: int) -> bool {
    &&& 0 <= p1 < p2 < line.len()
    &&& line[p1] == ';'
    &&& line[p2] == ';'
    &&& (forall|k: int| 0 <= k < line.len() && #[trigger] line[k] == ';' ==> (k == p1 || k == p2))
}

/// Positions `p1 < p2` split the line into a metric triple: they hold the
/// line's only semicolons, the value between them is numeric text, and the
/// tail after the second is an `i64` text.
pub open spec fn valid_metric_line(line: Seq<char>, p1: int, p2: int) -> bool {
    &&& two_semis(line, p1, p2)
    &&& is_numeric_text(line.subrange(p1 + 1, p2))
    &&& is_i64_text(line.subrange(p2 + 1, line.len() as int))
}

/// Parses one extracted `name;value;timestamp` triple into a metric row:
/// `Ok` exactly when the line splits as [`valid_metric_line`] demands, and
/// then the row carries the three parts.  A rejection names its ground: the
/// split, the value, or the timestamp.
pub fn parse_line(line: &str) -> (r: Result<MetricRow, String>)
    ensures
        (r is Ok) == exists|p1: int, p2: int| valid_metric_line(line@, p1, p2),
        r matches Ok(row) ==> exists|p1: int, p2: int| {
            &&& valid_metric_line(line@, p1, p2)
            &&& row.name@ == line@.subrange(0, p1)
            &&& row.value@ == line@.subrange(p1 + 1, p2)
            &&& row.timestamp == i64_text_value(line@.subrange(p2 + 1, line@.len() as int))
        },
        r matches Err(msg) ==> {
            ||| (!(exists|p1: int, p2: int| two_semis(line@, p1, p2)) && msg@
                == "wrong number of values in metric csv"@)
            ||| (exists|p1: int, p2: int|
                two_semis(line@, p1, p2) && !is_numeric_text(line@.subrange(p1 + 1, p2)) && msg@
                    == "invalid metric value"@)
            ||| (exists|p1: int, p2: int|
                two_semis(line@, p1, p2) && is_numeric_text(line@.subrange(p1 + 1, p2))
                    && !is_i64_text(line@.subrange(p2 + 1, line@.len() as int)) && msg@
                    == "invalid timestamp"@)
        },
{
    let n = line.unicode_len();
    let mut semis: Vec<usize> = Vec::new();
    let mut i: usize = 0;
    while i < n
        invariant
            n == line@.len(),
            i <= n,
            forall|t: int| 0 <= t < semis@.len() ==> #[trigger] semis@[t] < i,
            forall|t: int| 0 <= t < semis@.len() ==> line@[#[trigger] semis@[t] as int] == ';',
            forall|t1: int, t2: int|
                0 <= t1 < t2 < semis@.len() ==> semis@[t1] < semis@[t2],
            forall|k: int|
                0 <= k < i && #[trigger] line@[k] == ';' ==> exists|t: int|
                    0 <= t < semis@.len() && semis@[t] == k,
        decreases n - i,
    {
        let ghost old_semis = semis@;
        if line.get_char(i) == ';' {
            semis.push(i);
        }
        proof {
            assert forall|k: int|
                0 <= k < i + 1 && #[trigger] line@[k] == ';' implies exists|t: int|
                    0 <= t < semis@.len() && semis@[t] == k by {
                if k < i {
                    let t = choose|t: int| 0 <= t < old_semis.len() && old_semis[t] == k;
                    assert(semis@[t] == k);
                } else {
                    assert(semis@[semis@.len() - 1] == k);
                }
            }
        }
        i = i + 1;
    }
    if semis.len() != 2 {
        proof {
            if exists|p1: int, p2: int| two_semis(line@, p1, p2) {
                let (p1, p2) = choose|p1: int, p2: int| two_semis(line@, p1, p2);
                assert(line@[p1] == ';');
                assert(line@[p2] == ';');
                let t1 = choose|t: int| 0 <= t < semis@.len() && semis@[t] == p1;
                let t2 = choose|t: int| 0 <= t < semis@.len() && semis@[t] == p2;
                assert(t1 != t2);
                if semis@.len() > 2 {
                    assert(line@[semis@[0] as int] == ';');
                    assert(line@[semis@[1] as int] == ';');
                    assert(line@[semis@[2] as int] == ';');
                }
                assert(false);
            }
        }
        return Err("wrong number of values in metric csv".to_owned());
    }
    let p1 = semis[0];
    let p2 = semis[1];
    proof {
        assert forall|k: int|
            0 <= k < line@.len() && #[trigger] line@[k] == ';' implies (k == p1 || k == p2) by {
            let t = choose|t: int| 0 <= t < semis@.len() && semis@[t] == k;
        }
        assert(two_semis(line@, p1 as int, p2 as int));
    }
    let value_part = line.substring_char(p1 + 1, p2);
    if !is_numeric_value(value_part) {
        proof {
            if exists|q1: int, q2: int| valid_metric_line(line@, q1, q2) {
                let (q1, q2) = choose|q1: int, q2: int| valid_metric_line(line@, q1, q2);
                assert(line@[q1] == ';');
                assert(line@[q2] == ';');
                assert(q1 == p1 && q2 == p2);
                assert(false);
            }
        }
        return Err("invalid metric value".to_owned());
    }
    let ts_part = line.substring_char(p2 + 1, n);
    let timestamp = match parse_i64(ts_part) {
        Some(v) => v,
        None => {
            proof {
                if exists|q1: int, q2: int| valid_metric_line(line@, q1, q2) {
                    let (q1, q2) = choose|q1: int, q2: int| valid_metric_line(line@, q1, q2);
                    assert(line@[q1] == ';');
                    assert(line@[q2] == ';');
                    assert(q1 == p1 && q2 == p2);
                    assert(false);
                }
            }
            return Err("invalid timestamp".to_owned());
        },
    };
    let name = line.substring_char(0, p1).to_owned();
    proof {
        assert(valid_metric_line(line@, p1 as int, p2 as int));
    }
    Ok(MetricRow::new(name, value_part.to_owned(), timestamp))
}

/// The marker that announces an embedded metric.
pub open spec fn marker_at(line: Seq<char>, i: int) -> bool {
    &&& 0 <= i
    &&& i + 7 < line.len()
    &&& line.subrange(i, i + 7) == "metric:"@
}

/// Whether the seven marker characters stand at position `i`.
fn marker_matches_at(line: &str, i: usize) -> (r: bool)
    requires
        i + 7 <= line@.len(),
        line@.len() <= usize::MAX,
    ensures
        r == (line@.subrange(i as int, i as int + 7) == "metric:"@),
{
    proof {
        reveal_strlit("metric:");
    }
    let r = line.get_char(i) == 'm' && line.get_char(i + 1) == 'e' && line.get_char(i + 2) == 't'
        && line.get_char(i + 3) == 'r' && line.get_char(i + 4) == 'i' && line.get_char(i + 5)
        == 'c' && line.get_char(i + 6) == ':';
    proof {
        let sub = line@.subrange(i as int, i as int + 7);
        if r {
            assert(sub =~= "metric:"@);
        }
        if sub == "metric:"@ {
            assert(line@[i as int] == sub[0]);
            assert(line@[i as int + 1] == sub[1]);
            assert(line@[i as int + 2] == sub[2]);
            assert(line@[i as int + 3] == sub[3]);
            assert(line@[i as int + 4] == sub[4]);
            assert(line@[i as int + 5] == sub[5]);
            assert(line@[i as int + 6] == sub[6]);
        }
    }
    r
}

/// Picks the text after the last marker on the line, when a marker with at
/// least one character after it occurs at all.
pub fn extract_metric_csv(line: &str) -> (r: Option<String>)
    ensures
        (r is Some) == exists|i: int| marker_at(line@, i),
        r matches Some(csv) ==> exists|i: int| {
            &&& marker_at(line@, i)
            &&& (forall|j: int| j > i ==> !marker_at(line@, j))
            &&& csv@ == line@.subrange(i + 7, line@.len() as int)
        },
{
    let n = line.unicode_len();
    if n < 8 {
        return None;
    }
    let mut k: usize = n - 7;
    while k > 0
        invariant
            n == line@.len(),
            n >= 8,
            k <= n - 7,
            forall|j: int| j >= k ==> !marker_at(line@, j),
        decreases k,
    {
        k = k - 1;
        if marker_matches_at(line, k) {
            let csv = line.substring_char(k + 7, n);
            proof {
                assert(marker_at(line@, k as int));
            }
            return Some(csv.to_owned());
        }
    }
    None
}

/// The last marker's tail splits into a valid metric triple: this line
/// yields a row.
pub open spec fn last_csv_valid(line: Seq<char>, i: int, p1: int, p2: int) -> bool {
    &&& marker_at(line, i)
    &&& (forall|j: int| j > i ==> !marker_at(line, j))
    &&& valid_metric_line(line.subrange(i + 7, line.len() as int), p1, p2)
}

pub open spec fn line_yields_row(line: Seq<char>) -> bool {
    exists|i: int, p1: int, p2: int| last_csv_valid(line, i, p1, p2)
}

/// The row the line yields corresponds to its parts.
pub open spec fn row_matches_line(line: Seq<char>, i: int, p1: int, p2: int, row: MetricRow) -> bool {
    let csv = line.subrange(i + 7, line.len() as int);
    &&& row.name@ == csv.subrange(0, p1)
    &&& row.value@ == csv.subrange(p1 + 1, p2)
    &&& row.timestamp == i64_text_value(csv.subrange(p2 + 1, csv.len() as int))
}

/// The `t`-th collected row comes from the `t`-th yielding line: some line
/// index `l` yields a row, exactly `t` earlier lines yield one, and the
/// row carries that line's parts — so rows follow line order, one per
/// yielding line.
pub open spec fn row_at(lines: Seq<String>, t: int, row: MetricRow) -> bool {
    exists|l: int, i: int, p1: int, p2: int|
        0 <= l < lines.len() && count_yields(lines, l) == t && #[trigger] last_csv_valid(
            lines[l]@,
            i,
            p1,
            p2,
        ) && row_matches_line(lines[l]@, i, p1, p2, row)
}

/// How many of the first `k` lines yield a row.
pub open spec fn count_yields(lines: Seq<String>, k: int) -> int
    decreases k,
{
    if k <= 0 {
        0
    } else {
        count_yields(lines, k - 1) + if line_yields_row(lines[k - 1]@) {
            1int
        } else {
            0int
        }
    }
}

/// The log-metric extraction command.
pub struct ParseWebserverLogs {
    pub opts: ParseWebserverLogsOpts,
}

impl ParseWebserverLogs {
    pub fn new(opts: ParseWebserverLogsOpts) -> (r: ParseWebserverLogs)
        ensures
            r.opts == opts,
    {
        ParseWebserverLogs { opts }
    }

    /// Turns log lines into metric rows: one row per line that carries a
    /// marker whose tail parses, in line order, each row built from its
    /// line's parts: the `t`-th row belongs to the `t`-th yielding line.
    pub fn collect_rows(lines: &Vec<String>) -> (rows: Vec<MetricRow>)
        ensures
            rows@.len() == count_yields(lines@, lines@.len() as int),
            forall|t: int| 0 <= t < rows@.len() ==> row_at(lines@, t, #[trigger] rows@[t]),
    {
        let n = lines.len();
        let mut rows: Vec<MetricRow> = Vec::new();
        let mut l: usize = 0;
        while l < n
            invariant
                n == lines@.len(),
                l <= n,
                rows@.len() == count_yields(lines@, l as int),
                forall|t: int| 0 <= t < rows@.len() ==> row_at(lines@, t, #[trigger] rows@[t]),
            decreases n - l,
        {
            let line = &lines[l];
            let extracted = extract_metric_csv(line.as_str());
            match extracted {
                Some(csv) => {
                    match parse_line(csv.as_str()) {
                        Ok(row) => {
                            let ghost prev = rows@;
                            let ghost the_row = row;
                            proof {
                                let i = choose|i: int|
                                    marker_at(line@, i) && (forall|j: int|
                                        j > i ==> !marker_at(line@, j)) && csv@ == line@.subrange(
                                        i + 7,
                                        line@.len() as int,
                                    );
                                let (p1, p2) = choose|p1: int, p2: int|
                                    valid_metric_line(csv@, p1, p2) && row.name@ == csv@.subrange(
                                        0,
                                        p1,
                                    ) && row.value@ == csv@.subrange(p1 + 1, p2) && row.timestamp
                                        == i64_text_value(csv@.subrange(p2 + 1, csv@.len() as int));
                                assert(last_csv_valid(line@, i, p1, p2));
                                assert(row_matches_line(line@, i, p1, p2, row));
                                assert(line_yields_row(line@));
                                assert(row_at(lines@, prev.len() as int, row)) by {
                                    assert(0 <= l < lines@.len() && count_yields(lines@, l as int)
                                        == prev.len() && last_csv_valid(
                                        lines@[l as int]@,
                                        i,
                                        p1,
                                        p2,
                                    ) && row_matches_line(lines@[l as int]@, i, p1, p2, row));
                                }
                            }
                            rows.push(row);
                            proof {
                                assert forall|t: int|
                                    0 <= t < rows@.len() implies row_at(
                                    lines@,
                                    t,
                                    #[trigger] rows@[t],
                                ) by {
                                    if t < prev.len() {
                                        assert(rows@[t] == prev[t]);
                                        assert(row_at(lines@, t, prev[t]));
                                    } else {
                                        assert(rows@[t] == the_row);
                                        assert(row_at(lines@, prev.len() as int, the_row));
                                    }
                                }
                            }
                        },
                        Err(_) => {
                            proof {
                                if line_yields_row(line@) {
                                    let (i, p1, p2) = choose|i: int, p1: int, p2: int|
                                        last_csv_valid(line@, i, p1, p2);
                                    let i2 = choose|i2: int|
                                        marker_at(line@, i2) && (forall|j: int|
                                            j > i2 ==> !marker_at(line@, j)) && csv@
                                            == line@.subrange(i2 + 7, line@.len() as int);
                                    assert(i == i2);
                                    assert(valid_metric_line(csv@, p1, p2));
                                    assert(false);
                                }
                            }
                        },
                    }
                },
                None => {
                    proof {
                        if line_yields_row(line@) {
                            let (i, p1, p2) = choose|i: int, p1: int, p2: int|
                                last_csv_valid(line@, i, p1, p2);
                            assert(marker_at(line@, i));
                            assert(false);
                        }
                    }
                },
            }
            l = l + 1;
        }
        rows
    }

    /// Stores the rows in the database the options name, one insert each,
    /// and reports how many inserts the database accepted; a rejected row
    /// does not stop the rest.
    pub fn insert_in_db(&self, rows: &Vec<MetricRow>) -> (inserted: usize)
        ensures
            inserted <= rows@.len(),
    {
        let db: Db<MetricRow> = Db::new(self.opts.db_path.clone());
        let n = rows.len();
        let mut inserted: usize = 0;
        let mut i: usize = 0;
        while i < n
            invariant
                n == rows@.len(),
                i <= n,
                inserted <= i,
            decreases n - i,
        {
            let row = &rows[i];
            let copy = MetricRow::new(row.name.clone(), row.value.clone(), row.timestamp);
            match db.insert_metric(copy) {
                Ok(()) => {
                    inserted = inserted + 1;
                },
                Err(_) => {},
            }
            i = i + 1;
        }
        inserted
    }

    /// The whole extraction pass over the given log lines: collect the rows
    /// they yield and store them.  It always completes; rows the database
    /// rejects are skipped.
    pub fn parse(&self, lines: &Vec<String>) -> (r: Result<(), String>)
        ensures
            r is Ok,
    {
        let rows = Self::collect_rows(lines);
        let _inserted = self.insert_in_db(&rows);
        Ok(())
    }
}

} // verus!
