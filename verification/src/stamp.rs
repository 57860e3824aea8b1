//! Archive Target naming: a wall-clock timestamp formatted to second
//! precision, prefixed to the source file's name, with the archive extension
//! appended.
//!
//! The produced name is `<YYYY-MM-DD_HH-MM-SS>_<originalname>.zip`. The
//! timestamp makes names of sequential runs distinct; two runs within the
//! same second may collide, an accepted window.

use vstd::prelude::*;
use crate::classify::has_log_ext;
use crate::classify::log_suffix;
use chrono::Datelike;
use chrono::Timelike;

verus! {

/// A wall-clock instant at second precision, with each field in its
/// calendar range and the year within four digits.
#[derive(Clone, Copy, PartialEq, Eq, Structural, Debug)]
pub struct Stamp {
    pub year: u16,
    pub month: u8,
    pub day: u8,
    pub hour: u8,
    pub minute: u8,
    pub second: u8,
}

impl Stamp {
    /// Every field fits the `YYYY-MM-DD_HH-MM-SS` rendering and its
    /// calendar range.
    pub open spec fn wf(self) -> bool {
        self.year <= 9999 && 1 <= self.month <= 12 && 1 <= self.day <= 31 && self.hour <= 23
            && self.minute <= 59 && self.second <= 59
    }
}

/// The decimal digit character for `d`.
pub open spec fn digit_char(d: int) -> char {
    if d == 0 {
        '0'
    } else if d == 1 {
        '1'
    } else if d == 2 {
        '2'
    } else if d == 3 {
        '3'
    } else if d == 4 {
        '4'
    } else if d == 5 {
        '5'
    } else if d == 6 {
        '6'
    } else if d == 7 {
        '7'
    } else if d == 8 {
        '8'
    } else {
        '9'
    }
}

/// `n` rendered as exactly two decimal digits, zero-padded.
pub open spec fn two_digits(n: int) -> Seq<char> {
    seq![digit_char(n / 10), digit_char(n % 10)]
}

/// `n` rendered as exactly four decimal digits, zero-padded.
pub open spec fn four_digits(n: int) -> Seq<char> {
    seq![
        digit_char(n / 1000),
        digit_char((n / 100) % 10),
        digit_char((n / 10) % 10),
        digit_char(n % 10),
    ]
}

/// The timestamp rendered as `YYYY-MM-DD_HH-MM-SS`.
pub open spec fn stamp_chars(t: Stamp) -> Seq<char> {
    four_digits(t.year as int) + seq!['-'] + two_digits(t.month as int) + seq!['-'] + two_digits(
        t.day as int,
    ) + seq!['_'] + two_digits(t.hour as int) + seq!['-'] + two_digits(t.minute as int)
        + seq!['-'] + two_digits(t.second as int)
}

/// The archive's name for a source file: the rendered timestamp, an
/// underscore, the source name, and the `.zip` extension.
pub open spec fn archive_name_chars(t: Stamp, name: Seq<char>) -> Seq<char> {
    stamp_chars(t) + seq!['_'] + name + seq!['.', 'z', 'i', 'p']
}

/// The digit character for `d`, as a one-character string slice.
fn digit_str(d: u32) -> (r: &'static str)
    requires
        d < 10,
    ensures
        r@ == seq![digit_char(d as int)],
{
    let r: &'static str = match d {
        0 => "0",
        1 => "1",
        2 => "2",
        3 => "3",
        4 => "4",
        5 => "5",
        6 => "6",
        7 => "7",
        8 => "8",
        _ => "9",
    };
    proof {
        reveal_strlit("0");
        reveal_strlit("1");
        reveal_strlit("2");
        reveal_strlit("3");
        reveal_strlit("4");
        reveal_strlit("5");
        reveal_strlit("6");
        reveal_strlit("7");
        reveal_strlit("8");
        reveal_strlit("9");
        assert(r@ =~= seq![digit_char(d as int)]);
    }
    r
}

/// Append `n` to `s` as two zero-padded decimal digits.
fn push_two_digits(s: &mut String, n: u32)
    requires
        n < 100,
    ensures
        final(s)@ == old(s)@ + two_digits(n as int),
{
    s.append(digit_str(n / 10));
    s.append(digit_str(n % 10));
    proof {
        assert(s@ =~= old(s)@ + two_digits(n as int));
    }
}

/// Append `n` to `s` as four zero-padded decimal digits.
fn push_four_digits(s: &mut String, n: u32)
    requires
        n < 10000,
    ensures
        final(s)@ == old(s)@ + four_digits(n as int),
{
    s.append(digit_str(n / 1000));
    s.append(digit_str((n / 100) % 10));
    s.append(digit_str((n / 10) % 10));
    s.append(digit_str(n % 10));
    proof {
        assert(s@ =~= old(s)@ + four_digits(n as int));
    }
}

/// Render a timestamp as `YYYY-MM-DD_HH-MM-SS`.
pub fn format_stamp(t: &Stamp) -> (r: String)
    requires
        t.wf(),
    ensures
        r@ == stamp_chars(*t),
{
    let mut s = String::new();
    push_four_digits(&mut s, t.year as u32);
    s.append("-");
    push_two_digits(&mut s, t.month as u32);
    s.append("-");
    push_two_digits(&mut s, t.day as u32);
    s.append("_");
    push_two_digits(&mut s, t.hour as u32);
    s.append("-");
    push_two_digits(&mut s, t.minute as u32);
    s.append("-");
    push_two_digits(&mut s, t.second as u32);
    proof {
        reveal_strlit("-");
        reveal_strlit("_");
        assert(s@ =~= stamp_chars(*t));
    }
    s
}

/// Derive the Archive Target name for a source file name.
pub fn archive_name(t: &Stamp, name: &str) -> (r: String)
    requires
        t.wf(),
    ensures
        r@ == archive_name_chars(*t, name@),
{
    let mut s = format_stamp(t);
    s.append("_");
    s.append(name);
    s.append(".zip");
    proof {
        reveal_strlit("_");
        reveal_strlit(".zip");
        assert(s@ =~= archive_name_chars(*t, name@));
    }
    s
}

/// The rendered timestamp is always nineteen characters.
pub proof fn lemma_stamp_chars_len(t: Stamp)
    ensures
        stamp_chars(t).len() == 19,
{
}

/// Archive names separate their parts: equal names imply the same
/// timestamp rendering and the same source name, so two distinct source
/// files never contend for one Archive Target path within a run.
pub proof fn lemma_archive_name_injective(t1: Stamp, t2: Stamp, n1: Seq<char>, n2: Seq<char>)
    requires
        archive_name_chars(t1, n1) == archive_name_chars(t2, n2),
    ensures
        stamp_chars(t1) == stamp_chars(t2),
        n1 == n2,
{
    let a1 = archive_name_chars(t1, n1);
    let a2 = archive_name_chars(t2, n2);
    lemma_stamp_chars_len(t1);
    lemma_stamp_chars_len(t2);
    assert(a1.len() == 19 + 1 + n1.len() + 4);
    assert(a2.len() == 19 + 1 + n2.len() + 4);
    assert(n1.len() == n2.len());
    assert(stamp_chars(t1) =~= stamp_chars(t2)) by {
        assert(forall|i: int| 0 <= i < 19 ==> a1[i] == #[trigger] stamp_chars(t1)[i]);
        assert(forall|i: int| 0 <= i < 19 ==> a2[i] == #[trigger] stamp_chars(t2)[i]);
    }
    assert(n1 =~= n2) by {
        assert(forall|i: int| 0 <= i < n1.len() ==> a1[20 + i] == #[trigger] n1[i]);
        assert(forall|i: int| 0 <= i < n2.len() ==> a2[20 + i] == #[trigger] n2[i]);
    }
}

/// An archive's own name never carries the `log` extension: it ends in
/// `.zip`, so one run's output is never the next run's candidate.
pub proof fn lemma_archive_name_not_log(t: Stamp, name: Seq<char>)
    ensures
        !has_log_ext(archive_name_chars(t, name)),
{
    let a = archive_name_chars(t, name);
    assert(a.len() >= 24);
    assert(a[a.len() - 1] == 'p');
    if has_log_ext(a) {
        assert(a.subrange(a.len() - 4, a.len() as int)[3] == log_suffix()[3]);
        assert(a[a.len() - 1] == 'g');
    }
}

/// Relies on `chrono::Local::now` and chrono's `Datelike`/`Timelike`
/// accessors for the local wall-clock time: `month()` is within 1..=12,
/// `day()` within 1..=31, `hour()` at most 23, `minute()` and `second()`
/// at most 59; a leap second is carried in the nanosecond field, so
/// `second()` stays within range. Nothing is promised of the year, which
/// the caller clamps.
#[verifier::external_body]
fn clock_now() -> (r: (i32, u32, u32, u32, u32, u32))
    ensures
        1 <= r.1 <= 12,
        1 <= r.2 <= 31,
        r.3 <= 23,
        r.4 <= 59,
        r.5 <= 59,
{
    let t = chrono::Local::now();
    (t.year(), t.month(), t.day(), t.hour(), t.minute(), t.second())
}

/// Shape one drawn clock reading into a timestamp: the calendar fields
/// are taken as they are, and the year is clamped into four digits.
pub fn stamp_of_clock(y: i32, mo: u32, d: u32, h: u32, mi: u32, s: u32) -> (r: Stamp)
    requires
        1 <= mo <= 12,
        1 <= d <= 31,
        h <= 23,
        mi <= 59,
        s <= 59,
    ensures
        r.year as int == (if y < 0 {
            0int
        } else if y > 9999 {
            9999int
        } else {
            y as int
        }),
        r.month as u32 == mo,
        r.day as u32 == d,
        r.hour as u32 == h,
        r.minute as u32 == mi,
        r.second as u32 == s,
        r.wf(),
{
    let year: u16 = if y < 0 {
        0
    } else if y > 9999 {
        9999
    } else {
        y as u16
    };
    Stamp {
        year,
        month: mo as u8,
        day: d as u8,
        hour: h as u8,
        minute: mi as u8,
        second: s as u8,
    }
}

/// Read the current local time as a well-formed timestamp, the year
/// clamped into four digits by `stamp_of_clock`.
pub fn now_stamp() -> (r: Stamp)
    ensures
        r.wf(),
{
    let (y, mo, d, h, mi, s) = clock_now();
    stamp_of_clock(y, mo, d, h, mi, s)
}

} // verus!
