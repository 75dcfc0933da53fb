//! Date, time and duration literals.
//!
//! A 10-character literal `YYYY-MM-DD` means midnight of that date; a longer
//! literal must have the shape `YYYY-MM-DDTHH:MM:SS` with an optional
//! fraction of one to nine digits.  Durations have the restricted ISO shape
//! `PT<h>H<m>M<s>[.<fraction>]S`; scanning is permissive, exactly as the
//! decoder treats it: digits accumulate into the next unfinished field and
//! unknown characters are ignored.

use vstd::prelude::*;
use crate::numtext::{
    all_digits,
    dec_val,
    dec_str,
    dec_str_pad,
    digit_val,
    is_digit,
    pow10,
    lemma_dec_val_bounds,
    lemma_pow10_pos,
    lemma_dec_str,
    lemma_dec_str_pad_exact,
    parse_dec_u64,
    dec_u64_string,
    dec_pad_string,
};
use crate::value::{CellDateTime, CellDuration, days_in_month};

verus! {

/// Meaning of a 10-character date literal.
pub open spec fn spec_parse_date10(s: Seq<char>) -> Option<CellDateTime> {
    if s.len() == 10 && all_digits(s.subrange(0, 4)) && s[4] == '-' && all_digits(
        s.subrange(5, 7),
    ) && s[7] == '-' && all_digits(s.subrange(8, 10)) {
        let y = dec_val(s.subrange(0, 4));
        let m = dec_val(s.subrange(5, 7));
        let d = dec_val(s.subrange(8, 10));
        if 1 <= m <= 12 && 1 <= d <= days_in_month(y, m) {
            Some(
                (CellDateTime {
                    year: y as u32,
                    month: m as u32,
                    day: d as u32,
                    hour: 0,
                    minute: 0,
                    second: 0,
                    nanosecond: 0,
                }),
            )
        } else {
            None
        }
    } else {
        None
    }
}

/// Meaning of a full date-time literal with optional fraction.
pub open spec fn spec_parse_datetime19(s: Seq<char>) -> Option<CellDateTime> {
    if s.len() >= 19 && all_digits(s.subrange(0, 4)) && s[4] == '-' && all_digits(
        s.subrange(5, 7),
    ) && s[7] == '-' && all_digits(s.subrange(8, 10)) && s[10] == 'T' && all_digits(
        s.subrange(11, 13),
    ) && s[13] == ':' && all_digits(s.subrange(14, 16)) && s[16] == ':' && all_digits(
        s.subrange(17, 19),
    ) && (s.len() == 19 || (s[19] == '.' && 21 <= s.len() <= 29 && all_digits(
        s.skip(20),
    ))) {
        let y = dec_val(s.subrange(0, 4));
        let m = dec_val(s.subrange(5, 7));
        let d = dec_val(s.subrange(8, 10));
        let h = dec_val(s.subrange(11, 13));
        let mi = dec_val(s.subrange(14, 16));
        let sec = dec_val(s.subrange(17, 19));
        let nanos = if s.len() == 19 {
            0
        } else {
            dec_val(s.skip(20)) * pow10(9 - (s.len() - 20))
        };
        if 1 <= m <= 12 && 1 <= d <= days_in_month(y, m) && h <= 23 && mi <= 59 && sec <= 59 {
            Some(
                (CellDateTime {
                    year: y as u32,
                    month: m as u32,
                    day: d as u32,
                    hour: h as u32,
                    minute: mi as u32,
                    second: sec as u32,
                    nanosecond: nanos as u32,
                }),
            )
        } else {
            None
        }
    } else {
        None
    }
}

/// Meaning of a date-value attribute: exactly ten characters parse as a date
/// at midnight, anything else must be a full date-time literal.
pub open spec fn spec_parse_datetime_value(s: Seq<char>) -> Option<CellDateTime> {
    if s.len() == 10 {
        spec_parse_date10(s)
    } else {
        spec_parse_datetime19(s)
    }
}

pub proof fn lemma_parse_datetime_value_wf(s: Seq<char>)
    ensures
        match spec_parse_datetime_value(s) {
            Some(dt) => dt.wf(),
            None => true,
        },
{
    reveal_with_fuel(pow10, 11);
    if s.len() == 10 {
        if spec_parse_date10(s) is Some {
            lemma_dec_val_bounds(s.subrange(0, 4));
            lemma_dec_val_bounds(s.subrange(5, 7));
            lemma_dec_val_bounds(s.subrange(8, 10));
        }
    } else {
        if spec_parse_datetime19(s) is Some {
            lemma_dec_val_bounds(s.subrange(0, 4));
            lemma_dec_val_bounds(s.subrange(5, 7));
            lemma_dec_val_bounds(s.subrange(8, 10));
            lemma_dec_val_bounds(s.subrange(11, 13));
            lemma_dec_val_bounds(s.subrange(14, 16));
            lemma_dec_val_bounds(s.subrange(17, 19));
            if s.len() > 19 {
                let frac = s.skip(20);
                lemma_dec_val_bounds(frac);
                lemma_pow10_pos(9 - frac.len() as int);
                assert(dec_val(frac) * pow10(9 - frac.len() as int) < 1_000_000_000) by {
                    vstd::arithmetic::mul::lemma_mul_inequality(
                        dec_val(frac) + 1,
                        pow10(frac.len() as int),
                        pow10(9 - frac.len() as int),
                    );
                    assert(pow10(frac.len() as int) * pow10(9 - frac.len() as int) == pow10(9)) by {
                        lemma_pow10_mul(frac.len() as int, 9 - frac.len() as int);
                    }
                    lemma_pow10_nine();
                    vstd::arithmetic::mul::lemma_mul_is_distributive_add_other_way(
                        pow10(9 - frac.len() as int),
                        dec_val(frac),
                        1,
                    );
                }
                assert(dec_val(frac) * pow10(9 - frac.len() as int) >= 0) by {
                    vstd::arithmetic::mul::lemma_mul_nonnegative(
                        dec_val(frac),
                        pow10(9 - frac.len() as int),
                    );
                }
            }
        }
    }
}

/// Law: a ten-character date literal decodes to the first instant of its
/// day; only the longer form can carry a time of day.
pub proof fn lemma_date10_is_midnight(s: Seq<char>)
    requires
        s.len() == 10,
    ensures
        match spec_parse_datetime_value(s) {
            Some(dt) => dt.is_midnight(),
            None => true,
        },
{
}

pub proof fn lemma_pow10_nine()
    ensures
        pow10(9) == 1_000_000_000,
{
    reveal_with_fuel(pow10, 11);
}

pub proof fn lemma_pow10_mul(a: int, b: int)
    requires
        a >= 0,
        b >= 0,
    ensures
        pow10(a) * pow10(b) == pow10(a + b),
    decreases a,
{
    if a == 0 {
    } else {
        lemma_pow10_mul(a - 1, b);
        assert(pow10(a) * pow10(b) == 10 * (pow10(a - 1) * pow10(b))) by (nonlinear_arith)
            requires
                pow10(a) == 10 * pow10(a - 1),
        ;
    }
}

/// Reads the short digit run `s[from..to]`, defined only when it is all digits.
fn read_digits(s: &str, from: usize, to: usize) -> (r: Option<u64>)
    requires
        from < to <= s@.len(),
        to - from <= 9,
    ensures
        match r {
            Some(v) => all_digits(s@.subrange(from as int, to as int)) && v == dec_val(
                s@.subrange(from as int, to as int),
            ) && v <= 999_999_999,
            None => !all_digits(s@.subrange(from as int, to as int)),
        },
{
    let ghost sub = s@.subrange(from as int, to as int);
    let r = parse_dec_u64(s, from, to);
    proof {
        if all_digits(sub) {
            lemma_dec_val_bounds(sub);
            lemma_pow10_increases(sub.len() as int, 9);
            lemma_pow10_nine();
        }
    }
    r
}

/// Reads a date-value attribute.
pub fn parse_datetime_value(s: &str) -> (r: Option<CellDateTime>)
    ensures
        r == spec_parse_datetime_value(s@),
{
    let n = s.unicode_len();
    if n == 10 {
        parse_date10(s)
    } else {
        parse_datetime19(s)
    }
}

fn parse_date10(s: &str) -> (r: Option<CellDateTime>)
    requires
        s@.len() == 10,
    ensures
        r == spec_parse_date10(s@),
{
    if !(s.get_char(4) == '-' && s.get_char(7) == '-') {
        return None;
    }
    let y = match read_digits(s, 0, 4) {
        Some(v) => v,
        None => {
            return None;
        },
    };
    let m = match read_digits(s, 5, 7) {
        Some(v) => v,
        None => {
            return None;
        },
    };
    let d = match read_digits(s, 8, 10) {
        Some(v) => v,
        None => {
            return None;
        },
    };
    proof {
        lemma_dec_val_bounds(s@.subrange(0, 4));
        lemma_dec_val_bounds(s@.subrange(5, 7));
        lemma_dec_val_bounds(s@.subrange(8, 10));
    }
    if !(1 <= m && m <= 12) {
        return None;
    }
    let dim = days_in_month_exec(y as u32, m as u32);
    if !(1 <= d && d <= dim as u64) {
        return None;
    }
    Some(
        CellDateTime {
            year: y as u32,
            month: m as u32,
            day: d as u32,
            hour: 0,
            minute: 0,
            second: 0,
            nanosecond: 0,
        },
    )
}

/// Days of a month in the proleptic Gregorian calendar.
pub fn days_in_month_exec(y: u32, m: u32) -> (r: u32)
    ensures
        r == days_in_month(y as int, m as int),
{
    if m == 2 {
        if (y % 4 == 0 && (y % 100 != 0 || y % 400 == 0)) {
            29
        } else {
            28
        }
    } else if m == 4 || m == 6 || m == 9 || m == 11 {
        30
    } else {
        31
    }
}

fn parse_datetime19(s: &str) -> (r: Option<CellDateTime>)
    requires
        s@.len() != 10,
    ensures
        r == spec_parse_datetime19(s@),
{
    let n = s.unicode_len();
    if n < 19 {
        return None;
    }
    if !(s.get_char(4) == '-' && s.get_char(7) == '-' && s.get_char(10) == 'T' && s.get_char(13)
        == ':' && s.get_char(16) == ':') {
        return None;
    }
    let y = match read_digits(s, 0, 4) {
        Some(v) => v,
        None => {
            return None;
        },
    };
    let m = match read_digits(s, 5, 7) {
        Some(v) => v,
        None => {
            return None;
        },
    };
    let d = match read_digits(s, 8, 10) {
        Some(v) => v,
        None => {
            return None;
        },
    };
    let h = match read_digits(s, 11, 13) {
        Some(v) => v,
        None => {
            return None;
        },
    };
    let mi = match read_digits(s, 14, 16) {
        Some(v) => v,
        None => {
            return None;
        },
    };
    let sec = match read_digits(s, 17, 19) {
        Some(v) => v,
        None => {
            return None;
        },
    };
    let nanos: u64 = if n == 19 {
        0
    } else {
        if !(s.get_char(19) == '.' && 21 <= n && n <= 29) {
            return None;
        }
        let frac = match read_digits(s, 20, n) {
            Some(v) => v,
            None => {
                return None;
            },
        };
        proof {
            assert(s@.skip(20) =~= s@.subrange(20, n as int));
            lemma_dec_val_bounds(s@.skip(20));
        }
        let mut width: usize = 9 - (n - 20);
        let mut padded: u64 = frac;
        proof {
            lemma_pow10_pos(0);
            assert(s@.skip(20) =~= s@.subrange(20, n as int));
            lemma_dec_val_bounds(s@.skip(20));
            assert(pow10(9 - (s@.len() - 20) - width) == 1);
            assert(dec_val(s@.skip(20)) * 1 == dec_val(s@.skip(20)));
        }
        while width > 0
            invariant
                0 <= width <= 9,
                padded == dec_val(s@.skip(20)) * pow10(9 - (s@.len() - 20) - width),
                dec_val(s@.skip(20)) * pow10(9 - (s@.len() - 20) - width) < pow10(
                    9 - width,
                ),
                s@.len() >= 21,
                9 - (s@.len() - 20) - width >= 0,
            decreases width,
        {
            proof {
                let v = dec_val(s@.skip(20));
                let e = 9 - (s@.len() - 20) - width;
                assert(v * pow10(e + 1) == (v * pow10(e)) * 10) by (nonlinear_arith)
                    requires
                        pow10(e + 1) == 10 * pow10(e),
                ;
                assert((v * pow10(e)) * 10 < pow10(9 - width + 1)) by (nonlinear_arith)
                    requires
                        v * pow10(e) < pow10(9 - width),
                ;
                lemma_pow10_increases(9 - width + 1, 9);
                lemma_pow10_nine();
            }
            padded = padded * 10;
            width = width - 1;
            proof {
                assert(pow10(9 - width) <= pow10(9)) by {
                    lemma_pow10_increases(9 - width, 9);
                }
                lemma_pow10_nine();
            }
        }
        proof {
            lemma_pow10_nine();
            lemma_pow10_increases(9 - 0, 9);
            assert(padded < 1_000_000_000);
        }
        padded
    };
    proof {
        lemma_dec_val_bounds(s@.subrange(0, 4));
        lemma_dec_val_bounds(s@.subrange(5, 7));
        lemma_dec_val_bounds(s@.subrange(8, 10));
        lemma_dec_val_bounds(s@.subrange(11, 13));
        lemma_dec_val_bounds(s@.subrange(14, 16));
        lemma_dec_val_bounds(s@.subrange(17, 19));
        if s@.len() > 19 {
            lemma_parse_datetime_value_wf(s@);
        }
    }
    if !(1 <= m && m <= 12) {
        return None;
    }
    let dim = days_in_month_exec(y as u32, m as u32);
    if !(1 <= d && d <= dim as u64) {
        return None;
    }
    if !(h <= 23 && mi <= 59 && sec <= 59) {
        return None;
    }
    Some(
        CellDateTime {
            year: y as u32,
            month: m as u32,
            day: d as u32,
            hour: h as u32,
            minute: mi as u32,
            second: sec as u32,
            nanosecond: nanos as u32,
        },
    )
}

pub proof fn lemma_pow10_increases(a: int, b: int)
    requires
        0 <= a <= b,
    ensures
        pow10(a) <= pow10(b),
    decreases b - a,
{
    if a < b {
        lemma_pow10_increases(a, b - 1);
        lemma_pow10_pos(b - 1);
    }
}

/// The running state of the duration scanner: the four fields, how many
/// fractional digits have been seen, and which fields are finished.
#[derive(Clone, Copy, PartialEq, Eq, Debug, Structural)]
pub struct DurScan {
    pub hour: u64,
    pub minute: u64,
    pub second: u64,
    pub nanos: u64,
    pub nano_digits: u32,
    pub have_hour: bool,
    pub have_minute: bool,
    pub have_second: bool,
}

pub open spec fn dur_scan_init() -> DurScan {
    DurScan {
        hour: 0,
        minute: 0,
        second: 0,
        nanos: 0,
        nano_digits: 0,
        have_hour: false,
        have_minute: false,
        have_second: false,
    }
}

/// One character of a duration literal: a digit accumulates into the first
/// unfinished field, `H`, `M` and `.` finish a field, anything else is
/// ignored.  `None` reports an overflowing field.
pub open spec fn dur_step(a: DurScan, c: char) -> Option<DurScan> {
    if is_digit(c) {
        let d = digit_val(c);
        if !a.have_hour {
            if a.hour as int * 10 + d > u64::MAX as int {
                None
            } else {
                Some((DurScan { hour: (a.hour as int * 10 + d) as u64, ..a }))
            }
        } else if !a.have_minute {
            if a.minute as int * 10 + d > u64::MAX as int {
                None
            } else {
                Some((DurScan { minute: (a.minute as int * 10 + d) as u64, ..a }))
            }
        } else if !a.have_second {
            if a.second as int * 10 + d > u64::MAX as int {
                None
            } else {
                Some((DurScan { second: (a.second as int * 10 + d) as u64, ..a }))
            }
        } else {
            if a.nanos as int * 10 + d > u64::MAX as int || a.nano_digits == u32::MAX {
                None
            } else {
                Some(
                    (DurScan {
                        nanos: (a.nanos as int * 10 + d) as u64,
                        nano_digits: (a.nano_digits + 1) as u32,
                        ..a
                    }),
                )
            }
        }
    } else if c == 'H' {
        Some((DurScan { have_hour: true, ..a }))
    } else if c == 'M' {
        Some((DurScan { have_minute: true, ..a }))
    } else if c == '.' {
        Some((DurScan { have_second: true, ..a }))
    } else {
        Some(a)
    }
}

pub open spec fn dur_scan_from(a: DurScan, s: Seq<char>) -> Option<DurScan>
    decreases s.len(),
{
    if s.len() == 0 {
        Some(a)
    } else {
        match dur_scan_from(a, s.drop_last()) {
            None => None,
            Some(b) => dur_step(b, s.last()),
        }
    }
}

/// Meaning of a time-value attribute.  After the scan, fewer than nine
/// fractional digits are right padded with zeros; nine or more stand as
/// scanned, with whole seconds carried over, exactly as a normalized
/// seconds-and-nanoseconds pair.
pub open spec fn spec_parse_duration(s: Seq<char>) -> Option<CellDuration> {
    match dur_scan_from(dur_scan_init(), s) {
        None => None,
        Some(a) => {
            let nn = if a.nano_digits < 9 {
                a.nanos as int * pow10(9 - a.nano_digits)
            } else {
                a.nanos as int
            };
            let total = a.hour as int * 3600 + a.minute as int * 60 + a.second as int + nn
                / 1_000_000_000;
            if nn > u64::MAX as int || total > u64::MAX as int {
                None
            } else {
                Some(
                    (CellDuration {
                        seconds: total as u64,
                        nanoseconds: (nn % 1_000_000_000) as u32,
                    }),
                )
            }
        },
    }
}

pub proof fn lemma_dur_scan_concat(a: DurScan, s1: Seq<char>, s2: Seq<char>)
    ensures
        dur_scan_from(a, s1 + s2) == match dur_scan_from(a, s1) {
            None => None::<DurScan>,
            Some(b) => dur_scan_from(b, s2),
        },
    decreases s2.len(),
{
    if s2.len() == 0 {
        assert(s1 + s2 =~= s1);
    } else {
        lemma_dur_scan_concat(a, s1, s2.drop_last());
        assert((s1 + s2).drop_last() =~= s1 + s2.drop_last());
        assert((s1 + s2).last() == s2.last());
    }
}

/// The fractional accumulator always stays below one to the power of the
/// digits seen.
pub proof fn lemma_dur_scan_nanos_bound(a: DurScan, s: Seq<char>)
    requires
        a.nanos < pow10(a.nano_digits as int),
    ensures
        match dur_scan_from(a, s) {
            Some(b) => b.nanos < pow10(b.nano_digits as int),
            None => true,
        },
    decreases s.len(),
{
    if s.len() > 0 {
        lemma_dur_scan_nanos_bound(a, s.drop_last());
        match dur_scan_from(a, s.drop_last()) {
            None => {},
            Some(b) => {
                let c = s.last();
                if is_digit(c) && b.have_hour && b.have_minute && b.have_second {
                    let d = digit_val(c);
                    if !(b.nanos as int * 10 + d > u64::MAX as int || b.nano_digits
                        == u32::MAX) {
                        assert(b.nanos as int * 10 + d < pow10(b.nano_digits as int + 1))
                            by (nonlinear_arith)
                            requires
                                b.nanos < pow10(b.nano_digits as int),
                                0 <= d < 10,
                                pow10(b.nano_digits as int + 1) == 10 * pow10(
                                    b.nano_digits as int,
                                ),
                        ;
                    }
                }
            },
        }
    }
}

/// One scanner step, executable.
fn dur_step_exec(a: DurScan, c: char) -> (r: Option<DurScan>)
    ensures
        r == dur_step(a, c),
{
    let v = c as u32;
    if 48 <= v && v <= 57 {
        let d = (v - 48) as u64;
        if !a.have_hour {
            if a.hour > (u64::MAX - d) / 10 {
                proof {
                    assert(a.hour as int * 10 + d > u64::MAX as int) by (nonlinear_arith)
                        requires
                            a.hour > vstd::prelude::sub(u64::MAX as int, d as int) / 10,
                            0 <= d < 10,
                    ;
                }
                None
            } else {
                Some(DurScan { hour: a.hour * 10 + d, ..a })
            }
        } else if !a.have_minute {
            if a.minute > (u64::MAX - d) / 10 {
                proof {
                    assert(a.minute as int * 10 + d > u64::MAX as int) by (nonlinear_arith)
                        requires
                            a.minute > vstd::prelude::sub(u64::MAX as int, d as int) / 10,
                            0 <= d < 10,
                    ;
                }
                None
            } else {
                Some(DurScan { minute: a.minute * 10 + d, ..a })
            }
        } else if !a.have_second {
            if a.second > (u64::MAX - d) / 10 {
                proof {
                    assert(a.second as int * 10 + d > u64::MAX as int) by (nonlinear_arith)
                        requires
                            a.second > vstd::prelude::sub(u64::MAX as int, d as int) / 10,
                            0 <= d < 10,
                    ;
                }
                None
            } else {
                Some(DurScan { second: a.second * 10 + d, ..a })
            }
        } else {
            if a.nanos > (u64::MAX - d) / 10 || a.nano_digits == u32::MAX {
                proof {
                    if a.nanos > (u64::MAX - d) / 10 {
                        assert(a.nanos as int * 10 + d > u64::MAX as int) by (nonlinear_arith)
                            requires
                                a.nanos > vstd::prelude::sub(u64::MAX as int, d as int) / 10,
                                0 <= d < 10,
                        ;
                    }
                }
                None
            } else {
                Some(
                    DurScan {
                        nanos: a.nanos * 10 + d,
                        nano_digits: a.nano_digits + 1,
                        ..a
                    },
                )
            }
        }
    } else if c == 'H' {
        Some(DurScan { have_hour: true, ..a })
    } else if c == 'M' {
        Some(DurScan { have_minute: true, ..a })
    } else if c == '.' {
        Some(DurScan { have_second: true, ..a })
    } else {
        Some(a)
    }
}

/// Reads a time-value attribute.
pub fn parse_duration(s: &str) -> (r: Option<CellDuration>)
    ensures
        r == spec_parse_duration(s@),
{
    let n = s.unicode_len();
    let mut a = DurScan {
        hour: 0,
        minute: 0,
        second: 0,
        nanos: 0,
        nano_digits: 0,
        have_hour: false,
        have_minute: false,
        have_second: false,
    };
    let mut i: usize = 0;
    while i < n
        invariant
            0 <= i <= n == s@.len(),
            dur_scan_from(dur_scan_init(), s@.take(i as int)) == Some(a),
        decreases n - i,
    {
        let c = s.get_char(i);
        let next = dur_step_exec(a, c);
        proof {
            assert(s@.take(i + 1).drop_last() =~= s@.take(i as int));
            assert(s@.take(i + 1).last() == s@[i as int]);
        }
        match next {
            None => {
                proof {
                    assert(s@.take(i + 1) + s@.skip(i + 1) =~= s@);
                    lemma_dur_scan_concat(dur_scan_init(), s@.take(i + 1), s@.skip(i + 1));
                }
                return None;
            },
            Some(b) => {
                a = b;
            },
        }
        i = i + 1;
    }
    proof {
        assert(s@.take(n as int) =~= s@);
        lemma_dur_scan_nanos_bound(dur_scan_init(), s@);
        lemma_pow10_nine();
    }
    // pad fewer than nine fractional digits with zeros on the right
    let nn: u64 = if a.nano_digits < 9 {
        let mut width: u32 = 9 - a.nano_digits;
        let mut padded: u64 = a.nanos;
        proof {
            lemma_pow10_pos(0);
            assert(pow10(9 - a.nano_digits as int - width as int) == 1);
            assert(a.nanos as int * 1 == a.nanos as int);
            assert(pow10(9 - width as int) == pow10(a.nano_digits as int));
        }
        while width > 0
            invariant
                0 <= width <= 9,
                a.nano_digits < 9,
                a.nanos < pow10(a.nano_digits as int),
                padded == a.nanos as int * pow10(9 - a.nano_digits - width),
                9 - a.nano_digits as int - width >= 0,
                padded < pow10(9 - width),
            decreases width,
        {
            proof {
                let v = a.nanos as int;
                let e = 9 - a.nano_digits as int - width;
                assert(v * pow10(e + 1) == (v * pow10(e)) * 10) by (nonlinear_arith)
                    requires
                        pow10(e + 1) == 10 * pow10(e),
                ;
                assert((v * pow10(e)) * 10 < pow10(9 - width + 1)) by (nonlinear_arith)
                    requires
                        v * pow10(e) < pow10(9 - width),
                ;
                lemma_pow10_increases(9 - width + 1, 9);
                lemma_pow10_nine();
            }
            padded = padded * 10;
            width = width - 1;
        }
        proof {
            lemma_pow10_increases(9 - 0, 9);
            lemma_pow10_nine();
        }
        padded
    } else {
        a.nanos
    };
    proof {
        if a.nano_digits < 9 {
            lemma_pow10_increases(a.nano_digits as int, 9);
        }
    }
    let total: u128 = a.hour as u128 * 3600 + a.minute as u128 * 60 + a.second as u128 + (nn
        / 1_000_000_000) as u128;
    if total > u64::MAX as u128 {
        return None;
    }
    Some(CellDuration { seconds: total as u64, nanoseconds: (nn % 1_000_000_000) as u32 })
}

pub proof fn lemma_parse_duration_wf(s: Seq<char>)
    ensures
        match spec_parse_duration(s) {
            Some(d) => d.wf(),
            None => true,
        },
{
}

/// Prints a duration in the restricted ISO shape this decoder reads.
pub open spec fn spec_fmt_duration(d: CellDuration) -> Seq<char> {
    seq!['P', 'T'] + dec_str(d.seconds as int / 3600) + seq!['H'] + dec_str(
        (d.seconds as int % 3600) / 60,
    ) + seq!['M'] + dec_str(d.seconds as int % 60) + seq!['.'] + dec_str_pad(
        d.nanoseconds as int,
        9,
    ) + seq!['S']
}

pub fn fmt_duration(d: CellDuration) -> (r: String)
    ensures
        r@ == spec_fmt_duration(d),
{
    let mut s = String::new();
    proof {
        reveal_strlit("PT");
        reveal_strlit("H");
        reveal_strlit("M");
        reveal_strlit(".");
        reveal_strlit("S");
    }
    s.append("PT");
    let hs = dec_u64_string(d.seconds / 3600);
    s.append(hs.as_str());
    s.append("H");
    let ms = dec_u64_string((d.seconds % 3600) / 60);
    s.append(ms.as_str());
    s.append("M");
    let ss = dec_u64_string(d.seconds % 60);
    s.append(ss.as_str());
    s.append(".");
    let ns = dec_pad_string(d.nanoseconds as u64, 9);
    s.append(ns.as_str());
    s.append("S");
    proof {
        assert(s@ =~= spec_fmt_duration(d));
    }
    s
}

/// Prints a date and time in the full shape this decoder reads, with the
/// fraction always written out to nine digits.
pub open spec fn spec_fmt_datetime(dt: CellDateTime) -> Seq<char> {
    dec_str_pad(dt.year as int, 4) + seq!['-'] + dec_str_pad(dt.month as int, 2) + seq!['-']
        + dec_str_pad(dt.day as int, 2) + seq!['T'] + dec_str_pad(dt.hour as int, 2) + seq![':']
        + dec_str_pad(dt.minute as int, 2) + seq![':'] + dec_str_pad(dt.second as int, 2)
        + seq!['.'] + dec_str_pad(dt.nanosecond as int, 9)
}

pub fn fmt_datetime(dt: CellDateTime) -> (r: String)
    ensures
        r@ == spec_fmt_datetime(dt),
{
    let mut s = String::new();
    proof {
        reveal_strlit("-");
        reveal_strlit("T");
        reveal_strlit(":");
        reveal_strlit(".");
    }
    let p = dec_pad_string(dt.year as u64, 4);
    s.append(p.as_str());
    s.append("-");
    let p = dec_pad_string(dt.month as u64, 2);
    s.append(p.as_str());
    s.append("-");
    let p = dec_pad_string(dt.day as u64, 2);
    s.append(p.as_str());
    s.append("T");
    let p = dec_pad_string(dt.hour as u64, 2);
    s.append(p.as_str());
    s.append(":");
    let p = dec_pad_string(dt.minute as u64, 2);
    s.append(p.as_str());
    s.append(":");
    let p = dec_pad_string(dt.second as u64, 2);
    s.append(p.as_str());
    s.append(".");
    let p = dec_pad_string(dt.nanosecond as u64, 9);
    s.append(p.as_str());
    proof {
        assert(s@ =~= spec_fmt_datetime(dt));
    }
    s
}

/// Decoding what the date-time printer wrote gives back the same fields.
pub proof fn lemma_datetime_round_trip(dt: CellDateTime)
    requires
        dt.wf(),
    ensures
        spec_parse_datetime_value(spec_fmt_datetime(dt)) == Some(dt),
{
    reveal_with_fuel(pow10, 11);
    let s = spec_fmt_datetime(dt);
    lemma_dec_str_pad_exact(dt.year as int, 4);
    lemma_dec_str_pad_exact(dt.month as int, 2);
    lemma_dec_str_pad_exact(dt.day as int, 2);
    lemma_dec_str_pad_exact(dt.hour as int, 2);
    lemma_dec_str_pad_exact(dt.minute as int, 2);
    lemma_dec_str_pad_exact(dt.second as int, 2);
    lemma_dec_str_pad_exact(dt.nanosecond as int, 9);
    assert(s.len() == 29);
    assert(s.subrange(0, 4) =~= dec_str_pad(dt.year as int, 4));
    assert(s[4] == '-');
    assert(s.subrange(5, 7) =~= dec_str_pad(dt.month as int, 2));
    assert(s[7] == '-');
    assert(s.subrange(8, 10) =~= dec_str_pad(dt.day as int, 2));
    assert(s[10] == 'T');
    assert(s.subrange(11, 13) =~= dec_str_pad(dt.hour as int, 2));
    assert(s[13] == ':');
    assert(s.subrange(14, 16) =~= dec_str_pad(dt.minute as int, 2));
    assert(s[16] == ':');
    assert(s.subrange(17, 19) =~= dec_str_pad(dt.second as int, 2));
    assert(s[19] == '.');
    assert(s.skip(20) =~= dec_str_pad(dt.nanosecond as int, 9));
    assert(dec_val(s.skip(20)) * pow10(9 - (s.len() - 20)) == dt.nanosecond as int);
}

pub proof fn lemma_scan_one(a: DurScan, c: char)
    ensures
        dur_scan_from(a, seq![c]) == dur_step(a, c),
{
    let s = seq![c];
    assert(s.len() == 1);
    assert(s.drop_last() =~= Seq::<char>::empty());
    assert(dur_scan_from(a, s.drop_last()) == Some(a));
    assert(s.last() == c);
    assert(dur_scan_from(a, s) == dur_step(a, c));
}

/// Scanning a digit run before any `H` accumulates it into the hour field.
pub proof fn lemma_scan_digits_hour(a: DurScan, ds: Seq<char>)
    requires
        !a.have_hour,
        all_digits(ds),
        a.hour as int * pow10(ds.len() as int) + dec_val(ds) <= u64::MAX as int,
    ensures
        dur_scan_from(a, ds) == Some(
            (DurScan {
                hour: (a.hour as int * pow10(ds.len() as int) + dec_val(ds)) as u64,
                ..a
            }),
        ),
    decreases ds.len(),
{
    lemma_dec_val_bounds(ds);
    lemma_pow10_pos(ds.len() as int);
    if ds.len() == 0 {
        assert(pow10(0) == 1);
        assert(a.hour as int * 1 == a.hour as int);
    } else {
        let pre = ds.drop_last();
        let d = digit_val(ds.last());
        lemma_dec_val_bounds(pre);
        lemma_pow10_pos(pre.len() as int);
        assert(a.hour as int * pow10(pre.len() as int) + dec_val(pre) >= 0) by (nonlinear_arith)
            requires
                a.hour >= 0,
                pow10(pre.len() as int) >= 1,
                dec_val(pre) >= 0,
        ;
        assert(a.hour as int * pow10(ds.len() as int) + dec_val(ds) == (a.hour as int * pow10(
            pre.len() as int,
        ) + dec_val(pre)) * 10 + d) by (nonlinear_arith)
            requires
                pow10(ds.len() as int) == 10 * pow10(pre.len() as int),
                dec_val(ds) == dec_val(pre) * 10 + d,
        ;
        assert((a.hour as int * pow10(pre.len() as int) + dec_val(pre)) * 10 + d >= a.hour as int
            * pow10(pre.len() as int) + dec_val(pre)) by (nonlinear_arith)
            requires
                a.hour as int * pow10(pre.len() as int) + dec_val(pre) >= 0,
                0 <= d,
        ;
        lemma_scan_digits_hour(a, pre);
        assert(is_digit(ds.last()));
    }
}

/// Scanning a digit run after `H` and before `M` accumulates minutes.
pub proof fn lemma_scan_digits_minute(a: DurScan, ds: Seq<char>)
    requires
        a.have_hour,
        !a.have_minute,
        all_digits(ds),
        a.minute as int * pow10(ds.len() as int) + dec_val(ds) <= u64::MAX as int,
    ensures
        dur_scan_from(a, ds) == Some(
            (DurScan {
                minute: (a.minute as int * pow10(ds.len() as int) + dec_val(ds)) as u64,
                ..a
            }),
        ),
    decreases ds.len(),
{
    lemma_dec_val_bounds(ds);
    lemma_pow10_pos(ds.len() as int);
    if ds.len() == 0 {
        assert(pow10(0) == 1);
        assert(a.minute as int * 1 == a.minute as int);
    } else {
        let pre = ds.drop_last();
        let d = digit_val(ds.last());
        lemma_dec_val_bounds(pre);
        lemma_pow10_pos(pre.len() as int);
        assert(a.minute as int * pow10(pre.len() as int) + dec_val(pre) >= 0) by (nonlinear_arith)
            requires
                a.minute >= 0,
                pow10(pre.len() as int) >= 1,
                dec_val(pre) >= 0,
        ;
        assert(a.minute as int * pow10(ds.len() as int) + dec_val(ds) == (a.minute as int * pow10(
            pre.len() as int,
        ) + dec_val(pre)) * 10 + d) by (nonlinear_arith)
            requires
                pow10(ds.len() as int) == 10 * pow10(pre.len() as int),
                dec_val(ds) == dec_val(pre) * 10 + d,
        ;
        assert((a.minute as int * pow10(pre.len() as int) + dec_val(pre)) * 10 + d
            >= a.minute as int * pow10(pre.len() as int) + dec_val(pre)) by (nonlinear_arith)
            requires
                a.minute as int * pow10(pre.len() as int) + dec_val(pre) >= 0,
                0 <= d,
        ;
        lemma_scan_digits_minute(a, pre);
        assert(is_digit(ds.last()));
    }
}

/// Scanning a digit run after `M` and before `.` accumulates seconds.
pub proof fn lemma_scan_digits_second(a: DurScan, ds: Seq<char>)
    requires
        a.have_hour,
        a.have_minute,
        !a.have_second,
        all_digits(ds),
        a.second as int * pow10(ds.len() as int) + dec_val(ds) <= u64::MAX as int,
    ensures
        dur_scan_from(a, ds) == Some(
            (DurScan {
                second: (a.second as int * pow10(ds.len() as int) + dec_val(ds)) as u64,
                ..a
            }),
        ),
    decreases ds.len(),
{
    lemma_dec_val_bounds(ds);
    lemma_pow10_pos(ds.len() as int);
    if ds.len() == 0 {
        assert(pow10(0) == 1);
        assert(a.second as int * 1 == a.second as int);
    } else {
        let pre = ds.drop_last();
        let d = digit_val(ds.last());
        lemma_dec_val_bounds(pre);
        lemma_pow10_pos(pre.len() as int);
        assert(a.second as int * pow10(pre.len() as int) + dec_val(pre) >= 0) by (nonlinear_arith)
            requires
                a.second >= 0,
                pow10(pre.len() as int) >= 1,
                dec_val(pre) >= 0,
        ;
        assert(a.second as int * pow10(ds.len() as int) + dec_val(ds) == (a.second as int * pow10(
            pre.len() as int,
        ) + dec_val(pre)) * 10 + d) by (nonlinear_arith)
            requires
                pow10(ds.len() as int) == 10 * pow10(pre.len() as int),
                dec_val(ds) == dec_val(pre) * 10 + d,
        ;
        assert((a.second as int * pow10(pre.len() as int) + dec_val(pre)) * 10 + d
            >= a.second as int * pow10(pre.len() as int) + dec_val(pre)) by (nonlinear_arith)
            requires
                a.second as int * pow10(pre.len() as int) + dec_val(pre) >= 0,
                0 <= d,
        ;
        lemma_scan_digits_second(a, pre);
        assert(is_digit(ds.last()));
    }
}

/// Scanning a digit run after `.` accumulates the fraction and counts its
/// digits.
pub proof fn lemma_scan_digits_nanos(a: DurScan, ds: Seq<char>)
    requires
        a.have_hour,
        a.have_minute,
        a.have_second,
        all_digits(ds),
        a.nanos as int * pow10(ds.len() as int) + dec_val(ds) <= u64::MAX as int,
        a.nano_digits as int + ds.len() <= u32::MAX as int,
    ensures
        dur_scan_from(a, ds) == Some(
            (DurScan {
                nanos: (a.nanos as int * pow10(ds.len() as int) + dec_val(ds)) as u64,
                nano_digits: (a.nano_digits as int + ds.len()) as u32,
                ..a
            }),
        ),
    decreases ds.len(),
{
    lemma_dec_val_bounds(ds);
    lemma_pow10_pos(ds.len() as int);
    if ds.len() == 0 {
        assert(pow10(0) == 1);
        assert(a.nanos as int * 1 == a.nanos as int);
    } else {
        let pre = ds.drop_last();
        let d = digit_val(ds.last());
        lemma_dec_val_bounds(pre);
        lemma_pow10_pos(pre.len() as int);
        assert(a.nanos as int * pow10(pre.len() as int) + dec_val(pre) >= 0) by (nonlinear_arith)
            requires
                a.nanos >= 0,
                pow10(pre.len() as int) >= 1,
                dec_val(pre) >= 0,
        ;
        assert(a.nanos as int * pow10(ds.len() as int) + dec_val(ds) == (a.nanos as int * pow10(
            pre.len() as int,
        ) + dec_val(pre)) * 10 + d) by (nonlinear_arith)
            requires
                pow10(ds.len() as int) == 10 * pow10(pre.len() as int),
                dec_val(ds) == dec_val(pre) * 10 + d,
        ;
        assert((a.nanos as int * pow10(pre.len() as int) + dec_val(pre)) * 10 + d >= a.nanos as int
            * pow10(pre.len() as int) + dec_val(pre)) by (nonlinear_arith)
            requires
                a.nanos as int * pow10(pre.len() as int) + dec_val(pre) >= 0,
                0 <= d,
        ;
        lemma_scan_digits_nanos(a, pre);
        assert(is_digit(ds.last()));
    }
}

/// Decoding what the duration printer wrote gives back the same interval.
#[verifier::rlimit(100)]
pub proof fn lemma_duration_round_trip(d: CellDuration)
    requires
        d.wf(),
    ensures
        spec_parse_duration(spec_fmt_duration(d)) == Some(d),
{
    reveal_with_fuel(pow10, 11);
    let secs = d.seconds as int;
    let h = secs / 3600;
    let m = (secs % 3600) / 60;
    let s2 = secs % 60;
    let n = d.nanoseconds as int;
    vstd::arithmetic::div_mod::lemma_fundamental_div_mod(secs, 3600);
    vstd::arithmetic::div_mod::lemma_fundamental_div_mod(secs % 3600, 60);
    vstd::arithmetic::div_mod::lemma_mod_mod(secs, 60, 60);
    assert(0 <= secs % 3600 < 3600);
    assert(0 <= m < 60) by (nonlinear_arith)
        requires
            m == (secs % 3600) / 60,
            0 <= secs % 3600 < 3600,
    ;
    assert(0 <= s2 < 60);
    assert(0 <= h <= u64::MAX as int) by (nonlinear_arith)
        requires
            h == secs / 3600,
            0 <= secs <= u64::MAX as int,
    ;
    lemma_dec_str(h);
    lemma_dec_str(m);
    lemma_dec_str(s2);
    lemma_dec_str_pad_exact(n, 9);

    let s1 = seq!['P', 'T'];
    let hd = dec_str(h);
    let sh = seq!['H'];
    let md = dec_str(m);
    let sm = seq!['M'];
    let sd = dec_str(s2);
    let sp = seq!['.'];
    let nd = dec_str_pad(n, 9);
    let ss = seq!['S'];
    let a0 = dur_scan_init();

    // "PT" is two no-op steps
    assert(dur_scan_from(a0, s1) == Some(a0)) by {
        assert(s1.drop_last() =~= seq!['P']);
        lemma_scan_one(a0, 'P');
        assert(dur_scan_from(a0, s1.drop_last()) == Some(a0));
        assert(s1.last() == 'T');
        assert(dur_scan_from(a0, s1) == dur_step(a0, 'T'));
    }
    // hours digits
    let a1 = DurScan { hour: h as u64, ..a0 };
    assert(dur_scan_from(a0, hd) == Some(a1)) by {
        assert(a0.hour as int * pow10(hd.len() as int) == 0) by (nonlinear_arith)
            requires
                a0.hour == 0,
        ;
        lemma_scan_digits_hour(a0, hd);
    }
    // 'H'
    let a2 = DurScan { have_hour: true, ..a1 };
    assert(dur_scan_from(a1, sh) == Some(a2)) by {
        lemma_scan_one(a1, 'H');
    }
    // minutes digits
    let a3 = DurScan { minute: m as u64, ..a2 };
    assert(dur_scan_from(a2, md) == Some(a3)) by {
        assert(a2.minute as int * pow10(md.len() as int) == 0) by (nonlinear_arith)
            requires
                a2.minute == 0,
        ;
        lemma_scan_digits_minute(a2, md);
    }
    // 'M'
    let a4 = DurScan { have_minute: true, ..a3 };
    assert(dur_scan_from(a3, sm) == Some(a4)) by {
        lemma_scan_one(a3, 'M');
    }
    // seconds digits
    let a5 = DurScan { second: s2 as u64, ..a4 };
    assert(dur_scan_from(a4, sd) == Some(a5)) by {
        assert(a4.second as int * pow10(sd.len() as int) == 0) by (nonlinear_arith)
            requires
                a4.second == 0,
        ;
        lemma_scan_digits_second(a4, sd);
    }
    // '.'
    let a6 = DurScan { have_second: true, ..a5 };
    assert(dur_scan_from(a5, sp) == Some(a6)) by {
        lemma_scan_one(a5, '.');
    }
    // nine fraction digits
    let a7 = DurScan { nanos: n as u64, nano_digits: 9, ..a6 };
    assert(dur_scan_from(a6, nd) == Some(a7)) by {
        assert(a6.nanos as int * pow10(nd.len() as int) == 0) by (nonlinear_arith)
            requires
                a6.nanos == 0,
        ;
        lemma_scan_digits_nanos(a6, nd);
    }
    // trailing 'S' is a no-op
    assert(dur_scan_from(a7, ss) == Some(a7)) by {
        lemma_scan_one(a7, 'S');
    }

    // stitch the segments together
    let p2 = s1 + hd;
    let p3 = p2 + sh;
    let p4 = p3 + md;
    let p5 = p4 + sm;
    let p6 = p5 + sd;
    let p7 = p6 + sp;
    let p8 = p7 + nd;
    let full = p8 + ss;
    lemma_dur_scan_concat(a0, s1, hd);
    lemma_dur_scan_concat(a0, p2, sh);
    lemma_dur_scan_concat(a0, p3, md);
    lemma_dur_scan_concat(a0, p4, sm);
    lemma_dur_scan_concat(a0, p5, sd);
    lemma_dur_scan_concat(a0, p6, sp);
    lemma_dur_scan_concat(a0, p7, nd);
    lemma_dur_scan_concat(a0, p8, ss);
    assert(spec_fmt_duration(d) == full);
    assert(dur_scan_from(a0, full) == Some(a7));

    // finalize
    vstd::arithmetic::div_mod::lemma_basic_div(n, 1_000_000_000);
    vstd::arithmetic::div_mod::lemma_small_mod(n as nat, 1_000_000_000nat);
    assert(a7.hour as int * 3600 + a7.minute as int * 60 + a7.second as int + n / 1_000_000_000
        == secs) by {
        assert(secs == 3600 * h + secs % 3600);
        assert(secs % 3600 == 60 * m + (secs % 3600) % 60);
        assert((secs % (60int * 60int)) % 60int == secs % 60int);
        assert(3600 * h == h * 3600) by (nonlinear_arith);
        assert(60 * m == m * 60) by (nonlinear_arith);
    }
}

} // verus!
