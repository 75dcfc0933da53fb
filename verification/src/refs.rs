//! Row, column and cell ranges, and the print-range list parser.
//!
//! A print-range attribute holds ranges separated by single spaces.  Each
//! range is `from:to`; each reference is an optional sheet prefix up to the
//! last dot, an optional `$`, column letters, an optional `$`, and a one-based
//! row number.  Column letters count in base twenty-six with `A` worth one.
//! Sheet prefixes are accepted and dropped: a range keeps coordinates only.

use vstd::prelude::*;
use crate::numtext::{all_digits, dec_val, is_digit, lemma_dec_val_bounds, parse_dec_u64};

verus! {

#[derive(Clone, Copy, PartialEq, Eq, Debug, Structural)]
pub struct RowRange {
    pub from: u32,
    pub to: u32,
}

impl RowRange {
    /// An inclusive range of rows.
    pub fn new(from: u32, to: u32) -> (r: RowRange)
        ensures
            r == (RowRange { from, to }),
    {
        RowRange { from, to }
    }
}

#[derive(Clone, Copy, PartialEq, Eq, Debug, Structural)]
pub struct ColRange {
    pub from: u32,
    pub to: u32,
}

impl ColRange {
    /// An inclusive range of columns.
    pub fn new(from: u32, to: u32) -> (r: ColRange)
        ensures
            r == (ColRange { from, to }),
    {
        ColRange { from, to }
    }
}

#[derive(Clone, Copy, PartialEq, Eq, Debug, Structural)]
pub struct CellRange {
    pub row_from: u32,
    pub col_from: u32,
    pub row_to: u32,
    pub col_to: u32,
}

impl CellRange {
    /// An inclusive rectangle of cells.
    pub fn new(row_from: u32, col_from: u32, row_to: u32, col_to: u32) -> (r: CellRange)
        ensures
            r == (CellRange { row_from, col_from, row_to, col_to }),
    {
        CellRange { row_from, col_from, row_to, col_to }
    }
}

pub open spec fn is_upper(c: char) -> bool {
    65 <= c as int && c as int <= 90
}

pub open spec fn letters_prefix_len(s: Seq<char>) -> int
    decreases s.len(),
{
    if s.len() == 0 || !is_upper(s[0]) {
        0
    } else {
        1 + letters_prefix_len(s.drop_first())
    }
}

proof fn lemma_letters_prefix_len_of(s: Seq<char>, k: int)
    requires
        0 <= k <= s.len(),
        forall|j: int| 0 <= j < k ==> is_upper(#[trigger] s[j]),
        k == s.len() || !is_upper(s[k]),
    ensures
        letters_prefix_len(s) == k,
    decreases k,
{
    if k == 0 {
    } else {
        assert(is_upper(s[0]));
        lemma_letters_prefix_len_of(s.drop_first(), k - 1);
    }
}

/// Value of a column-letter run: base twenty-six, `A` worth one.
pub open spec fn base26_val(s: Seq<char>) -> int
    decreases s.len(),
{
    if s.len() == 0 {
        0
    } else {
        base26_val(s.drop_last()) * 26 + (s.last() as int - 64)
    }
}

proof fn lemma_base26_step(s: Seq<char>, i: int)
    requires
        0 <= i < s.len(),
    ensures
        base26_val(s.take(i + 1)) == base26_val(s.take(i)) * 26 + (s[i] as int - 64),
{
    assert(s.take(i + 1).drop_last() =~= s.take(i));
    assert(s.take(i + 1).last() == s[i]);
}

proof fn lemma_base26_pos(s: Seq<char>)
    requires
        forall|j: int| 0 <= j < s.len() ==> is_upper(#[trigger] s[j]),
    ensures
        base26_val(s) >= 0,
        s.len() > 0 ==> base26_val(s) >= 1,
    decreases s.len(),
{
    if s.len() > 0 {
        lemma_base26_pos(s.drop_last());
        assert(is_upper(s.last()));
        assert(base26_val(s.drop_last()) * 26 >= 0) by (nonlinear_arith)
            requires
                base26_val(s.drop_last()) >= 0,
        ;
    }
}

proof fn lemma_base26_prefix_le(s: Seq<char>, i: int)
    requires
        forall|j: int| 0 <= j < s.len() ==> is_upper(#[trigger] s[j]),
        0 <= i <= s.len(),
    ensures
        0 <= base26_val(s.take(i)) <= base26_val(s),
    decreases s.len() - i,
{
    assert(forall|j: int| 0 <= j < i ==> is_upper(#[trigger] s.take(i)[j]));
    lemma_base26_pos(s.take(i));
    if i == s.len() {
        assert(s.take(i) =~= s);
    } else {
        lemma_base26_prefix_le(s, i + 1);
        lemma_base26_step(s, i);
        assert(base26_val(s.take(i)) * 26 >= base26_val(s.take(i))) by (nonlinear_arith)
            requires
                base26_val(s.take(i)) >= 0,
        ;
        assert(is_upper(s[i]));
    }
}

/// Index just after the last dot, zero when there is none.
pub open spec fn after_last_dot(s: Seq<char>) -> int
    decreases s.len(),
{
    if s.len() == 0 {
        0
    } else if s.last() == '.' {
        s.len() as int
    } else {
        after_last_dot(s.drop_last())
    }
}

proof fn lemma_after_last_dot_of(s: Seq<char>, k: int)
    requires
        0 <= k <= s.len(),
        k == 0 || s[k - 1] == '.',
        forall|j: int| k <= j < s.len() ==> #[trigger] s[j] != '.',
    ensures
        after_last_dot(s) == k,
    decreases s.len(),
{
    if s.len() == 0 {
    } else if k == s.len() {
    } else {
        assert(s.last() != '.');
        lemma_after_last_dot_of(s.drop_last(), k);
    }
}

/// First index holding `c`, or the length when none does.
pub open spec fn first_at(s: Seq<char>, c: char) -> int
    decreases s.len(),
{
    if s.len() == 0 {
        0
    } else if s[0] == c {
        0
    } else {
        1 + first_at(s.drop_first(), c)
    }
}

proof fn lemma_first_at_of(s: Seq<char>, c: char, k: int)
    requires
        0 <= k <= s.len(),
        forall|j: int| 0 <= j < k ==> #[trigger] s[j] != c,
        k == s.len() || s[k] == c,
    ensures
        first_at(s, c) == k,
    decreases k,
{
    if k == 0 {
    } else {
        assert(s[0] != c);
        lemma_first_at_of(s.drop_first(), c, k - 1);
    }
}

/// Meaning of one cell reference, as row and column indexes.
pub open spec fn spec_parse_ref(t: Seq<char>) -> Option<(u32, u32)> {
    let u0 = t.skip(after_last_dot(t));
    let u1 = if u0.len() > 0 && u0[0] == '$' {
        u0.drop_first()
    } else {
        u0
    };
    let lc = letters_prefix_len(u1);
    let letters = u1.take(lc);
    let u2 = u1.skip(lc);
    let u3 = if u2.len() > 0 && u2[0] == '$' {
        u2.drop_first()
    } else {
        u2
    };
    if lc >= 1 && u3.len() >= 1 && all_digits(u3) && 1 <= dec_val(u3) && dec_val(u3)
        <= u32::MAX as int && base26_val(letters) <= u32::MAX as int {
        Some((((dec_val(u3) - 1) as u32, (base26_val(letters) - 1) as u32)))
    } else {
        None
    }
}

/// Meaning of one range token `from:to`.
pub open spec fn spec_parse_range(t: Seq<char>) -> Option<CellRange> {
    let c = first_at(t, ':');
    if c == t.len() {
        None
    } else {
        match (spec_parse_ref(t.take(c)), spec_parse_ref(t.skip(c + 1))) {
            (Some(a), Some(b)) => Some(
                (CellRange { row_from: a.0, col_from: a.1, row_to: b.0, col_to: b.1 }),
            ),
            _ => None,
        }
    }
}

/// Meaning of a non-empty list of ranges separated by single spaces.
pub open spec fn spec_parse_cellranges(s: Seq<char>) -> Option<Seq<CellRange>>
    decreases s.len(),
{
    let p = first_at(s, ' ');
    if !(0 <= p && p < s.len()) {
        match spec_parse_range(s) {
            Some(r) => Some(seq![r]),
            None => None,
        }
    } else {
        match (spec_parse_range(s.take(p)), spec_parse_cellranges(s.skip(p + 1))) {
            (Some(r), Some(rest)) => Some(seq![r] + rest),
            _ => None,
        }
    }
}

/// First index in `[from, to)` at or after `from` without an upper-case letter.
fn letters_run_end(s: &str, from: usize, to: usize) -> (e: usize)
    requires
        from <= to <= s@.len(),
    ensures
        from <= e <= to,
        letters_prefix_len(s@.subrange(from as int, to as int)) == e - from,
        forall|j: int| from <= j < e ==> is_upper(#[trigger] s@[j]),
{
    let mut i: usize = from;
    while i < to
        invariant
            from <= i <= to <= s@.len(),
            forall|j: int| from <= j < i ==> is_upper(#[trigger] s@[j]),
        decreases to - i,
    {
        let v = s.get_char(i) as u32;
        if v < 65 || v > 90 {
            proof {
                lemma_letters_prefix_len_of(s@.subrange(from as int, to as int), i - from);
            }
            return i;
        }
        i = i + 1;
    }
    proof {
        lemma_letters_prefix_len_of(s@.subrange(from as int, to as int), to - from);
    }
    to
}

/// Base twenty-six value of the letter run, `None` past the column limit.
fn base26_capped(s: &str, from: usize, to: usize) -> (r: Option<u32>)
    requires
        from < to <= s@.len(),
        forall|j: int| from <= j < to ==> is_upper(#[trigger] s@[j]),
    ensures
        match r {
            Some(v) => v == base26_val(s@.subrange(from as int, to as int)) && v >= 1,
            None => base26_val(s@.subrange(from as int, to as int)) > u32::MAX as int,
        },
{
    let ghost t = s@.subrange(from as int, to as int);
    proof {
        assert(forall|j: int| 0 <= j < t.len() ==> is_upper(#[trigger] t[j]));
    }
    let mut acc: u64 = 0;
    let mut i: usize = from;
    while i < to
        invariant
            from <= i <= to <= s@.len(),
            t == s@.subrange(from as int, to as int),
            forall|j: int| 0 <= j < t.len() ==> is_upper(#[trigger] t[j]),
            acc == base26_val(t.take(i - from)),
            acc <= u32::MAX,
        decreases to - i,
    {
        proof {
            assert(t[i - from] == s@[i as int]);
            assert(is_upper(s@[i as int]));
            lemma_base26_step(t, i - from);
        }
        let v = s.get_char(i) as u32;
        let d = (v - 64) as u64;
        if acc * 26 + d > u32::MAX as u64 {
            proof {
                lemma_base26_prefix_le(t, i - from + 1);
            }
            return None;
        }
        acc = acc * 26 + d;
        i = i + 1;
    }
    proof {
        assert(t.take(to - from) =~= t);
        lemma_base26_pos(t);
    }
    Some(acc as u32)
}

/// Reads one cell reference out of `s[from..to]`.
#[verifier::rlimit(60)]
fn parse_ref(s: &str, from: usize, to: usize) -> (r: Option<(u32, u32)>)
    requires
        from <= to <= s@.len(),
    ensures
        r == spec_parse_ref(s@.subrange(from as int, to as int)),
{
    let ghost t = s@.subrange(from as int, to as int);
    // sheet prefix: everything up to the last dot is dropped
    let mut k: usize = to;
    while k > from && s.get_char(k - 1) != '.'
        invariant
            from <= k <= to <= s@.len(),
            forall|j: int| k <= j < to ==> #[trigger] s@[j] != '.',
        decreases k,
    {
        k = k - 1;
    }
    let d = k;
    proof {
        lemma_after_last_dot_of(t, d - from);
    }
    let ghost u0 = t.skip(after_last_dot(t));
    proof {
        assert(u0 =~= s@.subrange(d as int, to as int));
    }
    let mut p: usize = d;
    if p < to && s.get_char(p) == '$' {
        p = p + 1;
    }
    let ghost u1 = if u0.len() > 0 && u0[0] == '$' {
        u0.drop_first()
    } else {
        u0
    };
    proof {
        assert(u1 =~= s@.subrange(p as int, to as int));
    }
    let le = letters_run_end(s, p, to);
    proof {
        assert(s@.subrange(p as int, to as int) =~= u1);
        assert(u1.take(le - p) =~= s@.subrange(p as int, le as int));
        assert(u1.skip(le - p) =~= s@.subrange(le as int, to as int));
    }
    if le == p {
        return None;
    }
    let col1 = match base26_capped(s, p, le) {
        Some(v) => v,
        None => {
            return None;
        },
    };
    let mut q: usize = le;
    if q < to && s.get_char(q) == '$' {
        q = q + 1;
    }
    let ghost u2 = u1.skip(le - p);
    let ghost u3 = if u2.len() > 0 && u2[0] == '$' {
        u2.drop_first()
    } else {
        u2
    };
    proof {
        assert(u3 =~= s@.subrange(q as int, to as int));
    }
    if q >= to {
        return None;
    }
    let row1 = match parse_dec_u64(s, q, to) {
        Some(v) => v,
        None => {
            proof {
                if all_digits(u3) {
                    lemma_dec_val_bounds(u3);
                }
            }
            return None;
        },
    };
    proof {
        lemma_dec_val_bounds(u3);
    }
    if row1 < 1 || row1 > u32::MAX as u64 {
        return None;
    }
    Some(((row1 - 1) as u32, col1 - 1))
}

/// Reads one range token out of `s[from..to]`.
fn parse_range(s: &str, from: usize, to: usize) -> (r: Option<CellRange>)
    requires
        from <= to <= s@.len(),
    ensures
        r == spec_parse_range(s@.subrange(from as int, to as int)),
{
    let ghost t = s@.subrange(from as int, to as int);
    let mut c: usize = from;
    while c < to && s.get_char(c) != ':'
        invariant
            from <= c <= to <= s@.len(),
            forall|j: int| from <= j < c ==> #[trigger] s@[j] != ':',
        decreases to - c,
    {
        c = c + 1;
    }
    proof {
        lemma_first_at_of(t, ':', c - from);
    }
    if c == to {
        return None;
    }
    proof {
        assert(t.take(c - from) =~= s@.subrange(from as int, c as int));
        assert(t.skip(c - from + 1) =~= s@.subrange(c + 1, to as int));
    }
    let a = match parse_ref(s, from, c) {
        Some(a) => a,
        None => {
            return None;
        },
    };
    let b = match parse_ref(s, c + 1, to) {
        Some(b) => b,
        None => {
            return None;
        },
    };
    Some(CellRange { row_from: a.0, col_from: a.1, row_to: b.0, col_to: b.1 })
}

/// Reads a whole print-range attribute.  The caller treats an empty
/// attribute as no list at all; anything else must parse.
pub fn parse_cellranges(s: &str) -> (r: Option<Vec<CellRange>>)
    ensures
        match r {
            Some(v) => spec_parse_cellranges(s@) == Some(v@),
            None => spec_parse_cellranges(s@) is None,
        },
{
    let n = s.unicode_len();
    proof {
        assert(s@.skip(0) =~= s@);
    }
    parse_list(s, 0, n)
}

fn parse_list(s: &str, from: usize, n: usize) -> (r: Option<Vec<CellRange>>)
    requires
        from <= n == s@.len(),
    ensures
        match r {
            Some(v) => spec_parse_cellranges(s@.skip(from as int)) == Some(v@),
            None => spec_parse_cellranges(s@.skip(from as int)) is None,
        },
    decreases n - from,
{
    let ghost t = s@.skip(from as int);
    let mut p: usize = from;
    while p < n && s.get_char(p) != ' '
        invariant
            from <= p <= n == s@.len(),
            forall|j: int| from <= j < p ==> #[trigger] s@[j] != ' ',
        decreases n - p,
    {
        p = p + 1;
    }
    proof {
        lemma_first_at_of(t, ' ', p - from);
    }
    if p == n {
        proof {
            assert(t.subrange(0, t.len() as int) =~= t);
        }
        let one = match parse_range(s, from, n) {
            Some(r) => r,
            None => {
                proof {
                    assert(s@.subrange(from as int, n as int) =~= t);
                }
                return None;
            },
        };
        proof {
            assert(s@.subrange(from as int, n as int) =~= t);
        }
        let mut v: Vec<CellRange> = Vec::new();
        v.push(one);
        proof {
            assert(v@ =~= seq![one]);
        }
        Some(v)
    } else {
        proof {
            assert(s@.subrange(from as int, p as int) =~= t.take(p - from));
            assert(s@.skip(p + 1) =~= t.skip(p - from + 1));
        }
        let one = match parse_range(s, from, p) {
            Some(r) => r,
            None => {
                return None;
            },
        };
        let rest = match parse_list(s, p + 1, n) {
            Some(v) => v,
            None => {
                return None;
            },
        };
        let mut v: Vec<CellRange> = Vec::new();
        v.push(one);
        let mut i: usize = 0;
        while i < rest.len()
            invariant
                0 <= i <= rest.len(),
                v@ == seq![one] + rest@.take(i as int),
            decreases rest.len() - i,
        {
            v.push(rest[i]);
            proof {
                assert(v@ =~= seq![one] + rest@.take(i + 1));
            }
            i = i + 1;
        }
        proof {
            assert(rest@.take(rest@.len() as int) =~= rest@);
        }
        Some(v)
    }
}

} // verus!
