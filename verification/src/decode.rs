//! Executable decoder: reads one text frame back into an envelope, exactly as
//! the wire grammar specifies it.

use crate::message::MachineCommand;
use crate::message::WSMessage;
use crate::message::WSRequest;
use crate::message::WSUpdate;
use crate::models::seq_view;
use crate::models::Arrow;
use crate::models::Bow;
use crate::models::MachineStatus;
use crate::models::Measure;
use crate::models::MeasurePoint;
use crate::models::MeasureSeries;
use crate::models::ID_LIMIT;
use crate::models::INT_LIMIT;
use crate::models::MILLI_LIMIT;
use crate::wire::digit_of;
use crate::wire::digits_val;
use crate::wire::has_seq_at;
use crate::wire::is_digit;
use crate::wire::scan_digits;
use crate::wire::scan_text;
use crate::wire::sp_arrow;
use crate::wire::sp_arrow_items;
use crate::wire::sp_arrow_list;
use crate::wire::sp_bow;
use crate::wire::sp_bow_items;
use crate::wire::sp_bow_list;
use crate::wire::sp_command;
use crate::wire::sp_decode;
use crate::wire::sp_int;
use crate::wire::sp_lit;
use crate::wire::sp_measure;
use crate::wire::sp_measure_items;
use crate::wire::sp_measure_list;
use crate::wire::sp_message;
use crate::wire::sp_milli;
use crate::wire::sp_opt_milli;
use crate::wire::sp_opt_string;
use crate::wire::sp_point;
use crate::wire::sp_point_items;
use crate::wire::sp_point_list;
use crate::wire::sp_request;
use crate::wire::sp_request_body;
use crate::wire::sp_series;
use crate::wire::sp_series_items;
use crate::wire::sp_series_list;
use crate::wire::sp_status;
use crate::wire::sp_string;
use crate::wire::sp_uint;
use crate::wire::sp_update;
use crate::wire::sp_update_body;
use vstd::arithmetic::div_mod::lemma_fundamental_div_mod;
use vstd::prelude::*;
use vstd::string::StrSliceExecFns;
use vstd::string::StringExecFns;

verus! {

/// A digit run keeps every position below the scan end inside the text and on
/// a digit.
proof fn l_scan_digits_region(s: Seq<char>, i: int, k: int)
    requires
        0 <= i <= k < scan_digits(s, i),
    ensures
        k < s.len() && is_digit(s[k]),
    decreases k - i,
{
    if k > i {
        l_scan_digits_region(s, i + 1, k);
    }
}

/// A longer digit run never has a smaller value.
proof fn l_digits_val_mono(s: Seq<char>, i: int, m: int, j: int)
    requires
        i <= m <= j,
        forall|k: int| i <= k < j ==> k < s.len() && is_digit(#[trigger] s[k]),
    ensures
        digits_val(s, i, j) >= digits_val(s, i, m) >= 0,
    decreases j - m,
{
    if m == j {
        l_digits_val_nonneg(s, i, m);
    } else {
        assert(is_digit(s[j - 1]));
        assert forall|k: int| i <= k < j - 1 implies k < s.len() && is_digit(#[trigger] s[k]) by {
            assert(i <= k < j);
            assert(k < s.len() && is_digit(s[k]));
        }
        l_digits_val_mono(s, i, m, j - 1);
    }
}

/// A digit run's value is never negative.
proof fn l_digits_val_nonneg(s: Seq<char>, i: int, j: int)
    requires
        forall|k: int| i <= k < j ==> k < s.len() && is_digit(#[trigger] s[k]),
    ensures
        digits_val(s, i, j) >= 0,
    decreases j - i,
{
    if j > i {
        assert(is_digit(s[j - 1]));
        assert forall|k: int| i <= k < j - 1 implies k < s.len() && is_digit(#[trigger] s[k]) by {
            assert(i <= k < j);
            assert(k < s.len() && is_digit(s[k]));
        }
        l_digits_val_nonneg(s, i, j - 1);
    }
}


/// A text run keeps every position below the scan end inside the text and on
/// an acceptable character.
proof fn l_scan_text_region(s: Seq<char>, i: int, k: int)
    requires
        0 <= i <= k < scan_text(s, i),
    ensures
        k < s.len() && crate::models::text_char_ok(s[k]),
    decreases k - i,
{
    if k > i {
        l_scan_text_region(s, i + 1, k);
    }
}

/// Whether a character is a decimal digit.
fn ch_digit(c: char) -> (b: bool)
    ensures
        b == is_digit(c),
{
    (c as u32) >= 48 && (c as u32) <= 57
}

/// Whether a character may stand inside a quoted text field.
fn ch_text(c: char) -> (b: bool)
    ensures
        b == crate::models::text_char_ok(c),
{
    c != '"' && c != '\\' && (c as u32) >= 32
}

/// Finds the end of the digit run starting at `i`.
fn x_scan_digits(s: &str, i: usize) -> (j: usize)
    requires
        i <= s@.len(),
    ensures
        j as int == scan_digits(s@, i as int),
        i <= j <= s@.len(),
{
    let n = s.unicode_len();
    let mut j = i;
    while j < n && ch_digit(s.get_char(j))
        invariant
            i <= j <= n,
            n == s@.len(),
            scan_digits(s@, i as int) == scan_digits(s@, j as int),
        decreases n - j,
    {
        j = j + 1;
    }
    j
}

/// Finds the end of the text run starting at `i`.
fn x_scan_text(s: &str, i: usize) -> (j: usize)
    requires
        i <= s@.len(),
    ensures
        j as int == scan_text(s@, i as int),
        i <= j <= s@.len(),
{
    let n = s.unicode_len();
    let mut j = i;
    while j < n && ch_text(s.get_char(j))
        invariant
            i <= j <= n,
            n == s@.len(),
            scan_text(s@, i as int) == scan_text(s@, j as int),
        decreases n - j,
    {
        j = j + 1;
    }
    j
}

/// Parses an unsigned decimal run whose value is at most `limit`.
fn p_uint(s: &str, i: usize, limit: i64) -> (r: Option<(i64, usize)>)
    requires
        i <= s@.len(),
        0 <= limit,
    ensures
        match r {
            Some(p) => sp_uint(s@, i as int, limit as int) == Some((p.0 as int, p.1 as int)) && i
                < p.1 <= s@.len() && 0 <= p.0 <= limit,
            None => sp_uint(s@, i as int, limit as int) is None,
        },
{
    let j = x_scan_digits(s, i);
    if j == i {
        return None;
    }
    proof {
        assert forall|k: int| i <= k < j implies k < s@.len() && is_digit(#[trigger] s@[k]) by {
            l_scan_digits_region(s@, i as int, k);
        }
    }
    let mut acc: i64 = 0;
    let mut k = i;
    while k < j
        invariant
            i <= k <= j <= s@.len(),
            j as int == scan_digits(s@, i as int),
            0 <= limit,
            acc == digits_val(s@, i as int, k as int),
            0 <= acc <= limit,
            forall|m: int| i <= m < j ==> m < s@.len() && is_digit(#[trigger] s@[m]),
        decreases j - k,
    {
        let c = s.get_char(k);
        let d = ((c as u32) - 48) as i64;
        if acc > limit / 10 || (acc == limit / 10 && d > limit % 10) {
            proof {
                lemma_fundamental_div_mod(limit as int, 10);
                assert(acc * 10 + d > limit);
                assert(digits_val(s@, i as int, k as int + 1) == acc * 10 + d);
                l_digits_val_mono(s@, i as int, k as int + 1, j as int);
                assert(digits_val(s@, i as int, j as int) > limit);
            }
            return None;
        }
        proof {
            lemma_fundamental_div_mod(limit as int, 10);
            assert(acc * 10 + d <= limit);
        }
        acc = acc * 10 + d;
        k = k + 1;
    }
    Some((acc, j))
}

/// Parses a plain integer whose magnitude is at most `limit`.
pub(crate) fn p_int(s: &str, i: usize, limit: i64) -> (r: Option<(i64, usize)>)
    requires
        i <= s@.len(),
        0 <= limit,
    ensures
        match r {
            Some(p) => sp_int(s@, i as int, limit as int) == Some((p.0 as int, p.1 as int)) && i
                < p.1 <= s@.len() && -limit <= p.0 <= limit,
            None => sp_int(s@, i as int, limit as int) is None,
        },
{
    let n = s.unicode_len();
    if i < n && s.get_char(i) == '-' {
        match p_uint(s, i + 1, limit) {
            Some((v, j)) => Some((-v, j)),
            None => None,
        }
    } else {
        p_uint(s, i, limit)
    }
}

/// Parses a fixed-point quantity.
fn p_milli(s: &str, i: usize) -> (r: Option<(i64, usize)>)
    requires
        i <= s@.len(),
    ensures
        match r {
            Some(p) => sp_milli(s@, i as int) == Some((p.0 as int, p.1 as int)) && i < p.1
                <= s@.len() && -MILLI_LIMIT <= p.0 <= MILLI_LIMIT,
            None => sp_milli(s@, i as int) is None,
        },
{
    let n = s.unicode_len();
    let neg = i < n && s.get_char(i) == '-';
    let i1 = if neg {
        i + 1
    } else {
        i
    };
    let (q, j) = match p_uint(s, i1, MILLI_LIMIT / 1000) {
        Some(p) => p,
        None => {
            return None;
        },
    };
    if !(j < n && s.get_char(j) == '.') {
        return None;
    }
    let j1 = x_scan_digits(s, j + 1);
    if !(j1 >= j && j1 - j == 4) {
        return None;
    }
    proof {
        assert forall|k: int| j + 1 <= k < j1 implies k < s@.len() && is_digit(
            #[trigger] s@[k],
        ) by {
            l_scan_digits_region(s@, j as int + 1, k);
        }
    }
    let d1 = ((s.get_char(j + 1) as u32) - 48) as i64;
    let d2 = ((s.get_char(j + 2) as u32) - 48) as i64;
    let d3 = ((s.get_char(j + 3) as u32) - 48) as i64;
    let f = d1 * 100 + d2 * 10 + d3;
    proof {
        let a = j as int + 1;
        assert(digits_val(s@, a, a) == 0);
        assert(digits_val(s@, a, a + 1) == digit_of(s@[a]));
        assert(digits_val(s@, a, a + 2) == digit_of(s@[a]) * 10 + digit_of(s@[a + 1]));
        assert(digits_val(s@, a, a + 3) == (digit_of(s@[a]) * 10 + digit_of(s@[a + 1])) * 10
            + digit_of(s@[a + 2]));
        assert(f == digits_val(s@, j as int + 1, j1 as int));
    }
    let m = q * 1000 + f;
    if m > MILLI_LIMIT {
        return None;
    }
    if neg {
        Some((-m, j1))
    } else {
        Some((m, j1))
    }
}

/// Parses a quoted text field.
fn p_string(s: &str, i: usize) -> (r: Option<(String, usize)>)
    requires
        i <= s@.len(),
    ensures
        match r {
            Some(p) => sp_string(s@, i as int) matches Some(q) && q.0 == p.0@ && q.1 == p.1 as int
                && i < p.1 <= s@.len() && crate::models::text_ok(p.0@),
            None => sp_string(s@, i as int) is None,
        },
{
    let n = s.unicode_len();
    if !(i < n && s.get_char(i) == '"') {
        return None;
    }
    let j = x_scan_text(s, i + 1);
    if !(j < n && s.get_char(j) == '"') {
        return None;
    }
    let t = s.substring_char(i + 1, j).to_owned();
    proof {
        assert forall|k: int| 0 <= k < t@.len() implies crate::models::text_char_ok(
            #[trigger] t@[k],
        ) by {
            l_scan_text_region(s@, i as int + 1, i + 1 + k);
        }
    }
    Some((t, j + 1))
}

/// Parses the fixed run `t`.
fn p_lit(s: &str, i: usize, t: &str) -> (r: Option<usize>)
    requires
        i <= s@.len(),
    ensures
        match r {
            Some(j) => sp_lit(s@, i as int, t@) == Some(j as int) && j as int == i + t@.len() && i
                <= j <= s@.len(),
            None => sp_lit(s@, i as int, t@) is None,
        },
{
    let n = s.unicode_len();
    let tn = t.unicode_len();
    if tn > n - i {
        return None;
    }
    let mut k: usize = 0;
    while k < tn
        invariant
            k <= tn,
            i + tn <= n,
            n == s@.len(),
            tn == t@.len(),
            forall|m: int| 0 <= m < k ==> s@[i + m] == t@[m],
        decreases tn - k,
    {
        if s.get_char(i + k) != t.get_char(k) {
            proof {
                if has_seq_at(s@, i as int, t@) {
                    assert(s@.subrange(i as int, i + t@.len() as int)[k as int] == t@[k as int]);
                    assert(false);
                }
            }
            return None;
        }
        k = k + 1;
    }
    proof {
        assert(s@.subrange(i as int, i + t@.len() as int) =~= t@);
    }
    Some(i + tn)
}

/// Parses an optional fixed-point quantity.
fn p_opt_milli(s: &str, i: usize) -> (r: Option<(Option<i64>, usize)>)
    requires
        i <= s@.len(),
    ensures
        match r {
            Some(p) => sp_opt_milli(s@, i as int) matches Some(q) && q.1 == p.1 as int && i < p.1
                <= s@.len() && (match p.0 {
                Some(v) => q.0 == Some(v as int) && -MILLI_LIMIT <= v <= MILLI_LIMIT,
                None => q.0 is None,
            }),
            None => sp_opt_milli(s@, i as int) is None,
        },
{
    let n = s.unicode_len();
    if i < n && s.get_char(i) == 'n' {
        proof {
            reveal_strlit("null");
        }
        match p_lit(s, i, "null") {
            Some(j) => Some((None, j)),
            None => None,
        }
    } else {
        match p_milli(s, i) {
            Some((v, j)) => Some((Some(v), j)),
            None => None,
        }
    }
}

/// Parses an optional text field.
fn p_opt_string(s: &str, i: usize) -> (r: Option<(Option<String>, usize)>)
    requires
        i <= s@.len(),
    ensures
        match r {
            Some(p) => sp_opt_string(s@, i as int) matches Some(q) && q.1 == p.1 as int && i < p.1
                <= s@.len() && (match p.0 {
                Some(v) => q.0 == Some(v@) && crate::models::text_ok(v@),
                None => q.0 is None,
            }),
            None => sp_opt_string(s@, i as int) is None,
        },
{
    let n = s.unicode_len();
    if i < n && s.get_char(i) == 'n' {
        proof {
            reveal_strlit("null");
        }
        match p_lit(s, i, "null") {
            Some(j) => Some((None, j)),
            None => None,
        }
    } else {
        match p_string(s, i) {
            Some((v, j)) => Some((Some(v), j)),
            None => None,
        }
    }
}

/// Parses an equipment unit.
#[verifier::rlimit(50)]
fn p_bow(s: &str, i: usize) -> (r: Option<(Bow, usize)>)
    requires
        i <= s@.len(),
    ensures
        match r {
            Some(p) => sp_bow(s@, i as int) == Some((p.0@, p.1 as int)) && p.0@.wf() && i <= p.1 <= s@.len(),
            None => sp_bow(s@, i as int) is None,
        },
{
    let i1 = match p_lit(s, i, "{\"id\":") {
        Some(x) => x,
        None => {
            return None;
        },
    };
    let (id, i2) = match p_int(s, i1, ID_LIMIT) {
        Some(x) => x,
        None => {
            return None;
        },
    };
    let i3 = match p_lit(s, i2, ",\"name\":") {
        Some(x) => x,
        None => {
            return None;
        },
    };
    let (name, i4) = match p_string(s, i3) {
        Some(x) => x,
        None => {
            return None;
        },
    };
    let i5 = match p_lit(s, i4, ",\"max_draw_distance\":") {
        Some(x) => x,
        None => {
            return None;
        },
    };
    let (mdd, i6) = match p_milli(s, i5) {
        Some(x) => x,
        None => {
            return None;
        },
    };
    let i7 = match p_lit(s, i6, ",\"remainder_arrow_length\":") {
        Some(x) => x,
        None => {
            return None;
        },
    };
    let (ral, i8) = match p_milli(s, i7) {
        Some(x) => x,
        None => {
            return None;
        },
    };
    let i9 = match p_lit(s, i8, "}") {
        Some(x) => x,
        None => {
            return None;
        },
    };
    Some(
        (
            Bow {
                id: id as i32,
                name: name,
                max_draw_distance: mdd,
                remainder_arrow_length: ral,
            },
            i9,
        ),
    )
}

/// Parses a measurement series.
#[verifier::rlimit(50)]
fn p_series(s: &str, i: usize) -> (r: Option<(MeasureSeries, usize)>)
    requires
        i <= s@.len(),
    ensures
        match r {
            Some(p) => sp_series(s@, i as int) == Some((p.0@, p.1 as int)) && p.0@.wf() && i <= p.1 <= s@.len(),
            None => sp_series(s@, i as int) is None,
        },
{
    let i1 = match p_lit(s, i, "{\"id\":") {
        Some(x) => x,
        None => {
            return None;
        },
    };
    let (id, i2) = match p_int(s, i1, ID_LIMIT) {
        Some(x) => x,
        None => {
            return None;
        },
    };
    let i3 = match p_lit(s, i2, ",\"name\":") {
        Some(x) => x,
        None => {
            return None;
        },
    };
    let (name, i4) = match p_string(s, i3) {
        Some(x) => x,
        None => {
            return None;
        },
    };
    let i5 = match p_lit(s, i4, ",\"rest_position\":") {
        Some(x) => x,
        None => {
            return None;
        },
    };
    let (rest, i6) = match p_milli(s, i5) {
        Some(x) => x,
        None => {
            return None;
        },
    };
    let i7 = match p_lit(s, i6, ",\"draw_distance\":") {
        Some(x) => x,
        None => {
            return None;
        },
    };
    let (dd, i8) = match p_opt_milli(s, i7) {
        Some(x) => x,
        None => {
            return None;
        },
    };
    let i9 = match p_lit(s, i8, ",\"draw_force\":") {
        Some(x) => x,
        None => {
            return None;
        },
    };
    let (df, i10) = match p_opt_milli(s, i9) {
        Some(x) => x,
        None => {
            return None;
        },
    };
    let i11 = match p_lit(s, i10, ",\"time\":") {
        Some(x) => x,
        None => {
            return None;
        },
    };
    let (tm, i12) = match p_int(s, i11, INT_LIMIT) {
        Some(x) => x,
        None => {
            return None;
        },
    };
    let i13 = match p_lit(s, i12, ",\"bow_id\":") {
        Some(x) => x,
        None => {
            return None;
        },
    };
    let (bid, i14) = match p_int(s, i13, ID_LIMIT) {
        Some(x) => x,
        None => {
            return None;
        },
    };
    let i15 = match p_lit(s, i14, "}") {
        Some(x) => x,
        None => {
            return None;
        },
    };
    Some(
        (
            MeasureSeries {
                id: id as i32,
                name: name,
                rest_position: rest,
                draw_distance: dd,
                draw_force: df,
                time: tm,
                bow_id: bid as i32,
            },
            i15,
        ),
    )
}

/// Parses a projectile.
#[verifier::rlimit(50)]
fn p_arrow(s: &str, i: usize) -> (r: Option<(Arrow, usize)>)
    requires
        i <= s@.len(),
    ensures
        match r {
            Some(p) => sp_arrow(s@, i as int) == Some((p.0@, p.1 as int)) && p.0@.wf() && i <= p.1 <= s@.len(),
            None => sp_arrow(s@, i as int) is None,
        },
{
    let i1 = match p_lit(s, i, "{\"id\":") {
        Some(x) => x,
        None => {
            return None;
        },
    };
    let (id, i2) = match p_int(s, i1, ID_LIMIT) {
        Some(x) => x,
        None => {
            return None;
        },
    };
    let i3 = match p_lit(s, i2, ",\"name\":") {
        Some(x) => x,
        None => {
            return None;
        },
    };
    let (name, i4) = match p_opt_string(s, i3) {
        Some(x) => x,
        None => {
            return None;
        },
    };
    let i5 = match p_lit(s, i4, ",\"head_weight\":") {
        Some(x) => x,
        None => {
            return None;
        },
    };
    let (hw, i6) = match p_opt_milli(s, i5) {
        Some(x) => x,
        None => {
            return None;
        },
    };
    let i7 = match p_lit(s, i6, ",\"spline\":") {
        Some(x) => x,
        None => {
            return None;
        },
    };
    let (spl, i8) = match p_opt_milli(s, i7) {
        Some(x) => x,
        None => {
            return None;
        },
    };
    let i9 = match p_lit(s, i8, ",\"feather_length\":") {
        Some(x) => x,
        None => {
            return None;
        },
    };
    let (fl, i10) = match p_opt_milli(s, i9) {
        Some(x) => x,
        None => {
            return None;
        },
    };
    let i11 = match p_lit(s, i10, ",\"feather_type\":") {
        Some(x) => x,
        None => {
            return None;
        },
    };
    let (ft, i12) = match p_opt_string(s, i11) {
        Some(x) => x,
        None => {
            return None;
        },
    };
    let i13 = match p_lit(s, i12, ",\"length\":") {
        Some(x) => x,
        None => {
            return None;
        },
    };
    let (ln, i14) = match p_milli(s, i13) {
        Some(x) => x,
        None => {
            return None;
        },
    };
    let i15 = match p_lit(s, i14, ",\"weight\":") {
        Some(x) => x,
        None => {
            return None;
        },
    };
    let (wt, i16) = match p_milli(s, i15) {
        Some(x) => x,
        None => {
            return None;
        },
    };
    let i17 = match p_lit(s, i16, ",\"bow_id\":") {
        Some(x) => x,
        None => {
            return None;
        },
    };
    let (bid, i18) = match p_int(s, i17, ID_LIMIT) {
        Some(x) => x,
        None => {
            return None;
        },
    };
    let i19 = match p_lit(s, i18, "}") {
        Some(x) => x,
        None => {
            return None;
        },
    };
    Some(
        (
            Arrow {
                id: id as i32,
                name: name,
                head_weight: hw,
                spline: spl,
                feather_length: fl,
                feather_type: ft,
                length: ln,
                weight: wt,
                bow_id: bid as i32,
            },
            i19,
        ),
    )
}

/// Parses a measurement run.
#[verifier::rlimit(50)]
fn p_measure(s: &str, i: usize) -> (r: Option<(Measure, usize)>)
    requires
        i <= s@.len(),
    ensures
        match r {
            Some(p) => sp_measure(s@, i as int) == Some((p.0@, p.1 as int)) && p.0@.wf() && i <= p.1
                <= s@.len(),
            None => sp_measure(s@, i as int) is None,
        },
{
    let i1 = match p_lit(s, i, "{\"id\":") {
        Some(x) => x,
        None => {
            return None;
        },
    };
    let (id, i2) = match p_int(s, i1, ID_LIMIT) {
        Some(x) => x,
        None => {
            return None;
        },
    };
    let i3 = match p_lit(s, i2, ",\"measure_interval\":") {
        Some(x) => x,
        None => {
            return None;
        },
    };
    let (mi, i4) = match p_milli(s, i3) {
        Some(x) => x,
        None => {
            return None;
        },
    };
    let i5 = match p_lit(s, i4, ",\"measure_series_id\":") {
        Some(x) => x,
        None => {
            return None;
        },
    };
    let (sid, i6) = match p_int(s, i5, ID_LIMIT) {
        Some(x) => x,
        None => {
            return None;
        },
    };
    let i7 = match p_lit(s, i6, ",\"arrow_id\":") {
        Some(x) => x,
        None => {
            return None;
        },
    };
    let (aid, i8) = match p_int(s, i7, ID_LIMIT) {
        Some(x) => x,
        None => {
            return None;
        },
    };
    let i9 = match p_lit(s, i8, "}") {
        Some(x) => x,
        None => {
            return None;
        },
    };
    Some(
        (
            Measure {
                id: id as i32,
                measure_interval: mi,
                measure_series_id: sid as i32,
                arrow_id: aid as i32,
            },
            i9,
        ),
    )
}

/// Parses a sample point.
#[verifier::rlimit(50)]
fn p_point(s: &str, i: usize) -> (r: Option<(MeasurePoint, usize)>)
    requires
        i <= s@.len(),
    ensures
        match r {
            Some(p) => sp_point(s@, i as int) == Some((p.0@, p.1 as int)) && p.0@.wf() && i <= p.1 <= s@.len(),
            None => sp_point(s@, i as int) is None,
        },
{
    let i1 = match p_lit(s, i, "{\"id\":") {
        Some(x) => x,
        None => {
            return None;
        },
    };
    let (id, i2) = match p_int(s, i1, ID_LIMIT) {
        Some(x) => x,
        None => {
            return None;
        },
    };
    let i3 = match p_lit(s, i2, ",\"time\":") {
        Some(x) => x,
        None => {
            return None;
        },
    };
    let (tm, i4) = match p_int(s, i3, INT_LIMIT) {
        Some(x) => x,
        None => {
            return None;
        },
    };
    let i5 = match p_lit(s, i4, ",\"draw_distance\":") {
        Some(x) => x,
        None => {
            return None;
        },
    };
    let (dd, i6) = match p_milli(s, i5) {
        Some(x) => x,
        None => {
            return None;
        },
    };
    let i7 = match p_lit(s, i6, ",\"force\":") {
        Some(x) => x,
        None => {
            return None;
        },
    };
    let (fc, i8) = match p_milli(s, i7) {
        Some(x) => x,
        None => {
            return None;
        },
    };
    let i9 = match p_lit(s, i8, ",\"measure_id\":") {
        Some(x) => x,
        None => {
            return None;
        },
    };
    let (mid, i10) = match p_int(s, i9, ID_LIMIT) {
        Some(x) => x,
        None => {
            return None;
        },
    };
    let i11 = match p_lit(s, i10, "}") {
        Some(x) => x,
        None => {
            return None;
        },
    };
    Some(
        (
            MeasurePoint {
                id: id as i32,
                time: tm,
                draw_distance: dd,
                force: fc,
                measure_id: mid as i32,
            },
            i11,
        ),
    )
}

/// Parses the members of a non-empty equipment-unit list up to and including
/// the closing bracket.
fn p_bow_items(s: &str, i: usize) -> (r: Option<(Vec<Bow>, usize)>)
    requires
        i <= s@.len(),
    ensures
        match r {
            Some(p) => sp_bow_items(s@, i as int) == Some((seq_view(p.0@), p.1 as int))
                && crate::message::bows_wf(seq_view(p.0@)) && i <= p.1
                <= s@.len(),
            None => sp_bow_items(s@, i as int) is None,
        },
    decreases s@.len() - i,
{
    let (b, j) = match p_bow(s, i) {
        Some(x) => x,
        None => {
            return None;
        },
    };
    let n = s.unicode_len();
    if j < n && s.get_char(j) == ']' {
        let mut l: Vec<Bow> = Vec::new();
        l.push(b);
        proof {
            assert(seq_view(l@) =~= seq![l@[0]@]);
        }
        Some((l, j + 1))
    } else if j < n && s.get_char(j) == ',' {
        let (mut l, k) = match p_bow_items(s, j + 1) {
            Some(x) => x,
            None => {
                return None;
            },
        };
        let ghost l0 = l@;
        l.insert(0, b);
        proof {
            assert(seq_view(l@) =~= seq![b@] + seq_view(l0));
        }
        Some((l, k))
    } else {
        None
    }
}

/// Parses an equipment-unit list.
fn p_bow_list(s: &str, i: usize) -> (r: Option<(Vec<Bow>, usize)>)
    requires
        i <= s@.len(),
    ensures
        match r {
            Some(p) => sp_bow_list(s@, i as int) == Some((seq_view(p.0@), p.1 as int))
                && crate::message::bows_wf(seq_view(p.0@)) && i <= p.1
                <= s@.len(),
            None => sp_bow_list(s@, i as int) is None,
        },
{
    let n = s.unicode_len();
    if !(i < n && s.get_char(i) == '[') {
        return None;
    }
    if i + 1 < n && s.get_char(i + 1) == ']' {
        let l: Vec<Bow> = Vec::new();
        proof {
            assert(seq_view(l@) =~= Seq::<crate::models::BowV>::empty());
        }
        Some((l, i + 2))
    } else {
        p_bow_items(s, i + 1)
    }
}

/// Parses the members of a non-empty series list up to and including the
/// closing bracket.
fn p_series_items(s: &str, i: usize) -> (r: Option<(Vec<MeasureSeries>, usize)>)
    requires
        i <= s@.len(),
    ensures
        match r {
            Some(p) => sp_series_items(s@, i as int) == Some((seq_view(p.0@), p.1 as int))
                && crate::message::series_list_wf(seq_view(p.0@)) && i
                <= p.1 <= s@.len(),
            None => sp_series_items(s@, i as int) is None,
        },
    decreases s@.len() - i,
{
    let (b, j) = match p_series(s, i) {
        Some(x) => x,
        None => {
            return None;
        },
    };
    let n = s.unicode_len();
    if j < n && s.get_char(j) == ']' {
        let mut l: Vec<MeasureSeries> = Vec::new();
        l.push(b);
        proof {
            assert(seq_view(l@) =~= seq![l@[0]@]);
        }
        Some((l, j + 1))
    } else if j < n && s.get_char(j) == ',' {
        let (mut l, k) = match p_series_items(s, j + 1) {
            Some(x) => x,
            None => {
                return None;
            },
        };
        let ghost l0 = l@;
        l.insert(0, b);
        proof {
            assert(seq_view(l@) =~= seq![b@] + seq_view(l0));
        }
        Some((l, k))
    } else {
        None
    }
}

/// Parses a series list.
fn p_series_list(s: &str, i: usize) -> (r: Option<(Vec<MeasureSeries>, usize)>)
    requires
        i <= s@.len(),
    ensures
        match r {
            Some(p) => sp_series_list(s@, i as int) == Some((seq_view(p.0@), p.1 as int))
                && crate::message::series_list_wf(seq_view(p.0@)) && i
                <= p.1 <= s@.len(),
            None => sp_series_list(s@, i as int) is None,
        },
{
    let n = s.unicode_len();
    if !(i < n && s.get_char(i) == '[') {
        return None;
    }
    if i + 1 < n && s.get_char(i + 1) == ']' {
        let l: Vec<MeasureSeries> = Vec::new();
        proof {
            assert(seq_view(l@) =~= Seq::<crate::models::MeasureSeriesV>::empty());
        }
        Some((l, i + 2))
    } else {
        p_series_items(s, i + 1)
    }
}

/// Parses the members of a non-empty projectile list up to and including the
/// closing bracket.
fn p_arrow_items(s: &str, i: usize) -> (r: Option<(Vec<Arrow>, usize)>)
    requires
        i <= s@.len(),
    ensures
        match r {
            Some(p) => sp_arrow_items(s@, i as int) == Some((seq_view(p.0@), p.1 as int))
                && crate::message::arrows_wf(seq_view(p.0@)) && i
                <= p.1 <= s@.len(),
            None => sp_arrow_items(s@, i as int) is None,
        },
    decreases s@.len() - i,
{
    let (b, j) = match p_arrow(s, i) {
        Some(x) => x,
        None => {
            return None;
        },
    };
    let n = s.unicode_len();
    if j < n && s.get_char(j) == ']' {
        let mut l: Vec<Arrow> = Vec::new();
        l.push(b);
        proof {
            assert(seq_view(l@) =~= seq![l@[0]@]);
        }
        Some((l, j + 1))
    } else if j < n && s.get_char(j) == ',' {
        let (mut l, k) = match p_arrow_items(s, j + 1) {
            Some(x) => x,
            None => {
                return None;
            },
        };
        let ghost l0 = l@;
        l.insert(0, b);
        proof {
            assert(seq_view(l@) =~= seq![b@] + seq_view(l0));
        }
        Some((l, k))
    } else {
        None
    }
}

/// Parses a projectile list.
fn p_arrow_list(s: &str, i: usize) -> (r: Option<(Vec<Arrow>, usize)>)
    requires
        i <= s@.len(),
    ensures
        match r {
            Some(p) => sp_arrow_list(s@, i as int) == Some((seq_view(p.0@), p.1 as int))
                && crate::message::arrows_wf(seq_view(p.0@)) && i
                <= p.1 <= s@.len(),
            None => sp_arrow_list(s@, i as int) is None,
        },
{
    let n = s.unicode_len();
    if !(i < n && s.get_char(i) == '[') {
        return None;
    }
    if i + 1 < n && s.get_char(i + 1) == ']' {
        let l: Vec<Arrow> = Vec::new();
        proof {
            assert(seq_view(l@) =~= Seq::<crate::models::ArrowV>::empty());
        }
        Some((l, i + 2))
    } else {
        p_arrow_items(s, i + 1)
    }
}

/// Parses the members of a non-empty run list up to and including the closing
/// bracket.
fn p_measure_items(s: &str, i: usize) -> (r: Option<(Vec<Measure>, usize)>)
    requires
        i <= s@.len(),
    ensures
        match r {
            Some(p) => sp_measure_items(s@, i as int) == Some((seq_view(p.0@), p.1 as int))
                && crate::message::measures_wf(seq_view(p.0@)) && i
                <= p.1 <= s@.len(),
            None => sp_measure_items(s@, i as int) is None,
        },
    decreases s@.len() - i,
{
    let (b, j) = match p_measure(s, i) {
        Some(x) => x,
        None => {
            return None;
        },
    };
    let n = s.unicode_len();
    if j < n && s.get_char(j) == ']' {
        let mut l: Vec<Measure> = Vec::new();
        l.push(b);
        proof {
            assert(seq_view(l@) =~= seq![l@[0]@]);
        }
        Some((l, j + 1))
    } else if j < n && s.get_char(j) == ',' {
        let (mut l, k) = match p_measure_items(s, j + 1) {
            Some(x) => x,
            None => {
                return None;
            },
        };
        let ghost l0 = l@;
        l.insert(0, b);
        proof {
            assert(seq_view(l@) =~= seq![b@] + seq_view(l0));
        }
        Some((l, k))
    } else {
        None
    }
}

/// Parses a run list.
fn p_measure_list(s: &str, i: usize) -> (r: Option<(Vec<Measure>, usize)>)
    requires
        i <= s@.len(),
    ensures
        match r {
            Some(p) => sp_measure_list(s@, i as int) == Some((seq_view(p.0@), p.1 as int))
                && crate::message::measures_wf(seq_view(p.0@)) && i
                <= p.1 <= s@.len(),
            None => sp_measure_list(s@, i as int) is None,
        },
{
    let n = s.unicode_len();
    if !(i < n && s.get_char(i) == '[') {
        return None;
    }
    if i + 1 < n && s.get_char(i + 1) == ']' {
        let l: Vec<Measure> = Vec::new();
        proof {
            assert(seq_view(l@) =~= Seq::<crate::models::MeasureV>::empty());
        }
        Some((l, i + 2))
    } else {
        p_measure_items(s, i + 1)
    }
}

/// Parses the members of a non-empty sample-point list up to and including
/// the closing bracket.
fn p_point_items(s: &str, i: usize) -> (r: Option<(Vec<MeasurePoint>, usize)>)
    requires
        i <= s@.len(),
    ensures
        match r {
            Some(p) => sp_point_items(s@, i as int) == Some((seq_view(p.0@), p.1 as int))
                && crate::message::points_wf(seq_view(p.0@)) && i
                <= p.1 <= s@.len(),
            None => sp_point_items(s@, i as int) is None,
        },
    decreases s@.len() - i,
{
    let (b, j) = match p_point(s, i) {
        Some(x) => x,
        None => {
            return None;
        },
    };
    let n = s.unicode_len();
    if j < n && s.get_char(j) == ']' {
        let mut l: Vec<MeasurePoint> = Vec::new();
        l.push(b);
        proof {
            assert(seq_view(l@) =~= seq![l@[0]@]);
        }
        Some((l, j + 1))
    } else if j < n && s.get_char(j) == ',' {
        let (mut l, k) = match p_point_items(s, j + 1) {
            Some(x) => x,
            None => {
                return None;
            },
        };
        let ghost l0 = l@;
        l.insert(0, b);
        proof {
            assert(seq_view(l@) =~= seq![b@] + seq_view(l0));
        }
        Some((l, k))
    } else {
        None
    }
}

/// Parses a sample-point list.
fn p_point_list(s: &str, i: usize) -> (r: Option<(Vec<MeasurePoint>, usize)>)
    requires
        i <= s@.len(),
    ensures
        match r {
            Some(p) => sp_point_list(s@, i as int) == Some((seq_view(p.0@), p.1 as int))
                && crate::message::points_wf(seq_view(p.0@)) && i
                <= p.1 <= s@.len(),
            None => sp_point_list(s@, i as int) is None,
        },
{
    let n = s.unicode_len();
    if !(i < n && s.get_char(i) == '[') {
        return None;
    }
    if i + 1 < n && s.get_char(i + 1) == ']' {
        let l: Vec<MeasurePoint> = Vec::new();
        proof {
            assert(seq_view(l@) =~= Seq::<crate::models::MeasurePointV>::empty());
        }
        Some((l, i + 2))
    } else {
        p_point_items(s, i + 1)
    }
}

/// Whether a parsed text equals a fixed word.
fn str_is(w: &String, lit: &str) -> (b: bool)
    ensures
        b == (w@ == lit@),
{
    let tmp = String::from_str(lit);
    w.eq(&tmp)
}

/// Parses a machine status.
fn p_status(s: &str, i: usize) -> (r: Option<(MachineStatus, usize)>)
    requires
        i <= s@.len(),
    ensures
        match r {
            Some(p) => sp_status(s@, i as int) == Some((p.0, p.1 as int)) && i <= p.1 <= s@.len(),
            None => sp_status(s@, i as int) is None,
        },
{
    let (w, j) = match p_string(s, i) {
        Some(x) => x,
        None => {
            return None;
        },
    };
    if str_is(&w, "pause") {
        Some((MachineStatus::Pause, j))
    } else if str_is(&w, "shooting") {
        Some((MachineStatus::Shooting, j))
    } else if str_is(&w, "error") {
        Some((MachineStatus::Error, j))
    } else {
        None
    }
}

/// Parses a machine command.
fn p_command(s: &str, i: usize) -> (r: Option<(MachineCommand, usize)>)
    requires
        i <= s@.len(),
    ensures
        match r {
            Some(p) => sp_command(s@, i as int) == Some((p.0, p.1 as int)) && i <= p.1 <= s@.len(),
            None => sp_command(s@, i as int) is None,
        },
{
    let (w, j) = match p_string(s, i) {
        Some(x) => x,
        None => {
            return None;
        },
    };
    if str_is(&w, "calibrate") {
        Some((MachineCommand::Calibrate, j))
    } else if str_is(&w, "reset") {
        Some((MachineCommand::Reset, j))
    } else if str_is(&w, "restart") {
        Some((MachineCommand::Restart, j))
    } else if str_is(&w, "shutdown") {
        Some((MachineCommand::Shutdown, j))
    } else {
        None
    }
}

/// Parses a request payload.
#[verifier::rlimit(100)]
fn p_request(s: &str, i: usize) -> (r: Option<(WSRequest, usize)>)
    requires
        i <= s@.len(),
    ensures
        match r {
            Some(p) => sp_request(s@, i as int) == Some((p.0@, p.1 as int)) && p.0@.wf() && i <= p.1
                <= s@.len(),
            None => sp_request(s@, i as int) is None,
        },
{
    let i1 = match p_lit(s, i, "{") {
        Some(x) => x,
        None => {
            return None;
        },
    };
    let (key, i2) = match p_string(s, i1) {
        Some(x) => x,
        None => {
            return None;
        },
    };
    let i3 = match p_lit(s, i2, ":") {
        Some(x) => x,
        None => {
            return None;
        },
    };
    if str_is(&key, "listbows") {
        match p_lit(s, i3, "{}}") {
            Some(j) => Some((WSRequest::ListBows, j)),
            None => None,
        }
    } else if str_is(&key, "listmeasureseries") {
        let i4 = match p_lit(s, i3, "{\"bow_id\":") {
            Some(x) => x,
            None => {
                return None;
            },
        };
        let (v, i5) = match p_int(s, i4, ID_LIMIT) {
            Some(x) => x,
            None => {
                return None;
            },
        };
        match p_lit(s, i5, "}}") {
            Some(j) => Some((WSRequest::ListMeasureSeries { bow_id: v as i32 }, j)),
            None => None,
        }
    } else if str_is(&key, "listarrows") {
        let i4 = match p_lit(s, i3, "{\"bow_id\":") {
            Some(x) => x,
            None => {
                return None;
            },
        };
        let (v, i5) = match p_int(s, i4, ID_LIMIT) {
            Some(x) => x,
            None => {
                return None;
            },
        };
        match p_lit(s, i5, "}}") {
            Some(j) => Some((WSRequest::ListArrows { bow_id: v as i32 }, j)),
            None => None,
        }
    } else if str_is(&key, "listmeasures") {
        let i4 = match p_lit(s, i3, "{\"series_id\":") {
            Some(x) => x,
            None => {
                return None;
            },
        };
        let (v, i5) = match p_int(s, i4, ID_LIMIT) {
            Some(x) => x,
            None => {
                return None;
            },
        };
        match p_lit(s, i5, "}}") {
            Some(j) => Some((WSRequest::ListMeasures { series_id: v as i32 }, j)),
            None => None,
        }
    } else if str_is(&key, "listmeasurepoints") {
        let i4 = match p_lit(s, i3, "{\"measure_id\":") {
            Some(x) => x,
            None => {
                return None;
            },
        };
        let (v, i5) = match p_int(s, i4, ID_LIMIT) {
            Some(x) => x,
            None => {
                return None;
            },
        };
        match p_lit(s, i5, "}}") {
            Some(j) => Some((WSRequest::ListMeasurePoints { measure_id: v as i32 }, j)),
            None => None,
        }
    } else if str_is(&key, "addbow") {
        let (b, i4) = match p_bow(s, i3) {
            Some(x) => x,
            None => {
                return None;
            },
        };
        match p_lit(s, i4, "}") {
            Some(j) => Some((WSRequest::AddBow(b), j)),
            None => None,
        }
    } else if str_is(&key, "addarrow") {
        let (a, i4) = match p_arrow(s, i3) {
            Some(x) => x,
            None => {
                return None;
            },
        };
        match p_lit(s, i4, "}") {
            Some(j) => Some((WSRequest::AddArrow(a), j)),
            None => None,
        }
    } else if str_is(&key, "newmeasureseries") {
        let (v, i4) = match p_series(s, i3) {
            Some(x) => x,
            None => {
                return None;
            },
        };
        match p_lit(s, i4, "}") {
            Some(j) => Some((WSRequest::NewMeasureSeries(v), j)),
            None => None,
        }
    } else if str_is(&key, "startmeasure") {
        let (m, i4) = match p_measure(s, i3) {
            Some(x) => x,
            None => {
                return None;
            },
        };
        match p_lit(s, i4, "}") {
            Some(j) => Some((WSRequest::StartMeasure(m), j)),
            None => None,
        }
    } else if str_is(&key, "command") {
        let (c, i4) = match p_command(s, i3) {
            Some(x) => x,
            None => {
                return None;
            },
        };
        match p_lit(s, i4, "}") {
            Some(j) => Some((WSRequest::Command(c), j)),
            None => None,
        }
    } else {
        None
    }
}

/// Parses an update payload.
#[verifier::rlimit(100)]
fn p_update(s: &str, i: usize) -> (r: Option<(WSUpdate, usize)>)
    requires
        i <= s@.len(),
    ensures
        match r {
            Some(p) => sp_update(s@, i as int) == Some((p.0@, p.1 as int)) && p.0@.wf() && i <= p.1 <= s@.len(),
            None => sp_update(s@, i as int) is None,
        },
{
    let i1 = match p_lit(s, i, "{") {
        Some(x) => x,
        None => {
            return None;
        },
    };
    let (key, i2) = match p_string(s, i1) {
        Some(x) => x,
        None => {
            return None;
        },
    };
    let i3 = match p_lit(s, i2, ":") {
        Some(x) => x,
        None => {
            return None;
        },
    };
    if str_is(&key, "alive") {
        match p_lit(s, i3, "{}}") {
            Some(j) => Some((WSUpdate::Alive, j)),
            None => None,
        }
    } else if str_is(&key, "bowlist") {
        let (l, i4) = match p_bow_list(s, i3) {
            Some(x) => x,
            None => {
                return None;
            },
        };
        match p_lit(s, i4, "}") {
            Some(j) => Some((WSUpdate::BowList(l), j)),
            None => None,
        }
    } else if str_is(&key, "measureserieslist") {
        let (l, i4) = match p_series_list(s, i3) {
            Some(x) => x,
            None => {
                return None;
            },
        };
        match p_lit(s, i4, "}") {
            Some(j) => Some((WSUpdate::MeasureSeriesList(l), j)),
            None => None,
        }
    } else if str_is(&key, "arrowlist") {
        let (l, i4) = match p_arrow_list(s, i3) {
            Some(x) => x,
            None => {
                return None;
            },
        };
        match p_lit(s, i4, "}") {
            Some(j) => Some((WSUpdate::ArrowList(l), j)),
            None => None,
        }
    } else if str_is(&key, "measurelist") {
        let (l, i4) = match p_measure_list(s, i3) {
            Some(x) => x,
            None => {
                return None;
            },
        };
        match p_lit(s, i4, "}") {
            Some(j) => Some((WSUpdate::MeasureList(l), j)),
            None => None,
        }
    } else if str_is(&key, "measurepointlist") {
        let (l, i4) = match p_point_list(s, i3) {
            Some(x) => x,
            None => {
                return None;
            },
        };
        match p_lit(s, i4, "}") {
            Some(j) => Some((WSUpdate::MeasurePointList(l), j)),
            None => None,
        }
    } else if str_is(&key, "status") {
        let (st, i4) = match p_status(s, i3) {
            Some(x) => x,
            None => {
                return None;
            },
        };
        match p_lit(s, i4, "}") {
            Some(j) => Some((WSUpdate::Status(st), j)),
            None => None,
        }
    } else if str_is(&key, "error") {
        let (m, i4) = match p_string(s, i3) {
            Some(x) => x,
            None => {
                return None;
            },
        };
        match p_lit(s, i4, "}") {
            Some(j) => Some((WSUpdate::Error(m), j)),
            None => None,
        }
    } else {
        None
    }
}

/// Parses the wire envelope.
#[verifier::rlimit(50)]
fn p_message(s: &str, i: usize) -> (r: Option<(WSMessage, usize)>)
    requires
        i <= s@.len(),
    ensures
        match r {
            Some(p) => sp_message(s@, i as int) == Some((p.0@, p.1 as int)) && p.0@.wf() && i <= p.1
                <= s@.len(),
            None => sp_message(s@, i as int) is None,
        },
{
    let i1 = match p_lit(s, i, "{") {
        Some(x) => x,
        None => {
            return None;
        },
    };
    let (key, i2) = match p_string(s, i1) {
        Some(x) => x,
        None => {
            return None;
        },
    };
    let i3 = match p_lit(s, i2, ":") {
        Some(x) => x,
        None => {
            return None;
        },
    };
    if str_is(&key, "request") {
        let (q, i4) = match p_request(s, i3) {
            Some(x) => x,
            None => {
                return None;
            },
        };
        match p_lit(s, i4, "}") {
            Some(j) => Some((WSMessage::Request(q), j)),
            None => None,
        }
    } else if str_is(&key, "update") {
        let (u, i4) = match p_update(s, i3) {
            Some(x) => x,
            None => {
                return None;
            },
        };
        match p_lit(s, i4, "}") {
            Some(j) => Some((WSMessage::Update(u), j)),
            None => None,
        }
    } else if str_is(&key, "response") {
        let (u, i4) = match p_update(s, i3) {
            Some(x) => x,
            None => {
                return None;
            },
        };
        match p_lit(s, i4, "}") {
            Some(j) => Some((WSMessage::Response(u), j)),
            None => None,
        }
    } else {
        None
    }
}

/// Decodes one whole text frame into an envelope, or reports that the frame
/// does not fit the wire grammar.
pub fn decode_ws_message(s: &str) -> (r: Option<WSMessage>)
    ensures
        match r {
            Some(m) => sp_decode(s@) == Some(m@) && m@.wf(),
            None => sp_decode(s@) is None,
        },
{
    match p_message(s, 0) {
        None => None,
        Some((m, j)) => {
            if j == s.unicode_len() {
                Some(m)
            } else {
                None
            }
        },
    }
}

/// Decodes one whole text body as a single equipment unit.
pub fn decode_bow_body(s: &str) -> (r: Option<Bow>)
    ensures
        match r {
            Some(b) => sp_bow(s@, 0) == Some((b@, s@.len() as int)) && b@.wf(),
            None => match sp_bow(s@, 0) {
                Some(p) => p.1 != s@.len(),
                None => true,
            },
        },
{
    match p_bow(s, 0) {
        Some((b, j)) => {
            if j == s.unicode_len() {
                Some(b)
            } else {
                None
            }
        },
        None => None,
    }
}

/// Decodes one whole text body as a single projectile.
pub fn decode_arrow_body(s: &str) -> (r: Option<Arrow>)
    ensures
        match r {
            Some(b) => sp_arrow(s@, 0) == Some((b@, s@.len() as int)) && b@.wf(),
            None => match sp_arrow(s@, 0) {
                Some(p) => p.1 != s@.len(),
                None => true,
            },
        },
{
    match p_arrow(s, 0) {
        Some((b, j)) => {
            if j == s.unicode_len() {
                Some(b)
            } else {
                None
            }
        },
        None => None,
    }
}

/// Decodes one whole text body as a single measurement series.
pub fn decode_series_body(s: &str) -> (r: Option<MeasureSeries>)
    ensures
        match r {
            Some(b) => sp_series(s@, 0) == Some((b@, s@.len() as int)) && b@.wf(),
            None => match sp_series(s@, 0) {
                Some(p) => p.1 != s@.len(),
                None => true,
            },
        },
{
    match p_series(s, 0) {
        Some((b, j)) => {
            if j == s.unicode_len() {
                Some(b)
            } else {
                None
            }
        },
        None => None,
    }
}

/// Decodes one whole text body as a single measurement run.
pub fn decode_measure_body(s: &str) -> (r: Option<Measure>)
    ensures
        match r {
            Some(b) => sp_measure(s@, 0) == Some((b@, s@.len() as int)) && b@.wf(),
            None => match sp_measure(s@, 0) {
                Some(p) => p.1 != s@.len(),
                None => true,
            },
        },
{
    match p_measure(s, 0) {
        Some((b, j)) => {
            if j == s.unicode_len() {
                Some(b)
            } else {
                None
            }
        },
        None => None,
    }
}

/// Decodes one whole text body as a single machine command.
pub fn decode_command_body(s: &str) -> (r: Option<MachineCommand>)
    ensures
        match r {
            Some(c) => sp_command(s@, 0) == Some((c, s@.len() as int)),
            None => match sp_command(s@, 0) {
                Some(p) => p.1 != s@.len(),
                None => true,
            },
        },
{
    match p_command(s, 0) {
        Some((c, j)) => {
            if j == s.unicode_len() {
                Some(c)
            } else {
                None
            }
        },
        None => None,
    }
}

} // verus!
