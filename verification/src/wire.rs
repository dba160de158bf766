//! The wire grammar: canonical JSON text for the envelope, as total
//! specification functions.
//!
//! `enc_*` gives the canonical text of a value; `sp_*` parses text from a
//! position and yields the value together with the position just past it, or
//! nothing when the text does not fit the grammar.  The codec's executable
//! functions implement these specifications exactly, and the round-trip law
//! is proved about them.
//!
//! The grammar is canonical and escape-free: a text field stands verbatim
//! between its quotes, so wire validity (`text_ok`) admits every character
//! but the quote, the backslash and the control range.  That domain is this
//! library's validity notion for envelopes; `encode_frame` answers for an
//! envelope outside it with the fixed error frame, so frame production is
//! total.

use crate::message::MachineCommand;
use crate::message::WSMessageV;
use crate::message::WSRequestV;
use crate::message::WSUpdateV;
use crate::models::ArrowV;
use crate::models::BowV;
use crate::models::MachineStatus;
use crate::models::MeasurePointV;
use crate::models::MeasureSeriesV;
use crate::models::MeasureV;
use crate::models::text_char_ok;
use crate::models::ID_LIMIT;
use crate::models::INT_LIMIT;
use crate::models::MILLI_LIMIT;
use vstd::prelude::*;

verus! {

// ------------------------------------------------------------------
// characters and digits
// ------------------------------------------------------------------
/// A decimal digit.
pub open spec fn is_digit(c: char) -> bool {
    48 <= (c as u32) && (c as u32) <= 57
}

/// Numeric value of a decimal digit.
pub open spec fn digit_of(c: char) -> int {
    (c as u32) - 48
}

/// The decimal digit with value `d`.
pub open spec fn digit_char(d: int) -> char {
    if d == 0 {
        '0'
    } else if d == 1 {
        '1'
    } else if d == 2 {
        '2'
    } else if d == 3 {
        '3'
    } else if d == 4 {
        '4'
    } else if d == 5 {
        '5'
    } else if d == 6 {
        '6'
    } else if d == 7 {
        '7'
    } else if d == 8 {
        '8'
    } else {
        '9'
    }
}

/// Decimal numeral of `n`, most significant digit first.
pub open spec fn dec_digits(n: nat) -> Seq<char>
    decreases n,
{
    if n < 10 {
        seq![digit_char(n as int)]
    } else {
        dec_digits(n / 10).push(digit_char((n % 10) as int))
    }
}

/// Position of the first character at or after `i` that is not a digit.
pub open spec fn scan_digits(s: Seq<char>, i: int) -> int
    decreases s.len() - i,
{
    if 0 <= i < s.len() && is_digit(s[i]) {
        scan_digits(s, i + 1)
    } else {
        i
    }
}

/// Value of the digit run `s[i .. j)`, read as a decimal numeral.
pub open spec fn digits_val(s: Seq<char>, i: int, j: int) -> int
    decreases j - i,
{
    if j <= i {
        0
    } else {
        digits_val(s, i, j - 1) * 10 + digit_of(s[j - 1])
    }
}

// ------------------------------------------------------------------
// numbers
// ------------------------------------------------------------------
/// Canonical text of a plain integer.
pub open spec fn enc_int(v: int) -> Seq<char> {
    if v < 0 {
        "-"@ + dec_digits((-v) as nat)
    } else {
        dec_digits(v as nat)
    }
}

/// Parses an unsigned decimal run whose value is at most `limit`.
pub open spec fn sp_uint(s: Seq<char>, i: int, limit: int) -> Option<(int, int)> {
    let j = scan_digits(s, i);
    if j == i {
        None
    } else {
        let v = digits_val(s, i, j);
        if v <= limit {
            Some((v, j))
        } else {
            None
        }
    }
}

/// Parses a plain integer whose magnitude is at most `limit`.
pub open spec fn sp_int(s: Seq<char>, i: int, limit: int) -> Option<(int, int)> {
    if 0 <= i < s.len() && s[i] == '-' {
        match sp_uint(s, i + 1, limit) {
            Some((v, j)) => Some((-v, j)),
            None => None,
        }
    } else {
        sp_uint(s, i, limit)
    }
}

/// Canonical text of the fractional part of a fixed-point quantity, padded to
/// three digits.
pub open spec fn pad3(f: int) -> Seq<char> {
    seq![digit_char(f / 100), digit_char((f / 10) % 10), digit_char(f % 10)]
}

/// Canonical text of a fixed-point quantity: whole units, a point, and three
/// digits of thousandths.
pub open spec fn enc_milli(v: int) -> Seq<char> {
    let m = if v < 0 {
        -v
    } else {
        v
    };
    let sign = if v < 0 {
        "-"@
    } else {
        Seq::<char>::empty()
    };
    sign + dec_digits((m / 1000) as nat) + "."@ + pad3(m % 1000)
}

/// Parses a fixed-point quantity.
pub open spec fn sp_milli(s: Seq<char>, i: int) -> Option<(int, int)> {
    let neg = 0 <= i < s.len() && s[i] == '-';
    let i1 = if neg {
        i + 1
    } else {
        i
    };
    match sp_uint(s, i1, MILLI_LIMIT as int / 1000) {
        Some((q, j)) => {
            if j < s.len() && s[j] == '.' {
                let j1 = scan_digits(s, j + 1);
                if j1 == j + 4 {
                    let f = digits_val(s, j + 1, j1);
                    let m = q * 1000 + f;
                    if m <= MILLI_LIMIT as int {
                        Some(((if neg { -m } else { m }), j1))
                    } else {
                        None
                    }
                } else {
                    None
                }
            } else {
                None
            }
        },
        None => None,
    }
}

// ------------------------------------------------------------------
// texts
// ------------------------------------------------------------------
/// Canonical text of a quoted text field.
pub open spec fn enc_string(t: Seq<char>) -> Seq<char> {
    "\""@ + t + "\""@
}

/// Position of the first character at or after `i` that may not stand inside
/// a quoted text field.
pub open spec fn scan_text(s: Seq<char>, i: int) -> int
    decreases s.len() - i,
{
    if 0 <= i < s.len() && text_char_ok(s[i]) {
        scan_text(s, i + 1)
    } else {
        i
    }
}

/// Parses a quoted text field.
pub open spec fn sp_string(s: Seq<char>, i: int) -> Option<(Seq<char>, int)> {
    if 0 <= i < s.len() && s[i] == '"' {
        let j = scan_text(s, i + 1);
        if j < s.len() && s[j] == '"' {
            Some((s.subrange(i + 1, j), j + 1))
        } else {
            None
        }
    } else {
        None
    }
}

// ------------------------------------------------------------------
// literal runs
// ------------------------------------------------------------------
/// The text `t` stands in `s` at position `i`.
pub open spec fn has_seq_at(s: Seq<char>, i: int, t: Seq<char>) -> bool {
    0 <= i && i + t.len() <= s.len() && s.subrange(i, i + t.len() as int) == t
}

/// Parses the fixed run `t`.
pub open spec fn sp_lit(s: Seq<char>, i: int, t: Seq<char>) -> Option<int> {
    if has_seq_at(s, i, t) {
        Some(i + t.len() as int)
    } else {
        None
    }
}

// ------------------------------------------------------------------
// optional fields
// ------------------------------------------------------------------
/// Canonical text of an optional fixed-point quantity.
pub open spec fn enc_opt_milli(v: Option<int>) -> Seq<char> {
    match v {
        Some(m) => enc_milli(m),
        None => "null"@,
    }
}

/// Parses an optional fixed-point quantity.
pub open spec fn sp_opt_milli(s: Seq<char>, i: int) -> Option<(Option<int>, int)> {
    if 0 <= i < s.len() && s[i] == 'n' {
        match sp_lit(s, i, "null"@) {
            Some(j) => Some((None, j)),
            None => None,
        }
    } else {
        match sp_milli(s, i) {
            Some((m, j)) => Some((Some(m), j)),
            None => None,
        }
    }
}

/// Canonical text of an optional text field.
pub open spec fn enc_opt_string(t: Option<Seq<char>>) -> Seq<char> {
    match t {
        Some(u) => enc_string(u),
        None => "null"@,
    }
}

/// Parses an optional text field.
pub open spec fn sp_opt_string(s: Seq<char>, i: int) -> Option<(Option<Seq<char>>, int)> {
    if 0 <= i < s.len() && s[i] == 'n' {
        match sp_lit(s, i, "null"@) {
            Some(j) => Some((None, j)),
            None => None,
        }
    } else {
        match sp_string(s, i) {
            Some((u, j)) => Some((Some(u), j)),
            None => None,
        }
    }
}

// ------------------------------------------------------------------
// records
// ------------------------------------------------------------------
/// Canonical text of an equipment unit.
pub open spec fn enc_bow(b: BowV) -> Seq<char> {
    "{\"id\":"@ + enc_int(b.id) + ",\"name\":"@ + enc_string(b.name) + ",\"max_draw_distance\":"@
        + enc_milli(b.max_draw_distance) + ",\"remainder_arrow_length\":"@ + enc_milli(
        b.remainder_arrow_length,
    ) + "}"@
}

/// Parses an equipment unit.
pub open spec fn sp_bow(s: Seq<char>, i: int) -> Option<(BowV, int)> {
    match sp_lit(s, i, "{\"id\":"@) {
        None => None,
        Some(i1) => match sp_int(s, i1, ID_LIMIT as int) {
            None => None,
            Some((id, i2)) => match sp_lit(s, i2, ",\"name\":"@) {
                None => None,
                Some(i3) => match sp_string(s, i3) {
                    None => None,
                    Some((name, i4)) => match sp_lit(s, i4, ",\"max_draw_distance\":"@) {
                        None => None,
                        Some(i5) => match sp_milli(s, i5) {
                            None => None,
                            Some((mdd, i6)) => match sp_lit(
                                s,
                                i6,
                                ",\"remainder_arrow_length\":"@,
                            ) {
                                None => None,
                                Some(i7) => match sp_milli(s, i7) {
                                    None => None,
                                    Some((ral, i8)) => match sp_lit(s, i8, "}"@) {
                                        None => None,
                                        Some(i9) => Some(
                                            (
                                                BowV {
                                                    id: id,
                                                    name: name,
                                                    max_draw_distance: mdd,
                                                    remainder_arrow_length: ral,
                                                },
                                                i9,
                                            ),
                                        ),
                                    },
                                },
                            },
                        },
                    },
                },
            },
        },
    }
}

/// Canonical text of a measurement series.
pub open spec fn enc_series(v: MeasureSeriesV) -> Seq<char> {
    "{\"id\":"@ + enc_int(v.id) + ",\"name\":"@ + enc_string(v.name) + ",\"rest_position\":"@
        + enc_milli(v.rest_position) + ",\"draw_distance\":"@ + enc_opt_milli(v.draw_distance)
        + ",\"draw_force\":"@ + enc_opt_milli(v.draw_force) + ",\"time\":"@ + enc_int(v.time)
        + ",\"bow_id\":"@ + enc_int(v.bow_id) + "}"@
}

/// Parses a measurement series.
pub open spec fn sp_series(s: Seq<char>, i: int) -> Option<(MeasureSeriesV, int)> {
    match sp_lit(s, i, "{\"id\":"@) {
        None => None,
        Some(i1) => match sp_int(s, i1, ID_LIMIT as int) {
            None => None,
            Some((id, i2)) => match sp_lit(s, i2, ",\"name\":"@) {
                None => None,
                Some(i3) => match sp_string(s, i3) {
                    None => None,
                    Some((name, i4)) => match sp_lit(s, i4, ",\"rest_position\":"@) {
                        None => None,
                        Some(i5) => match sp_milli(s, i5) {
                            None => None,
                            Some((rest, i6)) => match sp_lit(s, i6, ",\"draw_distance\":"@) {
                                None => None,
                                Some(i7) => match sp_opt_milli(s, i7) {
                                    None => None,
                                    Some((dd, i8)) => match sp_lit(s, i8, ",\"draw_force\":"@) {
                                        None => None,
                                        Some(i9) => match sp_opt_milli(s, i9) {
                                            None => None,
                                            Some((df, i10)) => match sp_lit(s, i10, ",\"time\":"@) {
                                                None => None,
                                                Some(i11) => match sp_int(
                                                    s,
                                                    i11,
                                                    INT_LIMIT as int,
                                                ) {
                                                    None => None,
                                                    Some((tm, i12)) => match sp_lit(
                                                        s,
                                                        i12,
                                                        ",\"bow_id\":"@,
                                                    ) {
                                                        None => None,
                                                        Some(i13) => match sp_int(
                                                            s,
                                                            i13,
                                                            ID_LIMIT as int,
                                                        ) {
                                                            None => None,
                                                            Some((bid, i14)) => match sp_lit(
                                                                s,
                                                                i14,
                                                                "}"@,
                                                            ) {
                                                                None => None,
                                                                Some(i15) => Some(
                                                                    (
                                                                        MeasureSeriesV {
                                                                            id: id,
                                                                            name: name,
                                                                            rest_position: rest,
                                                                            draw_distance: dd,
                                                                            draw_force: df,
                                                                            time: tm,
                                                                            bow_id: bid,
                                                                        },
                                                                        i15,
                                                                    ),
                                                                ),
                                                            },
                                                        },
                                                    },
                                                },
                                            },
                                        },
                                    },
                                },
                            },
                        },
                    },
                },
            },
        },
    }
}

/// Canonical text of a projectile.
pub open spec fn enc_arrow(a: ArrowV) -> Seq<char> {
    "{\"id\":"@ + enc_int(a.id) + ",\"name\":"@ + enc_opt_string(a.name) + ",\"head_weight\":"@
        + enc_opt_milli(a.head_weight) + ",\"spline\":"@ + enc_opt_milli(a.spline)
        + ",\"feather_length\":"@ + enc_opt_milli(a.feather_length) + ",\"feather_type\":"@
        + enc_opt_string(a.feather_type) + ",\"length\":"@ + enc_milli(a.length) + ",\"weight\":"@
        + enc_milli(a.weight) + ",\"bow_id\":"@ + enc_int(a.bow_id) + "}"@
}

/// Parses a projectile.
pub open spec fn sp_arrow(s: Seq<char>, i: int) -> Option<(ArrowV, int)> {
    match sp_lit(s, i, "{\"id\":"@) {
        None => None,
        Some(i1) => match sp_int(s, i1, ID_LIMIT as int) {
            None => None,
            Some((id, i2)) => match sp_lit(s, i2, ",\"name\":"@) {
                None => None,
                Some(i3) => match sp_opt_string(s, i3) {
                    None => None,
                    Some((name, i4)) => match sp_lit(s, i4, ",\"head_weight\":"@) {
                        None => None,
                        Some(i5) => match sp_opt_milli(s, i5) {
                            None => None,
                            Some((hw, i6)) => match sp_lit(s, i6, ",\"spline\":"@) {
                                None => None,
                                Some(i7) => match sp_opt_milli(s, i7) {
                                    None => None,
                                    Some((spl, i8)) => match sp_lit(s, i8, ",\"feather_length\":"@) {
                                        None => None,
                                        Some(i9) => match sp_opt_milli(s, i9) {
                                            None => None,
                                            Some((fl, i10)) => match sp_lit(
                                                s,
                                                i10,
                                                ",\"feather_type\":"@,
                                            ) {
                                                None => None,
                                                Some(i11) => match sp_opt_string(s, i11) {
                                                    None => None,
                                                    Some((ft, i12)) => match sp_lit(
                                                        s,
                                                        i12,
                                                        ",\"length\":"@,
                                                    ) {
                                                        None => None,
                                                        Some(i13) => match sp_milli(s, i13) {
                                                            None => None,
                                                            Some((ln, i14)) => match sp_lit(
                                                                s,
                                                                i14,
                                                                ",\"weight\":"@,
                                                            ) {
                                                                None => None,
                                                                Some(i15) => match sp_milli(
                                                                    s,
                                                                    i15,
                                                                ) {
                                                                    None => None,
                                                                    Some((wt, i16)) => match sp_lit(
                                                                        s,
                                                                        i16,
                                                                        ",\"bow_id\":"@,
                                                                    ) {
                                                                        None => None,
                                                                        Some(i17) => match sp_int(
                                                                            s,
                                                                            i17,
                                                                            ID_LIMIT as int,
                                                                        ) {
                                                                            None => None,
                                                                            Some(
                                                                                (bid, i18),
                                                                            ) => match sp_lit(
                                                                                s,
                                                                                i18,
                                                                                "}"@,
                                                                            ) {
                                                                                None => None,
                                                                                Some(i19) => Some(
                                                                                    (
                                                                                        ArrowV {
                                                                                            id: id,
                                                                                            name:
                                                                                                name,
                                                                                            head_weight:
                                                                                                hw,
                                                                                            spline:
                                                                                                spl,
                                                                                            feather_length:
                                                                                                fl,
                                                                                            feather_type:
                                                                                                ft,
                                                                                            length:
                                                                                                ln,
                                                                                            weight:
                                                                                                wt,
                                                                                            bow_id:
                                                                                                bid,
                                                                                        },
                                                                                        i19,
                                                                                    ),
                                                                                ),
                                                                            },
                                                                        },
                                                                    },
                                                                },
                                                            },
                                                        },
                                                    },
                                                },
                                            },
                                        },
                                    },
                                },
                            },
                        },
                    },
                },
            },
        },
    }
}

/// Canonical text of a measurement run.
pub open spec fn enc_measure(m: MeasureV) -> Seq<char> {
    "{\"id\":"@ + enc_int(m.id) + ",\"measure_interval\":"@ + enc_milli(m.measure_interval)
        + ",\"measure_series_id\":"@ + enc_int(m.measure_series_id) + ",\"arrow_id\":"@ + enc_int(
        m.arrow_id,
    ) + "}"@
}

/// Parses a measurement run.
pub open spec fn sp_measure(s: Seq<char>, i: int) -> Option<(MeasureV, int)> {
    match sp_lit(s, i, "{\"id\":"@) {
        None => None,
        Some(i1) => match sp_int(s, i1, ID_LIMIT as int) {
            None => None,
            Some((id, i2)) => match sp_lit(s, i2, ",\"measure_interval\":"@) {
                None => None,
                Some(i3) => match sp_milli(s, i3) {
                    None => None,
                    Some((mi, i4)) => match sp_lit(s, i4, ",\"measure_series_id\":"@) {
                        None => None,
                        Some(i5) => match sp_int(s, i5, ID_LIMIT as int) {
                            None => None,
                            Some((sid, i6)) => match sp_lit(s, i6, ",\"arrow_id\":"@) {
                                None => None,
                                Some(i7) => match sp_int(s, i7, ID_LIMIT as int) {
                                    None => None,
                                    Some((aid, i8)) => match sp_lit(s, i8, "}"@) {
                                        None => None,
                                        Some(i9) => Some(
                                            (
                                                MeasureV {
                                                    id: id,
                                                    measure_interval: mi,
                                                    measure_series_id: sid,
                                                    arrow_id: aid,
                                                },
                                                i9,
                                            ),
                                        ),
                                    },
                                },
                            },
                        },
                    },
                },
            },
        },
    }
}

/// Canonical text of a sample point.
pub open spec fn enc_point(p: MeasurePointV) -> Seq<char> {
    "{\"id\":"@ + enc_int(p.id) + ",\"time\":"@ + enc_int(p.time) + ",\"draw_distance\":"@
        + enc_milli(p.draw_distance) + ",\"force\":"@ + enc_milli(p.force) + ",\"measure_id\":"@
        + enc_int(p.measure_id) + "}"@
}

/// Parses a sample point.
pub open spec fn sp_point(s: Seq<char>, i: int) -> Option<(MeasurePointV, int)> {
    match sp_lit(s, i, "{\"id\":"@) {
        None => None,
        Some(i1) => match sp_int(s, i1, ID_LIMIT as int) {
            None => None,
            Some((id, i2)) => match sp_lit(s, i2, ",\"time\":"@) {
                None => None,
                Some(i3) => match sp_int(s, i3, INT_LIMIT as int) {
                    None => None,
                    Some((tm, i4)) => match sp_lit(s, i4, ",\"draw_distance\":"@) {
                        None => None,
                        Some(i5) => match sp_milli(s, i5) {
                            None => None,
                            Some((dd, i6)) => match sp_lit(s, i6, ",\"force\":"@) {
                                None => None,
                                Some(i7) => match sp_milli(s, i7) {
                                    None => None,
                                    Some((fc, i8)) => match sp_lit(s, i8, ",\"measure_id\":"@) {
                                        None => None,
                                        Some(i9) => match sp_int(s, i9, ID_LIMIT as int) {
                                            None => None,
                                            Some((mid, i10)) => match sp_lit(s, i10, "}"@) {
                                                None => None,
                                                Some(i11) => Some(
                                                    (
                                                        MeasurePointV {
                                                            id: id,
                                                            time: tm,
                                                            draw_distance: dd,
                                                            force: fc,
                                                            measure_id: mid,
                                                        },
                                                        i11,
                                                    ),
                                                ),
                                            },
                                        },
                                    },
                                },
                            },
                        },
                    },
                },
            },
        },
    }
}

// ------------------------------------------------------------------
// record lists
// ------------------------------------------------------------------
/// Canonical text of the members of a non-empty equipment-unit list.
pub open spec fn enc_bow_items(l: Seq<BowV>) -> Seq<char>
    decreases l.len(),
{
    if l.len() <= 1 {
        if l.len() == 0 {
            Seq::<char>::empty()
        } else {
            enc_bow(l[0])
        }
    } else {
        enc_bow(l[0]) + ","@ + enc_bow_items(l.drop_first())
    }
}

/// Canonical text of an equipment-unit list.
pub open spec fn enc_bow_list(l: Seq<BowV>) -> Seq<char> {
    "["@ + enc_bow_items(l) + "]"@
}

/// Parses the members of a non-empty equipment-unit list up to and including
/// the closing bracket.
pub open spec fn sp_bow_items(s: Seq<char>, i: int) -> Option<(Seq<BowV>, int)>
    decreases s.len() - i,
{
    match sp_bow(s, i) {
        None => None,
        Some((b, j)) => {
            if j < s.len() && s[j] == ']' {
                Some((seq![b], j + 1))
            } else if j < s.len() && s[j] == ',' && i <= j {
                match sp_bow_items(s, j + 1) {
                    None => None,
                    Some((l, k)) => Some((seq![b] + l, k)),
                }
            } else {
                None
            }
        },
    }
}

/// Parses an equipment-unit list.
pub open spec fn sp_bow_list(s: Seq<char>, i: int) -> Option<(Seq<BowV>, int)> {
    if 0 <= i < s.len() && s[i] == '[' {
        if i + 1 < s.len() && s[i + 1] == ']' {
            Some((Seq::<BowV>::empty(), i + 2))
        } else {
            sp_bow_items(s, i + 1)
        }
    } else {
        None
    }
}

/// Canonical text of the members of a non-empty series list.
pub open spec fn enc_series_items(l: Seq<MeasureSeriesV>) -> Seq<char>
    decreases l.len(),
{
    if l.len() <= 1 {
        if l.len() == 0 {
            Seq::<char>::empty()
        } else {
            enc_series(l[0])
        }
    } else {
        enc_series(l[0]) + ","@ + enc_series_items(l.drop_first())
    }
}

/// Canonical text of a series list.
pub open spec fn enc_series_list(l: Seq<MeasureSeriesV>) -> Seq<char> {
    "["@ + enc_series_items(l) + "]"@
}

/// Parses the members of a non-empty series list up to and including the
/// closing bracket.
pub open spec fn sp_series_items(s: Seq<char>, i: int) -> Option<(Seq<MeasureSeriesV>, int)>
    decreases s.len() - i,
{
    match sp_series(s, i) {
        None => None,
        Some((b, j)) => {
            if j < s.len() && s[j] == ']' {
                Some((seq![b], j + 1))
            } else if j < s.len() && s[j] == ',' && i <= j {
                match sp_series_items(s, j + 1) {
                    None => None,
                    Some((l, k)) => Some((seq![b] + l, k)),
                }
            } else {
                None
            }
        },
    }
}

/// Parses a series list.
pub open spec fn sp_series_list(s: Seq<char>, i: int) -> Option<(Seq<MeasureSeriesV>, int)> {
    if 0 <= i < s.len() && s[i] == '[' {
        if i + 1 < s.len() && s[i + 1] == ']' {
            Some((Seq::<MeasureSeriesV>::empty(), i + 2))
        } else {
            sp_series_items(s, i + 1)
        }
    } else {
        None
    }
}

/// Canonical text of the members of a non-empty projectile list.
pub open spec fn enc_arrow_items(l: Seq<ArrowV>) -> Seq<char>
    decreases l.len(),
{
    if l.len() <= 1 {
        if l.len() == 0 {
            Seq::<char>::empty()
        } else {
            enc_arrow(l[0])
        }
    } else {
        enc_arrow(l[0]) + ","@ + enc_arrow_items(l.drop_first())
    }
}

/// Canonical text of a projectile list.
pub open spec fn enc_arrow_list(l: Seq<ArrowV>) -> Seq<char> {
    "["@ + enc_arrow_items(l) + "]"@
}

/// Parses the members of a non-empty projectile list up to and including the
/// closing bracket.
pub open spec fn sp_arrow_items(s: Seq<char>, i: int) -> Option<(Seq<ArrowV>, int)>
    decreases s.len() - i,
{
    match sp_arrow(s, i) {
        None => None,
        Some((b, j)) => {
            if j < s.len() && s[j] == ']' {
                Some((seq![b], j + 1))
            } else if j < s.len() && s[j] == ',' && i <= j {
                match sp_arrow_items(s, j + 1) {
                    None => None,
                    Some((l, k)) => Some((seq![b] + l, k)),
                }
            } else {
                None
            }
        },
    }
}

/// Parses a projectile list.
pub open spec fn sp_arrow_list(s: Seq<char>, i: int) -> Option<(Seq<ArrowV>, int)> {
    if 0 <= i < s.len() && s[i] == '[' {
        if i + 1 < s.len() && s[i + 1] == ']' {
            Some((Seq::<ArrowV>::empty(), i + 2))
        } else {
            sp_arrow_items(s, i + 1)
        }
    } else {
        None
    }
}

/// Canonical text of the members of a non-empty run list.
pub open spec fn enc_measure_items(l: Seq<MeasureV>) -> Seq<char>
    decreases l.len(),
{
    if l.len() <= 1 {
        if l.len() == 0 {
            Seq::<char>::empty()
        } else {
            enc_measure(l[0])
        }
    } else {
        enc_measure(l[0]) + ","@ + enc_measure_items(l.drop_first())
    }
}

/// Canonical text of a run list.
pub open spec fn enc_measure_list(l: Seq<MeasureV>) -> Seq<char> {
    "["@ + enc_measure_items(l) + "]"@
}

/// Parses the members of a non-empty run list up to and including the closing
/// bracket.
pub open spec fn sp_measure_items(s: Seq<char>, i: int) -> Option<(Seq<MeasureV>, int)>
    decreases s.len() - i,
{
    match sp_measure(s, i) {
        None => None,
        Some((b, j)) => {
            if j < s.len() && s[j] == ']' {
                Some((seq![b], j + 1))
            } else if j < s.len() && s[j] == ',' && i <= j {
                match sp_measure_items(s, j + 1) {
                    None => None,
                    Some((l, k)) => Some((seq![b] + l, k)),
                }
            } else {
                None
            }
        },
    }
}

/// Parses a run list.
pub open spec fn sp_measure_list(s: Seq<char>, i: int) -> Option<(Seq<MeasureV>, int)> {
    if 0 <= i < s.len() && s[i] == '[' {
        if i + 1 < s.len() && s[i + 1] == ']' {
            Some((Seq::<MeasureV>::empty(), i + 2))
        } else {
            sp_measure_items(s, i + 1)
        }
    } else {
        None
    }
}

/// Canonical text of the members of a non-empty sample-point list.
pub open spec fn enc_point_items(l: Seq<MeasurePointV>) -> Seq<char>
    decreases l.len(),
{
    if l.len() <= 1 {
        if l.len() == 0 {
            Seq::<char>::empty()
        } else {
            enc_point(l[0])
        }
    } else {
        enc_point(l[0]) + ","@ + enc_point_items(l.drop_first())
    }
}

/// Canonical text of a sample-point list.
pub open spec fn enc_point_list(l: Seq<MeasurePointV>) -> Seq<char> {
    "["@ + enc_point_items(l) + "]"@
}

/// Parses the members of a non-empty sample-point list up to and including
/// the closing bracket.
pub open spec fn sp_point_items(s: Seq<char>, i: int) -> Option<(Seq<MeasurePointV>, int)>
    decreases s.len() - i,
{
    match sp_point(s, i) {
        None => None,
        Some((b, j)) => {
            if j < s.len() && s[j] == ']' {
                Some((seq![b], j + 1))
            } else if j < s.len() && s[j] == ',' && i <= j {
                match sp_point_items(s, j + 1) {
                    None => None,
                    Some((l, k)) => Some((seq![b] + l, k)),
                }
            } else {
                None
            }
        },
    }
}

/// Parses a sample-point list.
pub open spec fn sp_point_list(s: Seq<char>, i: int) -> Option<(Seq<MeasurePointV>, int)> {
    if 0 <= i < s.len() && s[i] == '[' {
        if i + 1 < s.len() && s[i + 1] == ']' {
            Some((Seq::<MeasurePointV>::empty(), i + 2))
        } else {
            sp_point_items(s, i + 1)
        }
    } else {
        None
    }
}

// ------------------------------------------------------------------
// machine status and commands
// ------------------------------------------------------------------
/// Canonical text of a machine status.
pub open spec fn enc_status(st: MachineStatus) -> Seq<char> {
    match st {
        MachineStatus::Pause => "\"pause\""@,
        MachineStatus::Shooting => "\"shooting\""@,
        MachineStatus::Error => "\"error\""@,
    }
}

/// Parses a machine status.
pub open spec fn sp_status(s: Seq<char>, i: int) -> Option<(MachineStatus, int)> {
    match sp_string(s, i) {
        None => None,
        Some((w, j)) => {
            if w == "pause"@ {
                Some((MachineStatus::Pause, j))
            } else if w == "shooting"@ {
                Some((MachineStatus::Shooting, j))
            } else if w == "error"@ {
                Some((MachineStatus::Error, j))
            } else {
                None
            }
        },
    }
}

/// Canonical text of a machine command.
pub open spec fn enc_command(c: MachineCommand) -> Seq<char> {
    match c {
        MachineCommand::Calibrate => "\"calibrate\""@,
        MachineCommand::Reset => "\"reset\""@,
        MachineCommand::Restart => "\"restart\""@,
        MachineCommand::Shutdown => "\"shutdown\""@,
    }
}

/// Parses a machine command.
pub open spec fn sp_command(s: Seq<char>, i: int) -> Option<(MachineCommand, int)> {
    match sp_string(s, i) {
        None => None,
        Some((w, j)) => {
            if w == "calibrate"@ {
                Some((MachineCommand::Calibrate, j))
            } else if w == "reset"@ {
                Some((MachineCommand::Reset, j))
            } else if w == "restart"@ {
                Some((MachineCommand::Restart, j))
            } else if w == "shutdown"@ {
                Some((MachineCommand::Shutdown, j))
            } else {
                None
            }
        },
    }
}

// ------------------------------------------------------------------
// request payloads
// ------------------------------------------------------------------
/// Canonical text of a request payload.
pub open spec fn enc_request(r: WSRequestV) -> Seq<char> {
    match r {
        WSRequestV::ListBows => "{"@ + enc_string("listbows"@) + ":{}}"@,
        WSRequestV::ListMeasureSeries { bow_id } => "{"@ + enc_string("listmeasureseries"@)
            + ":{\"bow_id\":"@ + enc_int(bow_id) + "}}"@,
        WSRequestV::ListArrows { bow_id } => "{"@ + enc_string("listarrows"@) + ":{\"bow_id\":"@
            + enc_int(bow_id) + "}}"@,
        WSRequestV::ListMeasures { series_id } => "{"@ + enc_string("listmeasures"@)
            + ":{\"series_id\":"@ + enc_int(series_id) + "}}"@,
        WSRequestV::ListMeasurePoints { measure_id } => "{"@ + enc_string("listmeasurepoints"@)
            + ":{\"measure_id\":"@ + enc_int(measure_id) + "}}"@,
        WSRequestV::AddBow(b) => "{"@ + enc_string("addbow"@) + ":"@ + enc_bow(b) + "}"@,
        WSRequestV::AddArrow(a) => "{"@ + enc_string("addarrow"@) + ":"@ + enc_arrow(a) + "}"@,
        WSRequestV::NewMeasureSeries(v) => "{"@ + enc_string("newmeasureseries"@) + ":"@
            + enc_series(v) + "}"@,
        WSRequestV::StartMeasure(m) => "{"@ + enc_string("startmeasure"@) + ":"@ + enc_measure(m)
            + "}"@,
        WSRequestV::Command(c) => "{"@ + enc_string("command"@) + ":"@ + enc_command(c) + "}"@,
    }
}

/// Parses a request payload after its tag has been read.
pub open spec fn sp_request_body(s: Seq<char>, i: int, key: Seq<char>) -> Option<
    (WSRequestV, int),
> {
    if key == "listbows"@ {
        match sp_lit(s, i, "{}}"@) {
            None => None,
            Some(j) => Some((WSRequestV::ListBows, j)),
        }
    } else if key == "listmeasureseries"@ {
        match sp_lit(s, i, "{\"bow_id\":"@) {
            None => None,
            Some(i1) => match sp_int(s, i1, ID_LIMIT as int) {
                None => None,
                Some((v, i2)) => match sp_lit(s, i2, "}}"@) {
                    None => None,
                    Some(j) => Some((WSRequestV::ListMeasureSeries { bow_id: v }, j)),
                },
            },
        }
    } else if key == "listarrows"@ {
        match sp_lit(s, i, "{\"bow_id\":"@) {
            None => None,
            Some(i1) => match sp_int(s, i1, ID_LIMIT as int) {
                None => None,
                Some((v, i2)) => match sp_lit(s, i2, "}}"@) {
                    None => None,
                    Some(j) => Some((WSRequestV::ListArrows { bow_id: v }, j)),
                },
            },
        }
    } else if key == "listmeasures"@ {
        match sp_lit(s, i, "{\"series_id\":"@) {
            None => None,
            Some(i1) => match sp_int(s, i1, ID_LIMIT as int) {
                None => None,
                Some((v, i2)) => match sp_lit(s, i2, "}}"@) {
                    None => None,
                    Some(j) => Some((WSRequestV::ListMeasures { series_id: v }, j)),
                },
            },
        }
    } else if key == "listmeasurepoints"@ {
        match sp_lit(s, i, "{\"measure_id\":"@) {
            None => None,
            Some(i1) => match sp_int(s, i1, ID_LIMIT as int) {
                None => None,
                Some((v, i2)) => match sp_lit(s, i2, "}}"@) {
                    None => None,
                    Some(j) => Some((WSRequestV::ListMeasurePoints { measure_id: v }, j)),
                },
            },
        }
    } else if key == "addbow"@ {
        match sp_bow(s, i) {
            None => None,
            Some((b, i1)) => match sp_lit(s, i1, "}"@) {
                None => None,
                Some(j) => Some((WSRequestV::AddBow(b), j)),
            },
        }
    } else if key == "addarrow"@ {
        match sp_arrow(s, i) {
            None => None,
            Some((a, i1)) => match sp_lit(s, i1, "}"@) {
                None => None,
                Some(j) => Some((WSRequestV::AddArrow(a), j)),
            },
        }
    } else if key == "newmeasureseries"@ {
        match sp_series(s, i) {
            None => None,
            Some((v, i1)) => match sp_lit(s, i1, "}"@) {
                None => None,
                Some(j) => Some((WSRequestV::NewMeasureSeries(v), j)),
            },
        }
    } else if key == "startmeasure"@ {
        match sp_measure(s, i) {
            None => None,
            Some((m, i1)) => match sp_lit(s, i1, "}"@) {
                None => None,
                Some(j) => Some((WSRequestV::StartMeasure(m), j)),
            },
        }
    } else if key == "command"@ {
        match sp_command(s, i) {
            None => None,
            Some((c, i1)) => match sp_lit(s, i1, "}"@) {
                None => None,
                Some(j) => Some((WSRequestV::Command(c), j)),
            },
        }
    } else {
        None
    }
}

/// Parses a request payload.
pub open spec fn sp_request(s: Seq<char>, i: int) -> Option<(WSRequestV, int)> {
    match sp_lit(s, i, "{"@) {
        None => None,
        Some(i1) => match sp_string(s, i1) {
            None => None,
            Some((key, i2)) => match sp_lit(s, i2, ":"@) {
                None => None,
                Some(i3) => sp_request_body(s, i3, key),
            },
        },
    }
}

// ------------------------------------------------------------------
// update payloads
// ------------------------------------------------------------------
/// Canonical text of an update payload.
pub open spec fn enc_update(u: WSUpdateV) -> Seq<char> {
    match u {
        WSUpdateV::Alive => "{"@ + enc_string("alive"@) + ":{}}"@,
        WSUpdateV::BowList(l) => "{"@ + enc_string("bowlist"@) + ":"@ + enc_bow_list(l) + "}"@,
        WSUpdateV::MeasureSeriesList(l) => "{"@ + enc_string("measureserieslist"@) + ":"@
            + enc_series_list(l) + "}"@,
        WSUpdateV::ArrowList(l) => "{"@ + enc_string("arrowlist"@) + ":"@ + enc_arrow_list(l)
            + "}"@,
        WSUpdateV::MeasureList(l) => "{"@ + enc_string("measurelist"@) + ":"@ + enc_measure_list(l)
            + "}"@,
        WSUpdateV::MeasurePointList(l) => "{"@ + enc_string("measurepointlist"@) + ":"@
            + enc_point_list(l) + "}"@,
        WSUpdateV::Status(st) => "{"@ + enc_string("status"@) + ":"@ + enc_status(st) + "}"@,
        WSUpdateV::Error(m) => "{"@ + enc_string("error"@) + ":"@ + enc_string(m) + "}"@,
    }
}

/// Parses an update payload after its tag has been read.
pub open spec fn sp_update_body(s: Seq<char>, i: int, key: Seq<char>) -> Option<(WSUpdateV, int)> {
    if key == "alive"@ {
        match sp_lit(s, i, "{}}"@) {
            None => None,
            Some(j) => Some((WSUpdateV::Alive, j)),
        }
    } else if key == "bowlist"@ {
        match sp_bow_list(s, i) {
            None => None,
            Some((l, i1)) => match sp_lit(s, i1, "}"@) {
                None => None,
                Some(j) => Some((WSUpdateV::BowList(l), j)),
            },
        }
    } else if key == "measureserieslist"@ {
        match sp_series_list(s, i) {
            None => None,
            Some((l, i1)) => match sp_lit(s, i1, "}"@) {
                None => None,
                Some(j) => Some((WSUpdateV::MeasureSeriesList(l), j)),
            },
        }
    } else if key == "arrowlist"@ {
        match sp_arrow_list(s, i) {
            None => None,
            Some((l, i1)) => match sp_lit(s, i1, "}"@) {
                None => None,
                Some(j) => Some((WSUpdateV::ArrowList(l), j)),
            },
        }
    } else if key == "measurelist"@ {
        match sp_measure_list(s, i) {
            None => None,
            Some((l, i1)) => match sp_lit(s, i1, "}"@) {
                None => None,
                Some(j) => Some((WSUpdateV::MeasureList(l), j)),
            },
        }
    } else if key == "measurepointlist"@ {
        match sp_point_list(s, i) {
            None => None,
            Some((l, i1)) => match sp_lit(s, i1, "}"@) {
                None => None,
                Some(j) => Some((WSUpdateV::MeasurePointList(l), j)),
            },
        }
    } else if key == "status"@ {
        match sp_status(s, i) {
            None => None,
            Some((st, i1)) => match sp_lit(s, i1, "}"@) {
                None => None,
                Some(j) => Some((WSUpdateV::Status(st), j)),
            },
        }
    } else if key == "error"@ {
        match sp_string(s, i) {
            None => None,
            Some((m, i1)) => match sp_lit(s, i1, "}"@) {
                None => None,
                Some(j) => Some((WSUpdateV::Error(m), j)),
            },
        }
    } else {
        None
    }
}

/// Parses an update payload.
pub open spec fn sp_update(s: Seq<char>, i: int) -> Option<(WSUpdateV, int)> {
    match sp_lit(s, i, "{"@) {
        None => None,
        Some(i1) => match sp_string(s, i1) {
            None => None,
            Some((key, i2)) => match sp_lit(s, i2, ":"@) {
                None => None,
                Some(i3) => sp_update_body(s, i3, key),
            },
        },
    }
}

// ------------------------------------------------------------------
// the envelope
// ------------------------------------------------------------------
/// Canonical text of the wire envelope.
pub open spec fn enc_message(m: WSMessageV) -> Seq<char> {
    match m {
        WSMessageV::Request(r) => "{"@ + enc_string("request"@) + ":"@ + enc_request(r) + "}"@,
        WSMessageV::Update(u) => "{"@ + enc_string("update"@) + ":"@ + enc_update(u) + "}"@,
        WSMessageV::Response(u) => "{"@ + enc_string("response"@) + ":"@ + enc_update(u) + "}"@,
    }
}

/// Parses the wire envelope.
pub open spec fn sp_message(s: Seq<char>, i: int) -> Option<(WSMessageV, int)> {
    match sp_lit(s, i, "{"@) {
        None => None,
        Some(i1) => match sp_string(s, i1) {
            None => None,
            Some((key, i2)) => match sp_lit(s, i2, ":"@) {
                None => None,
                Some(i3) => {
                    if key == "request"@ {
                        match sp_request(s, i3) {
                            None => None,
                            Some((r, i4)) => match sp_lit(s, i4, "}"@) {
                                None => None,
                                Some(j) => Some((WSMessageV::Request(r), j)),
                            },
                        }
                    } else if key == "update"@ {
                        match sp_update(s, i3) {
                            None => None,
                            Some((u, i4)) => match sp_lit(s, i4, "}"@) {
                                None => None,
                                Some(j) => Some((WSMessageV::Update(u), j)),
                            },
                        }
                    } else if key == "response"@ {
                        match sp_update(s, i3) {
                            None => None,
                            Some((u, i4)) => match sp_lit(s, i4, "}"@) {
                                None => None,
                                Some(j) => Some((WSMessageV::Response(u), j)),
                            },
                        }
                    } else {
                        None
                    }
                },
            },
        },
    }
}

/// Meaning of one whole text frame: the envelope it decodes to, if any.
pub open spec fn sp_decode(s: Seq<char>) -> Option<WSMessageV> {
    match sp_message(s, 0) {
        None => None,
        Some((m, j)) => {
            if j == s.len() {
                Some(m)
            } else {
                None
            }
        },
    }
}

} // verus!
