//! The round-trip law: parsing the canonical text of a value gives the value
//! back, position by position, from digits up to the whole envelope.

use crate::message::MachineCommand;
use crate::message::WSMessageV;
use crate::message::WSRequestV;
use crate::message::WSUpdateV;
use crate::models::MachineStatus;
use crate::wire::enc_command;
use crate::wire::enc_message;
use crate::wire::enc_request;
use crate::wire::enc_status;
use crate::wire::enc_update;
use crate::wire::sp_command;
use crate::wire::sp_decode;
use crate::wire::sp_message;
use crate::wire::sp_request;
use crate::wire::sp_status;
use crate::wire::sp_update;
use crate::message::arrows_wf;
use crate::message::bows_wf;
use crate::message::measures_wf;
use crate::message::points_wf;
use crate::message::series_list_wf;
use crate::wire::enc_arrow_items;
use crate::wire::enc_arrow_list;
use crate::wire::enc_bow_items;
use crate::wire::enc_bow_list;
use crate::wire::enc_measure_items;
use crate::wire::enc_measure_list;
use crate::wire::enc_point_items;
use crate::wire::enc_point_list;
use crate::wire::enc_series_items;
use crate::wire::enc_series_list;
use crate::wire::sp_arrow_items;
use crate::wire::sp_arrow_list;
use crate::wire::sp_bow_items;
use crate::wire::sp_bow_list;
use crate::wire::sp_measure_items;
use crate::wire::sp_measure_list;
use crate::wire::sp_point_items;
use crate::wire::sp_point_list;
use crate::wire::sp_series_items;
use crate::wire::sp_series_list;
use crate::models::ArrowV;
use crate::models::BowV;
use crate::models::MeasurePointV;
use crate::models::MeasureSeriesV;
use crate::models::MeasureV;
use crate::models::ID_LIMIT;
use crate::models::INT_LIMIT;
use crate::wire::enc_arrow;
use crate::wire::enc_bow;
use crate::wire::enc_measure;
use crate::wire::enc_point;
use crate::wire::enc_series;
use crate::wire::sp_arrow;
use crate::wire::sp_bow;
use crate::wire::sp_measure;
use crate::wire::sp_point;
use crate::wire::sp_series;
use crate::models::text_char_ok;
use crate::models::text_ok;
use crate::models::MILLI_LIMIT;
use crate::wire::dec_digits;
use crate::wire::digit_char;
use crate::wire::digit_of;
use crate::wire::digits_val;
use crate::wire::enc_int;
use crate::wire::enc_milli;
use crate::wire::enc_opt_milli;
use crate::wire::enc_opt_string;
use crate::wire::enc_string;
use crate::wire::has_seq_at;
use crate::wire::is_digit;
use crate::wire::pad3;
use crate::wire::scan_digits;
use crate::wire::scan_text;
use crate::wire::sp_int;
use crate::wire::sp_lit;
use crate::wire::sp_milli;
use crate::wire::sp_opt_milli;
use crate::wire::sp_opt_string;
use crate::wire::sp_string;
use crate::wire::sp_uint;
use vstd::arithmetic::div_mod::lemma_div_denominator;
use vstd::arithmetic::div_mod::lemma_div_is_ordered;
use vstd::arithmetic::div_mod::lemma_fundamental_div_mod;
use vstd::arithmetic::div_mod::lemma_mod_bound;
use vstd::prelude::*;

verus! {

// ------------------------------------------------------------------
// runs inside a longer text
// ------------------------------------------------------------------
/// A run placed at a concatenation splits into its two parts.
proof fn l_has_split(s: Seq<char>, i: int, a: Seq<char>, b: Seq<char>)
    requires
        has_seq_at(s, i, a + b),
    ensures
        has_seq_at(s, i, a),
        has_seq_at(s, i + a.len(), b),
{
    assert forall|k: int| 0 <= k < a.len() implies s.subrange(i, i + a.len() as int)[k]
        == a[k] by {
        assert(s.subrange(i, i + (a + b).len() as int)[k] == (a + b)[k]);
    }
    assert(s.subrange(i, i + a.len() as int) =~= a);
    assert forall|k: int| 0 <= k < b.len() implies s.subrange(
        i + a.len(),
        i + a.len() + b.len() as int,
    )[k] == b[k] by {
        assert(s.subrange(i, i + (a + b).len() as int)[a.len() + k] == (a + b)[a.len() + k]);
    }
    assert(s.subrange(i + a.len(), i + a.len() + b.len() as int) =~= b);
}

/// A character of a placed run stands at its offset in the longer text.
proof fn l_has_char(s: Seq<char>, i: int, t: Seq<char>, k: int)
    requires
        has_seq_at(s, i, t),
        0 <= k < t.len(),
    ensures
        s[i + k] == t[k],
{
    assert(s.subrange(i, i + t.len() as int)[k] == t[k]);
}

// ------------------------------------------------------------------
// digits
// ------------------------------------------------------------------
/// The decimal digit of a value reads back as that value.
proof fn l_digit_char(d: int)
    requires
        0 <= d <= 9,
    ensures
        is_digit(digit_char(d)),
        digit_of(digit_char(d)) == d,
{
}

/// A decimal numeral is never empty and holds digits only.
proof fn l_dec_digits_all(n: nat)
    ensures
        dec_digits(n).len() >= 1,
        forall|k: int| 0 <= k < dec_digits(n).len() ==> is_digit(#[trigger] dec_digits(n)[k]),
    decreases n,
{
    if n < 10 {
        l_digit_char(n as int);
    } else {
        l_dec_digits_all(n / 10);
        l_digit_char((n % 10) as int);
        assert forall|k: int| 0 <= k < dec_digits(n).len() implies is_digit(
            #[trigger] dec_digits(n)[k],
        ) by {
            if k < dec_digits(n / 10).len() {
                assert(dec_digits(n)[k] == dec_digits(n / 10)[k]);
            } else {
                assert(dec_digits(n)[k] == digit_char((n % 10) as int));
            }
        }
    }
}

/// The digit scan stops exactly at the first non-digit.
proof fn l_scan_digits_stop(s: Seq<char>, i: int, j: int)
    requires
        0 <= i <= j <= s.len(),
        forall|k: int| i <= k < j ==> is_digit(#[trigger] s[k]),
        j == s.len() || !is_digit(s[j]),
    ensures
        scan_digits(s, i) == j,
    decreases j - i,
{
    if i < j {
        assert(is_digit(s[i]));
        assert forall|k: int| i + 1 <= k < j implies is_digit(#[trigger] s[k]) by {
            assert(i <= k < j);
        }
        l_scan_digits_stop(s, i + 1, j);
    }
}

/// The text scan stops exactly at the first character that may not stand in a
/// text field.
proof fn l_scan_text_stop(s: Seq<char>, i: int, j: int)
    requires
        0 <= i <= j <= s.len(),
        forall|k: int| i <= k < j ==> text_char_ok(#[trigger] s[k]),
        j == s.len() || !text_char_ok(s[j]),
    ensures
        scan_text(s, i) == j,
    decreases j - i,
{
    if i < j {
        assert(text_char_ok(s[i]));
        assert forall|k: int| i + 1 <= k < j implies text_char_ok(#[trigger] s[k]) by {
            assert(i <= k < j);
        }
        l_scan_text_stop(s, i + 1, j);
    }
}

/// A placed decimal numeral reads back as its value.
proof fn l_digits_val_enc(s: Seq<char>, i: int, n: nat)
    requires
        has_seq_at(s, i, dec_digits(n)),
    ensures
        digits_val(s, i, i + dec_digits(n).len()) == n,
    decreases n,
{
    let d = dec_digits(n);
    if n < 10 {
        l_has_char(s, i, d, 0);
        l_digit_char(n as int);
        assert(digits_val(s, i, i) == 0);
        assert(digits_val(s, i, i + 1) == digit_of(s[i]));
    } else {
        let front = dec_digits(n / 10);
        let last = seq![digit_char((n % 10) as int)];
        assert(d =~= front + last);
        l_has_split(s, i, front, last);
        l_digits_val_enc(s, i, n / 10);
        l_has_char(s, i + front.len(), last, 0);
        l_digit_char((n % 10) as int);
        lemma_fundamental_div_mod(n as int, 10);
        assert(digits_val(s, i, i + d.len()) == digits_val(s, i, i + d.len() - 1) * 10 + digit_of(
            s[i + d.len() - 1],
        ));
    }
}

/// A placed unsigned numeral parses to its value.
proof fn l_sp_uint_enc(s: Seq<char>, i: int, n: nat, limit: int)
    requires
        has_seq_at(s, i, dec_digits(n)),
        n <= limit,
        i + dec_digits(n).len() == s.len() || !is_digit(s[i + dec_digits(n).len()]),
    ensures
        sp_uint(s, i, limit) == Some((n as int, i + dec_digits(n).len())),
{
    let e = i + dec_digits(n).len();
    l_dec_digits_all(n);
    assert forall|k: int| i <= k < e implies is_digit(#[trigger] s[k]) by {
        l_has_char(s, i, dec_digits(n), k - i);
        assert(is_digit(dec_digits(n)[k - i]));
    }
    l_scan_digits_stop(s, i, e);
    l_digits_val_enc(s, i, n);
}

/// A placed signed numeral parses to its value.
proof fn l_sp_int_enc(s: Seq<char>, i: int, v: int, limit: int)
    requires
        has_seq_at(s, i, enc_int(v)),
        -limit <= v <= limit,
        i + enc_int(v).len() == s.len() || !is_digit(s[i + enc_int(v).len()]),
    ensures
        sp_int(s, i, limit) == Some((v, i + enc_int(v).len())),
{
    reveal_strlit("-");
    if v < 0 {
        assert("-"@ =~= seq!['-']);
        l_has_split(s, i, "-"@, dec_digits((-v) as nat));
        l_has_char(s, i, "-"@, 0);
        assert(s[i] == '-');
        l_sp_uint_enc(s, i + 1, (-v) as nat, limit);
    } else {
        l_dec_digits_all(v as nat);
        l_has_char(s, i, dec_digits(v as nat), 0);
        assert(is_digit(s[i]));
        assert(s[i] != '-');
        l_sp_uint_enc(s, i, v as nat, limit);
    }
}

/// A placed three-digit fraction reads back as its value.
proof fn l_pad3_enc(s: Seq<char>, a: int, f: int)
    requires
        has_seq_at(s, a, pad3(f)),
        0 <= f < 1000,
    ensures
        digits_val(s, a, a + 3) == f,
        forall|k: int| a <= k < a + 3 ==> is_digit(#[trigger] s[k]),
{
    lemma_fundamental_div_mod(f, 10);
    lemma_fundamental_div_mod(f / 10, 10);
    lemma_div_denominator(f, 10, 10);
    lemma_mod_bound(f, 10);
    lemma_mod_bound(f / 10, 10);
    l_has_char(s, a, pad3(f), 0);
    l_has_char(s, a, pad3(f), 1);
    l_has_char(s, a, pad3(f), 2);
    l_digit_char(f / 100);
    l_digit_char((f / 10) % 10);
    l_digit_char(f % 10);
    assert(digits_val(s, a, a) == 0);
    assert(digits_val(s, a, a + 1) == digit_of(s[a]));
    assert(digits_val(s, a, a + 2) == digit_of(s[a]) * 10 + digit_of(s[a + 1]));
    assert(digits_val(s, a, a + 3) == (digit_of(s[a]) * 10 + digit_of(s[a + 1])) * 10 + digit_of(
        s[a + 2],
    ));
    assert forall|k: int| a <= k < a + 3 implies is_digit(#[trigger] s[k]) by {
        if k == a {
            assert(s[k] == digit_char(f / 100));
        } else if k == a + 1 {
            assert(s[k] == digit_char((f / 10) % 10));
        } else {
            assert(s[k] == digit_char(f % 10));
        }
    }
}

/// A placed fixed-point numeral parses to its value.
#[verifier::rlimit(100)]
proof fn l_sp_milli_enc(s: Seq<char>, i: int, v: int)
    requires
        has_seq_at(s, i, enc_milli(v)),
        -MILLI_LIMIT <= v <= MILLI_LIMIT,
        i + enc_milli(v).len() == s.len() || !is_digit(s[i + enc_milli(v).len()]),
    ensures
        sp_milli(s, i) == Some((v, i + enc_milli(v).len())),
{
    reveal_strlit("-");
    reveal_strlit(".");
    assert("-"@ =~= seq!['-']);
    assert("."@ =~= seq!['.']);
    let m = if v < 0 {
        -v
    } else {
        v
    };
    let q = m / 1000;
    let f = m % 1000;
    lemma_fundamental_div_mod(m, 1000);
    lemma_mod_bound(m, 1000);
    lemma_div_is_ordered(m, MILLI_LIMIT as int, 1000);
    let sign: Seq<char> = if v < 0 {
        "-"@
    } else {
        Seq::<char>::empty()
    };
    let qd = dec_digits(q as nat);
    assert(enc_milli(v) =~= sign + (qd + ("."@ + pad3(f))));
    l_has_split(s, i, sign, qd + ("."@ + pad3(f)));
    let i1 = i + sign.len();
    l_has_split(s, i1, qd, "."@ + pad3(f));
    let j = i1 + qd.len();
    l_has_split(s, j, "."@, pad3(f));
    let a = j + 1;
    l_has_char(s, j, "."@, 0);
    assert(s[j] == '.');
    l_dec_digits_all(q as nat);
    if v < 0 {
        l_has_char(s, i, "-"@, 0);
        assert(s[i] == '-');
    } else {
        l_has_char(s, i1, qd, 0);
        assert(is_digit(s[i]));
        assert(s[i] != '-');
    }
    l_sp_uint_enc(s, i1, q as nat, MILLI_LIMIT as int / 1000);
    l_pad3_enc(s, a, f);
    assert forall|k: int| a <= k < a + 3 implies is_digit(#[trigger] s[k]) by {
        l_pad3_enc(s, a, f);
    }
    l_scan_digits_stop(s, a, a + 3);
    assert(scan_digits(s, j + 1) == j + 4);
    assert(digits_val(s, j + 1, j + 4) == f);
    assert(q * 1000 + f == m);
}

// ------------------------------------------------------------------
// texts
// ------------------------------------------------------------------
/// A placed quoted text parses to its contents.
proof fn l_sp_string_enc(s: Seq<char>, i: int, t: Seq<char>)
    requires
        has_seq_at(s, i, enc_string(t)),
        text_ok(t),
    ensures
        sp_string(s, i) == Some((t, i + t.len() + 2)),
        enc_string(t).len() == t.len() + 2,
{
    reveal_strlit("\"");
    assert("\""@ =~= seq!['"']);
    assert(enc_string(t) =~= "\""@ + (t + "\""@));
    l_has_split(s, i, "\""@, t + "\""@);
    l_has_split(s, i + 1, t, "\""@);
    l_has_char(s, i, "\""@, 0);
    assert(s[i] == '"');
    l_has_char(s, i + 1 + t.len(), "\""@, 0);
    assert(s[i + 1 + t.len()] == '"');
    assert forall|k: int| i + 1 <= k < i + 1 + t.len() implies text_char_ok(#[trigger] s[k]) by {
        l_has_char(s, i + 1, t, k - (i + 1));
        assert(s[k] == t[k - (i + 1)]);
    }
    l_scan_text_stop(s, i + 1, i + 1 + t.len());
    assert(s.subrange(i + 1, i + 1 + t.len()) =~= t);
}

// ------------------------------------------------------------------
// optional fields
// ------------------------------------------------------------------
/// A placed optional fixed-point numeral parses to its value.
proof fn l_sp_opt_milli_enc(s: Seq<char>, i: int, v: Option<int>)
    requires
        has_seq_at(s, i, enc_opt_milli(v)),
        match v {
            Some(m) => -MILLI_LIMIT <= m <= MILLI_LIMIT,
            None => true,
        },
        i + enc_opt_milli(v).len() == s.len() || !is_digit(s[i + enc_opt_milli(v).len()]),
    ensures
        sp_opt_milli(s, i) == Some((v, i + enc_opt_milli(v).len())),
{
    reveal_strlit("null");
    match v {
        None => {
            l_has_char(s, i, "null"@, 0);
            assert(s[i] == 'n');
        },
        Some(m) => {
            reveal_strlit("-");
            assert("-"@ =~= seq!['-']);
            if m < 0 {
                l_has_char(s, i, enc_milli(m), 0);
                assert(enc_milli(m)[0] == '-');
                assert(s[i] != 'n');
            } else {
                l_dec_digits_all((if m < 0 {
                    -m
                } else {
                    m
                } / 1000) as nat);
                l_has_char(s, i, enc_milli(m), 0);
                assert(is_digit(s[i]));
                assert(s[i] != 'n');
            }
            l_sp_milli_enc(s, i, m);
        },
    }
}

/// A placed optional quoted text parses to its contents.
proof fn l_sp_opt_string_enc(s: Seq<char>, i: int, t: Option<Seq<char>>)
    requires
        has_seq_at(s, i, enc_opt_string(t)),
        match t {
            Some(u) => text_ok(u),
            None => true,
        },
    ensures
        sp_opt_string(s, i) == Some((t, i + enc_opt_string(t).len())),
{
    reveal_strlit("null");
    match t {
        None => {
            l_has_char(s, i, "null"@, 0);
            assert(s[i] == 'n');
        },
        Some(u) => {
            reveal_strlit("\"");
            assert("\""@ =~= seq!['"']);
            l_has_char(s, i, enc_string(u), 0);
            assert(enc_string(u)[0] == '"');
            assert(s[i] != 'n');
            l_sp_string_enc(s, i, u);
        },
    }
}

/// A placed record parses back to itself.
#[verifier::rlimit(100)]
proof fn l_sp_bow_enc(s: Seq<char>, i: int, b: BowV)
    requires
        has_seq_at(s, i, enc_bow(b)),
        b.wf(),
    ensures
        sp_bow(s, i) == Some((b, i + enc_bow(b).len())),
{
    reveal_strlit(",\"max_draw_distance\":");
    reveal_strlit(",\"name\":");
    reveal_strlit(",\"remainder_arrow_length\":");
    reveal_strlit("{\"id\":");
    reveal_strlit("}");
    let o0 = i;
    let o1 = o0 + "{\"id\":"@.len();
    let o2 = o1 + enc_int(b.id).len();
    let o3 = o2 + ",\"name\":"@.len();
    let o4 = o3 + enc_string(b.name).len();
    let o5 = o4 + ",\"max_draw_distance\":"@.len();
    let o6 = o5 + enc_milli(b.max_draw_distance).len();
    let o7 = o6 + ",\"remainder_arrow_length\":"@.len();
    let o8 = o7 + enc_milli(b.remainder_arrow_length).len();
    l_has_split(s, i, "{\"id\":"@ + enc_int(b.id) + ",\"name\":"@ + enc_string(b.name) + ",\"max_draw_distance\":"@ + enc_milli(b.max_draw_distance) + ",\"remainder_arrow_length\":"@ + enc_milli(b.remainder_arrow_length), "}"@);
    l_has_split(s, i, "{\"id\":"@ + enc_int(b.id) + ",\"name\":"@ + enc_string(b.name) + ",\"max_draw_distance\":"@ + enc_milli(b.max_draw_distance) + ",\"remainder_arrow_length\":"@, enc_milli(b.remainder_arrow_length));
    l_has_split(s, i, "{\"id\":"@ + enc_int(b.id) + ",\"name\":"@ + enc_string(b.name) + ",\"max_draw_distance\":"@ + enc_milli(b.max_draw_distance), ",\"remainder_arrow_length\":"@);
    l_has_split(s, i, "{\"id\":"@ + enc_int(b.id) + ",\"name\":"@ + enc_string(b.name) + ",\"max_draw_distance\":"@, enc_milli(b.max_draw_distance));
    l_has_split(s, i, "{\"id\":"@ + enc_int(b.id) + ",\"name\":"@ + enc_string(b.name), ",\"max_draw_distance\":"@);
    l_has_split(s, i, "{\"id\":"@ + enc_int(b.id) + ",\"name\":"@, enc_string(b.name));
    l_has_split(s, i, "{\"id\":"@ + enc_int(b.id), ",\"name\":"@);
    l_has_split(s, i, "{\"id\":"@, enc_int(b.id));
    l_has_char(s, o2, ",\"name\":"@, 0);
    assert(!is_digit(s[o2]));
    l_sp_int_enc(s, o1, b.id, ID_LIMIT as int);
    l_sp_string_enc(s, o3, b.name);
    l_has_char(s, o6, ",\"remainder_arrow_length\":"@, 0);
    assert(!is_digit(s[o6]));
    l_sp_milli_enc(s, o5, b.max_draw_distance);
    l_has_char(s, o8, "}"@, 0);
    assert(!is_digit(s[o8]));
    l_sp_milli_enc(s, o7, b.remainder_arrow_length);
}


/// A placed record parses back to itself.
#[verifier::rlimit(100)]
proof fn l_sp_series_enc(s: Seq<char>, i: int, b: MeasureSeriesV)
    requires
        has_seq_at(s, i, enc_series(b)),
        b.wf(),
    ensures
        sp_series(s, i) == Some((b, i + enc_series(b).len())),
{
    reveal_strlit(",\"bow_id\":");
    reveal_strlit(",\"draw_distance\":");
    reveal_strlit(",\"draw_force\":");
    reveal_strlit(",\"name\":");
    reveal_strlit(",\"rest_position\":");
    reveal_strlit(",\"time\":");
    reveal_strlit("{\"id\":");
    reveal_strlit("}");
    let o0 = i;
    let o1 = o0 + "{\"id\":"@.len();
    let o2 = o1 + enc_int(b.id).len();
    let o3 = o2 + ",\"name\":"@.len();
    let o4 = o3 + enc_string(b.name).len();
    let o5 = o4 + ",\"rest_position\":"@.len();
    let o6 = o5 + enc_milli(b.rest_position).len();
    let o7 = o6 + ",\"draw_distance\":"@.len();
    let o8 = o7 + enc_opt_milli(b.draw_distance).len();
    let o9 = o8 + ",\"draw_force\":"@.len();
    let o10 = o9 + enc_opt_milli(b.draw_force).len();
    let o11 = o10 + ",\"time\":"@.len();
    let o12 = o11 + enc_int(b.time).len();
    let o13 = o12 + ",\"bow_id\":"@.len();
    let o14 = o13 + enc_int(b.bow_id).len();
    l_has_split(s, i, "{\"id\":"@ + enc_int(b.id) + ",\"name\":"@ + enc_string(b.name) + ",\"rest_position\":"@ + enc_milli(b.rest_position) + ",\"draw_distance\":"@ + enc_opt_milli(b.draw_distance) + ",\"draw_force\":"@ + enc_opt_milli(b.draw_force) + ",\"time\":"@ + enc_int(b.time) + ",\"bow_id\":"@ + enc_int(b.bow_id), "}"@);
    l_has_split(s, i, "{\"id\":"@ + enc_int(b.id) + ",\"name\":"@ + enc_string(b.name) + ",\"rest_position\":"@ + enc_milli(b.rest_position) + ",\"draw_distance\":"@ + enc_opt_milli(b.draw_distance) + ",\"draw_force\":"@ + enc_opt_milli(b.draw_force) + ",\"time\":"@ + enc_int(b.time) + ",\"bow_id\":"@, enc_int(b.bow_id));
    l_has_split(s, i, "{\"id\":"@ + enc_int(b.id) + ",\"name\":"@ + enc_string(b.name) + ",\"rest_position\":"@ + enc_milli(b.rest_position) + ",\"draw_distance\":"@ + enc_opt_milli(b.draw_distance) + ",\"draw_force\":"@ + enc_opt_milli(b.draw_force) + ",\"time\":"@ + enc_int(b.time), ",\"bow_id\":"@);
    l_has_split(s, i, "{\"id\":"@ + enc_int(b.id) + ",\"name\":"@ + enc_string(b.name) + ",\"rest_position\":"@ + enc_milli(b.rest_position) + ",\"draw_distance\":"@ + enc_opt_milli(b.draw_distance) + ",\"draw_force\":"@ + enc_opt_milli(b.draw_force) + ",\"time\":"@, enc_int(b.time));
    l_has_split(s, i, "{\"id\":"@ + enc_int(b.id) + ",\"name\":"@ + enc_string(b.name) + ",\"rest_position\":"@ + enc_milli(b.rest_position) + ",\"draw_distance\":"@ + enc_opt_milli(b.draw_distance) + ",\"draw_force\":"@ + enc_opt_milli(b.draw_force), ",\"time\":"@);
    l_has_split(s, i, "{\"id\":"@ + enc_int(b.id) + ",\"name\":"@ + enc_string(b.name) + ",\"rest_position\":"@ + enc_milli(b.rest_position) + ",\"draw_distance\":"@ + enc_opt_milli(b.draw_distance) + ",\"draw_force\":"@, enc_opt_milli(b.draw_force));
    l_has_split(s, i, "{\"id\":"@ + enc_int(b.id) + ",\"name\":"@ + enc_string(b.name) + ",\"rest_position\":"@ + enc_milli(b.rest_position) + ",\"draw_distance\":"@ + enc_opt_milli(b.draw_distance), ",\"draw_force\":"@);
    l_has_split(s, i, "{\"id\":"@ + enc_int(b.id) + ",\"name\":"@ + enc_string(b.name) + ",\"rest_position\":"@ + enc_milli(b.rest_position) + ",\"draw_distance\":"@, enc_opt_milli(b.draw_distance));
    l_has_split(s, i, "{\"id\":"@ + enc_int(b.id) + ",\"name\":"@ + enc_string(b.name) + ",\"rest_position\":"@ + enc_milli(b.rest_position), ",\"draw_distance\":"@);
    l_has_split(s, i, "{\"id\":"@ + enc_int(b.id) + ",\"name\":"@ + enc_string(b.name) + ",\"rest_position\":"@, enc_milli(b.rest_position));
    l_has_split(s, i, "{\"id\":"@ + enc_int(b.id) + ",\"name\":"@ + enc_string(b.name), ",\"rest_position\":"@);
    l_has_split(s, i, "{\"id\":"@ + enc_int(b.id) + ",\"name\":"@, enc_string(b.name));
    l_has_split(s, i, "{\"id\":"@ + enc_int(b.id), ",\"name\":"@);
    l_has_split(s, i, "{\"id\":"@, enc_int(b.id));
    l_has_char(s, o2, ",\"name\":"@, 0);
    assert(!is_digit(s[o2]));
    l_sp_int_enc(s, o1, b.id, ID_LIMIT as int);
    l_sp_string_enc(s, o3, b.name);
    l_has_char(s, o6, ",\"draw_distance\":"@, 0);
    assert(!is_digit(s[o6]));
    l_sp_milli_enc(s, o5, b.rest_position);
    l_has_char(s, o8, ",\"draw_force\":"@, 0);
    assert(!is_digit(s[o8]));
    l_sp_opt_milli_enc(s, o7, b.draw_distance);
    l_has_char(s, o10, ",\"time\":"@, 0);
    assert(!is_digit(s[o10]));
    l_sp_opt_milli_enc(s, o9, b.draw_force);
    l_has_char(s, o12, ",\"bow_id\":"@, 0);
    assert(!is_digit(s[o12]));
    l_sp_int_enc(s, o11, b.time, INT_LIMIT as int);
    l_has_char(s, o14, "}"@, 0);
    assert(!is_digit(s[o14]));
    l_sp_int_enc(s, o13, b.bow_id, ID_LIMIT as int);
}


/// A placed record parses back to itself.
#[verifier::rlimit(100)]
proof fn l_sp_arrow_enc(s: Seq<char>, i: int, b: ArrowV)
    requires
        has_seq_at(s, i, enc_arrow(b)),
        b.wf(),
    ensures
        sp_arrow(s, i) == Some((b, i + enc_arrow(b).len())),
{
    reveal_strlit(",\"bow_id\":");
    reveal_strlit(",\"feather_length\":");
    reveal_strlit(",\"feather_type\":");
    reveal_strlit(",\"head_weight\":");
    reveal_strlit(",\"length\":");
    reveal_strlit(",\"name\":");
    reveal_strlit(",\"spline\":");
    reveal_strlit(",\"weight\":");
    reveal_strlit("{\"id\":");
    reveal_strlit("}");
    let o0 = i;
    let o1 = o0 + "{\"id\":"@.len();
    let o2 = o1 + enc_int(b.id).len();
    let o3 = o2 + ",\"name\":"@.len();
    let o4 = o3 + enc_opt_string(b.name).len();
    let o5 = o4 + ",\"head_weight\":"@.len();
    let o6 = o5 + enc_opt_milli(b.head_weight).len();
    let o7 = o6 + ",\"spline\":"@.len();
    let o8 = o7 + enc_opt_milli(b.spline).len();
    let o9 = o8 + ",\"feather_length\":"@.len();
    let o10 = o9 + enc_opt_milli(b.feather_length).len();
    let o11 = o10 + ",\"feather_type\":"@.len();
    let o12 = o11 + enc_opt_string(b.feather_type).len();
    let o13 = o12 + ",\"length\":"@.len();
    let o14 = o13 + enc_milli(b.length).len();
    let o15 = o14 + ",\"weight\":"@.len();
    let o16 = o15 + enc_milli(b.weight).len();
    let o17 = o16 + ",\"bow_id\":"@.len();
    let o18 = o17 + enc_int(b.bow_id).len();
    l_has_split(s, i, "{\"id\":"@ + enc_int(b.id) + ",\"name\":"@ + enc_opt_string(b.name) + ",\"head_weight\":"@ + enc_opt_milli(b.head_weight) + ",\"spline\":"@ + enc_opt_milli(b.spline) + ",\"feather_length\":"@ + enc_opt_milli(b.feather_length) + ",\"feather_type\":"@ + enc_opt_string(b.feather_type) + ",\"length\":"@ + enc_milli(b.length) + ",\"weight\":"@ + enc_milli(b.weight) + ",\"bow_id\":"@ + enc_int(b.bow_id), "}"@);
    l_has_split(s, i, "{\"id\":"@ + enc_int(b.id) + ",\"name\":"@ + enc_opt_string(b.name) + ",\"head_weight\":"@ + enc_opt_milli(b.head_weight) + ",\"spline\":"@ + enc_opt_milli(b.spline) + ",\"feather_length\":"@ + enc_opt_milli(b.feather_length) + ",\"feather_type\":"@ + enc_opt_string(b.feather_type) + ",\"length\":"@ + enc_milli(b.length) + ",\"weight\":"@ + enc_milli(b.weight) + ",\"bow_id\":"@, enc_int(b.bow_id));
    l_has_split(s, i, "{\"id\":"@ + enc_int(b.id) + ",\"name\":"@ + enc_opt_string(b.name) + ",\"head_weight\":"@ + enc_opt_milli(b.head_weight) + ",\"spline\":"@ + enc_opt_milli(b.spline) + ",\"feather_length\":"@ + enc_opt_milli(b.feather_length) + ",\"feather_type\":"@ + enc_opt_string(b.feather_type) + ",\"length\":"@ + enc_milli(b.length) + ",\"weight\":"@ + enc_milli(b.weight), ",\"bow_id\":"@);
    l_has_split(s, i, "{\"id\":"@ + enc_int(b.id) + ",\"name\":"@ + enc_opt_string(b.name) + ",\"head_weight\":"@ + enc_opt_milli(b.head_weight) + ",\"spline\":"@ + enc_opt_milli(b.spline) + ",\"feather_length\":"@ + enc_opt_milli(b.feather_length) + ",\"feather_type\":"@ + enc_opt_string(b.feather_type) + ",\"length\":"@ + enc_milli(b.length) + ",\"weight\":"@, enc_milli(b.weight));
    l_has_split(s, i, "{\"id\":"@ + enc_int(b.id) + ",\"name\":"@ + enc_opt_string(b.name) + ",\"head_weight\":"@ + enc_opt_milli(b.head_weight) + ",\"spline\":"@ + enc_opt_milli(b.spline) + ",\"feather_length\":"@ + enc_opt_milli(b.feather_length) + ",\"feather_type\":"@ + enc_opt_string(b.feather_type) + ",\"length\":"@ + enc_milli(b.length), ",\"weight\":"@);
    l_has_split(s, i, "{\"id\":"@ + enc_int(b.id) + ",\"name\":"@ + enc_opt_string(b.name) + ",\"head_weight\":"@ + enc_opt_milli(b.head_weight) + ",\"spline\":"@ + enc_opt_milli(b.spline) + ",\"feather_length\":"@ + enc_opt_milli(b.feather_length) + ",\"feather_type\":"@ + enc_opt_string(b.feather_type) + ",\"length\":"@, enc_milli(b.length));
    l_has_split(s, i, "{\"id\":"@ + enc_int(b.id) + ",\"name\":"@ + enc_opt_string(b.name) + ",\"head_weight\":"@ + enc_opt_milli(b.head_weight) + ",\"spline\":"@ + enc_opt_milli(b.spline) + ",\"feather_length\":"@ + enc_opt_milli(b.feather_length) + ",\"feather_type\":"@ + enc_opt_string(b.feather_type), ",\"length\":"@);
    l_has_split(s, i, "{\"id\":"@ + enc_int(b.id) + ",\"name\":"@ + enc_opt_string(b.name) + ",\"head_weight\":"@ + enc_opt_milli(b.head_weight) + ",\"spline\":"@ + enc_opt_milli(b.spline) + ",\"feather_length\":"@ + enc_opt_milli(b.feather_length) + ",\"feather_type\":"@, enc_opt_string(b.feather_type));
    l_has_split(s, i, "{\"id\":"@ + enc_int(b.id) + ",\"name\":"@ + enc_opt_string(b.name) + ",\"head_weight\":"@ + enc_opt_milli(b.head_weight) + ",\"spline\":"@ + enc_opt_milli(b.spline) + ",\"feather_length\":"@ + enc_opt_milli(b.feather_length), ",\"feather_type\":"@);
    l_has_split(s, i, "{\"id\":"@ + enc_int(b.id) + ",\"name\":"@ + enc_opt_string(b.name) + ",\"head_weight\":"@ + enc_opt_milli(b.head_weight) + ",\"spline\":"@ + enc_opt_milli(b.spline) + ",\"feather_length\":"@, enc_opt_milli(b.feather_length));
    l_has_split(s, i, "{\"id\":"@ + enc_int(b.id) + ",\"name\":"@ + enc_opt_string(b.name) + ",\"head_weight\":"@ + enc_opt_milli(b.head_weight) + ",\"spline\":"@ + enc_opt_milli(b.spline), ",\"feather_length\":"@);
    l_has_split(s, i, "{\"id\":"@ + enc_int(b.id) + ",\"name\":"@ + enc_opt_string(b.name) + ",\"head_weight\":"@ + enc_opt_milli(b.head_weight) + ",\"spline\":"@, enc_opt_milli(b.spline));
    l_has_split(s, i, "{\"id\":"@ + enc_int(b.id) + ",\"name\":"@ + enc_opt_string(b.name) + ",\"head_weight\":"@ + enc_opt_milli(b.head_weight), ",\"spline\":"@);
    l_has_split(s, i, "{\"id\":"@ + enc_int(b.id) + ",\"name\":"@ + enc_opt_string(b.name) + ",\"head_weight\":"@, enc_opt_milli(b.head_weight));
    l_has_split(s, i, "{\"id\":"@ + enc_int(b.id) + ",\"name\":"@ + enc_opt_string(b.name), ",\"head_weight\":"@);
    l_has_split(s, i, "{\"id\":"@ + enc_int(b.id) + ",\"name\":"@, enc_opt_string(b.name));
    l_has_split(s, i, "{\"id\":"@ + enc_int(b.id), ",\"name\":"@);
    l_has_split(s, i, "{\"id\":"@, enc_int(b.id));
    l_has_char(s, o2, ",\"name\":"@, 0);
    assert(!is_digit(s[o2]));
    l_sp_int_enc(s, o1, b.id, ID_LIMIT as int);
    l_sp_opt_string_enc(s, o3, b.name);
    l_has_char(s, o6, ",\"spline\":"@, 0);
    assert(!is_digit(s[o6]));
    l_sp_opt_milli_enc(s, o5, b.head_weight);
    l_has_char(s, o8, ",\"feather_length\":"@, 0);
    assert(!is_digit(s[o8]));
    l_sp_opt_milli_enc(s, o7, b.spline);
    l_has_char(s, o10, ",\"feather_type\":"@, 0);
    assert(!is_digit(s[o10]));
    l_sp_opt_milli_enc(s, o9, b.feather_length);
    l_sp_opt_string_enc(s, o11, b.feather_type);
    l_has_char(s, o14, ",\"weight\":"@, 0);
    assert(!is_digit(s[o14]));
    l_sp_milli_enc(s, o13, b.length);
    l_has_char(s, o16, ",\"bow_id\":"@, 0);
    assert(!is_digit(s[o16]));
    l_sp_milli_enc(s, o15, b.weight);
    l_has_char(s, o18, "}"@, 0);
    assert(!is_digit(s[o18]));
    l_sp_int_enc(s, o17, b.bow_id, ID_LIMIT as int);
}


/// A placed record parses back to itself.
#[verifier::rlimit(100)]
proof fn l_sp_measure_enc(s: Seq<char>, i: int, b: MeasureV)
    requires
        has_seq_at(s, i, enc_measure(b)),
        b.wf(),
    ensures
        sp_measure(s, i) == Some((b, i + enc_measure(b).len())),
{
    reveal_strlit(",\"arrow_id\":");
    reveal_strlit(",\"measure_interval\":");
    reveal_strlit(",\"measure_series_id\":");
    reveal_strlit("{\"id\":");
    reveal_strlit("}");
    let o0 = i;
    let o1 = o0 + "{\"id\":"@.len();
    let o2 = o1 + enc_int(b.id).len();
    let o3 = o2 + ",\"measure_interval\":"@.len();
    let o4 = o3 + enc_milli(b.measure_interval).len();
    let o5 = o4 + ",\"measure_series_id\":"@.len();
    let o6 = o5 + enc_int(b.measure_series_id).len();
    let o7 = o6 + ",\"arrow_id\":"@.len();
    let o8 = o7 + enc_int(b.arrow_id).len();
    l_has_split(s, i, "{\"id\":"@ + enc_int(b.id) + ",\"measure_interval\":"@ + enc_milli(b.measure_interval) + ",\"measure_series_id\":"@ + enc_int(b.measure_series_id) + ",\"arrow_id\":"@ + enc_int(b.arrow_id), "}"@);
    l_has_split(s, i, "{\"id\":"@ + enc_int(b.id) + ",\"measure_interval\":"@ + enc_milli(b.measure_interval) + ",\"measure_series_id\":"@ + enc_int(b.measure_series_id) + ",\"arrow_id\":"@, enc_int(b.arrow_id));
    l_has_split(s, i, "{\"id\":"@ + enc_int(b.id) + ",\"measure_interval\":"@ + enc_milli(b.measure_interval) + ",\"measure_series_id\":"@ + enc_int(b.measure_series_id), ",\"arrow_id\":"@);
    l_has_split(s, i, "{\"id\":"@ + enc_int(b.id) + ",\"measure_interval\":"@ + enc_milli(b.measure_interval) + ",\"measure_series_id\":"@, enc_int(b.measure_series_id));
    l_has_split(s, i, "{\"id\":"@ + enc_int(b.id) + ",\"measure_interval\":"@ + enc_milli(b.measure_interval), ",\"measure_series_id\":"@);
    l_has_split(s, i, "{\"id\":"@ + enc_int(b.id) + ",\"measure_interval\":"@, enc_milli(b.measure_interval));
    l_has_split(s, i, "{\"id\":"@ + enc_int(b.id), ",\"measure_interval\":"@);
    l_has_split(s, i, "{\"id\":"@, enc_int(b.id));
    l_has_char(s, o2, ",\"measure_interval\":"@, 0);
    assert(!is_digit(s[o2]));
    l_sp_int_enc(s, o1, b.id, ID_LIMIT as int);
    l_has_char(s, o4, ",\"measure_series_id\":"@, 0);
    assert(!is_digit(s[o4]));
    l_sp_milli_enc(s, o3, b.measure_interval);
    l_has_char(s, o6, ",\"arrow_id\":"@, 0);
    assert(!is_digit(s[o6]));
    l_sp_int_enc(s, o5, b.measure_series_id, ID_LIMIT as int);
    l_has_char(s, o8, "}"@, 0);
    assert(!is_digit(s[o8]));
    l_sp_int_enc(s, o7, b.arrow_id, ID_LIMIT as int);
}


/// A placed record parses back to itself.
#[verifier::rlimit(100)]
proof fn l_sp_point_enc(s: Seq<char>, i: int, b: MeasurePointV)
    requires
        has_seq_at(s, i, enc_point(b)),
        b.wf(),
    ensures
        sp_point(s, i) == Some((b, i + enc_point(b).len())),
{
    reveal_strlit(",\"draw_distance\":");
    reveal_strlit(",\"force\":");
    reveal_strlit(",\"measure_id\":");
    reveal_strlit(",\"time\":");
    reveal_strlit("{\"id\":");
    reveal_strlit("}");
    let o0 = i;
    let o1 = o0 + "{\"id\":"@.len();
    let o2 = o1 + enc_int(b.id).len();
    let o3 = o2 + ",\"time\":"@.len();
    let o4 = o3 + enc_int(b.time).len();
    let o5 = o4 + ",\"draw_distance\":"@.len();
    let o6 = o5 + enc_milli(b.draw_distance).len();
    let o7 = o6 + ",\"force\":"@.len();
    let o8 = o7 + enc_milli(b.force).len();
    let o9 = o8 + ",\"measure_id\":"@.len();
    let o10 = o9 + enc_int(b.measure_id).len();
    l_has_split(s, i, "{\"id\":"@ + enc_int(b.id) + ",\"time\":"@ + enc_int(b.time) + ",\"draw_distance\":"@ + enc_milli(b.draw_distance) + ",\"force\":"@ + enc_milli(b.force) + ",\"measure_id\":"@ + enc_int(b.measure_id), "}"@);
    l_has_split(s, i, "{\"id\":"@ + enc_int(b.id) + ",\"time\":"@ + enc_int(b.time) + ",\"draw_distance\":"@ + enc_milli(b.draw_distance) + ",\"force\":"@ + enc_milli(b.force) + ",\"measure_id\":"@, enc_int(b.measure_id));
    l_has_split(s, i, "{\"id\":"@ + enc_int(b.id) + ",\"time\":"@ + enc_int(b.time) + ",\"draw_distance\":"@ + enc_milli(b.draw_distance) + ",\"force\":"@ + enc_milli(b.force), ",\"measure_id\":"@);
    l_has_split(s, i, "{\"id\":"@ + enc_int(b.id) + ",\"time\":"@ + enc_int(b.time) + ",\"draw_distance\":"@ + enc_milli(b.draw_distance) + ",\"force\":"@, enc_milli(b.force));
    l_has_split(s, i, "{\"id\":"@ + enc_int(b.id) + ",\"time\":"@ + enc_int(b.time) + ",\"draw_distance\":"@ + enc_milli(b.draw_distance), ",\"force\":"@);
    l_has_split(s, i, "{\"id\":"@ + enc_int(b.id) + ",\"time\":"@ + enc_int(b.time) + ",\"draw_distance\":"@, enc_milli(b.draw_distance));
    l_has_split(s, i, "{\"id\":"@ + enc_int(b.id) + ",\"time\":"@ + enc_int(b.time), ",\"draw_distance\":"@);
    l_has_split(s, i, "{\"id\":"@ + enc_int(b.id) + ",\"time\":"@, enc_int(b.time));
    l_has_split(s, i, "{\"id\":"@ + enc_int(b.id), ",\"time\":"@);
    l_has_split(s, i, "{\"id\":"@, enc_int(b.id));
    l_has_char(s, o2, ",\"time\":"@, 0);
    assert(!is_digit(s[o2]));
    l_sp_int_enc(s, o1, b.id, ID_LIMIT as int);
    l_has_char(s, o4, ",\"draw_distance\":"@, 0);
    assert(!is_digit(s[o4]));
    l_sp_int_enc(s, o3, b.time, INT_LIMIT as int);
    l_has_char(s, o6, ",\"force\":"@, 0);
    assert(!is_digit(s[o6]));
    l_sp_milli_enc(s, o5, b.draw_distance);
    l_has_char(s, o8, ",\"measure_id\":"@, 0);
    assert(!is_digit(s[o8]));
    l_sp_milli_enc(s, o7, b.force);
    l_has_char(s, o10, "}"@, 0);
    assert(!is_digit(s[o10]));
    l_sp_int_enc(s, o9, b.measure_id, ID_LIMIT as int);
}

/// A placed non-empty member run parses back to its records.
#[verifier::rlimit(50)]
proof fn l_sp_bow_items_enc(s: Seq<char>, i: int, l: Seq<BowV>)
    requires
        l.len() >= 1,
        has_seq_at(s, i, enc_bow_items(l) + seq![']']),
        bows_wf(l),
    ensures
        sp_bow_items(s, i) == Some((l, i + enc_bow_items(l).len() + 1)),
    decreases l.len(),
{
    reveal_strlit(",");
    reveal_strlit("{\"id\":");
    assert(l[0].wf());
    if l.len() == 1 {
        l_has_split(s, i, enc_bow(l[0]), seq![']']);
        l_sp_bow_enc(s, i, l[0]);
        let j = i + enc_bow(l[0]).len();
        l_has_char(s, j, seq![']'], 0);
        assert(s[j] == ']');
        assert(seq![l[0]] =~= l);
    } else {
        let rest = l.drop_first();
        assert(enc_bow_items(l) + seq![']'] =~= enc_bow(l[0]) + (","@ + (enc_bow_items(rest)
            + seq![']'])));
        l_has_split(s, i, enc_bow(l[0]), ","@ + (enc_bow_items(rest) + seq![']']));
        let j = i + enc_bow(l[0]).len();
        l_has_split(s, j, ","@, enc_bow_items(rest) + seq![']']);
        assert(","@ =~= seq![',']);
        l_has_char(s, j, ","@, 0);
        assert(s[j] == ',');
        l_sp_bow_enc(s, i, l[0]);
        assert forall|k: int| 0 <= k < rest.len() implies (#[trigger] rest[k]).wf() by {
            assert(rest[k] == l[k + 1]);
            assert(l[k + 1].wf());
        }
        assert(bows_wf(rest));
        l_sp_bow_items_enc(s, j + 1, rest);
        assert(seq![l[0]] + rest =~= l);
    }
}

/// A placed record list parses back to its records.
proof fn l_sp_bow_list_enc(s: Seq<char>, i: int, l: Seq<BowV>)
    requires
        has_seq_at(s, i, enc_bow_list(l)),
        bows_wf(l),
    ensures
        sp_bow_list(s, i) == Some((l, i + enc_bow_list(l).len())),
{
    reveal_strlit("[");
    reveal_strlit("]");
    reveal_strlit("{\"id\":");
    assert("["@ =~= seq!['[']);
    assert("]"@ =~= seq![']']);
    assert(enc_bow_list(l) =~= "["@ + (enc_bow_items(l) + seq![']']));
    l_has_split(s, i, "["@, enc_bow_items(l) + seq![']']);
    l_has_char(s, i, "["@, 0);
    assert(s[i] == '[');
    if l.len() == 0 {
        assert(enc_bow_items(l) + seq![']'] =~= seq![']']);
        l_has_char(s, i + 1, enc_bow_items(l) + seq![']'], 0);
        assert(s[i + 1] == ']');
    } else {
        assert(l[0].wf());
        assert(enc_bow(l[0])[0] == '{');
        l_has_char(s, i + 1, enc_bow_items(l) + seq![']'], 0);
        assert(s[i + 1] == '{');
        assert(s[i + 1] != ']');
        l_sp_bow_items_enc(s, i + 1, l);
    }
}


/// A placed non-empty member run parses back to its records.
#[verifier::rlimit(100)]
proof fn l_sp_series_items_enc(s: Seq<char>, i: int, l: Seq<MeasureSeriesV>)
    requires
        l.len() >= 1,
        has_seq_at(s, i, enc_series_items(l) + seq![']']),
        series_list_wf(l),
    ensures
        sp_series_items(s, i) == Some((l, i + enc_series_items(l).len() + 1)),
    decreases l.len(),
{
    reveal_strlit(",");
    reveal_strlit("{\"id\":");
    assert(l[0].wf());
    if l.len() == 1 {
        l_has_split(s, i, enc_series(l[0]), seq![']']);
        l_sp_series_enc(s, i, l[0]);
        let j = i + enc_series(l[0]).len();
        l_has_char(s, j, seq![']'], 0);
        assert(s[j] == ']');
        assert(seq![l[0]] =~= l);
    } else {
        let rest = l.drop_first();
        assert(enc_series_items(l) + seq![']'] =~= enc_series(l[0]) + (","@ + (enc_series_items(rest)
            + seq![']'])));
        l_has_split(s, i, enc_series(l[0]), ","@ + (enc_series_items(rest) + seq![']']));
        let j = i + enc_series(l[0]).len();
        l_has_split(s, j, ","@, enc_series_items(rest) + seq![']']);
        assert(","@ =~= seq![',']);
        l_has_char(s, j, ","@, 0);
        assert(s[j] == ',');
        l_sp_series_enc(s, i, l[0]);
        assert forall|k: int| 0 <= k < rest.len() implies (#[trigger] rest[k]).wf() by {
            assert(rest[k] == l[k + 1]);
            assert(l[k + 1].wf());
        }
        assert(series_list_wf(rest));
        l_sp_series_items_enc(s, j + 1, rest);
        assert(seq![l[0]] + rest =~= l);
    }
}

/// A placed record list parses back to its records.
proof fn l_sp_series_list_enc(s: Seq<char>, i: int, l: Seq<MeasureSeriesV>)
    requires
        has_seq_at(s, i, enc_series_list(l)),
        series_list_wf(l),
    ensures
        sp_series_list(s, i) == Some((l, i + enc_series_list(l).len())),
{
    reveal_strlit("[");
    reveal_strlit("]");
    reveal_strlit("{\"id\":");
    assert("["@ =~= seq!['[']);
    assert("]"@ =~= seq![']']);
    assert(enc_series_list(l) =~= "["@ + (enc_series_items(l) + seq![']']));
    l_has_split(s, i, "["@, enc_series_items(l) + seq![']']);
    l_has_char(s, i, "["@, 0);
    assert(s[i] == '[');
    if l.len() == 0 {
        assert(enc_series_items(l) + seq![']'] =~= seq![']']);
        l_has_char(s, i + 1, enc_series_items(l) + seq![']'], 0);
        assert(s[i + 1] == ']');
    } else {
        assert(l[0].wf());
        assert(enc_series(l[0])[0] == '{');
        l_has_char(s, i + 1, enc_series_items(l) + seq![']'], 0);
        assert(s[i + 1] == '{');
        assert(s[i + 1] != ']');
        l_sp_series_items_enc(s, i + 1, l);
    }
}


/// A placed non-empty member run parses back to its records.
#[verifier::rlimit(100)]
proof fn l_sp_arrow_items_enc(s: Seq<char>, i: int, l: Seq<ArrowV>)
    requires
        l.len() >= 1,
        has_seq_at(s, i, enc_arrow_items(l) + seq![']']),
        arrows_wf(l),
    ensures
        sp_arrow_items(s, i) == Some((l, i + enc_arrow_items(l).len() + 1)),
    decreases l.len(),
{
    reveal_strlit(",");
    reveal_strlit("{\"id\":");
    assert(l[0].wf());
    if l.len() == 1 {
        l_has_split(s, i, enc_arrow(l[0]), seq![']']);
        l_sp_arrow_enc(s, i, l[0]);
        let j = i + enc_arrow(l[0]).len();
        l_has_char(s, j, seq![']'], 0);
        assert(s[j] == ']');
        assert(seq![l[0]] =~= l);
    } else {
        let rest = l.drop_first();
        assert(enc_arrow_items(l) + seq![']'] =~= enc_arrow(l[0]) + (","@ + (enc_arrow_items(rest)
            + seq![']'])));
        l_has_split(s, i, enc_arrow(l[0]), ","@ + (enc_arrow_items(rest) + seq![']']));
        let j = i + enc_arrow(l[0]).len();
        l_has_split(s, j, ","@, enc_arrow_items(rest) + seq![']']);
        assert(","@ =~= seq![',']);
        l_has_char(s, j, ","@, 0);
        assert(s[j] == ',');
        l_sp_arrow_enc(s, i, l[0]);
        assert forall|k: int| 0 <= k < rest.len() implies (#[trigger] rest[k]).wf() by {
            assert(rest[k] == l[k + 1]);
            assert(l[k + 1].wf());
        }
        assert(arrows_wf(rest));
        l_sp_arrow_items_enc(s, j + 1, rest);
        assert(seq![l[0]] + rest =~= l);
    }
}

/// A placed record list parses back to its records.
proof fn l_sp_arrow_list_enc(s: Seq<char>, i: int, l: Seq<ArrowV>)
    requires
        has_seq_at(s, i, enc_arrow_list(l)),
        arrows_wf(l),
    ensures
        sp_arrow_list(s, i) == Some((l, i + enc_arrow_list(l).len())),
{
    reveal_strlit("[");
    reveal_strlit("]");
    reveal_strlit("{\"id\":");
    assert("["@ =~= seq!['[']);
    assert("]"@ =~= seq![']']);
    assert(enc_arrow_list(l) =~= "["@ + (enc_arrow_items(l) + seq![']']));
    l_has_split(s, i, "["@, enc_arrow_items(l) + seq![']']);
    l_has_char(s, i, "["@, 0);
    assert(s[i] == '[');
    if l.len() == 0 {
        assert(enc_arrow_items(l) + seq![']'] =~= seq![']']);
        l_has_char(s, i + 1, enc_arrow_items(l) + seq![']'], 0);
        assert(s[i + 1] == ']');
    } else {
        assert(l[0].wf());
        assert(enc_arrow(l[0])[0] == '{');
        l_has_char(s, i + 1, enc_arrow_items(l) + seq![']'], 0);
        assert(s[i + 1] == '{');
        assert(s[i + 1] != ']');
        l_sp_arrow_items_enc(s, i + 1, l);
    }
}


/// A placed non-empty member run parses back to its records.
#[verifier::rlimit(50)]
proof fn l_sp_measure_items_enc(s: Seq<char>, i: int, l: Seq<MeasureV>)
    requires
        l.len() >= 1,
        has_seq_at(s, i, enc_measure_items(l) + seq![']']),
        measures_wf(l),
    ensures
        sp_measure_items(s, i) == Some((l, i + enc_measure_items(l).len() + 1)),
    decreases l.len(),
{
    reveal_strlit(",");
    reveal_strlit("{\"id\":");
    assert(l[0].wf());
    if l.len() == 1 {
        l_has_split(s, i, enc_measure(l[0]), seq![']']);
        l_sp_measure_enc(s, i, l[0]);
        let j = i + enc_measure(l[0]).len();
        l_has_char(s, j, seq![']'], 0);
        assert(s[j] == ']');
        assert(seq![l[0]] =~= l);
    } else {
        let rest = l.drop_first();
        assert(enc_measure_items(l) + seq![']'] =~= enc_measure(l[0]) + (","@ + (enc_measure_items(rest)
            + seq![']'])));
        l_has_split(s, i, enc_measure(l[0]), ","@ + (enc_measure_items(rest) + seq![']']));
        let j = i + enc_measure(l[0]).len();
        l_has_split(s, j, ","@, enc_measure_items(rest) + seq![']']);
        assert(","@ =~= seq![',']);
        l_has_char(s, j, ","@, 0);
        assert(s[j] == ',');
        l_sp_measure_enc(s, i, l[0]);
        assert forall|k: int| 0 <= k < rest.len() implies (#[trigger] rest[k]).wf() by {
            assert(rest[k] == l[k + 1]);
            assert(l[k + 1].wf());
        }
        assert(measures_wf(rest));
        l_sp_measure_items_enc(s, j + 1, rest);
        assert(seq![l[0]] + rest =~= l);
    }
}

/// A placed record list parses back to its records.
proof fn l_sp_measure_list_enc(s: Seq<char>, i: int, l: Seq<MeasureV>)
    requires
        has_seq_at(s, i, enc_measure_list(l)),
        measures_wf(l),
    ensures
        sp_measure_list(s, i) == Some((l, i + enc_measure_list(l).len())),
{
    reveal_strlit("[");
    reveal_strlit("]");
    reveal_strlit("{\"id\":");
    assert("["@ =~= seq!['[']);
    assert("]"@ =~= seq![']']);
    assert(enc_measure_list(l) =~= "["@ + (enc_measure_items(l) + seq![']']));
    l_has_split(s, i, "["@, enc_measure_items(l) + seq![']']);
    l_has_char(s, i, "["@, 0);
    assert(s[i] == '[');
    if l.len() == 0 {
        assert(enc_measure_items(l) + seq![']'] =~= seq![']']);
        l_has_char(s, i + 1, enc_measure_items(l) + seq![']'], 0);
        assert(s[i + 1] == ']');
    } else {
        assert(l[0].wf());
        assert(enc_measure(l[0])[0] == '{');
        l_has_char(s, i + 1, enc_measure_items(l) + seq![']'], 0);
        assert(s[i + 1] == '{');
        assert(s[i + 1] != ']');
        l_sp_measure_items_enc(s, i + 1, l);
    }
}


/// A placed non-empty member run parses back to its records.
#[verifier::rlimit(50)]
proof fn l_sp_point_items_enc(s: Seq<char>, i: int, l: Seq<MeasurePointV>)
    requires
        l.len() >= 1,
        has_seq_at(s, i, enc_point_items(l) + seq![']']),
        points_wf(l),
    ensures
        sp_point_items(s, i) == Some((l, i + enc_point_items(l).len() + 1)),
    decreases l.len(),
{
    reveal_strlit(",");
    reveal_strlit("{\"id\":");
    assert(l[0].wf());
    if l.len() == 1 {
        l_has_split(s, i, enc_point(l[0]), seq![']']);
        l_sp_point_enc(s, i, l[0]);
        let j = i + enc_point(l[0]).len();
        l_has_char(s, j, seq![']'], 0);
        assert(s[j] == ']');
        assert(seq![l[0]] =~= l);
    } else {
        let rest = l.drop_first();
        assert(enc_point_items(l) + seq![']'] =~= enc_point(l[0]) + (","@ + (enc_point_items(rest)
            + seq![']'])));
        l_has_split(s, i, enc_point(l[0]), ","@ + (enc_point_items(rest) + seq![']']));
        let j = i + enc_point(l[0]).len();
        l_has_split(s, j, ","@, enc_point_items(rest) + seq![']']);
        assert(","@ =~= seq![',']);
        l_has_char(s, j, ","@, 0);
        assert(s[j] == ',');
        l_sp_point_enc(s, i, l[0]);
        assert forall|k: int| 0 <= k < rest.len() implies (#[trigger] rest[k]).wf() by {
            assert(rest[k] == l[k + 1]);
            assert(l[k + 1].wf());
        }
        assert(points_wf(rest));
        l_sp_point_items_enc(s, j + 1, rest);
        assert(seq![l[0]] + rest =~= l);
    }
}

/// A placed record list parses back to its records.
proof fn l_sp_point_list_enc(s: Seq<char>, i: int, l: Seq<MeasurePointV>)
    requires
        has_seq_at(s, i, enc_point_list(l)),
        points_wf(l),
    ensures
        sp_point_list(s, i) == Some((l, i + enc_point_list(l).len())),
{
    reveal_strlit("[");
    reveal_strlit("]");
    reveal_strlit("{\"id\":");
    assert("["@ =~= seq!['[']);
    assert("]"@ =~= seq![']']);
    assert(enc_point_list(l) =~= "["@ + (enc_point_items(l) + seq![']']));
    l_has_split(s, i, "["@, enc_point_items(l) + seq![']']);
    l_has_char(s, i, "["@, 0);
    assert(s[i] == '[');
    if l.len() == 0 {
        assert(enc_point_items(l) + seq![']'] =~= seq![']']);
        l_has_char(s, i + 1, enc_point_items(l) + seq![']'], 0);
        assert(s[i + 1] == ']');
    } else {
        assert(l[0].wf());
        assert(enc_point(l[0])[0] == '{');
        l_has_char(s, i + 1, enc_point_items(l) + seq![']'], 0);
        assert(s[i + 1] == '{');
        assert(s[i + 1] != ']');
        l_sp_point_items_enc(s, i + 1, l);
    }
}

// ------------------------------------------------------------------
// machine status and commands
// ------------------------------------------------------------------
/// A placed machine status parses back to itself.
proof fn l_sp_status_enc(s: Seq<char>, i: int, st: MachineStatus)
    requires
        has_seq_at(s, i, enc_status(st)),
    ensures
        sp_status(s, i) == Some((st, i + enc_status(st).len())),
{
    reveal_strlit("\"");
    reveal_strlit("pause");
    reveal_strlit("shooting");
    reveal_strlit("error");
    reveal_strlit("\"pause\"");
    reveal_strlit("\"shooting\"");
    reveal_strlit("\"error\"");
    assert("pause"@[0] == 'p');
    assert("error"@[0] == 'e');
    assert("pause"@ != "error"@);
    match st {
        MachineStatus::Pause => {
            assert("\"pause\""@ =~= enc_string("pause"@));
            assert(text_ok("pause"@));
            l_sp_string_enc(s, i, "pause"@);
        },
        MachineStatus::Shooting => {
            assert("\"shooting\""@ =~= enc_string("shooting"@));
            assert(text_ok("shooting"@));
            l_sp_string_enc(s, i, "shooting"@);
        },
        MachineStatus::Error => {
            assert("\"error\""@ =~= enc_string("error"@));
            assert(text_ok("error"@));
            l_sp_string_enc(s, i, "error"@);
        },
    }
}

/// A placed machine command parses back to itself.
proof fn l_sp_command_enc(s: Seq<char>, i: int, c: MachineCommand)
    requires
        has_seq_at(s, i, enc_command(c)),
    ensures
        sp_command(s, i) == Some((c, i + enc_command(c).len())),
{
    reveal_strlit("\"");
    reveal_strlit("calibrate");
    reveal_strlit("reset");
    reveal_strlit("restart");
    reveal_strlit("shutdown");
    reveal_strlit("\"calibrate\"");
    reveal_strlit("\"reset\"");
    reveal_strlit("\"restart\"");
    reveal_strlit("\"shutdown\"");
    match c {
        MachineCommand::Calibrate => {
            assert("\"calibrate\""@ =~= enc_string("calibrate"@));
            assert(text_ok("calibrate"@));
            l_sp_string_enc(s, i, "calibrate"@);
        },
        MachineCommand::Reset => {
            assert("\"reset\""@ =~= enc_string("reset"@));
            assert(text_ok("reset"@));
            l_sp_string_enc(s, i, "reset"@);
        },
        MachineCommand::Restart => {
            assert("\"restart\""@ =~= enc_string("restart"@));
            assert(text_ok("restart"@));
            l_sp_string_enc(s, i, "restart"@);
        },
        MachineCommand::Shutdown => {
            assert("\"shutdown\""@ =~= enc_string("shutdown"@));
            assert(text_ok("shutdown"@));
            l_sp_string_enc(s, i, "shutdown"@);
        },
    }
}

// ------------------------------------------------------------------
// payloads and the envelope
// ------------------------------------------------------------------

/// One request variant, placed, parses back to itself.
#[verifier::rlimit(100)]
proof fn l_sp_request_enc_listbows(s: Seq<char>, i: int)
    requires
        has_seq_at(s, i, enc_request(WSRequestV::ListBows)),
    ensures
        sp_request(s, i) == Some((WSRequestV::ListBows, i + enc_request(WSRequestV::ListBows).len())),
{
    let r = WSRequestV::ListBows;
    reveal_strlit("{");
    reveal_strlit(":");
    reveal_strlit("}");
    reveal_strlit("}}");
    reveal_strlit("{}}");
    reveal_strlit(":{}}");
    reveal_strlit("{\"bow_id\":");
    reveal_strlit("{\"series_id\":");
    reveal_strlit("{\"measure_id\":");
    reveal_strlit(":{\"bow_id\":");
    reveal_strlit(":{\"series_id\":");
    reveal_strlit(":{\"measure_id\":");
    reveal_strlit("listbows");
    reveal_strlit("listmeasureseries");
    reveal_strlit("listarrows");
    reveal_strlit("listmeasures");
    reveal_strlit("listmeasurepoints");
    reveal_strlit("addbow");
    reveal_strlit("addarrow");
    reveal_strlit("newmeasureseries");
    reveal_strlit("startmeasure");
    reveal_strlit("command");
    assert("listbows"@[0] == 'l');
    assert("addarrow"@[0] == 'a');
    assert("listbows"@ != "addarrow"@);
    assert("listmeasureseries"@[11] == 's');
    assert("listmeasurepoints"@[11] == 'p');
    assert("listmeasureseries"@ != "listmeasurepoints"@);
    assert("listmeasures"@[0] == 'l');
    assert("startmeasure"@[0] == 's');
    assert("listmeasures"@ != "startmeasure"@);
    let tg = "listbows"@;
    assert(enc_request(r) =~= "{"@ + (enc_string(tg) + (":"@ + "{}}"@)));
    l_has_split(s, i, "{"@, enc_string(tg) + (":"@ + "{}}"@));
    let i1 = i + 1;
    l_has_split(s, i1, enc_string(tg), ":"@ + "{}}"@);
    assert(text_ok(tg));
    l_sp_string_enc(s, i1, tg);
    let i2 = i1 + enc_string(tg).len();
    l_has_split(s, i2, ":"@, "{}}"@);
}

/// One request variant, placed, parses back to itself.
#[verifier::rlimit(100)]
proof fn l_sp_request_enc_listmeasureseries(s: Seq<char>, i: int, v: int)
    requires
        has_seq_at(s, i, enc_request(WSRequestV::ListMeasureSeries { bow_id: v })),
        crate::models::id_ok(v),
    ensures
        sp_request(s, i) == Some((WSRequestV::ListMeasureSeries { bow_id: v }, i + enc_request(WSRequestV::ListMeasureSeries { bow_id: v }).len())),
{
    let r = WSRequestV::ListMeasureSeries { bow_id: v };
    reveal_strlit("{");
    reveal_strlit(":");
    reveal_strlit("}");
    reveal_strlit("}}");
    reveal_strlit("{}}");
    reveal_strlit(":{}}");
    reveal_strlit("{\"bow_id\":");
    reveal_strlit("{\"series_id\":");
    reveal_strlit("{\"measure_id\":");
    reveal_strlit(":{\"bow_id\":");
    reveal_strlit(":{\"series_id\":");
    reveal_strlit(":{\"measure_id\":");
    reveal_strlit("listbows");
    reveal_strlit("listmeasureseries");
    reveal_strlit("listarrows");
    reveal_strlit("listmeasures");
    reveal_strlit("listmeasurepoints");
    reveal_strlit("addbow");
    reveal_strlit("addarrow");
    reveal_strlit("newmeasureseries");
    reveal_strlit("startmeasure");
    reveal_strlit("command");
    assert("listbows"@[0] == 'l');
    assert("addarrow"@[0] == 'a');
    assert("listbows"@ != "addarrow"@);
    assert("listmeasureseries"@[11] == 's');
    assert("listmeasurepoints"@[11] == 'p');
    assert("listmeasureseries"@ != "listmeasurepoints"@);
    assert("listmeasures"@[0] == 'l');
    assert("startmeasure"@[0] == 's');
    assert("listmeasures"@ != "startmeasure"@);
    let tg = "listmeasureseries"@;
    let ky = "{\"bow_id\":"@;
    assert(enc_request(r) =~= "{"@ + (enc_string(tg) + (":"@ + (ky + (enc_int(v)
        + "}}"@)))));
    l_has_split(s, i, "{"@, enc_string(tg) + (":"@ + (ky + (enc_int(v) + "}}"@))));
    let i1 = i + 1;
    l_has_split(s, i1, enc_string(tg), ":"@ + (ky + (enc_int(v) + "}}"@)));
    assert(text_ok(tg));
    l_sp_string_enc(s, i1, tg);
    let i2 = i1 + enc_string(tg).len();
    l_has_split(s, i2, ":"@, ky + (enc_int(v) + "}}"@));
    let i3 = i2 + 1;
    l_has_split(s, i3, ky, enc_int(v) + "}}"@);
    let i4 = i3 + ky.len();
    l_has_split(s, i4, enc_int(v), "}}"@);
    let i5 = i4 + enc_int(v).len();
    l_has_char(s, i5, "}}"@, 0);
    assert(!is_digit(s[i5]));
    l_sp_int_enc(s, i4, v, ID_LIMIT as int);
}

/// One request variant, placed, parses back to itself.
#[verifier::rlimit(100)]
proof fn l_sp_request_enc_listarrows(s: Seq<char>, i: int, v: int)
    requires
        has_seq_at(s, i, enc_request(WSRequestV::ListArrows { bow_id: v })),
        crate::models::id_ok(v),
    ensures
        sp_request(s, i) == Some((WSRequestV::ListArrows { bow_id: v }, i + enc_request(WSRequestV::ListArrows { bow_id: v }).len())),
{
    let r = WSRequestV::ListArrows { bow_id: v };
    reveal_strlit("{");
    reveal_strlit(":");
    reveal_strlit("}");
    reveal_strlit("}}");
    reveal_strlit("{}}");
    reveal_strlit(":{}}");
    reveal_strlit("{\"bow_id\":");
    reveal_strlit("{\"series_id\":");
    reveal_strlit("{\"measure_id\":");
    reveal_strlit(":{\"bow_id\":");
    reveal_strlit(":{\"series_id\":");
    reveal_strlit(":{\"measure_id\":");
    reveal_strlit("listbows");
    reveal_strlit("listmeasureseries");
    reveal_strlit("listarrows");
    reveal_strlit("listmeasures");
    reveal_strlit("listmeasurepoints");
    reveal_strlit("addbow");
    reveal_strlit("addarrow");
    reveal_strlit("newmeasureseries");
    reveal_strlit("startmeasure");
    reveal_strlit("command");
    assert("listbows"@[0] == 'l');
    assert("addarrow"@[0] == 'a');
    assert("listbows"@ != "addarrow"@);
    assert("listmeasureseries"@[11] == 's');
    assert("listmeasurepoints"@[11] == 'p');
    assert("listmeasureseries"@ != "listmeasurepoints"@);
    assert("listmeasures"@[0] == 'l');
    assert("startmeasure"@[0] == 's');
    assert("listmeasures"@ != "startmeasure"@);
    let tg = "listarrows"@;
    let ky = "{\"bow_id\":"@;
    assert(enc_request(r) =~= "{"@ + (enc_string(tg) + (":"@ + (ky + (enc_int(v)
        + "}}"@)))));
    l_has_split(s, i, "{"@, enc_string(tg) + (":"@ + (ky + (enc_int(v) + "}}"@))));
    let i1 = i + 1;
    l_has_split(s, i1, enc_string(tg), ":"@ + (ky + (enc_int(v) + "}}"@)));
    assert(text_ok(tg));
    l_sp_string_enc(s, i1, tg);
    let i2 = i1 + enc_string(tg).len();
    l_has_split(s, i2, ":"@, ky + (enc_int(v) + "}}"@));
    let i3 = i2 + 1;
    l_has_split(s, i3, ky, enc_int(v) + "}}"@);
    let i4 = i3 + ky.len();
    l_has_split(s, i4, enc_int(v), "}}"@);
    let i5 = i4 + enc_int(v).len();
    l_has_char(s, i5, "}}"@, 0);
    assert(!is_digit(s[i5]));
    l_sp_int_enc(s, i4, v, ID_LIMIT as int);
}

/// One request variant, placed, parses back to itself.
#[verifier::rlimit(100)]
proof fn l_sp_request_enc_listmeasures(s: Seq<char>, i: int, v: int)
    requires
        has_seq_at(s, i, enc_request(WSRequestV::ListMeasures { series_id: v })),
        crate::models::id_ok(v),
    ensures
        sp_request(s, i) == Some((WSRequestV::ListMeasures { series_id: v }, i + enc_request(WSRequestV::ListMeasures { series_id: v }).len())),
{
    let r = WSRequestV::ListMeasures { series_id: v };
    reveal_strlit("{");
    reveal_strlit(":");
    reveal_strlit("}");
    reveal_strlit("}}");
    reveal_strlit("{}}");
    reveal_strlit(":{}}");
    reveal_strlit("{\"bow_id\":");
    reveal_strlit("{\"series_id\":");
    reveal_strlit("{\"measure_id\":");
    reveal_strlit(":{\"bow_id\":");
    reveal_strlit(":{\"series_id\":");
    reveal_strlit(":{\"measure_id\":");
    reveal_strlit("listbows");
    reveal_strlit("listmeasureseries");
    reveal_strlit("listarrows");
    reveal_strlit("listmeasures");
    reveal_strlit("listmeasurepoints");
    reveal_strlit("addbow");
    reveal_strlit("addarrow");
    reveal_strlit("newmeasureseries");
    reveal_strlit("startmeasure");
    reveal_strlit("command");
    assert("listbows"@[0] == 'l');
    assert("addarrow"@[0] == 'a');
    assert("listbows"@ != "addarrow"@);
    assert("listmeasureseries"@[11] == 's');
    assert("listmeasurepoints"@[11] == 'p');
    assert("listmeasureseries"@ != "listmeasurepoints"@);
    assert("listmeasures"@[0] == 'l');
    assert("startmeasure"@[0] == 's');
    assert("listmeasures"@ != "startmeasure"@);
    let tg = "listmeasures"@;
    let ky = "{\"series_id\":"@;
    assert(enc_request(r) =~= "{"@ + (enc_string(tg) + (":"@ + (ky + (enc_int(v)
        + "}}"@)))));
    l_has_split(s, i, "{"@, enc_string(tg) + (":"@ + (ky + (enc_int(v) + "}}"@))));
    let i1 = i + 1;
    l_has_split(s, i1, enc_string(tg), ":"@ + (ky + (enc_int(v) + "}}"@)));
    assert(text_ok(tg));
    l_sp_string_enc(s, i1, tg);
    let i2 = i1 + enc_string(tg).len();
    l_has_split(s, i2, ":"@, ky + (enc_int(v) + "}}"@));
    let i3 = i2 + 1;
    l_has_split(s, i3, ky, enc_int(v) + "}}"@);
    let i4 = i3 + ky.len();
    l_has_split(s, i4, enc_int(v), "}}"@);
    let i5 = i4 + enc_int(v).len();
    l_has_char(s, i5, "}}"@, 0);
    assert(!is_digit(s[i5]));
    l_sp_int_enc(s, i4, v, ID_LIMIT as int);
}

/// One request variant, placed, parses back to itself.
#[verifier::rlimit(100)]
proof fn l_sp_request_enc_listmeasurepoints(s: Seq<char>, i: int, v: int)
    requires
        has_seq_at(s, i, enc_request(WSRequestV::ListMeasurePoints { measure_id: v })),
        crate::models::id_ok(v),
    ensures
        sp_request(s, i) == Some((WSRequestV::ListMeasurePoints { measure_id: v }, i + enc_request(WSRequestV::ListMeasurePoints { measure_id: v }).len())),
{
    let r = WSRequestV::ListMeasurePoints { measure_id: v };
    reveal_strlit("{");
    reveal_strlit(":");
    reveal_strlit("}");
    reveal_strlit("}}");
    reveal_strlit("{}}");
    reveal_strlit(":{}}");
    reveal_strlit("{\"bow_id\":");
    reveal_strlit("{\"series_id\":");
    reveal_strlit("{\"measure_id\":");
    reveal_strlit(":{\"bow_id\":");
    reveal_strlit(":{\"series_id\":");
    reveal_strlit(":{\"measure_id\":");
    reveal_strlit("listbows");
    reveal_strlit("listmeasureseries");
    reveal_strlit("listarrows");
    reveal_strlit("listmeasures");
    reveal_strlit("listmeasurepoints");
    reveal_strlit("addbow");
    reveal_strlit("addarrow");
    reveal_strlit("newmeasureseries");
    reveal_strlit("startmeasure");
    reveal_strlit("command");
    assert("listbows"@[0] == 'l');
    assert("addarrow"@[0] == 'a');
    assert("listbows"@ != "addarrow"@);
    assert("listmeasureseries"@[11] == 's');
    assert("listmeasurepoints"@[11] == 'p');
    assert("listmeasureseries"@ != "listmeasurepoints"@);
    assert("listmeasures"@[0] == 'l');
    assert("startmeasure"@[0] == 's');
    assert("listmeasures"@ != "startmeasure"@);
    let tg = "listmeasurepoints"@;
    let ky = "{\"measure_id\":"@;
    assert(enc_request(r) =~= "{"@ + (enc_string(tg) + (":"@ + (ky + (enc_int(v)
        + "}}"@)))));
    l_has_split(s, i, "{"@, enc_string(tg) + (":"@ + (ky + (enc_int(v) + "}}"@))));
    let i1 = i + 1;
    l_has_split(s, i1, enc_string(tg), ":"@ + (ky + (enc_int(v) + "}}"@)));
    assert(text_ok(tg));
    l_sp_string_enc(s, i1, tg);
    let i2 = i1 + enc_string(tg).len();
    l_has_split(s, i2, ":"@, ky + (enc_int(v) + "}}"@));
    let i3 = i2 + 1;
    l_has_split(s, i3, ky, enc_int(v) + "}}"@);
    let i4 = i3 + ky.len();
    l_has_split(s, i4, enc_int(v), "}}"@);
    let i5 = i4 + enc_int(v).len();
    l_has_char(s, i5, "}}"@, 0);
    assert(!is_digit(s[i5]));
    l_sp_int_enc(s, i4, v, ID_LIMIT as int);
}

/// One request variant, placed, parses back to itself.
#[verifier::rlimit(100)]
proof fn l_sp_request_enc_addbow(s: Seq<char>, i: int, b: BowV)
    requires
        has_seq_at(s, i, enc_request(WSRequestV::AddBow(b))),
        b.wf(),
    ensures
        sp_request(s, i) == Some((WSRequestV::AddBow(b), i + enc_request(WSRequestV::AddBow(b)).len())),
{
    let r = WSRequestV::AddBow(b);
    reveal_strlit("{");
    reveal_strlit(":");
    reveal_strlit("}");
    reveal_strlit("}}");
    reveal_strlit("{}}");
    reveal_strlit(":{}}");
    reveal_strlit("{\"bow_id\":");
    reveal_strlit("{\"series_id\":");
    reveal_strlit("{\"measure_id\":");
    reveal_strlit(":{\"bow_id\":");
    reveal_strlit(":{\"series_id\":");
    reveal_strlit(":{\"measure_id\":");
    reveal_strlit("listbows");
    reveal_strlit("listmeasureseries");
    reveal_strlit("listarrows");
    reveal_strlit("listmeasures");
    reveal_strlit("listmeasurepoints");
    reveal_strlit("addbow");
    reveal_strlit("addarrow");
    reveal_strlit("newmeasureseries");
    reveal_strlit("startmeasure");
    reveal_strlit("command");
    assert("listbows"@[0] == 'l');
    assert("addarrow"@[0] == 'a');
    assert("listbows"@ != "addarrow"@);
    assert("listmeasureseries"@[11] == 's');
    assert("listmeasurepoints"@[11] == 'p');
    assert("listmeasureseries"@ != "listmeasurepoints"@);
    assert("listmeasures"@[0] == 'l');
    assert("startmeasure"@[0] == 's');
    assert("listmeasures"@ != "startmeasure"@);
    let tg = "addbow"@;
    assert(enc_request(r) =~= "{"@ + (enc_string(tg) + (":"@ + (enc_bow(b) + "}"@))));
    l_has_split(s, i, "{"@, enc_string(tg) + (":"@ + (enc_bow(b) + "}"@)));
    let i1 = i + 1;
    l_has_split(s, i1, enc_string(tg), ":"@ + (enc_bow(b) + "}"@));
    assert(text_ok(tg));
    l_sp_string_enc(s, i1, tg);
    let i2 = i1 + enc_string(tg).len();
    l_has_split(s, i2, ":"@, enc_bow(b) + "}"@);
    let i3 = i2 + 1;
    l_has_split(s, i3, enc_bow(b), "}"@);
    l_sp_bow_enc(s, i3, b);
}

/// One request variant, placed, parses back to itself.
#[verifier::rlimit(100)]
proof fn l_sp_request_enc_addarrow(s: Seq<char>, i: int, a: ArrowV)
    requires
        has_seq_at(s, i, enc_request(WSRequestV::AddArrow(a))),
        a.wf(),
    ensures
        sp_request(s, i) == Some((WSRequestV::AddArrow(a), i + enc_request(WSRequestV::AddArrow(a)).len())),
{
    let r = WSRequestV::AddArrow(a);
    reveal_strlit("{");
    reveal_strlit(":");
    reveal_strlit("}");
    reveal_strlit("}}");
    reveal_strlit("{}}");
    reveal_strlit(":{}}");
    reveal_strlit("{\"bow_id\":");
    reveal_strlit("{\"series_id\":");
    reveal_strlit("{\"measure_id\":");
    reveal_strlit(":{\"bow_id\":");
    reveal_strlit(":{\"series_id\":");
    reveal_strlit(":{\"measure_id\":");
    reveal_strlit("listbows");
    reveal_strlit("listmeasureseries");
    reveal_strlit("listarrows");
    reveal_strlit("listmeasures");
    reveal_strlit("listmeasurepoints");
    reveal_strlit("addbow");
    reveal_strlit("addarrow");
    reveal_strlit("newmeasureseries");
    reveal_strlit("startmeasure");
    reveal_strlit("command");
    assert("listbows"@[0] == 'l');
    assert("addarrow"@[0] == 'a');
    assert("listbows"@ != "addarrow"@);
    assert("listmeasureseries"@[11] == 's');
    assert("listmeasurepoints"@[11] == 'p');
    assert("listmeasureseries"@ != "listmeasurepoints"@);
    assert("listmeasures"@[0] == 'l');
    assert("startmeasure"@[0] == 's');
    assert("listmeasures"@ != "startmeasure"@);
    let tg = "addarrow"@;
    assert(enc_request(r) =~= "{"@ + (enc_string(tg) + (":"@ + (enc_arrow(a) + "}"@))));
    l_has_split(s, i, "{"@, enc_string(tg) + (":"@ + (enc_arrow(a) + "}"@)));
    let i1 = i + 1;
    l_has_split(s, i1, enc_string(tg), ":"@ + (enc_arrow(a) + "}"@));
    assert(text_ok(tg));
    l_sp_string_enc(s, i1, tg);
    let i2 = i1 + enc_string(tg).len();
    l_has_split(s, i2, ":"@, enc_arrow(a) + "}"@);
    let i3 = i2 + 1;
    l_has_split(s, i3, enc_arrow(a), "}"@);
    l_sp_arrow_enc(s, i3, a);
}

/// One request variant, placed, parses back to itself.
#[verifier::rlimit(100)]
proof fn l_sp_request_enc_newmeasureseries(s: Seq<char>, i: int, v: MeasureSeriesV)
    requires
        has_seq_at(s, i, enc_request(WSRequestV::NewMeasureSeries(v))),
        v.wf(),
    ensures
        sp_request(s, i) == Some((WSRequestV::NewMeasureSeries(v), i + enc_request(WSRequestV::NewMeasureSeries(v)).len())),
{
    let r = WSRequestV::NewMeasureSeries(v);
    reveal_strlit("{");
    reveal_strlit(":");
    reveal_strlit("}");
    reveal_strlit("}}");
    reveal_strlit("{}}");
    reveal_strlit(":{}}");
    reveal_strlit("{\"bow_id\":");
    reveal_strlit("{\"series_id\":");
    reveal_strlit("{\"measure_id\":");
    reveal_strlit(":{\"bow_id\":");
    reveal_strlit(":{\"series_id\":");
    reveal_strlit(":{\"measure_id\":");
    reveal_strlit("listbows");
    reveal_strlit("listmeasureseries");
    reveal_strlit("listarrows");
    reveal_strlit("listmeasures");
    reveal_strlit("listmeasurepoints");
    reveal_strlit("addbow");
    reveal_strlit("addarrow");
    reveal_strlit("newmeasureseries");
    reveal_strlit("startmeasure");
    reveal_strlit("command");
    assert("listbows"@[0] == 'l');
    assert("addarrow"@[0] == 'a');
    assert("listbows"@ != "addarrow"@);
    assert("listmeasureseries"@[11] == 's');
    assert("listmeasurepoints"@[11] == 'p');
    assert("listmeasureseries"@ != "listmeasurepoints"@);
    assert("listmeasures"@[0] == 'l');
    assert("startmeasure"@[0] == 's');
    assert("listmeasures"@ != "startmeasure"@);
    let tg = "newmeasureseries"@;
    assert(enc_request(r) =~= "{"@ + (enc_string(tg) + (":"@ + (enc_series(v) + "}"@))));
    l_has_split(s, i, "{"@, enc_string(tg) + (":"@ + (enc_series(v) + "}"@)));
    let i1 = i + 1;
    l_has_split(s, i1, enc_string(tg), ":"@ + (enc_series(v) + "}"@));
    assert(text_ok(tg));
    l_sp_string_enc(s, i1, tg);
    let i2 = i1 + enc_string(tg).len();
    l_has_split(s, i2, ":"@, enc_series(v) + "}"@);
    let i3 = i2 + 1;
    l_has_split(s, i3, enc_series(v), "}"@);
    l_sp_series_enc(s, i3, v);
}

/// One request variant, placed, parses back to itself.
#[verifier::rlimit(100)]
proof fn l_sp_request_enc_startmeasure(s: Seq<char>, i: int, m: MeasureV)
    requires
        has_seq_at(s, i, enc_request(WSRequestV::StartMeasure(m))),
        m.wf(),
    ensures
        sp_request(s, i) == Some((WSRequestV::StartMeasure(m), i + enc_request(WSRequestV::StartMeasure(m)).len())),
{
    let r = WSRequestV::StartMeasure(m);
    reveal_strlit("{");
    reveal_strlit(":");
    reveal_strlit("}");
    reveal_strlit("}}");
    reveal_strlit("{}}");
    reveal_strlit(":{}}");
    reveal_strlit("{\"bow_id\":");
    reveal_strlit("{\"series_id\":");
    reveal_strlit("{\"measure_id\":");
    reveal_strlit(":{\"bow_id\":");
    reveal_strlit(":{\"series_id\":");
    reveal_strlit(":{\"measure_id\":");
    reveal_strlit("listbows");
    reveal_strlit("listmeasureseries");
    reveal_strlit("listarrows");
    reveal_strlit("listmeasures");
    reveal_strlit("listmeasurepoints");
    reveal_strlit("addbow");
    reveal_strlit("addarrow");
    reveal_strlit("newmeasureseries");
    reveal_strlit("startmeasure");
    reveal_strlit("command");
    assert("listbows"@[0] == 'l');
    assert("addarrow"@[0] == 'a');
    assert("listbows"@ != "addarrow"@);
    assert("listmeasureseries"@[11] == 's');
    assert("listmeasurepoints"@[11] == 'p');
    assert("listmeasureseries"@ != "listmeasurepoints"@);
    assert("listmeasures"@[0] == 'l');
    assert("startmeasure"@[0] == 's');
    assert("listmeasures"@ != "startmeasure"@);
    let tg = "startmeasure"@;
    assert(enc_request(r) =~= "{"@ + (enc_string(tg) + (":"@ + (enc_measure(m) + "}"@))));
    l_has_split(s, i, "{"@, enc_string(tg) + (":"@ + (enc_measure(m) + "}"@)));
    let i1 = i + 1;
    l_has_split(s, i1, enc_string(tg), ":"@ + (enc_measure(m) + "}"@));
    assert(text_ok(tg));
    l_sp_string_enc(s, i1, tg);
    let i2 = i1 + enc_string(tg).len();
    l_has_split(s, i2, ":"@, enc_measure(m) + "}"@);
    let i3 = i2 + 1;
    l_has_split(s, i3, enc_measure(m), "}"@);
    l_sp_measure_enc(s, i3, m);
}

/// One request variant, placed, parses back to itself.
#[verifier::rlimit(100)]
proof fn l_sp_request_enc_command(s: Seq<char>, i: int, c: MachineCommand)
    requires
        has_seq_at(s, i, enc_request(WSRequestV::Command(c))),
    ensures
        sp_request(s, i) == Some((WSRequestV::Command(c), i + enc_request(WSRequestV::Command(c)).len())),
{
    let r = WSRequestV::Command(c);
    reveal_strlit("{");
    reveal_strlit(":");
    reveal_strlit("}");
    reveal_strlit("}}");
    reveal_strlit("{}}");
    reveal_strlit(":{}}");
    reveal_strlit("{\"bow_id\":");
    reveal_strlit("{\"series_id\":");
    reveal_strlit("{\"measure_id\":");
    reveal_strlit(":{\"bow_id\":");
    reveal_strlit(":{\"series_id\":");
    reveal_strlit(":{\"measure_id\":");
    reveal_strlit("listbows");
    reveal_strlit("listmeasureseries");
    reveal_strlit("listarrows");
    reveal_strlit("listmeasures");
    reveal_strlit("listmeasurepoints");
    reveal_strlit("addbow");
    reveal_strlit("addarrow");
    reveal_strlit("newmeasureseries");
    reveal_strlit("startmeasure");
    reveal_strlit("command");
    assert("listbows"@[0] == 'l');
    assert("addarrow"@[0] == 'a');
    assert("listbows"@ != "addarrow"@);
    assert("listmeasureseries"@[11] == 's');
    assert("listmeasurepoints"@[11] == 'p');
    assert("listmeasureseries"@ != "listmeasurepoints"@);
    assert("listmeasures"@[0] == 'l');
    assert("startmeasure"@[0] == 's');
    assert("listmeasures"@ != "startmeasure"@);
    let tg = "command"@;
    assert(enc_request(r) =~= "{"@ + (enc_string(tg) + (":"@ + (enc_command(c) + "}"@))));
    l_has_split(s, i, "{"@, enc_string(tg) + (":"@ + (enc_command(c) + "}"@)));
    let i1 = i + 1;
    l_has_split(s, i1, enc_string(tg), ":"@ + (enc_command(c) + "}"@));
    assert(text_ok(tg));
    l_sp_string_enc(s, i1, tg);
    let i2 = i1 + enc_string(tg).len();
    l_has_split(s, i2, ":"@, enc_command(c) + "}"@);
    let i3 = i2 + 1;
    l_has_split(s, i3, enc_command(c), "}"@);
    l_sp_command_enc(s, i3, c);
}

/// A placed request payload parses back to itself.
proof fn l_sp_request_enc(s: Seq<char>, i: int, r: WSRequestV)
    requires
        has_seq_at(s, i, enc_request(r)),
        r.wf(),
    ensures
        sp_request(s, i) == Some((r, i + enc_request(r).len())),
{
    match r {
        WSRequestV::ListBows => l_sp_request_enc_listbows(s, i),
        WSRequestV::ListMeasureSeries { bow_id } => l_sp_request_enc_listmeasureseries(s, i, bow_id),
        WSRequestV::ListArrows { bow_id } => l_sp_request_enc_listarrows(s, i, bow_id),
        WSRequestV::ListMeasures { series_id } => l_sp_request_enc_listmeasures(s, i, series_id),
        WSRequestV::ListMeasurePoints { measure_id } => l_sp_request_enc_listmeasurepoints(s, i, measure_id),
        WSRequestV::AddBow(b) => l_sp_request_enc_addbow(s, i, b),
        WSRequestV::AddArrow(a) => l_sp_request_enc_addarrow(s, i, a),
        WSRequestV::NewMeasureSeries(v) => l_sp_request_enc_newmeasureseries(s, i, v),
        WSRequestV::StartMeasure(m) => l_sp_request_enc_startmeasure(s, i, m),
        WSRequestV::Command(c) => l_sp_request_enc_command(s, i, c),
    }
}

/// One update variant, placed, parses back to itself.
#[verifier::rlimit(100)]
proof fn l_sp_update_enc_alive(s: Seq<char>, i: int)
    requires
        has_seq_at(s, i, enc_update(WSUpdateV::Alive)),
    ensures
        sp_update(s, i) == Some((WSUpdateV::Alive, i + enc_update(WSUpdateV::Alive).len())),
{
    let u = WSUpdateV::Alive;
    reveal_strlit("{");
    reveal_strlit(":");
    reveal_strlit("}");
    reveal_strlit("{}}");
    reveal_strlit(":{}}");
    reveal_strlit("alive");
    reveal_strlit("bowlist");
    reveal_strlit("measureserieslist");
    reveal_strlit("arrowlist");
    reveal_strlit("measurelist");
    reveal_strlit("measurepointlist");
    reveal_strlit("status");
    reveal_strlit("error");
    assert("alive"@[0] == 'a');
    assert("error"@[0] == 'e');
    assert("alive"@ != "error"@);
    let tg = "alive"@;
    assert(enc_update(u) =~= "{"@ + (enc_string(tg) + (":"@ + "{}}"@)));
    l_has_split(s, i, "{"@, enc_string(tg) + (":"@ + "{}}"@));
    let i1 = i + 1;
    l_has_split(s, i1, enc_string(tg), ":"@ + "{}}"@);
    assert(text_ok(tg));
    l_sp_string_enc(s, i1, tg);
    let i2 = i1 + enc_string(tg).len();
    l_has_split(s, i2, ":"@, "{}}"@);
}

/// One update variant, placed, parses back to itself.
#[verifier::rlimit(100)]
proof fn l_sp_update_enc_bowlist(s: Seq<char>, i: int, l: Seq<BowV>)
    requires
        has_seq_at(s, i, enc_update(WSUpdateV::BowList(l))),
        bows_wf(l),
    ensures
        sp_update(s, i) == Some((WSUpdateV::BowList(l), i + enc_update(WSUpdateV::BowList(l)).len())),
{
    let u = WSUpdateV::BowList(l);
    reveal_strlit("{");
    reveal_strlit(":");
    reveal_strlit("}");
    reveal_strlit("{}}");
    reveal_strlit(":{}}");
    reveal_strlit("alive");
    reveal_strlit("bowlist");
    reveal_strlit("measureserieslist");
    reveal_strlit("arrowlist");
    reveal_strlit("measurelist");
    reveal_strlit("measurepointlist");
    reveal_strlit("status");
    reveal_strlit("error");
    assert("alive"@[0] == 'a');
    assert("error"@[0] == 'e');
    assert("alive"@ != "error"@);
    let tg = "bowlist"@;
    assert(enc_update(u) =~= "{"@ + (enc_string(tg) + (":"@ + (enc_bow_list(l) + "}"@))));
    l_has_split(s, i, "{"@, enc_string(tg) + (":"@ + (enc_bow_list(l) + "}"@)));
    let i1 = i + 1;
    l_has_split(s, i1, enc_string(tg), ":"@ + (enc_bow_list(l) + "}"@));
    assert(text_ok(tg));
    l_sp_string_enc(s, i1, tg);
    let i2 = i1 + enc_string(tg).len();
    l_has_split(s, i2, ":"@, enc_bow_list(l) + "}"@);
    let i3 = i2 + 1;
    l_has_split(s, i3, enc_bow_list(l), "}"@);
    l_sp_bow_list_enc(s, i3, l);
}

/// One update variant, placed, parses back to itself.
#[verifier::rlimit(100)]
proof fn l_sp_update_enc_serieslist(s: Seq<char>, i: int, l: Seq<MeasureSeriesV>)
    requires
        has_seq_at(s, i, enc_update(WSUpdateV::MeasureSeriesList(l))),
        series_list_wf(l),
    ensures
        sp_update(s, i) == Some((WSUpdateV::MeasureSeriesList(l), i + enc_update(WSUpdateV::MeasureSeriesList(l)).len())),
{
    let u = WSUpdateV::MeasureSeriesList(l);
    reveal_strlit("{");
    reveal_strlit(":");
    reveal_strlit("}");
    reveal_strlit("{}}");
    reveal_strlit(":{}}");
    reveal_strlit("alive");
    reveal_strlit("bowlist");
    reveal_strlit("measureserieslist");
    reveal_strlit("arrowlist");
    reveal_strlit("measurelist");
    reveal_strlit("measurepointlist");
    reveal_strlit("status");
    reveal_strlit("error");
    assert("alive"@[0] == 'a');
    assert("error"@[0] == 'e');
    assert("alive"@ != "error"@);
    let tg = "measureserieslist"@;
    assert(enc_update(u) =~= "{"@ + (enc_string(tg) + (":"@ + (enc_series_list(l) + "}"@))));
    l_has_split(s, i, "{"@, enc_string(tg) + (":"@ + (enc_series_list(l) + "}"@)));
    let i1 = i + 1;
    l_has_split(s, i1, enc_string(tg), ":"@ + (enc_series_list(l) + "}"@));
    assert(text_ok(tg));
    l_sp_string_enc(s, i1, tg);
    let i2 = i1 + enc_string(tg).len();
    l_has_split(s, i2, ":"@, enc_series_list(l) + "}"@);
    let i3 = i2 + 1;
    l_has_split(s, i3, enc_series_list(l), "}"@);
    l_sp_series_list_enc(s, i3, l);
}

/// One update variant, placed, parses back to itself.
#[verifier::rlimit(100)]
proof fn l_sp_update_enc_arrowlist(s: Seq<char>, i: int, l: Seq<ArrowV>)
    requires
        has_seq_at(s, i, enc_update(WSUpdateV::ArrowList(l))),
        arrows_wf(l),
    ensures
        sp_update(s, i) == Some((WSUpdateV::ArrowList(l), i + enc_update(WSUpdateV::ArrowList(l)).len())),
{
    let u = WSUpdateV::ArrowList(l);
    reveal_strlit("{");
    reveal_strlit(":");
    reveal_strlit("}");
    reveal_strlit("{}}");
    reveal_strlit(":{}}");
    reveal_strlit("alive");
    reveal_strlit("bowlist");
    reveal_strlit("measureserieslist");
    reveal_strlit("arrowlist");
    reveal_strlit("measurelist");
    reveal_strlit("measurepointlist");
    reveal_strlit("status");
    reveal_strlit("error");
    assert("alive"@[0] == 'a');
    assert("error"@[0] == 'e');
    assert("alive"@ != "error"@);
    let tg = "arrowlist"@;
    assert(enc_update(u) =~= "{"@ + (enc_string(tg) + (":"@ + (enc_arrow_list(l) + "}"@))));
    l_has_split(s, i, "{"@, enc_string(tg) + (":"@ + (enc_arrow_list(l) + "}"@)));
    let i1 = i + 1;
    l_has_split(s, i1, enc_string(tg), ":"@ + (enc_arrow_list(l) + "}"@));
    assert(text_ok(tg));
    l_sp_string_enc(s, i1, tg);
    let i2 = i1 + enc_string(tg).len();
    l_has_split(s, i2, ":"@, enc_arrow_list(l) + "}"@);
    let i3 = i2 + 1;
    l_has_split(s, i3, enc_arrow_list(l), "}"@);
    l_sp_arrow_list_enc(s, i3, l);
}

/// One update variant, placed, parses back to itself.
#[verifier::rlimit(100)]
proof fn l_sp_update_enc_measurelist(s: Seq<char>, i: int, l: Seq<MeasureV>)
    requires
        has_seq_at(s, i, enc_update(WSUpdateV::MeasureList(l))),
        measures_wf(l),
    ensures
        sp_update(s, i) == Some((WSUpdateV::MeasureList(l), i + enc_update(WSUpdateV::MeasureList(l)).len())),
{
    let u = WSUpdateV::MeasureList(l);
    reveal_strlit("{");
    reveal_strlit(":");
    reveal_strlit("}");
    reveal_strlit("{}}");
    reveal_strlit(":{}}");
    reveal_strlit("alive");
    reveal_strlit("bowlist");
    reveal_strlit("measureserieslist");
    reveal_strlit("arrowlist");
    reveal_strlit("measurelist");
    reveal_strlit("measurepointlist");
    reveal_strlit("status");
    reveal_strlit("error");
    assert("alive"@[0] == 'a');
    assert("error"@[0] == 'e');
    assert("alive"@ != "error"@);
    let tg = "measurelist"@;
    assert(enc_update(u) =~= "{"@ + (enc_string(tg) + (":"@ + (enc_measure_list(l) + "}"@))));
    l_has_split(s, i, "{"@, enc_string(tg) + (":"@ + (enc_measure_list(l) + "}"@)));
    let i1 = i + 1;
    l_has_split(s, i1, enc_string(tg), ":"@ + (enc_measure_list(l) + "}"@));
    assert(text_ok(tg));
    l_sp_string_enc(s, i1, tg);
    let i2 = i1 + enc_string(tg).len();
    l_has_split(s, i2, ":"@, enc_measure_list(l) + "}"@);
    let i3 = i2 + 1;
    l_has_split(s, i3, enc_measure_list(l), "}"@);
    l_sp_measure_list_enc(s, i3, l);
}

/// One update variant, placed, parses back to itself.
#[verifier::rlimit(100)]
proof fn l_sp_update_enc_pointlist(s: Seq<char>, i: int, l: Seq<MeasurePointV>)
    requires
        has_seq_at(s, i, enc_update(WSUpdateV::MeasurePointList(l))),
        points_wf(l),
    ensures
        sp_update(s, i) == Some((WSUpdateV::MeasurePointList(l), i + enc_update(WSUpdateV::MeasurePointList(l)).len())),
{
    let u = WSUpdateV::MeasurePointList(l);
    reveal_strlit("{");
    reveal_strlit(":");
    reveal_strlit("}");
    reveal_strlit("{}}");
    reveal_strlit(":{}}");
    reveal_strlit("alive");
    reveal_strlit("bowlist");
    reveal_strlit("measureserieslist");
    reveal_strlit("arrowlist");
    reveal_strlit("measurelist");
    reveal_strlit("measurepointlist");
    reveal_strlit("status");
    reveal_strlit("error");
    assert("alive"@[0] == 'a');
    assert("error"@[0] == 'e');
    assert("alive"@ != "error"@);
    let tg = "measurepointlist"@;
    assert(enc_update(u) =~= "{"@ + (enc_string(tg) + (":"@ + (enc_point_list(l) + "}"@))));
    l_has_split(s, i, "{"@, enc_string(tg) + (":"@ + (enc_point_list(l) + "}"@)));
    let i1 = i + 1;
    l_has_split(s, i1, enc_string(tg), ":"@ + (enc_point_list(l) + "}"@));
    assert(text_ok(tg));
    l_sp_string_enc(s, i1, tg);
    let i2 = i1 + enc_string(tg).len();
    l_has_split(s, i2, ":"@, enc_point_list(l) + "}"@);
    let i3 = i2 + 1;
    l_has_split(s, i3, enc_point_list(l), "}"@);
    l_sp_point_list_enc(s, i3, l);
}

/// One update variant, placed, parses back to itself.
#[verifier::rlimit(100)]
proof fn l_sp_update_enc_status(s: Seq<char>, i: int, st: MachineStatus)
    requires
        has_seq_at(s, i, enc_update(WSUpdateV::Status(st))),
    ensures
        sp_update(s, i) == Some((WSUpdateV::Status(st), i + enc_update(WSUpdateV::Status(st)).len())),
{
    let u = WSUpdateV::Status(st);
    reveal_strlit("{");
    reveal_strlit(":");
    reveal_strlit("}");
    reveal_strlit("{}}");
    reveal_strlit(":{}}");
    reveal_strlit("alive");
    reveal_strlit("bowlist");
    reveal_strlit("measureserieslist");
    reveal_strlit("arrowlist");
    reveal_strlit("measurelist");
    reveal_strlit("measurepointlist");
    reveal_strlit("status");
    reveal_strlit("error");
    assert("alive"@[0] == 'a');
    assert("error"@[0] == 'e');
    assert("alive"@ != "error"@);
    let tg = "status"@;
    assert(enc_update(u) =~= "{"@ + (enc_string(tg) + (":"@ + (enc_status(st) + "}"@))));
    l_has_split(s, i, "{"@, enc_string(tg) + (":"@ + (enc_status(st) + "}"@)));
    let i1 = i + 1;
    l_has_split(s, i1, enc_string(tg), ":"@ + (enc_status(st) + "}"@));
    assert(text_ok(tg));
    l_sp_string_enc(s, i1, tg);
    let i2 = i1 + enc_string(tg).len();
    l_has_split(s, i2, ":"@, enc_status(st) + "}"@);
    let i3 = i2 + 1;
    l_has_split(s, i3, enc_status(st), "}"@);
    l_sp_status_enc(s, i3, st);
}

/// One update variant, placed, parses back to itself.
#[verifier::rlimit(100)]
proof fn l_sp_update_enc_error(s: Seq<char>, i: int, m: Seq<char>)
    requires
        has_seq_at(s, i, enc_update(WSUpdateV::Error(m))),
        text_ok(m),
    ensures
        sp_update(s, i) == Some((WSUpdateV::Error(m), i + enc_update(WSUpdateV::Error(m)).len())),
{
    let u = WSUpdateV::Error(m);
    reveal_strlit("{");
    reveal_strlit(":");
    reveal_strlit("}");
    reveal_strlit("{}}");
    reveal_strlit(":{}}");
    reveal_strlit("alive");
    reveal_strlit("bowlist");
    reveal_strlit("measureserieslist");
    reveal_strlit("arrowlist");
    reveal_strlit("measurelist");
    reveal_strlit("measurepointlist");
    reveal_strlit("status");
    reveal_strlit("error");
    assert("alive"@[0] == 'a');
    assert("error"@[0] == 'e');
    assert("alive"@ != "error"@);
    let tg = "error"@;
    assert(enc_update(u) =~= "{"@ + (enc_string(tg) + (":"@ + (enc_string(m) + "}"@))));
    l_has_split(s, i, "{"@, enc_string(tg) + (":"@ + (enc_string(m) + "}"@)));
    let i1 = i + 1;
    l_has_split(s, i1, enc_string(tg), ":"@ + (enc_string(m) + "}"@));
    assert(text_ok(tg));
    l_sp_string_enc(s, i1, tg);
    let i2 = i1 + enc_string(tg).len();
    l_has_split(s, i2, ":"@, enc_string(m) + "}"@);
    let i3 = i2 + 1;
    l_has_split(s, i3, enc_string(m), "}"@);
    l_sp_string_enc(s, i3, m);
}

/// A placed update payload parses back to itself.
proof fn l_sp_update_enc(s: Seq<char>, i: int, u: WSUpdateV)
    requires
        has_seq_at(s, i, enc_update(u)),
        u.wf(),
    ensures
        sp_update(s, i) == Some((u, i + enc_update(u).len())),
{
    match u {
        WSUpdateV::Alive => l_sp_update_enc_alive(s, i),
        WSUpdateV::BowList(l) => l_sp_update_enc_bowlist(s, i, l),
        WSUpdateV::MeasureSeriesList(l) => l_sp_update_enc_serieslist(s, i, l),
        WSUpdateV::ArrowList(l) => l_sp_update_enc_arrowlist(s, i, l),
        WSUpdateV::MeasureList(l) => l_sp_update_enc_measurelist(s, i, l),
        WSUpdateV::MeasurePointList(l) => l_sp_update_enc_pointlist(s, i, l),
        WSUpdateV::Status(st) => l_sp_update_enc_status(s, i, st),
        WSUpdateV::Error(m) => l_sp_update_enc_error(s, i, m),
    }
}

/// One envelope variant, placed, parses back to itself.
#[verifier::rlimit(100)]
proof fn l_sp_message_enc_request(s: Seq<char>, i: int, r: WSRequestV)
    requires
        has_seq_at(s, i, enc_message(WSMessageV::Request(r))),
        r.wf(),
    ensures
        sp_message(s, i) == Some((WSMessageV::Request(r), i + enc_message(WSMessageV::Request(r)).len())),
{
    let m = WSMessageV::Request(r);
    reveal_strlit("{");
    reveal_strlit(":");
    reveal_strlit("}");
    reveal_strlit("request");
    reveal_strlit("update");
    reveal_strlit("response");
    let tg = "request"@;
    assert(enc_message(m) =~= "{"@ + (enc_string(tg) + (":"@ + (enc_request(r) + "}"@))));
    l_has_split(s, i, "{"@, enc_string(tg) + (":"@ + (enc_request(r) + "}"@)));
    let i1 = i + 1;
    l_has_split(s, i1, enc_string(tg), ":"@ + (enc_request(r) + "}"@));
    assert(text_ok(tg));
    l_sp_string_enc(s, i1, tg);
    let i2 = i1 + enc_string(tg).len();
    l_has_split(s, i2, ":"@, enc_request(r) + "}"@);
    let i3 = i2 + 1;
    l_has_split(s, i3, enc_request(r), "}"@);
    l_sp_request_enc(s, i3, r);
}

/// One envelope variant, placed, parses back to itself.
#[verifier::rlimit(100)]
proof fn l_sp_message_enc_update(s: Seq<char>, i: int, u: WSUpdateV)
    requires
        has_seq_at(s, i, enc_message(WSMessageV::Update(u))),
        u.wf(),
    ensures
        sp_message(s, i) == Some((WSMessageV::Update(u), i + enc_message(WSMessageV::Update(u)).len())),
{
    let m = WSMessageV::Update(u);
    reveal_strlit("{");
    reveal_strlit(":");
    reveal_strlit("}");
    reveal_strlit("request");
    reveal_strlit("update");
    reveal_strlit("response");
    let tg = "update"@;
    assert(enc_message(m) =~= "{"@ + (enc_string(tg) + (":"@ + (enc_update(u) + "}"@))));
    l_has_split(s, i, "{"@, enc_string(tg) + (":"@ + (enc_update(u) + "}"@)));
    let i1 = i + 1;
    l_has_split(s, i1, enc_string(tg), ":"@ + (enc_update(u) + "}"@));
    assert(text_ok(tg));
    l_sp_string_enc(s, i1, tg);
    let i2 = i1 + enc_string(tg).len();
    l_has_split(s, i2, ":"@, enc_update(u) + "}"@);
    let i3 = i2 + 1;
    l_has_split(s, i3, enc_update(u), "}"@);
    l_sp_update_enc(s, i3, u);
}

/// One envelope variant, placed, parses back to itself.
#[verifier::rlimit(100)]
proof fn l_sp_message_enc_response(s: Seq<char>, i: int, u: WSUpdateV)
    requires
        has_seq_at(s, i, enc_message(WSMessageV::Response(u))),
        u.wf(),
    ensures
        sp_message(s, i) == Some((WSMessageV::Response(u), i + enc_message(WSMessageV::Response(u)).len())),
{
    let m = WSMessageV::Response(u);
    reveal_strlit("{");
    reveal_strlit(":");
    reveal_strlit("}");
    reveal_strlit("request");
    reveal_strlit("update");
    reveal_strlit("response");
    let tg = "response"@;
    assert(enc_message(m) =~= "{"@ + (enc_string(tg) + (":"@ + (enc_update(u) + "}"@))));
    l_has_split(s, i, "{"@, enc_string(tg) + (":"@ + (enc_update(u) + "}"@)));
    let i1 = i + 1;
    l_has_split(s, i1, enc_string(tg), ":"@ + (enc_update(u) + "}"@));
    assert(text_ok(tg));
    l_sp_string_enc(s, i1, tg);
    let i2 = i1 + enc_string(tg).len();
    l_has_split(s, i2, ":"@, enc_update(u) + "}"@);
    let i3 = i2 + 1;
    l_has_split(s, i3, enc_update(u), "}"@);
    l_sp_update_enc(s, i3, u);
}

/// A placed envelope parses back to itself.
proof fn l_sp_message_enc(s: Seq<char>, i: int, m: WSMessageV)
    requires
        has_seq_at(s, i, enc_message(m)),
        m.wf(),
    ensures
        sp_message(s, i) == Some((m, i + enc_message(m).len())),
{
    match m {
        WSMessageV::Request(r) => l_sp_message_enc_request(s, i, r),
        WSMessageV::Update(u) => l_sp_message_enc_update(s, i, u),
        WSMessageV::Response(u) => l_sp_message_enc_response(s, i, u),
    }
}
/// The round-trip law of the codec: the canonical text of any well-formed
/// envelope decodes to that envelope again.
pub proof fn lemma_codec_round_trip(m: WSMessageV)
    requires
        m.wf(),
    ensures
        sp_decode(enc_message(m)) == Some(m),
{
    let s = enc_message(m);
    assert(s.subrange(0, s.len() as int) =~= s);
    l_sp_message_enc(s, 0, m);
}

} // verus!
