//! Executable encoder: builds the canonical text of an envelope, exactly as
//! the wire grammar specifies it.

use crate::message::MachineCommand;
use crate::message::WSMessage;
use crate::message::WSRequest;
use crate::message::WSUpdate;
use crate::message::bows_wf;
use crate::message::arrows_wf;
use crate::message::measures_wf;
use crate::message::points_wf;
use crate::message::series_list_wf;
use crate::message::WSMessageV;
use crate::message::WSUpdateV;
use crate::models::id_ok;
use crate::models::int_ok;
use crate::models::milli_ok;
use crate::models::opt_milli_ok;
use crate::models::opt_text_ok;
use crate::models::text_char_ok;
use crate::models::text_ok;
use crate::models::ID_LIMIT;
use vstd::string::StrSliceExecFns;
use crate::models::seq_view;
use crate::models::Arrow;
use crate::models::Bow;
use crate::models::MachineStatus;
use crate::models::Measure;
use crate::models::MeasurePoint;
use crate::models::MeasureSeries;
use crate::models::INT_LIMIT;
use crate::models::MILLI_LIMIT;
use crate::wire::dec_digits;
use crate::wire::digit_char;
use crate::wire::enc_arrow;
use crate::wire::enc_arrow_items;
use crate::wire::enc_arrow_list;
use crate::wire::enc_bow;
use crate::wire::enc_bow_items;
use crate::wire::enc_bow_list;
use crate::wire::enc_command;
use crate::wire::enc_int;
use crate::wire::enc_measure;
use crate::wire::enc_measure_items;
use crate::wire::enc_measure_list;
use crate::wire::enc_message;
use crate::wire::enc_milli;
use crate::wire::enc_opt_milli;
use crate::wire::enc_opt_string;
use crate::wire::enc_point;
use crate::wire::enc_point_items;
use crate::wire::enc_point_list;
use crate::wire::enc_request;
use crate::wire::enc_series;
use crate::wire::enc_series_items;
use crate::wire::enc_series_list;
use crate::wire::enc_status;
use crate::wire::enc_string;
use crate::wire::enc_update;
use vstd::prelude::*;
use vstd::string::StringExecFns;

verus! {

/// One decimal digit as text.
fn digit_str(d: u64) -> (r: &'static str)
    requires
        d < 10,
    ensures
        r@ == seq![digit_char(d as int)],
{
    if d == 0 {
        proof {
            reveal_strlit("0");
            assert("0"@ =~= seq![digit_char(0)]);
        }
        "0"
    } else if d == 1 {
        proof {
            reveal_strlit("1");
            assert("1"@ =~= seq![digit_char(1)]);
        }
        "1"
    } else if d == 2 {
        proof {
            reveal_strlit("2");
            assert("2"@ =~= seq![digit_char(2)]);
        }
        "2"
    } else if d == 3 {
        proof {
            reveal_strlit("3");
            assert("3"@ =~= seq![digit_char(3)]);
        }
        "3"
    } else if d == 4 {
        proof {
            reveal_strlit("4");
            assert("4"@ =~= seq![digit_char(4)]);
        }
        "4"
    } else if d == 5 {
        proof {
            reveal_strlit("5");
            assert("5"@ =~= seq![digit_char(5)]);
        }
        "5"
    } else if d == 6 {
        proof {
            reveal_strlit("6");
            assert("6"@ =~= seq![digit_char(6)]);
        }
        "6"
    } else if d == 7 {
        proof {
            reveal_strlit("7");
            assert("7"@ =~= seq![digit_char(7)]);
        }
        "7"
    } else if d == 8 {
        proof {
            reveal_strlit("8");
            assert("8"@ =~= seq![digit_char(8)]);
        }
        "8"
    } else {
        proof {
            reveal_strlit("9");
            assert("9"@ =~= seq![digit_char(9)]);
        }
        "9"
    }
}

/// Appends the decimal numeral of `n`.
fn push_digits(out: &mut String, n: u64)
    ensures
        final(out)@ == old(out)@ + dec_digits(n as nat),
    decreases n,
{
    if n < 10 {
        out.append(digit_str(n));
    } else {
        push_digits(out, n / 10);
        out.append(digit_str(n % 10));
        assert(out@ =~= old(out)@ + dec_digits(n as nat));
    }
}

/// Appends the canonical text of a plain integer.
fn push_int(out: &mut String, v: i64)
    requires
        -(INT_LIMIT as int) <= v <= INT_LIMIT as int,
    ensures
        final(out)@ == old(out)@ + enc_int(v as int),
{
    if v < 0 {
        out.append("-");
        let m = -v;
        push_digits(out, m as u64);
        assert(out@ =~= old(out)@ + enc_int(v as int));
    } else {
        push_digits(out, v as u64);
    }
}

/// Appends the canonical text of a fixed-point quantity.
fn push_milli(out: &mut String, v: i64)
    requires
        -(MILLI_LIMIT as int) <= v <= MILLI_LIMIT as int,
    ensures
        final(out)@ == old(out)@ + enc_milli(v as int),
{
    let m: i64 = if v < 0 {
        out.append("-");
        -v
    } else {
        v
    };
    let q: i64 = m / 1000;
    let f: i64 = m % 1000;
    push_digits(out, q as u64);
    out.append(".");
    out.append(digit_str((f / 100) as u64));
    out.append(digit_str(((f / 10) % 10) as u64));
    out.append(digit_str((f % 10) as u64));
    assert(out@ =~= old(out)@ + enc_milli(v as int));
}

/// Appends the canonical text of a quoted text field.
fn push_text(out: &mut String, t: &str)
    ensures
        final(out)@ == old(out)@ + enc_string(t@),
{
    out.append("\"");
    out.append(t);
    out.append("\"");
    assert(out@ =~= old(out)@ + enc_string(t@));
}

/// Appends the canonical text of an optional fixed-point quantity.
fn push_opt_milli(out: &mut String, v: &Option<i64>)
    requires
        match v {
            Some(m) => -(MILLI_LIMIT as int) <= *m <= MILLI_LIMIT as int,
            None => true,
        },
    ensures
        final(out)@ == old(out)@ + enc_opt_milli(
            match v {
                Some(m) => Some(*m as int),
                None => None,
            },
        ),
{
    match v {
        Some(m) => push_milli(out, *m),
        None => out.append("null"),
    }
}

/// Appends the canonical text of an optional text field.
fn push_opt_text(out: &mut String, t: &Option<String>)
    ensures
        final(out)@ == old(out)@ + enc_opt_string(
            match t {
                Some(u) => Some(u@),
                None => None,
            },
        ),
{
    match t {
        Some(u) => push_text(out, u.as_str()),
        None => out.append("null"),
    }
}

/// Appends the canonical text of an equipment unit.
#[verifier::rlimit(50)]
fn push_bow(out: &mut String, b: &Bow)
    requires
        b@.wf(),
    ensures
        final(out)@ == old(out)@ + enc_bow(b@),
{
    out.append("{\"id\":");
    push_int(out, b.id as i64);
    assert(out@ =~= old(out)@ + ("{\"id\":"@ + enc_int(b@.id)));
    out.append(",\"name\":");
    push_text(out, b.name.as_str());
    assert(out@ =~= old(out)@ + ("{\"id\":"@ + enc_int(b@.id) + ",\"name\":"@ + enc_string(
        b@.name,
    )));
    out.append(",\"max_draw_distance\":");
    push_milli(out, b.max_draw_distance);
    assert(out@ =~= old(out)@ + ("{\"id\":"@ + enc_int(b@.id) + ",\"name\":"@ + enc_string(
        b@.name,
    ) + ",\"max_draw_distance\":"@ + enc_milli(b@.max_draw_distance)));
    out.append(",\"remainder_arrow_length\":");
    push_milli(out, b.remainder_arrow_length);
    out.append("}");
    assert(out@ =~= old(out)@ + enc_bow(b@));
}

/// Appends the canonical text of a measurement series.
#[verifier::rlimit(50)]
fn push_series(out: &mut String, v: &MeasureSeries)
    requires
        v@.wf(),
    ensures
        final(out)@ == old(out)@ + enc_series(v@),
{
    out.append("{\"id\":");
    push_int(out, v.id as i64);
    assert(out@ =~= old(out)@ + ("{\"id\":"@ + enc_int(v@.id)));
    out.append(",\"name\":");
    push_text(out, v.name.as_str());
    assert(out@ =~= old(out)@ + ("{\"id\":"@ + enc_int(v@.id) + ",\"name\":"@ + enc_string(
        v@.name,
    )));
    out.append(",\"rest_position\":");
    push_milli(out, v.rest_position);
    assert(out@ =~= old(out)@ + ("{\"id\":"@ + enc_int(v@.id) + ",\"name\":"@ + enc_string(
        v@.name,
    ) + ",\"rest_position\":"@ + enc_milli(v@.rest_position)));
    out.append(",\"draw_distance\":");
    push_opt_milli(out, &v.draw_distance);
    assert(out@ =~= old(out)@ + ("{\"id\":"@ + enc_int(v@.id) + ",\"name\":"@ + enc_string(
        v@.name,
    ) + ",\"rest_position\":"@ + enc_milli(v@.rest_position) + ",\"draw_distance\":"@
        + enc_opt_milli(v@.draw_distance)));
    out.append(",\"draw_force\":");
    push_opt_milli(out, &v.draw_force);
    assert(out@ =~= old(out)@ + ("{\"id\":"@ + enc_int(v@.id) + ",\"name\":"@ + enc_string(
        v@.name,
    ) + ",\"rest_position\":"@ + enc_milli(v@.rest_position) + ",\"draw_distance\":"@
        + enc_opt_milli(v@.draw_distance) + ",\"draw_force\":"@ + enc_opt_milli(v@.draw_force)));
    out.append(",\"time\":");
    push_int(out, v.time);
    assert(out@ =~= old(out)@ + ("{\"id\":"@ + enc_int(v@.id) + ",\"name\":"@ + enc_string(
        v@.name,
    ) + ",\"rest_position\":"@ + enc_milli(v@.rest_position) + ",\"draw_distance\":"@
        + enc_opt_milli(v@.draw_distance) + ",\"draw_force\":"@ + enc_opt_milli(v@.draw_force)
        + ",\"time\":"@ + enc_int(v@.time)));
    out.append(",\"bow_id\":");
    push_int(out, v.bow_id as i64);
    out.append("}");
    assert(out@ =~= old(out)@ + enc_series(v@));
}

/// Appends the canonical text of a projectile.
#[verifier::rlimit(50)]
fn push_arrow(out: &mut String, a: &Arrow)
    requires
        a@.wf(),
    ensures
        final(out)@ == old(out)@ + enc_arrow(a@),
{
    out.append("{\"id\":");
    push_int(out, a.id as i64);
    assert(out@ =~= old(out)@ + ("{\"id\":"@ + enc_int(a@.id)));
    out.append(",\"name\":");
    push_opt_text(out, &a.name);
    assert(out@ =~= old(out)@ + ("{\"id\":"@ + enc_int(a@.id) + ",\"name\":"@ + enc_opt_string(a@.name)));
    out.append(",\"head_weight\":");
    push_opt_milli(out, &a.head_weight);
    assert(out@ =~= old(out)@ + ("{\"id\":"@ + enc_int(a@.id) + ",\"name\":"@ + enc_opt_string(a@.name) + ",\"head_weight\":"@ + enc_opt_milli(a@.head_weight)));
    out.append(",\"spline\":");
    push_opt_milli(out, &a.spline);
    assert(out@ =~= old(out)@ + ("{\"id\":"@ + enc_int(a@.id) + ",\"name\":"@ + enc_opt_string(a@.name) + ",\"head_weight\":"@ + enc_opt_milli(a@.head_weight) + ",\"spline\":"@ + enc_opt_milli(a@.spline)));
    out.append(",\"feather_length\":");
    push_opt_milli(out, &a.feather_length);
    assert(out@ =~= old(out)@ + ("{\"id\":"@ + enc_int(a@.id) + ",\"name\":"@ + enc_opt_string(a@.name) + ",\"head_weight\":"@ + enc_opt_milli(a@.head_weight) + ",\"spline\":"@ + enc_opt_milli(a@.spline) + ",\"feather_length\":"@ + enc_opt_milli(a@.feather_length)));
    out.append(",\"feather_type\":");
    push_opt_text(out, &a.feather_type);
    assert(out@ =~= old(out)@ + ("{\"id\":"@ + enc_int(a@.id) + ",\"name\":"@ + enc_opt_string(a@.name) + ",\"head_weight\":"@ + enc_opt_milli(a@.head_weight) + ",\"spline\":"@ + enc_opt_milli(a@.spline) + ",\"feather_length\":"@ + enc_opt_milli(a@.feather_length) + ",\"feather_type\":"@ + enc_opt_string(a@.feather_type)));
    out.append(",\"length\":");
    push_milli(out, a.length);
    assert(out@ =~= old(out)@ + ("{\"id\":"@ + enc_int(a@.id) + ",\"name\":"@ + enc_opt_string(a@.name) + ",\"head_weight\":"@ + enc_opt_milli(a@.head_weight) + ",\"spline\":"@ + enc_opt_milli(a@.spline) + ",\"feather_length\":"@ + enc_opt_milli(a@.feather_length) + ",\"feather_type\":"@ + enc_opt_string(a@.feather_type) + ",\"length\":"@ + enc_milli(a@.length)));
    out.append(",\"weight\":");
    push_milli(out, a.weight);
    assert(out@ =~= old(out)@ + ("{\"id\":"@ + enc_int(a@.id) + ",\"name\":"@ + enc_opt_string(a@.name) + ",\"head_weight\":"@ + enc_opt_milli(a@.head_weight) + ",\"spline\":"@ + enc_opt_milli(a@.spline) + ",\"feather_length\":"@ + enc_opt_milli(a@.feather_length) + ",\"feather_type\":"@ + enc_opt_string(a@.feather_type) + ",\"length\":"@ + enc_milli(a@.length) + ",\"weight\":"@ + enc_milli(a@.weight)));
    out.append(",\"bow_id\":");
    push_int(out, a.bow_id as i64);
    out.append("}");
    assert(out@ =~= old(out)@ + enc_arrow(a@));
}

/// Appends the canonical text of a measurement run.
#[verifier::rlimit(50)]
fn push_measure(out: &mut String, m: &Measure)
    requires
        m@.wf(),
    ensures
        final(out)@ == old(out)@ + enc_measure(m@),
{
    out.append("{\"id\":");
    push_int(out, m.id as i64);
    out.append(",\"measure_interval\":");
    push_milli(out, m.measure_interval);
    out.append(",\"measure_series_id\":");
    push_int(out, m.measure_series_id as i64);
    out.append(",\"arrow_id\":");
    push_int(out, m.arrow_id as i64);
    out.append("}");
    assert(out@ =~= old(out)@ + enc_measure(m@));
}

/// Appends the canonical text of a sample point.
#[verifier::rlimit(50)]
fn push_point(out: &mut String, p: &MeasurePoint)
    requires
        p@.wf(),
    ensures
        final(out)@ == old(out)@ + enc_point(p@),
{
    out.append("{\"id\":");
    push_int(out, p.id as i64);
    out.append(",\"time\":");
    push_int(out, p.time);
    out.append(",\"draw_distance\":");
    push_milli(out, p.draw_distance);
    out.append(",\"force\":");
    push_milli(out, p.force);
    out.append(",\"measure_id\":");
    push_int(out, p.measure_id as i64);
    out.append("}");
    assert(out@ =~= old(out)@ + enc_point(p@));
}

/// Splitting a non-empty member run at its last record.
proof fn l_enc_bow_items_snoc(l: Seq<crate::models::BowV>, b: crate::models::BowV)
    ensures
        enc_bow_items(l.push(b)) == if l.len() == 0 {
            enc_bow(b)
        } else {
            enc_bow_items(l) + ","@ + enc_bow(b)
        },
    decreases l.len(),
{
    if l.len() == 0 {
        assert(l.push(b) =~= seq![b]);
    } else {
        l_enc_bow_items_snoc(l.drop_first(), b);
        assert(l.push(b).drop_first() =~= l.drop_first().push(b));
        assert(l.push(b)[0] == l[0]);
        if l.len() == 1 {
            assert(enc_bow_items(l.push(b)) =~= enc_bow_items(l) + ","@ + enc_bow(b));
        } else {
            assert(enc_bow_items(l.push(b)) =~= enc_bow_items(l) + ","@ + enc_bow(b));
        }
    }
}

/// Appends the canonical text of an equipment-unit list.
fn push_bow_list(out: &mut String, v: &Vec<Bow>)
    requires
        forall|k: int| 0 <= k < v@.len() ==> (#[trigger] v@[k])@.wf(),
    ensures
        final(out)@ == old(out)@ + enc_bow_list(seq_view(v@)),
{
    out.append("[");
    let ghost base = out@;
    let mut k: usize = 0;
    while k < v.len()
        invariant
            k <= v@.len(),
            forall|m: int| 0 <= m < v@.len() ==> (#[trigger] v@[m])@.wf(),
            out@ == base + enc_bow_items(seq_view(v@).take(k as int)),
        decreases v@.len() - k,
    {
        if k > 0 {
            out.append(",");
        }
        push_bow(out, &v[k]);
        proof {
            l_enc_bow_items_snoc(seq_view(v@).take(k as int), v@[k as int]@);
            assert(seq_view(v@).take(k as int + 1) =~= seq_view(v@).take(k as int).push(
                v@[k as int]@,
            ));
            assert(out@ =~= base + enc_bow_items(seq_view(v@).take(k as int + 1)));
        }
        k = k + 1;
    }
    out.append("]");
    proof {
        assert(seq_view(v@).take(v@.len() as int) =~= seq_view(v@));
        assert(out@ =~= old(out)@ + enc_bow_list(seq_view(v@)));
    }
}

/// Splitting a non-empty member run at its last record.
proof fn l_enc_series_items_snoc(l: Seq<crate::models::MeasureSeriesV>, b: crate::models::MeasureSeriesV)
    ensures
        enc_series_items(l.push(b)) == if l.len() == 0 {
            enc_series(b)
        } else {
            enc_series_items(l) + ","@ + enc_series(b)
        },
    decreases l.len(),
{
    if l.len() == 0 {
        assert(l.push(b) =~= seq![b]);
    } else {
        l_enc_series_items_snoc(l.drop_first(), b);
        assert(l.push(b).drop_first() =~= l.drop_first().push(b));
        assert(l.push(b)[0] == l[0]);
        assert(enc_series_items(l.push(b)) =~= enc_series_items(l) + ","@ + enc_series(b));
    }
}

/// Appends the canonical text of a series list.
fn push_series_list(out: &mut String, v: &Vec<MeasureSeries>)
    requires
        forall|k: int| 0 <= k < v@.len() ==> (#[trigger] v@[k])@.wf(),
    ensures
        final(out)@ == old(out)@ + enc_series_list(seq_view(v@)),
{
    out.append("[");
    let ghost base = out@;
    let mut k: usize = 0;
    while k < v.len()
        invariant
            k <= v@.len(),
            forall|m: int| 0 <= m < v@.len() ==> (#[trigger] v@[m])@.wf(),
            out@ == base + enc_series_items(seq_view(v@).take(k as int)),
        decreases v@.len() - k,
    {
        if k > 0 {
            out.append(",");
        }
        push_series(out, &v[k]);
        proof {
            l_enc_series_items_snoc(seq_view(v@).take(k as int), v@[k as int]@);
            assert(seq_view(v@).take(k as int + 1) =~= seq_view(v@).take(k as int).push(
                v@[k as int]@,
            ));
            assert(out@ =~= base + enc_series_items(seq_view(v@).take(k as int + 1)));
        }
        k = k + 1;
    }
    out.append("]");
    proof {
        assert(seq_view(v@).take(v@.len() as int) =~= seq_view(v@));
        assert(out@ =~= old(out)@ + enc_series_list(seq_view(v@)));
    }
}

/// Splitting a non-empty member run at its last record.
proof fn l_enc_arrow_items_snoc(l: Seq<crate::models::ArrowV>, b: crate::models::ArrowV)
    ensures
        enc_arrow_items(l.push(b)) == if l.len() == 0 {
            enc_arrow(b)
        } else {
            enc_arrow_items(l) + ","@ + enc_arrow(b)
        },
    decreases l.len(),
{
    if l.len() == 0 {
        assert(l.push(b) =~= seq![b]);
    } else {
        l_enc_arrow_items_snoc(l.drop_first(), b);
        assert(l.push(b).drop_first() =~= l.drop_first().push(b));
        assert(l.push(b)[0] == l[0]);
        assert(enc_arrow_items(l.push(b)) =~= enc_arrow_items(l) + ","@ + enc_arrow(b));
    }
}

/// Appends the canonical text of a projectile list.
fn push_arrow_list(out: &mut String, v: &Vec<Arrow>)
    requires
        forall|k: int| 0 <= k < v@.len() ==> (#[trigger] v@[k])@.wf(),
    ensures
        final(out)@ == old(out)@ + enc_arrow_list(seq_view(v@)),
{
    out.append("[");
    let ghost base = out@;
    let mut k: usize = 0;
    while k < v.len()
        invariant
            k <= v@.len(),
            forall|m: int| 0 <= m < v@.len() ==> (#[trigger] v@[m])@.wf(),
            out@ == base + enc_arrow_items(seq_view(v@).take(k as int)),
        decreases v@.len() - k,
    {
        if k > 0 {
            out.append(",");
        }
        push_arrow(out, &v[k]);
        proof {
            l_enc_arrow_items_snoc(seq_view(v@).take(k as int), v@[k as int]@);
            assert(seq_view(v@).take(k as int + 1) =~= seq_view(v@).take(k as int).push(
                v@[k as int]@,
            ));
            assert(out@ =~= base + enc_arrow_items(seq_view(v@).take(k as int + 1)));
        }
        k = k + 1;
    }
    out.append("]");
    proof {
        assert(seq_view(v@).take(v@.len() as int) =~= seq_view(v@));
        assert(out@ =~= old(out)@ + enc_arrow_list(seq_view(v@)));
    }
}

/// Splitting a non-empty member run at its last record.
proof fn l_enc_measure_items_snoc(l: Seq<crate::models::MeasureV>, b: crate::models::MeasureV)
    ensures
        enc_measure_items(l.push(b)) == if l.len() == 0 {
            enc_measure(b)
        } else {
            enc_measure_items(l) + ","@ + enc_measure(b)
        },
    decreases l.len(),
{
    if l.len() == 0 {
        assert(l.push(b) =~= seq![b]);
    } else {
        l_enc_measure_items_snoc(l.drop_first(), b);
        assert(l.push(b).drop_first() =~= l.drop_first().push(b));
        assert(l.push(b)[0] == l[0]);
        assert(enc_measure_items(l.push(b)) =~= enc_measure_items(l) + ","@ + enc_measure(b));
    }
}

/// Appends the canonical text of a run list.
fn push_measure_list(out: &mut String, v: &Vec<Measure>)
    requires
        forall|k: int| 0 <= k < v@.len() ==> (#[trigger] v@[k])@.wf(),
    ensures
        final(out)@ == old(out)@ + enc_measure_list(seq_view(v@)),
{
    out.append("[");
    let ghost base = out@;
    let mut k: usize = 0;
    while k < v.len()
        invariant
            k <= v@.len(),
            forall|m: int| 0 <= m < v@.len() ==> (#[trigger] v@[m])@.wf(),
            out@ == base + enc_measure_items(seq_view(v@).take(k as int)),
        decreases v@.len() - k,
    {
        if k > 0 {
            out.append(",");
        }
        push_measure(out, &v[k]);
        proof {
            l_enc_measure_items_snoc(seq_view(v@).take(k as int), v@[k as int]@);
            assert(seq_view(v@).take(k as int + 1) =~= seq_view(v@).take(k as int).push(
                v@[k as int]@,
            ));
            assert(out@ =~= base + enc_measure_items(seq_view(v@).take(k as int + 1)));
        }
        k = k + 1;
    }
    out.append("]");
    proof {
        assert(seq_view(v@).take(v@.len() as int) =~= seq_view(v@));
        assert(out@ =~= old(out)@ + enc_measure_list(seq_view(v@)));
    }
}

/// Splitting a non-empty member run at its last record.
proof fn l_enc_point_items_snoc(l: Seq<crate::models::MeasurePointV>, b: crate::models::MeasurePointV)
    ensures
        enc_point_items(l.push(b)) == if l.len() == 0 {
            enc_point(b)
        } else {
            enc_point_items(l) + ","@ + enc_point(b)
        },
    decreases l.len(),
{
    if l.len() == 0 {
        assert(l.push(b) =~= seq![b]);
    } else {
        l_enc_point_items_snoc(l.drop_first(), b);
        assert(l.push(b).drop_first() =~= l.drop_first().push(b));
        assert(l.push(b)[0] == l[0]);
        assert(enc_point_items(l.push(b)) =~= enc_point_items(l) + ","@ + enc_point(b));
    }
}

/// Appends the canonical text of a sample-point list.
fn push_point_list(out: &mut String, v: &Vec<MeasurePoint>)
    requires
        forall|k: int| 0 <= k < v@.len() ==> (#[trigger] v@[k])@.wf(),
    ensures
        final(out)@ == old(out)@ + enc_point_list(seq_view(v@)),
{
    out.append("[");
    let ghost base = out@;
    let mut k: usize = 0;
    while k < v.len()
        invariant
            k <= v@.len(),
            forall|m: int| 0 <= m < v@.len() ==> (#[trigger] v@[m])@.wf(),
            out@ == base + enc_point_items(seq_view(v@).take(k as int)),
        decreases v@.len() - k,
    {
        if k > 0 {
            out.append(",");
        }
        push_point(out, &v[k]);
        proof {
            l_enc_point_items_snoc(seq_view(v@).take(k as int), v@[k as int]@);
            assert(seq_view(v@).take(k as int + 1) =~= seq_view(v@).take(k as int).push(
                v@[k as int]@,
            ));
            assert(out@ =~= base + enc_point_items(seq_view(v@).take(k as int + 1)));
        }
        k = k + 1;
    }
    out.append("]");
    proof {
        assert(seq_view(v@).take(v@.len() as int) =~= seq_view(v@));
        assert(out@ =~= old(out)@ + enc_point_list(seq_view(v@)));
    }
}

/// Appends the canonical text of a machine status.
fn push_status(out: &mut String, st: &MachineStatus)
    ensures
        final(out)@ == old(out)@ + enc_status(*st),
{
    match st {
        MachineStatus::Pause => out.append("\"pause\""),
        MachineStatus::Shooting => out.append("\"shooting\""),
        MachineStatus::Error => out.append("\"error\""),
    }
}

/// Appends the canonical text of a machine command.
fn push_command(out: &mut String, c: &MachineCommand)
    ensures
        final(out)@ == old(out)@ + enc_command(*c),
{
    match c {
        MachineCommand::Calibrate => out.append("\"calibrate\""),
        MachineCommand::Reset => out.append("\"reset\""),
        MachineCommand::Restart => out.append("\"restart\""),
        MachineCommand::Shutdown => out.append("\"shutdown\""),
    }
}

/// Appends the canonical text of a request payload.
#[verifier::rlimit(50)]
fn push_request(out: &mut String, r: &WSRequest)
    requires
        r@.wf(),
    ensures
        final(out)@ == old(out)@ + enc_request(r@),
{
    match r {
        WSRequest::ListBows => {
            out.append("{");
            push_text(out, "listbows");
            out.append(":{}}");
            assert(out@ =~= old(out)@ + enc_request(r@));
        },
        WSRequest::ListMeasureSeries { bow_id } => {
            out.append("{");
            push_text(out, "listmeasureseries");
            out.append(":{\"bow_id\":");
            push_int(out, *bow_id as i64);
            out.append("}}");
            assert(out@ =~= old(out)@ + enc_request(r@));
        },
        WSRequest::ListArrows { bow_id } => {
            out.append("{");
            push_text(out, "listarrows");
            out.append(":{\"bow_id\":");
            push_int(out, *bow_id as i64);
            out.append("}}");
            assert(out@ =~= old(out)@ + enc_request(r@));
        },
        WSRequest::ListMeasures { series_id } => {
            out.append("{");
            push_text(out, "listmeasures");
            out.append(":{\"series_id\":");
            push_int(out, *series_id as i64);
            out.append("}}");
            assert(out@ =~= old(out)@ + enc_request(r@));
        },
        WSRequest::ListMeasurePoints { measure_id } => {
            out.append("{");
            push_text(out, "listmeasurepoints");
            out.append(":{\"measure_id\":");
            push_int(out, *measure_id as i64);
            out.append("}}");
            assert(out@ =~= old(out)@ + enc_request(r@));
        },
        WSRequest::AddBow(b) => {
            out.append("{");
            push_text(out, "addbow");
            out.append(":");
            push_bow(out, b);
            out.append("}");
            assert(out@ =~= old(out)@ + enc_request(r@));
        },
        WSRequest::AddArrow(a) => {
            out.append("{");
            push_text(out, "addarrow");
            out.append(":");
            push_arrow(out, a);
            out.append("}");
            assert(out@ =~= old(out)@ + enc_request(r@));
        },
        WSRequest::NewMeasureSeries(v) => {
            out.append("{");
            push_text(out, "newmeasureseries");
            out.append(":");
            push_series(out, v);
            out.append("}");
            assert(out@ =~= old(out)@ + enc_request(r@));
        },
        WSRequest::StartMeasure(m) => {
            out.append("{");
            push_text(out, "startmeasure");
            out.append(":");
            push_measure(out, m);
            out.append("}");
            assert(out@ =~= old(out)@ + enc_request(r@));
        },
        WSRequest::Command(c) => {
            out.append("{");
            push_text(out, "command");
            out.append(":");
            push_command(out, c);
            out.append("}");
            assert(out@ =~= old(out)@ + enc_request(r@));
        },
    }
}

/// Appends the canonical text of an update payload.
#[verifier::rlimit(100)]
fn push_update(out: &mut String, u: &WSUpdate)
    requires
        u@.wf(),
    ensures
        final(out)@ == old(out)@ + enc_update(u@),
{
    match u {
        WSUpdate::Alive => {
            out.append("{");
            push_text(out, "alive");
            out.append(":{}}");
            assert(out@ =~= old(out)@ + enc_update(u@));
        },
        WSUpdate::BowList(l) => {
            out.append("{");
            push_text(out, "bowlist");
            out.append(":");
            proof {
                let ghost lv = seq_view(l@);
                assert(crate::message::bows_wf(lv));
                assert forall|k: int| 0 <= k < l@.len() implies (#[trigger] l@[k])@.wf() by {
                    assert(lv[k].wf());
                    assert(lv[k] == l@[k]@);
                }
            }
            push_bow_list(out, l);
            out.append("}");
            assert(out@ =~= old(out)@ + enc_update(u@));
        },
        WSUpdate::MeasureSeriesList(l) => {
            out.append("{");
            push_text(out, "measureserieslist");
            out.append(":");
            proof {
                let ghost lv = seq_view(l@);
                assert(crate::message::series_list_wf(lv));
                assert forall|k: int| 0 <= k < l@.len() implies (#[trigger] l@[k])@.wf() by {
                    assert(lv[k].wf());
                    assert(lv[k] == l@[k]@);
                }
            }
            push_series_list(out, l);
            out.append("}");
            assert(out@ =~= old(out)@ + enc_update(u@));
        },
        WSUpdate::ArrowList(l) => {
            out.append("{");
            push_text(out, "arrowlist");
            out.append(":");
            proof {
                let ghost lv = seq_view(l@);
                assert(crate::message::arrows_wf(lv));
                assert forall|k: int| 0 <= k < l@.len() implies (#[trigger] l@[k])@.wf() by {
                    assert(lv[k].wf());
                    assert(lv[k] == l@[k]@);
                }
            }
            push_arrow_list(out, l);
            out.append("}");
            assert(out@ =~= old(out)@ + enc_update(u@));
        },
        WSUpdate::MeasureList(l) => {
            out.append("{");
            push_text(out, "measurelist");
            out.append(":");
            proof {
                let ghost lv = seq_view(l@);
                assert(crate::message::measures_wf(lv));
                assert forall|k: int| 0 <= k < l@.len() implies (#[trigger] l@[k])@.wf() by {
                    assert(lv[k].wf());
                    assert(lv[k] == l@[k]@);
                }
            }
            push_measure_list(out, l);
            out.append("}");
            assert(out@ =~= old(out)@ + enc_update(u@));
        },
        WSUpdate::MeasurePointList(l) => {
            out.append("{");
            push_text(out, "measurepointlist");
            out.append(":");
            proof {
                let ghost lv = seq_view(l@);
                assert(crate::message::points_wf(lv));
                assert forall|k: int| 0 <= k < l@.len() implies (#[trigger] l@[k])@.wf() by {
                    assert(lv[k].wf());
                    assert(lv[k] == l@[k]@);
                }
            }
            push_point_list(out, l);
            out.append("}");
            assert(out@ =~= old(out)@ + enc_update(u@));
        },
        WSUpdate::Status(st) => {
            out.append("{");
            push_text(out, "status");
            out.append(":");
            push_status(out, st);
            out.append("}");
            assert(out@ =~= old(out)@ + enc_update(u@));
        },
        WSUpdate::Error(m) => {
            out.append("{");
            push_text(out, "error");
            out.append(":");
            push_text(out, m.as_str());
            out.append("}");
            assert(out@ =~= old(out)@ + enc_update(u@));
        },
    }
}

/// Encodes one envelope as one text frame.
pub fn encode_ws_message(m: &WSMessage) -> (r: String)
    requires
        m@.wf(),
    ensures
        r@ == enc_message(m@),
{
    let mut out = String::new();
    match m {
        WSMessage::Request(r) => {
            out.append("{");
            push_text(&mut out, "request");
            out.append(":");
            push_request(&mut out, r);
            out.append("}");
        },
        WSMessage::Update(u) => {
            out.append("{");
            push_text(&mut out, "update");
            out.append(":");
            push_update(&mut out, u);
            out.append("}");
        },
        WSMessage::Response(u) => {
            out.append("{");
            push_text(&mut out, "response");
            out.append(":");
            push_update(&mut out, u);
            out.append("}");
        },
    }
    assert(out@ =~= enc_message(m@));
    out
}


/// The decimal text of an unsigned machine word.
pub fn u64_string(n: u64) -> (s: String)
    ensures
        s@ == dec_digits(n as nat),
{
    let mut s = String::new();
    push_digits(&mut s, n);
    s
}

/// Encodes one unsolicited update as one text frame.
pub fn encode_update_frame(u: &WSUpdate) -> (r: String)
    requires
        u@.wf(),
    ensures
        r@ == enc_message(crate::message::WSMessageV::Update(u@)),
{
    let mut out = String::new();
    out.append("{");
    push_text(&mut out, "update");
    out.append(":");
    push_update(&mut out, u);
    out.append("}");
    assert(out@ =~= enc_message(crate::message::WSMessageV::Update(u@)));
    out
}


/// Whether every character of a text may stand on the wire.
fn text_valid(s: &str) -> (b: bool)
    ensures
        b == text_ok(s@),
{
    let n = s.unicode_len();
    let mut i: usize = 0;
    while i < n
        invariant
            i <= n,
            n == s@.len(),
            forall|k: int| 0 <= k < i ==> text_char_ok(#[trigger] s@[k]),
        decreases n - i,
    {
        let c = s.get_char(i);
        if !(c != '"' && c != '\\' && (c as u32) >= 32) {
            assert(!text_char_ok(s@[i as int]));
            return false;
        }
        i = i + 1;
    }
    true
}

/// Whether an identity fits the wire.
fn id_valid(id: i32) -> (b: bool)
    ensures
        b == id_ok(id as int),
{
    id != i32::MIN
}

/// Whether a fixed-point quantity fits the wire.
fn milli_valid(v: i64) -> (b: bool)
    ensures
        b == milli_ok(v as int),
{
    -MILLI_LIMIT <= v && v <= MILLI_LIMIT
}

/// Whether a plain integer fits the wire.
fn int_valid(v: i64) -> (b: bool)
    ensures
        b == int_ok(v as int),
{
    -INT_LIMIT <= v && v <= INT_LIMIT
}

/// Whether an optional fixed-point quantity fits the wire.
fn opt_milli_valid(v: &Option<i64>) -> (b: bool)
    ensures
        b == opt_milli_ok(
            match v {
                Some(m) => Some(*m as int),
                None => None,
            },
        ),
{
    match v {
        Some(m) => milli_valid(*m),
        None => true,
    }
}

/// Whether an optional text fits the wire.
fn opt_text_valid(t: &Option<String>) -> (b: bool)
    ensures
        b == opt_text_ok(
            match t {
                Some(u) => Some(u@),
                None => None,
            },
        ),
{
    match t {
        Some(u) => text_valid(u.as_str()),
        None => true,
    }
}

/// Whether an equipment unit fits the wire.
fn bow_valid(b: &Bow) -> (r: bool)
    ensures
        r == b@.wf(),
{
    id_valid(b.id) && text_valid(b.name.as_str()) && milli_valid(b.max_draw_distance)
        && milli_valid(b.remainder_arrow_length)
}

/// Whether a measurement series fits the wire.
fn series_valid(v: &MeasureSeries) -> (r: bool)
    ensures
        r == v@.wf(),
{
    id_valid(v.id) && text_valid(v.name.as_str()) && milli_valid(v.rest_position)
        && opt_milli_valid(&v.draw_distance) && opt_milli_valid(&v.draw_force) && int_valid(v.time)
        && id_valid(v.bow_id)
}

/// Whether a projectile fits the wire.
fn arrow_valid(a: &Arrow) -> (r: bool)
    ensures
        r == a@.wf(),
{
    id_valid(a.id) && opt_text_valid(&a.name) && opt_milli_valid(&a.head_weight)
        && opt_milli_valid(&a.spline) && opt_milli_valid(&a.feather_length) && opt_text_valid(
        &a.feather_type,
    ) && milli_valid(a.length) && milli_valid(a.weight) && id_valid(a.bow_id)
}

/// Whether a measurement run fits the wire.
fn measure_valid(m: &Measure) -> (r: bool)
    ensures
        r == m@.wf(),
{
    id_valid(m.id) && milli_valid(m.measure_interval) && id_valid(m.measure_series_id) && id_valid(
        m.arrow_id,
    )
}

/// Whether a sample point fits the wire.
fn point_valid(p: &MeasurePoint) -> (r: bool)
    ensures
        r == p@.wf(),
{
    id_valid(p.id) && int_valid(p.time) && milli_valid(p.draw_distance) && milli_valid(p.force)
        && id_valid(p.measure_id)
}

/// Whether every record of the list fits the wire.
fn bows_valid(v: &Vec<Bow>) -> (r: bool)
    ensures
        r == bows_wf(seq_view(v@)),
{
    let mut k: usize = 0;
    while k < v.len()
        invariant
            k <= v@.len(),
            forall|j: int| 0 <= j < k ==> (#[trigger] v@[j])@.wf(),
        decreases v@.len() - k,
    {
        if !bow_valid(&v[k]) {
            proof {
                assert(seq_view(v@)[k as int] == v@[k as int]@);
                assert(!bows_wf(seq_view(v@)));
            }
            return false;
        }
        k = k + 1;
    }
    proof {
        assert forall|j: int| 0 <= j < seq_view(v@).len() implies (
        #[trigger] seq_view(v@)[j]).wf() by {
            assert(seq_view(v@)[j] == v@[j]@);
        }
    }
    true
}

/// Whether every record of the list fits the wire.
fn series_all_valid(v: &Vec<MeasureSeries>) -> (r: bool)
    ensures
        r == series_list_wf(seq_view(v@)),
{
    let mut k: usize = 0;
    while k < v.len()
        invariant
            k <= v@.len(),
            forall|j: int| 0 <= j < k ==> (#[trigger] v@[j])@.wf(),
        decreases v@.len() - k,
    {
        if !series_valid(&v[k]) {
            proof {
                assert(seq_view(v@)[k as int] == v@[k as int]@);
                assert(!series_list_wf(seq_view(v@)));
            }
            return false;
        }
        k = k + 1;
    }
    proof {
        assert forall|j: int| 0 <= j < seq_view(v@).len() implies (
        #[trigger] seq_view(v@)[j]).wf() by {
            assert(seq_view(v@)[j] == v@[j]@);
        }
    }
    true
}

/// Whether every record of the list fits the wire.
fn arrows_valid(v: &Vec<Arrow>) -> (r: bool)
    ensures
        r == arrows_wf(seq_view(v@)),
{
    let mut k: usize = 0;
    while k < v.len()
        invariant
            k <= v@.len(),
            forall|j: int| 0 <= j < k ==> (#[trigger] v@[j])@.wf(),
        decreases v@.len() - k,
    {
        if !arrow_valid(&v[k]) {
            proof {
                assert(seq_view(v@)[k as int] == v@[k as int]@);
                assert(!arrows_wf(seq_view(v@)));
            }
            return false;
        }
        k = k + 1;
    }
    proof {
        assert forall|j: int| 0 <= j < seq_view(v@).len() implies (
        #[trigger] seq_view(v@)[j]).wf() by {
            assert(seq_view(v@)[j] == v@[j]@);
        }
    }
    true
}

/// Whether every record of the list fits the wire.
fn measures_valid(v: &Vec<Measure>) -> (r: bool)
    ensures
        r == measures_wf(seq_view(v@)),
{
    let mut k: usize = 0;
    while k < v.len()
        invariant
            k <= v@.len(),
            forall|j: int| 0 <= j < k ==> (#[trigger] v@[j])@.wf(),
        decreases v@.len() - k,
    {
        if !measure_valid(&v[k]) {
            proof {
                assert(seq_view(v@)[k as int] == v@[k as int]@);
                assert(!measures_wf(seq_view(v@)));
            }
            return false;
        }
        k = k + 1;
    }
    proof {
        assert forall|j: int| 0 <= j < seq_view(v@).len() implies (
        #[trigger] seq_view(v@)[j]).wf() by {
            assert(seq_view(v@)[j] == v@[j]@);
        }
    }
    true
}

/// Whether every record of the list fits the wire.
fn points_valid(v: &Vec<MeasurePoint>) -> (r: bool)
    ensures
        r == points_wf(seq_view(v@)),
{
    let mut k: usize = 0;
    while k < v.len()
        invariant
            k <= v@.len(),
            forall|j: int| 0 <= j < k ==> (#[trigger] v@[j])@.wf(),
        decreases v@.len() - k,
    {
        if !point_valid(&v[k]) {
            proof {
                assert(seq_view(v@)[k as int] == v@[k as int]@);
                assert(!points_wf(seq_view(v@)));
            }
            return false;
        }
        k = k + 1;
    }
    proof {
        assert forall|j: int| 0 <= j < seq_view(v@).len() implies (
        #[trigger] seq_view(v@)[j]).wf() by {
            assert(seq_view(v@)[j] == v@[j]@);
        }
    }
    true
}

/// Whether an update payload fits the wire.
fn update_valid(u: &WSUpdate) -> (r: bool)
    ensures
        r == u@.wf(),
{
    match u {
        WSUpdate::Alive => true,
        WSUpdate::BowList(l) => {
            let r = bows_valid(l);
            proof {
                assert(u@.wf() == bows_wf(seq_view(l@)));
            }
            r
        },
        WSUpdate::MeasureSeriesList(l) => {
            let r = series_all_valid(l);
            proof {
                assert(u@.wf() == series_list_wf(seq_view(l@)));
            }
            r
        },
        WSUpdate::ArrowList(l) => {
            let r = arrows_valid(l);
            proof {
                assert(u@.wf() == arrows_wf(seq_view(l@)));
            }
            r
        },
        WSUpdate::MeasureList(l) => {
            let r = measures_valid(l);
            proof {
                assert(u@.wf() == measures_wf(seq_view(l@)));
            }
            r
        },
        WSUpdate::MeasurePointList(l) => {
            let r = points_valid(l);
            proof {
                assert(u@.wf() == points_wf(seq_view(l@)));
            }
            r
        },
        WSUpdate::Status(_) => true,
        WSUpdate::Error(m) => text_valid(m.as_str()),
    }
}

/// Whether a request payload fits the wire.
fn request_valid(r: &WSRequest) -> (b: bool)
    ensures
        b == r@.wf(),
{
    match r {
        WSRequest::ListBows => true,
        WSRequest::ListMeasureSeries { bow_id } => id_valid(*bow_id),
        WSRequest::ListArrows { bow_id } => id_valid(*bow_id),
        WSRequest::ListMeasures { series_id } => id_valid(*series_id),
        WSRequest::ListMeasurePoints { measure_id } => id_valid(*measure_id),
        WSRequest::AddBow(b) => bow_valid(b),
        WSRequest::AddArrow(a) => arrow_valid(a),
        WSRequest::NewMeasureSeries(v) => series_valid(v),
        WSRequest::StartMeasure(m) => measure_valid(m),
        WSRequest::Command(_) => true,
    }
}

/// Whether an envelope fits the wire.
fn message_valid(m: &WSMessage) -> (b: bool)
    ensures
        b == m@.wf(),
{
    match m {
        WSMessage::Request(r) => request_valid(r),
        WSMessage::Update(u) => update_valid(u),
        WSMessage::Response(u) => update_valid(u),
    }
}

/// The account an unencodable envelope is replaced with.
pub open spec fn encode_error_text() -> Seq<char> {
    "error serializing update"@
}

/// Encodes any envelope as one text frame: an envelope that fits the wire
/// yields its canonical text; one that does not — a text holding a quote, a
/// backslash or a control character, or a quantity off the wire's range —
/// yields the one error response frame instead.  Frame production never
/// fails.
pub fn encode_frame(m: &WSMessage) -> (r: String)
    ensures
        m@.wf() ==> r@ == enc_message(m@),
        !m@.wf() ==> r@ == enc_message(
            WSMessageV::Response(WSUpdateV::Error(encode_error_text())),
        ),
{
    if message_valid(m) {
        encode_ws_message(m)
    } else {
        proof {
            reveal_strlit("error serializing update");
            assert(text_ok(encode_error_text()));
        }
        let err = String::from_str("error serializing update");
        encode_ws_message(&WSMessage::Response(WSUpdate::Error(err)))
    }
}

} // verus!
