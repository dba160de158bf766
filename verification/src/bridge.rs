//! The change-notification bridge: turns a storage-side change event — a
//! table name and a set of affected identities — into the one update payload
//! that re-reads the affected rows.  A malformed event, an unknown table, a
//! failed re-read or an empty re-read emits nothing: change events are a
//! hint, not an exactly-once log.

use crate::decode::p_int;
use crate::message::WSUpdate;
use crate::message::WSUpdateV;
use crate::models::ArrowV;
use crate::models::BowV;
use crate::models::MeasurePointV;
use crate::models::MeasureSeriesV;
use crate::models::MeasureV;
use crate::storage::id_list;
use crate::storage::ArrowDB;
use crate::storage::StoreView;
use crate::wire::sp_int;
use vstd::prelude::*;
use vstd::string::StrSliceExecFns;
use vstd::string::StringExecFns;

verus! {

/// The table a change event speaks of.
#[derive(Clone, Copy, Debug, PartialEq, Eq, Structural)]
pub enum ChangedTable {
    Bow,
    Arrow,
    MeasureSeries,
    MeasurePoint,
    Measure,
}

/// Position of the first comma at or after `i`.
pub open spec fn scan_comma(s: Seq<char>, i: int) -> int
    decreases s.len() - i,
{
    if 0 <= i < s.len() && s[i] != ',' {
        scan_comma(s, i + 1)
    } else {
        i
    }
}

/// The identities named by one event segment: a segment that is exactly one
/// in-range decimal identity contributes it; any other segment is skipped.
pub open spec fn sp_seg(s: Seq<char>, i: int, j: int) -> Seq<int> {
    match sp_int(s, i, crate::models::ID_LIMIT as int) {
        Some((v, e)) => if e == j {
            seq![v]
        } else {
            Seq::<int>::empty()
        },
        None => Seq::<int>::empty(),
    }
}

/// The identities named by the comma-separated run starting at `i`.
pub open spec fn sp_ids(s: Seq<char>, i: int) -> Seq<int>
    decreases s.len() - i,
{
    let j = scan_comma(s, i);
    if 0 <= i && i <= j < s.len() {
        sp_seg(s, i, j) + sp_ids(s, j + 1)
    } else {
        sp_seg(s, i, j)
    }
}

/// The table a payload's first segment names, if any.
pub open spec fn sp_table(name: Seq<char>) -> Option<ChangedTable> {
    if name == "bow"@ {
        Some(ChangedTable::Bow)
    } else if name == "arrow"@ {
        Some(ChangedTable::Arrow)
    } else if name == "measure_series"@ {
        Some(ChangedTable::MeasureSeries)
    } else if name == "measure_point"@ {
        Some(ChangedTable::MeasurePoint)
    } else if name == "measure"@ {
        Some(ChangedTable::Measure)
    } else {
        None
    }
}

/// Meaning of one change-event payload: the table and the identities it
/// names, or nothing when no table can be read.
pub open spec fn sp_notification(s: Seq<char>) -> Option<(ChangedTable, Seq<int>)> {
    let j = scan_comma(s, 0);
    if j >= s.len() {
        None
    } else {
        match sp_table(s.subrange(0, j)) {
            None => None,
            Some(t) => Some((t, sp_ids(s, j + 1))),
        }
    }
}

/// Finds the first comma at or after `i`.
fn x_scan_comma(s: &str, i: usize) -> (j: usize)
    requires
        i <= s@.len(),
    ensures
        j as int == scan_comma(s@, i as int),
        i <= j <= s@.len(),
{
    let n = s.unicode_len();
    let mut j = i;
    while j < n && s.get_char(j) != ','
        invariant
            i <= j <= n,
            n == s@.len(),
            scan_comma(s@, i as int) == scan_comma(s@, j as int),
        decreases n - j,
    {
        j = j + 1;
    }
    j
}

/// Reads the comma-separated identities starting at `i`.
fn p_ids(s: &str, i: usize) -> (ids: Vec<i32>)
    requires
        i <= s@.len(),
    ensures
        id_list(ids@) == sp_ids(s@, i as int),
    decreases s@.len() - i,
{
    let n = s.unicode_len();
    let j = x_scan_comma(s, i);
    let mut seg: Vec<i32> = Vec::new();
    match p_int(s, i, crate::models::ID_LIMIT) {
        Some((v, e)) => {
            if e == j {
                seg.push(v as i32);
            }
        },
        None => {},
    }
    proof {
        assert(id_list(seg@) =~= sp_seg(s@, i as int, j as int));
    }
    if j < n {
        let mut rest = p_ids(s, j + 1);
        let ghost segv = seg@;
        let ghost restv = rest@;
        let mut out = seg;
        out.append(&mut rest);
        proof {
            assert(out@ =~= segv + restv);
            assert(id_list(out@) =~= id_list(segv) + id_list(restv));
        }
        out
    } else {
        seg
    }
}

/// Reads one change-event payload.
pub fn parse_notification(payload: &str) -> (r: Option<(ChangedTable, Vec<i32>)>)
    ensures
        match r {
            Some(p) => sp_notification(payload@) == Some((p.0, id_list(p.1@))),
            None => sp_notification(payload@) is None,
        },
{
    let n = payload.unicode_len();
    let j = x_scan_comma(payload, 0);
    if j >= n {
        return None;
    }
    let name = payload.substring_char(0, j).to_owned();
    let table = if str_is(&name, "bow") {
        ChangedTable::Bow
    } else if str_is(&name, "arrow") {
        ChangedTable::Arrow
    } else if str_is(&name, "measure_series") {
        ChangedTable::MeasureSeries
    } else if str_is(&name, "measure_point") {
        ChangedTable::MeasurePoint
    } else if str_is(&name, "measure") {
        ChangedTable::Measure
    } else {
        return None;
    };
    let ids = p_ids(payload, j + 1);
    Some((table, ids))
}

/// Whether a read text equals a fixed word.
fn str_is(w: &String, lit: &str) -> (b: bool)
    ensures
        b == (w@ == lit@),
{
    let tmp = String::from_str(lit);
    w.eq(&tmp)
}


/// Decides what a successful equipment-unit re-read emits: nothing when it
/// came back empty, else exactly the one update carrying the rows.
pub fn emit_bows(v: Vec<crate::models::Bow>) -> (r: Option<WSUpdate>)
    ensures
        v@.len() == 0 ==> r is None,
        v@.len() > 0 ==> (r matches Some(u) && u@ == WSUpdateV::BowList(
            crate::models::seq_view(v@),
        )),
{
    if v.len() == 0 {
        None
    } else {
        Some(WSUpdate::BowList(v))
    }
}

/// Decides what a successful projectile re-read emits.
pub fn emit_arrows(v: Vec<crate::models::Arrow>) -> (r: Option<WSUpdate>)
    ensures
        v@.len() == 0 ==> r is None,
        v@.len() > 0 ==> (r matches Some(u) && u@ == WSUpdateV::ArrowList(
            crate::models::seq_view(v@),
        )),
{
    if v.len() == 0 {
        None
    } else {
        Some(WSUpdate::ArrowList(v))
    }
}

/// Decides what a successful series re-read emits.
pub fn emit_series(v: Vec<crate::models::MeasureSeries>) -> (r: Option<WSUpdate>)
    ensures
        v@.len() == 0 ==> r is None,
        v@.len() > 0 ==> (r matches Some(u) && u@ == WSUpdateV::MeasureSeriesList(
            crate::models::seq_view(v@),
        )),
{
    if v.len() == 0 {
        None
    } else {
        Some(WSUpdate::MeasureSeriesList(v))
    }
}

/// Decides what a successful run re-read emits.
pub fn emit_measures(v: Vec<crate::models::Measure>) -> (r: Option<WSUpdate>)
    ensures
        v@.len() == 0 ==> r is None,
        v@.len() > 0 ==> (r matches Some(u) && u@ == WSUpdateV::MeasureList(
            crate::models::seq_view(v@),
        )),
{
    if v.len() == 0 {
        None
    } else {
        Some(WSUpdate::MeasureList(v))
    }
}

/// Decides what a successful sample-point re-read emits.
pub fn emit_points(v: Vec<crate::models::MeasurePoint>) -> (r: Option<WSUpdate>)
    ensures
        v@.len() == 0 ==> r is None,
        v@.len() > 0 ==> (r matches Some(u) && u@ == WSUpdateV::MeasurePointList(
            crate::models::seq_view(v@),
        )),
{
    if v.len() == 0 {
        None
    } else {
        Some(WSUpdate::MeasurePointList(v))
    }
}

/// What one change event emits: nothing, or the one update payload that
/// carries the freshly re-read affected rows of the named table.
pub open spec fn bridge_rel(view: StoreView, payload: Seq<char>, r: Option<WSUpdateV>) -> bool {
    match sp_notification(payload) {
        None => r is None,
        Some((t, ids)) => match r {
            None => true,
            Some(u) => u.wf() && match t {
                ChangedTable::Bow => u matches WSUpdateV::BowList(l) && l.len() > 0 && l
                    == view.bows.filter(|x: BowV| ids.contains(x.id)),
                ChangedTable::Arrow => u matches WSUpdateV::ArrowList(l) && l.len() > 0 && l
                    == view.arrows.filter(|x: ArrowV| ids.contains(x.id)),
                ChangedTable::MeasureSeries => u matches WSUpdateV::MeasureSeriesList(l) && l.len()
                    > 0 && l == view.series.filter(|x: MeasureSeriesV| ids.contains(x.id)),
                ChangedTable::MeasurePoint => u matches WSUpdateV::MeasurePointList(l) && l.len()
                    > 0 && l == view.points.filter(|x: MeasurePointV| ids.contains(x.id)),
                ChangedTable::Measure => u matches WSUpdateV::MeasureList(l) && l.len() > 0 && l
                    == view.measures.filter(|x: MeasureV| ids.contains(x.id)),
            },
        },
    }
}

/// Turns one change event into the update to broadcast, by re-reading the
/// affected rows of the named table.
pub fn bridge_event<D: ArrowDB>(db: &D, payload: &str) -> (r: Option<WSUpdate>)
    requires
        db.inv(),
    ensures
        bridge_rel(db.view(), payload@, match r {
            Some(ref u) => Some(u@),
            None => None,
        }),
{
    let (table, ids) = match parse_notification(payload) {
        Some(p) => p,
        None => {
            return None;
        },
    };
    let ghost idsv = id_list(ids@);
    match table {
        ChangedTable::Bow => match db.bows_by_ids(&ids) {
            Ok(v) => {
                proof {
                    assert((|x: BowV| id_list(ids@).contains(x.id)) =~= (|x: BowV|
                        idsv.contains(x.id)));
                }
                emit_bows(v)
            },
            Err(_) => None,
        },
        ChangedTable::Arrow => match db.arrows_by_ids(&ids) {
            Ok(v) => {
                proof {
                    assert((|x: ArrowV| id_list(ids@).contains(x.id)) =~= (|x: ArrowV|
                        idsv.contains(x.id)));
                }
                emit_arrows(v)
            },
            Err(_) => None,
        },
        ChangedTable::MeasureSeries => match db.series_by_ids(&ids) {
            Ok(v) => {
                proof {
                    assert((|x: MeasureSeriesV| id_list(ids@).contains(x.id)) =~= (|x: MeasureSeriesV|
                        idsv.contains(x.id)));
                }
                emit_series(v)
            },
            Err(_) => None,
        },
        ChangedTable::MeasurePoint => match db.points_by_ids(&ids) {
            Ok(v) => {
                proof {
                    assert((|x: MeasurePointV| id_list(ids@).contains(x.id)) =~= (|x: MeasurePointV|
                        idsv.contains(x.id)));
                }
                emit_points(v)
            },
            Err(_) => None,
        },
        ChangedTable::Measure => match db.measures_by_ids(&ids) {
            Ok(v) => {
                proof {
                    assert((|x: MeasureV| id_list(ids@).contains(x.id)) =~= (|x: MeasureV|
                        idsv.contains(x.id)));
                }
                emit_measures(v)
            },
            Err(_) => None,
        },
    }
}

} // verus!
