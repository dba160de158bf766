//! The request dispatcher: a routing table from request payloads to storage
//! operations, wrapping every outcome — success, validation failure or
//! storage failure — as exactly one response payload.

use crate::encode::encode_ws_message;
use crate::decode::decode_ws_message;
use crate::message::WSMessage;
use crate::message::WSMessageV;
use crate::message::WSRequest;
use crate::message::WSRequestV;
use crate::message::WSUpdate;
use crate::message::WSUpdateV;
use crate::models::seq_view;
use crate::models::text_ok;
use crate::models::Arrow;
use crate::models::ArrowV;
use crate::models::Bow;
use crate::models::BowV;
use crate::models::Measure;
use crate::models::MeasureSeries;
use crate::models::MeasureSeriesV;
use crate::models::MeasureV;
use crate::models::MachineStatus;
use crate::message::MachineCommand;
use crate::models::invalid_id;
use crate::storage::ArrowDB;
use crate::storage::StorageError;
use crate::storage::StoreView;
use crate::wire::enc_message;
use crate::wire::sp_decode;
use vstd::prelude::*;
use vstd::string::StringExecFns;

verus! {

/// Failure of one dispatched request: a storage fault, or a validation fault
/// caught before storage is reached.
pub enum WSError {
    Storage(StorageError),
    Logic(String),
}

impl WSError {
    /// A short account of the failure, fit for the wire: a validation failure
    /// carries its own words, a storage failure its variant's fixed account.
    pub fn message(&self) -> (s: String)
        requires
            self@.wf_err(),
        ensures
            s@ == self@.text(),
            text_ok(s@),
    {
        match self {
            WSError::Storage(e) => e.message(),
            WSError::Logic(m) => m.clone(),
        }
    }
}

/// Mathematical view of a dispatch failure.
pub enum WSErrorV {
    Storage(StorageError),
    Logic(Seq<char>),
}

impl WSErrorV {
    /// The failure's account fits the wire format.
    pub open spec fn wf_err(self) -> bool {
        match self {
            WSErrorV::Storage(_) => true,
            WSErrorV::Logic(m) => text_ok(m),
        }
    }

    /// The exact account the failure carries to the wire.
    pub open spec fn text(self) -> Seq<char> {
        match self {
            WSErrorV::Storage(e) => crate::storage::storage_error_text(e),
            WSErrorV::Logic(m) => m,
        }
    }
}

impl View for WSError {
    type V = WSErrorV;

    open spec fn view(&self) -> WSErrorV {
        match self {
            WSError::Storage(e) => WSErrorV::Storage(*e),
            WSError::Logic(m) => WSErrorV::Logic(m@),
        }
    }
}

/// What one dispatched request does: which response payload answers it, and
/// how the store may change.  A storage failure always answers with an error
/// payload and leaves the store as it was; the series draw-target invariant
/// is rejected before storage is reached.
pub open spec fn request_response_rel(
    req: WSRequestV,
    resp: WSUpdateV,
    pre: StoreView,
    post: StoreView,
) -> bool {
    match req {
        WSRequestV::ListBows => post == pre && ((resp matches WSUpdateV::BowList(l) && l
            == pre.bows) || resp is Error),
        WSRequestV::ListMeasureSeries { bow_id } => post == pre && ((resp
            matches WSUpdateV::MeasureSeriesList(l) && l == pre.series.filter(
            |x: MeasureSeriesV| x.bow_id == bow_id,
        )) || resp is Error),
        WSRequestV::ListArrows { bow_id } => post == pre && ((resp matches WSUpdateV::ArrowList(l)
            && l == pre.arrows.filter(|x: ArrowV| x.bow_id == bow_id)) || resp is Error),
        WSRequestV::ListMeasures { series_id } => post == pre && ((resp
            matches WSUpdateV::MeasureList(l) && l == pre.measures.filter(
            |x: MeasureV| x.measure_series_id == series_id,
        )) || resp is Error),
        WSRequestV::ListMeasurePoints { measure_id } => post == pre && ((resp
            matches WSUpdateV::MeasurePointList(l) && l == pre.points.filter(
            |x: crate::models::MeasurePointV| x.measure_id == measure_id,
        )) || resp is Error),
        WSRequestV::AddBow(b) => if b.id == -1 {
            (resp matches WSUpdateV::BowList(l) && l.len() == 1 && l[0] == (BowV {
                id: l[0].id,
                ..b
            }) && l[0].id >= 1 && post == (StoreView { bows: pre.bows.push(l[0]), ..pre })) || (
            resp is Error && post == pre)
        } else {
            (resp matches WSUpdateV::BowList(l) && l.len() == 1 && l[0] == b && (exists|k: int|
                0 <= k < pre.bows.len() && (#[trigger] pre.bows[k]).id == b.id && post == (
                StoreView { bows: pre.bows.update(k, b), ..pre }))) || (resp is Error && post
                == pre)
        },
        WSRequestV::AddArrow(a) => (resp matches WSUpdateV::ArrowList(l) && l.len() == 1 && l[0]
            == (ArrowV { id: l[0].id, ..a }) && l[0].id >= 1 && post == (StoreView {
            arrows: pre.arrows.push(l[0]),
            ..pre
        })) || (resp is Error && post == pre),
        WSRequestV::NewMeasureSeries(v) => if !v.has_target() {
            resp == WSUpdateV::Error(no_target_text()) && post == pre
        } else {
            (resp matches WSUpdateV::MeasureSeriesList(l) && l.len() == 1 && l[0] == (
            MeasureSeriesV { id: l[0].id, ..v }) && l[0].id >= 1 && post == (StoreView {
                series: pre.series.push(l[0]),
                ..pre
            })) || (resp is Error && post == pre)
        },
        WSRequestV::StartMeasure(m) => (resp matches WSUpdateV::MeasureList(l) && l.len() == 1
            && l[0] == (MeasureV { id: l[0].id, ..m }) && l[0].id >= 1 && post == (StoreView {
            measures: pre.measures.push(l[0]),
            ..pre
        })) || (resp is Error && post == pre),
        WSRequestV::Command(_) => resp is Alive && post == pre,
    }
}

/// Lists every equipment unit as a response payload.
pub fn list_bows<D: ArrowDB>(db: &D) -> (r: Result<WSUpdate, WSError>)
    requires
        db.inv(),
    ensures
        match r {
            Ok(u) => u@ == WSUpdateV::BowList(db.view().bows) && u@.wf(),
            Err(e) => e@.wf_err(),
        },
{
    match db.list_bows() {
        Ok(v) => Ok(WSUpdate::BowList(v)),
        Err(e) => Err(WSError::Storage(e)),
    }
}

/// Adds a new equipment unit, or replaces the stored one that carries the
/// request's identity; answers with the single resulting record.
pub fn modify_bow<D: ArrowDB>(db: &mut D, bow: Bow) -> (r: Result<WSUpdate, WSError>)
    requires
        old(db).inv(),
        bow@.wf(),
    ensures
        final(db).inv(),
        match r {
            Ok(u) => u@.wf() && request_response_rel(
                WSRequestV::AddBow(bow@),
                u@,
                old(db).view(),
                final(db).view(),
            ),
            Err(e) => e@.wf_err() && final(db).view() == old(db).view(),
        },
{
    let modified: Bow;
    if bow.id == invalid_id() {
        match db.add_bow(bow) {
            Ok(b) => {
                modified = b;
            },
            Err(e) => {
                return Err(WSError::Storage(e));
            },
        }
    } else {
        match db.update_bow(bow) {
            Ok(b) => {
                modified = b;
            },
            Err(e) => {
                return Err(WSError::Storage(e));
            },
        }
    }
    let mut one: Vec<Bow> = Vec::new();
    one.push(modified);
    proof {
        assert(seq_view(one@) =~= seq![one@[0]@]);
    }
    Ok(WSUpdate::BowList(one))
}

/// Removes an equipment unit; the answering payload is an empty list.
pub fn delete_bow<D: ArrowDB>(db: &mut D, bow_id: i32) -> (r: Result<WSUpdate, WSError>)
    requires
        old(db).inv(),
    ensures
        final(db).inv(),
        match r {
            Ok(u) => u@ == WSUpdateV::BowList(Seq::<BowV>::empty()) && u@.wf() && final(db).view()
                == (StoreView {
                bows: old(db).view().bows.filter(|b: BowV| b.id != bow_id as int),
                ..old(db).view()
            }),
            Err(e) => e@.wf_err() && final(db).view() == old(db).view(),
        },
{
    match db.delete_bow(bow_id) {
        Ok(_) => {
            let none: Vec<Bow> = Vec::new();
            proof {
                assert(seq_view(none@) =~= Seq::<BowV>::empty());
            }
            Ok(WSUpdate::BowList(none))
        },
        Err(e) => Err(WSError::Storage(e)),
    }
}

/// The words with which a series without a draw target is rejected.
pub open spec fn no_target_text() -> Seq<char> {
    "either draw_distance or draw_force must be set"@
}

/// Persists a new measurement series after enforcing the draw-target
/// invariant: a series with neither draw-distance nor draw-force never
/// reaches storage, and is rejected with exactly these words.
pub fn add_measure_series<D: ArrowDB>(db: &mut D, series: MeasureSeries) -> (r: Result<
    WSUpdate,
    WSError,
>)
    requires
        old(db).inv(),
        series@.wf(),
    ensures
        final(db).inv(),
        match r {
            Ok(u) => u@.wf() && series@.has_target() && request_response_rel(
                WSRequestV::NewMeasureSeries(series@),
                u@,
                old(db).view(),
                final(db).view(),
            ),
            Err(e) => e@.wf_err() && final(db).view() == old(db).view() && (
            !series@.has_target() ==> e@ == WSErrorV::Logic(no_target_text())) && (
            series@.has_target() ==> e@ is Storage),
        },
{
    if series.draw_distance.is_none() && series.draw_force.is_none() {
        proof {
            reveal_strlit("either draw_distance or draw_force must be set");
        }
        return Err(WSError::Logic(String::from_str(
            "either draw_distance or draw_force must be set",
        )));
    }
    match db.add_measure_series(series) {
        Ok(b) => {
            let mut one: Vec<MeasureSeries> = Vec::new();
            one.push(b);
            proof {
                assert(seq_view(one@) =~= seq![one@[0]@]);
            }
            Ok(WSUpdate::MeasureSeriesList(one))
        },
        Err(e) => Err(WSError::Storage(e)),
    }
}

/// Lists the measurement series of one equipment unit as a response payload.
pub fn list_measure_series<D: ArrowDB>(db: &D, bow_id: i32) -> (r: Result<WSUpdate, WSError>)
    requires
        db.inv(),
    ensures
        match r {
            Ok(u) => u@ == WSUpdateV::MeasureSeriesList(
                db.view().series.filter(|x: MeasureSeriesV| x.bow_id == bow_id as int),
            ) && u@.wf(),
            Err(e) => e@.wf_err(),
        },
{
    match db.list_measurement_series(bow_id) {
        Ok(v) => Ok(WSUpdate::MeasureSeriesList(v)),
        Err(e) => Err(WSError::Storage(e)),
    }
}

/// Lists the projectiles of one equipment unit as a response payload.
pub fn list_arrows<D: ArrowDB>(db: &D, bow_id: i32) -> (r: Result<WSUpdate, WSError>)
    requires
        db.inv(),
    ensures
        match r {
            Ok(u) => u@ == WSUpdateV::ArrowList(
                db.view().arrows.filter(|x: ArrowV| x.bow_id == bow_id as int),
            ) && u@.wf(),
            Err(e) => e@.wf_err(),
        },
{
    match db.list_arrows(bow_id) {
        Ok(v) => Ok(WSUpdate::ArrowList(v)),
        Err(e) => Err(WSError::Storage(e)),
    }
}

/// Persists a new projectile; answers with the single resulting record.
pub fn add_arrow<D: ArrowDB>(db: &mut D, arrow: Arrow) -> (r: Result<WSUpdate, WSError>)
    requires
        old(db).inv(),
        arrow@.wf(),
    ensures
        final(db).inv(),
        match r {
            Ok(u) => u@.wf() && request_response_rel(
                WSRequestV::AddArrow(arrow@),
                u@,
                old(db).view(),
                final(db).view(),
            ),
            Err(e) => e@.wf_err() && final(db).view() == old(db).view(),
        },
{
    match db.add_arrow(arrow) {
        Ok(b) => {
            let mut one: Vec<Arrow> = Vec::new();
            one.push(b);
            proof {
                assert(seq_view(one@) =~= seq![one@[0]@]);
            }
            Ok(WSUpdate::ArrowList(one))
        },
        Err(e) => Err(WSError::Storage(e)),
    }
}

/// Lists the measurement runs of one series as a response payload; a series
/// with no runs answers with an empty list, never an error.
pub fn list_measures<D: ArrowDB>(db: &D, series_id: i32) -> (r: Result<WSUpdate, WSError>)
    requires
        db.inv(),
    ensures
        match r {
            Ok(u) => u@ == WSUpdateV::MeasureList(
                db.view().measures.filter(|x: MeasureV| x.measure_series_id == series_id as int),
            ) && u@.wf(),
            Err(e) => e@.wf_err(),
        },
{
    match db.list_measures(series_id) {
        Ok(v) => Ok(WSUpdate::MeasureList(v)),
        Err(e) => Err(WSError::Storage(e)),
    }
}

/// Starts a measurement run; answers with the single resulting record.
pub fn start_measure<D: ArrowDB>(db: &mut D, measure: Measure) -> (r: Result<WSUpdate, WSError>)
    requires
        old(db).inv(),
        measure@.wf(),
    ensures
        final(db).inv(),
        match r {
            Ok(u) => u@.wf() && request_response_rel(
                WSRequestV::StartMeasure(measure@),
                u@,
                old(db).view(),
                final(db).view(),
            ),
            Err(e) => e@.wf_err() && final(db).view() == old(db).view(),
        },
{
    match db.add_measure(measure) {
        Ok(b) => {
            let mut one: Vec<Measure> = Vec::new();
            one.push(b);
            proof {
                assert(seq_view(one@) =~= seq![one@[0]@]);
            }
            Ok(WSUpdate::MeasureList(one))
        },
        Err(e) => Err(WSError::Storage(e)),
    }
}

/// Lists the sample points of one measurement run as a response payload.
pub fn list_measure_points<D: ArrowDB>(db: &D, measure_id: i32) -> (r: Result<WSUpdate, WSError>)
    requires
        db.inv(),
    ensures
        match r {
            Ok(u) => u@ == WSUpdateV::MeasurePointList(
                db.view().points.filter(
                    |x: crate::models::MeasurePointV| x.measure_id == measure_id as int,
                ),
            ) && u@.wf(),
            Err(e) => e@.wf_err(),
        },
{
    match db.list_measure_points(measure_id) {
        Ok(v) => Ok(WSUpdate::MeasurePointList(v)),
        Err(e) => Err(WSError::Storage(e)),
    }
}

/// Acknowledges a machine command with a liveness placeholder; device
/// dispatch is the hardware collaborator's concern, not this core's.
pub fn handle_arrow_command(_command: &MachineCommand) -> (r: Result<WSUpdate, WSError>)
    ensures
        r matches Ok(u) && u@ == WSUpdateV::Alive,
{
    Ok(WSUpdate::Alive)
}

/// Routes one decoded request to its storage operation and wraps the result
/// — or the failure — as exactly one response payload.
pub fn handle_request<D: ArrowDB>(db: &mut D, req: WSRequest) -> (u: WSUpdate)
    requires
        old(db).inv(),
        req@.wf(),
    ensures
        final(db).inv(),
        u@.wf(),
        request_response_rel(req@, u@, old(db).view(), final(db).view()),
{
    let response: Result<WSUpdate, WSError> = match req {
        WSRequest::ListBows => list_bows(db),
        WSRequest::AddBow(bow) => modify_bow(db, bow),
        WSRequest::AddArrow(arrow) => add_arrow(db, arrow),
        WSRequest::StartMeasure(measure) => start_measure(db, measure),
        WSRequest::NewMeasureSeries(series) => add_measure_series(db, series),
        WSRequest::ListMeasureSeries { bow_id } => list_measure_series(db, bow_id),
        WSRequest::ListArrows { bow_id } => list_arrows(db, bow_id),
        WSRequest::ListMeasures { series_id } => list_measures(db, series_id),
        WSRequest::ListMeasurePoints { measure_id } => list_measure_points(db, measure_id),
        WSRequest::Command(command) => handle_arrow_command(&command),
    };
    match response {
        Ok(u) => u,
        Err(e) => WSUpdate::Error(e.message()),
    }
}

/// The account sent back for a frame that does not decode.
pub open spec fn parse_error_text() -> Seq<char> {
    "error parsing message"@
}

/// Handles one inbound text frame: a frame that does not decode is answered
/// with exactly one error response and never ends the session; a request is
/// answered with exactly one response; an envelope that is no request is
/// ignored.  The returned text, if any, is the one frame to send back.
pub fn handle_ws_message<D: ArrowDB>(db: &mut D, frame: &str) -> (r: Option<String>)
    requires
        old(db).inv(),
    ensures
        final(db).inv(),
        match sp_decode(frame@) {
            None => r matches Some(s) && s@ == enc_message(
                WSMessageV::Response(WSUpdateV::Error(parse_error_text())),
            ) && final(db).view() == old(db).view(),
            Some(m) => match m {
                WSMessageV::Request(rv) => r matches Some(s) && exists|u: WSUpdateV|
                    (#[trigger] u.wf()) && request_response_rel(
                        rv,
                        u,
                        old(db).view(),
                        final(db).view(),
                    ) && s@ == enc_message(WSMessageV::Response(u)),
                _ => r is None && final(db).view() == old(db).view(),
            },
        },
{
    let message = match decode_ws_message(frame) {
        Some(m) => m,
        None => {
            proof {
                reveal_strlit("error parsing message");
            }
            let err = String::from_str("error parsing message");
            let out = encode_ws_message(&WSMessage::Response(WSUpdate::Error(err)));
            return Some(out);
        },
    };
    if let WSMessage::Request(request) = message {
        let ghost rv = request@;
        let response = handle_request(db, request);
        let ghost uv = response@;
        let out = encode_ws_message(&WSMessage::Response(response));
        proof {
            assert(uv.wf() && request_response_rel(rv, uv, old(db).view(), db.view()) && out@
                == enc_message(WSMessageV::Response(uv)));
        }
        Some(out)
    } else {
        None
    }
}

} // verus!
