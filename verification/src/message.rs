//! The wire envelope: a tagged union of requests, unsolicited updates and
//! solicited responses, together with its mathematical view.

use crate::models::ArrowV;
use crate::models::BowV;
use crate::models::MachineStatus;
use crate::models::MeasurePointV;
use crate::models::MeasureSeriesV;
use crate::models::MeasureV;
use crate::models::id_ok;
use crate::models::seq_view;
use crate::models::text_ok;
use crate::models::Arrow;
use crate::models::Bow;
use crate::models::Measure;
use crate::models::MeasurePoint;
use crate::models::MeasureSeries;
use vstd::prelude::*;

verus! {

/// Signal to the device-control task.
#[derive(Clone, Copy, Debug, PartialEq, Eq, Structural)]
pub enum ControlMessage {
    Terminate,
}

/// Answer to a session request: the path under which the live channel may be
/// opened.
#[derive(Clone, Debug, PartialEq, Eq)]
pub struct WSRegisterResponse {
    pub url: String,
}

/// Command forwarded to the measuring machine.
#[derive(Clone, Copy, Debug, PartialEq, Eq, Structural)]
pub enum MachineCommand {
    Calibrate,
    Reset,
    Restart,
    Shutdown,
}

/// Client-to-server payload.
#[derive(Clone, Debug, PartialEq, Eq)]
pub enum WSRequest {
    ListBows,
    ListMeasureSeries { bow_id: i32 },
    ListArrows { bow_id: i32 },
    ListMeasures { series_id: i32 },
    ListMeasurePoints { measure_id: i32 },
    AddBow(Bow),
    AddArrow(Arrow),
    NewMeasureSeries(MeasureSeries),
    StartMeasure(Measure),
    Command(MachineCommand),
}

/// Mathematical view of a request payload.
#[verifier::ext_equal]
pub enum WSRequestV {
    ListBows,
    ListMeasureSeries { bow_id: int },
    ListArrows { bow_id: int },
    ListMeasures { series_id: int },
    ListMeasurePoints { measure_id: int },
    AddBow(BowV),
    AddArrow(ArrowV),
    NewMeasureSeries(MeasureSeriesV),
    StartMeasure(MeasureV),
    Command(MachineCommand),
}

impl View for WSRequest {
    type V = WSRequestV;

    open spec fn view(&self) -> WSRequestV {
        match self {
            WSRequest::ListBows => WSRequestV::ListBows,
            WSRequest::ListMeasureSeries { bow_id } => WSRequestV::ListMeasureSeries {
                bow_id: *bow_id as int,
            },
            WSRequest::ListArrows { bow_id } => WSRequestV::ListArrows { bow_id: *bow_id as int },
            WSRequest::ListMeasures { series_id } => WSRequestV::ListMeasures {
                series_id: *series_id as int,
            },
            WSRequest::ListMeasurePoints { measure_id } => WSRequestV::ListMeasurePoints {
                measure_id: *measure_id as int,
            },
            WSRequest::AddBow(b) => WSRequestV::AddBow(b@),
            WSRequest::AddArrow(a) => WSRequestV::AddArrow(a@),
            WSRequest::NewMeasureSeries(s) => WSRequestV::NewMeasureSeries(s@),
            WSRequest::StartMeasure(m) => WSRequestV::StartMeasure(m@),
            WSRequest::Command(c) => WSRequestV::Command(*c),
        }
    }
}

impl WSRequestV {
    /// The payload fits the wire format.
    pub open spec fn wf(self) -> bool {
        match self {
            WSRequestV::ListBows => true,
            WSRequestV::ListMeasureSeries { bow_id } => id_ok(bow_id),
            WSRequestV::ListArrows { bow_id } => id_ok(bow_id),
            WSRequestV::ListMeasures { series_id } => id_ok(series_id),
            WSRequestV::ListMeasurePoints { measure_id } => id_ok(measure_id),
            WSRequestV::AddBow(b) => b.wf(),
            WSRequestV::AddArrow(a) => a.wf(),
            WSRequestV::NewMeasureSeries(s) => s.wf(),
            WSRequestV::StartMeasure(m) => m.wf(),
            WSRequestV::Command(_) => true,
        }
    }
}

/// Server-to-client payload, used both for unsolicited updates and for
/// solicited responses.
#[derive(Clone, Debug, PartialEq, Eq)]
pub enum WSUpdate {
    Alive,
    BowList(Vec<Bow>),
    MeasureSeriesList(Vec<MeasureSeries>),
    ArrowList(Vec<Arrow>),
    MeasureList(Vec<Measure>),
    MeasurePointList(Vec<MeasurePoint>),
    Status(MachineStatus),
    Error(String),
}

/// Mathematical view of an update payload.
#[verifier::ext_equal]
pub enum WSUpdateV {
    Alive,
    BowList(Seq<BowV>),
    MeasureSeriesList(Seq<MeasureSeriesV>),
    ArrowList(Seq<ArrowV>),
    MeasureList(Seq<MeasureV>),
    MeasurePointList(Seq<MeasurePointV>),
    Status(MachineStatus),
    Error(Seq<char>),
}

impl View for WSUpdate {
    type V = WSUpdateV;

    open spec fn view(&self) -> WSUpdateV {
        match self {
            WSUpdate::Alive => WSUpdateV::Alive,
            WSUpdate::BowList(l) => WSUpdateV::BowList(seq_view(l@)),
            WSUpdate::MeasureSeriesList(l) => WSUpdateV::MeasureSeriesList(seq_view(l@)),
            WSUpdate::ArrowList(l) => WSUpdateV::ArrowList(seq_view(l@)),
            WSUpdate::MeasureList(l) => WSUpdateV::MeasureList(seq_view(l@)),
            WSUpdate::MeasurePointList(l) => WSUpdateV::MeasurePointList(seq_view(l@)),
            WSUpdate::Status(s) => WSUpdateV::Status(*s),
            WSUpdate::Error(m) => WSUpdateV::Error(m@),
        }
    }
}

/// Every equipment unit of the list fits the wire format.
pub open spec fn bows_wf(l: Seq<BowV>) -> bool {
    forall|k: int| 0 <= k < l.len() ==> (#[trigger] l[k]).wf()
}

/// Every series of the list fits the wire format.
pub open spec fn series_list_wf(l: Seq<MeasureSeriesV>) -> bool {
    forall|k: int| 0 <= k < l.len() ==> (#[trigger] l[k]).wf()
}

/// Every projectile of the list fits the wire format.
pub open spec fn arrows_wf(l: Seq<ArrowV>) -> bool {
    forall|k: int| 0 <= k < l.len() ==> (#[trigger] l[k]).wf()
}

/// Every run of the list fits the wire format.
pub open spec fn measures_wf(l: Seq<MeasureV>) -> bool {
    forall|k: int| 0 <= k < l.len() ==> (#[trigger] l[k]).wf()
}

/// Every sample point of the list fits the wire format.
pub open spec fn points_wf(l: Seq<MeasurePointV>) -> bool {
    forall|k: int| 0 <= k < l.len() ==> (#[trigger] l[k]).wf()
}

impl WSUpdateV {
    /// The payload fits the wire format.
    pub open spec fn wf(self) -> bool {
        match self {
            WSUpdateV::Alive => true,
            WSUpdateV::BowList(l) => bows_wf(l),
            WSUpdateV::MeasureSeriesList(l) => series_list_wf(l),
            WSUpdateV::ArrowList(l) => arrows_wf(l),
            WSUpdateV::MeasureList(l) => measures_wf(l),
            WSUpdateV::MeasurePointList(l) => points_wf(l),
            WSUpdateV::Status(_) => true,
            WSUpdateV::Error(m) => text_ok(m),
        }
    }
}

/// The wire envelope.
#[derive(Clone, Debug, PartialEq, Eq)]
pub enum WSMessage {
    Request(WSRequest),
    Update(WSUpdate),
    Response(WSUpdate),
}

/// Mathematical view of the wire envelope.
#[verifier::ext_equal]
pub enum WSMessageV {
    Request(WSRequestV),
    Update(WSUpdateV),
    Response(WSUpdateV),
}

impl View for WSMessage {
    type V = WSMessageV;

    open spec fn view(&self) -> WSMessageV {
        match self {
            WSMessage::Request(r) => WSMessageV::Request(r@),
            WSMessage::Update(u) => WSMessageV::Update(u@),
            WSMessage::Response(u) => WSMessageV::Response(u@),
        }
    }
}

impl WSMessageV {
    /// The envelope fits the wire format.
    pub open spec fn wf(self) -> bool {
        match self {
            WSMessageV::Request(r) => r.wf(),
            WSMessageV::Update(u) => u.wf(),
            WSMessageV::Response(u) => u.wf(),
        }
    }
}

} // verus!
