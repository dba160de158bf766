//! The six storage-owned record kinds and their mathematical views.
//!
//! Physical quantities (distances, forces, weights, intervals) are held as
//! signed fixed-point numbers in thousandths of the base unit, so that the
//! record logic and the wire codec stay within exact integer arithmetic.
//! Timestamps are held as seconds since the Unix epoch.

use vstd::prelude::*;

verus! {

/// Fixed-point quantity in thousandths of the base unit.
pub type Milli = i64;

/// Largest magnitude a fixed-point quantity may carry on the wire.
pub const MILLI_LIMIT: i64 = 9_000_000_000_000_000;

/// Largest magnitude a plain integer field may carry on the wire.
pub const INT_LIMIT: i64 = 9_000_000_000_000_000_000;

/// Largest magnitude a record identity may carry on the wire.
pub const ID_LIMIT: i64 = 2_147_483_647;

/// Sentinel identity of a record that has not been persisted yet.
pub fn invalid_id() -> (r: i32)
    ensures
        r == -1,
{
    -1
}

/// Maps a sequence of values to the sequence of their views.
pub open spec fn seq_view<T: View>(s: Seq<T>) -> Seq<T::V> {
    s.map_values(|t: T| t@)
}

/// An identity fits the wire format (the most negative machine value stays off
/// the wire; persisted identities are positive and the sentinel is -1).
pub open spec fn id_ok(v: int) -> bool {
    -(ID_LIMIT as int) <= v <= ID_LIMIT as int
}

/// A plain integer field fits the wire format.
pub open spec fn int_ok(v: int) -> bool {
    -(INT_LIMIT as int) <= v <= INT_LIMIT as int
}

/// A fixed-point quantity fits the wire format.
pub open spec fn milli_ok(v: int) -> bool {
    -(MILLI_LIMIT as int) <= v <= MILLI_LIMIT as int
}

/// A character that may stand inside a wire text field.  The wire grammar
/// carries texts verbatim, without an escape form, so the quote, the
/// backslash and the control range are outside wire validity; an envelope
/// holding such a character is answered by the encoder's error frame.
pub open spec fn text_char_ok(c: char) -> bool {
    c != '"' && c != '\\' && (c as u32) >= 32
}

/// A text field that the wire codec carries verbatim between quotes.
pub open spec fn text_ok(s: Seq<char>) -> bool {
    forall|k: int| 0 <= k < s.len() ==> text_char_ok(#[trigger] s[k])
}

pub open spec fn opt_milli_ok(v: Option<int>) -> bool {
    match v {
        Some(m) => milli_ok(m),
        None => true,
    }
}

pub open spec fn opt_text_ok(s: Option<Seq<char>>) -> bool {
    match s {
        Some(t) => text_ok(t),
        None => true,
    }
}

/// An equipment unit.
#[derive(Clone, Debug, PartialEq, Eq)]
pub struct Bow {
    pub id: i32,
    pub name: String,
    pub max_draw_distance: Milli,
    pub remainder_arrow_length: Milli,
}

/// Mathematical view of an equipment unit.
#[verifier::ext_equal]
pub struct BowV {
    pub id: int,
    pub name: Seq<char>,
    pub max_draw_distance: int,
    pub remainder_arrow_length: int,
}

impl View for Bow {
    type V = BowV;

    open spec fn view(&self) -> BowV {
        BowV {
            id: self.id as int,
            name: self.name@,
            max_draw_distance: self.max_draw_distance as int,
            remainder_arrow_length: self.remainder_arrow_length as int,
        }
    }
}

impl BowV {
    /// The record fits the wire format.
    pub open spec fn wf(self) -> bool {
        id_ok(self.id) && text_ok(self.name) && milli_ok(self.max_draw_distance) && milli_ok(
            self.remainder_arrow_length,
        )
    }
}

/// A measurement series belonging to one equipment unit.
#[derive(Clone, Debug, PartialEq, Eq)]
pub struct MeasureSeries {
    pub id: i32,
    pub name: String,
    pub rest_position: Milli,
    pub draw_distance: Option<Milli>,
    pub draw_force: Option<Milli>,
    pub time: i64,
    pub bow_id: i32,
}

/// Mathematical view of a measurement series.
#[verifier::ext_equal]
pub struct MeasureSeriesV {
    pub id: int,
    pub name: Seq<char>,
    pub rest_position: int,
    pub draw_distance: Option<int>,
    pub draw_force: Option<int>,
    pub time: int,
    pub bow_id: int,
}

impl View for MeasureSeries {
    type V = MeasureSeriesV;

    open spec fn view(&self) -> MeasureSeriesV {
        MeasureSeriesV {
            id: self.id as int,
            name: self.name@,
            rest_position: self.rest_position as int,
            draw_distance: match self.draw_distance {
                Some(v) => Some(v as int),
                None => None,
            },
            draw_force: match self.draw_force {
                Some(v) => Some(v as int),
                None => None,
            },
            time: self.time as int,
            bow_id: self.bow_id as int,
        }
    }
}

impl MeasureSeriesV {
    /// The record fits the wire format.
    pub open spec fn wf(self) -> bool {
        id_ok(self.id) && text_ok(self.name) && milli_ok(self.rest_position) && opt_milli_ok(
            self.draw_distance,
        ) && opt_milli_ok(self.draw_force) && int_ok(self.time) && id_ok(self.bow_id)
    }

    /// The draw-target invariant: at least one of draw-distance and draw-force
    /// must be set before the series may reach storage.
    pub open spec fn has_target(self) -> bool {
        self.draw_distance is Some || self.draw_force is Some
    }
}

/// A projectile belonging to one equipment unit.
#[derive(Clone, Debug, PartialEq, Eq)]
pub struct Arrow {
    pub id: i32,
    pub name: Option<String>,
    pub head_weight: Option<Milli>,
    pub spline: Option<Milli>,
    pub feather_length: Option<Milli>,
    pub feather_type: Option<String>,
    pub length: Milli,
    pub weight: Milli,
    pub bow_id: i32,
}

/// Mathematical view of a projectile.
#[verifier::ext_equal]
pub struct ArrowV {
    pub id: int,
    pub name: Option<Seq<char>>,
    pub head_weight: Option<int>,
    pub spline: Option<int>,
    pub feather_length: Option<int>,
    pub feather_type: Option<Seq<char>>,
    pub length: int,
    pub weight: int,
    pub bow_id: int,
}

impl View for Arrow {
    type V = ArrowV;

    open spec fn view(&self) -> ArrowV {
        ArrowV {
            id: self.id as int,
            name: match self.name {
                Some(ref s) => Some(s@),
                None => None,
            },
            head_weight: match self.head_weight {
                Some(v) => Some(v as int),
                None => None,
            },
            spline: match self.spline {
                Some(v) => Some(v as int),
                None => None,
            },
            feather_length: match self.feather_length {
                Some(v) => Some(v as int),
                None => None,
            },
            feather_type: match self.feather_type {
                Some(ref s) => Some(s@),
                None => None,
            },
            length: self.length as int,
            weight: self.weight as int,
            bow_id: self.bow_id as int,
        }
    }
}

impl ArrowV {
    /// The record fits the wire format.
    pub open spec fn wf(self) -> bool {
        id_ok(self.id) && opt_text_ok(self.name) && opt_milli_ok(self.head_weight) && opt_milli_ok(
            self.spline,
        ) && opt_milli_ok(self.feather_length) && opt_text_ok(self.feather_type) && milli_ok(
            self.length,
        ) && milli_ok(self.weight) && id_ok(self.bow_id)
    }
}

/// A measurement run within one series, shot with one projectile.
#[derive(Clone, Debug, PartialEq, Eq)]
pub struct Measure {
    pub id: i32,
    pub measure_interval: Milli,
    pub measure_series_id: i32,
    pub arrow_id: i32,
}

/// Mathematical view of a measurement run.
#[verifier::ext_equal]
pub struct MeasureV {
    pub id: int,
    pub measure_interval: int,
    pub measure_series_id: int,
    pub arrow_id: int,
}

impl View for Measure {
    type V = MeasureV;

    open spec fn view(&self) -> MeasureV {
        MeasureV {
            id: self.id as int,
            measure_interval: self.measure_interval as int,
            measure_series_id: self.measure_series_id as int,
            arrow_id: self.arrow_id as int,
        }
    }
}

impl MeasureV {
    /// The record fits the wire format.
    pub open spec fn wf(self) -> bool {
        id_ok(self.id) && milli_ok(self.measure_interval) && id_ok(self.measure_series_id)
            && id_ok(self.arrow_id)
    }
}

/// One sample point within a measurement run.
#[derive(Clone, Debug, PartialEq, Eq)]
pub struct MeasurePoint {
    pub id: i32,
    pub time: i64,
    pub draw_distance: Milli,
    pub force: Milli,
    pub measure_id: i32,
}

/// Mathematical view of a sample point.
#[verifier::ext_equal]
pub struct MeasurePointV {
    pub id: int,
    pub time: int,
    pub draw_distance: int,
    pub force: int,
    pub measure_id: int,
}

impl View for MeasurePoint {
    type V = MeasurePointV;

    open spec fn view(&self) -> MeasurePointV {
        MeasurePointV {
            id: self.id as int,
            time: self.time as int,
            draw_distance: self.draw_distance as int,
            force: self.force as int,
            measure_id: self.measure_id as int,
        }
    }
}

impl MeasurePointV {
    /// The record fits the wire format.
    pub open spec fn wf(self) -> bool {
        id_ok(self.id) && int_ok(self.time) && milli_ok(self.draw_distance) && milli_ok(self.force)
            && id_ok(self.measure_id)
    }
}

/// Transient machine state, reported but never persisted.
#[derive(Clone, Copy, Debug, PartialEq, Eq, Structural)]
pub enum MachineStatus {
    Pause,
    Shooting,
    Error,
}

impl Bow {
    /// An equal copy of the record.
    pub fn duplicate(&self) -> (r: Bow)
        ensures
            r@ == self@,
    {
        Bow {
            id: self.id,
            name: self.name.clone(),
            max_draw_distance: self.max_draw_distance,
            remainder_arrow_length: self.remainder_arrow_length,
        }
    }
}

impl MeasureSeries {
    /// An equal copy of the record.
    pub fn duplicate(&self) -> (r: MeasureSeries)
        ensures
            r@ == self@,
    {
        MeasureSeries {
            id: self.id,
            name: self.name.clone(),
            rest_position: self.rest_position,
            draw_distance: self.draw_distance,
            draw_force: self.draw_force,
            time: self.time,
            bow_id: self.bow_id,
        }
    }
}

impl Arrow {
    /// An equal copy of the record.
    pub fn duplicate(&self) -> (r: Arrow)
        ensures
            r@ == self@,
    {
        Arrow {
            id: self.id,
            name: match &self.name {
                Some(s) => Some(s.clone()),
                None => None,
            },
            head_weight: self.head_weight,
            spline: self.spline,
            feather_length: self.feather_length,
            feather_type: match &self.feather_type {
                Some(s) => Some(s.clone()),
                None => None,
            },
            length: self.length,
            weight: self.weight,
            bow_id: self.bow_id,
        }
    }
}

impl Measure {
    /// An equal copy of the record.
    pub fn duplicate(&self) -> (r: Measure)
        ensures
            r@ == self@,
    {
        Measure {
            id: self.id,
            measure_interval: self.measure_interval,
            measure_series_id: self.measure_series_id,
            arrow_id: self.arrow_id,
        }
    }
}

impl MeasurePoint {
    /// An equal copy of the record.
    pub fn duplicate(&self) -> (r: MeasurePoint)
        ensures
            r@ == self@,
    {
        MeasurePoint {
            id: self.id,
            time: self.time,
            draw_distance: self.draw_distance,
            force: self.force,
            measure_id: self.measure_id,
        }
    }
}

} // verus!
