//! The storage abstraction: a capability interface over the six record
//! kinds, together with a verified in-memory backend.
//!
//! The interface is specified against an abstract store view; a relational
//! backend implements the same interface at the process edge, while the
//! in-memory backend here is verified against the contracts and serves tests.

use crate::message::arrows_wf;
use crate::message::bows_wf;
use crate::message::measures_wf;
use crate::message::points_wf;
use crate::message::series_list_wf;
use crate::models::seq_view;
use crate::models::text_ok;
use crate::models::Arrow;
use crate::models::ArrowV;
use crate::models::Bow;
use crate::models::BowV;
use crate::models::Measure;
use crate::models::MeasurePoint;
use crate::models::MeasurePointV;
use crate::models::MeasureSeries;
use crate::models::MeasureSeriesV;
use crate::models::MeasureV;
use vstd::prelude::*;
use vstd::string::StringExecFns;

verus! {

/// Abstract contents of the store: one sequence of records per kind, in
/// insertion order.
#[verifier::ext_equal]
pub struct StoreView {
    pub bows: Seq<BowV>,
    pub arrows: Seq<ArrowV>,
    pub series: Seq<MeasureSeriesV>,
    pub measures: Seq<MeasureV>,
    pub points: Seq<MeasurePointV>,
}

/// A per-request storage failure; recoverable, never fatal.
#[derive(Clone, Copy, Debug, PartialEq, Eq, Structural)]
pub enum StorageError {
    NotFound,
    CapacityExhausted,
    Backend,
}

/// The exact account each storage failure carries to the wire.
pub open spec fn storage_error_text(e: StorageError) -> Seq<char> {
    match e {
        StorageError::NotFound => "no such record"@,
        StorageError::CapacityExhausted => "identity space exhausted"@,
        StorageError::Backend => "storage backend failure"@,
    }
}

impl StorageError {
    /// A short account of the failure, fit for the wire.
    pub fn message(&self) -> (s: String)
        ensures
            s@ == storage_error_text(*self),
            text_ok(s@),
    {
        match self {
            StorageError::NotFound => {
                proof {
                    reveal_strlit("no such record");
                }
                String::from_str("no such record")
            },
            StorageError::CapacityExhausted => {
                proof {
                    reveal_strlit("identity space exhausted");
                }
                String::from_str("identity space exhausted")
            },
            StorageError::Backend => {
                proof {
                    reveal_strlit("storage backend failure");
                }
                String::from_str("storage backend failure")
            },
        }
    }
}

/// The identities named by a change event.
pub open spec fn id_list(ids: Seq<i32>) -> Seq<int> {
    ids.map_values(|v: i32| v as int)
}

/// Whether a change event names this identity.
fn has_id(ids: &Vec<i32>, v: i32) -> (b: bool)
    ensures
        b == id_list(ids@).contains(v as int),
{
    let mut k: usize = 0;
    while k < ids.len()
        invariant
            k <= ids@.len(),
            forall|m: int| 0 <= m < k ==> (#[trigger] ids@[m]) != v,
        decreases ids@.len() - k,
    {
        if ids[k] == v {
            proof {
                assert(id_list(ids@)[k as int] == v as int);
            }
            return true;
        }
        k = k + 1;
    }
    proof {
        if id_list(ids@).contains(v as int) {
            let j = choose|j: int| 0 <= j < id_list(ids@).len() && id_list(ids@)[j] == v as int;
            assert(ids@[j] as int == v as int);
        }
    }
    false
}

/// The capability interface over the store.  Every operation is a single
/// request: a query failure is an error result, never a fault.
pub trait ArrowDB: Sized {
    /// The abstract contents of the store.  An unverified backend that does
    /// not model its contents leaves the default, the empty store.
    open spec fn view(&self) -> StoreView {
        StoreView {
            bows: Seq::<BowV>::empty(),
            arrows: Seq::<ArrowV>::empty(),
            series: Seq::<MeasureSeriesV>::empty(),
            measures: Seq::<MeasureV>::empty(),
            points: Seq::<MeasurePointV>::empty(),
        }
    }

    /// The backend's internal well-formedness; trivial by default.
    open spec fn inv(&self) -> bool {
        true
    }

    /// Lists every equipment unit.
    fn list_bows(&self) -> (r: Result<Vec<Bow>, StorageError>)
        requires
            self.inv(),
        ensures
            match r {
                Ok(v) => seq_view(v@) == self.view().bows && bows_wf(seq_view(v@)),
                Err(_) => true,
            },
    ;

    /// Persists a new equipment unit under a fresh identity.
    fn add_bow(&mut self, bow: Bow) -> (r: Result<Bow, StorageError>)
        requires
            old(self).inv(),
            bow@.wf(),
        ensures
            final(self).inv(),
            match r {
                Ok(b) => b@.wf() && b@.id >= 1 && b@ == (BowV { id: b@.id, ..bow@ }) && (forall|
                    k: int,
                |
                    0 <= k < old(self).view().bows.len() ==> (
                    #[trigger] old(self).view().bows[k]).id != b@.id) && final(self).view() == (
                StoreView { bows: old(self).view().bows.push(b@), ..old(self).view() }),
                Err(_) => final(self).view() == old(self).view(),
            },
    ;

    /// Replaces the equipment unit that carries the given record's identity.
    fn update_bow(&mut self, bow: Bow) -> (r: Result<Bow, StorageError>)
        requires
            old(self).inv(),
            bow@.wf(),
        ensures
            final(self).inv(),
            match r {
                Ok(b) => b@ == bow@ && exists|k: int|
                    0 <= k < old(self).view().bows.len() && (
                    #[trigger] old(self).view().bows[k]).id == bow@.id && final(self).view() == (
                    StoreView { bows: old(self).view().bows.update(k, bow@), ..old(self).view() }),
                Err(_) => final(self).view() == old(self).view(),
            },
    ;

    /// Removes every equipment unit with the given identity and reports how
    /// many were removed.
    fn delete_bow(&mut self, bow_id: i32) -> (r: Result<i32, StorageError>)
        requires
            old(self).inv(),
        ensures
            final(self).inv(),
            match r {
                Ok(n) => n >= 0 && final(self).view() == (StoreView {
                    bows: old(self).view().bows.filter(|b: BowV| b.id != bow_id as int),
                    ..old(self).view()
                }),
                Err(_) => final(self).view() == old(self).view(),
            },
    ;

    /// Lists the measurement series of one equipment unit.
    fn list_measurement_series(&self, id: i32) -> (r: Result<Vec<MeasureSeries>, StorageError>)
        requires
            self.inv(),
        ensures
            match r {
                Ok(v) => seq_view(v@) == self.view().series.filter(
                    |x: MeasureSeriesV| x.bow_id == id as int,
                ) && series_list_wf(seq_view(v@)),
                Err(_) => true,
            },
    ;

    /// Persists a new measurement series under a fresh identity.
    fn add_measure_series(&mut self, series: MeasureSeries) -> (r: Result<
        MeasureSeries,
        StorageError,
    >)
        requires
            old(self).inv(),
            series@.wf(),
        ensures
            final(self).inv(),
            match r {
                Ok(b) => b@.wf() && b@.id >= 1 && b@ == (MeasureSeriesV { id: b@.id, ..series@ })
                    && final(self).view() == (StoreView {
                    series: old(self).view().series.push(b@),
                    ..old(self).view()
                }),
                Err(_) => final(self).view() == old(self).view(),
            },
    ;

    /// Lists the projectiles of one equipment unit.
    fn list_arrows(&self, id: i32) -> (r: Result<Vec<Arrow>, StorageError>)
        requires
            self.inv(),
        ensures
            match r {
                Ok(v) => seq_view(v@) == self.view().arrows.filter(
                    |x: ArrowV| x.bow_id == id as int,
                ) && arrows_wf(seq_view(v@)),
                Err(_) => true,
            },
    ;

    /// Persists a new projectile under a fresh identity.
    fn add_arrow(&mut self, arrow: Arrow) -> (r: Result<Arrow, StorageError>)
        requires
            old(self).inv(),
            arrow@.wf(),
        ensures
            final(self).inv(),
            match r {
                Ok(b) => b@.wf() && b@.id >= 1 && b@ == (ArrowV { id: b@.id, ..arrow@ })
                    && final(self).view() == (StoreView {
                    arrows: old(self).view().arrows.push(b@),
                    ..old(self).view()
                }),
                Err(_) => final(self).view() == old(self).view(),
            },
    ;

    /// Lists the measurement runs of one series.
    fn list_measures(&self, id: i32) -> (r: Result<Vec<Measure>, StorageError>)
        requires
            self.inv(),
        ensures
            match r {
                Ok(v) => seq_view(v@) == self.view().measures.filter(
                    |x: MeasureV| x.measure_series_id == id as int,
                ) && measures_wf(seq_view(v@)),
                Err(_) => true,
            },
    ;

    /// Persists a new measurement run under a fresh identity.
    fn add_measure(&mut self, measure: Measure) -> (r: Result<Measure, StorageError>)
        requires
            old(self).inv(),
            measure@.wf(),
        ensures
            final(self).inv(),
            match r {
                Ok(b) => b@.wf() && b@.id >= 1 && b@ == (MeasureV { id: b@.id, ..measure@ })
                    && final(self).view() == (StoreView {
                    measures: old(self).view().measures.push(b@),
                    ..old(self).view()
                }),
                Err(_) => final(self).view() == old(self).view(),
            },
    ;

    /// Lists the sample points of one measurement run.
    fn list_measure_points(&self, id: i32) -> (r: Result<Vec<MeasurePoint>, StorageError>)
        requires
            self.inv(),
        ensures
            match r {
                Ok(v) => seq_view(v@) == self.view().points.filter(
                    |x: MeasurePointV| x.measure_id == id as int,
                ) && points_wf(seq_view(v@)),
                Err(_) => true,
            },
    ;

    /// Re-reads the equipment units a change event names.
    fn bows_by_ids(&self, ids: &Vec<i32>) -> (r: Result<Vec<Bow>, StorageError>)
        requires
            self.inv(),
        ensures
            match r {
                Ok(v) => seq_view(v@) == self.view().bows.filter(
                    |x: BowV| id_list(ids@).contains(x.id),
                ) && bows_wf(seq_view(v@)),
                Err(_) => true,
            },
    ;

    /// Re-reads the projectiles a change event names.
    fn arrows_by_ids(&self, ids: &Vec<i32>) -> (r: Result<Vec<Arrow>, StorageError>)
        requires
            self.inv(),
        ensures
            match r {
                Ok(v) => seq_view(v@) == self.view().arrows.filter(
                    |x: ArrowV| id_list(ids@).contains(x.id),
                ) && arrows_wf(seq_view(v@)),
                Err(_) => true,
            },
    ;

    /// Re-reads the measurement series a change event names.
    fn series_by_ids(&self, ids: &Vec<i32>) -> (r: Result<Vec<MeasureSeries>, StorageError>)
        requires
            self.inv(),
        ensures
            match r {
                Ok(v) => seq_view(v@) == self.view().series.filter(
                    |x: MeasureSeriesV| id_list(ids@).contains(x.id),
                ) && series_list_wf(seq_view(v@)),
                Err(_) => true,
            },
    ;

    /// Re-reads the measurement runs a change event names.
    fn measures_by_ids(&self, ids: &Vec<i32>) -> (r: Result<Vec<Measure>, StorageError>)
        requires
            self.inv(),
        ensures
            match r {
                Ok(v) => seq_view(v@) == self.view().measures.filter(
                    |x: MeasureV| id_list(ids@).contains(x.id),
                ) && measures_wf(seq_view(v@)),
                Err(_) => true,
            },
    ;

    /// Re-reads the sample points a change event names.
    fn points_by_ids(&self, ids: &Vec<i32>) -> (r: Result<Vec<MeasurePoint>, StorageError>)
        requires
            self.inv(),
        ensures
            match r {
                Ok(v) => seq_view(v@) == self.view().points.filter(
                    |x: MeasurePointV| id_list(ids@).contains(x.id),
                ) && points_wf(seq_view(v@)),
                Err(_) => true,
            },
    ;
}

/// The verified in-memory backend: record sequences in insertion order, with
/// one identity counter per kind.
pub struct MemoryDB {
    bows: Vec<Bow>,
    arrows: Vec<Arrow>,
    series: Vec<MeasureSeries>,
    measures: Vec<Measure>,
    points: Vec<MeasurePoint>,
    next_bow_id: i32,
    next_arrow_id: i32,
    next_series_id: i32,
    next_measure_id: i32,
    next_point_id: i32,
}

/// Every stored record of this kind is wire-valid and carries an identity
/// below the counter.
pub open spec fn bows_inv(s: Seq<Bow>, next: int) -> bool {
    forall|k: int| 0 <= k < s.len() ==> (#[trigger] s[k])@.wf() && 1 <= s[k]@.id < next
}

/// Every stored record of this kind is wire-valid and carries an identity
/// below the counter.
pub open spec fn arrows_inv(s: Seq<Arrow>, next: int) -> bool {
    forall|k: int| 0 <= k < s.len() ==> (#[trigger] s[k])@.wf() && 1 <= s[k]@.id < next
}

/// Every stored record of this kind is wire-valid and carries an identity
/// below the counter.
pub open spec fn series_inv(s: Seq<MeasureSeries>, next: int) -> bool {
    forall|k: int| 0 <= k < s.len() ==> (#[trigger] s[k])@.wf() && 1 <= s[k]@.id < next
}

/// Every stored record of this kind is wire-valid and carries an identity
/// below the counter.
pub open spec fn measures_inv(s: Seq<Measure>, next: int) -> bool {
    forall|k: int| 0 <= k < s.len() ==> (#[trigger] s[k])@.wf() && 1 <= s[k]@.id < next
}

/// Every stored record of this kind is wire-valid and carries an identity
/// below the counter.
pub open spec fn points_inv(s: Seq<MeasurePoint>, next: int) -> bool {
    forall|k: int| 0 <= k < s.len() ==> (#[trigger] s[k])@.wf() && 1 <= s[k]@.id < next
}

impl MemoryDB {
    /// An empty store.
    pub fn new() -> (r: MemoryDB)
        ensures
            r.inv(),
            r.view() == (StoreView {
                bows: Seq::<BowV>::empty(),
                arrows: Seq::<ArrowV>::empty(),
                series: Seq::<MeasureSeriesV>::empty(),
                measures: Seq::<MeasureV>::empty(),
                points: Seq::<MeasurePointV>::empty(),
            }),
    {
        let r = MemoryDB {
            bows: Vec::new(),
            arrows: Vec::new(),
            series: Vec::new(),
            measures: Vec::new(),
            points: Vec::new(),
            next_bow_id: 1,
            next_arrow_id: 1,
            next_series_id: 1,
            next_measure_id: 1,
            next_point_id: 1,
        };
        proof {
            assert(seq_view(r.bows@) =~= Seq::<BowV>::empty());
            assert(seq_view(r.arrows@) =~= Seq::<ArrowV>::empty());
            assert(seq_view(r.series@) =~= Seq::<MeasureSeriesV>::empty());
            assert(seq_view(r.measures@) =~= Seq::<MeasureV>::empty());
            assert(seq_view(r.points@) =~= Seq::<MeasurePointV>::empty());
            assert(r.view() =~= (StoreView {
                bows: Seq::<BowV>::empty(),
                arrows: Seq::<ArrowV>::empty(),
                series: Seq::<MeasureSeriesV>::empty(),
                measures: Seq::<MeasureV>::empty(),
                points: Seq::<MeasurePointV>::empty(),
            }));
        }
        r
    }

    /// Records a sample point, as the measuring loop would; sample points are
    /// otherwise read-only to this interface.
    pub fn add_point(&mut self, point: MeasurePoint) -> (r: Result<MeasurePoint, StorageError>)
        requires
            old(self).inv(),
            point@.wf(),
        ensures
            final(self).inv(),
            match r {
                Ok(b) => b@.wf() && b@.id >= 1 && b@ == (MeasurePointV { id: b@.id, ..point@ })
                    && final(self).view() == (StoreView {
                    points: old(self).view().points.push(b@),
                    ..old(self).view()
                }),
                Err(_) => final(self).view() == old(self).view(),
            },
            r matches Err(e) ==> e == StorageError::CapacityExhausted,
    {
        if self.next_point_id == i32::MAX {
            return Err(StorageError::CapacityExhausted);
        }
        let b = MeasurePoint { id: self.next_point_id, ..point };
        self.next_point_id = self.next_point_id + 1;
        self.points.push(b.duplicate());
        proof {
            assert(seq_view(self.points@) =~= seq_view(old(self).points@).push(b@));
            assert(self.view() =~= (StoreView {
                points: old(self).view().points.push(b@),
                ..old(self).view()
            }));
        }
        Ok(b)
    }
}

impl ArrowDB for MemoryDB {
    closed spec fn view(&self) -> StoreView {
        StoreView {
            bows: seq_view(self.bows@),
            arrows: seq_view(self.arrows@),
            series: seq_view(self.series@),
            measures: seq_view(self.measures@),
            points: seq_view(self.points@),
        }
    }

    closed spec fn inv(&self) -> bool {
        bows_inv(self.bows@, self.next_bow_id as int) && arrows_inv(
            self.arrows@,
            self.next_arrow_id as int,
        ) && series_inv(self.series@, self.next_series_id as int) && measures_inv(
            self.measures@,
            self.next_measure_id as int,
        ) && points_inv(self.points@, self.next_point_id as int) && self.next_bow_id >= 1
            && self.next_arrow_id >= 1 && self.next_series_id >= 1 && self.next_measure_id >= 1
            && self.next_point_id >= 1
    }

    #[verifier::loop_isolation(false)]
    fn list_bows(&self) -> (r: Result<Vec<Bow>, StorageError>)
        ensures
            r is Ok,
    {
        let mut out: Vec<Bow> = Vec::new();
        let mut k: usize = 0;
        while k < self.bows.len()
            invariant
                self.inv(),
                k <= self.bows@.len(),
                seq_view(out@) =~= seq_view(self.bows@).take(k as int),
            decreases self.bows@.len() - k,
        {
            out.push(self.bows[k].duplicate());
            proof {
                assert(seq_view(out@) =~= seq_view(self.bows@).take(k as int).push(
                    self.bows@[k as int]@,
                ));
                assert(seq_view(self.bows@).take(k as int + 1) =~= seq_view(self.bows@).take(
                    k as int,
                ).push(seq_view(self.bows@)[k as int]));
            }
            k = k + 1;
        }
        proof {
            assert(seq_view(self.bows@).take(self.bows@.len() as int) =~= seq_view(self.bows@));
            assert forall|j: int| 0 <= j < seq_view(out@).len() implies (
            #[trigger] seq_view(out@)[j]).wf() by {
                assert(seq_view(self.bows@)[j] == self.bows@[j]@);
            }
        }
        Ok(out)
    }

    #[verifier::loop_isolation(false)]
    fn list_measurement_series(&self, id: i32) -> (r: Result<Vec<MeasureSeries>, StorageError>) 
        ensures
            r is Ok,
    {
        let mut out: Vec<MeasureSeries> = Vec::new();
        proof {
            reveal(Seq::filter);
        }
        let ghost p = |x: MeasureSeriesV| x.bow_id == id as int;
        let mut k: usize = 0;
        while k < self.series.len()
            invariant
                self.inv(),
                k <= self.series@.len(),
                seq_view(out@) =~= seq_view(self.series@).take(k as int).filter(p),
                forall|j: int| 0 <= j < out@.len() ==> (#[trigger] out@[j])@.wf(),
            decreases self.series@.len() - k,
        {
            let ghost sv = seq_view(self.series@);
            proof {
                assert(sv.take(k as int + 1).drop_last() =~= sv.take(k as int));
                assert(sv.take(k as int + 1).last() == sv[k as int]);
                assert(sv[k as int] == self.series@[k as int]@);
            }
            if self.series[k].bow_id == id {
                out.push(self.series[k].duplicate());
                proof {
                    reveal(Seq::filter);
                    assert(p(sv[k as int]));
                    assert(sv.take(k as int + 1).filter(p) =~= sv.take(k as int).filter(p).push(
                        sv[k as int],
                    ));
                }
            } else {
                proof {
                    reveal(Seq::filter);
                    assert(!p(sv[k as int]));
                    assert(sv.take(k as int + 1).filter(p) =~= sv.take(k as int).filter(p));
                }
            }
            k = k + 1;
        }
        proof {
            let sv = seq_view(self.series@);
            assert(sv.take(sv.len() as int) =~= sv);
            assert forall|j: int| 0 <= j < seq_view(out@).len() implies (
            #[trigger] seq_view(out@)[j]).wf() by {
                assert(seq_view(out@)[j] == out@[j]@);
            }
        }
        Ok(out)
    }

    #[verifier::loop_isolation(false)]
    fn list_arrows(&self, id: i32) -> (r: Result<Vec<Arrow>, StorageError>) 
        ensures
            r is Ok,
    {
        let mut out: Vec<Arrow> = Vec::new();
        proof {
            reveal(Seq::filter);
        }
        let ghost p = |x: ArrowV| x.bow_id == id as int;
        let mut k: usize = 0;
        while k < self.arrows.len()
            invariant
                self.inv(),
                k <= self.arrows@.len(),
                seq_view(out@) =~= seq_view(self.arrows@).take(k as int).filter(p),
                forall|j: int| 0 <= j < out@.len() ==> (#[trigger] out@[j])@.wf(),
            decreases self.arrows@.len() - k,
        {
            let ghost sv = seq_view(self.arrows@);
            proof {
                assert(sv.take(k as int + 1).drop_last() =~= sv.take(k as int));
                assert(sv.take(k as int + 1).last() == sv[k as int]);
                assert(sv[k as int] == self.arrows@[k as int]@);
            }
            if self.arrows[k].bow_id == id {
                out.push(self.arrows[k].duplicate());
                proof {
                    reveal(Seq::filter);
                    assert(p(sv[k as int]));
                    assert(sv.take(k as int + 1).filter(p) =~= sv.take(k as int).filter(p).push(
                        sv[k as int],
                    ));
                }
            } else {
                proof {
                    reveal(Seq::filter);
                    assert(!p(sv[k as int]));
                    assert(sv.take(k as int + 1).filter(p) =~= sv.take(k as int).filter(p));
                }
            }
            k = k + 1;
        }
        proof {
            let sv = seq_view(self.arrows@);
            assert(sv.take(sv.len() as int) =~= sv);
            assert forall|j: int| 0 <= j < seq_view(out@).len() implies (
            #[trigger] seq_view(out@)[j]).wf() by {
                assert(seq_view(out@)[j] == out@[j]@);
            }
        }
        Ok(out)
    }

    #[verifier::loop_isolation(false)]
    fn list_measures(&self, id: i32) -> (r: Result<Vec<Measure>, StorageError>) 
        ensures
            r is Ok,
    {
        let mut out: Vec<Measure> = Vec::new();
        proof {
            reveal(Seq::filter);
        }
        let ghost p = |x: MeasureV| x.measure_series_id == id as int;
        let mut k: usize = 0;
        while k < self.measures.len()
            invariant
                self.inv(),
                k <= self.measures@.len(),
                seq_view(out@) =~= seq_view(self.measures@).take(k as int).filter(p),
                forall|j: int| 0 <= j < out@.len() ==> (#[trigger] out@[j])@.wf(),
            decreases self.measures@.len() - k,
        {
            let ghost sv = seq_view(self.measures@);
            proof {
                assert(sv.take(k as int + 1).drop_last() =~= sv.take(k as int));
                assert(sv.take(k as int + 1).last() == sv[k as int]);
                assert(sv[k as int] == self.measures@[k as int]@);
            }
            if self.measures[k].measure_series_id == id {
                out.push(self.measures[k].duplicate());
                proof {
                    reveal(Seq::filter);
                    assert(p(sv[k as int]));
                    assert(sv.take(k as int + 1).filter(p) =~= sv.take(k as int).filter(p).push(
                        sv[k as int],
                    ));
                }
            } else {
                proof {
                    reveal(Seq::filter);
                    assert(!p(sv[k as int]));
                    assert(sv.take(k as int + 1).filter(p) =~= sv.take(k as int).filter(p));
                }
            }
            k = k + 1;
        }
        proof {
            let sv = seq_view(self.measures@);
            assert(sv.take(sv.len() as int) =~= sv);
            assert forall|j: int| 0 <= j < seq_view(out@).len() implies (
            #[trigger] seq_view(out@)[j]).wf() by {
                assert(seq_view(out@)[j] == out@[j]@);
            }
        }
        Ok(out)
    }

    #[verifier::loop_isolation(false)]
    fn list_measure_points(&self, id: i32) -> (r: Result<Vec<MeasurePoint>, StorageError>) 
        ensures
            r is Ok,
    {
        let mut out: Vec<MeasurePoint> = Vec::new();
        proof {
            reveal(Seq::filter);
        }
        let ghost p = |x: MeasurePointV| x.measure_id == id as int;
        let mut k: usize = 0;
        while k < self.points.len()
            invariant
                self.inv(),
                k <= self.points@.len(),
                seq_view(out@) =~= seq_view(self.points@).take(k as int).filter(p),
                forall|j: int| 0 <= j < out@.len() ==> (#[trigger] out@[j])@.wf(),
            decreases self.points@.len() - k,
        {
            let ghost sv = seq_view(self.points@);
            proof {
                assert(sv.take(k as int + 1).drop_last() =~= sv.take(k as int));
                assert(sv.take(k as int + 1).last() == sv[k as int]);
                assert(sv[k as int] == self.points@[k as int]@);
            }
            if self.points[k].measure_id == id {
                out.push(self.points[k].duplicate());
                proof {
                    reveal(Seq::filter);
                    assert(p(sv[k as int]));
                    assert(sv.take(k as int + 1).filter(p) =~= sv.take(k as int).filter(p).push(
                        sv[k as int],
                    ));
                }
            } else {
                proof {
                    reveal(Seq::filter);
                    assert(!p(sv[k as int]));
                    assert(sv.take(k as int + 1).filter(p) =~= sv.take(k as int).filter(p));
                }
            }
            k = k + 1;
        }
        proof {
            let sv = seq_view(self.points@);
            assert(sv.take(sv.len() as int) =~= sv);
            assert forall|j: int| 0 <= j < seq_view(out@).len() implies (
            #[trigger] seq_view(out@)[j]).wf() by {
                assert(seq_view(out@)[j] == out@[j]@);
            }
        }
        Ok(out)
    }

    #[verifier::loop_isolation(false)]
    fn bows_by_ids(&self, ids: &Vec<i32>) -> (r: Result<Vec<Bow>, StorageError>) 
        ensures
            r is Ok,
    {
        let mut out: Vec<Bow> = Vec::new();
        proof {
            reveal(Seq::filter);
        }
        let ghost p = |x: BowV| id_list(ids@).contains(x.id);
        let mut k: usize = 0;
        while k < self.bows.len()
            invariant
                self.inv(),
                k <= self.bows@.len(),
                seq_view(out@) =~= seq_view(self.bows@).take(k as int).filter(p),
                forall|j: int| 0 <= j < out@.len() ==> (#[trigger] out@[j])@.wf(),
            decreases self.bows@.len() - k,
        {
            let ghost sv = seq_view(self.bows@);
            proof {
                assert(sv.take(k as int + 1).drop_last() =~= sv.take(k as int));
                assert(sv.take(k as int + 1).last() == sv[k as int]);
                assert(sv[k as int] == self.bows@[k as int]@);
            }
            if has_id(ids, self.bows[k].id) {
                out.push(self.bows[k].duplicate());
                proof {
                    reveal(Seq::filter);
                    assert(p(sv[k as int]));
                    assert(sv.take(k as int + 1).filter(p) =~= sv.take(k as int).filter(p).push(
                        sv[k as int],
                    ));
                }
            } else {
                proof {
                    reveal(Seq::filter);
                    assert(!p(sv[k as int]));
                    assert(sv.take(k as int + 1).filter(p) =~= sv.take(k as int).filter(p));
                }
            }
            k = k + 1;
        }
        proof {
            let sv = seq_view(self.bows@);
            assert(sv.take(sv.len() as int) =~= sv);
            assert forall|j: int| 0 <= j < seq_view(out@).len() implies (
            #[trigger] seq_view(out@)[j]).wf() by {
                assert(seq_view(out@)[j] == out@[j]@);
            }
        }
        Ok(out)
    }

    #[verifier::loop_isolation(false)]
    fn arrows_by_ids(&self, ids: &Vec<i32>) -> (r: Result<Vec<Arrow>, StorageError>) 
        ensures
            r is Ok,
    {
        let mut out: Vec<Arrow> = Vec::new();
        proof {
            reveal(Seq::filter);
        }
        let ghost p = |x: ArrowV| id_list(ids@).contains(x.id);
        let mut k: usize = 0;
        while k < self.arrows.len()
            invariant
                self.inv(),
                k <= self.arrows@.len(),
                seq_view(out@) =~= seq_view(self.arrows@).take(k as int).filter(p),
                forall|j: int| 0 <= j < out@.len() ==> (#[trigger] out@[j])@.wf(),
            decreases self.arrows@.len() - k,
        {
            let ghost sv = seq_view(self.arrows@);
            proof {
                assert(sv.take(k as int + 1).drop_last() =~= sv.take(k as int));
                assert(sv.take(k as int + 1).last() == sv[k as int]);
                assert(sv[k as int] == self.arrows@[k as int]@);
            }
            if has_id(ids, self.arrows[k].id) {
                out.push(self.arrows[k].duplicate());
                proof {
                    reveal(Seq::filter);
                    assert(p(sv[k as int]));
                    assert(sv.take(k as int + 1).filter(p) =~= sv.take(k as int).filter(p).push(
                        sv[k as int],
                    ));
                }
            } else {
                proof {
                    reveal(Seq::filter);
                    assert(!p(sv[k as int]));
                    assert(sv.take(k as int + 1).filter(p) =~= sv.take(k as int).filter(p));
                }
            }
            k = k + 1;
        }
        proof {
            let sv = seq_view(self.arrows@);
            assert(sv.take(sv.len() as int) =~= sv);
            assert forall|j: int| 0 <= j < seq_view(out@).len() implies (
            #[trigger] seq_view(out@)[j]).wf() by {
                assert(seq_view(out@)[j] == out@[j]@);
            }
        }
        Ok(out)
    }

    #[verifier::loop_isolation(false)]
    fn series_by_ids(&self, ids: &Vec<i32>) -> (r: Result<Vec<MeasureSeries>, StorageError>) 
        ensures
            r is Ok,
    {
        let mut out: Vec<MeasureSeries> = Vec::new();
        proof {
            reveal(Seq::filter);
        }
        let ghost p = |x: MeasureSeriesV| id_list(ids@).contains(x.id);
        let mut k: usize = 0;
        while k < self.series.len()
            invariant
                self.inv(),
                k <= self.series@.len(),
                seq_view(out@) =~= seq_view(self.series@).take(k as int).filter(p),
                forall|j: int| 0 <= j < out@.len() ==> (#[trigger] out@[j])@.wf(),
            decreases self.series@.len() - k,
        {
            let ghost sv = seq_view(self.series@);
            proof {
                assert(sv.take(k as int + 1).drop_last() =~= sv.take(k as int));
                assert(sv.take(k as int + 1).last() == sv[k as int]);
                assert(sv[k as int] == self.series@[k as int]@);
            }
            if has_id(ids, self.series[k].id) {
                out.push(self.series[k].duplicate());
                proof {
                    reveal(Seq::filter);
                    assert(p(sv[k as int]));
                    assert(sv.take(k as int + 1).filter(p) =~= sv.take(k as int).filter(p).push(
                        sv[k as int],
                    ));
                }
            } else {
                proof {
                    reveal(Seq::filter);
                    assert(!p(sv[k as int]));
                    assert(sv.take(k as int + 1).filter(p) =~= sv.take(k as int).filter(p));
                }
            }
            k = k + 1;
        }
        proof {
            let sv = seq_view(self.series@);
            assert(sv.take(sv.len() as int) =~= sv);
            assert forall|j: int| 0 <= j < seq_view(out@).len() implies (
            #[trigger] seq_view(out@)[j]).wf() by {
                assert(seq_view(out@)[j] == out@[j]@);
            }
        }
        Ok(out)
    }

    #[verifier::loop_isolation(false)]
    fn measures_by_ids(&self, ids: &Vec<i32>) -> (r: Result<Vec<Measure>, StorageError>) 
        ensures
            r is Ok,
    {
        let mut out: Vec<Measure> = Vec::new();
        proof {
            reveal(Seq::filter);
        }
        let ghost p = |x: MeasureV| id_list(ids@).contains(x.id);
        let mut k: usize = 0;
        while k < self.measures.len()
            invariant
                self.inv(),
                k <= self.measures@.len(),
                seq_view(out@) =~= seq_view(self.measures@).take(k as int).filter(p),
                forall|j: int| 0 <= j < out@.len() ==> (#[trigger] out@[j])@.wf(),
            decreases self.measures@.len() - k,
        {
            let ghost sv = seq_view(self.measures@);
            proof {
                assert(sv.take(k as int + 1).drop_last() =~= sv.take(k as int));
                assert(sv.take(k as int + 1).last() == sv[k as int]);
                assert(sv[k as int] == self.measures@[k as int]@);
            }
            if has_id(ids, self.measures[k].id) {
                out.push(self.measures[k].duplicate());
                proof {
                    reveal(Seq::filter);
                    assert(p(sv[k as int]));
                    assert(sv.take(k as int + 1).filter(p) =~= sv.take(k as int).filter(p).push(
                        sv[k as int],
                    ));
                }
            } else {
                proof {
                    reveal(Seq::filter);
                    assert(!p(sv[k as int]));
                    assert(sv.take(k as int + 1).filter(p) =~= sv.take(k as int).filter(p));
                }
            }
            k = k + 1;
        }
        proof {
            let sv = seq_view(self.measures@);
            assert(sv.take(sv.len() as int) =~= sv);
            assert forall|j: int| 0 <= j < seq_view(out@).len() implies (
            #[trigger] seq_view(out@)[j]).wf() by {
                assert(seq_view(out@)[j] == out@[j]@);
            }
        }
        Ok(out)
    }

    #[verifier::loop_isolation(false)]
    fn points_by_ids(&self, ids: &Vec<i32>) -> (r: Result<Vec<MeasurePoint>, StorageError>) 
        ensures
            r is Ok,
    {
        let mut out: Vec<MeasurePoint> = Vec::new();
        proof {
            reveal(Seq::filter);
        }
        let ghost p = |x: MeasurePointV| id_list(ids@).contains(x.id);
        let mut k: usize = 0;
        while k < self.points.len()
            invariant
                self.inv(),
                k <= self.points@.len(),
                seq_view(out@) =~= seq_view(self.points@).take(k as int).filter(p),
                forall|j: int| 0 <= j < out@.len() ==> (#[trigger] out@[j])@.wf(),
            decreases self.points@.len() - k,
        {
            let ghost sv = seq_view(self.points@);
            proof {
                assert(sv.take(k as int + 1).drop_last() =~= sv.take(k as int));
                assert(sv.take(k as int + 1).last() == sv[k as int]);
                assert(sv[k as int] == self.points@[k as int]@);
            }
            if has_id(ids, self.points[k].id) {
                out.push(self.points[k].duplicate());
                proof {
                    reveal(Seq::filter);
                    assert(p(sv[k as int]));
                    assert(sv.take(k as int + 1).filter(p) =~= sv.take(k as int).filter(p).push(
                        sv[k as int],
                    ));
                }
            } else {
                proof {
                    reveal(Seq::filter);
                    assert(!p(sv[k as int]));
                    assert(sv.take(k as int + 1).filter(p) =~= sv.take(k as int).filter(p));
                }
            }
            k = k + 1;
        }
        proof {
            let sv = seq_view(self.points@);
            assert(sv.take(sv.len() as int) =~= sv);
            assert forall|j: int| 0 <= j < seq_view(out@).len() implies (
            #[trigger] seq_view(out@)[j]).wf() by {
                assert(seq_view(out@)[j] == out@[j]@);
            }
        }
        Ok(out)
    }

    fn add_bow(&mut self, bow: Bow) -> (r: Result<Bow, StorageError>) 
        ensures
            r matches Err(e) ==> e == StorageError::CapacityExhausted,
    {
        if self.next_bow_id == i32::MAX {
            return Err(StorageError::CapacityExhausted);
        }
        let b = Bow { id: self.next_bow_id, ..bow };
        self.next_bow_id = self.next_bow_id + 1;
        self.bows.push(b.duplicate());
        proof {
            assert(seq_view(self.bows@) =~= seq_view(old(self).bows@).push(b@));
            assert(self.view() =~= (StoreView { bows: old(self).view().bows.push(b@), ..old(self).view() }));
            assert forall|k: int|
                0 <= k < old(self).view().bows.len() implies (#[trigger] old(
                self,
            ).view().bows[k]).id != b@.id by {
                assert(old(self).view().bows[k] == old(self).bows@[k]@);
            }
        }
        Ok(b)
    }

    fn add_arrow(&mut self, arrow: Arrow) -> (r: Result<Arrow, StorageError>) 
        ensures
            r matches Err(e) ==> e == StorageError::CapacityExhausted,
    {
        if self.next_arrow_id == i32::MAX {
            return Err(StorageError::CapacityExhausted);
        }
        let b = Arrow { id: self.next_arrow_id, ..arrow };
        self.next_arrow_id = self.next_arrow_id + 1;
        self.arrows.push(b.duplicate());
        proof {
            assert(seq_view(self.arrows@) =~= seq_view(old(self).arrows@).push(b@));
            assert(self.view() =~= (StoreView { arrows: old(self).view().arrows.push(b@), ..old(self).view() }));
            assert forall|k: int|
                0 <= k < old(self).view().arrows.len() implies (#[trigger] old(
                self,
            ).view().arrows[k]).id != b@.id by {
                assert(old(self).view().arrows[k] == old(self).arrows@[k]@);
            }
        }
        Ok(b)
    }

    fn add_measure_series(&mut self, series: MeasureSeries) -> (r: Result<MeasureSeries, StorageError>) 
        ensures
            r matches Err(e) ==> e == StorageError::CapacityExhausted,
    {
        if self.next_series_id == i32::MAX {
            return Err(StorageError::CapacityExhausted);
        }
        let b = MeasureSeries { id: self.next_series_id, ..series };
        self.next_series_id = self.next_series_id + 1;
        self.series.push(b.duplicate());
        proof {
            assert(seq_view(self.series@) =~= seq_view(old(self).series@).push(b@));
            assert(self.view() =~= (StoreView { series: old(self).view().series.push(b@), ..old(self).view() }));
            assert forall|k: int|
                0 <= k < old(self).view().series.len() implies (#[trigger] old(
                self,
            ).view().series[k]).id != b@.id by {
                assert(old(self).view().series[k] == old(self).series@[k]@);
            }
        }
        Ok(b)
    }

    fn add_measure(&mut self, measure: Measure) -> (r: Result<Measure, StorageError>) 
        ensures
            r matches Err(e) ==> e == StorageError::CapacityExhausted,
    {
        if self.next_measure_id == i32::MAX {
            return Err(StorageError::CapacityExhausted);
        }
        let b = Measure { id: self.next_measure_id, ..measure };
        self.next_measure_id = self.next_measure_id + 1;
        self.measures.push(b.duplicate());
        proof {
            assert(seq_view(self.measures@) =~= seq_view(old(self).measures@).push(b@));
            assert(self.view() =~= (StoreView { measures: old(self).view().measures.push(b@), ..old(self).view() }));
            assert forall|k: int|
                0 <= k < old(self).view().measures.len() implies (#[trigger] old(
                self,
            ).view().measures[k]).id != b@.id by {
                assert(old(self).view().measures[k] == old(self).measures@[k]@);
            }
        }
        Ok(b)
    }

    #[verifier::loop_isolation(false)]
    fn update_bow(&mut self, bow: Bow) -> (r: Result<Bow, StorageError>)
        ensures
            r is Ok <==> exists|k: int|
                0 <= k < old(self).view().bows.len() && (#[trigger] old(self).view().bows[k]).id
                    == bow@.id,
            r matches Err(e) ==> e == StorageError::NotFound,
    {
        let n = self.bows.len();
        let mut k: usize = 0;
        while k < n
            invariant
                *self == *old(self),
                self.inv(),
                n == self.bows@.len(),
                k <= n,
                forall|m: int| 0 <= m < k ==> (#[trigger] self.bows@[m]).id != bow.id,
            decreases n - k,
        {
            if self.bows[k].id == bow.id {
                proof {
                    assert(self.view().bows[k as int] == self.bows@[k as int]@);
                }
                let ghost pre = *self;
                let b = bow.duplicate();
                self.bows.remove(k);
                self.bows.insert(k, b);
                proof {
                    assert(self.bows@ =~= pre.bows@.update(k as int, b));
                    assert(seq_view(self.bows@) =~= seq_view(pre.bows@).update(k as int, bow@));
                    assert(self.view() =~= (StoreView {
                        bows: pre.view().bows.update(k as int, bow@),
                        ..pre.view()
                    }));
                    assert(pre.view().bows[k as int] == pre.bows@[k as int]@);
                    assert forall|m: int|
                        0 <= m < self.bows@.len() implies (#[trigger] self.bows@[m])@.wf() && 1
                        <= self.bows@[m]@.id < self.next_bow_id by {
                        if m != k {
                            assert(self.bows@[m] == pre.bows@[m]);
                        }
                    }
                }
                return Ok(bow);
            }
            k = k + 1;
        }
        proof {
            assert forall|m: int| 0 <= m < self.view().bows.len() implies (
            #[trigger] self.view().bows[m]).id != bow@.id by {
                assert(self.view().bows[m] == self.bows@[m]@);
            }
        }
        Err(StorageError::NotFound)
    }

    #[verifier::loop_isolation(false)]
    fn delete_bow(&mut self, bow_id: i32) -> (r: Result<i32, StorageError>)
        ensures
            r is Ok,
    {
        let ghost pre = *self;
        proof {
            reveal(Seq::filter);
        }
        let ghost p = |x: BowV| x.id != bow_id as int;
        let mut kept: Vec<Bow> = Vec::new();
        let mut k: usize = 0;
        while k < self.bows.len()
            invariant
                *self == pre,
                self.inv(),
                k <= self.bows@.len(),
                kept@.len() <= k,
                seq_view(kept@) =~= seq_view(self.bows@).take(k as int).filter(p),
                forall|j: int|
                    0 <= j < kept@.len() ==> (#[trigger] kept@[j])@.wf() && 1 <= kept@[j]@.id
                        < self.next_bow_id,
            decreases self.bows@.len() - k,
        {
            let ghost sv = seq_view(self.bows@);
            proof {
                assert(sv.take(k as int + 1).drop_last() =~= sv.take(k as int));
                assert(sv.take(k as int + 1).last() == sv[k as int]);
                assert(sv[k as int] == self.bows@[k as int]@);
            }
            if self.bows[k].id != bow_id {
                kept.push(self.bows[k].duplicate());
                proof {
                    reveal(Seq::filter);
                    assert(p(sv[k as int]));
                    assert(sv.take(k as int + 1).filter(p) =~= sv.take(k as int).filter(p).push(
                        sv[k as int],
                    ));
                }
            } else {
                proof {
                    reveal(Seq::filter);
                    assert(!p(sv[k as int]));
                    assert(sv.take(k as int + 1).filter(p) =~= sv.take(k as int).filter(p));
                }
            }
            k = k + 1;
        }
        let n = self.bows.len();
        let removed = n - kept.len();
        self.bows = kept;
        proof {
            let sv = seq_view(pre.bows@);
            assert(sv.take(sv.len() as int) =~= sv);
            assert(self.view() =~= (StoreView { bows: pre.view().bows.filter(p), ..pre.view() }));
        }
        if removed > 2_147_483_647 {
            Ok(2_147_483_647)
        } else {
            Ok(removed as i32)
        }
    }
}

} // verus!
