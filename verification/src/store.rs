//! The store access layer: an in-memory relational store with two
//! relations, `trails` and `pois`.
//!
//! The layer exposes parameterized reads (`fetch_trail`, `fetch_trails`,
//! `fetch_pois`) and returning-style inserts (`insert_trail`,
//! `insert_poi`). It knows nothing of the graph query language: rows go in
//! and out in scan order, ids are assigned by the store on insert and never
//! reused, and the `pois.hiking_trail` foreign key into `trails.id` is
//! enforced on insert.

use vstd::prelude::*;

use crate::models::{
    poi_row_views, trail_row_views, HikingTrailDB, NewHikingTrailDB, NewPOIDB, PoiDB, PoiRow,
    TrailRow,
};

verus! {

/// A rejection by the store itself.
#[derive(Clone, Copy, Debug, PartialEq, Eq, Structural)]
pub enum StoreError {
    /// An inserted row referenced a key no row of the referenced relation
    /// carries.
    ForeignKeyViolation,
    /// The relation has no assignable id left.
    IdSpaceExhausted,
}

/// The predicate selecting trail rows by id.
pub open spec fn trail_id_pred(id: int) -> spec_fn(TrailRow) -> bool {
    |t: TrailRow| t.id == id
}

/// The predicate selecting POI rows by their foreign key.
pub open spec fn poi_fk_pred(fk: int) -> spec_fn(PoiRow) -> bool {
    |p: PoiRow| p.hiking_trail == fk
}

/// The trail rows carrying this id, in scan order.
pub open spec fn trails_with_id(rows: Seq<TrailRow>, id: int) -> Seq<TrailRow> {
    rows.filter(trail_id_pred(id))
}

/// The POI rows whose foreign key equals `fk`, in scan order.
pub open spec fn pois_with_fk(rows: Seq<PoiRow>, fk: int) -> Seq<PoiRow> {
    rows.filter(poi_fk_pred(fk))
}

/// The whole store at the view level: the two relations in scan order, and
/// the next id each relation will assign.
#[verifier::ext_equal]
pub struct StoreV {
    pub trails: Seq<TrailRow>,
    pub pois: Seq<PoiRow>,
    pub next_trail_id: int,
    pub next_poi_id: int,
}

impl StoreV {
    /// Well-formedness: ids start at 1 and stay below the relation's next
    /// id, ids are unique within a relation, and every POI's foreign key is
    /// the id of some trail row.
    pub open spec fn wf(self) -> bool {
        &&& 1 <= self.next_trail_id <= i32::MAX
        &&& 1 <= self.next_poi_id <= i32::MAX
        &&& forall|i: int|
            0 <= i < self.trails.len() ==> 1 <= (#[trigger] self.trails[i]).id < self.next_trail_id
        &&& forall|i: int, j: int|
            0 <= i < j < self.trails.len() ==> self.trails[i].id != self.trails[j].id
        &&& forall|i: int|
            0 <= i < self.pois.len() ==> 1 <= (#[trigger] self.pois[i]).id < self.next_poi_id
        &&& forall|i: int, j: int|
            0 <= i < j < self.pois.len() ==> self.pois[i].id != self.pois[j].id
        &&& forall|i: int|
            0 <= i < self.pois.len() ==> self.has_trail((#[trigger] self.pois[i]).hiking_trail)
    }

    /// Whether some trail row carries this id.
    pub open spec fn has_trail(self, id: int) -> bool {
        trails_with_id(self.trails, id).len() > 0
    }

    /// The first trail row carrying this id, in scan order.
    pub open spec fn trail_with_id(self, id: int) -> TrailRow {
        trails_with_id(self.trails, id)[0]
    }

    /// The POI rows owned by the trail with this id, in scan order.
    pub open spec fn pois_of(self, id: int) -> Seq<PoiRow> {
        pois_with_fk(self.pois, id)
    }
}

/// One step of a scan: filtering a sequence extended by one element keeps
/// the filtered prefix and appends the element exactly when it matches.
pub proof fn lemma_filter_push<A>(s: Seq<A>, x: A, pred: spec_fn(A) -> bool)
    ensures
        s.push(x).filter(pred) == (if pred(x) {
            s.filter(pred).push(x)
        } else {
            s.filter(pred)
        }),
{
    reveal(Seq::filter);
    assert(s.push(x).drop_last() =~= s);
    assert(s.push(x).last() == x);
}

/// A sequence none of whose elements matches filters to the empty sequence.
pub proof fn lemma_filter_all_false<A>(s: Seq<A>, pred: spec_fn(A) -> bool)
    requires
        forall|i: int| 0 <= i < s.len() ==> !pred(#[trigger] s[i]),
    ensures
        s.filter(pred) == Seq::<A>::empty(),
    decreases s.len(),
{
    reveal(Seq::filter);
    if s.len() > 0 {
        assert(forall|i: int| 0 <= i < s.drop_last().len() ==> !pred(#[trigger] s.drop_last()[i]));
        lemma_filter_all_false(s.drop_last(), pred);
    }
}

/// Every element of a filtered sequence is an element of the original.
pub proof fn lemma_filter_elements_in<A>(s: Seq<A>, pred: spec_fn(A) -> bool, i: int)
    requires
        0 <= i < s.filter(pred).len(),
    ensures
        s.contains(s.filter(pred)[i]),
    decreases s.len(),
{
    reveal(Seq::filter);
    broadcast use Seq::lemma_filter_len;

    if s.len() > 0 {
        let sub = s.drop_last().filter(pred);
        if pred(s.last()) && i == sub.len() {
            assert(s.filter(pred)[i] == s.last());
            assert(s[s.len() - 1] == s.last());
        } else {
            lemma_filter_elements_in(s.drop_last(), pred, i);
            let x = s.drop_last().filter(pred)[i];
            let j = choose|j: int| 0 <= j < s.drop_last().len() && s.drop_last()[j] == x;
            assert(s[j] == x);
        }
    }
}

/// In a well-formed store, any id some trail row carries is at least 1 and
/// below the next trail id.
pub proof fn lemma_has_trail_id_below_next(s: StoreV, id: int)
    requires
        s.wf(),
        s.has_trail(id),
    ensures
        1 <= id < s.next_trail_id,
{
    let rows = trails_with_id(s.trails, id);
    Seq::lemma_filter_pred(s.trails, trail_id_pred(id), 0);
    lemma_filter_elements_in(s.trails, trail_id_pred(id), 0);
    let j = choose|j: int| 0 <= j < s.trails.len() && s.trails[j] == rows[0];
    assert(s.trails[j] == rows[0]);
}

/// The relational store. Rows are kept in scan order; ids are assigned by
/// the store on insert, starting at 1, and never reused.
pub struct Store {
    trails: Vec<HikingTrailDB>,
    pois: Vec<PoiDB>,
    next_trail_id: i32,
    next_poi_id: i32,
}

impl View for Store {
    type V = StoreV;

    closed spec fn view(&self) -> StoreV {
        StoreV {
            trails: trail_row_views(self.trails@),
            pois: poi_row_views(self.pois@),
            next_trail_id: self.next_trail_id as int,
            next_poi_id: self.next_poi_id as int,
        }
    }
}

impl Store {
    /// A store holding no rows at all.
    pub fn new() -> (res: Store)
        ensures
            res@.trails == Seq::<TrailRow>::empty(),
            res@.pois == Seq::<PoiRow>::empty(),
            res@.next_trail_id == 1,
            res@.next_poi_id == 1,
            res.wf(),
    {
        let s = Store { trails: Vec::new(), pois: Vec::new(), next_trail_id: 1, next_poi_id: 1 };
        proof {
            assert(s@.trails =~= Seq::<TrailRow>::empty());
            assert(s@.pois =~= Seq::<PoiRow>::empty());
        }
        s
    }

    /// Well-formedness of the store, established by `new` and preserved by
    /// every operation.
    pub open spec fn wf(&self) -> bool {
        self@.wf()
    }

    /// Fetches the first trail row carrying the given id, if any: the
    /// one-row read `SELECT .. FROM trails WHERE id = $1 LIMIT 1`.
    pub fn fetch_trail(&self, id: i32) -> (res: Option<HikingTrailDB>)
        ensures
            res is Some <==> self@.has_trail(id as int),
            res matches Some(row) ==> row@ == self@.trail_with_id(id as int),
    {
        let ghost pred = trail_id_pred(id as int);
        let mut i: usize = 0;
        while i < self.trails.len()
            invariant
                i <= self.trails.len(),
                pred == trail_id_pred(id as int),
                self@.trails == trail_row_views(self.trails@),
                self@.trails.subrange(0, i as int).filter(pred).len() == 0,
            decreases self.trails.len() - i,
        {
            let ghost prefix = self@.trails.subrange(0, i as int);
            if self.trails[i].id == id {
                proof {
                    let rows = self@.trails;
                    lemma_filter_push(prefix, rows[i as int], pred);
                    assert(prefix.push(rows[i as int]) =~= rows.subrange(0, i as int + 1));
                    let head = rows.subrange(0, i as int + 1).filter(pred);
                    assert(head == prefix.filter(pred).push(rows[i as int]));
                    assert(head.len() == 1 && head[0] == rows[i as int]);
                    assert(rows =~= rows.subrange(0, i as int + 1) + rows.subrange(
                        i as int + 1,
                        rows.len() as int,
                    ));
                    Seq::filter_distributes_over_add(
                        rows.subrange(0, i as int + 1),
                        rows.subrange(i as int + 1, rows.len() as int),
                        pred,
                    );
                    assert(trails_with_id(rows, id as int) == head + rows.subrange(
                        i as int + 1,
                        rows.len() as int,
                    ).filter(pred));
                    assert(trails_with_id(rows, id as int)[0] == rows[i as int]);
                }
                return Some(self.trails[i].clone());
            }
            proof {
                lemma_filter_push(prefix, self@.trails[i as int], pred);
                assert(prefix.push(self@.trails[i as int]) =~= self@.trails.subrange(
                    0,
                    i as int + 1,
                ));
            }
            i += 1;
        }
        proof {
            assert(self@.trails.subrange(0, i as int) =~= self@.trails);
        }
        None
    }

    /// Fetches every trail row in scan order: the read
    /// `SELECT .. FROM trails`.
    pub fn fetch_trails(&self) -> (res: Vec<HikingTrailDB>)
        ensures
            trail_row_views(res@) == self@.trails,
    {
        let mut out: Vec<HikingTrailDB> = Vec::new();
        let mut i: usize = 0;
        while i < self.trails.len()
            invariant
                i <= self.trails.len(),
                self@.trails == trail_row_views(self.trails@),
                trail_row_views(out@) == self@.trails.subrange(0, i as int),
            decreases self.trails.len() - i,
        {
            let ghost old_out = out@;
            out.push(self.trails[i].clone());
            proof {
                assert(trail_row_views(out@) =~= trail_row_views(old_out).push(
                    self@.trails[i as int],
                ));
                assert(trail_row_views(out@) =~= self@.trails.subrange(0, i as int + 1));
            }
            i += 1;
        }
        proof {
            assert(self@.trails.subrange(0, i as int) =~= self@.trails);
        }
        out
    }

    /// Fetches the POI rows whose foreign key equals `trail_id`, in scan
    /// order: the read `SELECT .. FROM pois WHERE hiking_trail = $1`.
    pub fn fetch_pois(&self, trail_id: i32) -> (res: Vec<PoiDB>)
        ensures
            poi_row_views(res@) == self@.pois_of(trail_id as int),
    {
        let ghost pred = poi_fk_pred(trail_id as int);
        let mut out: Vec<PoiDB> = Vec::new();
        let mut i: usize = 0;
        while i < self.pois.len()
            invariant
                i <= self.pois.len(),
                pred == poi_fk_pred(trail_id as int),
                self@.pois == poi_row_views(self.pois@),
                poi_row_views(out@) == self@.pois.subrange(0, i as int).filter(pred),
            decreases self.pois.len() - i,
        {
            let ghost prefix = self@.pois.subrange(0, i as int);
            let ghost old_out = out@;
            if self.pois[i].hiking_trail == trail_id {
                out.push(self.pois[i].clone());
                proof {
                    assert(poi_row_views(out@) =~= poi_row_views(old_out).push(
                        self@.pois[i as int],
                    ));
                }
            }
            proof {
                lemma_filter_push(prefix, self@.pois[i as int], pred);
                assert(prefix.push(self@.pois[i as int]) =~= self@.pois.subrange(0, i as int + 1));
            }
            i += 1;
        }
        proof {
            assert(self@.pois.subrange(0, i as int) =~= self@.pois);
        }
        out
    }

    /// Inserts a trail row with a store-assigned id and returns the stored
    /// row: the write `INSERT INTO trails .. RETURNING ..`. Fails only when
    /// the relation's id space is spent; a failed insert leaves the store
    /// unchanged.
    pub fn insert_trail(&mut self, row: NewHikingTrailDB) -> (res: Result<
        HikingTrailDB,
        StoreError,
    >)
        requires
            old(self).wf(),
        ensures
            final(self).wf(),
            res is Ok <==> old(self)@.next_trail_id < i32::MAX,
            res matches Ok(r) ==> {
                &&& r@ == (TrailRow {
                    id: old(self)@.next_trail_id,
                    name: row@.name,
                    location: row@.location,
                })
                &&& final(self)@ == (StoreV {
                    trails: old(self)@.trails.push(r@),
                    next_trail_id: old(self)@.next_trail_id + 1,
                    ..old(self)@
                })
            },
            res is Err ==> {
                &&& *final(self) == *old(self)
                &&& res == Err::<HikingTrailDB, StoreError>(StoreError::IdSpaceExhausted)
            },
    {
        if self.next_trail_id >= i32::MAX {
            return Err(StoreError::IdSpaceExhausted);
        }
        let id = self.next_trail_id;
        self.next_trail_id = id + 1;
        let new_row = HikingTrailDB { id, name: row.name, location: row.location };
        let out = new_row.clone();
        let ghost old_trails = self.trails@;
        self.trails.push(new_row);
        proof {
            assert(self@.trails =~= trail_row_views(old_trails).push(out@));
            assert(self@ =~= (StoreV {
                trails: old(self)@.trails.push(out@),
                next_trail_id: old(self)@.next_trail_id + 1,
                ..old(self)@
            }));
            lemma_insert_trail_preserves_wf(old(self)@, out@);
        }
        Ok(out)
    }

    /// Inserts a POI row with a store-assigned id and returns the stored
    /// row: the write `INSERT INTO pois .. RETURNING ..`. Fails when the
    /// foreign key references no trail row, or when the relation's id space
    /// is spent; a failed insert leaves the store unchanged.
    pub fn insert_poi(&mut self, row: NewPOIDB) -> (res: Result<PoiDB, StoreError>)
        requires
            old(self).wf(),
        ensures
            final(self).wf(),
            res is Ok <==> (old(self)@.has_trail(row@.hiking_trail) && old(self)@.next_poi_id
                < i32::MAX),
            res matches Ok(r) ==> {
                &&& r@ == (PoiRow {
                    id: old(self)@.next_poi_id,
                    hiking_trail: row@.hiking_trail,
                    name: row@.name,
                    description: row@.description,
                    location: row@.location,
                })
                &&& final(self)@ == (StoreV {
                    pois: old(self)@.pois.push(r@),
                    next_poi_id: old(self)@.next_poi_id + 1,
                    ..old(self)@
                })
            },
            res is Err ==> *final(self) == *old(self),
            !old(self)@.has_trail(row@.hiking_trail) ==> res == Err::<PoiDB, StoreError>(
                StoreError::ForeignKeyViolation,
            ),
            old(self)@.has_trail(row@.hiking_trail) && old(self)@.next_poi_id >= i32::MAX ==> res
                == Err::<PoiDB, StoreError>(StoreError::IdSpaceExhausted),
    {
        if self.fetch_trail(row.hiking_trail).is_none() {
            return Err(StoreError::ForeignKeyViolation);
        }
        if self.next_poi_id >= i32::MAX {
            return Err(StoreError::IdSpaceExhausted);
        }
        let id = self.next_poi_id;
        self.next_poi_id = id + 1;
        let new_row = PoiDB {
            id,
            hiking_trail: row.hiking_trail,
            name: row.name,
            description: row.description,
            location: row.location,
        };
        let out = new_row.clone();
        let ghost old_pois = self.pois@;
        self.pois.push(new_row);
        proof {
            assert(self@.pois =~= poi_row_views(old_pois).push(out@));
            assert(self@ =~= (StoreV {
                pois: old(self)@.pois.push(out@),
                next_poi_id: old(self)@.next_poi_id + 1,
                ..old(self)@
            }));
            lemma_insert_poi_preserves_wf(old(self)@, out@);
        }
        Ok(out)
    }
}

/// Appending a fresh trail row — id equal to the next id, which every
/// stored id is below — keeps the store well-formed.
proof fn lemma_insert_trail_preserves_wf(s: StoreV, r: TrailRow)
    requires
        s.wf(),
        s.next_trail_id < i32::MAX,
        r.id == s.next_trail_id,
    ensures
        (StoreV { trails: s.trails.push(r), next_trail_id: s.next_trail_id + 1, ..s }).wf(),
{
    let s2 = StoreV { trails: s.trails.push(r), next_trail_id: s.next_trail_id + 1, ..s };
    assert forall|i: int| 0 <= i < s2.pois.len() implies s2.has_trail(
        (#[trigger] s2.pois[i]).hiking_trail,
    ) by {
        let fk = s2.pois[i].hiking_trail;
        assert(s.has_trail(fk));
        lemma_filter_push(s.trails, r, trail_id_pred(fk));
    }
}

/// Appending a fresh POI row — id equal to the next id, foreign key valid —
/// keeps the store well-formed.
proof fn lemma_insert_poi_preserves_wf(s: StoreV, r: PoiRow)
    requires
        s.wf(),
        s.next_poi_id < i32::MAX,
        r.id == s.next_poi_id,
        s.has_trail(r.hiking_trail),
    ensures
        (StoreV { pois: s.pois.push(r), next_poi_id: s.next_poi_id + 1, ..s }).wf(),
{
}

} // verus!
