//! The resolution layer: translates a requested root — one trail, the list
//! of all trails, or a creating mutation — into one root fetch plus one
//! dependent POI fetch per root row, assembles the nested records, and
//! applies the empty-result/error policy.
//!
//! The policy: a missing trail, and an empty trail list, fail with
//! [`Failure::NotFound`]; a rejection by the store surfaces as
//! [`Failure::StoreFailure`]; no error is swallowed or retried, and no
//! partial record is ever returned.

use vstd::prelude::*;

use crate::models::{
    assemble_poi, poi_node_of, poi_row_views, poi_views, trail_row_views, trail_views,
    HikingTrail, HikingTrailDB, NewHikingTrail, NewHikingTrailDB, NewPOI, NewPOIDB, NewPoiInput,
    NewTrailInput, PoiNode, PoiRow, TrailNode, TrailRow, POI,
};
use crate::store::{
    lemma_filter_all_false, lemma_filter_elements_in, lemma_filter_push,
    lemma_has_trail_id_below_next, poi_fk_pred, pois_with_fk, trail_id_pred, trails_with_id,
    Store, StoreV,
};

verus! {

/// A typed resolution failure, surfaced to the caller in place of a payload.
#[derive(Clone, Copy, Debug, PartialEq, Eq, Structural)]
pub enum Failure {
    /// The requested entity, or the whole requested collection, does not
    /// exist.
    NotFound,
    /// The store rejected a query: a constraint violation such as a
    /// dangling foreign key, or an exhausted id space.
    StoreFailure,
}

impl Failure {
    /// The machine-readable warning text carried by a failure.
    pub fn message(&self) -> (res: &'static str)
        ensures
            *self == Failure::NotFound ==> res@ == "No data found"@,
            *self == Failure::StoreFailure ==> res@ == "Store failure"@,
    {
        match self {
            Failure::NotFound => "No data found",
            Failure::StoreFailure => "Store failure",
        }
    }
}

/// The per-request context handed to the resolution layer by the
/// transport: it holds the store handle for the duration of one request.
pub struct Context {
    pub connection: Store,
}

impl Context {
    /// Well-formedness of the held store.
    pub open spec fn wf(&self) -> bool {
        self.connection.wf()
    }
}

// ------------------------------------------------------------------
// The resolved outcomes, at the view level.
// ------------------------------------------------------------------

/// The assembled records of a sequence of POI rows, in order.
pub open spec fn poi_nodes_of(rows: Seq<PoiRow>) -> Seq<PoiNode> {
    rows.map_values(|p: PoiRow| poi_node_of(p))
}

/// The trail record assembled from one root row against a store: the row's
/// own attributes plus every POI row whose foreign key equals the row's id,
/// in scan order.
pub open spec fn trail_node_of(s: StoreV, row: TrailRow) -> TrailNode {
    TrailNode {
        id: row.id,
        name: row.name,
        location: row.location,
        pois: poi_nodes_of(s.pois_of(row.id)),
    }
}

/// Every trail of the store, assembled, in scan order.
pub open spec fn trail_nodes_of(s: StoreV) -> Seq<TrailNode> {
    s.trails.map_values(|t: TrailRow| trail_node_of(s, t))
}

/// What resolving one trail by id returns: the assembled trail of the
/// first matching row, or `NotFound` when no row matches.
pub open spec fn get_trail_outcome(s: StoreV, id: int) -> Result<TrailNode, Failure> {
    if s.has_trail(id) {
        Ok(trail_node_of(s, s.trail_with_id(id)))
    } else {
        Err(Failure::NotFound)
    }
}

/// What resolving the trail list returns: every trail assembled in scan
/// order, or `NotFound` when the store holds no trail row at all.
pub open spec fn list_trails_outcome(s: StoreV) -> Result<Seq<TrailNode>, Failure> {
    if s.trails.len() == 0 {
        Err(Failure::NotFound)
    } else {
        Ok(trail_nodes_of(s))
    }
}

/// The trail row a successful trail-creating mutation appends: the next
/// trail id, and the payload's attributes.
pub open spec fn new_trail_row(s: StoreV, input: NewTrailInput) -> TrailRow {
    TrailRow { id: s.next_trail_id, name: input.name, location: input.location }
}

/// The store after a successful trail-creating mutation.
pub open spec fn store_after_create_trail(s: StoreV, input: NewTrailInput) -> StoreV {
    StoreV {
        trails: s.trails.push(new_trail_row(s, input)),
        next_trail_id: s.next_trail_id + 1,
        ..s
    }
}

/// The POI row a successful POI-creating mutation appends: the next POI
/// id, and the payload's attributes.
pub open spec fn new_poi_row(s: StoreV, input: NewPoiInput) -> PoiRow {
    PoiRow {
        id: s.next_poi_id,
        hiking_trail: input.hiking_trail,
        name: input.name,
        description: input.description,
        location: input.location,
    }
}

/// The store after a successful POI-creating mutation.
pub open spec fn store_after_create_poi(s: StoreV, input: NewPoiInput) -> StoreV {
    StoreV { pois: s.pois.push(new_poi_row(s, input)), next_poi_id: s.next_poi_id + 1, ..s }
}

/// The view of a one-trail resolution result.
pub open spec fn trail_result_view(res: Result<HikingTrail, Failure>) -> Result<
    TrailNode,
    Failure,
> {
    match res {
        Ok(t) => Ok(t@),
        Err(e) => Err(e),
    }
}

/// The view of a trail-list resolution result.
pub open spec fn trails_result_view(res: Result<Vec<HikingTrail>, Failure>) -> Result<
    Seq<TrailNode>,
    Failure,
> {
    match res {
        Ok(v) => Ok(trail_views(v@)),
        Err(e) => Err(e),
    }
}

// ------------------------------------------------------------------
// Assembly: the shared fan-out step.
// ------------------------------------------------------------------

/// Assembles one trail record from its root row: one dependent POI fetch,
/// then a map of each POI row to its leaf record. Shared by every path
/// that returns a trail.
fn assemble_trail(store: &Store, row: &HikingTrailDB) -> (res: HikingTrail)
    ensures
        res@ == trail_node_of(store@, row@),
{
    let poi_rows = store.fetch_pois(row.id);
    let mut pois_list: Vec<POI> = Vec::new();
    let mut i: usize = 0;
    while i < poi_rows.len()
        invariant
            i <= poi_rows.len(),
            poi_row_views(poi_rows@) == store@.pois_of(row@.id),
            poi_views(pois_list@) == poi_nodes_of(
                poi_row_views(poi_rows@).subrange(0, i as int),
            ),
        decreases poi_rows.len() - i,
    {
        let ghost old_list = pois_list@;
        pois_list.push(assemble_poi(&poi_rows[i]));
        proof {
            let rows = poi_row_views(poi_rows@);
            assert(poi_views(pois_list@) =~= poi_views(
                old_list,
            ).push(poi_node_of(rows[i as int])));
            assert(rows.subrange(0, i as int + 1) =~= rows.subrange(0, i as int).push(
                rows[i as int],
            ));
            assert(poi_nodes_of(rows.subrange(0, i as int + 1)) =~= poi_nodes_of(
                rows.subrange(0, i as int),
            ).push(poi_node_of(rows[i as int])));
        }
        i += 1;
    }
    proof {
        let rows = poi_row_views(poi_rows@);
        assert(rows.subrange(0, i as int) =~= rows);
    }
    HikingTrail {
        id: row.id,
        name: row.name.clone(),
        location: row.location.clone(),
        pois: pois_list,
    }
}

// ------------------------------------------------------------------
// Query resolution.
// ------------------------------------------------------------------

impl HikingTrail {
    /// Resolves one trail by id: one root fetch, then the dependent POI
    /// fetch and assembly. A trail with no POI rows resolves to a record
    /// with an empty `pois` list — success, never an error; an id no row
    /// carries fails with `NotFound`.
    pub fn hiking_trail(store: &Store, id: i32) -> (res: Result<HikingTrail, Failure>)
        ensures
            trail_result_view(res) == get_trail_outcome(store@, id as int),
    {
        match store.fetch_trail(id) {
            None => Err(Failure::NotFound),
            Some(row) => Ok(assemble_trail(store, &row)),
        }
    }

    /// Resolves the full trail list: one root fetch, then one dependent
    /// POI fetch per root row, preserving store scan order. An empty
    /// result set is an application-level failure, `NotFound`, not an
    /// empty success.
    pub fn hiking_trails(store: &Store) -> (res: Result<Vec<HikingTrail>, Failure>)
        ensures
            trails_result_view(res) == list_trails_outcome(store@),
    {
        let trail_rows = store.fetch_trails();
        if trail_rows.len() == 0 {
            return Err(Failure::NotFound);
        }
        let mut trails_list: Vec<HikingTrail> = Vec::new();
        let mut i: usize = 0;
        while i < trail_rows.len()
            invariant
                i <= trail_rows.len(),
                trail_row_views(trail_rows@) == store@.trails,
                trail_views(trails_list@) == trail_nodes_of(store@).subrange(0, i as int),
            decreases trail_rows.len() - i,
        {
            let ghost old_list = trails_list@;
            let assembled = assemble_trail(store, &trail_rows[i]);
            trails_list.push(assembled);
            proof {
                let nodes = trail_nodes_of(store@);
                assert(trail_views(trails_list@) =~= trail_views(old_list).push(
                    nodes[i as int],
                ));
                assert(nodes.subrange(0, i as int + 1) =~= nodes.subrange(0, i as int).push(
                    nodes[i as int],
                ));
            }
            i += 1;
        }
        proof {
            assert(trail_nodes_of(store@).subrange(0, i as int) =~= trail_nodes_of(store@));
        }
        Ok(trails_list)
    }
}

// ------------------------------------------------------------------
// Mutation resolution.
// ------------------------------------------------------------------

impl NewHikingTrail {
    /// Creates a trail: one returning-style insert, then the same
    /// POI-scan-and-assemble step as the one-trail query. A fresh trail
    /// owns no POI row, so the assembled `pois` list is always empty. A
    /// rejection by the store fails with `StoreFailure` and leaves the
    /// store unchanged.
    pub fn create_hiking_trail(store: &mut Store, new_hiking_trail: NewHikingTrail) -> (res: Result<
        HikingTrail,
        Failure,
    >)
        requires
            old(store).wf(),
        ensures
            final(store).wf(),
            res is Ok <==> old(store)@.next_trail_id < i32::MAX,
            res matches Ok(t) ==> {
                &&& final(store)@ == store_after_create_trail(old(store)@, new_hiking_trail@)
                &&& t@ == trail_node_of(
                    final(store)@,
                    new_trail_row(old(store)@, new_hiking_trail@),
                )
                &&& t@.pois == Seq::<PoiNode>::empty()
            },
            res is Err ==> {
                &&& *final(store) == *old(store)
                &&& res == Err::<HikingTrail, Failure>(Failure::StoreFailure)
            },
    {
        let new_row_db = NewHikingTrailDB {
            name: new_hiking_trail.name,
            location: new_hiking_trail.location,
        };
        let added = match store.insert_trail(new_row_db) {
            Ok(r) => r,
            Err(_) => {
                return Err(Failure::StoreFailure);
            },
        };
        let assembled = assemble_trail(store, &added);
        proof {
            assert(store@ =~= store_after_create_trail(old(store)@, new_hiking_trail@));
            lemma_fresh_trail_has_no_pois(old(store)@, added@);
            assert(assembled@.pois =~= Seq::<PoiNode>::empty());
        }
        Ok(assembled)
    }
}

impl NewPOI {
    /// Creates a POI under an existing trail: one returning-style insert,
    /// then the assembly of the leaf record. A dangling `hiking_trail`
    /// reference is rejected by the store's foreign-key check and fails
    /// with `StoreFailure`, persisting nothing.
    pub fn create_poi(store: &mut Store, new_poi: NewPOI) -> (res: Result<POI, Failure>)
        requires
            old(store).wf(),
        ensures
            final(store).wf(),
            res is Ok <==> (old(store)@.has_trail(new_poi@.hiking_trail) && old(
                store,
            )@.next_poi_id < i32::MAX),
            res matches Ok(p) ==> {
                &&& final(store)@ == store_after_create_poi(old(store)@, new_poi@)
                &&& p@ == poi_node_of(new_poi_row(old(store)@, new_poi@))
            },
            res is Err ==> {
                &&& *final(store) == *old(store)
                &&& res == Err::<POI, Failure>(Failure::StoreFailure)
            },
    {
        let new_row_db = NewPOIDB {
            hiking_trail: new_poi.hiking_trail,
            name: new_poi.name,
            description: new_poi.description,
            location: new_poi.location,
        };
        let added = match store.insert_poi(new_row_db) {
            Ok(r) => r,
            Err(_) => {
                return Err(Failure::StoreFailure);
            },
        };
        let assembled = assemble_poi(&added);
        proof {
            assert(store@ =~= store_after_create_poi(old(store)@, new_poi@));
        }
        Ok(assembled)
    }
}

// ------------------------------------------------------------------
// The query and mutation roots of the request surface.
// ------------------------------------------------------------------

/// The root of the query surface; every field resolves against the
/// context's store handle.
pub struct Query;

impl Query {
    /// The literal version string of the request surface.
    pub fn api_version() -> (res: &'static str)
        ensures
            res@ == "1.0"@,
    {
        "1.0"
    }

    /// The one-trail query field: resolves a trail by id.
    pub fn hiking_trail(context: &Context, id: i32) -> (res: Result<HikingTrail, Failure>)
        ensures
            trail_result_view(res) == get_trail_outcome(context.connection@, id as int),
    {
        HikingTrail::hiking_trail(&context.connection, id)
    }

    /// The trail-list query field: resolves every trail.
    pub fn hiking_trails(context: &Context) -> (res: Result<Vec<HikingTrail>, Failure>)
        ensures
            trails_result_view(res) == list_trails_outcome(context.connection@),
    {
        HikingTrail::hiking_trails(&context.connection)
    }
}

/// The root of the mutation surface; every field resolves against the
/// context's store handle.
pub struct Mutation;

impl Mutation {
    /// The trail-creating mutation field.
    pub fn create_hiking_trail(context: &mut Context, new_hiking_trail: NewHikingTrail) -> (res:
        Result<HikingTrail, Failure>)
        requires
            old(context).wf(),
        ensures
            final(context).wf(),
            res is Ok <==> old(context).connection@.next_trail_id < i32::MAX,
            res matches Ok(t) ==> {
                &&& final(context).connection@ == store_after_create_trail(
                    old(context).connection@,
                    new_hiking_trail@,
                )
                &&& t@ == trail_node_of(
                    final(context).connection@,
                    new_trail_row(old(context).connection@, new_hiking_trail@),
                )
                &&& t@.pois == Seq::<PoiNode>::empty()
            },
            res is Err ==> {
                &&& *final(context) == *old(context)
                &&& res == Err::<HikingTrail, Failure>(Failure::StoreFailure)
            },
    {
        NewHikingTrail::create_hiking_trail(&mut context.connection, new_hiking_trail)
    }

    /// The POI-creating mutation field.
    pub fn create_poi(context: &mut Context, new_poi: NewPOI) -> (res: Result<POI, Failure>)
        requires
            old(context).wf(),
        ensures
            final(context).wf(),
            res is Ok <==> (old(context).connection@.has_trail(new_poi@.hiking_trail) && old(
                context,
            ).connection@.next_poi_id < i32::MAX),
            res matches Ok(p) ==> {
                &&& final(context).connection@ == store_after_create_poi(
                    old(context).connection@,
                    new_poi@,
                )
                &&& p@ == poi_node_of(new_poi_row(old(context).connection@, new_poi@))
            },
            res is Err ==> {
                &&& *final(context) == *old(context)
                &&& res == Err::<POI, Failure>(Failure::StoreFailure)
            },
    {
        NewPOI::create_poi(&mut context.connection, new_poi)
    }
}

/// In a well-formed store, every POI row's foreign key is a stored trail
/// id, and every stored trail id is below the next id — so the trail a
/// creating mutation is about to append owns no POI row.
proof fn lemma_fresh_trail_has_no_pois(s: StoreV, r: TrailRow)
    requires
        s.wf(),
        r.id >= s.next_trail_id,
    ensures
        pois_with_fk(s.pois, r.id) == Seq::<PoiRow>::empty(),
{
    let pred = poi_fk_pred(r.id);
    assert forall|i: int| 0 <= i < s.pois.len() implies !pred(#[trigger] s.pois[i]) by {
        let fk = s.pois[i].hiking_trail;
        assert(s.has_trail(fk));
        lemma_has_trail_id_below_next(s, fk);
    }
    lemma_filter_all_false(s.pois, pred);
}

// ------------------------------------------------------------------
// The laws of the resolution layer.
// ------------------------------------------------------------------

/// A trail that exists but owns no POI row resolves to a success whose
/// `pois` is the empty sequence — never an error.
pub proof fn lemma_trail_without_pois_resolves_empty(s: StoreV, id: int)
    requires
        s.has_trail(id),
        forall|i: int| 0 <= i < s.pois.len() ==> (#[trigger] s.pois[i]).hiking_trail != id,
    ensures
        get_trail_outcome(s, id) is Ok,
        get_trail_outcome(s, id) matches Ok(t) ==> t.pois == Seq::<PoiNode>::empty(),
{
    let pred = poi_fk_pred(id);
    assert forall|i: int| 0 <= i < s.pois.len() implies !pred(#[trigger] s.pois[i]) by {}
    lemma_filter_all_false(s.pois, pred);
    assert(poi_nodes_of(Seq::<PoiRow>::empty()) =~= Seq::<PoiNode>::empty());
}

/// The trail-list policy and shape: with zero rows the list fails with
/// `NotFound`; with at least one row it holds exactly one trail per row,
/// in scan order, each carrying exactly the POI rows whose foreign key
/// equals that trail's id.
pub proof fn lemma_list_trails_shape(s: StoreV)
    ensures
        list_trails_outcome(s) is Err <==> s.trails.len() == 0,
        s.trails.len() == 0 ==> list_trails_outcome(s) == Err::<Seq<TrailNode>, Failure>(
            Failure::NotFound,
        ),
        s.trails.len() > 0 ==> ({
            let nodes = list_trails_outcome(s)->Ok_0;
            &&& nodes.len() == s.trails.len()
            &&& forall|i: int|
                0 <= i < nodes.len() ==> #[trigger] nodes[i] == trail_node_of(s, s.trails[i])
            &&& forall|i: int|
                0 <= i < nodes.len() ==> (#[trigger] nodes[i]).pois == poi_nodes_of(
                    s.pois_of(s.trails[i].id),
                )
        }),
{
}

/// Creating a trail and immediately resolving the returned id yields a
/// trail with the payload's name and location and an empty POI list.
pub proof fn lemma_create_trail_then_get(s: StoreV, input: NewTrailInput)
    requires
        s.wf(),
        s.next_trail_id < i32::MAX,
    ensures
        ({
            let row = new_trail_row(s, input);
            let s2 = store_after_create_trail(s, input);
            &&& s2.has_trail(row.id)
            &&& s2.trail_with_id(row.id) == row
            &&& get_trail_outcome(s2, row.id) == Ok::<TrailNode, Failure>(
                TrailNode {
                    id: row.id,
                    name: input.name,
                    location: input.location,
                    pois: Seq::<PoiNode>::empty(),
                },
            )
        }),
{
    let row = new_trail_row(s, input);
    let s2 = store_after_create_trail(s, input);
    let pred = trail_id_pred(row.id);
    assert forall|i: int| 0 <= i < s.trails.len() implies !pred(#[trigger] s.trails[i]) by {}
    lemma_filter_all_false(s.trails, pred);
    lemma_filter_push(s.trails, row, pred);
    assert(trails_with_id(s2.trails, row.id) =~= Seq::<TrailRow>::empty().push(row));
    assert(s2.trail_with_id(row.id) == row);
    lemma_fresh_trail_has_no_pois(s, row);
    assert(s2.pois == s.pois);
    assert(poi_nodes_of(pois_with_fk(s2.pois, row.id)) =~= Seq::<PoiNode>::empty());
    assert(trail_node_of(s2, row) =~= (TrailNode {
        id: row.id,
        name: input.name,
        location: input.location,
        pois: Seq::<PoiNode>::empty(),
    }));
}

/// Creating a POI under an existing trail and resolving that trail yields
/// the new POI exactly once: appended at the end of the trail's `pois`
/// list, with every earlier entry unchanged and carrying a different id.
pub proof fn lemma_create_poi_then_get(s: StoreV, input: NewPoiInput)
    requires
        s.wf(),
        s.has_trail(input.hiking_trail),
        s.next_poi_id < i32::MAX,
    ensures
        ({
            let row = new_poi_row(s, input);
            let s2 = store_after_create_poi(s, input);
            &&& s2.pois_of(input.hiking_trail) == s.pois_of(input.hiking_trail).push(row)
            &&& get_trail_outcome(s2, input.hiking_trail) is Ok
            &&& (get_trail_outcome(s2, input.hiking_trail)->Ok_0).pois == poi_nodes_of(
                s.pois_of(input.hiking_trail),
            ).push(poi_node_of(row))
            &&& forall|j: int|
                0 <= j < s.pois_of(input.hiking_trail).len() ==> (#[trigger] s.pois_of(
                    input.hiking_trail,
                )[j]).id != row.id
        }),
{
    let row = new_poi_row(s, input);
    let s2 = store_after_create_poi(s, input);
    let fk = input.hiking_trail;
    let pred = poi_fk_pred(fk);
    lemma_filter_push(s.pois, row, pred);
    assert(s2.pois_of(fk) == s.pois_of(fk).push(row));
    assert(s2.trails == s.trails);
    assert(s2.has_trail(fk));
    Seq::lemma_filter_pred(s2.trails, trail_id_pred(fk), 0);
    assert(s2.trail_with_id(fk).id == fk);
    assert(poi_nodes_of(s.pois_of(fk).push(row)) =~= poi_nodes_of(s.pois_of(fk)).push(
        poi_node_of(row),
    ));
    assert forall|j: int| 0 <= j < s.pois_of(fk).len() implies (#[trigger] s.pois_of(fk)[j]).id
        != row.id by {
        lemma_filter_elements_in(s.pois, pred, j);
        let x = s.pois_of(fk)[j];
        let k = choose|k: int| 0 <= k < s.pois.len() && s.pois[k] == x;
        assert(s.pois[k] == x);
    }
}

/// Re-resolving the same trail id against the same store yields identical
/// results: the outcome is a function of the store contents and the id
/// alone, and the read path never changes the store.
pub proof fn lemma_get_trail_idempotent(
    s: StoreV,
    id: int,
    r1: Result<TrailNode, Failure>,
    r2: Result<TrailNode, Failure>,
)
    requires
        r1 == get_trail_outcome(s, id),
        r2 == get_trail_outcome(s, id),
    ensures
        r1 == r2,
{
}

} // verus!
