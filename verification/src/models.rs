//! Record types of both layers, with their mathematical views.
//!
//! The `*DB` structs are the rows of the two relations as the store access
//! layer hands them out; `HikingTrail` and `POI` are the assembled graph
//! records that the resolution layer returns. Each executable type has a
//! view made of `int` and `Seq<char>`, and every contract in the crate is
//! stated over those views.

use vstd::prelude::*;

verus! {

// ------------------------------------------------------------------
// Rows of the two relations.
// ------------------------------------------------------------------

/// A row of the `trails` relation.
#[derive(Debug, PartialEq, Eq)]
pub struct HikingTrailDB {
    pub id: i32,
    pub name: String,
    pub location: String,
}

/// A row of the `pois` relation. `hiking_trail` is the foreign key of the
/// owning trail.
#[derive(Debug, PartialEq, Eq)]
pub struct PoiDB {
    pub id: i32,
    pub hiking_trail: i32,
    pub name: String,
    pub description: String,
    pub location: String,
}

/// The insertable part of a trail row: everything but the store-assigned id.
#[derive(Debug, PartialEq, Eq)]
pub struct NewHikingTrailDB {
    pub name: String,
    pub location: String,
}

/// The insertable part of a POI row: everything but the store-assigned id.
#[derive(Debug, PartialEq, Eq)]
pub struct NewPOIDB {
    pub hiking_trail: i32,
    pub name: String,
    pub description: String,
    pub location: String,
}

// ------------------------------------------------------------------
// Assembled graph records.
// ------------------------------------------------------------------

/// A hiking trail with its assembled list of POIs.
#[derive(Debug, PartialEq, Eq)]
pub struct HikingTrail {
    pub id: i32,
    pub name: String,
    pub location: String,
    pub pois: Vec<POI>,
}

/// A point of interest; a leaf record with no nested data.
#[derive(Debug, PartialEq, Eq)]
pub struct POI {
    pub id: i32,
    pub name: String,
    pub description: String,
    pub location: String,
}

/// The input payload of the trail-creating mutation.
#[derive(Debug, PartialEq, Eq)]
pub struct NewHikingTrail {
    pub name: String,
    pub location: String,
}

/// The input payload of the POI-creating mutation.
#[derive(Debug, PartialEq, Eq)]
pub struct NewPOI {
    pub name: String,
    pub hiking_trail: i32,
    pub description: String,
    pub location: String,
}

// ------------------------------------------------------------------
// Views.
// ------------------------------------------------------------------

/// View of a trail row.
#[verifier::ext_equal]
pub struct TrailRow {
    pub id: int,
    pub name: Seq<char>,
    pub location: Seq<char>,
}

/// View of a POI row.
#[verifier::ext_equal]
pub struct PoiRow {
    pub id: int,
    pub hiking_trail: int,
    pub name: Seq<char>,
    pub description: Seq<char>,
    pub location: Seq<char>,
}

/// View of an assembled trail record.
#[verifier::ext_equal]
pub struct TrailNode {
    pub id: int,
    pub name: Seq<char>,
    pub location: Seq<char>,
    pub pois: Seq<PoiNode>,
}

/// View of an assembled POI record.
#[verifier::ext_equal]
pub struct PoiNode {
    pub id: int,
    pub name: Seq<char>,
    pub description: Seq<char>,
    pub location: Seq<char>,
}

/// View of an insertable trail row and of the trail-creating input payload.
#[verifier::ext_equal]
pub struct NewTrailInput {
    pub name: Seq<char>,
    pub location: Seq<char>,
}

/// View of an insertable POI row and of the POI-creating input payload.
#[verifier::ext_equal]
pub struct NewPoiInput {
    pub hiking_trail: int,
    pub name: Seq<char>,
    pub description: Seq<char>,
    pub location: Seq<char>,
}

impl View for HikingTrailDB {
    type V = TrailRow;

    open spec fn view(&self) -> TrailRow {
        TrailRow { id: self.id as int, name: self.name@, location: self.location@ }
    }
}

impl View for PoiDB {
    type V = PoiRow;

    open spec fn view(&self) -> PoiRow {
        PoiRow {
            id: self.id as int,
            hiking_trail: self.hiking_trail as int,
            name: self.name@,
            description: self.description@,
            location: self.location@,
        }
    }
}

impl View for POI {
    type V = PoiNode;

    open spec fn view(&self) -> PoiNode {
        PoiNode {
            id: self.id as int,
            name: self.name@,
            description: self.description@,
            location: self.location@,
        }
    }
}

impl View for HikingTrail {
    type V = TrailNode;

    open spec fn view(&self) -> TrailNode {
        TrailNode {
            id: self.id as int,
            name: self.name@,
            location: self.location@,
            pois: poi_views(self.pois@),
        }
    }
}

impl View for NewHikingTrailDB {
    type V = NewTrailInput;

    open spec fn view(&self) -> NewTrailInput {
        NewTrailInput { name: self.name@, location: self.location@ }
    }
}

impl View for NewPOIDB {
    type V = NewPoiInput;

    open spec fn view(&self) -> NewPoiInput {
        NewPoiInput {
            hiking_trail: self.hiking_trail as int,
            name: self.name@,
            description: self.description@,
            location: self.location@,
        }
    }
}

impl View for NewHikingTrail {
    type V = NewTrailInput;

    open spec fn view(&self) -> NewTrailInput {
        NewTrailInput { name: self.name@, location: self.location@ }
    }
}

impl View for NewPOI {
    type V = NewPoiInput;

    open spec fn view(&self) -> NewPoiInput {
        NewPoiInput {
            hiking_trail: self.hiking_trail as int,
            name: self.name@,
            description: self.description@,
            location: self.location@,
        }
    }
}

/// The views of a sequence of trail rows, in order.
pub open spec fn trail_row_views(s: Seq<HikingTrailDB>) -> Seq<TrailRow> {
    s.map_values(|t: HikingTrailDB| t@)
}

/// The views of a sequence of POI rows, in order.
pub open spec fn poi_row_views(s: Seq<PoiDB>) -> Seq<PoiRow> {
    s.map_values(|p: PoiDB| p@)
}

/// The views of a sequence of assembled POI records, in order.
pub open spec fn poi_views(s: Seq<POI>) -> Seq<PoiNode> {
    s.map_values(|p: POI| p@)
}

/// The views of a sequence of assembled trail records, in order.
pub open spec fn trail_views(s: Seq<HikingTrail>) -> Seq<TrailNode> {
    s.map_values(|t: HikingTrail| t@)
}

impl Clone for HikingTrailDB {
    fn clone(&self) -> (res: Self)
        ensures
            res == *self,
    {
        HikingTrailDB { id: self.id, name: self.name.clone(), location: self.location.clone() }
    }
}

impl Clone for PoiDB {
    fn clone(&self) -> (res: Self)
        ensures
            res == *self,
    {
        PoiDB {
            id: self.id,
            hiking_trail: self.hiking_trail,
            name: self.name.clone(),
            description: self.description.clone(),
            location: self.location.clone(),
        }
    }
}

/// The POI record assembled from one row: the foreign key is dropped, all
/// other attributes carry over.
pub open spec fn poi_node_of(row: PoiRow) -> PoiNode {
    PoiNode {
        id: row.id,
        name: row.name,
        description: row.description,
        location: row.location,
    }
}

/// Maps one POI row to its assembled leaf record.
pub fn assemble_poi(row: &PoiDB) -> (res: POI)
    ensures
        res@ == poi_node_of(row@),
{
    POI {
        id: row.id,
        name: row.name.clone(),
        description: row.description.clone(),
        location: row.location.clone(),
    }
}

} // verus!
