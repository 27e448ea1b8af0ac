//! End-to-end tests of the resolution layer over an in-memory store.

use wander_api::models::{NewHikingTrail, NewPOI, NewPOIDB};
use wander_api::resolve::{Context, Failure, Mutation, Query};
use wander_api::store::{Store, StoreError};

fn new_trail(name: &str, location: &str) -> NewHikingTrail {
    NewHikingTrail { name: name.to_string(), location: location.to_string() }
}

fn new_poi(name: &str, hiking_trail: i32, description: &str, location: &str) -> NewPOI {
    NewPOI {
        name: name.to_string(),
        hiking_trail,
        description: description.to_string(),
        location: location.to_string(),
    }
}

#[test]
fn api_version_literal() {
    assert_eq!(Query::api_version(), "1.0");
}

#[test]
fn get_trail_zero_pois_empty_list() {
    let mut ctx = Context { connection: Store::new() };
    let created = Mutation::create_hiking_trail(&mut ctx, new_trail("Ridge Loop", "CO")).unwrap();
    let fetched = Query::hiking_trail(&ctx, created.id).unwrap();
    assert_eq!(fetched.pois.len(), 0);
}

#[test]
fn get_trail_missing_id_not_found() {
    let mut ctx = Context { connection: Store::new() };
    assert_eq!(Query::hiking_trail(&ctx, 1).unwrap_err(), Failure::NotFound);
    Mutation::create_hiking_trail(&mut ctx, new_trail("Ridge Loop", "CO")).unwrap();
    assert_eq!(Query::hiking_trail(&ctx, 42).unwrap_err(), Failure::NotFound);
}

#[test]
fn list_trails_empty_store_not_found() {
    let ctx = Context { connection: Store::new() };
    assert_eq!(Query::hiking_trails(&ctx).unwrap_err(), Failure::NotFound);
}

#[test]
fn list_trails_groups_pois_by_trail() {
    let mut ctx = Context { connection: Store::new() };
    let t1 = Mutation::create_hiking_trail(&mut ctx, new_trail("Ridge Loop", "CO")).unwrap();
    let t2 = Mutation::create_hiking_trail(&mut ctx, new_trail("Lakeside", "WA")).unwrap();
    let p1 = Mutation::create_poi(&mut ctx, new_poi("Summit View", t1.id, "d1", "l1")).unwrap();
    let p2 = Mutation::create_poi(&mut ctx, new_poi("Boat Dock", t2.id, "d2", "l2")).unwrap();
    let p3 = Mutation::create_poi(&mut ctx, new_poi("Old Oak", t1.id, "d3", "l3")).unwrap();

    let trails = Query::hiking_trails(&ctx).unwrap();
    assert_eq!(trails.len(), 2);
    assert_eq!(trails[0].id, t1.id);
    assert_eq!(trails[1].id, t2.id);
    // each trail carries exactly its own POIs, in insertion (scan) order
    assert_eq!(
        trails[0].pois.iter().map(|p| p.id).collect::<Vec<i32>>(),
        vec![p1.id, p3.id]
    );
    assert_eq!(
        trails[1].pois.iter().map(|p| p.id).collect::<Vec<i32>>(),
        vec![p2.id]
    );
}

#[test]
fn create_trail_then_get_round_trip() {
    let mut ctx = Context { connection: Store::new() };
    let created = Mutation::create_hiking_trail(&mut ctx, new_trail("Ridge Loop", "CO")).unwrap();
    let fetched = Query::hiking_trail(&ctx, created.id).unwrap();
    assert_eq!(fetched.name, "Ridge Loop");
    assert_eq!(fetched.location, "CO");
    assert!(fetched.pois.is_empty());
    assert_eq!(fetched, created);
}

#[test]
fn create_poi_appears_once_in_parent() {
    let mut ctx = Context { connection: Store::new() };
    let trail = Mutation::create_hiking_trail(&mut ctx, new_trail("Ridge Loop", "CO")).unwrap();
    let poi = Mutation::create_poi(&mut ctx, new_poi("Summit View", trail.id, "desc", "loc"))
        .unwrap();
    assert_eq!(poi.name, "Summit View");
    assert_eq!(poi.description, "desc");
    assert_eq!(poi.location, "loc");

    let fetched = Query::hiking_trail(&ctx, trail.id).unwrap();
    let matching: Vec<_> = fetched.pois.iter().filter(|p| p.id == poi.id).collect();
    assert_eq!(matching.len(), 1);
    assert_eq!(*matching[0], poi);
}

#[test]
fn create_poi_dangling_fk_store_failure() {
    let mut ctx = Context { connection: Store::new() };
    let trail = Mutation::create_hiking_trail(&mut ctx, new_trail("Ridge Loop", "CO")).unwrap();
    let err = Mutation::create_poi(&mut ctx, new_poi("Ghost", trail.id + 1, "d", "l"))
        .unwrap_err();
    assert_eq!(err, Failure::StoreFailure);
    // nothing was persisted: the trail still has no POI
    let fetched = Query::hiking_trail(&ctx, trail.id).unwrap();
    assert!(fetched.pois.is_empty());
}

#[test]
fn get_trail_idempotent() {
    let mut ctx = Context { connection: Store::new() };
    let trail = Mutation::create_hiking_trail(&mut ctx, new_trail("Ridge Loop", "CO")).unwrap();
    Mutation::create_poi(&mut ctx, new_poi("Summit View", trail.id, "desc", "loc")).unwrap();
    let first = Query::hiking_trail(&ctx, trail.id).unwrap();
    let second = Query::hiking_trail(&ctx, trail.id).unwrap();
    let third = Query::hiking_trail(&ctx, trail.id).unwrap();
    assert_eq!(first, second);
    assert_eq!(second, third);
}

#[test]
fn failure_messages() {
    assert_eq!(Failure::NotFound.message(), "No data found");
    assert_eq!(Failure::StoreFailure.message(), "Store failure");
}

#[test]
fn store_assigns_sequential_ids() {
    let mut ctx = Context { connection: Store::new() };
    let t1 = Mutation::create_hiking_trail(&mut ctx, new_trail("A", "a")).unwrap();
    let t2 = Mutation::create_hiking_trail(&mut ctx, new_trail("B", "b")).unwrap();
    let t3 = Mutation::create_hiking_trail(&mut ctx, new_trail("C", "c")).unwrap();
    assert_eq!((t1.id, t2.id, t3.id), (1, 2, 3));
    let p1 = Mutation::create_poi(&mut ctx, new_poi("P1", t2.id, "d", "l")).unwrap();
    let p2 = Mutation::create_poi(&mut ctx, new_poi("P2", t1.id, "d", "l")).unwrap();
    assert_eq!((p1.id, p2.id), (1, 2));
}

#[test]
fn insert_poi_foreign_key_violation() {
    let mut store = Store::new();
    let err = store
        .insert_poi(NewPOIDB {
            hiking_trail: 9,
            name: "P".to_string(),
            description: "d".to_string(),
            location: "l".to_string(),
        })
        .unwrap_err();
    assert_eq!(err, StoreError::ForeignKeyViolation);
}
