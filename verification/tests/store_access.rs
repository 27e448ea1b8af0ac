//! Tests of the store access layer: parameterized reads and
//! returning-style inserts over the two relations.

use wander_api::models::{NewHikingTrailDB, NewPOIDB};
use wander_api::store::{Store, StoreError};

fn trail_row(name: &str, location: &str) -> NewHikingTrailDB {
    NewHikingTrailDB { name: name.to_string(), location: location.to_string() }
}

fn poi_row(fk: i32, name: &str, description: &str, location: &str) -> NewPOIDB {
    NewPOIDB {
        hiking_trail: fk,
        name: name.to_string(),
        description: description.to_string(),
        location: location.to_string(),
    }
}

#[test]
fn insert_trail_returns_stored_row() {
    let mut store = Store::new();
    let row = store.insert_trail(trail_row("Ridge Loop", "CO")).unwrap();
    assert_eq!(row.id, 1);
    assert_eq!(row.name, "Ridge Loop");
    assert_eq!(row.location, "CO");
}

#[test]
fn fetch_trail_finds_by_id() {
    let mut store = Store::new();
    let first = store.insert_trail(trail_row("Ridge Loop", "CO")).unwrap();
    let second = store.insert_trail(trail_row("Lakeside", "WA")).unwrap();
    let found = store.fetch_trail(second.id).unwrap();
    assert_eq!(found, second);
    let found = store.fetch_trail(first.id).unwrap();
    assert_eq!(found, first);
    assert!(store.fetch_trail(3).is_none());
}

#[test]
fn fetch_trails_keeps_scan_order() {
    let mut store = Store::new();
    assert!(store.fetch_trails().is_empty());
    store.insert_trail(trail_row("A", "a")).unwrap();
    store.insert_trail(trail_row("B", "b")).unwrap();
    store.insert_trail(trail_row("C", "c")).unwrap();
    let names: Vec<String> = store.fetch_trails().into_iter().map(|t| t.name).collect();
    assert_eq!(names, vec!["A", "B", "C"]);
}

#[test]
fn fetch_pois_filters_by_foreign_key() {
    let mut store = Store::new();
    let t1 = store.insert_trail(trail_row("A", "a")).unwrap();
    let t2 = store.insert_trail(trail_row("B", "b")).unwrap();
    store.insert_poi(poi_row(t1.id, "P1", "d1", "l1")).unwrap();
    store.insert_poi(poi_row(t2.id, "P2", "d2", "l2")).unwrap();
    store.insert_poi(poi_row(t1.id, "P3", "d3", "l3")).unwrap();
    let names: Vec<String> = store.fetch_pois(t1.id).into_iter().map(|p| p.name).collect();
    assert_eq!(names, vec!["P1", "P3"]);
    assert!(store.fetch_pois(99).is_empty());
}

#[test]
fn insert_poi_rejects_dangling_foreign_key() {
    let mut store = Store::new();
    let err = store.insert_poi(poi_row(1, "P", "d", "l")).unwrap_err();
    assert_eq!(err, StoreError::ForeignKeyViolation);
    // the rejected row was not persisted
    let t = store.insert_trail(trail_row("A", "a")).unwrap();
    assert_eq!(t.id, 1);
    assert!(store.fetch_pois(t.id).is_empty());
}
