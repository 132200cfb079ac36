use coffee::db::{Db, DbError};
use coffee::service::{CoffeeItem, CoffeeService, Status};

fn fresh_service() -> CoffeeService {
    CoffeeService::new(Db::new())
}

#[test]
fn scenario_two_coffees_sum_three() {
    let mut svc = fresh_service();
    let key = svc.register("a@example.com").unwrap().api_key;
    assert!(svc.add_coffee(&key, 1000, 2).unwrap().success);
    assert!(svc.add_coffee(&key, 2000, 1).unwrap().success);
    let listed = svc.list_coffee(&key).unwrap().coffees;
    assert_eq!(
        listed,
        vec![
            CoffeeItem { utc_time: 1000, shots: 2 },
            CoffeeItem { utc_time: 2000, shots: 1 },
        ]
    );
    let total: i64 = listed.iter().map(|c| i64::from(c.shots)).sum();
    assert_eq!(total, 3);
}

#[test]
fn register_twice_returns_same_key() {
    let mut svc = fresh_service();
    let r1 = svc.register("a@example.com").unwrap();
    let r2 = svc.register("a@example.com").unwrap();
    assert!(r1.success && r2.success);
    assert_eq!(r1.api_key, r2.api_key);
}

#[test]
fn unknown_key_is_unauthenticated_and_persists_nothing() {
    let mut svc = fresh_service();
    let key = svc.register("a@example.com").unwrap().api_key;
    assert_eq!(svc.add_coffee("never-issued", 1000, 2).unwrap_err(), Status::Unauthenticated);
    assert_eq!(svc.list_coffee("never-issued").unwrap_err(), Status::Unauthenticated);
    assert!(svc.list_coffee(&key).unwrap().coffees.is_empty());
}

#[test]
fn non_positive_shots_are_invalid_and_persist_nothing() {
    let mut svc = fresh_service();
    let key = svc.register("a@example.com").unwrap().api_key;
    assert_eq!(svc.add_coffee(&key, 1000, 0).unwrap_err(), Status::InvalidArgument);
    assert_eq!(svc.add_coffee(&key, 1000, -1).unwrap_err(), Status::InvalidArgument);
    assert!(svc.list_coffee(&key).unwrap().coffees.is_empty());
}

#[test]
fn bad_key_beats_bad_shots() {
    // Authorization is checked before argument validation.
    let mut svc = fresh_service();
    assert_eq!(svc.add_coffee("never-issued", 1000, 0).unwrap_err(), Status::Unauthenticated);
}

#[test]
fn listing_keeps_insertion_order() {
    let mut svc = fresh_service();
    let key = svc.register("a@example.com").unwrap().api_key;
    svc.add_coffee(&key, 30, 1).unwrap();
    svc.add_coffee(&key, 10, 2).unwrap();
    svc.add_coffee(&key, 20, 3).unwrap();
    let listed = svc.list_coffee(&key).unwrap().coffees;
    let times: Vec<i64> = listed.iter().map(|c| c.utc_time).collect();
    assert_eq!(times, vec![30, 10, 20]);
}

#[test]
fn users_are_isolated_through_the_service() {
    let mut svc = fresh_service();
    let k1 = svc.register("a@example.com").unwrap().api_key;
    let k2 = svc.register("b@example.com").unwrap().api_key;
    svc.add_coffee(&k1, 1000, 2).unwrap();
    assert!(svc.list_coffee(&k2).unwrap().coffees.is_empty());
    assert_eq!(svc.list_coffee(&k1).unwrap().coffees.len(), 1);
}

#[test]
fn store_errors_map_to_statuses() {
    assert_eq!(Status::from(DbError::UnknownApiKey), Status::Unauthenticated);
    assert_eq!(Status::from(DbError::StoreUnavailable), Status::Internal);
    assert_eq!(Status::from(DbError::UnknownOwner), Status::Internal);
}
