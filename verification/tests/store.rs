use coffee::db::{Coffee, Db, DbError};

#[test]
fn register_twice_same_key_one_row() {
    let mut db = Db::new();
    let u1 = db.register_user("a@example.com").unwrap();
    let u2 = db.register_user("a@example.com").unwrap();
    assert_eq!(u1.apikey, u2.apikey);
    assert_eq!(u1.email, "a@example.com");
    assert_eq!(u2.email, "a@example.com");
    assert_eq!(db.user_count(), 1);
}

#[test]
fn register_two_emails_two_rows() {
    let mut db = Db::new();
    let u1 = db.register_user("a@example.com").unwrap();
    let u2 = db.register_user("b@example.com").unwrap();
    assert_ne!(u1.apikey, u2.apikey);
    assert_eq!(db.user_count(), 2);
}

#[test]
fn derived_key_is_a_hex_digest_not_the_email() {
    let mut db = Db::new();
    let u = db.register_user("a@example.com").unwrap();
    assert_ne!(u.apikey, u.email);
    assert_eq!(u.apikey.len(), 40);
    assert!(u.apikey.chars().all(|c| c.is_ascii_hexdigit()));
}

#[test]
fn empty_email_still_gets_a_key() {
    let mut db = Db::new();
    let u = db.register_user("").unwrap();
    assert_eq!(u.email, "");
    assert_eq!(u.apikey.len(), 40);
    assert_eq!(db.user_count(), 1);
}

#[test]
fn validate_unknown_key_fails() {
    let db = Db::new();
    assert_eq!(db.validate_api_key("not-a-key"), Err(DbError::UnknownApiKey));
}

#[test]
fn validate_issued_key_resolves() {
    let mut db = Db::new();
    let u = db.register_user("a@example.com").unwrap();
    assert!(db.validate_api_key(&u.apikey).is_ok());
}

#[test]
fn add_event_unknown_owner_is_rejected() {
    let mut db = Db::new();
    let r = db.add_event(0, Coffee { shots: 1, utctime: 100 });
    assert_eq!(r, Err(DbError::UnknownOwner));
    assert_eq!(db.event_count(), 0);
}

#[test]
fn add_and_get_round_trip() {
    let mut db = Db::new();
    let u = db.register_user("a@example.com").unwrap();
    db.add_coffee(&u.apikey, &Coffee { shots: 2, utctime: 1000 }).unwrap();
    let coffees = db.get_coffees(&u.apikey).unwrap();
    assert!(coffees.contains(&Coffee { shots: 2, utctime: 1000 }));
    assert_eq!(coffees.len(), 1);
}

#[test]
fn events_of_one_user_do_not_leak_to_another() {
    let mut db = Db::new();
    let u1 = db.register_user("a@example.com").unwrap();
    let u2 = db.register_user("b@example.com").unwrap();
    db.add_coffee(&u1.apikey, &Coffee { shots: 2, utctime: 1000 }).unwrap();
    db.add_coffee(&u1.apikey, &Coffee { shots: 1, utctime: 2000 }).unwrap();
    let own = db.get_coffees(&u1.apikey).unwrap();
    let other = db.get_coffees(&u2.apikey).unwrap();
    assert_eq!(own.len(), 2);
    assert!(other.is_empty());
}

#[test]
fn store_itself_accepts_any_shot_count() {
    let mut db = Db::new();
    let u = db.register_user("a@example.com").unwrap();
    db.add_coffee(&u.apikey, &Coffee { shots: 0, utctime: 1 }).unwrap();
    db.add_coffee(&u.apikey, &Coffee { shots: -1, utctime: 2 }).unwrap();
    assert_eq!(db.get_coffees(&u.apikey).unwrap().len(), 2);
}

#[test]
fn add_under_unknown_key_persists_nothing() {
    let mut db = Db::new();
    let u = db.register_user("a@example.com").unwrap();
    let r = db.add_coffee("never-issued", &Coffee { shots: 2, utctime: 1000 });
    assert_eq!(r, Err(DbError::UnknownApiKey));
    assert_eq!(db.event_count(), 0);
    assert!(db.get_coffees(&u.apikey).unwrap().is_empty());
}

#[test]
fn get_under_unknown_key_fails() {
    let db = Db::new();
    assert_eq!(db.get_coffees("never-issued"), Err(DbError::UnknownApiKey));
}

#[test]
fn list_events_of_unissued_owner_is_empty() {
    let db = Db::new();
    assert!(db.list_events(7).is_empty());
}
