use noodle_store::api::{to_api, to_api_list, RateNoodle};
use noodle_store::records::StorableNoodle;
use noodle_store::store::{Db, StoreError};

fn dish(name: &str, img: Vec<u8>, rating: usize) -> StorableNoodle {
    StorableNoodle::new(name.to_string(), None, img, rating)
}

fn dish_without_seed(name: &str, img: Vec<u8>) -> StorableNoodle {
    StorableNoodle {
        id: 0,
        name: name.to_string(),
        description: Some("a noodle".to_string()),
        img,
        current_rating: None,
        ratings: vec![],
    }
}

#[test]
fn storable_noodle_new_seeds_rating() {
    let n = dish("soba", vec![9, 9, 9], 4);
    assert_eq!(n.id, 0);
    assert_eq!(n.name, "soba");
    assert_eq!(n.description, None);
    assert_eq!(n.img, vec![9, 9, 9]);
    assert_eq!(n.current_rating, Some(4));
    assert!(n.ratings.is_empty());
}

#[test]
fn store_with_seed_rating_then_fetch() {
    let mut db = Db::new_in_memory().unwrap();
    db.store_noodle(&dish("ramen", vec![1, 2, 3], 4), None).unwrap();
    let fetched = db.fetch_noodles().unwrap();
    assert_eq!(fetched.len(), 1);
    let n = &fetched[0];
    assert_eq!(n.name, "ramen");
    assert_eq!(n.img, vec![1, 2, 3]);
    assert_eq!(n.current_rating, None);
    assert_eq!(n.ratings.len(), 1);
    assert_eq!(n.ratings[0].rating, 4);
    assert_eq!(n.ratings[0].noodle_id, n.id);
    assert_eq!(n.ratings[0].review, None);
}

#[test]
fn appended_ratings_keep_arrival_order() {
    let mut db = Db::new_in_memory().unwrap();
    let id = db.store_noodle(&dish_without_seed("pho", vec![5; 64]), None).unwrap();
    db.rate_noodle(id, 3, None).unwrap();
    db.rate_noodle(id, 5, Some("great".to_string())).unwrap();
    db.rate_noodle(id, 1, None).unwrap();
    let fetched = db.fetch_noodles().unwrap();
    assert_eq!(fetched.len(), 1);
    let values: Vec<usize> = fetched[0].ratings.iter().map(|r| r.rating).collect();
    assert_eq!(values, vec![3, 5, 1]);
    assert_eq!(fetched[0].ratings[1].review.as_deref(), Some("great"));
    assert_eq!(fetched[0].ratings[0].review, None);
}

#[test]
fn dish_without_seed_rating_fetches_empty_history() {
    let mut db = Db::new_in_memory().unwrap();
    db.store_noodle(&dish_without_seed("laksa", vec![1, 1, 2]), None).unwrap();
    let fetched = db.fetch_noodles().unwrap();
    assert_eq!(fetched.len(), 1);
    assert!(fetched[0].ratings.is_empty());
    assert_eq!(fetched[0].description.as_deref(), Some("a noodle"));
}

#[test]
fn store_without_transcoder_round_trips_image() {
    // the transcoder produced nothing: the image round-trips through
    // compression alone, byte for byte
    let raw: Vec<u8> = (0..=255u8).cycle().take(1000).collect();
    let mut db = Db::new_in_memory().unwrap();
    db.store_noodle(&dish("yakisoba", raw.clone(), 2), None).unwrap();
    let fetched = db.fetch_noodles().unwrap();
    assert_eq!(fetched[0].img, raw);
}

#[test]
fn store_with_transcoded_bytes_keeps_them() {
    let mut db = Db::new_in_memory().unwrap();
    let transcoded: Vec<u8> = vec![8u8; 40];
    db.store_noodle(&dish("udon", vec![1, 2, 3, 4], 3), Some(transcoded.clone())).unwrap();
    let fetched = db.fetch_noodles().unwrap();
    // the stored (and served) image is the transcoded form
    assert_eq!(fetched[0].img, transcoded);
}

#[test]
fn dishes_fetch_in_ascending_id_order() {
    let mut db = Db::new_in_memory().unwrap();
    let a = db.store_noodle(&dish("first", vec![1], 1), None).unwrap();
    let b = db.store_noodle(&dish("second", vec![2], 2), None).unwrap();
    let c = db.store_noodle(&dish("third", vec![3], 3), None).unwrap();
    assert!(a < b && b < c);
    let fetched = db.fetch_noodles().unwrap();
    let ids: Vec<usize> = fetched.iter().map(|n| n.id).collect();
    assert_eq!(ids, vec![a, b, c]);
    let names: Vec<&str> = fetched.iter().map(|n| n.name.as_str()).collect();
    assert_eq!(names, vec!["first", "second", "third"]);
}

#[test]
fn ratings_attach_to_their_own_dish() {
    let mut db = Db::new_in_memory().unwrap();
    let a = db.store_noodle(&dish_without_seed("a", vec![1]), None).unwrap();
    let b = db.store_noodle(&dish_without_seed("b", vec![2]), None).unwrap();
    db.rate_noodle(a, 2, None).unwrap();
    db.rate_noodle(b, 5, None).unwrap();
    db.rate_noodle(a, 4, None).unwrap();
    let fetched = db.fetch_noodles().unwrap();
    let for_a: Vec<usize> = fetched[0].ratings.iter().map(|r| r.rating).collect();
    let for_b: Vec<usize> = fetched[1].ratings.iter().map(|r| r.rating).collect();
    assert_eq!(for_a, vec![2, 4]);
    assert_eq!(for_b, vec![5]);
}

#[test]
fn to_api_encodes_image_and_bare_ratings() {
    let mut db = Db::new_in_memory().unwrap();
    let id = db.store_noodle(&dish("ramen", vec![1, 2, 3], 4), None).unwrap();
    db.rate_noodle(id, 2, Some("ok".to_string())).unwrap();
    let fetched = db.fetch_noodles().unwrap();
    let api = to_api(&fetched[0]);
    assert_eq!(api.id, id);
    assert_eq!(api.name, "ramen");
    assert_eq!(api.img, "AQID");
    assert_eq!(api.current_rating, None);
    assert_eq!(api.ratings, vec![4, 2]);

    let all = to_api_list(&fetched);
    assert_eq!(all.len(), 1);
    assert_eq!(all[0].img, "AQID");
}

#[test]
fn rate_noodle_request_shape() {
    let req = RateNoodle { noodle_id: 3, rating: 4 };
    assert_eq!(req.noodle_id, 3);
    assert_eq!(req.rating, 4);
}

#[test]
fn schema_error_on_unusable_path() {
    let dir = tempfile::tempdir().unwrap();
    // a directory is not a usable database file
    let err = match Db::new(dir.path().to_str().unwrap()) {
        Err(e) => e,
        Ok(_) => panic!("expected a schema error"),
    };
    match err {
        StoreError::Schema(m) => assert!(!m.is_empty()),
        StoreError::Persistence(_) => panic!("expected a schema error"),
    }
}

#[test]
fn persistence_error_when_table_vanishes() {
    let dir = tempfile::tempdir().unwrap();
    let path = dir.path().join("noodles.db");
    let path = path.to_str().unwrap();
    let mut db = Db::new(path).unwrap();
    // another handle pulls the dish table out from under the store
    let raider = rusqlite::Connection::open(path).unwrap();
    raider.execute("DROP TABLE noodle_images", ()).unwrap();
    let err = match db.store_noodle(&dish("ramen", vec![1], 1), None) {
        Err(e) => e,
        Ok(_) => panic!("expected a persistence error"),
    };
    match err {
        StoreError::Persistence(m) => assert!(!m.is_empty()),
        StoreError::Schema(_) => panic!("expected a persistence error"),
    }
    assert!(db.fetch_noodles().is_err());
}
