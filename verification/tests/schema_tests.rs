use noodle_store::records::StorableNoodle;
use noodle_store::store::Db;

fn dish(name: &str, img: Vec<u8>, rating: usize) -> StorableNoodle {
    StorableNoodle::new(name.to_string(), None, img, rating)
}

#[test]
fn schema_init_twice_is_idempotent() {
    let dir = tempfile::tempdir().unwrap();
    let path = dir.path().join("noodles.db");
    let path = path.to_str().unwrap();
    {
        let mut db = Db::new(path).unwrap();
        db.store_noodle(&dish("ramen", vec![1, 2, 3], 4), None).unwrap();
    }
    // a process restart re-runs initialization against the existing file
    let mut db = Db::new(path).unwrap();
    db.ensure_schema().unwrap();
    let fetched = db.fetch_noodles().unwrap();
    assert_eq!(fetched.len(), 1);
    assert_eq!(fetched[0].name, "ramen");
    assert_eq!(fetched[0].img, vec![1, 2, 3]);
    assert_eq!(fetched[0].ratings.len(), 1);
    assert_eq!(fetched[0].ratings[0].rating, 4);
}

#[test]
fn live_reinitialization_keeps_data() {
    let mut db = Db::new_in_memory().unwrap();
    let id = db.store_noodle(&dish("soba", vec![7; 10], 5), None).unwrap();
    db.ensure_schema().unwrap();
    db.ensure_schema().unwrap();
    db.rate_noodle(id, 1, None).unwrap();
    let fetched = db.fetch_noodles().unwrap();
    assert_eq!(fetched.len(), 1);
    let values: Vec<usize> = fetched[0].ratings.iter().map(|r| r.rating).collect();
    assert_eq!(values, vec![5, 1]);
}

fn create_legacy_store(path: &str) {
    // a store laid down by an older generation: no review column yet
    let conn = rusqlite::Connection::open(path).unwrap();
    conn.execute(
        "CREATE TABLE noodle_images (noodle_id INTEGER PRIMARY KEY AUTOINCREMENT, name TEXT NOT NULL, description TEXT, img BLOB NOT NULL)",
        (),
    )
    .unwrap();
    conn.execute(
        "CREATE TABLE noodle_ratings (rating_id INTEGER PRIMARY KEY AUTOINCREMENT, noodle_id INTEGER NOT NULL, rating INTEGER NOT NULL)",
        (),
    )
    .unwrap();
    conn.execute(
        "INSERT INTO noodle_images (name, description, img) VALUES ('old ramen', NULL, x'0001')",
        (),
    )
    .unwrap();
    conn.execute("INSERT INTO noodle_ratings (noodle_id, rating) VALUES (1, 3)", ()).unwrap();
    conn.execute("INSERT INTO noodle_ratings (noodle_id, rating) VALUES (1, 5)", ()).unwrap();
}

fn review_column_count(path: &str) -> i64 {
    let conn = rusqlite::Connection::open(path).unwrap();
    conn.query_row(
        "SELECT COUNT(*) FROM pragma_table_info('noodle_ratings') WHERE name = 'review'",
        (),
        |row| row.get(0),
    )
    .unwrap()
}

#[test]
fn migration_adds_review_column_once() {
    let dir = tempfile::tempdir().unwrap();
    let path = dir.path().join("legacy.db");
    let path = path.to_str().unwrap();
    create_legacy_store(path);
    assert_eq!(review_column_count(path), 0);

    {
        let db = Db::new(path).unwrap();
        // existing ratings keep their values and get empty reviews
        let fetched = db.fetch_noodles().unwrap();
        assert_eq!(fetched.len(), 1);
        assert_eq!(fetched[0].name, "old ramen");
        let values: Vec<usize> = fetched[0].ratings.iter().map(|r| r.rating).collect();
        assert_eq!(values, vec![3, 5]);
        assert!(fetched[0].ratings.iter().all(|r| r.review.is_none()));
    }
    assert_eq!(review_column_count(path), 1);

    // a second initialization must not duplicate the column or lose rows
    let db = Db::new(path).unwrap();
    assert_eq!(review_column_count(path), 1);
    let fetched = db.fetch_noodles().unwrap();
    assert_eq!(fetched[0].ratings.len(), 2);
}

#[test]
fn legacy_image_bytes_pass_through_untouched() {
    // an image stored by an older generation never went through
    // normalization; its bytes must still come back rather than fail
    let dir = tempfile::tempdir().unwrap();
    let path = dir.path().join("legacy.db");
    let path = path.to_str().unwrap();
    create_legacy_store(path);
    let db = Db::new(path).unwrap();
    let fetched = db.fetch_noodles().unwrap();
    // the legacy blob x'0001' is read as a stored form: tag 0, payload 0x01
    assert_eq!(fetched[0].img, vec![1u8]);
}
