//! The persistent store: one SQLite file holding a dish table and an
//! append-only rating table.
//!
//! The store is modeled by four spec-level quantities of a live
//! `rusqlite::Connection`: the contents of the two tables, each as a
//! sequence of rows in ascending-identifier (rowid) order, with a missing
//! table modeled as the empty sequence; whether both tables exist; and
//! whether the rating table carries the review column (added by a
//! forward-only migration).  Every SQL statement the store issues sits in
//! one small trusted wrapper whose contract states its effect on those
//! quantities; everything above the wrappers is verified.

use vstd::prelude::*;

use crate::records::{DishRec, DishRow, RatingRec, RatingRow, StorableNoodle};

verus! {

#[verifier::external_type_specification]
#[verifier::external_body]
pub struct ExConnection(rusqlite::Connection);

#[verifier::external_type_specification]
#[verifier::external_body]
pub struct ExSqliteError(rusqlite::Error);

/// The rows of the dish table, in ascending `noodle_id` (rowid) order; the
/// empty sequence when the table does not exist.
pub uninterp spec fn dish_table(c: rusqlite::Connection) -> Seq<DishRec>;

/// The rows of the rating table, in ascending `rating_id` (rowid) order;
/// the empty sequence when the table does not exist.
pub uninterp spec fn rating_table(c: rusqlite::Connection) -> Seq<RatingRec>;

/// Whether both tables exist.
pub uninterp spec fn tables_created(c: rusqlite::Connection) -> bool;

/// Whether the rating table exists and carries the review column.
pub uninterp spec fn review_column(c: rusqlite::Connection) -> bool;

/// View of an optional text field.
pub open spec fn opt_view(o: Option<String>) -> Option<Seq<char>> {
    match o {
        Some(s) => Some(s@),
        None => None,
    }
}

/// A dish-table row as a record.
pub open spec fn dish_rec(id: usize, name: Seq<char>, description: Option<Seq<char>>, img: Seq<
    u8,
>) -> DishRec {
    DishRec { id, name, description, img }
}

/// A rating-table row as a record.
pub open spec fn rating_rec(
    id: usize,
    dish_id: usize,
    value: usize,
    review: Option<Seq<char>>,
) -> RatingRec {
    RatingRec { id, dish_id, value, review }
}

/// `id` is larger than the identifier of every row already in the dish
/// table: identifiers are never reused.
pub open spec fn fresh_dish_id(ds: Seq<DishRec>, id: usize) -> bool {
    forall|i: int| 0 <= i < ds.len() ==> (#[trigger] ds[i]).id < id
}

/// `id` is larger than the identifier of every row already in the rating
/// table.
pub open spec fn fresh_rating_id(rs: Seq<RatingRec>, id: usize) -> bool {
    forall|i: int| 0 <= i < rs.len() ==> (#[trigger] rs[i]).id < id
}

/// A rating row with the review text cleared.
pub open spec fn clear_review(x: RatingRec) -> RatingRec {
    RatingRec { id: x.id, dish_id: x.dish_id, value: x.value, review: None }
}

/// What schema initialization does to the rating rows: nothing when the
/// review column was already there; otherwise the added column leaves
/// every existing row's review empty.
pub open spec fn migrated_ratings(rs: Seq<RatingRec>, had_review: bool) -> Seq<RatingRec> {
    if had_review {
        rs
    } else {
        rs.map_values(|x: RatingRec| clear_review(x))
    }
}

/// Errors surfaced by the store, each carrying a human-readable message.
#[derive(Debug)]
pub enum StoreError {
    /// Table creation or migration failed; the store cannot be used.
    Schema(String),
    /// An insert or query against the store failed.
    Persistence(String),
}

impl StoreError {
    /// The human-readable message the error carries.
    pub fn message(&self) -> (r: &String)
        ensures
            self matches StoreError::Schema(m) ==> r@ == m@,
            self matches StoreError::Persistence(m) ==> r@ == m@,
    {
        match self {
            StoreError::Schema(m) => m,
            StoreError::Persistence(m) => m,
        }
    }
}

/// Relies on rusqlite `Error`'s `Display` implementation for a
/// human-readable description of a SQLite failure.
#[verifier::external_body]
fn sqlite_error_message(e: &rusqlite::Error) -> String {
    format!("{}", e)
}

fn schema_err(e: rusqlite::Error) -> (r: StoreError)
    ensures
        r is Schema,
{
    StoreError::Schema(sqlite_error_message(&e))
}

fn persist_err(e: rusqlite::Error) -> (r: StoreError)
    ensures
        r is Persistence,
{
    StoreError::Persistence(sqlite_error_message(&e))
}

/// Relies on rusqlite's `Connection::open`: opens (creating it if absent)
/// the database file at `path`.  Nothing is assumed about the state found
/// there.
#[verifier::external_body]
fn open_connection(path: &str) -> Result<rusqlite::Connection, rusqlite::Error> {
    rusqlite::Connection::open(path)
}

/// Relies on rusqlite's `Connection::open_in_memory`: a fresh in-memory
/// database holds no tables and no rows.
#[verifier::external_body]
fn open_memory_connection() -> (r: Result<rusqlite::Connection, rusqlite::Error>)
    ensures
        r matches Ok(c) ==> !tables_created(c) && !review_column(c) && dish_table(c)
            == Seq::<DishRec>::empty() && rating_table(c) == Seq::<RatingRec>::empty(),
{
    rusqlite::Connection::open_in_memory()
}

/// Relies on rusqlite's `Connection::execute` running two `CREATE TABLE IF
/// NOT EXISTS` statements: an existing table is never altered, a missing
/// one is created empty (so its modeled contents, the empty sequence, are
/// unchanged).  A freshly created rating table carries the review column,
/// which is how the column can appear here; in that case the table did not
/// exist before, so its modeled rows were empty.
#[verifier::external_body]
fn create_tables(c: &mut rusqlite::Connection) -> (r: Result<(), rusqlite::Error>)
    ensures
        r is Ok ==> tables_created(*final(c)) && dish_table(*final(c)) == dish_table(*old(c))
            && rating_table(*final(c)) == rating_table(*old(c)) && (review_column(*old(c))
            ==> review_column(*final(c))) && (tables_created(*old(c)) ==> review_column(*final(c))
            == review_column(*old(c))) && (!review_column(*old(c)) && review_column(*final(c))
            ==> rating_table(*old(c)) == Seq::<RatingRec>::empty()),
{
    c.execute("CREATE TABLE IF NOT EXISTS noodle_images (noodle_id INTEGER PRIMARY KEY AUTOINCREMENT, name TEXT NOT NULL, description TEXT, img BLOB NOT NULL)", ())?;
    c.execute("CREATE TABLE IF NOT EXISTS noodle_ratings (rating_id INTEGER PRIMARY KEY AUTOINCREMENT, noodle_id INTEGER NOT NULL, rating INTEGER NOT NULL, review TEXT, FOREIGN KEY (noodle_id) REFERENCES noodle_images (noodle_id))", ())?;
    Ok(())
}

/// Relies on rusqlite's `Connection::query_row` over
/// `pragma_table_info`: the count of rating-table columns named `review`
/// is positive exactly when the column exists (zero also when the table
/// itself is missing).
#[verifier::external_body]
fn review_column_count(c: &rusqlite::Connection) -> (r: Result<i64, rusqlite::Error>)
    ensures
        r matches Ok(n) ==> ((n > 0) <==> review_column(*c)),
{
    c.query_row(
        "SELECT COUNT(*) FROM pragma_table_info('noodle_ratings') WHERE name = 'review'",
        (),
        |row| row.get(0),
    )
}

/// Relies on rusqlite's `Connection::execute` running `ALTER TABLE ... ADD
/// COLUMN review TEXT`: additive, and every existing row gets a NULL
/// (empty) review.
#[verifier::external_body]
fn add_review_column(c: &mut rusqlite::Connection) -> (r: Result<(), rusqlite::Error>)
    requires
        tables_created(*old(c)),
        !review_column(*old(c)),
    ensures
        r is Ok ==> tables_created(*final(c)) && review_column(*final(c)) && dish_table(*final(c))
            == dish_table(*old(c)) && rating_table(*final(c)) == rating_table(*old(c)).map_values(
            |x: RatingRec| clear_review(x),
        ),
{
    c.execute("ALTER TABLE noodle_ratings ADD COLUMN review TEXT", ())?;
    Ok(())
}

/// Relies on rusqlite's `Connection::execute` running a single-row
/// `INSERT` (atomic: on error nothing is inserted) and on
/// `last_insert_rowid` returning the identifier just assigned, which the
/// AUTOINCREMENT primary key makes positive and strictly larger than every
/// identifier ever used in the table.
#[verifier::external_body]
fn insert_dish(
    c: &mut rusqlite::Connection,
    name: &String,
    description: &Option<String>,
    img: &Vec<u8>,
) -> (r: Result<usize, rusqlite::Error>)
    requires
        tables_created(*old(c)),
    ensures
        tables_created(*final(c)),
        review_column(*final(c)) == review_column(*old(c)),
        rating_table(*final(c)) == rating_table(*old(c)),
        r matches Ok(id) ==> dish_table(*final(c)) == dish_table(*old(c)).push(
            dish_rec(id, name@, opt_view(*description), img@),
        ) && fresh_dish_id(dish_table(*old(c)), id) && 0 < id && id as int <= i64::MAX as int,
        r is Err ==> dish_table(*final(c)) == dish_table(*old(c)),
{
    c.execute(
        "INSERT INTO noodle_images (name, description, img) VALUES (?1, ?2, ?3)",
        (name, description, img),
    )?;
    Ok(c.last_insert_rowid() as usize)
}

/// Relies on rusqlite's `Connection::execute` running a single-row
/// `INSERT` (atomic: on error nothing is inserted) and on
/// `last_insert_rowid`, as for the dish table.
#[verifier::external_body]
fn insert_rating(
    c: &mut rusqlite::Connection,
    dish_id: usize,
    value: usize,
    review: &Option<String>,
) -> (r: Result<usize, rusqlite::Error>)
    requires
        tables_created(*old(c)),
        review_column(*old(c)),
        dish_id as int <= i64::MAX as int,
        value as int <= i64::MAX as int,
    ensures
        tables_created(*final(c)),
        review_column(*final(c)),
        dish_table(*final(c)) == dish_table(*old(c)),
        r matches Ok(id) ==> rating_table(*final(c)) == rating_table(*old(c)).push(
            rating_rec(id, dish_id, value, opt_view(*review)),
        ) && fresh_rating_id(rating_table(*old(c)), id),
        r is Err ==> rating_table(*final(c)) == rating_table(*old(c)),
{
    c.execute(
        "INSERT INTO noodle_ratings (noodle_id, rating, review) VALUES (?1, ?2, ?3)",
        (dish_id as i64, value as i64, review),
    )?;
    Ok(c.last_insert_rowid() as usize)
}

/// Relies on rusqlite's `prepare`/`query_map` running `SELECT ... ORDER BY
/// noodle_id`, which returns exactly the dish table's rows in ascending
/// identifier order — the order `dish_table` is defined in.
#[verifier::external_body]
fn select_dishes(c: &rusqlite::Connection) -> (r: Result<Vec<DishRow>, rusqlite::Error>)
    requires
        tables_created(*c),
    ensures
        r matches Ok(v) ==> v@.map_values(|x: DishRow| x@) == dish_table(*c),
{
    let mut stmt = c.prepare(
        "SELECT noodle_id, name, description, img FROM noodle_images ORDER BY noodle_id",
    )?;
    let rows = stmt.query_map((), |row| {
        Ok(DishRow {
            id: row.get::<_, i64>(0)? as usize,
            name: row.get(1)?,
            description: row.get(2)?,
            img: row.get(3)?,
        })
    })?;
    rows.collect()
}

/// Relies on rusqlite's `prepare`/`query_map` running `SELECT ... ORDER BY
/// rating_id`, which returns exactly the rating table's rows in ascending
/// identifier order — the order `rating_table` is defined in.
#[verifier::external_body]
fn select_ratings(c: &rusqlite::Connection) -> (r: Result<Vec<RatingRow>, rusqlite::Error>)
    requires
        tables_created(*c),
        review_column(*c),
    ensures
        r matches Ok(v) ==> v@.map_values(|x: RatingRow| x@) == rating_table(*c),
{
    let mut stmt = c.prepare(
        "SELECT rating_id, noodle_id, rating, review FROM noodle_ratings ORDER BY rating_id",
    )?;
    let rows = stmt.query_map((), |row| {
        Ok(RatingRow {
            id: row.get::<_, i64>(0)? as usize,
            dish_id: row.get::<_, i64>(1)? as usize,
            value: row.get::<_, i64>(2)? as usize,
            review: row.get(3)?,
        })
    })?;
    rows.collect()
}

/// Ensure both tables exist and the rating table carries the review
/// column, creating and migrating as needed.  Strictly additive: dish rows
/// are untouched, and rating rows at most gain an empty review field.
fn ensure_schema_conn(c: &mut rusqlite::Connection) -> (r: Result<(), rusqlite::Error>)
    ensures
        r is Ok ==> tables_created(*final(c)) && review_column(*final(c)) && dish_table(*final(c))
            == dish_table(*old(c)) && rating_table(*final(c)) == migrated_ratings(
            rating_table(*old(c)),
            review_column(*old(c)),
        ),
{
    create_tables(c)?;
    let n = review_column_count(c)?;
    if n <= 0 {
        add_review_column(c)?;
        proof {
            assert(rating_table(*c) == migrated_ratings(
                rating_table(*old(c)),
                review_column(*old(c)),
            ));
        }
    } else {
        proof {
            if !review_column(*old(c)) {
                assert(rating_table(*old(c)) == Seq::<RatingRec>::empty());
                assert(rating_table(*c) =~= migrated_ratings(
                    rating_table(*old(c)),
                    review_column(*old(c)),
                ));
            }
        }
    }
    Ok(())
}

/// Schema initialization against a store that already carries the
/// current schema (the review column present) loses no data: the rating
/// rows come through unchanged, so a second initialization run — as after
/// a process restart — is idempotent.
pub proof fn lemma_ensure_schema_idempotent(rs: Seq<RatingRec>)
    ensures
        migrated_ratings(rs, true) == rs,
{
}

/// Migrating a store that predates the review column keeps every rating's
/// identifier, dish and value, leaves every review empty, and is done
/// exactly once: a second initialization (the column now present) changes
/// nothing.
pub proof fn lemma_migration_review_empty(rs: Seq<RatingRec>)
    ensures
        migrated_ratings(rs, false).len() == rs.len(),
        forall|i: int|
            0 <= i < rs.len() ==> #[trigger] migrated_ratings(rs, false)[i] == clear_review(rs[i]),
        migrated_ratings(migrated_ratings(rs, false), true) == migrated_ratings(rs, false),
{
}

/// When the external transcoder yields nothing, the stored image is the
/// lossless compression of the raw upload alone, and denormalizing on
/// fetch restores the upload exactly.
pub proof fn lemma_store_without_transcode(raw: Seq<u8>)
    ensures
        crate::codec::denormalize_spec(
            crate::codec::normalize_spec(stored_payload(raw, None)),
        ) == raw,
{
    crate::codec::lemma_normalize_round_trip(raw);
}

/// The image payload that gets stored: the transcoded bytes when the
/// external transcoder produced some, the raw upload otherwise.
pub open spec fn stored_payload(raw: Seq<u8>, transcoded: Option<Seq<u8>>) -> Seq<u8> {
    match transcoded {
        Some(t) => t,
        None => raw,
    }
}

/// View of an optional byte buffer.
pub open spec fn opt_bytes_view(o: Option<Vec<u8>>) -> Option<Seq<u8>> {
    match o {
        Some(v) => Some(v@),
        None => None,
    }
}

/// The dish table grew by exactly one row holding `name`, `description`
/// and `img`, under a never-used identifier; all earlier rows are
/// untouched.
pub open spec fn dish_appended(
    old_ds: Seq<DishRec>,
    new_ds: Seq<DishRec>,
    name: Seq<char>,
    description: Option<Seq<char>>,
    img: Seq<u8>,
) -> bool {
    &&& new_ds.len() == old_ds.len() + 1
    &&& new_ds.drop_last() == old_ds
    &&& new_ds.last() == dish_rec(new_ds.last().id, name, description, img)
    &&& fresh_dish_id(old_ds, new_ds.last().id)
}

/// The rating table grew by exactly one row referencing `dish_id` with
/// score `value` and review `review`, under a never-used identifier; all
/// earlier rows are untouched.
pub open spec fn rating_appended(
    old_rs: Seq<RatingRec>,
    new_rs: Seq<RatingRec>,
    dish_id: usize,
    value: usize,
    review: Option<Seq<char>>,
) -> bool {
    &&& new_rs.len() == old_rs.len() + 1
    &&& new_rs.drop_last() == old_rs
    &&& new_rs.last() == rating_rec(new_rs.last().id, dish_id, value, review)
    &&& fresh_rating_id(old_rs, new_rs.last().id)
}

/// The repository: one owned store handle.  All operations run against
/// it; the caller is expected to hold it behind one mutual-exclusion lock.
pub struct Db {
    conn: rusqlite::Connection,
}

impl Db {
    /// The schema is in place: both tables and the review column.
    pub closed spec fn wf(&self) -> bool {
        tables_created(self.conn) && review_column(self.conn)
    }

    /// The dish rows, in ascending identifier order.
    pub closed spec fn dishes(&self) -> Seq<DishRec> {
        dish_table(self.conn)
    }

    /// The rating rows, in ascending identifier order.
    pub closed spec fn ratings(&self) -> Seq<RatingRec> {
        rating_table(self.conn)
    }

    /// Whether the rating table carries the review column.
    pub closed spec fn has_review(&self) -> bool {
        review_column(self.conn)
    }

    /// Open (or create) the store file at `path` and ensure its schema.
    /// Schema failure is fatal: the caller must not use the store.
    pub fn new(path: &str) -> (r: Result<Db, StoreError>)
        ensures
            r matches Ok(db) ==> db.wf(),
            r matches Err(e) ==> e is Schema,
    {
        let mut conn = match open_connection(path) {
            Ok(c) => c,
            Err(e) => return Err(schema_err(e)),
        };
        match ensure_schema_conn(&mut conn) {
            Ok(()) => Ok(Db { conn }),
            Err(e) => Err(schema_err(e)),
        }
    }

    /// Open a fresh, empty in-memory store with its schema in place.
    pub fn new_in_memory() -> (r: Result<Db, StoreError>)
        ensures
            r matches Ok(db) ==> db.wf() && db.dishes() == Seq::<DishRec>::empty() && db.ratings()
                == Seq::<RatingRec>::empty(),
            r matches Err(e) ==> e is Schema,
    {
        let mut conn = match open_memory_connection() {
            Ok(c) => c,
            Err(e) => return Err(schema_err(e)),
        };
        match ensure_schema_conn(&mut conn) {
            Ok(()) => {
                proof {
                    assert(Seq::<RatingRec>::empty().map_values(|x: RatingRec| clear_review(x))
                        =~= Seq::<RatingRec>::empty());
                }
                Ok(Db { conn })
            },
            Err(e) => Err(schema_err(e)),
        }
    }

    /// Store a new dish: normalize its image (the transcoded bytes when
    /// the external transcoder produced some, the raw upload otherwise —
    /// storage never fails solely because transcoding did), insert the
    /// dish row, and, when a seed rating is present, append it with an
    /// empty review.  Returns the identifier assigned to the dish.  A
    /// failed seed-rating insert does not roll the dish row back.
    pub fn store_noodle(&mut self, noodle: &StorableNoodle, transcoded: Option<Vec<u8>>) -> (r:
        Result<usize, StoreError>)
        requires
            old(self).wf(),
            noodle.current_rating matches Some(v) ==> v as int <= i64::MAX as int,
        ensures
            final(self).wf(),
            r matches Ok(id) ==> {
                &&& dish_appended(
                    old(self).dishes(),
                    final(self).dishes(),
                    noodle.name@,
                    opt_view(noodle.description),
                    crate::codec::normalize_spec(
                        stored_payload(noodle.img@, opt_bytes_view(transcoded)),
                    ),
                )
                &&& final(self).dishes().last().id == id
                &&& match noodle.current_rating {
                    Some(v) => rating_appended(
                        old(self).ratings(),
                        final(self).ratings(),
                        id,
                        v,
                        None,
                    ),
                    None => final(self).ratings() == old(self).ratings(),
                }
            },
            r matches Err(e) ==> e is Persistence && final(self).ratings() == old(self).ratings()
                && (final(self).dishes() == old(self).dishes() || dish_appended(
                old(self).dishes(),
                final(self).dishes(),
                noodle.name@,
                opt_view(noodle.description),
                crate::codec::normalize_spec(
                    stored_payload(noodle.img@, opt_bytes_view(transcoded)),
                ),
            )),
    {
        let stored = match &transcoded {
            Some(t) => crate::codec::normalize(t),
            None => crate::codec::normalize(&noodle.img),
        };
        let id = match insert_dish(&mut self.conn, &noodle.name, &noodle.description, &stored) {
            Ok(id) => id,
            Err(e) => {
                return Err(persist_err(e));
            },
        };
        proof {
            let ds0 = old(self).dishes();
            let rec = dish_rec(
                id,
                noodle.name@,
                opt_view(noodle.description),
                crate::codec::normalize_spec(
                    stored_payload(noodle.img@, opt_bytes_view(transcoded)),
                ),
            );
            assert(self.dishes() == ds0.push(rec));
            assert(ds0.push(rec).drop_last() =~= ds0);
        }
        match noodle.current_rating {
            Some(v) => {
                let no_review: Option<String> = None;
                match insert_rating(&mut self.conn, id, v, &no_review) {
                    Ok(_) => {
                        proof {
                            let rs0 = old(self).ratings();
                            let last = self.ratings().last();
                            assert(self.ratings().drop_last() =~= rs0);
                        }
                        Ok(id)
                    },
                    Err(e) => Err(persist_err(e)),
                }
            },
            None => Ok(id),
        }
    }

    /// Append one rating to the history of dish `noodle_id` (the store
    /// does not check that the dish exists, and never touches the dish
    /// table).
    pub fn rate_noodle(&mut self, noodle_id: usize, rating: usize, review: Option<String>) -> (r:
        Result<(), StoreError>)
        requires
            old(self).wf(),
            noodle_id as int <= i64::MAX as int,
            rating as int <= i64::MAX as int,
        ensures
            final(self).wf(),
            final(self).dishes() == old(self).dishes(),
            r matches Ok(_) ==> rating_appended(
                old(self).ratings(),
                final(self).ratings(),
                noodle_id,
                rating,
                opt_view(review),
            ),
            r matches Err(e) ==> e is Persistence && final(self).ratings() == old(self).ratings(),
    {
        match insert_rating(&mut self.conn, noodle_id, rating, &review) {
            Ok(_) => {
                proof {
                    let rs0 = old(self).ratings();
                    assert(self.ratings().drop_last() =~= rs0);
                }
                Ok(())
            },
            Err(e) => Err(persist_err(e)),
        }
    }

    /// Fetch every dish with its full rating history: a left join of the
    /// two tables grouped by dish identifier, dishes in ascending
    /// identifier order, each dish's ratings in arrival order, each image
    /// denormalized back to its ready-to-serve bytes.
    pub fn fetch_noodles(&self) -> (r: Result<Vec<StorableNoodle>, StoreError>)
        requires
            self.wf(),
        ensures
            r matches Ok(v) ==> v@.map_values(|n: StorableNoodle| n@)
                == crate::aggregate::fetch_spec(self.dishes(), self.ratings()),
            r matches Err(e) ==> e is Persistence,
    {
        let dishes = match select_dishes(&self.conn) {
            Ok(d) => d,
            Err(e) => {
                return Err(persist_err(e));
            },
        };
        let ratings = match select_ratings(&self.conn) {
            Ok(x) => x,
            Err(e) => {
                return Err(persist_err(e));
            },
        };
        Ok(crate::aggregate::aggregate_rows(&dishes, &ratings))
    }

    /// Re-run schema initialization against the live store.  Idempotent:
    /// once the schema is in place (`wf`), another run changes nothing —
    /// no duplicate tables, no data loss.  On a store that predates the
    /// review column, the one additive migration runs and leaves every
    /// existing rating's review empty.
    pub fn ensure_schema(&mut self) -> (r: Result<(), StoreError>)
        ensures
            r matches Ok(_) ==> final(self).wf() && final(self).dishes() == old(self).dishes()
                && final(self).ratings() == migrated_ratings(
                old(self).ratings(),
                old(self).has_review(),
            ),
            r matches Err(e) ==> e is Schema,
    {
        match ensure_schema_conn(&mut self.conn) {
            Ok(()) => Ok(()),
            Err(e) => Err(schema_err(e)),
        }
    }
}

} // verus!
