//! The profile store: a durable mapping from profile name to a stored
//! configuration record, backed by an SQLite database through `rusqlite`.
//!
//! The store is modelled as the sequence of rows of the profile table in
//! insertion order, named by [`db_rows`]. Each SQL statement stands behind
//! one trusted wrapper whose contract says what the statement does to that
//! sequence; the store operations themselves are verified against those
//! contracts.

use vstd::prelude::*;

use crate::generation_logic::GenerationData;
use crate::generation_logic::RecordV;

verus! {

/// Declares `rusqlite::Connection`, the handle on one open database, as an
/// opaque outside type.
#[verifier::external_type_specification]
#[verifier::external_body]
pub struct ExConnection(rusqlite::Connection);

/// Declares `rusqlite::Error`, what a failed database call reports, as an
/// opaque outside type.
#[verifier::external_type_specification]
#[verifier::external_body]
pub struct ExRusqliteError(rusqlite::Error);

/// One stored row: the profile name and the five generation fields. The
/// transient overwrite instruction is never persisted.
pub ghost struct StoredProfile {
    pub name: Seq<char>,
    pub minimum_length: usize,
    pub include_numbers: bool,
    pub include_special: bool,
    pub include_ucase: bool,
    pub use_words: bool,
}

/// The rows of the profile table behind a connection, in insertion order.
pub uninterp spec fn db_rows(conn: rusqlite::Connection) -> Seq<StoredProfile>;

/// Whether some row carries the name.
pub open spec fn contains_name(rows: Seq<StoredProfile>, name: Seq<char>) -> bool {
    exists|i: int| 0 <= i < rows.len() && rows[i].name == name
}

/// The first row carrying the name, if any; under [`rows_unique`] it is the
/// only one.
pub open spec fn lookup(rows: Seq<StoredProfile>, name: Seq<char>) -> Option<StoredProfile>
    decreases rows.len(),
{
    if rows.len() == 0 {
        None
    } else if rows[0].name == name {
        Some(rows[0])
    } else {
        lookup(rows.skip(1), name)
    }
}

/// The rows without those carrying the name, order kept.
pub open spec fn remove_named(rows: Seq<StoredProfile>, name: Seq<char>) -> Seq<StoredProfile>
    decreases rows.len(),
{
    if rows.len() == 0 {
        Seq::empty()
    } else if rows[0].name == name {
        remove_named(rows.skip(1), name)
    } else {
        seq![rows[0]] + remove_named(rows.skip(1), name)
    }
}

/// The names of the rows, in row order.
pub open spec fn names_of(rows: Seq<StoredProfile>) -> Seq<Seq<char>> {
    rows.map_values(|r: StoredProfile| r.name)
}

/// No two rows share a name.
pub open spec fn rows_unique(rows: Seq<StoredProfile>) -> bool {
    forall|i: int, j: int| 0 <= i < j < rows.len() ==> rows[i].name != rows[j].name
}

/// The row a record is stored as, under the record's own profile name.
pub open spec fn row_of(rec: RecordV) -> StoredProfile
    recommends
        rec.profile is Some,
{
    StoredProfile {
        name: rec.profile->0,
        minimum_length: rec.minimum_length,
        include_numbers: rec.include_numbers,
        include_special: rec.include_special,
        include_ucase: rec.include_ucase,
        use_words: rec.use_words,
    }
}

/// The record a row is read back as: bound to its profile name, with the
/// transient overwrite instruction off.
pub open spec fn record_of_row(row: StoredProfile) -> RecordV {
    RecordV {
        minimum_length: row.minimum_length,
        include_numbers: row.include_numbers,
        include_special: row.include_special,
        include_ucase: row.include_ucase,
        use_words: row.use_words,
        profile: Some(row.name),
        overwrite: false,
    }
}

/// Why a store operation failed.
#[derive(Debug, Clone, Copy, PartialEq, Eq, Structural)]
pub enum StoreError {
    /// A profile with the name already exists and no overwrite was
    /// instructed.
    DuplicateName,
    /// No profile with the name exists.
    NotFound,
    /// The underlying database reported a failure.
    Storage,
}

proof fn lemma_unique_tail(rows: Seq<StoredProfile>)
    requires
        rows.len() > 0,
        rows_unique(rows),
    ensures
        rows_unique(rows.skip(1)),
{
    assert forall|i: int, j: int| 0 <= i < j < rows.skip(1).len() implies rows.skip(1)[i].name
        != rows.skip(1)[j].name by {
        assert(rows.skip(1)[i] == rows[i + 1]);
        assert(rows.skip(1)[j] == rows[j + 1]);
    }
}

proof fn lemma_remove_named_not_contains(rows: Seq<StoredProfile>, name: Seq<char>)
    ensures
        !contains_name(remove_named(rows, name), name),
    decreases rows.len(),
{
    if rows.len() > 0 {
        lemma_remove_named_not_contains(rows.skip(1), name);
        if rows[0].name != name {
            let rest = remove_named(rows.skip(1), name);
            assert forall|i: int|
                0 <= i < remove_named(rows, name).len() implies remove_named(rows, name)[i].name
                != name by {
                if i > 0 {
                    assert(remove_named(rows, name)[i] == rest[i - 1]);
                    assert(!(0 <= i - 1 < rest.len() && rest[i - 1].name == name));
                }
            }
        }
    }
}

proof fn lemma_remove_named_membership(rows: Seq<StoredProfile>, name: Seq<char>, m: Seq<char>)
    requires
        contains_name(remove_named(rows, name), m),
    ensures
        contains_name(rows, m),
    decreases rows.len(),
{
    if rows.len() > 0 {
        if rows[0].name == name {
            lemma_remove_named_membership(rows.skip(1), name, m);
            let i = choose|i: int|
                0 <= i < rows.skip(1).len() && rows.skip(1)[i].name == m;
            assert(rows[i + 1].name == m);
        } else {
            let r = remove_named(rows, name);
            let rest = remove_named(rows.skip(1), name);
            let i = choose|i: int| 0 <= i < r.len() && r[i].name == m;
            if i == 0 {
                assert(rows[0].name == m);
            } else {
                assert(r[i] == rest[i - 1]);
                lemma_remove_named_membership(rows.skip(1), name, m);
                let j = choose|j: int|
                    0 <= j < rows.skip(1).len() && rows.skip(1)[j].name == m;
                assert(rows[j + 1].name == m);
            }
        }
    }
}

proof fn lemma_remove_named_unique(rows: Seq<StoredProfile>, name: Seq<char>)
    requires
        rows_unique(rows),
    ensures
        rows_unique(remove_named(rows, name)),
    decreases rows.len(),
{
    if rows.len() > 0 {
        lemma_unique_tail(rows);
        lemma_remove_named_unique(rows.skip(1), name);
        if rows[0].name != name {
            let rest = remove_named(rows.skip(1), name);
            let r = remove_named(rows, name);
            assert forall|i: int, j: int| 0 <= i < j < r.len() implies r[i].name != r[j].name by {
                if i == 0 {
                    assert(r[j] == rest[j - 1]);
                    if rows[0].name == rest[j - 1].name {
                        lemma_remove_named_membership(rows.skip(1), name, rows[0].name);
                        let k = choose|k: int|
                            0 <= k < rows.skip(1).len() && rows.skip(1)[k].name == rows[0].name;
                        assert(rows[k + 1].name == rows[0].name);
                    }
                } else {
                    assert(r[i] == rest[i - 1]);
                    assert(r[j] == rest[j - 1]);
                }
            }
        }
    }
}

proof fn lemma_remove_named_absent(rows: Seq<StoredProfile>, name: Seq<char>)
    requires
        !contains_name(rows, name),
    ensures
        remove_named(rows, name) == rows,
    decreases rows.len(),
{
    if rows.len() > 0 {
        assert(rows[0].name != name);
        assert(!contains_name(rows.skip(1), name)) by {
            if contains_name(rows.skip(1), name) {
                let i = choose|i: int|
                    0 <= i < rows.skip(1).len() && rows.skip(1)[i].name == name;
                assert(rows[i + 1].name == name);
            }
        }
        lemma_remove_named_absent(rows.skip(1), name);
        assert(remove_named(rows, name) =~= rows);
    }
}

proof fn lemma_push_unique(rows: Seq<StoredProfile>, p: StoredProfile)
    requires
        rows_unique(rows),
        !contains_name(rows, p.name),
    ensures
        rows_unique(rows.push(p)),
{
    assert forall|i: int, j: int| 0 <= i < j < rows.push(p).len() implies rows.push(p)[i].name
        != rows.push(p)[j].name by {
        if j < rows.len() {
            assert(rows.push(p)[i] == rows[i]);
            assert(rows.push(p)[j] == rows[j]);
        } else {
            assert(rows.push(p)[i] == rows[i]);
            assert(rows.push(p)[j] == p);
            assert(!(0 <= i < rows.len() && rows[i].name == p.name));
        }
    }
}

proof fn lemma_lookup_props(rows: Seq<StoredProfile>, name: Seq<char>)
    ensures
        lookup(rows, name) matches Some(p) ==> p.name == name,
        lookup(rows, name) is Some <==> contains_name(rows, name),
    decreases rows.len(),
{
    if rows.len() > 0 && rows[0].name != name {
        lemma_lookup_props(rows.skip(1), name);
        if contains_name(rows, name) {
            let i = choose|i: int| 0 <= i < rows.len() && rows[i].name == name;
            assert(rows.skip(1)[i - 1].name == name);
        }
        if contains_name(rows.skip(1), name) {
            let i = choose|i: int|
                0 <= i < rows.skip(1).len() && rows.skip(1)[i].name == name;
            assert(rows[i + 1].name == name);
        }
    }
}

proof fn lemma_lookup_after_push(rows: Seq<StoredProfile>, p: StoredProfile)
    requires
        !contains_name(rows, p.name),
    ensures
        lookup(rows.push(p), p.name) == Some(p),
    decreases rows.len(),
{
    let pushed = rows.push(p);
    if rows.len() == 0 {
        assert(pushed[0] == p);
    } else {
        assert(pushed[0] == rows[0]);
        assert(rows[0].name != p.name);
        assert(!contains_name(rows.skip(1), p.name)) by {
            if contains_name(rows.skip(1), p.name) {
                let i = choose|i: int|
                    0 <= i < rows.skip(1).len() && rows.skip(1)[i].name == p.name;
                assert(rows[i + 1].name == p.name);
            }
        }
        lemma_lookup_after_push(rows.skip(1), p);
        assert(pushed.skip(1) =~= rows.skip(1).push(p));
    }
}

/// Law (store round trip): saving a record under a fresh-or-replaced name
/// and then looking that name up finds exactly the saved row, so the record
/// read back agrees with the saved one in the name and all five generation
/// fields.
pub proof fn lemma_store_round_trip(rows: Seq<StoredProfile>, rec: RecordV)
    requires
        rec.profile is Some,
    ensures
        lookup(remove_named(rows, rec.profile->0).push(row_of(rec)), rec.profile->0) == Some(
            row_of(rec),
        ),
        record_of_row(row_of(rec)) == (RecordV { overwrite: false, ..rec }),
{
    lemma_remove_named_not_contains(rows, rec.profile->0);
    lemma_lookup_after_push(remove_named(rows, rec.profile->0), row_of(rec));
}

/// Law (listing order): an empty store lists no names, and creating two
/// profiles with distinct fresh names lists exactly those names, in
/// creation order.
pub proof fn lemma_list_after_two_creates(r1: RecordV, r2: RecordV)
    requires
        r1.profile is Some,
        r2.profile is Some,
        r1.profile->0 != r2.profile->0,
    ensures
        names_of(Seq::<StoredProfile>::empty()) == Seq::<Seq<char>>::empty(),
        names_of(
            remove_named(
                remove_named(Seq::<StoredProfile>::empty(), r1.profile->0).push(row_of(r1)),
                r2.profile->0,
            ).push(row_of(r2)),
        ) == seq![r1.profile->0, r2.profile->0],
{
    let empty = Seq::<StoredProfile>::empty();
    assert(names_of(empty) =~= Seq::<Seq<char>>::empty());
    assert(remove_named(empty, r1.profile->0) == empty);
    let rows1 = empty.push(row_of(r1));
    assert(!contains_name(rows1, r2.profile->0));
    lemma_remove_named_absent(rows1, r2.profile->0);
    let rows2 = rows1.push(row_of(r2));
    assert(names_of(rows2) =~= seq![r1.profile->0, r2.profile->0]);
}

/// Relies on `rusqlite::Connection::open`: opens, creating as needed, the
/// database file at the given path. Nothing is assumed of the rows the file
/// already holds.
#[verifier::external_body]
fn db_open(path: &str) -> (r: Result<rusqlite::Connection, rusqlite::Error>) {
    rusqlite::Connection::open(path)
}

/// Relies on `rusqlite::Connection::open_in_memory`: a fresh in-memory
/// database holds no tables yet, so its profile table holds no rows.
#[verifier::external_body]
fn db_open_in_memory() -> (r: Result<rusqlite::Connection, rusqlite::Error>)
    ensures
        r matches Ok(conn) ==> db_rows(conn) == Seq::<StoredProfile>::empty(),
{
    rusqlite::Connection::open_in_memory()
}

/// Relies on `rusqlite::Connection::execute` with `CREATE TABLE IF NOT
/// EXISTS`: the statement touches no rows, and afterwards the table exists
/// with its `UNIQUE` constraint on the profile name, so no two rows share a
/// name. The uniqueness clause assumes the database file is managed by this
/// library alone: a foreign file that already holds a table of this name
/// without that constraint could keep duplicate names, but such a file is
/// outside the store's single-writer model.
#[verifier::external_body]
fn db_init(conn: &mut rusqlite::Connection) -> (r: Result<(), rusqlite::Error>)
    ensures
        db_rows(*final(conn)) == db_rows(*old(conn)),
        r is Ok ==> rows_unique(db_rows(*final(conn))),
{
    let result = conn.execute(
        "CREATE TABLE IF NOT EXISTS password_settings (
            id INTEGER PRIMARY KEY AUTOINCREMENT,
            profile_name TEXT UNIQUE NOT NULL,
            minimum_length INTEGER DEFAULT 8,
            include_numbers BOOLEAN DEFAULT false,
            include_special BOOLEAN DEFAULT false,
            include_ucase BOOLEAN DEFAULT false,
            use_words BOOLEAN DEFAULT true,
            created_at DATETIME DEFAULT CURRENT_TIMESTAMP
        )",
        (),
    );
    match result {
        Ok(_) => Ok(()),
        Err(e) => Err(e),
    }
}

/// Relies on `rusqlite::Connection::execute` with a single `INSERT`: on
/// success exactly the one new row is appended; a failed statement changes
/// no rows. The caller keeps the name fresh, so the uniqueness constraint
/// cannot reject the row.
#[verifier::external_body]
fn db_insert(
    conn: &mut rusqlite::Connection,
    name: &str,
    minimum_length: usize,
    include_numbers: bool,
    include_special: bool,
    include_ucase: bool,
    use_words: bool,
) -> (r: Result<(), rusqlite::Error>)
    requires
        !contains_name(db_rows(*old(conn)), name@),
    ensures
        r is Ok ==> db_rows(*final(conn)) == db_rows(*old(conn)).push(
            (StoredProfile {
                name: name@,
                minimum_length,
                include_numbers,
                include_special,
                include_ucase,
                use_words,
            }),
        ),
        r is Err ==> db_rows(*final(conn)) == db_rows(*old(conn)),
{
    let result = conn.execute(
        "INSERT INTO password_settings
        (profile_name, minimum_length, include_numbers, include_special, include_ucase, use_words)
        VALUES (?1, ?2, ?3, ?4, ?5, ?6)",
        (name, minimum_length, include_numbers, include_special, include_ucase, use_words),
    );
    match result {
        Ok(_) => Ok(()),
        Err(e) => Err(e),
    }
}

/// Relies on `rusqlite::Connection::execute` with a single `INSERT OR
/// REPLACE`: the statement atomically drops any row with the name and
/// appends the new row with a fresh, largest id; a failed statement changes
/// no rows.
#[verifier::external_body]
fn db_replace(
    conn: &mut rusqlite::Connection,
    name: &str,
    minimum_length: usize,
    include_numbers: bool,
    include_special: bool,
    include_ucase: bool,
    use_words: bool,
) -> (r: Result<(), rusqlite::Error>)
    ensures
        r is Ok ==> db_rows(*final(conn)) == remove_named(db_rows(*old(conn)), name@).push(
            (StoredProfile {
                name: name@,
                minimum_length,
                include_numbers,
                include_special,
                include_ucase,
                use_words,
            }),
        ),
        r is Err ==> db_rows(*final(conn)) == db_rows(*old(conn)),
{
    let result = conn.execute(
        "INSERT OR REPLACE INTO password_settings
        (profile_name, minimum_length, include_numbers, include_special, include_ucase, use_words)
        VALUES (?1, ?2, ?3, ?4, ?5, ?6)",
        (name, minimum_length, include_numbers, include_special, include_ucase, use_words),
    );
    match result {
        Ok(_) => Ok(()),
        Err(e) => Err(e),
    }
}

/// Relies on `rusqlite::Connection::query_row` with a single `SELECT` by
/// name: the returned fields are those of the row carrying the name — under
/// unique names there is at most one — and `QueryReturnedNoRows` means no
/// row carries it.
#[verifier::external_body]
fn db_select_one(conn: &rusqlite::Connection, name: &str) -> (r: Result<
    Option<(String, usize, bool, bool, bool, bool)>,
    rusqlite::Error,
>)
    requires
        rows_unique(db_rows(*conn)),
    ensures
        r matches Ok(Some(row)) ==> ({
            &&& contains_name(db_rows(*conn), name@)
            &&& lookup(db_rows(*conn), name@) matches Some(p)
            &&& row.0@ == p.name
            &&& row.1 == p.minimum_length
            &&& row.2 == p.include_numbers
            &&& row.3 == p.include_special
            &&& row.4 == p.include_ucase
            &&& row.5 == p.use_words
        }),
        r matches Ok(None) ==> !contains_name(db_rows(*conn), name@),
{
    let result = conn.query_row(
        "SELECT profile_name, minimum_length, include_numbers, include_special, include_ucase, use_words
        FROM password_settings WHERE profile_name = ?1",
        (name,),
        |row| Ok((row.get(0)?, row.get(1)?, row.get(2)?, row.get(3)?, row.get(4)?, row.get(5)?)),
    );
    match result {
        Ok(row) => Ok(Some(row)),
        Err(rusqlite::Error::QueryReturnedNoRows) => Ok(None),
        Err(e) => Err(e),
    }
}

/// Relies on `rusqlite::Statement::query_map` over `SELECT` of the names
/// ordered by id: ids grow with insertion, so the names come back in
/// insertion order, one per row.
#[verifier::external_body]
fn db_list(conn: &rusqlite::Connection) -> (r: Result<Vec<String>, rusqlite::Error>)
    ensures
        r matches Ok(v) ==> v.deep_view() == names_of(db_rows(*conn)),
{
    let mut statement = conn.prepare("SELECT profile_name FROM password_settings ORDER BY id")?;
    let names = statement.query_map((), |row| row.get::<_, String>(0))?.collect::<Result<
        Vec<String>,
        rusqlite::Error,
    >>()?;
    Ok(names)
}

/// Relies on `rusqlite::Connection::execute` with a single `DELETE` by
/// name: on success every row carrying the name is gone, the others keep
/// their order, and the count of deleted rows comes back; a failed
/// statement changes no rows.
#[verifier::external_body]
fn db_delete(conn: &mut rusqlite::Connection, name: &str) -> (r: Result<usize, rusqlite::Error>)
    ensures
        r matches Ok(n) ==> db_rows(*final(conn)) == remove_named(db_rows(*old(conn)), name@) && (
        n == 0 <==> !contains_name(db_rows(*old(conn)), name@)),
        r is Err ==> db_rows(*final(conn)) == db_rows(*old(conn)),
{
    conn.execute("DELETE FROM password_settings WHERE profile_name = ?1", (name,))
}

/// A handle on the profile store: a scoped connection to the database,
/// released when the handle is dropped.
pub struct ProfileStore {
    conn: rusqlite::Connection,
}

impl View for ProfileStore {
    type V = Seq<StoredProfile>;

    closed spec fn view(&self) -> Seq<StoredProfile> {
        db_rows(self.conn)
    }
}

impl ProfileStore {
    /// The store's invariant: profile names are unique across the rows.
    pub open spec fn wf(&self) -> bool {
        rows_unique(self@)
    }

    /// Opens, creating as needed, the store in the database file at the
    /// given path.
    pub fn open(path: &str) -> (r: Result<ProfileStore, StoreError>)
        ensures
            r matches Ok(s) ==> s.wf(),
            r matches Err(e) ==> e == StoreError::Storage,
    {
        match db_open(path) {
            Ok(mut conn) => match db_init(&mut conn) {
                Ok(()) => Ok(ProfileStore { conn }),
                Err(_) => Err(StoreError::Storage),
            },
            Err(_) => Err(StoreError::Storage),
        }
    }

    /// Opens a fresh, empty store held in memory.
    pub fn open_in_memory() -> (r: Result<ProfileStore, StoreError>)
        ensures
            r matches Ok(s) ==> s.wf() && s@ == Seq::<StoredProfile>::empty(),
            r matches Err(e) ==> e == StoreError::Storage,
    {
        match db_open_in_memory() {
            Ok(mut conn) => match db_init(&mut conn) {
                Ok(()) => Ok(ProfileStore { conn }),
                Err(_) => Err(StoreError::Storage),
            },
            Err(_) => Err(StoreError::Storage),
        }
    }

    /// Creates the profile named by the record, or replaces it when the
    /// record carries the overwrite instruction. A name already stored and
    /// no overwrite instruction is exactly the duplicate-name failure, and
    /// then the stored rows stay untouched.
    pub fn create(&mut self, record: &GenerationData) -> (r: Result<(), StoreError>)
        requires
            old(self).wf(),
            record@.profile is Some,
        ensures
            final(self).wf(),
            r is Ok ==> final(self)@ == remove_named(old(self)@, record@.profile->0).push(
                row_of(record@),
            ),
            r matches Err(e) ==> final(self)@ == old(self)@ && e != StoreError::NotFound,
            r matches Err(e) && e == StoreError::DuplicateName ==> contains_name(
                old(self)@,
                record@.profile->0,
            ) && !record.overwrite,
            contains_name(old(self)@, record@.profile->0) && !record.overwrite ==> r is Err,
    {
        let name: String = match &record.profile {
            Some(n) => n.clone(),
            None => unreached(),
        };
        match db_select_one(&self.conn, name.as_str()) {
            Err(_) => Err(StoreError::Storage),
            Ok(Some(_)) => {
                proof {
                    lemma_lookup_props(self@, name@);
                }
                if !record.overwrite {
                    Err(StoreError::DuplicateName)
                } else {
                    let result = db_replace(
                        &mut self.conn,
                        name.as_str(),
                        record.minimum_length,
                        record.include_numbers,
                        record.include_special,
                        record.include_ucase,
                        record.use_words,
                    );
                    match result {
                        Ok(()) => {
                            proof {
                                lemma_remove_named_unique(old(self)@, name@);
                                lemma_remove_named_not_contains(old(self)@, name@);
                                lemma_push_unique(
                                    remove_named(old(self)@, name@),
                                    row_of(record@),
                                );
                            }
                            Ok(())
                        },
                        Err(_) => Err(StoreError::Storage),
                    }
                }
            },
            Ok(None) => {
                let result = db_insert(
                    &mut self.conn,
                    name.as_str(),
                    record.minimum_length,
                    record.include_numbers,
                    record.include_special,
                    record.include_ucase,
                    record.use_words,
                );
                match result {
                    Ok(()) => {
                        proof {
                            lemma_remove_named_absent(old(self)@, name@);
                            lemma_push_unique(old(self)@, row_of(record@));
                        }
                        Ok(())
                    },
                    Err(_) => Err(StoreError::Storage),
                }
            },
        }
    }

    /// Reads the profile stored under the name; an absent name is `None`,
    /// not an error.
    pub fn read(&self, name: &str) -> (r: Result<Option<GenerationData>, StoreError>)
        requires
            self.wf(),
        ensures
            r matches Ok(Some(g)) ==> ({
                &&& contains_name(self@, name@)
                &&& lookup(self@, name@) matches Some(p)
                &&& g@ == record_of_row(p)
            }),
            r matches Ok(None) ==> !contains_name(self@, name@),
            r matches Err(e) ==> e == StoreError::Storage,
    {
        match db_select_one(&self.conn, name) {
            Ok(Some((profile_name, minimum_length, include_numbers, include_special,
                include_ucase, use_words))) => {
                proof {
                    lemma_lookup_props(self@, name@);
                }
                Ok(
                    Some(
                        GenerationData {
                            minimum_length,
                            include_numbers,
                            include_special,
                            include_ucase,
                            use_words,
                            profile: Some(profile_name),
                            overwrite: false,
                        },
                    ),
                )
            },
            Ok(None) => Ok(None),
            Err(_) => Err(StoreError::Storage),
        }
    }

    /// Lists the stored profile names, in insertion order.
    pub fn list(&self) -> (r: Result<Vec<String>, StoreError>)
        ensures
            r matches Ok(v) ==> v.deep_view() == names_of(self@),
            r matches Err(e) ==> e == StoreError::Storage,
    {
        match db_list(&self.conn) {
            Ok(names) => Ok(names),
            Err(_) => Err(StoreError::Storage),
        }
    }

    /// Deletes the profile stored under the name; an absent name is the
    /// not-found failure.
    pub fn delete(&mut self, name: &str) -> (r: Result<(), StoreError>)
        requires
            old(self).wf(),
        ensures
            final(self).wf(),
            r is Ok ==> contains_name(old(self)@, name@) && final(self)@ == remove_named(
                old(self)@,
                name@,
            ),
            r matches Err(e) ==> final(self)@ == old(self)@ && e != StoreError::DuplicateName,
            r matches Err(e) && e == StoreError::NotFound ==> !contains_name(old(self)@, name@),
            !contains_name(old(self)@, name@) ==> !(r is Ok),
    {
        match db_delete(&mut self.conn, name) {
            Ok(n) => {
                proof {
                    lemma_remove_named_unique(old(self)@, name@);
                }
                if n == 0 {
                    proof {
                        lemma_remove_named_absent(old(self)@, name@);
                    }
                    Err(StoreError::NotFound)
                } else {
                    Ok(())
                }
            },
            Err(_) => Err(StoreError::Storage),
        }
    }
}

} // verus!
