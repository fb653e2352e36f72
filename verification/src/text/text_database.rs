use std::collections::HashMap;
use vstd::prelude::*;

use crate::channel::NameRequest;
use crate::common::{Row, has_int_at, has_text_at, int_at, row_int, row_text, text_at};
use crate::db::{SetupStep, StoreError, db_execute_batch, db_execute_id_text, db_pragma_update, store_error};
use crate::errors::PipelineError;

verus! {

broadcast use vstd::std_specs::hash::group_hash_axioms;

// Positional layout of the localization name tables: identifier, variant
// flag (nonzero rows are alternate phrasings and are not indexed), text.
pub const NAME_COL_ID: usize = 0;

pub const NAME_COL_VARIANT: usize = 1;

pub const NAME_COL_TEXT: usize = 5;

// Positional layout of the description table: identifier and text; it has
// no variant flag, every row is indexed.
pub const DESC_COL_ID: usize = 0;

pub const DESC_COL_TEXT: usize = 2;

/// Whether a name-table row has the cells its schema requires.
pub open spec fn name_row_readable(r: Row) -> bool {
    &&& has_int_at(r, NAME_COL_ID as int)
    &&& has_int_at(r, NAME_COL_VARIANT as int)
    &&& has_text_at(r, NAME_COL_TEXT as int)
}

/// Whether every name-table row is readable.
pub open spec fn name_rows_readable(rows: Seq<Row>) -> bool {
    forall|i: int| 0 <= i < rows.len() ==> name_row_readable(#[trigger] rows[i])
}

/// The in-memory name index built from a name table: only rows whose
/// variant flag is zero are included, and a later row with the same
/// identifier overwrites an earlier one.
pub open spec fn name_index_of(rows: Seq<Row>) -> Map<i32, String>
    decreases rows.len(),
{
    if rows.len() == 0 {
        Map::empty()
    } else {
        let m = name_index_of(rows.drop_last());
        if int_at(rows.last(), NAME_COL_VARIANT as int) == 0 {
            m.insert(int_at(rows.last(), NAME_COL_ID as int), text_at(rows.last(), NAME_COL_TEXT as int))
        } else {
            m
        }
    }
}

/// Whether a description-table row has the cells its schema requires.
pub open spec fn desc_row_readable(r: Row) -> bool {
    &&& has_int_at(r, DESC_COL_ID as int)
    &&& has_text_at(r, DESC_COL_TEXT as int)
}

/// Whether every description-table row is readable.
pub open spec fn desc_rows_readable(rows: Seq<Row>) -> bool {
    forall|i: int| 0 <= i < rows.len() ==> desc_row_readable(#[trigger] rows[i])
}

/// The in-memory description index: every row is included, and a later row
/// with the same identifier overwrites an earlier one.
pub open spec fn desc_index_of(rows: Seq<Row>) -> Map<i32, String>
    decreases rows.len(),
{
    if rows.len() == 0 {
        Map::empty()
    } else {
        desc_index_of(rows.drop_last()).insert(
            int_at(rows.last(), DESC_COL_ID as int),
            text_at(rows.last(), DESC_COL_TEXT as int),
        )
    }
}

/// Whether a grouping-name (series) row has the cells its schema requires;
/// it shares the name tables' layout and has no variant filter.
pub open spec fn series_row_readable(r: Row) -> bool {
    &&& has_int_at(r, NAME_COL_ID as int)
    &&& has_text_at(r, NAME_COL_TEXT as int)
}

/// Whether every grouping-name row is readable.
pub open spec fn series_rows_readable(rows: Seq<Row>) -> bool {
    forall|i: int| 0 <= i < rows.len() ==> series_row_readable(#[trigger] rows[i])
}

/// One row written to a locale's text store.
pub enum TextWrite {
    Name(i32, String),
    Roma(i32, String),
    Description(i32, String),
    Series(i32, String),
}

/// The rows the eager grouping-name pass writes: one per table row, in
/// table order, unfiltered.
pub open spec fn series_writes_of(rows: Seq<Row>) -> Seq<TextWrite>
    decreases rows.len(),
{
    if rows.len() == 0 {
        Seq::empty()
    } else {
        series_writes_of(rows.drop_last()).push(
            TextWrite::Series(
                int_at(rows.last(), NAME_COL_ID as int),
                text_at(rows.last(), NAME_COL_TEXT as int),
            ),
        )
    }
}

/// The rows one primary-name write pass commits for a batch of requests:
/// for each request in order, the resolved name row if the name id is
/// indexed, then the resolved description row if the description id is
/// indexed; unresolved names are counted, unresolved descriptions skipped.
pub open spec fn character_writes_of(
    names: Map<i32, String>,
    descs: Map<i32, String>,
    batch: Seq<NameRequest>,
) -> Seq<TextWrite>
    decreases batch.len(),
{
    if batch.len() == 0 {
        Seq::empty()
    } else {
        let prev = character_writes_of(names, descs, batch.drop_last());
        let q = batch.last();
        let with_name = if names.contains_key(q.name_id) {
            prev.push(TextWrite::Name(q.name_id, names[q.name_id]))
        } else {
            prev
        };
        if descs.contains_key(q.description_id) {
            with_name.push(TextWrite::Description(q.description_id, descs[q.description_id]))
        } else {
            with_name
        }
    }
}

/// The rows one transliterated-name write pass commits for a batch: the
/// resolved transliterated name per request, in order; absences are
/// silently skipped.
pub open spec fn roma_writes_of(roma: Map<i32, String>, batch: Seq<NameRequest>) -> Seq<TextWrite>
    decreases batch.len(),
{
    if batch.len() == 0 {
        Seq::empty()
    } else {
        let prev = roma_writes_of(roma, batch.drop_last());
        let q = batch.last();
        if roma.contains_key(q.name_id) {
            prev.push(TextWrite::Roma(q.name_id, roma[q.name_id]))
        } else {
            prev
        }
    }
}

/// How many requests of a batch ask for a name id the index does not hold.
pub open spec fn missing_count(names: Map<i32, String>, batch: Seq<NameRequest>) -> nat
    decreases batch.len(),
{
    if batch.len() == 0 {
        0
    } else {
        missing_count(names, batch.drop_last()) + if names.contains_key(batch.last().name_id) {
            0nat
        } else {
            1nat
        }
    }
}

/// Saturating addition into a 64-bit counter.
pub open spec fn sat_add_u64(a: u64, b: nat) -> u64 {
    if a + b <= u64::MAX {
        (a + b) as u64
    } else {
        u64::MAX
    }
}

/// Builds a name index from a name table's rows.
fn build_name_index(rows: &Vec<Row>) -> (res: Result<HashMap<i32, String>, PipelineError>)
    ensures
        match res {
            Ok(m) => name_rows_readable(rows@) && m@ == name_index_of(rows@),
            Err(e) => e == PipelineError::MalformedCell && !name_rows_readable(rows@),
        },
{
    let mut index: HashMap<i32, String> = HashMap::new();
    let n = rows.len();
    let mut i: usize = 0;
    while i < n
        invariant
            0 <= i <= n,
            n == rows@.len(),
            forall|j: int| 0 <= j < i ==> name_row_readable(#[trigger] rows@[j]),
            index@ == name_index_of(rows@.take(i as int)),
        decreases n - i,
    {
        let row = &rows[i];
        let id = match row_int(row, NAME_COL_ID) {
            Some(v) => v,
            None => {
                return Err(PipelineError::MalformedCell);
            },
        };
        let text = match row_text(row, NAME_COL_TEXT) {
            Some(v) => v,
            None => {
                return Err(PipelineError::MalformedCell);
            },
        };
        let variant = match row_int(row, NAME_COL_VARIANT) {
            Some(v) => v,
            None => {
                return Err(PipelineError::MalformedCell);
            },
        };
        if variant == 0 {
            index.insert(id, text);
        }
        proof {
            assert(rows@.take(i as int + 1).drop_last() =~= rows@.take(i as int));
            assert(rows@.take(i as int + 1).last() == rows@[i as int]);
        }
        i = i + 1;
    }
    proof {
        assert(rows@.take(n as int) =~= rows@);
    }
    Ok(index)
}

/// Builds the description index from the description table's rows.
fn build_desc_index(rows: &Vec<Row>) -> (res: Result<HashMap<i32, String>, PipelineError>)
    ensures
        match res {
            Ok(m) => desc_rows_readable(rows@) && m@ == desc_index_of(rows@),
            Err(e) => e == PipelineError::MalformedCell && !desc_rows_readable(rows@),
        },
{
    let mut index: HashMap<i32, String> = HashMap::new();
    let n = rows.len();
    let mut i: usize = 0;
    while i < n
        invariant
            0 <= i <= n,
            n == rows@.len(),
            forall|j: int| 0 <= j < i ==> desc_row_readable(#[trigger] rows@[j]),
            index@ == desc_index_of(rows@.take(i as int)),
        decreases n - i,
    {
        let row = &rows[i];
        let id = match row_int(row, DESC_COL_ID) {
            Some(v) => v,
            None => {
                return Err(PipelineError::MalformedCell);
            },
        };
        let text = match row_text(row, DESC_COL_TEXT) {
            Some(v) => v,
            None => {
                return Err(PipelineError::MalformedCell);
            },
        };
        index.insert(id, text);
        proof {
            assert(rows@.take(i as int + 1).drop_last() =~= rows@.take(i as int));
            assert(rows@.take(i as int + 1).last() == rows@[i as int]);
        }
        i = i + 1;
    }
    proof {
        assert(rows@.take(n as int) =~= rows@);
    }
    Ok(index)
}

/// One locale's text resolver state: the store connection, the read-only
/// indices built at start-up, the unresolved-name counter, and the ghost
/// history of committed write transactions. Each locale's database is
/// owned by exactly one resolver, so connections are never shared.
pub struct TextDatabase {
    pub conn: rusqlite::Connection,
    pub chara_names: HashMap<i32, String>,
    pub chara_roma_names: HashMap<i32, String>,
    pub chara_descriptions: HashMap<i32, String>,
    pub missing_character_names: u64,
    pub committed: Ghost<Seq<Seq<TextWrite>>>,
    pub setup: Ghost<Seq<SetupStep>>,
}

/// The store preparation one locale performs at start-up, in order: the
/// two pragma updates, then the schema pass.
pub open spec fn text_store_setup() -> Seq<SetupStep> {
    seq![
        SetupStep::Pragma("journal_mode"@, "WAL"@),
        SetupStep::Pragma("synchronous"@, "NORMAL"@),
        SetupStep::Schema,
    ]
}

impl TextDatabase {
    /// Builds one locale's resolver: prepares the store, indexes the
    /// primary names, transliterated names and descriptions (name rows
    /// with a nonzero variant flag are excluded; later duplicates win),
    /// and eagerly writes the grouping names in one transaction.
    pub fn init(
        conn: rusqlite::Connection,
        chara_text: &Vec<Row>,
        chara_text_roma: &Vec<Row>,
        chara_description: &Vec<Row>,
        chara_add_info: &Vec<Row>,
        _skill_text: &Vec<Row>,
    ) -> (res: Result<TextDatabase, PipelineError>)
        ensures
            match res {
                Ok(db) => {
                    &&& name_rows_readable(chara_text@)
                    &&& name_rows_readable(chara_text_roma@)
                    &&& desc_rows_readable(chara_description@)
                    &&& series_rows_readable(chara_add_info@)
                    &&& db.chara_names@ == name_index_of(chara_text@)
                    &&& db.chara_roma_names@ == name_index_of(chara_text_roma@)
                    &&& db.chara_descriptions@ == desc_index_of(chara_description@)
                    &&& db.missing_character_names == 0
                    &&& db.setup@ == text_store_setup()
                    &&& db.committed@ == seq![series_writes_of(chara_add_info@)]
                },
                Err(e) => e.spec_is_data_fault() ==> (e == PipelineError::MalformedCell && !(
                name_rows_readable(chara_text@) && name_rows_readable(chara_text_roma@)
                    && desc_rows_readable(chara_description@) && series_rows_readable(
                    chara_add_info@,
                ))),
            },
    {
        let mut db = TextDatabase {
            conn,
            chara_names: HashMap::new(),
            chara_roma_names: HashMap::new(),
            chara_descriptions: HashMap::new(),
            missing_character_names: 0,
            committed: Ghost(Seq::empty()),
            setup: Ghost(Seq::empty()),
        };
        if let Err(e) = db.apply_pragma("journal_mode", "WAL") {
            return Err(PipelineError::Store(e));
        }
        if let Err(e) = db.apply_pragma("synchronous", "NORMAL") {
            return Err(PipelineError::Store(e));
        }
        if let Err(e) = db.initialize_database() {
            return Err(PipelineError::Store(e));
        }
        db.chara_names = match build_name_index(chara_text) {
            Ok(m) => m,
            Err(e) => {
                return Err(e);
            },
        };
        db.chara_roma_names = match build_name_index(chara_text_roma) {
            Ok(m) => m,
            Err(e) => {
                return Err(e);
            },
        };
        db.chara_descriptions = match build_desc_index(chara_description) {
            Ok(m) => m,
            Err(e) => {
                return Err(e);
            },
        };
        if let Err(e) = db.insert_series(chara_add_info) {
            return Err(e);
        }
        proof {
            assert(db.setup@ =~= text_store_setup());
            assert(db.committed@ =~= seq![series_writes_of(chara_add_info@)]);
        }
        Ok(db)
    }

    /// Sets one pragma of the locale's connection, recording it in the
    /// setup history exactly when the connection accepted it.
    fn apply_pragma(&mut self, name: &str, value: &str) -> (res: Result<(), StoreError>)
        ensures
            final(self).conn == old(self).conn,
            final(self).chara_names == old(self).chara_names,
            final(self).chara_roma_names == old(self).chara_roma_names,
            final(self).chara_descriptions == old(self).chara_descriptions,
            final(self).missing_character_names == old(self).missing_character_names,
            final(self).committed@ == old(self).committed@,
            match res {
                Ok(_) => final(self).setup@ == old(self).setup@.push(
                    SetupStep::Pragma(name@, value@),
                ),
                Err(_) => final(self).setup@ == old(self).setup@,
            },
    {
        if let Err(e) = db_pragma_update(&self.conn, name, value) {
            return Err(store_error(&e));
        }
        self.setup = Ghost(self.setup@.push(SetupStep::Pragma(name@, value@)));
        Ok(())
    }

    /// Creates the five text tables (the store files start empty). The
    /// setup history records the schema pass exactly when the statements
    /// were handed to the connection and accepted.
    fn initialize_database(&mut self) -> (res: Result<(), StoreError>)
        ensures
            final(self).conn == old(self).conn,
            final(self).chara_names == old(self).chara_names,
            final(self).chara_roma_names == old(self).chara_roma_names,
            final(self).chara_descriptions == old(self).chara_descriptions,
            final(self).missing_character_names == old(self).missing_character_names,
            final(self).committed@ == old(self).committed@,
            match res {
                Ok(_) => final(self).setup@ == old(self).setup@.push(SetupStep::Schema),
                Err(_) => final(self).setup@ == old(self).setup@,
            },
    {
        if let Err(e) = db_execute_batch(&self.conn, CREATE_TEXT_TABLES_SQL) {
            return Err(store_error(&e));
        }
        self.setup = Ghost(self.setup@.push(SetupStep::Schema));
        Ok(())
    }

    /// Writes every grouping name eagerly, once, in its own exclusive
    /// transaction; the committed history grows by exactly those rows when
    /// the commit succeeded.
    fn insert_series(&mut self, series_table: &Vec<Row>) -> (res: Result<(), PipelineError>)
        ensures
            final(self).conn == old(self).conn,
            final(self).chara_names == old(self).chara_names,
            final(self).chara_roma_names == old(self).chara_roma_names,
            final(self).chara_descriptions == old(self).chara_descriptions,
            final(self).missing_character_names == old(self).missing_character_names,
            final(self).setup@ == old(self).setup@,
            match res {
                Ok(_) => series_rows_readable(series_table@) && final(self).committed@ == old(
                    self,
                ).committed@.push(series_writes_of(series_table@)),
                Err(e) => {
                    &&& final(self).committed@ == old(self).committed@
                    &&& (e.spec_is_data_fault() ==> (e == PipelineError::MalformedCell
                        && !series_rows_readable(series_table@)))
                },
            },
    {
        if let Err(e) = db_execute_batch(&self.conn, "BEGIN EXCLUSIVE;") {
            return Err(PipelineError::Store(store_error(&e)));
        }
        let n = series_table.len();
        let mut i: usize = 0;
        while i < n
            invariant
                0 <= i <= n,
                n == series_table@.len(),
                forall|j: int| 0 <= j < i ==> series_row_readable(#[trigger] series_table@[j]),
                *self == *old(self),
            decreases n - i,
        {
            let row = &series_table[i];
            let id = match row_int(row, NAME_COL_ID) {
                Some(v) => v,
                None => {
                    let _ = db_execute_batch(&self.conn, "ROLLBACK;");
                    return Err(PipelineError::MalformedCell);
                },
            };
            let name = match row_text(row, NAME_COL_TEXT) {
                Some(v) => v,
                None => {
                    let _ = db_execute_batch(&self.conn, "ROLLBACK;");
                    return Err(PipelineError::MalformedCell);
                },
            };
            if let Err(e) = db_execute_id_text(
                &self.conn,
                INSERT_SERIES_SQL,
                id as i64,
                name.as_str(),
            ) {
                let _ = db_execute_batch(&self.conn, "ROLLBACK;");
                return Err(PipelineError::Store(store_error(&e)));
            }
            i = i + 1;
        }
        if let Err(e) = db_execute_batch(&self.conn, "COMMIT;") {
            let _ = db_execute_batch(&self.conn, "ROLLBACK;");
            return Err(PipelineError::Store(store_error(&e)));
        }
        self.committed = Ghost(self.committed@.push(series_writes_of(series_table@)));
        Ok(())
    }

    /// One primary-name write pass over a batch of requests, in one
    /// exclusive transaction: writes each resolved name and description
    /// row (duplicates ignored by the store), counts each unresolved name,
    /// and silently skips unresolved descriptions. The committed history
    /// grows by this pass exactly when the commit succeeded.
    pub fn write_character(&mut self, index_batch: &Vec<NameRequest>) -> (res: Result<
        (),
        StoreError,
    >)
        ensures
            final(self).conn == old(self).conn,
            final(self).chara_names == old(self).chara_names,
            final(self).chara_roma_names == old(self).chara_roma_names,
            final(self).chara_descriptions == old(self).chara_descriptions,
            final(self).setup@ == old(self).setup@,
            match res {
                Ok(_) => {
                    &&& final(self).committed@ == old(self).committed@.push(
                        character_writes_of(
                            old(self).chara_names@,
                            old(self).chara_descriptions@,
                            index_batch@,
                        ),
                    )
                    &&& final(self).missing_character_names == sat_add_u64(
                        old(self).missing_character_names,
                        missing_count(old(self).chara_names@, index_batch@),
                    )
                },
                Err(_) => {
                    &&& final(self).committed@ == old(self).committed@
                    &&& final(self).missing_character_names == old(
                        self,
                    ).missing_character_names
                },
            },
    {
        if let Err(e) = db_execute_batch(&self.conn, "BEGIN EXCLUSIVE;") {
            return Err(store_error(&e));
        }
        let n = index_batch.len();
        let mut local_missing: u64 = 0;
        let mut k: usize = 0;
        while k < n
            invariant
                0 <= k <= n,
                n == index_batch@.len(),
                local_missing <= k,
                local_missing == missing_count(
                    self.chara_names@,
                    index_batch@.take(k as int),
                ),
                *self == *old(self),
            decreases n - k,
        {
            let q = &index_batch[k];
            match self.chara_names.get(&q.name_id) {
                Some(name) => {
                    if let Err(e) = db_execute_id_text(
                        &self.conn,
                        INSERT_CHARACTER_NAME_SQL,
                        q.name_id as i64,
                        name.as_str(),
                    ) {
                        let _ = db_execute_batch(&self.conn, "ROLLBACK;");
                        return Err(store_error(&e));
                    }
                },
                None => {
                    local_missing = local_missing + 1;
                },
            }
            match self.chara_descriptions.get(&q.description_id) {
                Some(desc) => {
                    if let Err(e) = db_execute_id_text(
                        &self.conn,
                        INSERT_CHARACTER_DESCRIPTION_SQL,
                        q.description_id as i64,
                        desc.as_str(),
                    ) {
                        let _ = db_execute_batch(&self.conn, "ROLLBACK;");
                        return Err(store_error(&e));
                    }
                },
                None => {},
            }
            proof {
                assert(index_batch@.take(k as int + 1).drop_last() =~= index_batch@.take(k as int));
                assert(index_batch@.take(k as int + 1).last() == index_batch@[k as int]);
            }
            k = k + 1;
        }
        match db_execute_batch(&self.conn, "COMMIT;") {
            Ok(_) => {
                proof {
                    assert(index_batch@.take(n as int) =~= index_batch@);
                }
                self.committed = Ghost(
                    self.committed@.push(
                        character_writes_of(
                            self.chara_names@,
                            self.chara_descriptions@,
                            index_batch@,
                        ),
                    ),
                );
                if self.missing_character_names <= u64::MAX - local_missing {
                    self.missing_character_names = self.missing_character_names + local_missing;
                } else {
                    self.missing_character_names = u64::MAX;
                }
                Ok(())
            },
            Err(e) => {
                let _ = db_execute_batch(&self.conn, "ROLLBACK;");
                Err(store_error(&e))
            },
        }
    }

    /// One transliterated-name write pass over a batch, in one exclusive
    /// transaction: writes each resolved transliterated name; absences are
    /// silently skipped.
    pub fn write_character_roma(&mut self, index_batch: &Vec<NameRequest>) -> (res: Result<
        (),
        StoreError,
    >)
        ensures
            final(self).conn == old(self).conn,
            final(self).chara_names == old(self).chara_names,
            final(self).chara_roma_names == old(self).chara_roma_names,
            final(self).chara_descriptions == old(self).chara_descriptions,
            final(self).missing_character_names == old(self).missing_character_names,
            final(self).setup@ == old(self).setup@,
            match res {
                Ok(_) => final(self).committed@ == old(self).committed@.push(
                    roma_writes_of(old(self).chara_roma_names@, index_batch@),
                ),
                Err(_) => final(self).committed@ == old(self).committed@,
            },
    {
        if let Err(e) = db_execute_batch(&self.conn, "BEGIN EXCLUSIVE;") {
            return Err(store_error(&e));
        }
        let n = index_batch.len();
        let mut k: usize = 0;
        while k < n
            invariant
                0 <= k <= n,
                n == index_batch@.len(),
                *self == *old(self),
            decreases n - k,
        {
            let q = &index_batch[k];
            match self.chara_roma_names.get(&q.name_id) {
                Some(name) => {
                    if let Err(e) = db_execute_id_text(
                        &self.conn,
                        INSERT_CHARACTER_ROMA_SQL,
                        q.name_id as i64,
                        name.as_str(),
                    ) {
                        let _ = db_execute_batch(&self.conn, "ROLLBACK;");
                        return Err(store_error(&e));
                    }
                },
                None => {},
            }
            k = k + 1;
        }
        match db_execute_batch(&self.conn, "COMMIT;") {
            Ok(_) => {
                self.committed = Ghost(
                    self.committed@.push(roma_writes_of(self.chara_roma_names@, index_batch@)),
                );
                Ok(())
            },
            Err(e) => {
                let _ = db_execute_batch(&self.conn, "ROLLBACK;");
                Err(store_error(&e))
            },
        }
    }

    /// How many requested names this locale could not resolve.
    pub fn get_missing_names(&self) -> (r: u64)
        ensures
            r == self.missing_character_names,
    {
        self.missing_character_names
    }
}

pub const CREATE_TEXT_TABLES_SQL: &'static str = "CREATE TABLE character_names (
    id INTEGER PRIMARY KEY,
    name TEXT NOT NULL
);
CREATE TABLE character_names_roma (
    id INTEGER PRIMARY KEY,
    name TEXT NOT NULL
);
CREATE TABLE character_descriptions (
    id INTEGER PRIMARY KEY,
    description TEXT NOT NULL
);
CREATE TABLE series_names (
    id INTEGER PRIMARY KEY,
    name TEXT NOT NULL
);
CREATE TABLE skill_names (
    id INTEGER PRIMARY KEY,
    name TEXT NOT NULL,
    description TEXT NOT NULL
);";

pub const INSERT_CHARACTER_NAME_SQL: &'static str =
    "INSERT INTO character_names (id, name) VALUES (?1, ?2) ON CONFLICT(id) DO NOTHING";

pub const INSERT_CHARACTER_ROMA_SQL: &'static str =
    "INSERT INTO character_names_roma (id, name) VALUES (?1, ?2) ON CONFLICT(id) DO NOTHING";

pub const INSERT_CHARACTER_DESCRIPTION_SQL: &'static str =
    "INSERT INTO character_descriptions (id, description) VALUES (?1, ?2) ON CONFLICT(id) DO NOTHING";

pub const INSERT_SERIES_SQL: &'static str =
    "INSERT INTO series_names (id, name) VALUES (?1, ?2);";

} // verus!
