use ievr_dataminer::channel::NameRequest;
use ievr_dataminer::errors::PipelineError;
use ievr_dataminer::common::{Cell, Row};
use ievr_dataminer::text::TextResolver;
use ievr_dataminer::text::text_database::TextDatabase;

fn name_row(id: i32, variant: i32, text: &str) -> Row {
    let mut cells = Vec::new();
    for _ in 0..6 {
        cells.push(Cell::Int(0));
    }
    cells[0] = Cell::Int(id);
    cells[1] = Cell::Int(variant);
    cells[5] = Cell::Text(String::from(text));
    Row { cells }
}

fn desc_row(id: i32, text: &str) -> Row {
    let cells = vec![Cell::Int(id), Cell::Int(0), Cell::Text(String::from(text))];
    Row { cells }
}

fn sample_database() -> TextDatabase {
    let conn = rusqlite::Connection::open_in_memory().unwrap();
    let names = vec![
        name_row(1, 0, "first"),
        name_row(1, 0, "second"),
        name_row(2, 1, "alternate phrasing"),
        name_row(3, 0, "third"),
    ];
    let roma = vec![name_row(1, 0, "roma-one")];
    let descs = vec![desc_row(10, "about one"), desc_row(10, "about one, revised")];
    let add_info = vec![name_row(5, 0, "series five")];
    TextDatabase::init(conn, &names, &roma, &descs, &add_info, &Vec::new()).unwrap()
}

fn count(conn: &rusqlite::Connection, table: &str) -> i64 {
    conn.query_row(&format!("SELECT COUNT(*) FROM {table}"), [], |r| r.get(0))
        .unwrap()
}

#[test]
fn init_filters_variant_rows_and_later_duplicate_wins() {
    let db = sample_database();
    assert_eq!(db.chara_names.get(&1).map(String::as_str), Some("second"));
    assert_eq!(db.chara_names.get(&2), None);
    assert_eq!(db.chara_names.get(&3).map(String::as_str), Some("third"));
    assert_eq!(
        db.chara_descriptions.get(&10).map(String::as_str),
        Some("about one, revised")
    );
    assert_eq!(db.get_missing_names(), 0);
}

#[test]
fn init_writes_grouping_names_eagerly() {
    let db = sample_database();
    let name: String = db
        .conn
        .query_row("SELECT name FROM series_names WHERE id = 5", [], |r| {
            r.get(0)
        })
        .unwrap();
    assert_eq!(name, "series five");
}

#[test]
fn write_character_counts_missing_names_and_skips_missing_descriptions() {
    let mut db = sample_database();
    let batch = vec![
        NameRequest { name_id: 1, description_id: 10 },
        NameRequest { name_id: 99, description_id: 11 },
    ];
    db.write_character(&batch).unwrap();
    // The resolved name and description are written; the unresolved name
    // is counted; the unresolved description is skipped without counting.
    assert_eq!(count(&db.conn, "character_names"), 1);
    assert_eq!(count(&db.conn, "character_descriptions"), 1);
    assert_eq!(db.get_missing_names(), 1);
    let name: String = db
        .conn
        .query_row("SELECT name FROM character_names WHERE id = 1", [], |r| {
            r.get(0)
        })
        .unwrap();
    assert_eq!(name, "second");
}

#[test]
fn write_character_roma_skips_absent_ids_silently() {
    let mut db = sample_database();
    let batch = vec![
        NameRequest { name_id: 1, description_id: 10 },
        NameRequest { name_id: 3, description_id: 11 },
    ];
    db.write_character_roma(&batch).unwrap();
    assert_eq!(count(&db.conn, "character_names_roma"), 1);
    assert_eq!(db.get_missing_names(), 0);
}

#[test]
fn resolver_buffers_until_finish() {
    let mut resolver = TextResolver::new(vec![sample_database()]);
    resolver
        .push_request(NameRequest { name_id: 1, description_id: 10 })
        .unwrap();
    resolver
        .push_request(NameRequest { name_id: 42, description_id: 11 })
        .unwrap();
    // Below the threshold nothing is written yet.
    assert_eq!(count(&resolver.databases[0].conn, "character_names"), 0);
    let missing = resolver.finish().unwrap();
    assert_eq!(missing, 1);
    assert_eq!(count(&resolver.databases[0].conn, "character_names"), 1);
    assert_eq!(count(&resolver.databases[0].conn, "character_names_roma"), 1);
    assert_eq!(count(&resolver.databases[0].conn, "character_descriptions"), 1);
}

#[test]
fn resolver_reports_first_locale_count() {
    let mut resolver = TextResolver::new(vec![sample_database(), sample_database()]);
    resolver
        .push_request(NameRequest { name_id: 77, description_id: 1 })
        .unwrap();
    let missing = resolver.finish().unwrap();
    assert_eq!(missing, 1);
    assert_eq!(resolver.databases[1].get_missing_names(), 1);
}

#[test]
fn duplicate_request_rows_are_conflict_ignored() {
    let mut db = sample_database();
    let batch = vec![
        NameRequest { name_id: 1, description_id: 10 },
        NameRequest { name_id: 1, description_id: 10 },
    ];
    db.write_character(&batch).unwrap();
    assert_eq!(count(&db.conn, "character_names"), 1);
    assert_eq!(count(&db.conn, "character_descriptions"), 1);
    assert_eq!(db.get_missing_names(), 0);
}

#[test]
fn malformed_name_row_fails_index_construction() {
    let conn = rusqlite::Connection::open_in_memory().unwrap();
    // The text cell is missing entirely: the row is too short for the
    // name-table schema.
    let bad = Row { cells: vec![Cell::Int(1), Cell::Int(0)] };
    let res = TextDatabase::init(conn, &vec![bad], &Vec::new(), &Vec::new(), &Vec::new(), &Vec::new());
    assert_eq!(res.err().map(|e| e == PipelineError::MalformedCell), Some(true));
}

#[test]
fn existing_conflicting_schema_fails_init() {
    let conn = rusqlite::Connection::open_in_memory().unwrap();
    conn.execute_batch("CREATE TABLE character_names (only_column INTEGER);")
        .unwrap();
    let res = TextDatabase::init(conn, &Vec::new(), &Vec::new(), &Vec::new(), &Vec::new(), &Vec::new());
    let err = match res {
        Ok(_) => panic!("construction against a conflicting schema must fail"),
        Err(e) => e,
    };
    assert!(matches!(err, PipelineError::Store(_)));
}
