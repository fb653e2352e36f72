use ievr_dataminer::channel::{RequestReceiver, RequestSender};
use ievr_dataminer::characters::{CharacterStore, populate_character_data};
use ievr_dataminer::common::{Cell, Row};
use ievr_dataminer::errors::PipelineError;

fn base_row(key: i32, index: i32, name_id: i32, series_id: i32) -> Row {
    let mut cells = Vec::new();
    for _ in 0..16 {
        cells.push(Cell::Int(0));
    }
    cells[0] = Cell::Int(key);
    cells[2] = Cell::Int(index);
    cells[3] = Cell::Int(name_id);
    cells[15] = Cell::Int(series_id);
    Row { cells }
}

#[allow(clippy::too_many_arguments)]
fn param_row(
    desc: i32,
    fk: i32,
    element: i32,
    main: i32,
    alt: i32,
    style: i32,
    pattern: i32,
    rank: i32,
    skills: [i32; 6],
    rarity: i32,
) -> Row {
    let mut cells = Vec::new();
    for _ in 0..42 {
        cells.push(Cell::Int(1));
    }
    cells[0] = Cell::Int(desc);
    cells[1] = Cell::Int(fk);
    cells[2] = Cell::Int(element);
    cells[3] = Cell::Int(main);
    cells[4] = Cell::Int(alt);
    cells[5] = Cell::Int(style);
    cells[7] = Cell::Int(pattern);
    cells[9] = Cell::Int(rank);
    for k in 0..6 {
        cells[23 + k] = Cell::Int(skills[k]);
    }
    cells[41] = Cell::Int(rarity);
    Row { cells }
}

fn growth_row(role: u8, pattern: u8, rank: u8, mid: [i32; 7], end: [i32; 7]) -> Row {
    let mut cells = vec![Cell::Byte(role), Cell::Byte(pattern), Cell::Byte(rank)];
    for v in mid {
        cells.push(Cell::Int(v));
    }
    for v in end {
        cells.push(Cell::Int(v));
    }
    Row { cells }
}

fn count(conn: &rusqlite::Connection, table: &str) -> i64 {
    conn.query_row(&format!("SELECT COUNT(*) FROM {table}"), [], |r| r.get(0))
        .unwrap()
}

#[test]
fn end_to_end_sample_persists_expected_row() {
    let conn = rusqlite::Connection::open_in_memory().unwrap();
    let mut store = CharacterStore::new(conn);
    let (tx, rx) = crossbeam::channel::unbounded();
    let mut sender = RequestSender::new(tx);
    let mut receiver = RequestReceiver::new(rx);

    let base = vec![base_row(7, 12, 500, 9)];
    let params = vec![param_row(77, 7, 1, 2, 5, 0, 3, 1, [1; 6], 0)];
    let growth = vec![growth_row(2, 3, 1, [10; 7], [20; 7])];

    let ignored =
        populate_character_data(&mut store, &mut sender, base, &params, &growth).unwrap();
    assert_eq!(ignored, 0);

    drop(sender);
    let req = receiver.recv().expect("exactly one request must be sent");
    assert_eq!(req.name_id, 500);
    assert_eq!(req.description_id, 77);
    assert!(receiver.recv().is_none());

    assert_eq!(count(&store.conn, "characters"), 1);
    let (index, name_id, series_id): (i64, i64, i64) = store
        .conn
        .query_row(
            "SELECT index_id, name_id, series_id FROM characters",
            [],
            |r| Ok((r.get(0)?, r.get(1)?, r.get(2)?)),
        )
        .unwrap();
    assert_eq!(index, 12);
    assert_eq!(name_id, 500);
    assert_eq!(series_id, 9);

    let sum50: i64 = store
        .conn
        .query_row(
            "SELECT lvl50_kick + lvl50_control + lvl50_technique + lvl50_pressure
                  + lvl50_physical + lvl50_agility + lvl50_intelligence FROM characters",
            [],
            |r| r.get(0),
        )
        .unwrap();
    // Every mid-level stat is 10 * 14 / 10 = 14.
    assert_eq!(sum50, 7 * 14);
    let sum99: i64 = store
        .conn
        .query_row(
            "SELECT lvl99_kick + lvl99_control + lvl99_technique + lvl99_pressure
                  + lvl99_physical + lvl99_agility + lvl99_intelligence FROM characters",
            [],
            |r| r.get(0),
        )
        .unwrap();
    assert_eq!(sum99, 7 * 20);
}

#[test]
fn rerun_ignores_common_duplicates_but_duplicates_promoted() {
    let conn = rusqlite::Connection::open_in_memory().unwrap();
    let mut store = CharacterStore::new(conn);
    let (tx, rx) = crossbeam::channel::unbounded();
    let mut sender = RequestSender::new(tx);
    let receiver = RequestReceiver::new(rx);

    let tables = || {
        let base = vec![base_row(7, 1, 10, 1), base_row(8, 2, 20, 1)];
        let params = vec![
            param_row(70, 7, 1, 2, 3, 0, 3, 1, [1; 6], 0),
            param_row(80, 8, 1, 2, 3, 0, 3, 1, [1; 6], 5),
        ];
        let growth = vec![growth_row(2, 3, 1, [10; 7], [20; 7])];
        (base, params, growth)
    };

    let (base, params, growth) = tables();
    populate_character_data(&mut store, &mut sender, base, &params, &growth).unwrap();
    assert_eq!(count(&store.conn, "characters"), 1);
    assert_eq!(count(&store.conn, "heroes"), 1);

    // A second run against the same store: the common bucket's inserts
    // are all conflict-ignored, while the promoted bucket duplicates its
    // row — a deliberate asymmetry of the persistence policies.
    let (base, params, growth) = tables();
    populate_character_data(&mut store, &mut sender, base, &params, &growth).unwrap();
    assert_eq!(count(&store.conn, "characters"), 1);
    assert_eq!(count(&store.conn, "heroes"), 2);

    drop(receiver);
}

#[test]
fn growth_miss_aborts_with_nothing_beyond_last_batch() {
    let conn = rusqlite::Connection::open_in_memory().unwrap();
    let mut store = CharacterStore::new(conn);
    let (tx, rx) = crossbeam::channel::unbounded();
    let mut sender = RequestSender::new(tx);
    let receiver = RequestReceiver::new(rx);

    // The first base row produces one entity; the second hits a growth
    // lookup miss for a defined primary role, which aborts the run.
    let base = vec![base_row(7, 1, 10, 1), base_row(8, 2, 20, 1)];
    let params = vec![
        param_row(70, 7, 1, 2, 3, 0, 3, 1, [1; 6], 0),
        param_row(80, 8, 1, 2, 3, 0, 9, 9, [1; 6], 0),
    ];
    let growth = vec![growth_row(2, 3, 1, [10; 7], [20; 7])];

    let res = populate_character_data(&mut store, &mut sender, base, &params, &growth);
    assert_eq!(res.unwrap_err(), PipelineError::GrowthTableMiss);

    // The buffered entity never reached a committed batch: persistence is
    // crash-consistent at batch granularity.
    assert_eq!(count(&store.conn, "characters"), 0);
    assert_eq!(count(&store.conn, "heroes"), 0);
    assert_eq!(count(&store.conn, "basaras"), 0);

    drop(receiver);
}

#[test]
fn closed_channel_fails_the_run() {
    let conn = rusqlite::Connection::open_in_memory().unwrap();
    let mut store = CharacterStore::new(conn);
    let (tx, rx) = crossbeam::channel::unbounded();
    let mut sender = RequestSender::new(tx);
    drop(rx);

    let base = vec![base_row(7, 1, 10, 1)];
    let params = vec![param_row(70, 7, 1, 2, 3, 0, 3, 1, [1; 6], 0)];
    let growth = vec![growth_row(2, 3, 1, [10; 7], [20; 7])];

    let res = populate_character_data(&mut store, &mut sender, base, &params, &growth);
    assert_eq!(res.unwrap_err(), PipelineError::ChannelClosed);
    assert_eq!(count(&store.conn, "characters"), 0);
}

#[test]
fn storage_failure_surfaces_as_store_error() {
    let conn = rusqlite::Connection::open_in_memory().unwrap();
    // A pre-existing table with the wrong shape makes the insert fail,
    // while the schema setup (CREATE TABLE IF NOT EXISTS) passes it by.
    conn.execute_batch("CREATE TABLE characters (only_column INTEGER);")
        .unwrap();
    let mut store = CharacterStore::new(conn);
    let (tx, rx) = crossbeam::channel::unbounded();
    let mut sender = RequestSender::new(tx);
    let receiver = RequestReceiver::new(rx);

    let base = vec![base_row(7, 1, 10, 1)];
    let params = vec![param_row(70, 7, 1, 2, 3, 0, 3, 1, [1; 6], 0)];
    let growth = vec![growth_row(2, 3, 1, [10; 7], [20; 7])];

    let res = populate_character_data(&mut store, &mut sender, base, &params, &growth);
    assert!(matches!(res.unwrap_err(), PipelineError::Store(_)));
    assert_eq!(count(&store.conn, "characters"), 0);
    drop(receiver);
}

#[test]
fn threshold_flush_commits_full_batches() {
    let conn = rusqlite::Connection::open_in_memory().unwrap();
    let mut store = CharacterStore::new(conn);
    let (tx, rx) = crossbeam::channel::unbounded();
    let mut sender = RequestSender::new(tx);
    let receiver = RequestReceiver::new(rx);

    // One base row with more matches than the flush threshold: the full
    // batch is committed mid-run and the remainder at the end.
    let base = vec![base_row(7, 1, 10, 1)];
    let mut params = Vec::new();
    for k in 0..1001 {
        params.push(param_row(k, 7, 1, 2, 3, 0, 3, 1, [1; 6], 0));
    }
    let growth = vec![growth_row(2, 3, 1, [10; 7], [20; 7])];

    let ignored =
        populate_character_data(&mut store, &mut sender, base, &params, &growth).unwrap();
    assert_eq!(ignored, 0);
    assert_eq!(count(&store.conn, "characters"), 1);
    // Every insert carried the same ordinal index, so the conflict-ignoring
    // policy kept exactly one row; the run itself saw all 1001 matches.
    drop(receiver);
}

#[test]
fn abort_after_full_batch_keeps_the_committed_batch() {
    let conn = rusqlite::Connection::open_in_memory().unwrap();
    let mut store = CharacterStore::new(conn);
    let (tx, rx) = crossbeam::channel::unbounded();
    let mut sender = RequestSender::new(tx);
    let receiver = RequestReceiver::new(rx);

    // 1000 promoted entities fill and flush one batch; a later base row
    // aborts the run. The committed batch survives, nothing else does.
    let base = vec![base_row(7, 1, 10, 1), base_row(8, 2, 20, 1)];
    let mut params = Vec::new();
    for k in 0..1000 {
        params.push(param_row(k, 7, 1, 2, 3, 0, 3, 1, [1; 6], 5));
    }
    params.push(param_row(0, 8, 1, 2, 3, 0, 9, 9, [1; 6], 0));
    let growth = vec![growth_row(2, 3, 1, [10; 7], [20; 7])];

    let res = populate_character_data(&mut store, &mut sender, base, &params, &growth);
    assert_eq!(res.unwrap_err(), PipelineError::GrowthTableMiss);
    assert_eq!(count(&store.conn, "heroes"), 1000);
    assert_eq!(count(&store.conn, "characters"), 0);
    drop(receiver);
}
