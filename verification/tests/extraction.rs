use ievr_dataminer::characters::character::{Element, Position, Style};
use ievr_dataminer::characters::{extract_entities, get_characters, parse_growth_table};
use ievr_dataminer::common::{Cell, Row, parse_byte_value, parse_int_value, parse_string_value, parse_uint_value};
use ievr_dataminer::errors::PipelineError;

fn base_row(key: i32, index: i32, name_id: i32, series_id: i32) -> Row {
    let mut cells = Vec::new();
    for _ in 0..16 {
        cells.push(Cell::Int(0));
    }
    cells[0] = Cell::Int(key);
    cells[2] = Cell::Int(index);
    cells[3] = Cell::Int(name_id);
    cells[15] = Cell::Int(series_id);
    Row { cells }
}

#[allow(clippy::too_many_arguments)]
fn param_row(
    desc: i32,
    fk: i32,
    element: i32,
    main: i32,
    alt: i32,
    style: i32,
    pattern: i32,
    rank: i32,
    skills: [i32; 6],
    rarity: i32,
) -> Row {
    let mut cells = Vec::new();
    for _ in 0..42 {
        cells.push(Cell::Int(1));
    }
    cells[0] = Cell::Int(desc);
    cells[1] = Cell::Int(fk);
    cells[2] = Cell::Int(element);
    cells[3] = Cell::Int(main);
    cells[4] = Cell::Int(alt);
    cells[5] = Cell::Int(style);
    cells[7] = Cell::Int(pattern);
    cells[9] = Cell::Int(rank);
    for k in 0..6 {
        cells[23 + k] = Cell::Int(skills[k]);
    }
    cells[41] = Cell::Int(rarity);
    Row { cells }
}

fn growth_row(role: u8, pattern: u8, rank: u8, mid: [i32; 7], end: [i32; 7]) -> Row {
    let mut cells = vec![Cell::Byte(role), Cell::Byte(pattern), Cell::Byte(rank)];
    for v in mid {
        cells.push(Cell::Int(v));
    }
    for v in end {
        cells.push(Cell::Int(v));
    }
    Row { cells }
}

fn growth_key(role: u32, pattern: u32, rank: u32) -> u32 {
    role * 0x10000 + pattern * 0x100 + rank
}

#[test]
fn element_from_maps_known_codes() {
    assert_eq!(Element::from(1), Element::WIND);
    assert_eq!(Element::from(2), Element::FOREST);
    assert_eq!(Element::from(3), Element::FIRE);
    assert_eq!(Element::from(4), Element::MOUNTAIN);
    assert_eq!(Element::from(0), Element::UNKNOWN);
    assert_eq!(Element::from(99), Element::UNKNOWN);
}

#[test]
fn position_from_maps_known_codes() {
    assert_eq!(Position::from(1), Position::GK);
    assert_eq!(Position::from(2), Position::FW);
    assert_eq!(Position::from(3), Position::MF);
    assert_eq!(Position::from(4), Position::DF);
    assert_eq!(Position::from(5), Position::UNKNOWN);
    assert_eq!(Position::from(-1), Position::UNKNOWN);
}

#[test]
fn style_from_maps_known_codes() {
    assert_eq!(Style::from(0), Style::BREACH);
    assert_eq!(Style::from(1), Style::COUNTER);
    assert_eq!(Style::from(2), Style::BOND);
    assert_eq!(Style::from(3), Style::TENSION);
    assert_eq!(Style::from(4), Style::ROUGH);
    assert_eq!(Style::from(5), Style::JUSTICE);
    assert_eq!(Style::from(6), Style::UNKNOWN);
}

#[test]
fn mid_stats_scale_by_14_over_10_truncating() {
    // 15 * 14 / 10 = 21 exactly; 5 * 14 / 10 = 7 exactly; 13 * 14 / 10
    // truncates 18.2 down to 18.
    let rows = vec![growth_row(
        2,
        3,
        1,
        [15, 5, 13, 10, 0, 1, 9],
        [20, 21, 22, 23, 24, 25, 26],
    )];
    let table = parse_growth_table(&rows).expect("growth table must parse");
    let pair = table.get(&growth_key(2, 3, 1)).expect("key must be present");
    let (mid, end) = *pair;
    assert_eq!(mid.kick, 21);
    assert_eq!(mid.control, 7);
    assert_eq!(mid.technique, 18);
    assert_eq!(mid.pressure, 14);
    assert_eq!(mid.physical, 0);
    assert_eq!(mid.agility, 1);
    assert_eq!(mid.intelligence, 12);
    assert_eq!(end.kick, 20);
    assert_eq!(end.intelligence, 26);
}

#[test]
fn later_growth_row_with_same_key_wins() {
    let rows = vec![
        growth_row(1, 1, 1, [10; 7], [10; 7]),
        growth_row(1, 1, 1, [30; 7], [40; 7]),
    ];
    let table = parse_growth_table(&rows).expect("growth table must parse");
    let (mid, end) = *table.get(&growth_key(1, 1, 1)).unwrap();
    assert_eq!(mid.kick, 42);
    assert_eq!(end.kick, 40);
    assert_eq!(table.len(), 1);
}

#[test]
fn malformed_growth_cell_is_fatal() {
    let mut row = growth_row(1, 1, 1, [10; 7], [10; 7]);
    row.cells[5] = Cell::Text(String::from("oops"));
    let res = parse_growth_table(&vec![row]);
    assert_eq!(res.unwrap_err(), PipelineError::MalformedCell);
}

#[test]
fn nonpositive_base_indices_are_excluded() {
    let base = vec![
        base_row(7, 0, 100, 1),
        base_row(8, -5, 200, 1),
        base_row(9, 3, 300, 1),
    ];
    let params = vec![
        param_row(70, 7, 1, 2, 3, 0, 3, 1, [1; 6], 0),
        param_row(80, 8, 1, 2, 3, 0, 3, 1, [1; 6], 0),
        param_row(90, 9, 1, 2, 3, 0, 3, 1, [1; 6], 0),
    ];
    let growth = parse_growth_table(&vec![growth_row(2, 3, 1, [10; 7], [20; 7])]).unwrap();
    let out = extract_entities(base, &params, &growth).expect("run must succeed");
    // Only the base row with a positive index is processed.
    assert_eq!(out.commons.len(), 1);
    assert_eq!(out.commons[0].index, 3);
    assert_eq!(out.requests.len(), 1);
    assert_eq!(out.requests[0].name_id, 300);
    assert_eq!(out.ignored, 0);
}

#[test]
fn one_request_per_base_row_with_many_matches() {
    let base = vec![base_row(7, 12, 500, 9)];
    let params = vec![
        param_row(71, 7, 1, 2, 3, 0, 3, 1, [1; 6], 0),
        param_row(72, 7, 1, 2, 3, 0, 3, 1, [1; 6], 0),
    ];
    let growth = parse_growth_table(&vec![growth_row(2, 3, 1, [10; 7], [20; 7])]).unwrap();
    let out = extract_entities(base, &params, &growth).unwrap();
    // Two qualifying matches derive two entities but exactly one request,
    // carrying the first match's description id.
    assert_eq!(out.commons.len(), 2);
    assert_eq!(out.requests.len(), 1);
    assert_eq!(out.requests[0].name_id, 500);
    assert_eq!(out.requests[0].description_id, 71);
}

#[test]
fn join_matches_by_foreign_key() {
    let base = vec![base_row(7, 12, 500, 9)];
    let params = vec![
        param_row(71, 7, 1, 2, 3, 0, 3, 1, [1; 6], 0),
        param_row(72, 7, 1, 2, 3, 0, 3, 1, [1; 6], 0),
        param_row(73, 8, 1, 2, 3, 0, 3, 1, [1; 6], 0),
    ];
    let growth = parse_growth_table(&vec![growth_row(2, 3, 1, [10; 7], [20; 7])]).unwrap();
    let out = extract_entities(base, &params, &growth).unwrap();
    // Keys {7, 7, 8}: exactly two entities from the two rows keyed 7, zero
    // from the row keyed 8, which has no base row in this run.
    assert_eq!(out.commons.len(), 2);
    assert_eq!(out.promoted.len(), 0);
    assert_eq!(out.tops.len(), 0);
}

#[test]
fn base_rows_are_processed_in_index_order() {
    let base = vec![base_row(7, 5, 500, 1), base_row(8, 2, 200, 1)];
    let params = vec![
        param_row(70, 7, 1, 2, 3, 0, 3, 1, [1; 6], 0),
        param_row(80, 8, 1, 2, 3, 0, 3, 1, [1; 6], 0),
    ];
    let growth = parse_growth_table(&vec![growth_row(2, 3, 1, [10; 7], [20; 7])]).unwrap();
    let out = extract_entities(base, &params, &growth).unwrap();
    assert_eq!(out.commons[0].index, 2);
    assert_eq!(out.commons[1].index, 5);
    assert_eq!(out.requests[0].name_id, 200);
    assert_eq!(out.requests[1].name_id, 500);
}

#[test]
fn get_characters_sorts_and_filters() {
    let rows = vec![
        base_row(1, 9, 0, 0),
        base_row(2, -1, 0, 0),
        base_row(3, 4, 0, 0),
        base_row(4, 4, 0, 0),
    ];
    let sorted = get_characters(rows).unwrap();
    assert_eq!(sorted.len(), 3);
    assert_eq!(sorted[0].cells[0], Cell::Int(3));
    assert_eq!(sorted[1].cells[0], Cell::Int(4));
    assert_eq!(sorted[2].cells[0], Cell::Int(1));
}

#[test]
fn branched_skill_path_rule_rejects_tier_zero_and_top() {
    let base = vec![base_row(7, 1, 10, 1)];
    // Tier 0 with an empty slot: rejected. Tier 8 with an empty slot:
    // rejected. Tier 5 with an empty slot: kept (the rule names only the
    // common and top tiers). Tier 8 with full slots: kept.
    let params = vec![
        param_row(1, 7, 1, 2, 3, 0, 3, 1, [1, 1, 0, 1, 1, 1], 0),
        param_row(2, 7, 1, 2, 3, 0, 3, 1, [1, 0, 1, 1, 1, 1], 8),
        param_row(3, 7, 1, 2, 3, 0, 3, 1, [0, 1, 1, 1, 1, 1], 5),
        param_row(4, 7, 1, 2, 3, 0, 3, 1, [1; 6], 8),
    ];
    let growth = parse_growth_table(&vec![growth_row(2, 3, 1, [10; 7], [20; 7])]).unwrap();
    let out = extract_entities(base, &params, &growth).unwrap();
    assert_eq!(out.commons.len(), 0);
    assert_eq!(out.promoted.len(), 1);
    assert_eq!(out.tops.len(), 1);
    // The first persisted match decides the request's description id.
    assert_eq!(out.requests.len(), 1);
    assert_eq!(out.requests[0].description_id, 3);
}

#[test]
fn unknown_tier_is_fatal() {
    let base = vec![base_row(7, 1, 10, 1)];
    let params = vec![param_row(1, 7, 1, 2, 3, 0, 3, 1, [1; 6], 3)];
    let growth = parse_growth_table(&vec![growth_row(2, 3, 1, [10; 7], [20; 7])]).unwrap();
    let res = extract_entities(base, &params, &growth);
    assert_eq!(res.unwrap_err(), PipelineError::UnknownTier);
}

#[test]
fn growth_table_miss_is_fatal() {
    let base = vec![base_row(7, 1, 10, 1)];
    // Primary role FW (2) is defined, but the growth table has no entry
    // for (2, pattern 9, rank 9).
    let params = vec![param_row(1, 7, 1, 2, 3, 0, 9, 9, [1; 6], 0)];
    let growth = parse_growth_table(&vec![growth_row(2, 3, 1, [10; 7], [20; 7])]).unwrap();
    let res = extract_entities(base, &params, &growth);
    assert_eq!(res.unwrap_err(), PipelineError::GrowthTableMiss);
}

#[test]
fn unknown_primary_role_defaults_stats_to_zero() {
    let base = vec![base_row(7, 1, 10, 1)];
    // Primary role 9 maps to the unknown sentinel: no growth lookup, both
    // stat blocks all-zero.
    let params = vec![param_row(1, 7, 1, 9, 3, 0, 3, 1, [1; 6], 0)];
    let growth = parse_growth_table(&Vec::new()).unwrap();
    let out = extract_entities(base, &params, &growth).unwrap();
    assert_eq!(out.commons.len(), 1);
    let c = &out.commons[0];
    assert_eq!(c.main_position, Position::UNKNOWN);
    assert_eq!(c.lvl50_stats.kick, 0);
    assert_eq!(c.lvl99_stats.intelligence, 0);
}

#[test]
fn malformed_base_index_is_fatal() {
    let mut bad = base_row(7, 1, 10, 1);
    bad.cells[2] = Cell::Text(String::from("not a number"));
    let res = extract_entities(vec![bad], &Vec::new(), &parse_growth_table(&Vec::new()).unwrap());
    assert_eq!(res.unwrap_err(), PipelineError::MalformedCell);
}

#[test]
fn base_row_without_matches_is_ignored_and_counted() {
    let base = vec![base_row(7, 1, 10, 1), base_row(8, 2, 20, 1)];
    let params = vec![param_row(1, 7, 1, 2, 3, 0, 3, 1, [1; 6], 0)];
    let growth = parse_growth_table(&vec![growth_row(2, 3, 1, [10; 7], [20; 7])]).unwrap();
    let out = extract_entities(base, &params, &growth).unwrap();
    assert_eq!(out.commons.len(), 1);
    assert_eq!(out.requests.len(), 1);
    assert_eq!(out.ignored, 1);
}

#[test]
fn cell_accessors_match_cell_kinds() {
    assert_eq!(parse_int_value(&Cell::Int(-3)), Some(-3));
    assert_eq!(parse_int_value(&Cell::Byte(3)), None);
    assert_eq!(parse_uint_value(&Cell::UInt(9)), Some(9));
    assert_eq!(parse_uint_value(&Cell::Int(9)), None);
    assert_eq!(parse_byte_value(&Cell::Byte(7)), Some(7));
    assert_eq!(parse_byte_value(&Cell::Text(String::from("x"))), None);
    assert_eq!(
        parse_string_value(&Cell::Text(String::from("hello"))),
        Some(String::from("hello"))
    );
    assert_eq!(parse_string_value(&Cell::Int(1)), None);
}

#[test]
fn empty_tables_yield_an_empty_run() {
    let growth = parse_growth_table(&Vec::new()).unwrap();
    let out = extract_entities(Vec::new(), &Vec::new(), &growth).unwrap();
    assert_eq!(out.commons.len(), 0);
    assert_eq!(out.promoted.len(), 0);
    assert_eq!(out.tops.len(), 0);
    assert_eq!(out.requests.len(), 0);
    assert_eq!(out.ignored, 0);
}
