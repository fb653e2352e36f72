use vstd::prelude::*;

use crate::channel::NameRequest;
use crate::characters::character::{
    Character, Position, Stats, spec_element_from, spec_position_from, spec_style_from,
    spec_zero_stats,
};
use crate::common::{Row, byte_at, has_byte_at, has_int_at, int_at, lemma_prefix_trans};
use crate::errors::PipelineError;

verus! {

// Positional layout of the base-entity table: primary key, public ordinal
// index, name identifier and grouping (series) identifier.
pub const BASE_COL_KEY: usize = 0;

pub const BASE_COL_INDEX: usize = 2;

pub const BASE_COL_NAME: usize = 3;

pub const BASE_COL_SERIES: usize = 15;

// Positional layout of the parameter table: description identifier, foreign
// key to the base table, categorical attributes, growth pattern and rank,
// six ability-slot cells and the tier/rarity classifier.
pub const PARAM_COL_DESCRIPTION: usize = 0;

pub const PARAM_COL_BASE_KEY: usize = 1;

pub const PARAM_COL_ELEMENT: usize = 2;

pub const PARAM_COL_MAIN_POSITION: usize = 3;

pub const PARAM_COL_ALT_POSITION: usize = 4;

pub const PARAM_COL_STYLE: usize = 5;

pub const PARAM_COL_GROWTH_PATTERN: usize = 7;

pub const PARAM_COL_RANK: usize = 9;

pub const PARAM_COL_FIRST_SKILL: usize = 23;

pub const PARAM_SKILL_SLOTS: usize = 6;

pub const PARAM_COL_RARITY: usize = 41;

// Positional layout of the growth table: the three key bytes, then seven
// mid-level stat cells and seven end-level stat cells.
pub const GROWTH_COL_ROLE: usize = 0;

pub const GROWTH_COL_PATTERN: usize = 1;

pub const GROWTH_COL_RANK: usize = 2;

pub const GROWTH_COL_FIRST_MID: usize = 3;

pub const GROWTH_COL_FIRST_END: usize = 10;

/// How many entities a bucket accumulates before it is flushed.
pub const FLUSH_THRESHOLD: usize = 1000;

/// Whether the ordinal-index cell of a base row is structurally readable.
pub open spec fn base_row_indexed(r: Row) -> bool {
    has_int_at(r, BASE_COL_INDEX as int)
}

/// The ordinal index of a base row.
pub open spec fn base_index(r: Row) -> i32 {
    int_at(r, BASE_COL_INDEX as int)
}

/// A base row takes part in the run exactly when its ordinal index is a
/// positive integer.
pub open spec fn base_eligible(r: Row) -> bool {
    base_row_indexed(r) && base_index(r) > 0
}

/// Whether every base row has a readable ordinal-index cell.
pub open spec fn base_rows_indexed(rows: Seq<Row>) -> bool {
    forall|i: int| 0 <= i < rows.len() ==> base_row_indexed(#[trigger] rows[i])
}

/// Whether the identity cells of a base row (primary key, name id, series
/// id) are structurally readable.
pub open spec fn base_row_readable(r: Row) -> bool {
    &&& has_int_at(r, BASE_COL_KEY as int)
    &&& has_int_at(r, BASE_COL_NAME as int)
    &&& has_int_at(r, BASE_COL_SERIES as int)
}

/// The eligible base rows, in source order.
pub open spec fn eligible_rows(base: Seq<Row>) -> Seq<Row> {
    base.filter(|r: Row| base_eligible(r))
}

/// Stable insertion of a row into a sequence sorted ascending by ordinal
/// index: the new row lands after every row with an index at most its own.
pub open spec fn insert_by_index(s: Seq<Row>, r: Row) -> Seq<Row>
    decreases s.len(),
{
    if s.len() == 0 {
        seq![r]
    } else if base_index(s.last()) <= base_index(r) {
        s.push(r)
    } else {
        insert_by_index(s.drop_last(), r).push(s.last())
    }
}

/// Stable sort of base rows, ascending by ordinal index.
pub open spec fn sort_by_index(s: Seq<Row>) -> Seq<Row>
    decreases s.len(),
{
    if s.len() == 0 {
        Seq::empty()
    } else {
        insert_by_index(sort_by_index(s.drop_last()), s.last())
    }
}

/// An integer stat cell reduced to its unsigned 16-bit magnitude.
pub open spec fn stat_of_int(v: i32) -> u16 {
    v as u16
}

/// The mid-level derivation rule: the magnitude is scaled by the fixed
/// multiplier 14/10 with truncating integer division.
pub open spec fn scale_mid(v: u16) -> u16 {
    ((v as int) * 14 / 10) as u16
}

/// A mid-level stat cell: reduced to a magnitude, then scaled.
pub open spec fn mid_stat_of_int(v: i32) -> u16 {
    scale_mid(stat_of_int(v))
}

/// An integer cell reduced to a byte, as the growth pattern and rank cells
/// of the parameter table are.
pub open spec fn byte_of_int(v: i32) -> u8 {
    v as u8
}

/// The packed form of a growth key (primary role, growth pattern, rank):
/// three bytes, one per component, so distinct keys pack to distinct values.
pub open spec fn growth_key(role: u8, pattern: u8, rank: u8) -> u32 {
    ((role as int) * 0x10000 + (pattern as int) * 0x100 + (rank as int)) as u32
}

/// Packing loses nothing: distinct key triples pack to distinct values,
/// so the packed mapping faithfully stands for the keyed growth table.
pub proof fn lemma_growth_key_injective(a: u8, b: u8, c: u8, x: u8, y: u8, z: u8)
    requires
        growth_key(a, b, c) == growth_key(x, y, z),
    ensures
        a == x && b == y && c == z,
{
}

/// Whether a growth-table row has all cells its schema requires.
pub open spec fn growth_row_readable(r: Row) -> bool {
    &&& has_byte_at(r, GROWTH_COL_ROLE as int)
    &&& has_byte_at(r, GROWTH_COL_PATTERN as int)
    &&& has_byte_at(r, GROWTH_COL_RANK as int)
    &&& forall|k: int|
        GROWTH_COL_FIRST_MID <= k < GROWTH_COL_FIRST_END + 7 ==> #[trigger] has_int_at(r, k)
}

/// Whether every growth-table row is readable.
pub open spec fn growth_rows_readable(rows: Seq<Row>) -> bool {
    forall|i: int| 0 <= i < rows.len() ==> growth_row_readable(#[trigger] rows[i])
}

/// The packed key of a growth-table row.
pub open spec fn growth_row_key(r: Row) -> u32 {
    growth_key(
        byte_at(r, GROWTH_COL_ROLE as int),
        byte_at(r, GROWTH_COL_PATTERN as int),
        byte_at(r, GROWTH_COL_RANK as int),
    )
}

/// The mid-level stat block of a growth-table row: every field scaled.
pub open spec fn growth_mid_stats(r: Row) -> Stats {
    Stats {
        kick: mid_stat_of_int(int_at(r, 3)),
        control: mid_stat_of_int(int_at(r, 4)),
        technique: mid_stat_of_int(int_at(r, 5)),
        pressure: mid_stat_of_int(int_at(r, 6)),
        physical: mid_stat_of_int(int_at(r, 7)),
        agility: mid_stat_of_int(int_at(r, 8)),
        intelligence: mid_stat_of_int(int_at(r, 9)),
    }
}

/// The end-level stat block of a growth-table row: stored unscaled.
pub open spec fn growth_end_stats(r: Row) -> Stats {
    Stats {
        kick: stat_of_int(int_at(r, 10)),
        control: stat_of_int(int_at(r, 11)),
        technique: stat_of_int(int_at(r, 12)),
        pressure: stat_of_int(int_at(r, 13)),
        physical: stat_of_int(int_at(r, 14)),
        agility: stat_of_int(int_at(r, 15)),
        intelligence: stat_of_int(int_at(r, 16)),
    }
}

/// The growth mapping built from the growth table's rows, in order; a later
/// row with the same key overwrites an earlier one.
pub open spec fn growth_map_of(rows: Seq<Row>) -> Map<u32, (Stats, Stats)>
    decreases rows.len(),
{
    if rows.len() == 0 {
        Map::empty()
    } else {
        growth_map_of(rows.drop_last()).insert(
            growth_row_key(rows.last()),
            (growth_mid_stats(rows.last()), growth_end_stats(rows.last())),
        )
    }
}

/// Whether the foreign-key cell of a parameter row is readable.
pub open spec fn param_linked(r: Row) -> bool {
    has_int_at(r, PARAM_COL_BASE_KEY as int)
}

/// The foreign key of a parameter row.
pub open spec fn param_base_key(r: Row) -> i32 {
    int_at(r, PARAM_COL_BASE_KEY as int)
}

/// Whether the cells read for the completeness check of a matching
/// parameter row (tier and the six ability slots) are readable.
pub open spec fn param_filter_readable(r: Row) -> bool {
    &&& has_int_at(r, PARAM_COL_RARITY as int)
    &&& forall|k: int|
        0 <= k < PARAM_SKILL_SLOTS ==> #[trigger] has_int_at(r, PARAM_COL_FIRST_SKILL + k)
}

/// The tier/rarity classifier of a parameter row.
pub open spec fn param_rarity(r: Row) -> i32 {
    int_at(r, PARAM_COL_RARITY as int)
}

/// Whether any of the six designated ability-slot cells is zero.
pub open spec fn has_empty_skill_slot(r: Row) -> bool {
    exists|k: int| 0 <= k < PARAM_SKILL_SLOTS && int_at(r, #[trigger] (PARAM_COL_FIRST_SKILL + k)) == 0
}

/// The tiers whose candidates must have a complete branched skill path.
pub open spec fn needs_branched_skill_path(rarity: i32) -> bool {
    rarity == 0 || rarity == 8
}

/// The completeness rule: a candidate is dropped when its tier demands a
/// branched skill path and any designated ability slot is zero.
pub open spec fn param_rejected(r: Row) -> bool {
    needs_branched_skill_path(param_rarity(r)) && has_empty_skill_slot(r)
}

/// The three tier values that have an output bucket.
pub open spec fn rarity_known(rarity: i32) -> bool {
    rarity == 0 || (5 <= rarity <= 8)
}

/// The three output buckets, with their differing persistence policies.
#[derive(Debug, Clone, Copy, PartialEq, Eq, Structural)]
pub enum Bucket {
    Common,
    Promoted,
    TopTier,
}

/// The bucket a known tier routes to.
pub open spec fn bucket_of_rarity(rarity: i32) -> Bucket {
    if rarity == 0 {
        Bucket::Common
    } else if 5 <= rarity && rarity < 8 {
        Bucket::Promoted
    } else {
        Bucket::TopTier
    }
}

/// Whether the attribute cells of a producing parameter row are readable.
pub open spec fn param_attr_readable(r: Row) -> bool {
    &&& has_int_at(r, PARAM_COL_DESCRIPTION as int)
    &&& has_int_at(r, PARAM_COL_ELEMENT as int)
    &&& has_int_at(r, PARAM_COL_MAIN_POSITION as int)
    &&& has_int_at(r, PARAM_COL_ALT_POSITION as int)
    &&& has_int_at(r, PARAM_COL_STYLE as int)
    &&& has_int_at(r, PARAM_COL_GROWTH_PATTERN as int)
    &&& has_int_at(r, PARAM_COL_RANK as int)
}

/// The primary role of a parameter row.
pub open spec fn param_main_position(r: Row) -> Position {
    spec_position_from(int_at(r, PARAM_COL_MAIN_POSITION as int))
}

/// The packed growth key a parameter row selects.
pub open spec fn param_growth_key(r: Row) -> u32 {
    growth_key(
        param_main_position(r).spec_code(),
        byte_of_int(int_at(r, PARAM_COL_GROWTH_PATTERN as int)),
        byte_of_int(int_at(r, PARAM_COL_RANK as int)),
    )
}

/// A growth lookup succeeds, or is not needed because the primary role is
/// the unknown sentinel.
pub open spec fn growth_resolved(r: Row, growth: Map<u32, (Stats, Stats)>) -> bool {
    param_main_position(r) == Position::UNKNOWN || growth.contains_key(param_growth_key(r))
}

/// The stat pair of a producing parameter row: looked up for a defined
/// primary role, all-zero for the unknown sentinel.
pub open spec fn param_stats(r: Row, growth: Map<u32, (Stats, Stats)>) -> (Stats, Stats) {
    if param_main_position(r) == Position::UNKNOWN {
        (spec_zero_stats(), spec_zero_stats())
    } else {
        growth[param_growth_key(r)]
    }
}

/// The character derived from one qualifying (base row, parameter row) pair.
pub open spec fn character_of(
    index: i32,
    name_id: i32,
    series_id: i32,
    p: Row,
    growth: Map<u32, (Stats, Stats)>,
) -> Character {
    Character {
        index,
        name_id,
        element: spec_element_from(int_at(p, PARAM_COL_ELEMENT as int)),
        main_position: param_main_position(p),
        alt_position: spec_position_from(int_at(p, PARAM_COL_ALT_POSITION as int)),
        style: spec_style_from(int_at(p, PARAM_COL_STYLE as int)),
        lvl50_stats: param_stats(p, growth).0,
        lvl99_stats: param_stats(p, growth).1,
        series_id,
    }
}

/// What scanning the parameter table for one base row has produced so far:
/// the entities routed to each bucket, the description id of the first
/// producing match (which decides the row's name-lookup request), and the
/// first fatal fault, after which the scan stops.
pub struct ScanOut {
    pub commons: Seq<Character>,
    pub promoted: Seq<Character>,
    pub tops: Seq<Character>,
    pub first_description: Option<i32>,
    pub fatal: Option<PipelineError>,
}

pub open spec fn scan_empty() -> ScanOut {
    ScanOut {
        commons: Seq::empty(),
        promoted: Seq::empty(),
        tops: Seq::empty(),
        first_description: None,
        fatal: None,
    }
}

/// `acc` with character `c` appended to bucket `b`.
pub open spec fn scan_push(acc: ScanOut, b: Bucket, c: Character) -> ScanOut {
    match b {
        Bucket::Common => ScanOut {
            commons: acc.commons.push(c),
            promoted: acc.promoted,
            tops: acc.tops,
            first_description: acc.first_description,
            fatal: acc.fatal,
        },
        Bucket::Promoted => ScanOut {
            commons: acc.commons,
            promoted: acc.promoted.push(c),
            tops: acc.tops,
            first_description: acc.first_description,
            fatal: acc.fatal,
        },
        Bucket::TopTier => ScanOut {
            commons: acc.commons,
            promoted: acc.promoted,
            tops: acc.tops.push(c),
            first_description: acc.first_description,
            fatal: acc.fatal,
        },
    }
}

/// `acc` stopped by fatal fault `e`.
pub open spec fn scan_fail(acc: ScanOut, e: PipelineError) -> ScanOut {
    ScanOut {
        commons: acc.commons,
        promoted: acc.promoted,
        tops: acc.tops,
        first_description: acc.first_description,
        fatal: Some(e),
    }
}

/// One step of the parameter scan for a base row with primary key
/// `base_key` and identity `(index, name_id, series_id)`: parameter row `p`
/// is joined by foreign key, classified, and either dropped, turned into a
/// character in its tier's bucket, or reported as a fatal fault.
pub open spec fn scan_step(
    acc: ScanOut,
    base_key: i32,
    index: i32,
    name_id: i32,
    series_id: i32,
    growth: Map<u32, (Stats, Stats)>,
    p: Row,
) -> ScanOut {
    if acc.fatal is Some {
        acc
    } else if !param_linked(p) {
        scan_fail(acc, PipelineError::MalformedCell)
    } else if param_base_key(p) != base_key {
        acc
    } else if !param_filter_readable(p) {
        scan_fail(acc, PipelineError::MalformedCell)
    } else if param_rejected(p) {
        acc
    } else if !param_attr_readable(p) {
        scan_fail(acc, PipelineError::MalformedCell)
    } else if !growth_resolved(p, growth) {
        scan_fail(acc, PipelineError::GrowthTableMiss)
    } else if !rarity_known(param_rarity(p)) {
        scan_fail(acc, PipelineError::UnknownTier)
    } else {
        let c = character_of(index, name_id, series_id, p, growth);
        let pushed = scan_push(acc, bucket_of_rarity(param_rarity(p)), c);
        ScanOut {
            commons: pushed.commons,
            promoted: pushed.promoted,
            tops: pushed.tops,
            first_description: if acc.first_description is Some {
                acc.first_description
            } else {
                Some(int_at(p, PARAM_COL_DESCRIPTION as int))
            },
            fatal: None,
        }
    }
}

/// The full parameter scan for one base row: every parameter row in table
/// order, stopped at the first fatal fault.
pub open spec fn scan_params(
    base_key: i32,
    index: i32,
    name_id: i32,
    series_id: i32,
    growth: Map<u32, (Stats, Stats)>,
    params: Seq<Row>,
) -> ScanOut
    decreases params.len(),
{
    if params.len() == 0 {
        scan_empty()
    } else {
        scan_step(
            scan_params(base_key, index, name_id, series_id, growth, params.drop_last()),
            base_key,
            index,
            name_id,
            series_id,
            growth,
            params.last(),
        )
    }
}

/// What a whole run (or the processing of one base row) produces: the
/// per-bucket entities, the name-lookup requests, the count of base rows
/// that produced nothing, and the first fatal fault.
pub struct RunOut {
    pub commons: Seq<Character>,
    pub promoted: Seq<Character>,
    pub tops: Seq<Character>,
    pub requests: Seq<NameRequest>,
    pub ignored: nat,
    pub fatal: Option<PipelineError>,
}

pub open spec fn run_empty() -> RunOut {
    RunOut {
        commons: Seq::empty(),
        promoted: Seq::empty(),
        tops: Seq::empty(),
        requests: Seq::empty(),
        ignored: 0,
        fatal: None,
    }
}

pub open spec fn run_fatal(e: PipelineError) -> RunOut {
    RunOut {
        commons: Seq::empty(),
        promoted: Seq::empty(),
        tops: Seq::empty(),
        requests: Seq::empty(),
        ignored: 0,
        fatal: Some(e),
    }
}

/// Everything one base row contributes to the run: its scan's entities, at
/// most one name-lookup request (sent for the first producing match only),
/// and one ignored tick when the row produced nothing.
pub open spec fn base_row_out(b: Row, params: Seq<Row>, growth: Map<u32, (Stats, Stats)>) -> RunOut {
    if !base_row_readable(b) {
        run_fatal(PipelineError::MalformedCell)
    } else {
        let s = scan_params(
            int_at(b, BASE_COL_KEY as int),
            base_index(b),
            int_at(b, BASE_COL_NAME as int),
            int_at(b, BASE_COL_SERIES as int),
            growth,
            params,
        );
        RunOut {
            commons: s.commons,
            promoted: s.promoted,
            tops: s.tops,
            requests: match s.first_description {
                Some(d) => seq![
                    NameRequest { name_id: int_at(b, BASE_COL_NAME as int), description_id: d },
                ],
                None => Seq::empty(),
            },
            ignored: if s.first_description is None && s.fatal is None {
                1
            } else {
                0
            },
            fatal: s.fatal,
        }
    }
}

/// `acc` extended by the contribution of one more base row.
pub open spec fn run_combine(acc: RunOut, row: RunOut) -> RunOut {
    RunOut {
        commons: acc.commons + row.commons,
        promoted: acc.promoted + row.promoted,
        tops: acc.tops + row.tops,
        requests: acc.requests + row.requests,
        ignored: acc.ignored + row.ignored,
        fatal: row.fatal,
    }
}

/// The run over a sequence of (already filtered and sorted) base rows, in
/// order, stopped at the first fatal fault.
pub open spec fn run_rows(rows: Seq<Row>, params: Seq<Row>, growth: Map<u32, (Stats, Stats)>) -> RunOut
    decreases rows.len(),
{
    if rows.len() == 0 {
        run_empty()
    } else {
        let prev = run_rows(rows.drop_last(), params, growth);
        if prev.fatal is Some {
            prev
        } else {
            run_combine(prev, base_row_out(rows.last(), params, growth))
        }
    }
}

/// The whole extraction: every base row's ordinal index must be readable;
/// the eligible rows are sorted ascending by index and processed in that
/// order against the full parameter table.
pub open spec fn pipeline_run(base: Seq<Row>, params: Seq<Row>, growth: Map<u32, (Stats, Stats)>) -> RunOut {
    if !base_rows_indexed(base) {
        run_fatal(PipelineError::MalformedCell)
    } else {
        run_rows(sort_by_index(eligible_rows(base)), params, growth)
    }
}

/// The whole pipeline seen from its inputs: the growth table must be
/// readable, and the extraction then runs against the mapping built from it.
pub open spec fn full_run(base: Seq<Row>, params: Seq<Row>, growth_rows: Seq<Row>) -> RunOut {
    if !growth_rows_readable(growth_rows) {
        run_fatal(PipelineError::MalformedCell)
    } else {
        pipeline_run(base, params, growth_map_of(growth_rows))
    }
}

/// The entity sequence a run assigns to one bucket.
pub open spec fn bucket_seq(r: RunOut, b: Bucket) -> Seq<Character> {
    match b {
        Bucket::Common => r.commons,
        Bucket::Promoted => r.promoted,
        Bucket::TopTier => r.tops,
    }
}

/// Filtering a sequence whose rows are all eligible changes nothing.
pub proof fn lemma_eligible_rows_fixed(rows: Seq<Row>)
    requires
        forall|m: int| 0 <= m < rows.len() ==> base_eligible(#[trigger] rows[m]),
    ensures
        eligible_rows(rows) == rows,
    decreases rows.len(),
{
    reveal(Seq::filter);
    if rows.len() > 0 {
        lemma_eligible_rows_fixed(rows.drop_last());
        assert(eligible_rows(rows) =~= rows);
    }
}

/// Base rows whose ordinal index is not positive are excluded from the run
/// entirely: the run over the base table equals the run over just its
/// eligible rows.
pub proof fn lemma_ineligible_rows_excluded(
    base: Seq<Row>,
    params: Seq<Row>,
    growth: Map<u32, (Stats, Stats)>,
)
    requires
        base_rows_indexed(base),
    ensures
        pipeline_run(base, params, growth) == pipeline_run(eligible_rows(base), params, growth),
{
    lemma_eligible_rows_eligible(base);
    assert(base_rows_indexed(eligible_rows(base)));
    lemma_eligible_rows_fixed(eligible_rows(base));
}

/// The scan of one base row notes a description for its request exactly
/// when it has produced at least one entity.
pub proof fn lemma_scan_request_iff_entity(
    base_key: i32,
    index: i32,
    name_id: i32,
    series_id: i32,
    growth: Map<u32, (Stats, Stats)>,
    params: Seq<Row>,
)
    ensures
        ({
            let s = scan_params(base_key, index, name_id, series_id, growth, params);
            (s.first_description is Some) <==> (s.commons.len() + s.promoted.len() + s.tops.len()
                > 0)
        }),
    decreases params.len(),
{
    if params.len() > 0 {
        lemma_scan_request_iff_entity(
            base_key,
            index,
            name_id,
            series_id,
            growth,
            params.drop_last(),
        );
    }
}

/// Exactly one name-lookup request is emitted per base row that produced
/// any entity — never one per match — and none for a row that produced
/// nothing.
pub proof fn lemma_one_request_per_base(b: Row, params: Seq<Row>, growth: Map<u32, (Stats, Stats)>)
    ensures
        ({
            let out = base_row_out(b, params, growth);
            &&& out.requests.len() <= 1
            &&& ((out.requests.len() == 1) <==> (out.commons.len() + out.promoted.len()
                + out.tops.len() > 0))
        }),
{
    if base_row_readable(b) {
        lemma_scan_request_iff_entity(
            int_at(b, BASE_COL_KEY as int),
            base_index(b),
            int_at(b, BASE_COL_NAME as int),
            int_at(b, BASE_COL_SERIES as int),
            growth,
            params,
        );
    }
}

/// A parameter row produces an entity for the base row with key `base_key`
/// exactly when it links to that key and passes the completeness rule.
pub open spec fn param_produces(p: Row, base_key: i32) -> bool {
    &&& param_linked(p)
    &&& param_base_key(p) == base_key
    &&& param_filter_readable(p)
    &&& !param_rejected(p)
}

/// Join correctness: a fault-free scan derives exactly one entity per
/// producing parameter row; rows with other foreign keys contribute
/// nothing.
pub proof fn lemma_join_entity_count(
    base_key: i32,
    index: i32,
    name_id: i32,
    series_id: i32,
    growth: Map<u32, (Stats, Stats)>,
    params: Seq<Row>,
)
    ensures
        ({
            let s = scan_params(base_key, index, name_id, series_id, growth, params);
            s.fatal is None ==> s.commons.len() + s.promoted.len() + s.tops.len() == params.filter(
                |p: Row| param_produces(p, base_key),
            ).len()
        }),
    decreases params.len(),
{
    reveal(Seq::filter);
    if params.len() > 0 {
        lemma_join_entity_count(base_key, index, name_id, series_id, growth, params.drop_last());
        let s = scan_params(base_key, index, name_id, series_id, growth, params);
        let prev = scan_params(base_key, index, name_id, series_id, growth, params.drop_last());
        if s.fatal is None {
            assert(prev.fatal is None);
        }
    }
}

/// Join correctness seen from one base row: when its processing is
/// fault-free, the entities derived are exactly one per producing
/// parameter row.
pub proof fn lemma_join_correctness(b: Row, params: Seq<Row>, growth: Map<u32, (Stats, Stats)>)
    requires
        base_row_readable(b),
    ensures
        ({
            let out = base_row_out(b, params, growth);
            out.fatal is None ==> out.commons.len() + out.promoted.len() + out.tops.len()
                == params.filter(
                |p: Row| param_produces(p, int_at(b, BASE_COL_KEY as int)),
            ).len()
        }),
{
    lemma_join_entity_count(
        int_at(b, BASE_COL_KEY as int),
        base_index(b),
        int_at(b, BASE_COL_NAME as int),
        int_at(b, BASE_COL_SERIES as int),
        growth,
        params,
    );
}

/// A growth-table miss is never silently defaulted: a fault-free scan
/// implies every matching, complete, non-rejected parameter row resolved
/// its growth key (or its primary role is the unknown sentinel).
pub proof fn lemma_growth_miss_is_fatal(
    base_key: i32,
    index: i32,
    name_id: i32,
    series_id: i32,
    growth: Map<u32, (Stats, Stats)>,
    params: Seq<Row>,
    j: int,
)
    requires
        0 <= j < params.len(),
        scan_params(base_key, index, name_id, series_id, growth, params).fatal is None,
        param_linked(params[j]),
        param_base_key(params[j]) == base_key,
        param_filter_readable(params[j]),
        !param_rejected(params[j]),
        param_attr_readable(params[j]),
    ensures
        growth_resolved(params[j], growth),
{
    if !growth_resolved(params[j], growth) {
        assert(params.take(j + 1).drop_last() =~= params.take(j));
        assert(params.take(j + 1).last() == params[j]);
        if scan_params(base_key, index, name_id, series_id, growth, params.take(j)).fatal
            is None {
            assert(scan_params(
                base_key,
                index,
                name_id,
                series_id,
                growth,
                params.take(j + 1),
            ).fatal == Some(PipelineError::GrowthTableMiss));
        }
        lemma_scan_fatal_stable(base_key, index, name_id, series_id, growth, params, j + 1);
        assert(false);
    }
}

/// A growth-table miss for a defined primary role aborts the base row's
/// processing: when some matching, complete, non-rejected parameter row
/// cannot resolve its growth key, the row's outcome carries a fatal fault
/// and the run stops rather than persist a defaulted entity.
pub proof fn lemma_growth_miss_aborts(
    b: Row,
    params: Seq<Row>,
    growth: Map<u32, (Stats, Stats)>,
    j: int,
)
    requires
        base_row_readable(b),
        0 <= j < params.len(),
        param_linked(params[j]),
        param_base_key(params[j]) == int_at(b, BASE_COL_KEY as int),
        param_filter_readable(params[j]),
        !param_rejected(params[j]),
        param_attr_readable(params[j]),
        !growth_resolved(params[j], growth),
    ensures
        base_row_out(b, params, growth).fatal is Some,
{
    if base_row_out(b, params, growth).fatal is None {
        lemma_growth_miss_is_fatal(
            int_at(b, BASE_COL_KEY as int),
            base_index(b),
            int_at(b, BASE_COL_NAME as int),
            int_at(b, BASE_COL_SERIES as int),
            growth,
            params,
            j,
        );
        assert(false);
    }
}

/// The mid-level derivation rule is exact whenever the scaled value fits
/// the 16-bit field: the derived value is floor(v * 14 / 10), by truncating
/// integer division, not rounding.
pub proof fn lemma_mid_scaling_exact(v: u16)
    requires
        (v as int) * 14 / 10 <= u16::MAX,
    ensures
        scale_mid(v) as int == (v as int) * 14 / 10,
{
}

/// Routes a tier value to its output bucket; the three known tiers are
/// common (0), promoted (5 through 7) and top-tier (8).
pub fn bucket_for_rarity(rarity: i32) -> (res: Result<Bucket, PipelineError>)
    ensures
        match res {
            Ok(b) => rarity_known(rarity) && b == bucket_of_rarity(rarity),
            Err(e) => !rarity_known(rarity) && e == PipelineError::UnknownTier,
        },
{
    if rarity == 0 {
        Ok(Bucket::Common)
    } else if 5 <= rarity && rarity < 8 {
        Ok(Bucket::Promoted)
    } else if rarity == 8 {
        Ok(Bucket::TopTier)
    } else {
        Err(PipelineError::UnknownTier)
    }
}

/// Stable insertion lands exactly at the split position `j`: everything at
/// or after `j` has a strictly larger index, everything before has at most
/// the new row's index.
pub proof fn lemma_insert_by_index_at(s: Seq<Row>, r: Row, j: int)
    requires
        0 <= j <= s.len(),
        forall|m: int| j <= m < s.len() ==> base_index(#[trigger] s[m]) > base_index(r),
        j > 0 ==> base_index(s[j - 1]) <= base_index(r),
    ensures
        insert_by_index(s, r) == s.take(j).push(r) + s.skip(j),
    decreases s.len(),
{
    if s.len() == 0 {
        assert(insert_by_index(s, r) =~= s.take(j).push(r) + s.skip(j));
    } else if j == s.len() {
        assert(base_index(s.last()) <= base_index(r));
        assert(insert_by_index(s, r) == s.push(r));
        assert(s.push(r) =~= s.take(j).push(r) + s.skip(j));
    } else {
        assert(base_index(s[s.len() - 1]) > base_index(r));
        assert(insert_by_index(s, r) == insert_by_index(s.drop_last(), r).push(s.last()));
        assert(forall|m: int|
            j <= m < s.drop_last().len() ==> base_index(#[trigger] s.drop_last()[m]) > base_index(
                r,
            ));
        lemma_insert_by_index_at(s.drop_last(), r, j);
        assert((s.drop_last().take(j).push(r) + s.drop_last().skip(j)).push(s.last()) =~= s.take(
            j,
        ).push(r) + s.skip(j));
    }
}

/// Once the parameter scan has hit a fatal fault, the remaining parameter
/// rows change nothing.
pub proof fn lemma_scan_fatal_stable(
    base_key: i32,
    index: i32,
    name_id: i32,
    series_id: i32,
    growth: Map<u32, (Stats, Stats)>,
    params: Seq<Row>,
    j: int,
)
    requires
        0 <= j <= params.len(),
        scan_params(base_key, index, name_id, series_id, growth, params.take(j)).fatal is Some,
    ensures
        scan_params(base_key, index, name_id, series_id, growth, params) == scan_params(
            base_key,
            index,
            name_id,
            series_id,
            growth,
            params.take(j),
        ),
    decreases params.len() - j,
{
    if j == params.len() {
        assert(params.take(j) =~= params);
    } else {
        assert(params.take(j + 1).drop_last() =~= params.take(j));
        assert(params.take(j + 1).last() == params[j]);
        lemma_scan_fatal_stable(base_key, index, name_id, series_id, growth, params, j + 1);
    }
}

/// Once the run over the base rows has hit a fatal fault, the remaining
/// base rows change nothing.
pub proof fn lemma_run_fatal_stable(
    rows: Seq<Row>,
    params: Seq<Row>,
    growth: Map<u32, (Stats, Stats)>,
    j: int,
)
    requires
        0 <= j <= rows.len(),
        run_rows(rows.take(j), params, growth).fatal is Some,
    ensures
        run_rows(rows, params, growth) == run_rows(rows.take(j), params, growth),
    decreases rows.len() - j,
{
    if j == rows.len() {
        assert(rows.take(j) =~= rows);
    } else {
        assert(rows.take(j + 1).drop_last() =~= rows.take(j));
        assert(rows.take(j + 1).last() == rows[j]);
        lemma_run_fatal_stable(rows, params, growth, j + 1);
    }
}

/// What the run has produced after some of the base rows is a prefix of
/// what the whole run produces, whether or not a later row faults.
pub proof fn lemma_run_prefix(
    rows: Seq<Row>,
    params: Seq<Row>,
    growth: Map<u32, (Stats, Stats)>,
    j: int,
)
    requires
        0 <= j <= rows.len(),
    ensures
        run_rows(rows.take(j), params, growth).commons.is_prefix_of(
            run_rows(rows, params, growth).commons,
        ),
        run_rows(rows.take(j), params, growth).promoted.is_prefix_of(
            run_rows(rows, params, growth).promoted,
        ),
        run_rows(rows.take(j), params, growth).tops.is_prefix_of(
            run_rows(rows, params, growth).tops,
        ),
        run_rows(rows.take(j), params, growth).requests.is_prefix_of(
            run_rows(rows, params, growth).requests,
        ),
    decreases rows.len() - j,
{
    if j == rows.len() {
        assert(rows.take(j) =~= rows);
    } else {
        assert(rows.take(j + 1).drop_last() =~= rows.take(j));
        assert(rows.take(j + 1).last() == rows[j]);
        lemma_run_prefix(rows, params, growth, j + 1);
        let a = run_rows(rows.take(j), params, growth);
        let b = run_rows(rows.take(j + 1), params, growth);
        let c = run_rows(rows, params, growth);
        assert(a.commons.is_prefix_of(b.commons));
        lemma_prefix_trans(a.commons, b.commons, c.commons);
        lemma_prefix_trans(a.promoted, b.promoted, c.promoted);
        lemma_prefix_trans(a.tops, b.tops, c.tops);
        lemma_prefix_trans(a.requests, b.requests, c.requests);
    }
}

/// Stable insertion keeps every row's index cell readable.
pub proof fn lemma_insert_by_index_indexed(s: Seq<Row>, r: Row)
    requires
        forall|m: int| 0 <= m < s.len() ==> base_row_indexed(#[trigger] s[m]),
        base_row_indexed(r),
    ensures
        forall|m: int|
            0 <= m < insert_by_index(s, r).len() ==> base_row_indexed(
                #[trigger] insert_by_index(s, r)[m],
            ),
    decreases s.len(),
{
    if s.len() == 0 {
    } else if base_index(s.last()) <= base_index(r) {
        assert forall|m: int| 0 <= m < insert_by_index(s, r).len() implies base_row_indexed(
            insert_by_index(s, r)[m],
        ) by {
            if m < s.len() {
                assert(insert_by_index(s, r)[m] == s[m]);
            } else {
                assert(insert_by_index(s, r)[m] == r);
            }
        }
    } else {
        lemma_insert_by_index_indexed(s.drop_last(), r);
        let inner = insert_by_index(s.drop_last(), r);
        assert forall|m: int| 0 <= m < insert_by_index(s, r).len() implies base_row_indexed(
            insert_by_index(s, r)[m],
        ) by {
            if m < inner.len() {
                assert(insert_by_index(s, r)[m] == inner[m]);
            } else {
                assert(insert_by_index(s, r)[m] == s.last());
                assert(base_row_indexed(s[s.len() - 1]));
            }
        }
    }
}

/// Sorting keeps every row's index cell readable.
pub proof fn lemma_sort_by_index_indexed(s: Seq<Row>)
    requires
        forall|m: int| 0 <= m < s.len() ==> base_row_indexed(#[trigger] s[m]),
    ensures
        forall|m: int|
            0 <= m < sort_by_index(s).len() ==> base_row_indexed(#[trigger] sort_by_index(s)[m]),
    decreases s.len(),
{
    if s.len() > 0 {
        lemma_sort_by_index_indexed(s.drop_last());
        lemma_insert_by_index_indexed(sort_by_index(s.drop_last()), s.last());
    }
}

/// Every row kept by the eligibility filter is eligible.
pub proof fn lemma_eligible_rows_eligible(base: Seq<Row>)
    ensures
        forall|m: int|
            0 <= m < eligible_rows(base).len() ==> base_eligible(#[trigger] eligible_rows(base)[m]),
    decreases base.len(),
{
    reveal(Seq::filter);
    if base.len() > 0 {
        lemma_eligible_rows_eligible(base.drop_last());
    }
}

/// Reduces an integer stat cell to its unsigned 16-bit magnitude.
pub fn stat_magnitude(v: i32) -> (r: u16)
    ensures
        r == stat_of_int(v),
{
    #[verifier::truncate] (v as u16)
}

/// Applies the mid-level scaling rule to a magnitude: times 14, divided by
/// 10, truncating.
pub fn scale_mid_stat(v: u16) -> (r: u16)
    ensures
        r == scale_mid(v),
{
    let wide: u32 = (v as u32) * 14 / 10;
    #[verifier::truncate] (wide as u16)
}

/// Reduces an integer cell to a byte, as the growth-pattern and rank cells
/// are stored.
pub fn byte_magnitude(v: i32) -> (r: u8)
    ensures
        r == byte_of_int(v),
{
    #[verifier::truncate] (v as u8)
}

/// Packs a growth key into its lookup form.
pub fn pack_growth_key(role: u8, pattern: u8, rank: u8) -> (r: u32)
    ensures
        r == growth_key(role, pattern, rank),
{
    (role as u32) * 0x10000 + (pattern as u32) * 0x100 + (rank as u32)
}

} // verus!
