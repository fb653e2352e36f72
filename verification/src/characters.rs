use std::collections::HashMap;
use vstd::prelude::*;

pub mod character;
pub mod extraction;

use crate::common::{Row, has_int_at, int_at, lemma_empty_prefix, lemma_prefix_refl, lemma_prefix_trans, row_byte, row_int};
use crate::errors::PipelineError;
use character::{Character, Element, Position, Stats, Style};
use crate::channel::{NameRequest, RequestSender};
use crate::db::{SetupStep, StoreError, db_execute_batch, db_execute_ints, db_pragma_update, store_error};
use extraction::{
    BASE_COL_INDEX, BASE_COL_KEY, BASE_COL_NAME, BASE_COL_SERIES, Bucket, FLUSH_THRESHOLD,
    GROWTH_COL_PATTERN, GROWTH_COL_RANK, GROWTH_COL_ROLE, PARAM_COL_ALT_POSITION,
    PARAM_COL_BASE_KEY, PARAM_COL_DESCRIPTION, PARAM_COL_ELEMENT, PARAM_COL_FIRST_SKILL,
    PARAM_COL_GROWTH_PATTERN, PARAM_COL_MAIN_POSITION, PARAM_COL_RANK, PARAM_COL_RARITY,
    PARAM_COL_STYLE, PARAM_SKILL_SLOTS, RunOut, base_eligible, base_index, base_row_indexed,
    base_row_out, base_rows_indexed, bucket_for_rarity, bucket_seq, byte_magnitude, character_of,
    eligible_rows, full_run, growth_map_of, growth_resolved, growth_row_readable,
    growth_rows_readable, insert_by_index, lemma_eligible_rows_eligible, lemma_insert_by_index_at,
    lemma_run_fatal_stable, lemma_run_prefix, lemma_scan_fatal_stable,
    lemma_sort_by_index_indexed, pack_growth_key, param_attr_readable, param_filter_readable,
    param_rarity, param_rejected, pipeline_run, run_combine, run_rows, scale_mid_stat, scan_params,
    sort_by_index, stat_magnitude,
};

verus! {

broadcast use vstd::std_specs::hash::group_hash_axioms;

/// The ordinal index of a base row already known to carry one.
pub fn base_index_of(r: &Row) -> (v: i32)
    requires
        base_row_indexed(*r),
    ensures
        v == base_index(*r),
{
    match row_int(r, BASE_COL_INDEX) {
        Some(v) => v,
        None => {
            proof {
                assert(false);
            }
            0
        },
    }
}

/// Reads a required signed-integer cell, reporting a malformed-cell fault
/// when the schema position is absent or of another type.
fn require_int(r: &Row, i: usize) -> (res: Result<i32, PipelineError>)
    ensures
        match res {
            Ok(v) => has_int_at(*r, i as int) && v == int_at(*r, i as int),
            Err(e) => e == PipelineError::MalformedCell && !has_int_at(*r, i as int),
        },
{
    match row_int(r, i) {
        Some(v) => Ok(v),
        None => Err(PipelineError::MalformedCell),
    }
}

/// The eligible base rows, sorted ascending by ordinal index. Eligibility
/// asks for a positive index; a base row whose index cell is not a signed
/// integer is a fatal fault.
#[verifier::loop_isolation(false)]
pub fn get_characters(chara_base_info: Vec<Row>) -> (res: Result<Vec<Row>, PipelineError>)
    ensures
        match res {
            Ok(v) => base_rows_indexed(chara_base_info@) && v@ == sort_by_index(
                eligible_rows(chara_base_info@),
            ),
            Err(e) => e == PipelineError::MalformedCell && !base_rows_indexed(chara_base_info@),
        },
{
    let ghost orig = chara_base_info@;
    let mut rows = chara_base_info;
    let total = rows.len();
    let mut out: Vec<Row> = Vec::new();
    let mut i: usize = 0;
    while rows.len() > 0
        invariant
            total == orig.len(),
            i + rows@.len() == orig.len(),
            rows@ == orig.skip(i as int),
            forall|m: int| 0 <= m < i ==> base_row_indexed(#[trigger] orig[m]),
            forall|m: int| 0 <= m < out@.len() ==> base_row_indexed(#[trigger] out@[m]),
            out@ == sort_by_index(eligible_rows(orig.take(i as int))),
        decreases rows@.len(),
    {
        proof {
            assert(orig.skip(i as int)[0] == orig[i as int]);
        }
        let r = rows.remove(0);
        proof {
            assert(rows@ =~= orig.skip(i as int + 1));
        }
        let ghost prefix = orig.take(i as int);
        let ghost prefix1 = orig.take(i as int + 1);
        proof {
            assert(prefix1.drop_last() =~= prefix);
            assert(prefix1.last() == r);
        }
        match row_int(&r, BASE_COL_INDEX) {
            None => {
                proof {
                    assert(r == orig[i as int]);
                    assert(!base_row_indexed(orig[i as int]));
                    assert(!base_rows_indexed(orig));
                }
                return Err(PipelineError::MalformedCell);
            },
            Some(v) => {
                proof {
                    reveal(Seq::filter);
                }
                if v > 0 {
                    let ghost sorted_prev = out@;
                    let mut j: usize = out.len();
                    while j > 0 && base_index_of(&out[j - 1]) > v
                        invariant
                            0 <= j <= out@.len(),
                            out@ == sorted_prev,
                            forall|m: int|
                                0 <= m < out@.len() ==> base_row_indexed(#[trigger] out@[m]),
                            forall|m: int|
                                j <= m < out@.len() ==> base_index(#[trigger] out@[m]) > v,
                        decreases j,
                    {
                        j = j - 1;
                    }
                    out.insert(j, r);
                    proof {
                        assert(base_eligible(r));
                        assert(eligible_rows(prefix1) == eligible_rows(prefix).push(r));
                        let e0 = eligible_rows(prefix);
                        assert(e0.push(r).drop_last() =~= e0);
                        assert(e0.push(r).last() == r);
                        assert(sort_by_index(eligible_rows(prefix1)) == insert_by_index(
                            sorted_prev,
                            r,
                        ));
                        lemma_insert_by_index_at(sorted_prev, r, j as int);
                        assert(out@ =~= sorted_prev.take(j as int).push(r) + sorted_prev.skip(
                            j as int,
                        ));
                    }
                } else {
                    proof {
                        assert(!base_eligible(r));
                        assert(eligible_rows(prefix1) == eligible_rows(prefix));
                    }
                }
            },
        }
        i = i + 1;
    }
    proof {
        assert(orig.take(i as int) =~= orig);
    }
    Ok(out)
}

/// Builds the growth mapping from the growth table's rows: each row's
/// (role, pattern, rank) key maps to its scaled mid-level block and its
/// unscaled end-level block; a later row with the same key overwrites an
/// earlier one.
pub fn parse_growth_table(growth_table_main: &Vec<Row>) -> (res: Result<
    HashMap<u32, (Stats, Stats)>,
    PipelineError,
>)
    ensures
        match res {
            Ok(m) => growth_rows_readable(growth_table_main@) && m@ == growth_map_of(
                growth_table_main@,
            ),
            Err(e) => e == PipelineError::MalformedCell && !growth_rows_readable(
                growth_table_main@,
            ),
        },
{
    let mut growth_hash_table: HashMap<u32, (Stats, Stats)> = HashMap::new();
    let n = growth_table_main.len();
    let mut i: usize = 0;
    while i < n
        invariant
            n == growth_table_main@.len(),
            0 <= i <= n,
            forall|j: int| 0 <= j < i ==> growth_row_readable(#[trigger] growth_table_main@[j]),
            growth_hash_table@ == growth_map_of(growth_table_main@.take(i as int)),
        decreases n - i,
    {
        let row = &growth_table_main[i];
        let main_position = match row_byte(row, GROWTH_COL_ROLE) {
            Some(v) => v,
            None => {
                return Err(PipelineError::MalformedCell);
            },
        };
        let growth_pattern = match row_byte(row, GROWTH_COL_PATTERN) {
            Some(v) => v,
            None => {
                return Err(PipelineError::MalformedCell);
            },
        };
        let chara_rank = match row_byte(row, GROWTH_COL_RANK) {
            Some(v) => v,
            None => {
                return Err(PipelineError::MalformedCell);
            },
        };
        let mid = Stats {
            kick: scale_mid_stat(stat_magnitude(require_int(row, 3)?)),
            control: scale_mid_stat(stat_magnitude(require_int(row, 4)?)),
            technique: scale_mid_stat(stat_magnitude(require_int(row, 5)?)),
            pressure: scale_mid_stat(stat_magnitude(require_int(row, 6)?)),
            physical: scale_mid_stat(stat_magnitude(require_int(row, 7)?)),
            agility: scale_mid_stat(stat_magnitude(require_int(row, 8)?)),
            intelligence: scale_mid_stat(stat_magnitude(require_int(row, 9)?)),
        };
        let end = Stats {
            kick: stat_magnitude(require_int(row, 10)?),
            control: stat_magnitude(require_int(row, 11)?),
            technique: stat_magnitude(require_int(row, 12)?),
            pressure: stat_magnitude(require_int(row, 13)?),
            physical: stat_magnitude(require_int(row, 14)?),
            agility: stat_magnitude(require_int(row, 15)?),
            intelligence: stat_magnitude(require_int(row, 16)?),
        };
        let key = pack_growth_key(main_position, growth_pattern, chara_rank);
        growth_hash_table.insert(key, (mid, end));
        proof {
            let s = growth_table_main@;
            assert(s.take(i as int + 1).drop_last() =~= s.take(i as int));
            assert(s.take(i as int + 1).last() == s[i as int]);
        }
        i = i + 1;
    }
    proof {
        assert(growth_table_main@.take(n as int) =~= growth_table_main@);
    }
    Ok(growth_hash_table)
}

/// Classifies one matching parameter row against a base row's identity:
/// either rejected by the branched-skill-path completeness rule, or turned
/// into a fully derived character, or reported as a fatal fault (malformed
/// cell, or a growth-table miss for a defined primary role).
pub fn extract_character(
    index: i32,
    name_id: i32,
    series_id: i32,
    row: &Row,
    growth_hash_table: &HashMap<u32, (Stats, Stats)>,
) -> (res: Result<Option<Character>, PipelineError>)
    ensures
        match res {
            Ok(Some(c)) => {
                &&& param_filter_readable(*row)
                &&& !param_rejected(*row)
                &&& param_attr_readable(*row)
                &&& growth_resolved(*row, growth_hash_table@)
                &&& c == character_of(index, name_id, series_id, *row, growth_hash_table@)
            },
            Ok(None) => param_filter_readable(*row) && param_rejected(*row),
            Err(e) => {
                ||| (e == PipelineError::MalformedCell && (!param_filter_readable(*row) || (
                !param_rejected(*row) && !param_attr_readable(*row))))
                ||| (e == PipelineError::GrowthTableMiss && param_filter_readable(*row)
                    && !param_rejected(*row) && param_attr_readable(*row) && !growth_resolved(
                    *row,
                    growth_hash_table@,
                ))
            },
        },
{
    let rarity = match row_int(row, PARAM_COL_RARITY) {
        Some(v) => v,
        None => {
            return Err(PipelineError::MalformedCell);
        },
    };
    let mut empty_slot = false;
    let mut k: usize = 0;
    while k < PARAM_SKILL_SLOTS
        invariant
            0 <= k <= PARAM_SKILL_SLOTS,
            forall|m: int| 0 <= m < k ==> has_int_at(*row, #[trigger] (PARAM_COL_FIRST_SKILL + m)),
            empty_slot <==> exists|m: int|
                0 <= m < k && int_at(*row, #[trigger] (PARAM_COL_FIRST_SKILL + m)) == 0,
        decreases PARAM_SKILL_SLOTS - k,
    {
        match row_int(row, PARAM_COL_FIRST_SKILL + k) {
            Some(v) => {
                if v == 0 {
                    empty_slot = true;
                    proof {
                        assert(int_at(*row, PARAM_COL_FIRST_SKILL + k as int) == 0);
                    }
                }
            },
            None => {
                proof {
                    assert(!has_int_at(*row, PARAM_COL_FIRST_SKILL + k as int));
                }
                return Err(PipelineError::MalformedCell);
            },
        }
        k = k + 1;
    }
    if (rarity == 0 || rarity == 8) && empty_slot {
        return Ok(None);
    }
    // The description id is read only to check the schema here; the scan
    // reads it again when it emits the row's name-lookup request.
    require_int(row, PARAM_COL_DESCRIPTION)?;
    let element = Element::from(require_int(row, PARAM_COL_ELEMENT)?);
    let main_position = Position::from(require_int(row, PARAM_COL_MAIN_POSITION)?);
    let alt_position = Position::from(require_int(row, PARAM_COL_ALT_POSITION)?);
    let style = Style::from(require_int(row, PARAM_COL_STYLE)?);
    let growth_pattern = byte_magnitude(require_int(row, PARAM_COL_GROWTH_PATTERN)?);
    let chara_rank = byte_magnitude(require_int(row, PARAM_COL_RANK)?);
    let (lvl50_stats, lvl99_stats) = if !(main_position == Position::UNKNOWN) {
        let key = pack_growth_key(main_position.code(), growth_pattern, chara_rank);
        match growth_hash_table.get(&key) {
            Some(v) => *v,
            None => {
                return Err(PipelineError::GrowthTableMiss);
            },
        }
    } else {
        (Stats::default(), Stats::default())
    };
    Ok(
        Some(
            Character {
                index,
                name_id,
                element,
                main_position,
                alt_position,
                style,
                lvl50_stats,
                lvl99_stats,
                series_id,
            },
        ),
    )
}

/// The tier of a parameter row whose filter cells are already known to be
/// readable.
fn param_rarity_of(r: &Row) -> (v: i32)
    requires
        param_filter_readable(*r),
    ensures
        v == param_rarity(*r),
{
    match row_int(r, PARAM_COL_RARITY) {
        Some(v) => v,
        None => {
            proof {
                assert(false);
            }
            0
        },
    }
}

/// The description identifier of a producing parameter row.
fn param_description_of(r: &Row) -> (v: i32)
    requires
        param_attr_readable(*r),
    ensures
        v == int_at(*r, PARAM_COL_DESCRIPTION as int),
{
    match row_int(r, PARAM_COL_DESCRIPTION) {
        Some(v) => v,
        None => {
            proof {
                assert(false);
            }
            0
        },
    }
}

/// What one base row contributed to the run: the characters routed to each
/// bucket, in match order, and the row's single name-lookup request when
/// any match produced an entity.
#[derive(Debug)]
pub struct RowYield {
    pub commons: Vec<Character>,
    pub promoted: Vec<Character>,
    pub tops: Vec<Character>,
    pub request: Option<NameRequest>,
}

/// Scans the whole parameter table for one base row: joins by foreign key,
/// classifies each match, derives its characters, and reports the first
/// fatal fault.
#[verifier::loop_isolation(false)]
pub fn process_base_row(
    b: &Row,
    chara_param_info: &Vec<Row>,
    growth_hash_table: &HashMap<u32, (Stats, Stats)>,
) -> (res: Result<RowYield, PipelineError>)
    requires
        base_row_indexed(*b),
    ensures
        ({
            let out = base_row_out(*b, chara_param_info@, growth_hash_table@);
            match res {
                Ok(y) => {
                    &&& out.fatal is None
                    &&& y.commons@ == out.commons
                    &&& y.promoted@ == out.promoted
                    &&& y.tops@ == out.tops
                    &&& out.requests == match y.request {
                        Some(q) => seq![q],
                        None => Seq::<NameRequest>::empty(),
                    }
                    &&& out.ignored == if y.request is None {
                        1int
                    } else {
                        0int
                    }
                },
                Err(e) => out.fatal == Some(e),
            }
        }),
{
    let base_key = match row_int(b, BASE_COL_KEY) {
        Some(v) => v,
        None => {
            return Err(PipelineError::MalformedCell);
        },
    };
    let name_id = match row_int(b, BASE_COL_NAME) {
        Some(v) => v,
        None => {
            return Err(PipelineError::MalformedCell);
        },
    };
    let series_id = match row_int(b, BASE_COL_SERIES) {
        Some(v) => v,
        None => {
            return Err(PipelineError::MalformedCell);
        },
    };
    let index = base_index_of(b);
    let ghost gkey = base_key;
    let ghost gname = name_id;
    let ghost gseries = series_id;
    let ghost gindex = index;
    let mut commons: Vec<Character> = Vec::new();
    let mut promoted: Vec<Character> = Vec::new();
    let mut tops: Vec<Character> = Vec::new();
    let mut request: Option<NameRequest> = None;
    let n = chara_param_info.len();
    let mut j: usize = 0;
    while j < n
        invariant
            0 <= j <= n,
            ({
                let s = scan_params(
                    gkey,
                    gindex,
                    gname,
                    gseries,
                    growth_hash_table@,
                    chara_param_info@.take(j as int),
                );
                &&& s.fatal is None
                &&& commons@ == s.commons
                &&& promoted@ == s.promoted
                &&& tops@ == s.tops
                &&& match request {
                    Some(q) => s.first_description == Some(q.description_id) && q.name_id == gname,
                    None => s.first_description is None,
                }
            }),
        decreases n - j,
    {
        let ghost prefix = chara_param_info@.take(j as int);
        let ghost prefix1 = chara_param_info@.take(j as int + 1);
        proof {
            assert(prefix1.drop_last() =~= prefix);
            assert(prefix1.last() == chara_param_info@[j as int]);
        }
        let p = &chara_param_info[j];
        match row_int(p, PARAM_COL_BASE_KEY) {
            None => {
                proof {
                    lemma_scan_fatal_stable(
                        gkey,
                        gindex,
                        gname,
                        gseries,
                        growth_hash_table@,
                        chara_param_info@,
                        j as int + 1,
                    );
                }
                return Err(PipelineError::MalformedCell);
            },
            Some(fk) => {
                if fk == base_key {
                    match extract_character(index, name_id, series_id, p, growth_hash_table) {
                        Err(e) => {
                            proof {
                                lemma_scan_fatal_stable(
                                    gkey,
                                    gindex,
                                    gname,
                                    gseries,
                                    growth_hash_table@,
                                    chara_param_info@,
                                    j as int + 1,
                                );
                            }
                            return Err(e);
                        },
                        Ok(None) => {},
                        Ok(Some(character)) => {
                            let rarity = param_rarity_of(p);
                            match bucket_for_rarity(rarity) {
                                Err(e) => {
                                    proof {
                                        lemma_scan_fatal_stable(
                                            gkey,
                                            gindex,
                                            gname,
                                            gseries,
                                            growth_hash_table@,
                                            chara_param_info@,
                                            j as int + 1,
                                        );
                                    }
                                    return Err(e);
                                },
                                Ok(bucket) => {
                                    if request.is_none() {
                                        let description_id = param_description_of(p);
                                        request = Some(
                                            NameRequest { name_id, description_id },
                                        );
                                    }
                                    match bucket {
                                        Bucket::Common => commons.push(character),
                                        Bucket::Promoted => promoted.push(character),
                                        Bucket::TopTier => tops.push(character),
                                    }
                                },
                            }
                        },
                    }
                }
            },
        }
        j = j + 1;
    }
    proof {
        assert(chara_param_info@.take(n as int) =~= chara_param_info@);
    }
    Ok(RowYield { commons, promoted, tops, request })
}

/// The outcome of one full extraction run: the entities of each bucket in
/// processing order, the name-lookup requests (one per producing base row,
/// in row order), and how many base rows produced nothing.
#[derive(Debug)]
pub struct Extraction {
    pub commons: Vec<Character>,
    pub promoted: Vec<Character>,
    pub tops: Vec<Character>,
    pub requests: Vec<NameRequest>,
    pub ignored: u64,
}

/// The pure core of the producer: filters and sorts the base table, joins
/// every eligible base row against the full parameter table, classifies the
/// matches and derives their stat blocks.
#[verifier::loop_isolation(false)]
pub fn extract_entities(
    chara_base_info: Vec<Row>,
    chara_param_info: &Vec<Row>,
    growth_hash_table: &HashMap<u32, (Stats, Stats)>,
) -> (res: Result<Extraction, PipelineError>)
    ensures
        ({
            let out = pipeline_run(chara_base_info@, chara_param_info@, growth_hash_table@);
            match res {
                Ok(x) => {
                    &&& out.fatal is None
                    &&& x.commons@ == out.commons
                    &&& x.promoted@ == out.promoted
                    &&& x.tops@ == out.tops
                    &&& x.requests@ == out.requests
                    &&& x.ignored == out.ignored
                },
                Err(e) => out.fatal == Some(e),
            }
        }),
{
    let ghost base0 = chara_base_info@;
    let sorted = match get_characters(chara_base_info) {
        Ok(v) => v,
        Err(e) => {
            return Err(e);
        },
    };
    proof {
        lemma_eligible_rows_eligible(base0);
        assert(forall|m: int|
            0 <= m < eligible_rows(base0).len() ==> base_row_indexed(
                #[trigger] eligible_rows(base0)[m],
            ));
        lemma_sort_by_index_indexed(eligible_rows(base0));
    }
    let mut commons: Vec<Character> = Vec::new();
    let mut promoted: Vec<Character> = Vec::new();
    let mut tops: Vec<Character> = Vec::new();
    let mut requests: Vec<NameRequest> = Vec::new();
    let mut ignored: u64 = 0;
    let n = sorted.len();
    let mut i: usize = 0;
    while i < n
        invariant
            0 <= i <= n,
            ignored <= i,
            ({
                let run = run_rows(sorted@.take(i as int), chara_param_info@, growth_hash_table@);
                &&& run.fatal is None
                &&& commons@ == run.commons
                &&& promoted@ == run.promoted
                &&& tops@ == run.tops
                &&& requests@ == run.requests
                &&& ignored == run.ignored
            }),
        decreases n - i,
    {
        let ghost prefix = sorted@.take(i as int);
        let ghost prefix1 = sorted@.take(i as int + 1);
        proof {
            assert(prefix1.drop_last() =~= prefix);
            assert(prefix1.last() == sorted@[i as int]);
        }
        let b = &sorted[i];
        let mut y = match process_base_row(b, chara_param_info, growth_hash_table) {
            Ok(y) => y,
            Err(e) => {
                proof {
                    lemma_run_fatal_stable(
                        sorted@,
                        chara_param_info@,
                        growth_hash_table@,
                        i as int + 1,
                    );
                }
                return Err(e);
            },
        };
        commons.append(&mut y.commons);
        promoted.append(&mut y.promoted);
        tops.append(&mut y.tops);
        match y.request {
            Some(q) => {
                requests.push(q);
                proof {
                    let out = base_row_out(sorted@[i as int], chara_param_info@, growth_hash_table@);
                    assert(requests@ =~= run_rows(
                        prefix,
                        chara_param_info@,
                        growth_hash_table@,
                    ).requests + out.requests);
                }
            },
            None => {
                ignored = ignored + 1;
            },
        }
        i = i + 1;
    }
    proof {
        assert(sorted@.take(n as int) =~= sorted@);
    }
    Ok(Extraction { commons, promoted, tops, requests, ignored })
}

/// One committed flush: the bucket written and its entity rows, in insert
/// order.
pub struct FlushRecord {
    pub bucket: Bucket,
    pub rows: Seq<Character>,
}

/// The rows a flush history has committed to one bucket, concatenated in
/// commit order.
pub open spec fn bucket_concat(log: Seq<FlushRecord>, b: Bucket) -> Seq<Character>
    decreases log.len(),
{
    if log.len() == 0 {
        Seq::empty()
    } else {
        bucket_concat(log.drop_last(), b) + if log.last().bucket == b {
            log.last().rows
        } else {
            Seq::empty()
        }
    }
}

/// One more committed flush extends exactly its own bucket's rows.
pub proof fn lemma_bucket_concat_push(log: Seq<FlushRecord>, rec: FlushRecord, b: Bucket)
    ensures
        bucket_concat(log.push(rec), b) == bucket_concat(log, b) + if rec.bucket == b {
            rec.rows
        } else {
            Seq::<Character>::empty()
        },
{
    assert(log.push(rec).drop_last() =~= log);
    assert(log.push(rec).last() == rec);
}

/// A partially drained state of the driver is a prefix of the whole run:
/// what was flushed so far, bucket by bucket, and what was sent so far.
proof fn lemma_partial_exit(
    added: Seq<FlushRecord>,
    common_buf: Seq<Character>,
    hero_buf: Seq<Character>,
    basara_buf: Seq<Character>,
    sent0: Seq<NameRequest>,
    sent_full: Seq<NameRequest>,
    part: RunOut,
    run: RunOut,
)
    requires
        bucket_concat(added, Bucket::Common) + common_buf == part.commons,
        bucket_concat(added, Bucket::Promoted) + hero_buf == part.promoted,
        bucket_concat(added, Bucket::TopTier) + basara_buf == part.tops,
        sent_full == sent0 + part.requests,
        part.commons.is_prefix_of(run.commons),
        part.promoted.is_prefix_of(run.promoted),
        part.tops.is_prefix_of(run.tops),
        part.requests.is_prefix_of(run.requests),
    ensures
        (sent_full.skip(sent0.len() as int)).is_prefix_of(run.requests),
        forall|b: Bucket| (#[trigger] bucket_concat(added, b)).is_prefix_of(bucket_seq(run, b)),
{
    assert(sent_full.skip(sent0.len() as int) =~= part.requests);
    assert forall|b: Bucket| (#[trigger] bucket_concat(added, b)).is_prefix_of(
        bucket_seq(run, b),
    ) by {
        match b {
            Bucket::Common => {
                let a = bucket_concat(added, b);
                assert(a =~= (a + common_buf).subrange(0, a.len() as int));
                lemma_prefix_trans(a, part.commons, run.commons);
            },
            Bucket::Promoted => {
                let a = bucket_concat(added, b);
                assert(a =~= (a + hero_buf).subrange(0, a.len() as int));
                lemma_prefix_trans(a, part.promoted, run.promoted);
            },
            Bucket::TopTier => {
                let a = bucket_concat(added, b);
                assert(a =~= (a + basara_buf).subrange(0, a.len() as int));
                lemma_prefix_trans(a, part.tops, run.tops);
            },
        }
    }
}

/// The store preparation the producer performs before any flush, in
/// order: the schema pass, then the two pragma updates.
pub open spec fn character_store_setup() -> Seq<SetupStep> {
    seq![
        SetupStep::Schema,
        SetupStep::Pragma("journal_mode"@, "WAL"@),
        SetupStep::Pragma("synchronous"@, "NORMAL"@),
    ]
}

/// The insert-conflict policy of a bucket's store.
#[derive(Debug, Clone, Copy, PartialEq, Eq, Structural)]
pub enum ConflictPolicy {
    IgnoreDuplicates,
    FailOnDuplicate,
}

/// The deliberate asymmetry of the persistence policies: a duplicate
/// ordinal index in the common bucket is silently ignored, which makes
/// re-runs safe, while the promoted and top-tier buckets use a plain
/// insert, where a duplicate is an error.
pub open spec fn bucket_conflict_policy(b: Bucket) -> ConflictPolicy {
    match b {
        Bucket::Common => ConflictPolicy::IgnoreDuplicates,
        Bucket::Promoted => ConflictPolicy::FailOnDuplicate,
        Bucket::TopTier => ConflictPolicy::FailOnDuplicate,
    }
}

/// The policy the given bucket's flushes use.
pub fn conflict_policy_of(b: Bucket) -> (p: ConflictPolicy)
    ensures
        p == bucket_conflict_policy(b),
{
    match b {
        Bucket::Common => ConflictPolicy::IgnoreDuplicates,
        Bucket::Promoted => ConflictPolicy::FailOnDuplicate,
        Bucket::TopTier => ConflictPolicy::FailOnDuplicate,
    }
}

/// The 21 column values of one persisted entity row, in insert order:
/// identity and classification codes first, then the seven mid-level and
/// seven end-level stat magnitudes.
pub open spec fn spec_entity_params(c: Character) -> Seq<i64> {
    seq![
        c.index as i64,
        c.name_id as i64,
        c.element.spec_code() as i64,
        c.main_position.spec_code() as i64,
        c.alt_position.spec_code() as i64,
        c.style.spec_code() as i64,
        c.series_id as i64,
        c.lvl50_stats.kick as i64,
        c.lvl50_stats.control as i64,
        c.lvl50_stats.technique as i64,
        c.lvl50_stats.pressure as i64,
        c.lvl50_stats.physical as i64,
        c.lvl50_stats.agility as i64,
        c.lvl50_stats.intelligence as i64,
        c.lvl99_stats.kick as i64,
        c.lvl99_stats.control as i64,
        c.lvl99_stats.technique as i64,
        c.lvl99_stats.pressure as i64,
        c.lvl99_stats.physical as i64,
        c.lvl99_stats.agility as i64,
        c.lvl99_stats.intelligence as i64,
    ]
}

/// Renders one entity as its insert parameters.
pub fn entity_params(c: &Character) -> (v: Vec<i64>)
    ensures
        v@ == spec_entity_params(*c),
{
    let mut v: Vec<i64> = Vec::new();
    v.push(c.index as i64);
    v.push(c.name_id as i64);
    v.push(c.element.code() as i64);
    v.push(c.main_position.code() as i64);
    v.push(c.alt_position.code() as i64);
    v.push(c.style.code() as i64);
    v.push(c.series_id as i64);
    v.push(c.lvl50_stats.kick as i64);
    v.push(c.lvl50_stats.control as i64);
    v.push(c.lvl50_stats.technique as i64);
    v.push(c.lvl50_stats.pressure as i64);
    v.push(c.lvl50_stats.physical as i64);
    v.push(c.lvl50_stats.agility as i64);
    v.push(c.lvl50_stats.intelligence as i64);
    v.push(c.lvl99_stats.kick as i64);
    v.push(c.lvl99_stats.control as i64);
    v.push(c.lvl99_stats.technique as i64);
    v.push(c.lvl99_stats.pressure as i64);
    v.push(c.lvl99_stats.physical as i64);
    v.push(c.lvl99_stats.agility as i64);
    v.push(c.lvl99_stats.intelligence as i64);
    proof {
        assert(v@ =~= spec_entity_params(*c));
    }
    v
}

/// The character store: one connection, plus the ghost history of the
/// flushes it has committed. Exactly one producer owns a store, so no
/// connection is ever shared between writers.
pub struct CharacterStore {
    pub conn: rusqlite::Connection,
    pub flushed: Ghost<Seq<FlushRecord>>,
    pub setup: Ghost<Seq<SetupStep>>,
}

impl CharacterStore {
    /// Wraps a connection that this store has prepared and flushed nothing
    /// to yet.
    pub fn new(conn: rusqlite::Connection) -> (s: CharacterStore)
        ensures
            s.flushed@ == Seq::<FlushRecord>::empty(),
            s.setup@ == Seq::<SetupStep>::empty(),
    {
        CharacterStore { conn, flushed: Ghost(Seq::empty()), setup: Ghost(Seq::empty()) }
    }

    /// Creates the three entity tables if they are absent: `characters`
    /// keyed by the ordinal index, `heroes` and `basaras` unkeyed. The
    /// setup history records the schema pass exactly when every statement
    /// was handed to the connection and accepted.
    pub fn initialize_database(&mut self) -> (res: Result<(), StoreError>)
        ensures
            final(self).conn == old(self).conn,
            final(self).flushed@ == old(self).flushed@,
            match res {
                Ok(_) => final(self).setup@ == old(self).setup@.push(SetupStep::Schema),
                Err(_) => final(self).setup@ == old(self).setup@,
            },
    {
        if let Err(e) = db_execute_batch(&self.conn, CREATE_CHARACTERS_SQL) {
            return Err(store_error(&e));
        }
        if let Err(e) = db_execute_batch(&self.conn, CREATE_HEROES_SQL) {
            return Err(store_error(&e));
        }
        if let Err(e) = db_execute_batch(&self.conn, CREATE_BASARAS_SQL) {
            return Err(store_error(&e));
        }
        self.setup = Ghost(self.setup@.push(SetupStep::Schema));
        Ok(())
    }

    /// Sets one pragma of the store's connection, recording it in the
    /// setup history exactly when the connection accepted it.
    pub fn apply_pragma(&mut self, name: &str, value: &str) -> (res: Result<(), StoreError>)
        ensures
            final(self).conn == old(self).conn,
            final(self).flushed@ == old(self).flushed@,
            match res {
                Ok(_) => final(self).setup@ == old(self).setup@.push(
                    SetupStep::Pragma(name@, value@),
                ),
                Err(_) => final(self).setup@ == old(self).setup@,
            },
    {
        if let Err(e) = db_pragma_update(&self.conn, name, value) {
            return Err(store_error(&e));
        }
        self.setup = Ghost(self.setup@.push(SetupStep::Pragma(name@, value@)));
        Ok(())
    }

    /// One batch, one exclusive transaction: begins, inserts every entity
    /// in order with the given statement, and commits; the flush history
    /// grows by this batch exactly when the commit succeeded.
    fn flush_bucket(&mut self, bucket: Bucket, sql: &str, characters: &Vec<Character>) -> (res:
        Result<(), StoreError>)
        ensures
            final(self).setup@ == old(self).setup@,
            match res {
                Ok(_) => final(self).flushed@ == old(self).flushed@.push(
                    FlushRecord { bucket, rows: characters@ },
                ),
                Err(_) => final(self).flushed@ == old(self).flushed@,
            },
    {
        if let Err(e) = db_execute_batch(&self.conn, "BEGIN EXCLUSIVE;") {
            return Err(store_error(&e));
        }
        let n = characters.len();
        let mut i: usize = 0;
        while i < n
            invariant
                self.flushed@ == old(self).flushed@,
                n == characters@.len(),
            decreases n - i,
        {
            let vals = entity_params(&characters[i]);
            if let Err(e) = db_execute_ints(&self.conn, sql, &vals) {
                let _ = db_execute_batch(&self.conn, "ROLLBACK;");
                return Err(store_error(&e));
            }
            i = i + 1;
        }
        match db_execute_batch(&self.conn, "COMMIT;") {
            Ok(_) => {
                self.flushed = Ghost(self.flushed@.push(FlushRecord { bucket, rows: characters@ }));
                Ok(())
            },
            Err(e) => {
                let _ = db_execute_batch(&self.conn, "ROLLBACK;");
                Err(store_error(&e))
            },
        }
    }

    /// Flushes one batch of common-bucket entities, with the
    /// duplicate-ignoring insert policy.
    pub fn insert_characters(&mut self, characters: &Vec<Character>) -> (res: Result<
        (),
        StoreError,
    >)
        ensures
            final(self).setup@ == old(self).setup@,
            match res {
                Ok(_) => final(self).flushed@ == old(self).flushed@.push(
                    FlushRecord { bucket: Bucket::Common, rows: characters@ },
                ),
                Err(_) => final(self).flushed@ == old(self).flushed@,
            },
    {
        self.flush_bucket(Bucket::Common, INSERT_CHARACTERS_SQL, characters)
    }

    /// Flushes one batch of promoted-bucket entities, with the plain
    /// insert policy.
    pub fn insert_heroes(&mut self, characters: &Vec<Character>) -> (res: Result<(), StoreError>)
        ensures
            final(self).setup@ == old(self).setup@,
            match res {
                Ok(_) => final(self).flushed@ == old(self).flushed@.push(
                    FlushRecord { bucket: Bucket::Promoted, rows: characters@ },
                ),
                Err(_) => final(self).flushed@ == old(self).flushed@,
            },
    {
        self.flush_bucket(Bucket::Promoted, INSERT_HEROES_SQL, characters)
    }

    /// Flushes one batch of top-tier entities, with the plain insert
    /// policy.
    pub fn insert_basaras(&mut self, characters: &Vec<Character>) -> (res: Result<(), StoreError>)
        ensures
            final(self).setup@ == old(self).setup@,
            match res {
                Ok(_) => final(self).flushed@ == old(self).flushed@.push(
                    FlushRecord { bucket: Bucket::TopTier, rows: characters@ },
                ),
                Err(_) => final(self).flushed@ == old(self).flushed@,
            },
    {
        self.flush_bucket(Bucket::TopTier, INSERT_BASARAS_SQL, characters)
    }
}

/// The producer: prepares the store, builds the growth mapping, filters
/// and sorts the base table, joins every eligible base row against the
/// parameter table, sends one name-lookup request per producing base row,
/// and persists each bucket's entities in batched exclusive transactions —
/// a bucket is flushed whenever it reaches the threshold, and every
/// non-empty bucket once more at the end. Returns how many base rows
/// produced nothing.
///
/// On success the new flushes concatenate, bucket by bucket, to exactly
/// the run's entities, and the requests sent are exactly the run's
/// requests, in order. On any failure they are a prefix of the run's:
/// nothing beyond the last committed batch is persisted.
#[verifier::loop_isolation(false)]
#[verifier::rlimit(100)]
pub fn populate_character_data(
    store: &mut CharacterStore,
    char_name_req_tx: &mut RequestSender,
    chara_base_info: Vec<Row>,
    chara_param_info: &Vec<Row>,
    growth_table_main: &Vec<Row>,
) -> (res: Result<u64, PipelineError>)
    ensures
        ({
            let run = full_run(chara_base_info@, chara_param_info@, growth_table_main@);
            let added = final(store).flushed@.skip(old(store).flushed@.len() as int);
            let sent_new = final(char_name_req_tx).sent@.skip(
                old(char_name_req_tx).sent@.len() as int,
            );
            &&& old(store).flushed@.is_prefix_of(final(store).flushed@)
            &&& old(store).setup@.is_prefix_of(final(store).setup@)
            &&& old(char_name_req_tx).sent@.is_prefix_of(final(char_name_req_tx).sent@)
            &&& sent_new.is_prefix_of(run.requests)
            &&& forall|b: Bucket|
                (#[trigger] bucket_concat(added, b)).is_prefix_of(bucket_seq(run, b))
            &&& forall|m: int| 0 <= m < added.len() ==> (#[trigger] added[m]).rows.len() > 0
            &&& match res {
                Ok(n) => {
                    &&& run.fatal is None
                    &&& n == run.ignored
                    &&& sent_new == run.requests
                    &&& final(store).setup@ == old(store).setup@ + character_store_setup()
                    &&& forall|b: Bucket| #[trigger] bucket_concat(added, b) == bucket_seq(run, b)
                },
                Err(e) => e.spec_is_data_fault() ==> run.fatal == Some(e),
            }
        }),
{
    let ghost log0 = store.flushed@;
    let ghost sent0 = char_name_req_tx.sent@;
    let ghost setup0 = store.setup@;
    let ghost run = full_run(chara_base_info@, chara_param_info@, growth_table_main@);
    proof {
        lemma_prefix_refl(log0);
        lemma_prefix_refl(sent0);
        lemma_prefix_refl(setup0);
        lemma_empty_prefix::<NameRequest>(run.requests);
        assert(log0.skip(log0.len() as int) =~= Seq::<FlushRecord>::empty());
        assert(sent0.skip(sent0.len() as int) =~= Seq::<NameRequest>::empty());
        assert forall|b: Bucket| (#[trigger] bucket_concat(
            Seq::<FlushRecord>::empty(),
            b,
        )).is_prefix_of(bucket_seq(run, b)) by {
            lemma_empty_prefix::<Character>(bucket_seq(run, b));
        }
    }
    if let Err(e) = store.initialize_database() {
        return Err(PipelineError::Store(e));
    }
    proof {
        assert(setup0.is_prefix_of(store.setup@)) by {
            assert(setup0 =~= store.setup@.subrange(0, setup0.len() as int));
        }
    }
    if let Err(e) = store.apply_pragma("journal_mode", "WAL") {
        return Err(PipelineError::Store(e));
    }
    proof {
        assert(setup0.is_prefix_of(store.setup@)) by {
            assert(setup0 =~= store.setup@.subrange(0, setup0.len() as int));
        }
    }
    if let Err(e) = store.apply_pragma("synchronous", "NORMAL") {
        return Err(PipelineError::Store(e));
    }
    proof {
        assert(store.setup@ =~= setup0 + character_store_setup());
        assert(setup0.is_prefix_of(store.setup@)) by {
            assert(setup0 =~= store.setup@.subrange(0, setup0.len() as int));
        }
    }
    let growth_hash_table = match parse_growth_table(growth_table_main) {
        Ok(m) => m,
        Err(e) => {
            return Err(e);
        },
    };
    let ghost base0 = chara_base_info@;
    let sorted = match get_characters(chara_base_info) {
        Ok(v) => v,
        Err(e) => {
            return Err(e);
        },
    };
    proof {
        lemma_eligible_rows_eligible(base0);
        assert(forall|m: int|
            0 <= m < eligible_rows(base0).len() ==> base_row_indexed(
                #[trigger] eligible_rows(base0)[m],
            ));
        lemma_sort_by_index_indexed(eligible_rows(base0));
        assert(run == run_rows(sorted@, chara_param_info@, growth_hash_table@));
    }
    let mut char_buffer: Vec<Character> = Vec::new();
    let mut hero_buffer: Vec<Character> = Vec::new();
    let mut basara_buffer: Vec<Character> = Vec::new();
    let mut ignored: u64 = 0;
    let n = sorted.len();
    let mut i: usize = 0;
    while i < n
        invariant
            0 <= i <= n,
            ignored <= i,
            store.flushed@.len() >= log0.len(),
            store.flushed@.take(log0.len() as int) == log0,
            store.setup@ == setup0 + character_store_setup(),
            setup0.is_prefix_of(store.setup@),
            char_name_req_tx.sent@.len() >= sent0.len(),
            char_name_req_tx.sent@.take(sent0.len() as int) == sent0,
            ({
                let part = run_rows(sorted@.take(i as int), chara_param_info@, growth_hash_table@);
                let added = store.flushed@.skip(log0.len() as int);
                &&& part.fatal is None
                &&& bucket_concat(added, Bucket::Common) + char_buffer@ == part.commons
                &&& bucket_concat(added, Bucket::Promoted) + hero_buffer@ == part.promoted
                &&& bucket_concat(added, Bucket::TopTier) + basara_buffer@ == part.tops
                &&& char_name_req_tx.sent@ == sent0 + part.requests
                &&& ignored == part.ignored
                &&& forall|m: int| 0 <= m < added.len() ==> (#[trigger] added[m]).rows.len() > 0
            }),
        decreases n - i,
    {
        let ghost part = run_rows(sorted@.take(i as int), chara_param_info@, growth_hash_table@);
        let ghost prefix1 = sorted@.take(i as int + 1);
        proof {
            assert(prefix1.drop_last() =~= sorted@.take(i as int));
            assert(prefix1.last() == sorted@[i as int]);
            lemma_run_prefix(sorted@, chara_param_info@, growth_hash_table@, i as int);
        }
        let b = &sorted[i];
        let mut y = match process_base_row(b, chara_param_info, &growth_hash_table) {
            Ok(y) => y,
            Err(e) => {
                proof {
                    lemma_run_fatal_stable(
                        sorted@,
                        chara_param_info@,
                        growth_hash_table@,
                        i as int + 1,
                    );
                    lemma_partial_exit(
                        store.flushed@.skip(log0.len() as int),
                        char_buffer@,
                        hero_buffer@,
                        basara_buffer@,
                        sent0,
                        char_name_req_tx.sent@,
                        part,
                        run,
                    );
                }
                return Err(e);
            },
        };
        let ghost out = base_row_out(sorted@[i as int], chara_param_info@, growth_hash_table@);
        match y.request {
            Some(q) => {
                if !char_name_req_tx.send(q) {
                    proof {
                        lemma_partial_exit(
                            store.flushed@.skip(log0.len() as int),
                            char_buffer@,
                            hero_buffer@,
                            basara_buffer@,
                            sent0,
                            char_name_req_tx.sent@,
                            part,
                            run,
                        );
                    }
                    return Err(PipelineError::ChannelClosed);
                }
                proof {
                    assert(char_name_req_tx.sent@ =~= sent0 + (part.requests + out.requests));
                }
            },
            None => {
                ignored = ignored + 1;
            },
        }
        char_buffer.append(&mut y.commons);
        hero_buffer.append(&mut y.promoted);
        basara_buffer.append(&mut y.tops);
        let ghost part1 = run_rows(prefix1, chara_param_info@, growth_hash_table@);
        proof {
            assert(part1 == run_combine(part, out));
            let added = store.flushed@.skip(log0.len() as int);
            assert(bucket_concat(added, Bucket::Common) + char_buffer@ =~= part1.commons);
            assert(bucket_concat(added, Bucket::Promoted) + hero_buffer@ =~= part1.promoted);
            assert(bucket_concat(added, Bucket::TopTier) + basara_buffer@ =~= part1.tops);
            assert(char_name_req_tx.sent@ =~= sent0 + part1.requests);
        }
        if char_buffer.len() >= FLUSH_THRESHOLD {
            let ghost added_old = store.flushed@.skip(log0.len() as int);
            match store.insert_characters(&char_buffer) {
                Ok(_) => {
                    proof {
                        let rec = FlushRecord { bucket: Bucket::Common, rows: char_buffer@ };
                        assert(store.flushed@.skip(log0.len() as int) =~= added_old.push(rec));
                        assert(store.flushed@.take(log0.len() as int) =~= log0);
                        lemma_bucket_concat_push(added_old, rec, Bucket::Common);
                        lemma_bucket_concat_push(added_old, rec, Bucket::Promoted);
                        lemma_bucket_concat_push(added_old, rec, Bucket::TopTier);
                        assert(bucket_concat(added_old.push(rec), Bucket::Common) =~= bucket_concat(
                            added_old,
                            Bucket::Common,
                        ) + char_buffer@);
                        assert(bucket_concat(added_old.push(rec), Bucket::Promoted) =~=
                        bucket_concat(added_old, Bucket::Promoted));
                        assert(bucket_concat(added_old.push(rec), Bucket::TopTier) =~=
                        bucket_concat(added_old, Bucket::TopTier));
                    }
                    char_buffer = Vec::new();
                },
                Err(e) => {
                    proof {
                        lemma_run_prefix(
                            sorted@,
                            chara_param_info@,
                            growth_hash_table@,
                            i as int + 1,
                        );
                        lemma_partial_exit(
                            store.flushed@.skip(log0.len() as int),
                            char_buffer@,
                            hero_buffer@,
                            basara_buffer@,
                            sent0,
                            char_name_req_tx.sent@,
                            part1,
                            run,
                        );
                    }
                    return Err(PipelineError::Store(e));
                },
            }
        }
        if hero_buffer.len() >= FLUSH_THRESHOLD {
            let ghost added_old = store.flushed@.skip(log0.len() as int);
            match store.insert_heroes(&hero_buffer) {
                Ok(_) => {
                    proof {
                        let rec = FlushRecord { bucket: Bucket::Promoted, rows: hero_buffer@ };
                        assert(store.flushed@.skip(log0.len() as int) =~= added_old.push(rec));
                        assert(store.flushed@.take(log0.len() as int) =~= log0);
                        lemma_bucket_concat_push(added_old, rec, Bucket::Common);
                        lemma_bucket_concat_push(added_old, rec, Bucket::Promoted);
                        lemma_bucket_concat_push(added_old, rec, Bucket::TopTier);
                        assert(bucket_concat(added_old.push(rec), Bucket::Promoted) =~=
                        bucket_concat(added_old, Bucket::Promoted) + hero_buffer@);
                        assert(bucket_concat(added_old.push(rec), Bucket::Common) =~= bucket_concat(
                            added_old,
                            Bucket::Common,
                        ));
                        assert(bucket_concat(added_old.push(rec), Bucket::TopTier) =~=
                        bucket_concat(added_old, Bucket::TopTier));
                    }
                    hero_buffer = Vec::new();
                },
                Err(e) => {
                    proof {
                        lemma_run_prefix(
                            sorted@,
                            chara_param_info@,
                            growth_hash_table@,
                            i as int + 1,
                        );
                        lemma_partial_exit(
                            store.flushed@.skip(log0.len() as int),
                            char_buffer@,
                            hero_buffer@,
                            basara_buffer@,
                            sent0,
                            char_name_req_tx.sent@,
                            part1,
                            run,
                        );
                    }
                    return Err(PipelineError::Store(e));
                },
            }
        }
        if basara_buffer.len() >= FLUSH_THRESHOLD {
            let ghost added_old = store.flushed@.skip(log0.len() as int);
            match store.insert_basaras(&basara_buffer) {
                Ok(_) => {
                    proof {
                        let rec = FlushRecord { bucket: Bucket::TopTier, rows: basara_buffer@ };
                        assert(store.flushed@.skip(log0.len() as int) =~= added_old.push(rec));
                        assert(store.flushed@.take(log0.len() as int) =~= log0);
                        lemma_bucket_concat_push(added_old, rec, Bucket::Common);
                        lemma_bucket_concat_push(added_old, rec, Bucket::Promoted);
                        lemma_bucket_concat_push(added_old, rec, Bucket::TopTier);
                        assert(bucket_concat(added_old.push(rec), Bucket::TopTier) =~=
                        bucket_concat(added_old, Bucket::TopTier) + basara_buffer@);
                        assert(bucket_concat(added_old.push(rec), Bucket::Common) =~= bucket_concat(
                            added_old,
                            Bucket::Common,
                        ));
                        assert(bucket_concat(added_old.push(rec), Bucket::Promoted) =~=
                        bucket_concat(added_old, Bucket::Promoted));
                    }
                    basara_buffer = Vec::new();
                },
                Err(e) => {
                    proof {
                        lemma_run_prefix(
                            sorted@,
                            chara_param_info@,
                            growth_hash_table@,
                            i as int + 1,
                        );
                        lemma_partial_exit(
                            store.flushed@.skip(log0.len() as int),
                            char_buffer@,
                            hero_buffer@,
                            basara_buffer@,
                            sent0,
                            char_name_req_tx.sent@,
                            part1,
                            run,
                        );
                    }
                    return Err(PipelineError::Store(e));
                },
            }
        }
        i = i + 1;
    }
    proof {
        assert(sorted@.take(n as int) =~= sorted@);
        lemma_run_prefix(sorted@, chara_param_info@, growth_hash_table@, n as int);
    }
    if char_buffer.len() > 0 {
        let ghost added_old = store.flushed@.skip(log0.len() as int);
        match store.insert_characters(&char_buffer) {
            Ok(_) => {
                proof {
                    let rec = FlushRecord { bucket: Bucket::Common, rows: char_buffer@ };
                    assert(store.flushed@.skip(log0.len() as int) =~= added_old.push(rec));
                    assert(store.flushed@.take(log0.len() as int) =~= log0);
                    lemma_bucket_concat_push(added_old, rec, Bucket::Common);
                    lemma_bucket_concat_push(added_old, rec, Bucket::Promoted);
                    lemma_bucket_concat_push(added_old, rec, Bucket::TopTier);
                    assert(bucket_concat(added_old.push(rec), Bucket::Common) =~= bucket_concat(
                        added_old,
                        Bucket::Common,
                    ) + char_buffer@);
                    assert(bucket_concat(added_old.push(rec), Bucket::Promoted) =~= bucket_concat(
                        added_old,
                        Bucket::Promoted,
                    ));
                    assert(bucket_concat(added_old.push(rec), Bucket::TopTier) =~= bucket_concat(
                        added_old,
                        Bucket::TopTier,
                    ));
                }
                char_buffer = Vec::new();
            },
            Err(e) => {
                proof {
                    lemma_partial_exit(
                        store.flushed@.skip(log0.len() as int),
                        char_buffer@,
                        hero_buffer@,
                        basara_buffer@,
                        sent0,
                        char_name_req_tx.sent@,
                        run,
                        run,
                    );
                }
                return Err(PipelineError::Store(e));
            },
        }
    }
    if hero_buffer.len() > 0 {
        let ghost added_old = store.flushed@.skip(log0.len() as int);
        match store.insert_heroes(&hero_buffer) {
            Ok(_) => {
                proof {
                    let rec = FlushRecord { bucket: Bucket::Promoted, rows: hero_buffer@ };
                    assert(store.flushed@.skip(log0.len() as int) =~= added_old.push(rec));
                    assert(store.flushed@.take(log0.len() as int) =~= log0);
                    lemma_bucket_concat_push(added_old, rec, Bucket::Common);
                    lemma_bucket_concat_push(added_old, rec, Bucket::Promoted);
                    lemma_bucket_concat_push(added_old, rec, Bucket::TopTier);
                    assert(bucket_concat(added_old.push(rec), Bucket::Promoted) =~= bucket_concat(
                        added_old,
                        Bucket::Promoted,
                    ) + hero_buffer@);
                    assert(bucket_concat(added_old.push(rec), Bucket::Common) =~= bucket_concat(
                        added_old,
                        Bucket::Common,
                    ));
                    assert(bucket_concat(added_old.push(rec), Bucket::TopTier) =~= bucket_concat(
                        added_old,
                        Bucket::TopTier,
                    ));
                }
                hero_buffer = Vec::new();
            },
            Err(e) => {
                proof {
                    lemma_partial_exit(
                        store.flushed@.skip(log0.len() as int),
                        char_buffer@,
                        hero_buffer@,
                        basara_buffer@,
                        sent0,
                        char_name_req_tx.sent@,
                        run,
                        run,
                    );
                }
                return Err(PipelineError::Store(e));
            },
        }
    }
    if basara_buffer.len() > 0 {
        let ghost added_old = store.flushed@.skip(log0.len() as int);
        match store.insert_basaras(&basara_buffer) {
            Ok(_) => {
                proof {
                    let rec = FlushRecord { bucket: Bucket::TopTier, rows: basara_buffer@ };
                    assert(store.flushed@.skip(log0.len() as int) =~= added_old.push(rec));
                    assert(store.flushed@.take(log0.len() as int) =~= log0);
                    lemma_bucket_concat_push(added_old, rec, Bucket::Common);
                    lemma_bucket_concat_push(added_old, rec, Bucket::Promoted);
                    lemma_bucket_concat_push(added_old, rec, Bucket::TopTier);
                    assert(bucket_concat(added_old.push(rec), Bucket::TopTier) =~= bucket_concat(
                        added_old,
                        Bucket::TopTier,
                    ) + basara_buffer@);
                    assert(bucket_concat(added_old.push(rec), Bucket::Common) =~= bucket_concat(
                        added_old,
                        Bucket::Common,
                    ));
                    assert(bucket_concat(added_old.push(rec), Bucket::Promoted) =~= bucket_concat(
                        added_old,
                        Bucket::Promoted,
                    ));
                }
                basara_buffer = Vec::new();
            },
            Err(e) => {
                proof {
                    lemma_partial_exit(
                        store.flushed@.skip(log0.len() as int),
                        char_buffer@,
                        hero_buffer@,
                        basara_buffer@,
                        sent0,
                        char_name_req_tx.sent@,
                        run,
                        run,
                    );
                }
                return Err(PipelineError::Store(e));
            },
        }
    }
    proof {
        let added = store.flushed@.skip(log0.len() as int);
        assert(bucket_concat(added, Bucket::Common) =~= bucket_concat(added, Bucket::Common) + char_buffer@);
        assert(bucket_concat(added, Bucket::Promoted) =~= bucket_concat(added, Bucket::Promoted) + hero_buffer@);
        assert(bucket_concat(added, Bucket::TopTier) =~= bucket_concat(added, Bucket::TopTier) + basara_buffer@);
        assert forall|b: Bucket| #[trigger] bucket_concat(added, b) == bucket_seq(run, b) by {
            match b {
                Bucket::Common => {},
                Bucket::Promoted => {},
                Bucket::TopTier => {},
            }
        }
        assert(char_name_req_tx.sent@.skip(sent0.len() as int) =~= run.requests);
        lemma_partial_exit(
            added,
            char_buffer@,
            hero_buffer@,
            basara_buffer@,
            sent0,
            char_name_req_tx.sent@,
            run,
            run,
        );
    }
    Ok(ignored)
}

pub const CREATE_CHARACTERS_SQL: &'static str = "CREATE TABLE IF NOT EXISTS characters (
    index_id        INTEGER PRIMARY KEY,
    name_id         INTEGER NOT NULL,
    element         INTEGER NOT NULL,
    main_position   INTEGER NOT NULL,
    alt_position    INTEGER NOT NULL,
    style           INTEGER NOT NULL,
    series_id       INTEGER NOT NULL,

    lvl50_kick          INTEGER,
    lvl50_control       INTEGER,
    lvl50_technique     INTEGER,
    lvl50_pressure      INTEGER,
    lvl50_physical      INTEGER,
    lvl50_agility       INTEGER,
    lvl50_intelligence  INTEGER,

    lvl99_kick          INTEGER,
    lvl99_control       INTEGER,
    lvl99_technique     INTEGER,
    lvl99_pressure      INTEGER,
    lvl99_physical      INTEGER,
    lvl99_agility       INTEGER,
    lvl99_intelligence  INTEGER
);";

pub const CREATE_HEROES_SQL: &'static str = "CREATE TABLE IF NOT EXISTS heroes (
    index_id        INTEGER NOT NULL,
    name_id         INTEGER NOT NULL,
    element         INTEGER NOT NULL,
    main_position   INTEGER NOT NULL,
    alt_position    INTEGER NOT NULL,
    style           INTEGER NOT NULL,
    series_id       INTEGER NOT NULL,

    lvl50_kick          INTEGER,
    lvl50_control       INTEGER,
    lvl50_technique     INTEGER,
    lvl50_pressure      INTEGER,
    lvl50_physical      INTEGER,
    lvl50_agility       INTEGER,
    lvl50_intelligence  INTEGER,

    lvl99_kick          INTEGER,
    lvl99_control       INTEGER,
    lvl99_technique     INTEGER,
    lvl99_pressure      INTEGER,
    lvl99_physical      INTEGER,
    lvl99_agility       INTEGER,
    lvl99_intelligence  INTEGER
);";

pub const CREATE_BASARAS_SQL: &'static str = "CREATE TABLE IF NOT EXISTS basaras (
    index_id        INTEGER NOT NULL,
    name_id         INTEGER NOT NULL,
    element         INTEGER NOT NULL,
    main_position   INTEGER NOT NULL,
    alt_position    INTEGER NOT NULL,
    style           INTEGER NOT NULL,
    series_id       INTEGER NOT NULL,

    lvl50_kick          INTEGER,
    lvl50_control       INTEGER,
    lvl50_technique     INTEGER,
    lvl50_pressure      INTEGER,
    lvl50_physical      INTEGER,
    lvl50_agility       INTEGER,
    lvl50_intelligence  INTEGER,

    lvl99_kick          INTEGER,
    lvl99_control       INTEGER,
    lvl99_technique     INTEGER,
    lvl99_pressure      INTEGER,
    lvl99_physical      INTEGER,
    lvl99_agility       INTEGER,
    lvl99_intelligence  INTEGER
);";

pub const INSERT_CHARACTERS_SQL: &'static str = "INSERT INTO characters (
    index_id, name_id, element, main_position, alt_position, style, series_id,
    lvl50_kick, lvl50_control, lvl50_technique, lvl50_pressure,
    lvl50_physical, lvl50_agility, lvl50_intelligence,
    lvl99_kick, lvl99_control, lvl99_technique, lvl99_pressure,
    lvl99_physical, lvl99_agility, lvl99_intelligence
) VALUES (?1, ?2, ?3, ?4, ?5, ?6, ?7,
            ?8, ?9, ?10, ?11, ?12, ?13, ?14,
            ?15, ?16, ?17, ?18, ?19, ?20, ?21)
ON CONFLICT(index_id) DO NOTHING";

pub const INSERT_HEROES_SQL: &'static str = "INSERT INTO heroes (
    index_id, name_id, element, main_position, alt_position, style, series_id,
    lvl50_kick, lvl50_control, lvl50_technique, lvl50_pressure,
    lvl50_physical, lvl50_agility, lvl50_intelligence,
    lvl99_kick, lvl99_control, lvl99_technique, lvl99_pressure,
    lvl99_physical, lvl99_agility, lvl99_intelligence
) VALUES (?1, ?2, ?3, ?4, ?5, ?6, ?7,
            ?8, ?9, ?10, ?11, ?12, ?13, ?14,
            ?15, ?16, ?17, ?18, ?19, ?20, ?21)";

pub const INSERT_BASARAS_SQL: &'static str = "INSERT INTO basaras (
    index_id, name_id, element, main_position, alt_position, style, series_id,
    lvl50_kick, lvl50_control, lvl50_technique, lvl50_pressure,
    lvl50_physical, lvl50_agility, lvl50_intelligence,
    lvl99_kick, lvl99_control, lvl99_technique, lvl99_pressure,
    lvl99_physical, lvl99_agility, lvl99_intelligence
) VALUES (?1, ?2, ?3, ?4, ?5, ?6, ?7,
            ?8, ?9, ?10, ?11, ?12, ?13, ?14,
            ?15, ?16, ?17, ?18, ?19, ?20, ?21)";

} // verus!
