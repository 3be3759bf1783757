//! The self-modifying-code census, and the identities that make it evidence.

use vstd::prelude::*;

use crate::json::{array, no_fields, null, numbers, object, put, put_number, put_text, rows, same};
#[allow(unused_imports)]
use crate::json::{json_of, models, num_array, JsonModel};
#[allow(unused_imports)]
use crate::json::{number_under, text_under, under};

verus! {

/// The work units inside the invalidation choke point.
#[derive(Clone, Copy, Debug, Default)]
pub struct SmcUnits {
    pub choke_calls: u64,
    pub choke_block_only: u64,
    pub choke_narrow_only: u64,
    pub choke_both: u64,
    pub choke_neither: u64,
    pub choke_wholesale: u64,
    pub scan_calls: u64,
    pub scan_calls_no_kill: u64,
    pub scan_calls_lane_only: u64,
    pub scan_calls_kill: u64,
    pub scan_calls_absent_page: u64,
    pub keys_no_kill: u64,
    pub keys_lane_only: u64,
    pub keys_kill: u64,
    pub keys_surviving_in_kill_calls: u64,
    pub page_visits: u64,
    pub page_removes: u64,
    pub page_absent: u64,
    pub page_reinserts: u64,
    pub page_dropped_empty: u64,
    pub window_searches: u64,
    pub page_keys_len_sum: u64,
    pub window_len_sum: u64,
    pub keys_scanned: u64,
    pub entries_get_misses: u64,
    pub probes_elided: u64,
    pub entries_get_calls: u64,
    pub probe_divergences: u64,
    pub point_rows_scanned: u64,
    pub keys_killed: u64,
    pub keys_surviving: u64,
    pub lane_accept_keys: u64,
    pub survivors_moved: u64,
    pub drain_calls: u64,
    pub drain_elements: u64,
    pub waiting_retain_calls: u64,
    pub waiting_map_len_sum: u64,
    pub waiting_sources_visited: u64,
    pub waiting_entries_dropped: u64,
    pub retire_calls: u64,
    pub retire_calls_effective: u64,
    pub unlink_calls: u64,
    pub unlink_calls_effective: u64,
    pub inbound_links_walked: u64,
    pub inbound_links_reparked: u64,
    pub decode_dependency_slots: u64,
    pub release_range_bytes: u64,
}

/// What [`smc_units_json`] gives.
pub open spec fn smc_units_model(u: SmcUnits) -> JsonModel {
    JsonModel::Obj(
        map![
            "choke_calls"@ => JsonModel::Num(u.choke_calls as int),
            "choke_block_only"@ => JsonModel::Num(u.choke_block_only as int),
            "choke_narrow_only"@ => JsonModel::Num(u.choke_narrow_only as int),
            "choke_both"@ => JsonModel::Num(u.choke_both as int),
            "choke_neither"@ => JsonModel::Num(u.choke_neither as int),
            "choke_wholesale"@ => JsonModel::Num(u.choke_wholesale as int),
            "scan_calls"@ => JsonModel::Num(u.scan_calls as int),
            "scan_calls_no_kill"@ => JsonModel::Num(u.scan_calls_no_kill as int),
            "scan_calls_lane_only"@ => JsonModel::Num(u.scan_calls_lane_only as int),
            "scan_calls_kill"@ => JsonModel::Num(u.scan_calls_kill as int),
            "scan_calls_absent_page"@ => JsonModel::Num(u.scan_calls_absent_page as int),
            "keys_no_kill"@ => JsonModel::Num(u.keys_no_kill as int),
            "keys_lane_only"@ => JsonModel::Num(u.keys_lane_only as int),
            "keys_kill"@ => JsonModel::Num(u.keys_kill as int),
            "keys_surviving_in_kill_calls"@ => JsonModel::Num(
                u.keys_surviving_in_kill_calls as int,
            ),
            "page_visits"@ => JsonModel::Num(u.page_visits as int),
            "page_removes"@ => JsonModel::Num(u.page_removes as int),
            "page_absent"@ => JsonModel::Num(u.page_absent as int),
            "page_reinserts"@ => JsonModel::Num(u.page_reinserts as int),
            "page_dropped_empty"@ => JsonModel::Num(u.page_dropped_empty as int),
            "window_searches"@ => JsonModel::Num(u.window_searches as int),
            "page_keys_len_sum"@ => JsonModel::Num(u.page_keys_len_sum as int),
            "window_len_sum"@ => JsonModel::Num(u.window_len_sum as int),
            "keys_scanned"@ => JsonModel::Num(u.keys_scanned as int),
            "entries_get_misses"@ => JsonModel::Num(u.entries_get_misses as int),
            "probes_elided"@ => JsonModel::Num(u.probes_elided as int),
            "entries_get_calls"@ => JsonModel::Num(u.entries_get_calls as int),
            "probe_divergences"@ => JsonModel::Num(u.probe_divergences as int),
            "point_rows_scanned"@ => JsonModel::Num(u.point_rows_scanned as int),
            "keys_killed"@ => JsonModel::Num(u.keys_killed as int),
            "keys_surviving"@ => JsonModel::Num(u.keys_surviving as int),
            "lane_accept_keys"@ => JsonModel::Num(u.lane_accept_keys as int),
            "survivors_moved"@ => JsonModel::Num(u.survivors_moved as int),
            "drain_calls"@ => JsonModel::Num(u.drain_calls as int),
            "drain_elements"@ => JsonModel::Num(u.drain_elements as int),
            "waiting_retain_calls"@ => JsonModel::Num(u.waiting_retain_calls as int),
            "waiting_map_len_sum"@ => JsonModel::Num(u.waiting_map_len_sum as int),
            "waiting_sources_visited"@ => JsonModel::Num(u.waiting_sources_visited as int),
            "waiting_entries_dropped"@ => JsonModel::Num(u.waiting_entries_dropped as int),
            "retire_calls"@ => JsonModel::Num(u.retire_calls as int),
            "retire_calls_effective"@ => JsonModel::Num(u.retire_calls_effective as int),
            "unlink_calls"@ => JsonModel::Num(u.unlink_calls as int),
            "unlink_calls_effective"@ => JsonModel::Num(u.unlink_calls_effective as int),
            "inbound_links_walked"@ => JsonModel::Num(u.inbound_links_walked as int),
            "inbound_links_reparked"@ => JsonModel::Num(u.inbound_links_reparked as int),
            "decode_dependency_slots"@ => JsonModel::Num(u.decode_dependency_slots as int),
            "release_range_bytes"@ => JsonModel::Num(u.release_range_bytes as int),
        ],
    )
}

/// The work units as an object.
fn smc_units_json(u: &SmcUnits) -> (value: serde_json::Value)
    ensures
        json_of(value) == smc_units_model(*u),
{
    let mut fields = no_fields();
    put_number(&mut fields, "choke_calls", u.choke_calls);
    put_number(&mut fields, "choke_block_only", u.choke_block_only);
    put_number(&mut fields, "choke_narrow_only", u.choke_narrow_only);
    put_number(&mut fields, "choke_both", u.choke_both);
    put_number(&mut fields, "choke_neither", u.choke_neither);
    put_number(&mut fields, "choke_wholesale", u.choke_wholesale);
    put_number(&mut fields, "scan_calls", u.scan_calls);
    put_number(&mut fields, "scan_calls_no_kill", u.scan_calls_no_kill);
    put_number(&mut fields, "scan_calls_lane_only", u.scan_calls_lane_only);
    put_number(&mut fields, "scan_calls_kill", u.scan_calls_kill);
    put_number(&mut fields, "scan_calls_absent_page", u.scan_calls_absent_page);
    put_number(&mut fields, "keys_no_kill", u.keys_no_kill);
    put_number(&mut fields, "keys_lane_only", u.keys_lane_only);
    put_number(&mut fields, "keys_kill", u.keys_kill);
    put_number(&mut fields, "keys_surviving_in_kill_calls", u.keys_surviving_in_kill_calls);
    put_number(&mut fields, "page_visits", u.page_visits);
    put_number(&mut fields, "page_removes", u.page_removes);
    put_number(&mut fields, "page_absent", u.page_absent);
    put_number(&mut fields, "page_reinserts", u.page_reinserts);
    put_number(&mut fields, "page_dropped_empty", u.page_dropped_empty);
    put_number(&mut fields, "window_searches", u.window_searches);
    put_number(&mut fields, "page_keys_len_sum", u.page_keys_len_sum);
    put_number(&mut fields, "window_len_sum", u.window_len_sum);
    put_number(&mut fields, "keys_scanned", u.keys_scanned);
    put_number(&mut fields, "entries_get_misses", u.entries_get_misses);
    put_number(&mut fields, "probes_elided", u.probes_elided);
    put_number(&mut fields, "entries_get_calls", u.entries_get_calls);
    put_number(&mut fields, "probe_divergences", u.probe_divergences);
    put_number(&mut fields, "point_rows_scanned", u.point_rows_scanned);
    put_number(&mut fields, "keys_killed", u.keys_killed);
    put_number(&mut fields, "keys_surviving", u.keys_surviving);
    put_number(&mut fields, "lane_accept_keys", u.lane_accept_keys);
    put_number(&mut fields, "survivors_moved", u.survivors_moved);
    put_number(&mut fields, "drain_calls", u.drain_calls);
    put_number(&mut fields, "drain_elements", u.drain_elements);
    put_number(&mut fields, "waiting_retain_calls", u.waiting_retain_calls);
    put_number(&mut fields, "waiting_map_len_sum", u.waiting_map_len_sum);
    put_number(&mut fields, "waiting_sources_visited", u.waiting_sources_visited);
    put_number(&mut fields, "waiting_entries_dropped", u.waiting_entries_dropped);
    put_number(&mut fields, "retire_calls", u.retire_calls);
    put_number(&mut fields, "retire_calls_effective", u.retire_calls_effective);
    put_number(&mut fields, "unlink_calls", u.unlink_calls);
    put_number(&mut fields, "unlink_calls_effective", u.unlink_calls_effective);
    put_number(&mut fields, "inbound_links_walked", u.inbound_links_walked);
    put_number(&mut fields, "inbound_links_reparked", u.inbound_links_reparked);
    put_number(&mut fields, "decode_dependency_slots", u.decode_dependency_slots);
    put_number(&mut fields, "release_range_bytes", u.release_range_bytes);
    object(fields)
}

/// What scans did to one page, or to all pages.
#[derive(Clone, Copy, Debug, Default)]
pub struct SmcPageCounts {
    pub page_visits: u64,
    pub keys_scanned: u64,
    pub keys_killed: u64,
    pub keys_surviving: u64,
    pub lane_accepts: u64,
    pub no_kill_visits: u64,
    pub page_keys_len_sum: u64,
}

/// What [`smc_census_page_counts_json`] gives.
pub open spec fn smc_page_counts_model(counts: SmcPageCounts) -> JsonModel {
    JsonModel::Obj(
        map![
            "page_visits"@ => JsonModel::Num(counts.page_visits as int),
            "keys_scanned"@ => JsonModel::Num(counts.keys_scanned as int),
            "keys_killed"@ => JsonModel::Num(counts.keys_killed as int),
            "keys_surviving"@ => JsonModel::Num(counts.keys_surviving as int),
            "lane_accepts"@ => JsonModel::Num(counts.lane_accepts as int),
            "no_kill_visits"@ => JsonModel::Num(counts.no_kill_visits as int),
            "page_keys_len_sum"@ => JsonModel::Num(counts.page_keys_len_sum as int),
        ],
    )
}

/// The page counts as an object.
pub fn smc_census_page_counts_json(counts: &SmcPageCounts) -> (value: serde_json::Value)
    ensures
        json_of(value) == smc_page_counts_model(*counts),
{
    let mut fields = no_fields();
    put_number(&mut fields, "page_visits", counts.page_visits);
    put_number(&mut fields, "keys_scanned", counts.keys_scanned);
    put_number(&mut fields, "keys_killed", counts.keys_killed);
    put_number(&mut fields, "keys_surviving", counts.keys_surviving);
    put_number(&mut fields, "lane_accepts", counts.lane_accepts);
    put_number(&mut fields, "no_kill_visits", counts.no_kill_visits);
    put_number(&mut fields, "page_keys_len_sum", counts.page_keys_len_sum);
    object(fields)
}

/// One ranked page: its counts, and how far above the truth they may lie.
#[derive(Clone, Copy, Debug, Default)]
pub struct SmcPageRow {
    pub page: u32,
    pub counts: SmcPageCounts,
    pub error: SmcPageCounts,
}

/// One phase of the census.
#[derive(Debug, Default)]
pub struct SmcPhase {
    pub label: String,
    pub units: SmcUnits,
    pub page_totals: SmcPageCounts,
    pub page_rows_capacity: u32,
    pub page_slot_claims: u64,
    pub page_displacements: u64,
    pub pages: Vec<SmcPageRow>,
}

/// The census: the whole run, and the part of it inside the window.
#[derive(Debug, Default)]
pub struct SmcSnapshot {
    pub whole_run: SmcPhase,
    pub windowed: SmcPhase,
    pub window: Option<(u64, u64)>,
    pub clock: u64,
}

/// The always-on counters that the census has to agree with.
#[derive(Clone, Copy, Debug, Default)]
pub struct SmcProductionCounters {
    pub smc_scan_calls: u64,
    pub smc_scan_keys: u64,
    pub smc_lane_accepts: u64,
}

// ---------------------------------------------------------------------------
// Closure
// ---------------------------------------------------------------------------

/// The work units close: every split adds up to what was split.
pub open spec fn units_closed(u: SmcUnits) -> bool {
    &&& u.choke_calls == u.choke_block_only + u.choke_narrow_only + u.choke_both + u.choke_neither
    &&& u.scan_calls == u.scan_calls_no_kill + u.scan_calls_lane_only + u.scan_calls_kill
    &&& u.keys_scanned == u.keys_no_kill + u.keys_lane_only + u.keys_kill
    &&& u.keys_scanned == u.window_len_sum
    &&& u.keys_scanned == u.probes_elided + u.entries_get_misses + u.keys_surviving
        + u.lane_accept_keys + u.keys_killed
    &&& u.keys_scanned == u.probes_elided + u.entries_get_calls
    &&& u.entries_get_calls == u.keys_killed + u.keys_surviving + u.lane_accept_keys
        + u.entries_get_misses
    &&& u.probe_divergences == 0
    &&& u.point_rows_scanned == 0
    &&& u.survivors_moved == u.keys_surviving + u.lane_accept_keys + u.probes_elided
    &&& u.page_visits == u.page_removes + u.page_absent
    &&& u.page_removes == u.page_reinserts + u.page_dropped_empty
    &&& u.window_searches == u.page_removes
    &&& u.waiting_retain_calls == 2 * u.unlink_calls_effective
    &&& u.unlink_calls == u.retire_calls_effective
    &&& u.unlink_calls_effective == u.unlink_calls
}

/// The page totals agree with the work units, and the page visits that killed
/// something are neither fewer than the killing calls nor more than the kills.
pub open spec fn totals_closed(u: SmcUnits, t: SmcPageCounts) -> bool {
    &&& t.page_visits == u.page_removes
    &&& t.keys_scanned == u.keys_scanned
    &&& t.keys_killed == u.keys_killed
    &&& t.keys_surviving == u.keys_surviving
    &&& t.lane_accepts == u.lane_accept_keys
    &&& t.page_keys_len_sum == u.page_keys_len_sum
    &&& t.no_kill_visits <= u.page_removes
    &&& u.scan_calls_kill <= u.page_removes - t.no_kill_visits <= u.keys_killed
}

/// A row's error bounds do not exceed its counts.
pub open spec fn row_bounded(row: SmcPageRow) -> bool {
    &&& row.error.keys_killed <= row.counts.keys_killed
    &&& row.error.keys_scanned <= row.counts.keys_scanned
    &&& row.error.page_visits <= row.counts.page_visits
}

/// The kills that the rows certainly saw.
pub open spec fn lower_sum(rows: Seq<SmcPageRow>) -> int
    decreases rows.len(),
{
    if rows.len() == 0 {
        0
    } else {
        lower_sum(rows.drop_last()) + rows.last().counts.keys_killed - rows.last().error.keys_killed
    }
}

/// The page rows are ranked by kills, bounded, and together certain of no more
/// kills than there were.
pub open spec fn rows_closed(rows: Seq<SmcPageRow>, kills: u64) -> bool {
    &&& forall|i: int| 0 <= i < rows.len() ==> row_bounded(#[trigger] rows[i])
    &&& forall|i: int, j: int|
        0 <= i <= j < rows.len() ==> (#[trigger] rows[j]).counts.keys_killed <= (
        #[trigger] rows[i]).counts.keys_killed
    &&& lower_sum(rows) <= kills
}

/// A phase closes. One that does not is no evidence.
pub open spec fn phase_closed(p: SmcPhase) -> bool {
    &&& units_closed(p.units)
    &&& totals_closed(p.units, p.page_totals)
    &&& rows_closed(p.pages@, p.page_totals.keys_killed)
    &&& p.pages@.len() <= p.page_rows_capacity
    &&& p.page_slot_claims == p.pages@.len() + p.page_displacements
}

/// Whether the work units close.
fn units_close(u: &SmcUnits) -> (closed: bool)
    ensures
        closed == units_closed(*u),
{
    u.choke_calls as u128 == u.choke_block_only as u128 + u.choke_narrow_only as u128
        + u.choke_both as u128 + u.choke_neither as u128
        && u.scan_calls as u128 == u.scan_calls_no_kill as u128 + u.scan_calls_lane_only as u128
        + u.scan_calls_kill as u128
        && u.keys_scanned as u128 == u.keys_no_kill as u128 + u.keys_lane_only as u128
        + u.keys_kill as u128
        && u.keys_scanned == u.window_len_sum
        && u.keys_scanned as u128 == u.probes_elided as u128 + u.entries_get_misses as u128
        + u.keys_surviving as u128 + u.lane_accept_keys as u128 + u.keys_killed as u128
        && u.keys_scanned as u128 == u.probes_elided as u128 + u.entries_get_calls as u128
        && u.entries_get_calls as u128 == u.keys_killed as u128 + u.keys_surviving as u128
        + u.lane_accept_keys as u128 + u.entries_get_misses as u128
        && u.probe_divergences == 0
        && u.point_rows_scanned == 0
        && u.survivors_moved as u128 == u.keys_surviving as u128 + u.lane_accept_keys as u128
        + u.probes_elided as u128
        && u.page_visits as u128 == u.page_removes as u128 + u.page_absent as u128
        && u.page_removes as u128 == u.page_reinserts as u128 + u.page_dropped_empty as u128
        && u.window_searches == u.page_removes
        && u.waiting_retain_calls as u128 == 2 * (u.unlink_calls_effective as u128)
        && u.unlink_calls == u.retire_calls_effective
        && u.unlink_calls_effective == u.unlink_calls
}

/// Whether the page totals agree with the work units.
fn totals_close(u: &SmcUnits, t: &SmcPageCounts) -> (closed: bool)
    ensures
        closed == totals_closed(*u, *t),
{
    t.page_visits == u.page_removes && t.keys_scanned == u.keys_scanned && t.keys_killed
        == u.keys_killed && t.keys_surviving == u.keys_surviving && t.lane_accepts
        == u.lane_accept_keys && t.page_keys_len_sum == u.page_keys_len_sum && t.no_kill_visits
        <= u.page_removes && u.scan_calls_kill <= u.page_removes - t.no_kill_visits
        && u.page_removes - t.no_kill_visits <= u.keys_killed
}

/// Whether the page rows are ranked, bounded, and within the kills.
fn rows_close(rows: &Vec<SmcPageRow>, kills: u64) -> (closed: bool)
    ensures
        closed == rows_closed(rows@, kills),
{
    let mut sum: u128 = 0;
    let mut i: usize = 0;
    assert(rows@.take(0) =~= Seq::empty());
    while i < rows.len()
        invariant
            i <= rows@.len(),
            sum == lower_sum(rows@.take(i as int)),
            sum <= i * u64::MAX,
            forall|k: int| 0 <= k < i ==> row_bounded(#[trigger] rows@[k]),
            forall|j: int, k: int|
                0 <= j <= k < i ==> (#[trigger] rows@[k]).counts.keys_killed <= (
                #[trigger] rows@[j]).counts.keys_killed,
        decreases rows@.len() - i,
    {
        let row: SmcPageRow = rows[i];
        if i > 0 && row.counts.keys_killed > rows[i - 1].counts.keys_killed {
            assert(rows@[i as int].counts.keys_killed > rows@[i - 1].counts.keys_killed);
            return false;
        }
        if row.error.keys_killed > row.counts.keys_killed || row.error.keys_scanned
            > row.counts.keys_scanned || row.error.page_visits > row.counts.page_visits {
            assert(!row_bounded(rows@[i as int]));
            return false;
        }
        proof {
            assert(rows@.take(i + 1).drop_last() =~= rows@.take(i as int));
            assert(i * u64::MAX <= usize::MAX * u64::MAX) by (nonlinear_arith)
                requires
                    i <= usize::MAX,
            ;
            assert(i * u64::MAX + u64::MAX == (i + 1) * u64::MAX) by (nonlinear_arith);
        }
        sum = sum + (row.counts.keys_killed - row.error.keys_killed) as u128;
        i = i + 1;
    }
    assert(rows@.take(rows@.len() as int) =~= rows@);
    sum <= kills as u128
}

/// Whether a phase closes.
pub fn smc_census_phase_closes(p: &SmcPhase) -> (closed: bool)
    ensures
        closed == phase_closed(*p),
{
    units_close(&p.units) && totals_close(&p.units, &p.page_totals) && rows_close(
        &p.pages,
        p.page_totals.keys_killed,
    ) && p.pages.len() as u64 <= p.page_rows_capacity as u64 && p.page_slot_claims as u128
        == p.pages.len() as u128 + p.page_displacements as u128
}

/// The census closes: against the always-on counters, and in each phase.
pub open spec fn census_closed(s: SmcSnapshot, perf: SmcProductionCounters) -> bool {
    let u = s.whole_run.units;
    &&& u.scan_calls == perf.smc_scan_calls
    &&& u.keys_scanned == perf.smc_scan_keys
    &&& u.lane_accept_keys == perf.smc_lane_accepts
    &&& u.choke_block_only + u.choke_both == perf.smc_scan_calls
    &&& phase_closed(s.whole_run)
    &&& phase_closed(s.windowed)
}

/// Whether the census closes.
pub fn smc_census_closes(s: &SmcSnapshot, perf: &SmcProductionCounters) -> (closed: bool)
    ensures
        closed == census_closed(*s, *perf),
{
    let u: &SmcUnits = &s.whole_run.units;
    u.scan_calls == perf.smc_scan_calls && u.keys_scanned == perf.smc_scan_keys
        && u.lane_accept_keys == perf.smc_lane_accepts && u.choke_block_only as u128
        + u.choke_both as u128 == perf.smc_scan_calls as u128 && smc_census_phase_closes(
        &s.whole_run,
    ) && smc_census_phase_closes(&s.windowed)
}

// ---------------------------------------------------------------------------
// The report
// ---------------------------------------------------------------------------

/// One ranked page.
pub open spec fn smc_page_row_model(row: SmcPageRow) -> JsonModel {
    JsonModel::Obj(
        map![
            "page"@ => JsonModel::Num(row.page as int),
            "physical_base"@ => JsonModel::Num(row.page as int * 4096),
            "counts"@ => smc_page_counts_model(row.counts),
            "error"@ => smc_page_counts_model(row.error),
        ],
    )
}

/// One ranked page as an object.
fn smc_page_row_json(row: &SmcPageRow) -> (value: serde_json::Value)
    ensures
        json_of(value) == smc_page_row_model(*row),
{
    let mut fields = no_fields();
    put_number(&mut fields, "page", row.page as u64);
    put_number(&mut fields, "physical_base", row.page as u64 * 4096);
    put(&mut fields, "counts", smc_census_page_counts_json(&row.counts));
    put(&mut fields, "error", smc_census_page_counts_json(&row.error));
    object(fields)
}

/// The pages that the top share is taken over.
pub open spec fn top_rows(rows: Seq<SmcPageRow>) -> Seq<SmcPageRow> {
    if rows.len() <= 4 {
        rows
    } else {
        rows.take(4)
    }
}

/// The derived ratios of a phase, each as a numerator and a denominator, in the
/// order in which they are reported.
pub open spec fn ratio_terms(p: SmcPhase) -> Seq<(int, int)> {
    let u = p.units;
    let kills = p.page_totals.keys_killed as int;
    seq![
        (lower_sum(top_rows(p.pages@)), kills),
        (kills, p.page_rows_capacity as int),
        (u.keys_surviving as int, u.keys_scanned as int),
        (u.probes_elided as int, u.keys_scanned as int),
        (u.keys_no_kill as int, u.keys_scanned as int),
        (u.page_keys_len_sum as int, u.page_removes as int),
        (u.window_len_sum as int, u.page_removes as int),
        (u.waiting_map_len_sum as int, u.waiting_retain_calls as int),
    ]
}

/// A prefix of bounded rows is certain of no more kills than all of them.
proof fn lemma_lower_sum_grows(rows: Seq<SmcPageRow>, n: int)
    requires
        0 <= n <= rows.len(),
        forall|i: int| 0 <= i < rows.len() ==> row_bounded(#[trigger] rows[i]),
    ensures
        0 <= lower_sum(rows.take(n)) <= lower_sum(rows),
    decreases rows.len(),
{
    if n == rows.len() {
        assert(rows.take(n) =~= rows);
        if n > 0 {
            lemma_lower_sum_grows(rows.drop_last(), n - 1);
            assert(rows.drop_last().take(n - 1) =~= rows.drop_last());
            assert(row_bounded(rows[n - 1]));
        }
    } else {
        lemma_lower_sum_grows(rows.drop_last(), n);
        assert(rows.drop_last().take(n) =~= rows.take(n));
        assert(row_bounded(rows[rows.len() - 1]));
    }
}

/// The kills that the top rows certainly saw.
fn top_lower_sum(rows: &Vec<SmcPageRow>, kills: u64) -> (sum: u64)
    requires
        rows_closed(rows@, kills),
    ensures
        sum == lower_sum(top_rows(rows@)),
{
    let n: usize = if rows.len() <= 4 {
        rows.len()
    } else {
        4
    };
    let mut sum: u64 = 0;
    let mut i: usize = 0;
    assert(rows@.take(0) =~= Seq::empty());
    while i < n
        invariant
            i <= n <= rows@.len(),
            rows_closed(rows@, kills),
            sum == lower_sum(rows@.take(i as int)),
        decreases n - i,
    {
        proof {
            assert(rows@.take(i + 1).drop_last() =~= rows@.take(i as int));
            assert(row_bounded(rows@[i as int]));
            lemma_lower_sum_grows(rows@, i + 1);
        }
        sum = sum + (rows[i].counts.keys_killed - rows[i].error.keys_killed);
        i = i + 1;
    }
    assert(rows@.take(n as int) =~= top_rows(rows@));
    sum
}

/// The derived ratios of a phase as numerators and denominators.
pub fn smc_ratio_terms(p: &SmcPhase) -> (terms: Vec<(u64, u64)>)
    requires
        phase_closed(*p),
    ensures
        terms@.len() == ratio_terms(*p).len(),
        forall|i: int|
            0 <= i < terms@.len() ==> (#[trigger] terms@[i]).0 == ratio_terms(*p)[i].0
                && terms@[i].1 == ratio_terms(*p)[i].1,
{
    let u: &SmcUnits = &p.units;
    let kills: u64 = p.page_totals.keys_killed;
    vec![
        (top_lower_sum(&p.pages, kills), kills),
        (kills, p.page_rows_capacity as u64),
        (u.keys_surviving, u.keys_scanned),
        (u.probes_elided, u.keys_scanned),
        (u.keys_no_kill, u.keys_scanned),
        (u.page_keys_len_sum, u.page_removes),
        (u.window_len_sum, u.page_removes),
        (u.waiting_map_len_sum, u.waiting_retain_calls),
    ]
}

/// What the `i`-th derived ratio is reported as: `null` over a zero denominator,
/// else the quotient.
pub open spec fn ratio_model(p: SmcPhase, quotients: Seq<serde_json::Value>, i: int) -> JsonModel {
    if ratio_terms(p)[i].1 == 0 {
        JsonModel::Null
    } else {
        json_of(quotients[i])
    }
}

/// The quotient, or `null` over a zero denominator.
fn ratio_or_null(denominator: u64, quotient: &serde_json::Value) -> (value: serde_json::Value)
    ensures
        json_of(value) == if denominator == 0 {
            JsonModel::Null
        } else {
            json_of(*quotient)
        },
{
    if denominator == 0 {
        null()
    } else {
        same(quotient)
    }
}

/// One phase of the census. `quotients` are the derived ratios as JSON numbers.
pub open spec fn smc_phase_model(p: SmcPhase, quotients: Seq<serde_json::Value>) -> JsonModel {
    JsonModel::Obj(
        map![
            "label"@ => JsonModel::Str(p.label@),
            "units"@ => smc_units_model(p.units),
            "page_totals"@ => smc_page_counts_model(p.page_totals),
            "page_rows_capacity"@ => JsonModel::Num(p.page_rows_capacity as int),
            "page_slot_claims"@ => JsonModel::Num(p.page_slot_claims as int),
            "page_displacements"@ => JsonModel::Num(p.page_displacements as int),
            "pages"@ => JsonModel::Arr(
                p.pages@.map_values(|row: SmcPageRow| smc_page_row_model(row)),
            ),
            "derived"@ => JsonModel::Obj(
                map![
                    "r1_s4_lower"@ => ratio_model(p, quotients, 0),
                    "r1_space_saving_error_bound"@ => ratio_model(p, quotients, 1),
                    "r2_w_surviving"@ => ratio_model(p, quotients, 2),
                    "c1_probes_elided_share"@ => ratio_model(p, quotients, 3),
                    "r2_w_no_kill_calls"@ => ratio_model(p, quotients, 4),
                    "mean_page_occupancy"@ => ratio_model(p, quotients, 5),
                    "mean_window_length"@ => ratio_model(p, quotients, 6),
                    "mean_waiting_map_len"@ => ratio_model(p, quotients, 7),
                ],
            ),
        ],
    )
}

/// One phase of the census as an object. `quotients` are the terms of
/// [`smc_ratio_terms`] divided, as JSON numbers; one over a zero denominator is
/// not read.
pub fn smc_census_phase_json(p: &SmcPhase, quotients: &Vec<serde_json::Value>) -> (value:
    serde_json::Value)
    requires
        quotients@.len() == 8,
    ensures
        json_of(value) == smc_phase_model(*p, quotients@),
{
    let u: &SmcUnits = &p.units;
    let kills: u64 = p.page_totals.keys_killed;
    let mut derived = no_fields();
    put(&mut derived, "r1_s4_lower", ratio_or_null(kills, &quotients[0]));
    put(
        &mut derived,
        "r1_space_saving_error_bound",
        ratio_or_null(p.page_rows_capacity as u64, &quotients[1]),
    );
    put(&mut derived, "r2_w_surviving", ratio_or_null(u.keys_scanned, &quotients[2]));
    put(&mut derived, "c1_probes_elided_share", ratio_or_null(u.keys_scanned, &quotients[3]));
    put(&mut derived, "r2_w_no_kill_calls", ratio_or_null(u.keys_scanned, &quotients[4]));
    put(&mut derived, "mean_page_occupancy", ratio_or_null(u.page_removes, &quotients[5]));
    put(&mut derived, "mean_window_length", ratio_or_null(u.page_removes, &quotients[6]));
    put(&mut derived, "mean_waiting_map_len", ratio_or_null(u.waiting_retain_calls, &quotients[7]));
    let mut fields = no_fields();
    put_text(&mut fields, "label", p.label.as_str());
    put(&mut fields, "units", smc_units_json(&p.units));
    put(&mut fields, "page_totals", smc_census_page_counts_json(&p.page_totals));
    put_number(&mut fields, "page_rows_capacity", p.page_rows_capacity as u64);
    put_number(&mut fields, "page_slot_claims", p.page_slot_claims);
    put_number(&mut fields, "page_displacements", p.page_displacements);
    put(
        &mut fields,
        "pages",
        rows(&p.pages, smc_page_row_json, Ghost(|row: SmcPageRow| smc_page_row_model(row))),
    );
    put(&mut fields, "derived", object(derived));
    object(fields)
}

/// The window of instructions that the windowed phase covers.
pub open spec fn window_model(window: Option<(u64, u64)>) -> JsonModel {
    match window {
        Some((start, end)) => num_array(seq![start, end]),
        None => JsonModel::Null,
    }
}

/// What [`smc_census_json`] gives.
pub open spec fn smc_census_model(
    snapshot: Option<SmcSnapshot>,
    whole_quotients: Seq<serde_json::Value>,
    windowed_quotients: Seq<serde_json::Value>,
) -> JsonModel {
    match snapshot {
        None => JsonModel::Null,
        Some(s) => JsonModel::Obj(
            map![
                "schema"@ => JsonModel::Str("izarravm-smc-census-v1"@),
                "stage"@ => JsonModel::Str("A"@),
                "window"@ => window_model(s.window),
                "clock_instructions"@ => JsonModel::Num(s.clock as int),
                "r0_smc_wall_source"@ => JsonModel::Str(
                    "external RIP-sample profile (samply) of a census-off release build"@,
                ),
                "phases"@ => JsonModel::Arr(
                    seq![
                        smc_phase_model(s.whole_run, whole_quotients),
                        smc_phase_model(s.windowed, windowed_quotients),
                    ],
                ),
            ],
        ),
    }
}

/// The census, or `null` where none was kept. One that does not close is not
/// reported.
pub fn smc_census_json(
    snapshot: &Option<SmcSnapshot>,
    perf: &SmcProductionCounters,
    whole_quotients: &Vec<serde_json::Value>,
    windowed_quotients: &Vec<serde_json::Value>,
) -> (value: serde_json::Value)
    requires
        snapshot matches Some(s) ==> census_closed(*s, *perf),
        whole_quotients@.len() == 8,
        windowed_quotients@.len() == 8,
    ensures
        json_of(value) == smc_census_model(*snapshot, whole_quotients@, windowed_quotients@),
{
    match snapshot {
        None => null(),
        Some(s) => {
            let mut phases: Vec<serde_json::Value> = Vec::new();
            phases.push(smc_census_phase_json(&s.whole_run, whole_quotients));
            phases.push(smc_census_phase_json(&s.windowed, windowed_quotients));
            proof {
                assert(models(phases@) =~= seq![
                    smc_phase_model(s.whole_run, whole_quotients@),
                    smc_phase_model(s.windowed, windowed_quotients@),
                ]);
            }
            let window = match s.window {
                Some((start, end)) => {
                    let ends: Vec<u64> = vec![start, end];
                    assert(ends@ =~= seq![start, end]);
                    numbers(&ends)
                },
                None => null(),
            };
            let mut fields = no_fields();
            put_text(&mut fields, "schema", "izarravm-smc-census-v1");
            put_text(&mut fields, "stage", "A");
            put(&mut fields, "window", window);
            put_number(&mut fields, "clock_instructions", s.clock);
            put_text(
                &mut fields,
                "r0_smc_wall_source",
                "external RIP-sample profile (samply) of a census-off release build",
            );
            put(&mut fields, "phases", array(phases));
            object(fields)
        },
    }
}

// ---------------------------------------------------------------------------
// By key
// ---------------------------------------------------------------------------

/// What tells the keys of the object apart.
proof fn lemma_smc_units_keys_differ()
    ensures
        "choke_calls"@.len() == 11 && "choke_calls"@[5] == '_' && "choke_calls"@[0] == 'c' && "choke_calls"@[8] == 'l',
        "choke_block_only"@.len() == 16 && "choke_block_only"@[5] == '_' && "choke_block_only"@[0] == 'c' && "choke_block_only"@[8] == 'o',
        "choke_narrow_only"@.len() == 17 && "choke_narrow_only"@[5] == '_' && "choke_narrow_only"@[0] == 'c' && "choke_narrow_only"@[8] == 'r',
        "choke_both"@.len() == 10 && "choke_both"@[5] == '_' && "choke_both"@[0] == 'c' && "choke_both"@[8] == 't',
        "choke_neither"@.len() == 13 && "choke_neither"@[5] == '_' && "choke_neither"@[0] == 'c' && "choke_neither"@[8] == 'i',
        "choke_wholesale"@.len() == 15 && "choke_wholesale"@[5] == '_' && "choke_wholesale"@[0] == 'c' && "choke_wholesale"@[8] == 'o',
        "scan_calls"@.len() == 10 && "scan_calls"@[5] == 'c' && "scan_calls"@[0] == 's' && "scan_calls"@[8] == 'l',
        "scan_calls_no_kill"@.len() == 18 && "scan_calls_no_kill"@[5] == 'c' && "scan_calls_no_kill"@[0] == 's' && "scan_calls_no_kill"@[8] == 'l',
        "scan_calls_lane_only"@.len() == 20 && "scan_calls_lane_only"@[5] == 'c' && "scan_calls_lane_only"@[0] == 's' && "scan_calls_lane_only"@[8] == 'l',
        "scan_calls_kill"@.len() == 15 && "scan_calls_kill"@[5] == 'c' && "scan_calls_kill"@[0] == 's' && "scan_calls_kill"@[8] == 'l',
        "scan_calls_absent_page"@.len() == 22 && "scan_calls_absent_page"@[5] == 'c' && "scan_calls_absent_page"@[0] == 's' && "scan_calls_absent_page"@[8] == 'l',
        "keys_no_kill"@.len() == 12 && "keys_no_kill"@[5] == 'n' && "keys_no_kill"@[0] == 'k' && "keys_no_kill"@[8] == 'k',
        "keys_lane_only"@.len() == 14 && "keys_lane_only"@[5] == 'l' && "keys_lane_only"@[0] == 'k' && "keys_lane_only"@[8] == 'e',
        "keys_kill"@.len() == 9 && "keys_kill"@[5] == 'k' && "keys_kill"@[0] == 'k' && "keys_kill"@[8] == 'l',
        "keys_surviving_in_kill_calls"@.len() == 28 && "keys_surviving_in_kill_calls"@[5] == 's' && "keys_surviving_in_kill_calls"@[0] == 'k' && "keys_surviving_in_kill_calls"@[8] == 'v',
        "page_visits"@.len() == 11 && "page_visits"@[5] == 'v' && "page_visits"@[0] == 'p' && "page_visits"@[8] == 'i',
        "page_removes"@.len() == 12 && "page_removes"@[5] == 'r' && "page_removes"@[0] == 'p' && "page_removes"@[8] == 'o',
        "page_absent"@.len() == 11 && "page_absent"@[5] == 'a' && "page_absent"@[0] == 'p' && "page_absent"@[8] == 'e',
        "page_reinserts"@.len() == 14 && "page_reinserts"@[5] == 'r' && "page_reinserts"@[0] == 'p' && "page_reinserts"@[8] == 'n',
        "page_dropped_empty"@.len() == 18 && "page_dropped_empty"@[5] == 'd' && "page_dropped_empty"@[0] == 'p' && "page_dropped_empty"@[8] == 'p',
        "window_searches"@.len() == 15 && "window_searches"@[5] == 'w' && "window_searches"@[0] == 'w' && "window_searches"@[8] == 'e',
        "page_keys_len_sum"@.len() == 17 && "page_keys_len_sum"@[5] == 'k' && "page_keys_len_sum"@[0] == 'p' && "page_keys_len_sum"@[8] == 's',
        "window_len_sum"@.len() == 14 && "window_len_sum"@[5] == 'w' && "window_len_sum"@[0] == 'w' && "window_len_sum"@[8] == 'e',
        "keys_scanned"@.len() == 12 && "keys_scanned"@[5] == 's' && "keys_scanned"@[0] == 'k' && "keys_scanned"@[8] == 'n',
        "entries_get_misses"@.len() == 18 && "entries_get_misses"@[5] == 'e' && "entries_get_misses"@[0] == 'e' && "entries_get_misses"@[8] == 'g',
        "probes_elided"@.len() == 13 && "probes_elided"@[5] == 's' && "probes_elided"@[0] == 'p' && "probes_elided"@[8] == 'l',
        "entries_get_calls"@.len() == 17 && "entries_get_calls"@[5] == 'e' && "entries_get_calls"@[0] == 'e' && "entries_get_calls"@[8] == 'g',
        "probe_divergences"@.len() == 17 && "probe_divergences"@[5] == '_' && "probe_divergences"@[0] == 'p' && "probe_divergences"@[8] == 'v',
        "point_rows_scanned"@.len() == 18 && "point_rows_scanned"@[5] == '_' && "point_rows_scanned"@[0] == 'p' && "point_rows_scanned"@[8] == 'w',
        "keys_killed"@.len() == 11 && "keys_killed"@[5] == 'k' && "keys_killed"@[0] == 'k' && "keys_killed"@[8] == 'l',
        "keys_surviving"@.len() == 14 && "keys_surviving"@[5] == 's' && "keys_surviving"@[0] == 'k' && "keys_surviving"@[8] == 'v',
        "lane_accept_keys"@.len() == 16 && "lane_accept_keys"@[5] == 'a' && "lane_accept_keys"@[0] == 'l' && "lane_accept_keys"@[8] == 'e',
        "survivors_moved"@.len() == 15 && "survivors_moved"@[5] == 'v' && "survivors_moved"@[0] == 's' && "survivors_moved"@[8] == 's',
        "drain_calls"@.len() == 11 && "drain_calls"@[5] == '_' && "drain_calls"@[0] == 'd' && "drain_calls"@[8] == 'l',
        "drain_elements"@.len() == 14 && "drain_elements"@[5] == '_' && "drain_elements"@[0] == 'd' && "drain_elements"@[8] == 'e',
        "waiting_retain_calls"@.len() == 20 && "waiting_retain_calls"@[5] == 'n' && "waiting_retain_calls"@[0] == 'w' && "waiting_retain_calls"@[8] == 'r',
        "waiting_map_len_sum"@.len() == 19 && "waiting_map_len_sum"@[5] == 'n' && "waiting_map_len_sum"@[0] == 'w' && "waiting_map_len_sum"@[8] == 'm',
        "waiting_sources_visited"@.len() == 23 && "waiting_sources_visited"@[5] == 'n' && "waiting_sources_visited"@[0] == 'w' && "waiting_sources_visited"@[8] == 's',
        "waiting_entries_dropped"@.len() == 23 && "waiting_entries_dropped"@[5] == 'n' && "waiting_entries_dropped"@[0] == 'w' && "waiting_entries_dropped"@[8] == 'e',
        "retire_calls"@.len() == 12 && "retire_calls"@[5] == 'e' && "retire_calls"@[0] == 'r' && "retire_calls"@[8] == 'a',
        "retire_calls_effective"@.len() == 22 && "retire_calls_effective"@[5] == 'e' && "retire_calls_effective"@[0] == 'r' && "retire_calls_effective"@[8] == 'a',
        "unlink_calls"@.len() == 12 && "unlink_calls"@[5] == 'k' && "unlink_calls"@[0] == 'u' && "unlink_calls"@[8] == 'a',
        "unlink_calls_effective"@.len() == 22 && "unlink_calls_effective"@[5] == 'k' && "unlink_calls_effective"@[0] == 'u' && "unlink_calls_effective"@[8] == 'a',
        "inbound_links_walked"@.len() == 20 && "inbound_links_walked"@[5] == 'n' && "inbound_links_walked"@[0] == 'i' && "inbound_links_walked"@[8] == 'l',
        "inbound_links_reparked"@.len() == 22 && "inbound_links_reparked"@[5] == 'n' && "inbound_links_reparked"@[0] == 'i' && "inbound_links_reparked"@[8] == 'l',
        "decode_dependency_slots"@.len() == 23 && "decode_dependency_slots"@[5] == 'e' && "decode_dependency_slots"@[0] == 'd' && "decode_dependency_slots"@[8] == 'e',
        "release_range_bytes"@.len() == 19 && "release_range_bytes"@[5] == 's' && "release_range_bytes"@[0] == 'r' && "release_range_bytes"@[8] == 'r',
{
    reveal_strlit("choke_calls");
    reveal_strlit("choke_block_only");
    reveal_strlit("choke_narrow_only");
    reveal_strlit("choke_both");
    reveal_strlit("choke_neither");
    reveal_strlit("choke_wholesale");
    reveal_strlit("scan_calls");
    reveal_strlit("scan_calls_no_kill");
    reveal_strlit("scan_calls_lane_only");
    reveal_strlit("scan_calls_kill");
    reveal_strlit("scan_calls_absent_page");
    reveal_strlit("keys_no_kill");
    reveal_strlit("keys_lane_only");
    reveal_strlit("keys_kill");
    reveal_strlit("keys_surviving_in_kill_calls");
    reveal_strlit("page_visits");
    reveal_strlit("page_removes");
    reveal_strlit("page_absent");
    reveal_strlit("page_reinserts");
    reveal_strlit("page_dropped_empty");
    reveal_strlit("window_searches");
    reveal_strlit("page_keys_len_sum");
    reveal_strlit("window_len_sum");
    reveal_strlit("keys_scanned");
    reveal_strlit("entries_get_misses");
    reveal_strlit("probes_elided");
    reveal_strlit("entries_get_calls");
    reveal_strlit("probe_divergences");
    reveal_strlit("point_rows_scanned");
    reveal_strlit("keys_killed");
    reveal_strlit("keys_surviving");
    reveal_strlit("lane_accept_keys");
    reveal_strlit("survivors_moved");
    reveal_strlit("drain_calls");
    reveal_strlit("drain_elements");
    reveal_strlit("waiting_retain_calls");
    reveal_strlit("waiting_map_len_sum");
    reveal_strlit("waiting_sources_visited");
    reveal_strlit("waiting_entries_dropped");
    reveal_strlit("retire_calls");
    reveal_strlit("retire_calls_effective");
    reveal_strlit("unlink_calls");
    reveal_strlit("unlink_calls_effective");
    reveal_strlit("inbound_links_walked");
    reveal_strlit("inbound_links_reparked");
    reveal_strlit("decode_dependency_slots");
    reveal_strlit("release_range_bytes");
}

/// Some entries of the object, looked up by their keys.
proof fn lemma_smc_units_keys_a(u: SmcUnits)
    ensures
        number_under(smc_units_model(u), "choke_calls"@) == Some(u.choke_calls as int),
        number_under(smc_units_model(u), "choke_block_only"@) == Some(u.choke_block_only as int),
        number_under(smc_units_model(u), "choke_narrow_only"@) == Some(u.choke_narrow_only as int),
        number_under(smc_units_model(u), "choke_both"@) == Some(u.choke_both as int),
        number_under(smc_units_model(u), "choke_neither"@) == Some(u.choke_neither as int),
        number_under(smc_units_model(u), "choke_wholesale"@) == Some(u.choke_wholesale as int),
        number_under(smc_units_model(u), "scan_calls"@) == Some(u.scan_calls as int),
        number_under(smc_units_model(u), "scan_calls_no_kill"@)
            == Some(u.scan_calls_no_kill as int),
        number_under(smc_units_model(u), "scan_calls_lane_only"@)
            == Some(u.scan_calls_lane_only as int),
        number_under(smc_units_model(u), "scan_calls_kill"@) == Some(u.scan_calls_kill as int),
        number_under(smc_units_model(u), "scan_calls_absent_page"@)
            == Some(u.scan_calls_absent_page as int),
        number_under(smc_units_model(u), "keys_no_kill"@) == Some(u.keys_no_kill as int),
        number_under(smc_units_model(u), "keys_lane_only"@) == Some(u.keys_lane_only as int),
        number_under(smc_units_model(u), "keys_kill"@) == Some(u.keys_kill as int),
        number_under(smc_units_model(u), "keys_surviving_in_kill_calls"@)
            == Some( u.keys_surviving_in_kill_calls as int),
        number_under(smc_units_model(u), "page_visits"@) == Some(u.page_visits as int),
        number_under(smc_units_model(u), "page_removes"@) == Some(u.page_removes as int),
        number_under(smc_units_model(u), "page_absent"@) == Some(u.page_absent as int),
        number_under(smc_units_model(u), "page_reinserts"@) == Some(u.page_reinserts as int),
        number_under(smc_units_model(u), "page_dropped_empty"@)
            == Some(u.page_dropped_empty as int),
        number_under(smc_units_model(u), "window_searches"@) == Some(u.window_searches as int),
        number_under(smc_units_model(u), "page_keys_len_sum"@) == Some(u.page_keys_len_sum as int),
        number_under(smc_units_model(u), "window_len_sum"@) == Some(u.window_len_sum as int),
        number_under(smc_units_model(u), "keys_scanned"@) == Some(u.keys_scanned as int),
        number_under(smc_units_model(u), "entries_get_misses"@)
            == Some(u.entries_get_misses as int),
        number_under(smc_units_model(u), "probes_elided"@) == Some(u.probes_elided as int),
{
    lemma_smc_units_keys_differ();
}

/// Some entries of the object, looked up by their keys.
proof fn lemma_smc_units_keys_b(u: SmcUnits)
    ensures
        number_under(smc_units_model(u), "entries_get_calls"@) == Some(u.entries_get_calls as int),
        number_under(smc_units_model(u), "probe_divergences"@) == Some(u.probe_divergences as int),
        number_under(smc_units_model(u), "point_rows_scanned"@)
            == Some(u.point_rows_scanned as int),
        number_under(smc_units_model(u), "keys_killed"@) == Some(u.keys_killed as int),
        number_under(smc_units_model(u), "keys_surviving"@) == Some(u.keys_surviving as int),
        number_under(smc_units_model(u), "lane_accept_keys"@) == Some(u.lane_accept_keys as int),
        number_under(smc_units_model(u), "survivors_moved"@) == Some(u.survivors_moved as int),
        number_under(smc_units_model(u), "drain_calls"@) == Some(u.drain_calls as int),
        number_under(smc_units_model(u), "drain_elements"@) == Some(u.drain_elements as int),
        number_under(smc_units_model(u), "waiting_retain_calls"@)
            == Some(u.waiting_retain_calls as int),
        number_under(smc_units_model(u), "waiting_map_len_sum"@)
            == Some(u.waiting_map_len_sum as int),
        number_under(smc_units_model(u), "waiting_sources_visited"@)
            == Some(u.waiting_sources_visited as int),
        number_under(smc_units_model(u), "waiting_entries_dropped"@)
            == Some(u.waiting_entries_dropped as int),
        number_under(smc_units_model(u), "retire_calls"@) == Some(u.retire_calls as int),
        number_under(smc_units_model(u), "retire_calls_effective"@)
            == Some(u.retire_calls_effective as int),
        number_under(smc_units_model(u), "unlink_calls"@) == Some(u.unlink_calls as int),
        number_under(smc_units_model(u), "unlink_calls_effective"@)
            == Some(u.unlink_calls_effective as int),
        number_under(smc_units_model(u), "inbound_links_walked"@)
            == Some(u.inbound_links_walked as int),
        number_under(smc_units_model(u), "inbound_links_reparked"@)
            == Some(u.inbound_links_reparked as int),
        number_under(smc_units_model(u), "decode_dependency_slots"@)
            == Some(u.decode_dependency_slots as int),
        number_under(smc_units_model(u), "release_range_bytes"@)
            == Some(u.release_range_bytes as int),
{
    lemma_smc_units_keys_differ();
}

/// Looked up by its key, every entry of the object is the figure that the key names.
pub proof fn law_smc_units_by_key(u: SmcUnits)
    ensures
        number_under(smc_units_model(u), "choke_calls"@) == Some(u.choke_calls as int),
        number_under(smc_units_model(u), "choke_block_only"@) == Some(u.choke_block_only as int),
        number_under(smc_units_model(u), "choke_narrow_only"@) == Some(u.choke_narrow_only as int),
        number_under(smc_units_model(u), "choke_both"@) == Some(u.choke_both as int),
        number_under(smc_units_model(u), "choke_neither"@) == Some(u.choke_neither as int),
        number_under(smc_units_model(u), "choke_wholesale"@) == Some(u.choke_wholesale as int),
        number_under(smc_units_model(u), "scan_calls"@) == Some(u.scan_calls as int),
        number_under(smc_units_model(u), "scan_calls_no_kill"@)
            == Some(u.scan_calls_no_kill as int),
        number_under(smc_units_model(u), "scan_calls_lane_only"@)
            == Some(u.scan_calls_lane_only as int),
        number_under(smc_units_model(u), "scan_calls_kill"@) == Some(u.scan_calls_kill as int),
        number_under(smc_units_model(u), "scan_calls_absent_page"@)
            == Some(u.scan_calls_absent_page as int),
        number_under(smc_units_model(u), "keys_no_kill"@) == Some(u.keys_no_kill as int),
        number_under(smc_units_model(u), "keys_lane_only"@) == Some(u.keys_lane_only as int),
        number_under(smc_units_model(u), "keys_kill"@) == Some(u.keys_kill as int),
        number_under(smc_units_model(u), "keys_surviving_in_kill_calls"@)
            == Some( u.keys_surviving_in_kill_calls as int),
        number_under(smc_units_model(u), "page_visits"@) == Some(u.page_visits as int),
        number_under(smc_units_model(u), "page_removes"@) == Some(u.page_removes as int),
        number_under(smc_units_model(u), "page_absent"@) == Some(u.page_absent as int),
        number_under(smc_units_model(u), "page_reinserts"@) == Some(u.page_reinserts as int),
        number_under(smc_units_model(u), "page_dropped_empty"@)
            == Some(u.page_dropped_empty as int),
        number_under(smc_units_model(u), "window_searches"@) == Some(u.window_searches as int),
        number_under(smc_units_model(u), "page_keys_len_sum"@) == Some(u.page_keys_len_sum as int),
        number_under(smc_units_model(u), "window_len_sum"@) == Some(u.window_len_sum as int),
        number_under(smc_units_model(u), "keys_scanned"@) == Some(u.keys_scanned as int),
        number_under(smc_units_model(u), "entries_get_misses"@)
            == Some(u.entries_get_misses as int),
        number_under(smc_units_model(u), "probes_elided"@) == Some(u.probes_elided as int),
        number_under(smc_units_model(u), "entries_get_calls"@) == Some(u.entries_get_calls as int),
        number_under(smc_units_model(u), "probe_divergences"@) == Some(u.probe_divergences as int),
        number_under(smc_units_model(u), "point_rows_scanned"@)
            == Some(u.point_rows_scanned as int),
        number_under(smc_units_model(u), "keys_killed"@) == Some(u.keys_killed as int),
        number_under(smc_units_model(u), "keys_surviving"@) == Some(u.keys_surviving as int),
        number_under(smc_units_model(u), "lane_accept_keys"@) == Some(u.lane_accept_keys as int),
        number_under(smc_units_model(u), "survivors_moved"@) == Some(u.survivors_moved as int),
        number_under(smc_units_model(u), "drain_calls"@) == Some(u.drain_calls as int),
        number_under(smc_units_model(u), "drain_elements"@) == Some(u.drain_elements as int),
        number_under(smc_units_model(u), "waiting_retain_calls"@)
            == Some(u.waiting_retain_calls as int),
        number_under(smc_units_model(u), "waiting_map_len_sum"@)
            == Some(u.waiting_map_len_sum as int),
        number_under(smc_units_model(u), "waiting_sources_visited"@)
            == Some(u.waiting_sources_visited as int),
        number_under(smc_units_model(u), "waiting_entries_dropped"@)
            == Some(u.waiting_entries_dropped as int),
        number_under(smc_units_model(u), "retire_calls"@) == Some(u.retire_calls as int),
        number_under(smc_units_model(u), "retire_calls_effective"@)
            == Some(u.retire_calls_effective as int),
        number_under(smc_units_model(u), "unlink_calls"@) == Some(u.unlink_calls as int),
        number_under(smc_units_model(u), "unlink_calls_effective"@)
            == Some(u.unlink_calls_effective as int),
        number_under(smc_units_model(u), "inbound_links_walked"@)
            == Some(u.inbound_links_walked as int),
        number_under(smc_units_model(u), "inbound_links_reparked"@)
            == Some(u.inbound_links_reparked as int),
        number_under(smc_units_model(u), "decode_dependency_slots"@)
            == Some(u.decode_dependency_slots as int),
        number_under(smc_units_model(u), "release_range_bytes"@)
            == Some(u.release_range_bytes as int),
{
    lemma_smc_units_keys_a(u);
    lemma_smc_units_keys_b(u);
}

/// Looked up by its key, every entry of the object is the figure that the key names.
pub proof fn law_smc_page_counts_by_key(counts: SmcPageCounts)
    ensures
        number_under(smc_page_counts_model(counts), "page_visits"@)
            == Some(counts.page_visits as int),
        number_under(smc_page_counts_model(counts), "keys_scanned"@)
            == Some(counts.keys_scanned as int),
        number_under(smc_page_counts_model(counts), "keys_killed"@)
            == Some(counts.keys_killed as int),
        number_under(smc_page_counts_model(counts), "keys_surviving"@)
            == Some(counts.keys_surviving as int),
        number_under(smc_page_counts_model(counts), "lane_accepts"@)
            == Some(counts.lane_accepts as int),
        number_under(smc_page_counts_model(counts), "no_kill_visits"@)
            == Some(counts.no_kill_visits as int),
        number_under(smc_page_counts_model(counts), "page_keys_len_sum"@)
            == Some(counts.page_keys_len_sum as int),
{
    reveal_strlit("page_visits");
    assert("page_visits"@.len() == 11 && "page_visits"@[0] == 'p');
    reveal_strlit("keys_scanned");
    assert("keys_scanned"@.len() == 12 && "keys_scanned"@[0] == 'k');
    reveal_strlit("keys_killed");
    assert("keys_killed"@.len() == 11 && "keys_killed"@[0] == 'k');
    reveal_strlit("keys_surviving");
    assert("keys_surviving"@.len() == 14 && "keys_surviving"@[0] == 'k');
    reveal_strlit("lane_accepts");
    assert("lane_accepts"@.len() == 12 && "lane_accepts"@[0] == 'l');
    reveal_strlit("no_kill_visits");
    assert("no_kill_visits"@.len() == 14 && "no_kill_visits"@[0] == 'n');
    reveal_strlit("page_keys_len_sum");
    assert("page_keys_len_sum"@.len() == 17 && "page_keys_len_sum"@[0] == 'p');
}

/// Looked up by its key, every entry of the object is the figure that the key names.
pub proof fn law_smc_page_row_by_key(row: SmcPageRow)
    ensures
        number_under(smc_page_row_model(row), "page"@) == Some(row.page as int),
        number_under(smc_page_row_model(row), "physical_base"@) == Some(row.page as int * 4096),
        under(smc_page_row_model(row), "counts"@) == Some(smc_page_counts_model(row.counts)),
        under(smc_page_row_model(row), "error"@) == Some(smc_page_counts_model(row.error)),
{
    reveal_strlit("page");
    assert("page"@.len() == 4);
    reveal_strlit("physical_base");
    assert("physical_base"@.len() == 13);
    reveal_strlit("counts");
    assert("counts"@.len() == 6);
    reveal_strlit("error");
    assert("error"@.len() == 5);
}

/// Looked up by its key, every entry of the object is the figure that the key names.
pub proof fn law_smc_phase_by_key(p: SmcPhase, quotients: Seq<serde_json::Value>)
    ensures
        text_under(smc_phase_model(p, quotients), "label"@) == Some(p.label@),
        under(smc_phase_model(p, quotients), "units"@) == Some(smc_units_model(p.units)),
        under(smc_phase_model(p, quotients), "page_totals"@)
            == Some(smc_page_counts_model(p.page_totals)),
        number_under(smc_phase_model(p, quotients), "page_rows_capacity"@)
            == Some(p.page_rows_capacity as int),
        number_under(smc_phase_model(p, quotients), "page_slot_claims"@)
            == Some(p.page_slot_claims as int),
        number_under(smc_phase_model(p, quotients), "page_displacements"@)
            == Some(p.page_displacements as int),
        under(smc_phase_model(p, quotients), "pages"@)
            == Some(JsonModel::Arr( p.pages@.map_values(|row: SmcPageRow| smc_page_row_model(row)), )),
        under(smc_phase_model(p, quotients), "derived"@)
            == Some(JsonModel::Obj( map![ "r1_s4_lower"@ => ratio_model(p, quotients, 0), "r1_space_saving_error_bound"@ => ratio_model(p, quotients, 1), "r2_w_surviving"@ => ratio_model(p, quotients, 2), "c1_probes_elided_share"@ => ratio_model(p, quotients, 3), "r2_w_no_kill_calls"@ => ratio_model(p, quotients, 4), "mean_page_occupancy"@ => ratio_model(p, quotients, 5), "mean_window_length"@ => ratio_model(p, quotients, 6), "mean_waiting_map_len"@ => ratio_model(p, quotients, 7), ], )),
{
    reveal_strlit("label");
    assert("label"@.len() == 5 && "label"@[0] == 'l');
    reveal_strlit("units");
    assert("units"@.len() == 5 && "units"@[0] == 'u');
    reveal_strlit("page_totals");
    assert("page_totals"@.len() == 11 && "page_totals"@[0] == 'p' && "page_totals"@[5] == 't');
    reveal_strlit("page_rows_capacity");
    assert("page_rows_capacity"@.len() == 18 && "page_rows_capacity"@[0] == 'p' && "page_rows_capacity"@[5] == 'r');
    reveal_strlit("page_slot_claims");
    assert("page_slot_claims"@.len() == 16 && "page_slot_claims"@[0] == 'p' && "page_slot_claims"@[5] == 's');
    reveal_strlit("page_displacements");
    assert("page_displacements"@.len() == 18 && "page_displacements"@[0] == 'p' && "page_displacements"@[5] == 'd');
    reveal_strlit("pages");
    assert("pages"@.len() == 5 && "pages"@[0] == 'p');
    reveal_strlit("derived");
    assert("derived"@.len() == 7 && "derived"@[0] == 'd' && "derived"@[5] == 'e');
}

/// Looked up by its key, every entry of the object is the figure that the key names.
pub proof fn law_smc_census_by_key(s: SmcSnapshot, whole_quotients: Seq<serde_json::Value>, windowed_quotients: Seq<serde_json::Value>)
    ensures
        text_under(smc_census_model(Some(s), whole_quotients, windowed_quotients), "schema"@)
            == Some("izarravm-smc-census-v1"@),
        text_under(smc_census_model(Some(s), whole_quotients, windowed_quotients), "stage"@)
            == Some("A"@),
        under(smc_census_model(Some(s), whole_quotients, windowed_quotients), "window"@)
            == Some(window_model(s.window)),
        number_under(smc_census_model(Some(s), whole_quotients, windowed_quotients), "clock_instructions"@)
            == Some(s.clock as int),
        text_under(smc_census_model(Some(s), whole_quotients, windowed_quotients), "r0_smc_wall_source"@)
            == Some( "external RIP-sample profile (samply) of a census-off release build"@),
        under(smc_census_model(Some(s), whole_quotients, windowed_quotients), "phases"@)
            == Some(JsonModel::Arr( seq![ smc_phase_model(s.whole_run, whole_quotients), smc_phase_model(s.windowed, windowed_quotients), ], )),
{
    reveal_strlit("schema");
    assert("schema"@.len() == 6 && "schema"@[0] == 's');
    reveal_strlit("stage");
    assert("stage"@.len() == 5 && "stage"@[0] == 's');
    reveal_strlit("window");
    assert("window"@.len() == 6 && "window"@[0] == 'w');
    reveal_strlit("clock_instructions");
    assert("clock_instructions"@.len() == 18 && "clock_instructions"@[0] == 'c');
    reveal_strlit("r0_smc_wall_source");
    assert("r0_smc_wall_source"@.len() == 18 && "r0_smc_wall_source"@[0] == 'r');
    reveal_strlit("phases");
    assert("phases"@.len() == 6 && "phases"@[0] == 'p');
}

/// The kills that rows are certain of add up row by row: what a row counted without what
/// it may have counted wrongly.
pub proof fn law_certain_kills_add_up(a: Seq<SmcPageRow>, b: Seq<SmcPageRow>, one: SmcPageRow)
    ensures
        lower_sum(a + b) == lower_sum(a) + lower_sum(b),
        lower_sum(seq![one]) == one.counts.keys_killed - one.error.keys_killed,
    decreases b.len(),
{
    assert(seq![one].drop_last() =~= Seq::empty());
    assert(lower_sum(seq![one].drop_last()) == 0);
    if b.len() == 0 {
        assert(a + b =~= a);
    } else {
        law_certain_kills_add_up(a, b.drop_last(), one);
        assert((a + b).drop_last() =~= a + b.drop_last());
    }
}

/// The derived shares of a phase that closes: of every key that was scanned, those that
/// survived, those whose probe was elided and those of calls without a kill; none of them
/// is more than the whole. The top rows are the first four.
pub proof fn law_shares_are_of_the_whole(p: SmcPhase)
    requires
        phase_closed(p),
    ensures
        ratio_terms(p).len() == 8,
        top_rows(p.pages@).len() <= 4,
        top_rows(p.pages@).is_prefix_of(p.pages@),
        p.pages@.len() >= 4 ==> top_rows(p.pages@).len() == 4,
        0 <= ratio_terms(p)[0].0 <= ratio_terms(p)[0].1,
        ratio_terms(p)[0].1 == ratio_terms(p)[1].0,
        ratio_terms(p)[1].1 == p.page_rows_capacity,
        ratio_terms(p)[2].1 == p.units.keys_scanned,
        ratio_terms(p)[3].1 == p.units.keys_scanned,
        ratio_terms(p)[4].1 == p.units.keys_scanned,
        ratio_terms(p)[2].0 + ratio_terms(p)[3].0 + p.units.keys_killed <= p.units.keys_scanned,
        ratio_terms(p)[4].0 + p.units.keys_lane_only + p.units.keys_kill == p.units.keys_scanned,
        ratio_terms(p)[5] == (p.page_totals.page_keys_len_sum as int, p.units.page_removes as int),
        ratio_terms(p)[6] == (p.units.keys_scanned as int, p.units.page_removes as int),
        ratio_terms(p)[7].1 == 2 * p.units.unlink_calls,
        ratio_terms(p)[2].0 == p.page_totals.keys_surviving,
        ratio_terms(p)[7].0 == p.units.waiting_map_len_sum,
{
    let rows = p.pages@;
    if rows.len() <= 4 {
        lemma_lower_sum_grows(rows, rows.len() as int);
        assert(rows.take(rows.len() as int) =~= rows);
    } else {
        lemma_lower_sum_grows(rows, 4);
    }
}

/// The work units close exactly where nothing is left over of any split: of the calls, of the
/// keys, of the pages and of what was unlinked.
pub proof fn law_nothing_is_left_over_of_closed_units(u: SmcUnits)
    ensures
        units_closed(u) <==> ({
            let found = u.keys_killed + u.keys_surviving + u.lane_accept_keys;
            &&& u.choke_calls - u.choke_both - u.choke_neither == u.choke_block_only
                + u.choke_narrow_only
            &&& u.scan_calls - u.scan_calls_kill == u.scan_calls_no_kill + u.scan_calls_lane_only
            &&& u.keys_scanned - u.keys_kill == u.keys_no_kill + u.keys_lane_only
            &&& u.window_len_sum == u.keys_scanned
            &&& u.entries_get_calls - u.entries_get_misses == found
            &&& u.keys_scanned - u.entries_get_calls == u.probes_elided
            &&& u.probe_divergences + u.point_rows_scanned == 0
            &&& u.survivors_moved - u.probes_elided == found - u.keys_killed
            &&& u.page_visits - u.page_absent == u.page_removes
            &&& u.page_removes - u.page_reinserts == u.page_dropped_empty
            &&& u.page_removes == u.window_searches
            &&& u.waiting_retain_calls == u.unlink_calls + u.unlink_calls_effective
            &&& u.retire_calls_effective == u.unlink_calls
            &&& u.unlink_calls == u.unlink_calls_effective
        }),
{
}

/// The page totals close exactly where they say what the work units say, and the visits that
/// killed lie between the killing calls and the kills.
pub proof fn law_closed_totals_say_what_the_units_say(u: SmcUnits, t: SmcPageCounts)
    ensures
        totals_closed(u, t) <==> ({
            let killing = t.page_visits - t.no_kill_visits;
            &&& u.page_removes == t.page_visits
            &&& (u.keys_scanned, u.keys_killed, u.keys_surviving) == (
                t.keys_scanned,
                t.keys_killed,
                t.keys_surviving,
            )
            &&& (u.lane_accept_keys, u.page_keys_len_sum) == (t.lane_accepts, t.page_keys_len_sum)
            &&& killing >= 0
            &&& killing >= u.scan_calls_kill
            &&& u.keys_killed >= killing
        }),
{
}

/// A row is bounded exactly where it is certain of no fewer than none: what it may have
/// counted wrongly is at most what it counted.
pub proof fn law_a_bounded_row_is_certain_of_something(row: SmcPageRow)
    ensures
        row_bounded(row) <==> row.counts.keys_killed - row.error.keys_killed >= 0
            && row.counts.keys_scanned - row.error.keys_scanned >= 0 && row.counts.page_visits
            - row.error.page_visits >= 0,
{
}

/// A phase with closed parts closes exactly where its rows fit their table and every slot
/// that was claimed holds a row or was given up; a table may be full.
pub proof fn law_a_full_table_closes(p: SmcPhase)
    requires
        units_closed(p.units),
        totals_closed(p.units, p.page_totals),
        rows_closed(p.pages@, p.page_totals.keys_killed),
    ensures
        phase_closed(p) <==> p.page_rows_capacity - p.pages@.len() >= 0 && p.page_slot_claims
            - p.page_displacements == p.pages@.len(),
{
}

/// Rows that close are ranked by their kills, each bounded, and certain of no more kills than
/// there were.
pub proof fn law_closed_rows_are_ranked(rows: Seq<SmcPageRow>, kills: u64, i: int)
    requires
        rows_closed(rows, kills),
        0 <= i < rows.len(),
    ensures
        row_bounded(rows[i]),
        i + 1 < rows.len() ==> rows[i].counts.keys_killed >= rows[i + 1].counts.keys_killed,
        rows[i].counts.keys_killed <= rows[0].counts.keys_killed,
        lower_sum(rows) <= kills,
{
}

/// A share of nothing is reported as `null`, and any other as it was worked out: shares of
/// keys over the keys that were scanned, lengths over the pages that were removed, and the
/// waiting map over the calls that kept it.
pub proof fn law_a_share_of_nothing_is_null(p: SmcPhase, quotients: Seq<serde_json::Value>, i: int)
    requires
        2 <= i < 8,
    ensures
        ratio_model(p, quotients, i) == if (i < 5 && p.units.keys_scanned == 0) || (5 <= i < 7
            && p.units.page_removes == 0) || (i == 7 && p.units.waiting_retain_calls == 0) {
            JsonModel::Null
        } else {
            json_of(quotients[i])
        },
{
}

} // verus!
