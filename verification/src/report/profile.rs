//! The profile of a headless drive run.

use vstd::prelude::*;

use crate::json::{
    no_fields, null, number, numbers, object, parse, parsed_json, pretty_json, pretty_text, put,
    put_flag, put_number, put_text, rows, same, text,
};
#[allow(unused_imports)]
use crate::json::{fields_of, json_of, num_array, JsonModel};
use crate::report::barriers::{direct_barrier_census_json, DirectBarrierCensusSnapshot};
use crate::report::barriers::{barrier_census_fits, direct_barrier_census_model};
use crate::report::devices::{
    mpu_json, opl_diagnostics_json, sb_dsp_json, shadow_l1_json, timer_json, MpuActivity,
    OplDiagnostics, SbDspDiagnostics, ShadowL1Diagnostics, TimerActivity,
};
use crate::report::devices::{
    mpu_model, opl_diagnostics_model, sb_dsp_model, shadow_l1_model, timer_model,
};
use crate::report::modes::{opt_margo_display_json, MargoDisplay};
#[allow(unused_imports)]
use crate::report::modes::opt_margo_display_model;
use crate::report::phase_marks::{phase_mark_series_json, PhaseMark};
#[allow(unused_imports)]
use crate::report::phase_marks::phase_mark_series_model;
use crate::report::stalls::{direct_stall_json, DirectStallSnapshot};
#[allow(unused_imports)]
use crate::report::stalls::direct_stall_model;
use crate::report::storage::{
    ata_poll_skip_json, int13_profile_json, katea_counters_json, pit_bulk_advance_json, AtaPollSkip,
    Int13Profile, KateaStorageCounters, PitBulkAdvance,
};
use crate::report::storage::{
    ata_poll_skip_model, int13_profile_model, katea_counters_model, pit_bulk_advance_model,
};
use crate::stop::{stop_reason_json, StopReason};
#[allow(unused_imports)]
use crate::stop::stop_reason_model;
use crate::report::vga_wipe::{vga_wipe_census_json, VgaWipeCensusSnapshot};
#[allow(unused_imports)]
use crate::report::vga_wipe::vga_wipe_census_model;
#[allow(unused_imports)]
use crate::json::{flag_under, number_under, text_under, under};

verus! {

// ---------------------------------------------------------------------------
// Sections
// ---------------------------------------------------------------------------

/// What the host did for the accelerated display.
#[derive(Clone, Copy, Debug, Default)]
pub struct VideoHostMetrics {
    pub margo_lfb_direct_read_bytes: u64,
    pub margo_lfb_direct_write_bytes: u64,
    pub margo_lfb_slow_read_bytes: u64,
    pub margo_lfb_slow_write_bytes: u64,
    pub margo_banked_direct_read_bytes: u64,
    pub margo_banked_direct_write_bytes: u64,
    pub margo_banked_slow_read_bytes: u64,
    pub margo_banked_slow_write_bytes: u64,
    pub margo_scanout_rows_converted: u64,
    pub margo_scanout_pixels_converted: u64,
}

/// What [`video_host_json`] gives.
pub open spec fn video_host_model(v: VideoHostMetrics) -> JsonModel {
    JsonModel::Obj(
        map![
            "margo_lfb_direct_read_bytes"@ => JsonModel::Num(v.margo_lfb_direct_read_bytes as int),
            "margo_lfb_direct_write_bytes"@ => JsonModel::Num(
                v.margo_lfb_direct_write_bytes as int,
            ),
            "margo_lfb_slow_read_bytes"@ => JsonModel::Num(v.margo_lfb_slow_read_bytes as int),
            "margo_lfb_slow_write_bytes"@ => JsonModel::Num(v.margo_lfb_slow_write_bytes as int),
            "margo_banked_direct_read_bytes"@ => JsonModel::Num(
                v.margo_banked_direct_read_bytes as int,
            ),
            "margo_banked_direct_write_bytes"@ => JsonModel::Num(
                v.margo_banked_direct_write_bytes as int,
            ),
            "margo_banked_slow_read_bytes"@ => JsonModel::Num(
                v.margo_banked_slow_read_bytes as int,
            ),
            "margo_banked_slow_write_bytes"@ => JsonModel::Num(
                v.margo_banked_slow_write_bytes as int,
            ),
            "margo_scanout_rows_converted"@ => JsonModel::Num(
                v.margo_scanout_rows_converted as int,
            ),
            "margo_scanout_pixels_converted"@ => JsonModel::Num(
                v.margo_scanout_pixels_converted as int,
            ),
        ],
    )
}

/// The host video metrics as an object.
fn video_host_json(v: &VideoHostMetrics) -> (value: serde_json::Value)
    ensures
        json_of(value) == video_host_model(*v),
{
    let mut fields = no_fields();
    put_number(&mut fields, "margo_lfb_direct_read_bytes", v.margo_lfb_direct_read_bytes);
    put_number(&mut fields, "margo_lfb_direct_write_bytes", v.margo_lfb_direct_write_bytes);
    put_number(&mut fields, "margo_lfb_slow_read_bytes", v.margo_lfb_slow_read_bytes);
    put_number(&mut fields, "margo_lfb_slow_write_bytes", v.margo_lfb_slow_write_bytes);
    put_number(&mut fields, "margo_banked_direct_read_bytes", v.margo_banked_direct_read_bytes);
    put_number(&mut fields, "margo_banked_direct_write_bytes", v.margo_banked_direct_write_bytes);
    put_number(&mut fields, "margo_banked_slow_read_bytes", v.margo_banked_slow_read_bytes);
    put_number(&mut fields, "margo_banked_slow_write_bytes", v.margo_banked_slow_write_bytes);
    put_number(&mut fields, "margo_scanout_rows_converted", v.margo_scanout_rows_converted);
    put_number(&mut fields, "margo_scanout_pixels_converted", v.margo_scanout_pixels_converted);
    object(fields)
}

/// Host time in one phase of the machine.
#[derive(Debug, Default)]
pub struct MachinePhase {
    pub name: String,
    pub wall_ns: u64,
    pub count: u64,
}

/// What [`machine_phase_json`] gives.
pub open spec fn machine_phase_model(p: MachinePhase) -> JsonModel {
    JsonModel::Obj(
        map![
            "name"@ => JsonModel::Str(p.name@),
            "wall_ns"@ => JsonModel::Num(p.wall_ns as int),
            "count"@ => JsonModel::Num(p.count as int),
        ],
    )
}

/// One phase as an object.
fn machine_phase_json(p: &MachinePhase) -> (value: serde_json::Value)
    ensures
        json_of(value) == machine_phase_model(*p),
{
    let mut fields = no_fields();
    put_text(&mut fields, "name", p.name.as_str());
    put_number(&mut fields, "wall_ns", p.wall_ns);
    put_number(&mut fields, "count", p.count);
    object(fields)
}

/// The geometry of the folder-backed drive.
#[derive(Clone, Copy, Debug, Default)]
pub struct KateaGeometry {
    pub sectors_per_cluster: u64,
    pub fat_sectors: u64,
    pub partition_sectors: u64,
    pub total_sectors: u64,
    pub count_of_clusters: u64,
}

/// What [`katea_geometry_json`] gives.
pub open spec fn katea_geometry_model(g: KateaGeometry) -> JsonModel {
    JsonModel::Obj(
        map![
            "sectors_per_cluster"@ => JsonModel::Num(g.sectors_per_cluster as int),
            "fat_sectors"@ => JsonModel::Num(g.fat_sectors as int),
            "partition_sectors"@ => JsonModel::Num(g.partition_sectors as int),
            "total_sectors"@ => JsonModel::Num(g.total_sectors as int),
            "count_of_clusters"@ => JsonModel::Num(g.count_of_clusters as int),
        ],
    )
}

/// The geometry as an object.
fn katea_geometry_json(g: &KateaGeometry) -> (value: serde_json::Value)
    ensures
        json_of(value) == katea_geometry_model(*g),
{
    let mut fields = no_fields();
    put_number(&mut fields, "sectors_per_cluster", g.sectors_per_cluster);
    put_number(&mut fields, "fat_sectors", g.fat_sectors);
    put_number(&mut fields, "partition_sectors", g.partition_sectors);
    put_number(&mut fields, "total_sectors", g.total_sectors);
    put_number(&mut fields, "count_of_clusters", g.count_of_clusters);
    object(fields)
}

/// The sector cache.
#[derive(Clone, Copy, Debug, Default)]
pub struct SectorCache {
    pub hits: u64,
    pub misses: u64,
}

/// What [`sector_cache_json`] gives.
pub open spec fn sector_cache_model(c: SectorCache) -> JsonModel {
    JsonModel::Obj(
        map![
            "hits"@ => JsonModel::Num(c.hits as int),
            "misses"@ => JsonModel::Num(c.misses as int),
        ],
    )
}

/// The sector cache as an object.
fn sector_cache_json(c: &SectorCache) -> (value: serde_json::Value)
    ensures
        json_of(value) == sector_cache_model(*c),
{
    let mut fields = no_fields();
    put_number(&mut fields, "hits", c.hits);
    put_number(&mut fields, "misses", c.misses);
    object(fields)
}

/// The result of a timed demo.
#[derive(Clone, Copy, Debug, Default)]
pub struct Timedemo {
    pub gametics: u32,
    pub realtics: u32,
}

/// What [`timedemo_json`] gives.
pub open spec fn timedemo_model(t: Timedemo) -> JsonModel {
    JsonModel::Obj(
        map![
            "gametics"@ => JsonModel::Num(t.gametics as int),
            "realtics"@ => JsonModel::Num(t.realtics as int),
        ],
    )
}

/// The result of a timed demo, as an object.
fn timedemo_json(t: &Timedemo) -> (value: serde_json::Value)
    ensures
        json_of(value) == timedemo_model(*t),
{
    let mut fields = no_fields();
    put_number(&mut fields, "gametics", t.gametics as u64);
    put_number(&mut fields, "realtics", t.realtics as u64);
    object(fields)
}

/// Blocks that begin with a segment load.
#[derive(Clone, Copy, Debug, Default)]
pub struct SegHeadDiagnostic {
    pub seg_head_diagnostic_entries: u64,
    pub seg_head_successor_pins_written: u64,
    pub seg_head_successor_absent: u64,
    pub seg_head_selector_repeat: u64,
    pub seg_head_dirty_multi: u64,
    pub seg_head_eligible: u64,
    pub seg_head_eligible_successor_pins_written: u64,
    pub seg_head_eligible_successor_absent: u64,
    pub seg_head_eligible_selector_repeat: u64,
    pub segment_write_block_head_entries: u64,
}

/// What [`seg_head_json`] gives.
pub open spec fn seg_head_model(d: SegHeadDiagnostic) -> JsonModel {
    JsonModel::Obj(
        map![
            "entries"@ => JsonModel::Num(d.seg_head_diagnostic_entries as int),
            "successor_pins_written"@ => JsonModel::Num(d.seg_head_successor_pins_written as int),
            "successor_absent"@ => JsonModel::Num(d.seg_head_successor_absent as int),
            "selector_repeat"@ => JsonModel::Num(d.seg_head_selector_repeat as int),
            "dirty_multi"@ => JsonModel::Num(d.seg_head_dirty_multi as int),
            "eligible"@ => JsonModel::Num(d.seg_head_eligible as int),
            "eligible_successor_pins_written"@ => JsonModel::Num(
                d.seg_head_eligible_successor_pins_written as int,
            ),
            "eligible_successor_absent"@ => JsonModel::Num(
                d.seg_head_eligible_successor_absent as int,
            ),
            "eligible_selector_repeat"@ => JsonModel::Num(
                d.seg_head_eligible_selector_repeat as int,
            ),
            "segment_write_block_head_entries"@ => JsonModel::Num(
                d.segment_write_block_head_entries as int,
            ),
        ],
    )
}

/// The segment-head diagnostic as an object.
pub fn seg_head_json(d: &SegHeadDiagnostic) -> (value: serde_json::Value)
    ensures
        json_of(value) == seg_head_model(*d),
{
    let mut fields = no_fields();
    put_number(&mut fields, "entries", d.seg_head_diagnostic_entries);
    put_number(&mut fields, "successor_pins_written", d.seg_head_successor_pins_written);
    put_number(&mut fields, "successor_absent", d.seg_head_successor_absent);
    put_number(&mut fields, "selector_repeat", d.seg_head_selector_repeat);
    put_number(&mut fields, "dirty_multi", d.seg_head_dirty_multi);
    put_number(&mut fields, "eligible", d.seg_head_eligible);
    put_number(
        &mut fields,
        "eligible_successor_pins_written",
        d.seg_head_eligible_successor_pins_written,
    );
    put_number(&mut fields, "eligible_successor_absent", d.seg_head_eligible_successor_absent);
    put_number(&mut fields, "eligible_selector_repeat", d.seg_head_eligible_selector_repeat);
    put_number(&mut fields, "segment_write_block_head_entries", d.segment_write_block_head_entries);
    object(fields)
}

/// Far returns by how many places their site returned to.
#[derive(Debug, Default)]
pub struct RetfArity {
    /// Executions at sites with as many distinct targets as the cell's index; the last cell holds the saturated sites.
    pub histogram: Vec<u64>,
    pub sites: u64,
}

/// What [`retf_arity_json`] gives.
pub open spec fn retf_arity_model(r: RetfArity) -> JsonModel {
    JsonModel::Obj(
        map![
            "executions_by_distinct_targets"@ => num_array(r.histogram@),
            "sites"@ => JsonModel::Num(r.sites as int),
        ],
    )
}

/// The far-return census as an object.
pub fn retf_arity_json(r: &RetfArity) -> (value: serde_json::Value)
    ensures
        json_of(value) == retf_arity_model(*r),
{
    let mut fields = no_fields();
    put(&mut fields, "executions_by_distinct_targets", numbers(&r.histogram));
    put_number(&mut fields, "sites", r.sites);
    object(fields)
}

/// What a text from the call memo is reported as, once `parsed` out of it: the
/// tree, or the text itself where it is no tree.
pub fn memo_or_text(parsed: Option<serde_json::Value>, raw: &str) -> (value: serde_json::Value)
    ensures
        json_of(value) == match parsed {
            Some(v) => json_of(v),
            None => JsonModel::Str(raw@),
        },
{
    match parsed {
        Some(v) => v,
        None => text(raw),
    }
}

/// The call memo's own report: its tree, or its text where that is no tree.
pub fn reflected_call_memo_json(raw: &str) -> (value: serde_json::Value)
    ensures
        json_of(value) == match parsed_json(raw@) {
            Some(model) => model,
            None => JsonModel::Str(raw@),
        },
{
    memo_or_text(parse(raw), raw)
}

/// The sections that only some builds keep, as their own functions report them.
/// A section that was not built has no key at all.
pub struct OptionalSections {
    pub direct_link_refusal_census: Option<serde_json::Value>,
    pub reflected_call_diagnostic: Option<serde_json::Value>,
    pub reflected_call_memo: Option<serde_json::Value>,
    pub direct_callout_attribution: Option<serde_json::Value>,
    pub smc_census: Option<serde_json::Value>,
    pub seg_head_diagnostic: Option<serde_json::Value>,
    pub retf_arity_census: Option<serde_json::Value>,
    pub direct_entry_attribution: Option<serde_json::Value>,
}

/// `fields` with one section more, where it was built.
pub open spec fn with_section(
    fields: Map<Seq<char>, JsonModel>,
    key: Seq<char>,
    section: Option<serde_json::Value>,
) -> Map<Seq<char>, JsonModel> {
    match section {
        Some(value) => fields.insert(key, json_of(value)),
        None => fields,
    }
}

/// Sets `key` to the section, where it was built.
fn put_section(
    fields: &mut serde_json::Map<String, serde_json::Value>,
    key: &str,
    section: &Option<serde_json::Value>,
)
    ensures
        fields_of(*final(fields)) == with_section(fields_of(*old(fields)), key@, *section),
{
    if let Some(value) = section {
        put(fields, key, same(value));
    }
}

/// `fields` with every section that was built.
pub open spec fn with_sections(
    fields: Map<Seq<char>, JsonModel>,
    s: OptionalSections,
) -> Map<Seq<char>, JsonModel> {
    let fields = with_section(fields, "direct_link_refusal_census"@, s.direct_link_refusal_census);
    let fields = with_section(fields, "reflected_call_diagnostic"@, s.reflected_call_diagnostic);
    let fields = with_section(fields, "reflected_call_memo"@, s.reflected_call_memo);
    let fields = with_section(fields, "direct_callout_attribution"@, s.direct_callout_attribution);
    let fields = with_section(fields, "smc_census"@, s.smc_census);
    let fields = with_section(fields, "seg_head_diagnostic"@, s.seg_head_diagnostic);
    let fields = with_section(fields, "retf_arity_census"@, s.retf_arity_census);
    let fields = with_section(fields, "direct_entry_attribution"@, s.direct_entry_attribution);
    fields
}

/// The rates of a run, as ready JSON numbers.
pub struct RunRates {
    pub wall_seconds: serde_json::Value,
    pub guest_seconds: serde_json::Value,
    pub real_time_factor: serde_json::Value,
    pub instructions_per_host_second: serde_json::Value,
    pub budget_clocks_per_host_second: serde_json::Value,
    pub cpu_core_clocks_per_host_second: serde_json::Value,
    pub direct_native_coverage: serde_json::Value,
    pub direct_slow_exits_per_100_instructions: serde_json::Value,
}

/// Everything that a profile reports.
pub struct HddProfile {
    pub workload: String,
    pub mode: String,
    pub timing_model_epoch: u64,
    pub cycle_budget: u64,
    pub stop: StopReason,
    /// Host time of the run, in nanoseconds.
    pub wall_ns: u128,
    pub rates: RunRates,
    pub master_ticks: u64,
    pub elapsed_budget_clocks: u64,
    pub executed_cpu_core_clocks: u64,
    pub raw_bus_clocks: u64,
    pub scaled_bus_clocks: u64,
    pub active_display: String,
    pub legacy_video_mode: String,
    pub vga_text_rows_rendered: u64,
    pub margo_display: Option<MargoDisplay>,
    pub video_host: VideoHostMetrics,
    pub timedemo: Option<Timedemo>,
    pub machine_phase_timing_enabled: bool,
    pub machine_phases: Vec<MachinePhase>,
    pub direct_barrier_census: Option<DirectBarrierCensusSnapshot>,
    pub phase_marks: Vec<PhaseMark>,
    pub int13_profile: Int13Profile,
    pub katea_geometry: Option<KateaGeometry>,
    pub hdd_sector_cache: Option<SectorCache>,
    pub io_stall_ticks: u64,
    pub halted_ticks: u64,
    pub pit_bulk_advance: PitBulkAdvance,
    pub cd_pio_bytes: u64,
    pub cd_accesses: u64,
    pub atapi_packet_commands: u64,
    pub ata_poll_skip: AtaPollSkip,
    pub katea: Option<KateaStorageCounters>,
    pub direct_stalls: DirectStallSnapshot,
    pub vga_wipe_census: Option<VgaWipeCensusSnapshot>,
    pub shadow_l1: ShadowL1Diagnostics,
    pub opl: OplDiagnostics,
    pub sb_dsp: SbDspDiagnostics,
    pub mpu: MpuActivity,
    pub timer: TimerActivity,
    /// The processor counters, as the processor reports them.
    pub perf: serde_json::Value,
    pub sections: OptionalSections,
}

/// Host time over all phases.
pub open spec fn phase_wall(phases: Seq<MachinePhase>) -> int
    decreases phases.len(),
{
    if phases.len() == 0 {
        0
    } else {
        phase_wall(phases.drop_last()) + phases.last().wall_ns
    }
}

/// Host time over all phases, where it can be counted in 64 bits.
pub fn classified_wall_ns(phases: &Vec<MachinePhase>) -> (sum: Option<u64>)
    ensures
        sum == if phase_wall(phases@) <= u64::MAX {
            Some(phase_wall(phases@) as u64)
        } else {
            None
        },
{
    let mut sum: u64 = 0;
    let mut i: usize = 0;
    assert(phases@.take(0) =~= Seq::empty());
    while i < phases.len()
        invariant
            i <= phases@.len(),
            sum == phase_wall(phases@.take(i as int)),
        decreases phases@.len() - i,
    {
        proof {
            assert(phases@.take(i + 1).drop_last() =~= phases@.take(i as int));
            lemma_phase_wall_grows(phases@, i + 1);
        }
        match sum.checked_add(phases[i].wall_ns) {
            Some(s) => {
                sum = s;
            },
            None => return None,
        }
        i = i + 1;
    }
    assert(phases@.take(phases@.len() as int) =~= phases@);
    Some(sum)
}

/// A prefix of the phases takes no more time than all of them.
proof fn lemma_phase_wall_grows(phases: Seq<MachinePhase>, n: int)
    requires
        0 <= n <= phases.len(),
    ensures
        0 <= phase_wall(phases.take(n)) <= phase_wall(phases),
    decreases phases.len(),
{
    if n == phases.len() {
        assert(phases.take(n) =~= phases);
        if n > 0 {
            lemma_phase_wall_grows(phases.drop_last(), n - 1);
            assert(phases.drop_last().take(n - 1) =~= phases.drop_last());
        }
    } else {
        lemma_phase_wall_grows(phases.drop_last(), n);
        assert(phases.drop_last().take(n) =~= phases.take(n));
    }
}

/// Host time in no phase: what is left of the run, its own time cut off at 64 bits.
pub open spec fn unattributed_wall(p: HddProfile) -> int {
    let total = if p.wall_ns <= u64::MAX {
        p.wall_ns as int
    } else {
        u64::MAX as int
    };
    if total >= phase_wall(p.machine_phases@) {
        total - phase_wall(p.machine_phases@)
    } else {
        0
    }
}

/// What a profile can be reported of: its sums fit, and its wipe census has no
/// bucket past 64 bits.
pub open spec fn profile_fits(p: HddProfile) -> bool {
    &&& phase_wall(p.machine_phases@) <= u64::MAX
    &&& p.direct_barrier_census matches Some(s) ==> barrier_census_fits(s)
    &&& p.vga_wipe_census matches Some(s) ==> s.gap_buckets@.len() <= 64
}

/// The fields that every build reports.
pub open spec fn hdd_profile_fields(p: HddProfile) -> Map<Seq<char>, JsonModel> {
    map![
        "schema"@ => JsonModel::Str("izarravm-hdd-profile-v1"@),
        "workload"@ => JsonModel::Str(p.workload@),
        "mode"@ => JsonModel::Str(p.mode@),
        "timing_model_epoch"@ => JsonModel::Num(p.timing_model_epoch as int),
        "cycle_budget"@ => JsonModel::Num(p.cycle_budget as int),
        "stop"@ => stop_reason_model(p.stop),
        "wall_seconds"@ => json_of(p.rates.wall_seconds),
        "guest_seconds"@ => json_of(p.rates.guest_seconds),
        "real_time_factor"@ => json_of(p.rates.real_time_factor),
        "master_ticks"@ => JsonModel::Num(p.master_ticks as int),
        "elapsed_budget_clocks"@ => JsonModel::Num(p.elapsed_budget_clocks as int),
        "executed_cpu_core_clocks"@ => JsonModel::Num(p.executed_cpu_core_clocks as int),
        "raw_bus_clocks"@ => JsonModel::Num(p.raw_bus_clocks as int),
        "scaled_bus_clocks"@ => JsonModel::Num(p.scaled_bus_clocks as int),
        "instructions_per_host_second"@ => json_of(p.rates.instructions_per_host_second),
        "budget_clocks_per_host_second"@ => json_of(p.rates.budget_clocks_per_host_second),
        "cpu_core_clocks_per_host_second"@ => json_of(p.rates.cpu_core_clocks_per_host_second),
        "direct_native_coverage"@ => json_of(p.rates.direct_native_coverage),
        "direct_slow_exits_per_100_instructions"@ => json_of(
            p.rates.direct_slow_exits_per_100_instructions,
        ),
        "active_display"@ => JsonModel::Str(p.active_display@),
        "legacy_video_mode"@ => JsonModel::Str(p.legacy_video_mode@),
        "vga_text_rows_rendered"@ => JsonModel::Num(p.vga_text_rows_rendered as int),
        "margo_display"@ => opt_margo_display_model(p.margo_display),
        "video_host"@ => video_host_model(p.video_host),
        "timedemo"@ => match p.timedemo { Some(x) => timedemo_model(x), None => JsonModel::Null },
        "machine_phase_timing_enabled"@ => JsonModel::Bool(p.machine_phase_timing_enabled),
        "machine_phases"@ => JsonModel::Arr(
            p.machine_phases@.map_values(|row: MachinePhase| machine_phase_model(row)),
        ),
        "classified_wall_ns"@ => JsonModel::Num(phase_wall(p.machine_phases@)),
        "unattributed_wall_ns"@ => JsonModel::Num(unattributed_wall(p)),
        "direct_barrier_census"@ => direct_barrier_census_model(p.direct_barrier_census),
        "phase_marks"@ => phase_mark_series_model(p.phase_marks@),
        "int13_profile"@ => int13_profile_model(p.int13_profile),
        "katea_geometry"@ => match p.katea_geometry {
            Some(x) => katea_geometry_model(x),
            None => JsonModel::Null,
        },
        "hdd_sector_cache"@ => match p.hdd_sector_cache {
            Some(x) => sector_cache_model(x),
            None => JsonModel::Null,
        },
        "io_stall_ticks"@ => JsonModel::Num(p.io_stall_ticks as int),
        "halted_ticks"@ => JsonModel::Num(p.halted_ticks as int),
        "pit_bulk_advance"@ => pit_bulk_advance_model(p.pit_bulk_advance),
        "cd_pio_bytes"@ => JsonModel::Num(p.cd_pio_bytes as int),
        "cd_accesses"@ => JsonModel::Num(p.cd_accesses as int),
        "atapi_packet_commands"@ => JsonModel::Num(p.atapi_packet_commands as int),
        "ata_poll_skip"@ => ata_poll_skip_model(p.ata_poll_skip),
        "katea"@ => match p.katea { Some(x) => katea_counters_model(x), None => JsonModel::Null },
        "direct_stalls"@ => direct_stall_model(p.direct_stalls),
        "vga_wipe_census"@ => vga_wipe_census_model(p.vga_wipe_census),
        "shadow_l1"@ => shadow_l1_model(p.shadow_l1),
        "opl"@ => opl_diagnostics_model(p.opl),
        "sb_dsp"@ => sb_dsp_model(p.sb_dsp),
        "mpu"@ => mpu_model(p.mpu),
        "timer"@ => timer_model(p.timer),
        "perf"@ => json_of(p.perf),
    ]
}

/// What [`hdd_profile_json`] gives.
pub open spec fn hdd_profile_model(p: HddProfile) -> JsonModel {
    JsonModel::Obj(with_sections(hdd_profile_fields(p), p.sections))
}

/// The profile of a run as one object.
pub fn hdd_profile_json(p: &HddProfile) -> (value: serde_json::Value)
    requires
        profile_fits(*p),
    ensures
        json_of(value) == hdd_profile_model(*p),
        says_times_and_rates(json_of(value), *p),
{
    let classified: u64 = classified_wall_ns(&p.machine_phases).unwrap();
    let total: u64 = if p.wall_ns <= u64::MAX as u128 {
        p.wall_ns as u64
    } else {
        u64::MAX
    };
    proof {
        lemma_phase_wall_grows(p.machine_phases@, 0);
    }
    let mut fields = no_fields();
    put_text(&mut fields, "schema", "izarravm-hdd-profile-v1");
    put_text(&mut fields, "workload", p.workload.as_str());
    put_text(&mut fields, "mode", p.mode.as_str());
    put_number(&mut fields, "timing_model_epoch", p.timing_model_epoch);
    put_number(&mut fields, "cycle_budget", p.cycle_budget);
    put(&mut fields, "stop", stop_reason_json(&p.stop));
    put(&mut fields, "wall_seconds", same(&p.rates.wall_seconds));
    put(&mut fields, "guest_seconds", same(&p.rates.guest_seconds));
    put(&mut fields, "real_time_factor", same(&p.rates.real_time_factor));
    put_number(&mut fields, "master_ticks", p.master_ticks);
    put_number(&mut fields, "elapsed_budget_clocks", p.elapsed_budget_clocks);
    put_number(&mut fields, "executed_cpu_core_clocks", p.executed_cpu_core_clocks);
    put_number(&mut fields, "raw_bus_clocks", p.raw_bus_clocks);
    put_number(&mut fields, "scaled_bus_clocks", p.scaled_bus_clocks);
    put(&mut fields, "instructions_per_host_second", same(&p.rates.instructions_per_host_second));
    put(&mut fields, "budget_clocks_per_host_second", same(&p.rates.budget_clocks_per_host_second));
    put(
        &mut fields,
        "cpu_core_clocks_per_host_second",
        same(&p.rates.cpu_core_clocks_per_host_second),
    );
    put(&mut fields, "direct_native_coverage", same(&p.rates.direct_native_coverage));
    put(
        &mut fields,
        "direct_slow_exits_per_100_instructions",
        same(&p.rates.direct_slow_exits_per_100_instructions),
    );
    put_text(&mut fields, "active_display", p.active_display.as_str());
    put_text(&mut fields, "legacy_video_mode", p.legacy_video_mode.as_str());
    put_number(&mut fields, "vga_text_rows_rendered", p.vga_text_rows_rendered);
    put(&mut fields, "margo_display", opt_margo_display_json(&p.margo_display));
    put(&mut fields, "video_host", video_host_json(&p.video_host));
    put(&mut fields, "timedemo", match &p.timedemo { Some(x) => timedemo_json(x), None => null() });
    put_flag(&mut fields, "machine_phase_timing_enabled", p.machine_phase_timing_enabled);
    put(
        &mut fields,
        "machine_phases",
        rows(
            &p.machine_phases,
            machine_phase_json,
            Ghost(|row: MachinePhase| machine_phase_model(row)),
        ),
    );
    put(&mut fields, "classified_wall_ns", number(classified));
    put(&mut fields, "unattributed_wall_ns", number(total.saturating_sub(classified)));
    put(&mut fields, "direct_barrier_census", direct_barrier_census_json(&p.direct_barrier_census));
    put(&mut fields, "phase_marks", phase_mark_series_json(&p.phase_marks));
    put(&mut fields, "int13_profile", int13_profile_json(&p.int13_profile));
    put(
        &mut fields,
        "katea_geometry",
        match &p.katea_geometry { Some(x) => katea_geometry_json(x), None => null() },
    );
    put(
        &mut fields,
        "hdd_sector_cache",
        match &p.hdd_sector_cache { Some(x) => sector_cache_json(x), None => null() },
    );
    put_number(&mut fields, "io_stall_ticks", p.io_stall_ticks);
    put_number(&mut fields, "halted_ticks", p.halted_ticks);
    put(&mut fields, "pit_bulk_advance", pit_bulk_advance_json(&p.pit_bulk_advance));
    put_number(&mut fields, "cd_pio_bytes", p.cd_pio_bytes);
    put_number(&mut fields, "cd_accesses", p.cd_accesses);
    put_number(&mut fields, "atapi_packet_commands", p.atapi_packet_commands);
    put(&mut fields, "ata_poll_skip", ata_poll_skip_json(&p.ata_poll_skip));
    put(&mut fields, "katea", match &p.katea { Some(x) => katea_counters_json(x), None => null() });
    put(&mut fields, "direct_stalls", direct_stall_json(&p.direct_stalls));
    put(&mut fields, "vga_wipe_census", vga_wipe_census_json(&p.vga_wipe_census));
    put(&mut fields, "shadow_l1", shadow_l1_json(&p.shadow_l1));
    put(&mut fields, "opl", opl_diagnostics_json(&p.opl));
    put(&mut fields, "sb_dsp", sb_dsp_json(&p.sb_dsp));
    put(&mut fields, "mpu", mpu_json(&p.mpu));
    put(&mut fields, "timer", timer_json(&p.timer));
    put(&mut fields, "perf", same(&p.perf));
    put_section(&mut fields, "direct_link_refusal_census", &p.sections.direct_link_refusal_census);
    put_section(&mut fields, "reflected_call_diagnostic", &p.sections.reflected_call_diagnostic);
    put_section(&mut fields, "reflected_call_memo", &p.sections.reflected_call_memo);
    put_section(&mut fields, "direct_callout_attribution", &p.sections.direct_callout_attribution);
    put_section(&mut fields, "smc_census", &p.sections.smc_census);
    put_section(&mut fields, "seg_head_diagnostic", &p.sections.seg_head_diagnostic);
    put_section(&mut fields, "retf_arity_census", &p.sections.retf_arity_census);
    put_section(&mut fields, "direct_entry_attribution", &p.sections.direct_entry_attribution);
    proof {
        law_a_profile_says_times_and_rates(*p);
    }
    object(fields)
}

/// The profile file of a run.
pub fn hdd_profile_text(p: &HddProfile) -> (file: String)
    requires
        profile_fits(*p),
    ensures
        file@ == pretty_json(hdd_profile_model(*p)),
{
    pretty_text(&hdd_profile_json(p))
}

// ---------------------------------------------------------------------------
// By key
// ---------------------------------------------------------------------------

/// Looked up by its key, every entry of the object is the figure that the key names.
pub proof fn law_video_host_by_key(v: VideoHostMetrics)
    ensures
        number_under(video_host_model(v), "margo_lfb_direct_read_bytes"@)
            == Some(v.margo_lfb_direct_read_bytes as int),
        number_under(video_host_model(v), "margo_lfb_direct_write_bytes"@)
            == Some( v.margo_lfb_direct_write_bytes as int),
        number_under(video_host_model(v), "margo_lfb_slow_read_bytes"@)
            == Some(v.margo_lfb_slow_read_bytes as int),
        number_under(video_host_model(v), "margo_lfb_slow_write_bytes"@)
            == Some(v.margo_lfb_slow_write_bytes as int),
        number_under(video_host_model(v), "margo_banked_direct_read_bytes"@)
            == Some( v.margo_banked_direct_read_bytes as int),
        number_under(video_host_model(v), "margo_banked_direct_write_bytes"@)
            == Some( v.margo_banked_direct_write_bytes as int),
        number_under(video_host_model(v), "margo_banked_slow_read_bytes"@)
            == Some( v.margo_banked_slow_read_bytes as int),
        number_under(video_host_model(v), "margo_banked_slow_write_bytes"@)
            == Some( v.margo_banked_slow_write_bytes as int),
        number_under(video_host_model(v), "margo_scanout_rows_converted"@)
            == Some( v.margo_scanout_rows_converted as int),
        number_under(video_host_model(v), "margo_scanout_pixels_converted"@)
            == Some( v.margo_scanout_pixels_converted as int),
{
    reveal_strlit("margo_lfb_direct_read_bytes");
    assert("margo_lfb_direct_read_bytes"@.len() == 27 && "margo_lfb_direct_read_bytes"@[6] == 'l');
    reveal_strlit("margo_lfb_direct_write_bytes");
    assert("margo_lfb_direct_write_bytes"@.len() == 28 && "margo_lfb_direct_write_bytes"@[6] == 'l');
    reveal_strlit("margo_lfb_slow_read_bytes");
    assert("margo_lfb_slow_read_bytes"@.len() == 25 && "margo_lfb_slow_read_bytes"@[6] == 'l');
    reveal_strlit("margo_lfb_slow_write_bytes");
    assert("margo_lfb_slow_write_bytes"@.len() == 26 && "margo_lfb_slow_write_bytes"@[6] == 'l');
    reveal_strlit("margo_banked_direct_read_bytes");
    assert("margo_banked_direct_read_bytes"@.len() == 30 && "margo_banked_direct_read_bytes"@[6] == 'b');
    reveal_strlit("margo_banked_direct_write_bytes");
    assert("margo_banked_direct_write_bytes"@.len() == 31 && "margo_banked_direct_write_bytes"@[6] == 'b');
    reveal_strlit("margo_banked_slow_read_bytes");
    assert("margo_banked_slow_read_bytes"@.len() == 28 && "margo_banked_slow_read_bytes"@[6] == 'b');
    reveal_strlit("margo_banked_slow_write_bytes");
    assert("margo_banked_slow_write_bytes"@.len() == 29 && "margo_banked_slow_write_bytes"@[6] == 'b');
    reveal_strlit("margo_scanout_rows_converted");
    assert("margo_scanout_rows_converted"@.len() == 28 && "margo_scanout_rows_converted"@[6] == 's');
    reveal_strlit("margo_scanout_pixels_converted");
    assert("margo_scanout_pixels_converted"@.len() == 30 && "margo_scanout_pixels_converted"@[6] == 's');
}

/// Looked up by its key, every entry of the object is the figure that the key names.
pub proof fn law_machine_phase_by_key(p: MachinePhase)
    ensures
        text_under(machine_phase_model(p), "name"@) == Some(p.name@),
        number_under(machine_phase_model(p), "wall_ns"@) == Some(p.wall_ns as int),
        number_under(machine_phase_model(p), "count"@) == Some(p.count as int),
{
    reveal_strlit("name");
    assert("name"@.len() == 4);
    reveal_strlit("wall_ns");
    assert("wall_ns"@.len() == 7);
    reveal_strlit("count");
    assert("count"@.len() == 5);
}

/// Looked up by its key, every entry of the object is the figure that the key names.
pub proof fn law_katea_geometry_by_key(g: KateaGeometry)
    ensures
        number_under(katea_geometry_model(g), "sectors_per_cluster"@)
            == Some(g.sectors_per_cluster as int),
        number_under(katea_geometry_model(g), "fat_sectors"@) == Some(g.fat_sectors as int),
        number_under(katea_geometry_model(g), "partition_sectors"@)
            == Some(g.partition_sectors as int),
        number_under(katea_geometry_model(g), "total_sectors"@) == Some(g.total_sectors as int),
        number_under(katea_geometry_model(g), "count_of_clusters"@)
            == Some(g.count_of_clusters as int),
{
    reveal_strlit("sectors_per_cluster");
    assert("sectors_per_cluster"@.len() == 19 && "sectors_per_cluster"@[0] == 's');
    reveal_strlit("fat_sectors");
    assert("fat_sectors"@.len() == 11 && "fat_sectors"@[0] == 'f');
    reveal_strlit("partition_sectors");
    assert("partition_sectors"@.len() == 17 && "partition_sectors"@[0] == 'p');
    reveal_strlit("total_sectors");
    assert("total_sectors"@.len() == 13 && "total_sectors"@[0] == 't');
    reveal_strlit("count_of_clusters");
    assert("count_of_clusters"@.len() == 17 && "count_of_clusters"@[0] == 'c');
}

/// Looked up by its key, every entry of the object is the figure that the key names.
pub proof fn law_sector_cache_by_key(c: SectorCache)
    ensures
        number_under(sector_cache_model(c), "hits"@) == Some(c.hits as int),
        number_under(sector_cache_model(c), "misses"@) == Some(c.misses as int),
{
    reveal_strlit("hits");
    assert("hits"@.len() == 4);
    reveal_strlit("misses");
    assert("misses"@.len() == 6);
}

/// Looked up by its key, every entry of the object is the figure that the key names.
pub proof fn law_timedemo_by_key(t: Timedemo)
    ensures
        number_under(timedemo_model(t), "gametics"@) == Some(t.gametics as int),
        number_under(timedemo_model(t), "realtics"@) == Some(t.realtics as int),
{
    reveal_strlit("gametics");
    assert("gametics"@.len() == 8 && "gametics"@[0] == 'g');
    reveal_strlit("realtics");
    assert("realtics"@.len() == 8 && "realtics"@[0] == 'r');
}

/// Looked up by its key, every entry of the object is the figure that the key names.
pub proof fn law_seg_head_by_key(d: SegHeadDiagnostic)
    ensures
        number_under(seg_head_model(d), "entries"@) == Some(d.seg_head_diagnostic_entries as int),
        number_under(seg_head_model(d), "successor_pins_written"@)
            == Some(d.seg_head_successor_pins_written as int),
        number_under(seg_head_model(d), "successor_absent"@)
            == Some(d.seg_head_successor_absent as int),
        number_under(seg_head_model(d), "selector_repeat"@)
            == Some(d.seg_head_selector_repeat as int),
        number_under(seg_head_model(d), "dirty_multi"@) == Some(d.seg_head_dirty_multi as int),
        number_under(seg_head_model(d), "eligible"@) == Some(d.seg_head_eligible as int),
        number_under(seg_head_model(d), "eligible_successor_pins_written"@)
            == Some( d.seg_head_eligible_successor_pins_written as int),
        number_under(seg_head_model(d), "eligible_successor_absent"@)
            == Some( d.seg_head_eligible_successor_absent as int),
        number_under(seg_head_model(d), "eligible_selector_repeat"@)
            == Some( d.seg_head_eligible_selector_repeat as int),
        number_under(seg_head_model(d), "segment_write_block_head_entries"@)
            == Some( d.segment_write_block_head_entries as int),
{
    reveal_strlit("entries");
    assert("entries"@.len() == 7);
    reveal_strlit("successor_pins_written");
    assert("successor_pins_written"@.len() == 22);
    reveal_strlit("successor_absent");
    assert("successor_absent"@.len() == 16);
    reveal_strlit("selector_repeat");
    assert("selector_repeat"@.len() == 15);
    reveal_strlit("dirty_multi");
    assert("dirty_multi"@.len() == 11);
    reveal_strlit("eligible");
    assert("eligible"@.len() == 8);
    reveal_strlit("eligible_successor_pins_written");
    assert("eligible_successor_pins_written"@.len() == 31);
    reveal_strlit("eligible_successor_absent");
    assert("eligible_successor_absent"@.len() == 25);
    reveal_strlit("eligible_selector_repeat");
    assert("eligible_selector_repeat"@.len() == 24);
    reveal_strlit("segment_write_block_head_entries");
    assert("segment_write_block_head_entries"@.len() == 32);
}

/// Looked up by its key, every entry of the object is the figure that the key names.
pub proof fn law_retf_arity_by_key(r: RetfArity)
    ensures
        under(retf_arity_model(r), "executions_by_distinct_targets"@)
            == Some(num_array(r.histogram@)),
        number_under(retf_arity_model(r), "sites"@) == Some(r.sites as int),
{
    reveal_strlit("executions_by_distinct_targets");
    assert("executions_by_distinct_targets"@.len() == 30);
    reveal_strlit("sites");
    assert("sites"@.len() == 5);
}

/// What tells the keys of the object apart.
proof fn lemma_hdd_profile_keys_differ()
    ensures
        "schema"@.len() == 6 && "schema"@[0] == 's' && "schema"@[1] == 'c',
        "workload"@.len() == 8 && "workload"@[0] == 'w' && "workload"@[1] == 'o',
        "mode"@.len() == 4 && "mode"@[0] == 'm' && "mode"@[1] == 'o',
        "timing_model_epoch"@.len() == 18 && "timing_model_epoch"@[0] == 't' && "timing_model_epoch"@[1] == 'i',
        "cycle_budget"@.len() == 12 && "cycle_budget"@[0] == 'c' && "cycle_budget"@[1] == 'y',
        "stop"@.len() == 4 && "stop"@[0] == 's' && "stop"@[1] == 't',
        "wall_seconds"@.len() == 12 && "wall_seconds"@[0] == 'w' && "wall_seconds"@[1] == 'a',
        "guest_seconds"@.len() == 13 && "guest_seconds"@[0] == 'g' && "guest_seconds"@[1] == 'u',
        "real_time_factor"@.len() == 16 && "real_time_factor"@[0] == 'r' && "real_time_factor"@[1] == 'e',
        "master_ticks"@.len() == 12 && "master_ticks"@[0] == 'm' && "master_ticks"@[1] == 'a',
        "elapsed_budget_clocks"@.len() == 21 && "elapsed_budget_clocks"@[0] == 'e' && "elapsed_budget_clocks"@[1] == 'l',
        "executed_cpu_core_clocks"@.len() == 24 && "executed_cpu_core_clocks"@[0] == 'e' && "executed_cpu_core_clocks"@[1] == 'x',
        "raw_bus_clocks"@.len() == 14 && "raw_bus_clocks"@[0] == 'r' && "raw_bus_clocks"@[1] == 'a',
        "scaled_bus_clocks"@.len() == 17 && "scaled_bus_clocks"@[0] == 's' && "scaled_bus_clocks"@[1] == 'c',
        "instructions_per_host_second"@.len() == 28 && "instructions_per_host_second"@[0] == 'i' && "instructions_per_host_second"@[1] == 'n',
        "budget_clocks_per_host_second"@.len() == 29 && "budget_clocks_per_host_second"@[0] == 'b' && "budget_clocks_per_host_second"@[1] == 'u',
        "cpu_core_clocks_per_host_second"@.len() == 31 && "cpu_core_clocks_per_host_second"@[0] == 'c' && "cpu_core_clocks_per_host_second"@[1] == 'p',
        "direct_native_coverage"@.len() == 22 && "direct_native_coverage"@[0] == 'd' && "direct_native_coverage"@[1] == 'i',
        "direct_slow_exits_per_100_instructions"@.len() == 38 && "direct_slow_exits_per_100_instructions"@[0] == 'd' && "direct_slow_exits_per_100_instructions"@[1] == 'i',
        "active_display"@.len() == 14 && "active_display"@[0] == 'a' && "active_display"@[1] == 'c',
        "legacy_video_mode"@.len() == 17 && "legacy_video_mode"@[0] == 'l' && "legacy_video_mode"@[1] == 'e',
        "vga_text_rows_rendered"@.len() == 22 && "vga_text_rows_rendered"@[0] == 'v' && "vga_text_rows_rendered"@[1] == 'g',
        "margo_display"@.len() == 13 && "margo_display"@[0] == 'm' && "margo_display"@[1] == 'a',
        "video_host"@.len() == 10 && "video_host"@[0] == 'v' && "video_host"@[1] == 'i',
        "timedemo"@.len() == 8 && "timedemo"@[0] == 't' && "timedemo"@[1] == 'i',
        "machine_phase_timing_enabled"@.len() == 28 && "machine_phase_timing_enabled"@[0] == 'm' && "machine_phase_timing_enabled"@[1] == 'a',
        "machine_phases"@.len() == 14 && "machine_phases"@[0] == 'm' && "machine_phases"@[1] == 'a',
        "classified_wall_ns"@.len() == 18 && "classified_wall_ns"@[0] == 'c' && "classified_wall_ns"@[1] == 'l',
        "unattributed_wall_ns"@.len() == 20 && "unattributed_wall_ns"@[0] == 'u' && "unattributed_wall_ns"@[1] == 'n',
        "direct_barrier_census"@.len() == 21 && "direct_barrier_census"@[0] == 'd' && "direct_barrier_census"@[1] == 'i',
        "phase_marks"@.len() == 11 && "phase_marks"@[0] == 'p' && "phase_marks"@[1] == 'h',
        "int13_profile"@.len() == 13 && "int13_profile"@[0] == 'i' && "int13_profile"@[1] == 'n',
        "katea_geometry"@.len() == 14 && "katea_geometry"@[0] == 'k' && "katea_geometry"@[1] == 'a',
        "hdd_sector_cache"@.len() == 16 && "hdd_sector_cache"@[0] == 'h' && "hdd_sector_cache"@[1] == 'd',
        "io_stall_ticks"@.len() == 14 && "io_stall_ticks"@[0] == 'i' && "io_stall_ticks"@[1] == 'o',
        "halted_ticks"@.len() == 12 && "halted_ticks"@[0] == 'h' && "halted_ticks"@[1] == 'a',
        "pit_bulk_advance"@.len() == 16 && "pit_bulk_advance"@[0] == 'p' && "pit_bulk_advance"@[1] == 'i',
        "cd_pio_bytes"@.len() == 12 && "cd_pio_bytes"@[0] == 'c' && "cd_pio_bytes"@[1] == 'd',
        "cd_accesses"@.len() == 11 && "cd_accesses"@[0] == 'c' && "cd_accesses"@[1] == 'd',
        "atapi_packet_commands"@.len() == 21 && "atapi_packet_commands"@[0] == 'a' && "atapi_packet_commands"@[1] == 't',
        "ata_poll_skip"@.len() == 13 && "ata_poll_skip"@[0] == 'a' && "ata_poll_skip"@[1] == 't',
        "katea"@.len() == 5 && "katea"@[0] == 'k' && "katea"@[1] == 'a',
        "direct_stalls"@.len() == 13 && "direct_stalls"@[0] == 'd' && "direct_stalls"@[1] == 'i',
        "vga_wipe_census"@.len() == 15 && "vga_wipe_census"@[0] == 'v' && "vga_wipe_census"@[1] == 'g',
        "shadow_l1"@.len() == 9 && "shadow_l1"@[0] == 's' && "shadow_l1"@[1] == 'h',
        "opl"@.len() == 3 && "opl"@[0] == 'o' && "opl"@[1] == 'p',
        "sb_dsp"@.len() == 6 && "sb_dsp"@[0] == 's' && "sb_dsp"@[1] == 'b',
        "mpu"@.len() == 3 && "mpu"@[0] == 'm' && "mpu"@[1] == 'p',
        "timer"@.len() == 5 && "timer"@[0] == 't' && "timer"@[1] == 'i',
        "perf"@.len() == 4 && "perf"@[0] == 'p' && "perf"@[1] == 'e',
{
    reveal_strlit("schema");
    reveal_strlit("workload");
    reveal_strlit("mode");
    reveal_strlit("timing_model_epoch");
    reveal_strlit("cycle_budget");
    reveal_strlit("stop");
    reveal_strlit("wall_seconds");
    reveal_strlit("guest_seconds");
    reveal_strlit("real_time_factor");
    reveal_strlit("master_ticks");
    reveal_strlit("elapsed_budget_clocks");
    reveal_strlit("executed_cpu_core_clocks");
    reveal_strlit("raw_bus_clocks");
    reveal_strlit("scaled_bus_clocks");
    reveal_strlit("instructions_per_host_second");
    reveal_strlit("budget_clocks_per_host_second");
    reveal_strlit("cpu_core_clocks_per_host_second");
    reveal_strlit("direct_native_coverage");
    reveal_strlit("direct_slow_exits_per_100_instructions");
    reveal_strlit("active_display");
    reveal_strlit("legacy_video_mode");
    reveal_strlit("vga_text_rows_rendered");
    reveal_strlit("margo_display");
    reveal_strlit("video_host");
    reveal_strlit("timedemo");
    reveal_strlit("machine_phase_timing_enabled");
    reveal_strlit("machine_phases");
    reveal_strlit("classified_wall_ns");
    reveal_strlit("unattributed_wall_ns");
    reveal_strlit("direct_barrier_census");
    reveal_strlit("phase_marks");
    reveal_strlit("int13_profile");
    reveal_strlit("katea_geometry");
    reveal_strlit("hdd_sector_cache");
    reveal_strlit("io_stall_ticks");
    reveal_strlit("halted_ticks");
    reveal_strlit("pit_bulk_advance");
    reveal_strlit("cd_pio_bytes");
    reveal_strlit("cd_accesses");
    reveal_strlit("atapi_packet_commands");
    reveal_strlit("ata_poll_skip");
    reveal_strlit("katea");
    reveal_strlit("direct_stalls");
    reveal_strlit("vga_wipe_census");
    reveal_strlit("shadow_l1");
    reveal_strlit("opl");
    reveal_strlit("sb_dsp");
    reveal_strlit("mpu");
    reveal_strlit("timer");
    reveal_strlit("perf");
}

/// Some entries of the object, looked up by their keys.
proof fn lemma_hdd_profile_keys_a(p: HddProfile)
    ensures
        text_under(JsonModel::Obj(hdd_profile_fields(p)), "schema"@)
            == Some("izarravm-hdd-profile-v1"@),
        text_under(JsonModel::Obj(hdd_profile_fields(p)), "workload"@) == Some(p.workload@),
        text_under(JsonModel::Obj(hdd_profile_fields(p)), "mode"@) == Some(p.mode@),
        number_under(JsonModel::Obj(hdd_profile_fields(p)), "timing_model_epoch"@)
            == Some(p.timing_model_epoch as int),
        number_under(JsonModel::Obj(hdd_profile_fields(p)), "cycle_budget"@)
            == Some(p.cycle_budget as int),
        under(JsonModel::Obj(hdd_profile_fields(p)), "stop"@) == Some(stop_reason_model(p.stop)),
        under(JsonModel::Obj(hdd_profile_fields(p)), "wall_seconds"@)
            == Some(json_of(p.rates.wall_seconds)),
        under(JsonModel::Obj(hdd_profile_fields(p)), "guest_seconds"@)
            == Some(json_of(p.rates.guest_seconds)),
        under(JsonModel::Obj(hdd_profile_fields(p)), "real_time_factor"@)
            == Some(json_of(p.rates.real_time_factor)),
        number_under(JsonModel::Obj(hdd_profile_fields(p)), "master_ticks"@)
            == Some(p.master_ticks as int),
        number_under(JsonModel::Obj(hdd_profile_fields(p)), "elapsed_budget_clocks"@)
            == Some(p.elapsed_budget_clocks as int),
        number_under(JsonModel::Obj(hdd_profile_fields(p)), "executed_cpu_core_clocks"@)
            == Some(p.executed_cpu_core_clocks as int),
        number_under(JsonModel::Obj(hdd_profile_fields(p)), "raw_bus_clocks"@)
            == Some(p.raw_bus_clocks as int),
        number_under(JsonModel::Obj(hdd_profile_fields(p)), "scaled_bus_clocks"@)
            == Some(p.scaled_bus_clocks as int),
        under(JsonModel::Obj(hdd_profile_fields(p)), "instructions_per_host_second"@)
            == Some(json_of(p.rates.instructions_per_host_second)),
        under(JsonModel::Obj(hdd_profile_fields(p)), "budget_clocks_per_host_second"@)
            == Some(json_of(p.rates.budget_clocks_per_host_second)),
        under(JsonModel::Obj(hdd_profile_fields(p)), "cpu_core_clocks_per_host_second"@)
            == Some(json_of(p.rates.cpu_core_clocks_per_host_second)),
        under(JsonModel::Obj(hdd_profile_fields(p)), "direct_native_coverage"@)
            == Some(json_of(p.rates.direct_native_coverage)),
        under(JsonModel::Obj(hdd_profile_fields(p)), "direct_slow_exits_per_100_instructions"@)
            == Some(json_of( p.rates.direct_slow_exits_per_100_instructions, )),
        text_under(JsonModel::Obj(hdd_profile_fields(p)), "active_display"@)
            == Some(p.active_display@),
        text_under(JsonModel::Obj(hdd_profile_fields(p)), "legacy_video_mode"@)
            == Some(p.legacy_video_mode@),
        number_under(JsonModel::Obj(hdd_profile_fields(p)), "vga_text_rows_rendered"@)
            == Some(p.vga_text_rows_rendered as int),
        under(JsonModel::Obj(hdd_profile_fields(p)), "margo_display"@)
            == Some(opt_margo_display_model(p.margo_display)),
        under(JsonModel::Obj(hdd_profile_fields(p)), "video_host"@)
            == Some(video_host_model(p.video_host)),
        under(JsonModel::Obj(hdd_profile_fields(p)), "timedemo"@)
            == Some(match p.timedemo { Some(x) => timedemo_model(x), None => JsonModel::Null }),
        flag_under(JsonModel::Obj(hdd_profile_fields(p)), "machine_phase_timing_enabled"@)
            == Some(p.machine_phase_timing_enabled),
{
    lemma_hdd_profile_keys_differ();
}

/// Some entries of the object, looked up by their keys.
proof fn lemma_hdd_profile_keys_b(p: HddProfile)
    ensures
        under(JsonModel::Obj(hdd_profile_fields(p)), "machine_phases"@)
            == Some(JsonModel::Arr( p.machine_phases@.map_values(|row: MachinePhase| machine_phase_model(row)), )),
        number_under(JsonModel::Obj(hdd_profile_fields(p)), "classified_wall_ns"@)
            == Some(phase_wall(p.machine_phases@)),
        number_under(JsonModel::Obj(hdd_profile_fields(p)), "unattributed_wall_ns"@)
            == Some(unattributed_wall(p)),
        under(JsonModel::Obj(hdd_profile_fields(p)), "direct_barrier_census"@)
            == Some(direct_barrier_census_model(p.direct_barrier_census)),
        under(JsonModel::Obj(hdd_profile_fields(p)), "phase_marks"@)
            == Some(phase_mark_series_model(p.phase_marks@)),
        under(JsonModel::Obj(hdd_profile_fields(p)), "int13_profile"@)
            == Some(int13_profile_model(p.int13_profile)),
        under(JsonModel::Obj(hdd_profile_fields(p)), "katea_geometry"@)
            == Some(match p.katea_geometry { Some(x) => katea_geometry_model(x), None => JsonModel::Null, }),
        under(JsonModel::Obj(hdd_profile_fields(p)), "hdd_sector_cache"@)
            == Some(match p.hdd_sector_cache { Some(x) => sector_cache_model(x), None => JsonModel::Null, }),
        number_under(JsonModel::Obj(hdd_profile_fields(p)), "io_stall_ticks"@)
            == Some(p.io_stall_ticks as int),
        number_under(JsonModel::Obj(hdd_profile_fields(p)), "halted_ticks"@)
            == Some(p.halted_ticks as int),
        under(JsonModel::Obj(hdd_profile_fields(p)), "pit_bulk_advance"@)
            == Some(pit_bulk_advance_model(p.pit_bulk_advance)),
        number_under(JsonModel::Obj(hdd_profile_fields(p)), "cd_pio_bytes"@)
            == Some(p.cd_pio_bytes as int),
        number_under(JsonModel::Obj(hdd_profile_fields(p)), "cd_accesses"@)
            == Some(p.cd_accesses as int),
        number_under(JsonModel::Obj(hdd_profile_fields(p)), "atapi_packet_commands"@)
            == Some(p.atapi_packet_commands as int),
        under(JsonModel::Obj(hdd_profile_fields(p)), "ata_poll_skip"@)
            == Some(ata_poll_skip_model(p.ata_poll_skip)),
        under(JsonModel::Obj(hdd_profile_fields(p)), "katea"@)
            == Some(match p.katea { Some(x) => katea_counters_model(x), None => JsonModel::Null }),
        under(JsonModel::Obj(hdd_profile_fields(p)), "direct_stalls"@)
            == Some(direct_stall_model(p.direct_stalls)),
        under(JsonModel::Obj(hdd_profile_fields(p)), "vga_wipe_census"@)
            == Some(vga_wipe_census_model(p.vga_wipe_census)),
        under(JsonModel::Obj(hdd_profile_fields(p)), "shadow_l1"@)
            == Some(shadow_l1_model(p.shadow_l1)),
        under(JsonModel::Obj(hdd_profile_fields(p)), "opl"@) == Some(opl_diagnostics_model(p.opl)),
        under(JsonModel::Obj(hdd_profile_fields(p)), "sb_dsp"@) == Some(sb_dsp_model(p.sb_dsp)),
        under(JsonModel::Obj(hdd_profile_fields(p)), "mpu"@) == Some(mpu_model(p.mpu)),
        under(JsonModel::Obj(hdd_profile_fields(p)), "timer"@) == Some(timer_model(p.timer)),
        under(JsonModel::Obj(hdd_profile_fields(p)), "perf"@) == Some(json_of(p.perf)),
{
    lemma_hdd_profile_keys_differ();
}

/// Looked up by its key, every entry of the object is the figure that the key names.
pub proof fn law_hdd_profile_by_key(p: HddProfile)
    ensures
        text_under(JsonModel::Obj(hdd_profile_fields(p)), "schema"@)
            == Some("izarravm-hdd-profile-v1"@),
        text_under(JsonModel::Obj(hdd_profile_fields(p)), "workload"@) == Some(p.workload@),
        text_under(JsonModel::Obj(hdd_profile_fields(p)), "mode"@) == Some(p.mode@),
        number_under(JsonModel::Obj(hdd_profile_fields(p)), "timing_model_epoch"@)
            == Some(p.timing_model_epoch as int),
        number_under(JsonModel::Obj(hdd_profile_fields(p)), "cycle_budget"@)
            == Some(p.cycle_budget as int),
        under(JsonModel::Obj(hdd_profile_fields(p)), "stop"@) == Some(stop_reason_model(p.stop)),
        under(JsonModel::Obj(hdd_profile_fields(p)), "wall_seconds"@)
            == Some(json_of(p.rates.wall_seconds)),
        under(JsonModel::Obj(hdd_profile_fields(p)), "guest_seconds"@)
            == Some(json_of(p.rates.guest_seconds)),
        under(JsonModel::Obj(hdd_profile_fields(p)), "real_time_factor"@)
            == Some(json_of(p.rates.real_time_factor)),
        number_under(JsonModel::Obj(hdd_profile_fields(p)), "master_ticks"@)
            == Some(p.master_ticks as int),
        number_under(JsonModel::Obj(hdd_profile_fields(p)), "elapsed_budget_clocks"@)
            == Some(p.elapsed_budget_clocks as int),
        number_under(JsonModel::Obj(hdd_profile_fields(p)), "executed_cpu_core_clocks"@)
            == Some(p.executed_cpu_core_clocks as int),
        number_under(JsonModel::Obj(hdd_profile_fields(p)), "raw_bus_clocks"@)
            == Some(p.raw_bus_clocks as int),
        number_under(JsonModel::Obj(hdd_profile_fields(p)), "scaled_bus_clocks"@)
            == Some(p.scaled_bus_clocks as int),
        under(JsonModel::Obj(hdd_profile_fields(p)), "instructions_per_host_second"@)
            == Some(json_of(p.rates.instructions_per_host_second)),
        under(JsonModel::Obj(hdd_profile_fields(p)), "budget_clocks_per_host_second"@)
            == Some(json_of(p.rates.budget_clocks_per_host_second)),
        under(JsonModel::Obj(hdd_profile_fields(p)), "cpu_core_clocks_per_host_second"@)
            == Some(json_of(p.rates.cpu_core_clocks_per_host_second)),
        under(JsonModel::Obj(hdd_profile_fields(p)), "direct_native_coverage"@)
            == Some(json_of(p.rates.direct_native_coverage)),
        under(JsonModel::Obj(hdd_profile_fields(p)), "direct_slow_exits_per_100_instructions"@)
            == Some(json_of( p.rates.direct_slow_exits_per_100_instructions, )),
        text_under(JsonModel::Obj(hdd_profile_fields(p)), "active_display"@)
            == Some(p.active_display@),
        text_under(JsonModel::Obj(hdd_profile_fields(p)), "legacy_video_mode"@)
            == Some(p.legacy_video_mode@),
        number_under(JsonModel::Obj(hdd_profile_fields(p)), "vga_text_rows_rendered"@)
            == Some(p.vga_text_rows_rendered as int),
        under(JsonModel::Obj(hdd_profile_fields(p)), "margo_display"@)
            == Some(opt_margo_display_model(p.margo_display)),
        under(JsonModel::Obj(hdd_profile_fields(p)), "video_host"@)
            == Some(video_host_model(p.video_host)),
        under(JsonModel::Obj(hdd_profile_fields(p)), "timedemo"@)
            == Some(match p.timedemo { Some(x) => timedemo_model(x), None => JsonModel::Null }),
        flag_under(JsonModel::Obj(hdd_profile_fields(p)), "machine_phase_timing_enabled"@)
            == Some(p.machine_phase_timing_enabled),
        under(JsonModel::Obj(hdd_profile_fields(p)), "machine_phases"@)
            == Some(JsonModel::Arr( p.machine_phases@.map_values(|row: MachinePhase| machine_phase_model(row)), )),
        number_under(JsonModel::Obj(hdd_profile_fields(p)), "classified_wall_ns"@)
            == Some(phase_wall(p.machine_phases@)),
        number_under(JsonModel::Obj(hdd_profile_fields(p)), "unattributed_wall_ns"@)
            == Some(unattributed_wall(p)),
        under(JsonModel::Obj(hdd_profile_fields(p)), "direct_barrier_census"@)
            == Some(direct_barrier_census_model(p.direct_barrier_census)),
        under(JsonModel::Obj(hdd_profile_fields(p)), "phase_marks"@)
            == Some(phase_mark_series_model(p.phase_marks@)),
        under(JsonModel::Obj(hdd_profile_fields(p)), "int13_profile"@)
            == Some(int13_profile_model(p.int13_profile)),
        under(JsonModel::Obj(hdd_profile_fields(p)), "katea_geometry"@)
            == Some(match p.katea_geometry { Some(x) => katea_geometry_model(x), None => JsonModel::Null, }),
        under(JsonModel::Obj(hdd_profile_fields(p)), "hdd_sector_cache"@)
            == Some(match p.hdd_sector_cache { Some(x) => sector_cache_model(x), None => JsonModel::Null, }),
        number_under(JsonModel::Obj(hdd_profile_fields(p)), "io_stall_ticks"@)
            == Some(p.io_stall_ticks as int),
        number_under(JsonModel::Obj(hdd_profile_fields(p)), "halted_ticks"@)
            == Some(p.halted_ticks as int),
        under(JsonModel::Obj(hdd_profile_fields(p)), "pit_bulk_advance"@)
            == Some(pit_bulk_advance_model(p.pit_bulk_advance)),
        number_under(JsonModel::Obj(hdd_profile_fields(p)), "cd_pio_bytes"@)
            == Some(p.cd_pio_bytes as int),
        number_under(JsonModel::Obj(hdd_profile_fields(p)), "cd_accesses"@)
            == Some(p.cd_accesses as int),
        number_under(JsonModel::Obj(hdd_profile_fields(p)), "atapi_packet_commands"@)
            == Some(p.atapi_packet_commands as int),
        under(JsonModel::Obj(hdd_profile_fields(p)), "ata_poll_skip"@)
            == Some(ata_poll_skip_model(p.ata_poll_skip)),
        under(JsonModel::Obj(hdd_profile_fields(p)), "katea"@)
            == Some(match p.katea { Some(x) => katea_counters_model(x), None => JsonModel::Null }),
        under(JsonModel::Obj(hdd_profile_fields(p)), "direct_stalls"@)
            == Some(direct_stall_model(p.direct_stalls)),
        under(JsonModel::Obj(hdd_profile_fields(p)), "vga_wipe_census"@)
            == Some(vga_wipe_census_model(p.vga_wipe_census)),
        under(JsonModel::Obj(hdd_profile_fields(p)), "shadow_l1"@)
            == Some(shadow_l1_model(p.shadow_l1)),
        under(JsonModel::Obj(hdd_profile_fields(p)), "opl"@) == Some(opl_diagnostics_model(p.opl)),
        under(JsonModel::Obj(hdd_profile_fields(p)), "sb_dsp"@) == Some(sb_dsp_model(p.sb_dsp)),
        under(JsonModel::Obj(hdd_profile_fields(p)), "mpu"@) == Some(mpu_model(p.mpu)),
        under(JsonModel::Obj(hdd_profile_fields(p)), "timer"@) == Some(timer_model(p.timer)),
        under(JsonModel::Obj(hdd_profile_fields(p)), "perf"@) == Some(json_of(p.perf)),
{
    lemma_hdd_profile_keys_a(p);
    lemma_hdd_profile_keys_b(p);
}

/// Whether an object says under its keys when and how fast a run was: host time and
/// guest time apart, and every rate under its own name.
pub open spec fn says_times_and_rates(value: JsonModel, p: HddProfile) -> bool {
    &&& under(value, "wall_seconds"@) == Some(json_of(p.rates.wall_seconds))
    &&& under(value, "guest_seconds"@) == Some(json_of(p.rates.guest_seconds))
    &&& under(value, "real_time_factor"@) == Some(json_of(p.rates.real_time_factor))
    &&& under(value, "instructions_per_host_second"@) == Some(
        json_of(p.rates.instructions_per_host_second),
    )
    &&& under(value, "budget_clocks_per_host_second"@) == Some(
        json_of(p.rates.budget_clocks_per_host_second),
    )
    &&& under(value, "cpu_core_clocks_per_host_second"@) == Some(
        json_of(p.rates.cpu_core_clocks_per_host_second),
    )
    &&& under(value, "stop"@) == Some(stop_reason_model(p.stop))
    &&& text_under(value, "mode"@) == Some(p.mode@)
    &&& number_under(value, "cycle_budget"@) == Some(p.cycle_budget as int)
    &&& number_under(value, "master_ticks"@) == Some(p.master_ticks as int)
    &&& number_under(value, "elapsed_budget_clocks"@) == Some(p.elapsed_budget_clocks as int)
    &&& number_under(value, "executed_cpu_core_clocks"@) == Some(p.executed_cpu_core_clocks as int)
    &&& number_under(value, "classified_wall_ns"@) is Some
    &&& number_under(value, "unattributed_wall_ns"@) is Some
    &&& ({
        let classified = number_under(value, "classified_wall_ns"@)->0;
        let left = number_under(value, "unattributed_wall_ns"@)->0;
        classified <= p.wall_ns <= u64::MAX ==> classified + left == p.wall_ns
    })
}

/// Whether a key is that of a section that only some builds report.
pub open spec fn names_a_section(key: Seq<char>) -> bool {
    ||| key == "direct_link_refusal_census"@
    ||| key == "reflected_call_diagnostic"@
    ||| key == "reflected_call_memo"@
    ||| key == "direct_callout_attribution"@
    ||| key == "smc_census"@
    ||| key == "seg_head_diagnostic"@
    ||| key == "retf_arity_census"@
    ||| key == "direct_entry_attribution"@
}

/// What tells the sections apart.
proof fn lemma_sections_differ()
    ensures
        "direct_link_refusal_census"@.len() == 26 && "direct_link_refusal_census"@[0] == 'd' && "direct_link_refusal_census"@[1] == 'i' && "direct_link_refusal_census"@[2] == 'r' && "direct_link_refusal_census"@[3] == 'e' && "direct_link_refusal_census"@[4] == 'c' && "direct_link_refusal_census"@[5] == 't' && "direct_link_refusal_census"@[6] == '_' && "direct_link_refusal_census"@[7] == 'l',
        "reflected_call_diagnostic"@.len() == 25 && "reflected_call_diagnostic"@[0] == 'r' && "reflected_call_diagnostic"@[1] == 'e' && "reflected_call_diagnostic"@[2] == 'f' && "reflected_call_diagnostic"@[3] == 'l' && "reflected_call_diagnostic"@[4] == 'e' && "reflected_call_diagnostic"@[5] == 'c' && "reflected_call_diagnostic"@[6] == 't' && "reflected_call_diagnostic"@[7] == 'e',
        "reflected_call_memo"@.len() == 19 && "reflected_call_memo"@[0] == 'r' && "reflected_call_memo"@[1] == 'e' && "reflected_call_memo"@[2] == 'f' && "reflected_call_memo"@[3] == 'l' && "reflected_call_memo"@[4] == 'e' && "reflected_call_memo"@[5] == 'c' && "reflected_call_memo"@[6] == 't' && "reflected_call_memo"@[7] == 'e',
        "direct_callout_attribution"@.len() == 26 && "direct_callout_attribution"@[0] == 'd' && "direct_callout_attribution"@[1] == 'i' && "direct_callout_attribution"@[2] == 'r' && "direct_callout_attribution"@[3] == 'e' && "direct_callout_attribution"@[4] == 'c' && "direct_callout_attribution"@[5] == 't' && "direct_callout_attribution"@[6] == '_' && "direct_callout_attribution"@[7] == 'c',
        "smc_census"@.len() == 10 && "smc_census"@[0] == 's' && "smc_census"@[1] == 'm' && "smc_census"@[2] == 'c' && "smc_census"@[3] == '_' && "smc_census"@[4] == 'c' && "smc_census"@[5] == 'e' && "smc_census"@[6] == 'n' && "smc_census"@[7] == 's',
        "seg_head_diagnostic"@.len() == 19 && "seg_head_diagnostic"@[0] == 's' && "seg_head_diagnostic"@[1] == 'e' && "seg_head_diagnostic"@[2] == 'g' && "seg_head_diagnostic"@[3] == '_' && "seg_head_diagnostic"@[4] == 'h' && "seg_head_diagnostic"@[5] == 'e' && "seg_head_diagnostic"@[6] == 'a' && "seg_head_diagnostic"@[7] == 'd',
        "retf_arity_census"@.len() == 17 && "retf_arity_census"@[0] == 'r' && "retf_arity_census"@[1] == 'e' && "retf_arity_census"@[2] == 't' && "retf_arity_census"@[3] == 'f' && "retf_arity_census"@[4] == '_' && "retf_arity_census"@[5] == 'a' && "retf_arity_census"@[6] == 'r' && "retf_arity_census"@[7] == 'i',
        "direct_entry_attribution"@.len() == 24 && "direct_entry_attribution"@[0] == 'd' && "direct_entry_attribution"@[1] == 'i' && "direct_entry_attribution"@[2] == 'r' && "direct_entry_attribution"@[3] == 'e' && "direct_entry_attribution"@[4] == 'c' && "direct_entry_attribution"@[5] == 't' && "direct_entry_attribution"@[6] == '_' && "direct_entry_attribution"@[7] == 'e',
{
    reveal_strlit("direct_link_refusal_census");
    reveal_strlit("reflected_call_diagnostic");
    reveal_strlit("reflected_call_memo");
    reveal_strlit("direct_callout_attribution");
    reveal_strlit("smc_census");
    reveal_strlit("seg_head_diagnostic");
    reveal_strlit("retf_arity_census");
    reveal_strlit("direct_entry_attribution");
}

/// A section that was built stands under its own name, and one that was not leaves no
/// key.
pub proof fn law_sections_by_key(p: HddProfile)
    ensures
        under(hdd_profile_model(p), "direct_link_refusal_census"@) == match p.sections.direct_link_refusal_census {
            Some(value) => Some(json_of(value)),
            None => None,
        },
        under(hdd_profile_model(p), "reflected_call_diagnostic"@) == match p.sections.reflected_call_diagnostic {
            Some(value) => Some(json_of(value)),
            None => None,
        },
        under(hdd_profile_model(p), "reflected_call_memo"@) == match p.sections.reflected_call_memo {
            Some(value) => Some(json_of(value)),
            None => None,
        },
        under(hdd_profile_model(p), "direct_callout_attribution"@) == match p.sections.direct_callout_attribution {
            Some(value) => Some(json_of(value)),
            None => None,
        },
        under(hdd_profile_model(p), "smc_census"@) == match p.sections.smc_census {
            Some(value) => Some(json_of(value)),
            None => None,
        },
        under(hdd_profile_model(p), "seg_head_diagnostic"@) == match p.sections.seg_head_diagnostic {
            Some(value) => Some(json_of(value)),
            None => None,
        },
        under(hdd_profile_model(p), "retf_arity_census"@) == match p.sections.retf_arity_census {
            Some(value) => Some(json_of(value)),
            None => None,
        },
        under(hdd_profile_model(p), "direct_entry_attribution"@) == match p.sections.direct_entry_attribution {
            Some(value) => Some(json_of(value)),
            None => None,
        },
{
    let fields = hdd_profile_fields(p);
    lemma_sections_differ();
    lemma_hdd_profile_keys_differ();
}

/// The sections leave every other entry of a profile as it is.
pub proof fn law_sections_leave_the_rest(
    fields: Map<Seq<char>, JsonModel>,
    s: OptionalSections,
    key: Seq<char>,
)
    requires
        !names_a_section(key),
    ensures
        under(JsonModel::Obj(with_sections(fields, s)), key) == under(JsonModel::Obj(fields), key),
{
}

/// A profile says its times and its rates under their own names.
pub proof fn law_a_profile_says_times_and_rates(p: HddProfile)
    ensures
        says_times_and_rates(hdd_profile_model(p), p),
{
    let fields = hdd_profile_fields(p);
    law_hdd_profile_by_key(p);
    lemma_hdd_profile_keys_differ();
    lemma_sections_differ();
    law_sections_leave_the_rest(fields, p.sections, "wall_seconds"@);
    law_sections_leave_the_rest(fields, p.sections, "guest_seconds"@);
    law_sections_leave_the_rest(fields, p.sections, "real_time_factor"@);
    law_sections_leave_the_rest(fields, p.sections, "instructions_per_host_second"@);
    law_sections_leave_the_rest(fields, p.sections, "budget_clocks_per_host_second"@);
    law_sections_leave_the_rest(fields, p.sections, "cpu_core_clocks_per_host_second"@);
    law_sections_leave_the_rest(fields, p.sections, "stop"@);
    law_sections_leave_the_rest(fields, p.sections, "mode"@);
    law_sections_leave_the_rest(fields, p.sections, "cycle_budget"@);
    law_sections_leave_the_rest(fields, p.sections, "master_ticks"@);
    law_sections_leave_the_rest(fields, p.sections, "elapsed_budget_clocks"@);
    law_sections_leave_the_rest(fields, p.sections, "executed_cpu_core_clocks"@);
    law_sections_leave_the_rest(fields, p.sections, "classified_wall_ns"@);
    law_sections_leave_the_rest(fields, p.sections, "unattributed_wall_ns"@);
}

/// Host time over phases is the sum of theirs: that of two lists together is that of
/// both, and that of one phase is its own.
pub proof fn law_phase_times_add_up(a: Seq<MachinePhase>, b: Seq<MachinePhase>, one: MachinePhase)
    ensures
        phase_wall(a + b) == phase_wall(a) + phase_wall(b),
        phase_wall(seq![one]) == one.wall_ns,
    decreases b.len(),
{
    assert(seq![one].drop_last() =~= Seq::empty());
    assert(phase_wall(seq![one].drop_last()) == 0);
    if b.len() == 0 {
        assert(a + b =~= a);
    } else {
        law_phase_times_add_up(a, b.drop_last(), one);
        assert((a + b).drop_last() =~= a + b.drop_last());
    }
}

} // verus!
