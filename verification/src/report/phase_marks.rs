//! The periodic marks of a run, as a series of absolute counters.

use vstd::prelude::*;

use crate::json::{array, no_fields, null, number, object, put, put_number};
#[allow(unused_imports)]
use crate::json::{fields_of, json_of, models, JsonModel};
use crate::report::storage::{Int13Profile, KateaStorageCounters};
#[allow(unused_imports)]
use crate::json::{number_under, under};

verus! {

/// The processor counters that a mark carries.
#[derive(Clone, Copy, Debug, Default)]
pub struct MarkPerf {
    pub instructions: u64,
    pub jit_direct_insns: u64,
    pub jit_direct_entries: u64,
    pub device_write_bytes: u64,
    pub device_write_ranges: u64,
    pub decode_probes: u64,
    pub decode_misses: u64,
    pub decode_inval_smc: u64,
    pub decode_inval_cs_load: u64,
    pub decode_inval_other: u64,
    pub decode_inval_cr3: u64,
    pub decode_inval_cr0: u64,
    pub decode_inval_task_switch: u64,
    pub cr3_code_flush_taken: u64,
    pub cr3_code_flush_skipped: u64,
    pub cr3_link_context_selects: u64,
    pub cr3_link_graph_retires: u64,
    pub translation_page_writes: u64,
    pub translation_a_stores: u64,
    pub translation_d_stores: u64,
    pub translation_pages_marked: u64,
    pub tlb_walks: u64,
    pub code_invalidations: u64,
    pub smc_narrow_kills: u64,
    pub smc_lane_accepts: u64,
    pub smc_heat_demotions: u64,
    pub jit_direct_compile_attempts: u64,
    pub jit_direct_blocks_installed: u64,
    pub jit_direct_compile_ns: u64,
    pub jit_direct_reject_data_segment: u64,
    pub jit_direct_reject_data_segment_strict: u64,
    pub jit_direct_reject_data_segment_masked: u64,
    pub jit_direct_reject_data_segment_real: u64,
    pub jit_direct_reject_data_segment_v86: u64,
    pub jit_direct_reject_data_segment_pm16: u64,
    pub jit_direct_reject_data_segment_pm32: u64,
    pub jit_direct_cache_resets: u64,
    pub jit_direct_arena_compactions: u64,
    pub jit_direct_arena_compaction_ns: u64,
    pub straight_line_runs: u64,
    pub brk_decode_or_branch: u64,
    pub brk_cont_decode_miss: u64,
    pub brk_cont_not_continuable: u64,
    pub brk_cont_page_cross: u64,
    pub brk_step: u64,
    pub brk_interrupt: u64,
    pub brk_cap: u64,
    pub brk_halt: u64,
    pub brk_rep_resume: u64,
    pub brk_fatal: u64,
    pub smc_scan_calls: u64,
    pub smc_scan_keys: u64,
    pub smc_heat_chunks_hot: u64,
    pub jit_direct_side_exits: u64,
    pub jit_direct_unresolved_exits: u64,
    pub jit_direct_unresolved_static_unbound: u64,
    pub jit_direct_unresolved_static_hidden: u64,
    pub jit_direct_unresolved_dynamic_miss_or_unbound: u64,
    pub jit_direct_unresolved_dynamic_hidden: u64,
    pub direct_page_hits: u64,
    pub direct_page_misses: u64,
}

/// How often the fast maps were wiped.
#[derive(Clone, Copy, Debug, Default)]
pub struct FastMapAudit {
    pub wipes_direct_map: u64,
    pub wipes_direct_data_map: u64,
    pub wipes_tlb_flush: u64,
    pub wipes_admission: u64,
    pub wipe_pages_cleared: u64,
}

/// One mark: where the run stood when it was taken.
#[derive(Debug, Default)]
pub struct PhaseMark {
    /// Host time, in nanoseconds since some fixed moment.
    pub wall_ns: u64,
    pub id: u64,
    pub master_ticks: u64,
    pub elapsed_clocks: u64,
    pub io_stall_ticks: u64,
    pub halted_ticks: u64,
    pub cd_pio_bytes: u64,
    pub cd_accesses: u64,
    pub atapi_packet_commands: u64,
    pub perf: MarkPerf,
    /// The drive counters, where a folder-backed drive is mounted.
    pub katea: Option<KateaStorageCounters>,
    pub int13: Int13Profile,
    pub fast_map_audit: FastMapAudit,
}

/// Host nanoseconds from the first mark to this one; none where the clock reads earlier.
pub open spec fn wall_offset(wall_ns: u64, first_wall_ns: u64) -> nat {
    if wall_ns >= first_wall_ns {
        (wall_ns - first_wall_ns) as nat
    } else {
        0
    }
}

/// The columns of `fields` with the drive columns set: a number each, or `null`
/// where no folder-backed drive is mounted.
pub open spec fn katea_columns(
    fields: Map<Seq<char>, JsonModel>,
    katea: Option<KateaStorageCounters>,
) -> Map<Seq<char>, JsonModel> {
    fields
        .insert(
            "katea_host_wall_ns"@,
            match katea {
                Some(k) => JsonModel::Num(k.host_wall_ns as int),
                None => JsonModel::Null,
            },
        )
        .insert(
            "katea_host_read_max_level_ns"@,
            match katea {
                Some(k) => JsonModel::Num(k.host_read_max_ns as int),
                None => JsonModel::Null,
            },
        )
        .insert(
            "katea_host_readahead_hits"@,
            match katea {
                Some(k) => JsonModel::Num(k.host_readahead_hits as int),
                None => JsonModel::Null,
            },
        )
        .insert(
            "katea_host_readahead_fills"@,
            match katea {
                Some(k) => JsonModel::Num(k.host_readahead_fills as int),
                None => JsonModel::Null,
            },
        )
        .insert(
            "katea_sector_reads"@,
            match katea {
                Some(k) => JsonModel::Num(k.sector_reads as int),
                None => JsonModel::Null,
            },
        )
        .insert(
            "katea_host_bytes"@,
            match katea { Some(k) => JsonModel::Num(k.host_bytes as int), None => JsonModel::Null },
        )
        .insert(
            "katea_host_file_reads"@,
            match katea {
                Some(k) => JsonModel::Num(k.host_file_reads as int),
                None => JsonModel::Null,
            },
        )
        .insert(
            "katea_host_read_operations"@,
            match katea {
                Some(k) => JsonModel::Num(k.host_read_operations as int),
                None => JsonModel::Null,
            },
        )
        .insert(
            "katea_host_read_bytes"@,
            match katea {
                Some(k) => JsonModel::Num(k.host_read_bytes as int),
                None => JsonModel::Null,
            },
        )
        .insert(
            "katea_host_file_opens"@,
            match katea {
                Some(k) => JsonModel::Num(k.host_file_opens as int),
                None => JsonModel::Null,
            },
        )
        .insert(
            "katea_run_scan_steps"@,
            match katea {
                Some(k) => JsonModel::Num(k.run_scan_steps as int),
                None => JsonModel::Null,
            },
        )
        .insert(
            "katea_fat_sector_reads"@,
            match katea {
                Some(k) => JsonModel::Num(k.fat_sector_reads as int),
                None => JsonModel::Null,
            },
        )
        .insert(
            "katea_dir_or_free_sector_reads"@,
            match katea {
                Some(k) => JsonModel::Num(k.dir_or_free_sector_reads as int),
                None => JsonModel::Null,
            },
        )
        .insert(
            "katea_sector_writes"@,
            match katea {
                Some(k) => JsonModel::Num(k.sector_writes as int),
                None => JsonModel::Null,
            },
        )
        .insert(
            "katea_int13_read_commands"@,
            match katea {
                Some(k) => JsonModel::Num(k.int13_read_commands as int),
                None => JsonModel::Null,
            },
        )
        .insert(
            "katea_int13_read_sectors"@,
            match katea {
                Some(k) => JsonModel::Num(k.int13_read_sectors as int),
                None => JsonModel::Null,
            },
        )
        .insert(
            "katea_int13_read_wait_ticks"@,
            match katea {
                Some(k) => JsonModel::Num(k.int13_read_wait_ticks as int),
                None => JsonModel::Null,
            },
        )
        .insert(
            "katea_int13_write_commands"@,
            match katea {
                Some(k) => JsonModel::Num(k.int13_write_commands as int),
                None => JsonModel::Null,
            },
        )
        .insert(
            "katea_int13_write_sectors"@,
            match katea {
                Some(k) => JsonModel::Num(k.int13_write_sectors as int),
                None => JsonModel::Null,
            },
        )
        .insert(
            "katea_int13_write_wait_ticks"@,
            match katea {
                Some(k) => JsonModel::Num(k.int13_write_wait_ticks as int),
                None => JsonModel::Null,
            },
        )
        .insert(
            "katea_pio_read_commands"@,
            match katea {
                Some(k) => JsonModel::Num(k.pio_read_commands as int),
                None => JsonModel::Null,
            },
        )
        .insert(
            "katea_pio_read_sectors"@,
            match katea {
                Some(k) => JsonModel::Num(k.pio_read_sectors as int),
                None => JsonModel::Null,
            },
        )
        .insert(
            "katea_pio_read_wait_ticks"@,
            match katea {
                Some(k) => JsonModel::Num(k.pio_read_wait_ticks as int),
                None => JsonModel::Null,
            },
        )
        .insert(
            "katea_pio_write_commands"@,
            match katea {
                Some(k) => JsonModel::Num(k.pio_write_commands as int),
                None => JsonModel::Null,
            },
        )
        .insert(
            "katea_pio_write_sectors"@,
            match katea {
                Some(k) => JsonModel::Num(k.pio_write_sectors as int),
                None => JsonModel::Null,
            },
        )
        .insert(
            "katea_pio_write_wait_ticks"@,
            match katea {
                Some(k) => JsonModel::Num(k.pio_write_wait_ticks as int),
                None => JsonModel::Null,
            },
        )
        .insert(
            "katea_dma_read_commands"@,
            match katea {
                Some(k) => JsonModel::Num(k.dma_read_commands as int),
                None => JsonModel::Null,
            },
        )
        .insert(
            "katea_dma_read_sectors"@,
            match katea {
                Some(k) => JsonModel::Num(k.dma_read_sectors as int),
                None => JsonModel::Null,
            },
        )
        .insert(
            "katea_dma_read_wait_ticks"@,
            match katea {
                Some(k) => JsonModel::Num(k.dma_read_wait_ticks as int),
                None => JsonModel::Null,
            },
        )
        .insert(
            "katea_dma_write_commands"@,
            match katea {
                Some(k) => JsonModel::Num(k.dma_write_commands as int),
                None => JsonModel::Null,
            },
        )
        .insert(
            "katea_dma_write_sectors"@,
            match katea {
                Some(k) => JsonModel::Num(k.dma_write_sectors as int),
                None => JsonModel::Null,
            },
        )
        .insert(
            "katea_dma_write_wait_ticks"@,
            match katea {
                Some(k) => JsonModel::Num(k.dma_write_wait_ticks as int),
                None => JsonModel::Null,
            },
        )
        .insert(
            "katea_overlay_resident_sectors"@,
            match katea {
                Some(k) => JsonModel::Num(k.overlay_resident_sectors as int),
                None => JsonModel::Null,
            },
        )
        .insert(
            "katea_overlay_pending_sectors"@,
            match katea {
                Some(k) => JsonModel::Num(k.overlay_pending_sectors as int),
                None => JsonModel::Null,
            },
        )
        .insert(
            "katea_pending_unmapped_sectors"@,
            match katea {
                Some(k) => JsonModel::Num(k.pending_unmapped_sectors as int),
                None => JsonModel::Null,
            },
        )
        .insert(
            "katea_spill_operations"@,
            match katea {
                Some(k) => JsonModel::Num(k.spill_operations as int),
                None => JsonModel::Null,
            },
        )
        .insert(
            "katea_spill_bytes"@,
            match katea {
                Some(k) => JsonModel::Num(k.spill_bytes as int),
                None => JsonModel::Null,
            },
        )
        .insert(
            "katea_spill_wall_ns"@,
            match katea {
                Some(k) => JsonModel::Num(k.spill_wall_ns as int),
                None => JsonModel::Null,
            },
        )
        .insert(
            "katea_projection_operations"@,
            match katea {
                Some(k) => JsonModel::Num(k.projection_operations as int),
                None => JsonModel::Null,
            },
        )
        .insert(
            "katea_projection_bytes"@,
            match katea {
                Some(k) => JsonModel::Num(k.projection_bytes as int),
                None => JsonModel::Null,
            },
        )
        .insert(
            "katea_projection_wall_ns"@,
            match katea {
                Some(k) => JsonModel::Num(k.projection_wall_ns as int),
                None => JsonModel::Null,
            },
        )
        .insert(
            "katea_projection_max_level_ns"@,
            match katea {
                Some(k) => JsonModel::Num(k.projection_max_ns as int),
                None => JsonModel::Null,
            },
        )
        .insert(
            "katea_metadata_projection_passes"@,
            match katea {
                Some(k) => JsonModel::Num(k.metadata_projection_passes as int),
                None => JsonModel::Null,
            },
        )
        .insert(
            "katea_host_write_failures"@,
            match katea {
                Some(k) => JsonModel::Num(k.host_write_failures as int),
                None => JsonModel::Null,
            },
        )
        .insert(
            "katea_blocked_projection_keys"@,
            match katea {
                Some(k) => JsonModel::Num(k.blocked_projection_keys as int),
                None => JsonModel::Null,
            },
        )
}

/// Sets the drive columns of a mark.
fn put_katea_columns(
    fields: &mut serde_json::Map<String, serde_json::Value>,
    katea: &Option<KateaStorageCounters>,
)
    ensures
        fields_of(*final(fields)) == katea_columns(fields_of(*old(fields)), *katea),
{
    match katea {
        Some(k) => {
            put_number(fields, "katea_host_wall_ns", k.host_wall_ns);
            put_number(fields, "katea_host_read_max_level_ns", k.host_read_max_ns);
            put_number(fields, "katea_host_readahead_hits", k.host_readahead_hits);
            put_number(fields, "katea_host_readahead_fills", k.host_readahead_fills);
            put_number(fields, "katea_sector_reads", k.sector_reads);
            put_number(fields, "katea_host_bytes", k.host_bytes);
            put_number(fields, "katea_host_file_reads", k.host_file_reads);
            put_number(fields, "katea_host_read_operations", k.host_read_operations);
            put_number(fields, "katea_host_read_bytes", k.host_read_bytes);
            put_number(fields, "katea_host_file_opens", k.host_file_opens);
            put_number(fields, "katea_run_scan_steps", k.run_scan_steps);
            put_number(fields, "katea_fat_sector_reads", k.fat_sector_reads);
            put_number(fields, "katea_dir_or_free_sector_reads", k.dir_or_free_sector_reads);
            put_number(fields, "katea_sector_writes", k.sector_writes);
            put_number(fields, "katea_int13_read_commands", k.int13_read_commands);
            put_number(fields, "katea_int13_read_sectors", k.int13_read_sectors);
            put_number(fields, "katea_int13_read_wait_ticks", k.int13_read_wait_ticks);
            put_number(fields, "katea_int13_write_commands", k.int13_write_commands);
            put_number(fields, "katea_int13_write_sectors", k.int13_write_sectors);
            put_number(fields, "katea_int13_write_wait_ticks", k.int13_write_wait_ticks);
            put_number(fields, "katea_pio_read_commands", k.pio_read_commands);
            put_number(fields, "katea_pio_read_sectors", k.pio_read_sectors);
            put_number(fields, "katea_pio_read_wait_ticks", k.pio_read_wait_ticks);
            put_number(fields, "katea_pio_write_commands", k.pio_write_commands);
            put_number(fields, "katea_pio_write_sectors", k.pio_write_sectors);
            put_number(fields, "katea_pio_write_wait_ticks", k.pio_write_wait_ticks);
            put_number(fields, "katea_dma_read_commands", k.dma_read_commands);
            put_number(fields, "katea_dma_read_sectors", k.dma_read_sectors);
            put_number(fields, "katea_dma_read_wait_ticks", k.dma_read_wait_ticks);
            put_number(fields, "katea_dma_write_commands", k.dma_write_commands);
            put_number(fields, "katea_dma_write_sectors", k.dma_write_sectors);
            put_number(fields, "katea_dma_write_wait_ticks", k.dma_write_wait_ticks);
            put_number(fields, "katea_overlay_resident_sectors", k.overlay_resident_sectors);
            put_number(fields, "katea_overlay_pending_sectors", k.overlay_pending_sectors);
            put_number(fields, "katea_pending_unmapped_sectors", k.pending_unmapped_sectors);
            put_number(fields, "katea_spill_operations", k.spill_operations);
            put_number(fields, "katea_spill_bytes", k.spill_bytes);
            put_number(fields, "katea_spill_wall_ns", k.spill_wall_ns);
            put_number(fields, "katea_projection_operations", k.projection_operations);
            put_number(fields, "katea_projection_bytes", k.projection_bytes);
            put_number(fields, "katea_projection_wall_ns", k.projection_wall_ns);
            put_number(fields, "katea_projection_max_level_ns", k.projection_max_ns);
            put_number(fields, "katea_metadata_projection_passes", k.metadata_projection_passes);
            put_number(fields, "katea_host_write_failures", k.host_write_failures);
            put_number(fields, "katea_blocked_projection_keys", k.blocked_projection_keys);
        },
        None => {
            put(fields, "katea_host_wall_ns", null());
            put(fields, "katea_host_read_max_level_ns", null());
            put(fields, "katea_host_readahead_hits", null());
            put(fields, "katea_host_readahead_fills", null());
            put(fields, "katea_sector_reads", null());
            put(fields, "katea_host_bytes", null());
            put(fields, "katea_host_file_reads", null());
            put(fields, "katea_host_read_operations", null());
            put(fields, "katea_host_read_bytes", null());
            put(fields, "katea_host_file_opens", null());
            put(fields, "katea_run_scan_steps", null());
            put(fields, "katea_fat_sector_reads", null());
            put(fields, "katea_dir_or_free_sector_reads", null());
            put(fields, "katea_sector_writes", null());
            put(fields, "katea_int13_read_commands", null());
            put(fields, "katea_int13_read_sectors", null());
            put(fields, "katea_int13_read_wait_ticks", null());
            put(fields, "katea_int13_write_commands", null());
            put(fields, "katea_int13_write_sectors", null());
            put(fields, "katea_int13_write_wait_ticks", null());
            put(fields, "katea_pio_read_commands", null());
            put(fields, "katea_pio_read_sectors", null());
            put(fields, "katea_pio_read_wait_ticks", null());
            put(fields, "katea_pio_write_commands", null());
            put(fields, "katea_pio_write_sectors", null());
            put(fields, "katea_pio_write_wait_ticks", null());
            put(fields, "katea_dma_read_commands", null());
            put(fields, "katea_dma_read_sectors", null());
            put(fields, "katea_dma_read_wait_ticks", null());
            put(fields, "katea_dma_write_commands", null());
            put(fields, "katea_dma_write_sectors", null());
            put(fields, "katea_dma_write_wait_ticks", null());
            put(fields, "katea_overlay_resident_sectors", null());
            put(fields, "katea_overlay_pending_sectors", null());
            put(fields, "katea_pending_unmapped_sectors", null());
            put(fields, "katea_spill_operations", null());
            put(fields, "katea_spill_bytes", null());
            put(fields, "katea_spill_wall_ns", null());
            put(fields, "katea_projection_operations", null());
            put(fields, "katea_projection_bytes", null());
            put(fields, "katea_projection_wall_ns", null());
            put(fields, "katea_projection_max_level_ns", null());
            put(fields, "katea_metadata_projection_passes", null());
            put(fields, "katea_host_write_failures", null());
            put(fields, "katea_blocked_projection_keys", null());
        },
    }
}

/// The columns of a mark that no drive has a part in, its host time taken from the first
/// mark's.
pub open spec fn own_columns(mark: PhaseMark, first_wall_ns: u64) -> Map<Seq<char>, JsonModel> {
    map![
        "id"@ => JsonModel::Num(mark.id as int),
        "wall_offset_ns"@ => JsonModel::Num(wall_offset(mark.wall_ns, first_wall_ns) as int),
        "master_ticks"@ => JsonModel::Num(mark.master_ticks as int),
        "elapsed_clocks"@ => JsonModel::Num(mark.elapsed_clocks as int),
        "instructions"@ => JsonModel::Num(mark.perf.instructions as int),
        "jit_direct_insns"@ => JsonModel::Num(mark.perf.jit_direct_insns as int),
        "jit_direct_entries"@ => JsonModel::Num(mark.perf.jit_direct_entries as int),
        "io_stall_ticks"@ => JsonModel::Num(mark.io_stall_ticks as int),
        "halted_ticks"@ => JsonModel::Num(mark.halted_ticks as int),
        "cd_pio_bytes"@ => JsonModel::Num(mark.cd_pio_bytes as int),
        "cd_accesses"@ => JsonModel::Num(mark.cd_accesses as int),
        "atapi_packet_commands"@ => JsonModel::Num(mark.atapi_packet_commands as int),
        "int13_read_calls"@ => JsonModel::Num(mark.int13.read_calls as int),
        "int13_read_sectors"@ => JsonModel::Num(mark.int13.read_sectors as int),
        "int13_write_calls"@ => JsonModel::Num(mark.int13.write_calls as int),
        "int13_write_sectors"@ => JsonModel::Num(mark.int13.write_sectors as int),
        "int13_verify_calls"@ => JsonModel::Num(mark.int13.verify_calls as int),
        "int13_control_calls"@ => JsonModel::Num(mark.int13.control_calls as int),
        "int13_cache_hits"@ => JsonModel::Num(mark.int13.cache_hits as int),
        "int13_stall_ticks"@ => JsonModel::Num(mark.int13.stall_ticks as int),
        "int13_host_wall_ns"@ => JsonModel::Num(mark.int13.host_wall_ns as int),
        "int13_read1_fat"@ => JsonModel::Num(mark.int13.read1_fat as int),
        "int13_read1_data"@ => JsonModel::Num(mark.int13.read1_data as int),
        "int13_read1_other"@ => JsonModel::Num(mark.int13.read1_other as int),
        "int13_read1_buf_conv"@ => JsonModel::Num(mark.int13.read1_buf_conv as int),
        "int13_read1_buf_uma"@ => JsonModel::Num(mark.int13.read1_buf_uma as int),
        "int13_read1_buf_hma"@ => JsonModel::Num(mark.int13.read1_buf_hma as int),
        "int13_read_buf_conv"@ => JsonModel::Num(mark.int13.read_buf_conv as int),
        "int13_read_buf_uma"@ => JsonModel::Num(mark.int13.read_buf_uma as int),
        "int13_read_buf_hma"@ => JsonModel::Num(mark.int13.read_buf_hma as int),
        "device_write_bytes"@ => JsonModel::Num(mark.perf.device_write_bytes as int),
        "device_write_ranges"@ => JsonModel::Num(mark.perf.device_write_ranges as int),
        "decode_probes"@ => JsonModel::Num(mark.perf.decode_probes as int),
        "decode_misses"@ => JsonModel::Num(mark.perf.decode_misses as int),
        "decode_inval_smc"@ => JsonModel::Num(mark.perf.decode_inval_smc as int),
        "decode_inval_cs_load"@ => JsonModel::Num(mark.perf.decode_inval_cs_load as int),
        "decode_inval_other"@ => JsonModel::Num(mark.perf.decode_inval_other as int),
        "decode_inval_cr3"@ => JsonModel::Num(mark.perf.decode_inval_cr3 as int),
        "decode_inval_cr0"@ => JsonModel::Num(mark.perf.decode_inval_cr0 as int),
        "decode_inval_task_switch"@ => JsonModel::Num(mark.perf.decode_inval_task_switch as int),
        "cr3_code_flush_taken"@ => JsonModel::Num(mark.perf.cr3_code_flush_taken as int),
        "cr3_code_flush_skipped"@ => JsonModel::Num(mark.perf.cr3_code_flush_skipped as int),
        "cr3_link_context_selects"@ => JsonModel::Num(mark.perf.cr3_link_context_selects as int),
        "cr3_link_graph_retires"@ => JsonModel::Num(mark.perf.cr3_link_graph_retires as int),
        "translation_page_writes"@ => JsonModel::Num(mark.perf.translation_page_writes as int),
        "translation_a_stores"@ => JsonModel::Num(mark.perf.translation_a_stores as int),
        "translation_d_stores"@ => JsonModel::Num(mark.perf.translation_d_stores as int),
        "translation_pages_marked"@ => JsonModel::Num(mark.perf.translation_pages_marked as int),
        "tlb_walks"@ => JsonModel::Num(mark.perf.tlb_walks as int),
        "code_invalidations"@ => JsonModel::Num(mark.perf.code_invalidations as int),
        "smc_narrow_kills"@ => JsonModel::Num(mark.perf.smc_narrow_kills as int),
        "smc_lane_accepts"@ => JsonModel::Num(mark.perf.smc_lane_accepts as int),
        "smc_heat_demotions"@ => JsonModel::Num(mark.perf.smc_heat_demotions as int),
        "jit_direct_compile_attempts"@ => JsonModel::Num(
            mark.perf.jit_direct_compile_attempts as int,
        ),
        "jit_direct_blocks_installed"@ => JsonModel::Num(
            mark.perf.jit_direct_blocks_installed as int,
        ),
        "jit_direct_compile_ns"@ => JsonModel::Num(mark.perf.jit_direct_compile_ns as int),
        "jit_direct_reject_data_segment"@ => JsonModel::Num(
            mark.perf.jit_direct_reject_data_segment as int,
        ),
        "jit_direct_reject_data_segment_strict"@ => JsonModel::Num(
            mark.perf.jit_direct_reject_data_segment_strict as int,
        ),
        "jit_direct_reject_data_segment_masked"@ => JsonModel::Num(
            mark.perf.jit_direct_reject_data_segment_masked as int,
        ),
        "jit_direct_reject_data_segment_real"@ => JsonModel::Num(
            mark.perf.jit_direct_reject_data_segment_real as int,
        ),
        "jit_direct_reject_data_segment_v86"@ => JsonModel::Num(
            mark.perf.jit_direct_reject_data_segment_v86 as int,
        ),
        "jit_direct_reject_data_segment_pm16"@ => JsonModel::Num(
            mark.perf.jit_direct_reject_data_segment_pm16 as int,
        ),
        "jit_direct_reject_data_segment_pm32"@ => JsonModel::Num(
            mark.perf.jit_direct_reject_data_segment_pm32 as int,
        ),
        "jit_direct_cache_resets"@ => JsonModel::Num(mark.perf.jit_direct_cache_resets as int),
        "jit_direct_arena_compactions"@ => JsonModel::Num(
            mark.perf.jit_direct_arena_compactions as int,
        ),
        "jit_direct_arena_compaction_ns"@ => JsonModel::Num(
            mark.perf.jit_direct_arena_compaction_ns as int,
        ),
        "straight_line_runs"@ => JsonModel::Num(mark.perf.straight_line_runs as int),
        "brk_decode_or_branch"@ => JsonModel::Num(mark.perf.brk_decode_or_branch as int),
        "brk_cont_decode_miss"@ => JsonModel::Num(mark.perf.brk_cont_decode_miss as int),
        "brk_cont_not_continuable"@ => JsonModel::Num(mark.perf.brk_cont_not_continuable as int),
        "brk_cont_page_cross"@ => JsonModel::Num(mark.perf.brk_cont_page_cross as int),
        "brk_step"@ => JsonModel::Num(mark.perf.brk_step as int),
        "brk_interrupt"@ => JsonModel::Num(mark.perf.brk_interrupt as int),
        "brk_cap"@ => JsonModel::Num(mark.perf.brk_cap as int),
        "brk_halt"@ => JsonModel::Num(mark.perf.brk_halt as int),
        "brk_rep_resume"@ => JsonModel::Num(mark.perf.brk_rep_resume as int),
        "brk_fatal"@ => JsonModel::Num(mark.perf.brk_fatal as int),
        "smc_scan_calls"@ => JsonModel::Num(mark.perf.smc_scan_calls as int),
        "smc_scan_keys"@ => JsonModel::Num(mark.perf.smc_scan_keys as int),
        "smc_heat_chunks_hot"@ => JsonModel::Num(mark.perf.smc_heat_chunks_hot as int),
        "jit_direct_side_exits"@ => JsonModel::Num(mark.perf.jit_direct_side_exits as int),
        "jit_direct_unresolved_exits"@ => JsonModel::Num(
            mark.perf.jit_direct_unresolved_exits as int,
        ),
        "jit_direct_unresolved_static_unbound"@ => JsonModel::Num(
            mark.perf.jit_direct_unresolved_static_unbound as int,
        ),
        "jit_direct_unresolved_static_hidden"@ => JsonModel::Num(
            mark.perf.jit_direct_unresolved_static_hidden as int,
        ),
        "jit_direct_unresolved_dynamic_miss_or_unbound"@ => JsonModel::Num(
            mark.perf.jit_direct_unresolved_dynamic_miss_or_unbound as int,
        ),
        "jit_direct_unresolved_dynamic_hidden"@ => JsonModel::Num(
            mark.perf.jit_direct_unresolved_dynamic_hidden as int,
        ),
        "direct_page_hits"@ => JsonModel::Num(mark.perf.direct_page_hits as int),
        "direct_page_misses"@ => JsonModel::Num(mark.perf.direct_page_misses as int),
        "wipes_direct_map"@ => JsonModel::Num(mark.fast_map_audit.wipes_direct_map as int),
        "wipes_direct_data_map"@ => JsonModel::Num(
            mark.fast_map_audit.wipes_direct_data_map as int,
        ),
        "wipes_tlb_flush"@ => JsonModel::Num(mark.fast_map_audit.wipes_tlb_flush as int),
        "wipes_admission"@ => JsonModel::Num(mark.fast_map_audit.wipes_admission as int),
        "wipe_pages_cleared"@ => JsonModel::Num(mark.fast_map_audit.wipe_pages_cleared as int),
    ]
}

/// One mark as an object.
pub open spec fn phase_mark_model(mark: PhaseMark, first_wall_ns: u64) -> JsonModel {
    JsonModel::Obj(katea_columns(own_columns(mark, first_wall_ns), mark.katea))
}

/// One mark as an object.
fn phase_mark_json(mark: &PhaseMark, first_wall_ns: u64) -> (value: serde_json::Value)
    ensures
        json_of(value) == phase_mark_model(*mark, first_wall_ns),
{
    let mut fields = no_fields();
    put_number(&mut fields, "id", mark.id);
    put(&mut fields, "wall_offset_ns", number(mark.wall_ns.saturating_sub(first_wall_ns)));
    put_number(&mut fields, "master_ticks", mark.master_ticks);
    put_number(&mut fields, "elapsed_clocks", mark.elapsed_clocks);
    put_number(&mut fields, "instructions", mark.perf.instructions);
    put_number(&mut fields, "jit_direct_insns", mark.perf.jit_direct_insns);
    put_number(&mut fields, "jit_direct_entries", mark.perf.jit_direct_entries);
    put_number(&mut fields, "io_stall_ticks", mark.io_stall_ticks);
    put_number(&mut fields, "halted_ticks", mark.halted_ticks);
    put_number(&mut fields, "cd_pio_bytes", mark.cd_pio_bytes);
    put_number(&mut fields, "cd_accesses", mark.cd_accesses);
    put_number(&mut fields, "atapi_packet_commands", mark.atapi_packet_commands);
    put_number(&mut fields, "int13_read_calls", mark.int13.read_calls);
    put_number(&mut fields, "int13_read_sectors", mark.int13.read_sectors);
    put_number(&mut fields, "int13_write_calls", mark.int13.write_calls);
    put_number(&mut fields, "int13_write_sectors", mark.int13.write_sectors);
    put_number(&mut fields, "int13_verify_calls", mark.int13.verify_calls);
    put_number(&mut fields, "int13_control_calls", mark.int13.control_calls);
    put_number(&mut fields, "int13_cache_hits", mark.int13.cache_hits);
    put_number(&mut fields, "int13_stall_ticks", mark.int13.stall_ticks);
    put_number(&mut fields, "int13_host_wall_ns", mark.int13.host_wall_ns);
    put_number(&mut fields, "int13_read1_fat", mark.int13.read1_fat);
    put_number(&mut fields, "int13_read1_data", mark.int13.read1_data);
    put_number(&mut fields, "int13_read1_other", mark.int13.read1_other);
    put_number(&mut fields, "int13_read1_buf_conv", mark.int13.read1_buf_conv);
    put_number(&mut fields, "int13_read1_buf_uma", mark.int13.read1_buf_uma);
    put_number(&mut fields, "int13_read1_buf_hma", mark.int13.read1_buf_hma);
    put_number(&mut fields, "int13_read_buf_conv", mark.int13.read_buf_conv);
    put_number(&mut fields, "int13_read_buf_uma", mark.int13.read_buf_uma);
    put_number(&mut fields, "int13_read_buf_hma", mark.int13.read_buf_hma);
    put_number(&mut fields, "device_write_bytes", mark.perf.device_write_bytes);
    put_number(&mut fields, "device_write_ranges", mark.perf.device_write_ranges);
    put_number(&mut fields, "decode_probes", mark.perf.decode_probes);
    put_number(&mut fields, "decode_misses", mark.perf.decode_misses);
    put_number(&mut fields, "decode_inval_smc", mark.perf.decode_inval_smc);
    put_number(&mut fields, "decode_inval_cs_load", mark.perf.decode_inval_cs_load);
    put_number(&mut fields, "decode_inval_other", mark.perf.decode_inval_other);
    put_number(&mut fields, "decode_inval_cr3", mark.perf.decode_inval_cr3);
    put_number(&mut fields, "decode_inval_cr0", mark.perf.decode_inval_cr0);
    put_number(&mut fields, "decode_inval_task_switch", mark.perf.decode_inval_task_switch);
    put_number(&mut fields, "cr3_code_flush_taken", mark.perf.cr3_code_flush_taken);
    put_number(&mut fields, "cr3_code_flush_skipped", mark.perf.cr3_code_flush_skipped);
    put_number(&mut fields, "cr3_link_context_selects", mark.perf.cr3_link_context_selects);
    put_number(&mut fields, "cr3_link_graph_retires", mark.perf.cr3_link_graph_retires);
    put_number(&mut fields, "translation_page_writes", mark.perf.translation_page_writes);
    put_number(&mut fields, "translation_a_stores", mark.perf.translation_a_stores);
    put_number(&mut fields, "translation_d_stores", mark.perf.translation_d_stores);
    put_number(&mut fields, "translation_pages_marked", mark.perf.translation_pages_marked);
    put_number(&mut fields, "tlb_walks", mark.perf.tlb_walks);
    put_number(&mut fields, "code_invalidations", mark.perf.code_invalidations);
    put_number(&mut fields, "smc_narrow_kills", mark.perf.smc_narrow_kills);
    put_number(&mut fields, "smc_lane_accepts", mark.perf.smc_lane_accepts);
    put_number(&mut fields, "smc_heat_demotions", mark.perf.smc_heat_demotions);
    put_number(&mut fields, "jit_direct_compile_attempts", mark.perf.jit_direct_compile_attempts);
    put_number(&mut fields, "jit_direct_blocks_installed", mark.perf.jit_direct_blocks_installed);
    put_number(&mut fields, "jit_direct_compile_ns", mark.perf.jit_direct_compile_ns);
    put_number(
        &mut fields,
        "jit_direct_reject_data_segment",
        mark.perf.jit_direct_reject_data_segment,
    );
    put_number(
        &mut fields,
        "jit_direct_reject_data_segment_strict",
        mark.perf.jit_direct_reject_data_segment_strict,
    );
    put_number(
        &mut fields,
        "jit_direct_reject_data_segment_masked",
        mark.perf.jit_direct_reject_data_segment_masked,
    );
    put_number(
        &mut fields,
        "jit_direct_reject_data_segment_real",
        mark.perf.jit_direct_reject_data_segment_real,
    );
    put_number(
        &mut fields,
        "jit_direct_reject_data_segment_v86",
        mark.perf.jit_direct_reject_data_segment_v86,
    );
    put_number(
        &mut fields,
        "jit_direct_reject_data_segment_pm16",
        mark.perf.jit_direct_reject_data_segment_pm16,
    );
    put_number(
        &mut fields,
        "jit_direct_reject_data_segment_pm32",
        mark.perf.jit_direct_reject_data_segment_pm32,
    );
    put_number(&mut fields, "jit_direct_cache_resets", mark.perf.jit_direct_cache_resets);
    put_number(&mut fields, "jit_direct_arena_compactions", mark.perf.jit_direct_arena_compactions);
    put_number(
        &mut fields,
        "jit_direct_arena_compaction_ns",
        mark.perf.jit_direct_arena_compaction_ns,
    );
    put_number(&mut fields, "straight_line_runs", mark.perf.straight_line_runs);
    put_number(&mut fields, "brk_decode_or_branch", mark.perf.brk_decode_or_branch);
    put_number(&mut fields, "brk_cont_decode_miss", mark.perf.brk_cont_decode_miss);
    put_number(&mut fields, "brk_cont_not_continuable", mark.perf.brk_cont_not_continuable);
    put_number(&mut fields, "brk_cont_page_cross", mark.perf.brk_cont_page_cross);
    put_number(&mut fields, "brk_step", mark.perf.brk_step);
    put_number(&mut fields, "brk_interrupt", mark.perf.brk_interrupt);
    put_number(&mut fields, "brk_cap", mark.perf.brk_cap);
    put_number(&mut fields, "brk_halt", mark.perf.brk_halt);
    put_number(&mut fields, "brk_rep_resume", mark.perf.brk_rep_resume);
    put_number(&mut fields, "brk_fatal", mark.perf.brk_fatal);
    put_number(&mut fields, "smc_scan_calls", mark.perf.smc_scan_calls);
    put_number(&mut fields, "smc_scan_keys", mark.perf.smc_scan_keys);
    put_number(&mut fields, "smc_heat_chunks_hot", mark.perf.smc_heat_chunks_hot);
    put_number(&mut fields, "jit_direct_side_exits", mark.perf.jit_direct_side_exits);
    put_number(&mut fields, "jit_direct_unresolved_exits", mark.perf.jit_direct_unresolved_exits);
    put_number(
        &mut fields,
        "jit_direct_unresolved_static_unbound",
        mark.perf.jit_direct_unresolved_static_unbound,
    );
    put_number(
        &mut fields,
        "jit_direct_unresolved_static_hidden",
        mark.perf.jit_direct_unresolved_static_hidden,
    );
    put_number(
        &mut fields,
        "jit_direct_unresolved_dynamic_miss_or_unbound",
        mark.perf.jit_direct_unresolved_dynamic_miss_or_unbound,
    );
    put_number(
        &mut fields,
        "jit_direct_unresolved_dynamic_hidden",
        mark.perf.jit_direct_unresolved_dynamic_hidden,
    );
    put_number(&mut fields, "direct_page_hits", mark.perf.direct_page_hits);
    put_number(&mut fields, "direct_page_misses", mark.perf.direct_page_misses);
    put_number(&mut fields, "wipes_direct_map", mark.fast_map_audit.wipes_direct_map);
    put_number(&mut fields, "wipes_direct_data_map", mark.fast_map_audit.wipes_direct_data_map);
    put_number(&mut fields, "wipes_tlb_flush", mark.fast_map_audit.wipes_tlb_flush);
    put_number(&mut fields, "wipes_admission", mark.fast_map_audit.wipes_admission);
    put_number(&mut fields, "wipe_pages_cleared", mark.fast_map_audit.wipe_pages_cleared);
    put_katea_columns(&mut fields, &mark.katea);
    object(fields)
}

/// The series: every mark, as an offset from the first.
pub open spec fn phase_mark_series_model(marks: Seq<PhaseMark>) -> JsonModel {
    JsonModel::Arr(marks.map_values(|mark: PhaseMark| phase_mark_model(mark, marks[0].wall_ns)))
}

/// The marks as an array of objects: absolute counters, and host time as an
/// offset from the first mark. No marks make an empty array.
pub fn phase_mark_series_json(marks: &Vec<PhaseMark>) -> (value: serde_json::Value)
    ensures
        json_of(value) == phase_mark_series_model(marks@),
{
    let mut values: Vec<serde_json::Value> = Vec::new();
    let mut i: usize = 0;
    while i < marks.len()
        invariant
            i <= marks@.len(),
            values@.len() == i,
            forall|k: int|
                0 <= k < i ==> json_of(#[trigger] values@[k]) == phase_mark_model(
                    marks@[k],
                    marks@[0].wall_ns,
                ),
        decreases marks@.len() - i,
    {
        values.push(phase_mark_json(&marks[i], marks[0].wall_ns));
        i = i + 1;
    }
    proof {
        assert(models(values@) =~= phase_mark_series_model(marks@)->Arr_0);
    }
    array(values)
}

// ---------------------------------------------------------------------------
// By key
// ---------------------------------------------------------------------------

/// What tells the keys of the object apart.
proof fn lemma_own_columns_keys_differ()
    ensures
        "id"@.len() == 2 && "id"@[0] == 'i',
        "wall_offset_ns"@.len() == 14 && "wall_offset_ns"@[12] == 'n' && "wall_offset_ns"@[4] == '_' && "wall_offset_ns"@[0] == 'w' && "wall_offset_ns"@[7] == 'f',
        "master_ticks"@.len() == 12 && "master_ticks"@[4] == 'e' && "master_ticks"@[0] == 'm' && "master_ticks"@[7] == 't',
        "elapsed_clocks"@.len() == 14 && "elapsed_clocks"@[12] == 'k' && "elapsed_clocks"@[4] == 's' && "elapsed_clocks"@[0] == 'e' && "elapsed_clocks"@[7] == '_',
        "instructions"@.len() == 12 && "instructions"@[4] == 'r' && "instructions"@[0] == 'i' && "instructions"@[7] == 't',
        "jit_direct_insns"@.len() == 16 && "jit_direct_insns"@[12] == 'n' && "jit_direct_insns"@[4] == 'd' && "jit_direct_insns"@[15] == 's' && "jit_direct_insns"@[0] == 'j' && "jit_direct_insns"@[7] == 'e',
        "jit_direct_entries"@.len() == 18 && "jit_direct_entries"@[12] == 'n' && "jit_direct_entries"@[4] == 'd' && "jit_direct_entries"@[15] == 'i' && "jit_direct_entries"@[0] == 'j' && "jit_direct_entries"@[7] == 'e' && "jit_direct_entries"@[16] == 'e',
        "io_stall_ticks"@.len() == 14 && "io_stall_ticks"@[12] == 'k' && "io_stall_ticks"@[4] == 't' && "io_stall_ticks"@[0] == 'i' && "io_stall_ticks"@[7] == 'l',
        "halted_ticks"@.len() == 12 && "halted_ticks"@[4] == 'e' && "halted_ticks"@[0] == 'h' && "halted_ticks"@[7] == 't',
        "cd_pio_bytes"@.len() == 12 && "cd_pio_bytes"@[4] == 'i' && "cd_pio_bytes"@[0] == 'c' && "cd_pio_bytes"@[7] == 'b',
        "cd_accesses"@.len() == 11 && "cd_accesses"@[4] == 'c' && "cd_accesses"@[0] == 'c' && "cd_accesses"@[7] == 's',
        "atapi_packet_commands"@.len() == 21 && "atapi_packet_commands"@[12] == '_' && "atapi_packet_commands"@[4] == 'i' && "atapi_packet_commands"@[15] == 'm' && "atapi_packet_commands"@[0] == 'a' && "atapi_packet_commands"@[7] == 'a' && "atapi_packet_commands"@[16] == 'm',
        "int13_read_calls"@.len() == 16 && "int13_read_calls"@[12] == 'a' && "int13_read_calls"@[4] == '3' && "int13_read_calls"@[15] == 's' && "int13_read_calls"@[0] == 'i' && "int13_read_calls"@[7] == 'e',
        "int13_read_sectors"@.len() == 18 && "int13_read_sectors"@[12] == 'e' && "int13_read_sectors"@[4] == '3' && "int13_read_sectors"@[15] == 'o' && "int13_read_sectors"@[0] == 'i' && "int13_read_sectors"@[7] == 'e' && "int13_read_sectors"@[16] == 'r',
        "int13_write_calls"@.len() == 17 && "int13_write_calls"@[12] == 'c' && "int13_write_calls"@[4] == '3' && "int13_write_calls"@[15] == 'l' && "int13_write_calls"@[0] == 'i' && "int13_write_calls"@[7] == 'r' && "int13_write_calls"@[16] == 's',
        "int13_write_sectors"@.len() == 19 && "int13_write_sectors"@[12] == 's' && "int13_write_sectors"@[4] == '3' && "int13_write_sectors"@[15] == 't' && "int13_write_sectors"@[0] == 'i' && "int13_write_sectors"@[7] == 'r' && "int13_write_sectors"@[16] == 'o',
        "int13_verify_calls"@.len() == 18 && "int13_verify_calls"@[12] == '_' && "int13_verify_calls"@[4] == '3' && "int13_verify_calls"@[15] == 'l' && "int13_verify_calls"@[0] == 'i' && "int13_verify_calls"@[7] == 'e' && "int13_verify_calls"@[16] == 'l',
        "int13_control_calls"@.len() == 19 && "int13_control_calls"@[12] == 'l' && "int13_control_calls"@[4] == '3' && "int13_control_calls"@[15] == 'a' && "int13_control_calls"@[0] == 'i' && "int13_control_calls"@[7] == 'o' && "int13_control_calls"@[16] == 'l',
        "int13_cache_hits"@.len() == 16 && "int13_cache_hits"@[12] == 'h' && "int13_cache_hits"@[4] == '3' && "int13_cache_hits"@[15] == 's' && "int13_cache_hits"@[0] == 'i' && "int13_cache_hits"@[7] == 'a',
        "int13_stall_ticks"@.len() == 17 && "int13_stall_ticks"@[12] == 't' && "int13_stall_ticks"@[4] == '3' && "int13_stall_ticks"@[15] == 'k' && "int13_stall_ticks"@[0] == 'i' && "int13_stall_ticks"@[7] == 't' && "int13_stall_ticks"@[16] == 's',
        "int13_host_wall_ns"@.len() == 18 && "int13_host_wall_ns"@[12] == 'a' && "int13_host_wall_ns"@[4] == '3' && "int13_host_wall_ns"@[15] == '_' && "int13_host_wall_ns"@[0] == 'i' && "int13_host_wall_ns"@[7] == 'o' && "int13_host_wall_ns"@[16] == 'n',
        "int13_read1_fat"@.len() == 15 && "int13_read1_fat"@[12] == 'f' && "int13_read1_fat"@[4] == '3' && "int13_read1_fat"@[0] == 'i' && "int13_read1_fat"@[7] == 'e',
        "int13_read1_data"@.len() == 16 && "int13_read1_data"@[12] == 'd' && "int13_read1_data"@[4] == '3' && "int13_read1_data"@[15] == 'a' && "int13_read1_data"@[0] == 'i' && "int13_read1_data"@[7] == 'e',
        "int13_read1_other"@.len() == 17 && "int13_read1_other"@[12] == 'o' && "int13_read1_other"@[4] == '3' && "int13_read1_other"@[15] == 'e' && "int13_read1_other"@[0] == 'i' && "int13_read1_other"@[7] == 'e' && "int13_read1_other"@[16] == 'r',
        "int13_read1_buf_conv"@.len() == 20 && "int13_read1_buf_conv"@[12] == 'b' && "int13_read1_buf_conv"@[4] == '3' && "int13_read1_buf_conv"@[15] == '_' && "int13_read1_buf_conv"@[0] == 'i' && "int13_read1_buf_conv"@[7] == 'e' && "int13_read1_buf_conv"@[16] == 'c',
        "int13_read1_buf_uma"@.len() == 19 && "int13_read1_buf_uma"@[12] == 'b' && "int13_read1_buf_uma"@[4] == '3' && "int13_read1_buf_uma"@[15] == '_' && "int13_read1_buf_uma"@[0] == 'i' && "int13_read1_buf_uma"@[7] == 'e' && "int13_read1_buf_uma"@[16] == 'u',
        "int13_read1_buf_hma"@.len() == 19 && "int13_read1_buf_hma"@[12] == 'b' && "int13_read1_buf_hma"@[4] == '3' && "int13_read1_buf_hma"@[15] == '_' && "int13_read1_buf_hma"@[0] == 'i' && "int13_read1_buf_hma"@[7] == 'e' && "int13_read1_buf_hma"@[16] == 'h',
        "int13_read_buf_conv"@.len() == 19 && "int13_read_buf_conv"@[12] == 'u' && "int13_read_buf_conv"@[4] == '3' && "int13_read_buf_conv"@[15] == 'c' && "int13_read_buf_conv"@[0] == 'i' && "int13_read_buf_conv"@[7] == 'e' && "int13_read_buf_conv"@[16] == 'o',
        "int13_read_buf_uma"@.len() == 18 && "int13_read_buf_uma"@[12] == 'u' && "int13_read_buf_uma"@[4] == '3' && "int13_read_buf_uma"@[15] == 'u' && "int13_read_buf_uma"@[0] == 'i' && "int13_read_buf_uma"@[7] == 'e' && "int13_read_buf_uma"@[16] == 'm',
        "int13_read_buf_hma"@.len() == 18 && "int13_read_buf_hma"@[12] == 'u' && "int13_read_buf_hma"@[4] == '3' && "int13_read_buf_hma"@[15] == 'h' && "int13_read_buf_hma"@[0] == 'i' && "int13_read_buf_hma"@[7] == 'e' && "int13_read_buf_hma"@[16] == 'm',
        "device_write_bytes"@.len() == 18 && "device_write_bytes"@[12] == '_' && "device_write_bytes"@[4] == 'c' && "device_write_bytes"@[15] == 't' && "device_write_bytes"@[0] == 'd' && "device_write_bytes"@[7] == 'w' && "device_write_bytes"@[16] == 'e',
        "device_write_ranges"@.len() == 19 && "device_write_ranges"@[12] == '_' && "device_write_ranges"@[4] == 'c' && "device_write_ranges"@[15] == 'n' && "device_write_ranges"@[0] == 'd' && "device_write_ranges"@[7] == 'w' && "device_write_ranges"@[16] == 'g',
        "decode_probes"@.len() == 13 && "decode_probes"@[12] == 's' && "decode_probes"@[4] == 'd' && "decode_probes"@[0] == 'd' && "decode_probes"@[7] == 'p',
        "decode_misses"@.len() == 13 && "decode_misses"@[12] == 's' && "decode_misses"@[4] == 'd' && "decode_misses"@[0] == 'd' && "decode_misses"@[7] == 'm',
        "decode_inval_smc"@.len() == 16 && "decode_inval_smc"@[12] == '_' && "decode_inval_smc"@[4] == 'd' && "decode_inval_smc"@[15] == 'c' && "decode_inval_smc"@[0] == 'd' && "decode_inval_smc"@[7] == 'i',
        "decode_inval_cs_load"@.len() == 20 && "decode_inval_cs_load"@[12] == '_' && "decode_inval_cs_load"@[4] == 'd' && "decode_inval_cs_load"@[15] == '_' && "decode_inval_cs_load"@[0] == 'd' && "decode_inval_cs_load"@[7] == 'i' && "decode_inval_cs_load"@[16] == 'l',
        "decode_inval_other"@.len() == 18 && "decode_inval_other"@[12] == '_' && "decode_inval_other"@[4] == 'd' && "decode_inval_other"@[15] == 'h' && "decode_inval_other"@[0] == 'd' && "decode_inval_other"@[7] == 'i' && "decode_inval_other"@[16] == 'e',
        "decode_inval_cr3"@.len() == 16 && "decode_inval_cr3"@[12] == '_' && "decode_inval_cr3"@[4] == 'd' && "decode_inval_cr3"@[15] == '3' && "decode_inval_cr3"@[0] == 'd' && "decode_inval_cr3"@[7] == 'i',
        "decode_inval_cr0"@.len() == 16 && "decode_inval_cr0"@[12] == '_' && "decode_inval_cr0"@[4] == 'd' && "decode_inval_cr0"@[15] == '0' && "decode_inval_cr0"@[0] == 'd' && "decode_inval_cr0"@[7] == 'i',
        "decode_inval_task_switch"@.len() == 24 && "decode_inval_task_switch"@[12] == '_' && "decode_inval_task_switch"@[4] == 'd' && "decode_inval_task_switch"@[15] == 's' && "decode_inval_task_switch"@[0] == 'd' && "decode_inval_task_switch"@[7] == 'i' && "decode_inval_task_switch"@[16] == 'k',
        "cr3_code_flush_taken"@.len() == 20 && "cr3_code_flush_taken"@[12] == 's' && "cr3_code_flush_taken"@[4] == 'c' && "cr3_code_flush_taken"@[15] == 't' && "cr3_code_flush_taken"@[0] == 'c' && "cr3_code_flush_taken"@[7] == 'e' && "cr3_code_flush_taken"@[16] == 'a',
        "cr3_code_flush_skipped"@.len() == 22 && "cr3_code_flush_skipped"@[12] == 's' && "cr3_code_flush_skipped"@[4] == 'c' && "cr3_code_flush_skipped"@[15] == 's' && "cr3_code_flush_skipped"@[0] == 'c' && "cr3_code_flush_skipped"@[7] == 'e' && "cr3_code_flush_skipped"@[16] == 'k',
        "cr3_link_context_selects"@.len() == 24 && "cr3_link_context_selects"@[12] == 't' && "cr3_link_context_selects"@[4] == 'l' && "cr3_link_context_selects"@[15] == 't' && "cr3_link_context_selects"@[0] == 'c' && "cr3_link_context_selects"@[7] == 'k' && "cr3_link_context_selects"@[16] == '_',
        "cr3_link_graph_retires"@.len() == 22 && "cr3_link_graph_retires"@[12] == 'p' && "cr3_link_graph_retires"@[4] == 'l' && "cr3_link_graph_retires"@[15] == 'r' && "cr3_link_graph_retires"@[0] == 'c' && "cr3_link_graph_retires"@[7] == 'k' && "cr3_link_graph_retires"@[16] == 'e',
        "translation_page_writes"@.len() == 23 && "translation_page_writes"@[12] == 'p' && "translation_page_writes"@[4] == 's' && "translation_page_writes"@[15] == 'e' && "translation_page_writes"@[0] == 't' && "translation_page_writes"@[7] == 't' && "translation_page_writes"@[16] == '_',
        "translation_a_stores"@.len() == 20 && "translation_a_stores"@[12] == 'a' && "translation_a_stores"@[4] == 's' && "translation_a_stores"@[15] == 't' && "translation_a_stores"@[0] == 't' && "translation_a_stores"@[7] == 't' && "translation_a_stores"@[16] == 'o',
        "translation_d_stores"@.len() == 20 && "translation_d_stores"@[12] == 'd' && "translation_d_stores"@[4] == 's' && "translation_d_stores"@[15] == 't' && "translation_d_stores"@[0] == 't' && "translation_d_stores"@[7] == 't' && "translation_d_stores"@[16] == 'o',
        "translation_pages_marked"@.len() == 24 && "translation_pages_marked"@[12] == 'p' && "translation_pages_marked"@[4] == 's' && "translation_pages_marked"@[15] == 'e' && "translation_pages_marked"@[0] == 't' && "translation_pages_marked"@[7] == 't' && "translation_pages_marked"@[16] == 's',
        "tlb_walks"@.len() == 9 && "tlb_walks"@[4] == 'w' && "tlb_walks"@[0] == 't' && "tlb_walks"@[7] == 'k',
        "code_invalidations"@.len() == 18 && "code_invalidations"@[12] == 'a' && "code_invalidations"@[4] == '_' && "code_invalidations"@[15] == 'o' && "code_invalidations"@[0] == 'c' && "code_invalidations"@[7] == 'v' && "code_invalidations"@[16] == 'n',
        "smc_narrow_kills"@.len() == 16 && "smc_narrow_kills"@[12] == 'i' && "smc_narrow_kills"@[4] == 'n' && "smc_narrow_kills"@[15] == 's' && "smc_narrow_kills"@[0] == 's' && "smc_narrow_kills"@[7] == 'r',
        "smc_lane_accepts"@.len() == 16 && "smc_lane_accepts"@[12] == 'e' && "smc_lane_accepts"@[4] == 'l' && "smc_lane_accepts"@[15] == 's' && "smc_lane_accepts"@[0] == 's' && "smc_lane_accepts"@[7] == 'e',
        "smc_heat_demotions"@.len() == 18 && "smc_heat_demotions"@[12] == 'o' && "smc_heat_demotions"@[4] == 'h' && "smc_heat_demotions"@[15] == 'o' && "smc_heat_demotions"@[0] == 's' && "smc_heat_demotions"@[7] == 't' && "smc_heat_demotions"@[16] == 'n',
        "jit_direct_compile_attempts"@.len() == 27 && "jit_direct_compile_attempts"@[12] == 'o' && "jit_direct_compile_attempts"@[4] == 'd' && "jit_direct_compile_attempts"@[15] == 'i' && "jit_direct_compile_attempts"@[0] == 'j' && "jit_direct_compile_attempts"@[7] == 'e' && "jit_direct_compile_attempts"@[16] == 'l',
        "jit_direct_blocks_installed"@.len() == 27 && "jit_direct_blocks_installed"@[12] == 'l' && "jit_direct_blocks_installed"@[4] == 'd' && "jit_direct_blocks_installed"@[15] == 'k' && "jit_direct_blocks_installed"@[0] == 'j' && "jit_direct_blocks_installed"@[7] == 'e' && "jit_direct_blocks_installed"@[16] == 's',
        "jit_direct_compile_ns"@.len() == 21 && "jit_direct_compile_ns"@[12] == 'o' && "jit_direct_compile_ns"@[4] == 'd' && "jit_direct_compile_ns"@[15] == 'i' && "jit_direct_compile_ns"@[0] == 'j' && "jit_direct_compile_ns"@[7] == 'e' && "jit_direct_compile_ns"@[16] == 'l',
        "jit_direct_reject_data_segment"@.len() == 30 && "jit_direct_reject_data_segment"@[12] == 'e' && "jit_direct_reject_data_segment"@[4] == 'd' && "jit_direct_reject_data_segment"@[15] == 'c' && "jit_direct_reject_data_segment"@[0] == 'j' && "jit_direct_reject_data_segment"@[7] == 'e' && "jit_direct_reject_data_segment"@[16] == 't',
        "jit_direct_reject_data_segment_strict"@.len() == 37 && "jit_direct_reject_data_segment_strict"@[12] == 'e' && "jit_direct_reject_data_segment_strict"@[4] == 'd' && "jit_direct_reject_data_segment_strict"@[33] == 'r' && "jit_direct_reject_data_segment_strict"@[15] == 'c' && "jit_direct_reject_data_segment_strict"@[0] == 'j' && "jit_direct_reject_data_segment_strict"@[7] == 'e' && "jit_direct_reject_data_segment_strict"@[16] == 't',
        "jit_direct_reject_data_segment_masked"@.len() == 37 && "jit_direct_reject_data_segment_masked"@[12] == 'e' && "jit_direct_reject_data_segment_masked"@[4] == 'd' && "jit_direct_reject_data_segment_masked"@[33] == 's' && "jit_direct_reject_data_segment_masked"@[15] == 'c' && "jit_direct_reject_data_segment_masked"@[0] == 'j' && "jit_direct_reject_data_segment_masked"@[7] == 'e' && "jit_direct_reject_data_segment_masked"@[16] == 't',
        "jit_direct_reject_data_segment_real"@.len() == 35 && "jit_direct_reject_data_segment_real"@[12] == 'e' && "jit_direct_reject_data_segment_real"@[4] == 'd' && "jit_direct_reject_data_segment_real"@[33] == 'a' && "jit_direct_reject_data_segment_real"@[15] == 'c' && "jit_direct_reject_data_segment_real"@[0] == 'j' && "jit_direct_reject_data_segment_real"@[7] == 'e' && "jit_direct_reject_data_segment_real"@[16] == 't',
        "jit_direct_reject_data_segment_v86"@.len() == 34 && "jit_direct_reject_data_segment_v86"@[12] == 'e' && "jit_direct_reject_data_segment_v86"@[4] == 'd' && "jit_direct_reject_data_segment_v86"@[33] == '6' && "jit_direct_reject_data_segment_v86"@[15] == 'c' && "jit_direct_reject_data_segment_v86"@[0] == 'j' && "jit_direct_reject_data_segment_v86"@[7] == 'e' && "jit_direct_reject_data_segment_v86"@[16] == 't',
        "jit_direct_reject_data_segment_pm16"@.len() == 35 && "jit_direct_reject_data_segment_pm16"@[12] == 'e' && "jit_direct_reject_data_segment_pm16"@[4] == 'd' && "jit_direct_reject_data_segment_pm16"@[33] == '1' && "jit_direct_reject_data_segment_pm16"@[15] == 'c' && "jit_direct_reject_data_segment_pm16"@[0] == 'j' && "jit_direct_reject_data_segment_pm16"@[7] == 'e' && "jit_direct_reject_data_segment_pm16"@[16] == 't',
        "jit_direct_reject_data_segment_pm32"@.len() == 35 && "jit_direct_reject_data_segment_pm32"@[12] == 'e' && "jit_direct_reject_data_segment_pm32"@[4] == 'd' && "jit_direct_reject_data_segment_pm32"@[33] == '3' && "jit_direct_reject_data_segment_pm32"@[15] == 'c' && "jit_direct_reject_data_segment_pm32"@[0] == 'j' && "jit_direct_reject_data_segment_pm32"@[7] == 'e' && "jit_direct_reject_data_segment_pm32"@[16] == 't',
        "jit_direct_cache_resets"@.len() == 23 && "jit_direct_cache_resets"@[12] == 'a' && "jit_direct_cache_resets"@[4] == 'd' && "jit_direct_cache_resets"@[15] == 'e' && "jit_direct_cache_resets"@[0] == 'j' && "jit_direct_cache_resets"@[7] == 'e' && "jit_direct_cache_resets"@[16] == '_',
        "jit_direct_arena_compactions"@.len() == 28 && "jit_direct_arena_compactions"@[12] == 'r' && "jit_direct_arena_compactions"@[4] == 'd' && "jit_direct_arena_compactions"@[15] == 'a' && "jit_direct_arena_compactions"@[0] == 'j' && "jit_direct_arena_compactions"@[7] == 'e' && "jit_direct_arena_compactions"@[16] == '_',
        "jit_direct_arena_compaction_ns"@.len() == 30 && "jit_direct_arena_compaction_ns"@[12] == 'r' && "jit_direct_arena_compaction_ns"@[4] == 'd' && "jit_direct_arena_compaction_ns"@[15] == 'a' && "jit_direct_arena_compaction_ns"@[0] == 'j' && "jit_direct_arena_compaction_ns"@[7] == 'e' && "jit_direct_arena_compaction_ns"@[16] == '_',
        "straight_line_runs"@.len() == 18 && "straight_line_runs"@[12] == 'e' && "straight_line_runs"@[4] == 'i' && "straight_line_runs"@[15] == 'u' && "straight_line_runs"@[0] == 's' && "straight_line_runs"@[7] == 't' && "straight_line_runs"@[16] == 'n',
        "brk_decode_or_branch"@.len() == 20 && "brk_decode_or_branch"@[12] == 'r' && "brk_decode_or_branch"@[4] == 'd' && "brk_decode_or_branch"@[15] == 'r' && "brk_decode_or_branch"@[0] == 'b' && "brk_decode_or_branch"@[7] == 'o' && "brk_decode_or_branch"@[16] == 'a',
        "brk_cont_decode_miss"@.len() == 20 && "brk_cont_decode_miss"@[12] == 'o' && "brk_cont_decode_miss"@[4] == 'c' && "brk_cont_decode_miss"@[15] == '_' && "brk_cont_decode_miss"@[0] == 'b' && "brk_cont_decode_miss"@[7] == 't' && "brk_cont_decode_miss"@[16] == 'm',
        "brk_cont_not_continuable"@.len() == 24 && "brk_cont_not_continuable"@[12] == '_' && "brk_cont_not_continuable"@[4] == 'c' && "brk_cont_not_continuable"@[15] == 'n' && "brk_cont_not_continuable"@[0] == 'b' && "brk_cont_not_continuable"@[7] == 't' && "brk_cont_not_continuable"@[16] == 't',
        "brk_cont_page_cross"@.len() == 19 && "brk_cont_page_cross"@[12] == 'e' && "brk_cont_page_cross"@[4] == 'c' && "brk_cont_page_cross"@[15] == 'r' && "brk_cont_page_cross"@[0] == 'b' && "brk_cont_page_cross"@[7] == 't' && "brk_cont_page_cross"@[16] == 'o',
        "brk_step"@.len() == 8 && "brk_step"@[4] == 's' && "brk_step"@[0] == 'b' && "brk_step"@[7] == 'p',
        "brk_interrupt"@.len() == 13 && "brk_interrupt"@[12] == 't' && "brk_interrupt"@[4] == 'i' && "brk_interrupt"@[0] == 'b' && "brk_interrupt"@[7] == 'e',
        "brk_cap"@.len() == 7 && "brk_cap"@[4] == 'c' && "brk_cap"@[0] == 'b',
        "brk_halt"@.len() == 8 && "brk_halt"@[4] == 'h' && "brk_halt"@[0] == 'b' && "brk_halt"@[7] == 't',
        "brk_rep_resume"@.len() == 14 && "brk_rep_resume"@[12] == 'm' && "brk_rep_resume"@[4] == 'r' && "brk_rep_resume"@[0] == 'b' && "brk_rep_resume"@[7] == '_',
        "brk_fatal"@.len() == 9 && "brk_fatal"@[4] == 'f' && "brk_fatal"@[0] == 'b' && "brk_fatal"@[7] == 'a',
        "smc_scan_calls"@.len() == 14 && "smc_scan_calls"@[12] == 'l' && "smc_scan_calls"@[4] == 's' && "smc_scan_calls"@[0] == 's' && "smc_scan_calls"@[7] == 'n',
        "smc_scan_keys"@.len() == 13 && "smc_scan_keys"@[12] == 's' && "smc_scan_keys"@[4] == 's' && "smc_scan_keys"@[0] == 's' && "smc_scan_keys"@[7] == 'n',
        "smc_heat_chunks_hot"@.len() == 19 && "smc_heat_chunks_hot"@[12] == 'n' && "smc_heat_chunks_hot"@[4] == 'h' && "smc_heat_chunks_hot"@[15] == '_' && "smc_heat_chunks_hot"@[0] == 's' && "smc_heat_chunks_hot"@[7] == 't' && "smc_heat_chunks_hot"@[16] == 'h',
        "jit_direct_side_exits"@.len() == 21 && "jit_direct_side_exits"@[12] == 'i' && "jit_direct_side_exits"@[4] == 'd' && "jit_direct_side_exits"@[15] == '_' && "jit_direct_side_exits"@[0] == 'j' && "jit_direct_side_exits"@[7] == 'e' && "jit_direct_side_exits"@[16] == 'e',
        "jit_direct_unresolved_exits"@.len() == 27 && "jit_direct_unresolved_exits"@[12] == 'n' && "jit_direct_unresolved_exits"@[4] == 'd' && "jit_direct_unresolved_exits"@[15] == 's' && "jit_direct_unresolved_exits"@[0] == 'j' && "jit_direct_unresolved_exits"@[7] == 'e' && "jit_direct_unresolved_exits"@[16] == 'o',
        "jit_direct_unresolved_static_unbound"@.len() == 36 && "jit_direct_unresolved_static_unbound"@[12] == 'n' && "jit_direct_unresolved_static_unbound"@[4] == 'd' && "jit_direct_unresolved_static_unbound"@[33] == 'u' && "jit_direct_unresolved_static_unbound"@[15] == 's' && "jit_direct_unresolved_static_unbound"@[0] == 'j' && "jit_direct_unresolved_static_unbound"@[7] == 'e' && "jit_direct_unresolved_static_unbound"@[16] == 'o',
        "jit_direct_unresolved_static_hidden"@.len() == 35 && "jit_direct_unresolved_static_hidden"@[12] == 'n' && "jit_direct_unresolved_static_hidden"@[4] == 'd' && "jit_direct_unresolved_static_hidden"@[33] == 'e' && "jit_direct_unresolved_static_hidden"@[15] == 's' && "jit_direct_unresolved_static_hidden"@[0] == 'j' && "jit_direct_unresolved_static_hidden"@[7] == 'e' && "jit_direct_unresolved_static_hidden"@[16] == 'o',
        "jit_direct_unresolved_dynamic_miss_or_unbound"@.len() == 45 && "jit_direct_unresolved_dynamic_miss_or_unbound"@[12] == 'n' && "jit_direct_unresolved_dynamic_miss_or_unbound"@[4] == 'd' && "jit_direct_unresolved_dynamic_miss_or_unbound"@[33] == 's' && "jit_direct_unresolved_dynamic_miss_or_unbound"@[15] == 's' && "jit_direct_unresolved_dynamic_miss_or_unbound"@[0] == 'j' && "jit_direct_unresolved_dynamic_miss_or_unbound"@[7] == 'e' && "jit_direct_unresolved_dynamic_miss_or_unbound"@[16] == 'o',
        "jit_direct_unresolved_dynamic_hidden"@.len() == 36 && "jit_direct_unresolved_dynamic_hidden"@[12] == 'n' && "jit_direct_unresolved_dynamic_hidden"@[4] == 'd' && "jit_direct_unresolved_dynamic_hidden"@[33] == 'd' && "jit_direct_unresolved_dynamic_hidden"@[15] == 's' && "jit_direct_unresolved_dynamic_hidden"@[0] == 'j' && "jit_direct_unresolved_dynamic_hidden"@[7] == 'e' && "jit_direct_unresolved_dynamic_hidden"@[16] == 'o',
        "direct_page_hits"@.len() == 16 && "direct_page_hits"@[12] == 'h' && "direct_page_hits"@[4] == 'c' && "direct_page_hits"@[15] == 's' && "direct_page_hits"@[0] == 'd' && "direct_page_hits"@[7] == 'p',
        "direct_page_misses"@.len() == 18 && "direct_page_misses"@[12] == 'm' && "direct_page_misses"@[4] == 'c' && "direct_page_misses"@[15] == 's' && "direct_page_misses"@[0] == 'd' && "direct_page_misses"@[7] == 'p' && "direct_page_misses"@[16] == 'e',
        "wipes_direct_map"@.len() == 16 && "wipes_direct_map"@[12] == '_' && "wipes_direct_map"@[4] == 's' && "wipes_direct_map"@[15] == 'p' && "wipes_direct_map"@[0] == 'w' && "wipes_direct_map"@[7] == 'i',
        "wipes_direct_data_map"@.len() == 21 && "wipes_direct_data_map"@[12] == '_' && "wipes_direct_data_map"@[4] == 's' && "wipes_direct_data_map"@[15] == 't' && "wipes_direct_data_map"@[0] == 'w' && "wipes_direct_data_map"@[7] == 'i' && "wipes_direct_data_map"@[16] == 'a',
        "wipes_tlb_flush"@.len() == 15 && "wipes_tlb_flush"@[12] == 'u' && "wipes_tlb_flush"@[4] == 's' && "wipes_tlb_flush"@[0] == 'w' && "wipes_tlb_flush"@[7] == 'l',
        "wipes_admission"@.len() == 15 && "wipes_admission"@[12] == 'i' && "wipes_admission"@[4] == 's' && "wipes_admission"@[0] == 'w' && "wipes_admission"@[7] == 'd',
        "wipe_pages_cleared"@.len() == 18 && "wipe_pages_cleared"@[12] == 'l' && "wipe_pages_cleared"@[4] == '_' && "wipe_pages_cleared"@[15] == 'r' && "wipe_pages_cleared"@[0] == 'w' && "wipe_pages_cleared"@[7] == 'g' && "wipe_pages_cleared"@[16] == 'e',
{
    reveal_strlit("id");
    reveal_strlit("wall_offset_ns");
    reveal_strlit("master_ticks");
    reveal_strlit("elapsed_clocks");
    reveal_strlit("instructions");
    reveal_strlit("jit_direct_insns");
    reveal_strlit("jit_direct_entries");
    reveal_strlit("io_stall_ticks");
    reveal_strlit("halted_ticks");
    reveal_strlit("cd_pio_bytes");
    reveal_strlit("cd_accesses");
    reveal_strlit("atapi_packet_commands");
    reveal_strlit("int13_read_calls");
    reveal_strlit("int13_read_sectors");
    reveal_strlit("int13_write_calls");
    reveal_strlit("int13_write_sectors");
    reveal_strlit("int13_verify_calls");
    reveal_strlit("int13_control_calls");
    reveal_strlit("int13_cache_hits");
    reveal_strlit("int13_stall_ticks");
    reveal_strlit("int13_host_wall_ns");
    reveal_strlit("int13_read1_fat");
    reveal_strlit("int13_read1_data");
    reveal_strlit("int13_read1_other");
    reveal_strlit("int13_read1_buf_conv");
    reveal_strlit("int13_read1_buf_uma");
    reveal_strlit("int13_read1_buf_hma");
    reveal_strlit("int13_read_buf_conv");
    reveal_strlit("int13_read_buf_uma");
    reveal_strlit("int13_read_buf_hma");
    reveal_strlit("device_write_bytes");
    reveal_strlit("device_write_ranges");
    reveal_strlit("decode_probes");
    reveal_strlit("decode_misses");
    reveal_strlit("decode_inval_smc");
    reveal_strlit("decode_inval_cs_load");
    reveal_strlit("decode_inval_other");
    reveal_strlit("decode_inval_cr3");
    reveal_strlit("decode_inval_cr0");
    reveal_strlit("decode_inval_task_switch");
    reveal_strlit("cr3_code_flush_taken");
    reveal_strlit("cr3_code_flush_skipped");
    reveal_strlit("cr3_link_context_selects");
    reveal_strlit("cr3_link_graph_retires");
    reveal_strlit("translation_page_writes");
    reveal_strlit("translation_a_stores");
    reveal_strlit("translation_d_stores");
    reveal_strlit("translation_pages_marked");
    reveal_strlit("tlb_walks");
    reveal_strlit("code_invalidations");
    reveal_strlit("smc_narrow_kills");
    reveal_strlit("smc_lane_accepts");
    reveal_strlit("smc_heat_demotions");
    reveal_strlit("jit_direct_compile_attempts");
    reveal_strlit("jit_direct_blocks_installed");
    reveal_strlit("jit_direct_compile_ns");
    reveal_strlit("jit_direct_reject_data_segment");
    reveal_strlit("jit_direct_reject_data_segment_strict");
    reveal_strlit("jit_direct_reject_data_segment_masked");
    reveal_strlit("jit_direct_reject_data_segment_real");
    reveal_strlit("jit_direct_reject_data_segment_v86");
    reveal_strlit("jit_direct_reject_data_segment_pm16");
    reveal_strlit("jit_direct_reject_data_segment_pm32");
    reveal_strlit("jit_direct_cache_resets");
    reveal_strlit("jit_direct_arena_compactions");
    reveal_strlit("jit_direct_arena_compaction_ns");
    reveal_strlit("straight_line_runs");
    reveal_strlit("brk_decode_or_branch");
    reveal_strlit("brk_cont_decode_miss");
    reveal_strlit("brk_cont_not_continuable");
    reveal_strlit("brk_cont_page_cross");
    reveal_strlit("brk_step");
    reveal_strlit("brk_interrupt");
    reveal_strlit("brk_cap");
    reveal_strlit("brk_halt");
    reveal_strlit("brk_rep_resume");
    reveal_strlit("brk_fatal");
    reveal_strlit("smc_scan_calls");
    reveal_strlit("smc_scan_keys");
    reveal_strlit("smc_heat_chunks_hot");
    reveal_strlit("jit_direct_side_exits");
    reveal_strlit("jit_direct_unresolved_exits");
    reveal_strlit("jit_direct_unresolved_static_unbound");
    reveal_strlit("jit_direct_unresolved_static_hidden");
    reveal_strlit("jit_direct_unresolved_dynamic_miss_or_unbound");
    reveal_strlit("jit_direct_unresolved_dynamic_hidden");
    reveal_strlit("direct_page_hits");
    reveal_strlit("direct_page_misses");
    reveal_strlit("wipes_direct_map");
    reveal_strlit("wipes_direct_data_map");
    reveal_strlit("wipes_tlb_flush");
    reveal_strlit("wipes_admission");
    reveal_strlit("wipe_pages_cleared");
}

/// Some entries of the object, looked up by their keys.
proof fn lemma_own_columns_keys_a(mark: PhaseMark, first_wall_ns: u64)
    ensures
        number_under(JsonModel::Obj(own_columns(mark, first_wall_ns)), "id"@)
            == Some(mark.id as int),
        number_under(JsonModel::Obj(own_columns(mark, first_wall_ns)), "wall_offset_ns"@)
            == Some(wall_offset(mark.wall_ns, first_wall_ns) as int),
        number_under(JsonModel::Obj(own_columns(mark, first_wall_ns)), "master_ticks"@)
            == Some(mark.master_ticks as int),
        number_under(JsonModel::Obj(own_columns(mark, first_wall_ns)), "elapsed_clocks"@)
            == Some(mark.elapsed_clocks as int),
        number_under(JsonModel::Obj(own_columns(mark, first_wall_ns)), "instructions"@)
            == Some(mark.perf.instructions as int),
        number_under(JsonModel::Obj(own_columns(mark, first_wall_ns)), "jit_direct_insns"@)
            == Some(mark.perf.jit_direct_insns as int),
        number_under(JsonModel::Obj(own_columns(mark, first_wall_ns)), "jit_direct_entries"@)
            == Some(mark.perf.jit_direct_entries as int),
        number_under(JsonModel::Obj(own_columns(mark, first_wall_ns)), "io_stall_ticks"@)
            == Some(mark.io_stall_ticks as int),
        number_under(JsonModel::Obj(own_columns(mark, first_wall_ns)), "halted_ticks"@)
            == Some(mark.halted_ticks as int),
        number_under(JsonModel::Obj(own_columns(mark, first_wall_ns)), "cd_pio_bytes"@)
            == Some(mark.cd_pio_bytes as int),
        number_under(JsonModel::Obj(own_columns(mark, first_wall_ns)), "cd_accesses"@)
            == Some(mark.cd_accesses as int),
        number_under(JsonModel::Obj(own_columns(mark, first_wall_ns)), "atapi_packet_commands"@)
            == Some(mark.atapi_packet_commands as int),
        number_under(JsonModel::Obj(own_columns(mark, first_wall_ns)), "int13_read_calls"@)
            == Some(mark.int13.read_calls as int),
        number_under(JsonModel::Obj(own_columns(mark, first_wall_ns)), "int13_read_sectors"@)
            == Some(mark.int13.read_sectors as int),
        number_under(JsonModel::Obj(own_columns(mark, first_wall_ns)), "int13_write_calls"@)
            == Some(mark.int13.write_calls as int),
        number_under(JsonModel::Obj(own_columns(mark, first_wall_ns)), "int13_write_sectors"@)
            == Some(mark.int13.write_sectors as int),
        number_under(JsonModel::Obj(own_columns(mark, first_wall_ns)), "int13_verify_calls"@)
            == Some(mark.int13.verify_calls as int),
        number_under(JsonModel::Obj(own_columns(mark, first_wall_ns)), "int13_control_calls"@)
            == Some(mark.int13.control_calls as int),
        number_under(JsonModel::Obj(own_columns(mark, first_wall_ns)), "int13_cache_hits"@)
            == Some(mark.int13.cache_hits as int),
        number_under(JsonModel::Obj(own_columns(mark, first_wall_ns)), "int13_stall_ticks"@)
            == Some(mark.int13.stall_ticks as int),
        number_under(JsonModel::Obj(own_columns(mark, first_wall_ns)), "int13_host_wall_ns"@)
            == Some(mark.int13.host_wall_ns as int),
        number_under(JsonModel::Obj(own_columns(mark, first_wall_ns)), "int13_read1_fat"@)
            == Some(mark.int13.read1_fat as int),
        number_under(JsonModel::Obj(own_columns(mark, first_wall_ns)), "int13_read1_data"@)
            == Some(mark.int13.read1_data as int),
        number_under(JsonModel::Obj(own_columns(mark, first_wall_ns)), "int13_read1_other"@)
            == Some(mark.int13.read1_other as int),
        number_under(JsonModel::Obj(own_columns(mark, first_wall_ns)), "int13_read1_buf_conv"@)
            == Some(mark.int13.read1_buf_conv as int),
        number_under(JsonModel::Obj(own_columns(mark, first_wall_ns)), "int13_read1_buf_uma"@)
            == Some(mark.int13.read1_buf_uma as int),
{
    lemma_own_columns_keys_differ();
}

/// Some entries of the object, looked up by their keys.
proof fn lemma_own_columns_keys_b(mark: PhaseMark, first_wall_ns: u64)
    ensures
        number_under(JsonModel::Obj(own_columns(mark, first_wall_ns)), "int13_read1_buf_hma"@)
            == Some(mark.int13.read1_buf_hma as int),
        number_under(JsonModel::Obj(own_columns(mark, first_wall_ns)), "int13_read_buf_conv"@)
            == Some(mark.int13.read_buf_conv as int),
        number_under(JsonModel::Obj(own_columns(mark, first_wall_ns)), "int13_read_buf_uma"@)
            == Some(mark.int13.read_buf_uma as int),
        number_under(JsonModel::Obj(own_columns(mark, first_wall_ns)), "int13_read_buf_hma"@)
            == Some(mark.int13.read_buf_hma as int),
        number_under(JsonModel::Obj(own_columns(mark, first_wall_ns)), "device_write_bytes"@)
            == Some(mark.perf.device_write_bytes as int),
        number_under(JsonModel::Obj(own_columns(mark, first_wall_ns)), "device_write_ranges"@)
            == Some(mark.perf.device_write_ranges as int),
        number_under(JsonModel::Obj(own_columns(mark, first_wall_ns)), "decode_probes"@)
            == Some(mark.perf.decode_probes as int),
        number_under(JsonModel::Obj(own_columns(mark, first_wall_ns)), "decode_misses"@)
            == Some(mark.perf.decode_misses as int),
        number_under(JsonModel::Obj(own_columns(mark, first_wall_ns)), "decode_inval_smc"@)
            == Some(mark.perf.decode_inval_smc as int),
        number_under(JsonModel::Obj(own_columns(mark, first_wall_ns)), "decode_inval_cs_load"@)
            == Some(mark.perf.decode_inval_cs_load as int),
        number_under(JsonModel::Obj(own_columns(mark, first_wall_ns)), "decode_inval_other"@)
            == Some(mark.perf.decode_inval_other as int),
        number_under(JsonModel::Obj(own_columns(mark, first_wall_ns)), "decode_inval_cr3"@)
            == Some(mark.perf.decode_inval_cr3 as int),
        number_under(JsonModel::Obj(own_columns(mark, first_wall_ns)), "decode_inval_cr0"@)
            == Some(mark.perf.decode_inval_cr0 as int),
        number_under(JsonModel::Obj(own_columns(mark, first_wall_ns)), "decode_inval_task_switch"@)
            == Some(mark.perf.decode_inval_task_switch as int),
        number_under(JsonModel::Obj(own_columns(mark, first_wall_ns)), "cr3_code_flush_taken"@)
            == Some(mark.perf.cr3_code_flush_taken as int),
        number_under(JsonModel::Obj(own_columns(mark, first_wall_ns)), "cr3_code_flush_skipped"@)
            == Some(mark.perf.cr3_code_flush_skipped as int),
        number_under(JsonModel::Obj(own_columns(mark, first_wall_ns)), "cr3_link_context_selects"@)
            == Some(mark.perf.cr3_link_context_selects as int),
        number_under(JsonModel::Obj(own_columns(mark, first_wall_ns)), "cr3_link_graph_retires"@)
            == Some(mark.perf.cr3_link_graph_retires as int),
        number_under(JsonModel::Obj(own_columns(mark, first_wall_ns)), "translation_page_writes"@)
            == Some(mark.perf.translation_page_writes as int),
        number_under(JsonModel::Obj(own_columns(mark, first_wall_ns)), "translation_a_stores"@)
            == Some(mark.perf.translation_a_stores as int),
        number_under(JsonModel::Obj(own_columns(mark, first_wall_ns)), "translation_d_stores"@)
            == Some(mark.perf.translation_d_stores as int),
        number_under(JsonModel::Obj(own_columns(mark, first_wall_ns)), "translation_pages_marked"@)
            == Some(mark.perf.translation_pages_marked as int),
        number_under(JsonModel::Obj(own_columns(mark, first_wall_ns)), "tlb_walks"@)
            == Some(mark.perf.tlb_walks as int),
        number_under(JsonModel::Obj(own_columns(mark, first_wall_ns)), "code_invalidations"@)
            == Some(mark.perf.code_invalidations as int),
        number_under(JsonModel::Obj(own_columns(mark, first_wall_ns)), "smc_narrow_kills"@)
            == Some(mark.perf.smc_narrow_kills as int),
        number_under(JsonModel::Obj(own_columns(mark, first_wall_ns)), "smc_lane_accepts"@)
            == Some(mark.perf.smc_lane_accepts as int),
{
    lemma_own_columns_keys_differ();
}

/// Some entries of the object, looked up by their keys.
proof fn lemma_own_columns_keys_c(mark: PhaseMark, first_wall_ns: u64)
    ensures
        number_under(JsonModel::Obj(own_columns(mark, first_wall_ns)), "smc_heat_demotions"@)
            == Some(mark.perf.smc_heat_demotions as int),
        number_under(JsonModel::Obj(own_columns(mark, first_wall_ns)), "jit_direct_compile_attempts"@)
            == Some( mark.perf.jit_direct_compile_attempts as int),
        number_under(JsonModel::Obj(own_columns(mark, first_wall_ns)), "jit_direct_blocks_installed"@)
            == Some( mark.perf.jit_direct_blocks_installed as int),
        number_under(JsonModel::Obj(own_columns(mark, first_wall_ns)), "jit_direct_compile_ns"@)
            == Some(mark.perf.jit_direct_compile_ns as int),
        number_under(JsonModel::Obj(own_columns(mark, first_wall_ns)), "jit_direct_reject_data_segment"@)
            == Some( mark.perf.jit_direct_reject_data_segment as int),
        number_under(JsonModel::Obj(own_columns(mark, first_wall_ns)), "jit_direct_reject_data_segment_strict"@)
            == Some( mark.perf.jit_direct_reject_data_segment_strict as int),
        number_under(JsonModel::Obj(own_columns(mark, first_wall_ns)), "jit_direct_reject_data_segment_masked"@)
            == Some( mark.perf.jit_direct_reject_data_segment_masked as int),
        number_under(JsonModel::Obj(own_columns(mark, first_wall_ns)), "jit_direct_reject_data_segment_real"@)
            == Some( mark.perf.jit_direct_reject_data_segment_real as int),
        number_under(JsonModel::Obj(own_columns(mark, first_wall_ns)), "jit_direct_reject_data_segment_v86"@)
            == Some( mark.perf.jit_direct_reject_data_segment_v86 as int),
        number_under(JsonModel::Obj(own_columns(mark, first_wall_ns)), "jit_direct_reject_data_segment_pm16"@)
            == Some( mark.perf.jit_direct_reject_data_segment_pm16 as int),
        number_under(JsonModel::Obj(own_columns(mark, first_wall_ns)), "jit_direct_reject_data_segment_pm32"@)
            == Some( mark.perf.jit_direct_reject_data_segment_pm32 as int),
        number_under(JsonModel::Obj(own_columns(mark, first_wall_ns)), "jit_direct_cache_resets"@)
            == Some(mark.perf.jit_direct_cache_resets as int),
        number_under(JsonModel::Obj(own_columns(mark, first_wall_ns)), "jit_direct_arena_compactions"@)
            == Some( mark.perf.jit_direct_arena_compactions as int),
        number_under(JsonModel::Obj(own_columns(mark, first_wall_ns)), "jit_direct_arena_compaction_ns"@)
            == Some( mark.perf.jit_direct_arena_compaction_ns as int),
        number_under(JsonModel::Obj(own_columns(mark, first_wall_ns)), "straight_line_runs"@)
            == Some(mark.perf.straight_line_runs as int),
        number_under(JsonModel::Obj(own_columns(mark, first_wall_ns)), "brk_decode_or_branch"@)
            == Some(mark.perf.brk_decode_or_branch as int),
        number_under(JsonModel::Obj(own_columns(mark, first_wall_ns)), "brk_cont_decode_miss"@)
            == Some(mark.perf.brk_cont_decode_miss as int),
        number_under(JsonModel::Obj(own_columns(mark, first_wall_ns)), "brk_cont_not_continuable"@)
            == Some(mark.perf.brk_cont_not_continuable as int),
        number_under(JsonModel::Obj(own_columns(mark, first_wall_ns)), "brk_cont_page_cross"@)
            == Some(mark.perf.brk_cont_page_cross as int),
        number_under(JsonModel::Obj(own_columns(mark, first_wall_ns)), "brk_step"@)
            == Some(mark.perf.brk_step as int),
        number_under(JsonModel::Obj(own_columns(mark, first_wall_ns)), "brk_interrupt"@)
            == Some(mark.perf.brk_interrupt as int),
        number_under(JsonModel::Obj(own_columns(mark, first_wall_ns)), "brk_cap"@)
            == Some(mark.perf.brk_cap as int),
        number_under(JsonModel::Obj(own_columns(mark, first_wall_ns)), "brk_halt"@)
            == Some(mark.perf.brk_halt as int),
        number_under(JsonModel::Obj(own_columns(mark, first_wall_ns)), "brk_rep_resume"@)
            == Some(mark.perf.brk_rep_resume as int),
        number_under(JsonModel::Obj(own_columns(mark, first_wall_ns)), "brk_fatal"@)
            == Some(mark.perf.brk_fatal as int),
        number_under(JsonModel::Obj(own_columns(mark, first_wall_ns)), "smc_scan_calls"@)
            == Some(mark.perf.smc_scan_calls as int),
{
    lemma_own_columns_keys_differ();
}

/// Some entries of the object, looked up by their keys.
proof fn lemma_own_columns_keys_d(mark: PhaseMark, first_wall_ns: u64)
    ensures
        number_under(JsonModel::Obj(own_columns(mark, first_wall_ns)), "smc_scan_keys"@)
            == Some(mark.perf.smc_scan_keys as int),
        number_under(JsonModel::Obj(own_columns(mark, first_wall_ns)), "smc_heat_chunks_hot"@)
            == Some(mark.perf.smc_heat_chunks_hot as int),
        number_under(JsonModel::Obj(own_columns(mark, first_wall_ns)), "jit_direct_side_exits"@)
            == Some(mark.perf.jit_direct_side_exits as int),
        number_under(JsonModel::Obj(own_columns(mark, first_wall_ns)), "jit_direct_unresolved_exits"@)
            == Some( mark.perf.jit_direct_unresolved_exits as int),
        number_under(JsonModel::Obj(own_columns(mark, first_wall_ns)), "jit_direct_unresolved_static_unbound"@)
            == Some( mark.perf.jit_direct_unresolved_static_unbound as int),
        number_under(JsonModel::Obj(own_columns(mark, first_wall_ns)), "jit_direct_unresolved_static_hidden"@)
            == Some( mark.perf.jit_direct_unresolved_static_hidden as int),
        number_under(JsonModel::Obj(own_columns(mark, first_wall_ns)), "jit_direct_unresolved_dynamic_miss_or_unbound"@)
            == Some( mark.perf.jit_direct_unresolved_dynamic_miss_or_unbound as int),
        number_under(JsonModel::Obj(own_columns(mark, first_wall_ns)), "jit_direct_unresolved_dynamic_hidden"@)
            == Some( mark.perf.jit_direct_unresolved_dynamic_hidden as int),
        number_under(JsonModel::Obj(own_columns(mark, first_wall_ns)), "direct_page_hits"@)
            == Some(mark.perf.direct_page_hits as int),
        number_under(JsonModel::Obj(own_columns(mark, first_wall_ns)), "direct_page_misses"@)
            == Some(mark.perf.direct_page_misses as int),
        number_under(JsonModel::Obj(own_columns(mark, first_wall_ns)), "wipes_direct_map"@)
            == Some(mark.fast_map_audit.wipes_direct_map as int),
        number_under(JsonModel::Obj(own_columns(mark, first_wall_ns)), "wipes_direct_data_map"@)
            == Some( mark.fast_map_audit.wipes_direct_data_map as int),
        number_under(JsonModel::Obj(own_columns(mark, first_wall_ns)), "wipes_tlb_flush"@)
            == Some(mark.fast_map_audit.wipes_tlb_flush as int),
        number_under(JsonModel::Obj(own_columns(mark, first_wall_ns)), "wipes_admission"@)
            == Some(mark.fast_map_audit.wipes_admission as int),
        number_under(JsonModel::Obj(own_columns(mark, first_wall_ns)), "wipe_pages_cleared"@)
            == Some(mark.fast_map_audit.wipe_pages_cleared as int),
{
    lemma_own_columns_keys_differ();
}

/// Looked up by its key, every entry of the object is the figure that the key names.
pub proof fn law_own_columns_by_key(mark: PhaseMark, first_wall_ns: u64)
    ensures
        number_under(JsonModel::Obj(own_columns(mark, first_wall_ns)), "id"@)
            == Some(mark.id as int),
        number_under(JsonModel::Obj(own_columns(mark, first_wall_ns)), "wall_offset_ns"@)
            == Some(wall_offset(mark.wall_ns, first_wall_ns) as int),
        number_under(JsonModel::Obj(own_columns(mark, first_wall_ns)), "master_ticks"@)
            == Some(mark.master_ticks as int),
        number_under(JsonModel::Obj(own_columns(mark, first_wall_ns)), "elapsed_clocks"@)
            == Some(mark.elapsed_clocks as int),
        number_under(JsonModel::Obj(own_columns(mark, first_wall_ns)), "instructions"@)
            == Some(mark.perf.instructions as int),
        number_under(JsonModel::Obj(own_columns(mark, first_wall_ns)), "jit_direct_insns"@)
            == Some(mark.perf.jit_direct_insns as int),
        number_under(JsonModel::Obj(own_columns(mark, first_wall_ns)), "jit_direct_entries"@)
            == Some(mark.perf.jit_direct_entries as int),
        number_under(JsonModel::Obj(own_columns(mark, first_wall_ns)), "io_stall_ticks"@)
            == Some(mark.io_stall_ticks as int),
        number_under(JsonModel::Obj(own_columns(mark, first_wall_ns)), "halted_ticks"@)
            == Some(mark.halted_ticks as int),
        number_under(JsonModel::Obj(own_columns(mark, first_wall_ns)), "cd_pio_bytes"@)
            == Some(mark.cd_pio_bytes as int),
        number_under(JsonModel::Obj(own_columns(mark, first_wall_ns)), "cd_accesses"@)
            == Some(mark.cd_accesses as int),
        number_under(JsonModel::Obj(own_columns(mark, first_wall_ns)), "atapi_packet_commands"@)
            == Some(mark.atapi_packet_commands as int),
        number_under(JsonModel::Obj(own_columns(mark, first_wall_ns)), "int13_read_calls"@)
            == Some(mark.int13.read_calls as int),
        number_under(JsonModel::Obj(own_columns(mark, first_wall_ns)), "int13_read_sectors"@)
            == Some(mark.int13.read_sectors as int),
        number_under(JsonModel::Obj(own_columns(mark, first_wall_ns)), "int13_write_calls"@)
            == Some(mark.int13.write_calls as int),
        number_under(JsonModel::Obj(own_columns(mark, first_wall_ns)), "int13_write_sectors"@)
            == Some(mark.int13.write_sectors as int),
        number_under(JsonModel::Obj(own_columns(mark, first_wall_ns)), "int13_verify_calls"@)
            == Some(mark.int13.verify_calls as int),
        number_under(JsonModel::Obj(own_columns(mark, first_wall_ns)), "int13_control_calls"@)
            == Some(mark.int13.control_calls as int),
        number_under(JsonModel::Obj(own_columns(mark, first_wall_ns)), "int13_cache_hits"@)
            == Some(mark.int13.cache_hits as int),
        number_under(JsonModel::Obj(own_columns(mark, first_wall_ns)), "int13_stall_ticks"@)
            == Some(mark.int13.stall_ticks as int),
        number_under(JsonModel::Obj(own_columns(mark, first_wall_ns)), "int13_host_wall_ns"@)
            == Some(mark.int13.host_wall_ns as int),
        number_under(JsonModel::Obj(own_columns(mark, first_wall_ns)), "int13_read1_fat"@)
            == Some(mark.int13.read1_fat as int),
        number_under(JsonModel::Obj(own_columns(mark, first_wall_ns)), "int13_read1_data"@)
            == Some(mark.int13.read1_data as int),
        number_under(JsonModel::Obj(own_columns(mark, first_wall_ns)), "int13_read1_other"@)
            == Some(mark.int13.read1_other as int),
        number_under(JsonModel::Obj(own_columns(mark, first_wall_ns)), "int13_read1_buf_conv"@)
            == Some(mark.int13.read1_buf_conv as int),
        number_under(JsonModel::Obj(own_columns(mark, first_wall_ns)), "int13_read1_buf_uma"@)
            == Some(mark.int13.read1_buf_uma as int),
        number_under(JsonModel::Obj(own_columns(mark, first_wall_ns)), "int13_read1_buf_hma"@)
            == Some(mark.int13.read1_buf_hma as int),
        number_under(JsonModel::Obj(own_columns(mark, first_wall_ns)), "int13_read_buf_conv"@)
            == Some(mark.int13.read_buf_conv as int),
        number_under(JsonModel::Obj(own_columns(mark, first_wall_ns)), "int13_read_buf_uma"@)
            == Some(mark.int13.read_buf_uma as int),
        number_under(JsonModel::Obj(own_columns(mark, first_wall_ns)), "int13_read_buf_hma"@)
            == Some(mark.int13.read_buf_hma as int),
        number_under(JsonModel::Obj(own_columns(mark, first_wall_ns)), "device_write_bytes"@)
            == Some(mark.perf.device_write_bytes as int),
        number_under(JsonModel::Obj(own_columns(mark, first_wall_ns)), "device_write_ranges"@)
            == Some(mark.perf.device_write_ranges as int),
        number_under(JsonModel::Obj(own_columns(mark, first_wall_ns)), "decode_probes"@)
            == Some(mark.perf.decode_probes as int),
        number_under(JsonModel::Obj(own_columns(mark, first_wall_ns)), "decode_misses"@)
            == Some(mark.perf.decode_misses as int),
        number_under(JsonModel::Obj(own_columns(mark, first_wall_ns)), "decode_inval_smc"@)
            == Some(mark.perf.decode_inval_smc as int),
        number_under(JsonModel::Obj(own_columns(mark, first_wall_ns)), "decode_inval_cs_load"@)
            == Some(mark.perf.decode_inval_cs_load as int),
        number_under(JsonModel::Obj(own_columns(mark, first_wall_ns)), "decode_inval_other"@)
            == Some(mark.perf.decode_inval_other as int),
        number_under(JsonModel::Obj(own_columns(mark, first_wall_ns)), "decode_inval_cr3"@)
            == Some(mark.perf.decode_inval_cr3 as int),
        number_under(JsonModel::Obj(own_columns(mark, first_wall_ns)), "decode_inval_cr0"@)
            == Some(mark.perf.decode_inval_cr0 as int),
        number_under(JsonModel::Obj(own_columns(mark, first_wall_ns)), "decode_inval_task_switch"@)
            == Some(mark.perf.decode_inval_task_switch as int),
        number_under(JsonModel::Obj(own_columns(mark, first_wall_ns)), "cr3_code_flush_taken"@)
            == Some(mark.perf.cr3_code_flush_taken as int),
        number_under(JsonModel::Obj(own_columns(mark, first_wall_ns)), "cr3_code_flush_skipped"@)
            == Some(mark.perf.cr3_code_flush_skipped as int),
        number_under(JsonModel::Obj(own_columns(mark, first_wall_ns)), "cr3_link_context_selects"@)
            == Some(mark.perf.cr3_link_context_selects as int),
        number_under(JsonModel::Obj(own_columns(mark, first_wall_ns)), "cr3_link_graph_retires"@)
            == Some(mark.perf.cr3_link_graph_retires as int),
        number_under(JsonModel::Obj(own_columns(mark, first_wall_ns)), "translation_page_writes"@)
            == Some(mark.perf.translation_page_writes as int),
        number_under(JsonModel::Obj(own_columns(mark, first_wall_ns)), "translation_a_stores"@)
            == Some(mark.perf.translation_a_stores as int),
        number_under(JsonModel::Obj(own_columns(mark, first_wall_ns)), "translation_d_stores"@)
            == Some(mark.perf.translation_d_stores as int),
        number_under(JsonModel::Obj(own_columns(mark, first_wall_ns)), "translation_pages_marked"@)
            == Some(mark.perf.translation_pages_marked as int),
        number_under(JsonModel::Obj(own_columns(mark, first_wall_ns)), "tlb_walks"@)
            == Some(mark.perf.tlb_walks as int),
        number_under(JsonModel::Obj(own_columns(mark, first_wall_ns)), "code_invalidations"@)
            == Some(mark.perf.code_invalidations as int),
        number_under(JsonModel::Obj(own_columns(mark, first_wall_ns)), "smc_narrow_kills"@)
            == Some(mark.perf.smc_narrow_kills as int),
        number_under(JsonModel::Obj(own_columns(mark, first_wall_ns)), "smc_lane_accepts"@)
            == Some(mark.perf.smc_lane_accepts as int),
        number_under(JsonModel::Obj(own_columns(mark, first_wall_ns)), "smc_heat_demotions"@)
            == Some(mark.perf.smc_heat_demotions as int),
        number_under(JsonModel::Obj(own_columns(mark, first_wall_ns)), "jit_direct_compile_attempts"@)
            == Some( mark.perf.jit_direct_compile_attempts as int),
        number_under(JsonModel::Obj(own_columns(mark, first_wall_ns)), "jit_direct_blocks_installed"@)
            == Some( mark.perf.jit_direct_blocks_installed as int),
        number_under(JsonModel::Obj(own_columns(mark, first_wall_ns)), "jit_direct_compile_ns"@)
            == Some(mark.perf.jit_direct_compile_ns as int),
        number_under(JsonModel::Obj(own_columns(mark, first_wall_ns)), "jit_direct_reject_data_segment"@)
            == Some( mark.perf.jit_direct_reject_data_segment as int),
        number_under(JsonModel::Obj(own_columns(mark, first_wall_ns)), "jit_direct_reject_data_segment_strict"@)
            == Some( mark.perf.jit_direct_reject_data_segment_strict as int),
        number_under(JsonModel::Obj(own_columns(mark, first_wall_ns)), "jit_direct_reject_data_segment_masked"@)
            == Some( mark.perf.jit_direct_reject_data_segment_masked as int),
        number_under(JsonModel::Obj(own_columns(mark, first_wall_ns)), "jit_direct_reject_data_segment_real"@)
            == Some( mark.perf.jit_direct_reject_data_segment_real as int),
        number_under(JsonModel::Obj(own_columns(mark, first_wall_ns)), "jit_direct_reject_data_segment_v86"@)
            == Some( mark.perf.jit_direct_reject_data_segment_v86 as int),
        number_under(JsonModel::Obj(own_columns(mark, first_wall_ns)), "jit_direct_reject_data_segment_pm16"@)
            == Some( mark.perf.jit_direct_reject_data_segment_pm16 as int),
        number_under(JsonModel::Obj(own_columns(mark, first_wall_ns)), "jit_direct_reject_data_segment_pm32"@)
            == Some( mark.perf.jit_direct_reject_data_segment_pm32 as int),
        number_under(JsonModel::Obj(own_columns(mark, first_wall_ns)), "jit_direct_cache_resets"@)
            == Some(mark.perf.jit_direct_cache_resets as int),
        number_under(JsonModel::Obj(own_columns(mark, first_wall_ns)), "jit_direct_arena_compactions"@)
            == Some( mark.perf.jit_direct_arena_compactions as int),
        number_under(JsonModel::Obj(own_columns(mark, first_wall_ns)), "jit_direct_arena_compaction_ns"@)
            == Some( mark.perf.jit_direct_arena_compaction_ns as int),
        number_under(JsonModel::Obj(own_columns(mark, first_wall_ns)), "straight_line_runs"@)
            == Some(mark.perf.straight_line_runs as int),
        number_under(JsonModel::Obj(own_columns(mark, first_wall_ns)), "brk_decode_or_branch"@)
            == Some(mark.perf.brk_decode_or_branch as int),
        number_under(JsonModel::Obj(own_columns(mark, first_wall_ns)), "brk_cont_decode_miss"@)
            == Some(mark.perf.brk_cont_decode_miss as int),
        number_under(JsonModel::Obj(own_columns(mark, first_wall_ns)), "brk_cont_not_continuable"@)
            == Some(mark.perf.brk_cont_not_continuable as int),
        number_under(JsonModel::Obj(own_columns(mark, first_wall_ns)), "brk_cont_page_cross"@)
            == Some(mark.perf.brk_cont_page_cross as int),
        number_under(JsonModel::Obj(own_columns(mark, first_wall_ns)), "brk_step"@)
            == Some(mark.perf.brk_step as int),
        number_under(JsonModel::Obj(own_columns(mark, first_wall_ns)), "brk_interrupt"@)
            == Some(mark.perf.brk_interrupt as int),
        number_under(JsonModel::Obj(own_columns(mark, first_wall_ns)), "brk_cap"@)
            == Some(mark.perf.brk_cap as int),
        number_under(JsonModel::Obj(own_columns(mark, first_wall_ns)), "brk_halt"@)
            == Some(mark.perf.brk_halt as int),
        number_under(JsonModel::Obj(own_columns(mark, first_wall_ns)), "brk_rep_resume"@)
            == Some(mark.perf.brk_rep_resume as int),
        number_under(JsonModel::Obj(own_columns(mark, first_wall_ns)), "brk_fatal"@)
            == Some(mark.perf.brk_fatal as int),
        number_under(JsonModel::Obj(own_columns(mark, first_wall_ns)), "smc_scan_calls"@)
            == Some(mark.perf.smc_scan_calls as int),
        number_under(JsonModel::Obj(own_columns(mark, first_wall_ns)), "smc_scan_keys"@)
            == Some(mark.perf.smc_scan_keys as int),
        number_under(JsonModel::Obj(own_columns(mark, first_wall_ns)), "smc_heat_chunks_hot"@)
            == Some(mark.perf.smc_heat_chunks_hot as int),
        number_under(JsonModel::Obj(own_columns(mark, first_wall_ns)), "jit_direct_side_exits"@)
            == Some(mark.perf.jit_direct_side_exits as int),
        number_under(JsonModel::Obj(own_columns(mark, first_wall_ns)), "jit_direct_unresolved_exits"@)
            == Some( mark.perf.jit_direct_unresolved_exits as int),
        number_under(JsonModel::Obj(own_columns(mark, first_wall_ns)), "jit_direct_unresolved_static_unbound"@)
            == Some( mark.perf.jit_direct_unresolved_static_unbound as int),
        number_under(JsonModel::Obj(own_columns(mark, first_wall_ns)), "jit_direct_unresolved_static_hidden"@)
            == Some( mark.perf.jit_direct_unresolved_static_hidden as int),
        number_under(JsonModel::Obj(own_columns(mark, first_wall_ns)), "jit_direct_unresolved_dynamic_miss_or_unbound"@)
            == Some( mark.perf.jit_direct_unresolved_dynamic_miss_or_unbound as int),
        number_under(JsonModel::Obj(own_columns(mark, first_wall_ns)), "jit_direct_unresolved_dynamic_hidden"@)
            == Some( mark.perf.jit_direct_unresolved_dynamic_hidden as int),
        number_under(JsonModel::Obj(own_columns(mark, first_wall_ns)), "direct_page_hits"@)
            == Some(mark.perf.direct_page_hits as int),
        number_under(JsonModel::Obj(own_columns(mark, first_wall_ns)), "direct_page_misses"@)
            == Some(mark.perf.direct_page_misses as int),
        number_under(JsonModel::Obj(own_columns(mark, first_wall_ns)), "wipes_direct_map"@)
            == Some(mark.fast_map_audit.wipes_direct_map as int),
        number_under(JsonModel::Obj(own_columns(mark, first_wall_ns)), "wipes_direct_data_map"@)
            == Some( mark.fast_map_audit.wipes_direct_data_map as int),
        number_under(JsonModel::Obj(own_columns(mark, first_wall_ns)), "wipes_tlb_flush"@)
            == Some(mark.fast_map_audit.wipes_tlb_flush as int),
        number_under(JsonModel::Obj(own_columns(mark, first_wall_ns)), "wipes_admission"@)
            == Some(mark.fast_map_audit.wipes_admission as int),
        number_under(JsonModel::Obj(own_columns(mark, first_wall_ns)), "wipe_pages_cleared"@)
            == Some(mark.fast_map_audit.wipe_pages_cleared as int),
{
    lemma_own_columns_keys_a(mark, first_wall_ns);
    lemma_own_columns_keys_b(mark, first_wall_ns);
    lemma_own_columns_keys_c(mark, first_wall_ns);
    lemma_own_columns_keys_d(mark, first_wall_ns);
}

/// What tells the drive columns apart.
proof fn lemma_katea_columns_differ()
    ensures
        "katea_host_wall_ns"@.len() == 18 && "katea_host_wall_ns"@[0] == 'k' && "katea_host_wall_ns"@[7] == 'o' && "katea_host_wall_ns"@[16] == 'n',
        "katea_host_read_max_level_ns"@.len() == 28 && "katea_host_read_max_level_ns"@[0] == 'k' && "katea_host_read_max_level_ns"@[7] == 'o' && "katea_host_read_max_level_ns"@[16] == 'm',
        "katea_host_readahead_hits"@.len() == 25 && "katea_host_readahead_hits"@[0] == 'k' && "katea_host_readahead_hits"@[7] == 'o' && "katea_host_readahead_hits"@[16] == 'h',
        "katea_host_readahead_fills"@.len() == 26 && "katea_host_readahead_fills"@[0] == 'k' && "katea_host_readahead_fills"@[7] == 'o' && "katea_host_readahead_fills"@[16] == 'h',
        "katea_sector_reads"@.len() == 18 && "katea_sector_reads"@[0] == 'k' && "katea_sector_reads"@[7] == 'e' && "katea_sector_reads"@[16] == 'd',
        "katea_host_bytes"@.len() == 16 && "katea_host_bytes"@[0] == 'k' && "katea_host_bytes"@[7] == 'o',
        "katea_host_file_reads"@.len() == 21 && "katea_host_file_reads"@[0] == 'k' && "katea_host_file_reads"@[7] == 'o' && "katea_host_file_reads"@[16] == 'r',
        "katea_host_read_operations"@.len() == 26 && "katea_host_read_operations"@[0] == 'k' && "katea_host_read_operations"@[7] == 'o' && "katea_host_read_operations"@[16] == 'o',
        "katea_host_read_bytes"@.len() == 21 && "katea_host_read_bytes"@[0] == 'k' && "katea_host_read_bytes"@[7] == 'o' && "katea_host_read_bytes"@[16] == 'b',
        "katea_host_file_opens"@.len() == 21 && "katea_host_file_opens"@[0] == 'k' && "katea_host_file_opens"@[7] == 'o' && "katea_host_file_opens"@[16] == 'o',
        "katea_run_scan_steps"@.len() == 20 && "katea_run_scan_steps"@[0] == 'k' && "katea_run_scan_steps"@[7] == 'u' && "katea_run_scan_steps"@[16] == 't',
        "katea_fat_sector_reads"@.len() == 22 && "katea_fat_sector_reads"@[0] == 'k' && "katea_fat_sector_reads"@[7] == 'a' && "katea_fat_sector_reads"@[16] == '_',
        "katea_dir_or_free_sector_reads"@.len() == 30 && "katea_dir_or_free_sector_reads"@[0] == 'k' && "katea_dir_or_free_sector_reads"@[7] == 'i' && "katea_dir_or_free_sector_reads"@[16] == 'e',
        "katea_sector_writes"@.len() == 19 && "katea_sector_writes"@[0] == 'k' && "katea_sector_writes"@[7] == 'e' && "katea_sector_writes"@[16] == 't',
        "katea_int13_read_commands"@.len() == 25 && "katea_int13_read_commands"@[0] == 'k' && "katea_int13_read_commands"@[7] == 'n' && "katea_int13_read_commands"@[16] == '_',
        "katea_int13_read_sectors"@.len() == 24 && "katea_int13_read_sectors"@[0] == 'k' && "katea_int13_read_sectors"@[7] == 'n' && "katea_int13_read_sectors"@[16] == '_',
        "katea_int13_read_wait_ticks"@.len() == 27 && "katea_int13_read_wait_ticks"@[0] == 'k' && "katea_int13_read_wait_ticks"@[7] == 'n' && "katea_int13_read_wait_ticks"@[16] == '_',
        "katea_int13_write_commands"@.len() == 26 && "katea_int13_write_commands"@[0] == 'k' && "katea_int13_write_commands"@[7] == 'n' && "katea_int13_write_commands"@[16] == 'e',
        "katea_int13_write_sectors"@.len() == 25 && "katea_int13_write_sectors"@[0] == 'k' && "katea_int13_write_sectors"@[7] == 'n' && "katea_int13_write_sectors"@[16] == 'e',
        "katea_int13_write_wait_ticks"@.len() == 28 && "katea_int13_write_wait_ticks"@[0] == 'k' && "katea_int13_write_wait_ticks"@[7] == 'n' && "katea_int13_write_wait_ticks"@[16] == 'e',
        "katea_pio_read_commands"@.len() == 23 && "katea_pio_read_commands"@[0] == 'k' && "katea_pio_read_commands"@[7] == 'i' && "katea_pio_read_commands"@[16] == 'o',
        "katea_pio_read_sectors"@.len() == 22 && "katea_pio_read_sectors"@[0] == 'k' && "katea_pio_read_sectors"@[7] == 'i' && "katea_pio_read_sectors"@[16] == 'e',
        "katea_pio_read_wait_ticks"@.len() == 25 && "katea_pio_read_wait_ticks"@[0] == 'k' && "katea_pio_read_wait_ticks"@[7] == 'i' && "katea_pio_read_wait_ticks"@[16] == 'a',
        "katea_pio_write_commands"@.len() == 24 && "katea_pio_write_commands"@[0] == 'k' && "katea_pio_write_commands"@[7] == 'i' && "katea_pio_write_commands"@[16] == 'c',
        "katea_pio_write_sectors"@.len() == 23 && "katea_pio_write_sectors"@[0] == 'k' && "katea_pio_write_sectors"@[7] == 'i' && "katea_pio_write_sectors"@[16] == 's',
        "katea_pio_write_wait_ticks"@.len() == 26 && "katea_pio_write_wait_ticks"@[0] == 'k' && "katea_pio_write_wait_ticks"@[7] == 'i' && "katea_pio_write_wait_ticks"@[16] == 'w',
        "katea_dma_read_commands"@.len() == 23 && "katea_dma_read_commands"@[0] == 'k' && "katea_dma_read_commands"@[7] == 'm' && "katea_dma_read_commands"@[16] == 'o',
        "katea_dma_read_sectors"@.len() == 22 && "katea_dma_read_sectors"@[0] == 'k' && "katea_dma_read_sectors"@[7] == 'm' && "katea_dma_read_sectors"@[16] == 'e',
        "katea_dma_read_wait_ticks"@.len() == 25 && "katea_dma_read_wait_ticks"@[0] == 'k' && "katea_dma_read_wait_ticks"@[7] == 'm' && "katea_dma_read_wait_ticks"@[16] == 'a',
        "katea_dma_write_commands"@.len() == 24 && "katea_dma_write_commands"@[0] == 'k' && "katea_dma_write_commands"@[7] == 'm' && "katea_dma_write_commands"@[16] == 'c',
        "katea_dma_write_sectors"@.len() == 23 && "katea_dma_write_sectors"@[0] == 'k' && "katea_dma_write_sectors"@[7] == 'm' && "katea_dma_write_sectors"@[16] == 's',
        "katea_dma_write_wait_ticks"@.len() == 26 && "katea_dma_write_wait_ticks"@[0] == 'k' && "katea_dma_write_wait_ticks"@[7] == 'm' && "katea_dma_write_wait_ticks"@[16] == 'w',
        "katea_overlay_resident_sectors"@.len() == 30 && "katea_overlay_resident_sectors"@[0] == 'k' && "katea_overlay_resident_sectors"@[7] == 'v' && "katea_overlay_resident_sectors"@[16] == 's',
        "katea_overlay_pending_sectors"@.len() == 29 && "katea_overlay_pending_sectors"@[0] == 'k' && "katea_overlay_pending_sectors"@[7] == 'v' && "katea_overlay_pending_sectors"@[16] == 'n',
        "katea_pending_unmapped_sectors"@.len() == 30 && "katea_pending_unmapped_sectors"@[0] == 'k' && "katea_pending_unmapped_sectors"@[7] == 'e' && "katea_pending_unmapped_sectors"@[16] == 'm',
        "katea_spill_operations"@.len() == 22 && "katea_spill_operations"@[0] == 'k' && "katea_spill_operations"@[7] == 'p' && "katea_spill_operations"@[16] == 'a',
        "katea_spill_bytes"@.len() == 17 && "katea_spill_bytes"@[0] == 'k' && "katea_spill_bytes"@[7] == 'p' && "katea_spill_bytes"@[16] == 's',
        "katea_spill_wall_ns"@.len() == 19 && "katea_spill_wall_ns"@[0] == 'k' && "katea_spill_wall_ns"@[7] == 'p' && "katea_spill_wall_ns"@[16] == '_',
        "katea_projection_operations"@.len() == 27 && "katea_projection_operations"@[0] == 'k' && "katea_projection_operations"@[7] == 'r' && "katea_projection_operations"@[16] == '_',
        "katea_projection_bytes"@.len() == 22 && "katea_projection_bytes"@[0] == 'k' && "katea_projection_bytes"@[7] == 'r' && "katea_projection_bytes"@[16] == '_',
        "katea_projection_wall_ns"@.len() == 24 && "katea_projection_wall_ns"@[0] == 'k' && "katea_projection_wall_ns"@[7] == 'r' && "katea_projection_wall_ns"@[16] == '_',
        "katea_projection_max_level_ns"@.len() == 29 && "katea_projection_max_level_ns"@[0] == 'k' && "katea_projection_max_level_ns"@[7] == 'r' && "katea_projection_max_level_ns"@[16] == '_',
        "katea_metadata_projection_passes"@.len() == 32 && "katea_metadata_projection_passes"@[0] == 'k' && "katea_metadata_projection_passes"@[7] == 'e' && "katea_metadata_projection_passes"@[16] == 'r',
        "katea_host_write_failures"@.len() == 25 && "katea_host_write_failures"@[0] == 'k' && "katea_host_write_failures"@[7] == 'o' && "katea_host_write_failures"@[16] == '_',
        "katea_blocked_projection_keys"@.len() == 29 && "katea_blocked_projection_keys"@[0] == 'k' && "katea_blocked_projection_keys"@[7] == 'l' && "katea_blocked_projection_keys"@[16] == 'o',
{
    reveal_strlit("katea_host_wall_ns");
    reveal_strlit("katea_host_read_max_level_ns");
    reveal_strlit("katea_host_readahead_hits");
    reveal_strlit("katea_host_readahead_fills");
    reveal_strlit("katea_sector_reads");
    reveal_strlit("katea_host_bytes");
    reveal_strlit("katea_host_file_reads");
    reveal_strlit("katea_host_read_operations");
    reveal_strlit("katea_host_read_bytes");
    reveal_strlit("katea_host_file_opens");
    reveal_strlit("katea_run_scan_steps");
    reveal_strlit("katea_fat_sector_reads");
    reveal_strlit("katea_dir_or_free_sector_reads");
    reveal_strlit("katea_sector_writes");
    reveal_strlit("katea_int13_read_commands");
    reveal_strlit("katea_int13_read_sectors");
    reveal_strlit("katea_int13_read_wait_ticks");
    reveal_strlit("katea_int13_write_commands");
    reveal_strlit("katea_int13_write_sectors");
    reveal_strlit("katea_int13_write_wait_ticks");
    reveal_strlit("katea_pio_read_commands");
    reveal_strlit("katea_pio_read_sectors");
    reveal_strlit("katea_pio_read_wait_ticks");
    reveal_strlit("katea_pio_write_commands");
    reveal_strlit("katea_pio_write_sectors");
    reveal_strlit("katea_pio_write_wait_ticks");
    reveal_strlit("katea_dma_read_commands");
    reveal_strlit("katea_dma_read_sectors");
    reveal_strlit("katea_dma_read_wait_ticks");
    reveal_strlit("katea_dma_write_commands");
    reveal_strlit("katea_dma_write_sectors");
    reveal_strlit("katea_dma_write_wait_ticks");
    reveal_strlit("katea_overlay_resident_sectors");
    reveal_strlit("katea_overlay_pending_sectors");
    reveal_strlit("katea_pending_unmapped_sectors");
    reveal_strlit("katea_spill_operations");
    reveal_strlit("katea_spill_bytes");
    reveal_strlit("katea_spill_wall_ns");
    reveal_strlit("katea_projection_operations");
    reveal_strlit("katea_projection_bytes");
    reveal_strlit("katea_projection_wall_ns");
    reveal_strlit("katea_projection_max_level_ns");
    reveal_strlit("katea_metadata_projection_passes");
    reveal_strlit("katea_host_write_failures");
    reveal_strlit("katea_blocked_projection_keys");
}

/// Looked up by its key, every drive column is the counter that the key names, or `null`
/// where no folder-backed drive is mounted.
#[verifier::rlimit(60)]
pub proof fn law_katea_columns_by_key(fields: Map<Seq<char>, JsonModel>, k: KateaStorageCounters)
    ensures
        number_under(JsonModel::Obj(katea_columns(fields, Some(k))), "katea_host_wall_ns"@)
            == Some(k.host_wall_ns as int),
        under(JsonModel::Obj(katea_columns(fields, None)), "katea_host_wall_ns"@)
            == Some(JsonModel::Null),
        number_under(JsonModel::Obj(katea_columns(fields, Some(k))), "katea_host_read_max_level_ns"@)
            == Some(k.host_read_max_ns as int),
        under(JsonModel::Obj(katea_columns(fields, None)), "katea_host_read_max_level_ns"@)
            == Some(JsonModel::Null),
        number_under(JsonModel::Obj(katea_columns(fields, Some(k))), "katea_host_readahead_hits"@)
            == Some(k.host_readahead_hits as int),
        under(JsonModel::Obj(katea_columns(fields, None)), "katea_host_readahead_hits"@)
            == Some(JsonModel::Null),
        number_under(JsonModel::Obj(katea_columns(fields, Some(k))), "katea_host_readahead_fills"@)
            == Some(k.host_readahead_fills as int),
        under(JsonModel::Obj(katea_columns(fields, None)), "katea_host_readahead_fills"@)
            == Some(JsonModel::Null),
        number_under(JsonModel::Obj(katea_columns(fields, Some(k))), "katea_sector_reads"@)
            == Some(k.sector_reads as int),
        under(JsonModel::Obj(katea_columns(fields, None)), "katea_sector_reads"@)
            == Some(JsonModel::Null),
        number_under(JsonModel::Obj(katea_columns(fields, Some(k))), "katea_host_bytes"@)
            == Some(k.host_bytes as int),
        under(JsonModel::Obj(katea_columns(fields, None)), "katea_host_bytes"@)
            == Some(JsonModel::Null),
        number_under(JsonModel::Obj(katea_columns(fields, Some(k))), "katea_host_file_reads"@)
            == Some(k.host_file_reads as int),
        under(JsonModel::Obj(katea_columns(fields, None)), "katea_host_file_reads"@)
            == Some(JsonModel::Null),
        number_under(JsonModel::Obj(katea_columns(fields, Some(k))), "katea_host_read_operations"@)
            == Some(k.host_read_operations as int),
        under(JsonModel::Obj(katea_columns(fields, None)), "katea_host_read_operations"@)
            == Some(JsonModel::Null),
        number_under(JsonModel::Obj(katea_columns(fields, Some(k))), "katea_host_read_bytes"@)
            == Some(k.host_read_bytes as int),
        under(JsonModel::Obj(katea_columns(fields, None)), "katea_host_read_bytes"@)
            == Some(JsonModel::Null),
        number_under(JsonModel::Obj(katea_columns(fields, Some(k))), "katea_host_file_opens"@)
            == Some(k.host_file_opens as int),
        under(JsonModel::Obj(katea_columns(fields, None)), "katea_host_file_opens"@)
            == Some(JsonModel::Null),
        number_under(JsonModel::Obj(katea_columns(fields, Some(k))), "katea_run_scan_steps"@)
            == Some(k.run_scan_steps as int),
        under(JsonModel::Obj(katea_columns(fields, None)), "katea_run_scan_steps"@)
            == Some(JsonModel::Null),
        number_under(JsonModel::Obj(katea_columns(fields, Some(k))), "katea_fat_sector_reads"@)
            == Some(k.fat_sector_reads as int),
        under(JsonModel::Obj(katea_columns(fields, None)), "katea_fat_sector_reads"@)
            == Some(JsonModel::Null),
        number_under(JsonModel::Obj(katea_columns(fields, Some(k))), "katea_dir_or_free_sector_reads"@)
            == Some(k.dir_or_free_sector_reads as int),
        under(JsonModel::Obj(katea_columns(fields, None)), "katea_dir_or_free_sector_reads"@)
            == Some(JsonModel::Null),
        number_under(JsonModel::Obj(katea_columns(fields, Some(k))), "katea_sector_writes"@)
            == Some(k.sector_writes as int),
        under(JsonModel::Obj(katea_columns(fields, None)), "katea_sector_writes"@)
            == Some(JsonModel::Null),
        number_under(JsonModel::Obj(katea_columns(fields, Some(k))), "katea_int13_read_commands"@)
            == Some(k.int13_read_commands as int),
        under(JsonModel::Obj(katea_columns(fields, None)), "katea_int13_read_commands"@)
            == Some(JsonModel::Null),
        number_under(JsonModel::Obj(katea_columns(fields, Some(k))), "katea_int13_read_sectors"@)
            == Some(k.int13_read_sectors as int),
        under(JsonModel::Obj(katea_columns(fields, None)), "katea_int13_read_sectors"@)
            == Some(JsonModel::Null),
        number_under(JsonModel::Obj(katea_columns(fields, Some(k))), "katea_int13_read_wait_ticks"@)
            == Some(k.int13_read_wait_ticks as int),
        under(JsonModel::Obj(katea_columns(fields, None)), "katea_int13_read_wait_ticks"@)
            == Some(JsonModel::Null),
        number_under(JsonModel::Obj(katea_columns(fields, Some(k))), "katea_int13_write_commands"@)
            == Some(k.int13_write_commands as int),
        under(JsonModel::Obj(katea_columns(fields, None)), "katea_int13_write_commands"@)
            == Some(JsonModel::Null),
        number_under(JsonModel::Obj(katea_columns(fields, Some(k))), "katea_int13_write_sectors"@)
            == Some(k.int13_write_sectors as int),
        under(JsonModel::Obj(katea_columns(fields, None)), "katea_int13_write_sectors"@)
            == Some(JsonModel::Null),
        number_under(JsonModel::Obj(katea_columns(fields, Some(k))), "katea_int13_write_wait_ticks"@)
            == Some(k.int13_write_wait_ticks as int),
        under(JsonModel::Obj(katea_columns(fields, None)), "katea_int13_write_wait_ticks"@)
            == Some(JsonModel::Null),
        number_under(JsonModel::Obj(katea_columns(fields, Some(k))), "katea_pio_read_commands"@)
            == Some(k.pio_read_commands as int),
        under(JsonModel::Obj(katea_columns(fields, None)), "katea_pio_read_commands"@)
            == Some(JsonModel::Null),
        number_under(JsonModel::Obj(katea_columns(fields, Some(k))), "katea_pio_read_sectors"@)
            == Some(k.pio_read_sectors as int),
        under(JsonModel::Obj(katea_columns(fields, None)), "katea_pio_read_sectors"@)
            == Some(JsonModel::Null),
        number_under(JsonModel::Obj(katea_columns(fields, Some(k))), "katea_pio_read_wait_ticks"@)
            == Some(k.pio_read_wait_ticks as int),
        under(JsonModel::Obj(katea_columns(fields, None)), "katea_pio_read_wait_ticks"@)
            == Some(JsonModel::Null),
        number_under(JsonModel::Obj(katea_columns(fields, Some(k))), "katea_pio_write_commands"@)
            == Some(k.pio_write_commands as int),
        under(JsonModel::Obj(katea_columns(fields, None)), "katea_pio_write_commands"@)
            == Some(JsonModel::Null),
        number_under(JsonModel::Obj(katea_columns(fields, Some(k))), "katea_pio_write_sectors"@)
            == Some(k.pio_write_sectors as int),
        under(JsonModel::Obj(katea_columns(fields, None)), "katea_pio_write_sectors"@)
            == Some(JsonModel::Null),
        number_under(JsonModel::Obj(katea_columns(fields, Some(k))), "katea_pio_write_wait_ticks"@)
            == Some(k.pio_write_wait_ticks as int),
        under(JsonModel::Obj(katea_columns(fields, None)), "katea_pio_write_wait_ticks"@)
            == Some(JsonModel::Null),
        number_under(JsonModel::Obj(katea_columns(fields, Some(k))), "katea_dma_read_commands"@)
            == Some(k.dma_read_commands as int),
        under(JsonModel::Obj(katea_columns(fields, None)), "katea_dma_read_commands"@)
            == Some(JsonModel::Null),
        number_under(JsonModel::Obj(katea_columns(fields, Some(k))), "katea_dma_read_sectors"@)
            == Some(k.dma_read_sectors as int),
        under(JsonModel::Obj(katea_columns(fields, None)), "katea_dma_read_sectors"@)
            == Some(JsonModel::Null),
        number_under(JsonModel::Obj(katea_columns(fields, Some(k))), "katea_dma_read_wait_ticks"@)
            == Some(k.dma_read_wait_ticks as int),
        under(JsonModel::Obj(katea_columns(fields, None)), "katea_dma_read_wait_ticks"@)
            == Some(JsonModel::Null),
        number_under(JsonModel::Obj(katea_columns(fields, Some(k))), "katea_dma_write_commands"@)
            == Some(k.dma_write_commands as int),
        under(JsonModel::Obj(katea_columns(fields, None)), "katea_dma_write_commands"@)
            == Some(JsonModel::Null),
        number_under(JsonModel::Obj(katea_columns(fields, Some(k))), "katea_dma_write_sectors"@)
            == Some(k.dma_write_sectors as int),
        under(JsonModel::Obj(katea_columns(fields, None)), "katea_dma_write_sectors"@)
            == Some(JsonModel::Null),
        number_under(JsonModel::Obj(katea_columns(fields, Some(k))), "katea_dma_write_wait_ticks"@)
            == Some(k.dma_write_wait_ticks as int),
        under(JsonModel::Obj(katea_columns(fields, None)), "katea_dma_write_wait_ticks"@)
            == Some(JsonModel::Null),
        number_under(JsonModel::Obj(katea_columns(fields, Some(k))), "katea_overlay_resident_sectors"@)
            == Some(k.overlay_resident_sectors as int),
        under(JsonModel::Obj(katea_columns(fields, None)), "katea_overlay_resident_sectors"@)
            == Some(JsonModel::Null),
        number_under(JsonModel::Obj(katea_columns(fields, Some(k))), "katea_overlay_pending_sectors"@)
            == Some(k.overlay_pending_sectors as int),
        under(JsonModel::Obj(katea_columns(fields, None)), "katea_overlay_pending_sectors"@)
            == Some(JsonModel::Null),
        number_under(JsonModel::Obj(katea_columns(fields, Some(k))), "katea_pending_unmapped_sectors"@)
            == Some(k.pending_unmapped_sectors as int),
        under(JsonModel::Obj(katea_columns(fields, None)), "katea_pending_unmapped_sectors"@)
            == Some(JsonModel::Null),
        number_under(JsonModel::Obj(katea_columns(fields, Some(k))), "katea_spill_operations"@)
            == Some(k.spill_operations as int),
        under(JsonModel::Obj(katea_columns(fields, None)), "katea_spill_operations"@)
            == Some(JsonModel::Null),
        number_under(JsonModel::Obj(katea_columns(fields, Some(k))), "katea_spill_bytes"@)
            == Some(k.spill_bytes as int),
        under(JsonModel::Obj(katea_columns(fields, None)), "katea_spill_bytes"@)
            == Some(JsonModel::Null),
        number_under(JsonModel::Obj(katea_columns(fields, Some(k))), "katea_spill_wall_ns"@)
            == Some(k.spill_wall_ns as int),
        under(JsonModel::Obj(katea_columns(fields, None)), "katea_spill_wall_ns"@)
            == Some(JsonModel::Null),
        number_under(JsonModel::Obj(katea_columns(fields, Some(k))), "katea_projection_operations"@)
            == Some(k.projection_operations as int),
        under(JsonModel::Obj(katea_columns(fields, None)), "katea_projection_operations"@)
            == Some(JsonModel::Null),
        number_under(JsonModel::Obj(katea_columns(fields, Some(k))), "katea_projection_bytes"@)
            == Some(k.projection_bytes as int),
        under(JsonModel::Obj(katea_columns(fields, None)), "katea_projection_bytes"@)
            == Some(JsonModel::Null),
        number_under(JsonModel::Obj(katea_columns(fields, Some(k))), "katea_projection_wall_ns"@)
            == Some(k.projection_wall_ns as int),
        under(JsonModel::Obj(katea_columns(fields, None)), "katea_projection_wall_ns"@)
            == Some(JsonModel::Null),
        number_under(JsonModel::Obj(katea_columns(fields, Some(k))), "katea_projection_max_level_ns"@)
            == Some(k.projection_max_ns as int),
        under(JsonModel::Obj(katea_columns(fields, None)), "katea_projection_max_level_ns"@)
            == Some(JsonModel::Null),
        number_under(JsonModel::Obj(katea_columns(fields, Some(k))), "katea_metadata_projection_passes"@)
            == Some(k.metadata_projection_passes as int),
        under(JsonModel::Obj(katea_columns(fields, None)), "katea_metadata_projection_passes"@)
            == Some(JsonModel::Null),
        number_under(JsonModel::Obj(katea_columns(fields, Some(k))), "katea_host_write_failures"@)
            == Some(k.host_write_failures as int),
        under(JsonModel::Obj(katea_columns(fields, None)), "katea_host_write_failures"@)
            == Some(JsonModel::Null),
        number_under(JsonModel::Obj(katea_columns(fields, Some(k))), "katea_blocked_projection_keys"@)
            == Some(k.blocked_projection_keys as int),
        under(JsonModel::Obj(katea_columns(fields, None)), "katea_blocked_projection_keys"@)
            == Some(JsonModel::Null),
{
    lemma_katea_columns_differ();
}

/// The drive columns leave every other column as it is.
pub proof fn law_katea_columns_leave_the_others(
    fields: Map<Seq<char>, JsonModel>,
    katea: Option<KateaStorageCounters>,
    key: Seq<char>,
)
    requires
        key.len() > 0,
        key[0] != 'k',
    ensures
        under(JsonModel::Obj(katea_columns(fields, katea)), key) == under(
            JsonModel::Obj(fields),
            key,
        ),
{
    lemma_katea_columns_differ();
}

/// The series holds every mark in its order, and the host time of each counts from the
/// first.
pub proof fn law_a_series_counts_from_its_first_mark(marks: Seq<PhaseMark>, i: int)
    requires
        0 <= i < marks.len(),
        marks[0].wall_ns <= marks[i].wall_ns,
    ensures
        phase_mark_series_model(marks) is Arr,
        phase_mark_series_model(marks)->Arr_0.len() == marks.len(),
        number_under(phase_mark_series_model(marks)->Arr_0[i], "wall_offset_ns"@) == Some(
            marks[i].wall_ns - marks[0].wall_ns,
        ),
        number_under(phase_mark_series_model(marks)->Arr_0[i], "id"@) == Some(marks[i].id as int),
        number_under(phase_mark_series_model(marks)->Arr_0[i], "elapsed_clocks"@) == Some(
            marks[i].elapsed_clocks as int,
        ),
{
    let first = marks[0].wall_ns;
    law_own_columns_by_key(marks[i], first);
    lemma_own_columns_keys_differ();
    reveal_strlit("wall_offset_ns");
    reveal_strlit("id");
    reveal_strlit("elapsed_clocks");
    assert("wall_offset_ns"@[0] == 'w' && "id"@[0] == 'i' && "elapsed_clocks"@[0] == 'e');
    law_katea_columns_leave_the_others(own_columns(marks[i], first), marks[i].katea, "wall_offset_ns"@);
    law_katea_columns_leave_the_others(own_columns(marks[i], first), marks[i].katea, "id"@);
    law_katea_columns_leave_the_others(own_columns(marks[i], first), marks[i].katea, "elapsed_clocks"@);
}

} // verus!
