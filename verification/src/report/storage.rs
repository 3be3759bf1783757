//! The folder-backed drive, BIOS disk calls and the drive clock levers.

use vstd::prelude::*;

use crate::json::{no_fields, numbers, object, put, put_flag, put_number};
#[allow(unused_imports)]
use crate::json::{json_of, num_array, JsonModel};
#[allow(unused_imports)]
use crate::json::{flag_under, number_under, under};

verus! {

/// The counters of the folder-backed drive.
#[derive(Clone, Copy, Debug, Default)]
pub struct KateaStorageCounters {
    pub sector_reads: u64,
    pub host_file_reads: u64,
    pub host_bytes: u64,
    pub host_read_operations: u64,
    pub host_read_bytes: u64,
    pub host_wall_ns: u64,
    pub host_read_max_ns: u64,
    pub host_readahead_hits: u64,
    pub host_readahead_fills: u64,
    pub host_file_opens: u64,
    pub run_scan_steps: u64,
    pub fat_sector_reads: u64,
    pub dir_or_free_sector_reads: u64,
    pub sector_writes: u64,
    pub int13_read_commands: u64,
    pub int13_read_sectors: u64,
    pub int13_read_wait_ticks: u64,
    pub int13_write_commands: u64,
    pub int13_write_sectors: u64,
    pub int13_write_wait_ticks: u64,
    pub pio_read_commands: u64,
    pub pio_read_sectors: u64,
    pub pio_read_wait_ticks: u64,
    pub pio_write_commands: u64,
    pub pio_write_sectors: u64,
    pub pio_write_wait_ticks: u64,
    pub dma_read_commands: u64,
    pub dma_read_sectors: u64,
    pub dma_read_wait_ticks: u64,
    pub dma_write_commands: u64,
    pub dma_write_sectors: u64,
    pub dma_write_wait_ticks: u64,
    pub overlay_resident_sectors: u64,
    pub overlay_pending_sectors: u64,
    pub pending_unmapped_sectors: u64,
    pub spill_operations: u64,
    pub spill_bytes: u64,
    pub spill_wall_ns: u64,
    pub projection_operations: u64,
    pub projection_bytes: u64,
    pub projection_wall_ns: u64,
    pub projection_max_ns: u64,
    pub metadata_projection_passes: u64,
    pub host_write_failures: u64,
    pub blocked_projection_keys: u64,
    pub mount_prime_ns: u64,
    pub mount_seed_ns: u64,
    pub mount_total_ns: u64,
}

/// The counter object: one field per counter, under the counter's own name.
pub open spec fn katea_counters_model(k: KateaStorageCounters) -> JsonModel {
    JsonModel::Obj(
        map![
            "sector_reads"@ => JsonModel::Num(k.sector_reads as int),
            "host_file_reads"@ => JsonModel::Num(k.host_file_reads as int),
            "host_bytes"@ => JsonModel::Num(k.host_bytes as int),
            "host_read_operations"@ => JsonModel::Num(k.host_read_operations as int),
            "host_read_bytes"@ => JsonModel::Num(k.host_read_bytes as int),
            "host_wall_ns"@ => JsonModel::Num(k.host_wall_ns as int),
            "host_read_max_ns"@ => JsonModel::Num(k.host_read_max_ns as int),
            "host_readahead_hits"@ => JsonModel::Num(k.host_readahead_hits as int),
            "host_readahead_fills"@ => JsonModel::Num(k.host_readahead_fills as int),
            "host_file_opens"@ => JsonModel::Num(k.host_file_opens as int),
            "run_scan_steps"@ => JsonModel::Num(k.run_scan_steps as int),
            "fat_sector_reads"@ => JsonModel::Num(k.fat_sector_reads as int),
            "dir_or_free_sector_reads"@ => JsonModel::Num(k.dir_or_free_sector_reads as int),
            "sector_writes"@ => JsonModel::Num(k.sector_writes as int),
            "int13_read_commands"@ => JsonModel::Num(k.int13_read_commands as int),
            "int13_read_sectors"@ => JsonModel::Num(k.int13_read_sectors as int),
            "int13_read_wait_ticks"@ => JsonModel::Num(k.int13_read_wait_ticks as int),
            "int13_write_commands"@ => JsonModel::Num(k.int13_write_commands as int),
            "int13_write_sectors"@ => JsonModel::Num(k.int13_write_sectors as int),
            "int13_write_wait_ticks"@ => JsonModel::Num(k.int13_write_wait_ticks as int),
            "pio_read_commands"@ => JsonModel::Num(k.pio_read_commands as int),
            "pio_read_sectors"@ => JsonModel::Num(k.pio_read_sectors as int),
            "pio_read_wait_ticks"@ => JsonModel::Num(k.pio_read_wait_ticks as int),
            "pio_write_commands"@ => JsonModel::Num(k.pio_write_commands as int),
            "pio_write_sectors"@ => JsonModel::Num(k.pio_write_sectors as int),
            "pio_write_wait_ticks"@ => JsonModel::Num(k.pio_write_wait_ticks as int),
            "dma_read_commands"@ => JsonModel::Num(k.dma_read_commands as int),
            "dma_read_sectors"@ => JsonModel::Num(k.dma_read_sectors as int),
            "dma_read_wait_ticks"@ => JsonModel::Num(k.dma_read_wait_ticks as int),
            "dma_write_commands"@ => JsonModel::Num(k.dma_write_commands as int),
            "dma_write_sectors"@ => JsonModel::Num(k.dma_write_sectors as int),
            "dma_write_wait_ticks"@ => JsonModel::Num(k.dma_write_wait_ticks as int),
            "overlay_resident_sectors"@ => JsonModel::Num(k.overlay_resident_sectors as int),
            "overlay_pending_sectors"@ => JsonModel::Num(k.overlay_pending_sectors as int),
            "pending_unmapped_sectors"@ => JsonModel::Num(k.pending_unmapped_sectors as int),
            "spill_operations"@ => JsonModel::Num(k.spill_operations as int),
            "spill_bytes"@ => JsonModel::Num(k.spill_bytes as int),
            "spill_wall_ns"@ => JsonModel::Num(k.spill_wall_ns as int),
            "projection_operations"@ => JsonModel::Num(k.projection_operations as int),
            "projection_bytes"@ => JsonModel::Num(k.projection_bytes as int),
            "projection_wall_ns"@ => JsonModel::Num(k.projection_wall_ns as int),
            "projection_max_ns"@ => JsonModel::Num(k.projection_max_ns as int),
            "metadata_projection_passes"@ => JsonModel::Num(k.metadata_projection_passes as int),
            "host_write_failures"@ => JsonModel::Num(k.host_write_failures as int),
            "blocked_projection_keys"@ => JsonModel::Num(k.blocked_projection_keys as int),
            "mount_prime_ns"@ => JsonModel::Num(k.mount_prime_ns as int),
            "mount_seed_ns"@ => JsonModel::Num(k.mount_seed_ns as int),
            "mount_total_ns"@ => JsonModel::Num(k.mount_total_ns as int),
        ],
    )
}

/// The drive counters as one object: each counter under its own name.
pub fn katea_counters_json(k: &KateaStorageCounters) -> (value: serde_json::Value)
    ensures
        json_of(value) == katea_counters_model(*k),
{
    let mut fields = no_fields();
    put_number(&mut fields, "sector_reads", k.sector_reads);
    put_number(&mut fields, "host_file_reads", k.host_file_reads);
    put_number(&mut fields, "host_bytes", k.host_bytes);
    put_number(&mut fields, "host_read_operations", k.host_read_operations);
    put_number(&mut fields, "host_read_bytes", k.host_read_bytes);
    put_number(&mut fields, "host_wall_ns", k.host_wall_ns);
    put_number(&mut fields, "host_read_max_ns", k.host_read_max_ns);
    put_number(&mut fields, "host_readahead_hits", k.host_readahead_hits);
    put_number(&mut fields, "host_readahead_fills", k.host_readahead_fills);
    put_number(&mut fields, "host_file_opens", k.host_file_opens);
    put_number(&mut fields, "run_scan_steps", k.run_scan_steps);
    put_number(&mut fields, "fat_sector_reads", k.fat_sector_reads);
    put_number(&mut fields, "dir_or_free_sector_reads", k.dir_or_free_sector_reads);
    put_number(&mut fields, "sector_writes", k.sector_writes);
    put_number(&mut fields, "int13_read_commands", k.int13_read_commands);
    put_number(&mut fields, "int13_read_sectors", k.int13_read_sectors);
    put_number(&mut fields, "int13_read_wait_ticks", k.int13_read_wait_ticks);
    put_number(&mut fields, "int13_write_commands", k.int13_write_commands);
    put_number(&mut fields, "int13_write_sectors", k.int13_write_sectors);
    put_number(&mut fields, "int13_write_wait_ticks", k.int13_write_wait_ticks);
    put_number(&mut fields, "pio_read_commands", k.pio_read_commands);
    put_number(&mut fields, "pio_read_sectors", k.pio_read_sectors);
    put_number(&mut fields, "pio_read_wait_ticks", k.pio_read_wait_ticks);
    put_number(&mut fields, "pio_write_commands", k.pio_write_commands);
    put_number(&mut fields, "pio_write_sectors", k.pio_write_sectors);
    put_number(&mut fields, "pio_write_wait_ticks", k.pio_write_wait_ticks);
    put_number(&mut fields, "dma_read_commands", k.dma_read_commands);
    put_number(&mut fields, "dma_read_sectors", k.dma_read_sectors);
    put_number(&mut fields, "dma_read_wait_ticks", k.dma_read_wait_ticks);
    put_number(&mut fields, "dma_write_commands", k.dma_write_commands);
    put_number(&mut fields, "dma_write_sectors", k.dma_write_sectors);
    put_number(&mut fields, "dma_write_wait_ticks", k.dma_write_wait_ticks);
    put_number(&mut fields, "overlay_resident_sectors", k.overlay_resident_sectors);
    put_number(&mut fields, "overlay_pending_sectors", k.overlay_pending_sectors);
    put_number(&mut fields, "pending_unmapped_sectors", k.pending_unmapped_sectors);
    put_number(&mut fields, "spill_operations", k.spill_operations);
    put_number(&mut fields, "spill_bytes", k.spill_bytes);
    put_number(&mut fields, "spill_wall_ns", k.spill_wall_ns);
    put_number(&mut fields, "projection_operations", k.projection_operations);
    put_number(&mut fields, "projection_bytes", k.projection_bytes);
    put_number(&mut fields, "projection_wall_ns", k.projection_wall_ns);
    put_number(&mut fields, "projection_max_ns", k.projection_max_ns);
    put_number(&mut fields, "metadata_projection_passes", k.metadata_projection_passes);
    put_number(&mut fields, "host_write_failures", k.host_write_failures);
    put_number(&mut fields, "blocked_projection_keys", k.blocked_projection_keys);
    put_number(&mut fields, "mount_prime_ns", k.mount_prime_ns);
    put_number(&mut fields, "mount_seed_ns", k.mount_seed_ns);
    put_number(&mut fields, "mount_total_ns", k.mount_total_ns);
    object(fields)
}

/// What the guest asked of the BIOS fixed-disk service.
#[derive(Debug, Default)]
pub struct Int13Profile {
    pub read_calls: u64,
    pub read_sectors: u64,
    pub write_calls: u64,
    pub write_sectors: u64,
    pub verify_calls: u64,
    pub verify_sectors: u64,
    pub control_calls: u64,
    pub read_count_hist: Vec<u64>,
    pub cache_hits: u64,
    pub stall_ticks: u64,
    pub host_wall_ns: u64,
    pub read1_fat: u64,
    pub read1_data: u64,
    pub read1_other: u64,
    pub read1_buf_conv: u64,
    pub read1_buf_uma: u64,
    pub read1_buf_hma: u64,
    pub read_buf_conv: u64,
    pub read_buf_uma: u64,
    pub read_buf_hma: u64,
}

/// What [`int13_profile_json`] gives.
pub open spec fn int13_profile_model(p: Int13Profile) -> JsonModel {
    JsonModel::Obj(
        map![
            "read_calls"@ => JsonModel::Num(p.read_calls as int),
            "read_sectors"@ => JsonModel::Num(p.read_sectors as int),
            "write_calls"@ => JsonModel::Num(p.write_calls as int),
            "write_sectors"@ => JsonModel::Num(p.write_sectors as int),
            "verify_calls"@ => JsonModel::Num(p.verify_calls as int),
            "verify_sectors"@ => JsonModel::Num(p.verify_sectors as int),
            "control_calls"@ => JsonModel::Num(p.control_calls as int),
            "read_count_hist"@ => num_array(p.read_count_hist@),
            "cache_hits"@ => JsonModel::Num(p.cache_hits as int),
            "stall_ticks"@ => JsonModel::Num(p.stall_ticks as int),
            "host_wall_ns"@ => JsonModel::Num(p.host_wall_ns as int),
            "read1_fat"@ => JsonModel::Num(p.read1_fat as int),
            "read1_data"@ => JsonModel::Num(p.read1_data as int),
            "read1_other"@ => JsonModel::Num(p.read1_other as int),
            "read1_buf_conv"@ => JsonModel::Num(p.read1_buf_conv as int),
            "read1_buf_uma"@ => JsonModel::Num(p.read1_buf_uma as int),
            "read1_buf_hma"@ => JsonModel::Num(p.read1_buf_hma as int),
            "read_buf_conv"@ => JsonModel::Num(p.read_buf_conv as int),
            "read_buf_uma"@ => JsonModel::Num(p.read_buf_uma as int),
            "read_buf_hma"@ => JsonModel::Num(p.read_buf_hma as int),
        ],
    )
}

/// The BIOS fixed-disk census as one object.
pub fn int13_profile_json(p: &Int13Profile) -> (value: serde_json::Value)
    ensures
        json_of(value) == int13_profile_model(*p),
{
    let mut fields = no_fields();
    put_number(&mut fields, "read_calls", p.read_calls);
    put_number(&mut fields, "read_sectors", p.read_sectors);
    put_number(&mut fields, "write_calls", p.write_calls);
    put_number(&mut fields, "write_sectors", p.write_sectors);
    put_number(&mut fields, "verify_calls", p.verify_calls);
    put_number(&mut fields, "verify_sectors", p.verify_sectors);
    put_number(&mut fields, "control_calls", p.control_calls);
    put(&mut fields, "read_count_hist", numbers(&p.read_count_hist));
    put_number(&mut fields, "cache_hits", p.cache_hits);
    put_number(&mut fields, "stall_ticks", p.stall_ticks);
    put_number(&mut fields, "host_wall_ns", p.host_wall_ns);
    put_number(&mut fields, "read1_fat", p.read1_fat);
    put_number(&mut fields, "read1_data", p.read1_data);
    put_number(&mut fields, "read1_other", p.read1_other);
    put_number(&mut fields, "read1_buf_conv", p.read1_buf_conv);
    put_number(&mut fields, "read1_buf_uma", p.read1_buf_uma);
    put_number(&mut fields, "read1_buf_hma", p.read1_buf_hma);
    put_number(&mut fields, "read_buf_conv", p.read_buf_conv);
    put_number(&mut fields, "read_buf_uma", p.read_buf_uma);
    put_number(&mut fields, "read_buf_hma", p.read_buf_hma);
    object(fields)
}

/// How the timer was advanced: in bulk, or clock by clock, and why not in bulk.
#[derive(Clone, Copy, Debug, Default)]
pub struct PitBulkAdvance {
    pub enabled: bool,
    pub advances: u64,
    pub advance_clocks: u64,
    pub loop_advances: u64,
    pub loop_clocks: u64,
    pub declines_knob_off: u64,
    pub declines_bcd: u64,
    pub declines_illegal_reload: u64,
    pub declines_span_too_wide: u64,
    pub transitions: u64,
}

/// What [`pit_bulk_advance_json`] gives.
pub open spec fn pit_bulk_advance_model(c: PitBulkAdvance) -> JsonModel {
    JsonModel::Obj(
        map![
            "enabled"@ => JsonModel::Bool(c.enabled),
            "advances"@ => JsonModel::Num(c.advances as int),
            "advance_clocks"@ => JsonModel::Num(c.advance_clocks as int),
            "loop_advances"@ => JsonModel::Num(c.loop_advances as int),
            "loop_clocks"@ => JsonModel::Num(c.loop_clocks as int),
            "declines_knob_off"@ => JsonModel::Num(c.declines_knob_off as int),
            "declines_bcd"@ => JsonModel::Num(c.declines_bcd as int),
            "declines_illegal_reload"@ => JsonModel::Num(c.declines_illegal_reload as int),
            "declines_span_too_wide"@ => JsonModel::Num(c.declines_span_too_wide as int),
            "transitions"@ => JsonModel::Num(c.transitions as int),
        ],
    )
}

/// The timer bulk-advance counters as one object.
pub fn pit_bulk_advance_json(c: &PitBulkAdvance) -> (value: serde_json::Value)
    ensures
        json_of(value) == pit_bulk_advance_model(*c),
{
    let mut fields = no_fields();
    put_flag(&mut fields, "enabled", c.enabled);
    put_number(&mut fields, "advances", c.advances);
    put_number(&mut fields, "advance_clocks", c.advance_clocks);
    put_number(&mut fields, "loop_advances", c.loop_advances);
    put_number(&mut fields, "loop_clocks", c.loop_clocks);
    put_number(&mut fields, "declines_knob_off", c.declines_knob_off);
    put_number(&mut fields, "declines_bcd", c.declines_bcd);
    put_number(&mut fields, "declines_illegal_reload", c.declines_illegal_reload);
    put_number(&mut fields, "declines_span_too_wide", c.declines_span_too_wide);
    put_number(&mut fields, "transitions", c.transitions);
    object(fields)
}

/// How far waiting on the drive was skipped, and why it was not.
#[derive(Debug, Default)]
pub struct AtaPollSkip {
    pub enabled: bool,
    pub arms: u64,
    pub spans: u64,
    pub ticks: u64,
    pub blocks: u64,
    pub declines_not_pending: u64,
    pub declines_below_floor: u64,
    pub declines_deadline_clamped: u64,
    pub declines_halted: u64,
    pub monitor_exempt: u64,
    pub run_histogram: Vec<u64>,
}

/// What [`ata_poll_skip_json`] gives.
pub open spec fn ata_poll_skip_model(c: AtaPollSkip) -> JsonModel {
    JsonModel::Obj(
        map![
            "enabled"@ => JsonModel::Bool(c.enabled),
            "arms"@ => JsonModel::Num(c.arms as int),
            "spans"@ => JsonModel::Num(c.spans as int),
            "ticks"@ => JsonModel::Num(c.ticks as int),
            "blocks"@ => JsonModel::Num(c.blocks as int),
            "declines_not_pending"@ => JsonModel::Num(c.declines_not_pending as int),
            "declines_below_floor"@ => JsonModel::Num(c.declines_below_floor as int),
            "declines_deadline_clamped"@ => JsonModel::Num(c.declines_deadline_clamped as int),
            "declines_halted"@ => JsonModel::Num(c.declines_halted as int),
            "monitor_exempt"@ => JsonModel::Num(c.monitor_exempt as int),
            "run_histogram"@ => num_array(c.run_histogram@),
        ],
    )
}

/// The drive poll-skip counters as one object.
pub fn ata_poll_skip_json(c: &AtaPollSkip) -> (value: serde_json::Value)
    ensures
        json_of(value) == ata_poll_skip_model(*c),
{
    let mut fields = no_fields();
    put_flag(&mut fields, "enabled", c.enabled);
    put_number(&mut fields, "arms", c.arms);
    put_number(&mut fields, "spans", c.spans);
    put_number(&mut fields, "ticks", c.ticks);
    put_number(&mut fields, "blocks", c.blocks);
    put_number(&mut fields, "declines_not_pending", c.declines_not_pending);
    put_number(&mut fields, "declines_below_floor", c.declines_below_floor);
    put_number(&mut fields, "declines_deadline_clamped", c.declines_deadline_clamped);
    put_number(&mut fields, "declines_halted", c.declines_halted);
    put_number(&mut fields, "monitor_exempt", c.monitor_exempt);
    put(&mut fields, "run_histogram", numbers(&c.run_histogram));
    object(fields)
}

// ---------------------------------------------------------------------------
// By key
// ---------------------------------------------------------------------------

/// What tells the keys of the object apart.
proof fn lemma_katea_counters_keys_differ()
    ensures
        "sector_reads"@.len() == 12 && "sector_reads"@[1] == 'e' && "sector_reads"@[10] == 'd',
        "host_file_reads"@.len() == 15 && "host_file_reads"@[1] == 'o' && "host_file_reads"@[10] == 'r',
        "host_bytes"@.len() == 10 && "host_bytes"@[1] == 'o',
        "host_read_operations"@.len() == 20 && "host_read_operations"@[1] == 'o' && "host_read_operations"@[10] == 'o',
        "host_read_bytes"@.len() == 15 && "host_read_bytes"@[1] == 'o' && "host_read_bytes"@[10] == 'b',
        "host_wall_ns"@.len() == 12 && "host_wall_ns"@[1] == 'o' && "host_wall_ns"@[10] == 'n',
        "host_read_max_ns"@.len() == 16 && "host_read_max_ns"@[1] == 'o' && "host_read_max_ns"@[10] == 'm',
        "host_readahead_hits"@.len() == 19 && "host_readahead_hits"@[1] == 'o' && "host_readahead_hits"@[10] == 'h',
        "host_readahead_fills"@.len() == 20 && "host_readahead_fills"@[1] == 'o' && "host_readahead_fills"@[10] == 'h',
        "host_file_opens"@.len() == 15 && "host_file_opens"@[1] == 'o' && "host_file_opens"@[10] == 'o',
        "run_scan_steps"@.len() == 14 && "run_scan_steps"@[1] == 'u' && "run_scan_steps"@[10] == 't',
        "fat_sector_reads"@.len() == 16 && "fat_sector_reads"@[1] == 'a' && "fat_sector_reads"@[10] == '_',
        "dir_or_free_sector_reads"@.len() == 24 && "dir_or_free_sector_reads"@[1] == 'i' && "dir_or_free_sector_reads"@[10] == 'e',
        "sector_writes"@.len() == 13 && "sector_writes"@[1] == 'e' && "sector_writes"@[10] == 't',
        "int13_read_commands"@.len() == 19 && "int13_read_commands"@[1] == 'n' && "int13_read_commands"@[10] == '_',
        "int13_read_sectors"@.len() == 18 && "int13_read_sectors"@[1] == 'n' && "int13_read_sectors"@[10] == '_',
        "int13_read_wait_ticks"@.len() == 21 && "int13_read_wait_ticks"@[1] == 'n' && "int13_read_wait_ticks"@[10] == '_',
        "int13_write_commands"@.len() == 20 && "int13_write_commands"@[1] == 'n' && "int13_write_commands"@[10] == 'e',
        "int13_write_sectors"@.len() == 19 && "int13_write_sectors"@[1] == 'n' && "int13_write_sectors"@[10] == 'e',
        "int13_write_wait_ticks"@.len() == 22 && "int13_write_wait_ticks"@[1] == 'n' && "int13_write_wait_ticks"@[10] == 'e',
        "pio_read_commands"@.len() == 17 && "pio_read_commands"@[1] == 'i' && "pio_read_commands"@[10] == 'o',
        "pio_read_sectors"@.len() == 16 && "pio_read_sectors"@[1] == 'i' && "pio_read_sectors"@[10] == 'e',
        "pio_read_wait_ticks"@.len() == 19 && "pio_read_wait_ticks"@[1] == 'i' && "pio_read_wait_ticks"@[10] == 'a',
        "pio_write_commands"@.len() == 18 && "pio_write_commands"@[1] == 'i' && "pio_write_commands"@[10] == 'c',
        "pio_write_sectors"@.len() == 17 && "pio_write_sectors"@[1] == 'i' && "pio_write_sectors"@[10] == 's',
        "pio_write_wait_ticks"@.len() == 20 && "pio_write_wait_ticks"@[1] == 'i' && "pio_write_wait_ticks"@[10] == 'w',
        "dma_read_commands"@.len() == 17 && "dma_read_commands"@[1] == 'm' && "dma_read_commands"@[10] == 'o',
        "dma_read_sectors"@.len() == 16 && "dma_read_sectors"@[1] == 'm' && "dma_read_sectors"@[10] == 'e',
        "dma_read_wait_ticks"@.len() == 19 && "dma_read_wait_ticks"@[1] == 'm' && "dma_read_wait_ticks"@[10] == 'a',
        "dma_write_commands"@.len() == 18 && "dma_write_commands"@[1] == 'm' && "dma_write_commands"@[10] == 'c',
        "dma_write_sectors"@.len() == 17 && "dma_write_sectors"@[1] == 'm' && "dma_write_sectors"@[10] == 's',
        "dma_write_wait_ticks"@.len() == 20 && "dma_write_wait_ticks"@[1] == 'm' && "dma_write_wait_ticks"@[10] == 'w',
        "overlay_resident_sectors"@.len() == 24 && "overlay_resident_sectors"@[1] == 'v' && "overlay_resident_sectors"@[10] == 's',
        "overlay_pending_sectors"@.len() == 23 && "overlay_pending_sectors"@[1] == 'v' && "overlay_pending_sectors"@[10] == 'n',
        "pending_unmapped_sectors"@.len() == 24 && "pending_unmapped_sectors"@[1] == 'e' && "pending_unmapped_sectors"@[10] == 'm',
        "spill_operations"@.len() == 16 && "spill_operations"@[1] == 'p' && "spill_operations"@[10] == 'a',
        "spill_bytes"@.len() == 11 && "spill_bytes"@[1] == 'p' && "spill_bytes"@[10] == 's',
        "spill_wall_ns"@.len() == 13 && "spill_wall_ns"@[1] == 'p' && "spill_wall_ns"@[10] == '_',
        "projection_operations"@.len() == 21 && "projection_operations"@[1] == 'r' && "projection_operations"@[10] == '_',
        "projection_bytes"@.len() == 16 && "projection_bytes"@[1] == 'r' && "projection_bytes"@[10] == '_',
        "projection_wall_ns"@.len() == 18 && "projection_wall_ns"@[1] == 'r' && "projection_wall_ns"@[10] == '_',
        "projection_max_ns"@.len() == 17 && "projection_max_ns"@[1] == 'r' && "projection_max_ns"@[10] == '_',
        "metadata_projection_passes"@.len() == 26 && "metadata_projection_passes"@[1] == 'e' && "metadata_projection_passes"@[10] == 'r',
        "host_write_failures"@.len() == 19 && "host_write_failures"@[1] == 'o' && "host_write_failures"@[10] == '_',
        "blocked_projection_keys"@.len() == 23 && "blocked_projection_keys"@[1] == 'l' && "blocked_projection_keys"@[10] == 'o',
        "mount_prime_ns"@.len() == 14 && "mount_prime_ns"@[1] == 'o' && "mount_prime_ns"@[10] == 'e',
        "mount_seed_ns"@.len() == 13 && "mount_seed_ns"@[1] == 'o' && "mount_seed_ns"@[10] == '_',
        "mount_total_ns"@.len() == 14 && "mount_total_ns"@[1] == 'o' && "mount_total_ns"@[10] == 'l',
{
    reveal_strlit("sector_reads");
    reveal_strlit("host_file_reads");
    reveal_strlit("host_bytes");
    reveal_strlit("host_read_operations");
    reveal_strlit("host_read_bytes");
    reveal_strlit("host_wall_ns");
    reveal_strlit("host_read_max_ns");
    reveal_strlit("host_readahead_hits");
    reveal_strlit("host_readahead_fills");
    reveal_strlit("host_file_opens");
    reveal_strlit("run_scan_steps");
    reveal_strlit("fat_sector_reads");
    reveal_strlit("dir_or_free_sector_reads");
    reveal_strlit("sector_writes");
    reveal_strlit("int13_read_commands");
    reveal_strlit("int13_read_sectors");
    reveal_strlit("int13_read_wait_ticks");
    reveal_strlit("int13_write_commands");
    reveal_strlit("int13_write_sectors");
    reveal_strlit("int13_write_wait_ticks");
    reveal_strlit("pio_read_commands");
    reveal_strlit("pio_read_sectors");
    reveal_strlit("pio_read_wait_ticks");
    reveal_strlit("pio_write_commands");
    reveal_strlit("pio_write_sectors");
    reveal_strlit("pio_write_wait_ticks");
    reveal_strlit("dma_read_commands");
    reveal_strlit("dma_read_sectors");
    reveal_strlit("dma_read_wait_ticks");
    reveal_strlit("dma_write_commands");
    reveal_strlit("dma_write_sectors");
    reveal_strlit("dma_write_wait_ticks");
    reveal_strlit("overlay_resident_sectors");
    reveal_strlit("overlay_pending_sectors");
    reveal_strlit("pending_unmapped_sectors");
    reveal_strlit("spill_operations");
    reveal_strlit("spill_bytes");
    reveal_strlit("spill_wall_ns");
    reveal_strlit("projection_operations");
    reveal_strlit("projection_bytes");
    reveal_strlit("projection_wall_ns");
    reveal_strlit("projection_max_ns");
    reveal_strlit("metadata_projection_passes");
    reveal_strlit("host_write_failures");
    reveal_strlit("blocked_projection_keys");
    reveal_strlit("mount_prime_ns");
    reveal_strlit("mount_seed_ns");
    reveal_strlit("mount_total_ns");
}

/// Some entries of the object, looked up by their keys.
proof fn lemma_katea_counters_keys_a(k: KateaStorageCounters)
    ensures
        number_under(katea_counters_model(k), "sector_reads"@) == Some(k.sector_reads as int),
        number_under(katea_counters_model(k), "host_file_reads"@) == Some(k.host_file_reads as int),
        number_under(katea_counters_model(k), "host_bytes"@) == Some(k.host_bytes as int),
        number_under(katea_counters_model(k), "host_read_operations"@)
            == Some(k.host_read_operations as int),
        number_under(katea_counters_model(k), "host_read_bytes"@) == Some(k.host_read_bytes as int),
        number_under(katea_counters_model(k), "host_wall_ns"@) == Some(k.host_wall_ns as int),
        number_under(katea_counters_model(k), "host_read_max_ns"@)
            == Some(k.host_read_max_ns as int),
        number_under(katea_counters_model(k), "host_readahead_hits"@)
            == Some(k.host_readahead_hits as int),
        number_under(katea_counters_model(k), "host_readahead_fills"@)
            == Some(k.host_readahead_fills as int),
        number_under(katea_counters_model(k), "host_file_opens"@) == Some(k.host_file_opens as int),
        number_under(katea_counters_model(k), "run_scan_steps"@) == Some(k.run_scan_steps as int),
        number_under(katea_counters_model(k), "fat_sector_reads"@)
            == Some(k.fat_sector_reads as int),
        number_under(katea_counters_model(k), "dir_or_free_sector_reads"@)
            == Some(k.dir_or_free_sector_reads as int),
        number_under(katea_counters_model(k), "sector_writes"@) == Some(k.sector_writes as int),
        number_under(katea_counters_model(k), "int13_read_commands"@)
            == Some(k.int13_read_commands as int),
        number_under(katea_counters_model(k), "int13_read_sectors"@)
            == Some(k.int13_read_sectors as int),
        number_under(katea_counters_model(k), "int13_read_wait_ticks"@)
            == Some(k.int13_read_wait_ticks as int),
        number_under(katea_counters_model(k), "int13_write_commands"@)
            == Some(k.int13_write_commands as int),
        number_under(katea_counters_model(k), "int13_write_sectors"@)
            == Some(k.int13_write_sectors as int),
        number_under(katea_counters_model(k), "int13_write_wait_ticks"@)
            == Some(k.int13_write_wait_ticks as int),
        number_under(katea_counters_model(k), "pio_read_commands"@)
            == Some(k.pio_read_commands as int),
        number_under(katea_counters_model(k), "pio_read_sectors"@)
            == Some(k.pio_read_sectors as int),
        number_under(katea_counters_model(k), "pio_read_wait_ticks"@)
            == Some(k.pio_read_wait_ticks as int),
        number_under(katea_counters_model(k), "pio_write_commands"@)
            == Some(k.pio_write_commands as int),
        number_under(katea_counters_model(k), "pio_write_sectors"@)
            == Some(k.pio_write_sectors as int),
        number_under(katea_counters_model(k), "pio_write_wait_ticks"@)
            == Some(k.pio_write_wait_ticks as int),
{
    lemma_katea_counters_keys_differ();
}

/// Some entries of the object, looked up by their keys.
proof fn lemma_katea_counters_keys_b(k: KateaStorageCounters)
    ensures
        number_under(katea_counters_model(k), "dma_read_commands"@)
            == Some(k.dma_read_commands as int),
        number_under(katea_counters_model(k), "dma_read_sectors"@)
            == Some(k.dma_read_sectors as int),
        number_under(katea_counters_model(k), "dma_read_wait_ticks"@)
            == Some(k.dma_read_wait_ticks as int),
        number_under(katea_counters_model(k), "dma_write_commands"@)
            == Some(k.dma_write_commands as int),
        number_under(katea_counters_model(k), "dma_write_sectors"@)
            == Some(k.dma_write_sectors as int),
        number_under(katea_counters_model(k), "dma_write_wait_ticks"@)
            == Some(k.dma_write_wait_ticks as int),
        number_under(katea_counters_model(k), "overlay_resident_sectors"@)
            == Some(k.overlay_resident_sectors as int),
        number_under(katea_counters_model(k), "overlay_pending_sectors"@)
            == Some(k.overlay_pending_sectors as int),
        number_under(katea_counters_model(k), "pending_unmapped_sectors"@)
            == Some(k.pending_unmapped_sectors as int),
        number_under(katea_counters_model(k), "spill_operations"@)
            == Some(k.spill_operations as int),
        number_under(katea_counters_model(k), "spill_bytes"@) == Some(k.spill_bytes as int),
        number_under(katea_counters_model(k), "spill_wall_ns"@) == Some(k.spill_wall_ns as int),
        number_under(katea_counters_model(k), "projection_operations"@)
            == Some(k.projection_operations as int),
        number_under(katea_counters_model(k), "projection_bytes"@)
            == Some(k.projection_bytes as int),
        number_under(katea_counters_model(k), "projection_wall_ns"@)
            == Some(k.projection_wall_ns as int),
        number_under(katea_counters_model(k), "projection_max_ns"@)
            == Some(k.projection_max_ns as int),
        number_under(katea_counters_model(k), "metadata_projection_passes"@)
            == Some(k.metadata_projection_passes as int),
        number_under(katea_counters_model(k), "host_write_failures"@)
            == Some(k.host_write_failures as int),
        number_under(katea_counters_model(k), "blocked_projection_keys"@)
            == Some(k.blocked_projection_keys as int),
        number_under(katea_counters_model(k), "mount_prime_ns"@) == Some(k.mount_prime_ns as int),
        number_under(katea_counters_model(k), "mount_seed_ns"@) == Some(k.mount_seed_ns as int),
        number_under(katea_counters_model(k), "mount_total_ns"@) == Some(k.mount_total_ns as int),
{
    lemma_katea_counters_keys_differ();
}

/// Looked up by its key, every entry of the object is the figure that the key names.
pub proof fn law_katea_counters_by_key(k: KateaStorageCounters)
    ensures
        number_under(katea_counters_model(k), "sector_reads"@) == Some(k.sector_reads as int),
        number_under(katea_counters_model(k), "host_file_reads"@) == Some(k.host_file_reads as int),
        number_under(katea_counters_model(k), "host_bytes"@) == Some(k.host_bytes as int),
        number_under(katea_counters_model(k), "host_read_operations"@)
            == Some(k.host_read_operations as int),
        number_under(katea_counters_model(k), "host_read_bytes"@) == Some(k.host_read_bytes as int),
        number_under(katea_counters_model(k), "host_wall_ns"@) == Some(k.host_wall_ns as int),
        number_under(katea_counters_model(k), "host_read_max_ns"@)
            == Some(k.host_read_max_ns as int),
        number_under(katea_counters_model(k), "host_readahead_hits"@)
            == Some(k.host_readahead_hits as int),
        number_under(katea_counters_model(k), "host_readahead_fills"@)
            == Some(k.host_readahead_fills as int),
        number_under(katea_counters_model(k), "host_file_opens"@) == Some(k.host_file_opens as int),
        number_under(katea_counters_model(k), "run_scan_steps"@) == Some(k.run_scan_steps as int),
        number_under(katea_counters_model(k), "fat_sector_reads"@)
            == Some(k.fat_sector_reads as int),
        number_under(katea_counters_model(k), "dir_or_free_sector_reads"@)
            == Some(k.dir_or_free_sector_reads as int),
        number_under(katea_counters_model(k), "sector_writes"@) == Some(k.sector_writes as int),
        number_under(katea_counters_model(k), "int13_read_commands"@)
            == Some(k.int13_read_commands as int),
        number_under(katea_counters_model(k), "int13_read_sectors"@)
            == Some(k.int13_read_sectors as int),
        number_under(katea_counters_model(k), "int13_read_wait_ticks"@)
            == Some(k.int13_read_wait_ticks as int),
        number_under(katea_counters_model(k), "int13_write_commands"@)
            == Some(k.int13_write_commands as int),
        number_under(katea_counters_model(k), "int13_write_sectors"@)
            == Some(k.int13_write_sectors as int),
        number_under(katea_counters_model(k), "int13_write_wait_ticks"@)
            == Some(k.int13_write_wait_ticks as int),
        number_under(katea_counters_model(k), "pio_read_commands"@)
            == Some(k.pio_read_commands as int),
        number_under(katea_counters_model(k), "pio_read_sectors"@)
            == Some(k.pio_read_sectors as int),
        number_under(katea_counters_model(k), "pio_read_wait_ticks"@)
            == Some(k.pio_read_wait_ticks as int),
        number_under(katea_counters_model(k), "pio_write_commands"@)
            == Some(k.pio_write_commands as int),
        number_under(katea_counters_model(k), "pio_write_sectors"@)
            == Some(k.pio_write_sectors as int),
        number_under(katea_counters_model(k), "pio_write_wait_ticks"@)
            == Some(k.pio_write_wait_ticks as int),
        number_under(katea_counters_model(k), "dma_read_commands"@)
            == Some(k.dma_read_commands as int),
        number_under(katea_counters_model(k), "dma_read_sectors"@)
            == Some(k.dma_read_sectors as int),
        number_under(katea_counters_model(k), "dma_read_wait_ticks"@)
            == Some(k.dma_read_wait_ticks as int),
        number_under(katea_counters_model(k), "dma_write_commands"@)
            == Some(k.dma_write_commands as int),
        number_under(katea_counters_model(k), "dma_write_sectors"@)
            == Some(k.dma_write_sectors as int),
        number_under(katea_counters_model(k), "dma_write_wait_ticks"@)
            == Some(k.dma_write_wait_ticks as int),
        number_under(katea_counters_model(k), "overlay_resident_sectors"@)
            == Some(k.overlay_resident_sectors as int),
        number_under(katea_counters_model(k), "overlay_pending_sectors"@)
            == Some(k.overlay_pending_sectors as int),
        number_under(katea_counters_model(k), "pending_unmapped_sectors"@)
            == Some(k.pending_unmapped_sectors as int),
        number_under(katea_counters_model(k), "spill_operations"@)
            == Some(k.spill_operations as int),
        number_under(katea_counters_model(k), "spill_bytes"@) == Some(k.spill_bytes as int),
        number_under(katea_counters_model(k), "spill_wall_ns"@) == Some(k.spill_wall_ns as int),
        number_under(katea_counters_model(k), "projection_operations"@)
            == Some(k.projection_operations as int),
        number_under(katea_counters_model(k), "projection_bytes"@)
            == Some(k.projection_bytes as int),
        number_under(katea_counters_model(k), "projection_wall_ns"@)
            == Some(k.projection_wall_ns as int),
        number_under(katea_counters_model(k), "projection_max_ns"@)
            == Some(k.projection_max_ns as int),
        number_under(katea_counters_model(k), "metadata_projection_passes"@)
            == Some(k.metadata_projection_passes as int),
        number_under(katea_counters_model(k), "host_write_failures"@)
            == Some(k.host_write_failures as int),
        number_under(katea_counters_model(k), "blocked_projection_keys"@)
            == Some(k.blocked_projection_keys as int),
        number_under(katea_counters_model(k), "mount_prime_ns"@) == Some(k.mount_prime_ns as int),
        number_under(katea_counters_model(k), "mount_seed_ns"@) == Some(k.mount_seed_ns as int),
        number_under(katea_counters_model(k), "mount_total_ns"@) == Some(k.mount_total_ns as int),
{
    lemma_katea_counters_keys_a(k);
    lemma_katea_counters_keys_b(k);
}

/// Looked up by its key, every entry of the object is the figure that the key names.
pub proof fn law_int13_profile_by_key(p: Int13Profile)
    ensures
        number_under(int13_profile_model(p), "read_calls"@) == Some(p.read_calls as int),
        number_under(int13_profile_model(p), "read_sectors"@) == Some(p.read_sectors as int),
        number_under(int13_profile_model(p), "write_calls"@) == Some(p.write_calls as int),
        number_under(int13_profile_model(p), "write_sectors"@) == Some(p.write_sectors as int),
        number_under(int13_profile_model(p), "verify_calls"@) == Some(p.verify_calls as int),
        number_under(int13_profile_model(p), "verify_sectors"@) == Some(p.verify_sectors as int),
        number_under(int13_profile_model(p), "control_calls"@) == Some(p.control_calls as int),
        under(int13_profile_model(p), "read_count_hist"@) == Some(num_array(p.read_count_hist@)),
        number_under(int13_profile_model(p), "cache_hits"@) == Some(p.cache_hits as int),
        number_under(int13_profile_model(p), "stall_ticks"@) == Some(p.stall_ticks as int),
        number_under(int13_profile_model(p), "host_wall_ns"@) == Some(p.host_wall_ns as int),
        number_under(int13_profile_model(p), "read1_fat"@) == Some(p.read1_fat as int),
        number_under(int13_profile_model(p), "read1_data"@) == Some(p.read1_data as int),
        number_under(int13_profile_model(p), "read1_other"@) == Some(p.read1_other as int),
        number_under(int13_profile_model(p), "read1_buf_conv"@) == Some(p.read1_buf_conv as int),
        number_under(int13_profile_model(p), "read1_buf_uma"@) == Some(p.read1_buf_uma as int),
        number_under(int13_profile_model(p), "read1_buf_hma"@) == Some(p.read1_buf_hma as int),
        number_under(int13_profile_model(p), "read_buf_conv"@) == Some(p.read_buf_conv as int),
        number_under(int13_profile_model(p), "read_buf_uma"@) == Some(p.read_buf_uma as int),
        number_under(int13_profile_model(p), "read_buf_hma"@) == Some(p.read_buf_hma as int),
{
    reveal_strlit("read_calls");
    assert("read_calls"@.len() == 10 && "read_calls"@[6] == 'a' && "read_calls"@[9] == 's');
    reveal_strlit("read_sectors");
    assert("read_sectors"@.len() == 12 && "read_sectors"@[6] == 'e' && "read_sectors"@[9] == 'o' && "read_sectors"@[10] == 'r');
    reveal_strlit("write_calls");
    assert("write_calls"@.len() == 11 && "write_calls"@[6] == 'c' && "write_calls"@[9] == 'l' && "write_calls"@[10] == 's');
    reveal_strlit("write_sectors");
    assert("write_sectors"@.len() == 13 && "write_sectors"@[6] == 's' && "write_sectors"@[9] == 't' && "write_sectors"@[10] == 'o');
    reveal_strlit("verify_calls");
    assert("verify_calls"@.len() == 12 && "verify_calls"@[6] == '_' && "verify_calls"@[9] == 'l' && "verify_calls"@[10] == 'l');
    reveal_strlit("verify_sectors");
    assert("verify_sectors"@.len() == 14 && "verify_sectors"@[6] == '_' && "verify_sectors"@[9] == 'c' && "verify_sectors"@[10] == 't');
    reveal_strlit("control_calls");
    assert("control_calls"@.len() == 13 && "control_calls"@[6] == 'l' && "control_calls"@[9] == 'a' && "control_calls"@[10] == 'l');
    reveal_strlit("read_count_hist");
    assert("read_count_hist"@.len() == 15 && "read_count_hist"@[6] == 'o' && "read_count_hist"@[9] == 't' && "read_count_hist"@[10] == '_');
    reveal_strlit("cache_hits");
    assert("cache_hits"@.len() == 10 && "cache_hits"@[6] == 'h' && "cache_hits"@[9] == 's');
    reveal_strlit("stall_ticks");
    assert("stall_ticks"@.len() == 11 && "stall_ticks"@[6] == 't' && "stall_ticks"@[9] == 'k' && "stall_ticks"@[10] == 's');
    reveal_strlit("host_wall_ns");
    assert("host_wall_ns"@.len() == 12 && "host_wall_ns"@[6] == 'a' && "host_wall_ns"@[9] == '_' && "host_wall_ns"@[10] == 'n');
    reveal_strlit("read1_fat");
    assert("read1_fat"@.len() == 9 && "read1_fat"@[6] == 'f');
    reveal_strlit("read1_data");
    assert("read1_data"@.len() == 10 && "read1_data"@[6] == 'd' && "read1_data"@[9] == 'a');
    reveal_strlit("read1_other");
    assert("read1_other"@.len() == 11 && "read1_other"@[6] == 'o' && "read1_other"@[9] == 'e' && "read1_other"@[10] == 'r');
    reveal_strlit("read1_buf_conv");
    assert("read1_buf_conv"@.len() == 14 && "read1_buf_conv"@[6] == 'b' && "read1_buf_conv"@[9] == '_' && "read1_buf_conv"@[10] == 'c');
    reveal_strlit("read1_buf_uma");
    assert("read1_buf_uma"@.len() == 13 && "read1_buf_uma"@[6] == 'b' && "read1_buf_uma"@[9] == '_' && "read1_buf_uma"@[10] == 'u');
    reveal_strlit("read1_buf_hma");
    assert("read1_buf_hma"@.len() == 13 && "read1_buf_hma"@[6] == 'b' && "read1_buf_hma"@[9] == '_' && "read1_buf_hma"@[10] == 'h');
    reveal_strlit("read_buf_conv");
    assert("read_buf_conv"@.len() == 13 && "read_buf_conv"@[6] == 'u' && "read_buf_conv"@[9] == 'c' && "read_buf_conv"@[10] == 'o');
    reveal_strlit("read_buf_uma");
    assert("read_buf_uma"@.len() == 12 && "read_buf_uma"@[6] == 'u' && "read_buf_uma"@[9] == 'u' && "read_buf_uma"@[10] == 'm');
    reveal_strlit("read_buf_hma");
    assert("read_buf_hma"@.len() == 12 && "read_buf_hma"@[6] == 'u' && "read_buf_hma"@[9] == 'h' && "read_buf_hma"@[10] == 'm');
}

/// Looked up by its key, every entry of the object is the figure that the key names.
pub proof fn law_pit_bulk_advance_by_key(c: PitBulkAdvance)
    ensures
        flag_under(pit_bulk_advance_model(c), "enabled"@) == Some(c.enabled),
        number_under(pit_bulk_advance_model(c), "advances"@) == Some(c.advances as int),
        number_under(pit_bulk_advance_model(c), "advance_clocks"@) == Some(c.advance_clocks as int),
        number_under(pit_bulk_advance_model(c), "loop_advances"@) == Some(c.loop_advances as int),
        number_under(pit_bulk_advance_model(c), "loop_clocks"@) == Some(c.loop_clocks as int),
        number_under(pit_bulk_advance_model(c), "declines_knob_off"@)
            == Some(c.declines_knob_off as int),
        number_under(pit_bulk_advance_model(c), "declines_bcd"@) == Some(c.declines_bcd as int),
        number_under(pit_bulk_advance_model(c), "declines_illegal_reload"@)
            == Some(c.declines_illegal_reload as int),
        number_under(pit_bulk_advance_model(c), "declines_span_too_wide"@)
            == Some(c.declines_span_too_wide as int),
        number_under(pit_bulk_advance_model(c), "transitions"@) == Some(c.transitions as int),
{
    reveal_strlit("enabled");
    assert("enabled"@.len() == 7 && "enabled"@[0] == 'e');
    reveal_strlit("advances");
    assert("advances"@.len() == 8 && "advances"@[0] == 'a');
    reveal_strlit("advance_clocks");
    assert("advance_clocks"@.len() == 14 && "advance_clocks"@[0] == 'a');
    reveal_strlit("loop_advances");
    assert("loop_advances"@.len() == 13 && "loop_advances"@[0] == 'l');
    reveal_strlit("loop_clocks");
    assert("loop_clocks"@.len() == 11 && "loop_clocks"@[0] == 'l');
    reveal_strlit("declines_knob_off");
    assert("declines_knob_off"@.len() == 17 && "declines_knob_off"@[0] == 'd');
    reveal_strlit("declines_bcd");
    assert("declines_bcd"@.len() == 12 && "declines_bcd"@[0] == 'd');
    reveal_strlit("declines_illegal_reload");
    assert("declines_illegal_reload"@.len() == 23 && "declines_illegal_reload"@[0] == 'd');
    reveal_strlit("declines_span_too_wide");
    assert("declines_span_too_wide"@.len() == 22 && "declines_span_too_wide"@[0] == 'd');
    reveal_strlit("transitions");
    assert("transitions"@.len() == 11 && "transitions"@[0] == 't');
}

/// Looked up by its key, every entry of the object is the figure that the key names.
pub proof fn law_ata_poll_skip_by_key(c: AtaPollSkip)
    ensures
        flag_under(ata_poll_skip_model(c), "enabled"@) == Some(c.enabled),
        number_under(ata_poll_skip_model(c), "arms"@) == Some(c.arms as int),
        number_under(ata_poll_skip_model(c), "spans"@) == Some(c.spans as int),
        number_under(ata_poll_skip_model(c), "ticks"@) == Some(c.ticks as int),
        number_under(ata_poll_skip_model(c), "blocks"@) == Some(c.blocks as int),
        number_under(ata_poll_skip_model(c), "declines_not_pending"@)
            == Some(c.declines_not_pending as int),
        number_under(ata_poll_skip_model(c), "declines_below_floor"@)
            == Some(c.declines_below_floor as int),
        number_under(ata_poll_skip_model(c), "declines_deadline_clamped"@)
            == Some(c.declines_deadline_clamped as int),
        number_under(ata_poll_skip_model(c), "declines_halted"@) == Some(c.declines_halted as int),
        number_under(ata_poll_skip_model(c), "monitor_exempt"@) == Some(c.monitor_exempt as int),
        under(ata_poll_skip_model(c), "run_histogram"@) == Some(num_array(c.run_histogram@)),
{
    reveal_strlit("enabled");
    assert("enabled"@.len() == 7 && "enabled"@[0] == 'e');
    reveal_strlit("arms");
    assert("arms"@.len() == 4 && "arms"@[0] == 'a');
    reveal_strlit("spans");
    assert("spans"@.len() == 5 && "spans"@[0] == 's');
    reveal_strlit("ticks");
    assert("ticks"@.len() == 5 && "ticks"@[0] == 't');
    reveal_strlit("blocks");
    assert("blocks"@.len() == 6 && "blocks"@[0] == 'b');
    reveal_strlit("declines_not_pending");
    assert("declines_not_pending"@.len() == 20 && "declines_not_pending"@[0] == 'd' && "declines_not_pending"@[9] == 'n');
    reveal_strlit("declines_below_floor");
    assert("declines_below_floor"@.len() == 20 && "declines_below_floor"@[0] == 'd' && "declines_below_floor"@[9] == 'b');
    reveal_strlit("declines_deadline_clamped");
    assert("declines_deadline_clamped"@.len() == 25 && "declines_deadline_clamped"@[0] == 'd' && "declines_deadline_clamped"@[9] == 'd');
    reveal_strlit("declines_halted");
    assert("declines_halted"@.len() == 15 && "declines_halted"@[0] == 'd' && "declines_halted"@[9] == 'h');
    reveal_strlit("monitor_exempt");
    assert("monitor_exempt"@.len() == 14 && "monitor_exempt"@[0] == 'm' && "monitor_exempt"@[9] == 'x');
    reveal_strlit("run_histogram");
    assert("run_histogram"@.len() == 13 && "run_histogram"@[0] == 'r' && "run_histogram"@[9] == 'g');
}

} // verus!
