//! The shape of reflected calls: what each kind of trip cost and touched.

use vstd::prelude::*;

use crate::json::{
    labelled, no_fields, null, numbers, object, opt_number, put, put_number, put_text, rows, same,
    text_array, texts,
};
#[allow(unused_imports)]
use crate::json::{json_of, labelled_model, num_array, opt_num, JsonModel};
use crate::text::prefixed_hex_text;
#[allow(unused_imports)]
use crate::text::prefixed_hex;
#[allow(unused_imports)]
use crate::json::{number_under, text_under, under};

verus! {

/// A summary of samples. The mean is a ready JSON number.
pub struct StatSummary {
    pub min: u64,
    pub median: u64,
    pub max: u64,
    pub mean: serde_json::Value,
    pub sample_count: u64,
}

/// What [`stat_json`] gives.
pub open spec fn stat_model(s: StatSummary) -> JsonModel {
    JsonModel::Obj(
        map![
            "min"@ => JsonModel::Num(s.min as int),
            "median"@ => JsonModel::Num(s.median as int),
            "max"@ => JsonModel::Num(s.max as int),
            "mean"@ => json_of(s.mean),
            "sample_count"@ => JsonModel::Num(s.sample_count as int),
        ],
    )
}

/// A summary as an object.
fn stat_json(s: &StatSummary) -> (value: serde_json::Value)
    ensures
        json_of(value) == stat_model(*s),
{
    let mut fields = no_fields();
    put_number(&mut fields, "min", s.min);
    put_number(&mut fields, "median", s.median);
    put_number(&mut fields, "max", s.max);
    put(&mut fields, "mean", same(&s.mean));
    put_number(&mut fields, "sample_count", s.sample_count);
    object(fields)
}

/// One field that kept a return from matching, and how often.
#[derive(Debug, Default)]
pub struct NearMatch {
    pub field: String,
    pub far_return: u64,
    pub far_transfer: u64,
}

/// What [`near_match_json`] gives.
pub open spec fn near_match_model(n: NearMatch) -> JsonModel {
    JsonModel::Obj(
        map![
            "field"@ => JsonModel::Str(n.field@),
            "far_return"@ => JsonModel::Num(n.far_return as int),
            "far_transfer"@ => JsonModel::Num(n.far_transfer as int),
        ],
    )
}

/// One field as an object.
fn near_match_json(n: &NearMatch) -> (value: serde_json::Value)
    ensures
        json_of(value) == near_match_model(*n),
{
    let mut fields = no_fields();
    put_text(&mut fields, "field", n.field.as_str());
    put_number(&mut fields, "far_return", n.far_return);
    put_number(&mut fields, "far_transfer", n.far_transfer);
    object(fields)
}

/// One address that trips wrote, and how often.
#[derive(Clone, Copy, Debug, Default)]
pub struct WriteAddress {
    pub address: u32,
    pub count: u64,
}

/// What [`write_address_json`] gives.
pub open spec fn write_address_model(w: WriteAddress) -> JsonModel {
    JsonModel::Obj(
        map![
            "address"@ => JsonModel::Str(prefixed_hex(w.address as nat, 8, false)),
            "count"@ => JsonModel::Num(w.count as int),
        ],
    )
}

/// One address as an object.
fn write_address_json(w: &WriteAddress) -> (value: serde_json::Value)
    ensures
        json_of(value) == write_address_model(*w),
{
    let mut fields = no_fields();
    put_text(&mut fields, "address", prefixed_hex_text(w.address as u64, 8, false).as_str());
    put_number(&mut fields, "count", w.count);
    object(fields)
}

/// One address that trips left changed, and how often.
#[derive(Debug, Default)]
pub struct ClassAddress {
    pub address: u32,
    pub class: String,
    pub count: u64,
}

/// What [`class_address_json`] gives.
pub open spec fn class_address_model(w: ClassAddress) -> JsonModel {
    JsonModel::Obj(
        map![
            "address"@ => JsonModel::Str(prefixed_hex(w.address as nat, 8, false)),
            "class"@ => JsonModel::Str(w.class@),
            "count"@ => JsonModel::Num(w.count as int),
        ],
    )
}

/// One address with its class, as an object.
fn class_address_json(w: &ClassAddress) -> (value: serde_json::Value)
    ensures
        json_of(value) == class_address_model(*w),
{
    let mut fields = no_fields();
    put_text(&mut fields, "address", prefixed_hex_text(w.address as u64, 8, false).as_str());
    put_text(&mut fields, "class", w.class.as_str());
    put_number(&mut fields, "count", w.count);
    object(fields)
}

/// The trips of one interrupt function.
pub struct ReflectedCallKey {
    pub vector: u8,
    pub ah: u8,
    pub trips: u64,
    pub unmatched: u64,
    pub closed_by: Vec<(String, u64)>,
    pub instructions: StatSummary,
    pub core_clocks: StatSummary,
    pub dispatcher_entries: StatSummary,
    pub cr3_writes: StatSummary,
    pub distinct_entry_images: u64,
    pub distinct_cs_eip: u64,
    pub varying_fields: Vec<String>,
    pub entry_image_top16_trips: Vec<u64>,
    pub entry_image_cum_share_1: serde_json::Value,
    pub entry_image_cum_share_4: serde_json::Value,
    pub entry_image_cum_share_8: serde_json::Value,
    pub entry_image_cum_share_16: serde_json::Value,
    pub nested_int_trips: u64,
    pub far_transfer_trips: u64,
    pub hw_edge_trips: u64,
    pub gp_trap_trips: u64,
    pub pf_trap_trips: u64,
    pub rdtsc_trips: u64,
    pub port_io_trips: u64,
    pub x87_trips: u64,
    pub task_switch_trips: u64,
    pub task_gate_trips: u64,
    pub task_gate_unknown_trips: u64,
    pub bda_key_pending_trips: u64,
    pub bda_no_key_trips: u64,
    pub bda_unknown_trips: u64,
    pub near_match_diffs: Vec<NearMatch>,
    pub near_match_cs_eip: Vec<NearMatch>,
    pub cs_base_differed_on_match: u64,
    pub modes_seen_any: Vec<(String, u64)>,
    pub mode_defect_trips: u64,
    pub batch_straddle_trips: u64,
    pub soft_int_posts: u64,
    pub clock_charge_events: StatSummary,
    pub trips_in_window: u64,
    pub read_set_size: StatSummary,
    pub read_set_size_windowed: StatSummary,
    pub read_set_size_physical: StatSummary,
    pub read_set_size_physical_windowed: StatSummary,
    pub write_set_size: StatSummary,
    pub write_set_size_windowed: StatSummary,
    pub translation_set_size: StatSummary,
    pub translation_set_size_windowed: StatSummary,
    pub translation_set_over_cap: u64,
    pub stack_segments_over_cap_trips: u64,
    pub entry_images_over_cap: u64,
    pub write_addresses_over_cap: u64,
    pub class_n_addresses_over_cap: u64,
    pub trips_reads_over_cap: u64,
    pub trips_writes_over_cap: u64,
    pub reads_total: u64,
    pub reads_under_other_cr3: u64,
    pub read_class_counts: Vec<(String, u64)>,
    pub write_class_counts: Vec<(String, u64)>,
    pub write_class_r: u64,
    pub write_class_d: u64,
    pub write_class_n: u64,
    pub write_class_n_trips: u64,
    pub write_unknown_pre: u64,
    pub write_dead_8kb: u64,
    pub write_not_plain_ram: u64,
    pub top_write_addresses: Vec<WriteAddress>,
    pub class_n_addresses: Vec<ClassAddress>,
    pub warm_clock_samples: u64,
    pub warm_clock_distinct: u64,
    pub warm_clock_longest_run: u64,
}

/// What [`reflected_key_json`] gives.
pub open spec fn reflected_key_model(k: ReflectedCallKey) -> JsonModel {
    JsonModel::Obj(
        map![
            "vector"@ => JsonModel::Str(prefixed_hex(k.vector as nat, 2, false)),
            "ah"@ => JsonModel::Str(prefixed_hex(k.ah as nat, 2, false)),
            "trips"@ => JsonModel::Num(k.trips as int),
            "unmatched"@ => JsonModel::Num(k.unmatched as int),
            "closed_by"@ => labelled_model(k.closed_by@, "rule"@, "count"@),
            "instructions"@ => stat_model(k.instructions),
            "core_clocks"@ => stat_model(k.core_clocks),
            "dispatcher_entries"@ => stat_model(k.dispatcher_entries),
            "cr3_writes_per_trip"@ => stat_model(k.cr3_writes),
            "distinct_entry_images"@ => JsonModel::Num(k.distinct_entry_images as int),
            "distinct_cs_eip"@ => JsonModel::Num(k.distinct_cs_eip as int),
            "varying_fields"@ => text_array(k.varying_fields@),
            "entry_image_top16"@ => num_array(k.entry_image_top16_trips@),
            "entry_image_cum_share_1"@ => json_of(k.entry_image_cum_share_1),
            "entry_image_cum_share_4"@ => json_of(k.entry_image_cum_share_4),
            "entry_image_cum_share_8"@ => json_of(k.entry_image_cum_share_8),
            "entry_image_cum_share_16"@ => json_of(k.entry_image_cum_share_16),
            "nested_int_trips"@ => JsonModel::Num(k.nested_int_trips as int),
            "far_transfer_trips"@ => JsonModel::Num(k.far_transfer_trips as int),
            "hw_edge_trips"@ => JsonModel::Num(k.hw_edge_trips as int),
            "gp_trap_trips"@ => JsonModel::Num(k.gp_trap_trips as int),
            "pf_trap_trips"@ => JsonModel::Num(k.pf_trap_trips as int),
            "rdtsc_trips"@ => JsonModel::Num(k.rdtsc_trips as int),
            "port_io_trips"@ => JsonModel::Num(k.port_io_trips as int),
            "x87_trips"@ => JsonModel::Num(k.x87_trips as int),
            "task_switch_trips"@ => JsonModel::Num(k.task_switch_trips as int),
            "task_gate_trips"@ => JsonModel::Num(k.task_gate_trips as int),
            "task_gate_unknown_trips"@ => JsonModel::Num(k.task_gate_unknown_trips as int),
            "bda_key_pending_trips"@ => JsonModel::Num(k.bda_key_pending_trips as int),
            "bda_no_key_trips"@ => JsonModel::Num(k.bda_no_key_trips as int),
            "bda_unknown_trips"@ => JsonModel::Num(k.bda_unknown_trips as int),
            "near_match_diffs"@ => JsonModel::Arr(
                k.near_match_diffs@.map_values(|row: NearMatch| near_match_model(row)),
            ),
            "near_match_cs_eip"@ => JsonModel::Arr(
                k.near_match_cs_eip@.map_values(|row: NearMatch| near_match_model(row)),
            ),
            "cs_base_differed_on_match"@ => JsonModel::Num(k.cs_base_differed_on_match as int),
            "modes_seen"@ => labelled_model(k.modes_seen_any@, "mode"@, "trips"@),
            "mode_defect_trips"@ => JsonModel::Num(k.mode_defect_trips as int),
            "batch_straddle_trips"@ => JsonModel::Num(k.batch_straddle_trips as int),
            "soft_int_posts"@ => JsonModel::Num(k.soft_int_posts as int),
            "clock_charge_events"@ => stat_model(k.clock_charge_events),
            "trips_in_window"@ => JsonModel::Num(k.trips_in_window as int),
            "read_set_size"@ => stat_model(k.read_set_size),
            "read_set_size_windowed"@ => stat_model(k.read_set_size_windowed),
            "read_set_size_physical"@ => stat_model(k.read_set_size_physical),
            "read_set_size_physical_windowed"@ => stat_model(k.read_set_size_physical_windowed),
            "write_set_size"@ => stat_model(k.write_set_size),
            "write_set_size_windowed"@ => stat_model(k.write_set_size_windowed),
            "translation_set_size"@ => stat_model(k.translation_set_size),
            "translation_set_size_windowed"@ => stat_model(k.translation_set_size_windowed),
            "translation_set_over_cap"@ => JsonModel::Num(k.translation_set_over_cap as int),
            "stack_segments_over_cap_trips"@ => JsonModel::Num(
                k.stack_segments_over_cap_trips as int,
            ),
            "entry_images_over_cap"@ => JsonModel::Num(k.entry_images_over_cap as int),
            "write_addresses_over_cap"@ => JsonModel::Num(k.write_addresses_over_cap as int),
            "class_n_addresses_over_cap"@ => JsonModel::Num(k.class_n_addresses_over_cap as int),
            "trips_reads_over_cap"@ => JsonModel::Num(k.trips_reads_over_cap as int),
            "trips_writes_over_cap"@ => JsonModel::Num(k.trips_writes_over_cap as int),
            "reads_total"@ => JsonModel::Num(k.reads_total as int),
            "reads_under_other_cr3"@ => JsonModel::Num(k.reads_under_other_cr3 as int),
            "read_class_counts"@ => labelled_model(k.read_class_counts@, "class"@, "count"@),
            "write_class_counts"@ => labelled_model(k.write_class_counts@, "class"@, "count"@),
            "write_class_r"@ => JsonModel::Num(k.write_class_r as int),
            "write_class_d"@ => JsonModel::Num(k.write_class_d as int),
            "write_class_n"@ => JsonModel::Num(k.write_class_n as int),
            "write_class_n_trips"@ => JsonModel::Num(k.write_class_n_trips as int),
            "write_unknown_pre"@ => JsonModel::Num(k.write_unknown_pre as int),
            "write_dead_8kb"@ => JsonModel::Num(k.write_dead_8kb as int),
            "write_not_plain_ram"@ => JsonModel::Num(k.write_not_plain_ram as int),
            "top_write_addresses"@ => JsonModel::Arr(
                k.top_write_addresses@.map_values(|row: WriteAddress| write_address_model(row)),
            ),
            "class_n_addresses"@ => JsonModel::Arr(
                k.class_n_addresses@.map_values(|row: ClassAddress| class_address_model(row)),
            ),
            "warm_clock_samples"@ => JsonModel::Num(k.warm_clock_samples as int),
            "warm_clock_distinct"@ => JsonModel::Num(k.warm_clock_distinct as int),
            "warm_clock_longest_run"@ => JsonModel::Num(k.warm_clock_longest_run as int),
        ],
    )
}

/// The trips of one interrupt function, as an object.
fn reflected_key_json(k: &ReflectedCallKey) -> (value: serde_json::Value)
    ensures
        json_of(value) == reflected_key_model(*k),
{
    let mut fields = no_fields();
    put_text(&mut fields, "vector", prefixed_hex_text(k.vector as u64, 2, false).as_str());
    put_text(&mut fields, "ah", prefixed_hex_text(k.ah as u64, 2, false).as_str());
    put_number(&mut fields, "trips", k.trips);
    put_number(&mut fields, "unmatched", k.unmatched);
    put(&mut fields, "closed_by", labelled(&k.closed_by, "rule", "count"));
    put(&mut fields, "instructions", stat_json(&k.instructions));
    put(&mut fields, "core_clocks", stat_json(&k.core_clocks));
    put(&mut fields, "dispatcher_entries", stat_json(&k.dispatcher_entries));
    put(&mut fields, "cr3_writes_per_trip", stat_json(&k.cr3_writes));
    put_number(&mut fields, "distinct_entry_images", k.distinct_entry_images);
    put_number(&mut fields, "distinct_cs_eip", k.distinct_cs_eip);
    put(&mut fields, "varying_fields", texts(&k.varying_fields));
    put(&mut fields, "entry_image_top16", numbers(&k.entry_image_top16_trips));
    put(&mut fields, "entry_image_cum_share_1", same(&k.entry_image_cum_share_1));
    put(&mut fields, "entry_image_cum_share_4", same(&k.entry_image_cum_share_4));
    put(&mut fields, "entry_image_cum_share_8", same(&k.entry_image_cum_share_8));
    put(&mut fields, "entry_image_cum_share_16", same(&k.entry_image_cum_share_16));
    put_number(&mut fields, "nested_int_trips", k.nested_int_trips);
    put_number(&mut fields, "far_transfer_trips", k.far_transfer_trips);
    put_number(&mut fields, "hw_edge_trips", k.hw_edge_trips);
    put_number(&mut fields, "gp_trap_trips", k.gp_trap_trips);
    put_number(&mut fields, "pf_trap_trips", k.pf_trap_trips);
    put_number(&mut fields, "rdtsc_trips", k.rdtsc_trips);
    put_number(&mut fields, "port_io_trips", k.port_io_trips);
    put_number(&mut fields, "x87_trips", k.x87_trips);
    put_number(&mut fields, "task_switch_trips", k.task_switch_trips);
    put_number(&mut fields, "task_gate_trips", k.task_gate_trips);
    put_number(&mut fields, "task_gate_unknown_trips", k.task_gate_unknown_trips);
    put_number(&mut fields, "bda_key_pending_trips", k.bda_key_pending_trips);
    put_number(&mut fields, "bda_no_key_trips", k.bda_no_key_trips);
    put_number(&mut fields, "bda_unknown_trips", k.bda_unknown_trips);
    put(
        &mut fields,
        "near_match_diffs",
        rows(&k.near_match_diffs, near_match_json, Ghost(|row: NearMatch| near_match_model(row))),
    );
    put(
        &mut fields,
        "near_match_cs_eip",
        rows(&k.near_match_cs_eip, near_match_json, Ghost(|row: NearMatch| near_match_model(row))),
    );
    put_number(&mut fields, "cs_base_differed_on_match", k.cs_base_differed_on_match);
    put(&mut fields, "modes_seen", labelled(&k.modes_seen_any, "mode", "trips"));
    put_number(&mut fields, "mode_defect_trips", k.mode_defect_trips);
    put_number(&mut fields, "batch_straddle_trips", k.batch_straddle_trips);
    put_number(&mut fields, "soft_int_posts", k.soft_int_posts);
    put(&mut fields, "clock_charge_events", stat_json(&k.clock_charge_events));
    put_number(&mut fields, "trips_in_window", k.trips_in_window);
    put(&mut fields, "read_set_size", stat_json(&k.read_set_size));
    put(&mut fields, "read_set_size_windowed", stat_json(&k.read_set_size_windowed));
    put(&mut fields, "read_set_size_physical", stat_json(&k.read_set_size_physical));
    put(
        &mut fields,
        "read_set_size_physical_windowed",
        stat_json(&k.read_set_size_physical_windowed),
    );
    put(&mut fields, "write_set_size", stat_json(&k.write_set_size));
    put(&mut fields, "write_set_size_windowed", stat_json(&k.write_set_size_windowed));
    put(&mut fields, "translation_set_size", stat_json(&k.translation_set_size));
    put(&mut fields, "translation_set_size_windowed", stat_json(&k.translation_set_size_windowed));
    put_number(&mut fields, "translation_set_over_cap", k.translation_set_over_cap);
    put_number(&mut fields, "stack_segments_over_cap_trips", k.stack_segments_over_cap_trips);
    put_number(&mut fields, "entry_images_over_cap", k.entry_images_over_cap);
    put_number(&mut fields, "write_addresses_over_cap", k.write_addresses_over_cap);
    put_number(&mut fields, "class_n_addresses_over_cap", k.class_n_addresses_over_cap);
    put_number(&mut fields, "trips_reads_over_cap", k.trips_reads_over_cap);
    put_number(&mut fields, "trips_writes_over_cap", k.trips_writes_over_cap);
    put_number(&mut fields, "reads_total", k.reads_total);
    put_number(&mut fields, "reads_under_other_cr3", k.reads_under_other_cr3);
    put(&mut fields, "read_class_counts", labelled(&k.read_class_counts, "class", "count"));
    put(&mut fields, "write_class_counts", labelled(&k.write_class_counts, "class", "count"));
    put_number(&mut fields, "write_class_r", k.write_class_r);
    put_number(&mut fields, "write_class_d", k.write_class_d);
    put_number(&mut fields, "write_class_n", k.write_class_n);
    put_number(&mut fields, "write_class_n_trips", k.write_class_n_trips);
    put_number(&mut fields, "write_unknown_pre", k.write_unknown_pre);
    put_number(&mut fields, "write_dead_8kb", k.write_dead_8kb);
    put_number(&mut fields, "write_not_plain_ram", k.write_not_plain_ram);
    put(
        &mut fields,
        "top_write_addresses",
        rows(
            &k.top_write_addresses,
            write_address_json,
            Ghost(|row: WriteAddress| write_address_model(row)),
        ),
    );
    put(
        &mut fields,
        "class_n_addresses",
        rows(
            &k.class_n_addresses,
            class_address_json,
            Ghost(|row: ClassAddress| class_address_model(row)),
        ),
    );
    put_number(&mut fields, "warm_clock_samples", k.warm_clock_samples);
    put_number(&mut fields, "warm_clock_distinct", k.warm_clock_distinct);
    put_number(&mut fields, "warm_clock_longest_run", k.warm_clock_longest_run);
    object(fields)
}

/// The reflected calls of a run. The host costs are ready JSON numbers.
pub struct ReflectedCallDiagnosticSnapshot {
    pub mode: String,
    pub trips_total: u64,
    pub trips_unmatched: u64,
    pub probe_ns_per_read: serde_json::Value,
    pub compare_ns_per_read: serde_json::Value,
    pub window_start_insns: Option<u64>,
    pub window_end_insns: Option<u64>,
    pub keys: Vec<ReflectedCallKey>,
}

/// What [`reflected_calls_json`] gives.
pub open spec fn reflected_calls_model(s: ReflectedCallDiagnosticSnapshot) -> JsonModel {
    JsonModel::Obj(
        map![
            "mode"@ => JsonModel::Str(s.mode@),
            "trips_total"@ => JsonModel::Num(s.trips_total as int),
            "trips_unmatched"@ => JsonModel::Num(s.trips_unmatched as int),
            "probe_ns_per_read"@ => json_of(s.probe_ns_per_read),
            "compare_ns_per_read"@ => json_of(s.compare_ns_per_read),
            "window_start_insns"@ => opt_num(s.window_start_insns),
            "window_end_insns"@ => opt_num(s.window_end_insns),
            "keys"@ => JsonModel::Arr(
                s.keys@.map_values(|row: ReflectedCallKey| reflected_key_model(row)),
            ),
        ],
    )
}

/// A diagnostic that was kept, as an object.
fn reflected_calls_json(s: &ReflectedCallDiagnosticSnapshot) -> (value: serde_json::Value)
    ensures
        json_of(value) == reflected_calls_model(*s),
{
    let mut fields = no_fields();
    put_text(&mut fields, "mode", s.mode.as_str());
    put_number(&mut fields, "trips_total", s.trips_total);
    put_number(&mut fields, "trips_unmatched", s.trips_unmatched);
    put(&mut fields, "probe_ns_per_read", same(&s.probe_ns_per_read));
    put(&mut fields, "compare_ns_per_read", same(&s.compare_ns_per_read));
    put(&mut fields, "window_start_insns", opt_number(s.window_start_insns));
    put(&mut fields, "window_end_insns", opt_number(s.window_end_insns));
    put(
        &mut fields,
        "keys",
        rows(&s.keys, reflected_key_json, Ghost(|row: ReflectedCallKey| reflected_key_model(row))),
    );
    object(fields)
}

/// What [`reflected_call_diagnostic_json`] gives.
pub open spec fn reflected_call_diagnostic_model(
    snapshot: Option<ReflectedCallDiagnosticSnapshot>,
) -> JsonModel {
    match snapshot {
        None => JsonModel::Null,
        Some(s) => reflected_calls_model(s),
    }
}

/// The reflected-call diagnostic, or `null` where none was kept.
pub fn reflected_call_diagnostic_json(snapshot: &Option<ReflectedCallDiagnosticSnapshot>) -> (value:
    serde_json::Value)
    ensures
        json_of(value) == reflected_call_diagnostic_model(*snapshot),
{
    match snapshot {
        None => null(),
        Some(s) => reflected_calls_json(s),
    }
}

// ---------------------------------------------------------------------------
// By key
// ---------------------------------------------------------------------------

/// Looked up by its key, every entry of the object is the figure that the key names.
pub proof fn law_stat_by_key(s: StatSummary)
    ensures
        number_under(stat_model(s), "min"@) == Some(s.min as int),
        number_under(stat_model(s), "median"@) == Some(s.median as int),
        number_under(stat_model(s), "max"@) == Some(s.max as int),
        under(stat_model(s), "mean"@) == Some(json_of(s.mean)),
        number_under(stat_model(s), "sample_count"@) == Some(s.sample_count as int),
{
    reveal_strlit("min");
    assert("min"@.len() == 3 && "min"@[1] == 'i');
    reveal_strlit("median");
    assert("median"@.len() == 6 && "median"@[1] == 'e');
    reveal_strlit("max");
    assert("max"@.len() == 3 && "max"@[1] == 'a');
    reveal_strlit("mean");
    assert("mean"@.len() == 4 && "mean"@[1] == 'e');
    reveal_strlit("sample_count");
    assert("sample_count"@.len() == 12 && "sample_count"@[1] == 'a');
}

/// Looked up by its key, every entry of the object is the figure that the key names.
pub proof fn law_near_match_by_key(n: NearMatch)
    ensures
        text_under(near_match_model(n), "field"@) == Some(n.field@),
        number_under(near_match_model(n), "far_return"@) == Some(n.far_return as int),
        number_under(near_match_model(n), "far_transfer"@) == Some(n.far_transfer as int),
{
    reveal_strlit("field");
    assert("field"@.len() == 5);
    reveal_strlit("far_return");
    assert("far_return"@.len() == 10);
    reveal_strlit("far_transfer");
    assert("far_transfer"@.len() == 12);
}

/// Looked up by its key, every entry of the object is the figure that the key names.
pub proof fn law_write_address_by_key(w: WriteAddress)
    ensures
        text_under(write_address_model(w), "address"@)
            == Some(prefixed_hex(w.address as nat, 8, false)),
        number_under(write_address_model(w), "count"@) == Some(w.count as int),
{
    reveal_strlit("address");
    assert("address"@.len() == 7);
    reveal_strlit("count");
    assert("count"@.len() == 5);
}

/// Looked up by its key, every entry of the object is the figure that the key names.
pub proof fn law_class_address_by_key(w: ClassAddress)
    ensures
        text_under(class_address_model(w), "address"@)
            == Some(prefixed_hex(w.address as nat, 8, false)),
        text_under(class_address_model(w), "class"@) == Some(w.class@),
        number_under(class_address_model(w), "count"@) == Some(w.count as int),
{
    reveal_strlit("address");
    assert("address"@.len() == 7 && "address"@[1] == 'd');
    reveal_strlit("class");
    assert("class"@.len() == 5 && "class"@[1] == 'l');
    reveal_strlit("count");
    assert("count"@.len() == 5 && "count"@[1] == 'o');
}

/// What tells the keys of the object apart.
proof fn lemma_reflected_key_keys_differ()
    ensures
        "vector"@.len() == 6 && "vector"@[1] == 'e',
        "ah"@.len() == 2 && "ah"@[1] == 'h',
        "trips"@.len() == 5 && "trips"@[1] == 'r',
        "unmatched"@.len() == 9 && "unmatched"@[8] == 'd' && "unmatched"@[1] == 'n',
        "closed_by"@.len() == 9 && "closed_by"@[8] == 'y' && "closed_by"@[1] == 'l',
        "instructions"@.len() == 12 && "instructions"@[8] == 'i' && "instructions"@[1] == 'n',
        "core_clocks"@.len() == 11 && "core_clocks"@[8] == 'c' && "core_clocks"@[1] == 'o',
        "dispatcher_entries"@.len() == 18 && "dispatcher_entries"@[8] == 'e' && "dispatcher_entries"@[1] == 'i' && "dispatcher_entries"@[12] == 'n' && "dispatcher_entries"@[14] == 'r',
        "cr3_writes_per_trip"@.len() == 19 && "cr3_writes_per_trip"@[8] == 'e' && "cr3_writes_per_trip"@[1] == 'r' && "cr3_writes_per_trip"@[12] == 'e' && "cr3_writes_per_trip"@[14] == '_',
        "distinct_entry_images"@.len() == 21 && "distinct_entry_images"@[8] == '_' && "distinct_entry_images"@[1] == 'i' && "distinct_entry_images"@[12] == 'r' && "distinct_entry_images"@[14] == '_',
        "distinct_cs_eip"@.len() == 15 && "distinct_cs_eip"@[8] == '_' && "distinct_cs_eip"@[1] == 'i' && "distinct_cs_eip"@[12] == 'e' && "distinct_cs_eip"@[14] == 'p',
        "varying_fields"@.len() == 14 && "varying_fields"@[8] == 'f' && "varying_fields"@[1] == 'a' && "varying_fields"@[12] == 'd',
        "entry_image_top16"@.len() == 17 && "entry_image_top16"@[8] == 'a' && "entry_image_top16"@[1] == 'n' && "entry_image_top16"@[12] == 't' && "entry_image_top16"@[14] == 'p',
        "entry_image_cum_share_1"@.len() == 23 && "entry_image_cum_share_1"@[8] == 'a' && "entry_image_cum_share_1"@[1] == 'n' && "entry_image_cum_share_1"@[12] == 'c' && "entry_image_cum_share_1"@[22] == '1' && "entry_image_cum_share_1"@[14] == 'm',
        "entry_image_cum_share_4"@.len() == 23 && "entry_image_cum_share_4"@[8] == 'a' && "entry_image_cum_share_4"@[1] == 'n' && "entry_image_cum_share_4"@[12] == 'c' && "entry_image_cum_share_4"@[22] == '4' && "entry_image_cum_share_4"@[14] == 'm',
        "entry_image_cum_share_8"@.len() == 23 && "entry_image_cum_share_8"@[8] == 'a' && "entry_image_cum_share_8"@[1] == 'n' && "entry_image_cum_share_8"@[12] == 'c' && "entry_image_cum_share_8"@[22] == '8' && "entry_image_cum_share_8"@[14] == 'm',
        "entry_image_cum_share_16"@.len() == 24 && "entry_image_cum_share_16"@[8] == 'a' && "entry_image_cum_share_16"@[1] == 'n' && "entry_image_cum_share_16"@[12] == 'c' && "entry_image_cum_share_16"@[22] == '1' && "entry_image_cum_share_16"@[14] == 'm',
        "nested_int_trips"@.len() == 16 && "nested_int_trips"@[8] == 'n' && "nested_int_trips"@[1] == 'e' && "nested_int_trips"@[12] == 'r' && "nested_int_trips"@[14] == 'p',
        "far_transfer_trips"@.len() == 18 && "far_transfer_trips"@[8] == 's' && "far_transfer_trips"@[1] == 'a' && "far_transfer_trips"@[12] == '_' && "far_transfer_trips"@[14] == 'r',
        "hw_edge_trips"@.len() == 13 && "hw_edge_trips"@[8] == 't' && "hw_edge_trips"@[1] == 'w' && "hw_edge_trips"@[12] == 's',
        "gp_trap_trips"@.len() == 13 && "gp_trap_trips"@[8] == 't' && "gp_trap_trips"@[1] == 'p' && "gp_trap_trips"@[12] == 's',
        "pf_trap_trips"@.len() == 13 && "pf_trap_trips"@[8] == 't' && "pf_trap_trips"@[1] == 'f' && "pf_trap_trips"@[12] == 's',
        "rdtsc_trips"@.len() == 11 && "rdtsc_trips"@[8] == 'i' && "rdtsc_trips"@[1] == 'd',
        "port_io_trips"@.len() == 13 && "port_io_trips"@[8] == 't' && "port_io_trips"@[1] == 'o' && "port_io_trips"@[12] == 's',
        "x87_trips"@.len() == 9 && "x87_trips"@[8] == 's' && "x87_trips"@[1] == '8',
        "task_switch_trips"@.len() == 17 && "task_switch_trips"@[8] == 't' && "task_switch_trips"@[1] == 'a' && "task_switch_trips"@[12] == 't' && "task_switch_trips"@[14] == 'i',
        "task_gate_trips"@.len() == 15 && "task_gate_trips"@[8] == 'e' && "task_gate_trips"@[1] == 'a' && "task_gate_trips"@[12] == 'i' && "task_gate_trips"@[14] == 's',
        "task_gate_unknown_trips"@.len() == 23 && "task_gate_unknown_trips"@[8] == 'e' && "task_gate_unknown_trips"@[1] == 'a' && "task_gate_unknown_trips"@[12] == 'k' && "task_gate_unknown_trips"@[22] == 's' && "task_gate_unknown_trips"@[14] == 'o',
        "bda_key_pending_trips"@.len() == 21 && "bda_key_pending_trips"@[8] == 'p' && "bda_key_pending_trips"@[1] == 'd' && "bda_key_pending_trips"@[12] == 'i' && "bda_key_pending_trips"@[14] == 'g',
        "bda_no_key_trips"@.len() == 16 && "bda_no_key_trips"@[8] == 'e' && "bda_no_key_trips"@[1] == 'd' && "bda_no_key_trips"@[12] == 'r' && "bda_no_key_trips"@[14] == 'p',
        "bda_unknown_trips"@.len() == 17 && "bda_unknown_trips"@[8] == 'o' && "bda_unknown_trips"@[1] == 'd' && "bda_unknown_trips"@[12] == 't' && "bda_unknown_trips"@[14] == 'i',
        "near_match_diffs"@.len() == 16 && "near_match_diffs"@[8] == 'c' && "near_match_diffs"@[1] == 'e' && "near_match_diffs"@[12] == 'i' && "near_match_diffs"@[14] == 'f',
        "near_match_cs_eip"@.len() == 17 && "near_match_cs_eip"@[8] == 'c' && "near_match_cs_eip"@[1] == 'e' && "near_match_cs_eip"@[12] == 's' && "near_match_cs_eip"@[14] == 'e',
        "cs_base_differed_on_match"@.len() == 25 && "cs_base_differed_on_match"@[8] == 'd' && "cs_base_differed_on_match"@[1] == 's' && "cs_base_differed_on_match"@[12] == 'e' && "cs_base_differed_on_match"@[22] == 't' && "cs_base_differed_on_match"@[14] == 'e',
        "modes_seen"@.len() == 10 && "modes_seen"@[8] == 'e' && "modes_seen"@[1] == 'o',
        "mode_defect_trips"@.len() == 17 && "mode_defect_trips"@[8] == 'e' && "mode_defect_trips"@[1] == 'o' && "mode_defect_trips"@[12] == 't' && "mode_defect_trips"@[14] == 'i',
        "batch_straddle_trips"@.len() == 20 && "batch_straddle_trips"@[8] == 'r' && "batch_straddle_trips"@[1] == 'a' && "batch_straddle_trips"@[12] == 'l' && "batch_straddle_trips"@[14] == '_',
        "soft_int_posts"@.len() == 14 && "soft_int_posts"@[8] == '_' && "soft_int_posts"@[1] == 'o' && "soft_int_posts"@[12] == 't',
        "clock_charge_events"@.len() == 19 && "clock_charge_events"@[8] == 'a' && "clock_charge_events"@[1] == 'l' && "clock_charge_events"@[12] == '_' && "clock_charge_events"@[14] == 'v',
        "trips_in_window"@.len() == 15 && "trips_in_window"@[8] == '_' && "trips_in_window"@[1] == 'r' && "trips_in_window"@[12] == 'd' && "trips_in_window"@[14] == 'w',
        "read_set_size"@.len() == 13 && "read_set_size"@[8] == '_' && "read_set_size"@[1] == 'e' && "read_set_size"@[12] == 'e',
        "read_set_size_windowed"@.len() == 22 && "read_set_size_windowed"@[8] == '_' && "read_set_size_windowed"@[1] == 'e' && "read_set_size_windowed"@[12] == 'e' && "read_set_size_windowed"@[14] == 'w',
        "read_set_size_physical"@.len() == 22 && "read_set_size_physical"@[8] == '_' && "read_set_size_physical"@[1] == 'e' && "read_set_size_physical"@[12] == 'e' && "read_set_size_physical"@[14] == 'p',
        "read_set_size_physical_windowed"@.len() == 31 && "read_set_size_physical_windowed"@[8] == '_' && "read_set_size_physical_windowed"@[1] == 'e' && "read_set_size_physical_windowed"@[12] == 'e' && "read_set_size_physical_windowed"@[22] == '_' && "read_set_size_physical_windowed"@[14] == 'p',
        "write_set_size"@.len() == 14 && "write_set_size"@[8] == 't' && "write_set_size"@[1] == 'r' && "write_set_size"@[12] == 'z',
        "write_set_size_windowed"@.len() == 23 && "write_set_size_windowed"@[8] == 't' && "write_set_size_windowed"@[1] == 'r' && "write_set_size_windowed"@[12] == 'z' && "write_set_size_windowed"@[22] == 'd' && "write_set_size_windowed"@[14] == '_',
        "translation_set_size"@.len() == 20 && "translation_set_size"@[8] == 'i' && "translation_set_size"@[1] == 'r' && "translation_set_size"@[12] == 's' && "translation_set_size"@[14] == 't',
        "translation_set_size_windowed"@.len() == 29 && "translation_set_size_windowed"@[8] == 'i' && "translation_set_size_windowed"@[1] == 'r' && "translation_set_size_windowed"@[12] == 's' && "translation_set_size_windowed"@[22] == 'i' && "translation_set_size_windowed"@[14] == 't',
        "translation_set_over_cap"@.len() == 24 && "translation_set_over_cap"@[8] == 'i' && "translation_set_over_cap"@[1] == 'r' && "translation_set_over_cap"@[12] == 's' && "translation_set_over_cap"@[22] == 'a' && "translation_set_over_cap"@[14] == 't',
        "stack_segments_over_cap_trips"@.len() == 29 && "stack_segments_over_cap_trips"@[8] == 'g' && "stack_segments_over_cap_trips"@[1] == 't' && "stack_segments_over_cap_trips"@[12] == 't' && "stack_segments_over_cap_trips"@[22] == 'p' && "stack_segments_over_cap_trips"@[14] == '_',
        "entry_images_over_cap"@.len() == 21 && "entry_images_over_cap"@[8] == 'a' && "entry_images_over_cap"@[1] == 'n' && "entry_images_over_cap"@[12] == '_' && "entry_images_over_cap"@[14] == 'v',
        "write_addresses_over_cap"@.len() == 24 && "write_addresses_over_cap"@[8] == 'd' && "write_addresses_over_cap"@[1] == 'r' && "write_addresses_over_cap"@[12] == 's' && "write_addresses_over_cap"@[22] == 'a' && "write_addresses_over_cap"@[14] == 's',
        "class_n_addresses_over_cap"@.len() == 26 && "class_n_addresses_over_cap"@[8] == 'a' && "class_n_addresses_over_cap"@[1] == 'l' && "class_n_addresses_over_cap"@[12] == 'e' && "class_n_addresses_over_cap"@[22] == '_' && "class_n_addresses_over_cap"@[14] == 's',
        "trips_reads_over_cap"@.len() == 20 && "trips_reads_over_cap"@[8] == 'a' && "trips_reads_over_cap"@[1] == 'r' && "trips_reads_over_cap"@[12] == 'o' && "trips_reads_over_cap"@[14] == 'e',
        "trips_writes_over_cap"@.len() == 21 && "trips_writes_over_cap"@[8] == 'i' && "trips_writes_over_cap"@[1] == 'r' && "trips_writes_over_cap"@[12] == '_' && "trips_writes_over_cap"@[14] == 'v',
        "reads_total"@.len() == 11 && "reads_total"@[8] == 't' && "reads_total"@[1] == 'e',
        "reads_under_other_cr3"@.len() == 21 && "reads_under_other_cr3"@[8] == 'd' && "reads_under_other_cr3"@[1] == 'e' && "reads_under_other_cr3"@[12] == 'o' && "reads_under_other_cr3"@[14] == 'h',
        "read_class_counts"@.len() == 17 && "read_class_counts"@[8] == 's' && "read_class_counts"@[1] == 'e' && "read_class_counts"@[12] == 'o' && "read_class_counts"@[14] == 'n',
        "write_class_counts"@.len() == 18 && "write_class_counts"@[8] == 'a' && "write_class_counts"@[1] == 'r' && "write_class_counts"@[12] == 'c' && "write_class_counts"@[14] == 'u',
        "write_class_r"@.len() == 13 && "write_class_r"@[8] == 'a' && "write_class_r"@[1] == 'r' && "write_class_r"@[12] == 'r',
        "write_class_d"@.len() == 13 && "write_class_d"@[8] == 'a' && "write_class_d"@[1] == 'r' && "write_class_d"@[12] == 'd',
        "write_class_n"@.len() == 13 && "write_class_n"@[8] == 'a' && "write_class_n"@[1] == 'r' && "write_class_n"@[12] == 'n',
        "write_class_n_trips"@.len() == 19 && "write_class_n_trips"@[8] == 'a' && "write_class_n_trips"@[1] == 'r' && "write_class_n_trips"@[12] == 'n' && "write_class_n_trips"@[14] == 't',
        "write_unknown_pre"@.len() == 17 && "write_unknown_pre"@[8] == 'k' && "write_unknown_pre"@[1] == 'r' && "write_unknown_pre"@[12] == 'n' && "write_unknown_pre"@[14] == 'p',
        "write_dead_8kb"@.len() == 14 && "write_dead_8kb"@[8] == 'a' && "write_dead_8kb"@[1] == 'r' && "write_dead_8kb"@[12] == 'k',
        "write_not_plain_ram"@.len() == 19 && "write_not_plain_ram"@[8] == 't' && "write_not_plain_ram"@[1] == 'r' && "write_not_plain_ram"@[12] == 'a' && "write_not_plain_ram"@[14] == 'n',
        "top_write_addresses"@.len() == 19 && "top_write_addresses"@[8] == 'e' && "top_write_addresses"@[1] == 'o' && "top_write_addresses"@[12] == 'd' && "top_write_addresses"@[14] == 'e',
        "class_n_addresses"@.len() == 17 && "class_n_addresses"@[8] == 'a' && "class_n_addresses"@[1] == 'l' && "class_n_addresses"@[12] == 'e' && "class_n_addresses"@[14] == 's',
        "warm_clock_samples"@.len() == 18 && "warm_clock_samples"@[8] == 'c' && "warm_clock_samples"@[1] == 'a' && "warm_clock_samples"@[12] == 'a' && "warm_clock_samples"@[14] == 'p',
        "warm_clock_distinct"@.len() == 19 && "warm_clock_distinct"@[8] == 'c' && "warm_clock_distinct"@[1] == 'a' && "warm_clock_distinct"@[12] == 'i' && "warm_clock_distinct"@[14] == 't',
        "warm_clock_longest_run"@.len() == 22 && "warm_clock_longest_run"@[8] == 'c' && "warm_clock_longest_run"@[1] == 'a' && "warm_clock_longest_run"@[12] == 'o' && "warm_clock_longest_run"@[14] == 'g',
{
    reveal_strlit("vector");
    reveal_strlit("ah");
    reveal_strlit("trips");
    reveal_strlit("unmatched");
    reveal_strlit("closed_by");
    reveal_strlit("instructions");
    reveal_strlit("core_clocks");
    reveal_strlit("dispatcher_entries");
    reveal_strlit("cr3_writes_per_trip");
    reveal_strlit("distinct_entry_images");
    reveal_strlit("distinct_cs_eip");
    reveal_strlit("varying_fields");
    reveal_strlit("entry_image_top16");
    reveal_strlit("entry_image_cum_share_1");
    reveal_strlit("entry_image_cum_share_4");
    reveal_strlit("entry_image_cum_share_8");
    reveal_strlit("entry_image_cum_share_16");
    reveal_strlit("nested_int_trips");
    reveal_strlit("far_transfer_trips");
    reveal_strlit("hw_edge_trips");
    reveal_strlit("gp_trap_trips");
    reveal_strlit("pf_trap_trips");
    reveal_strlit("rdtsc_trips");
    reveal_strlit("port_io_trips");
    reveal_strlit("x87_trips");
    reveal_strlit("task_switch_trips");
    reveal_strlit("task_gate_trips");
    reveal_strlit("task_gate_unknown_trips");
    reveal_strlit("bda_key_pending_trips");
    reveal_strlit("bda_no_key_trips");
    reveal_strlit("bda_unknown_trips");
    reveal_strlit("near_match_diffs");
    reveal_strlit("near_match_cs_eip");
    reveal_strlit("cs_base_differed_on_match");
    reveal_strlit("modes_seen");
    reveal_strlit("mode_defect_trips");
    reveal_strlit("batch_straddle_trips");
    reveal_strlit("soft_int_posts");
    reveal_strlit("clock_charge_events");
    reveal_strlit("trips_in_window");
    reveal_strlit("read_set_size");
    reveal_strlit("read_set_size_windowed");
    reveal_strlit("read_set_size_physical");
    reveal_strlit("read_set_size_physical_windowed");
    reveal_strlit("write_set_size");
    reveal_strlit("write_set_size_windowed");
    reveal_strlit("translation_set_size");
    reveal_strlit("translation_set_size_windowed");
    reveal_strlit("translation_set_over_cap");
    reveal_strlit("stack_segments_over_cap_trips");
    reveal_strlit("entry_images_over_cap");
    reveal_strlit("write_addresses_over_cap");
    reveal_strlit("class_n_addresses_over_cap");
    reveal_strlit("trips_reads_over_cap");
    reveal_strlit("trips_writes_over_cap");
    reveal_strlit("reads_total");
    reveal_strlit("reads_under_other_cr3");
    reveal_strlit("read_class_counts");
    reveal_strlit("write_class_counts");
    reveal_strlit("write_class_r");
    reveal_strlit("write_class_d");
    reveal_strlit("write_class_n");
    reveal_strlit("write_class_n_trips");
    reveal_strlit("write_unknown_pre");
    reveal_strlit("write_dead_8kb");
    reveal_strlit("write_not_plain_ram");
    reveal_strlit("top_write_addresses");
    reveal_strlit("class_n_addresses");
    reveal_strlit("warm_clock_samples");
    reveal_strlit("warm_clock_distinct");
    reveal_strlit("warm_clock_longest_run");
}

/// Some entries of the object, looked up by their keys.
proof fn lemma_reflected_key_keys_a(k: ReflectedCallKey)
    ensures
        text_under(reflected_key_model(k), "vector"@)
            == Some(prefixed_hex(k.vector as nat, 2, false)),
        text_under(reflected_key_model(k), "ah"@) == Some(prefixed_hex(k.ah as nat, 2, false)),
        number_under(reflected_key_model(k), "trips"@) == Some(k.trips as int),
        number_under(reflected_key_model(k), "unmatched"@) == Some(k.unmatched as int),
        under(reflected_key_model(k), "closed_by"@)
            == Some(labelled_model(k.closed_by@, "rule"@, "count"@)),
        under(reflected_key_model(k), "instructions"@) == Some(stat_model(k.instructions)),
        under(reflected_key_model(k), "core_clocks"@) == Some(stat_model(k.core_clocks)),
        under(reflected_key_model(k), "dispatcher_entries"@)
            == Some(stat_model(k.dispatcher_entries)),
        under(reflected_key_model(k), "cr3_writes_per_trip"@) == Some(stat_model(k.cr3_writes)),
        number_under(reflected_key_model(k), "distinct_entry_images"@)
            == Some(k.distinct_entry_images as int),
        number_under(reflected_key_model(k), "distinct_cs_eip"@) == Some(k.distinct_cs_eip as int),
        under(reflected_key_model(k), "varying_fields"@) == Some(text_array(k.varying_fields@)),
        under(reflected_key_model(k), "entry_image_top16"@)
            == Some(num_array(k.entry_image_top16_trips@)),
        under(reflected_key_model(k), "entry_image_cum_share_1"@)
            == Some(json_of(k.entry_image_cum_share_1)),
        under(reflected_key_model(k), "entry_image_cum_share_4"@)
            == Some(json_of(k.entry_image_cum_share_4)),
        under(reflected_key_model(k), "entry_image_cum_share_8"@)
            == Some(json_of(k.entry_image_cum_share_8)),
        under(reflected_key_model(k), "entry_image_cum_share_16"@)
            == Some(json_of(k.entry_image_cum_share_16)),
        number_under(reflected_key_model(k), "nested_int_trips"@)
            == Some(k.nested_int_trips as int),
        number_under(reflected_key_model(k), "far_transfer_trips"@)
            == Some(k.far_transfer_trips as int),
        number_under(reflected_key_model(k), "hw_edge_trips"@) == Some(k.hw_edge_trips as int),
        number_under(reflected_key_model(k), "gp_trap_trips"@) == Some(k.gp_trap_trips as int),
        number_under(reflected_key_model(k), "pf_trap_trips"@) == Some(k.pf_trap_trips as int),
        number_under(reflected_key_model(k), "rdtsc_trips"@) == Some(k.rdtsc_trips as int),
        number_under(reflected_key_model(k), "port_io_trips"@) == Some(k.port_io_trips as int),
        number_under(reflected_key_model(k), "x87_trips"@) == Some(k.x87_trips as int),
        number_under(reflected_key_model(k), "task_switch_trips"@)
            == Some(k.task_switch_trips as int),
{
    lemma_reflected_key_keys_differ();
}

/// Some entries of the object, looked up by their keys.
proof fn lemma_reflected_key_keys_b(k: ReflectedCallKey)
    ensures
        number_under(reflected_key_model(k), "task_gate_trips"@) == Some(k.task_gate_trips as int),
        number_under(reflected_key_model(k), "task_gate_unknown_trips"@)
            == Some(k.task_gate_unknown_trips as int),
        number_under(reflected_key_model(k), "bda_key_pending_trips"@)
            == Some(k.bda_key_pending_trips as int),
        number_under(reflected_key_model(k), "bda_no_key_trips"@)
            == Some(k.bda_no_key_trips as int),
        number_under(reflected_key_model(k), "bda_unknown_trips"@)
            == Some(k.bda_unknown_trips as int),
        under(reflected_key_model(k), "near_match_diffs"@)
            == Some(JsonModel::Arr( k.near_match_diffs@.map_values(|row: NearMatch| near_match_model(row)), )),
        under(reflected_key_model(k), "near_match_cs_eip"@)
            == Some(JsonModel::Arr( k.near_match_cs_eip@.map_values(|row: NearMatch| near_match_model(row)), )),
        number_under(reflected_key_model(k), "cs_base_differed_on_match"@)
            == Some(k.cs_base_differed_on_match as int),
        under(reflected_key_model(k), "modes_seen"@)
            == Some(labelled_model(k.modes_seen_any@, "mode"@, "trips"@)),
        number_under(reflected_key_model(k), "mode_defect_trips"@)
            == Some(k.mode_defect_trips as int),
        number_under(reflected_key_model(k), "batch_straddle_trips"@)
            == Some(k.batch_straddle_trips as int),
        number_under(reflected_key_model(k), "soft_int_posts"@) == Some(k.soft_int_posts as int),
        under(reflected_key_model(k), "clock_charge_events"@)
            == Some(stat_model(k.clock_charge_events)),
        number_under(reflected_key_model(k), "trips_in_window"@) == Some(k.trips_in_window as int),
        under(reflected_key_model(k), "read_set_size"@) == Some(stat_model(k.read_set_size)),
        under(reflected_key_model(k), "read_set_size_windowed"@)
            == Some(stat_model(k.read_set_size_windowed)),
        under(reflected_key_model(k), "read_set_size_physical"@)
            == Some(stat_model(k.read_set_size_physical)),
        under(reflected_key_model(k), "read_set_size_physical_windowed"@)
            == Some(stat_model(k.read_set_size_physical_windowed)),
        under(reflected_key_model(k), "write_set_size"@) == Some(stat_model(k.write_set_size)),
        under(reflected_key_model(k), "write_set_size_windowed"@)
            == Some(stat_model(k.write_set_size_windowed)),
        under(reflected_key_model(k), "translation_set_size"@)
            == Some(stat_model(k.translation_set_size)),
        under(reflected_key_model(k), "translation_set_size_windowed"@)
            == Some(stat_model(k.translation_set_size_windowed)),
        number_under(reflected_key_model(k), "translation_set_over_cap"@)
            == Some(k.translation_set_over_cap as int),
        number_under(reflected_key_model(k), "stack_segments_over_cap_trips"@)
            == Some( k.stack_segments_over_cap_trips as int),
        number_under(reflected_key_model(k), "entry_images_over_cap"@)
            == Some(k.entry_images_over_cap as int),
        number_under(reflected_key_model(k), "write_addresses_over_cap"@)
            == Some(k.write_addresses_over_cap as int),
{
    lemma_reflected_key_keys_differ();
}

/// Some entries of the object, looked up by their keys.
proof fn lemma_reflected_key_keys_c(k: ReflectedCallKey)
    ensures
        number_under(reflected_key_model(k), "class_n_addresses_over_cap"@)
            == Some(k.class_n_addresses_over_cap as int),
        number_under(reflected_key_model(k), "trips_reads_over_cap"@)
            == Some(k.trips_reads_over_cap as int),
        number_under(reflected_key_model(k), "trips_writes_over_cap"@)
            == Some(k.trips_writes_over_cap as int),
        number_under(reflected_key_model(k), "reads_total"@) == Some(k.reads_total as int),
        number_under(reflected_key_model(k), "reads_under_other_cr3"@)
            == Some(k.reads_under_other_cr3 as int),
        under(reflected_key_model(k), "read_class_counts"@)
            == Some(labelled_model(k.read_class_counts@, "class"@, "count"@)),
        under(reflected_key_model(k), "write_class_counts"@)
            == Some(labelled_model(k.write_class_counts@, "class"@, "count"@)),
        number_under(reflected_key_model(k), "write_class_r"@) == Some(k.write_class_r as int),
        number_under(reflected_key_model(k), "write_class_d"@) == Some(k.write_class_d as int),
        number_under(reflected_key_model(k), "write_class_n"@) == Some(k.write_class_n as int),
        number_under(reflected_key_model(k), "write_class_n_trips"@)
            == Some(k.write_class_n_trips as int),
        number_under(reflected_key_model(k), "write_unknown_pre"@)
            == Some(k.write_unknown_pre as int),
        number_under(reflected_key_model(k), "write_dead_8kb"@) == Some(k.write_dead_8kb as int),
        number_under(reflected_key_model(k), "write_not_plain_ram"@)
            == Some(k.write_not_plain_ram as int),
        under(reflected_key_model(k), "top_write_addresses"@)
            == Some(JsonModel::Arr( k.top_write_addresses@.map_values(|row: WriteAddress| write_address_model(row)), )),
        under(reflected_key_model(k), "class_n_addresses"@)
            == Some(JsonModel::Arr( k.class_n_addresses@.map_values(|row: ClassAddress| class_address_model(row)), )),
        number_under(reflected_key_model(k), "warm_clock_samples"@)
            == Some(k.warm_clock_samples as int),
        number_under(reflected_key_model(k), "warm_clock_distinct"@)
            == Some(k.warm_clock_distinct as int),
        number_under(reflected_key_model(k), "warm_clock_longest_run"@)
            == Some(k.warm_clock_longest_run as int),
{
    lemma_reflected_key_keys_differ();
}

/// Looked up by its key, every entry of the object is the figure that the key names.
pub proof fn law_reflected_key_by_key(k: ReflectedCallKey)
    ensures
        text_under(reflected_key_model(k), "vector"@)
            == Some(prefixed_hex(k.vector as nat, 2, false)),
        text_under(reflected_key_model(k), "ah"@) == Some(prefixed_hex(k.ah as nat, 2, false)),
        number_under(reflected_key_model(k), "trips"@) == Some(k.trips as int),
        number_under(reflected_key_model(k), "unmatched"@) == Some(k.unmatched as int),
        under(reflected_key_model(k), "closed_by"@)
            == Some(labelled_model(k.closed_by@, "rule"@, "count"@)),
        under(reflected_key_model(k), "instructions"@) == Some(stat_model(k.instructions)),
        under(reflected_key_model(k), "core_clocks"@) == Some(stat_model(k.core_clocks)),
        under(reflected_key_model(k), "dispatcher_entries"@)
            == Some(stat_model(k.dispatcher_entries)),
        under(reflected_key_model(k), "cr3_writes_per_trip"@) == Some(stat_model(k.cr3_writes)),
        number_under(reflected_key_model(k), "distinct_entry_images"@)
            == Some(k.distinct_entry_images as int),
        number_under(reflected_key_model(k), "distinct_cs_eip"@) == Some(k.distinct_cs_eip as int),
        under(reflected_key_model(k), "varying_fields"@) == Some(text_array(k.varying_fields@)),
        under(reflected_key_model(k), "entry_image_top16"@)
            == Some(num_array(k.entry_image_top16_trips@)),
        under(reflected_key_model(k), "entry_image_cum_share_1"@)
            == Some(json_of(k.entry_image_cum_share_1)),
        under(reflected_key_model(k), "entry_image_cum_share_4"@)
            == Some(json_of(k.entry_image_cum_share_4)),
        under(reflected_key_model(k), "entry_image_cum_share_8"@)
            == Some(json_of(k.entry_image_cum_share_8)),
        under(reflected_key_model(k), "entry_image_cum_share_16"@)
            == Some(json_of(k.entry_image_cum_share_16)),
        number_under(reflected_key_model(k), "nested_int_trips"@)
            == Some(k.nested_int_trips as int),
        number_under(reflected_key_model(k), "far_transfer_trips"@)
            == Some(k.far_transfer_trips as int),
        number_under(reflected_key_model(k), "hw_edge_trips"@) == Some(k.hw_edge_trips as int),
        number_under(reflected_key_model(k), "gp_trap_trips"@) == Some(k.gp_trap_trips as int),
        number_under(reflected_key_model(k), "pf_trap_trips"@) == Some(k.pf_trap_trips as int),
        number_under(reflected_key_model(k), "rdtsc_trips"@) == Some(k.rdtsc_trips as int),
        number_under(reflected_key_model(k), "port_io_trips"@) == Some(k.port_io_trips as int),
        number_under(reflected_key_model(k), "x87_trips"@) == Some(k.x87_trips as int),
        number_under(reflected_key_model(k), "task_switch_trips"@)
            == Some(k.task_switch_trips as int),
        number_under(reflected_key_model(k), "task_gate_trips"@) == Some(k.task_gate_trips as int),
        number_under(reflected_key_model(k), "task_gate_unknown_trips"@)
            == Some(k.task_gate_unknown_trips as int),
        number_under(reflected_key_model(k), "bda_key_pending_trips"@)
            == Some(k.bda_key_pending_trips as int),
        number_under(reflected_key_model(k), "bda_no_key_trips"@)
            == Some(k.bda_no_key_trips as int),
        number_under(reflected_key_model(k), "bda_unknown_trips"@)
            == Some(k.bda_unknown_trips as int),
        under(reflected_key_model(k), "near_match_diffs"@)
            == Some(JsonModel::Arr( k.near_match_diffs@.map_values(|row: NearMatch| near_match_model(row)), )),
        under(reflected_key_model(k), "near_match_cs_eip"@)
            == Some(JsonModel::Arr( k.near_match_cs_eip@.map_values(|row: NearMatch| near_match_model(row)), )),
        number_under(reflected_key_model(k), "cs_base_differed_on_match"@)
            == Some(k.cs_base_differed_on_match as int),
        under(reflected_key_model(k), "modes_seen"@)
            == Some(labelled_model(k.modes_seen_any@, "mode"@, "trips"@)),
        number_under(reflected_key_model(k), "mode_defect_trips"@)
            == Some(k.mode_defect_trips as int),
        number_under(reflected_key_model(k), "batch_straddle_trips"@)
            == Some(k.batch_straddle_trips as int),
        number_under(reflected_key_model(k), "soft_int_posts"@) == Some(k.soft_int_posts as int),
        under(reflected_key_model(k), "clock_charge_events"@)
            == Some(stat_model(k.clock_charge_events)),
        number_under(reflected_key_model(k), "trips_in_window"@) == Some(k.trips_in_window as int),
        under(reflected_key_model(k), "read_set_size"@) == Some(stat_model(k.read_set_size)),
        under(reflected_key_model(k), "read_set_size_windowed"@)
            == Some(stat_model(k.read_set_size_windowed)),
        under(reflected_key_model(k), "read_set_size_physical"@)
            == Some(stat_model(k.read_set_size_physical)),
        under(reflected_key_model(k), "read_set_size_physical_windowed"@)
            == Some(stat_model(k.read_set_size_physical_windowed)),
        under(reflected_key_model(k), "write_set_size"@) == Some(stat_model(k.write_set_size)),
        under(reflected_key_model(k), "write_set_size_windowed"@)
            == Some(stat_model(k.write_set_size_windowed)),
        under(reflected_key_model(k), "translation_set_size"@)
            == Some(stat_model(k.translation_set_size)),
        under(reflected_key_model(k), "translation_set_size_windowed"@)
            == Some(stat_model(k.translation_set_size_windowed)),
        number_under(reflected_key_model(k), "translation_set_over_cap"@)
            == Some(k.translation_set_over_cap as int),
        number_under(reflected_key_model(k), "stack_segments_over_cap_trips"@)
            == Some( k.stack_segments_over_cap_trips as int),
        number_under(reflected_key_model(k), "entry_images_over_cap"@)
            == Some(k.entry_images_over_cap as int),
        number_under(reflected_key_model(k), "write_addresses_over_cap"@)
            == Some(k.write_addresses_over_cap as int),
        number_under(reflected_key_model(k), "class_n_addresses_over_cap"@)
            == Some(k.class_n_addresses_over_cap as int),
        number_under(reflected_key_model(k), "trips_reads_over_cap"@)
            == Some(k.trips_reads_over_cap as int),
        number_under(reflected_key_model(k), "trips_writes_over_cap"@)
            == Some(k.trips_writes_over_cap as int),
        number_under(reflected_key_model(k), "reads_total"@) == Some(k.reads_total as int),
        number_under(reflected_key_model(k), "reads_under_other_cr3"@)
            == Some(k.reads_under_other_cr3 as int),
        under(reflected_key_model(k), "read_class_counts"@)
            == Some(labelled_model(k.read_class_counts@, "class"@, "count"@)),
        under(reflected_key_model(k), "write_class_counts"@)
            == Some(labelled_model(k.write_class_counts@, "class"@, "count"@)),
        number_under(reflected_key_model(k), "write_class_r"@) == Some(k.write_class_r as int),
        number_under(reflected_key_model(k), "write_class_d"@) == Some(k.write_class_d as int),
        number_under(reflected_key_model(k), "write_class_n"@) == Some(k.write_class_n as int),
        number_under(reflected_key_model(k), "write_class_n_trips"@)
            == Some(k.write_class_n_trips as int),
        number_under(reflected_key_model(k), "write_unknown_pre"@)
            == Some(k.write_unknown_pre as int),
        number_under(reflected_key_model(k), "write_dead_8kb"@) == Some(k.write_dead_8kb as int),
        number_under(reflected_key_model(k), "write_not_plain_ram"@)
            == Some(k.write_not_plain_ram as int),
        under(reflected_key_model(k), "top_write_addresses"@)
            == Some(JsonModel::Arr( k.top_write_addresses@.map_values(|row: WriteAddress| write_address_model(row)), )),
        under(reflected_key_model(k), "class_n_addresses"@)
            == Some(JsonModel::Arr( k.class_n_addresses@.map_values(|row: ClassAddress| class_address_model(row)), )),
        number_under(reflected_key_model(k), "warm_clock_samples"@)
            == Some(k.warm_clock_samples as int),
        number_under(reflected_key_model(k), "warm_clock_distinct"@)
            == Some(k.warm_clock_distinct as int),
        number_under(reflected_key_model(k), "warm_clock_longest_run"@)
            == Some(k.warm_clock_longest_run as int),
{
    lemma_reflected_key_keys_a(k);
    lemma_reflected_key_keys_b(k);
    lemma_reflected_key_keys_c(k);
}

/// Looked up by its key, every entry of the object is the figure that the key names.
pub proof fn law_reflected_calls_by_key(s: ReflectedCallDiagnosticSnapshot)
    ensures
        text_under(reflected_calls_model(s), "mode"@) == Some(s.mode@),
        number_under(reflected_calls_model(s), "trips_total"@) == Some(s.trips_total as int),
        number_under(reflected_calls_model(s), "trips_unmatched"@)
            == Some(s.trips_unmatched as int),
        under(reflected_calls_model(s), "probe_ns_per_read"@) == Some(json_of(s.probe_ns_per_read)),
        under(reflected_calls_model(s), "compare_ns_per_read"@)
            == Some(json_of(s.compare_ns_per_read)),
        under(reflected_calls_model(s), "window_start_insns"@)
            == Some(opt_num(s.window_start_insns)),
        under(reflected_calls_model(s), "window_end_insns"@) == Some(opt_num(s.window_end_insns)),
        under(reflected_calls_model(s), "keys"@)
            == Some(JsonModel::Arr( s.keys@.map_values(|row: ReflectedCallKey| reflected_key_model(row)), )),
{
    reveal_strlit("mode");
    assert("mode"@.len() == 4 && "mode"@[0] == 'm');
    reveal_strlit("trips_total");
    assert("trips_total"@.len() == 11 && "trips_total"@[0] == 't');
    reveal_strlit("trips_unmatched");
    assert("trips_unmatched"@.len() == 15 && "trips_unmatched"@[0] == 't');
    reveal_strlit("probe_ns_per_read");
    assert("probe_ns_per_read"@.len() == 17 && "probe_ns_per_read"@[0] == 'p');
    reveal_strlit("compare_ns_per_read");
    assert("compare_ns_per_read"@.len() == 19 && "compare_ns_per_read"@[0] == 'c');
    reveal_strlit("window_start_insns");
    assert("window_start_insns"@.len() == 18 && "window_start_insns"@[0] == 'w');
    reveal_strlit("window_end_insns");
    assert("window_end_insns"@.len() == 16 && "window_end_insns"@[0] == 'w');
    reveal_strlit("keys");
    assert("keys"@.len() == 4 && "keys"@[0] == 'k');
}

} // verus!
