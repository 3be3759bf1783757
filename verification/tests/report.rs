//! The sections of a profile file.

use izarravm::report::barriers::{
    census_sums_fit, direct_barrier_census_json, direct_barrier_census_row_json, AdmissionCensus,
    BarrierClosure, BarrierSite, DirectBarrierCensusRow, DirectBarrierCensusSnapshot, SiteTable,
    StackWidthSite,
};
use izarravm::report::devices::{
    mpu_json, opl_diagnostics_json, sb_dsp_json, shadow_l1_json, timer_json, MidiTraceEntry,
    MidiTraceKind, MpuActivity, OplDiagnostics, SbDspDiagnostics, ShadowClassCounts,
    ShadowL1Diagnostics, TimerActivity,
};
use izarravm::report::entries::{
    corrected_ticks, correction_fits, direct_entry_attribution_json,
    DirectEntryAttributionSnapshot, EntryLane,
    EntryPhase, EntrySite,
};
use izarravm::report::links::{
    callouts_close, direct_callout_attribution_json, direct_link_refusal_census_json,
    CallOutAttribution, CallOutCounts, CallOutHelperRow, CallOutPortRow,
    DirectLinkRefusalCensusRow, DirectLinkRefusalCensusSnapshot,
};
use izarravm::report::modes::{
    mode_census_file_json, mode_census_json, mode_census_text, DistiraApertureTraffic,
    DistiraCensusEntry, MargoCensus, MargoDisplay, ModeCensusEntry, ModeCensusKey,
    SwapToNextDrainStats,
};
use izarravm::report::phase_marks::{phase_mark_series_json, MarkPerf, PhaseMark};
use izarravm::report::profile::{
    classified_wall_ns, hdd_profile_json, hdd_profile_text, memo_or_text, reflected_call_memo_json,
    retf_arity_json, seg_head_json, HddProfile, MachinePhase, OptionalSections, RetfArity,
    RunRates, SegHeadDiagnostic, Timedemo, VideoHostMetrics,
};
use izarravm::report::reflected::reflected_call_diagnostic_json;
use izarravm::report::smc::{
    smc_census_closes, smc_census_json, smc_census_page_counts_json, smc_census_phase_closes,
    smc_ratio_terms, SmcPageCounts, SmcPhase, SmcProductionCounters, SmcSnapshot,
};
use izarravm::report::stalls::{direct_stall_json, DirectStallSnapshot, RetryCause};
use izarravm::report::storage::{
    ata_poll_skip_json, int13_profile_json, katea_counters_json, pit_bulk_advance_json,
    AtaPollSkip, Int13Profile, KateaStorageCounters, PitBulkAdvance,
};
use izarravm::report::vga_wipe::{vga_wipe_census_json, VgaWipeCensusSnapshot, VgaWipeRow};
use izarravm::stop::StopReason;
use serde_json::Value;

fn json(text: &str) -> Value {
    serde_json::from_str(text).unwrap()
}

fn count(name: &str, n: u64) -> (String, u64) {
    (name.to_string(), n)
}

// ---------------------------------------------------------------------------
// Barriers
// ---------------------------------------------------------------------------

fn zero_admission() -> AdmissionCensus {
    AdmissionCensus {
        admission_declines: vec![
            count("heat_refusal", 0),
            count("key_failure", 0),
            count("dormant_probe", 0),
            count("rejected_probe", 0),
        ],
        ..Default::default()
    }
}

#[test]
fn direct_barrier_census_json_exposes_ordered_zero_admission_declines() {
    assert!(direct_barrier_census_json(&None).is_null());

    let report = direct_barrier_census_json(&Some(DirectBarrierCensusSnapshot {
        admission: Some(zero_admission()),
        ..Default::default()
    }));
    assert_eq!(
        report["admission_declines"],
        json(
            r#"[
                { "kind": "heat_refusal", "count": 0 },
                { "kind": "key_failure", "count": 0 },
                { "kind": "dormant_probe", "count": 0 },
                { "kind": "rejected_probe", "count": 0 }
            ]"#
        )
    );
}

#[test]
fn direct_barrier_census_json_omits_admission_declines_without_feature() {
    let report = direct_barrier_census_json(&Some(DirectBarrierCensusSnapshot::default()));
    assert!(report.get("admission_declines").is_none());
}

#[test]
fn direct_barrier_census_json_exposes_the_closure_block() {
    assert!(direct_barrier_census_json(&None).is_null());
    let report = direct_barrier_census_json(&Some(DirectBarrierCensusSnapshot {
        closure: Some(BarrierClosure::default()),
        ..Default::default()
    }));
    assert_eq!(
        report["closure"],
        json(
            r#"{
                "classified_static": 0,
                "static_unbound_exits": 0,
                "unattributed_static": 0,
                "classified_dynamic": 0,
                "dynamic_miss_exits": 0,
                "unattributed_dynamic": 0,
                "rejected_unattributed": 0,
                "dynamic_rejected_unattributed": 0,
                "rejected_barrier_overwrites": 0
            }"#
        )
    );
}

#[test]
fn direct_barrier_census_json_exposes_the_dormant_heat_block() {
    let report = direct_barrier_census_json(&Some(DirectBarrierCensusSnapshot {
        closure: Some(BarrierClosure::default()),
        ..Default::default()
    }));
    assert_eq!(
        report["dormant_heat"],
        json(
            r#"{
                "class_static": 0,
                "class_dynamic": 0,
                "head_static": 0,
                "head_dynamic": 0,
                "truncated_static": 0,
                "truncated_dynamic": 0,
                "unattributed_static": 0,
                "unattributed_dynamic": 0,
                "distinct_sites": 0,
                "walked_entries_run_wide": 0,
                "sites": []
            }"#
        )
    );
}

/// A site with two exits at a static target and one at a dynamic one.
fn one_dormant_site() -> DirectBarrierCensusSnapshot {
    DirectBarrierCensusSnapshot {
        unbound_targets: vec![count("dormant_heat", 2)],
        dynamic_miss_targets: vec![count("dormant_heat", 1)],
        closure: Some(BarrierClosure {
            dormant_heat: SiteTable {
                sites: vec![BarrierSite {
                    linear: 0x1234,
                    static_exits: 2,
                    dynamic_exits: 1,
                    ..Default::default()
                }],
                distinct_sites: 1,
                ..Default::default()
            },
            ..Default::default()
        }),
        ..Default::default()
    }
}

#[test]
fn direct_barrier_census_json_carries_dormant_heat_sites_and_their_lane_match() {
    assert!(census_sums_fit(&one_dormant_site()));
    let report = direct_barrier_census_json(&Some(one_dormant_site()));
    assert_eq!(report["dormant_heat"]["class_static"], 2);
    assert_eq!(report["dormant_heat"]["class_dynamic"], 1);
    assert_eq!(report["dormant_heat"]["head_static"], 2);
    assert_eq!(report["dormant_heat"]["unattributed_static"], 0);
    assert_eq!(report["dormant_heat"]["unattributed_dynamic"], 0);
    assert_eq!(report["dormant_heat"]["distinct_sites"], 1);
    assert_eq!(
        report["dormant_heat"]["sites"],
        json(
            r#"[{
                "linear": "0x00001234",
                "static_exits": 2,
                "dynamic_exits": 1,
                "compile_walked": false,
                "imm_lane_matched": false,
                "disp_lane_matched": false
            }]"#
        )
    );
}

#[test]
fn direct_barrier_census_json_omits_the_closure_block_without_feature() {
    let report = direct_barrier_census_json(&Some(DirectBarrierCensusSnapshot::default()));
    assert!(report.get("closure").is_none());
    assert!(report.get("dormant_heat").is_none());
}

#[test]
fn a_census_whose_sums_run_over_does_not_fit() {
    let mut snapshot = one_dormant_site();
    if let Some(closure) = &mut snapshot.closure {
        closure.dormant_heat.sites[0].static_exits = u64::MAX;
        closure.dormant_heat.sites.push(BarrierSite { static_exits: 1, ..Default::default() });
    }
    assert!(!census_sums_fit(&snapshot));
}

#[test]
fn a_barrier_row_names_its_opcode_and_port() {
    let row = DirectBarrierCensusRow {
        opcode: 0x0f20,
        stop_reason: "privileged".to_string(),
        operand_form: "reg".to_string(),
        port: Some(0x3da),
        hits: 5,
        ..Default::default()
    };
    let value = direct_barrier_census_row_json(&row);
    assert_eq!(value["stop_reason"], "privileged");
    assert_eq!(value["port"], 0x3da);
    assert_eq!(value["hits"], 5);
    assert!(value["modrm_reg"].is_null());
}

#[test]
fn declines_of_a_stack_width_carry_their_sites() {
    let report = direct_barrier_census_json(&Some(DirectBarrierCensusSnapshot {
        admission: Some(AdmissionCensus {
            stack_width_declines: vec![count("ss_16", 2)],
            stack_width_decline_distinct_sites: 1,
            stack_width_decline_sites: vec![StackWidthSite {
                linear: 0x10,
                reason: "ss_16".to_string(),
                count: 2,
            }],
            ..Default::default()
        }),
        ..Default::default()
    }));
    let declines = &report["stack_width_declines"];
    assert_eq!(declines["distinct_sites"], 1);
    assert_eq!(declines["sites"][0]["count"], 2);
    assert_eq!(declines["reasons"], json(r#"[{ "kind": "ss_16", "count": 2 }]"#));
}

// ---------------------------------------------------------------------------
// Links and calls out
// ---------------------------------------------------------------------------

#[test]
fn direct_link_refusal_census_json_exposes_ordered_zero_snapshot() {
    assert!(direct_link_refusal_census_json(&None).is_null());
    assert_eq!(
        direct_link_refusal_census_json(&Some(DirectLinkRefusalCensusSnapshot::default())),
        json(r#"{ "seen": 0, "missing_id": 0, "invalid_id": 0, "rows": [] }"#)
    );
}

#[test]
fn direct_link_refusal_census_json_preserves_nonzero_rows_and_closures() {
    let snapshot = DirectLinkRefusalCensusSnapshot {
        seen: 3,
        missing_id: 1,
        invalid_id: 1,
        rows: vec![DirectLinkRefusalCensusRow {
            id: 7,
            source_linear: 0x1000,
            source_physical: 0x2000,
            source_mode_key: 3,
            source_generation: 11,
            slot: 1,
            target_linear: 0x1100,
            target_mode_key: 3,
            last_target_generation: Some(12),
            state: "refused_segment_layout".to_string(),
            unbound_exits: 1,
            buckets: vec![
                count("suppressed", 0),
                count("not_attempted", 0),
                count("refused_segment_layout", 1),
            ],
        }],
    };
    assert_eq!(
        snapshot.seen,
        snapshot.missing_id
            + snapshot.invalid_id
            + snapshot.rows.iter().map(|row| row.unbound_exits).sum::<u64>()
    );
    assert_eq!(
        snapshot.rows[0].unbound_exits,
        snapshot.rows[0].buckets.iter().map(|(_, count)| count).sum::<u64>()
    );

    let report = direct_link_refusal_census_json(&Some(snapshot));
    assert_eq!(report["seen"], 3);
    assert_eq!(report["rows"][0]["id"], 7);
    assert_eq!(report["rows"][0]["source"]["generation"], 11);
    assert_eq!(report["rows"][0]["target"]["last_attempted_generation"], 12);
    assert_eq!(report["rows"][0]["buckets"][2]["count"], 1);
}

fn counts(attempts: u64, continued: u64, step_break: u64, abnormal: u64) -> CallOutCounts {
    CallOutCounts { attempts, continued, step_break, abnormal }
}

fn helper(name: &str, counts: CallOutCounts) -> CallOutHelperRow {
    CallOutHelperRow { helper: name.to_string(), counts }
}

fn helper_names() -> Vec<String> {
    ["in_al_dx", "pushad", "popad"].iter().map(|name| name.to_string()).collect()
}

#[test]
fn direct_callout_attribution_json_has_the_exact_ordered_schema() {
    let snapshot = CallOutAttribution {
        helpers: vec![
            helper("in_al_dx", counts(3, 1, 1, 1)),
            helper("pushad", counts(2, 2, 0, 0)),
            helper("popad", counts(1, 0, 0, 1)),
        ],
        ports: vec![
            CallOutPortRow { port: 0x0201, counts: counts(1, 1, 0, 0) },
            CallOutPortRow { port: 0x03da, counts: counts(2, 0, 1, 1) },
        ],
        totals: counts(6, 3, 1, 2),
    };
    assert!(callouts_close(&snapshot, &helper_names()));

    assert_eq!(
        direct_callout_attribution_json(&Some(snapshot), &helper_names()),
        json(
            r#"{
                "schema": "izarravm-direct-callout-attribution-v1",
                "helpers": [
                    { "helper": "in_al_dx", "attempts": 3, "continued": 1, "step_break": 1, "abnormal": 1 },
                    { "helper": "pushad", "attempts": 2, "continued": 2, "step_break": 0, "abnormal": 0 },
                    { "helper": "popad", "attempts": 1, "continued": 0, "step_break": 0, "abnormal": 1 }
                ],
                "ports": [
                    { "port": 513, "attempts": 1, "continued": 1, "step_break": 0, "abnormal": 0 },
                    { "port": 986, "attempts": 2, "continued": 0, "step_break": 1, "abnormal": 1 }
                ],
                "totals": { "attempts": 6, "continued": 3, "step_break": 1, "abnormal": 2 }
            }"#
        )
    );
}

/// Attempts that ended in no outcome leave the attribution open.
#[test]
fn an_open_row_does_not_close() {
    let open = counts(1, 0, 0, 0);
    assert!(!open.is_closed());
    let snapshot = CallOutAttribution {
        helpers: vec![helper("in_al_dx", open), helper("pushad", open), helper("popad", open)],
        ports: Vec::new(),
        totals: counts(3, 0, 0, 0),
    };
    assert!(!callouts_close(&snapshot, &helper_names()));
}

// ---------------------------------------------------------------------------
// Phase marks
// ---------------------------------------------------------------------------

#[test]
fn phase_mark_series_carries_the_break_and_smc_scan_columns() {
    let perf = MarkPerf {
        straight_line_runs: 900,
        brk_decode_or_branch: 1,
        brk_cont_decode_miss: 2,
        brk_cont_not_continuable: 3,
        brk_cont_page_cross: 4,
        brk_step: 5,
        brk_interrupt: 6,
        brk_cap: 7,
        brk_halt: 8,
        smc_scan_calls: 9,
        smc_scan_keys: 10,
        smc_heat_chunks_hot: 11,
        jit_direct_side_exits: 12,
        jit_direct_unresolved_exits: 13,
        jit_direct_unresolved_static_unbound: 14,
        jit_direct_unresolved_static_hidden: 15,
        jit_direct_unresolved_dynamic_miss_or_unbound: 16,
        jit_direct_unresolved_dynamic_hidden: 17,
        direct_page_hits: 18,
        direct_page_misses: 19,
        jit_direct_arena_compactions: 20,
        jit_direct_arena_compaction_ns: 21,
        ..Default::default()
    };
    let rows = phase_mark_series_json(&vec![PhaseMark { perf, ..Default::default() }]);
    let row = &rows[0];
    for (key, expected) in [
        ("straight_line_runs", 900),
        ("brk_decode_or_branch", 1),
        ("brk_cont_decode_miss", 2),
        ("brk_cont_not_continuable", 3),
        ("brk_cont_page_cross", 4),
        ("brk_step", 5),
        ("brk_interrupt", 6),
        ("brk_cap", 7),
        ("brk_halt", 8),
        ("smc_scan_calls", 9),
        ("smc_scan_keys", 10),
        ("smc_heat_chunks_hot", 11),
        ("jit_direct_side_exits", 12),
        ("jit_direct_unresolved_exits", 13),
        ("jit_direct_unresolved_static_unbound", 14),
        ("jit_direct_unresolved_static_hidden", 15),
        ("jit_direct_unresolved_dynamic_miss_or_unbound", 16),
        ("jit_direct_unresolved_dynamic_hidden", 17),
        ("direct_page_hits", 18),
        ("direct_page_misses", 19),
        ("jit_direct_arena_compactions", 20),
        ("jit_direct_arena_compaction_ns", 21),
    ] {
        assert_eq!(
            row.get(key).and_then(|v| v.as_u64()),
            Some(expected),
            "{key} must be serialised into the phase-mark series"
        );
    }
}

/// Host times are counted from the first mark.
#[test]
fn marks_are_timed_from_the_first() {
    let rows = phase_mark_series_json(&vec![
        PhaseMark { wall_ns: 1_000, ..Default::default() },
        PhaseMark { wall_ns: 1_750, ..Default::default() },
    ]);
    let walls: Vec<Option<u64>> = rows
        .as_array()
        .unwrap()
        .iter()
        .map(|row| row["wall_offset_ns"].as_u64())
        .collect();
    assert_eq!(walls, vec![Some(0), Some(750)]);
}

// ---------------------------------------------------------------------------
// Modes
// ---------------------------------------------------------------------------

fn mode_x_256() -> ModeCensusKey {
    ModeCensusKey {
        mode: "ModeX".to_string(),
        hdisp_end: 256,
        vdisp_end: 480,
        vtotal: 525,
        double_scan: false,
        line_compare_active: false,
        bpp: 8,
    }
}

fn mode_census(vga: Vec<ModeCensusEntry>, distira: Vec<DistiraCensusEntry>) -> Value {
    mode_census_json(
        &vga,
        &distira,
        &None,
        &Vec::new(),
        &Vec::new(),
        DistiraApertureTraffic::default(),
        0,
        SwapToNextDrainStats::default(),
    )
}

#[test]
fn an_empty_census_renders_two_empty_lists_rather_than_nothing() {
    let json = mode_census(Vec::new(), Vec::new());
    assert_eq!(json["schema"], "izarravm-mode-census-v1");
    assert_eq!(json["vga"].as_array().expect("vga is a list").len(), 0);
    assert_eq!(
        json["distira"].as_array().expect("distira is a list").len(),
        0
    );
}

#[test]
fn a_vga_row_carries_every_key_field_and_its_count() {
    let json = mode_census(vec![ModeCensusEntry { key: mode_x_256(), entries: 2 }], Vec::new());
    let row = &json["vga"][0];
    assert_eq!(row["mode"], "ModeX");
    assert_eq!(row["hdisp_end"], 256);
    assert_eq!(row["vdisp_end"], 480);
    assert_eq!(
        row["source_lines"], 480,
        "not double scanned, so they are equal"
    );
    assert_eq!(row["vtotal"], 525);
    assert_eq!(row["double_scan"], false);
    assert_eq!(row["line_compare_active"], false);
    assert_eq!(row["bpp"], 8);
    assert_eq!(row["entries"], 2);
}

fn mode13h(vdisp_end: u32, double_scan: bool) -> ModeCensusEntry {
    ModeCensusEntry {
        key: ModeCensusKey {
            mode: "Mode13h".to_string(),
            hdisp_end: 320,
            vdisp_end,
            double_scan,
            ..mode_x_256()
        },
        entries: 1,
    }
}

#[test]
fn two_line_counts_at_one_pixel_height_render_as_two_rows() {
    // The rendering must not collapse what the key separates. 200 lines double
    // scanned and 199 lines single scanned both present 400 raster lines.
    let json = mode_census(vec![mode13h(200, true), mode13h(199, false)], Vec::new());
    let rows = json["vga"].as_array().expect("vga is a list");
    assert_eq!(rows.len(), 2);
    let raster: Vec<_> = rows.iter().map(|row| row["vdisp_end"].as_u64()).collect();
    assert!(raster.contains(&Some(199)));
    assert!(raster.contains(&Some(200)));
    let source: Vec<_> = rows
        .iter()
        .map(|row| row["source_lines"].as_u64())
        .collect();
    assert!(
        source.contains(&Some(199)),
        "199 single scanned is 199 source rows"
    );
    assert!(
        source.contains(&Some(100)),
        "200 double scanned is 100 source rows"
    );
}

#[test]
fn source_lines_halves_a_double_scanned_mode() {
    let json = mode_census(vec![mode13h(400, true)], Vec::new());
    assert_eq!(json["vga"][0]["vdisp_end"], 400);
    assert_eq!(json["vga"][0]["source_lines"], 200);
}

#[test]
fn a_distira_row_carries_its_size_and_count() {
    let json = mode_census(
        Vec::new(),
        vec![DistiraCensusEntry { width: 640, height: 480, entries: 1 }],
    );
    let row = &json["distira"][0];
    assert_eq!(row["width"], 640);
    assert_eq!(row["height"], 480);
    assert_eq!(row["entries"], 1);
}

#[test]
fn a_mode_census_file_ends_its_line() {
    let census = mode_census_file_json(
        &Vec::new(),
        &Vec::new(),
        &None,
        &Vec::new(),
        &Vec::new(),
        DistiraApertureTraffic::default(),
        0,
        SwapToNextDrainStats::default(),
        &MargoCensus {
            active: true,
            display: Some(MargoDisplay { mode: 0x101, width: 640, ..Default::default() }),
            ..Default::default()
        },
    );
    assert_eq!(census["margo"]["display"]["width"], 640);
    let file = mode_census_text(&census);
    assert!(file.ends_with("}\n"));
    assert_eq!(json(&file), census);
}

// ---------------------------------------------------------------------------
// Self-modifying code
// ---------------------------------------------------------------------------

fn quotients() -> Vec<Value> {
    (0..8).map(|i| json(&format!("{i}.5"))).collect()
}

#[test]
fn an_empty_smc_census_closes() {
    assert!(smc_census_json(&None, &SmcProductionCounters::default(), &quotients(), &quotients())
        .is_null());
    let snapshot = SmcSnapshot { clock: 9, window: Some((1, 2)), ..Default::default() };
    let perf = SmcProductionCounters::default();
    assert!(smc_census_phase_closes(&snapshot.whole_run));
    assert!(smc_census_closes(&snapshot, &perf));
    assert_eq!(smc_ratio_terms(&snapshot.whole_run).len(), 8);
    let report = smc_census_json(&Some(snapshot), &perf, &quotients(), &quotients());
    assert_eq!(report["schema"], "izarravm-smc-census-v1");
    assert_eq!(report["window"], json("[1, 2]"));
    assert_eq!(report["clock_instructions"], 9);
    // Over nothing there is no ratio.
    assert!(report["phases"][0]["derived"]["r2_w_surviving"].is_null());
}

#[test]
fn an_smc_census_that_disagrees_with_production_does_not_close() {
    let perf = SmcProductionCounters { smc_scan_calls: 1, ..Default::default() };
    assert!(!smc_census_closes(&SmcSnapshot::default(), &perf));
    let mut phase = SmcPhase::default();
    phase.units.keys_scanned = 1;
    assert!(!smc_census_phase_closes(&phase));
}

#[test]
fn page_counts_are_reported_by_name() {
    let value = smc_census_page_counts_json(&SmcPageCounts {
        page_visits: 4,
        keys_killed: 3,
        ..Default::default()
    });
    assert_eq!(value["page_visits"], 4);
    assert_eq!(value["keys_killed"], 3);
    assert_eq!(value["no_kill_visits"], 0);
}

// ---------------------------------------------------------------------------
// Devices and storage
// ---------------------------------------------------------------------------

#[test]
fn devices_report_their_counters() {
    let opl = opl_diagnostics_json(&OplDiagnostics { register_writes: 3, ..Default::default() });
    assert_eq!(opl["register_writes"], 3);
    let sb = sb_dsp_json(&SbDspDiagnostics { resets: 2, ..Default::default() });
    assert_eq!(sb["resets"], 2);
    let mpu = mpu_json(&MpuActivity {
        trace: vec![MidiTraceEntry {
            kind: MidiTraceKind::CommandWrite,
            wavetable: false,
            value: 0x3f,
            master_ticks: 12,
        }],
        ..Default::default()
    });
    assert_eq!(mpu["trace"].as_array().unwrap().len(), 1);
    let timer = timer_json(&TimerActivity { irq0_edges: 18, ..Default::default() });
    assert_eq!(timer["irq0_edges"], 18);
}

fn shadow_class() -> ShadowClassCounts {
    ShadowClassCounts {
        hits: 3,
        misses: 1,
        accesses: 4,
        hit_ratio: json("0.75"),
        miss_ratio: None,
    }
}

fn shadow() -> ShadowL1Diagnostics {
    ShadowL1Diagnostics {
        enabled: true,
        code_fetch: shadow_class(),
        data_read: shadow_class(),
        data_write: shadow_class(),
        hierarchy: None,
    }
}

#[test]
fn a_probe_without_a_second_level_has_none_of_its_keys() {
    let value = shadow_l1_json(&shadow());
    assert_eq!(value["code_fetch"]["hit_ratio"], 0.75);
    assert!(value["code_fetch"].get("miss_ratio").is_none());
    assert!(value.get("l2").is_none());
}

#[test]
fn storage_reports_its_counters() {
    let katea = katea_counters_json(&KateaStorageCounters { sector_reads: 5, ..Default::default() });
    assert_eq!(katea["sector_reads"], 5);
    let int13 = int13_profile_json(&Int13Profile { read_calls: 6, ..Default::default() });
    assert_eq!(int13["read_calls"], 6);
    let pit = pit_bulk_advance_json(&PitBulkAdvance { enabled: true, advances: 7, ..Default::default() });
    assert_eq!(pit["enabled"], true);
    assert_eq!(pit["advances"], 7);
    let ata = ata_poll_skip_json(&AtaPollSkip { spans: 8, ..Default::default() });
    assert_eq!(ata["spans"], 8);
}

#[test]
fn stalls_report_their_causes() {
    let stalls = direct_stall_json(&DirectStallSnapshot {
        retry_causes: vec![RetryCause { cause: "x".to_string(), count: 2, keys: 1 }],
        poll_skip_last_head: Some(0x1234),
        ..Default::default()
    });
    assert_eq!(stalls["jit_direct_retry_causes"][0]["cause"], "x");
    assert_eq!(stalls["jit_direct_retry_causes"][0]["count"], 2);
}

/// The bucket of a gap starts at a power of two, and an empty bucket is left out.
#[test]
fn gaps_are_reported_by_their_least_length() {
    assert!(vga_wipe_census_json(&None).is_null());
    let value = vga_wipe_census_json(&Some(VgaWipeCensusSnapshot {
        events: 4,
        rows: vec![VgaWipeRow { port: 0x3c4, selector: 2, value: 15, count: 4 }],
        gap_buckets: vec![0, 0, 0, 4],
        ..Default::default()
    }));
    assert_eq!(value["events"], 4);
    assert_eq!(
        value["gap_buckets"],
        json(r#"[{ "min_instructions": 8, "count": 4 }]"#)
    );
}

// ---------------------------------------------------------------------------
// Entries and reflected calls
// ---------------------------------------------------------------------------

#[test]
fn a_phase_below_the_resolution_says_so() {
    assert_eq!(corrected_ticks(100, 30, 2), 40);
    assert_eq!(corrected_ticks(10, 30, 2), -50);
    assert!(correction_fits(u64::MAX, 1 << 63));
    assert!(!correction_fits(u64::MAX, u64::MAX));
    assert!(direct_entry_attribution_json(&None, 0).is_null());
    let lane = EntryLane {
        lane: "real".to_string(),
        phases: vec![EntryPhase {
            phase: "p0".to_string(),
            ticks_raw: 100,
            marks: 2,
            ticks_corrected: json("40"),
            ns: json("10.5"),
            ns_per_mark: json("5.25"),
            within_floor: true,
        }],
        totals: Vec::new(),
        refusal_site: vec![EntrySite {
            index: 0,
            site: "s".to_string(),
            run_rs_line: 12,
            count: 3,
        }],
        compile_site: Vec::new(),
        fallback_tags: Vec::new(),
        native_bins: Vec::new(),
    };
    let report = direct_entry_attribution_json(
        &Some(DirectEntryAttributionSnapshot {
            arm: "on".to_string(),
            sample_n: 64,
            overhead_ticks: 30,
            calibration_bracket_ticks: 0,
            calibration_mark_ticks: 0,
            resolution_floor_ns: json("6.0"),
            tsc_hz: 3_000_000_000,
            outlier_clamp_ticks: 0,
            outlier_ticks: 0,
            outlier_marks: 0,
            lane_pin_mismatches: 0,
            p0_mark_line: 1,
            pre_p0_refusal_sites: vec![0],
            phase_names: vec!["p0".to_string()],
            lane_names: vec!["real".to_string()],
            population_names: Vec::new(),
            lanes: vec![lane],
        }),
        7,
    );
    assert_eq!(report["sample_n"], 64);
    assert_eq!(report["decode_pack_late_view_miss"], 7);
    assert_eq!(report["lanes"][0]["phases"][0]["below_resolution"], true);
    assert_eq!(report["lanes"][0]["phases"][0]["ns"], 10.5);
}

#[test]
fn no_reflected_calls_are_null() {
    assert!(reflected_call_diagnostic_json(&None).is_null());
}

#[test]
fn a_call_memo_is_a_tree_or_a_text() {
    assert_eq!(reflected_call_memo_json("{\"a\": [1]}"), json("{\"a\": [1]}"));
    assert_eq!(reflected_call_memo_json("not a tree"), "not a tree");
    assert_eq!(memo_or_text(Some(json("[2]")), "[2]"), json("[2]"));
    assert_eq!(memo_or_text(None, "x"), "x");
}

#[test]
fn small_diagnostics_are_objects() {
    let head = seg_head_json(&SegHeadDiagnostic { seg_head_eligible: 4, ..Default::default() });
    assert_eq!(head["eligible"], 4);
    let retf = retf_arity_json(&RetfArity { histogram: vec![0, 5, 1], sites: 6 });
    assert_eq!(
        retf,
        json(r#"{ "executions_by_distinct_targets": [0, 5, 1], "sites": 6 }"#)
    );
}

// ---------------------------------------------------------------------------
// The profile
// ---------------------------------------------------------------------------

fn phase(name: &str, wall_ns: u64, count: u64) -> MachinePhase {
    MachinePhase { name: name.to_string(), wall_ns, count }
}

fn no_sections() -> OptionalSections {
    OptionalSections {
        direct_link_refusal_census: None,
        reflected_call_diagnostic: None,
        reflected_call_memo: None,
        direct_callout_attribution: None,
        smc_census: None,
        seg_head_diagnostic: None,
        retf_arity_census: None,
        direct_entry_attribution: None,
    }
}

fn profile(mode: &str, timed: bool, phases: Vec<MachinePhase>) -> HddProfile {
    HddProfile {
        workload: "fixture".to_string(),
        mode: mode.to_string(),
        timing_model_epoch: 1,
        cycle_budget: 100_000,
        stop: StopReason::DosExit { code: 0 },
        wall_ns: 1_000_000_000,
        rates: RunRates {
            wall_seconds: json("1.0"),
            guest_seconds: json("0.001"),
            real_time_factor: json("0.001"),
            instructions_per_host_second: json("5.0"),
            budget_clocks_per_host_second: json("100.0"),
            cpu_core_clocks_per_host_second: json("100.0"),
            direct_native_coverage: json("0.0"),
            direct_slow_exits_per_100_instructions: json("0.0"),
        },
        master_ticks: 12,
        elapsed_budget_clocks: 100,
        executed_cpu_core_clocks: 100,
        raw_bus_clocks: 40,
        scaled_bus_clocks: 20,
        active_display: "VgaRaster".to_string(),
        legacy_video_mode: "Text".to_string(),
        vga_text_rows_rendered: 25,
        margo_display: None,
        video_host: VideoHostMetrics::default(),
        timedemo: timed.then_some(Timedemo { gametics: 35, realtics: 70 }),
        machine_phase_timing_enabled: timed,
        machine_phases: phases,
        direct_barrier_census: None,
        phase_marks: Vec::new(),
        int13_profile: Int13Profile::default(),
        katea_geometry: None,
        hdd_sector_cache: None,
        io_stall_ticks: 0,
        halted_ticks: 0,
        pit_bulk_advance: PitBulkAdvance::default(),
        cd_pio_bytes: 0,
        cd_accesses: 0,
        atapi_packet_commands: 0,
        ata_poll_skip: AtaPollSkip::default(),
        katea: None,
        direct_stalls: DirectStallSnapshot::default(),
        vga_wipe_census: None,
        shadow_l1: shadow(),
        opl: OplDiagnostics::default(),
        sb_dsp: SbDspDiagnostics::default(),
        mpu: MpuActivity::default(),
        timer: TimerActivity::default(),
        perf: json(r#"{ "instructions": 5, "jit_direct_entries": 0 }"#),
        sections: no_sections(),
    }
}

#[test]
fn hdd_profile_reports_time_and_native_coverage() {
    let timed = profile(
        "486",
        true,
        vec![
            phase("cpu_batch", 400, 3),
            phase("video_conversion", 50, 1),
            phase("audio_render", 0, 0),
        ],
    );
    let report = json(&hdd_profile_text(&timed));
    assert_eq!(report["schema"], "izarravm-hdd-profile-v1");
    assert_eq!(report["mode"], "486");
    assert_eq!(report["stop"]["kind"], "dos_exit");
    assert_eq!(report["stop"]["code"], 0);
    assert_eq!(report["timedemo"]["gametics"], 35);
    assert_eq!(report["machine_phase_timing_enabled"], true);
    assert!(report["guest_seconds"].as_f64().unwrap() > 0.0);
    assert!(report["direct_native_coverage"].as_f64().is_some());
    assert!(report["direct_slow_exits_per_100_instructions"].as_f64().is_some());
    assert!(report["perf"]["instructions"].as_u64().unwrap() > 0);
    assert!(report["raw_bus_clocks"].as_u64().unwrap() > 0);
    assert_eq!(report["scaled_bus_clocks"].as_u64(), Some(20));
    assert!(report["perf"]["jit_direct_entries"].as_u64().is_some());
    assert!(report["direct_barrier_census"].is_null());
    assert!(report.get("direct_link_refusal_census").is_none());
    assert!(report.get("direct_callout_attribution").is_none());
    assert_eq!(report["classified_wall_ns"], 450);
    assert_eq!(report["unattributed_wall_ns"], 999_999_550);
    assert!(report["machine_phases"]
        .as_array()
        .unwrap()
        .iter()
        .any(|phase| phase["name"] == "cpu_batch" && phase["count"].as_u64().unwrap() > 0));
    for name in ["video_conversion", "audio_render"] {
        assert!(report["machine_phases"]
            .as_array()
            .unwrap()
            .iter()
            .any(|phase| phase["name"] == name));
    }
}

#[test]
fn hdd_profile_json_does_not_enable_machine_phase_timing() {
    let untimed = profile("386", false, vec![phase("cpu_batch", 0, 0), phase("audio_render", 0, 0)]);
    let report = json(&hdd_profile_text(&untimed));
    assert_eq!(report["machine_phase_timing_enabled"], false);
    assert_eq!(report["classified_wall_ns"], 0);
    assert!(report["machine_phases"]
        .as_array()
        .unwrap()
        .iter()
        .all(|phase| phase["wall_ns"] == 0 && phase["count"] == 0));
}

/// A section that was built is there, though it is null; one that was not has no key.
#[test]
fn sections_are_there_where_they_were_built() {
    let mut built = profile("486", true, Vec::new());
    built.sections.direct_link_refusal_census = Some(Value::Null);
    built.sections.smc_census = Some(json("{}"));
    let report = hdd_profile_json(&built);
    assert_eq!(report.get("direct_link_refusal_census"), Some(&Value::Null));
    assert_eq!(report["smc_census"], json("{}"));
    assert!(report.get("retf_arity_census").is_none());
}

#[test]
fn host_time_is_summed_where_it_can_be_counted() {
    assert_eq!(classified_wall_ns(&vec![phase("a", 1, 0), phase("b", 2, 0)]), Some(3));
    assert_eq!(classified_wall_ns(&vec![phase("a", u64::MAX, 0), phase("b", 1, 0)]), None);
}
