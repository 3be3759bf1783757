//! The evidence lines of a headless run, and what starts and ends one.

use izarravm::console::{
    boot_sector_line, boot_verdict, com1_text, cs_ip_line, device_edge_cache_line,
    dump_result_lines, line_block, open_bus_line, sampled_addresses_text, Registers,
};
use izarravm::launch::{
    choose_run_mode, katea_autoexec, katea_overrides, katea_run_prog_name,
    requested_execution_backend, run_budget, validate_output_parent, ExecutionBackend, RunMode,
    RunRequest, PROFILE_JSON_MESSAGE,
};
use izarravm::lines::{
    extract_timedemo_realtics, io_hist_lines, nearest_rank_percentile, rung_quotient_terms,
    slow_read_histo_lines, slow_read_region_counts, slow_reads_fit, timedemo_line,
    unit_sim_report_lines, Rung, RungQuotients, SimReport,
};
use izarravm::order::{sort_pairs, tally};
use izarravm::stop::{
    exit_code, missed_test_exit, non_cycle_stop, passed_test, stop_reason_json, StopReason,
};
use izarravm::suite::{
    boot_suite_failure_summary, izarra_bios_complaint, izarra_bios_failure_summary,
    izarra_bios_required_records, record_text, SuiteRecord, SuiteRecordStatus, SuiteResults,
};
use izarravm::switches::{
    dump_fits, dump_heading, dump_row_addresses, dump_row_line, dump_target,
    machine_profile_requested, parse_count, parse_dump_window, parse_phase_interval_ms,
    parse_watch_limit, parse_write_watch, phase_interval_clocks, profiling_mode,
    rip_profile_path_from, spaced_bytes, write_watch_line, Profiling,
};

fn json(text: &str) -> serde_json::Value {
    serde_json::from_str(text).unwrap()
}

// ---------------------------------------------------------------------------
// Starting a run
// ---------------------------------------------------------------------------

#[test]
fn execution_backend_requires_avx2_only_for_native_builds() {
    assert_eq!(
        requested_execution_backend(false, true, true),
        Ok(ExecutionBackend::Automatic)
    );
    assert!(requested_execution_backend(false, true, false)
        .unwrap_err()
        .contains("AVX2"));
    assert_eq!(
        requested_execution_backend(true, true, false),
        Ok(ExecutionBackend::Interpreter)
    );
    assert_eq!(
        requested_execution_backend(false, false, false),
        Ok(ExecutionBackend::Interpreter)
    );
}

#[test]
fn machine_profile_environment_gate_is_explicit() {
    for value in [None, Some(""), Some("0")] {
        assert!(!machine_profile_requested(value));
    }
    for value in [Some("1"), Some("true"), Some("enabled")] {
        assert!(machine_profile_requested(value));
    }
}

#[test]
fn the_only_mode_that_is_asked_for_runs() {
    assert_eq!(choose_run_mode(&RunRequest::default()), Ok(RunMode::Gui));
    let folder = RunRequest { hdd_folder: true, profile_json: true, ..RunRequest::default() };
    assert_eq!(choose_run_mode(&folder), Ok(RunMode::HddFolder));
    let floppy = RunRequest { boot_floppy: true, ..RunRequest::default() };
    assert_eq!(choose_run_mode(&floppy), Ok(RunMode::BootFloppy));
    let misplaced = RunRequest { boot_floppy: true, profile_json: true, ..RunRequest::default() };
    assert_eq!(choose_run_mode(&misplaced), Err(PROFILE_JSON_MESSAGE));
}

#[test]
fn a_run_has_its_own_budget_where_none_is_given() {
    assert_eq!(run_budget(RunMode::TestRom, None), Some(200_000_000));
    assert_eq!(run_budget(RunMode::BootFloppy, None), Some(50_000_000));
    assert_eq!(run_budget(RunMode::BootHdd, None), Some(500_000_000));
    assert_eq!(run_budget(RunMode::HddFolder, Some(1000)), Some(1000));
    assert_eq!(run_budget(RunMode::Gui, Some(1000)), None);
}

#[test]
fn an_output_needs_its_directory() {
    assert_eq!(validate_output_parent(None, false, "profile"), Ok(()));
    assert_eq!(validate_output_parent(Some(""), false, "profile"), Ok(()));
    assert_eq!(validate_output_parent(Some("out"), true, "profile"), Ok(()));
    assert_eq!(
        validate_output_parent(Some("out"), false, "profile"),
        Err("profile parent directory does not exist: out".to_string())
    );
}

/// The extension of a path, as text.
fn extension(path: &str) -> Option<&str> {
    std::path::Path::new(path).extension().and_then(|ext| ext.to_str())
}

#[test]
fn katea_run_prog_name_picks_a_clean_8_3_name() {
    assert_eq!(katea_run_prog_name(extension("/x/FOO.EXE")), "PROG.EXE");
    assert_eq!(katea_run_prog_name(extension("bar.com")), "PROG.COM");
    assert_eq!(katea_run_prog_name(extension("noext")), "PROG.COM");
    assert_eq!(katea_run_prog_name(extension("a.longext")), "PROG.LON");
}

#[test]
fn a_program_is_laid_over_the_disk_with_its_batch_file() {
    assert_eq!(katea_autoexec("PROG.EXE"), "@echo off\r\nRUNNER PROG.EXE\r\n");
    let files = katea_overrides(Some("exe"), vec![1, 2], vec![3]);
    assert_eq!(files.len(), 3);
    let program = files.iter().find(|file| file.0 == "PROG.EXE").unwrap();
    assert_eq!(program.1, vec![3]);
    assert!(files.iter().any(|file| file.1 == b"@echo off\r\nRUNNER PROG.EXE\r\n".to_vec()));
    assert!(files.iter().any(|file| file.1 == vec![1, 2]));
}

// ---------------------------------------------------------------------------
// Switches
// ---------------------------------------------------------------------------

#[test]
fn counts_and_limits_are_read_from_texts() {
    assert_eq!(parse_count(Some("12")), Some(12));
    assert_eq!(parse_count(Some("x")), None);
    assert_eq!(parse_count(None), None);
    assert_eq!(parse_phase_interval_ms(Some("0")), None);
    assert_eq!(parse_phase_interval_ms(Some("250")), Some(250));
    assert_eq!(phase_interval_clocks(33_000, 2), 66_000);
    assert_eq!(phase_interval_clocks(u64::MAX, 2), u64::MAX);
    assert_eq!(parse_watch_limit("64"), Some(64));
    assert_eq!(parse_watch_limit("-1"), None);
    assert_eq!(rip_profile_path_from(Some(String::new())), None);
    assert_eq!(rip_profile_path_from(Some("p.txt".to_string())), Some("p.txt".to_string()));
}

#[test]
fn a_stride_measures_the_processor() {
    assert_eq!(profiling_mode(Some(64), false), Profiling::Cpu { stride: 64 });
    assert_eq!(profiling_mode(None, true), Profiling::Machine);
    assert_eq!(profiling_mode(None, false), Profiling::Off);
}

#[test]
fn windows_are_an_address_and_a_length() {
    assert_eq!(parse_write_watch("0x1000,0x20"), Some((0x1000, 0x20)));
    assert_eq!(parse_write_watch("ff"), Some((0xff, 0x100)));
    assert_eq!(parse_write_watch("zz"), None);
    assert_eq!(parse_dump_window("0x2000"), Some((0x2000, 0x180)));
    assert_eq!(
        write_watch_line(0x1000, 0x20),
        "watch-write: armed over 0x001000..0x001020"
    );
}

#[test]
fn a_dump_begins_at_a_row_before_its_address() {
    assert_eq!(dump_target(Some((0x1234, 0x20)), Some(0x9999)), Some((0x1234, 0x20)));
    assert_eq!(dump_target(None, Some(0x9999)), Some((0x9999, 0x180)));
    assert_eq!(dump_target(None, None), None);
    assert!(dump_fits(0x1234, 0x20));
    assert!(!dump_fits(u32::MAX, u32::MAX));
    assert_eq!(dump_row_addresses(0x1234, 0x20), vec![0x11f0, 0x1200]);
    assert_eq!(dump_row_addresses(0x10, 0x10), vec![0]);
    assert_eq!(spaced_bytes(&vec![Some(0x0f), None, Some(0xa0)]), "0F -- A0");
    assert_eq!(
        dump_heading(0x1234),
        "=== bytes around hottest address 00001234 (paging-walked linear) ==="
    );
    assert_eq!(dump_row_line(0x11f0, &vec![Some(1), None]), "000011F0  01 --");
}

// ---------------------------------------------------------------------------
// How a run ends
// ---------------------------------------------------------------------------

#[test]
fn stop_reason_json_preserves_each_outcome() {
    let cases = [
        (StopReason::Halted, r#"{ "kind": "halted" }"#),
        (
            StopReason::CycleLimit { requested: 123 },
            r#"{ "kind": "cycle_limit", "requested": 123 }"#,
        ),
        (
            StopReason::CpuError("bad opcode".into()),
            r#"{ "kind": "cpu_error", "message": "bad opcode" }"#,
        ),
        (StopReason::DosExit { code: 7 }, r#"{ "kind": "dos_exit", "code": 7 }"#),
        (StopReason::TestExit { code: 9 }, r#"{ "kind": "test_exit", "code": 9 }"#),
    ];
    for (stop, expected) in cases {
        assert_eq!(stop_reason_json(&stop), json(expected));
    }
}

#[test]
fn a_run_exits_with_the_guests_code() {
    assert_eq!(exit_code(&StopReason::DosExit { code: 7 }), 7);
    assert_eq!(exit_code(&StopReason::TestExit { code: 9 }), 9);
    assert!(passed_test(&StopReason::TestExit { code: 0 }));
    assert!(!passed_test(&StopReason::TestExit { code: 1 }));
    assert!(!passed_test(&StopReason::Halted));
    assert_eq!(non_cycle_stop(&StopReason::CycleLimit { requested: 1 }), None);
    assert_eq!(non_cycle_stop(&StopReason::Halted), Some(StopReason::Halted));
}

// ---------------------------------------------------------------------------
// The suites
// ---------------------------------------------------------------------------

fn record(status: SuiteRecordStatus, name: &str, value: Option<&str>) -> SuiteRecord {
    SuiteRecord {
        status,
        name: name.to_string(),
        value: value.map(str::to_string),
    }
}

#[test]
fn boot_suite_failure_summary_lists_every_failed_record() {
    let mut results = SuiteResults {
        version: 1,
        declared_record_count: 3,
        records: vec![
            record(SuiteRecordStatus::Begin, "suite.boot", None),
            record(SuiteRecordStatus::Fail, "sound.opl3", None),
            record(SuiteRecordStatus::Fail, "timer.irq0", None),
        ],
    };

    assert_eq!(
        boot_suite_failure_summary(&results).as_deref(),
        Some("boot suite reported FAIL: sound.opl3, timer.irq0")
    );
    results
        .records
        .retain(|record| record.status != SuiteRecordStatus::Fail);
    assert_eq!(boot_suite_failure_summary(&results), None);
}

fn passing_izarra_results() -> SuiteResults {
    let records = izarra_bios_required_records()
        .iter()
        .map(|&(name, status)| {
            let value = (status == SuiteRecordStatus::Measure).then_some("value");
            record(status, name, value)
        })
        .collect::<Vec<_>>();
    SuiteResults {
        version: 1,
        declared_record_count: records.len() as u16,
        records,
    }
}

#[test]
fn izarra_bios_gate_accepts_one_complete_passing_record_set() {
    assert_eq!(izarra_bios_failure_summary(&passing_izarra_results()), None);
}

#[test]
fn a_bios_run_comes_to_its_halt_before_its_records_count() {
    let mut failed = passing_izarra_results();
    failed.version = 2;
    assert_eq!(
        izarra_bios_complaint(&StopReason::Halted, "Halted", &passing_izarra_results()),
        None
    );
    assert_eq!(
        izarra_bios_complaint(&StopReason::Halted, "Halted", &failed),
        izarra_bios_failure_summary(&failed)
    );
    assert_eq!(
        izarra_bios_complaint(&StopReason::TestExit { code: 3 }, "TestExit { code: 3 }", &failed)
            .as_deref(),
        Some("Izarra BIOS did not reach its terminal halt: TestExit { code: 3 }")
    );
}

#[test]
fn a_missed_test_exit_is_a_complaint_only_where_one_was_expected() {
    let passed = StopReason::TestExit { code: 0 };
    let halted = StopReason::Halted;
    assert_eq!(missed_test_exit(true, &passed, "TestExit { code: 0 }"), None);
    assert_eq!(missed_test_exit(false, &halted, "Halted"), None);
    assert_eq!(
        missed_test_exit(true, &halted, "Halted").as_deref(),
        Some("expected TestExit code 0, got Halted")
    );
}

#[test]
fn izarra_bios_gate_rejects_incomplete_duplicate_missing_and_failed_records() {
    let mut incomplete = passing_izarra_results();
    incomplete.declared_record_count += 1;
    assert!(izarra_bios_failure_summary(&incomplete)
        .unwrap()
        .contains("declared 20 records but parsed 19"));

    let mut duplicate = passing_izarra_results();
    let again = record(
        duplicate.records[1].status,
        &duplicate.records[1].name,
        duplicate.records[1].value.as_deref(),
    );
    duplicate.records.push(again);
    duplicate.declared_record_count += 1;
    assert!(izarra_bios_failure_summary(&duplicate)
        .unwrap()
        .contains("duplicate records: self.framework"));

    let mut missing = passing_izarra_results();
    missing
        .records
        .retain(|record| record.name != "component.timer_pit");
    missing.declared_record_count -= 1;
    assert!(izarra_bios_failure_summary(&missing)
        .unwrap()
        .contains("missing required record: component.timer_pit"));

    let mut failed = passing_izarra_results();
    failed
        .records
        .iter_mut()
        .find(|record| record.name == "component.audio_opl")
        .unwrap()
        .status = SuiteRecordStatus::Fail;
    assert!(izarra_bios_failure_summary(&failed)
        .unwrap()
        .contains("failed required record: component.audio_opl"));
}

#[test]
fn izarra_bios_gate_rejects_empty_measurements_and_unexpected_records() {
    let mut empty_measurement = passing_izarra_results();
    empty_measurement
        .records
        .iter_mut()
        .find(|record| record.name == "memory.detected_kib")
        .unwrap()
        .value = None;
    assert!(izarra_bios_failure_summary(&empty_measurement)
        .unwrap()
        .contains("required measurement has no value: memory.detected_kib"));

    let mut unexpected = passing_izarra_results();
    unexpected.records[1].name = "component.unsupported".to_owned();
    let message = izarra_bios_failure_summary(&unexpected).unwrap();
    assert!(message.contains("unexpected records: component.unsupported"));
    assert!(message.contains("missing required record: self.framework"));
}

#[test]
fn a_record_is_one_line() {
    assert_eq!(
        record_text(&record(SuiteRecordStatus::Pass, "timer.irq0", None)),
        "PASS timer.irq0"
    );
    assert_eq!(
        record_text(&record(SuiteRecordStatus::Measure, "memory.detected_kib", Some("640"))),
        "MEASURE memory.detected_kib 640"
    );
}

// ---------------------------------------------------------------------------
// Evidence lines
// ---------------------------------------------------------------------------

/// The quotients of a rung as they are printed.
fn quotients(report: &SimReport) -> RungQuotients {
    let terms = rung_quotient_terms(report);
    let text = |(n, d): (u64, u64)| format!("{:.6}", n as f64 / d as f64);
    RungQuotients {
        insns_per_entry: text(terms.0),
        ipe_active: text(terms.1),
        ipe_active_slice: text(terms.2),
    }
}

fn rung(cfg: &str, report: SimReport, histogram: Vec<(u64, u32)>) -> Rung {
    Rung {
        cfg: cfg.to_string(),
        quotients: quotients(&report),
        report,
        histogram,
    }
}

#[test]
fn unit_sim_report_lines_format_headline_and_histogram() {
    let report = SimReport {
        entries: 1000,
        retired_in_units: 3500,
        linked_transfers: 42,
        unresolved_exits: 7,
        side_exits_io: 3,
        side_exits_async: 2,
        sim_invalidations: 5,
        units_built: 120,
        units_rebuilt: 4,
        ..Default::default()
    };
    // Ten units: member counts 1..=10 spread across code/UMA/BIOS entry pages. p50 (nearest rank of
    // 10 items) lands on the 5th smallest (5), p90 on the 9th (9), max 10. Two units sit in the
    // excluded window (page 0xF0 and page 0xA0); one code unit exceeds 64 members.
    let histogram: Vec<(u64, u32)> = vec![
        (1, 0x0010),
        (2, 0x0010),
        (3, 0x0010),
        (4, 0x0011),
        (5, 0x0011),
        (6, 0x0012),
        (7, 0x00f0),
        (8, 0x00a0),
        (9, 0x0012),
        (65, 0x0013),
    ];
    let lines = unit_sim_report_lines(&vec![rung("L0", report, histogram)]);
    assert_eq!(
        lines,
        vec![
            "unit_sim cfg=L0 entries=1000 retired_in_units=3500 linked_transfers=42 loop_links=0 \
call_links=0 ret_links=0 itc_hits=0 ght_hits=0 ght_ret_hits=0 unresolved_exits=7 side_exits_io=3 \
side_exits_async=2 io_callouts=0 sim_invalidations=5 sim_restamps=0 units_built=120 \
units_rebuilt=4 elided_insns=0 elided_waits=0 wait_batch_ends=0 spin_noio_insns=0 \
insns_per_entry=3.500000 ipe_active=3.500000 ipe_active_slice=3.500000"
                .to_string(),
            "unit_sim_hist cfg=L0 units=10 members_p50=5 members_p90=9 members_max=65 \
units_over_64=1 units_over_128=0 units_over_256=0 excl_units=2"
                .to_string(),
        ]
    );
}

#[test]
fn unit_sim_report_lines_format_p_rung_both_quotients() {
    // The P rung: elided iterations and absorbed budget yields make the two active-stream quotients
    // diverge from each other and from the structural metric. entries=100, retired=1000,
    // elided_insns=400, wait_batch_ends=100. insns_per_entry = 1000/100 = 10; ipe_active =
    // (1000-400)/100 = 6; ipe_active_slice = 600/(100+100) = 3.
    let report = SimReport {
        entries: 100,
        retired_in_units: 1000,
        io_callouts: 50,
        elided_insns: 400,
        elided_waits: 3,
        wait_batch_ends: 100,
        spin_noio_insns: 20,
        ..Default::default()
    };
    let lines = unit_sim_report_lines(&vec![rung("P", report, Vec::new())]);
    assert_eq!(
        lines[0],
        "unit_sim cfg=P entries=100 retired_in_units=1000 linked_transfers=0 loop_links=0 \
call_links=0 ret_links=0 itc_hits=0 ght_hits=0 ght_ret_hits=0 unresolved_exits=0 side_exits_io=0 \
side_exits_async=0 io_callouts=50 sim_invalidations=0 sim_restamps=0 units_built=0 units_rebuilt=0 \
elided_insns=400 elided_waits=3 wait_batch_ends=100 spin_noio_insns=20 insns_per_entry=10.000000 \
ipe_active=6.000000 ipe_active_slice=3.000000"
    );
}

#[test]
fn unit_sim_report_lines_handle_empty_run() {
    // Two empty rungs prove the per-rung fan-out: each rung emits its own labeled pair, so the
    // four-rung measurement set would produce eight lines.
    let lines = unit_sim_report_lines(&vec![
        rung("L0", SimReport::default(), Vec::new()),
        rung("L1", SimReport::default(), Vec::new()),
    ]);
    assert_eq!(
        lines,
        vec![
            "unit_sim cfg=L0 entries=0 retired_in_units=0 linked_transfers=0 loop_links=0 \
call_links=0 ret_links=0 itc_hits=0 ght_hits=0 ght_ret_hits=0 unresolved_exits=0 side_exits_io=0 \
side_exits_async=0 io_callouts=0 sim_invalidations=0 sim_restamps=0 units_built=0 units_rebuilt=0 \
elided_insns=0 elided_waits=0 wait_batch_ends=0 spin_noio_insns=0 insns_per_entry=0.000000 \
ipe_active=0.000000 ipe_active_slice=0.000000"
                .to_string(),
            "unit_sim_hist cfg=L0 units=0 members_p50=0 members_p90=0 members_max=0 units_over_64=0 \
units_over_128=0 units_over_256=0 excl_units=0"
                .to_string(),
            "unit_sim cfg=L1 entries=0 retired_in_units=0 linked_transfers=0 loop_links=0 \
call_links=0 ret_links=0 itc_hits=0 ght_hits=0 ght_ret_hits=0 unresolved_exits=0 side_exits_io=0 \
side_exits_async=0 io_callouts=0 sim_invalidations=0 sim_restamps=0 units_built=0 units_rebuilt=0 \
elided_insns=0 elided_waits=0 wait_batch_ends=0 spin_noio_insns=0 insns_per_entry=0.000000 \
ipe_active=0.000000 ipe_active_slice=0.000000"
                .to_string(),
            "unit_sim_hist cfg=L1 units=0 members_p50=0 members_p90=0 members_max=0 units_over_64=0 \
units_over_128=0 units_over_256=0 excl_units=0"
                .to_string(),
        ]
    );
}

#[test]
fn io_hist_lines_format_top_ports_descending() {
    // Already-sorted (count desc, port asc) input; the formatter emits `io_hist port=0xNNN count=...`
    // and caps at the top 16.
    let hist: Vec<(u16, u64)> = vec![(0x03da, 4000), (0x0061, 1200), (0x0388, 30)];
    let lines = io_hist_lines(&hist);
    assert_eq!(
        lines,
        vec![
            "io_hist port=0x03da count=4000".to_string(),
            "io_hist port=0x0061 count=1200".to_string(),
            "io_hist port=0x0388 count=30".to_string(),
        ]
    );

    // A run of 20 ports is capped at 16 lines.
    let many: Vec<(u16, u64)> = (0..20u16).map(|i| (i, 100 - u64::from(i))).collect();
    assert_eq!(io_hist_lines(&many).len(), 16);
}

/// The lines about slow reads, with the shares worked out as a run prints them.
fn slow_read_lines(
    pages: &Vec<(u32, u64)>,
    data_slow_reads: u64,
    misaligned: u64,
    seen: u64,
) -> Vec<String> {
    assert!(slow_reads_fit(pages));
    let total: u64 = pages.iter().map(|(_, count)| count).sum();
    let share = |part: u64, whole: u64| {
        let percent = if whole == 0 { 0.0 } else { part as f64 * 100.0 / whole as f64 };
        format!("{percent:.2}")
    };
    let percents: Vec<String> = slow_read_region_counts(pages)
        .into_iter()
        .map(|count| share(count, total))
        .collect();
    slow_read_histo_lines(
        pages,
        data_slow_reads,
        misaligned,
        seen,
        &percents,
        &share(misaligned, seen),
    )
}

#[test]
fn slow_read_histo_lines_split_the_low_megabyte_into_the_regions_n2_asks_about() {
    // One page in each of the five sub-megabyte regions plus one above 1 MiB, so every boundary of
    // the regions is exercised from BOTH sides by its neighbours: 0x9f/0xa0, 0xaf/0xb0,
    // 0xbf/0xc0, 0xef/0xf0 and 0xff/0x100. An off-by-one in any of them moves a whole region's
    // count.
    let pages: Vec<(u32, u64)> = vec![
        (0xa8, 500), // mode-Y aperture
        (0xd4, 300), // UMB / EMS page frame
        (0x9f, 100), // last conventional page
        (0xb8, 40),  // text
        (0xf0, 10),  // BIOS
        (0x100, 1),  // first page above 1 MiB
    ];
    let lines = slow_read_lines(&pages, 960, 900, 951);
    assert_eq!(
        lines[..6],
        [
            "slow_read_region conventional_00000_9FFFF count=100 pct=10.52",
            "slow_read_region vga_aperture_A0000_AFFFF count=500 pct=52.58",
            "slow_read_region text_B0000_BFFFF count=40 pct=4.21",
            "slow_read_region umb_ems_C0000_EFFFF count=300 pct=31.55",
            "slow_read_region bios_F0000_FFFFF count=10 pct=1.05",
            "slow_read_region above_1MiB count=1 pct=0.11",
        ]
    );
    assert_eq!(
        lines[6],
        "slow_read_page page=0x000a8 linear=0x000a8000 count=500"
    );
    assert_eq!(
        lines[lines.len() - 2],
        "slow_read_align misaligned=900 of=951 pct=94.64"
    );
    assert_eq!(
        lines.last().unwrap(),
        "slow_read_total bucketed=951 data_slow_reads=960 distinct_pages=6"
    );

    // A 40-page run prints the top 24 pages and no more; the six region lines and the total are
    // not part of that cap.
    let many: Vec<(u32, u64)> = (0..40u32).map(|i| (i, 100 - u64::from(i))).collect();
    assert_eq!(slow_read_lines(&many, 0, 0, 0).len(), 6 + 24 + 2);
}

#[test]
fn reads_beyond_a_count_do_not_fit() {
    assert!(!slow_reads_fit(&vec![(0, u64::MAX), (1, 1)]));
}

#[test]
fn a_percentile_is_the_nearest_rank() {
    let sorted: Vec<u64> = (1..=10).collect();
    assert_eq!(nearest_rank_percentile(&sorted, 50), 5);
    assert_eq!(nearest_rank_percentile(&sorted, 90), 9);
    assert_eq!(nearest_rank_percentile(&sorted, 91), 10);
    assert_eq!(nearest_rank_percentile(&sorted, 0), 1);
    assert_eq!(nearest_rank_percentile(&Vec::new(), 50), 0);
}

#[test]
fn a_timedemo_line_reads_back() {
    assert_eq!(extract_timedemo_realtics(&timedemo_line(2134, 4012)), Some((2134, 4012)));
    assert_eq!(
        extract_timedemo_realtics("junk\ntimed 5026 gametics in 2014 realtics\r\nmore"),
        Some((5026, 2014))
    );
    assert_eq!(extract_timedemo_realtics("no demo here"), None);
}

// ---------------------------------------------------------------------------
// The console
// ---------------------------------------------------------------------------

#[test]
fn where_the_guest_stands_is_printed() {
    assert_eq!(cs_ip_line(0xf000, 0x1_e05b), "CS:IP = F000:E05B");
    assert_eq!(boot_sector_line(&vec![Some(0xeb), None]), "0000:7C00 = EB --");
    assert!(boot_verdict(0x07c0).contains("outside the BIOS"));
    assert!(boot_verdict(0xf000).contains("still in the BIOS"));
}

#[test]
fn an_open_bus_is_reported_where_it_was_touched() {
    assert_eq!(open_bus_line(0, 0, &Vec::new()), None);
    assert_eq!(
        open_bus_line(2, 1, &vec![0x0300, 0x03f6]).unwrap(),
        "open-bus: 2 read(s), 1 write(s) across 2 port(s): 0x0300 0x03f6"
    );
}

#[test]
fn a_serial_text_ends_its_line() {
    assert_eq!(com1_text(""), "");
    assert_eq!(com1_text("hi"), "--- COM1 ---\nhi\n");
    assert_eq!(com1_text("hi\n"), "--- COM1 ---\nhi\n");
}

#[test]
fn a_result_block_names_the_registers() {
    let regs = Registers { eax: 0x4c00, cs: 0x1234, eip: 0x56, ..Registers::default() };
    let lines = dump_result_lines("Halted", &regs, "C:\\>");
    assert_eq!(lines[0], "--- BEGIN RESULT ---");
    assert_eq!(lines[1], "stop: Halted");
    assert_eq!(lines[2], "CS:IP = 1234:0056");
    assert!(lines[3].starts_with("EAX=00004C00 EBX=00000000"), "{}", lines[3]);
    let block = line_block(&lines);
    assert!(block.ends_with('\n'));
    assert_eq!(block.lines().count(), lines.join("\n").lines().count());
}

#[test]
fn sampled_addresses_are_a_table() {
    assert_eq!(
        sampled_addresses_text(64, &vec![(0x1000, 3)]),
        "# sample_stride=64 rows=1\nlinear_hex,samples\n00001000,3\n"
    );
    assert_eq!(
        device_edge_cache_line(10, 40, "75.00"),
        "device-edge cache: 10 scans over 40 batch entries (75.00% served from cache)"
    );
}

// ---------------------------------------------------------------------------
// Order
// ---------------------------------------------------------------------------

#[test]
fn pairs_are_sorted_and_tallied() {
    let list = vec![(2, 1), (1, 9), (2, 0), (1, 9)];
    assert_eq!(sort_pairs(&list), vec![(1, 9), (1, 9), (2, 0), (2, 1)]);
    assert_eq!(
        tally(&list),
        vec![((1, 9), 2), ((2, 0), 1), ((2, 1), 1)]
    );
    let backward: Vec<(u64, u64)> = list.iter().rev().copied().collect();
    assert_eq!(tally(&backward), tally(&list));
}
