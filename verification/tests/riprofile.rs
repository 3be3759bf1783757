//! The sampling profiler's decisions, its counts and its report.

use std::time::Duration;

use izarravm::ranking::{sums_by_number, Charges};
use izarravm::rip_report::{
    inline_chain, profile_fits, profile_report, render_inline_views, sums_fit, symbol_health,
    AddressInfo, Frame, FrameAnswer, Piece,
};
use izarravm::riprofile::{
    achieved_interval, beyond_extent, conservation_mismatch, count_addresses, count_phases,
    exe_directory, report_is_due, sample_rate_line, sidecar_path, sidecar_text, site_text,
    symbols_are_trustworthy, Symbol,
};

fn wide(s: &str) -> Vec<u16> {
    s.encode_utf16().collect()
}

fn narrow(w: &[u16]) -> String {
    String::from_utf16_lossy(w)
}

fn symbol(name: &str, displacement: u64, size: u32) -> Symbol {
    Symbol {
        name: name.to_string(),
        quoted: format!("{name:?}"),
        displacement,
        size,
    }
}

#[test]
fn directory_is_the_path_up_to_the_last_separator_nul_terminated() {
    let dir = exe_directory(&wide(r"D:\dev\IzarraVM\target\profiling\izarravm.exe"))
        .expect("a normal exe path has a directory");
    assert_eq!(*dir.last().expect("non-empty"), 0, "must be NUL-terminated");
    assert_eq!(
        narrow(&dir[..dir.len() - 1]),
        r"D:\dev\IzarraVM\target\profiling"
    );
}

#[test]
fn forward_slashes_are_accepted_too() {
    let dir = exe_directory(&wide("D:/dev/IzarraVM/target/release/izarravm.exe"))
        .expect("a forward-slash path still has a directory");
    assert_eq!(
        narrow(&dir[..dir.len() - 1]),
        "D:/dev/IzarraVM/target/release"
    );
}

#[test]
fn a_path_with_no_directory_falls_back_to_dbghelps_default() {
    // No separator at all, and a separator at index 0 (a root-relative path whose
    // directory would be the empty string). Both must yield None so the caller
    // passes NULL rather than an empty search path, which dbghelp would treat as
    // a real, and wrong, search path.
    assert!(exe_directory(&wide("izarravm.exe")).is_none());
    assert!(exe_directory(&wide(r"\izarravm.exe")).is_none());
    assert!(exe_directory(&[]).is_none());
}

#[test]
fn a_zero_recorded_size_is_not_evidence_of_misattribution() {
    // The PDB carried no extent for the symbol; a displacement past nothing
    // proves nothing.
    assert!(!beyond_extent(0x40, 0));
}

#[test]
fn beyond_extent_is_displacement_at_or_past_the_recorded_size() {
    // A function of size S occupies [start, start+S): the last in-extent byte
    // is at displacement S-1 and displacement S is already the gap after it.
    assert!(!beyond_extent(0x3f, 0x40));
    assert!(beyond_extent(0x40, 0x40));
    assert!(beyond_extent(0x1000, 0x40));
}

#[test]
fn a_loaded_pdb_with_line_numbers_is_trustworthy() {
    assert!(symbols_are_trustworthy(3, 1));
}

#[test]
fn anything_but_a_loaded_pdb_with_lines_is_refused() {
    // SymDeferred (5) never resolved to a PDB at all.
    assert!(!symbols_are_trustworthy(5, 0));
    // SymNone: no symbols loaded.
    assert!(!symbols_are_trustworthy(0, 1));
    // SymType claims Pdb but no line numbers -- a stripped or mismatched PDB.
    assert!(!symbols_are_trustworthy(3, 0));
}

/// A report needs samples, the module and its symbols, all of them.
#[test]
fn a_report_is_due_on_samples_and_symbols() {
    assert!(report_is_due(1, true, 3, 1));
    assert!(!report_is_due(0, true, 3, 1));
    assert!(!report_is_due(1, false, 3, 1));
    assert!(!report_is_due(1, true, 5, 1));
    assert!(!report_is_due(1, true, 3, 0));
}

#[test]
fn achieved_interval_matches_the_nascar_anchor() {
    // 33,499 samples over a 34.952s steady-state window is 1.0434 ms/sample, 2.09x
    // the nominal 500us. `n` samples span `n-1` gaps, so the window divides by 33,498.
    let window = Duration::from_secs_f64(34.952);
    let interval = achieved_interval(33_499, window.as_nanos() as u64).expect("more than one sample");
    let ms = Duration::from_nanos(interval).as_secs_f64() * 1000.0;
    assert!(
        (ms - 1.0434).abs() < 0.001,
        "got {ms} ms/sample, want ~1.0434"
    );
    assert_eq!(interval, 1_043_405);
}

#[test]
fn achieved_interval_is_none_for_fewer_than_two_samples() {
    let second = Duration::from_secs(1).as_nanos() as u64;
    assert!(achieved_interval(0, second).is_none());
    assert!(achieved_interval(1, second).is_none());
}

#[test]
fn sample_rate_line_states_both_achieved_and_requested() {
    let window = Duration::from_secs_f64(34.952);
    let interval = Duration::from_secs_f64(0.0010434);
    let line = sample_rate_line(
        33_499,
        Some(&format!("{:.3}", window.as_secs_f64())),
        Some(&format!("{:.3}", interval.as_secs_f64() * 1000.0)),
    );
    assert!(line.contains("33499 samples"), "{line}");
    assert!(line.contains("34.952s"), "{line}");
    assert!(line.contains("1.043ms/sample achieved"), "{line}");
    assert!(line.contains("500\u{b5}s requested"), "{line}");
    assert!(
        line.contains("1.043ms") && line.contains("500\u{b5}s") && !line.contains("1.043\u{b5}s"),
        "{line}"
    );
}

#[test]
fn sample_rate_line_handles_fewer_than_two_samples() {
    let line = sample_rate_line(1, None, None);
    assert!(line.contains("fewer than 2 samples"), "{line}");
    assert!(line.contains("requested"), "{line}");
}

/// The rows of a sidecar as an address, a phase and a count each.
fn parse_sidecar(text: &str) -> Vec<(u64, u32, u64)> {
    text.lines()
        .filter(|line| !line.starts_with('#') && !line.trim().is_empty())
        .filter_map(|line| {
            let mut parts = line.split(',');
            let rip = u64::from_str_radix(parts.next()?.trim_start_matches("0x"), 16).ok()?;
            let phase = parts.next()?.parse().ok()?;
            let count = parts.next()?.parse().ok()?;
            Some((rip, phase, count))
        })
        .collect()
}

/// Samples that hold an address in a phase so many times.
fn repeated(list: &[(u64, u32, u64)]) -> Vec<(u64, u32)> {
    let mut samples = Vec::new();
    for &(rip, phase, count) in list {
        for _ in 0..count {
            samples.push((rip, phase));
        }
    }
    samples
}

#[test]
fn the_counts_of_a_run_add_up_to_it() {
    let samples = repeated(&[(0x10, 0, 4), (0x10, 1, 2), (0x20, 1, 3), (0x08, 2, 1)]);
    let by_address: u64 = count_addresses(&samples).iter().map(|row| row.1).sum();
    let by_phase: u64 = count_phases(&samples).iter().map(|row| row.1).sum();
    assert_eq!(by_address, 10);
    assert_eq!(by_phase, 10);
}

#[test]
fn two_runs_with_other_counts_have_other_sidecars() {
    let one = sidecar_text(0, &repeated(&[(0x1, 2, 3), (0x12, 3, 1)]));
    let other = sidecar_text(0, &repeated(&[(0x12, 2, 3), (0x1, 3, 1)]));
    assert_ne!(one, other);
    assert!(one.ends_with("0x1,2,3\n0x12,3,1\n"));
}

#[test]
fn sidecar_round_trips_rip_phase_count_triples() {
    let mut want = vec![
        (0x1400_1000u64, 0u32, 3u64),
        (0x1400_2000u64, 0u32, 7u64),
        (0x1400_1000u64, 1u32, 5u64),
    ];
    let text = sidecar_text(0x1400_0000, &repeated(&want));

    let mut got = parse_sidecar(&text);
    got.sort();
    want.sort();
    assert_eq!(got, want);
}

#[test]
fn sidecar_header_carries_the_module_base_as_a_comment() {
    let text = sidecar_text(0x1400_0000, &Vec::new());
    assert!(text.contains("module_base=0x14000000"), "{text}");
    // Comment lines must not be mistaken for data rows.
    assert!(parse_sidecar(&text).is_empty());
}

#[test]
fn a_sidecar_lists_phases_then_addresses() {
    let text = sidecar_text(0x10, &vec![(0x30, 1), (0x20, 1), (0x30, 0), (0x20, 1)]);
    assert_eq!(
        text,
        "# riprofile raw samples v1\n# module_base=0x10\n# rip_hex,phase,count\n\
         0x30,0,1\n0x20,1,2\n0x30,1,1\n"
    );
}

#[test]
fn sidecar_path_is_the_report_path_with_a_samples_suffix() {
    assert_eq!(sidecar_path(r"D:\out\quake-rip.txt"), r"D:\out\quake-rip.txt.samples");
}

#[test]
fn conservation_mismatch_is_none_when_both_sides_agree() {
    let a = Some(symbol("run_until_tick", 0x10, 0x100));
    let b = Some(symbol("run_until_tick", 0x10, 0x100));
    assert_eq!(conservation_mismatch(&a, &b), None);
}

#[test]
fn conservation_mismatch_is_none_when_both_sides_are_unresolved() {
    assert_eq!(conservation_mismatch(&None, &None), None);
}

#[test]
fn conservation_mismatch_catches_a_name_disagreement() {
    let old = Some(symbol("run_until_tick", 0x10, 0x100));
    let new = Some(symbol("run_budgeted", 0x10, 0x100));
    assert!(conservation_mismatch(&old, &new).is_some());
    // Whichever side is asked first, the two disagree.
    assert!(conservation_mismatch(&new, &old).is_some());
}

#[test]
fn conservation_mismatch_catches_a_resolved_state_disagreement() {
    // One side found a symbol, the other did not -- e.g. a fabricated frame
    // on an unresolvable address, or a swallowed BOOL failure.
    let old = Some(symbol("run_until_tick", 0x10, 0x100));
    assert!(conservation_mismatch(&old, &None).is_some());
    assert!(conservation_mismatch(&None, &old).is_some());
}

#[test]
fn conservation_mismatch_catches_a_beyond_extent_disagreement() {
    // Same name, but one side reports the address inside the symbol's
    // recorded extent and the other reports it past the end -- e.g. a wrong
    // context base shifting the displacement.
    let old = Some(symbol("f", 0x40, 0x40)); // at the boundary: beyond
    let new = Some(symbol("f", 0x3f, 0x40)); // one byte short: in-extent
    assert!(conservation_mismatch(&old, &new).is_some());
}

#[test]
fn a_site_is_a_file_name_and_a_line() {
    assert_eq!(site_text(r"D:\dev\src\run.rs", 12), "run.rs:12");
    assert_eq!(site_text("/src/run.rs", 7), "run.rs:7");
    assert_eq!(site_text("run.rs", 1), "run.rs:1");
}

#[test]
fn samples_are_counted_by_address_and_by_phase() {
    let samples = vec![(0x30, 1), (0x20, 0), (0x30, 0), (0x30, 1)];
    assert_eq!(count_addresses(&samples), vec![(0x20, 1), (0x30, 3)]);
    assert_eq!(
        count_phases(&samples),
        vec![((0, 0x20), 1), ((0, 0x30), 1), ((1, 0x30), 2)]
    );
}

/// The heaviest name first, equal ones by name, and the same whatever the order of the
/// charges.
#[test]
fn a_ranking_does_not_depend_on_the_order_of_its_charges() {
    let list = [("b", 2), ("a", 2), ("c", 9), ("b", 1)];
    let mut forward = Charges::new();
    for (name, n) in list {
        forward.charge(name, "", n);
    }
    let mut backward = Charges::new();
    for (name, n) in list.iter().rev() {
        backward.charge(name, "", *n);
    }
    let names: Vec<(String, u64)> =
        forward.ranked().into_iter().map(|row| (row.name, row.charge)).collect();
    assert_eq!(
        names,
        vec![("c".to_string(), 9), ("b".to_string(), 3), ("a".to_string(), 2)]
    );
    assert_eq!(forward.ranked(), backward.ranked());
}

#[test]
fn sums_stand_in_the_order_of_their_numbers() {
    assert_eq!(
        sums_by_number(&vec![(3, 5), (1, 2), (3, 1), (0, 0)]),
        vec![(0, 0), (1, 2), (3, 6)]
    );
}

fn frame(name: &str, site: &str) -> Frame {
    Frame { name: name.to_string(), site: site.to_string() }
}

fn info(rip: u64, symbol_of: Option<Symbol>, physical: Option<Symbol>, chain: Vec<Frame>) -> AddressInfo {
    AddressInfo {
        rip,
        symbol: symbol_of,
        line: Some("run.rs:12".to_string()),
        physical,
        chain,
    }
}

fn answer(name: Option<&str>, line: Option<&str>) -> FrameAnswer {
    FrameAnswer {
        name: name.map(str::to_string),
        line: line.map(str::to_string),
    }
}

/// A frame that nothing names is left out, and one without a line says so.
#[test]
fn an_inline_chain_holds_the_frames_that_have_a_name() {
    let chain = inline_chain(&vec![
        answer(Some("inner"), Some("a.rs:1")),
        answer(Some("outer"), None),
        answer(None, Some("c.rs:3")),
        answer(Some("outermost"), Some("d.rs:4")),
    ]);
    assert_eq!(
        chain,
        vec![
            frame("inner", "a.rs:1"),
            frame("outer", "outer (no line info)"),
            frame("outermost", "d.rs:4"),
        ]
    );
}

/// A report's pieces as one text, shares as a percentage.
fn rendered(pieces: &[Piece]) -> String {
    let mut text = String::new();
    for piece in pieces {
        match piece {
            Piece::Text(words) => text.push_str(words),
            Piece::Share { part, whole, places, width } => {
                let share = *part as f64 * 100.0 / (*whole).max(1) as f64;
                text.push_str(&format!(
                    "{share:>width$.places$}",
                    width = *width as usize,
                    places = *places as usize
                ));
            }
        }
    }
    text
}

fn infos() -> Vec<AddressInfo> {
    vec![
        info(
            0x1400_1000,
            Some(symbol("batch", 0x10, 0x100)),
            Some(symbol("batch", 0x10, 0x100)),
            vec![frame("fetch", "fetch.rs:3")],
        ),
        info(0x1400_2000, Some(symbol("gap", 0x40, 0x20)), Some(symbol("other", 0x40, 0x20)), Vec::new()),
        info(0x7000_0000, None, None, Vec::new()),
    ]
}

fn samples() -> Vec<(u64, u32)> {
    repeated(&[(0x1400_1000, 0, 5), (0x1400_2000, 0, 3), (0x7000_0000, 1, 2)])
}

#[test]
fn the_health_of_the_symbols_is_counted() {
    let counts = count_addresses(&samples());
    assert!(sums_fit(&counts, &infos()));
    let health = symbol_health(&counts, &infos());
    assert_eq!(health.unresolved_addresses, 1);
    assert_eq!(health.unresolved_samples, 2);
    assert_eq!(health.beyond_samples, 3);
    assert_eq!(health.mismatches.len(), 1);
    assert_eq!(health.mismatches[0].0, 0x1400_2000);
}

#[test]
fn a_report_has_its_heading_tables_and_phases() {
    assert!(profile_fits(&samples(), &infos()));
    let pieces = profile_report(
        &samples(),
        &infos(),
        0x1400_0000,
        "10 samples",
        &vec![(1, "play".to_string())],
    );
    let text = rendered(&pieces);
    assert!(
        text.starts_with(
            "riprofile report \u{2014} 10 samples (3 unique addresses, 1 unresolved carrying 20.00% \
             of samples, 30.00% of samples beyond their symbol's recorded extent)\n\n"
        ),
        "{text}"
    );
    assert!(text.contains("== CONSERVATION CHECK: FAILED -- 1 of 3 addresses"), "{text}");
    assert!(text.contains(" 50.000%          5  batch\n"), "{text}");
    assert!(text.contains("== BEYOND-EXTENT \u{2014} 30.00% of samples"), "{text}");
    assert!(
        text.contains("0x000014002000  rva 0x000002000  +0x40 past gap (size 0x20)\n"),
        "{text}"
    );
    assert!(
        text.contains("################ PHASE 0 (unnamed) \u{2014} 8 samples, 80.00% of the run"),
        "{text}"
    );
    assert!(
        text.contains("################ PHASE 1 (play) \u{2014} 2 samples, 20.00% of the run"),
        "{text}"
    );
}

/// The frame that was inlined is charged in place of the function that holds it.
#[test]
fn the_innermost_frame_is_charged() {
    let counts = count_addresses(&samples());
    let text = rendered(&render_inline_views(&counts, &infos()));
    assert!(text.contains(" 50.000%          5  fetch  (fetch.rs:3)\n"), "{text}");
    assert!(text.contains("depth 1"), "{text}");
}

/// Every table charges each sample once.
#[test]
fn a_column_charges_every_sample() {
    let pieces = render_inline_views(&count_addresses(&samples()), &infos());
    let mut sum: u64 = 0;
    let mut tables = 0;
    for piece in &pieces {
        match piece {
            Piece::Text(words) => {
                if words.starts_with("== ") {
                    tables += 1;
                }
            }
            Piece::Share { part, whole, .. } => {
                assert_eq!(*whole, 10);
                if tables == 1 {
                    sum += part;
                }
            }
        }
    }
    assert_eq!(sum, 10);
}

/// The rows of a ranking and of a table add up to what went into them.
#[test]
fn rankings_and_tables_add_up() {
    let mut charges = Charges::new();
    charges.charge("b", "", 4);
    charges.charge("a", "x", 7);
    charges.charge("b", "", 5);
    let rows = charges.ranked();
    assert_eq!(rows.iter().map(|row| row.charge).sum::<u64>(), 16);
    assert_eq!((rows[0].name.as_str(), rows[0].charge), ("b", 9));
    let table = sums_by_number(&vec![(3, 5), (1, 2), (3, 1)]);
    assert_eq!(table.iter().map(|row| row.1).sum::<u64>(), 8);
}
