//! The audio observers, the slices of a run, and the run with scheduled input.

use izarravm::audio::{
    fold_audio_frames, parse_audio_cost_mode, parse_audio_cost_slice_ms, resolve_audio_sink_from,
    wav_bytes, AudioCapture, AudioError, AudioFinish, AudioSinkMode, AUDIO_CAPTURE_SLICE_MS,
};
use izarravm::inject::merged_injections;
use izarravm::run::{cycles_run, slice_for, Action, InjectionRun, Input, Pace, SlicedRun};
use izarravm::stop::StopReason;

/// Guest cycles in a second.
const CLOCK_HZ: u64 = 33_000_000;

/// The samples that are due after so many cycles.
fn samples_due(cycles: u64) -> u64 {
    cycles * 49_716 / CLOCK_HZ
}

/// A mix that is never silent and never varies.
fn mix(samples: u64) -> Vec<(i16, i16)> {
    (0..samples).map(|i| (i as i16 + 1, -(i as i16) - 2)).collect()
}

fn capture(mode: AudioSinkMode) -> AudioCapture {
    AudioCapture::new(mode, CLOCK_HZ / 100, AUDIO_CAPTURE_SLICE_MS, false)
}

/// Run a guest that never stops for so many cycles, with an observer that looks after
/// every slice; returns the cycles that were run.
fn run_sliced(cycles: u64, observer: &mut AudioCapture) -> u64 {
    let mut run = SlicedRun::new(cycles, slice_for(Some(observer.slice), None));
    let mut ran = 0;
    while let Some(slice) = run.next() {
        run.ran(slice, StopReason::CycleLimit { requested: slice });
        ran += slice;
        assert!(observer.room());
        if let Some(samples) = observer.window(samples_due(slice)) {
            observer.take(&mix(samples), 10);
        }
    }
    ran
}

fn leg(mode: AudioSinkMode, slices: u32) -> (AudioCapture, u64) {
    let mut observer = capture(mode);
    let mut ran = 0;
    for _ in 0..slices {
        ran += run_sliced(CLOCK_HZ / 100, &mut observer);
    }
    (observer, ran)
}

fn leg_in_one_call(mode: AudioSinkMode, slices: u64) -> AudioCapture {
    let mut observer = capture(mode);
    let cycles = observer.slice * slices;
    assert_eq!(run_sliced(cycles, &mut observer), cycles);
    observer
}

#[test]
fn audio_capture_observes_every_advance_and_paces_by_cycles_run() {
    // Ten advances of one guest millisecond each -- shorter than the capture's
    // own 10 ms slice, which is what an injection burst looks like.
    let mut observer = capture(AudioSinkMode::Wav("capture.wav".to_string()));
    let per_advance = CLOCK_HZ / 1_000;
    let mut spent = 0;
    for _ in 0..10 {
        spent += run_sliced(per_advance, &mut observer);
    }
    assert_eq!(spent, per_advance * 10);
    assert_eq!(observer.windows, 10);
    let frames = observer.pcm.len();
    assert_eq!(frames as u64, 10 * samples_due(per_advance));
    match observer.finish() {
        AudioFinish::Write { file, line } => {
            assert_eq!(&file[..4], b"RIFF");
            assert_eq!(file.len(), 44 + frames * 4);
            assert_eq!(line, "audio capture: wrote capture.wav");
        }
        AudioFinish::Report(line) => panic!("a capture is written, not reported: {line}"),
    }
}

#[test]
fn the_audio_wav_capture_writes_distinct_left_and_right_channels() {
    // Hard-panned left, then hard-panned right, then a distinct pair.
    let pcm = vec![(20_000i16, 0i16), (0, -20_000), (1234, -5678)];
    let bytes = wav_bytes(&pcm, 44_100);

    assert_eq!(&bytes[0..4], b"RIFF");
    assert_eq!(&bytes[8..12], b"WAVE");
    assert_eq!(
        u16::from_le_bytes([bytes[22], bytes[23]]),
        2,
        "the capture must declare two channels"
    );
    assert_eq!(
        u16::from_le_bytes([bytes[32], bytes[33]]),
        4,
        "block align must be 4 bytes: two 16-bit channels per frame"
    );
    assert_eq!(
        u32::from_le_bytes([bytes[40], bytes[41], bytes[42], bytes[43]]),
        (pcm.len() * 4) as u32,
        "the data chunk must hold both channels of every frame"
    );

    let frames: Vec<(i16, i16)> = bytes[44..]
        .chunks_exact(4)
        .map(|f| {
            (
                i16::from_le_bytes([f[0], f[1]]),
                i16::from_le_bytes([f[2], f[3]]),
            )
        })
        .collect();
    assert_eq!(
        frames, pcm,
        "the capture must round-trip each channel untouched -- no downmix, no \
         channel dropped, no reordering"
    );
}

#[test]
fn audio_cost_mode_parse_is_pinned() {
    assert_eq!(parse_audio_cost_mode("count").unwrap(), AudioSinkMode::Count);
    assert_eq!(
        parse_audio_cost_mode("  COUNT \n").unwrap(),
        AudioSinkMode::Count,
        "a value that arrived with whitespace or in another case is still a mode"
    );
    assert_eq!(parse_audio_cost_mode("off").unwrap(), AudioSinkMode::Skip);
    assert_eq!(
        parse_audio_cost_mode("skip").unwrap(),
        AudioSinkMode::Skip,
        "`skip` names the sink, `off` names the leg; both must reach the control leg"
    );
    for typo in ["on", "1", "true", "counting", "wav", ""] {
        assert!(
            parse_audio_cost_mode(typo).is_err(),
            "{typo:?} must not silently resolve to a mode"
        );
    }
    // The label is what the ladder greps out of the report line.
    assert_eq!(AudioSinkMode::Count.label(), "count");
    assert_eq!(AudioSinkMode::Skip.label(), "off");

    // An empty variable is an UNSET variable, in both directions.
    assert_eq!(resolve_audio_sink_from(None, None).unwrap(), None);
    assert_eq!(
        resolve_audio_sink_from(Some(String::new()), Some(String::new())).unwrap(),
        None
    );
    assert_eq!(
        resolve_audio_sink_from(None, Some("count".into())).unwrap(),
        Some(AudioSinkMode::Count)
    );
    assert_eq!(
        resolve_audio_sink_from(Some("out.wav".into()), None).unwrap(),
        Some(AudioSinkMode::Wav("out.wav".to_string()))
    );
    // Two observers of the same call, and one would silently win.
    assert!(resolve_audio_sink_from(Some("out.wav".into()), Some("count".into())).is_err());

    assert_eq!(parse_audio_cost_slice_ms(None).unwrap(), 10);
    assert_eq!(
        parse_audio_cost_slice_ms(Some(String::new())).unwrap(),
        AUDIO_CAPTURE_SLICE_MS
    );
    assert_eq!(parse_audio_cost_slice_ms(Some("1".into())).unwrap(), 1);
    assert!(parse_audio_cost_slice_ms(Some("0".into())).is_err());
    assert!(parse_audio_cost_slice_ms(Some("ten".into())).is_err());
}

#[test]
fn every_audio_fault_is_named() {
    assert_eq!(
        parse_audio_cost_mode("On").unwrap_err(),
        AudioError::UnknownMode("on".to_string())
    );
    assert_eq!(
        resolve_audio_sink_from(Some("a".into()), Some("count".into())).unwrap_err(),
        AudioError::BothSet
    );
    assert_eq!(
        parse_audio_cost_slice_ms(Some("ten".into())).unwrap_err(),
        AudioError::BadSlice("ten".to_string())
    );
}

#[test]
fn a_fault_says_what_is_wrong_with_the_settings() {
    let unknown = parse_audio_cost_mode("On").unwrap_err();
    assert_eq!(unknown.given(), "on");
    assert_eq!(
        unknown.message("\"on\""),
        "IZARRAVM_AUDIO_COST: unknown mode \"on\" (expected `count` or `off`)"
    );
    let both = resolve_audio_sink_from(Some("a".into()), Some("count".into())).unwrap_err();
    assert_eq!(both.given(), "");
    assert_eq!(
        both.message(""),
        "IZARRAVM_AUDIO_WAV and IZARRAVM_AUDIO_COST are both set; they are different observers \
         of the same call and one would silently win"
    );
    let slice = parse_audio_cost_slice_ms(Some("ten".into())).unwrap_err();
    assert_eq!(slice.given(), "ten");
    assert_eq!(
        slice.message("\"ten\""),
        "IZARRAVM_AUDIO_COST_SLICE_MS: expected a positive integer, got \"ten\""
    );
}

#[test]
fn audio_cost_count_leg_folds_a_deterministic_mix_and_writes_nothing() {
    let (first, _) = leg(AudioSinkMode::Count, 5);
    assert!(first.windows > 0, "the observer never ran a window");
    assert!(first.out_frames > 0, "the mix returned no frames");
    assert_ne!(first.checksum, 0);
    assert!(
        first.pcm.is_empty(),
        "the counting sink must not retain one frame"
    );

    let (second, _) = leg(AudioSinkMode::Count, 5);
    assert_eq!(
        (second.windows, second.native_samples, second.out_frames),
        (first.windows, first.native_samples, first.out_frames),
        "the same guest work must ask for the same windows"
    );
    assert_eq!(second.checksum, first.checksum);

    match first.finish() {
        AudioFinish::Report(line) => assert_eq!(line, first.cost_report()),
        AudioFinish::Write { line, .. } => panic!("a count writes nothing: {line}"),
    }
    let report = first.cost_report();
    assert!(
        report.starts_with("audio cost: mode=count pacing=guest slice_ms=10 windows="),
        "unexpected report line: {report}"
    );
    assert!(report.contains(&format!("out_frames={}", first.out_frames)));
    assert!(report.contains("render_ns="));
}

#[test]
fn audio_cost_count_leg_folds_exactly_what_the_wav_capture_records() {
    let (wav, _) = leg(AudioSinkMode::Wav("parity.wav".to_string()), 5);
    let (count, _) = leg(AudioSinkMode::Count, 5);
    assert!(!wav.pcm.is_empty(), "the WAV leg captured nothing");
    assert_eq!(count.out_frames, wav.pcm.len() as u64);
    assert_eq!(
        (count.windows, count.native_samples),
        (wav.windows, wav.native_samples),
        "the two sinks did not ask for the same windows"
    );
    assert_eq!(
        count.checksum,
        fold_audio_frames(0, &wav.pcm),
        "the counting sink folded a different mix than the WAV capture recorded"
    );
}

#[test]
fn audio_cost_counts_one_window_per_slice_inside_a_single_advance() {
    let armed = leg_in_one_call(AudioSinkMode::Count, 5);
    let control = leg_in_one_call(AudioSinkMode::Skip, 5);

    assert_eq!(armed.windows, 5, "five slices must render five windows");
    assert_eq!(
        control.windows, 5,
        "the control leg must subdivide identically, or the pair measures slicing"
    );
    assert_eq!(armed.native_samples, control.native_samples);
    assert!(armed.out_frames > 0);
    assert_eq!(control.out_frames, 0);
}

#[test]
fn audio_cost_skip_leg_slices_identically_and_renders_nothing() {
    let (count, count_ran) = leg(AudioSinkMode::Count, 5);
    let (skip, skip_ran) = leg(AudioSinkMode::Skip, 5);

    assert_eq!(
        (skip.windows, skip.native_samples),
        (count.windows, count.native_samples),
        "the control leg must compute the identical window it declines to render"
    );
    assert_eq!(skip.out_frames, 0, "the control leg must not render");
    assert_eq!(skip.checksum, 0);
    assert_eq!(
        skip.render_ns, 0,
        "no render happened, so no render time can have been spent"
    );
    assert!(skip.pcm.is_empty());
    assert_eq!(skip_ran, count_ran, "the legs did not simulate the same guest time");

    assert!(
        skip.cost_report()
            .starts_with("audio cost: mode=off pacing=guest slice_ms=10 windows="),
        "unexpected report line: {}",
        skip.cost_report()
    );
    assert!(skip
        .cost_report()
        .contains("out_frames=0 checksum=0x0000000000000000"));
}

/// Folding two runs of frames one after the other folds them all.
#[test]
fn a_fold_goes_on_where_it_stopped() {
    let all = mix(9);
    let first: Vec<(i16, i16)> = all[..4].to_vec();
    let rest: Vec<(i16, i16)> = all[4..].to_vec();
    assert_eq!(
        fold_audio_frames(fold_audio_frames(0, &first), &rest),
        fold_audio_frames(0, &all)
    );
}

// ---------------------------------------------------------------------------
// Slices
// ---------------------------------------------------------------------------

#[test]
fn the_shorter_slice_paces_a_run() {
    assert_eq!(slice_for(None, None), None);
    assert_eq!(slice_for(Some(5), None), Some(5));
    assert_eq!(slice_for(None, Some(7)), Some(7));
    assert_eq!(slice_for(Some(9), Some(7)), Some(7));
}

/// With no observer the run is one advance; with one it is cut, and nothing is lost.
#[test]
fn slices_add_up_to_the_run() {
    let mut whole = SlicedRun::new(25, None);
    assert_eq!(whole.next(), Some(25));
    whole.ran(25, StopReason::CycleLimit { requested: 25 });
    assert_eq!(whole.next(), None);
    assert_eq!(whole.spent, 25);

    let mut cut = SlicedRun::new(25, Some(10));
    let mut slices = Vec::new();
    while let Some(cycles) = cut.next() {
        slices.push(cycles);
        cut.ran(cycles, StopReason::CycleLimit { requested: cycles });
    }
    assert_eq!(slices, vec![10, 10, 5]);
    assert_eq!(cut.spent, 25);
}

/// A guest that stops ends the run there.
#[test]
fn a_stop_ends_the_slices() {
    let mut run = SlicedRun::new(25, Some(10));
    assert_eq!(run.next(), Some(10));
    run.ran(7, StopReason::Halted);
    assert_eq!(run.next(), None);
    assert_eq!(run.stop, StopReason::Halted);
    assert_eq!(run.spent, 7);
}

/// A stretch that is not cut counts what was run of it, not what was asked for.
#[test]
fn a_stretch_that_ends_early_counts_what_was_run() {
    let mut run = SlicedRun::new(1_000, None);
    assert_eq!(run.next(), Some(1_000));
    run.ran(400, StopReason::TestExit { code: 0 });
    assert_eq!(run.next(), None);
    assert_eq!(run.stop, StopReason::TestExit { code: 0 });
    assert_eq!(run.spent, 400);

    let mut second = SlicedRun::new(25, Some(10));
    second.ran(10, StopReason::CycleLimit { requested: 10 });
    assert_eq!(second.next(), Some(10));
    second.ran(3, StopReason::Halted);
    assert_eq!((second.next(), second.spent), (None, 13));
}

/// What was run is what was asked for, unless the guest stopped for good before that.
#[test]
fn the_clock_tells_what_an_early_stop_left() {
    assert_eq!(cycles_run(100, 40, &StopReason::Halted), 40);
    assert_eq!(cycles_run(100, 104, &StopReason::Halted), 100);
    assert_eq!(cycles_run(100, 104, &StopReason::CycleLimit { requested: 100 }), 100);
    assert_eq!(cycles_run(100, 99, &StopReason::CycleLimit { requested: 100 }), 100);
}

// ---------------------------------------------------------------------------
// Scheduled input
// ---------------------------------------------------------------------------

const PACE: Pace = Pace { key: 2_000, packet: 5_000, click: 100_000 };

/// What a run does, and the stop that it ends with.
fn played(keys: Option<&str>, mouse: Option<&str>, budget: u64) -> (Vec<String>, u64) {
    let mut run = InjectionRun::new(merged_injections(keys, mouse).unwrap(), budget, PACE);
    let mut log = Vec::new();
    loop {
        match run.next() {
            Action::Run(cycles) => {
                log.push(format!("run {cycles}"));
                run.told(cycles, StopReason::CycleLimit { requested: cycles });
            }
            Action::Give(Input::Key(code)) => log.push(format!("key {code:02x}")),
            Action::Give(Input::Mouse(packet)) => {
                log.push(format!("mouse {},{},{}", packet.dx, packet.dy, packet.buttons))
            }
            Action::Proceed => {}
            Action::Fail(error) => {
                log.push(format!("fail {error:?}"));
                break;
            }
            Action::Finished => break,
        }
    }
    (log, run.spent())
}

/// A key goes down and up at its offset, each edge with its pause, and the run ends at
/// its budget.
#[test]
fn a_key_is_given_at_its_offset() {
    let (log, spent) = played(Some("10000:a"), None, 50_000);
    assert_eq!(log[..3], ["run 10000", "key 1e", "run 2000"]);
    assert!(log.contains(&"key 9e".to_string()));
    assert_eq!(spent, 50_000);
}

#[test]
fn a_click_is_held() {
    let (log, spent) = played(None, Some("1000:click"), 300_000);
    assert_eq!(
        log[..4],
        ["run 1000", "mouse 0,0,1", "run 100000", "mouse 0,0,0"]
    );
    assert_eq!(spent, 300_000);
}

#[test]
fn a_bad_key_text_ends_the_run() {
    let (log, _) = played(Some("10:{nosuchkey}"), None, 50_000);
    assert_eq!(log.last().unwrap(), "fail UnknownKey(\"nosuchkey\")");
}

/// A guest that stops is given nothing more.
#[test]
fn a_stopped_guest_is_given_nothing() {
    let steps = merged_injections(Some("100:a"), None).unwrap();
    let mut run = InjectionRun::new(steps, 1_000, PACE);
    assert_eq!(run.next(), Action::Run(100));
    run.told(40, StopReason::DosExit { code: 3 });
    assert_eq!(run.next(), Action::Finished);
    assert_eq!(run.stop_reason(), &Some(StopReason::DosExit { code: 3 }));
    assert_eq!(run.spent(), 40);
}

/// A guest that stops in the pause behind a scancode is given nothing more: not the
/// break of that key, not the next key, and it is not run again.
#[test]
fn a_guest_that_stops_in_a_pause_is_given_nothing() {
    let steps = merged_injections(Some("100:ab"), None).unwrap();
    let mut run = InjectionRun::new(steps, 1_000_000, PACE);
    assert_eq!(run.next(), Action::Run(100));
    run.told(100, StopReason::CycleLimit { requested: 100 });
    assert_eq!(run.next(), Action::Proceed);
    assert_eq!(run.next(), Action::Give(Input::Key(0x1e)));
    assert_eq!(run.next(), Action::Run(2_000));
    run.told(700, StopReason::Halted);
    assert_eq!(run.next(), Action::Finished);
    assert_eq!(run.next(), Action::Finished);
    assert_eq!(run.stop_reason(), &Some(StopReason::Halted));
    assert_eq!(run.spent(), 800);
}

/// An input whose pause nothing is left for is the last one.
#[test]
fn a_pause_without_budget_ends_the_input() {
    let (log, spent) = played(Some("100:ab;100000:c"), None, 2_100);
    assert_eq!(log, ["run 100", "key 1e", "run 2000", "key 9e", "run 0"]);
    assert_eq!(spent, 2_100);
    let (log, spent) = played(Some("100:abc"), None, 2_600);
    assert_eq!(
        log,
        ["run 100", "key 1e", "run 2000", "key 9e", "run 500", "key 30", "run 0"]
    );
    assert_eq!(spent, 2_600);
}

/// A step whose offset the budget does not reach is not given at all.
#[test]
fn a_step_behind_the_budget_is_not_given() {
    let (log, spent) = played(Some("100:a"), None, 50);
    assert_eq!(log, ["run 50", "run 0"]);
    assert_eq!(spent, 50);
}
