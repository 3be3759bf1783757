//! Pictures of the guest's screen: samples, screenshots, and what is said of them.

use std::io::Cursor;

use izarravm::picture::{
    argb_ppm, glyph_count, lit_pixels, ranked_colors, sidecar_ppm, ActiveDisplay, VideoMode,
};
use izarravm::prefs::GlideGamma;
use izarravm::report::modes::MargoDisplay;
use izarravm::screendump::{display_name, fnv1a, mode_name, Frame, Sample, Screen, ScreenDumper};
use izarravm::screenshot::{
    candidate_name, filename_stem, LocalTime, ScreenshotError, ScreenshotFrame,
};
use izarravm::summary::{
    margo_reread_line, margo_rereads, margo_store_line, video_summary_lines, MargoSummary,
    ScreenState,
};

const MASTER_CLOCK_HZ: u64 = 100_000_000;

fn page(text: &str) -> String {
    text.to_string()
}

/// A text screen whose pixels stand for its letters.
fn text_screen(letters: &str, master_ticks: u64) -> Screen {
    Screen {
        frame: Some(Frame {
            pixels: letters.bytes().map(u32::from).collect(),
            width: letters.len() as u64,
            height: 1,
        }),
        display: ActiveDisplay::VgaRaster,
        mode: VideoMode::Text,
        page: page(letters),
        master_ticks,
    }
}

fn unpresented(mode: VideoMode, master_ticks: u64) -> Screen {
    Screen {
        frame: None,
        display: ActiveDisplay::VgaRaster,
        mode,
        page: page(""),
        master_ticks,
    }
}

fn mode13h(master_ticks: u64) -> Screen {
    Screen {
        frame: Some(Frame { pixels: vec![7; 6], width: 3, height: 2 }),
        display: ActiveDisplay::VgaRaster,
        mode: VideoMode::Mode13h,
        page: page(""),
        master_ticks,
    }
}

/// Take a sample, and write down what it says.
fn after_slice(dumper: &mut ScreenDumper, screen: &Screen) -> Sample {
    let sample = dumper.sample(screen);
    if let Some(picture) = &sample.picture {
        dumper.picture_written(picture.hash);
    }
    assert!(dumper.room());
    dumper.line_written();
    sample
}

fn index_line(sample: &Sample) -> serde_json::Value {
    serde_json::from_str(&sample.line).expect("an index line is JSON")
}

#[test]
fn the_index_line_carries_every_field_the_sweep_reads() {
    let mut dumper = ScreenDumper::new(5_000_000, MASTER_CLOCK_HZ);
    let samples = [
        after_slice(&mut dumper, &text_screen(" ", 5_000_000)),
        after_slice(&mut dumper, &text_screen("A", 10_000_000)),
    ];
    let lines: Vec<serde_json::Value> = samples.iter().map(index_line).collect();
    for (expected_index, line) in lines.iter().enumerate() {
        assert_eq!(line["i"].as_u64(), Some(expected_index as u64));
        assert!(line["master_ticks"].is_u64());
        assert!(line["guest_ms"].is_u64());
        assert_eq!(line["hash"].as_str().map(str::len), Some(16));
        assert_eq!(line["display"].as_str(), Some("vga"));
        assert_eq!(line["video_mode"].as_str(), Some("text"));
        assert!(line["changed"].is_boolean());
        // Text mode reports its glyph count; a graphics mode reports null.
        assert!(line["text_glyphs"].is_u64());
    }
    assert_ne!(
        lines[0]["hash"], lines[1]["hash"],
        "writing a glyph must move the frame hash"
    );
    assert!(lines[1]["guest_ms"].as_u64() >= lines[0]["guest_ms"].as_u64());
}

#[test]
fn an_index_line_is_exact() {
    let dumper = ScreenDumper::new(5_000_000, MASTER_CLOCK_HZ);
    let sample = dumper.sample(&text_screen("A", 250_000_000));
    assert_eq!(
        sample.line,
        format!(
            "{{\"i\":0,\"master_ticks\":250000000,\"guest_ms\":2500,\"display\":\"vga\",\
             \"video_mode\":\"text\",\"presented\":true,\"hash\":\"{:016x}\",\"changed\":true,\
             \"ppm\":\"0000.ppm\",\"text_glyphs\":1}}",
            fnv1a(&vec![65])
        )
    );
}

#[test]
fn a_ppm_is_written_only_when_the_hash_moves() {
    let mut dumper = ScreenDumper::new(5_000_000, MASTER_CLOCK_HZ);
    let still = text_screen("a", 0);
    let samples = [
        after_slice(&mut dumper, &still),
        after_slice(&mut dumper, &still),
        after_slice(&mut dumper, &still),
        after_slice(&mut dumper, &text_screen("Z", 0)),
    ];
    let lines: Vec<serde_json::Value> = samples.iter().map(index_line).collect();
    let changed: Vec<bool> = lines
        .iter()
        .map(|line| line["changed"].as_bool().unwrap())
        .collect();
    assert_eq!(changed, vec![true, false, false, true]);
    assert_eq!(lines[0]["ppm"].as_str(), Some("0000.ppm"));
    assert!(lines[1]["ppm"].is_null());
    assert!(lines[2]["ppm"].is_null());
    assert_eq!(lines[3]["ppm"].as_str(), Some("0003.ppm"));

    let written: Vec<&str> = samples
        .iter()
        .filter_map(|sample| sample.picture.as_ref().map(|picture| picture.name.as_str()))
        .collect();
    assert_eq!(written, vec!["0000.ppm", "0003.ppm"]);

    let ppm = &samples[0].picture.as_ref().unwrap().bytes;
    assert!(ppm.starts_with(b"P6\n"), "not a binary PPM");
    assert_eq!(ppm, b"P6\n1 1\n255\n\0\0a");
}

#[test]
fn a_sample_before_the_first_frame_writes_no_ppm() {
    let mut dumper = ScreenDumper::new(5_000_000, MASTER_CLOCK_HZ);
    let sample = after_slice(&mut dumper, &unpresented(VideoMode::Text, 0));
    assert!(sample.picture.is_none(), "a frame with nothing to show");
}

#[test]
fn a_sample_before_the_first_frame_still_writes_an_index_line() {
    let mut dumper = ScreenDumper::new(5_000_000, MASTER_CLOCK_HZ);
    let line = index_line(&after_slice(&mut dumper, &unpresented(VideoMode::Text, 0)));
    assert_eq!(line["presented"].as_bool(), Some(false));
    assert!(
        line["hash"].is_null(),
        "a frame that does not exist has no hash"
    );
    assert!(line["ppm"].is_null());
    assert_eq!(line["changed"].as_bool(), Some(false));
    // What the machine knows without a frame is still reported.
    assert!(line["master_ticks"].is_u64());
    assert_eq!(line["display"].as_str(), Some("vga"));
}

#[test]
fn a_sample_between_a_mode_set_and_its_first_frame_writes_no_ppm() {
    let mut dumper = ScreenDumper::new(5_000_000, MASTER_CLOCK_HZ);
    let samples = [
        after_slice(&mut dumper, &text_screen("a", 0)),
        after_slice(&mut dumper, &unpresented(VideoMode::Mode13h, 1)),
        after_slice(&mut dumper, &mode13h(2)),
    ];
    let lines: Vec<serde_json::Value> = samples.iter().map(index_line).collect();
    assert!(lines[0]["hash"].is_string(), "the text frame");
    assert_eq!(
        lines[1]["presented"].as_bool(),
        Some(false),
        "no frame exists between the mode set and the first raster of the new mode"
    );
    assert!(lines[1]["ppm"].is_null());
    assert!(lines[2]["hash"].is_string(), "the mode 13h frame");
    assert_eq!(lines[2]["video_mode"].as_str(), Some("mode13h"));

    // Two PPMs, not three: the middle sample had nothing to write.
    let written: Vec<&str> = samples
        .iter()
        .filter_map(|sample| sample.picture.as_ref().map(|picture| picture.name.as_str()))
        .collect();
    assert_eq!(written, vec!["0000.ppm", "0002.ppm"]);
}

#[test]
fn a_missing_frame_is_not_a_picture_the_next_sample_can_match() {
    let mut dumper = ScreenDumper::new(5_000_000, MASTER_CLOCK_HZ);
    let samples = [
        after_slice(&mut dumper, &mode13h(0)),
        after_slice(&mut dumper, &unpresented(VideoMode::Mode13h, 1)),
        after_slice(&mut dumper, &unpresented(VideoMode::Mode13h, 2)),
        after_slice(&mut dumper, &mode13h(3)),
    ];
    let lines: Vec<serde_json::Value> = samples.iter().map(index_line).collect();
    let first = lines[0]["hash"].as_str().unwrap().to_string();
    for missing in &lines[1..3] {
        assert_eq!(missing["presented"].as_bool(), Some(false));
        assert_eq!(missing["changed"].as_bool(), Some(false));
        assert!(missing["hash"].is_null());
    }
    // The returning picture is compared against the last REAL frame, so an
    // identical one is still reported unchanged and costs no second PPM.
    assert_eq!(lines[3]["hash"].as_str(), Some(first.as_str()));
    assert_eq!(lines[3]["changed"].as_bool(), Some(false));
    assert!(lines[3]["ppm"].is_null());
}

/// A picture that could not be written does not count: the next sample tries again.
#[test]
fn a_picture_that_was_not_written_is_tried_again() {
    let mut dumper = ScreenDumper::new(5_000_000, MASTER_CLOCK_HZ);
    assert!(dumper.sample(&mode13h(0)).picture.is_some());
    dumper.line_written();
    assert!(dumper.sample(&mode13h(0)).picture.is_some());
}

#[test]
fn the_slice_never_falls_below_the_floor() {
    for requested in [0, 1, 999_999, 1_000_000] {
        let dumper = ScreenDumper::new(requested, MASTER_CLOCK_HZ);
        assert_eq!(dumper.slice(), 1_000_000, "requested {requested}");
    }
    let dumper = ScreenDumper::new(8_300_000, MASTER_CLOCK_HZ);
    assert_eq!(dumper.slice(), 8_300_000);
}

#[test]
fn a_hash_is_fnv1a_of_the_pixels() {
    assert_eq!(fnv1a(&Vec::new()), 0xcbf2_9ce4_8422_2325);
    assert_ne!(fnv1a(&vec![1, 2]), fnv1a(&vec![2, 1]));
}

#[test]
fn displays_and_modes_have_short_names() {
    assert_eq!(display_name(ActiveDisplay::VgaRaster), "vga");
    assert_eq!(display_name(ActiveDisplay::MargoLfb), "margo");
    assert_eq!(display_name(ActiveDisplay::Distira), "distira");
    assert_eq!(mode_name(VideoMode::Text), "text");
    assert_eq!(mode_name(VideoMode::ModeX), "modex");
}

// ---------------------------------------------------------------------------
// Portable pixmaps
// ---------------------------------------------------------------------------

#[test]
fn write_framebuffer_ppm_uses_the_active_distira_scanout() {
    let bytes = argb_ppm(&vec![0x0010_2030; 640 * 480], 640, 480);
    assert!(bytes.starts_with(b"P6\n"));
    let header = String::from_utf8_lossy(&bytes[..32.min(bytes.len())]);
    let mut parts = header.split_whitespace();
    assert_eq!(parts.next(), Some("P6"));
    let width: usize = parts.next().unwrap().parse().unwrap();
    let height: usize = parts.next().unwrap().parse().unwrap();
    assert_eq!((width, height), (640, 480));
    assert_eq!(bytes.len(), 15 + 640 * 480 * 3);
    assert_eq!(&bytes[15..18], &[0x10, 0x20, 0x30]);
}

#[test]
fn a_picture_beside_another_shares_its_stem() {
    assert_eq!(sidecar_ppm(Some("shot"), "vga"), "shot-vga.ppm");
}

#[test]
fn lit_pixels_and_glyphs_are_counted() {
    assert_eq!(lit_pixels(&vec![0, 0xff00_0000, 0, 0x00ff_ffff]), 2);
    assert_eq!(glyph_count("a b\n c"), 3);
}

/// The commonest colour first; equal ones by value.
#[test]
fn colors_are_ranked() {
    assert_eq!(
        ranked_colors(&vec![5, 9, 9, 1, 5, 3]),
        vec![(5, 2), (9, 2), (1, 1), (3, 1)]
    );
    assert_eq!(
        ranked_colors(&vec![3, 5, 1, 9, 5, 9]),
        ranked_colors(&vec![5, 9, 9, 1, 5, 3])
    );
}

// ---------------------------------------------------------------------------
// Screenshots
// ---------------------------------------------------------------------------

fn sample_frame() -> ScreenshotFrame {
    ScreenshotFrame::new(
        vec![0x00ff_0000, 0x0000_ff00, 0x0000_00ff, 0x00ff_ffff],
        2,
        2,
        false,
    )
}

/// The size, kind and pixels of a file.
fn decoded(file: &[u8]) -> (u32, u32, png::ColorType, Vec<u8>) {
    let decoder = png::Decoder::new(Cursor::new(file));
    let mut reader = decoder.read_info().unwrap();
    let mut pixels = vec![0; reader.output_buffer_size().unwrap()];
    let info = reader.next_frame(&mut pixels).unwrap();
    pixels.truncate(info.buffer_size());
    (info.width, info.height, info.color_type, pixels)
}

/// A table that takes every code to the power of `exponent`.
fn table(exponent: f64) -> Vec<u8> {
    (0..256)
        .map(|code| ((code as f64 / 255.0).powf(exponent) * 255.0).round() as u8)
        .collect()
}

#[test]
fn png_is_created_with_the_guest_pixels() {
    let (width, height, color_type, pixels) = decoded(&sample_frame().png(None, None).unwrap());
    assert_eq!((width, height), (2, 2));
    assert_eq!(color_type, png::ColorType::Rgba);
    assert_eq!(
        pixels,
        [255, 0, 0, 255, 0, 255, 0, 255, 0, 0, 255, 255, 255, 255, 255, 255]
    );
}

/// A screenshot must show the same picture the window did: the display's table goes
/// over every channel, alpha untouched.
#[test]
fn a_screenshot_applies_the_monitor_gamma_pref() {
    let frame = ScreenshotFrame::new(vec![0x0020_2020], 1, 1, false);
    let mut gamma: Vec<u8> = (0..=255).collect();
    gamma[32] = 20;
    let (_, _, _, pixels) = decoded(&frame.png(None, Some(&gamma)).unwrap());
    assert_eq!(pixels, [20, 20, 20, 255]);
}

#[test]
fn a_same_timestamp_uses_a_collision_suffix() {
    assert_eq!(candidate_name("IzarraVM_same", 0).unwrap(), "IzarraVM_same.png");
    assert_eq!(candidate_name("IzarraVM_same", 1).unwrap(), "IzarraVM_same_001.png");
    assert_eq!(candidate_name("IzarraVM_same", 1234).unwrap(), "IzarraVM_same_1234.png");
    assert_eq!(candidate_name("IzarraVM_same", 10_000), None);
}

#[test]
fn an_invalid_frame_does_not_create_the_directory() {
    let frame = ScreenshotFrame::new(vec![0; 3], 2, 2, false);
    assert!(matches!(frame.size(), Err(ScreenshotError::InvalidFrame { .. })));
    assert!(matches!(
        frame.png(None, None),
        Err(ScreenshotError::InvalidFrame { width: 2, height: 2, pixels: 3 })
    ));
}

/// The compensation is an edit of the signal and comes first, then the display.
#[test]
fn a_distira_screenshot_applies_the_glide_compensation_before_the_monitor_gamma() {
    let frame = ScreenshotFrame::new(vec![0x0080_8080], 1, 1, true);
    assert!(frame.is_distira());
    // Code 128 compensates to 91, and 91 on the display is 82. Composing the other way
    // round gives 128 -> 121 -> 83, so this pins the ORDER, not merely that both ran.
    let mut compensation = table(1.5);
    compensation[128] = 91;
    compensation[121] = 83;
    let mut monitor = table(1.1);
    monitor[91] = 82;
    monitor[128] = 121;
    let (_, _, _, pixels) = decoded(&frame.png(Some(&compensation), Some(&monitor)).unwrap());
    assert_eq!(pixels, [82, 82, 82, 255]);
    assert_eq!(frame.rgba_rows(Some(&compensation), Some(&monitor)), [82, 82, 82, 255]);
}

#[test]
fn a_non_distira_screenshot_is_untouched_by_the_glide_setting() {
    let frame = ScreenshotFrame::new(vec![0x0080_8080], 1, 1, false);
    let (_, _, _, pixels) = decoded(&frame.png(None, None).unwrap());
    assert_eq!(pixels, [128, 128, 128, 255]);
}

#[test]
fn only_the_3d_cards_picture_is_compensated_and_only_where_asked() {
    let lift = table(1.5);
    let card = ScreenshotFrame::new(vec![0x0080_8080], 1, 1, true);
    let vga = ScreenshotFrame::new(vec![0x0080_8080], 1, 1, false);
    assert_eq!(card.compensation(GlideGamma::Compatible, &lift), Some(&lift));
    assert_eq!(card.compensation(GlideGamma::Original, &lift), None);
    assert_eq!(vga.compensation(GlideGamma::Compatible, &lift), None);
    assert_eq!(vga.compensation(GlideGamma::Original, &lift), None);
}

#[test]
fn a_frame_has_the_size_that_its_pixels_fill() {
    assert_eq!(sample_frame().size().unwrap(), (2, 2));
    let empty = ScreenshotFrame::new(Vec::new(), 0, 0, false);
    assert!(empty.size().is_err());
    assert_eq!(
        ScreenshotError::invalid_frame_message(2, 2, 3),
        "invalid framebuffer: 2x2 needs a matching pixel buffer, got 3 pixels"
    );
}

#[test]
fn a_file_is_named_after_the_local_time() {
    let now = LocalTime {
        year: 2026,
        month: 8,
        day: 9,
        hour: 7,
        minute: 5,
        second: 3,
        millisecond: 42,
    };
    assert_eq!(filename_stem(now), "IzarraVM_2026-08-09_07-05-03-042");
}

// ---------------------------------------------------------------------------
// What is said of a screen
// ---------------------------------------------------------------------------

fn margo() -> MargoSummary {
    MargoSummary {
        display: MargoDisplay { mode: 0x101, width: 640, height: 480, bpp: 8, pitch: 640, start: 0 },
        linear_sets: 2,
        banked_sets: 1,
        vga_pass: false,
        video_reset: false,
        video_reset_falling_edges: 0,
        fbi_init0_enables: 0,
    }
}

#[test]
fn a_summary_counts_what_is_lit() {
    let lines = video_summary_lines(&ScreenState {
        display: ActiveDisplay::VgaRaster,
        mode: VideoMode::Mode13h,
        page: String::new(),
        pixels: vec![0, 7, 7, 9],
        width: 2,
        height: 2,
        lit_percent: "75.0".to_string(),
        margo: None,
    });
    assert_eq!(
        lines,
        vec![
            "active display: VGA raster",
            "video mode: mode 13h (320x200x256)",
            "framebuffer: 2x2 (4 px)",
            "non-zero pixels: 3 (75.0%)",
            "distinct colors: 3",
            "top colors: #000007: 2, #000000: 1, #000009: 1",
        ]
    );
}

#[test]
fn a_text_screen_is_printed_and_a_margo_mode_is_described() {
    let lines = video_summary_lines(&ScreenState {
        display: ActiveDisplay::VgaRaster,
        mode: VideoMode::Text,
        page: "C:\\>".to_string(),
        pixels: Vec::new(),
        width: 0,
        height: 0,
        lit_percent: "nothing".to_string(),
        margo: Some(margo()),
    });
    assert!(lines.contains(&"text non-blank glyphs: 4".to_string()));
    assert!(lines.contains(&"non-zero pixels: 0 (0.0%)".to_string()));
    assert!(lines.contains(
        &"margo: mode=0x0101 640x480x8 pitch=640 start=0 linear_sets=2 banked_sets=1 \
          vga_pass=false video_reset=false video_reset_falling_edges=0 fbi_init0_enables=0"
            .to_string()
    ));
}

#[test]
fn the_frame_store_is_reported_with_and_without_a_picture() {
    assert_eq!(
        margo_store_line(Some((&vec![0, 1, 2, 0], 2, 2)), "50.0"),
        "margo store: 2x2 non-zero=2/4 (50.0%)"
    );
    assert_eq!(margo_store_line(None, ""), "margo store: none (no VBE session)");
    assert_eq!(
        margo_reread_line("pal8-640x480", &vec![0, 1], "50.0"),
        "margo pal8-640x480: non-zero=1/2 (50.0%)"
    );
    assert_eq!(
        margo_rereads(),
        vec![("pal8-640x480", 640, 480), ("pal8-320x120", 320, 120)]
    );
}

/// A ranking of colours counts every pixel once.
#[test]
fn ranked_colors_add_up_to_the_pixels() {
    let pixels = vec![5, 9, 9, 1, 5, 3, 9];
    let ranking = ranked_colors(&pixels);
    assert_eq!(ranking[0], (9, 3));
    assert_eq!(ranking.iter().map(|row| row.1).sum::<u32>(), 7);
}
