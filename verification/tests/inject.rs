//! Keys and mouse actions that are scheduled from the command line.

use izarravm::inject::{
    merged_injections, parse_injection_steps, parse_key_injections, parse_mouse_injections,
    text_to_scancode_groups, Injection, InjectionEvent, KeyTextError, MouseAction, ScheduleError,
};
use izarravm::keyboard::{
    ascii_key, ascii_to_set1, codepage_index_for_layout, layout_index_from_keyboard_handle,
    layout_index_from_langid,
};
use izarravm::mouse::mouse_action_packets;

#[test]
fn ascii_to_set1_maps_a_letter_to_make_and_break() {
    assert_eq!(ascii_to_set1('h'), vec![0x23, 0xa3]);
    // Uppercase wraps the key in left-Shift make/break.
    assert_eq!(ascii_to_set1('H'), vec![0x2a, 0x23, 0xa3, 0xaa]);
    // Enter is the unshifted return key.
    assert_eq!(ascii_to_set1('\r'), vec![0x1c, 0x9c]);
    // A shifted number-row glyph holds Shift over the digit key.
    assert_eq!(ascii_to_set1('!'), vec![0x2a, 0x02, 0x82, 0xaa]);
    // Characters with no US-layout key produce nothing.
    assert!(ascii_to_set1('\u{00f1}').is_empty());
}

#[test]
fn a_key_is_shifted_or_not() {
    assert_eq!(ascii_key('a'), Some((0x1e, false)));
    assert_eq!(ascii_key('A'), Some((0x1e, true)));
    assert_eq!(ascii_key('\u{20ac}'), None);
}

#[test]
fn langid_maps_to_guest_layout_index() {
    assert_eq!(layout_index_from_langid(0x0409), 0); // en-US
    assert_eq!(layout_index_from_langid(0x0809), 1); // en-GB
    assert_eq!(layout_index_from_langid(0x1009), 0); // en-CA -> US
    assert_eq!(layout_index_from_langid(0x0c0a), 2); // es-ES
    assert_eq!(layout_index_from_langid(0x080a), 16); // es-MX -> Latin America
    assert_eq!(layout_index_from_langid(0x040c), 3); // fr-FR
    assert_eq!(layout_index_from_langid(0x0407), 4); // de-DE
    assert_eq!(layout_index_from_langid(0x0410), 5); // it-IT
    assert_eq!(layout_index_from_langid(0x0411), 0); // ja-JP -> US fallback
}

#[test]
fn langid_maps_new_layouts() {
    assert_eq!(layout_index_from_langid(0x080c), 6); // fr-BE -> BE
    assert_eq!(layout_index_from_langid(0x0c0c), 7); // fr-CA -> CF
    assert_eq!(layout_index_from_langid(0x0406), 8); // da-DK -> DK
    assert_eq!(layout_index_from_langid(0x0413), 9); // nl-NL -> NL
    assert_eq!(layout_index_from_langid(0x0414), 10); // nb-NO -> NO
    assert_eq!(layout_index_from_langid(0x0816), 11); // pt-PT -> PO
    assert_eq!(layout_index_from_langid(0x100c), 12); // fr-CH -> SF
    assert_eq!(layout_index_from_langid(0x0807), 13); // de-CH -> SG
    assert_eq!(layout_index_from_langid(0x040b), 14); // fi-FI -> SU
    assert_eq!(layout_index_from_langid(0x041d), 15); // sv-SE -> SV
}

/// The language stands in the low word of a keyboard handle.
#[test]
fn a_keyboard_handle_names_its_language() {
    assert_eq!(layout_index_from_keyboard_handle(0xf0c1_0407), 4);
    assert_eq!(layout_index_from_keyboard_handle(0x0409_0809), 1);
}

#[test]
fn codepage_index_for_each_layout() {
    let want = [0u8, 0, 1, 1, 1, 1, 1, 3, 4, 1, 4, 2, 1, 1, 1, 1, 1];
    for (i, w) in want.iter().enumerate() {
        assert_eq!(codepage_index_for_layout(i as u8), *w);
    }
}

/// The keystroke text of a parsed step, for tests that only care about keys.
fn injected_text(step: &Injection) -> &str {
    match &step.event {
        InjectionEvent::Keys(text) => text,
        InjectionEvent::Mouse(_) => panic!("expected a key step"),
    }
}

#[test]
fn key_injection_steps_parse_with_increasing_offsets() {
    let steps = parse_key_injections("100:a;200:\r").unwrap();
    assert_eq!(steps.len(), 2);
    assert_eq!(steps[0].at_cycles, 100);
    assert_eq!(injected_text(&steps[0]), "a");
    assert_eq!(steps[1].at_cycles, 200);
    assert_eq!(
        injected_text(&steps[1]),
        "\r",
        "\\r must expand to a carriage return"
    );
    // Empty segments are skipped rather than being an error, so a trailing ';'
    // from a shell loop does not fail the run.
    assert_eq!(parse_key_injections("100:a;").unwrap().len(), 1);
    assert!(parse_key_injections("").unwrap().is_empty());
}

/// A carriage return can be written as a backslash and a letter.
#[test]
fn a_written_out_return_expands() {
    let steps = parse_key_injections("7:dir\\r").unwrap();
    assert_eq!(injected_text(&steps[0]), "dir\r");
}

#[test]
fn key_injection_rejects_non_increasing_offsets() {
    // Strictly increasing is what makes the schedule deterministic: a step at
    // or before its predecessor would inject at a cycle already burned, so the
    // keystroke would land at a run-dependent point and break equal-work.
    assert!(parse_key_injections("200:a;200:b").is_err());
    assert!(parse_key_injections("200:a;100:b").is_err());
    assert!(
        parse_key_injections("100").is_err(),
        "missing ':' must fail"
    );
}

#[test]
fn every_schedule_fault_is_named() {
    assert_eq!(
        parse_injection_steps("100").unwrap_err(),
        ScheduleError::NotAStep("100".to_string())
    );
    assert_eq!(
        parse_injection_steps("x:a").unwrap_err(),
        ScheduleError::BadOffset("x".to_string())
    );
    assert_eq!(
        parse_injection_steps("200:a;200:b").unwrap_err(),
        ScheduleError::NotIncreasing { at_cycles: 200, previous: 200 }
    );
    assert_eq!(
        parse_mouse_injections("1:wiggle").unwrap_err(),
        ScheduleError::UnknownAction("wiggle".to_string())
    );
    assert_eq!(
        parse_mouse_injections("1:move:12").unwrap_err(),
        ScheduleError::MoveNeedsTwo("12".to_string())
    );
    assert_eq!(
        parse_mouse_injections("1:move:a,b").unwrap_err(),
        ScheduleError::BadDelta("a".to_string())
    );
}

#[test]
fn scancode_groups_cover_named_keys_and_plain_text() {
    // A bare modifier is the reason named keys exist: SHIFT is a make/break
    // pair with no character behind it, and Prince of Persia advances its
    // title screen on exactly that.
    assert_eq!(
        text_to_scancode_groups("{shift}").unwrap(),
        vec![vec![0x2a, 0xaa]]
    );
    assert_eq!(
        text_to_scancode_groups("{esc}").unwrap(),
        vec![vec![0x01, 0x81]]
    );
    // Plain characters still go through the ASCII path, one group per key.
    let mixed = text_to_scancode_groups("a{shift}").unwrap();
    assert_eq!(mixed.len(), 2);
    assert_eq!(mixed[1], vec![0x2a, 0xaa]);
    assert_eq!(mixed[0], ascii_to_set1('a'));

    assert!(text_to_scancode_groups("{nosuchkey}").is_err());
    assert!(text_to_scancode_groups("{shift").is_err(), "unclosed brace");
}

#[test]
fn every_key_text_fault_is_named() {
    assert_eq!(text_to_scancode_groups("{shift").unwrap_err(), KeyTextError::Unclosed);
    assert_eq!(
        text_to_scancode_groups("{nosuchkey}").unwrap_err(),
        KeyTextError::UnknownKey("nosuchkey".to_string())
    );
    assert_eq!(
        text_to_scancode_groups("a\u{00f1}").unwrap_err(),
        KeyTextError::NoScancode('\u{00f1}')
    );
}

#[test]
fn a_fault_says_what_is_wrong_with_a_key_text() {
    let says = |text: &str, quoted: &str| text_to_scancode_groups(text).unwrap_err().message(quoted);
    assert_eq!(
        says("{shift", "\"{shift\""),
        "--inject-keys has an unclosed { in \"{shift\""
    );
    assert_eq!(says("{Nosuch}", ""), "--inject-keys: unknown key {nosuch}");
    assert_eq!(says("\u{f1}", "'\u{f1}'"), "--inject-keys: no scancode for '\u{f1}'");
}

#[test]
fn a_fault_says_what_is_wrong_with_a_schedule() {
    let says = |spec: &str, words: &str| {
        parse_mouse_injections(spec).unwrap_err().message("--inject-mouse", words)
    };
    assert_eq!(
        says("100", "\"100\""),
        "--inject-mouse step \"100\" is not <cycles>:<payload>"
    );
    assert_eq!(says("x:home", "invalid digit"), "invalid digit");
    assert_eq!(
        says("200:home;100:home", ""),
        "--inject-mouse offsets must strictly increase; 100 does not follow 200"
    );
    assert_eq!(
        says("1:wiggle", "\"wiggle\""),
        "--inject-mouse: unknown action \"wiggle\" (want home, move:<dx>,<dy>, down, up or click)"
    );
    assert_eq!(
        says("1:move:12", "\"12\""),
        "--inject-mouse: move needs <dx>,<dy>, got \"12\""
    );
    assert_eq!(says("1:move:a,b", "invalid digit"), "invalid digit");
}

/// The action of a parsed mouse step.
fn injected_action(step: &Injection) -> &MouseAction {
    match &step.event {
        InjectionEvent::Mouse(action) => action,
        InjectionEvent::Keys(_) => panic!("expected a mouse step"),
    }
}

#[test]
fn mouse_injection_parses_every_action() {
    let steps =
        parse_mouse_injections("100:home;200:move:-40,15;300:down;400:up;500:click").unwrap();
    assert_eq!(steps.len(), 5);
    assert!(matches!(injected_action(&steps[0]), MouseAction::Home));
    assert!(matches!(
        injected_action(&steps[1]),
        MouseAction::Move { dx: -40, dy: 15 }
    ));
    assert!(matches!(injected_action(&steps[2]), MouseAction::Button(1)));
    assert!(matches!(injected_action(&steps[3]), MouseAction::Button(0)));
    assert!(matches!(injected_action(&steps[4]), MouseAction::Click));
}

#[test]
fn mouse_injection_rejects_malformed_actions() {
    assert!(parse_mouse_injections("100:wiggle").is_err());
    assert!(
        parse_mouse_injections("100:move:12").is_err(),
        "move needs both axes"
    );
    assert!(parse_mouse_injections("100:move:a,b").is_err());
    // The offset rule is shared with --inject-keys and matters for the same
    // reason: a schedule that is not strictly increasing is not replayable.
    assert!(parse_mouse_injections("200:home;100:click").is_err());
}

#[test]
fn mouse_move_splits_into_packets_a_real_mouse_could_send() {
    // inject_mouse_relative CLAMPS to +-255 rather than splitting, matching the
    // hardware, so a move longer than one packet has to be split here or the
    // pointer silently stops short.
    let mut buttons = 0;
    let packets = mouse_action_packets(&MouseAction::Move { dx: 600, dy: -20 }, &mut buttons);
    assert_eq!(packets.len(), 3);
    assert_eq!(packets.iter().map(|p| p.dx).sum::<i32>(), 600);
    assert_eq!(packets.iter().map(|p| p.dy).sum::<i32>(), -20);
    for p in &packets {
        assert!(
            p.dx.abs() <= 255 && p.dy.abs() <= 255,
            "packet {},{} exceeds the PS/2 range",
            p.dx,
            p.dy
        );
    }

    // A move that fits stays one packet.
    let packets = mouse_action_packets(&MouseAction::Move { dx: 10, dy: 10 }, &mut buttons);
    assert_eq!(packets.len(), 1);
    assert_eq!(
        (packets[0].dx, packets[0].dy, packets[0].buttons),
        (10, 10, 0)
    );
}

#[test]
fn mouse_buttons_are_held_across_moves_so_a_drag_is_a_drag() {
    let mut buttons = 0;
    let down = mouse_action_packets(&MouseAction::Button(1), &mut buttons);
    assert_eq!(down.len(), 1);
    assert_eq!(down[0].buttons, 1);
    assert_eq!(buttons, 1, "the press must persist past its own packet");
    // Motion while held carries the button, which is what makes it a drag
    // rather than a press that lets go the moment the pointer moves.
    let packets = mouse_action_packets(&MouseAction::Move { dx: 5, dy: 5 }, &mut buttons);
    assert_eq!(packets.len(), 1);
    assert_eq!(
        (packets[0].dx, packets[0].dy, packets[0].buttons),
        (5, 5, 1)
    );
    let up = mouse_action_packets(&MouseAction::Button(0), &mut buttons);
    assert_eq!(up[0].buttons, 0);
    assert_eq!(buttons, 0);
}

#[test]
fn mouse_home_sends_enough_packets_to_reach_the_corner() {
    // Homing works by overshooting into the driver's own clamp, so the packet
    // count has to cover the tallest space a guest may set up. At TOKAMOUS's
    // default vertical ratio one packet is 127 pixels; a game asking for a
    // ratio four times coarser gets 31, and 12 packets must still clear 480.
    let mut buttons = 0;
    let packets = mouse_action_packets(&MouseAction::Home, &mut buttons);
    let coarsest_pixels_per_packet = 255 * 8 / 64;
    assert!(
        packets.len() as i32 * coarsest_pixels_per_packet >= 480,
        "{} packets cannot cross a 480-pixel screen",
        packets.len()
    );
    for p in &packets {
        assert!(p.dx < 0 && p.dy < 0, "homing must drive toward the origin");
    }
}

#[test]
fn merged_schedule_orders_keys_and_mouse_by_offset() {
    // The two flags are parsed separately but must fire in one time order, or a
    // click scheduled between two keystrokes would arrive after both.
    let merged = merged_injections(Some("100:a;300:b"), Some("200:click")).unwrap();
    let offsets: Vec<u64> = merged.iter().map(|s| s.at_cycles).collect();
    assert_eq!(offsets, vec![100, 200, 300]);
    assert!(matches!(merged[1].event, InjectionEvent::Mouse(_)));
    // Each flag alone still works, and neither flag means no schedule at all.
    assert_eq!(merged_injections(Some("100:a"), None).unwrap().len(), 1);
    assert_eq!(merged_injections(None, Some("100:home")).unwrap().len(), 1);
    assert!(merged_injections(None, None).unwrap().is_empty());
}

/// A key and a mouse action at one offset: the key stays first.
#[test]
fn at_one_offset_the_key_comes_first() {
    let merged = merged_injections(Some("100:a"), Some("100:click")).unwrap();
    assert!(matches!(merged[0].event, InjectionEvent::Keys(_)));
    assert!(matches!(merged[1].event, InjectionEvent::Mouse(_)));
}

#[test]
fn click_holds_the_button_long_enough_for_a_frame_poll() {
    // Regression: press and release one packet apart is 5 ms, and Grand Prix 2's
    // startup menu never saw it -- the pointer was verified to be on the button
    // and the click still did nothing, because the menu samples the button once
    // a frame. The hold has to outlast a frame at any plausible rate.
    let mut buttons = 0;
    let packets = mouse_action_packets(&MouseAction::Click, &mut buttons);
    assert_eq!(packets.len(), 2, "a click is one press and one release");
    assert_eq!(packets[0].buttons, 1);
    assert_eq!(packets[1].buttons, 0);
    let slowest_frame_ms = 1000 / 24;
    assert!(
        packets[0].dwell_ms > slowest_frame_ms,
        "a {} ms hold can fall between two polls",
        packets[0].dwell_ms
    );
    // Nothing repeats during the hold: a real PS/2 mouse sends one packet per
    // state change, and the driver latches it until the release arrives.
    assert_eq!(buttons, 0, "a click must not leave the button held");
}

#[test]
fn held_keys_emit_only_the_edge_they_name() {
    // A bare token is a tap: make then break.
    assert_eq!(
        text_to_scancode_groups("{right}").unwrap(),
        vec![vec![0x4d, 0xcd]]
    );
    // `+` presses and does NOT release, which is the whole point -- the guest
    // tracks key-down state from the scancode stream, so a tap cannot express
    // "keep running". Prince of Persia's prince stands still under a tap and
    // runs under a hold.
    assert_eq!(
        text_to_scancode_groups("{+right}").unwrap(),
        vec![vec![0x4d]]
    );
    // `-` releases.
    assert_eq!(
        text_to_scancode_groups("{-right}").unwrap(),
        vec![vec![0xcd]]
    );
    // The three must be distinguishable, or a schedule asking for a hold would
    // silently get a tap.
    let tap = text_to_scancode_groups("{right}").unwrap();
    let press = text_to_scancode_groups("{+right}").unwrap();
    assert_ne!(tap, press);
    // Modifiers take the prefixes too, and the name still resolves.
    assert_eq!(
        text_to_scancode_groups("{+shift}").unwrap(),
        vec![vec![0x2a]]
    );
    // An unknown name is still an error with the prefix stripped, not a silent
    // fallthrough that would inject nothing.
    assert!(text_to_scancode_groups("{+nosuchkey}").is_err());
}

/// Two schedules keep their own order in the one that is made of them.
#[test]
fn a_merged_schedule_keeps_each_order() {
    let merged = merged_injections(
        Some("100:a;200:b;300:c"),
        Some("100:home;200:move:3,4;250:click"),
    )
    .unwrap();
    let told: Vec<String> = merged
        .iter()
        .map(|step| match &step.event {
            InjectionEvent::Keys(text) => format!("{} {text}", step.at_cycles),
            InjectionEvent::Mouse(_) => format!("{} mouse", step.at_cycles),
        })
        .collect();
    assert_eq!(
        told,
        ["100 a", "100 mouse", "200 b", "200 mouse", "250 mouse", "300 c"]
    );
}

/// Every packet waits the packet spacing, but for the press of a click.
#[test]
fn packets_wait_their_spacing() {
    let waits = |action: MouseAction| -> Vec<u64> {
        let mut buttons = 0;
        mouse_action_packets(&action, &mut buttons)
            .iter()
            .map(|packet| packet.dwell_ms)
            .collect()
    };
    assert_eq!(waits(MouseAction::Move { dx: 600, dy: 0 }), [5, 5, 5]);
    assert_eq!(waits(MouseAction::Home), [5; 20]);
    assert_eq!(waits(MouseAction::Button(1)), [5]);
    assert_eq!(waits(MouseAction::Click), [100, 5]);
}
