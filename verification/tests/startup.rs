//! What a start settles: drives, MIDI, preferences, and the files beside them.

use izarravm::document::{contains, contains_deep, contains_within, read_document};
use izarravm::midi::{
    apply_midi_flags, merge_saved_midi, resolve_midi, MidiBackend, MidiConfig, MidiConfigPresence,
    MidiFlags, MidiPortId,
};
use izarravm::prefs::{
    clamp_mouse_sensitivity, default_screenshot, inspect_prefs, prefs_path, retired_hotkey_defaults,
    retired_keys_present, CrtStyle, GlideGamma, GuiPrefs, Host, KeyBinding, Located,
};
use izarravm::startup::{
    c_drive_override, choose_glide_ovl, config_presence, discover_munt_roms, eq_ignore_ascii_case,
    inspect_config, no_config, resolve_c_root, resolve_startup_midi, CRoot, ConfigPresence,
    EntryKind, StartupLocations, StateEntry,
};

fn text(value: &str) -> Option<String> {
    Some(value.to_string())
}

fn locations() -> StartupLocations {
    StartupLocations {
        state_dir: "state".to_string(),
        executable_dir: "portable".to_string(),
    }
}

fn port(name: &str, ordinal: u16) -> Option<MidiPortId> {
    Some(MidiPortId { name: name.to_string(), ordinal })
}

fn no_flags() -> MidiFlags {
    MidiFlags {
        backend: None,
        port: None,
        port_ordinal: None,
        soundfont: None,
        mt32_control_rom: None,
        mt32_pcm_rom: None,
    }
}

fn file(name: &str) -> StateEntry {
    StateEntry {
        path: format!("state/{name}"),
        name: name.to_string(),
        kind: EntryKind::File,
    }
}

fn folder(name: &str) -> StateEntry {
    StateEntry {
        path: format!("state/{name}"),
        name: name.to_string(),
        kind: EntryKind::Folder,
    }
}

fn presence(config_text: &str) -> ConfigPresence {
    inspect_config(config_text).unwrap().1
}

// ---------------------------------------------------------------------------
// The guest's drive
// ---------------------------------------------------------------------------

#[test]
fn empty_dosroot_parses_and_is_not_a_c_drive() {
    assert!(
        c_drive_override(&None, &text("")).is_none(),
        "an empty dosroot must not become the C: root"
    );
}

#[test]
fn cli_c_drive_beats_dosroot() {
    let root = resolve_c_root(
        &text("cli-drive"),
        &text("environment-drive"),
        "",
        no_config(),
        &locations(),
        false,
    );
    assert_eq!(root, CRoot::Named("cli-drive".to_string()));
}

#[test]
fn c_drive_precedence_is_exact() {
    let stated = presence("[dos]\nc_drive = \"toml-drive\"\n");
    let cases = [
        (
            text("cli-drive"),
            text("dosroot-drive"),
            stated,
            "toml-drive",
            false,
            CRoot::Named("cli-drive".to_string()),
        ),
        (
            None,
            text("dosroot-drive"),
            stated,
            "toml-drive",
            false,
            CRoot::Named("dosroot-drive".to_string()),
        ),
        (None, None, stated, "toml-drive", false, CRoot::Named("toml-drive".to_string())),
        (
            None,
            None,
            presence("[dos]\nc_drive = \".\"\n"),
            ".",
            false,
            CRoot::Named(".".to_string()),
        ),
        (
            None,
            None,
            no_config(),
            "unused",
            false,
            CRoot::Default(Located { directory: "state".to_string(), name: "c_drive" }),
        ),
        (
            None,
            None,
            no_config(),
            "unused",
            true,
            CRoot::Default(Located { directory: "portable".to_string(), name: "c_drive" }),
        ),
    ];
    for (c_drive, dosroot, stated, configured, portable, expected) in cases {
        assert_eq!(
            resolve_c_root(&c_drive, &dosroot, configured, stated, &locations(), portable),
            expected
        );
    }
}

// ---------------------------------------------------------------------------
// Documents
// ---------------------------------------------------------------------------

#[test]
fn a_document_holds_what_its_text_states() {
    let value = read_document("a = 1\n[b]\nc = 2\n[b.d]\ne = 3\n").unwrap();
    assert!(contains(&value, "a"));
    assert!(!contains(&value, "c"));
    assert!(contains_within(&value, "b", "c"));
    assert!(!contains_within(&value, "a", "c"));
    assert!(contains_deep(&value, "b", "d", "e"));
    assert!(!contains_deep(&value, "b", "c", "e"));
    assert!(read_document("[broken").is_err());
}

#[test]
fn a_configuration_file_states_what_it_names() {
    assert_eq!(presence("[machine]\nmemory_mib = 24\n"), no_config());
    let midi = presence(
        "[dos]\nc_drive = \"x\"\n[audio.midi]\nbackend = \"munt\"\nmt32_pcm_rom = \"p\"\n\
         [audio.midi.external_port]\nname = \"n\"\nordinal = 2\n",
    );
    assert_eq!(
        midi,
        ConfigPresence {
            c_drive: true,
            midi: MidiConfigPresence {
                backend: true,
                external_port: true,
                soundfont: false,
                mt32_control_rom: false,
                mt32_pcm_rom: true,
            },
        }
    );
    assert_eq!(config_presence(&read_document("").unwrap()), no_config());
}

#[test]
fn a_malformed_config_is_no_document() {
    assert!(inspect_config("[machine\nmemory_mib = 24").is_err());
}

#[test]
fn malformed_preferences_are_no_document() {
    assert!(inspect_prefs("[broken").is_err());
}

// ---------------------------------------------------------------------------
// MIDI
// ---------------------------------------------------------------------------

#[test]
fn midi_sources_resolve_in_precedence_order() {
    let stated = presence("[audio.midi.external_port]\nname = \"TOML port\"\nordinal = 3\n");
    let mut midi = MidiConfig { external_port: port("TOML port", 3), ..MidiConfig::default() };
    let flags = MidiFlags { backend: Some(MidiBackend::Off), ..no_flags() };
    let saved = MidiConfig {
        backend: MidiBackend::Munt,
        soundfont: text("saved.sf3"),
        ..MidiConfig::default()
    };
    let entries = vec![file("MT32_CONTROL.ROM"), file("MT32_PCM.ROM")];

    resolve_startup_midi(&mut midi, stated, &flags, &saved, false, &entries);

    assert_eq!(midi.backend, MidiBackend::Off);
    assert_eq!(midi.external_port, port("TOML port", 3));
    assert_eq!(midi.soundfont, text("saved.sf3"));
    assert_eq!(midi.mt32_control_rom, text("state/MT32_CONTROL.ROM"));
    assert_eq!(midi.mt32_pcm_rom, text("state/MT32_PCM.ROM"));
}

fn toml_midi() -> MidiConfig {
    MidiConfig {
        backend: MidiBackend::Munt,
        external_port: port("TOML port", 2),
        soundfont: text("toml.sf3"),
        mt32_control_rom: text("toml-control.rom"),
        mt32_pcm_rom: text("toml-pcm.rom"),
    }
}

fn saved_midi() -> MidiConfig {
    MidiConfig {
        backend: MidiBackend::Off,
        external_port: port("Saved port", 1),
        soundfont: text("saved.sf3"),
        mt32_control_rom: text("saved-control.rom"),
        mt32_pcm_rom: text("saved-pcm.rom"),
    }
}

#[test]
fn midi_precedence_matrix_covers_every_field() {
    let toml = "[audio.midi]\nbackend = \"munt\"\nsoundfont = \"toml.sf3\"\n\
                mt32_control_rom = \"toml-control.rom\"\nmt32_pcm_rom = \"toml-pcm.rom\"\n\
                [audio.midi.external_port]\nname = \"TOML port\"\nordinal = 2\n";
    let entries = vec![file("MT32_CONTROL.ROM"), file("MT32_PCM.ROM")];
    let flags = MidiFlags {
        backend: Some(MidiBackend::External),
        port: text("CLI port"),
        port_ordinal: Some(4),
        soundfont: text("cli.sf3"),
        mt32_control_rom: text("cli-control.rom"),
        mt32_pcm_rom: text("cli-pcm.rom"),
    };

    let mut cli = toml_midi();
    resolve_startup_midi(&mut cli, presence(toml), &flags, &saved_midi(), false, &entries);
    assert_eq!(
        cli,
        MidiConfig {
            backend: MidiBackend::External,
            external_port: port("CLI port", 4),
            soundfont: text("cli.sf3"),
            mt32_control_rom: text("cli-control.rom"),
            mt32_pcm_rom: text("cli-pcm.rom"),
        }
    );

    let mut stated = toml_midi();
    resolve_startup_midi(&mut stated, presence(toml), &no_flags(), &saved_midi(), false, &entries);
    assert_eq!(stated, toml_midi());

    let mut saved = MidiConfig::default();
    resolve_startup_midi(
        &mut saved,
        presence("[machine]\nmemory_mib = 24\n"),
        &no_flags(),
        &saved_midi(),
        false,
        &entries,
    );
    assert_eq!(saved, saved_midi());
}

fn saved_munt() -> MidiConfig {
    MidiConfig { backend: MidiBackend::Munt, ..saved_midi() }
}

#[test]
fn each_toml_midi_key_blocks_only_its_saved_value() {
    let none = MidiConfig::default;
    let cases = [
        (
            "backend",
            "[audio.midi]\nbackend = \"off\"\n",
            MidiConfig { backend: MidiBackend::Off, ..none() },
            MidiConfig { backend: MidiBackend::Off, ..saved_munt() },
        ),
        (
            "external-port",
            "[audio.midi.external_port]\nname = \"TOML port\"\nordinal = 7\n",
            MidiConfig { external_port: port("TOML port", 7), ..none() },
            MidiConfig { external_port: port("TOML port", 7), ..saved_munt() },
        ),
        (
            "soundfont",
            "[audio.midi]\nsoundfont = \"toml.sf3\"\n",
            MidiConfig { soundfont: text("toml.sf3"), ..none() },
            MidiConfig { soundfont: text("toml.sf3"), ..saved_munt() },
        ),
        (
            "control-rom",
            "[audio.midi]\nmt32_control_rom = \"toml-control.rom\"\n",
            MidiConfig { mt32_control_rom: text("toml-control.rom"), ..none() },
            MidiConfig { mt32_control_rom: text("toml-control.rom"), ..saved_munt() },
        ),
        (
            "pcm-rom",
            "[audio.midi]\nmt32_pcm_rom = \"toml-pcm.rom\"\n",
            MidiConfig { mt32_pcm_rom: text("toml-pcm.rom"), ..none() },
            MidiConfig { mt32_pcm_rom: text("toml-pcm.rom"), ..saved_munt() },
        ),
    ];
    let entries = vec![file("MT32_CONTROL.ROM"), file("MT32_PCM.ROM")];
    for (label, config_text, config, expected) in cases {
        let mut midi = config;
        resolve_startup_midi(
            &mut midi,
            presence(config_text),
            &no_flags(),
            &saved_munt(),
            false,
            &entries,
        );
        assert_eq!(midi, expected, "{label}");
    }

    let mut discovery = MidiConfig::default();
    resolve_startup_midi(
        &mut discovery,
        presence("[machine]\nmemory_mib = 24\n"),
        &no_flags(),
        &MidiConfig::default(),
        false,
        &entries,
    );
    assert_eq!(
        discovery,
        MidiConfig {
            mt32_control_rom: text("state/MT32_CONTROL.ROM"),
            mt32_pcm_rom: text("state/MT32_PCM.ROM"),
            ..MidiConfig::default()
        }
    );
    assert_eq!(discovery.backend, MidiBackend::Off);
}

/// A port without an ordinal is the first of its name.
#[test]
fn a_port_flag_without_an_ordinal_means_the_first() {
    let mut midi = MidiConfig::default();
    apply_midi_flags(&mut midi, &MidiFlags { port: text("USB MIDI"), ..no_flags() });
    assert_eq!(midi.external_port, port("USB MIDI", 0));
    apply_midi_flags(
        &mut midi,
        &MidiFlags { port: text("USB MIDI"), port_ordinal: Some(2), ..no_flags() },
    );
    assert_eq!(midi.external_port, port("USB MIDI", 2));
}

#[test]
fn saved_settings_fill_only_what_is_not_stated() {
    let mut midi = toml_midi();
    merge_saved_midi(
        &mut midi,
        &saved_midi(),
        MidiConfigPresence {
            backend: true,
            external_port: false,
            soundfont: true,
            mt32_control_rom: true,
            mt32_pcm_rom: true,
        },
    );
    assert_eq!(midi, MidiConfig { external_port: port("Saved port", 1), ..toml_midi() });
}

/// With no file and no flags, the saved settings stand.
#[test]
fn nothing_stated_leaves_the_saved_settings() {
    let mut midi = MidiConfig::default();
    resolve_midi(&mut midi, no_config().midi, &no_flags(), &saved_munt());
    assert_eq!(midi, saved_munt());
}

// ---------------------------------------------------------------------------
// Files of the state directory
// ---------------------------------------------------------------------------

#[test]
fn global_glide_discovery_is_case_insensitive() {
    assert_eq!(choose_glide_ovl(None, &Vec::new()), None);
    assert_eq!(
        choose_glide_ovl(None, &vec![file("gLiDe2x.oVl")]),
        text("state/gLiDe2x.oVl")
    );
}

/// The name as it should be written wins; else the least path, whatever the order of
/// the directory.
#[test]
fn the_canonical_glide_library_wins() {
    let entries = vec![file("glide2x.ovl"), file("Glide2x.ovl"), folder("GLIDE2X.OVL")];
    assert_eq!(
        choose_glide_ovl(text("state/GLIDE2X.OVL"), &entries),
        text("state/GLIDE2X.OVL")
    );
    assert_eq!(choose_glide_ovl(None, &entries), text("state/Glide2x.ovl"));
}

#[test]
fn names_are_compared_without_ascii_case() {
    assert!(eq_ignore_ascii_case("Mt32_Pcm.Rom", "MT32_PCM.ROM"));
    assert!(!eq_ignore_ascii_case("mt32", "mt33"));
    assert!(!eq_ignore_ascii_case("\u{e9}", "\u{c9}"));
}

#[test]
fn munt_discovery_is_case_insensitive_and_prefers_mt32() {
    let entries = vec![
        file("mt32_control.rom"),
        file("Mt32_Pcm.Rom"),
        file("CM32L_CONTROL.ROM"),
        file("CM32L_PCM.ROM"),
    ];
    let mut midi = MidiConfig::default();

    discover_munt_roms(&mut midi, &entries);

    assert_eq!(midi.backend, MidiBackend::Off);
    assert_eq!(midi.mt32_control_rom, text("state/mt32_control.rom"));
    assert_eq!(midi.mt32_pcm_rom, text("state/Mt32_Pcm.Rom"));
}

#[test]
fn munt_discovery_uses_only_complete_pairs() {
    let entries = vec![
        file("MT32_CONTROL.ROM"),
        file("cm32l_control.rom"),
        file("cm32l_pcm.rom"),
    ];
    let mut midi = MidiConfig::default();
    discover_munt_roms(&mut midi, &entries);
    assert_eq!(midi.mt32_control_rom, text("state/cm32l_control.rom"));
    assert_eq!(midi.mt32_pcm_rom, text("state/cm32l_pcm.rom"));

    let mut incomplete = MidiConfig::default();
    discover_munt_roms(
        &mut incomplete,
        &vec![file("MT32_CONTROL.ROM"), file("cm32l_control.rom")],
    );
    assert_eq!(incomplete.mt32_control_rom, None);
    assert_eq!(incomplete.mt32_pcm_rom, None);
}

#[test]
fn portable_and_partial_munt_resolution_is_stable() {
    let entries = vec![file("MT32_CONTROL.ROM"), file("MT32_PCM.ROM")];

    let mut explicit = MidiConfig::default();
    let flags = MidiFlags {
        mt32_control_rom: text("missing-explicit-control.rom"),
        ..no_flags()
    };
    let none = MidiConfig::default();
    resolve_startup_midi(&mut explicit, no_config(), &flags, &none, false, &entries);
    assert_eq!(explicit.mt32_control_rom, text("missing-explicit-control.rom"));
    assert_eq!(explicit.mt32_pcm_rom, None);

    let mut saved = MidiConfig::default();
    let kept = MidiConfig {
        mt32_control_rom: text("missing-saved-control.rom"),
        ..MidiConfig::default()
    };
    resolve_startup_midi(&mut saved, no_config(), &no_flags(), &kept, false, &entries);
    assert_eq!(saved.mt32_control_rom, text("missing-saved-control.rom"));
    assert_eq!(saved.mt32_pcm_rom, None);

    let mut portable = MidiConfig::default();
    resolve_startup_midi(&mut portable, no_config(), &no_flags(), &none, true, &entries);
    assert_eq!(portable.backend, MidiBackend::Off);
    assert_eq!(portable.mt32_control_rom, None);
    assert_eq!(portable.mt32_pcm_rom, None);

    let mut incomplete = MidiConfig::default();
    let half = vec![file("MT32_CONTROL.ROM")];
    resolve_startup_midi(&mut incomplete, no_config(), &no_flags(), &none, false, &half);
    assert_eq!(incomplete.mt32_control_rom, None);
    assert_eq!(incomplete.mt32_pcm_rom, None);
}

#[test]
fn a_rom_set_folder_in_the_state_directory_is_discovered() {
    let mut config = MidiConfig::default();
    discover_munt_roms(&mut config, &vec![folder("MT32")]);
    assert_eq!(config.mt32_control_rom, text("state/MT32"));
    assert_eq!(config.mt32_pcm_rom, text("state/MT32"));

    // A loose canonical pair still wins: it is the more specific answer.
    let mut config = MidiConfig::default();
    discover_munt_roms(
        &mut config,
        &vec![folder("MT32"), file("MT32_CONTROL.ROM"), file("MT32_PCM.ROM")],
    );
    assert_eq!(config.mt32_control_rom, text("state/MT32_CONTROL.ROM"));
    assert_eq!(config.mt32_pcm_rom, text("state/MT32_PCM.ROM"));

    // A folder that is not a ROM-set folder is left alone.
    let mut config = MidiConfig::default();
    discover_munt_roms(&mut config, &vec![folder("screenshots")]);
    assert_eq!(config.mt32_control_rom, None);
    assert_eq!(config.mt32_pcm_rom, None);
}

/// Of several folders the one with the least path.
#[test]
fn of_several_rom_folders_the_first_by_path_is_taken() {
    let mut config = MidiConfig::default();
    discover_munt_roms(&mut config, &vec![folder("roms"), folder("mt32-roms"), folder("mt32")]);
    assert_eq!(config.mt32_control_rom, text("state/mt32"));
}

// ---------------------------------------------------------------------------
// Preferences
// ---------------------------------------------------------------------------

#[test]
fn the_default_preferences() {
    let prefs = GuiPrefs::default();
    assert_eq!(
        prefs.crt_style,
        CrtStyle::Subtle,
        "CRT defaults to the subtle look for older files"
    );
    assert_eq!(
        prefs.input_release,
        KeyBinding::new(false, false, false, true, "F2")
    );
    assert_eq!(
        prefs.fullscreen,
        KeyBinding::new(false, false, false, true, "F4")
    );
    assert_eq!(prefs.controller_profile, None);
    assert!(prefs.panel_open, "panel defaults to open for older files");
    assert_eq!(prefs.midi, MidiConfig::default());
    assert_eq!(prefs.screenshot, default_screenshot());
    assert_eq!(prefs.mouse_sensitivity, 100);
}

#[test]
fn key_binding_display_strips_winit_prefixes() {
    for host in [Host::Windows, Host::Other] {
        let super_key_name = host.super_key_name();
        assert_eq!(
            KeyBinding::new(false, false, false, true, "F2").display(host),
            format!("{super_key_name}+F2")
        );
        assert_eq!(
            KeyBinding::new(true, true, true, true, "KeyA").display(host),
            format!("Ctrl+Shift+Alt+{super_key_name}+A")
        );
        assert_eq!(
            KeyBinding::new(false, false, false, false, "Digit5").display(host),
            "5"
        );
    }
}

#[test]
fn the_super_key_takes_the_name_the_host_gives_it() {
    assert_eq!(Host::Windows.super_key_name(), "Win");
    assert_eq!(Host::Other.super_key_name(), "Super");
    let binding = KeyBinding::new(false, false, false, true, "F2");
    assert_eq!(binding.display(Host::Windows), "Win+F2");
    assert_eq!(binding.display(Host::Other), "Super+F2");
    assert!(binding.super_key);
}

#[test]
fn a_binding_matches_its_own_keys_only() {
    let binding = KeyBinding::new(true, false, false, true, "F4");
    assert!(binding.matches("F4", true, false, false, true));
    assert!(!binding.matches("F4", true, false, true, true));
    assert!(!binding.matches("F4", false, false, false, true));
    assert!(!binding.matches("F5", true, false, false, true));
}

#[test]
fn retired_hotkey_defaults_move_to_the_current_ones() {
    let mut moved = GuiPrefs::default();
    moved.input_release = KeyBinding::new(true, false, false, false, "F2");
    moved.fullscreen = KeyBinding::new(true, false, false, false, "F11");
    let labels = moved.migrate_retired_hotkeys(Host::Other);
    assert_eq!(moved.input_release, GuiPrefs::default().input_release);
    assert_eq!(moved.fullscreen, GuiPrefs::default().fullscreen);
    assert_eq!(labels.len(), 2);
    assert_eq!(labels[0], ("Ctrl+F2".to_string(), "Super+F2".to_string()));
    // Once is enough.
    assert!(moved.migrate_retired_hotkeys(Host::Other).is_empty());

    // A combination the user chose is left alone, even on the same keys.
    let mut kept = GuiPrefs::default();
    kept.input_release = KeyBinding::new(true, true, false, false, "F2");
    kept.migrate_retired_hotkeys(Host::Other);
    assert_eq!(
        kept.input_release,
        KeyBinding::new(true, true, false, false, "F2")
    );
}

#[test]
fn the_retired_defaults_stand_beside_their_successors() {
    let (release, fullscreen) = retired_hotkey_defaults();
    assert_eq!(release.0, KeyBinding::new(true, false, false, false, "F2"));
    assert_eq!(release.1, GuiPrefs::default().input_release);
    assert_eq!(fullscreen.0, KeyBinding::new(true, false, false, false, "F11"));
    assert_eq!(fullscreen.1, GuiPrefs::default().fullscreen);
}

#[test]
fn crt_styles_have_their_numbers() {
    assert_eq!(CrtStyle::default(), CrtStyle::Subtle);
    assert_eq!(CrtStyle::Off.as_u32(), 0);
    assert_eq!(CrtStyle::YeOlde.as_u32(), 2);
    assert_eq!(CrtStyle::Subtle.as_u32(), 1);
}

#[test]
fn only_the_compatible_gamma_compensates() {
    assert!(GlideGamma::Compatible.compensates());
    assert!(!GlideGamma::Original.compensates());
    assert_eq!(GuiPrefs::default().glide_gamma, GlideGamma::default());
}

#[test]
fn the_pointers_speed_is_bounded() {
    assert_eq!(clamp_mouse_sensitivity(0), 10);
    assert_eq!(clamp_mouse_sensitivity(10), 10);
    assert_eq!(clamp_mouse_sensitivity(250), 250);
    assert_eq!(clamp_mouse_sensitivity(400), 400);
    assert_eq!(clamp_mouse_sensitivity(u16::MAX), 400);
}

#[test]
fn the_retired_audio_keys_are_named() {
    for (line, key) in [
        ("amp_gain = 120\n", "amp_gain"),
        ("amp_gain = 300\n", "amp_gain"),
        ("output_gain = 25\n", "output_gain"),
        ("output_gain = 500\n", "output_gain"),
        ("pc_speaker_volume = 40\n", "pc_speaker_volume"),
    ] {
        assert_eq!(inspect_prefs(line).unwrap().1, vec![key], "{line}");
    }
    let mixed = inspect_prefs(
        "amp_gain = 120\noutput_gain = 25\npc_speaker_volume = 40\nmaster_volume = 0.25\n",
    )
    .unwrap();
    assert_eq!(mixed.1, vec!["amp_gain", "output_gain", "pc_speaker_volume"]);
    assert!(contains(&mixed.0, "master_volume"));
    let clean = read_document("master_volume = 0.25\n").unwrap();
    assert!(retired_keys_present(&clean).is_empty());
}

#[test]
fn prefs_path_sits_beside_c_root() {
    let path = prefs_path("/home/user/.izarravm/c_drive", Some("/home/user/.izarravm"));
    assert_eq!(
        path,
        Located { directory: "/home/user/.izarravm".to_string(), name: "izarravm.conf" }
    );
    // A drive without a directory above it keeps the preferences itself.
    assert_eq!(prefs_path("/", None).directory, "/");
}
