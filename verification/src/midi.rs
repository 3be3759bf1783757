//! Where the guest's MIDI goes.

use vstd::prelude::*;

#[allow(unused_imports)]
use crate::text::opt_text;

verus! {

/// What receives the guest's MIDI.
#[derive(Clone, Copy, Debug, PartialEq, Eq, Structural)]
pub enum MidiBackend {
    Off,
    /// A port of the host.
    External,
    /// The MT-32 emulation.
    Munt,
}

/// A MIDI port of the host: its name, and which of the ports of that name.
#[derive(Debug, PartialEq, Eq)]
pub struct MidiPortId {
    pub name: String,
    pub ordinal: u16,
}

/// Where the guest's MIDI goes, and what it sounds like.
#[derive(Debug, PartialEq, Eq)]
pub struct MidiConfig {
    pub backend: MidiBackend,
    pub external_port: Option<MidiPortId>,
    pub soundfont: Option<String>,
    pub mt32_control_rom: Option<String>,
    pub mt32_pcm_rom: Option<String>,
}

/// A [`MidiConfig`] as contracts speak of it.
pub struct MidiView {
    pub backend: MidiBackend,
    pub external_port: Option<(Seq<char>, u16)>,
    pub soundfont: Option<Seq<char>>,
    pub mt32_control_rom: Option<Seq<char>>,
    pub mt32_pcm_rom: Option<Seq<char>>,
}

/// What an optional port is.
pub open spec fn opt_port(port: Option<MidiPortId>) -> Option<(Seq<char>, u16)> {
    match port {
        Some(p) => Some((p.name@, p.ordinal)),
        None => None,
    }
}

impl View for MidiConfig {
    type V = MidiView;

    open spec fn view(&self) -> MidiView {
        MidiView {
            backend: self.backend,
            external_port: opt_port(self.external_port),
            soundfont: opt_text(self.soundfont),
            mt32_control_rom: opt_text(self.mt32_control_rom),
            mt32_pcm_rom: opt_text(self.mt32_pcm_rom),
        }
    }
}

/// No MIDI at all.
pub open spec fn no_midi() -> MidiView {
    MidiView {
        backend: MidiBackend::Off,
        external_port: None,
        soundfont: None,
        mt32_control_rom: None,
        mt32_pcm_rom: None,
    }
}

impl Default for MidiConfig {
    fn default() -> (config: Self)
        ensures
            config@ == no_midi(),
    {
        MidiConfig {
            backend: MidiBackend::Off,
            external_port: None,
            soundfont: None,
            mt32_control_rom: None,
            mt32_pcm_rom: None,
        }
    }
}

/// The text again.
pub(crate) fn copy_text(text: &Option<String>) -> (copy: Option<String>)
    ensures
        opt_text(copy) == opt_text(*text),
{
    match text {
        Some(t) => Some(t.clone()),
        None => None,
    }
}

/// The port again.
pub(crate) fn copy_port(port: &Option<MidiPortId>) -> (copy: Option<MidiPortId>)
    ensures
        opt_port(copy) == opt_port(*port),
{
    match port {
        Some(p) => Some(MidiPortId { name: p.name.clone(), ordinal: p.ordinal }),
        None => None,
    }
}

/// Which settings a configuration file states.
#[derive(Clone, Copy, Debug, PartialEq, Eq, Structural)]
pub struct MidiConfigPresence {
    pub backend: bool,
    pub external_port: bool,
    pub soundfont: bool,
    pub mt32_control_rom: bool,
    pub mt32_pcm_rom: bool,
}

/// The settings of a file with those that it does not state taken from the saved
/// ones.
pub open spec fn with_saved(config: MidiView, saved: MidiView, presence: MidiConfigPresence) -> MidiView {
    MidiView {
        backend: if presence.backend {
            config.backend
        } else {
            saved.backend
        },
        external_port: if presence.external_port {
            config.external_port
        } else {
            saved.external_port
        },
        soundfont: if presence.soundfont {
            config.soundfont
        } else {
            saved.soundfont
        },
        mt32_control_rom: if presence.mt32_control_rom {
            config.mt32_control_rom
        } else {
            saved.mt32_control_rom
        },
        mt32_pcm_rom: if presence.mt32_pcm_rom {
            config.mt32_pcm_rom
        } else {
            saved.mt32_pcm_rom
        },
    }
}

/// Take every setting that is not stated from the saved ones.
pub fn merge_saved_midi(config: &mut MidiConfig, saved: &MidiConfig, presence: MidiConfigPresence)
    ensures
        final(config)@ == with_saved(old(config)@, saved@, presence),
{
    if !presence.backend {
        config.backend = saved.backend;
    }
    if !presence.external_port {
        config.external_port = copy_port(&saved.external_port);
    }
    if !presence.soundfont {
        config.soundfont = copy_text(&saved.soundfont);
    }
    if !presence.mt32_control_rom {
        config.mt32_control_rom = copy_text(&saved.mt32_control_rom);
    }
    if !presence.mt32_pcm_rom {
        config.mt32_pcm_rom = copy_text(&saved.mt32_pcm_rom);
    }
}

/// The settings that the command line gives.
#[derive(Debug)]
pub struct MidiFlags {
    pub backend: Option<MidiBackend>,
    pub port: Option<String>,
    pub port_ordinal: Option<u16>,
    pub soundfont: Option<String>,
    pub mt32_control_rom: Option<String>,
    pub mt32_pcm_rom: Option<String>,
}

/// The port that the command line names: the first of that name, unless it says
/// which.
pub open spec fn flagged_port(flags: MidiFlags) -> Option<(Seq<char>, u16)> {
    match flags.port {
        Some(name) => Some(
            (
                name@,
                match flags.port_ordinal {
                    Some(n) => n,
                    None => 0u16,
                },
            ),
        ),
        None => None,
    }
}

/// The text that was given, or else the other.
pub open spec fn given_or(given: Option<String>, other: Option<Seq<char>>) -> Option<Seq<char>> {
    match given {
        Some(t) => Some(t@),
        None => other,
    }
}

/// The settings of a file with those that the command line gives in their place.
pub open spec fn with_flags(config: MidiView, flags: MidiFlags) -> MidiView {
    MidiView {
        backend: match flags.backend {
            Some(b) => b,
            None => config.backend,
        },
        external_port: match flagged_port(flags) {
            Some(p) => Some(p),
            None => config.external_port,
        },
        soundfont: given_or(flags.soundfont, config.soundfont),
        mt32_control_rom: given_or(flags.mt32_control_rom, config.mt32_control_rom),
        mt32_pcm_rom: given_or(flags.mt32_pcm_rom, config.mt32_pcm_rom),
    }
}

/// Put the settings that the command line gives in their place.
pub fn apply_midi_flags(config: &mut MidiConfig, flags: &MidiFlags)
    ensures
        final(config)@ == with_flags(old(config)@, *flags),
{
    match flags.backend {
        Some(b) => {
            config.backend = b;
        },
        None => {},
    }
    match &flags.port {
        Some(name) => {
            let ordinal: u16 = match flags.port_ordinal {
                Some(n) => n,
                None => 0,
            };
            config.external_port = Some(MidiPortId { name: name.clone(), ordinal });
        },
        None => {},
    }
    if flags.soundfont.is_some() {
        config.soundfont = copy_text(&flags.soundfont);
    }
    if flags.mt32_control_rom.is_some() {
        config.mt32_control_rom = copy_text(&flags.mt32_control_rom);
    }
    if flags.mt32_pcm_rom.is_some() {
        config.mt32_pcm_rom = copy_text(&flags.mt32_pcm_rom);
    }
}

/// Which settings the file states or the command line gives.
pub open spec fn stated(presence: MidiConfigPresence, flags: MidiFlags) -> MidiConfigPresence {
    MidiConfigPresence {
        backend: presence.backend || flags.backend is Some,
        external_port: presence.external_port || flags.port is Some,
        soundfont: presence.soundfont || flags.soundfont is Some,
        mt32_control_rom: presence.mt32_control_rom || flags.mt32_control_rom is Some,
        mt32_pcm_rom: presence.mt32_pcm_rom || flags.mt32_pcm_rom is Some,
    }
}

/// The settings that a start goes by, before any are looked for on the disk: those
/// of the command line, else those that the file states, else the saved ones.
pub open spec fn resolved_midi(
    config: MidiView,
    presence: MidiConfigPresence,
    flags: MidiFlags,
    saved: MidiView,
) -> MidiView {
    with_saved(with_flags(config, flags), saved, stated(presence, flags))
}

/// The settings that a start goes by, before any are looked for on the disk.
pub fn resolve_midi(
    config: &mut MidiConfig,
    presence: MidiConfigPresence,
    flags: &MidiFlags,
    saved: &MidiConfig,
)
    ensures
        final(config)@ == resolved_midi(old(config)@, presence, *flags, saved@),
{
    apply_midi_flags(config, flags);
    let all: MidiConfigPresence = MidiConfigPresence {
        backend: presence.backend || flags.backend.is_some(),
        external_port: presence.external_port || flags.port.is_some(),
        soundfont: presence.soundfont || flags.soundfont.is_some(),
        mt32_control_rom: presence.mt32_control_rom || flags.mt32_control_rom.is_some(),
        mt32_pcm_rom: presence.mt32_pcm_rom || flags.mt32_pcm_rom.is_some(),
    };
    merge_saved_midi(config, saved, all);
}

// ---------------------------------------------------------------------------
// Laws
// ---------------------------------------------------------------------------

/// Each setting comes from the command line where that gives it, else from the file
/// where that states it, else from the saved ones, and none depends on another.
pub proof fn law_midi_sources_have_their_order(
    config: MidiView,
    presence: MidiConfigPresence,
    flags: MidiFlags,
    saved: MidiView,
)
    ensures
        ({
            let r = resolved_midi(config, presence, flags, saved);
            &&& r.backend == match flags.backend {
                Some(b) => b,
                None => if presence.backend {
                    config.backend
                } else {
                    saved.backend
                },
            }
            &&& r.external_port == match flagged_port(flags) {
                Some(p) => Some(p),
                None => if presence.external_port {
                    config.external_port
                } else {
                    saved.external_port
                },
            }
            &&& r.soundfont == given_or(
                flags.soundfont,
                if presence.soundfont {
                    config.soundfont
                } else {
                    saved.soundfont
                },
            )
            &&& r.mt32_control_rom == given_or(
                flags.mt32_control_rom,
                if presence.mt32_control_rom {
                    config.mt32_control_rom
                } else {
                    saved.mt32_control_rom
                },
            )
            &&& r.mt32_pcm_rom == given_or(
                flags.mt32_pcm_rom,
                if presence.mt32_pcm_rom {
                    config.mt32_pcm_rom
                } else {
                    saved.mt32_pcm_rom
                },
            )
        }),
{
}

/// A file that states nothing, with no command line, leaves the saved settings.
pub proof fn law_saved_settings_stand_where_nothing_is_stated(
    config: MidiView,
    presence: MidiConfigPresence,
    flags: MidiFlags,
    saved: MidiView,
)
    requires
        stated(presence, flags) == (MidiConfigPresence {
            backend: false,
            external_port: false,
            soundfont: false,
            mt32_control_rom: false,
            mt32_pcm_rom: false,
        }),
    ensures
        resolved_midi(config, presence, flags, saved) == saved,
{
}

/// A port is named with its place among those of its name, and a place without a name is
/// no port.
pub proof fn law_a_port_is_named_and_placed(flags: MidiFlags)
    ensures
        flagged_port(flags) is Some <==> flags.port is Some,
        flags.port is Some ==> (flagged_port(flags)->0).0 == flags.port->0@,
        flags.port is Some && flags.port_ordinal is Some ==> (flagged_port(flags)->0).1
            == flags.port_ordinal->0,
        flags.port is Some && flags.port_ordinal is None ==> (flagged_port(flags)->0).1 == 0,
{
}

} // verus!
