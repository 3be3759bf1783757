//! The preferences that the windowed emulator keeps.

use vstd::prelude::*;

use crate::document::{contains, read_document};
#[allow(unused_imports)]
use crate::document::{has_key, parsed_toml, toml_of, TomlModel};
use crate::midi::MidiConfig;
#[allow(unused_imports)]
use crate::midi::{no_midi, MidiView};
use crate::text::{chars_of, same_text, slice_text, stands};
#[allow(unused_imports)]
use crate::text::{opt_text, stands_at};
#[allow(unused_imports)]
use crate::text::{
    lemma_split_at_the_first, lemma_split_without_any, split,
};

verus! {

/// The name of the preferences' file.
pub const PREFS_FILE: &'static str = "izarravm.conf";

/// The mouse's sensitivity where none is saved, in percent.
pub const DEFAULT_MOUSE_SENSITIVITY: u16 = 100;

/// The least sensitivity of the mouse.
pub const MIN_MOUSE_SENSITIVITY: u16 = 10;

/// The greatest sensitivity of the mouse.
pub const MAX_MOUSE_SENSITIVITY: u16 = 400;

// ---------------------------------------------------------------------------
// Hotkeys
// ---------------------------------------------------------------------------

/// The system that the emulator runs on, as far as labels differ by it.
#[derive(Clone, Copy, Debug, PartialEq, Eq, Structural)]
pub enum Host {
    Windows,
    /// Any other system.
    Other,
}

impl Host {
    /// What stands on the Super key's cap.
    pub open spec fn super_name(self) -> Seq<char> {
        match self {
            Host::Windows => "Win"@,
            Host::Other => "Super"@,
        }
    }

    /// What a label calls the Super key: the name that the host's keyboards give it.
    pub fn super_key_name(self) -> (name: &'static str)
        ensures
            name@ == self.super_name(),
    {
        match self {
            Host::Windows => "Win",
            Host::Other => "Super",
        }
    }
}

/// A hotkey of the host: modifiers and the name of a key.
#[derive(Debug, PartialEq, Eq)]
pub struct KeyBinding {
    pub ctrl: bool,
    pub shift: bool,
    pub alt: bool,
    pub super_key: bool,
    pub key: String,
}

/// A [`KeyBinding`] as contracts speak of it.
pub struct BindingView {
    pub ctrl: bool,
    pub shift: bool,
    pub alt: bool,
    pub super_key: bool,
    pub key: Seq<char>,
}

impl View for KeyBinding {
    type V = BindingView;

    open spec fn view(&self) -> BindingView {
        BindingView {
            ctrl: self.ctrl,
            shift: self.shift,
            alt: self.alt,
            super_key: self.super_key,
            key: self.key@,
        }
    }
}

/// The name of a key without the word for its kind.
pub open spec fn plain_key(key: Seq<char>) -> Seq<char> {
    if stands_at(key, "Key"@, 0) {
        key.skip("Key"@.len() as int)
    } else if stands_at(key, "Digit"@, 0) {
        key.skip("Digit"@.len() as int)
    } else {
        key
    }
}

/// A word where a modifier is held.
pub open spec fn modifier(held: bool, word: Seq<char>) -> Seq<char> {
    if held {
        word
    } else {
        Seq::empty()
    }
}

/// The label of a hotkey on a host.
pub open spec fn binding_label(b: BindingView, host: Host) -> Seq<char> {
    modifier(b.ctrl, "Ctrl+"@) + modifier(b.shift, "Shift+"@) + modifier(b.alt, "Alt+"@) + modifier(
        b.super_key,
        host.super_name() + "+"@,
    ) + plain_key(b.key)
}

impl KeyBinding {
    /// A hotkey.
    pub fn new(ctrl: bool, shift: bool, alt: bool, super_key: bool, key: &str) -> (binding: Self)
        ensures
            binding@ == (BindingView { ctrl, shift, alt, super_key, key: key@ }),
    {
        KeyBinding { ctrl, shift, alt, super_key, key: key.to_owned() }
    }

    /// Whether a key with these modifiers is the hotkey.
    pub fn matches(&self, key: &str, ctrl: bool, shift: bool, alt: bool, super_key: bool) -> (yes:
        bool)
        ensures
            yes == (self@ == (BindingView { ctrl, shift, alt, super_key, key: key@ })),
    {
        self.ctrl == ctrl && self.shift == shift && self.alt == alt && self.super_key == super_key
            && same_text(self.key.as_str(), key)
    }

    /// The hotkey's label, like "Win+F2" on Windows and "Super+F2" elsewhere.
    pub fn display(&self, host: Host) -> (label: String)
        ensures
            label@ == binding_label(self@, host),
    {
        let mut label: String = String::new();
        assert(label@ =~= Seq::empty());
        if self.ctrl {
            label.append("Ctrl+");
        }
        assert(label@ =~= modifier(self.ctrl, "Ctrl+"@));
        if self.shift {
            label.append("Shift+");
        }
        assert(label@ =~= modifier(self.ctrl, "Ctrl+"@) + modifier(self.shift, "Shift+"@));
        if self.alt {
            label.append("Alt+");
        }
        assert(label@ =~= modifier(self.ctrl, "Ctrl+"@) + modifier(self.shift, "Shift+"@)
            + modifier(self.alt, "Alt+"@));
        if self.super_key {
            label.append(host.super_key_name());
            label.append("+");
        }
        assert(label@ =~= modifier(self.ctrl, "Ctrl+"@) + modifier(self.shift, "Shift+"@)
            + modifier(self.alt, "Alt+"@) + modifier(self.super_key, host.super_name() + "+"@));
        label.append(plain_key_text(self.key.as_str()).as_str());
        label
    }
}

/// The name of a key without the word for its kind.
fn plain_key_text(key: &str) -> (text: String)
    ensures
        text@ == plain_key(key@),
{
    let chars: Vec<char> = chars_of(key);
    let word: Vec<char> = chars_of("Key");
    if word.len() <= chars.len() && stands(&chars, &word, 0) {
        assert(chars@.subrange(word@.len() as int, chars@.len() as int) =~= key@.skip(
            "Key"@.len() as int,
        ));
        return slice_text(&chars, word.len(), chars.len());
    }
    let word: Vec<char> = chars_of("Digit");
    if word.len() <= chars.len() && stands(&chars, &word, 0) {
        assert(chars@.subrange(word@.len() as int, chars@.len() as int) =~= key@.skip(
            "Digit"@.len() as int,
        ));
        return slice_text(&chars, word.len(), chars.len());
    }
    key.to_owned()
}

/// A hotkey with the Super key alone.
pub open spec fn super_binding(key: Seq<char>) -> BindingView {
    BindingView { ctrl: false, shift: false, alt: false, super_key: true, key }
}

/// A hotkey with the Control key alone.
pub open spec fn ctrl_binding(key: Seq<char>) -> BindingView {
    BindingView { ctrl: true, shift: false, alt: false, super_key: false, key }
}

/// The hotkey that lets captured input go.
pub fn default_input_release() -> (binding: KeyBinding)
    ensures
        binding@ == super_binding("F2"@),
{
    KeyBinding::new(false, false, false, true, "F2")
}

/// The hotkey that fills the screen.
pub fn default_fullscreen() -> (binding: KeyBinding)
    ensures
        binding@ == super_binding("F4"@),
{
    KeyBinding::new(false, false, false, true, "F4")
}

/// The hotkey that takes a screenshot.
pub fn default_screenshot() -> (binding: KeyBinding)
    ensures
        binding@ == super_binding("F12"@),
{
    KeyBinding::new(false, false, false, true, "F12")
}

/// The defaults that were retired, each with the one that took its place: that of
/// the release of input, and that of the full screen.
pub fn retired_hotkey_defaults() -> (pairs: ((KeyBinding, KeyBinding), (KeyBinding, KeyBinding)))
    ensures
        pairs.0.0@ == ctrl_binding("F2"@),
        pairs.0.1@ == super_binding("F2"@),
        pairs.1.0@ == ctrl_binding("F11"@),
        pairs.1.1@ == super_binding("F4"@),
{
    (
        (KeyBinding::new(true, false, false, false, "F2"), default_input_release()),
        (KeyBinding::new(true, false, false, false, "F11"), default_fullscreen()),
    )
}

// ---------------------------------------------------------------------------
// Looks
// ---------------------------------------------------------------------------

/// How much of a cathode-ray tube the picture shows.
#[derive(Clone, Copy, Debug, PartialEq, Eq, Structural)]
pub enum CrtStyle {
    /// Nothing of it.
    Off,
    /// A little.
    Subtle,
    /// Scan lines, a shadow mask, curvature and grain.
    YeOlde,
}

impl CrtStyle {
    /// The number by which the shader knows the style.
    pub open spec fn selector(self) -> u32 {
        match self {
            CrtStyle::Off => 0,
            CrtStyle::Subtle => 1,
            CrtStyle::YeOlde => 2,
        }
    }

    /// The number by which the shader knows the style.
    pub fn as_u32(self) -> (n: u32)
        ensures
            n == self.selector(),
    {
        match self {
            CrtStyle::Off => 0,
            CrtStyle::Subtle => 1,
            CrtStyle::YeOlde => 2,
        }
    }
}

impl Default for CrtStyle {
    fn default() -> (style: Self)
        ensures
            style == CrtStyle::Subtle,
    {
        CrtStyle::Subtle
    }
}

/// How the lift of the 3D cards of the time is shown.
#[derive(Clone, Copy, Debug, PartialEq, Eq, Structural)]
pub enum GlideGamma {
    /// Taken back for a display of today.
    Compatible,
    /// As the card showed it.
    Original,
}

impl GlideGamma {
    /// Whether the lift is taken back.
    pub fn compensates(self) -> (yes: bool)
        ensures
            yes == (self == GlideGamma::Compatible),
    {
        match self {
            GlideGamma::Compatible => true,
            GlideGamma::Original => false,
        }
    }
}

impl Default for GlideGamma {
    fn default() -> (gamma: Self)
        ensures
            gamma == GlideGamma::Compatible,
    {
        GlideGamma::Compatible
    }
}

/// A sensitivity within the bounds of the slider.
pub fn clamp_mouse_sensitivity(percent: u16) -> (bounded: u16)
    ensures
        bounded == if percent < MIN_MOUSE_SENSITIVITY {
            MIN_MOUSE_SENSITIVITY
        } else if percent > MAX_MOUSE_SENSITIVITY {
            MAX_MOUSE_SENSITIVITY
        } else {
            percent
        },
        10 <= bounded <= 400,
        10 <= percent <= 400 ==> bounded == percent,
        percent < 10 ==> bounded == 10,
        percent > 400 ==> bounded == 400,
{
    if percent < MIN_MOUSE_SENSITIVITY {
        MIN_MOUSE_SENSITIVITY
    } else if percent > MAX_MOUSE_SENSITIVITY {
        MAX_MOUSE_SENSITIVITY
    } else {
        percent
    }
}

// ---------------------------------------------------------------------------
// The preferences
// ---------------------------------------------------------------------------

/// The preferences, but for the levels of sound and of brightness.
#[derive(Debug, PartialEq, Eq)]
pub struct GuiPrefs {
    pub crt_style: CrtStyle,
    pub glide_gamma: GlideGamma,
    /// Whether a new window fills the screen.
    pub start_fullscreen: bool,
    /// The mouse's sensitivity in percent.
    pub mouse_sensitivity: u16,
    pub input_release: KeyBinding,
    pub fullscreen: KeyBinding,
    pub screenshot: KeyBinding,
    /// The controller profile of the next run.
    pub controller_profile: Option<String>,
    pub last_floppy_image: Option<String>,
    pub last_cd_image: Option<String>,
    pub last_cd_folder: Option<String>,
    /// Whether the control panel is open.
    pub panel_open: bool,
    pub midi: MidiConfig,
}

/// [`GuiPrefs`] as contracts speak of them.
pub struct PrefsView {
    pub crt_style: CrtStyle,
    pub glide_gamma: GlideGamma,
    pub start_fullscreen: bool,
    pub mouse_sensitivity: u16,
    pub input_release: BindingView,
    pub fullscreen: BindingView,
    pub screenshot: BindingView,
    pub controller_profile: Option<Seq<char>>,
    pub last_floppy_image: Option<Seq<char>>,
    pub last_cd_image: Option<Seq<char>>,
    pub last_cd_folder: Option<Seq<char>>,
    pub panel_open: bool,
    pub midi: MidiView,
}

impl View for GuiPrefs {
    type V = PrefsView;

    open spec fn view(&self) -> PrefsView {
        PrefsView {
            crt_style: self.crt_style,
            glide_gamma: self.glide_gamma,
            start_fullscreen: self.start_fullscreen,
            mouse_sensitivity: self.mouse_sensitivity,
            input_release: self.input_release@,
            fullscreen: self.fullscreen@,
            screenshot: self.screenshot@,
            controller_profile: opt_text(self.controller_profile),
            last_floppy_image: opt_text(self.last_floppy_image),
            last_cd_image: opt_text(self.last_cd_image),
            last_cd_folder: opt_text(self.last_cd_folder),
            panel_open: self.panel_open,
            midi: self.midi@,
        }
    }
}

/// The preferences where none are saved.
pub open spec fn default_prefs() -> PrefsView {
    PrefsView {
        crt_style: CrtStyle::Subtle,
        glide_gamma: GlideGamma::Compatible,
        start_fullscreen: false,
        mouse_sensitivity: DEFAULT_MOUSE_SENSITIVITY,
        input_release: super_binding("F2"@),
        fullscreen: super_binding("F4"@),
        screenshot: super_binding("F12"@),
        controller_profile: None,
        last_floppy_image: None,
        last_cd_image: None,
        last_cd_folder: None,
        panel_open: true,
        midi: no_midi(),
    }
}

impl Default for GuiPrefs {
    fn default() -> (prefs: Self)
        ensures
            prefs@ == default_prefs(),
    {
        GuiPrefs {
            crt_style: CrtStyle::Subtle,
            glide_gamma: GlideGamma::Compatible,
            start_fullscreen: false,
            mouse_sensitivity: DEFAULT_MOUSE_SENSITIVITY,
            input_release: default_input_release(),
            fullscreen: default_fullscreen(),
            screenshot: default_screenshot(),
            controller_profile: None,
            last_floppy_image: None,
            last_cd_image: None,
            last_cd_folder: None,
            panel_open: true,
            midi: MidiConfig::default(),
        }
    }
}

/// A hotkey that holds a retired default moved to the one that took its place.
pub open spec fn moved(
    binding: BindingView,
    retired: BindingView,
    current: BindingView,
) -> BindingView {
    if binding == retired {
        current
    } else {
        binding
    }
}

/// The preferences with no retired hotkey left.
pub open spec fn migrated(prefs: PrefsView) -> PrefsView {
    PrefsView {
        input_release: moved(prefs.input_release, ctrl_binding("F2"@), super_binding("F2"@)),
        fullscreen: moved(prefs.fullscreen, ctrl_binding("F11"@), super_binding("F4"@)),
        ..prefs
    }
}

/// The labels of the hotkeys that were moved: the retired one's and the new one's.
pub open spec fn moves(prefs: PrefsView, host: Host) -> Seq<(Seq<char>, Seq<char>)> {
    (if prefs.input_release == ctrl_binding("F2"@) {
        seq![
            (
                binding_label(ctrl_binding("F2"@), host),
                binding_label(super_binding("F2"@), host),
            ),
        ]
    } else {
        Seq::empty()
    }) + (if prefs.fullscreen == ctrl_binding("F11"@) {
        seq![
            (
                binding_label(ctrl_binding("F11"@), host),
                binding_label(super_binding("F4"@), host),
            ),
        ]
    } else {
        Seq::empty()
    })
}

/// The labels of a list of moves.
pub open spec fn move_views(list: Seq<(String, String)>) -> Seq<(Seq<char>, Seq<char>)> {
    list.map_values(|m: (String, String)| (m.0@, m.1@))
}

/// Whether two hotkeys are the same.
fn same_binding(a: &KeyBinding, b: &KeyBinding) -> (same: bool)
    ensures
        same == (a@ == b@),
{
    a.matches(b.key.as_str(), b.ctrl, b.shift, b.alt, b.super_key)
}

impl GuiPrefs {
    /// Move every hotkey that still holds a retired default to the one that took its
    /// place, and say which were moved.
    pub fn migrate_retired_hotkeys(&mut self, host: Host) -> (moved: Vec<(String, String)>)
        ensures
            final(self)@ == migrated(old(self)@),
            move_views(moved@) == moves(old(self)@, host),
    {
        let mut moved: Vec<(String, String)> = Vec::new();
        let ghost before = self@;
        let (release, fullscreen) = retired_hotkey_defaults();
        if same_binding(&self.input_release, &release.0) {
            moved.push((release.0.display(host), release.1.display(host)));
            self.input_release = release.1;
        }
        let ghost first = move_views(moved@);
        assert(first =~= if before.input_release == ctrl_binding("F2"@) {
            seq![
                (
                    binding_label(ctrl_binding("F2"@), host),
                    binding_label(super_binding("F2"@), host),
                ),
            ]
        } else {
            Seq::empty()
        });
        if same_binding(&self.fullscreen, &fullscreen.0) {
            moved.push(
                (fullscreen.0.display(host), fullscreen.1.display(host)),
            );
            self.fullscreen = fullscreen.1;
        }
        assert(move_views(moved@) =~= moves(before, host));
        moved
    }
}

// ---------------------------------------------------------------------------
// The file
// ---------------------------------------------------------------------------

/// A file or a directory, by the directory that it stands in and its own name.
#[derive(Debug, PartialEq, Eq)]
pub struct Located {
    pub directory: String,
    pub name: &'static str,
}

/// Where the preferences are kept: beside the guest's drive. `parent` is the
/// directory that holds `c_root`, where there is one.
pub fn prefs_path(c_root: &str, parent: Option<&str>) -> (file: Located)
    ensures
        file.name@ == PREFS_FILE@,
        file.directory@ == match parent {
            Some(p) => p@,
            None => c_root@,
        },
{
    let directory: String = match parent {
        Some(p) => p.to_owned(),
        None => c_root.to_owned(),
    };
    Located { directory, name: PREFS_FILE }
}

/// The keys that preferences once had.
pub open spec fn retired_keys() -> Seq<Seq<char>> {
    seq!["amp_gain"@, "output_gain"@, "pc_speaker_volume"@]
}

/// Those of the retired keys that a document still has, in their order.
pub open spec fn retired_in(model: TomlModel) -> Seq<Seq<char>> {
    retired_keys().filter(|key: Seq<char>| has_key(model, key))
}

/// What a list of words holds.
pub open spec fn word_views(words: Seq<&'static str>) -> Seq<Seq<char>> {
    words.map_values(|word: &'static str| word@)
}

/// Those of the retired keys that a document still has.
pub fn retired_keys_present(value: &toml::Value) -> (keys: Vec<&'static str>)
    ensures
        word_views(keys@) == retired_in(toml_of(*value)),
{
    let retired: Vec<&'static str> = vec!["amp_gain", "output_gain", "pc_speaker_volume"];
    let ghost list = retired_keys();
    let ghost wanted = |key: Seq<char>| has_key(toml_of(*value), key);
    let mut keys: Vec<&'static str> = Vec::new();
    let mut i: usize = 0;
    proof {
        reveal(Seq::filter);
        assert(list.take(0) =~= Seq::empty());
        assert(word_views(keys@) =~= Seq::empty());
    }
    while i < retired.len()
        invariant
            i <= retired@.len(),
            retired@.len() == list.len(),
            forall|k: int| 0 <= k < list.len() ==> (#[trigger] retired@[k])@ == list[k],
            wanted == (|key: Seq<char>| has_key(toml_of(*value), key)),
            word_views(keys@) == list.take(i as int).filter(wanted),
        decreases retired@.len() - i,
    {
        proof {
            reveal(Seq::filter);
            assert(list.take(i + 1).drop_last() =~= list.take(i as int));
        }
        let ghost before = word_views(keys@);
        if contains(value, retired[i]) {
            keys.push(retired[i]);
            assert(word_views(keys@) =~= before.push(list[i as int]));
        }
        i = i + 1;
    }
    assert(list.take(list.len() as int) =~= list);
    keys
}

/// A saved file as a document, with the retired keys that it still has; or why it is
/// no document.
pub fn inspect_prefs(text: &str) -> (result: Result<
    (toml::Value, Vec<&'static str>),
    toml::de::Error,
>)
    ensures
        match result {
            Ok(found) => parsed_toml(text@) == Some(toml_of(found.0)) && word_views(found.1@)
                == retired_in(toml_of(found.0)),
            Err(_) => parsed_toml(text@) is None,
        },
{
    match read_document(text) {
        Ok(value) => {
            let keys: Vec<&'static str> = retired_keys_present(&value);
            Ok((value, keys))
        },
        Err(error) => Err(error),
    }
}

// ---------------------------------------------------------------------------
// Laws
// ---------------------------------------------------------------------------

/// Preferences that were migrated once stay as they are.
pub proof fn law_migration_is_done_once(prefs: PrefsView, host: Host)
    ensures
        migrated(migrated(prefs)) == migrated(prefs),
        moves(migrated(prefs), host) == Seq::<(Seq<char>, Seq<char>)>::empty(),
{
    assert(moves(migrated(prefs), host) =~= Seq::empty());
}

/// A hotkey that the user chose is left alone; only the two retired defaults move.
pub proof fn law_a_chosen_hotkey_is_kept(prefs: PrefsView)
    ensures
        prefs.input_release != ctrl_binding("F2"@) ==> migrated(prefs).input_release
            == prefs.input_release,
        prefs.fullscreen != ctrl_binding("F11"@) ==> migrated(prefs).fullscreen
            == prefs.fullscreen,
        migrated(prefs).screenshot == prefs.screenshot,
        migrated(prefs).midi == prefs.midi,
        migrated(prefs).mouse_sensitivity == prefs.mouse_sensitivity,
{
}

/// What is held of a hotkey, in the order of its label, and its key behind it.
pub open spec fn label_words(b: BindingView, host: Host) -> Seq<Seq<char>> {
    (if b.ctrl {
        seq!["Ctrl"@]
    } else {
        Seq::empty()
    }) + (if b.shift {
        seq!["Shift"@]
    } else {
        Seq::empty()
    }) + (if b.alt {
        seq!["Alt"@]
    } else {
        Seq::empty()
    }) + (if b.super_key {
        seq![
            if host is Windows {
                "Win"@
            } else {
                "Super"@
            },
        ]
    } else {
        Seq::empty()
    }) + seq![plain_key(b.key)]
}

/// A label reads back between its plus signs: every modifier that is held and no other, and
/// then the key.
pub proof fn law_a_label_reads_back(b: BindingView, host: Host)
    requires
        !plain_key(b.key).contains('+'),
    ensures
        split(binding_label(b, host), '+') == label_words(b, host),
{
    reveal_strlit("Ctrl");
    reveal_strlit("Shift");
    reveal_strlit("Alt");
    reveal_strlit("Win");
    reveal_strlit("Super");
    reveal_strlit("Ctrl+");
    reveal_strlit("Shift+");
    reveal_strlit("Alt+");
    reveal_strlit("+");
    assert("+"@ =~= seq!['+']);
    assert("Ctrl+"@ =~= "Ctrl"@ + seq!['+']);
    assert("Shift+"@ =~= "Shift"@ + seq!['+']);
    assert("Alt+"@ =~= "Alt"@ + seq!['+']);
    let key = plain_key(b.key);
    lemma_split_without_any(key, '+');
    let name = host.super_name();
    assert(!name.contains('+'));
    let s0 = key;
    let w0 = seq![key];
    let s1 = modifier(b.super_key, name + "+"@) + s0;
    let w1 = if b.super_key {
        seq![name] + w0
    } else {
        w0
    };
    lemma_modifier_read(b.super_key, name, name + "+"@, s0, w0);
    let s2 = modifier(b.alt, "Alt+"@) + s1;
    let w2 = if b.alt {
        seq!["Alt"@] + w1
    } else {
        w1
    };
    lemma_modifier_read(b.alt, "Alt"@, "Alt+"@, s1, w1);
    let s3 = modifier(b.shift, "Shift+"@) + s2;
    let w3 = if b.shift {
        seq!["Shift"@] + w2
    } else {
        w2
    };
    lemma_modifier_read(b.shift, "Shift"@, "Shift+"@, s2, w2);
    let s4 = modifier(b.ctrl, "Ctrl+"@) + s3;
    let w4 = if b.ctrl {
        seq!["Ctrl"@] + w3
    } else {
        w3
    };
    lemma_modifier_read(b.ctrl, "Ctrl"@, "Ctrl+"@, s3, w3);
    assert(binding_label(b, host) =~= s4);
    assert(label_words(b, host) =~= w4);
}

/// A modifier in front is one more word where it is held.
proof fn lemma_modifier_read(
    held: bool,
    word: Seq<char>,
    lead: Seq<char>,
    rest: Seq<char>,
    words: Seq<Seq<char>>,
)
    requires
        !word.contains('+'),
        lead == word + seq!['+'],
        split(rest, '+') == words,
    ensures
        split(modifier(held, lead) + rest, '+') == if held {
            seq![word] + words
        } else {
            words
        },
{
    if held {
        lemma_split_at_the_first(word, rest, '+');
    } else {
        assert(modifier(held, lead) + rest =~= rest);
    }
}

/// The word for a key's kind is left out of its name, and nothing else.
pub proof fn law_a_plain_key_has_no_kind(rest: Seq<char>)
    ensures
        plain_key("Key"@ + rest) == rest,
        plain_key("Digit"@ + rest) == rest,
        !stands_at(rest, "Key"@, 0) && !stands_at(rest, "Digit"@, 0) ==> plain_key(rest) == rest,
{
    reveal_strlit("Key");
    reveal_strlit("Digit");
    assert(("Key"@ + rest).subrange(0, 3) =~= "Key"@);
    assert(("Digit"@ + rest).subrange(0, 5) =~= "Digit"@);
    assert(("Digit"@ + rest).subrange(0, 3)[0] == 'D');
    assert("Key"@[0] == 'K');
    assert(("Key"@ + rest).skip(3) =~= rest);
    assert(("Digit"@ + rest).skip(5) =~= rest);
}

/// A migration moves the two retired defaults to the defaults of today, which stay; it
/// changes nothing but those two hotkeys, and says one move for each that it changed.
pub proof fn law_a_migration_moves_to_the_defaults(prefs: PrefsView, host: Host)
    ensures
        migrated(default_prefs()) == default_prefs(),
        migrated(prefs).input_release == prefs.input_release || (prefs.input_release
            == ctrl_binding("F2"@) && migrated(prefs).input_release
            == default_prefs().input_release),
        migrated(prefs).fullscreen == prefs.fullscreen || (prefs.fullscreen == ctrl_binding(
            "F11"@,
        ) && migrated(prefs).fullscreen == default_prefs().fullscreen),
        (PrefsView {
            input_release: prefs.input_release,
            fullscreen: prefs.fullscreen,
            ..migrated(prefs)
        }) == prefs,
        prefs.input_release == ctrl_binding("F2"@) ==> migrated(prefs).input_release
            != prefs.input_release,
        prefs.fullscreen == ctrl_binding("F11"@) ==> migrated(prefs).fullscreen
            != prefs.fullscreen,
        moves(prefs, host).len() == (if migrated(prefs).input_release != prefs.input_release {
            1int
        } else {
            0
        }) + (if migrated(prefs).fullscreen != prefs.fullscreen {
            1int
        } else {
            0
        }),
{
    assert(ctrl_binding("F2"@).ctrl != super_binding("F2"@).ctrl);
    assert(ctrl_binding("F11"@).ctrl != super_binding("F4"@).ctrl);
}

/// A move is said with the label that the hotkey had and the label that it has.
pub proof fn law_a_move_is_said_with_its_labels(prefs: PrefsView, host: Host)
    ensures
        migrated(prefs).input_release != prefs.input_release ==> moves(prefs, host)[0] == (
            binding_label(prefs.input_release, host),
            binding_label(migrated(prefs).input_release, host),
        ),
        migrated(prefs).fullscreen != prefs.fullscreen ==> moves(prefs, host).last() == (
            binding_label(prefs.fullscreen, host),
            binding_label(migrated(prefs).fullscreen, host),
        ),
{
}

/// A move is a hotkey's old label and its new one, in this order.
pub proof fn law_a_move_is_old_and_new(list: Seq<(String, String)>, i: int)
    requires
        0 <= i < list.len(),
    ensures
        move_views(list).len() == list.len(),
        move_views(list)[i] == (list[i].0@, list[i].1@),
{
}

} // verus!
