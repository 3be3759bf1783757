//! What a start of the emulator settles before the machine is built: where the
//! guest's drive is, where its MIDI goes, and which files beside it are used.

use vstd::prelude::*;

use crate::document::{contains_deep, contains_within};
#[allow(unused_imports)]
use crate::document::{has_key, parsed_toml, toml_of, value_at, TomlModel};
use crate::document::read_document;
use crate::midi::{copy_text, resolve_midi, MidiConfig, MidiConfigPresence, MidiFlags};
#[allow(unused_imports)]
use crate::midi::{resolved_midi, MidiView};
use crate::prefs::Located;
use crate::text::{before, chars_of, lower_chars, same_text, text_of};
#[allow(unused_imports)]
use crate::text::{
    lemma_before_is_irreflexive, lemma_before_is_transitive, lowered, opt_text, text_before,
};

verus! {

/// The name of the guest's drive where the user names none.
pub const DEFAULT_C_DRIVE: &'static str = "c_drive";

/// The library that Glide programs load.
pub const GLIDE_OVL: &'static str = "GLIDE2X.OVL";

// ---------------------------------------------------------------------------
// What a configuration file states
// ---------------------------------------------------------------------------

/// Which of the settings that have other sources too a configuration file states.
#[derive(Clone, Copy, Debug, PartialEq, Eq, Structural)]
pub struct ConfigPresence {
    pub c_drive: bool,
    pub midi: MidiConfigPresence,
}

/// Whether a document states a key of its `dos` table.
pub open spec fn states_dos(model: TomlModel, key: Seq<char>) -> bool {
    value_at(model, "dos"@) matches Some(dos) && has_key(dos, key)
}

/// Whether a document states a key of its `audio.midi` table.
pub open spec fn states_midi(model: TomlModel, key: Seq<char>) -> bool {
    value_at(model, "audio"@) matches Some(audio) && (value_at(audio, "midi"@) matches Some(midi)
        && has_key(midi, key))
}

/// What a document states.
pub open spec fn presence_of(model: TomlModel) -> ConfigPresence {
    ConfigPresence {
        c_drive: states_dos(model, "c_drive"@),
        midi: MidiConfigPresence {
            backend: states_midi(model, "backend"@),
            external_port: states_midi(model, "external_port"@),
            soundfont: states_midi(model, "soundfont"@),
            mt32_control_rom: states_midi(model, "mt32_control_rom"@),
            mt32_pcm_rom: states_midi(model, "mt32_pcm_rom"@),
        },
    }
}

/// What no document states.
pub open spec fn nothing_stated() -> ConfigPresence {
    ConfigPresence {
        c_drive: false,
        midi: MidiConfigPresence {
            backend: false,
            external_port: false,
            soundfont: false,
            mt32_control_rom: false,
            mt32_pcm_rom: false,
        },
    }
}

/// What a document states.
pub fn config_presence(value: &toml::Value) -> (presence: ConfigPresence)
    ensures
        presence == presence_of(toml_of(*value)),
{
    ConfigPresence {
        c_drive: contains_within(value, "dos", "c_drive"),
        midi: MidiConfigPresence {
            backend: contains_deep(value, "audio", "midi", "backend"),
            external_port: contains_deep(value, "audio", "midi", "external_port"),
            soundfont: contains_deep(value, "audio", "midi", "soundfont"),
            mt32_control_rom: contains_deep(value, "audio", "midi", "mt32_control_rom"),
            mt32_pcm_rom: contains_deep(value, "audio", "midi", "mt32_pcm_rom"),
        },
    }
}

/// A configuration file as a document, with what it states; or why it is no
/// document.
pub fn inspect_config(text: &str) -> (result: Result<
    (toml::Value, ConfigPresence),
    toml::de::Error,
>)
    ensures
        match result {
            Ok(found) => parsed_toml(text@) == Some(toml_of(found.0)) && found.1 == presence_of(
                toml_of(found.0),
            ),
            Err(_) => parsed_toml(text@) is None,
        },
{
    match read_document(text) {
        Ok(value) => {
            let presence: ConfigPresence = config_presence(&value);
            Ok((value, presence))
        },
        Err(error) => Err(error),
    }
}

/// What is stated where there is no configuration file.
pub fn no_config() -> (presence: ConfigPresence)
    ensures
        presence == nothing_stated(),
{
    ConfigPresence {
        c_drive: false,
        midi: MidiConfigPresence {
            backend: false,
            external_port: false,
            soundfont: false,
            mt32_control_rom: false,
            mt32_pcm_rom: false,
        },
    }
}

// ---------------------------------------------------------------------------
// The guest's drive
// ---------------------------------------------------------------------------

/// The directories that a start knows of.
#[derive(Debug)]
pub struct StartupLocations {
    /// Where the emulator keeps its state.
    pub state_dir: String,
    /// Where the emulator itself is.
    pub executable_dir: String,
}

impl StartupLocations {
    /// Where the guest's drive is where nobody says: beside the emulator's state,
    /// or beside a portable emulator.
    pub fn default_c_root(&self, portable: bool) -> (root: Located)
        ensures
            root.name@ == DEFAULT_C_DRIVE@,
            root.directory@ == if portable {
                self.executable_dir@
            } else {
                self.state_dir@
            },
    {
        let directory: String = if portable {
            self.executable_dir.clone()
        } else {
            self.state_dir.clone()
        };
        Located { directory, name: DEFAULT_C_DRIVE }
    }
}

/// The drive that the command line asks for: that of `--c-drive`, else that of
/// `--dosroot` where it is not empty.
pub open spec fn asked_drive(c_drive: Option<Seq<char>>, dosroot: Option<Seq<char>>) -> Option<
    Seq<char>,
> {
    match c_drive {
        Some(path) => Some(path),
        None => match dosroot {
            Some(path) => if path.len() > 0 {
                Some(path)
            } else {
                None
            },
            None => None,
        },
    }
}

/// The drive that the command line asks for.
pub fn c_drive_override(c_drive: &Option<String>, dosroot: &Option<String>) -> (drive: Option<
    String,
>)
    ensures
        opt_text(drive) == asked_drive(opt_text(*c_drive), opt_text(*dosroot)),
{
    match c_drive {
        Some(path) => Some(path.clone()),
        None => match dosroot {
            Some(path) => {
                let chars: Vec<char> = chars_of(path.as_str());
                if chars.len() > 0 {
                    Some(path.clone())
                } else {
                    None
                }
            },
            None => None,
        },
    }
}

/// Where the guest's drive is.
#[derive(Debug, PartialEq, Eq)]
pub enum CRoot {
    /// Where somebody said.
    Named(String),
    /// Where it is by default; it is made where it is missing.
    Default(Located),
}

/// The drive that a start uses: the one that the command line asks for, else the one
/// that the configuration file states, else the default.
pub fn resolve_c_root(
    c_drive: &Option<String>,
    dosroot: &Option<String>,
    configured: &str,
    presence: ConfigPresence,
    locations: &StartupLocations,
    portable: bool,
) -> (root: CRoot)
    ensures
        match asked_drive(opt_text(*c_drive), opt_text(*dosroot)) {
            Some(path) => root matches CRoot::Named(p) && p@ == path,
            None => if presence.c_drive {
                root matches CRoot::Named(p) && p@ == configured@
            } else {
                root matches CRoot::Default(at) && at.name@ == DEFAULT_C_DRIVE@ && at.directory@
                    == if portable {
                    locations.executable_dir@
                } else {
                    locations.state_dir@
                }
            },
        },
{
    match c_drive_override(c_drive, dosroot) {
        Some(path) => CRoot::Named(path),
        None => if presence.c_drive {
            CRoot::Named(configured.to_owned())
        } else {
            CRoot::Default(locations.default_c_root(portable))
        },
    }
}

// ---------------------------------------------------------------------------
// Files of the state directory
// ---------------------------------------------------------------------------

/// What an entry of a directory is.
#[derive(Clone, Copy, Debug, PartialEq, Eq, Structural)]
pub enum EntryKind {
    File,
    Folder,
}

/// An entry of the state directory.
#[derive(Debug)]
pub struct StateEntry {
    /// The whole path.
    pub path: String,
    /// Its last part.
    pub name: String,
    pub kind: EntryKind,
}

/// An entry as contracts speak of it.
pub struct EntryView {
    pub path: Seq<char>,
    pub name: Seq<char>,
    pub kind: EntryKind,
}

impl View for StateEntry {
    type V = EntryView;

    open spec fn view(&self) -> EntryView {
        EntryView { path: self.path@, name: self.name@, kind: self.kind }
    }
}

/// The entries of a directory.
pub open spec fn entry_views(entries: Seq<StateEntry>) -> Seq<EntryView> {
    entries.map_values(|entry: StateEntry| entry@)
}

/// Whether two texts differ at most in the case of ASCII letters.
pub open spec fn alike(a: Seq<char>, b: Seq<char>) -> bool {
    lowered(a) == lowered(b)
}

/// Whether two texts differ at most in the case of ASCII letters.
pub fn eq_ignore_ascii_case(a: &str, b: &str) -> (yes: bool)
    ensures
        yes == alike(a@, b@),
{
    let x: String = text_of(&lower_chars(&chars_of(a)));
    let y: String = text_of(&lower_chars(&chars_of(b)));
    same_text(x.as_str(), y.as_str())
}

/// The path of the first file of that name.
pub open spec fn file_named(entries: Seq<EntryView>, name: Seq<char>) -> Option<Seq<char>>
    decreases entries.len(),
{
    if entries.len() == 0 {
        None
    } else if entries[0].kind == EntryKind::File && alike(entries[0].name, name) {
        Some(entries[0].path)
    } else {
        file_named(entries.drop_first(), name)
    }
}

/// The path of the first file of that name.
fn find_file(entries: &Vec<StateEntry>, name: &str) -> (path: Option<String>)
    ensures
        opt_text(path) == file_named(entry_views(entries@), name@),
{
    let ghost list = entry_views(entries@);
    let mut i: usize = 0;
    assert(list.skip(0) =~= list);
    while i < entries.len()
        invariant
            i <= entries@.len(),
            list == entry_views(entries@),
            file_named(list, name@) == file_named(list.skip(i as int), name@),
        decreases entries@.len() - i,
    {
        proof {
            assert(list.skip(i as int)[0] == entries@[i as int]@);
            assert(list.skip(i as int).drop_first() =~= list.skip(i + 1));
        }
        if entries[i].kind == EntryKind::File && eq_ignore_ascii_case(
            entries[i].name.as_str(),
            name,
        ) {
            return Some(entries[i].path.clone());
        }
        i = i + 1;
    }
    assert(list.skip(i as int) =~= Seq::empty());
    None
}

/// Whether a folder's name is one that ROM sets are kept under.
pub open spec fn is_rom_folder(entry: EntryView) -> bool {
    entry.kind == EntryKind::Folder && (alike(entry.name, "mt32"@) || alike(entry.name, "cm32l"@)
        || alike(entry.name, "roms"@) || alike(entry.name, "mt32-roms"@))
}

/// Whether an entry is the library that Glide programs load.
pub open spec fn is_glide_ovl(entry: EntryView) -> bool {
    entry.kind == EntryKind::File && alike(entry.name, GLIDE_OVL@)
}

/// Whether a path is that of a wanted entry, and none of the wanted ones has a path
/// before it.
pub open spec fn least_of(
    entries: Seq<EntryView>,
    wanted: spec_fn(EntryView) -> bool,
    path: Seq<char>,
) -> bool {
    &&& exists|i: int| 0 <= i < entries.len() && wanted(entries[i]) && entries[i].path == path
    &&& forall|i: int|
        0 <= i < entries.len() && wanted(#[trigger] entries[i]) ==> !text_before(
            entries[i].path,
            path,
        )
}

/// The least path of the wanted entries, where there are any.
pub open spec fn least_path(entries: Seq<EntryView>, wanted: spec_fn(EntryView) -> bool) -> Option<
    Seq<char>,
>
    decreases entries.len(),
{
    if entries.len() == 0 {
        None
    } else {
        let entry = entries.last();
        match least_path(entries.drop_last(), wanted) {
            Some(path) => if wanted(entry) && text_before(entry.path, path) {
                Some(entry.path)
            } else {
                Some(path)
            },
            None => if wanted(entry) {
                Some(entry.path)
            } else {
                None
            },
        }
    }
}

/// The path that is the least so far, once one more path was seen.
fn lesser(least: Option<String>, path: &String) -> (out: Option<String>)
    ensures
        opt_text(out) == Some(
            match least {
                Some(p) => if text_before(path@, p@) {
                    path@
                } else {
                    p@
                },
                None => path@,
            },
        ),
{
    match least {
        Some(p) => if before(path.as_str(), p.as_str()) {
            Some(path.clone())
        } else {
            Some(p)
        },
        None => Some(path.clone()),
    }
}

/// Whether an entry is a folder that ROM sets are kept under.
fn rom_folder(entry: &StateEntry) -> (yes: bool)
    ensures
        yes == is_rom_folder(entry@),
{
    entry.kind == EntryKind::Folder && (eq_ignore_ascii_case(entry.name.as_str(), "mt32")
        || eq_ignore_ascii_case(entry.name.as_str(), "cm32l") || eq_ignore_ascii_case(
        entry.name.as_str(),
        "roms",
    ) || eq_ignore_ascii_case(entry.name.as_str(), "mt32-roms"))
}

/// Whether an entry is the library that Glide programs load.
fn glide_ovl(entry: &StateEntry) -> (yes: bool)
    ensures
        yes == is_glide_ovl(entry@),
{
    entry.kind == EntryKind::File && eq_ignore_ascii_case(entry.name.as_str(), GLIDE_OVL)
}

/// The least path of the folders that ROM sets are kept under.
fn least_rom_folder(entries: &Vec<StateEntry>) -> (path: Option<String>)
    ensures
        opt_text(path) == least_path(entry_views(entries@), |e: EntryView| is_rom_folder(e)),
{
    let ghost list = entry_views(entries@);
    let ghost wanted = |e: EntryView| is_rom_folder(e);
    let mut least: Option<String> = None;
    let mut i: usize = 0;
    assert(list.take(0) =~= Seq::empty());
    while i < entries.len()
        invariant
            i <= entries@.len(),
            list == entry_views(entries@),
            wanted == (|e: EntryView| is_rom_folder(e)),
            opt_text(least) == least_path(list.take(i as int), wanted),
        decreases entries@.len() - i,
    {
        assert(list.take(i + 1).drop_last() =~= list.take(i as int));
        assert(list.take(i + 1).last() == entries@[i as int]@);
        if rom_folder(&entries[i]) {
            least = lesser(least, &entries[i].path);
        }
        i = i + 1;
    }
    assert(list.take(list.len() as int) =~= list);
    least
}

/// The library that Glide programs load, among the files of the state directory: the
/// one of exactly that name where `canonical` says that it is there, else the least
/// path of those that differ in case only.
pub open spec fn chosen_glide_ovl(canonical: Option<Seq<char>>, entries: Seq<EntryView>) -> Option<
    Seq<char>,
> {
    match canonical {
        Some(path) => Some(path),
        None => least_path(entries, |e: EntryView| is_glide_ovl(e)),
    }
}

/// The library that Glide programs load, among the files of the state directory.
pub fn choose_glide_ovl(canonical: Option<String>, entries: &Vec<StateEntry>) -> (path: Option<
    String,
>)
    ensures
        opt_text(path) == chosen_glide_ovl(opt_text(canonical), entry_views(entries@)),
{
    if canonical.is_some() {
        return canonical;
    }
    let ghost list = entry_views(entries@);
    let ghost wanted = |e: EntryView| is_glide_ovl(e);
    let mut least: Option<String> = None;
    let mut i: usize = 0;
    assert(list.take(0) =~= Seq::empty());
    while i < entries.len()
        invariant
            i <= entries@.len(),
            list == entry_views(entries@),
            wanted == (|e: EntryView| is_glide_ovl(e)),
            opt_text(least) == least_path(list.take(i as int), wanted),
        decreases entries@.len() - i,
    {
        assert(list.take(i + 1).drop_last() =~= list.take(i as int));
        assert(list.take(i + 1).last() == entries@[i as int]@);
        if glide_ovl(&entries[i]) {
            least = lesser(least, &entries[i].path);
        }
        i = i + 1;
    }
    assert(list.take(list.len() as int) =~= list);
    least
}

// ---------------------------------------------------------------------------
// ROM sets
// ---------------------------------------------------------------------------

/// The two files of a set, where both are there.
pub open spec fn pair_of(entries: Seq<EntryView>, control: Seq<char>, pcm: Seq<char>) -> Option<
    (Seq<char>, Seq<char>),
> {
    match (file_named(entries, control), file_named(entries, pcm)) {
        (Some(c), Some(p)) => Some((c, p)),
        _ => None,
    }
}

/// The ROM set that a state directory holds: a loose pair, that of the MT-32 before
/// that of the CM-32L, else a folder that sets are kept under.
pub open spec fn rom_set(entries: Seq<EntryView>) -> Option<(Seq<char>, Seq<char>)> {
    match pair_of(entries, "MT32_CONTROL.ROM"@, "MT32_PCM.ROM"@) {
        Some(pair) => Some(pair),
        None => match pair_of(entries, "CM32L_CONTROL.ROM"@, "CM32L_PCM.ROM"@) {
            Some(pair) => Some(pair),
            None => match least_path(entries, |e: EntryView| is_rom_folder(e)) {
                Some(folder) => Some((folder, folder)),
                None => None,
            },
        },
    }
}

/// The settings once a ROM set was looked for: nothing is looked for where the user
/// named either file.
pub open spec fn with_roms(config: MidiView, entries: Seq<EntryView>) -> MidiView {
    if config.mt32_control_rom is Some || config.mt32_pcm_rom is Some {
        config
    } else {
        match rom_set(entries) {
            Some(set) => MidiView {
                mt32_control_rom: Some(set.0),
                mt32_pcm_rom: Some(set.1),
                ..config
            },
            None => config,
        }
    }
}

/// What a pair of paths is.
pub open spec fn opt_pair(pair: Option<(String, String)>) -> Option<(Seq<char>, Seq<char>)> {
    match pair {
        Some(p) => Some((p.0@, p.1@)),
        None => None,
    }
}

/// The two files of a set, where both are there.
fn find_pair(entries: &Vec<StateEntry>, control: &str, pcm: &str) -> (pair: Option<(String, String)>)
    ensures
        opt_pair(pair) == pair_of(entry_views(entries@), control@, pcm@),
{
    match (find_file(entries, control), find_file(entries, pcm)) {
        (Some(c), Some(p)) => Some((c, p)),
        _ => None,
    }
}

/// Find a ROM set in the state directory, where the user named none.
pub fn discover_munt_roms(config: &mut MidiConfig, entries: &Vec<StateEntry>)
    ensures
        final(config)@ == with_roms(old(config)@, entry_views(entries@)),
{
    if config.mt32_control_rom.is_some() || config.mt32_pcm_rom.is_some() {
        return;
    }
    let mut found: Option<(String, String)> = find_pair(
        entries,
        "MT32_CONTROL.ROM",
        "MT32_PCM.ROM",
    );
    if found.is_none() {
        found = find_pair(entries, "CM32L_CONTROL.ROM", "CM32L_PCM.ROM");
    }
    if found.is_none() {
        let folder: Option<String> = least_rom_folder(entries);
        let again: Option<String> = copy_text(&folder);
        match (folder, again) {
            (Some(a), Some(b)) => {
                found = Some((a, b));
            },
            _ => {},
        }
    }
    match found {
        Some((control, pcm)) => {
            config.mt32_control_rom = Some(control);
            config.mt32_pcm_rom = Some(pcm);
        },
        None => {},
    }
}

/// The MIDI settings that a start goes by: those that are stated somewhere, and a ROM
/// set of the state directory unless the emulator is a portable one.
pub open spec fn startup_midi(
    config: MidiView,
    presence: ConfigPresence,
    flags: MidiFlags,
    saved: MidiView,
    portable: bool,
    entries: Seq<EntryView>,
) -> MidiView {
    let settled = resolved_midi(config, presence.midi, flags, saved);
    if portable {
        settled
    } else {
        with_roms(settled, entries)
    }
}

/// The MIDI settings that a start goes by. `config` holds those of the configuration
/// file, `saved` those of the preferences.
pub fn resolve_startup_midi(
    config: &mut MidiConfig,
    presence: ConfigPresence,
    flags: &MidiFlags,
    saved: &MidiConfig,
    portable: bool,
    entries: &Vec<StateEntry>,
)
    ensures
        final(config)@ == startup_midi(
            old(config)@,
            presence,
            *flags,
            saved@,
            portable,
            entry_views(entries@),
        ),
{
    resolve_midi(config, presence.midi, flags, saved);
    if !portable {
        discover_munt_roms(config, entries);
    }
}

// ---------------------------------------------------------------------------
// Laws
// ---------------------------------------------------------------------------

/// A portable start goes by what is stated alone, whatever the state directory holds;
/// and no start looks on the disk for a ROM where either is stated.
pub proof fn law_the_disk_answers_last(
    config: MidiView,
    presence: ConfigPresence,
    flags: MidiFlags,
    saved: MidiView,
    portable: bool,
    entries: Seq<EntryView>,
)
    ensures
        ({
            let settled = resolved_midi(config, presence.midi, flags, saved);
            portable || settled.mt32_control_rom is Some || settled.mt32_pcm_rom is Some
                ==> startup_midi(config, presence, flags, saved, portable, entries) == settled
        }),
{
}

/// The path that is chosen is that of a wanted entry, no wanted entry has a path
/// before it, and where none is chosen none was wanted: the order in which a
/// directory lists its entries does not matter.
pub proof fn law_the_least_path_is_chosen(
    entries: Seq<EntryView>,
    wanted: spec_fn(EntryView) -> bool,
)
    ensures
        match least_path(entries, wanted) {
            Some(path) => least_of(entries, wanted, path),
            None => forall|i: int| 0 <= i < entries.len() ==> !wanted(#[trigger] entries[i]),
        },
    decreases entries.len(),
{
    if entries.len() > 0 {
        let rest = entries.drop_last();
        let entry = entries.last();
        law_the_least_path_is_chosen(rest, wanted);
        match least_path(rest, wanted) {
            Some(old_path) => {
                let path = least_path(entries, wanted)->0;
                let k = choose|k: int|
                    0 <= k < rest.len() && wanted(rest[k]) && rest[k].path == old_path;
                if path == old_path {
                    assert(entries[k] == rest[k]);
                } else {
                    assert(entries[entries.len() - 1] == entry);
                }
                assert(exists|i: int|
                    0 <= i < entries.len() && wanted(entries[i]) && entries[i].path == path);
                assert forall|i: int| 0 <= i < entries.len() && wanted(
                    #[trigger] entries[i],
                ) implies !text_before(entries[i].path, path) by {
                    if i < rest.len() {
                        assert(rest[i] == entries[i]);
                        if text_before(entries[i].path, path) && path != old_path {
                            lemma_before_is_transitive(entries[i].path, path, old_path);
                        }
                    } else {
                        lemma_before_is_irreflexive(entry.path);
                    }
                }
            },
            None => {
                assert forall|i: int| 0 <= i < rest.len() implies !wanted(
                    #[trigger] entries[i],
                ) by {
                    assert(rest[i] == entries[i]);
                }
                if wanted(entry) {
                    lemma_before_is_irreflexive(entry.path);
                    assert(entries[entries.len() - 1] == entry);
                }
            },
        }
    }
}

/// A loose pair of the MT-32 is taken before everything else, and where the user
/// named a file nothing is looked for.
pub proof fn law_a_named_rom_ends_the_search(config: MidiView, entries: Seq<EntryView>)
    ensures
        config.mt32_control_rom is Some || config.mt32_pcm_rom is Some ==> with_roms(config, entries)
            == config,
        with_roms(config, entries).backend == config.backend,
        with_roms(config, entries).soundfont == config.soundfont,
        with_roms(config, entries).external_port == config.external_port,
        with_roms(with_roms(config, entries), entries) == with_roms(config, entries),
{
}

/// A search takes both files of a set or neither.
pub proof fn law_a_set_is_found_whole(config: MidiView, entries: Seq<EntryView>)
    requires
        config.mt32_control_rom is None,
        config.mt32_pcm_rom is None,
    ensures
        with_roms(config, entries).mt32_control_rom is Some <==> with_roms(
            config,
            entries,
        ).mt32_pcm_rom is Some,
{
}

/// Each setting has its own key: the drive in the `dos` table and the MIDI settings in the
/// `audio.midi` table, and a document without a table states nothing of it.
pub proof fn law_each_setting_has_its_key(model: TomlModel)
    ensures
        value_at(model, "dos"@) is None ==> !presence_of(model).c_drive,
        value_at(model, "dos"@) is Some ==> presence_of(model).c_drive == has_key(
            value_at(model, "dos"@)->0,
            "c_drive"@,
        ),
        value_at(model, "audio"@) is None ==> presence_of(model).midi == nothing_stated().midi,
        value_at(model, "audio"@) is Some && value_at(value_at(model, "audio"@)->0, "midi"@) is None
            ==> presence_of(model).midi == nothing_stated().midi,
        value_at(model, "audio"@) is Some && value_at(value_at(model, "audio"@)->0, "midi"@) is Some
            ==> ({
            let table = value_at(value_at(model, "audio"@)->0, "midi"@)->0;
            &&& presence_of(model).midi.backend == has_key(table, "backend"@)
            &&& presence_of(model).midi.external_port == has_key(table, "external_port"@)
            &&& presence_of(model).midi.soundfont == has_key(table, "soundfont"@)
            &&& presence_of(model).midi.mt32_control_rom == has_key(table, "mt32_control_rom"@)
            &&& presence_of(model).midi.mt32_pcm_rom == has_key(table, "mt32_pcm_rom"@)
        }),
{
}

/// The drive of `--c-drive` comes before that of `--dosroot`, which counts where it is not
/// empty.
pub proof fn law_the_newer_flag_names_the_drive(a: Seq<char>, b: Option<Seq<char>>)
    ensures
        asked_drive(Some(a), b) == Some(a),
        a.len() > 0 ==> asked_drive(None, Some(a)) == Some(a),
        asked_drive(None, Some(Seq::empty())) is None,
        asked_drive(None, None) is None,
{
}

/// Names that differ in the case of their letters are alike, and every name is like itself
/// and unlike a longer one.
pub proof fn law_case_makes_no_difference(a: Seq<char>, b: Seq<char>)
    ensures
        alike(a, a),
        alike(crate::text::uppered(a), a),
        alike(lowered(a), a),
        alike(a, b) <==> alike(b, a),
        alike(a, b) ==> a.len() == b.len(),
{
    assert(lowered(crate::text::uppered(a)) =~= lowered(a));
    assert(lowered(lowered(a)) =~= lowered(a));
    if alike(a, b) {
        assert(lowered(a).len() == lowered(b).len());
    }
}

/// A file is found by its name: the first one of that name, whatever folders there are, and
/// none where no file has it.
pub proof fn law_the_first_file_of_a_name_is_found(entries: Seq<EntryView>, name: Seq<char>, i: int)
    requires
        0 <= i <= entries.len(),
        forall|k: int|
            0 <= k < i ==> !((#[trigger] entries[k]).kind is File && alike(entries[k].name, name)),
    ensures
        i == entries.len() ==> file_named(entries, name) is None,
        i < entries.len() && entries[i].kind is File && alike(entries[i].name, name)
            ==> file_named(entries, name) == Some(entries[i].path),
    decreases entries.len(),
{
    if i > 0 {
        let rest = entries.drop_first();
        assert(!(entries[0].kind is File && alike(entries[0].name, name)));
        assert forall|k: int| 0 <= k < i - 1 implies !((#[trigger] rest[k]).kind is File && alike(
            rest[k].name,
            name,
        )) by {
            assert(rest[k] == entries[k + 1]);
        }
        law_the_first_file_of_a_name_is_found(rest, name, i - 1);
    }
}

/// A search takes the pair of the MT-32 before that of the CM-32L and that before a folder,
/// each pair with its own control and PCM file, and half a pair counts for nothing.
pub proof fn law_sets_have_their_order(entries: Seq<EntryView>)
    ensures
        ({
            let mt_control = file_named(entries, "MT32_CONTROL.ROM"@);
            let mt_pcm = file_named(entries, "MT32_PCM.ROM"@);
            let cm_control = file_named(entries, "CM32L_CONTROL.ROM"@);
            let cm_pcm = file_named(entries, "CM32L_PCM.ROM"@);
            let folder = least_path(entries, |e: EntryView| is_rom_folder(e));
            &&& mt_control is Some && mt_pcm is Some ==> rom_set(entries) == Some(
                (mt_control->0, mt_pcm->0),
            )
            &&& (mt_control is None || mt_pcm is None) && cm_control is Some && cm_pcm is Some
                ==> rom_set(entries) == Some((cm_control->0, cm_pcm->0))
            &&& (mt_control is None || mt_pcm is None) && (cm_control is None || cm_pcm is None)
                && folder is Some ==> rom_set(entries) == Some((folder->0, folder->0))
            &&& rom_set(entries) is Some <==> (mt_control is Some && mt_pcm is Some) || (cm_control
                is Some && cm_pcm is Some) || folder is Some
        }),
{
}

/// The Glide library of exactly its name is taken before any other, and is a file; a
/// folder that ROM sets are kept under is no file.
pub proof fn law_the_exact_library_comes_first(path: Seq<char>, entries: Seq<EntryView>, e: EntryView)
    ensures
        chosen_glide_ovl(Some(path), entries) == Some(path),
        is_glide_ovl(e) ==> e.kind is File && alike(e.name, "GLIDE2X.OVL"@),
        is_rom_folder(e) ==> e.kind is Folder,
        e.kind is Folder && (alike(e.name, "mt32"@) || alike(e.name, "cm32l"@) || alike(
            e.name,
            "roms"@,
        ) || alike(e.name, "mt32-roms"@)) ==> is_rom_folder(e),
{
}

} // verus!
