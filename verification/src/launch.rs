//! What a start of the emulator is asked to do.

use vstd::prelude::*;

use crate::text::{chars_of, slice_text, text_of, upper_chars};
#[allow(unused_imports)]
use crate::text::uppered;
#[allow(unused_imports)]
use vstd::utf8::encode_utf8;

verus! {

// ---------------------------------------------------------------------------
// Backends
// ---------------------------------------------------------------------------

/// How guest code is executed.
#[derive(Clone, Copy, Debug, PartialEq, Eq, Structural)]
pub enum ExecutionBackend {
    /// Native blocks where they pay, the interpreter elsewhere.
    Automatic,
    /// The interpreter alone.
    Interpreter,
}

/// What a build with native blocks says on a processor that cannot run them.
pub const AVX2_BUILD_MESSAGE: &'static str =
    "this IzarraVM build requires an AVX2-capable x86-64 CPU";

/// The backend that was asked for, where this build and this processor have it.
pub fn requested_execution_backend(
    interpreter: bool,
    native_backend_compiled: bool,
    native_backend_available: bool,
) -> (backend: Result<ExecutionBackend, &'static str>)
    ensures
        backend == if interpreter || !native_backend_compiled {
            Ok::<ExecutionBackend, &'static str>(ExecutionBackend::Interpreter)
        } else if native_backend_available {
            Ok(ExecutionBackend::Automatic)
        } else {
            Err(AVX2_BUILD_MESSAGE)
        },
        backend is Err <==> !interpreter && native_backend_compiled && !native_backend_available,
        backend matches Ok(b) ==> (b is Automatic <==> !interpreter && native_backend_compiled),
{
    if interpreter || !native_backend_compiled {
        return Ok(ExecutionBackend::Interpreter);
    }
    if native_backend_available {
        Ok(ExecutionBackend::Automatic)
    } else {
        Err(AVX2_BUILD_MESSAGE)
    }
}

// ---------------------------------------------------------------------------
// Run modes
// ---------------------------------------------------------------------------

/// The run modes that the command line asks for, and whether it wants a profile.
#[derive(Clone, Copy, Debug, Default)]
pub struct RunRequest {
    pub config_check: bool,
    pub boot_suite: bool,
    pub bench: bool,
    pub bench_exe: bool,
    pub profile_exe: bool,
    pub bandwidth: bool,
    pub test_rom: bool,
    pub keyboard: bool,
    pub izarra_bios: bool,
    pub boot_floppy: bool,
    pub boot_hdd: bool,
    pub hdd_folder: bool,
    pub boot_profile: bool,
    pub katea_run: bool,
    pub profile_json: bool,
}

/// What a start does.
#[derive(Clone, Copy, Debug, PartialEq, Eq, Structural)]
pub enum RunMode {
    ConfigCheck,
    BootSuite,
    Bench,
    BenchExe,
    ProfileExe,
    Bandwidth,
    TestRom,
    Keyboard,
    IzarraBios,
    BootFloppy,
    BootHdd,
    HddFolder,
    BootProfile,
    KateaRun,
    /// No headless mode was asked for: the windowed emulator.
    Gui,
}

impl RunRequest {
    /// The headless modes, in the order in which they are looked for, each with
    /// whether it was asked for.
    pub open spec fn asked(self) -> Seq<(bool, RunMode)> {
        seq![
            (self.config_check, RunMode::ConfigCheck),
            (self.boot_suite, RunMode::BootSuite),
            (self.bench, RunMode::Bench),
            (self.bench_exe, RunMode::BenchExe),
            (self.profile_exe, RunMode::ProfileExe),
            (self.bandwidth, RunMode::Bandwidth),
            (self.test_rom, RunMode::TestRom),
            (self.keyboard, RunMode::Keyboard),
            (self.izarra_bios, RunMode::IzarraBios),
            (self.boot_floppy, RunMode::BootFloppy),
            (self.boot_hdd, RunMode::BootHdd),
            (self.hdd_folder, RunMode::HddFolder),
            (self.boot_profile, RunMode::BootProfile),
            (self.katea_run, RunMode::KateaRun),
        ]
    }

    /// Whether a mode that writes a profile was asked for.
    pub open spec fn writes_profiles(self) -> bool {
        self.profile_exe || self.hdd_folder || self.boot_profile
    }
}

/// What is answered where a profile is wanted of a mode that writes none.
pub const PROFILE_JSON_MESSAGE: &'static str =
    "--profile-json requires --headless-profile-exe, --hdd-folder, or --headless-boot-profile";

/// The first mode of a list that was asked for, and the windowed emulator where
/// none was.
pub open spec fn first_asked(modes: Seq<(bool, RunMode)>) -> RunMode
    decreases modes.len(),
{
    if modes.len() == 0 {
        RunMode::Gui
    } else if modes[0].0 {
        modes[0].1
    } else {
        first_asked(modes.drop_first())
    }
}

/// What a start does, or why it does nothing.
pub fn choose_run_mode(request: &RunRequest) -> (mode: Result<RunMode, &'static str>)
    ensures
        mode == if request.profile_json && !request.writes_profiles() {
            Err::<RunMode, &'static str>(PROFILE_JSON_MESSAGE)
        } else {
            Ok(first_asked(request.asked()))
        },
{
    if request.profile_json && !request.profile_exe && !request.hdd_folder
        && !request.boot_profile {
        return Err(PROFILE_JSON_MESSAGE);
    }
    let modes: Vec<(bool, RunMode)> = vec![
        (request.config_check, RunMode::ConfigCheck),
        (request.boot_suite, RunMode::BootSuite),
        (request.bench, RunMode::Bench),
        (request.bench_exe, RunMode::BenchExe),
        (request.profile_exe, RunMode::ProfileExe),
        (request.bandwidth, RunMode::Bandwidth),
        (request.test_rom, RunMode::TestRom),
        (request.keyboard, RunMode::Keyboard),
        (request.izarra_bios, RunMode::IzarraBios),
        (request.boot_floppy, RunMode::BootFloppy),
        (request.boot_hdd, RunMode::BootHdd),
        (request.hdd_folder, RunMode::HddFolder),
        (request.boot_profile, RunMode::BootProfile),
        (request.katea_run, RunMode::KateaRun),
    ];
    assert(modes@ =~= request.asked());
    assert(modes@.skip(0) =~= modes@);
    let mut i: usize = 0;
    while i < modes.len()
        invariant
            i <= modes@.len(),
            first_asked(modes@) == first_asked(modes@.skip(i as int)),
            modes@ == request.asked(),
            !(request.profile_json && !request.writes_profiles()),
        decreases modes@.len() - i,
    {
        assert(modes@.skip(i as int).drop_first() =~= modes@.skip(i + 1));
        if modes[i].0 {
            return Ok(modes[i].1);
        }
        i = i + 1;
    }
    assert(modes@.skip(i as int) =~= Seq::empty());
    Ok(RunMode::Gui)
}

/// Where one headless mode is asked for and no other, that is the mode that runs.
pub proof fn law_the_only_mode_asked_for_runs(request: RunRequest, i: int)
    requires
        0 <= i < request.asked().len(),
        request.asked()[i].0,
        forall|j: int| 0 <= j < request.asked().len() && j != i ==> !(#[trigger] request.asked()[j]).0,
    ensures
        first_asked(request.asked()) == request.asked()[i].1,
{
    lemma_first_asked(request.asked(), i);
}

/// The first mode asked for is found behind any that were not.
proof fn lemma_first_asked(modes: Seq<(bool, RunMode)>, i: int)
    requires
        0 <= i < modes.len(),
        modes[i].0,
        forall|j: int| 0 <= j < i ==> !(#[trigger] modes[j]).0,
    ensures
        first_asked(modes) == modes[i].1,
    decreases i,
{
    if i > 0 {
        assert(!modes[0].0);
        let rest = modes.drop_first();
        assert forall|j: int| 0 <= j < i - 1 implies !(#[trigger] rest[j]).0 by {
            assert(rest[j] == modes[j + 1]);
        }
        lemma_first_asked(rest, i - 1);
    }
}

// ---------------------------------------------------------------------------
// Budgets
// ---------------------------------------------------------------------------

/// The clocks that a test ROM may run for where no number is given.
pub const DEFAULT_TEST_ROM_CYCLES: u64 = 200_000_000;

/// The clocks that a floppy may boot for where no number is given.
pub const DEFAULT_BOOT_FLOPPY_CYCLES: u64 = 50_000_000;

/// The clocks that a hard disk may boot for where no number is given.
pub const DEFAULT_BOOT_HDD_CYCLES: u64 = 500_000_000;

/// The clocks that a mode may run for, where it has a budget of its own.
pub open spec fn budget_of(mode: RunMode, cycles: Option<u64>) -> Option<u64> {
    let default: Option<u64> = match mode {
        RunMode::TestRom => Some(DEFAULT_TEST_ROM_CYCLES),
        RunMode::BootFloppy => Some(DEFAULT_BOOT_FLOPPY_CYCLES),
        RunMode::BootHdd => Some(DEFAULT_BOOT_HDD_CYCLES),
        RunMode::HddFolder => Some(DEFAULT_BOOT_HDD_CYCLES),
        _ => None,
    };
    match default {
        Some(n) => match cycles {
            Some(given) => Some(given),
            None => Some(n),
        },
        None => None,
    }
}

/// The clocks that a mode may run for, where it has a budget of its own.
pub fn run_budget(mode: RunMode, cycles: Option<u64>) -> (budget: Option<u64>)
    ensures
        budget == budget_of(mode, cycles),
{
    let default: u64 = match mode {
        RunMode::TestRom => DEFAULT_TEST_ROM_CYCLES,
        RunMode::BootFloppy => DEFAULT_BOOT_FLOPPY_CYCLES,
        RunMode::BootHdd => DEFAULT_BOOT_HDD_CYCLES,
        RunMode::HddFolder => DEFAULT_BOOT_HDD_CYCLES,
        _ => return None,
    };
    match cycles {
        Some(given) => Some(given),
        None => Some(default),
    }
}

// ---------------------------------------------------------------------------
// Output paths
// ---------------------------------------------------------------------------

/// Refuse an output path whose directory is missing, before any guest work is
/// spent. `parent` is the directory that the path names, and `exists` whether the
/// host has it.
pub fn validate_output_parent(parent: Option<&str>, exists: bool, what: &str) -> (result: Result<
    (),
    String,
>)
    ensures
        match result {
            Ok(_) => parent matches Some(p) ==> p@.len() == 0 || exists,
            Err(message) => !exists && (parent matches Some(p) && p@.len() > 0 && message@ == what@
                + " parent directory does not exist: "@ + p@),
        },
{
    match parent {
        Some(p) => {
            let chars: Vec<char> = chars_of(p);
            if chars.len() > 0 && !exists {
                let mut message: String = what.to_owned();
                message.append(" parent directory does not exist: ");
                message.append(p);
                Err(message)
            } else {
                Ok(())
            }
        },
        None => Ok(()),
    }
}

// ---------------------------------------------------------------------------
// Running one program
// ---------------------------------------------------------------------------

/// The name under which a program stands on the guest's disk. `extension` is that
/// of its file on the host, where it has one that is text.
pub open spec fn program_name(extension: Option<Seq<char>>) -> Seq<char> {
    let ext = match extension {
        Some(e) => if e.len() == 0 {
            "COM"@
        } else {
            uppered(e)
        },
        None => "COM"@,
    };
    "PROG."@ + if ext.len() <= 3 {
        ext
    } else {
        ext.take(3)
    }
}

/// The name under which a program stands on the guest's disk.
pub fn katea_run_prog_name(extension: Option<&str>) -> (name: String)
    ensures
        name@ == program_name(
            match extension {
                Some(e) => Some(e@),
                None => None,
            },
        ),
{
    let mut ext: Vec<char> = chars_of("COM");
    match extension {
        Some(e) => {
            let chars: Vec<char> = chars_of(e);
            if chars.len() > 0 {
                ext = upper_chars(&chars);
            }
        },
        None => {},
    }
    let mut name: String = "PROG.".to_owned();
    if ext.len() <= 3 {
        name.append(text_of(&ext).as_str());
    } else {
        assert(ext@.subrange(0, 3) =~= ext@.take(3));
        name.append(slice_text(&ext, 0, 3).as_str());
    }
    name
}

/// A program's name is `PROG` and an extension of at most three characters: the
/// form that DOS can run.
pub proof fn law_a_program_name_is_short(extension: Option<Seq<char>>)
    ensures
        program_name(extension).len() <= 8,
        program_name(extension).take(5) == "PROG."@,
        program_name(extension).len() > 5,
{
    reveal_strlit("PROG.");
    reveal_strlit("COM");
    assert(program_name(extension).take(5) =~= "PROG."@);
}

/// The batch file that runs one program when the guest starts.
pub fn katea_autoexec(name: &str) -> (text: String)
    ensures
        text@ == "@echo off\r\nRUNNER "@ + name@ + "\r\n"@,
{
    let mut text: String = "@echo off\r\nRUNNER ".to_owned();
    text.append(name);
    text.append("\r\n");
    text
}

/// What stands on a disk: each file's name and its bytes.
pub open spec fn disk_view(files: Seq<(String, Vec<u8>)>) -> Seq<(Seq<char>, Seq<u8>)> {
    files.map_values(|file: (String, Vec<u8>)| (file.0@, file.1@))
}

/// The files that are laid over the guest's disk to run one program: the batch
/// file, the runner and the program.
pub fn katea_overrides(extension: Option<&str>, runner: Vec<u8>, program: Vec<u8>) -> (files: Vec<
    (String, Vec<u8>),
>)
    ensures
        disk_view(files@) == ({
            let name = program_name(
                match extension {
                    Some(e) => Some(e@),
                    None => None,
                },
            );
            seq![
                ("AUTOEXEC.BAT"@, encode_utf8("@echo off\r\nRUNNER "@ + name + "\r\n"@)),
                ("RUNNER.COM"@, runner@),
                (name, program@),
            ]
        }),
{
    let name: String = katea_run_prog_name(extension);
    let batch: String = katea_autoexec(name.as_str());
    let bytes: Vec<u8> = copy_bytes(batch.as_str().as_bytes());
    let ghost name_text = name@;
    let ghost (runner_bytes, program_bytes) = (runner@, program@);
    let mut files: Vec<(String, Vec<u8>)> = Vec::new();
    files.push(("AUTOEXEC.BAT".to_owned(), bytes));
    files.push(("RUNNER.COM".to_owned(), runner));
    files.push((name, program));
    assert(disk_view(files@) =~= seq![
        ("AUTOEXEC.BAT"@, encode_utf8("@echo off\r\nRUNNER "@ + name_text + "\r\n"@)),
        ("RUNNER.COM"@, runner_bytes),
        (name_text, program_bytes),
    ]);
    files
}

/// The bytes again.
pub(crate) fn copy_bytes(bytes: &[u8]) -> (copy: Vec<u8>)
    ensures
        copy@ == bytes@,
{
    let mut copy: Vec<u8> = Vec::new();
    let mut i: usize = 0;
    while i < bytes.len()
        invariant
            i <= bytes@.len(),
            copy@ == bytes@.take(i as int),
        decreases bytes@.len() - i,
    {
        copy.push(bytes[i]);
        i = i + 1;
        assert(bytes@.take(i as int) =~= bytes@.take(i - 1).push(bytes@[i - 1]));
    }
    assert(bytes@.take(bytes@.len() as int) =~= bytes@);
    copy
}

/// A mode runs where its own flag was given and no flag of a mode that goes before it; the
/// windowed emulator runs where none was given.
pub proof fn law_each_flag_asks_for_its_mode(r: RunRequest)
    ensures
        first_asked(r.asked()) is ConfigCheck <==> r.config_check,
        first_asked(r.asked()) is BootSuite <==> r.boot_suite && !r.config_check,
        first_asked(r.asked()) is Bench <==> r.bench && !r.config_check && !r.boot_suite,
        first_asked(r.asked()) is BenchExe <==> r.bench_exe && !r.config_check && !r.boot_suite && !r.bench,
        first_asked(r.asked()) is ProfileExe <==> r.profile_exe && !r.config_check && !r.boot_suite && !r.bench && !r.bench_exe,
        first_asked(r.asked()) is Bandwidth <==> r.bandwidth && !r.config_check && !r.boot_suite && !r.bench && !r.bench_exe && !r.profile_exe,
        first_asked(r.asked()) is TestRom <==> r.test_rom && !r.config_check && !r.boot_suite && !r.bench && !r.bench_exe && !r.profile_exe && !r.bandwidth,
        first_asked(r.asked()) is Keyboard <==> r.keyboard && !r.config_check && !r.boot_suite && !r.bench && !r.bench_exe && !r.profile_exe && !r.bandwidth && !r.test_rom,
        first_asked(r.asked()) is IzarraBios <==> r.izarra_bios && !r.config_check && !r.boot_suite && !r.bench && !r.bench_exe && !r.profile_exe && !r.bandwidth && !r.test_rom && !r.keyboard,
        first_asked(r.asked()) is BootFloppy <==> r.boot_floppy && !r.config_check && !r.boot_suite && !r.bench && !r.bench_exe && !r.profile_exe && !r.bandwidth && !r.test_rom && !r.keyboard && !r.izarra_bios,
        first_asked(r.asked()) is BootHdd <==> r.boot_hdd && !r.config_check && !r.boot_suite && !r.bench && !r.bench_exe && !r.profile_exe && !r.bandwidth && !r.test_rom && !r.keyboard && !r.izarra_bios && !r.boot_floppy,
        first_asked(r.asked()) is HddFolder <==> r.hdd_folder && !r.config_check && !r.boot_suite && !r.bench && !r.bench_exe && !r.profile_exe && !r.bandwidth && !r.test_rom && !r.keyboard && !r.izarra_bios && !r.boot_floppy && !r.boot_hdd,
        first_asked(r.asked()) is BootProfile <==> r.boot_profile && !r.config_check && !r.boot_suite && !r.bench && !r.bench_exe && !r.profile_exe && !r.bandwidth && !r.test_rom && !r.keyboard && !r.izarra_bios && !r.boot_floppy && !r.boot_hdd && !r.hdd_folder,
        first_asked(r.asked()) is KateaRun <==> r.katea_run && !r.config_check && !r.boot_suite && !r.bench && !r.bench_exe && !r.profile_exe && !r.bandwidth && !r.test_rom && !r.keyboard && !r.izarra_bios && !r.boot_floppy && !r.boot_hdd && !r.hdd_folder && !r.boot_profile,
        first_asked(r.asked()) is Gui <==> !r.config_check && !r.boot_suite && !r.bench && !r.bench_exe && !r.profile_exe && !r.bandwidth && !r.test_rom && !r.keyboard && !r.izarra_bios && !r.boot_floppy && !r.boot_hdd && !r.hdd_folder && !r.boot_profile && !r.katea_run,
{
    let modes = r.asked();
    if exists|i: int| 0 <= i < modes.len() && (#[trigger] modes[i]).0 {
        let i = lemma_some_mode_is_first(modes);
        lemma_first_asked(modes, i);
        assert(modes.len() == 14);
        assert(!(0 < i) || !modes[0].0);
        assert(!(1 < i) || !modes[1].0);
        assert(!(2 < i) || !modes[2].0);
        assert(!(3 < i) || !modes[3].0);
        assert(!(4 < i) || !modes[4].0);
        assert(!(5 < i) || !modes[5].0);
        assert(!(6 < i) || !modes[6].0);
        assert(!(7 < i) || !modes[7].0);
        assert(!(8 < i) || !modes[8].0);
        assert(!(9 < i) || !modes[9].0);
        assert(!(10 < i) || !modes[10].0);
        assert(!(11 < i) || !modes[11].0);
        assert(!(12 < i) || !modes[12].0);
        assert(!(13 < i) || !modes[13].0);
    } else {
        lemma_no_mode_is_first(modes);
        assert(modes[0].0 == r.config_check);
        assert(modes[1].0 == r.boot_suite);
        assert(modes[2].0 == r.bench);
        assert(modes[3].0 == r.bench_exe);
        assert(modes[4].0 == r.profile_exe);
        assert(modes[5].0 == r.bandwidth);
        assert(modes[6].0 == r.test_rom);
        assert(modes[7].0 == r.keyboard);
        assert(modes[8].0 == r.izarra_bios);
        assert(modes[9].0 == r.boot_floppy);
        assert(modes[10].0 == r.boot_hdd);
        assert(modes[11].0 == r.hdd_folder);
        assert(modes[12].0 == r.boot_profile);
        assert(modes[13].0 == r.katea_run);
    }
}

/// Where a mode was asked for one of them is the first.
proof fn lemma_some_mode_is_first(modes: Seq<(bool, RunMode)>) -> (i: int)
    requires
        exists|i: int| 0 <= i < modes.len() && (#[trigger] modes[i]).0,
    ensures
        0 <= i < modes.len(),
        modes[i].0,
        forall|j: int| 0 <= j < i ==> !(#[trigger] modes[j]).0,
    decreases modes.len(),
{
    if modes[0].0 {
        0
    } else {
        let rest = modes.drop_first();
        let k = choose|k: int| 0 <= k < modes.len() && (#[trigger] modes[k]).0;
        assert(rest[k - 1].0);
        let i = lemma_some_mode_is_first(rest);
        assert(modes[i + 1].0);
        assert forall|j: int| 0 <= j < i + 1 implies !(#[trigger] modes[j]).0 by {
            if j > 0 {
                assert(!rest[j - 1].0);
            }
        }
        i + 1
    }
}

/// Where no mode was asked for the windowed emulator runs.
proof fn lemma_no_mode_is_first(modes: Seq<(bool, RunMode)>)
    requires
        forall|i: int| 0 <= i < modes.len() ==> !(#[trigger] modes[i]).0,
    ensures
        first_asked(modes) is Gui,
    decreases modes.len(),
{
    if modes.len() > 0 {
        let rest = modes.drop_first();
        assert(!modes[0].0);
        assert forall|i: int| 0 <= i < rest.len() implies !(#[trigger] rest[i]).0 by {
            assert(rest[i] == modes[i + 1]);
        }
        lemma_no_mode_is_first(rest);
    }
}

/// The modes that boot something run for the clocks they were given; a hard disk and a
/// folder as one get ten times the clocks of a floppy, and a test ROM four times. No other
/// mode has a budget.
pub proof fn law_a_given_budget_is_kept(mode: RunMode, given: u64)
    ensures
        budget_of(mode, Some(given)) is Some <==> mode is TestRom || mode is BootFloppy || mode
            is BootHdd || mode is HddFolder,
        budget_of(mode, Some(given)) is Some ==> budget_of(mode, Some(given)) == Some(given),
        budget_of(mode, None) is Some <==> budget_of(mode, Some(given)) is Some,
        budget_of(RunMode::BootHdd, None) == budget_of(RunMode::HddFolder, None),
        budget_of(RunMode::BootHdd, None)->0 == 10 * budget_of(RunMode::BootFloppy, None)->0,
        budget_of(RunMode::TestRom, None)->0 == 4 * budget_of(RunMode::BootFloppy, None)->0,
        budget_of(RunMode::BootFloppy, None) == Some(50_000_000u64),
{
}

/// A program keeps the first three characters of its extension in capitals, whatever its
/// case on the host; one without an extension is a `COM`.
pub proof fn law_a_program_keeps_its_extension(e: Seq<char>)
    requires
        e.len() > 0,
    ensures
        program_name(Some(e)).skip(5) == uppered(
            e.take(
                if e.len() < 3 {
                    e.len() as int
                } else {
                    3
                },
            ),
        ),
        program_name(Some(uppered(e))) == program_name(Some(e)),
        program_name(None) == seq!['P', 'R', 'O', 'G', '.', 'C', 'O', 'M'],
        program_name(Some(Seq::empty())) == program_name(None),
{
    reveal_strlit("PROG.");
    reveal_strlit("COM");
    assert("PROG."@ =~= seq!['P', 'R', 'O', 'G', '.']);
    assert("COM"@ =~= seq!['C', 'O', 'M']);
    assert(uppered(uppered(e)) =~= uppered(e));
    assert(program_name(None) =~= seq!['P', 'R', 'O', 'G', '.', 'C', 'O', 'M']);
    if e.len() < 3 {
        assert(e.take(e.len() as int) =~= e);
        assert(program_name(Some(e)).skip(5) =~= uppered(e));
    } else {
        assert(program_name(Some(e)).skip(5) =~= uppered(e.take(3)));
    }
}

} // verus!
