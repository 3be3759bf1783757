//! What a headless run prints of the guest when it has stopped.

use vstd::prelude::*;

use crate::switches::spaced_bytes;
#[allow(unused_imports)]
use crate::switches::bytes_text;
use crate::text::{chars_of, decimal_text, hex_text, join, pad_left, prefixed_hex_text};
#[allow(unused_imports)]
use crate::text::{decimal, joined, padded, prefixed_hex, text_views, upper_hex};
#[allow(unused_imports)]
use crate::text::{
    lemma_neither_holds, lemma_split_at_the_first, lemma_split_without_any, lemma_the_first_word, lemma_upper_numerals_hold_digits, lemma_word_added, lemma_words_read_back, split,
};

verus! {

/// `n` in upper-case hexadecimal, with zeros in front up to `width` digits.
pub open spec fn hex_field(n: nat, width: nat) -> Seq<char> {
    padded(upper_hex(n), width, '0')
}

/// `n` in upper-case hexadecimal, with zeros in front up to `width` digits.
fn hex_field_text(n: u64, width: usize) -> (text: String)
    ensures
        text@ == hex_field(n as nat, width as nat),
{
    pad_left(hex_text(n, true).as_str(), width, '0')
}

// ---------------------------------------------------------------------------
// Where the guest stands
// ---------------------------------------------------------------------------

/// The first segment of the BIOS.
pub const BIOS_SEGMENT: u16 = 0xf000;

/// Where the guest executes.
pub open spec fn cs_ip_text(cs: u16, eip: u32) -> Seq<char> {
    "CS:IP = "@ + hex_field(cs as nat, 4) + ":"@ + hex_field((eip % 0x1_0000) as nat, 4)
}

/// Where the guest executes.
pub fn cs_ip_line(cs: u16, eip: u32) -> (line: String)
    ensures
        line@ == cs_ip_text(cs, eip),
{
    let mut line: String = "CS:IP = ".to_owned();
    line.append(hex_field_text(cs as u64, 4).as_str());
    line.append(":");
    line.append(hex_field_text((eip % 0x1_0000) as u64, 4).as_str());
    line
}

/// The bytes at the address that a boot sector is loaded to.
pub fn boot_sector_line(bytes: &Vec<Option<u8>>) -> (line: String)
    ensures
        line@ == "0000:7C00 = "@ + bytes_text(bytes@),
{
    let mut line: String = "0000:7C00 = ".to_owned();
    line.append(spaced_bytes(bytes).as_str());
    line
}

/// Whether the guest has left the BIOS: a boot sector that runs leaves it.
pub fn boot_verdict(cs: u16) -> (verdict: &'static str)
    ensures
        verdict@ == if cs < BIOS_SEGMENT {
            "boot: boot sector is executing outside the BIOS region"@
        } else {
            "boot: still in the BIOS (no boot, or read error)"@
        },
        cs >= 0xf000 <==> verdict@ != "boot: boot sector is executing outside the BIOS region"@,
{
    proof {
        reveal_strlit("boot: boot sector is executing outside the BIOS region");
        reveal_strlit("boot: still in the BIOS (no boot, or read error)");
        assert("boot: boot sector is executing outside the BIOS region"@.len() == 54);
        assert("boot: still in the BIOS (no boot, or read error)"@.len() == 48);
    }
    if cs < BIOS_SEGMENT {
        "boot: boot sector is executing outside the BIOS region"
    } else {
        "boot: still in the BIOS (no boot, or read error)"
    }
}

/// The ports that nothing answered, each with `0x` in front.
pub open spec fn port_texts(ports: Seq<u16>) -> Seq<Seq<char>> {
    ports.map_values(|port: u16| prefixed_hex(port as nat, 4, false))
}

/// The line about accesses that nothing answered; none where there were none.
pub fn open_bus_line(reads: u64, writes: u64, ports: &Vec<u16>) -> (line: Option<String>)
    ensures
        match line {
            Some(line) => (reads > 0 || writes > 0) && line@ == "open-bus: "@ + decimal(
                reads as nat,
            ) + " read(s), "@ + decimal(writes as nat) + " write(s) across "@ + decimal(
                ports@.len(),
            ) + " port(s): "@ + joined(port_texts(ports@), " "@),
            None => reads == 0 && writes == 0,
        },
{
    if reads == 0 && writes == 0 {
        return None;
    }
    let mut texts: Vec<String> = Vec::new();
    let mut i: usize = 0;
    while i < ports.len()
        invariant
            i <= ports@.len(),
            texts@.len() == i,
            forall|k: int|
                0 <= k < i ==> (#[trigger] texts@[k])@ == prefixed_hex(ports@[k] as nat, 4, false),
        decreases ports@.len() - i,
    {
        texts.push(prefixed_hex_text(ports[i] as u64, 4, false));
        i = i + 1;
    }
    assert(text_views(texts@) =~= port_texts(ports@));
    let mut line: String = "open-bus: ".to_owned();
    line.append(decimal_text(reads).as_str());
    line.append(" read(s), ");
    line.append(decimal_text(writes).as_str());
    line.append(" write(s) across ");
    line.append(decimal_text(ports.len() as u64).as_str());
    line.append(" port(s): ");
    line.append(join(&texts, " ").as_str());
    Some(line)
}

/// What is printed of the serial port: nothing where the guest wrote nothing, and
/// else a heading and what it wrote, ended by a line break.
pub open spec fn com1_block(serial: Seq<char>) -> Seq<char> {
    if serial.len() == 0 {
        Seq::empty()
    } else if serial.last() == '\n' {
        "--- COM1 ---\n"@ + serial
    } else {
        "--- COM1 ---\n"@ + serial + "\n"@
    }
}

/// What is printed of the serial port.
pub fn com1_text(serial: &str) -> (text: String)
    ensures
        text@ == com1_block(serial@),
{
    let chars: Vec<char> = chars_of(serial);
    let mut text: String = String::new();
    assert(text@ =~= Seq::empty());
    if chars.len() == 0 {
        return text;
    }
    let mut text: String = "--- COM1 ---\n".to_owned();
    text.append(serial);
    if chars[chars.len() - 1] != '\n' {
        text.append("\n");
    }
    text
}

// ---------------------------------------------------------------------------
// The result block
// ---------------------------------------------------------------------------

/// The guest's registers.
#[derive(Clone, Copy, Debug, Default)]
pub struct Registers {
    pub eax: u32,
    pub ebx: u32,
    pub ecx: u32,
    pub edx: u32,
    pub esp: u32,
    pub ebp: u32,
    pub esi: u32,
    pub edi: u32,
    pub eip: u32,
    pub eflags: u32,
    pub cs: u16,
    pub ds: u16,
    pub es: u16,
    pub ss: u16,
    pub fs: u16,
    pub gs: u16,
}

/// The lines of a result block. `stop` says why the guest stopped and `screen` is
/// its text page.
pub open spec fn result_block(stop: Seq<char>, regs: Registers, screen: Seq<char>) -> Seq<
    Seq<char>,
> {
    seq![
        "--- BEGIN RESULT ---"@,
        "stop: "@ + stop,
        cs_ip_text(regs.cs, regs.eip),
        "EAX="@ + hex_field(regs.eax as nat, 8) + " EBX="@ + hex_field(regs.ebx as nat, 8)
            + " ECX="@ + hex_field(regs.ecx as nat, 8) + " EDX="@ + hex_field(regs.edx as nat, 8),
        "ESP="@ + hex_field(regs.esp as nat, 8) + " EBP="@ + hex_field(regs.ebp as nat, 8)
            + " ESI="@ + hex_field(regs.esi as nat, 8) + " EDI="@ + hex_field(regs.edi as nat, 8),
        "EIP="@ + hex_field(regs.eip as nat, 8) + " EFLAGS="@ + hex_field(regs.eflags as nat, 8),
        "CS="@ + hex_field(regs.cs as nat, 4) + " DS="@ + hex_field(regs.ds as nat, 4) + " ES="@
            + hex_field(regs.es as nat, 4) + " SS="@ + hex_field(regs.ss as nat, 4) + " FS="@
            + hex_field(regs.fs as nat, 4) + " GS="@ + hex_field(regs.gs as nat, 4),
        "--- text page (80x25) ---"@,
        screen,
        "--- END RESULT ---"@,
    ]
}

/// The lines of a result block.
pub fn dump_result_lines(stop: &str, regs: &Registers, screen: &str) -> (lines: Vec<String>)
    ensures
        text_views(lines@) == result_block(stop@, *regs, screen@),
{
    let mut lines: Vec<String> = Vec::new();
    lines.push("--- BEGIN RESULT ---".to_owned());
    let mut line: String = "stop: ".to_owned();
    line.append(stop);
    lines.push(line);
    lines.push(cs_ip_line(regs.cs, regs.eip));
    let mut line: String = "EAX=".to_owned();
    line.append(hex_field_text(regs.eax as u64, 8).as_str());
    line.append(" EBX=");
    line.append(hex_field_text(regs.ebx as u64, 8).as_str());
    line.append(" ECX=");
    line.append(hex_field_text(regs.ecx as u64, 8).as_str());
    line.append(" EDX=");
    line.append(hex_field_text(regs.edx as u64, 8).as_str());
    lines.push(line);
    let mut line: String = "ESP=".to_owned();
    line.append(hex_field_text(regs.esp as u64, 8).as_str());
    line.append(" EBP=");
    line.append(hex_field_text(regs.ebp as u64, 8).as_str());
    line.append(" ESI=");
    line.append(hex_field_text(regs.esi as u64, 8).as_str());
    line.append(" EDI=");
    line.append(hex_field_text(regs.edi as u64, 8).as_str());
    lines.push(line);
    let mut line: String = "EIP=".to_owned();
    line.append(hex_field_text(regs.eip as u64, 8).as_str());
    line.append(" EFLAGS=");
    line.append(hex_field_text(regs.eflags as u64, 8).as_str());
    lines.push(line);
    let mut line: String = "CS=".to_owned();
    line.append(hex_field_text(regs.cs as u64, 4).as_str());
    line.append(" DS=");
    line.append(hex_field_text(regs.ds as u64, 4).as_str());
    line.append(" ES=");
    line.append(hex_field_text(regs.es as u64, 4).as_str());
    line.append(" SS=");
    line.append(hex_field_text(regs.ss as u64, 4).as_str());
    line.append(" FS=");
    line.append(hex_field_text(regs.fs as u64, 4).as_str());
    line.append(" GS=");
    line.append(hex_field_text(regs.gs as u64, 4).as_str());
    lines.push(line);
    lines.push("--- text page (80x25) ---".to_owned());
    lines.push(screen.to_owned());
    lines.push("--- END RESULT ---".to_owned());
    assert(text_views(lines@) =~= result_block(stop@, *regs, screen@));
    lines
}

// ---------------------------------------------------------------------------
// The sampled addresses
// ---------------------------------------------------------------------------

/// The rows of the sampled addresses: each address and its samples.
pub open spec fn address_rows(rows: Seq<(u32, u64)>) -> Seq<char>
    decreases rows.len(),
{
    if rows.len() == 0 {
        Seq::empty()
    } else {
        address_rows(rows.drop_last()) + hex_field(rows.last().0 as nat, 8) + ","@ + decimal(
            rows.last().1 as nat,
        ) + "\n"@
    }
}

/// Every sampled address with its samples, as comma-separated rows.
pub fn sampled_addresses_text(sample_stride: u64, rows: &Vec<(u32, u64)>) -> (text: String)
    ensures
        text@ == "# sample_stride="@ + decimal(sample_stride as nat) + " rows="@ + decimal(
            rows@.len(),
        ) + "\nlinear_hex,samples\n"@ + address_rows(rows@),
{
    let mut text: String = "# sample_stride=".to_owned();
    text.append(decimal_text(sample_stride).as_str());
    text.append(" rows=");
    text.append(decimal_text(rows.len() as u64).as_str());
    text.append("\nlinear_hex,samples\n");
    let ghost head = text@;
    let mut i: usize = 0;
    proof {
        assert(rows@.take(0) =~= Seq::empty());
        assert(head + address_rows(rows@.take(0)) =~= head);
    }
    while i < rows.len()
        invariant
            i <= rows@.len(),
            text@ == head + address_rows(rows@.take(i as int)),
        decreases rows@.len() - i,
    {
        assert(rows@.take(i + 1).drop_last() =~= rows@.take(i as int));
        text.append(hex_field_text(rows[i].0 as u64, 8).as_str());
        text.append(",");
        text.append(decimal_text(rows[i].1).as_str());
        text.append("\n");
        i = i + 1;
        assert(text@ =~= head + address_rows(rows@.take(i as int)));
    }
    assert(rows@.take(rows@.len() as int) =~= rows@);
    text
}

/// The lines as one text, each ended by a line break.
pub fn line_block(lines: &Vec<String>) -> (text: String)
    ensures
        text@ == joined(text_views(lines@), "\n"@) + "\n"@,
{
    let mut text: String = join(lines, "\n");
    text.append("\n");
    text
}

/// The line about the device-edge cache; `served` is the share that it answered,
/// with two decimals.
pub fn device_edge_cache_line(scans: u64, batches: u64, served: &str) -> (line: String)
    ensures
        line@ == "device-edge cache: "@ + decimal(scans as nat) + " scans over "@ + decimal(
            batches as nat,
        ) + " batch entries ("@ + served@ + "% served from cache)"@,
{
    let mut line: String = "device-edge cache: ".to_owned();
    line.append(decimal_text(scans).as_str());
    line.append(" scans over ");
    line.append(decimal_text(batches).as_str());
    line.append(" batch entries (");
    line.append(served);
    line.append("% served from cache)");
    line
}

/// How the words of the line begin.
proof fn lemma_general_registers_read_back_leads()
    ensures
        !"EAX="@.contains(' '),
        !"EBX="@.contains(' '),
        !"ECX="@.contains(' '),
        !"EDX="@.contains(' '),
        " EBX="@ == seq![' '] + "EBX="@,
        " ECX="@ == seq![' '] + "ECX="@,
        " EDX="@ == seq![' '] + "EDX="@,
{
    reveal_strlit("EAX=");
    reveal_strlit("EBX=");
    reveal_strlit("ECX=");
    reveal_strlit("EDX=");
    reveal_strlit(" EBX=");
    reveal_strlit(" ECX=");
    reveal_strlit(" EDX=");
    assert(" EBX="@ =~= seq![' '] + "EBX="@);
    assert(" ECX="@ =~= seq![' '] + "ECX="@);
    assert(" EDX="@ =~= seq![' '] + "EDX="@);
}

/// The general registers read back, each behind its own name.
#[verifier::rlimit(50)]
pub proof fn law_general_registers_read_back(stop: Seq<char>, regs: Registers, screen: Seq<char>)
    ensures
        split(result_block(stop, regs, screen)[3], ' ') == seq![
            "EAX="@ + hex_field(regs.eax as nat, 8),
            "EBX="@ + hex_field(regs.ebx as nat, 8),
            "ECX="@ + hex_field(regs.ecx as nat, 8),
            "EDX="@ + hex_field(regs.edx as nat, 8),
        ],
{
    lemma_general_registers_read_back_leads();
    lemma_upper_numerals_hold_digits(regs.eax as nat, 8, ' ');
    lemma_upper_numerals_hold_digits(regs.ebx as nat, 8, ' ');
    lemma_upper_numerals_hold_digits(regs.ecx as nat, 8, ' ');
    lemma_upper_numerals_hold_digits(regs.edx as nat, 8, ' ');
    lemma_neither_holds("EAX="@, hex_field(regs.eax as nat, 8), ' ');
    let line = "EAX="@ + hex_field(regs.eax as nat, 8);
    let words = seq![line];
    lemma_the_first_word(line);
    lemma_word_added(line, words, " EBX="@, "EBX="@, hex_field(regs.ebx as nat, 8));
    let line = line + " EBX="@ + hex_field(regs.ebx as nat, 8);
    let words = words.push("EBX="@ + hex_field(regs.ebx as nat, 8));
    lemma_word_added(line, words, " ECX="@, "ECX="@, hex_field(regs.ecx as nat, 8));
    let line = line + " ECX="@ + hex_field(regs.ecx as nat, 8);
    let words = words.push("ECX="@ + hex_field(regs.ecx as nat, 8));
    lemma_word_added(line, words, " EDX="@, "EDX="@, hex_field(regs.edx as nat, 8));
    let line = line + " EDX="@ + hex_field(regs.edx as nat, 8);
    let words = words.push("EDX="@ + hex_field(regs.edx as nat, 8));
    lemma_words_read_back(line, words);
    assert(words =~= seq![
        "EAX="@ + hex_field(regs.eax as nat, 8),
        "EBX="@ + hex_field(regs.ebx as nat, 8),
        "ECX="@ + hex_field(regs.ecx as nat, 8),
        "EDX="@ + hex_field(regs.edx as nat, 8),
    ]);
}

/// How the words of the line begin.
proof fn lemma_pointer_registers_read_back_leads()
    ensures
        !"ESP="@.contains(' '),
        !"EBP="@.contains(' '),
        !"ESI="@.contains(' '),
        !"EDI="@.contains(' '),
        " EBP="@ == seq![' '] + "EBP="@,
        " ESI="@ == seq![' '] + "ESI="@,
        " EDI="@ == seq![' '] + "EDI="@,
{
    reveal_strlit("ESP=");
    reveal_strlit("EBP=");
    reveal_strlit("ESI=");
    reveal_strlit("EDI=");
    reveal_strlit(" EBP=");
    reveal_strlit(" ESI=");
    reveal_strlit(" EDI=");
    assert(" EBP="@ =~= seq![' '] + "EBP="@);
    assert(" ESI="@ =~= seq![' '] + "ESI="@);
    assert(" EDI="@ =~= seq![' '] + "EDI="@);
}

/// The pointer and index registers read back, each behind its own name.
#[verifier::rlimit(50)]
pub proof fn law_pointer_registers_read_back(stop: Seq<char>, regs: Registers, screen: Seq<char>)
    ensures
        split(result_block(stop, regs, screen)[4], ' ') == seq![
            "ESP="@ + hex_field(regs.esp as nat, 8),
            "EBP="@ + hex_field(regs.ebp as nat, 8),
            "ESI="@ + hex_field(regs.esi as nat, 8),
            "EDI="@ + hex_field(regs.edi as nat, 8),
        ],
{
    lemma_pointer_registers_read_back_leads();
    lemma_upper_numerals_hold_digits(regs.esp as nat, 8, ' ');
    lemma_upper_numerals_hold_digits(regs.ebp as nat, 8, ' ');
    lemma_upper_numerals_hold_digits(regs.esi as nat, 8, ' ');
    lemma_upper_numerals_hold_digits(regs.edi as nat, 8, ' ');
    lemma_neither_holds("ESP="@, hex_field(regs.esp as nat, 8), ' ');
    let line = "ESP="@ + hex_field(regs.esp as nat, 8);
    let words = seq![line];
    lemma_the_first_word(line);
    lemma_word_added(line, words, " EBP="@, "EBP="@, hex_field(regs.ebp as nat, 8));
    let line = line + " EBP="@ + hex_field(regs.ebp as nat, 8);
    let words = words.push("EBP="@ + hex_field(regs.ebp as nat, 8));
    lemma_word_added(line, words, " ESI="@, "ESI="@, hex_field(regs.esi as nat, 8));
    let line = line + " ESI="@ + hex_field(regs.esi as nat, 8);
    let words = words.push("ESI="@ + hex_field(regs.esi as nat, 8));
    lemma_word_added(line, words, " EDI="@, "EDI="@, hex_field(regs.edi as nat, 8));
    let line = line + " EDI="@ + hex_field(regs.edi as nat, 8);
    let words = words.push("EDI="@ + hex_field(regs.edi as nat, 8));
    lemma_words_read_back(line, words);
    assert(words =~= seq![
        "ESP="@ + hex_field(regs.esp as nat, 8),
        "EBP="@ + hex_field(regs.ebp as nat, 8),
        "ESI="@ + hex_field(regs.esi as nat, 8),
        "EDI="@ + hex_field(regs.edi as nat, 8),
    ]);
}

/// How the words of the line begin.
proof fn lemma_the_program_counter_and_flags_read_back_leads()
    ensures
        !"EIP="@.contains(' '),
        !"EFLAGS="@.contains(' '),
        " EFLAGS="@ == seq![' '] + "EFLAGS="@,
{
    reveal_strlit("EIP=");
    reveal_strlit("EFLAGS=");
    reveal_strlit(" EFLAGS=");
    assert(" EFLAGS="@ =~= seq![' '] + "EFLAGS="@);
}

/// The program counter and the flags read back, each behind its own name.
#[verifier::rlimit(50)]
pub proof fn law_the_program_counter_and_flags_read_back(stop: Seq<char>, regs: Registers, screen: Seq<char>)
    ensures
        split(result_block(stop, regs, screen)[5], ' ') == seq![
            "EIP="@ + hex_field(regs.eip as nat, 8),
            "EFLAGS="@ + hex_field(regs.eflags as nat, 8),
        ],
{
    lemma_the_program_counter_and_flags_read_back_leads();
    lemma_upper_numerals_hold_digits(regs.eip as nat, 8, ' ');
    lemma_upper_numerals_hold_digits(regs.eflags as nat, 8, ' ');
    lemma_neither_holds("EIP="@, hex_field(regs.eip as nat, 8), ' ');
    let line = "EIP="@ + hex_field(regs.eip as nat, 8);
    let words = seq![line];
    lemma_the_first_word(line);
    lemma_word_added(line, words, " EFLAGS="@, "EFLAGS="@, hex_field(regs.eflags as nat, 8));
    let line = line + " EFLAGS="@ + hex_field(regs.eflags as nat, 8);
    let words = words.push("EFLAGS="@ + hex_field(regs.eflags as nat, 8));
    lemma_words_read_back(line, words);
    assert(words =~= seq![
        "EIP="@ + hex_field(regs.eip as nat, 8),
        "EFLAGS="@ + hex_field(regs.eflags as nat, 8),
    ]);
}

/// How the words of the line begin.
proof fn lemma_segment_registers_read_back_leads()
    ensures
        !"CS="@.contains(' '),
        !"DS="@.contains(' '),
        !"ES="@.contains(' '),
        !"SS="@.contains(' '),
        !"FS="@.contains(' '),
        !"GS="@.contains(' '),
        " DS="@ == seq![' '] + "DS="@,
        " ES="@ == seq![' '] + "ES="@,
        " SS="@ == seq![' '] + "SS="@,
        " FS="@ == seq![' '] + "FS="@,
        " GS="@ == seq![' '] + "GS="@,
{
    reveal_strlit("CS=");
    reveal_strlit("DS=");
    reveal_strlit("ES=");
    reveal_strlit("SS=");
    reveal_strlit("FS=");
    reveal_strlit("GS=");
    reveal_strlit(" DS=");
    reveal_strlit(" ES=");
    reveal_strlit(" SS=");
    reveal_strlit(" FS=");
    reveal_strlit(" GS=");
    assert(" DS="@ =~= seq![' '] + "DS="@);
    assert(" ES="@ =~= seq![' '] + "ES="@);
    assert(" SS="@ =~= seq![' '] + "SS="@);
    assert(" FS="@ =~= seq![' '] + "FS="@);
    assert(" GS="@ =~= seq![' '] + "GS="@);
}

/// The segment registers read back, each behind its own name.
#[verifier::rlimit(50)]
pub proof fn law_segment_registers_read_back(stop: Seq<char>, regs: Registers, screen: Seq<char>)
    ensures
        split(result_block(stop, regs, screen)[6], ' ') == seq![
            "CS="@ + hex_field(regs.cs as nat, 4),
            "DS="@ + hex_field(regs.ds as nat, 4),
            "ES="@ + hex_field(regs.es as nat, 4),
            "SS="@ + hex_field(regs.ss as nat, 4),
            "FS="@ + hex_field(regs.fs as nat, 4),
            "GS="@ + hex_field(regs.gs as nat, 4),
        ],
{
    lemma_segment_registers_read_back_leads();
    lemma_upper_numerals_hold_digits(regs.cs as nat, 4, ' ');
    lemma_upper_numerals_hold_digits(regs.ds as nat, 4, ' ');
    lemma_upper_numerals_hold_digits(regs.es as nat, 4, ' ');
    lemma_upper_numerals_hold_digits(regs.ss as nat, 4, ' ');
    lemma_upper_numerals_hold_digits(regs.fs as nat, 4, ' ');
    lemma_upper_numerals_hold_digits(regs.gs as nat, 4, ' ');
    lemma_neither_holds("CS="@, hex_field(regs.cs as nat, 4), ' ');
    let line = "CS="@ + hex_field(regs.cs as nat, 4);
    let words = seq![line];
    lemma_the_first_word(line);
    lemma_word_added(line, words, " DS="@, "DS="@, hex_field(regs.ds as nat, 4));
    let line = line + " DS="@ + hex_field(regs.ds as nat, 4);
    let words = words.push("DS="@ + hex_field(regs.ds as nat, 4));
    lemma_word_added(line, words, " ES="@, "ES="@, hex_field(regs.es as nat, 4));
    let line = line + " ES="@ + hex_field(regs.es as nat, 4);
    let words = words.push("ES="@ + hex_field(regs.es as nat, 4));
    lemma_word_added(line, words, " SS="@, "SS="@, hex_field(regs.ss as nat, 4));
    let line = line + " SS="@ + hex_field(regs.ss as nat, 4);
    let words = words.push("SS="@ + hex_field(regs.ss as nat, 4));
    lemma_word_added(line, words, " FS="@, "FS="@, hex_field(regs.fs as nat, 4));
    let line = line + " FS="@ + hex_field(regs.fs as nat, 4);
    let words = words.push("FS="@ + hex_field(regs.fs as nat, 4));
    lemma_word_added(line, words, " GS="@, "GS="@, hex_field(regs.gs as nat, 4));
    let line = line + " GS="@ + hex_field(regs.gs as nat, 4);
    let words = words.push("GS="@ + hex_field(regs.gs as nat, 4));
    lemma_words_read_back(line, words);
    assert(words =~= seq![
        "CS="@ + hex_field(regs.cs as nat, 4),
        "DS="@ + hex_field(regs.ds as nat, 4),
        "ES="@ + hex_field(regs.es as nat, 4),
        "SS="@ + hex_field(regs.ss as nat, 4),
        "FS="@ + hex_field(regs.fs as nat, 4),
        "GS="@ + hex_field(regs.gs as nat, 4),
    ]);
}

/// A result block says why the guest stopped, where it stood, and what its screen showed,
/// between its two marks. Only the low half of the program counter goes into the place.
pub proof fn law_a_result_block_has_its_parts(stop: Seq<char>, regs: Registers, screen: Seq<char>)
    ensures
        result_block(stop, regs, screen).len() == 10,
        result_block(stop, regs, screen)[0] == "--- BEGIN RESULT ---"@,
        result_block(stop, regs, screen)[1] == "stop: "@ + stop,
        result_block(stop, regs, screen)[2] == cs_ip_text(regs.cs, regs.eip),
        result_block(stop, regs, screen)[8] == screen,
        result_block(stop, regs, screen)[9] == "--- END RESULT ---"@,
        cs_ip_text(regs.cs, regs.eip) == cs_ip_text(regs.cs, regs.eip % 0x1_0000),
{
}

/// Where the guest executes reads back: the segment before the colon and the offset behind
/// it, in four digits each.
pub proof fn law_the_place_reads_back(cs: u16, eip: u32)
    requires
        eip < 0x1_0000,
    ensures
        split(cs_ip_text(cs, eip).skip(8), ':') == seq![
            hex_field(cs as nat, 4),
            hex_field(eip as nat, 4),
        ],
        hex_field(cs as nat, 4).len() == 4,
        hex_field(eip as nat, 4).len() == 4,
{
    reveal_strlit("CS:IP = ");
    reveal_strlit(":");
    assert(":"@ =~= seq![':']);
    lemma_upper_numerals_hold_digits(cs as nat, 4, ':');
    lemma_upper_numerals_hold_digits(eip as nat, 4, ':');
    lemma_split_at_the_first(hex_field(cs as nat, 4), hex_field(eip as nat, 4), ':');
    lemma_split_without_any(hex_field(eip as nat, 4), ':');
    assert(cs_ip_text(cs, eip).skip(8) =~= hex_field(cs as nat, 4) + seq![':'] + hex_field(
        eip as nat,
        4,
    ));
    lemma_four_digits(cs as nat);
    lemma_four_digits(eip as nat);
    assert(seq![hex_field(cs as nat, 4)] + seq![hex_field(eip as nat, 4)] =~= seq![
        hex_field(cs as nat, 4),
        hex_field(eip as nat, 4),
    ]);
}

/// A number of sixteen bits has at most four digits.
proof fn lemma_four_digits(n: nat)
    requires
        n < 0x1_0000,
    ensures
        hex_field(n, 4).len() == 4,
{
    reveal_with_fuel(upper_hex, 5);
}

/// The rows of the sampled addresses follow one another, each its address, a comma and its
/// samples.
pub proof fn law_address_rows_follow_one_another(
    a: Seq<(u32, u64)>,
    b: Seq<(u32, u64)>,
    one: (u32, u64),
)
    ensures
        address_rows(a + b) == address_rows(a) + address_rows(b),
        address_rows(seq![one]) == hex_field(one.0 as nat, 8) + seq![','] + decimal(one.1 as nat)
            + seq!['\n'],
    decreases b.len(),
{
    reveal_strlit(",");
    reveal_strlit("\n");
    assert(","@ =~= seq![',']);
    assert("\n"@ =~= seq!['\n']);
    assert(seq![one].drop_last() =~= Seq::empty());
    assert(address_rows(seq![one].drop_last()) =~= Seq::empty());
    assert(address_rows(seq![one]) =~= hex_field(one.0 as nat, 8) + seq![','] + decimal(
        one.1 as nat,
    ) + seq!['\n']);
    if b.len() == 0 {
        assert(a + b =~= a);
        assert(address_rows(a) + address_rows(b) =~= address_rows(a));
    } else {
        law_address_rows_follow_one_another(a, b.drop_last(), one);
        assert((a + b).drop_last() =~= a + b.drop_last());
        assert(address_rows(a + b) =~= address_rows(a) + address_rows(b));
    }
}

/// What the guest wrote to the serial port is printed whole, and always ends with a line
/// break: with one more only where the guest wrote none.
pub proof fn law_the_serial_port_is_printed_whole(serial: Seq<char>)
    requires
        serial.len() > 0,
    ensures
        com1_block(serial).last() == '\n',
        com1_block(serial).subrange(13, 13int + serial.len()) == serial,
        serial.last() != '\n' ==> com1_block(serial) == com1_block(serial.push('\n')),
        com1_block(Seq::empty()).len() == 0,
{
    reveal_strlit("--- COM1 ---\n");
    reveal_strlit("\n");
    assert("\n"@ =~= seq!['\n']);
    assert(com1_block(serial).subrange(13, 13int + serial.len()) =~= serial);
    assert(serial.push('\n').last() == '\n');
    assert("--- COM1 ---\n"@ + serial + seq!['\n'] =~= "--- COM1 ---\n"@ + serial.push('\n'));
}

} // verus!
