//! Settings that come as text from outside: switches, counts and address windows.

use vstd::prelude::*;

#[allow(unused_imports)]
use crate::text::{
    padded, parsed_hex, parsed_nat, prefixed_hex, split, trimmed, upper_hex, views, without_leading,
};
use crate::text::{
    chars_of, drop_leading, hex_text, pad_left, prefixed_hex_text, read_hex, read_nat, same_text,
    split_chars, trim_chars,
};

verus! {

// ---------------------------------------------------------------------------
// Switches
// ---------------------------------------------------------------------------

/// Whether a value switches something on: any value but the empty one and `0`.
pub open spec fn switches_on(value: Seq<char>) -> bool {
    value.len() > 0 && value != "0"@
}

/// Whether the value of a switch, where it has one, switches it on.
pub fn machine_profile_requested(value: Option<&str>) -> (on: bool)
    ensures
        on == (value matches Some(v) && switches_on(v@)),
{
    match value {
        Some(v) => {
            let chars: Vec<char> = chars_of(v);
            chars.len() > 0 && !same_text(v, "0")
        },
        None => false,
    }
}

/// The path that a switch names, where its value switches it on.
pub fn rip_profile_path_from(value: Option<String>) -> (path: Option<String>)
    ensures
        path is Some <==> (value matches Some(v) && switches_on(v@)),
        path is Some ==> path == value,
{
    match value {
        Some(v) => if machine_profile_requested(Some(v.as_str())) {
            Some(v)
        } else {
            None
        },
        None => None,
    }
}

// ---------------------------------------------------------------------------
// Counts
// ---------------------------------------------------------------------------

/// The count that a value states, where it states one.
pub fn parse_count(value: Option<&str>) -> (count: Option<u64>)
    ensures
        match count {
            Some(n) => value matches Some(v) && parsed_nat(v@, u64::MAX as nat) == Some(n as nat),
            None => value matches Some(v) ==> parsed_nat(v@, u64::MAX as nat) is None,
        },
{
    match value {
        Some(v) => read_nat(&chars_of(v), 0xffff_ffff_ffff_ffff),
        None => None,
    }
}

/// The guest milliseconds between two phase marks: a count that is not zero.
pub fn parse_phase_interval_ms(value: Option<&str>) -> (ms: Option<u64>)
    ensures
        match ms {
            Some(n) => n > 0 && (value matches Some(v) && parsed_nat(v@, u64::MAX as nat) == Some(
                n as nat,
            )),
            None => value matches Some(v) ==> parsed_nat(v@, u64::MAX as nat) is None
                || parsed_nat(v@, u64::MAX as nat) == Some(0nat),
        },
{
    match parse_count(value) {
        Some(n) => if n > 0 {
            Some(n)
        } else {
            None
        },
        None => None,
    }
}

/// The clocks between two phase marks that are `ms` milliseconds apart, as far as
/// a clock can count.
pub fn phase_interval_clocks(clocks_per_ms: u64, ms: u64) -> (clocks: u64)
    ensures
        clocks == if clocks_per_ms * ms <= u64::MAX {
            clocks_per_ms * ms
        } else {
            u64::MAX as int
        },
        ms == 0 ==> clocks == 0,
        ms == 1 ==> clocks == clocks_per_ms,
        clocks <= clocks_per_ms * ms,
{
    match clocks_per_ms.checked_mul(ms) {
        Some(clocks) => clocks,
        None => u64::MAX,
    }
}

/// How many reports of watched stores are wanted.
pub fn parse_watch_limit(value: &str) -> (limit: Option<u32>)
    ensures
        match limit {
            Some(n) => parsed_nat(trimmed(value@), u32::MAX as nat) == Some(n as nat),
            None => parsed_nat(trimmed(value@), u32::MAX as nat) is None,
        },
{
    match read_nat(&trim_chars(&chars_of(value)), 0xffff_ffff) {
        Some(n) => Some(n as u32),
        None => None,
    }
}

/// What a run measures of itself.
#[derive(Clone, Copy, Debug, PartialEq, Eq, Structural)]
pub enum Profiling {
    /// Nothing.
    Off,
    /// The phases of the machine.
    Machine,
    /// Those, and every so many instructions of the processor.
    Cpu { stride: u64 },
}

/// What a run measures of itself: the processor where a stride is given, else the
/// machine's phases where they are switched on.
pub fn profiling_mode(stride: Option<u64>, machine: bool) -> (mode: Profiling)
    ensures
        mode == match stride {
            Some(stride) => Profiling::Cpu { stride },
            None => if machine {
                Profiling::Machine
            } else {
                Profiling::Off
            },
        },
        mode is Cpu <==> stride is Some,
        mode is Cpu ==> Some(mode->stride) == stride,
        mode is Off ==> !machine,
        mode is Machine ==> machine,
{
    match stride {
        Some(stride) => Profiling::Cpu { stride },
        None => if machine {
            Profiling::Machine
        } else {
            Profiling::Off
        },
    }
}

// ---------------------------------------------------------------------------
// Address windows
// ---------------------------------------------------------------------------

/// The bytes that are watched where no length is given.
pub const WATCH_DEFAULT_LEN: u32 = 0x100;

/// The bytes that are dumped where no length is given.
pub const DUMP_DEFAULT_LEN: u32 = 0x180;

/// A number in hexadecimal, with or without `0x` in front.
pub open spec fn address_of(text: Seq<char>) -> Option<nat> {
    parsed_hex(without_leading(text, "0x"@))
}

/// An address, and behind the first comma a length; `default` where the length is
/// missing or is no number.
pub open spec fn window_of(
    parts: Seq<Seq<char>>,
    default: u32,
) -> Option<(nat, nat)> {
    match address_of(parts[0]) {
        None => None,
        Some(address) => Some(
            (
                address,
                if parts.len() > 1 {
                    match address_of(parts[1]) {
                        Some(len) => len,
                        None => default as nat,
                    }
                } else {
                    default as nat
                },
            ),
        ),
    }
}

/// A number in hexadecimal, with or without `0x` in front.
fn read_address(chars: &Vec<char>) -> (n: Option<u32>)
    ensures
        match n {
            Some(n) => address_of(chars@) == Some(n as nat),
            None => address_of(chars@) is None,
        },
{
    proof {
        reveal_strlit("0x");
    }
    let prefix: Vec<char> = chars_of("0x");
    read_hex(&drop_leading(chars, &prefix))
}

/// An address, and behind it a length.
fn read_window(parts: &Vec<Vec<char>>, default: u32) -> (window: Option<(u32, u32)>)
    requires
        parts@.len() > 0,
    ensures
        match window {
            Some(w) => window_of(views(parts@), default) == Some((w.0 as nat, w.1 as nat)),
            None => window_of(views(parts@), default) is None,
        },
{
    match read_address(&parts[0]) {
        None => None,
        Some(address) => {
            let mut len: u32 = default;
            if parts.len() > 1 {
                match read_address(&parts[1]) {
                    Some(n) => {
                        len = n;
                    },
                    None => {},
                }
            }
            Some((address, len))
        },
    }
}

/// Each part without the white space around it.
pub open spec fn trimmed_parts(parts: Seq<Seq<char>>) -> Seq<Seq<char>> {
    parts.map_values(|part: Seq<char>| trimmed(part))
}

/// The window of guest memory whose stores are to be watched.
pub fn parse_write_watch(spec: &str) -> (window: Option<(u32, u32)>)
    ensures
        match window {
            Some(w) => window_of(trimmed_parts(split(spec@, ',')), WATCH_DEFAULT_LEN) == Some(
                (w.0 as nat, w.1 as nat),
            ),
            None => window_of(trimmed_parts(split(spec@, ',')), WATCH_DEFAULT_LEN) is None,
        },
        !spec@.contains(',') ==> (window is Some <==> address_of(trimmed(spec@)) is Some),
        !spec@.contains(',') && window is Some ==> (window->0).1 == 0x100,
{
    proof {
        if !spec@.contains(',') {
            crate::text::lemma_split_without_any(spec@, ',');
        }
    }
    let parts: Vec<Vec<char>> = split_chars(&chars_of(spec), ',');
    proof {
        lemma_split_has_a_part(spec@, ',');
    }
    let mut clean: Vec<Vec<char>> = Vec::new();
    let mut i: usize = 0;
    while i < parts.len()
        invariant
            i <= parts@.len(),
            clean@.len() == i,
            forall|k: int| 0 <= k < i ==> (#[trigger] clean@[k])@ == trimmed(parts@[k]@),
        decreases parts@.len() - i,
    {
        clean.push(trim_chars(&parts[i]));
        i = i + 1;
    }
    assert(views(clean@) =~= trimmed_parts(views(parts@)));
    assert(views(parts@).len() == parts@.len());
    read_window(&clean, WATCH_DEFAULT_LEN)
}

/// The window of guest memory that is to be dumped.
pub fn parse_dump_window(spec: &str) -> (window: Option<(u32, u32)>)
    ensures
        match window {
            Some(w) => window_of(split(spec@, ','), DUMP_DEFAULT_LEN) == Some(
                (w.0 as nat, w.1 as nat),
            ),
            None => window_of(split(spec@, ','), DUMP_DEFAULT_LEN) is None,
        },
        !spec@.contains(',') ==> (window is Some <==> address_of(spec@) is Some),
        !spec@.contains(',') && window is Some ==> (window->0).1 == 0x180,
{
    proof {
        if !spec@.contains(',') {
            crate::text::lemma_split_without_any(spec@, ',');
        }
    }
    let parts: Vec<Vec<char>> = split_chars(&chars_of(spec), ',');
    proof {
        lemma_split_has_a_part(spec@, ',');
    }
    assert(views(parts@).len() == parts@.len());
    read_window(&parts, DUMP_DEFAULT_LEN)
}

/// Splitting gives at least one part.
proof fn lemma_split_has_a_part(text: Seq<char>, sep: char)
    ensures
        split(text, sep).len() > 0,
{
}

/// The line that says which stores are watched.
pub fn write_watch_line(address: u32, len: u32) -> (line: String)
    requires
        address + len <= u32::MAX,
    ensures
        line@ == "watch-write: armed over "@ + prefixed_hex(address as nat, 6, false) + ".."@
            + prefixed_hex((address + len) as nat, 6, false),
{
    let mut line: String = "watch-write: armed over ".to_owned();
    line.append(prefixed_hex_text(address as u64, 6, false).as_str());
    line.append("..");
    line.append(prefixed_hex_text((address + len) as u64, 6, false).as_str());
    line
}

// ---------------------------------------------------------------------------
// Dumping guest memory
// ---------------------------------------------------------------------------

/// The bytes of one dumped row.
pub const DUMP_ROW: u32 = 16;

/// What is dumped: the window that was asked for, or else one at the hottest address.
pub fn dump_target(asked: Option<(u32, u32)>, hottest: Option<u32>) -> (target: Option<(u32, u32)>)
    ensures
        target == match asked {
            Some(window) => Some(window),
            None => match hottest {
                Some(address) => Some((address, DUMP_DEFAULT_LEN)),
                None => None,
            },
        },
        asked is Some ==> target == asked,
        asked is None ==> (target is Some <==> hottest is Some),
        asked is None && hottest is Some ==> target == Some((hottest->0, 0x180u32)),
{
    match asked {
        Some(window) => Some(window),
        None => match hottest {
            Some(address) => Some((address, DUMP_DEFAULT_LEN)),
            None => None,
        },
    }
}

/// Where a dump around `top` starts: a little before it, at the start of a row.
pub open spec fn dump_start(top: u32) -> int {
    if top < 0x40 {
        0
    } else {
        (top - 0x40) - (top - 0x40) % 16
    }
}

/// The rows that `len` bytes take.
pub open spec fn dump_rows(len: u32) -> int {
    (len + 15) / 16
}

/// The addresses at which the rows of a dump begin.
pub fn dump_row_addresses(top: u32, len: u32) -> (rows: Vec<u32>)
    requires
        dump_start(top) + dump_rows(len) * 16 <= 0x1_0000_0000,
    ensures
        rows@.len() == dump_rows(len),
        forall|i: int|
            0 <= i < rows@.len() ==> #[trigger] rows@[i] == dump_start(top) + i * 16,
{
    let near: u32 = top.saturating_sub(0x40);
    let start: u64 = (near - near % DUMP_ROW) as u64;
    let count: u64 = (len as u64 + 15) / 16;
    let mut rows: Vec<u32> = Vec::new();
    let mut i: u64 = 0;
    while i < count
        invariant
            i <= count,
            count == dump_rows(len),
            start == dump_start(top),
            start + count * 16 <= 0x1_0000_0000,
            rows@.len() == i,
            forall|k: int| 0 <= k < i ==> #[trigger] rows@[k] == dump_start(top) + k * 16,
        decreases count - i,
    {
        rows.push((start + i * 16) as u32);
        i = i + 1;
    }
    rows
}

/// Whether every byte of a dump has an address.
pub fn dump_fits(top: u32, len: u32) -> (fits: bool)
    ensures
        fits == (dump_start(top) + dump_rows(len) * 16 <= 0x1_0000_0000),
{
    let near: u32 = top.saturating_sub(0x40);
    let start: u64 = (near - near % DUMP_ROW) as u64;
    start + (len as u64 + 15) / 16 * 16 <= 0x1_0000_0000
}

/// A byte in two digits, or two dashes where the guest has no page there.
pub open spec fn byte_text(byte: Option<u8>) -> Seq<char> {
    match byte {
        Some(b) => padded(upper_hex(b as nat), 2, '0'),
        None => "--"@,
    }
}

/// The bytes of a row, with spaces between them.
pub open spec fn bytes_text(bytes: Seq<Option<u8>>) -> Seq<char>
    decreases bytes.len(),
{
    if bytes.len() == 0 {
        Seq::empty()
    } else if bytes.len() == 1 {
        byte_text(bytes[0])
    } else {
        bytes_text(bytes.drop_last()) + " "@ + byte_text(bytes.last())
    }
}

/// The bytes of a row, with spaces between them.
pub fn spaced_bytes(bytes: &Vec<Option<u8>>) -> (text: String)
    ensures
        text@ == bytes_text(bytes@),
{
    let mut text: String = String::new();
    let mut i: usize = 0;
    proof {
        assert(bytes@.take(0) =~= Seq::empty());
        assert(text@ =~= Seq::empty());
    }
    while i < bytes.len()
        invariant
            i <= bytes@.len(),
            text@ == bytes_text(bytes@.take(i as int)),
        decreases bytes@.len() - i,
    {
        proof {
            assert(bytes@.take(i + 1).drop_last() =~= bytes@.take(i as int));
        }
        if i > 0 {
            text.append(" ");
        }
        let ghost before = text@;
        match bytes[i] {
            Some(b) => {
                text.append(pad_left(hex_text(b as u64, true).as_str(), 2, '0').as_str());
            },
            None => {
                text.append("--");
            },
        }
        assert(text@ =~= before + byte_text(bytes@[i as int]));
        i = i + 1;
        proof {
            assert(bytes@.take(i as int).last() == bytes@[i - 1]);
            if i == 1 {
                assert(text@ =~= byte_text(bytes@.take(1)[0]));
            }
        }
    }
    assert(bytes@.take(bytes@.len() as int) =~= bytes@);
    text
}

/// One row of a dump.
pub fn dump_row_line(address: u32, bytes: &Vec<Option<u8>>) -> (line: String)
    ensures
        line@ == padded(upper_hex(address as nat), 8, '0') + "  "@ + bytes_text(bytes@),
{
    let mut line: String = pad_left(hex_text(address as u64, true).as_str(), 8, '0');
    line.append("  ");
    line.append(spaced_bytes(bytes).as_str());
    line
}

/// The heading of a dump.
pub fn dump_heading(top: u32) -> (line: String)
    ensures
        line@ == "=== bytes around hottest address "@ + padded(upper_hex(top as nat), 8, '0')
            + " (paging-walked linear) ==="@,
{
    let mut line: String = "=== bytes around hottest address ".to_owned();
    line.append(pad_left(hex_text(top as u64, true).as_str(), 8, '0').as_str());
    line.append(" (paging-walked linear) ===");
    line
}

/// A dump begins at or before the address that it is about, at the start of a row,
/// and no further before it than four rows and a part of one.
pub proof fn law_a_dump_begins_at_a_row_before_its_address(top: u32)
    ensures
        dump_start(top) % 16 == 0,
        0 <= dump_start(top) <= top,
        top - dump_start(top) < 0x50,
{
}

/// An address in hexadecimal reads back, with and without `0x` in front.
pub proof fn law_an_address_reads_back(n: u32)
    ensures
        address_of(crate::text::hex(n as nat)) == Some(n as nat),
        address_of(seq!['0', 'x'] + crate::text::hex(n as nat)) == Some(n as nat),
{
    let digits = crate::text::hex(n as nat);
    reveal_strlit("0x");
    assert("0x"@ =~= seq!['0', 'x']);
    crate::text::lemma_hex_reads_back(n as nat);
    assert(crate::text::hex_digit(digits[0]) is Some);
    assert(!crate::text::stands_at(digits, "0x"@, 0)) by {
        if crate::text::stands_at(digits, "0x"@, 0) {
            assert(digits.subrange(0, 2)[1] == digits[1]);
            assert(crate::text::hex_digit(digits[1]) is Some);
        }
    }
    crate::text::law_leading_patterns_go("0x"@, digits);
}

/// A window reads back: its address before the comma and its length behind it, whatever
/// white space stands around them; the usual length where none is given or it is no number.
pub proof fn law_a_window_reads_back(address: u32, len: u32, default: u32, junk: Seq<char>)
    requires
        address_of(junk) is None,
    ensures
        ({
            let a = seq!['0', 'x'] + crate::text::hex(address as nat);
            let l = seq!['0', 'x'] + crate::text::hex(len as nat);
            &&& split(a + seq![','] + l, ',') == seq![a, l]
            &&& trimmed(seq![' '] + a + seq![' ']) == a
            &&& window_of(seq![a, l], default) == Some((address as nat, len as nat))
            &&& window_of(seq![a], default) == Some((address as nat, default as nat))
            &&& window_of(seq![a, junk], default) == Some((address as nat, default as nat))
            &&& window_of(seq![junk, l], default) is None
        }),
{
    let a = seq!['0', 'x'] + crate::text::hex(address as nat);
    let l = seq!['0', 'x'] + crate::text::hex(len as nat);
    law_an_address_reads_back(address);
    law_an_address_reads_back(len);
    crate::text::lemma_numerals_hold_digits(address as nat, 0, ',');
    crate::text::lemma_numerals_hold_digits(len as nat, 0, ',');
    assert(!seq!['0', 'x'].contains(','));
    crate::text::lemma_neither_holds(seq!['0', 'x'], crate::text::hex(address as nat), ',');
    crate::text::lemma_neither_holds(seq!['0', 'x'], crate::text::hex(len as nat), ',');
    crate::text::lemma_split_at_the_first(a, l, ',');
    crate::text::lemma_split_without_any(l, ',');
    assert(seq![a] + seq![l] =~= seq![a, l]);
    crate::text::lemma_hex_reads_back(address as nat);
    assert(a.last() == crate::text::hex(address as nat).last());
    let digits = crate::text::hex(address as nat);
    assert(crate::text::hex_digit(digits[digits.len() - 1]) is Some);
    crate::text::law_trimming_takes_the_space_around(seq![' '], a, seq![' ']);
}

/// The bytes of a row read back between its spaces: two digits for each, the higher one
/// first, and two dashes where there is no page.
pub proof fn law_dumped_bytes_read_back(bytes: Seq<Option<u8>>)
    requires
        bytes.len() > 0,
    ensures
        split(bytes_text(bytes), ' ') == bytes.map_values(|b: Option<u8>| byte_text(b)),
{
    lemma_bytes_are_words(bytes);
    crate::text::lemma_words_read_back(
        bytes_text(bytes),
        bytes.map_values(|b: Option<u8>| byte_text(b)),
    );
}

/// The bytes of a row are words with spaces between them.
proof fn lemma_bytes_are_words(bytes: Seq<Option<u8>>)
    requires
        bytes.len() > 0,
    ensures
        crate::text::spaced(
            bytes_text(bytes),
            bytes.map_values(|b: Option<u8>| byte_text(b)),
        ),
    decreases bytes.len(),
{
    let words = bytes.map_values(|b: Option<u8>| byte_text(b));
    reveal_strlit(" ");
    assert(" "@ =~= seq![' ']);
    let last = byte_text(bytes.last());
    law_a_byte_has_two_digits(bytes.last());
    assert(!last.contains(' ')) by {
        if last.contains(' ') {
            let i = choose|i: int| 0 <= i < last.len() && last[i] == ' ';
            assert(i == 0 || i == 1);
        }
    }
    if bytes.len() == 1 {
        crate::text::lemma_the_first_word(last);
        assert(words =~= seq![last]);
    } else {
        let front = bytes.drop_last();
        let before = front.map_values(|b: Option<u8>| byte_text(b));
        lemma_bytes_are_words(front);
        let none = Seq::<char>::empty();
        crate::text::lemma_word_added(bytes_text(front), before, " "@, none, last);
        assert(seq![' '] + none =~= " "@);
        assert(none + last =~= last);
        assert(before.push(last) =~= words);
    }
}

/// A byte has two digits that stand for it, the higher one first.
pub proof fn law_a_byte_has_two_digits(byte: Option<u8>)
    ensures
        byte_text(byte).len() == 2,
        byte is Some ==> crate::text::hex_digit(byte_text(byte)[0]) is Some
            && crate::text::hex_digit(byte_text(byte)[1]) is Some && 16
            * crate::text::hex_digit(byte_text(byte)[0])->0 + crate::text::hex_digit(
            byte_text(byte)[1],
        )->0 == byte->0,
        byte is None ==> byte_text(byte)[0] == '-' && byte_text(byte)[1] == '-',
{
    reveal_strlit("--");
    reveal_with_fuel(upper_hex, 3);
    if let Some(b) = byte {
        let text = byte_text(byte);
        if b < 16 {
            assert(text =~= seq!['0', crate::text::upper_digit(b as nat)]);
        } else {
            assert(upper_hex(b as nat) =~= seq![
                crate::text::upper_digit(b as nat / 16),
                crate::text::upper_digit(b as nat % 16),
            ]);
        }
    }
}

/// The rows of a dump hold all of its bytes, and the last of them is begun.
pub proof fn law_the_rows_hold_the_dump(len: u32)
    ensures
        dump_rows(len) * 16 >= len,
        len > 0 ==> (dump_rows(len) - 1) * 16 < len,
        len == 0 ==> dump_rows(len) == 0,
{
}

/// Every value switches something on but the empty one and a single nought.
pub proof fn law_a_nought_switches_off(value: Seq<char>)
    ensures
        !switches_on(value) <==> value.len() == 0 || value == seq!['0'],
{
    reveal_strlit("0");
    assert("0"@ =~= seq!['0']);
}

} // verus!
