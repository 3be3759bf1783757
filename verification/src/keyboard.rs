//! Keys: from characters to Set 1 scancodes, and host layouts to guest layouts.

use vstd::prelude::*;

verus! {

/// The make code of the left Shift key.
pub const SHIFT_MAKE: u8 = 0x2a;

/// The make code of a letter's key on the US layout, `a` being letter 0.
pub open spec fn letter_make(letter: int) -> u8 {
    seq![
        0x1eu8, 0x30, 0x2e, 0x20, 0x12, 0x21, 0x22, 0x23, 0x17, 0x24, 0x25, 0x26, 0x32, 0x31, 0x18,
        0x19, 0x10, 0x13, 0x1f, 0x14, 0x16, 0x2f, 0x11, 0x2d, 0x15, 0x2c,
    ][letter]
}

/// The key of a character on the US layout: its make code, and whether Shift is
/// held over it. Characters without a key of their own have none.
pub open spec fn key_of(ch: char) -> Option<(u8, bool)> {
    if 'a' <= ch <= 'z' {
        Some((letter_make(ch as u32 - 'a' as u32), false))
    } else if 'A' <= ch <= 'Z' {
        Some((letter_make(ch as u32 - 'A' as u32), true))
    } else {
        match ch {
            ' ' => Some((0x39u8, false)),
            '\r' | '\n' => Some((0x1c, false)),
            '\t' => Some((0x0f, false)),
            '\x08' => Some((0x0e, false)),
            '\x1b' => Some((0x01, false)),
            '1' => Some((0x02, false)),
            '2' => Some((0x03, false)),
            '3' => Some((0x04, false)),
            '4' => Some((0x05, false)),
            '5' => Some((0x06, false)),
            '6' => Some((0x07, false)),
            '7' => Some((0x08, false)),
            '8' => Some((0x09, false)),
            '9' => Some((0x0a, false)),
            '0' => Some((0x0b, false)),
            '!' => Some((0x02, true)),
            '@' => Some((0x03, true)),
            '#' => Some((0x04, true)),
            '$' => Some((0x05, true)),
            '%' => Some((0x06, true)),
            '^' => Some((0x07, true)),
            '&' => Some((0x08, true)),
            '*' => Some((0x09, true)),
            '(' => Some((0x0a, true)),
            ')' => Some((0x0b, true)),
            '-' => Some((0x0c, false)),
            '_' => Some((0x0c, true)),
            '=' => Some((0x0d, false)),
            '+' => Some((0x0d, true)),
            '[' => Some((0x1a, false)),
            '{' => Some((0x1a, true)),
            ']' => Some((0x1b, false)),
            '}' => Some((0x1b, true)),
            ';' => Some((0x27, false)),
            ':' => Some((0x27, true)),
            '\'' => Some((0x28, false)),
            '"' => Some((0x28, true)),
            '`' => Some((0x29, false)),
            '~' => Some((0x29, true)),
            '\\' => Some((0x2b, false)),
            '|' => Some((0x2b, true)),
            ',' => Some((0x33, false)),
            '<' => Some((0x33, true)),
            '.' => Some((0x34, false)),
            '>' => Some((0x34, true)),
            '/' => Some((0x35, false)),
            '?' => Some((0x35, true)),
            _ => None,
        }
    }
}

/// The break code that goes with a make code.
pub open spec fn break_of(make: u8) -> u8 {
    (make + 0x80) as u8
}

/// The Set 1 codes that type a character: the key down and up, between Shift down
/// and up where the character needs Shift. Nothing for a character without a key.
pub open spec fn set1_codes(ch: char) -> Seq<u8> {
    match key_of(ch) {
        None => Seq::empty(),
        Some((make, false)) => seq![make, break_of(make)],
        Some((make, true)) => seq![SHIFT_MAKE, make, break_of(make), break_of(SHIFT_MAKE)],
    }
}

/// Every key has a make code below the break codes, so that no make code reads as
/// a break and a break undoes its own make only.
pub proof fn law_make_codes_leave_room_for_breaks(ch: char)
    ensures
        key_of(ch) matches Some(key) ==> 0 < key.0 < 0x80 && break_of(key.0) == key.0 + 0x80,
{
    if 'a' <= ch <= 'z' {
        lemma_letter_make(ch as u32 - 'a' as u32);
    } else if 'A' <= ch <= 'Z' {
        lemma_letter_make(ch as u32 - 'A' as u32);
    }
}

/// A letter's make code is below the break codes.
proof fn lemma_letter_make(letter: int)
    requires
        0 <= letter < 26,
    ensures
        0 < letter_make(letter) < 0x80,
{
}

/// A character without a key types nothing, and any other at least a press and its
/// release.
pub proof fn law_no_key_no_codes(ch: char)
    ensures
        set1_codes(ch).len() == 0 <==> key_of(ch) is None,
{
}

/// The make code of a letter's key.
fn letter_code(letter: u32) -> (make: u8)
    requires
        letter < 26,
    ensures
        make == letter_make(letter as int),
{
    let table: [u8; 26] = [
        0x1e, 0x30, 0x2e, 0x20, 0x12, 0x21, 0x22, 0x23, 0x17, 0x24, 0x25, 0x26, 0x32, 0x31, 0x18,
        0x19, 0x10, 0x13, 0x1f, 0x14, 0x16, 0x2f, 0x11, 0x2d, 0x15, 0x2c,
    ];
    table[letter as usize]
}

/// The key of a character on the US layout: its make code, and whether Shift is
/// held over it.
pub fn ascii_key(ch: char) -> (key: Option<(u8, bool)>)
    ensures
        key == key_of(ch),
{
    if 'a' <= ch && ch <= 'z' {
        return Some((letter_code(ch as u32 - 'a' as u32), false));
    }
    if 'A' <= ch && ch <= 'Z' {
        return Some((letter_code(ch as u32 - 'A' as u32), true));
    }
    match ch {
        ' ' => Some((0x39, false)),
        '\r' | '\n' => Some((0x1c, false)),
        '\t' => Some((0x0f, false)),
        '\x08' => Some((0x0e, false)),
        '\x1b' => Some((0x01, false)),
        '1' => Some((0x02, false)),
        '2' => Some((0x03, false)),
        '3' => Some((0x04, false)),
        '4' => Some((0x05, false)),
        '5' => Some((0x06, false)),
        '6' => Some((0x07, false)),
        '7' => Some((0x08, false)),
        '8' => Some((0x09, false)),
        '9' => Some((0x0a, false)),
        '0' => Some((0x0b, false)),
        '!' => Some((0x02, true)),
        '@' => Some((0x03, true)),
        '#' => Some((0x04, true)),
        '$' => Some((0x05, true)),
        '%' => Some((0x06, true)),
        '^' => Some((0x07, true)),
        '&' => Some((0x08, true)),
        '*' => Some((0x09, true)),
        '(' => Some((0x0a, true)),
        ')' => Some((0x0b, true)),
        '-' => Some((0x0c, false)),
        '_' => Some((0x0c, true)),
        '=' => Some((0x0d, false)),
        '+' => Some((0x0d, true)),
        '[' => Some((0x1a, false)),
        '{' => Some((0x1a, true)),
        ']' => Some((0x1b, false)),
        '}' => Some((0x1b, true)),
        ';' => Some((0x27, false)),
        ':' => Some((0x27, true)),
        '\'' => Some((0x28, false)),
        '"' => Some((0x28, true)),
        '`' => Some((0x29, false)),
        '~' => Some((0x29, true)),
        '\\' => Some((0x2b, false)),
        '|' => Some((0x2b, true)),
        ',' => Some((0x33, false)),
        '<' => Some((0x33, true)),
        '.' => Some((0x34, false)),
        '>' => Some((0x34, true)),
        '/' => Some((0x35, false)),
        '?' => Some((0x35, true)),
        _ => None,
    }
}

/// The Set 1 scancodes that type a character, or none for a character without a key.
pub fn ascii_to_set1(ch: char) -> (codes: Vec<u8>)
    ensures
        codes@ == set1_codes(ch),
{
    let mut codes: Vec<u8> = Vec::new();
    if let Some((make, shift)) = ascii_key(ch) {
        proof {
            law_make_codes_leave_room_for_breaks(ch);
        }
        if shift {
            codes.push(SHIFT_MAKE);
        }
        codes.push(make);
        codes.push(make + 0x80);
        if shift {
            codes.push(SHIFT_MAKE + 0x80);
        }
    }
    assert(codes@ =~= set1_codes(ch));
    codes
}

// ---------------------------------------------------------------------------
// Layouts
// ---------------------------------------------------------------------------

/// The guest layout for a host language: regions with a keyboard of their own by
/// the whole identifier, any other by its primary language, and the US layout
/// where neither is known.
pub open spec fn layout_of_langid(langid: u16) -> u8 {
    if langid == 0x0809 {
        1
    } else if langid == 0x080c || langid == 0x0813 {
        6
    } else if langid == 0x0c0c {
        7
    } else if langid == 0x100c {
        12
    } else if langid == 0x0807 {
        13
    } else if langid == 0x040a || langid == 0x0c0a {
        2
    } else {
        layout_of_language(langid as int % 0x400)
    }
}

/// The guest layout for a primary language.
pub open spec fn layout_of_language(language: int) -> u8 {
    if language == 0x0a {
        16
    } else if language == 0x0c {
        3
    } else if language == 0x07 {
        4
    } else if language == 0x10 {
        5
    } else if language == 0x06 {
        8
    } else if language == 0x13 {
        9
    } else if language == 0x14 {
        10
    } else if language == 0x16 {
        11
    } else if language == 0x0b {
        14
    } else if language == 0x1d {
        15
    } else {
        0
    }
}

/// The guest layout for a host language identifier.
pub fn layout_index_from_langid(langid: u16) -> (layout: u8)
    ensures
        layout == layout_of_langid(langid),
{
    match langid {
        0x0809 => return 1,
        0x080c => return 6,
        0x0813 => return 6,
        0x0c0c => return 7,
        0x100c => return 12,
        0x0807 => return 13,
        0x040a | 0x0c0a => return 2,
        _ => {},
    }
    match langid % 0x400 {
        0x09 => 0,
        0x0a => 16,
        0x0c => 3,
        0x07 => 4,
        0x10 => 5,
        0x06 => 8,
        0x13 => 9,
        0x14 => 10,
        0x16 => 11,
        0x0b => 14,
        0x1d => 15,
        _ => 0,
    }
}

/// The guest layout for a host keyboard handle, whose low half is the language.
pub fn layout_index_from_keyboard_handle(handle: usize) -> (layout: u8)
    ensures
        layout == layout_of_langid((handle % 0x1_0000) as u16),
{
    layout_index_from_langid((handle % 0x1_0000) as u16)
}

/// The code page of each guest layout, by the order 437, 850, 860, 863, 865.
pub open spec fn codepages() -> Seq<u8> {
    seq![0u8, 0, 1, 1, 1, 1, 1, 3, 4, 1, 4, 2, 1, 1, 1, 1, 1]
}

/// The default code page of a guest layout; that of the US layout where the layout
/// is not known.
pub fn codepage_index_for_layout(layout: u8) -> (codepage: u8)
    ensures
        codepage == if layout < codepages().len() {
            codepages()[layout as int]
        } else {
            0
        },
{
    let table: [u8; 17] = [0, 0, 1, 1, 1, 1, 1, 3, 4, 1, 4, 2, 1, 1, 1, 1, 1];
    if layout < 17 {
        table[layout as usize]
    } else {
        0
    }
}

/// Every host language has a guest layout that has a code page.
pub proof fn law_every_language_has_a_layout_and_a_codepage(langid: u16)
    ensures
        layout_of_langid(langid) < codepages().len(),
        codepages()[layout_of_langid(langid) as int] < 5,
{
}

/// The rows of the US keyboard from the top, without and with Shift, and the make code of
/// the first key of each.
pub open spec fn rows() -> Seq<(int, Seq<char>, Seq<char>)> {
    seq![
        (
            0x02int,
            seq!['1', '2', '3', '4', '5', '6', '7', '8', '9', '0', '-', '='],
            seq!['!', '@', '#', '$', '%', '^', '&', '*', '(', ')', '_', '+'],
        ),
        (
            0x10int,
            seq!['q', 'w', 'e', 'r', 't', 'y', 'u', 'i', 'o', 'p', '[', ']'],
            seq!['Q', 'W', 'E', 'R', 'T', 'Y', 'U', 'I', 'O', 'P', '{', '}'],
        ),
        (
            0x1eint,
            seq!['a', 's', 'd', 'f', 'g', 'h', 'j', 'k', 'l', ';', '\'', '`'],
            seq!['A', 'S', 'D', 'F', 'G', 'H', 'J', 'K', 'L', ':', '"', '~'],
        ),
        (
            0x2bint,
            seq!['\\', 'z', 'x', 'c', 'v', 'b', 'n', 'm', ',', '.', '/'],
            seq!['|', 'Z', 'X', 'C', 'V', 'B', 'N', 'M', '<', '>', '?'],
        ),
    ]
}

/// The make codes run along the rows of the keyboard, one key after the other, and Shift
/// changes the character and not the key.
pub proof fn law_codes_run_along_the_rows(row: int, i: int)
    requires
        0 <= row < rows().len(),
        0 <= i < rows()[row].1.len(),
    ensures
        rows()[row].1.len() == rows()[row].2.len(),
        key_of(rows()[row].1[i]) == Some(((rows()[row].0 + i) as u8, false)),
        key_of(rows()[row].2[i]) == Some(((rows()[row].0 + i) as u8, true)),
{
    assert(rows().len() == 4);
    if row == 0 {
        assert(rows()[0].1.len() == 12);
    } else if row == 1 {
        assert(rows()[1].1.len() == 12);
        lemma_letters_of_the_upper_row();
    } else if row == 2 {
        assert(rows()[2].1.len() == 12);
        lemma_letters_of_the_middle_row();
    } else {
        assert(row == 3);
        assert(rows()[3].1.len() == 11);
        lemma_letters_of_the_lower_row();
    }
}

/// The letters of the upper row.
proof fn lemma_letters_of_the_upper_row()
    ensures
        letter_make(16) == 0x10,
        letter_make(22) == 0x11,
        letter_make(4) == 0x12,
        letter_make(17) == 0x13,
        letter_make(19) == 0x14,
        letter_make(24) == 0x15,
        letter_make(20) == 0x16,
        letter_make(8) == 0x17,
        letter_make(14) == 0x18,
        letter_make(15) == 0x19,
{
}

/// The letters of the middle row.
proof fn lemma_letters_of_the_middle_row()
    ensures
        letter_make(0) == 0x1e,
        letter_make(18) == 0x1f,
        letter_make(3) == 0x20,
        letter_make(5) == 0x21,
        letter_make(6) == 0x22,
        letter_make(7) == 0x23,
        letter_make(9) == 0x24,
        letter_make(10) == 0x25,
        letter_make(11) == 0x26,
{
}

/// The letters of the lower row.
proof fn lemma_letters_of_the_lower_row()
    ensures
        letter_make(25) == 0x2c,
        letter_make(23) == 0x2d,
        letter_make(2) == 0x2e,
        letter_make(21) == 0x2f,
        letter_make(1) == 0x30,
        letter_make(13) == 0x31,
        letter_make(12) == 0x32,
{
}

/// The characters that have a key: those of ASCII that can be seen, the space, and those
/// that Enter, Tab, Backspace and Escape send.
pub proof fn law_the_characters_with_a_key(ch: char)
    ensures
        key_of(ch) is Some <==> ' ' <= ch <= '~' || ch == '\r' || ch == '\n' || ch == '\t' || ch
            == '\x08' || ch == '\x1b',
        key_of(' ') == Some((0x39u8, false)),
        key_of('\r') == Some((0x1cu8, false)),
        key_of('\n') == key_of('\r'),
        key_of('\t') == Some((0x0fu8, false)),
        key_of('\x08') == Some((0x0eu8, false)),
        key_of('\x1b') == Some((0x01u8, false)),
{
}

/// What was pressed is released, the last key first, so that Shift is held over the key;
/// Shift goes down for exactly the characters that need it.
pub proof fn law_keys_are_released_in_turn(ch: char)
    requires
        key_of(ch) is Some,
    ensures
        set1_codes(ch).len() == if (key_of(ch)->0).1 {
            4nat
        } else {
            2
        },
        forall|k: int|
            0 <= k < set1_codes(ch).len() / 2 ==> (#[trigger] set1_codes(ch)[k]) + 0x80
                == set1_codes(ch)[set1_codes(ch).len() - 1 - k],
        set1_codes(ch)[set1_codes(ch).len() / 2 - 1] == (key_of(ch)->0).0,
        (key_of(ch)->0).1 ==> set1_codes(ch)[0] == 0x2a,
{
    law_make_codes_leave_room_for_breaks(ch);
}

/// A language has one layout in every region, but for the regions with a keyboard of their
/// own: the United Kingdom, Belgium in French and in Dutch, French Canada, Switzerland in
/// French and in German, and Spain.
pub proof fn law_regions_with_their_own_keyboard(region: u16)
    requires
        region < 64,
    ensures
        layout_of_langid((region * 0x400 + 0x09) as u16) == if region == 2 {
            1u8
        } else {
            0u8
        },
        layout_of_langid((region * 0x400 + 0x0a) as u16) == if region == 1 || region == 3 {
            2u8
        } else {
            16u8
        },
        layout_of_langid((region * 0x400 + 0x0c) as u16) == if region == 2 {
            6u8
        } else if region == 3 {
            7u8
        } else if region == 4 {
            12u8
        } else {
            3u8
        },
        layout_of_langid((region * 0x400 + 0x07) as u16) == if region == 2 {
            13u8
        } else {
            4u8
        },
        layout_of_langid((region * 0x400 + 0x13) as u16) == if region == 2 {
            6u8
        } else {
            9u8
        },
        layout_of_langid((region * 0x400 + 0x10) as u16) == 5,
        layout_of_langid((region * 0x400 + 0x06) as u16) == 8,
        layout_of_langid((region * 0x400 + 0x14) as u16) == 10,
        layout_of_langid((region * 0x400 + 0x16) as u16) == 11,
        layout_of_langid((region * 0x400 + 0x0b) as u16) == 14,
        layout_of_langid((region * 0x400 + 0x1d) as u16) == 15,
{
}

/// The code page by language: 437 in English, 860 in Portuguese, 863 in French Canada, 865
/// in Danish and Norwegian, and 850 for every other layout.
pub proof fn law_code_pages_by_language(region: u16)
    requires
        region < 64,
    ensures
        codepages().len() == 17,
        codepages()[layout_of_langid((region * 0x400 + 0x09) as u16) as int] == 0,
        codepages()[layout_of_langid((region * 0x400 + 0x16) as u16) as int] == 2,
        codepages()[layout_of_langid((region * 0x400 + 0x06) as u16) as int] == 4,
        codepages()[layout_of_langid((region * 0x400 + 0x14) as u16) as int] == 4,
        codepages()[layout_of_langid(0x0c0c) as int] == 3,
        forall|layout: int|
            0 <= layout < 17 && layout != layout_of_langid(0x0409) && layout != layout_of_langid(
                0x0809,
            ) && layout != layout_of_langid(0x0416) && layout != layout_of_langid(0x0c0c) && layout
                != layout_of_langid(0x0406) && layout != layout_of_langid(0x0414)
                ==> #[trigger] codepages()[layout] == 1,
{
    law_regions_with_their_own_keyboard(region);
}

} // verus!
