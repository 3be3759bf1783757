//! Whether this processor can run the emulator.
//!
//! The processor's answers are taken as they are read: register `ecx` of leaf 1,
//! the extended control register 0, register `ebx` of leaf 7, and register `ecx` of
//! the extended leaf 1.

use vstd::prelude::*;

use crate::switches::machine_profile_requested;
#[allow(unused_imports)]
use crate::switches::switches_on;
use crate::text::chars_of;

verus! {

/// What a processor without AVX2 is answered.
pub const AVX2_REQUIRED_MESSAGE: &'static str =
    "This computer's processor does not support AVX2. IzarraVM needs AVX2 to run. The program will close.";

/// The title of the window that shows the answer.
pub const AVX2_REQUIRED_TITLE: &'static str = "IzarraVM";

/// Leaf 1: the operating system saves extended registers.
pub const OSXSAVE: u32 = 0x0800_0000;

/// Leaf 1: the processor has AVX.
pub const AVX: u32 = 0x1000_0000;

/// Leaf 1: the processor has FMA.
pub const FMA: u32 = 0x1000;

/// Leaf 1: the processor has MOVBE.
pub const MOVBE: u32 = 0x40_0000;

/// Leaf 1: the processor has F16C.
pub const F16C: u32 = 0x2000_0000;

/// Leaf 7: the processor has AVX2.
pub const AVX2: u32 = 0x20;

/// Leaf 7: the processor has BMI1.
pub const BMI1: u32 = 0x8;

/// Leaf 7: the processor has BMI2.
pub const BMI2: u32 = 0x100;

/// Extended leaf 1: the processor has LZCNT.
pub const LZCNT: u32 = 0x20;

/// Control register: the operating system saves the state of SSE and of AVX.
pub const SSE_AND_AVX_STATE: u64 = 0b110;

/// Whether AVX2 can be used: the processor has it and AVX, and the operating system
/// saves the registers that both work on.
pub open spec fn avx2_usable(leaf1_ecx: u32, xcr0: u64, leaf7_ebx: u32) -> bool {
    &&& leaf1_ecx & OSXSAVE != 0
    &&& leaf1_ecx & AVX != 0
    &&& xcr0 & SSE_AND_AVX_STATE == SSE_AND_AVX_STATE
    &&& leaf7_ebx & AVX2 != 0
}

/// Whether AVX2 can be used.
pub fn avx2_from_cpuid(leaf1_ecx: u32, xcr0: u64, leaf7_ebx: u32) -> (usable: bool)
    ensures
        usable == avx2_usable(leaf1_ecx, xcr0, leaf7_ebx),
{
    leaf1_ecx & OSXSAVE != 0 && leaf1_ecx & AVX != 0 && xcr0 & SSE_AND_AVX_STATE
        == SSE_AND_AVX_STATE && leaf7_ebx & AVX2 != 0
}

/// Whether everything of the `x86-64-v3` level can be used.
pub open spec fn v3_usable(leaf1_ecx: u32, xcr0: u64, leaf7_ebx: u32, ext_ecx: u32) -> bool {
    &&& avx2_usable(leaf1_ecx, xcr0, leaf7_ebx)
    &&& leaf1_ecx & FMA != 0
    &&& leaf1_ecx & MOVBE != 0
    &&& leaf1_ecx & F16C != 0
    &&& leaf7_ebx & BMI1 != 0
    &&& leaf7_ebx & BMI2 != 0
    &&& ext_ecx & LZCNT != 0
}

/// Whether everything of the `x86-64-v3` level can be used.
pub fn x86_64_v3_from_cpuid(leaf1_ecx: u32, xcr0: u64, leaf7_ebx: u32, ext_ecx: u32) -> (usable:
    bool)
    ensures
        usable == v3_usable(leaf1_ecx, xcr0, leaf7_ebx, ext_ecx),
{
    avx2_from_cpuid(leaf1_ecx, xcr0, leaf7_ebx) && leaf1_ecx & FMA != 0 && leaf1_ecx & MOVBE != 0
        && leaf1_ecx & F16C != 0 && leaf7_ebx & BMI1 != 0 && leaf7_ebx & BMI2 != 0 && ext_ecx
        & LZCNT != 0
}

/// Whether the emulator may go on on this processor, and what it says where it may
/// not.
pub fn require_avx2(leaf1_ecx: u32, xcr0: u64, leaf7_ebx: u32) -> (result: Result<
    (),
    &'static str,
>)
    ensures
        result == if avx2_usable(leaf1_ecx, xcr0, leaf7_ebx) {
            Ok::<(), &'static str>(())
        } else {
            Err(AVX2_REQUIRED_MESSAGE)
        },
{
    if avx2_from_cpuid(leaf1_ecx, xcr0, leaf7_ebx) {
        Ok(())
    } else {
        Err(AVX2_REQUIRED_MESSAGE)
    }
}

/// Whether a text is ASCII.
pub open spec fn ascii(text: Seq<char>) -> bool {
    forall|i: int| 0 <= i < text.len() ==> #[trigger] text[i] < '\u{80}'
}

/// An ASCII text in UTF-16, with a zero at its end.
pub open spec fn wide(text: Seq<char>) -> Seq<u16> {
    text.map_values(|c: char| (c as u32) as u16).push(0)
}

/// Whether the answer is shown in a window: where one can be reached, unless the value
/// of `IZARRAVM_NO_DIALOG` switches it off.
pub fn dialog_is_reachable_and_wanted(reachable: bool, no_dialog: Option<&str>) -> (shown: bool)
    ensures
        shown == (reachable && !(no_dialog matches Some(value) && switches_on(value@))),
{
    reachable && !machine_profile_requested(no_dialog)
}

/// An ASCII text in UTF-16, with a zero at its end.
pub fn ascii_to_utf16_nul(text: &str) -> (units: Vec<u16>)
    requires
        ascii(text@),
    ensures
        units@ == wide(text@),
{
    let chars: Vec<char> = chars_of(text);
    let mut units: Vec<u16> = Vec::new();
    let mut i: usize = 0;
    while i < chars.len()
        invariant
            i <= chars@.len(),
            ascii(chars@),
            units@.len() == i,
            forall|k: int| 0 <= k < i ==> #[trigger] units@[k] == (chars@[k] as u32) as u16,
        decreases chars@.len() - i,
    {
        let c: char = chars[i];
        units.push((c as u32) as u16);
        i = i + 1;
    }
    units.push(0);
    assert(units@ =~= wide(text@));
    units
}

/// The answer to a processor without AVX2, in UTF-16.
pub fn avx2_required_message_w() -> (units: Vec<u16>)
    ensures
        units@ == wide(AVX2_REQUIRED_MESSAGE@),
{
    proof {
        reveal_strlit(
            "This computer's processor does not support AVX2. IzarraVM needs AVX2 to run. The program will close.",
        );
    }
    ascii_to_utf16_nul(AVX2_REQUIRED_MESSAGE)
}

/// The title of the window that shows the answer, in UTF-16.
pub fn avx2_required_title_w() -> (units: Vec<u16>)
    ensures
        units@ == wide(AVX2_REQUIRED_TITLE@),
{
    proof {
        reveal_strlit("IzarraVM");
    }
    ascii_to_utf16_nul(AVX2_REQUIRED_TITLE)
}

/// A wide text ends with its only zero, and before it holds the text character by
/// character, so that it can be read back.
pub proof fn law_a_wide_text_reads_back(text: Seq<char>)
    requires
        ascii(text),
        forall|i: int| 0 <= i < text.len() ==> #[trigger] text[i] != '\0',
    ensures
        wide(text).len() == text.len() + 1,
        wide(text).last() == 0,
        forall|i: int|
            0 <= i < text.len() ==> #[trigger] wide(text)[i] != 0 && wide(text)[i] as u32
                == text[i] as u32,
{
    assert forall|i: int| 0 <= i < text.len() implies #[trigger] wide(text)[i] != 0 && wide(
        text,
    )[i] as u32 == text[i] as u32 by {
        assert(text[i] < '\u{80}');
        assert(text[i] != '\0');
        lemma_ascii_unit(text[i]);
    }
}

/// An ASCII character keeps its number as a unit of UTF-16.
proof fn lemma_ascii_unit(c: char)
    requires
        c < '\u{80}',
        c != '\0',
    ensures
        (c as u32) as u16 != 0,
        ((c as u32) as u16) as u32 == c as u32,
{
}

/// A processor of the `x86-64-v3` level is one that the emulator runs on.
pub proof fn law_the_level_has_avx2(leaf1_ecx: u32, xcr0: u64, leaf7_ebx: u32, ext_ecx: u32)
    requires
        v3_usable(leaf1_ecx, xcr0, leaf7_ebx, ext_ecx),
    ensures
        avx2_usable(leaf1_ecx, xcr0, leaf7_ebx),
{
}

/// Whether a register has a bit set, the lowest being bit 0.
pub open spec fn bit_of(register: u32, bit: u32) -> bool {
    (register >> bit) & 1 == 1
}

/// The answers that are looked at, bit by bit: those that say of AVX2 that the operating
/// system saves its registers and that the processor has it, and those of the level beside
/// them.
pub proof fn law_every_answer_is_looked_at(leaf1_ecx: u32, xcr0: u64, leaf7_ebx: u32, ext_ecx: u32)
    ensures
        avx2_usable(leaf1_ecx, xcr0, leaf7_ebx) <==> bit_of(leaf1_ecx, 27) && bit_of(leaf1_ecx, 28)
            && (xcr0 >> 1) & 1 == 1 && (xcr0 >> 2) & 1 == 1 && bit_of(leaf7_ebx, 5),
        v3_usable(leaf1_ecx, xcr0, leaf7_ebx, ext_ecx) <==> avx2_usable(leaf1_ecx, xcr0, leaf7_ebx)
            && bit_of(leaf1_ecx, 12) && bit_of(leaf1_ecx, 22) && bit_of(leaf1_ecx, 29) && bit_of(
            leaf7_ebx,
            3,
        ) && bit_of(leaf7_ebx, 8) && bit_of(ext_ecx, 5),
{
    assert((leaf1_ecx & 0x8000000 != 0) == ((leaf1_ecx >> 27) & 1 == 1)) by (bit_vector);
    assert((leaf1_ecx & 0x10000000 != 0) == ((leaf1_ecx >> 28) & 1 == 1)) by (bit_vector);
    assert((leaf7_ebx & 0x20 != 0) == ((leaf7_ebx >> 5) & 1 == 1)) by (bit_vector);
    assert((leaf1_ecx & 0x1000 != 0) == ((leaf1_ecx >> 12) & 1 == 1)) by (bit_vector);
    assert((leaf1_ecx & 0x400000 != 0) == ((leaf1_ecx >> 22) & 1 == 1)) by (bit_vector);
    assert((leaf1_ecx & 0x20000000 != 0) == ((leaf1_ecx >> 29) & 1 == 1)) by (bit_vector);
    assert((leaf7_ebx & 0x8 != 0) == ((leaf7_ebx >> 3) & 1 == 1)) by (bit_vector);
    assert((leaf7_ebx & 0x100 != 0) == ((leaf7_ebx >> 8) & 1 == 1)) by (bit_vector);
    assert((ext_ecx & 0x20 != 0) == ((ext_ecx >> 5) & 1 == 1)) by (bit_vector);
    assert((xcr0 & 6 == 6) == ((xcr0 >> 1) & 1 == 1 && (xcr0 >> 2) & 1 == 1)) by (bit_vector);
}

} // verus!
