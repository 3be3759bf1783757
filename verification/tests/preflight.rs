//! The processor check that comes before anything else.

use izarravm::preflight::{
    ascii_to_utf16_nul, avx2_from_cpuid, avx2_required_message_w, avx2_required_title_w,
    dialog_is_reachable_and_wanted, require_avx2, x86_64_v3_from_cpuid, AVX2_REQUIRED_MESSAGE, AVX2_REQUIRED_TITLE,
};

const OSXSAVE: u32 = 1 << 27;
const AVX: u32 = 1 << 28;
const LEAF1_BASELINE: u32 = OSXSAVE | AVX;
const XCR0_SSE_AND_AVX: u64 = 0b110;
const LEAF7_AVX2: u32 = 1 << 5;

const FMA: u32 = 1 << 12;
const MOVBE: u32 = 1 << 22;
const F16C: u32 = 1 << 29;
const BMI1: u32 = 1 << 3;
const BMI2: u32 = 1 << 8;
const LEAF7_ALL_SET: u32 = LEAF7_AVX2 | BMI1 | BMI2;
const LEAF1_ALL_SET: u32 = LEAF1_BASELINE | FMA | MOVBE | F16C;
const LZCNT: u32 = 1 << 5;

#[test]
fn avx2_required_message_is_exact() {
    assert_eq!(
        AVX2_REQUIRED_MESSAGE,
        "This computer's processor does not support AVX2. IzarraVM needs AVX2 to run. \
         The program will close."
    );
}

/// The registers of a host with the whole level: the check lets it through.
#[test]
fn require_avx2_returns_normally_on_this_host() {
    assert_eq!(
        require_avx2(LEAF1_ALL_SET, XCR0_SSE_AND_AVX, LEAF7_ALL_SET),
        Ok(())
    );
}

#[test]
fn require_avx2_turns_a_lesser_host_away_with_the_message() {
    assert_eq!(require_avx2(LEAF1_ALL_SET, XCR0_SSE_AND_AVX, BMI1), Err(AVX2_REQUIRED_MESSAGE));
    assert_eq!(require_avx2(0, 0, 0), Err(AVX2_REQUIRED_MESSAGE));
}

#[test]
fn osxsave_clear_fails() {
    assert!(!avx2_from_cpuid(AVX, XCR0_SSE_AND_AVX, LEAF7_AVX2));
}

#[test]
fn avx_clear_fails() {
    assert!(!avx2_from_cpuid(OSXSAVE, XCR0_SSE_AND_AVX, LEAF7_AVX2));
}

#[test]
fn xcr0_sse_only_fails() {
    assert!(!avx2_from_cpuid(LEAF1_BASELINE, 0b010, LEAF7_AVX2));
}

#[test]
fn xcr0_avx_only_fails() {
    assert!(!avx2_from_cpuid(LEAF1_BASELINE, 0b100, LEAF7_AVX2));
}

#[test]
fn leaf7_avx2_bit_clear_fails() {
    assert!(!avx2_from_cpuid(LEAF1_BASELINE, XCR0_SSE_AND_AVX, 0));
}

#[test]
fn every_gate_open_passes() {
    assert!(avx2_from_cpuid(LEAF1_BASELINE, XCR0_SSE_AND_AVX, LEAF7_AVX2));
}

#[test]
fn avx2_baseline_failure_still_fails_v3() {
    assert!(!x86_64_v3_from_cpuid(0, 0, 0, LZCNT));
}

#[test]
fn fma_clear_fails() {
    let leaf1 = LEAF1_BASELINE | MOVBE | F16C;
    assert!(!x86_64_v3_from_cpuid(leaf1, XCR0_SSE_AND_AVX, LEAF7_ALL_SET, LZCNT));
}

#[test]
fn movbe_clear_fails() {
    let leaf1 = LEAF1_BASELINE | FMA | F16C;
    assert!(!x86_64_v3_from_cpuid(leaf1, XCR0_SSE_AND_AVX, LEAF7_ALL_SET, LZCNT));
}

#[test]
fn f16c_clear_fails() {
    let leaf1 = LEAF1_BASELINE | FMA | MOVBE;
    assert!(!x86_64_v3_from_cpuid(leaf1, XCR0_SSE_AND_AVX, LEAF7_ALL_SET, LZCNT));
}

#[test]
fn bmi1_clear_fails() {
    let leaf7 = LEAF7_AVX2 | BMI2;
    assert!(!x86_64_v3_from_cpuid(LEAF1_ALL_SET, XCR0_SSE_AND_AVX, leaf7, LZCNT));
}

#[test]
fn bmi2_clear_fails() {
    let leaf7 = LEAF7_AVX2 | BMI1;
    assert!(!x86_64_v3_from_cpuid(LEAF1_ALL_SET, XCR0_SSE_AND_AVX, leaf7, LZCNT));
}

#[test]
fn lzcnt_clear_fails() {
    assert!(!x86_64_v3_from_cpuid(LEAF1_ALL_SET, XCR0_SSE_AND_AVX, LEAF7_ALL_SET, 0));
}

#[test]
fn every_v3_bit_set_passes() {
    assert!(x86_64_v3_from_cpuid(LEAF1_ALL_SET, XCR0_SSE_AND_AVX, LEAF7_ALL_SET, LZCNT));
}

/// Whatever has the level has AVX2, and what has AVX2 alone lacks the level.
#[test]
fn the_level_is_more_than_avx2() {
    assert!(avx2_from_cpuid(LEAF1_ALL_SET, XCR0_SSE_AND_AVX, LEAF7_ALL_SET));
    assert!(!x86_64_v3_from_cpuid(LEAF1_BASELINE, XCR0_SSE_AND_AVX, LEAF7_AVX2, 0));
}

fn narrow(units: &[u16]) -> String {
    char::decode_utf16(units[..units.len() - 1].iter().copied())
        .collect::<Result<String, _>>()
        .expect("valid UTF-16")
}

#[test]
fn wide_strings_round_trip_the_ascii_source() {
    let message = avx2_required_message_w();
    assert_eq!(narrow(&message), AVX2_REQUIRED_MESSAGE);
    assert_eq!(*message.last().unwrap(), 0, "must be NUL-terminated");

    let title = avx2_required_title_w();
    assert_eq!(narrow(&title), AVX2_REQUIRED_TITLE);
    assert_eq!(*title.last().unwrap(), 0, "must be NUL-terminated");
}

#[test]
fn a_wide_string_has_a_unit_for_every_letter() {
    assert_eq!(ascii_to_utf16_nul(""), vec![0]);
    assert_eq!(ascii_to_utf16_nul("Az~"), vec![0x41, 0x7a, 0x7e, 0]);
}

#[test]
fn no_dialog_env_var_suppresses_the_dialog() {
    for reachable in [true, false] {
        assert!(
            !dialog_is_reachable_and_wanted(reachable, Some("1")),
            "IZARRAVM_NO_DIALOG=1 must suppress the dialog"
        );
    }
    assert!(dialog_is_reachable_and_wanted(true, None));
    assert!(dialog_is_reachable_and_wanted(true, Some("")));
    assert!(dialog_is_reachable_and_wanted(true, Some("0")));
    assert!(!dialog_is_reachable_and_wanted(false, None));
}
