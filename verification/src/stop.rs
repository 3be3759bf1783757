//! Why a run ended.

use vstd::prelude::*;

#[allow(unused_imports)]
use crate::json::{json_of, JsonModel};
use crate::json::{no_fields, object, put_number, put_text};
#[allow(unused_imports)]
use crate::text::opt_text;
#[allow(unused_imports)]
use crate::json::{number_under, text_under, under};

verus! {

/// Why a run ended.
#[derive(Debug, PartialEq, Eq)]
pub enum StopReason {
    /// The processor halted for good.
    Halted,
    /// The budget ran out.
    CycleLimit { requested: u64 },
    /// The processor met something it cannot execute.
    CpuError(String),
    /// The guest program ended.
    DosExit { code: u8 },
    /// The guest asked the machine to end the test.
    TestExit { code: u8 },
}

/// What [`stop_reason_json`] gives: the outcome by name, with what it carries.
pub open spec fn stop_reason_model(stop: StopReason) -> JsonModel {
    JsonModel::Obj(
        match stop {
            StopReason::Halted => map!["kind"@ => JsonModel::Str("halted"@)],
            StopReason::CycleLimit { requested } => map![
                "kind"@ => JsonModel::Str("cycle_limit"@),
                "requested"@ => JsonModel::Num(requested as int),
            ],
            StopReason::CpuError(message) => map![
                "kind"@ => JsonModel::Str("cpu_error"@),
                "message"@ => JsonModel::Str(message@),
            ],
            StopReason::DosExit { code } => map![
                "kind"@ => JsonModel::Str("dos_exit"@),
                "code"@ => JsonModel::Num(code as int),
            ],
            StopReason::TestExit { code } => map![
                "kind"@ => JsonModel::Str("test_exit"@),
                "code"@ => JsonModel::Num(code as int),
            ],
        },
    )
}

/// Why a run ended, as an object.
pub fn stop_reason_json(stop: &StopReason) -> (value: serde_json::Value)
    ensures
        json_of(value) == stop_reason_model(*stop),
{
    let mut fields = no_fields();
    match stop {
        StopReason::Halted => {
            put_text(&mut fields, "kind", "halted");
        },
        StopReason::CycleLimit { requested } => {
            put_text(&mut fields, "kind", "cycle_limit");
            put_number(&mut fields, "requested", *requested);
        },
        StopReason::CpuError(message) => {
            put_text(&mut fields, "kind", "cpu_error");
            put_text(&mut fields, "message", message.as_str());
        },
        StopReason::DosExit { code } => {
            put_text(&mut fields, "kind", "dos_exit");
            put_number(&mut fields, "code", *code as u64);
        },
        StopReason::TestExit { code } => {
            put_text(&mut fields, "kind", "test_exit");
            put_number(&mut fields, "code", *code as u64);
        },
    }
    object(fields)
}

/// Why a run ended, as contracts speak of it.
pub enum StopView {
    Halted,
    CycleLimit { requested: u64 },
    CpuError(Seq<char>),
    DosExit { code: u8 },
    TestExit { code: u8 },
}

impl View for StopReason {
    type V = StopView;

    open spec fn view(&self) -> StopView {
        match self {
            StopReason::Halted => StopView::Halted,
            StopReason::CycleLimit { requested } => StopView::CycleLimit { requested: *requested },
            StopReason::CpuError(message) => StopView::CpuError(message@),
            StopReason::DosExit { code } => StopView::DosExit { code: *code },
            StopReason::TestExit { code } => StopView::TestExit { code: *code },
        }
    }
}

impl StopReason {
    /// The same reason again.
    pub fn copy(&self) -> (reason: StopReason)
        ensures
            reason@ == self@,
    {
        match self {
            StopReason::Halted => StopReason::Halted,
            StopReason::CycleLimit { requested } => StopReason::CycleLimit {
                requested: *requested,
            },
            StopReason::CpuError(message) => StopReason::CpuError(message.clone()),
            StopReason::DosExit { code } => StopReason::DosExit { code: *code },
            StopReason::TestExit { code } => StopReason::TestExit { code: *code },
        }
    }
}

/// The reason where it ends the whole run: a budget that ran out only ends a slice
/// of it.
pub open spec fn terminal(stop: StopView) -> Option<StopView> {
    match stop {
        StopView::CycleLimit { .. } => None,
        other => Some(other),
    }
}

/// What an optional reason is.
pub open spec fn opt_stop(stop: Option<StopReason>) -> Option<StopView> {
    match stop {
        Some(stop) => Some(stop@),
        None => None,
    }
}

/// The reason where it ends the whole run, as opposed to a slice of it.
pub fn non_cycle_stop(reason: &StopReason) -> (stop: Option<StopReason>)
    ensures
        opt_stop(stop) == terminal(reason@),
{
    match reason {
        StopReason::CycleLimit { .. } => None,
        other => Some(other.copy()),
    }
}

/// The exit code of a program that was run to its end, and failure where it did
/// not end.
pub open spec fn program_exit_code(stop: StopView) -> int {
    match stop {
        StopView::TestExit { code } => code as int,
        StopView::DosExit { code } => code as int,
        _ => 1,
    }
}

/// The exit code of a program that was run to its end, and failure where it did
/// not end.
pub fn exit_code(stop: &StopReason) -> (code: i32)
    ensures
        code == program_exit_code(stop@),
{
    match stop {
        StopReason::TestExit { code } => *code as i32,
        StopReason::DosExit { code } => *code as i32,
        _ => 1,
    }
}

/// Whether a run ended as a test that passed.
pub fn passed_test(stop: &StopReason) -> (passed: bool)
    ensures
        passed == (stop@ == StopView::TestExit { code: 0 }),
{
    match stop {
        StopReason::TestExit { code } => *code == 0,
        _ => false,
    }
}

/// The complaint about a run that was to end as a test that passed, with how it
/// ended in words.
pub open spec fn test_exit_complaint(
    expected: bool,
    stop: StopView,
    stop_text: Seq<char>,
) -> Option<Seq<char>> {
    if expected && stop != (StopView::TestExit { code: 0 }) {
        Some("expected TestExit code 0, got "@ + stop_text)
    } else {
        None
    }
}

/// The complaint about a run that was to end as a test that passed, or `None` where
/// it did or where no such end was asked for.
pub fn missed_test_exit(expected: bool, stop: &StopReason, stop_text: &str) -> (complaint: Option<
    String,
>)
    ensures
        opt_text(complaint) == test_exit_complaint(expected, stop@, stop_text@),
{
    if expected && !passed_test(stop) {
        let mut message: String = "expected TestExit code 0, got ".to_owned();
        message.append(stop_text);
        Some(message)
    } else {
        None
    }
}

/// Looked up by its keys, a reported stop says its kind, and what comes with it: the
/// budget, the message or the exit code. No kind has another's keys.
pub proof fn law_a_stop_by_key(stop: StopReason)
    ensures
        match stop@ {
            StopView::Halted => text_under(stop_reason_model(stop), "kind"@) == Some("halted"@)
                && number_under(stop_reason_model(stop), "code"@) is None,
            StopView::CycleLimit { requested } => text_under(stop_reason_model(stop), "kind"@)
                == Some("cycle_limit"@) && number_under(stop_reason_model(stop), "requested"@)
                == Some(requested as int),
            StopView::CpuError(message) => text_under(stop_reason_model(stop), "kind"@) == Some(
                "cpu_error"@,
            ) && text_under(stop_reason_model(stop), "message"@) == Some(message),
            StopView::DosExit { code } => text_under(stop_reason_model(stop), "kind"@) == Some(
                "dos_exit"@,
            ) && number_under(stop_reason_model(stop), "code"@) == Some(code as int),
            StopView::TestExit { code } => text_under(stop_reason_model(stop), "kind"@) == Some(
                "test_exit"@,
            ) && number_under(stop_reason_model(stop), "code"@) == Some(code as int),
        },
{
    reveal_strlit("kind");
    reveal_strlit("code");
    reveal_strlit("requested");
    reveal_strlit("message");
    assert("kind"@.len() == 4 && "kind"@[0] == 'k');
    assert("code"@.len() == 4 && "code"@[0] == 'c');
    assert("requested"@.len() == 9 && "message"@.len() == 7);
}

/// A stop ends the whole run exactly where it is not the end of a budget, and it is
/// passed on as it is.
pub proof fn law_only_a_budget_is_run_past(stop: StopView)
    ensures
        terminal(stop) is None <==> stop is CycleLimit,
        terminal(stop) matches Some(end) ==> end == stop,
        program_exit_code(stop) == 0 ==> stop is DosExit || stop is TestExit,
        stop matches StopView::DosExit { code } ==> program_exit_code(stop) == code,
        stop matches StopView::TestExit { code } ==> program_exit_code(stop) == code,
        !(stop is DosExit) && !(stop is TestExit) ==> program_exit_code(stop) != 0,
{
}

/// A run that was to end as a passed test is complained of unless it ended so, and a run
/// that was not is never complained of.
pub proof fn law_only_a_passed_test_is_accepted(stop: StopView, stop_text: Seq<char>, code: u8)
    ensures
        test_exit_complaint(false, stop, stop_text) is None,
        test_exit_complaint(true, StopView::TestExit { code }, stop_text) is None <==> code == 0,
        !(stop is TestExit) ==> test_exit_complaint(true, stop, stop_text) is Some,
        test_exit_complaint(true, stop, stop_text) matches Some(complaint) ==> complaint.skip(
            complaint.len() - stop_text.len(),
        ) == stop_text,
{
    if let Some(complaint) = test_exit_complaint(true, stop, stop_text) {
        assert(complaint.skip(complaint.len() - stop_text.len()) =~= stop_text);
    }
}

} // verus!
