//! The self-test suites: what their records mean, and when a suite failed.

use vstd::prelude::*;

use crate::stop::StopReason;
#[allow(unused_imports)]
use crate::stop::StopView;
use crate::text::{before, decimal_text, join, same_text};
#[allow(unused_imports)]
use crate::text::{
    decimal, joined, lemma_before_is_total, lemma_before_is_transitive, opt_text, text_before,
    text_views,
};

verus! {

/// How a record came out.
#[derive(Clone, Copy, Debug, PartialEq, Eq, Structural)]
pub enum SuiteRecordStatus {
    Begin,
    Pass,
    Fail,
    Measure,
}

/// One record of a suite.
#[derive(Debug, PartialEq, Eq)]
pub struct SuiteRecord {
    pub status: SuiteRecordStatus,
    pub name: String,
    pub value: Option<String>,
}

/// What a suite reported.
#[derive(Debug, PartialEq, Eq)]
pub struct SuiteResults {
    pub version: u16,
    pub declared_record_count: u16,
    pub records: Vec<SuiteRecord>,
}

impl SuiteRecordStatus {
    /// The status in capitals, as a report prints it.
    pub open spec fn capitals(self) -> Seq<char> {
        match self {
            SuiteRecordStatus::Begin => "BEGIN"@,
            SuiteRecordStatus::Pass => "PASS"@,
            SuiteRecordStatus::Fail => "FAIL"@,
            SuiteRecordStatus::Measure => "MEASURE"@,
        }
    }

    /// The status by name.
    pub open spec fn spelled(self) -> Seq<char> {
        match self {
            SuiteRecordStatus::Begin => "Begin"@,
            SuiteRecordStatus::Pass => "Pass"@,
            SuiteRecordStatus::Fail => "Fail"@,
            SuiteRecordStatus::Measure => "Measure"@,
        }
    }

    /// The status in capitals.
    pub fn capitals_text(self) -> (text: &'static str)
        ensures
            text@ == self.capitals(),
    {
        match self {
            SuiteRecordStatus::Begin => "BEGIN",
            SuiteRecordStatus::Pass => "PASS",
            SuiteRecordStatus::Fail => "FAIL",
            SuiteRecordStatus::Measure => "MEASURE",
        }
    }

    /// The status by name.
    fn spelled_text(self) -> (text: &'static str)
        ensures
            text@ == self.spelled(),
    {
        match self {
            SuiteRecordStatus::Begin => "Begin",
            SuiteRecordStatus::Pass => "Pass",
            SuiteRecordStatus::Fail => "Fail",
            SuiteRecordStatus::Measure => "Measure",
        }
    }
}

/// The line that a record is printed as: its status, its name and its value.
pub open spec fn record_line(record: SuiteRecord) -> Seq<char> {
    match record.value {
        Some(value) => record.status.capitals() + " "@ + record.name@ + " "@ + value@,
        None => record.status.capitals() + " "@ + record.name@,
    }
}

/// The line that a record is printed as.
pub fn record_text(record: &SuiteRecord) -> (line: String)
    ensures
        line@ == record_line(*record),
{
    let mut line: String = record.status.capitals_text().to_owned();
    line.append(" ");
    line.append(record.name.as_str());
    if let Some(value) = &record.value {
        line.append(" ");
        line.append(value.as_str());
    }
    line
}

// ---------------------------------------------------------------------------
// The boot suite
// ---------------------------------------------------------------------------

/// The names of the records that failed, in their order.
pub open spec fn failed_names(records: Seq<SuiteRecord>) -> Seq<Seq<char>>
    decreases records.len(),
{
    if records.len() == 0 {
        Seq::empty()
    } else {
        let rest = failed_names(records.drop_last());
        if records.last().status == SuiteRecordStatus::Fail {
            rest.push(records.last().name@)
        } else {
            rest
        }
    }
}

/// The message of a boot suite that failed: every record that did.
pub open spec fn boot_suite_summary(records: Seq<SuiteRecord>) -> Option<Seq<char>> {
    if failed_names(records).len() == 0 {
        None
    } else {
        Some("boot suite reported FAIL: "@ + joined(failed_names(records), ", "@))
    }
}

/// The message of a boot suite that failed, or `None` where every record passed.
pub fn boot_suite_failure_summary(results: &SuiteResults) -> (summary: Option<String>)
    ensures
        opt_text(summary) == boot_suite_summary(results.records@),
{
    let mut failures: Vec<String> = Vec::new();
    let mut i: usize = 0;
    proof {
        assert(results.records@.take(0) =~= Seq::empty());
        assert(text_views(failures@) =~= Seq::empty());
    }
    while i < results.records.len()
        invariant
            i <= results.records@.len(),
            text_views(failures@) == failed_names(results.records@.take(i as int)),
        decreases results.records@.len() - i,
    {
        proof {
            assert(results.records@.take(i + 1).drop_last() =~= results.records@.take(i as int));
        }
        if results.records[i].status == SuiteRecordStatus::Fail {
            let ghost before = text_views(failures@);
            failures.push(results.records[i].name.clone());
            assert(text_views(failures@) =~= before.push(results.records@[i as int].name@));
        }
        i = i + 1;
    }
    proof {
        assert(results.records@.take(results.records@.len() as int) =~= results.records@);
        assert(text_views(failures@).len() == failures@.len());
    }
    if failures.len() == 0 {
        None
    } else {
        let mut message: String = "boot suite reported FAIL: ".to_owned();
        message.append(join(&failures, ", ").as_str());
        Some(message)
    }
}

/// A boot suite fails exactly when a record of it does.
pub proof fn law_a_boot_suite_fails_with_its_records(records: Seq<SuiteRecord>)
    ensures
        boot_suite_summary(records) is Some <==> exists|i: int|
            0 <= i < records.len() && (#[trigger] records[i]).status == SuiteRecordStatus::Fail,
    decreases records.len(),
{
    if records.len() > 0 {
        let rest = records.drop_last();
        law_a_boot_suite_fails_with_its_records(rest);
        assert(forall|i: int| 0 <= i < rest.len() ==> rest[i] == records[i]);
        if failed_names(rest).len() > 0 {
            let i = choose|i: int|
                0 <= i < rest.len() && (#[trigger] rest[i]).status == SuiteRecordStatus::Fail;
            assert(records[i].status == SuiteRecordStatus::Fail);
        }
        if records.last().status == SuiteRecordStatus::Fail {
            assert(records[records.len() - 1].status == SuiteRecordStatus::Fail);
        }
    }
}

// ---------------------------------------------------------------------------
// Sets of names
// ---------------------------------------------------------------------------

/// A list of names in order with one name more, where it is not there already.
pub open spec fn with_name(names: Seq<Seq<char>>, name: Seq<char>) -> Seq<Seq<char>>
    decreases names.len(),
{
    if names.len() == 0 {
        seq![name]
    } else if names[0] == name {
        names
    } else if text_before(name, names[0]) {
        seq![name] + names
    } else {
        seq![names[0]] + with_name(names.drop_first(), name)
    }
}

/// The names of a list in order, each once.
pub open spec fn name_set(names: Seq<Seq<char>>) -> Seq<Seq<char>>
    decreases names.len(),
{
    if names.len() == 0 {
        Seq::empty()
    } else {
        with_name(name_set(names.drop_last()), names.last())
    }
}

/// The names that a list holds more than once, in order, each once.
pub open spec fn repeated_names(names: Seq<Seq<char>>) -> Seq<Seq<char>>
    decreases names.len(),
{
    if names.len() == 0 {
        Seq::empty()
    } else {
        let rest = repeated_names(names.drop_last());
        if names.drop_last().contains(names.last()) {
            with_name(rest, names.last())
        } else {
            rest
        }
    }
}

/// A name list with one name more.
fn add_name(names: &mut Vec<String>, name: &str)
    ensures
        text_views(final(names)@) == with_name(text_views(old(names)@), name@),
{
    let ghost list = text_views(names@);
    let mut i: usize = 0;
    proof {
        assert(list.skip(0) =~= list);
        assert(list.take(0) + with_name(list.skip(0), name@) =~= with_name(list, name@));
    }
    while i < names.len()
        invariant
            i <= names@.len(),
            list == text_views(names@),
            names@ == old(names)@,
            list.take(i as int) + with_name(list.skip(i as int), name@) == with_name(list, name@),
        decreases names@.len() - i,
    {
        proof {
            assert(list.skip(i as int)[0] == names@[i as int]@);
            assert(list.skip(i as int).drop_first() =~= list.skip(i + 1));
        }
        if same_text(names[i].as_str(), name) {
            assert(list.take(i as int) + list.skip(i as int) =~= list);
            return;
        }
        if before(name, names[i].as_str()) {
            let fresh: String = name.to_owned();
            names.insert(i, fresh);
            proof {
                assert(text_views(names@) =~= list.take(i as int) + (seq![name@] + list.skip(
                    i as int,
                )));
            }
            return;
        }
        proof {
            assert(list.take(i as int) + (seq![list[i as int]] + with_name(list.skip(i + 1), name@))
                =~= list.take(i + 1) + with_name(list.skip(i + 1), name@));
        }
        i = i + 1;
    }
    let fresh: String = name.to_owned();
    proof {
        assert(list.skip(i as int) =~= Seq::empty());
        assert(list.take(i as int) =~= list);
    }
    names.push(fresh);
    assert(text_views(names@) =~= list + seq![name@]);
}

/// Whether the list holds the name.
fn has_name(names: &Vec<String>, name: &str) -> (found: bool)
    ensures
        found == text_views(names@).contains(name@),
{
    let ghost list = text_views(names@);
    let mut i: usize = 0;
    while i < names.len()
        invariant
            i <= names@.len(),
            list == text_views(names@),
            forall|k: int| 0 <= k < i ==> list[k] != name@,
        decreases names@.len() - i,
    {
        if same_text(names[i].as_str(), name) {
            assert(list[i as int] == name@);
            return true;
        }
        i = i + 1;
    }
    false
}

/// Names in strictly ascending order.
pub open spec fn ascending(names: Seq<Seq<char>>) -> bool {
    forall|i: int, j: int|
        0 <= i < j < names.len() ==> text_before(#[trigger] names[i], #[trigger] names[j])
}

/// Adding a name keeps a list in order, and adds that name and no other.
proof fn lemma_with_name(names: Seq<Seq<char>>, name: Seq<char>)
    requires
        ascending(names),
    ensures
        ascending(with_name(names, name)),
        forall|n: Seq<char>| #[trigger]
            with_name(names, name).contains(n) <==> n == name || names.contains(n),
    decreases names.len(),
{
    let out = with_name(names, name);
    if names.len() == 0 {
        assert(out[0] == name);
    } else if names[0] == name {
        assert(names.contains(name));
    } else if text_before(name, names[0]) {
        assert(out =~= seq![name] + names);
        assert forall|i: int, j: int| 0 <= i < j < out.len() implies text_before(
            #[trigger] out[i],
            #[trigger] out[j],
        ) by {
            if i == 0 {
                if j > 1 {
                    assert(text_before(names[0], names[j - 1]));
                    lemma_before_is_transitive(name, names[0], names[j - 1]);
                }
            } else {
                assert(text_before(names[i - 1], names[j - 1]));
            }
        }
        assert forall|n: Seq<char>| out.contains(n) <==> n == name || names.contains(n) by {
            if names.contains(n) {
                let k = choose|k: int| 0 <= k < names.len() && names[k] == n;
                assert(out[k + 1] == n);
            }
            if n == name {
                assert(out[0] == n);
            }
        }
    } else {
        let rest = names.drop_first();
        assert forall|i: int, j: int| 0 <= i < j < rest.len() implies text_before(
            #[trigger] rest[i],
            #[trigger] rest[j],
        ) by {
            assert(text_before(names[i + 1], names[j + 1]));
        }
        lemma_with_name(rest, name);
        lemma_before_is_total(name, names[0]);
        let tail = with_name(rest, name);
        assert(out =~= seq![names[0]] + tail);
        assert forall|n: Seq<char>| tail.contains(n) implies text_before(names[0], n) by {
            assert(with_name(rest, name).contains(n));
            if n != name {
                assert(rest.contains(n));
                let k = choose|k: int| 0 <= k < rest.len() && rest[k] == n;
                assert(text_before(names[0], names[k + 1]));
            }
        }
        assert forall|i: int, j: int| 0 <= i < j < out.len() implies text_before(
            #[trigger] out[i],
            #[trigger] out[j],
        ) by {
            if i == 0 {
                assert(tail.contains(tail[j - 1]));
            } else {
                assert(text_before(tail[i - 1], tail[j - 1]));
            }
        }
        assert forall|n: Seq<char>| out.contains(n) <==> n == name || names.contains(n) by {
            if out.contains(n) {
                let k = choose|k: int| 0 <= k < out.len() && out[k] == n;
                if k > 0 {
                    assert(tail.contains(tail[k - 1]));
                    if n != name {
                        assert(rest.contains(n));
                        let m = choose|m: int| 0 <= m < rest.len() && rest[m] == n;
                        assert(names[m + 1] == n);
                    }
                } else {
                    assert(names[0] == n);
                }
            }
            if names.contains(n) {
                let k = choose|k: int| 0 <= k < names.len() && names[k] == n;
                if k > 0 {
                    assert(rest[k - 1] == n);
                    assert(with_name(rest, name).contains(n));
                    let m = choose|m: int| 0 <= m < tail.len() && tail[m] == n;
                    assert(out[m + 1] == n);
                } else {
                    assert(out[0] == n);
                }
            }
            if n == name {
                assert(with_name(rest, name).contains(n));
                let m = choose|m: int| 0 <= m < tail.len() && tail[m] == n;
                assert(out[m + 1] == n);
            }
        }
    }
}

/// The name set of a list holds each of its names once, in order, and no other.
pub proof fn law_a_name_set_is_in_order(names: Seq<Seq<char>>)
    ensures
        ascending(name_set(names)),
        forall|n: Seq<char>| #[trigger] name_set(names).contains(n) <==> names.contains(n),
    decreases names.len(),
{
    if names.len() > 0 {
        let rest = names.drop_last();
        law_a_name_set_is_in_order(rest);
        lemma_with_name(name_set(rest), names.last());
        assert forall|n: Seq<char>| name_set(names).contains(n) <==> names.contains(n) by {
            if names.contains(n) {
                let k = choose|k: int| 0 <= k < names.len() && names[k] == n;
                if k < rest.len() {
                    assert(rest[k] == n);
                }
            }
            if rest.contains(n) {
                let k = choose|k: int| 0 <= k < rest.len() && rest[k] == n;
                assert(names[k] == n);
            }
            assert(names[names.len() - 1] == names.last());
        }
    }
}

// ---------------------------------------------------------------------------
// The BIOS gate
// ---------------------------------------------------------------------------

/// The records that the BIOS owes, each with the status it owes.
pub open spec fn required_records() -> Seq<(Seq<char>, SuiteRecordStatus)> {
    seq![
        ("suite.izarra"@, SuiteRecordStatus::Begin),
        ("self.framework"@, SuiteRecordStatus::Pass),
        ("self.extaccess"@, SuiteRecordStatus::Pass),
        ("component.cpu_gsw"@, SuiteRecordStatus::Pass),
        ("component.video_margo"@, SuiteRecordStatus::Pass),
        ("video.margo_caps"@, SuiteRecordStatus::Measure),
        ("memory.ramtest"@, SuiteRecordStatus::Pass),
        ("memory.detected_kib"@, SuiteRecordStatus::Measure),
        ("component.cpu_lotura"@, SuiteRecordStatus::Pass),
        ("cpu.gsw_mode"@, SuiteRecordStatus::Measure),
        ("component.kbd_8042"@, SuiteRecordStatus::Pass),
        ("component.timer_pit"@, SuiteRecordStatus::Pass),
        ("component.serial_com1"@, SuiteRecordStatus::Pass),
        ("component.audio_sbdsp"@, SuiteRecordStatus::Pass),
        ("sound.dsp_version"@, SuiteRecordStatus::Measure),
        ("component.audio_opl"@, SuiteRecordStatus::Pass),
        ("component.floppy_fdc"@, SuiteRecordStatus::Pass),
        ("component.disk_hdd"@, SuiteRecordStatus::Pass),
        ("component.optical_atapi"@, SuiteRecordStatus::Pass),
    ]
}

/// What a table of names and statuses holds.
pub open spec fn table_view(table: Seq<(&'static str, SuiteRecordStatus)>) -> Seq<
    (Seq<char>, SuiteRecordStatus),
> {
    table.map_values(|row: (&'static str, SuiteRecordStatus)| (row.0@, row.1))
}

/// The records that the BIOS owes, each with the status it owes.
pub fn izarra_bios_required_records() -> (table: Vec<(&'static str, SuiteRecordStatus)>)
    ensures
        table_view(table@) == required_records(),
{
    let table: Vec<(&'static str, SuiteRecordStatus)> = vec![
        ("suite.izarra", SuiteRecordStatus::Begin),
        ("self.framework", SuiteRecordStatus::Pass),
        ("self.extaccess", SuiteRecordStatus::Pass),
        ("component.cpu_gsw", SuiteRecordStatus::Pass),
        ("component.video_margo", SuiteRecordStatus::Pass),
        ("video.margo_caps", SuiteRecordStatus::Measure),
        ("memory.ramtest", SuiteRecordStatus::Pass),
        ("memory.detected_kib", SuiteRecordStatus::Measure),
        ("component.cpu_lotura", SuiteRecordStatus::Pass),
        ("cpu.gsw_mode", SuiteRecordStatus::Measure),
        ("component.kbd_8042", SuiteRecordStatus::Pass),
        ("component.timer_pit", SuiteRecordStatus::Pass),
        ("component.serial_com1", SuiteRecordStatus::Pass),
        ("component.audio_sbdsp", SuiteRecordStatus::Pass),
        ("sound.dsp_version", SuiteRecordStatus::Measure),
        ("component.audio_opl", SuiteRecordStatus::Pass),
        ("component.floppy_fdc", SuiteRecordStatus::Pass),
        ("component.disk_hdd", SuiteRecordStatus::Pass),
        ("component.optical_atapi", SuiteRecordStatus::Pass),
    ];
    assert(table_view(table@) =~= required_records());
    table
}

/// The names of records, in their order.
pub open spec fn record_names(records: Seq<SuiteRecord>) -> Seq<Seq<char>> {
    records.map_values(|record: SuiteRecord| record.name@)
}

/// The first record of a name.
pub open spec fn first_named(records: Seq<SuiteRecord>, name: Seq<char>) -> Option<SuiteRecord>
    decreases records.len(),
{
    if records.len() == 0 {
        None
    } else if records[0].name@ == name {
        Some(records[0])
    } else {
        first_named(records.drop_first(), name)
    }
}

/// Whether the BIOS owes a record of this name.
pub open spec fn is_required(name: Seq<char>) -> bool {
    exists|i: int| 0 <= i < required_records().len() && (#[trigger] required_records()[i]).0 == name
}

/// The names in order that the BIOS does not owe.
pub open spec fn unexpected_names(names: Seq<Seq<char>>) -> Seq<Seq<char>> {
    name_set(names).filter(|name: Seq<char>| !is_required(name))
}

/// Whether a measurement holds anything.
pub open spec fn has_value(record: SuiteRecord) -> bool {
    record.value matches Some(value) && value@.len() > 0
}

/// One issue where there is one.
pub open spec fn issue_if(wrong: bool, issue: Seq<char>) -> Seq<Seq<char>> {
    if wrong {
        seq![issue]
    } else {
        Seq::empty()
    }
}

/// What is wrong with the block itself.
pub open spec fn block_issues(results: SuiteResults) -> Seq<Seq<char>> {
    let count = results.records@.len();
    issue_if(
        results.version != 1,
        "unsupported result version "@ + decimal(results.version as nat),
    ) + issue_if(
        results.declared_record_count != count,
        "declared "@ + decimal(results.declared_record_count as nat) + " records but parsed "@
            + decimal(count),
    ) + issue_if(
        count != required_records().len(),
        "expected "@ + decimal(required_records().len()) + " required records but parsed "@
            + decimal(count),
    )
}

/// What is wrong with the names.
pub open spec fn name_issues(results: SuiteResults) -> Seq<Seq<char>> {
    let names = record_names(results.records@);
    issue_if(
        repeated_names(names).len() > 0,
        "duplicate records: "@ + joined(repeated_names(names), ", "@),
    ) + issue_if(
        unexpected_names(names).len() > 0,
        "unexpected records: "@ + joined(unexpected_names(names), ", "@),
    )
}

/// What is wrong with one record that is owed.
pub open spec fn record_issues(
    records: Seq<SuiteRecord>,
    name: Seq<char>,
    expected: SuiteRecordStatus,
) -> Seq<Seq<char>> {
    match first_named(records, name) {
        None => seq!["missing required record: "@ + name],
        Some(record) => {
            let status = if record.status == SuiteRecordStatus::Fail {
                seq!["failed required record: "@ + name]
            } else {
                issue_if(
                    record.status != expected,
                    "required record "@ + name + " has "@ + record.status.spelled()
                        + ", expected "@ + expected.spelled(),
                )
            };
            status + issue_if(
                expected == SuiteRecordStatus::Measure && !has_value(record),
                "required measurement has no value: "@ + name,
            )
        },
    }
}

/// What is wrong with the first `n` records that are owed.
pub open spec fn owed_issues(records: Seq<SuiteRecord>, n: nat) -> Seq<Seq<char>>
    decreases n,
{
    if n == 0 {
        Seq::empty()
    } else {
        let row = required_records()[n - 1];
        owed_issues(records, (n - 1) as nat) + record_issues(records, row.0, row.1)
    }
}

/// Everything that is wrong with what the BIOS reported.
pub open spec fn gate_issues(results: SuiteResults) -> Seq<Seq<char>> {
    block_issues(results) + name_issues(results) + owed_issues(
        results.records@,
        required_records().len(),
    )
}

/// The message about a BIOS that is turned down.
pub open spec fn gate_summary(results: SuiteResults) -> Option<Seq<char>> {
    if gate_issues(results).len() == 0 {
        None
    } else {
        Some("Izarra BIOS gate failed: "@ + joined(gate_issues(results), "; "@))
    }
}

/// Appends an issue where there is one.
fn push_issue(issues: &mut Vec<String>, wrong: bool, issue: String)
    ensures
        text_views(final(issues)@) == text_views(old(issues)@) + issue_if(wrong, issue@),
{
    let ghost before = text_views(issues@);
    if wrong {
        issues.push(issue);
        assert(text_views(issues@) =~= before + seq![issue@]);
    } else {
        assert(before + Seq::<Seq<char>>::empty() =~= before);
    }
}

/// Appends what is wrong with the block itself.
fn push_block_issues(issues: &mut Vec<String>, results: &SuiteResults, owed: usize)
    requires
        owed == required_records().len(),
    ensures
        text_views(final(issues)@) == text_views(old(issues)@) + block_issues(*results),
{
    let ghost start = text_views(issues@);
    let count: usize = results.records.len();
    let mut version: String = "unsupported result version ".to_owned();
    version.append(decimal_text(results.version as u64).as_str());
    push_issue(issues, results.version != 1, version);
    let mut declared: String = "declared ".to_owned();
    declared.append(decimal_text(results.declared_record_count as u64).as_str());
    declared.append(" records but parsed ");
    declared.append(decimal_text(count as u64).as_str());
    push_issue(issues, results.declared_record_count as usize != count, declared);
    let mut expected: String = "expected ".to_owned();
    expected.append(decimal_text(owed as u64).as_str());
    expected.append(" required records but parsed ");
    expected.append(decimal_text(count as u64).as_str());
    push_issue(issues, count != owed, expected);
    assert(text_views(issues@) =~= start + block_issues(*results));
}

/// The names of records, in their order.
fn names_of(records: &Vec<SuiteRecord>) -> (names: Vec<String>)
    ensures
        text_views(names@) == record_names(records@),
{
    let mut names: Vec<String> = Vec::new();
    let mut i: usize = 0;
    while i < records.len()
        invariant
            i <= records@.len(),
            names@.len() == i,
            forall|k: int| 0 <= k < i ==> (#[trigger] names@[k])@ == records@[k].name@,
        decreases records@.len() - i,
    {
        names.push(records[i].name.clone());
        i = i + 1;
    }
    assert(text_views(names@) =~= record_names(records@));
    names
}

/// Whether the BIOS owes a record of this name.
fn required(table: &Vec<(&'static str, SuiteRecordStatus)>, name: &str) -> (yes: bool)
    requires
        table_view(table@) == required_records(),
    ensures
        yes == is_required(name@),
{
    let mut i: usize = 0;
    while i < table.len()
        invariant
            i <= table@.len(),
            table_view(table@) == required_records(),
            forall|k: int| 0 <= k < i ==> (#[trigger] required_records()[k]).0 != name@,
        decreases table@.len() - i,
    {
        assert(required_records()[i as int] == table_view(table@)[i as int]);
        if same_text(table[i].0, name) {
            return true;
        }
        i = i + 1;
    }
    false
}

/// Appends what is wrong with the names.
fn push_name_issues(
    issues: &mut Vec<String>,
    results: &SuiteResults,
    table: &Vec<(&'static str, SuiteRecordStatus)>,
)
    requires
        table_view(table@) == required_records(),
    ensures
        text_views(final(issues)@) == text_views(old(issues)@) + name_issues(*results),
{
    let ghost start = text_views(issues@);
    let names: Vec<String> = names_of(&results.records);
    let ghost list = text_views(names@);
    let mut seen: Vec<String> = Vec::new();
    let mut all: Vec<String> = Vec::new();
    let mut repeated: Vec<String> = Vec::new();
    let mut i: usize = 0;
    proof {
        assert(list.take(0) =~= Seq::empty());
        assert(text_views(seen@) =~= list.take(0));
        assert(text_views(all@) =~= Seq::empty());
        assert(text_views(repeated@) =~= Seq::empty());
    }
    while i < names.len()
        invariant
            i <= names@.len(),
            list == text_views(names@),
            text_views(seen@) == list.take(i as int),
            text_views(all@) == name_set(list.take(i as int)),
            text_views(repeated@) == repeated_names(list.take(i as int)),
        decreases names@.len() - i,
    {
        proof {
            assert(list.take(i + 1).drop_last() =~= list.take(i as int));
            assert(list.take(i + 1).last() == names@[i as int]@);
        }
        if has_name(&seen, names[i].as_str()) {
            add_name(&mut repeated, names[i].as_str());
        }
        add_name(&mut all, names[i].as_str());
        seen.push(names[i].clone());
        i = i + 1;
        assert(text_views(seen@) =~= list.take(i as int));
    }
    assert(list.take(list.len() as int) =~= list);
    let ghost owed = |name: Seq<char>| !is_required(name);
    let mut unexpected: Vec<String> = Vec::new();
    let mut j: usize = 0;
    proof {
        reveal(Seq::filter);
        assert(text_views(all@).take(0) =~= Seq::empty());
        assert(text_views(unexpected@) =~= text_views(all@).take(0).filter(owed));
    }
    while j < all.len()
        invariant
            j <= all@.len(),
            table_view(table@) == required_records(),
            owed == (|name: Seq<char>| !is_required(name)),
            text_views(unexpected@) == text_views(all@).take(j as int).filter(owed),
        decreases all@.len() - j,
    {
        proof {
            reveal(Seq::filter);
            assert(text_views(all@).take(j + 1).drop_last() =~= text_views(all@).take(j as int));
            assert(text_views(all@).take(j + 1).last() == all@[j as int]@);
        }
        if !required(table, all[j].as_str()) {
            let ghost before = text_views(unexpected@);
            unexpected.push(all[j].clone());
            assert(text_views(unexpected@) =~= before.push(all@[j as int]@));
        }
        j = j + 1;
    }
    proof {
        assert(text_views(all@).take(all@.len() as int) =~= text_views(all@));
        assert(text_views(repeated@).len() == repeated@.len());
        assert(text_views(unexpected@).len() == unexpected@.len());
    }
    let mut twice: String = "duplicate records: ".to_owned();
    twice.append(join(&repeated, ", ").as_str());
    push_issue(issues, repeated.len() > 0, twice);
    let mut more: String = "unexpected records: ".to_owned();
    more.append(join(&unexpected, ", ").as_str());
    push_issue(issues, unexpected.len() > 0, more);
    assert(text_views(issues@) =~= start + name_issues(*results));
}

/// The place of the first record of a name.
fn find_record(records: &Vec<SuiteRecord>, name: &str) -> (at: Option<usize>)
    ensures
        match at {
            Some(at) => at < records@.len() && first_named(records@, name@) == Some(
                records@[at as int],
            ),
            None => first_named(records@, name@) is None,
        },
{
    let mut i: usize = 0;
    assert(records@.skip(0) =~= records@);
    while i < records.len()
        invariant
            i <= records@.len(),
            first_named(records@, name@) == first_named(records@.skip(i as int), name@),
        decreases records@.len() - i,
    {
        proof {
            assert(records@.skip(i as int)[0] == records@[i as int]);
            assert(records@.skip(i as int).drop_first() =~= records@.skip(i + 1));
        }
        if same_text(records[i].name.as_str(), name) {
            return Some(i);
        }
        i = i + 1;
    }
    None
}

/// Appends what is wrong with one record that is owed.
fn push_record_issues(
    issues: &mut Vec<String>,
    records: &Vec<SuiteRecord>,
    name: &str,
    expected: SuiteRecordStatus,
)
    ensures
        text_views(final(issues)@) == text_views(old(issues)@) + record_issues(
            records@,
            name@,
            expected,
        ),
{
    let ghost start = text_views(issues@);
    match find_record(records, name) {
        None => {
            let mut missing: String = "missing required record: ".to_owned();
            missing.append(name);
            push_issue(issues, true, missing);
        },
        Some(at) => {
            let record: &SuiteRecord = &records[at];
            if record.status == SuiteRecordStatus::Fail {
                let mut failed: String = "failed required record: ".to_owned();
                failed.append(name);
                push_issue(issues, true, failed);
            } else {
                let mut other: String = "required record ".to_owned();
                other.append(name);
                other.append(" has ");
                other.append(record.status.spelled_text());
                other.append(", expected ");
                other.append(expected.spelled_text());
                push_issue(issues, record.status != expected, other);
            }
            let blank: bool = match &record.value {
                Some(value) => value.as_str().is_empty(),
                None => true,
            };
            let mut empty: String = "required measurement has no value: ".to_owned();
            empty.append(name);
            push_issue(issues, expected == SuiteRecordStatus::Measure && blank, empty);
            assert(text_views(issues@) =~= start + record_issues(records@, name@, expected));
        },
    }
}

/// The message about a BIOS that is turned down, or `None` where it is accepted.
pub fn izarra_bios_failure_summary(results: &SuiteResults) -> (summary: Option<String>)
    ensures
        opt_text(summary) == gate_summary(*results),
{
    let table: Vec<(&'static str, SuiteRecordStatus)> = izarra_bios_required_records();
    let mut issues: Vec<String> = Vec::new();
    assert(table@.len() == table_view(table@).len());
    assert(text_views(issues@) =~= Seq::empty());
    push_block_issues(&mut issues, results, table.len());
    push_name_issues(&mut issues, results, &table);
    let ghost start = block_issues(*results) + name_issues(*results);
    let mut i: usize = 0;
    assert(text_views(issues@) =~= start + owed_issues(results.records@, 0));
    while i < table.len()
        invariant
            i <= table@.len(),
            table_view(table@) == required_records(),
            text_views(issues@) == start + owed_issues(results.records@, i as nat),
        decreases table@.len() - i,
    {
        assert(required_records()[i as int] == table_view(table@)[i as int]);
        let ghost before = owed_issues(results.records@, i as nat);
        push_record_issues(&mut issues, &results.records, table[i].0, table[i].1);
        i = i + 1;
        proof {
            let row = required_records()[i - 1];
            assert((start + before) + record_issues(results.records@, row.0, row.1) =~= start + (
            before + record_issues(results.records@, row.0, row.1)));
        }
    }
    assert(text_views(issues@) =~= gate_issues(*results));
    assert(text_views(issues@).len() == issues@.len());
    if issues.len() == 0 {
        None
    } else {
        let mut message: String = "Izarra BIOS gate failed: ".to_owned();
        message.append(join(&issues, "; ").as_str());
        Some(message)
    }
}

/// The complaint about a BIOS run: it is to come to its final halt first, and then
/// to have reported what it owes.
pub open spec fn bios_complaint(
    stop: StopView,
    stop_text: Seq<char>,
    results: SuiteResults,
) -> Option<Seq<char>> {
    if stop != StopView::Halted {
        Some("Izarra BIOS did not reach its terminal halt: "@ + stop_text)
    } else {
        gate_summary(results)
    }
}

/// The complaint about a BIOS run that ended as `stop`, which reads `stop_text` in
/// words, or `None` where there is nothing to complain of.
pub fn izarra_bios_complaint(stop: &StopReason, stop_text: &str, results: &SuiteResults) -> (
complaint: Option<String>)
    ensures
        opt_text(complaint) == bios_complaint(stop@, stop_text@, *results),
{
    match stop {
        StopReason::Halted => izarra_bios_failure_summary(results),
        _ => {
            let mut message: String = "Izarra BIOS did not reach its terminal halt: ".to_owned();
            message.append(stop_text);
            Some(message)
        },
    }
}

/// What the BIOS owes: the one known version, as many records as it declares and
/// as are owed, no name twice, no other name, and every record that is owed with
/// its status and, where it measures, a value.
pub open spec fn gate_holds(results: SuiteResults) -> bool {
    let records = results.records@;
    &&& results.version == 1
    &&& results.declared_record_count == records.len()
    &&& records.len() == required_records().len()
    &&& record_names(records).no_duplicates()
    &&& forall|i: int| 0 <= i < records.len() ==> is_required((#[trigger] records[i]).name@)
    &&& forall|i: int|
        0 <= i < required_records().len() ==> {
            let row = #[trigger] required_records()[i];
            first_named(records, row.0) matches Some(record) && record.status == row.1 && (row.1
                == SuiteRecordStatus::Measure ==> has_value(record))
        }
}

/// A BIOS is accepted exactly where it reported what it owes.
pub proof fn law_a_bios_is_accepted_for_what_it_owes(results: SuiteResults)
    ensures
        gate_summary(results) is None <==> gate_holds(results),
{
    let records = results.records@;
    let names = record_names(records);
    lemma_repeated_names(names);
    lemma_unexpected_names(names);
    lemma_owed_issues(records, required_records().len());
    assert(gate_issues(results).len() == block_issues(results).len() + name_issues(results).len()
        + owed_issues(records, required_records().len()).len());
    assert((forall|i: int| 0 <= i < records.len() ==> is_required((#[trigger] records[i]).name@))
        <==> (forall|i: int| 0 <= i < names.len() ==> is_required(#[trigger] names[i]))) by {
        assert(forall|i: int| 0 <= i < names.len() ==> names[i] == records[i].name@);
        if forall|i: int| 0 <= i < names.len() ==> is_required(#[trigger] names[i]) {
            assert forall|i: int| 0 <= i < records.len() implies is_required(
                (#[trigger] records[i]).name@,
            ) by {
                assert(is_required(names[i]));
            }
        }
    }
}

/// A list has a repeated name exactly when two of its names are the same.
proof fn lemma_repeated_names(names: Seq<Seq<char>>)
    ensures
        repeated_names(names).len() == 0 <==> names.no_duplicates(),
    decreases names.len(),
{
    if names.len() > 0 {
        let rest = names.drop_last();
        lemma_repeated_names(rest);
        if rest.contains(names.last()) {
            lemma_with_name_is_not_empty(repeated_names(rest), names.last());
            let k = choose|k: int| 0 <= k < rest.len() && rest[k] == names.last();
            assert(names[k] == names[names.len() - 1]);
        } else {
            if names.no_duplicates() {
                assert(rest.no_duplicates()) by {
                    assert forall|i: int, j: int| 0 <= i < rest.len() && 0 <= j < rest.len() && i
                        != j implies rest[i] != rest[j] by {
                        assert(names[i] != names[j]);
                    }
                }
            }
            if rest.no_duplicates() {
                assert forall|i: int, j: int| 0 <= i < names.len() && 0 <= j < names.len() && i
                    != j implies names[i] != names[j] by {
                    if i < rest.len() && j < rest.len() {
                        assert(rest[i] != rest[j]);
                    } else if i < rest.len() {
                        assert(rest[i] == names[i]);
                    } else {
                        assert(rest[j] == names[j]);
                    }
                }
            }
        }
    }
}

/// A list with one name more is not empty.
proof fn lemma_with_name_is_not_empty(names: Seq<Seq<char>>, name: Seq<char>)
    ensures
        with_name(names, name).len() > 0,
{
}

/// No name is unexpected exactly when every name is owed.
proof fn lemma_unexpected_names(names: Seq<Seq<char>>)
    ensures
        unexpected_names(names).len() == 0 <==> forall|i: int|
            0 <= i < names.len() ==> is_required(#[trigger] names[i]),
{
    law_a_name_set_is_in_order(names);
    let all = name_set(names);
    let owed = |name: Seq<char>| !is_required(name);
    broadcast use vstd::seq_lib::group_filter_ensures;

    if unexpected_names(names).len() == 0 {
        assert forall|i: int| 0 <= i < names.len() implies is_required(#[trigger] names[i]) by {
            if !is_required(names[i]) {
                assert(names.contains(names[i]));
                assert(name_set(names).contains(names[i]));
                let k = choose|k: int| 0 <= k < all.len() && all[k] == names[i];
                assert(owed(all[k]));
                assert(all.filter(owed).contains(all[k]));
            }
        }
    } else {
        let name = unexpected_names(names)[0];
        assert(all.filter(owed).contains(name));
        assert(owed(name));
        all.lemma_filter_contains_rev(owed, name);
        assert(name_set(names).contains(name));
        let k = choose|k: int| 0 <= k < names.len() && names[k] == name;
        assert(!is_required(names[k]));
    }
}

/// Nothing is wrong with the first records that are owed exactly when each is there
/// as it should be.
proof fn lemma_owed_issues(records: Seq<SuiteRecord>, n: nat)
    requires
        n <= required_records().len(),
    ensures
        owed_issues(records, n).len() == 0 <==> forall|i: int|
            0 <= i < n ==> {
                let row = #[trigger] required_records()[i];
                first_named(records, row.0) matches Some(record) && record.status == row.1 && (
                row.1 == SuiteRecordStatus::Measure ==> has_value(record))
            },
    decreases n,
{
    if n > 0 {
        lemma_owed_issues(records, (n - 1) as nat);
        let row = required_records()[n - 1];
        assert(row.1 != SuiteRecordStatus::Fail) by {
            lemma_no_record_owes_failure(n - 1);
        }
        let holds = first_named(records, row.0) matches Some(record) && record.status == row.1 && (
        row.1 == SuiteRecordStatus::Measure ==> has_value(record));
        assert((record_issues(records, row.0, row.1).len() == 0) == holds);
        assert(owed_issues(records, n).len() == owed_issues(records, (n - 1) as nat).len()
            + record_issues(records, row.0, row.1).len());
    }
}

/// No record owes to have failed.
proof fn lemma_no_record_owes_failure(i: int)
    requires
        0 <= i < required_records().len(),
    ensures
        required_records()[i].1 != SuiteRecordStatus::Fail,
{
}

// ---------------------------------------------------------------------------
// Laws of records
// ---------------------------------------------------------------------------

/// A status is printed as its name in capitals.
pub proof fn law_a_status_is_its_name_in_capitals(status: SuiteRecordStatus)
    ensures
        status.capitals() == crate::text::uppered(status.spelled()),
        status.spelled().len() == match status {
            SuiteRecordStatus::Begin => 5nat,
            SuiteRecordStatus::Pass => 4,
            SuiteRecordStatus::Fail => 4,
            SuiteRecordStatus::Measure => 7,
        },
        SuiteRecordStatus::Pass.spelled()[0] == 'P' && SuiteRecordStatus::Fail.spelled()[0] == 'F',
{
    reveal_strlit("BEGIN");
    reveal_strlit("PASS");
    reveal_strlit("FAIL");
    reveal_strlit("MEASURE");
    reveal_strlit("Begin");
    reveal_strlit("Pass");
    reveal_strlit("Fail");
    reveal_strlit("Measure");
    assert(status.capitals() =~= crate::text::uppered(status.spelled()));
}

/// The names of the records that failed follow one another as the records do: each failed
/// record gives its name and any other none.
pub proof fn law_failures_are_named_one_by_one(
    a: Seq<SuiteRecord>,
    b: Seq<SuiteRecord>,
    one: SuiteRecord,
)
    ensures
        failed_names(a + b) == failed_names(a) + failed_names(b),
        failed_names(seq![one]) == if one.status is Fail {
            seq![one.name@]
        } else {
            Seq::empty()
        },
    decreases b.len(),
{
    assert(seq![one].drop_last() =~= Seq::empty());
    assert(failed_names(seq![one].drop_last()) =~= Seq::empty());
    assert(Seq::<Seq<char>>::empty().push(one.name@) =~= seq![one.name@]);
    if b.len() == 0 {
        assert(a + b =~= a);
        assert(failed_names(a) + failed_names(b) =~= failed_names(a));
    } else {
        law_failures_are_named_one_by_one(a, b.drop_last(), one);
        assert((a + b).drop_last() =~= a + b.drop_last());
        assert(failed_names(a + b) =~= failed_names(a) + failed_names(b));
    }
}

/// A name is repeated where two records have it, and each repeated name is said once, in
/// order.
pub proof fn law_a_repeated_name_stands_twice(names: Seq<Seq<char>>, n: Seq<char>)
    ensures
        ascending(repeated_names(names)),
        repeated_names(names).contains(n) <==> exists|i: int, j: int|
            0 <= i < j < names.len() && (#[trigger] names[i]) == n && (#[trigger] names[j]) == n,
    decreases names.len(),
{
    if names.len() > 0 {
        let front = names.drop_last();
        let last = names.last();
        law_a_repeated_name_stands_twice(front, n);
        if front.contains(last) {
            lemma_with_name(repeated_names(front), last);
            let k = choose|k: int| 0 <= k < front.len() && front[k] == last;
            assert(names[k] == last && names[names.len() - 1] == last);
        }
        if repeated_names(front).contains(n) {
            let (i, j) = choose|i: int, j: int|
                0 <= i < j < front.len() && (#[trigger] front[i]) == n && (#[trigger] front[j])
                    == n;
            assert(names[i] == n && names[j] == n);
        }
        if exists|i: int, j: int|
            0 <= i < j < names.len() && (#[trigger] names[i]) == n && (#[trigger] names[j]) == n {
            let (i, j) = choose|i: int, j: int|
                0 <= i < j < names.len() && (#[trigger] names[i]) == n && (#[trigger] names[j])
                    == n;
            if j < front.len() {
                assert(front[i] == n && front[j] == n);
            } else {
                assert(front[i] == n);
                assert(front.contains(last));
            }
        }
    }
}

/// The first record of a name is the one that counts.
pub proof fn law_the_first_of_a_name_counts(records: Seq<SuiteRecord>, name: Seq<char>, i: int)
    requires
        0 <= i <= records.len(),
        forall|k: int| 0 <= k < i ==> (#[trigger] records[k]).name@ != name,
    ensures
        i == records.len() ==> first_named(records, name) is None,
        i < records.len() && records[i].name@ == name ==> first_named(records, name) == Some(
            records[i],
        ),
    decreases records.len(),
{
    if i > 0 {
        let rest = records.drop_first();
        assert(records[0].name@ != name);
        assert forall|k: int| 0 <= k < i - 1 implies (#[trigger] rest[k]).name@ != name by {
            assert(rest[k] == records[k + 1]);
        }
        law_the_first_of_a_name_counts(rest, name, i - 1);
    }
}

/// What is wrong with a record that the BIOS owes is said among all that is wrong.
pub proof fn law_every_issue_is_said(results: SuiteResults, i: int, k: int)
    requires
        0 <= i < required_records().len(),
        0 <= k < record_issues(
            results.records@,
            required_records()[i].0,
            required_records()[i].1,
        ).len(),
    ensures
        gate_issues(results).contains(
            record_issues(results.records@, required_records()[i].0, required_records()[i].1)[k],
        ),
        bios_complaint(StopView::Halted, Seq::empty(), results) is Some,
{
    let row = required_records()[i];
    let issue = record_issues(results.records@, row.0, row.1)[k];
    let at = lemma_an_owed_issue_stands(results.records@, i, k, required_records().len());
    let owed = owed_issues(results.records@, required_records().len());
    let front = block_issues(results) + name_issues(results);
    assert(gate_issues(results)[front.len() + at] == owed[at]);
}

/// An issue of a record stands among those of the first records that are owed.
proof fn lemma_an_owed_issue_stands(records: Seq<SuiteRecord>, i: int, k: int, n: nat) -> (at: int)
    requires
        0 <= i < n <= required_records().len(),
        0 <= k < record_issues(records, required_records()[i].0, required_records()[i].1).len(),
    ensures
        0 <= at < owed_issues(records, n).len(),
        owed_issues(records, n)[at] == record_issues(
            records,
            required_records()[i].0,
            required_records()[i].1,
        )[k],
    decreases n,
{
    let before = owed_issues(records, (n - 1) as nat);
    if i == n - 1 {
        before.len() + k
    } else {
        lemma_an_owed_issue_stands(records, i, k, (n - 1) as nat)
    }
}

/// A record that is missing, one that failed, one with another status and a measurement
/// without a value are each something wrong; a record as it is owed is not.
pub proof fn law_what_is_wrong_with_a_record(
    records: Seq<SuiteRecord>,
    name: Seq<char>,
    expected: SuiteRecordStatus,
)
    ensures
        first_named(records, name) is None ==> record_issues(records, name, expected) == seq![
            "missing required record: "@ + name,
        ],
        first_named(records, name) is Some && (first_named(records, name)->0).status is Fail
            ==> record_issues(records, name, expected)[0] == "failed required record: "@ + name,
        first_named(records, name) is Some && (first_named(records, name)->0).status != expected
            ==> record_issues(records, name, expected).len() > 0,
        first_named(records, name) is Some && expected is Measure && !has_value(
            first_named(records, name)->0,
        ) ==> record_issues(records, name, expected).last()
            == "required measurement has no value: "@ + name,
        first_named(records, name) is Some && (first_named(records, name)->0).status == expected
            && !(expected is Fail) && (expected is Measure ==> has_value(
            first_named(records, name)->0,
        )) ==> record_issues(records, name, expected).len() == 0,
{
}

/// Every record of the table is owed, the first and the last among them, and a name that
/// the table does not hold is not.
pub proof fn law_every_row_is_owed(i: int, name: Seq<char>)
    requires
        0 <= i < required_records().len(),
    ensures
        is_required(required_records()[i].0),
        required_records().len() == 19,
        (forall|k: int|
            0 <= k < required_records().len() ==> (#[trigger] required_records()[k]).0 != name)
            ==> !is_required(name),
{
}

} // verus!
