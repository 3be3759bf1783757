//! Refused block links, and what became of call-outs.

use vstd::prelude::*;

use crate::json::{labelled, no_fields, null, object, opt_number, put, put_number, put_text, rows};
#[allow(unused_imports)]
use crate::json::{json_of, labelled_model, opt_num, JsonModel};
use crate::text::same_text;
#[allow(unused_imports)]
use crate::json::{number_under, text_under, under};

verus! {

/// One link that was looked at, and how each look at it ended.
#[derive(Debug, Default)]
pub struct DirectLinkRefusalCensusRow {
    pub id: u64,
    pub source_linear: u64,
    pub source_physical: u64,
    pub source_mode_key: u64,
    pub source_generation: u64,
    pub slot: u64,
    pub target_linear: u64,
    pub target_mode_key: u64,
    pub last_target_generation: Option<u64>,
    pub state: String,
    pub unbound_exits: u64,
    pub buckets: Vec<(String, u64)>,
}

/// What [`link_source_json`] gives.
pub open spec fn link_source_model(row: DirectLinkRefusalCensusRow) -> JsonModel {
    JsonModel::Obj(
        map![
            "linear"@ => JsonModel::Num(row.source_linear as int),
            "physical"@ => JsonModel::Num(row.source_physical as int),
            "mode_key"@ => JsonModel::Num(row.source_mode_key as int),
            "generation"@ => JsonModel::Num(row.source_generation as int),
        ],
    )
}

/// Where a link leaves from, as an object.
fn link_source_json(row: &DirectLinkRefusalCensusRow) -> (value: serde_json::Value)
    ensures
        json_of(value) == link_source_model(*row),
{
    let mut fields = no_fields();
    put_number(&mut fields, "linear", row.source_linear);
    put_number(&mut fields, "physical", row.source_physical);
    put_number(&mut fields, "mode_key", row.source_mode_key);
    put_number(&mut fields, "generation", row.source_generation);
    object(fields)
}

/// What [`link_target_json`] gives.
pub open spec fn link_target_model(row: DirectLinkRefusalCensusRow) -> JsonModel {
    JsonModel::Obj(
        map![
            "linear"@ => JsonModel::Num(row.target_linear as int),
            "mode_key"@ => JsonModel::Num(row.target_mode_key as int),
            "last_attempted_generation"@ => opt_num(row.last_target_generation),
        ],
    )
}

/// Where a link leads, as an object.
fn link_target_json(row: &DirectLinkRefusalCensusRow) -> (value: serde_json::Value)
    ensures
        json_of(value) == link_target_model(*row),
{
    let mut fields = no_fields();
    put_number(&mut fields, "linear", row.target_linear);
    put_number(&mut fields, "mode_key", row.target_mode_key);
    put(&mut fields, "last_attempted_generation", opt_number(row.last_target_generation));
    object(fields)
}

/// What [`link_refusal_row_json`] gives.
pub open spec fn link_refusal_row_model(row: DirectLinkRefusalCensusRow) -> JsonModel {
    JsonModel::Obj(
        map![
            "id"@ => JsonModel::Num(row.id as int),
            "source"@ => link_source_model(row),
            "slot"@ => JsonModel::Num(row.slot as int),
            "target"@ => link_target_model(row),
            "state"@ => JsonModel::Str(row.state@),
            "unbound_exits"@ => JsonModel::Num(row.unbound_exits as int),
            "buckets"@ => labelled_model(row.buckets@, "kind"@, "count"@),
        ],
    )
}

/// One link as an object.
fn link_refusal_row_json(row: &DirectLinkRefusalCensusRow) -> (value: serde_json::Value)
    ensures
        json_of(value) == link_refusal_row_model(*row),
{
    let mut fields = no_fields();
    put_number(&mut fields, "id", row.id);
    put(&mut fields, "source", link_source_json(row));
    put_number(&mut fields, "slot", row.slot);
    put(&mut fields, "target", link_target_json(row));
    put_text(&mut fields, "state", row.state.as_str());
    put_number(&mut fields, "unbound_exits", row.unbound_exits);
    put(&mut fields, "buckets", labelled(&row.buckets, "kind", "count"));
    object(fields)
}

/// The link-refusal census of a run.
#[derive(Debug, Default)]
pub struct DirectLinkRefusalCensusSnapshot {
    pub seen: u64,
    pub missing_id: u64,
    pub invalid_id: u64,
    pub rows: Vec<DirectLinkRefusalCensusRow>,
}

/// What [`link_refusals_json`] gives.
pub open spec fn link_refusals_model(s: DirectLinkRefusalCensusSnapshot) -> JsonModel {
    JsonModel::Obj(
        map![
            "seen"@ => JsonModel::Num(s.seen as int),
            "missing_id"@ => JsonModel::Num(s.missing_id as int),
            "invalid_id"@ => JsonModel::Num(s.invalid_id as int),
            "rows"@ => JsonModel::Arr(
                s.rows@.map_values(|row: DirectLinkRefusalCensusRow| link_refusal_row_model(row)),
            ),
        ],
    )
}

/// A census that was kept, as an object.
fn link_refusals_json(s: &DirectLinkRefusalCensusSnapshot) -> (value: serde_json::Value)
    ensures
        json_of(value) == link_refusals_model(*s),
{
    let mut fields = no_fields();
    put_number(&mut fields, "seen", s.seen);
    put_number(&mut fields, "missing_id", s.missing_id);
    put_number(&mut fields, "invalid_id", s.invalid_id);
    put(
        &mut fields,
        "rows",
        rows(
            &s.rows,
            link_refusal_row_json,
            Ghost(|row: DirectLinkRefusalCensusRow| link_refusal_row_model(row)),
        ),
    );
    object(fields)
}

/// What [`direct_link_refusal_census_json`] gives.
pub open spec fn direct_link_refusal_census_model(
    snapshot: Option<DirectLinkRefusalCensusSnapshot>,
) -> JsonModel {
    match snapshot {
        None => JsonModel::Null,
        Some(s) => link_refusals_model(s),
    }
}

/// The link-refusal census, or `null` where none was kept.
pub fn direct_link_refusal_census_json(snapshot: &Option<DirectLinkRefusalCensusSnapshot>) -> (value:
    serde_json::Value)
    ensures
        json_of(value) == direct_link_refusal_census_model(*snapshot),
{
    match snapshot {
        None => null(),
        Some(s) => link_refusals_json(s),
    }
}

// ---------------------------------------------------------------------------
// Call-outs
// ---------------------------------------------------------------------------

/// How call-outs ended.
#[derive(Clone, Copy, Debug, Default)]
pub struct CallOutCounts {
    pub attempts: u64,
    pub continued: u64,
    pub step_break: u64,
    pub abnormal: u64,
}

/// What [`callout_totals_json`] gives.
pub open spec fn callout_counts_model(c: CallOutCounts) -> JsonModel {
    JsonModel::Obj(
        map![
            "attempts"@ => JsonModel::Num(c.attempts as int),
            "continued"@ => JsonModel::Num(c.continued as int),
            "step_break"@ => JsonModel::Num(c.step_break as int),
            "abnormal"@ => JsonModel::Num(c.abnormal as int),
        ],
    )
}

/// The counts as an object.
fn callout_totals_json(c: &CallOutCounts) -> (value: serde_json::Value)
    ensures
        json_of(value) == callout_counts_model(*c),
{
    let mut fields = no_fields();
    put_number(&mut fields, "attempts", c.attempts);
    put_number(&mut fields, "continued", c.continued);
    put_number(&mut fields, "step_break", c.step_break);
    put_number(&mut fields, "abnormal", c.abnormal);
    object(fields)
}

/// The call-outs of one helper.
#[derive(Debug, Default)]
pub struct CallOutHelperRow {
    pub helper: String,
    pub counts: CallOutCounts,
}

/// What [`callout_helper_json`] gives.
pub open spec fn callout_helper_model(row: CallOutHelperRow) -> JsonModel {
    JsonModel::Obj(
        map![
            "helper"@ => JsonModel::Str(row.helper@),
            "attempts"@ => JsonModel::Num(row.counts.attempts as int),
            "continued"@ => JsonModel::Num(row.counts.continued as int),
            "step_break"@ => JsonModel::Num(row.counts.step_break as int),
            "abnormal"@ => JsonModel::Num(row.counts.abnormal as int),
        ],
    )
}

/// One helper as an object.
fn callout_helper_json(row: &CallOutHelperRow) -> (value: serde_json::Value)
    ensures
        json_of(value) == callout_helper_model(*row),
{
    let mut fields = no_fields();
    put_text(&mut fields, "helper", row.helper.as_str());
    put_number(&mut fields, "attempts", row.counts.attempts);
    put_number(&mut fields, "continued", row.counts.continued);
    put_number(&mut fields, "step_break", row.counts.step_break);
    put_number(&mut fields, "abnormal", row.counts.abnormal);
    object(fields)
}

/// The call-outs that touched one port.
#[derive(Clone, Copy, Debug, Default)]
pub struct CallOutPortRow {
    pub port: u16,
    pub counts: CallOutCounts,
}

/// What [`callout_port_json`] gives.
pub open spec fn callout_port_model(row: CallOutPortRow) -> JsonModel {
    JsonModel::Obj(
        map![
            "port"@ => JsonModel::Num(row.port as int),
            "attempts"@ => JsonModel::Num(row.counts.attempts as int),
            "continued"@ => JsonModel::Num(row.counts.continued as int),
            "step_break"@ => JsonModel::Num(row.counts.step_break as int),
            "abnormal"@ => JsonModel::Num(row.counts.abnormal as int),
        ],
    )
}

/// One port as an object.
fn callout_port_json(row: &CallOutPortRow) -> (value: serde_json::Value)
    ensures
        json_of(value) == callout_port_model(*row),
{
    let mut fields = no_fields();
    put_number(&mut fields, "port", row.port as u64);
    put_number(&mut fields, "attempts", row.counts.attempts);
    put_number(&mut fields, "continued", row.counts.continued);
    put_number(&mut fields, "step_break", row.counts.step_break);
    put_number(&mut fields, "abnormal", row.counts.abnormal);
    object(fields)
}

/// The call-outs of a run, by helper and by port.
#[derive(Debug, Default)]
pub struct CallOutAttribution {
    pub helpers: Vec<CallOutHelperRow>,
    pub ports: Vec<CallOutPortRow>,
    pub totals: CallOutCounts,
}

impl CallOutCounts {
    /// Every attempt ended in exactly one of the three ways.
    pub open spec fn closed(self) -> bool {
        self.attempts == self.continued + self.step_break + self.abnormal
    }

    /// Whether every attempt is accounted for.
    pub fn is_closed(&self) -> (closed: bool)
        ensures
            closed == self.closed(),
    {
        self.attempts as u128 == self.continued as u128 + self.step_break as u128
            + self.abnormal as u128
    }
}

/// The counts of all helpers together.
pub open spec fn helper_sums(rows: Seq<CallOutHelperRow>) -> (int, int, int, int)
    decreases rows.len(),
{
    if rows.len() == 0 {
        (0, 0, 0, 0)
    } else {
        let rest = helper_sums(rows.drop_last());
        let c = rows.last().counts;
        (rest.0 + c.attempts, rest.1 + c.continued, rest.2 + c.step_break, rest.3 + c.abnormal)
    }
}

/// The attribution closes: the helpers are the known ones in their order, every
/// row accounts for its attempts, the totals are the helpers' sums, and the ports
/// ascend.
pub open spec fn callouts_closed(s: CallOutAttribution, labels: Seq<String>) -> bool {
    &&& forall|i: int|
        0 <= i < s.helpers@.len() && i < labels.len() ==> (#[trigger] s.helpers@[i]).helper@
            == labels[i]@
    &&& forall|i: int| 0 <= i < s.helpers@.len() ==> (#[trigger] s.helpers@[i]).counts.closed()
    &&& forall|i: int| 0 <= i < s.ports@.len() ==> (#[trigger] s.ports@[i]).counts.closed()
    &&& forall|i: int, j: int|
        0 <= i < j < s.ports@.len() ==> (#[trigger] s.ports@[i]).port < (#[trigger] s.ports@[j]).port
    &&& helper_sums(s.helpers@) == (
        s.totals.attempts as int,
        s.totals.continued as int,
        s.totals.step_break as int,
        s.totals.abnormal as int,
    )
}

/// Whether the helper rows are the known helpers in order, close, and sum to the totals.
fn helpers_close(s: &CallOutAttribution, labels: &Vec<String>) -> (closed: bool)
    ensures
        closed == ({
            &&& forall|i: int|
                0 <= i < s.helpers@.len() && i < labels@.len() ==> (
                #[trigger] s.helpers@[i]).helper@ == labels@[i]@
            &&& forall|i: int|
                0 <= i < s.helpers@.len() ==> (#[trigger] s.helpers@[i]).counts.closed()
            &&& helper_sums(s.helpers@) == (
                s.totals.attempts as int,
                s.totals.continued as int,
                s.totals.step_break as int,
                s.totals.abnormal as int,
            )
        }),
{
    let mut attempts: u128 = 0;
    let mut continued: u128 = 0;
    let mut step_break: u128 = 0;
    let mut abnormal: u128 = 0;
    let mut i: usize = 0;
    assert(s.helpers@.take(0) =~= Seq::empty());
    while i < s.helpers.len()
        invariant
            i <= s.helpers@.len(),
            helper_sums(s.helpers@.take(i as int)) == (
                attempts as int,
                continued as int,
                step_break as int,
                abnormal as int,
            ),
            attempts <= i * u64::MAX,
            continued <= i * u64::MAX,
            step_break <= i * u64::MAX,
            abnormal <= i * u64::MAX,
            forall|k: int|
                0 <= k < i && k < labels@.len() ==> (#[trigger] s.helpers@[k]).helper@
                    == labels@[k]@,
            forall|k: int| 0 <= k < i ==> (#[trigger] s.helpers@[k]).counts.closed(),
        decreases s.helpers@.len() - i,
    {
        let row: &CallOutHelperRow = &s.helpers[i];
        if i < labels.len() && !same_text(row.helper.as_str(), labels[i].as_str()) {
            return false;
        }
        if !row.counts.is_closed() {
            return false;
        }
        proof {
            assert(s.helpers@.take(i + 1).drop_last() =~= s.helpers@.take(i as int));
            assert(i * u64::MAX <= usize::MAX * u64::MAX) by (nonlinear_arith)
                requires
                    i <= usize::MAX,
            ;
            assert(i * u64::MAX + u64::MAX == (i + 1) * u64::MAX) by (nonlinear_arith);
        }
        attempts = attempts + row.counts.attempts as u128;
        continued = continued + row.counts.continued as u128;
        step_break = step_break + row.counts.step_break as u128;
        abnormal = abnormal + row.counts.abnormal as u128;
        i = i + 1;
    }
    assert(s.helpers@.take(s.helpers@.len() as int) =~= s.helpers@);
    attempts == s.totals.attempts as u128 && continued == s.totals.continued as u128 && step_break
        == s.totals.step_break as u128 && abnormal == s.totals.abnormal as u128
}

/// Whether the port rows close and ascend.
fn ports_close(ports: &Vec<CallOutPortRow>) -> (closed: bool)
    ensures
        closed == ({
            &&& forall|i: int| 0 <= i < ports@.len() ==> (#[trigger] ports@[i]).counts.closed()
            &&& forall|i: int, j: int|
                0 <= i < j < ports@.len() ==> (#[trigger] ports@[i]).port < (
                #[trigger] ports@[j]).port
        }),
{
    let mut i: usize = 0;
    while i < ports.len()
        invariant
            i <= ports@.len(),
            forall|k: int| 0 <= k < i ==> (#[trigger] ports@[k]).counts.closed(),
            forall|j: int, k: int|
                0 <= j < k < i ==> (#[trigger] ports@[j]).port < (#[trigger] ports@[k]).port,
        decreases ports@.len() - i,
    {
        if !ports[i].counts.is_closed() {
            return false;
        }
        if i > 0 && ports[i - 1].port >= ports[i].port {
            assert(ports@[i - 1].port >= ports@[i as int].port);
            return false;
        }
        i = i + 1;
    }
    true
}

/// Whether the attribution closes. `labels` are the known helpers in order.
pub fn callouts_close(s: &CallOutAttribution, labels: &Vec<String>) -> (closed: bool)
    ensures
        closed == callouts_closed(*s, labels@),
{
    helpers_close(s, labels) && ports_close(&s.ports)
}

/// What [`direct_callout_attribution_json`] gives.
pub open spec fn direct_callout_attribution_model(snapshot: Option<CallOutAttribution>) -> JsonModel {
    match snapshot {
        None => JsonModel::Null,
        Some(s) => JsonModel::Obj(
            map![
                "schema"@ => JsonModel::Str("izarravm-direct-callout-attribution-v1"@),
                "helpers"@ => JsonModel::Arr(
                    s.helpers@.map_values(|row: CallOutHelperRow| callout_helper_model(row)),
                ),
                "ports"@ => JsonModel::Arr(
                    s.ports@.map_values(|row: CallOutPortRow| callout_port_model(row)),
                ),
                "totals"@ => callout_counts_model(s.totals),
            ],
        ),
    }
}

/// The call-out attribution, or `null` where none was kept. An attribution that
/// does not close is not evidence, and is not reported.
pub fn direct_callout_attribution_json(
    snapshot: &Option<CallOutAttribution>,
    labels: &Vec<String>,
) -> (value: serde_json::Value)
    requires
        snapshot matches Some(s) ==> callouts_closed(*s, labels@),
    ensures
        json_of(value) == direct_callout_attribution_model(*snapshot),
{
    match snapshot {
        None => null(),
        Some(s) => {
            let mut fields = no_fields();
            put_text(&mut fields, "schema", "izarravm-direct-callout-attribution-v1");
            put(
                &mut fields,
                "helpers",
                rows(
                    &s.helpers,
                    callout_helper_json,
                    Ghost(|row: CallOutHelperRow| callout_helper_model(row)),
                ),
            );
            put(
                &mut fields,
                "ports",
                rows(
                    &s.ports,
                    callout_port_json,
                    Ghost(|row: CallOutPortRow| callout_port_model(row)),
                ),
            );
            put(&mut fields, "totals", callout_totals_json(&s.totals));
            object(fields)
        },
    }
}

// ---------------------------------------------------------------------------
// By key
// ---------------------------------------------------------------------------

/// Looked up by its key, every entry of the object is the figure that the key names.
pub proof fn law_link_source_by_key(row: DirectLinkRefusalCensusRow)
    ensures
        number_under(link_source_model(row), "linear"@) == Some(row.source_linear as int),
        number_under(link_source_model(row), "physical"@) == Some(row.source_physical as int),
        number_under(link_source_model(row), "mode_key"@) == Some(row.source_mode_key as int),
        number_under(link_source_model(row), "generation"@) == Some(row.source_generation as int),
{
    reveal_strlit("linear");
    assert("linear"@.len() == 6 && "linear"@[0] == 'l');
    reveal_strlit("physical");
    assert("physical"@.len() == 8 && "physical"@[0] == 'p');
    reveal_strlit("mode_key");
    assert("mode_key"@.len() == 8 && "mode_key"@[0] == 'm');
    reveal_strlit("generation");
    assert("generation"@.len() == 10 && "generation"@[0] == 'g');
}

/// Looked up by its key, every entry of the object is the figure that the key names.
pub proof fn law_link_target_by_key(row: DirectLinkRefusalCensusRow)
    ensures
        number_under(link_target_model(row), "linear"@) == Some(row.target_linear as int),
        number_under(link_target_model(row), "mode_key"@) == Some(row.target_mode_key as int),
        under(link_target_model(row), "last_attempted_generation"@)
            == Some(opt_num(row.last_target_generation)),
{
    reveal_strlit("linear");
    assert("linear"@.len() == 6);
    reveal_strlit("mode_key");
    assert("mode_key"@.len() == 8);
    reveal_strlit("last_attempted_generation");
    assert("last_attempted_generation"@.len() == 25);
}

/// Looked up by its key, every entry of the object is the figure that the key names.
pub proof fn law_link_refusal_row_by_key(row: DirectLinkRefusalCensusRow)
    ensures
        number_under(link_refusal_row_model(row), "id"@) == Some(row.id as int),
        under(link_refusal_row_model(row), "source"@) == Some(link_source_model(row)),
        number_under(link_refusal_row_model(row), "slot"@) == Some(row.slot as int),
        under(link_refusal_row_model(row), "target"@) == Some(link_target_model(row)),
        text_under(link_refusal_row_model(row), "state"@) == Some(row.state@),
        number_under(link_refusal_row_model(row), "unbound_exits"@)
            == Some(row.unbound_exits as int),
        under(link_refusal_row_model(row), "buckets"@)
            == Some(labelled_model(row.buckets@, "kind"@, "count"@)),
{
    reveal_strlit("id");
    assert("id"@.len() == 2 && "id"@[0] == 'i');
    reveal_strlit("source");
    assert("source"@.len() == 6 && "source"@[0] == 's');
    reveal_strlit("slot");
    assert("slot"@.len() == 4 && "slot"@[0] == 's');
    reveal_strlit("target");
    assert("target"@.len() == 6 && "target"@[0] == 't');
    reveal_strlit("state");
    assert("state"@.len() == 5 && "state"@[0] == 's');
    reveal_strlit("unbound_exits");
    assert("unbound_exits"@.len() == 13 && "unbound_exits"@[0] == 'u');
    reveal_strlit("buckets");
    assert("buckets"@.len() == 7 && "buckets"@[0] == 'b');
}

/// Looked up by its key, every entry of the object is the figure that the key names.
pub proof fn law_link_refusals_by_key(s: DirectLinkRefusalCensusSnapshot)
    ensures
        number_under(link_refusals_model(s), "seen"@) == Some(s.seen as int),
        number_under(link_refusals_model(s), "missing_id"@) == Some(s.missing_id as int),
        number_under(link_refusals_model(s), "invalid_id"@) == Some(s.invalid_id as int),
        under(link_refusals_model(s), "rows"@)
            == Some(JsonModel::Arr( s.rows@.map_values(|row: DirectLinkRefusalCensusRow| link_refusal_row_model(row)), )),
{
    reveal_strlit("seen");
    assert("seen"@.len() == 4 && "seen"@[0] == 's');
    reveal_strlit("missing_id");
    assert("missing_id"@.len() == 10 && "missing_id"@[0] == 'm');
    reveal_strlit("invalid_id");
    assert("invalid_id"@.len() == 10 && "invalid_id"@[0] == 'i');
    reveal_strlit("rows");
    assert("rows"@.len() == 4 && "rows"@[0] == 'r');
}

/// Looked up by its key, every entry of the object is the figure that the key names.
pub proof fn law_callout_counts_by_key(c: CallOutCounts)
    ensures
        number_under(callout_counts_model(c), "attempts"@) == Some(c.attempts as int),
        number_under(callout_counts_model(c), "continued"@) == Some(c.continued as int),
        number_under(callout_counts_model(c), "step_break"@) == Some(c.step_break as int),
        number_under(callout_counts_model(c), "abnormal"@) == Some(c.abnormal as int),
{
    reveal_strlit("attempts");
    assert("attempts"@.len() == 8 && "attempts"@[1] == 't');
    reveal_strlit("continued");
    assert("continued"@.len() == 9 && "continued"@[1] == 'o');
    reveal_strlit("step_break");
    assert("step_break"@.len() == 10 && "step_break"@[1] == 't');
    reveal_strlit("abnormal");
    assert("abnormal"@.len() == 8 && "abnormal"@[1] == 'b');
}

/// Looked up by its key, every entry of the object is the figure that the key names.
pub proof fn law_callout_helper_by_key(row: CallOutHelperRow)
    ensures
        text_under(callout_helper_model(row), "helper"@) == Some(row.helper@),
        number_under(callout_helper_model(row), "attempts"@) == Some(row.counts.attempts as int),
        number_under(callout_helper_model(row), "continued"@) == Some(row.counts.continued as int),
        number_under(callout_helper_model(row), "step_break"@)
            == Some(row.counts.step_break as int),
        number_under(callout_helper_model(row), "abnormal"@) == Some(row.counts.abnormal as int),
{
    reveal_strlit("helper");
    assert("helper"@.len() == 6 && "helper"@[1] == 'e');
    reveal_strlit("attempts");
    assert("attempts"@.len() == 8 && "attempts"@[1] == 't');
    reveal_strlit("continued");
    assert("continued"@.len() == 9 && "continued"@[1] == 'o');
    reveal_strlit("step_break");
    assert("step_break"@.len() == 10 && "step_break"@[1] == 't');
    reveal_strlit("abnormal");
    assert("abnormal"@.len() == 8 && "abnormal"@[1] == 'b');
}

/// Looked up by its key, every entry of the object is the figure that the key names.
pub proof fn law_callout_port_by_key(row: CallOutPortRow)
    ensures
        number_under(callout_port_model(row), "port"@) == Some(row.port as int),
        number_under(callout_port_model(row), "attempts"@) == Some(row.counts.attempts as int),
        number_under(callout_port_model(row), "continued"@) == Some(row.counts.continued as int),
        number_under(callout_port_model(row), "step_break"@) == Some(row.counts.step_break as int),
        number_under(callout_port_model(row), "abnormal"@) == Some(row.counts.abnormal as int),
{
    reveal_strlit("port");
    assert("port"@.len() == 4 && "port"@[1] == 'o');
    reveal_strlit("attempts");
    assert("attempts"@.len() == 8 && "attempts"@[1] == 't');
    reveal_strlit("continued");
    assert("continued"@.len() == 9 && "continued"@[1] == 'o');
    reveal_strlit("step_break");
    assert("step_break"@.len() == 10 && "step_break"@[1] == 't');
    reveal_strlit("abnormal");
    assert("abnormal"@.len() == 8 && "abnormal"@[1] == 'b');
}

/// Looked up by its key, every entry of the object is the figure that the key names.
pub proof fn law_direct_callout_attribution_by_key(s: CallOutAttribution)
    ensures
        text_under(direct_callout_attribution_model(Some(s)), "schema"@)
            == Some("izarravm-direct-callout-attribution-v1"@),
        under(direct_callout_attribution_model(Some(s)), "helpers"@)
            == Some(JsonModel::Arr( s.helpers@.map_values(|row: CallOutHelperRow| callout_helper_model(row)), )),
        under(direct_callout_attribution_model(Some(s)), "ports"@)
            == Some(JsonModel::Arr( s.ports@.map_values(|row: CallOutPortRow| callout_port_model(row)), )),
        under(direct_callout_attribution_model(Some(s)), "totals"@)
            == Some(callout_counts_model(s.totals)),
{
    reveal_strlit("schema");
    assert("schema"@.len() == 6 && "schema"@[0] == 's');
    reveal_strlit("helpers");
    assert("helpers"@.len() == 7 && "helpers"@[0] == 'h');
    reveal_strlit("ports");
    assert("ports"@.len() == 5 && "ports"@[0] == 'p');
    reveal_strlit("totals");
    assert("totals"@.len() == 6 && "totals"@[0] == 't');
}

/// The counts of helpers add up helper by helper, each kind apart.
pub proof fn law_helpers_add_up(
    a: Seq<CallOutHelperRow>,
    b: Seq<CallOutHelperRow>,
    one: CallOutHelperRow,
)
    ensures
        helper_sums(a + b).0 == helper_sums(a).0 + helper_sums(b).0,
        helper_sums(a + b).1 == helper_sums(a).1 + helper_sums(b).1,
        helper_sums(a + b).2 == helper_sums(a).2 + helper_sums(b).2,
        helper_sums(a + b).3 == helper_sums(a).3 + helper_sums(b).3,
        helper_sums(seq![one]) == (
            one.counts.attempts as int,
            one.counts.continued as int,
            one.counts.step_break as int,
            one.counts.abnormal as int,
        ),
    decreases b.len(),
{
    assert(seq![one].drop_last() =~= Seq::empty());
    assert(helper_sums(seq![one].drop_last()) == (0int, 0int, 0int, 0int));
    if b.len() == 0 {
        assert(a + b =~= a);
    } else {
        law_helpers_add_up(a, b.drop_last(), one);
        assert((a + b).drop_last() =~= a + b.drop_last());
    }
}

/// Where the attribution closes every attempt of the run ended in one of the three ways.
pub proof fn law_every_attempt_is_accounted_for(s: CallOutAttribution, labels: Seq<String>, i: int)
    requires
        callouts_closed(s, labels),
        0 <= i < s.helpers@.len(),
    ensures
        s.helpers@[i].counts.attempts == s.helpers@[i].counts.continued
            + s.helpers@[i].counts.step_break + s.helpers@[i].counts.abnormal,
        i < labels.len() ==> s.helpers@[i].helper@ == labels[i]@,
        s.helpers@[i].counts.attempts <= s.totals.attempts,
        s.totals.attempts == s.totals.continued + s.totals.step_break + s.totals.abnormal,
{
    assert(s.helpers@[i].counts.closed());
    lemma_sums_close(s.helpers@, i);
}

/// Rows that close have sums that close, and none has more attempts than all.
proof fn lemma_sums_close(rows: Seq<CallOutHelperRow>, i: int)
    requires
        0 <= i < rows.len(),
        forall|k: int| 0 <= k < rows.len() ==> (#[trigger] rows[k]).counts.closed(),
    ensures
        helper_sums(rows).0 == helper_sums(rows).1 + helper_sums(rows).2 + helper_sums(rows).3,
        rows[i].counts.attempts <= helper_sums(rows).0,
        helper_sums(rows).0 >= 0,
    decreases rows.len(),
{
    let rest = rows.drop_last();
    assert(rows[rows.len() - 1].counts.closed());
    assert forall|k: int| 0 <= k < rest.len() implies (#[trigger] rest[k]).counts.closed() by {
        assert(rest[k] == rows[k]);
    }
    if rest.len() > 0 {
        if i < rest.len() {
            lemma_sums_close(rest, i);
            assert(rest[i] == rows[i]);
        } else {
            lemma_sums_close(rest, 0);
        }
    } else {
        assert(helper_sums(rest) == (0int, 0int, 0int, 0int));
    }
}

/// Where the attribution closes every port accounts for its attempts, and the ports ascend,
/// each once.
pub proof fn law_every_port_is_accounted_for(
    s: CallOutAttribution,
    labels: Seq<String>,
    i: int,
    j: int,
)
    requires
        callouts_closed(s, labels),
        0 <= i < j < s.ports@.len(),
    ensures
        s.ports@[i].counts.attempts == s.ports@[i].counts.continued + s.ports@[i].counts.step_break
            + s.ports@[i].counts.abnormal,
        s.ports@[j].counts.attempts == s.ports@[j].counts.continued + s.ports@[j].counts.step_break
            + s.ports@[j].counts.abnormal,
        s.ports@[i].port < s.ports@[j].port,
{
    assert(s.ports@[i].counts.closed());
    assert(s.ports@[j].counts.closed());
}

} // verus!
