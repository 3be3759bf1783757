//! Where the time of a direct entry goes, phase by phase.

use vstd::prelude::*;

use crate::json::{
    array, labelled, no_fields, null, object, put, put_flag, put_number, put_text, rows, rows_where,
    same, text_array, texts,
};
#[allow(unused_imports)]
use crate::json::{json_of, labelled_model, models, JsonModel};
#[allow(unused_imports)]
use crate::json::{flag_under, number_under, text_under, under};

verus! {

/// Whether the marks' own cost can be taken off a phase's ticks.
pub fn correction_fits(overhead_ticks: u64, marks: u64) -> (fits: bool)
    ensures
        fits == (overhead_ticks * marks <= i128::MAX),
{
    assert(overhead_ticks * marks <= 0xffff_ffff_ffff_ffff * 0xffff_ffff_ffff_ffff)
        by (nonlinear_arith)
        requires
            overhead_ticks <= 0xffff_ffff_ffff_ffff,
            marks <= 0xffff_ffff_ffff_ffff,
    ;
    assert(0 <= overhead_ticks * marks) by (nonlinear_arith);
    overhead_ticks as u128 * marks as u128 <= i128::MAX as u128
}

/// The ticks of a phase without the marks' own cost. The difference may be
/// negative: subtracting a mean cost is a model, and the reader can undo it.
pub fn corrected_ticks(raw: u64, overhead_ticks: u64, marks: u64) -> (ticks: i128)
    requires
        overhead_ticks * marks <= i128::MAX,
    ensures
        ticks == raw - overhead_ticks * marks,
{
    proof {
        assert(0 <= overhead_ticks * marks) by (nonlinear_arith);
    }
    raw as i128 - overhead_ticks as i128 * marks as i128
}

/// One phase of one lane. The times are ready JSON numbers.
pub struct EntryPhase {
    pub phase: String,
    pub ticks_raw: u64,
    pub marks: u64,
    /// [`corrected_ticks`] of the phase.
    pub ticks_corrected: serde_json::Value,
    pub ns: serde_json::Value,
    pub ns_per_mark: serde_json::Value,
    /// The time per mark lies within the resolution of the clock.
    pub within_floor: bool,
}

/// What [`entry_phase_json`] gives.
pub open spec fn entry_phase_model(p: EntryPhase) -> JsonModel {
    JsonModel::Obj(
        map![
            "phase"@ => JsonModel::Str(p.phase@),
            "ticks_raw"@ => JsonModel::Num(p.ticks_raw as int),
            "marks"@ => JsonModel::Num(p.marks as int),
            "ticks_corrected"@ => json_of(p.ticks_corrected),
            "ns"@ => json_of(p.ns),
            "ns_per_mark"@ => json_of(p.ns_per_mark),
            "below_resolution"@ => JsonModel::Bool(p.marks > 0 && p.within_floor),
        ],
    )
}

/// One phase as an object. A phase with marks whose time lies within the resolution is below it, not free.
fn entry_phase_json(p: &EntryPhase) -> (value: serde_json::Value)
    ensures
        json_of(value) == entry_phase_model(*p),
{
    let mut fields = no_fields();
    put_text(&mut fields, "phase", p.phase.as_str());
    put_number(&mut fields, "ticks_raw", p.ticks_raw);
    put_number(&mut fields, "marks", p.marks);
    put(&mut fields, "ticks_corrected", same(&p.ticks_corrected));
    put(&mut fields, "ns", same(&p.ns));
    put(&mut fields, "ns_per_mark", same(&p.ns_per_mark));
    put_flag(&mut fields, "below_resolution", p.marks > 0 && p.within_floor);
    object(fields)
}

/// The whole time of one population of entries. The time is a ready JSON number.
pub struct EntryTotal {
    pub population: String,
    pub ticks: u64,
    pub ns: serde_json::Value,
    pub ends: u64,
}

/// What [`entry_total_json`] gives.
pub open spec fn entry_total_model(t: EntryTotal) -> JsonModel {
    JsonModel::Obj(
        map![
            "population"@ => JsonModel::Str(t.population@),
            "ticks"@ => JsonModel::Num(t.ticks as int),
            "ns"@ => json_of(t.ns),
            "ends"@ => JsonModel::Num(t.ends as int),
        ],
    )
}

/// One population as an object.
fn entry_total_json(t: &EntryTotal) -> (value: serde_json::Value)
    ensures
        json_of(value) == entry_total_model(*t),
{
    let mut fields = no_fields();
    put_text(&mut fields, "population", t.population.as_str());
    put_number(&mut fields, "ticks", t.ticks);
    put(&mut fields, "ns", same(&t.ns));
    put_number(&mut fields, "ends", t.ends);
    object(fields)
}

/// One place in the dispatcher, and how often entries ended there.
#[derive(Debug, Default)]
pub struct EntrySite {
    pub index: u64,
    pub site: String,
    pub run_rs_line: u64,
    pub count: u64,
}

/// One place of refusal. `above` are the places that lie before the first mark.
pub open spec fn refusal_site_model(site: EntrySite, above: Seq<u64>) -> JsonModel {
    JsonModel::Obj(
        map![
            "index"@ => JsonModel::Num(site.index as int),
            "site"@ => JsonModel::Str(site.site@),
            "run_rs_line"@ => JsonModel::Num(site.run_rs_line as int),
            "count"@ => JsonModel::Num(site.count as int),
            "above_p0_mark"@ => JsonModel::Bool(above.contains(site.index)),
        ],
    )
}

/// The places of refusal that were reached at all.
pub open spec fn refusal_sites_model(sites: Seq<EntrySite>, above: Seq<u64>) -> Seq<JsonModel> {
    sites.filter(|site: EntrySite| site.count != 0).map_values(
        |site: EntrySite| refusal_site_model(site, above),
    )
}

/// Whether `list` holds `n`.
fn holds(list: &Vec<u64>, n: u64) -> (found: bool)
    ensures
        found == list@.contains(n),
{
    let mut i: usize = 0;
    while i < list.len()
        invariant
            i <= list@.len(),
            forall|k: int| 0 <= k < i ==> list@[k] != n,
        decreases list@.len() - i,
    {
        if list[i] == n {
            assert(list@[i as int] == n);
            return true;
        }
        i = i + 1;
    }
    false
}

/// The places of refusal that were reached at all, as an array.
fn refusal_sites_json(sites: &Vec<EntrySite>, above: &Vec<u64>) -> (value: serde_json::Value)
    ensures
        json_of(value) == JsonModel::Arr(refusal_sites_model(sites@, above@)),
{
    let ghost reached = |site: EntrySite| site.count != 0;
    let ghost model = |site: EntrySite| refusal_site_model(site, above@);
    let mut values: Vec<serde_json::Value> = Vec::new();
    let mut i: usize = 0;
    proof {
        reveal(Seq::filter);
        assert(sites@.take(0).filter(reached) =~= Seq::empty());
    }
    while i < sites.len()
        invariant
            i <= sites@.len(),
            reached == (|site: EntrySite| site.count != 0),
            model == (|site: EntrySite| refusal_site_model(site, above@)),
            models(values@) =~= sites@.take(i as int).filter(reached).map_values(model),
        decreases sites@.len() - i,
    {
        proof {
            reveal(Seq::filter);
            assert(sites@.take(i + 1).drop_last() =~= sites@.take(i as int));
        }
        let site: &EntrySite = &sites[i];
        if site.count != 0 {
            let ghost here = models(values@);
            let mut fields = no_fields();
            put_number(&mut fields, "index", site.index);
            put_text(&mut fields, "site", site.site.as_str());
            put_number(&mut fields, "run_rs_line", site.run_rs_line);
            put_number(&mut fields, "count", site.count);
            put_flag(&mut fields, "above_p0_mark", holds(above, site.index));
            values.push(object(fields));
            assert(models(values@) =~= here.push(refusal_site_model(*site, above@)));
        }
        i = i + 1;
    }
    assert(sites@.take(sites@.len() as int) =~= sites@);
    array(values)
}

/// What [`compile_site_json`] gives.
pub open spec fn compile_site_model(site: EntrySite) -> JsonModel {
    JsonModel::Obj(
        map![
            "index"@ => JsonModel::Num(site.index as int),
            "site"@ => JsonModel::Str(site.site@),
            "run_rs_line"@ => JsonModel::Num(site.run_rs_line as int),
            "count"@ => JsonModel::Num(site.count as int),
        ],
    )
}

/// One place of compilation as an object.
fn compile_site_json(site: &EntrySite) -> (value: serde_json::Value)
    ensures
        json_of(value) == compile_site_model(*site),
{
    let mut fields = no_fields();
    put_number(&mut fields, "index", site.index);
    put_text(&mut fields, "site", site.site.as_str());
    put_number(&mut fields, "run_rs_line", site.run_rs_line);
    put_number(&mut fields, "count", site.count);
    object(fields)
}

/// Entries of one length and one number of linked transfers.
#[derive(Clone, Copy, Debug, Default)]
pub struct NativeBin {
    pub bin: u64,
    pub instructions: u64,
    pub linked_transfers_class: u64,
    pub self_loop: bool,
    pub count: u64,
    pub ticks: u64,
    pub instructions_sum: u64,
    pub linked_transfers_sum: u64,
}

/// What [`native_bin_json`] gives.
pub open spec fn native_bin_model(b: NativeBin) -> JsonModel {
    JsonModel::Obj(
        map![
            "bin"@ => JsonModel::Num(b.bin as int),
            "instructions"@ => JsonModel::Num(b.instructions as int),
            "linked_transfers_class"@ => JsonModel::Num(b.linked_transfers_class as int),
            "self_loop"@ => JsonModel::Bool(b.self_loop),
            "count"@ => JsonModel::Num(b.count as int),
            "ticks"@ => JsonModel::Num(b.ticks as int),
            "instructions_sum"@ => JsonModel::Num(b.instructions_sum as int),
            "linked_transfers_sum"@ => JsonModel::Num(b.linked_transfers_sum as int),
        ],
    )
}

/// One bin as an object.
fn native_bin_json(b: &NativeBin) -> (value: serde_json::Value)
    ensures
        json_of(value) == native_bin_model(*b),
{
    let mut fields = no_fields();
    put_number(&mut fields, "bin", b.bin);
    put_number(&mut fields, "instructions", b.instructions);
    put_number(&mut fields, "linked_transfers_class", b.linked_transfers_class);
    put_flag(&mut fields, "self_loop", b.self_loop);
    put_number(&mut fields, "count", b.count);
    put_number(&mut fields, "ticks", b.ticks);
    put_number(&mut fields, "instructions_sum", b.instructions_sum);
    put_number(&mut fields, "linked_transfers_sum", b.linked_transfers_sum);
    object(fields)
}

/// Whether a bin holds any entries.
fn bin_used(b: &NativeBin) -> (used: bool)
    ensures
        used == (b.count != 0),
{
    b.count != 0
}

/// One lane of the dispatcher.
pub struct EntryLane {
    pub lane: String,
    pub phases: Vec<EntryPhase>,
    pub totals: Vec<EntryTotal>,
    pub refusal_site: Vec<EntrySite>,
    pub compile_site: Vec<EntrySite>,
    pub fallback_tags: Vec<(String, u64)>,
    pub native_bins: Vec<NativeBin>,
}

/// One lane, the `index`-th. Places of refusal and bins that were never reached
/// are left out.
pub open spec fn entry_lane_model(lane: EntryLane, index: int, above: Seq<u64>) -> JsonModel {
    JsonModel::Obj(
        map![
            "lane"@ => JsonModel::Str(lane.lane@),
            "lane_index"@ => JsonModel::Num(index),
            "phases"@ => JsonModel::Arr(
                lane.phases@.map_values(|p: EntryPhase| entry_phase_model(p)),
            ),
            "totals"@ => JsonModel::Arr(
                lane.totals@.map_values(|t: EntryTotal| entry_total_model(t)),
            ),
            "refusal_site"@ => JsonModel::Arr(refusal_sites_model(lane.refusal_site@, above)),
            "compile_site"@ => JsonModel::Arr(
                lane.compile_site@.map_values(|site: EntrySite| compile_site_model(site)),
            ),
            "fallback_tags"@ => labelled_model(lane.fallback_tags@, "tag"@, "count"@),
            "native_bins"@ => JsonModel::Arr(
                lane.native_bins@.filter(|b: NativeBin| b.count != 0).map_values(
                    |b: NativeBin| native_bin_model(b),
                ),
            ),
        ],
    )
}

/// One lane as an object.
fn entry_lane_json(lane: &EntryLane, index: usize, above: &Vec<u64>) -> (value: serde_json::Value)
    ensures
        json_of(value) == entry_lane_model(*lane, index as int, above@),
{
    let mut fields = no_fields();
    put_text(&mut fields, "lane", lane.lane.as_str());
    put_number(&mut fields, "lane_index", index as u64);
    put(
        &mut fields,
        "phases",
        rows(&lane.phases, entry_phase_json, Ghost(|p: EntryPhase| entry_phase_model(p))),
    );
    put(
        &mut fields,
        "totals",
        rows(&lane.totals, entry_total_json, Ghost(|t: EntryTotal| entry_total_model(t))),
    );
    put(&mut fields, "refusal_site", refusal_sites_json(&lane.refusal_site, above));
    put(
        &mut fields,
        "compile_site",
        rows(
            &lane.compile_site,
            compile_site_json,
            Ghost(|site: EntrySite| compile_site_model(site)),
        ),
    );
    put(&mut fields, "fallback_tags", labelled(&lane.fallback_tags, "tag", "count"));
    put(
        &mut fields,
        "native_bins",
        rows_where(
            &lane.native_bins,
            bin_used,
            native_bin_json,
            Ghost(|b: NativeBin| b.count != 0),
            Ghost(|b: NativeBin| native_bin_model(b)),
        ),
    );
    object(fields)
}

/// The entry attribution of a run. The resolution is a ready JSON number.
pub struct DirectEntryAttributionSnapshot {
    pub arm: String,
    pub sample_n: u64,
    pub overhead_ticks: u64,
    pub calibration_bracket_ticks: u64,
    pub calibration_mark_ticks: u64,
    pub resolution_floor_ns: serde_json::Value,
    pub tsc_hz: u64,
    pub outlier_clamp_ticks: u64,
    pub outlier_ticks: u64,
    pub outlier_marks: u64,
    pub lane_pin_mismatches: u64,
    pub p0_mark_line: u64,
    /// The places of refusal that lie before the first mark.
    pub pre_p0_refusal_sites: Vec<u64>,
    pub phase_names: Vec<String>,
    pub lane_names: Vec<String>,
    pub population_names: Vec<String>,
    pub lanes: Vec<EntryLane>,
}

/// What [`direct_entry_attribution_json`] gives.
pub open spec fn direct_entry_attribution_model(
    snapshot: Option<DirectEntryAttributionSnapshot>,
    decode_pack_late_view_miss: u64,
) -> JsonModel {
    match snapshot {
        None => JsonModel::Null,
        Some(s) => JsonModel::Obj(
            map![
                "arm"@ => JsonModel::Str(s.arm@),
                "sample_n"@ => JsonModel::Num(s.sample_n as int),
                "overhead_ticks"@ => JsonModel::Num(s.overhead_ticks as int),
                "calibration_bracket_ticks"@ => JsonModel::Num(s.calibration_bracket_ticks as int),
                "calibration_mark_ticks"@ => JsonModel::Num(s.calibration_mark_ticks as int),
                "resolution_floor_ns"@ => json_of(s.resolution_floor_ns),
                "tsc_hz"@ => JsonModel::Num(s.tsc_hz as int),
                "outlier_clamp_ticks"@ => JsonModel::Num(s.outlier_clamp_ticks as int),
                "outlier_ticks"@ => JsonModel::Num(s.outlier_ticks as int),
                "outlier_marks"@ => JsonModel::Num(s.outlier_marks as int),
                "lane_pin_mismatches"@ => JsonModel::Num(s.lane_pin_mismatches as int),
                "decode_pack_late_view_miss"@ => JsonModel::Num(decode_pack_late_view_miss as int),
                "p0_mark_line"@ => JsonModel::Num(s.p0_mark_line as int),
                "phase_names"@ => text_array(s.phase_names@),
                "lane_names"@ => text_array(s.lane_names@),
                "population_names"@ => text_array(s.population_names@),
                "lanes"@ => JsonModel::Arr(
                    Seq::new(
                        s.lanes@.len(),
                        |i: int| entry_lane_model(s.lanes@[i], i, s.pre_p0_refusal_sites@),
                    ),
                ),
            ],
        ),
    }
}

/// The entry attribution, or `null` where none was kept.
pub fn direct_entry_attribution_json(
    snapshot: &Option<DirectEntryAttributionSnapshot>,
    decode_pack_late_view_miss: u64,
) -> (value: serde_json::Value)
    ensures
        json_of(value) == direct_entry_attribution_model(*snapshot, decode_pack_late_view_miss),
{
    match snapshot {
        None => null(),
        Some(s) => {
            let mut lanes: Vec<serde_json::Value> = Vec::new();
            let mut i: usize = 0;
            while i < s.lanes.len()
                invariant
                    i <= s.lanes@.len(),
                    lanes@.len() == i,
                    forall|k: int|
                        0 <= k < i ==> json_of(#[trigger] lanes@[k]) == entry_lane_model(
                            s.lanes@[k],
                            k,
                            s.pre_p0_refusal_sites@,
                        ),
                decreases s.lanes@.len() - i,
            {
                lanes.push(entry_lane_json(&s.lanes[i], i, &s.pre_p0_refusal_sites));
                i = i + 1;
            }
            proof {
                assert(models(lanes@) =~= Seq::new(
                    s.lanes@.len(),
                    |i: int| entry_lane_model(s.lanes@[i], i, s.pre_p0_refusal_sites@),
                ));
            }
            let mut fields = no_fields();
            put_text(&mut fields, "arm", s.arm.as_str());
            put_number(&mut fields, "sample_n", s.sample_n);
            put_number(&mut fields, "overhead_ticks", s.overhead_ticks);
            put_number(&mut fields, "calibration_bracket_ticks", s.calibration_bracket_ticks);
            put_number(&mut fields, "calibration_mark_ticks", s.calibration_mark_ticks);
            put(&mut fields, "resolution_floor_ns", same(&s.resolution_floor_ns));
            put_number(&mut fields, "tsc_hz", s.tsc_hz);
            put_number(&mut fields, "outlier_clamp_ticks", s.outlier_clamp_ticks);
            put_number(&mut fields, "outlier_ticks", s.outlier_ticks);
            put_number(&mut fields, "outlier_marks", s.outlier_marks);
            put_number(&mut fields, "lane_pin_mismatches", s.lane_pin_mismatches);
            put_number(&mut fields, "decode_pack_late_view_miss", decode_pack_late_view_miss);
            put_number(&mut fields, "p0_mark_line", s.p0_mark_line);
            put(&mut fields, "phase_names", texts(&s.phase_names));
            put(&mut fields, "lane_names", texts(&s.lane_names));
            put(&mut fields, "population_names", texts(&s.population_names));
            put(&mut fields, "lanes", array(lanes));
            object(fields)
        },
    }
}

// ---------------------------------------------------------------------------
// By key
// ---------------------------------------------------------------------------

/// Looked up by its key, every entry of the object is the figure that the key names.
pub proof fn law_entry_phase_by_key(p: EntryPhase)
    ensures
        text_under(entry_phase_model(p), "phase"@) == Some(p.phase@),
        number_under(entry_phase_model(p), "ticks_raw"@) == Some(p.ticks_raw as int),
        number_under(entry_phase_model(p), "marks"@) == Some(p.marks as int),
        under(entry_phase_model(p), "ticks_corrected"@) == Some(json_of(p.ticks_corrected)),
        under(entry_phase_model(p), "ns"@) == Some(json_of(p.ns)),
        under(entry_phase_model(p), "ns_per_mark"@) == Some(json_of(p.ns_per_mark)),
        flag_under(entry_phase_model(p), "below_resolution"@)
            == Some(p.marks > 0 && p.within_floor),
{
    reveal_strlit("phase");
    assert("phase"@.len() == 5 && "phase"@[0] == 'p');
    reveal_strlit("ticks_raw");
    assert("ticks_raw"@.len() == 9 && "ticks_raw"@[0] == 't');
    reveal_strlit("marks");
    assert("marks"@.len() == 5 && "marks"@[0] == 'm');
    reveal_strlit("ticks_corrected");
    assert("ticks_corrected"@.len() == 15 && "ticks_corrected"@[0] == 't');
    reveal_strlit("ns");
    assert("ns"@.len() == 2 && "ns"@[0] == 'n');
    reveal_strlit("ns_per_mark");
    assert("ns_per_mark"@.len() == 11 && "ns_per_mark"@[0] == 'n');
    reveal_strlit("below_resolution");
    assert("below_resolution"@.len() == 16 && "below_resolution"@[0] == 'b');
}

/// Looked up by its key, every entry of the object is the figure that the key names.
pub proof fn law_entry_total_by_key(t: EntryTotal)
    ensures
        text_under(entry_total_model(t), "population"@) == Some(t.population@),
        number_under(entry_total_model(t), "ticks"@) == Some(t.ticks as int),
        under(entry_total_model(t), "ns"@) == Some(json_of(t.ns)),
        number_under(entry_total_model(t), "ends"@) == Some(t.ends as int),
{
    reveal_strlit("population");
    assert("population"@.len() == 10);
    reveal_strlit("ticks");
    assert("ticks"@.len() == 5);
    reveal_strlit("ns");
    assert("ns"@.len() == 2);
    reveal_strlit("ends");
    assert("ends"@.len() == 4);
}

/// Looked up by its key, every entry of the object is the figure that the key names.
pub proof fn law_refusal_site_by_key(site: EntrySite, above: Seq<u64>)
    ensures
        number_under(refusal_site_model(site, above), "index"@) == Some(site.index as int),
        text_under(refusal_site_model(site, above), "site"@) == Some(site.site@),
        number_under(refusal_site_model(site, above), "run_rs_line"@)
            == Some(site.run_rs_line as int),
        number_under(refusal_site_model(site, above), "count"@) == Some(site.count as int),
        flag_under(refusal_site_model(site, above), "above_p0_mark"@)
            == Some(above.contains(site.index)),
{
    reveal_strlit("index");
    assert("index"@.len() == 5 && "index"@[0] == 'i');
    reveal_strlit("site");
    assert("site"@.len() == 4 && "site"@[0] == 's');
    reveal_strlit("run_rs_line");
    assert("run_rs_line"@.len() == 11 && "run_rs_line"@[0] == 'r');
    reveal_strlit("count");
    assert("count"@.len() == 5 && "count"@[0] == 'c');
    reveal_strlit("above_p0_mark");
    assert("above_p0_mark"@.len() == 13 && "above_p0_mark"@[0] == 'a');
}

/// Looked up by its key, every entry of the object is the figure that the key names.
pub proof fn law_compile_site_by_key(site: EntrySite)
    ensures
        number_under(compile_site_model(site), "index"@) == Some(site.index as int),
        text_under(compile_site_model(site), "site"@) == Some(site.site@),
        number_under(compile_site_model(site), "run_rs_line"@) == Some(site.run_rs_line as int),
        number_under(compile_site_model(site), "count"@) == Some(site.count as int),
{
    reveal_strlit("index");
    assert("index"@.len() == 5 && "index"@[0] == 'i');
    reveal_strlit("site");
    assert("site"@.len() == 4 && "site"@[0] == 's');
    reveal_strlit("run_rs_line");
    assert("run_rs_line"@.len() == 11 && "run_rs_line"@[0] == 'r');
    reveal_strlit("count");
    assert("count"@.len() == 5 && "count"@[0] == 'c');
}

/// Looked up by its key, every entry of the object is the figure that the key names.
pub proof fn law_native_bin_by_key(b: NativeBin)
    ensures
        number_under(native_bin_model(b), "bin"@) == Some(b.bin as int),
        number_under(native_bin_model(b), "instructions"@) == Some(b.instructions as int),
        number_under(native_bin_model(b), "linked_transfers_class"@)
            == Some(b.linked_transfers_class as int),
        flag_under(native_bin_model(b), "self_loop"@) == Some(b.self_loop),
        number_under(native_bin_model(b), "count"@) == Some(b.count as int),
        number_under(native_bin_model(b), "ticks"@) == Some(b.ticks as int),
        number_under(native_bin_model(b), "instructions_sum"@) == Some(b.instructions_sum as int),
        number_under(native_bin_model(b), "linked_transfers_sum"@)
            == Some(b.linked_transfers_sum as int),
{
    reveal_strlit("bin");
    assert("bin"@.len() == 3 && "bin"@[0] == 'b');
    reveal_strlit("instructions");
    assert("instructions"@.len() == 12 && "instructions"@[0] == 'i');
    reveal_strlit("linked_transfers_class");
    assert("linked_transfers_class"@.len() == 22 && "linked_transfers_class"@[0] == 'l');
    reveal_strlit("self_loop");
    assert("self_loop"@.len() == 9 && "self_loop"@[0] == 's');
    reveal_strlit("count");
    assert("count"@.len() == 5 && "count"@[0] == 'c');
    reveal_strlit("ticks");
    assert("ticks"@.len() == 5 && "ticks"@[0] == 't');
    reveal_strlit("instructions_sum");
    assert("instructions_sum"@.len() == 16 && "instructions_sum"@[0] == 'i');
    reveal_strlit("linked_transfers_sum");
    assert("linked_transfers_sum"@.len() == 20 && "linked_transfers_sum"@[0] == 'l');
}

/// Looked up by its key, every entry of the object is the figure that the key names.
pub proof fn law_entry_lane_by_key(lane: EntryLane, index: int, above: Seq<u64>)
    ensures
        text_under(entry_lane_model(lane, index, above), "lane"@) == Some(lane.lane@),
        number_under(entry_lane_model(lane, index, above), "lane_index"@) == Some(index),
        under(entry_lane_model(lane, index, above), "phases"@)
            == Some(JsonModel::Arr( lane.phases@.map_values(|p: EntryPhase| entry_phase_model(p)), )),
        under(entry_lane_model(lane, index, above), "totals"@)
            == Some(JsonModel::Arr( lane.totals@.map_values(|t: EntryTotal| entry_total_model(t)), )),
        under(entry_lane_model(lane, index, above), "refusal_site"@)
            == Some(JsonModel::Arr(refusal_sites_model(lane.refusal_site@, above))),
        under(entry_lane_model(lane, index, above), "compile_site"@)
            == Some(JsonModel::Arr( lane.compile_site@.map_values(|site: EntrySite| compile_site_model(site)), )),
        under(entry_lane_model(lane, index, above), "fallback_tags"@)
            == Some(labelled_model(lane.fallback_tags@, "tag"@, "count"@)),
        under(entry_lane_model(lane, index, above), "native_bins"@)
            == Some(JsonModel::Arr( lane.native_bins@.filter(|b: NativeBin| b.count != 0).map_values( |b: NativeBin| native_bin_model(b), ), )),
{
    reveal_strlit("lane");
    assert("lane"@.len() == 4 && "lane"@[0] == 'l');
    reveal_strlit("lane_index");
    assert("lane_index"@.len() == 10 && "lane_index"@[0] == 'l');
    reveal_strlit("phases");
    assert("phases"@.len() == 6 && "phases"@[0] == 'p');
    reveal_strlit("totals");
    assert("totals"@.len() == 6 && "totals"@[0] == 't');
    reveal_strlit("refusal_site");
    assert("refusal_site"@.len() == 12 && "refusal_site"@[0] == 'r');
    reveal_strlit("compile_site");
    assert("compile_site"@.len() == 12 && "compile_site"@[0] == 'c');
    reveal_strlit("fallback_tags");
    assert("fallback_tags"@.len() == 13 && "fallback_tags"@[0] == 'f');
    reveal_strlit("native_bins");
    assert("native_bins"@.len() == 11 && "native_bins"@[0] == 'n');
}

/// Looked up by its key, every entry of the object is the figure that the key names.
pub proof fn law_direct_entry_attribution_by_key(s: DirectEntryAttributionSnapshot, decode_pack_late_view_miss: u64)
    ensures
        text_under(direct_entry_attribution_model(Some(s), decode_pack_late_view_miss), "arm"@)
            == Some(s.arm@),
        number_under(direct_entry_attribution_model(Some(s), decode_pack_late_view_miss), "sample_n"@)
            == Some(s.sample_n as int),
        number_under(direct_entry_attribution_model(Some(s), decode_pack_late_view_miss), "overhead_ticks"@)
            == Some(s.overhead_ticks as int),
        number_under(direct_entry_attribution_model(Some(s), decode_pack_late_view_miss), "calibration_bracket_ticks"@)
            == Some(s.calibration_bracket_ticks as int),
        number_under(direct_entry_attribution_model(Some(s), decode_pack_late_view_miss), "calibration_mark_ticks"@)
            == Some(s.calibration_mark_ticks as int),
        under(direct_entry_attribution_model(Some(s), decode_pack_late_view_miss), "resolution_floor_ns"@)
            == Some(json_of(s.resolution_floor_ns)),
        number_under(direct_entry_attribution_model(Some(s), decode_pack_late_view_miss), "tsc_hz"@)
            == Some(s.tsc_hz as int),
        number_under(direct_entry_attribution_model(Some(s), decode_pack_late_view_miss), "outlier_clamp_ticks"@)
            == Some(s.outlier_clamp_ticks as int),
        number_under(direct_entry_attribution_model(Some(s), decode_pack_late_view_miss), "outlier_ticks"@)
            == Some(s.outlier_ticks as int),
        number_under(direct_entry_attribution_model(Some(s), decode_pack_late_view_miss), "outlier_marks"@)
            == Some(s.outlier_marks as int),
        number_under(direct_entry_attribution_model(Some(s), decode_pack_late_view_miss), "lane_pin_mismatches"@)
            == Some(s.lane_pin_mismatches as int),
        number_under(direct_entry_attribution_model(Some(s), decode_pack_late_view_miss), "decode_pack_late_view_miss"@)
            == Some(decode_pack_late_view_miss as int),
        number_under(direct_entry_attribution_model(Some(s), decode_pack_late_view_miss), "p0_mark_line"@)
            == Some(s.p0_mark_line as int),
        under(direct_entry_attribution_model(Some(s), decode_pack_late_view_miss), "phase_names"@)
            == Some(text_array(s.phase_names@)),
        under(direct_entry_attribution_model(Some(s), decode_pack_late_view_miss), "lane_names"@)
            == Some(text_array(s.lane_names@)),
        under(direct_entry_attribution_model(Some(s), decode_pack_late_view_miss), "population_names"@)
            == Some(text_array(s.population_names@)),
        under(direct_entry_attribution_model(Some(s), decode_pack_late_view_miss), "lanes"@)
            == Some(JsonModel::Arr( Seq::new( s.lanes@.len(), |i: int| entry_lane_model(s.lanes@[i], i, s.pre_p0_refusal_sites@), ), )),
{
    reveal_strlit("arm");
    assert("arm"@.len() == 3);
    reveal_strlit("sample_n");
    assert("sample_n"@.len() == 8);
    reveal_strlit("overhead_ticks");
    assert("overhead_ticks"@.len() == 14 && "overhead_ticks"@[8] == '_');
    reveal_strlit("calibration_bracket_ticks");
    assert("calibration_bracket_ticks"@.len() == 25 && "calibration_bracket_ticks"@[8] == 'i');
    reveal_strlit("calibration_mark_ticks");
    assert("calibration_mark_ticks"@.len() == 22 && "calibration_mark_ticks"@[8] == 'i');
    reveal_strlit("resolution_floor_ns");
    assert("resolution_floor_ns"@.len() == 19 && "resolution_floor_ns"@[8] == 'o');
    reveal_strlit("tsc_hz");
    assert("tsc_hz"@.len() == 6);
    reveal_strlit("outlier_clamp_ticks");
    assert("outlier_clamp_ticks"@.len() == 19 && "outlier_clamp_ticks"@[8] == 'c');
    reveal_strlit("outlier_ticks");
    assert("outlier_ticks"@.len() == 13 && "outlier_ticks"@[8] == 't');
    reveal_strlit("outlier_marks");
    assert("outlier_marks"@.len() == 13 && "outlier_marks"@[8] == 'm');
    reveal_strlit("lane_pin_mismatches");
    assert("lane_pin_mismatches"@.len() == 19 && "lane_pin_mismatches"@[8] == '_');
    reveal_strlit("decode_pack_late_view_miss");
    assert("decode_pack_late_view_miss"@.len() == 26 && "decode_pack_late_view_miss"@[8] == 'a');
    reveal_strlit("p0_mark_line");
    assert("p0_mark_line"@.len() == 12 && "p0_mark_line"@[8] == 'l');
    reveal_strlit("phase_names");
    assert("phase_names"@.len() == 11 && "phase_names"@[8] == 'm');
    reveal_strlit("lane_names");
    assert("lane_names"@.len() == 10 && "lane_names"@[8] == 'e');
    reveal_strlit("population_names");
    assert("population_names"@.len() == 16 && "population_names"@[8] == 'o');
    reveal_strlit("lanes");
    assert("lanes"@.len() == 5);
}

} // verus!
