//! What stopped direct blocks: the barrier census.

use vstd::prelude::*;

use crate::json::{
    labelled, no_fields, null, object, opt_number, put, put_flag, put_number, put_text, rows,
};
#[allow(unused_imports)]
use crate::json::{fields_of, json_of, labelled_model, opt_num, JsonModel};
use crate::text::prefixed_hex_text;
#[allow(unused_imports)]
use crate::text::prefixed_hex;
use crate::text::same_text;
#[allow(unused_imports)]
use crate::json::{flag_under, number_under, text_under, under};

verus! {

/// One instruction form that ended direct blocks.
#[derive(Debug, Default)]
pub struct DirectBarrierCensusRow {
    pub opcode: u64,
    pub unbound_exits: u64,
    pub dynamic_unbound_exits: u64,
    pub stop_reason: String,
    pub modrm_reg: Option<u64>,
    pub operand_form: String,
    pub operand_size: u64,
    pub address_size: u64,
    pub prefix_mask: u64,
    pub hits: u64,
    pub runtime_hits: u64,
    pub native_prefix_instructions: u64,
    pub native_suffix_instructions: u64,
    pub max_native_prefix: u64,
    pub max_native_suffix: u64,
    pub port: Option<u64>,
}

/// What [`direct_barrier_census_row_json`] gives.
pub open spec fn direct_barrier_census_row_model(row: DirectBarrierCensusRow) -> JsonModel {
    JsonModel::Obj(
        map![
            "opcode"@ => JsonModel::Num(row.opcode as int),
            "unbound_exits"@ => JsonModel::Num(row.unbound_exits as int),
            "dynamic_unbound_exits"@ => JsonModel::Num(row.dynamic_unbound_exits as int),
            "stop_reason"@ => JsonModel::Str(row.stop_reason@),
            "modrm_reg"@ => opt_num(row.modrm_reg),
            "operand_form"@ => JsonModel::Str(row.operand_form@),
            "operand_size"@ => JsonModel::Num(row.operand_size as int),
            "address_size"@ => JsonModel::Num(row.address_size as int),
            "prefix_mask"@ => JsonModel::Num(row.prefix_mask as int),
            "hits"@ => JsonModel::Num(row.hits as int),
            "runtime_hits"@ => JsonModel::Num(row.runtime_hits as int),
            "native_prefix_instructions"@ => JsonModel::Num(row.native_prefix_instructions as int),
            "native_suffix_instructions"@ => JsonModel::Num(row.native_suffix_instructions as int),
            "max_native_prefix"@ => JsonModel::Num(row.max_native_prefix as int),
            "max_native_suffix"@ => JsonModel::Num(row.max_native_suffix as int),
            "port"@ => opt_num(row.port),
        ],
    )
}

/// One instruction form as an object.
pub fn direct_barrier_census_row_json(row: &DirectBarrierCensusRow) -> (value: serde_json::Value)
    ensures
        json_of(value) == direct_barrier_census_row_model(*row),
{
    let mut fields = no_fields();
    put_number(&mut fields, "opcode", row.opcode);
    put_number(&mut fields, "unbound_exits", row.unbound_exits);
    put_number(&mut fields, "dynamic_unbound_exits", row.dynamic_unbound_exits);
    put_text(&mut fields, "stop_reason", row.stop_reason.as_str());
    put(&mut fields, "modrm_reg", opt_number(row.modrm_reg));
    put_text(&mut fields, "operand_form", row.operand_form.as_str());
    put_number(&mut fields, "operand_size", row.operand_size);
    put_number(&mut fields, "address_size", row.address_size);
    put_number(&mut fields, "prefix_mask", row.prefix_mask);
    put_number(&mut fields, "hits", row.hits);
    put_number(&mut fields, "runtime_hits", row.runtime_hits);
    put_number(&mut fields, "native_prefix_instructions", row.native_prefix_instructions);
    put_number(&mut fields, "native_suffix_instructions", row.native_suffix_instructions);
    put_number(&mut fields, "max_native_prefix", row.max_native_prefix);
    put_number(&mut fields, "max_native_suffix", row.max_native_suffix);
    put(&mut fields, "port", opt_number(row.port));
    object(fields)
}

/// One guest address that exits ended at.
#[derive(Clone, Copy, Debug, Default)]
pub struct BarrierSite {
    pub linear: u32,
    pub static_exits: u64,
    pub dynamic_exits: u64,
    pub compile_walked: bool,
    pub imm_lane_matched: bool,
    pub disp_lane_matched: bool,
}

/// What [`barrier_site_json`] gives.
pub open spec fn barrier_site_model(site: BarrierSite) -> JsonModel {
    JsonModel::Obj(
        map![
            "linear"@ => JsonModel::Str(prefixed_hex(site.linear as nat, 8, true)),
            "static_exits"@ => JsonModel::Num(site.static_exits as int),
            "dynamic_exits"@ => JsonModel::Num(site.dynamic_exits as int),
            "compile_walked"@ => JsonModel::Bool(site.compile_walked),
            "imm_lane_matched"@ => JsonModel::Bool(site.imm_lane_matched),
            "disp_lane_matched"@ => JsonModel::Bool(site.disp_lane_matched),
        ],
    )
}

/// One address with its lane matches, as an object.
fn barrier_site_json(site: &BarrierSite) -> (value: serde_json::Value)
    ensures
        json_of(value) == barrier_site_model(*site),
{
    let mut fields = no_fields();
    put_text(&mut fields, "linear", prefixed_hex_text(site.linear as u64, 8, true).as_str());
    put_number(&mut fields, "static_exits", site.static_exits);
    put_number(&mut fields, "dynamic_exits", site.dynamic_exits);
    put_flag(&mut fields, "compile_walked", site.compile_walked);
    put_flag(&mut fields, "imm_lane_matched", site.imm_lane_matched);
    put_flag(&mut fields, "disp_lane_matched", site.disp_lane_matched);
    object(fields)
}

/// What [`absent_site_json`] gives.
pub open spec fn absent_site_model(site: BarrierSite) -> JsonModel {
    JsonModel::Obj(
        map![
            "linear"@ => JsonModel::Str(prefixed_hex(site.linear as nat, 8, true)),
            "static_exits"@ => JsonModel::Num(site.static_exits as int),
            "dynamic_exits"@ => JsonModel::Num(site.dynamic_exits as int),
            "compile_walked"@ => JsonModel::Bool(site.compile_walked),
        ],
    )
}

/// One address without lane matches, as an object.
fn absent_site_json(site: &BarrierSite) -> (value: serde_json::Value)
    ensures
        json_of(value) == absent_site_model(*site),
{
    let mut fields = no_fields();
    put_text(&mut fields, "linear", prefixed_hex_text(site.linear as u64, 8, true).as_str());
    put_number(&mut fields, "static_exits", site.static_exits);
    put_number(&mut fields, "dynamic_exits", site.dynamic_exits);
    put_flag(&mut fields, "compile_walked", site.compile_walked);
    object(fields)
}

/// The busiest addresses of one exit class, and what lies past the end of the table.
#[derive(Debug, Default)]
pub struct SiteTable {
    pub sites: Vec<BarrierSite>,
    pub truncated_static: u64,
    pub truncated_dynamic: u64,
    pub distinct_sites: u64,
}

/// What a closing census keeps beside the rows.
#[derive(Debug, Default)]
pub struct BarrierClosure {
    pub classified_static: u64,
    pub static_unbound_exits: u64,
    pub classified_dynamic: u64,
    pub dynamic_miss_exits: u64,
    pub rejected_unattributed: u64,
    pub dynamic_rejected_unattributed: u64,
    pub rejected_barrier_overwrites: u64,
    pub walked_entries_run_wide: u64,
    pub dormant_heat: SiteTable,
    pub rejected: SiteTable,
    pub absent: SiteTable,
}

/// One address that declined admission over its stack width.
#[derive(Debug, Default)]
pub struct StackWidthSite {
    pub linear: u32,
    pub reason: String,
    pub count: u64,
}

/// What [`stack_width_site_json`] gives.
pub open spec fn stack_width_site_model(site: StackWidthSite) -> JsonModel {
    JsonModel::Obj(
        map![
            "linear"@ => JsonModel::Str(prefixed_hex(site.linear as nat, 8, true)),
            "reason"@ => JsonModel::Str(site.reason@),
            "count"@ => JsonModel::Num(site.count as int),
        ],
    )
}

/// One declining address as an object.
fn stack_width_site_json(site: &StackWidthSite) -> (value: serde_json::Value)
    ensures
        json_of(value) == stack_width_site_model(*site),
{
    let mut fields = no_fields();
    put_text(&mut fields, "linear", prefixed_hex_text(site.linear as u64, 8, true).as_str());
    put_text(&mut fields, "reason", site.reason.as_str());
    put_number(&mut fields, "count", site.count);
    object(fields)
}

/// What an admission census keeps beside the rows.
#[derive(Debug, Default)]
pub struct AdmissionCensus {
    pub admission_declines: Vec<(String, u64)>,
    pub stack_width_declines: Vec<(String, u64)>,
    pub stack_width_decline_distinct_sites: u64,
    pub stack_width_decline_sites: Vec<StackWidthSite>,
}

/// The barrier census of a run.
#[derive(Debug, Default)]
pub struct DirectBarrierCensusSnapshot {
    pub rows: Vec<DirectBarrierCensusRow>,
    /// Exits through a static link, by what the target was.
    pub unbound_targets: Vec<(String, u64)>,
    /// Exits through a dynamic lookup, by what the target was.
    pub dynamic_miss_targets: Vec<(String, u64)>,
    /// Present where the build closes the census against the exit counters.
    pub closure: Option<BarrierClosure>,
    /// Present where the build keeps an admission census.
    pub admission: Option<AdmissionCensus>,
}

// ---------------------------------------------------------------------------
// Site tables
// ---------------------------------------------------------------------------

/// The count under the first entry labelled `want`; none where there is no such entry.
pub open spec fn class_count(targets: Seq<(String, u64)>, want: Seq<char>) -> u64
    decreases targets.len(),
{
    if targets.len() == 0 {
        0
    } else if targets[0].0@ == want {
        targets[0].1
    } else {
        class_count(targets.drop_first(), want)
    }
}

/// The count under the first entry labelled `want`.
fn class_of(targets: &Vec<(String, u64)>, want: &str) -> (count: u64)
    ensures
        count == class_count(targets@, want@),
{
    let mut i: usize = 0;
    assert(targets@.skip(0) =~= targets@);
    while i < targets.len()
        invariant
            i <= targets@.len(),
            class_count(targets@, want@) == class_count(targets@.skip(i as int), want@),
        decreases targets@.len() - i,
    {
        assert(targets@.skip(i as int).drop_first() =~= targets@.skip(i + 1));
        assert(targets@.skip(i as int)[0] == targets@[i as int]);
        if same_text(targets[i].0.as_str(), want) {
            return targets[i].1;
        }
        i = i + 1;
    }
    0
}

/// The static exits at the addresses of a table.
pub open spec fn static_head(sites: Seq<BarrierSite>) -> int
    decreases sites.len(),
{
    if sites.len() == 0 {
        0
    } else {
        static_head(sites.drop_last()) + sites.last().static_exits
    }
}

/// The dynamic exits at the addresses of a table.
pub open spec fn dynamic_head(sites: Seq<BarrierSite>) -> int
    decreases sites.len(),
{
    if sites.len() == 0 {
        0
    } else {
        dynamic_head(sites.drop_last()) + sites.last().dynamic_exits
    }
}

/// A table's exits, with what lies past its end, can be counted in 64 bits.
pub open spec fn table_fits(table: SiteTable) -> bool {
    &&& static_head(table.sites@) + table.truncated_static <= u64::MAX
    &&& dynamic_head(table.sites@) + table.truncated_dynamic <= u64::MAX
}

/// A prefix of the addresses has no more exits than all of them.
proof fn lemma_heads_grow(sites: Seq<BarrierSite>, n: int)
    requires
        0 <= n <= sites.len(),
    ensures
        0 <= static_head(sites.take(n)) <= static_head(sites),
        0 <= dynamic_head(sites.take(n)) <= dynamic_head(sites),
    decreases sites.len(),
{
    if n == sites.len() {
        assert(sites.take(n) =~= sites);
        if n > 0 {
            lemma_heads_grow(sites.drop_last(), n - 1);
            assert(sites.drop_last().take(n - 1) =~= sites.drop_last());
        }
    } else {
        lemma_heads_grow(sites.drop_last(), n);
        assert(sites.drop_last().take(n) =~= sites.take(n));
    }
}

/// The sums of a table, or `None` where one of them does not fit.
fn table_heads(table: &SiteTable) -> (heads: Option<(u64, u64)>)
    ensures
        heads is Some <==> table_fits(*table),
        heads matches Some(h) ==> h.0 == static_head(table.sites@) && h.1 == dynamic_head(
            table.sites@,
        ),
{
    let mut statics: u64 = 0;
    let mut dynamics: u64 = 0;
    let mut i: usize = 0;
    assert(table.sites@.take(0) =~= Seq::empty());
    while i < table.sites.len()
        invariant
            i <= table.sites@.len(),
            statics == static_head(table.sites@.take(i as int)),
            dynamics == dynamic_head(table.sites@.take(i as int)),
        decreases table.sites@.len() - i,
    {
        proof {
            assert(table.sites@.take(i + 1).drop_last() =~= table.sites@.take(i as int));
            lemma_heads_grow(table.sites@, i + 1);
        }
        match (
            statics.checked_add(table.sites[i].static_exits),
            dynamics.checked_add(table.sites[i].dynamic_exits),
        ) {
            (Some(s), Some(d)) => {
                statics = s;
                dynamics = d;
            },
            _ => return None,
        }
        i = i + 1;
    }
    assert(table.sites@.take(table.sites@.len() as int) =~= table.sites@);
    if statics.checked_add(table.truncated_static).is_none() || dynamics.checked_add(
        table.truncated_dynamic,
    ).is_none() {
        return None;
    }
    Some((statics, dynamics))
}

/// `whole` less `part`, or nothing where `part` is larger.
pub open spec fn shortfall(whole: int, part: int) -> int {
    if whole >= part {
        whole - part
    } else {
        0
    }
}

/// The sums of one site table against its class: what the table holds, what lies
/// past its end, and what neither accounts for.
pub open spec fn site_sums(
    table: SiteTable,
    class_static: u64,
    class_dynamic: u64,
) -> Map<Seq<char>, JsonModel> {
    map![
        "class_static"@ => JsonModel::Num(class_static as int),
        "class_dynamic"@ => JsonModel::Num(class_dynamic as int),
        "head_static"@ => JsonModel::Num(static_head(table.sites@)),
        "head_dynamic"@ => JsonModel::Num(dynamic_head(table.sites@)),
        "truncated_static"@ => JsonModel::Num(table.truncated_static as int),
        "truncated_dynamic"@ => JsonModel::Num(table.truncated_dynamic as int),
        "unattributed_static"@ => JsonModel::Num(
            shortfall(class_static as int, static_head(table.sites@) + table.truncated_static),
        ),
        "unattributed_dynamic"@ => JsonModel::Num(
            shortfall(class_dynamic as int, dynamic_head(table.sites@) + table.truncated_dynamic),
        ),
        "distinct_sites"@ => JsonModel::Num(table.distinct_sites as int),
    ]
}

/// The sums of one site table as fields.
fn site_sum_fields(table: &SiteTable, class_static: u64, class_dynamic: u64) -> (fields:
    serde_json::Map<String, serde_json::Value>)
    requires
        table_fits(*table),
    ensures
        fields_of(fields) == site_sums(*table, class_static, class_dynamic),
{
    let heads: (u64, u64) = table_heads(table).unwrap();
    proof {
        lemma_heads_grow(table.sites@, 0);
    }
    let mut fields = no_fields();
    put_number(&mut fields, "class_static", class_static);
    put_number(&mut fields, "class_dynamic", class_dynamic);
    put_number(&mut fields, "head_static", heads.0);
    put_number(&mut fields, "head_dynamic", heads.1);
    put_number(&mut fields, "truncated_static", table.truncated_static);
    put_number(&mut fields, "truncated_dynamic", table.truncated_dynamic);
    put_number(
        &mut fields,
        "unattributed_static",
        class_static.saturating_sub(heads.0 + table.truncated_static),
    );
    put_number(
        &mut fields,
        "unattributed_dynamic",
        class_dynamic.saturating_sub(heads.1 + table.truncated_dynamic),
    );
    put_number(&mut fields, "distinct_sites", table.distinct_sites);
    fields
}

// ---------------------------------------------------------------------------
// The census
// ---------------------------------------------------------------------------

/// The closure of the census against the exit counters.
pub open spec fn closure_model(c: BarrierClosure) -> JsonModel {
    JsonModel::Obj(
        map![
            "classified_static"@ => JsonModel::Num(c.classified_static as int),
            "static_unbound_exits"@ => JsonModel::Num(c.static_unbound_exits as int),
            "unattributed_static"@ => JsonModel::Num(
                shortfall(c.static_unbound_exits as int, c.classified_static as int),
            ),
            "classified_dynamic"@ => JsonModel::Num(c.classified_dynamic as int),
            "dynamic_miss_exits"@ => JsonModel::Num(c.dynamic_miss_exits as int),
            "unattributed_dynamic"@ => JsonModel::Num(
                shortfall(c.dynamic_miss_exits as int, c.classified_dynamic as int),
            ),
            "rejected_unattributed"@ => JsonModel::Num(c.rejected_unattributed as int),
            "dynamic_rejected_unattributed"@ => JsonModel::Num(
                c.dynamic_rejected_unattributed as int,
            ),
            "rejected_barrier_overwrites"@ => JsonModel::Num(c.rejected_barrier_overwrites as int),
        ],
    )
}

/// The closure as an object.
fn closure_json(c: &BarrierClosure) -> (value: serde_json::Value)
    ensures
        json_of(value) == closure_model(*c),
{
    let mut fields = no_fields();
    put_number(&mut fields, "classified_static", c.classified_static);
    put_number(&mut fields, "static_unbound_exits", c.static_unbound_exits);
    put_number(
        &mut fields,
        "unattributed_static",
        c.static_unbound_exits.saturating_sub(c.classified_static),
    );
    put_number(&mut fields, "classified_dynamic", c.classified_dynamic);
    put_number(&mut fields, "dynamic_miss_exits", c.dynamic_miss_exits);
    put_number(
        &mut fields,
        "unattributed_dynamic",
        c.dynamic_miss_exits.saturating_sub(c.classified_dynamic),
    );
    put_number(&mut fields, "rejected_unattributed", c.rejected_unattributed);
    put_number(&mut fields, "dynamic_rejected_unattributed", c.dynamic_rejected_unattributed);
    put_number(&mut fields, "rejected_barrier_overwrites", c.rejected_barrier_overwrites);
    object(fields)
}

/// The sums of a census can be counted in 64 bits.
pub open spec fn barrier_census_fits(s: DirectBarrierCensusSnapshot) -> bool {
    s.closure matches Some(c) ==> {
        &&& table_fits(c.dormant_heat)
        &&& table_fits(c.rejected)
        &&& table_fits(c.absent)
    }
}

/// Whether the sums of a census can be counted in 64 bits.
pub fn census_sums_fit(s: &DirectBarrierCensusSnapshot) -> (fit: bool)
    ensures
        fit == barrier_census_fits(*s),
{
    match &s.closure {
        Some(c) => table_heads(&c.dormant_heat).is_some() && table_heads(&c.rejected).is_some()
            && table_heads(&c.absent).is_some(),
        None => true,
    }
}

/// The fields of a census that was kept.
pub open spec fn barrier_census_fields(s: DirectBarrierCensusSnapshot) -> Map<Seq<char>, JsonModel> {
    let rows: Map<Seq<char>, JsonModel> = map![
        "rows"@ => JsonModel::Arr(
            s.rows@.map_values(
                |row: DirectBarrierCensusRow| direct_barrier_census_row_model(row),
            ),
        ),
        "unbound_targets"@ => labelled_model(s.unbound_targets@, "kind"@, "count"@),
        "dynamic_miss_targets"@ => labelled_model(s.dynamic_miss_targets@, "kind"@, "count"@),
    ];
    let closed = match s.closure {
        Some(c) => rows
            .insert("closure"@, closure_model(c))
            .insert("dormant_heat"@, dormant_heat_model(s, c))
            .insert("rejected_sites"@, rejected_sites_model(s, c))
            .insert("absent_sites"@, absent_sites_model(s, c)),
        None => rows,
    };
    match s.admission {
        Some(a) => closed
            .insert("admission_declines"@, labelled_model(a.admission_declines@, "kind"@, "count"@))
            .insert("stack_width_declines"@, stack_width_model(a)),
        None => closed,
    }
}

/// The addresses parked over heat.
pub open spec fn dormant_heat_model(s: DirectBarrierCensusSnapshot, c: BarrierClosure) -> JsonModel {
    JsonModel::Obj(
        site_sums(
            c.dormant_heat,
            class_count(s.unbound_targets@, "dormant_heat"@),
            class_count(s.dynamic_miss_targets@, "dormant_heat"@),
        )
            .insert("walked_entries_run_wide"@, JsonModel::Num(c.walked_entries_run_wide as int))
            .insert(
                "sites"@,
                JsonModel::Arr(
                    c.dormant_heat.sites@.map_values(|site: BarrierSite| barrier_site_model(site)),
                ),
            ),
    )
}

/// The addresses that were rejected.
pub open spec fn rejected_sites_model(s: DirectBarrierCensusSnapshot, c: BarrierClosure) -> JsonModel {
    JsonModel::Obj(
        site_sums(
            c.rejected,
            class_count(s.unbound_targets@, "rejected"@),
            class_count(s.dynamic_miss_targets@, "rejected"@),
        )
            .insert(
                "sites"@,
                JsonModel::Arr(
                    c.rejected.sites@.map_values(|site: BarrierSite| barrier_site_model(site)),
                ),
            ),
    )
}

/// The addresses that had no block.
pub open spec fn absent_sites_model(s: DirectBarrierCensusSnapshot, c: BarrierClosure) -> JsonModel {
    JsonModel::Obj(
        site_sums(
            c.absent,
            class_count(s.unbound_targets@, "absent"@),
            class_count(s.dynamic_miss_targets@, "absent"@),
        )
            .insert(
                "sites"@,
                JsonModel::Arr(
                    c.absent.sites@.map_values(|site: BarrierSite| absent_site_model(site)),
                ),
            ),
    )
}

/// The declines over stack width.
pub open spec fn stack_width_model(a: AdmissionCensus) -> JsonModel {
    JsonModel::Obj(
        map![
            "reasons"@ => labelled_model(a.stack_width_declines@, "kind"@, "count"@),
            "distinct_sites"@ => JsonModel::Num(a.stack_width_decline_distinct_sites as int),
            "sites"@ => JsonModel::Arr(
                a.stack_width_decline_sites@.map_values(
                    |site: StackWidthSite| stack_width_site_model(site),
                ),
            ),
        ],
    )
}

/// The addresses parked over heat, as an object.
fn dormant_heat_json(s: &DirectBarrierCensusSnapshot, c: &BarrierClosure) -> (value:
    serde_json::Value)
    requires
        table_fits(c.dormant_heat),
    ensures
        json_of(value) == dormant_heat_model(*s, *c),
{
    let mut fields = site_sum_fields(
        &c.dormant_heat,
        class_of(&s.unbound_targets, "dormant_heat"),
        class_of(&s.dynamic_miss_targets, "dormant_heat"),
    );
    put_number(&mut fields, "walked_entries_run_wide", c.walked_entries_run_wide);
    put(
        &mut fields,
        "sites",
        rows(
            &c.dormant_heat.sites,
            barrier_site_json,
            Ghost(|site: BarrierSite| barrier_site_model(site)),
        ),
    );
    object(fields)
}

/// The addresses that were rejected, as an object.
fn rejected_sites_json(s: &DirectBarrierCensusSnapshot, c: &BarrierClosure) -> (value:
    serde_json::Value)
    requires
        table_fits(c.rejected),
    ensures
        json_of(value) == rejected_sites_model(*s, *c),
{
    let mut fields = site_sum_fields(
        &c.rejected,
        class_of(&s.unbound_targets, "rejected"),
        class_of(&s.dynamic_miss_targets, "rejected"),
    );
    put(
        &mut fields,
        "sites",
        rows(
            &c.rejected.sites,
            barrier_site_json,
            Ghost(|site: BarrierSite| barrier_site_model(site)),
        ),
    );
    object(fields)
}

/// The addresses that had no block, as an object.
fn absent_sites_json(s: &DirectBarrierCensusSnapshot, c: &BarrierClosure) -> (value:
    serde_json::Value)
    requires
        table_fits(c.absent),
    ensures
        json_of(value) == absent_sites_model(*s, *c),
{
    let mut fields = site_sum_fields(
        &c.absent,
        class_of(&s.unbound_targets, "absent"),
        class_of(&s.dynamic_miss_targets, "absent"),
    );
    put(
        &mut fields,
        "sites",
        rows(&c.absent.sites, absent_site_json, Ghost(|site: BarrierSite| absent_site_model(site))),
    );
    object(fields)
}

/// The declines over stack width, as an object.
fn stack_width_json(a: &AdmissionCensus) -> (value: serde_json::Value)
    ensures
        json_of(value) == stack_width_model(*a),
{
    let mut fields = no_fields();
    put(&mut fields, "reasons", labelled(&a.stack_width_declines, "kind", "count"));
    put_number(&mut fields, "distinct_sites", a.stack_width_decline_distinct_sites);
    put(
        &mut fields,
        "sites",
        rows(
            &a.stack_width_decline_sites,
            stack_width_site_json,
            Ghost(|site: StackWidthSite| stack_width_site_model(site)),
        ),
    );
    object(fields)
}

/// What [`direct_barrier_census_json`] gives: `null` where no census was kept,
/// and no key for a part of it that the build does not keep.
pub open spec fn direct_barrier_census_model(snapshot: Option<DirectBarrierCensusSnapshot>) -> JsonModel {
    match snapshot {
        None => JsonModel::Null,
        Some(s) => JsonModel::Obj(barrier_census_fields(s)),
    }
}

/// The barrier census, or `null` where none was kept.
pub fn direct_barrier_census_json(snapshot: &Option<DirectBarrierCensusSnapshot>) -> (value:
    serde_json::Value)
    requires
        snapshot matches Some(s) ==> barrier_census_fits(*s),
    ensures
        json_of(value) == direct_barrier_census_model(*snapshot),
{
    match snapshot {
        None => null(),
        Some(s) => {
            let mut fields = no_fields();
            put(
                &mut fields,
                "rows",
                rows(
                    &s.rows,
                    direct_barrier_census_row_json,
                    Ghost(|row: DirectBarrierCensusRow| direct_barrier_census_row_model(row)),
                ),
            );
            put(&mut fields, "unbound_targets", labelled(&s.unbound_targets, "kind", "count"));
            put(
                &mut fields,
                "dynamic_miss_targets",
                labelled(&s.dynamic_miss_targets, "kind", "count"),
            );
            if let Some(c) = &s.closure {
                put(&mut fields, "closure", closure_json(c));
                put(&mut fields, "dormant_heat", dormant_heat_json(s, c));
                put(&mut fields, "rejected_sites", rejected_sites_json(s, c));
                put(&mut fields, "absent_sites", absent_sites_json(s, c));
            }
            if let Some(a) = &s.admission {
                put(
                    &mut fields,
                    "admission_declines",
                    labelled(&a.admission_declines, "kind", "count"),
                );
                put(&mut fields, "stack_width_declines", stack_width_json(a));
            }
            object(fields)
        },
    }
}

// ---------------------------------------------------------------------------
// By key
// ---------------------------------------------------------------------------

/// Looked up by its key, every entry of the object is the figure that the key names.
pub proof fn law_direct_barrier_census_row_by_key(row: DirectBarrierCensusRow)
    ensures
        number_under(direct_barrier_census_row_model(row), "opcode"@) == Some(row.opcode as int),
        number_under(direct_barrier_census_row_model(row), "unbound_exits"@)
            == Some(row.unbound_exits as int),
        number_under(direct_barrier_census_row_model(row), "dynamic_unbound_exits"@)
            == Some(row.dynamic_unbound_exits as int),
        text_under(direct_barrier_census_row_model(row), "stop_reason"@) == Some(row.stop_reason@),
        under(direct_barrier_census_row_model(row), "modrm_reg"@) == Some(opt_num(row.modrm_reg)),
        text_under(direct_barrier_census_row_model(row), "operand_form"@)
            == Some(row.operand_form@),
        number_under(direct_barrier_census_row_model(row), "operand_size"@)
            == Some(row.operand_size as int),
        number_under(direct_barrier_census_row_model(row), "address_size"@)
            == Some(row.address_size as int),
        number_under(direct_barrier_census_row_model(row), "prefix_mask"@)
            == Some(row.prefix_mask as int),
        number_under(direct_barrier_census_row_model(row), "hits"@) == Some(row.hits as int),
        number_under(direct_barrier_census_row_model(row), "runtime_hits"@)
            == Some(row.runtime_hits as int),
        number_under(direct_barrier_census_row_model(row), "native_prefix_instructions"@)
            == Some(row.native_prefix_instructions as int),
        number_under(direct_barrier_census_row_model(row), "native_suffix_instructions"@)
            == Some(row.native_suffix_instructions as int),
        number_under(direct_barrier_census_row_model(row), "max_native_prefix"@)
            == Some(row.max_native_prefix as int),
        number_under(direct_barrier_census_row_model(row), "max_native_suffix"@)
            == Some(row.max_native_suffix as int),
        under(direct_barrier_census_row_model(row), "port"@) == Some(opt_num(row.port)),
{
    reveal_strlit("opcode");
    assert("opcode"@.len() == 6 && "opcode"@[0] == 'o');
    reveal_strlit("unbound_exits");
    assert("unbound_exits"@.len() == 13 && "unbound_exits"@[0] == 'u' && "unbound_exits"@[8] == 'e' && "unbound_exits"@[11] == 't');
    reveal_strlit("dynamic_unbound_exits");
    assert("dynamic_unbound_exits"@.len() == 21 && "dynamic_unbound_exits"@[0] == 'd' && "dynamic_unbound_exits"@[8] == 'u' && "dynamic_unbound_exits"@[11] == 'o');
    reveal_strlit("stop_reason");
    assert("stop_reason"@.len() == 11 && "stop_reason"@[0] == 's' && "stop_reason"@[8] == 's');
    reveal_strlit("modrm_reg");
    assert("modrm_reg"@.len() == 9 && "modrm_reg"@[0] == 'm' && "modrm_reg"@[8] == 'g');
    reveal_strlit("operand_form");
    assert("operand_form"@.len() == 12 && "operand_form"@[0] == 'o' && "operand_form"@[8] == 'f' && "operand_form"@[11] == 'm');
    reveal_strlit("operand_size");
    assert("operand_size"@.len() == 12 && "operand_size"@[0] == 'o' && "operand_size"@[8] == 's' && "operand_size"@[11] == 'e');
    reveal_strlit("address_size");
    assert("address_size"@.len() == 12 && "address_size"@[0] == 'a' && "address_size"@[8] == 's' && "address_size"@[11] == 'e');
    reveal_strlit("prefix_mask");
    assert("prefix_mask"@.len() == 11 && "prefix_mask"@[0] == 'p' && "prefix_mask"@[8] == 'a');
    reveal_strlit("hits");
    assert("hits"@.len() == 4 && "hits"@[0] == 'h');
    reveal_strlit("runtime_hits");
    assert("runtime_hits"@.len() == 12 && "runtime_hits"@[0] == 'r' && "runtime_hits"@[8] == 'h' && "runtime_hits"@[11] == 's');
    reveal_strlit("native_prefix_instructions");
    assert("native_prefix_instructions"@.len() == 26 && "native_prefix_instructions"@[0] == 'n' && "native_prefix_instructions"@[8] == 'r' && "native_prefix_instructions"@[11] == 'i');
    reveal_strlit("native_suffix_instructions");
    assert("native_suffix_instructions"@.len() == 26 && "native_suffix_instructions"@[0] == 'n' && "native_suffix_instructions"@[8] == 'u' && "native_suffix_instructions"@[11] == 'i');
    reveal_strlit("max_native_prefix");
    assert("max_native_prefix"@.len() == 17 && "max_native_prefix"@[0] == 'm' && "max_native_prefix"@[8] == 'v' && "max_native_prefix"@[11] == 'p');
    reveal_strlit("max_native_suffix");
    assert("max_native_suffix"@.len() == 17 && "max_native_suffix"@[0] == 'm' && "max_native_suffix"@[8] == 'v' && "max_native_suffix"@[11] == 's');
    reveal_strlit("port");
    assert("port"@.len() == 4 && "port"@[0] == 'p');
}

/// Looked up by its key, every entry of the object is the figure that the key names.
pub proof fn law_barrier_site_by_key(site: BarrierSite)
    ensures
        text_under(barrier_site_model(site), "linear"@)
            == Some(prefixed_hex(site.linear as nat, 8, true)),
        number_under(barrier_site_model(site), "static_exits"@) == Some(site.static_exits as int),
        number_under(barrier_site_model(site), "dynamic_exits"@) == Some(site.dynamic_exits as int),
        flag_under(barrier_site_model(site), "compile_walked"@) == Some(site.compile_walked),
        flag_under(barrier_site_model(site), "imm_lane_matched"@) == Some(site.imm_lane_matched),
        flag_under(barrier_site_model(site), "disp_lane_matched"@) == Some(site.disp_lane_matched),
{
    reveal_strlit("linear");
    assert("linear"@.len() == 6);
    reveal_strlit("static_exits");
    assert("static_exits"@.len() == 12);
    reveal_strlit("dynamic_exits");
    assert("dynamic_exits"@.len() == 13);
    reveal_strlit("compile_walked");
    assert("compile_walked"@.len() == 14);
    reveal_strlit("imm_lane_matched");
    assert("imm_lane_matched"@.len() == 16);
    reveal_strlit("disp_lane_matched");
    assert("disp_lane_matched"@.len() == 17);
}

/// Looked up by its key, every entry of the object is the figure that the key names.
pub proof fn law_absent_site_by_key(site: BarrierSite)
    ensures
        text_under(absent_site_model(site), "linear"@)
            == Some(prefixed_hex(site.linear as nat, 8, true)),
        number_under(absent_site_model(site), "static_exits"@) == Some(site.static_exits as int),
        number_under(absent_site_model(site), "dynamic_exits"@) == Some(site.dynamic_exits as int),
        flag_under(absent_site_model(site), "compile_walked"@) == Some(site.compile_walked),
{
    reveal_strlit("linear");
    assert("linear"@.len() == 6);
    reveal_strlit("static_exits");
    assert("static_exits"@.len() == 12);
    reveal_strlit("dynamic_exits");
    assert("dynamic_exits"@.len() == 13);
    reveal_strlit("compile_walked");
    assert("compile_walked"@.len() == 14);
}

/// Looked up by its key, every entry of the object is the figure that the key names.
pub proof fn law_stack_width_site_by_key(site: StackWidthSite)
    ensures
        text_under(stack_width_site_model(site), "linear"@)
            == Some(prefixed_hex(site.linear as nat, 8, true)),
        text_under(stack_width_site_model(site), "reason"@) == Some(site.reason@),
        number_under(stack_width_site_model(site), "count"@) == Some(site.count as int),
{
    reveal_strlit("linear");
    assert("linear"@.len() == 6 && "linear"@[0] == 'l');
    reveal_strlit("reason");
    assert("reason"@.len() == 6 && "reason"@[0] == 'r');
    reveal_strlit("count");
    assert("count"@.len() == 5 && "count"@[0] == 'c');
}

/// Looked up by its key, every entry of the object is the figure that the key names.
pub proof fn law_site_sums_by_key(table: SiteTable, class_static: u64, class_dynamic: u64)
    ensures
        number_under(JsonModel::Obj(site_sums(table, class_static, class_dynamic)), "class_static"@)
            == Some(class_static as int),
        number_under(JsonModel::Obj(site_sums(table, class_static, class_dynamic)), "class_dynamic"@)
            == Some(class_dynamic as int),
        number_under(JsonModel::Obj(site_sums(table, class_static, class_dynamic)), "head_static"@)
            == Some(static_head(table.sites@)),
        number_under(JsonModel::Obj(site_sums(table, class_static, class_dynamic)), "head_dynamic"@)
            == Some(dynamic_head(table.sites@)),
        number_under(JsonModel::Obj(site_sums(table, class_static, class_dynamic)), "truncated_static"@)
            == Some(table.truncated_static as int),
        number_under(JsonModel::Obj(site_sums(table, class_static, class_dynamic)), "truncated_dynamic"@)
            == Some(table.truncated_dynamic as int),
        number_under(JsonModel::Obj(site_sums(table, class_static, class_dynamic)), "unattributed_static"@)
            == Some( shortfall(class_static as int, static_head(table.sites@) + table.truncated_static)),
        number_under(JsonModel::Obj(site_sums(table, class_static, class_dynamic)), "unattributed_dynamic"@)
            == Some( shortfall(class_dynamic as int, dynamic_head(table.sites@) + table.truncated_dynamic)),
        number_under(JsonModel::Obj(site_sums(table, class_static, class_dynamic)), "distinct_sites"@)
            == Some(table.distinct_sites as int),
{
    reveal_strlit("class_static");
    assert("class_static"@.len() == 12 && "class_static"@[0] == 'c');
    reveal_strlit("class_dynamic");
    assert("class_dynamic"@.len() == 13 && "class_dynamic"@[0] == 'c');
    reveal_strlit("head_static");
    assert("head_static"@.len() == 11 && "head_static"@[0] == 'h');
    reveal_strlit("head_dynamic");
    assert("head_dynamic"@.len() == 12 && "head_dynamic"@[0] == 'h');
    reveal_strlit("truncated_static");
    assert("truncated_static"@.len() == 16 && "truncated_static"@[0] == 't');
    reveal_strlit("truncated_dynamic");
    assert("truncated_dynamic"@.len() == 17 && "truncated_dynamic"@[0] == 't');
    reveal_strlit("unattributed_static");
    assert("unattributed_static"@.len() == 19 && "unattributed_static"@[0] == 'u');
    reveal_strlit("unattributed_dynamic");
    assert("unattributed_dynamic"@.len() == 20 && "unattributed_dynamic"@[0] == 'u');
    reveal_strlit("distinct_sites");
    assert("distinct_sites"@.len() == 14 && "distinct_sites"@[0] == 'd');
}

/// Looked up by its key, every entry of the object is the figure that the key names.
pub proof fn law_closure_by_key(c: BarrierClosure)
    ensures
        number_under(closure_model(c), "classified_static"@) == Some(c.classified_static as int),
        number_under(closure_model(c), "static_unbound_exits"@)
            == Some(c.static_unbound_exits as int),
        number_under(closure_model(c), "unattributed_static"@)
            == Some( shortfall(c.static_unbound_exits as int, c.classified_static as int)),
        number_under(closure_model(c), "classified_dynamic"@) == Some(c.classified_dynamic as int),
        number_under(closure_model(c), "dynamic_miss_exits"@) == Some(c.dynamic_miss_exits as int),
        number_under(closure_model(c), "unattributed_dynamic"@)
            == Some( shortfall(c.dynamic_miss_exits as int, c.classified_dynamic as int)),
        number_under(closure_model(c), "rejected_unattributed"@)
            == Some(c.rejected_unattributed as int),
        number_under(closure_model(c), "dynamic_rejected_unattributed"@)
            == Some( c.dynamic_rejected_unattributed as int),
        number_under(closure_model(c), "rejected_barrier_overwrites"@)
            == Some(c.rejected_barrier_overwrites as int),
{
    reveal_strlit("classified_static");
    assert("classified_static"@.len() == 17 && "classified_static"@[0] == 'c');
    reveal_strlit("static_unbound_exits");
    assert("static_unbound_exits"@.len() == 20 && "static_unbound_exits"@[0] == 's');
    reveal_strlit("unattributed_static");
    assert("unattributed_static"@.len() == 19 && "unattributed_static"@[0] == 'u');
    reveal_strlit("classified_dynamic");
    assert("classified_dynamic"@.len() == 18 && "classified_dynamic"@[0] == 'c');
    reveal_strlit("dynamic_miss_exits");
    assert("dynamic_miss_exits"@.len() == 18 && "dynamic_miss_exits"@[0] == 'd');
    reveal_strlit("unattributed_dynamic");
    assert("unattributed_dynamic"@.len() == 20 && "unattributed_dynamic"@[0] == 'u');
    reveal_strlit("rejected_unattributed");
    assert("rejected_unattributed"@.len() == 21 && "rejected_unattributed"@[0] == 'r');
    reveal_strlit("dynamic_rejected_unattributed");
    assert("dynamic_rejected_unattributed"@.len() == 29 && "dynamic_rejected_unattributed"@[0] == 'd');
    reveal_strlit("rejected_barrier_overwrites");
    assert("rejected_barrier_overwrites"@.len() == 27 && "rejected_barrier_overwrites"@[0] == 'r');
}

/// Looked up by its key, every entry of the object is the figure that the key names.
pub proof fn law_barrier_census_by_key(s: DirectBarrierCensusSnapshot)
    ensures
        under(JsonModel::Obj(barrier_census_fields(s)), "rows"@)
            == Some(JsonModel::Arr( s.rows@.map_values( |row: DirectBarrierCensusRow| direct_barrier_census_row_model(row), ), )),
        under(JsonModel::Obj(barrier_census_fields(s)), "unbound_targets"@)
            == Some(labelled_model(s.unbound_targets@, "kind"@, "count"@)),
        under(JsonModel::Obj(barrier_census_fields(s)), "dynamic_miss_targets"@)
            == Some(labelled_model(s.dynamic_miss_targets@, "kind"@, "count"@)),
{
    reveal_strlit("rows");
    assert("rows"@.len() == 4 && "rows"@[0] == 'r');
    reveal_strlit("unbound_targets");
    assert("unbound_targets"@.len() == 15 && "unbound_targets"@[0] == 'u');
    reveal_strlit("dynamic_miss_targets");
    assert("dynamic_miss_targets"@.len() == 20 && "dynamic_miss_targets"@[0] == 'd');
    reveal_strlit("closure");
    assert("closure"@.len() == 7 && "closure"@[0] == 'c');
    reveal_strlit("dormant_heat");
    assert("dormant_heat"@.len() == 12 && "dormant_heat"@[0] == 'd');
    reveal_strlit("rejected_sites");
    assert("rejected_sites"@.len() == 14 && "rejected_sites"@[0] == 'r');
    reveal_strlit("absent_sites");
    assert("absent_sites"@.len() == 12 && "absent_sites"@[0] == 'a');
    reveal_strlit("admission_declines");
    assert("admission_declines"@.len() == 18 && "admission_declines"@[0] == 'a');
    reveal_strlit("stack_width_declines");
    assert("stack_width_declines"@.len() == 20 && "stack_width_declines"@[0] == 's');
}

/// Looked up by its key, every entry of the object is the figure that the key names.
pub proof fn law_stack_width_by_key(a: AdmissionCensus)
    ensures
        under(stack_width_model(a), "reasons"@)
            == Some(labelled_model(a.stack_width_declines@, "kind"@, "count"@)),
        number_under(stack_width_model(a), "distinct_sites"@)
            == Some(a.stack_width_decline_distinct_sites as int),
        under(stack_width_model(a), "sites"@)
            == Some(JsonModel::Arr( a.stack_width_decline_sites@.map_values( |site: StackWidthSite| stack_width_site_model(site), ), )),
{
    reveal_strlit("reasons");
    assert("reasons"@.len() == 7);
    reveal_strlit("distinct_sites");
    assert("distinct_sites"@.len() == 14);
    reveal_strlit("sites");
    assert("sites"@.len() == 5);
}

/// What tells the optional entries of the census apart.
proof fn lemma_census_parts_differ()
    ensures
        "closure"@.len() == 7,
        "dormant_heat"@.len() == 12,
        "rejected_sites"@.len() == 14,
        "absent_sites"@.len() == 12 && "absent_sites"@[0] == 'a',
        "dormant_heat"@[0] == 'd',
        "admission_declines"@.len() == 18,
        "stack_width_declines"@.len() == 20 && "stack_width_declines"@[0] == 's',
        "rows"@.len() == 4,
        "unbound_targets"@.len() == 15,
        "dynamic_miss_targets"@.len() == 20 && "dynamic_miss_targets"@[0] == 'd',
{
    reveal_strlit("closure");
    reveal_strlit("dormant_heat");
    reveal_strlit("rejected_sites");
    reveal_strlit("absent_sites");
    reveal_strlit("admission_declines");
    reveal_strlit("stack_width_declines");
    reveal_strlit("rows");
    reveal_strlit("unbound_targets");
    reveal_strlit("dynamic_miss_targets");
}

/// The parts of the census that only some builds keep stand under their keys, and the
/// sites of each class with the class.
pub proof fn law_census_parts_by_key(s: DirectBarrierCensusSnapshot)
    ensures
        s.closure matches Some(c) ==> {
            let all = JsonModel::Obj(barrier_census_fields(s));
            &&& under(all, "closure"@) == Some(closure_model(c))
            &&& under(all, "dormant_heat"@) == Some(dormant_heat_model(s, c))
            &&& under(all, "rejected_sites"@) == Some(rejected_sites_model(s, c))
            &&& under(all, "absent_sites"@) == Some(absent_sites_model(s, c))
        },
        s.admission matches Some(a) ==> {
            let all = JsonModel::Obj(barrier_census_fields(s));
            &&& under(all, "admission_declines"@) == Some(
                labelled_model(a.admission_declines@, "kind"@, "count"@),
            )
            &&& under(all, "stack_width_declines"@) == Some(stack_width_model(a))
        },
        s.closure is None ==> under(JsonModel::Obj(barrier_census_fields(s)), "closure"@) is None,
{
    lemma_census_parts_differ();
}

/// The sites of a class: what its head and what was cut off account for is taken off the
/// class, and what is left is unattributed.
pub proof fn law_sites_account_for_their_class(
    table: SiteTable,
    class_static: u64,
    class_dynamic: u64,
)
    ensures
        ({
            let sums = JsonModel::Obj(site_sums(table, class_static, class_dynamic));
            let named = |key: Seq<char>| number_under(sums, key)->0;
            &&& named("head_static"@) + named("truncated_static"@) <= class_static ==> named(
                "head_static"@,
            ) + named("truncated_static"@) + named("unattributed_static"@) == class_static
            &&& named("head_dynamic"@) + named("truncated_dynamic"@) <= class_dynamic ==> named(
                "head_dynamic"@,
            ) + named("truncated_dynamic"@) + named("unattributed_dynamic"@) == class_dynamic
            &&& named("unattributed_static"@) >= 0 && named("unattributed_dynamic"@) >= 0
        }),
{
    law_site_sums_by_key(table, class_static, class_dynamic);
}

/// The static exits of sites add up site by site.
pub proof fn law_static_exits_add_up(a: Seq<BarrierSite>, b: Seq<BarrierSite>, one: BarrierSite)
    ensures
        static_head(a + b) == static_head(a) + static_head(b),
        static_head(seq![one]) == one.static_exits,
    decreases b.len(),
{
    assert(seq![one].drop_last() =~= Seq::empty());
    assert(static_head(seq![one].drop_last()) == 0);
    if b.len() == 0 {
        assert(a + b =~= a);
    } else {
        law_static_exits_add_up(a, b.drop_last(), one);
        assert((a + b).drop_last() =~= a + b.drop_last());
    }
}

/// The dynamic exits of sites add up site by site.
pub proof fn law_dynamic_exits_add_up(a: Seq<BarrierSite>, b: Seq<BarrierSite>, one: BarrierSite)
    ensures
        dynamic_head(a + b) == dynamic_head(a) + dynamic_head(b),
        dynamic_head(seq![one]) == one.dynamic_exits,
    decreases b.len(),
{
    assert(seq![one].drop_last() =~= Seq::empty());
    assert(dynamic_head(seq![one].drop_last()) == 0);
    if b.len() == 0 {
        assert(a + b =~= a);
    } else {
        law_dynamic_exits_add_up(a, b.drop_last(), one);
        assert((a + b).drop_last() =~= a + b.drop_last());
    }
}

/// A class has the count of the first entry with its label, and none without one.
pub proof fn law_a_class_has_its_own_count(targets: Seq<(String, u64)>, want: Seq<char>, i: int)
    requires
        0 <= i <= targets.len(),
        forall|k: int| 0 <= k < i ==> (#[trigger] targets[k]).0@ != want,
    ensures
        i < targets.len() && targets[i].0@ == want ==> class_count(targets, want) == targets[i].1,
        i == targets.len() ==> class_count(targets, want) == 0,
    decreases targets.len(),
{
    if i > 0 {
        let rest = targets.drop_first();
        assert(targets[0].0@ != want);
        assert forall|k: int| 0 <= k < i - 1 implies (#[trigger] rest[k]).0@ != want by {
            assert(rest[k] == targets[k + 1]);
        }
        law_a_class_has_its_own_count(rest, want, i - 1);
    }
}

} // verus!
