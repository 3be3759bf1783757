//! Why the direct back end stalled, declined or fell back.

use vstd::prelude::*;

use crate::json::{
    labelled, no_fields, numbers, object, opt_number, put, put_flag, put_number, put_text, rows,
};
#[allow(unused_imports)]
use crate::json::{empty_fields, fields_of, json_of, labelled_model, num_array, opt_num, JsonModel};
#[allow(unused_imports)]
use crate::json::{flag_under, number_under, text_under, under};

verus! {

/// How often one cause parked a block, and over how many keys.
#[derive(Debug, Default)]
pub struct RetryCause {
    pub cause: String,
    pub count: u64,
    pub keys: u64,
}

/// What [`retry_cause_json`] gives.
pub open spec fn retry_cause_model(row: RetryCause) -> JsonModel {
    JsonModel::Obj(
        map![
            "cause"@ => JsonModel::Str(row.cause@),
            "count"@ => JsonModel::Num(row.count as int),
            "keys"@ => JsonModel::Num(row.keys as int),
        ],
    )
}

/// One retry cause as an object.
fn retry_cause_json(row: &RetryCause) -> (value: serde_json::Value)
    ensures
        json_of(value) == retry_cause_model(*row),
{
    let mut fields = no_fields();
    put_text(&mut fields, "cause", row.cause.as_str());
    put_number(&mut fields, "count", row.count);
    put_number(&mut fields, "keys", row.keys);
    object(fields)
}

/// What became of the single instructions handed to the interpreter, for one opcode row.
#[derive(Debug, Default)]
pub struct InterpretOneRow {
    pub row: String,
    pub executed: u64,
    pub resync: u64,
    pub resync_fault: u64,
    pub demoted: u64,
    pub resume_refused_prefix_use: u64,
}

/// What [`interpret_one_row_json`] gives.
pub open spec fn interpret_one_row_model(row: InterpretOneRow) -> JsonModel {
    JsonModel::Obj(
        map![
            "row"@ => JsonModel::Str(row.row@),
            "executed"@ => JsonModel::Num(row.executed as int),
            "resync"@ => JsonModel::Num(row.resync as int),
            "resync_fault"@ => JsonModel::Num(row.resync_fault as int),
            "demoted"@ => JsonModel::Num(row.demoted as int),
            "resume_refused_prefix_use"@ => JsonModel::Num(row.resume_refused_prefix_use as int),
        ],
    )
}

/// One opcode row as an object.
fn interpret_one_row_json(row: &InterpretOneRow) -> (value: serde_json::Value)
    ensures
        json_of(value) == interpret_one_row_model(*row),
{
    let mut fields = no_fields();
    put_text(&mut fields, "row", row.row.as_str());
    put_number(&mut fields, "executed", row.executed);
    put_number(&mut fields, "resync", row.resync);
    put_number(&mut fields, "resync_fault", row.resync_fault);
    put_number(&mut fields, "demoted", row.demoted);
    put_number(&mut fields, "resume_refused_prefix_use", row.resume_refused_prefix_use);
    object(fields)
}

/// The stall counters that only an admission census keeps.
#[derive(Clone, Copy, Debug, Default)]
pub struct StallAdmission {
    pub heat_demote_trial_spent_earned_head3: u64,
    pub lane_install_demote_no_lanes: u64,
    pub lane_install_demote_trial_spent: u64,
    pub dormant_heat_park_epochs: u64,
    pub park_lifts: u64,
}

/// The stall counters of a run.
#[derive(Debug, Default)]
pub struct DirectStallSnapshot {
    pub dormant: Vec<(String, u64)>,
    pub retry_causes: Vec<RetryCause>,
    pub retry_cause_hits: Vec<(String, u64)>,
    pub retry_lifts: u64,
    pub retry_lift_reparks: u64,
    pub ss_load_same_record: u64,
    pub ss_load_changed_record: u64,
    pub link_refusals: Vec<(String, u64)>,
    pub links_cleared: Vec<(String, u64)>,
    pub chain_requirement_narrowed: Vec<(String, u64)>,
    pub entry_chain_reject_own_pass: u64,
    pub entry_chain_admitted: u64,
    pub entry_chain_masked_reject: u64,
    pub side_exit_segment_limit: u64,
    pub side_exit_x87_eligibility: u64,
    pub side_exit_divide_guard: u64,
    pub side_exit_callout_step_break: u64,
    pub side_exit_callout_abnormal: u64,
    pub callout_executed: u64,
    pub callout_port_v86_served: u64,
    pub callout_port_imm8_served: u64,
    pub callout_port_out_imm8_served: u64,
    pub callout_port_out_dx_served: u64,
    pub callout_interpret_one_executed: u64,
    pub callout_interpret_one_resync: u64,
    pub callout_interpret_one_resume_refused_prefix_use: u64,
    pub callout_segment_resume_enabled: bool,
    pub callout_interpret_one_resync_fault: u64,
    pub callout_interpret_one_abnormal: u64,
    pub callout_interpret_one_demoted: u64,
    pub callout_interpret_one_rows: Vec<InterpretOneRow>,
    pub callout_deferred_code_writes: u64,
    pub callout_slot_cap_hits: u64,
    pub compile_page_overflows: u64,
    pub compile_page_search_steps: u64,
    pub demoted_callout_sites: u64,
    pub demoted_callout_sites_refused: u64,
    pub reject_callout_privileged: u64,
    pub callout_governor_trials: u64,
    pub callout_governor_lazy: u64,
    pub callout_governor_io_touching: u64,
    pub segment_write_block_head_entries: u64,
    pub segment_write_block_head_insns: u64,
    pub lane_trials: u64,
    pub lane_trial_installs: u64,
    pub lane_trial_first_grants: u64,
    pub lane_trial_regrants: u64,
    pub lane_trial_budget_refusals: u64,
    pub heat_demote_trial_spent: u64,
    pub heat_demote_trial_spent_earned: u64,
    pub disp_lane_registrations: u64,
    pub imm8_lane_registrations: u64,
    pub count_lane_registrations: u64,
    pub disp_store_lane_registrations: u64,
    pub disp_load_widen_lane_registrations: u64,
    pub jcc_sites_simple: u64,
    pub jcc_sites_overflow: u64,
    pub jcc_sites_signed_xor: u64,
    pub jcc_sites_signed_xor_zf: u64,
    pub hold_load_bias_probes: u64,
    pub align_test_al_sites: u64,
    pub imm_lane_cap_refusals: u64,
    pub imm8_lane_cap_refusals: u64,
    pub count_lane_cap_refusals: u64,
    pub disp_lane_cap_refusals: u64,
    pub disp_store_lane_cap_refusals: u64,
    pub disp_load_widen_lane_cap_refusals: u64,
    pub decode_pack_late_view_miss: u64,
    pub far_ret_native: u64,
    pub far_call_native: u64,
    pub blocks_installed_baking_cs: u64,
    pub far_link_refused_cs: u64,
    pub far_link_refused_limit: u64,
    pub far_link_cut_on_widen: u64,
    pub x87_top_retires_suppressed: u64,
    pub x87_top_sticky_crossings: u64,
    pub data_segment_retires_suppressed: u64,
    pub data_segment_sticky_crossings: u64,
    pub data_segment_link_declines: u64,
    pub data_segment_live_promotions: u64,
    pub data_segment_distinct_layouts: Vec<u64>,
    pub decline_memo_hits: u64,
    pub decline_memo_advances: u64,
    pub decline_memo_sweeps: u64,
    pub poll_attempts: u64,
    pub poll_declined_port: u64,
    pub poll_declined_port_source: u64,
    pub poll_declined_mask_source: u64,
    pub poll_declined_knob: u64,
    pub poll_declined_eligibility: u64,
    pub poll_declined_sixteen_bit: u64,
    pub poll_declined_shape: u64,
    pub poll_declined_cap: u64,
    pub poll_declined_seam: u64,
    pub poll_skip_spans: Vec<u64>,
    pub poll_skip_iterations: Vec<u64>,
    pub poll_skip_raw_core_clocks: u64,
    pub poll_skip_raw_bus_clocks: u64,
    pub poll_skip_max_span: u64,
    pub poll_skip_last_head: Option<u64>,
    pub link_context_rebinds: u64,
    pub link_waiting_entries: u64,
    pub link_linear_blocks_entries: u64,
    /// Present where the build keeps an admission census.
    pub admission: Option<StallAdmission>,
}

/// The fields that every build reports.
pub open spec fn direct_stall_fields(s: DirectStallSnapshot) -> Map<Seq<char>, JsonModel> {
    map![
        "dormant"@ => labelled_model(s.dormant@, "reason"@, "count"@),
        "jit_direct_retry_causes"@ => JsonModel::Arr(
            s.retry_causes@.map_values(|row: RetryCause| retry_cause_model(row)),
        ),
        "jit_direct_retry_cause_hits"@ => labelled_model(s.retry_cause_hits@, "cause"@, "hits"@),
        "jit_direct_retry_lifts"@ => JsonModel::Num(s.retry_lifts as int),
        "jit_direct_retry_lift_reparks"@ => JsonModel::Num(s.retry_lift_reparks as int),
        "ss_load_same_record"@ => JsonModel::Num(s.ss_load_same_record as int),
        "ss_load_changed_record"@ => JsonModel::Num(s.ss_load_changed_record as int),
        "link_refusals"@ => labelled_model(s.link_refusals@, "reason"@, "count"@),
        "links_cleared"@ => labelled_model(s.links_cleared@, "cause"@, "count"@),
        "chain_requirement_narrowed"@ => labelled_model(
            s.chain_requirement_narrowed@,
            "cause"@,
            "count"@,
        ),
        "entry_chain_reject_own_pass"@ => JsonModel::Num(s.entry_chain_reject_own_pass as int),
        "entry_chain_admitted"@ => JsonModel::Num(s.entry_chain_admitted as int),
        "entry_chain_masked_reject"@ => JsonModel::Num(s.entry_chain_masked_reject as int),
        "side_exit_segment_limit"@ => JsonModel::Num(s.side_exit_segment_limit as int),
        "side_exit_x87_eligibility"@ => JsonModel::Num(s.side_exit_x87_eligibility as int),
        "side_exit_divide_guard"@ => JsonModel::Num(s.side_exit_divide_guard as int),
        "side_exit_callout_step_break"@ => JsonModel::Num(s.side_exit_callout_step_break as int),
        "side_exit_callout_abnormal"@ => JsonModel::Num(s.side_exit_callout_abnormal as int),
        "jit_direct_callout_executed"@ => JsonModel::Num(s.callout_executed as int),
        "jit_direct_callout_port_v86_served"@ => JsonModel::Num(s.callout_port_v86_served as int),
        "jit_direct_callout_port_imm8_served"@ => JsonModel::Num(s.callout_port_imm8_served as int),
        "jit_direct_callout_port_out_imm8_served"@ => JsonModel::Num(
            s.callout_port_out_imm8_served as int,
        ),
        "jit_direct_callout_port_out_dx_served"@ => JsonModel::Num(
            s.callout_port_out_dx_served as int,
        ),
        "jit_direct_callout_interpret_one_executed"@ => JsonModel::Num(
            s.callout_interpret_one_executed as int,
        ),
        "jit_direct_callout_interpret_one_resync"@ => JsonModel::Num(
            s.callout_interpret_one_resync as int,
        ),
        "jit_direct_callout_interpret_one_resume_refused_prefix_use"@ => JsonModel::Num(s.callout_interpret_one_resume_refused_prefix_use as int),
        "jit_direct_callout_segment_resume"@ => JsonModel::Bool(s.callout_segment_resume_enabled),
        "jit_direct_callout_interpret_one_resync_fault"@ => JsonModel::Num(
            s.callout_interpret_one_resync_fault as int,
        ),
        "jit_direct_callout_interpret_one_abnormal"@ => JsonModel::Num(
            s.callout_interpret_one_abnormal as int,
        ),
        "jit_direct_callout_interpret_one_demoted"@ => JsonModel::Num(
            s.callout_interpret_one_demoted as int,
        ),
        "jit_direct_callout_interpret_one_rows"@ => JsonModel::Arr(
            s.callout_interpret_one_rows@.map_values(
                |row: InterpretOneRow| interpret_one_row_model(row),
            ),
        ),
        "jit_direct_callout_deferred_code_writes"@ => JsonModel::Num(
            s.callout_deferred_code_writes as int,
        ),
        "jit_direct_callout_slot_cap_hits"@ => JsonModel::Num(s.callout_slot_cap_hits as int),
        "jit_direct_compile_page_overflows"@ => JsonModel::Num(s.compile_page_overflows as int),
        "jit_direct_compile_page_search_steps"@ => JsonModel::Num(
            s.compile_page_search_steps as int,
        ),
        "jit_direct_demoted_callout_sites"@ => JsonModel::Num(s.demoted_callout_sites as int),
        "jit_direct_demoted_callout_sites_refused"@ => JsonModel::Num(
            s.demoted_callout_sites_refused as int,
        ),
        "jit_direct_reject_callout_privileged"@ => JsonModel::Num(
            s.reject_callout_privileged as int,
        ),
        "callout_governor_trials"@ => JsonModel::Num(s.callout_governor_trials as int),
        "callout_governor_lazy"@ => JsonModel::Num(s.callout_governor_lazy as int),
        "callout_governor_io_touching"@ => JsonModel::Num(s.callout_governor_io_touching as int),
        "segment_write_block_head_entries"@ => JsonModel::Num(
            s.segment_write_block_head_entries as int,
        ),
        "segment_write_block_head_insns"@ => JsonModel::Num(
            s.segment_write_block_head_insns as int,
        ),
        "smc_lane_trials"@ => JsonModel::Num(s.lane_trials as int),
        "smc_lane_trial_installs"@ => JsonModel::Num(s.lane_trial_installs as int),
        "smc_lane_trial_first_grants"@ => JsonModel::Num(s.lane_trial_first_grants as int),
        "smc_lane_trial_regrants"@ => JsonModel::Num(s.lane_trial_regrants as int),
        "smc_lane_trial_budget_refusals"@ => JsonModel::Num(s.lane_trial_budget_refusals as int),
        "heat_demote_trial_spent"@ => JsonModel::Num(s.heat_demote_trial_spent as int),
        "heat_demote_trial_spent_earned"@ => JsonModel::Num(
            s.heat_demote_trial_spent_earned as int,
        ),
        "smc_disp_lane_registrations"@ => JsonModel::Num(s.disp_lane_registrations as int),
        "smc_imm8_lane_registrations"@ => JsonModel::Num(s.imm8_lane_registrations as int),
        "smc_count_lane_registrations"@ => JsonModel::Num(s.count_lane_registrations as int),
        "smc_disp_store_lane_registrations"@ => JsonModel::Num(
            s.disp_store_lane_registrations as int,
        ),
        "smc_disp_load_widen_lane_registrations"@ => JsonModel::Num(
            s.disp_load_widen_lane_registrations as int,
        ),
        "jcc_sites_simple"@ => JsonModel::Num(s.jcc_sites_simple as int),
        "jcc_sites_overflow"@ => JsonModel::Num(s.jcc_sites_overflow as int),
        "jcc_sites_signed_xor"@ => JsonModel::Num(s.jcc_sites_signed_xor as int),
        "jcc_sites_signed_xor_zf"@ => JsonModel::Num(s.jcc_sites_signed_xor_zf as int),
        "hold_load_bias_probes"@ => JsonModel::Num(s.hold_load_bias_probes as int),
        "align_test_al_sites"@ => JsonModel::Num(s.align_test_al_sites as int),
        "smc_imm_lane_cap_refusals"@ => JsonModel::Num(s.imm_lane_cap_refusals as int),
        "smc_imm8_lane_cap_refusals"@ => JsonModel::Num(s.imm8_lane_cap_refusals as int),
        "smc_count_lane_cap_refusals"@ => JsonModel::Num(s.count_lane_cap_refusals as int),
        "smc_disp_lane_cap_refusals"@ => JsonModel::Num(s.disp_lane_cap_refusals as int),
        "smc_disp_store_lane_cap_refusals"@ => JsonModel::Num(
            s.disp_store_lane_cap_refusals as int,
        ),
        "smc_disp_load_widen_lane_cap_refusals"@ => JsonModel::Num(
            s.disp_load_widen_lane_cap_refusals as int,
        ),
        "decode_pack_late_view_miss"@ => JsonModel::Num(s.decode_pack_late_view_miss as int),
        "far_ret_native"@ => JsonModel::Num(s.far_ret_native as int),
        "far_call_native"@ => JsonModel::Num(s.far_call_native as int),
        "blocks_installed_baking_cs"@ => JsonModel::Num(s.blocks_installed_baking_cs as int),
        "far_link_refused_cs"@ => JsonModel::Num(s.far_link_refused_cs as int),
        "far_link_refused_limit"@ => JsonModel::Num(s.far_link_refused_limit as int),
        "far_link_cut_on_widen"@ => JsonModel::Num(s.far_link_cut_on_widen as int),
        "x87_top_retires_suppressed"@ => JsonModel::Num(s.x87_top_retires_suppressed as int),
        "x87_top_sticky_crossings"@ => JsonModel::Num(s.x87_top_sticky_crossings as int),
        "data_segment_retires_suppressed"@ => JsonModel::Num(
            s.data_segment_retires_suppressed as int,
        ),
        "data_segment_sticky_crossings"@ => JsonModel::Num(s.data_segment_sticky_crossings as int),
        "data_segment_link_declines"@ => JsonModel::Num(s.data_segment_link_declines as int),
        "data_segment_live_promotions"@ => JsonModel::Num(s.data_segment_live_promotions as int),
        "data_segment_distinct_layouts"@ => num_array(s.data_segment_distinct_layouts@),
        "decline_memo_hits"@ => JsonModel::Num(s.decline_memo_hits as int),
        "decline_memo_advances"@ => JsonModel::Num(s.decline_memo_advances as int),
        "decline_memo_sweeps"@ => JsonModel::Num(s.decline_memo_sweeps as int),
        "jit_direct_poll_attempts"@ => JsonModel::Num(s.poll_attempts as int),
        "jit_direct_poll_decline_port"@ => JsonModel::Num(s.poll_declined_port as int),
        "jit_direct_poll_decline_port_source"@ => JsonModel::Num(
            s.poll_declined_port_source as int,
        ),
        "jit_direct_poll_decline_mask_source"@ => JsonModel::Num(
            s.poll_declined_mask_source as int,
        ),
        "jit_direct_poll_decline_knob"@ => JsonModel::Num(s.poll_declined_knob as int),
        "jit_direct_poll_decline_eligibility"@ => JsonModel::Num(
            s.poll_declined_eligibility as int,
        ),
        "jit_direct_poll_decline_sixteen_bit"@ => JsonModel::Num(
            s.poll_declined_sixteen_bit as int,
        ),
        "jit_direct_poll_decline_shape"@ => JsonModel::Num(s.poll_declined_shape as int),
        "jit_direct_poll_decline_cap"@ => JsonModel::Num(s.poll_declined_cap as int),
        "jit_direct_poll_decline_seam"@ => JsonModel::Num(s.poll_declined_seam as int),
        "jit_direct_poll_skip_spans"@ => num_array(s.poll_skip_spans@),
        "jit_direct_poll_skip_iterations"@ => num_array(s.poll_skip_iterations@),
        "jit_direct_poll_skip_raw_core_clocks"@ => JsonModel::Num(
            s.poll_skip_raw_core_clocks as int,
        ),
        "jit_direct_poll_skip_raw_bus_clocks"@ => JsonModel::Num(s.poll_skip_raw_bus_clocks as int),
        "jit_direct_poll_skip_max_span"@ => JsonModel::Num(s.poll_skip_max_span as int),
        "jit_direct_poll_skip_last_head"@ => opt_num(s.poll_skip_last_head),
        "jit_direct_link_context_rebinds"@ => JsonModel::Num(s.link_context_rebinds as int),
        "jit_direct_link_waiting_entries"@ => JsonModel::Num(s.link_waiting_entries as int),
        "jit_direct_link_linear_blocks_entries"@ => JsonModel::Num(
            s.link_linear_blocks_entries as int,
        ),
    ]
}

/// What [`direct_stall_json`] gives: the fields of every build, and behind them
/// those of the admission census where the build keeps one. No key stands for a
/// census that was not built.
pub open spec fn direct_stall_model(s: DirectStallSnapshot) -> JsonModel {
    let fields = direct_stall_fields(s);
    JsonModel::Obj(
        match s.admission {
            Some(a) => fields
                .insert(
                    "heat_demote_trial_spent_earned_head3"@,
                    JsonModel::Num(a.heat_demote_trial_spent_earned_head3 as int),
                )
                .insert(
                    "lane_install_demote_no_lanes"@,
                    JsonModel::Num(a.lane_install_demote_no_lanes as int),
                )
                .insert(
                    "lane_install_demote_trial_spent"@,
                    JsonModel::Num(a.lane_install_demote_trial_spent as int),
                )
                .insert(
                    "dormant_heat_park_epochs"@,
                    JsonModel::Num(a.dormant_heat_park_epochs as int),
                )
                .insert("dormant_heat_park_lifts"@, JsonModel::Num(a.park_lifts as int)),
            None => fields,
        },
    )
}

/// Sets the fields that every build reports.
fn put_direct_stall_fields(
    fields: &mut serde_json::Map<String, serde_json::Value>,
    s: &DirectStallSnapshot,
)
    requires
        fields_of(*old(fields)) == empty_fields(),
    ensures
        fields_of(*final(fields)) == direct_stall_fields(*s),
{
    put(fields, "dormant", labelled(&s.dormant, "reason", "count"));
    put(
        fields,
        "jit_direct_retry_causes",
        rows(&s.retry_causes, retry_cause_json, Ghost(|row: RetryCause| retry_cause_model(row))),
    );
    put(fields, "jit_direct_retry_cause_hits", labelled(&s.retry_cause_hits, "cause", "hits"));
    put_number(fields, "jit_direct_retry_lifts", s.retry_lifts);
    put_number(fields, "jit_direct_retry_lift_reparks", s.retry_lift_reparks);
    put_number(fields, "ss_load_same_record", s.ss_load_same_record);
    put_number(fields, "ss_load_changed_record", s.ss_load_changed_record);
    put(fields, "link_refusals", labelled(&s.link_refusals, "reason", "count"));
    put(fields, "links_cleared", labelled(&s.links_cleared, "cause", "count"));
    put(
        fields,
        "chain_requirement_narrowed",
        labelled(&s.chain_requirement_narrowed, "cause", "count"),
    );
    put_number(fields, "entry_chain_reject_own_pass", s.entry_chain_reject_own_pass);
    put_number(fields, "entry_chain_admitted", s.entry_chain_admitted);
    put_number(fields, "entry_chain_masked_reject", s.entry_chain_masked_reject);
    put_number(fields, "side_exit_segment_limit", s.side_exit_segment_limit);
    put_number(fields, "side_exit_x87_eligibility", s.side_exit_x87_eligibility);
    put_number(fields, "side_exit_divide_guard", s.side_exit_divide_guard);
    put_number(fields, "side_exit_callout_step_break", s.side_exit_callout_step_break);
    put_number(fields, "side_exit_callout_abnormal", s.side_exit_callout_abnormal);
    put_number(fields, "jit_direct_callout_executed", s.callout_executed);
    put_number(fields, "jit_direct_callout_port_v86_served", s.callout_port_v86_served);
    put_number(fields, "jit_direct_callout_port_imm8_served", s.callout_port_imm8_served);
    put_number(fields, "jit_direct_callout_port_out_imm8_served", s.callout_port_out_imm8_served);
    put_number(fields, "jit_direct_callout_port_out_dx_served", s.callout_port_out_dx_served);
    put_number(
        fields,
        "jit_direct_callout_interpret_one_executed",
        s.callout_interpret_one_executed,
    );
    put_number(fields, "jit_direct_callout_interpret_one_resync", s.callout_interpret_one_resync);
    put_number(
        fields,
        "jit_direct_callout_interpret_one_resume_refused_prefix_use",
        s.callout_interpret_one_resume_refused_prefix_use,
    );
    put_flag(fields, "jit_direct_callout_segment_resume", s.callout_segment_resume_enabled);
    put_number(
        fields,
        "jit_direct_callout_interpret_one_resync_fault",
        s.callout_interpret_one_resync_fault,
    );
    put_number(
        fields,
        "jit_direct_callout_interpret_one_abnormal",
        s.callout_interpret_one_abnormal,
    );
    put_number(fields, "jit_direct_callout_interpret_one_demoted", s.callout_interpret_one_demoted);
    put(
        fields,
        "jit_direct_callout_interpret_one_rows",
        rows(
            &s.callout_interpret_one_rows,
            interpret_one_row_json,
            Ghost(|row: InterpretOneRow| interpret_one_row_model(row)),
        ),
    );
    put_number(fields, "jit_direct_callout_deferred_code_writes", s.callout_deferred_code_writes);
    put_number(fields, "jit_direct_callout_slot_cap_hits", s.callout_slot_cap_hits);
    put_number(fields, "jit_direct_compile_page_overflows", s.compile_page_overflows);
    put_number(fields, "jit_direct_compile_page_search_steps", s.compile_page_search_steps);
    put_number(fields, "jit_direct_demoted_callout_sites", s.demoted_callout_sites);
    put_number(fields, "jit_direct_demoted_callout_sites_refused", s.demoted_callout_sites_refused);
    put_number(fields, "jit_direct_reject_callout_privileged", s.reject_callout_privileged);
    put_number(fields, "callout_governor_trials", s.callout_governor_trials);
    put_number(fields, "callout_governor_lazy", s.callout_governor_lazy);
    put_number(fields, "callout_governor_io_touching", s.callout_governor_io_touching);
    put_number(fields, "segment_write_block_head_entries", s.segment_write_block_head_entries);
    put_number(fields, "segment_write_block_head_insns", s.segment_write_block_head_insns);
    put_number(fields, "smc_lane_trials", s.lane_trials);
    put_number(fields, "smc_lane_trial_installs", s.lane_trial_installs);
    put_number(fields, "smc_lane_trial_first_grants", s.lane_trial_first_grants);
    put_number(fields, "smc_lane_trial_regrants", s.lane_trial_regrants);
    put_number(fields, "smc_lane_trial_budget_refusals", s.lane_trial_budget_refusals);
    put_number(fields, "heat_demote_trial_spent", s.heat_demote_trial_spent);
    put_number(fields, "heat_demote_trial_spent_earned", s.heat_demote_trial_spent_earned);
    put_number(fields, "smc_disp_lane_registrations", s.disp_lane_registrations);
    put_number(fields, "smc_imm8_lane_registrations", s.imm8_lane_registrations);
    put_number(fields, "smc_count_lane_registrations", s.count_lane_registrations);
    put_number(fields, "smc_disp_store_lane_registrations", s.disp_store_lane_registrations);
    put_number(
        fields,
        "smc_disp_load_widen_lane_registrations",
        s.disp_load_widen_lane_registrations,
    );
    put_number(fields, "jcc_sites_simple", s.jcc_sites_simple);
    put_number(fields, "jcc_sites_overflow", s.jcc_sites_overflow);
    put_number(fields, "jcc_sites_signed_xor", s.jcc_sites_signed_xor);
    put_number(fields, "jcc_sites_signed_xor_zf", s.jcc_sites_signed_xor_zf);
    put_number(fields, "hold_load_bias_probes", s.hold_load_bias_probes);
    put_number(fields, "align_test_al_sites", s.align_test_al_sites);
    put_number(fields, "smc_imm_lane_cap_refusals", s.imm_lane_cap_refusals);
    put_number(fields, "smc_imm8_lane_cap_refusals", s.imm8_lane_cap_refusals);
    put_number(fields, "smc_count_lane_cap_refusals", s.count_lane_cap_refusals);
    put_number(fields, "smc_disp_lane_cap_refusals", s.disp_lane_cap_refusals);
    put_number(fields, "smc_disp_store_lane_cap_refusals", s.disp_store_lane_cap_refusals);
    put_number(
        fields,
        "smc_disp_load_widen_lane_cap_refusals",
        s.disp_load_widen_lane_cap_refusals,
    );
    put_number(fields, "decode_pack_late_view_miss", s.decode_pack_late_view_miss);
    put_number(fields, "far_ret_native", s.far_ret_native);
    put_number(fields, "far_call_native", s.far_call_native);
    put_number(fields, "blocks_installed_baking_cs", s.blocks_installed_baking_cs);
    put_number(fields, "far_link_refused_cs", s.far_link_refused_cs);
    put_number(fields, "far_link_refused_limit", s.far_link_refused_limit);
    put_number(fields, "far_link_cut_on_widen", s.far_link_cut_on_widen);
    put_number(fields, "x87_top_retires_suppressed", s.x87_top_retires_suppressed);
    put_number(fields, "x87_top_sticky_crossings", s.x87_top_sticky_crossings);
    put_number(fields, "data_segment_retires_suppressed", s.data_segment_retires_suppressed);
    put_number(fields, "data_segment_sticky_crossings", s.data_segment_sticky_crossings);
    put_number(fields, "data_segment_link_declines", s.data_segment_link_declines);
    put_number(fields, "data_segment_live_promotions", s.data_segment_live_promotions);
    put(fields, "data_segment_distinct_layouts", numbers(&s.data_segment_distinct_layouts));
    put_number(fields, "decline_memo_hits", s.decline_memo_hits);
    put_number(fields, "decline_memo_advances", s.decline_memo_advances);
    put_number(fields, "decline_memo_sweeps", s.decline_memo_sweeps);
    put_number(fields, "jit_direct_poll_attempts", s.poll_attempts);
    put_number(fields, "jit_direct_poll_decline_port", s.poll_declined_port);
    put_number(fields, "jit_direct_poll_decline_port_source", s.poll_declined_port_source);
    put_number(fields, "jit_direct_poll_decline_mask_source", s.poll_declined_mask_source);
    put_number(fields, "jit_direct_poll_decline_knob", s.poll_declined_knob);
    put_number(fields, "jit_direct_poll_decline_eligibility", s.poll_declined_eligibility);
    put_number(fields, "jit_direct_poll_decline_sixteen_bit", s.poll_declined_sixteen_bit);
    put_number(fields, "jit_direct_poll_decline_shape", s.poll_declined_shape);
    put_number(fields, "jit_direct_poll_decline_cap", s.poll_declined_cap);
    put_number(fields, "jit_direct_poll_decline_seam", s.poll_declined_seam);
    put(fields, "jit_direct_poll_skip_spans", numbers(&s.poll_skip_spans));
    put(fields, "jit_direct_poll_skip_iterations", numbers(&s.poll_skip_iterations));
    put_number(fields, "jit_direct_poll_skip_raw_core_clocks", s.poll_skip_raw_core_clocks);
    put_number(fields, "jit_direct_poll_skip_raw_bus_clocks", s.poll_skip_raw_bus_clocks);
    put_number(fields, "jit_direct_poll_skip_max_span", s.poll_skip_max_span);
    put(fields, "jit_direct_poll_skip_last_head", opt_number(s.poll_skip_last_head));
    put_number(fields, "jit_direct_link_context_rebinds", s.link_context_rebinds);
    put_number(fields, "jit_direct_link_waiting_entries", s.link_waiting_entries);
    put_number(fields, "jit_direct_link_linear_blocks_entries", s.link_linear_blocks_entries);
}

/// The stall counters as one object.
pub fn direct_stall_json(s: &DirectStallSnapshot) -> (value: serde_json::Value)
    ensures
        json_of(value) == direct_stall_model(*s),
{
    let mut fields = no_fields();
    put_direct_stall_fields(&mut fields, s);
    if let Some(a) = &s.admission {
        put_number(
            &mut fields,
            "heat_demote_trial_spent_earned_head3",
            a.heat_demote_trial_spent_earned_head3,
        );
        put_number(&mut fields, "lane_install_demote_no_lanes", a.lane_install_demote_no_lanes);
        put_number(
            &mut fields,
            "lane_install_demote_trial_spent",
            a.lane_install_demote_trial_spent,
        );
        put_number(&mut fields, "dormant_heat_park_epochs", a.dormant_heat_park_epochs);
        put_number(&mut fields, "dormant_heat_park_lifts", a.park_lifts);
    }
    object(fields)
}

// ---------------------------------------------------------------------------
// By key
// ---------------------------------------------------------------------------

/// Looked up by its key, every entry of the object is the figure that the key names.
pub proof fn law_retry_cause_by_key(row: RetryCause)
    ensures
        text_under(retry_cause_model(row), "cause"@) == Some(row.cause@),
        number_under(retry_cause_model(row), "count"@) == Some(row.count as int),
        number_under(retry_cause_model(row), "keys"@) == Some(row.keys as int),
{
    reveal_strlit("cause");
    assert("cause"@.len() == 5 && "cause"@[1] == 'a');
    reveal_strlit("count");
    assert("count"@.len() == 5 && "count"@[1] == 'o');
    reveal_strlit("keys");
    assert("keys"@.len() == 4 && "keys"@[1] == 'e');
}

/// Looked up by its key, every entry of the object is the figure that the key names.
pub proof fn law_interpret_one_row_by_key(row: InterpretOneRow)
    ensures
        text_under(interpret_one_row_model(row), "row"@) == Some(row.row@),
        number_under(interpret_one_row_model(row), "executed"@) == Some(row.executed as int),
        number_under(interpret_one_row_model(row), "resync"@) == Some(row.resync as int),
        number_under(interpret_one_row_model(row), "resync_fault"@)
            == Some(row.resync_fault as int),
        number_under(interpret_one_row_model(row), "demoted"@) == Some(row.demoted as int),
        number_under(interpret_one_row_model(row), "resume_refused_prefix_use"@)
            == Some(row.resume_refused_prefix_use as int),
{
    reveal_strlit("row");
    assert("row"@.len() == 3);
    reveal_strlit("executed");
    assert("executed"@.len() == 8);
    reveal_strlit("resync");
    assert("resync"@.len() == 6);
    reveal_strlit("resync_fault");
    assert("resync_fault"@.len() == 12);
    reveal_strlit("demoted");
    assert("demoted"@.len() == 7);
    reveal_strlit("resume_refused_prefix_use");
    assert("resume_refused_prefix_use"@.len() == 25);
}

/// What tells the keys of the object apart.
proof fn lemma_direct_stall_keys_differ()
    ensures
        "dormant"@.len() == 7 && "dormant"@[4] == 'a',
        "jit_direct_retry_causes"@.len() == 23 && "jit_direct_retry_causes"@[20] == 's' && "jit_direct_retry_causes"@[4] == 'd',
        "jit_direct_retry_cause_hits"@.len() == 27 && "jit_direct_retry_cause_hits"@[20] == 's' && "jit_direct_retry_cause_hits"@[4] == 'd' && "jit_direct_retry_cause_hits"@[24] == 'i',
        "jit_direct_retry_lifts"@.len() == 22 && "jit_direct_retry_lifts"@[20] == 't' && "jit_direct_retry_lifts"@[4] == 'd',
        "jit_direct_retry_lift_reparks"@.len() == 29 && "jit_direct_retry_lift_reparks"@[20] == 't' && "jit_direct_retry_lift_reparks"@[4] == 'd' && "jit_direct_retry_lift_reparks"@[24] == 'p',
        "ss_load_same_record"@.len() == 19 && "ss_load_same_record"@[4] == 'o',
        "ss_load_changed_record"@.len() == 22 && "ss_load_changed_record"@[20] == 'r' && "ss_load_changed_record"@[4] == 'o',
        "link_refusals"@.len() == 13 && "link_refusals"@[4] == '_',
        "links_cleared"@.len() == 13 && "links_cleared"@[4] == 's',
        "chain_requirement_narrowed"@.len() == 26 && "chain_requirement_narrowed"@[20] == 'r' && "chain_requirement_narrowed"@[4] == 'n' && "chain_requirement_narrowed"@[24] == 'e',
        "entry_chain_reject_own_pass"@.len() == 27 && "entry_chain_reject_own_pass"@[20] == 'w' && "entry_chain_reject_own_pass"@[4] == 'y' && "entry_chain_reject_own_pass"@[24] == 'a',
        "entry_chain_admitted"@.len() == 20 && "entry_chain_admitted"@[4] == 'y',
        "entry_chain_masked_reject"@.len() == 25 && "entry_chain_masked_reject"@[20] == 'e' && "entry_chain_masked_reject"@[4] == 'y' && "entry_chain_masked_reject"@[24] == 't',
        "side_exit_segment_limit"@.len() == 23 && "side_exit_segment_limit"@[20] == 'm' && "side_exit_segment_limit"@[4] == '_',
        "side_exit_x87_eligibility"@.len() == 25 && "side_exit_x87_eligibility"@[20] == 'i' && "side_exit_x87_eligibility"@[4] == '_' && "side_exit_x87_eligibility"@[24] == 'y',
        "side_exit_divide_guard"@.len() == 22 && "side_exit_divide_guard"@[20] == 'r' && "side_exit_divide_guard"@[4] == '_',
        "side_exit_callout_step_break"@.len() == 28 && "side_exit_callout_step_break"@[20] == 'e' && "side_exit_callout_step_break"@[4] == '_' && "side_exit_callout_step_break"@[24] == 'r',
        "side_exit_callout_abnormal"@.len() == 26 && "side_exit_callout_abnormal"@[20] == 'n' && "side_exit_callout_abnormal"@[4] == '_' && "side_exit_callout_abnormal"@[24] == 'a',
        "jit_direct_callout_executed"@.len() == 27 && "jit_direct_callout_executed"@[20] == 'x' && "jit_direct_callout_executed"@[4] == 'd' && "jit_direct_callout_executed"@[24] == 't',
        "jit_direct_callout_port_v86_served"@.len() == 34 && "jit_direct_callout_port_v86_served"@[20] == 'o' && "jit_direct_callout_port_v86_served"@[4] == 'd' && "jit_direct_callout_port_v86_served"@[24] == 'v' && "jit_direct_callout_port_v86_served"@[33] == 'd',
        "jit_direct_callout_port_imm8_served"@.len() == 35 && "jit_direct_callout_port_imm8_served"@[20] == 'o' && "jit_direct_callout_port_imm8_served"@[4] == 'd' && "jit_direct_callout_port_imm8_served"@[24] == 'i' && "jit_direct_callout_port_imm8_served"@[33] == 'e',
        "jit_direct_callout_port_out_imm8_served"@.len() == 39 && "jit_direct_callout_port_out_imm8_served"@[20] == 'o' && "jit_direct_callout_port_out_imm8_served"@[4] == 'd' && "jit_direct_callout_port_out_imm8_served"@[24] == 'o' && "jit_direct_callout_port_out_imm8_served"@[33] == 's',
        "jit_direct_callout_port_out_dx_served"@.len() == 37 && "jit_direct_callout_port_out_dx_served"@[20] == 'o' && "jit_direct_callout_port_out_dx_served"@[4] == 'd' && "jit_direct_callout_port_out_dx_served"@[24] == 'o' && "jit_direct_callout_port_out_dx_served"@[33] == 'r',
        "jit_direct_callout_interpret_one_executed"@.len() == 41 && "jit_direct_callout_interpret_one_executed"@[20] == 'n' && "jit_direct_callout_interpret_one_executed"@[4] == 'd' && "jit_direct_callout_interpret_one_executed"@[24] == 'p' && "jit_direct_callout_interpret_one_executed"@[33] == 'e',
        "jit_direct_callout_interpret_one_resync"@.len() == 39 && "jit_direct_callout_interpret_one_resync"@[20] == 'n' && "jit_direct_callout_interpret_one_resync"@[4] == 'd' && "jit_direct_callout_interpret_one_resync"@[24] == 'p' && "jit_direct_callout_interpret_one_resync"@[33] == 'r',
        "jit_direct_callout_interpret_one_resume_refused_prefix_use"@.len() == 58 && "jit_direct_callout_interpret_one_resume_refused_prefix_use"@[20] == 'n' && "jit_direct_callout_interpret_one_resume_refused_prefix_use"@[4] == 'd' && "jit_direct_callout_interpret_one_resume_refused_prefix_use"@[24] == 'p' && "jit_direct_callout_interpret_one_resume_refused_prefix_use"@[33] == 'r',
        "jit_direct_callout_segment_resume"@.len() == 33 && "jit_direct_callout_segment_resume"@[20] == 'e' && "jit_direct_callout_segment_resume"@[4] == 'd' && "jit_direct_callout_segment_resume"@[24] == 'n',
        "jit_direct_callout_interpret_one_resync_fault"@.len() == 45 && "jit_direct_callout_interpret_one_resync_fault"@[20] == 'n' && "jit_direct_callout_interpret_one_resync_fault"@[4] == 'd' && "jit_direct_callout_interpret_one_resync_fault"@[24] == 'p' && "jit_direct_callout_interpret_one_resync_fault"@[33] == 'r',
        "jit_direct_callout_interpret_one_abnormal"@.len() == 41 && "jit_direct_callout_interpret_one_abnormal"@[20] == 'n' && "jit_direct_callout_interpret_one_abnormal"@[4] == 'd' && "jit_direct_callout_interpret_one_abnormal"@[24] == 'p' && "jit_direct_callout_interpret_one_abnormal"@[33] == 'a',
        "jit_direct_callout_interpret_one_demoted"@.len() == 40 && "jit_direct_callout_interpret_one_demoted"@[20] == 'n' && "jit_direct_callout_interpret_one_demoted"@[4] == 'd' && "jit_direct_callout_interpret_one_demoted"@[24] == 'p' && "jit_direct_callout_interpret_one_demoted"@[33] == 'd',
        "jit_direct_callout_interpret_one_rows"@.len() == 37 && "jit_direct_callout_interpret_one_rows"@[20] == 'n' && "jit_direct_callout_interpret_one_rows"@[4] == 'd' && "jit_direct_callout_interpret_one_rows"@[24] == 'p' && "jit_direct_callout_interpret_one_rows"@[33] == 'r',
        "jit_direct_callout_deferred_code_writes"@.len() == 39 && "jit_direct_callout_deferred_code_writes"@[20] == 'e' && "jit_direct_callout_deferred_code_writes"@[4] == 'd' && "jit_direct_callout_deferred_code_writes"@[24] == 'r' && "jit_direct_callout_deferred_code_writes"@[33] == 'w',
        "jit_direct_callout_slot_cap_hits"@.len() == 32 && "jit_direct_callout_slot_cap_hits"@[20] == 'l' && "jit_direct_callout_slot_cap_hits"@[4] == 'd' && "jit_direct_callout_slot_cap_hits"@[24] == 'c',
        "jit_direct_compile_page_overflows"@.len() == 33 && "jit_direct_compile_page_overflows"@[20] == 'a' && "jit_direct_compile_page_overflows"@[4] == 'd' && "jit_direct_compile_page_overflows"@[24] == 'o',
        "jit_direct_compile_page_search_steps"@.len() == 36 && "jit_direct_compile_page_search_steps"@[20] == 'a' && "jit_direct_compile_page_search_steps"@[4] == 'd' && "jit_direct_compile_page_search_steps"@[24] == 's' && "jit_direct_compile_page_search_steps"@[33] == 'e',
        "jit_direct_demoted_callout_sites"@.len() == 32 && "jit_direct_demoted_callout_sites"@[20] == 'a' && "jit_direct_demoted_callout_sites"@[4] == 'd' && "jit_direct_demoted_callout_sites"@[24] == 'u',
        "jit_direct_demoted_callout_sites_refused"@.len() == 40 && "jit_direct_demoted_callout_sites_refused"@[20] == 'a' && "jit_direct_demoted_callout_sites_refused"@[4] == 'd' && "jit_direct_demoted_callout_sites_refused"@[24] == 'u' && "jit_direct_demoted_callout_sites_refused"@[33] == 'r',
        "jit_direct_reject_callout_privileged"@.len() == 36 && "jit_direct_reject_callout_privileged"@[20] == 'l' && "jit_direct_reject_callout_privileged"@[4] == 'd' && "jit_direct_reject_callout_privileged"@[24] == 't' && "jit_direct_reject_callout_privileged"@[33] == 'g',
        "callout_governor_trials"@.len() == 23 && "callout_governor_trials"@[20] == 'a' && "callout_governor_trials"@[4] == 'o',
        "callout_governor_lazy"@.len() == 21 && "callout_governor_lazy"@[20] == 'y' && "callout_governor_lazy"@[4] == 'o',
        "callout_governor_io_touching"@.len() == 28 && "callout_governor_io_touching"@[20] == 't' && "callout_governor_io_touching"@[4] == 'o' && "callout_governor_io_touching"@[24] == 'h',
        "segment_write_block_head_entries"@.len() == 32 && "segment_write_block_head_entries"@[20] == 'h' && "segment_write_block_head_entries"@[4] == 'e' && "segment_write_block_head_entries"@[24] == '_',
        "segment_write_block_head_insns"@.len() == 30 && "segment_write_block_head_insns"@[20] == 'h' && "segment_write_block_head_insns"@[4] == 'e' && "segment_write_block_head_insns"@[24] == '_',
        "smc_lane_trials"@.len() == 15 && "smc_lane_trials"@[4] == 'l',
        "smc_lane_trial_installs"@.len() == 23 && "smc_lane_trial_installs"@[20] == 'l' && "smc_lane_trial_installs"@[4] == 'l',
        "smc_lane_trial_first_grants"@.len() == 27 && "smc_lane_trial_first_grants"@[20] == '_' && "smc_lane_trial_first_grants"@[4] == 'l' && "smc_lane_trial_first_grants"@[24] == 'n',
        "smc_lane_trial_regrants"@.len() == 23 && "smc_lane_trial_regrants"@[20] == 'n' && "smc_lane_trial_regrants"@[4] == 'l',
        "smc_lane_trial_budget_refusals"@.len() == 30 && "smc_lane_trial_budget_refusals"@[20] == 't' && "smc_lane_trial_budget_refusals"@[4] == 'l' && "smc_lane_trial_budget_refusals"@[24] == 'f',
        "heat_demote_trial_spent"@.len() == 23 && "heat_demote_trial_spent"@[20] == 'e' && "heat_demote_trial_spent"@[4] == '_',
        "heat_demote_trial_spent_earned"@.len() == 30 && "heat_demote_trial_spent_earned"@[20] == 'e' && "heat_demote_trial_spent_earned"@[4] == '_' && "heat_demote_trial_spent_earned"@[24] == 'e',
        "smc_disp_lane_registrations"@.len() == 27 && "smc_disp_lane_registrations"@[20] == 'r' && "smc_disp_lane_registrations"@[4] == 'd' && "smc_disp_lane_registrations"@[24] == 'o',
        "smc_imm8_lane_registrations"@.len() == 27 && "smc_imm8_lane_registrations"@[20] == 'r' && "smc_imm8_lane_registrations"@[4] == 'i' && "smc_imm8_lane_registrations"@[24] == 'o',
        "smc_count_lane_registrations"@.len() == 28 && "smc_count_lane_registrations"@[20] == 't' && "smc_count_lane_registrations"@[4] == 'c' && "smc_count_lane_registrations"@[24] == 'i',
        "smc_disp_store_lane_registrations"@.len() == 33 && "smc_disp_store_lane_registrations"@[20] == 'r' && "smc_disp_store_lane_registrations"@[4] == 'd' && "smc_disp_store_lane_registrations"@[24] == 's',
        "smc_disp_load_widen_lane_registrations"@.len() == 38 && "smc_disp_load_widen_lane_registrations"@[20] == 'l' && "smc_disp_load_widen_lane_registrations"@[4] == 'd' && "smc_disp_load_widen_lane_registrations"@[24] == '_' && "smc_disp_load_widen_lane_registrations"@[33] == 't',
        "jcc_sites_simple"@.len() == 16 && "jcc_sites_simple"@[4] == 's',
        "jcc_sites_overflow"@.len() == 18 && "jcc_sites_overflow"@[4] == 's',
        "jcc_sites_signed_xor"@.len() == 20 && "jcc_sites_signed_xor"@[4] == 's',
        "jcc_sites_signed_xor_zf"@.len() == 23 && "jcc_sites_signed_xor_zf"@[20] == '_' && "jcc_sites_signed_xor_zf"@[4] == 's',
        "hold_load_bias_probes"@.len() == 21 && "hold_load_bias_probes"@[20] == 's' && "hold_load_bias_probes"@[4] == '_',
        "align_test_al_sites"@.len() == 19 && "align_test_al_sites"@[4] == 'n',
        "smc_imm_lane_cap_refusals"@.len() == 25 && "smc_imm_lane_cap_refusals"@[20] == 'u' && "smc_imm_lane_cap_refusals"@[4] == 'i' && "smc_imm_lane_cap_refusals"@[24] == 's',
        "smc_imm8_lane_cap_refusals"@.len() == 26 && "smc_imm8_lane_cap_refusals"@[20] == 'f' && "smc_imm8_lane_cap_refusals"@[4] == 'i' && "smc_imm8_lane_cap_refusals"@[24] == 'l',
        "smc_count_lane_cap_refusals"@.len() == 27 && "smc_count_lane_cap_refusals"@[20] == 'e' && "smc_count_lane_cap_refusals"@[4] == 'c' && "smc_count_lane_cap_refusals"@[24] == 'a',
        "smc_disp_lane_cap_refusals"@.len() == 26 && "smc_disp_lane_cap_refusals"@[20] == 'f' && "smc_disp_lane_cap_refusals"@[4] == 'd' && "smc_disp_lane_cap_refusals"@[24] == 'l',
        "smc_disp_store_lane_cap_refusals"@.len() == 32 && "smc_disp_store_lane_cap_refusals"@[20] == 'c' && "smc_disp_store_lane_cap_refusals"@[4] == 'd' && "smc_disp_store_lane_cap_refusals"@[24] == 'r',
        "smc_disp_load_widen_lane_cap_refusals"@.len() == 37 && "smc_disp_load_widen_lane_cap_refusals"@[20] == 'l' && "smc_disp_load_widen_lane_cap_refusals"@[4] == 'd' && "smc_disp_load_widen_lane_cap_refusals"@[24] == '_' && "smc_disp_load_widen_lane_cap_refusals"@[33] == 's',
        "decode_pack_late_view_miss"@.len() == 26 && "decode_pack_late_view_miss"@[20] == 'w' && "decode_pack_late_view_miss"@[4] == 'd' && "decode_pack_late_view_miss"@[24] == 's',
        "far_ret_native"@.len() == 14 && "far_ret_native"@[4] == 'r',
        "far_call_native"@.len() == 15 && "far_call_native"@[4] == 'c',
        "blocks_installed_baking_cs"@.len() == 26 && "blocks_installed_baking_cs"@[20] == 'i' && "blocks_installed_baking_cs"@[4] == 'k' && "blocks_installed_baking_cs"@[24] == 'c',
        "far_link_refused_cs"@.len() == 19 && "far_link_refused_cs"@[4] == 'l',
        "far_link_refused_limit"@.len() == 22 && "far_link_refused_limit"@[20] == 'i' && "far_link_refused_limit"@[4] == 'l',
        "far_link_cut_on_widen"@.len() == 21 && "far_link_cut_on_widen"@[20] == 'n' && "far_link_cut_on_widen"@[4] == 'l',
        "x87_top_retires_suppressed"@.len() == 26 && "x87_top_retires_suppressed"@[20] == 'r' && "x87_top_retires_suppressed"@[4] == 't' && "x87_top_retires_suppressed"@[24] == 'e',
        "x87_top_sticky_crossings"@.len() == 24 && "x87_top_sticky_crossings"@[20] == 'i' && "x87_top_sticky_crossings"@[4] == 't',
        "data_segment_retires_suppressed"@.len() == 31 && "data_segment_retires_suppressed"@[20] == '_' && "data_segment_retires_suppressed"@[4] == '_' && "data_segment_retires_suppressed"@[24] == 'p',
        "data_segment_sticky_crossings"@.len() == 29 && "data_segment_sticky_crossings"@[20] == 'c' && "data_segment_sticky_crossings"@[4] == '_' && "data_segment_sticky_crossings"@[24] == 's',
        "data_segment_link_declines"@.len() == 26 && "data_segment_link_declines"@[20] == 'c' && "data_segment_link_declines"@[4] == '_' && "data_segment_link_declines"@[24] == 'e',
        "data_segment_live_promotions"@.len() == 28 && "data_segment_live_promotions"@[20] == 'o' && "data_segment_live_promotions"@[4] == '_' && "data_segment_live_promotions"@[24] == 'i',
        "data_segment_distinct_layouts"@.len() == 29 && "data_segment_distinct_layouts"@[20] == 't' && "data_segment_distinct_layouts"@[4] == '_' && "data_segment_distinct_layouts"@[24] == 'y',
        "decline_memo_hits"@.len() == 17 && "decline_memo_hits"@[4] == 'i',
        "decline_memo_advances"@.len() == 21 && "decline_memo_advances"@[20] == 's' && "decline_memo_advances"@[4] == 'i',
        "decline_memo_sweeps"@.len() == 19 && "decline_memo_sweeps"@[4] == 'i',
        "jit_direct_poll_attempts"@.len() == 24 && "jit_direct_poll_attempts"@[20] == 'm' && "jit_direct_poll_attempts"@[4] == 'd',
        "jit_direct_poll_decline_port"@.len() == 28 && "jit_direct_poll_decline_port"@[20] == 'i' && "jit_direct_poll_decline_port"@[4] == 'd' && "jit_direct_poll_decline_port"@[24] == 'p',
        "jit_direct_poll_decline_port_source"@.len() == 35 && "jit_direct_poll_decline_port_source"@[20] == 'i' && "jit_direct_poll_decline_port_source"@[4] == 'd' && "jit_direct_poll_decline_port_source"@[24] == 'p' && "jit_direct_poll_decline_port_source"@[33] == 'c',
        "jit_direct_poll_decline_mask_source"@.len() == 35 && "jit_direct_poll_decline_mask_source"@[20] == 'i' && "jit_direct_poll_decline_mask_source"@[4] == 'd' && "jit_direct_poll_decline_mask_source"@[24] == 'm' && "jit_direct_poll_decline_mask_source"@[33] == 'c',
        "jit_direct_poll_decline_knob"@.len() == 28 && "jit_direct_poll_decline_knob"@[20] == 'i' && "jit_direct_poll_decline_knob"@[4] == 'd' && "jit_direct_poll_decline_knob"@[24] == 'k',
        "jit_direct_poll_decline_eligibility"@.len() == 35 && "jit_direct_poll_decline_eligibility"@[20] == 'i' && "jit_direct_poll_decline_eligibility"@[4] == 'd' && "jit_direct_poll_decline_eligibility"@[24] == 'e' && "jit_direct_poll_decline_eligibility"@[33] == 't',
        "jit_direct_poll_decline_sixteen_bit"@.len() == 35 && "jit_direct_poll_decline_sixteen_bit"@[20] == 'i' && "jit_direct_poll_decline_sixteen_bit"@[4] == 'd' && "jit_direct_poll_decline_sixteen_bit"@[24] == 's' && "jit_direct_poll_decline_sixteen_bit"@[33] == 'i',
        "jit_direct_poll_decline_shape"@.len() == 29 && "jit_direct_poll_decline_shape"@[20] == 'i' && "jit_direct_poll_decline_shape"@[4] == 'd' && "jit_direct_poll_decline_shape"@[24] == 's',
        "jit_direct_poll_decline_cap"@.len() == 27 && "jit_direct_poll_decline_cap"@[20] == 'i' && "jit_direct_poll_decline_cap"@[4] == 'd' && "jit_direct_poll_decline_cap"@[24] == 'c',
        "jit_direct_poll_decline_seam"@.len() == 28 && "jit_direct_poll_decline_seam"@[20] == 'i' && "jit_direct_poll_decline_seam"@[4] == 'd' && "jit_direct_poll_decline_seam"@[24] == 's',
        "jit_direct_poll_skip_spans"@.len() == 26 && "jit_direct_poll_skip_spans"@[20] == '_' && "jit_direct_poll_skip_spans"@[4] == 'd' && "jit_direct_poll_skip_spans"@[24] == 'n',
        "jit_direct_poll_skip_iterations"@.len() == 31 && "jit_direct_poll_skip_iterations"@[20] == '_' && "jit_direct_poll_skip_iterations"@[4] == 'd' && "jit_direct_poll_skip_iterations"@[24] == 'r',
        "jit_direct_poll_skip_raw_core_clocks"@.len() == 36 && "jit_direct_poll_skip_raw_core_clocks"@[20] == '_' && "jit_direct_poll_skip_raw_core_clocks"@[4] == 'd' && "jit_direct_poll_skip_raw_core_clocks"@[24] == '_' && "jit_direct_poll_skip_raw_core_clocks"@[33] == 'c',
        "jit_direct_poll_skip_raw_bus_clocks"@.len() == 35 && "jit_direct_poll_skip_raw_bus_clocks"@[20] == '_' && "jit_direct_poll_skip_raw_bus_clocks"@[4] == 'd' && "jit_direct_poll_skip_raw_bus_clocks"@[24] == '_' && "jit_direct_poll_skip_raw_bus_clocks"@[33] == 'k',
        "jit_direct_poll_skip_max_span"@.len() == 29 && "jit_direct_poll_skip_max_span"@[20] == '_' && "jit_direct_poll_skip_max_span"@[4] == 'd' && "jit_direct_poll_skip_max_span"@[24] == '_',
        "jit_direct_poll_skip_last_head"@.len() == 30 && "jit_direct_poll_skip_last_head"@[20] == '_' && "jit_direct_poll_skip_last_head"@[4] == 'd' && "jit_direct_poll_skip_last_head"@[24] == 't',
        "jit_direct_link_context_rebinds"@.len() == 31 && "jit_direct_link_context_rebinds"@[20] == 'e' && "jit_direct_link_context_rebinds"@[4] == 'd' && "jit_direct_link_context_rebinds"@[24] == 'r',
        "jit_direct_link_waiting_entries"@.len() == 31 && "jit_direct_link_waiting_entries"@[20] == 'i' && "jit_direct_link_waiting_entries"@[4] == 'd' && "jit_direct_link_waiting_entries"@[24] == 'e',
        "jit_direct_link_linear_blocks_entries"@.len() == 37 && "jit_direct_link_linear_blocks_entries"@[20] == 'a' && "jit_direct_link_linear_blocks_entries"@[4] == 'd' && "jit_direct_link_linear_blocks_entries"@[24] == 'l' && "jit_direct_link_linear_blocks_entries"@[33] == 'r',
{
    reveal_strlit("dormant");
    reveal_strlit("jit_direct_retry_causes");
    reveal_strlit("jit_direct_retry_cause_hits");
    reveal_strlit("jit_direct_retry_lifts");
    reveal_strlit("jit_direct_retry_lift_reparks");
    reveal_strlit("ss_load_same_record");
    reveal_strlit("ss_load_changed_record");
    reveal_strlit("link_refusals");
    reveal_strlit("links_cleared");
    reveal_strlit("chain_requirement_narrowed");
    reveal_strlit("entry_chain_reject_own_pass");
    reveal_strlit("entry_chain_admitted");
    reveal_strlit("entry_chain_masked_reject");
    reveal_strlit("side_exit_segment_limit");
    reveal_strlit("side_exit_x87_eligibility");
    reveal_strlit("side_exit_divide_guard");
    reveal_strlit("side_exit_callout_step_break");
    reveal_strlit("side_exit_callout_abnormal");
    reveal_strlit("jit_direct_callout_executed");
    reveal_strlit("jit_direct_callout_port_v86_served");
    reveal_strlit("jit_direct_callout_port_imm8_served");
    reveal_strlit("jit_direct_callout_port_out_imm8_served");
    reveal_strlit("jit_direct_callout_port_out_dx_served");
    reveal_strlit("jit_direct_callout_interpret_one_executed");
    reveal_strlit("jit_direct_callout_interpret_one_resync");
    reveal_strlit("jit_direct_callout_interpret_one_resume_refused_prefix_use");
    reveal_strlit("jit_direct_callout_segment_resume");
    reveal_strlit("jit_direct_callout_interpret_one_resync_fault");
    reveal_strlit("jit_direct_callout_interpret_one_abnormal");
    reveal_strlit("jit_direct_callout_interpret_one_demoted");
    reveal_strlit("jit_direct_callout_interpret_one_rows");
    reveal_strlit("jit_direct_callout_deferred_code_writes");
    reveal_strlit("jit_direct_callout_slot_cap_hits");
    reveal_strlit("jit_direct_compile_page_overflows");
    reveal_strlit("jit_direct_compile_page_search_steps");
    reveal_strlit("jit_direct_demoted_callout_sites");
    reveal_strlit("jit_direct_demoted_callout_sites_refused");
    reveal_strlit("jit_direct_reject_callout_privileged");
    reveal_strlit("callout_governor_trials");
    reveal_strlit("callout_governor_lazy");
    reveal_strlit("callout_governor_io_touching");
    reveal_strlit("segment_write_block_head_entries");
    reveal_strlit("segment_write_block_head_insns");
    reveal_strlit("smc_lane_trials");
    reveal_strlit("smc_lane_trial_installs");
    reveal_strlit("smc_lane_trial_first_grants");
    reveal_strlit("smc_lane_trial_regrants");
    reveal_strlit("smc_lane_trial_budget_refusals");
    reveal_strlit("heat_demote_trial_spent");
    reveal_strlit("heat_demote_trial_spent_earned");
    reveal_strlit("smc_disp_lane_registrations");
    reveal_strlit("smc_imm8_lane_registrations");
    reveal_strlit("smc_count_lane_registrations");
    reveal_strlit("smc_disp_store_lane_registrations");
    reveal_strlit("smc_disp_load_widen_lane_registrations");
    reveal_strlit("jcc_sites_simple");
    reveal_strlit("jcc_sites_overflow");
    reveal_strlit("jcc_sites_signed_xor");
    reveal_strlit("jcc_sites_signed_xor_zf");
    reveal_strlit("hold_load_bias_probes");
    reveal_strlit("align_test_al_sites");
    reveal_strlit("smc_imm_lane_cap_refusals");
    reveal_strlit("smc_imm8_lane_cap_refusals");
    reveal_strlit("smc_count_lane_cap_refusals");
    reveal_strlit("smc_disp_lane_cap_refusals");
    reveal_strlit("smc_disp_store_lane_cap_refusals");
    reveal_strlit("smc_disp_load_widen_lane_cap_refusals");
    reveal_strlit("decode_pack_late_view_miss");
    reveal_strlit("far_ret_native");
    reveal_strlit("far_call_native");
    reveal_strlit("blocks_installed_baking_cs");
    reveal_strlit("far_link_refused_cs");
    reveal_strlit("far_link_refused_limit");
    reveal_strlit("far_link_cut_on_widen");
    reveal_strlit("x87_top_retires_suppressed");
    reveal_strlit("x87_top_sticky_crossings");
    reveal_strlit("data_segment_retires_suppressed");
    reveal_strlit("data_segment_sticky_crossings");
    reveal_strlit("data_segment_link_declines");
    reveal_strlit("data_segment_live_promotions");
    reveal_strlit("data_segment_distinct_layouts");
    reveal_strlit("decline_memo_hits");
    reveal_strlit("decline_memo_advances");
    reveal_strlit("decline_memo_sweeps");
    reveal_strlit("jit_direct_poll_attempts");
    reveal_strlit("jit_direct_poll_decline_port");
    reveal_strlit("jit_direct_poll_decline_port_source");
    reveal_strlit("jit_direct_poll_decline_mask_source");
    reveal_strlit("jit_direct_poll_decline_knob");
    reveal_strlit("jit_direct_poll_decline_eligibility");
    reveal_strlit("jit_direct_poll_decline_sixteen_bit");
    reveal_strlit("jit_direct_poll_decline_shape");
    reveal_strlit("jit_direct_poll_decline_cap");
    reveal_strlit("jit_direct_poll_decline_seam");
    reveal_strlit("jit_direct_poll_skip_spans");
    reveal_strlit("jit_direct_poll_skip_iterations");
    reveal_strlit("jit_direct_poll_skip_raw_core_clocks");
    reveal_strlit("jit_direct_poll_skip_raw_bus_clocks");
    reveal_strlit("jit_direct_poll_skip_max_span");
    reveal_strlit("jit_direct_poll_skip_last_head");
    reveal_strlit("jit_direct_link_context_rebinds");
    reveal_strlit("jit_direct_link_waiting_entries");
    reveal_strlit("jit_direct_link_linear_blocks_entries");
}

/// Some entries of the object, looked up by their keys.
proof fn lemma_direct_stall_keys_a(s: DirectStallSnapshot)
    ensures
        under(JsonModel::Obj(direct_stall_fields(s)), "dormant"@)
            == Some(labelled_model(s.dormant@, "reason"@, "count"@)),
        under(JsonModel::Obj(direct_stall_fields(s)), "jit_direct_retry_causes"@)
            == Some(JsonModel::Arr( s.retry_causes@.map_values(|row: RetryCause| retry_cause_model(row)), )),
        under(JsonModel::Obj(direct_stall_fields(s)), "jit_direct_retry_cause_hits"@)
            == Some(labelled_model(s.retry_cause_hits@, "cause"@, "hits"@)),
        number_under(JsonModel::Obj(direct_stall_fields(s)), "jit_direct_retry_lifts"@)
            == Some(s.retry_lifts as int),
        number_under(JsonModel::Obj(direct_stall_fields(s)), "jit_direct_retry_lift_reparks"@)
            == Some(s.retry_lift_reparks as int),
        number_under(JsonModel::Obj(direct_stall_fields(s)), "ss_load_same_record"@)
            == Some(s.ss_load_same_record as int),
        number_under(JsonModel::Obj(direct_stall_fields(s)), "ss_load_changed_record"@)
            == Some(s.ss_load_changed_record as int),
        under(JsonModel::Obj(direct_stall_fields(s)), "link_refusals"@)
            == Some(labelled_model(s.link_refusals@, "reason"@, "count"@)),
        under(JsonModel::Obj(direct_stall_fields(s)), "links_cleared"@)
            == Some(labelled_model(s.links_cleared@, "cause"@, "count"@)),
        under(JsonModel::Obj(direct_stall_fields(s)), "chain_requirement_narrowed"@)
            == Some(labelled_model( s.chain_requirement_narrowed@, "cause"@, "count"@, )),
        number_under(JsonModel::Obj(direct_stall_fields(s)), "entry_chain_reject_own_pass"@)
            == Some(s.entry_chain_reject_own_pass as int),
        number_under(JsonModel::Obj(direct_stall_fields(s)), "entry_chain_admitted"@)
            == Some(s.entry_chain_admitted as int),
        number_under(JsonModel::Obj(direct_stall_fields(s)), "entry_chain_masked_reject"@)
            == Some(s.entry_chain_masked_reject as int),
        number_under(JsonModel::Obj(direct_stall_fields(s)), "side_exit_segment_limit"@)
            == Some(s.side_exit_segment_limit as int),
        number_under(JsonModel::Obj(direct_stall_fields(s)), "side_exit_x87_eligibility"@)
            == Some(s.side_exit_x87_eligibility as int),
        number_under(JsonModel::Obj(direct_stall_fields(s)), "side_exit_divide_guard"@)
            == Some(s.side_exit_divide_guard as int),
        number_under(JsonModel::Obj(direct_stall_fields(s)), "side_exit_callout_step_break"@)
            == Some(s.side_exit_callout_step_break as int),
        number_under(JsonModel::Obj(direct_stall_fields(s)), "side_exit_callout_abnormal"@)
            == Some(s.side_exit_callout_abnormal as int),
        number_under(JsonModel::Obj(direct_stall_fields(s)), "jit_direct_callout_executed"@)
            == Some(s.callout_executed as int),
        number_under(JsonModel::Obj(direct_stall_fields(s)), "jit_direct_callout_port_v86_served"@)
            == Some(s.callout_port_v86_served as int),
        number_under(JsonModel::Obj(direct_stall_fields(s)), "jit_direct_callout_port_imm8_served"@)
            == Some(s.callout_port_imm8_served as int),
        number_under(JsonModel::Obj(direct_stall_fields(s)), "jit_direct_callout_port_out_imm8_served"@)
            == Some( s.callout_port_out_imm8_served as int),
        number_under(JsonModel::Obj(direct_stall_fields(s)), "jit_direct_callout_port_out_dx_served"@)
            == Some( s.callout_port_out_dx_served as int),
        number_under(JsonModel::Obj(direct_stall_fields(s)), "jit_direct_callout_interpret_one_executed"@)
            == Some( s.callout_interpret_one_executed as int),
        number_under(JsonModel::Obj(direct_stall_fields(s)), "jit_direct_callout_interpret_one_resync"@)
            == Some( s.callout_interpret_one_resync as int),
        number_under(JsonModel::Obj(direct_stall_fields(s)), "jit_direct_callout_interpret_one_resume_refused_prefix_use"@)
            == Some(s.callout_interpret_one_resume_refused_prefix_use as int),
{
    lemma_direct_stall_keys_differ();
    let front: Map<Seq<char>, JsonModel> = map![
        "dormant"@ => labelled_model(s.dormant@, "reason"@, "count"@),
        "jit_direct_retry_causes"@ => JsonModel::Arr(
            s.retry_causes@.map_values(|row: RetryCause| retry_cause_model(row)),
        ),
        "jit_direct_retry_cause_hits"@ => labelled_model(s.retry_cause_hits@, "cause"@, "hits"@),
        "jit_direct_retry_lifts"@ => JsonModel::Num(s.retry_lifts as int),
        "jit_direct_retry_lift_reparks"@ => JsonModel::Num(s.retry_lift_reparks as int),
        "ss_load_same_record"@ => JsonModel::Num(s.ss_load_same_record as int),
        "ss_load_changed_record"@ => JsonModel::Num(s.ss_load_changed_record as int),
        "link_refusals"@ => labelled_model(s.link_refusals@, "reason"@, "count"@),
        "links_cleared"@ => labelled_model(s.links_cleared@, "cause"@, "count"@),
        "chain_requirement_narrowed"@ => labelled_model(
            s.chain_requirement_narrowed@,
            "cause"@,
            "count"@,
        ),
        "entry_chain_reject_own_pass"@ => JsonModel::Num(s.entry_chain_reject_own_pass as int),
        "entry_chain_admitted"@ => JsonModel::Num(s.entry_chain_admitted as int),
        "entry_chain_masked_reject"@ => JsonModel::Num(s.entry_chain_masked_reject as int),
        "side_exit_segment_limit"@ => JsonModel::Num(s.side_exit_segment_limit as int),
        "side_exit_x87_eligibility"@ => JsonModel::Num(s.side_exit_x87_eligibility as int),
        "side_exit_divide_guard"@ => JsonModel::Num(s.side_exit_divide_guard as int),
        "side_exit_callout_step_break"@ => JsonModel::Num(s.side_exit_callout_step_break as int),
        "side_exit_callout_abnormal"@ => JsonModel::Num(s.side_exit_callout_abnormal as int),
        "jit_direct_callout_executed"@ => JsonModel::Num(s.callout_executed as int),
        "jit_direct_callout_port_v86_served"@ => JsonModel::Num(s.callout_port_v86_served as int),
        "jit_direct_callout_port_imm8_served"@ => JsonModel::Num(s.callout_port_imm8_served as int),
        "jit_direct_callout_port_out_imm8_served"@ => JsonModel::Num(
            s.callout_port_out_imm8_served as int,
        ),
        "jit_direct_callout_port_out_dx_served"@ => JsonModel::Num(
            s.callout_port_out_dx_served as int,
        ),
        "jit_direct_callout_interpret_one_executed"@ => JsonModel::Num(
            s.callout_interpret_one_executed as int,
        ),
        "jit_direct_callout_interpret_one_resync"@ => JsonModel::Num(
            s.callout_interpret_one_resync as int,
        ),
        "jit_direct_callout_interpret_one_resume_refused_prefix_use"@ => JsonModel::Num(s.callout_interpret_one_resume_refused_prefix_use as int),
        "jit_direct_callout_segment_resume"@ => JsonModel::Bool(s.callout_segment_resume_enabled),
        "jit_direct_callout_interpret_one_resync_fault"@ => JsonModel::Num(
            s.callout_interpret_one_resync_fault as int,
        ),
        "jit_direct_callout_interpret_one_abnormal"@ => JsonModel::Num(
            s.callout_interpret_one_abnormal as int,
        ),
        "jit_direct_callout_interpret_one_demoted"@ => JsonModel::Num(
            s.callout_interpret_one_demoted as int,
        ),
        "jit_direct_callout_interpret_one_rows"@ => JsonModel::Arr(
            s.callout_interpret_one_rows@.map_values(
                |row: InterpretOneRow| interpret_one_row_model(row),
            ),
        ),
        "jit_direct_callout_deferred_code_writes"@ => JsonModel::Num(
            s.callout_deferred_code_writes as int,
        ),
        "jit_direct_callout_slot_cap_hits"@ => JsonModel::Num(s.callout_slot_cap_hits as int),
        "jit_direct_compile_page_overflows"@ => JsonModel::Num(s.compile_page_overflows as int),
        "jit_direct_compile_page_search_steps"@ => JsonModel::Num(
            s.compile_page_search_steps as int,
        ),
        "jit_direct_demoted_callout_sites"@ => JsonModel::Num(s.demoted_callout_sites as int),
        "jit_direct_demoted_callout_sites_refused"@ => JsonModel::Num(
            s.demoted_callout_sites_refused as int,
        ),
        "jit_direct_reject_callout_privileged"@ => JsonModel::Num(
            s.reject_callout_privileged as int,
        ),
        "callout_governor_trials"@ => JsonModel::Num(s.callout_governor_trials as int),
        "callout_governor_lazy"@ => JsonModel::Num(s.callout_governor_lazy as int),
        "callout_governor_io_touching"@ => JsonModel::Num(s.callout_governor_io_touching as int),
        "segment_write_block_head_entries"@ => JsonModel::Num(
            s.segment_write_block_head_entries as int,
        ),
        "segment_write_block_head_insns"@ => JsonModel::Num(
            s.segment_write_block_head_insns as int,
        ),
        "smc_lane_trials"@ => JsonModel::Num(s.lane_trials as int),
        "smc_lane_trial_installs"@ => JsonModel::Num(s.lane_trial_installs as int),
        "smc_lane_trial_first_grants"@ => JsonModel::Num(s.lane_trial_first_grants as int),
        "smc_lane_trial_regrants"@ => JsonModel::Num(s.lane_trial_regrants as int),
        "smc_lane_trial_budget_refusals"@ => JsonModel::Num(s.lane_trial_budget_refusals as int),
        "heat_demote_trial_spent"@ => JsonModel::Num(s.heat_demote_trial_spent as int),
        "heat_demote_trial_spent_earned"@ => JsonModel::Num(
            s.heat_demote_trial_spent_earned as int,
        ),
        "smc_disp_lane_registrations"@ => JsonModel::Num(s.disp_lane_registrations as int),
        "smc_imm8_lane_registrations"@ => JsonModel::Num(s.imm8_lane_registrations as int),
    ];
    assert(under(JsonModel::Obj(front), "dormant"@) == Some(labelled_model(s.dormant@, "reason"@, "count"@)));
    assert(under(JsonModel::Obj(front), "jit_direct_retry_causes"@) == Some(JsonModel::Arr( s.retry_causes@.map_values(|row: RetryCause| retry_cause_model(row)), )));
    assert(under(JsonModel::Obj(front), "jit_direct_retry_cause_hits"@) == Some(labelled_model(s.retry_cause_hits@, "cause"@, "hits"@)));
    assert(number_under(JsonModel::Obj(front), "jit_direct_retry_lifts"@) == Some(s.retry_lifts as int));
    assert(number_under(JsonModel::Obj(front), "jit_direct_retry_lift_reparks"@) == Some(s.retry_lift_reparks as int));
    assert(number_under(JsonModel::Obj(front), "ss_load_same_record"@) == Some(s.ss_load_same_record as int));
    assert(number_under(JsonModel::Obj(front), "ss_load_changed_record"@) == Some(s.ss_load_changed_record as int));
    assert(under(JsonModel::Obj(front), "link_refusals"@) == Some(labelled_model(s.link_refusals@, "reason"@, "count"@)));
    assert(under(JsonModel::Obj(front), "links_cleared"@) == Some(labelled_model(s.links_cleared@, "cause"@, "count"@)));
    assert(under(JsonModel::Obj(front), "chain_requirement_narrowed"@) == Some(labelled_model( s.chain_requirement_narrowed@, "cause"@, "count"@, )));
    assert(number_under(JsonModel::Obj(front), "entry_chain_reject_own_pass"@) == Some(s.entry_chain_reject_own_pass as int));
    assert(number_under(JsonModel::Obj(front), "entry_chain_admitted"@) == Some(s.entry_chain_admitted as int));
    assert(number_under(JsonModel::Obj(front), "entry_chain_masked_reject"@) == Some(s.entry_chain_masked_reject as int));
    assert(number_under(JsonModel::Obj(front), "side_exit_segment_limit"@) == Some(s.side_exit_segment_limit as int));
    assert(number_under(JsonModel::Obj(front), "side_exit_x87_eligibility"@) == Some(s.side_exit_x87_eligibility as int));
    assert(number_under(JsonModel::Obj(front), "side_exit_divide_guard"@) == Some(s.side_exit_divide_guard as int));
    assert(number_under(JsonModel::Obj(front), "side_exit_callout_step_break"@) == Some(s.side_exit_callout_step_break as int));
    assert(number_under(JsonModel::Obj(front), "side_exit_callout_abnormal"@) == Some(s.side_exit_callout_abnormal as int));
    assert(number_under(JsonModel::Obj(front), "jit_direct_callout_executed"@) == Some(s.callout_executed as int));
    assert(number_under(JsonModel::Obj(front), "jit_direct_callout_port_v86_served"@) == Some(s.callout_port_v86_served as int));
    assert(number_under(JsonModel::Obj(front), "jit_direct_callout_port_imm8_served"@) == Some(s.callout_port_imm8_served as int));
    assert(number_under(JsonModel::Obj(front), "jit_direct_callout_port_out_imm8_served"@) == Some( s.callout_port_out_imm8_served as int));
    assert(number_under(JsonModel::Obj(front), "jit_direct_callout_port_out_dx_served"@) == Some( s.callout_port_out_dx_served as int));
    assert(number_under(JsonModel::Obj(front), "jit_direct_callout_interpret_one_executed"@) == Some( s.callout_interpret_one_executed as int));
    assert(number_under(JsonModel::Obj(front), "jit_direct_callout_interpret_one_resync"@) == Some( s.callout_interpret_one_resync as int));
    assert(number_under(JsonModel::Obj(front), "jit_direct_callout_interpret_one_resume_refused_prefix_use"@) == Some(s.callout_interpret_one_resume_refused_prefix_use as int));
}

/// Some entries of the object, looked up by their keys.
proof fn lemma_direct_stall_keys_b(s: DirectStallSnapshot)
    ensures
        flag_under(JsonModel::Obj(direct_stall_fields(s)), "jit_direct_callout_segment_resume"@)
            == Some(s.callout_segment_resume_enabled),
        number_under(JsonModel::Obj(direct_stall_fields(s)), "jit_direct_callout_interpret_one_resync_fault"@)
            == Some( s.callout_interpret_one_resync_fault as int),
        number_under(JsonModel::Obj(direct_stall_fields(s)), "jit_direct_callout_interpret_one_abnormal"@)
            == Some( s.callout_interpret_one_abnormal as int),
        number_under(JsonModel::Obj(direct_stall_fields(s)), "jit_direct_callout_interpret_one_demoted"@)
            == Some( s.callout_interpret_one_demoted as int),
        under(JsonModel::Obj(direct_stall_fields(s)), "jit_direct_callout_interpret_one_rows"@)
            == Some(JsonModel::Arr( s.callout_interpret_one_rows@.map_values( |row: InterpretOneRow| interpret_one_row_model(row), ), )),
        number_under(JsonModel::Obj(direct_stall_fields(s)), "jit_direct_callout_deferred_code_writes"@)
            == Some( s.callout_deferred_code_writes as int),
        number_under(JsonModel::Obj(direct_stall_fields(s)), "jit_direct_callout_slot_cap_hits"@)
            == Some(s.callout_slot_cap_hits as int),
        number_under(JsonModel::Obj(direct_stall_fields(s)), "jit_direct_compile_page_overflows"@)
            == Some(s.compile_page_overflows as int),
        number_under(JsonModel::Obj(direct_stall_fields(s)), "jit_direct_compile_page_search_steps"@)
            == Some( s.compile_page_search_steps as int),
        number_under(JsonModel::Obj(direct_stall_fields(s)), "jit_direct_demoted_callout_sites"@)
            == Some(s.demoted_callout_sites as int),
        number_under(JsonModel::Obj(direct_stall_fields(s)), "jit_direct_demoted_callout_sites_refused"@)
            == Some( s.demoted_callout_sites_refused as int),
        number_under(JsonModel::Obj(direct_stall_fields(s)), "jit_direct_reject_callout_privileged"@)
            == Some( s.reject_callout_privileged as int),
        number_under(JsonModel::Obj(direct_stall_fields(s)), "callout_governor_trials"@)
            == Some(s.callout_governor_trials as int),
        number_under(JsonModel::Obj(direct_stall_fields(s)), "callout_governor_lazy"@)
            == Some(s.callout_governor_lazy as int),
        number_under(JsonModel::Obj(direct_stall_fields(s)), "callout_governor_io_touching"@)
            == Some(s.callout_governor_io_touching as int),
        number_under(JsonModel::Obj(direct_stall_fields(s)), "segment_write_block_head_entries"@)
            == Some( s.segment_write_block_head_entries as int),
        number_under(JsonModel::Obj(direct_stall_fields(s)), "segment_write_block_head_insns"@)
            == Some( s.segment_write_block_head_insns as int),
        number_under(JsonModel::Obj(direct_stall_fields(s)), "smc_lane_trials"@)
            == Some(s.lane_trials as int),
        number_under(JsonModel::Obj(direct_stall_fields(s)), "smc_lane_trial_installs"@)
            == Some(s.lane_trial_installs as int),
        number_under(JsonModel::Obj(direct_stall_fields(s)), "smc_lane_trial_first_grants"@)
            == Some(s.lane_trial_first_grants as int),
        number_under(JsonModel::Obj(direct_stall_fields(s)), "smc_lane_trial_regrants"@)
            == Some(s.lane_trial_regrants as int),
        number_under(JsonModel::Obj(direct_stall_fields(s)), "smc_lane_trial_budget_refusals"@)
            == Some(s.lane_trial_budget_refusals as int),
        number_under(JsonModel::Obj(direct_stall_fields(s)), "heat_demote_trial_spent"@)
            == Some(s.heat_demote_trial_spent as int),
        number_under(JsonModel::Obj(direct_stall_fields(s)), "heat_demote_trial_spent_earned"@)
            == Some( s.heat_demote_trial_spent_earned as int),
        number_under(JsonModel::Obj(direct_stall_fields(s)), "smc_disp_lane_registrations"@)
            == Some(s.disp_lane_registrations as int),
        number_under(JsonModel::Obj(direct_stall_fields(s)), "smc_imm8_lane_registrations"@)
            == Some(s.imm8_lane_registrations as int),
{
    lemma_direct_stall_keys_differ();
}

/// Some entries of the object, looked up by their keys.
proof fn lemma_direct_stall_keys_c(s: DirectStallSnapshot)
    ensures
        number_under(JsonModel::Obj(direct_stall_fields(s)), "smc_count_lane_registrations"@)
            == Some(s.count_lane_registrations as int),
        number_under(JsonModel::Obj(direct_stall_fields(s)), "smc_disp_store_lane_registrations"@)
            == Some( s.disp_store_lane_registrations as int),
        number_under(JsonModel::Obj(direct_stall_fields(s)), "smc_disp_load_widen_lane_registrations"@)
            == Some( s.disp_load_widen_lane_registrations as int),
        number_under(JsonModel::Obj(direct_stall_fields(s)), "jcc_sites_simple"@)
            == Some(s.jcc_sites_simple as int),
        number_under(JsonModel::Obj(direct_stall_fields(s)), "jcc_sites_overflow"@)
            == Some(s.jcc_sites_overflow as int),
        number_under(JsonModel::Obj(direct_stall_fields(s)), "jcc_sites_signed_xor"@)
            == Some(s.jcc_sites_signed_xor as int),
        number_under(JsonModel::Obj(direct_stall_fields(s)), "jcc_sites_signed_xor_zf"@)
            == Some(s.jcc_sites_signed_xor_zf as int),
        number_under(JsonModel::Obj(direct_stall_fields(s)), "hold_load_bias_probes"@)
            == Some(s.hold_load_bias_probes as int),
        number_under(JsonModel::Obj(direct_stall_fields(s)), "align_test_al_sites"@)
            == Some(s.align_test_al_sites as int),
        number_under(JsonModel::Obj(direct_stall_fields(s)), "smc_imm_lane_cap_refusals"@)
            == Some(s.imm_lane_cap_refusals as int),
        number_under(JsonModel::Obj(direct_stall_fields(s)), "smc_imm8_lane_cap_refusals"@)
            == Some(s.imm8_lane_cap_refusals as int),
        number_under(JsonModel::Obj(direct_stall_fields(s)), "smc_count_lane_cap_refusals"@)
            == Some(s.count_lane_cap_refusals as int),
        number_under(JsonModel::Obj(direct_stall_fields(s)), "smc_disp_lane_cap_refusals"@)
            == Some(s.disp_lane_cap_refusals as int),
        number_under(JsonModel::Obj(direct_stall_fields(s)), "smc_disp_store_lane_cap_refusals"@)
            == Some( s.disp_store_lane_cap_refusals as int),
        number_under(JsonModel::Obj(direct_stall_fields(s)), "smc_disp_load_widen_lane_cap_refusals"@)
            == Some( s.disp_load_widen_lane_cap_refusals as int),
        number_under(JsonModel::Obj(direct_stall_fields(s)), "decode_pack_late_view_miss"@)
            == Some(s.decode_pack_late_view_miss as int),
        number_under(JsonModel::Obj(direct_stall_fields(s)), "far_ret_native"@)
            == Some(s.far_ret_native as int),
        number_under(JsonModel::Obj(direct_stall_fields(s)), "far_call_native"@)
            == Some(s.far_call_native as int),
        number_under(JsonModel::Obj(direct_stall_fields(s)), "blocks_installed_baking_cs"@)
            == Some(s.blocks_installed_baking_cs as int),
        number_under(JsonModel::Obj(direct_stall_fields(s)), "far_link_refused_cs"@)
            == Some(s.far_link_refused_cs as int),
        number_under(JsonModel::Obj(direct_stall_fields(s)), "far_link_refused_limit"@)
            == Some(s.far_link_refused_limit as int),
        number_under(JsonModel::Obj(direct_stall_fields(s)), "far_link_cut_on_widen"@)
            == Some(s.far_link_cut_on_widen as int),
        number_under(JsonModel::Obj(direct_stall_fields(s)), "x87_top_retires_suppressed"@)
            == Some(s.x87_top_retires_suppressed as int),
        number_under(JsonModel::Obj(direct_stall_fields(s)), "x87_top_sticky_crossings"@)
            == Some(s.x87_top_sticky_crossings as int),
        number_under(JsonModel::Obj(direct_stall_fields(s)), "data_segment_retires_suppressed"@)
            == Some( s.data_segment_retires_suppressed as int),
        number_under(JsonModel::Obj(direct_stall_fields(s)), "data_segment_sticky_crossings"@)
            == Some(s.data_segment_sticky_crossings as int),
{
    lemma_direct_stall_keys_differ();
}

/// Some entries of the object, looked up by their keys.
proof fn lemma_direct_stall_keys_d(s: DirectStallSnapshot)
    ensures
        number_under(JsonModel::Obj(direct_stall_fields(s)), "data_segment_link_declines"@)
            == Some(s.data_segment_link_declines as int),
        number_under(JsonModel::Obj(direct_stall_fields(s)), "data_segment_live_promotions"@)
            == Some(s.data_segment_live_promotions as int),
        under(JsonModel::Obj(direct_stall_fields(s)), "data_segment_distinct_layouts"@)
            == Some(num_array(s.data_segment_distinct_layouts@)),
        number_under(JsonModel::Obj(direct_stall_fields(s)), "decline_memo_hits"@)
            == Some(s.decline_memo_hits as int),
        number_under(JsonModel::Obj(direct_stall_fields(s)), "decline_memo_advances"@)
            == Some(s.decline_memo_advances as int),
        number_under(JsonModel::Obj(direct_stall_fields(s)), "decline_memo_sweeps"@)
            == Some(s.decline_memo_sweeps as int),
        number_under(JsonModel::Obj(direct_stall_fields(s)), "jit_direct_poll_attempts"@)
            == Some(s.poll_attempts as int),
        number_under(JsonModel::Obj(direct_stall_fields(s)), "jit_direct_poll_decline_port"@)
            == Some(s.poll_declined_port as int),
        number_under(JsonModel::Obj(direct_stall_fields(s)), "jit_direct_poll_decline_port_source"@)
            == Some( s.poll_declined_port_source as int),
        number_under(JsonModel::Obj(direct_stall_fields(s)), "jit_direct_poll_decline_mask_source"@)
            == Some( s.poll_declined_mask_source as int),
        number_under(JsonModel::Obj(direct_stall_fields(s)), "jit_direct_poll_decline_knob"@)
            == Some(s.poll_declined_knob as int),
        number_under(JsonModel::Obj(direct_stall_fields(s)), "jit_direct_poll_decline_eligibility"@)
            == Some( s.poll_declined_eligibility as int),
        number_under(JsonModel::Obj(direct_stall_fields(s)), "jit_direct_poll_decline_sixteen_bit"@)
            == Some( s.poll_declined_sixteen_bit as int),
        number_under(JsonModel::Obj(direct_stall_fields(s)), "jit_direct_poll_decline_shape"@)
            == Some(s.poll_declined_shape as int),
        number_under(JsonModel::Obj(direct_stall_fields(s)), "jit_direct_poll_decline_cap"@)
            == Some(s.poll_declined_cap as int),
        number_under(JsonModel::Obj(direct_stall_fields(s)), "jit_direct_poll_decline_seam"@)
            == Some(s.poll_declined_seam as int),
        under(JsonModel::Obj(direct_stall_fields(s)), "jit_direct_poll_skip_spans"@)
            == Some(num_array(s.poll_skip_spans@)),
        under(JsonModel::Obj(direct_stall_fields(s)), "jit_direct_poll_skip_iterations"@)
            == Some(num_array(s.poll_skip_iterations@)),
        number_under(JsonModel::Obj(direct_stall_fields(s)), "jit_direct_poll_skip_raw_core_clocks"@)
            == Some( s.poll_skip_raw_core_clocks as int),
        number_under(JsonModel::Obj(direct_stall_fields(s)), "jit_direct_poll_skip_raw_bus_clocks"@)
            == Some(s.poll_skip_raw_bus_clocks as int),
        number_under(JsonModel::Obj(direct_stall_fields(s)), "jit_direct_poll_skip_max_span"@)
            == Some(s.poll_skip_max_span as int),
        under(JsonModel::Obj(direct_stall_fields(s)), "jit_direct_poll_skip_last_head"@)
            == Some(opt_num(s.poll_skip_last_head)),
        number_under(JsonModel::Obj(direct_stall_fields(s)), "jit_direct_link_context_rebinds"@)
            == Some(s.link_context_rebinds as int),
        number_under(JsonModel::Obj(direct_stall_fields(s)), "jit_direct_link_waiting_entries"@)
            == Some(s.link_waiting_entries as int),
        number_under(JsonModel::Obj(direct_stall_fields(s)), "jit_direct_link_linear_blocks_entries"@)
            == Some( s.link_linear_blocks_entries as int),
{
    lemma_direct_stall_keys_differ();
}

/// Looked up by its key, every entry of the object is the figure that the key names.
pub proof fn law_direct_stall_by_key(s: DirectStallSnapshot)
    ensures
        under(JsonModel::Obj(direct_stall_fields(s)), "dormant"@)
            == Some(labelled_model(s.dormant@, "reason"@, "count"@)),
        under(JsonModel::Obj(direct_stall_fields(s)), "jit_direct_retry_causes"@)
            == Some(JsonModel::Arr( s.retry_causes@.map_values(|row: RetryCause| retry_cause_model(row)), )),
        under(JsonModel::Obj(direct_stall_fields(s)), "jit_direct_retry_cause_hits"@)
            == Some(labelled_model(s.retry_cause_hits@, "cause"@, "hits"@)),
        number_under(JsonModel::Obj(direct_stall_fields(s)), "jit_direct_retry_lifts"@)
            == Some(s.retry_lifts as int),
        number_under(JsonModel::Obj(direct_stall_fields(s)), "jit_direct_retry_lift_reparks"@)
            == Some(s.retry_lift_reparks as int),
        number_under(JsonModel::Obj(direct_stall_fields(s)), "ss_load_same_record"@)
            == Some(s.ss_load_same_record as int),
        number_under(JsonModel::Obj(direct_stall_fields(s)), "ss_load_changed_record"@)
            == Some(s.ss_load_changed_record as int),
        under(JsonModel::Obj(direct_stall_fields(s)), "link_refusals"@)
            == Some(labelled_model(s.link_refusals@, "reason"@, "count"@)),
        under(JsonModel::Obj(direct_stall_fields(s)), "links_cleared"@)
            == Some(labelled_model(s.links_cleared@, "cause"@, "count"@)),
        under(JsonModel::Obj(direct_stall_fields(s)), "chain_requirement_narrowed"@)
            == Some(labelled_model( s.chain_requirement_narrowed@, "cause"@, "count"@, )),
        number_under(JsonModel::Obj(direct_stall_fields(s)), "entry_chain_reject_own_pass"@)
            == Some(s.entry_chain_reject_own_pass as int),
        number_under(JsonModel::Obj(direct_stall_fields(s)), "entry_chain_admitted"@)
            == Some(s.entry_chain_admitted as int),
        number_under(JsonModel::Obj(direct_stall_fields(s)), "entry_chain_masked_reject"@)
            == Some(s.entry_chain_masked_reject as int),
        number_under(JsonModel::Obj(direct_stall_fields(s)), "side_exit_segment_limit"@)
            == Some(s.side_exit_segment_limit as int),
        number_under(JsonModel::Obj(direct_stall_fields(s)), "side_exit_x87_eligibility"@)
            == Some(s.side_exit_x87_eligibility as int),
        number_under(JsonModel::Obj(direct_stall_fields(s)), "side_exit_divide_guard"@)
            == Some(s.side_exit_divide_guard as int),
        number_under(JsonModel::Obj(direct_stall_fields(s)), "side_exit_callout_step_break"@)
            == Some(s.side_exit_callout_step_break as int),
        number_under(JsonModel::Obj(direct_stall_fields(s)), "side_exit_callout_abnormal"@)
            == Some(s.side_exit_callout_abnormal as int),
        number_under(JsonModel::Obj(direct_stall_fields(s)), "jit_direct_callout_executed"@)
            == Some(s.callout_executed as int),
        number_under(JsonModel::Obj(direct_stall_fields(s)), "jit_direct_callout_port_v86_served"@)
            == Some(s.callout_port_v86_served as int),
        number_under(JsonModel::Obj(direct_stall_fields(s)), "jit_direct_callout_port_imm8_served"@)
            == Some(s.callout_port_imm8_served as int),
        number_under(JsonModel::Obj(direct_stall_fields(s)), "jit_direct_callout_port_out_imm8_served"@)
            == Some( s.callout_port_out_imm8_served as int),
        number_under(JsonModel::Obj(direct_stall_fields(s)), "jit_direct_callout_port_out_dx_served"@)
            == Some( s.callout_port_out_dx_served as int),
        number_under(JsonModel::Obj(direct_stall_fields(s)), "jit_direct_callout_interpret_one_executed"@)
            == Some( s.callout_interpret_one_executed as int),
        number_under(JsonModel::Obj(direct_stall_fields(s)), "jit_direct_callout_interpret_one_resync"@)
            == Some( s.callout_interpret_one_resync as int),
        number_under(JsonModel::Obj(direct_stall_fields(s)), "jit_direct_callout_interpret_one_resume_refused_prefix_use"@)
            == Some(s.callout_interpret_one_resume_refused_prefix_use as int),
        flag_under(JsonModel::Obj(direct_stall_fields(s)), "jit_direct_callout_segment_resume"@)
            == Some(s.callout_segment_resume_enabled),
        number_under(JsonModel::Obj(direct_stall_fields(s)), "jit_direct_callout_interpret_one_resync_fault"@)
            == Some( s.callout_interpret_one_resync_fault as int),
        number_under(JsonModel::Obj(direct_stall_fields(s)), "jit_direct_callout_interpret_one_abnormal"@)
            == Some( s.callout_interpret_one_abnormal as int),
        number_under(JsonModel::Obj(direct_stall_fields(s)), "jit_direct_callout_interpret_one_demoted"@)
            == Some( s.callout_interpret_one_demoted as int),
        under(JsonModel::Obj(direct_stall_fields(s)), "jit_direct_callout_interpret_one_rows"@)
            == Some(JsonModel::Arr( s.callout_interpret_one_rows@.map_values( |row: InterpretOneRow| interpret_one_row_model(row), ), )),
        number_under(JsonModel::Obj(direct_stall_fields(s)), "jit_direct_callout_deferred_code_writes"@)
            == Some( s.callout_deferred_code_writes as int),
        number_under(JsonModel::Obj(direct_stall_fields(s)), "jit_direct_callout_slot_cap_hits"@)
            == Some(s.callout_slot_cap_hits as int),
        number_under(JsonModel::Obj(direct_stall_fields(s)), "jit_direct_compile_page_overflows"@)
            == Some(s.compile_page_overflows as int),
        number_under(JsonModel::Obj(direct_stall_fields(s)), "jit_direct_compile_page_search_steps"@)
            == Some( s.compile_page_search_steps as int),
        number_under(JsonModel::Obj(direct_stall_fields(s)), "jit_direct_demoted_callout_sites"@)
            == Some(s.demoted_callout_sites as int),
        number_under(JsonModel::Obj(direct_stall_fields(s)), "jit_direct_demoted_callout_sites_refused"@)
            == Some( s.demoted_callout_sites_refused as int),
        number_under(JsonModel::Obj(direct_stall_fields(s)), "jit_direct_reject_callout_privileged"@)
            == Some( s.reject_callout_privileged as int),
        number_under(JsonModel::Obj(direct_stall_fields(s)), "callout_governor_trials"@)
            == Some(s.callout_governor_trials as int),
        number_under(JsonModel::Obj(direct_stall_fields(s)), "callout_governor_lazy"@)
            == Some(s.callout_governor_lazy as int),
        number_under(JsonModel::Obj(direct_stall_fields(s)), "callout_governor_io_touching"@)
            == Some(s.callout_governor_io_touching as int),
        number_under(JsonModel::Obj(direct_stall_fields(s)), "segment_write_block_head_entries"@)
            == Some( s.segment_write_block_head_entries as int),
        number_under(JsonModel::Obj(direct_stall_fields(s)), "segment_write_block_head_insns"@)
            == Some( s.segment_write_block_head_insns as int),
        number_under(JsonModel::Obj(direct_stall_fields(s)), "smc_lane_trials"@)
            == Some(s.lane_trials as int),
        number_under(JsonModel::Obj(direct_stall_fields(s)), "smc_lane_trial_installs"@)
            == Some(s.lane_trial_installs as int),
        number_under(JsonModel::Obj(direct_stall_fields(s)), "smc_lane_trial_first_grants"@)
            == Some(s.lane_trial_first_grants as int),
        number_under(JsonModel::Obj(direct_stall_fields(s)), "smc_lane_trial_regrants"@)
            == Some(s.lane_trial_regrants as int),
        number_under(JsonModel::Obj(direct_stall_fields(s)), "smc_lane_trial_budget_refusals"@)
            == Some(s.lane_trial_budget_refusals as int),
        number_under(JsonModel::Obj(direct_stall_fields(s)), "heat_demote_trial_spent"@)
            == Some(s.heat_demote_trial_spent as int),
        number_under(JsonModel::Obj(direct_stall_fields(s)), "heat_demote_trial_spent_earned"@)
            == Some( s.heat_demote_trial_spent_earned as int),
        number_under(JsonModel::Obj(direct_stall_fields(s)), "smc_disp_lane_registrations"@)
            == Some(s.disp_lane_registrations as int),
        number_under(JsonModel::Obj(direct_stall_fields(s)), "smc_imm8_lane_registrations"@)
            == Some(s.imm8_lane_registrations as int),
        number_under(JsonModel::Obj(direct_stall_fields(s)), "smc_count_lane_registrations"@)
            == Some(s.count_lane_registrations as int),
        number_under(JsonModel::Obj(direct_stall_fields(s)), "smc_disp_store_lane_registrations"@)
            == Some( s.disp_store_lane_registrations as int),
        number_under(JsonModel::Obj(direct_stall_fields(s)), "smc_disp_load_widen_lane_registrations"@)
            == Some( s.disp_load_widen_lane_registrations as int),
        number_under(JsonModel::Obj(direct_stall_fields(s)), "jcc_sites_simple"@)
            == Some(s.jcc_sites_simple as int),
        number_under(JsonModel::Obj(direct_stall_fields(s)), "jcc_sites_overflow"@)
            == Some(s.jcc_sites_overflow as int),
        number_under(JsonModel::Obj(direct_stall_fields(s)), "jcc_sites_signed_xor"@)
            == Some(s.jcc_sites_signed_xor as int),
        number_under(JsonModel::Obj(direct_stall_fields(s)), "jcc_sites_signed_xor_zf"@)
            == Some(s.jcc_sites_signed_xor_zf as int),
        number_under(JsonModel::Obj(direct_stall_fields(s)), "hold_load_bias_probes"@)
            == Some(s.hold_load_bias_probes as int),
        number_under(JsonModel::Obj(direct_stall_fields(s)), "align_test_al_sites"@)
            == Some(s.align_test_al_sites as int),
        number_under(JsonModel::Obj(direct_stall_fields(s)), "smc_imm_lane_cap_refusals"@)
            == Some(s.imm_lane_cap_refusals as int),
        number_under(JsonModel::Obj(direct_stall_fields(s)), "smc_imm8_lane_cap_refusals"@)
            == Some(s.imm8_lane_cap_refusals as int),
        number_under(JsonModel::Obj(direct_stall_fields(s)), "smc_count_lane_cap_refusals"@)
            == Some(s.count_lane_cap_refusals as int),
        number_under(JsonModel::Obj(direct_stall_fields(s)), "smc_disp_lane_cap_refusals"@)
            == Some(s.disp_lane_cap_refusals as int),
        number_under(JsonModel::Obj(direct_stall_fields(s)), "smc_disp_store_lane_cap_refusals"@)
            == Some( s.disp_store_lane_cap_refusals as int),
        number_under(JsonModel::Obj(direct_stall_fields(s)), "smc_disp_load_widen_lane_cap_refusals"@)
            == Some( s.disp_load_widen_lane_cap_refusals as int),
        number_under(JsonModel::Obj(direct_stall_fields(s)), "decode_pack_late_view_miss"@)
            == Some(s.decode_pack_late_view_miss as int),
        number_under(JsonModel::Obj(direct_stall_fields(s)), "far_ret_native"@)
            == Some(s.far_ret_native as int),
        number_under(JsonModel::Obj(direct_stall_fields(s)), "far_call_native"@)
            == Some(s.far_call_native as int),
        number_under(JsonModel::Obj(direct_stall_fields(s)), "blocks_installed_baking_cs"@)
            == Some(s.blocks_installed_baking_cs as int),
        number_under(JsonModel::Obj(direct_stall_fields(s)), "far_link_refused_cs"@)
            == Some(s.far_link_refused_cs as int),
        number_under(JsonModel::Obj(direct_stall_fields(s)), "far_link_refused_limit"@)
            == Some(s.far_link_refused_limit as int),
        number_under(JsonModel::Obj(direct_stall_fields(s)), "far_link_cut_on_widen"@)
            == Some(s.far_link_cut_on_widen as int),
        number_under(JsonModel::Obj(direct_stall_fields(s)), "x87_top_retires_suppressed"@)
            == Some(s.x87_top_retires_suppressed as int),
        number_under(JsonModel::Obj(direct_stall_fields(s)), "x87_top_sticky_crossings"@)
            == Some(s.x87_top_sticky_crossings as int),
        number_under(JsonModel::Obj(direct_stall_fields(s)), "data_segment_retires_suppressed"@)
            == Some( s.data_segment_retires_suppressed as int),
        number_under(JsonModel::Obj(direct_stall_fields(s)), "data_segment_sticky_crossings"@)
            == Some(s.data_segment_sticky_crossings as int),
        number_under(JsonModel::Obj(direct_stall_fields(s)), "data_segment_link_declines"@)
            == Some(s.data_segment_link_declines as int),
        number_under(JsonModel::Obj(direct_stall_fields(s)), "data_segment_live_promotions"@)
            == Some(s.data_segment_live_promotions as int),
        under(JsonModel::Obj(direct_stall_fields(s)), "data_segment_distinct_layouts"@)
            == Some(num_array(s.data_segment_distinct_layouts@)),
        number_under(JsonModel::Obj(direct_stall_fields(s)), "decline_memo_hits"@)
            == Some(s.decline_memo_hits as int),
        number_under(JsonModel::Obj(direct_stall_fields(s)), "decline_memo_advances"@)
            == Some(s.decline_memo_advances as int),
        number_under(JsonModel::Obj(direct_stall_fields(s)), "decline_memo_sweeps"@)
            == Some(s.decline_memo_sweeps as int),
        number_under(JsonModel::Obj(direct_stall_fields(s)), "jit_direct_poll_attempts"@)
            == Some(s.poll_attempts as int),
        number_under(JsonModel::Obj(direct_stall_fields(s)), "jit_direct_poll_decline_port"@)
            == Some(s.poll_declined_port as int),
        number_under(JsonModel::Obj(direct_stall_fields(s)), "jit_direct_poll_decline_port_source"@)
            == Some( s.poll_declined_port_source as int),
        number_under(JsonModel::Obj(direct_stall_fields(s)), "jit_direct_poll_decline_mask_source"@)
            == Some( s.poll_declined_mask_source as int),
        number_under(JsonModel::Obj(direct_stall_fields(s)), "jit_direct_poll_decline_knob"@)
            == Some(s.poll_declined_knob as int),
        number_under(JsonModel::Obj(direct_stall_fields(s)), "jit_direct_poll_decline_eligibility"@)
            == Some( s.poll_declined_eligibility as int),
        number_under(JsonModel::Obj(direct_stall_fields(s)), "jit_direct_poll_decline_sixteen_bit"@)
            == Some( s.poll_declined_sixteen_bit as int),
        number_under(JsonModel::Obj(direct_stall_fields(s)), "jit_direct_poll_decline_shape"@)
            == Some(s.poll_declined_shape as int),
        number_under(JsonModel::Obj(direct_stall_fields(s)), "jit_direct_poll_decline_cap"@)
            == Some(s.poll_declined_cap as int),
        number_under(JsonModel::Obj(direct_stall_fields(s)), "jit_direct_poll_decline_seam"@)
            == Some(s.poll_declined_seam as int),
        under(JsonModel::Obj(direct_stall_fields(s)), "jit_direct_poll_skip_spans"@)
            == Some(num_array(s.poll_skip_spans@)),
        under(JsonModel::Obj(direct_stall_fields(s)), "jit_direct_poll_skip_iterations"@)
            == Some(num_array(s.poll_skip_iterations@)),
        number_under(JsonModel::Obj(direct_stall_fields(s)), "jit_direct_poll_skip_raw_core_clocks"@)
            == Some( s.poll_skip_raw_core_clocks as int),
        number_under(JsonModel::Obj(direct_stall_fields(s)), "jit_direct_poll_skip_raw_bus_clocks"@)
            == Some(s.poll_skip_raw_bus_clocks as int),
        number_under(JsonModel::Obj(direct_stall_fields(s)), "jit_direct_poll_skip_max_span"@)
            == Some(s.poll_skip_max_span as int),
        under(JsonModel::Obj(direct_stall_fields(s)), "jit_direct_poll_skip_last_head"@)
            == Some(opt_num(s.poll_skip_last_head)),
        number_under(JsonModel::Obj(direct_stall_fields(s)), "jit_direct_link_context_rebinds"@)
            == Some(s.link_context_rebinds as int),
        number_under(JsonModel::Obj(direct_stall_fields(s)), "jit_direct_link_waiting_entries"@)
            == Some(s.link_waiting_entries as int),
        number_under(JsonModel::Obj(direct_stall_fields(s)), "jit_direct_link_linear_blocks_entries"@)
            == Some( s.link_linear_blocks_entries as int),
{
    lemma_direct_stall_keys_a(s);
    lemma_direct_stall_keys_b(s);
    lemma_direct_stall_keys_c(s);
    lemma_direct_stall_keys_d(s);
}

/// The figures of the admission matrix stand under their keys where it was kept.
pub proof fn law_stall_admissions_by_key(s: DirectStallSnapshot)
    ensures
        s.admission matches Some(a) ==> {
            let all = direct_stall_model(s);
            &&& number_under(all, "heat_demote_trial_spent_earned_head3"@) == Some(
                a.heat_demote_trial_spent_earned_head3 as int,
            )
            &&& number_under(all, "lane_install_demote_no_lanes"@) == Some(
                a.lane_install_demote_no_lanes as int,
            )
            &&& number_under(all, "lane_install_demote_trial_spent"@) == Some(
                a.lane_install_demote_trial_spent as int,
            )
            &&& number_under(all, "dormant_heat_park_epochs"@) == Some(
                a.dormant_heat_park_epochs as int,
            )
            &&& number_under(all, "dormant_heat_park_lifts"@) == Some(a.park_lifts as int)
        },
        s.admission is None ==> direct_stall_model(s) == JsonModel::Obj(direct_stall_fields(s)),
{
    reveal_strlit("heat_demote_trial_spent_earned_head3");
    reveal_strlit("lane_install_demote_no_lanes");
    reveal_strlit("lane_install_demote_trial_spent");
    reveal_strlit("dormant_heat_park_epochs");
    reveal_strlit("dormant_heat_park_lifts");
    assert("heat_demote_trial_spent_earned_head3"@.len() == 36);
    assert("lane_install_demote_no_lanes"@.len() == 28);
    assert("lane_install_demote_trial_spent"@.len() == 31);
    assert("dormant_heat_park_epochs"@.len() == 24);
    assert("dormant_heat_park_lifts"@.len() == 23);
}

} // verus!
