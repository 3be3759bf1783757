//! Sound, MIDI, timer and cache activity.

use vstd::prelude::*;

use crate::json::{no_fields, null, object, put, put_flag, put_number, put_text, rows, same, text};
#[allow(unused_imports)]
use crate::json::{json_of, JsonModel};
#[allow(unused_imports)]
use crate::json::{flag_under, number_under, text_under, under};

verus! {

/// One access to the FM synthesiser.
#[derive(Clone, Copy, Debug, Default)]
pub struct OplTraceEntry {
    pub write: bool,
    pub port: u16,
    pub bank: u8,
    pub register: u8,
    pub value: u8,
    pub core_clocks: u64,
    pub pending_micros: u64,
}

/// What [`opl_trace_entry_json`] gives.
pub open spec fn opl_trace_entry_model(e: OplTraceEntry) -> JsonModel {
    JsonModel::Obj(
        map![
            "w"@ => JsonModel::Bool(e.write),
            "port"@ => JsonModel::Num(e.port as int),
            "bank"@ => JsonModel::Num(e.bank as int),
            "reg"@ => JsonModel::Num(e.register as int),
            "val"@ => JsonModel::Num(e.value as int),
            "clk"@ => JsonModel::Num(e.core_clocks as int),
            "us"@ => JsonModel::Num(e.pending_micros as int),
        ],
    )
}

/// One traced access as an object.
fn opl_trace_entry_json(e: &OplTraceEntry) -> (value: serde_json::Value)
    ensures
        json_of(value) == opl_trace_entry_model(*e),
{
    let mut fields = no_fields();
    put_flag(&mut fields, "w", e.write);
    put_number(&mut fields, "port", e.port as u64);
    put_number(&mut fields, "bank", e.bank as u64);
    put_number(&mut fields, "reg", e.register as u64);
    put_number(&mut fields, "val", e.value as u64);
    put_number(&mut fields, "clk", e.core_clocks);
    put_number(&mut fields, "us", e.pending_micros);
    object(fields)
}

/// What the guest did with the FM synthesiser.
#[derive(Debug, Default)]
pub struct OplDiagnostics {
    pub register_writes: u64,
    pub status_reads: u64,
    pub status_reads_timer_expired: u64,
    pub timer_control_writes: u64,
    pub key_on_writes: u64,
    pub key_off_writes: u64,
    pub trace: Vec<OplTraceEntry>,
}

/// What [`opl_diagnostics_json`] gives.
pub open spec fn opl_diagnostics_model(opl: OplDiagnostics) -> JsonModel {
    JsonModel::Obj(
        map![
            "register_writes"@ => JsonModel::Num(opl.register_writes as int),
            "status_reads"@ => JsonModel::Num(opl.status_reads as int),
            "status_reads_timer_expired"@ => JsonModel::Num(opl.status_reads_timer_expired as int),
            "timer_control_writes"@ => JsonModel::Num(opl.timer_control_writes as int),
            "key_on_writes"@ => JsonModel::Num(opl.key_on_writes as int),
            "key_off_writes"@ => JsonModel::Num(opl.key_off_writes as int),
            "trace"@ => JsonModel::Arr(
                opl.trace@.map_values(|row: OplTraceEntry| opl_trace_entry_model(row)),
            ),
        ],
    )
}

/// The FM synthesiser counters and the access trace.
pub fn opl_diagnostics_json(opl: &OplDiagnostics) -> (value: serde_json::Value)
    ensures
        json_of(value) == opl_diagnostics_model(*opl),
{
    let mut fields = no_fields();
    put_number(&mut fields, "register_writes", opl.register_writes);
    put_number(&mut fields, "status_reads", opl.status_reads);
    put_number(&mut fields, "status_reads_timer_expired", opl.status_reads_timer_expired);
    put_number(&mut fields, "timer_control_writes", opl.timer_control_writes);
    put_number(&mut fields, "key_on_writes", opl.key_on_writes);
    put_number(&mut fields, "key_off_writes", opl.key_off_writes);
    put(
        &mut fields,
        "trace",
        rows(
            &opl.trace,
            opl_trace_entry_json,
            Ghost(|row: OplTraceEntry| opl_trace_entry_model(row)),
        ),
    );
    object(fields)
}

/// What the guest did with the sound card's DSP.
#[derive(Clone, Copy, Debug, Default)]
pub struct SbDspDiagnostics {
    pub resets: u64,
    pub reset_acknowledges: u64,
    pub command_bytes: u64,
    pub data_reads: u64,
    pub status_reads: u64,
}

/// What [`sb_dsp_json`] gives.
pub open spec fn sb_dsp_model(sb: SbDspDiagnostics) -> JsonModel {
    JsonModel::Obj(
        map![
            "resets"@ => JsonModel::Num(sb.resets as int),
            "reset_acknowledges"@ => JsonModel::Num(sb.reset_acknowledges as int),
            "command_bytes"@ => JsonModel::Num(sb.command_bytes as int),
            "data_reads"@ => JsonModel::Num(sb.data_reads as int),
            "status_reads"@ => JsonModel::Num(sb.status_reads as int),
        ],
    )
}

/// The DSP counters as one object.
pub fn sb_dsp_json(sb: &SbDspDiagnostics) -> (value: serde_json::Value)
    ensures
        json_of(value) == sb_dsp_model(*sb),
{
    let mut fields = no_fields();
    put_number(&mut fields, "resets", sb.resets);
    put_number(&mut fields, "reset_acknowledges", sb.reset_acknowledges);
    put_number(&mut fields, "command_bytes", sb.command_bytes);
    put_number(&mut fields, "data_reads", sb.data_reads);
    put_number(&mut fields, "status_reads", sb.status_reads);
    object(fields)
}

/// What the guest did with one MIDI part.
#[derive(Clone, Copy, Debug, Default)]
pub struct MpuDiagnostics {
    pub command_writes: u64,
    pub data_writes: u64,
    pub data_reads: u64,
    pub status_reads: u64,
    pub uart_enters: u64,
    pub resets: u64,
    pub start_playbacks: u64,
    pub stop_playbacks: u64,
    pub output_messages: u64,
    pub output_bytes: u64,
}

/// What [`mpu_part_json`] gives.
pub open spec fn mpu_part_model(d: MpuDiagnostics) -> JsonModel {
    JsonModel::Obj(
        map![
            "command_writes"@ => JsonModel::Num(d.command_writes as int),
            "data_writes"@ => JsonModel::Num(d.data_writes as int),
            "data_reads"@ => JsonModel::Num(d.data_reads as int),
            "status_reads"@ => JsonModel::Num(d.status_reads as int),
            "uart_enters"@ => JsonModel::Num(d.uart_enters as int),
            "resets"@ => JsonModel::Num(d.resets as int),
            "start_playbacks"@ => JsonModel::Num(d.start_playbacks as int),
            "stop_playbacks"@ => JsonModel::Num(d.stop_playbacks as int),
            "output_messages"@ => JsonModel::Num(d.output_messages as int),
            "output_bytes"@ => JsonModel::Num(d.output_bytes as int),
        ],
    )
}

/// One part's counters as an object.
fn mpu_part_json(d: &MpuDiagnostics) -> (value: serde_json::Value)
    ensures
        json_of(value) == mpu_part_model(*d),
{
    let mut fields = no_fields();
    put_number(&mut fields, "command_writes", d.command_writes);
    put_number(&mut fields, "data_writes", d.data_writes);
    put_number(&mut fields, "data_reads", d.data_reads);
    put_number(&mut fields, "status_reads", d.status_reads);
    put_number(&mut fields, "uart_enters", d.uart_enters);
    put_number(&mut fields, "resets", d.resets);
    put_number(&mut fields, "start_playbacks", d.start_playbacks);
    put_number(&mut fields, "stop_playbacks", d.stop_playbacks);
    put_number(&mut fields, "output_messages", d.output_messages);
    put_number(&mut fields, "output_bytes", d.output_bytes);
    object(fields)
}

/// What a traced MIDI access was.
#[derive(Clone, Copy, Debug, PartialEq, Eq, Structural)]
pub enum MidiTraceKind {
    CommandWrite,
    DataWrite,
    DataRead,
    Output,
}

impl MidiTraceKind {
    /// The short name that a trace gives the kind.
    pub open spec fn tag(self) -> Seq<char> {
        match self {
            MidiTraceKind::CommandWrite => "cmd"@,
            MidiTraceKind::DataWrite => "data"@,
            MidiTraceKind::DataRead => "read"@,
            MidiTraceKind::Output => "out"@,
        }
    }

    /// The short name of the kind.
    pub fn tag_text(self) -> (text: &'static str)
        ensures
            text@ == self.tag(),
    {
        match self {
            MidiTraceKind::CommandWrite => "cmd",
            MidiTraceKind::DataWrite => "data",
            MidiTraceKind::DataRead => "read",
            MidiTraceKind::Output => "out",
        }
    }
}

/// One traced MIDI access.
#[derive(Clone, Copy, Debug)]
pub struct MidiTraceEntry {
    pub kind: MidiTraceKind,
    pub wavetable: bool,
    pub value: u8,
    pub master_ticks: u64,
}

/// What [`midi_trace_entry_json`] gives.
pub open spec fn midi_trace_entry_model(e: MidiTraceEntry) -> JsonModel {
    JsonModel::Obj(
        map![
            "k"@ => JsonModel::Str(e.kind.tag()),
            "wt"@ => JsonModel::Bool(e.wavetable),
            "val"@ => JsonModel::Num(e.value as int),
            "tick"@ => JsonModel::Num(e.master_ticks as int),
        ],
    )
}

/// One traced access as an object.
fn midi_trace_entry_json(e: &MidiTraceEntry) -> (value: serde_json::Value)
    ensures
        json_of(value) == midi_trace_entry_model(*e),
{
    let mut fields = no_fields();
    put(&mut fields, "k", text(e.kind.tag_text()));
    put_flag(&mut fields, "wt", e.wavetable);
    put_number(&mut fields, "val", e.value as u64);
    put_number(&mut fields, "tick", e.master_ticks);
    object(fields)
}

/// Both MIDI parts and the access trace.
#[derive(Debug, Default)]
pub struct MpuActivity {
    pub wavetable: MpuDiagnostics,
    pub midi: MpuDiagnostics,
    pub trace: Vec<MidiTraceEntry>,
}

/// What [`mpu_json`] gives.
pub open spec fn mpu_model(m: MpuActivity) -> JsonModel {
    JsonModel::Obj(
        map![
            "wavetable"@ => mpu_part_model(m.wavetable),
            "midi"@ => mpu_part_model(m.midi),
            "trace"@ => JsonModel::Arr(
                m.trace@.map_values(|row: MidiTraceEntry| midi_trace_entry_model(row)),
            ),
        ],
    )
}

/// The MIDI counters of both parts and the access trace.
pub fn mpu_json(m: &MpuActivity) -> (value: serde_json::Value)
    ensures
        json_of(value) == mpu_model(*m),
{
    let mut fields = no_fields();
    put(&mut fields, "wavetable", mpu_part_json(&m.wavetable));
    put(&mut fields, "midi", mpu_part_json(&m.midi));
    put(
        &mut fields,
        "trace",
        rows(
            &m.trace,
            midi_trace_entry_json,
            Ghost(|row: MidiTraceEntry| midi_trace_entry_model(row)),
        ),
    );
    object(fields)
}

/// One traced timer access or timer event.
#[derive(Clone, Copy, Debug, Default)]
pub struct PitTraceEntry {
    pub port: u16,
    pub value: u8,
    pub master_ticks: u64,
}

/// What [`pit_trace_entry_json`] gives.
pub open spec fn pit_trace_entry_model(e: PitTraceEntry) -> JsonModel {
    JsonModel::Obj(
        map![
            "port"@ => JsonModel::Num(e.port as int),
            "val"@ => JsonModel::Num(e.value as int),
            "tick"@ => JsonModel::Num(e.master_ticks as int),
        ],
    )
}

/// One traced timer access as an object.
fn pit_trace_entry_json(e: &PitTraceEntry) -> (value: serde_json::Value)
    ensures
        json_of(value) == pit_trace_entry_model(*e),
{
    let mut fields = no_fields();
    put_number(&mut fields, "port", e.port as u64);
    put_number(&mut fields, "val", e.value as u64);
    put_number(&mut fields, "tick", e.master_ticks);
    object(fields)
}

/// What the guest's timer did.
#[derive(Debug, Default)]
pub struct TimerActivity {
    pub irq0_edges: u64,
    pub sb_irq_requests: u64,
    pub pit_writes: u64,
    pub pit_trace: Vec<PitTraceEntry>,
}

/// What [`timer_json`] gives.
pub open spec fn timer_model(t: TimerActivity) -> JsonModel {
    JsonModel::Obj(
        map![
            "irq0_edges"@ => JsonModel::Num(t.irq0_edges as int),
            "sb_irq_requests"@ => JsonModel::Num(t.sb_irq_requests as int),
            "pit_writes"@ => JsonModel::Num(t.pit_writes as int),
            "pit_trace"@ => JsonModel::Arr(
                t.pit_trace@.map_values(|row: PitTraceEntry| pit_trace_entry_model(row)),
            ),
        ],
    )
}

/// The timer counters and the access trace.
pub fn timer_json(t: &TimerActivity) -> (value: serde_json::Value)
    ensures
        json_of(value) == timer_model(*t),
{
    let mut fields = no_fields();
    put_number(&mut fields, "irq0_edges", t.irq0_edges);
    put_number(&mut fields, "sb_irq_requests", t.sb_irq_requests);
    put_number(&mut fields, "pit_writes", t.pit_writes);
    put(
        &mut fields,
        "pit_trace",
        rows(
            &t.pit_trace,
            pit_trace_entry_json,
            Ghost(|row: PitTraceEntry| pit_trace_entry_model(row)),
        ),
    );
    object(fields)
}

/// Cache hits and misses of one access class. The ratios are ready JSON numbers.
pub struct ShadowClassCounts {
    pub hits: u64,
    pub misses: u64,
    pub accesses: u64,
    pub hit_ratio: serde_json::Value,
    /// Kept by the two-level probe only.
    pub miss_ratio: Option<serde_json::Value>,
}

/// What one access class is reported as.
pub open spec fn shadow_class_model(c: ShadowClassCounts) -> JsonModel {
    let fields: Map<Seq<char>, JsonModel> = map![
        "hits"@ => JsonModel::Num(c.hits as int),
        "misses"@ => JsonModel::Num(c.misses as int),
        "accesses"@ => JsonModel::Num(c.accesses as int),
        "hit_ratio"@ => json_of(c.hit_ratio),
    ];
    JsonModel::Obj(
        match c.miss_ratio {
            Some(ratio) => fields.insert("miss_ratio"@, json_of(ratio)),
            None => fields,
        },
    )
}

/// One access class as an object.
fn shadow_class_json(c: &ShadowClassCounts) -> (value: serde_json::Value)
    ensures
        json_of(value) == shadow_class_model(*c),
{
    let mut fields = no_fields();
    put_number(&mut fields, "hits", c.hits);
    put_number(&mut fields, "misses", c.misses);
    put_number(&mut fields, "accesses", c.accesses);
    put(&mut fields, "hit_ratio", same(&c.hit_ratio));
    if let Some(ratio) = &c.miss_ratio {
        put(&mut fields, "miss_ratio", same(ratio));
    }
    object(fields)
}

/// One cache level.
pub struct ShadowLevel {
    pub code_fetch: ShadowClassCounts,
    pub data_read: ShadowClassCounts,
    pub data_write: ShadowClassCounts,
    pub write_back_victims: u64,
}

/// What [`shadow_level_json`] gives.
pub open spec fn shadow_level_model(l: ShadowLevel) -> JsonModel {
    JsonModel::Obj(
        map![
            "code_fetch"@ => shadow_class_model(l.code_fetch),
            "data_read"@ => shadow_class_model(l.data_read),
            "data_write"@ => shadow_class_model(l.data_write),
            "write_back_victims"@ => JsonModel::Num(l.write_back_victims as int),
        ],
    )
}

/// One cache level as an object.
fn shadow_level_json(l: &ShadowLevel) -> (value: serde_json::Value)
    ensures
        json_of(value) == shadow_level_model(*l),
{
    let mut fields = no_fields();
    put(&mut fields, "code_fetch", shadow_class_json(&l.code_fetch));
    put(&mut fields, "data_read", shadow_class_json(&l.data_read));
    put(&mut fields, "data_write", shadow_class_json(&l.data_write));
    put_number(&mut fields, "write_back_victims", l.write_back_victims);
    object(fields)
}

/// What the two-level cache probe keeps beside the first level.
pub struct ShadowHierarchy {
    /// The processor that the geometry was taken from.
    pub persona: Option<String>,
    pub write_back_victims: u64,
    pub l2: ShadowLevel,
    pub sample_k: u64,
    pub total_entries: u64,
    pub sampled_entries: u64,
    pub sampled_fraction: serde_json::Value,
}

/// The cache probe: hits and misses against the real tag geometry.
pub struct ShadowL1Diagnostics {
    pub enabled: bool,
    pub code_fetch: ShadowClassCounts,
    pub data_read: ShadowClassCounts,
    pub data_write: ShadowClassCounts,
    /// Present where the build carries the two-level probe.
    pub hierarchy: Option<ShadowHierarchy>,
}

/// What an optional text is reported as.
pub open spec fn opt_text_model(t: Option<String>) -> JsonModel {
    match t {
        Some(t) => JsonModel::Str(t@),
        None => JsonModel::Null,
    }
}

/// What [`shadow_l1_json`] gives: the first level, and with the two-level probe
/// its persona, its second level and how it sampled.
pub open spec fn shadow_l1_model(d: ShadowL1Diagnostics) -> JsonModel {
    let fields: Map<Seq<char>, JsonModel> = map![
        "enabled"@ => JsonModel::Bool(d.enabled),
        "code_fetch"@ => shadow_class_model(d.code_fetch),
        "data_read"@ => shadow_class_model(d.data_read),
        "data_write"@ => shadow_class_model(d.data_write),
    ];
    JsonModel::Obj(
        match d.hierarchy {
            Some(h) => fields
                .insert("persona"@, opt_text_model(h.persona))
                .insert("write_back_victims"@, JsonModel::Num(h.write_back_victims as int))
                .insert("l2"@, shadow_level_model(h.l2))
                .insert("sample_k"@, JsonModel::Num(h.sample_k as int))
                .insert("total_entries"@, JsonModel::Num(h.total_entries as int))
                .insert("sampled_entries"@, JsonModel::Num(h.sampled_entries as int))
                .insert("sampled_fraction"@, json_of(h.sampled_fraction)),
            None => fields,
        },
    )
}

/// The cache probe as one object.
pub fn shadow_l1_json(d: &ShadowL1Diagnostics) -> (value: serde_json::Value)
    ensures
        json_of(value) == shadow_l1_model(*d),
{
    let mut fields = no_fields();
    put_flag(&mut fields, "enabled", d.enabled);
    put(&mut fields, "code_fetch", shadow_class_json(&d.code_fetch));
    put(&mut fields, "data_read", shadow_class_json(&d.data_read));
    put(&mut fields, "data_write", shadow_class_json(&d.data_write));
    if let Some(h) = &d.hierarchy {
        match &h.persona {
            Some(persona) => put_text(&mut fields, "persona", persona.as_str()),
            None => put(&mut fields, "persona", null()),
        }
        put_number(&mut fields, "write_back_victims", h.write_back_victims);
        put(&mut fields, "l2", shadow_level_json(&h.l2));
        put_number(&mut fields, "sample_k", h.sample_k);
        put_number(&mut fields, "total_entries", h.total_entries);
        put_number(&mut fields, "sampled_entries", h.sampled_entries);
        put(&mut fields, "sampled_fraction", same(&h.sampled_fraction));
    }
    object(fields)
}

// ---------------------------------------------------------------------------
// By key
// ---------------------------------------------------------------------------

/// Looked up by its key, every entry of the object is the figure that the key names.
pub proof fn law_opl_trace_entry_by_key(e: OplTraceEntry)
    ensures
        flag_under(opl_trace_entry_model(e), "w"@) == Some(e.write),
        number_under(opl_trace_entry_model(e), "port"@) == Some(e.port as int),
        number_under(opl_trace_entry_model(e), "bank"@) == Some(e.bank as int),
        number_under(opl_trace_entry_model(e), "reg"@) == Some(e.register as int),
        number_under(opl_trace_entry_model(e), "val"@) == Some(e.value as int),
        number_under(opl_trace_entry_model(e), "clk"@) == Some(e.core_clocks as int),
        number_under(opl_trace_entry_model(e), "us"@) == Some(e.pending_micros as int),
{
    reveal_strlit("w");
    assert("w"@.len() == 1 && "w"@[0] == 'w');
    reveal_strlit("port");
    assert("port"@.len() == 4 && "port"@[0] == 'p');
    reveal_strlit("bank");
    assert("bank"@.len() == 4 && "bank"@[0] == 'b');
    reveal_strlit("reg");
    assert("reg"@.len() == 3 && "reg"@[0] == 'r');
    reveal_strlit("val");
    assert("val"@.len() == 3 && "val"@[0] == 'v');
    reveal_strlit("clk");
    assert("clk"@.len() == 3 && "clk"@[0] == 'c');
    reveal_strlit("us");
    assert("us"@.len() == 2 && "us"@[0] == 'u');
}

/// Looked up by its key, every entry of the object is the figure that the key names.
pub proof fn law_opl_diagnostics_by_key(opl: OplDiagnostics)
    ensures
        number_under(opl_diagnostics_model(opl), "register_writes"@)
            == Some(opl.register_writes as int),
        number_under(opl_diagnostics_model(opl), "status_reads"@) == Some(opl.status_reads as int),
        number_under(opl_diagnostics_model(opl), "status_reads_timer_expired"@)
            == Some(opl.status_reads_timer_expired as int),
        number_under(opl_diagnostics_model(opl), "timer_control_writes"@)
            == Some(opl.timer_control_writes as int),
        number_under(opl_diagnostics_model(opl), "key_on_writes"@)
            == Some(opl.key_on_writes as int),
        number_under(opl_diagnostics_model(opl), "key_off_writes"@)
            == Some(opl.key_off_writes as int),
        under(opl_diagnostics_model(opl), "trace"@)
            == Some(JsonModel::Arr( opl.trace@.map_values(|row: OplTraceEntry| opl_trace_entry_model(row)), )),
{
    reveal_strlit("register_writes");
    assert("register_writes"@.len() == 15);
    reveal_strlit("status_reads");
    assert("status_reads"@.len() == 12);
    reveal_strlit("status_reads_timer_expired");
    assert("status_reads_timer_expired"@.len() == 26);
    reveal_strlit("timer_control_writes");
    assert("timer_control_writes"@.len() == 20);
    reveal_strlit("key_on_writes");
    assert("key_on_writes"@.len() == 13);
    reveal_strlit("key_off_writes");
    assert("key_off_writes"@.len() == 14);
    reveal_strlit("trace");
    assert("trace"@.len() == 5);
}

/// Looked up by its key, every entry of the object is the figure that the key names.
pub proof fn law_sb_dsp_by_key(sb: SbDspDiagnostics)
    ensures
        number_under(sb_dsp_model(sb), "resets"@) == Some(sb.resets as int),
        number_under(sb_dsp_model(sb), "reset_acknowledges"@) == Some(sb.reset_acknowledges as int),
        number_under(sb_dsp_model(sb), "command_bytes"@) == Some(sb.command_bytes as int),
        number_under(sb_dsp_model(sb), "data_reads"@) == Some(sb.data_reads as int),
        number_under(sb_dsp_model(sb), "status_reads"@) == Some(sb.status_reads as int),
{
    reveal_strlit("resets");
    assert("resets"@.len() == 6);
    reveal_strlit("reset_acknowledges");
    assert("reset_acknowledges"@.len() == 18);
    reveal_strlit("command_bytes");
    assert("command_bytes"@.len() == 13);
    reveal_strlit("data_reads");
    assert("data_reads"@.len() == 10);
    reveal_strlit("status_reads");
    assert("status_reads"@.len() == 12);
}

/// Looked up by its key, every entry of the object is the figure that the key names.
pub proof fn law_mpu_part_by_key(d: MpuDiagnostics)
    ensures
        number_under(mpu_part_model(d), "command_writes"@) == Some(d.command_writes as int),
        number_under(mpu_part_model(d), "data_writes"@) == Some(d.data_writes as int),
        number_under(mpu_part_model(d), "data_reads"@) == Some(d.data_reads as int),
        number_under(mpu_part_model(d), "status_reads"@) == Some(d.status_reads as int),
        number_under(mpu_part_model(d), "uart_enters"@) == Some(d.uart_enters as int),
        number_under(mpu_part_model(d), "resets"@) == Some(d.resets as int),
        number_under(mpu_part_model(d), "start_playbacks"@) == Some(d.start_playbacks as int),
        number_under(mpu_part_model(d), "stop_playbacks"@) == Some(d.stop_playbacks as int),
        number_under(mpu_part_model(d), "output_messages"@) == Some(d.output_messages as int),
        number_under(mpu_part_model(d), "output_bytes"@) == Some(d.output_bytes as int),
{
    reveal_strlit("command_writes");
    assert("command_writes"@.len() == 14 && "command_writes"@[0] == 'c');
    reveal_strlit("data_writes");
    assert("data_writes"@.len() == 11 && "data_writes"@[0] == 'd');
    reveal_strlit("data_reads");
    assert("data_reads"@.len() == 10 && "data_reads"@[0] == 'd');
    reveal_strlit("status_reads");
    assert("status_reads"@.len() == 12 && "status_reads"@[0] == 's');
    reveal_strlit("uart_enters");
    assert("uart_enters"@.len() == 11 && "uart_enters"@[0] == 'u');
    reveal_strlit("resets");
    assert("resets"@.len() == 6 && "resets"@[0] == 'r');
    reveal_strlit("start_playbacks");
    assert("start_playbacks"@.len() == 15 && "start_playbacks"@[0] == 's');
    reveal_strlit("stop_playbacks");
    assert("stop_playbacks"@.len() == 14 && "stop_playbacks"@[0] == 's');
    reveal_strlit("output_messages");
    assert("output_messages"@.len() == 15 && "output_messages"@[0] == 'o');
    reveal_strlit("output_bytes");
    assert("output_bytes"@.len() == 12 && "output_bytes"@[0] == 'o');
}

/// Looked up by its key, every entry of the object is the figure that the key names.
pub proof fn law_midi_trace_entry_by_key(e: MidiTraceEntry)
    ensures
        text_under(midi_trace_entry_model(e), "k"@) == Some(e.kind.tag()),
        flag_under(midi_trace_entry_model(e), "wt"@) == Some(e.wavetable),
        number_under(midi_trace_entry_model(e), "val"@) == Some(e.value as int),
        number_under(midi_trace_entry_model(e), "tick"@) == Some(e.master_ticks as int),
{
    reveal_strlit("k");
    assert("k"@.len() == 1);
    reveal_strlit("wt");
    assert("wt"@.len() == 2);
    reveal_strlit("val");
    assert("val"@.len() == 3);
    reveal_strlit("tick");
    assert("tick"@.len() == 4);
}

/// Looked up by its key, every entry of the object is the figure that the key names.
pub proof fn law_mpu_by_key(m: MpuActivity)
    ensures
        under(mpu_model(m), "wavetable"@) == Some(mpu_part_model(m.wavetable)),
        under(mpu_model(m), "midi"@) == Some(mpu_part_model(m.midi)),
        under(mpu_model(m), "trace"@)
            == Some(JsonModel::Arr( m.trace@.map_values(|row: MidiTraceEntry| midi_trace_entry_model(row)), )),
{
    reveal_strlit("wavetable");
    assert("wavetable"@.len() == 9);
    reveal_strlit("midi");
    assert("midi"@.len() == 4);
    reveal_strlit("trace");
    assert("trace"@.len() == 5);
}

/// Looked up by its key, every entry of the object is the figure that the key names.
pub proof fn law_pit_trace_entry_by_key(e: PitTraceEntry)
    ensures
        number_under(pit_trace_entry_model(e), "port"@) == Some(e.port as int),
        number_under(pit_trace_entry_model(e), "val"@) == Some(e.value as int),
        number_under(pit_trace_entry_model(e), "tick"@) == Some(e.master_ticks as int),
{
    reveal_strlit("port");
    assert("port"@.len() == 4 && "port"@[0] == 'p');
    reveal_strlit("val");
    assert("val"@.len() == 3 && "val"@[0] == 'v');
    reveal_strlit("tick");
    assert("tick"@.len() == 4 && "tick"@[0] == 't');
}

/// Looked up by its key, every entry of the object is the figure that the key names.
pub proof fn law_timer_by_key(t: TimerActivity)
    ensures
        number_under(timer_model(t), "irq0_edges"@) == Some(t.irq0_edges as int),
        number_under(timer_model(t), "sb_irq_requests"@) == Some(t.sb_irq_requests as int),
        number_under(timer_model(t), "pit_writes"@) == Some(t.pit_writes as int),
        under(timer_model(t), "pit_trace"@)
            == Some(JsonModel::Arr( t.pit_trace@.map_values(|row: PitTraceEntry| pit_trace_entry_model(row)), )),
{
    reveal_strlit("irq0_edges");
    assert("irq0_edges"@.len() == 10 && "irq0_edges"@[0] == 'i');
    reveal_strlit("sb_irq_requests");
    assert("sb_irq_requests"@.len() == 15 && "sb_irq_requests"@[0] == 's');
    reveal_strlit("pit_writes");
    assert("pit_writes"@.len() == 10 && "pit_writes"@[0] == 'p');
    reveal_strlit("pit_trace");
    assert("pit_trace"@.len() == 9 && "pit_trace"@[0] == 'p');
}

/// Looked up by its key, every entry of the object is the figure that the key names.
pub proof fn law_shadow_class_by_key(c: ShadowClassCounts)
    ensures
        number_under(shadow_class_model(c), "hits"@) == Some(c.hits as int),
        number_under(shadow_class_model(c), "misses"@) == Some(c.misses as int),
        number_under(shadow_class_model(c), "accesses"@) == Some(c.accesses as int),
        under(shadow_class_model(c), "hit_ratio"@) == Some(json_of(c.hit_ratio)),
{
    reveal_strlit("hits");
    assert("hits"@.len() == 4);
    reveal_strlit("misses");
    assert("misses"@.len() == 6);
    reveal_strlit("accesses");
    assert("accesses"@.len() == 8);
    reveal_strlit("hit_ratio");
    assert("hit_ratio"@.len() == 9);
    reveal_strlit("miss_ratio");
    assert("miss_ratio"@.len() == 10);
}

/// Looked up by its key, every entry of the object is the figure that the key names.
pub proof fn law_shadow_level_by_key(l: ShadowLevel)
    ensures
        under(shadow_level_model(l), "code_fetch"@) == Some(shadow_class_model(l.code_fetch)),
        under(shadow_level_model(l), "data_read"@) == Some(shadow_class_model(l.data_read)),
        under(shadow_level_model(l), "data_write"@) == Some(shadow_class_model(l.data_write)),
        number_under(shadow_level_model(l), "write_back_victims"@)
            == Some(l.write_back_victims as int),
{
    reveal_strlit("code_fetch");
    assert("code_fetch"@.len() == 10 && "code_fetch"@[0] == 'c');
    reveal_strlit("data_read");
    assert("data_read"@.len() == 9 && "data_read"@[0] == 'd');
    reveal_strlit("data_write");
    assert("data_write"@.len() == 10 && "data_write"@[0] == 'd');
    reveal_strlit("write_back_victims");
    assert("write_back_victims"@.len() == 18 && "write_back_victims"@[0] == 'w');
}

/// Looked up by its key, every entry of the object is the figure that the key names.
pub proof fn law_shadow_l1_by_key(d: ShadowL1Diagnostics)
    ensures
        flag_under(shadow_l1_model(d), "enabled"@) == Some(d.enabled),
        under(shadow_l1_model(d), "code_fetch"@) == Some(shadow_class_model(d.code_fetch)),
        under(shadow_l1_model(d), "data_read"@) == Some(shadow_class_model(d.data_read)),
        under(shadow_l1_model(d), "data_write"@) == Some(shadow_class_model(d.data_write)),
{
    reveal_strlit("enabled");
    assert("enabled"@.len() == 7 && "enabled"@[0] == 'e');
    reveal_strlit("code_fetch");
    assert("code_fetch"@.len() == 10 && "code_fetch"@[0] == 'c');
    reveal_strlit("data_read");
    assert("data_read"@.len() == 9 && "data_read"@[0] == 'd');
    reveal_strlit("data_write");
    assert("data_write"@.len() == 10 && "data_write"@[0] == 'd');
    reveal_strlit("persona");
    assert("persona"@.len() == 7 && "persona"@[0] == 'p');
    reveal_strlit("write_back_victims");
    assert("write_back_victims"@.len() == 18 && "write_back_victims"@[0] == 'w');
    reveal_strlit("l2");
    assert("l2"@.len() == 2 && "l2"@[0] == 'l');
    reveal_strlit("sample_k");
    assert("sample_k"@.len() == 8 && "sample_k"@[0] == 's');
    reveal_strlit("total_entries");
    assert("total_entries"@.len() == 13 && "total_entries"@[0] == 't');
    reveal_strlit("sampled_entries");
    assert("sampled_entries"@.len() == 15 && "sampled_entries"@[0] == 's');
    reveal_strlit("sampled_fraction");
    assert("sampled_fraction"@.len() == 16 && "sampled_fraction"@[0] == 's');
}

/// The hierarchy of a cache probe stands under its keys where there is one.
pub proof fn law_shadow_hierarchy_by_key(d: ShadowL1Diagnostics, c: ShadowClassCounts)
    ensures
        d.hierarchy matches Some(h) ==> {
            let all = shadow_l1_model(d);
            &&& under(all, "persona"@) == Some(opt_text_model(h.persona))
            &&& number_under(all, "write_back_victims"@) == Some(h.write_back_victims as int)
            &&& under(all, "l2"@) == Some(shadow_level_model(h.l2))
            &&& number_under(all, "sample_k"@) == Some(h.sample_k as int)
            &&& number_under(all, "total_entries"@) == Some(h.total_entries as int)
            &&& number_under(all, "sampled_entries"@) == Some(h.sampled_entries as int)
            &&& under(all, "sampled_fraction"@) == Some(json_of(h.sampled_fraction))
        },
        c.miss_ratio matches Some(ratio) ==> under(shadow_class_model(c), "miss_ratio"@) == Some(
            json_of(ratio),
        ),
        c.miss_ratio is None ==> under(shadow_class_model(c), "miss_ratio"@) is None,
{
    reveal_strlit("persona");
    reveal_strlit("write_back_victims");
    reveal_strlit("l2");
    reveal_strlit("sample_k");
    reveal_strlit("total_entries");
    reveal_strlit("sampled_entries");
    reveal_strlit("sampled_fraction");
    reveal_strlit("miss_ratio");
    reveal_strlit("hits");
    reveal_strlit("misses");
    reveal_strlit("accesses");
    reveal_strlit("hit_ratio");
    assert("persona"@.len() == 7 && "write_back_victims"@.len() == 18 && "l2"@.len() == 2);
    assert("sample_k"@.len() == 8 && "total_entries"@.len() == 13);
    assert("sampled_entries"@.len() == 15 && "sampled_fraction"@.len() == 16);
    assert("miss_ratio"@.len() == 10 && "hits"@.len() == 4 && "misses"@.len() == 6);
    assert("accesses"@.len() == 8 && "hit_ratio"@.len() == 9);
}

} // verus!
