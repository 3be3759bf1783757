//! The video mode census.
//!
//! Both mode lists are always there, empty or not: a missing list would read as
//! "not measured", an empty one reads as "measured, and the guest never went there".

use vstd::prelude::*;

use crate::json::{
    no_fields, null, number, numbers, object, pretty_text, put, put_flag, put_number, put_text,
    rows, same,
};
#[allow(unused_imports)]
use crate::json::{fields_of, json_of, num_array, pretty_json, JsonModel};
use crate::text::prefixed_hex_text;
#[allow(unused_imports)]
use crate::text::prefixed_hex;
#[allow(unused_imports)]
use crate::json::{flag_under, number_under, text_under, under};

verus! {

/// One geometry that the guest programmed.
#[derive(Debug, Default)]
pub struct ModeCensusKey {
    /// The mode by name.
    pub mode: String,
    pub hdisp_end: u32,
    /// Raster lines, not source rows.
    pub vdisp_end: u32,
    pub vtotal: u32,
    pub double_scan: bool,
    pub line_compare_active: bool,
    pub bpp: u32,
}

/// The source rows of a geometry: a double-scanned one shows each row twice.
pub open spec fn source_lines(key: ModeCensusKey) -> int {
    if key.double_scan {
        key.vdisp_end as int / 2
    } else {
        key.vdisp_end as int
    }
}

/// One geometry, and how often the guest programmed it.
#[derive(Debug, Default)]
pub struct ModeCensusEntry {
    pub key: ModeCensusKey,
    pub entries: u64,
}

/// What [`mode_entry_json`] gives.
pub open spec fn mode_entry_model(e: ModeCensusEntry) -> JsonModel {
    JsonModel::Obj(
        map![
            "mode"@ => JsonModel::Str(e.key.mode@),
            "hdisp_end"@ => JsonModel::Num(e.key.hdisp_end as int),
            "vdisp_end"@ => JsonModel::Num(e.key.vdisp_end as int),
            "source_lines"@ => JsonModel::Num(source_lines(e.key)),
            "vtotal"@ => JsonModel::Num(e.key.vtotal as int),
            "double_scan"@ => JsonModel::Bool(e.key.double_scan),
            "line_compare_active"@ => JsonModel::Bool(e.key.line_compare_active),
            "bpp"@ => JsonModel::Num(e.key.bpp as int),
            "entries"@ => JsonModel::Num(e.entries as int),
        ],
    )
}

/// One geometry as an object.
fn mode_entry_json(e: &ModeCensusEntry) -> (value: serde_json::Value)
    ensures
        json_of(value) == mode_entry_model(*e),
{
    let mut fields = no_fields();
    put_text(&mut fields, "mode", e.key.mode.as_str());
    put_number(&mut fields, "hdisp_end", e.key.hdisp_end as u64);
    put_number(&mut fields, "vdisp_end", e.key.vdisp_end as u64);
    put(
        &mut fields,
        "source_lines",
        number(if e.key.double_scan { e.key.vdisp_end / 2 } else { e.key.vdisp_end } as u64),
    );
    put_number(&mut fields, "vtotal", e.key.vtotal as u64);
    put_flag(&mut fields, "double_scan", e.key.double_scan);
    put_flag(&mut fields, "line_compare_active", e.key.line_compare_active);
    put_number(&mut fields, "bpp", e.key.bpp as u64);
    put_number(&mut fields, "entries", e.entries);
    object(fields)
}

/// One frame size of the 3D card, and how often the guest set it.
#[derive(Clone, Copy, Debug, Default)]
pub struct DistiraCensusEntry {
    pub width: u32,
    pub height: u32,
    pub entries: u64,
}

/// What [`distira_entry_json`] gives.
pub open spec fn distira_entry_model(e: DistiraCensusEntry) -> JsonModel {
    JsonModel::Obj(
        map![
            "width"@ => JsonModel::Num(e.width as int),
            "height"@ => JsonModel::Num(e.height as int),
            "entries"@ => JsonModel::Num(e.entries as int),
        ],
    )
}

/// One frame size as an object.
fn distira_entry_json(e: &DistiraCensusEntry) -> (value: serde_json::Value)
    ensures
        json_of(value) == distira_entry_model(*e),
{
    let mut fields = no_fields();
    put_number(&mut fields, "width", e.width as u64);
    put_number(&mut fields, "height", e.height as u64);
    put_number(&mut fields, "entries", e.entries);
    object(fields)
}

/// What forced the raster queue to drain.
#[derive(Clone, Copy, Debug, Default)]
pub struct DistiraDrainCauses {
    pub texture_write: u64,
    pub lfb_read: u64,
    pub lfb_write: u64,
    pub register_read_stats: u64,
    pub register_write_uncovered: u64,
    pub nop_cmd_reset_stats: u64,
    pub swap_or_scanout: u64,
    pub queue_full: u64,
    pub immediate_triangle: u64,
    pub config: u64,
}

/// What [`drain_causes_json`] gives.
pub open spec fn drain_causes_model(c: DistiraDrainCauses) -> JsonModel {
    JsonModel::Obj(
        map![
            "texture_write"@ => JsonModel::Num(c.texture_write as int),
            "lfb_read"@ => JsonModel::Num(c.lfb_read as int),
            "lfb_write"@ => JsonModel::Num(c.lfb_write as int),
            "register_read_stats"@ => JsonModel::Num(c.register_read_stats as int),
            "register_write_uncovered"@ => JsonModel::Num(c.register_write_uncovered as int),
            "nop_cmd_reset_stats"@ => JsonModel::Num(c.nop_cmd_reset_stats as int),
            "swap_or_scanout"@ => JsonModel::Num(c.swap_or_scanout as int),
            "queue_full"@ => JsonModel::Num(c.queue_full as int),
            "immediate_triangle"@ => JsonModel::Num(c.immediate_triangle as int),
            "config"@ => JsonModel::Num(c.config as int),
        ],
    )
}

/// The drain causes as an object.
fn drain_causes_json(c: &DistiraDrainCauses) -> (value: serde_json::Value)
    ensures
        json_of(value) == drain_causes_model(*c),
{
    let mut fields = no_fields();
    put_number(&mut fields, "texture_write", c.texture_write);
    put_number(&mut fields, "lfb_read", c.lfb_read);
    put_number(&mut fields, "lfb_write", c.lfb_write);
    put_number(&mut fields, "register_read_stats", c.register_read_stats);
    put_number(&mut fields, "register_write_uncovered", c.register_write_uncovered);
    put_number(&mut fields, "nop_cmd_reset_stats", c.nop_cmd_reset_stats);
    put_number(&mut fields, "swap_or_scanout", c.swap_or_scanout);
    put_number(&mut fields, "queue_full", c.queue_full);
    put_number(&mut fields, "immediate_triangle", c.immediate_triangle);
    put_number(&mut fields, "config", c.config);
    object(fields)
}

/// What became of the triangles. Vertex samples are lists of triangles, each a
/// list of points; the coordinates are ready JSON numbers.
pub struct DistiraTriangleCensus {
    pub submitted: u64,
    pub reject_zero_area: u64,
    pub zero_area_degenerate: u64,
    pub zero_area_collinear: u64,
    pub fixed_vertex_writes: u64,
    pub float_vertex_writes: u64,
    pub zero_area_float_samples: serde_json::Value,
    pub zero_area_samples: serde_json::Value,
    pub drawn_samples: serde_json::Value,
    pub reject_empty_box: u64,
    pub pixels_in: u64,
    pub reject_stipple: u64,
    pub reject_depth: u64,
    pub reject_alpha_mask: u64,
    pub reject_chroma: u64,
    pub reject_alpha_test: u64,
    pub pixels_out: u64,
    pub color_written: u64,
    pub color_written_nonblack: u64,
    pub color_offset_min: u64,
    pub color_offset_max: u64,
    pub reject_rgb_wmask: u64,
    pub reject_offscreen: u64,
    pub depth_written: u64,
    pub queue_drains: u64,
    pub queue_drains_parallel: u64,
    pub queue_drain_causes: DistiraDrainCauses,
}

/// What [`triangle_census_json`] gives.
pub open spec fn triangle_census_model(t: DistiraTriangleCensus) -> JsonModel {
    JsonModel::Obj(
        map![
            "submitted"@ => JsonModel::Num(t.submitted as int),
            "reject_zero_area"@ => JsonModel::Num(t.reject_zero_area as int),
            "zero_area_degenerate"@ => JsonModel::Num(t.zero_area_degenerate as int),
            "zero_area_collinear"@ => JsonModel::Num(t.zero_area_collinear as int),
            "fixed_vertex_writes"@ => JsonModel::Num(t.fixed_vertex_writes as int),
            "float_vertex_writes"@ => JsonModel::Num(t.float_vertex_writes as int),
            "zero_area_float_samples"@ => json_of(t.zero_area_float_samples),
            "zero_area_samples"@ => json_of(t.zero_area_samples),
            "drawn_samples"@ => json_of(t.drawn_samples),
            "reject_empty_box"@ => JsonModel::Num(t.reject_empty_box as int),
            "pixels_in"@ => JsonModel::Num(t.pixels_in as int),
            "reject_stipple"@ => JsonModel::Num(t.reject_stipple as int),
            "reject_depth"@ => JsonModel::Num(t.reject_depth as int),
            "reject_alpha_mask"@ => JsonModel::Num(t.reject_alpha_mask as int),
            "reject_chroma"@ => JsonModel::Num(t.reject_chroma as int),
            "reject_alpha_test"@ => JsonModel::Num(t.reject_alpha_test as int),
            "pixels_out"@ => JsonModel::Num(t.pixels_out as int),
            "color_written"@ => JsonModel::Num(t.color_written as int),
            "color_written_nonblack"@ => JsonModel::Num(t.color_written_nonblack as int),
            "color_offset_min"@ => JsonModel::Num(t.color_offset_min as int),
            "color_offset_max"@ => JsonModel::Num(t.color_offset_max as int),
            "reject_rgb_wmask"@ => JsonModel::Num(t.reject_rgb_wmask as int),
            "reject_offscreen"@ => JsonModel::Num(t.reject_offscreen as int),
            "depth_written"@ => JsonModel::Num(t.depth_written as int),
            "queue_drains"@ => JsonModel::Num(t.queue_drains as int),
            "queue_drains_parallel"@ => JsonModel::Num(t.queue_drains_parallel as int),
            "queue_drain_causes"@ => drain_causes_model(t.queue_drain_causes),
        ],
    )
}

/// The triangle census as an object.
fn triangle_census_json(t: &DistiraTriangleCensus) -> (value: serde_json::Value)
    ensures
        json_of(value) == triangle_census_model(*t),
{
    let mut fields = no_fields();
    put_number(&mut fields, "submitted", t.submitted);
    put_number(&mut fields, "reject_zero_area", t.reject_zero_area);
    put_number(&mut fields, "zero_area_degenerate", t.zero_area_degenerate);
    put_number(&mut fields, "zero_area_collinear", t.zero_area_collinear);
    put_number(&mut fields, "fixed_vertex_writes", t.fixed_vertex_writes);
    put_number(&mut fields, "float_vertex_writes", t.float_vertex_writes);
    put(&mut fields, "zero_area_float_samples", same(&t.zero_area_float_samples));
    put(&mut fields, "zero_area_samples", same(&t.zero_area_samples));
    put(&mut fields, "drawn_samples", same(&t.drawn_samples));
    put_number(&mut fields, "reject_empty_box", t.reject_empty_box);
    put_number(&mut fields, "pixels_in", t.pixels_in);
    put_number(&mut fields, "reject_stipple", t.reject_stipple);
    put_number(&mut fields, "reject_depth", t.reject_depth);
    put_number(&mut fields, "reject_alpha_mask", t.reject_alpha_mask);
    put_number(&mut fields, "reject_chroma", t.reject_chroma);
    put_number(&mut fields, "reject_alpha_test", t.reject_alpha_test);
    put_number(&mut fields, "pixels_out", t.pixels_out);
    put_number(&mut fields, "color_written", t.color_written);
    put_number(&mut fields, "color_written_nonblack", t.color_written_nonblack);
    put_number(&mut fields, "color_offset_min", t.color_offset_min);
    put_number(&mut fields, "color_offset_max", t.color_offset_max);
    put_number(&mut fields, "reject_rgb_wmask", t.reject_rgb_wmask);
    put_number(&mut fields, "reject_offscreen", t.reject_offscreen);
    put_number(&mut fields, "depth_written", t.depth_written);
    put_number(&mut fields, "queue_drains", t.queue_drains);
    put_number(&mut fields, "queue_drains_parallel", t.queue_drains_parallel);
    put(&mut fields, "queue_drain_causes", drain_causes_json(&t.queue_drain_causes));
    object(fields)
}

/// The 3D card's scanout at the end of the run.
pub struct DistiraScanoutState {
    pub width: u64,
    pub height: u64,
    pub pitch: u64,
    pub front_base: u64,
    pub back_base: u64,
    pub scanout_base: u64,
    pub buffer_stride: u64,
    pub display_enabled: bool,
    pub pending_swaps: u64,
    pub swaps_issued: u64,
    pub triangles_drawn: u64,
    pub color_pixels_stored: u64,
    pub fastfill_pixels: u64,
    pub triangles: DistiraTriangleCensus,
    pub retrace_count: u64,
    pub painted_bytes: u64,
    pub painted_by_buffer: Vec<u64>,
    pub fbz_mode: u64,
    pub lfb_mode: u64,
    pub aux_base: u64,
    pub frame_store_bytes: u64,
    pub raster_lane_count: u64,
    pub raster_pool_size: u64,
}

/// What [`scanout_json`] gives.
pub open spec fn scanout_model(s: DistiraScanoutState) -> JsonModel {
    JsonModel::Obj(
        map![
            "width"@ => JsonModel::Num(s.width as int),
            "height"@ => JsonModel::Num(s.height as int),
            "pitch"@ => JsonModel::Num(s.pitch as int),
            "front_base"@ => JsonModel::Num(s.front_base as int),
            "back_base"@ => JsonModel::Num(s.back_base as int),
            "scanout_base"@ => JsonModel::Num(s.scanout_base as int),
            "buffer_stride"@ => JsonModel::Num(s.buffer_stride as int),
            "display_enabled"@ => JsonModel::Bool(s.display_enabled),
            "pending_swaps"@ => JsonModel::Num(s.pending_swaps as int),
            "swaps_issued"@ => JsonModel::Num(s.swaps_issued as int),
            "triangles_drawn"@ => JsonModel::Num(s.triangles_drawn as int),
            "color_pixels_stored"@ => JsonModel::Num(s.color_pixels_stored as int),
            "fastfill_pixels"@ => JsonModel::Num(s.fastfill_pixels as int),
            "triangle_census"@ => triangle_census_model(s.triangles),
            "retrace_count"@ => JsonModel::Num(s.retrace_count as int),
            "painted_bytes"@ => JsonModel::Num(s.painted_bytes as int),
            "painted_by_buffer"@ => num_array(s.painted_by_buffer@),
            "fbz_mode"@ => JsonModel::Num(s.fbz_mode as int),
            "lfb_mode"@ => JsonModel::Num(s.lfb_mode as int),
            "aux_base"@ => JsonModel::Num(s.aux_base as int),
            "frame_store_bytes"@ => JsonModel::Num(s.frame_store_bytes as int),
        ],
    )
}

/// The scanout as an object.
fn scanout_json(s: &DistiraScanoutState) -> (value: serde_json::Value)
    ensures
        json_of(value) == scanout_model(*s),
{
    let mut fields = no_fields();
    put_number(&mut fields, "width", s.width);
    put_number(&mut fields, "height", s.height);
    put_number(&mut fields, "pitch", s.pitch);
    put_number(&mut fields, "front_base", s.front_base);
    put_number(&mut fields, "back_base", s.back_base);
    put_number(&mut fields, "scanout_base", s.scanout_base);
    put_number(&mut fields, "buffer_stride", s.buffer_stride);
    put_flag(&mut fields, "display_enabled", s.display_enabled);
    put_number(&mut fields, "pending_swaps", s.pending_swaps);
    put_number(&mut fields, "swaps_issued", s.swaps_issued);
    put_number(&mut fields, "triangles_drawn", s.triangles_drawn);
    put_number(&mut fields, "color_pixels_stored", s.color_pixels_stored);
    put_number(&mut fields, "fastfill_pixels", s.fastfill_pixels);
    put(&mut fields, "triangle_census", triangle_census_json(&s.triangles));
    put_number(&mut fields, "retrace_count", s.retrace_count);
    put_number(&mut fields, "painted_bytes", s.painted_bytes);
    put(&mut fields, "painted_by_buffer", numbers(&s.painted_by_buffer));
    put_number(&mut fields, "fbz_mode", s.fbz_mode);
    put_number(&mut fields, "lfb_mode", s.lfb_mode);
    put_number(&mut fields, "aux_base", s.aux_base);
    put_number(&mut fields, "frame_store_bytes", s.frame_store_bytes);
    object(fields)
}

/// What [`raster_lanes_json`] gives.
pub open spec fn raster_lanes_model(s: DistiraScanoutState) -> JsonModel {
    JsonModel::Obj(
        map![
            "lane_count"@ => JsonModel::Num(s.raster_lane_count as int),
            "pool_size"@ => JsonModel::Num(s.raster_pool_size as int),
        ],
    )
}

/// The raster pool as an object.
fn raster_lanes_json(s: &DistiraScanoutState) -> (value: serde_json::Value)
    ensures
        json_of(value) == raster_lanes_model(*s),
{
    let mut fields = no_fields();
    put_number(&mut fields, "lane_count", s.raster_lane_count);
    put_number(&mut fields, "pool_size", s.raster_pool_size);
    object(fields)
}

/// What crossed the 3D card's aperture.
#[derive(Clone, Copy, Debug, Default)]
pub struct DistiraApertureTraffic {
    pub texture_writes: u64,
    pub texture_writes_refused: u64,
    pub texture_refused_tmu_select: u64,
    pub texture_refused_lod: u64,
    pub texture_refused_bits_or: u64,
    pub lfb_writes: u64,
    pub lfb_reads: u64,
    pub command_fifo_writes: u64,
    pub texture_reads: u64,
    pub texture_narrow_writes: u64,
}

/// What [`aperture_json`] gives.
pub open spec fn aperture_model(a: DistiraApertureTraffic) -> JsonModel {
    JsonModel::Obj(
        map![
            "texture_writes"@ => JsonModel::Num(a.texture_writes as int),
            "texture_writes_refused"@ => JsonModel::Num(a.texture_writes_refused as int),
            "texture_refused_tmu_select"@ => JsonModel::Num(a.texture_refused_tmu_select as int),
            "texture_refused_lod"@ => JsonModel::Num(a.texture_refused_lod as int),
            "texture_refused_bits_or"@ => JsonModel::Num(a.texture_refused_bits_or as int),
            "lfb_writes"@ => JsonModel::Num(a.lfb_writes as int),
            "lfb_reads"@ => JsonModel::Num(a.lfb_reads as int),
            "command_fifo_writes"@ => JsonModel::Num(a.command_fifo_writes as int),
            "texture_reads"@ => JsonModel::Num(a.texture_reads as int),
            "texture_narrow_writes"@ => JsonModel::Num(a.texture_narrow_writes as int),
        ],
    )
}

/// The aperture traffic as an object.
fn aperture_json(a: &DistiraApertureTraffic) -> (value: serde_json::Value)
    ensures
        json_of(value) == aperture_model(*a),
{
    let mut fields = no_fields();
    put_number(&mut fields, "texture_writes", a.texture_writes);
    put_number(&mut fields, "texture_writes_refused", a.texture_writes_refused);
    put_number(&mut fields, "texture_refused_tmu_select", a.texture_refused_tmu_select);
    put_number(&mut fields, "texture_refused_lod", a.texture_refused_lod);
    put_number(&mut fields, "texture_refused_bits_or", a.texture_refused_bits_or);
    put_number(&mut fields, "lfb_writes", a.lfb_writes);
    put_number(&mut fields, "lfb_reads", a.lfb_reads);
    put_number(&mut fields, "command_fifo_writes", a.command_fifo_writes);
    put_number(&mut fields, "texture_reads", a.texture_reads);
    put_number(&mut fields, "texture_narrow_writes", a.texture_narrow_writes);
    object(fields)
}

/// Host nanoseconds from a swap to the next drain.
#[derive(Clone, Copy, Debug, Default)]
pub struct SwapToNextDrainStats {
    pub count: u64,
    pub min_ns: u64,
    pub median_ns: u64,
    pub max_ns: u64,
}

/// What [`swap_to_next_drain_json`] gives.
pub open spec fn swap_to_next_drain_model(w: SwapToNextDrainStats) -> JsonModel {
    JsonModel::Obj(
        map![
            "count"@ => JsonModel::Num(w.count as int),
            "min"@ => JsonModel::Num(w.min_ns as int),
            "median"@ => JsonModel::Num(w.median_ns as int),
            "max"@ => JsonModel::Num(w.max_ns as int),
        ],
    )
}

/// The swap-to-drain window as an object.
fn swap_to_next_drain_json(w: &SwapToNextDrainStats) -> (value: serde_json::Value)
    ensures
        json_of(value) == swap_to_next_drain_model(*w),
{
    let mut fields = no_fields();
    put_number(&mut fields, "count", w.count);
    put_number(&mut fields, "min", w.min_ns);
    put_number(&mut fields, "median", w.median_ns);
    put_number(&mut fields, "max", w.max_ns);
    object(fields)
}

/// One register of the 3D card, and how often the guest used it.
#[derive(Clone, Copy, Debug, Default)]
pub struct RegisterCount {
    pub register: u64,
    pub count: u64,
}

/// What [`register_writes_json`] gives.
pub open spec fn register_writes_model(r: RegisterCount) -> JsonModel {
    JsonModel::Obj(
        map![
            "register"@ => JsonModel::Num(r.register as int),
            "writes"@ => JsonModel::Num(r.count as int),
        ],
    )
}

/// A written register as an object.
fn register_writes_json(r: &RegisterCount) -> (value: serde_json::Value)
    ensures
        json_of(value) == register_writes_model(*r),
{
    let mut fields = no_fields();
    put_number(&mut fields, "register", r.register);
    put_number(&mut fields, "writes", r.count);
    object(fields)
}

/// What [`register_reads_json`] gives.
pub open spec fn register_reads_model(r: RegisterCount) -> JsonModel {
    JsonModel::Obj(
        map![
            "register"@ => JsonModel::Num(r.register as int),
            "reads"@ => JsonModel::Num(r.count as int),
        ],
    )
}

/// A read register as an object.
fn register_reads_json(r: &RegisterCount) -> (value: serde_json::Value)
    ensures
        json_of(value) == register_reads_model(*r),
{
    let mut fields = no_fields();
    put_number(&mut fields, "register", r.register);
    put_number(&mut fields, "reads", r.count);
    object(fields)
}

/// What an optional scanout is reported as.
pub open spec fn opt_scanout_model(state: Option<DistiraScanoutState>) -> JsonModel {
    match state {
        Some(s) => scanout_model(s),
        None => JsonModel::Null,
    }
}

/// What the raster pool of an optional scanout is reported as.
pub open spec fn opt_raster_lanes_model(state: Option<DistiraScanoutState>) -> JsonModel {
    match state {
        Some(s) => raster_lanes_model(s),
        None => JsonModel::Null,
    }
}

/// What [`mode_census_json`] gives.
pub open spec fn mode_census_model(
    vga: Seq<ModeCensusEntry>,
    distira: Seq<DistiraCensusEntry>,
    distira_state: Option<DistiraScanoutState>,
    register_writes: Seq<RegisterCount>,
    register_reads: Seq<RegisterCount>,
    aperture: DistiraApertureTraffic,
    offset_bits_or: u64,
    swap_to_next_drain: SwapToNextDrainStats,
) -> Map<Seq<char>, JsonModel> {
    map![
        "schema"@ => JsonModel::Str("izarravm-mode-census-v1"@),
        "vga"@ => JsonModel::Arr(vga.map_values(|e: ModeCensusEntry| mode_entry_model(e))),
        "distira"@ => JsonModel::Arr(
            distira.map_values(|e: DistiraCensusEntry| distira_entry_model(e)),
        ),
        "distira_scanout"@ => opt_scanout_model(distira_state),
        "distira_register_writes"@ => JsonModel::Arr(
            register_writes.map_values(|r: RegisterCount| register_writes_model(r)),
        ),
        "distira_register_reads"@ => JsonModel::Arr(
            register_reads.map_values(|r: RegisterCount| register_reads_model(r)),
        ),
        "distira_aperture_traffic"@ => aperture_model(aperture),
        "distira_offset_bits_or"@ => JsonModel::Num(offset_bits_or as int),
        "distira_raster_lanes"@ => opt_raster_lanes_model(distira_state),
        "distira_swap_to_next_drain_ns"@ => swap_to_next_drain_model(swap_to_next_drain),
    ]
}

/// The fields of the mode census.
fn mode_census_fields(
    vga: &Vec<ModeCensusEntry>,
    distira: &Vec<DistiraCensusEntry>,
    distira_state: &Option<DistiraScanoutState>,
    register_writes: &Vec<RegisterCount>,
    register_reads: &Vec<RegisterCount>,
    aperture: DistiraApertureTraffic,
    offset_bits_or: u64,
    swap_to_next_drain: SwapToNextDrainStats,
) -> (fields: serde_json::Map<String, serde_json::Value>)
    ensures
        fields_of(fields) == mode_census_model(
            vga@,
            distira@,
            *distira_state,
            register_writes@,
            register_reads@,
            aperture,
            offset_bits_or,
            swap_to_next_drain,
        ),
{
    let mut fields = no_fields();
    put_text(&mut fields, "schema", "izarravm-mode-census-v1");
    put(
        &mut fields,
        "vga",
        rows(vga, mode_entry_json, Ghost(|e: ModeCensusEntry| mode_entry_model(e))),
    );
    put(
        &mut fields,
        "distira",
        rows(distira, distira_entry_json, Ghost(|e: DistiraCensusEntry| distira_entry_model(e))),
    );
    put(
        &mut fields,
        "distira_scanout",
        match distira_state { Some(s) => scanout_json(s), None => null() },
    );
    put(
        &mut fields,
        "distira_register_writes",
        rows(
            register_writes,
            register_writes_json,
            Ghost(|r: RegisterCount| register_writes_model(r)),
        ),
    );
    put(
        &mut fields,
        "distira_register_reads",
        rows(
            register_reads,
            register_reads_json,
            Ghost(|r: RegisterCount| register_reads_model(r)),
        ),
    );
    put(&mut fields, "distira_aperture_traffic", aperture_json(&aperture));
    put_number(&mut fields, "distira_offset_bits_or", offset_bits_or);
    put(
        &mut fields,
        "distira_raster_lanes",
        match distira_state { Some(s) => raster_lanes_json(s), None => null() },
    );
    put(&mut fields, "distira_swap_to_next_drain_ns", swap_to_next_drain_json(&swap_to_next_drain));
    fields
}

/// The video mode census as one object.
pub fn mode_census_json(
    vga: &Vec<ModeCensusEntry>,
    distira: &Vec<DistiraCensusEntry>,
    distira_state: &Option<DistiraScanoutState>,
    register_writes: &Vec<RegisterCount>,
    register_reads: &Vec<RegisterCount>,
    aperture: DistiraApertureTraffic,
    offset_bits_or: u64,
    swap_to_next_drain: SwapToNextDrainStats,
) -> (value: serde_json::Value)
    ensures
        json_of(value) == JsonModel::Obj(
            mode_census_model(
                vga@,
                distira@,
                *distira_state,
                register_writes@,
                register_reads@,
                aperture,
                offset_bits_or,
                swap_to_next_drain,
            ),
        ),
{
    object(
        mode_census_fields(
            vga,
            distira,
            distira_state,
            register_writes,
            register_reads,
            aperture,
            offset_bits_or,
            swap_to_next_drain,
        ),
    )
}

/// The accelerated display, where one is set.
#[derive(Clone, Copy, Debug, Default)]
pub struct MargoDisplay {
    pub mode: u16,
    pub width: u32,
    pub height: u32,
    pub bpp: u32,
    pub pitch: u32,
    pub start: u32,
}

/// What [`margo_display_json`] gives.
pub open spec fn margo_display_model(d: MargoDisplay) -> JsonModel {
    JsonModel::Obj(
        map![
            "mode"@ => JsonModel::Str(prefixed_hex(d.mode as nat, 4, false)),
            "width"@ => JsonModel::Num(d.width as int),
            "height"@ => JsonModel::Num(d.height as int),
            "bpp"@ => JsonModel::Num(d.bpp as int),
            "pitch"@ => JsonModel::Num(d.pitch as int),
            "start"@ => JsonModel::Num(d.start as int),
        ],
    )
}

/// The accelerated display as an object.
pub fn margo_display_json(d: &MargoDisplay) -> (value: serde_json::Value)
    ensures
        json_of(value) == margo_display_model(*d),
{
    let mut fields = no_fields();
    put_text(&mut fields, "mode", prefixed_hex_text(d.mode as u64, 4, false).as_str());
    put_number(&mut fields, "width", d.width as u64);
    put_number(&mut fields, "height", d.height as u64);
    put_number(&mut fields, "bpp", d.bpp as u64);
    put_number(&mut fields, "pitch", d.pitch as u64);
    put_number(&mut fields, "start", d.start as u64);
    object(fields)
}

/// What an optional display is reported as.
pub open spec fn opt_margo_display_model(display: Option<MargoDisplay>) -> JsonModel {
    match display {
        Some(d) => margo_display_model(d),
        None => JsonModel::Null,
    }
}

/// The display, or `null` where none is set.
pub(crate) fn opt_margo_display_json(display: &Option<MargoDisplay>) -> (value: serde_json::Value)
    ensures
        json_of(value) == opt_margo_display_model(*display),
{
    match display {
        Some(d) => margo_display_json(d),
        None => null(),
    }
}

/// The accelerated display and the pass-through of the 3D card.
#[derive(Clone, Copy, Debug, Default)]
pub struct MargoCensus {
    pub active: bool,
    pub display: Option<MargoDisplay>,
    pub vbe_mode_sets_linear: u64,
    pub vbe_mode_sets_banked: u64,
    pub vga_pass: bool,
    pub video_reset: bool,
    pub init_enable: u64,
    pub fbi_init0: u64,
    pub video_reset_falling_edges: u64,
    pub fbi_init0_byte0_enables: u64,
}

/// What [`margo_census_json`] gives.
pub open spec fn margo_census_model(m: MargoCensus) -> JsonModel {
    JsonModel::Obj(
        map![
            "active"@ => JsonModel::Bool(m.active),
            "display"@ => opt_margo_display_model(m.display),
            "vbe_mode_sets_linear"@ => JsonModel::Num(m.vbe_mode_sets_linear as int),
            "vbe_mode_sets_banked"@ => JsonModel::Num(m.vbe_mode_sets_banked as int),
            "vga_pass"@ => JsonModel::Bool(m.vga_pass),
            "video_reset"@ => JsonModel::Bool(m.video_reset),
            "init_enable"@ => JsonModel::Num(m.init_enable as int),
            "fbi_init0"@ => JsonModel::Num(m.fbi_init0 as int),
            "video_reset_falling_edges"@ => JsonModel::Num(m.video_reset_falling_edges as int),
            "fbi_init0_byte0_enables"@ => JsonModel::Num(m.fbi_init0_byte0_enables as int),
        ],
    )
}

/// The accelerated display as a census section.
fn margo_census_json(m: &MargoCensus) -> (value: serde_json::Value)
    ensures
        json_of(value) == margo_census_model(*m),
{
    let mut fields = no_fields();
    put_flag(&mut fields, "active", m.active);
    put(&mut fields, "display", opt_margo_display_json(&m.display));
    put_number(&mut fields, "vbe_mode_sets_linear", m.vbe_mode_sets_linear);
    put_number(&mut fields, "vbe_mode_sets_banked", m.vbe_mode_sets_banked);
    put_flag(&mut fields, "vga_pass", m.vga_pass);
    put_flag(&mut fields, "video_reset", m.video_reset);
    put_number(&mut fields, "init_enable", m.init_enable);
    put_number(&mut fields, "fbi_init0", m.fbi_init0);
    put_number(&mut fields, "video_reset_falling_edges", m.video_reset_falling_edges);
    put_number(&mut fields, "fbi_init0_byte0_enables", m.fbi_init0_byte0_enables);
    object(fields)
}

/// The census file of a headless run: the mode census with the accelerated
/// display beside it.
pub fn mode_census_file_json(
    vga: &Vec<ModeCensusEntry>,
    distira: &Vec<DistiraCensusEntry>,
    distira_state: &Option<DistiraScanoutState>,
    register_writes: &Vec<RegisterCount>,
    register_reads: &Vec<RegisterCount>,
    aperture: DistiraApertureTraffic,
    offset_bits_or: u64,
    swap_to_next_drain: SwapToNextDrainStats,
    margo: &MargoCensus,
) -> (value: serde_json::Value)
    ensures
        json_of(value) == JsonModel::Obj(
            mode_census_model(
                vga@,
                distira@,
                *distira_state,
                register_writes@,
                register_reads@,
                aperture,
                offset_bits_or,
                swap_to_next_drain,
            ).insert("margo"@, margo_census_model(*margo)),
        ),
{
    let mut fields = mode_census_fields(
        vga,
        distira,
        distira_state,
        register_writes,
        register_reads,
        aperture,
        offset_bits_or,
        swap_to_next_drain,
    );
    put(&mut fields, "margo", margo_census_json(margo));
    object(fields)
}

/// A census as the text of its file.
pub fn mode_census_text(census: &serde_json::Value) -> (file: String)
    ensures
        file@ == pretty_json(json_of(*census)) + "\n"@,
{
    let mut file: String = pretty_text(census);
    file.append("\n");
    file
}

// ---------------------------------------------------------------------------
// By key
// ---------------------------------------------------------------------------

/// Looked up by its key, every entry of the object is the figure that the key names.
pub proof fn law_mode_entry_by_key(e: ModeCensusEntry)
    ensures
        text_under(mode_entry_model(e), "mode"@) == Some(e.key.mode@),
        number_under(mode_entry_model(e), "hdisp_end"@) == Some(e.key.hdisp_end as int),
        number_under(mode_entry_model(e), "vdisp_end"@) == Some(e.key.vdisp_end as int),
        number_under(mode_entry_model(e), "source_lines"@) == Some(source_lines(e.key)),
        number_under(mode_entry_model(e), "vtotal"@) == Some(e.key.vtotal as int),
        flag_under(mode_entry_model(e), "double_scan"@) == Some(e.key.double_scan),
        flag_under(mode_entry_model(e), "line_compare_active"@) == Some(e.key.line_compare_active),
        number_under(mode_entry_model(e), "bpp"@) == Some(e.key.bpp as int),
        number_under(mode_entry_model(e), "entries"@) == Some(e.entries as int),
{
    reveal_strlit("mode");
    assert("mode"@.len() == 4 && "mode"@[0] == 'm');
    reveal_strlit("hdisp_end");
    assert("hdisp_end"@.len() == 9 && "hdisp_end"@[0] == 'h');
    reveal_strlit("vdisp_end");
    assert("vdisp_end"@.len() == 9 && "vdisp_end"@[0] == 'v');
    reveal_strlit("source_lines");
    assert("source_lines"@.len() == 12 && "source_lines"@[0] == 's');
    reveal_strlit("vtotal");
    assert("vtotal"@.len() == 6 && "vtotal"@[0] == 'v');
    reveal_strlit("double_scan");
    assert("double_scan"@.len() == 11 && "double_scan"@[0] == 'd');
    reveal_strlit("line_compare_active");
    assert("line_compare_active"@.len() == 19 && "line_compare_active"@[0] == 'l');
    reveal_strlit("bpp");
    assert("bpp"@.len() == 3 && "bpp"@[0] == 'b');
    reveal_strlit("entries");
    assert("entries"@.len() == 7 && "entries"@[0] == 'e');
}

/// Looked up by its key, every entry of the object is the figure that the key names.
pub proof fn law_distira_entry_by_key(e: DistiraCensusEntry)
    ensures
        number_under(distira_entry_model(e), "width"@) == Some(e.width as int),
        number_under(distira_entry_model(e), "height"@) == Some(e.height as int),
        number_under(distira_entry_model(e), "entries"@) == Some(e.entries as int),
{
    reveal_strlit("width");
    assert("width"@.len() == 5);
    reveal_strlit("height");
    assert("height"@.len() == 6);
    reveal_strlit("entries");
    assert("entries"@.len() == 7);
}

/// Looked up by its key, every entry of the object is the figure that the key names.
pub proof fn law_drain_causes_by_key(c: DistiraDrainCauses)
    ensures
        number_under(drain_causes_model(c), "texture_write"@) == Some(c.texture_write as int),
        number_under(drain_causes_model(c), "lfb_read"@) == Some(c.lfb_read as int),
        number_under(drain_causes_model(c), "lfb_write"@) == Some(c.lfb_write as int),
        number_under(drain_causes_model(c), "register_read_stats"@)
            == Some(c.register_read_stats as int),
        number_under(drain_causes_model(c), "register_write_uncovered"@)
            == Some(c.register_write_uncovered as int),
        number_under(drain_causes_model(c), "nop_cmd_reset_stats"@)
            == Some(c.nop_cmd_reset_stats as int),
        number_under(drain_causes_model(c), "swap_or_scanout"@) == Some(c.swap_or_scanout as int),
        number_under(drain_causes_model(c), "queue_full"@) == Some(c.queue_full as int),
        number_under(drain_causes_model(c), "immediate_triangle"@)
            == Some(c.immediate_triangle as int),
        number_under(drain_causes_model(c), "config"@) == Some(c.config as int),
{
    reveal_strlit("texture_write");
    assert("texture_write"@.len() == 13 && "texture_write"@[0] == 't');
    reveal_strlit("lfb_read");
    assert("lfb_read"@.len() == 8 && "lfb_read"@[0] == 'l');
    reveal_strlit("lfb_write");
    assert("lfb_write"@.len() == 9 && "lfb_write"@[0] == 'l');
    reveal_strlit("register_read_stats");
    assert("register_read_stats"@.len() == 19 && "register_read_stats"@[0] == 'r');
    reveal_strlit("register_write_uncovered");
    assert("register_write_uncovered"@.len() == 24 && "register_write_uncovered"@[0] == 'r');
    reveal_strlit("nop_cmd_reset_stats");
    assert("nop_cmd_reset_stats"@.len() == 19 && "nop_cmd_reset_stats"@[0] == 'n');
    reveal_strlit("swap_or_scanout");
    assert("swap_or_scanout"@.len() == 15 && "swap_or_scanout"@[0] == 's');
    reveal_strlit("queue_full");
    assert("queue_full"@.len() == 10 && "queue_full"@[0] == 'q');
    reveal_strlit("immediate_triangle");
    assert("immediate_triangle"@.len() == 18 && "immediate_triangle"@[0] == 'i');
    reveal_strlit("config");
    assert("config"@.len() == 6 && "config"@[0] == 'c');
}

/// What tells the keys of the object apart.
proof fn lemma_triangle_census_keys_differ()
    ensures
        "submitted"@.len() == 9 && "submitted"@[2] == 'b',
        "reject_zero_area"@.len() == 16 && "reject_zero_area"@[2] == 'j' && "reject_zero_area"@[13] == 'r' && "reject_zero_area"@[14] == 'e',
        "zero_area_degenerate"@.len() == 20 && "zero_area_degenerate"@[2] == 'r' && "zero_area_degenerate"@[13] == 'e' && "zero_area_degenerate"@[14] == 'n',
        "zero_area_collinear"@.len() == 19 && "zero_area_collinear"@[2] == 'r' && "zero_area_collinear"@[13] == 'l' && "zero_area_collinear"@[14] == 'i',
        "fixed_vertex_writes"@.len() == 19 && "fixed_vertex_writes"@[2] == 'x' && "fixed_vertex_writes"@[13] == 'w' && "fixed_vertex_writes"@[14] == 'r',
        "float_vertex_writes"@.len() == 19 && "float_vertex_writes"@[2] == 'o' && "float_vertex_writes"@[13] == 'w' && "float_vertex_writes"@[14] == 'r',
        "zero_area_float_samples"@.len() == 23 && "zero_area_float_samples"@[2] == 'r' && "zero_area_float_samples"@[13] == 'a' && "zero_area_float_samples"@[14] == 't',
        "zero_area_samples"@.len() == 17 && "zero_area_samples"@[2] == 'r' && "zero_area_samples"@[13] == 'p' && "zero_area_samples"@[14] == 'l',
        "drawn_samples"@.len() == 13 && "drawn_samples"@[2] == 'a',
        "reject_empty_box"@.len() == 16 && "reject_empty_box"@[2] == 'j' && "reject_empty_box"@[13] == 'b' && "reject_empty_box"@[14] == 'o',
        "pixels_in"@.len() == 9 && "pixels_in"@[2] == 'x',
        "reject_stipple"@.len() == 14 && "reject_stipple"@[2] == 'j' && "reject_stipple"@[13] == 'e',
        "reject_depth"@.len() == 12 && "reject_depth"@[2] == 'j',
        "reject_alpha_mask"@.len() == 17 && "reject_alpha_mask"@[2] == 'j' && "reject_alpha_mask"@[13] == 'm' && "reject_alpha_mask"@[14] == 'a',
        "reject_chroma"@.len() == 13 && "reject_chroma"@[2] == 'j',
        "reject_alpha_test"@.len() == 17 && "reject_alpha_test"@[2] == 'j' && "reject_alpha_test"@[13] == 't' && "reject_alpha_test"@[14] == 'e',
        "pixels_out"@.len() == 10 && "pixels_out"@[2] == 'x',
        "color_written"@.len() == 13 && "color_written"@[2] == 'l',
        "color_written_nonblack"@.len() == 22 && "color_written_nonblack"@[2] == 'l' && "color_written_nonblack"@[13] == '_' && "color_written_nonblack"@[14] == 'n',
        "color_offset_min"@.len() == 16 && "color_offset_min"@[2] == 'l' && "color_offset_min"@[13] == 'm' && "color_offset_min"@[14] == 'i',
        "color_offset_max"@.len() == 16 && "color_offset_max"@[2] == 'l' && "color_offset_max"@[13] == 'm' && "color_offset_max"@[14] == 'a',
        "reject_rgb_wmask"@.len() == 16 && "reject_rgb_wmask"@[2] == 'j' && "reject_rgb_wmask"@[13] == 'a' && "reject_rgb_wmask"@[14] == 's',
        "reject_offscreen"@.len() == 16 && "reject_offscreen"@[2] == 'j' && "reject_offscreen"@[13] == 'e' && "reject_offscreen"@[14] == 'e',
        "depth_written"@.len() == 13 && "depth_written"@[2] == 'p',
        "queue_drains"@.len() == 12 && "queue_drains"@[2] == 'e',
        "queue_drains_parallel"@.len() == 21 && "queue_drains_parallel"@[2] == 'e' && "queue_drains_parallel"@[13] == 'p' && "queue_drains_parallel"@[14] == 'a',
        "queue_drain_causes"@.len() == 18 && "queue_drain_causes"@[2] == 'e' && "queue_drain_causes"@[13] == 'a' && "queue_drain_causes"@[14] == 'u',
{
    reveal_strlit("submitted");
    reveal_strlit("reject_zero_area");
    reveal_strlit("zero_area_degenerate");
    reveal_strlit("zero_area_collinear");
    reveal_strlit("fixed_vertex_writes");
    reveal_strlit("float_vertex_writes");
    reveal_strlit("zero_area_float_samples");
    reveal_strlit("zero_area_samples");
    reveal_strlit("drawn_samples");
    reveal_strlit("reject_empty_box");
    reveal_strlit("pixels_in");
    reveal_strlit("reject_stipple");
    reveal_strlit("reject_depth");
    reveal_strlit("reject_alpha_mask");
    reveal_strlit("reject_chroma");
    reveal_strlit("reject_alpha_test");
    reveal_strlit("pixels_out");
    reveal_strlit("color_written");
    reveal_strlit("color_written_nonblack");
    reveal_strlit("color_offset_min");
    reveal_strlit("color_offset_max");
    reveal_strlit("reject_rgb_wmask");
    reveal_strlit("reject_offscreen");
    reveal_strlit("depth_written");
    reveal_strlit("queue_drains");
    reveal_strlit("queue_drains_parallel");
    reveal_strlit("queue_drain_causes");
}

/// Some entries of the object, looked up by their keys.
proof fn lemma_triangle_census_keys_a(t: DistiraTriangleCensus)
    ensures
        number_under(triangle_census_model(t), "submitted"@) == Some(t.submitted as int),
        number_under(triangle_census_model(t), "reject_zero_area"@)
            == Some(t.reject_zero_area as int),
        number_under(triangle_census_model(t), "zero_area_degenerate"@)
            == Some(t.zero_area_degenerate as int),
        number_under(triangle_census_model(t), "zero_area_collinear"@)
            == Some(t.zero_area_collinear as int),
        number_under(triangle_census_model(t), "fixed_vertex_writes"@)
            == Some(t.fixed_vertex_writes as int),
        number_under(triangle_census_model(t), "float_vertex_writes"@)
            == Some(t.float_vertex_writes as int),
        under(triangle_census_model(t), "zero_area_float_samples"@)
            == Some(json_of(t.zero_area_float_samples)),
        under(triangle_census_model(t), "zero_area_samples"@) == Some(json_of(t.zero_area_samples)),
        under(triangle_census_model(t), "drawn_samples"@) == Some(json_of(t.drawn_samples)),
        number_under(triangle_census_model(t), "reject_empty_box"@)
            == Some(t.reject_empty_box as int),
        number_under(triangle_census_model(t), "pixels_in"@) == Some(t.pixels_in as int),
        number_under(triangle_census_model(t), "reject_stipple"@) == Some(t.reject_stipple as int),
        number_under(triangle_census_model(t), "reject_depth"@) == Some(t.reject_depth as int),
        number_under(triangle_census_model(t), "reject_alpha_mask"@)
            == Some(t.reject_alpha_mask as int),
        number_under(triangle_census_model(t), "reject_chroma"@) == Some(t.reject_chroma as int),
        number_under(triangle_census_model(t), "reject_alpha_test"@)
            == Some(t.reject_alpha_test as int),
        number_under(triangle_census_model(t), "pixels_out"@) == Some(t.pixels_out as int),
        number_under(triangle_census_model(t), "color_written"@) == Some(t.color_written as int),
        number_under(triangle_census_model(t), "color_written_nonblack"@)
            == Some(t.color_written_nonblack as int),
        number_under(triangle_census_model(t), "color_offset_min"@)
            == Some(t.color_offset_min as int),
        number_under(triangle_census_model(t), "color_offset_max"@)
            == Some(t.color_offset_max as int),
        number_under(triangle_census_model(t), "reject_rgb_wmask"@)
            == Some(t.reject_rgb_wmask as int),
        number_under(triangle_census_model(t), "reject_offscreen"@)
            == Some(t.reject_offscreen as int),
        number_under(triangle_census_model(t), "depth_written"@) == Some(t.depth_written as int),
        number_under(triangle_census_model(t), "queue_drains"@) == Some(t.queue_drains as int),
        number_under(triangle_census_model(t), "queue_drains_parallel"@)
            == Some(t.queue_drains_parallel as int),
{
    lemma_triangle_census_keys_differ();
}

/// Some entries of the object, looked up by their keys.
proof fn lemma_triangle_census_keys_b(t: DistiraTriangleCensus)
    ensures
        under(triangle_census_model(t), "queue_drain_causes"@)
            == Some(drain_causes_model(t.queue_drain_causes)),
{
    lemma_triangle_census_keys_differ();
}

/// Looked up by its key, every entry of the object is the figure that the key names.
pub proof fn law_triangle_census_by_key(t: DistiraTriangleCensus)
    ensures
        number_under(triangle_census_model(t), "submitted"@) == Some(t.submitted as int),
        number_under(triangle_census_model(t), "reject_zero_area"@)
            == Some(t.reject_zero_area as int),
        number_under(triangle_census_model(t), "zero_area_degenerate"@)
            == Some(t.zero_area_degenerate as int),
        number_under(triangle_census_model(t), "zero_area_collinear"@)
            == Some(t.zero_area_collinear as int),
        number_under(triangle_census_model(t), "fixed_vertex_writes"@)
            == Some(t.fixed_vertex_writes as int),
        number_under(triangle_census_model(t), "float_vertex_writes"@)
            == Some(t.float_vertex_writes as int),
        under(triangle_census_model(t), "zero_area_float_samples"@)
            == Some(json_of(t.zero_area_float_samples)),
        under(triangle_census_model(t), "zero_area_samples"@) == Some(json_of(t.zero_area_samples)),
        under(triangle_census_model(t), "drawn_samples"@) == Some(json_of(t.drawn_samples)),
        number_under(triangle_census_model(t), "reject_empty_box"@)
            == Some(t.reject_empty_box as int),
        number_under(triangle_census_model(t), "pixels_in"@) == Some(t.pixels_in as int),
        number_under(triangle_census_model(t), "reject_stipple"@) == Some(t.reject_stipple as int),
        number_under(triangle_census_model(t), "reject_depth"@) == Some(t.reject_depth as int),
        number_under(triangle_census_model(t), "reject_alpha_mask"@)
            == Some(t.reject_alpha_mask as int),
        number_under(triangle_census_model(t), "reject_chroma"@) == Some(t.reject_chroma as int),
        number_under(triangle_census_model(t), "reject_alpha_test"@)
            == Some(t.reject_alpha_test as int),
        number_under(triangle_census_model(t), "pixels_out"@) == Some(t.pixels_out as int),
        number_under(triangle_census_model(t), "color_written"@) == Some(t.color_written as int),
        number_under(triangle_census_model(t), "color_written_nonblack"@)
            == Some(t.color_written_nonblack as int),
        number_under(triangle_census_model(t), "color_offset_min"@)
            == Some(t.color_offset_min as int),
        number_under(triangle_census_model(t), "color_offset_max"@)
            == Some(t.color_offset_max as int),
        number_under(triangle_census_model(t), "reject_rgb_wmask"@)
            == Some(t.reject_rgb_wmask as int),
        number_under(triangle_census_model(t), "reject_offscreen"@)
            == Some(t.reject_offscreen as int),
        number_under(triangle_census_model(t), "depth_written"@) == Some(t.depth_written as int),
        number_under(triangle_census_model(t), "queue_drains"@) == Some(t.queue_drains as int),
        number_under(triangle_census_model(t), "queue_drains_parallel"@)
            == Some(t.queue_drains_parallel as int),
        under(triangle_census_model(t), "queue_drain_causes"@)
            == Some(drain_causes_model(t.queue_drain_causes)),
{
    lemma_triangle_census_keys_a(t);
    lemma_triangle_census_keys_b(t);
}

/// Looked up by its key, every entry of the object is the figure that the key names.
pub proof fn law_scanout_by_key(s: DistiraScanoutState)
    ensures
        number_under(scanout_model(s), "width"@) == Some(s.width as int),
        number_under(scanout_model(s), "height"@) == Some(s.height as int),
        number_under(scanout_model(s), "pitch"@) == Some(s.pitch as int),
        number_under(scanout_model(s), "front_base"@) == Some(s.front_base as int),
        number_under(scanout_model(s), "back_base"@) == Some(s.back_base as int),
        number_under(scanout_model(s), "scanout_base"@) == Some(s.scanout_base as int),
        number_under(scanout_model(s), "buffer_stride"@) == Some(s.buffer_stride as int),
        flag_under(scanout_model(s), "display_enabled"@) == Some(s.display_enabled),
        number_under(scanout_model(s), "pending_swaps"@) == Some(s.pending_swaps as int),
        number_under(scanout_model(s), "swaps_issued"@) == Some(s.swaps_issued as int),
        number_under(scanout_model(s), "triangles_drawn"@) == Some(s.triangles_drawn as int),
        number_under(scanout_model(s), "color_pixels_stored"@)
            == Some(s.color_pixels_stored as int),
        number_under(scanout_model(s), "fastfill_pixels"@) == Some(s.fastfill_pixels as int),
        under(scanout_model(s), "triangle_census"@) == Some(triangle_census_model(s.triangles)),
        number_under(scanout_model(s), "retrace_count"@) == Some(s.retrace_count as int),
        number_under(scanout_model(s), "painted_bytes"@) == Some(s.painted_bytes as int),
        under(scanout_model(s), "painted_by_buffer"@) == Some(num_array(s.painted_by_buffer@)),
        number_under(scanout_model(s), "fbz_mode"@) == Some(s.fbz_mode as int),
        number_under(scanout_model(s), "lfb_mode"@) == Some(s.lfb_mode as int),
        number_under(scanout_model(s), "aux_base"@) == Some(s.aux_base as int),
        number_under(scanout_model(s), "frame_store_bytes"@) == Some(s.frame_store_bytes as int),
{
    reveal_strlit("width");
    assert("width"@.len() == 5 && "width"@[0] == 'w');
    reveal_strlit("height");
    assert("height"@.len() == 6 && "height"@[0] == 'h');
    reveal_strlit("pitch");
    assert("pitch"@.len() == 5 && "pitch"@[0] == 'p');
    reveal_strlit("front_base");
    assert("front_base"@.len() == 10 && "front_base"@[0] == 'f' && "front_base"@[8] == 's');
    reveal_strlit("back_base");
    assert("back_base"@.len() == 9 && "back_base"@[0] == 'b' && "back_base"@[8] == 'e');
    reveal_strlit("scanout_base");
    assert("scanout_base"@.len() == 12 && "scanout_base"@[0] == 's' && "scanout_base"@[8] == 'b');
    reveal_strlit("buffer_stride");
    assert("buffer_stride"@.len() == 13 && "buffer_stride"@[0] == 'b' && "buffer_stride"@[8] == 't');
    reveal_strlit("display_enabled");
    assert("display_enabled"@.len() == 15 && "display_enabled"@[0] == 'd' && "display_enabled"@[8] == 'e');
    reveal_strlit("pending_swaps");
    assert("pending_swaps"@.len() == 13 && "pending_swaps"@[0] == 'p' && "pending_swaps"@[8] == 's');
    reveal_strlit("swaps_issued");
    assert("swaps_issued"@.len() == 12 && "swaps_issued"@[0] == 's' && "swaps_issued"@[8] == 's');
    reveal_strlit("triangles_drawn");
    assert("triangles_drawn"@.len() == 15 && "triangles_drawn"@[0] == 't' && "triangles_drawn"@[8] == 's');
    reveal_strlit("color_pixels_stored");
    assert("color_pixels_stored"@.len() == 19 && "color_pixels_stored"@[0] == 'c' && "color_pixels_stored"@[8] == 'x');
    reveal_strlit("fastfill_pixels");
    assert("fastfill_pixels"@.len() == 15 && "fastfill_pixels"@[0] == 'f' && "fastfill_pixels"@[8] == '_');
    reveal_strlit("triangle_census");
    assert("triangle_census"@.len() == 15 && "triangle_census"@[0] == 't' && "triangle_census"@[8] == '_');
    reveal_strlit("retrace_count");
    assert("retrace_count"@.len() == 13 && "retrace_count"@[0] == 'r' && "retrace_count"@[8] == 'c');
    reveal_strlit("painted_bytes");
    assert("painted_bytes"@.len() == 13 && "painted_bytes"@[0] == 'p' && "painted_bytes"@[8] == 'b');
    reveal_strlit("painted_by_buffer");
    assert("painted_by_buffer"@.len() == 17 && "painted_by_buffer"@[0] == 'p' && "painted_by_buffer"@[8] == 'b');
    reveal_strlit("fbz_mode");
    assert("fbz_mode"@.len() == 8 && "fbz_mode"@[0] == 'f');
    reveal_strlit("lfb_mode");
    assert("lfb_mode"@.len() == 8 && "lfb_mode"@[0] == 'l');
    reveal_strlit("aux_base");
    assert("aux_base"@.len() == 8 && "aux_base"@[0] == 'a');
    reveal_strlit("frame_store_bytes");
    assert("frame_store_bytes"@.len() == 17 && "frame_store_bytes"@[0] == 'f' && "frame_store_bytes"@[8] == 'o');
}

/// Looked up by its key, every entry of the object is the figure that the key names.
pub proof fn law_raster_lanes_by_key(s: DistiraScanoutState)
    ensures
        number_under(raster_lanes_model(s), "lane_count"@) == Some(s.raster_lane_count as int),
        number_under(raster_lanes_model(s), "pool_size"@) == Some(s.raster_pool_size as int),
{
    reveal_strlit("lane_count");
    assert("lane_count"@.len() == 10);
    reveal_strlit("pool_size");
    assert("pool_size"@.len() == 9);
}

/// Looked up by its key, every entry of the object is the figure that the key names.
pub proof fn law_aperture_by_key(a: DistiraApertureTraffic)
    ensures
        number_under(aperture_model(a), "texture_writes"@) == Some(a.texture_writes as int),
        number_under(aperture_model(a), "texture_writes_refused"@)
            == Some(a.texture_writes_refused as int),
        number_under(aperture_model(a), "texture_refused_tmu_select"@)
            == Some(a.texture_refused_tmu_select as int),
        number_under(aperture_model(a), "texture_refused_lod"@)
            == Some(a.texture_refused_lod as int),
        number_under(aperture_model(a), "texture_refused_bits_or"@)
            == Some(a.texture_refused_bits_or as int),
        number_under(aperture_model(a), "lfb_writes"@) == Some(a.lfb_writes as int),
        number_under(aperture_model(a), "lfb_reads"@) == Some(a.lfb_reads as int),
        number_under(aperture_model(a), "command_fifo_writes"@)
            == Some(a.command_fifo_writes as int),
        number_under(aperture_model(a), "texture_reads"@) == Some(a.texture_reads as int),
        number_under(aperture_model(a), "texture_narrow_writes"@)
            == Some(a.texture_narrow_writes as int),
{
    reveal_strlit("texture_writes");
    assert("texture_writes"@.len() == 14 && "texture_writes"@[0] == 't');
    reveal_strlit("texture_writes_refused");
    assert("texture_writes_refused"@.len() == 22 && "texture_writes_refused"@[0] == 't');
    reveal_strlit("texture_refused_tmu_select");
    assert("texture_refused_tmu_select"@.len() == 26 && "texture_refused_tmu_select"@[0] == 't');
    reveal_strlit("texture_refused_lod");
    assert("texture_refused_lod"@.len() == 19 && "texture_refused_lod"@[0] == 't');
    reveal_strlit("texture_refused_bits_or");
    assert("texture_refused_bits_or"@.len() == 23 && "texture_refused_bits_or"@[0] == 't');
    reveal_strlit("lfb_writes");
    assert("lfb_writes"@.len() == 10 && "lfb_writes"@[0] == 'l');
    reveal_strlit("lfb_reads");
    assert("lfb_reads"@.len() == 9 && "lfb_reads"@[0] == 'l');
    reveal_strlit("command_fifo_writes");
    assert("command_fifo_writes"@.len() == 19 && "command_fifo_writes"@[0] == 'c');
    reveal_strlit("texture_reads");
    assert("texture_reads"@.len() == 13 && "texture_reads"@[0] == 't');
    reveal_strlit("texture_narrow_writes");
    assert("texture_narrow_writes"@.len() == 21 && "texture_narrow_writes"@[0] == 't');
}

/// Looked up by its key, every entry of the object is the figure that the key names.
pub proof fn law_swap_to_next_drain_by_key(w: SwapToNextDrainStats)
    ensures
        number_under(swap_to_next_drain_model(w), "count"@) == Some(w.count as int),
        number_under(swap_to_next_drain_model(w), "min"@) == Some(w.min_ns as int),
        number_under(swap_to_next_drain_model(w), "median"@) == Some(w.median_ns as int),
        number_under(swap_to_next_drain_model(w), "max"@) == Some(w.max_ns as int),
{
    reveal_strlit("count");
    assert("count"@.len() == 5 && "count"@[1] == 'o');
    reveal_strlit("min");
    assert("min"@.len() == 3 && "min"@[1] == 'i');
    reveal_strlit("median");
    assert("median"@.len() == 6 && "median"@[1] == 'e');
    reveal_strlit("max");
    assert("max"@.len() == 3 && "max"@[1] == 'a');
}

/// Looked up by its key, every entry of the object is the figure that the key names.
pub proof fn law_register_writes_by_key(r: RegisterCount)
    ensures
        number_under(register_writes_model(r), "register"@) == Some(r.register as int),
        number_under(register_writes_model(r), "writes"@) == Some(r.count as int),
{
    reveal_strlit("register");
    assert("register"@.len() == 8);
    reveal_strlit("writes");
    assert("writes"@.len() == 6);
}

/// Looked up by its key, every entry of the object is the figure that the key names.
pub proof fn law_register_reads_by_key(r: RegisterCount)
    ensures
        number_under(register_reads_model(r), "register"@) == Some(r.register as int),
        number_under(register_reads_model(r), "reads"@) == Some(r.count as int),
{
    reveal_strlit("register");
    assert("register"@.len() == 8);
    reveal_strlit("reads");
    assert("reads"@.len() == 5);
}

/// Looked up by its key, every entry of the object is the figure that the key names.
pub proof fn law_mode_census_by_key(vga: Seq<ModeCensusEntry>, distira: Seq<DistiraCensusEntry>, distira_state: Option<DistiraScanoutState>, register_writes: Seq<RegisterCount>, register_reads: Seq<RegisterCount>, aperture: DistiraApertureTraffic, offset_bits_or: u64, swap_to_next_drain: SwapToNextDrainStats)
    ensures
        text_under(JsonModel::Obj(mode_census_model(vga, distira, distira_state, register_writes, register_reads, aperture, offset_bits_or, swap_to_next_drain)), "schema"@)
            == Some("izarravm-mode-census-v1"@),
        under(JsonModel::Obj(mode_census_model(vga, distira, distira_state, register_writes, register_reads, aperture, offset_bits_or, swap_to_next_drain)), "vga"@)
            == Some(JsonModel::Arr(vga.map_values(|e: ModeCensusEntry| mode_entry_model(e)))),
        under(JsonModel::Obj(mode_census_model(vga, distira, distira_state, register_writes, register_reads, aperture, offset_bits_or, swap_to_next_drain)), "distira"@)
            == Some(JsonModel::Arr( distira.map_values(|e: DistiraCensusEntry| distira_entry_model(e)), )),
        under(JsonModel::Obj(mode_census_model(vga, distira, distira_state, register_writes, register_reads, aperture, offset_bits_or, swap_to_next_drain)), "distira_scanout"@)
            == Some(opt_scanout_model(distira_state)),
        under(JsonModel::Obj(mode_census_model(vga, distira, distira_state, register_writes, register_reads, aperture, offset_bits_or, swap_to_next_drain)), "distira_register_writes"@)
            == Some(JsonModel::Arr( register_writes.map_values(|r: RegisterCount| register_writes_model(r)), )),
        under(JsonModel::Obj(mode_census_model(vga, distira, distira_state, register_writes, register_reads, aperture, offset_bits_or, swap_to_next_drain)), "distira_register_reads"@)
            == Some(JsonModel::Arr( register_reads.map_values(|r: RegisterCount| register_reads_model(r)), )),
        under(JsonModel::Obj(mode_census_model(vga, distira, distira_state, register_writes, register_reads, aperture, offset_bits_or, swap_to_next_drain)), "distira_aperture_traffic"@)
            == Some(aperture_model(aperture)),
        number_under(JsonModel::Obj(mode_census_model(vga, distira, distira_state, register_writes, register_reads, aperture, offset_bits_or, swap_to_next_drain)), "distira_offset_bits_or"@)
            == Some(offset_bits_or as int),
        under(JsonModel::Obj(mode_census_model(vga, distira, distira_state, register_writes, register_reads, aperture, offset_bits_or, swap_to_next_drain)), "distira_raster_lanes"@)
            == Some(opt_raster_lanes_model(distira_state)),
        under(JsonModel::Obj(mode_census_model(vga, distira, distira_state, register_writes, register_reads, aperture, offset_bits_or, swap_to_next_drain)), "distira_swap_to_next_drain_ns"@)
            == Some(swap_to_next_drain_model(swap_to_next_drain)),
{
    reveal_strlit("schema");
    assert("schema"@.len() == 6);
    reveal_strlit("vga");
    assert("vga"@.len() == 3);
    reveal_strlit("distira");
    assert("distira"@.len() == 7);
    reveal_strlit("distira_scanout");
    assert("distira_scanout"@.len() == 15 && "distira_scanout"@[8] == 's');
    reveal_strlit("distira_register_writes");
    assert("distira_register_writes"@.len() == 23 && "distira_register_writes"@[8] == 'r');
    reveal_strlit("distira_register_reads");
    assert("distira_register_reads"@.len() == 22 && "distira_register_reads"@[8] == 'r');
    reveal_strlit("distira_aperture_traffic");
    assert("distira_aperture_traffic"@.len() == 24 && "distira_aperture_traffic"@[8] == 'a');
    reveal_strlit("distira_offset_bits_or");
    assert("distira_offset_bits_or"@.len() == 22 && "distira_offset_bits_or"@[8] == 'o');
    reveal_strlit("distira_raster_lanes");
    assert("distira_raster_lanes"@.len() == 20 && "distira_raster_lanes"@[8] == 'r');
    reveal_strlit("distira_swap_to_next_drain_ns");
    assert("distira_swap_to_next_drain_ns"@.len() == 29 && "distira_swap_to_next_drain_ns"@[8] == 's');
}

/// Looked up by its key, every entry of the object is the figure that the key names.
pub proof fn law_margo_display_by_key(d: MargoDisplay)
    ensures
        text_under(margo_display_model(d), "mode"@) == Some(prefixed_hex(d.mode as nat, 4, false)),
        number_under(margo_display_model(d), "width"@) == Some(d.width as int),
        number_under(margo_display_model(d), "height"@) == Some(d.height as int),
        number_under(margo_display_model(d), "bpp"@) == Some(d.bpp as int),
        number_under(margo_display_model(d), "pitch"@) == Some(d.pitch as int),
        number_under(margo_display_model(d), "start"@) == Some(d.start as int),
{
    reveal_strlit("mode");
    assert("mode"@.len() == 4 && "mode"@[0] == 'm');
    reveal_strlit("width");
    assert("width"@.len() == 5 && "width"@[0] == 'w');
    reveal_strlit("height");
    assert("height"@.len() == 6 && "height"@[0] == 'h');
    reveal_strlit("bpp");
    assert("bpp"@.len() == 3 && "bpp"@[0] == 'b');
    reveal_strlit("pitch");
    assert("pitch"@.len() == 5 && "pitch"@[0] == 'p');
    reveal_strlit("start");
    assert("start"@.len() == 5 && "start"@[0] == 's');
}

/// Looked up by its key, every entry of the object is the figure that the key names.
pub proof fn law_margo_census_by_key(m: MargoCensus)
    ensures
        flag_under(margo_census_model(m), "active"@) == Some(m.active),
        under(margo_census_model(m), "display"@) == Some(opt_margo_display_model(m.display)),
        number_under(margo_census_model(m), "vbe_mode_sets_linear"@)
            == Some(m.vbe_mode_sets_linear as int),
        number_under(margo_census_model(m), "vbe_mode_sets_banked"@)
            == Some(m.vbe_mode_sets_banked as int),
        flag_under(margo_census_model(m), "vga_pass"@) == Some(m.vga_pass),
        flag_under(margo_census_model(m), "video_reset"@) == Some(m.video_reset),
        number_under(margo_census_model(m), "init_enable"@) == Some(m.init_enable as int),
        number_under(margo_census_model(m), "fbi_init0"@) == Some(m.fbi_init0 as int),
        number_under(margo_census_model(m), "video_reset_falling_edges"@)
            == Some(m.video_reset_falling_edges as int),
        number_under(margo_census_model(m), "fbi_init0_byte0_enables"@)
            == Some(m.fbi_init0_byte0_enables as int),
{
    reveal_strlit("active");
    assert("active"@.len() == 6 && "active"@[0] == 'a');
    reveal_strlit("display");
    assert("display"@.len() == 7 && "display"@[0] == 'd');
    reveal_strlit("vbe_mode_sets_linear");
    assert("vbe_mode_sets_linear"@.len() == 20 && "vbe_mode_sets_linear"@[0] == 'v' && "vbe_mode_sets_linear"@[14] == 'l');
    reveal_strlit("vbe_mode_sets_banked");
    assert("vbe_mode_sets_banked"@.len() == 20 && "vbe_mode_sets_banked"@[0] == 'v' && "vbe_mode_sets_banked"@[14] == 'b');
    reveal_strlit("vga_pass");
    assert("vga_pass"@.len() == 8 && "vga_pass"@[0] == 'v');
    reveal_strlit("video_reset");
    assert("video_reset"@.len() == 11 && "video_reset"@[0] == 'v');
    reveal_strlit("init_enable");
    assert("init_enable"@.len() == 11 && "init_enable"@[0] == 'i');
    reveal_strlit("fbi_init0");
    assert("fbi_init0"@.len() == 9 && "fbi_init0"@[0] == 'f');
    reveal_strlit("video_reset_falling_edges");
    assert("video_reset_falling_edges"@.len() == 25 && "video_reset_falling_edges"@[0] == 'v' && "video_reset_falling_edges"@[14] == 'l');
    reveal_strlit("fbi_init0_byte0_enables");
    assert("fbi_init0_byte0_enables"@.len() == 23 && "fbi_init0_byte0_enables"@[0] == 'f' && "fbi_init0_byte0_enables"@[14] == '0');
}

/// A double-scanned geometry shows every source row twice, any other once.
pub proof fn law_a_double_scan_shows_rows_twice(key: ModeCensusKey)
    ensures
        key.double_scan ==> key.vdisp_end - 1 <= 2 * source_lines(key) <= key.vdisp_end,
        !key.double_scan ==> source_lines(key) == key.vdisp_end,
{
}

} // verus!
