//! Sampling the screen while the guest runs.
//!
//! A sample is one line of an index and, where the picture moved, a picture file.
//! The sampler plans a sample; its caller writes the files and says which of them
//! were written.

use vstd::prelude::*;

use crate::picture::{argb_ppm, glyph_count, ActiveDisplay, VideoMode};
#[allow(unused_imports)]
use crate::picture::{glyphs, ppm_heading, rgb_bytes};
use crate::text::{decimal_text, pad_left, padded_hex_text};
#[allow(unused_imports)]
use crate::fnv::lemma_the_prime_keeps_apart;
#[allow(unused_imports)]
use crate::text::{
    decimal, digits_value, hex, hex_digit, hex_value, joined, lemma_decimal_is_digits,
    lemma_hex_reads_back, lemma_neither_holds, lemma_numerals_hold_digits,
    lemma_one_more_joined, lemma_split_undoes_joining, padded, split,
};
#[allow(unused_imports)]
use vstd::utf8::encode_utf8;

verus! {

/// The fewest guest clocks between two samples.
pub const SLICE_FLOOR: u64 = 1_000_000;

/// The mark that no picture was sampled yet.
pub const NO_PICTURE: u64 = 0xffff_ffff_ffff_ffff;

// ---------------------------------------------------------------------------
// Hashing
// ---------------------------------------------------------------------------

/// One byte hashed in.
pub open spec fn hash_byte(hash: u64, byte: u8) -> u64 {
    (((hash ^ (byte as u64)) * 0x0000_0100_0000_01b3int) % 0x1_0000_0000_0000_0000int) as u64
}

/// One pixel hashed in, its lowest byte first.
pub open spec fn hash_pixel(hash: u64, pixel: u32) -> u64 {
    hash_byte(
        hash_byte(
            hash_byte(
                hash_byte(hash, (pixel % 0x100) as u8),
                ((pixel / 0x100) % 0x100) as u8,
            ),
            ((pixel / 0x1_0000) % 0x100) as u8,
        ),
        (pixel / 0x100_0000) as u8,
    )
}

/// The FNV-1a hash of a picture.
pub open spec fn picture_hash(pixels: Seq<u32>) -> u64
    decreases pixels.len(),
{
    if pixels.len() == 0 {
        0xcbf2_9ce4_8422_2325
    } else {
        hash_pixel(picture_hash(pixels.drop_last()), pixels.last())
    }
}

/// One byte hashed in.
fn mix(hash: u64, byte: u8) -> (out: u64)
    ensures
        out == hash_byte(hash, byte),
{
    let mixed: u64 = hash ^ (byte as u64);
    let wide: u128 = mixed as u128 * 0x0000_0100_0000_01b3;
    (wide % 0x1_0000_0000_0000_0000) as u64
}

/// The FNV-1a hash of a picture.
pub fn fnv1a(pixels: &Vec<u32>) -> (hash: u64)
    ensures
        hash == picture_hash(pixels@),
{
    let mut hash: u64 = 0xcbf2_9ce4_8422_2325;
    let mut i: usize = 0;
    assert(pixels@.take(0) =~= Seq::empty());
    while i < pixels.len()
        invariant
            i <= pixels@.len(),
            hash == picture_hash(pixels@.take(i as int)),
        decreases pixels@.len() - i,
    {
        let pixel: u32 = pixels[i];
        assert(pixels@.take(i + 1).drop_last() =~= pixels@.take(i as int));
        hash = mix(hash, (pixel % 0x100) as u8);
        hash = mix(hash, ((pixel / 0x100) % 0x100) as u8);
        hash = mix(hash, ((pixel / 0x1_0000) % 0x100) as u8);
        hash = mix(hash, (pixel / 0x100_0000) as u8);
        i = i + 1;
    }
    assert(pixels@.take(pixels@.len() as int) =~= pixels@);
    hash
}

// ---------------------------------------------------------------------------
// Samples
// ---------------------------------------------------------------------------

/// The display's short name.
pub open spec fn display_label(display: ActiveDisplay) -> Seq<char> {
    match display {
        ActiveDisplay::VgaRaster => "vga"@,
        ActiveDisplay::MargoLfb => "margo"@,
        ActiveDisplay::Distira => "distira"@,
    }
}

/// The mode's short name.
pub open spec fn mode_label(mode: VideoMode) -> Seq<char> {
    match mode {
        VideoMode::Text => "text"@,
        VideoMode::Mode13h => "mode13h"@,
        VideoMode::Planar => "planar"@,
        VideoMode::ModeX => "modex"@,
        VideoMode::Cga => "cga"@,
        VideoMode::Hercules => "hercules"@,
    }
}

/// The display's short name.
pub fn display_name(display: ActiveDisplay) -> (name: &'static str)
    ensures
        name@ == display_label(display),
{
    match display {
        ActiveDisplay::VgaRaster => "vga",
        ActiveDisplay::MargoLfb => "margo",
        ActiveDisplay::Distira => "distira",
    }
}

/// The mode's short name.
pub fn mode_name(mode: VideoMode) -> (name: &'static str)
    ensures
        name@ == mode_label(mode),
{
    match mode {
        VideoMode::Text => "text",
        VideoMode::Mode13h => "mode13h",
        VideoMode::Planar => "planar",
        VideoMode::ModeX => "modex",
        VideoMode::Cga => "cga",
        VideoMode::Hercules => "hercules",
    }
}

/// A picture that the raster has finished.
#[derive(Debug)]
pub struct Frame {
    pub pixels: Vec<u32>,
    pub width: u64,
    pub height: u64,
}

/// What the machine shows: the last finished picture, where there is one. `mode` is
/// read of a VGA picture only, and `page` of a text mode only.
#[derive(Debug)]
pub struct Screen {
    pub frame: Option<Frame>,
    pub display: ActiveDisplay,
    pub mode: VideoMode,
    pub page: String,
    pub master_ticks: u64,
}

/// A sample: its line of the index, and the picture file where there is one to write.
#[derive(Debug)]
pub struct Sample {
    pub line: String,
    pub picture: Option<Picture>,
}

/// A picture file, and the hash of the picture that it holds.
#[derive(Debug)]
pub struct Picture {
    pub name: String,
    pub bytes: Vec<u8>,
    pub hash: u64,
}

/// The milliseconds that a number of ticks are, as far as they can be counted.
pub open spec fn guest_ms(master_ticks: u64, clock_hz: u64) -> nat {
    let thousandfold = if master_ticks * 1000 <= u64::MAX {
        master_ticks * 1000
    } else {
        u64::MAX as int
    };
    (thousandfold / clock_hz as int) as nat
}

/// The name of a sample's picture file.
pub open spec fn picture_name(sample: u64) -> Seq<char> {
    padded(decimal(sample as nat), 4, '0') + ".ppm"@
}

/// A text in quotation marks.
pub open spec fn quoted(text: Seq<char>) -> Seq<char> {
    "\""@ + text + "\""@
}

/// A flag in a word.
pub open spec fn flag_word(flag: bool) -> Seq<char> {
    if flag {
        "true"@
    } else {
        "false"@
    }
}

/// The line that a sample adds to the index. `hash` is that of the picture, where
/// there is one, and `changed` whether it moved.
pub open spec fn index_line(
    sample: u64,
    screen: Screen,
    clock_hz: u64,
    hash: Option<u64>,
    changed: bool,
) -> Seq<char> {
    let vga = screen.display == ActiveDisplay::VgaRaster;
    "{\"i\":"@ + decimal(sample as nat) + ",\"master_ticks\":"@ + decimal(
        screen.master_ticks as nat,
    ) + ",\"guest_ms\":"@ + decimal(guest_ms(screen.master_ticks, clock_hz)) + ",\"display\":\""@
        + display_label(screen.display) + "\",\"video_mode\":"@ + (if vga {
        quoted(mode_label(screen.mode))
    } else {
        "null"@
    }) + ",\"presented\":"@ + flag_word(hash is Some) + ",\"hash\":"@ + (match hash {
        Some(h) => quoted(padded(hex(h as nat), 16, '0')),
        None => "null"@,
    }) + ",\"changed\":"@ + flag_word(changed) + ",\"ppm\":"@ + (if changed {
        quoted(picture_name(sample))
    } else {
        "null"@
    }) + ",\"text_glyphs\":"@ + (if vga && screen.mode == VideoMode::Text {
        decimal(glyphs(screen.page@))
    } else {
        "null"@
    }) + "}"@
}

/// Samples the screen of a run.
pub struct ScreenDumper {
    /// Guest clocks between samples: the length of a slice of the run.
    slice: u64,
    clock_hz: u64,
    samples: u64,
    last_hash: u64,
}

impl ScreenDumper {
    /// The guest clocks between two samples.
    pub closed spec fn slice_clocks(&self) -> u64 {
        self.slice
    }

    /// The rate of the machine's master clock.
    pub closed spec fn rate(&self) -> u64 {
        self.clock_hz
    }

    /// The samples whose line was written.
    pub closed spec fn taken(&self) -> u64 {
        self.samples
    }

    /// The hash of the last picture that was written.
    pub closed spec fn last(&self) -> u64 {
        self.last_hash
    }

    /// A clock runs at some rate, and a slice is no shorter than the floor.
    pub open spec fn wf(&self) -> bool {
        self.rate() > 0 && self.slice_clocks() >= SLICE_FLOOR
    }

    /// A sampler that samples every `slice_clocks` guest clocks, but no more often
    /// than the floor allows.
    pub fn new(slice_clocks: u64, clock_hz: u64) -> (dumper: ScreenDumper)
        requires
            clock_hz > 0,
        ensures
            dumper.wf(),
            dumper.slice_clocks() == if slice_clocks < SLICE_FLOOR {
                SLICE_FLOOR
            } else {
                slice_clocks
            },
            dumper.rate() == clock_hz,
            dumper.taken() == 0,
            dumper.last() == NO_PICTURE,
            dumper.slice_clocks() >= 1_000_000,
            slice_clocks >= 1_000_000 ==> dumper.slice_clocks() == slice_clocks,
    {
        ScreenDumper {
            slice: if slice_clocks < SLICE_FLOOR {
                SLICE_FLOOR
            } else {
                slice_clocks
            },
            clock_hz,
            samples: 0,
            last_hash: NO_PICTURE,
        }
    }

    /// The guest clocks between two samples.
    pub fn slice(&self) -> (clocks: u64)
        ensures
            clocks == self.slice_clocks(),
    {
        self.slice
    }

    /// Whether a screen shows a picture that the last one written does not.
    pub open spec fn moved(&self, screen: Screen) -> bool {
        screen.frame matches Some(frame) && picture_hash(frame.pixels@) != self.last()
    }

    /// The hash of the picture that a screen shows.
    pub open spec fn hash_of(screen: Screen) -> Option<u64> {
        match screen.frame {
            Some(frame) => Some(picture_hash(frame.pixels@)),
            None => None,
        }
    }

    /// The sample of a screen. A picture goes with it exactly where the screen moved;
    /// a screen without a picture never did.
    pub fn sample(&self, screen: &Screen) -> (sample: Sample)
        requires
            self.wf(),
        ensures
            sample.line@ == index_line(
                self.taken(),
                *screen,
                self.rate(),
                ScreenDumper::hash_of(*screen),
                self.moved(*screen),
            ),
            sample.picture is Some <==> self.moved(*screen),
            sample.picture matches Some(picture) ==> {
                &&& picture.name@ == picture_name(self.taken())
                &&& picture.hash == picture_hash(screen.frame->0.pixels@)
                &&& picture.bytes@ == encode_utf8(
                    ppm_heading(
                        screen.frame->0.width as nat,
                        screen.frame->0.height as nat,
                    ),
                ) + rgb_bytes(screen.frame->0.pixels@)
            },
    {
        let vga: bool = screen.display == ActiveDisplay::VgaRaster;
        let hash: Option<u64> = match &screen.frame {
            Some(frame) => Some(fnv1a(&frame.pixels)),
            None => None,
        };
        let changed: bool = match hash {
            Some(h) => h != self.last_hash,
            None => false,
        };
        let mut name: String = pad_left(decimal_text(self.samples).as_str(), 4, '0');
        name.append(".ppm");
        let thousandfold: u64 = match screen.master_ticks.checked_mul(1000) {
            Some(n) => n,
            None => u64::MAX,
        };
        let mut line: String = "{\"i\":".to_owned();
        line.append(decimal_text(self.samples).as_str());
        line.append(",\"master_ticks\":");
        line.append(decimal_text(screen.master_ticks).as_str());
        line.append(",\"guest_ms\":");
        line.append(decimal_text(thousandfold / self.clock_hz).as_str());
        line.append(",\"display\":\"");
        line.append(display_name(screen.display));
        line.append("\",\"video_mode\":");
        if vga {
            line.append(in_quotes(mode_name(screen.mode)).as_str());
        } else {
            line.append("null");
        }
        line.append(",\"presented\":");
        line.append(if hash.is_some() { "true" } else { "false" });
        line.append(",\"hash\":");
        match hash {
            Some(h) => {
                line.append(in_quotes(padded_hex_text(h, 16, false).as_str()).as_str());
            },
            None => {
                line.append("null");
            },
        }
        line.append(",\"changed\":");
        line.append(if changed { "true" } else { "false" });
        line.append(",\"ppm\":");
        if changed {
            line.append(in_quotes(name.as_str()).as_str());
        } else {
            line.append("null");
        }
        line.append(",\"text_glyphs\":");
        if vga && screen.mode == VideoMode::Text {
            line.append(decimal_text(glyph_count(screen.page.as_str())).as_str());
        } else {
            line.append("null");
        }
        line.append("}");
        let picture: Option<Picture> = match &screen.frame {
            Some(frame) => if changed {
                Some(
                    Picture {
                        name,
                        bytes: argb_ppm(&frame.pixels, frame.width, frame.height),
                        hash: hash.unwrap(),
                    },
                )
            } else {
                None
            },
            None => None,
        };
        Sample { line, picture }
    }

    /// A picture file was written: the next picture is held against it.
    pub fn picture_written(&mut self, hash: u64)
        requires
            old(self).wf(),
        ensures
            final(self).wf(),
            final(self).last() == hash,
            final(self).taken() == old(self).taken(),
            final(self).rate() == old(self).rate(),
            final(self).slice_clocks() == old(self).slice_clocks(),
    {
        self.last_hash = hash;
    }

    /// Whether the counter can take one more sample.
    pub fn room(&self) -> (room: bool)
        ensures
            room == (self.taken() < u64::MAX),
    {
        self.samples < u64::MAX
    }

    /// A line of the index was written: the sample is done.
    pub fn line_written(&mut self)
        requires
            old(self).wf(),
            old(self).taken() < u64::MAX,
        ensures
            final(self).wf(),
            final(self).taken() == old(self).taken() + 1,
            final(self).last() == old(self).last(),
            final(self).rate() == old(self).rate(),
            final(self).slice_clocks() == old(self).slice_clocks(),
    {
        self.samples = self.samples + 1;
    }
}

/// A text in quotation marks.
fn in_quotes(text: &str) -> (out: String)
    ensures
        out@ == quoted(text@),
{
    let mut out: String = "\"".to_owned();
    out.append(text);
    out.append("\"");
    out
}

// ---------------------------------------------------------------------------
// Laws
// ---------------------------------------------------------------------------

/// A byte of a pixel, the lowest first.
pub open spec fn pixel_byte(pixel: u32, k: int) -> u8 {
    if k == 0 {
        (pixel % 0x100) as u8
    } else if k == 1 {
        (pixel / 0x100 % 0x100) as u8
    } else if k == 2 {
        (pixel / 0x1_0000 % 0x100) as u8
    } else {
        (pixel / 0x100_0000) as u8
    }
}

/// Whether two pixels differ in one byte: a channel, or what is above the channels.
pub open spec fn one_byte_apart(a: u32, b: u32) -> bool {
    exists|k: int| #[trigger]
        is_byte(k) && pixel_byte(a, k) != pixel_byte(b, k) && forall|j: int| #[trigger]
            is_byte(j) && j != k ==> pixel_byte(a, j) == pixel_byte(b, j)
}

/// The places of a pixel's bytes.
pub open spec fn is_byte(k: int) -> bool {
    0 <= k < 4
}

/// A byte hashed in keeps hashes apart, and bytes.
proof fn lemma_a_byte_keeps_apart(h: u64, g: u64, a: u8, b: u8)
    ensures
        h != g ==> hash_byte(h, a) != hash_byte(g, a),
        a != b ==> hash_byte(h, a) != hash_byte(h, b),
{
    let (x, y, z) = (h ^ (a as u64), g ^ (a as u64), h ^ (b as u64));
    assert(h != g ==> x != y) by (bit_vector)
        requires
            x == h ^ (a as u64),
            y == g ^ (a as u64),
    ;
    assert(a != b ==> x != z) by (bit_vector)
        requires
            x == h ^ (a as u64),
            z == h ^ (b as u64),
    ;
    if hash_byte(h, a) == hash_byte(g, a) {
        lemma_the_prime_keeps_apart(x as int, y as int);
    }
    if hash_byte(h, a) == hash_byte(h, b) {
        lemma_the_prime_keeps_apart(x as int, z as int);
    }
}

/// A pixel hashed in keeps hashes apart, and pixels that differ in one byte.
proof fn lemma_a_pixel_keeps_apart(h: u64, g: u64, a: u32, b: u32)
    ensures
        h != g ==> hash_pixel(h, a) != hash_pixel(g, a),
        one_byte_apart(a, b) ==> hash_pixel(h, a) != hash_pixel(h, b),
{
    let (a0, a1, a2, a3) = (pixel_byte(a, 0), pixel_byte(a, 1), pixel_byte(a, 2), pixel_byte(a, 3));
    let (b0, b1, b2, b3) = (pixel_byte(b, 0), pixel_byte(b, 1), pixel_byte(b, 2), pixel_byte(b, 3));
    let (h1, g1, k1) = (hash_byte(h, a0), hash_byte(g, a0), hash_byte(h, b0));
    let (h2, g2, k2) = (hash_byte(h1, a1), hash_byte(g1, a1), hash_byte(k1, b1));
    let (h3, g3, k3) = (hash_byte(h2, a2), hash_byte(g2, a2), hash_byte(k2, b2));
    lemma_a_byte_keeps_apart(h, g, a0, b0);
    lemma_a_byte_keeps_apart(h1, g1, a1, b1);
    lemma_a_byte_keeps_apart(h2, g2, a2, b2);
    lemma_a_byte_keeps_apart(h3, g3, a3, b3);
    lemma_a_byte_keeps_apart(h1, k1, a1, b1);
    lemma_a_byte_keeps_apart(h2, k2, a2, b2);
    lemma_a_byte_keeps_apart(h3, k3, a3, b3);
    assert(is_byte(0) && is_byte(1) && is_byte(2) && is_byte(3));
}

/// A picture that differs from another in one byte of one pixel has another hash.
pub proof fn law_one_byte_moves_the_hash(pixels: Seq<u32>, i: int, pixel: u32)
    requires
        0 <= i < pixels.len(),
        one_byte_apart(pixels[i], pixel),
    ensures
        picture_hash(pixels.update(i, pixel)) != picture_hash(pixels),
    decreases pixels.len(),
{
    let other = pixels.update(i, pixel);
    let rest = pixels.drop_last();
    if i == rest.len() {
        assert(other.drop_last() =~= rest);
        lemma_a_pixel_keeps_apart(picture_hash(rest), picture_hash(rest), pixels[i], pixel);
    } else {
        assert(other.drop_last() =~= rest.update(i, pixel));
        law_one_byte_moves_the_hash(rest, i, pixel);
        lemma_a_pixel_keeps_apart(
            picture_hash(rest),
            picture_hash(rest.update(i, pixel)),
            pixels.last(),
            pixels.last(),
        );
    }
}

/// A screen that differs from the picture written last in one byte of one pixel has
/// moved, and one that shows that picture again has not.
pub proof fn law_one_byte_moves_the_screen(
    dumper: ScreenDumper,
    written: Seq<u32>,
    screen: Screen,
    i: int,
    pixel: u32,
)
    requires
        dumper.last() == picture_hash(written),
        screen.frame is Some,
    ensures
        screen.frame->0.pixels@ == written ==> !dumper.moved(screen),
        0 <= i < written.len() && one_byte_apart(written[i], pixel) && screen.frame->0.pixels@
            == written.update(i, pixel) ==> dumper.moved(screen),
{
    if 0 <= i < written.len() && one_byte_apart(written[i], pixel) {
        law_one_byte_moves_the_hash(written, i, pixel);
    }
}

/// The FNV-1a hash of bytes behind those that came to `hash`.
pub open spec fn fnv1a_over(hash: u64, bytes: Seq<u8>) -> u64
    decreases bytes.len(),
{
    if bytes.len() == 0 {
        hash
    } else {
        let mixed = hash ^ (bytes[0] as u64);
        fnv1a_over((mixed * 1_099_511_628_211 % 18_446_744_073_709_551_616) as u64, bytes.drop_first())
    }
}

/// The bytes of a picture: those of each pixel, the lowest first.
pub open spec fn picture_bytes(pixels: Seq<u32>) -> Seq<u8> {
    Seq::new(4 * pixels.len(), |i: int| pixel_byte(pixels[i / 4], i % 4))
}

/// Bytes in two pieces hash as they do in one.
proof fn lemma_fnv1a_in_pieces(hash: u64, a: Seq<u8>, b: Seq<u8>)
    ensures
        fnv1a_over(hash, a + b) == fnv1a_over(fnv1a_over(hash, a), b),
    decreases a.len(),
{
    if a.len() == 0 {
        assert(a + b =~= b);
    } else {
        let mixed = hash ^ (a[0] as u64);
        let next = (mixed * 1_099_511_628_211 % 18_446_744_073_709_551_616) as u64;
        assert((a + b).drop_first() =~= a.drop_first() + b);
        lemma_fnv1a_in_pieces(next, a.drop_first(), b);
    }
}

/// The hash of a picture is the FNV-1a hash of all its bytes.
pub proof fn law_the_hash_runs_over_every_byte(pixels: Seq<u32>)
    ensures
        picture_hash(pixels) == fnv1a_over(14_695_981_039_346_656_037, picture_bytes(pixels)),
    decreases pixels.len(),
{
    if pixels.len() == 0 {
        assert(picture_bytes(pixels) =~= Seq::empty());
    } else {
        let rest = pixels.drop_last();
        let p = pixels.last();
        let four = seq![pixel_byte(p, 0), pixel_byte(p, 1), pixel_byte(p, 2), pixel_byte(p, 3)];
        law_the_hash_runs_over_every_byte(rest);
        assert(picture_bytes(pixels) =~= picture_bytes(rest) + four);
        lemma_fnv1a_in_pieces(14_695_981_039_346_656_037, picture_bytes(rest), four);
        assert(four.drop_first() =~= seq![pixel_byte(p, 1), pixel_byte(p, 2), pixel_byte(p, 3)]);
        assert(four.drop_first().drop_first() =~= seq![pixel_byte(p, 2), pixel_byte(p, 3)]);
        assert(four.drop_first().drop_first().drop_first() =~= seq![pixel_byte(p, 3)]);
        assert(four.drop_first().drop_first().drop_first().drop_first() =~= Seq::empty());
        reveal_with_fuel(fnv1a_over, 5);
    }
}

/// The milliseconds of a line are the ticks of the clock in thousandths of a second,
/// rounded down, as long as those can be counted.
pub proof fn law_guest_ms_is_the_clocks_time(master_ticks: u64, clock_hz: u64)
    requires
        clock_hz > 0,
        master_ticks * 1000 <= u64::MAX,
    ensures
        guest_ms(master_ticks, clock_hz) * clock_hz <= master_ticks * 1000,
        master_ticks * 1000 < (guest_ms(master_ticks, clock_hz) + 1) * clock_hz,
{
    let n = master_ticks as int * 1000;
    let hz = clock_hz as int;
    vstd::arithmetic::div_mod::lemma_fundamental_div_mod(n, hz);
    vstd::arithmetic::div_mod::lemma_mod_bound(n, hz);
    assert(n / hz >= 0) by (nonlinear_arith)
        requires
            n >= 0,
            hz > 0,
    ;
    assert((n / hz + 1) * hz == hz * (n / hz) + hz) by (nonlinear_arith);
    assert((n / hz) * hz == hz * (n / hz)) by (nonlinear_arith);
}

/// Zeros in front of digits change nothing of what they stand for.
proof fn lemma_zeros_stand_for_nothing(zeros: Seq<char>, digits: Seq<char>)
    requires
        forall|i: int| 0 <= i < zeros.len() ==> (#[trigger] zeros[i]) == '0',
    ensures
        digits_value(zeros + digits) == digits_value(digits),
    decreases zeros.len() + digits.len(),
{
    if digits.len() > 0 {
        lemma_zeros_stand_for_nothing(zeros, digits.drop_last());
        assert((zeros + digits).drop_last() =~= zeros + digits.drop_last());
    } else if zeros.len() > 0 {
        assert(zeros + digits =~= zeros);
        let less = zeros.drop_last();
        assert(less + digits =~= less);
        lemma_zeros_stand_for_nothing(less, digits);
    }
}

/// A picture file is named by its sample's number, in four digits at least: reading the
/// digits in front of the ending gives the number.
pub proof fn law_a_picture_is_named_by_its_sample(sample: u64)
    ensures
        ({
            let name = picture_name(sample);
            let digits = name.take(name.len() - 4);
            &&& digits.len() >= 4
            &&& digits_value(digits) == sample
            &&& name.skip(name.len() - 4) == seq!['.', 'p', 'p', 'm']
        }),
{
    reveal_strlit(".ppm");
    let number = decimal(sample as nat);
    let digits = padded(number, 4, '0');
    let name = picture_name(sample);
    lemma_decimal_is_digits(sample as nat);
    assert(name.take(name.len() - 4) =~= digits);
    assert(name.skip(name.len() - 4) =~= seq!['.', 'p', 'p', 'm']);
    if number.len() < 4 {
        let zeros = Seq::new((4 - number.len()) as nat, |i: int| '0');
        lemma_zeros_stand_for_nothing(zeros, number);
    }
}

/// A key of an index line with what stands under it.
pub open spec fn index_field(key: Seq<char>, value: Seq<char>) -> Seq<char> {
    seq!['"'] + key + seq!['"', ':'] + value
}

/// A word that is there, in quotation marks, or `null`.
pub open spec fn word_or_null(word: Option<Seq<char>>) -> Seq<char> {
    match word {
        Some(word) => seq!['"'] + word + seq!['"'],
        None => "null"@,
    }
}

/// What the fields of an index line have to say, in their order: which sample it is,
/// when, what was shown, its picture's hash, whether it moved and where it is kept. A mode
/// is named of a VGA picture only, and glyphs are counted of a text mode only.
pub open spec fn index_fields(
    sample: u64,
    screen: Screen,
    clock_hz: u64,
    hash: Option<u64>,
    changed: bool,
) -> Seq<Seq<char>> {
    let vga = screen.display is VgaRaster;
    let word = |flag: bool|
        if flag {
            "true"@
        } else {
            "false"@
        };
    seq![
        index_field("i"@, decimal(sample as nat)),
        index_field("master_ticks"@, decimal(screen.master_ticks as nat)),
        index_field("guest_ms"@, decimal(guest_ms(screen.master_ticks, clock_hz))),
        index_field("display"@, word_or_null(Some(display_label(screen.display)))),
        index_field(
            "video_mode"@,
            word_or_null(
                if vga {
                    Some(mode_label(screen.mode))
                } else {
                    None
                },
            ),
        ),
        index_field("presented"@, word(hash is Some)),
        index_field(
            "hash"@,
            word_or_null(
                match hash {
                    Some(h) => Some(padded(hex(h as nat), 16, '0')),
                    None => None,
                },
            ),
        ),
        index_field("changed"@, word(changed)),
        index_field(
            "ppm"@,
            word_or_null(
                if changed {
                    Some(picture_name(sample))
                } else {
                    None
                },
            ),
        ),
        index_field(
            "text_glyphs"@,
            if vga && screen.mode is Text {
                decimal(glyphs(screen.page@))
            } else {
                "null"@
            },
        ),
    ]
}

/// A field holds no comma where its key and its value hold none.
proof fn lemma_a_field_without_comma(key: Seq<char>, value: Seq<char>)
    requires
        !key.contains(','),
        !value.contains(','),
    ensures
        !index_field(key, value).contains(','),
        !word_or_null(Some(value)).contains(','),
        !word_or_null(None).contains(','),
{
    reveal_strlit("null");
    lemma_neither_holds(seq!['"'], key, ',');
    lemma_neither_holds(seq!['"'] + key, seq!['"', ':'], ',');
    lemma_neither_holds(seq!['"'] + key + seq!['"', ':'], value, ',');
    lemma_neither_holds(seq!['"'], value, ',');
    lemma_neither_holds(seq!['"'] + value, seq!['"'], ',');
}

/// No value of an index line holds a comma.
proof fn lemma_fields_without_comma(
    sample: u64,
    screen: Screen,
    clock_hz: u64,
    hash: Option<u64>,
    changed: bool,
)
    ensures
        ({
            let fields = index_fields(sample, screen, clock_hz, hash, changed);
            forall|i: int| 0 <= i < fields.len() ==> !(#[trigger] fields[i]).contains(',')
        }),
{
    let fields = index_fields(sample, screen, clock_hz, hash, changed);
    reveal_strlit("i");
    reveal_strlit("master_ticks");
    reveal_strlit("guest_ms");
    reveal_strlit("display");
    reveal_strlit("video_mode");
    reveal_strlit("presented");
    reveal_strlit("hash");
    reveal_strlit("changed");
    reveal_strlit("ppm");
    reveal_strlit("text_glyphs");
    reveal_strlit("null");
    reveal_strlit("true");
    reveal_strlit("false");
    reveal_strlit(".ppm");
    reveal_strlit("vga");
    reveal_strlit("margo");
    reveal_strlit("distira");
    reveal_strlit("text");
    reveal_strlit("mode13h");
    reveal_strlit("planar");
    reveal_strlit("modex");
    reveal_strlit("cga");
    reveal_strlit("hercules");
    let display = display_label(screen.display);
    let mode = mode_label(screen.mode);
    assert(!display.contains(','));
    assert(!mode.contains(','));
    lemma_numerals_hold_digits(sample as nat, 4, ',');
    lemma_numerals_hold_digits(screen.master_ticks as nat, 0, ',');
    lemma_numerals_hold_digits(guest_ms(screen.master_ticks, clock_hz), 0, ',');
    lemma_numerals_hold_digits(glyphs(screen.page@), 0, ',');
    lemma_neither_holds(padded(decimal(sample as nat), 4, '0'), ".ppm"@, ',');
    lemma_a_field_without_comma("i"@, decimal(sample as nat));
    lemma_a_field_without_comma("master_ticks"@, decimal(screen.master_ticks as nat));
    lemma_a_field_without_comma("guest_ms"@, decimal(guest_ms(screen.master_ticks, clock_hz)));
    lemma_a_field_without_comma("i"@, display);
    lemma_a_field_without_comma("display"@, word_or_null(Some(display)));
    lemma_a_field_without_comma("i"@, mode);
    lemma_a_field_without_comma("video_mode"@, word_or_null(Some(mode)));
    lemma_a_field_without_comma("video_mode"@, "null"@);
    lemma_a_field_without_comma("presented"@, "true"@);
    lemma_a_field_without_comma("presented"@, "false"@);
    lemma_a_field_without_comma("hash"@, "null"@);
    if let Some(h) = hash {
        lemma_numerals_hold_digits(h as nat, 16, ',');
        lemma_a_field_without_comma("i"@, padded(hex(h as nat), 16, '0'));
        lemma_a_field_without_comma("hash"@, word_or_null(Some(padded(hex(h as nat), 16, '0'))));
    }
    lemma_a_field_without_comma("changed"@, "true"@);
    lemma_a_field_without_comma("changed"@, "false"@);
    lemma_a_field_without_comma("ppm"@, "null"@);
    lemma_a_field_without_comma("i"@, picture_name(sample));
    lemma_a_field_without_comma("ppm"@, word_or_null(Some(picture_name(sample))));
    lemma_a_field_without_comma("text_glyphs"@, "null"@);
    lemma_a_field_without_comma("text_glyphs"@, decimal(glyphs(screen.page@)));
    assert forall|i: int| 0 <= i < fields.len() implies !(#[trigger] fields[i]).contains(',') by {
        assert(i == 0 || i == 1 || i == 2 || i == 3 || i == 4 || i == 5 || i == 6 || i == 7 || i
            == 8 || i == 9);
    }
}

/// What stands before a value is a comma and the beginning of a field.
proof fn lemma_one_more_field(line: Seq<char>, start: Seq<char>, key: Seq<char>, value: Seq<char>)
    requires
        start == seq![',', '"'] + key + seq!['"', ':'],
    ensures
        line + start + value == line + seq![','] + index_field(key, value),
{
    assert(line + start + value =~= line + seq![','] + index_field(key, value));
}

/// A field whose value's quotation marks stand in what is around it.
proof fn lemma_one_more_quoted_field(
    line: Seq<char>,
    start: Seq<char>,
    key: Seq<char>,
    value: Seq<char>,
    end: Seq<char>,
)
    requires
        start == seq![',', '"'] + key + seq!['"', ':', '"'],
        end.len() > 0,
        end[0] == '"',
    ensures
        line + start + value + end == line + seq![','] + index_field(
            key,
            word_or_null(Some(value)),
        ) + end.drop_first(),
{
    assert(line + start + value + end =~= line + seq![','] + index_field(
        key,
        word_or_null(Some(value)),
    ) + end.drop_first());
}

/// A line that begins with joined fields begins with one more behind the next.
proof fn lemma_a_line_grows(f: Seq<Seq<char>>, n: int)
    requires
        1 <= n < f.len(),
    ensures
        seq!['{'] + joined(f.take(n), seq![',']) + seq![','] + f[n] == seq!['{'] + joined(
            f.take(n + 1),
            seq![','],
        ),
{
    lemma_one_more_joined(f, n, seq![',']);
    assert(seq!['{'] + joined(f.take(n), seq![',']) + seq![','] + f[n] =~= seq!['{'] + (joined(
        f.take(n),
        seq![','],
    ) + seq![','] + f[n]));
}

/// The fields joined are what stands between a line's brackets.
proof fn lemma_a_line_is_its_fields(
    sample: u64,
    screen: Screen,
    clock_hz: u64,
    hash: Option<u64>,
    changed: bool,
)
    ensures
        index_line(sample, screen, clock_hz, hash, changed) == seq!['{'] + joined(
            index_fields(sample, screen, clock_hz, hash, changed),
            seq![','],
        ) + seq!['}'],
{
    let f = index_fields(sample, screen, clock_hz, hash, changed);
    let sep = seq![','];
    let open = seq!['{'];
    assert(f.take(1)[0] == f[0]);
    assert(f.take(10) =~= f);
    let j1 = joined(f.take(1), sep);
    let j2 = joined(f.take(2), sep);
    let j3 = joined(f.take(3), sep);
    let j4 = joined(f.take(4), sep);
    let j5 = joined(f.take(5), sep);
    let j6 = joined(f.take(6), sep);
    let j7 = joined(f.take(7), sep);
    let j8 = joined(f.take(8), sep);
    let j9 = joined(f.take(9), sep);
    let j10 = joined(f.take(10), sep);
    lemma_how_fields_start();
    let ms = decimal(guest_ms(screen.master_ticks, clock_hz));
    let vga = screen.display == ActiveDisplay::VgaRaster;
    let mode = if vga {
        quoted(mode_label(screen.mode))
    } else {
        "null"@
    };
    let hashed = match hash {
        Some(h) => quoted(padded(hex(h as nat), 16, '0')),
        None => "null"@,
    };
    let kept = if changed {
        quoted(picture_name(sample))
    } else {
        "null"@
    };
    let counted = if vga && screen.mode == VideoMode::Text {
        decimal(glyphs(screen.page@))
    } else {
        "null"@
    };
    let l1 = "{\"i\":"@ + decimal(sample as nat);
    assert(l1 =~= open + j1);
    let l2 = l1 + ",\"master_ticks\":"@ + decimal(screen.master_ticks as nat);
    lemma_one_more_field(
        l1,
        ",\"master_ticks\":"@,
        "master_ticks"@,
        decimal(screen.master_ticks as nat),
    );
    lemma_a_line_grows(f, 1);
    assert(l2 == open + j2);
    let l3 = l2 + ",\"guest_ms\":"@ + ms;
    lemma_one_more_field(l2, ",\"guest_ms\":"@, "guest_ms"@, ms);
    lemma_a_line_grows(f, 2);
    assert(l3 == open + j3);
    let l4 = l3 + ",\"display\":\""@ + display_label(screen.display) + "\",\"video_mode\":"@;
    lemma_one_more_quoted_field(
        l3,
        ",\"display\":\""@,
        "display"@,
        display_label(screen.display),
        "\",\"video_mode\":"@,
    );
    let start = "\",\"video_mode\":"@.drop_first();
    lemma_a_line_grows(f, 3);
    assert(l4 == open + j4 + start);
    let l5 = l4 + mode;
    lemma_one_more_field(open + j4, start, "video_mode"@, mode);
    lemma_a_line_grows(f, 4);
    assert(l5 == open + j5);
    let l6 = l5 + ",\"presented\":"@ + flag_word(hash is Some);
    lemma_one_more_field(l5, ",\"presented\":"@, "presented"@, flag_word(hash is Some));
    lemma_a_line_grows(f, 5);
    assert(l6 == open + j6);
    let l7 = l6 + ",\"hash\":"@ + hashed;
    lemma_one_more_field(l6, ",\"hash\":"@, "hash"@, hashed);
    lemma_a_line_grows(f, 6);
    assert(l7 == open + j7);
    let l8 = l7 + ",\"changed\":"@ + flag_word(changed);
    lemma_one_more_field(l7, ",\"changed\":"@, "changed"@, flag_word(changed));
    lemma_a_line_grows(f, 7);
    assert(l8 == open + j8);
    let l9 = l8 + ",\"ppm\":"@ + kept;
    lemma_one_more_field(l8, ",\"ppm\":"@, "ppm"@, kept);
    lemma_a_line_grows(f, 8);
    assert(l9 == open + j9);
    let l10 = l9 + ",\"text_glyphs\":"@ + counted;
    lemma_one_more_field(l9, ",\"text_glyphs\":"@, "text_glyphs"@, counted);
    lemma_a_line_grows(f, 9);
    assert(l10 == open + j10);
}

/// How the fields of a line begin and end.
proof fn lemma_how_fields_start()
    ensures
        "{\"i\":"@ == seq!['{', '"'] + "i"@ + seq!['"', ':'],
        ",\"master_ticks\":"@ == seq![',', '"'] + "master_ticks"@ + seq!['"', ':'],
        ",\"guest_ms\":"@ == seq![',', '"'] + "guest_ms"@ + seq!['"', ':'],
        ",\"display\":\""@ == seq![',', '"'] + "display"@ + seq!['"', ':', '"'],
        "\",\"video_mode\":"@.len() > 0,
        "\",\"video_mode\":"@[0] == '"',
        "\",\"video_mode\":"@.drop_first() == seq![',', '"'] + "video_mode"@ + seq!['"', ':'],
        ",\"presented\":"@ == seq![',', '"'] + "presented"@ + seq!['"', ':'],
        ",\"hash\":"@ == seq![',', '"'] + "hash"@ + seq!['"', ':'],
        ",\"changed\":"@ == seq![',', '"'] + "changed"@ + seq!['"', ':'],
        ",\"ppm\":"@ == seq![',', '"'] + "ppm"@ + seq!['"', ':'],
        ",\"text_glyphs\":"@ == seq![',', '"'] + "text_glyphs"@ + seq!['"', ':'],
        "}"@ == seq!['}'],
        "\""@ == seq!['"'],
{
    reveal_strlit("i");
    reveal_strlit("master_ticks");
    reveal_strlit("guest_ms");
    reveal_strlit("display");
    reveal_strlit("video_mode");
    reveal_strlit("presented");
    reveal_strlit("hash");
    reveal_strlit("changed");
    reveal_strlit("ppm");
    reveal_strlit("text_glyphs");
    reveal_strlit("\"");
    reveal_strlit("{\"i\":");
    reveal_strlit(",\"master_ticks\":");
    reveal_strlit(",\"guest_ms\":");
    reveal_strlit(",\"display\":\"");
    reveal_strlit("\",\"video_mode\":");
    reveal_strlit(",\"presented\":");
    reveal_strlit(",\"hash\":");
    reveal_strlit(",\"changed\":");
    reveal_strlit(",\"ppm\":");
    reveal_strlit(",\"text_glyphs\":");
    reveal_strlit("}");
}

/// A line of the index reads back field by field.
pub proof fn law_an_index_line_reads_back(
    sample: u64,
    screen: Screen,
    clock_hz: u64,
    hash: Option<u64>,
    changed: bool,
)
    ensures
        ({
            let line = index_line(sample, screen, clock_hz, hash, changed);
            &&& line.len() >= 2 && line[0] == '{' && line.last() == '}'
            &&& split(line.subrange(1, line.len() - 1), ',') == index_fields(
                sample,
                screen,
                clock_hz,
                hash,
                changed,
            )
        }),
{
    let fields = index_fields(sample, screen, clock_hz, hash, changed);
    let line = index_line(sample, screen, clock_hz, hash, changed);
    lemma_a_line_is_its_fields(sample, screen, clock_hz, hash, changed);
    lemma_fields_without_comma(sample, screen, clock_hz, hash, changed);
    lemma_split_undoes_joining(fields, ',');
    assert(line.subrange(1, line.len() - 1) =~= joined(fields, seq![',']));
}

/// The hash of the last picture written once a screen was sampled.
pub open spec fn last_after_one(last: u64, screen: Screen) -> u64 {
    match ScreenDumper::hash_of(screen) {
        Some(hash) => if hash != last {
            hash
        } else {
            last
        },
        None => last,
    }
}

/// The hash of the last picture written once the screens were sampled one by one.
pub open spec fn last_after(screens: Seq<Screen>) -> u64
    decreases screens.len(),
{
    if screens.len() == 0 {
        NO_PICTURE
    } else {
        last_after_one(last_after(screens.drop_last()), screens.last())
    }
}

/// The hash of the last picture that any of the screens showed.
pub open spec fn last_shown(screens: Seq<Screen>) -> u64
    decreases screens.len(),
{
    if screens.len() == 0 {
        NO_PICTURE
    } else {
        match ScreenDumper::hash_of(screens.last()) {
            Some(hash) => hash,
            None => last_shown(screens.drop_last()),
        }
    }
}

/// A picture is held against the last one that was shown, however many screens
/// without a picture came between: none of them is a picture that it could match.
pub proof fn law_a_picture_is_held_against_the_last_one_shown(screens: Seq<Screen>)
    ensures
        last_after(screens) == last_shown(screens),
    decreases screens.len(),
{
    if screens.len() > 0 {
        law_a_picture_is_held_against_the_last_one_shown(screens.drop_last());
    }
}

/// A screen moves exactly where writing its picture changes what the next one is
/// held against; a screen without a picture never does.
pub proof fn law_only_a_picture_moves(dumper: ScreenDumper, screen: Screen)
    ensures
        dumper.moved(screen) <==> last_after_one(dumper.last(), screen) != dumper.last(),
        screen.frame is None ==> !dumper.moved(screen),
{
}

/// The label of a display is the first word of its name in small letters.
pub proof fn law_a_display_has_the_label_of_its_name(display: ActiveDisplay)
    ensures
        display_label(display) == crate::text::lowered(
            display.name().take(display_label(display).len() as int),
        ),
        display_label(ActiveDisplay::VgaRaster).len() == 3,
        display_label(ActiveDisplay::MargoLfb).len() == 5,
        display_label(ActiveDisplay::Distira).len() == 7,
{
    reveal_strlit("vga");
    reveal_strlit("margo");
    reveal_strlit("distira");
    reveal_strlit("VGA raster");
    reveal_strlit("Margo linear framebuffer");
    reveal_strlit("Distira");
    assert(display_label(display) =~= crate::text::lowered(
        display.name().take(display_label(display).len() as int),
    ));
}

/// The label of a mode is how its name begins, in small letters and as one word.
pub proof fn law_a_mode_has_the_label_of_its_name(mode: VideoMode)
    ensures
        !(mode is Mode13h || mode is ModeX) ==> mode_label(mode) == crate::text::lowered(
            mode.name().take(mode_label(mode).len() as int),
        ),
        mode is Mode13h || mode is ModeX ==> mode_label(mode) == crate::text::lowered(
            mode.name().take(4) + mode.name().subrange(5, mode_label(mode).len() + 1int),
        ),
        mode_label(VideoMode::Text).len() == 4,
        mode_label(VideoMode::Mode13h).len() == 7,
        mode_label(VideoMode::Planar).len() == 6,
        mode_label(VideoMode::ModeX).len() == 5,
        mode_label(VideoMode::Cga).len() == 3,
        mode_label(VideoMode::Hercules).len() == 8,
{
    reveal_strlit("text");
    reveal_strlit("mode13h");
    reveal_strlit("planar");
    reveal_strlit("modex");
    reveal_strlit("cga");
    reveal_strlit("hercules");
    reveal_strlit("text (03h)");
    reveal_strlit("mode 13h (320x200x256)");
    reveal_strlit("planar (EGA/VGA 16-color)");
    reveal_strlit("mode X (unchained 256-color)");
    reveal_strlit("CGA graphics (320x200x4 / 640x200x2)");
    reveal_strlit("Hercules graphics (720x348 monochrome)");
    if mode is Mode13h || mode is ModeX {
        assert(mode_label(mode) =~= crate::text::lowered(
            mode.name().take(4) + mode.name().subrange(5, mode_label(mode).len() + 1int),
        ));
    } else {
        assert(mode_label(mode) =~= crate::text::lowered(
            mode.name().take(mode_label(mode).len() as int),
        ));
    }
}

} // verus!
