//! Screenshots: the picture as the window shows it, as a PNG file.

use vstd::prelude::*;

use crate::prefs::GlideGamma;
use crate::text::{decimal_text, pad_left};
#[allow(unused_imports)]
use crate::text::{decimal, padded};
#[allow(unused_imports)]
use crate::text::{
    digits_value, lemma_decimal_is_digits, lemma_neither_holds, lemma_numerals_hold_digits, lemma_split_at_the_first, lemma_split_without_any, split,
};

verus! {

/// The directory that screenshots go to, below that of the emulator's state.
pub const SCREENSHOTS_DIR: &'static str = "screenshots";

/// The names that are tried where one is taken already.
pub const COLLISION_LIMIT: u32 = 9_999;

// ---------------------------------------------------------------------------
// The picture
// ---------------------------------------------------------------------------

/// `png::EncodingError`, why an encoder gave up.
#[verifier::external_type_specification]
#[verifier::external_body]
pub struct ExEncodingError(png::EncodingError);

/// Why there is no screenshot.
#[derive(Debug)]
pub enum ScreenshotError {
    /// The pixels do not fill a picture of this size, or no file can state the size.
    InvalidFrame { width: usize, height: usize, pixels: usize },
    /// The encoder gave up.
    Encode(png::EncodingError),
}

impl ScreenshotError {
    /// What an invalid frame is answered.
    pub fn invalid_frame_message(width: usize, height: usize, pixels: usize) -> (message: String)
        ensures
            message@ == "invalid framebuffer: "@ + decimal(width as nat) + "x"@ + decimal(
                height as nat,
            ) + " needs a matching pixel buffer, got "@ + decimal(pixels as nat) + " pixels"@,
    {
        let mut message: String = "invalid framebuffer: ".to_owned();
        message.append(decimal_text(width as u64).as_str());
        message.append("x");
        message.append(decimal_text(height as u64).as_str());
        message.append(" needs a matching pixel buffer, got ");
        message.append(decimal_text(pixels as u64).as_str());
        message.append(" pixels");
        message
    }
}

/// A picture as the machine shows it: its pixels as red, green and blue in the low
/// three bytes, row by row.
#[derive(Debug)]
pub struct ScreenshotFrame {
    words: Vec<u32>,
    width: usize,
    height: usize,
    distira: bool,
}

/// A channel as a table gives it, or as it is where there is no table.
pub open spec fn through(table: Option<Seq<u8>>, channel: u8) -> u8 {
    match table {
        Some(t) => t[channel as int],
        None => channel,
    }
}

/// What an optional table holds.
pub open spec fn table_of(table: Option<&Vec<u8>>) -> Option<Seq<u8>> {
    match table {
        Some(t) => Some(t@),
        None => None,
    }
}

/// Whether a table, where there is one, says what every channel value becomes.
pub open spec fn is_table(table: Option<&Vec<u8>>) -> bool {
    table matches Some(t) ==> t@.len() == 256
}

/// A pixel as a file holds it: red, green and blue, each through the compensation
/// and then through the monitor, and full opacity.
pub open spec fn rgba(pixel: u32, compensation: Option<Seq<u8>>, monitor: Option<Seq<u8>>) -> Seq<
    u8,
> {
    seq![
        through(monitor, through(compensation, ((pixel / 0x1_0000) % 0x100) as u8)),
        through(monitor, through(compensation, ((pixel / 0x100) % 0x100) as u8)),
        through(monitor, through(compensation, (pixel % 0x100) as u8)),
        0xff,
    ]
}

/// The pixels as a file holds them, four bytes each.
pub open spec fn rgba_bytes(
    pixels: Seq<u32>,
    compensation: Option<Seq<u8>>,
    monitor: Option<Seq<u8>>,
) -> Seq<u8> {
    Seq::new(pixels.len() * 4, |i: int| rgba(pixels[i / 4], compensation, monitor)[i % 4])
}

/// The compensation that a picture gets: the 3D card's own picture, where the setting
/// takes its lift back.
pub open spec fn compensation_of(distira: bool, setting: GlideGamma, table: Seq<u8>) -> Option<
    Seq<u8>,
> {
    if distira && setting == GlideGamma::Compatible {
        Some(table)
    } else {
        None
    }
}

/// A channel through a table.
fn pass(table: Option<&Vec<u8>>, channel: u8) -> (out: u8)
    requires
        is_table(table),
    ensures
        out == through(table_of(table), channel),
{
    match table {
        Some(t) => t[channel as usize],
        None => channel,
    }
}

impl ScreenshotFrame {
    /// The pixels.
    pub closed spec fn pixels(&self) -> Seq<u32> {
        self.words@
    }

    /// The pixels of a row.
    pub closed spec fn columns(&self) -> usize {
        self.width
    }

    /// The rows.
    pub closed spec fn rows(&self) -> usize {
        self.height
    }

    /// Whether the 3D card drew the picture.
    pub closed spec fn from_distira(&self) -> bool {
        self.distira
    }

    /// A picture.
    pub fn new(words: Vec<u32>, width: usize, height: usize, distira: bool) -> (frame: Self)
        ensures
            frame.pixels() == words@,
            frame.columns() == width,
            frame.rows() == height,
            frame.from_distira() == distira,
    {
        ScreenshotFrame { words, width, height, distira }
    }

    /// Whether the 3D card drew the picture: its compensation is for no other.
    pub fn is_distira(&self) -> (distira: bool)
        ensures
            distira == self.from_distira(),
    {
        self.distira
    }

    /// The compensation that the picture gets under a setting.
    pub fn compensation<'a>(&self, setting: GlideGamma, table: &'a Vec<u8>) -> (used: Option<
        &'a Vec<u8>,
    >)
        ensures
            table_of(used) == compensation_of(self.from_distira(), setting, table@),
            table@.len() == 256 ==> is_table(used),
    {
        if self.distira && setting.compensates() {
            Some(table)
        } else {
            None
        }
    }

    /// Whether the pixels fill the picture and a file can state its size.
    pub open spec fn valid(&self) -> bool {
        &&& self.columns() > 0
        &&& self.rows() > 0
        &&& self.columns() * self.rows() == self.pixels().len()
        &&& self.columns() <= u32::MAX
        &&& self.rows() <= u32::MAX
    }

    /// The picture's size, where it is one that a file can hold.
    pub fn size(&self) -> (size: Result<(u32, u32), ScreenshotError>)
        ensures
            match size {
                Ok(s) => self.valid() && s.0 == self.columns() && s.1 == self.rows(),
                Err(error) => !self.valid() && error == (ScreenshotError::InvalidFrame {
                    width: self.columns(),
                    height: self.rows(),
                    pixels: self.pixels().len() as usize,
                }),
            },
            self.pixels().len() <= usize::MAX,
    {
        let wide: u128 = {
            assert(self.width * self.height <= u128::MAX) by (nonlinear_arith)
                requires
                    self.width <= usize::MAX,
                    self.height <= usize::MAX,
                    usize::MAX <= u64::MAX,
            ;
            self.width as u128 * self.height as u128
        };
        if self.width == 0 || self.height == 0 || wide != self.words.len() as u128
            || self.width as u64 > 0xffff_ffff || self.height as u64 > 0xffff_ffff {
            return Err(
                ScreenshotError::InvalidFrame {
                    width: self.width,
                    height: self.height,
                    pixels: self.words.len(),
                },
            );
        }
        Ok((self.width as u32, self.height as u32))
    }

    /// The picture's bytes as a file holds them: every channel goes through the
    /// compensation first and through the monitor then, as the window shows it.
    pub fn rgba_rows(&self, compensation: Option<&Vec<u8>>, monitor: Option<&Vec<u8>>) -> (bytes:
        Vec<u8>)
        requires
            is_table(compensation),
            is_table(monitor),
        ensures
            bytes@ == rgba_bytes(self.pixels(), table_of(compensation), table_of(monitor)),
    {
        let mut bytes: Vec<u8> = Vec::new();
        let mut i: usize = 0;
        let ghost c = table_of(compensation);
        let ghost m = table_of(monitor);
        assert(bytes@ =~= rgba_bytes(self.words@.take(0), c, m));
        while i < self.words.len()
            invariant
                i <= self.words@.len(),
                is_table(compensation),
                is_table(monitor),
                c == table_of(compensation),
                m == table_of(monitor),
                bytes@ == rgba_bytes(self.words@.take(i as int), c, m),
            decreases self.words@.len() - i,
        {
            let pixel: u32 = self.words[i];
            let red: u8 = ((pixel / 0x1_0000) % 0x100) as u8;
            let green: u8 = ((pixel / 0x100) % 0x100) as u8;
            let blue: u8 = (pixel % 0x100) as u8;
            let ghost before = bytes@;
            bytes.push(pass(monitor, pass(compensation, red)));
            bytes.push(pass(monitor, pass(compensation, green)));
            bytes.push(pass(monitor, pass(compensation, blue)));
            bytes.push(0xff);
            proof {
                lemma_rgba_of_one_more(self.words@, i as int, c, m);
                assert(bytes@ =~= before + rgba(pixel, c, m));
            }
            i = i + 1;
        }
        assert(self.words@.take(self.words@.len() as int) =~= self.words@);
        bytes
    }

    /// The picture as a PNG file.
    pub fn png(&self, compensation: Option<&Vec<u8>>, monitor: Option<&Vec<u8>>) -> (file: Result<
        Vec<u8>,
        ScreenshotError,
    >)
        requires
            is_table(compensation),
            is_table(monitor),
        ensures
            match file {
                Ok(bytes) => self.valid() && png_file(
                    self.columns() as u32,
                    self.rows() as u32,
                    rgba_bytes(self.pixels(), table_of(compensation), table_of(monitor)),
                ) == Some(bytes@),
                Err(ScreenshotError::InvalidFrame { width, height, pixels }) => !self.valid()
                    && width == self.columns() && height == self.rows() && pixels
                    == self.pixels().len(),
                Err(ScreenshotError::Encode(_)) => self.valid() && png_file(
                    self.columns() as u32,
                    self.rows() as u32,
                    rgba_bytes(self.pixels(), table_of(compensation), table_of(monitor)),
                ) is None,
            },
    {
        match self.size() {
            Err(error) => Err(error),
            Ok((width, height)) => {
                let bytes: Vec<u8> = self.rgba_rows(compensation, monitor);
                proof {
                    assert(bytes@.len() == 4 * (width * height)) by {
                        assert(bytes@.len() == self.pixels().len() * 4);
                    }
                }
                match encode_png(width, height, &bytes) {
                    Ok(file) => Ok(file),
                    Err(error) => Err(ScreenshotError::Encode(error)),
                }
            },
        }
    }
}

/// One more pixel is four more bytes.
proof fn lemma_rgba_of_one_more(
    pixels: Seq<u32>,
    i: int,
    compensation: Option<Seq<u8>>,
    monitor: Option<Seq<u8>>,
)
    requires
        0 <= i < pixels.len(),
    ensures
        rgba_bytes(pixels.take(i + 1), compensation, monitor) == rgba_bytes(
            pixels.take(i),
            compensation,
            monitor,
        ) + rgba(pixels[i], compensation, monitor),
{
    let longer = rgba_bytes(pixels.take(i + 1), compensation, monitor);
    let shorter = rgba_bytes(pixels.take(i), compensation, monitor);
    let one = rgba(pixels[i], compensation, monitor);
    assert forall|k: int| 0 <= k < longer.len() implies longer[k] == (shorter + one)[k] by {
        if k < 4 * i {
            assert(pixels.take(i + 1)[k / 4] == pixels.take(i)[k / 4]);
        } else {
            assert(k / 4 == i);
        }
    }
    assert(longer =~= shorter + one);
}

/// What the encoder makes of a picture: its file, or nothing where it gives up.
pub uninterp spec fn png_file(width: u32, height: u32, rgba: Seq<u8>) -> Option<Seq<u8>>;

/// `png::Encoder` with `ColorType::Rgba` and `BitDepth::Eight`, writing its header,
/// the picture and its end to memory: what comes out depends on the size and the
/// bytes alone. What an error says is left open.
#[verifier::external_body]
fn encode_png(width: u32, height: u32, rgba: &Vec<u8>) -> (file: Result<Vec<u8>, png::EncodingError>)
    requires
        width > 0,
        height > 0,
        rgba@.len() == 4 * (width * height),
    ensures
        match file {
            Ok(bytes) => png_file(width, height, rgba@) == Some(bytes@),
            Err(_) => png_file(width, height, rgba@) is None,
        },
{
    let mut bytes: Vec<u8> = Vec::new();
    let mut encoder = png::Encoder::new(&mut bytes, width, height);
    encoder.set_color(png::ColorType::Rgba);
    encoder.set_depth(png::BitDepth::Eight);
    let mut writer = encoder.write_header()?;
    writer.write_image_data(rgba)?;
    writer.finish()?;
    Ok(bytes)
}

// ---------------------------------------------------------------------------
// Names
// ---------------------------------------------------------------------------

/// A year in four places, its sign among them.
pub open spec fn year_text(year: i32) -> Seq<char> {
    if year < 0 {
        "-"@ + padded(decimal((-(year as int)) as nat), 3, '0')
    } else {
        padded(decimal(year as nat), 4, '0')
    }
}

/// A moment of the host's clock, in local time.
#[derive(Clone, Copy, Debug)]
pub struct LocalTime {
    pub year: i32,
    pub month: u8,
    pub day: u8,
    pub hour: u8,
    pub minute: u8,
    pub second: u8,
    pub millisecond: u16,
}

/// A number in at least `width` places.
pub open spec fn placed(n: nat, width: nat) -> Seq<char> {
    padded(decimal(n), width, '0')
}

/// The name of a screenshot of that moment, without its ending.
pub open spec fn stem_text(now: LocalTime) -> Seq<char> {
    "IzarraVM_"@ + year_text(now.year) + "-"@ + placed(now.month as nat, 2) + "-"@ + placed(
        now.day as nat,
        2,
    ) + "_"@ + placed(now.hour as nat, 2) + "-"@ + placed(now.minute as nat, 2) + "-"@ + placed(
        now.second as nat,
        2,
    ) + "-"@ + placed(now.millisecond as nat, 3)
}

/// A number in at least `width` places.
fn placed_text(n: u64, width: usize) -> (text: String)
    ensures
        text@ == placed(n as nat, width as nat),
{
    pad_left(decimal_text(n).as_str(), width, '0')
}

/// The name of a screenshot of that moment, without its ending.
pub fn filename_stem(now: LocalTime) -> (stem: String)
    ensures
        stem@ == stem_text(now),
{
    let mut stem: String = "IzarraVM_".to_owned();
    if now.year < 0 {
        stem.append("-");
        stem.append(placed_text((-(now.year as i64)) as u64, 3).as_str());
    } else {
        stem.append(placed_text(now.year as u64, 4).as_str());
    }
    assert(stem@ =~= "IzarraVM_"@ + year_text(now.year));
    stem.append("-");
    stem.append(placed_text(now.month as u64, 2).as_str());
    stem.append("-");
    stem.append(placed_text(now.day as u64, 2).as_str());
    stem.append("_");
    stem.append(placed_text(now.hour as u64, 2).as_str());
    stem.append("-");
    stem.append(placed_text(now.minute as u64, 2).as_str());
    stem.append("-");
    stem.append(placed_text(now.second as u64, 2).as_str());
    stem.append("-");
    stem.append(placed_text(now.millisecond as u64, 3).as_str());
    stem
}

/// The name that is tried once `collision` names were taken.
pub open spec fn candidate(stem: Seq<char>, collision: u32) -> Seq<char> {
    if collision == 0 {
        stem + ".png"@
    } else {
        stem + "_"@ + placed(collision as nat, 3) + ".png"@
    }
}

/// The name that is tried once `collision` names were taken; none where too many
/// were.
pub fn candidate_name(stem: &str, collision: u32) -> (name: Option<String>)
    ensures
        match name {
            Some(n) => collision <= COLLISION_LIMIT && n@ == candidate(stem@, collision),
            None => collision > COLLISION_LIMIT,
        },
        name is Some <==> collision < 10_000,
{
    if collision > COLLISION_LIMIT {
        return None;
    }
    let mut name: String = stem.to_owned();
    if collision != 0 {
        name.append("_");
        name.append(placed_text(collision as u64, 3).as_str());
    }
    name.append(".png");
    Some(name)
}

// ---------------------------------------------------------------------------
// Laws
// ---------------------------------------------------------------------------

/// Without tables a screenshot holds every pixel's own red, green and blue, with
/// full opacity.
pub proof fn law_a_screenshot_holds_the_guest_pixels(pixels: Seq<u32>, i: int)
    requires
        0 <= i < pixels.len(),
    ensures
        rgba_bytes(pixels, None, None).len() == 4 * pixels.len(),
        rgba_bytes(pixels, None, None).subrange(4 * i, 4 * i + 4) == seq![
            ((pixels[i] / 0x1_0000) % 0x100) as u8,
            ((pixels[i] / 0x100) % 0x100) as u8,
            (pixels[i] % 0x100) as u8,
            0xffu8,
        ],
{
    assert(rgba_bytes(pixels, None, None).subrange(4 * i, 4 * i + 4) =~= rgba(
        pixels[i],
        None,
        None,
    ));
}

/// The setting shapes the 3D card's picture only: any other is saved the same
/// whatever it says.
pub proof fn law_the_setting_is_for_the_3d_card_alone(
    pixels: Seq<u32>,
    setting: GlideGamma,
    table: Seq<u8>,
    monitor: Option<Seq<u8>>,
)
    ensures
        rgba_bytes(pixels, compensation_of(false, setting, table), monitor) == rgba_bytes(
            pixels,
            None,
            monitor,
        ),
{
}

/// The compensation comes before the monitor: both tables together are one table
/// that applies the compensation and then the monitor.
pub proof fn law_the_compensation_comes_first(
    pixels: Seq<u32>,
    compensation: Seq<u8>,
    monitor: Seq<u8>,
)
    requires
        compensation.len() == 256,
        monitor.len() == 256,
    ensures
        rgba_bytes(pixels, Some(compensation), Some(monitor)) == rgba_bytes(
            pixels,
            None,
            Some(Seq::new(256, |c: int| monitor[compensation[c] as int])),
        ),
{
    let both = Seq::new(256, |c: int| monitor[compensation[c] as int]);
    let a = rgba_bytes(pixels, Some(compensation), Some(monitor));
    let b = rgba_bytes(pixels, None, Some(both));
    assert forall|k: int| 0 <= k < a.len() implies a[k] == b[k] by {
        let pixel = pixels[k / 4];
        assert(rgba(pixel, Some(compensation), Some(monitor)) =~= rgba(pixel, None, Some(both)));
    }
    assert(a =~= b);
}

/// Leading noughts add nothing to a number.
proof fn lemma_noughts_add_nothing(noughts: nat, digits: Seq<char>)
    ensures
        digits_value(Seq::new(noughts, |i: int| '0') + digits) == digits_value(digits),
    decreases digits.len(), noughts,
{
    let zeros = Seq::new(noughts, |i: int| '0');
    let text = zeros + digits;
    if digits.len() == 0 {
        assert(text =~= zeros);
        if noughts > 0 {
            lemma_noughts_add_nothing((noughts - 1) as nat, digits);
            assert(zeros.drop_last() =~= Seq::new((noughts - 1) as nat, |i: int| '0'));
            assert(Seq::new((noughts - 1) as nat, |i: int| '0') + digits =~= zeros.drop_last());
        } else {
            assert(text =~= digits);
        }
    } else {
        assert(text.drop_last() =~= zeros + digits.drop_last());
        assert(text.last() == digits.last());
        lemma_noughts_add_nothing(noughts, digits.drop_last());
    }
}

/// A number in its places stands for itself, and has at least as many places as were asked
/// for.
pub proof fn law_a_placed_number_reads_back(n: nat, width: nat)
    ensures
        digits_value(placed(n, width)) == n,
        placed(n, width).len() >= width,
        !placed(n, width).contains('-') && !placed(n, width).contains('_'),
{
    lemma_decimal_is_digits(n);
    let digits = decimal(n);
    if digits.len() < width {
        lemma_noughts_add_nothing((width - digits.len()) as nat, digits);
    }
    lemma_numerals_hold_digits(n, width, '-');
    lemma_numerals_hold_digits(n, width, '_');
}

/// No two tries for one moment have the same name.
pub proof fn law_every_try_has_its_own_name(stem: Seq<char>, a: u32, b: u32)
    requires
        candidate(stem, a) == candidate(stem, b),
    ensures
        a == b,
{
    reveal_strlit(".png");
    reveal_strlit("_");
    let first = candidate(stem, a);
    let second = candidate(stem, b);
    law_a_placed_number_reads_back(a as nat, 3);
    law_a_placed_number_reads_back(b as nat, 3);
    let n = stem.len() as int;
    if a > 0 && b > 0 {
        assert(first.subrange(n + 1, first.len() - 4) =~= placed(a as nat, 3));
        assert(second.subrange(n + 1, second.len() - 4) =~= placed(b as nat, 3));
    } else if a > 0 {
        assert(first.len() > second.len());
    } else if b > 0 {
        assert(second.len() > first.len());
    }
}

/// The parts of a name from left to right are its date and its time.
#[verifier::rlimit(60)]
proof fn lemma_a_stem_regrouped(
    front: Seq<char>,
    dash: Seq<char>,
    between: Seq<char>,
    date: (Seq<char>, Seq<char>, Seq<char>),
    time: (Seq<char>, Seq<char>, Seq<char>, Seq<char>),
)
    ensures
        front + date.0 + dash + date.1 + dash + date.2 + between + time.0 + dash + time.1 + dash
            + time.2 + dash + time.3 == front + (date.0 + dash + (date.1 + dash + date.2) + between
            + (time.0 + dash + (time.1 + dash + (time.2 + dash + time.3)))),
{
    let day = date.0 + dash + (date.1 + dash + date.2);
    let left = front + date.0 + dash + date.1 + dash + date.2;
    assert(left =~= front + day);
    let clock = time.0 + dash + (time.1 + dash + (time.2 + dash + time.3));
    let start = left + between;
    assert(start + time.0 + dash + time.1 + dash + time.2 + dash + time.3 =~= start + clock);
    assert(start + clock =~= front + (day + between + clock));
}

/// The name of a screenshot says its moment, the date before the time and both from the
/// longest unit to the shortest, each in its own places.
#[verifier::rlimit(60)]
pub proof fn law_a_name_says_its_moment(now: LocalTime)
    requires
        now.year >= 0,
    ensures
        split(stem_text(now), '_').len() == 3,
        split(split(stem_text(now), '_')[1], '-') == seq![
            placed(now.year as nat, 4),
            placed(now.month as nat, 2),
            placed(now.day as nat, 2),
        ],
        split(split(stem_text(now), '_')[2], '-') == seq![
            placed(now.hour as nat, 2),
            placed(now.minute as nat, 2),
            placed(now.second as nat, 2),
            placed(now.millisecond as nat, 3),
        ],
{
    reveal_strlit("IzarraVM_");
    reveal_strlit("-");
    reveal_strlit("_");
    assert("-"@ =~= seq!['-']);
    assert("_"@ =~= seq!['_']);
    let name = seq!['I', 'z', 'a', 'r', 'r', 'a', 'V', 'M'];
    assert("IzarraVM_"@ =~= name + seq!['_']);
    let year = placed(now.year as nat, 4);
    let month = placed(now.month as nat, 2);
    let day = placed(now.day as nat, 2);
    let hour = placed(now.hour as nat, 2);
    let minute = placed(now.minute as nat, 2);
    let second = placed(now.second as nat, 2);
    let milli = placed(now.millisecond as nat, 3);
    law_a_placed_number_reads_back(now.year as nat, 4);
    law_a_placed_number_reads_back(now.month as nat, 2);
    law_a_placed_number_reads_back(now.day as nat, 2);
    law_a_placed_number_reads_back(now.hour as nat, 2);
    law_a_placed_number_reads_back(now.minute as nat, 2);
    law_a_placed_number_reads_back(now.second as nat, 2);
    law_a_placed_number_reads_back(now.millisecond as nat, 3);
    let dash = seq!['-'];
    let date = year + dash + (month + dash + day);
    let time = hour + dash + (minute + dash + (second + dash + milli));
    lemma_a_stem_regrouped(
        name + seq!['_'],
        dash,
        seq!['_'],
        (year, month, day),
        (hour, minute, second, milli),
    );
    assert(stem_text(now) == name + seq!['_'] + (date + seq!['_'] + time));
    assert(!name.contains('_'));
    assert(!dash.contains('_'));
    lemma_neither_holds(month, dash, '_');
    lemma_neither_holds(month + dash, day, '_');
    lemma_neither_holds(year, dash, '_');
    lemma_neither_holds(year + dash, month + dash + day, '_');
    lemma_neither_holds(second, dash, '_');
    lemma_neither_holds(second + dash, milli, '_');
    lemma_neither_holds(minute, dash, '_');
    lemma_neither_holds(minute + dash, second + dash + milli, '_');
    lemma_neither_holds(hour, dash, '_');
    lemma_neither_holds(hour + dash, minute + dash + (second + dash + milli), '_');
    lemma_split_at_the_first(name, date + seq!['_'] + time, '_');
    lemma_split_at_the_first(date, time, '_');
    lemma_split_without_any(time, '_');
    let parts = split(stem_text(now), '_');
    assert(parts =~= seq![name, date, time]);
    lemma_split_at_the_first(year, month + dash + day, '-');
    lemma_split_at_the_first(month, day, '-');
    lemma_split_without_any(day, '-');
    assert(split(date, '-') =~= seq![year, month, day]);
    lemma_split_at_the_first(hour, minute + dash + (second + dash + milli), '-');
    lemma_split_at_the_first(minute, second + dash + milli, '-');
    lemma_split_at_the_first(second, milli, '-');
    lemma_split_without_any(milli, '-');
    assert(split(time, '-') =~= seq![hour, minute, second, milli]);
}

} // verus!
