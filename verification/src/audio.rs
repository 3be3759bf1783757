//! Observing the sound mix of a headless run: what is asked for, what is counted,
//! and the file that is written.

use vstd::prelude::*;

use crate::text::{
    chars_of, decimal_text, lower_chars, padded_hex_text, read_nat, same_text, text_of, trim_chars,
    wide_decimal_text,
};
#[allow(unused_imports)]
use crate::text::{decimal, hex, lowered, opt_text, padded, parsed_nat, trimmed};
#[allow(unused_imports)]
use crate::text::{
    lemma_numerals_hold_digits, lemma_the_first_word, lemma_word_added, lemma_words_read_back, split,
};

verus! {

/// Guest milliseconds between two looks at the mix.
pub const AUDIO_CAPTURE_SLICE_MS: u64 = 10;

/// The most synthesiser samples that one look asks for: half a second of them.
pub const WINDOW_CAP: u64 = 24_858;

/// The sample rate of a captured file.
pub const AUDIO_CAPTURE_DAC_HZ: u32 = 44_100;

/// The shortest slice that a capture asks for, in guest cycles.
pub const SHORTEST_SLICE: u64 = 1_000;

// ---------------------------------------------------------------------------
// What is asked for
// ---------------------------------------------------------------------------

/// What becomes of the mix.
#[derive(Debug, PartialEq, Eq)]
pub enum AudioSinkMode {
    /// It is written to a file.
    Wav(String),
    /// It is rendered, folded into a checksum and dropped.
    Count,
    /// It is not rendered; the run is sliced all the same.
    Skip,
}

/// What becomes of the mix, as contracts speak of it.
pub enum SinkView {
    Wav(Seq<char>),
    Count,
    Skip,
}

impl View for AudioSinkMode {
    type V = SinkView;

    open spec fn view(&self) -> SinkView {
        match self {
            AudioSinkMode::Wav(path) => SinkView::Wav(path@),
            AudioSinkMode::Count => SinkView::Count,
            AudioSinkMode::Skip => SinkView::Skip,
        }
    }
}

impl SinkView {
    /// The name that a report gives the mode.
    pub open spec fn name(self) -> Seq<char> {
        match self {
            SinkView::Wav(_) => "wav"@,
            SinkView::Count => "count"@,
            SinkView::Skip => "off"@,
        }
    }
}

impl AudioSinkMode {
    /// The name that a report gives the mode.
    pub fn label(&self) -> (name: &'static str)
        ensures
            name@ == self@.name(),
    {
        match self {
            AudioSinkMode::Wav(_) => "wav",
            AudioSinkMode::Count => "count",
            AudioSinkMode::Skip => "off",
        }
    }
}

/// Why two observers are refused.
pub const BOTH_SET_MESSAGE: &'static str = "IZARRAVM_AUDIO_WAV and IZARRAVM_AUDIO_COST are both \
     set; they are different observers of the same call and one would silently win";

/// What is wrong with the settings of a capture.
#[derive(Debug, PartialEq, Eq)]
pub enum AudioError {
    /// A mode that is not known, in small letters.
    UnknownMode(String),
    /// Two observers of one call.
    BothSet,
    /// A slice that is not a positive number, as it was given.
    BadSlice(String),
}

/// What is wrong with the settings of a capture, as contracts speak of it.
pub enum AudioFault {
    UnknownMode(Seq<char>),
    BothSet,
    BadSlice(Seq<char>),
}

impl View for AudioError {
    type V = AudioFault;

    open spec fn view(&self) -> AudioFault {
        match self {
            AudioError::UnknownMode(mode) => AudioFault::UnknownMode(mode@),
            AudioError::BothSet => AudioFault::BothSet,
            AudioError::BadSlice(raw) => AudioFault::BadSlice(raw@),
        }
    }
}

/// The message about settings that do not read. `quoted` is the value that is wrong,
/// in quotation marks.
pub open spec fn audio_message(fault: AudioFault, quoted: Seq<char>) -> Seq<char> {
    match fault {
        AudioFault::UnknownMode(_) => "IZARRAVM_AUDIO_COST: unknown mode "@ + quoted
            + " (expected `count` or `off`)"@,
        AudioFault::BothSet => BOTH_SET_MESSAGE@,
        AudioFault::BadSlice(_) => "IZARRAVM_AUDIO_COST_SLICE_MS: expected a positive integer, got "@
            + quoted,
    }
}

impl AudioError {
    /// The message about settings that do not read. `quoted` is the value that is
    /// wrong, in quotation marks.
    pub fn message(&self, quoted: &str) -> (message: String)
        ensures
            message@ == audio_message(self@, quoted@),
    {
        match self {
            AudioError::UnknownMode(_) => {
                let mut message: String = "IZARRAVM_AUDIO_COST: unknown mode ".to_owned();
                message.append(quoted);
                message.append(" (expected `count` or `off`)");
                message
            },
            AudioError::BothSet => BOTH_SET_MESSAGE.to_owned(),
            AudioError::BadSlice(_) => {
                let mut message: String =
                    "IZARRAVM_AUDIO_COST_SLICE_MS: expected a positive integer, got ".to_owned();
                message.append(quoted);
                message
            },
        }
    }

    /// The value that is wrong, where there is one.
    pub fn given(&self) -> (value: &str)
        ensures
            value@ == match self@ {
                AudioFault::UnknownMode(mode) => mode,
                AudioFault::BothSet => ""@,
                AudioFault::BadSlice(raw) => raw,
            },
    {
        match self {
            AudioError::UnknownMode(mode) => mode.as_str(),
            AudioError::BothSet => "",
            AudioError::BadSlice(raw) => raw.as_str(),
        }
    }
}

/// The cost mode that a text names. A text that names none is a fault: a leg of a
/// measurement that silently fell back would be a wrong answer.
pub open spec fn cost_mode(value: Seq<char>) -> Result<SinkView, AudioFault> {
    let name = lowered(trimmed(value));
    if name == "count"@ {
        Ok(SinkView::Count)
    } else if name == "off"@ || name == "skip"@ {
        Ok(SinkView::Skip)
    } else {
        Err(AudioFault::UnknownMode(name))
    }
}

/// The cost mode that a text names.
pub fn parse_audio_cost_mode(value: &str) -> (mode: Result<AudioSinkMode, AudioError>)
    ensures
        match mode {
            Ok(mode) => cost_mode(value@) == Ok::<SinkView, AudioFault>(mode@),
            Err(e) => cost_mode(value@) == Err::<SinkView, AudioFault>(e@),
        },
{
    let name: String = text_of(&lower_chars(&trim_chars(&chars_of(value))));
    if same_text(name.as_str(), "count") {
        Ok(AudioSinkMode::Count)
    } else if same_text(name.as_str(), "off") || same_text(name.as_str(), "skip") {
        Ok(AudioSinkMode::Skip)
    } else {
        Err(AudioError::UnknownMode(name))
    }
}

/// What a capture is told to do: a file name and a cost mode, each unset where it
/// is empty. Both at once are a fault: one would silently win.
pub open spec fn audio_sink(wav: Option<Seq<char>>, cost: Option<Seq<char>>) -> Result<
    Option<SinkView>,
    AudioFault,
> {
    let wav = match wav {
        Some(path) if path.len() > 0 => Some(path),
        _ => None,
    };
    let cost = match cost {
        Some(mode) if trimmed(mode).len() > 0 => Some(mode),
        _ => None,
    };
    match (wav, cost) {
        (Some(_), Some(_)) => Err(AudioFault::BothSet),
        (Some(path), None) => Ok(Some(SinkView::Wav(path))),
        (None, Some(mode)) => match cost_mode(mode) {
            Ok(mode) => Ok(Some(mode)),
            Err(fault) => Err(fault),
        },
        (None, None) => Ok(None),
    }
}

/// What an optional mode is.
pub open spec fn opt_sink(mode: Option<AudioSinkMode>) -> Option<SinkView> {
    match mode {
        Some(mode) => Some(mode@),
        None => None,
    }
}

/// What a capture is told to do by a file name and a cost mode.
pub fn resolve_audio_sink_from(wav: Option<String>, cost: Option<String>) -> (sink: Result<
    Option<AudioSinkMode>,
    AudioError,
>)
    ensures
        match sink {
            Ok(sink) => audio_sink(opt_text(wav), opt_text(cost)) == Ok::<
                Option<SinkView>,
                AudioFault,
            >(opt_sink(sink)),
            Err(e) => audio_sink(opt_text(wav), opt_text(cost)) == Err::<
                Option<SinkView>,
                AudioFault,
            >(e@),
        },
{
    let wav: Option<String> = match wav {
        Some(path) => if path.as_str().is_empty() {
            None
        } else {
            Some(path)
        },
        None => None,
    };
    let cost: Option<String> = match cost {
        Some(mode) => if trim_chars(&chars_of(mode.as_str())).len() == 0 {
            None
        } else {
            Some(mode)
        },
        None => None,
    };
    match (wav, cost) {
        (Some(_), Some(_)) => Err(AudioError::BothSet),
        (Some(path), None) => Ok(Some(AudioSinkMode::Wav(path))),
        (None, Some(mode)) => match parse_audio_cost_mode(mode.as_str()) {
            Ok(mode) => Ok(Some(mode)),
            Err(e) => Err(e),
        },
        (None, None) => Ok(None),
    }
}

/// The slice that a setting asks for, in guest milliseconds: the usual one where it
/// is unset or blank, and a positive number otherwise.
pub open spec fn slice_ms(value: Option<Seq<char>>) -> Result<u64, AudioFault> {
    match value {
        Some(raw) if trimmed(raw).len() > 0 => match parsed_nat(trimmed(raw), u64::MAX as nat) {
            Some(ms) if ms > 0 => Ok(ms as u64),
            _ => Err(AudioFault::BadSlice(raw)),
        },
        _ => Ok(AUDIO_CAPTURE_SLICE_MS),
    }
}

/// The slice that a setting asks for, in guest milliseconds.
pub fn parse_audio_cost_slice_ms(value: Option<String>) -> (ms: Result<u64, AudioError>)
    ensures
        match ms {
            Ok(ms) => slice_ms(opt_text(value)) == Ok::<u64, AudioFault>(ms),
            Err(e) => slice_ms(opt_text(value)) == Err::<u64, AudioFault>(e@),
        },
{
    match value {
        None => Ok(AUDIO_CAPTURE_SLICE_MS),
        Some(raw) => {
            let trimmed_raw: Vec<char> = trim_chars(&chars_of(raw.as_str()));
            if trimmed_raw.len() == 0 {
                return Ok(AUDIO_CAPTURE_SLICE_MS);
            }
            match read_nat(&trimmed_raw, u64::MAX) {
                Some(ms) => if ms > 0 {
                    Ok(ms)
                } else {
                    Err(AudioError::BadSlice(raw))
                },
                None => Err(AudioError::BadSlice(raw)),
            }
        },
    }
}

// ---------------------------------------------------------------------------
// The checksum
// ---------------------------------------------------------------------------

/// A sample as the unsigned number with the same bits.
pub open spec fn sample_bits(sample: i16) -> int {
    if sample < 0 {
        sample + 0x1_0000
    } else {
        sample as int
    }
}

/// One sample folded in.
pub open spec fn fold_sample(fold: u64, sample: i16) -> u64 {
    ((fold * 0x0000_0100_0000_01b3int + sample_bits(sample)) % 0x1_0000_0000_0000_0000int) as u64
}

/// Frames folded in one by one, the left sample first.
pub open spec fn folded(seed: u64, frames: Seq<(i16, i16)>) -> u64
    decreases frames.len(),
{
    if frames.len() == 0 {
        seed
    } else {
        let before = folded(seed, frames.drop_last());
        fold_sample(fold_sample(before, frames.last().0), frames.last().1)
    }
}

/// A sample as the unsigned number with the same bits.
fn bits_of(sample: i16) -> (bits: u16)
    ensures
        bits == sample_bits(sample),
{
    if sample < 0 {
        (sample as i32 + 0x1_0000) as u16
    } else {
        sample as u16
    }
}

/// One sample folded in.
fn fold_one(fold: u64, sample: i16) -> (out: u64)
    ensures
        out == fold_sample(fold, sample),
{
    let wide: u128 = fold as u128 * 0x0000_0100_0000_01b3 + bits_of(sample) as u128;
    (wide % 0x1_0000_0000_0000_0000) as u64
}

/// The checksum of frames, from a checksum before them.
pub fn fold_audio_frames(seed: u64, frames: &Vec<(i16, i16)>) -> (fold: u64)
    ensures
        fold == folded(seed, frames@),
{
    let mut fold: u64 = seed;
    let mut i: usize = 0;
    assert(frames@.take(0) =~= Seq::empty());
    while i < frames.len()
        invariant
            i <= frames@.len(),
            fold == folded(seed, frames@.take(i as int)),
        decreases frames@.len() - i,
    {
        assert(frames@.take(i + 1).drop_last() =~= frames@.take(i as int));
        fold = fold_one(fold_one(fold, frames[i].0), frames[i].1);
        i = i + 1;
    }
    assert(frames@.take(frames@.len() as int) =~= frames@);
    fold
}

/// The checksum does not see where one window ends and the next begins.
pub proof fn law_folding_in_windows_is_folding_at_once(
    seed: u64,
    first: Seq<(i16, i16)>,
    second: Seq<(i16, i16)>,
)
    ensures
        folded(seed, first + second) == folded(folded(seed, first), second),
    decreases second.len(),
{
    if second.len() == 0 {
        assert(first + second =~= first);
    } else {
        law_folding_in_windows_is_folding_at_once(seed, first, second.drop_last());
        assert((first + second).drop_last() =~= first + second.drop_last());
    }
}

// ---------------------------------------------------------------------------
// The capture
// ---------------------------------------------------------------------------

/// An observer of the mix.
pub struct AudioCapture {
    pub mode: AudioSinkMode,
    /// The frames of a file; none in the other modes.
    pub pcm: Vec<(i16, i16)>,
    /// Guest cycles between two looks.
    pub slice: u64,
    pub slice_ms: u64,
    /// Looks that asked for anything, rendered or not.
    pub windows: u64,
    /// The synthesiser samples that they asked for.
    pub native_samples: u64,
    /// The frames that came back to be counted.
    pub out_frames: u64,
    pub checksum: u64,
    /// Host nanoseconds that rendering took.
    pub render_ns: u128,
    /// Whether looks are paced by host time.
    pub wall_paced: bool,
}

/// What a look asks for when `want` samples are due.
pub open spec fn window_of(want: u64) -> u64 {
    if want <= WINDOW_CAP {
        want
    } else {
        WINDOW_CAP
    }
}

/// The windows and samples counted after a look. The mode plays no part: a leg
/// that renders nothing counts what a leg that renders counts.
pub open spec fn counted(windows: u64, native_samples: u64, want: u64) -> (int, int) {
    if window_of(want) == 0 {
        (windows as int, native_samples as int)
    } else {
        (windows + 1, native_samples + window_of(want))
    }
}

impl AudioCapture {
    /// The counters can take one more look.
    pub open spec fn has_room(self) -> bool {
        &&& self.windows < u64::MAX
        &&& self.native_samples + WINDOW_CAP <= u64::MAX
    }

    /// The counters can take `frames` more frames and `ns` more nanoseconds.
    pub open spec fn has_room_for(self, frames: nat, ns: u64) -> bool {
        &&& self.out_frames + frames <= u64::MAX
        &&& self.render_ns + ns <= u128::MAX
    }

    /// A capture that has seen nothing. `slice_clocks` are the guest cycles of
    /// `slice_ms` milliseconds.
    pub fn new(mode: AudioSinkMode, slice_clocks: u64, slice_ms: u64, wall_paced: bool) -> (capture:
        AudioCapture)
        ensures
            capture.mode@ == mode@,
            capture.pcm@.len() == 0,
            capture.slice == if slice_clocks < SHORTEST_SLICE {
                SHORTEST_SLICE
            } else {
                slice_clocks
            },
            capture.slice_ms == slice_ms,
            capture.windows == 0,
            capture.native_samples == 0,
            capture.out_frames == 0,
            capture.checksum == 0,
            capture.render_ns == 0,
            capture.wall_paced == wall_paced,
            capture.has_room(),
            capture.slice >= 1_000,
            slice_clocks >= 1_000 ==> capture.slice == slice_clocks,
            slice_clocks < 1_000 ==> capture.slice == 1_000,
    {
        AudioCapture {
            mode,
            pcm: Vec::new(),
            slice: if slice_clocks < SHORTEST_SLICE {
                SHORTEST_SLICE
            } else {
                slice_clocks
            },
            slice_ms,
            windows: 0,
            native_samples: 0,
            out_frames: 0,
            checksum: 0,
            render_ns: 0,
            wall_paced,
        }
    }

    /// Whether the counters can take one more look.
    pub fn room(&self) -> (room: bool)
        ensures
            room == self.has_room(),
    {
        self.windows < u64::MAX && self.native_samples <= u64::MAX - WINDOW_CAP
    }

    /// A look at the mix when `want` samples are due: counts it, and says how many
    /// samples to render, if any.
    pub fn window(&mut self, want: u64) -> (render: Option<u64>)
        requires
            old(self).has_room(),
        ensures
            (final(self).windows as int, final(self).native_samples as int) == counted(
                old(self).windows,
                old(self).native_samples,
                want,
            ),
            render == if window_of(want) == 0 || old(self).mode@ is Skip {
                None
            } else {
                Some(window_of(want))
            },
            final(self).mode@ == old(self).mode@,
            final(self).pcm@ == old(self).pcm@,
            final(self).slice == old(self).slice,
            final(self).slice_ms == old(self).slice_ms,
            final(self).out_frames == old(self).out_frames,
            final(self).checksum == old(self).checksum,
            final(self).render_ns == old(self).render_ns,
            final(self).wall_paced == old(self).wall_paced,
            render is Some ==> 0 < render->0 <= want && !(old(self).mode@ is Skip),
            want > 0 && !(old(self).mode@ is Skip) ==> render is Some && final(self).native_samples
                == old(self).native_samples + render->0,
            final(self).windows == old(self).windows <==> want == 0,
    {
        let samples: u64 = if want <= WINDOW_CAP {
            want
        } else {
            WINDOW_CAP
        };
        if samples == 0 {
            return None;
        }
        self.windows = self.windows + 1;
        self.native_samples = self.native_samples + samples;
        match self.mode {
            AudioSinkMode::Skip => None,
            _ => Some(samples),
        }
    }

    /// Takes the frames that a look rendered in `ns` host nanoseconds: a file keeps
    /// them, a count folds them into its checksum and drops them.
    pub fn take(&mut self, frames: &Vec<(i16, i16)>, ns: u64)
        requires
            old(self).has_room_for(frames@.len(), ns),
        ensures
            final(self).mode@ == old(self).mode@,
            final(self).slice == old(self).slice,
            final(self).slice_ms == old(self).slice_ms,
            final(self).windows == old(self).windows,
            final(self).native_samples == old(self).native_samples,
            final(self).wall_paced == old(self).wall_paced,
            final(self).pcm@ == if old(self).mode@ is Wav {
                old(self).pcm@ + frames@
            } else {
                old(self).pcm@
            },
            final(self).out_frames == if old(self).mode@ is Count {
                old(self).out_frames + frames@.len()
            } else {
                old(self).out_frames as int
            },
            final(self).checksum == if old(self).mode@ is Count {
                folded(old(self).checksum, frames@)
            } else {
                old(self).checksum
            },
            final(self).render_ns == if old(self).mode@ is Count {
                old(self).render_ns + ns
            } else {
                old(self).render_ns as int
            },
    {
        match self.mode {
            AudioSinkMode::Skip => {},
            AudioSinkMode::Wav(_) => {
                let ghost before = self.pcm@;
                let mut i: usize = 0;
                assert(before + frames@.take(0) =~= before);
                while i < frames.len()
                    invariant
                        i <= frames@.len(),
                        self.pcm@ == before + frames@.take(i as int),
                        self.mode@ == old(self).mode@,
                        self.slice == old(self).slice,
                        self.slice_ms == old(self).slice_ms,
                        self.windows == old(self).windows,
                        self.native_samples == old(self).native_samples,
                        self.wall_paced == old(self).wall_paced,
                        self.out_frames == old(self).out_frames,
                        self.checksum == old(self).checksum,
                        self.render_ns == old(self).render_ns,
                    decreases frames@.len() - i,
                {
                    self.pcm.push(frames[i]);
                    i = i + 1;
                    assert(before + frames@.take(i as int) =~= (before + frames@.take(
                        i - 1,
                    )).push(frames@[i - 1]));
                }
                assert(frames@.take(frames@.len() as int) =~= frames@);
            },
            AudioSinkMode::Count => {
                self.out_frames = self.out_frames + frames.len() as u64;
                self.checksum = fold_audio_frames(self.checksum, frames);
                self.render_ns = self.render_ns + ns as u128;
            },
        }
    }

    /// The report line of a cost mode.
    pub open spec fn report_line(self) -> Seq<char> {
        "audio cost: mode="@ + self.mode@.name() + " pacing="@ + (if self.wall_paced {
            "wall"@
        } else {
            "guest"@
        }) + " slice_ms="@ + decimal(self.slice_ms as nat) + " windows="@ + decimal(
            self.windows as nat,
        ) + " native_samples="@ + decimal(self.native_samples as nat) + " out_frames="@ + decimal(
            self.out_frames as nat,
        ) + " checksum=0x"@ + padded(hex(self.checksum as nat), 16, '0') + " render_ns="@
            + decimal(self.render_ns as nat)
    }

    /// The report line of a cost mode.
    pub fn cost_report(&self) -> (line: String)
        ensures
            line@ == self.report_line(),
    {
        let mut line: String = "audio cost: mode=".to_owned();
        line.append(self.mode.label());
        line.append(" pacing=");
        line.append(if self.wall_paced { "wall" } else { "guest" });
        line.append(" slice_ms=");
        line.append(decimal_text(self.slice_ms).as_str());
        line.append(" windows=");
        line.append(decimal_text(self.windows).as_str());
        line.append(" native_samples=");
        line.append(decimal_text(self.native_samples).as_str());
        line.append(" out_frames=");
        line.append(decimal_text(self.out_frames).as_str());
        line.append(" checksum=0x");
        line.append(padded_hex_text(self.checksum, 16, false).as_str());
        line.append(" render_ns=");
        line.append(wide_decimal_text(self.render_ns).as_str());
        line
    }
}

/// The frames of windows, one after the other.
pub open spec fn all_frames(windows: Seq<Seq<(i16, i16)>>) -> Seq<(i16, i16)>
    decreases windows.len(),
{
    if windows.len() == 0 {
        Seq::empty()
    } else {
        all_frames(windows.drop_last()) + windows.last()
    }
}

/// The checksum of a count that was given windows one after the other.
pub open spec fn window_checksum(windows: Seq<Seq<(i16, i16)>>) -> u64
    decreases windows.len(),
{
    if windows.len() == 0 {
        0
    } else {
        folded(window_checksum(windows.drop_last()), windows.last())
    }
}

/// A count folds exactly the frames that a file would keep.
pub proof fn law_a_count_folds_what_a_file_keeps(windows: Seq<Seq<(i16, i16)>>)
    ensures
        window_checksum(windows) == folded(0, all_frames(windows)),
    decreases windows.len(),
{
    if windows.len() > 0 {
        law_a_count_folds_what_a_file_keeps(windows.drop_last());
        law_folding_in_windows_is_folding_at_once(
            0,
            all_frames(windows.drop_last()),
            windows.last(),
        );
    }
}

// ---------------------------------------------------------------------------
// The file
// ---------------------------------------------------------------------------

/// A 16-bit number, low byte first.
pub open spec fn le16(n: int) -> Seq<u8> {
    seq![(n % 256) as u8, (n / 256 % 256) as u8]
}

/// A 32-bit number, low byte first.
pub open spec fn le32(n: int) -> Seq<u8> {
    seq![
        (n % 256) as u8,
        (n / 256 % 256) as u8,
        (n / 0x1_0000 % 256) as u8,
        (n / 0x100_0000 % 256) as u8,
    ]
}

/// A frame, the left sample first.
pub open spec fn frame_bytes(frame: (i16, i16)) -> Seq<u8> {
    le16(sample_bits(frame.0)) + le16(sample_bits(frame.1))
}

/// Frames one after the other.
pub open spec fn frames_bytes(frames: Seq<(i16, i16)>) -> Seq<u8>
    decreases frames.len(),
{
    if frames.len() == 0 {
        Seq::empty()
    } else {
        frames_bytes(frames.drop_last()) + frame_bytes(frames.last())
    }
}

/// The header of a file of 16-bit stereo at `rate`, with `len` bytes of samples.
pub open spec fn wav_header(len: int, rate: int) -> Seq<u8> {
    seq![82u8, 73, 70, 70] + le32(36 + len) + seq![87u8, 65, 86, 69, 102, 109, 116, 32] + le32(16)
        + le16(1) + le16(2) + le32(rate) + le32(rate * 4) + le16(4) + le16(16) + seq![
        100u8,
        97,
        116,
        97,
    ] + le32(len)
}

/// The file that holds `frames` at `rate`: the header, then every frame.
pub open spec fn wav_file(frames: Seq<(i16, i16)>, rate: int) -> Seq<u8> {
    wav_header(frames.len() as int * 4, rate) + frames_bytes(frames)
}

/// Appends a 16-bit number, low byte first.
fn push_le16(out: &mut Vec<u8>, n: u16)
    ensures
        final(out)@ == old(out)@ + le16(n as int),
{
    out.push((n % 256) as u8);
    out.push((n / 256) as u8);
    assert(out@ =~= old(out)@ + le16(n as int));
}

/// Appends a 32-bit number, low byte first.
fn push_le32(out: &mut Vec<u8>, n: u32)
    ensures
        final(out)@ == old(out)@ + le32(n as int),
{
    out.push((n % 256) as u8);
    out.push((n / 256 % 256) as u8);
    out.push((n / 0x1_0000 % 256) as u8);
    out.push((n / 0x100_0000) as u8);
    assert(out@ =~= old(out)@ + le32(n as int));
}

/// Appends bytes.
fn push_bytes(out: &mut Vec<u8>, bytes: &Vec<u8>)
    ensures
        final(out)@ == old(out)@ + bytes@,
{
    let ghost before = out@;
    let mut i: usize = 0;
    assert(before + bytes@.take(0) =~= before);
    while i < bytes.len()
        invariant
            i <= bytes@.len(),
            out@ == before + bytes@.take(i as int),
        decreases bytes@.len() - i,
    {
        out.push(bytes[i]);
        i = i + 1;
        assert(before + bytes@.take(i as int) =~= (before + bytes@.take(i - 1)).push(
            bytes@[i - 1],
        ));
    }
    assert(bytes@.take(bytes@.len() as int) =~= bytes@);
}

/// The file that holds `frames` at `rate`.
pub fn wav_bytes(frames: &Vec<(i16, i16)>, rate: u32) -> (file: Vec<u8>)
    requires
        36 + frames@.len() * 4 <= u32::MAX,
        rate * 4 <= u32::MAX,
    ensures
        file@ == wav_file(frames@, rate as int),
        says_stereo_at(file@, rate as int),
{
    let len: u32 = (frames.len() * 4) as u32;
    let riff: Vec<u8> = vec![82, 73, 70, 70];
    let wave: Vec<u8> = vec![87, 65, 86, 69, 102, 109, 116, 32];
    let data: Vec<u8> = vec![100, 97, 116, 97];
    let mut out: Vec<u8> = Vec::new();
    push_bytes(&mut out, &riff);
    push_le32(&mut out, 36 + len);
    push_bytes(&mut out, &wave);
    push_le32(&mut out, 16);
    push_le16(&mut out, 1);
    push_le16(&mut out, 2);
    push_le32(&mut out, rate);
    push_le32(&mut out, rate * 4);
    push_le16(&mut out, 4);
    push_le16(&mut out, 16);
    push_bytes(&mut out, &data);
    push_le32(&mut out, len);
    proof {
        assert(riff@ =~= seq![82u8, 73, 70, 70]);
        assert(wave@ =~= seq![87u8, 65, 86, 69, 102, 109, 116, 32]);
        assert(data@ =~= seq![100u8, 97, 116, 97]);
        assert(Seq::<u8>::empty() + riff@ =~= riff@);
        assert(out@ == wav_header(len as int, rate as int));
    }
    let ghost header = out@;
    let mut i: usize = 0;
    assert(frames@.take(0) =~= Seq::empty());
    assert(out@ =~= header + frames_bytes(frames@.take(0)));
    while i < frames.len()
        invariant
            i <= frames@.len(),
            out@ == header + frames_bytes(frames@.take(i as int)),
        decreases frames@.len() - i,
    {
        let ghost before = out@;
        push_le16(&mut out, bits_of(frames[i].0));
        push_le16(&mut out, bits_of(frames[i].1));
        proof {
            assert(frames@.take(i + 1).drop_last() =~= frames@.take(i as int));
            assert(out@ =~= before + frame_bytes(frames@[i as int]));
            assert(out@ =~= header + frames_bytes(frames@.take(i + 1)));
        }
        i = i + 1;
    }
    assert(frames@.take(frames@.len() as int) =~= frames@);
    proof {
        law_a_file_says_its_format(frames@, rate as int);
    }
    out
}

/// What is left to do when a captured run ends.
pub enum AudioFinish {
    /// Write `file`, then say `line`.
    Write { file: Vec<u8>, line: String },
    /// Say the line.
    Report(String),
}

impl AudioCapture {
    /// What is left to do at the end: a file is written under its own name, and the
    /// cost modes, which have no file, report.
    pub fn finish(&self) -> (finish: AudioFinish)
        requires
            self.mode@ is Wav ==> 36 + self.pcm@.len() * 4 <= u32::MAX,
        ensures
            match self.mode@ {
                SinkView::Wav(path) => finish matches AudioFinish::Write { file, line } && file@
                    == wav_file(self.pcm@, AUDIO_CAPTURE_DAC_HZ as int) && says_stereo_at(
                    file@,
                    44_100,
                ) && line@ == "audio capture: wrote "@ + path,
                _ => finish matches AudioFinish::Report(line) && line@ == self.report_line(),
            },
    {
        match &self.mode {
            AudioSinkMode::Wav(path) => {
                let file: Vec<u8> = wav_bytes(&self.pcm, AUDIO_CAPTURE_DAC_HZ);
                let mut line: String = "audio capture: wrote ".to_owned();
                line.append(path.as_str());
                AudioFinish::Write { file, line }
            },
            _ => AudioFinish::Report(self.cost_report()),
        }
    }
}

/// The number that the two bytes at a place hold, low byte first.
pub open spec fn number16_at(file: Seq<u8>, at: int) -> int {
    file[at] + 256 * file[at + 1]
}

/// The number that the four bytes at a place hold, low byte first.
pub open spec fn number32_at(file: Seq<u8>, at: int) -> int {
    number16_at(file, at) + 0x1_0000 * number16_at(file, at + 2)
}

/// The four letters at a place of a file.
pub open spec fn letters_at(file: Seq<u8>, at: int) -> Seq<char> {
    seq![file[at] as char, file[at + 1] as char, file[at + 2] as char, file[at + 3] as char]
}

/// Whether a file says of itself what a player of 16-bit stereo at `rate` has to read
/// there: its letters, its own length, the format, and how many bytes of samples follow.
pub open spec fn says_stereo_at(file: Seq<u8>, rate: int) -> bool {
    let channels = number16_at(file, 22);
    let frame_len = number16_at(file, 32);
    let bits = number16_at(file, 34);
    &&& file.len() >= 44
    &&& letters_at(file, 0) == seq!['R', 'I', 'F', 'F']
    &&& number32_at(file, 4) == file.len() - 8
    &&& letters_at(file, 8) == seq!['W', 'A', 'V', 'E']
    &&& letters_at(file, 12) == seq!['f', 'm', 't', ' ']
    &&& number32_at(file, 16) == 36 - 20
    &&& number16_at(file, 20) == 1
    &&& channels == 2
    &&& number32_at(file, 24) == rate
    &&& number32_at(file, 28) == rate * frame_len
    &&& 8 * frame_len == channels * bits
    &&& bits == 16
    &&& letters_at(file, 36) == seq!['d', 'a', 't', 'a']
    &&& number32_at(file, 40) == file.len() - 44
}

/// Four bytes give back the number that they were made of.
proof fn lemma_number32(n: int)
    requires
        0 <= n <= u32::MAX,
    ensures
        ({
            let b = le32(n);
            b[0] + 256 * b[1] + 0x1_0000 * (b[2] + 256 * b[3]) == n
        }),
{
    assert(n / 0x1_0000 == n / 256 / 256);
    assert(n / 0x100_0000 == n / 0x1_0000 / 256);
}

/// A file reads back as 16-bit stereo at the rate that it was written at, and its two
/// lengths are its own.
#[verifier::spinoff_prover]
#[verifier::rlimit(60)]
pub proof fn law_a_file_says_its_format(frames: Seq<(i16, i16)>, rate: int)
    requires
        36 + frames.len() * 4 <= u32::MAX,
        0 <= rate,
        rate * 4 <= u32::MAX,
    ensures
        says_stereo_at(wav_file(frames, rate), rate),
{
    let file = wav_file(frames, rate);
    let len = frames.len() as int * 4;
    let header = wav_header(len, rate);
    lemma_frames_bytes(frames);
    assert(header.len() == 44);
    assert(forall|i: int| 0 <= i < 44 ==> file[i] == header[i]);
    lemma_number32(36 + len);
    lemma_number32(len);
    lemma_number32(rate);
    lemma_number32(rate * 4);
    assert(letters_at(file, 0) =~= seq!['R', 'I', 'F', 'F']);
    assert(letters_at(file, 8) =~= seq!['W', 'A', 'V', 'E']);
    assert(letters_at(file, 12) =~= seq!['f', 'm', 't', ' ']);
    assert(letters_at(file, 36) =~= seq!['d', 'a', 't', 'a']);
}

/// The sample that two bytes hold, low byte first.
pub open spec fn read_sample(low: u8, high: u8) -> int {
    let bits = low + 256 * high;
    if bits >= 0x8000 {
        bits - 0x1_0000
    } else {
        bits
    }
}

/// The `i`-th frame that a file holds behind its header.
pub open spec fn read_frame(file: Seq<u8>, i: int) -> (int, int) {
    let at = 44 + 4 * i;
    (read_sample(file[at], file[at + 1]), read_sample(file[at + 2], file[at + 3]))
}

/// A file gives back what was written: its length and every frame, left and right
/// apart, no downmix and no reordering.
pub proof fn law_a_file_gives_back_its_frames(frames: Seq<(i16, i16)>, rate: int)
    ensures
        wav_file(frames, rate).len() == 44 + 4 * frames.len(),
        forall|i: int|
            0 <= i < frames.len() ==> #[trigger] read_frame(wav_file(frames, rate), i) == (
                frames[i].0 as int,
                frames[i].1 as int,
            ),
{
    let file = wav_file(frames, rate);
    lemma_frames_bytes(frames);
    assert(wav_header(frames.len() as int * 4, rate).len() == 44);
    assert forall|i: int| 0 <= i < frames.len() implies #[trigger] read_frame(file, i) == (
        frames[i].0 as int,
        frames[i].1 as int,
    ) by {
        let body = frames_bytes(frames);
        assert(file[44 + 4 * i] == body[4 * i]);
        assert(file[44 + 4 * i + 1] == body[4 * i + 1]);
        assert(file[44 + 4 * i + 2] == body[4 * i + 2]);
        assert(file[44 + 4 * i + 3] == body[4 * i + 3]);
        assert(body.subrange(4 * i, 4 * i + 4) == frame_bytes(frames[i]));
        assert(body.subrange(4 * i, 4 * i + 4)[0] == body[4 * i]);
        assert(body.subrange(4 * i, 4 * i + 4)[1] == body[4 * i + 1]);
        assert(body.subrange(4 * i, 4 * i + 4)[2] == body[4 * i + 2]);
        assert(body.subrange(4 * i, 4 * i + 4)[3] == body[4 * i + 3]);
        lemma_read_sample(frames[i].0);
        lemma_read_sample(frames[i].1);
    }
}

/// Two bytes give back the sample that they were made of.
proof fn lemma_read_sample(sample: i16)
    ensures
        read_sample(le16(sample_bits(sample))[0], le16(sample_bits(sample))[1]) == sample,
{
    let bits = sample_bits(sample);
    assert(0 <= bits < 0x1_0000);
    assert(bits / 256 % 256 == bits / 256);
}

/// Every frame takes four bytes at its own place.
proof fn lemma_frames_bytes(frames: Seq<(i16, i16)>)
    ensures
        frames_bytes(frames).len() == 4 * frames.len(),
        forall|i: int|
            #![trigger frames[i]]
            0 <= i < frames.len() ==> frames_bytes(frames).subrange(4 * i, 4 * i + 4)
                == frame_bytes(frames[i]),
    decreases frames.len(),
{
    if frames.len() > 0 {
        let rest = frames.drop_last();
        lemma_frames_bytes(rest);
        let n = rest.len() as int;
        let all = frames_bytes(frames);
        assert forall|i: int| #![trigger frames[i]] 0 <= i < frames.len() implies all.subrange(
            4 * i,
            4 * i + 4,
        ) == frame_bytes(frames[i]) by {
            if i < n {
                assert(rest[i] == frames[i]);
                assert(all.subrange(4 * i, 4 * i + 4) =~= frames_bytes(rest).subrange(
                    4 * i,
                    4 * i + 4,
                ));
            } else {
                assert(all.subrange(4 * i, 4 * i + 4) =~= frame_bytes(frames.last()));
            }
        }
    }
}

/// How looks are paced, in a word.
pub open spec fn pace_name(wall_paced: bool) -> Seq<char> {
    if wall_paced {
        "wall"@
    } else {
        "guest"@
    }
}

/// How the words of a report begin.
proof fn lemma_report_leads()
    ensures
        "audio cost: mode="@ == seq!['a', 'u', 'd', 'i', 'o'] + (seq![' '] + "cost:"@) + (seq![' ']
            + "mode="@),
        !"cost:"@.contains(' ') && !"mode="@.contains(' '),
        !"wav"@.contains(' ') && !"count"@.contains(' ') && !"off"@.contains(' '),
        !"wall"@.contains(' ') && !"guest"@.contains(' '),
        " pacing="@ == seq![' '] + "pacing="@ && !"pacing="@.contains(' '),
        " slice_ms="@ == seq![' '] + "slice_ms="@ && !"slice_ms="@.contains(' '),
        " windows="@ == seq![' '] + "windows="@ && !"windows="@.contains(' '),
        " native_samples="@ == seq![' '] + "native_samples="@ && !"native_samples="@.contains(' '),
        " out_frames="@ == seq![' '] + "out_frames="@ && !"out_frames="@.contains(' '),
        " checksum=0x"@ == seq![' '] + "checksum=0x"@ && !"checksum=0x"@.contains(' '),
        " render_ns="@ == seq![' '] + "render_ns="@ && !"render_ns="@.contains(' '),
{
    reveal_strlit("audio cost: mode=");
    reveal_strlit("cost:");
    reveal_strlit("mode=");
    reveal_strlit("wav");
    reveal_strlit("count");
    reveal_strlit("off");
    reveal_strlit("wall");
    reveal_strlit("guest");
    reveal_strlit("pacing=");
    reveal_strlit(" pacing=");
    reveal_strlit("slice_ms=");
    reveal_strlit(" slice_ms=");
    reveal_strlit("windows=");
    reveal_strlit(" windows=");
    reveal_strlit("native_samples=");
    reveal_strlit(" native_samples=");
    reveal_strlit("out_frames=");
    reveal_strlit(" out_frames=");
    reveal_strlit("checksum=0x");
    reveal_strlit(" checksum=0x");
    reveal_strlit("render_ns=");
    reveal_strlit(" render_ns=");
    assert("audio cost: mode="@ =~= seq!['a', 'u', 'd', 'i', 'o'] + (seq![' '] + "cost:"@) + (seq![
        ' ',
    ] + "mode="@));
    assert(" pacing="@ =~= seq![' '] + "pacing="@);
    assert(" slice_ms="@ =~= seq![' '] + "slice_ms="@);
    assert(" windows="@ =~= seq![' '] + "windows="@);
    assert(" native_samples="@ =~= seq![' '] + "native_samples="@);
    assert(" out_frames="@ =~= seq![' '] + "out_frames="@);
    assert(" checksum=0x"@ =~= seq![' '] + "checksum=0x"@);
    assert(" render_ns="@ =~= seq![' '] + "render_ns="@);
}

/// The report of a cost mode reads back between its spaces: each counter behind its own
/// name.
#[verifier::rlimit(50)]
pub proof fn law_a_cost_report_reads_back(capture: AudioCapture)
    ensures
        split(capture.report_line(), ' ') == seq![
            seq!['a', 'u', 'd', 'i', 'o'],
            "cost:"@,
            "mode="@ + capture.mode@.name(),
            "pacing="@ + pace_name(capture.wall_paced),
            "slice_ms="@ + decimal(capture.slice_ms as nat),
            "windows="@ + decimal(capture.windows as nat),
            "native_samples="@ + decimal(capture.native_samples as nat),
            "out_frames="@ + decimal(capture.out_frames as nat),
            "checksum=0x"@ + padded(hex(capture.checksum as nat), 16, '0'),
            "render_ns="@ + decimal(capture.render_ns as nat),
        ],
{
    lemma_report_leads();
    let front = seq!['a', 'u', 'd', 'i', 'o'];
    let name = capture.mode@.name();
    let none = Seq::<char>::empty();
    assert(!front.contains(' '));
    lemma_the_first_word(front);
    lemma_word_added(front, seq![front], seq![' '] + "cost:"@, "cost:"@, none);
    assert(front + (seq![' '] + "cost:"@) + none =~= front + (seq![' '] + "cost:"@));
    assert("cost:"@ + none =~= "cost:"@);
    let line = front + (seq![' '] + "cost:"@);
    let words = seq![front].push("cost:"@);
    lemma_word_added(line, words, seq![' '] + "mode="@, "mode="@, name);
    let line = "audio cost: mode="@ + name;
    let words = words.push("mode="@ + name);
    lemma_word_added(line, words, " pacing="@, "pacing="@, pace_name(capture.wall_paced));
    let line = line + " pacing="@ + pace_name(capture.wall_paced);
    let words = words.push("pacing="@ + pace_name(capture.wall_paced));
    lemma_numerals_hold_digits(capture.slice_ms as nat, 0, ' ');
    lemma_word_added(line, words, " slice_ms="@, "slice_ms="@, decimal(capture.slice_ms as nat));
    let line = line + " slice_ms="@ + decimal(capture.slice_ms as nat);
    let words = words.push("slice_ms="@ + decimal(capture.slice_ms as nat));
    lemma_numerals_hold_digits(capture.windows as nat, 0, ' ');
    lemma_word_added(line, words, " windows="@, "windows="@, decimal(capture.windows as nat));
    let line = line + " windows="@ + decimal(capture.windows as nat);
    let words = words.push("windows="@ + decimal(capture.windows as nat));
    lemma_numerals_hold_digits(capture.native_samples as nat, 0, ' ');
    lemma_word_added(line, words, " native_samples="@, "native_samples="@, decimal(capture.native_samples as nat));
    let line = line + " native_samples="@ + decimal(capture.native_samples as nat);
    let words = words.push("native_samples="@ + decimal(capture.native_samples as nat));
    lemma_numerals_hold_digits(capture.out_frames as nat, 0, ' ');
    lemma_word_added(line, words, " out_frames="@, "out_frames="@, decimal(capture.out_frames as nat));
    let line = line + " out_frames="@ + decimal(capture.out_frames as nat);
    let words = words.push("out_frames="@ + decimal(capture.out_frames as nat));
    lemma_numerals_hold_digits(capture.checksum as nat, 16, ' ');
    lemma_word_added(line, words, " checksum=0x"@, "checksum=0x"@, padded(hex(capture.checksum as nat), 16, '0'));
    let line = line + " checksum=0x"@ + padded(hex(capture.checksum as nat), 16, '0');
    let words = words.push("checksum=0x"@ + padded(hex(capture.checksum as nat), 16, '0'));
    lemma_numerals_hold_digits(capture.render_ns as nat, 0, ' ');
    lemma_word_added(line, words, " render_ns="@, "render_ns="@, decimal(capture.render_ns as nat));
    let line = line + " render_ns="@ + decimal(capture.render_ns as nat);
    let words = words.push("render_ns="@ + decimal(capture.render_ns as nat));
    lemma_words_read_back(line, words);
    assert(words =~= seq![
        front,
        "cost:"@,
        "mode="@ + name,
        "pacing="@ + pace_name(capture.wall_paced),
        "slice_ms="@ + decimal(capture.slice_ms as nat),
        "windows="@ + decimal(capture.windows as nat),
        "native_samples="@ + decimal(capture.native_samples as nat),
        "out_frames="@ + decimal(capture.out_frames as nat),
        "checksum=0x"@ + padded(hex(capture.checksum as nat), 16, '0'),
        "render_ns="@ + decimal(capture.render_ns as nat),
    ]);
}

/// A cost mode is read by the name that a report gives it, in any case and with white space
/// around it.
pub proof fn law_a_cost_mode_reads_back(front: Seq<char>, back: Seq<char>)
    requires
        crate::text::all_space(front),
        crate::text::all_space(back),
    ensures
        cost_mode(front + SinkView::Count.name() + back) == Ok::<SinkView, AudioFault>(
            SinkView::Count,
        ),
        cost_mode(front + SinkView::Skip.name() + back) == Ok::<SinkView, AudioFault>(
            SinkView::Skip,
        ),
        cost_mode(crate::text::uppered(SinkView::Count.name())) == Ok::<SinkView, AudioFault>(
            SinkView::Count,
        ),
        cost_mode(front + "wav"@ + back) is Err,
{
    reveal_strlit("count");
    reveal_strlit("off");
    reveal_strlit("skip");
    reveal_strlit("wav");
    assert("count"@ =~= seq!['c', 'o', 'u', 'n', 't']);
    assert("off"@ =~= seq!['o', 'f', 'f']);
    assert("wav"@ =~= seq!['w', 'a', 'v']);
    crate::text::law_trimming_takes_the_space_around(front, "count"@, back);
    crate::text::law_trimming_takes_the_space_around(front, "off"@, back);
    crate::text::law_trimming_takes_the_space_around(front, "wav"@, back);
    assert(lowered("count"@) =~= "count"@);
    assert(lowered("off"@) =~= "off"@);
    assert(lowered("wav"@) =~= "wav"@);
    let loud = crate::text::uppered("count"@);
    assert(loud =~= seq!['C', 'O', 'U', 'N', 'T']);
    crate::text::law_trimming_takes_the_space_around(Seq::empty(), loud, Seq::empty());
    assert(Seq::<char>::empty() + loud + Seq::<char>::empty() =~= loud);
    assert(lowered(loud) =~= "count"@);
}

/// A file name alone makes a file of that name, a mode alone that mode, and both together
/// are refused; an empty file name and a blank mode are as if they were not there.
pub proof fn law_one_observer_at_most(path: Seq<char>, mode: Seq<char>, blank: Seq<char>)
    requires
        path.len() > 0,
        trimmed(mode).len() > 0,
        trimmed(blank).len() == 0,
    ensures
        audio_sink(Some(path), None) == Ok::<Option<SinkView>, AudioFault>(
            Some(SinkView::Wav(path)),
        ),
        audio_sink(Some(path), Some(blank)) == audio_sink(Some(path), None),
        audio_sink(Some(path), Some(mode)) == Err::<Option<SinkView>, AudioFault>(
            AudioFault::BothSet,
        ),
        audio_sink(None, Some(mode)) is Ok <==> cost_mode(mode) is Ok,
        cost_mode(mode) is Ok ==> audio_sink(None, Some(mode)) == Ok::<
            Option<SinkView>,
            AudioFault,
        >(Some(cost_mode(mode)->Ok_0)),
        audio_sink(Some(Seq::empty()), Some(mode)) == audio_sink(None, Some(mode)),
        audio_sink(None, Some(blank)) == Ok::<Option<SinkView>, AudioFault>(None),
        audio_sink(None, None) == Ok::<Option<SinkView>, AudioFault>(None),
{
}

/// A slice reads back as it was written; nought is refused, and an unset slice is ten
/// milliseconds.
pub proof fn law_a_slice_reads_back(ms: u64)
    ensures
        ms > 0 ==> slice_ms(Some(decimal(ms as nat))) == Ok::<u64, AudioFault>(ms),
        ms == 0 ==> slice_ms(Some(decimal(ms as nat))) is Err,
        slice_ms(None) == Ok::<u64, AudioFault>(10u64),
        slice_ms(Some(Seq::empty())) == slice_ms(None),
{
    let text = decimal(ms as nat);
    crate::text::lemma_decimal_is_digits(ms as nat);
    assert(crate::text::is_digit(text[0]));
    assert(crate::text::is_digit(text[text.len() - 1]));
    crate::text::law_trimming_takes_the_space_around(Seq::empty(), text, Seq::empty());
    assert(Seq::<char>::empty() + text + Seq::<char>::empty() =~= text);
    assert(parsed_nat(text, u64::MAX as nat) == Some(ms as nat));
    assert(trimmed(Seq::<char>::empty()).len() == 0);
}

/// A look asks for all that is due, but for no more than half a second of the synthesiser's
/// samples; one that asks for nothing is not counted.
pub proof fn law_a_look_asks_for_what_is_due(windows: u64, native_samples: u64, want: u64)
    ensures
        window_of(want) <= want,
        2 * window_of(want) <= 49_716,
        window_of(want) == want || 2 * window_of(want) == 49_716,
        counted(windows, native_samples, want).1 - native_samples == window_of(want),
        counted(windows, native_samples, want).0 - windows == if want > 0 {
            1int
        } else {
            0
        },
{
}

/// A sample folded in moves the checksum by itself, and two that differ keep it apart; so do
/// two checksums before it.
pub proof fn law_a_sample_moves_the_checksum(f: u64, g: u64, a: i16, b: i16)
    ensures
        a != b ==> fold_sample(f, a) != fold_sample(f, b),
        f != g ==> fold_sample(f, a) != fold_sample(g, a),
        fold_sample(0, a) == if a >= 0 {
            a as int
        } else {
            0x1_0000 + a
        },
        fold_sample(f, 0) == (f * 0x0000_0100_0000_01b3int) % 0x1_0000_0000_0000_0000int,
{
    let m = 0x1_0000_0000_0000_0000int;
    let p = 0x0000_0100_0000_01b3int;
    let x = sample_bits(a);
    let y = sample_bits(b);
    if a != b {
        assert(x != y);
        if (f * p + x) % m == (f * p + y) % m {
            let q = (f * p + x) / m - (f * p + y) / m;
            assert(x - y == m * q);
            assert(q == 0);
        }
    }
    if f != g && (f * p + x) % m == (g * p + x) % m {
        let q = (f * p + x) / m - (g * p + x) / m;
        assert(f * p - g * p == m * q);
        assert((f * p) % m == (g * p) % m) by {
            vstd::arithmetic::div_mod::lemma_mod_multiples_vanish(q, g * p, m);
            assert(m * q + g * p == f * p);
        }
        crate::fnv::lemma_the_prime_keeps_apart(f as int, g as int);
    }
}

/// One sample that differs moves the checksum of a run, whichever it is and whatever frames
/// follow.
pub proof fn law_one_sample_moves_the_run(
    seed: u64,
    before: Seq<(i16, i16)>,
    a: (i16, i16),
    b: (i16, i16),
    behind: Seq<(i16, i16)>,
)
    requires
        (a.0 == b.0) != (a.1 == b.1),
    ensures
        folded(seed, before.push(a) + behind) != folded(seed, before.push(b) + behind),
    decreases behind.len(),
{
    if behind.len() == 0 {
        assert(before.push(a) + behind =~= before.push(a));
        assert(before.push(b) + behind =~= before.push(b));
        assert(before.push(a).drop_last() =~= before);
        assert(before.push(b).drop_last() =~= before);
        let f = folded(seed, before);
        law_a_sample_moves_the_checksum(f, f, a.0, b.0);
        law_a_sample_moves_the_checksum(fold_sample(f, a.0), fold_sample(f, b.0), a.1, b.1);
    } else {
        let rest = behind.drop_last();
        law_one_sample_moves_the_run(seed, before, a, b, rest);
        assert((before.push(a) + behind).drop_last() =~= before.push(a) + rest);
        assert((before.push(b) + behind).drop_last() =~= before.push(b) + rest);
        let f = folded(seed, before.push(a) + rest);
        let g = folded(seed, before.push(b) + rest);
        let last = behind.last();
        law_a_sample_moves_the_checksum(f, g, last.0, last.0);
        law_a_sample_moves_the_checksum(
            fold_sample(f, last.0),
            fold_sample(g, last.0),
            last.1,
            last.1,
        );
    }
}

/// The samples of a file stand behind one another, four bytes to a frame and the left sample
/// first, each in two bytes of which the low one is first.
pub proof fn law_a_frame_keeps_its_samples(frames: Seq<(i16, i16)>, i: int)
    requires
        0 <= i < frames.len(),
    ensures
        frames_bytes(frames).len() == 4 * frames.len(),
        frames_bytes(frames)[4 * i] + 256 * frames_bytes(frames)[4 * i + 1] == if frames[i].0 < 0 {
            0x1_0000 + frames[i].0
        } else {
            frames[i].0 as int
        },
        frames_bytes(frames)[4 * i + 2] + 256 * frames_bytes(frames)[4 * i + 3] == if frames[i].1
            < 0 {
            0x1_0000 + frames[i].1
        } else {
            frames[i].1 as int
        },
    decreases frames.len(),
{
    let front = frames.drop_last();
    if front.len() > 0 {
        if i < front.len() {
            law_a_frame_keeps_its_samples(front, i);
        } else {
            law_a_frame_keeps_its_samples(front, 0);
        }
    } else {
        assert(frames_bytes(front) =~= Seq::empty());
    }
}

} // verus!
