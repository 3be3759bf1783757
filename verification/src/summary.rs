//! What a headless run says of the screen when it has stopped.

use vstd::prelude::*;

#[allow(unused_imports)]
use crate::order::head;
use crate::picture::{glyph_count, lit_pixels, ranked_colors, ActiveDisplay, VideoMode};
#[allow(unused_imports)]
use crate::picture::{glyphs, lit, ranking_of};
use crate::report::modes::MargoDisplay;
use crate::text::{decimal_text, hex_text, join, pad_left, prefixed_hex_text};
#[allow(unused_imports)]
use crate::text::{decimal, joined, padded, prefixed_hex, text_views, upper_hex};
#[allow(unused_imports)]
use crate::text::{
    lemma_neither_holds, lemma_numerals_hold_digits, lemma_the_first_word, lemma_upper_numerals_hold_digits, lemma_word_added, lemma_words_read_back, split,
};

verus! {

/// The colours that are named.
pub const TOP_COLORS: usize = 8;

/// The accelerated display beside the picture.
#[derive(Clone, Copy, Debug)]
pub struct MargoSummary {
    pub display: MargoDisplay,
    pub linear_sets: u64,
    pub banked_sets: u64,
    pub vga_pass: bool,
    pub video_reset: bool,
    pub video_reset_falling_edges: u64,
    pub fbi_init0_enables: u64,
}

/// What the screen shows. `mode` is read of a VGA picture only, and `page` of a
/// text mode only; `lit_percent` is the share of pixels that are not black, with
/// one decimal.
#[derive(Debug)]
pub struct ScreenState {
    pub display: ActiveDisplay,
    pub mode: VideoMode,
    pub page: String,
    pub pixels: Vec<u32>,
    pub width: u64,
    pub height: u64,
    pub lit_percent: String,
    pub margo: Option<MargoSummary>,
}

/// A flag in a word.
pub open spec fn flag_text(flag: bool) -> Seq<char> {
    if flag {
        "true"@
    } else {
        "false"@
    }
}

/// A flag in a word.
fn flag_word(flag: bool) -> (word: &'static str)
    ensures
        word@ == flag_text(flag),
{
    if flag {
        "true"
    } else {
        "false"
    }
}

/// A share that was worked out, or none of nothing.
pub open spec fn share_text(whole: nat, percent: Seq<char>) -> Seq<char> {
    if whole == 0 {
        "0.0"@
    } else {
        percent
    }
}

/// The line about the accelerated display.
pub open spec fn margo_text(m: MargoSummary) -> Seq<char> {
    "margo: mode="@ + prefixed_hex(m.display.mode as nat, 4, false) + " "@ + decimal(
        m.display.width as nat,
    ) + "x"@ + decimal(m.display.height as nat) + "x"@ + decimal(m.display.bpp as nat)
        + " pitch="@ + decimal(m.display.pitch as nat) + " start="@ + decimal(
        m.display.start as nat,
    ) + " linear_sets="@ + decimal(m.linear_sets as nat) + " banked_sets="@ + decimal(
        m.banked_sets as nat,
    ) + " vga_pass="@ + flag_text(m.vga_pass) + " video_reset="@ + flag_text(m.video_reset)
        + " video_reset_falling_edges="@ + decimal(m.video_reset_falling_edges as nat)
        + " fbi_init0_enables="@ + decimal(m.fbi_init0_enables as nat)
}

/// The line about the accelerated display.
fn margo_line(m: &MargoSummary) -> (line: String)
    ensures
        line@ == margo_text(*m),
{
    let mut line: String = "margo: mode=".to_owned();
    line.append(prefixed_hex_text(m.display.mode as u64, 4, false).as_str());
    line.append(" ");
    line.append(decimal_text(m.display.width as u64).as_str());
    line.append("x");
    line.append(decimal_text(m.display.height as u64).as_str());
    line.append("x");
    line.append(decimal_text(m.display.bpp as u64).as_str());
    line.append(" pitch=");
    line.append(decimal_text(m.display.pitch as u64).as_str());
    line.append(" start=");
    line.append(decimal_text(m.display.start as u64).as_str());
    line.append(" linear_sets=");
    line.append(decimal_text(m.linear_sets).as_str());
    line.append(" banked_sets=");
    line.append(decimal_text(m.banked_sets).as_str());
    line.append(" vga_pass=");
    line.append(flag_word(m.vga_pass));
    line.append(" video_reset=");
    line.append(flag_word(m.video_reset));
    line.append(" video_reset_falling_edges=");
    line.append(decimal_text(m.video_reset_falling_edges).as_str());
    line.append(" fbi_init0_enables=");
    line.append(decimal_text(m.fbi_init0_enables).as_str());
    line
}

/// A colour and the pixels that have it.
pub open spec fn color_text(entry: (u32, u32)) -> Seq<char> {
    "#"@ + padded(upper_hex(entry.0 as nat), 6, '0') + ": "@ + decimal(entry.1 as nat)
}

/// The most frequent colours.
pub open spec fn top_colors(ranking: Seq<(u32, u32)>) -> Seq<Seq<char>> {
    head(ranking, TOP_COLORS as int).map_values(|entry: (u32, u32)| color_text(entry))
}

/// The lines about the display, before the picture's own.
pub open spec fn display_lines(s: ScreenState) -> Seq<Seq<char>> {
    let display = seq!["active display: "@ + s.display.name()];
    if s.display != ActiveDisplay::VgaRaster {
        display
    } else {
        let mode = display.push("video mode: "@ + s.mode.name());
        if s.mode != VideoMode::Text {
            mode
        } else {
            mode + seq![
                "text non-blank glyphs: "@ + decimal(glyphs(s.page@)),
                "--- 80x25 text ---"@,
                s.page@,
                "--- end text ---"@,
            ]
        }
    }
}

/// The lines about the picture itself.
pub open spec fn picture_lines(s: ScreenState) -> Seq<Seq<char>> {
    seq![
        "framebuffer: "@ + decimal(s.width as nat) + "x"@ + decimal(s.height as nat) + " ("@
            + decimal(s.pixels@.len()) + " px)"@,
        "non-zero pixels: "@ + decimal(lit(s.pixels@)) + " ("@ + share_text(
            s.pixels@.len(),
            s.lit_percent@,
        ) + "%)"@,
    ]
}

/// The lines about the screen.
pub open spec fn screen_lines(s: ScreenState) -> Seq<Seq<char>> {
    let ranking = ranking_of(s.pixels@);
    display_lines(s) + picture_lines(s) + (match s.margo {
        Some(m) => seq![margo_text(m)],
        None => Seq::empty(),
    }) + seq![
        "distinct colors: "@ + decimal(ranking.len()),
        "top colors: "@ + joined(top_colors(ranking), ", "@),
    ]
}

/// The lines about the display.
fn display_part(s: &ScreenState) -> (lines: Vec<String>)
    ensures
        text_views(lines@) == display_lines(*s),
{
    let mut lines: Vec<String> = Vec::new();
    let mut line: String = "active display: ".to_owned();
    line.append(s.display.display_name());
    lines.push(line);
    if s.display == ActiveDisplay::VgaRaster {
        let mut line: String = "video mode: ".to_owned();
        line.append(s.mode.mode_name());
        lines.push(line);
        if s.mode == VideoMode::Text {
            let mut line: String = "text non-blank glyphs: ".to_owned();
            line.append(decimal_text(glyph_count(s.page.as_str())).as_str());
            lines.push(line);
            lines.push("--- 80x25 text ---".to_owned());
            lines.push(s.page.clone());
            lines.push("--- end text ---".to_owned());
        }
    }
    assert(text_views(lines@) =~= display_lines(*s));
    lines
}

/// The most frequent colours.
fn top_color_texts(ranking: &Vec<(u32, u32)>) -> (texts: Vec<String>)
    ensures
        text_views(texts@) == top_colors(ranking@),
{
    let n: usize = if ranking.len() <= TOP_COLORS {
        ranking.len()
    } else {
        TOP_COLORS
    };
    let mut texts: Vec<String> = Vec::new();
    let mut i: usize = 0;
    while i < n
        invariant
            i <= n <= ranking@.len(),
            texts@.len() == i,
            forall|k: int| 0 <= k < i ==> (#[trigger] texts@[k])@ == color_text(ranking@[k]),
        decreases n - i,
    {
        let mut text: String = "#".to_owned();
        text.append(pad_left(hex_text(ranking[i].0 as u64, true).as_str(), 6, '0').as_str());
        text.append(": ");
        text.append(decimal_text(ranking[i].1 as u64).as_str());
        texts.push(text);
        i = i + 1;
    }
    assert(text_views(texts@) =~= top_colors(ranking@));
    texts
}

/// The lines about the screen.
pub fn video_summary_lines(s: &ScreenState) -> (lines: Vec<String>)
    requires
        s.pixels@.len() <= u32::MAX,
    ensures
        text_views(lines@) == screen_lines(*s),
{
    let mut lines: Vec<String> = display_part(s);
    let ghost display = lines@;
    let mut line: String = "framebuffer: ".to_owned();
    line.append(decimal_text(s.width).as_str());
    line.append("x");
    line.append(decimal_text(s.height).as_str());
    line.append(" (");
    line.append(decimal_text(s.pixels.len() as u64).as_str());
    line.append(" px)");
    lines.push(line);
    let mut line: String = "non-zero pixels: ".to_owned();
    line.append(decimal_text(lit_pixels(&s.pixels)).as_str());
    line.append(" (");
    line.append(if s.pixels.len() == 0 { "0.0" } else { s.lit_percent.as_str() });
    line.append("%)");
    lines.push(line);
    proof {
        assert(text_views(lines@) =~= text_views(display) + picture_lines(*s));
    }
    match &s.margo {
        Some(m) => {
            lines.push(margo_line(m));
        },
        None => {},
    }
    let ghost margo = (match s.margo {
        Some(m) => seq![margo_text(m)],
        None => Seq::<Seq<char>>::empty(),
    });
    proof {
        assert(text_views(lines@) =~= text_views(display) + picture_lines(*s) + margo);
    }
    let ghost before = text_views(lines@);
    let ranking: Vec<(u32, u32)> = ranked_colors(&s.pixels);
    let mut line: String = "distinct colors: ".to_owned();
    line.append(decimal_text(ranking.len() as u64).as_str());
    lines.push(line);
    let mut line: String = "top colors: ".to_owned();
    line.append(join(&top_color_texts(&ranking), ", ").as_str());
    lines.push(line);
    assert(text_views(lines@) =~= before + seq![
        "distinct colors: "@ + decimal(ranking@.len()),
        "top colors: "@ + joined(top_colors(ranking@), ", "@),
    ]);
    lines
}

// ---------------------------------------------------------------------------
// The accelerated display's own memory
// ---------------------------------------------------------------------------

/// The line about what the accelerated display's memory holds as a picture; none
/// where no session set a mode. `percent` is the share of pixels that are not
/// black, with one decimal.
pub fn margo_store_line(frame: Option<(&Vec<u32>, u32, u32)>, percent: &str) -> (line: String)
    ensures
        line@ == match frame {
            Some(f) => "margo store: "@ + decimal(f.1 as nat) + "x"@ + decimal(f.2 as nat)
                + " non-zero="@ + decimal(lit(f.0@)) + "/"@ + decimal(f.0@.len()) + " ("@
                + share_text(f.0@.len(), percent@) + "%)"@,
            None => "margo store: none (no VBE session)"@,
        },
{
    match frame {
        Some((pixels, width, height)) => {
            let mut line: String = "margo store: ".to_owned();
            line.append(decimal_text(width as u64).as_str());
            line.append("x");
            line.append(decimal_text(height as u64).as_str());
            line.append(" non-zero=");
            line.append(decimal_text(lit_pixels(pixels)).as_str());
            line.append("/");
            line.append(decimal_text(pixels.len() as u64).as_str());
            line.append(" (");
            line.append(if pixels.len() == 0 { "0.0" } else { percent });
            line.append("%)");
            line
        },
        None => "margo store: none (no VBE session)".to_owned(),
    }
}

/// The line about the same memory read as a palette picture.
pub fn margo_reread_line(label: &str, pixels: &Vec<u32>, percent: &str) -> (line: String)
    ensures
        line@ == "margo "@ + label@ + ": non-zero="@ + decimal(lit(pixels@)) + "/"@ + decimal(
            pixels@.len(),
        ) + " ("@ + share_text(pixels@.len(), percent@) + "%)"@,
{
    let mut line: String = "margo ".to_owned();
    line.append(label);
    line.append(": non-zero=");
    line.append(decimal_text(lit_pixels(pixels)).as_str());
    line.append("/");
    line.append(decimal_text(pixels.len() as u64).as_str());
    line.append(" (");
    line.append(if pixels.len() == 0 { "0.0" } else { percent });
    line.append("%)");
    line
}

/// The sizes in which the accelerated display's memory is read as a palette picture.
pub open spec fn rereads() -> Seq<(Seq<char>, u32, u32)> {
    seq![("pal8-640x480"@, 640u32, 480u32), ("pal8-320x120"@, 320u32, 120u32)]
}

/// The sizes in which the accelerated display's memory is read as a palette picture.
pub fn margo_rereads() -> (list: Vec<(&'static str, u32, u32)>)
    ensures
        list@.len() == rereads().len(),
        forall|i: int|
            0 <= i < list@.len() ==> ((#[trigger] list@[i]).0@, list@[i].1, list@[i].2)
                == rereads()[i],
{
    vec![("pal8-640x480", 640, 480), ("pal8-320x120", 320, 120)]
}

/// How the words of the line about the accelerated display begin.
proof fn lemma_margo_leads()
    ensures
        "margo: mode="@ == "margo:"@ + (seq![' '] + "mode="@),
        !"margo:"@.contains(' ') && !"mode="@.contains(' '),
        !"true"@.contains(' ') && !"false"@.contains(' '),
        " "@ == seq![' '],
        "x"@ == seq!['x'],
        " pitch="@ == seq![' '] + "pitch="@ && !"pitch="@.contains(' '),
        " start="@ == seq![' '] + "start="@ && !"start="@.contains(' '),
        " linear_sets="@ == seq![' '] + "linear_sets="@ && !"linear_sets="@.contains(' '),
        " banked_sets="@ == seq![' '] + "banked_sets="@ && !"banked_sets="@.contains(' '),
        " vga_pass="@ == seq![' '] + "vga_pass="@ && !"vga_pass="@.contains(' '),
        " video_reset="@ == seq![' '] + "video_reset="@ && !"video_reset="@.contains(' '),
        " video_reset_falling_edges="@ == seq![' '] + "video_reset_falling_edges="@ && !"video_reset_falling_edges="@.contains(' '),
        " fbi_init0_enables="@ == seq![' '] + "fbi_init0_enables="@ && !"fbi_init0_enables="@.contains(' '),
{
    reveal_strlit("margo: mode=");
    reveal_strlit("margo:");
    reveal_strlit("mode=");
    reveal_strlit("true");
    reveal_strlit("false");
    reveal_strlit(" ");
    reveal_strlit("x");
    reveal_strlit("pitch=");
    reveal_strlit(" pitch=");
    reveal_strlit("start=");
    reveal_strlit(" start=");
    reveal_strlit("linear_sets=");
    reveal_strlit(" linear_sets=");
    reveal_strlit("banked_sets=");
    reveal_strlit(" banked_sets=");
    reveal_strlit("vga_pass=");
    reveal_strlit(" vga_pass=");
    reveal_strlit("video_reset=");
    reveal_strlit(" video_reset=");
    reveal_strlit("video_reset_falling_edges=");
    reveal_strlit(" video_reset_falling_edges=");
    reveal_strlit("fbi_init0_enables=");
    reveal_strlit(" fbi_init0_enables=");
    assert("margo: mode="@ =~= "margo:"@ + (seq![' '] + "mode="@));
    assert(" "@ =~= seq![' ']);
    assert("x"@ =~= seq!['x']);
    assert(" pitch="@ =~= seq![' '] + "pitch="@);
    assert(" start="@ =~= seq![' '] + "start="@);
    assert(" linear_sets="@ =~= seq![' '] + "linear_sets="@);
    assert(" banked_sets="@ =~= seq![' '] + "banked_sets="@);
    assert(" vga_pass="@ =~= seq![' '] + "vga_pass="@);
    assert(" video_reset="@ =~= seq![' '] + "video_reset="@);
    assert(" video_reset_falling_edges="@ =~= seq![' '] + "video_reset_falling_edges="@);
    assert(" fbi_init0_enables="@ =~= seq![' '] + "fbi_init0_enables="@);
}

/// The line about the accelerated display reads back between its spaces: its mode, its width
/// by its height by its depth, and each number and flag behind its own name.
#[verifier::rlimit(50)]
pub proof fn law_the_accelerated_display_reads_back(m: MargoSummary)
    ensures
        split(margo_text(m), ' ') == seq![
            "margo:"@,
            "mode="@ + prefixed_hex(m.display.mode as nat, 4, false),
            decimal(m.display.width as nat) + seq!['x'] + decimal(m.display.height as nat) + seq![
                'x',
            ] + decimal(m.display.bpp as nat),
            "pitch="@ + decimal(m.display.pitch as nat),
            "start="@ + decimal(m.display.start as nat),
            "linear_sets="@ + decimal(m.linear_sets as nat),
            "banked_sets="@ + decimal(m.banked_sets as nat),
            "vga_pass="@ + flag_text(m.vga_pass),
            "video_reset="@ + flag_text(m.video_reset),
            "video_reset_falling_edges="@ + decimal(m.video_reset_falling_edges as nat),
            "fbi_init0_enables="@ + decimal(m.fbi_init0_enables as nat),
        ],
{
    lemma_margo_leads();
    let mode = prefixed_hex(m.display.mode as nat, 4, false);
    let width = decimal(m.display.width as nat);
    let height = decimal(m.display.height as nat);
    let depth = decimal(m.display.bpp as nat);
    lemma_upper_numerals_hold_digits(m.display.mode as nat, 4, ' ');
    lemma_numerals_hold_digits(m.display.width as nat, 0, ' ');
    lemma_numerals_hold_digits(m.display.height as nat, 0, ' ');
    lemma_numerals_hold_digits(m.display.bpp as nat, 0, ' ');
    lemma_the_first_word("margo:"@);
    lemma_word_added("margo:"@, seq!["margo:"@], seq![' '] + "mode="@, "mode="@, mode);
    let line = "margo: mode="@ + mode;
    let words = seq!["margo:"@].push("mode="@ + mode);
    let size = width + seq!['x'] + height + seq!['x'] + depth;
    let none = Seq::<char>::empty();
    assert(!seq!['x'].contains(' '));
    lemma_neither_holds(width, seq!['x'], ' ');
    lemma_neither_holds(width + seq!['x'], height, ' ');
    lemma_neither_holds(width + seq!['x'] + height, seq!['x'], ' ');
    lemma_neither_holds(width + seq!['x'] + height + seq!['x'], depth, ' ');
    lemma_word_added(line, words, seq![' '] + none, none, size);
    assert(none + size =~= size);
    assert(line + (seq![' '] + none) + size =~= line + " "@ + width + "x"@ + height + "x"@ + depth);
    let line = line + " "@ + width + "x"@ + height + "x"@ + depth;
    let words = words.push(size);
    lemma_numerals_hold_digits(m.display.pitch as nat, 0, ' ');
    lemma_word_added(line, words, " pitch="@, "pitch="@, decimal(m.display.pitch as nat));
    let line = line + " pitch="@ + decimal(m.display.pitch as nat);
    let words = words.push("pitch="@ + decimal(m.display.pitch as nat));
    lemma_numerals_hold_digits(m.display.start as nat, 0, ' ');
    lemma_word_added(line, words, " start="@, "start="@, decimal(m.display.start as nat));
    let line = line + " start="@ + decimal(m.display.start as nat);
    let words = words.push("start="@ + decimal(m.display.start as nat));
    lemma_numerals_hold_digits(m.linear_sets as nat, 0, ' ');
    lemma_word_added(line, words, " linear_sets="@, "linear_sets="@, decimal(m.linear_sets as nat));
    let line = line + " linear_sets="@ + decimal(m.linear_sets as nat);
    let words = words.push("linear_sets="@ + decimal(m.linear_sets as nat));
    lemma_numerals_hold_digits(m.banked_sets as nat, 0, ' ');
    lemma_word_added(line, words, " banked_sets="@, "banked_sets="@, decimal(m.banked_sets as nat));
    let line = line + " banked_sets="@ + decimal(m.banked_sets as nat);
    let words = words.push("banked_sets="@ + decimal(m.banked_sets as nat));
    lemma_word_added(line, words, " vga_pass="@, "vga_pass="@, flag_text(m.vga_pass));
    let line = line + " vga_pass="@ + flag_text(m.vga_pass);
    let words = words.push("vga_pass="@ + flag_text(m.vga_pass));
    lemma_word_added(line, words, " video_reset="@, "video_reset="@, flag_text(m.video_reset));
    let line = line + " video_reset="@ + flag_text(m.video_reset);
    let words = words.push("video_reset="@ + flag_text(m.video_reset));
    lemma_numerals_hold_digits(m.video_reset_falling_edges as nat, 0, ' ');
    lemma_word_added(line, words, " video_reset_falling_edges="@, "video_reset_falling_edges="@, decimal(m.video_reset_falling_edges as nat));
    let line = line + " video_reset_falling_edges="@ + decimal(m.video_reset_falling_edges as nat);
    let words = words.push("video_reset_falling_edges="@ + decimal(m.video_reset_falling_edges as nat));
    lemma_numerals_hold_digits(m.fbi_init0_enables as nat, 0, ' ');
    lemma_word_added(line, words, " fbi_init0_enables="@, "fbi_init0_enables="@, decimal(m.fbi_init0_enables as nat));
    let line = line + " fbi_init0_enables="@ + decimal(m.fbi_init0_enables as nat);
    let words = words.push("fbi_init0_enables="@ + decimal(m.fbi_init0_enables as nat));
    lemma_words_read_back(line, words);
    assert(words =~= seq![
        "margo:"@,
        "mode="@ + mode,
        size,
        "pitch="@ + decimal(m.display.pitch as nat),
        "start="@ + decimal(m.display.start as nat),
        "linear_sets="@ + decimal(m.linear_sets as nat),
        "banked_sets="@ + decimal(m.banked_sets as nat),
        "vga_pass="@ + flag_text(m.vga_pass),
        "video_reset="@ + flag_text(m.video_reset),
        "video_reset_falling_edges="@ + decimal(m.video_reset_falling_edges as nat),
        "fbi_init0_enables="@ + decimal(m.fbi_init0_enables as nat),
    ]);
}

/// What is said of the display: which it is, the mode of a VGA picture only, and the page of
/// a text mode only, whole and between its marks.
pub proof fn law_the_page_is_shown_of_a_text_mode(s: ScreenState)
    ensures
        display_lines(s)[0] == "active display: "@ + s.display.name(),
        display_lines(s).len() == if !(s.display is VgaRaster) {
            1nat
        } else if !(s.mode is Text) {
            2
        } else {
            6
        },
        s.display is VgaRaster ==> display_lines(s)[1] == "video mode: "@ + s.mode.name(),
        s.display is VgaRaster && s.mode is Text ==> display_lines(s)[4] == s.page@
            && display_lines(s)[2] == "text non-blank glyphs: "@ + decimal(glyphs(s.page@)),
        screen_lines(s).len() == display_lines(s).len() + 4 + (if s.margo is Some {
            1int
        } else {
            0
        }),
{
}

/// The colours that are named are the first eight of the ranking, each with its own number
/// and its own pixels.
pub proof fn law_the_first_colours_are_named(ranking: Seq<(u32, u32)>, i: int)
    requires
        0 <= i < ranking.len(),
        i < 8,
    ensures
        top_colors(ranking).len() == if ranking.len() < 8 {
            ranking.len()
        } else {
            8
        },
        top_colors(ranking)[i] == seq!['#'] + padded(upper_hex(ranking[i].0 as nat), 6, '0') + seq![
            ':',
            ' ',
        ] + decimal(ranking[i].1 as nat),
{
    reveal_strlit("#");
    reveal_strlit(": ");
    assert("#"@ =~= seq!['#']);
    assert(": "@ =~= seq![':', ' ']);
}

} // verus!
