//! Pictures of the guest's screen: as PPM files, and in what a run says of them.

use vstd::prelude::*;

use crate::order::{sort_pairs, tally};
#[allow(unused_imports)]
use crate::order::{is_tally, lemma_same_in_strict_order, pair_before, pair_le};
use crate::text::{chars_of, decimal_text, space};
#[allow(unused_imports)]
use crate::text::{decimal, is_space};
#[allow(unused_imports)]
use crate::totals::{
    has_key, keys_of, lemma_rows_add_up, lemma_rows_in_order_exist, lemma_weight_is_bounded, total,
    weight,
};
#[allow(unused_imports)]
use vstd::utf8::encode_utf8;
#[allow(unused_imports)]
use crate::text::{
    lemma_neither_holds, lemma_numerals_hold_digits, lemma_split_at_the_first, lemma_split_without_any, split,
};

verus! {

// ---------------------------------------------------------------------------
// Displays and modes
// ---------------------------------------------------------------------------

/// Which device drives the screen.
#[derive(Clone, Copy, Debug, PartialEq, Eq, Structural)]
pub enum ActiveDisplay {
    VgaRaster,
    MargoLfb,
    Distira,
}

/// What the VGA shows.
#[derive(Clone, Copy, Debug, PartialEq, Eq, Structural)]
pub enum VideoMode {
    Text,
    Mode13h,
    Planar,
    ModeX,
    Cga,
    Hercules,
}

impl ActiveDisplay {
    /// The display's name in a summary.
    pub open spec fn name(self) -> Seq<char> {
        match self {
            ActiveDisplay::VgaRaster => "VGA raster"@,
            ActiveDisplay::MargoLfb => "Margo linear framebuffer"@,
            ActiveDisplay::Distira => "Distira"@,
        }
    }

    /// The display's name in a summary.
    pub fn display_name(self) -> (name: &'static str)
        ensures
            name@ == self.name(),
    {
        match self {
            ActiveDisplay::VgaRaster => "VGA raster",
            ActiveDisplay::MargoLfb => "Margo linear framebuffer",
            ActiveDisplay::Distira => "Distira",
        }
    }
}

impl VideoMode {
    /// The mode's name in a summary.
    pub open spec fn name(self) -> Seq<char> {
        match self {
            VideoMode::Text => "text (03h)"@,
            VideoMode::Mode13h => "mode 13h (320x200x256)"@,
            VideoMode::Planar => "planar (EGA/VGA 16-color)"@,
            VideoMode::ModeX => "mode X (unchained 256-color)"@,
            VideoMode::Cga => "CGA graphics (320x200x4 / 640x200x2)"@,
            VideoMode::Hercules => "Hercules graphics (720x348 monochrome)"@,
        }
    }

    /// The mode's name in a summary.
    pub fn mode_name(self) -> (name: &'static str)
        ensures
            name@ == self.name(),
    {
        match self {
            VideoMode::Text => "text (03h)",
            VideoMode::Mode13h => "mode 13h (320x200x256)",
            VideoMode::Planar => "planar (EGA/VGA 16-color)",
            VideoMode::ModeX => "mode X (unchained 256-color)",
            VideoMode::Cga => "CGA graphics (320x200x4 / 640x200x2)",
            VideoMode::Hercules => "Hercules graphics (720x348 monochrome)",
        }
    }
}

// ---------------------------------------------------------------------------
// PPM files
// ---------------------------------------------------------------------------

/// The red, green and blue of a pixel.
pub open spec fn rgb(pixel: u32) -> Seq<u8> {
    seq![
        ((pixel / 0x1_0000) % 0x100) as u8,
        ((pixel / 0x100) % 0x100) as u8,
        (pixel % 0x100) as u8,
    ]
}

/// The colours of the pixels, three bytes each.
pub open spec fn rgb_bytes(pixels: Seq<u32>) -> Seq<u8> {
    Seq::new(pixels.len() * 3, |i: int| rgb(pixels[i / 3])[i % 3])
}

/// The heading of a PPM file.
pub open spec fn ppm_heading(width: nat, height: nat) -> Seq<char> {
    "P6\n"@ + decimal(width) + " "@ + decimal(height) + "\n255\n"@
}

/// The pixels as a binary PPM file.
pub fn argb_ppm(pixels: &Vec<u32>, width: u64, height: u64) -> (bytes: Vec<u8>)
    ensures
        bytes@ == encode_utf8(ppm_heading(width as nat, height as nat)) + rgb_bytes(pixels@),
{
    let mut heading: String = "P6\n".to_owned();
    heading.append(decimal_text(width).as_str());
    heading.append(" ");
    heading.append(decimal_text(height).as_str());
    heading.append("\n255\n");
    let mut bytes: Vec<u8> = crate::launch::copy_bytes(heading.as_str().as_bytes());
    let ghost head = bytes@;
    let mut i: usize = 0;
    assert(bytes@ =~= head + rgb_bytes(pixels@.take(0)));
    while i < pixels.len()
        invariant
            i <= pixels@.len(),
            bytes@ == head + rgb_bytes(pixels@.take(i as int)),
        decreases pixels@.len() - i,
    {
        let pixel: u32 = pixels[i];
        bytes.push(((pixel / 0x1_0000) % 0x100) as u8);
        bytes.push(((pixel / 0x100) % 0x100) as u8);
        bytes.push((pixel % 0x100) as u8);
        proof {
            lemma_rgb_of_one_more(pixels@, i as int);
            assert(bytes@ =~= head + rgb_bytes(pixels@.take(i as int)) + rgb(pixel));
            assert(bytes@ =~= head + rgb_bytes(pixels@.take(i + 1)));
        }
        i = i + 1;
    }
    assert(pixels@.take(pixels@.len() as int) =~= pixels@);
    bytes
}

/// One more pixel is three more bytes.
proof fn lemma_rgb_of_one_more(pixels: Seq<u32>, i: int)
    requires
        0 <= i < pixels.len(),
    ensures
        rgb_bytes(pixels.take(i + 1)) == rgb_bytes(pixels.take(i)) + rgb(pixels[i]),
{
    let longer = rgb_bytes(pixels.take(i + 1));
    let shorter = rgb_bytes(pixels.take(i));
    assert forall|k: int| 0 <= k < longer.len() implies longer[k] == (shorter + rgb(pixels[i]))[k] by {
        if k < 3 * i {
            assert(pixels.take(i + 1)[k / 3] == pixels.take(i)[k / 3]);
        } else {
            assert(k / 3 == i);
        }
    }
    assert(longer =~= shorter + rgb(pixels[i]));
}

/// A PPM file holds every pixel's red, green and blue, behind its heading, in the
/// pixels' order.
pub proof fn law_a_ppm_holds_every_pixel(pixels: Seq<u32>, i: int)
    requires
        0 <= i < pixels.len(),
    ensures
        rgb_bytes(pixels).len() == 3 * pixels.len(),
        rgb_bytes(pixels).subrange(3 * i, 3 * i + 3) == rgb(pixels[i]),
{
    assert(rgb_bytes(pixels).subrange(3 * i, 3 * i + 3) =~= rgb(pixels[i]));
}

/// The name of a picture that goes beside another one. `stem` is the other file's
/// name without its ending, where that is text.
pub fn sidecar_ppm(stem: Option<&str>, suffix: &str) -> (name: String)
    ensures
        name@ == (match stem {
            Some(s) => s@,
            None => "result"@,
        }) + "-"@ + suffix@ + ".ppm"@,
{
    let mut name: String = match stem {
        Some(s) => s.to_owned(),
        None => "result".to_owned(),
    };
    name.append("-");
    name.append(suffix);
    name.append(".ppm");
    name
}

// ---------------------------------------------------------------------------
// Counting
// ---------------------------------------------------------------------------

/// The pixels that are not black.
pub open spec fn lit(pixels: Seq<u32>) -> nat {
    pixels.filter(|pixel: u32| pixel != 0).len()
}

/// The pixels that are not black.
pub fn lit_pixels(pixels: &Vec<u32>) -> (count: u64)
    ensures
        count == lit(pixels@),
        count <= pixels@.len(),
{
    let mut count: usize = 0;
    let mut i: usize = 0;
    proof {
        reveal(Seq::filter);
        assert(pixels@.take(0) =~= Seq::empty());
    }
    while i < pixels.len()
        invariant
            i <= pixels@.len(),
            count <= i,
            count == lit(pixels@.take(i as int)),
        decreases pixels@.len() - i,
    {
        proof {
            reveal(Seq::filter);
            assert(pixels@.take(i + 1).drop_last() =~= pixels@.take(i as int));
        }
        if pixels[i] != 0 {
            count = count + 1;
        }
        i = i + 1;
    }
    assert(pixels@.take(pixels@.len() as int) =~= pixels@);
    count as u64
}

/// The characters of a page that are not white space.
pub open spec fn glyphs(text: Seq<char>) -> nat {
    text.filter(|c: char| !is_space(c)).len()
}

/// The characters of a page that are not white space.
pub fn glyph_count(text: &str) -> (count: u64)
    ensures
        count == glyphs(text@),
{
    let chars: Vec<char> = chars_of(text);
    let mut count: usize = 0;
    let mut i: usize = 0;
    proof {
        reveal(Seq::filter);
        assert(chars@.take(0) =~= Seq::empty());
    }
    while i < chars.len()
        invariant
            i <= chars@.len(),
            count <= i,
            count == glyphs(chars@.take(i as int)),
        decreases chars@.len() - i,
    {
        proof {
            reveal(Seq::filter);
            assert(chars@.take(i + 1).drop_last() =~= chars@.take(i as int));
        }
        if !space(chars[i]) {
            count = count + 1;
        }
        i = i + 1;
    }
    assert(chars@.take(chars@.len() as int) =~= chars@);
    count as u64
}

// ---------------------------------------------------------------------------
// Colours
// ---------------------------------------------------------------------------

/// How many pixels have a colour.
pub open spec fn share(pixels: Seq<u32>, color: u32) -> nat {
    pixels.to_multiset().count(color)
}

/// Whether one colour comes before another: more pixels have it, or as many have it
/// and its number is smaller.
pub open spec fn color_before(a: (u32, u32), b: (u32, u32)) -> bool {
    a.1 > b.1 || (a.1 == b.1 && a.0 < b.0)
}

/// Whether these are the colours of a picture, each once, with the pixels that have
/// it, in order.
pub open spec fn is_ranking(ranking: Seq<(u32, u32)>, pixels: Seq<u32>) -> bool {
    &&& forall|i: int|
        0 <= i < ranking.len() ==> (#[trigger] ranking[i]).1 > 0 && ranking[i].1 == share(
            pixels,
            ranking[i].0,
        )
    &&& forall|color: u32|
        #[trigger] share(pixels, color) > 0 ==> ranking.contains((color, share(pixels, color) as u32))
    &&& forall|i: int, j: int|
        0 <= i < j < ranking.len() ==> color_before(#[trigger] ranking[i], #[trigger] ranking[j])
}

/// The colours of a picture in order.
pub open spec fn ranking_of(pixels: Seq<u32>) -> Seq<(u32, u32)> {
    choose|ranking: Seq<(u32, u32)>| is_ranking(ranking, pixels)
}

/// A picture has one ranking of its colours and no other.
pub proof fn law_a_ranking_is_unique(a: Seq<(u32, u32)>, b: Seq<(u32, u32)>, pixels: Seq<u32>)
    requires
        is_ranking(a, pixels),
        is_ranking(b, pixels),
    ensures
        a == b,
{
    assert forall|x: (u32, u32)| a.contains(x) implies b.contains(x) by {
        let i = choose|i: int| 0 <= i < a.len() && a[i] == x;
        assert(share(pixels, x.0) > 0);
    }
    assert forall|x: (u32, u32)| b.contains(x) implies a.contains(x) by {
        let i = choose|i: int| 0 <= i < b.len() && b[i] == x;
        assert(share(pixels, x.0) > 0);
    }
    lemma_same_in_strict_order(a, b, |x: (u32, u32), y: (u32, u32)| color_before(x, y));
}

/// The pixels of the colours of a ranking together.
pub open spec fn ranked_pixels(ranking: Seq<(u32, u32)>) -> int
    decreases ranking.len(),
{
    if ranking.len() == 0 {
        0
    } else {
        ranked_pixels(ranking.drop_last()) + ranking.last().1
    }
}

/// Pixels as gifts of one to their colours.
spec fn pixel_gifts(pixels: Seq<u32>) -> Seq<(u32, u64)> {
    pixels.map_values(|pixel: u32| (pixel, 1u64))
}

/// Counting the pixels of a colour is adding up their gifts.
proof fn lemma_shares_are_weights(pixels: Seq<u32>, color: u32)
    ensures
        share(pixels, color) == weight(pixel_gifts(pixels), color),
        total(pixel_gifts(pixels)) == pixels.len(),
        share(pixels, color) > 0 <==> has_key(pixel_gifts(pixels), color),
    decreases pixels.len(),
{
    broadcast use vstd::seq_lib::group_to_multiset_ensures;

    let gifts = pixel_gifts(pixels);
    if pixels.len() == 0 {
        assert(pixels =~= Seq::empty());
    } else {
        let rest = pixels.drop_last();
        lemma_shares_are_weights(rest, color);
        assert(pixels =~= rest.push(pixels.last()));
        assert(gifts.drop_last() =~= pixel_gifts(rest));
    }
    if share(pixels, color) > 0 {
        assert(pixels.contains(color));
        let i = choose|i: int| 0 <= i < pixels.len() && pixels[i] == color;
        assert(gifts[i].0 == color);
    }
    if has_key(gifts, color) {
        let i = choose|i: int| 0 <= i < gifts.len() && (#[trigger] gifts[i]).0 == color;
        assert(pixels[i] == color);
        assert(pixels.contains(color));
    }
}

/// A ranking's rows as gifts to their colours.
spec fn row_gifts(ranking: Seq<(u32, u32)>) -> Seq<(u32, u64)> {
    ranking.map_values(|row: (u32, u32)| (row.0, row.1 as u64))
}

/// Adding up a ranking is adding up its gifts.
proof fn lemma_ranked_pixels(ranking: Seq<(u32, u32)>)
    ensures
        ranked_pixels(ranking) == total(row_gifts(ranking)),
    decreases ranking.len(),
{
    if ranking.len() > 0 {
        lemma_ranked_pixels(ranking.drop_last());
        assert(row_gifts(ranking).drop_last() =~= row_gifts(ranking.drop_last()));
    }
}

/// A ranking of colours counts every pixel once.
pub proof fn law_a_ranking_counts_every_pixel(ranking: Seq<(u32, u32)>, pixels: Seq<u32>)
    requires
        is_ranking(ranking, pixels),
    ensures
        ranked_pixels(ranking) == pixels.len(),
{
    let rows = row_gifts(ranking);
    let gifts = pixel_gifts(pixels);
    assert(keys_of(rows).no_duplicates()) by {
        assert forall|i: int, j: int| 0 <= i < rows.len() && 0 <= j < rows.len() && i
            != j implies keys_of(rows)[i] != keys_of(rows)[j] by {
            if i < j {
                assert(color_before(ranking[i], ranking[j]));
            } else {
                assert(color_before(ranking[j], ranking[i]));
            }
            assert(ranking[i].1 == share(pixels, ranking[i].0));
            assert(ranking[j].1 == share(pixels, ranking[j].0));
        }
    }
    assert forall|i: int| 0 <= i < rows.len() implies (#[trigger] rows[i]).1 == weight(
        gifts,
        rows[i].0,
    ) by {
        assert(ranking[i].1 == share(pixels, ranking[i].0));
        lemma_shares_are_weights(pixels, ranking[i].0);
    }
    assert forall|i: int| 0 <= i < gifts.len() implies has_key(rows, (#[trigger] gifts[i]).0) by {
        let color = pixels[i];
        assert(gifts[i].0 == color);
        lemma_shares_are_weights(pixels, color);
        assert(has_key(gifts, color));
        let row = (color, share(pixels, color) as u32);
        assert(ranking.contains(row));
        let k = choose|k: int| 0 <= k < ranking.len() && ranking[k] == row;
        assert(rows[k].0 == color);
    }
    lemma_rows_add_up(rows, gifts);
    lemma_ranked_pixels(ranking);
    lemma_shares_are_weights(pixels, 0);
}

/// Every picture has a ranking of its colours, and it counts every pixel once.
pub proof fn law_every_picture_has_a_ranking(pixels: Seq<u32>)
    requires
        pixels.len() <= u32::MAX,
    ensures
        is_ranking(ranking_of(pixels), pixels),
        ranked_pixels(ranking_of(pixels)) == pixels.len(),
{
    let gifts = pixel_gifts(pixels);
    let earlier = |x: (u32, u64), y: (u32, u64)| x.1 > y.1 || (x.1 == y.1 && x.0 < y.0);
    lemma_shares_are_weights(pixels, 0);
    let rows = lemma_rows_in_order_exist(gifts, earlier);
    let ranking = rows.map_values(|row: (u32, u64)| (row.0, row.1 as u32));
    assert forall|i: int| 0 <= i < rows.len() implies (#[trigger] rows[i]).1 == share(
        pixels,
        rows[i].0,
    ) && 0 < rows[i].1 <= u32::MAX by {
        lemma_shares_are_weights(pixels, rows[i].0);
        lemma_weight_is_bounded(gifts, rows[i].0);
    }
    assert(is_ranking(ranking, pixels)) by {
        assert forall|i: int| 0 <= i < ranking.len() implies (#[trigger] ranking[i]).1 > 0
            && ranking[i].1 == share(pixels, ranking[i].0) by {
            assert(rows[i].1 == share(pixels, rows[i].0));
        }
        assert forall|color: u32| #[trigger] share(pixels, color) > 0 implies ranking.contains(
            (color, share(pixels, color) as u32),
        ) by {
            lemma_shares_are_weights(pixels, color);
            assert(has_key(rows, color));
            let i = choose|i: int| 0 <= i < rows.len() && (#[trigger] rows[i]).0 == color;
            assert(rows[i].1 == share(pixels, rows[i].0));
            assert(ranking[i] == (color, share(pixels, color) as u32));
        }
        assert forall|i: int, j: int| 0 <= i < j < ranking.len() implies color_before(
            #[trigger] ranking[i],
            #[trigger] ranking[j],
        ) by {
            assert(earlier(rows[i], rows[j]));
        }
    }
    law_a_ranking_counts_every_pixel(ranking_of(pixels), pixels);
}

/// The pairs that pixels are sorted as.
pub open spec fn as_pairs(pixels: Seq<u32>) -> Seq<(u64, u64)> {
    pixels.map_values(|pixel: u32| (pixel as u64, 0u64))
}

/// A colour is as frequent among the pairs as among the pixels.
proof fn lemma_pairs_keep_counts(pixels: Seq<u32>, color: u32)
    ensures
        as_pairs(pixels).to_multiset().count((color as u64, 0u64)) == share(pixels, color),
    decreases pixels.len(),
{
    broadcast use vstd::seq_lib::group_to_multiset_ensures;

    if pixels.len() == 0 {
        assert(as_pairs(pixels) =~= Seq::empty());
        assert(pixels =~= Seq::empty());
    } else {
        let rest = pixels.drop_last();
        lemma_pairs_keep_counts(rest, color);
        assert(pixels =~= rest.push(pixels.last()));
        assert(as_pairs(pixels) =~= as_pairs(rest).push((pixels.last() as u64, 0u64)));
    }
}

/// Every pair stands for a colour.
proof fn lemma_pairs_are_colors(pixels: Seq<u32>, pair: (u64, u64))
    requires
        as_pairs(pixels).to_multiset().count(pair) > 0,
    ensures
        pair.1 == 0,
        pair.0 <= u32::MAX,
{
    broadcast use vstd::seq_lib::group_to_multiset_ensures;

    assert(as_pairs(pixels).contains(pair));
}

/// The colours of a picture by number, each with the pixels that have it.
fn color_counts(pixels: &Vec<u32>) -> (counts: Vec<(u32, u32)>)
    requires
        pixels@.len() <= u32::MAX,
    ensures
        forall|i: int|
            0 <= i < counts@.len() ==> (#[trigger] counts@[i]).1 > 0 && counts@[i].1 == share(
                pixels@,
                counts@[i].0,
            ),
        forall|color: u32|
            #[trigger] share(pixels@, color) > 0 ==> exists|i: int|
                0 <= i < counts@.len() && counts@[i].0 == color,
        forall|i: int, j: int|
            0 <= i < j < counts@.len() ==> (#[trigger] counts@[i]).0 < (#[trigger] counts@[j]).0,
{
    let mut pairs: Vec<(u64, u64)> = Vec::new();
    let mut i: usize = 0;
    while i < pixels.len()
        invariant
            i <= pixels@.len(),
            pairs@.len() == i,
            forall|k: int| 0 <= k < i ==> #[trigger] pairs@[k] == (pixels@[k] as u64, 0u64),
        decreases pixels@.len() - i,
    {
        pairs.push((pixels[i] as u64, 0));
        i = i + 1;
    }
    assert(pairs@ =~= as_pairs(pixels@));
    let rows: Vec<((u64, u64), u64)> = tally(&pairs);
    let mut counts: Vec<(u32, u32)> = Vec::new();
    let mut k: usize = 0;
    while k < rows.len()
        invariant
            k <= rows@.len(),
            pixels@.len() <= u32::MAX,
            pairs@ == as_pairs(pixels@),
            pairs@.len() == pixels@.len(),
            is_tally(rows@, pairs@),
            forall|n: int| 0 <= n < rows@.len() ==> (#[trigger] rows@[n]).1 <= pairs@.len(),
            counts@.len() == k,
            forall|n: int|
                0 <= n < k ==> (#[trigger] counts@[n]).0 == rows@[n].0.0 && counts@[n].1
                    == rows@[n].1 && rows@[n].0.1 == 0,
        decreases rows@.len() - k,
    {
        proof {
            assert(rows@[k as int].1 > 0);
            lemma_pairs_are_colors(pixels@, rows@[k as int].0);
        }
        counts.push((rows[k].0.0 as u32, rows[k].1 as u32));
        k = k + 1;
    }
    assert forall|n: int| 0 <= n < counts@.len() implies (#[trigger] counts@[n]).1 > 0
        && counts@[n].1 == share(pixels@, counts@[n].0) by {
        lemma_pairs_keep_counts(pixels@, counts@[n].0);
        assert(rows@[n].1 > 0);
        assert(rows@[n].0 == (counts@[n].0 as u64, 0u64));
    }
    assert forall|color: u32| #[trigger] share(pixels@, color) > 0 implies exists|n: int|
        0 <= n < counts@.len() && counts@[n].0 == color by {
        lemma_pairs_keep_counts(pixels@, color);
        let pair = (color as u64, 0u64);
        assert(pairs@.to_multiset().count(pair) > 0);
        let m = choose|m: int| 0 <= m < rows@.len() && (#[trigger] rows@[m]).0 == pair;
        assert(counts@[m].0 == color);
    }
    assert forall|n: int, m: int| 0 <= n < m < counts@.len() implies (#[trigger] counts@[n]).0 < (
    #[trigger] counts@[m]).0 by {
        assert(pair_before(rows@[n].0, rows@[m].0));
    }
    counts
}

/// The colours of a picture, each with the pixels that have it, in order.
pub fn ranked_colors(pixels: &Vec<u32>) -> (ranking: Vec<(u32, u32)>)
    requires
        pixels@.len() <= u32::MAX,
    ensures
        is_ranking(ranking@, pixels@),
        ranking@ == ranking_of(pixels@),
{
    let counts: Vec<(u32, u32)> = color_counts(pixels);
    let mut keys: Vec<(u64, u64)> = Vec::new();
    let mut i: usize = 0;
    while i < counts.len()
        invariant
            i <= counts@.len(),
            keys@.len() == i,
            forall|k: int| 0 <= k < i ==> #[trigger] keys@[k] == rank_key(counts@[k]),
        decreases counts@.len() - i,
    {
        keys.push(((0xffff_ffff - counts[i].1) as u64, counts[i].0 as u64));
        i = i + 1;
    }
    let sorted: Vec<(u64, u64)> = sort_pairs(&keys);
    let mut ranking: Vec<(u32, u32)> = Vec::new();
    let mut k: usize = 0;
    proof {
        assert forall|n: int| 0 <= n < sorted@.len() implies ranks_one_of(
            counts@,
            #[trigger] sorted@[n],
        ) by {
            broadcast use vstd::seq_lib::group_to_multiset_ensures;

            assert(sorted@.contains(sorted@[n]));
            assert(sorted@.to_multiset().count(sorted@[n]) > 0);
            assert(keys@.contains(sorted@[n]));
            let m = choose|m: int| 0 <= m < keys@.len() && keys@[m] == sorted@[n];
            assert(sorted@[n] == rank_key(counts@[m]));
        }
    }
    while k < sorted.len()
        invariant
            k <= sorted@.len(),
            ranking@.len() == k,
            forall|n: int|
                0 <= n < sorted@.len() ==> ranks_one_of(counts@, #[trigger] sorted@[n]),
            forall|n: int| 0 <= n < k ==> rank_key(#[trigger] ranking@[n]) == sorted@[n],
        decreases sorted@.len() - k,
    {
        assert(ranks_one_of(counts@, sorted@[k as int]));
        ranking.push((sorted[k].1 as u32, 0xffff_ffff - sorted[k].0 as u32));
        k = k + 1;
    }
    proof {
        let rank = ranking@;
        assert forall|n: int| 0 <= n < rank.len() implies exists|m: int|
            0 <= m < counts@.len() && (#[trigger] rank[n]) == (#[trigger] counts@[m]) by {
            assert(ranks_one_of(counts@, sorted@[n]));
            let m = choose|m: int|
                0 <= m < counts@.len() && sorted@[n] == rank_key(#[trigger] counts@[m]);
            assert(rank_key(rank[n]) == rank_key(counts@[m]));
            assert(rank[n] == counts@[m]);
        }
        assert forall|n: int| 0 <= n < rank.len() implies (#[trigger] rank[n]).1 > 0 && rank[n].1
            == share(pixels@, rank[n].0) by {
            let m = choose|m: int| 0 <= m < counts@.len() && rank[n] == (#[trigger] counts@[m]);
            assert(counts@[m].1 > 0);
        }
        assert forall|color: u32| #[trigger] share(pixels@, color) > 0 implies rank.contains(
            (color, share(pixels@, color) as u32),
        ) by {
            broadcast use vstd::seq_lib::group_to_multiset_ensures;

            let m = choose|m: int| 0 <= m < counts@.len() && counts@[m].0 == color;
            assert(counts@[m].1 == share(pixels@, color));
            assert(keys@.contains(keys@[m]));
            assert(keys@.to_multiset().count(keys@[m]) > 0);
            assert(sorted@.contains(keys@[m]));
            let at = choose|at: int| 0 <= at < sorted@.len() && sorted@[at] == keys@[m];
            assert(rank_key(rank[at]) == rank_key(counts@[m]));
            assert(rank[at] == counts@[m]);
        }
        assert forall|n: int, m: int| 0 <= n < m < rank.len() implies color_before(
            #[trigger] rank[n],
            #[trigger] rank[m],
        ) by {
            assert(pair_le(sorted@[n], sorted@[m]));
            assert(rank_key(rank[n]) == sorted@[n]);
            assert(rank_key(rank[m]) == sorted@[m]);
            lemma_keys_are_distinct(counts@, keys@, sorted@, n, m);
        }
        assert(is_ranking(rank, pixels@));
        law_a_ranking_is_unique(rank, ranking_of(pixels@), pixels@);
    }
    ranking
}

/// The pair that orders a colour: more pixels come first.
spec fn rank_key(entry: (u32, u32)) -> (u64, u64) {
    ((0xffff_ffff - entry.1) as u64, entry.0 as u64)
}

/// Whether a pair orders one of the colours.
spec fn ranks_one_of(counts: Seq<(u32, u32)>, key: (u64, u64)) -> bool {
    exists|m: int| 0 <= m < counts.len() && key == rank_key(#[trigger] counts[m])
}

/// No two colours have the same place in the order.
proof fn lemma_keys_are_distinct(
    counts: Seq<(u32, u32)>,
    keys: Seq<(u64, u64)>,
    sorted: Seq<(u64, u64)>,
    n: int,
    m: int,
)
    requires
        keys.len() == counts.len(),
        forall|k: int| 0 <= k < keys.len() ==> #[trigger] keys[k] == rank_key(counts[k]),
        forall|i: int, j: int|
            0 <= i < j < counts.len() ==> (#[trigger] counts[i]).0 < (#[trigger] counts[j]).0,
        sorted.to_multiset() == keys.to_multiset(),
        0 <= n < m < sorted.len(),
    ensures
        sorted[n] != sorted[m],
{
    broadcast use vstd::seq_lib::group_to_multiset_ensures;

    assert(keys.no_duplicates()) by {
        assert forall|i: int, j: int| 0 <= i < keys.len() && 0 <= j < keys.len() && i
            != j implies keys[i] != keys[j] by {
            if i < j {
                assert(counts[i].0 < counts[j].0);
            } else {
                assert(counts[j].0 < counts[i].0);
            }
        }
    }
    keys.lemma_multiset_has_no_duplicates();
    if sorted[n] == sorted[m] {
        let x = sorted[n];
        let front = sorted.take(m);
        assert(front[n] == x);
        assert(front.contains(x));
        assert(front.to_multiset().count(x) > 0);
        let upto = sorted.take(m + 1);
        assert(upto =~= front.push(x));
        assert(upto.to_multiset().count(x) > 1);
        assert(sorted =~= upto + sorted.skip(m + 1));
        vstd::seq_lib::lemma_multiset_commutative(upto, sorted.skip(m + 1));
        assert(sorted.to_multiset().count(x) > 1);
        assert(keys.to_multiset().contains(x));
    }
}

// ---------------------------------------------------------------------------
// Laws of pictures
// ---------------------------------------------------------------------------

/// The three bytes of a pixel are its colour, red counting most and blue least.
pub proof fn law_red_comes_first(pixel: u32)
    ensures
        rgb(pixel).len() == 3,
        rgb(pixel)[0] * 0x1_0000 + rgb(pixel)[1] * 0x100 + rgb(pixel)[2] == pixel % 0x100_0000,
{
}

/// The heading of a PPM file has three lines: its kind, its width before its height, and
/// the largest value of a colour.
pub proof fn law_a_heading_says_width_and_height(width: nat, height: nat)
    ensures
        split(ppm_heading(width, height), '\n') == seq![
            seq!['P', '6'],
            decimal(width) + seq![' '] + decimal(height),
            seq!['2', '5', '5'],
            Seq::empty(),
        ],
{
    reveal_strlit("P6\n");
    reveal_strlit(" ");
    reveal_strlit("\n255\n");
    assert("P6\n"@ =~= seq!['P', '6', '\n']);
    assert(" "@ =~= seq![' ']);
    assert("\n255\n"@ =~= seq!['\n', '2', '5', '5', '\n']);
    let kind = seq!['P', '6'];
    let size = decimal(width) + seq![' '] + decimal(height);
    let most = seq!['2', '5', '5'];
    let nothing = Seq::<char>::empty();
    lemma_numerals_hold_digits(width, 0, '\n');
    lemma_numerals_hold_digits(height, 0, '\n');
    assert(!seq![' '].contains('\n'));
    lemma_neither_holds(decimal(width), seq![' '], '\n');
    lemma_neither_holds(decimal(width) + seq![' '], decimal(height), '\n');
    assert(!kind.contains('\n'));
    assert(!most.contains('\n'));
    let end = most + seq!['\n'] + nothing;
    let middle = size + seq!['\n'] + end;
    assert(ppm_heading(width, height) =~= kind + seq!['\n'] + middle);
    lemma_split_at_the_first(kind, middle, '\n');
    lemma_split_at_the_first(size, end, '\n');
    lemma_split_at_the_first(most, nothing, '\n');
    lemma_split_without_any(nothing, '\n');
    assert(seq![kind] + (seq![size] + (seq![most] + seq![nothing])) =~= seq![
        kind,
        size,
        most,
        nothing,
    ]);
}

/// Lit pixels are counted one by one: every pixel that is not black, and no other.
pub proof fn law_lit_pixels_are_counted_one_by_one(a: Seq<u32>, b: Seq<u32>, one: u32)
    ensures
        lit(a + b) == lit(a) + lit(b),
        lit(seq![one]) == if one == 0 {
            0nat
        } else {
            1
        },
{
    Seq::filter_distributes_over_add(a, b, |pixel: u32| pixel != 0);
    reveal(Seq::filter);
    assert(seq![one].drop_last() =~= Seq::empty());
    assert(seq![one].drop_last().filter(|pixel: u32| pixel != 0).len() == 0);
}

/// Glyphs are counted one by one: every character but white space.
pub proof fn law_glyphs_are_counted_one_by_one(a: Seq<char>, b: Seq<char>, one: char)
    ensures
        glyphs(a + b) == glyphs(a) + glyphs(b),
        glyphs(seq![one]) == if is_space(one) {
            0nat
        } else {
            1
        },
        is_space(' ') && is_space('\n') && is_space('\r') && is_space('\t'),
{
    Seq::filter_distributes_over_add(a, b, |c: char| !is_space(c));
    reveal(Seq::filter);
    assert(seq![one].drop_last() =~= Seq::empty());
    assert(seq![one].drop_last().filter(|c: char| !is_space(c)).len() == 0);
}

} // verus!
