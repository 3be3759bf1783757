//! The report of the sampling profiler.
//!
//! A report is a list of [`Piece`]s: texts, and shares whose percentages are worked
//! out where the report is written.

use vstd::prelude::*;

use crate::order::sort_pairs;
#[allow(unused_imports)]
use crate::order::{
    counted_in_all, head, law_a_tally_counts_every_pair_once, lemma_a_list_has_a_tally,
    sorted_form, tally_of,
};
use crate::ranking::{sums_by_number, Charges, Row};
#[allow(unused_imports)]
use crate::ranking::{
    charged_in_all, given_in_all, is_name_ranking, law_every_charge_is_ranked, lemma_given_grows,
    name_ranking, row_of, rows_of, sum_table, Charge, Key,
};
use crate::riprofile::{
    beyond_extent, conservation_mismatch, count_addresses, count_phases, Symbol, NO_SYMBOL,
};
#[allow(unused_imports)]
use crate::riprofile::{
    address_counts, address_pairs, agree, disagreement, past_end, phase_counts, phase_pairs,
};
use crate::text::{chars_of, decimal_text, pad_left, prefixed_hex_text, slice_text};
#[allow(unused_imports)]
use crate::text::{decimal, padded, prefixed_hex};

verus! {

/// The names that a table of functions shows.
pub const TOP_FUNCTIONS: usize = 60;

/// The names that a table of files shows.
pub const TOP_FILES: usize = 40;

/// The names that a table of lines shows.
pub const TOP_LINES: usize = 120;

/// The addresses behind their symbol's end that are shown.
pub const TOP_BEYOND: usize = 40;

/// The disagreements that are shown.
pub const TOP_MISMATCHES: usize = 20;

// ---------------------------------------------------------------------------
// Pieces
// ---------------------------------------------------------------------------

/// A piece of a report.
#[derive(Debug, PartialEq, Eq)]
pub enum Piece {
    /// A text.
    Text(String),
    /// `part` of `whole` in percent, with `places` decimals, in at least `width`
    /// characters. Of nothing the share is that of one.
    Share { part: u64, whole: u64, places: u8, width: u8 },
}

/// A piece as contracts speak of it.
pub enum PieceView {
    Text(Seq<char>),
    Share { part: u64, whole: u64, places: u8, width: u8 },
}

impl View for Piece {
    type V = PieceView;

    open spec fn view(&self) -> PieceView {
        match self {
            Piece::Text(text) => PieceView::Text(text@),
            Piece::Share { part, whole, places, width } => PieceView::Share {
                part: *part,
                whole: *whole,
                places: *places,
                width: *width,
            },
        }
    }
}

/// What a list of pieces is.
pub open spec fn pieces_of(pieces: Seq<Piece>) -> Seq<PieceView> {
    pieces.map_values(|piece: Piece| piece@)
}

/// Lists of pieces one behind the other.
proof fn lemma_pieces_join(a: Seq<Piece>, b: Seq<Piece>)
    ensures
        pieces_of(a + b) == pieces_of(a) + pieces_of(b),
{
    assert(pieces_of(a + b) =~= pieces_of(a) + pieces_of(b));
}

/// Put a list of pieces behind another.
fn follow(pieces: &mut Vec<Piece>, more: Vec<Piece>)
    ensures
        pieces_of(final(pieces)@) == pieces_of(old(pieces)@) + pieces_of(more@),
{
    let mut more: Vec<Piece> = more;
    proof {
        lemma_pieces_join(pieces@, more@);
    }
    pieces.append(&mut more);
}

/// Put a text behind a list of pieces.
fn say(pieces: &mut Vec<Piece>, text: String)
    ensures
        pieces_of(final(pieces)@) == pieces_of(old(pieces)@).push(PieceView::Text(text@)),
{
    let ghost before = pieces@;
    let ghost words = text@;
    pieces.push(Piece::Text(text));
    assert(pieces_of(pieces@) =~= pieces_of(before).push(PieceView::Text(words)));
}

/// Put a share behind a list of pieces.
fn weigh(pieces: &mut Vec<Piece>, part: u64, whole: u64, places: u8, width: u8)
    ensures
        pieces_of(final(pieces)@) == pieces_of(old(pieces)@).push(
            PieceView::Share { part, whole, places, width },
        ),
{
    let ghost before = pieces@;
    pieces.push(Piece::Share { part, whole, places, width });
    assert(pieces_of(pieces@) =~= pieces_of(before).push(
        PieceView::Share { part, whole, places, width },
    ));
}

// ---------------------------------------------------------------------------
// Addresses
// ---------------------------------------------------------------------------

/// A function that was inlined, and where.
#[derive(Debug, PartialEq, Eq)]
pub struct Frame {
    pub name: String,
    pub site: String,
}

/// What the symbol server said of one address: its symbol and its line, its symbol
/// asked for in a second way, and the functions that are inlined there, the innermost
/// first.
#[derive(Debug)]
pub struct AddressInfo {
    pub rip: u64,
    pub symbol: Option<Symbol>,
    pub line: Option<String>,
    pub physical: Option<Symbol>,
    pub chain: Vec<Frame>,
}

/// What the symbol server said of one step into a chain of inlined functions.
#[derive(Debug, PartialEq, Eq)]
pub struct FrameAnswer {
    pub name: Option<String>,
    pub line: Option<String>,
}

/// A function and where it is, as contracts speak of them.
pub open spec fn frame_key(frame: Frame) -> Key {
    (frame.name@, frame.site@)
}

/// The functions that the answers name, in their order; one without a line is where
/// its own name says.
pub open spec fn named_frames(answers: Seq<FrameAnswer>) -> Seq<Key>
    decreases answers.len(),
{
    if answers.len() == 0 {
        Seq::empty()
    } else {
        let rest = named_frames(answers.drop_last());
        match answers.last().name {
            Some(name) => rest.push(
                (
                    name@,
                    match answers.last().line {
                        Some(line) => line@,
                        None => name@ + " (no line info)"@,
                    },
                ),
            ),
            None => rest,
        }
    }
}

/// The functions that are inlined at an address, from the answers to every step, the
/// innermost first.
pub fn inline_chain(answers: &Vec<FrameAnswer>) -> (chain: Vec<Frame>)
    ensures
        chain@.map_values(|frame: Frame| frame_key(frame)) == named_frames(answers@),
{
    let mut chain: Vec<Frame> = Vec::new();
    let mut i: usize = 0;
    proof {
        assert(answers@.take(0) =~= Seq::empty());
        assert(chain@.map_values(|frame: Frame| frame_key(frame)) =~= Seq::empty());
    }
    while i < answers.len()
        invariant
            i <= answers@.len(),
            chain@.map_values(|frame: Frame| frame_key(frame)) == named_frames(
                answers@.take(i as int),
            ),
        decreases answers@.len() - i,
    {
        assert(answers@.take(i + 1).drop_last() =~= answers@.take(i as int));
        let ghost before = chain@.map_values(|frame: Frame| frame_key(frame));
        match &answers[i].name {
            Some(name) => {
                let site: String = match &answers[i].line {
                    Some(line) => line.clone(),
                    None => {
                        let mut site: String = name.clone();
                        site.append(" (no line info)");
                        site
                    },
                };
                let frame: Frame = Frame { name: name.clone(), site };
                let ghost key = frame_key(frame);
                chain.push(frame);
                assert(chain@.map_values(|frame: Frame| frame_key(frame)) =~= before.push(key));
            },
            None => {},
        }
        i = i + 1;
    }
    assert(answers@.take(answers@.len() as int) =~= answers@);
    chain
}

/// The function that an address is given to.
pub open spec fn function_of(info: AddressInfo) -> Seq<char> {
    match info.symbol {
        Some(s) => s.name@,
        None => NO_SYMBOL@,
    }
}

/// The line that an address is given to.
pub open spec fn site_of(info: AddressInfo) -> Seq<char> {
    match info.line {
        Some(line) => line@,
        None => function_of(info) + " (no line info)"@,
    }
}

/// What stands before the last colon of a text, or the text where it has none.
pub open spec fn before_last_colon(text: Seq<char>) -> Option<Seq<char>>
    decreases text.len(),
{
    if text.len() == 0 {
        None
    } else if text.last() == ':' {
        Some(text.drop_last())
    } else {
        before_last_colon(text.drop_last())
    }
}

/// The file that an address is given to.
pub open spec fn file_of(info: AddressInfo) -> Seq<char> {
    match before_last_colon(site_of(info)) {
        Some(file) => file,
        None => site_of(info),
    }
}

/// The innermost function at an address, and where it is.
pub open spec fn innermost_of(info: AddressInfo) -> Key {
    if info.chain@.len() > 0 {
        (info.chain@[0].name@, info.chain@[0].site@)
    } else {
        (
            match info.physical {
                Some(s) => s.name@,
                None => NO_SYMBOL@,
            },
            "(physical)"@,
        )
    }
}

/// The addresses are in order, each once.
pub open spec fn ascending(infos: Seq<AddressInfo>) -> bool {
    forall|i: int, j: int|
        0 <= i < j < infos.len() ==> (#[trigger] infos[i]).rip < (#[trigger] infos[j]).rip
}

/// Whether an address is among these.
pub open spec fn is_known(infos: Seq<AddressInfo>, rip: u64) -> bool {
    exists|i: int| 0 <= i < infos.len() && (#[trigger] infos[i]).rip == rip
}

/// What is known of an address.
pub open spec fn info_at(infos: Seq<AddressInfo>, rip: u64) -> Option<AddressInfo> {
    if is_known(infos, rip) {
        Some(infos[choose|i: int| 0 <= i < infos.len() && (#[trigger] infos[i]).rip == rip])
    } else {
        None
    }
}

/// The place of an address.
fn find_info(infos: &Vec<AddressInfo>, rip: u64) -> (at: Option<usize>)
    requires
        ascending(infos@),
    ensures
        match at {
            Some(i) => i < infos@.len() && info_at(infos@, rip) == Some(infos@[i as int])
                && infos@[i as int].rip == rip,
            None => info_at(infos@, rip) is None,
        },
{
    let mut lo: usize = 0;
    let mut hi: usize = infos.len();
    while lo < hi
        invariant
            lo <= hi <= infos@.len(),
            ascending(infos@),
            forall|i: int| 0 <= i < lo ==> (#[trigger] infos@[i]).rip < rip,
            forall|i: int| hi <= i < infos@.len() ==> (#[trigger] infos@[i]).rip >= rip,
        decreases hi - lo,
    {
        let mid: usize = lo + (hi - lo) / 2;
        if infos[mid].rip < rip {
            assert forall|i: int| 0 <= i < mid + 1 implies (#[trigger] infos@[i]).rip < rip by {
                if i < mid {
                    assert(infos@[i].rip < infos@[mid as int].rip);
                }
            }
            lo = mid + 1;
        } else {
            assert forall|i: int| mid <= i < infos@.len() implies (#[trigger] infos@[i]).rip
                >= rip by {
                if i > mid {
                    assert(infos@[mid as int].rip < infos@[i].rip);
                }
            }
            hi = mid;
        }
    }
    if lo < infos.len() && infos[lo].rip == rip {
        proof {
            assert(is_known(infos@, rip));
            let k = choose|i: int| 0 <= i < infos@.len() && (#[trigger] infos@[i]).rip == rip;
            if k < lo {
                assert(infos@[k].rip < infos@[lo as int].rip);
            } else if k > lo {
                assert(infos@[lo as int].rip < infos@[k].rip);
            }
        }
        Some(lo)
    } else {
        proof {
            if is_known(infos@, rip) {
                let k = choose|i: int| 0 <= i < infos@.len() && (#[trigger] infos@[i]).rip == rip;
                assert(k < lo || k >= lo);
                if k > lo {
                    assert(infos@[lo as int].rip < infos@[k].rip);
                }
            }
        }
        None
    }
}

/// The function that an address is given to.
fn function_text(info: &AddressInfo) -> (text: String)
    ensures
        text@ == function_of(*info),
{
    match &info.symbol {
        Some(s) => s.name.clone(),
        None => NO_SYMBOL.to_owned(),
    }
}

/// The line that an address is given to.
fn line_text(info: &AddressInfo) -> (text: String)
    ensures
        text@ == site_of(*info),
{
    match &info.line {
        Some(line) => line.clone(),
        None => {
            let mut text: String = function_text(info);
            text.append(" (no line info)");
            text
        },
    }
}

/// The file that an address is given to.
fn file_text(info: &AddressInfo) -> (text: String)
    ensures
        text@ == file_of(*info),
{
    let site: String = line_text(info);
    let chars: Vec<char> = chars_of(site.as_str());
    let mut end: usize = chars.len();
    assert(chars@.take(end as int) =~= chars@);
    while end > 0
        invariant
            end <= chars@.len(),
            before_last_colon(chars@) == before_last_colon(chars@.take(end as int)),
            chars@ == site_of(*info),
        decreases end,
    {
        assert(chars@.take(end as int).drop_last() =~= chars@.take(end - 1));
        if chars[end - 1] == ':' {
            assert(chars@.subrange(0, end - 1) =~= chars@.take(end - 1));
            return slice_text(&chars, 0, end - 1);
        }
        end = end - 1;
    }
    site
}

// ---------------------------------------------------------------------------
// Charges
// ---------------------------------------------------------------------------

/// What the samples of an address are charged to.
#[derive(Clone, Copy, Debug, PartialEq, Eq, Structural)]
pub enum Column {
    Function,
    File,
    Line,
    Innermost,
}

/// The name that an address is charged to.
pub open spec fn name_in(column: Column, info: AddressInfo) -> Key {
    match column {
        Column::Function => (function_of(info), ""@),
        Column::File => (file_of(info), ""@),
        Column::Line => (site_of(info), ""@),
        Column::Innermost => innermost_of(info),
    }
}

/// All samples of the counts.
pub open spec fn samples_in(counts: Seq<(u64, u64)>) -> int {
    given_in_all(counts)
}

/// The charges of a column: the samples of every known address.
pub open spec fn column_charges(
    counts: Seq<(u64, u64)>,
    infos: Seq<AddressInfo>,
    column: Column,
) -> Seq<Charge>
    decreases counts.len(),
{
    if counts.len() == 0 {
        Seq::empty()
    } else {
        let rest = column_charges(counts.drop_last(), infos, column);
        match info_at(infos, counts.last().0) {
            Some(info) => rest.push((name_in(column, info), counts.last().1)),
            None => rest,
        }
    }
}

/// The charges of every function that is inlined at one address.
pub open spec fn chain_charges(chain: Seq<Frame>, n: u64) -> Seq<Charge> {
    chain.map_values(|frame: Frame| ((frame.name@, frame.site@), n))
}

/// The charges of every function that is inlined: the samples of every known address,
/// once for each.
pub open spec fn inclusive_charges(counts: Seq<(u64, u64)>, infos: Seq<AddressInfo>) -> Seq<Charge>
    decreases counts.len(),
{
    if counts.len() == 0 {
        Seq::empty()
    } else {
        let rest = inclusive_charges(counts.drop_last(), infos);
        match info_at(infos, counts.last().0) {
            Some(info) => rest + chain_charges(info.chain@, counts.last().1),
            None => rest,
        }
    }
}

/// How many functions are inlined at every known address, with its samples.
pub open spec fn depth_items(counts: Seq<(u64, u64)>, infos: Seq<AddressInfo>) -> Seq<(u64, u64)>
    decreases counts.len(),
{
    if counts.len() == 0 {
        Seq::empty()
    } else {
        let rest = depth_items(counts.drop_last(), infos);
        match info_at(infos, counts.last().0) {
            Some(info) => rest.push((info.chain@.len() as u64, counts.last().1)),
            None => rest,
        }
    }
}

/// Whether every sum of a set of tables can be counted in 64 bits.
pub open spec fn tables_fit(counts: Seq<(u64, u64)>, infos: Seq<AddressInfo>) -> bool {
    samples_in(counts) <= u64::MAX && charged_in_all(inclusive_charges(counts, infos)) <= u64::MAX
}

/// A column charges no more than all samples.
proof fn lemma_column_is_bounded(counts: Seq<(u64, u64)>, infos: Seq<AddressInfo>, column: Column)
    ensures
        0 <= charged_in_all(column_charges(counts, infos, column)) <= samples_in(counts),
    decreases counts.len(),
{
    if counts.len() > 0 {
        lemma_column_is_bounded(counts.drop_last(), infos, column);
        let rest = column_charges(counts.drop_last(), infos, column);
        match info_at(infos, counts.last().0) {
            Some(info) => {
                let more = rest.push((name_in(column, info), counts.last().1));
                assert(more.drop_last() =~= rest);
            },
            None => {},
        }
    }
}

/// The depths take no more than all samples.
proof fn lemma_depths_are_bounded(counts: Seq<(u64, u64)>, infos: Seq<AddressInfo>)
    ensures
        0 <= given_in_all(depth_items(counts, infos)) <= samples_in(counts),
    decreases counts.len(),
{
    if counts.len() > 0 {
        lemma_depths_are_bounded(counts.drop_last(), infos);
        let rest = depth_items(counts.drop_last(), infos);
        match info_at(infos, counts.last().0) {
            Some(info) => {
                let more = rest.push((info.chain@.len() as u64, counts.last().1));
                assert(more.drop_last() =~= rest);
            },
            None => {},
        }
    }
}

/// What is charged in all, of two lists one behind the other.
proof fn lemma_charges_join(a: Seq<Charge>, b: Seq<Charge>)
    ensures
        charged_in_all(a + b) == charged_in_all(a) + charged_in_all(b),
        charged_in_all(b) >= 0,
    decreases b.len(),
{
    if b.len() == 0 {
        assert(a + b =~= a);
    } else {
        lemma_charges_join(a, b.drop_last());
        assert((a + b).drop_last() =~= a + b.drop_last());
    }
}

/// Fewer counts charge no more.
proof fn lemma_inclusive_grows(counts: Seq<(u64, u64)>, infos: Seq<AddressInfo>, n: int)
    requires
        0 <= n <= counts.len(),
    ensures
        0 <= charged_in_all(inclusive_charges(counts.take(n), infos)) <= charged_in_all(
            inclusive_charges(counts, infos),
        ),
    decreases counts.len(),
{
    if n == counts.len() {
        assert(counts.take(n) =~= counts);
        lemma_charges_join(Seq::empty(), inclusive_charges(counts, infos));
    } else {
        let rest = counts.drop_last();
        lemma_inclusive_grows(rest, infos, n);
        assert(rest.take(n) =~= counts.take(n));
        match info_at(infos, counts.last().0) {
            Some(info) => {
                lemma_charges_join(
                    inclusive_charges(rest, infos),
                    chain_charges(info.chain@, counts.last().1),
                );
            },
            None => {},
        }
    }
}

/// The charges of a column.
fn charge_column(counts: &Vec<(u64, u64)>, infos: &Vec<AddressInfo>, column: Column) -> (charges:
    Charges)
    requires
        ascending(infos@),
        samples_in(counts@) <= u64::MAX,
    ensures
        charges.wf(),
        charges.made() == column_charges(counts@, infos@, column),
{
    let mut charges: Charges = Charges::new();
    let mut i: usize = 0;
    assert(counts@.take(0) =~= Seq::empty());
    while i < counts.len()
        invariant
            i <= counts@.len(),
            ascending(infos@),
            samples_in(counts@) <= u64::MAX,
            charges.wf(),
            charges.made() == column_charges(counts@.take(i as int), infos@, column),
        decreases counts@.len() - i,
    {
        proof {
            assert(counts@.take(i + 1).drop_last() =~= counts@.take(i as int));
            lemma_given_grows(counts@, i + 1);
            lemma_column_is_bounded(counts@.take(i as int), infos@, column);
        }
        match find_info(infos, counts[i].0) {
            Some(at) => {
                let info: &AddressInfo = &infos[at];
                let n: u64 = counts[i].1;
                match column {
                    Column::Function => {
                        charges.charge(function_text(info).as_str(), "", n);
                    },
                    Column::File => {
                        charges.charge(file_text(info).as_str(), "", n);
                    },
                    Column::Line => {
                        charges.charge(line_text(info).as_str(), "", n);
                    },
                    Column::Innermost => {
                        if info.chain.len() > 0 {
                            charges.charge(
                                info.chain[0].name.as_str(),
                                info.chain[0].site.as_str(),
                                n,
                            );
                        } else {
                            match &info.physical {
                                Some(s) => {
                                    charges.charge(s.name.as_str(), "(physical)", n);
                                },
                                None => {
                                    charges.charge(NO_SYMBOL, "(physical)", n);
                                },
                            }
                        }
                    },
                }
            },
            None => {},
        }
        i = i + 1;
    }
    assert(counts@.take(counts@.len() as int) =~= counts@);
    charges
}

/// The charges of every function that is inlined.
fn charge_inclusive(counts: &Vec<(u64, u64)>, infos: &Vec<AddressInfo>) -> (charges: Charges)
    requires
        ascending(infos@),
        tables_fit(counts@, infos@),
    ensures
        charges.wf(),
        charges.made() == inclusive_charges(counts@, infos@),
{
    let mut charges: Charges = Charges::new();
    let mut i: usize = 0;
    assert(counts@.take(0) =~= Seq::empty());
    while i < counts.len()
        invariant
            i <= counts@.len(),
            ascending(infos@),
            tables_fit(counts@, infos@),
            charges.wf(),
            charges.made() == inclusive_charges(counts@.take(i as int), infos@),
        decreases counts@.len() - i,
    {
        proof {
            assert(counts@.take(i + 1).drop_last() =~= counts@.take(i as int));
            lemma_inclusive_grows(counts@, infos@, i + 1);
        }
        let ghost before = charges.made();
        match find_info(infos, counts[i].0) {
            Some(at) => {
                let info: &AddressInfo = &infos[at];
                let n: u64 = counts[i].1;
                let ghost chain = info.chain@;
                let ghost all = chain_charges(chain, n);
                let mut k: usize = 0;
                assert(before + all.take(0) =~= before);
                proof {
                    lemma_charges_join(before, all);
                }
                while k < info.chain.len()
                    invariant
                        k <= info.chain@.len(),
                        chain == info.chain@,
                        all == chain_charges(chain, n),
                        charged_in_all(before + all) <= u64::MAX,
                        charges.wf(),
                        charges.made() == before + all.take(k as int),
                    decreases info.chain@.len() - k,
                {
                    proof {
                        lemma_charges_join(before, all.take(k as int));
                        lemma_charges_join(before + all.take(k as int), all.skip(k as int));
                        assert(before + all =~= before + all.take(k as int) + all.skip(k as int));
                        lemma_charges_join(seq![all[k as int]], all.skip(k + 1));
                        assert(all.skip(k as int) =~= seq![all[k as int]] + all.skip(k + 1));
                        lemma_one_charge(all[k as int]);
                        assert(all.take(k + 1) =~= all.take(k as int).push(all[k as int]));
                        assert(before + all.take(k + 1) =~= (before + all.take(k as int)).push(
                            all[k as int],
                        ));
                    }
                    charges.charge(info.chain[k].name.as_str(), info.chain[k].site.as_str(), n);
                    k = k + 1;
                }
                assert(all.take(all.len() as int) =~= all);
            },
            None => {},
        }
        i = i + 1;
    }
    assert(counts@.take(counts@.len() as int) =~= counts@);
    charges
}

/// One charge in all.
proof fn lemma_one_charge(charge: Charge)
    ensures
        charged_in_all(seq![charge]) == charge.1,
{
    let one = seq![charge];
    assert(one.drop_last() =~= Seq::empty());
    assert(charged_in_all(one.drop_last()) == 0);
    assert(one.last() == charge);
}

/// How many functions are inlined at every known address.
fn depth_list(counts: &Vec<(u64, u64)>, infos: &Vec<AddressInfo>) -> (items: Vec<(u64, u64)>)
    requires
        ascending(infos@),
    ensures
        items@ == depth_items(counts@, infos@),
{
    let mut items: Vec<(u64, u64)> = Vec::new();
    let mut i: usize = 0;
    assert(counts@.take(0) =~= Seq::empty());
    while i < counts.len()
        invariant
            i <= counts@.len(),
            ascending(infos@),
            items@ == depth_items(counts@.take(i as int), infos@),
        decreases counts@.len() - i,
    {
        assert(counts@.take(i + 1).drop_last() =~= counts@.take(i as int));
        match find_info(infos, counts[i].0) {
            Some(at) => {
                items.push((infos[at].chain.len() as u64, counts[i].1));
            },
            None => {},
        }
        i = i + 1;
    }
    assert(counts@.take(counts@.len() as int) =~= counts@);
    items
}

/// All samples of the counts, where they can be counted in 64 bits.
fn count_samples(counts: &Vec<(u64, u64)>) -> (total: Option<u64>)
    ensures
        match total {
            Some(n) => n == samples_in(counts@),
            None => samples_in(counts@) > u64::MAX,
        },
{
    let mut total: u64 = 0;
    let mut i: usize = 0;
    assert(counts@.take(0) =~= Seq::empty());
    while i < counts.len()
        invariant
            i <= counts@.len(),
            total == samples_in(counts@.take(i as int)),
        decreases counts@.len() - i,
    {
        proof {
            assert(counts@.take(i + 1).drop_last() =~= counts@.take(i as int));
            lemma_given_grows(counts@, i + 1);
        }
        match total.checked_add(counts[i].1) {
            Some(sum) => {
                total = sum;
            },
            None => return None,
        }
        i = i + 1;
    }
    assert(counts@.take(counts@.len() as int) =~= counts@);
    Some(total)
}

// ---------------------------------------------------------------------------
// Tables
// ---------------------------------------------------------------------------

/// What a row says behind its share.
pub open spec fn row_text(row: Charge, with_part: bool) -> Seq<char> {
    "%  "@ + padded(decimal(row.1 as nat), 9, ' ') + "  "@ + row.0.0 + (if with_part {
        "  ("@ + row.0.1 + ")\n"@
    } else {
        "\n"@
    })
}

/// The rows of a table.
pub open spec fn row_pieces(rows: Seq<Charge>, total: u64, with_part: bool) -> Seq<PieceView>
    decreases rows.len(),
{
    if rows.len() == 0 {
        Seq::empty()
    } else {
        row_pieces(rows.drop_last(), total, with_part).push(
            PieceView::Share { part: rows.last().1, whole: total, places: 3, width: 7 },
        ).push(PieceView::Text(row_text(rows.last(), with_part)))
    }
}

/// A table: its heading, its first rows and an empty line.
pub open spec fn table_pieces(
    title: Seq<char>,
    charges: Seq<Charge>,
    top: int,
    total: u64,
    with_part: bool,
) -> Seq<PieceView> {
    seq![PieceView::Text("== "@ + title + " ==\n"@)] + row_pieces(
        head(name_ranking(charges), top),
        total,
        with_part,
    ) + seq![PieceView::Text("\n"@)]
}

/// The rows of the depths.
pub open spec fn depth_pieces(rows: Seq<(u64, u64)>, total: u64) -> Seq<PieceView>
    decreases rows.len(),
{
    if rows.len() == 0 {
        Seq::empty()
    } else {
        depth_pieces(rows.drop_last(), total).push(
            PieceView::Share { part: rows.last().1, whole: total, places: 3, width: 7 },
        ).push(
            PieceView::Text(
                "%  "@ + padded(decimal(rows.last().1 as nat), 9, ' ') + "  depth "@ + decimal(
                    rows.last().0 as nat,
                ) + "\n"@,
            ),
        )
    }
}

/// The tables of one set of counts.
pub open spec fn all_tables(counts: Seq<(u64, u64)>, infos: Seq<AddressInfo>) -> Seq<PieceView> {
    let total = samples_in(counts) as u64;
    table_pieces(
        "BY FUNCTION"@,
        column_charges(counts, infos, Column::Function),
        TOP_FUNCTIONS as int,
        total,
        false,
    ) + table_pieces(
        "BY FILE"@,
        column_charges(counts, infos, Column::File),
        TOP_FILES as int,
        total,
        false,
    ) + table_pieces(
        "BY FILE:LINE"@,
        column_charges(counts, infos, Column::Line),
        TOP_LINES as int,
        total,
        false,
    ) + inline_tables(counts, infos)
}

/// The tables of what is inlined.
pub open spec fn inline_tables(counts: Seq<(u64, u64)>, infos: Seq<AddressInfo>) -> Seq<PieceView> {
    let total = samples_in(counts) as u64;
    table_pieces(
        "INLINE EXCLUSIVE BY FUNCTION \u{2014} innermost frame owns the sample; sums to 100%"@,
        column_charges(counts, infos, Column::Innermost),
        TOP_FUNCTIONS as int,
        total,
        true,
    ) + table_pieces(
        "INLINE INCLUSIVE BY FUNCTION \u{2014} every frame in the chain is charged; sums to more than 100%"@,
        inclusive_charges(counts, infos),
        TOP_FUNCTIONS as int,
        total,
        true,
    ) + seq![
        PieceView::Text(
            "== CHAIN DEPTH HISTOGRAM \u{2014} inline frames returned per sampled address (0 = nothing inlined there) ==\n"@,
        ),
    ] + depth_pieces(sum_table(depth_items(counts, infos)), total) + seq![PieceView::Text("\n"@)]
}

/// A table.
fn table(title: &str, charges: &Charges, top: usize, total: u64, with_part: bool) -> (pieces: Vec<
    Piece,
>)
    requires
        charges.wf(),
    ensures
        pieces_of(pieces@) == table_pieces(title@, charges.made(), top as int, total, with_part),
{
    let rows: Vec<Row> = charges.ranked();
    let ghost ranking = rows_of(rows@);
    let n: usize = if rows.len() <= top {
        rows.len()
    } else {
        top
    };
    let ghost shown = head(ranking, top as int);
    let mut pieces: Vec<Piece> = Vec::new();
    assert(pieces_of(pieces@) =~= Seq::empty());
    let mut heading: String = "== ".to_owned();
    heading.append(title);
    heading.append(" ==\n");
    let ghost top_line = seq![PieceView::Text("== "@ + title@ + " ==\n"@)];
    say(&mut pieces, heading);
    assert(pieces_of(pieces@) =~= top_line);
    let mut i: usize = 0;
    proof {
        assert(shown.take(0) =~= Seq::empty());
        assert(top_line + row_pieces(shown.take(0), total, with_part) =~= top_line);
    }
    while i < n
        invariant
            i <= n <= rows@.len(),
            ranking == rows_of(rows@),
            shown == head(ranking, top as int),
            n == shown.len(),
            pieces_of(pieces@) == top_line + row_pieces(shown.take(i as int), total, with_part),
        decreases n - i,
    {
        proof {
            assert(shown.take(i + 1).drop_last() =~= shown.take(i as int));
            assert(shown.take(i + 1).last() == row_of(rows@[i as int]));
        }
        let row: &Row = &rows[i];
        let mut text: String = "%  ".to_owned();
        text.append(pad_left(decimal_text(row.charge).as_str(), 9, ' ').as_str());
        text.append("  ");
        text.append(row.name.as_str());
        if with_part {
            text.append("  (");
            text.append(row.part.as_str());
            text.append(")\n");
        } else {
            text.append("\n");
        }
        assert(text@ =~= row_text(row_of(*row), with_part));
        weigh(&mut pieces, row.charge, total, 3, 7);
        say(&mut pieces, text);
        i = i + 1;
        assert(pieces_of(pieces@) =~= top_line + row_pieces(shown.take(i as int), total, with_part));
    }
    assert(shown.take(shown.len() as int) =~= shown);
    say(&mut pieces, "\n".to_owned());
    assert(pieces_of(pieces@) =~= table_pieces(
        title@,
        charges.made(),
        top as int,
        total,
        with_part,
    ));
    pieces
}

/// The rows of the depths.
fn depth_rows(rows: &Vec<(u64, u64)>, total: u64) -> (pieces: Vec<Piece>)
    ensures
        pieces_of(pieces@) == depth_pieces(rows@, total),
{
    let mut pieces: Vec<Piece> = Vec::new();
    let mut i: usize = 0;
    proof {
        assert(rows@.take(0) =~= Seq::empty());
        assert(pieces_of(pieces@) =~= Seq::empty());
    }
    while i < rows.len()
        invariant
            i <= rows@.len(),
            pieces_of(pieces@) == depth_pieces(rows@.take(i as int), total),
        decreases rows@.len() - i,
    {
        assert(rows@.take(i + 1).drop_last() =~= rows@.take(i as int));
        let mut text: String = "%  ".to_owned();
        text.append(pad_left(decimal_text(rows[i].1).as_str(), 9, ' ').as_str());
        text.append("  depth ");
        text.append(decimal_text(rows[i].0).as_str());
        text.append("\n");
        weigh(&mut pieces, rows[i].1, total, 3, 7);
        say(&mut pieces, text);
        i = i + 1;
    }
    assert(rows@.take(rows@.len() as int) =~= rows@);
    pieces
}

/// The tables of what is inlined.
pub fn render_inline_views(counts: &Vec<(u64, u64)>, infos: &Vec<AddressInfo>) -> (pieces: Vec<
    Piece,
>)
    requires
        ascending(infos@),
        tables_fit(counts@, infos@),
    ensures
        pieces_of(pieces@) == inline_tables(counts@, infos@),
{
    let total: u64 = count_samples(counts).unwrap();
    proof {
        lemma_given_grows(counts@, 0);
        lemma_depths_are_bounded(counts@, infos@);
    }
    let mut pieces: Vec<Piece> = table(
        "INLINE EXCLUSIVE BY FUNCTION \u{2014} innermost frame owns the sample; sums to 100%",
        &charge_column(counts, infos, Column::Innermost),
        TOP_FUNCTIONS,
        total,
        true,
    );
    follow(
        &mut pieces,
        table(
            "INLINE INCLUSIVE BY FUNCTION \u{2014} every frame in the chain is charged; sums to more than 100%",
            &charge_inclusive(counts, infos),
            TOP_FUNCTIONS,
            total,
            true,
        ),
    );
    let ghost before = pieces_of(pieces@);
    say(
        &mut pieces,
        "== CHAIN DEPTH HISTOGRAM \u{2014} inline frames returned per sampled address (0 = nothing inlined there) ==\n".to_owned(),
    );
    assert(pieces_of(pieces@) =~= before + seq![
        PieceView::Text(
            "== CHAIN DEPTH HISTOGRAM \u{2014} inline frames returned per sampled address (0 = nothing inlined there) ==\n"@,
        ),
    ]);
    let depths: Vec<(u64, u64)> = sums_by_number(&depth_list(counts, infos));
    follow(&mut pieces, depth_rows(&depths, total));
    let ghost middle = pieces_of(pieces@);
    say(&mut pieces, "\n".to_owned());
    assert(pieces_of(pieces@) =~= middle + seq![PieceView::Text("\n"@)]);
    pieces
}

/// The tables of one set of counts.
pub fn render_tables(counts: &Vec<(u64, u64)>, infos: &Vec<AddressInfo>) -> (pieces: Vec<Piece>)
    requires
        ascending(infos@),
        tables_fit(counts@, infos@),
    ensures
        pieces_of(pieces@) == all_tables(counts@, infos@),
{
    let total: u64 = count_samples(counts).unwrap();
    proof {
        lemma_given_grows(counts@, 0);
    }
    let mut pieces: Vec<Piece> = table(
        "BY FUNCTION",
        &charge_column(counts, infos, Column::Function),
        TOP_FUNCTIONS,
        total,
        false,
    );
    follow(
        &mut pieces,
        table("BY FILE", &charge_column(counts, infos, Column::File), TOP_FILES, total, false),
    );
    follow(
        &mut pieces,
        table("BY FILE:LINE", &charge_column(counts, infos, Column::Line), TOP_LINES, total, false),
    );
    follow(&mut pieces, render_inline_views(counts, infos));
    pieces
}

/// Whether every sum of a set of tables can be counted in 64 bits.
pub fn sums_fit(counts: &Vec<(u64, u64)>, infos: &Vec<AddressInfo>) -> (fit: bool)
    requires
        ascending(infos@),
    ensures
        fit == tables_fit(counts@, infos@),
{
    if count_samples(counts).is_none() {
        return false;
    }
    let mut sum: u64 = 0;
    let mut i: usize = 0;
    assert(counts@.take(0) =~= Seq::empty());
    while i < counts.len()
        invariant
            i <= counts@.len(),
            ascending(infos@),
            sum == charged_in_all(inclusive_charges(counts@.take(i as int), infos@)),
        decreases counts@.len() - i,
    {
        proof {
            assert(counts@.take(i + 1).drop_last() =~= counts@.take(i as int));
            lemma_inclusive_grows(counts@, infos@, i + 1);
        }
        let ghost before = inclusive_charges(counts@.take(i as int), infos@);
        match find_info(infos, counts[i].0) {
            Some(at) => {
                let n: u64 = counts[i].1;
                let len: usize = infos[at].chain.len();
                let wide: u128 = {
                    assert(n * len <= u64::MAX * u64::MAX) by (nonlinear_arith)
                        requires
                            n <= u64::MAX,
                            len <= u64::MAX,
                    ;
                    n as u128 * len as u128
                };
                proof {
                    lemma_charges_join(before, chain_charges(infos@[at as int].chain@, n));
                    lemma_chain_charges(infos@[at as int].chain@, n);
                }
                if wide > (u64::MAX - sum) as u128 {
                    return false;
                }
                sum = sum + wide as u64;
            },
            None => {},
        }
        i = i + 1;
    }
    assert(counts@.take(counts@.len() as int) =~= counts@);
    true
}

/// A chain charges its samples once for each of its functions.
proof fn lemma_chain_charges(chain: Seq<Frame>, n: u64)
    ensures
        charged_in_all(chain_charges(chain, n)) == n * chain.len(),
    decreases chain.len(),
{
    let all = chain_charges(chain, n);
    if chain.len() == 0 {
        assert(n * chain.len() == 0) by (nonlinear_arith)
            requires
                chain.len() == 0,
        ;
    } else {
        lemma_chain_charges(chain.drop_last(), n);
        assert(all.drop_last() =~= chain_charges(chain.drop_last(), n));
        assert(n * chain.len() == n * (chain.len() - 1) + n) by (nonlinear_arith);
    }
}

/// Every sample of a run is counted once, by its address and by its phase: both counts
/// add up to the run.
pub proof fn law_every_sample_is_counted_once(samples: Seq<(u64, u32)>)
    requires
        samples.len() <= u64::MAX,
    ensures
        samples_in(address_counts(samples)) == samples.len(),
        counted_in_all(phase_counts(samples)) == samples.len(),
{
    lemma_a_list_has_a_tally(address_pairs(samples));
    lemma_a_list_has_a_tally(phase_pairs(samples));
    law_a_tally_counts_every_pair_once(tally_of(address_pairs(samples)), address_pairs(samples));
    law_a_tally_counts_every_pair_once(phase_counts(samples), phase_pairs(samples));
    let rows = tally_of(address_pairs(samples));
    lemma_sums_of_the_same_counts(rows, rows.len() as int);
    assert(rows.take(rows.len() as int) =~= rows);
    assert(address_counts(samples).take(rows.len() as int) =~= address_counts(samples));
}

/// Counts add up the same with half of their pairs left out.
proof fn lemma_sums_of_the_same_counts(rows: Seq<((u64, u64), u64)>, n: int)
    requires
        0 <= n <= rows.len(),
    ensures
        samples_in(rows.map_values(|e: ((u64, u64), u64)| (e.0.0, e.1)).take(n)) == counted_in_all(
            rows.take(n),
        ),
    decreases n,
{
    if n > 0 {
        let counts = rows.map_values(|e: ((u64, u64), u64)| (e.0.0, e.1));
        lemma_sums_of_the_same_counts(rows, n - 1);
        assert(counts.take(n).drop_last() =~= counts.take(n - 1));
        assert(rows.take(n).drop_last() =~= rows.take(n - 1));
    }
}

/// Where every address is known a column charges every sample once: its charges add up
/// to the whole.
pub proof fn law_a_column_charges_every_sample_once(
    counts: Seq<(u64, u64)>,
    infos: Seq<AddressInfo>,
    column: Column,
)
    requires
        forall|i: int| 0 <= i < counts.len() ==> is_known(infos, (#[trigger] counts[i]).0),
    ensures
        charged_in_all(column_charges(counts, infos, column)) == samples_in(counts),
        column_charges(counts, infos, column).len() == counts.len(),
    decreases counts.len(),
{
    if counts.len() > 0 {
        let rest = counts.drop_last();
        assert forall|i: int| 0 <= i < rest.len() implies is_known(
            infos,
            (#[trigger] rest[i]).0,
        ) by {
            assert(counts[i] == rest[i]);
        }
        law_a_column_charges_every_sample_once(rest, infos, column);
        assert(is_known(infos, counts[counts.len() - 1].0));
        let more = column_charges(counts, infos, column);
        assert(more.drop_last() =~= column_charges(rest, infos, column));
    }
}

/// Where every address is known the rows of a column are the ranking of its charges, and
/// they add up to the whole: every sample stands in one row.
pub proof fn law_the_rows_of_a_column_add_up(
    counts: Seq<(u64, u64)>,
    infos: Seq<AddressInfo>,
    column: Column,
)
    requires
        forall|i: int| 0 <= i < counts.len() ==> is_known(infos, (#[trigger] counts[i]).0),
        samples_in(counts) <= u64::MAX,
    ensures
        is_name_ranking(
            name_ranking(column_charges(counts, infos, column)),
            column_charges(counts, infos, column),
        ),
        charged_in_all(name_ranking(column_charges(counts, infos, column))) == samples_in(counts),
{
    law_a_column_charges_every_sample_once(counts, infos, column);
    law_every_charge_is_ranked(column_charges(counts, infos, column));
}

// ---------------------------------------------------------------------------
// What is wrong with the symbols
// ---------------------------------------------------------------------------

/// The addresses without a symbol.
pub open spec fn unresolved_addresses(counts: Seq<(u64, u64)>, infos: Seq<AddressInfo>) -> nat
    decreases counts.len(),
{
    if counts.len() == 0 {
        0
    } else {
        let rest = unresolved_addresses(counts.drop_last(), infos);
        match info_at(infos, counts.last().0) {
            Some(info) => if info.symbol is None {
                rest + 1
            } else {
                rest
            },
            None => rest,
        }
    }
}

/// The samples of addresses without a symbol.
pub open spec fn unresolved_samples(counts: Seq<(u64, u64)>, infos: Seq<AddressInfo>) -> int
    decreases counts.len(),
{
    if counts.len() == 0 {
        0
    } else {
        let rest = unresolved_samples(counts.drop_last(), infos);
        match info_at(infos, counts.last().0) {
            Some(info) => if info.symbol is None {
                rest + counts.last().1
            } else {
                rest
            },
            None => rest,
        }
    }
}

/// Whether an address lies behind the end of its symbol.
pub open spec fn is_beyond(info: AddressInfo) -> bool {
    info.symbol matches Some(s) && past_end(s.displacement, s.size)
}

/// The addresses behind their symbol's end, as pairs that put the most frequent
/// first.
pub open spec fn beyond_pairs(counts: Seq<(u64, u64)>, infos: Seq<AddressInfo>) -> Seq<(u64, u64)>
    decreases counts.len(),
{
    if counts.len() == 0 {
        Seq::empty()
    } else {
        let rest = beyond_pairs(counts.drop_last(), infos);
        match info_at(infos, counts.last().0) {
            Some(info) => if is_beyond(info) {
                rest.push(((u64::MAX - counts.last().1) as u64, counts.last().0))
            } else {
                rest
            },
            None => rest,
        }
    }
}

/// The samples of addresses behind their symbol's end.
pub open spec fn beyond_samples(counts: Seq<(u64, u64)>, infos: Seq<AddressInfo>) -> int
    decreases counts.len(),
{
    if counts.len() == 0 {
        0
    } else {
        let rest = beyond_samples(counts.drop_last(), infos);
        match info_at(infos, counts.last().0) {
            Some(info) => if is_beyond(info) {
                rest + counts.last().1
            } else {
                rest
            },
            None => rest,
        }
    }
}

/// The addresses whose two answers do not agree, each with how they differ.
pub open spec fn mismatches(counts: Seq<(u64, u64)>, infos: Seq<AddressInfo>) -> Seq<
    (u64, Seq<char>),
>
    decreases counts.len(),
{
    if counts.len() == 0 {
        Seq::empty()
    } else {
        let rest = mismatches(counts.drop_last(), infos);
        match info_at(infos, counts.last().0) {
            Some(info) => if agree(info.symbol, info.physical) {
                rest
            } else {
                rest.push((counts.last().0, disagreement(info.symbol, info.physical)))
            },
            None => rest,
        }
    }
}

/// What is wrong with the symbols of the sampled addresses.
#[derive(Debug, PartialEq, Eq)]
pub struct Health {
    pub unresolved_addresses: u64,
    pub unresolved_samples: u64,
    pub beyond_samples: u64,
    /// The addresses behind their symbol's end, as pairs that put the most frequent
    /// first.
    pub beyond: Vec<(u64, u64)>,
    /// The addresses whose two answers do not agree, each with how they differ.
    pub mismatches: Vec<(u64, String)>,
}

/// What a list of disagreements says.
pub open spec fn mismatch_views(list: Seq<(u64, String)>) -> Seq<(u64, Seq<char>)> {
    list.map_values(|m: (u64, String)| (m.0, m.1@))
}

/// What is wrong with the symbols of the sampled addresses.
pub fn symbol_health(counts: &Vec<(u64, u64)>, infos: &Vec<AddressInfo>) -> (health: Health)
    requires
        ascending(infos@),
        samples_in(counts@) <= u64::MAX,
    ensures
        health.unresolved_addresses == unresolved_addresses(counts@, infos@),
        health.unresolved_samples == unresolved_samples(counts@, infos@),
        health.beyond_samples == beyond_samples(counts@, infos@),
        health.beyond@ == beyond_pairs(counts@, infos@),
        mismatch_views(health.mismatches@) == mismatches(counts@, infos@),
{
    let mut unresolved: u64 = 0;
    let mut unresolved_sum: u64 = 0;
    let mut beyond_sum: u64 = 0;
    let mut beyond: Vec<(u64, u64)> = Vec::new();
    let mut wrong: Vec<(u64, String)> = Vec::new();
    let mut i: usize = 0;
    proof {
        assert(counts@.take(0) =~= Seq::empty());
        assert(mismatch_views(wrong@) =~= Seq::empty());
    }
    while i < counts.len()
        invariant
            i <= counts@.len(),
            ascending(infos@),
            samples_in(counts@) <= u64::MAX,
            unresolved == unresolved_addresses(counts@.take(i as int), infos@),
            unresolved <= i,
            unresolved_sum == unresolved_samples(counts@.take(i as int), infos@),
            unresolved_sum <= samples_in(counts@.take(i as int)),
            beyond_sum == beyond_samples(counts@.take(i as int), infos@),
            beyond_sum <= samples_in(counts@.take(i as int)),
            beyond@ == beyond_pairs(counts@.take(i as int), infos@),
            mismatch_views(wrong@) == mismatches(counts@.take(i as int), infos@),
        decreases counts@.len() - i,
    {
        proof {
            assert(counts@.take(i + 1).drop_last() =~= counts@.take(i as int));
            lemma_given_grows(counts@, i + 1);
        }
        let rip: u64 = counts[i].0;
        let n: u64 = counts[i].1;
        match find_info(infos, rip) {
            Some(at) => {
                let info: &AddressInfo = &infos[at];
                match &info.symbol {
                    Some(s) => {
                        if beyond_extent(s.displacement, s.size) {
                            beyond_sum = beyond_sum + n;
                            beyond.push((u64::MAX - n, rip));
                        }
                    },
                    None => {
                        unresolved = unresolved + 1;
                        unresolved_sum = unresolved_sum + n;
                    },
                }
                let ghost before = mismatch_views(wrong@);
                match conservation_mismatch(&info.symbol, &info.physical) {
                    Some(reason) => {
                        let ghost words = reason@;
                        wrong.push((rip, reason));
                        assert(mismatch_views(wrong@) =~= before.push((rip, words)));
                    },
                    None => {},
                }
            },
            None => {},
        }
        i = i + 1;
    }
    assert(counts@.take(counts@.len() as int) =~= counts@);
    Health {
        unresolved_addresses: unresolved,
        unresolved_samples: unresolved_sum,
        beyond_samples: beyond_sum,
        beyond,
        mismatches: wrong,
    }
}

// ---------------------------------------------------------------------------
// The report
// ---------------------------------------------------------------------------

/// The heading of a report. `rate` is the line about the samples' rate.
pub open spec fn heading_pieces(
    rate: Seq<char>,
    counts: Seq<(u64, u64)>,
    infos: Seq<AddressInfo>,
    total: u64,
) -> Seq<PieceView> {
    seq![
        PieceView::Text(
            "riprofile report \u{2014} "@ + rate + " ("@ + decimal(counts.len())
                + " unique addresses, "@ + decimal(unresolved_addresses(counts, infos))
                + " unresolved carrying "@,
        ),
        PieceView::Share {
            part: unresolved_samples(counts, infos) as u64,
            whole: total,
            places: 2,
            width: 0,
        },
        PieceView::Text("% of samples, "@),
        PieceView::Share {
            part: beyond_samples(counts, infos) as u64,
            whole: total,
            places: 2,
            width: 0,
        },
        PieceView::Text("% of samples beyond their symbol's recorded extent)\n\n"@),
    ]
}

/// The lines of the disagreements.
pub open spec fn mismatch_pieces(list: Seq<(u64, Seq<char>)>) -> Seq<PieceView>
    decreases list.len(),
{
    if list.len() == 0 {
        Seq::empty()
    } else {
        mismatch_pieces(list.drop_last()).push(
            PieceView::Text(
                "  "@ + prefixed_hex(list.last().0 as nat, 12, false) + "  "@ + list.last().1
                    + "\n"@,
            ),
        )
    }
}

/// The section about disagreements, where there are any.
pub open spec fn conservation_pieces(list: Seq<(u64, Seq<char>)>, addresses: nat) -> Seq<PieceView> {
    if list.len() == 0 {
        Seq::empty()
    } else {
        seq![
            PieceView::Text(
                "== CONSERVATION CHECK: FAILED -- "@ + decimal(list.len()) + " of "@ + decimal(
                    addresses,
                )
                    + " addresses disagree between the old SymFromAddrW resolver and the re-derived SymFromInlineContextW(IGNORE) one; the resolver is wrong, not the guest ==\n"@,
            ),
        ] + mismatch_pieces(head(list, TOP_MISMATCHES as int)) + seq![PieceView::Text("\n"@)]
    }
}

/// What the line of an address behind its symbol's end says behind its share.
pub open spec fn beyond_text(info: AddressInfo, n: u64, module_base: u64) -> Seq<char> {
    let rva = if info.rip >= module_base {
        info.rip - module_base
    } else {
        info.rip - module_base + 0x1_0000_0000_0000_0000
    };
    "%  "@ + padded(decimal(n as nat), 9, ' ') + "  "@ + prefixed_hex(info.rip as nat, 12, false)
        + "  rva "@ + prefixed_hex(rva as nat, 9, false) + "  +"@ + prefixed_hex(
        info.symbol->0.displacement as nat,
        0,
        false,
    ) + " past "@ + function_of(info) + " (size "@ + prefixed_hex(
        info.symbol->0.size as nat,
        0,
        false,
    ) + ")\n"@
}

/// The lines of the addresses behind their symbol's end.
pub open spec fn beyond_rows(
    pairs: Seq<(u64, u64)>,
    infos: Seq<AddressInfo>,
    total: u64,
    module_base: u64,
) -> Seq<PieceView>
    decreases pairs.len(),
{
    if pairs.len() == 0 {
        Seq::empty()
    } else {
        let n = (u64::MAX - pairs.last().0) as u64;
        let rest = beyond_rows(pairs.drop_last(), infos, total, module_base);
        match info_at(infos, pairs.last().1) {
            Some(info) => if is_beyond(info) {
                rest.push(PieceView::Share { part: n, whole: total, places: 3, width: 7 }).push(
                    PieceView::Text(beyond_text(info, n, module_base)),
                )
            } else {
                rest
            },
            None => rest,
        }
    }
}

/// The section about addresses behind their symbol's end, where there are any.
pub open spec fn beyond_pieces(
    counts: Seq<(u64, u64)>,
    infos: Seq<AddressInfo>,
    total: u64,
    module_base: u64,
) -> Seq<PieceView> {
    let pairs = beyond_pairs(counts, infos);
    if pairs.len() == 0 {
        Seq::empty()
    } else {
        seq![
            PieceView::Text("== BEYOND-EXTENT \u{2014} "@),
            PieceView::Share {
                part: beyond_samples(counts, infos) as u64,
                whole: total,
                places: 2,
                width: 0,
            },
            PieceView::Text(
                "% of samples sit past the recorded end of the symbol the tables above attribute them to; those rows are guesses ==\n(top "@
                    + decimal(head(pairs, TOP_BEYOND as int).len()) + " of "@ + decimal(
                    pairs.len(),
                ) + " flagged addresses; rva = address - exe base "@ + prefixed_hex(
                    module_base as nat,
                    0,
                    false,
                ) + ", for llvm-pdbutil)\n"@,
            ),
        ] + beyond_rows(head(sorted_form(pairs), TOP_BEYOND as int), infos, total, module_base)
            + seq![PieceView::Text("\n"@)]
    }
}

/// The phases of the counts, in order.
pub open spec fn phase_list(counts: Seq<((u64, u64), u64)>) -> Seq<u64>
    decreases counts.len(),
{
    if counts.len() == 0 {
        Seq::empty()
    } else {
        let rest = phase_list(counts.drop_last());
        if rest.len() > 0 && rest.last() == counts.last().0.0 {
            rest
        } else {
            rest.push(counts.last().0.0)
        }
    }
}

/// The addresses that were sampled in one phase.
pub open spec fn counts_in(counts: Seq<((u64, u64), u64)>, phase: u64) -> Seq<(u64, u64)>
    decreases counts.len(),
{
    if counts.len() == 0 {
        Seq::empty()
    } else {
        let rest = counts_in(counts.drop_last(), phase);
        if counts.last().0.0 == phase {
            rest.push((counts.last().0.1, counts.last().1))
        } else {
            rest
        }
    }
}

/// The name of a phase.
pub open spec fn phase_name(names: Seq<(u32, String)>, phase: u64) -> Seq<char>
    decreases names.len(),
{
    if names.len() == 0 {
        "unnamed"@
    } else if names[0].0 == phase {
        names[0].1@
    } else {
        phase_name(names.drop_first(), phase)
    }
}

/// The sections of the phases.
pub open spec fn phase_pieces(
    phases: Seq<u64>,
    counts: Seq<((u64, u64), u64)>,
    infos: Seq<AddressInfo>,
    names: Seq<(u32, String)>,
    total: u64,
) -> Seq<PieceView>
    decreases phases.len(),
{
    if phases.len() == 0 {
        Seq::empty()
    } else {
        let phase = phases.last();
        let own = counts_in(counts, phase);
        phase_pieces(phases.drop_last(), counts, infos, names, total) + seq![
            PieceView::Text(
                "\n################ PHASE "@ + decimal(phase as nat) + " ("@ + phase_name(
                    names,
                    phase,
                ) + ") \u{2014} "@ + decimal(samples_in(own) as nat) + " samples, "@,
            ),
            PieceView::Share { part: samples_in(own) as u64, whole: total, places: 2, width: 0 },
            PieceView::Text("% of the run ################\n\n"@),
        ] + all_tables(own, infos)
    }
}

/// Whether every sum of a report can be counted in 64 bits.
pub open spec fn report_fits(samples: Seq<(u64, u32)>, infos: Seq<AddressInfo>) -> bool {
    &&& tables_fit(address_counts(samples), infos)
    &&& forall|i: int|
        0 <= i < phase_list(phase_counts(samples)).len() ==> tables_fit(
            counts_in(phase_counts(samples), #[trigger] phase_list(phase_counts(samples))[i]),
            infos,
        )
}

/// The report: its heading, what is wrong with the symbols, the tables of the whole
/// run and, where it had several phases, those of each.
pub open spec fn report_pieces(
    samples: Seq<(u64, u32)>,
    infos: Seq<AddressInfo>,
    module_base: u64,
    rate: Seq<char>,
    names: Seq<(u32, String)>,
) -> Seq<PieceView> {
    let counts = address_counts(samples);
    let total = samples.len() as u64;
    let phases = phase_list(phase_counts(samples));
    heading_pieces(rate, counts, infos, total) + conservation_pieces(
        mismatches(counts, infos),
        counts.len(),
    ) + all_tables(counts, infos) + beyond_pieces(counts, infos, total, module_base) + (if phases.len()
        > 1 {
        phase_pieces(phases, phase_counts(samples), infos, names, total)
    } else {
        Seq::empty()
    })
}

/// The lines of the disagreements.
fn mismatch_lines(list: &Vec<(u64, String)>, n: usize) -> (pieces: Vec<Piece>)
    requires
        n <= list@.len(),
    ensures
        pieces_of(pieces@) == mismatch_pieces(mismatch_views(list@).take(n as int)),
{
    let ghost views = mismatch_views(list@);
    let mut pieces: Vec<Piece> = Vec::new();
    let mut i: usize = 0;
    proof {
        assert(views.take(0) =~= Seq::empty());
        assert(pieces_of(pieces@) =~= Seq::empty());
    }
    while i < n
        invariant
            i <= n <= list@.len(),
            views == mismatch_views(list@),
            pieces_of(pieces@) == mismatch_pieces(views.take(i as int)),
        decreases n - i,
    {
        assert(views.take(i + 1).drop_last() =~= views.take(i as int));
        let mut text: String = "  ".to_owned();
        text.append(prefixed_hex_text(list[i].0, 12, false).as_str());
        text.append("  ");
        text.append(list[i].1.as_str());
        text.append("\n");
        say(&mut pieces, text);
        i = i + 1;
    }
    pieces
}

/// The section about disagreements, where there are any.
fn conservation_section(list: &Vec<(u64, String)>, addresses: u64) -> (pieces: Vec<Piece>)
    ensures
        pieces_of(pieces@) == conservation_pieces(mismatch_views(list@), addresses as nat),
{
    let ghost views = mismatch_views(list@);
    let mut pieces: Vec<Piece> = Vec::new();
    assert(pieces_of(pieces@) =~= Seq::empty());
    if list.len() == 0 {
        return pieces;
    }
    let n: usize = if list.len() <= TOP_MISMATCHES {
        list.len()
    } else {
        TOP_MISMATCHES
    };
    let mut text: String = "== CONSERVATION CHECK: FAILED -- ".to_owned();
    text.append(decimal_text(list.len() as u64).as_str());
    text.append(" of ");
    text.append(decimal_text(addresses).as_str());
    text.append(
        " addresses disagree between the old SymFromAddrW resolver and the re-derived SymFromInlineContextW(IGNORE) one; the resolver is wrong, not the guest ==\n",
    );
    say(&mut pieces, text);
    follow(&mut pieces, mismatch_lines(list, n));
    say(&mut pieces, "\n".to_owned());
    proof {
        assert(views.take(n as int) =~= head(views, TOP_MISMATCHES as int));
        assert(pieces_of(pieces@) =~= conservation_pieces(views, addresses as nat));
    }
    pieces
}

/// The lines of the addresses behind their symbol's end.
fn beyond_lines(
    pairs: &Vec<(u64, u64)>,
    n: usize,
    infos: &Vec<AddressInfo>,
    total: u64,
    module_base: u64,
) -> (pieces: Vec<Piece>)
    requires
        n <= pairs@.len(),
        ascending(infos@),
    ensures
        pieces_of(pieces@) == beyond_rows(pairs@.take(n as int), infos@, total, module_base),
{
    let mut pieces: Vec<Piece> = Vec::new();
    let mut i: usize = 0;
    proof {
        assert(pairs@.take(0) =~= Seq::empty());
        assert(pieces_of(pieces@) =~= Seq::empty());
    }
    while i < n
        invariant
            i <= n <= pairs@.len(),
            ascending(infos@),
            pieces_of(pieces@) == beyond_rows(pairs@.take(i as int), infos@, total, module_base),
        decreases n - i,
    {
        assert(pairs@.take(i + 1).drop_last() =~= pairs@.take(i as int));
        let count: u64 = u64::MAX - pairs[i].0;
        match find_info(infos, pairs[i].1) {
            Some(at) => {
                let info: &AddressInfo = &infos[at];
                match &info.symbol {
                    Some(s) => {
                        if beyond_extent(s.displacement, s.size) {
                            let rva: u64 = if info.rip >= module_base {
                                info.rip - module_base
                            } else {
                                u64::MAX - (module_base - info.rip) + 1
                            };
                            let mut text: String = "%  ".to_owned();
                            text.append(pad_left(decimal_text(count).as_str(), 9, ' ').as_str());
                            text.append("  ");
                            text.append(prefixed_hex_text(info.rip, 12, false).as_str());
                            text.append("  rva ");
                            text.append(prefixed_hex_text(rva, 9, false).as_str());
                            text.append("  +");
                            text.append(prefixed_hex_text(s.displacement, 0, false).as_str());
                            text.append(" past ");
                            text.append(s.name.as_str());
                            text.append(" (size ");
                            text.append(prefixed_hex_text(s.size as u64, 0, false).as_str());
                            text.append(")\n");
                            assert(text@ =~= beyond_text(*info, count, module_base));
                            weigh(&mut pieces, count, total, 3, 7);
                            say(&mut pieces, text);
                        }
                    },
                    None => {},
                }
            },
            None => {},
        }
        i = i + 1;
    }
    pieces
}

/// The section about addresses behind their symbol's end, where there are any.
fn beyond_section(
    health: &Health,
    infos: &Vec<AddressInfo>,
    total: u64,
    module_base: u64,
    Ghost(counts): Ghost<Seq<(u64, u64)>>,
) -> (pieces: Vec<Piece>)
    requires
        ascending(infos@),
        health.beyond@ == beyond_pairs(counts, infos@),
        health.beyond_samples == beyond_samples(counts, infos@),
    ensures
        pieces_of(pieces@) == beyond_pieces(counts, infos@, total, module_base),
{
    let mut pieces: Vec<Piece> = Vec::new();
    assert(pieces_of(pieces@) =~= Seq::empty());
    if health.beyond.len() == 0 {
        return pieces;
    }
    let sorted: Vec<(u64, u64)> = sort_pairs(&health.beyond);
    let n: usize = if sorted.len() <= TOP_BEYOND {
        sorted.len()
    } else {
        TOP_BEYOND
    };
    say(&mut pieces, "== BEYOND-EXTENT \u{2014} ".to_owned());
    weigh(&mut pieces, health.beyond_samples, total, 2, 0);
    let mut text: String =
        "% of samples sit past the recorded end of the symbol the tables above attribute them to; those rows are guesses ==\n(top ".to_owned();
    text.append(decimal_text(n as u64).as_str());
    text.append(" of ");
    text.append(decimal_text(sorted.len() as u64).as_str());
    text.append(" flagged addresses; rva = address - exe base ");
    text.append(prefixed_hex_text(module_base, 0, false).as_str());
    text.append(", for llvm-pdbutil)\n");
    say(&mut pieces, text);
    follow(&mut pieces, beyond_lines(&sorted, n, infos, total, module_base));
    say(&mut pieces, "\n".to_owned());
    proof {
        assert(sorted@.take(n as int) =~= head(sorted@, TOP_BEYOND as int));
        assert(pieces_of(pieces@) =~= beyond_pieces(counts, infos@, total, module_base));
    }
    pieces
}

/// The phases of the counts, in order.
fn list_phases(counts: &Vec<((u64, u64), u64)>) -> (phases: Vec<u64>)
    ensures
        phases@ == phase_list(counts@),
{
    let mut phases: Vec<u64> = Vec::new();
    let mut i: usize = 0;
    assert(counts@.take(0) =~= Seq::empty());
    while i < counts.len()
        invariant
            i <= counts@.len(),
            phases@ == phase_list(counts@.take(i as int)),
        decreases counts@.len() - i,
    {
        assert(counts@.take(i + 1).drop_last() =~= counts@.take(i as int));
        let phase: u64 = counts[i].0.0;
        if !(phases.len() > 0 && phases[phases.len() - 1] == phase) {
            phases.push(phase);
        }
        i = i + 1;
    }
    assert(counts@.take(counts@.len() as int) =~= counts@);
    phases
}

/// The addresses that were sampled in one phase.
fn pick_phase(counts: &Vec<((u64, u64), u64)>, phase: u64) -> (own: Vec<(u64, u64)>)
    ensures
        own@ == counts_in(counts@, phase),
{
    let mut own: Vec<(u64, u64)> = Vec::new();
    let mut i: usize = 0;
    assert(counts@.take(0) =~= Seq::empty());
    while i < counts.len()
        invariant
            i <= counts@.len(),
            own@ == counts_in(counts@.take(i as int), phase),
        decreases counts@.len() - i,
    {
        assert(counts@.take(i + 1).drop_last() =~= counts@.take(i as int));
        if counts[i].0.0 == phase {
            own.push((counts[i].0.1, counts[i].1));
        }
        i = i + 1;
    }
    assert(counts@.take(counts@.len() as int) =~= counts@);
    own
}

/// The name of a phase.
fn name_of_phase(names: &Vec<(u32, String)>, phase: u64) -> (name: String)
    ensures
        name@ == phase_name(names@, phase),
{
    let mut i: usize = 0;
    assert(names@.skip(0) =~= names@);
    while i < names.len()
        invariant
            i <= names@.len(),
            phase_name(names@, phase) == phase_name(names@.skip(i as int), phase),
        decreases names@.len() - i,
    {
        assert(names@.skip(i as int).drop_first() =~= names@.skip(i + 1));
        if names[i].0 as u64 == phase {
            return names[i].1.clone();
        }
        i = i + 1;
    }
    assert(names@.skip(i as int) =~= Seq::empty());
    "unnamed".to_owned()
}

/// Whether every sum of a report can be counted in 64 bits.
pub fn profile_fits(samples: &Vec<(u64, u32)>, infos: &Vec<AddressInfo>) -> (fit: bool)
    requires
        ascending(infos@),
    ensures
        fit == report_fits(samples@, infos@),
{
    let counts: Vec<(u64, u64)> = count_addresses(samples);
    if !sums_fit(&counts, infos) {
        return false;
    }
    let by_phase: Vec<((u64, u64), u64)> = count_phases(samples);
    let phases: Vec<u64> = list_phases(&by_phase);
    let mut i: usize = 0;
    while i < phases.len()
        invariant
            i <= phases@.len(),
            ascending(infos@),
            by_phase@ == phase_counts(samples@),
            phases@ == phase_list(by_phase@),
            forall|k: int|
                0 <= k < i ==> tables_fit(counts_in(by_phase@, #[trigger] phases@[k]), infos@),
        decreases phases@.len() - i,
    {
        let own: Vec<(u64, u64)> = pick_phase(&by_phase, phases[i]);
        if !sums_fit(&own, infos) {
            assert(!tables_fit(counts_in(by_phase@, phases@[i as int]), infos@));
            return false;
        }
        i = i + 1;
    }
    true
}

/// The sections of the phases.
fn phase_sections(
    phases: &Vec<u64>,
    counts: &Vec<((u64, u64), u64)>,
    infos: &Vec<AddressInfo>,
    names: &Vec<(u32, String)>,
    total: u64,
) -> (pieces: Vec<Piece>)
    requires
        ascending(infos@),
        forall|i: int|
            0 <= i < phases@.len() ==> tables_fit(counts_in(counts@, #[trigger] phases@[i]), infos@),
    ensures
        pieces_of(pieces@) == phase_pieces(phases@, counts@, infos@, names@, total),
{
    let mut pieces: Vec<Piece> = Vec::new();
    let mut i: usize = 0;
    proof {
        assert(phases@.take(0) =~= Seq::empty());
        assert(pieces_of(pieces@) =~= Seq::empty());
    }
    while i < phases.len()
        invariant
            i <= phases@.len(),
            ascending(infos@),
            forall|k: int|
                0 <= k < phases@.len() ==> tables_fit(
                    counts_in(counts@, #[trigger] phases@[k]),
                    infos@,
                ),
            pieces_of(pieces@) == phase_pieces(
                phases@.take(i as int),
                counts@,
                infos@,
                names@,
                total,
            ),
        decreases phases@.len() - i,
    {
        assert(phases@.take(i + 1).drop_last() =~= phases@.take(i as int));
        let phase: u64 = phases[i];
        let own: Vec<(u64, u64)> = pick_phase(counts, phase);
        let own_total: u64 = count_samples(&own).unwrap();
        let ghost before = pieces_of(pieces@);
        let mut text: String = "\n################ PHASE ".to_owned();
        text.append(decimal_text(phase).as_str());
        text.append(" (");
        text.append(name_of_phase(names, phase).as_str());
        text.append(") \u{2014} ");
        text.append(decimal_text(own_total).as_str());
        text.append(" samples, ");
        let ghost words = text@;
        say(&mut pieces, text);
        weigh(&mut pieces, own_total, total, 2, 0);
        say(&mut pieces, "% of the run ################\n\n".to_owned());
        assert(pieces_of(pieces@) =~= before + seq![
            PieceView::Text(words),
            PieceView::Share { part: own_total, whole: total, places: 2, width: 0 },
            PieceView::Text("% of the run ################\n\n"@),
        ]);
        follow(&mut pieces, render_tables(&own, infos));
        i = i + 1;
    }
    assert(phases@.take(phases@.len() as int) =~= phases@);
    pieces
}

/// The report of a run. `infos` is what the symbol server said of the sampled
/// addresses, `rate` the line about the samples' rate, and `names` the names of the
/// phases.
pub fn profile_report(
    samples: &Vec<(u64, u32)>,
    infos: &Vec<AddressInfo>,
    module_base: u64,
    rate: &str,
    names: &Vec<(u32, String)>,
) -> (pieces: Vec<Piece>)
    requires
        ascending(infos@),
        report_fits(samples@, infos@),
    ensures
        pieces_of(pieces@) == report_pieces(samples@, infos@, module_base, rate@, names@),
{
    let counts: Vec<(u64, u64)> = count_addresses(samples);
    let total: u64 = samples.len() as u64;
    let health: Health = symbol_health(&counts, infos);
    let mut pieces: Vec<Piece> = Vec::new();
    assert(pieces_of(pieces@) =~= Seq::empty());
    let mut text: String = "riprofile report \u{2014} ".to_owned();
    text.append(rate);
    text.append(" (");
    text.append(decimal_text(counts.len() as u64).as_str());
    text.append(" unique addresses, ");
    text.append(decimal_text(health.unresolved_addresses).as_str());
    text.append(" unresolved carrying ");
    say(&mut pieces, text);
    weigh(&mut pieces, health.unresolved_samples, total, 2, 0);
    say(&mut pieces, "% of samples, ".to_owned());
    weigh(&mut pieces, health.beyond_samples, total, 2, 0);
    say(&mut pieces, "% of samples beyond their symbol's recorded extent)\n\n".to_owned());
    assert(pieces_of(pieces@) =~= heading_pieces(rate@, counts@, infos@, total));
    follow(&mut pieces, conservation_section(&health.mismatches, counts.len() as u64));
    follow(&mut pieces, render_tables(&counts, infos));
    follow(&mut pieces, beyond_section(&health, infos, total, module_base, Ghost(counts@)));
    let by_phase: Vec<((u64, u64), u64)> = count_phases(samples);
    let phases: Vec<u64> = list_phases(&by_phase);
    if phases.len() > 1 {
        follow(&mut pieces, phase_sections(&phases, &by_phase, infos, names, total));
    }
    assert(pieces_of(pieces@) =~= report_pieces(samples@, infos@, module_base, rate@, names@));
    pieces
}

// ---------------------------------------------------------------------------
// What the samples of an address go to
// ---------------------------------------------------------------------------

/// Addresses are charged one by one: what one is charged to does not depend on the others.
pub proof fn law_column_charges_join(a: Seq<(u64, u64)>, b: Seq<(u64, u64)>, infos: Seq<AddressInfo>, column: Column)
    ensures
        column_charges(a + b, infos, column) == column_charges(a, infos, column) + column_charges(b, infos, column),
    decreases b.len(),
{
    if b.len() == 0 {
        assert(a + b =~= a);
        assert(column_charges(a, infos, column) + column_charges(b, infos, column) == column_charges(a, infos, column));
    } else {
        law_column_charges_join(a, b.drop_last(), infos, column);
        assert((a + b).drop_last() =~= a + b.drop_last());
        assert(column_charges(a + b, infos, column) == column_charges(a, infos, column) + column_charges(b, infos, column));
    }
}

/// Chains are charged one by one.
pub proof fn law_inclusive_charges_join(a: Seq<(u64, u64)>, b: Seq<(u64, u64)>, infos: Seq<AddressInfo>)
    ensures
        inclusive_charges(a + b, infos) == inclusive_charges(a, infos) + inclusive_charges(b, infos),
    decreases b.len(),
{
    if b.len() == 0 {
        assert(a + b =~= a);
        assert(inclusive_charges(a, infos) + inclusive_charges(b, infos) == inclusive_charges(a, infos));
    } else {
        law_inclusive_charges_join(a, b.drop_last(), infos);
        assert((a + b).drop_last() =~= a + b.drop_last());
        assert(inclusive_charges(a + b, infos) == inclusive_charges(a, infos) + inclusive_charges(b, infos));
    }
}

/// Depths are counted address by address.
pub proof fn law_depth_items_join(a: Seq<(u64, u64)>, b: Seq<(u64, u64)>, infos: Seq<AddressInfo>)
    ensures
        depth_items(a + b, infos) == depth_items(a, infos) + depth_items(b, infos),
    decreases b.len(),
{
    if b.len() == 0 {
        assert(a + b =~= a);
        assert(depth_items(a, infos) + depth_items(b, infos) == depth_items(a, infos));
    } else {
        law_depth_items_join(a, b.drop_last(), infos);
        assert((a + b).drop_last() =~= a + b.drop_last());
        assert(depth_items(a + b, infos) == depth_items(a, infos) + depth_items(b, infos));
    }
}

/// Addresses without a symbol are counted one by one.
pub proof fn law_unresolved_addresses_join(a: Seq<(u64, u64)>, b: Seq<(u64, u64)>, infos: Seq<AddressInfo>)
    ensures
        unresolved_addresses(a + b, infos) == unresolved_addresses(a, infos) + unresolved_addresses(b, infos),
    decreases b.len(),
{
    if b.len() == 0 {
        assert(a + b =~= a);
        assert(unresolved_addresses(a, infos) + unresolved_addresses(b, infos) == unresolved_addresses(a, infos));
    } else {
        law_unresolved_addresses_join(a, b.drop_last(), infos);
        assert((a + b).drop_last() =~= a + b.drop_last());
        assert(unresolved_addresses(a + b, infos) == unresolved_addresses(a, infos) + unresolved_addresses(b, infos));
    }
}

/// So are their samples.
pub proof fn law_unresolved_samples_join(a: Seq<(u64, u64)>, b: Seq<(u64, u64)>, infos: Seq<AddressInfo>)
    ensures
        unresolved_samples(a + b, infos) == unresolved_samples(a, infos) + unresolved_samples(b, infos),
    decreases b.len(),
{
    if b.len() == 0 {
        assert(a + b =~= a);
        assert(unresolved_samples(a, infos) + unresolved_samples(b, infos) == unresolved_samples(a, infos));
    } else {
        law_unresolved_samples_join(a, b.drop_last(), infos);
        assert((a + b).drop_last() =~= a + b.drop_last());
        assert(unresolved_samples(a + b, infos) == unresolved_samples(a, infos) + unresolved_samples(b, infos));
    }
}

/// Addresses behind their symbol's end are listed one by one.
pub proof fn law_beyond_pairs_join(a: Seq<(u64, u64)>, b: Seq<(u64, u64)>, infos: Seq<AddressInfo>)
    ensures
        beyond_pairs(a + b, infos) == beyond_pairs(a, infos) + beyond_pairs(b, infos),
    decreases b.len(),
{
    if b.len() == 0 {
        assert(a + b =~= a);
        assert(beyond_pairs(a, infos) + beyond_pairs(b, infos) == beyond_pairs(a, infos));
    } else {
        law_beyond_pairs_join(a, b.drop_last(), infos);
        assert((a + b).drop_last() =~= a + b.drop_last());
        assert(beyond_pairs(a + b, infos) == beyond_pairs(a, infos) + beyond_pairs(b, infos));
    }
}

/// So are their samples counted.
pub proof fn law_beyond_samples_join(a: Seq<(u64, u64)>, b: Seq<(u64, u64)>, infos: Seq<AddressInfo>)
    ensures
        beyond_samples(a + b, infos) == beyond_samples(a, infos) + beyond_samples(b, infos),
    decreases b.len(),
{
    if b.len() == 0 {
        assert(a + b =~= a);
        assert(beyond_samples(a, infos) + beyond_samples(b, infos) == beyond_samples(a, infos));
    } else {
        law_beyond_samples_join(a, b.drop_last(), infos);
        assert((a + b).drop_last() =~= a + b.drop_last());
        assert(beyond_samples(a + b, infos) == beyond_samples(a, infos) + beyond_samples(b, infos));
    }
}

/// Disagreements are listed address by address.
pub proof fn law_mismatches_join(a: Seq<(u64, u64)>, b: Seq<(u64, u64)>, infos: Seq<AddressInfo>)
    ensures
        mismatches(a + b, infos) == mismatches(a, infos) + mismatches(b, infos),
    decreases b.len(),
{
    if b.len() == 0 {
        assert(a + b =~= a);
        assert(mismatches(a, infos) + mismatches(b, infos) == mismatches(a, infos));
    } else {
        law_mismatches_join(a, b.drop_last(), infos);
        assert((a + b).drop_last() =~= a + b.drop_last());
        assert(mismatches(a + b, infos) == mismatches(a, infos) + mismatches(b, infos));
    }
}

/// What is known of an address is what stands under it.
proof fn lemma_info_of(infos: Seq<AddressInfo>, i: int)
    requires
        ascending(infos),
        0 <= i < infos.len(),
    ensures
        info_at(infos, infos[i].rip) == Some(infos[i]),
{
    let rip = infos[i].rip;
    assert(is_known(infos, rip));
    let k = choose|k: int| 0 <= k < infos.len() && (#[trigger] infos[k]).rip == rip;
    if k < i {
        assert(infos[k].rip < infos[i].rip);
    } else if i < k {
        assert(infos[i].rip < infos[k].rip);
    }
}

/// The samples of an address go to its symbol, to the line that it was given, and to the
/// file of that line. Among what is inlined there the first frame of the chain, the
/// innermost, owns them all; where nothing is inlined, the function that is really there.
pub proof fn law_an_address_has_its_owner(infos: Seq<AddressInfo>, i: int, n: u64)
    requires
        ascending(infos),
        0 <= i < infos.len(),
    ensures
        ({
            let one = seq![(infos[i].rip, n)];
            let to = |column: Column| column_charges(one, infos, column);
            let info = infos[i];
            &&& to(Column::Function).len() == 1 && to(Column::File).len() == 1
            &&& to(Column::Line).len() == 1 && to(Column::Innermost).len() == 1
            &&& to(Column::Function)[0].1 == n && to(Column::File)[0].1 == n
            &&& to(Column::Line)[0].1 == n && to(Column::Innermost)[0].1 == n
            &&& info.symbol matches Some(s) ==> to(Column::Function)[0].0.0 == s.name@
            &&& info.line matches Some(line) ==> to(Column::Line)[0].0.0 == line@
            &&& info.chain@.len() > 0 ==> to(Column::Innermost)[0].0 == (
                info.chain@.first().name@,
                info.chain@.first().site@,
            )
            &&& info.chain@.len() == 0 && info.physical is Some ==> to(
                Column::Innermost,
            )[0].0.0 == info.physical->0.name@
            &&& info.symbol is None ==> to(Column::Function)[0].0.0 == NO_SYMBOL@
            &&& info.chain@.len() == 0 && info.physical is None ==> to(
                Column::Innermost,
            )[0].0.0 == NO_SYMBOL@
        }),
{
    let one = seq![(infos[i].rip, n)];
    lemma_info_of(infos, i);
    assert(one.drop_last() =~= Seq::empty());
    reveal_with_fuel(column_charges, 2);
}

/// A line is a file, a colon and a number; the samples of the line go to that file.
pub proof fn law_a_line_has_its_file(info: AddressInfo, file: Seq<char>, number: Seq<char>)
    requires
        info.line is Some,
        info.line->0@ == file + seq![':'] + number,
        !number.contains(':'),
    ensures
        name_in(Column::File, info).0 == file,
    decreases number.len(),
{
    lemma_before_the_last_colon(file, number);
}

/// What stands before the last colon.
proof fn lemma_before_the_last_colon(front: Seq<char>, back: Seq<char>)
    requires
        !back.contains(':'),
    ensures
        before_last_colon(front + seq![':'] + back) == Some(front),
    decreases back.len(),
{
    let text = front + seq![':'] + back;
    if back.len() == 0 {
        assert(text.drop_last() =~= front);
    } else {
        assert(back.contains(back.last()));
        assert(text.drop_last() =~= front + seq![':'] + back.drop_last());
        if back.drop_last().contains(':') {
            let k = choose|k: int| 0 <= k < back.drop_last().len() && back.drop_last()[k] == ':';
            assert(back[k] == ':');
        }
        lemma_before_the_last_colon(front, back.drop_last());
    }
}

/// Whether two answers differ at most in frames around those that the first one has.
pub open spec fn more_outer_frames(a: AddressInfo, b: AddressInfo) -> bool {
    &&& a.rip == b.rip
    &&& a.symbol == b.symbol
    &&& a.line == b.line
    &&& a.physical == b.physical
    &&& a.chain@.len() == 0 ==> b.chain@.len() == 0
    &&& a.chain@.is_prefix_of(b.chain@)
}

/// Frames around the innermost one own nothing: however many there are, every table but
/// the inclusive one stays as it is.
pub proof fn law_outer_frames_own_nothing(
    counts: Seq<(u64, u64)>,
    infos: Seq<AddressInfo>,
    more: Seq<AddressInfo>,
    column: Column,
)
    requires
        ascending(infos),
        infos.len() == more.len(),
        forall|i: int| 0 <= i < infos.len() ==> more_outer_frames(#[trigger] infos[i], more[i]),
    ensures
        column_charges(counts, more, column) == column_charges(counts, infos, column),
    decreases counts.len(),
{
    assert(ascending(more)) by {
        assert forall|i: int, j: int| 0 <= i < j < more.len() implies (#[trigger] more[i]).rip < (
        #[trigger] more[j]).rip by {
            assert(more_outer_frames(infos[i], more[i]));
            assert(more_outer_frames(infos[j], more[j]));
        }
    }
    if counts.len() > 0 {
        law_outer_frames_own_nothing(counts.drop_last(), infos, more, column);
        let rip = counts.last().0;
        if is_known(infos, rip) {
            let i = choose|i: int| 0 <= i < infos.len() && (#[trigger] infos[i]).rip == rip;
            lemma_info_of(infos, i);
            assert(more_outer_frames(infos[i], more[i]));
            lemma_info_of(more, i);
            if infos[i].chain@.len() > 0 {
                assert(infos[i].chain@[0] == more[i].chain@[0]);
            }
        } else if is_known(more, rip) {
            let i = choose|i: int| 0 <= i < more.len() && (#[trigger] more[i]).rip == rip;
            assert(more_outer_frames(infos[i], more[i]));
            assert(infos[i].rip == rip);
        }
    }
}

/// Every frame of a chain is charged all samples of its address, in the order of the
/// chain; and the address counts once under as many frames as its chain has.
pub proof fn law_every_frame_is_charged(infos: Seq<AddressInfo>, i: int, n: u64)
    requires
        ascending(infos),
        0 <= i < infos.len(),
    ensures
        ({
            let one = seq![(infos[i].rip, n)];
            let chain = infos[i].chain@;
            &&& inclusive_charges(one, infos).len() == chain.len()
            &&& forall|k: int|
                0 <= k < chain.len() ==> (#[trigger] inclusive_charges(one, infos)[k]) == (
                    (chain[k].name@, chain[k].site@),
                    n,
                )
            &&& depth_items(one, infos) == seq![(chain.len() as u64, n)]
        }),
{
    let one = seq![(infos[i].rip, n)];
    lemma_info_of(infos, i);
    assert(one.drop_last() =~= Seq::empty());
    reveal_with_fuel(inclusive_charges, 2);
    reveal_with_fuel(depth_items, 2);
    assert(inclusive_charges(one, infos) =~= chain_charges(infos[i].chain@, n));
    assert(depth_items(one, infos) =~= seq![(infos[i].chain@.len() as u64, n)]);
}

/// Answers one after the other make one chain.
pub proof fn law_answers_join(a: Seq<FrameAnswer>, b: Seq<FrameAnswer>)
    ensures
        named_frames(a + b) == named_frames(a) + named_frames(b),
    decreases b.len(),
{
    if b.len() == 0 {
        assert(a + b =~= a);
        assert(named_frames(a) + named_frames(b) =~= named_frames(a));
    } else {
        law_answers_join(a, b.drop_last());
        assert((a + b).drop_last() =~= a + b.drop_last());
        assert(named_frames(a + b) =~= named_frames(a) + named_frames(b));
    }
}

/// The first answer that has a name is the innermost frame, whatever further answers
/// follow it.
pub proof fn law_the_first_name_is_innermost(answers: Seq<FrameAnswer>, i: int)
    requires
        0 <= i < answers.len(),
        answers[i].name is Some,
        forall|k: int| 0 <= k < i ==> (#[trigger] answers[k]).name is None,
    ensures
        named_frames(answers).len() > 0,
        named_frames(answers)[0].0 == answers[i].name->0@,
        answers[i].line matches Some(line) ==> named_frames(answers)[0].1 == line@,
{
    let before = answers.take(i);
    let here = answers.take(i + 1);
    lemma_no_names(before);
    assert(here.drop_last() =~= before);
    law_answers_join(here, answers.skip(i + 1));
    assert(here + answers.skip(i + 1) =~= answers);
}

/// Answers without names make no chain.
proof fn lemma_no_names(answers: Seq<FrameAnswer>)
    requires
        forall|k: int| 0 <= k < answers.len() ==> (#[trigger] answers[k]).name is None,
    ensures
        named_frames(answers).len() == 0,
    decreases answers.len(),
{
    if answers.len() > 0 {
        let rest = answers.drop_last();
        assert forall|k: int| 0 <= k < rest.len() implies (#[trigger] rest[k]).name is None by {
            assert(rest[k] == answers[k]);
        }
        lemma_no_names(rest);
        assert(answers[answers.len() - 1].name is None);
    }
}

/// What is wrong with the symbol of an address: it has none, the address lies at or
/// behind the symbol's end, or the two ways to ask for it disagree.
pub proof fn law_an_address_has_its_health(infos: Seq<AddressInfo>, i: int, n: u64)
    requires
        ascending(infos),
        0 <= i < infos.len(),
    ensures
        ({
            let one = seq![(infos[i].rip, n)];
            let info = infos[i];
            let nameless = info.symbol is None;
            let past = info.symbol matches Some(s) && s.size != 0 && s.displacement >= s.size;
            &&& unresolved_addresses(one, infos) == if nameless {
                1nat
            } else {
                0
            }
            &&& unresolved_samples(one, infos) == if nameless {
                n as int
            } else {
                0
            }
            &&& beyond_samples(one, infos) == if past {
                n as int
            } else {
                0
            }
            &&& beyond_pairs(one, infos) == if past {
                seq![((u64::MAX - n) as u64, info.rip)]
            } else {
                Seq::empty()
            }
            &&& mismatches(one, infos).len() == if agree(info.symbol, info.physical) {
                0nat
            } else {
                1
            }
            &&& mismatches(one, infos).len() == 1 ==> mismatches(one, infos)[0].0 == info.rip
        }),
{
    let one = seq![(infos[i].rip, n)];
    lemma_info_of(infos, i);
    assert(one.drop_last() =~= Seq::empty());
    reveal_with_fuel(unresolved_addresses, 2);
    reveal_with_fuel(unresolved_samples, 2);
    reveal_with_fuel(beyond_samples, 2);
    reveal_with_fuel(beyond_pairs, 2);
    reveal_with_fuel(mismatches, 2);
    assert(beyond_pairs(one, infos) =~= if is_beyond(infos[i]) {
        seq![((u64::MAX - n) as u64, infos[i].rip)]
    } else {
        Seq::empty()
    });
}

/// Every row of a table is two pieces: its share of the whole, and a text that ends in
/// its name.
pub proof fn law_a_row_has_its_share(rows: Seq<Charge>, total: u64, with_part: bool, i: int)
    requires
        0 <= i < rows.len(),
    ensures
        row_pieces(rows, total, with_part).len() == 2 * rows.len(),
        row_pieces(rows, total, with_part)[2 * i] == (PieceView::Share {
            part: rows[i].1,
            whole: total,
            places: 3,
            width: 7,
        }),
        ({
            let end = if with_part {
                rows[i].0.0 + seq![' ', ' ', '('] + rows[i].0.1 + seq![')', '\n']
            } else {
                rows[i].0.0.push('\n')
            };
            let number = padded(decimal(rows[i].1 as nat), 9, ' ');
            row_pieces(rows, total, with_part)[2 * i + 1] == PieceView::Text(
                seq!['%', ' ', ' '] + number + seq![' ', ' '] + end,
            )
        }),
    decreases rows.len(),
{
    let rest = rows.drop_last();
    if i < rest.len() {
        law_a_row_has_its_share(rest, total, with_part, i);
        assert(rest[i] == rows[i]);
    } else {
        if rest.len() > 0 {
            law_a_row_has_its_share(rest, total, with_part, 0);
        } else {
            assert(row_pieces(rest, total, with_part).len() == 0);
        }
        reveal_strlit("%  ");
        reveal_strlit("  ");
        reveal_strlit("  (");
        reveal_strlit(")\n");
        reveal_strlit("\n");
        let end = if with_part {
            rows[i].0.0 + seq![' ', ' ', '('] + rows[i].0.1 + seq![')', '\n']
        } else {
            rows[i].0.0.push('\n')
        };
        let number = padded(decimal(rows[i].1 as nat), 9, ' ');
        assert(row_text(rows[i], with_part) =~= seq!['%', ' ', ' '] + number + seq![' ', ' '] + end);
    }
}

/// The samples of a phase are those of the counts under it, and no phase is listed that
/// has none.
pub proof fn law_a_phase_has_its_own_samples(counts: Seq<((u64, u64), u64)>, phase: u64, i: int)
    requires
        0 <= i < counts.len(),
    ensures
        phase_list(counts).contains(counts[i].0.0),
        counts[i].0.0 == phase ==> counts_in(counts, phase).contains((counts[i].0.1, counts[i].1)),
    decreases counts.len(),
{
    let rest = counts.drop_last();
    let listed = phase_list(rest);
    if i < rest.len() {
        law_a_phase_has_its_own_samples(rest, phase, i);
        assert(rest[i] == counts[i]);
        let k = choose|k: int| 0 <= k < listed.len() && listed[k] == counts[i].0.0;
        assert(phase_list(counts)[k] == counts[i].0.0);
        if counts[i].0.0 == phase {
            let own = counts_in(rest, phase);
            let m = choose|m: int| 0 <= m < own.len() && own[m] == (counts[i].0.1, counts[i].1);
            assert(counts_in(counts, phase)[m] == own[m]);
        }
    } else {
        assert(phase_list(counts).last() == counts[i].0.0);
        assert(phase_list(counts)[phase_list(counts).len() - 1] == counts[i].0.0);
        if counts[i].0.0 == phase {
            let own = counts_in(counts, phase);
            assert(own[own.len() - 1] == (counts[i].0.1, counts[i].1));
        }
    }
}

/// What the phases of some counts hold adds up phase by phase to what a tally of all of
/// them holds: taking a phase out of the counts takes out its own samples.
pub proof fn law_other_phases_are_left_out(counts: Seq<((u64, u64), u64)>, phase: u64)
    ensures
        samples_in(counts_in(counts, phase)) + counted_in_all(
            counts.filter(|row: ((u64, u64), u64)| row.0.0 != phase),
        ) == counted_in_all(counts),
    decreases counts.len(),
{
    let others = |row: ((u64, u64), u64)| row.0.0 != phase;
    reveal(Seq::filter);
    if counts.len() > 0 {
        let rest = counts.drop_last();
        law_other_phases_are_left_out(rest, phase);
        if counts.last().0.0 == phase {
            let own = counts_in(counts, phase);
            assert(own.drop_last() =~= counts_in(rest, phase));
        } else {
            let kept = counts.filter(others);
            assert(kept.drop_last() =~= rest.filter(others));
        }
    }
}

/// A phase is called by the first name that its number was given.
pub proof fn law_a_phase_has_its_name(names: Seq<(u32, String)>, phase: u64, i: int)
    requires
        0 <= i < names.len(),
        names[i].0 == phase,
        forall|k: int| 0 <= k < i ==> (#[trigger] names[k]).0 != phase,
    ensures
        phase_name(names, phase) == names[i].1@,
    decreases names.len(),
{
    if i > 0 {
        let rest = names.drop_first();
        assert(names[0].0 != phase);
        assert forall|k: int| 0 <= k < i - 1 implies (#[trigger] rest[k]).0 != phase by {
            assert(rest[k] == names[k + 1]);
        }
        law_a_phase_has_its_name(rest, phase, i - 1);
    }
}

/// The tables of some counts, one behind the other: functions, files, lines, what owns
/// the samples among what is inlined, and what has a part in them. Every share is one of
/// all samples of the counts.
pub proof fn law_the_tables_stand_in_order(counts: Seq<(u64, u64)>, infos: Seq<AddressInfo>)
    requires
        tables_fit(counts, infos),
    ensures
        ({
            let total = given_in_all(counts) as u64;
            let rows_by = |column: Column, top: int|
                row_pieces(head(name_ranking(column_charges(counts, infos, column)), top), total, false);
            let (functions, files, lines) = (rows_by(Column::Function, 60), rows_by(Column::File, 40), rows_by(
                Column::Line,
                120,
            ));
            let all = all_tables(counts, infos);
            let (f, l) = (2int + functions.len(), 4int + functions.len() + files.len());
            let i = 6int + functions.len() + files.len() + lines.len();
            let owners = row_pieces(
                head(name_ranking(column_charges(counts, infos, Column::Innermost)), 60),
                total,
                true,
            );
            &&& all[0] == PieceView::Text("== BY FUNCTION ==\n"@)
            &&& all.subrange(1, f - 1) == functions
            &&& all[f] == PieceView::Text("== BY FILE ==\n"@)
            &&& all.subrange(f + 1, l - 1) == files
            &&& all[l] == PieceView::Text("== BY FILE:LINE ==\n"@)
            &&& all.subrange(l + 1, i - 1) == lines
            &&& all[i] is Text
            &&& all.subrange(i + 1, i + 1 + owners.len()) == owners
        }),
{
    let total = given_in_all(counts) as u64;
    let rows_by = |column: Column, top: int|
        row_pieces(head(name_ranking(column_charges(counts, infos, column)), top), total, false);
    let (functions, files, lines) = (rows_by(Column::Function, 60), rows_by(Column::File, 40), rows_by(
        Column::Line,
        120,
    ));
    let owners = row_pieces(
        head(name_ranking(column_charges(counts, infos, Column::Innermost)), 60),
        total,
        true,
    );
    let all = all_tables(counts, infos);
    let (f, l) = (2int + functions.len(), 4int + functions.len() + files.len());
    let i = 6int + functions.len() + files.len() + lines.len();
    reveal_strlit("== ");
    reveal_strlit(" ==\n");
    reveal_strlit("BY FUNCTION");
    reveal_strlit("BY FILE");
    reveal_strlit("BY FILE:LINE");
    reveal_strlit("== BY FUNCTION ==\n");
    reveal_strlit("== BY FILE ==\n");
    reveal_strlit("== BY FILE:LINE ==\n");
    assert("== "@ + "BY FUNCTION"@ + " ==\n"@ =~= "== BY FUNCTION ==\n"@);
    assert("== "@ + "BY FILE"@ + " ==\n"@ =~= "== BY FILE ==\n"@);
    assert("== "@ + "BY FILE:LINE"@ + " ==\n"@ =~= "== BY FILE:LINE ==\n"@);
    assert(all.subrange(1, f - 1) =~= functions);
    assert(all.subrange(f + 1, l - 1) =~= files);
    assert(all.subrange(l + 1, i - 1) =~= lines);
    assert(all.subrange(i + 1, i + 1 + owners.len()) =~= owners);
}

/// A table has a heading, two pieces for each row and an empty line; it shows the first rows
/// of the ranking, sixty functions, forty files or a hundred and twenty lines at most.
pub proof fn law_a_table_shows_its_first_rows(
    title: Seq<char>,
    charges: Seq<Charge>,
    top: int,
    total: u64,
    with_part: bool,
)
    requires
        0 <= top,
    ensures
        table_pieces(title, charges, top, total, with_part).len() == 2 + 2 * (if name_ranking(
            charges,
        ).len() < top {
            name_ranking(charges).len() as int
        } else {
            top
        }),
        TOP_FUNCTIONS == 60 && TOP_FILES == 40 && TOP_LINES == 2 * TOP_FUNCTIONS,
        TOP_BEYOND == TOP_FILES && 2 * TOP_MISMATCHES == TOP_FILES,
{
    lemma_two_pieces_a_row(head(name_ranking(charges), top), total, with_part);
}

/// A row has two pieces.
proof fn lemma_two_pieces_a_row(rows: Seq<Charge>, total: u64, with_part: bool)
    ensures
        row_pieces(rows, total, with_part).len() == 2 * rows.len(),
    decreases rows.len(),
{
    if rows.len() > 0 {
        lemma_two_pieces_a_row(rows.drop_last(), total, with_part);
    }
}

/// What a row says is its samples, in at least nine places, and then its name; the place
/// stands behind the name in brackets where a table has places.
pub proof fn law_a_row_says_samples_and_name(row: Charge)
    ensures
        row_text(row, false) == seq!['%', ' ', ' '] + padded(decimal(row.1 as nat), 9, ' ') + seq![
            ' ',
            ' ',
        ] + row.0.0 + seq!['\n'],
        row_text(row, true) == seq!['%', ' ', ' '] + padded(decimal(row.1 as nat), 9, ' ') + seq![
            ' ',
            ' ',
        ] + row.0.0 + seq![' ', ' ', '('] + row.0.1 + seq![')', '\n'],
{
    reveal_strlit("%  ");
    reveal_strlit("  ");
    reveal_strlit("  (");
    reveal_strlit(")\n");
    reveal_strlit("\n");
    assert("%  "@ =~= seq!['%', ' ', ' ']);
    assert("  "@ =~= seq![' ', ' ']);
    assert("  ("@ =~= seq![' ', ' ', '(']);
    assert(")\n"@ =~= seq![')', '\n']);
    assert("\n"@ =~= seq!['\n']);
    let front = seq!['%', ' ', ' '] + padded(decimal(row.1 as nat), 9, ' ') + seq![' ', ' ']
        + row.0.0;
    assert(row_text(row, true) =~= front + seq![' ', ' ', '('] + row.0.1 + seq![')', '\n']);
}

} // verus!
