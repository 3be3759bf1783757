//! The evidence lines that a headless run prints.

use vstd::prelude::*;

use crate::order::sort_pairs;
#[allow(unused_imports)]
use crate::order::{head, sorted_form};
use crate::text::{
    chars_of, cut, cut_once, decimal_text, prefixed_hex_text, read_nat, split_chars, stands,
    trim_chars,
};
#[allow(unused_imports)]
use crate::text::{
    decimal, find_from, is_digit, is_space, lemma_decimal_is_digits, parsed_nat, prefixed_hex,
    split, split_once, stands_at, text_views, trimmed, views,
};
#[allow(unused_imports)]
use crate::text::{
    lemma_numerals_hold_digits, lemma_the_first_word, lemma_upper_numerals_hold_digits, lemma_word_added, lemma_words_read_back,
};

verus! {

// ---------------------------------------------------------------------------
// Ports
// ---------------------------------------------------------------------------

/// The ports that are printed.
pub const IO_HIST_LIMIT: usize = 16;

/// The line of one port.
pub open spec fn io_hist_line(entry: (u16, u64)) -> Seq<char> {
    "io_hist port="@ + prefixed_hex(entry.0 as nat, 4, false) + " count="@ + decimal(entry.1 as nat)
}

/// One line for each of the first ports; `hist` is sorted already.
pub fn io_hist_lines(hist: &Vec<(u16, u64)>) -> (lines: Vec<String>)
    ensures
        text_views(lines@) == head(hist@, IO_HIST_LIMIT as int).map_values(
            |entry: (u16, u64)| io_hist_line(entry),
        ),
        lines@.len() == if hist@.len() < 16 {
            hist@.len()
        } else {
            16
        },
{
    let n: usize = if hist.len() <= IO_HIST_LIMIT {
        hist.len()
    } else {
        IO_HIST_LIMIT
    };
    let mut lines: Vec<String> = Vec::new();
    let mut i: usize = 0;
    while i < n
        invariant
            i <= n <= hist@.len(),
            lines@.len() == i,
            forall|k: int| 0 <= k < i ==> (#[trigger] lines@[k])@ == io_hist_line(hist@[k]),
        decreases n - i,
    {
        let mut line: String = "io_hist port=".to_owned();
        line.append(prefixed_hex_text(hist[i].0 as u64, 4, false).as_str());
        line.append(" count=");
        line.append(decimal_text(hist[i].1).as_str());
        lines.push(line);
        i = i + 1;
    }
    assert(text_views(lines@) =~= head(hist@, IO_HIST_LIMIT as int).map_values(
        |entry: (u16, u64)| io_hist_line(entry),
    ));
    lines
}

// ---------------------------------------------------------------------------
// Pages that were read the slow way
// ---------------------------------------------------------------------------

/// The pages that are printed one by one.
pub const SLOW_READ_PAGE_LIMIT: usize = 24;

/// The regions of the guest's address space, each with its first and last page.
pub open spec fn slow_read_regions() -> Seq<(Seq<char>, u32, u32)> {
    seq![
        ("conventional_00000_9FFFF"@, 0x00u32, 0x9fu32),
        ("vga_aperture_A0000_AFFFF"@, 0xa0, 0xaf),
        ("text_B0000_BFFFF"@, 0xb0, 0xbf),
        ("umb_ems_C0000_EFFFF"@, 0xc0, 0xef),
        ("bios_F0000_FFFFF"@, 0xf0, 0xff),
        ("above_1MiB"@, 0x100, u32::MAX),
    ]
}

/// Every page lies in exactly one region.
pub proof fn law_the_regions_part_the_address_space(page: u32)
    ensures
        exists|i: int|
            0 <= i < slow_read_regions().len() && (#[trigger] slow_read_regions()[i]).1 <= page
                <= slow_read_regions()[i].2,
        forall|i: int, j: int|
            0 <= i < slow_read_regions().len() && 0 <= j < slow_read_regions().len() && (
            #[trigger] slow_read_regions()[i]).1 <= page <= slow_read_regions()[i].2 && (
            #[trigger] slow_read_regions()[j]).1 <= page <= slow_read_regions()[j].2 ==> i == j,
{
    let regions = slow_read_regions();
    let i: int = if page <= 0x9f {
        0
    } else if page <= 0xaf {
        1
    } else if page <= 0xbf {
        2
    } else if page <= 0xef {
        3
    } else if page <= 0xff {
        4
    } else {
        5
    };
    assert(regions[i].1 <= page <= regions[i].2);
}

/// The reads in pages from `first` to `last`.
pub open spec fn reads_between(pages: Seq<(u32, u64)>, first: u32, last: u32) -> int
    decreases pages.len(),
{
    if pages.len() == 0 {
        0
    } else {
        let rest = reads_between(pages.drop_last(), first, last);
        if first <= pages.last().0 <= last {
            rest + pages.last().1
        } else {
            rest
        }
    }
}

/// All reads that were put in a page.
pub open spec fn all_reads(pages: Seq<(u32, u64)>) -> int {
    reads_between(pages, 0, u32::MAX)
}

/// A share that was worked out, or none of nothing.
pub open spec fn percent_text(whole: int, percent: Seq<char>) -> Seq<char> {
    if whole == 0 {
        "0.00"@
    } else {
        percent
    }
}

/// The line of a region.
pub open spec fn region_line(name: Seq<char>, count: int, percent: Seq<char>) -> Seq<char> {
    "slow_read_region "@ + name + " count="@ + decimal(count as nat) + " pct="@ + percent
}

/// The line of a page.
pub open spec fn page_line(entry: (u32, u64)) -> Seq<char> {
    "slow_read_page page="@ + prefixed_hex(entry.0 as nat, 5, false) + " linear="@ + prefixed_hex(
        ((entry.0 as int * 4096) % 0x1_0000_0000) as nat,
        8,
        false,
    ) + " count="@ + decimal(entry.1 as nat)
}

/// The line of the alignment split.
pub open spec fn align_line(misaligned: u64, seen: u64, percent: Seq<char>) -> Seq<char> {
    "slow_read_align misaligned="@ + decimal(misaligned as nat) + " of="@ + decimal(seen as nat)
        + " pct="@ + percent
}

/// The line that sets the sum of the pages against the counter.
pub open spec fn total_line(bucketed: int, data_slow_reads: u64, pages: nat) -> Seq<char> {
    "slow_read_total bucketed="@ + decimal(bucketed as nat) + " data_slow_reads="@ + decimal(
        data_slow_reads as nat,
    ) + " distinct_pages="@ + decimal(pages)
}

/// The lines of the slow reads: the regions, the first pages, the alignment split
/// and the sum. `percents` are the shares of the regions and `align_percent` that
/// of the misaligned reads, each with two decimals.
pub open spec fn slow_read_lines(
    pages: Seq<(u32, u64)>,
    data_slow_reads: u64,
    misaligned: u64,
    seen: u64,
    percents: Seq<Seq<char>>,
    align_percent: Seq<char>,
) -> Seq<Seq<char>> {
    let bucketed = all_reads(pages);
    Seq::new(
        slow_read_regions().len(),
        |i: int|
            {
                let (name, first, last) = slow_read_regions()[i];
                region_line(
                    name,
                    reads_between(pages, first, last),
                    percent_text(bucketed, percents[i]),
                )
            },
    ) + head(pages, SLOW_READ_PAGE_LIMIT as int).map_values(|entry: (u32, u64)| page_line(entry))
        + seq![
        align_line(misaligned, seen, percent_text(seen as int, align_percent)),
        total_line(bucketed, data_slow_reads, pages.len()),
    ]
}

/// Reads in fewer pages, or between closer bounds, are no more.
proof fn lemma_reads_grow(pages: Seq<(u32, u64)>, n: int, first: u32, last: u32)
    requires
        0 <= n <= pages.len(),
    ensures
        0 <= reads_between(pages.take(n), first, last) <= reads_between(pages, first, last)
            <= all_reads(pages),
    decreases pages.len(),
{
    if pages.len() > 0 {
        let rest = pages.drop_last();
        if n == pages.len() {
            assert(pages.take(n) =~= pages);
            lemma_reads_grow(rest, rest.len() as int, first, last);
            assert(rest.take(rest.len() as int) =~= rest);
        } else {
            lemma_reads_grow(rest, n, first, last);
            assert(rest.take(n) =~= pages.take(n));
        }
    } else {
        assert(pages.take(n) =~= pages);
    }
}

/// The reads in pages from `first` to `last`.
fn count_reads(pages: &Vec<(u32, u64)>, first: u32, last: u32) -> (count: u64)
    requires
        all_reads(pages@) <= u64::MAX,
    ensures
        count == reads_between(pages@, first, last),
{
    let mut count: u64 = 0;
    let mut i: usize = 0;
    assert(pages@.take(0) =~= Seq::empty());
    while i < pages.len()
        invariant
            i <= pages@.len(),
            all_reads(pages@) <= u64::MAX,
            count == reads_between(pages@.take(i as int), first, last),
        decreases pages@.len() - i,
    {
        proof {
            assert(pages@.take(i + 1).drop_last() =~= pages@.take(i as int));
            lemma_reads_grow(pages@, i + 1, first, last);
        }
        if first <= pages[i].0 && pages[i].0 <= last {
            count = count + pages[i].1;
        }
        i = i + 1;
    }
    assert(pages@.take(pages@.len() as int) =~= pages@);
    count
}

/// Whether the reads of all pages can be counted in 64 bits.
pub fn slow_reads_fit(pages: &Vec<(u32, u64)>) -> (fit: bool)
    ensures
        fit == (all_reads(pages@) <= u64::MAX),
{
    let mut sum: u64 = 0;
    let mut i: usize = 0;
    assert(pages@.take(0) =~= Seq::empty());
    while i < pages.len()
        invariant
            i <= pages@.len(),
            sum == all_reads(pages@.take(i as int)),
        decreases pages@.len() - i,
    {
        proof {
            assert(pages@.take(i + 1).drop_last() =~= pages@.take(i as int));
            lemma_reads_grow(pages@, i + 1, 0, u32::MAX);
        }
        match sum.checked_add(pages[i].1) {
            Some(s) => {
                sum = s;
            },
            None => return false,
        }
        i = i + 1;
    }
    assert(pages@.take(pages@.len() as int) =~= pages@);
    true
}

/// The regions, each with its first and last page.
fn region_table() -> (table: Vec<(&'static str, u32, u32)>)
    ensures
        table@.len() == slow_read_regions().len(),
        forall|i: int|
            0 <= i < table@.len() ==> (
                (#[trigger] table@[i]).0@,
                table@[i].1,
                table@[i].2,
            ) == slow_read_regions()[i],
{
    vec![
        ("conventional_00000_9FFFF", 0x00, 0x9f),
        ("vga_aperture_A0000_AFFFF", 0xa0, 0xaf),
        ("text_B0000_BFFFF", 0xb0, 0xbf),
        ("umb_ems_C0000_EFFFF", 0xc0, 0xef),
        ("bios_F0000_FFFFF", 0xf0, 0xff),
        ("above_1MiB", 0x100, u32::MAX),
    ]
}

/// The reads of each region, in the regions' order.
pub fn slow_read_region_counts(pages: &Vec<(u32, u64)>) -> (counts: Vec<u64>)
    requires
        all_reads(pages@) <= u64::MAX,
    ensures
        counts@.len() == slow_read_regions().len(),
        forall|i: int|
            0 <= i < counts@.len() ==> #[trigger] counts@[i] == reads_between(
                pages@,
                slow_read_regions()[i].1,
                slow_read_regions()[i].2,
            ),
{
    let table: Vec<(&'static str, u32, u32)> = region_table();
    let mut counts: Vec<u64> = Vec::new();
    let mut i: usize = 0;
    while i < table.len()
        invariant
            i <= table@.len(),
            all_reads(pages@) <= u64::MAX,
            table@.len() == slow_read_regions().len(),
            forall|k: int|
                0 <= k < table@.len() ==> (
                    (#[trigger] table@[k]).0@,
                    table@[k].1,
                    table@[k].2,
                ) == slow_read_regions()[k],
            counts@.len() == i,
            forall|k: int|
                0 <= k < i ==> #[trigger] counts@[k] == reads_between(
                    pages@,
                    slow_read_regions()[k].1,
                    slow_read_regions()[k].2,
                ),
        decreases table@.len() - i,
    {
        let row: (&'static str, u32, u32) = table[i];
        counts.push(count_reads(pages, row.1, row.2));
        i = i + 1;
    }
    counts
}

/// The lines of the slow reads.
pub fn slow_read_histo_lines(
    pages: &Vec<(u32, u64)>,
    data_slow_reads: u64,
    misaligned: u64,
    seen: u64,
    percents: &Vec<String>,
    align_percent: &str,
) -> (lines: Vec<String>)
    requires
        all_reads(pages@) <= u64::MAX,
        percents@.len() == slow_read_regions().len(),
    ensures
        text_views(lines@) == slow_read_lines(
            pages@,
            data_slow_reads,
            misaligned,
            seen,
            text_views(percents@),
            align_percent@,
        ),
{
    let table: Vec<(&'static str, u32, u32)> = region_table();
    let counts: Vec<u64> = slow_read_region_counts(pages);
    let bucketed: u64 = count_reads(pages, 0, u32::MAX);
    let mut lines: Vec<String> = Vec::new();
    let mut i: usize = 0;
    while i < table.len()
        invariant
            i <= table@.len(),
            bucketed == all_reads(pages@),
            table@.len() == slow_read_regions().len(),
            counts@.len() == slow_read_regions().len(),
            percents@.len() == slow_read_regions().len(),
            forall|k: int|
                0 <= k < table@.len() ==> (
                    (#[trigger] table@[k]).0@,
                    table@[k].1,
                    table@[k].2,
                ) == slow_read_regions()[k],
            forall|k: int|
                0 <= k < counts@.len() ==> #[trigger] counts@[k] == reads_between(
                    pages@,
                    slow_read_regions()[k].1,
                    slow_read_regions()[k].2,
                ),
            lines@.len() == i,
            forall|k: int|
                0 <= k < i ==> (#[trigger] lines@[k])@ == region_line(
                    slow_read_regions()[k].0,
                    reads_between(pages@, slow_read_regions()[k].1, slow_read_regions()[k].2),
                    percent_text(all_reads(pages@), percents@[k]@),
                ),
        decreases table@.len() - i,
    {
        let row: (&'static str, u32, u32) = table[i];
        let mut line: String = "slow_read_region ".to_owned();
        line.append(row.0);
        line.append(" count=");
        line.append(decimal_text(counts[i]).as_str());
        line.append(" pct=");
        line.append(if bucketed == 0 { "0.00" } else { percents[i].as_str() });
        lines.push(line);
        i = i + 1;
    }
    let ghost regions = slow_read_regions().len();
    let n: usize = if pages.len() <= SLOW_READ_PAGE_LIMIT {
        pages.len()
    } else {
        SLOW_READ_PAGE_LIMIT
    };
    let ghost region_part = lines@;
    let mut k: usize = 0;
    while k < n
        invariant
            k <= n <= pages@.len(),
            lines@.len() == region_part.len() + k,
            lines@.take(region_part.len() as int) == region_part,
            forall|m: int|
                0 <= m < k ==> (#[trigger] lines@[region_part.len() + m])@ == page_line(pages@[m]),
        decreases n - k,
    {
        let page: u32 = pages[k].0;
        let mut line: String = "slow_read_page page=".to_owned();
        line.append(prefixed_hex_text(page as u64, 5, false).as_str());
        line.append(" linear=");
        line.append(
            prefixed_hex_text((page as u64 * 4096) % 0x1_0000_0000, 8, false).as_str(),
        );
        line.append(" count=");
        line.append(decimal_text(pages[k].1).as_str());
        let ghost before = lines@;
        lines.push(line);
        assert(lines@.take(region_part.len() as int) =~= before.take(region_part.len() as int));
        k = k + 1;
    }
    let mut align: String = "slow_read_align misaligned=".to_owned();
    align.append(decimal_text(misaligned).as_str());
    align.append(" of=");
    align.append(decimal_text(seen).as_str());
    align.append(" pct=");
    align.append(if seen == 0 { "0.00" } else { align_percent });
    let ghost before_align = lines@;
    lines.push(align);
    let mut total: String = "slow_read_total bucketed=".to_owned();
    total.append(decimal_text(bucketed).as_str());
    total.append(" data_slow_reads=");
    total.append(decimal_text(data_slow_reads).as_str());
    total.append(" distinct_pages=");
    total.append(decimal_text(pages.len() as u64).as_str());
    lines.push(total);
    proof {
        let want = slow_read_lines(
            pages@,
            data_slow_reads,
            misaligned,
            seen,
            text_views(percents@),
            align_percent@,
        );
        let got = text_views(lines@);
        assert(got.len() == want.len());
        assert forall|j: int| 0 <= j < got.len() implies got[j] == want[j] by {
            if j < regions {
                assert(before_align[j] == before_align.take(regions as int)[j]);
                assert(region_part[j]@ == want[j]);
            } else if j < regions + n {
                assert(before_align[regions + (j - regions)]@ == page_line(pages@[j - regions]));
            }
        }
        assert(got =~= want);
    }
    lines
}

// ---------------------------------------------------------------------------
// Percentiles
// ---------------------------------------------------------------------------

/// The nearest-rank percentile of an ascending list: the smallest value that at
/// least `p` percent of the list do not exceed. Nothing of nothing.
pub open spec fn nearest_rank(sorted: Seq<u64>, p: u32) -> u64 {
    if sorted.len() == 0 {
        0
    } else {
        let rank = (p * sorted.len() + 99) / 100;
        let index = if rank == 0 {
            0
        } else if rank > sorted.len() {
            sorted.len() - 1
        } else {
            rank - 1
        };
        sorted[index]
    }
}

/// The nearest-rank percentile of an ascending list.
pub fn nearest_rank_percentile(sorted_ascending: &Vec<u64>, p: u32) -> (value: u64)
    ensures
        value == nearest_rank(sorted_ascending@, p),
{
    let n: usize = sorted_ascending.len();
    if n == 0 {
        return 0;
    }
    proof {
        assert(p * n + 99 <= u32::MAX * usize::MAX + 99 <= u128::MAX) by (nonlinear_arith)
            requires
                p <= u32::MAX,
                n <= usize::MAX,
        ;
        assert(0 <= p * n) by (nonlinear_arith);
    }
    let rank: u128 = (p as u128 * n as u128 + 99) / 100;
    let index: usize = if rank == 0 {
        0
    } else if rank > n as u128 {
        n - 1
    } else {
        (rank - 1) as usize
    };
    sorted_ascending[index]
}

/// At least `p` percent of an ascending list do not exceed its percentile.
pub proof fn law_a_percentile_covers_its_share(sorted: Seq<u64>, p: u32, i: int)
    requires
        sorted.len() > 0,
        p <= 100,
        forall|a: int, b: int| 0 <= a <= b < sorted.len() ==> sorted[a] <= sorted[b],
        0 <= i < sorted.len(),
        100 * i < p * sorted.len(),
    ensures
        sorted[i] <= nearest_rank(sorted, p),
{
    let n = sorted.len();
    let total = p * n;
    let rank = (total + 99) / 100;
    assert(rank * 100 >= total);
    assert(i < rank);
    assert(rank <= n) by {
        assert(total <= 100 * n) by (nonlinear_arith)
            requires
                p <= 100,
                total == p * n,
        ;
    }
}

// ---------------------------------------------------------------------------
// The unit simulator
// ---------------------------------------------------------------------------

/// The counters of one rung of the unit simulator.
#[derive(Clone, Copy, Debug, Default)]
pub struct SimReport {
    pub entries: u64,
    pub retired_in_units: u64,
    pub linked_transfers: u64,
    pub loop_links: u64,
    pub call_links: u64,
    pub ret_links: u64,
    pub itc_hits: u64,
    pub ght_hits: u64,
    pub ght_ret_hits: u64,
    pub unresolved_exits: u64,
    pub side_exits_io: u64,
    pub side_exits_async: u64,
    pub io_callouts: u64,
    pub sim_invalidations: u64,
    pub sim_restamps: u64,
    pub units_built: u64,
    pub units_rebuilt: u64,
    pub elided_insns: u64,
    pub elided_waits: u64,
    pub wait_batch_ends: u64,
    pub spin_noio_insns: u64,
}

/// The three quotients of a rung, as numerators and denominators: instructions per
/// entry, the same without what was elided, and that with every absorbed wait as an
/// entry too.
pub open spec fn quotient_terms(r: SimReport) -> ((int, int), (int, int), (int, int)) {
    let active = if r.retired_in_units >= r.elided_insns {
        r.retired_in_units - r.elided_insns
    } else {
        0
    };
    (
        (r.retired_in_units as int, r.entries as int),
        (active, r.entries as int),
        (active, r.entries + r.wait_batch_ends),
    )
}

/// The three quotients of a rung, as numerators and denominators.
pub fn rung_quotient_terms(r: &SimReport) -> (terms: ((u64, u64), (u64, u64), (u64, u64)))
    requires
        r.entries + r.wait_batch_ends <= u64::MAX,
    ensures
        quotient_terms(*r) == (
            (terms.0.0 as int, terms.0.1 as int),
            (terms.1.0 as int, terms.1.1 as int),
            (terms.2.0 as int, terms.2.1 as int),
        ),
{
    let active: u64 = r.retired_in_units.saturating_sub(r.elided_insns);
    ((r.retired_in_units, r.entries), (active, r.entries), (active, r.entries + r.wait_batch_ends))
}

/// The quotients of a rung in decimals, six of them.
#[derive(Debug)]
pub struct RungQuotients {
    pub insns_per_entry: String,
    pub ipe_active: String,
    pub ipe_active_slice: String,
}

/// One rung: its name, its counters, its quotients, and for each unit its members
/// and the page of its entry.
#[derive(Debug)]
pub struct Rung {
    pub cfg: String,
    pub report: SimReport,
    pub quotients: RungQuotients,
    pub histogram: Vec<(u64, u32)>,
}

/// A quotient that was worked out, or none over nothing.
pub open spec fn quotient_text(denominator: int, quotient: Seq<char>) -> Seq<char> {
    if denominator == 0 {
        "0.000000"@
    } else {
        quotient
    }
}

/// The headline of a rung.
pub open spec fn headline(rung: Rung) -> Seq<char> {
    let r = rung.report;
    let q = rung.quotients;
    "unit_sim cfg="@ + rung.cfg@ + " entries="@ + decimal(r.entries as nat)
        + " retired_in_units="@ + decimal(r.retired_in_units as nat)
        + " linked_transfers="@ + decimal(r.linked_transfers as nat)
        + " loop_links="@ + decimal(r.loop_links as nat)
        + " call_links="@ + decimal(r.call_links as nat)
        + " ret_links="@ + decimal(r.ret_links as nat)
        + " itc_hits="@ + decimal(r.itc_hits as nat)
        + " ght_hits="@ + decimal(r.ght_hits as nat)
        + " ght_ret_hits="@ + decimal(r.ght_ret_hits as nat)
        + " unresolved_exits="@ + decimal(r.unresolved_exits as nat)
        + " side_exits_io="@ + decimal(r.side_exits_io as nat)
        + " side_exits_async="@ + decimal(r.side_exits_async as nat)
        + " io_callouts="@ + decimal(r.io_callouts as nat)
        + " sim_invalidations="@ + decimal(r.sim_invalidations as nat)
        + " sim_restamps="@ + decimal(r.sim_restamps as nat)
        + " units_built="@ + decimal(r.units_built as nat)
        + " units_rebuilt="@ + decimal(r.units_rebuilt as nat)
        + " elided_insns="@ + decimal(r.elided_insns as nat)
        + " elided_waits="@ + decimal(r.elided_waits as nat)
        + " wait_batch_ends="@ + decimal(r.wait_batch_ends as nat)
        + " spin_noio_insns="@ + decimal(r.spin_noio_insns as nat)
        + " insns_per_entry="@ + quotient_text(quotient_terms(r).0.1, q.insns_per_entry@)
        + " ipe_active="@ + quotient_text(quotient_terms(r).1.1, q.ipe_active@)
        + " ipe_active_slice="@ + quotient_text(quotient_terms(r).2.1, q.ipe_active_slice@)
}

/// The members of each unit, ascending.
pub open spec fn sorted_members(histogram: Seq<(u64, u32)>) -> Seq<u64> {
    sorted_form(histogram.map_values(|unit: (u64, u32)| (unit.0, 0u64))).map_values(
        |pair: (u64, u64)| pair.0,
    )
}

/// The units with more than `threshold` members.
pub open spec fn units_over(histogram: Seq<(u64, u32)>, threshold: u64) -> nat
    decreases histogram.len(),
{
    if histogram.len() == 0 {
        0
    } else {
        let rest = units_over(histogram.drop_last(), threshold);
        if histogram.last().0 > threshold {
            rest + 1
        } else {
            rest
        }
    }
}

/// The units whose entry lies in the upper memory area or the BIOS.
pub open spec fn excluded_units(histogram: Seq<(u64, u32)>) -> nat
    decreases histogram.len(),
{
    if histogram.len() == 0 {
        0
    } else {
        let rest = excluded_units(histogram.drop_last());
        if 0xa0 <= histogram.last().1 <= 0xff {
            rest + 1
        } else {
            rest
        }
    }
}

/// The second line of a rung: how its units' members are spread.
pub open spec fn histogram_line(rung: Rung) -> Seq<char> {
    let members = sorted_members(rung.histogram@);
    "unit_sim_hist cfg="@ + rung.cfg@ + " units="@ + decimal(rung.histogram@.len())
        + " members_p50="@ + decimal(nearest_rank(members, 50) as nat)
        + " members_p90="@ + decimal(nearest_rank(members, 90) as nat)
        + " members_max="@ + decimal(if members.len() == 0 { 0 } else { members.last() as nat })
        + " units_over_64="@ + decimal(units_over(rung.histogram@, 64))
        + " units_over_128="@ + decimal(units_over(rung.histogram@, 128))
        + " units_over_256="@ + decimal(units_over(rung.histogram@, 256))
        + " excl_units="@ + decimal(excluded_units(rung.histogram@))
}

/// The headline of a rung.
fn headline_text(rung: &Rung) -> (line: String)
    requires
        rung.report.entries + rung.report.wait_batch_ends <= u64::MAX,
    ensures
        line@ == headline(*rung),
{
    let r: &SimReport = &rung.report;
    let terms: ((u64, u64), (u64, u64), (u64, u64)) = rung_quotient_terms(r);
    let mut line: String = "unit_sim cfg=".to_owned();
    line.append(rung.cfg.as_str());
    line.append(" entries=");
    line.append(decimal_text(r.entries).as_str());
    line.append(" retired_in_units=");
    line.append(decimal_text(r.retired_in_units).as_str());
    line.append(" linked_transfers=");
    line.append(decimal_text(r.linked_transfers).as_str());
    line.append(" loop_links=");
    line.append(decimal_text(r.loop_links).as_str());
    line.append(" call_links=");
    line.append(decimal_text(r.call_links).as_str());
    line.append(" ret_links=");
    line.append(decimal_text(r.ret_links).as_str());
    line.append(" itc_hits=");
    line.append(decimal_text(r.itc_hits).as_str());
    line.append(" ght_hits=");
    line.append(decimal_text(r.ght_hits).as_str());
    line.append(" ght_ret_hits=");
    line.append(decimal_text(r.ght_ret_hits).as_str());
    line.append(" unresolved_exits=");
    line.append(decimal_text(r.unresolved_exits).as_str());
    line.append(" side_exits_io=");
    line.append(decimal_text(r.side_exits_io).as_str());
    line.append(" side_exits_async=");
    line.append(decimal_text(r.side_exits_async).as_str());
    line.append(" io_callouts=");
    line.append(decimal_text(r.io_callouts).as_str());
    line.append(" sim_invalidations=");
    line.append(decimal_text(r.sim_invalidations).as_str());
    line.append(" sim_restamps=");
    line.append(decimal_text(r.sim_restamps).as_str());
    line.append(" units_built=");
    line.append(decimal_text(r.units_built).as_str());
    line.append(" units_rebuilt=");
    line.append(decimal_text(r.units_rebuilt).as_str());
    line.append(" elided_insns=");
    line.append(decimal_text(r.elided_insns).as_str());
    line.append(" elided_waits=");
    line.append(decimal_text(r.elided_waits).as_str());
    line.append(" wait_batch_ends=");
    line.append(decimal_text(r.wait_batch_ends).as_str());
    line.append(" spin_noio_insns=");
    line.append(decimal_text(r.spin_noio_insns).as_str());
    line.append(" insns_per_entry=");
    line.append(if terms.0.1 == 0 { "0.000000" } else { rung.quotients.insns_per_entry.as_str() });
    line.append(" ipe_active=");
    line.append(if terms.1.1 == 0 { "0.000000" } else { rung.quotients.ipe_active.as_str() });
    line.append(" ipe_active_slice=");
    line.append(if terms.2.1 == 0 { "0.000000" } else { rung.quotients.ipe_active_slice.as_str() });
    line
}

/// The members of each unit, ascending.
fn members_ascending(histogram: &Vec<(u64, u32)>) -> (members: Vec<u64>)
    ensures
        members@ == sorted_members(histogram@),
{
    let mut pairs: Vec<(u64, u64)> = Vec::new();
    let mut i: usize = 0;
    while i < histogram.len()
        invariant
            i <= histogram@.len(),
            pairs@.len() == i,
            forall|k: int| 0 <= k < i ==> #[trigger] pairs@[k] == (histogram@[k].0, 0u64),
        decreases histogram@.len() - i,
    {
        pairs.push((histogram[i].0, 0));
        i = i + 1;
    }
    assert(pairs@ =~= histogram@.map_values(|unit: (u64, u32)| (unit.0, 0u64)));
    let sorted: Vec<(u64, u64)> = sort_pairs(&pairs);
    let mut members: Vec<u64> = Vec::new();
    let mut k: usize = 0;
    while k < sorted.len()
        invariant
            k <= sorted@.len(),
            members@.len() == k,
            forall|j: int| 0 <= j < k ==> #[trigger] members@[j] == sorted@[j].0,
        decreases sorted@.len() - k,
    {
        members.push(sorted[k].0);
        k = k + 1;
    }
    assert(members@ =~= sorted_members(histogram@));
    members
}

/// The units with more than `threshold` members.
fn count_over(histogram: &Vec<(u64, u32)>, threshold: u64) -> (count: u64)
    ensures
        count == units_over(histogram@, threshold),
{
    let mut count: usize = 0;
    let mut i: usize = 0;
    assert(histogram@.take(0) =~= Seq::empty());
    while i < histogram.len()
        invariant
            i <= histogram@.len(),
            count <= i,
            count == units_over(histogram@.take(i as int), threshold),
        decreases histogram@.len() - i,
    {
        assert(histogram@.take(i + 1).drop_last() =~= histogram@.take(i as int));
        if histogram[i].0 > threshold {
            count = count + 1;
        }
        i = i + 1;
    }
    assert(histogram@.take(histogram@.len() as int) =~= histogram@);
    count as u64
}

/// The units whose entry lies in the upper memory area or the BIOS.
fn count_excluded(histogram: &Vec<(u64, u32)>) -> (count: u64)
    ensures
        count == excluded_units(histogram@),
{
    let mut count: usize = 0;
    let mut i: usize = 0;
    assert(histogram@.take(0) =~= Seq::empty());
    while i < histogram.len()
        invariant
            i <= histogram@.len(),
            count <= i,
            count == excluded_units(histogram@.take(i as int)),
        decreases histogram@.len() - i,
    {
        assert(histogram@.take(i + 1).drop_last() =~= histogram@.take(i as int));
        if 0xa0 <= histogram[i].1 && histogram[i].1 <= 0xff {
            count = count + 1;
        }
        i = i + 1;
    }
    assert(histogram@.take(histogram@.len() as int) =~= histogram@);
    count as u64
}

/// The second line of a rung.
fn histogram_text(rung: &Rung) -> (line: String)
    ensures
        line@ == histogram_line(*rung),
{
    let members: Vec<u64> = members_ascending(&rung.histogram);
    let largest: u64 = if members.len() == 0 {
        0
    } else {
        members[members.len() - 1]
    };
    let mut line: String = "unit_sim_hist cfg=".to_owned();
    line.append(rung.cfg.as_str());
    line.append(" units=");
    line.append(decimal_text(rung.histogram.len() as u64).as_str());
    line.append(" members_p50=");
    line.append(decimal_text(nearest_rank_percentile(&members, 50)).as_str());
    line.append(" members_p90=");
    line.append(decimal_text(nearest_rank_percentile(&members, 90)).as_str());
    line.append(" members_max=");
    line.append(decimal_text(largest).as_str());
    line.append(" units_over_64=");
    line.append(decimal_text(count_over(&rung.histogram, 64)).as_str());
    line.append(" units_over_128=");
    line.append(decimal_text(count_over(&rung.histogram, 128)).as_str());
    line.append(" units_over_256=");
    line.append(decimal_text(count_over(&rung.histogram, 256)).as_str());
    line.append(" excl_units=");
    line.append(decimal_text(count_excluded(&rung.histogram)).as_str());
    line
}

/// The lines of the rungs: two for each, in their order.
pub open spec fn rung_lines(rungs: Seq<Rung>) -> Seq<Seq<char>>
    decreases rungs.len(),
{
    if rungs.len() == 0 {
        Seq::empty()
    } else {
        rung_lines(rungs.drop_last()).push(headline(rungs.last())).push(
            histogram_line(rungs.last()),
        )
    }
}

/// The lines of the rungs: two for each, in their order.
pub fn unit_sim_report_lines(rungs: &Vec<Rung>) -> (lines: Vec<String>)
    requires
        forall|i: int|
            0 <= i < rungs@.len() ==> (#[trigger] rungs@[i]).report.entries
                + rungs@[i].report.wait_batch_ends <= u64::MAX,
    ensures
        text_views(lines@) == rung_lines(rungs@),
{
    let mut lines: Vec<String> = Vec::new();
    let mut i: usize = 0;
    proof {
        assert(rungs@.take(0) =~= Seq::empty());
        assert(text_views(lines@) =~= Seq::empty());
    }
    while i < rungs.len()
        invariant
            i <= rungs@.len(),
            forall|k: int|
                0 <= k < rungs@.len() ==> (#[trigger] rungs@[k]).report.entries
                    + rungs@[k].report.wait_batch_ends <= u64::MAX,
            text_views(lines@) == rung_lines(rungs@.take(i as int)),
        decreases rungs@.len() - i,
    {
        proof {
            assert(rungs@.take(i + 1).drop_last() =~= rungs@.take(i as int));
        }
        let ghost before = text_views(lines@);
        lines.push(headline_text(&rungs[i]));
        assert(text_views(lines@) =~= before.push(headline(rungs@[i as int])));
        let ghost middle = text_views(lines@);
        lines.push(histogram_text(&rungs[i]));
        assert(text_views(lines@) =~= middle.push(histogram_line(rungs@[i as int])));
        i = i + 1;
    }
    assert(rungs@.take(rungs@.len() as int) =~= rungs@);
    lines
}

// ---------------------------------------------------------------------------
// Timed demos
// ---------------------------------------------------------------------------

/// The result that one line of the screen states, if it states one.
pub open spec fn timedemo_of_line(line: Seq<char>) -> Option<(nat, nat)> {
    let line = trimmed(line);
    if !stands_at(line, "timed "@, 0) {
        None
    } else {
        match split_once(line.skip("timed "@.len() as int), " gametics in "@) {
            None => None,
            Some((gametics, rest)) => if rest.len() < " realtics"@.len() || !stands_at(
                rest,
                " realtics"@,
                rest.len() - " realtics"@.len(),
            ) {
                None
            } else {
                let realtics = rest.take(rest.len() - " realtics"@.len());
                match (
                    parsed_nat(gametics, u32::MAX as nat),
                    parsed_nat(realtics, u32::MAX as nat),
                ) {
                    (Some(g), Some(r)) => Some((g, r)),
                    _ => None,
                }
            },
        }
    }
}

/// The result that the first of these lines to state one states.
pub open spec fn first_timedemo(lines: Seq<Seq<char>>) -> Option<(nat, nat)>
    decreases lines.len(),
{
    if lines.len() == 0 {
        None
    } else {
        match timedemo_of_line(lines[0]) {
            Some(result) => Some(result),
            None => first_timedemo(lines.drop_first()),
        }
    }
}

/// The result that one line of the screen states.
fn read_timedemo(line: &Vec<char>) -> (result: Option<(u32, u32)>)
    ensures
        match result {
            Some(r) => timedemo_of_line(line@) == Some((r.0 as nat, r.1 as nat)),
            None => timedemo_of_line(line@) is None,
        },
{
    let line: Vec<char> = trim_chars(line);
    let timed: Vec<char> = chars_of("timed ");
    if timed.len() > line.len() || !stands(&line, &timed, 0) {
        return None;
    }
    let after: Vec<char> = cut(&line, timed.len(), line.len());
    assert(after@ =~= line@.skip("timed "@.len() as int));
    let middle: Vec<char> = chars_of(" gametics in ");
    match cut_once(&after, &middle) {
        None => None,
        Some((gametics, rest)) => {
            let end: Vec<char> = chars_of(" realtics");
            if rest.len() < end.len() || !stands(&rest, &end, rest.len() - end.len()) {
                return None;
            }
            let realtics: Vec<char> = cut(&rest, 0, rest.len() - end.len());
            assert(realtics@ =~= rest@.take(rest@.len() - " realtics"@.len()));
            match (read_nat(&gametics, 0xffff_ffff), read_nat(&realtics, 0xffff_ffff)) {
                (Some(g), Some(r)) => Some((g as u32, r as u32)),
                _ => None,
            }
        },
    }
}

/// The result of a timed demo that the guest's screen states, if it states one.
pub fn extract_timedemo_realtics(text: &str) -> (result: Option<(u32, u32)>)
    ensures
        match result {
            Some(r) => first_timedemo(split(text@, '\n')) == Some((r.0 as nat, r.1 as nat)),
            None => first_timedemo(split(text@, '\n')) is None,
        },
{
    let lines: Vec<Vec<char>> = split_chars(&chars_of(text), '\n');
    let ghost list = views(lines@);
    let mut i: usize = 0;
    assert(list.skip(0) =~= list);
    while i < lines.len()
        invariant
            i <= lines@.len(),
            list == views(lines@),
            list == split(text@, '\n'),
            first_timedemo(list) == first_timedemo(list.skip(i as int)),
        decreases lines@.len() - i,
    {
        proof {
            assert(list.skip(i as int)[0] == lines@[i as int]@);
            assert(list.skip(i as int).drop_first() =~= list.skip(i + 1));
        }
        match read_timedemo(&lines[i]) {
            Some(result) => {
                return Some(result);
            },
            None => {},
        }
        i = i + 1;
    }
    assert(list.skip(i as int) =~= Seq::empty());
    None
}

/// The line that states the result of a timed demo.
pub open spec fn timedemo_text(gametics: nat, realtics: nat) -> Seq<char> {
    "timed "@ + decimal(gametics) + " gametics in "@ + decimal(realtics) + " realtics"@
}

/// The line that states the result of a timed demo.
pub fn timedemo_line(gametics: u32, realtics: u32) -> (line: String)
    ensures
        line@ == timedemo_text(gametics as nat, realtics as nat),
{
    let mut line: String = "timed ".to_owned();
    line.append(decimal_text(gametics as u64).as_str());
    line.append(" gametics in ");
    line.append(decimal_text(realtics as u64).as_str());
    line.append(" realtics");
    line
}

/// A stated result reads back as it was stated.
pub proof fn law_a_timedemo_line_reads_back(gametics: u32, realtics: u32)
    ensures
        timedemo_of_line(timedemo_text(gametics as nat, realtics as nat)) == Some(
            (gametics as nat, realtics as nat),
        ),
{
    reveal_strlit("timed ");
    reveal_strlit(" gametics in ");
    reveal_strlit(" realtics");
    let g = decimal(gametics as nat);
    let r = decimal(realtics as nat);
    let timed = "timed "@;
    let middle = " gametics in "@;
    let end = " realtics"@;
    let line = timedemo_text(gametics as nat, realtics as nat);
    lemma_decimal_is_digits(gametics as nat);
    lemma_decimal_is_digits(realtics as nat);
    assert(line[0] == 't');
    assert(line.last() == 's');
    lemma_nothing_to_trim(line);
    assert(stands_at(line, timed, 0)) by {
        assert(line.subrange(0, timed.len() as int) =~= timed);
    }
    let after = line.skip(timed.len() as int);
    assert(after =~= g + middle + (r + end));
    assert(after.subrange(g.len() as int, (g.len() + middle.len()) as int) =~= middle);
    assert forall|i: int| 0 <= i < g.len() implies after[i] != ' ' by {
        assert(is_digit(g[i]));
    }
    lemma_first_stand(after, middle, g.len(), 0);
    assert(after.take(g.len() as int) =~= g);
    let rest = after.skip((g.len() + middle.len()) as int);
    assert(rest =~= r + end);
    assert(stands_at(rest, end, rest.len() - end.len())) by {
        assert(rest.subrange(rest.len() - end.len(), rest.len() as int) =~= end);
    }
    assert(rest.take(rest.len() - end.len()) =~= r);
}

/// A pattern that begins with a space is first found where the spaces begin.
proof fn lemma_first_stand(text: Seq<char>, pattern: Seq<char>, at: nat, from: nat)
    requires
        pattern.len() > 0,
        pattern[0] == ' ',
        from <= at,
        at + pattern.len() <= text.len(),
        text.subrange(at as int, (at + pattern.len()) as int) == pattern,
        forall|i: int| 0 <= i < at ==> text[i] != ' ',
    ensures
        find_from(text, pattern, from) == Some(at),
    decreases at - from,
{
    if from < at {
        assert(!stands_at(text, pattern, from as int)) by {
            if stands_at(text, pattern, from as int) {
                assert(text.subrange(from as int, (from + pattern.len()) as int)[0] == text[from as int]);
            }
        }
        lemma_first_stand(text, pattern, at, from + 1);
    }
}

/// A text that neither begins nor ends with white space is left as it is.
proof fn lemma_nothing_to_trim(text: Seq<char>)
    requires
        text.len() > 0,
        !is_space(text[0]),
        !is_space(text.last()),
    ensures
        trimmed(text) == text,
{
}

/// How the words of the line begin.
proof fn lemma_a_headline_reads_back_leads()
    ensures
        !"cfg="@.contains(' '),
        !"entries="@.contains(' '),
        !"retired_in_units="@.contains(' '),
        !"linked_transfers="@.contains(' '),
        !"loop_links="@.contains(' '),
        !"call_links="@.contains(' '),
        !"ret_links="@.contains(' '),
        !"itc_hits="@.contains(' '),
        !"ght_hits="@.contains(' '),
        !"ght_ret_hits="@.contains(' '),
        !"unresolved_exits="@.contains(' '),
        !"side_exits_io="@.contains(' '),
        !"side_exits_async="@.contains(' '),
        !"io_callouts="@.contains(' '),
        !"sim_invalidations="@.contains(' '),
        !"sim_restamps="@.contains(' '),
        !"units_built="@.contains(' '),
        !"units_rebuilt="@.contains(' '),
        !"elided_insns="@.contains(' '),
        !"elided_waits="@.contains(' '),
        !"wait_batch_ends="@.contains(' '),
        !"spin_noio_insns="@.contains(' '),
        !"insns_per_entry="@.contains(' '),
        !"ipe_active="@.contains(' '),
        !"ipe_active_slice="@.contains(' '),
        " entries="@ == seq![' '] + "entries="@,
        " retired_in_units="@ == seq![' '] + "retired_in_units="@,
        " linked_transfers="@ == seq![' '] + "linked_transfers="@,
        " loop_links="@ == seq![' '] + "loop_links="@,
        " call_links="@ == seq![' '] + "call_links="@,
        " ret_links="@ == seq![' '] + "ret_links="@,
        " itc_hits="@ == seq![' '] + "itc_hits="@,
        " ght_hits="@ == seq![' '] + "ght_hits="@,
        " ght_ret_hits="@ == seq![' '] + "ght_ret_hits="@,
        " unresolved_exits="@ == seq![' '] + "unresolved_exits="@,
        " side_exits_io="@ == seq![' '] + "side_exits_io="@,
        " side_exits_async="@ == seq![' '] + "side_exits_async="@,
        " io_callouts="@ == seq![' '] + "io_callouts="@,
        " sim_invalidations="@ == seq![' '] + "sim_invalidations="@,
        " sim_restamps="@ == seq![' '] + "sim_restamps="@,
        " units_built="@ == seq![' '] + "units_built="@,
        " units_rebuilt="@ == seq![' '] + "units_rebuilt="@,
        " elided_insns="@ == seq![' '] + "elided_insns="@,
        " elided_waits="@ == seq![' '] + "elided_waits="@,
        " wait_batch_ends="@ == seq![' '] + "wait_batch_ends="@,
        " spin_noio_insns="@ == seq![' '] + "spin_noio_insns="@,
        " insns_per_entry="@ == seq![' '] + "insns_per_entry="@,
        " ipe_active="@ == seq![' '] + "ipe_active="@,
        " ipe_active_slice="@ == seq![' '] + "ipe_active_slice="@,
        "unit_sim cfg="@ == "unit_sim"@ + (seq![' '] + "cfg="@),
        !"unit_sim"@.contains(' '),
{
    reveal_strlit("cfg=");
    reveal_strlit("entries=");
    reveal_strlit("retired_in_units=");
    reveal_strlit("linked_transfers=");
    reveal_strlit("loop_links=");
    reveal_strlit("call_links=");
    reveal_strlit("ret_links=");
    reveal_strlit("itc_hits=");
    reveal_strlit("ght_hits=");
    reveal_strlit("ght_ret_hits=");
    reveal_strlit("unresolved_exits=");
    reveal_strlit("side_exits_io=");
    reveal_strlit("side_exits_async=");
    reveal_strlit("io_callouts=");
    reveal_strlit("sim_invalidations=");
    reveal_strlit("sim_restamps=");
    reveal_strlit("units_built=");
    reveal_strlit("units_rebuilt=");
    reveal_strlit("elided_insns=");
    reveal_strlit("elided_waits=");
    reveal_strlit("wait_batch_ends=");
    reveal_strlit("spin_noio_insns=");
    reveal_strlit("insns_per_entry=");
    reveal_strlit("ipe_active=");
    reveal_strlit("ipe_active_slice=");
    reveal_strlit(" entries=");
    reveal_strlit(" retired_in_units=");
    reveal_strlit(" linked_transfers=");
    reveal_strlit(" loop_links=");
    reveal_strlit(" call_links=");
    reveal_strlit(" ret_links=");
    reveal_strlit(" itc_hits=");
    reveal_strlit(" ght_hits=");
    reveal_strlit(" ght_ret_hits=");
    reveal_strlit(" unresolved_exits=");
    reveal_strlit(" side_exits_io=");
    reveal_strlit(" side_exits_async=");
    reveal_strlit(" io_callouts=");
    reveal_strlit(" sim_invalidations=");
    reveal_strlit(" sim_restamps=");
    reveal_strlit(" units_built=");
    reveal_strlit(" units_rebuilt=");
    reveal_strlit(" elided_insns=");
    reveal_strlit(" elided_waits=");
    reveal_strlit(" wait_batch_ends=");
    reveal_strlit(" spin_noio_insns=");
    reveal_strlit(" insns_per_entry=");
    reveal_strlit(" ipe_active=");
    reveal_strlit(" ipe_active_slice=");
    reveal_strlit("unit_sim cfg=");
    reveal_strlit("unit_sim");
    assert(" entries="@ =~= seq![' '] + "entries="@);
    assert(" retired_in_units="@ =~= seq![' '] + "retired_in_units="@);
    assert(" linked_transfers="@ =~= seq![' '] + "linked_transfers="@);
    assert(" loop_links="@ =~= seq![' '] + "loop_links="@);
    assert(" call_links="@ =~= seq![' '] + "call_links="@);
    assert(" ret_links="@ =~= seq![' '] + "ret_links="@);
    assert(" itc_hits="@ =~= seq![' '] + "itc_hits="@);
    assert(" ght_hits="@ =~= seq![' '] + "ght_hits="@);
    assert(" ght_ret_hits="@ =~= seq![' '] + "ght_ret_hits="@);
    assert(" unresolved_exits="@ =~= seq![' '] + "unresolved_exits="@);
    assert(" side_exits_io="@ =~= seq![' '] + "side_exits_io="@);
    assert(" side_exits_async="@ =~= seq![' '] + "side_exits_async="@);
    assert(" io_callouts="@ =~= seq![' '] + "io_callouts="@);
    assert(" sim_invalidations="@ =~= seq![' '] + "sim_invalidations="@);
    assert(" sim_restamps="@ =~= seq![' '] + "sim_restamps="@);
    assert(" units_built="@ =~= seq![' '] + "units_built="@);
    assert(" units_rebuilt="@ =~= seq![' '] + "units_rebuilt="@);
    assert(" elided_insns="@ =~= seq![' '] + "elided_insns="@);
    assert(" elided_waits="@ =~= seq![' '] + "elided_waits="@);
    assert(" wait_batch_ends="@ =~= seq![' '] + "wait_batch_ends="@);
    assert(" spin_noio_insns="@ =~= seq![' '] + "spin_noio_insns="@);
    assert(" insns_per_entry="@ =~= seq![' '] + "insns_per_entry="@);
    assert(" ipe_active="@ =~= seq![' '] + "ipe_active="@);
    assert(" ipe_active_slice="@ =~= seq![' '] + "ipe_active_slice="@);
    assert("unit_sim cfg="@ =~= "unit_sim"@ + (seq![' '] + "cfg="@));
}

/// A headline reads back between its spaces: each counter of the rung behind its own name,
/// and the three quotients, of which those over nothing are nought.
#[verifier::rlimit(50)]
pub proof fn law_a_headline_reads_back(rung: Rung)
    requires
        !rung.cfg@.contains(' '),
        !rung.quotients.insns_per_entry@.contains(' '),
        !rung.quotients.ipe_active@.contains(' '),
        !rung.quotients.ipe_active_slice@.contains(' '),
    ensures
        split(headline(rung), ' ') == seq![
            "unit_sim"@,
            "cfg="@ + rung.cfg@,
            "entries="@ + decimal(rung.report.entries as nat),
            "retired_in_units="@ + decimal(rung.report.retired_in_units as nat),
            "linked_transfers="@ + decimal(rung.report.linked_transfers as nat),
            "loop_links="@ + decimal(rung.report.loop_links as nat),
            "call_links="@ + decimal(rung.report.call_links as nat),
            "ret_links="@ + decimal(rung.report.ret_links as nat),
            "itc_hits="@ + decimal(rung.report.itc_hits as nat),
            "ght_hits="@ + decimal(rung.report.ght_hits as nat),
            "ght_ret_hits="@ + decimal(rung.report.ght_ret_hits as nat),
            "unresolved_exits="@ + decimal(rung.report.unresolved_exits as nat),
            "side_exits_io="@ + decimal(rung.report.side_exits_io as nat),
            "side_exits_async="@ + decimal(rung.report.side_exits_async as nat),
            "io_callouts="@ + decimal(rung.report.io_callouts as nat),
            "sim_invalidations="@ + decimal(rung.report.sim_invalidations as nat),
            "sim_restamps="@ + decimal(rung.report.sim_restamps as nat),
            "units_built="@ + decimal(rung.report.units_built as nat),
            "units_rebuilt="@ + decimal(rung.report.units_rebuilt as nat),
            "elided_insns="@ + decimal(rung.report.elided_insns as nat),
            "elided_waits="@ + decimal(rung.report.elided_waits as nat),
            "wait_batch_ends="@ + decimal(rung.report.wait_batch_ends as nat),
            "spin_noio_insns="@ + decimal(rung.report.spin_noio_insns as nat),
            "insns_per_entry="@ + quotient_text((rung.report.entries) as int, rung.quotients.insns_per_entry@),
            "ipe_active="@ + quotient_text((rung.report.entries) as int, rung.quotients.ipe_active@),
            "ipe_active_slice="@ + quotient_text((rung.report.entries + rung.report.wait_batch_ends) as int, rung.quotients.ipe_active_slice@),
        ],
{
    lemma_a_headline_reads_back_leads();
    reveal_strlit("0.000000");
    assert(!"0.000000"@.contains(' '));
    lemma_numerals_hold_digits(rung.report.entries as nat, 0, ' ');
    lemma_numerals_hold_digits(rung.report.retired_in_units as nat, 0, ' ');
    lemma_numerals_hold_digits(rung.report.linked_transfers as nat, 0, ' ');
    lemma_numerals_hold_digits(rung.report.loop_links as nat, 0, ' ');
    lemma_numerals_hold_digits(rung.report.call_links as nat, 0, ' ');
    lemma_numerals_hold_digits(rung.report.ret_links as nat, 0, ' ');
    lemma_numerals_hold_digits(rung.report.itc_hits as nat, 0, ' ');
    lemma_numerals_hold_digits(rung.report.ght_hits as nat, 0, ' ');
    lemma_numerals_hold_digits(rung.report.ght_ret_hits as nat, 0, ' ');
    lemma_numerals_hold_digits(rung.report.unresolved_exits as nat, 0, ' ');
    lemma_numerals_hold_digits(rung.report.side_exits_io as nat, 0, ' ');
    lemma_numerals_hold_digits(rung.report.side_exits_async as nat, 0, ' ');
    lemma_numerals_hold_digits(rung.report.io_callouts as nat, 0, ' ');
    lemma_numerals_hold_digits(rung.report.sim_invalidations as nat, 0, ' ');
    lemma_numerals_hold_digits(rung.report.sim_restamps as nat, 0, ' ');
    lemma_numerals_hold_digits(rung.report.units_built as nat, 0, ' ');
    lemma_numerals_hold_digits(rung.report.units_rebuilt as nat, 0, ' ');
    lemma_numerals_hold_digits(rung.report.elided_insns as nat, 0, ' ');
    lemma_numerals_hold_digits(rung.report.elided_waits as nat, 0, ' ');
    lemma_numerals_hold_digits(rung.report.wait_batch_ends as nat, 0, ' ');
    lemma_numerals_hold_digits(rung.report.spin_noio_insns as nat, 0, ' ');
    lemma_the_first_word("unit_sim"@);
    lemma_word_added("unit_sim"@, seq!["unit_sim"@], seq![' '] + "cfg="@, "cfg="@, rung.cfg@);
    let words = seq!["unit_sim"@].push("cfg="@ + rung.cfg@);
    let line = "unit_sim cfg="@ + rung.cfg@;
    assert(line =~= "unit_sim"@ + (seq![' '] + "cfg="@) + rung.cfg@);
    lemma_word_added(line, words, " entries="@, "entries="@, decimal(rung.report.entries as nat));
    let line = line + " entries="@ + decimal(rung.report.entries as nat);
    let words = words.push("entries="@ + decimal(rung.report.entries as nat));
    lemma_word_added(line, words, " retired_in_units="@, "retired_in_units="@, decimal(rung.report.retired_in_units as nat));
    let line = line + " retired_in_units="@ + decimal(rung.report.retired_in_units as nat);
    let words = words.push("retired_in_units="@ + decimal(rung.report.retired_in_units as nat));
    lemma_word_added(line, words, " linked_transfers="@, "linked_transfers="@, decimal(rung.report.linked_transfers as nat));
    let line = line + " linked_transfers="@ + decimal(rung.report.linked_transfers as nat);
    let words = words.push("linked_transfers="@ + decimal(rung.report.linked_transfers as nat));
    lemma_word_added(line, words, " loop_links="@, "loop_links="@, decimal(rung.report.loop_links as nat));
    let line = line + " loop_links="@ + decimal(rung.report.loop_links as nat);
    let words = words.push("loop_links="@ + decimal(rung.report.loop_links as nat));
    lemma_word_added(line, words, " call_links="@, "call_links="@, decimal(rung.report.call_links as nat));
    let line = line + " call_links="@ + decimal(rung.report.call_links as nat);
    let words = words.push("call_links="@ + decimal(rung.report.call_links as nat));
    lemma_word_added(line, words, " ret_links="@, "ret_links="@, decimal(rung.report.ret_links as nat));
    let line = line + " ret_links="@ + decimal(rung.report.ret_links as nat);
    let words = words.push("ret_links="@ + decimal(rung.report.ret_links as nat));
    lemma_word_added(line, words, " itc_hits="@, "itc_hits="@, decimal(rung.report.itc_hits as nat));
    let line = line + " itc_hits="@ + decimal(rung.report.itc_hits as nat);
    let words = words.push("itc_hits="@ + decimal(rung.report.itc_hits as nat));
    lemma_word_added(line, words, " ght_hits="@, "ght_hits="@, decimal(rung.report.ght_hits as nat));
    let line = line + " ght_hits="@ + decimal(rung.report.ght_hits as nat);
    let words = words.push("ght_hits="@ + decimal(rung.report.ght_hits as nat));
    lemma_word_added(line, words, " ght_ret_hits="@, "ght_ret_hits="@, decimal(rung.report.ght_ret_hits as nat));
    let line = line + " ght_ret_hits="@ + decimal(rung.report.ght_ret_hits as nat);
    let words = words.push("ght_ret_hits="@ + decimal(rung.report.ght_ret_hits as nat));
    lemma_word_added(line, words, " unresolved_exits="@, "unresolved_exits="@, decimal(rung.report.unresolved_exits as nat));
    let line = line + " unresolved_exits="@ + decimal(rung.report.unresolved_exits as nat);
    let words = words.push("unresolved_exits="@ + decimal(rung.report.unresolved_exits as nat));
    lemma_word_added(line, words, " side_exits_io="@, "side_exits_io="@, decimal(rung.report.side_exits_io as nat));
    let line = line + " side_exits_io="@ + decimal(rung.report.side_exits_io as nat);
    let words = words.push("side_exits_io="@ + decimal(rung.report.side_exits_io as nat));
    lemma_word_added(line, words, " side_exits_async="@, "side_exits_async="@, decimal(rung.report.side_exits_async as nat));
    let line = line + " side_exits_async="@ + decimal(rung.report.side_exits_async as nat);
    let words = words.push("side_exits_async="@ + decimal(rung.report.side_exits_async as nat));
    lemma_word_added(line, words, " io_callouts="@, "io_callouts="@, decimal(rung.report.io_callouts as nat));
    let line = line + " io_callouts="@ + decimal(rung.report.io_callouts as nat);
    let words = words.push("io_callouts="@ + decimal(rung.report.io_callouts as nat));
    lemma_word_added(line, words, " sim_invalidations="@, "sim_invalidations="@, decimal(rung.report.sim_invalidations as nat));
    let line = line + " sim_invalidations="@ + decimal(rung.report.sim_invalidations as nat);
    let words = words.push("sim_invalidations="@ + decimal(rung.report.sim_invalidations as nat));
    lemma_word_added(line, words, " sim_restamps="@, "sim_restamps="@, decimal(rung.report.sim_restamps as nat));
    let line = line + " sim_restamps="@ + decimal(rung.report.sim_restamps as nat);
    let words = words.push("sim_restamps="@ + decimal(rung.report.sim_restamps as nat));
    lemma_word_added(line, words, " units_built="@, "units_built="@, decimal(rung.report.units_built as nat));
    let line = line + " units_built="@ + decimal(rung.report.units_built as nat);
    let words = words.push("units_built="@ + decimal(rung.report.units_built as nat));
    lemma_word_added(line, words, " units_rebuilt="@, "units_rebuilt="@, decimal(rung.report.units_rebuilt as nat));
    let line = line + " units_rebuilt="@ + decimal(rung.report.units_rebuilt as nat);
    let words = words.push("units_rebuilt="@ + decimal(rung.report.units_rebuilt as nat));
    lemma_word_added(line, words, " elided_insns="@, "elided_insns="@, decimal(rung.report.elided_insns as nat));
    let line = line + " elided_insns="@ + decimal(rung.report.elided_insns as nat);
    let words = words.push("elided_insns="@ + decimal(rung.report.elided_insns as nat));
    lemma_word_added(line, words, " elided_waits="@, "elided_waits="@, decimal(rung.report.elided_waits as nat));
    let line = line + " elided_waits="@ + decimal(rung.report.elided_waits as nat);
    let words = words.push("elided_waits="@ + decimal(rung.report.elided_waits as nat));
    lemma_word_added(line, words, " wait_batch_ends="@, "wait_batch_ends="@, decimal(rung.report.wait_batch_ends as nat));
    let line = line + " wait_batch_ends="@ + decimal(rung.report.wait_batch_ends as nat);
    let words = words.push("wait_batch_ends="@ + decimal(rung.report.wait_batch_ends as nat));
    lemma_word_added(line, words, " spin_noio_insns="@, "spin_noio_insns="@, decimal(rung.report.spin_noio_insns as nat));
    let line = line + " spin_noio_insns="@ + decimal(rung.report.spin_noio_insns as nat);
    let words = words.push("spin_noio_insns="@ + decimal(rung.report.spin_noio_insns as nat));
    lemma_word_added(line, words, " insns_per_entry="@, "insns_per_entry="@, quotient_text((rung.report.entries) as int, rung.quotients.insns_per_entry@));
    let line = line + " insns_per_entry="@ + quotient_text((rung.report.entries) as int, rung.quotients.insns_per_entry@);
    let words = words.push("insns_per_entry="@ + quotient_text((rung.report.entries) as int, rung.quotients.insns_per_entry@));
    lemma_word_added(line, words, " ipe_active="@, "ipe_active="@, quotient_text((rung.report.entries) as int, rung.quotients.ipe_active@));
    let line = line + " ipe_active="@ + quotient_text((rung.report.entries) as int, rung.quotients.ipe_active@);
    let words = words.push("ipe_active="@ + quotient_text((rung.report.entries) as int, rung.quotients.ipe_active@));
    lemma_word_added(line, words, " ipe_active_slice="@, "ipe_active_slice="@, quotient_text((rung.report.entries + rung.report.wait_batch_ends) as int, rung.quotients.ipe_active_slice@));
    let line = line + " ipe_active_slice="@ + quotient_text((rung.report.entries + rung.report.wait_batch_ends) as int, rung.quotients.ipe_active_slice@);
    let words = words.push("ipe_active_slice="@ + quotient_text((rung.report.entries + rung.report.wait_batch_ends) as int, rung.quotients.ipe_active_slice@));
    lemma_words_read_back(line, words);
    assert(words =~= seq![
        "unit_sim"@,
        "cfg="@ + rung.cfg@,
        "entries="@ + decimal(rung.report.entries as nat),
        "retired_in_units="@ + decimal(rung.report.retired_in_units as nat),
        "linked_transfers="@ + decimal(rung.report.linked_transfers as nat),
        "loop_links="@ + decimal(rung.report.loop_links as nat),
        "call_links="@ + decimal(rung.report.call_links as nat),
        "ret_links="@ + decimal(rung.report.ret_links as nat),
        "itc_hits="@ + decimal(rung.report.itc_hits as nat),
        "ght_hits="@ + decimal(rung.report.ght_hits as nat),
        "ght_ret_hits="@ + decimal(rung.report.ght_ret_hits as nat),
        "unresolved_exits="@ + decimal(rung.report.unresolved_exits as nat),
        "side_exits_io="@ + decimal(rung.report.side_exits_io as nat),
        "side_exits_async="@ + decimal(rung.report.side_exits_async as nat),
        "io_callouts="@ + decimal(rung.report.io_callouts as nat),
        "sim_invalidations="@ + decimal(rung.report.sim_invalidations as nat),
        "sim_restamps="@ + decimal(rung.report.sim_restamps as nat),
        "units_built="@ + decimal(rung.report.units_built as nat),
        "units_rebuilt="@ + decimal(rung.report.units_rebuilt as nat),
        "elided_insns="@ + decimal(rung.report.elided_insns as nat),
        "elided_waits="@ + decimal(rung.report.elided_waits as nat),
        "wait_batch_ends="@ + decimal(rung.report.wait_batch_ends as nat),
        "spin_noio_insns="@ + decimal(rung.report.spin_noio_insns as nat),
        "insns_per_entry="@ + quotient_text((rung.report.entries) as int, rung.quotients.insns_per_entry@),
        "ipe_active="@ + quotient_text((rung.report.entries) as int, rung.quotients.ipe_active@),
        "ipe_active_slice="@ + quotient_text((rung.report.entries + rung.report.wait_batch_ends) as int, rung.quotients.ipe_active_slice@),
    ]);
}

/// The last and so the largest of an ascending list, nought of nothing.
pub open spec fn largest(ascending: Seq<u64>) -> nat {
    if ascending.len() == 0 {
        0
    } else {
        ascending.last() as nat
    }
}

/// How the words of the line begin.
proof fn lemma_a_histogram_line_reads_back_leads()
    ensures
        !"cfg="@.contains(' '),
        !"units="@.contains(' '),
        !"members_p50="@.contains(' '),
        !"members_p90="@.contains(' '),
        !"members_max="@.contains(' '),
        !"units_over_64="@.contains(' '),
        !"units_over_128="@.contains(' '),
        !"units_over_256="@.contains(' '),
        !"excl_units="@.contains(' '),
        " units="@ == seq![' '] + "units="@,
        " members_p50="@ == seq![' '] + "members_p50="@,
        " members_p90="@ == seq![' '] + "members_p90="@,
        " members_max="@ == seq![' '] + "members_max="@,
        " units_over_64="@ == seq![' '] + "units_over_64="@,
        " units_over_128="@ == seq![' '] + "units_over_128="@,
        " units_over_256="@ == seq![' '] + "units_over_256="@,
        " excl_units="@ == seq![' '] + "excl_units="@,
        "unit_sim_hist cfg="@ == "unit_sim_hist"@ + (seq![' '] + "cfg="@),
        !"unit_sim_hist"@.contains(' '),
{
    reveal_strlit("cfg=");
    reveal_strlit("units=");
    reveal_strlit("members_p50=");
    reveal_strlit("members_p90=");
    reveal_strlit("members_max=");
    reveal_strlit("units_over_64=");
    reveal_strlit("units_over_128=");
    reveal_strlit("units_over_256=");
    reveal_strlit("excl_units=");
    reveal_strlit(" units=");
    reveal_strlit(" members_p50=");
    reveal_strlit(" members_p90=");
    reveal_strlit(" members_max=");
    reveal_strlit(" units_over_64=");
    reveal_strlit(" units_over_128=");
    reveal_strlit(" units_over_256=");
    reveal_strlit(" excl_units=");
    reveal_strlit("unit_sim_hist cfg=");
    reveal_strlit("unit_sim_hist");
    assert(" units="@ =~= seq![' '] + "units="@);
    assert(" members_p50="@ =~= seq![' '] + "members_p50="@);
    assert(" members_p90="@ =~= seq![' '] + "members_p90="@);
    assert(" members_max="@ =~= seq![' '] + "members_max="@);
    assert(" units_over_64="@ =~= seq![' '] + "units_over_64="@);
    assert(" units_over_128="@ =~= seq![' '] + "units_over_128="@);
    assert(" units_over_256="@ =~= seq![' '] + "units_over_256="@);
    assert(" excl_units="@ =~= seq![' '] + "excl_units="@);
    assert("unit_sim_hist cfg="@ =~= "unit_sim_hist"@ + (seq![' '] + "cfg="@));
}

/// The second line of a rung reads back between its spaces: its units, the spread of their
/// members, and the units over each size.
#[verifier::rlimit(50)]
pub proof fn law_a_histogram_line_reads_back(rung: Rung)
    requires
        !rung.cfg@.contains(' '),
    ensures
        split(histogram_line(rung), ' ') == seq![
            "unit_sim_hist"@,
            "cfg="@ + rung.cfg@,
            "units="@ + decimal(rung.histogram@.len()),
            "members_p50="@ + decimal(nearest_rank(sorted_members(rung.histogram@), 50) as nat),
            "members_p90="@ + decimal(nearest_rank(sorted_members(rung.histogram@), 90) as nat),
            "members_max="@ + decimal(largest(sorted_members(rung.histogram@))),
            "units_over_64="@ + decimal(units_over(rung.histogram@, 64)),
            "units_over_128="@ + decimal(units_over(rung.histogram@, 128)),
            "units_over_256="@ + decimal(units_over(rung.histogram@, 256)),
            "excl_units="@ + decimal(excluded_units(rung.histogram@)),
        ],
{
    lemma_a_histogram_line_reads_back_leads();
    lemma_numerals_hold_digits(rung.histogram@.len(), 0, ' ');
    lemma_numerals_hold_digits(nearest_rank(sorted_members(rung.histogram@), 50) as nat, 0, ' ');
    lemma_numerals_hold_digits(nearest_rank(sorted_members(rung.histogram@), 90) as nat, 0, ' ');
    lemma_numerals_hold_digits(largest(sorted_members(rung.histogram@)), 0, ' ');
    lemma_numerals_hold_digits(units_over(rung.histogram@, 64), 0, ' ');
    lemma_numerals_hold_digits(units_over(rung.histogram@, 128), 0, ' ');
    lemma_numerals_hold_digits(units_over(rung.histogram@, 256), 0, ' ');
    lemma_numerals_hold_digits(excluded_units(rung.histogram@), 0, ' ');
    lemma_the_first_word("unit_sim_hist"@);
    lemma_word_added("unit_sim_hist"@, seq!["unit_sim_hist"@], seq![' '] + "cfg="@, "cfg="@, rung.cfg@);
    let words = seq!["unit_sim_hist"@].push("cfg="@ + rung.cfg@);
    let line = "unit_sim_hist cfg="@ + rung.cfg@;
    assert(line =~= "unit_sim_hist"@ + (seq![' '] + "cfg="@) + rung.cfg@);
    lemma_word_added(line, words, " units="@, "units="@, decimal(rung.histogram@.len()));
    let line = line + " units="@ + decimal(rung.histogram@.len());
    let words = words.push("units="@ + decimal(rung.histogram@.len()));
    lemma_word_added(line, words, " members_p50="@, "members_p50="@, decimal(nearest_rank(sorted_members(rung.histogram@), 50) as nat));
    let line = line + " members_p50="@ + decimal(nearest_rank(sorted_members(rung.histogram@), 50) as nat);
    let words = words.push("members_p50="@ + decimal(nearest_rank(sorted_members(rung.histogram@), 50) as nat));
    lemma_word_added(line, words, " members_p90="@, "members_p90="@, decimal(nearest_rank(sorted_members(rung.histogram@), 90) as nat));
    let line = line + " members_p90="@ + decimal(nearest_rank(sorted_members(rung.histogram@), 90) as nat);
    let words = words.push("members_p90="@ + decimal(nearest_rank(sorted_members(rung.histogram@), 90) as nat));
    lemma_word_added(line, words, " members_max="@, "members_max="@, decimal(largest(sorted_members(rung.histogram@))));
    let line = line + " members_max="@ + decimal(largest(sorted_members(rung.histogram@)));
    let words = words.push("members_max="@ + decimal(largest(sorted_members(rung.histogram@))));
    lemma_word_added(line, words, " units_over_64="@, "units_over_64="@, decimal(units_over(rung.histogram@, 64)));
    let line = line + " units_over_64="@ + decimal(units_over(rung.histogram@, 64));
    let words = words.push("units_over_64="@ + decimal(units_over(rung.histogram@, 64)));
    lemma_word_added(line, words, " units_over_128="@, "units_over_128="@, decimal(units_over(rung.histogram@, 128)));
    let line = line + " units_over_128="@ + decimal(units_over(rung.histogram@, 128));
    let words = words.push("units_over_128="@ + decimal(units_over(rung.histogram@, 128)));
    lemma_word_added(line, words, " units_over_256="@, "units_over_256="@, decimal(units_over(rung.histogram@, 256)));
    let line = line + " units_over_256="@ + decimal(units_over(rung.histogram@, 256));
    let words = words.push("units_over_256="@ + decimal(units_over(rung.histogram@, 256)));
    lemma_word_added(line, words, " excl_units="@, "excl_units="@, decimal(excluded_units(rung.histogram@)));
    let line = line + " excl_units="@ + decimal(excluded_units(rung.histogram@));
    let words = words.push("excl_units="@ + decimal(excluded_units(rung.histogram@)));
    lemma_words_read_back(line, words);
    assert(words =~= seq![
        "unit_sim_hist"@,
        "cfg="@ + rung.cfg@,
        "units="@ + decimal(rung.histogram@.len()),
        "members_p50="@ + decimal(nearest_rank(sorted_members(rung.histogram@), 50) as nat),
        "members_p90="@ + decimal(nearest_rank(sorted_members(rung.histogram@), 90) as nat),
        "members_max="@ + decimal(largest(sorted_members(rung.histogram@))),
        "units_over_64="@ + decimal(units_over(rung.histogram@, 64)),
        "units_over_128="@ + decimal(units_over(rung.histogram@, 128)),
        "units_over_256="@ + decimal(units_over(rung.histogram@, 256)),
        "excl_units="@ + decimal(excluded_units(rung.histogram@)),
    ]);
}

/// How the words of the line begin.
proof fn lemma_a_port_line_reads_back_leads()
    ensures
        !"port="@.contains(' '),
        !"count="@.contains(' '),
        " count="@ == seq![' '] + "count="@,
        "io_hist port="@ == "io_hist"@ + (seq![' '] + "port="@),
        !"io_hist"@.contains(' '),
{
    reveal_strlit("port=");
    reveal_strlit("count=");
    reveal_strlit(" count=");
    reveal_strlit("io_hist port=");
    reveal_strlit("io_hist");
    assert(" count="@ =~= seq![' '] + "count="@);
    assert("io_hist port="@ =~= "io_hist"@ + (seq![' '] + "port="@));
}

/// The line of a port reads back: the port and how often it was used.
#[verifier::rlimit(50)]
pub proof fn law_a_port_line_reads_back(entry: (u16, u64))
    ensures
        split(io_hist_line(entry), ' ') == seq![
            "io_hist"@,
            "port="@ + prefixed_hex(entry.0 as nat, 4, false),
            "count="@ + decimal(entry.1 as nat),
        ],
{
    lemma_a_port_line_reads_back_leads();
    lemma_upper_numerals_hold_digits(entry.0 as nat, 4, ' ');
    lemma_numerals_hold_digits(entry.1 as nat, 0, ' ');
    lemma_the_first_word("io_hist"@);
    lemma_word_added("io_hist"@, seq!["io_hist"@], seq![' '] + "port="@, "port="@, prefixed_hex(entry.0 as nat, 4, false));
    let words = seq!["io_hist"@].push("port="@ + prefixed_hex(entry.0 as nat, 4, false));
    let line = "io_hist port="@ + prefixed_hex(entry.0 as nat, 4, false);
    assert(line =~= "io_hist"@ + (seq![' '] + "port="@) + prefixed_hex(entry.0 as nat, 4, false));
    lemma_word_added(line, words, " count="@, "count="@, decimal(entry.1 as nat));
    let line = line + " count="@ + decimal(entry.1 as nat);
    let words = words.push("count="@ + decimal(entry.1 as nat));
    lemma_words_read_back(line, words);
    assert(words =~= seq![
        "io_hist"@,
        "port="@ + prefixed_hex(entry.0 as nat, 4, false),
        "count="@ + decimal(entry.1 as nat),
    ]);
}

/// How the words of the line begin.
proof fn lemma_a_page_line_reads_back_leads()
    ensures
        !"page="@.contains(' '),
        !"linear="@.contains(' '),
        !"count="@.contains(' '),
        " linear="@ == seq![' '] + "linear="@,
        " count="@ == seq![' '] + "count="@,
        "slow_read_page page="@ == "slow_read_page"@ + (seq![' '] + "page="@),
        !"slow_read_page"@.contains(' '),
{
    reveal_strlit("page=");
    reveal_strlit("linear=");
    reveal_strlit("count=");
    reveal_strlit(" linear=");
    reveal_strlit(" count=");
    reveal_strlit("slow_read_page page=");
    reveal_strlit("slow_read_page");
    assert(" linear="@ =~= seq![' '] + "linear="@);
    assert(" count="@ =~= seq![' '] + "count="@);
    assert("slow_read_page page="@ =~= "slow_read_page"@ + (seq![' '] + "page="@));
}

/// The line of a page reads back: the page, where it begins, and its reads.
#[verifier::rlimit(50)]
pub proof fn law_a_page_line_reads_back(entry: (u32, u64))
    requires
        entry.0 < 0x10_0000,
    ensures
        split(page_line(entry), ' ') == seq![
            "slow_read_page"@,
            "page="@ + prefixed_hex(entry.0 as nat, 5, false),
            "linear="@ + prefixed_hex((entry.0 * 0x1000) as nat, 8, false),
            "count="@ + decimal(entry.1 as nat),
        ],
{
    lemma_a_page_line_reads_back_leads();
    lemma_upper_numerals_hold_digits(entry.0 as nat, 5, ' ');
    lemma_upper_numerals_hold_digits((entry.0 * 0x1000) as nat, 8, ' ');
    lemma_numerals_hold_digits(entry.1 as nat, 0, ' ');
    lemma_the_first_word("slow_read_page"@);
    lemma_word_added("slow_read_page"@, seq!["slow_read_page"@], seq![' '] + "page="@, "page="@, prefixed_hex(entry.0 as nat, 5, false));
    let words = seq!["slow_read_page"@].push("page="@ + prefixed_hex(entry.0 as nat, 5, false));
    let line = "slow_read_page page="@ + prefixed_hex(entry.0 as nat, 5, false);
    assert(line =~= "slow_read_page"@ + (seq![' '] + "page="@) + prefixed_hex(entry.0 as nat, 5, false));
    lemma_word_added(line, words, " linear="@, "linear="@, prefixed_hex((entry.0 * 0x1000) as nat, 8, false));
    let line = line + " linear="@ + prefixed_hex((entry.0 * 0x1000) as nat, 8, false);
    let words = words.push("linear="@ + prefixed_hex((entry.0 * 0x1000) as nat, 8, false));
    lemma_word_added(line, words, " count="@, "count="@, decimal(entry.1 as nat));
    let line = line + " count="@ + decimal(entry.1 as nat);
    let words = words.push("count="@ + decimal(entry.1 as nat));
    lemma_words_read_back(line, words);
    assert(words =~= seq![
        "slow_read_page"@,
        "page="@ + prefixed_hex(entry.0 as nat, 5, false),
        "linear="@ + prefixed_hex((entry.0 * 0x1000) as nat, 8, false),
        "count="@ + decimal(entry.1 as nat),
    ]);
}

/// How the words of the line begin.
proof fn lemma_an_alignment_line_reads_back_leads()
    ensures
        !"misaligned="@.contains(' '),
        !"of="@.contains(' '),
        !"pct="@.contains(' '),
        " of="@ == seq![' '] + "of="@,
        " pct="@ == seq![' '] + "pct="@,
        "slow_read_align misaligned="@ == "slow_read_align"@ + (seq![' '] + "misaligned="@),
        !"slow_read_align"@.contains(' '),
{
    reveal_strlit("misaligned=");
    reveal_strlit("of=");
    reveal_strlit("pct=");
    reveal_strlit(" of=");
    reveal_strlit(" pct=");
    reveal_strlit("slow_read_align misaligned=");
    reveal_strlit("slow_read_align");
    assert(" of="@ =~= seq![' '] + "of="@);
    assert(" pct="@ =~= seq![' '] + "pct="@);
    assert("slow_read_align misaligned="@ =~= "slow_read_align"@ + (seq![' '] + "misaligned="@));
}

/// The line of the alignment split reads back: the misaligned reads, and of how many.
#[verifier::rlimit(50)]
pub proof fn law_an_alignment_line_reads_back(misaligned: u64, seen: u64, percent: Seq<char>)
    requires
        !percent.contains(' '),
    ensures
        split(align_line(misaligned, seen, percent), ' ') == seq![
            "slow_read_align"@,
            "misaligned="@ + decimal(misaligned as nat),
            "of="@ + decimal(seen as nat),
            "pct="@ + percent,
        ],
{
    lemma_an_alignment_line_reads_back_leads();
    lemma_numerals_hold_digits(misaligned as nat, 0, ' ');
    lemma_numerals_hold_digits(seen as nat, 0, ' ');
    lemma_the_first_word("slow_read_align"@);
    lemma_word_added("slow_read_align"@, seq!["slow_read_align"@], seq![' '] + "misaligned="@, "misaligned="@, decimal(misaligned as nat));
    let words = seq!["slow_read_align"@].push("misaligned="@ + decimal(misaligned as nat));
    let line = "slow_read_align misaligned="@ + decimal(misaligned as nat);
    assert(line =~= "slow_read_align"@ + (seq![' '] + "misaligned="@) + decimal(misaligned as nat));
    lemma_word_added(line, words, " of="@, "of="@, decimal(seen as nat));
    let line = line + " of="@ + decimal(seen as nat);
    let words = words.push("of="@ + decimal(seen as nat));
    lemma_word_added(line, words, " pct="@, "pct="@, percent);
    let line = line + " pct="@ + percent;
    let words = words.push("pct="@ + percent);
    lemma_words_read_back(line, words);
    assert(words =~= seq![
        "slow_read_align"@,
        "misaligned="@ + decimal(misaligned as nat),
        "of="@ + decimal(seen as nat),
        "pct="@ + percent,
    ]);
}

/// How the words of the line begin.
proof fn lemma_a_total_line_reads_back_leads()
    ensures
        !"bucketed="@.contains(' '),
        !"data_slow_reads="@.contains(' '),
        !"distinct_pages="@.contains(' '),
        " data_slow_reads="@ == seq![' '] + "data_slow_reads="@,
        " distinct_pages="@ == seq![' '] + "distinct_pages="@,
        "slow_read_total bucketed="@ == "slow_read_total"@ + (seq![' '] + "bucketed="@),
        !"slow_read_total"@.contains(' '),
{
    reveal_strlit("bucketed=");
    reveal_strlit("data_slow_reads=");
    reveal_strlit("distinct_pages=");
    reveal_strlit(" data_slow_reads=");
    reveal_strlit(" distinct_pages=");
    reveal_strlit("slow_read_total bucketed=");
    reveal_strlit("slow_read_total");
    assert(" data_slow_reads="@ =~= seq![' '] + "data_slow_reads="@);
    assert(" distinct_pages="@ =~= seq![' '] + "distinct_pages="@);
    assert("slow_read_total bucketed="@ =~= "slow_read_total"@ + (seq![' '] + "bucketed="@));
}

/// The line of the sum reads back: what the pages hold, what the counter says, and how many
/// pages there are.
#[verifier::rlimit(50)]
pub proof fn law_a_total_line_reads_back(bucketed: int, data_slow_reads: u64, pages: nat)
    ensures
        split(total_line(bucketed, data_slow_reads, pages), ' ') == seq![
            "slow_read_total"@,
            "bucketed="@ + decimal(bucketed as nat),
            "data_slow_reads="@ + decimal(data_slow_reads as nat),
            "distinct_pages="@ + decimal(pages),
        ],
{
    lemma_a_total_line_reads_back_leads();
    lemma_numerals_hold_digits(bucketed as nat, 0, ' ');
    lemma_numerals_hold_digits(data_slow_reads as nat, 0, ' ');
    lemma_numerals_hold_digits(pages, 0, ' ');
    lemma_the_first_word("slow_read_total"@);
    lemma_word_added("slow_read_total"@, seq!["slow_read_total"@], seq![' '] + "bucketed="@, "bucketed="@, decimal(bucketed as nat));
    let words = seq!["slow_read_total"@].push("bucketed="@ + decimal(bucketed as nat));
    let line = "slow_read_total bucketed="@ + decimal(bucketed as nat);
    assert(line =~= "slow_read_total"@ + (seq![' '] + "bucketed="@) + decimal(bucketed as nat));
    lemma_word_added(line, words, " data_slow_reads="@, "data_slow_reads="@, decimal(data_slow_reads as nat));
    let line = line + " data_slow_reads="@ + decimal(data_slow_reads as nat);
    let words = words.push("data_slow_reads="@ + decimal(data_slow_reads as nat));
    lemma_word_added(line, words, " distinct_pages="@, "distinct_pages="@, decimal(pages));
    let line = line + " distinct_pages="@ + decimal(pages);
    let words = words.push("distinct_pages="@ + decimal(pages));
    lemma_words_read_back(line, words);
    assert(words =~= seq![
        "slow_read_total"@,
        "bucketed="@ + decimal(bucketed as nat),
        "data_slow_reads="@ + decimal(data_slow_reads as nat),
        "distinct_pages="@ + decimal(pages),
    ]);
}

/// The reads between two pages are counted page by page, each page between them with all its
/// reads and any other with none.
pub proof fn law_reads_are_counted_page_by_page(a: Seq<(u32, u64)>, b: Seq<(u32, u64)>, one: (u32, u64), first: u32, last: u32)
    ensures
        reads_between(a + b, first, last) == reads_between(a, first, last) + reads_between(b, first, last),
        reads_between(seq![one], first, last) == if first <= one.0 && one.0 <= last {
            one.1 as int
        } else {
            0
        },
    decreases b.len(),
{
    assert(seq![one].drop_last() =~= Seq::empty());
    assert(reads_between(seq![one].drop_last(), first, last) == 0);
    if b.len() == 0 {
        assert(a + b =~= a);
    } else {
        law_reads_are_counted_page_by_page(a, b.drop_last(), one, first, last);
        assert((a + b).drop_last() =~= a + b.drop_last());
    }
}

/// Units over a size are counted one by one: a unit counts where it has more members.
pub proof fn law_large_units_are_counted_one_by_one(a: Seq<(u64, u32)>, b: Seq<(u64, u32)>, one: (u64, u32), threshold: u64)
    ensures
        units_over(a + b, threshold) == units_over(a, threshold) + units_over(b, threshold),
        units_over(seq![one], threshold) == if one.0 > threshold {
            1nat
        } else {
            0
        },
    decreases b.len(),
{
    assert(seq![one].drop_last() =~= Seq::empty());
    assert(units_over(seq![one].drop_last(), threshold) == 0);
    if b.len() == 0 {
        assert(a + b =~= a);
    } else {
        law_large_units_are_counted_one_by_one(a, b.drop_last(), one, threshold);
        assert((a + b).drop_last() =~= a + b.drop_last());
    }
}

/// Units that are left out are counted one by one: those whose entry lies between the first
/// page of video memory and the end of the first megabyte.
pub proof fn law_excluded_units_are_counted_one_by_one(a: Seq<(u64, u32)>, b: Seq<(u64, u32)>, one: (u64, u32))
    ensures
        excluded_units(a + b) == excluded_units(a) + excluded_units(b),
        excluded_units(seq![one]) == if 0xa0 <= one.1 && one.1 < 0x100 {
            1nat
        } else {
            0
        },
    decreases b.len(),
{
    assert(seq![one].drop_last() =~= Seq::empty());
    assert(excluded_units(seq![one].drop_last()) == 0);
    if b.len() == 0 {
        assert(a + b =~= a);
    } else {
        law_excluded_units_are_counted_one_by_one(a, b.drop_last(), one);
        assert((a + b).drop_last() =~= a + b.drop_last());
    }
}

/// The regions hold every read once: their counts add up to all reads.
pub proof fn law_the_regions_hold_every_read(pages: Seq<(u32, u64)>)
    ensures
        reads_between(pages, slow_read_regions()[0].1, slow_read_regions()[0].2) + reads_between(
            pages,
            slow_read_regions()[1].1,
            slow_read_regions()[1].2,
        ) + reads_between(pages, slow_read_regions()[2].1, slow_read_regions()[2].2)
            + reads_between(pages, slow_read_regions()[3].1, slow_read_regions()[3].2)
            + reads_between(pages, slow_read_regions()[4].1, slow_read_regions()[4].2)
            + reads_between(pages, slow_read_regions()[5].1, slow_read_regions()[5].2)
            == all_reads(pages),
    decreases pages.len(),
{
    if pages.len() > 0 {
        law_the_regions_hold_every_read(pages.drop_last());
    }
}

/// A percentile is a value of the list, and no further into it than its share needs: fewer
/// than `p` percent of the list come before it.
pub proof fn law_a_percentile_is_the_smallest(sorted: Seq<u64>, p: u32) -> (k: int)
    requires
        sorted.len() > 0,
        p <= 100,
    ensures
        0 <= k < sorted.len(),
        sorted[k] == nearest_rank(sorted, p),
        k == 0 || 100 * k < p * sorted.len(),
{
    let rank = (p * sorted.len() + 99) / 100;
    assert(p * sorted.len() <= 100 * sorted.len()) by (nonlinear_arith)
        requires
            p <= 100,
    ;
    if rank == 0 {
        0
    } else {
        rank - 1
    }
}

/// The quotients of a rung are over its entries, the last over every absorbed wait too; the
/// second and third leave out what was elided, and nothing else.
pub proof fn law_quotients_leave_out_what_was_elided(r: SimReport)
    ensures
        quotient_terms(r).0 == (r.retired_in_units as int, r.entries as int),
        quotient_terms(r).1.1 == r.entries,
        quotient_terms(r).2.1 - quotient_terms(r).1.1 == r.wait_batch_ends,
        quotient_terms(r).2.0 == quotient_terms(r).1.0,
        r.elided_insns <= r.retired_in_units ==> quotient_terms(r).1.0 + r.elided_insns
            == r.retired_in_units,
        r.elided_insns > r.retired_in_units ==> quotient_terms(r).1.0 == 0,
{
}

/// The hundredth percentile and any beyond it is the last of the list, and that of nothing
/// is nought.
pub proof fn law_the_hundredth_percentile_is_the_last(sorted: Seq<u64>, p: u32)
    requires
        p >= 100,
    ensures
        sorted.len() > 0 ==> nearest_rank(sorted, p) == sorted.last(),
        sorted.len() == 0 ==> nearest_rank(sorted, p) == 0,
{
    assert(p * sorted.len() >= 100 * sorted.len()) by (nonlinear_arith)
        requires
            p >= 100,
    ;
}

} // verus!
