//! The sampling profiler: what was sampled, what the symbol server said of it, and
//! the checks on both.
//!
//! A sample is the address that the emulation thread was at, with the phase that the
//! run was in. The symbol server's answers are taken as plain values.

use vstd::prelude::*;

use crate::order::tally;
#[allow(unused_imports)]
use crate::order::{is_tally, lemma_a_list_has_a_tally, pair_before, tally_of};
use crate::text::{chars_of, decimal_text, prefixed_hex_text, same_text, slice_text};
#[allow(unused_imports)]
use crate::text::{
    all_hex, decimal, hex, hex_digit, hex_value, is_digit, lemma_decimal_is_digits,
    lemma_hex_reads_back, lemma_split_at_the_first, lemma_split_without_any, parsed_nat,
    prefixed_hex, split, stands_at, without_leading,
};

verus! {

/// The time between two samples that is asked for.
pub const SAMPLE_INTERVAL_TEXT: &'static str = "500\u{b5}s";

/// The kind of symbols that are a whole program database.
pub const SYM_PDB: i32 = 3;

/// What a function is called that has no symbol.
pub const NO_SYMBOL: &'static str = "<no symbol \u{2014} JIT arena or foreign code>";

// ---------------------------------------------------------------------------
// Paths
// ---------------------------------------------------------------------------

/// Whether a unit of UTF-16 parts the names of a path.
pub open spec fn is_separator(unit: u16) -> bool {
    unit == 0x5c || unit == 0x2f
}

/// The place of the last separator of a path.
pub open spec fn last_separator(path: Seq<u16>) -> Option<int>
    decreases path.len(),
{
    if path.len() == 0 {
        None
    } else if is_separator(path.last()) {
        Some(path.len() - 1)
    } else {
        last_separator(path.drop_last())
    }
}

/// The directory of a path, ended by a zero; none where the path has no separator or
/// begins with its only one.
pub open spec fn directory_of(path: Seq<u16>) -> Option<Seq<u16>> {
    match last_separator(path) {
        Some(at) => if at == 0 {
            None
        } else {
            Some(path.take(at).push(0))
        },
        None => None,
    }
}

/// The directory of a path, ended by a zero.
pub fn exe_directory(path: &[u16]) -> (dir: Option<Vec<u16>>)
    ensures
        match dir {
            Some(d) => directory_of(path@) == Some(d@),
            None => directory_of(path@) is None,
        },
{
    let mut end: usize = path.len();
    assert(path@.take(end as int) =~= path@);
    while end > 0
        invariant
            end <= path@.len(),
            last_separator(path@) == last_separator(path@.take(end as int)),
        decreases end,
    {
        assert(path@.take(end as int).drop_last() =~= path@.take(end - 1));
        if path[end - 1] == 0x5c || path[end - 1] == 0x2f {
            if end - 1 == 0 {
                return None;
            }
            let mut dir: Vec<u16> = Vec::new();
            let mut i: usize = 0;
            while i < end - 1
                invariant
                    i <= end - 1,
                    0 < end <= path@.len(),
                    dir@ == path@.take(i as int),
                decreases end - 1 - i,
            {
                dir.push(path[i]);
                i = i + 1;
                assert(path@.take(i as int) =~= path@.take(i - 1).push(path@[i - 1]));
            }
            dir.push(0);
            return Some(dir);
        }
        end = end - 1;
    }
    None
}

/// The path of the raw samples, beside the report.
pub fn sidecar_path(report_path: &str) -> (path: String)
    ensures
        path@ == report_path@ + ".samples"@,
{
    let mut path: String = report_path.to_owned();
    path.append(".samples");
    path
}

/// The last place where a pattern stands in a text.
pub open spec fn last_stand(text: Seq<char>, pattern: Seq<char>, upto: int) -> Option<int>
    decreases upto + 1,
{
    if upto < 0 {
        None
    } else if stands_at(text, pattern, upto) {
        Some(upto)
    } else {
        last_stand(text, pattern, upto - 1)
    }
}

/// A source path made short: what follows the last `crates` directory with it, or
/// the file's own name.
pub open spec fn short_path(file: Seq<char>) -> Seq<char> {
    match last_stand(file, "crates\\"@, file.len() as int) {
        Some(at) => file.skip(at),
        None => match last_stand(file, "crates/"@, file.len() as int) {
            Some(at) => file.skip(at),
            None => file_name(file),
        },
    }
}

/// What follows the last separator of a path.
pub open spec fn file_name(file: Seq<char>) -> Seq<char>
    decreases file.len(),
{
    if file.len() == 0 {
        file
    } else if file.last() == '\\' || file.last() == '/' {
        Seq::empty()
    } else {
        file_name(file.drop_last()).push(file.last())
    }
}

/// The last place where a pattern stands in a text.
fn find_last(text: &Vec<char>, pattern: &Vec<char>) -> (at: Option<usize>)
    ensures
        match at {
            Some(n) => last_stand(text@, pattern@, text@.len() as int) == Some(n as int) && n
                <= text@.len(),
            None => last_stand(text@, pattern@, text@.len() as int) is None,
        },
{
    let mut upto: usize = text.len();
    loop
        invariant
            upto <= text@.len(),
            last_stand(text@, pattern@, text@.len() as int) == last_stand(
                text@,
                pattern@,
                upto as int,
            ),
        decreases upto,
    {
        if pattern.len() <= text.len() - upto && crate::text::stands(text, pattern, upto) {
            return Some(upto);
        }
        if upto == 0 {
            assert(last_stand(text@, pattern@, -1) is None);
            return None;
        }
        upto = upto - 1;
    }
}

/// What follows the last separator of a path is the end of it.
proof fn lemma_file_name_is_the_end(file: Seq<char>, at: int)
    requires
        0 <= at <= file.len(),
        forall|i: int| at <= i < file.len() ==> file[i] != '\\' && file[i] != '/',
        at > 0 ==> file[at - 1] == '\\' || file[at - 1] == '/',
    ensures
        file_name(file) == file.skip(at),
    decreases file.len(),
{
    if file.len() == 0 {
        assert(file.skip(at) =~= file);
    } else if at == file.len() {
        assert(file.skip(at) =~= Seq::empty());
    } else {
        lemma_file_name_is_the_end(file.drop_last(), at);
        assert(file.skip(at) =~= file.drop_last().skip(at).push(file.last()));
    }
}

/// A place in the sources: the file, made short, and the line.
pub fn site_text(file: &str, line: u32) -> (site: String)
    ensures
        site@ == short_path(file@) + ":"@ + decimal(line as nat),
{
    let chars: Vec<char> = chars_of(file);
    let mut at: usize = 0;
    match find_last(&chars, &chars_of("crates\\")) {
        Some(n) => {
            at = n;
        },
        None => match find_last(&chars, &chars_of("crates/")) {
            Some(n) => {
                at = n;
            },
            None => {
                at = chars.len();
                while at > 0 && chars[at - 1] != '\\' && chars[at - 1] != '/'
                    invariant
                        at <= chars@.len(),
                        forall|i: int|
                            at <= i < chars@.len() ==> chars@[i] != '\\' && chars@[i] != '/',
                    decreases at,
                {
                    at = at - 1;
                }
                proof {
                    lemma_file_name_is_the_end(chars@, at as int);
                }
            },
        },
    }
    let mut site: String = slice_text(&chars, at, chars.len());
    assert(site@ =~= chars@.skip(at as int));
    site.append(":");
    site.append(decimal_text(line as u64).as_str());
    site
}

// ---------------------------------------------------------------------------
// Symbols
// ---------------------------------------------------------------------------

/// What the symbol server said of an address: the nearest symbol before it, how far
/// behind its start the address lies, and how long it is. `quoted` is the name in
/// quotation marks.
#[derive(Debug)]
pub struct Symbol {
    pub name: String,
    pub quoted: String,
    pub displacement: u64,
    pub size: u32,
}

/// Whether an address lies behind the end of the symbol that it was given to. A
/// symbol whose length is not known says nothing.
pub open spec fn past_end(displacement: u64, size: u32) -> bool {
    size > 0 && displacement >= size
}

/// Whether an address lies behind the end of the symbol that it was given to.
pub fn beyond_extent(displacement: u64, size: u32) -> (yes: bool)
    ensures
        yes == past_end(displacement, size),
{
    size > 0 && displacement >= size as u64
}

/// Whether the symbols that were loaded can be trusted.
pub fn symbols_are_trustworthy(sym_type: i32, line_numbers: i32) -> (yes: bool)
    ensures
        yes == (sym_type == SYM_PDB && line_numbers != 0),
        yes ==> sym_type == 3,
        line_numbers == 0 ==> !yes,
{
    sym_type == SYM_PDB && line_numbers != 0
}

/// Whether a report is due: there are samples, the program's own module was found, and
/// its symbols can be trusted.
pub fn report_is_due(samples: usize, module_ok: bool, sym_type: i32, line_numbers: i32) -> (due:
    bool)
    ensures
        due == (samples > 0 && module_ok && sym_type == SYM_PDB && line_numbers != 0),
{
    samples > 0 && module_ok && symbols_are_trustworthy(sym_type, line_numbers)
}

/// Whether two answers about one address agree: both gave none, or the same name and
/// the same answer to whether the address lies behind the symbol's end.
pub open spec fn agree(old_symbol: Option<Symbol>, new_symbol: Option<Symbol>) -> bool {
    match (old_symbol, new_symbol) {
        (None, None) => true,
        (Some(a), Some(b)) => a.name@ == b.name@ && past_end(a.displacement, a.size) == past_end(
            b.displacement,
            b.size,
        ),
        _ => false,
    }
}

/// An answer, with its numbers in hexadecimal.
pub open spec fn placed_symbol(s: Symbol) -> Seq<char> {
    s.quoted@ + "@"@ + prefixed_hex(s.displacement as nat, 0, false) + "/"@ + prefixed_hex(
        s.size as nat,
        0,
        false,
    )
}

/// An answer or its absence.
pub open spec fn symbol_state(s: Option<Symbol>) -> Seq<char> {
    match s {
        Some(s) => "Some(("@ + s.quoted@ + ", "@ + decimal(s.displacement as nat) + ", "@ + decimal(
            s.size as nat,
        ) + "))"@,
        None => "None"@,
    }
}

/// How two answers that do not agree differ.
pub open spec fn disagreement(old_symbol: Option<Symbol>, new_symbol: Option<Symbol>) -> Seq<char> {
    match (old_symbol, new_symbol) {
        (Some(a), Some(b)) => "old="@ + placed_symbol(a) + " new="@ + placed_symbol(b),
        _ => "resolved-state differs: old="@ + symbol_state(old_symbol) + " new="@ + symbol_state(
            new_symbol,
        ),
    }
}

/// An answer, with its numbers in hexadecimal.
fn placed_text(s: &Symbol) -> (text: String)
    ensures
        text@ == placed_symbol(*s),
{
    let mut text: String = s.quoted.clone();
    text.append("@");
    text.append(prefixed_hex_text(s.displacement, 0, false).as_str());
    text.append("/");
    text.append(prefixed_hex_text(s.size as u64, 0, false).as_str());
    text
}

/// An answer or its absence.
fn state_text(s: &Option<Symbol>) -> (text: String)
    ensures
        text@ == symbol_state(*s),
{
    match s {
        Some(s) => {
            let mut text: String = "Some((".to_owned();
            text.append(s.quoted.as_str());
            text.append(", ");
            text.append(decimal_text(s.displacement).as_str());
            text.append(", ");
            text.append(decimal_text(s.size as u64).as_str());
            text.append("))");
            text
        },
        None => "None".to_owned(),
    }
}

/// How two answers about one address differ, where they do not agree.
pub fn conservation_mismatch(old_symbol: &Option<Symbol>, new_symbol: &Option<Symbol>) -> (reason:
    Option<String>)
    ensures
        match reason {
            Some(r) => !agree(*old_symbol, *new_symbol) && r@ == disagreement(
                *old_symbol,
                *new_symbol,
            ),
            None => agree(*old_symbol, *new_symbol),
        },
{
    match (old_symbol, new_symbol) {
        (None, None) => None,
        (Some(a), Some(b)) => {
            if same_text(a.name.as_str(), b.name.as_str()) && beyond_extent(a.displacement, a.size)
                == beyond_extent(b.displacement, b.size) {
                None
            } else {
                let mut reason: String = "old=".to_owned();
                reason.append(placed_text(a).as_str());
                reason.append(" new=");
                reason.append(placed_text(b).as_str());
                Some(reason)
            }
        },
        _ => {
            let mut reason: String = "resolved-state differs: old=".to_owned();
            reason.append(state_text(old_symbol).as_str());
            reason.append(" new=");
            reason.append(state_text(new_symbol).as_str());
            Some(reason)
        },
    }
}

/// Two answers that agree in one order agree in the other, and every answer agrees
/// with itself.
pub proof fn law_agreement_has_no_direction(a: Option<Symbol>, b: Option<Symbol>)
    ensures
        agree(a, b) == agree(b, a),
        agree(a, a),
{
}

// ---------------------------------------------------------------------------
// The rate
// ---------------------------------------------------------------------------

/// The mean time between two samples, in nanoseconds, over the time from the first to
/// the last; none of fewer than two samples.
pub fn achieved_interval(sample_count: u32, window_ns: u64) -> (interval: Option<u64>)
    ensures
        interval == if sample_count > 1 {
            Some((window_ns as int / (sample_count - 1)) as u64)
        } else {
            None
        },
        interval is Some <==> sample_count >= 2,
        sample_count == 2 ==> interval == Some(window_ns),
        interval is Some ==> interval->0 <= window_ns,
{
    if sample_count > 1 {
        let gaps: u64 = (sample_count - 1) as u64;
        let interval: u64 = window_ns / gaps;
        proof {
            if gaps == 1 {
                assert(window_ns as int / 1 == window_ns);
            }
            assert(window_ns as int / gaps as int <= window_ns) by (nonlinear_arith)
                requires
                    gaps > 0,
            ;
        }
        Some(interval)
    } else {
        None
    }
}

/// The line about the rate that was achieved: `window` are the seconds from the first
/// sample to the last and `interval` the milliseconds between two, each with three
/// decimals.
pub fn sample_rate_line(total: u64, window: Option<&str>, interval: Option<&str>) -> (line: String)
    ensures
        line@ == match (window, interval) {
            (Some(w), Some(i)) => decimal(total as nat) + " samples over "@ + w@ + "s = "@ + i@
                + "ms/sample achieved ("@ + SAMPLE_INTERVAL_TEXT@ + " requested)"@,
            _ => decimal(total as nat)
                + " samples, achieved rate unknown \u{2014} fewer than 2 samples ("@
                + SAMPLE_INTERVAL_TEXT@ + " requested)"@,
        },
{
    let mut line: String = decimal_text(total);
    match (window, interval) {
        (Some(w), Some(i)) => {
            line.append(" samples over ");
            line.append(w);
            line.append("s = ");
            line.append(i);
            line.append("ms/sample achieved (");
        },
        _ => {
            line.append(" samples, achieved rate unknown \u{2014} fewer than 2 samples (");
        },
    }
    line.append(SAMPLE_INTERVAL_TEXT);
    line.append(" requested)");
    line
}

// ---------------------------------------------------------------------------
// Counting samples
// ---------------------------------------------------------------------------

/// The samples' addresses as pairs.
pub open spec fn address_pairs(samples: Seq<(u64, u32)>) -> Seq<(u64, u64)> {
    samples.map_values(|s: (u64, u32)| (s.0, 0u64))
}

/// The samples as pairs of a phase and an address.
pub open spec fn phase_pairs(samples: Seq<(u64, u32)>) -> Seq<(u64, u64)> {
    samples.map_values(|s: (u64, u32)| (s.1 as u64, s.0))
}

/// Every address that was sampled, with how often, in order.
pub open spec fn address_counts(samples: Seq<(u64, u32)>) -> Seq<(u64, u64)> {
    tally_of(address_pairs(samples)).map_values(|e: ((u64, u64), u64)| (e.0.0, e.1))
}

/// Every address that was sampled in every phase, with how often, in order.
pub open spec fn phase_counts(samples: Seq<(u64, u32)>) -> Seq<((u64, u64), u64)> {
    tally_of(phase_pairs(samples))
}

/// Every address that was sampled, with how often, in order.
pub fn count_addresses(samples: &Vec<(u64, u32)>) -> (counts: Vec<(u64, u64)>)
    ensures
        counts@ == address_counts(samples@),
        forall|i: int| 0 <= i < counts@.len() ==> 0 < (#[trigger] counts@[i]).1 <= samples@.len(),
        forall|i: int, j: int|
            0 <= i < j < counts@.len() ==> (#[trigger] counts@[i]).0 < (#[trigger] counts@[j]).0,
{
    let mut pairs: Vec<(u64, u64)> = Vec::new();
    let mut i: usize = 0;
    while i < samples.len()
        invariant
            i <= samples@.len(),
            pairs@.len() == i,
            forall|k: int| 0 <= k < i ==> #[trigger] pairs@[k] == (samples@[k].0, 0u64),
        decreases samples@.len() - i,
    {
        pairs.push((samples[i].0, 0));
        i = i + 1;
    }
    assert(pairs@ =~= address_pairs(samples@));
    let rows: Vec<((u64, u64), u64)> = tally(&pairs);
    let mut counts: Vec<(u64, u64)> = Vec::new();
    let mut k: usize = 0;
    while k < rows.len()
        invariant
            k <= rows@.len(),
            counts@.len() == k,
            forall|n: int| 0 <= n < k ==> #[trigger] counts@[n] == (rows@[n].0.0, rows@[n].1),
        decreases rows@.len() - k,
    {
        counts.push((rows[k].0.0, rows[k].1));
        k = k + 1;
    }
    proof {
        assert(counts@ =~= address_counts(samples@));
        assert forall|n: int| 0 <= n < counts@.len() implies 0 < (#[trigger] counts@[n]).1
            <= samples@.len() by {
            assert(rows@[n].1 > 0);
        }
        assert forall|n: int| 0 <= n < rows@.len() implies (#[trigger] rows@[n]).0.1 == 0 by {
            broadcast use vstd::seq_lib::group_to_multiset_ensures;

            assert(pairs@.to_multiset().count(rows@[n].0) > 0);
            assert(pairs@.contains(rows@[n].0));
        }
        assert forall|n: int, m: int| 0 <= n < m < counts@.len() implies (#[trigger] counts@[n]).0
            < (#[trigger] counts@[m]).0 by {
            assert(pair_before(rows@[n].0, rows@[m].0));
        }
    }
    counts
}

/// Every address that was sampled in every phase, with how often, in order.
pub fn count_phases(samples: &Vec<(u64, u32)>) -> (counts: Vec<((u64, u64), u64)>)
    ensures
        counts@ == phase_counts(samples@),
        is_tally(counts@, phase_pairs(samples@)),
        forall|i: int|
            0 <= i < counts@.len() ==> 0 < (#[trigger] counts@[i]).1 <= samples@.len()
                && counts@[i].0.0 <= u32::MAX,
{
    let mut pairs: Vec<(u64, u64)> = Vec::new();
    let mut i: usize = 0;
    while i < samples.len()
        invariant
            i <= samples@.len(),
            pairs@.len() == i,
            forall|k: int|
                0 <= k < i ==> #[trigger] pairs@[k] == (samples@[k].1 as u64, samples@[k].0),
        decreases samples@.len() - i,
    {
        pairs.push((samples[i].1 as u64, samples[i].0));
        i = i + 1;
    }
    assert(pairs@ =~= phase_pairs(samples@));
    let counts: Vec<((u64, u64), u64)> = tally(&pairs);
    proof {
        assert forall|n: int| 0 <= n < counts@.len() implies 0 < (#[trigger] counts@[n]).1
            <= samples@.len() && counts@[n].0.0 <= u32::MAX by {
            broadcast use vstd::seq_lib::group_to_multiset_ensures;

            assert(counts@[n].1 > 0);
            assert(pairs@.to_multiset().count(counts@[n].0) > 0);
            assert(pairs@.contains(counts@[n].0));
        }
    }
    counts
}

// ---------------------------------------------------------------------------
// Raw samples
// ---------------------------------------------------------------------------

/// A row of the raw samples: an address, a phase and how often both met.
pub open spec fn sample_row(row: ((u64, u64), u64)) -> Seq<char> {
    prefixed_hex(row.0.1 as nat, 0, false) + ","@ + decimal(row.0.0 as nat) + ","@ + decimal(
        row.1 as nat,
    ) + "\n"@
}

/// The rows of the raw samples, one after the other.
pub open spec fn sample_rows(counts: Seq<((u64, u64), u64)>) -> Seq<char>
    decreases counts.len(),
{
    if counts.len() == 0 {
        Seq::empty()
    } else {
        sample_rows(counts.drop_last()) + sample_row(counts.last())
    }
}

/// The raw samples as a text: a heading that names the module's base, and a row for
/// every address in every phase.
pub open spec fn sidecar(module_base: u64, samples: Seq<(u64, u32)>) -> Seq<char> {
    "# riprofile raw samples v1\n# module_base="@ + prefixed_hex(module_base as nat, 0, false)
        + "\n# rip_hex,phase,count\n"@ + sample_rows(phase_counts(samples))
}

/// The raw samples as a text.
pub fn sidecar_text(module_base: u64, samples: &Vec<(u64, u32)>) -> (text: String)
    ensures
        text@ == sidecar(module_base, samples@),
{
    let mut text: String = "# riprofile raw samples v1\n# module_base=".to_owned();
    text.append(prefixed_hex_text(module_base, 0, false).as_str());
    text.append("\n# rip_hex,phase,count\n");
    let ghost head = text@;
    let counts: Vec<((u64, u64), u64)> = count_phases(samples);
    let mut i: usize = 0;
    proof {
        assert(counts@.take(0) =~= Seq::empty());
        assert(head + sample_rows(counts@.take(0)) =~= head);
    }
    while i < counts.len()
        invariant
            i <= counts@.len(),
            text@ == head + sample_rows(counts@.take(i as int)),
        decreases counts@.len() - i,
    {
        assert(counts@.take(i + 1).drop_last() =~= counts@.take(i as int));
        text.append(prefixed_hex_text(counts[i].0.1, 0, false).as_str());
        text.append(",");
        text.append(decimal_text(counts[i].0.0).as_str());
        text.append(",");
        text.append(decimal_text(counts[i].1).as_str());
        text.append("\n");
        i = i + 1;
        assert(text@ =~= head + sample_rows(counts@.take(i as int)));
    }
    assert(counts@.take(counts@.len() as int) =~= counts@);
    text
}

/// What a row of the raw samples says: an address in hexadecimal digits behind any `0x`,
/// a phase and a count, with commas between them.
pub open spec fn read_row(line: Seq<char>) -> Option<(u64, u32, u64)> {
    let parts = split(line, ',');
    if parts.len() < 3 {
        None
    } else {
        let address = without_leading(parts[0], "0x"@);
        let phase = parsed_nat(parts[1], u32::MAX as nat);
        let count = parsed_nat(parts[2], u64::MAX as nat);
        if address.len() > 0 && all_hex(address) && hex_value(address) <= u64::MAX && phase is Some
            && count is Some {
            Some((hex_value(address) as u64, phase->0 as u32, count->0 as u64))
        } else {
            None
        }
    }
}

/// The rows among lines. A line that begins with `#` is a comment.
pub open spec fn rows_among(lines: Seq<Seq<char>>) -> Seq<(u64, u32, u64)>
    decreases lines.len(),
{
    if lines.len() == 0 {
        Seq::empty()
    } else {
        let rest = rows_among(lines.drop_first());
        if lines[0].len() > 0 && lines[0][0] == '#' {
            rest
        } else {
            match read_row(lines[0]) {
                Some(row) => seq![row] + rest,
                None => rest,
            }
        }
    }
}

/// What a text of raw samples says, row by row.
pub open spec fn read_sidecar(text: Seq<char>) -> Seq<(u64, u32, u64)> {
    rows_among(split(text, '\n'))
}

/// Counts as rows say them: an address, a phase and how often both met.
pub open spec fn said_by_rows(counts: Seq<((u64, u64), u64)>) -> Seq<(u64, u32, u64)> {
    counts.map_values(|row: ((u64, u64), u64)| (row.0.1, row.0.0 as u32, row.1))
}

/// Reading the raw samples back gives every count that was written, in order: each
/// phase with each address that was sampled in it, once, with how often it was. The
/// other lines are comments, and the second of them names the module's base.
pub proof fn law_a_sidecar_reads_back(module_base: u64, samples: Seq<(u64, u32)>)
    requires
        samples.len() <= u64::MAX,
    ensures
        read_sidecar(sidecar(module_base, samples)) == said_by_rows(phase_counts(samples)),
        is_tally(phase_counts(samples), phase_pairs(samples)),
        split(sidecar(module_base, samples), '\n').take(3) == seq![
            "# riprofile raw samples v1"@,
            "# module_base="@ + prefixed_hex(module_base as nat, 0, false),
            "# rip_hex,phase,count"@,
        ],
{
    let counts = phase_counts(samples);
    let rows = sample_rows(counts);
    let text = sidecar(module_base, samples);
    lemma_a_list_has_a_tally(phase_pairs(samples));
    assert forall|i: int| 0 <= i < counts.len() implies (#[trigger] counts[i]).0.0
        <= u32::MAX by {
        broadcast use vstd::seq_lib::group_to_multiset_ensures;

        assert(counts[i].1 > 0);
        assert(phase_pairs(samples).to_multiset().count(counts[i].0) > 0);
        assert(phase_pairs(samples).contains(counts[i].0));
    }
    let first = "# riprofile raw samples v1"@;
    let second = "# module_base="@ + prefixed_hex(module_base as nat, 0, false);
    let third = "# rip_hex,phase,count"@;
    lemma_the_heading_is_comments(module_base);
    assert(text =~= first + seq!['\n'] + (second + seq!['\n'] + (third + seq!['\n'] + rows))) by {
        reveal_strlit("# riprofile raw samples v1\n# module_base=");
        reveal_strlit("# riprofile raw samples v1");
        reveal_strlit("# module_base=");
        reveal_strlit("\n# rip_hex,phase,count\n");
        reveal_strlit("# rip_hex,phase,count");
        assert("# riprofile raw samples v1\n# module_base="@ =~= first + seq!['\n']
            + "# module_base="@);
        assert("\n# rip_hex,phase,count\n"@ =~= seq!['\n'] + third + seq!['\n']);
    }
    lemma_split_at_the_first(first, second + seq!['\n'] + (third + seq!['\n'] + rows), '\n');
    lemma_split_at_the_first(second, third + seq!['\n'] + rows, '\n');
    lemma_split_at_the_first(third, rows, '\n');
    let behind = split(rows, '\n');
    let lines = split(text, '\n');
    assert(lines =~= seq![first, second, third] + behind);
    assert(lines.take(3) =~= seq![first, second, third]);
    assert(lines.drop_first() =~= seq![second, third] + behind);
    assert(lines.drop_first().drop_first() =~= seq![third] + behind);
    assert(lines.drop_first().drop_first().drop_first() =~= behind);
    assert(rows_among(lines) == rows_among(lines.drop_first()));
    assert(rows_among(lines.drop_first()) == rows_among(lines.drop_first().drop_first()));
    assert(rows_among(lines.drop_first().drop_first()) == rows_among(behind));
    lemma_rows_read_back(counts);
}

/// The lines of the heading are comments, each on its own line.
proof fn lemma_the_heading_is_comments(module_base: u64)
    ensures
        ({
            let second = "# module_base="@ + prefixed_hex(module_base as nat, 0, false);
            &&& "# riprofile raw samples v1"@.len() > 0 && "# riprofile raw samples v1"@[0] == '#'
            &&& !"# riprofile raw samples v1"@.contains('\n')
            &&& second.len() > 0 && second[0] == '#'
            &&& !second.contains('\n')
            &&& "# rip_hex,phase,count"@.len() > 0 && "# rip_hex,phase,count"@[0] == '#'
            &&& !"# rip_hex,phase,count"@.contains('\n')
        }),
{
    reveal_strlit("# riprofile raw samples v1");
    reveal_strlit("# module_base=");
    reveal_strlit("# rip_hex,phase,count");
    let base = "# module_base="@;
    let address = hex(module_base as nat);
    let second = base + prefixed_hex(module_base as nat, 0, false);
    lemma_hex_reads_back(module_base as nat);
    assert(second =~= base + seq!['0', 'x'] + address);
    assert forall|i: int| 0 <= i < second.len() implies (#[trigger] second[i]) != '\n' by {
        if i >= base.len() + 2 {
            assert(second[i] == address[i - base.len() - 2]);
            assert(hex_digit(address[i - base.len() - 2]) is Some);
        }
    }
}

/// Rows are their first row and the rows behind it.
proof fn lemma_the_first_row(counts: Seq<((u64, u64), u64)>)
    requires
        counts.len() > 0,
    ensures
        sample_rows(counts) == sample_row(counts[0]) + sample_rows(counts.drop_first()),
    decreases counts.len(),
{
    let rest = counts.drop_first();
    if counts.len() == 1 {
        assert(sample_rows(counts.drop_last()) =~= Seq::empty());
        assert(sample_rows(rest) =~= Seq::empty());
        assert(sample_rows(counts) =~= sample_row(counts[0]) + sample_rows(rest));
    } else {
        let front = counts.drop_last();
        lemma_the_first_row(front);
        assert(front.drop_first() =~= rest.drop_last());
        assert(front[0] == counts[0]);
        assert(rest.last() == counts.last());
        assert(sample_rows(counts) =~= sample_row(counts[0]) + sample_rows(rest));
    }
}

/// Reading rows back gives the counts that they were written for.
proof fn lemma_rows_read_back(counts: Seq<((u64, u64), u64)>)
    requires
        forall|i: int| 0 <= i < counts.len() ==> (#[trigger] counts[i]).0.0 <= u32::MAX,
    ensures
        rows_among(split(sample_rows(counts), '\n')) == said_by_rows(counts),
    decreases counts.len(),
{
    if counts.len() == 0 {
        let none = Seq::<char>::empty();
        lemma_split_without_any(none, '\n');
        lemma_split_without_any(none, ',');
        assert(rows_among(seq![none].drop_first()) =~= Seq::empty());
        assert(rows_among(seq![none]) =~= Seq::empty());
        assert(said_by_rows(counts) =~= Seq::empty());
    } else {
        let rest = counts.drop_first();
        let line = sample_row(counts[0]).drop_last();
        assert forall|i: int| 0 <= i < rest.len() implies (#[trigger] rest[i]).0.0 <= u32::MAX by {
            assert(rest[i] == counts[i + 1]);
        }
        lemma_rows_read_back(rest);
        lemma_the_first_row(counts);
        lemma_a_row_ends_once(counts[0]);
        assert(sample_row(counts[0]) =~= line + seq!['\n']);
        assert(!line.contains('\n')) by {
            assert(forall|i: int| 0 <= i < line.len() ==> line[i] == sample_row(counts[0])[i]);
        }
        lemma_split_at_the_first(line, sample_rows(rest), '\n');
        lemma_a_row_reads_back(counts[0]);
        let lines = seq![line] + split(sample_rows(rest), '\n');
        assert(lines.drop_first() =~= split(sample_rows(rest), '\n'));
        assert(said_by_rows(counts) =~= seq![
            (counts[0].0.1, counts[0].0.0 as u32, counts[0].1),
        ] + said_by_rows(rest));
    }
}

/// A row reads back as its address, its phase and its count.
proof fn lemma_a_row_reads_back(row: ((u64, u64), u64))
    requires
        row.0.0 <= u32::MAX,
    ensures
        sample_row(row).drop_last().len() > 0,
        sample_row(row).drop_last()[0] != '#',
        read_row(sample_row(row).drop_last()) == Some((row.0.1, row.0.0 as u32, row.1)),
{
    reveal_strlit(",");
    reveal_strlit("\n");
    reveal_strlit("0x");
    let digits = hex(row.0.1 as nat);
    let address = seq!['0', 'x'] + digits;
    let phase = decimal(row.0.0 as nat);
    let count = decimal(row.1 as nat);
    let line = sample_row(row).drop_last();
    lemma_hex_reads_back(row.0.1 as nat);
    lemma_decimal_is_digits(row.0.0 as nat);
    lemma_decimal_is_digits(row.1 as nat);
    assert(line =~= address + seq![','] + (phase + seq![','] + count));
    assert(!address.contains(',')) by {
        assert forall|i: int| 0 <= i < address.len() implies (#[trigger] address[i]) != ',' by {
            if i >= 2 {
                assert(hex_digit(digits[i - 2]) is Some);
            }
        }
    }
    lemma_a_numeral_has_no_comma(row.0.0 as nat);
    lemma_a_numeral_has_no_comma(row.1 as nat);
    lemma_split_at_the_first(address, phase + seq![','] + count, ',');
    lemma_split_at_the_first(phase, count, ',');
    lemma_split_without_any(count, ',');
    assert(split(line, ',') =~= seq![address, phase, count]);
    assert("0x"@ =~= seq!['0', 'x']);
    assert(without_leading(address, "0x"@) == digits) by {
        assert(address.subrange(0, 2) =~= "0x"@);
        assert(address.skip(2) =~= digits);
        if stands_at(digits, "0x"@, 0) {
            assert(digits.subrange(0, 2)[1] == digits[1]);
            assert(hex_digit(digits[1]) is Some);
        }
        reveal_with_fuel(without_leading, 2);
    }
}

/// A row ends in its only line end.
proof fn lemma_a_row_ends_once(row: ((u64, u64), u64))
    ensures
        sample_row(row).len() > 0,
        sample_row(row).last() == '\n',
        forall|i: int|
            0 <= i < sample_row(row).len() - 1 ==> (#[trigger] sample_row(row)[i]) != '\n',
{
    reveal_strlit(",");
    reveal_strlit("\n");
    lemma_hex_reads_back(row.0.1 as nat);
    lemma_decimal_is_digits(row.0.0 as nat);
    lemma_decimal_is_digits(row.1 as nat);
    let (address, phase, count) = (
        hex(row.0.1 as nat),
        decimal(row.0.0 as nat),
        decimal(row.1 as nat),
    );
    assert(sample_row(row) =~= seq!['0', 'x'] + address + seq![','] + phase + seq![','] + count
        + seq!['\n']);
    assert forall|i: int| 0 <= i < sample_row(row).len() - 1 implies (#[trigger] sample_row(
        row,
    )[i]) != '\n' by {
        let (p, c) = (3 + address.len(), 4 + address.len() + phase.len());
        if 2 <= i < 2 + address.len() {
            assert(sample_row(row)[i] == address[i - 2]);
            assert(hex_digit(address[i - 2]) is Some);
        } else if p <= i < p + phase.len() {
            assert(sample_row(row)[i] == phase[i - p]);
            assert(is_digit(phase[i - p]));
        } else if c <= i {
            assert(sample_row(row)[i] == count[i - c]);
            assert(is_digit(count[i - c]));
        }
    }
}

/// A numeral has no comma in it.
proof fn lemma_a_numeral_has_no_comma(n: nat)
    ensures
        !decimal(n).contains(','),
{
    lemma_decimal_is_digits(n);
    assert forall|i: int| 0 <= i < decimal(n).len() implies (#[trigger] decimal(n)[i]) != ',' by {
        assert(is_digit(decimal(n)[i]));
    }
}

// ---------------------------------------------------------------------------
// Laws of paths and symbols
// ---------------------------------------------------------------------------

/// No unit of a name parts names.
pub open spec fn is_name(units: Seq<u16>) -> bool {
    forall|i: int| 0 <= i < units.len() ==> !is_separator(#[trigger] units[i])
}

/// The directory of a path is all before its last separator, ended by a zero, whichever of
/// the two separators that is; a name alone has none.
pub proof fn law_a_path_has_its_directory(dir: Seq<u16>, separator: u16, name: Seq<u16>)
    requires
        separator == 0x5c || separator == 0x2f,
        is_name(name),
    ensures
        dir.len() > 0 ==> directory_of(dir.push(separator) + name) == Some(dir.push(0)),
        directory_of(name) is None,
        directory_of(seq![separator] + name) is None,
{
    lemma_the_last_separator(dir, separator, name);
    lemma_the_last_separator(Seq::empty(), separator, name);
    assert(Seq::<u16>::empty().push(separator) =~= seq![separator]);
    assert((dir.push(separator) + name).take(dir.len() as int) =~= dir);
    lemma_no_separator(name);
}

/// The last separator of a path stands before its name.
proof fn lemma_the_last_separator(dir: Seq<u16>, separator: u16, name: Seq<u16>)
    requires
        is_separator(separator),
        is_name(name),
    ensures
        last_separator(dir.push(separator) + name) == Some(dir.len() as int),
    decreases name.len(),
{
    let path = dir.push(separator) + name;
    if name.len() == 0 {
        assert(path.last() == separator);
    } else {
        assert(path.last() == name[name.len() - 1]);
        assert(path.drop_last() =~= dir.push(separator) + name.drop_last());
        lemma_the_last_separator(dir, separator, name.drop_last());
    }
}

/// A name has no separator.
proof fn lemma_no_separator(name: Seq<u16>)
    requires
        is_name(name),
    ensures
        last_separator(name) is None,
    decreases name.len(),
{
    if name.len() > 0 {
        assert(!is_separator(name[name.len() - 1]));
        lemma_no_separator(name.drop_last());
    }
}

/// A file's own name is what follows the last separator of its path.
pub proof fn law_a_file_has_its_own_name(dir: Seq<char>, separator: char, name: Seq<char>)
    requires
        separator == '\\' || separator == '/',
        !name.contains('\\'),
        !name.contains('/'),
    ensures
        file_name(dir.push(separator) + name) == name,
        file_name(name) == name,
    decreases name.len(),
{
    let path = dir.push(separator) + name;
    if name.len() == 0 {
        assert(path =~= dir.push(separator));
    } else {
        let front = name.drop_last();
        assert(name.contains(name[name.len() - 1]));
        assert(!front.contains('\\') && !front.contains('/')) by {
            if front.contains('\\') {
                let i = choose|i: int| 0 <= i < front.len() && front[i] == '\\';
                assert(name[i] == '\\');
            }
            if front.contains('/') {
                let i = choose|i: int| 0 <= i < front.len() && front[i] == '/';
                assert(name[i] == '/');
            }
        }
        law_a_file_has_its_own_name(dir, separator, front);
        assert(path.drop_last() =~= dir.push(separator) + front);
        assert(path.last() == name.last());
        assert(front.push(name.last()) =~= name);
    }
}

/// The last place where a pattern stands is one where it stands, with none behind it.
pub proof fn law_the_last_place_is_last(text: Seq<char>, pattern: Seq<char>, upto: int, at: int)
    requires
        0 <= at <= upto,
        stands_at(text, pattern, at),
    ensures
        last_stand(text, pattern, upto) is Some,
        at <= last_stand(text, pattern, upto)->0 <= upto,
        stands_at(text, pattern, last_stand(text, pattern, upto)->0),
    decreases upto,
{
    if !stands_at(text, pattern, upto) {
        law_the_last_place_is_last(text, pattern, upto - 1, at);
    }
}

/// A source path below a `crates` directory is made short from the last such directory on.
pub proof fn law_a_short_path_begins_at_the_crates(file: Seq<char>, at: int)
    requires
        stands_at(file, "crates\\"@, at),
    ensures
        stands_at(short_path(file), "crates\\"@, 0),
        short_path(file).len() <= file.len() - at,
        file.skip(file.len() - short_path(file).len()) == short_path(file),
{
    reveal_strlit("crates\\");
    law_the_last_place_is_last(file, "crates\\"@, file.len() as int, at);
    let k = last_stand(file, "crates\\"@, file.len() as int)->0;
    assert(file.skip(k).subrange(0, 7) =~= file.subrange(k, k + 7));
    assert(file.skip(file.len() - short_path(file).len()) =~= short_path(file));
}

/// An address inside a symbol is not past its end, one at its length or behind is, and a
/// symbol without a length has no end.
pub proof fn law_a_symbol_ends_at_its_length(displacement: u64, size: u32)
    ensures
        displacement < size ==> !past_end(displacement, size),
        size > 0 ==> past_end(size as u64, size),
        past_end(displacement, size) && displacement < u64::MAX ==> past_end(
            (displacement + 1) as u64,
            size,
        ),
        !past_end(displacement, 0),
{
}

/// Answers differ where one is missing, where their names differ, or where only one of them
/// has the address past its end; nothing else of them matters.
pub proof fn law_when_two_answers_differ(a: Symbol, b: Symbol)
    ensures
        !agree(Some(a), None),
        !agree(None, Some(b)),
        agree(None, None),
        a.name@ != b.name@ ==> !agree(Some(a), Some(b)),
        past_end(a.displacement, a.size) && !past_end(b.displacement, b.size) ==> !agree(
            Some(a),
            Some(b),
        ),
        a.name@ == b.name@ && a.displacement < a.size && b.displacement < b.size ==> agree(
            Some(a),
            Some(b),
        ),
{
}

/// Every sample is counted at its own address: an address has as many samples as the list
/// holds of it, in any phase.
pub proof fn law_an_address_has_its_samples(samples: Seq<(u64, u32)>, i: int)
    requires
        samples.len() <= u64::MAX,
        0 <= i < address_counts(samples).len(),
    ensures
        address_counts(samples)[i].1 == samples.map_values(
            |s: (u64, u32)| s.0,
        ).to_multiset().count(address_counts(samples)[i].0),
{
    lemma_a_list_has_a_tally(address_pairs(samples));
    let rows = tally_of(address_pairs(samples));
    assert(is_tally(rows, address_pairs(samples)));
    let row = rows[i];
    lemma_pairs_count_addresses(samples, row.0.0);
    assert(row.1 == address_pairs(samples).to_multiset().count(row.0));
    assert(address_pairs(samples).to_multiset().count(row.0) > 0);
    address_pairs(samples).to_multiset_ensures();
    assert(address_pairs(samples).contains(row.0));
    assert(row.0 == (row.0.0, 0u64));
}

/// An address is as frequent among the pairs as among the samples.
proof fn lemma_pairs_count_addresses(samples: Seq<(u64, u32)>, address: u64)
    ensures
        address_pairs(samples).to_multiset().count((address, 0u64)) == samples.map_values(
            |s: (u64, u32)| s.0,
        ).to_multiset().count(address),
    decreases samples.len(),
{
    let pairs = address_pairs(samples);
    let plain = samples.map_values(|s: (u64, u32)| s.0);
    if samples.len() == 0 {
        assert(pairs =~= Seq::empty());
        assert(plain =~= Seq::empty());
        pairs.to_multiset_ensures();
        plain.to_multiset_ensures();
        assert(!pairs.contains((address, 0u64)));
        assert(!plain.contains(address));
    } else {
        let front = samples.drop_last();
        lemma_pairs_count_addresses(front, address);
        let last = samples.last();
        assert(pairs =~= address_pairs(front).push((last.0, 0u64)));
        assert(plain =~= front.map_values(|s: (u64, u32)| s.0).push(last.0));
        address_pairs(front).to_multiset_ensures();
        front.map_values(|s: (u64, u32)| s.0).to_multiset_ensures();
    }
}

} // verus!
