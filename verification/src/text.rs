//! Text: numerals in and out, and taking lines apart.
//!
//! Text is modelled as `Seq<char>`. Every function here states its result
//! exactly over that model.

use vstd::prelude::*;

verus! {

/// `String::push` appends the character.
pub assume_specification[ std::string::String::push ](
    string: &mut std::string::String,
    ch: char,
)
    ensures
        final(string)@ == old(string)@.push(ch),
;

// ---------------------------------------------------------------------------
// Moving between `str` and characters
// ---------------------------------------------------------------------------

/// The characters of `text`.
pub fn chars_of(text: &str) -> (chars: Vec<char>)
    ensures
        chars@ == text@,
{
    let mut chars: Vec<char> = Vec::new();
    for c in it: text.chars()
        invariant
            chars@ == it.seq().take(it.index() as int),
            it.seq() == text@,
    {
        chars.push(c);
        assert(it.seq().take(it.index() + 1) =~= it.seq().take(it.index() as int).push(c));
    }
    assert(text@.take(text@.len() as int) =~= text@);
    chars
}

/// The characters `chars[from..to]` as a `String`.
pub fn slice_text(chars: &Vec<char>, from: usize, to: usize) -> (text: String)
    requires
        from <= to <= chars@.len(),
    ensures
        text@ == chars@.subrange(from as int, to as int),
{
    let mut text: String = String::new();
    let mut i: usize = from;
    while i < to
        invariant
            from <= i <= to <= chars@.len(),
            text@ == chars@.subrange(from as int, i as int),
        decreases to - i,
    {
        text.push(chars[i]);
        i = i + 1;
        assert(chars@.subrange(from as int, i as int) =~= chars@.subrange(
            from as int,
            i - 1,
        ).push(chars@[i - 1]));
    }
    text
}

/// `chars` as a `String`.
pub fn text_of(chars: &Vec<char>) -> (text: String)
    ensures
        text@ == chars@,
{
    let text: String = slice_text(chars, 0, chars.len());
    assert(chars@.subrange(0, chars@.len() as int) =~= chars@);
    text
}

/// Whether two texts are the same.
pub fn same_text(a: &str, b: &str) -> (same: bool)
    ensures
        same == (a@ == b@),
{
    let x: Vec<char> = chars_of(a);
    let y: Vec<char> = chars_of(b);
    if x.len() != y.len() {
        return false;
    }
    let mut i: usize = 0;
    while i < x.len()
        invariant
            i <= x@.len(),
            x@ == a@,
            y@ == b@,
            x@.len() == y@.len(),
            forall|k: int| 0 <= k < i ==> x@[k] == y@[k],
        decreases x@.len() - i,
    {
        if x[i] != y[i] {
            return false;
        }
        i = i + 1;
    }
    assert(a@ =~= b@);
    true
}

// ---------------------------------------------------------------------------
// Numerals
// ---------------------------------------------------------------------------

/// The lower-case digit for `d` in bases up to sixteen.
pub open spec fn digit(d: nat) -> char {
    if d < 10 {
        (48 + d) as char
    } else {
        (87 + d) as char
    }
}

/// The upper-case digit for `d` in bases up to sixteen.
pub open spec fn upper_digit(d: nat) -> char {
    if d < 10 {
        (48 + d) as char
    } else {
        (55 + d) as char
    }
}

/// `n` in decimal, without leading zeros.
pub open spec fn decimal(n: nat) -> Seq<char>
    decreases n,
{
    if n < 10 {
        seq![digit(n)]
    } else {
        decimal(n / 10).push(digit(n % 10))
    }
}

/// `n` in lower-case hexadecimal, without leading zeros.
pub open spec fn hex(n: nat) -> Seq<char>
    decreases n,
{
    if n < 16 {
        seq![digit(n)]
    } else {
        hex(n / 16).push(digit(n % 16))
    }
}

/// `n` in upper-case hexadecimal, without leading zeros.
pub open spec fn upper_hex(n: nat) -> Seq<char>
    decreases n,
{
    if n < 16 {
        seq![upper_digit(n)]
    } else {
        upper_hex(n / 16).push(upper_digit(n % 16))
    }
}

/// `text` with `fill` in front of it up to `width` characters.
pub open spec fn padded(text: Seq<char>, width: nat, fill: char) -> Seq<char> {
    if text.len() >= width {
        text
    } else {
        Seq::new((width - text.len()) as nat, |i: int| fill) + text
    }
}

/// `0x` and `n` in hexadecimal, with zeros in front up to `width` digits.
pub open spec fn prefixed_hex(n: nat, width: nat, upper: bool) -> Seq<char> {
    seq!['0', 'x'] + padded(
        if upper {
            upper_hex(n)
        } else {
            hex(n)
        },
        width,
        '0',
    )
}

/// The digit character for `d`.
fn digit_char(d: u8, upper: bool) -> (c: char)
    requires
        d < 16,
    ensures
        c == if upper {
            upper_digit(d as nat)
        } else {
            digit(d as nat)
        },
{
    if d < 10 {
        (48 + d) as char
    } else if upper {
        (55 + d) as char
    } else {
        (87 + d) as char
    }
}

/// The decimal numeral of `n`.
pub fn wide_decimal_text(n: u128) -> (text: String)
    ensures
        text@ == decimal(n as nat),
    decreases n,
{
    if n < 10 {
        let mut text: String = String::new();
        text.push(digit_char(n as u8, false));
        assert(text@ =~= decimal(n as nat));
        text
    } else {
        let mut text: String = wide_decimal_text(n / 10);
        text.push(digit_char((n % 10) as u8, false));
        text
    }
}

/// The decimal numeral of `n`.
pub fn decimal_text(n: u64) -> (text: String)
    ensures
        text@ == decimal(n as nat),
{
    wide_decimal_text(n as u128)
}

/// The hexadecimal numeral of `n`, in upper or lower case.
pub fn hex_text(n: u64, upper: bool) -> (text: String)
    ensures
        text@ == if upper {
            upper_hex(n as nat)
        } else {
            hex(n as nat)
        },
    decreases n,
{
    if n < 16 {
        let mut text: String = String::new();
        text.push(digit_char(n as u8, upper));
        assert(text@ =~= seq![digit_of_case(n as nat, upper)]);
        text
    } else {
        let mut text: String = hex_text(n / 16, upper);
        text.push(digit_char((n % 16) as u8, upper));
        text
    }
}

/// The digit for `d` in the chosen case.
spec fn digit_of_case(d: nat, upper: bool) -> char {
    if upper {
        upper_digit(d)
    } else {
        digit(d)
    }
}

/// `text` padded on the left with `fill` to `width` characters.
pub fn pad_left(text: &str, width: usize, fill: char) -> (out: String)
    ensures
        out@ == padded(text@, width as nat, fill),
{
    let len: usize = text.unicode_len();
    let mut out: String = String::new();
    let mut i: usize = len;
    while i < width
        invariant
            len == text@.len(),
            len <= width ==> i <= width,
            len > width ==> i == len,
            i >= len,
            out@ == Seq::new((i - len) as nat, |k: int| fill),
        decreases width - i,
    {
        out.push(fill);
        i = i + 1;
        assert(Seq::new((i - len) as nat, |k: int| fill) =~= Seq::new(
            (i - 1 - len) as nat,
            |k: int| fill,
        ).push(fill));
    }
    out.append(text);
    assert(out@ =~= padded(text@, width as nat, fill));
    out
}

/// The hexadecimal numeral of `n`, zero-filled to `width` digits.
pub fn padded_hex_text(n: u64, width: usize, upper: bool) -> (text: String)
    ensures
        text@ == padded(
            if upper {
                upper_hex(n as nat)
            } else {
                hex(n as nat)
            },
            width as nat,
            '0',
        ),
{
    let digits: String = hex_text(n, upper);
    pad_left(digits.as_str(), width, '0')
}

/// `0x` and the hexadecimal numeral of `n`, zero-filled to `width` digits.
pub fn prefixed_hex_text(n: u64, width: usize, upper: bool) -> (text: String)
    ensures
        text@ == prefixed_hex(n as nat, width as nat, upper),
{
    let digits: String = hex_text(n, upper);
    let mut text: String = String::new();
    text.push('0');
    text.push('x');
    text.append(pad_left(digits.as_str(), width, '0').as_str());
    assert(text@ =~= prefixed_hex(n as nat, width as nat, upper));
    text
}

// ---------------------------------------------------------------------------
// Characters
// ---------------------------------------------------------------------------

/// The Unicode white space characters.
pub open spec fn is_space(c: char) -> bool {
    ||| '\u{9}' <= c <= '\u{d}'
    ||| c == ' '
    ||| c == '\u{85}'
    ||| c == '\u{a0}'
    ||| c == '\u{1680}'
    ||| '\u{2000}' <= c <= '\u{200a}'
    ||| c == '\u{2028}'
    ||| c == '\u{2029}'
    ||| c == '\u{202f}'
    ||| c == '\u{205f}'
    ||| c == '\u{3000}'
}

/// Whether `c` is white space.
pub fn space(c: char) -> (yes: bool)
    ensures
        yes == is_space(c),
{
    ('\u{9}' <= c && c <= '\u{d}') || c == ' ' || c == '\u{85}' || c == '\u{a0}' || c == '\u{1680}'
        || ('\u{2000}' <= c && c <= '\u{200a}') || c == '\u{2028}' || c == '\u{2029}' || c
        == '\u{202f}' || c == '\u{205f}' || c == '\u{3000}'
}

/// An ASCII capital as its small letter; any other character as it is.
pub open spec fn lower(c: char) -> char {
    if 'A' <= c <= 'Z' {
        (c as u32 + 32) as char
    } else {
        c
    }
}

/// An ASCII small letter as its capital; any other character as it is.
pub open spec fn upper(c: char) -> char {
    if 'a' <= c <= 'z' {
        (c as u32 - 32) as char
    } else {
        c
    }
}

/// `text` with every ASCII capital as its small letter.
pub open spec fn lowered(text: Seq<char>) -> Seq<char> {
    text.map_values(|c: char| lower(c))
}

/// `text` with every ASCII small letter as its capital.
pub open spec fn uppered(text: Seq<char>) -> Seq<char> {
    text.map_values(|c: char| upper(c))
}

/// An ASCII capital as its small letter.
fn lower_char(c: char) -> (l: char)
    ensures
        l == lower(c),
{
    if 'A' <= c && c <= 'Z' {
        (c as u8 + 32) as char
    } else {
        c
    }
}

/// An ASCII small letter as its capital.
fn upper_char(c: char) -> (u: char)
    ensures
        u == upper(c),
{
    if 'a' <= c && c <= 'z' {
        (c as u8 - 32) as char
    } else {
        c
    }
}

/// The characters with every ASCII capital as its small letter.
pub fn lower_chars(chars: &Vec<char>) -> (out: Vec<char>)
    ensures
        out@ == lowered(chars@),
{
    let mut out: Vec<char> = Vec::new();
    let mut i: usize = 0;
    while i < chars.len()
        invariant
            i <= chars@.len(),
            out@ == lowered(chars@.take(i as int)),
        decreases chars@.len() - i,
    {
        out.push(lower_char(chars[i]));
        i = i + 1;
        assert(lowered(chars@.take(i as int)) =~= lowered(chars@.take(i - 1)).push(
            lower(chars@[i - 1]),
        ));
    }
    assert(chars@.take(chars@.len() as int) =~= chars@);
    out
}

/// The characters with every ASCII small letter as its capital.
pub fn upper_chars(chars: &Vec<char>) -> (out: Vec<char>)
    ensures
        out@ == uppered(chars@),
{
    let mut out: Vec<char> = Vec::new();
    let mut i: usize = 0;
    while i < chars.len()
        invariant
            i <= chars@.len(),
            out@ == uppered(chars@.take(i as int)),
        decreases chars@.len() - i,
    {
        out.push(upper_char(chars[i]));
        i = i + 1;
        assert(uppered(chars@.take(i as int)) =~= uppered(chars@.take(i - 1)).push(
            upper(chars@[i - 1]),
        ));
    }
    assert(chars@.take(chars@.len() as int) =~= chars@);
    out
}

// ---------------------------------------------------------------------------
// Taking text apart
// ---------------------------------------------------------------------------

/// `text` without the white space in front.
pub open spec fn trim_start(text: Seq<char>) -> Seq<char>
    decreases text.len(),
{
    if text.len() > 0 && is_space(text[0]) {
        trim_start(text.drop_first())
    } else {
        text
    }
}

/// `text` without the white space behind.
pub open spec fn trim_end(text: Seq<char>) -> Seq<char>
    decreases text.len(),
{
    if text.len() > 0 && is_space(text.last()) {
        trim_end(text.drop_last())
    } else {
        text
    }
}

/// `text` without the white space around it.
pub open spec fn trimmed(text: Seq<char>) -> Seq<char> {
    trim_end(trim_start(text))
}

/// The characters without the white space around them.
pub fn trim_chars(chars: &Vec<char>) -> (out: Vec<char>)
    ensures
        out@ == trimmed(chars@),
{
    let mut from: usize = 0;
    assert(chars@.skip(0) =~= chars@);
    while from < chars.len() && space(chars[from])
        invariant
            from <= chars@.len(),
            trim_start(chars@) == trim_start(chars@.skip(from as int)),
        decreases chars@.len() - from,
    {
        assert(chars@.skip(from as int).drop_first() =~= chars@.skip(from + 1));
        from = from + 1;
    }
    let mut to: usize = chars.len();
    assert(chars@.subrange(from as int, to as int) =~= chars@.skip(from as int));
    while to > from && space(chars[to - 1])
        invariant
            from <= to <= chars@.len(),
            trim_end(trim_start(chars@)) == trim_end(chars@.subrange(from as int, to as int)),
        decreases to,
    {
        assert(chars@.subrange(from as int, to as int).drop_last() =~= chars@.subrange(
            from as int,
            to - 1,
        ));
        to = to - 1;
    }
    cut(chars, from, to)
}

/// The characters `chars[from..to]`.
pub fn cut(chars: &Vec<char>, from: usize, to: usize) -> (out: Vec<char>)
    requires
        from <= to <= chars@.len(),
    ensures
        out@ == chars@.subrange(from as int, to as int),
{
    let mut out: Vec<char> = Vec::new();
    let mut i: usize = from;
    while i < to
        invariant
            from <= i <= to <= chars@.len(),
            out@ == chars@.subrange(from as int, i as int),
        decreases to - i,
    {
        out.push(chars[i]);
        i = i + 1;
        assert(chars@.subrange(from as int, i as int) =~= chars@.subrange(
            from as int,
            i - 1,
        ).push(chars@[i - 1]));
    }
    out
}

/// Whether `pattern` stands in `text` at `at`.
pub open spec fn stands_at(text: Seq<char>, pattern: Seq<char>, at: int) -> bool {
    &&& 0 <= at
    &&& at + pattern.len() <= text.len()
    &&& text.subrange(at, at + pattern.len()) == pattern
}

/// The first place at or behind `from` where `pattern` stands in `text`.
pub open spec fn find_from(text: Seq<char>, pattern: Seq<char>, from: nat) -> Option<nat>
    decreases text.len() - from,
{
    if from + pattern.len() > text.len() {
        None
    } else if stands_at(text, pattern, from as int) {
        Some(from)
    } else if from < text.len() {
        find_from(text, pattern, from + 1)
    } else {
        None
    }
}

/// What lies before and behind the first `pattern` in `text`, where it stands there.
pub open spec fn split_once(text: Seq<char>, pattern: Seq<char>) -> Option<(Seq<char>, Seq<char>)> {
    match find_from(text, pattern, 0) {
        Some(at) => Some((text.take(at as int), text.skip((at + pattern.len()) as int))),
        None => None,
    }
}

/// Whether `pattern` stands in `text` at `at`.
pub fn stands(text: &Vec<char>, pattern: &Vec<char>, at: usize) -> (yes: bool)
    requires
        at + pattern@.len() <= text@.len(),
    ensures
        yes == stands_at(text@, pattern@, at as int),
{
    let len: usize = text.len();
    let mut i: usize = 0;
    while i < pattern.len()
        invariant
            i <= pattern@.len(),
            at + pattern@.len() <= text@.len(),
            len == text@.len(),
            forall|k: int| 0 <= k < i ==> text@[at + k] == pattern@[k],
        decreases pattern@.len() - i,
    {
        if text[at + i] != pattern[i] {
            assert(text@.subrange(at as int, at + pattern@.len())[i as int] != pattern@[i as int]);
            return false;
        }
        i = i + 1;
    }
    assert(text@.subrange(at as int, at + pattern@.len()) =~= pattern@);
    true
}

/// The first place at or behind `from` where `pattern` stands in `text`.
pub fn find(text: &Vec<char>, pattern: &Vec<char>, from: usize) -> (at: Option<usize>)
    ensures
        match at {
            Some(at) => find_from(text@, pattern@, from as nat) == Some(at as nat) && from <= at
                && at + pattern@.len() <= text@.len(),
            None => find_from(text@, pattern@, from as nat) is None,
        },
{
    let mut at: usize = from;
    while at <= text.len() && pattern.len() <= text.len() - at
        invariant
            from <= at,
            at <= text@.len() + 1 || at == from,
            find_from(text@, pattern@, from as nat) == find_from(text@, pattern@, at as nat),
        decreases text@.len() + 1 - at,
    {
        if stands(text, pattern, at) {
            return Some(at);
        }
        if at == text.len() {
            return None;
        }
        at = at + 1;
    }
    None
}

/// What lies before and behind the first `pattern` in `text`.
pub fn cut_once(text: &Vec<char>, pattern: &Vec<char>) -> (parts: Option<(Vec<char>, Vec<char>)>)
    ensures
        match parts {
            Some(p) => split_once(text@, pattern@) == Some((p.0@, p.1@)),
            None => split_once(text@, pattern@) is None,
        },
{
    match find(text, pattern, 0) {
        Some(at) => {
            let len: usize = text.len();
            let before: Vec<char> = cut(text, 0, at);
            let behind: Vec<char> = cut(text, at + pattern.len(), len);
            assert(before@ =~= text@.take(at as int));
            assert(behind@ =~= text@.skip((at + pattern@.len()) as int));
            Some((before, behind))
        },
        None => None,
    }
}

/// The parts of `text` between the separators `sep`.
pub open spec fn split(text: Seq<char>, sep: char) -> Seq<Seq<char>>
    decreases text.len(),
{
    match split_once(text, seq![sep]) {
        Some((before, behind)) => if behind.len() < text.len() {
            seq![before] + split(behind, sep)
        } else {
            seq![text]
        },
        None => seq![text],
    }
}

/// What the texts of a list are.
pub open spec fn views(list: Seq<Vec<char>>) -> Seq<Seq<char>> {
    list.map_values(|part: Vec<char>| part@)
}

/// A place that was found leaves a shorter rest behind it.
proof fn lemma_find_bounds(text: Seq<char>, pattern: Seq<char>, from: nat)
    ensures
        find_from(text, pattern, from) matches Some(at) ==> from <= at && at + pattern.len()
            <= text.len() && stands_at(text, pattern, at as int),
    decreases text.len() - from,
{
    if from + pattern.len() <= text.len() && !stands_at(text, pattern, from as int) && from
        < text.len() {
        lemma_find_bounds(text, pattern, from + 1);
    }
}

/// The first separator is found behind what has none.
proof fn lemma_the_first_is_found(head: Seq<char>, rest: Seq<char>, sep: char, from: nat)
    requires
        from <= head.len(),
        !head.contains(sep),
    ensures
        find_from(head + seq![sep] + rest, seq![sep], from) == Some(head.len()),
    decreases head.len() - from,
{
    let text = head + seq![sep] + rest;
    if from == head.len() {
        assert(text.subrange(from as int, from + 1int) =~= seq![sep]);
    } else {
        assert(head.contains(head[from as int]));
        assert(text.subrange(from as int, from + 1int)[0] == head[from as int]);
        lemma_the_first_is_found(head, rest, sep, from + 1);
    }
}

/// What stands before the first separator is the first part.
pub proof fn lemma_split_at_the_first(head: Seq<char>, rest: Seq<char>, sep: char)
    requires
        !head.contains(sep),
    ensures
        split(head + seq![sep] + rest, sep) == seq![head] + split(rest, sep),
{
    let text = head + seq![sep] + rest;
    lemma_the_first_is_found(head, rest, sep, 0);
    assert(text.take(head.len() as int) =~= head);
    assert(text.skip(head.len() + 1int) =~= rest);
}

/// No separator is found where there is none.
proof fn lemma_none_is_found(text: Seq<char>, sep: char, from: nat)
    requires
        !text.contains(sep),
    ensures
        find_from(text, seq![sep], from) is None,
    decreases text.len() - from,
{
    if from < text.len() {
        assert(text.contains(text[from as int]));
        assert(text.subrange(from as int, from + 1int)[0] == text[from as int]);
        lemma_none_is_found(text, sep, from + 1);
    }
}

/// A text without a separator is one part.
pub proof fn lemma_split_without_any(text: Seq<char>, sep: char)
    requires
        !text.contains(sep),
    ensures
        split(text, sep) == seq![text],
{
    lemma_none_is_found(text, sep, 0);
}

/// The parts of the characters between the separators.
pub fn split_chars(text: &Vec<char>, sep: char) -> (parts: Vec<Vec<char>>)
    ensures
        views(parts@) == split(text@, sep),
{
    let pattern: Vec<char> = vec![sep];
    assert(pattern@ =~= seq![sep]);
    let mut parts: Vec<Vec<char>> = Vec::new();
    let mut rest: Vec<char> = cut(text, 0, text.len());
    assert(rest@ =~= text@);
    assert(views(parts@) + split(rest@, sep) =~= split(text@, sep));
    loop
        invariant
            pattern@ == seq![sep],
            views(parts@) + split(rest@, sep) == split(text@, sep),
        ensures
            views(parts@).push(rest@) == split(text@, sep),
        decreases rest@.len(),
    {
        match cut_once(&rest, &pattern) {
            Some((before, behind)) => {
                proof {
                    lemma_find_bounds(rest@, pattern@, 0);
                    assert(views(parts@.push(before)) =~= views(parts@).push(before@));
                    assert(views(parts@) + (seq![before@] + split(behind@, sep)) =~= views(
                        parts@,
                    ).push(before@) + split(behind@, sep));
                }
                parts.push(before);
                rest = behind;
            },
            None => {
                assert(views(parts@) + seq![rest@] =~= views(parts@).push(rest@));
                break;
            },
        }
    }
    let ghost before_last = views(parts@);
    let ghost last = rest@;
    parts.push(rest);
    assert(views(parts@) =~= before_last.push(last));
    parts
}

/// `text` with every `pattern` replaced by `by`, from the front.
pub open spec fn replaced(text: Seq<char>, pattern: Seq<char>, by: char) -> Seq<char>
    decreases text.len(),
{
    if text.len() == 0 || pattern.len() == 0 {
        text
    } else if stands_at(text, pattern, 0) {
        seq![by] + replaced(text.skip(pattern.len() as int), pattern, by)
    } else {
        seq![text[0]] + replaced(text.drop_first(), pattern, by)
    }
}

/// The characters with every `pattern` replaced by `by`.
pub fn replace_chars(text: &Vec<char>, pattern: &Vec<char>, by: char) -> (out: Vec<char>)
    requires
        pattern@.len() > 0,
    ensures
        out@ == replaced(text@, pattern@, by),
{
    let mut out: Vec<char> = Vec::new();
    let mut i: usize = 0;
    assert(text@.skip(0) =~= text@);
    assert(out@ + replaced(text@.skip(0), pattern@, by) =~= replaced(text@, pattern@, by));
    while i < text.len()
        invariant
            i <= text@.len(),
            pattern@.len() > 0,
            out@ + replaced(text@.skip(i as int), pattern@, by) == replaced(text@, pattern@, by),
        decreases text@.len() - i,
    {
        let ghost rest = text@.skip(i as int);
        proof {
            assert(forall|n: int|
                0 <= n && i + n <= text@.len() ==> rest.skip(n) =~= text@.skip(i + n));
            assert(rest.drop_first() =~= text@.skip(i + 1));
        }
        if pattern.len() <= text.len() - i && stands(text, pattern, i) {
            proof {
                assert(rest.subrange(0, pattern@.len() as int) =~= text@.subrange(
                    i as int,
                    i + pattern@.len(),
                ));
                assert(stands_at(rest, pattern@, 0));
                assert(out@.push(by) + replaced(rest.skip(pattern@.len() as int), pattern@, by)
                    =~= out@ + (seq![by] + replaced(
                    rest.skip(pattern@.len() as int),
                    pattern@,
                    by,
                )));
            }
            out.push(by);
            i = i + pattern.len();
        } else {
            proof {
                if pattern@.len() <= rest.len() {
                    assert(rest.subrange(0, pattern@.len() as int) =~= text@.subrange(
                        i as int,
                        i + pattern@.len(),
                    ));
                }
                assert(out@.push(text@[i as int]) + replaced(text@.skip(i + 1), pattern@, by)
                    =~= out@ + (seq![rest[0]] + replaced(rest.drop_first(), pattern@, by)));
            }
            out.push(text[i]);
            i = i + 1;
        }
    }
    assert(text@.skip(text@.len() as int) =~= Seq::empty());
    assert(out@ + Seq::<char>::empty() =~= out@);
    out
}

/// Texts one after the other, with `sep` between them.
pub open spec fn joined(parts: Seq<Seq<char>>, sep: Seq<char>) -> Seq<char>
    decreases parts.len(),
{
    if parts.len() == 0 {
        Seq::empty()
    } else if parts.len() == 1 {
        parts[0]
    } else {
        joined(parts.drop_last(), sep) + sep + parts.last()
    }
}

/// Joined texts are their first, a separator, and the others joined.
proof fn lemma_joined_from_the_front(parts: Seq<Seq<char>>, sep: Seq<char>)
    requires
        parts.len() > 1,
    ensures
        joined(parts, sep) == parts[0] + sep + joined(parts.drop_first(), sep),
    decreases parts.len(),
{
    let rest = parts.drop_first();
    if parts.len() == 2 {
        assert(parts.drop_last()[0] == parts[0]);
        assert(rest[0] == parts[1]);
        assert(joined(parts.drop_last(), sep) == parts[0]);
        assert(joined(rest, sep) == parts[1]);
    } else {
        lemma_joined_from_the_front(parts.drop_last(), sep);
        assert(parts.drop_last().drop_first() =~= rest.drop_last());
        assert(joined(parts, sep) =~= parts[0] + sep + joined(rest, sep));
    }
}

/// One more text joined to those before it.
pub proof fn lemma_one_more_joined(parts: Seq<Seq<char>>, n: int, sep: Seq<char>)
    requires
        1 <= n < parts.len(),
    ensures
        joined(parts.take(n + 1), sep) == joined(parts.take(n), sep) + sep + parts[n],
{
    assert(parts.take(n + 1).drop_last() =~= parts.take(n));
}

/// Splitting at a separator undoes joining with it, where no part holds it.
pub proof fn lemma_split_undoes_joining(parts: Seq<Seq<char>>, sep: char)
    requires
        parts.len() > 0,
        forall|i: int| 0 <= i < parts.len() ==> !(#[trigger] parts[i]).contains(sep),
    ensures
        split(joined(parts, seq![sep]), sep) == parts,
    decreases parts.len(),
{
    assert(!parts[0].contains(sep));
    if parts.len() == 1 {
        lemma_split_without_any(parts[0], sep);
        assert(parts =~= seq![parts[0]]);
    } else {
        let rest = parts.drop_first();
        assert forall|i: int| 0 <= i < rest.len() implies !(#[trigger] rest[i]).contains(sep) by {
            assert(rest[i] == parts[i + 1]);
        }
        lemma_joined_from_the_front(parts, seq![sep]);
        lemma_split_at_the_first(parts[0], joined(rest, seq![sep]), sep);
        lemma_split_undoes_joining(rest, sep);
        assert(parts =~= seq![parts[0]] + rest);
    }
}

/// A text does not hold a character that neither of its halves holds.
pub proof fn lemma_neither_holds(a: Seq<char>, b: Seq<char>, c: char)
    requires
        !a.contains(c),
        !b.contains(c),
    ensures
        !(a + b).contains(c),
{
    if (a + b).contains(c) {
        let i = choose|i: int| 0 <= i < (a + b).len() && (a + b)[i] == c;
        if i < a.len() {
            assert(a.contains(a[i]));
        } else {
            assert(b.contains(b[i - a.len()]));
        }
    }
}

/// Numerals hold digits only, padded or not.
pub proof fn lemma_numerals_hold_digits(n: nat, width: nat, c: char)
    requires
        hex_digit(c) is None,
    ensures
        !decimal(n).contains(c),
        !hex(n).contains(c),
        !padded(decimal(n), width, '0').contains(c),
        !padded(hex(n), width, '0').contains(c),
{
    lemma_decimal_is_digits(n);
    lemma_hex_reads_back(n);
    assert forall|i: int| 0 <= i < decimal(n).len() implies (#[trigger] decimal(n)[i]) != c by {
        assert(is_digit(decimal(n)[i]));
    }
    assert forall|i: int| 0 <= i < hex(n).len() implies (#[trigger] hex(n)[i]) != c by {
        assert(hex_digit(hex(n)[i]) is Some);
    }
    let zeros = Seq::new((width - decimal(n).len()) as nat, |i: int| '0');
    let more = Seq::new((width - hex(n).len()) as nat, |i: int| '0');
    if decimal(n).len() < width {
        lemma_neither_holds(zeros, decimal(n), c);
    }
    if hex(n).len() < width {
        lemma_neither_holds(more, hex(n), c);
    }
}

/// What an optional text is.
pub open spec fn opt_text(text: Option<String>) -> Option<Seq<char>> {
    match text {
        Some(text) => Some(text@),
        None => None,
    }
}

/// What the texts of a list are.
pub open spec fn text_views(list: Seq<String>) -> Seq<Seq<char>> {
    list.map_values(|part: String| part@)
}

/// The texts one after the other, with `sep` between them.
pub fn join(parts: &Vec<String>, sep: &str) -> (text: String)
    ensures
        text@ == joined(text_views(parts@), sep@),
{
    let ghost list = text_views(parts@);
    let mut text: String = String::new();
    let mut i: usize = 0;
    assert(list.take(0) =~= Seq::empty());
    while i < parts.len()
        invariant
            i <= parts@.len(),
            list == text_views(parts@),
            text@ == joined(list.take(i as int), sep@),
        decreases parts@.len() - i,
    {
        if i > 0 {
            text.append(sep);
        }
        text.append(parts[i].as_str());
        proof {
            assert(list.take(i + 1).drop_last() =~= list.take(i as int));
            assert(list.take(i + 1).last() == parts@[i as int]@);
            if i == 0 {
                assert(list.take(0) =~= Seq::empty());
                assert(text@ =~= list.take(1)[0]);
            }
        }
        i = i + 1;
    }
    assert(list.take(list.len() as int) =~= list);
    text
}

/// Whether `a` comes before `b`, character by character.
pub open spec fn text_before(a: Seq<char>, b: Seq<char>) -> bool
    decreases a.len(),
{
    if b.len() == 0 {
        false
    } else if a.len() == 0 {
        true
    } else if a[0] != b[0] {
        a[0] < b[0]
    } else {
        text_before(a.drop_first(), b.drop_first())
    }
}

/// Whether `a` comes before `b`.
pub fn before(a: &str, b: &str) -> (yes: bool)
    ensures
        yes == text_before(a@, b@),
{
    let x: Vec<char> = chars_of(a);
    let y: Vec<char> = chars_of(b);
    let mut i: usize = 0;
    assert(x@.skip(0) =~= a@);
    assert(y@.skip(0) =~= b@);
    while i < x.len() && i < y.len()
        invariant
            i <= x@.len(),
            i <= y@.len(),
            text_before(a@, b@) == text_before(x@.skip(i as int), y@.skip(i as int)),
        decreases x@.len() - i,
    {
        assert(x@.skip(i as int).drop_first() =~= x@.skip(i + 1));
        assert(y@.skip(i as int).drop_first() =~= y@.skip(i + 1));
        if x[i] != y[i] {
            return x[i] < y[i];
        }
        i = i + 1;
    }
    i < y.len()
}

/// Of two names that differ one comes before the other.
pub proof fn lemma_before_is_total(a: Seq<char>, b: Seq<char>)
    ensures
        text_before(a, b) || text_before(b, a) || a == b,
        !(text_before(a, b) && text_before(b, a)),
        !text_before(a, a),
    decreases a.len(),
{
    if a.len() > 0 && b.len() > 0 && a[0] == b[0] {
        lemma_before_is_total(a.drop_first(), b.drop_first());
        if a.drop_first() == b.drop_first() {
            assert(a =~= seq![a[0]] + a.drop_first());
            assert(b =~= seq![b[0]] + b.drop_first());
        }
    } else if a.len() == 0 && b.len() == 0 {
        assert(a =~= b);
    }
    if a.len() > 0 {
        lemma_before_is_irreflexive(a);
    }
}

/// No name comes before itself.
pub proof fn lemma_before_is_irreflexive(a: Seq<char>)
    ensures
        !text_before(a, a),
    decreases a.len(),
{
    if a.len() > 0 {
        lemma_before_is_irreflexive(a.drop_first());
    }
}

/// What comes before what comes before a name comes before that name.
pub proof fn lemma_before_is_transitive(a: Seq<char>, b: Seq<char>, c: Seq<char>)
    requires
        text_before(a, b),
        text_before(b, c),
    ensures
        text_before(a, c),
    decreases a.len(),
{
    if a.len() > 0 && b.len() > 0 && c.len() > 0 && a[0] == b[0] && b[0] == c[0] {
        lemma_before_is_transitive(a.drop_first(), b.drop_first(), c.drop_first());
    }
}

// ---------------------------------------------------------------------------
// Reading numerals
// ---------------------------------------------------------------------------

/// Whether `c` is a decimal digit.
pub open spec fn is_digit(c: char) -> bool {
    '0' <= c <= '9'
}

/// Whether `text` is decimal digits only.
pub open spec fn all_digits(text: Seq<char>) -> bool {
    forall|i: int| 0 <= i < text.len() ==> is_digit(#[trigger] text[i])
}

/// The number that decimal digits stand for.
pub open spec fn digits_value(text: Seq<char>) -> nat
    decreases text.len(),
{
    if text.len() == 0 {
        0
    } else {
        (digits_value(text.drop_last()) * 10 + (text.last() as u32 - '0' as u32)) as nat
    }
}

/// The number that `text` stands for: digits, with at most one `+` in front, and
/// no more than `max`.
pub open spec fn parsed_nat(text: Seq<char>, max: nat) -> Option<nat> {
    let digits = if text.len() > 0 && text[0] == '+' {
        text.drop_first()
    } else {
        text
    };
    if digits.len() > 0 && all_digits(digits) && digits_value(digits) <= max {
        Some(digits_value(digits))
    } else {
        None
    }
}

/// The number that `text` stands for: digits, with at most one sign in front, and
/// between `-max - 1` and `max`.
pub open spec fn parsed_int(text: Seq<char>, max: nat) -> Option<int> {
    if text.len() > 0 && text[0] == '-' {
        let digits = text.drop_first();
        if digits.len() > 0 && all_digits(digits) && digits_value(digits) <= max + 1 {
            Some(-(digits_value(digits) as int))
        } else {
            None
        }
    } else {
        match parsed_nat(text, max) {
            Some(n) => Some(n as int),
            None => None,
        }
    }
}

/// A numeral is digits only, and stands for its number.
pub proof fn lemma_decimal_is_digits(n: nat)
    ensures
        decimal(n).len() > 0,
        all_digits(decimal(n)),
        digits_value(decimal(n)) == n,
        forall|max: nat| n <= max ==> #[trigger] parsed_nat(decimal(n), max) == Some(n),
    decreases n,
{
    let text = decimal(n);
    if n < 10 {
        assert(text.drop_last() =~= Seq::empty());
        assert(is_digit(text[0]));
        assert(digits_value(text.drop_last()) == 0);
    } else {
        lemma_decimal_is_digits(n / 10);
        let front = decimal(n / 10);
        assert(text.drop_last() =~= front);
        assert forall|i: int| 0 <= i < text.len() implies is_digit(#[trigger] text[i]) by {
            if i < front.len() {
                assert(is_digit(front[i]));
            }
        }
    }
    assert(is_digit(text[0]));
}

/// More digits stand for no smaller a number.
proof fn lemma_digits_grow(text: Seq<char>, n: int)
    requires
        0 <= n <= text.len(),
        all_digits(text),
    ensures
        digits_value(text.take(n)) <= digits_value(text),
    decreases text.len(),
{
    if n == text.len() {
        assert(text.take(n) =~= text);
    } else {
        let shorter = text.drop_last();
        assert forall|i: int| 0 <= i < shorter.len() implies is_digit(#[trigger] shorter[i]) by {
            assert(is_digit(text[i]));
        }
        lemma_digits_grow(shorter, n);
        assert(shorter.take(n) =~= text.take(n));
        assert(is_digit(text[text.len() - 1]));
    }
}

/// The number that the digits `chars[from..]` stand for, up to `max`.
fn read_digits(chars: &Vec<char>, from: usize, max: u64) -> (n: Option<u64>)
    requires
        from <= chars@.len(),
    ensures
        n == ({
            let digits = chars@.skip(from as int);
            if digits.len() > 0 && all_digits(digits) && digits_value(digits) <= max {
                Some(digits_value(digits) as u64)
            } else {
                None
            }
        }),
{
    let ghost digits = chars@.skip(from as int);
    if from == chars.len() {
        return None;
    }
    let mut n: u64 = 0;
    let mut i: usize = from;
    assert(digits.take(0) =~= Seq::empty());
    while i < chars.len()
        invariant
            from <= i <= chars@.len(),
            digits == chars@.skip(from as int),
            n == digits_value(digits.take(i - from)),
            n <= max,
            forall|k: int| 0 <= k < i - from ==> is_digit(#[trigger] digits[k]),
        decreases chars@.len() - i,
    {
        let c: char = chars[i];
        assert(digits[i - from] == c);
        if !('0' <= c && c <= '9') {
            return None;
        }
        let d: u64 = (c as u32 - '0' as u32) as u64;
        proof {
            assert(digits.take(i + 1 - from).drop_last() =~= digits.take(i - from));
            if all_digits(digits) {
                lemma_digits_grow(digits, i + 1 - from);
            }
        }
        match n.checked_mul(10) {
            Some(tens) => match tens.checked_add(d) {
                Some(sum) => {
                    if sum > max {
                        return None;
                    }
                    n = sum;
                },
                None => return None,
            },
            None => return None,
        }
        i = i + 1;
    }
    assert(digits.take(digits.len() as int) =~= digits);
    Some(n)
}

/// The number that the characters stand for, up to `max`.
pub fn read_nat(chars: &Vec<char>, max: u64) -> (n: Option<u64>)
    ensures
        match n {
            Some(n) => parsed_nat(chars@, max as nat) == Some(n as nat),
            None => parsed_nat(chars@, max as nat) is None,
        },
{
    assert(chars@.skip(0) =~= chars@);
    if chars.len() > 0 && chars[0] == '+' {
        assert(chars@.skip(1) =~= chars@.drop_first());
        read_digits(chars, 1, max)
    } else {
        read_digits(chars, 0, max)
    }
}

/// The 32-bit signed number that the characters stand for.
pub fn read_i32(chars: &Vec<char>) -> (n: Option<i32>)
    ensures
        match n {
            Some(n) => parsed_int(chars@, i32::MAX as nat) == Some(n as int),
            None => parsed_int(chars@, i32::MAX as nat) is None,
        },
{
    if chars.len() > 0 && chars[0] == '-' {
        assert(chars@.skip(1) =~= chars@.drop_first());
        match read_digits(chars, 1, 0x8000_0000) {
            Some(n) => Some((-(n as i64)) as i32),
            None => None,
        }
    } else {
        match read_nat(chars, 0x7fff_ffff) {
            Some(n) => Some(n as i32),
            None => None,
        }
    }
}

/// The value of a hexadecimal digit, in either case.
pub open spec fn hex_digit(c: char) -> Option<nat> {
    if '0' <= c <= '9' {
        Some((c as u32 - '0' as u32) as nat)
    } else if 'a' <= c <= 'f' {
        Some((c as u32 - 'a' as u32 + 10) as nat)
    } else if 'A' <= c <= 'F' {
        Some((c as u32 - 'A' as u32 + 10) as nat)
    } else {
        None
    }
}

/// Whether `text` is hexadecimal digits only.
pub open spec fn all_hex(text: Seq<char>) -> bool {
    forall|i: int| 0 <= i < text.len() ==> hex_digit(#[trigger] text[i]) is Some
}

/// The number that hexadecimal digits stand for.
pub open spec fn hex_value(text: Seq<char>) -> nat
    decreases text.len(),
{
    if text.len() == 0 {
        0
    } else {
        hex_value(text.drop_last()) * 16 + hex_digit(text.last())->0
    }
}

/// The 32-bit number that `text` stands for: hexadecimal digits, with at most one
/// `+` in front.
pub open spec fn parsed_hex(text: Seq<char>) -> Option<nat> {
    let digits = if text.len() > 0 && text[0] == '+' {
        text.drop_first()
    } else {
        text
    };
    if digits.len() > 0 && all_hex(digits) && hex_value(digits) <= u32::MAX {
        Some(hex_value(digits))
    } else {
        None
    }
}

/// A hexadecimal numeral is digits only, and stands for its number.
pub proof fn lemma_hex_reads_back(n: nat)
    ensures
        hex(n).len() > 0,
        all_hex(hex(n)),
        hex_value(hex(n)) == n,
    decreases n,
{
    let text = hex(n);
    if n < 16 {
        assert(text.drop_last() =~= Seq::empty());
        assert(hex_value(text.drop_last()) == 0);
        assert(hex_digit(text[0]) == Some(n));
    } else {
        lemma_hex_reads_back(n / 16);
        let front = hex(n / 16);
        assert(text.drop_last() =~= front);
        assert(hex_digit(text.last()) == Some(n % 16));
        assert forall|i: int| 0 <= i < text.len() implies hex_digit(#[trigger] text[i]) is Some by {
            if i < front.len() {
                assert(hex_digit(front[i]) is Some);
            }
        }
    }
}

/// More digits stand for no smaller a number.
proof fn lemma_hex_grows(text: Seq<char>, n: int)
    requires
        0 <= n <= text.len(),
        all_hex(text),
    ensures
        hex_value(text.take(n)) <= hex_value(text),
    decreases text.len(),
{
    if n == text.len() {
        assert(text.take(n) =~= text);
    } else {
        let shorter = text.drop_last();
        assert forall|i: int| 0 <= i < shorter.len() implies hex_digit(
            #[trigger] shorter[i],
        ) is Some by {
            assert(hex_digit(text[i]) is Some);
        }
        lemma_hex_grows(shorter, n);
        assert(shorter.take(n) =~= text.take(n));
    }
}

/// The value of a hexadecimal digit.
fn hex_digit_of(c: char) -> (d: Option<u64>)
    ensures
        match d {
            Some(d) => hex_digit(c) == Some(d as nat) && d < 16,
            None => hex_digit(c) is None,
        },
{
    if '0' <= c && c <= '9' {
        Some((c as u32 - '0' as u32) as u64)
    } else if 'a' <= c && c <= 'f' {
        Some((c as u32 - 'a' as u32 + 10) as u64)
    } else if 'A' <= c && c <= 'F' {
        Some((c as u32 - 'A' as u32 + 10) as u64)
    } else {
        None
    }
}

/// The 32-bit number that the hexadecimal characters stand for.
pub fn read_hex(chars: &Vec<char>) -> (n: Option<u32>)
    ensures
        match n {
            Some(n) => parsed_hex(chars@) == Some(n as nat),
            None => parsed_hex(chars@) is None,
        },
{
    let from: usize = if chars.len() > 0 && chars[0] == '+' {
        1
    } else {
        0
    };
    let ghost digits = chars@.skip(from as int);
    proof {
        assert(chars@.skip(0) =~= chars@);
        if from == 1 {
            assert(digits =~= chars@.drop_first());
        }
    }
    if from == chars.len() {
        return None;
    }
    let mut n: u64 = 0;
    let mut i: usize = from;
    assert(digits.take(0) =~= Seq::empty());
    while i < chars.len()
        invariant
            from <= i <= chars@.len(),
            digits == chars@.skip(from as int),
            digits == (if chars@.len() > 0 && chars@[0] == '+' {
                chars@.drop_first()
            } else {
                chars@
            }),
            n == hex_value(digits.take(i - from)),
            n <= u32::MAX,
            forall|k: int| 0 <= k < i - from ==> hex_digit(#[trigger] digits[k]) is Some,
        decreases chars@.len() - i,
    {
        assert(digits[i - from] == chars@[i as int]);
        match hex_digit_of(chars[i]) {
            None => return None,
            Some(d) => {
                proof {
                    assert(digits.take(i + 1 - from).drop_last() =~= digits.take(i - from));
                    if all_hex(digits) {
                        lemma_hex_grows(digits, i + 1 - from);
                    }
                }
                n = n * 16 + d;
                if n > 0xffff_ffff {
                    return None;
                }
            },
        }
        i = i + 1;
    }
    assert(digits.take(digits.len() as int) =~= digits);
    Some(n as u32)
}

/// `text` without any `pattern` that it begins with, however often.
pub open spec fn without_leading(text: Seq<char>, pattern: Seq<char>) -> Seq<char>
    decreases text.len(),
{
    if pattern.len() > 0 && stands_at(text, pattern, 0) {
        without_leading(text.skip(pattern.len() as int), pattern)
    } else {
        text
    }
}

/// The characters without any `pattern` that they begin with, however often.
pub fn drop_leading(chars: &Vec<char>, pattern: &Vec<char>) -> (out: Vec<char>)
    requires
        pattern@.len() > 0,
    ensures
        out@ == without_leading(chars@, pattern@),
{
    let mut out: Vec<char> = cut(chars, 0, chars.len());
    assert(out@ =~= chars@);
    while pattern.len() <= out.len() && stands(&out, pattern, 0)
        invariant
            pattern@.len() > 0,
            without_leading(out@, pattern@) == without_leading(chars@, pattern@),
        decreases out@.len(),
    {
        let ghost before = out@;
        out = cut(&out, pattern.len(), out.len());
        assert(out@ =~= before.skip(pattern@.len() as int));
    }
    out
}

// ---------------------------------------------------------------------------
// Laws
// ---------------------------------------------------------------------------

/// White space only.
pub open spec fn all_space(text: Seq<char>) -> bool {
    forall|i: int| 0 <= i < text.len() ==> is_space(#[trigger] text[i])
}

/// Neither end is white space.
pub open spec fn bare(text: Seq<char>) -> bool {
    text.len() > 0 ==> !is_space(text[0]) && !is_space(text.last())
}

/// White space in front goes.
proof fn lemma_space_in_front_goes(front: Seq<char>, text: Seq<char>)
    requires
        all_space(front),
    ensures
        trim_start(front + text) == trim_start(text),
    decreases front.len(),
{
    if front.len() == 0 {
        assert(front + text =~= text);
    } else {
        assert(is_space(front[0]));
        assert((front + text).drop_first() =~= front.drop_first() + text);
        lemma_space_in_front_goes(front.drop_first(), text);
    }
}

/// White space behind goes.
proof fn lemma_space_behind_goes(text: Seq<char>, back: Seq<char>)
    requires
        all_space(back),
    ensures
        trim_end(text + back) == trim_end(text),
    decreases back.len(),
{
    if back.len() == 0 {
        assert(text + back =~= text);
    } else {
        assert(is_space(back[back.len() - 1]));
        assert((text + back).drop_last() =~= text + back.drop_last());
        lemma_space_behind_goes(text, back.drop_last());
    }
}

/// Trimming takes the white space around a text away and nothing else.
pub proof fn law_trimming_takes_the_space_around(front: Seq<char>, text: Seq<char>, back: Seq<char>)
    requires
        all_space(front),
        all_space(back),
        bare(text),
    ensures
        trimmed(front + text + back) == text,
{
    assert(front + text + back =~= front + (text + back));
    lemma_space_in_front_goes(front, text + back);
    if text.len() == 0 {
        assert(text + back =~= back + Seq::<char>::empty());
        lemma_space_in_front_goes(back, Seq::empty());
        assert(trim_start(text + back) =~= text);
    } else {
        assert((text + back)[0] == text[0]);
        lemma_space_behind_goes(text, back);
    }
}

/// What stands before the first separator and what stands behind it.
pub proof fn law_the_first_separator_splits(head: Seq<char>, rest: Seq<char>, sep: char)
    requires
        !head.contains(sep),
    ensures
        split_once(head + seq![sep] + rest, seq![sep]) == Some((head, rest)),
        split_once(head, seq![sep]) is None,
{
    let text = head + seq![sep] + rest;
    lemma_the_first_is_found(head, rest, sep, 0);
    lemma_none_is_found(head, sep, 0);
    assert(text.take(head.len() as int) =~= head);
    assert(text.skip(head.len() + 1int) =~= rest);
}

/// A pattern is replaced where it stands, and what holds none of its first character
/// stays as it is.
pub proof fn law_replacing_keeps_the_rest(
    head: Seq<char>,
    pattern: Seq<char>,
    rest: Seq<char>,
    new: char,
)
    requires
        pattern.len() > 0,
        !head.contains(pattern[0]),
    ensures
        replaced(head, pattern, new) == head,
        replaced(head + pattern + rest, pattern, new) == head + seq![new] + replaced(
            rest,
            pattern,
            new,
        ),
    decreases head.len(),
{
    let text = head + pattern + rest;
    if head.len() == 0 {
        assert(text.subrange(0, pattern.len() as int) =~= pattern);
        assert(text.skip(pattern.len() as int) =~= rest);
        assert(head + seq![new] =~= seq![new]);
    } else {
        let tail = head.drop_first();
        assert(head.contains(head[0]));
        assert(!tail.contains(pattern[0])) by {
            if tail.contains(pattern[0]) {
                let i = choose|i: int| 0 <= i < tail.len() && tail[i] == pattern[0];
                assert(head[i + 1] == pattern[0]);
            }
        }
        law_replacing_keeps_the_rest(tail, pattern, rest, new);
        assert(!stands_at(head, pattern, 0)) by {
            if stands_at(head, pattern, 0) {
                assert(head.subrange(0, pattern.len() as int)[0] == head[0]);
            }
        }
        assert(!stands_at(text, pattern, 0)) by {
            assert(text.subrange(0, pattern.len() as int)[0] == head[0]);
        }
        assert(text.drop_first() =~= tail + pattern + rest);
        assert(seq![head[0]] + tail =~= head);
        assert(seq![head[0]] + (tail + seq![new] + replaced(rest, pattern, new)) =~= head + seq![
            new,
        ] + replaced(rest, pattern, new));
    }
}

/// The first digits of a numeral count most: each one behind them makes them ten times as
/// much.
pub proof fn law_digits_have_their_places(front: Seq<char>, d: nat)
    requires
        d < 10,
    ensures
        digits_value(front.push(digit(d))) == 10 * digits_value(front) + d,
        digits_value(seq![digit(d)]) == d,
        digit(d) as int == '0' as int + d,
{
    assert(front.push(digit(d)).drop_last() =~= front);
    assert(seq![digit(d)].drop_last() =~= Seq::empty());
    assert(digits_value(seq![digit(d)].drop_last()) == 0);
}

/// No numeral but that of zero begins with a zero, and two numbers never share one.
pub proof fn law_numerals_are_plain(n: nat, m: nat)
    ensures
        decimal(n)[0] == '0' <==> n == 0,
        decimal(n) == decimal(m) ==> n == m,
        hex(n) == hex(m) ==> n == m,
    decreases n,
{
    lemma_decimal_is_digits(n);
    lemma_decimal_is_digits(m);
    lemma_hex_reads_back(n);
    lemma_hex_reads_back(m);
    if n >= 10 {
        law_numerals_are_plain(n / 10, m);
        lemma_decimal_is_digits(n / 10);
        assert(decimal(n)[0] == decimal(n / 10)[0]);
    }
}

/// A padded text has its width, ends with the text, and is `fill` before it.
pub proof fn law_padding_fills_the_front(text: Seq<char>, width: nat, fill: char)
    ensures
        padded(text, width, fill).len() == if text.len() < width {
            width
        } else {
            text.len()
        },
        padded(text, width, fill).skip(padded(text, width, fill).len() - text.len()) == text,
        forall|i: int|
            0 <= i < padded(text, width, fill).len() - text.len() ==> (#[trigger] padded(
                text,
                width,
                fill,
            )[i]) == fill,
{
    assert(padded(text, width, fill).skip(padded(text, width, fill).len() - text.len()) =~= text);
}

/// The case of a letter is changed and nothing else: the small letter has the same place
/// in the alphabet as its capital, and whatever is no letter of that case stays.
pub proof fn law_case_keeps_the_letter(text: Seq<char>, i: int)
    requires
        0 <= i < text.len(),
    ensures
        lowered(text).len() == text.len(),
        uppered(text).len() == text.len(),
        'A' <= text[i] <= 'Z' ==> lowered(text)[i] as int - 'a' as int == text[i] as int
            - 'A' as int,
        'a' <= text[i] <= 'z' ==> uppered(text)[i] as int - 'A' as int == text[i] as int
            - 'a' as int,
        !('A' <= text[i] <= 'Z') ==> lowered(text)[i] == text[i],
        !('a' <= text[i] <= 'z') ==> uppered(text)[i] == text[i],
        lowered(lowered(text)) == lowered(text),
        lowered(uppered(text)) == lowered(text),
{
    assert forall|k: int| 0 <= k < text.len() implies #[trigger] lowered(lowered(text))[k]
        == lowered(text)[k] && lowered(uppered(text))[k] == lowered(text)[k] by {}
    assert(lowered(lowered(text)) =~= lowered(text));
    assert(lowered(uppered(text)) =~= lowered(text));
}

/// The first difference decides which text comes first, and a text comes before whatever
/// goes on behind it.
pub proof fn law_the_first_difference_decides(
    front: Seq<char>,
    a: char,
    b: char,
    rest_a: Seq<char>,
    rest_b: Seq<char>,
)
    requires
        a < b,
    ensures
        text_before(front + seq![a] + rest_a, front + seq![b] + rest_b),
        !text_before(front + seq![b] + rest_b, front + seq![a] + rest_a),
        text_before(front, front + seq![a] + rest_a),
    decreases front.len(),
{
    let left = front + seq![a] + rest_a;
    let right = front + seq![b] + rest_b;
    if front.len() > 0 {
        let tail = front.drop_first();
        law_the_first_difference_decides(tail, a, b, rest_a, rest_b);
        assert(left.drop_first() =~= tail + seq![a] + rest_a);
        assert(right.drop_first() =~= tail + seq![b] + rest_b);
    } else {
        assert(left[0] == a);
        assert(right[0] == b);
    }
}

/// Every pattern in front is dropped, and what does not begin with one stays.
pub proof fn law_leading_patterns_go(pattern: Seq<char>, text: Seq<char>)
    requires
        pattern.len() > 0,
    ensures
        without_leading(pattern + text, pattern) == without_leading(text, pattern),
        !stands_at(text, pattern, 0) ==> without_leading(text, pattern) == text,
{
    assert((pattern + text).subrange(0, pattern.len() as int) =~= pattern);
    assert((pattern + text).skip(pattern.len() as int) =~= text);
}

/// A number written with its sign.
pub open spec fn signed(n: int) -> Seq<char> {
    if n < 0 {
        seq!['-'] + decimal((-n) as nat)
    } else {
        decimal(n as nat)
    }
}

/// A number reads back from its numeral, whatever its sign, and neither end of the numeral
/// is white space.
pub proof fn law_signed_numbers_read_back(n: int, max: nat)
    requires
        -max - 1 <= n <= max,
    ensures
        parsed_int(signed(n), max) == Some(n),
        bare(signed(n)),
        signed(n).len() > 0,
        forall|c: char| #![auto] !is_digit(c) && c != '-' ==> !signed(n).contains(c),
{
    let text = signed(n);
    if n < 0 {
        let digits = decimal((-n) as nat);
        lemma_decimal_is_digits((-n) as nat);
        assert(text.drop_first() =~= digits);
        assert(is_digit(digits[digits.len() - 1]));
        assert forall|c: char| #![auto] !is_digit(c) && c != '-' implies !text.contains(c) by {
            if text.contains(c) {
                let i = choose|i: int| 0 <= i < text.len() && text[i] == c;
                assert(i > 0);
                assert(is_digit(digits[i - 1]));
            }
        }
    } else {
        lemma_decimal_is_digits(n as nat);
        assert(is_digit(text[0]));
        assert(is_digit(text[text.len() - 1]));
        assert forall|c: char| #![auto] !is_digit(c) && c != '-' implies !text.contains(c) by {
            if text.contains(c) {
                let i = choose|i: int| 0 <= i < text.len() && text[i] == c;
                assert(is_digit(text[i]));
            }
        }
    }
}

/// Words with one space between any two of them, none of which holds a space.
pub open spec fn spaced(line: Seq<char>, words: Seq<Seq<char>>) -> bool {
    &&& words.len() > 0
    &&& forall|i: int| 0 <= i < words.len() ==> !(#[trigger] words[i]).contains(' ')
    &&& line == joined(words, seq![' '])
}

/// One word is a line of its own.
pub proof fn lemma_the_first_word(word: Seq<char>)
    requires
        !word.contains(' '),
    ensures
        spaced(word, seq![word]),
{
}

/// A space, a key and its value are one more word of a line.
pub proof fn lemma_word_added(
    line: Seq<char>,
    words: Seq<Seq<char>>,
    lead: Seq<char>,
    key: Seq<char>,
    value: Seq<char>,
)
    requires
        spaced(line, words),
        lead == seq![' '] + key,
        !key.contains(' '),
        !value.contains(' '),
    ensures
        spaced(line + lead + value, words.push(key + value)),
{
    let more = words.push(key + value);
    lemma_neither_holds(key, value, ' ');
    assert(more.drop_last() =~= words);
    assert(line + lead + value =~= line + seq![' '] + (key + value));
    assert forall|i: int| 0 <= i < more.len() implies !(#[trigger] more[i]).contains(' ') by {
        if i < words.len() {
            assert(!words[i].contains(' '));
        }
    }
}

/// The words of a line are read back between its spaces.
pub proof fn lemma_words_read_back(line: Seq<char>, words: Seq<Seq<char>>)
    requires
        spaced(line, words),
    ensures
        split(line, ' ') == words,
{
    lemma_split_undoes_joining(words, ' ');
}

/// Numerals in capitals hold digits only, padded or not, with or without their prefix.
pub proof fn lemma_upper_numerals_hold_digits(n: nat, width: nat, c: char)
    requires
        hex_digit(c) is None,
        c != 'x',
    ensures
        !upper_hex(n).contains(c),
        !padded(upper_hex(n), width, '0').contains(c),
        !prefixed_hex(n, width, true).contains(c),
        !prefixed_hex(n, width, false).contains(c),
    decreases n,
{
    let text = upper_hex(n);
    if n < 16 {
        assert(text[0] != c);
    } else {
        lemma_upper_numerals_hold_digits(n / 16, width, c);
        let front = upper_hex(n / 16);
        if text.contains(c) {
            let i = choose|i: int| 0 <= i < text.len() && text[i] == c;
            if i < front.len() {
                assert(front.contains(front[i]));
            }
        }
    }
    let wide = padded(text, width, '0');
    if wide.contains(c) {
        let i = choose|i: int| 0 <= i < wide.len() && wide[i] == c;
        assert(text.contains(text[i - (wide.len() - text.len())]));
    }
    lemma_numerals_hold_digits(n, width, c);
    lemma_neither_holds(seq!['0', 'x'], wide, c);
    lemma_neither_holds(seq!['0', 'x'], padded(hex(n), width, '0'), c);
}

/// A digit stands for its number in either case, and what is no digit for none.
pub proof fn law_digits_stand_for_their_numbers(d: nat)
    requires
        d < 16,
    ensures
        hex_digit(digit(d)) == Some(d),
        hex_digit(upper_digit(d)) == Some(d),
        hex_digit('g') is None && hex_digit('G') is None && hex_digit('x') is None,
        d < 10 ==> is_digit(digit(d)),
        upper(digit(d)) == upper_digit(d),
{
}

/// White space is what stands between words and lines; no letter, digit or mark of ASCII
/// is.
pub proof fn law_what_white_space_is(c: char)
    ensures
        is_space(' ') && is_space('\t') && is_space('\n') && is_space('\r'),
        '!' <= c <= '~' ==> !is_space(c),
        c < '\t' ==> !is_space(c),
{
}

} // verus!
