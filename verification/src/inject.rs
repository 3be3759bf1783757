//! Scheduled input: what `--inject-keys` and `--inject-mouse` ask for.
//!
//! A schedule is a list of steps, each with the guest cycle it fires at. Offsets
//! strictly increase within each flag, so that one build replays the same event at
//! the same cycle every time.

use vstd::prelude::*;

use crate::keyboard::ascii_to_set1;
#[allow(unused_imports)]
use crate::keyboard::{break_of, set1_codes};
use crate::text::{
    chars_of, cut, cut_once, decimal_text, find, lower_chars, read_i32, read_nat, replace_chars,
    same_text, split_chars, text_of, trim_chars,
};
#[allow(unused_imports)]
use crate::text::{
    decimal, find_from, lowered, parsed_int, parsed_nat, replaced, split, split_once, stands_at,
    trimmed, views,
};

verus! {

// ---------------------------------------------------------------------------
// Key text
// ---------------------------------------------------------------------------

/// What is wrong with a key text.
#[derive(Debug, PartialEq, Eq)]
pub enum KeyTextError {
    /// A `{` without its `}`.
    Unclosed,
    /// A name between braces that is no key's, in small letters.
    UnknownKey(String),
    /// A character without a key.
    NoScancode(char),
}

/// What is wrong with a key text, as contracts speak of it.
pub enum KeyTextFault {
    Unclosed,
    UnknownKey(Seq<char>),
    NoScancode(char),
}

impl View for KeyTextError {
    type V = KeyTextFault;

    open spec fn view(&self) -> KeyTextFault {
        match self {
            KeyTextError::Unclosed => KeyTextFault::Unclosed,
            KeyTextError::UnknownKey(name) => KeyTextFault::UnknownKey(name@),
            KeyTextError::NoScancode(ch) => KeyTextFault::NoScancode(*ch),
        }
    }
}

/// The message about a text that cannot be typed. `quoted` is the text, or the
/// character without a key, in quotation marks.
pub open spec fn key_text_message(fault: KeyTextFault, quoted: Seq<char>) -> Seq<char> {
    match fault {
        KeyTextFault::Unclosed => "--inject-keys has an unclosed { in "@ + quoted,
        KeyTextFault::UnknownKey(name) => "--inject-keys: unknown key {"@ + name + "}"@,
        KeyTextFault::NoScancode(_) => "--inject-keys: no scancode for "@ + quoted,
    }
}

impl KeyTextError {
    /// The message about a text that cannot be typed. `quoted` is the text, or the
    /// character without a key, in quotation marks.
    pub fn message(&self, quoted: &str) -> (message: String)
        ensures
            message@ == key_text_message(self@, quoted@),
    {
        match self {
            KeyTextError::Unclosed => {
                let mut message: String = "--inject-keys has an unclosed { in ".to_owned();
                message.append(quoted);
                message
            },
            KeyTextError::UnknownKey(name) => {
                let mut message: String = "--inject-keys: unknown key {".to_owned();
                message.append(name.as_str());
                message.append("}");
                message
            },
            KeyTextError::NoScancode(_) => {
                let mut message: String = "--inject-keys: no scancode for ".to_owned();
                message.append(quoted);
                message
            },
        }
    }
}

/// Which half of a key's press and release a name between braces stands for.
#[derive(Clone, Copy, Debug, PartialEq, Eq, Structural)]
pub enum KeyEdge {
    /// Down and up.
    Tap,
    /// Down, and held.
    Press,
    /// Up.
    Release,
}

/// The make code of a key without a character of its own, by its name.
pub open spec fn named_make(name: Seq<char>) -> Option<u8> {
    if name == "shift"@ {
        Some(0x2au8)
    } else if name == "ctrl"@ {
        Some(0x1d)
    } else if name == "alt"@ {
        Some(0x38)
    } else if name == "esc"@ {
        Some(0x01)
    } else if name == "space"@ {
        Some(0x39)
    } else if name == "enter"@ {
        Some(0x1c)
    } else if name == "up"@ {
        Some(0x48)
    } else if name == "down"@ {
        Some(0x50)
    } else if name == "left"@ {
        Some(0x4b)
    } else if name == "right"@ {
        Some(0x4d)
    } else if name == "tab"@ {
        Some(0x0f)
    } else if name == "f1"@ {
        Some(0x3b)
    } else if name == "f2"@ {
        Some(0x3c)
    } else if name == "f3"@ {
        Some(0x3d)
    } else if name == "f4"@ {
        Some(0x3e)
    } else if name == "f5"@ {
        Some(0x3f)
    } else if name == "f6"@ {
        Some(0x40)
    } else if name == "f7"@ {
        Some(0x41)
    } else if name == "f8"@ {
        Some(0x42)
    } else if name == "f9"@ {
        Some(0x43)
    } else if name == "f10"@ {
        Some(0x44)
    } else if name == "f11"@ {
        Some(0x57)
    } else if name == "f12"@ {
        Some(0x58)
    } else {
        None
    }
}

/// The make code of a named key.
fn make_of_name(name: &str) -> (make: Option<u8>)
    ensures
        make == named_make(name@),
        make matches Some(m) ==> m < 0x80,
{
    if same_text(name, "shift") {
        Some(0x2a)
    } else if same_text(name, "ctrl") {
        Some(0x1d)
    } else if same_text(name, "alt") {
        Some(0x38)
    } else if same_text(name, "esc") {
        Some(0x01)
    } else if same_text(name, "space") {
        Some(0x39)
    } else if same_text(name, "enter") {
        Some(0x1c)
    } else if same_text(name, "up") {
        Some(0x48)
    } else if same_text(name, "down") {
        Some(0x50)
    } else if same_text(name, "left") {
        Some(0x4b)
    } else if same_text(name, "right") {
        Some(0x4d)
    } else if same_text(name, "tab") {
        Some(0x0f)
    } else if same_text(name, "f1") {
        Some(0x3b)
    } else if same_text(name, "f2") {
        Some(0x3c)
    } else if same_text(name, "f3") {
        Some(0x3d)
    } else if same_text(name, "f4") {
        Some(0x3e)
    } else if same_text(name, "f5") {
        Some(0x3f)
    } else if same_text(name, "f6") {
        Some(0x40)
    } else if same_text(name, "f7") {
        Some(0x41)
    } else if same_text(name, "f8") {
        Some(0x42)
    } else if same_text(name, "f9") {
        Some(0x43)
    } else if same_text(name, "f10") {
        Some(0x44)
    } else if same_text(name, "f11") {
        Some(0x57)
    } else if same_text(name, "f12") {
        Some(0x58)
    } else {
        None
    }
}

/// The key and edge that stand between braces: a `+` in front presses, a `-`
/// releases, and a bare name taps.
pub open spec fn name_and_edge(inner: Seq<char>) -> (Seq<char>, KeyEdge) {
    if inner.len() > 0 && inner[0] == '+' {
        (inner.drop_first(), KeyEdge::Press)
    } else if inner.len() > 0 && inner[0] == '-' {
        (inner.drop_first(), KeyEdge::Release)
    } else {
        (inner, KeyEdge::Tap)
    }
}

/// The codes of one edge of a key.
pub open spec fn edge_codes(make: u8, edge: KeyEdge) -> Seq<u8> {
    match edge {
        KeyEdge::Tap => seq![make, break_of(make)],
        KeyEdge::Press => seq![make],
        KeyEdge::Release => seq![break_of(make)],
    }
}

/// The first token of a key text, which is not empty: its codes, and how many
/// characters it takes.
pub open spec fn first_group(text: Seq<char>) -> Result<(Seq<u8>, nat), KeyTextFault> {
    if text[0] == '{' {
        match find_from(text, seq!['}'], 1) {
            None => Err(KeyTextFault::Unclosed),
            Some(close) => {
                let (name, edge) = name_and_edge(text.subrange(1, close as int));
                match named_make(lowered(name)) {
                    None => Err(KeyTextFault::UnknownKey(lowered(name))),
                    Some(make) => Ok((edge_codes(make, edge), close + 1)),
                }
            },
        }
    } else if set1_codes(text[0]).len() == 0 {
        Err(KeyTextFault::NoScancode(text[0]))
    } else {
        Ok((set1_codes(text[0]), 1))
    }
}

/// The scancode groups of a key text, one for each key: `{name}` for a key without
/// a character, any other character by its own key. The first fault is reported.
pub open spec fn key_groups(text: Seq<char>) -> Result<Seq<Seq<u8>>, KeyTextFault>
    decreases text.len(),
{
    if text.len() == 0 {
        Ok(Seq::empty())
    } else {
        match first_group(text) {
            Err(fault) => Err(fault),
            Ok((codes, taken)) => if 0 < taken <= text.len() {
                match key_groups(text.skip(taken as int)) {
                    Err(fault) => Err(fault),
                    Ok(rest) => Ok(seq![codes] + rest),
                }
            } else {
                Ok(Seq::empty())
            },
        }
    }
}

/// What byte groups hold.
pub open spec fn byte_groups(groups: Seq<Vec<u8>>) -> Seq<Seq<u8>> {
    groups.map_values(|g: Vec<u8>| g@)
}

/// The first token of the text from `at` on.
fn read_group(chars: &Vec<char>, at: usize) -> (group: Result<(Vec<u8>, usize), KeyTextError>)
    requires
        at < chars@.len(),
    ensures
        match group {
            Ok(g) => first_group(chars@.skip(at as int)) == Ok::<(Seq<u8>, nat), KeyTextFault>(
                (g.0@, g.1 as nat),
            ) && 0 < g.1 && at + g.1 <= chars@.len(),
            Err(e) => first_group(chars@.skip(at as int)) == Err::<(Seq<u8>, nat), KeyTextFault>(
                e@,
            ),
        },
{
    let ghost text = chars@.skip(at as int);
    if chars[at] == '{' {
        let rest: Vec<char> = cut(chars, at, chars.len());
        assert(rest@ =~= text);
        let brace: Vec<char> = vec!['}'];
        assert(brace@ =~= seq!['}']);
        match find(&rest, &brace, 1) {
            None => Err(KeyTextError::Unclosed),
            Some(close) => {
                let inner: Vec<char> = cut(&rest, 1, close);
                let (edge, from): (KeyEdge, usize) = if inner.len() > 0 && inner[0] == '+' {
                    (KeyEdge::Press, 1)
                } else if inner.len() > 0 && inner[0] == '-' {
                    (KeyEdge::Release, 1)
                } else {
                    (KeyEdge::Tap, 0)
                };
                let name: Vec<char> = lower_chars(&cut(&inner, from, inner.len()));
                proof {
                    if from == 1 {
                        assert(inner@.subrange(1, inner@.len() as int) =~= inner@.drop_first());
                    } else {
                        assert(inner@.subrange(0, inner@.len() as int) =~= inner@);
                    }
                }
                let name_text: String = text_of(&name);
                match make_of_name(name_text.as_str()) {
                    None => Err(KeyTextError::UnknownKey(name_text)),
                    Some(make) => {
                        let codes: Vec<u8> = match edge {
                            KeyEdge::Tap => vec![make, make + 0x80],
                            KeyEdge::Press => vec![make],
                            KeyEdge::Release => vec![make + 0x80],
                        };
                        assert(codes@ =~= edge_codes(make, edge));
                        Ok((codes, close + 1))
                    },
                }
            },
        }
    } else {
        let codes: Vec<u8> = ascii_to_set1(chars[at]);
        if codes.len() == 0 {
            Err(KeyTextError::NoScancode(chars[at]))
        } else {
            Ok((codes, 1))
        }
    }
}

/// The scancode groups of a key text, one for each key.
pub fn text_to_scancode_groups(text: &str) -> (groups: Result<Vec<Vec<u8>>, KeyTextError>)
    ensures
        match groups {
            Ok(groups) => key_groups(text@) == Ok::<Seq<Seq<u8>>, KeyTextFault>(
                byte_groups(groups@),
            ),
            Err(e) => key_groups(text@) == Err::<Seq<Seq<u8>>, KeyTextFault>(e@),
        },
{
    let chars: Vec<char> = chars_of(text);
    let mut groups: Vec<Vec<u8>> = Vec::new();
    let mut at: usize = 0;
    let ghost whole = key_groups(text@);
    assert(chars@.skip(0) =~= text@);
    assert(prefixed(byte_groups(groups@), key_groups(chars@.skip(0))) == whole) by {
        assert(byte_groups(groups@) =~= Seq::empty());
        lemma_prefixed_by_nothing(whole);
    }
    while at < chars.len()
        invariant
            at <= chars@.len(),
            chars@ == text@,
            whole == key_groups(text@),
            prefixed(byte_groups(groups@), key_groups(chars@.skip(at as int))) == whole,
        decreases chars@.len() - at,
    {
        match read_group(&chars, at) {
            Err(e) => {
                return Err(e);
            },
            Ok((codes, taken)) => {
                proof {
                    let rest = chars@.skip(at as int);
                    assert(rest.skip(taken as int) =~= chars@.skip(at + taken));
                    assert(byte_groups(groups@.push(codes)) =~= byte_groups(groups@).push(codes@));
                    match key_groups(chars@.skip(at + taken)) {
                        Ok(more) => {
                            assert(byte_groups(groups@) + (seq![codes@] + more) =~= byte_groups(
                                groups@,
                            ).push(codes@) + more);
                        },
                        Err(_) => {},
                    }
                }
                groups.push(codes);
                at = at + taken;
            },
        }
    }
    proof {
        assert(chars@.skip(at as int) =~= Seq::empty());
        assert(byte_groups(groups@) + Seq::<Seq<u8>>::empty() =~= byte_groups(groups@));
    }
    Ok(groups)
}

/// `groups` with `front` before them, where there are any.
pub open spec fn prefixed(
    front: Seq<Seq<u8>>,
    groups: Result<Seq<Seq<u8>>, KeyTextFault>,
) -> Result<Seq<Seq<u8>>, KeyTextFault> {
    match groups {
        Ok(rest) => Ok(front + rest),
        Err(fault) => Err(fault),
    }
}

/// Nothing in front changes nothing.
proof fn lemma_prefixed_by_nothing(groups: Result<Seq<Seq<u8>>, KeyTextFault>)
    ensures
        prefixed(Seq::empty(), groups) == groups,
{
    if let Ok(rest) = groups {
        assert(Seq::<Seq<u8>>::empty() + rest =~= rest);
    }
}

/// A place found in a text is found there whatever follows the text.
proof fn lemma_find_in_front(text: Seq<char>, more: Seq<char>, pattern: Seq<char>, from: nat)
    requires
        find_from(text, pattern, from) is Some,
    ensures
        find_from(text + more, pattern, from) == find_from(text, pattern, from),
    decreases text.len() - from,
{
    let both = text + more;
    assert(both.subrange(from as int, from as int + pattern.len()) =~= text.subrange(
        from as int,
        from as int + pattern.len(),
    ));
    if !stands_at(text, pattern, from as int) {
        lemma_find_in_front(text, more, pattern, from + 1);
    }
}

/// The first token of a text stays the first whatever follows.
proof fn lemma_first_group_in_front(text: Seq<char>, more: Seq<char>)
    requires
        text.len() > 0,
        first_group(text) is Ok,
    ensures
        first_group(text + more) == first_group(text),
        0 < first_group(text)->Ok_0.1 <= text.len(),
{
    if text[0] == '{' {
        lemma_find_in_front(text, more, seq!['}'], 1);
        lemma_found_inside(text, seq!['}'], 1);
        let close = find_from(text, seq!['}'], 1)->0;
        assert((text + more).subrange(1, close as int) =~= text.subrange(1, close as int));
    }
}

/// A place that was found lies inside the text.
proof fn lemma_found_inside(text: Seq<char>, pattern: Seq<char>, from: nat)
    ensures
        find_from(text, pattern, from) matches Some(at) ==> from <= at && at + pattern.len()
            <= text.len(),
    decreases text.len() - from,
{
    if from + pattern.len() <= text.len() && !stands_at(text, pattern, from as int) && from
        < text.len() {
        lemma_found_inside(text, pattern, from + 1);
    }
}

/// Typing one text and then another is typing both at once: a text that reads on
/// its own gives its groups first, and what follows gives its own behind them.
pub proof fn law_key_text_concatenates(text: Seq<char>, more: Seq<char>)
    requires
        key_groups(text) is Ok,
    ensures
        key_groups(text + more) == prefixed(key_groups(text)->Ok_0, key_groups(more)),
    decreases text.len(),
{
    if text.len() == 0 {
        assert(text + more =~= more);
        lemma_prefixed_by_nothing(key_groups(more));
    } else {
        lemma_first_group_in_front(text, more);
        let (codes, taken) = first_group(text)->Ok_0;
        let rest = text.skip(taken as int);
        law_key_text_concatenates(rest, more);
        assert((text + more).skip(taken as int) =~= rest + more);
        if let Ok(behind) = key_groups(more) {
            assert(seq![codes] + (key_groups(rest)->Ok_0 + behind) =~= (seq![codes] + key_groups(
                rest,
            )->Ok_0) + behind);
        }
    }
}

/// Pressing a key and releasing it sends what tapping it sends.
pub proof fn law_press_and_release_is_a_tap(make: u8)
    ensures
        edge_codes(make, KeyEdge::Press) + edge_codes(make, KeyEdge::Release) == edge_codes(
            make,
            KeyEdge::Tap,
        ),
{
    assert(edge_codes(make, KeyEdge::Press) + edge_codes(make, KeyEdge::Release) =~= edge_codes(
        make,
        KeyEdge::Tap,
    ));
}

// ---------------------------------------------------------------------------
// Schedules
// ---------------------------------------------------------------------------

/// What a mouse step does, in the mouse's own counts.
#[derive(Clone, Copy, Debug, PartialEq, Eq, Structural)]
pub enum MouseAction {
    /// Drive the pointer into the corner.
    Home,
    /// Move by so many counts, down being positive.
    Move { dx: i32, dy: i32 },
    /// Press (1) or release (0) the left button.
    Button(u8),
    /// Press and release.
    Click,
}

/// What a step injects.
#[derive(Debug, PartialEq, Eq)]
pub enum InjectionEvent {
    /// A key text.
    Keys(String),
    /// A mouse action.
    Mouse(MouseAction),
}

/// One step of a schedule: fired once the run has spent `at_cycles` guest cycles.
#[derive(Debug, PartialEq, Eq)]
pub struct Injection {
    pub at_cycles: u64,
    pub event: InjectionEvent,
}

/// What a step injects, as contracts speak of it.
pub enum EventView {
    Keys(Seq<char>),
    Mouse(MouseAction),
}

/// A step, as contracts speak of it.
pub struct StepView {
    pub at_cycles: u64,
    pub event: EventView,
}

impl View for Injection {
    type V = StepView;

    open spec fn view(&self) -> StepView {
        StepView {
            at_cycles: self.at_cycles,
            event: match self.event {
                InjectionEvent::Keys(text) => EventView::Keys(text@),
                InjectionEvent::Mouse(action) => EventView::Mouse(action),
            },
        }
    }
}

/// What the steps of a schedule are.
pub open spec fn step_views(steps: Seq<Injection>) -> Seq<StepView> {
    steps.map_values(|step: Injection| step@)
}

/// What is wrong with a schedule.
#[derive(Debug, PartialEq, Eq)]
pub enum ScheduleError {
    /// A step that is not an offset, a colon and a payload.
    NotAStep(String),
    /// An offset that is not a number.
    BadOffset(String),
    /// An offset that does not lie behind the one before it.
    NotIncreasing { at_cycles: u64, previous: u64 },
    /// A mouse action that is not known.
    UnknownAction(String),
    /// A move without two parts.
    MoveNeedsTwo(String),
    /// A part of a move that is not a number.
    BadDelta(String),
}

/// What is wrong with a schedule, as contracts speak of it.
pub enum ScheduleFault {
    NotAStep(Seq<char>),
    BadOffset(Seq<char>),
    NotIncreasing { at_cycles: u64, previous: u64 },
    UnknownAction(Seq<char>),
    MoveNeedsTwo(Seq<char>),
    BadDelta(Seq<char>),
}

impl View for ScheduleError {
    type V = ScheduleFault;

    open spec fn view(&self) -> ScheduleFault {
        match self {
            ScheduleError::NotAStep(raw) => ScheduleFault::NotAStep(raw@),
            ScheduleError::BadOffset(raw) => ScheduleFault::BadOffset(raw@),
            ScheduleError::NotIncreasing { at_cycles, previous } => ScheduleFault::NotIncreasing {
                at_cycles: *at_cycles,
                previous: *previous,
            },
            ScheduleError::UnknownAction(raw) => ScheduleFault::UnknownAction(raw@),
            ScheduleError::MoveNeedsTwo(raw) => ScheduleFault::MoveNeedsTwo(raw@),
            ScheduleError::BadDelta(raw) => ScheduleFault::BadDelta(raw@),
        }
    }
}

/// The message about the schedule of a flag. `words` is the part that is wrong, in
/// quotation marks; of a number that does not read it is why.
pub open spec fn schedule_message(
    fault: ScheduleFault,
    flag: Seq<char>,
    words: Seq<char>,
) -> Seq<char> {
    match fault {
        ScheduleFault::NotAStep(_) => flag + " step "@ + words + " is not <cycles>:<payload>"@,
        ScheduleFault::BadOffset(_) => words,
        ScheduleFault::NotIncreasing { at_cycles, previous } => flag
            + " offsets must strictly increase; "@ + decimal(at_cycles as nat)
            + " does not follow "@ + decimal(previous as nat),
        ScheduleFault::UnknownAction(_) => flag + ": unknown action "@ + words
            + " (want home, move:<dx>,<dy>, down, up or click)"@,
        ScheduleFault::MoveNeedsTwo(_) => flag + ": move needs <dx>,<dy>, got "@ + words,
        ScheduleFault::BadDelta(_) => words,
    }
}

impl ScheduleError {
    /// The message about the schedule of a flag. `words` is the part that is wrong, in
    /// quotation marks; of a number that does not read it is why.
    pub fn message(&self, flag: &str, words: &str) -> (message: String)
        ensures
            message@ == schedule_message(self@, flag@, words@),
    {
        let mut message: String = flag.to_owned();
        match self {
            ScheduleError::NotAStep(_) => {
                message.append(" step ");
                message.append(words);
                message.append(" is not <cycles>:<payload>");
            },
            ScheduleError::NotIncreasing { at_cycles, previous } => {
                message.append(" offsets must strictly increase; ");
                message.append(decimal_text(*at_cycles).as_str());
                message.append(" does not follow ");
                message.append(decimal_text(*previous).as_str());
            },
            ScheduleError::UnknownAction(_) => {
                message.append(": unknown action ");
                message.append(words);
                message.append(" (want home, move:<dx>,<dy>, down, up or click)");
            },
            ScheduleError::MoveNeedsTwo(_) => {
                message.append(": move needs <dx>,<dy>, got ");
                message.append(words);
            },
            ScheduleError::BadOffset(_) => {
                return words.to_owned();
            },
            ScheduleError::BadDelta(_) => {
                return words.to_owned();
            },
        }
        message
    }
}

/// One part of a schedule: its offset and payload. `previous` is the offset before.
pub open spec fn read_step(part: Seq<char>, previous: Option<u64>) -> Result<
    (u64, Seq<char>),
    ScheduleFault,
> {
    match split_once(part, seq![':']) {
        None => Err(ScheduleFault::NotAStep(part)),
        Some((offset, payload)) => match parsed_nat(trimmed(offset), u64::MAX as nat) {
            None => Err(ScheduleFault::BadOffset(trimmed(offset))),
            Some(at) => match previous {
                Some(last) if at <= last => Err(
                    ScheduleFault::NotIncreasing { at_cycles: at as u64, previous: last },
                ),
                _ => Ok((at as u64, payload)),
            },
        },
    }
}

/// The steps of a schedule's parts, blank parts aside. The first fault is reported.
pub open spec fn read_steps(parts: Seq<Seq<char>>, previous: Option<u64>) -> Result<
    Seq<(u64, Seq<char>)>,
    ScheduleFault,
>
    decreases parts.len(),
{
    if parts.len() == 0 {
        Ok(Seq::empty())
    } else if trimmed(parts[0]).len() == 0 {
        read_steps(parts.drop_first(), previous)
    } else {
        match read_step(parts[0], previous) {
            Err(fault) => Err(fault),
            Ok((at, payload)) => match read_steps(parts.drop_first(), Some(at)) {
                Err(fault) => Err(fault),
                Ok(rest) => Ok(seq![(at, payload)] + rest),
            },
        }
    }
}

/// What a list of offsets and payloads holds.
pub open spec fn raw_steps(steps: Seq<(u64, Vec<char>)>) -> Seq<(u64, Seq<char>)> {
    steps.map_values(|step: (u64, Vec<char>)| (step.0, step.1@))
}

/// `steps` with `front` before them, where there are any.
pub open spec fn steps_behind<T>(
    front: Seq<T>,
    steps: Result<Seq<T>, ScheduleFault>,
) -> Result<Seq<T>, ScheduleFault> {
    match steps {
        Ok(rest) => Ok(front + rest),
        Err(fault) => Err(fault),
    }
}

/// The offset and payload of one part.
fn parse_step(part: &Vec<char>, previous: Option<u64>) -> (step: Result<
    (u64, Vec<char>),
    ScheduleError,
>)
    ensures
        match step {
            Ok(s) => read_step(part@, previous) == Ok::<(u64, Seq<char>), ScheduleFault>(
                (s.0, s.1@),
            ),
            Err(e) => read_step(part@, previous) == Err::<(u64, Seq<char>), ScheduleFault>(e@),
        },
{
    let colon: Vec<char> = vec![':'];
    assert(colon@ =~= seq![':']);
    match cut_once(part, &colon) {
        None => Err(ScheduleError::NotAStep(text_of(part))),
        Some((offset, payload)) => {
            let offset: Vec<char> = trim_chars(&offset);
            match read_nat(&offset, u64::MAX) {
                None => Err(ScheduleError::BadOffset(text_of(&offset))),
                Some(at) => match previous {
                    Some(last) => if at <= last {
                        Err(ScheduleError::NotIncreasing { at_cycles: at, previous: last })
                    } else {
                        Ok((at, payload))
                    },
                    None => Ok((at, payload)),
                },
            }
        },
    }
}

/// The steps of a schedule as offsets and payloads.
pub fn parse_injection_steps(spec: &str) -> (steps: Result<Vec<(u64, Vec<char>)>, ScheduleError>)
    ensures
        match steps {
            Ok(steps) => read_steps(split(spec@, ';'), None) == Ok::<
                Seq<(u64, Seq<char>)>,
                ScheduleFault,
            >(raw_steps(steps@)),
            Err(e) => read_steps(split(spec@, ';'), None) == Err::<
                Seq<(u64, Seq<char>)>,
                ScheduleFault,
            >(e@),
        },
{
    let chars: Vec<char> = chars_of(spec);
    let parts: Vec<Vec<char>> = split_chars(&chars, ';');
    let ghost whole = read_steps(views(parts@), None);
    let mut steps: Vec<(u64, Vec<char>)> = Vec::new();
    let mut previous: Option<u64> = None;
    let mut i: usize = 0;
    proof {
        assert(views(parts@).skip(0) =~= views(parts@));
        assert(raw_steps(steps@) =~= Seq::empty());
        if let Ok(rest) = whole {
            assert(Seq::<(u64, Seq<char>)>::empty() + rest =~= rest);
        }
    }
    while i < parts.len()
        invariant
            i <= parts@.len(),
            views(parts@) == split(spec@, ';'),
            whole == read_steps(views(parts@), None),
            steps_behind(raw_steps(steps@), read_steps(views(parts@).skip(i as int), previous))
                == whole,
        decreases parts@.len() - i,
    {
        proof {
            assert(views(parts@).skip(i as int).drop_first() =~= views(parts@).skip(i + 1));
            assert(views(parts@).skip(i as int)[0] == parts@[i as int]@);
        }
        if trim_chars(&parts[i]).len() != 0 {
            match parse_step(&parts[i], previous) {
                Err(e) => {
                    return Err(e);
                },
                Ok((at, payload)) => {
                    proof {
                        assert(raw_steps(steps@.push((at, payload))) =~= raw_steps(steps@).push(
                            (at, payload@),
                        ));
                        if let Ok(rest) = read_steps(views(parts@).skip(i + 1), Some(at)) {
                            assert(raw_steps(steps@) + (seq![(at, payload@)] + rest) =~= raw_steps(
                                steps@,
                            ).push((at, payload@)) + rest);
                        }
                    }
                    previous = Some(at);
                    steps.push((at, payload));
                },
            }
        }
        i = i + 1;
    }
    proof {
        assert(views(parts@).skip(i as int) =~= Seq::empty());
        assert(raw_steps(steps@) + Seq::<(u64, Seq<char>)>::empty() =~= raw_steps(steps@));
    }
    Ok(steps)
}

/// Offsets that strictly increase.
pub open spec fn increasing(steps: Seq<(u64, Seq<char>)>) -> bool {
    forall|i: int, j: int| 0 <= i < j < steps.len() ==> (#[trigger] steps[i]).0 < (
    #[trigger] steps[j]).0
}

/// A schedule that reads at all has offsets that strictly increase: the same build
/// replays the same event at the same guest cycle.
pub proof fn law_offsets_strictly_increase(parts: Seq<Seq<char>>, previous: Option<u64>)
    ensures
        read_steps(parts, previous) matches Ok(steps) ==> increasing(steps) && (previous matches Some(
            last,
        ) ==> forall|i: int| 0 <= i < steps.len() ==> last < (#[trigger] steps[i]).0),
    decreases parts.len(),
{
    if parts.len() > 0 {
        if trimmed(parts[0]).len() == 0 {
            law_offsets_strictly_increase(parts.drop_first(), previous);
        } else if let Ok((at, payload)) = read_step(parts[0], previous) {
            law_offsets_strictly_increase(parts.drop_first(), Some(at));
            if let Ok(rest) = read_steps(parts.drop_first(), Some(at)) {
                let steps = seq![(at, payload)] + rest;
                assert(steps[0] == (at, payload));
                assert(forall|i: int| 1 <= i < steps.len() ==> steps[i] == rest[i - 1]);
            }
        }
    }
}

// ---------------------------------------------------------------------------
// Keys
// ---------------------------------------------------------------------------

/// A payload with `\r` and `\n` written out as the characters they stand for.
pub open spec fn unescaped(payload: Seq<char>) -> Seq<char> {
    replaced(replaced(payload, seq!['\\', 'r'], '\r'), seq!['\\', 'n'], '\n')
}

/// The key steps of a schedule.
pub open spec fn key_schedule(spec: Seq<char>) -> Result<Seq<StepView>, ScheduleFault> {
    match read_steps(split(spec, ';'), None) {
        Err(fault) => Err(fault),
        Ok(steps) => Ok(
            steps.map_values(
                |step: (u64, Seq<char>)|
                    StepView { at_cycles: step.0, event: EventView::Keys(unescaped(step.1)) },
            ),
        ),
    }
}

/// The steps of `--inject-keys`: `cycles:text`, with `;` between them.
pub fn parse_key_injections(spec: &str) -> (steps: Result<Vec<Injection>, ScheduleError>)
    ensures
        match steps {
            Ok(steps) => key_schedule(spec@) == Ok::<Seq<StepView>, ScheduleFault>(
                step_views(steps@),
            ),
            Err(e) => key_schedule(spec@) == Err::<Seq<StepView>, ScheduleFault>(e@),
        },
{
    let raw: Vec<(u64, Vec<char>)> = match parse_injection_steps(spec) {
        Ok(raw) => raw,
        Err(e) => return Err(e),
    };
    let cr: Vec<char> = vec!['\\', 'r'];
    let lf: Vec<char> = vec!['\\', 'n'];
    assert(cr@ =~= seq!['\\', 'r']);
    assert(lf@ =~= seq!['\\', 'n']);
    let mut steps: Vec<Injection> = Vec::new();
    let mut i: usize = 0;
    while i < raw.len()
        invariant
            i <= raw@.len(),
            steps@.len() == i,
            cr@ == seq!['\\', 'r'],
            lf@ == seq!['\\', 'n'],
            forall|k: int|
                0 <= k < i ==> (#[trigger] steps@[k])@ == (StepView {
                    at_cycles: raw@[k].0,
                    event: EventView::Keys(unescaped(raw@[k].1@)),
                }),
        decreases raw@.len() - i,
    {
        let text: Vec<char> = replace_chars(&replace_chars(&raw[i].1, &cr, '\r'), &lf, '\n');
        steps.push(Injection { at_cycles: raw[i].0, event: InjectionEvent::Keys(text_of(&text)) });
        i = i + 1;
    }
    assert(step_views(steps@) =~= key_schedule(spec@)->Ok_0);
    Ok(steps)
}

// ---------------------------------------------------------------------------
// Mouse
// ---------------------------------------------------------------------------

/// The mouse action that a payload names.
pub open spec fn mouse_action(payload: Seq<char>) -> Result<MouseAction, ScheduleFault> {
    let action = trimmed(payload);
    if action == "home"@ {
        Ok(MouseAction::Home)
    } else if action == "down"@ {
        Ok(MouseAction::Button(1))
    } else if action == "up"@ {
        Ok(MouseAction::Button(0))
    } else if action == "click"@ {
        Ok(MouseAction::Click)
    } else if !stands_at(action, "move:"@, 0) {
        Err(ScheduleFault::UnknownAction(action))
    } else {
        let deltas = action.skip("move:"@.len() as int);
        match split_once(deltas, seq![',']) {
            None => Err(ScheduleFault::MoveNeedsTwo(deltas)),
            Some((dx, dy)) => match parsed_int(trimmed(dx), i32::MAX as nat) {
                None => Err(ScheduleFault::BadDelta(trimmed(dx))),
                Some(x) => match parsed_int(trimmed(dy), i32::MAX as nat) {
                    None => Err(ScheduleFault::BadDelta(trimmed(dy))),
                    Some(y) => Ok(MouseAction::Move { dx: x as i32, dy: y as i32 }),
                },
            },
        }
    }
}

/// The mouse action that a payload names.
fn read_action(payload: &Vec<char>) -> (action: Result<MouseAction, ScheduleError>)
    ensures
        match action {
            Ok(a) => mouse_action(payload@) == Ok::<MouseAction, ScheduleFault>(a),
            Err(e) => mouse_action(payload@) == Err::<MouseAction, ScheduleFault>(e@),
        },
{
    let action: Vec<char> = trim_chars(payload);
    let name: String = text_of(&action);
    if same_text(name.as_str(), "home") {
        return Ok(MouseAction::Home);
    }
    if same_text(name.as_str(), "down") {
        return Ok(MouseAction::Button(1));
    }
    if same_text(name.as_str(), "up") {
        return Ok(MouseAction::Button(0));
    }
    if same_text(name.as_str(), "click") {
        return Ok(MouseAction::Click);
    }
    let prefix: Vec<char> = chars_of("move:");
    if prefix.len() > action.len() || !crate::text::stands(&action, &prefix, 0) {
        return Err(ScheduleError::UnknownAction(name));
    }
    let deltas: Vec<char> = cut(&action, prefix.len(), action.len());
    assert(deltas@ =~= action@.skip(prefix@.len() as int));
    let comma: Vec<char> = vec![','];
    assert(comma@ =~= seq![',']);
    match cut_once(&deltas, &comma) {
        None => Err(ScheduleError::MoveNeedsTwo(text_of(&deltas))),
        Some((dx, dy)) => {
            let dx: Vec<char> = trim_chars(&dx);
            let dy: Vec<char> = trim_chars(&dy);
            match read_i32(&dx) {
                None => Err(ScheduleError::BadDelta(text_of(&dx))),
                Some(x) => match read_i32(&dy) {
                    None => Err(ScheduleError::BadDelta(text_of(&dy))),
                    Some(y) => Ok(MouseAction::Move { dx: x, dy: y }),
                },
            }
        },
    }
}

/// The mouse steps of raw steps. The first fault is reported.
pub open spec fn mouse_steps(steps: Seq<(u64, Seq<char>)>) -> Result<Seq<StepView>, ScheduleFault>
    decreases steps.len(),
{
    if steps.len() == 0 {
        Ok(Seq::empty())
    } else {
        match mouse_action(steps[0].1) {
            Err(fault) => Err(fault),
            Ok(action) => match mouse_steps(steps.drop_first()) {
                Err(fault) => Err(fault),
                Ok(rest) => Ok(
                    seq![StepView { at_cycles: steps[0].0, event: EventView::Mouse(action) }]
                        + rest,
                ),
            },
        }
    }
}

/// The mouse steps of a schedule.
pub open spec fn mouse_schedule(spec: Seq<char>) -> Result<Seq<StepView>, ScheduleFault> {
    match read_steps(split(spec, ';'), None) {
        Err(fault) => Err(fault),
        Ok(steps) => mouse_steps(steps),
    }
}

/// The steps of `--inject-mouse`: `cycles:action`, with `;` between them.
pub fn parse_mouse_injections(spec: &str) -> (steps: Result<Vec<Injection>, ScheduleError>)
    ensures
        match steps {
            Ok(steps) => mouse_schedule(spec@) == Ok::<Seq<StepView>, ScheduleFault>(
                step_views(steps@),
            ),
            Err(e) => mouse_schedule(spec@) == Err::<Seq<StepView>, ScheduleFault>(e@),
        },
{
    let raw: Vec<(u64, Vec<char>)> = match parse_injection_steps(spec) {
        Ok(raw) => raw,
        Err(e) => return Err(e),
    };
    let ghost list = raw_steps(raw@);
    let ghost whole = mouse_steps(list);
    let mut steps: Vec<Injection> = Vec::new();
    let mut i: usize = 0;
    proof {
        assert(list.skip(0) =~= list);
        assert(step_views(steps@) =~= Seq::empty());
        if let Ok(rest) = whole {
            assert(Seq::<StepView>::empty() + rest =~= rest);
        }
    }
    while i < raw.len()
        invariant
            i <= raw@.len(),
            list == raw_steps(raw@),
            whole == mouse_steps(list),
            whole == mouse_schedule(spec@),
            steps_behind(step_views(steps@), mouse_steps(list.skip(i as int))) == whole,
        decreases raw@.len() - i,
    {
        proof {
            assert(list.skip(i as int).drop_first() =~= list.skip(i + 1));
            assert(list.skip(i as int)[0] == list[i as int]);
        }
        match read_action(&raw[i].1) {
            Err(e) => {
                return Err(e);
            },
            Ok(action) => {
                let step: Injection = Injection {
                    at_cycles: raw[i].0,
                    event: InjectionEvent::Mouse(action),
                };
                proof {
                    assert(step_views(steps@.push(step)) =~= step_views(steps@).push(step@));
                    if let Ok(rest) = mouse_steps(list.skip(i + 1)) {
                        assert(step_views(steps@) + (seq![step@] + rest) =~= step_views(
                            steps@,
                        ).push(step@) + rest);
                    }
                }
                steps.push(step);
            },
        }
        i = i + 1;
    }
    proof {
        assert(list.skip(i as int) =~= Seq::empty());
        assert(step_views(steps@) + Seq::<StepView>::empty() =~= step_views(steps@));
    }
    Ok(steps)
}

// ---------------------------------------------------------------------------
// Both flags together
// ---------------------------------------------------------------------------

/// Two schedules as one, ordered by offset; at one offset the first schedule's
/// step comes first.
pub open spec fn merged(first: Seq<StepView>, second: Seq<StepView>) -> Seq<StepView>
    decreases first.len() + second.len(),
{
    if first.len() == 0 {
        second
    } else if second.len() == 0 {
        first
    } else if first[0].at_cycles <= second[0].at_cycles {
        seq![first[0]] + merged(first.drop_first(), second)
    } else {
        seq![second[0]] + merged(first, second.drop_first())
    }
}

/// The schedule of an optional flag: no steps where the flag was not given.
pub open spec fn optional_keys(spec: Option<Seq<char>>) -> Result<Seq<StepView>, ScheduleFault> {
    match spec {
        Some(spec) => key_schedule(spec),
        None => Ok(Seq::empty()),
    }
}

/// The schedule of an optional flag: no steps where the flag was not given.
pub open spec fn optional_mouse(spec: Option<Seq<char>>) -> Result<Seq<StepView>, ScheduleFault> {
    match spec {
        Some(spec) => mouse_schedule(spec),
        None => Ok(Seq::empty()),
    }
}

/// The schedule of both flags. A fault of the keys is reported before one of the
/// mouse.
pub open spec fn merged_schedule(keys: Option<Seq<char>>, mouse: Option<Seq<char>>) -> Result<
    Seq<StepView>,
    ScheduleFault,
> {
    match optional_keys(keys) {
        Err(fault) => Err(fault),
        Ok(first) => match optional_mouse(mouse) {
            Err(fault) => Err(fault),
            Ok(second) => Ok(merged(first, second)),
        },
    }
}

/// What an optional text is.
pub open spec fn opt_view(text: Option<&str>) -> Option<Seq<char>> {
    match text {
        Some(text) => Some(text@),
        None => None,
    }
}

impl Injection {
    /// The same step again.
    pub fn copy(&self) -> (step: Injection)
        ensures
            step@ == self@,
    {
        Injection {
            at_cycles: self.at_cycles,
            event: match &self.event {
                InjectionEvent::Keys(text) => InjectionEvent::Keys(text.clone()),
                InjectionEvent::Mouse(action) => InjectionEvent::Mouse(*action),
            },
        }
    }
}

/// Two schedules as one, ordered by offset.
fn merge(first: &Vec<Injection>, second: &Vec<Injection>) -> (steps: Vec<Injection>)
    ensures
        step_views(steps@) == merged(step_views(first@), step_views(second@)),
{
    let ghost a = step_views(first@);
    let ghost b = step_views(second@);
    let mut steps: Vec<Injection> = Vec::new();
    let mut i: usize = 0;
    let mut j: usize = 0;
    proof {
        assert(a.skip(0) =~= a);
        assert(b.skip(0) =~= b);
        assert(step_views(steps@) =~= Seq::empty());
        assert(Seq::<StepView>::empty() + merged(a, b) =~= merged(a, b));
    }
    while i < first.len() || j < second.len()
        invariant
            i <= first@.len(),
            j <= second@.len(),
            a == step_views(first@),
            b == step_views(second@),
            step_views(steps@) + merged(a.skip(i as int), b.skip(j as int)) == merged(a, b),
        decreases first@.len() - i + second@.len() - j,
    {
        let ghost front = step_views(steps@);
        let ghost rest_a = a.skip(i as int);
        let ghost rest_b = b.skip(j as int);
        proof {
            if i < first@.len() {
                assert(rest_a.drop_first() =~= a.skip(i + 1));
                assert(rest_a[0] == a[i as int]);
                assert(rest_a =~= seq![rest_a[0]] + a.skip(i + 1));
            }
            if j < second@.len() {
                assert(rest_b.drop_first() =~= b.skip(j + 1));
                assert(rest_b[0] == b[j as int]);
                assert(rest_b =~= seq![rest_b[0]] + b.skip(j + 1));
            }
        }
        if j == second.len() || (i < first.len() && first[i].at_cycles <= second[j].at_cycles) {
            let step: Injection = first[i].copy();
            proof {
                assert(step_views(steps@.push(step)) =~= front.push(step@));
                assert(merged(rest_a, rest_b) == seq![step@] + merged(a.skip(i + 1), rest_b)) by {
                    if rest_b.len() == 0 {
                        assert(merged(a.skip(i + 1), rest_b) =~= a.skip(i + 1));
                    }
                }
                assert(front + (seq![step@] + merged(a.skip(i + 1), rest_b)) =~= front.push(step@)
                    + merged(a.skip(i + 1), rest_b));
            }
            steps.push(step);
            i = i + 1;
        } else {
            let step: Injection = second[j].copy();
            proof {
                assert(step_views(steps@.push(step)) =~= front.push(step@));
                assert(merged(rest_a, rest_b) == seq![step@] + merged(rest_a, b.skip(j + 1))) by {
                    if rest_a.len() == 0 {
                        assert(merged(rest_a, b.skip(j + 1)) =~= b.skip(j + 1));
                    }
                }
                assert(front + (seq![step@] + merged(rest_a, b.skip(j + 1))) =~= front.push(step@)
                    + merged(rest_a, b.skip(j + 1)));
            }
            steps.push(step);
            j = j + 1;
        }
    }
    proof {
        assert(a.skip(i as int) =~= Seq::empty());
        assert(b.skip(j as int) =~= Seq::empty());
        assert(step_views(steps@) + Seq::<StepView>::empty() =~= step_views(steps@));
    }
    steps
}

/// The schedule of both flags, ordered by offset; at one offset the key comes first.
pub fn merged_injections(inject_keys: Option<&str>, inject_mouse: Option<&str>) -> (steps: Result<
    Vec<Injection>,
    ScheduleError,
>)
    ensures
        match steps {
            Ok(steps) => merged_schedule(opt_view(inject_keys), opt_view(inject_mouse)) == Ok::<
                Seq<StepView>,
                ScheduleFault,
            >(step_views(steps@)),
            Err(e) => merged_schedule(opt_view(inject_keys), opt_view(inject_mouse)) == Err::<
                Seq<StepView>,
                ScheduleFault,
            >(e@),
        },
{
    let keys: Vec<Injection> = match inject_keys {
        Some(spec) => match parse_key_injections(spec) {
            Ok(steps) => steps,
            Err(e) => return Err(e),
        },
        None => Vec::new(),
    };
    let mouse: Vec<Injection> = match inject_mouse {
        Some(spec) => match parse_mouse_injections(spec) {
            Ok(steps) => steps,
            Err(e) => return Err(e),
        },
        None => Vec::new(),
    };
    proof {
        if inject_keys is None {
            assert(step_views(keys@) =~= Seq::empty());
        }
        if inject_mouse is None {
            assert(step_views(mouse@) =~= Seq::empty());
        }
    }
    Ok(merge(&keys, &mouse))
}

/// A schedule whose offsets never go back.
pub open spec fn ordered(steps: Seq<StepView>) -> bool {
    forall|i: int, j: int| 0 <= i <= j < steps.len() ==> (#[trigger] steps[i]).at_cycles <= (
    #[trigger] steps[j]).at_cycles
}

/// Offsets are kept by what becomes of the payloads.
proof fn lemma_mouse_steps_offsets(steps: Seq<(u64, Seq<char>)>)
    ensures
        mouse_steps(steps) matches Ok(out) ==> out.len() == steps.len() && forall|i: int|
            0 <= i < out.len() ==> (#[trigger] out[i]).at_cycles == steps[i].0 && out[i].event is Mouse,
    decreases steps.len(),
{
    if steps.len() > 0 {
        lemma_mouse_steps_offsets(steps.drop_first());
        if let Ok(rest) = mouse_steps(steps.drop_first()) {
            if let Ok(action) = mouse_action(steps[0].1) {
                let head = StepView { at_cycles: steps[0].0, event: EventView::Mouse(action) };
                let out = seq![head] + rest;
                assert(out[0] == head);
                assert(forall|i: int| 1 <= i < out.len() ==> out[i] == rest[i - 1]);
            }
        }
    }
}

/// Merging keeps every step's lower bound.
proof fn lemma_merged_bound(first: Seq<StepView>, second: Seq<StepView>, bound: u64)
    requires
        forall|i: int| 0 <= i < first.len() ==> bound <= (#[trigger] first[i]).at_cycles,
        forall|i: int| 0 <= i < second.len() ==> bound <= (#[trigger] second[i]).at_cycles,
    ensures
        forall|i: int|
            0 <= i < merged(first, second).len() ==> bound <= (#[trigger] merged(
                first,
                second,
            )[i]).at_cycles,
    decreases first.len() + second.len(),
{
    if first.len() > 0 && second.len() > 0 {
        if first[0].at_cycles <= second[0].at_cycles {
            let rest = first.drop_first();
            assert(forall|i: int| 0 <= i < rest.len() ==> rest[i] == first[i + 1]);
            lemma_merged_bound(rest, second, bound);
            assert(forall|i: int|
                1 <= i < merged(first, second).len() ==> merged(first, second)[i] == merged(
                    rest,
                    second,
                )[i - 1]);
        } else {
            let rest = second.drop_first();
            assert(forall|i: int| 0 <= i < rest.len() ==> rest[i] == second[i + 1]);
            lemma_merged_bound(first, rest, bound);
            assert(forall|i: int|
                1 <= i < merged(first, second).len() ==> merged(first, second)[i] == merged(
                    first,
                    rest,
                )[i - 1]);
        }
    }
}

/// Two ordered schedules make an ordered one: an event never fires before one
/// that was scheduled earlier.
pub proof fn law_merged_is_ordered(first: Seq<StepView>, second: Seq<StepView>)
    requires
        ordered(first),
        ordered(second),
    ensures
        ordered(merged(first, second)),
    decreases first.len() + second.len(),
{
    if first.len() > 0 && second.len() > 0 {
        let all = merged(first, second);
        if first[0].at_cycles <= second[0].at_cycles {
            let rest = first.drop_first();
            assert forall|i: int, j: int| 0 <= i <= j < rest.len() implies (#[trigger] rest[i]).at_cycles
                <= (#[trigger] rest[j]).at_cycles by {
                assert(first[i + 1].at_cycles <= first[j + 1].at_cycles);
            }
            law_merged_is_ordered(rest, second);
            assert forall|i: int| 0 <= i < rest.len() implies first[0].at_cycles <= (
            #[trigger] rest[i]).at_cycles by {
                assert(first[0].at_cycles <= first[i + 1].at_cycles);
            }
            assert forall|i: int| 0 <= i < second.len() implies first[0].at_cycles <= (
            #[trigger] second[i]).at_cycles by {
                assert(second[0].at_cycles <= second[i].at_cycles);
            }
            lemma_merged_bound(rest, second, first[0].at_cycles);
            let tail = merged(rest, second);
            assert(all =~= seq![first[0]] + tail);
            assert(forall|i: int| 1 <= i < all.len() ==> all[i] == tail[i - 1]);
        } else {
            let rest = second.drop_first();
            assert forall|i: int, j: int| 0 <= i <= j < rest.len() implies (#[trigger] rest[i]).at_cycles
                <= (#[trigger] rest[j]).at_cycles by {
                assert(second[i + 1].at_cycles <= second[j + 1].at_cycles);
            }
            law_merged_is_ordered(first, rest);
            assert forall|i: int| 0 <= i < rest.len() implies second[0].at_cycles <= (
            #[trigger] rest[i]).at_cycles by {
                assert(second[0].at_cycles <= second[i + 1].at_cycles);
            }
            assert forall|i: int| 0 <= i < first.len() implies second[0].at_cycles <= (
            #[trigger] first[i]).at_cycles by {
                assert(first[0].at_cycles <= first[i].at_cycles);
            }
            lemma_merged_bound(first, rest, second[0].at_cycles);
            let tail = merged(first, rest);
            assert(all =~= seq![second[0]] + tail);
            assert(forall|i: int| 1 <= i < all.len() ==> all[i] == tail[i - 1]);
        }
    }
}

/// Whatever the two flags hold, the schedule that comes of them is ordered.
pub proof fn law_schedules_are_ordered(keys: Option<Seq<char>>, mouse: Option<Seq<char>>)
    ensures
        merged_schedule(keys, mouse) matches Ok(steps) ==> ordered(steps),
{
    if let Ok(first) = optional_keys(keys) {
        if let Ok(second) = optional_mouse(mouse) {
            if let Some(spec) = keys {
                law_offsets_strictly_increase(split(spec, ';'), None);
                let raw = read_steps(split(spec, ';'), None)->Ok_0;
                assert(forall|i: int| 0 <= i < first.len() ==> (#[trigger] first[i]).at_cycles
                    == raw[i].0);
            }
            if let Some(spec) = mouse {
                law_offsets_strictly_increase(split(spec, ';'), None);
                lemma_mouse_steps_offsets(read_steps(split(spec, ';'), None)->Ok_0);
            }
            law_merged_is_ordered(first, second);
        }
    }
}

/// Merging drops nothing and adds nothing.
pub proof fn law_merged_keeps_every_step(first: Seq<StepView>, second: Seq<StepView>)
    ensures
        merged(first, second).to_multiset() == first.to_multiset().add(second.to_multiset()),
        merged(first, second).len() == first.len() + second.len(),
    decreases first.len() + second.len(),
{
    broadcast use vstd::seq_lib::group_to_multiset_ensures;

    if first.len() == 0 {
        assert(first.to_multiset() =~= vstd::multiset::Multiset::empty());
        assert(first.to_multiset().add(second.to_multiset()) =~= second.to_multiset());
    } else if second.len() == 0 {
        assert(second.to_multiset() =~= vstd::multiset::Multiset::empty());
        assert(first.to_multiset().add(second.to_multiset()) =~= first.to_multiset());
    } else if first[0].at_cycles <= second[0].at_cycles {
        law_merged_keeps_every_step(first.drop_first(), second);
        lemma_head_counted(first[0], merged(first.drop_first(), second));
        lemma_head_counted(first[0], first.drop_first());
        assert(first =~= seq![first[0]] + first.drop_first());
        assert(merged(first, second).to_multiset() =~= first.to_multiset().add(
            second.to_multiset(),
        ));
    } else {
        law_merged_keeps_every_step(first, second.drop_first());
        lemma_head_counted(second[0], merged(first, second.drop_first()));
        lemma_head_counted(second[0], second.drop_first());
        assert(second =~= seq![second[0]] + second.drop_first());
        assert(merged(first, second).to_multiset() =~= first.to_multiset().add(
            second.to_multiset(),
        ));
    }
}

/// Steps of the keyboard.
pub open spec fn all_keys(steps: Seq<StepView>) -> bool {
    forall|i: int| 0 <= i < steps.len() ==> (#[trigger] steps[i]).event is Keys
}

/// Steps of the mouse.
pub open spec fn all_mouse(steps: Seq<StepView>) -> bool {
    forall|i: int| 0 <= i < steps.len() ==> (#[trigger] steps[i]).event is Mouse
}

/// The steps of the keyboard in a schedule, in their order.
pub open spec fn keys_of(steps: Seq<StepView>) -> Seq<StepView> {
    steps.filter(|step: StepView| step.event is Keys)
}

/// The steps of the mouse in a schedule, in their order.
pub open spec fn mouse_of(steps: Seq<StepView>) -> Seq<StepView> {
    steps.filter(|step: StepView| step.event is Mouse)
}

/// What a step in front adds to the steps of either kind.
proof fn lemma_head_of_kind(step: StepView, rest: Seq<StepView>)
    ensures
        keys_of(seq![step] + rest) == if step.event is Keys {
            seq![step] + keys_of(rest)
        } else {
            keys_of(rest)
        },
        mouse_of(seq![step] + rest) == if step.event is Mouse {
            seq![step] + mouse_of(rest)
        } else {
            mouse_of(rest)
        },
{
    let key = |s: StepView| s.event is Keys;
    let mouse = |s: StepView| s.event is Mouse;
    Seq::filter_distributes_over_add(seq![step], rest, key);
    Seq::filter_distributes_over_add(seq![step], rest, mouse);
    reveal_with_fuel(Seq::filter, 2);
    assert(seq![step].drop_last() =~= Seq::empty());
    assert(seq![step].filter(key) =~= if key(step) {
        seq![step]
    } else {
        Seq::empty()
    });
    assert(seq![step].filter(mouse) =~= if mouse(step) {
        seq![step]
    } else {
        Seq::empty()
    });
    assert(Seq::<StepView>::empty() + keys_of(rest) =~= keys_of(rest));
    assert(Seq::<StepView>::empty() + mouse_of(rest) =~= mouse_of(rest));
}

/// Steps of one kind are all of that kind and none of the other.
proof fn lemma_one_kind(steps: Seq<StepView>)
    ensures
        all_keys(steps) ==> keys_of(steps) == steps && mouse_of(steps) == Seq::<StepView>::empty(),
        all_mouse(steps) ==> mouse_of(steps) == steps && keys_of(steps) == Seq::<StepView>::empty(),
    decreases steps.len(),
{
    reveal_with_fuel(Seq::filter, 1);
    if steps.len() > 0 {
        let rest = steps.drop_first();
        assert(steps =~= seq![steps[0]] + rest);
        assert(forall|i: int| 0 <= i < rest.len() ==> rest[i] == steps[i + 1]);
        lemma_one_kind(rest);
        lemma_head_of_kind(steps[0], rest);
    }
}

/// Merging keeps each schedule's own order: the key steps of the result are the one
/// schedule, the mouse steps the other.
pub proof fn law_merged_keeps_each_order(first: Seq<StepView>, second: Seq<StepView>)
    requires
        all_keys(first),
        all_mouse(second),
    ensures
        keys_of(merged(first, second)) == first,
        mouse_of(merged(first, second)) == second,
    decreases first.len() + second.len(),
{
    if first.len() == 0 {
        lemma_one_kind(second);
        assert(first =~= Seq::empty());
        assert(merged(first, second) == second);
    } else if second.len() == 0 {
        lemma_one_kind(first);
        assert(second =~= Seq::empty());
        assert(merged(first, second) == first);
    } else if first[0].at_cycles <= second[0].at_cycles {
        let rest = first.drop_first();
        assert(all_keys(rest)) by {
            assert(forall|i: int| 0 <= i < rest.len() ==> rest[i] == first[i + 1]);
        }
        law_merged_keeps_each_order(rest, second);
        lemma_head_of_kind(first[0], merged(rest, second));
        assert(merged(first, second) == seq![first[0]] + merged(rest, second));
        assert(first =~= seq![first[0]] + rest);
    } else {
        let rest = second.drop_first();
        assert(all_mouse(rest)) by {
            assert(forall|i: int| 0 <= i < rest.len() ==> rest[i] == second[i + 1]);
        }
        law_merged_keeps_each_order(first, rest);
        lemma_head_of_kind(second[0], merged(first, rest));
        assert(merged(first, second) == seq![second[0]] + merged(first, rest));
        assert(second =~= seq![second[0]] + rest);
    }
}

/// Whether no key step stands behind a mouse step of the same offset.
pub open spec fn keys_before_mouse(steps: Seq<StepView>) -> bool {
    forall|i: int, j: int|
        0 <= i < j < steps.len() && (#[trigger] steps[i]).event is Mouse && (
        #[trigger] steps[j]).event is Keys ==> steps[i].at_cycles < steps[j].at_cycles
}

/// Merging keeps the lower bound of the key steps.
proof fn lemma_merged_keys_bound(first: Seq<StepView>, second: Seq<StepView>, bound: u64)
    requires
        all_mouse(second),
        forall|i: int| 0 <= i < first.len() ==> bound <= (#[trigger] first[i]).at_cycles,
    ensures
        forall|i: int|
            0 <= i < merged(first, second).len() && (#[trigger] merged(
                first,
                second,
            )[i]).event is Keys ==> bound <= merged(first, second)[i].at_cycles,
    decreases first.len() + second.len(),
{
    if first.len() > 0 && second.len() > 0 {
        let all = merged(first, second);
        if first[0].at_cycles <= second[0].at_cycles {
            let rest = first.drop_first();
            assert(forall|i: int| 0 <= i < rest.len() ==> rest[i] == first[i + 1]);
            lemma_merged_keys_bound(rest, second, bound);
            let tail = merged(rest, second);
            assert(all =~= seq![first[0]] + tail);
            assert(forall|i: int| 1 <= i < all.len() ==> all[i] == tail[i - 1]);
        } else {
            let rest = second.drop_first();
            assert(forall|i: int| 0 <= i < rest.len() ==> rest[i] == second[i + 1]);
            lemma_merged_keys_bound(first, rest, bound);
            let tail = merged(first, rest);
            assert(all =~= seq![second[0]] + tail);
            assert(forall|i: int| 1 <= i < all.len() ==> all[i] == tail[i - 1]);
        }
    }
}

/// At one offset the keys come before the mouse.
pub proof fn law_keys_come_first_at_one_offset(first: Seq<StepView>, second: Seq<StepView>)
    requires
        all_keys(first),
        all_mouse(second),
        ordered(first),
    ensures
        keys_before_mouse(merged(first, second)),
    decreases first.len() + second.len(),
{
    if first.len() > 0 && second.len() > 0 {
        let all = merged(first, second);
        if first[0].at_cycles <= second[0].at_cycles {
            let rest = first.drop_first();
            assert(forall|i: int| 0 <= i < rest.len() ==> rest[i] == first[i + 1]);
            law_keys_come_first_at_one_offset(rest, second);
            let tail = merged(rest, second);
            assert(all =~= seq![first[0]] + tail);
            assert(forall|i: int| 1 <= i < all.len() ==> all[i] == tail[i - 1]);
        } else {
            let rest = second.drop_first();
            assert(forall|i: int| 0 <= i < rest.len() ==> rest[i] == second[i + 1]);
            law_keys_come_first_at_one_offset(first, rest);
            assert forall|i: int| 0 <= i < first.len() implies first[0].at_cycles <= (
            #[trigger] first[i]).at_cycles by {
                assert(first[0].at_cycles <= first[i].at_cycles);
            }
            lemma_merged_keys_bound(first, rest, first[0].at_cycles);
            let tail = merged(first, rest);
            assert(all =~= seq![second[0]] + tail);
            assert(forall|i: int| 1 <= i < all.len() ==> all[i] == tail[i - 1]);
        }
    }
}

/// Whatever the two flags hold, the schedule that comes of them is the keys' steps in
/// their order and the mouse's in theirs, and at one offset the keys come first.
pub proof fn law_a_schedule_keeps_both_flags(keys: Option<Seq<char>>, mouse: Option<Seq<char>>)
    ensures
        merged_schedule(keys, mouse) matches Ok(steps) ==> {
            &&& optional_keys(keys) == Ok::<Seq<StepView>, ScheduleFault>(keys_of(steps))
            &&& optional_mouse(mouse) == Ok::<Seq<StepView>, ScheduleFault>(mouse_of(steps))
            &&& keys_before_mouse(steps)
        },
{
    if let Ok(first) = optional_keys(keys) {
        if let Ok(second) = optional_mouse(mouse) {
            if let Some(spec) = keys {
                law_offsets_strictly_increase(split(spec, ';'), None);
                let raw = read_steps(split(spec, ';'), None)->Ok_0;
                assert(forall|i: int| 0 <= i < first.len() ==> (#[trigger] first[i]).at_cycles
                    == raw[i].0);
            }
            if let Some(spec) = mouse {
                lemma_mouse_steps_offsets(read_steps(split(spec, ';'), None)->Ok_0);
            }
            law_merged_keeps_each_order(first, second);
            law_keys_come_first_at_one_offset(first, second);
        }
    }
}

/// A list with one step more in front holds that step once more.
proof fn lemma_head_counted(step: StepView, rest: Seq<StepView>)
    ensures
        (seq![step] + rest).to_multiset() == rest.to_multiset().insert(step),
{
    vstd::seq_lib::lemma_multiset_commutative(seq![step], rest);
    broadcast use vstd::seq_lib::group_to_multiset_ensures;

    assert(seq![step] =~= Seq::empty().push(step));
    assert(Seq::<StepView>::empty().to_multiset() =~= vstd::multiset::Multiset::empty());
    assert((seq![step] + rest).to_multiset() =~= rest.to_multiset().insert(step));
}

// ---------------------------------------------------------------------------
// Reading back
// ---------------------------------------------------------------------------

/// The make code of a key of the keypad, by its digit: the keypad counts up from the
/// lowest row, and its codes run from the highest.
pub open spec fn keypad_make(d: int) -> int {
    if d >= 7 {
        0x47 + (d - 7)
    } else if d >= 4 {
        0x4b + (d - 4)
    } else {
        0x4f + (d - 1)
    }
}

/// The names of keys: those with a character of their own send that character's key, the
/// arrows send the keypad's, and Shift is the key that is held over capitals.
pub proof fn law_names_stand_for_their_keys()
    ensures
        Some((named_make("space"@)->0, false)) == crate::keyboard::key_of(' '),
        Some((named_make("enter"@)->0, false)) == crate::keyboard::key_of('\r'),
        Some((named_make("tab"@)->0, false)) == crate::keyboard::key_of('\t'),
        Some((named_make("esc"@)->0, false)) == crate::keyboard::key_of('\x1b'),
        named_make("shift"@) == Some(crate::keyboard::SHIFT_MAKE),
        named_make("up"@)->0 == keypad_make(8),
        named_make("left"@)->0 == keypad_make(4),
        named_make("right"@)->0 == keypad_make(6),
        named_make("down"@)->0 == keypad_make(2),
        named_make("ctrl"@)->0 + 1 == (crate::keyboard::key_of('a')->0).0,
        named_make("alt"@)->0 + 1 == named_make("space"@)->0,
{
    reveal_strlit("shift");
    reveal_strlit("ctrl");
    reveal_strlit("alt");
    reveal_strlit("esc");
    reveal_strlit("space");
    reveal_strlit("enter");
    reveal_strlit("up");
    reveal_strlit("down");
    reveal_strlit("left");
    reveal_strlit("right");
    reveal_strlit("tab");
    reveal_strlit("f1");
    reveal_strlit("f2");
    reveal_strlit("f3");
    reveal_strlit("f4");
    reveal_strlit("f5");
    reveal_strlit("f6");
    reveal_strlit("f7");
    reveal_strlit("f8");
    reveal_strlit("f9");
    reveal_strlit("f10");
    reveal_strlit("f11");
    reveal_strlit("f12");
    assert("shift"@ =~= seq!['s', 'h', 'i', 'f', 't']);
    assert("ctrl"@ =~= seq!['c', 't', 'r', 'l']);
    assert("alt"@ =~= seq!['a', 'l', 't']);
    assert("esc"@ =~= seq!['e', 's', 'c']);
    assert("space"@ =~= seq!['s', 'p', 'a', 'c', 'e']);
    assert("enter"@ =~= seq!['e', 'n', 't', 'e', 'r']);
    assert("up"@ =~= seq!['u', 'p']);
    assert("down"@ =~= seq!['d', 'o', 'w', 'n']);
    assert("left"@ =~= seq!['l', 'e', 'f', 't']);
    assert("right"@ =~= seq!['r', 'i', 'g', 'h', 't']);
    assert("tab"@ =~= seq!['t', 'a', 'b']);
    assert("f1"@ =~= seq!['f', '1']);
    assert("f2"@ =~= seq!['f', '2']);
    assert("f3"@ =~= seq!['f', '3']);
    assert("f4"@ =~= seq!['f', '4']);
    assert("f5"@ =~= seq!['f', '5']);
    assert("f6"@ =~= seq!['f', '6']);
    assert("f7"@ =~= seq!['f', '7']);
    assert("f8"@ =~= seq!['f', '8']);
    assert("f9"@ =~= seq!['f', '9']);
    assert("f10"@ =~= seq!['f', '1', '0']);
    assert("f11"@ =~= seq!['f', '1', '1']);
    assert("f12"@ =~= seq!['f', '1', '2']);
}

/// The function keys: the first ten have one code after the other, and the last two came
/// later and stand elsewhere.
pub proof fn law_function_keys_count_up(n: nat)
    requires
        1 <= n <= 12,
    ensures
        named_make(seq!['f'] + decimal(n)) == Some(
            (if n <= 10 {
                0x3a + n
            } else {
                0x4c + n
            }) as u8,
        ),
{
    reveal_strlit("shift");
    reveal_strlit("ctrl");
    reveal_strlit("alt");
    reveal_strlit("esc");
    reveal_strlit("space");
    reveal_strlit("enter");
    reveal_strlit("up");
    reveal_strlit("down");
    reveal_strlit("left");
    reveal_strlit("right");
    reveal_strlit("tab");
    reveal_strlit("f1");
    reveal_strlit("f2");
    reveal_strlit("f3");
    reveal_strlit("f4");
    reveal_strlit("f5");
    reveal_strlit("f6");
    reveal_strlit("f7");
    reveal_strlit("f8");
    reveal_strlit("f9");
    reveal_strlit("f10");
    reveal_strlit("f11");
    reveal_strlit("f12");
    assert("shift"@ =~= seq!['s', 'h', 'i', 'f', 't']);
    assert("ctrl"@ =~= seq!['c', 't', 'r', 'l']);
    assert("alt"@ =~= seq!['a', 'l', 't']);
    assert("esc"@ =~= seq!['e', 's', 'c']);
    assert("space"@ =~= seq!['s', 'p', 'a', 'c', 'e']);
    assert("enter"@ =~= seq!['e', 'n', 't', 'e', 'r']);
    assert("up"@ =~= seq!['u', 'p']);
    assert("down"@ =~= seq!['d', 'o', 'w', 'n']);
    assert("left"@ =~= seq!['l', 'e', 'f', 't']);
    assert("right"@ =~= seq!['r', 'i', 'g', 'h', 't']);
    assert("tab"@ =~= seq!['t', 'a', 'b']);
    assert("f1"@ =~= seq!['f', '1']);
    assert("f2"@ =~= seq!['f', '2']);
    assert("f3"@ =~= seq!['f', '3']);
    assert("f4"@ =~= seq!['f', '4']);
    assert("f5"@ =~= seq!['f', '5']);
    assert("f6"@ =~= seq!['f', '6']);
    assert("f7"@ =~= seq!['f', '7']);
    assert("f8"@ =~= seq!['f', '8']);
    assert("f9"@ =~= seq!['f', '9']);
    assert("f10"@ =~= seq!['f', '1', '0']);
    assert("f11"@ =~= seq!['f', '1', '1']);
    assert("f12"@ =~= seq!['f', '1', '2']);
    reveal_with_fuel(decimal, 3);
    let name = seq!['f'] + decimal(n);
    if n < 10 {
        assert(decimal(n) == seq![crate::text::digit(n)]);
        assert(name =~= seq!['f', crate::text::digit(n)]);
    } else {
        assert(decimal(n / 10) == seq!['1']);
        assert(name =~= seq!['f', '1', crate::text::digit(n % 10)]);
    }
}

/// Two names never stand for one key.
pub proof fn law_a_key_has_one_name(a: Seq<char>, b: Seq<char>)
    requires
        named_make(a) is Some,
        named_make(a) == named_make(b),
    ensures
        a == b,
        named_make(a)->0 < 0x80,
{
}

/// A name between braces is a tap of its key; behind a `+` its press, behind a `-` its
/// release. The case of its letters does not matter.
pub proof fn law_a_named_key_reads(name: Seq<char>)
    requires
        named_make(lowered(name)) is Some,
    ensures
        key_groups(seq!['{'] + name + seq!['}']) == Ok::<Seq<Seq<u8>>, KeyTextFault>(
            seq![seq![named_make(lowered(name))->0, (named_make(lowered(name))->0 + 0x80) as u8]],
        ),
        key_groups(seq!['{', '+'] + name + seq!['}']) == Ok::<Seq<Seq<u8>>, KeyTextFault>(
            seq![seq![named_make(lowered(name))->0]],
        ),
        key_groups(seq!['{', '-'] + name + seq!['}']) == Ok::<Seq<Seq<u8>>, KeyTextFault>(
            seq![seq![(named_make(lowered(name))->0 + 0x80) as u8]],
        ),
{
    lemma_names_are_plain(name);
    let make = named_make(lowered(name))->0;
    lemma_braces_read(name, name, KeyEdge::Tap);
    lemma_braces_read(seq!['+'] + name, name, KeyEdge::Press);
    lemma_braces_read(seq!['-'] + name, name, KeyEdge::Release);
    assert((seq!['+'] + name).drop_first() =~= name);
    assert((seq!['-'] + name).drop_first() =~= name);
    assert(seq!['{'] + (seq!['+'] + name) + seq!['}'] =~= seq!['{', '+'] + name + seq!['}']);
    assert(seq!['{'] + (seq!['-'] + name) + seq!['}'] =~= seq!['{', '-'] + name + seq!['}']);
}

/// The name of a key has no sign in front and no brace.
proof fn lemma_names_are_plain(name: Seq<char>)
    requires
        named_make(lowered(name)) is Some,
    ensures
        name.len() > 0,
        name[0] != '+' && name[0] != '-',
        !name.contains('}'),
{
    reveal_strlit("shift");
    reveal_strlit("ctrl");
    reveal_strlit("alt");
    reveal_strlit("esc");
    reveal_strlit("space");
    reveal_strlit("enter");
    reveal_strlit("up");
    reveal_strlit("down");
    reveal_strlit("left");
    reveal_strlit("right");
    reveal_strlit("tab");
    reveal_strlit("f1");
    reveal_strlit("f2");
    reveal_strlit("f3");
    reveal_strlit("f4");
    reveal_strlit("f5");
    reveal_strlit("f6");
    reveal_strlit("f7");
    reveal_strlit("f8");
    reveal_strlit("f9");
    reveal_strlit("f10");
    reveal_strlit("f11");
    reveal_strlit("f12");
    assert("shift"@ =~= seq!['s', 'h', 'i', 'f', 't']);
    assert("ctrl"@ =~= seq!['c', 't', 'r', 'l']);
    assert("alt"@ =~= seq!['a', 'l', 't']);
    assert("esc"@ =~= seq!['e', 's', 'c']);
    assert("space"@ =~= seq!['s', 'p', 'a', 'c', 'e']);
    assert("enter"@ =~= seq!['e', 'n', 't', 'e', 'r']);
    assert("up"@ =~= seq!['u', 'p']);
    assert("down"@ =~= seq!['d', 'o', 'w', 'n']);
    assert("left"@ =~= seq!['l', 'e', 'f', 't']);
    assert("right"@ =~= seq!['r', 'i', 'g', 'h', 't']);
    assert("tab"@ =~= seq!['t', 'a', 'b']);
    assert("f1"@ =~= seq!['f', '1']);
    assert("f2"@ =~= seq!['f', '2']);
    assert("f3"@ =~= seq!['f', '3']);
    assert("f4"@ =~= seq!['f', '4']);
    assert("f5"@ =~= seq!['f', '5']);
    assert("f6"@ =~= seq!['f', '6']);
    assert("f7"@ =~= seq!['f', '7']);
    assert("f8"@ =~= seq!['f', '8']);
    assert("f9"@ =~= seq!['f', '9']);
    assert("f10"@ =~= seq!['f', '1', '0']);
    assert("f11"@ =~= seq!['f', '1', '1']);
    assert("f12"@ =~= seq!['f', '1', '2']);
    let small = lowered(name);
    assert(small.len() == name.len());
    assert(small.len() > 0 && small[0] != '+' && small[0] != '-');
    assert(small[0] == crate::text::lower(name[0]));
    assert(!small.contains('}'));
    if name.contains('}') {
        let i = choose|i: int| 0 <= i < name.len() && name[i] == '}';
        assert(small[i] == '}');
    }
}

/// What stands between braces reads as its key and edge.
proof fn lemma_braces_read(inner: Seq<char>, name: Seq<char>, edge: KeyEdge)
    requires
        named_make(lowered(name)) is Some,
        !name.contains('}'),
        name.len() > 0 && name[0] != '+' && name[0] != '-',
        edge is Tap ==> inner == name,
        edge is Press ==> inner == seq!['+'] + name,
        edge is Release ==> inner == seq!['-'] + name,
    ensures
        key_groups(seq!['{'] + inner + seq!['}']) == Ok::<Seq<Seq<u8>>, KeyTextFault>(
            seq![edge_codes(named_make(lowered(name))->0, edge)],
        ),
{
    let text = seq!['{'] + inner + seq!['}'];
    assert(!inner.contains('}')) by {
        if inner.contains('}') {
            let i = choose|i: int| 0 <= i < inner.len() && inner[i] == '}';
            if edge is Tap {
                assert(name.contains(name[i]));
            } else {
                assert(name.contains(name[i - 1]));
            }
        }
    }
    lemma_brace_found(seq!['{'] + inner, 1);
    assert(text.subrange(1, inner.len() + 1int) =~= inner);
    assert(inner.drop_first() == name || edge is Tap) by {
        if !(edge is Tap) {
            assert(inner.drop_first() =~= name);
        }
    }
    assert(text.skip(text.len() as int) =~= Seq::empty());
    assert(key_groups(text.skip(text.len() as int)) == Ok::<Seq<Seq<u8>>, KeyTextFault>(
        Seq::empty(),
    ));
    let codes = edge_codes(named_make(lowered(name))->0, edge);
    assert(seq![codes] + Seq::<Seq<u8>>::empty() =~= seq![codes]);
}

/// The brace behind a text without one behind `from` is found.
proof fn lemma_brace_found(front: Seq<char>, from: nat)
    requires
        from <= front.len(),
        forall|i: int| from <= i < front.len() ==> (#[trigger] front[i]) != '}',
    ensures
        find_from(front + seq!['}'], seq!['}'], from) == Some(front.len()),
    decreases front.len() - from,
{
    let text = front + seq!['}'];
    if from == front.len() {
        assert(text.subrange(from as int, from + 1int) =~= seq!['}']);
    } else {
        assert(text.subrange(from as int, from + 1int)[0] == front[from as int]);
        lemma_brace_found(front, from + 1);
    }
}

/// A character other than a brace that opens is typed by its own key, in a group of its
/// own, and one without a key is reported.
pub proof fn law_a_character_is_typed(ch: char)
    requires
        ch != '{',
    ensures
        set1_codes(ch).len() > 0 ==> key_groups(seq![ch]) == Ok::<Seq<Seq<u8>>, KeyTextFault>(
            seq![set1_codes(ch)],
        ),
        set1_codes(ch).len() == 0 ==> key_groups(seq![ch]) == Err::<Seq<Seq<u8>>, KeyTextFault>(
            KeyTextFault::NoScancode(ch),
        ),
{
    assert(seq![ch].skip(1) =~= Seq::empty());
    assert(key_groups(seq![ch].skip(1)) == Ok::<Seq<Seq<u8>>, KeyTextFault>(Seq::empty()));
    assert(seq![set1_codes(ch)] + Seq::<Seq<u8>>::empty() =~= seq![set1_codes(ch)]);
}

/// A brace that opens and none that closes is reported, and so is a name that is no key's.
pub proof fn law_bad_names_are_reported(inner: Seq<char>)
    requires
        !inner.contains('}'),
    ensures
        key_groups(seq!['{'] + inner) == Err::<Seq<Seq<u8>>, KeyTextFault>(KeyTextFault::Unclosed),
        inner.len() > 0 && inner[0] != '+' && inner[0] != '-' && named_make(lowered(inner)) is None
            ==> key_groups(seq!['{'] + inner + seq!['}']) == Err::<Seq<Seq<u8>>, KeyTextFault>(
            KeyTextFault::UnknownKey(lowered(inner)),
        ),
{
    let front = seq!['{'] + inner;
    lemma_no_brace_found(front, 1);
    lemma_brace_found(front, 1);
    assert((front + seq!['}']).subrange(1, front.len() as int) =~= inner);
}

/// No brace is found where there is none.
proof fn lemma_no_brace_found(front: Seq<char>, from: nat)
    requires
        forall|i: int| from <= i < front.len() ==> (#[trigger] front[i]) != '}',
    ensures
        find_from(front, seq!['}'], from) is None,
    decreases front.len() - from,
{
    if from < front.len() {
        assert(front.subrange(from as int, from + 1int)[0] == front[from as int]);
        lemma_no_brace_found(front, from + 1);
    }
}

/// A step as it is written: its offset, a colon and its payload.
pub open spec fn written_step(at: u64, payload: Seq<char>) -> Seq<char> {
    decimal(at as nat) + seq![':'] + payload
}

/// A step reads back as it was written, unless it does not lie behind the one before.
pub proof fn law_a_step_reads_back(at: u64, payload: Seq<char>, previous: Option<u64>)
    ensures
        read_step(written_step(at, payload), previous) == if previous is Some && at <= previous->0 {
            Err::<(u64, Seq<char>), ScheduleFault>(
                ScheduleFault::NotIncreasing { at_cycles: at, previous: previous->0 },
            )
        } else {
            Ok::<(u64, Seq<char>), ScheduleFault>((at, payload))
        },
        trimmed(written_step(at, payload)).len() > 0,
{
    let numeral = decimal(at as nat);
    let text = written_step(at, payload);
    crate::text::lemma_decimal_is_digits(at as nat);
    assert(crate::text::is_digit(numeral[0]));
    assert(crate::text::is_digit(numeral[numeral.len() - 1]));
    crate::text::lemma_numerals_hold_digits(at as nat, 0, ':');
    crate::text::law_the_first_separator_splits(numeral, payload, ':');
    crate::text::law_trimming_takes_the_space_around(Seq::empty(), numeral, Seq::empty());
    assert(Seq::<char>::empty() + numeral + Seq::<char>::empty() =~= numeral);
    assert(parsed_nat(numeral, u64::MAX as nat) == Some(at as nat));
    assert(text[0] == numeral[0]);
    assert(crate::text::trim_start(text) == text);
    lemma_a_first_character_stays(text);
}

/// Trimming the end leaves a first character that is no white space.
proof fn lemma_a_first_character_stays(text: Seq<char>)
    requires
        text.len() > 0,
        !crate::text::is_space(text[0]),
    ensures
        crate::text::trim_end(text).len() > 0,
    decreases text.len(),
{
    if crate::text::is_space(text.last()) {
        lemma_a_first_character_stays(text.drop_last());
    }
}

/// A schedule as it is written.
pub open spec fn written_steps(steps: Seq<(u64, Seq<char>)>) -> Seq<Seq<char>> {
    steps.map_values(|step: (u64, Seq<char>)| written_step(step.0, step.1))
}

/// A schedule reads back step by step, each with its own offset and payload.
pub proof fn law_a_schedule_reads_back(steps: Seq<(u64, Seq<char>)>, previous: Option<u64>)
    requires
        increasing(steps),
        previous is Some && steps.len() > 0 ==> previous->0 < steps[0].0,
    ensures
        read_steps(written_steps(steps), previous) == Ok::<Seq<(u64, Seq<char>)>, ScheduleFault>(
            steps,
        ),
    decreases steps.len(),
{
    let parts = written_steps(steps);
    if steps.len() == 0 {
        assert(steps =~= Seq::empty());
    } else {
        let rest = steps.drop_first();
        law_a_step_reads_back(steps[0].0, steps[0].1, previous);
        assert(parts.drop_first() =~= written_steps(rest));
        assert(increasing(rest));
        law_a_schedule_reads_back(rest, Some(steps[0].0));
        assert(seq![steps[0]] + rest =~= steps);
    }
}

/// A flag's text reads back: the steps joined by semicolons are the key steps again, with
/// their texts as they are where they hold no semicolon and no backslash.
pub proof fn law_key_steps_read_back(steps: Seq<(u64, Seq<char>)>)
    requires
        steps.len() > 0,
        increasing(steps),
        forall|i: int|
            0 <= i < steps.len() ==> !(#[trigger] steps[i]).1.contains(';')
                && !steps[i].1.contains('\\'),
    ensures
        key_schedule(crate::text::joined(written_steps(steps), seq![';'])) == Ok::<
            Seq<StepView>,
            ScheduleFault,
        >(
            steps.map_values(
                |step: (u64, Seq<char>)|
                    StepView { at_cycles: step.0, event: EventView::Keys(step.1) },
            ),
        ),
{
    lemma_parts_read_back(steps);
    let read = key_schedule(crate::text::joined(written_steps(steps), seq![';']));
    assert forall|i: int| 0 <= i < steps.len() implies unescaped((#[trigger] steps[i]).1)
        == steps[i].1 by {
        law_escapes_are_written_out(steps[i].1, Seq::empty());
    }
    assert(read->Ok_0 =~= steps.map_values(
        |step: (u64, Seq<char>)| StepView { at_cycles: step.0, event: EventView::Keys(step.1) },
    ));
}

/// The parts between the semicolons are the steps as they were written.
proof fn lemma_parts_read_back(steps: Seq<(u64, Seq<char>)>)
    requires
        steps.len() > 0,
        increasing(steps),
        forall|i: int| 0 <= i < steps.len() ==> !(#[trigger] steps[i]).1.contains(';'),
    ensures
        read_steps(split(crate::text::joined(written_steps(steps), seq![';']), ';'), None) == Ok::<
            Seq<(u64, Seq<char>)>,
            ScheduleFault,
        >(steps),
{
    let parts = written_steps(steps);
    assert forall|i: int| 0 <= i < parts.len() implies !(#[trigger] parts[i]).contains(';') by {
        crate::text::lemma_numerals_hold_digits(steps[i].0 as nat, 0, ';');
        assert(!seq![':'].contains(';'));
        assert(!steps[i].1.contains(';'));
        crate::text::lemma_neither_holds(decimal(steps[i].0 as nat), seq![':'], ';');
        crate::text::lemma_neither_holds(
            decimal(steps[i].0 as nat) + seq![':'],
            steps[i].1,
            ';',
        );
    }
    crate::text::lemma_split_undoes_joining(parts, ';');
    law_a_schedule_reads_back(steps, None);
}

/// A backslash and `r` stand for Enter and a backslash and `n` for a line feed; a text
/// without a backslash is typed as it is.
pub proof fn law_escapes_are_written_out(head: Seq<char>, rest: Seq<char>)
    requires
        !head.contains('\\'),
        !rest.contains('\\'),
    ensures
        unescaped(head) == head,
        unescaped(head + seq!['\\', 'r'] + rest) == head + seq!['\r'] + rest,
        unescaped(head + seq!['\\', 'n'] + rest) == head + seq!['\n'] + rest,
{
    let cr = seq!['\\', 'r'];
    let lf = seq!['\\', 'n'];
    crate::text::law_replacing_keeps_the_rest(head, cr, rest, '\r');
    crate::text::law_replacing_keeps_the_rest(rest, cr, rest, '\r');
    crate::text::law_replacing_keeps_the_rest(head, lf, rest, '\n');
    crate::text::law_replacing_keeps_the_rest(rest, lf, rest, '\n');
    let typed = head + seq!['\r'] + rest;
    assert(!seq!['\r'].contains('\\'));
    crate::text::lemma_neither_holds(head, seq!['\r'], '\\');
    crate::text::lemma_neither_holds(head + seq!['\r'], rest, '\\');
    crate::text::law_replacing_keeps_the_rest(typed, lf, rest, '\n');
    lemma_another_escape_stays(head, rest);
}

/// A backslash and `n` are no backslash and `r`.
proof fn lemma_another_escape_stays(head: Seq<char>, rest: Seq<char>)
    requires
        !head.contains('\\'),
        !rest.contains('\\'),
    ensures
        replaced(head + seq!['\\', 'n'] + rest, seq!['\\', 'r'], '\r') == head + seq!['\\', 'n']
            + rest,
    decreases head.len(),
{
    let cr = seq!['\\', 'r'];
    let text = head + seq!['\\', 'n'] + rest;
    if head.len() == 0 {
        assert(text.subrange(0, 2)[1] == 'n');
        assert(!stands_at(text, cr, 0)) by {
            assert(cr[1] == 'r');
        }
        let tail = text.drop_first();
        assert(tail =~= seq!['n'] + rest);
        assert(!seq!['n'].contains('\\'));
        crate::text::lemma_neither_holds(seq!['n'], rest, '\\');
        crate::text::law_replacing_keeps_the_rest(tail, cr, rest, '\r');
        assert(seq![text[0]] + tail =~= text);
    } else {
        let tail = head.drop_first();
        assert(head.contains(head[0]));
        assert(!tail.contains('\\')) by {
            if tail.contains('\\') {
                let i = choose|i: int| 0 <= i < tail.len() && tail[i] == '\\';
                assert(head[i + 1] == '\\');
            }
        }
        assert(text.subrange(0, 2)[0] == head[0]);
        assert(!stands_at(text, cr, 0)) by {
            assert(cr[0] == '\\');
        }
        assert(text.drop_first() =~= tail + seq!['\\', 'n'] + rest);
        lemma_another_escape_stays(tail, rest);
        assert(seq![head[0]] + (tail + seq!['\\', 'n'] + rest) =~= text);
    }
}

/// A mouse action as it is written.
pub open spec fn written_action(action: MouseAction) -> Seq<char> {
    match action {
        MouseAction::Home => "home"@,
        MouseAction::Move { dx, dy } => "move:"@ + crate::text::signed(dx as int) + seq![',']
            + crate::text::signed(dy as int),
        MouseAction::Button(n) => if n == 0 {
            "up"@
        } else {
            "down"@
        },
        MouseAction::Click => "click"@,
    }
}

/// A mouse action reads back as it was written, whatever white space stands around it:
/// `dx` is what stands before the comma, and a button that goes down is pressed.
pub proof fn law_a_mouse_action_reads_back(action: MouseAction, front: Seq<char>, back: Seq<char>)
    requires
        crate::text::all_space(front),
        crate::text::all_space(back),
        action is Button ==> action->Button_0 <= 1,
    ensures
        mouse_action(front + written_action(action) + back) == Ok::<MouseAction, ScheduleFault>(
            action,
        ),
{
    reveal_strlit("home");
    reveal_strlit("move:");
    reveal_strlit("up");
    reveal_strlit("down");
    reveal_strlit("click");
    assert("home"@ =~= seq!['h', 'o', 'm', 'e']);
    assert("up"@ =~= seq!['u', 'p']);
    assert("down"@ =~= seq!['d', 'o', 'w', 'n']);
    assert("click"@ =~= seq!['c', 'l', 'i', 'c', 'k']);
    assert("move:"@ =~= seq!['m', 'o', 'v', 'e', ':']);
    let text = written_action(action);
    match action {
        MouseAction::Move { dx, dy } => {
            let x = crate::text::signed(dx as int);
            let y = crate::text::signed(dy as int);
            crate::text::law_signed_numbers_read_back(dx as int, i32::MAX as nat);
            crate::text::law_signed_numbers_read_back(dy as int, i32::MAX as nat);
            assert(!crate::text::is_digit(','));
            assert(!x.contains(','));
            let deltas = x + seq![','] + y;
            assert(text =~= "move:"@ + deltas);
            assert(text[0] == 'm');
            assert(text[text.len() - 1] == y[y.len() - 1]);
            crate::text::law_trimming_takes_the_space_around(front, text, back);
            assert(text.subrange(0, 5) =~= "move:"@);
            assert(text.skip(5) =~= deltas);
            crate::text::law_the_first_separator_splits(x, y, ',');
            crate::text::law_trimming_takes_the_space_around(Seq::empty(), x, Seq::empty());
            crate::text::law_trimming_takes_the_space_around(Seq::empty(), y, Seq::empty());
            assert(Seq::<char>::empty() + x + Seq::<char>::empty() =~= x);
            assert(Seq::<char>::empty() + y + Seq::<char>::empty() =~= y);
        },
        _ => {
            crate::text::law_trimming_takes_the_space_around(front, text, back);
        },
    }
}

/// The mouse steps of a flag read back as they were written.
pub proof fn law_mouse_steps_read_back(steps: Seq<(u64, MouseAction)>)
    requires
        forall|i: int|
            0 <= i < steps.len() && (#[trigger] steps[i]).1 is Button ==> steps[i].1->Button_0
                <= 1,
    ensures
        mouse_steps(
            steps.map_values(|step: (u64, MouseAction)| (step.0, written_action(step.1))),
        ) == Ok::<Seq<StepView>, ScheduleFault>(
            steps.map_values(
                |step: (u64, MouseAction)|
                    StepView { at_cycles: step.0, event: EventView::Mouse(step.1) },
            ),
        ),
    decreases steps.len(),
{
    let raw = steps.map_values(|step: (u64, MouseAction)| (step.0, written_action(step.1)));
    let views = steps.map_values(
        |step: (u64, MouseAction)|
            StepView { at_cycles: step.0, event: EventView::Mouse(step.1) },
    );
    if steps.len() == 0 {
        assert(views =~= Seq::empty());
    } else {
        let rest = steps.drop_first();
        assert forall|i: int| 0 <= i < rest.len() && (#[trigger] rest[i]).1 is Button implies rest[i].1->Button_0
            <= 1 by {
            assert(rest[i] == steps[i + 1]);
        }
        law_mouse_steps_read_back(rest);
        assert(raw.drop_first() =~= rest.map_values(
            |step: (u64, MouseAction)| (step.0, written_action(step.1)),
        ));
        let more = rest.map_values(
            |step: (u64, MouseAction)|
                StepView { at_cycles: step.0, event: EventView::Mouse(step.1) },
        );
        law_a_mouse_action_reads_back(steps[0].1, Seq::empty(), Seq::empty());
        assert(Seq::<char>::empty() + written_action(steps[0].1) + Seq::<char>::empty()
            =~= written_action(steps[0].1));
        assert(views =~= seq![
            StepView { at_cycles: steps[0].0, event: EventView::Mouse(steps[0].1) },
        ] + more);
    }
}

} // verus!
