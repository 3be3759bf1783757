//! Driving a run: when the guest runs, and when it is given input.
//!
//! The machine itself stays outside. [`InjectionRun`] says what to do next, and is
//! told what came of it; [`SlicedRun`] cuts one stretch of a run into the slices
//! that observers ask for.

use vstd::prelude::*;

use crate::inject::{text_to_scancode_groups, Injection, InjectionEvent, KeyTextError};
#[allow(unused_imports)]
use crate::inject::{byte_groups, key_groups, step_views, EventView, KeyTextFault, StepView};
use crate::mouse::{mouse_action_packets, MousePacket, MOUSE_CLICK_HOLD_MS};
#[allow(unused_imports)]
use crate::mouse::{action_packets, buttons_after};
use crate::stop::{non_cycle_stop, StopReason};
#[allow(unused_imports)]
use crate::stop::{opt_stop, terminal, StopView};

verus! {

// ---------------------------------------------------------------------------
// Slices
// ---------------------------------------------------------------------------

/// The slice that observers ask for: the shortest of theirs, and at least one
/// cycle. Without observers a stretch is not cut at all.
pub open spec fn observed_slice(capture: Option<u64>, dumper: Option<u64>) -> Option<u64> {
    let shortest = match (capture, dumper) {
        (None, None) => None,
        (Some(a), None) => Some(a),
        (None, Some(b)) => Some(b),
        (Some(a), Some(b)) => Some(
            if a <= b {
                a
            } else {
                b
            },
        ),
    };
    match shortest {
        Some(0) => Some(1),
        other => other,
    }
}

/// The slice that observers ask for, or `None` without observers.
pub fn slice_for(capture: Option<u64>, dumper: Option<u64>) -> (slice: Option<u64>)
    ensures
        slice == observed_slice(capture, dumper),
{
    let shortest: Option<u64> = match (capture, dumper) {
        (None, None) => None,
        (Some(a), None) => Some(a),
        (None, Some(b)) => Some(b),
        (Some(a), Some(b)) => if a <= b {
            Some(a)
        } else {
            Some(b)
        },
    };
    match shortest {
        Some(0) => Some(1),
        other => other,
    }
}

/// One stretch of a run, cut into slices where it is observed.
pub struct SlicedRun {
    /// The whole stretch.
    pub cycles: u64,
    /// The slice that observers ask for.
    pub slice: Option<u64>,
    /// What has been run of it.
    pub spent: u64,
    /// Whether there is nothing left to run.
    pub over: bool,
    /// Why it ended, so far.
    pub stop: StopReason,
}

impl SlicedRun {
    /// What holds of a stretch at every moment.
    pub open spec fn wf(self) -> bool {
        &&& self.spent <= self.cycles
        &&& self.slice matches Some(s) ==> s > 0
        &&& self.slice is None && !self.over ==> self.spent == 0
        &&& self.slice is Some && !self.over ==> self.spent < self.cycles
        &&& self.slice is Some && !self.over ==> self.stop@ == (StopView::CycleLimit {
            requested: self.cycles,
        })
    }

    /// How many cycles to run next. A stretch that is not observed is run in one
    /// call, however short; an observed one slice by slice.
    pub open spec fn next_cycles(self) -> Option<u64> {
        if self.over {
            None
        } else {
            match self.slice {
                None => Some(self.cycles),
                Some(slice) => Some(
                    if slice <= self.cycles - self.spent {
                        slice
                    } else {
                        (self.cycles - self.spent) as u64
                    },
                ),
            }
        }
    }

    /// A stretch of `cycles`, cut where `slice` says so.
    pub fn new(cycles: u64, slice: Option<u64>) -> (run: SlicedRun)
        requires
            slice matches Some(s) ==> s > 0,
        ensures
            run.wf(),
            run.cycles == cycles,
            run.slice == slice,
            run.spent == 0,
            run.over == (slice is Some && cycles == 0),
            run.stop@ == (StopView::CycleLimit { requested: cycles }),
    {
        SlicedRun {
            cycles,
            slice,
            spent: 0,
            over: slice.is_some() && cycles == 0,
            stop: StopReason::CycleLimit { requested: cycles },
        }
    }

    /// How many cycles to run next, or `None` once the stretch is over.
    pub fn next(&self) -> (cycles: Option<u64>)
        requires
            self.wf(),
        ensures
            cycles == self.next_cycles(),
    {
        if self.over {
            return None;
        }
        match self.slice {
            None => Some(self.cycles),
            Some(slice) => if slice <= self.cycles - self.spent {
                Some(slice)
            } else {
                Some(self.cycles - self.spent)
            },
        }
    }

    /// Of the cycles that [`SlicedRun::next`] asked for `ran` were run, and `stop` is
    /// how that ended. A stop that ends the run ends the stretch where it is; without
    /// one all were run.
    pub fn ran(&mut self, ran: u64, stop: StopReason)
        requires
            old(self).wf(),
            !old(self).over,
            ran <= old(self).next_cycles()->0,
            terminal(stop@) is None ==> ran == old(self).next_cycles()->0,
        ensures
            final(self).wf(),
            final(self).cycles == old(self).cycles,
            final(self).slice == old(self).slice,
            final(self).spent == old(self).spent + ran,
            final(self).over == (old(self).slice is None || terminal(stop@) is Some
                || final(self).spent == old(self).cycles),
            final(self).stop@ == if old(self).slice is None || terminal(stop@) is Some {
                stop@
            } else {
                old(self).stop@
            },
    {
        self.spent = self.spent + ran;
        let ends: bool = non_cycle_stop(&stop).is_some();
        if self.slice.is_none() || ends {
            self.stop = stop;
            self.over = true;
        } else if self.spent == self.cycles {
            self.over = true;
        }
    }
}

/// The cycles of a slice that were run: all that were asked for, or as many of them
/// as the guest's clock moved where it stopped for good before that.
pub open spec fn run_of(asked: u64, clocks: u64, stop: StopView) -> u64 {
    if terminal(stop) is Some && clocks < asked {
        clocks
    } else {
        asked
    }
}

/// The cycles of a slice that were run, from those that were asked for, how far the
/// guest's clock moved and how it ended.
pub fn cycles_run(asked: u64, clocks: u64, stop: &StopReason) -> (ran: u64)
    ensures
        ran == run_of(asked, clocks, stop@),
{
    if non_cycle_stop(stop).is_some() && clocks < asked {
        clocks
    } else {
        asked
    }
}

/// The slices that an observed stretch is run in where nothing ends it early.
pub open spec fn slices(cycles: nat, slice: nat) -> Seq<nat>
    decreases cycles,
{
    if cycles == 0 || slice == 0 {
        Seq::empty()
    } else if cycles <= slice {
        seq![cycles]
    } else {
        seq![slice] + slices((cycles - slice) as nat, slice)
    }
}

/// The cycles of slices together.
pub open spec fn slice_sum(list: Seq<nat>) -> nat
    decreases list.len(),
{
    if list.len() == 0 {
        0
    } else {
        list[0] + slice_sum(list.drop_first())
    }
}

/// Slicing changes nothing but the boundaries: the slices add up to the stretch,
/// none is empty or longer than asked, and there are as many as it takes.
pub proof fn law_slices_cover_the_stretch(cycles: nat, slice: nat)
    requires
        slice > 0,
    ensures
        slice_sum(slices(cycles, slice)) == cycles,
        slices(cycles, slice).len() == (cycles + slice - 1) / slice as int,
        forall|i: int|
            0 <= i < slices(cycles, slice).len() ==> 0 < #[trigger] slices(cycles, slice)[i]
                <= slice,
    decreases cycles,
{
    if cycles == 0 {
        vstd::arithmetic::div_mod::lemma_basic_div((slice - 1) as int, slice as int);
    } else if cycles <= slice {
        assert(seq![cycles].drop_first() =~= Seq::empty());
        assert(slice_sum(Seq::<nat>::empty()) == 0);
        assert(cycles + slice - 1 == 1 * slice + (cycles - 1));
        vstd::arithmetic::div_mod::lemma_fundamental_div_mod_converse(
            (cycles + slice - 1) as int,
            slice as int,
            1,
            (cycles - 1) as int,
        );
    } else {
        let less = (cycles - slice) as nat;
        law_slices_cover_the_stretch(less, slice);
        let rest = slices(less, slice);
        let all = slices(cycles, slice);
        assert(all.drop_first() =~= rest);
        assert(forall|i: int| 1 <= i < all.len() ==> all[i] == rest[i - 1]);
        vstd::arithmetic::div_mod::lemma_div_plus_one((less + slice - 1) as int, slice as int);
        assert((less + slice - 1) / slice as int + 1 == (slice + (less + slice - 1)) / slice as int);
    }
}

/// Each step of an observed stretch is the head of its slices, and leaves the
/// slices behind it.
pub proof fn law_an_observed_stretch_runs_its_slices(run: SlicedRun)
    requires
        run.wf(),
        !run.over,
        run.slice is Some,
    ensures
        slices((run.cycles - run.spent) as nat, run.slice->0 as nat).len() > 0,
        run.next_cycles() == Some(
            slices((run.cycles - run.spent) as nat, run.slice->0 as nat)[0] as u64,
        ),
        slices((run.cycles - run.spent) as nat, run.slice->0 as nat).drop_first() == slices(
            (run.cycles - run.spent - run.next_cycles()->0) as nat,
            run.slice->0 as nat,
        ),
{
    let left = (run.cycles - run.spent) as nat;
    let slice = run.slice->0 as nat;
    if left <= slice {
        assert(slices(left, slice).drop_first() =~= Seq::empty());
    } else {
        assert(slices(left, slice).drop_first() =~= slices((left - slice) as nat, slice));
    }
}

// ---------------------------------------------------------------------------
// Input
// ---------------------------------------------------------------------------

/// The shortest stretch that the guest is given after an input.
pub const SHORTEST_DWELL: u64 = 1_000;

/// Guest cycles for the pauses that a schedule makes, before the floor.
#[derive(Clone, Copy, Debug, PartialEq, Eq, Structural)]
pub struct Pace {
    /// After a scancode: two guest milliseconds.
    pub key: u64,
    /// After a mouse packet: the packet spacing.
    pub packet: u64,
    /// After the press of a click: the click's hold.
    pub click: u64,
}

/// A pause, at least the shortest one.
pub open spec fn dwell(cycles: u64) -> u64 {
    if cycles < SHORTEST_DWELL {
        SHORTEST_DWELL
    } else {
        cycles
    }
}

impl Pace {
    /// The pause after a mouse packet.
    pub open spec fn after_packet(self, packet: MousePacket) -> u64 {
        if packet.dwell_ms == MOUSE_CLICK_HOLD_MS {
            dwell(self.click)
        } else {
            dwell(self.packet)
        }
    }
}

/// A pause, at least the shortest one.
fn at_least_shortest(cycles: u64) -> (d: u64)
    ensures
        d == dwell(cycles),
{
    if cycles < SHORTEST_DWELL {
        SHORTEST_DWELL
    } else {
        cycles
    }
}

/// One thing that the guest is given.
#[derive(Clone, Copy, Debug, PartialEq, Eq, Structural)]
pub enum Input {
    /// A scancode.
    Key(u8),
    /// A mouse packet.
    Mouse(MousePacket),
}

/// An input and the pause after it.
#[derive(Clone, Copy, Debug, PartialEq, Eq, Structural)]
pub struct PacedInput {
    pub input: Input,
    pub dwell: u64,
}

/// The inputs of the key groups from the `n`-th on.
pub open spec fn key_inputs(groups: Seq<Seq<u8>>, n: int, pause: u64) -> Seq<PacedInput>
    decreases groups.len() - n,
{
    if 0 <= n < groups.len() {
        groups[n].map_values(|code: u8| PacedInput { input: Input::Key(code), dwell: pause })
            + key_inputs(groups, n + 1, pause)
    } else {
        Seq::empty()
    }
}

/// The inputs of mouse packets.
pub open spec fn packet_inputs(packets: Seq<MousePacket>, pace: Pace) -> Seq<PacedInput> {
    packets.map_values(
        |p: MousePacket| PacedInput { input: Input::Mouse(p), dwell: pace.after_packet(p) },
    )
}

/// Where an injected run stands.
#[derive(Clone, Copy, Debug, PartialEq, Eq, Structural)]
pub enum Phase {
    /// Before the next step.
    Step,
    /// The guest runs up to the step's offset.
    Gap,
    /// The guest has come to the step.
    Begin,
    /// The step's inputs are given.
    Give,
    /// An input was given and the guest is owed its pause.
    Pause { dwell: u64 },
    /// The guest runs the pause.
    Dwell,
    /// The budget ended before the step's offset.
    Short,
    /// The guest runs what is left of the budget.
    Tail,
    /// The run is over.
    Over,
}

/// What to do next.
#[derive(Debug, PartialEq, Eq)]
pub enum Action {
    /// Run the guest for so many cycles, and report back.
    Run(u64),
    /// Give the guest an input.
    Give(Input),
    /// Nothing yet: ask again.
    Proceed,
    /// The schedule holds a key text that cannot be typed.
    Fail(KeyTextError),
    /// The run is over.
    Finished,
}

/// What to do next, as contracts speak of it.
pub enum ActionView {
    Run(u64),
    Give(Input),
    Proceed,
    Fail(KeyTextFault),
    Finished,
}

impl View for Action {
    type V = ActionView;

    open spec fn view(&self) -> ActionView {
        match self {
            Action::Run(cycles) => ActionView::Run(*cycles),
            Action::Give(input) => ActionView::Give(*input),
            Action::Proceed => ActionView::Proceed,
            Action::Fail(e) => ActionView::Fail(e@),
            Action::Finished => ActionView::Finished,
        }
    }
}

/// An injected run, as contracts speak of it.
pub struct RunView {
    /// The steps that are left, the current one first.
    pub steps: Seq<StepView>,
    /// The inputs of the current step that are left.
    pub inputs: Seq<PacedInput>,
    pub budget: u64,
    pub spent: u64,
    pub buttons: u8,
    pub pace: Pace,
    /// The stop that ended the run.
    pub stop: Option<StopView>,
    pub phase: Phase,
}

impl RunView {
    /// What is left of the budget.
    pub open spec fn left(self) -> u64 {
        if self.spent <= self.budget {
            (self.budget - self.spent) as u64
        } else {
            0
        }
    }

    /// As much of `cycles` as the budget still holds.
    pub open spec fn afford(self, cycles: u64) -> u64 {
        if cycles <= self.left() {
            cycles
        } else {
            self.left()
        }
    }

    /// The run with no more input, and its last stretch still to come.
    pub open spec fn closing(self) -> (RunView, ActionView) {
        (
            RunView { inputs: Seq::empty(), phase: Phase::Tail, ..self },
            ActionView::Run(self.left()),
        )
    }

    /// The current step begun: its inputs are ready to be given.
    pub open spec fn begun(self) -> (RunView, ActionView) {
        match self.steps[0].event {
            EventView::Keys(text) => match key_groups(text) {
                Err(fault) => (RunView { phase: Phase::Over, ..self }, ActionView::Fail(fault)),
                Ok(groups) => (
                    RunView {
                        inputs: key_inputs(groups, 0, dwell(self.pace.key)),
                        phase: Phase::Give,
                        ..self
                    },
                    ActionView::Proceed,
                ),
            },
            EventView::Mouse(action) => (
                RunView {
                    inputs: packet_inputs(action_packets(action, self.buttons), self.pace),
                    buttons: buttons_after(action, self.buttons),
                    phase: Phase::Give,
                    ..self
                },
                ActionView::Proceed,
            ),
        }
    }

    /// What comes next, and the run after it. While the guest runs nothing comes
    /// next: the run waits to be told.
    pub open spec fn advanced(self) -> (RunView, ActionView) {
        match self.phase {
            Phase::Step => if self.steps.len() == 0 {
                self.closing()
            } else if self.steps[0].at_cycles <= self.spent {
                self.begun()
            } else if self.left() == 0 {
                self.closing()
            } else {
                (
                    RunView { phase: Phase::Gap, ..self },
                    ActionView::Run(
                        self.afford((self.steps[0].at_cycles - self.spent) as u64),
                    ),
                )
            },
            Phase::Begin => self.begun(),
            Phase::Give => if self.inputs.len() == 0 {
                (
                    RunView { steps: self.steps.drop_first(), phase: Phase::Step, ..self },
                    ActionView::Proceed,
                )
            } else {
                let next = self.inputs[0];
                (
                    RunView {
                        inputs: self.inputs.drop_first(),
                        phase: Phase::Pause { dwell: next.dwell },
                        ..self
                    },
                    ActionView::Give(next.input),
                )
            },
            Phase::Pause { dwell } => if self.afford(dwell) == 0 {
                self.closing()
            } else {
                (
                    RunView { phase: Phase::Dwell, ..self },
                    ActionView::Run(self.afford(dwell)),
                )
            },
            Phase::Short => self.closing(),
            Phase::Over => (self, ActionView::Finished),
            _ => (self, ActionView::Proceed),
        }
    }

    /// The run once the guest ran `ran` cycles and ended as `stop`. A stop that ends
    /// the run gives up all input that is left, on the way to a step and in a pause
    /// alike; and a step whose offset the budget does not reach is not begun.
    pub open spec fn told(self, ran: u64, stop: StopView) -> RunView {
        let spent = (self.spent + ran) as u64;
        match self.phase {
            Phase::Gap => match terminal(stop) {
                Some(end) => RunView {
                    spent,
                    stop: Some(end),
                    inputs: Seq::empty(),
                    phase: Phase::Over,
                    ..self
                },
                None => RunView {
                    spent,
                    phase: if spent < self.steps[0].at_cycles {
                        Phase::Short
                    } else {
                        Phase::Begin
                    },
                    ..self
                },
            },
            Phase::Dwell => match terminal(stop) {
                Some(end) => RunView {
                    spent,
                    stop: Some(end),
                    inputs: Seq::empty(),
                    phase: Phase::Over,
                    ..self
                },
                None => RunView { spent, phase: Phase::Give, ..self },
            },
            Phase::Tail => RunView { spent, stop: Some(stop), phase: Phase::Over, ..self },
            _ => self,
        }
    }

    /// Whether the run has come to a step and is not past it.
    pub open spec fn at_a_step(self) -> bool {
        self.phase is Begin || self.phase is Give || self.phase is Pause || self.phase is Dwell
    }

    /// Whether the guest is running.
    pub open spec fn running(self) -> bool {
        self.phase is Gap || self.phase is Dwell || self.phase is Tail
    }

    /// What holds of a run at every moment: the budget is kept, inputs belong to a
    /// step, none of them is given before the step's offset, and a run that has its
    /// stop is over.
    pub open spec fn wf(self) -> bool {
        &&& self.spent <= self.budget
        &&& self.phase is Gap || self.at_a_step() ==> self.steps.len() > 0
        &&& self.at_a_step() ==> self.spent >= self.steps[0].at_cycles
        &&& self.phase is Gap ==> self.spent < self.steps[0].at_cycles
        &&& self.stop is Some ==> self.phase is Over
    }
}

/// A run that is given input as a schedule says.
pub struct InjectionRun {
    steps: Vec<Injection>,
    index: usize,
    inputs: Vec<PacedInput>,
    at: usize,
    budget: u64,
    spent: u64,
    buttons: u8,
    pace: Pace,
    stop: Option<StopReason>,
    phase: Phase,
}

impl View for InjectionRun {
    type V = RunView;

    closed spec fn view(&self) -> RunView {
        RunView {
            steps: step_views(self.steps@).skip(self.index as int),
            inputs: self.inputs@.skip(self.at as int),
            budget: self.budget,
            spent: self.spent,
            buttons: self.buttons,
            pace: self.pace,
            stop: opt_stop(self.stop),
            phase: self.phase,
        }
    }
}

/// The inputs of key groups.
fn inputs_of_groups(groups: &Vec<Vec<u8>>, pause: u64) -> (inputs: Vec<PacedInput>)
    ensures
        inputs@ == key_inputs(byte_groups(groups@), 0, pause),
{
    let ghost list = byte_groups(groups@);
    let mut inputs: Vec<PacedInput> = Vec::new();
    let mut n: usize = 0;
    assert(inputs@ + key_inputs(list, 0, pause) =~= key_inputs(list, 0, pause));
    while n < groups.len()
        invariant
            n <= groups@.len(),
            list == byte_groups(groups@),
            inputs@ + key_inputs(list, n as int, pause) == key_inputs(list, 0, pause),
        decreases groups@.len() - n,
    {
        let ghost front = inputs@;
        let ghost entries = list[n as int].map_values(
            |code: u8| PacedInput { input: Input::Key(code), dwell: pause },
        );
        let mut k: usize = 0;
        assert(front + entries.take(0) =~= front);
        while k < groups[n].len()
            invariant
                n < groups@.len(),
                k <= groups@[n as int]@.len(),
                list == byte_groups(groups@),
                entries == list[n as int].map_values(
                    |code: u8| PacedInput { input: Input::Key(code), dwell: pause },
                ),
                inputs@ == front + entries.take(k as int),
            decreases groups@[n as int]@.len() - k,
        {
            inputs.push(PacedInput { input: Input::Key(groups[n][k]), dwell: pause });
            k = k + 1;
            assert(entries.take(k as int) =~= entries.take(k - 1).push(entries[k - 1]));
            assert(front + entries.take(k as int) =~= (front + entries.take(k - 1)).push(
                entries[k - 1],
            ));
        }
        proof {
            assert(entries.take(k as int) =~= entries);
            assert(front + (entries + key_inputs(list, n + 1, pause)) =~= (front + entries)
                + key_inputs(list, n + 1, pause));
        }
        n = n + 1;
    }
    assert(inputs@ + Seq::<PacedInput>::empty() =~= inputs@);
    inputs
}

/// The inputs of mouse packets.
fn inputs_of_packets(packets: &Vec<MousePacket>, pace: Pace) -> (inputs: Vec<PacedInput>)
    ensures
        inputs@ == packet_inputs(packets@, pace),
{
    let mut inputs: Vec<PacedInput> = Vec::new();
    let mut i: usize = 0;
    while i < packets.len()
        invariant
            i <= packets@.len(),
            inputs@ == packet_inputs(packets@.take(i as int), pace),
        decreases packets@.len() - i,
    {
        let packet: MousePacket = packets[i];
        let pause: u64 = if packet.dwell_ms == MOUSE_CLICK_HOLD_MS {
            at_least_shortest(pace.click)
        } else {
            at_least_shortest(pace.packet)
        };
        inputs.push(PacedInput { input: Input::Mouse(packet), dwell: pause });
        i = i + 1;
        assert(packet_inputs(packets@.take(i as int), pace) =~= packet_inputs(
            packets@.take(i - 1),
            pace,
        ).push(inputs@[i - 1]));
    }
    assert(packets@.take(packets@.len() as int) =~= packets@);
    inputs
}

impl InjectionRun {
    /// The places in the lists lie inside them.
    spec fn in_range(self) -> bool {
        &&& self.index <= self.steps@.len()
        &&& self.at <= self.inputs@.len()
    }

    /// What holds of a run at every moment.
    pub closed spec fn wf(self) -> bool {
        &&& self.in_range()
        &&& self@.wf()
    }

    /// A run that was not begun yet.
    pub fn new(steps: Vec<Injection>, budget: u64, pace: Pace) -> (run: InjectionRun)
        ensures
            run.wf(),
            run@ == (RunView {
                steps: step_views(steps@),
                inputs: Seq::empty(),
                budget,
                spent: 0,
                buttons: 0,
                pace,
                stop: None,
                phase: Phase::Step,
            }),
    {
        let run: InjectionRun = InjectionRun {
            steps,
            index: 0,
            inputs: Vec::new(),
            at: 0,
            budget,
            spent: 0,
            buttons: 0,
            pace,
            stop: None,
            phase: Phase::Step,
        };
        proof {
            assert(step_views(steps@).skip(0) =~= step_views(steps@));
            assert(run.inputs@.skip(0) =~= Seq::empty());
        }
        run
    }

    /// As much of `cycles` as the budget still holds.
    fn afford(&self, cycles: u64) -> (n: u64)
        requires
            self.wf(),
        ensures
            n == self@.afford(cycles),
    {
        let left: u64 = self.budget - self.spent;
        if cycles <= left {
            cycles
        } else {
            left
        }
    }

    /// Goes on to the last stretch.
    fn close(&mut self) -> (action: Action)
        requires
            old(self).wf(),
            old(self)@.stop is None,
        ensures
            final(self).wf(),
            (final(self)@, action@) == old(self)@.closing(),
    {
        self.give_up();
        self.phase = Phase::Tail;
        Action::Run(self.budget - self.spent)
    }

    /// Begins the current step.
    fn begin(&mut self) -> (action: Action)
        requires
            old(self).wf(),
            old(self)@.steps.len() > 0,
            old(self)@.spent >= old(self)@.steps[0].at_cycles,
            old(self)@.stop is None,
        ensures
            final(self).wf(),
            (final(self)@, action@) == old(self)@.begun(),
    {
        proof {
            assert(step_views(self.steps@).skip(self.index as int)[0] == self.steps@[self.index as int]@);
        }
        let mut buttons: u8 = self.buttons;
        match &self.steps[self.index].event {
            InjectionEvent::Keys(text) => {
                match text_to_scancode_groups(text.as_str()) {
                    Err(e) => {
                        self.phase = Phase::Over;
                        Action::Fail(e)
                    },
                    Ok(groups) => {
                        let inputs: Vec<PacedInput> = inputs_of_groups(
                            &groups,
                            at_least_shortest(self.pace.key),
                        );
                        assert(inputs@.skip(0) =~= inputs@);
                        self.inputs = inputs;
                        self.at = 0;
                        self.phase = Phase::Give;
                        Action::Proceed
                    },
                }
            },
            InjectionEvent::Mouse(action) => {
                let packets: Vec<MousePacket> = mouse_action_packets(action, &mut buttons);
                let inputs: Vec<PacedInput> = inputs_of_packets(&packets, self.pace);
                assert(inputs@.skip(0) =~= inputs@);
                self.inputs = inputs;
                self.at = 0;
                self.buttons = buttons;
                self.phase = Phase::Give;
                Action::Proceed
            },
        }
    }

    /// Gives up the inputs that are left.
    fn give_up(&mut self)
        requires
            old(self).in_range(),
        ensures
            final(self).in_range(),
            final(self)@ == (RunView { inputs: Seq::empty(), ..old(self)@ }),
    {
        self.at = self.inputs.len();
        assert(self.inputs@.skip(self.at as int) =~= Seq::empty());
    }

    /// What comes next.
    pub fn next(&mut self) -> (action: Action)
        requires
            old(self).wf(),
        ensures
            final(self).wf(),
            (final(self)@, action@) == old(self)@.advanced(),
    {
        match self.phase {
            Phase::Step => {
                if self.index == self.steps.len() {
                    return self.close();
                }
                let at_cycles: u64 = self.steps[self.index].at_cycles;
                proof {
                    assert(step_views(self.steps@).skip(self.index as int)[0]
                        == self.steps@[self.index as int]@);
                }
                if at_cycles <= self.spent {
                    self.begin()
                } else if self.budget == self.spent {
                    self.close()
                } else {
                    let cycles: u64 = self.afford(at_cycles - self.spent);
                    self.phase = Phase::Gap;
                    Action::Run(cycles)
                }
            },
            Phase::Begin => self.begin(),
            Phase::Give => {
                if self.at == self.inputs.len() {
                    proof {
                        assert(step_views(self.steps@).skip(self.index as int).drop_first()
                            =~= step_views(self.steps@).skip(self.index + 1));
                    }
                    let count: usize = self.steps.len();
                    assert(self.index < count);
                    self.index = self.index + 1;
                    self.phase = Phase::Step;
                    Action::Proceed
                } else {
                    let next: PacedInput = self.inputs[self.at];
                    proof {
                        assert(self.inputs@.skip(self.at as int).drop_first() =~= self.inputs@.skip(
                            self.at + 1,
                        ));
                    }
                    self.at = self.at + 1;
                    self.phase = Phase::Pause { dwell: next.dwell };
                    Action::Give(next.input)
                }
            },
            Phase::Pause { dwell } => {
                let cycles: u64 = self.afford(dwell);
                if cycles == 0 {
                    self.close()
                } else {
                    self.phase = Phase::Dwell;
                    Action::Run(cycles)
                }
            },
            Phase::Short => self.close(),
            Phase::Over => Action::Finished,
            _ => Action::Proceed,
        }
    }

    /// The guest ran `ran` cycles and ended as `stop`.
    pub fn told(&mut self, ran: u64, stop: StopReason)
        requires
            old(self).wf(),
            old(self)@.running(),
            ran <= old(self)@.left(),
            old(self)@.phase is Gap && terminal(stop@) is None ==> ran == old(self)@.afford(
                (old(self)@.steps[0].at_cycles - old(self)@.spent) as u64,
            ),
        ensures
            final(self).wf(),
            final(self)@ == old(self)@.told(ran, stop@),
    {
        let end: Option<StopReason> = non_cycle_stop(&stop);
        self.spent = self.spent + ran;
        match self.phase {
            Phase::Gap => {
                proof {
                    assert(step_views(self.steps@).skip(self.index as int)[0]
                        == self.steps@[self.index as int]@);
                }
                if end.is_some() {
                    self.give_up();
                    self.stop = end;
                    self.phase = Phase::Over;
                } else if self.spent < self.steps[self.index].at_cycles {
                    self.phase = Phase::Short;
                } else {
                    self.phase = Phase::Begin;
                }
            },
            Phase::Dwell => {
                if end.is_some() {
                    self.give_up();
                    self.stop = end;
                    self.phase = Phase::Over;
                } else {
                    self.phase = Phase::Give;
                }
            },
            Phase::Tail => {
                self.stop = Some(stop);
                self.phase = Phase::Over;
            },
            _ => {},
        }
    }

    /// Why the run ended, once it did.
    pub fn stop_reason(&self) -> (stop: &Option<StopReason>)
        ensures
            opt_stop(*stop) == self@.stop,
    {
        &self.stop
    }

    /// How many cycles were run.
    pub fn spent(&self) -> (spent: u64)
        ensures
            spent == self@.spent,
    {
        self.spent
    }
}

// ---------------------------------------------------------------------------
// Laws
// ---------------------------------------------------------------------------

/// What a run promises at every moment it promises after every step of it: the
/// budget is never overdrawn, and an input belongs to a step that is due.
pub proof fn law_a_run_stays_well_formed(run: RunView, ran: u64, stop: StopView)
    requires
        run.wf(),
    ensures
        run.advanced().0.wf(),
        run.running() && ran <= run.left() && (run.phase is Gap && terminal(stop) is None ==> ran
            == run.afford((run.steps[0].at_cycles - run.spent) as u64)) ==> run.told(
            ran,
            stop,
        ).wf(),
{
}

/// The guest is given an input only once it has run as far as its step's offset.
pub proof fn law_no_input_comes_early(run: RunView)
    requires
        run.wf(),
    ensures
        run.advanced().1 is Give ==> run.steps.len() > 0 && run.spent >= run.steps[0].at_cycles,
{
}

/// A stop that ends the run ends it at once, wherever it comes: no input is given and
/// the guest is not run any more, and that stop is the one that the run ended as.
pub proof fn law_a_terminal_stop_ends_the_run(run: RunView, ran: u64, stop: StopView)
    requires
        run.wf(),
        run.running(),
        ran <= run.left(),
        terminal(stop) is Some,
    ensures
        run.told(ran, stop).stop == Some(stop),
        run.told(ran, stop).advanced() == (run.told(ran, stop), ActionView::Finished),
{
}

/// Once nothing of the budget is left for the pause behind an input, the guest is given
/// no more input: what is left of the run is its last stretch, which is empty.
pub proof fn law_a_spent_budget_ends_the_input(run: RunView, ran: u64, stop: StopView)
    requires
        run.wf(),
        run.phase is Pause,
        run.left() == 0,
    ensures
        run.advanced().1 == ActionView::Run(0),
        run.advanced().0.told(ran, stop).stop == Some(stop),
        run.advanced().0.told(ran, stop).advanced().1 is Finished,
{
}

/// A step whose offset lies behind the end of the budget is never begun.
pub proof fn law_a_step_out_of_reach_is_not_begun(run: RunView, ran: u64, stop: StopView)
    requires
        run.wf(),
        run.phase is Gap,
        ran == run.left(),
        run.budget < run.steps[0].at_cycles,
        terminal(stop) is None,
    ensures
        run.told(ran, stop).advanced().1 == ActionView::Run(0),
        run.told(ran, stop).advanced().0.phase is Tail,
{
}

/// The guest is never asked to run past the budget, and only the last stretch may
/// be empty.
pub proof fn law_no_stretch_passes_the_budget(run: RunView)
    requires
        run.wf(),
    ensures
        run.advanced().1 matches ActionView::Run(cycles) ==> cycles <= run.budget - run.spent && (
        cycles > 0 || run.advanced().0.phase is Tail),
{
}

/// A run without a schedule is one stretch of the whole budget, and ends as that
/// stretch does.
pub proof fn law_without_a_schedule_one_stretch(
    budget: u64,
    buttons: u8,
    pace: Pace,
    ran: u64,
    stop: StopView,
)
    ensures
        ({
            let run = RunView {
                steps: Seq::empty(),
                inputs: Seq::empty(),
                budget,
                spent: 0,
                buttons,
                pace,
                stop: None,
                phase: Phase::Step,
            };
            let (running, action) = run.advanced();
            let (over, last) = running.told(ran, stop).advanced();
            &&& action == ActionView::Run(budget)
            &&& last is Finished
            &&& over.stop == Some(stop)
        }),
{
}

/// How far a run is from its end, by phase.
pub open spec fn phase_rank(phase: Phase) -> nat {
    match phase {
        Phase::Step => 8,
        Phase::Gap => 7,
        Phase::Begin => 6,
        Phase::Short => 5,
        Phase::Pause { .. } => 4,
        Phase::Dwell => 3,
        Phase::Give => 2,
        Phase::Tail => 1,
        Phase::Over => 0,
    }
}

/// Whether a run is nearer its end than another: fewer steps, or the same step
/// further on.
pub open spec fn nearer_the_end(later: RunView, earlier: RunView) -> bool {
    ||| later.steps.len() < earlier.steps.len()
    ||| later.steps.len() == earlier.steps.len() && begun_rank(later) < begun_rank(earlier)
    ||| later.steps.len() == earlier.steps.len() && begun_rank(later) == begun_rank(earlier) && (
    later.inputs.len() < earlier.inputs.len() || later.inputs.len() == earlier.inputs.len()
        && phase_rank(later.phase) < phase_rank(earlier.phase))
}

/// Whether the current step was begun, counted down.
pub open spec fn begun_rank(run: RunView) -> nat {
    match run.phase {
        Phase::Step | Phase::Gap | Phase::Begin | Phase::Short => 2,
        Phase::Tail | Phase::Over => 0,
        _ => 1,
    }
}

/// One thing done in a run whose guest never stops: an input, or a stretch that is run
/// to its end.
pub open spec fn ticked(run: RunView) -> (RunView, ActionView) {
    let (next, action) = run.advanced();
    match action {
        ActionView::Run(cycles) => (
            next.told(cycles, StopView::CycleLimit { requested: cycles }),
            action,
        ),
        _ => (next, action),
    }
}

/// The inputs that a guest which never stops is given until the run ends, each with the
/// cycles that were run before it.
pub open spec fn given_in(run: RunView) -> Seq<(int, Input)>
    decreases run.steps.len(), begun_rank(run), run.inputs.len(), phase_rank(run.phase),
    when run.wf() && !run.running()
{
    if run.phase is Over {
        Seq::empty()
    } else {
        let (next, action) = ticked(run);
        match action {
            ActionView::Give(input) => seq![(run.spent as int, input)] + given_in(next),
            ActionView::Fail(_) => Seq::empty(),
            _ => given_in(next),
        }
    }
}

/// The longer of a pause and the shortest one.
pub open spec fn at_least_a_thousand(cycles: u64) -> int {
    if cycles < 1_000 {
        1_000
    } else {
        cycles as int
    }
}

/// What a step has to give, each input with the pause behind it: the scancodes of its
/// text one by one, or the packets of its action, a click's press being held.
pub open spec fn inputs_owed(event: EventView, buttons: u8, pace: Pace) -> Seq<(Input, int)> {
    match event {
        EventView::Keys(text) => key_groups(text)->Ok_0.flatten().map_values(
            |code: u8| (Input::Key(code), at_least_a_thousand(pace.key)),
        ),
        EventView::Mouse(action) => action_packets(action, buttons).map_values(
            |packet: MousePacket|
                (
                    Input::Mouse(packet),
                    at_least_a_thousand(
                        if packet.dwell_ms == 100 {
                            pace.click
                        } else {
                            pace.packet
                        },
                    ),
                ),
        ),
    }
}

/// The cycle at which inputs that begin at `at` are over: every one has its pause.
pub open spec fn over_at(at: int, owed: Seq<(Input, int)>) -> int
    decreases owed.len(),
{
    if owed.len() == 0 {
        at
    } else {
        over_at(at + owed[0].1, owed.drop_first())
    }
}

/// Inputs that begin at `at`, each with its cycle.
pub open spec fn timed(at: int, owed: Seq<(Input, int)>) -> Seq<(int, Input)>
    decreases owed.len(),
{
    if owed.len() == 0 {
        Seq::empty()
    } else {
        seq![(at, owed[0].0)] + timed(at + owed[0].1, owed.drop_first())
    }
}

/// The cycle at which a step begins: its offset, or later where the inputs before it take
/// longer.
pub open spec fn begins_at(spent: int, step: StepView) -> int {
    if spent < step.at_cycles {
        step.at_cycles as int
    } else {
        spent
    }
}

/// What a schedule owes from `spent` on: all inputs of all steps, one step after the
/// other, each with its cycle.
pub open spec fn schedule_owes(
    spent: int,
    steps: Seq<StepView>,
    buttons: u8,
    pace: Pace,
) -> Seq<(int, Input)>
    decreases steps.len(),
{
    if steps.len() == 0 {
        Seq::empty()
    } else {
        let owed = inputs_owed(steps[0].event, buttons, pace);
        let at = begins_at(spent, steps[0]);
        timed(at, owed) + schedule_owes(
            over_at(at, owed),
            steps.drop_first(),
            buttons_then(steps[0].event, buttons),
            pace,
        )
    }
}

/// The buttons that are down behind a step.
pub open spec fn buttons_then(event: EventView, buttons: u8) -> u8 {
    match event {
        EventView::Keys(_) => buttons,
        EventView::Mouse(action) => buttons_after(action, buttons),
    }
}

/// The cycle at which a schedule is over.
pub open spec fn schedule_over_at(
    spent: int,
    steps: Seq<StepView>,
    buttons: u8,
    pace: Pace,
) -> int
    decreases steps.len(),
{
    if steps.len() == 0 {
        spent
    } else {
        schedule_over_at(
            over_at(
                begins_at(spent, steps[0]),
                inputs_owed(steps[0].event, buttons, pace),
            ),
            steps.drop_first(),
            buttons_then(steps[0].event, buttons),
            pace,
        )
    }
}

/// Whether every text of a schedule can be typed.
pub open spec fn typable(steps: Seq<StepView>) -> bool {
    forall|i: int|
        0 <= i < steps.len() ==> ((#[trigger] steps[i]).event matches EventView::Keys(text)
            ==> key_groups(text) is Ok)
}

/// Inputs with their pauses, without what else the run keeps of them.
spec fn owed_of(inputs: Seq<PacedInput>) -> Seq<(Input, int)> {
    inputs.map_values(|p: PacedInput| (p.input, p.dwell as int))
}

/// The inputs of key groups are their codes, one group after the other.
proof fn lemma_key_inputs_are_owed(groups: Seq<Seq<u8>>, n: int, pace: Pace)
    requires
        0 <= n <= groups.len(),
    ensures
        owed_of(key_inputs(groups, n, dwell(pace.key))) == groups.skip(n).flatten().map_values(
            |code: u8| (Input::Key(code), at_least_a_thousand(pace.key)),
        ),
    decreases groups.len() - n,
{
    let pause = dwell(pace.key);
    let owe = |code: u8| (Input::Key(code), at_least_a_thousand(pace.key));
    if n < groups.len() {
        let rest = groups.skip(n);
        lemma_key_inputs_are_owed(groups, n + 1, pace);
        assert(rest.drop_first() =~= groups.skip(n + 1));
        assert(rest.flatten() =~= groups[n] + groups.skip(n + 1).flatten());
        let here = groups[n].map_values(
            |code: u8| PacedInput { input: Input::Key(code), dwell: pause },
        );
        assert(owed_of(key_inputs(groups, n, pause)) =~= owed_of(here) + owed_of(
            key_inputs(groups, n + 1, pause),
        ));
        assert(rest.flatten().map_values(owe) =~= groups[n].map_values(owe) + groups.skip(
            n + 1,
        ).flatten().map_values(owe));
        assert(owed_of(here) =~= groups[n].map_values(owe));
    } else {
        assert(groups.skip(n) =~= Seq::empty());
        assert(owed_of(key_inputs(groups, n, pause)) =~= groups.skip(n).flatten().map_values(owe));
    }
}

/// A step that is begun has what it owes ready.
proof fn lemma_begun_has_what_is_owed(run: RunView)
    requires
        run.steps.len() > 0,
        typable(run.steps),
    ensures
        run.begun().1 is Proceed,
        run.begun().0 == (RunView {
            inputs: run.begun().0.inputs,
            buttons: buttons_then(run.steps[0].event, run.buttons),
            phase: Phase::Give,
            ..run
        }),
        owed_of(run.begun().0.inputs) == inputs_owed(run.steps[0].event, run.buttons, run.pace),
{
    match run.steps[0].event {
        EventView::Keys(text) => {
            assert(key_groups(text) is Ok);
            let groups = key_groups(text)->Ok_0;
            lemma_key_inputs_are_owed(groups, 0, run.pace);
            assert(groups.skip(0) =~= groups);
        },
        EventView::Mouse(action) => {
            assert(owed_of(run.begun().0.inputs) =~= inputs_owed(
                run.steps[0].event,
                run.buttons,
                run.pace,
            ));
        },
    }
}

/// Inputs are over no earlier than they begin.
proof fn lemma_over_later(at: int, inputs: Seq<PacedInput>)
    ensures
        at <= over_at(at, owed_of(inputs)),
    decreases inputs.len(),
{
    if inputs.len() > 0 {
        let owed = owed_of(inputs);
        assert(owed.drop_first() =~= owed_of(inputs.drop_first()));
        lemma_over_later(at + owed[0].1, inputs.drop_first());
    }
}

/// A schedule is over no earlier than it begins.
proof fn lemma_schedule_over_later(spent: int, steps: Seq<StepView>, buttons: u8, pace: Pace)
    requires
        typable(steps),
    ensures
        spent <= schedule_over_at(spent, steps, buttons, pace),
    decreases steps.len(),
{
    if steps.len() > 0 {
        let owed = inputs_owed(steps[0].event, buttons, pace);
        let at = begins_at(spent, steps[0]);
        lemma_owed_over_later(at, owed);
        let rest = steps.drop_first();
        assert forall|i: int| 0 <= i < rest.len() implies ((#[trigger] rest[i]).event matches EventView::Keys(text)
            ==> key_groups(text) is Ok) by {
            assert(rest[i] == steps[i + 1]);
        }
        lemma_schedule_over_later(
            over_at(at, owed),
            rest,
            buttons_then(steps[0].event, buttons),
            pace,
        );
    }
}

/// Inputs whose pauses are not negative are over no earlier than they begin.
proof fn lemma_owed_over_later(at: int, owed: Seq<(Input, int)>)
    requires
        forall|i: int| 0 <= i < owed.len() ==> (#[trigger] owed[i]).1 >= 0,
    ensures
        at <= over_at(at, owed),
    decreases owed.len(),
{
    if owed.len() > 0 {
        let rest = owed.drop_first();
        assert forall|i: int| 0 <= i < rest.len() implies (#[trigger] rest[i]).1 >= 0 by {
            assert(rest[i] == owed[i + 1]);
        }
        assert(owed[0].1 >= 0);
        lemma_owed_over_later(at + owed[0].1, rest);
    }
}

/// The inputs of a step that was begun are all given, each at its cycle, and the run goes
/// on behind it.
proof fn lemma_a_step_is_played(run: RunView)
    requires
        run.wf(),
        run.phase is Give,
        over_at(run.spent as int, owed_of(run.inputs)) <= run.budget,
        forall|i: int| 0 <= i < run.inputs.len() ==> (#[trigger] run.inputs[i]).dwell > 0,
    ensures
        ({
            let owed = owed_of(run.inputs);
            let behind = RunView {
                steps: run.steps.drop_first(),
                inputs: Seq::empty(),
                spent: over_at(run.spent as int, owed) as u64,
                phase: Phase::Step,
                ..run
            };
            &&& behind.wf()
            &&& given_in(run) == timed(run.spent as int, owed) + given_in(behind)
        }),
    decreases run.inputs.len(),
{
    let owed = owed_of(run.inputs);
    let behind = RunView {
        steps: run.steps.drop_first(),
        inputs: Seq::empty(),
        spent: over_at(run.spent as int, owed) as u64,
        phase: Phase::Step,
        ..run
    };
    let (next, action) = ticked(run);
    if run.inputs.len() == 0 {
        assert(run.inputs =~= Seq::empty());
        assert(next == behind);
        assert(given_in(run) == given_in(behind));
        assert(timed(run.spent as int, owed) + given_in(behind) =~= given_in(behind));
    } else {
        let first = run.inputs[0];
        let rest = run.inputs.drop_first();
        assert(owed.drop_first() =~= owed_of(rest));
        assert(owed[0] == (first.input, first.dwell as int));
        lemma_over_later(run.spent + first.dwell, rest);
        assert(next == (RunView {
            inputs: rest,
            phase: Phase::Pause { dwell: first.dwell },
            ..run
        }));
        assert(given_in(run) == seq![(run.spent as int, first.input)] + given_in(next));
        assert(next.afford(first.dwell) == first.dwell);
        let later = RunView {
            inputs: rest,
            spent: (run.spent + first.dwell) as u64,
            phase: Phase::Give,
            ..run
        };
        assert(ticked(next).0 == later);
        assert(given_in(next) == given_in(later));
        assert forall|i: int| 0 <= i < rest.len() implies (#[trigger] rest[i]).dwell > 0 by {
            assert(rest[i] == run.inputs[i + 1]);
        }
        lemma_a_step_is_played(later);
        assert(timed(run.spent as int, owed) == seq![(run.spent as int, first.input)] + timed(
            later.spent as int,
            owed_of(rest),
        ));
        assert(given_in(run) =~= timed(run.spent as int, owed) + given_in(behind));
    }
}

/// A guest that never stops is given every input of every step of the schedule, one step
/// after the other: a step begins at its own offset, or when the one before it is over,
/// and each input waits out the pause of the one before it. Nothing is given twice,
/// nothing is left out, where the budget holds the whole schedule.
pub proof fn law_every_step_is_played(run: RunView)
    requires
        run.wf(),
        run.phase is Step,
        run.inputs.len() == 0,
        typable(run.steps),
        schedule_over_at(run.spent as int, run.steps, run.buttons, run.pace) <= run.budget,
    ensures
        given_in(run) == schedule_owes(run.spent as int, run.steps, run.buttons, run.pace),
    decreases run.steps.len(),
{
    let (next, action) = ticked(run);
    if run.steps.len() == 0 {
        assert(next.phase is Over);
        assert(given_in(next) == Seq::<(int, Input)>::empty());
        assert(given_in(run) == given_in(next));
    } else {
        let step = run.steps[0];
        let owed = inputs_owed(step.event, run.buttons, run.pace);
        let at = begins_at(run.spent as int, step);
        let then = buttons_then(step.event, run.buttons);
        let rest = run.steps.drop_first();
        assert forall|i: int| 0 <= i < rest.len() implies ((#[trigger] rest[i]).event matches EventView::Keys(text)
            ==> key_groups(text) is Ok) by {
            assert(rest[i] == run.steps[i + 1]);
        }
        lemma_schedule_over_later(over_at(at, owed), rest, then, run.pace);
        lemma_owed_over_later(at, owed);
        // The run as it stands when the step is due.
        let due = RunView { spent: at as u64, phase: Phase::Begin, ..run };
        lemma_begun_has_what_is_owed(due);
        lemma_begun_has_what_is_owed(run);
        let begun = due.begun().0;
        if run.spent < step.at_cycles {
            assert(next == due);
            assert(given_in(run) == given_in(due));
            assert(ticked(due).0 == begun);
            assert(given_in(due) == given_in(begun));
        } else {
            assert(next == run.begun().0);
            assert(next == begun);
            assert(given_in(run) == given_in(begun));
        }
        assert forall|i: int| 0 <= i < begun.inputs.len() implies (#[trigger] begun.inputs[i]).dwell
            > 0 by {
            assert(owed_of(begun.inputs)[i].1 == begun.inputs[i].dwell);
            assert(owed[i].1 > 0);
        }
        lemma_a_step_is_played(begun);
        let behind = RunView {
            steps: rest,
            inputs: Seq::empty(),
            spent: over_at(at, owed) as u64,
            buttons: then,
            phase: Phase::Step,
            ..run
        };
        law_every_step_is_played(behind);
    }
}

/// Every schedule comes to its end: whatever the guest does, each thing that is
/// done brings the run nearer to it.
pub proof fn law_every_run_comes_to_its_end(run: RunView, ran: u64, stop: StopView)
    requires
        run.wf(),
    ensures
        !run.running() && !(run.phase is Over) ==> run.advanced().1 is Fail || nearer_the_end(
            run.advanced().0,
            run,
        ),
        run.running() ==> nearer_the_end(run.told(ran, stop), run),
{
}

/// The slice is no longer than any observer asks for, and is what one of them asks for or
/// one cycle; there is none without observers.
pub proof fn law_the_shortest_observer_is_heard(capture: Option<u64>, dumper: Option<u64>)
    ensures
        observed_slice(capture, dumper) is None <==> capture is None && dumper is None,
        observed_slice(capture, dumper) is Some ==> observed_slice(capture, dumper)->0 >= 1,
        capture is Some && capture->0 > 0 ==> observed_slice(capture, dumper)->0 <= capture->0,
        dumper is Some && dumper->0 > 0 ==> observed_slice(capture, dumper)->0 <= dumper->0,
        observed_slice(capture, dumper) is Some ==> observed_slice(capture, dumper) == capture
            || observed_slice(capture, dumper) == dumper || observed_slice(capture, dumper)->0 == 1,
        capture is Some && dumper is Some && capture->0 > 1 && dumper->0 > 1 ==> observed_slice(
            capture,
            dumper,
        )->0 > 1,
{
}

/// What was run is never more than was asked for; all of it counts unless the guest stopped
/// for good, and then what the clock moved.
pub proof fn law_what_was_run_counts(asked: u64, clocks: u64, stop: StopView)
    ensures
        run_of(asked, clocks, stop) <= asked,
        stop is CycleLimit ==> run_of(asked, clocks, stop) == asked,
        !(stop is CycleLimit) && clocks <= asked ==> run_of(asked, clocks, stop) == clocks,
        !(stop is CycleLimit) && clocks > asked ==> run_of(asked, clocks, stop) == asked,
{
}

/// A step with a text that cannot be typed fails when it is due, says why, and ends the run
/// with no input given.
pub proof fn law_a_text_that_cannot_be_typed_fails(run: RunView, text: Seq<char>)
    requires
        run.phase is Step || run.phase is Begin,
        run.steps.len() > 0,
        run.steps[0].at_cycles <= run.spent,
        run.steps[0].event == EventView::Keys(text),
        key_groups(text) is Err,
    ensures
        run.advanced().1 == ActionView::Fail(key_groups(text)->Err_0),
        run.advanced().0.advanced().1 is Finished,
        run.advanced().0.spent == run.spent,
{
}

/// Where no step is left, and where none can be reached any more, the guest runs what is
/// left of the budget in one stretch, and the run ends as that stretch does.
pub proof fn law_what_is_left_is_run_at_the_end(run: RunView, ran: u64, stop: StopView)
    requires
        run.wf(),
        run.phase is Short || (run.phase is Step && run.steps.len() == 0),
        ran <= run.left(),
    ensures
        run.advanced().1 == ActionView::Run((run.budget - run.spent) as u64),
        run.advanced().0.told(ran, stop).stop == Some(stop),
        run.advanced().0.told(ran, stop).spent == run.spent + ran,
        run.advanced().0.told(ran, stop).advanced().1 is Finished,
{
}

/// The guest runs exactly as far as the next step where the budget reaches it, and on to the
/// end of the budget where it does not; a step that is due is begun at once.
pub proof fn law_a_gap_ends_at_the_step(run: RunView)
    requires
        run.wf(),
        run.phase is Step,
        run.steps.len() > 0,
    ensures
        run.steps[0].at_cycles > run.spent && run.spent < run.budget ==> run.advanced().1
            == ActionView::Run(
            (if run.steps[0].at_cycles <= run.budget {
                run.steps[0].at_cycles - run.spent
            } else {
                run.budget - run.spent
            }) as u64,
        ) && run.advanced().0.phase is Gap,
        run.steps[0].at_cycles <= run.spent ==> !(run.advanced().1 is Run),
        run.advanced().0.steps == run.steps,
{
}

} // verus!
