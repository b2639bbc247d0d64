//! The turn state machine of one puzzle session: which phase the simulation
//! is in, what a command does to it, and what happens when a phase is
//! carried out.

use vstd::prelude::*;
use crate::grid::Grid;
use crate::iterations::{reaches, rewound, stepped, GridIterations};
use crate::picker::{next_choice, ColorPickerButton};
use crate::pool::{calculate_color_pool, pool_choices, pool_codes, pooled_rules};
use crate::rule::{default_rule, painted, unmarked, with_slot, Rule};
use crate::rules::{rule_of, PlayerRules};
use crate::side::is_square;
use crate::tile::Tile;

verus! {

/// The phase of the simulation.
#[derive(Copy, Clone, Eq, PartialEq, Hash, Debug, Structural)]
pub enum IterationState {
    /// Nothing is pending; the next command decides.
    Ready,
    /// A step has been asked for and is carried out next.
    Simulating,
    /// The last generation is on display; the win condition is evaluated
    /// when the display is done.
    Displaying,
    /// A reset has been asked for and is carried out next.
    Reset,
}

/// What the player or the timer asks of the simulation.
#[derive(Copy, Clone, Eq, PartialEq, Debug, Structural)]
pub enum Command {
    /// Advance by one generation.
    Step,
    /// Go back to the puzzle as loaded.
    Reset,
    /// Switch auto-run on or off.
    ToggleAuto,
    /// The auto-run timer has fired.
    Tick,
}

/// One puzzle session: the history with its goal, the rules, the phase and
/// the three flags.
pub struct Session {
    /// The generations, the goal and the cap.
    pub iterations: GridIterations,
    /// The player's rules and the colour pool.
    pub rules: PlayerRules,
    /// The phase.
    pub state: IterationState,
    /// Set once the goal has been reached; cleared by a reset.
    pub victory: bool,
    /// Set while a step is in flight: rule edits are ignored.
    pub disable_controls: bool,
    /// Set while auto-run is switched on.
    pub automatic: bool,
}

/// A session as plain values.
pub struct SessionView {
    pub history: Seq<Seq<u8>>,
    pub goal: Seq<u8>,
    pub max: usize,
    pub rules: Map<Tile, Rule>,
    pub color_pool: Seq<Option<Tile>>,
    pub state: IterationState,
    pub victory: bool,
    pub disable_controls: bool,
    pub automatic: bool,
}

/// The session with rules and colour pool brought in line with the last
/// generation and the goal.
pub open spec fn refreshed(v: SessionView) -> SessionView {
    let codes = pool_codes(v.history.last(), v.goal);
    SessionView { rules: pooled_rules(v.rules, codes), color_pool: pool_choices(codes), ..v }
}

/// The session after a puzzle has been loaded: the history is the puzzle
/// alone, and a reset is pending.
pub open spec fn loaded(v: SessionView, initial: Seq<u8>, goal: Seq<u8>) -> SessionView {
    refreshed(SessionView { history: seq![initial], goal, state: IterationState::Reset, ..v })
}

/// Carrying out `Simulating`: one generation is appended and goes on
/// display. After a win the simulation is frozen and nothing is appended.
pub open spec fn simulated(v: SessionView) -> SessionView {
    if v.victory {
        SessionView { state: IterationState::Displaying, ..v }
    } else {
        refreshed(
            SessionView {
                history: stepped(v.history, v.rules),
                state: IterationState::Displaying,
                ..v
            },
        )
    }
}

/// Carrying out `Reset`: the history is cut back to the puzzle as loaded,
/// all three flags are cleared, and the puzzle goes on display.
pub open spec fn reset_done(v: SessionView) -> SessionView {
    refreshed(
        SessionView {
            history: rewound(v.history),
            state: IterationState::Displaying,
            victory: false,
            disable_controls: false,
            automatic: false,
            ..v
        },
    )
}

/// Finishing `Displaying`: the win condition is evaluated. Reaching the goal
/// sets the victory flag and halts auto-run. Either way the step is no
/// longer in flight and the session is ready for the next command.
pub open spec fn displayed(v: SessionView) -> SessionView {
    let won = reaches(v.history, v.goal);
    SessionView {
        state: IterationState::Ready,
        victory: v.victory || won,
        disable_controls: false,
        automatic: v.automatic && !won,
        ..v
    }
}

/// The session once a display that is still on has been finished.
pub open spec fn display_left(v: SessionView) -> SessionView {
    if v.state == IterationState::Displaying {
        displayed(v)
    } else {
        v
    }
}

/// Carrying out the present phase.
pub open spec fn advanced(v: SessionView) -> SessionView {
    match v.state {
        IterationState::Ready => v,
        IterationState::Simulating => simulated(v),
        IterationState::Displaying => displayed(v),
        IterationState::Reset => reset_done(v),
    }
}

/// Carrying out phases until the session is ready again.
pub open spec fn settled(v: SessionView) -> SessionView {
    advanced(advanced(advanced(v)))
}

/// Whether the auto-run timer is ignored: auto-run is off, the puzzle is
/// won, or a step is in flight.
pub open spec fn tick_suspended(v: SessionView) -> bool {
    ||| !v.automatic
    ||| v.victory
    ||| v.disable_controls
}

/// What a command does to the session, before any phase is carried out.
///
/// A step is ignored after a win; otherwise it halts auto-run, locks the
/// controls and makes `Simulating` the phase. A reset makes `Reset` the
/// phase. The timer, unless suspended, switches auto-run off at the
/// generation cap and asks for a step below it. A command that moves on from
/// a display finishes that display first.
pub open spec fn commanded(v: SessionView, command: Command) -> SessionView {
    match command {
        Command::Step => {
            let w = display_left(v);
            if w.victory {
                w
            } else {
                SessionView {
                    state: IterationState::Simulating,
                    disable_controls: true,
                    automatic: false,
                    ..w
                }
            }
        },
        Command::Reset => SessionView { state: IterationState::Reset, ..v },
        Command::ToggleAuto => SessionView { automatic: !v.automatic, ..v },
        Command::Tick => {
            if tick_suspended(v) {
                v
            } else {
                let w = display_left(v);
                if w.victory {
                    w
                } else if w.history.len() >= w.max {
                    SessionView { automatic: false, ..w }
                } else {
                    SessionView { state: IterationState::Simulating, disable_controls: true, ..w }
                }
            }
        },
    }
}

/// A command followed by the phases it sets off.
pub open spec fn ran(v: SessionView, command: Command) -> SessionView {
    settled(commanded(v, command))
}

/// A rule edit as the session sees it: ignored while the controls are
/// locked.
pub open spec fn edited(v: SessionView, rules: Map<Tile, Rule>) -> SessionView {
    if v.disable_controls {
        v
    } else {
        SessionView { rules, ..v }
    }
}

/// The session after `times` firings of the auto-run timer, each followed
/// by the phases it sets off.
pub open spec fn ticked(v: SessionView, times: nat) -> SessionView
    decreases times,
{
    if times == 0 {
        v
    } else {
        ran(ticked(v, (times - 1) as nat), Command::Tick)
    }
}

/// Victory is sticky. Once the flag is set, no command but a reset, and no
/// phase but a pending reset, clears it; and the history stays as it is,
/// since stepping is frozen.
pub proof fn lemma_victory_sticky(v: SessionView, command: Command)
    requires
        v.victory,
        v.state != IterationState::Reset,
        command != Command::Reset,
    ensures
        commanded(v, command).victory,
        commanded(v, command).history == v.history,
        advanced(v).victory,
        advanced(v).history == v.history,
        ran(v, command).victory,
        ran(v, command).history == v.history,
{
}

/// Victory is reached. Finishing the display of a generation that is the
/// goal sets the flag and halts auto-run.
pub proof fn lemma_victory_reached(v: SessionView)
    requires
        v.state == IterationState::Displaying,
        reaches(v.history, v.goal),
    ensures
        advanced(v).victory,
        !advanced(v).automatic,
        advanced(v).state == IterationState::Ready,
{
}

/// A step taken from a ready, unwon session appends exactly one generation
/// and sets the victory flag exactly when that generation is the goal.
pub proof fn lemma_step_outcome(v: SessionView)
    requires
        v.state == IterationState::Ready,
        !v.victory,
    ensures
        ran(v, Command::Step).history == stepped(v.history, v.rules),
        ran(v, Command::Step).victory == reaches(stepped(v.history, v.rules), v.goal),
        ran(v, Command::Step).state == IterationState::Ready,
        !ran(v, Command::Step).disable_controls,
{
}

/// A reset leaves the puzzle as loaded, clears auto-run and the control
/// lock, and leaves the victory flag set only if the puzzle as loaded is
/// already the goal.
pub proof fn lemma_reset_outcome(v: SessionView)
    ensures
        ran(v, Command::Reset).history == rewound(v.history),
        ran(v, Command::Reset).victory == reaches(rewound(v.history), v.goal),
        ran(v, Command::Reset).state == IterationState::Ready,
        !ran(v, Command::Reset).disable_controls,
        !ran(v, Command::Reset).automatic,
{
}

/// Resetting twice is resetting once.
pub proof fn lemma_reset_twice(v: SessionView)
    ensures
        ran(ran(v, Command::Reset), Command::Reset) == ran(v, Command::Reset),
{
    let once = ran(v, Command::Reset);
    let twice = ran(once, Command::Reset);
    crate::iterations::lemma_reset_idempotent(v.history);
    let codes = pool_codes(rewound(v.history).last(), v.goal);
    crate::pool::lemma_pooled_twice(v.rules, codes);
    assert(once.history == rewound(v.history));
    assert(twice.history == once.history);
    assert(twice.rules == once.rules);
}

/// What the timer does when it is not suspended and no display is on: at
/// the generation cap it switches auto-run off and asks for nothing; below
/// the cap it asks for a step and locks the controls, and auto-run stays on.
/// This holds whatever phase is pending, a reset included.
pub proof fn lemma_tick_outcome(v: SessionView)
    requires
        !tick_suspended(v),
        v.state != IterationState::Displaying,
    ensures
        v.history.len() >= v.max ==> commanded(v, Command::Tick) == (SessionView {
            automatic: false,
            ..v
        }),
        v.history.len() < v.max ==> commanded(v, Command::Tick) == (SessionView {
            state: IterationState::Simulating,
            disable_controls: true,
            ..v
        }),
{
}

/// The auto-run cap. A firing of the timer on a session with no command
/// pending either leaves the history as it is or appends one generation
/// without passing the cap.
pub proof fn lemma_tick_capped(v: SessionView)
    requires
        v.state == IterationState::Ready || v.state == IterationState::Displaying,
    ensures
        ran(v, Command::Tick).max == v.max,
        ran(v, Command::Tick).state == IterationState::Ready,
        ran(v, Command::Tick).history == v.history || (ran(v, Command::Tick).history == stepped(
            v.history,
            v.rules,
        ) && ran(v, Command::Tick).history.len() <= v.max),
{
}

/// Auto-run never passes the cap: however often the timer fires on a ready
/// session whose history is within the cap, the history stays within it.
pub proof fn lemma_auto_run_capped(v: SessionView, times: nat)
    requires
        v.state == IterationState::Ready,
        v.history.len() <= v.max,
    ensures
        ticked(v, times).history.len() <= v.max,
        ticked(v, times).max == v.max,
        ticked(v, times).state == IterationState::Ready,
    decreases times,
{
    if times > 0 {
        lemma_auto_run_capped(v, (times - 1) as nat);
        lemma_tick_capped(ticked(v, (times - 1) as nat));
    }
}

impl Default for IterationState {
    fn default() -> (state: IterationState)
        ensures
            state == IterationState::Ready,
    {
        IterationState::Ready
    }
}

impl View for Session {
    type V = SessionView;

    open spec fn view(&self) -> SessionView {
        SessionView {
            history: self.iterations.history(),
            goal: self.iterations.goal@,
            max: self.iterations.max,
            rules: self.rules@,
            color_pool: self.rules.color_pool@,
            state: self.state,
            victory: self.victory,
            disable_controls: self.disable_controls,
            automatic: self.automatic,
        }
    }
}

impl Default for Session {
    fn default() -> (session: Session)
        ensures
            session@.history == Seq::<Seq<u8>>::empty(),
            session@.goal == Seq::<u8>::empty(),
            session@.max == 50,
            session@.rules == Map::<Tile, Rule>::empty(),
            session@.color_pool == Seq::<Option<Tile>>::empty(),
            session@.state == IterationState::Ready,
            !session@.victory,
            !session@.disable_controls,
            !session@.automatic,
            session.rules.keys_in_palette(),
    {
        Session {
            iterations: GridIterations::default(),
            rules: PlayerRules::default(),
            state: IterationState::Ready,
            victory: false,
            disable_controls: false,
            automatic: false,
        }
    }
}

impl Session {
    /// Whether a puzzle is loaded.
    pub open spec fn is_loaded(&self) -> bool {
        self@.history.len() > 0
    }

    /// Loads a puzzle. The rules stay, brought in line with the new colour
    /// pool, and a reset is pending.
    pub fn load(&mut self, initial: Grid, goal: Grid)
        requires
            initial@.len() == goal@.len(),
            is_square(initial@.len()),
        ensures
            final(self)@ == loaded(old(self)@, initial@, goal@),
            final(self).is_loaded(),
            old(self).rules.keys_in_palette() ==> final(self).rules.keys_in_palette(),
    {
        self.iterations.load(initial, goal);
        calculate_color_pool(&self.iterations, &mut self.rules);
        self.state = IterationState::Reset;
    }

    /// Takes a command. No phase is carried out yet.
    pub fn command(&mut self, command: Command)
        ensures
            final(self)@ == commanded(old(self)@, command),
            old(self).is_loaded() ==> final(self).is_loaded(),
            old(self).rules.keys_in_palette() ==> final(self).rules.keys_in_palette(),
    {
        match command {
            Command::Step => {
                self.leave_display();
                if !self.victory {
                    self.state = IterationState::Simulating;
                    self.disable_controls = true;
                    self.automatic = false;
                }
            },
            Command::Reset => {
                self.state = IterationState::Reset;
            },
            Command::ToggleAuto => {
                self.automatic = !self.automatic;
            },
            Command::Tick => {
                let suspended = !self.automatic || self.victory || self.disable_controls;
                if !suspended {
                    self.leave_display();
                    if !self.victory {
                        if self.iterations.at_cap() {
                            self.automatic = false;
                        } else {
                            self.state = IterationState::Simulating;
                            self.disable_controls = true;
                        }
                    }
                }
            },
        }
    }

    /// Carries out the present phase and moves on to the next.
    pub fn advance(&mut self)
        requires
            old(self).is_loaded(),
        ensures
            final(self)@ == advanced(old(self)@),
            final(self).is_loaded(),
            old(self).rules.keys_in_palette() ==> final(self).rules.keys_in_palette(),
    {
        match self.state {
            IterationState::Ready => {},
            IterationState::Simulating => {
                if !self.victory {
                    self.iterations.step(&self.rules);
                    calculate_color_pool(&self.iterations, &mut self.rules);
                }
                self.state = IterationState::Displaying;
            },
            IterationState::Displaying => {
                self.finish_display();
            },
            IterationState::Reset => {
                self.iterations.reset();
                self.victory = false;
                self.disable_controls = false;
                self.automatic = false;
                calculate_color_pool(&self.iterations, &mut self.rules);
                self.state = IterationState::Displaying;
            },
        }
    }

    /// Carries out phases until the session is ready for the next command.
    pub fn settle(&mut self)
        requires
            old(self).is_loaded(),
        ensures
            final(self)@ == settled(old(self)@),
            final(self)@.state == IterationState::Ready,
            final(self).is_loaded(),
            old(self).rules.keys_in_palette() ==> final(self).rules.keys_in_palette(),
    {
        self.advance();
        self.advance();
        self.advance();
    }

    /// Takes a command and carries out the phases it sets off.
    pub fn run(&mut self, command: Command)
        requires
            old(self).is_loaded(),
        ensures
            final(self)@ == ran(old(self)@, command),
            final(self)@.state == IterationState::Ready,
            final(self).is_loaded(),
            old(self).rules.keys_in_palette() ==> final(self).rules.keys_in_palette(),
    {
        self.command(command);
        self.settle();
    }

    /// Evaluates the win condition at the end of a display.
    fn finish_display(&mut self)
        ensures
            final(self)@ == displayed(old(self)@),
            final(self).rules == old(self).rules,
    {
        if self.iterations.is_solved() {
            self.victory = true;
            self.automatic = false;
        }
        self.disable_controls = false;
        self.state = IterationState::Ready;
    }

    /// Finishes a display that is still on.
    fn leave_display(&mut self)
        ensures
            final(self)@ == display_left(old(self)@),
            final(self).rules == old(self).rules,
    {
        if self.state == IterationState::Displaying {
            self.finish_display();
        }
    }

    /// Mask toggle of a paint gesture on the rule of `tile`. Ignored while
    /// the controls are locked.
    pub fn paint_mask(&mut self, tile: Tile, index: usize)
        requires
            index < 8,
        ensures
            final(self)@ == edited(
                old(self)@,
                match rule_of(old(self)@.rules, tile) {
                    Some(rule) => old(self)@.rules.insert(tile, painted(rule, index as int)),
                    None => old(self)@.rules,
                },
            ),
            old(self).rules.keys_in_palette() ==> final(self).rules.keys_in_palette(),
    {
        if !self.disable_controls {
            self.rules.paint_mask(tile, index);
        }
    }

    /// End of a paint gesture. Ignored while the controls are locked.
    pub fn end_painting(&mut self)
        ensures
            final(self)@ == edited(
                old(self)@,
                old(self)@.rules.map_values(|rule: Rule| unmarked(rule)),
            ),
            old(self).rules.keys_in_palette() ==> final(self).rules.keys_in_palette(),
    {
        if !self.disable_controls {
            self.rules.clear_changed();
        }
    }

    /// Inversion toggle on the rule of `tile`. Ignored while the controls
    /// are locked.
    pub fn toggle_invert(&mut self, tile: Tile)
        ensures
            final(self)@ == edited(
                old(self)@,
                match rule_of(old(self)@.rules, tile) {
                    Some(rule) => old(self)@.rules.insert(
                        tile,
                        Rule { invert: !rule.invert, ..rule },
                    ),
                    None => old(self)@.rules,
                },
            ),
            old(self).rules.keys_in_palette() ==> final(self).rules.keys_in_palette(),
    {
        if !self.disable_controls {
            self.rules.toggle_invert(tile);
        }
    }

    /// Puts the rule of `tile` back to the default. Ignored while the
    /// controls are locked.
    pub fn reset_rule(&mut self, tile: Tile)
        ensures
            final(self)@ == edited(
                old(self)@,
                match rule_of(old(self)@.rules, tile) {
                    Some(_) => old(self)@.rules.insert(tile, default_rule()),
                    None => old(self)@.rules,
                },
            ),
            old(self).rules.keys_in_palette() ==> final(self).rules.keys_in_palette(),
    {
        if !self.disable_controls {
            self.rules.reset_rule(tile);
        }
    }

    /// A press on a colour picker. Where the picker's tile has a rule and its
    /// slot is one of the three, the picker moves on to the next choice of
    /// the colour pool and the rule's slot takes that choice. Ignored while
    /// the controls are locked. The colour pool is read only where the
    /// press takes effect, and must then hold a choice.
    pub fn pick(&mut self, button: &mut ColorPickerButton)
        requires
            picks(old(self)@, *old(button)) ==> old(self)@.color_pool.len() > 0,
        ensures
            final(button).tile == old(button).tile,
            final(button).index == old(button).index,
            picks(old(self)@, *old(button)) ==> {
                &&& final(button).color == next_choice(old(self)@.color_pool, old(button).color)
                &&& final(self)@ == SessionView {
                    rules: old(self)@.rules.insert(
                        old(button).tile,
                        with_slot(
                            old(self)@.rules[old(button).tile],
                            old(button).index as int,
                            final(button).color,
                        ),
                    ),
                    ..old(self)@
                }
            },
            !picks(old(self)@, *old(button)) ==> {
                &&& final(button).color == old(button).color
                &&& final(self)@ == old(self)@
            },
            old(self).rules.keys_in_palette() ==> final(self).rules.keys_in_palette(),
    {
        if !self.disable_controls && button.index <= 2 && self.rules.has_rule(button.tile) {
            let choice = button.change_color(self.rules.color_pool.as_slice());
            self.rules.set_slot(button.tile, button.index, choice);
        }
    }
}

/// Whether a press on `button` takes effect: the controls are not locked,
/// the button's slot is one of the three, and its tile has a rule.
pub open spec fn picks(v: SessionView, button: ColorPickerButton) -> bool {
    !v.disable_controls && button.index <= 2 && v.rules.contains_key(button.tile)
}

} // verus!
