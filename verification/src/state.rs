//! Interaction state and the draw/input cycle.
//!
//! The dashboard keeps exactly two pieces of state between frames: whether
//! exit was requested and which pane is selected. Key presses drive a small
//! state machine; the run cycle strictly alternates one draw with one input
//! event until exit is requested.

use vstd::prelude::*;

verus! {

/// One decoded key, as the input controller distinguishes them.
#[derive(Clone, Copy, PartialEq, Eq, Structural, Debug)]
pub enum Key {
    Char(char),
    Left,
    Right,
    Other,
}

/// One terminal event: a key press carrying a `Key`, or anything else
/// (key releases, key repeats, resizes), which the controller ignores.
#[derive(Clone, Copy, PartialEq, Eq, Structural, Debug)]
pub enum TermEvent {
    KeyPress(Key),
    Other,
}

/// The interaction state: `exit` is monotonic false-to-true, `curr` is the
/// selected pane index and always stays in `{0, 1, 2}`.
#[derive(Clone, Copy, PartialEq, Eq, Structural, Debug)]
pub struct App {
    pub exit: bool,
    pub curr: usize,
}

/// The transition one key press makes: `q` requests exit, the arrow keys
/// move the selected pane index cyclically, anything else is ignored.
pub open spec fn apply_key(s: App, key: Key) -> App {
    match key {
        Key::Char(c) => if c == 'q' {
            App { exit: true, curr: s.curr }
        } else {
            s
        },
        Key::Left => App { exit: s.exit, curr: ((s.curr + 2) % 3) as usize },
        Key::Right => App { exit: s.exit, curr: ((s.curr + 1) % 3) as usize },
        Key::Other => s,
    }
}

/// The transition one terminal event makes: only key presses act.
pub open spec fn apply_event(s: App, ev: TermEvent) -> App {
    match ev {
        TermEvent::KeyPress(k) => apply_key(s, k),
        TermEvent::Other => s,
    }
}

/// The state after running the cycle over a script of events: events are
/// consumed in order, one per cycle, until exit is requested or the script
/// is exhausted.
pub open spec fn run_state(s: App, evs: Seq<TermEvent>) -> App
    decreases evs.len(),
{
    if s.exit || evs.len() == 0 {
        s
    } else {
        run_state(apply_event(s, evs[0]), evs.drop_first())
    }
}

/// How many frames the cycle draws over a script of events: one draw
/// precedes each consumed event, and nothing is drawn once exit holds.
pub open spec fn run_draws(s: App, evs: Seq<TermEvent>) -> nat
    decreases evs.len(),
{
    if s.exit || evs.len() == 0 {
        0nat
    } else {
        1nat + run_draws(apply_event(s, evs[0]), evs.drop_first())
    }
}

impl Default for App {
    /// The state at process start: exit not requested, first pane selected.
    fn default() -> (r: Self)
        ensures
            r.exit == false,
            r.curr == 0,
    {
        App { exit: false, curr: 0 }
    }
}

impl App {
    /// The selected pane index never leaves `{0, 1, 2}`.
    pub open spec fn wf(self) -> bool {
        self.curr < 3
    }

    /// Apply one key press to the interaction state.
    pub fn handle_key_event(&mut self, key: Key)
        requires
            old(self).wf(),
        ensures
            *final(self) == apply_key(*old(self), key),
            final(self).wf(),
    {
        match key {
            Key::Char(c) => {
                if c == 'q' {
                    self.exit = true;
                }
            },
            Key::Left => {
                self.curr = (self.curr + 2) % 3;
            },
            Key::Right => {
                self.curr = (self.curr + 1) % 3;
            },
            Key::Other => {},
        }
    }

    /// Apply one terminal event: a key press is handled, all other events
    /// (releases, repeats, resizes) leave the state unchanged.
    pub fn handle_events(&mut self, event: TermEvent)
        requires
            old(self).wf(),
        ensures
            *final(self) == apply_event(*old(self), event),
            final(self).wf(),
    {
        match event {
            TermEvent::KeyPress(k) => self.handle_key_event(k),
            TermEvent::Other => {},
        }
    }

    /// Drive the cycle over a script of input events: one draw, then one
    /// event, repeated until exit is requested or the script runs out.
    /// Returns how many frames were drawn; painting itself is the caller's
    /// job, performed once before each event is taken.
    pub fn run(&mut self, events: &Vec<TermEvent>) -> (draws: usize)
        requires
            old(self).wf(),
        ensures
            *final(self) == run_state(*old(self), events@),
            draws == run_draws(*old(self), events@),
            final(self).wf(),
    {
        let ghost s0 = *self;
        let ghost evs = events@;
        let mut draws: usize = 0;
        let mut i: usize = 0;
        proof {
            assert(evs.skip(0) =~= evs);
        }
        while !self.exit && i < events.len()
            invariant
                self.wf(),
                i <= evs.len(),
                draws == i,
                events@ == evs,
                run_state(s0, evs) == run_state(*self, evs.skip(i as int)),
                run_draws(s0, evs) == i + run_draws(*self, evs.skip(i as int)),
            decreases evs.len() - i,
        {
            draws = draws + 1;
            let e = events[i];
            i = i + 1;
            proof {
                let rest = evs.skip(i - 1);
                assert(rest[0] == e);
                assert(rest.drop_first() =~= evs.skip(i as int));
            }
            self.handle_events(e);
        }
        draws
    }
}

/// Law: the cycle strictly alternates drawing and input — it draws
/// exactly one frame per event it consumes, never more than the script
/// holds, nothing once exit is requested, and it consumes the whole
/// script whenever exit was never requested along the way.
pub proof fn lemma_run_alternates(s: App, evs: Seq<TermEvent>)
    ensures
        run_draws(s, evs) <= evs.len(),
        s.exit ==> run_draws(s, evs) == 0,
        !run_state(s, evs).exit ==> run_draws(s, evs) == evs.len(),
    decreases evs.len(),
{
    if !s.exit && evs.len() > 0 {
        lemma_run_alternates(apply_event(s, evs[0]), evs.drop_first());
    }
}

/// Law: a quit key press as the very first event makes the cycle draw
/// exactly one frame and stop with exit requested, whatever follows.
pub proof fn lemma_quit_first_event_draws_once(s: App, evs: Seq<TermEvent>)
    requires
        !s.exit,
        evs.len() > 0,
        evs[0] == TermEvent::KeyPress(Key::Char('q')),
    ensures
        run_draws(s, evs) == 1,
        run_state(s, evs).exit,
{
    let s1 = apply_event(s, evs[0]);
    assert(s1.exit);
    assert(run_draws(s1, evs.drop_first()) == 0);
    assert(run_state(s1, evs.drop_first()) == s1);
}

/// Law: every event keeps the selected pane index inside `{0, 1, 2}`, so
/// no input history can drive it out of range.
pub proof fn lemma_selected_index_in_range(s: App, ev: TermEvent)
    requires
        s.wf(),
    ensures
        apply_event(s, ev).wf(),
{
}

/// Law: the "next" key cycles the selected pane index 0 -> 1 -> 2 -> 0:
/// each press adds one modulo three, and three presses return to the start.
pub proof fn lemma_next_cycles(s: App)
    requires
        s.wf(),
    ensures
        apply_key(s, Key::Right).curr == (s.curr + 1) % 3,
        apply_key(apply_key(apply_key(s, Key::Right), Key::Right), Key::Right).curr == s.curr,
{
}

/// Law: the "previous" key cycles the selected pane index 0 -> 2 -> 1 -> 0:
/// each press adds two modulo three, and three presses return to the start.
pub proof fn lemma_prev_cycles(s: App)
    requires
        s.wf(),
    ensures
        apply_key(s, Key::Left).curr == (s.curr + 2) % 3,
        apply_key(apply_key(apply_key(s, Key::Left), Key::Left), Key::Left).curr == s.curr,
{
}

} // verus!
