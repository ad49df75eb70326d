use std::time::Duration;

use vstd::prelude::*;

use crate::animation::{frame_index, Animator};
use crate::clock::{duration_nanos, max_duration_nanos};
use crate::ipc::AppMessage;
use crate::scripting::{Action, EngineError, TimelineEvent};
use crate::state_machine::{next_state, FsmInput, PetState, StateMachine};
use crate::texture::Texture;
use crate::timeline::{clamped_millis, dispatched, is_stable_time_sort, ticked, Timeline};

verus! {

/// An animator position: the action played and how long it has played, in
/// nanoseconds.
pub type Playhead = (Action, nat);

/// The position after asking for `a`: unchanged for the action already
/// playing, otherwise `a` from its start.
pub open spec fn switched(p: Playhead, a: Action) -> Playhead {
    if p.0 == a {
        p
    } else {
        (a, 0)
    }
}

/// The position after asking for each action of `acts` in turn.
pub open spec fn after_switches(p: Playhead, acts: Seq<Action>) -> Playhead
    decreases acts.len(),
{
    if acts.len() == 0 {
        p
    } else {
        switched(after_switches(p, acts.drop_last()), acts.last())
    }
}

/// The actions of a sequence of events.
pub open spec fn actions_of(events: Seq<TimelineEvent>) -> Seq<Action> {
    events.map_values(|e: TimelineEvent| e.action)
}

/// The animator's position.
pub open spec fn playhead(a: Animator) -> Playhead {
    (a.spec_current_action(), a.spec_elapsed_nanos())
}

/// What the window loop holds between frames: the animator, the pet's state
/// machine, the timeline, whether the timeline was finished at the end of
/// the previous step, and the state of the left mouse button (pressed, and
/// whether the press has turned into a drag).
pub struct Stage {
    animator: Animator,
    state_machine: StateMachine,
    timeline: Timeline,
    timeline_was_finished: bool,
    mouse_left_pressed: bool,
    is_dragging: bool,
}

/// How one step of the window loop (`Stage::advance`) changes the stage:
/// the timeline ticks by `delta`; the animator switches to each dispatched
/// event's action in turn; the state machine learns `TimelineFinished` when
/// a loaded script whose end has not been reported yet is finished; and an
/// idle pet whose timeline is finished shows `Idle` on a step that
/// dispatches nothing, so the last action of a script is shown for the step
/// that dispatches it.
pub open spec fn advanced(before: Stage, after: Stage, delta: Duration) -> bool {
    let just_finished = !before.spec_was_finished() && after.spec_timeline().spec_finished();
    let played = after_switches(
        playhead(before.spec_animator()),
        actions_of(dispatched(before.spec_timeline(), after.spec_timeline())),
    );
    let shown = if after.spec_state() == PetState::Idle && after.spec_timeline().spec_finished()
        && dispatched(before.spec_timeline(), after.spec_timeline()).len() == 0 {
        switched(played, Action::Idle)
    } else {
        played
    };
    &&& after.wf()
    &&& ticked(before.spec_timeline(), after.spec_timeline(), delta)
    &&& after.spec_state() == (if just_finished {
        next_state(before.spec_state(), FsmInput::TimelineFinished)
    } else {
        before.spec_state()
    })
    &&& after.spec_was_finished() == after.spec_timeline().spec_finished()
    &&& after.spec_animator().spec_animations() == before.spec_animator().spec_animations()
    &&& playhead(after.spec_animator()) == shown
    &&& after.spec_pressed() == before.spec_pressed()
    &&& after.spec_dragging() == before.spec_dragging()
}

impl Stage {
    pub closed spec fn spec_animator(&self) -> Animator {
        self.animator
    }

    pub closed spec fn spec_state(&self) -> PetState {
        self.state_machine@
    }

    pub closed spec fn spec_timeline(&self) -> Timeline {
        self.timeline
    }

    pub closed spec fn spec_was_finished(&self) -> bool {
        self.timeline_was_finished
    }

    pub closed spec fn spec_pressed(&self) -> bool {
        self.mouse_left_pressed
    }

    pub closed spec fn spec_dragging(&self) -> bool {
        self.is_dragging
    }

    /// The stage's invariant: the timeline is well formed, and a scripted
    /// pet always has a loaded script whose end is still to be reported.
    pub open spec fn wf(&self) -> bool {
        &&& self.spec_timeline().wf()
        &&& self.spec_state() == PetState::Scripted ==> !self.spec_was_finished()
    }

    /// A stage with an idle pet, no script and the mouse released.
    pub fn new(animator: Animator) -> (s: Self)
        ensures
            s.wf(),
            s.spec_animator() == animator,
            s.spec_state() == PetState::Idle,
            s.spec_timeline().spec_events().len() == 0,
            s.spec_timeline().spec_cursor() == 0,
            s.spec_timeline().spec_elapsed_ms() == 0,
            s.spec_timeline().spec_finished(),
            s.spec_was_finished(),
            !s.spec_pressed(),
            !s.spec_dragging(),
    {
        Stage {
            animator,
            state_machine: StateMachine::new(),
            timeline: Timeline::new(),
            timeline_was_finished: true,
            mouse_left_pressed: false,
            is_dragging: false,
        }
    }

    /// Handles one message; returns `false` for `Shutdown`, when the loop
    /// must stop (the stage is then unchanged). A script is loaded into the
    /// timeline and the state machine learns `InjectTimeline`; a model error
    /// makes it learn `LlmError`.
    pub fn receive(&mut self, msg: AppMessage) -> (running: bool)
        requires
            old(self).wf(),
        ensures
            final(self).wf(),
            final(self).spec_animator() == old(self).spec_animator(),
            final(self).spec_pressed() == old(self).spec_pressed(),
            final(self).spec_dragging() == old(self).spec_dragging(),
            match msg {
                AppMessage::InjectTimeline(events) => {
                    let t = final(self).spec_timeline();
                    &&& running
                    &&& final(self).spec_state() == next_state(
                        old(self).spec_state(),
                        FsmInput::InjectTimeline,
                    )
                    &&& is_stable_time_sort(t.spec_events(), events@)
                    &&& t.spec_events().len() == events@.len()
                    &&& t.spec_cursor() == 0
                    &&& t.spec_elapsed_ms() == 0
                    &&& t.spec_finished() == (events@.len() == 0)
                    &&& !final(self).spec_was_finished()
                },
                AppMessage::LlmError(_) => {
                    &&& running
                    &&& final(self).spec_state() == next_state(
                        old(self).spec_state(),
                        FsmInput::LlmError,
                    )
                    &&& final(self).spec_timeline() == old(self).spec_timeline()
                    &&& final(self).spec_was_finished() == old(self).spec_was_finished()
                },
                AppMessage::Shutdown => {
                    &&& !running
                    &&& final(self).spec_state() == old(self).spec_state()
                    &&& final(self).spec_timeline() == old(self).spec_timeline()
                    &&& final(self).spec_was_finished() == old(self).spec_was_finished()
                },
            },
    {
        match msg {
            AppMessage::InjectTimeline(events) => {
                self.timeline.push_events(events);
                self.timeline_was_finished = false;
                self.state_machine.apply(FsmInput::InjectTimeline);
                true
            },
            AppMessage::LlmError(_) => {
                self.state_machine.apply(FsmInput::LlmError);
                true
            },
            AppMessage::Shutdown => false,
        }
    }

    /// One step of the window loop after the messages: ticks the timeline,
    /// plays the actions that came due, reports the timeline's end to the
    /// state machine once, and returns an idle pet to the idle action.
    pub fn advance(&mut self, delta: Duration)
        requires
            old(self).wf(),
            !old(self).spec_timeline().spec_finished() ==> old(
                self,
            ).spec_timeline().spec_elapsed_ms() + clamped_millis(delta) <= u64::MAX,
        ensures
            advanced(*old(self), *final(self), delta),
    {
        let ghost t0 = self.timeline;
        let ghost start = playhead(self.animator);
        let due = self.timeline.tick(delta);
        // The due events borrow the timeline: copy their actions out first.
        let n = due.len();
        let mut actions: Vec<Action> = Vec::new();
        let mut k: usize = 0;
        while k < n
            invariant
                n == due@.len(),
                k <= n,
                actions@.len() == k,
                forall|j: int| 0 <= j < k ==> actions@[j] == (#[trigger] due@[j]).action,
            decreases n - k,
        {
            actions.push(due[k].action);
            k = k + 1;
        }
        let ghost t1 = self.timeline;
        let ghost acts = actions_of(dispatched(t0, self.timeline));
        assert forall|j: int| 0 <= j < n implies actions@[j] == acts[j] by {
            assert(*due@[j] == dispatched(t0, self.timeline)[j]);
            assert(actions@[j] == due@[j].action);
        }
        assert(actions@ =~= acts);
        let mut i: usize = 0;
        assert(acts.take(0) =~= Seq::<Action>::empty());
        while i < n
            invariant
                n == actions@.len(),
                actions@ == acts,
                i <= n,
                self.timeline == t1,
                self.state_machine == old(self).state_machine,
                self.timeline_was_finished == old(self).timeline_was_finished,
                self.mouse_left_pressed == old(self).mouse_left_pressed,
                self.is_dragging == old(self).is_dragging,
                self.animator.spec_animations() == old(self).animator.spec_animations(),
                playhead(self.animator) == after_switches(start, acts.take(i as int)),
            decreases n - i,
        {
            let a = actions[i];
            self.animator.set_action(a);
            assert(acts.take(i + 1).drop_last() =~= acts.take(i as int));
            i = i + 1;
        }
        assert(acts.take(n as int) =~= acts);
        let finished = self.timeline.is_finished();
        let just_finished = !self.timeline_was_finished && finished;
        if just_finished {
            self.state_machine.apply(FsmInput::TimelineFinished);
        }
        self.timeline_was_finished = finished;
        if self.state_machine.state() == PetState::Idle && finished && n == 0 {
            self.animator.set_action(Action::Idle);
        }
    }

    /// Advances the animator by `delta` and returns the frame to draw.
    pub fn frame(&mut self, delta: Duration) -> (r: Result<&Texture, EngineError>)
        requires
            old(self).spec_animator().spec_elapsed_nanos() + duration_nanos(delta)
                <= max_duration_nanos(),
            old(self).spec_animator().spec_animations().contains_key(
                old(self).spec_animator().spec_current_action(),
            ) ==> old(self).spec_animator().spec_animations()[old(
                self,
            ).spec_animator().spec_current_action()].frames@.len() > 0,
        ensures
            final(self).wf() == old(self).wf(),
            final(self).spec_timeline() == old(self).spec_timeline(),
            final(self).spec_state() == old(self).spec_state(),
            final(self).spec_was_finished() == old(self).spec_was_finished(),
            final(self).spec_pressed() == old(self).spec_pressed(),
            final(self).spec_dragging() == old(self).spec_dragging(),
            final(self).spec_animator().spec_animations() == old(
                self,
            ).spec_animator().spec_animations(),
            final(self).spec_animator().spec_current_action() == old(
                self,
            ).spec_animator().spec_current_action(),
            final(self).spec_animator().spec_elapsed_nanos() == old(
                self,
            ).spec_animator().spec_elapsed_nanos() + duration_nanos(delta),
            match r {
                Ok(t) => {
                    let a = final(self).spec_animator();
                    let anim = a.spec_animations()[a.spec_current_action()];
                    &&& a.spec_animations().contains_key(a.spec_current_action())
                    &&& *t == anim.frames@[frame_index(anim, a.spec_elapsed_nanos())]
                },
                Err(e) => {
                    let a = final(self).spec_animator();
                    &&& !a.spec_animations().contains_key(a.spec_current_action())
                    &&& e == EngineError::MissingAnimation(a.spec_current_action())
                },
            },
    {
        self.animator.update(delta)
    }

    /// The left mouse button went down: a new press, not yet a drag.
    pub fn pointer_pressed(&mut self)
        ensures
            old(self).wf() ==> final(self).wf(),
            final(self).spec_pressed(),
            !final(self).spec_dragging(),
            final(self).spec_state() == old(self).spec_state(),
            final(self).spec_animator() == old(self).spec_animator(),
            final(self).spec_timeline() == old(self).spec_timeline(),
            final(self).spec_was_finished() == old(self).spec_was_finished(),
    {
        self.mouse_left_pressed = true;
        self.is_dragging = false;
    }

    /// The left mouse button went up. A press that did not become a drag is
    /// a click: the state machine learns `Click`. Returns whether it was one.
    pub fn pointer_released(&mut self) -> (clicked: bool)
        ensures
            old(self).wf() ==> final(self).wf(),
            clicked == (old(self).spec_pressed() && !old(self).spec_dragging()),
            final(self).spec_state() == (if clicked {
                next_state(old(self).spec_state(), FsmInput::Click)
            } else {
                old(self).spec_state()
            }),
            !final(self).spec_pressed(),
            !final(self).spec_dragging(),
            final(self).spec_animator() == old(self).spec_animator(),
            final(self).spec_timeline() == old(self).spec_timeline(),
            final(self).spec_was_finished() == old(self).spec_was_finished(),
    {
        let clicked = self.mouse_left_pressed && !self.is_dragging;
        if clicked {
            self.state_machine.apply(FsmInput::Click);
        }
        self.mouse_left_pressed = false;
        self.is_dragging = false;
        clicked
    }

    /// Whether pointer motion is being watched for the start of a drag: the
    /// button is down and no drag has started.
    pub fn tracking_pointer(&self) -> (b: bool)
        ensures
            b == (self.spec_pressed() && !self.spec_dragging()),
    {
        self.mouse_left_pressed && !self.is_dragging
    }

    /// The pointer moved while watched; `beyond_threshold` tells whether it is
    /// now farther from where the press started than the drag threshold.
    /// Returns whether a drag starts now; the state machine then learns
    /// `Drag`, which leaves the pet's state as it is.
    pub fn pointer_moved(&mut self, beyond_threshold: bool) -> (drag_started: bool)
        ensures
            old(self).wf() ==> final(self).wf(),
            drag_started == (old(self).spec_pressed() && !old(self).spec_dragging()
                && beyond_threshold),
            final(self).spec_dragging() == (old(self).spec_dragging() || drag_started),
            final(self).spec_pressed() == old(self).spec_pressed(),
            final(self).spec_state() == old(self).spec_state(),
            final(self).spec_animator() == old(self).spec_animator(),
            final(self).spec_timeline() == old(self).spec_timeline(),
            final(self).spec_was_finished() == old(self).spec_was_finished(),
    {
        if self.mouse_left_pressed && !self.is_dragging && beyond_threshold {
            self.is_dragging = true;
            self.state_machine.apply(FsmInput::Drag);
            true
        } else {
            false
        }
    }

    /// Whether `advance(delta)` may be called (see `Timeline::can_tick`).
    pub fn can_advance(&self, delta: &Duration) -> (b: bool)
        ensures
            b == (!self.spec_timeline().spec_finished() ==> self.spec_timeline().spec_elapsed_ms()
                + clamped_millis(*delta) <= u64::MAX),
    {
        self.timeline.can_tick(delta)
    }

    /// Whether `frame(delta)` may be called (see `Animator::can_update`).
    pub fn can_draw(&self, delta: &Duration) -> (b: bool)
        ensures
            b == (self.spec_animator().spec_elapsed_nanos() + duration_nanos(*delta)
                <= max_duration_nanos() && (self.spec_animator().spec_animations().contains_key(
                self.spec_animator().spec_current_action(),
            ) ==> self.spec_animator().spec_animations()[self.spec_animator().spec_current_action()].frames@.len()
                > 0)),
    {
        self.animator.can_update(delta)
    }

    /// The pet's state.
    pub fn state(&self) -> (s: PetState)
        ensures
            s == self.spec_state(),
    {
        self.state_machine.state()
    }

    /// The action the animator plays.
    pub fn current_action(&self) -> (a: Action)
        ensures
            a == self.spec_animator().spec_current_action(),
    {
        self.animator.current_action()
    }

    /// Whether the timeline has dispatched all its events.
    pub fn timeline_finished(&self) -> (b: bool)
        ensures
            b == self.spec_timeline().spec_finished(),
    {
        self.timeline.is_finished()
    }
}

/// An idle pet whose timeline is finished shows the idle action after every
/// step that dispatches nothing.
pub proof fn lemma_finished_idle_pet_shows_idle(before: Stage, after: Stage, delta: Duration)
    requires
        advanced(before, after, delta),
        after.spec_state() == PetState::Idle,
        after.spec_timeline().spec_finished(),
        dispatched(before.spec_timeline(), after.spec_timeline()).len() == 0,
    ensures
        after.spec_animator().spec_current_action() == Action::Idle,
{
}

/// Whenever a scripted pet's script is finished after a step (whether it ran
/// over many steps, ended in the step that loaded it, or was empty), the pet
/// is idle again after that step.
pub proof fn lemma_script_end_returns_to_idle(before: Stage, after: Stage, delta: Duration)
    requires
        before.wf(),
        advanced(before, after, delta),
        before.spec_state() == PetState::Scripted,
        after.spec_timeline().spec_finished(),
    ensures
        after.spec_state() == PetState::Idle,
{
}

/// After a step, a pet whose timeline is finished is never scripted: no
/// finished script leaves the pet waiting in the scripted state.
pub proof fn lemma_finished_timeline_never_scripted(before: Stage, after: Stage, delta: Duration)
    requires
        before.wf(),
        advanced(before, after, delta),
        after.spec_timeline().spec_finished(),
    ensures
        after.spec_state() != PetState::Scripted,
{
}

/// A finished script settles on the idle action: in the step after the one
/// in which a scripted pet's script finishes, the pet is idle and shows the
/// idle action.
pub proof fn lemma_finished_script_settles_on_idle(
    s0: Stage,
    s1: Stage,
    s2: Stage,
    d1: Duration,
    d2: Duration,
)
    requires
        s0.wf(),
        s0.spec_state() == PetState::Scripted,
        advanced(s0, s1, d1),
        s1.spec_timeline().spec_finished(),
        advanced(s1, s2, d2),
    ensures
        s2.spec_state() == PetState::Idle,
        s2.spec_animator().spec_current_action() == Action::Idle,
{
    assert(dispatched(s1.spec_timeline(), s2.spec_timeline()) =~= Seq::<TimelineEvent>::empty());
    assert(actions_of(dispatched(s1.spec_timeline(), s2.spec_timeline())) =~= Seq::<Action>::empty());
}

/// A step that dispatches no event never restarts the action being played:
/// the animator either keeps its action and its elapsed time (so an idle pet
/// keeps animating across steps) or, for an idle pet with a finished
/// timeline, turns to the idle action.
pub proof fn lemma_quiet_step_keeps_playing(before: Stage, after: Stage, delta: Duration)
    requires
        advanced(before, after, delta),
        dispatched(before.spec_timeline(), after.spec_timeline()).len() == 0,
    ensures
        after.spec_animator().spec_current_action() == before.spec_animator().spec_current_action()
            || after.spec_animator().spec_current_action() == Action::Idle,
        after.spec_animator().spec_current_action() == before.spec_animator().spec_current_action()
            ==> after.spec_animator().spec_elapsed_nanos()
            == before.spec_animator().spec_elapsed_nanos(),
        before.spec_animator().spec_current_action() == Action::Idle ==> {
            &&& after.spec_animator().spec_current_action() == Action::Idle
            &&& after.spec_animator().spec_elapsed_nanos()
                == before.spec_animator().spec_elapsed_nanos()
        },
{
    let acts = actions_of(dispatched(before.spec_timeline(), after.spec_timeline()));
    assert(acts =~= Seq::<Action>::empty());
}

/// A step that dispatches events ends on the last of them, whose animation
/// starts from its beginning unless it was already playing.
pub proof fn lemma_step_switches_to_last_action(before: Stage, after: Stage, delta: Duration)
    requires
        advanced(before, after, delta),
        dispatched(before.spec_timeline(), after.spec_timeline()).len() == 1,
    ensures
        after.spec_animator().spec_current_action() == dispatched(
            before.spec_timeline(),
            after.spec_timeline(),
        )[0].action,
        after.spec_animator().spec_elapsed_nanos() == (if before.spec_animator().spec_current_action()
            == after.spec_animator().spec_current_action() {
            before.spec_animator().spec_elapsed_nanos()
        } else {
            0
        }),
{
    let acts = actions_of(dispatched(before.spec_timeline(), after.spec_timeline()));
    let p = playhead(before.spec_animator());
    assert(acts.drop_last() =~= Seq::<Action>::empty());
    assert(after_switches(p, acts.drop_last()) == p);
    assert(acts.last() == dispatched(before.spec_timeline(), after.spec_timeline())[0].action);
    assert(after_switches(p, acts) == switched(p, acts.last()));
}

/// Once a script's end has been reported, later steps report nothing more
/// until a new script is loaded: a step that starts with no pending script
/// leaves the pet's state as it is.
pub proof fn lemma_finish_reported_once(before: Stage, after: Stage, delta: Duration)
    requires
        advanced(before, after, delta),
        before.spec_was_finished(),
    ensures
        after.spec_state() == before.spec_state(),
{
}

/// The animator ends every step that dispatches events on the action of the
/// last of them, so each script action, the last one included, is shown.
pub proof fn lemma_last_dispatched_action_plays(before: Stage, after: Stage, delta: Duration)
    requires
        advanced(before, after, delta),
        dispatched(before.spec_timeline(), after.spec_timeline()).len() > 0,
    ensures
        after.spec_animator().spec_current_action() == dispatched(
            before.spec_timeline(),
            after.spec_timeline(),
        ).last().action,
{
    let acts = actions_of(dispatched(before.spec_timeline(), after.spec_timeline()));
    assert(acts.last() == dispatched(before.spec_timeline(), after.spec_timeline()).last().action);
}

} // verus!
