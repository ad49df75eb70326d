use std::time::Duration;

use vstd::prelude::*;

use crate::clock::{
    checked_sum, duration_from_millis, duration_millis, duration_nanos, max_duration_nanos,
    millis_of, zero_duration,
};
use crate::scripting::{Action, EngineError};
use crate::texture::Texture;

verus! {

/// The frame sequence of one action and how it plays.
#[derive(Clone)]
pub struct Animation {
    pub frames: Vec<Texture>,
    pub frame_duration: Duration,
    pub looped: bool,
}

impl Animation {
    /// An animation over `frames`, each shown for `frame_duration_ms`
    /// milliseconds, looped or one-shot.
    pub fn new(frames: Vec<Texture>, frame_duration_ms: u64, looped: bool) -> (a: Self)
        ensures
            a.frames@ == frames@,
            duration_nanos(a.frame_duration) == frame_duration_ms * 1_000_000,
            duration_millis(a.frame_duration) == frame_duration_ms,
            a.looped == looped,
    {
        Animation { frames, frame_duration: duration_from_millis(frame_duration_ms), looped }
    }
}

/// The length of one frame in whole milliseconds, at least 1.
pub open spec fn frame_millis(anim: Animation) -> nat {
    if duration_millis(anim.frame_duration) >= 1 {
        duration_millis(anim.frame_duration)
    } else {
        1
    }
}

/// How many whole frames fit in `elapsed_nanos`, as a `usize` (the count is
/// truncated to the machine word, as the cast in the code does).
pub open spec fn frames_elapsed(anim: Animation, elapsed_nanos: nat) -> int {
    ((elapsed_nanos / 1_000_000) / frame_millis(anim)) as usize as int
}

/// The frame shown after `elapsed_nanos`: wrapping around for a looped
/// animation, held on the last frame for a one-shot animation.
pub open spec fn frame_index(anim: Animation, elapsed_nanos: nat) -> int {
    let i = frames_elapsed(anim, elapsed_nanos);
    let n = anim.frames@.len() as int;
    if anim.looped {
        i % n
    } else if i < n - 1 {
        i
    } else {
        n - 1
    }
}

/// Frame `k` shows while the elapsed time lies in the `k`-th frame slot,
/// `[k * f, (k + 1) * f)` milliseconds with `f` the frame length (at least
/// 1 ms): a looped animation shows frame `k % n`, and a one-shot animation
/// shows frame `k` if it has one and its last frame afterwards.
pub proof fn lemma_frame_shown_in_slot(anim: Animation, elapsed_nanos: nat, k: nat)
    requires
        anim.frames@.len() > 0,
        k <= usize::MAX,
        k * frame_millis(anim) * 1_000_000 <= elapsed_nanos,
        elapsed_nanos < (k + 1) * frame_millis(anim) * 1_000_000,
    ensures
        frames_elapsed(anim, elapsed_nanos) == k,
        anim.looped ==> frame_index(anim, elapsed_nanos) == (k as int) % (anim.frames@.len() as int),
        !anim.looped && k < anim.frames@.len() ==> frame_index(anim, elapsed_nanos) == k,
        !anim.looped && k >= anim.frames@.len() ==> frame_index(anim, elapsed_nanos)
            == anim.frames@.len() - 1,
{
    let f = frame_millis(anim) as int;
    let e = elapsed_nanos as int;
    let kk = k as int;
    let m = e / 1_000_000;
    assert(kk * f <= m && m < (kk + 1) * f) by (nonlinear_arith)
        requires
            kk * f * 1_000_000 <= e,
            e < (kk + 1) * f * 1_000_000,
            m == e / 1_000_000,
            f >= 1,
            kk >= 0,
    ;
    assert(m / f == kk) by (nonlinear_arith)
        requires
            kk * f <= m,
            m < (kk + 1) * f,
            f >= 1,
            kk >= 0,
    ;
}

/// A one-shot animation holds its last frame once the elapsed time reaches
/// the start of the last frame slot (as long as the whole frames elapsed fit
/// in a `usize`): it never wraps around to its first frame.
pub proof fn lemma_one_shot_holds_last_frame(anim: Animation, elapsed_nanos: nat)
    requires
        !anim.looped,
        anim.frames@.len() > 0,
        (anim.frames@.len() - 1) * frame_millis(anim) * 1_000_000 <= elapsed_nanos,
        (elapsed_nanos / 1_000_000) / frame_millis(anim) <= usize::MAX,
    ensures
        frame_index(anim, elapsed_nanos) == anim.frames@.len() - 1,
{
    let f = frame_millis(anim) as int;
    let e = elapsed_nanos as int;
    let last = anim.frames@.len() - 1;
    let m = e / 1_000_000;
    assert(last * f <= m) by (nonlinear_arith)
        requires
            last * f * 1_000_000 <= e,
            m == e / 1_000_000,
            f >= 1,
            last >= 0,
    ;
    assert(m / f >= last) by (nonlinear_arith)
        requires
            last * f <= m,
            f >= 1,
            last >= 0,
    ;
}

/// A one-shot animation never goes back: a later elapsed time shows the same
/// frame or a later one (as long as the whole frames elapsed fit in a
/// `usize`).
pub proof fn lemma_one_shot_never_goes_back(anim: Animation, e1: nat, e2: nat)
    requires
        !anim.looped,
        anim.frames@.len() > 0,
        e1 <= e2,
        (e2 / 1_000_000) / frame_millis(anim) <= usize::MAX,
    ensures
        frame_index(anim, e1) <= frame_index(anim, e2),
{
    let f = frame_millis(anim) as int;
    let m1 = e1 as int / 1_000_000;
    let m2 = e2 as int / 1_000_000;
    vstd::arithmetic::div_mod::lemma_div_is_ordered(e1 as int, e2 as int, 1_000_000);
    vstd::arithmetic::div_mod::lemma_div_is_ordered(m1, m2, f);
    vstd::arithmetic::div_mod::lemma_div_pos_is_pos(m1, f);
}

/// Every frame index is a valid index into the animation's frames.
pub proof fn lemma_frame_index_in_range(anim: Animation, elapsed_nanos: nat)
    requires
        anim.frames@.len() > 0,
    ensures
        0 <= frame_index(anim, elapsed_nanos) < anim.frames@.len(),
{
}

/// A looped animation steps one frame forward, wrapping after its last frame,
/// each time one more whole frame has elapsed.
pub proof fn lemma_looped_steps_forward(anim: Animation, e1: nat, e2: nat)
    requires
        anim.looped,
        anim.frames@.len() > 0,
        frames_elapsed(anim, e2) == frames_elapsed(anim, e1) + 1,
    ensures
        frame_index(anim, e2) == (frame_index(anim, e1) + 1) % (anim.frames@.len() as int),
{
    let n = anim.frames@.len() as int;
    let i = frames_elapsed(anim, e1);
    vstd::arithmetic::div_mod::lemma_add_mod_noop_right(1, i, n);
}

/// A looped animation repeats: one full cycle (the frame count times the
/// frame length) later the same frame shows, as long as the number of whole
/// frames elapsed fits in a `usize`.
pub proof fn lemma_looped_animation_repeats(anim: Animation, elapsed_nanos: nat)
    requires
        anim.looped,
        anim.frames@.len() > 0,
        (elapsed_nanos / 1_000_000) / frame_millis(anim) + anim.frames@.len() <= usize::MAX,
    ensures
        frame_index(anim, elapsed_nanos + anim.frames@.len() * frame_millis(anim) * 1_000_000)
            == frame_index(anim, elapsed_nanos),
{
    let n = anim.frames@.len() as int;
    let f = frame_millis(anim);
    let e = elapsed_nanos as int;
    let later = e + n * f * 1_000_000;
    assert(n * f * 1_000_000 == (n * f) * 1_000_000) by (nonlinear_arith);
    vstd::arithmetic::div_mod::lemma_hoist_over_denominator(e, n * f, 1_000_000);
    assert(later / 1_000_000 == e / 1_000_000 + n * f);
    let m = e / 1_000_000;
    assert(m >= 0) by {
        vstd::arithmetic::div_mod::lemma_div_pos_is_pos(e, 1_000_000);
    }
    vstd::arithmetic::div_mod::lemma_hoist_over_denominator(m, n, f);
    assert((m + n * f) / (f as int) == m / (f as int) + n);
    let q = m / (f as int);
    assert(q >= 0) by {
        vstd::arithmetic::div_mod::lemma_div_pos_is_pos(m, f as int);
    }
    assert(frames_elapsed(anim, elapsed_nanos) == q);
    assert(frames_elapsed(anim, later as nat) == q + n);
    vstd::arithmetic::div_mod::lemma_mod_add_multiples_vanish(q, n);
}

/// The animation of every action that has one (at most one per action).
pub struct AnimationTable {
    idle: Option<Animation>,
    walk: Option<Animation>,
    jump: Option<Animation>,
    attack: Option<Animation>,
    sleep: Option<Animation>,
    happy: Option<Animation>,
    angry: Option<Animation>,
}

impl AnimationTable {
    /// The entry of `a`.
    pub closed spec fn spec_entry(&self, a: Action) -> Option<Animation> {
        match a {
            Action::Idle => self.idle,
            Action::Walk => self.walk,
            Action::Jump => self.jump,
            Action::Attack => self.attack,
            Action::Sleep => self.sleep,
            Action::Happy => self.happy,
            Action::Angry => self.angry,
        }
    }
}

impl View for AnimationTable {
    type V = Map<Action, Animation>;

    open spec fn view(&self) -> Map<Action, Animation> {
        Map::new(|a: Action| self.spec_entry(a) is Some, |a: Action| self.spec_entry(a)->0)
    }
}

impl AnimationTable {
    /// An empty table.
    pub fn new() -> (t: Self)
        ensures
            t@ == Map::<Action, Animation>::empty(),
    {
        let t = AnimationTable {
            idle: None,
            walk: None,
            jump: None,
            attack: None,
            sleep: None,
            happy: None,
            angry: None,
        };
        assert(t@ =~= Map::<Action, Animation>::empty());
        t
    }

    /// Sets the animation of `action`, returning the one it replaces.
    pub fn insert(&mut self, action: Action, anim: Animation) -> (prev: Option<Animation>)
        ensures
            final(self)@ == old(self)@.insert(action, anim),
            prev == (if old(self)@.contains_key(action) {
                Some(old(self)@[action])
            } else {
                None
            }),
    {
        let mut slot = Some(anim);
        match action {
            Action::Idle => std::mem::swap(&mut self.idle, &mut slot),
            Action::Walk => std::mem::swap(&mut self.walk, &mut slot),
            Action::Jump => std::mem::swap(&mut self.jump, &mut slot),
            Action::Attack => std::mem::swap(&mut self.attack, &mut slot),
            Action::Sleep => std::mem::swap(&mut self.sleep, &mut slot),
            Action::Happy => std::mem::swap(&mut self.happy, &mut slot),
            Action::Angry => std::mem::swap(&mut self.angry, &mut slot),
        }
        assert(self@ =~= old(self)@.insert(action, anim));
        slot
    }

    /// The animation of `action`, if any.
    pub fn get(&self, action: Action) -> (r: Option<&Animation>)
        ensures
            r is Some == self@.contains_key(action),
            r matches Some(anim) ==> *anim == self@[action],
    {
        match action {
            Action::Idle => self.idle.as_ref(),
            Action::Walk => self.walk.as_ref(),
            Action::Jump => self.jump.as_ref(),
            Action::Attack => self.attack.as_ref(),
            Action::Sleep => self.sleep.as_ref(),
            Action::Happy => self.happy.as_ref(),
            Action::Angry => self.angry.as_ref(),
        }
    }

    /// Checks that the idle action has an animation, which every pet needs;
    /// otherwise the configuration is invalid.
    pub fn require_idle(&self) -> (r: Result<(), EngineError>)
        ensures
            r is Ok <==> self@.contains_key(Action::Idle),
            r matches Err(e) ==> e matches EngineError::ConfigInvalid(m) && m@
                == "Config must contain 'idle' action"@,
    {
        if self.contains_key(Action::Idle) {
            Ok(())
        } else {
            Err(EngineError::ConfigInvalid("Config must contain 'idle' action".to_owned()))
        }
    }

    /// Whether `action` has an animation.
    pub fn contains_key(&self, action: Action) -> (b: bool)
        ensures
            b == self@.contains_key(action),
    {
        self.get(action).is_some()
    }
}

/// Plays the frames of the current action; the window loop calls `update`
/// once per frame.
pub struct Animator {
    animations: AnimationTable,
    current_action: Action,
    elapsed: Duration,
}

impl Animator {
    /// The animation of each action.
    pub closed spec fn spec_animations(&self) -> Map<Action, Animation> {
        self.animations@
    }

    /// The action being played.
    pub closed spec fn spec_current_action(&self) -> Action {
        self.current_action
    }

    /// Time the current action has played, in nanoseconds.
    pub closed spec fn spec_elapsed_nanos(&self) -> nat {
        duration_nanos(self.elapsed)
    }

    /// An animator over `animations`, playing `Idle` from its start.
    pub fn new(animations: AnimationTable) -> (a: Self)
        ensures
            a.spec_animations() == animations@,
            a.spec_current_action() == Action::Idle,
            a.spec_elapsed_nanos() == 0,
    {
        Animator { animations, current_action: Action::Idle, elapsed: zero_duration() }
    }

    /// Advances the clock by `delta` and returns the frame to show now.
    /// Fails with `MissingAnimation` when the current action has no
    /// animation (the clock still advances).
    pub fn update(&mut self, delta: Duration) -> (r: Result<&Texture, EngineError>)
        requires
            old(self).spec_elapsed_nanos() + duration_nanos(delta) <= max_duration_nanos(),
            old(self).spec_animations().contains_key(old(self).spec_current_action()) ==> old(
                self,
            ).spec_animations()[old(self).spec_current_action()].frames@.len() > 0,
        ensures
            final(self).spec_animations() == old(self).spec_animations(),
            final(self).spec_current_action() == old(self).spec_current_action(),
            final(self).spec_elapsed_nanos() == old(self).spec_elapsed_nanos() + duration_nanos(
                delta,
            ),
            match r {
                Ok(t) => {
                    let anim = old(self).spec_animations()[old(self).spec_current_action()];
                    &&& old(self).spec_animations().contains_key(old(self).spec_current_action())
                    &&& *t == anim.frames@[frame_index(anim, final(self).spec_elapsed_nanos())]
                },
                Err(e) => {
                    &&& !old(self).spec_animations().contains_key(old(self).spec_current_action())
                    &&& e == EngineError::MissingAnimation(old(self).spec_current_action())
                },
            },
    {
        self.elapsed = checked_sum(self.elapsed, delta).unwrap();
        let current = self.current_action;
        let anim = match self.animations.get(current) {
            Some(anim) => anim,
            None => return Err(EngineError::MissingAnimation(current)),
        };
        let idx = frame_position(anim, &self.elapsed);
        Ok(&anim.frames[idx])
    }

    /// Switches to `action` and restarts playback; the same action again
    /// changes nothing.
    pub fn set_action(&mut self, action: Action)
        ensures
            final(self).spec_animations() == old(self).spec_animations(),
            final(self).spec_current_action() == action,
            final(self).spec_elapsed_nanos() == (if old(self).spec_current_action() == action {
                old(self).spec_elapsed_nanos()
            } else {
                0
            }),
    {
        if self.current_action != action {
            self.current_action = action;
            self.elapsed = zero_duration();
        }
    }

    /// Whether `update(delta)` may be called: the clock must stay within the
    /// longest duration, and the current action, if it has an animation,
    /// must have a frame.
    pub fn can_update(&self, delta: &Duration) -> (b: bool)
        ensures
            b == (self.spec_elapsed_nanos() + duration_nanos(*delta) <= max_duration_nanos() && (
            self.spec_animations().contains_key(self.spec_current_action())
                ==> self.spec_animations()[self.spec_current_action()].frames@.len() > 0)),
    {
        let fits = checked_sum(self.elapsed, *delta).is_some();
        let has_frame = match self.animations.get(self.current_action) {
            Some(anim) => anim.frames.len() > 0,
            None => true,
        };
        fits && has_frame
    }

    /// The action being played.
    pub fn current_action(&self) -> (a: Action)
        ensures
            a == self.spec_current_action(),
    {
        self.current_action
    }

    /// Time the current action has played.
    pub fn elapsed(&self) -> (d: Duration)
        ensures
            duration_nanos(d) == self.spec_elapsed_nanos(),
    {
        self.elapsed
    }
}

/// Number of whole frames of `anim` that fit in `elapsed`.
fn whole_frames(anim: &Animation, elapsed: &Duration) -> (i: usize)
    ensures
        i == frames_elapsed(*anim, duration_nanos(*elapsed)),
{
    let fd = millis_of(&anim.frame_duration);
    let frame_ms: u128 = if fd >= 1 {
        fd
    } else {
        1
    };
    let ms = millis_of(elapsed);
    (ms / frame_ms) as usize
}

/// The frame index of `anim` after `elapsed` (see `frame_index`).
fn frame_position(anim: &Animation, elapsed: &Duration) -> (idx: usize)
    requires
        anim.frames@.len() > 0,
    ensures
        idx == frame_index(*anim, duration_nanos(*elapsed)),
        idx < anim.frames@.len(),
{
    let i = whole_frames(anim, elapsed);
    let n = anim.frames.len();
    if anim.looped {
        i % n
    } else {
        let last = n - 1;
        if i < last {
            i
        } else {
            last
        }
    }
}

/// How one `EffectPlayer::update(delta)` that returned `r` changes the
/// player: a finished player stays as it is and returns `None`; otherwise
/// the clock advances by `delta`, and a one-shot effect whose whole frames
/// elapsed reach its frame count finishes and returns `None`, while any other
/// returns the frame at `frame_index`.
pub open spec fn effect_stepped(
    before: EffectPlayer,
    after: EffectPlayer,
    delta: Duration,
    r: Option<Texture>,
) -> bool {
    &&& after.spec_animation() == before.spec_animation()
    &&& before.spec_finished() ==> {
        &&& r is None
        &&& after.spec_finished()
        &&& after.spec_elapsed_nanos() == before.spec_elapsed_nanos()
    }
    &&& !before.spec_finished() ==> {
        let anim = before.spec_animation();
        let now = after.spec_elapsed_nanos();
        &&& now == before.spec_elapsed_nanos() + duration_nanos(delta)
        &&& if !anim.looped && frames_elapsed(anim, now) >= anim.frames@.len() {
            r is None && after.spec_finished()
        } else {
            &&& !after.spec_finished()
            &&& r == Some(anim.frames@[frame_index(anim, now)])
        }
    }
}

/// One update of a running effect: a looped effect always shows a frame; a
/// one-shot effect shows frame `k` while its clock lies in the `k`-th frame
/// slot of its `n` frames, and ends (returning `None`) once its clock
/// reaches `n` frame lengths, when the whole frames elapsed fit in a `usize`.
pub proof fn lemma_effect_update_by_time(
    before: EffectPlayer,
    after: EffectPlayer,
    delta: Duration,
    r: Option<Texture>,
    k: nat,
)
    requires
        effect_stepped(before, after, delta, r),
        !before.spec_finished(),
        before.spec_animation().frames@.len() > 0,
        k <= usize::MAX,
        k * frame_millis(before.spec_animation()) * 1_000_000 <= after.spec_elapsed_nanos(),
        after.spec_elapsed_nanos() < (k + 1) * frame_millis(before.spec_animation()) * 1_000_000,
    ensures
        before.spec_animation().looped ==> r == Some(
            before.spec_animation().frames@[(k as int) % (before.spec_animation().frames@.len() as int)],
        ),
        !before.spec_animation().looped && k < before.spec_animation().frames@.len() ==> r == Some(
            before.spec_animation().frames@[k as int],
        ),
        !before.spec_animation().looped && k >= before.spec_animation().frames@.len() ==> r is None
            && after.spec_finished(),
{
    lemma_frame_shown_in_slot(before.spec_animation(), after.spec_elapsed_nanos(), k);
}

/// The total length of the first `k` durations of `ds`, in nanoseconds.
pub open spec fn total_nanos(ds: Seq<Duration>, k: int) -> nat
    decreases k,
{
    if k <= 0 {
        0
    } else {
        total_nanos(ds, k - 1) + duration_nanos(ds[k - 1])
    }
}

/// What call `k` of a run of `update` calls on a fresh player of `anim`
/// returns, given the deltas `ds` of the run and what the earlier calls
/// returned: with `e` the sum of the deltas up to and including this call, a
/// looped effect shows the frame at `frame_index(anim, e)`; a one-shot effect
/// returns `None` once an earlier call returned `None` or once the whole
/// frames elapsed reach its frame count, and otherwise the frame at that
/// count.
pub open spec fn effect_result(
    anim: Animation,
    ds: Seq<Duration>,
    rs: Seq<Option<Texture>>,
    k: int,
) -> Option<Texture> {
    let e = total_nanos(ds, k + 1);
    if anim.looped {
        Some(anim.frames@[frame_index(anim, e)])
    } else if (exists|j: int| 0 <= j < k && #[trigger] rs[j] is None) || frames_elapsed(anim, e)
        >= anim.frames@.len() {
        None
    } else {
        Some(anim.frames@[frames_elapsed(anim, e)])
    }
}

/// The state of a player after the first `k` calls of a run: a running
/// player's clock holds the sum of the first `k` deltas and no call has
/// returned `None`; a finished one is a one-shot effect some earlier call of
/// which returned `None`.
spec fn effect_run_state(
    anim: Animation,
    p: EffectPlayer,
    ds: Seq<Duration>,
    rs: Seq<Option<Texture>>,
    k: int,
) -> bool {
    &&& p.spec_animation() == anim
    &&& p.spec_finished() ==> !anim.looped && exists|j: int| 0 <= j < k && #[trigger] rs[j] is None
    &&& !p.spec_finished() ==> {
        &&& p.spec_elapsed_nanos() == total_nanos(ds, k)
        &&& forall|j: int| 0 <= j < k ==> #[trigger] rs[j] is Some
    }
}

proof fn lemma_effect_run_state(
    anim: Animation,
    ps: Seq<EffectPlayer>,
    ds: Seq<Duration>,
    rs: Seq<Option<Texture>>,
    k: int,
)
    requires
        ps.len() == ds.len() + 1,
        rs.len() == ds.len(),
        ps[0].spec_animation() == anim,
        ps[0].spec_elapsed_nanos() == 0,
        !ps[0].spec_finished(),
        forall|i: int| 0 <= i < ds.len() ==> effect_stepped(#[trigger] ps[i], ps[i + 1], ds[i], rs[i]),
        0 <= k <= ds.len(),
    ensures
        effect_run_state(anim, ps[k], ds, rs, k),
    decreases k,
{
    if k > 0 {
        lemma_effect_run_state(anim, ps, ds, rs, k - 1);
        assert(effect_stepped(ps[k - 1], ps[k], ds[k - 1], rs[k - 1]));
        if ps[k].spec_finished() {
            if ps[k - 1].spec_finished() {
                let j = choose|j: int| 0 <= j < k - 1 && #[trigger] rs[j] is None;
                assert(rs[j] is None);
            } else {
                assert(rs[k - 1] is None);
            }
        }
    }
}

/// A run of `update` calls on a fresh effect player returns, on every call,
/// what `effect_result` gives from the sum of all deltas so far and the
/// earlier results: a looped effect never returns `None`, and after the first
/// `None` every call returns `None`.
pub proof fn lemma_effect_run(
    anim: Animation,
    ps: Seq<EffectPlayer>,
    ds: Seq<Duration>,
    rs: Seq<Option<Texture>>,
)
    requires
        ps.len() == ds.len() + 1,
        rs.len() == ds.len(),
        ps[0].spec_animation() == anim,
        ps[0].spec_elapsed_nanos() == 0,
        !ps[0].spec_finished(),
        forall|i: int| 0 <= i < ds.len() ==> effect_stepped(#[trigger] ps[i], ps[i + 1], ds[i], rs[i]),
    ensures
        forall|k: int| 0 <= k < ds.len() ==> #[trigger] rs[k] == effect_result(anim, ds, rs, k),
{
    assert forall|k: int| 0 <= k < ds.len() implies #[trigger] rs[k] == effect_result(
        anim,
        ds,
        rs,
        k,
    ) by {
        lemma_effect_run_state(anim, ps, ds, rs, k);
        assert(effect_stepped(ps[k], ps[k + 1], ds[k], rs[k]));
        let e = total_nanos(ds, k + 1);
        if ps[k].spec_finished() {
            let j = choose|j: int| 0 <= j < k && #[trigger] rs[j] is None;
            assert(rs[j] is None);
        } else {
            assert(ps[k + 1].spec_elapsed_nanos() == e);
            if !anim.looped {
                assert(!(exists|j: int| 0 <= j < k && #[trigger] rs[j] is None));
            }
        }
    }
}

/// Plays a one-shot effect animation; once it has played through, `update`
/// returns `None` and the caller drops the player. A looped effect never ends.
pub struct EffectPlayer {
    animation: Animation,
    elapsed: Duration,
    finished: bool,
}

impl EffectPlayer {
    /// The effect's animation.
    pub closed spec fn spec_animation(&self) -> Animation {
        self.animation
    }

    /// Time the effect has played, in nanoseconds.
    pub closed spec fn spec_elapsed_nanos(&self) -> nat {
        duration_nanos(self.elapsed)
    }

    /// Whether a one-shot effect has played through.
    pub closed spec fn spec_finished(&self) -> bool {
        self.finished
    }

    pub fn new(animation: Animation) -> (p: Self)
        ensures
            p.spec_animation() == animation,
            p.spec_elapsed_nanos() == 0,
            !p.spec_finished(),
    {
        EffectPlayer { animation, elapsed: zero_duration(), finished: false }
    }

    /// Whether `update(delta)` may be called: a running effect's clock must
    /// stay within the longest duration, and a running looped effect must
    /// have a frame.
    pub fn can_update(&self, delta: &Duration) -> (b: bool)
        ensures
            b == ((!self.spec_finished() ==> self.spec_elapsed_nanos() + duration_nanos(*delta)
                <= max_duration_nanos()) && (!self.spec_finished() && self.spec_animation().looped
                ==> self.spec_animation().frames@.len() > 0)),
    {
        if self.finished {
            return true;
        }
        let fits = checked_sum(self.elapsed, *delta).is_some();
        fits && (!self.animation.looped || self.animation.frames.len() > 0)
    }

    /// Advances the clock by `delta` and returns the frame to show, or
    /// `None` once a one-shot effect has run past its last frame (and on
    /// every call after that).
    pub fn update(&mut self, delta: Duration) -> (r: Option<&Texture>)
        requires
            !old(self).spec_finished() ==> old(self).spec_elapsed_nanos() + duration_nanos(delta)
                <= max_duration_nanos(),
            !old(self).spec_finished() && old(self).spec_animation().looped ==> old(
                self,
            ).spec_animation().frames@.len() > 0,
        ensures
            effect_stepped(
                *old(self),
                *final(self),
                delta,
                match r {
                    Some(t) => Some(*t),
                    None => None,
                },
            ),
    {
        if self.finished {
            return None;
        }
        self.elapsed = checked_sum(self.elapsed, delta).unwrap();
        let anim = &self.animation;
        let i = whole_frames(anim, &self.elapsed);
        if !anim.looped && i >= anim.frames.len() {
            self.finished = true;
            return None;
        }
        let idx = frame_position(anim, &self.elapsed);
        Some(&anim.frames[idx])
    }
}

} // verus!
