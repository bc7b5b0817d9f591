//! Steering the camera after the target.

use vstd::prelude::*;
use crate::axis::{
    beyond, is_within, magnitude, within, AxisValue, PTZ_STOP_THRESHOLD, PTZ_UPDATE_THRESHOLD,
};
use crate::runtime::{AiRuntime, Nanos};

verus! {

/// What an axis is to do: stand still, or follow the target's offset.
#[derive(Clone, Copy, PartialEq, Eq, Structural, Debug)]
pub enum Aim {
    Rest,
    Follow,
}

/// What is to be done at a tick.
#[derive(Clone, Copy, PartialEq, Eq, Structural, Debug)]
pub enum PtzStep {
    /// There is nothing to follow, and the camera stands still.
    Idle,
    /// There is nothing to follow any more: the camera has to be stopped.
    StopUntracked,
    /// The velocity has to be brought nearer to these aims.
    Steer { x: Aim, y: Aim },
}

/// What is to be sent to the camera.
#[derive(Clone, Copy, Debug)]
pub enum PtzCommand {
    /// The change is too small to be worth a command.
    Skip,
    /// The camera has to be stopped.
    Stop,
    /// The camera has to move with this velocity.
    Move(AxisValue),
}

/// The aim of an axis: it rests while the offset is in the dead zone.
pub open spec fn aim(offset: u32, dead_zone: u32, held: bool) -> Aim {
    if held || within(offset, dead_zone) {
        Aim::Rest
    } else {
        Aim::Follow
    }
}

/// What is sent for the velocity `next`, which differs by `change` from `last`, the
/// one that was last sent. A small change is not worth a command; but while the
/// target is in the centre, a camera that is to stand still is stopped unless it
/// already does, however small the change.
pub open spec fn command_for(
    last: AxisValue,
    next: AxisValue,
    change: AxisValue,
    centered: bool,
) -> PtzCommand {
    if centered && next.both_within(PTZ_STOP_THRESHOLD) && !last.both_within(PTZ_STOP_THRESHOLD) {
        PtzCommand::Stop
    } else if change.both_within(PTZ_UPDATE_THRESHOLD) {
        PtzCommand::Skip
    } else if next.both_within(PTZ_STOP_THRESHOLD) {
        PtzCommand::Stop
    } else {
        PtzCommand::Move(next)
    }
}

/// The velocity that is remembered as the one last sent after the command for `next` was
/// answered.
pub open spec fn remembered(
    last: AxisValue,
    next: AxisValue,
    error: Option<String>,
) -> AxisValue {
    if error is Some {
        last
    } else {
        next
    }
}

/// The state after the command for `next` was answered.
pub open spec fn after_command(
    state: AiRuntime,
    next: AxisValue,
    error: Option<String>,
    settle: Nanos,
    now: Nanos,
) -> AiRuntime {
    if error is Some {
        state.with_error(error)
    } else if next.both_within(PTZ_STOP_THRESHOLD) {
        state.with_error(None).stopped(settle, now)
    } else {
        state.with_error(None).moving(next, now)
    }
}

/// The state after the stop for a lost target was answered.
pub open spec fn after_untracked_stop(
    state: AiRuntime,
    error: Option<String>,
    settle: Nanos,
    now: Nanos,
) -> AiRuntime {
    if error is Some {
        state.with_error(error).with_velocity(AxisValue::zero())
    } else {
        state.stopped(settle, now)
    }
}

/// Steers the camera: remembers the velocity that was last sent, and since when
/// the target has been in the centre.
pub struct PtzLoop {
    pub last_sent: AxisValue,
    pub centered_since: Option<Nanos>,
}

impl PtzLoop {
    /// Nothing has been sent yet.
    pub fn new() -> (ptz: PtzLoop)
        ensures
            ptz.last_sent == AxisValue::zero(),
            ptz.centered_since is None,
    {
        PtzLoop { last_sent: AxisValue::default(), centered_since: None }
    }

    /// Since when the target is in the centre, if it is seen at `offset` at `now`.
    pub open spec fn centered_from(self, offset: AxisValue, dead_zone: u32, now: Nanos) -> Option<
        Nanos,
    > {
        if offset.both_within(dead_zone) {
            match self.centered_since {
                Some(since) => Some(since),
                None => Some(now),
            }
        } else {
            None
        }
    }

    /// The target has been in the centre for long enough.
    pub open spec fn held(
        self,
        offset: AxisValue,
        dead_zone: u32,
        centered_hold: Nanos,
        now: Nanos,
    ) -> bool {
        match self.centered_from(offset, dead_zone, now) {
            Some(since) => (if now < since {
                0
            } else {
                now - since
            }) >= centered_hold,
            None => false,
        }
    }

    /// Since when the target is in the centre, after a tick.
    pub open spec fn centered_after(
        self,
        tracking: bool,
        offset: AxisValue,
        dead_zone: u32,
        now: Nanos,
    ) -> Option<Nanos> {
        if tracking {
            self.centered_from(offset, dead_zone, now)
        } else {
            None
        }
    }

    /// What is to be done at a tick.
    pub open spec fn step_at(
        self,
        tracking: bool,
        offset: AxisValue,
        dead_zone: u32,
        centered_hold: Nanos,
        now: Nanos,
    ) -> PtzStep {
        if tracking {
            let held = self.held(offset, dead_zone, centered_hold, now);
            PtzStep::Steer {
                x: aim(offset.x, dead_zone, held),
                y: aim(offset.y, dead_zone, held),
            }
        } else if self.last_sent.any_beyond(PTZ_STOP_THRESHOLD) {
            PtzStep::StopUntracked
        } else {
            PtzStep::Idle
        }
    }

    /// Decides what is to be done at a tick.
    pub fn tick(
        &mut self,
        tracking: bool,
        offset: AxisValue,
        dead_zone: u32,
        centered_hold: Nanos,
        now: Nanos,
    ) -> (step: PtzStep)
        ensures
            final(self).last_sent == old(self).last_sent,
            step == old(self).step_at(tracking, offset, dead_zone, centered_hold, now),
            final(self).centered_since == old(self).centered_after(
                tracking,
                offset,
                dead_zone,
                now,
            ),
    {
        if !tracking {
            self.centered_since = None;
            return if self.last_sent.is_any_beyond(PTZ_STOP_THRESHOLD) {
                PtzStep::StopUntracked
            } else {
                PtzStep::Idle
            };
        }
        if offset.is_both_within(dead_zone) {
            if self.centered_since.is_none() {
                self.centered_since = Some(now);
            }
        } else {
            self.centered_since = None;
        }
        let held = match self.centered_since {
            Some(since) => now.saturating_sub(since) >= centered_hold,
            None => false,
        };
        PtzStep::Steer {
            x: if held || is_within(offset.x, dead_zone) {
                Aim::Rest
            } else {
                Aim::Follow
            },
            y: if held || is_within(offset.y, dead_zone) {
                Aim::Rest
            } else {
                Aim::Follow
            },
        }
    }

    /// Decides what is to be sent for the velocity `next`, which differs by `change`
    /// from the one that was last sent, after the tick that the velocity is for.
    pub fn command(&self, next: AxisValue, change: AxisValue) -> (command: PtzCommand)
        ensures
            command == command_for(self.last_sent, next, change, self.centered_since is Some),
    {
        if self.centered_since.is_some() && next.is_both_within(PTZ_STOP_THRESHOLD)
            && !self.last_sent.is_both_within(PTZ_STOP_THRESHOLD) {
            PtzCommand::Stop
        } else if change.is_both_within(PTZ_UPDATE_THRESHOLD) {
            PtzCommand::Skip
        } else if next.is_both_within(PTZ_STOP_THRESHOLD) {
            PtzCommand::Stop
        } else {
            PtzCommand::Move(next)
        }
    }

    /// The camera has answered to the command for the velocity `next`, with an error
    /// or without.
    pub fn command_answered(
        &mut self,
        runtime: &mut AiRuntime,
        next: AxisValue,
        error: Option<String>,
        settle: Nanos,
        now: Nanos,
    )
        requires
            error is None && next.both_within(PTZ_STOP_THRESHOLD) ==> now + settle <= Nanos::MAX,
        ensures
            final(self).centered_since == old(self).centered_since,
            final(self).last_sent == remembered(old(self).last_sent, next, error),
            *final(runtime) == after_command(*old(runtime), next, error, settle, now),
            old(runtime).consistent() ==> final(runtime).consistent(),
    {
        match error {
            Some(message) => {
                runtime.update_error(message);
            },
            None => {
                self.last_sent = next;
                runtime.clear_error();
                runtime.set_ptz_velocity(next);
                if next.is_both_within(PTZ_STOP_THRESHOLD) {
                    runtime.mark_camera_move_stopped(settle, now);
                } else {
                    runtime.mark_camera_move_started(next, now);
                }
            },
        }
    }

    /// The camera has answered to the stop that was sent because there was nothing to
    /// follow any more.
    pub fn untracked_stop_answered(
        &mut self,
        runtime: &mut AiRuntime,
        error: Option<String>,
        settle: Nanos,
        now: Nanos,
    )
        requires
            error is None ==> now + settle <= Nanos::MAX,
        ensures
            final(self).last_sent == AxisValue::zero(),
            final(self).centered_since == old(self).centered_since,
            *final(runtime) == after_untracked_stop(*old(runtime), error, settle, now),
            old(runtime).consistent() ==> final(runtime).consistent(),
    {
        match error {
            Some(message) => {
                runtime.update_error(message);
            },
            None => {
                runtime.mark_camera_move_stopped(settle, now);
            },
        }
        self.last_sent = AxisValue::default();
        runtime.set_ptz_velocity(AxisValue::default());
    }

    /// Tells whether the camera has to be stopped when the loop is left.
    pub fn needs_final_stop(&self) -> (needed: bool)
        ensures
            needed == self.last_sent.any_beyond(PTZ_STOP_THRESHOLD),
    {
        self.last_sent.is_any_beyond(PTZ_STOP_THRESHOLD)
    }
}

/// Records how the last command of a series was answered: an error, or none.
pub fn note_answer(runtime: &mut AiRuntime, error: Option<String>)
    ensures
        *final(runtime) == old(runtime).with_error(error),
        old(runtime).consistent() ==> final(runtime).consistent(),
{
    match error {
        Some(message) => runtime.update_error(message),
        None => runtime.clear_error(),
    }
}

/// An axis follows the target exactly if the target is not held in the centre and its
/// offset is a number whose magnitude is not less than the dead zone. So a target on one
/// side is followed as one on the other side is: an offset and its negation, which
/// differ in the top bit, have the same aim.
pub proof fn law_aim_is_the_same_on_both_sides(offset: u32, dead_zone: u32, held: bool)
    requires
        offset <= 0x7f80_0000,
        dead_zone <= 0x7f80_0000,
    ensures
        aim(offset, dead_zone, held) == aim((offset + 0x8000_0000) as u32, dead_zone, held),
        !held && offset >= dead_zone ==> aim(offset, dead_zone, held) == Aim::Follow,
        !held && offset >= dead_zone ==> aim((offset + 0x8000_0000) as u32, dead_zone, held)
            == Aim::Follow,
        offset < dead_zone ==> aim(offset, dead_zone, held) == Aim::Rest,
        offset < dead_zone ==> aim((offset + 0x8000_0000) as u32, dead_zone, held) == Aim::Rest,
        held ==> aim(offset, dead_zone, held) == Aim::Rest,
{
}

/// With a target, each axis is steered by its own offset: a tick gives both axes the aims
/// that follow from how far the target is off on that axis, and swapping the axes swaps
/// the aims. A target that is far off on either side is followed on that axis.
pub proof fn law_each_axis_follows_its_offset(
    ptz: PtzLoop,
    offset: AxisValue,
    dead_zone: u32,
    centered_hold: Nanos,
    now: Nanos,
)
    requires
        dead_zone <= 0x7f80_0000,
    ensures
        ({
            let step = ptz.step_at(true, offset, dead_zone, centered_hold, now);
            let swapped = ptz.step_at(
                true,
                AxisValue { x: offset.y, y: offset.x },
                dead_zone,
                centered_hold,
                now,
            );
            &&& step is Steer && swapped is Steer
            &&& step->x == swapped->y && step->y == swapped->x
            &&& step->x == Aim::Rest <==> within(offset.x, dead_zone)
            &&& step->y == Aim::Rest <==> within(offset.y, dead_zone)
            &&& dead_zone <= offset.x % 0x8000_0000 ==> step->x == Aim::Follow
            &&& dead_zone <= offset.y % 0x8000_0000 ==> step->y == Aim::Follow
        }),
{
}

/// Without a target the camera is stopped exactly if the velocity that was last sent is
/// greater than the threshold on an axis; otherwise nothing is done. Neither the offset
/// nor the time matters.
pub proof fn law_lost_target_stops_the_camera(
    ptz: PtzLoop,
    offset: AxisValue,
    dead_zone: u32,
    centered_hold: Nanos,
    now: Nanos,
)
    ensures
        ({
            let step = ptz.step_at(false, offset, dead_zone, centered_hold, now);
            &&& step is StopUntracked <==> beyond(ptz.last_sent.x, PTZ_STOP_THRESHOLD) || beyond(
                ptz.last_sent.y,
                PTZ_STOP_THRESHOLD,
            )
            &&& !(step is StopUntracked) ==> step is Idle
        }),
{
}

/// The time in the centre counts from the first tick at which the target was seen there,
/// and starts anew once it was seen outside, or was lost; the target is held when that time reaches
/// what was asked for.
pub proof fn law_time_in_the_centre(
    ptz: PtzLoop,
    offset: AxisValue,
    dead_zone: u32,
    centered_hold: Nanos,
    now: Nanos,
)
    ensures
        ({
            let since = ptz.centered_after(true, offset, dead_zone, now);
            &&& ptz.centered_after(false, offset, dead_zone, now) is None
            &&& since is Some <==> within(offset.x, dead_zone) && within(offset.y, dead_zone)
            &&& since is Some && ptz.centered_since is Some ==> since == ptz.centered_since
            &&& since is Some && ptz.centered_since is None ==> since->0 == now
            &&& since is Some && since->0 <= now ==> (ptz.held(
                offset,
                dead_zone,
                centered_hold,
                now,
            ) <==> since->0 + centered_hold <= now)
            &&& since is None ==> !ptz.held(offset, dead_zone, centered_hold, now)
        }),
{
}

/// A command that failed is not remembered, and the error is all that is recorded of it.
/// A command that was carried out is remembered with its velocity, clears the error and
/// gives up the target; the camera then moves with that velocity, or settles without one
/// if it is within the threshold.
pub proof fn law_answered_command(
    state: AiRuntime,
    last: AxisValue,
    next: AxisValue,
    error: Option<String>,
    settle: Nanos,
    now: Nanos,
)
    requires
        now + settle <= Nanos::MAX,
    ensures
        ({
            let after = after_command(state, next, error, settle, now);
            let sent = remembered(last, next, error);
            &&& error is Some ==> sent == last && after.last_error == error
                && after.with_error(state.last_error) == state
            &&& error is None ==> {
                &&& sent == next
                &&& after.last_error is None
                &&& !after.tracking
                &&& after.motion_active == state.motion_active
                &&& after.event_id == state.event_id
                &&& after.recording == state.recording
                &&& after.camera_moving <==> !(within(next.x, PTZ_STOP_THRESHOLD) && within(
                    next.y,
                    PTZ_STOP_THRESHOLD,
                ))
                &&& after.camera_moving ==> after.ptz_velocity == next
                    && after.camera_settle_until is None
                &&& !after.camera_moving ==> after.ptz_velocity == AxisValue::zero()
                    && after.camera_settle_until is Some && after.camera_settle_until->0 == now
                    + settle
            }
        }),
{
}

/// Whether or not the stop for a lost target was carried out, no velocity is left; only a
/// stop that was carried out starts the settle time, and only one that failed is recorded
/// as an error.
pub proof fn law_answered_untracked_stop(
    state: AiRuntime,
    error: Option<String>,
    settle: Nanos,
    now: Nanos,
)
    requires
        now + settle <= Nanos::MAX,
    ensures
        ({
            let after = after_untracked_stop(state, error, settle, now);
            &&& after.ptz_velocity == AxisValue::zero()
            &&& after.event_id == state.event_id
            &&& after.recording == state.recording
            &&& after.motion_active == state.motion_active
            &&& error is None ==> !after.camera_moving && after.last_error == state.last_error
                && after.camera_settle_until is Some && after.camera_settle_until->0 == now
                + settle
            &&& error is Some ==> after.camera_moving == state.camera_moving && after.last_error
                == error && after.camera_settle_until == state.camera_settle_until
                && after.tracking == state.tracking
        }),
{
}

/// While the target is in the centre the camera is steered to rest on both axes,
/// however long it has been there.
pub proof fn law_centered_target_rests(
    ptz: PtzLoop,
    offset: AxisValue,
    dead_zone: u32,
    centered_hold: Nanos,
    now: Nanos,
)
    requires
        offset.both_within(dead_zone),
    ensures
        ({
            let held = ptz.held(offset, dead_zone, centered_hold, now);
            &&& aim(offset.x, dead_zone, held) == Aim::Rest
            &&& aim(offset.y, dead_zone, held) == Aim::Rest
        }),
{
}

/// A camera whose target is in the centre stops: once the velocity that it is
/// steered to is within the threshold, it is told to stop, or the velocity that was
/// last sent is within the threshold already.
pub proof fn law_centered_camera_stops(
    ptz: PtzLoop,
    offset: AxisValue,
    dead_zone: u32,
    centered_hold: Nanos,
    now: Nanos,
    next: AxisValue,
    change: AxisValue,
)
    requires
        offset.both_within(dead_zone),
        next.both_within(PTZ_STOP_THRESHOLD),
    ensures
        ({
            let held = ptz.held(offset, dead_zone, centered_hold, now);
            let centered = ptz.centered_after(true, offset, dead_zone, now) is Some;
            let command = command_for(ptz.last_sent, next, change, centered);
            &&& aim(offset.x, dead_zone, held) == Aim::Rest
            &&& aim(offset.y, dead_zone, held) == Aim::Rest
            &&& command == PtzCommand::Stop || ptz.last_sent.both_within(PTZ_STOP_THRESHOLD)
            &&& ptz.last_sent.any_beyond(PTZ_STOP_THRESHOLD) ==> command == PtzCommand::Stop
        }),
{
}

/// While the target is off the centre, or nothing else calls for a stop, a change
/// that is not worth a command is not sent.
pub proof fn law_small_change_is_skipped(
    last: AxisValue,
    next: AxisValue,
    change: AxisValue,
    centered: bool,
)
    requires
        change.both_within(PTZ_UPDATE_THRESHOLD),
        !centered || !next.both_within(PTZ_STOP_THRESHOLD) || last.both_within(PTZ_STOP_THRESHOLD),
    ensures
        command_for(last, next, change, centered) == PtzCommand::Skip,
{
}

/// A change that is worth a command is sent: the camera is told to move with the
/// new velocity, or to stop if that velocity stands for standing still.
pub proof fn law_worthwhile_change_is_sent(
    last: AxisValue,
    next: AxisValue,
    change: AxisValue,
    centered: bool,
)
    requires
        !change.both_within(PTZ_UPDATE_THRESHOLD),
    ensures
        command_for(last, next, change, centered) == if next.both_within(PTZ_STOP_THRESHOLD) {
            PtzCommand::Stop
        } else {
            PtzCommand::Move(next)
        },
{
}

/// The velocity that was last sent after some ticks with the target in the centre,
/// each with its next velocity and the change, if every command is answered without
/// an error.
pub open spec fn sent_after(last: AxisValue, ticks: Seq<(AxisValue, AxisValue)>) -> AxisValue
    decreases ticks.len(),
{
    if ticks.len() == 0 {
        last
    } else {
        let before = sent_after(last, ticks.drop_last());
        let (next, change) = ticks.last();
        match command_for(before, next, change, true) {
            PtzCommand::Skip => before,
            _ => next,
        }
    }
}

/// How far a velocity is from rest: the sum of the patterns of its magnitudes.
pub open spec fn speed(velocity: AxisValue) -> int {
    magnitude(velocity.x) + magnitude(velocity.y)
}

/// A tick steers from the velocity `last` towards rest: on no axis does the velocity
/// grow, and it comes within the threshold, or shrinks by a change that is worth a
/// command.
pub open spec fn slows(last: AxisValue, next: AxisValue, change: AxisValue) -> bool {
    &&& magnitude(next.x) <= magnitude(last.x)
    &&& magnitude(next.y) <= magnitude(last.y)
    &&& next.both_within(PTZ_STOP_THRESHOLD) || (speed(next) < speed(last)
        && !change.both_within(PTZ_UPDATE_THRESHOLD))
}

/// As long as the camera does not stand still, every tick steers it towards rest.
pub open spec fn slowing(last: AxisValue, ticks: Seq<(AxisValue, AxisValue)>) -> bool {
    forall|k: int|
        0 <= k < ticks.len() && !(#[trigger] sent_after(last, ticks.take(k))).both_within(
            PTZ_STOP_THRESHOLD,
        ) ==> slows(sent_after(last, ticks.take(k)), ticks[k].0, ticks[k].1)
}

/// The tick at index `k` stops a camera that does not stand still.
pub open spec fn stops_at(last: AxisValue, ticks: Seq<(AxisValue, AxisValue)>, k: int) -> bool {
    let before = sent_after(last, ticks.take(k));
    &&& 0 <= k < ticks.len()
    &&& !before.both_within(PTZ_STOP_THRESHOLD)
    &&& command_for(before, ticks[k].0, ticks[k].1, true) == PtzCommand::Stop
    &&& sent_after(last, ticks.take(k + 1)).both_within(PTZ_STOP_THRESHOLD)
}

/// Until the camera is stopped it slows down with every tick.
proof fn lemma_slows_until_stopped(last: AxisValue, ticks: Seq<(AxisValue, AxisValue)>, n: int)
    requires
        0 <= n <= ticks.len(),
        !last.both_within(PTZ_STOP_THRESHOLD),
        slowing(last, ticks),
        forall|k: int| 0 <= k < n ==> !#[trigger] stops_at(last, ticks, k),
    ensures
        ({
            let after = sent_after(last, ticks.take(n));
            &&& !after.both_within(PTZ_STOP_THRESHOLD)
            &&& magnitude(after.x) <= magnitude(last.x)
            &&& magnitude(after.y) <= magnitude(last.y)
            &&& speed(after) <= speed(last) - n
        }),
    decreases n,
{
    if n == 0 {
        assert(ticks.take(0).len() == 0);
    } else {
        lemma_slows_until_stopped(last, ticks, n - 1);
        assert(ticks.take(n).drop_last() =~= ticks.take(n - 1));
        assert(ticks.take(n).last() == ticks[n - 1]);
        assert(!stops_at(last, ticks, n - 1));
    }
}

/// A camera whose target stays in the centre comes to rest: if every tick steers it
/// towards rest, then one of the ticks, at the latest the one whose number is the
/// speed at the start, stops it, and until then no command makes it faster on either
/// axis.
pub proof fn law_centered_camera_comes_to_rest(
    last: AxisValue,
    ticks: Seq<(AxisValue, AxisValue)>,
)
    requires
        !last.both_within(PTZ_STOP_THRESHOLD),
        slowing(last, ticks),
        speed(last) <= ticks.len(),
    ensures
        exists|k: int| #[trigger]
            stops_at(last, ticks, k) && forall|i: int|
                0 <= i <= k ==> {
                    let sent = #[trigger] sent_after(last, ticks.take(i));
                    magnitude(sent.x) <= magnitude(last.x) && magnitude(sent.y) <= magnitude(last.y)
                },
{
    if forall|k: int| 0 <= k < ticks.len() ==> !#[trigger] stops_at(last, ticks, k) {
        lemma_slows_until_stopped(last, ticks, ticks.len() as int);
    } else {
        let some = choose|k: int| 0 <= k < ticks.len() && #[trigger] stops_at(last, ticks, k);
        let first = lemma_first_stop(last, ticks, some);
        assert forall|i: int| 0 <= i <= first implies {
            let sent = #[trigger] sent_after(last, ticks.take(i));
            magnitude(sent.x) <= magnitude(last.x) && magnitude(sent.y) <= magnitude(last.y)
        } by {
            lemma_slows_until_stopped(last, ticks, i);
        }
    }
}

/// If some tick stops the camera, there is a first that does.
proof fn lemma_first_stop(last: AxisValue, ticks: Seq<(AxisValue, AxisValue)>, some: int) -> (first:
    int)
    requires
        stops_at(last, ticks, some),
    ensures
        stops_at(last, ticks, first),
        forall|k: int| 0 <= k < first ==> !#[trigger] stops_at(last, ticks, k),
    decreases some,
{
    if exists|k: int| 0 <= k < some && #[trigger] stops_at(last, ticks, k) {
        let earlier = choose|k: int| 0 <= k < some && #[trigger] stops_at(last, ticks, k);
        lemma_first_stop(last, ticks, earlier)
    } else {
        some
    }
}

/// Once the camera was told to stop, or while it was never told to move, it needs
/// no other stop: the velocity that was last sent is within the threshold, and no
/// such velocity is beyond it.
pub proof fn law_still_camera_needs_no_stop(velocity: AxisValue)
    requires
        velocity.both_within(PTZ_STOP_THRESHOLD) || velocity == AxisValue::zero(),
    ensures
        !velocity.any_beyond(PTZ_STOP_THRESHOLD),
{
}

} // verus!
