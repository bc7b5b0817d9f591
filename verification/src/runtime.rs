//! State of the motion tracker, shared by its workers, and what each event
//! does to it.

use vstd::prelude::*;
use crate::axis::AxisValue;

verus! {

/// Nanoseconds: a span of time, or a moment counted from an origin that stays
/// fixed while the program runs.
pub type Nanos = u128;

/// What the tracker knows about itself and about the camera.
#[derive(Clone)]
pub struct AiRuntime {
    pub enabled: bool,
    pub configured: bool,
    pub available: bool,
    pub ai_active: bool,
    pub tracking: bool,
    pub recording: bool,
    pub manual_locked: bool,
    pub motion_active: bool,
    pub camera_moving: bool,
    pub camera_settle_until: Option<Nanos>,
    pub target_offset: AxisValue,
    pub ptz_velocity: AxisValue,
    pub last_error: Option<String>,
    pub event_id: u64,
}

/// The state as it is reported to clients.
#[derive(Clone)]
pub struct AiStateResponse {
    pub enabled: bool,
    pub configured: bool,
    pub available: bool,
    pub ai_active: bool,
    pub tracking: bool,
    pub recording: bool,
    pub manual_locked: bool,
    pub camera_moving: bool,
    pub target_offset: AxisValue,
    pub ptz_velocity: AxisValue,
    pub last_error: Option<String>,
}

/// The same message, or none.
pub open spec fn same_message(a: Option<String>, b: Option<String>) -> bool {
    match (a, b) {
        (Some(a), Some(b)) => a@ == b@,
        (None, None) => true,
        _ => false,
    }
}

impl PartialEq for AiStateResponse {
    fn eq(&self, other: &AiStateResponse) -> (equal: bool) {
        let same_error = match (&self.last_error, &other.last_error) {
            (Some(a), Some(b)) => *a == *b,
            (None, None) => true,
            _ => false,
        };
        self.enabled == other.enabled && self.configured == other.configured && self.available
            == other.available && self.ai_active == other.ai_active && self.tracking
            == other.tracking && self.recording == other.recording && self.manual_locked
            == other.manual_locked && self.camera_moving == other.camera_moving
            && self.target_offset == other.target_offset && self.ptz_velocity
            == other.ptz_velocity && same_error
    }
}

impl vstd::std_specs::cmp::PartialEqSpecImpl for AiStateResponse {
    open spec fn obeys_eq_spec() -> bool {
        true
    }

    open spec fn eq_spec(&self, other: &AiStateResponse) -> bool {
        &&& self.enabled == other.enabled
        &&& self.configured == other.configured
        &&& self.available == other.available
        &&& self.ai_active == other.ai_active
        &&& self.tracking == other.tracking
        &&& self.recording == other.recording
        &&& self.manual_locked == other.manual_locked
        &&& self.camera_moving == other.camera_moving
        &&& self.target_offset.same(other.target_offset)
        &&& self.ptz_velocity.same(other.ptz_velocity)
        &&& same_message(self.last_error, other.last_error)
    }
}

impl AiRuntime {
    /// The camera moves, or has stopped so recently that the picture has not
    /// settled.
    pub open spec fn in_motion(self, now: Nanos) -> bool {
        self.camera_moving || (self.camera_settle_until matches Some(until) && now < until)
    }

    /// The state with its derived flags brought up to date.
    pub open spec fn refreshed(self, now: Nanos) -> AiRuntime {
        let active = self.enabled && (self.motion_active || self.recording);
        AiRuntime {
            ai_active: active,
            manual_locked: self.enabled && (active || self.in_motion(now)),
            ..self
        }
    }

    /// The derived flags agree with the rest of the state.
    pub open spec fn consistent(self) -> bool {
        &&& self.ai_active == (self.enabled && (self.motion_active || self.recording))
        &&& self.ai_active ==> self.manual_locked
        &&& self.manual_locked ==> self.enabled
    }

    /// The state after the tracker was switched on.
    pub open spec fn switched_on(self, now: Nanos) -> AiRuntime {
        (AiRuntime { enabled: true, ..self }).refreshed(now)
    }

    /// The state after the tracker was switched off: nothing is left but the number
    /// of the last event.
    pub open spec fn switched_off(self) -> AiRuntime {
        AiRuntime { event_id: self.event_id, ..AiRuntime::initial(false, self.configured) }
    }

    /// The state after motion was found to have ended.
    pub open spec fn without_motion(self, now: Nanos) -> AiRuntime {
        (AiRuntime {
            motion_active: false,
            tracking: false,
            target_offset: AxisValue::zero(),
            ..self
        }).refreshed(now)
    }

    /// The state after a target was seen at `offset`.
    pub open spec fn with_target(
        self,
        offset: AxisValue,
        motion_active: bool,
        starts_event: bool,
        now: Nanos,
    ) -> AiRuntime {
        (AiRuntime {
            event_id: if starts_event && self.event_id < u64::MAX {
                (self.event_id + 1) as u64
            } else {
                self.event_id
            },
            available: true,
            motion_active,
            tracking: motion_active,
            target_offset: offset,
            ..self
        }).refreshed(now)
    }

    /// The state after a clip was started, or after there is none any more.
    pub open spec fn with_recording(self, recording: bool, now: Nanos) -> AiRuntime {
        (AiRuntime { recording: self.enabled && recording, ..self }).refreshed(now)
    }

    /// The state after the detection stream was found to be up, or down.
    pub open spec fn with_availability(self, available: bool) -> AiRuntime {
        AiRuntime { available, ..self }
    }

    /// The state after the camera was told to move with a velocity.
    pub open spec fn with_velocity(self, velocity: AxisValue) -> AiRuntime {
        AiRuntime { ptz_velocity: velocity, ..self }
    }

    /// The state after something failed, or after all went well again.
    pub open spec fn with_error(self, error: Option<String>) -> AiRuntime {
        AiRuntime { last_error: error, ..self }
    }

    /// The state when the return home begins.
    pub open spec fn going_home(self, has_home: bool, preset_settle: Nanos, now: Nanos) -> AiRuntime {
        if has_home {
            self.stopped(preset_settle, now)
        } else {
            self.with_velocity(AxisValue::zero())
        }
    }

    /// The state when the return home is over.
    pub open spec fn at_home(self, now: Nanos) -> AiRuntime {
        (AiRuntime { camera_moving: false, ..self }).without_motion(now)
    }

    /// Frames are to be ignored.
    pub open spec fn ignores_frames(self, now: Nanos) -> bool {
        !self.enabled || self.in_motion(now)
    }

    /// The state after the camera has started to move.
    pub open spec fn moving(self, velocity: AxisValue, now: Nanos) -> AiRuntime {
        (AiRuntime {
            camera_moving: true,
            camera_settle_until: None,
            ptz_velocity: velocity,
            tracking: false,
            target_offset: AxisValue::zero(),
            ..self
        }).refreshed(now)
    }

    /// The state after the camera has been sent on its way for as long as
    /// `duration`.
    pub open spec fn under_way(self, duration: Nanos, now: Nanos) -> AiRuntime {
        (AiRuntime {
            camera_moving: false,
            camera_settle_until: Some((now + duration) as Nanos),
            tracking: false,
            target_offset: AxisValue::zero(),
            ..self
        }).refreshed(now)
    }

    /// The state after the camera has stopped.
    pub open spec fn stopped(self, settle: Nanos, now: Nanos) -> AiRuntime {
        (AiRuntime { ptz_velocity: AxisValue::zero(), ..self }).under_way(settle, now)
    }

    /// Tells whether the camera moves or is still settling.
    pub fn camera_motion_active(&self, now: Nanos) -> (active: bool)
        ensures
            active == self.in_motion(now),
    {
        self.camera_moving || match self.camera_settle_until {
            Some(until) => now < until,
            None => false,
        }
    }

    /// Brings the derived flags up to date.
    pub fn refresh_runtime_flags(&mut self, now: Nanos)
        ensures
            *final(self) == old(self).refreshed(now),
    {
        if !self.enabled {
            self.ai_active = false;
            self.manual_locked = false;
            return;
        }
        self.ai_active = self.motion_active || self.recording;
        self.manual_locked = self.ai_active || self.camera_motion_active(now);
    }

    /// The state before anything has been seen of the camera.
    pub open spec fn initial(enabled: bool, configured: bool) -> AiRuntime {
        AiRuntime {
            enabled,
            configured,
            available: false,
            ai_active: false,
            tracking: false,
            recording: false,
            manual_locked: false,
            motion_active: false,
            camera_moving: false,
            camera_settle_until: None,
            target_offset: AxisValue::zero(),
            ptz_velocity: AxisValue::zero(),
            last_error: None,
            event_id: 0,
        }
    }

    /// The state before anything has been seen of the camera.
    pub fn new(enabled: bool, configured: bool) -> (runtime: AiRuntime)
        ensures
            runtime == AiRuntime::initial(enabled, configured),
            runtime.consistent(),
    {
        AiRuntime {
            enabled,
            configured,
            available: false,
            ai_active: false,
            tracking: false,
            recording: false,
            manual_locked: false,
            motion_active: false,
            camera_moving: false,
            camera_settle_until: None,
            target_offset: AxisValue { x: 0, y: 0 },
            ptz_velocity: AxisValue { x: 0, y: 0 },
            last_error: None,
            event_id: 0,
        }
    }

    /// Switches the tracker on or off. It cannot be switched on without a stream
    /// to watch; the state is then left as it was. Switching it off clears all
    /// that was observed.
    pub fn set_enabled(&mut self, enabled: bool, now: Nanos) -> (outcome: Result<(), String>)
        ensures
            outcome is Err <==> enabled && !old(self).configured,
            outcome matches Err(message) ==> {
                &&& message@ == "AI is not configured. Set RTSP_URL or AI_RTSP_URL first."@
                &&& *final(self) == *old(self)
            },
            outcome is Ok && enabled ==> *final(self) == old(self).switched_on(now),
            outcome is Ok && !enabled ==> *final(self) == old(self).switched_off(),
            outcome is Ok ==> final(self).consistent(),
    {
        if enabled && !self.configured {
            return Err("AI is not configured. Set RTSP_URL or AI_RTSP_URL first.".to_owned());
        }
        self.enabled = enabled;
        if !enabled {
            self.available = false;
            self.camera_moving = false;
            self.camera_settle_until = None;
            self.recording = false;
            self.tracking = false;
            self.motion_active = false;
            self.target_offset = AxisValue::default();
            self.ptz_velocity = AxisValue::default();
            self.last_error = None;
        }
        self.refresh_runtime_flags(now);
        Ok(())
    }

    /// Records whether the detection stream is up.
    pub fn set_available(&mut self, available: bool)
        ensures
            *final(self) == old(self).with_availability(available),
            old(self).consistent() ==> final(self).consistent(),
    {
        self.available = available;
    }

    /// Records the velocity that the camera was last told to move with.
    pub fn set_ptz_velocity(&mut self, velocity: AxisValue)
        ensures
            *final(self) == old(self).with_velocity(velocity),
            old(self).consistent() ==> final(self).consistent(),
    {
        self.ptz_velocity = velocity;
    }

    /// Records whether a clip is being recorded; a tracker that is switched off
    /// records none.
    pub fn set_recording_state(&mut self, recording: bool, now: Nanos)
        ensures
            *final(self) == old(self).with_recording(recording, now),
            final(self).consistent(),
    {
        self.recording = self.enabled && recording;
        self.refresh_runtime_flags(now);
    }

    /// Forgets the last error.
    pub fn clear_error(&mut self)
        ensures
            *final(self) == old(self).with_error(None),
            old(self).consistent() ==> final(self).consistent(),
    {
        self.last_error = None;
    }

    /// Records an error.
    pub fn update_error(&mut self, message: String)
        ensures
            *final(self) == old(self).with_error(Some(message)),
            old(self).consistent() ==> final(self).consistent(),
    {
        self.last_error = Some(message);
    }

    /// There is no motion any more, and nothing to track.
    pub fn clear_detection_state(&mut self, now: Nanos)
        ensures
            *final(self) == old(self).without_motion(now),
            final(self).consistent(),
    {
        self.motion_active = false;
        self.tracking = false;
        self.target_offset = AxisValue::default();
        self.refresh_runtime_flags(now);
    }

    /// A target was seen at `offset`. `starts_event` tells that it begins a new
    /// event, which gets the next number.
    pub fn note_target(&mut self, offset: AxisValue, motion_active: bool, starts_event: bool, now: Nanos)
        ensures
            *final(self) == old(self).with_target(offset, motion_active, starts_event, now),
            final(self).consistent(),
    {
        if starts_event {
            self.event_id = self.event_id.saturating_add(1);
        }
        self.available = true;
        self.motion_active = motion_active;
        self.tracking = motion_active;
        self.target_offset = offset;
        self.refresh_runtime_flags(now);
    }

    /// The camera starts to move with `velocity`; what was tracked is lost.
    pub fn mark_camera_move_started(&mut self, velocity: AxisValue, now: Nanos)
        ensures
            *final(self) == old(self).moving(velocity, now),
            final(self).consistent(),
            final(self).in_motion(now),
    {
        self.camera_moving = true;
        self.camera_settle_until = None;
        self.ptz_velocity = velocity;
        self.tracking = false;
        self.target_offset = AxisValue::default();
        self.refresh_runtime_flags(now);
    }

    /// The camera stops; the picture settles for as long as `settle`.
    pub fn mark_camera_move_stopped(&mut self, settle: Nanos, now: Nanos)
        requires
            now + settle <= Nanos::MAX,
        ensures
            *final(self) == old(self).stopped(settle, now),
            final(self).consistent(),
            final(self).in_motion(now) == (settle > 0),
    {
        self.camera_moving = false;
        self.camera_settle_until = Some(now + settle);
        self.ptz_velocity = AxisValue::default();
        self.tracking = false;
        self.target_offset = AxisValue::default();
        self.refresh_runtime_flags(now);
    }

    /// The camera moves by itself for as long as `duration`.
    pub fn mark_camera_motion_for(&mut self, duration: Nanos, now: Nanos)
        requires
            now + duration <= Nanos::MAX,
        ensures
            *final(self) == old(self).under_way(duration, now),
            final(self).consistent(),
            final(self).in_motion(now) == (duration > 0),
    {
        self.camera_moving = false;
        self.camera_settle_until = Some(now + duration);
        self.tracking = false;
        self.target_offset = AxisValue::default();
        self.refresh_runtime_flags(now);
    }

    /// First half of the return home when a clip is finished: the commanded
    /// velocity is zero and, with a home preset, the camera is on its way for as
    /// long as `preset_settle`.
    pub fn begin_return_home(&mut self, has_home: bool, preset_settle: Nanos, now: Nanos)
        requires
            has_home ==> now + preset_settle <= Nanos::MAX,
        ensures
            *final(self) == old(self).going_home(has_home, preset_settle, now),
            old(self).consistent() ==> final(self).consistent(),
    {
        self.set_ptz_velocity(AxisValue::default());
        if has_home {
            self.mark_camera_motion_for(preset_settle, now);
        }
    }

    /// Second half of the return home: the event is over.
    pub fn finish_return_home(&mut self, now: Nanos)
        ensures
            *final(self) == old(self).at_home(now),
            final(self).consistent(),
    {
        self.camera_moving = false;
        self.tracking = false;
        self.motion_active = false;
        self.target_offset = AxisValue::default();
        self.refresh_runtime_flags(now);
    }

    /// Tells whether frames are to be ignored: the tracker is off, or the picture
    /// changes because the camera moves.
    pub fn detection_suppressed(&self, now: Nanos) -> (suppressed: bool)
        ensures
            suppressed == self.ignores_frames(now),
    {
        !self.enabled || self.camera_motion_active(now)
    }

    /// What the recorder has to know: whether there is motion, and the number of
    /// the event. A tracker that is switched off has neither.
    pub open spec fn for_recorder(self) -> (bool, u64) {
        if self.enabled {
            (self.motion_active, self.event_id)
        } else {
            (false, 0)
        }
    }

    /// Whether there is motion, and the number of the event.
    pub fn recording_inputs(&self) -> (inputs: (bool, u64))
        ensures
            inputs == self.for_recorder(),
    {
        if !self.enabled {
            (false, 0)
        } else {
            (self.motion_active, self.event_id)
        }
    }

    /// The report that describes the state at `now`.
    pub open spec fn response(self, now: Nanos) -> AiStateResponse {
        AiStateResponse {
            enabled: self.enabled,
            configured: self.configured,
            available: self.available,
            ai_active: self.ai_active,
            tracking: self.tracking,
            recording: self.recording,
            manual_locked: self.enabled && (self.ai_active || self.in_motion(now)),
            camera_moving: self.in_motion(now),
            target_offset: self.target_offset,
            ptz_velocity: self.ptz_velocity,
            last_error: self.last_error,
        }
    }

    /// Reports the state at `now`.
    pub fn ai_state_response(&self, now: Nanos) -> (response: AiStateResponse)
        ensures
            response == self.response(now),
    {
        let camera_moving = self.camera_motion_active(now);
        let last_error = match &self.last_error {
            Some(message) => Some(message.clone()),
            None => None,
        };
        AiStateResponse {
            enabled: self.enabled,
            configured: self.configured,
            available: self.available,
            ai_active: self.ai_active,
            tracking: self.tracking,
            recording: self.recording,
            manual_locked: self.enabled && (self.ai_active || camera_moving),
            camera_moving,
            target_offset: self.target_offset,
            ptz_velocity: self.ptz_velocity,
            last_error,
        }
    }
}

/// What two states have in common when nothing but motion, the target and the flags
/// that follow from them has changed.
pub open spec fn same_but_for_motion(a: AiRuntime, b: AiRuntime) -> bool {
    &&& a.enabled == b.enabled
    &&& a.configured == b.configured
    &&& a.recording == b.recording
    &&& a.camera_moving == b.camera_moving
    &&& a.camera_settle_until == b.camera_settle_until
    &&& a.ptz_velocity == b.ptz_velocity
    &&& a.last_error == b.last_error
}

/// What two states have in common when nothing but the camera's movement, the target
/// and the flags that follow from them has changed.
pub open spec fn same_but_for_movement(a: AiRuntime, b: AiRuntime) -> bool {
    &&& a.enabled == b.enabled
    &&& a.configured == b.configured
    &&& a.available == b.available
    &&& a.recording == b.recording
    &&& a.motion_active == b.motion_active
    &&& a.last_error == b.last_error
    &&& a.event_id == b.event_id
}

/// The two derived flags of a state are what the rest of it calls for at `now`.
pub open spec fn flags_are_due(state: AiRuntime, now: Nanos) -> bool {
    &&& state.ai_active <==> state.enabled && (state.motion_active || state.recording)
    &&& state.manual_locked <==> state.enabled && (state.motion_active || state.recording
        || state.camera_moving || (state.camera_settle_until is Some && now
        < state.camera_settle_until->0))
}

/// The camera counts as moving while it moves, and from a stop until the moment at
/// which the picture is said to have settled, that moment excluded.
pub proof fn law_camera_in_motion(state: AiRuntime, now: Nanos)
    ensures
        state.camera_moving ==> state.in_motion(now),
        !state.camera_moving && state.camera_settle_until is None ==> !state.in_motion(now),
        !state.camera_moving && state.camera_settle_until is Some ==> (state.in_motion(now) <==> now
            < state.camera_settle_until->0),
        state.ignores_frames(now) <==> (state.enabled ==> state.in_motion(now)),
{
}

/// At the start there is nothing but the two switches.
pub proof fn law_start_is_blank(enabled: bool, configured: bool, now: Nanos)
    ensures
        ({
            let state = AiRuntime::initial(enabled, configured);
            &&& state.enabled == enabled
            &&& state.configured == configured
            &&& !state.available && !state.tracking && !state.recording && !state.motion_active
            &&& !state.ai_active && !state.manual_locked
            &&& !state.in_motion(now)
            &&& state.camera_settle_until is None
            &&& state.target_offset == (AxisValue { x: 0, y: 0 })
            &&& state.ptz_velocity == (AxisValue { x: 0, y: 0 })
            &&& state.last_error is None
            &&& state.event_id == 0
        }),
{
}

/// A target that is seen is recorded as it was seen: there is motion, and something to
/// track, exactly if that is said of it. If it starts an event the number of the last
/// event goes up by exactly one, so no two events in a row have the same number;
/// otherwise the number stays.
pub proof fn law_target_is_recorded(
    state: AiRuntime,
    offset: AxisValue,
    motion_active: bool,
    starts_event: bool,
    now: Nanos,
)
    ensures
        ({
            let after = state.with_target(offset, motion_active, starts_event, now);
            &&& starts_event && state.event_id < 0xffff_ffff_ffff_ffff ==> after.event_id
                == state.event_id + 1
            &&& !starts_event ==> after.event_id == state.event_id
            &&& state.event_id == 0xffff_ffff_ffff_ffff ==> after.event_id == state.event_id
            &&& after.motion_active == motion_active
            &&& after.tracking == motion_active
            &&& after.target_offset == offset
            &&& after.available
            &&& same_but_for_motion(state, after)
            &&& flags_are_due(after, now)
        }),
{
}

/// Two events that follow one another, whatever happens to the state in between, have
/// different numbers, and the later one the greater.
pub proof fn law_events_have_their_own_numbers(
    first: AiRuntime,
    second: AiRuntime,
    offset: AxisValue,
    motion_active: bool,
    now: Nanos,
    later: Nanos,
)
    requires
        first.event_id < 0xffff_ffff_ffff_ffff,
        second.event_id < 0xffff_ffff_ffff_ffff,
        second.event_id >= first.with_target(offset, motion_active, true, now).event_id,
    ensures
        first.with_target(offset, motion_active, true, now).event_id > first.event_id,
        second.with_target(offset, motion_active, true, later).event_id > first.with_target(
            offset,
            motion_active,
            true,
            now,
        ).event_id,
{
}

/// When motion has ended there is nothing to track, and all else stays.
pub proof fn law_motion_is_cleared(state: AiRuntime, now: Nanos)
    ensures
        ({
            let after = state.without_motion(now);
            &&& !after.motion_active && !after.tracking
            &&& after.target_offset == (AxisValue { x: 0, y: 0 })
            &&& after.available == state.available
            &&& after.event_id == state.event_id
            &&& same_but_for_motion(state, after)
            &&& flags_are_due(after, now)
        }),
{
}

/// Whether a clip is recorded is taken over while the tracker is on; while it is off,
/// none is. All else stays.
pub proof fn law_recording_is_recorded(state: AiRuntime, recording: bool, now: Nanos)
    ensures
        ({
            let after = state.with_recording(recording, now);
            &&& state.enabled ==> after.recording == recording
            &&& !state.enabled ==> !after.recording
            &&& after.motion_active == state.motion_active
            &&& after.tracking == state.tracking
            &&& after.target_offset == state.target_offset
            &&& after.available == state.available
            &&& after.event_id == state.event_id
            &&& after.enabled == state.enabled
            &&& after.configured == state.configured
            &&& after.camera_moving == state.camera_moving
            &&& after.camera_settle_until == state.camera_settle_until
            &&& after.ptz_velocity == state.ptz_velocity
            &&& after.last_error == state.last_error
            &&& flags_are_due(after, now)
        }),
{
}

/// A movement, and every kind of stop, gives up the target; the movement has the
/// velocity that was commanded, and a settle time that was running is over with it.
/// A stop has no velocity, while a jump keeps the velocity that was last commanded;
/// both are over when their time has passed.
pub proof fn law_movement_is_recorded(
    state: AiRuntime,
    velocity: AxisValue,
    span: Nanos,
    now: Nanos,
)
    requires
        now + span <= Nanos::MAX,
    ensures
        ({
            let moving = state.moving(velocity, now);
            let stopped = state.stopped(span, now);
            let jumping = state.under_way(span, now);
            &&& moving.camera_moving && moving.camera_settle_until is None
            &&& moving.ptz_velocity == velocity
            &&& !stopped.camera_moving && stopped.camera_settle_until is Some
            &&& stopped.camera_settle_until->0 == now + span
            &&& stopped.ptz_velocity == (AxisValue { x: 0, y: 0 })
            &&& !jumping.camera_moving && jumping.camera_settle_until is Some
            &&& jumping.camera_settle_until->0 == now + span
            &&& jumping.ptz_velocity == state.ptz_velocity
            &&& gives_up_target(state, moving, now)
            &&& gives_up_target(state, stopped, now)
            &&& gives_up_target(state, jumping, now)
        }),
{
}

/// The target was given up because the camera moves, and nothing else was.
pub open spec fn gives_up_target(before: AiRuntime, after: AiRuntime, now: Nanos) -> bool {
    &&& !after.tracking
    &&& after.target_offset == (AxisValue { x: 0, y: 0 })
    &&& same_but_for_movement(before, after)
    &&& flags_are_due(after, now)
}

/// The return home stops the camera; with a home preset it then jumps, for as long as
/// a jump takes. At its end neither motion nor movement is left, but a settle time that
/// is running runs on, and so does everything else.
pub proof fn law_return_home(
    state: AiRuntime,
    has_home: bool,
    preset_settle: Nanos,
    now: Nanos,
    later: Nanos,
)
    requires
        now + preset_settle <= Nanos::MAX,
    ensures
        ({
            let going = state.going_home(has_home, preset_settle, now);
            let home = state.at_home(now);
            &&& going.ptz_velocity == (AxisValue { x: 0, y: 0 })
            &&& same_but_for_movement(state, going)
            &&& has_home ==> {
                &&& !going.tracking
                &&& going.in_motion(later) <==> later < now + preset_settle
            }
            &&& !has_home ==> {
                &&& going.tracking == state.tracking
                &&& going.target_offset == state.target_offset
                &&& going.in_motion(later) == state.in_motion(later)
                &&& going.ai_active == state.ai_active
                &&& going.manual_locked == state.manual_locked
            }
            &&& !home.camera_moving && !home.tracking && !home.motion_active
            &&& home.target_offset == (AxisValue { x: 0, y: 0 })
            &&& home.camera_settle_until == state.camera_settle_until
            &&& home.enabled == state.enabled && home.configured == state.configured
            &&& home.available == state.available && home.recording == state.recording
            &&& home.ptz_velocity == state.ptz_velocity
            &&& home.last_error == state.last_error
            &&& home.event_id == state.event_id
            &&& flags_are_due(home, now)
        }),
{
}

/// Availability, velocity and error are recorded as they are told, and each changes
/// nothing but itself.
pub proof fn law_notes_are_recorded(
    state: AiRuntime,
    available: bool,
    velocity: AxisValue,
    error: Option<String>,
)
    ensures
        state.with_availability(available).available == available,
        state.with_availability(available).with_availability(state.available) == state,
        state.with_velocity(velocity).ptz_velocity == velocity,
        state.with_velocity(velocity).with_velocity(state.ptz_velocity) == state,
        state.with_error(error).last_error == error,
        state.with_error(error).with_error(state.last_error) == state,
{
}

/// Switching the tracker on changes nothing but the switch and the flags that follow
/// from it; switching it off leaves nothing but whether there is a stream and the
/// number of the last event.
pub proof fn law_switching(state: AiRuntime, now: Nanos, later: Nanos)
    ensures
        ({
            let on = state.switched_on(now);
            let off = state.switched_off();
            &&& on.enabled
            &&& on.configured == state.configured && on.available == state.available
            &&& on.tracking == state.tracking && on.recording == state.recording
            &&& on.motion_active == state.motion_active
            &&& on.camera_moving == state.camera_moving
            &&& on.camera_settle_until == state.camera_settle_until
            &&& on.target_offset == state.target_offset
            &&& on.ptz_velocity == state.ptz_velocity
            &&& on.last_error == state.last_error && on.event_id == state.event_id
            &&& flags_are_due(on, now)
            &&& !off.enabled
            &&& off.configured == state.configured && off.event_id == state.event_id
            &&& !off.available && !off.tracking && !off.recording && !off.motion_active
            &&& !off.ai_active && !off.manual_locked
            &&& !off.in_motion(later)
            &&& off.target_offset == (AxisValue { x: 0, y: 0 })
            &&& off.ptz_velocity == (AxisValue { x: 0, y: 0 })
            &&& off.last_error is None
        }),
{
}

/// The report shows the state as it is; only whether the camera moves, and with it the
/// lock, is that of the moment of the report.
pub proof fn law_report_shows_the_state(state: AiRuntime, now: Nanos)
    ensures
        ({
            let report = state.response(now);
            &&& report.enabled == state.enabled && report.configured == state.configured
            &&& report.available == state.available && report.ai_active == state.ai_active
            &&& report.tracking == state.tracking && report.recording == state.recording
            &&& report.target_offset == state.target_offset
            &&& report.ptz_velocity == state.ptz_velocity
            &&& report.last_error == state.last_error
            &&& report.camera_moving <==> state.camera_moving || (state.camera_settle_until is Some
                && now < state.camera_settle_until->0)
            &&& report.manual_locked <==> state.enabled && (state.ai_active || report.camera_moving)
        }),
{
}

/// While the tracker is on, the recorder is told the number of the last event whether
/// or not there is motion, and whether there is motion whatever the number; while it is
/// off, it is told of neither.
pub proof fn law_recorder_is_told(state: AiRuntime)
    ensures
        state.enabled ==> state.for_recorder().1 == state.event_id,
        state.enabled ==> state.for_recorder().0 == state.motion_active,
        !state.enabled ==> state.for_recorder().1 == 0 && !state.for_recorder().0,
{
}

/// Bringing the flags up to date makes them agree with the rest of the state,
/// and doing it again changes nothing.
pub proof fn law_refresh_settles(state: AiRuntime, now: Nanos)
    ensures
        state.refreshed(now).consistent(),
        state.refreshed(now).refreshed(now) == state.refreshed(now),
{
}

/// Manual control is locked exactly while the tracker is on and either active or
/// the camera is moving or settling.
pub proof fn law_manual_lock(state: AiRuntime, now: Nanos)
    requires
        state.consistent(),
    ensures
        state.response(now).manual_locked <==> state.enabled && (state.motion_active
            || state.recording || state.in_motion(now)),
        state.response(now).manual_locked == state.refreshed(now).manual_locked,
{
}

/// While the camera moves, however long it does, it counts as moving, so frames
/// are ignored and manual control stays locked if the tracker is on.
pub proof fn law_movement_suppresses_detection(
    state: AiRuntime,
    velocity: AxisValue,
    started: Nanos,
    later: Nanos,
)
    ensures
        state.moving(velocity, started).in_motion(later),
        state.moving(velocity, started).response(later).camera_moving,
        state.moving(velocity, started).response(later).manual_locked == state.enabled,
        !state.moving(velocity, started).tracking,
{
}

/// After a stop, or a jump to a preset, the camera counts as moving until the
/// settle time has passed, and not longer.
pub proof fn law_settle_window(state: AiRuntime, settle: Nanos, stopped: Nanos, later: Nanos)
    requires
        stopped + settle <= Nanos::MAX,
    ensures
        state.stopped(settle, stopped).in_motion(later) <==> later < stopped + settle,
        state.under_way(settle, stopped).in_motion(later) <==> later < stopped + settle,
{
}

/// After a stop the report says that the camera moves until the settle time has
/// passed, and not longer; it shows no velocity and nothing that is tracked, and
/// all else that was observed stays.
pub proof fn law_stop_is_reported(state: AiRuntime, settle: Nanos, stopped: Nanos, later: Nanos)
    requires
        stopped + settle <= Nanos::MAX,
    ensures
        ({
            let before = state.response(stopped);
            let after = state.stopped(settle, stopped).response(later);
            &&& after.camera_moving <==> later < stopped + settle
            &&& after.ptz_velocity == AxisValue::zero()
            &&& !after.tracking
            &&& after.target_offset == AxisValue::zero()
            &&& after.enabled == before.enabled
            &&& after.configured == before.configured
            &&& after.available == before.available
            &&& after.recording == before.recording
            &&& after.last_error == before.last_error
        }),
{
}

/// The number of the last event never goes down, and goes up by one at most.
pub proof fn law_event_numbers_grow(
    state: AiRuntime,
    offset: AxisValue,
    motion_active: bool,
    starts_event: bool,
    span: Nanos,
    now: Nanos,
)
    ensures
        state.event_id <= state.with_target(offset, motion_active, starts_event, now).event_id
            <= state.event_id + 1,
        !starts_event ==> state.with_target(offset, motion_active, false, now).event_id
            == state.event_id,
        state.switched_on(now).event_id == state.event_id,
        state.switched_off().event_id == state.event_id,
        state.without_motion(now).event_id == state.event_id,
        state.with_recording(motion_active, now).event_id == state.event_id,
        state.moving(offset, now).event_id == state.event_id,
        state.under_way(span, now).event_id == state.event_id,
        state.stopped(span, now).event_id == state.event_id,
{
}

/// Switching the tracker off and on again leaves it as at the start, but for the
/// number of the last event.
pub proof fn law_off_and_on_again(state: AiRuntime, now: Nanos)
    ensures
        state.switched_off().switched_on(now) == (AiRuntime {
            event_id: state.event_id,
            ..AiRuntime::initial(true, state.configured)
        }),
        state.switched_off().consistent(),
{
}

/// A tracker that was switched off reports neither activity nor a lock.
pub proof fn law_disabled_is_idle(state: AiRuntime, now: Nanos)
    requires
        state.consistent(),
        !state.enabled,
    ensures
        !state.response(now).ai_active,
        !state.response(now).manual_locked,
{
}

} // verus!
