//! The motion tracker as a whole: its state, and whether its workers run.

use vstd::prelude::*;
use crate::axis::AxisValue;
use crate::config::AiConfig;
use crate::runtime::{AiRuntime, AiStateResponse, Nanos};

verus! {

/// What is to be done about the workers.
#[derive(Clone, Copy, PartialEq, Eq, Structural, Debug)]
pub enum WorkerCommand {
    Keep,
    Start,
    Stop,
}

/// What is to be done about workers that run, or do not, when they are wanted, or not.
pub open spec fn command_for_workers(running: bool, wanted: bool) -> WorkerCommand {
    if wanted == running {
        WorkerCommand::Keep
    } else if wanted {
        WorkerCommand::Start
    } else {
        WorkerCommand::Stop
    }
}

/// The motion tracker: its state, its configuration, and whether its workers run.
pub struct AiController {
    pub runtime: AiRuntime,
    pub workers_running: bool,
    pub cfg: AiConfig,
}

impl AiController {
    /// The derived flags agree with the state, and the state knows whether there is
    /// a stream.
    pub open spec fn wf(self) -> bool {
        &&& self.runtime.consistent()
        &&& self.runtime.configured == self.cfg.configured
    }

    /// The workers run exactly while the tracker is on.
    pub open spec fn in_step(self) -> bool {
        self.workers_running == self.runtime.enabled
    }

    /// The tracker as configured. Its workers are to run from the start if it is on
    /// and has a stream.
    pub fn spawn(cfg: AiConfig) -> (controller: AiController)
        ensures
            controller.wf(),
            controller.cfg == cfg,
            controller.runtime == AiRuntime::initial(cfg.enabled, cfg.configured),
            controller.workers_running == (cfg.enabled && cfg.configured),
            (cfg.enabled ==> cfg.configured) ==> controller.in_step(),
    {
        AiController {
            runtime: AiRuntime::new(cfg.enabled, cfg.configured),
            workers_running: cfg.enabled && cfg.configured,
            cfg,
        }
    }

    /// Reports the state at `now`.
    pub fn snapshot(&self, now: Nanos) -> (response: AiStateResponse)
        ensures
            response == self.runtime.response(now),
    {
        self.runtime.ai_state_response(now)
    }

    /// Switches the tracker on or off and tells what is to be done about the
    /// workers. Without a stream it cannot be switched on, and nothing changes.
    pub fn set_enabled(&mut self, enabled: bool, now: Nanos) -> (outcome: Result<
        WorkerCommand,
        String,
    >)
        requires
            old(self).wf(),
        ensures
            final(self).wf(),
            final(self).cfg == old(self).cfg,
            outcome is Err <==> enabled && !old(self).cfg.configured,
            outcome matches Err(message) ==> {
                &&& message@ == "AI is not configured. Set RTSP_URL or AI_RTSP_URL first."@
                &&& *final(self) == *old(self)
            },
            outcome matches Ok(command) ==> {
                &&& final(self).workers_running == enabled
                &&& final(self).in_step()
                &&& command == command_for_workers(old(self).workers_running, enabled)
                &&& enabled ==> final(self).runtime == old(self).runtime.switched_on(now)
                &&& !enabled ==> final(self).runtime == old(self).runtime.switched_off()
            },
    {
        match self.runtime.set_enabled(enabled, now) {
            Ok(()) => {
                if enabled {
                    Ok(self.ensure_workers_running())
                } else {
                    Ok(self.stop_workers())
                }
            },
            Err(message) => Err(message),
        }
    }

    /// Starts the workers if there is a stream and they do not run.
    pub fn ensure_workers_running(&mut self) -> (command: WorkerCommand)
        ensures
            final(self).runtime == old(self).runtime,
            final(self).cfg == old(self).cfg,
            final(self).workers_running == (old(self).workers_running || old(self).cfg.configured),
            command == if old(self).cfg.configured && !old(self).workers_running {
                WorkerCommand::Start
            } else {
                WorkerCommand::Keep
            },
    {
        if !self.cfg.configured {
            return WorkerCommand::Keep;
        }
        if self.workers_running {
            WorkerCommand::Keep
        } else {
            self.workers_running = true;
            WorkerCommand::Start
        }
    }

    /// Stops the workers if they run.
    pub fn stop_workers(&mut self) -> (command: WorkerCommand)
        ensures
            final(self).runtime == old(self).runtime,
            final(self).cfg == old(self).cfg,
            !final(self).workers_running,
            command == if old(self).workers_running {
                WorkerCommand::Stop
            } else {
                WorkerCommand::Keep
            },
    {
        if self.workers_running {
            self.workers_running = false;
            WorkerCommand::Stop
        } else {
            WorkerCommand::Keep
        }
    }

    /// The camera was told to move by hand.
    pub fn note_camera_move_started(&mut self, velocity: AxisValue, now: Nanos)
        requires
            old(self).wf(),
        ensures
            final(self).wf(),
            final(self).cfg == old(self).cfg,
            final(self).workers_running == old(self).workers_running,
            final(self).runtime == old(self).runtime.moving(velocity, now),
            old(self).in_step() ==> final(self).in_step(),
    {
        self.runtime.mark_camera_move_started(velocity, now);
    }

    /// The camera was told to stop by hand.
    pub fn note_camera_move_stopped(&mut self, now: Nanos)
        requires
            old(self).wf(),
            now + old(self).cfg.camera_settle <= Nanos::MAX,
        ensures
            final(self).wf(),
            final(self).cfg == old(self).cfg,
            final(self).workers_running == old(self).workers_running,
            final(self).runtime == old(self).runtime.stopped(old(self).cfg.camera_settle, now),
            old(self).in_step() ==> final(self).in_step(),
    {
        self.runtime.mark_camera_move_stopped(self.cfg.camera_settle, now);
    }

    /// The camera was told to go to a preset by hand.
    pub fn note_camera_preset_move(&mut self, now: Nanos)
        requires
            old(self).wf(),
            now + old(self).cfg.preset_settle <= Nanos::MAX,
        ensures
            final(self).wf(),
            final(self).cfg == old(self).cfg,
            final(self).workers_running == old(self).workers_running,
            final(self).runtime == old(self).runtime.under_way(
                old(self).cfg.preset_settle,
                now,
            ),
            old(self).in_step() ==> final(self).in_step(),
    {
        self.runtime.mark_camera_motion_for(self.cfg.preset_settle, now);
    }
}

/// Workers are started exactly if they are wanted and do not run, and stopped exactly if they
/// run and are not wanted.
pub proof fn law_workers_follow_the_switch(running: bool, wanted: bool)
    ensures
        command_for_workers(running, wanted) == WorkerCommand::Start <==> wanted && !running,
        command_for_workers(running, wanted) == WorkerCommand::Stop <==> running && !wanted,
{
}

} // verus!
