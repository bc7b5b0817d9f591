use cam_rs::axis::{is_beyond, is_within, AxisValue, PTZ_STOP_THRESHOLD, PTZ_UPDATE_THRESHOLD};
use cam_rs::config::{AiConfig, AiEnv};
use cam_rs::controller::{AiController, WorkerCommand};
use cam_rs::env_value::NumberVar;
use cam_rs::ptz::{note_answer, Aim, PtzCommand, PtzLoop, PtzStep};
use cam_rs::recording::{
    apply_recording, clip_file_name, recording_file_name, ClipBuffer, RecordingSession, RecordingStep,
};
use cam_rs::runtime::AiRuntime;
use cam_rs::worker::Backoff;

const SECOND: u128 = 1_000_000_000;

fn axis(x: f32, y: f32) -> AxisValue {
    AxisValue { x: x.to_bits(), y: y.to_bits() }
}

fn config(enabled: bool, stream: bool) -> AiConfig {
    let env = AiEnv {
        enabled: Some(enabled.to_string()),
        ffmpeg_bin: None,
        detection_width: None,
        detection_height: None,
        detection_fps: None,
        ema_alpha_milli: None,
        threshold: None,
        min_blob_percent: None,
        motion_start_frames: None,
        motion_end_frames: None,
        ptz_interval_ms: None,
        ptz_gain_x: NumberVar::Unset,
        ptz_gain_y: NumberVar::Unset,
        ptz_dead_zone: NumberVar::Unset,
        ptz_rate_limit: NumberVar::Unset,
        centered_hold_ms: None,
        pre_roll_secs: None,
        post_roll_secs: None,
        camera_settle_ms: None,
        preset_settle_ms: None,
        recordings_dir: None,
        home_preset_token: None,
        ai_rtsp_url: None,
        rtsp_url: if stream { Some("rtsp://camera".to_string()) } else { None },
    };
    match AiConfig::from_env(env) {
        Ok(cfg) => cfg,
        Err(reason) => panic!("{}", reason),
    }
}

#[test]
fn patterns_compare_as_numbers() {
    assert_eq!(PTZ_STOP_THRESHOLD, 0.01f32.to_bits());
    assert_eq!(PTZ_UPDATE_THRESHOLD, 0.02f32.to_bits());
    let numbers = [
        0.0f32,
        -0.0,
        1e-45,
        -1e-45,
        0.0099999,
        0.01,
        0.010001,
        -0.01,
        -0.02,
        0.1,
        -0.1,
        0.5,
        1.0,
        -1.0,
        f32::MAX,
        f32::MIN,
        f32::INFINITY,
        f32::NEG_INFINITY,
        f32::NAN,
        -f32::NAN,
    ];
    for a in numbers {
        assert_eq!(is_beyond(a.to_bits(), PTZ_STOP_THRESHOLD), a.abs() > 0.01);
        for b in numbers {
            assert_eq!(is_within(a.to_bits(), b.to_bits()), a.abs() < b, "{} {}", a, b);
            assert_eq!(axis(a, b) == axis(b, a), a == b, "{} {}", a, b);
            assert_eq!(axis(a, 0.0).is_both_within(b.to_bits()), a.abs() < b && 0.0 < b);
        }
    }
    assert!(AxisValue::default() == axis(0.0, -0.0));
}

#[test]
fn state_follows_the_camera() {
    let mut state = AiRuntime::new(true, true);
    assert!(!state.detection_suppressed(0));
    state.note_target(axis(0.5, 0.0), true, true, 0);
    assert!(state.ai_active && state.manual_locked);
    state.mark_camera_move_started(axis(0.3, 0.0), 10);
    assert!(state.detection_suppressed(u128::MAX) && !state.tracking);
    assert!(state.target_offset == AxisValue::default());
    let report = state.ai_state_response(20);
    assert!(report.camera_moving && report.manual_locked && report.ai_active);
    assert!(report.ptz_velocity == axis(0.3, 0.0));
    state.mark_camera_move_stopped(SECOND, 30);
    assert!(state.detection_suppressed(30 + SECOND - 1));
    assert!(!state.detection_suppressed(30 + SECOND));
    assert!(state.ptz_velocity == AxisValue::default());
    state.clear_detection_state(30 + SECOND);
    let report = state.ai_state_response(30 + SECOND);
    assert!(!report.manual_locked && !report.ai_active && !report.camera_moving);
    state.mark_camera_motion_for(5, 100);
    assert!(state.camera_motion_active(104) && !state.camera_motion_active(105));
}

#[test]
fn errors_recording_and_availability() {
    let mut state = AiRuntime::new(true, true);
    state.update_error("broken".to_string());
    assert_eq!(state.ai_state_response(0).last_error.as_deref(), Some("broken"));
    state.clear_error();
    assert!(state.ai_state_response(0).last_error.is_none());
    state.set_available(true);
    assert!(state.ai_state_response(0).available);
    state.set_recording_state(true, 0);
    assert!(state.recording && state.ai_active && state.manual_locked);
    state.set_recording_state(false, 0);
    assert!(!state.ai_active && !state.manual_locked);
    let mut off = AiRuntime::new(false, true);
    off.set_recording_state(true, 0);
    assert!(!off.recording);
    assert_eq!(off.recording_inputs(), (false, 0));
    assert!(off.detection_suppressed(0));
    state.note_target(axis(0.0, 0.0), true, true, 0);
    assert_eq!(state.recording_inputs(), (true, 1));
    state.event_id = u64::MAX;
    state.note_target(axis(0.0, 0.0), true, true, 0);
    assert_eq!(state.event_id, u64::MAX);
}

#[test]
fn return_home() {
    let mut state = AiRuntime::new(true, true);
    state.note_target(axis(0.5, 0.5), true, true, 0);
    state.set_ptz_velocity(axis(1.0, 1.0));
    state.begin_return_home(false, 100, 50);
    assert!(state.ptz_velocity == AxisValue::default() && state.tracking);
    state.begin_return_home(true, 100, 50);
    assert!(!state.tracking && state.camera_motion_active(149) && !state.camera_motion_active(150));
    state.finish_return_home(60);
    assert!(!state.motion_active && !state.ai_active && state.manual_locked);
    assert_eq!(state.event_id, 1);
}

#[test]
fn controller_starts_and_stops_workers() {
    let mut controller = AiController::spawn(config(false, true));
    assert!(!controller.workers_running);
    assert_eq!(controller.set_enabled(true, 0), Ok(WorkerCommand::Start));
    assert_eq!(controller.set_enabled(true, 0), Ok(WorkerCommand::Keep));
    controller.runtime.note_target(axis(0.1, 0.1), true, true, 0);
    controller.note_camera_move_started(axis(0.4, 0.0), 5);
    assert!(controller.snapshot(6).manual_locked);
    controller.note_camera_move_stopped(10);
    assert!(controller.snapshot(10 + 1_199_999_999).camera_moving);
    assert!(!controller.snapshot(10 + 1_200_000_000).camera_moving);
    controller.note_camera_preset_move(10);
    assert!(controller.snapshot(10 + 2_999_999_999).camera_moving);
    assert_eq!(controller.set_enabled(false, 20), Ok(WorkerCommand::Stop));
    assert_eq!(controller.set_enabled(false, 20), Ok(WorkerCommand::Keep));
    let report = controller.snapshot(20);
    assert!(!report.enabled && !report.ai_active && !report.camera_moving && report.configured);
    assert_eq!(controller.runtime.event_id, 1);
    assert!(AiController::spawn(config(true, true)).workers_running);
}

#[test]
fn controller_refuses_without_a_stream() {
    let mut controller = AiController::spawn(config(false, false));
    assert_eq!(
        controller.set_enabled(true, 0),
        Err("AI is not configured. Set RTSP_URL or AI_RTSP_URL first.".to_string())
    );
    assert!(!controller.runtime.enabled && !controller.workers_running);
    assert_eq!(controller.ensure_workers_running(), WorkerCommand::Keep);
    assert_eq!(controller.stop_workers(), WorkerCommand::Keep);
}

#[test]
fn steering_decisions() {
    let dead_zone = 0.1f32.to_bits();
    let mut ptz = PtzLoop::new();
    assert_eq!(ptz.tick(false, axis(0.0, 0.0), dead_zone, 500, 0), PtzStep::Idle);
    assert_eq!(
        ptz.tick(true, axis(0.5, -0.05), dead_zone, 500, 1),
        PtzStep::Steer { x: Aim::Follow, y: Aim::Rest }
    );
    assert!(ptz.centered_since.is_none());
    assert_eq!(
        ptz.tick(true, axis(0.05, -0.05), dead_zone, 500, 2),
        PtzStep::Steer { x: Aim::Rest, y: Aim::Rest }
    );
    assert_eq!(ptz.centered_since, Some(2));
    ptz.tick(true, axis(0.05, -0.05), dead_zone, 500, 600);
    assert_eq!(ptz.centered_since, Some(2));
    assert!(matches!(ptz.command(axis(0.2, 0.0), axis(0.019, 0.0)), PtzCommand::Skip));
    assert!(matches!(ptz.command(axis(0.009, 0.0), axis(0.1, 0.0)), PtzCommand::Stop));
    match ptz.command(axis(0.2, 0.0), axis(0.02, 0.0)) {
        PtzCommand::Move(value) => assert!(value == axis(0.2, 0.0)),
        _ => panic!("no movement"),
    }
}

#[test]
fn a_drifting_camera_is_stopped_in_the_centre() {
    let mut ptz = PtzLoop::new();
    for left in [0.015f32, -0.015, 0.01] {
        ptz.last_sent = axis(left, 0.0);
        let step = ptz.tick(true, axis(0.05, 0.0), 0.1f32.to_bits(), 500, 1);
        assert_eq!(step, PtzStep::Steer { x: Aim::Rest, y: Aim::Rest });
        assert!(matches!(ptz.command(axis(0.0, 0.0), axis(-left, 0.0)), PtzCommand::Stop));
        let mut state = AiRuntime::new(true, true);
        ptz.command_answered(&mut state, axis(0.0, 0.0), None, SECOND, 2);
        assert!(!ptz.needs_final_stop());
        assert!(matches!(ptz.command(axis(0.0, 0.0), axis(0.0, 0.0)), PtzCommand::Skip));
    }
    ptz.last_sent = axis(0.009, 0.0);
    assert!(matches!(ptz.command(axis(0.0, 0.0), axis(-0.009, 0.0)), PtzCommand::Skip));
    ptz.last_sent = axis(0.3, 0.0);
    assert!(matches!(ptz.command(axis(0.29, 0.0), axis(-0.01, 0.0)), PtzCommand::Skip));
}

#[test]
fn a_small_change_off_the_centre_is_skipped() {
    let mut ptz = PtzLoop::new();
    ptz.last_sent = axis(0.015, 0.0);
    let step = ptz.tick(true, axis(0.12, 0.0), 0.1f32.to_bits(), 500, 1);
    assert_eq!(step, PtzStep::Steer { x: Aim::Follow, y: Aim::Rest });
    assert!(matches!(ptz.command(axis(0.006, 0.0), axis(-0.009, 0.0)), PtzCommand::Skip));
    ptz.tick(true, axis(0.09, 0.0), 0.1f32.to_bits(), 500, 2);
    assert!(matches!(ptz.command(axis(0.006, 0.0), axis(-0.009, 0.0)), PtzCommand::Stop));
}

#[test]
fn a_camera_comes_to_rest_in_the_centre() {
    let mut ptz = PtzLoop::new();
    let mut state = AiRuntime::new(true, true);
    ptz.last_sent = axis(0.715, -0.3);
    let mut stops = 0;
    for now in 0..10u128 {
        let last = (f32::from_bits(ptz.last_sent.x), f32::from_bits(ptz.last_sent.y));
        let x = last.0 - last.0.clamp(-0.2, 0.2);
        let y = last.1 - last.1.clamp(-0.2, 0.2);
        ptz.tick(true, axis(0.0, 0.0), 0.1f32.to_bits(), 500, now);
        match ptz.command(axis(x, y), axis(x - last.0, y - last.1)) {
            PtzCommand::Skip => continue,
            PtzCommand::Stop => stops += 1,
            PtzCommand::Move(_) => assert_eq!(stops, 0),
        }
        ptz.command_answered(&mut state, axis(x, y), None, 0, now);
    }
    assert_eq!(stops, 1);
    assert!(!ptz.needs_final_stop() && !state.camera_moving);
    assert!(state.ptz_velocity == AxisValue::default());
}

#[test]
fn reports_are_compared_by_their_contents() {
    let mut state = AiRuntime::new(true, true);
    let first = state.ai_state_response(0);
    assert!(first == state.ai_state_response(1));
    state.set_ptz_velocity(axis(-0.0, 0.0));
    assert!(first == state.ai_state_response(1));
    state.update_error("a".to_string());
    let failed = state.ai_state_response(1);
    assert!(first != failed);
    state.update_error("b".to_string());
    assert!(failed != state.ai_state_response(1));
    state.update_error("a".to_string());
    assert!(failed == state.ai_state_response(1));
    state.set_ptz_velocity(axis(f32::NAN, 0.0));
    assert!(state.ai_state_response(1) != state.ai_state_response(1));
}

#[test]
fn answers_of_the_camera() {
    let mut ptz = PtzLoop::new();
    let mut state = AiRuntime::new(true, true);
    state.update_error("old".to_string());
    ptz.command_answered(&mut state, axis(0.2, 0.1), None, SECOND, 0);
    assert!(ptz.last_sent == axis(0.2, 0.1) && state.camera_moving);
    assert!(state.last_error.is_none() && state.ptz_velocity == axis(0.2, 0.1));
    assert!(ptz.needs_final_stop());
    ptz.command_answered(&mut state, axis(0.5, 0.1), Some("no".to_string()), SECOND, 1);
    assert!(ptz.last_sent == axis(0.2, 0.1));
    assert_eq!(state.last_error.as_deref(), Some("no"));
    assert_eq!(ptz.tick(false, axis(0.0, 0.0), 0, 0, 2), PtzStep::StopUntracked);
    ptz.untracked_stop_answered(&mut state, Some("still no".to_string()), SECOND, 2);
    assert!(ptz.last_sent == AxisValue::default() && state.camera_moving);
    assert_eq!(ptz.tick(false, axis(0.0, 0.0), 0, 0, 3), PtzStep::Idle);
    ptz.untracked_stop_answered(&mut state, None, SECOND, 3);
    assert!(!state.camera_moving && state.camera_settle_until == Some(3 + SECOND));
    ptz.command_answered(&mut state, axis(0.0, 0.0), None, SECOND, 4);
    assert!(!state.camera_moving && !ptz.needs_final_stop());
    note_answer(&mut state, Some("x".to_string()));
    assert_eq!(state.last_error.as_deref(), Some("x"));
    note_answer(&mut state, None);
    assert!(state.last_error.is_none());
}

#[test]
fn waits_double_up_to_a_limit() {
    let mut backoff = Backoff::new();
    let failed: Result<bool, String> = Err("x".to_string());
    let waits: Vec<Option<u64>> = (0..6).map(|_| backoff.session_over(&failed)).collect();
    assert_eq!(waits, vec![Some(2), Some(4), Some(8), Some(16), Some(30), Some(30)]);
    assert_eq!(backoff.session_over(&Ok(false)), Some(1));
    assert_eq!(backoff.session_over(&Ok(true)), None);
}

fn finished(step: RecordingStep) -> ClipBuffer {
    match step {
        RecordingStep::Finished(clip) => clip,
        _ => panic!("not finished"),
    }
}

#[test]
fn clips_span_pre_roll_event_and_post_roll() {
    let mut session = RecordingSession::new(&config(true, true));
    let at = |seconds: u128| seconds * SECOND;
    assert!(matches!(session.on_chunk_at(b"a", at(1), false, 0, 0), RecordingStep::Keep));
    assert!(matches!(session.on_chunk_at(b"b", at(2), false, 0, 0), RecordingStep::Keep));
    assert!(matches!(session.on_chunk_at(b"c", at(5), true, 1, 77), RecordingStep::Started));
    assert!(matches!(session.on_chunk_at(b"d", at(6), true, 1, 78), RecordingStep::Keep));
    assert!(matches!(session.on_chunk_at(b"e", at(7), false, 1, 79), RecordingStep::Keep));
    assert!(matches!(session.on_chunk_at(b"f", at(9), true, 1, 80), RecordingStep::Keep));
    assert!(matches!(session.on_chunk_at(b"g", at(10), false, 1, 81), RecordingStep::Keep));
    assert!(matches!(session.on_chunk_at(b"h", at(16), false, 1, 82), RecordingStep::Keep));
    let clip = finished(session.on_chunk_at(b"i", at(17), false, 1, 83));
    assert_eq!(clip.started_at, 77);
    assert_eq!(clip.bytes, b"bcdefghi".to_vec());
    assert_eq!(clip.post_roll_deadline, Some(at(17)));
    assert!(matches!(session.on_chunk_at(b"j", at(18), true, 1, 84), RecordingStep::Keep));
    assert!(matches!(session.on_chunk_at(b"k", at(19), true, 2, 85), RecordingStep::Started));
    assert_eq!(session.pre_roll.len(), 4);
    assert!(matches!(session.on_chunk_at(b"l", at(20), false, 0, 86), RecordingStep::Cancelled));
    assert_eq!(session.active_event_id, 0);
    assert!(matches!(session.on_chunk_at(b"m", at(21), true, 2, 87), RecordingStep::Started));
}

#[test]
fn clips_copy_the_stream() {
    let mut session = RecordingSession::new(&config(true, true));
    assert!(matches!(session.on_chunk_at(&[7], 0, true, 1, 0), RecordingStep::Started));
    assert!(matches!(session.on_chunk_at(&[8], SECOND, false, 1, 0), RecordingStep::Keep));
    let clip = finished(session.on_chunk_at(&[9], 8 * SECOND, false, 1, 0));
    assert_eq!(clip.bytes, vec![7, 8, 9]);
}

#[test]
fn the_pre_roll_has_an_exact_start() {
    let mut session = RecordingSession::new(&config(true, true));
    session.on_chunk_at(&[1], 0, false, 1, 0);
    session.on_chunk_at(&[2], 1, false, 1, 0);
    session.on_chunk_at(&[3], 2 * SECOND, false, 1, 0);
    let step = session.on_chunk_at(&[4], 3 * SECOND + 1, true, 1, 0);
    assert!(matches!(step, RecordingStep::Started));
    match &session.clip {
        Some(clip) => assert_eq!(clip.bytes, vec![2, 3, 4]),
        None => panic!("no clip"),
    }
}

#[test]
fn steps_of_the_recorder_reach_the_state() {
    let mut state = AiRuntime::new(true, true);
    apply_recording(&mut state, &RecordingStep::Keep, 0);
    assert!(!state.recording);
    apply_recording(&mut state, &RecordingStep::Started, 0);
    assert!(state.recording && state.manual_locked);
    apply_recording(&mut state, &RecordingStep::Cancelled, 0);
    assert!(!state.recording && !state.manual_locked);
    apply_recording(&mut state, &RecordingStep::Started, 0);
    let clip = ClipBuffer { started_at: 0, post_roll_deadline: None, bytes: Vec::new() };
    apply_recording(&mut state, &RecordingStep::Finished(clip), 0);
    assert!(!state.recording);
    let mut off = AiRuntime::new(false, true);
    apply_recording(&mut off, &RecordingStep::Started, 0);
    assert!(!off.recording);
}

#[test]
fn clips_are_dated_by_the_wall_clock() {
    let mut session = RecordingSession::new(&config(true, true));
    assert!(matches!(session.on_chunk(b"a", 0, true, 1), RecordingStep::Started));
    match &session.clip {
        Some(clip) => {
            assert!(clip.started_at > 1_600_000_000_000_000_000);
            assert_eq!(clip.bytes, b"a".to_vec());
        }
        None => panic!("no clip"),
    }
}

#[test]
fn clip_names() {
    assert_eq!(clip_file_name("2024-05-06T07:08:09Z"), "motion-2024-05-06T07-08-09Z.ts");
    assert_eq!(
        recording_file_name(1_714_979_289_000_000_000),
        Ok("motion-2024-05-06T07-08-09Z.ts".to_string())
    );
    assert_eq!(
        recording_file_name(1_714_979_289_120_000_000),
        Ok("motion-2024-05-06T07-08-09.12Z.ts".to_string())
    );
    assert_eq!(
        recording_file_name(253_402_300_799_999_999_999),
        Ok("motion-9999-12-31T23-59-59.999999999Z.ts".to_string())
    );
    assert!(recording_file_name(253_402_300_800_000_000_000).is_err());
    assert!(recording_file_name(i128::MAX).is_err());
    assert_eq!(recording_file_name(0), Ok("motion-1970-01-01T00-00-00Z.ts".to_string()));
}
