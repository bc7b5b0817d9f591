use cam_rs::axis::AxisValue;
use cam_rs::config::{AiConfig, AiEnv};
use cam_rs::detection::{
    apply_detection, detection_args, detection_ended, detection_filter, recording_args,
    recording_ended, DetectionEvent, DetectionSession,
};
use cam_rs::detector::{MotionDetector, TrackUpdate};
use cam_rs::env_value::NumberVar;
use cam_rs::morphology::{dilate, erode};
use cam_rs::region::{largest_region, Blob};
use cam_rs::runtime::AiRuntime;

const SECOND: u128 = 1_000_000_000;

fn empty_env() -> AiEnv {
    AiEnv {
        enabled: None,
        ffmpeg_bin: None,
        detection_width: None,
        detection_height: None,
        detection_fps: None,
        ema_alpha_milli: None,
        threshold: None,
        min_blob_percent: None,
        motion_start_frames: None,
        motion_end_frames: None,
        ptz_interval_ms: None,
        ptz_gain_x: NumberVar::Unset,
        ptz_gain_y: NumberVar::Unset,
        ptz_dead_zone: NumberVar::Unset,
        ptz_rate_limit: NumberVar::Unset,
        centered_hold_ms: None,
        pre_roll_secs: None,
        post_roll_secs: None,
        camera_settle_ms: None,
        preset_settle_ms: None,
        recordings_dir: None,
        home_preset_token: None,
        ai_rtsp_url: None,
        rtsp_url: Some("rtsp://camera/stream".to_string()),
    }
}

fn config(width: usize, height: usize) -> AiConfig {
    let mut env = empty_env();
    env.detection_width = Some(width.to_string());
    env.detection_height = Some(height.to_string());
    match AiConfig::from_env(env) {
        Ok(cfg) => cfg,
        Err(reason) => panic!("{}", reason),
    }
}

fn frame_with_block(width: usize, height: usize, x0: usize, y0: usize, side: usize) -> Vec<u8> {
    let mut frame = vec![10u8; width * height];
    for y in y0..y0 + side {
        for x in x0..x0 + side {
            frame[y * width + x] = 200;
        }
    }
    frame
}

fn target(update: Option<TrackUpdate>) -> TrackUpdate {
    match update {
        Some(update) => update,
        None => panic!("no target"),
    }
}

#[test]
fn erosion_keeps_centres_of_full_blocks() {
    let input = vec![
        1, 1, 1, 0, 0, //
        1, 1, 1, 0, 1, //
        1, 1, 7, 0, 0, //
        0, 0, 0, 0, 0,
    ];
    let mut output = vec![9u8; 20];
    erode(5, 4, &input, &mut output);
    let mut expected = vec![0u8; 20];
    expected[6] = 1;
    assert_eq!(output, expected);
}

#[test]
fn dilation_grows_ones_into_the_interior_only() {
    let mut input = vec![0u8; 25];
    input[12] = 1;
    let mut output = vec![9u8; 25];
    dilate(5, 5, &input, &mut output);
    let mut expected = vec![0u8; 25];
    for y in 1..4 {
        for x in 1..4 {
            expected[y * 5 + x] = 1;
        }
    }
    assert_eq!(output, expected);

    let mut corner = vec![0u8; 25];
    corner[0] = 1;
    corner[24] = 2;
    dilate(5, 5, &corner, &mut output);
    let mut expected = vec![0u8; 25];
    expected[6] = 1;
    assert_eq!(output, expected);
}

#[test]
fn narrow_grids_are_cleared() {
    let input = vec![1u8; 8];
    let mut output = vec![5u8; 8];
    erode(2, 4, &input, &mut output);
    assert_eq!(output, vec![0u8; 8]);
    let mut output = vec![5u8; 3];
    dilate(4, 2, &input, &mut output);
    assert_eq!(output, vec![0u8; 3]);
    let mut nothing: Vec<u8> = Vec::new();
    erode(0, 0, &[], &mut nothing);
    assert_eq!(nothing.len(), 0);
}

#[test]
fn opening_removes_specks_and_keeps_blocks() {
    let (width, height) = (9usize, 7usize);
    let mut mask = vec![0u8; width * height];
    for y in 1..4 {
        for x in 1..4 {
            mask[y * width + x] = 1;
        }
    }
    mask[5 * width + 6] = 1;
    mask[5 * width + 7] = 1;
    let mut scratch = vec![0u8; width * height];
    let mut cleaned = vec![0u8; width * height];
    erode(width, height, &mask, &mut scratch);
    dilate(width, height, &scratch, &mut cleaned);
    for i in 0..mask.len() {
        let in_block = (1..4).contains(&(i % width)) && (1..4).contains(&(i / width));
        assert_eq!(cleaned[i] == 1, in_block);
        assert!(cleaned[i] == 0 || mask[i] != 0);
    }
}

#[test]
fn largest_region_counts_diagonal_neighbours() {
    let mask = vec![
        1, 0, 0, 0, 1, //
        0, 1, 0, 0, 1, //
        0, 0, 3, 0, 1, //
        1, 0, 0, 0, 0,
    ];
    let mut visited = vec![7u8; 20];
    let mut stack = vec![3usize];
    let found = largest_region(&mask, 5, 4, 1, &mut visited, &mut stack);
    assert_eq!(found, Some(Blob { area: 3, sum_x: 3, sum_y: 3 }));
    assert_eq!(largest_region(&mask, 5, 4, 4, &mut visited, &mut stack), None);
    let later = vec![
        1, 0, 0, 0, 1, //
        0, 0, 0, 0, 1, //
        0, 0, 0, 0, 1, //
        1, 0, 0, 0, 0,
    ];
    let found = largest_region(&later, 5, 4, 1, &mut visited, &mut stack);
    assert_eq!(found, Some(Blob { area: 3, sum_x: 12, sum_y: 3 }));
}

#[test]
fn empty_mask_has_no_region() {
    let mut visited = Vec::new();
    let mut stack = Vec::new();
    assert_eq!(largest_region(&Vec::new(), 0, 0, 1, &mut visited, &mut stack), None);
    let mut visited = vec![1u8; 4];
    assert_eq!(largest_region(&vec![0u8; 4], 2, 2, 1, &mut visited, &mut stack), None);
}

struct Plain {
    width: usize,
    height: usize,
    alpha: i64,
    base: i64,
    min_area: usize,
    primed: bool,
    background: Vec<i64>,
    mask: Vec<u8>,
}

impl Plain {
    fn largest(&mut self, frame: &[u8]) -> Option<Blob> {
        if !self.primed {
            for (bg, px) in self.background.iter_mut().zip(frame.iter()) {
                *bg = (*px as i64) << 8;
            }
            self.primed = true;
        }
        let mut sum = 0i64;
        for (i, px) in frame.iter().enumerate() {
            let current = (*px as i64) << 8;
            let bg = self.background[i];
            let updated = bg + (current - bg) * self.alpha / 1000;
            self.background[i] = updated;
            sum += (current - updated).abs() >> 8;
        }
        let threshold = self.base.max((sum / frame.len() as i64 + 4).min(255));
        for (i, px) in frame.iter().enumerate() {
            let diff = (*px as i64 - (self.background[i] >> 8)).abs();
            self.mask[i] = u8::from(diff >= threshold);
        }
        let (w, h) = (self.width as i64, self.height as i64);
        let around = |mask: &Vec<u8>, x: i64, y: i64| -> Vec<u8> {
            let mut values = Vec::new();
            for ny in y - 1..=y + 1 {
                for nx in x - 1..=x + 1 {
                    values.push(mask[(ny * w + nx) as usize]);
                }
            }
            values
        };
        let inner = |x: i64, y: i64| x >= 1 && y >= 1 && x < w - 1 && y < h - 1;
        let mut eroded = vec![0u8; self.mask.len()];
        let mut opened = vec![0u8; self.mask.len()];
        for y in 0..h {
            for x in 0..w {
                if inner(x, y) {
                    eroded[(y * w + x) as usize] =
                        u8::from(around(&self.mask, x, y).iter().all(|v| *v != 0));
                }
            }
        }
        for y in 0..h {
            for x in 0..w {
                if inner(x, y) {
                    opened[(y * w + x) as usize] =
                        u8::from(around(&eroded, x, y).iter().any(|v| *v == 1));
                }
            }
        }
        self.mask = opened;
        let mut label = vec![usize::MAX; self.mask.len()];
        for i in 0..label.len() {
            if self.mask[i] != 0 {
                label[i] = i;
            }
        }
        loop {
            let mut changed = false;
            for i in 0..label.len() {
                for j in 0..label.len() {
                    let (xi, yi) = (i as i64 % w, i as i64 / w);
                    let (xj, yj) = (j as i64 % w, j as i64 / w);
                    if self.mask[i] != 0
                        && self.mask[j] != 0
                        && (xi - xj).abs() <= 1
                        && (yi - yj).abs() <= 1
                        && label[j] < label[i]
                    {
                        label[i] = label[j];
                        changed = true;
                    }
                }
            }
            if !changed {
                break;
            }
        }
        let mut best: Option<Blob> = None;
        for seed in 0..label.len() {
            let members: Vec<usize> =
                (0..label.len()).filter(|i| label[*i] == seed && self.mask[*i] != 0).collect();
            if members.is_empty() || members.len() < self.min_area {
                continue;
            }
            let blob = Blob {
                area: members.len(),
                sum_x: members.iter().map(|i| (*i % self.width) as u128).sum(),
                sum_y: members.iter().map(|i| (*i / self.width) as u128).sum(),
            };
            let better = match best {
                Some(current) => blob.area > current.area,
                None => true,
            };
            if better {
                best = Some(blob);
            }
        }
        best
    }
}

#[test]
fn detector_agrees_with_a_plain_computation() {
    let (width, height) = (12usize, 9usize);
    let mut cfg = config(width, height);
    cfg.motion_start_frames = 1;
    cfg.ema_alpha_milli = 137;
    cfg.threshold = 12;
    cfg.min_blob_percent = 2;
    let mut detector = MotionDetector::new(&cfg);
    let mut plain = Plain {
        width,
        height,
        alpha: 137,
        base: 12,
        min_area: 2,
        primed: false,
        background: vec![0; width * height],
        mask: vec![0; width * height],
    };
    let mut seed = 12345u64;
    let mut found_any = 0;
    for round in 0..60u128 {
        let mut frame = vec![0u8; width * height];
        for px in frame.iter_mut() {
            seed = seed.wrapping_mul(6364136223846793005).wrapping_add(1442695040888963407);
            *px = (seed >> 60) as u8;
        }
        for _ in 0..3 {
            seed = seed.wrapping_mul(6364136223846793005).wrapping_add(1442695040888963407);
            let x0 = (seed >> 33) as usize % (width - 4);
            let y0 = (seed >> 43) as usize % (height - 4);
            let level = (seed >> 56) as u8;
            for y in y0..y0 + 4 {
                for x in x0..x0 + 4 {
                    frame[y * width + x] = level;
                }
            }
        }
        let expected = plain.largest(&frame);
        let update = detector.process_frame(&frame, round * SECOND);
        assert_eq!(update.map(|u| u.blob), expected);
        if expected.is_some() {
            found_any += 1;
        }
    }
    assert!(found_any > 10);
}

#[test]
fn motion_is_reported_after_enough_frames() {
    let cfg = config(16, 12);
    let mut detector = MotionDetector::new(&cfg);
    let still = vec![10u8; 16 * 12];
    assert!(detector.process_frame(&still, 0).is_none());
    let moved = frame_with_block(16, 12, 4, 3, 4);
    assert!(detector.process_frame(&moved, SECOND).is_none());
    assert_eq!(detector.motion_frames(), 1);
    let update = target(detector.process_frame(&moved, 2 * SECOND));
    assert_eq!(update.blob, Blob { area: 16, sum_x: 88, sum_y: 72 });
    assert!(update.blend_with.is_none());
    assert!(!detector.motion_ended(1));
}

#[test]
fn frames_with_motion_must_follow_one_another() {
    let mut cfg = config(16, 12);
    cfg.ema_alpha_milli = 1;
    let mut detector = MotionDetector::new(&cfg);
    let still = vec![10u8; 16 * 12];
    let moved = frame_with_block(16, 12, 4, 3, 4);
    assert!(detector.process_frame(&still, 0).is_none());
    assert!(detector.process_frame(&moved, 1).is_none());
    assert!(detector.process_frame(&still, 2).is_none());
    assert_eq!(detector.motion_frames(), 0);
    assert!(detector.process_frame(&moved, 3).is_none());
    assert!(detector.process_frame(&moved, 4).is_some());
}

#[test]
fn background_follows_darker_pixels_too() {
    let mut cfg = config(8, 8);
    cfg.ema_alpha_milli = 1000;
    cfg.motion_start_frames = 1;
    let mut detector = MotionDetector::new(&cfg);
    assert!(detector.process_frame(&vec![250u8; 64], 0).is_none());
    assert!(detector.process_frame(&vec![3u8; 64], 1).is_none());
    cfg.ema_alpha_milli = 1;
    cfg.threshold = 0;
    let mut slow = MotionDetector::new(&cfg);
    assert!(slow.process_frame(&vec![250u8; 64], 0).is_none());
    let mut dark = vec![250u8; 64];
    for y in 2..6 {
        for x in 2..6 {
            dark[y * 8 + x] = 100;
        }
    }
    assert_eq!(target(slow.process_frame(&dark, 1)).blob.area, 16);
}

#[test]
fn own_background_shows_no_motion() {
    let mut cfg = config(16, 12);
    cfg.motion_start_frames = 0;
    cfg.threshold = 0;
    let mut detector = MotionDetector::new(&cfg);
    let moved = frame_with_block(16, 12, 4, 3, 5);
    assert!(detector.process_frame(&vec![10u8; 192], 0).is_none());
    assert!(detector.process_frame(&moved, 1).is_some());
    detector.reset_with_frame(&moved);
    assert_eq!(detector.motion_frames(), 0);
    assert!(detector.process_frame(&moved, 2).is_none());
}

#[test]
fn target_is_kept_blended_and_replaced() {
    let mut cfg = config(32, 24);
    cfg.motion_start_frames = 1;
    cfg.motion_end_frames = 2;
    cfg.ema_alpha_milli = 1;
    let mut detector = MotionDetector::new(&cfg);
    let still = vec![10u8; 32 * 24];
    let small = frame_with_block(32, 24, 5, 5, 4);
    let big = frame_with_block(32, 24, 5, 5, 6);
    let offset = AxisValue { x: 0.25f32.to_bits(), y: (-0.5f32).to_bits() };
    detector.process_frame(&still, 0);

    assert!(target(detector.process_frame(&small, 10 * SECOND)).blend_with.is_none());
    detector.record_offset(offset);
    let kept = target(detector.process_frame(&small, 10 * SECOND + SECOND / 2));
    assert!(kept.blend_with == Some(offset));
    let bigger = target(detector.process_frame(&big, 11 * SECOND));
    assert!(bigger.blend_with.is_none());
    let again = target(detector.process_frame(&big, 12 * SECOND));
    assert!(again.blend_with.is_some());
    let lock_over = target(detector.process_frame(&big, 12 * SECOND + SECOND / 2));
    assert!(lock_over.blend_with.is_none());
    let out_of_sight = target(detector.process_frame(&big, 13 * SECOND + SECOND / 2 + 1));
    assert!(out_of_sight.blend_with.is_none());

    assert!(detector.process_frame(&still, 14 * SECOND).is_none());
    assert!(detector.motion_ended(1) && !detector.motion_ended(2));
    detector.record_offset(offset);
    assert!(target(detector.process_frame(&big, 14 * SECOND)).blend_with == Some(offset));
    detector.process_frame(&still, 14 * SECOND);
    detector.process_frame(&still, 14 * SECOND);
    assert!(target(detector.process_frame(&big, 14 * SECOND)).blend_with.is_none());
}

#[test]
fn short_frames_touch_only_their_pixels() {
    let mut cfg = config(8, 8);
    cfg.motion_start_frames = 1;
    let mut detector = MotionDetector::new(&cfg);
    assert!(detector.process_frame(&[5u8; 8], 0).is_none());
    detector.prime_background(&[1u8; 100]);
    assert!(detector.process_frame(&[1u8; 64], 0).is_none());
}

#[test]
fn session_announces_start_and_end_of_motion() {
    let cfg = config(16, 12);
    let mut session = DetectionSession::new(&cfg);
    let mut runtime = AiRuntime::new(true, true);
    let still = vec![10u8; 192];
    let moved = frame_with_block(16, 12, 4, 3, 4);
    let offset = AxisValue { x: 1, y: 2 };

    assert!(matches!(session.on_frame(false, &still, 0), DetectionEvent::Quiet));
    assert!(matches!(session.on_frame(false, &moved, 1), DetectionEvent::Quiet));
    let event = session.on_frame(false, &moved, 2);
    assert!(matches!(
        event,
        DetectionEvent::Target { motion_active: true, starts_event: true, .. }
    ));
    session.record_offset(offset);
    apply_detection(&mut runtime, event, offset, 2);
    assert!(runtime.motion_active && runtime.tracking && runtime.ai_active && runtime.available);
    assert_eq!(runtime.event_id, 1);
    assert!(runtime.target_offset == offset);

    let event = session.on_frame(false, &moved, 3);
    assert!(matches!(
        event,
        DetectionEvent::Target { motion_active: true, starts_event: false, .. }
    ));
    apply_detection(&mut runtime, event, offset, 3);
    assert_eq!(runtime.event_id, 1);

    let event = session.on_frame(true, &still, 4);
    assert!(matches!(event, DetectionEvent::Suppressed));
    apply_detection(&mut runtime, event, offset, 4);
    assert!(!runtime.motion_active && !runtime.tracking);
    assert!(session.motion_active);

    assert!(matches!(session.on_frame(false, &still, 5), DetectionEvent::Quiet));
    assert!(matches!(session.on_frame(false, &still, 6), DetectionEvent::Quiet));
    let event = session.on_frame(false, &still, 7);
    assert!(matches!(event, DetectionEvent::Ended));
    apply_detection(&mut runtime, event, offset, 7);
    assert!(!session.motion_active && !runtime.ai_active);
    assert!(matches!(session.on_frame(false, &still, 8), DetectionEvent::Quiet));
    let before = runtime.event_id;
    apply_detection(&mut runtime, DetectionEvent::Quiet, offset, 8);
    assert_eq!(runtime.event_id, before);
}

#[test]
fn decoder_arguments() {
    let cfg = config(640, 360);
    assert_eq!(
        detection_filter(&cfg),
        "fps=6,scale=640x360:force_original_aspect_ratio=decrease,pad=640:360:(ow-iw)/2:(oh-ih)/2,format=gray"
    );
    assert_eq!(
        detection_args(&cfg).join(" "),
        format!(
            "-hide_banner -loglevel error -hwaccel vaapi -rtsp_transport tcp -fflags nobuffer -flags low_delay -i rtsp://camera/stream -vf {} -f rawvideo pipe:1",
            detection_filter(&cfg)
        )
    );
    assert_eq!(
        recording_args(&cfg).join(" "),
        "-hide_banner -loglevel error -rtsp_transport tcp -i rtsp://camera/stream -c copy -f mpegts pipe:1"
    );
}

#[test]
fn stream_end_messages() {
    assert_eq!(detection_ended("early eof", ""), "FFmpeg detection stream ended: early eof");
    assert_eq!(
        detection_ended("early eof", "no route"),
        "FFmpeg detection stream ended: early eof; no route"
    );
    assert_eq!(recording_ended(""), "FFmpeg recording stream ended unexpectedly");
    assert_eq!(recording_ended("x"), "FFmpeg recording stream ended unexpectedly: x");
}
