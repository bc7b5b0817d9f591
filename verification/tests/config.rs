use cam_rs::bytes::{append_bytes, clear_bytes};
use cam_rs::app_config::{parse_auth_mode, AppConfig, AppEnv};
use cam_rs::config::{AiConfig, AiEnv};
use cam_rs::env_value::{parse_bool_word, parse_env_bool, parse_env_f32, NumberVar};
use cam_rs::number::{decimal, parse_unsigned};
use cam_rs::onvif::service::OnvifAuthMode;

fn unset() -> AiEnv {
    AiEnv {
        enabled: None,
        ffmpeg_bin: None,
        detection_width: None,
        detection_height: None,
        detection_fps: None,
        ema_alpha_milli: None,
        threshold: None,
        min_blob_percent: None,
        motion_start_frames: None,
        motion_end_frames: None,
        ptz_interval_ms: None,
        ptz_gain_x: NumberVar::Unset,
        ptz_gain_y: NumberVar::Unset,
        ptz_dead_zone: NumberVar::Unset,
        ptz_rate_limit: NumberVar::Unset,
        centered_hold_ms: None,
        pre_roll_secs: None,
        post_roll_secs: None,
        camera_settle_ms: None,
        preset_settle_ms: None,
        recordings_dir: None,
        home_preset_token: None,
        ai_rtsp_url: None,
        rtsp_url: None,
    }
}

fn some(text: &str) -> Option<String> {
    Some(text.to_string())
}

fn rejected(env: AiEnv) -> String {
    match AiConfig::from_env(env) {
        Ok(_) => panic!("accepted"),
        Err(reason) => reason,
    }
}

fn accepted(env: AiEnv) -> AiConfig {
    match AiConfig::from_env(env) {
        Ok(cfg) => cfg,
        Err(reason) => panic!("{}", reason),
    }
}

#[test]
fn defaults() {
    let cfg = accepted(unset());
    assert!(!cfg.enabled && !cfg.configured);
    assert_eq!(cfg.ffmpeg_bin, "ffmpeg");
    assert_eq!(cfg.rtsp_url, "");
    assert_eq!((cfg.detection_width, cfg.detection_height), (640, 360));
    assert_eq!((cfg.detection_fps, cfg.ema_alpha_milli), (6, 30));
    assert_eq!((cfg.threshold, cfg.min_blob_percent), (20, 1));
    assert_eq!((cfg.motion_start_frames, cfg.motion_end_frames), (2, 3));
    assert_eq!(cfg.ptz_interval, 150_000_000);
    assert_eq!(cfg.ptz_gain_x, 0.9f32.to_bits());
    assert_eq!(cfg.ptz_gain_y, 0.9f32.to_bits());
    assert_eq!(cfg.ptz_dead_zone, 0.1f32.to_bits());
    assert_eq!(cfg.ptz_rate_limit, 0.2f32.to_bits());
    assert_eq!(cfg.centered_hold, 500_000_000);
    assert_eq!(cfg.pre_roll, 3_000_000_000);
    assert_eq!(cfg.post_roll, 7_000_000_000);
    assert_eq!(cfg.camera_settle, 1_200_000_000);
    assert_eq!(cfg.preset_settle, 3_000_000_000);
    assert_eq!(cfg.recordings_dir, "recordings");
    assert!(cfg.home_preset_token.is_none());
    assert_eq!(cfg.frame_len(), 230_400);
    assert!(cfg.can_build_detector());
}

#[test]
fn values_are_taken_over() {
    let mut env = unset();
    env.enabled = some("  YES\n");
    env.rtsp_url = some("rtsp://fallback");
    env.ai_rtsp_url = some("rtsp://camera");
    env.detection_width = some("+32");
    env.threshold = some("255");
    env.ptz_interval_ms = some("1");
    env.pre_roll_secs = some("0");
    env.post_roll_secs = some("18446744073709551615");
    env.ptz_gain_x = NumberVar::Number(7);
    env.home_preset_token = some("home");
    env.recordings_dir = some("");
    env.ffmpeg_bin = some("/opt/ffmpeg");
    let cfg = accepted(env);
    assert!(cfg.enabled && cfg.configured);
    assert_eq!(cfg.rtsp_url, "rtsp://camera");
    assert_eq!(cfg.detection_width, 32);
    assert_eq!(cfg.threshold, 255);
    assert_eq!(cfg.ptz_interval, 50_000_000);
    assert_eq!(cfg.pre_roll, 1_000_000_000);
    assert_eq!(cfg.post_roll, 18446744073709551615u128 * 1_000_000_000);
    assert_eq!(cfg.ptz_gain_x, 7);
    assert_eq!(cfg.home_preset_token.as_deref(), Some("home"));
    assert_eq!(cfg.recordings_dir, "");
    assert_eq!(cfg.ffmpeg_bin, "/opt/ffmpeg");
}

#[test]
fn first_unusable_variable_is_reported() {
    let mut env = unset();
    env.enabled = some("Maybe");
    assert_eq!(
        rejected(env),
        "AI_ENABLED must be one of true|false|1|0|yes|no|on|off, got: maybe"
    );
    let mut env = unset();
    env.detection_height = some("-1");
    env.threshold = some("256");
    assert_eq!(rejected(env), "AI_DETECTION_HEIGHT must be a positive integer");
    let mut env = unset();
    env.threshold = some("256");
    env.ptz_gain_y = NumberVar::Invalid;
    assert_eq!(rejected(env), "AI_MOTION_THRESHOLD must be an integer between 0 and 255");
    let mut env = unset();
    env.ptz_gain_y = NumberVar::Invalid;
    env.centered_hold_ms = some("1.5");
    assert_eq!(rejected(env), "AI_PTZ_GAIN_Y must be a number");
    let mut env = unset();
    env.detection_fps = some("4294967296");
    assert_eq!(rejected(env), "AI_DETECTION_FPS must be a positive integer");
    let mut env = unset();
    env.preset_settle_ms = some("");
    assert_eq!(rejected(env), "AI_PRESET_SETTLE_MS must be a positive integer");
}

#[test]
fn tracker_needs_a_stream() {
    let mut env = unset();
    env.enabled = some("true");
    env.ai_rtsp_url = some(" \t");
    env.rtsp_url = some("rtsp://camera");
    assert_eq!(rejected(env), "RTSP_URL or AI_RTSP_URL is required when AI_ENABLED=true");
    let mut env = unset();
    env.enabled = some("off");
    env.rtsp_url = some("rtsp://camera");
    let cfg = accepted(env);
    assert!(cfg.configured && !cfg.enabled);
}

#[test]
fn oversized_grids_cannot_be_built() {
    let mut cfg = accepted(unset());
    cfg.detection_width = usize::MAX;
    assert!(!cfg.can_build_detector());
    cfg.detection_width = 1usize << 30;
    cfg.detection_height = 1usize << 31;
    cfg.min_blob_percent = 100;
    assert!(!cfg.can_build_detector());
    cfg.min_blob_percent = 1;
    assert!(cfg.can_build_detector());
}

#[test]
fn bool_words() {
    for word in ["1", "true", "yes", "on"] {
        assert_eq!(parse_bool_word("X", word), Ok(true));
        assert_eq!(parse_env_bool("X", &some(&word.to_uppercase()), false), Ok(true));
    }
    for word in ["0", "false", "no", "off"] {
        assert_eq!(parse_bool_word("X", word), Ok(false));
        assert_eq!(parse_env_bool("X", &some(&format!("\u{a0}{}\u{3000}", word)), true), Ok(false));
    }
    assert!(parse_bool_word("X", "True").is_err());
    assert!(parse_bool_word("X", "").is_err());
    assert_eq!(parse_env_bool("X", &None, true), Ok(true));
    assert_eq!(
        parse_env_bool("X", &some("ÄB"), true),
        Err("X must be one of true|false|1|0|yes|no|on|off, got: äb".to_string())
    );
    assert_eq!(parse_env_f32("X", NumberVar::Unset, 5), Ok(5));
    assert_eq!(parse_env_f32("X", NumberVar::Number(3), 5), Ok(3));
    assert_eq!(parse_env_f32("X", NumberVar::Invalid, 5), Err("X must be a number".to_string()));
}

#[test]
fn numerals_are_read_as_the_standard_library_does() {
    let texts = [
        "", "+", "-", "0", "+0", "-0", "007", "+12", "++1", "1 ", " 1", "1_0", "255", "256", "300",
        "18446744073709551615", "18446744073709551616", "000000000000000000000018446744073709551615",
        "99999999999999999999999999999999999999999", "1a", "\u{661}", "1.0", "1e3", "+-1",
    ];
    for text in texts {
        assert_eq!(parse_unsigned(text, u64::MAX), text.parse::<u64>().ok(), "{}", text);
        assert_eq!(
            parse_unsigned(text, u8::MAX as u64),
            text.parse::<u8>().ok().map(|n| n as u64),
            "{}",
            text
        );
    }
}

#[test]
fn decimals_are_read_back() {
    for n in [0u64, 1, 9, 10, 11, 99, 100, 640, 4294967296, u64::MAX - 1, u64::MAX] {
        assert_eq!(decimal(n), n.to_string());
        assert_eq!(parse_unsigned(&decimal(n), n), Some(n));
        if n > 0 {
            assert_eq!(parse_unsigned(&decimal(n), n - 1), None);
        }
    }
}

fn app_env() -> AppEnv {
    AppEnv {
        webrtc_url: some("https://rtc/stream.html?src=cam"),
        onvif_url: some("http://10.0.0.11:2020/onvif/device_service"),
        onvif_username: some("admin"),
        onvif_password: some("secret"),
        onvif_profile_token: None,
        onvif_auth_mode: None,
    }
}

#[test]
fn server_configuration() {
    let cfg = match AppConfig::from_env(app_env()) {
        Ok(cfg) => cfg,
        Err(reason) => panic!("{}", reason),
    };
    assert_eq!(cfg.webrtc_url, "https://rtc/stream.html?src=cam");
    assert_eq!(cfg.onvif.media_url, "http://10.0.0.11:2020/onvif/service");
    assert_eq!(cfg.onvif.ptz_url, "http://10.0.0.11:2020/onvif/device_service");
    assert_eq!(cfg.onvif.username, "admin");
    assert_eq!(cfg.onvif.password, "secret");
    assert!(cfg.onvif.auth_mode == OnvifAuthMode::Wsse);
    assert!(cfg.onvif.profile_token.is_none());

    let mut env = app_env();
    env.onvif_auth_mode = some("BASIC");
    env.onvif_profile_token = some("profile_1");
    match AppConfig::from_env(env) {
        Ok(cfg) => {
            assert!(cfg.onvif.auth_mode == OnvifAuthMode::Basic);
            assert_eq!(cfg.onvif.profile_token.as_deref(), Some("profile_1"));
        }
        Err(reason) => panic!("{}", reason),
    }
}

#[test]
fn missing_server_variables_are_reported_in_order() {
    let refused = |env: AppEnv| match AppConfig::from_env(env) {
        Ok(_) => panic!("accepted"),
        Err(reason) => reason,
    };
    let mut env = app_env();
    env.webrtc_url = None;
    env.onvif_url = None;
    assert_eq!(refused(env), "WEBRTC_URL is required");
    let mut env = app_env();
    env.onvif_url = None;
    env.onvif_password = None;
    assert_eq!(refused(env), "ONVIF_URL is required");
    let mut env = app_env();
    env.onvif_username = None;
    assert_eq!(refused(env), "ONVIF_USERNAME is required");
    let mut env = app_env();
    env.onvif_password = None;
    env.onvif_auth_mode = some("none");
    assert_eq!(refused(env), "ONVIF_PASSWORD is required");
    let mut env = app_env();
    env.onvif_auth_mode = some(" Wsse");
    assert_eq!(refused(env), "ONVIF_AUTH_MODE must be one of basic|wsse, got:  wsse");
}

#[test]
fn auth_mode_words() {
    assert_eq!(parse_auth_mode("basic"), Ok(OnvifAuthMode::Basic));
    assert_eq!(parse_auth_mode("wsse"), Ok(OnvifAuthMode::Wsse));
    assert_eq!(
        parse_auth_mode("Basic"),
        Err("ONVIF_AUTH_MODE must be one of basic|wsse, got: Basic".to_string())
    );
}

#[test]
fn byte_buffers() {
    let mut buffer = vec![1u8, 2];
    append_bytes(&mut buffer, &[3, 4]);
    assert_eq!(buffer, vec![1, 2, 3, 4]);
    clear_bytes(&mut buffer[1..3]);
    assert_eq!(buffer, vec![1, 0, 0, 4]);
}
