//! Configuration of the motion tracker.

use vstd::prelude::*;
use vstd::utf8::is_ascii_chars;
use crate::env_value::{
    bool_value, number_value, parse_env_bool, parse_env_f32, parse_env_u32, parse_env_u64,
    parse_env_u8, parse_env_usize, unsigned_value, word_as_bool, NumberVar,
};
use crate::number::{decimal_digits, law_decimal_read_back, parsed_unsigned};
use crate::outside::{ascii_lowered, lowercase, text_view};
use crate::runtime::Nanos;
use crate::text::{is_space, law_trimmed_empty, trim, trimmed};

verus! {

/// Shortest interval between two steering decisions, in milliseconds.
pub const MIN_PTZ_INTERVAL_MS: u64 = 50;

/// Shortest stretch of video kept before and after an event, in seconds.
pub const MIN_ROLL_SECS: u64 = 1;

/// How long the picture settles after a movement, in milliseconds.
pub const DEFAULT_CAMERA_SETTLE_MS: u64 = 1200;

/// How long the picture settles after a jump to a preset, in milliseconds.
pub const DEFAULT_PRESET_SETTLE_MS: u64 = 3000;

/// Bit pattern of the gain on either axis, 0.9.
pub const PTZ_GAIN_DEFAULT: u32 = 0x3f66_6666;

/// Bit pattern of the dead zone, 0.1.
pub const PTZ_DEAD_ZONE_DEFAULT: u32 = 0x3dcc_cccd;

/// Bit pattern of the largest step of a velocity, 0.2.
pub const PTZ_RATE_LIMIT_DEFAULT: u32 = 0x3e4c_cccd;

/// Nanoseconds in a millisecond.
pub const NANOS_PER_MILLI: u128 = 1_000_000;

/// Nanoseconds in a second.
pub const NANOS_PER_SEC: u128 = 1_000_000_000;

/// The environment variables that configure the motion tracker, each `None` if it
/// is not set.
pub struct AiEnv {
    pub enabled: Option<String>,
    pub ffmpeg_bin: Option<String>,
    pub detection_width: Option<String>,
    pub detection_height: Option<String>,
    pub detection_fps: Option<String>,
    pub ema_alpha_milli: Option<String>,
    pub threshold: Option<String>,
    pub min_blob_percent: Option<String>,
    pub motion_start_frames: Option<String>,
    pub motion_end_frames: Option<String>,
    pub ptz_interval_ms: Option<String>,
    pub ptz_gain_x: NumberVar,
    pub ptz_gain_y: NumberVar,
    pub ptz_dead_zone: NumberVar,
    pub ptz_rate_limit: NumberVar,
    pub centered_hold_ms: Option<String>,
    pub pre_roll_secs: Option<String>,
    pub post_roll_secs: Option<String>,
    pub camera_settle_ms: Option<String>,
    pub preset_settle_ms: Option<String>,
    pub recordings_dir: Option<String>,
    pub home_preset_token: Option<String>,
    pub ai_rtsp_url: Option<String>,
    pub rtsp_url: Option<String>,
}

/// Configuration of the motion tracker. Spans of time are in nanoseconds; gains,
/// dead zone and rate limit are bit patterns of single-precision numbers.
#[derive(Clone)]
pub struct AiConfig {
    pub enabled: bool,
    pub configured: bool,
    pub ffmpeg_bin: String,
    pub rtsp_url: String,
    pub detection_width: usize,
    pub detection_height: usize,
    pub detection_fps: u32,
    pub ema_alpha_milli: u32,
    pub threshold: u8,
    pub min_blob_percent: u8,
    pub motion_start_frames: u32,
    pub motion_end_frames: u32,
    pub ptz_interval: Nanos,
    pub ptz_gain_x: u32,
    pub ptz_gain_y: u32,
    pub ptz_dead_zone: u32,
    pub ptz_rate_limit: u32,
    pub centered_hold: Nanos,
    pub pre_roll: Nanos,
    pub post_roll: Nanos,
    pub camera_settle: Nanos,
    pub preset_settle: Nanos,
    pub recordings_dir: String,
    pub home_preset_token: Option<String>,
}

/// The greater of two integers.
pub open spec fn at_least(value: int, least: int) -> int {
    if value < least {
        least
    } else {
        value
    }
}

impl AiEnv {
    /// Value of `AI_DETECTION_WIDTH`.
    pub open spec fn detection_width_value(self) -> Option<int> {
        unsigned_value(text_view(self.detection_width), usize::MAX as int, 640)
    }

    /// Value of `AI_DETECTION_HEIGHT`.
    pub open spec fn detection_height_value(self) -> Option<int> {
        unsigned_value(text_view(self.detection_height), usize::MAX as int, 360)
    }

    /// Value of `AI_DETECTION_FPS`.
    pub open spec fn detection_fps_value(self) -> Option<int> {
        unsigned_value(text_view(self.detection_fps), u32::MAX as int, 6)
    }

    /// Value of `AI_EMA_ALPHA_MILLI`.
    pub open spec fn ema_alpha_milli_value(self) -> Option<int> {
        unsigned_value(text_view(self.ema_alpha_milli), u32::MAX as int, 30)
    }

    /// Value of `AI_MOTION_THRESHOLD`.
    pub open spec fn threshold_value(self) -> Option<int> {
        unsigned_value(text_view(self.threshold), u8::MAX as int, 20)
    }

    /// Value of `AI_MIN_BLOB_PERCENT`.
    pub open spec fn min_blob_percent_value(self) -> Option<int> {
        unsigned_value(text_view(self.min_blob_percent), u8::MAX as int, 1)
    }

    /// Value of `AI_MOTION_START_FRAMES`.
    pub open spec fn motion_start_frames_value(self) -> Option<int> {
        unsigned_value(text_view(self.motion_start_frames), u32::MAX as int, 2)
    }

    /// Value of `AI_MOTION_END_FRAMES`.
    pub open spec fn motion_end_frames_value(self) -> Option<int> {
        unsigned_value(text_view(self.motion_end_frames), u32::MAX as int, 3)
    }

    /// Value of `AI_PTZ_INTERVAL_MS`.
    pub open spec fn ptz_interval_ms_value(self) -> Option<int> {
        unsigned_value(text_view(self.ptz_interval_ms), u64::MAX as int, 150)
    }

    /// Value of `AI_PTZ_GAIN_X`.
    pub open spec fn ptz_gain_x_value(self) -> Option<u32> {
        number_value(self.ptz_gain_x, PTZ_GAIN_DEFAULT)
    }

    /// Value of `AI_PTZ_GAIN_Y`.
    pub open spec fn ptz_gain_y_value(self) -> Option<u32> {
        number_value(self.ptz_gain_y, PTZ_GAIN_DEFAULT)
    }

    /// Value of `AI_PTZ_DEAD_ZONE`.
    pub open spec fn ptz_dead_zone_value(self) -> Option<u32> {
        number_value(self.ptz_dead_zone, PTZ_DEAD_ZONE_DEFAULT)
    }

    /// Value of `AI_PTZ_RATE_LIMIT`.
    pub open spec fn ptz_rate_limit_value(self) -> Option<u32> {
        number_value(self.ptz_rate_limit, PTZ_RATE_LIMIT_DEFAULT)
    }

    /// Value of `AI_CENTERED_HOLD_MS`.
    pub open spec fn centered_hold_ms_value(self) -> Option<int> {
        unsigned_value(text_view(self.centered_hold_ms), u64::MAX as int, 500)
    }

    /// Value of `AI_PRE_ROLL_SECS`.
    pub open spec fn pre_roll_secs_value(self) -> Option<int> {
        unsigned_value(text_view(self.pre_roll_secs), u64::MAX as int, 3)
    }

    /// Value of `AI_POST_ROLL_SECS`.
    pub open spec fn post_roll_secs_value(self) -> Option<int> {
        unsigned_value(text_view(self.post_roll_secs), u64::MAX as int, 7)
    }

    /// Value of `AI_CAMERA_SETTLE_MS`.
    pub open spec fn camera_settle_ms_value(self) -> Option<int> {
        unsigned_value(text_view(self.camera_settle_ms), u64::MAX as int, DEFAULT_CAMERA_SETTLE_MS as int)
    }

    /// Value of `AI_PRESET_SETTLE_MS`.
    pub open spec fn preset_settle_ms_value(self) -> Option<int> {
        unsigned_value(text_view(self.preset_settle_ms), u64::MAX as int, DEFAULT_PRESET_SETTLE_MS as int)
    }

    /// Value of `AI_ENABLED`.
    pub open spec fn enabled_value(self) -> Result<bool, Seq<char>> {
        bool_value("AI_ENABLED"@, text_view(self.enabled), false)
    }

    /// The stream to watch: `AI_RTSP_URL`, else `RTSP_URL`, else nothing.
    pub open spec fn stream(self) -> Seq<char> {
        match (self.ai_rtsp_url, self.rtsp_url) {
            (Some(url), _) => url@,
            (None, Some(url)) => url@,
            (None, None) => Seq::empty(),
        }
    }

    /// There is a stream to watch.
    pub open spec fn has_stream(self) -> bool {
        trimmed(self.stream()).len() > 0
    }

    /// The complaint about the first variable, in the order in which they are
    /// read, that holds no usable value.
    pub open spec fn complaint(self) -> Option<Seq<char>> {
        if self.enabled_value() is Err {
            Some(self.enabled_value()->Err_0)
        } else if self.detection_width_value() is None {
            Some("AI_DETECTION_WIDTH"@ + " must be a positive integer"@)
        } else if self.detection_height_value() is None {
            Some("AI_DETECTION_HEIGHT"@ + " must be a positive integer"@)
        } else if self.detection_fps_value() is None {
            Some("AI_DETECTION_FPS"@ + " must be a positive integer"@)
        } else if self.ema_alpha_milli_value() is None {
            Some("AI_EMA_ALPHA_MILLI"@ + " must be a positive integer"@)
        } else if self.threshold_value() is None {
            Some("AI_MOTION_THRESHOLD"@ + " must be an integer between 0 and 255"@)
        } else if self.min_blob_percent_value() is None {
            Some("AI_MIN_BLOB_PERCENT"@ + " must be an integer between 0 and 255"@)
        } else if self.motion_start_frames_value() is None {
            Some("AI_MOTION_START_FRAMES"@ + " must be a positive integer"@)
        } else if self.motion_end_frames_value() is None {
            Some("AI_MOTION_END_FRAMES"@ + " must be a positive integer"@)
        } else if self.ptz_interval_ms_value() is None {
            Some("AI_PTZ_INTERVAL_MS"@ + " must be a positive integer"@)
        } else if self.ptz_gain_x_value() is None {
            Some("AI_PTZ_GAIN_X"@ + " must be a number"@)
        } else if self.ptz_gain_y_value() is None {
            Some("AI_PTZ_GAIN_Y"@ + " must be a number"@)
        } else if self.ptz_dead_zone_value() is None {
            Some("AI_PTZ_DEAD_ZONE"@ + " must be a number"@)
        } else if self.ptz_rate_limit_value() is None {
            Some("AI_PTZ_RATE_LIMIT"@ + " must be a number"@)
        } else if self.centered_hold_ms_value() is None {
            Some("AI_CENTERED_HOLD_MS"@ + " must be a positive integer"@)
        } else if self.pre_roll_secs_value() is None {
            Some("AI_PRE_ROLL_SECS"@ + " must be a positive integer"@)
        } else if self.post_roll_secs_value() is None {
            Some("AI_POST_ROLL_SECS"@ + " must be a positive integer"@)
        } else if self.camera_settle_ms_value() is None {
            Some("AI_CAMERA_SETTLE_MS"@ + " must be a positive integer"@)
        } else if self.preset_settle_ms_value() is None {
            Some("AI_PRESET_SETTLE_MS"@ + " must be a positive integer"@)
        } else if self.enabled_value() == Ok::<bool, Seq<char>>(true) && !self.has_stream() {
            Some("RTSP_URL or AI_RTSP_URL is required when AI_ENABLED=true"@)
        } else {
            None
        }
    }
}

impl AiConfig {
    /// The configuration holds what the variables say.
    pub open spec fn reflects(self, env: AiEnv) -> bool {
        &&& env.enabled_value() == Ok::<bool, Seq<char>>(self.enabled)
        &&& self.configured == env.has_stream()
        &&& self.ffmpeg_bin@ == match env.ffmpeg_bin {
            Some(path) => path@,
            None => "ffmpeg"@,
        }
        &&& self.rtsp_url@ == env.stream()
        &&& env.detection_width_value() == Some(self.detection_width as int)
        &&& env.detection_height_value() == Some(self.detection_height as int)
        &&& env.detection_fps_value() == Some(self.detection_fps as int)
        &&& env.ema_alpha_milli_value() == Some(self.ema_alpha_milli as int)
        &&& env.threshold_value() == Some(self.threshold as int)
        &&& env.min_blob_percent_value() == Some(self.min_blob_percent as int)
        &&& env.motion_start_frames_value() == Some(self.motion_start_frames as int)
        &&& env.motion_end_frames_value() == Some(self.motion_end_frames as int)
        &&& self.ptz_interval == at_least(
            env.ptz_interval_ms_value()->0,
            MIN_PTZ_INTERVAL_MS as int,
        ) * NANOS_PER_MILLI
        &&& env.ptz_gain_x_value() == Some(self.ptz_gain_x)
        &&& env.ptz_gain_y_value() == Some(self.ptz_gain_y)
        &&& env.ptz_dead_zone_value() == Some(self.ptz_dead_zone)
        &&& env.ptz_rate_limit_value() == Some(self.ptz_rate_limit)
        &&& self.centered_hold == env.centered_hold_ms_value()->0 * NANOS_PER_MILLI
        &&& self.pre_roll == at_least(env.pre_roll_secs_value()->0, MIN_ROLL_SECS as int)
            * NANOS_PER_SEC
        &&& self.post_roll == at_least(env.post_roll_secs_value()->0, MIN_ROLL_SECS as int)
            * NANOS_PER_SEC
        &&& self.camera_settle == env.camera_settle_ms_value()->0 * NANOS_PER_MILLI
        &&& self.preset_settle == env.preset_settle_ms_value()->0 * NANOS_PER_MILLI
        &&& self.recordings_dir@ == match env.recordings_dir {
            Some(dir) => dir@,
            None => "recordings"@,
        }
        &&& text_view(self.home_preset_token) == text_view(env.home_preset_token)
    }

    /// Reads the configuration from the environment. The first variable that holds
    /// no usable value is reported; the tracker cannot be switched on without a
    /// stream.
    pub fn from_env(env: AiEnv) -> (outcome: Result<AiConfig, String>)
        ensures
            match outcome {
                Ok(cfg) => env.complaint() is None && cfg.reflects(env),
                Err(reason) => env.complaint() == Some(reason@),
            },
            env.enabled matches Some(text) ==> is_ascii_chars(trimmed(text@)) ==> env.enabled_value()
                == word_as_bool("AI_ENABLED"@, ascii_lowered(trimmed(text@))),
    {
        let enabled = match parse_env_bool("AI_ENABLED", &env.enabled, false) {
            Ok(value) => value,
            Err(reason) => return Err(reason),
        };
        let detection_width = match parse_env_usize("AI_DETECTION_WIDTH", &env.detection_width, 640) {
            Ok(value) => value,
            Err(reason) => return Err(reason),
        };
        let detection_height = match parse_env_usize("AI_DETECTION_HEIGHT", &env.detection_height, 360) {
            Ok(value) => value,
            Err(reason) => return Err(reason),
        };
        let detection_fps = match parse_env_u32("AI_DETECTION_FPS", &env.detection_fps, 6) {
            Ok(value) => value,
            Err(reason) => return Err(reason),
        };
        let ema_alpha_milli = match parse_env_u32("AI_EMA_ALPHA_MILLI", &env.ema_alpha_milli, 30) {
            Ok(value) => value,
            Err(reason) => return Err(reason),
        };
        let threshold = match parse_env_u8("AI_MOTION_THRESHOLD", &env.threshold, 20) {
            Ok(value) => value,
            Err(reason) => return Err(reason),
        };
        let min_blob_percent = match parse_env_u8("AI_MIN_BLOB_PERCENT", &env.min_blob_percent, 1) {
            Ok(value) => value,
            Err(reason) => return Err(reason),
        };
        let motion_start_frames = match parse_env_u32("AI_MOTION_START_FRAMES", &env.motion_start_frames, 2) {
            Ok(value) => value,
            Err(reason) => return Err(reason),
        };
        let motion_end_frames = match parse_env_u32("AI_MOTION_END_FRAMES", &env.motion_end_frames, 3) {
            Ok(value) => value,
            Err(reason) => return Err(reason),
        };
        let ptz_interval_ms = match parse_env_u64("AI_PTZ_INTERVAL_MS", &env.ptz_interval_ms, 150) {
            Ok(value) => value,
            Err(reason) => return Err(reason),
        };
        let ptz_gain_x = match parse_env_f32("AI_PTZ_GAIN_X", env.ptz_gain_x, PTZ_GAIN_DEFAULT) {
            Ok(value) => value,
            Err(reason) => return Err(reason),
        };
        let ptz_gain_y = match parse_env_f32("AI_PTZ_GAIN_Y", env.ptz_gain_y, PTZ_GAIN_DEFAULT) {
            Ok(value) => value,
            Err(reason) => return Err(reason),
        };
        let ptz_dead_zone = match parse_env_f32("AI_PTZ_DEAD_ZONE", env.ptz_dead_zone, PTZ_DEAD_ZONE_DEFAULT) {
            Ok(value) => value,
            Err(reason) => return Err(reason),
        };
        let ptz_rate_limit = match parse_env_f32("AI_PTZ_RATE_LIMIT", env.ptz_rate_limit, PTZ_RATE_LIMIT_DEFAULT) {
            Ok(value) => value,
            Err(reason) => return Err(reason),
        };
        let centered_hold_ms = match parse_env_u64("AI_CENTERED_HOLD_MS", &env.centered_hold_ms, 500) {
            Ok(value) => value,
            Err(reason) => return Err(reason),
        };
        let pre_roll_secs = match parse_env_u64("AI_PRE_ROLL_SECS", &env.pre_roll_secs, 3) {
            Ok(value) => value,
            Err(reason) => return Err(reason),
        };
        let post_roll_secs = match parse_env_u64("AI_POST_ROLL_SECS", &env.post_roll_secs, 7) {
            Ok(value) => value,
            Err(reason) => return Err(reason),
        };
        let camera_settle_ms = match parse_env_u64("AI_CAMERA_SETTLE_MS", &env.camera_settle_ms, DEFAULT_CAMERA_SETTLE_MS) {
            Ok(value) => value,
            Err(reason) => return Err(reason),
        };
        let preset_settle_ms = match parse_env_u64("AI_PRESET_SETTLE_MS", &env.preset_settle_ms, DEFAULT_PRESET_SETTLE_MS) {
            Ok(value) => value,
            Err(reason) => return Err(reason),
        };
        let ffmpeg_bin = match env.ffmpeg_bin {
            Some(path) => path,
            None => "ffmpeg".to_owned(),
        };
        let recordings_dir = match env.recordings_dir {
            Some(dir) => dir,
            None => "recordings".to_owned(),
        };
        let rtsp_url = match env.ai_rtsp_url {
            Some(url) => url,
            None => match env.rtsp_url {
                Some(url) => url,
                None => String::new(),
            },
        };
        let configured = !trim(rtsp_url.as_str()).as_str().is_empty();
        if enabled && !configured {
            return Err("RTSP_URL or AI_RTSP_URL is required when AI_ENABLED=true".to_owned());
        }
        let ptz_interval_ms: u64 = if ptz_interval_ms < MIN_PTZ_INTERVAL_MS {
            MIN_PTZ_INTERVAL_MS
        } else {
            ptz_interval_ms
        };
        let pre_roll_secs: u64 = if pre_roll_secs < MIN_ROLL_SECS {
            MIN_ROLL_SECS
        } else {
            pre_roll_secs
        };
        let post_roll_secs: u64 = if post_roll_secs < MIN_ROLL_SECS {
            MIN_ROLL_SECS
        } else {
            post_roll_secs
        };
        Ok(
            AiConfig {
                enabled,
                configured,
                ffmpeg_bin,
                rtsp_url,
                detection_width,
                detection_height,
                detection_fps,
                ema_alpha_milli,
                threshold,
                min_blob_percent,
                motion_start_frames,
                motion_end_frames,
                ptz_interval: ptz_interval_ms as u128 * NANOS_PER_MILLI,
                ptz_gain_x,
                ptz_gain_y,
                ptz_dead_zone,
                ptz_rate_limit,
                centered_hold: centered_hold_ms as u128 * NANOS_PER_MILLI,
                pre_roll: pre_roll_secs as u128 * NANOS_PER_SEC,
                post_roll: post_roll_secs as u128 * NANOS_PER_SEC,
                camera_settle: camera_settle_ms as u128 * NANOS_PER_MILLI,
                preset_settle: preset_settle_ms as u128 * NANOS_PER_MILLI,
                recordings_dir,
                home_preset_token: env.home_preset_token,
            },
        )
    }

    /// The buffers of a detector for this configuration fit the address space, and
    /// so does the product that its smallest region is computed from.
    pub open spec fn detector_fits(self) -> bool {
        &&& self.detection_width * self.detection_height * 2 <= isize::MAX
        &&& self.detection_width * self.detection_height * self.min_blob_percent <= usize::MAX
    }

    /// Tells whether a detector for this configuration can be built.
    pub fn can_build_detector(&self) -> (fits: bool)
        ensures
            fits == self.detector_fits(),
    {
        let width = self.detection_width as u128;
        let height = self.detection_height as u128;
        proof {
            assert(width * height <= 0xffff_ffff_ffff_ffff * 0xffff_ffff_ffff_ffff)
                by (nonlinear_arith)
                requires
                    0 <= width <= 0xffff_ffff_ffff_ffff,
                    0 <= height <= 0xffff_ffff_ffff_ffff,
            ;
        }
        let area: u128 = width * height;
        if area > isize::MAX as u128 / 2 {
            return false;
        }
        proof {
            assert(area * self.min_blob_percent <= area * 255) by (nonlinear_arith)
                requires
                    0 <= self.min_blob_percent <= 255,
                    0 <= area,
            ;
        }
        area * self.min_blob_percent as u128 <= usize::MAX as u128
    }

    /// Number of pixels, and of bytes, in a frame.
    pub fn frame_len(&self) -> (len: usize)
        requires
            self.detection_width * self.detection_height <= usize::MAX,
        ensures
            len == self.detection_width * self.detection_height,
    {
        self.detection_width * self.detection_height
    }
}

/// A configuration that is accepted never has the tracker on without a stream,
/// steers at most twenty times a second and keeps at least a second of video
/// before and after an event; its spans of time leave room for a moment to be added.
pub proof fn law_accepted_configuration(env: AiEnv, cfg: AiConfig)
    requires
        env.complaint() is None,
        cfg.reflects(env),
    ensures
        cfg.enabled ==> cfg.configured,
        cfg.ptz_interval >= 50 * NANOS_PER_MILLI,
        cfg.pre_roll >= NANOS_PER_SEC,
        cfg.post_roll >= NANOS_PER_SEC,
        cfg.post_roll <= u64::MAX * NANOS_PER_SEC,
        cfg.camera_settle <= u64::MAX * NANOS_PER_MILLI,
        cfg.preset_settle <= u64::MAX * NANOS_PER_MILLI,
{
}

/// The variable holds the number in decimal.
pub open spec fn holds_number(variable: Option<String>, n: nat) -> bool {
    variable is Some && variable->0@ == decimal_digits(n)
}

/// The variable is not set, or holds a number up to `max` in decimal.
pub open spec fn is_usable(variable: Option<String>, max: int) -> bool {
    variable is None || exists|n: nat| n <= max && #[trigger] holds_number(variable, n)
}

/// The variable is set and holds nothing that can be read as a number up to `max`.
pub open spec fn is_unusable(variable: Option<String>, max: int) -> bool {
    variable is Some && parsed_unsigned(variable->0@, max) is None
}

/// The numbers that are written into variables are those of the configuration, and a variable
/// that is not set leaves what is configured by default.
pub proof fn law_numbers_are_taken_over(env: AiEnv, cfg: AiConfig, n: nat)
    requires
        cfg.reflects(env),
    ensures
        holds_number(env.detection_width, n) ==> cfg.detection_width == n,
        env.detection_width is None ==> cfg.detection_width == 640,
        holds_number(env.detection_height, n) ==> cfg.detection_height == n,
        env.detection_height is None ==> cfg.detection_height == 360,
        holds_number(env.detection_fps, n) ==> cfg.detection_fps == n,
        env.detection_fps is None ==> cfg.detection_fps == 6,
        holds_number(env.ema_alpha_milli, n) ==> cfg.ema_alpha_milli == n,
        env.ema_alpha_milli is None ==> cfg.ema_alpha_milli == 30,
        holds_number(env.threshold, n) ==> cfg.threshold == n,
        env.threshold is None ==> cfg.threshold == 20,
        holds_number(env.min_blob_percent, n) ==> cfg.min_blob_percent == n,
        env.min_blob_percent is None ==> cfg.min_blob_percent == 1,
        holds_number(env.motion_start_frames, n) ==> cfg.motion_start_frames == n,
        env.motion_start_frames is None ==> cfg.motion_start_frames == 2,
        holds_number(env.motion_end_frames, n) ==> cfg.motion_end_frames == n,
        env.motion_end_frames is None ==> cfg.motion_end_frames == 3,
{
    law_decimal_read_back(n, n as int);
}

/// The spans of time that are written into variables, in milliseconds or in seconds, are those
/// of the configuration in nanoseconds, but the interval of the steering loop is never less than
/// fifty milliseconds and neither roll less than a second; a variable that is not set leaves what
/// is configured by default.
pub proof fn law_spans_are_taken_over(env: AiEnv, cfg: AiConfig, n: nat)
    requires
        env.complaint() is None,
        cfg.reflects(env),
    ensures
        holds_number(env.ptz_interval_ms, n) && n >= 50 ==> cfg.ptz_interval == n * 1_000_000,
        holds_number(env.ptz_interval_ms, n) && n < 50 ==> cfg.ptz_interval == 50 * 1_000_000,
        env.ptz_interval_ms is None ==> cfg.ptz_interval == 150 * 1_000_000,
        holds_number(env.centered_hold_ms, n) ==> cfg.centered_hold == n * 1_000_000,
        env.centered_hold_ms is None ==> cfg.centered_hold == 500 * 1_000_000,
        holds_number(env.pre_roll_secs, n) && n >= 1 ==> cfg.pre_roll == n * 1_000_000_000,
        holds_number(env.pre_roll_secs, n) && n < 1 ==> cfg.pre_roll == 1 * 1_000_000_000,
        env.pre_roll_secs is None ==> cfg.pre_roll == 3 * 1_000_000_000,
        holds_number(env.post_roll_secs, n) && n >= 1 ==> cfg.post_roll == n * 1_000_000_000,
        holds_number(env.post_roll_secs, n) && n < 1 ==> cfg.post_roll == 1 * 1_000_000_000,
        env.post_roll_secs is None ==> cfg.post_roll == 7 * 1_000_000_000,
        holds_number(env.camera_settle_ms, n) ==> cfg.camera_settle == n * 1_000_000,
        env.camera_settle_ms is None ==> cfg.camera_settle == 1200 * 1_000_000,
        holds_number(env.preset_settle_ms, n) ==> cfg.preset_settle == n * 1_000_000,
        env.preset_settle_ms is None ==> cfg.preset_settle == 3000 * 1_000_000,
{
    law_decimal_read_back(n, n as int);
}

/// Gains, dead zone and rate limit are the numbers that the variables hold; a variable that is
/// not set leaves what is configured by default.
pub proof fn law_fractions_are_taken_over(env: AiEnv, cfg: AiConfig)
    requires
        cfg.reflects(env),
    ensures
        env.ptz_gain_x matches NumberVar::Number(bits) ==> cfg.ptz_gain_x == bits,
        env.ptz_gain_x is Unset ==> cfg.ptz_gain_x == 0x3f66_6666,
        !(env.ptz_gain_x is Invalid),
        env.ptz_gain_y matches NumberVar::Number(bits) ==> cfg.ptz_gain_y == bits,
        env.ptz_gain_y is Unset ==> cfg.ptz_gain_y == 0x3f66_6666,
        !(env.ptz_gain_y is Invalid),
        env.ptz_dead_zone matches NumberVar::Number(bits) ==> cfg.ptz_dead_zone == bits,
        env.ptz_dead_zone is Unset ==> cfg.ptz_dead_zone == 0x3dcc_cccd,
        !(env.ptz_dead_zone is Invalid),
        env.ptz_rate_limit matches NumberVar::Number(bits) ==> cfg.ptz_rate_limit == bits,
        env.ptz_rate_limit is Unset ==> cfg.ptz_rate_limit == 0x3e4c_cccd,
        !(env.ptz_rate_limit is Invalid),
{
}

/// The stream is the one that is named for the tracker, else the general one, and there is a
/// stream exactly if that holds more than white space. Programs, directory and home preset are
/// taken over as they are.
pub proof fn law_texts_are_taken_over(env: AiEnv, cfg: AiConfig)
    requires
        cfg.reflects(env),
    ensures
        env.ai_rtsp_url is Some ==> cfg.rtsp_url@ == env.ai_rtsp_url->0@,
        env.ai_rtsp_url is None && env.rtsp_url is Some ==> cfg.rtsp_url@ == env.rtsp_url->0@,
        env.ai_rtsp_url is None && env.rtsp_url is None ==> cfg.rtsp_url@.len() == 0,
        cfg.configured <==> exists|i: int|
            0 <= i < cfg.rtsp_url@.len() && !is_space(#[trigger] cfg.rtsp_url@[i]),
        env.ffmpeg_bin is Some ==> cfg.ffmpeg_bin@ == env.ffmpeg_bin->0@,
        env.ffmpeg_bin is None ==> cfg.ffmpeg_bin@ == seq!['f', 'f', 'm', 'p', 'e', 'g'],
        env.recordings_dir is Some ==> cfg.recordings_dir@ == env.recordings_dir->0@,
        env.recordings_dir is None ==> cfg.recordings_dir@ == seq![
            'r',
            'e',
            'c',
            'o',
            'r',
            'd',
            'i',
            'n',
            'g',
            's',
        ],
        env.home_preset_token is Some ==> cfg.home_preset_token is Some
            && cfg.home_preset_token->0@ == env.home_preset_token->0@,
        env.home_preset_token is None ==> cfg.home_preset_token is None,
        env.enabled is None ==> !cfg.enabled,
        env.enabled is Some ==> word_as_bool(
            "AI_ENABLED"@,
            lowercase(trimmed(env.enabled->0@)),
        ) == Ok::<bool, Seq<char>>(cfg.enabled),
{
    law_trimmed_empty(cfg.rtsp_url@);
    reveal_strlit("ffmpeg");
    reveal_strlit("recordings");
    assert("ffmpeg"@ =~= seq!['f', 'f', 'm', 'p', 'e', 'g']);
    assert("recordings"@ =~= seq!['r', 'e', 'c', 'o', 'r', 'd', 'i', 'n', 'g', 's']);
}

/// An environment in which every variable is not set, or holds a number that its place can
/// hold, is accepted, unless the tracker is to be on without a stream.
pub proof fn law_usable_environment_is_accepted(env: AiEnv)
    requires
        env.enabled is None || word_as_bool(
            "AI_ENABLED"@,
            lowercase(trimmed(env.enabled->0@)),
        ) is Ok,
        is_usable(env.detection_width, usize::MAX as int),
        is_usable(env.detection_height, usize::MAX as int),
        is_usable(env.detection_fps, 0xffff_ffff),
        is_usable(env.ema_alpha_milli, 0xffff_ffff),
        is_usable(env.threshold, 0xff),
        is_usable(env.min_blob_percent, 0xff),
        is_usable(env.motion_start_frames, 0xffff_ffff),
        is_usable(env.motion_end_frames, 0xffff_ffff),
        is_usable(env.ptz_interval_ms, 0xffff_ffff_ffff_ffff),
        is_usable(env.centered_hold_ms, 0xffff_ffff_ffff_ffff),
        is_usable(env.pre_roll_secs, 0xffff_ffff_ffff_ffff),
        is_usable(env.post_roll_secs, 0xffff_ffff_ffff_ffff),
        is_usable(env.camera_settle_ms, 0xffff_ffff_ffff_ffff),
        is_usable(env.preset_settle_ms, 0xffff_ffff_ffff_ffff),
        !(env.ptz_gain_x is Invalid),
        !(env.ptz_gain_y is Invalid),
        !(env.ptz_dead_zone is Invalid),
        !(env.ptz_rate_limit is Invalid),
    ensures
        env.complaint() is None <==> !(env.enabled_value() == Ok::<bool, Seq<char>>(true)
            && !env.has_stream()),
        env.complaint() is Some ==> env.complaint()->0
            == "RTSP_URL or AI_RTSP_URL is required when AI_ENABLED=true"@,
{
    assert(env.detection_width_value() is Some) by {
        lemma_usable(env.detection_width, usize::MAX as int);
    }
    assert(env.detection_height_value() is Some) by {
        lemma_usable(env.detection_height, usize::MAX as int);
    }
    assert(env.detection_fps_value() is Some) by {
        lemma_usable(env.detection_fps, 0xffff_ffff);
    }
    assert(env.ema_alpha_milli_value() is Some) by {
        lemma_usable(env.ema_alpha_milli, 0xffff_ffff);
    }
    assert(env.threshold_value() is Some) by {
        lemma_usable(env.threshold, 0xff);
    }
    assert(env.min_blob_percent_value() is Some) by {
        lemma_usable(env.min_blob_percent, 0xff);
    }
    assert(env.motion_start_frames_value() is Some) by {
        lemma_usable(env.motion_start_frames, 0xffff_ffff);
    }
    assert(env.motion_end_frames_value() is Some) by {
        lemma_usable(env.motion_end_frames, 0xffff_ffff);
    }
    assert(env.ptz_interval_ms_value() is Some) by {
        lemma_usable(env.ptz_interval_ms, 0xffff_ffff_ffff_ffff);
    }
    assert(env.centered_hold_ms_value() is Some) by {
        lemma_usable(env.centered_hold_ms, 0xffff_ffff_ffff_ffff);
    }
    assert(env.pre_roll_secs_value() is Some) by {
        lemma_usable(env.pre_roll_secs, 0xffff_ffff_ffff_ffff);
    }
    assert(env.post_roll_secs_value() is Some) by {
        lemma_usable(env.post_roll_secs, 0xffff_ffff_ffff_ffff);
    }
    assert(env.camera_settle_ms_value() is Some) by {
        lemma_usable(env.camera_settle_ms, 0xffff_ffff_ffff_ffff);
    }
    assert(env.preset_settle_ms_value() is Some) by {
        lemma_usable(env.preset_settle_ms, 0xffff_ffff_ffff_ffff);
    }
    lemma_readable_environment(env);
}

proof fn lemma_readable_environment(env: AiEnv)
    requires
        env.enabled_value() is Ok,
        env.detection_width_value() is Some,
        env.detection_height_value() is Some,
        env.detection_fps_value() is Some,
        env.ema_alpha_milli_value() is Some,
        env.threshold_value() is Some,
        env.min_blob_percent_value() is Some,
        env.motion_start_frames_value() is Some,
        env.motion_end_frames_value() is Some,
        env.ptz_interval_ms_value() is Some,
        env.centered_hold_ms_value() is Some,
        env.pre_roll_secs_value() is Some,
        env.post_roll_secs_value() is Some,
        env.camera_settle_ms_value() is Some,
        env.preset_settle_ms_value() is Some,
        env.ptz_gain_x_value() is Some,
        env.ptz_gain_y_value() is Some,
        env.ptz_dead_zone_value() is Some,
        env.ptz_rate_limit_value() is Some,
    ensures
        env.complaint() is None <==> !(env.enabled_value() == Ok::<bool, Seq<char>>(true)
            && !env.has_stream()),
        env.complaint() is Some ==> env.complaint()->0
            == "RTSP_URL or AI_RTSP_URL is required when AI_ENABLED=true"@,
{
}

proof fn lemma_usable(variable: Option<String>, max: int)
    requires
        is_usable(variable, max),
    ensures
        variable is Some ==> parsed_unsigned(variable->0@, max) is Some,
{
    if variable is Some {
        let n = choose|n: nat| n <= max && #[trigger] holds_number(variable, n);
        law_decimal_read_back(n, max);
    }
}

/// An environment with a variable that cannot be used is refused, and the complaint is about one
/// such variable, by its name.
pub proof fn law_unusable_variable_is_named(env: AiEnv)
    requires
        env.enabled_value() is Ok,
        ({
            ||| is_unusable(env.detection_width, usize::MAX as int)
            ||| is_unusable(env.detection_height, usize::MAX as int)
            ||| is_unusable(env.detection_fps, 0xffff_ffff)
            ||| is_unusable(env.ema_alpha_milli, 0xffff_ffff)
            ||| is_unusable(env.threshold, 0xff)
            ||| is_unusable(env.min_blob_percent, 0xff)
            ||| is_unusable(env.motion_start_frames, 0xffff_ffff)
            ||| is_unusable(env.motion_end_frames, 0xffff_ffff)
            ||| is_unusable(env.ptz_interval_ms, 0xffff_ffff_ffff_ffff)
            ||| is_unusable(env.centered_hold_ms, 0xffff_ffff_ffff_ffff)
            ||| is_unusable(env.pre_roll_secs, 0xffff_ffff_ffff_ffff)
            ||| is_unusable(env.post_roll_secs, 0xffff_ffff_ffff_ffff)
            ||| is_unusable(env.camera_settle_ms, 0xffff_ffff_ffff_ffff)
            ||| is_unusable(env.preset_settle_ms, 0xffff_ffff_ffff_ffff)
            ||| env.ptz_gain_x is Invalid
            ||| env.ptz_gain_y is Invalid
            ||| env.ptz_dead_zone is Invalid
            ||| env.ptz_rate_limit is Invalid
        }),
    ensures
        env.complaint() is Some,
        ({
            let reason = env.complaint()->0;
            let number = " must be a positive integer"@;
            let byte = " must be an integer between 0 and 255"@;
            let fraction = " must be a number"@;
            ||| is_unusable(env.detection_width, usize::MAX as int) && reason == "AI_DETECTION_WIDTH"@ + number
            ||| is_unusable(env.detection_height, usize::MAX as int) && reason == "AI_DETECTION_HEIGHT"@ + number
            ||| is_unusable(env.detection_fps, 0xffff_ffff) && reason == "AI_DETECTION_FPS"@ + number
            ||| is_unusable(env.ema_alpha_milli, 0xffff_ffff) && reason == "AI_EMA_ALPHA_MILLI"@ + number
            ||| is_unusable(env.threshold, 0xff) && reason == "AI_MOTION_THRESHOLD"@ + byte
            ||| is_unusable(env.min_blob_percent, 0xff) && reason == "AI_MIN_BLOB_PERCENT"@ + byte
            ||| is_unusable(env.motion_start_frames, 0xffff_ffff) && reason == "AI_MOTION_START_FRAMES"@ + number
            ||| is_unusable(env.motion_end_frames, 0xffff_ffff) && reason == "AI_MOTION_END_FRAMES"@ + number
            ||| is_unusable(env.ptz_interval_ms, 0xffff_ffff_ffff_ffff) && reason == "AI_PTZ_INTERVAL_MS"@ + number
            ||| is_unusable(env.centered_hold_ms, 0xffff_ffff_ffff_ffff) && reason == "AI_CENTERED_HOLD_MS"@ + number
            ||| is_unusable(env.pre_roll_secs, 0xffff_ffff_ffff_ffff) && reason == "AI_PRE_ROLL_SECS"@ + number
            ||| is_unusable(env.post_roll_secs, 0xffff_ffff_ffff_ffff) && reason == "AI_POST_ROLL_SECS"@ + number
            ||| is_unusable(env.camera_settle_ms, 0xffff_ffff_ffff_ffff) && reason == "AI_CAMERA_SETTLE_MS"@ + number
            ||| is_unusable(env.preset_settle_ms, 0xffff_ffff_ffff_ffff) && reason == "AI_PRESET_SETTLE_MS"@ + number
            ||| env.ptz_gain_x is Invalid && reason == "AI_PTZ_GAIN_X"@ + fraction
            ||| env.ptz_gain_y is Invalid && reason == "AI_PTZ_GAIN_Y"@ + fraction
            ||| env.ptz_dead_zone is Invalid && reason == "AI_PTZ_DEAD_ZONE"@ + fraction
            ||| env.ptz_rate_limit is Invalid && reason == "AI_PTZ_RATE_LIMIT"@ + fraction
        }),
{
}

/// Of the variables that cannot be used the one that is read first is reported: every complaint
/// comes with the variables before it in the order of reading being usable.
pub proof fn law_first_unusable_is_reported(env: AiEnv)
    ensures
        ({
            let number = " must be a positive integer"@;
            let byte = " must be an integer between 0 and 255"@;
            let fraction = " must be a number"@;
            let ok_0 = env.enabled_value() is Ok;
            let ok_1 = ok_0 && !(is_unusable(env.detection_width, usize::MAX as int));
            let ok_2 = ok_1 && !(is_unusable(env.detection_height, usize::MAX as int));
            let ok_3 = ok_2 && !(is_unusable(env.detection_fps, 0xffff_ffff));
            let ok_4 = ok_3 && !(is_unusable(env.ema_alpha_milli, 0xffff_ffff));
            let ok_5 = ok_4 && !(is_unusable(env.threshold, 0xff));
            let ok_6 = ok_5 && !(is_unusable(env.min_blob_percent, 0xff));
            let ok_7 = ok_6 && !(is_unusable(env.motion_start_frames, 0xffff_ffff));
            let ok_8 = ok_7 && !(is_unusable(env.motion_end_frames, 0xffff_ffff));
            let ok_9 = ok_8 && !(is_unusable(env.ptz_interval_ms, 0xffff_ffff_ffff_ffff));
            let ok_10 = ok_9 && !(env.ptz_gain_x is Invalid);
            let ok_11 = ok_10 && !(env.ptz_gain_y is Invalid);
            let ok_12 = ok_11 && !(env.ptz_dead_zone is Invalid);
            let ok_13 = ok_12 && !(env.ptz_rate_limit is Invalid);
            let ok_14 = ok_13 && !(is_unusable(env.centered_hold_ms, 0xffff_ffff_ffff_ffff));
            let ok_15 = ok_14 && !(is_unusable(env.pre_roll_secs, 0xffff_ffff_ffff_ffff));
            let ok_16 = ok_15 && !(is_unusable(env.post_roll_secs, 0xffff_ffff_ffff_ffff));
            let ok_17 = ok_16 && !(is_unusable(env.camera_settle_ms, 0xffff_ffff_ffff_ffff));
            let ok_18 = ok_17 && !(is_unusable(env.preset_settle_ms, 0xffff_ffff_ffff_ffff));
            &&& !ok_0 ==> env.complaint() == Some(env.enabled_value()->Err_0)
            &&& ok_0 && !ok_1 ==> env.complaint() == Some("AI_DETECTION_WIDTH"@ + number)
            &&& ok_1 && !ok_2 ==> env.complaint() == Some("AI_DETECTION_HEIGHT"@ + number)
            &&& ok_2 && !ok_3 ==> env.complaint() == Some("AI_DETECTION_FPS"@ + number)
            &&& ok_3 && !ok_4 ==> env.complaint() == Some("AI_EMA_ALPHA_MILLI"@ + number)
            &&& ok_4 && !ok_5 ==> env.complaint() == Some("AI_MOTION_THRESHOLD"@ + byte)
            &&& ok_5 && !ok_6 ==> env.complaint() == Some("AI_MIN_BLOB_PERCENT"@ + byte)
            &&& ok_6 && !ok_7 ==> env.complaint() == Some("AI_MOTION_START_FRAMES"@ + number)
            &&& ok_7 && !ok_8 ==> env.complaint() == Some("AI_MOTION_END_FRAMES"@ + number)
            &&& ok_8 && !ok_9 ==> env.complaint() == Some("AI_PTZ_INTERVAL_MS"@ + number)
            &&& ok_9 && !ok_10 ==> env.complaint() == Some("AI_PTZ_GAIN_X"@ + fraction)
            &&& ok_10 && !ok_11 ==> env.complaint() == Some("AI_PTZ_GAIN_Y"@ + fraction)
            &&& ok_11 && !ok_12 ==> env.complaint() == Some("AI_PTZ_DEAD_ZONE"@ + fraction)
            &&& ok_12 && !ok_13 ==> env.complaint() == Some("AI_PTZ_RATE_LIMIT"@ + fraction)
            &&& ok_13 && !ok_14 ==> env.complaint() == Some("AI_CENTERED_HOLD_MS"@ + number)
            &&& ok_14 && !ok_15 ==> env.complaint() == Some("AI_PRE_ROLL_SECS"@ + number)
            &&& ok_15 && !ok_16 ==> env.complaint() == Some("AI_POST_ROLL_SECS"@ + number)
            &&& ok_16 && !ok_17 ==> env.complaint() == Some("AI_CAMERA_SETTLE_MS"@ + number)
            &&& ok_17 && !ok_18 ==> env.complaint() == Some("AI_PRESET_SETTLE_MS"@ + number)
            &&& ok_18 ==> (env.complaint() is None <==> env.has_stream() || env.enabled_value() == Ok::<
                bool,
                Seq<char>,
            >(false))
        }),
{
}

/// A grid fits whose area, 255 times, fits into half of the address space; and whatever fits
/// still does when the grid or the share gets smaller.
pub proof fn law_ordinary_grids_fit(cfg: AiConfig, smaller: AiConfig)
    requires
        smaller.detection_width <= cfg.detection_width,
        smaller.detection_height <= cfg.detection_height,
        smaller.min_blob_percent <= cfg.min_blob_percent,
    ensures
        cfg.detection_width * cfg.detection_height * 255 <= isize::MAX ==> cfg.detector_fits(),
        cfg.detector_fits() ==> smaller.detector_fits(),
        cfg.detector_fits() ==> cfg.detection_width * cfg.detection_height <= isize::MAX,
{
    let area = cfg.detection_width * cfg.detection_height;
    let less = smaller.detection_width * smaller.detection_height;
    assert(0 <= less <= area) by (nonlinear_arith)
        requires
            area == cfg.detection_width * cfg.detection_height,
            less == smaller.detection_width * smaller.detection_height,
            0 <= smaller.detection_width <= cfg.detection_width,
            0 <= smaller.detection_height <= cfg.detection_height,
    ;
    assert(area * cfg.min_blob_percent <= area * 255) by (nonlinear_arith)
        requires
            0 <= area,
            0 <= cfg.min_blob_percent <= 255,
    ;
    assert(less * smaller.min_blob_percent <= area * cfg.min_blob_percent) by (nonlinear_arith)
        requires
            0 <= less <= area,
            0 <= smaller.min_blob_percent <= cfg.min_blob_percent,
    ;
}

} // verus!
