# cam_rs

Server and web UI for a network camera:

- live video over WebRTC, through go2rtc
- ONVIF PTZ control: move, stop, presets
- optional motion-driven auto-tracking with event recording

The decisions are a library that is verified with Verus (`src/`); the program
around it does the input and output (`app/`).

## The library

| Module | Subject |
| --- | --- |
| `app_config`, `config`, `env_value` | configuration from environment variables |
| `number`, `text`, `bytes` | numerals, text and byte buffers |
| `grid`, `morphology`, `region` | pixel grids, erosion and dilation, the largest connected region |
| `detector`, `detection` | background subtraction, targets, events |
| `axis`, `ptz` | pan and tilt values as bit patterns, steering decisions |
| `recording` | pre-roll, clips, post-roll, names of clip files |
| `runtime`, `controller`, `worker` | the tracker's state, its workers and their waits |
| `onvif` | envelopes, authentication, replies, lists of profiles and presets |
| `page` | the page of the web UI |
| `outside` | the calls into other crates and what is relied on about each |

Every public function states in `ensures` what it returns or changes. The
functions called `law_...` state what holds across functions: that cleaning a mask
never adds a pixel, that a mask has one largest region, that a clip copies the stream,
that manual control is locked exactly while the tracker is active or the camera
moves, and so on.

Floating-point numbers do not occur in the library. Offsets and velocities are
held as their bit patterns, which is enough to compare them; the arithmetic is in
`app/steering.rs`. Moments are nanoseconds since an origin that the program fixes.

## Environment

- `WEBRTC_URL`, `ONVIF_URL`, `ONVIF_USERNAME`, `ONVIF_PASSWORD`: required
- `ONVIF_AUTH_MODE`: `wsse` (default) or `basic`
- `ONVIF_PROFILE_TOKEN`: optional
- `AI_ENABLED`: `true` to start with auto-tracking
- `AI_RTSP_URL`: stream to watch; falls back to `RTSP_URL`
- `AI_HOME_PRESET_TOKEN`: preset to return to after an event
- `AI_RECORDINGS_DIR`: directory of the clips
- `AI_CAMERA_SETTLE_MS` (1200), `AI_PRESET_SETTLE_MS` (3000): how long the picture
  settles after a stop and after a jump to a preset
- `FFMPEG_BIN`: defaults to `ffmpeg`

## Routes

The server listens on port 3000.

- `GET /`
- `GET /api/onvif/profiles`
- `GET /api/onvif/presets?profile_token=...`
- `POST /api/onvif/move`, `POST /api/onvif/stop`, `POST /api/onvif/goto-preset`
- `GET /api/ai/state`
- `POST /api/ai/enabled`
