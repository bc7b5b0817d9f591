//! One run of the detection stream.

use vstd::prelude::*;
use vstd::string::StringExecFns;
use crate::axis::AxisValue;
use crate::config::AiConfig;
use crate::detector::{DetectorView, MotionDetector, TrackUpdate};
use crate::number::{decimal, decimal_digits};
use crate::region::is_largest_blob;
use crate::runtime::{AiRuntime, Nanos};
use crate::text::{has_suffix, law_part_occurs, law_suffix, occurs};

verus! {

/// What a frame means for the tracker.
#[derive(Clone, Copy, Debug)]
pub enum DetectionEvent {
    /// Frames are being ignored.
    Suppressed,
    /// A target was seen. `starts_event` tells that motion has just begun.
    Target { update: TrackUpdate, motion_active: bool, starts_event: bool },
    /// Motion has just ended.
    Ended,
    /// Nothing has changed.
    Quiet,
}

/// One run of the detection stream: the detector, and whether there is motion.
pub struct DetectionSession {
    pub detector: MotionDetector,
    pub motion_active: bool,
    pub motion_start_frames: u32,
    pub motion_end_frames: u32,
}

impl DetectionSession {
    /// The session can take frames, and waits no longer for the start and the end of
    /// motion than its detector does.
    pub open spec fn wf(self) -> bool {
        &&& self.detector.wf()
        &&& self.motion_start_frames <= self.detector@.motion_start_frames
        &&& self.motion_end_frames <= self.detector@.motion_end_frames
    }

    /// A session that has seen no frame yet.
    pub fn new(cfg: &AiConfig) -> (session: DetectionSession)
        requires
            cfg.detector_fits(),
        ensures
            session.wf(),
            !session.motion_active,
            session.motion_start_frames == cfg.motion_start_frames,
            session.motion_end_frames == cfg.motion_end_frames,
            session.detector@ == DetectorView::fresh(*cfg),
    {
        DetectionSession {
            detector: MotionDetector::new(cfg),
            motion_active: false,
            motion_start_frames: cfg.motion_start_frames,
            motion_end_frames: cfg.motion_end_frames,
        }
    }

    /// What a frame that is not ignored means, if the detector reports `update` and
    /// is `detector` afterwards.
    pub open spec fn event_for(
        self,
        update: Option<TrackUpdate>,
        detector: DetectorView,
    ) -> DetectionEvent {
        match update {
            Some(update) => {
                let begins = !self.motion_active && detector.motion_frames
                    >= self.motion_start_frames;
                DetectionEvent::Target {
                    update,
                    motion_active: self.motion_active || begins,
                    starts_event: begins,
                }
            },
            None => if self.motion_active && detector.empty_frames >= self.motion_end_frames {
                DetectionEvent::Ended
            } else {
                DetectionEvent::Quiet
            },
        }
    }

    /// Whether there is motion after an event.
    pub open spec fn motion_after(self, event: DetectionEvent) -> bool {
        match event {
            DetectionEvent::Target { motion_active, .. } => motion_active,
            DetectionEvent::Ended => false,
            _ => self.motion_active,
        }
    }

    /// Takes a frame, seen at `now`. While frames are being ignored the detector
    /// takes each as its background and forgets all motion.
    pub fn on_frame(&mut self, suppressed: bool, frame: &[u8], now: Nanos) -> (event:
        DetectionEvent)
        requires
            old(self).wf(),
            !suppressed ==> 0 < frame@.len() <= old(self).detector@.background.len(),
        ensures
            final(self).wf(),
            final(self).motion_start_frames == old(self).motion_start_frames,
            final(self).motion_end_frames == old(self).motion_end_frames,
            suppressed ==> {
                &&& event == DetectionEvent::Suppressed
                &&& final(self).motion_active == old(self).motion_active
                &&& final(self).detector@ == old(self).detector@.restarted(frame@)
            },
            !suppressed ==> {
                let before = old(self).detector@;
                let found = before.found_in(frame@);
                &&& is_largest_blob(
                    found,
                    before.mask_for(frame@),
                    before.width,
                    before.min_blob_area,
                )
                &&& final(self).detector@ == before.after(frame@, found, now)
                &&& event == old(self).event_for(
                    before.report(frame@, found, now),
                    final(self).detector@,
                )
                &&& event matches DetectionEvent::Target {
                    update: _,
                    motion_active,
                    starts_event: _,
                } ==> motion_active
                &&& final(self).motion_active == old(self).motion_after(event)
            },
    {
        if suppressed {
            self.detector.reset_with_frame(frame);
            return DetectionEvent::Suppressed;
        }
        match self.detector.process_frame(frame, now) {
            Some(update) => {
                let begins = !self.motion_active && self.detector.motion_frames()
                    >= self.motion_start_frames;
                if begins {
                    self.motion_active = true;
                }
                DetectionEvent::Target {
                    update,
                    motion_active: self.motion_active,
                    starts_event: begins,
                }
            },
            None => {
                if self.motion_active && self.detector.motion_ended(self.motion_end_frames) {
                    self.motion_active = false;
                    DetectionEvent::Ended
                } else {
                    DetectionEvent::Quiet
                }
            },
        }
    }

    /// Records the offset of the target that was seen last.
    pub fn record_offset(&mut self, offset: AxisValue)
        requires
            old(self).wf(),
        ensures
            final(self).wf(),
            final(self).motion_active == old(self).motion_active,
            final(self).motion_start_frames == old(self).motion_start_frames,
            final(self).motion_end_frames == old(self).motion_end_frames,
            final(self).detector@ == old(self).detector@.with_offset(offset),
    {
        self.detector.record_offset(offset);
    }
}

/// The tracker's state after a frame.
pub open spec fn after_event(
    state: AiRuntime,
    event: DetectionEvent,
    offset: AxisValue,
    now: Nanos,
) -> AiRuntime {
    match event {
        DetectionEvent::Suppressed | DetectionEvent::Ended => state.without_motion(now),
        DetectionEvent::Target { motion_active, starts_event, .. } => state.with_target(
            offset,
            motion_active,
            starts_event,
            now,
        ),
        DetectionEvent::Quiet => state,
    }
}

/// Tells the tracker's state what a frame has meant; `offset` is where the target
/// is, if one was seen.
pub fn apply_detection(
    runtime: &mut AiRuntime,
    event: DetectionEvent,
    offset: AxisValue,
    now: Nanos,
)
    ensures
        *final(runtime) == after_event(*old(runtime), event, offset, now),
        old(runtime).consistent() ==> final(runtime).consistent(),
{
    match event {
        DetectionEvent::Suppressed | DetectionEvent::Ended => runtime.clear_detection_state(now),
        DetectionEvent::Target { update: _, motion_active, starts_event } => runtime.note_target(
            offset,
            motion_active,
            starts_event,
            now,
        ),
        DetectionEvent::Quiet => {},
    }
}

/// The texts of some arguments.
pub open spec fn texts(args: Seq<String>) -> Seq<Seq<char>> {
    args.map_values(|arg: String| arg@)
}

/// The filter that turns the stream into grey frames of the right size and rate.
pub open spec fn filter_text(fps: nat, width: nat, height: nat) -> Seq<char> {
    "fps="@ + decimal_digits(fps) + ",scale="@ + decimal_digits(width) + "x"@ + decimal_digits(
        height,
    ) + ":force_original_aspect_ratio=decrease,pad="@ + decimal_digits(width) + ":"@
        + decimal_digits(height) + ":(ow-iw)/2:(oh-ih)/2,format=gray"@
}

/// The filter that turns the stream into grey frames of the right size and rate.
pub fn detection_filter(cfg: &AiConfig) -> (filter: String)
    ensures
        filter@ == filter_text(
            cfg.detection_fps as nat,
            cfg.detection_width as nat,
            cfg.detection_height as nat,
        ),
{
    let width = decimal(cfg.detection_width as u64);
    let height = decimal(cfg.detection_height as u64);
    let mut filter = "fps=".to_owned();
    filter.append(decimal(cfg.detection_fps as u64).as_str());
    filter.append(",scale=");
    filter.append(width.as_str());
    filter.append("x");
    filter.append(height.as_str());
    filter.append(":force_original_aspect_ratio=decrease,pad=");
    filter.append(width.as_str());
    filter.append(":");
    filter.append(height.as_str());
    filter.append(":(ow-iw)/2:(oh-ih)/2,format=gray");
    filter
}

/// The arguments of the program that decodes a stream for detection.
pub open spec fn watching_args(url: Seq<char>, fps: nat, width: nat, height: nat) -> Seq<Seq<char>> {
    seq![
        "-hide_banner"@,
        "-loglevel"@,
        "error"@,
        "-hwaccel"@,
        "vaapi"@,
        "-rtsp_transport"@,
        "tcp"@,
        "-fflags"@,
        "nobuffer"@,
        "-flags"@,
        "low_delay"@,
        "-i"@,
        url,
        "-vf"@,
        filter_text(fps, width, height),
        "-f"@,
        "rawvideo"@,
        "pipe:1"@,
    ]
}

/// The arguments of the program that copies a stream for recording.
pub open spec fn copying_args(url: Seq<char>) -> Seq<Seq<char>> {
    seq![
        "-hide_banner"@,
        "-loglevel"@,
        "error"@,
        "-rtsp_transport"@,
        "tcp"@,
        "-i"@,
        url,
        "-c"@,
        "copy"@,
        "-f"@,
        "mpegts"@,
        "pipe:1"@,
    ]
}

/// Adds an argument.
fn push_arg(args: &mut Vec<String>, arg: &str)
    ensures
        texts(final(args)@) == texts(old(args)@).push(arg@),
{
    args.push(arg.to_owned());
    assert(texts(args@) =~= texts(old(args)@).push(arg@));
}

/// Arguments of the program that decodes the stream for detection.
pub fn detection_args(cfg: &AiConfig) -> (args: Vec<String>)
    ensures
        texts(args@) == watching_args(
            cfg.rtsp_url@,
            cfg.detection_fps as nat,
            cfg.detection_width as nat,
            cfg.detection_height as nat,
        ),
{
    let filter = detection_filter(cfg);
    let mut args: Vec<String> = Vec::new();
    assert(texts(args@) =~= seq![]);
    push_arg(&mut args, "-hide_banner");
    push_arg(&mut args, "-loglevel");
    push_arg(&mut args, "error");
    push_arg(&mut args, "-hwaccel");
    push_arg(&mut args, "vaapi");
    push_arg(&mut args, "-rtsp_transport");
    push_arg(&mut args, "tcp");
    push_arg(&mut args, "-fflags");
    push_arg(&mut args, "nobuffer");
    push_arg(&mut args, "-flags");
    push_arg(&mut args, "low_delay");
    push_arg(&mut args, "-i");
    push_arg(&mut args, cfg.rtsp_url.as_str());
    push_arg(&mut args, "-vf");
    push_arg(&mut args, filter.as_str());
    push_arg(&mut args, "-f");
    push_arg(&mut args, "rawvideo");
    push_arg(&mut args, "pipe:1");
    args
}

/// Arguments of the program that copies the stream for recording.
pub fn recording_args(cfg: &AiConfig) -> (args: Vec<String>)
    ensures
        texts(args@) == copying_args(cfg.rtsp_url@),
{
    let mut args: Vec<String> = Vec::new();
    assert(texts(args@) =~= seq![]);
    push_arg(&mut args, "-hide_banner");
    push_arg(&mut args, "-loglevel");
    push_arg(&mut args, "error");
    push_arg(&mut args, "-rtsp_transport");
    push_arg(&mut args, "tcp");
    push_arg(&mut args, "-i");
    push_arg(&mut args, cfg.rtsp_url.as_str());
    push_arg(&mut args, "-c");
    push_arg(&mut args, "copy");
    push_arg(&mut args, "-f");
    push_arg(&mut args, "mpegts");
    push_arg(&mut args, "pipe:1");
    args
}

/// Why the detection stream ended.
pub open spec fn watching_failure(error: Seq<char>, stderr: Seq<char>) -> Seq<char> {
    if stderr.len() == 0 {
        "FFmpeg detection stream ended: "@ + error
    } else {
        "FFmpeg detection stream ended: "@ + error + "; "@ + stderr
    }
}

/// Why the recording stream ended.
pub open spec fn copying_failure(stderr: Seq<char>) -> Seq<char> {
    if stderr.len() == 0 {
        "FFmpeg recording stream ended unexpectedly"@
    } else {
        "FFmpeg recording stream ended unexpectedly"@ + ": "@ + stderr
    }
}

/// Why the detection stream ended: the error, and what the decoder wrote, if it
/// wrote anything.
pub fn detection_ended(error: &str, stderr: &str) -> (detail: String)
    ensures
        detail@ == watching_failure(error@, stderr@),
{
    let mut detail = "FFmpeg detection stream ended: ".to_owned();
    detail.append(error);
    if !stderr.is_empty() {
        detail.append("; ");
        detail.append(stderr);
    }
    detail
}

/// Why the recording stream ended: what the program wrote, if it wrote anything.
pub fn recording_ended(stderr: &str) -> (detail: String)
    ensures
        detail@ == copying_failure(stderr@),
{
    let mut detail = "FFmpeg recording stream ended unexpectedly".to_owned();
    if !stderr.is_empty() {
        detail.append(": ");
        detail.append(stderr);
    }
    detail
}

/// While frames are ignored, the next frame that is not ignored is held against
/// the last one that was: if they are alike, it shows no motion.
pub proof fn law_suppression_restarts_background(before: DetectorView, frame: Seq<u8>, now: Nanos)
    requires
        before.valid(),
        0 < frame.len() <= before.background.len(),
    ensures
        ({
            let reset = before.restarted(frame);
            reset.report(frame, reset.found_in(frame), now) is None
        }),
{
    crate::detector::law_own_background_is_still(before.restarted(frame), frame);
}

/// While a target is reported there is motion, and there is none any more once the
/// detector has forgotten its target.
pub proof fn law_target_means_motion(
    session: DetectionSession,
    frame: Seq<u8>,
    now: Nanos,
)
    requires
        session.wf(),
    ensures
        ({
            let before = session.detector@;
            let found = before.found_in(frame);
            let after = before.after(frame, found, now);
            let event = session.event_for(before.report(frame, found, now), after);
            &&& event matches DetectionEvent::Target { update: _, motion_active, starts_event: _ }
                ==> motion_active
            &&& before.report(frame, found, now) is Some ==> event is Target
            &&& found is None && after.empty_frames >= before.motion_end_frames ==> event
                == if session.motion_active {
                DetectionEvent::Ended
            } else {
                DetectionEvent::Quiet
            }
        }),
{
}

/// An event gets a number when motion begins, and only then.
pub proof fn law_event_starts_with_motion(
    session: DetectionSession,
    update: Option<TrackUpdate>,
    detector: DetectorView,
)
    ensures
        session.event_for(update, detector) matches DetectionEvent::Target {
            update: _,
            motion_active,
            starts_event,
        } ==> (starts_event <==> motion_active && !session.motion_active),
        session.event_for(update, detector) is Ended ==> session.motion_active,
{
}

/// What a frame means, told from the detector's report: a target is passed on as it was
/// reported, and begins an event exactly if there was no motion before it and there were
/// enough frames with motion; motion ends exactly if there was motion, no target was
/// reported and there were enough frames without; otherwise nothing has changed.
pub proof fn law_event_tells_what_happened(
    session: DetectionSession,
    update: Option<TrackUpdate>,
    detector: DetectorView,
)
    ensures
        ({
            let event = session.event_for(update, detector);
            let enough = detector.motion_frames >= session.motion_start_frames;
            let ended = detector.empty_frames >= session.motion_end_frames;
            &&& event is Target <==> update is Some
            &&& event is Target ==> {
                &&& event->update == update->0
                &&& event->starts_event <==> enough && !session.motion_active
                &&& event->motion_active <==> enough || session.motion_active
            }
            &&& event is Ended <==> update is None && session.motion_active && ended
            &&& update is None && !(session.motion_active && ended) ==> event is Quiet
        }),
{
}

/// Whether there is motion changes only with a target, which says so itself, and with its end.
pub proof fn law_motion_lasts_until_it_ends(session: DetectionSession, event: DetectionEvent)
    ensures
        event is Target ==> session.motion_after(event) == event->motion_active,
        event is Ended ==> !session.motion_after(event),
        event is Quiet || event is Suppressed ==> session.motion_after(event)
            == session.motion_active,
{
}

/// A target reaches the state with its offset and, if it begins an event, with the next
/// number; the end of motion and frames that are ignored leave nothing to track; and a frame
/// that means nothing changes nothing.
pub proof fn law_event_reaches_the_state(
    state: AiRuntime,
    event: DetectionEvent,
    offset: AxisValue,
    now: Nanos,
)
    requires
        state.event_id < 0xffff_ffff_ffff_ffff,
    ensures
        ({
            let after = after_event(state, event, offset, now);
            &&& event is Target ==> {
                &&& after.target_offset == offset
                &&& after.motion_active == event->motion_active
                &&& after.tracking == event->motion_active
                &&& after.available
                &&& event->starts_event ==> after.event_id == state.event_id + 1
                &&& !event->starts_event ==> after.event_id == state.event_id
            }
            &&& event is Suppressed || event is Ended ==> {
                &&& !after.motion_active && !after.tracking
                &&& after.event_id == state.event_id
                &&& after.available == state.available
            }
            &&& event is Quiet ==> after == state
            &&& after.recording == state.recording
            &&& after.camera_moving == state.camera_moving
            &&& after.ptz_velocity == state.ptz_velocity
        }),
{
}

/// An argument follows its switch.
pub open spec fn has_option(args: Seq<Seq<char>>, switch: Seq<char>, value: Seq<char>) -> bool {
    exists|k: int|
        0 <= k < args.len() - 1 && #[trigger] args[k] == switch && args[k + 1] == value
}

/// Both programs read the configured stream over TCP and write to their output, the one grey
/// pictures that went through the filter, the other a copy in a transport stream; and they
/// are told apart by the stream alone when all else is the same.
pub proof fn law_programs_read_the_stream(
    url: Seq<char>,
    other: Seq<char>,
    fps: nat,
    width: nat,
    height: nat,
)
    ensures
        ({
            let watching = watching_args(url, fps, width, height);
            let copying = copying_args(url);
            &&& has_option(watching, "-i"@, url) && has_option(copying, "-i"@, url)
            &&& has_option(watching, "-rtsp_transport"@, "tcp"@) && has_option(
                copying,
                "-rtsp_transport"@,
                "tcp"@,
            )
            &&& has_option(watching, "-vf"@, filter_text(fps, width, height))
            &&& has_option(watching, "-f"@, "rawvideo"@) && has_option(copying, "-f"@, "mpegts"@)
            &&& has_option(copying, "-c"@, "copy"@)
            &&& watching.last() == "pipe:1"@ && copying.last() == "pipe:1"@
            &&& watching_args(other, fps, width, height) == watching ==> other == url
            &&& copying_args(other) == copying ==> other == url
        }),
{
    let watching = watching_args(url, fps, width, height);
    let copying = copying_args(url);
    assert(watching[11] == "-i"@ && watching[12] == url);
    assert(watching[5] == "-rtsp_transport"@ && watching[6] == "tcp"@);
    assert(watching[13] == "-vf"@ && watching[14] == filter_text(fps, width, height));
    assert(watching[15] == "-f"@ && watching[16] == "rawvideo"@);
    assert(copying[5] == "-i"@ && copying[6] == url);
    assert(copying[3] == "-rtsp_transport"@ && copying[4] == "tcp"@);
    assert(copying[7] == "-c"@ && copying[8] == "copy"@);
    assert(copying[9] == "-f"@ && copying[10] == "mpegts"@);
    assert(watching_args(other, fps, width, height)[12] == other);
    assert(copying_args(other)[6] == other);
}

/// The filter asks for the configured rate, scales to the configured size without distorting
/// the picture, fills up to that same size and turns the picture grey.
pub proof fn law_filter_asks_for_rate_and_size(fps: nat, width: nat, height: nat)
    ensures
        ({
            let filter = filter_text(fps, width, height);
            &&& ("fps="@ + decimal_digits(fps) + ","@).is_prefix_of(filter)
            &&& occurs(
                filter,
                "scale="@ + decimal_digits(width) + "x"@ + decimal_digits(height) + ":"@,
            )
            &&& occurs(
                filter,
                "pad="@ + decimal_digits(width) + ":"@ + decimal_digits(height) + ":"@,
            )
            &&& occurs(filter, "force_original_aspect_ratio=decrease"@)
            &&& has_suffix(filter, "format=gray"@)
        }),
{
    let f = decimal_digits(fps);
    let w = decimal_digits(width);
    let h = decimal_digits(height);
    lemma_filter_literals();
    lemma_filter_rate(f, w, h);
    lemma_filter_scale(f, w, h);
    lemma_filter_pad(f, w, h);
    lemma_filter_rest(f, w, h);
}

/// The filter for a rate and a size in decimal.
spec fn filter_of(f: Seq<char>, w: Seq<char>, h: Seq<char>) -> Seq<char> {
    "fps="@ + f + ",scale="@ + w + "x"@ + h + ":force_original_aspect_ratio=decrease,pad="@ + w
        + ":"@ + h + ":(ow-iw)/2:(oh-ih)/2,format=gray"@
}

/// The fixed parts of the filter, cut where its parts begin and end.
spec fn filter_is_cut() -> bool {
    let middle = ":force_original_aspect_ratio=decrease,pad="@;
    let end = ":(ow-iw)/2:(oh-ih)/2,format=gray"@;
    &&& ",scale="@ == ","@ + "scale="@
    &&& middle == ":"@ + middle.skip(1)
    &&& middle == ":"@ + "force_original_aspect_ratio=decrease"@ + middle.skip(37)
    &&& middle == middle.take(38) + "pad="@
    &&& end == ":"@ + end.skip(1)
    &&& end == end.take(21) + "format=gray"@
}

proof fn lemma_filter_literals()
    ensures
        filter_is_cut(),
{
    reveal_strlit(",scale=");
    reveal_strlit(",");
    reveal_strlit("scale=");
    reveal_strlit(":");
    reveal_strlit("pad=");
    reveal_strlit("force_original_aspect_ratio=decrease");
    reveal_strlit("format=gray");
    reveal_strlit(":force_original_aspect_ratio=decrease,pad=");
    reveal_strlit(":(ow-iw)/2:(oh-ih)/2,format=gray");
    let middle = ":force_original_aspect_ratio=decrease,pad="@;
    let end = ":(ow-iw)/2:(oh-ih)/2,format=gray"@;
    assert(",scale="@ =~= ","@ + "scale="@);
    assert(middle =~= ":"@ + middle.skip(1));
    assert(middle =~= ":"@ + "force_original_aspect_ratio=decrease"@ + middle.skip(37));
    assert(middle =~= middle.take(38) + "pad="@);
    assert(end =~= ":"@ + end.skip(1));
    assert(end =~= end.take(21) + "format=gray"@);
}

proof fn lemma_filter_rate(f: Seq<char>, w: Seq<char>, h: Seq<char>)
    requires
        filter_is_cut(),
    ensures
        ("fps="@ + f + ","@).is_prefix_of(filter_of(f, w, h)),
{
    let rest = "scale="@ + w + "x"@ + h + ":force_original_aspect_ratio=decrease,pad="@ + w + ":"@
        + h + ":(ow-iw)/2:(oh-ih)/2,format=gray"@;
    assert(filter_of(f, w, h) =~= ("fps="@ + f + ","@) + rest);
}

proof fn lemma_filter_scale(f: Seq<char>, w: Seq<char>, h: Seq<char>)
    requires
        filter_is_cut(),
    ensures
        occurs(filter_of(f, w, h), "scale="@ + w + "x"@ + h + ":"@),
{
    let before = "fps="@ + f + ","@;
    let part = "scale="@ + w + "x"@ + h + ":"@;
    let after = ":force_original_aspect_ratio=decrease,pad="@.skip(1) + w + ":"@ + h
        + ":(ow-iw)/2:(oh-ih)/2,format=gray"@;
    assert(filter_of(f, w, h) =~= before + part + after);
    law_part_occurs(before, part, after);
}

proof fn lemma_filter_pad(f: Seq<char>, w: Seq<char>, h: Seq<char>)
    requires
        filter_is_cut(),
    ensures
        occurs(filter_of(f, w, h), "pad="@ + w + ":"@ + h + ":"@),
{
    let before = "fps="@ + f + ",scale="@ + w + "x"@ + h
        + ":force_original_aspect_ratio=decrease,pad="@.take(38);
    let part = "pad="@ + w + ":"@ + h + ":"@;
    let after = ":(ow-iw)/2:(oh-ih)/2,format=gray"@.skip(1);
    assert(filter_of(f, w, h) =~= before + part + after);
    law_part_occurs(before, part, after);
}

proof fn lemma_filter_rest(f: Seq<char>, w: Seq<char>, h: Seq<char>)
    requires
        filter_is_cut(),
    ensures
        occurs(filter_of(f, w, h), "force_original_aspect_ratio=decrease"@),
        has_suffix(filter_of(f, w, h), "format=gray"@),
{
    let start = "fps="@ + f + ",scale="@ + w + "x"@ + h;
    let middle = ":force_original_aspect_ratio=decrease,pad="@;
    let end = ":(ow-iw)/2:(oh-ih)/2,format=gray"@;
    let ratio = "force_original_aspect_ratio=decrease"@;
    let after = middle.skip(37) + w + ":"@ + h + end;
    assert(filter_of(f, w, h) =~= (start + ":"@) + ratio + after);
    law_part_occurs(start + ":"@, ratio, after);
    let head = start + middle + w + ":"@ + h + end.take(21);
    assert(filter_of(f, w, h) =~= head + "format=gray"@);
    law_suffix(head, head, "format=gray"@);
}

/// The reason why a stream ended shows the error in full, and what the program wrote, if it
/// wrote anything, at its end.
pub proof fn law_failures_show_the_reason(error: Seq<char>, stderr: Seq<char>)
    ensures
        occurs(watching_failure(error, stderr), error),
        has_suffix(watching_failure(error, stderr), stderr),
        has_suffix(copying_failure(stderr), stderr),
        stderr.len() == 0 ==> has_suffix(watching_failure(error, stderr), error),
        "FFmpeg detection stream ended: "@.is_prefix_of(watching_failure(error, stderr)),
        "FFmpeg recording stream ended unexpectedly"@.is_prefix_of(copying_failure(stderr)),
{
    let start = "FFmpeg detection stream ended: "@;
    if stderr.len() == 0 {
        assert(start + error =~= start + error + Seq::<char>::empty());
        law_part_occurs(start, error, Seq::empty());
        law_suffix(start + error, start, error);
        assert(stderr =~= Seq::empty());
        assert(watching_failure(error, stderr) =~= watching_failure(error, stderr) + stderr);
        law_suffix(start, watching_failure(error, stderr), stderr);
        assert(copying_failure(stderr) =~= copying_failure(stderr) + stderr);
        law_suffix(start, copying_failure(stderr), stderr);
    } else {
        assert(start + error + "; "@ + stderr =~= start + error + ("; "@ + stderr));
        law_part_occurs(start, error, "; "@ + stderr);
        law_suffix(start, start + error + "; "@, stderr);
        law_suffix(start, "FFmpeg recording stream ended unexpectedly"@ + ": "@, stderr);
    }
}

} // verus!
