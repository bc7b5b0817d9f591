//! Recording of clips around an event.

use std::collections::VecDeque;
use vstd::prelude::*;
use vstd::string::StringExecFns;
use crate::bytes::append_bytes;
use crate::config::AiConfig;
use crate::outside::{format_rfc3339, is_stamp_char, outcome_view, rfc3339, utc_now};
use crate::runtime::{AiRuntime, Nanos};
use crate::text::chars_of;

verus! {

/// A piece of the stream, and when it came.
pub struct Chunk {
    pub at: Nanos,
    pub data: Vec<u8>,
}

/// A clip: when it was started, in nanoseconds since the Unix epoch; when it is
/// to be finished, if motion has ended; and its bytes.
pub struct ClipBuffer {
    pub started_at: i128,
    pub post_roll_deadline: Option<Nanos>,
    pub bytes: Vec<u8>,
}

/// What a chunk holds.
pub struct ChunkView {
    pub at: Nanos,
    pub data: Seq<u8>,
}

/// What a clip holds.
pub struct ClipView {
    pub started_at: i128,
    pub post_roll_deadline: Option<Nanos>,
    pub bytes: Seq<u8>,
}

impl View for Chunk {
    type V = ChunkView;

    open spec fn view(&self) -> ChunkView {
        ChunkView { at: self.at, data: self.data@ }
    }
}

impl View for ClipBuffer {
    type V = ClipView;

    open spec fn view(&self) -> ClipView {
        ClipView {
            started_at: self.started_at,
            post_roll_deadline: self.post_roll_deadline,
            bytes: self.bytes@,
        }
    }
}

/// What a piece of the stream means for the recording.
pub enum RecordingStep {
    /// Nothing to report.
    Keep,
    /// The clip was dropped, since the tracker is off.
    Cancelled,
    /// A clip was started.
    Started,
    /// The clip is complete.
    Finished(ClipBuffer),
}

/// What a step says.
pub enum StepView {
    Keep,
    Cancelled,
    Started,
    Finished(ClipView),
}

impl View for RecordingStep {
    type V = StepView;

    open spec fn view(&self) -> StepView {
        match self {
            RecordingStep::Keep => StepView::Keep,
            RecordingStep::Cancelled => StepView::Cancelled,
            RecordingStep::Started => StepView::Started,
            RecordingStep::Finished(clip) => StepView::Finished(clip@),
        }
    }
}

/// The chunks without those at the front that are older than `span`.
pub open spec fn unexpired(chunks: Seq<ChunkView>, now: Nanos, span: Nanos) -> Seq<ChunkView>
    decreases chunks.len(),
{
    if chunks.len() > 0 && now - chunks[0].at > span {
        unexpired(chunks.skip(1), now, span)
    } else {
        chunks
    }
}

/// The bytes of the chunks, one after the other.
pub open spec fn gathered(chunks: Seq<ChunkView>) -> Seq<u8>
    decreases chunks.len(),
{
    if chunks.len() == 0 {
        Seq::empty()
    } else {
        gathered(chunks.drop_last()) + chunks.last().data
    }
}

/// What a recording session holds.
pub struct RecorderView {
    pub pre_roll_span: Nanos,
    pub post_roll: Nanos,
    pub pre_roll: Seq<ChunkView>,
    pub clip: Option<ClipView>,
    pub active_event_id: u64,
}

/// A piece of the stream together with what the tracker says at that moment.
pub struct Arrival {
    pub data: Seq<u8>,
    pub now: Nanos,
    pub motion_active: bool,
    pub event_id: u64,
    pub wall_clock: i128,
}

impl RecorderView {
    /// The chunks that are kept for the start of the next clip, the new one included.
    pub open spec fn window(self, arrival: Arrival) -> Seq<ChunkView> {
        unexpired(
            self.pre_roll.push(ChunkView { at: arrival.now, data: arrival.data }),
            arrival.now,
            self.pre_roll_span,
        )
    }

    /// A clip is started: there is motion, no clip yet, and the event has had none.
    pub open spec fn starts(self, arrival: Arrival) -> bool {
        arrival.event_id != 0 && arrival.motion_active && self.clip is None && arrival.event_id
            != self.active_event_id
    }

    /// The clip with the new piece: the running one, or one that starts with all
    /// chunks that were kept, of which the new piece is the last. The deadline is set when motion ends and lifted when
    /// there is motion again.
    pub open spec fn extended(self, arrival: Arrival) -> Option<ClipView> {
        let base = if self.starts(arrival) {
            Some(
                ClipView {
                    started_at: arrival.wall_clock,
                    post_roll_deadline: None,
                    bytes: gathered(self.window(arrival)),
                },
            )
        } else {
            self.clip
        };
        match base {
            Some(clip) => Some(
                ClipView {
                    started_at: clip.started_at,
                    post_roll_deadline: if arrival.motion_active {
                        None
                    } else {
                        match clip.post_roll_deadline {
                            Some(deadline) => Some(deadline),
                            None => Some((arrival.now + self.post_roll) as Nanos),
                        }
                    },
                    bytes: if self.starts(arrival) {
                        clip.bytes
                    } else {
                        clip.bytes + arrival.data
                    },
                },
            ),
            None => None,
        }
    }

    /// A deadline is set: there is a clip without one, and no motion.
    pub open spec fn sets_deadline(self, motion_active: bool, event_id: u64) -> bool {
        &&& event_id != 0
        &&& !motion_active
        &&& self.clip matches Some(clip) && clip.post_roll_deadline is None
    }

    /// The clip is complete: its deadline has come.
    pub open spec fn completes(self, arrival: Arrival) -> bool {
        arrival.event_id != 0 && match self.extended(arrival) {
            Some(clip) => clip.post_roll_deadline matches Some(deadline) && arrival.now >= deadline,
            None => false,
        }
    }

    /// The session after a piece of the stream.
    pub open spec fn after(self, arrival: Arrival) -> RecorderView {
        RecorderView {
            pre_roll: self.window(arrival),
            clip: if arrival.event_id == 0 || self.completes(arrival) {
                None
            } else {
                self.extended(arrival)
            },
            active_event_id: if arrival.event_id == 0 {
                0
            } else if self.starts(arrival) {
                arrival.event_id
            } else {
                self.active_event_id
            },
            ..self
        }
    }

    /// What is reported of a piece of the stream.
    pub open spec fn step(self, arrival: Arrival) -> StepView {
        if arrival.event_id == 0 {
            if self.clip is Some {
                StepView::Cancelled
            } else {
                StepView::Keep
            }
        } else if self.completes(arrival) {
            StepView::Finished(self.extended(arrival)->0)
        } else if self.starts(arrival) {
            StepView::Started
        } else {
            StepView::Keep
        }
    }
}

/// What the chunks hold.
pub open spec fn chunks_view(chunks: Seq<Chunk>) -> Seq<ChunkView> {
    chunks.map_values(|chunk: Chunk| chunk@)
}

/// One run of the recording stream.
pub struct RecordingSession {
    pub pre_roll_span: Nanos,
    pub post_roll: Nanos,
    pub pre_roll: VecDeque<Chunk>,
    pub clip: Option<ClipBuffer>,
    pub active_event_id: u64,
}

impl View for RecordingSession {
    type V = RecorderView;

    open spec fn view(&self) -> RecorderView {
        RecorderView {
            pre_roll_span: self.pre_roll_span,
            post_roll: self.post_roll,
            pre_roll: chunks_view(self.pre_roll@),
            clip: match self.clip {
                Some(clip) => Some(clip@),
                None => None,
            },
            active_event_id: self.active_event_id,
        }
    }
}

/// The bytes of the chunks, one after the other.
fn gather(chunks: &VecDeque<Chunk>) -> (bytes: Vec<u8>)
    ensures
        bytes@ == gathered(chunks_view(chunks@)),
{
    let mut bytes: Vec<u8> = Vec::new();
    let len = chunks.len();
    let ghost all = chunks_view(chunks@);
    let mut i: usize = 0;
    assert(all.take(0) =~= seq![]);
    while i < len
        invariant
            len == chunks@.len(),
            i <= len,
            all == chunks_view(chunks@),
            bytes@ == gathered(all.take(i as int)),
        decreases len - i,
    {
        let chunk: &Chunk = &chunks[i];
        append_bytes(&mut bytes, chunk.data.as_slice());
        assert(all.take(i + 1).drop_last() =~= all.take(i as int));
        assert(all.take(i + 1).last() == chunk@);
        i += 1;
    }
    assert(all.take(len as int) =~= all);
    bytes
}

impl RecordingSession {
    /// A session that has seen nothing of the stream yet.
    pub fn new(cfg: &AiConfig) -> (session: RecordingSession)
        ensures
            session@ == (RecorderView {
                pre_roll_span: cfg.pre_roll,
                post_roll: cfg.post_roll,
                pre_roll: Seq::empty(),
                clip: None,
                active_event_id: 0,
            }),
    {
        let session = RecordingSession {
            pre_roll_span: cfg.pre_roll,
            post_roll: cfg.post_roll,
            pre_roll: VecDeque::new(),
            clip: None,
            active_event_id: 0,
        };
        assert(session@.pre_roll =~= Seq::empty());
        session
    }

    /// Keeps the chunk and drops those that are too old.
    fn keep_chunk(&mut self, data: &[u8], now: Nanos)
        ensures
            final(self)@ == (RecorderView {
                pre_roll: unexpired(
                    old(self)@.pre_roll.push(ChunkView { at: now, data: data@ }),
                    now,
                    old(self)@.pre_roll_span,
                ),
                ..old(self)@
            }),
    {
        let mut copy: Vec<u8> = Vec::new();
        append_bytes(&mut copy, data);
        assert(copy@ =~= data@);
        let ghost all = old(self)@.pre_roll.push(ChunkView { at: now, data: data@ });
        self.pre_roll.push_back(Chunk { at: now, data: copy });
        assert(self@.pre_roll =~= all);
        while self.pre_roll.len() > 0 && now.saturating_sub(self.pre_roll[0].at)
            > self.pre_roll_span
            invariant
                self@ == (RecorderView { pre_roll: self@.pre_roll, ..old(self)@ }),
                unexpired(self@.pre_roll, now, old(self)@.pre_roll_span) == unexpired(
                    all,
                    now,
                    old(self)@.pre_roll_span,
                ),
            decreases self.pre_roll@.len(),
        {
            let ghost before = self@.pre_roll;
            assert(before[0] == self.pre_roll@[0]@);
            let _ = self.pre_roll.pop_front();
            assert(self@.pre_roll =~= before.skip(1));
        }
        proof {
            if self.pre_roll@.len() > 0 {
                assert(self@.pre_roll[0] == self.pre_roll@[0]@);
            }
        }
    }

    /// Takes a piece of the stream that came at `now`, when the tracker reported
    /// `motion_active` and `event_id` and the wall clock showed `wall_clock`.
    pub fn on_chunk_at(
        &mut self,
        data: &[u8],
        now: Nanos,
        motion_active: bool,
        event_id: u64,
        wall_clock: i128,
    ) -> (step: RecordingStep)
        requires
            old(self)@.sets_deadline(motion_active, event_id) ==> now + old(self).post_roll
                <= Nanos::MAX,
        ensures
            final(self)@ == old(self)@.after(
                Arrival { data: data@, now, motion_active, event_id, wall_clock },
            ),
            step@ == old(self)@.step(
                Arrival { data: data@, now, motion_active, event_id, wall_clock },
            ),
    {
        self.keep_chunk(data, now);
        if event_id == 0 {
            let step = if self.clip.is_some() {
                RecordingStep::Cancelled
            } else {
                RecordingStep::Keep
            };
            self.clip = None;
            self.active_event_id = 0;
            return step;
        }
        let starts = motion_active && self.clip.is_none() && event_id != self.active_event_id;
        if starts {
            self.active_event_id = event_id;
            self.clip = Some(
                ClipBuffer {
                    started_at: wall_clock,
                    post_roll_deadline: None,
                    bytes: gather(&self.pre_roll),
                },
            );
        }
        match self.clip.take() {
            Some(mut clip) => {
                if !starts {
                    append_bytes(&mut clip.bytes, data);
                }
                if motion_active {
                    clip.post_roll_deadline = None;
                } else if clip.post_roll_deadline.is_none() {
                    clip.post_roll_deadline = Some(now + self.post_roll);
                }
                let complete = match clip.post_roll_deadline {
                    Some(deadline) => now >= deadline,
                    None => false,
                };
                if complete {
                    RecordingStep::Finished(clip)
                } else {
                    self.clip = Some(clip);
                    if starts {
                        RecordingStep::Started
                    } else {
                        RecordingStep::Keep
                    }
                }
            },
            None => RecordingStep::Keep,
        }
    }

    /// Takes a piece of the stream that came at `now`, when the tracker reported
    /// `motion_active` and `event_id`. A clip that is started is dated by the wall
    /// clock.
    pub fn on_chunk(&mut self, data: &[u8], now: Nanos, motion_active: bool, event_id: u64) -> (
        step: RecordingStep)
        requires
            old(self)@.sets_deadline(motion_active, event_id) ==> now + old(self).post_roll
                <= Nanos::MAX,
        ensures
            exists|wall_clock: i128|
                {
                    let arrival = #[trigger] dated(data@, now, motion_active, event_id, wall_clock);
                    &&& final(self)@ == old(self)@.after(arrival)
                    &&& step@ == old(self)@.step(arrival)
                },
    {
        let wall_clock = utc_now();
        let step = self.on_chunk_at(data, now, motion_active, event_id, wall_clock);
        proof {
            let arrival = dated(data@, now, motion_active, event_id, wall_clock);
            assert(self@ == old(self)@.after(arrival));
        }
        step
    }
}

/// Tells the tracker's state what a piece of the stream has meant; a clip that is
/// finished is no longer being recorded.
pub fn apply_recording(runtime: &mut AiRuntime, step: &RecordingStep, now: Nanos)
    ensures
        match step@ {
            StepView::Keep => *final(runtime) == *old(runtime),
            StepView::Started => *final(runtime) == old(runtime).with_recording(true, now),
            StepView::Cancelled => *final(runtime) == old(runtime).with_recording(false, now),
            StepView::Finished(_) => *final(runtime) == old(runtime).with_recording(false, now),
        },
        old(runtime).consistent() ==> final(runtime).consistent(),
{
    match step {
        RecordingStep::Keep => {},
        RecordingStep::Started => runtime.set_recording_state(true, now),
        RecordingStep::Cancelled => runtime.set_recording_state(false, now),
        RecordingStep::Finished(_) => runtime.set_recording_state(false, now),
    }
}

/// A piece of the stream that came when the wall clock showed `wall_clock`.
pub open spec fn dated(
    data: Seq<u8>,
    now: Nanos,
    motion_active: bool,
    event_id: u64,
    wall_clock: i128,
) -> Arrival {
    Arrival { data, now, motion_active, event_id, wall_clock }
}

/// A colon becomes a hyphen; any other character stays.
pub open spec fn without_colon(c: char) -> char {
    if c == ':' {
        '-'
    } else {
        c
    }
}

/// Name of the file of a clip that was started at the moment with this stamp.
pub open spec fn clip_name(stamp: Seq<char>) -> Seq<char> {
    "motion-"@ + stamp.map_values(|c: char| without_colon(c)) + ".ts"@
}

/// Name of the file of a clip that was started at the moment with this stamp.
pub fn clip_file_name(stamp: &str) -> (name: String)
    ensures
        name@ == clip_name(stamp@),
{
    let chars = chars_of(stamp);
    let len = chars.len();
    let ghost marked = stamp@.map_values(|c: char| without_colon(c));
    let mut name = "motion-".to_owned();
    let mut i: usize = 0;
    assert("motion-"@ + marked.take(0) =~= "motion-"@);
    while i < len
        invariant
            chars@ == stamp@,
            len == stamp@.len(),
            i <= len,
            marked == stamp@.map_values(|c: char| without_colon(c)),
            name@ == "motion-"@ + marked.take(i as int),
        decreases len - i,
    {
        name.push(
            if chars[i] == ':' {
                '-'
            } else {
                chars[i]
            },
        );
        assert("motion-"@ + marked.take(i + 1) =~= ("motion-"@ + marked.take(i as int)).push(
            marked[i as int],
        ));
        i += 1;
    }
    assert(marked.take(len as int) =~= marked);
    name.append(".ts");
    name
}

/// Name of the file of a clip that was started at `started_at`, in nanoseconds
/// since the Unix epoch, or the reason why that moment cannot be written.
pub fn recording_file_name(started_at: i128) -> (name: Result<String, String>)
    ensures
        outcome_view(name) == match rfc3339(started_at as int) {
            Ok(stamp) => Ok(clip_name(stamp)),
            Err(reason) => Err(reason),
        },
        0 <= started_at < 253_402_300_800_000_000_000 ==> name is Ok,
        name matches Ok(text) ==> is_plain_file_name(text@),
{
    match format_rfc3339(started_at) {
        Ok(stamp) => {
            proof {
                law_clip_name_is_plain(stamp@);
            }
            Ok(clip_file_name(stamp.as_str()))
        },
        Err(reason) => Err(reason),
    }
}

/// The name can stand in a directory on any system: it is made of ASCII letters,
/// digits, hyphens and points only.
pub open spec fn is_plain_file_name(name: Seq<char>) -> bool {
    forall|i: int|
        0 <= i < name.len() ==> {
            let c = #[trigger] name[i];
            'a' <= c <= 'z' || 'A' <= c <= 'Z' || '0' <= c <= '9' || c == '-' || c == '.'
        }
}

/// The name of a clip's file can stand in a directory on any system.
pub proof fn law_clip_name_is_plain(stamp: Seq<char>)
    requires
        forall|i: int| 0 <= i < stamp.len() ==> is_stamp_char(#[trigger] stamp[i]),
    ensures
        is_plain_file_name(clip_name(stamp)),
{
    reveal_strlit("motion-");
    reveal_strlit(".ts");
    let marked = stamp.map_values(|c: char| without_colon(c));
    let name = clip_name(stamp);
    assert forall|i: int| 0 <= i < name.len() implies {
        let c = #[trigger] name[i];
        'a' <= c <= 'z' || 'A' <= c <= 'Z' || '0' <= c <= '9' || c == '-' || c == '.'
    } by {
        if i < 7 {
            assert(name[i] == "motion-"@[i]);
        } else if i < 7 + stamp.len() {
            assert(name[i] == marked[i - 7]);
            assert(is_stamp_char(stamp[i - 7]));
        } else {
            assert(name[i] == ".ts"@[i - 7 - stamp.len()]);
        }
    }
}

/// The times of the chunks do not decrease and none lies after `now`.
pub open spec fn in_order(chunks: Seq<ChunkView>, now: Nanos) -> bool {
    &&& forall|i: int, j: int| 0 <= i <= j < chunks.len() ==> chunks[i].at <= chunks[j].at
    &&& forall|i: int| 0 <= i < chunks.len() ==> #[trigger] chunks[i].at <= now
}

/// Of chunks that came in order, exactly those are kept that are not older than
/// the span, in their order.
pub proof fn law_window_holds_the_span(chunks: Seq<ChunkView>, now: Nanos, span: Nanos)
    requires
        in_order(chunks, now),
    ensures
        ({
            let kept = unexpired(chunks, now, span);
            let dropped = chunks.len() - kept.len();
            &&& 0 <= dropped
            &&& kept == chunks.skip(dropped)
            &&& in_order(kept, now)
            &&& forall|i: int| 0 <= i < kept.len() ==> now - (#[trigger] kept[i]).at <= span
            &&& forall|i: int| 0 <= i < dropped ==> now - (#[trigger] chunks[i]).at > span
        }),
    decreases chunks.len(),
{
    if chunks.len() > 0 && now - chunks[0].at > span {
        let rest = chunks.skip(1);
        assert forall|i: int| 0 <= i < rest.len() implies #[trigger] rest[i].at <= now by {
            assert(rest[i] == chunks[i + 1]);
        }
        law_window_holds_the_span(rest, now, span);
        let kept = unexpired(chunks, now, span);
        let dropped = chunks.len() - kept.len();
        assert(rest.skip(dropped - 1) =~= chunks.skip(dropped));
        assert forall|i: int| 0 <= i < dropped implies now - (#[trigger] chunks[i]).at > span by {
            if i > 0 {
                assert(rest[i - 1] == chunks[i]);
            }
        }
    } else {
        assert(chunks.skip(0) =~= chunks);
        assert forall|i: int| 0 <= i < chunks.len() implies now - (#[trigger] chunks[i]).at
            <= span by {
            assert(chunks[0].at <= chunks[i].at);
        }
    }
}

/// A clip is written only after motion has ended and the post-roll is over, and a
/// clip whose event is still moving is never finished.
pub proof fn law_clip_waits_for_post_roll(recorder: RecorderView, arrival: Arrival)
    requires
        recorder.step(arrival) is Finished,
    ensures
        !arrival.motion_active,
        recorder.clip is Some,
        ({
            let clip = recorder.step(arrival)->Finished_0;
            &&& clip.post_roll_deadline matches Some(deadline) && deadline <= arrival.now
            &&& clip.started_at == recorder.clip->0.started_at
            &&& clip.bytes == recorder.clip->0.bytes + arrival.data
            &&& recorder.clip->0.post_roll_deadline is Some ==> clip.post_roll_deadline
                == recorder.clip->0.post_roll_deadline
        }),
        recorder.after(arrival).clip is None,
{
}

/// When motion ends, the clip runs on for the post-roll.
pub proof fn law_post_roll_starts_when_motion_ends(recorder: RecorderView, arrival: Arrival)
    requires
        recorder.clip is Some,
        recorder.clip->0.post_roll_deadline is None,
        arrival.event_id != 0,
        !arrival.motion_active,
        recorder.post_roll > 0,
        arrival.now + recorder.post_roll <= Nanos::MAX,
    ensures
        recorder.step(arrival) is Keep,
        recorder.after(arrival).clip->0.post_roll_deadline == Some(
            (arrival.now + recorder.post_roll) as Nanos,
        ),
{
}

/// The session after some pieces of the stream.
pub open spec fn after_all(recorder: RecorderView, arrivals: Seq<Arrival>) -> RecorderView
    decreases arrivals.len(),
{
    if arrivals.len() == 0 {
        recorder
    } else {
        after_all(recorder, arrivals.drop_last()).after(arrivals.last())
    }
}

/// None of the pieces of the stream completes a clip.
pub open spec fn none_completes(recorder: RecorderView, arrivals: Seq<Arrival>) -> bool
    decreases arrivals.len(),
{
    arrivals.len() > 0 ==> {
        &&& none_completes(recorder, arrivals.drop_last())
        &&& !after_all(recorder, arrivals.drop_last()).completes(arrivals.last())
    }
}

/// The bytes of some pieces of the stream, one after the other.
pub open spec fn streamed(arrivals: Seq<Arrival>) -> Seq<u8>
    decreases arrivals.len(),
{
    if arrivals.len() == 0 {
        Seq::empty()
    } else {
        streamed(arrivals.drop_last()) + arrivals.last().data
    }
}

/// The event of the last clip that was started; none if there was no clip, or if the
/// tracker was found to be off, or without an event, since then.
pub open spec fn last_clip_event(recorder: RecorderView, arrivals: Seq<Arrival>) -> u64
    decreases arrivals.len(),
{
    if arrivals.len() == 0 {
        recorder.active_event_id
    } else if arrivals.last().event_id == 0 {
        0
    } else if after_all(recorder, arrivals.drop_last()).step(arrivals.last()) is Started {
        arrivals.last().event_id
    } else {
        last_clip_event(recorder, arrivals.drop_last())
    }
}

/// A piece of the stream as it comes while the tracker is in `state`.
pub open spec fn arriving(
    state: AiRuntime,
    data: Seq<u8>,
    now: Nanos,
    wall_clock: i128,
) -> Arrival {
    dated(data, now, state.for_recorder().0, state.for_recorder().1, wall_clock)
}

/// A clip is started exactly when the tracker is on, there is motion, the event has
/// a number that is not that of the last clip, and no clip is open; the state then
/// says that a clip is being recorded.
pub proof fn law_clip_starts(
    recorder: RecorderView,
    arrivals: Seq<Arrival>,
    state: AiRuntime,
    data: Seq<u8>,
    now: Nanos,
    wall_clock: i128,
)
    ensures
        ({
            let before = after_all(recorder, arrivals);
            let starts = before.step(arriving(state, data, now, wall_clock)) is Started;
            &&& starts <==> state.enabled && state.motion_active && state.event_id != 0
                && state.event_id != last_clip_event(recorder, arrivals) && before.clip is None
            &&& starts ==> state.with_recording(true, now).recording
        }),
{
    lemma_last_clip_event(recorder, arrivals);
}

proof fn lemma_last_clip_event(recorder: RecorderView, arrivals: Seq<Arrival>)
    ensures
        after_all(recorder, arrivals).active_event_id == last_clip_event(recorder, arrivals),
    decreases arrivals.len(),
{
    if arrivals.len() > 0 {
        lemma_last_clip_event(recorder, arrivals.drop_last());
    }
}

/// The piece at index `i` starts a clip.
pub open spec fn starts_at(recorder: RecorderView, arrivals: Seq<Arrival>, i: int) -> bool {
    after_all(recorder, arrivals.take(i)).step(arrivals[i]) is Started
}

/// The pieces from index `i` on come while there are events, whose numbers do not go
/// down.
pub open spec fn events_from(arrivals: Seq<Arrival>, i: int) -> bool {
    &&& forall|k: int| i <= k < arrivals.len() ==> (#[trigger] arrivals[k]).event_id != 0
    &&& forall|k: int, l: int|
        i <= k <= l < arrivals.len() ==> (#[trigger] arrivals[k]).event_id <= (
        #[trigger] arrivals[l]).event_id
}

proof fn lemma_active_event_in_between(
    recorder: RecorderView,
    arrivals: Seq<Arrival>,
    i: int,
    k: int,
)
    requires
        0 <= i < k <= arrivals.len(),
        starts_at(recorder, arrivals, i),
        events_from(arrivals, i),
    ensures
        arrivals[i].event_id <= after_all(recorder, arrivals.take(k)).active_event_id
            <= arrivals[k - 1].event_id,
    decreases k,
{
    assert(arrivals.take(k).drop_last() =~= arrivals.take(k - 1));
    assert(arrivals.take(k).last() == arrivals[k - 1]);
    if k > i + 1 {
        lemma_active_event_in_between(recorder, arrivals, i, k - 1);
        assert(arrivals[k - 2].event_id <= arrivals[k - 1].event_id);
    }
}

/// An event gets one clip at most: of two clips that are started while the tracker
/// stays on, the later one belongs to a later event.
pub proof fn law_one_clip_per_event(
    recorder: RecorderView,
    arrivals: Seq<Arrival>,
    i: int,
    j: int,
)
    requires
        0 <= i < j < arrivals.len(),
        events_from(arrivals, i),
        starts_at(recorder, arrivals, i),
        starts_at(recorder, arrivals, j),
    ensures
        arrivals[i].event_id < arrivals[j].event_id,
{
    lemma_active_event_in_between(recorder, arrivals, i, j);
    assert(arrivals[j - 1].event_id <= arrivals[j].event_id);
}

/// A clip holds the stream without a gap: what was kept, up to and with the piece
/// that starts the clip, and every piece after that one, until the clip is finished.
pub proof fn law_clip_has_no_gap(recorder: RecorderView, first: Arrival, later: Seq<Arrival>)
    requires
        recorder.step(first) is Started,
        forall|i: int| 0 <= i < later.len() ==> (#[trigger] later[i]).event_id != 0,
        none_completes(recorder.after(first), later),
    ensures
        after_all(recorder.after(first), later).clip matches Some(clip) && {
            &&& clip.bytes == gathered(recorder.window(first)) + streamed(later)
            &&& clip.started_at == first.wall_clock
        },
    decreases later.len(),
{
    let opening = gathered(recorder.window(first));
    if later.len() > 0 {
        let before = later.drop_last();
        law_clip_has_no_gap(recorder, first, before);
        assert(opening + streamed(before) + later.last().data =~= opening + (streamed(before)
            + later.last().data));
    } else {
        assert(opening + streamed(later) =~= opening);
    }
}

/// The chunks that the pieces of the stream are kept as.
pub open spec fn chunks_of(arrivals: Seq<Arrival>) -> Seq<ChunkView> {
    arrivals.map_values(|arrival: Arrival| ChunkView { at: arrival.now, data: arrival.data })
}

/// The pieces came in the order of their times.
pub open spec fn timely(arrivals: Seq<Arrival>) -> bool {
    forall|i: int, j: int|
        0 <= i <= j < arrivals.len() ==> (#[trigger] arrivals[i]).now <= (
        #[trigger] arrivals[j]).now
}

/// The piece at index `a` is the first that is not older than `span` when the one at
/// index `s` comes.
pub open spec fn opens_window(arrivals: Seq<Arrival>, a: int, s: int, span: Nanos) -> bool {
    &&& 0 <= a <= s < arrivals.len()
    &&& arrivals[s].now - arrivals[a].now <= span
    &&& forall|i: int| 0 <= i < a ==> arrivals[s].now - (#[trigger] arrivals[i]).now > span
}

proof fn lemma_after_all_joined(recorder: RecorderView, first: Seq<Arrival>, second: Seq<Arrival>)
    ensures
        after_all(recorder, first + second) == after_all(after_all(recorder, first), second),
    decreases second.len(),
{
    if second.len() == 0 {
        assert(first + second =~= first);
    } else {
        lemma_after_all_joined(recorder, first, second.drop_last());
        assert((first + second).drop_last() =~= first + second.drop_last());
    }
}

proof fn lemma_streamed_joined(first: Seq<Arrival>, second: Seq<Arrival>)
    ensures
        streamed(first + second) == streamed(first) + streamed(second),
    decreases second.len(),
{
    if second.len() == 0 {
        assert(first + second =~= first);
        assert(streamed(first) + streamed(second) =~= streamed(first));
    } else {
        lemma_streamed_joined(first, second.drop_last());
        assert((first + second).drop_last() =~= first + second.drop_last());
        assert(streamed(first) + streamed(second.drop_last()) + second.last().data =~= streamed(
            first,
        ) + (streamed(second.drop_last()) + second.last().data));
    }
}

proof fn lemma_gathered_is_streamed(arrivals: Seq<Arrival>)
    ensures
        gathered(chunks_of(arrivals)) == streamed(arrivals),
    decreases arrivals.len(),
{
    if arrivals.len() > 0 {
        lemma_gathered_is_streamed(arrivals.drop_last());
        assert(chunks_of(arrivals).drop_last() =~= chunks_of(arrivals.drop_last()));
    }
}

/// Chunks at the front that are too old make no difference to what is kept.
proof fn lemma_expired_front(chunks: Seq<ChunkView>, now: Nanos, span: Nanos, n: int)
    requires
        0 <= n <= chunks.len(),
        forall|i: int| 0 <= i < n ==> now - (#[trigger] chunks[i]).at > span,
    ensures
        unexpired(chunks, now, span) == unexpired(chunks.skip(n), now, span),
    decreases n,
{
    if n == 0 {
        assert(chunks.skip(0) =~= chunks);
    } else {
        assert(now - chunks[0].at > span);
        let rest = chunks.skip(1);
        assert forall|i: int| 0 <= i < n - 1 implies now - (#[trigger] rest[i]).at > span by {
            assert(rest[i] == chunks[i + 1]);
        }
        lemma_expired_front(rest, now, span, n - 1);
        assert(rest.skip(n - 1) =~= chunks.skip(n));
    }
}

/// What a session has kept is what of the whole stream is not too old.
proof fn lemma_window_of_stream(recorder: RecorderView, arrivals: Seq<Arrival>)
    requires
        recorder.pre_roll.len() == 0,
        timely(arrivals),
    ensures
        after_all(recorder, arrivals).pre_roll_span == recorder.pre_roll_span,
        arrivals.len() > 0 ==> in_order(chunks_of(arrivals), arrivals.last().now),
        after_all(recorder, arrivals).pre_roll == if arrivals.len() == 0 {
            Seq::empty()
        } else {
            unexpired(chunks_of(arrivals), arrivals.last().now, recorder.pre_roll_span)
        },
    decreases arrivals.len(),
{
    if arrivals.len() == 0 {
        assert(recorder.pre_roll =~= Seq::empty());
    } else {
        let span = recorder.pre_roll_span;
        let shorter = arrivals.drop_last();
        let last = arrivals.last();
        let chunk = ChunkView { at: last.now, data: last.data };
        let earlier = chunks_of(shorter);
        lemma_window_of_stream(recorder, shorter);
        assert(chunks_of(arrivals) =~= earlier.push(chunk));
        let kept = after_all(recorder, shorter).pre_roll;
        if shorter.len() > 0 {
            law_window_holds_the_span(earlier, shorter.last().now, span);
            let dropped = earlier.len() - kept.len();
            let all = earlier.push(chunk);
            assert forall|i: int| 0 <= i < dropped implies last.now - (#[trigger] all[i]).at
                > span by {
                assert(all[i] == earlier[i]);
                assert(shorter.last() == arrivals[arrivals.len() - 2]);
            }
            lemma_expired_front(all, last.now, span, dropped);
            assert(all.skip(dropped) =~= kept.push(chunk));
        } else {
            assert(kept.push(chunk) =~= earlier.push(chunk));
        }
    }
}

/// A clip is a copy of the stream: of the pieces that came since the session began,
/// it holds every one from the first that was not older than the pre-roll when the
/// clip was started, up to the last that came, each once and in their order.
pub proof fn law_clip_copies_the_stream(
    recorder: RecorderView,
    arrivals: Seq<Arrival>,
    s: int,
    a: int,
)
    requires
        recorder.pre_roll.len() == 0,
        timely(arrivals),
        0 <= s < arrivals.len(),
        starts_at(recorder, arrivals, s),
        opens_window(arrivals, a, s, recorder.pre_roll_span),
        forall|i: int| s < i < arrivals.len() ==> (#[trigger] arrivals[i]).event_id != 0,
        none_completes(after_all(recorder, arrivals.take(s + 1)), arrivals.skip(s + 1)),
    ensures
        after_all(recorder, arrivals).clip matches Some(clip) && {
            &&& clip.bytes == streamed(arrivals.skip(a))
            &&& clip.started_at == arrivals[s].wall_clock
        },
{
    let span = recorder.pre_roll_span;
    let head = arrivals.take(s + 1);
    let tail = arrivals.skip(s + 1);
    let before = after_all(recorder, arrivals.take(s));
    assert(head.drop_last() =~= arrivals.take(s));
    assert(head.last() == arrivals[s]);
    assert(head + tail =~= arrivals);
    lemma_after_all_joined(recorder, head, tail);
    law_clip_has_no_gap(before, arrivals[s], tail);
    lemma_window_of_stream(recorder, head);
    let chunks = chunks_of(head);
    law_window_holds_the_span(chunks, arrivals[s].now, span);
    let kept = unexpired(chunks, arrivals[s].now, span);
    let dropped = chunks.len() - kept.len();
    assert(dropped == a) by {
        if a < dropped {
            assert(chunks[a].at == arrivals[a].now);
        } else if dropped < a {
            assert(kept[0].at == arrivals[dropped].now);
        }
    }
    let opening = arrivals.subrange(a, s + 1);
    assert(kept =~= chunks_of(opening));
    lemma_gathered_is_streamed(opening);
    assert(opening + tail =~= arrivals.skip(a));
    lemma_streamed_joined(opening, tail);
}

/// What is written when a clip is finished is a copy of the stream, from the first
/// piece that was not older than the pre-roll when the clip was started up to and
/// with the piece that finished it.
pub proof fn law_finished_clip_copies_the_stream(
    recorder: RecorderView,
    arrivals: Seq<Arrival>,
    s: int,
    a: int,
    last: Arrival,
)
    requires
        recorder.pre_roll.len() == 0,
        timely(arrivals),
        0 <= s < arrivals.len(),
        starts_at(recorder, arrivals, s),
        opens_window(arrivals, a, s, recorder.pre_roll_span),
        forall|i: int| s < i < arrivals.len() ==> (#[trigger] arrivals[i]).event_id != 0,
        none_completes(after_all(recorder, arrivals.take(s + 1)), arrivals.skip(s + 1)),
        after_all(recorder, arrivals).step(last) is Finished,
    ensures
        ({
            let clip = after_all(recorder, arrivals).step(last)->Finished_0;
            &&& clip.bytes == streamed(arrivals.push(last).skip(a))
            &&& clip.started_at == arrivals[s].wall_clock
        }),
{
    law_clip_copies_the_stream(recorder, arrivals, s, a);
    assert(arrivals.push(last).skip(a).drop_last() =~= arrivals.skip(a));
}

/// An open clip is not dropped while the tracker stays on: with an event that has a number,
/// whether or not there is motion, the clip goes on with the new piece, or is finished with
/// it. It is dropped exactly when the tracker is found to be off, or to have had no event.
pub proof fn law_open_clip_runs_on(
    recorder: RecorderView,
    state: AiRuntime,
    data: Seq<u8>,
    now: Nanos,
    wall_clock: i128,
)
    requires
        recorder.clip is Some,
    ensures
        ({
            let arrival = arriving(state, data, now, wall_clock);
            let step = recorder.step(arrival);
            let after = recorder.after(arrival);
            &&& step is Cancelled <==> !state.enabled || state.event_id == 0
            &&& state.enabled && state.event_id != 0 ==> {
                &&& step is Finished || after.clip is Some
                &&& step is Finished ==> step->Finished_0.bytes == recorder.clip->0.bytes + data
                &&& !(step is Finished) ==> after.clip->0.bytes == recorder.clip->0.bytes + data
            }
            &&& !state.enabled || state.event_id == 0 ==> after.clip is None
                && after.active_event_id == 0
        }),
{
}

/// Motion keeps a clip open: while there is motion no clip is finished, and a deadline that
/// was set is lifted.
pub proof fn law_motion_keeps_the_clip_open(
    recorder: RecorderView,
    state: AiRuntime,
    data: Seq<u8>,
    now: Nanos,
    wall_clock: i128,
)
    requires
        recorder.clip is Some,
        state.enabled,
        state.motion_active,
        state.event_id != 0,
    ensures
        ({
            let arrival = arriving(state, data, now, wall_clock);
            &&& recorder.step(arrival) is Keep
            &&& recorder.after(arrival).clip is Some
            &&& recorder.after(arrival).clip->0.post_roll_deadline is None
        }),
{
}

/// A clip is finished exactly when the tracker is on, there is no motion, and the deadline
/// that was set when motion ended has come.
pub proof fn law_clip_is_finished_on_time(
    recorder: RecorderView,
    state: AiRuntime,
    data: Seq<u8>,
    now: Nanos,
    wall_clock: i128,
)
    requires
        recorder.clip is Some,
        now + recorder.post_roll <= Nanos::MAX,
    ensures
        ({
            let deadline = recorder.clip->0.post_roll_deadline;
            recorder.step(arriving(state, data, now, wall_clock)) is Finished <==> state.enabled
                && state.event_id != 0 && !state.motion_active && if deadline is Some {
                deadline->0 <= now
            } else {
                recorder.post_roll == 0
            }
        }),
{
}

/// Once there has been no motion for the post-roll, the clip is finished: of two pieces that
/// come without motion, while the tracker is on, and the post-roll or more apart, one
/// finishes it.
pub proof fn law_quiet_post_roll_finishes_the_clip(
    recorder: RecorderView,
    first: AiRuntime,
    data: Seq<u8>,
    now: Nanos,
    second: AiRuntime,
    more: Seq<u8>,
    later: Nanos,
    wall_clock: i128,
)
    requires
        recorder.clip is Some,
        recorder.clip->0.post_roll_deadline is Some ==> recorder.clip->0.post_roll_deadline->0 <= now
            + recorder.post_roll,
        first.enabled && !first.motion_active && first.event_id != 0,
        second.enabled && !second.motion_active && second.event_id != 0,
        now + recorder.post_roll <= later,
    ensures
        recorder.step(arriving(first, data, now, wall_clock)) is Finished || recorder.after(
            arriving(first, data, now, wall_clock),
        ).step(arriving(second, more, later, wall_clock)) is Finished,
{
}

/// The piece that comes is always kept for the next clip, as the last one, and its span is
/// that of the session.
pub proof fn law_new_piece_is_kept(recorder: RecorderView, arrival: Arrival)
    ensures
        ({
            let kept = recorder.after(arrival).pre_roll;
            &&& kept.len() > 0
            &&& kept.last().at == arrival.now
            &&& kept.last().data == arrival.data
            &&& recorder.after(arrival).pre_roll_span == recorder.pre_roll_span
            &&& recorder.after(arrival).post_roll == recorder.post_roll
        }),
{
    lemma_newest_stays(
        recorder.pre_roll.push(ChunkView { at: arrival.now, data: arrival.data }),
        arrival.now,
        recorder.pre_roll_span,
    );
}

proof fn lemma_newest_stays(chunks: Seq<ChunkView>, now: Nanos, span: Nanos)
    requires
        chunks.len() > 0,
        chunks.last().at == now,
    ensures
        unexpired(chunks, now, span).len() > 0,
        unexpired(chunks, now, span).last() == chunks.last(),
    decreases chunks.len(),
{
    if now - chunks[0].at > span {
        assert(chunks.len() > 1);
        assert(chunks.skip(1).last() == chunks.last());
        lemma_newest_stays(chunks.skip(1), now, span);
    }
}

/// The name of a clip's file is the stamp between a fixed beginning and a fixed end, with a
/// hyphen for each colon and every other character as it is.
pub proof fn law_clip_name_shows_the_stamp(stamp: Seq<char>, i: int)
    requires
        0 <= i < stamp.len(),
    ensures
        ({
            let name = clip_name(stamp);
            &&& name.len() == stamp.len() + 10
            &&& name.take(7) == seq!['m', 'o', 't', 'i', 'o', 'n', '-']
            &&& name.skip(7int + stamp.len()) == seq!['.', 't', 's']
            &&& stamp[i] == ':' ==> name[7 + i] == '-'
            &&& stamp[i] != ':' ==> name[7 + i] == stamp[i]
        }),
{
    reveal_strlit("motion-");
    reveal_strlit(".ts");
    let marked = stamp.map_values(|c: char| without_colon(c));
    let name = clip_name(stamp);
    assert(name.take(7) =~= seq!['m', 'o', 't', 'i', 'o', 'n', '-']);
    assert(name.skip(7int + stamp.len()) =~= seq!['.', 't', 's']);
    assert(name[7 + i] == marked[i]);
}

/// From the piece at index `k` on there was no motion.
pub open spec fn still_from(arrivals: Seq<Arrival>, k: int) -> bool {
    &&& 0 <= k < arrivals.len()
    &&& forall|i: int| k <= i < arrivals.len() ==> !(#[trigger] arrivals[i]).motion_active
}

/// A deadline lies the post-roll after a piece from which on there was no motion.
proof fn lemma_deadline_counts_from_stillness(
    recorder: RecorderView,
    first: Arrival,
    later: Seq<Arrival>,
)
    requires
        recorder.step(first) is Started,
        forall|i: int|
            0 <= i < later.len() ==> (#[trigger] later[i]).event_id != 0 && later[i].now
                + recorder.post_roll <= Nanos::MAX,
        later.len() > 0 ==> none_completes(recorder.after(first), later.drop_last()),
    ensures
        after_all(recorder.after(first), later).post_roll == recorder.post_roll,
        later.len() > 0 ==> {
            let before = after_all(recorder.after(first), later.drop_last());
            &&& before.clip is Some
            &&& before.post_roll == recorder.post_roll
            &&& before.extended(later.last()) matches Some(clip) && (clip.post_roll_deadline
                matches Some(deadline) ==> exists|k: int| #[trigger]
                still_from(later, k) && deadline == later[k].now + recorder.post_roll)
        },
    decreases later.len(),
{
    if later.len() > 0 {
        let shorter = later.drop_last();
        let before = after_all(recorder.after(first), shorter);
        law_clip_has_no_gap(recorder, first, shorter);
        lemma_deadline_counts_from_stillness(recorder, first, shorter);
        if !later.last().motion_active {
            match before.clip->0.post_roll_deadline {
                Some(deadline) => {
                    let earlier = after_all(recorder.after(first), shorter.drop_last());
                    assert(shorter.len() > 0 && before == earlier.after(shorter.last()));
                    let k = choose|k: int| #[trigger]
                        still_from(shorter, k) && deadline == shorter[k].now + recorder.post_roll;
                    assert forall|i: int| k <= i < later.len() implies !(
                    #[trigger] later[i]).motion_active by {
                        if i < shorter.len() {
                            assert(later[i] == shorter[i]);
                        }
                    }
                    assert(still_from(later, k) && later[k] == shorter[k]);
                },
                None => {
                    assert(still_from(later, later.len() - 1));
                },
            }
        }
    }
}

/// A clip that is finished ends with the post-roll: for that long, up to the piece
/// that finished it, there was no motion.
pub proof fn law_clip_ends_with_post_roll(
    recorder: RecorderView,
    first: Arrival,
    later: Seq<Arrival>,
    last: Arrival,
)
    requires
        recorder.step(first) is Started,
        forall|i: int|
            0 <= i < later.len() ==> (#[trigger] later[i]).event_id != 0 && later[i].now
                + recorder.post_roll <= Nanos::MAX,
        last.now + recorder.post_roll <= Nanos::MAX,
        none_completes(recorder.after(first), later),
        after_all(recorder.after(first), later).step(last) is Finished,
    ensures
        exists|k: int| #[trigger]
            still_from(later.push(last), k) && later.push(last)[k].now + recorder.post_roll
                <= last.now,
{
    let all = later.push(last);
    assert(all.drop_last() =~= later);
    lemma_deadline_counts_from_stillness(recorder, first, all);
}

/// A clip begins with everything that was kept from before the event.
pub proof fn law_clip_begins_with_pre_roll(recorder: RecorderView, arrival: Arrival)
    requires
        recorder.step(arrival) is Started,
    ensures
        recorder.after(arrival).clip is Some,
        recorder.after(arrival).clip->0.bytes == gathered(recorder.window(arrival)),
        recorder.after(arrival).clip->0.started_at == arrival.wall_clock,
{
}

} // verus!
