//! Motion detection by background subtraction.
//!
//! The background is an exponential moving average of the frames. Pixels that
//! differ from it by more than a threshold, which follows the overall unrest of
//! the picture, make up a mask; the mask is cleaned by erosion and dilation, and
//! the largest region that is left is the target.

use vstd::prelude::*;
use crate::axis::AxisValue;
use crate::bytes::clear_bytes;
use crate::config::{at_least, AiConfig};
use crate::grid::{interior, touching};
use crate::morphology::{dilate, erode, eroded, law_opening_keeps_full_blocks, opening};
use crate::region::{
    is_largest_blob, largest_blob_in, largest_region, law_large_enough_is_found,
    law_largest_exists, region_area, Blob,
};
use crate::runtime::Nanos;

verus! {

/// What the dynamic threshold adds to the mean difference.
pub const DYNAMIC_THRESHOLD_ADJUSTMENT: u8 = 4;

/// How long a target is followed before another one can take its place.
pub const TRACK_LOCK_DURATION: u128 = 1_500_000_000;

/// How long a target can stay out of sight without being given up.
pub const TRACK_LOST_TIMEOUT: u128 = 1_000_000_000;

/// One slot of the flood fill's stack is reserved for this many pixels.
const STACK_CAPACITY_DIVISOR: usize = 32;

/// The target that is being followed.
#[derive(Clone, Copy, Debug)]
pub struct Track {
    pub offset: AxisValue,
    pub area: usize,
    pub locked_at: Nanos,
    pub last_seen_at: Nanos,
}

/// A target was seen: its region, and the offset that the new offset is blended
/// with, or `None` if the new offset stands for itself.
#[derive(Clone, Copy, Debug)]
pub struct TrackUpdate {
    pub blob: Blob,
    pub blend_with: Option<AxisValue>,
}

/// Division that rounds towards zero.
pub open spec fn div_to_zero(a: int, b: int) -> int {
    if a >= 0 {
        a / b
    } else {
        -((-a) / b)
    }
}

/// A pixel in the units of the background, which has eight more bits.
pub open spec fn scaled(pixel: u8) -> int {
    pixel * 256
}

/// The background moves towards the pixel by `alpha` thousandths of the distance.
pub open spec fn blended(bg: int, pixel: u8, alpha: int) -> int {
    bg + div_to_zero((scaled(pixel) - bg) * alpha, 1000)
}

/// The background after a frame; pixels that the frame does not reach stay.
pub open spec fn next_background(bg: Seq<u16>, frame: Seq<u8>, alpha: int) -> Seq<u16> {
    Seq::new(
        bg.len(),
        |i: int|
            if i < frame.len() {
                blended(bg[i] as int, frame[i], alpha) as u16
            } else {
                bg[i]
            },
    )
}

/// The background that equals the frame; pixels that the frame does not reach
/// stay.
pub open spec fn primed(bg: Seq<u16>, frame: Seq<u8>) -> Seq<u16> {
    Seq::new(
        bg.len(),
        |i: int|
            if i < frame.len() {
                scaled(frame[i]) as u16
            } else {
                bg[i]
            },
    )
}

/// Distance of two integers.
pub open spec fn distance(a: int, b: int) -> int {
    if a < b {
        b - a
    } else {
        a - b
    }
}

/// Sum over the first `n` pixels of how far they are from the background, in
/// units of a pixel.
pub open spec fn unrest(bg: Seq<u16>, frame: Seq<u8>, n: int) -> int
    decreases n,
{
    if n <= 0 {
        0
    } else {
        unrest(bg, frame, n - 1) + distance(scaled(frame[n - 1]), bg[n - 1] as int) / 256
    }
}

/// The threshold for a frame: the base threshold, or a little more than the mean
/// difference, whichever is greater.
pub open spec fn dynamic_threshold(base: int, bg: Seq<u16>, frame: Seq<u8>) -> int {
    let mean = unrest(bg, frame, frame.len() as int) / frame.len() as int;
    let raised = if mean + DYNAMIC_THRESHOLD_ADJUSTMENT > 255 {
        255
    } else {
        mean + DYNAMIC_THRESHOLD_ADJUSTMENT
    };
    if base > raised {
        base
    } else {
        raised
    }
}

/// The mask of the pixels that differ from the background by at least the
/// threshold; where the frame does not reach the mask stays.
pub open spec fn raw_mask(mask: Seq<u8>, bg: Seq<u16>, frame: Seq<u8>, threshold: int) -> Seq<u8> {
    Seq::new(
        mask.len(),
        |i: int|
            if i < frame.len() {
                if distance(frame[i] as int, bg[i] as int / 256) >= threshold {
                    1u8
                } else {
                    0u8
                }
            } else {
                mask[i]
            },
    )
}

/// What a detector holds.
pub struct DetectorView {
    pub width: int,
    pub height: int,
    pub alpha: int,
    pub base_threshold: int,
    pub min_blob_area: int,
    pub motion_start_frames: int,
    pub motion_end_frames: int,
    pub background_initialized: bool,
    pub background: Seq<u16>,
    pub mask: Seq<u8>,
    pub motion_frames: int,
    pub empty_frames: int,
    pub target: Option<Track>,
}

/// A count that stays at the greatest `u32`.
pub open spec fn counted(n: int) -> int {
    if n < u32::MAX {
        n + 1
    } else {
        n
    }
}

/// The target is given up in favour of a new one: it has been followed long
/// enough, the new one is more than twice as large, or it was out of sight for
/// too long.
pub open spec fn replaces_target(target: Option<Track>, area: int, now: int) -> bool {
    match target {
        Some(current) => {
            ||| now - current.locked_at >= TRACK_LOCK_DURATION
            ||| area > if current.area * 2 > usize::MAX {
                usize::MAX as int
            } else {
                current.area * 2
            }
            ||| now - current.last_seen_at > TRACK_LOST_TIMEOUT
        },
        None => true,
    }
}

impl DetectorView {
    /// What holds of every detector: the background and the mask cover the grid, the
    /// background is in the range of scaled pixels, and the numbers that were
    /// configured are in their ranges.
    pub open spec fn valid(self) -> bool {
        &&& 0 <= self.width <= usize::MAX
        &&& 0 <= self.height <= usize::MAX
        &&& self.mask.len() <= usize::MAX
        &&& self.background.len() == self.width * self.height
        &&& self.mask.len() == self.width * self.height
        &&& forall|i: int|
            0 <= i < self.background.len() ==> #[trigger] self.background[i] <= 0xff00
        &&& 1 <= self.alpha <= 1000
        &&& 0 <= self.base_threshold <= 255
        &&& self.min_blob_area >= 1
        &&& self.motion_start_frames >= 1
        &&& self.motion_end_frames >= 1
        &&& 0 <= self.motion_frames <= u32::MAX
        &&& 0 <= self.empty_frames <= u32::MAX
    }

    /// A detector that has seen no frame yet. The smallest region it takes notice
    /// of is a percentage of the frame, at least one pixel; the rate of the moving
    /// average is held between one and a thousand thousandths, and motion starts
    /// and ends with one frame at least.
    pub open spec fn fresh(cfg: AiConfig) -> DetectorView {
        let len = (cfg.detection_width * cfg.detection_height) as nat;
        DetectorView {
            width: cfg.detection_width as int,
            height: cfg.detection_height as int,
            alpha: if cfg.ema_alpha_milli < 1 {
                1
            } else if cfg.ema_alpha_milli > 1000 {
                1000
            } else {
                cfg.ema_alpha_milli as int
            },
            base_threshold: cfg.threshold as int,
            min_blob_area: at_least(
                cfg.detection_width * cfg.detection_height * cfg.min_blob_percent / 100,
                1,
            ),
            motion_start_frames: at_least(cfg.motion_start_frames as int, 1),
            motion_end_frames: at_least(cfg.motion_end_frames as int, 1),
            background_initialized: false,
            background: Seq::new(len, |i: int| 0u16),
            mask: Seq::new(len, |i: int| 0u8),
            motion_frames: 0,
            empty_frames: 0,
            target: None,
        }
    }

    /// The background against which a frame is held.
    pub open spec fn background_for(self, frame: Seq<u8>) -> Seq<u16> {
        let start = if self.background_initialized {
            self.background
        } else {
            primed(self.background, frame)
        };
        next_background(start, frame, self.alpha)
    }

    /// The mask that a frame gives, after cleaning.
    pub open spec fn mask_for(self, frame: Seq<u8>) -> Seq<u8> {
        let bg = self.background_for(frame);
        opening(
            self.width,
            self.height,
            raw_mask(self.mask, bg, frame, dynamic_threshold(self.base_threshold, bg, frame)),
        )
    }

    /// The largest region that a frame shows.
    pub open spec fn found_in(self, frame: Seq<u8>) -> Option<Blob> {
        largest_blob_in(self.mask_for(frame), self.width, self.min_blob_area)
    }

    /// The detector after a frame in which `found` is the largest region, as far as
    /// it does not concern the target.
    pub open spec fn seen(self, frame: Seq<u8>, found: Option<Blob>) -> DetectorView {
        DetectorView {
            background_initialized: true,
            background: self.background_for(frame),
            mask: self.mask_for(frame),
            motion_frames: if found is Some {
                counted(self.motion_frames)
            } else {
                0
            },
            empty_frames: if found is Some {
                0
            } else {
                counted(self.empty_frames)
            },
            ..self
        }
    }

    /// The target after a region of `area` pixels was seen at `now`. The offset of a
    /// new target is zero until it is recorded.
    pub open spec fn followed(self, area: usize, now: Nanos) -> Option<Track> {
        if replaces_target(self.target, area as int, now as int) {
            Some(
                Track {
                    offset: AxisValue::zero(),
                    area,
                    locked_at: now,
                    last_seen_at: now,
                },
            )
        } else {
            Some(Track { area, last_seen_at: now, ..self.target->0 })
        }
    }

    /// The detector after a frame in which `found` is the largest region.
    pub open spec fn after(self, frame: Seq<u8>, found: Option<Blob>, now: Nanos) -> DetectorView {
        let next = self.seen(frame, found);
        DetectorView {
            target: match found {
                Some(blob) => if next.motion_frames < self.motion_start_frames {
                    self.target
                } else {
                    self.followed(blob.area, now)
                },
                None => if next.empty_frames >= self.motion_end_frames {
                    None
                } else {
                    self.target
                },
            },
            ..next
        }
    }

    /// The detector after it was reset with a frame.
    pub open spec fn restarted(self, frame: Seq<u8>) -> DetectorView {
        DetectorView {
            background_initialized: true,
            background: primed(self.background, frame),
            mask: Seq::new(self.mask.len(), |i: int| 0u8),
            motion_frames: 0,
            empty_frames: 0,
            target: None,
            ..self
        }
    }

    /// The detector after the offset of its target was recorded.
    pub open spec fn with_offset(self, offset: AxisValue) -> DetectorView {
        DetectorView {
            target: match self.target {
                Some(track) => Some(Track { offset, ..track }),
                None => None,
            },
            ..self
        }
    }

    /// What is reported of a frame in which `found` is the largest region: nothing
    /// before there has been a region in enough frames in a row.
    pub open spec fn report(self, frame: Seq<u8>, found: Option<Blob>, now: Nanos) -> Option<
        TrackUpdate,
    > {
        match found {
            Some(blob) if self.seen(frame, found).motion_frames >= self.motion_start_frames => Some(
                TrackUpdate {
                    blob,
                    blend_with: if replaces_target(self.target, blob.area as int, now as int) {
                        None
                    } else {
                        Some(self.target->0.offset)
                    },
                },
            ),
            _ => None,
        }
    }
}

/// Watches a stream of grey frames for motion.
pub struct MotionDetector {
    width: usize,
    height: usize,
    alpha_milli: u32,
    base_threshold: u8,
    min_blob_area: usize,
    motion_start_frames: u32,
    motion_end_frames: u32,
    background_initialized: bool,
    background: Vec<u16>,
    mask: Vec<u8>,
    scratch: Vec<u8>,
    visited: Vec<u8>,
    stack: Vec<usize>,
    motion_frames: u32,
    empty_frames: u32,
    target: Option<Track>,
}

impl View for MotionDetector {
    type V = DetectorView;

    closed spec fn view(&self) -> DetectorView {
        DetectorView {
            width: self.width as int,
            height: self.height as int,
            alpha: self.alpha_milli as int,
            base_threshold: self.base_threshold as int,
            min_blob_area: self.min_blob_area as int,
            motion_start_frames: self.motion_start_frames as int,
            motion_end_frames: self.motion_end_frames as int,
            background_initialized: self.background_initialized,
            background: self.background@,
            mask: self.mask@,
            motion_frames: self.motion_frames as int,
            empty_frames: self.empty_frames as int,
            target: self.target,
        }
    }
}

/// The background moves without passing the pixel, so it stays in the range of
/// scaled pixels.
proof fn lemma_blended(bg: int, pixel: u8, alpha: int)
    requires
        0 <= bg <= 0xff00,
        1 <= alpha <= 1000,
    ensures
        0 <= blended(bg, pixel, alpha) <= 0xff00,
        bg <= scaled(pixel) ==> bg <= blended(bg, pixel, alpha) <= scaled(pixel),
        scaled(pixel) <= bg ==> scaled(pixel) <= blended(bg, pixel, alpha) <= bg,
        bg <= scaled(pixel) ==> blended(bg, pixel, alpha) == bg + (scaled(pixel) - bg) * alpha
            / 1000,
        scaled(pixel) <= bg ==> blended(bg, pixel, alpha) == bg - (bg - scaled(pixel)) * alpha
            / 1000,
        0 <= distance(scaled(pixel), bg) * alpha <= 65_280_000,
{
    let gap = distance(scaled(pixel), bg);
    assert(0 <= gap * alpha <= gap * 1000) by (nonlinear_arith)
        requires
            0 <= gap,
            1 <= alpha <= 1000,
    ;
    assert((scaled(pixel) - bg) * alpha == -((bg - scaled(pixel)) * alpha)) by (nonlinear_arith);
    assert(0 <= gap * alpha / 1000 <= gap);
}

impl MotionDetector {
    /// The detector can take frames.
    pub closed spec fn wf(&self) -> bool {
        &&& self@.valid()
        &&& self.scratch@.len() == self.width * self.height
        &&& self.visited@.len() == self.width * self.height
    }

    /// A detector that can take frames holds what every detector holds.
    pub proof fn law_view_is_valid(&self)
        requires
            self.wf(),
        ensures
            self@.valid(),
    {
    }

    /// Working space of the cleaning.
    pub closed spec fn scratch_bytes(&self) -> Seq<u8> {
        self.scratch@
    }

    /// Working space of the search for regions.
    pub closed spec fn visited_bytes(&self) -> Seq<u8> {
        self.visited@
    }

    /// A detector that has seen no frame yet.
    pub fn new(cfg: &AiConfig) -> (detector: MotionDetector)
        requires
            cfg.detector_fits(),
        ensures
            detector.wf(),
            detector@ == DetectorView::fresh(*cfg),
            detector.scratch_bytes() == DetectorView::fresh(*cfg).mask,
            detector.visited_bytes() == DetectorView::fresh(*cfg).mask,
    {
        assert(0 <= cfg.detection_width * cfg.detection_height) by (nonlinear_arith)
            requires
                0 <= cfg.detection_width,
                0 <= cfg.detection_height,
        ;
        let frame_len = cfg.frame_len();
        let share: usize = frame_len * cfg.min_blob_percent as usize / 100;
        let alpha_milli: u32 = if cfg.ema_alpha_milli < 1 {
            1
        } else if cfg.ema_alpha_milli > 1000 {
            1000
        } else {
            cfg.ema_alpha_milli
        };
        let reserved: usize = frame_len / STACK_CAPACITY_DIVISOR;
        let detector = MotionDetector {
            width: cfg.detection_width,
            height: cfg.detection_height,
            alpha_milli,
            base_threshold: cfg.threshold,
            min_blob_area: if share < 1 {
                1
            } else {
                share
            },
            motion_start_frames: if cfg.motion_start_frames < 1 {
                1
            } else {
                cfg.motion_start_frames
            },
            motion_end_frames: if cfg.motion_end_frames < 1 {
                1
            } else {
                cfg.motion_end_frames
            },
            background_initialized: false,
            background: vec![0; frame_len],
            mask: vec![0; frame_len],
            scratch: vec![0; frame_len],
            visited: vec![0; frame_len],
            stack: Vec::with_capacity(
                if reserved < 1 {
                    1
                } else {
                    reserved
                },
            ),
            motion_frames: 0,
            empty_frames: 0,
            target: None,
        };
        let ghost fresh = DetectorView::fresh(*cfg);
        assert(detector@.background =~= fresh.background);
        assert(detector@.mask =~= fresh.mask);
        assert(detector.scratch_bytes() =~= fresh.mask);
        assert(detector.visited_bytes() =~= fresh.mask);
        detector
    }

    /// Number of frames in a row in which there was a region.
    pub fn motion_frames(&self) -> (frames: u32)
        ensures
            frames == self@.motion_frames,
    {
        self.motion_frames
    }

    /// Tells whether there has been no region in enough frames in a row.
    pub fn motion_ended(&self, required_empty_frames: u32) -> (ended: bool)
        ensures
            ended == (self@.empty_frames >= required_empty_frames),
    {
        self.empty_frames >= required_empty_frames
    }

    /// Takes the frame as the background.
    pub fn prime_background(&mut self, frame: &[u8])
        requires
            old(self).wf(),
        ensures
            final(self).wf(),
            final(self)@ == (DetectorView {
                background_initialized: true,
                background: primed(old(self)@.background, frame@),
                ..old(self)@
            }),
            final(self).scratch_bytes() == old(self).scratch_bytes(),
            final(self).visited_bytes() == old(self).visited_bytes(),
    {
        let ghost start = self.background@;
        let len = if self.background.len() < frame.len() {
            self.background.len()
        } else {
            frame.len()
        };
        let mut i: usize = 0;
        while i < len
            invariant
                i <= len,
                len <= frame@.len(),
                len <= start.len(),
                self.wf(),
                start == old(self)@.background,
                self@ == (DetectorView { background: self.background@, ..old(self)@ }),
                self.scratch@ == old(self).scratch@,
                self.visited@ == old(self).visited@,
                self.background@.len() == start.len(),
                forall|j: int| 0 <= j < i ==> #[trigger] self.background@[j] == scaled(frame@[j]),
                forall|j: int| i <= j < start.len() ==> #[trigger] self.background@[j] == start[j],
            decreases len - i,
        {
            self.background[i] = frame[i] as u16 * 256;
            i += 1;
        }
        self.background_initialized = true;
        assert(self.background@ =~= primed(start, frame@));
    }

    /// Forgets all motion and takes the frame as the background.
    pub fn reset_with_frame(&mut self, frame: &[u8])
        requires
            old(self).wf(),
        ensures
            final(self).wf(),
            final(self)@ == old(self)@.restarted(frame@),
            final(self).scratch_bytes() == Seq::new(old(self)@.mask.len(), |i: int| 0u8),
            final(self).visited_bytes() == Seq::new(old(self)@.mask.len(), |i: int| 0u8),
    {
        self.motion_frames = 0;
        self.empty_frames = 0;
        self.target = None;
        clear_bytes(self.mask.as_mut_slice());
        clear_bytes(self.scratch.as_mut_slice());
        clear_bytes(self.visited.as_mut_slice());
        self.prime_background(frame);
    }

    /// Moves the background towards the frame and adds up how far the pixels are
    /// from it.
    fn blend_frame(&mut self, frame: &[u8]) -> (total: u128)
        requires
            old(self).wf(),
            frame@.len() <= old(self)@.background.len(),
        ensures
            final(self).wf(),
            final(self)@ == (DetectorView {
                background: next_background(old(self)@.background, frame@, old(self)@.alpha),
                ..old(self)@
            }),
            total == unrest(final(self)@.background, frame@, frame@.len() as int),
            total <= 255 * frame@.len(),
    {
        let ghost start = self.background@;
        let ghost alpha = self@.alpha;
        let ghost goal = next_background(start, frame@, alpha);
        let len = frame.len();
        let mut total: u128 = 0;
        let mut i: usize = 0;
        while i < len
            invariant
                i <= len,
                len == frame@.len(),
                len <= start.len(),
                self.wf(),
                start == old(self)@.background,
                alpha == old(self)@.alpha,
                alpha == self.alpha_milli,
                goal == next_background(start, frame@, alpha),
                self@ == (DetectorView { background: self.background@, ..old(self)@ }),
                self.background@.len() == start.len(),
                forall|j: int| 0 <= j < start.len() ==> #[trigger] start[j] <= 0xff00,
                forall|j: int| 0 <= j < i ==> #[trigger] self.background@[j] == goal[j],
                forall|j: int| i <= j < start.len() ==> #[trigger] self.background@[j] == start[j],
                total == unrest(goal, frame@, i as int),
                total <= 255 * i,
            decreases len - i,
        {
            let pixel = frame[i];
            let current: u32 = pixel as u32 * 256;
            let bg: u32 = self.background[i] as u32;
            assert(start[i as int] <= 0xff00);
            proof {
                lemma_blended(bg as int, pixel, alpha);
            }
            let updated: u32 = if current >= bg {
                bg + (current - bg) * self.alpha_milli / 1000
            } else {
                bg - (bg - current) * self.alpha_milli / 1000
            };
            assert(updated == blended(bg as int, pixel, alpha));
            assert(goal[i as int] == updated);
            self.background[i] = updated as u16;
            let gap: u32 = if current >= updated {
                current - updated
            } else {
                updated - current
            };
            total += (gap / 256) as u128;
            i += 1;
        }
        assert(self.background@ =~= goal);
        total
    }

    /// Marks the pixels that differ from the background by at least the threshold.
    fn mark_differences(&mut self, frame: &[u8], threshold: u8)
        requires
            old(self).wf(),
            frame@.len() <= old(self)@.background.len(),
        ensures
            final(self).wf(),
            final(self)@ == (DetectorView {
                mask: raw_mask(old(self)@.mask, old(self)@.background, frame@, threshold as int),
                ..old(self)@
            }),
    {
        let ghost start = self.mask@;
        let len = frame.len();
        let mut i: usize = 0;
        while i < len
            invariant
                i <= len,
                len == frame@.len(),
                len <= start.len(),
                self.wf(),
                start == old(self)@.mask,
                self@ == (DetectorView { mask: self.mask@, ..old(self)@ }),
                self.mask@.len() == start.len(),
                forall|j: int|
                    0 <= j < i ==> #[trigger] self.mask@[j] == raw_mask(
                        start,
                        old(self)@.background,
                        frame@,
                        threshold as int,
                    )[j],
                forall|j: int| i <= j < start.len() ==> #[trigger] self.mask@[j] == start[j],
            decreases len - i,
        {
            let pixel: u16 = frame[i] as u16;
            let bg: u16 = self.background[i] / 256;
            let gap: u16 = if pixel >= bg {
                pixel - bg
            } else {
                bg - pixel
            };
            self.mask[i] = if gap >= threshold as u16 {
                1
            } else {
                0
            };
            i += 1;
        }
        assert(self.mask@ =~= raw_mask(
            start,
            old(self)@.background,
            frame@,
            threshold as int,
        ));
    }

    /// Cleans the mask by erosion and dilation.
    fn clean_mask(&mut self)
        requires
            old(self).wf(),
        ensures
            final(self).wf(),
            final(self)@ == (DetectorView {
                mask: opening(old(self)@.width, old(self)@.height, old(self)@.mask),
                ..old(self)@
            }),
    {
        assert((self.height - 1) * self.width == self.width * self.height - self.width)
            by (nonlinear_arith);
        erode(self.width, self.height, self.mask.as_slice(), self.scratch.as_mut_slice());
        dilate(self.width, self.height, self.scratch.as_slice(), self.mask.as_mut_slice());
    }

    /// The largest region of the mask.
    fn largest_blob(&mut self) -> (found: Option<Blob>)
        requires
            old(self).wf(),
        ensures
            final(self).wf(),
            final(self)@ == old(self)@,
            found == largest_blob_in(
                old(self)@.mask,
                old(self)@.width,
                old(self)@.min_blob_area,
            ),
    {
        largest_region(
            &self.mask,
            self.width,
            self.height,
            self.min_blob_area,
            &mut self.visited,
            &mut self.stack,
        )
    }

    /// Follows the region: the target stays, or a new one takes its place.
    fn update_track(&mut self, blob: Blob, now: Nanos) -> (update: TrackUpdate)
        requires
            old(self).wf(),
        ensures
            final(self).wf(),
            final(self)@ == (DetectorView {
                target: old(self)@.followed(blob.area, now),
                ..old(self)@
            }),
            update.blob == blob,
            update.blend_with == if replaces_target(
                old(self)@.target,
                blob.area as int,
                now as int,
            ) {
                None
            } else {
                Some(old(self)@.target->0.offset)
            },
    {
        let replaces = match self.target {
            Some(current) => {
                let twice: usize = if current.area > usize::MAX / 2 {
                    usize::MAX
                } else {
                    current.area * 2
                };
                now.saturating_sub(current.locked_at) >= TRACK_LOCK_DURATION || blob.area > twice
                    || now.saturating_sub(current.last_seen_at) > TRACK_LOST_TIMEOUT
            },
            None => true,
        };
        match self.target {
            Some(current) if !replaces => {
                self.target = Some(
                    Track {
                        offset: current.offset,
                        area: blob.area,
                        locked_at: current.locked_at,
                        last_seen_at: now,
                    },
                );
                TrackUpdate { blob, blend_with: Some(current.offset) }
            },
            _ => {
                self.target = Some(
                    Track {
                        offset: AxisValue::default(),
                        area: blob.area,
                        locked_at: now,
                        last_seen_at: now,
                    },
                );
                TrackUpdate { blob, blend_with: None }
            },
        }
    }

    /// Takes a frame, seen at `now`. A target is reported when there has been a
    /// region in enough frames in a row; it is given up when there has been none in
    /// enough frames in a row.
    pub fn process_frame(&mut self, frame: &[u8], now: Nanos) -> (update: Option<TrackUpdate>)
        requires
            old(self).wf(),
            0 < frame@.len() <= old(self)@.background.len(),
        ensures
            final(self).wf(),
            final(self)@ == old(self)@.after(frame@, old(self)@.found_in(frame@), now),
            update == old(self)@.report(frame@, old(self)@.found_in(frame@), now),
            is_largest_blob(
                old(self)@.found_in(frame@),
                old(self)@.mask_for(frame@),
                old(self)@.width,
                old(self)@.min_blob_area,
            ),
    {
        if !self.background_initialized {
            self.prime_background(frame);
        }
        proof {
            law_found_is_largest(old(self)@, frame@);
        }
        let total = self.blend_frame(frame);
        let len = frame.len() as u128;
        let ghost bg = old(self)@.background_for(frame@);
        assert(self@.background == bg);
        proof {
            assert(total / len <= 255) by (nonlinear_arith)
                requires
                    0 <= total <= 255 * len,
                    len > 0,
            ;
        }
        let mean: u8 = (total / len) as u8;
        let raised: u8 = if mean > 255 - DYNAMIC_THRESHOLD_ADJUSTMENT {
            255
        } else {
            mean + DYNAMIC_THRESHOLD_ADJUSTMENT
        };
        let threshold: u8 = if self.base_threshold > raised {
            self.base_threshold
        } else {
            raised
        };
        assert(threshold == dynamic_threshold(old(self)@.base_threshold, bg, frame@));
        self.mark_differences(frame, threshold);
        self.clean_mask();
        assert(self@.mask == old(self)@.mask_for(frame@));
        match self.largest_blob() {
            Some(blob) => {
                self.empty_frames = 0;
                self.motion_frames = self.motion_frames.saturating_add(1);
                if self.motion_frames < self.motion_start_frames {
                    None
                } else {
                    Some(self.update_track(blob, now))
                }
            },
            None => {
                self.motion_frames = 0;
                self.empty_frames = self.empty_frames.saturating_add(1);
                if self.empty_frames >= self.motion_end_frames {
                    self.target = None;
                }
                None
            },
        }
    }

    /// Records the offset of the target.
    pub fn record_offset(&mut self, offset: AxisValue)
        requires
            old(self).wf(),
        ensures
            final(self).wf(),
            final(self)@ == old(self)@.with_offset(offset),
    {
        if let Some(track) = self.target {
            self.target = Some(
                Track {
                    offset,
                    area: track.area,
                    locked_at: track.locked_at,
                    last_seen_at: track.last_seen_at,
                },
            );
        }
    }
}

/// The moving average never overshoots: it ends up between where it was and the
/// pixel, and at the rate of one whole it takes on the pixel.
pub proof fn law_background_approaches(bg: int, pixel: u8, alpha: int)
    requires
        0 <= bg <= 0xff00,
        1 <= alpha <= 1000,
    ensures
        distance(blended(bg, pixel, alpha), scaled(pixel)) <= distance(bg, scaled(pixel)),
        bg <= scaled(pixel) ==> bg <= blended(bg, pixel, alpha) <= scaled(pixel),
        scaled(pixel) <= bg ==> scaled(pixel) <= blended(bg, pixel, alpha) <= bg,
        blended(scaled(pixel), pixel, alpha) == scaled(pixel),
        alpha == 1000 ==> blended(bg, pixel, alpha) == scaled(pixel),
{
    lemma_blended(bg, pixel, alpha);
    lemma_blended(scaled(pixel), pixel, alpha);
    if alpha == 1000 {
        assert((scaled(pixel) - bg) * alpha == (scaled(pixel) - bg) * 1000) by (nonlinear_arith)
            requires
                alpha == 1000,
        ;
        assert((bg - scaled(pixel)) * alpha == (bg - scaled(pixel)) * 1000) by (nonlinear_arith)
            requires
                alpha == 1000,
        ;
    }
}

/// The moving average takes `alpha` thousandths of the way to the pixel, in units of a
/// 256th of a pixel, rounded towards where it was: what is missing is less than one unit.
pub proof fn law_background_moves_by_its_share(bg: int, pixel: u8, alpha: int)
    requires
        0 <= bg <= 0xff00,
        1 <= alpha <= 1000,
    ensures
        ({
            let next = blended(bg, pixel, alpha);
            &&& bg <= 256 * pixel ==> 1000 * (next - bg) <= (256 * pixel - bg) * alpha < 1000 * (
            next - bg) + 1000
            &&& bg >= 256 * pixel ==> 1000 * (bg - next) <= (bg - 256 * pixel) * alpha < 1000 * (bg
                - next) + 1000
        }),
{
    lemma_blended(bg, pixel, alpha);
    assert(scaled(pixel) == 256 * pixel);
}

/// A background that is primed shows the frame, each pixel in units of a 256th; one that
/// takes a frame moves every pixel towards the frame by the same share. Pixels that the
/// frame does not reach stay either way.
pub proof fn law_background_takes_the_frame(bg: Seq<u16>, frame: Seq<u8>, alpha: int, i: int)
    requires
        0 <= i < bg.len(),
        bg[i] <= 0xff00,
        1 <= alpha <= 1000,
    ensures
        primed(bg, frame).len() == bg.len(),
        next_background(bg, frame, alpha).len() == bg.len(),
        i < frame.len() ==> primed(bg, frame)[i] == 256 * frame[i],
        i < frame.len() ==> next_background(bg, frame, alpha)[i] == blended(
            bg[i] as int,
            frame[i],
            alpha,
        ),
        i >= frame.len() ==> primed(bg, frame)[i] == bg[i],
        i >= frame.len() ==> next_background(bg, frame, alpha)[i] == bg[i],
{
    if i < frame.len() {
        lemma_blended(bg[i] as int, frame[i], alpha);
    }
}

/// The unrest adds up pixel by pixel: each counts with the whole number of times that 256
/// goes into its distance from the background.
pub proof fn law_unrest_adds_up(bg: Seq<u16>, frame: Seq<u8>, n: int)
    requires
        0 <= n,
    ensures
        unrest(bg, frame, 0) == 0,
        ({
            let step = unrest(bg, frame, n + 1) - unrest(bg, frame, n);
            &&& 256 * frame[n] >= bg[n] ==> 256 * step <= 256 * frame[n] - bg[n] < 256 * step + 256
            &&& 256 * frame[n] <= bg[n] ==> 256 * step <= bg[n] - 256 * frame[n] < 256 * step + 256
        }),
{
}

/// The threshold is the configured one, or four more than the mean unrest of a pixel,
/// rounded down, whichever is greater, but never more than 255.
pub proof fn law_threshold_follows_the_unrest(base: int, bg: Seq<u16>, frame: Seq<u8>)
    requires
        0 <= base <= 255,
        frame.len() > 0,
    ensures
        ({
            let threshold = dynamic_threshold(base, bg, frame);
            let total = unrest(bg, frame, frame.len() as int);
            let n = frame.len() as int;
            &&& base <= threshold <= 255
            &&& threshold < 255 ==> total < (threshold - 3) * n
            &&& threshold > base ==> (threshold - 4) * n <= total
        }),
{
    law_threshold_range(base, bg, frame);
    let total = unrest(bg, frame, frame.len() as int);
    let n = frame.len() as int;
    let mean = total / n;
    vstd::arithmetic::div_mod::lemma_fundamental_div_mod(total, n);
    vstd::arithmetic::div_mod::lemma_mod_bound(total, n);
    let threshold = dynamic_threshold(base, bg, frame);
    assert(mean * n <= total < (mean + 1) * n) by (nonlinear_arith)
        requires
            total == n * mean + total % n,
            0 <= total % n < n,
    ;
    if threshold < 255 {
        assert((mean + 1) * n <= (threshold - 3) * n) by (nonlinear_arith)
            requires
                mean + 4 <= threshold,
                n > 0,
        ;
    }
    if threshold > base {
        assert((threshold - 4) * n <= mean * n) by (nonlinear_arith)
            requires
                threshold <= mean + 4,
                n > 0,
        ;
    }
}

/// The raw mask marks a pixel of the frame with one exactly if it differs from the whole
/// part of the background by the threshold or more, upwards or downwards, and with zero
/// otherwise; a byte that the frame does not reach stays.
pub proof fn law_mask_marks_differences(
    mask: Seq<u8>,
    bg: Seq<u16>,
    frame: Seq<u8>,
    threshold: int,
    i: int,
)
    requires
        0 <= i < mask.len(),
    ensures
        ({
            let marked = raw_mask(mask, bg, frame, threshold);
            let whole = bg[i] as int / 256;
            &&& marked.len() == mask.len()
            &&& i < frame.len() ==> (marked[i] == 1 <==> frame[i] >= whole + threshold || frame[i]
                <= whole - threshold || threshold <= 0)
            &&& i < frame.len() && marked[i] != 1 ==> marked[i] == 0
            &&& i >= frame.len() ==> marked[i] == mask[i]
        }),
{
}

/// What a detector takes for motion: a pixel of the cleaned mask differs from the
/// background that the frame leaves behind by the threshold of the frame or more, and so
/// do all pixels of some three-by-three block that it belongs to.
pub proof fn law_motion_is_difference(detector: DetectorView, frame: Seq<u8>, i: int)
    requires
        detector.valid(),
        frame.len() == detector.background.len(),
        0 <= i < frame.len(),
    ensures
        ({
            let bg = detector.background_for(frame);
            let threshold = dynamic_threshold(detector.base_threshold, bg, frame);
            detector.mask_for(frame)[i] == 1 <==> interior(detector.width, detector.height, i)
                && exists|centre: int|
                0 <= centre < frame.len() && interior(detector.width, detector.height, centre)
                    && #[trigger] touching(detector.width, i, centre) && forall|j: int|
                    0 <= j < frame.len() && touching(detector.width, centre, j) ==> distance(
                        (#[trigger] frame[j]) as int,
                        bg[j] as int / 256,
                    ) >= threshold
        }),
{
    let bg = detector.background_for(frame);
    let threshold = dynamic_threshold(detector.base_threshold, bg, frame);
    let raw = raw_mask(detector.mask, bg, frame, threshold);
    let (w, h) = (detector.width, detector.height);
    law_opening_keeps_full_blocks(w, h, raw, i);
    if detector.mask_for(frame)[i] == 1 {
        let centre = choose|centre: int|
            0 <= centre < w * h && touching(w, i, centre) && #[trigger] eroded(w, h, raw, centre);
        assert forall|j: int| 0 <= j < frame.len() && touching(w, centre, j) implies distance(
            (#[trigger] frame[j]) as int,
            bg[j] as int / 256,
        ) >= threshold by {
            assert(raw[j] != 0);
        }
        assert(touching(w, i, centre));
    }
    if interior(w, h, i) && exists|centre: int|
        0 <= centre < frame.len() && interior(w, h, centre) && #[trigger] touching(w, i, centre)
            && forall|j: int|
            0 <= j < frame.len() && touching(w, centre, j) ==> distance(
                (#[trigger] frame[j]) as int,
                bg[j] as int / 256,
            ) >= threshold {
        let centre = choose|centre: int|
            0 <= centre < frame.len() && interior(w, h, centre) && #[trigger] touching(
                w,
                i,
                centre,
            ) && forall|j: int|
                0 <= j < frame.len() && touching(w, centre, j) ==> distance(
                    (#[trigger] frame[j]) as int,
                    bg[j] as int / 256,
                ) >= threshold;
        assert forall|j: int| 0 <= j < w * h && touching(w, centre, j) implies #[trigger] raw[j]
            != 0 by {
            assert(distance(frame[j] as int, bg[j] as int / 256) >= threshold);
        }
        assert(eroded(w, h, raw, centre));
    }
}

/// The distance of two numbers is how much the greater exceeds the other.
pub proof fn law_distance(a: int, b: int)
    ensures
        distance(a, b) >= 0,
        distance(a, b) == distance(b, a),
        a >= b ==> b + distance(a, b) == a,
{
}

/// The first frame becomes the background before it is held against it; every later one is
/// held against the background as it is.
pub proof fn law_first_frame_is_the_background(detector: DetectorView, frame: Seq<u8>, i: int)
    requires
        detector.valid(),
        0 <= i < detector.background.len(),
    ensures
        detector.background_for(frame).len() == detector.background.len(),
        !detector.background_initialized && i < frame.len() ==> detector.background_for(frame)[i]
            == 256 * frame[i],
        detector.background_initialized && i < frame.len() ==> detector.background_for(frame)[i]
            == blended(detector.background[i] as int, frame[i], detector.alpha),
        i >= frame.len() ==> detector.background_for(frame)[i] == detector.background[i],
{
    if i < frame.len() {
        lemma_blended(scaled(frame[i]), frame[i], detector.alpha);
        lemma_blended(detector.background[i] as int, frame[i], detector.alpha);
    }
}

/// A new detector takes notice of a region exactly if it covers at least the configured
/// share of the frame, in hundredths, rounded down to whole pixels, and at least one
/// pixel. What lies outside its range is brought to the nearest end of it: the rate of the
/// moving average to one and a thousand thousandths, the frames at the start and the end
/// of motion to one; all else is taken over.
pub proof fn law_new_detector_is_configured(cfg: AiConfig, i: int)
    requires
        0 <= i < cfg.detection_width * cfg.detection_height,
    ensures
        ({
            let detector = DetectorView::fresh(cfg);
            let n = cfg.detection_width * cfg.detection_height;
            let share = n * cfg.min_blob_percent;
            &&& share >= 100 ==> share - 100 < 100 * detector.min_blob_area <= share
            &&& share < 100 ==> detector.min_blob_area == 1
            &&& detector.width == cfg.detection_width && detector.height == cfg.detection_height
            &&& detector.base_threshold == cfg.threshold
            &&& 1 <= detector.alpha <= 1000
            &&& 1 <= cfg.ema_alpha_milli <= 1000 ==> detector.alpha == cfg.ema_alpha_milli
            &&& cfg.ema_alpha_milli > 1000 ==> detector.alpha == 1000
            &&& cfg.ema_alpha_milli == 0 ==> detector.alpha == 1
            &&& cfg.motion_start_frames >= 1 ==> detector.motion_start_frames
                == cfg.motion_start_frames
            &&& cfg.motion_start_frames == 0 ==> detector.motion_start_frames == 1
            &&& cfg.motion_end_frames >= 1 ==> detector.motion_end_frames == cfg.motion_end_frames
            &&& cfg.motion_end_frames == 0 ==> detector.motion_end_frames == 1
            &&& detector.background.len() == n && detector.mask.len() == n
            &&& detector.background[i] == 0 && detector.mask[i] == 0
            &&& !detector.background_initialized
            &&& detector.motion_frames == 0 && detector.empty_frames == 0
            &&& detector.target is None
        }),
{
}

/// What was configured stays through all frames.
proof fn lemma_settings_stay(detector: DetectorView, frames: Seq<(Seq<u8>, Nanos)>)
    ensures
        ({
            let after = after_frames(detector, frames);
            &&& after.width == detector.width
            &&& after.height == detector.height
            &&& after.alpha == detector.alpha
            &&& after.base_threshold == detector.base_threshold
            &&& after.min_blob_area == detector.min_blob_area
            &&& after.motion_start_frames == detector.motion_start_frames
            &&& after.motion_end_frames == detector.motion_end_frames
            &&& after.background.len() == detector.background.len()
            &&& detector.mask.len() == detector.width * detector.height ==> after.mask.len()
                == detector.mask.len()
        }),
    decreases frames.len(),
{
    if frames.len() > 0 {
        lemma_settings_stay(detector, frames.drop_last());
    }
}

/// Whatever a detector has seen before, a target that it reports covers the configured
/// share of the frame, in hundredths and up to one pixel; and a region that covers as much
/// is found.
pub proof fn law_reported_region_is_large_enough(
    cfg: AiConfig,
    frames: Seq<(Seq<u8>, Nanos)>,
    frame: Seq<u8>,
    now: Nanos,
    seed: int,
)
    requires
        cfg.detector_fits(),
    ensures
        ({
            let detector = after_frames(DetectorView::fresh(cfg), frames);
            let found = detector.found_in(frame);
            let mask = detector.mask_for(frame);
            let share = cfg.detection_width * cfg.detection_height * cfg.min_blob_percent;
            &&& detector.report(frame, found, now) matches Some(update) ==> 100 * (update.blob.area
                + 1) > share && update.blob.area >= 1
            &&& 0 <= seed < mask.len() && mask[seed] != 0 && region_area(
                mask,
                detector.width,
                seed,
            ) >= 1 && 100 * region_area(mask, detector.width, seed) >= share ==> found is Some
        }),
{
    let fresh = DetectorView::fresh(cfg);
    let detector = after_frames(fresh, frames);
    lemma_settings_stay(fresh, frames);
    let mask = detector.mask_for(frame);
    assert(0 <= cfg.detection_width * cfg.detection_height) by (nonlinear_arith)
        requires
            0 <= cfg.detection_width,
            0 <= cfg.detection_height,
    ;
    law_largest_exists(mask, detector.width, detector.height, detector.min_blob_area);
    if 0 <= seed < mask.len() && mask[seed] != 0 {
        law_large_enough_is_found(
            mask,
            detector.width,
            detector.height,
            detector.min_blob_area,
            seed,
        );
    }
}

/// A target is reported exactly if there is a region, and there was one in enough frames
/// in a row, this one included. The report holds that region, and the offset of the target
/// that is followed, unless the region takes the target's place.
pub proof fn law_report_is_of_the_region(
    detector: DetectorView,
    frame: Seq<u8>,
    found: Option<Blob>,
    now: Nanos,
)
    requires
        0 <= detector.motion_frames < 0xffff_ffff,
    ensures
        ({
            let report = detector.report(frame, found, now);
            &&& report is Some <==> found is Some && detector.motion_frames + 1
                >= detector.motion_start_frames
            &&& report is Some ==> {
                &&& report->0.blob == found->0
                &&& report->0.blend_with is None <==> replaces_target(
                    detector.target,
                    found->0.area as int,
                    now as int,
                )
                &&& report->0.blend_with is Some ==> detector.target is Some
                    && report->0.blend_with->0 == detector.target->0.offset
            }
        }),
{
}

/// After a frame the background and the mask are those of the frame; a region makes the
/// count of frames with motion go up by one and ends the count of empty frames, and no
/// region does the opposite. The greatest count is kept.
pub proof fn law_frame_is_counted(
    detector: DetectorView,
    frame: Seq<u8>,
    found: Option<Blob>,
    now: Nanos,
)
    ensures
        ({
            let after = detector.after(frame, found, now);
            &&& after.background_initialized
            &&& after.background == detector.background_for(frame)
            &&& after.mask == detector.mask_for(frame)
            &&& found is Some ==> after.empty_frames == 0 && (detector.motion_frames < 0xffff_ffff
                ==> after.motion_frames == detector.motion_frames + 1)
            &&& found is None ==> after.motion_frames == 0 && (detector.empty_frames < 0xffff_ffff
                ==> after.empty_frames == detector.empty_frames + 1)
            &&& found is Some && detector.motion_frames == 0xffff_ffff ==> after.motion_frames
                == 0xffff_ffff
            &&& found is None && detector.empty_frames == 0xffff_ffff ==> after.empty_frames
                == 0xffff_ffff
        }),
{
}

/// A region that is reported becomes the target: it is seen now and has the region's area.
/// If it takes the place of another target, or there was none, it is locked from now on;
/// otherwise the lock and the offset stay. A region that is not reported changes nothing
/// about the target.
pub proof fn law_target_follows_the_region(
    detector: DetectorView,
    frame: Seq<u8>,
    blob: Blob,
    now: Nanos,
)
    ensures
        ({
            let after = detector.after(frame, Some(blob), now);
            let reported = detector.report(frame, Some(blob), now) is Some;
            let replaced = replaces_target(detector.target, blob.area as int, now as int);
            &&& !reported ==> after.target == detector.target
            &&& reported ==> {
                &&& after.target is Some
                &&& after.target->0.area == blob.area
                &&& after.target->0.last_seen_at == now
                &&& replaced ==> after.target->0.locked_at == now
                &&& !replaced ==> detector.target is Some && after.target->0.locked_at
                    == detector.target->0.locked_at && after.target->0.offset
                    == detector.target->0.offset
            }
            &&& detector.target is None ==> replaced
        }),
{
}

/// A reset leaves nothing but what was configured: the frame is the background, the mask
/// is blank, nothing is counted and there is no target.
pub proof fn law_reset_leaves_the_frame(detector: DetectorView, frame: Seq<u8>, i: int)
    requires
        detector.valid(),
        0 <= i < detector.background.len(),
    ensures
        ({
            let after = detector.restarted(frame);
            &&& after.valid()
            &&& after.background_initialized
            &&& i < frame.len() ==> after.background[i] == 256 * frame[i]
            &&& i >= frame.len() ==> after.background[i] == detector.background[i]
            &&& after.mask[i] == 0
            &&& after.motion_frames == 0 && after.empty_frames == 0 && after.target is None
            &&& after.width == detector.width && after.height == detector.height
            &&& after.alpha == detector.alpha && after.base_threshold == detector.base_threshold
            &&& after.min_blob_area == detector.min_blob_area
            &&& after.motion_start_frames == detector.motion_start_frames
            &&& after.motion_end_frames == detector.motion_end_frames
        }),
{
}

/// The offset that is recorded is the one that later offsets are blended with; nothing else
/// about the target changes, and without a target nothing does.
pub proof fn law_offset_is_recorded(detector: DetectorView, offset: AxisValue)
    ensures
        ({
            let after = detector.with_offset(offset);
            &&& detector.target is None ==> after == detector
            &&& detector.target is Some ==> {
                &&& after.target is Some && after.target->0.offset == offset
                &&& after.with_offset(detector.target->0.offset) == detector
            }
        }),
{
}

/// The region that a detector finds in a frame is the largest one of the cleaned
/// mask, among those that are large enough.
pub proof fn law_found_is_largest(detector: DetectorView, frame: Seq<u8>)
    requires
        detector.valid(),
    ensures
        is_largest_blob(
            detector.found_in(frame),
            detector.mask_for(frame),
            detector.width,
            detector.min_blob_area,
        ),
{
    law_largest_exists(
        detector.mask_for(frame),
        detector.width,
        detector.height,
        detector.min_blob_area,
    );
}

proof fn lemma_unrest_range(bg: Seq<u16>, frame: Seq<u8>, n: int)
    requires
        0 <= n,
    ensures
        0 <= unrest(bg, frame, n) <= 255 * n,
    decreases n,
{
    if n > 0 {
        lemma_unrest_range(bg, frame, n - 1);
    }
}

/// The threshold is never below the configured one, nor below four, and never
/// more than a pixel can hold.
pub proof fn law_threshold_range(base: int, bg: Seq<u16>, frame: Seq<u8>)
    requires
        0 <= base <= 255,
        frame.len() > 0,
    ensures
        base <= dynamic_threshold(base, bg, frame) <= 255,
        DYNAMIC_THRESHOLD_ADJUSTMENT <= dynamic_threshold(base, bg, frame),
{
    lemma_unrest_range(bg, frame, frame.len() as int);
    let total = unrest(bg, frame, frame.len() as int);
    let len = frame.len() as int;
    assert(0 <= total / len) by (nonlinear_arith)
        requires
            0 <= total,
            0 < len,
    ;
}

/// The frame that a detector was reset with, or the first one it ever sees, shows
/// it no motion.
pub proof fn law_own_background_is_still(detector: DetectorView, frame: Seq<u8>)
    requires
        detector.valid(),
        0 < frame.len() <= detector.background.len(),
        forall|i: int| 0 <= i < detector.mask.len() ==> #[trigger] detector.mask[i] == 0,
        detector.background_initialized ==> forall|i: int|
            0 <= i < frame.len() ==> #[trigger] detector.background[i] == scaled(frame[i]),
    ensures
        detector.found_in(frame) is None,
        forall|now: Nanos| #[trigger]
            detector.report(frame, detector.found_in(frame), now) is None,
{
    let bg = detector.background_for(frame);
    assert forall|i: int| 0 <= i < frame.len() implies #[trigger] bg[i] == scaled(frame[i]) by {
        lemma_blended(scaled(frame[i]), frame[i], detector.alpha);
    }
    let threshold = dynamic_threshold(detector.base_threshold, bg, frame);
    law_threshold_range(detector.base_threshold, bg, frame);
    let raw = raw_mask(detector.mask, bg, frame, threshold);
    assert forall|i: int| 0 <= i < raw.len() implies #[trigger] raw[i] == 0 by {
        if i < frame.len() {
            assert(bg[i] == scaled(frame[i]));
        } else {
            assert(detector.mask[i] == 0);
        }
    }
    let cleaned = detector.mask_for(frame);
    assert forall|i: int| 0 <= i < cleaned.len() implies #[trigger] cleaned[i] == 0 by {
        if cleaned[i] == 1 {
            crate::morphology::law_opening_removes(detector.width, detector.height, raw, i);
            assert(raw[i] == 0);
        }
    }
    crate::region::law_blank_mask_has_no_blob(cleaned, detector.width, detector.min_blob_area);
}

/// The detector after some frames, each with the moment at which it was seen.
pub open spec fn after_frames(detector: DetectorView, frames: Seq<(Seq<u8>, Nanos)>) -> DetectorView
    decreases frames.len(),
{
    if frames.len() == 0 {
        detector
    } else {
        let before = after_frames(detector, frames.drop_last());
        let (frame, now) = frames.last();
        before.after(frame, before.found_in(frame), now)
    }
}

/// There was a region in the frame at index `i`.
pub open spec fn shows_region(
    detector: DetectorView,
    frames: Seq<(Seq<u8>, Nanos)>,
    i: int,
) -> bool {
    after_frames(detector, frames.take(i)).found_in(frames[i].0) is Some
}

/// The count of frames with motion is that of the last frames, without a gap, in
/// which there was a region.
proof fn lemma_motion_frames_in_a_row(detector: DetectorView, frames: Seq<(Seq<u8>, Nanos)>)
    requires
        detector.motion_frames == 0,
    ensures
        ({
            let after = after_frames(detector, frames);
            &&& after.motion_start_frames == detector.motion_start_frames
            &&& 0 <= after.motion_frames <= frames.len()
            &&& forall|i: int|
                frames.len() - after.motion_frames <= i < frames.len() ==> #[trigger]
                shows_region(detector, frames, i)
        }),
    decreases frames.len(),
{
    if frames.len() > 0 {
        let shorter = frames.drop_last();
        lemma_motion_frames_in_a_row(detector, shorter);
        let after = after_frames(detector, frames);
        assert(frames.take(frames.len() - 1) =~= shorter);
        assert forall|i: int|
            frames.len() - after.motion_frames <= i < frames.len() implies #[trigger] shows_region(
            detector,
            frames,
            i,
        ) by {
            if i < frames.len() - 1 {
                assert(shows_region(detector, shorter, i));
                assert(shorter.take(i) =~= frames.take(i));
            }
        }
    }
}

/// A target is reported only when there was a region in each of as many frames in
/// a row as the detector was told to wait for, the reported one included.
pub proof fn law_target_needs_frames_in_a_row(
    detector: DetectorView,
    frames: Seq<(Seq<u8>, Nanos)>,
)
    requires
        detector.motion_frames == 0,
        frames.len() > 0,
        ({
            let before = after_frames(detector, frames.drop_last());
            let (frame, now) = frames.last();
            before.report(frame, before.found_in(frame), now) is Some
        }),
    ensures
        detector.motion_start_frames <= frames.len(),
        forall|i: int|
            frames.len() - detector.motion_start_frames <= i < frames.len() ==> #[trigger]
            shows_region(detector, frames, i),
{
    lemma_motion_frames_in_a_row(detector, frames.drop_last());
    lemma_motion_frames_in_a_row(detector, frames);
}

/// A target is forgotten after as many frames without a region as the detector was
/// told to wait for, and not before; a frame without a region starts the count of
/// frames with motion anew.
pub proof fn law_target_is_forgotten(detector: DetectorView, frame: Seq<u8>, now: Nanos)
    requires
        detector.found_in(frame) is None,
    ensures
        ({
            let after = detector.after(frame, detector.found_in(frame), now);
            &&& after.motion_frames == 0
            &&& counted(detector.empty_frames) >= detector.motion_end_frames ==> after.target
                is None
            &&& counted(detector.empty_frames) < detector.motion_end_frames ==> after.target
                == detector.target
        }),
{
}

/// Within the lock time a target that is seen again at least every second keeps
/// its place against every region up to twice its size, and the new offset is
/// blended with the old one; any larger region replaces it.
pub proof fn law_target_lock(track: Track, area: usize, now: Nanos)
    requires
        track.locked_at <= now,
        track.last_seen_at <= now,
        2 * track.area <= usize::MAX,
    ensures
        replaces_target(Some(track), area as int, now as int) <==> (now - track.locked_at
            >= 1_500_000_000 || now - track.last_seen_at > 1_000_000_000 || area > 2 * track.area),
{
}

} // verus!
