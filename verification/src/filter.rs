//! The decisions that the render path takes once per video frame.
//!
//! The render path never waits for inference. Each frame it takes in the masks
//! that have arrived, records the frame, picks the frame that matches the
//! current mask in time, and decides whether a new mask may be asked for. The
//! caller does the drawing and the sending; what is decided stands here.

use vstd::prelude::*;
use crate::frame_history::{
    delay_applies,
    effective_delay,
    has_timestamp,
    is_nearest_slot,
    lemma_delayed_frame_is_not_current,
    slot_handles,
    time_distance,
    FrameHistory,
    FrameHistoryEntry,
    MAX_SYNC_DELAY_NS,
    MIN_SYNC_DELAY_NS,
};
use crate::timing::{
    ema_after,
    observe_round_trip,
    round_trip,
    MAX_MEASURED_LATENCY_NS,
    NANOS_PER_SEC,
};
use crate::worker::SegOutput;

verus! {

/// Side length, in pixels, of the square frame that inference runs on.
pub const SEG_SIZE: u32 = 256;

/// What to do with the mask texture when a mask has been delivered.
#[derive(Clone, Copy, Debug, PartialEq, Eq, Structural)]
pub struct MaskUpdate {
    /// The texture is missing or has other dimensions: make a new one.
    pub recreate: bool,
    /// The mask has one byte for each pixel and may be uploaded.
    pub upload: bool,
}

/// What a change of settings means for the worker.
#[derive(Clone, Copy, Debug, PartialEq, Eq, Structural)]
pub enum SegmentationChange {
    /// Segmentation is needed and no worker runs: start one.
    Start,
    /// Segmentation was needed and no longer is: stop the worker and forget
    /// what was learnt about its timing.
    Stop,
    /// Nothing changes.
    Keep,
}

/// The state that the render path carries from frame to frame.
pub struct Orchestrator<H> {
    /// Estimated time from capture to delivery of a mask; zero until the
    /// first mask has arrived.
    pub mask_latency_ema_ns: u64,
    /// When a mask was last asked for.
    pub last_mask_request: Option<u64>,
    /// The last few frames, for delay compensation.
    pub frame_history: FrameHistory<H>,
}

/// What a delivered mask of `width` by `height` pixels, holding `mask_len`
/// bytes, asks of a mask texture whose present dimensions are `current`
/// (`None`: there is no texture). A mask without area asks for nothing.
pub open spec fn mask_update_for(
    current: Option<(u32, u32)>,
    width: u32,
    height: u32,
    mask_len: int,
) -> Option<MaskUpdate> {
    if width == 0 || height == 0 {
        None
    } else {
        Some(
            MaskUpdate {
                recreate: current != Some((width, height)),
                upload: mask_len == width * height,
            },
        )
    }
}

/// The delay to compensate: the estimated latency plus the configured extra
/// delay, capped at [`MAX_SYNC_DELAY_NS`].
pub open spec fn desired_delay(latency_ns: int, extra_delay_ns: int) -> int {
    effective_delay(latency_ns + extra_delay_ns)
}

/// The shortest time between two requests at `mask_fps` requests a second. A
/// rate of zero counts as one.
pub open spec fn request_interval(mask_fps: int) -> int {
    if mask_fps <= 1 {
        NANOS_PER_SEC as int
    } else {
        NANOS_PER_SEC as int / mask_fps
    }
}

/// Whether a request may go out at `now_ns`: none went out before, or the
/// last one is at least [`request_interval`] old. A last request that lies in
/// the future counts as just made.
pub open spec fn request_is_due(last_request: Option<u64>, now_ns: int, mask_fps: int) -> bool {
    match last_request {
        None => true,
        Some(t) => {
            let elapsed = if now_ns >= t {
                now_ns - t
            } else {
                0
            };
            elapsed >= request_interval(mask_fps)
        },
    }
}

/// What a change of settings means for the worker, given whether segmentation
/// was needed before, is needed now, and whether a worker runs.
pub open spec fn settings_change(old_needs: bool, new_needs: bool, running: bool)
    -> SegmentationChange {
    if new_needs && !running {
        SegmentationChange::Start
    } else if old_needs && !new_needs {
        SegmentationChange::Stop
    } else {
        SegmentationChange::Keep
    }
}

/// Whether `rows` rows of `row_bytes` bytes each, `linesize` bytes apart, all
/// lie within `data_len` bytes without running into each other.
pub open spec fn rows_fit(data_len: int, linesize: int, row_bytes: int, rows: int) -> bool {
    rows == 0 || (row_bytes <= linesize && (rows - 1) * linesize + row_bytes <= data_len)
}

/// Takes the rows of a frame out of a buffer in which they lie `linesize`
/// bytes apart, and puts them one right after the other. `None` where the
/// buffer does not hold that many rows.
pub fn gather_rows(data: &[u8], linesize: usize, row_bytes: usize, rows: usize) -> (packed: Option<
    Vec<u8>,
>)
    ensures
        packed is Some <==> rows_fit(
            data@.len() as int,
            linesize as int,
            row_bytes as int,
            rows as int,
        ),
        packed matches Some(bytes) ==> {
            &&& bytes@.len() == rows * row_bytes
            &&& forall|y: int, x: int|
                0 <= y < rows && 0 <= x < row_bytes ==> #[trigger] bytes@[y * row_bytes + x]
                    == data@[y * linesize + x]
        },
{
    let mut packed: Vec<u8> = Vec::new();
    if rows == 0 {
        assert(rows * row_bytes == 0) by (nonlinear_arith)
            requires
                rows == 0,
        ;
        return Some(packed);
    }
    if row_bytes > linesize {
        return None;
    }
    assert((rows - 1) * linesize <= 0xFFFF_FFFF_FFFF_FFFF * 0xFFFF_FFFF_FFFF_FFFF)
        by (nonlinear_arith)
        requires
            0 <= rows - 1 <= 0xFFFF_FFFF_FFFF_FFFF,
            0 <= linesize <= 0xFFFF_FFFF_FFFF_FFFF,
    ;
    let needed: u128 = ((rows - 1) as u128) * (linesize as u128) + (row_bytes as u128);
    if needed > data.len() as u128 {
        return None;
    }
    let mut y: usize = 0;
    let mut base: usize = 0;
    while y < rows
        invariant
            0 < rows,
            y <= rows,
            row_bytes <= linesize,
            (rows - 1) * linesize + row_bytes <= data@.len() <= usize::MAX,
            y < rows ==> base == y * linesize,
            packed@.len() == y * row_bytes,
            forall|r: int, x: int|
                0 <= r < y && 0 <= x < row_bytes ==> #[trigger] packed@[r * row_bytes + x]
                    == data@[r * linesize + x],
        decreases rows - y,
    {
        proof {
            lemma_row_bounds(y as int, rows as int, linesize as int);
        }
        let mut x: usize = 0;
        while x < row_bytes
            invariant
                y < rows,
                x <= row_bytes <= linesize,
                base == y * linesize,
                base + row_bytes <= data@.len() <= usize::MAX,
                packed@.len() == y * row_bytes + x,
                forall|r: int, c: int|
                    0 <= r < y && 0 <= c < row_bytes ==> #[trigger] packed@[r * row_bytes + c]
                        == data@[r * linesize + c],
                forall|c: int|
                    0 <= c < x ==> #[trigger] packed@[y * row_bytes + c] == data@[y * linesize
                        + c],
            decreases row_bytes - x,
        {
            proof {
                lemma_rows_apart(y as int, row_bytes as int);
            }
            packed.push(data[base + x]);
            x = x + 1;
        }
        proof {
            lemma_rows_apart(y as int, row_bytes as int);
            assert forall|r: int, c: int|
                0 <= r < y + 1 && 0 <= c < row_bytes implies #[trigger] packed@[r * row_bytes
                + c] == data@[r * linesize + c] by {
                if r == y {
                    assert(packed@[y * row_bytes + c] == data@[y * linesize + c]);
                }
            }
        }
        y = y + 1;
        if y < rows {
            proof {
                lemma_row_bounds(y as int, rows as int, linesize as int);
            }
            base = base + linesize;
        }
    }
    Some(packed)
}

/// Row `y` of `rows` starts `linesize` after the row before it, and no later
/// than the last row.
proof fn lemma_row_bounds(y: int, rows: int, linesize: int)
    requires
        0 <= y < rows,
        0 <= linesize,
    ensures
        0 <= y * linesize <= (rows - 1) * linesize,
        y > 0 ==> y * linesize == (y - 1) * linesize + linesize,
{
    assert(0 <= y * linesize <= (rows - 1) * linesize) by (nonlinear_arith)
        requires
            0 <= y <= rows - 1,
            0 <= linesize,
    ;
    assert(y * linesize == (y - 1) * linesize + linesize) by (nonlinear_arith);
}

/// Gathered rows follow each other without gap or overlap.
proof fn lemma_rows_apart(y: int, row_bytes: int)
    requires
        0 <= y,
        0 <= row_bytes,
    ensures
        (y + 1) * row_bytes == y * row_bytes + row_bytes,
        forall|r: int| 0 <= r < y ==> #[trigger] (r * row_bytes) + row_bytes <= y * row_bytes,
{
    assert((y + 1) * row_bytes == y * row_bytes + row_bytes) by (nonlinear_arith);
    assert forall|r: int| 0 <= r < y implies #[trigger] (r * row_bytes) + row_bytes <= y
        * row_bytes by {
        assert((r + 1) * row_bytes == r * row_bytes + row_bytes) by (nonlinear_arith);
        assert((r + 1) * row_bytes <= y * row_bytes) by (nonlinear_arith)
            requires
                r + 1 <= y,
                0 <= row_bytes,
        ;
    }
}

/// See [`mask_update_for`].
pub fn plan_mask_update(current: Option<(u32, u32)>, width: u32, height: u32, mask_len: usize) -> (plan:
    Option<MaskUpdate>)
    ensures
        plan == mask_update_for(current, width, height, mask_len as int),
{
    if width == 0 || height == 0 {
        return None;
    }
    let same: bool = match current {
        Some((w, h)) => w == width && h == height,
        None => false,
    };
    assert(width * height <= 0xFFFF_FFFF * 0xFFFF_FFFF) by (nonlinear_arith)
        requires
            0 <= width <= 0xFFFF_FFFF,
            0 <= height <= 0xFFFF_FFFF,
    ;
    let area: u64 = (width as u64) * (height as u64);
    Some(MaskUpdate { recreate: !same, upload: mask_len as u64 == area })
}

/// See [`request_interval`].
pub fn request_interval_ns(mask_fps: u32) -> (interval: u64)
    ensures
        interval == request_interval(mask_fps as int),
        interval <= NANOS_PER_SEC,
{
    if mask_fps <= 1 {
        NANOS_PER_SEC
    } else {
        NANOS_PER_SEC / (mask_fps as u64)
    }
}

/// See [`settings_change`].
pub fn plan_settings_change(old_needs: bool, new_needs: bool, running: bool) -> (change:
    SegmentationChange)
    ensures
        change == settings_change(old_needs, new_needs, running),
{
    if new_needs && !running {
        SegmentationChange::Start
    } else if old_needs && !new_needs {
        SegmentationChange::Stop
    } else {
        SegmentationChange::Keep
    }
}

impl<H> Orchestrator<H> {
    /// The state of a filter that has seen no frame and no mask.
    pub fn new() -> (state: Self)
        ensures
            state.mask_latency_ema_ns == 0,
            state.last_mask_request is None,
            state.frame_history.slots() == Seq::<FrameHistoryEntry<H>>::empty(),
            state.frame_history.cursor() == 0,
    {
        Orchestrator {
            mask_latency_ema_ns: 0,
            last_mask_request: None,
            frame_history: FrameHistory::new(),
        }
    }

    /// Takes in a mask that was delivered at `now_ns`. Says what to do with
    /// the mask texture, whose present dimensions are `current_mask`, and
    /// feeds the mask's round trip into the latency estimate. A mask without
    /// area is ignored altogether.
    pub fn apply_segmentation_output(
        &mut self,
        now_ns: u64,
        out: &SegOutput,
        current_mask: Option<(u32, u32)>,
    ) -> (plan: Option<MaskUpdate>)
        ensures
            plan == mask_update_for(current_mask, out.width, out.height, out.mask@.len() as int),
            plan is Some ==> final(self).mask_latency_ema_ns == ema_after(
                old(self).mask_latency_ema_ns as int,
                round_trip(now_ns as int, out.capture_time as int),
            ),
            plan is None ==> final(self).mask_latency_ema_ns == old(self).mask_latency_ema_ns,
            final(self).last_mask_request == old(self).last_mask_request,
            final(self).frame_history == old(self).frame_history,
    {
        let plan = plan_mask_update(current_mask, out.width, out.height, out.mask.len());
        if plan.is_some() {
            observe_round_trip(&mut self.mask_latency_ema_ns, now_ns, out.capture_time);
        }
        plan
    }

    /// The delay to compensate at present, given the configured extra delay.
    pub fn desired_delay_ns(&self, extra_delay_ns: u64) -> (delay: u64)
        ensures
            delay == desired_delay(self.mask_latency_ema_ns as int, extra_delay_ns as int),
            delay <= MAX_SYNC_DELAY_NS,
    {
        let total: u64 = self.mask_latency_ema_ns.saturating_add(extra_delay_ns);
        if total > MAX_SYNC_DELAY_NS {
            MAX_SYNC_DELAY_NS
        } else {
            total
        }
    }

    /// Whether a new mask may be asked for at `now_ns`, at no more than
    /// `mask_fps` requests a second.
    pub fn request_due(&self, now_ns: u64, mask_fps: u32) -> (due: bool)
        ensures
            due == request_is_due(self.last_mask_request, now_ns as int, mask_fps as int),
    {
        match self.last_mask_request {
            None => true,
            Some(t) => {
                let elapsed: u64 = now_ns.saturating_sub(t);
                elapsed >= request_interval_ns(mask_fps)
            },
        }
    }

    /// Notes that a request went out at `now_ns`.
    pub fn note_request(&mut self, now_ns: u64)
        ensures
            final(self).last_mask_request == Some(now_ns),
            final(self).mask_latency_ema_ns == old(self).mask_latency_ema_ns,
            final(self).frame_history == old(self).frame_history,
    {
        self.last_mask_request = Some(now_ns);
    }
}

impl<H: Copy> Orchestrator<H> {
    /// The snapshot to composite at `now_ns`: the frame captured closest to
    /// the present delay ago, or `current` where no delay is compensated.
    pub fn select_frame(&self, current: H, now_ns: u64, extra_delay_ns: u64) -> (tex: H)
        ensures
            ({
                let delay = desired_delay(self.mask_latency_ema_ns as int, extra_delay_ns as int);
                let compensated = delay_applies(delay) && has_timestamp(
                    self.frame_history.slots(),
                );
                &&& compensated ==> exists|i: int|
                    #[trigger] is_nearest_slot(self.frame_history.slots(), now_ns - delay, i)
                        && tex == self.frame_history.slots()[i].tex
                &&& !compensated ==> tex == current
            }),
    {
        let delay: u64 = self.desired_delay_ns(extra_delay_ns);
        self.frame_history.select_delayed_texture(current, now_ns, delay)
    }

    /// Forgets what was learnt while segmentation ran: the latency estimate,
    /// the time of the last request, and the frame history, whose snapshot
    /// handles come back for the caller to release.
    pub fn reset_segmentation(&mut self) -> (released: Vec<H>)
        ensures
            released@ == slot_handles(old(self).frame_history.slots()),
            final(self).mask_latency_ema_ns == 0,
            final(self).last_mask_request is None,
            final(self).frame_history.slots() == Seq::<FrameHistoryEntry<H>>::empty(),
            final(self).frame_history.cursor() == 0,
    {
        self.mask_latency_ema_ns = 0;
        self.last_mask_request = None;
        self.frame_history.destroy()
    }
}

/// The first mask that arrives sets the latency estimate to its own round
/// trip, which is then no longer zero. From then on a delay is compensated
/// exactly if estimate and extra delay together exceed
/// [`MIN_SYNC_DELAY_NS`], at whatever time the clock stands.
pub proof fn lemma_first_mask_starts_compensation(
    capture_ns: int,
    delivered_ns: int,
    extra_delay_ns: int,
)
    requires
        0 < delivered_ns - capture_ns <= MAX_MEASURED_LATENCY_NS,
        0 <= extra_delay_ns,
    ensures
        ema_after(0, round_trip(delivered_ns, capture_ns)) == delivered_ns - capture_ns,
        ema_after(0, round_trip(delivered_ns, capture_ns)) > 0,
        delay_applies(
            desired_delay(ema_after(0, round_trip(delivered_ns, capture_ns)), extra_delay_ns),
        ) <==> delivered_ns - capture_ns + extra_delay_ns > MIN_SYNC_DELAY_NS,
{
}

/// Once the first mask has arrived and the delay it gives is worth
/// compensating, the frame to composite is no longer the one that was
/// captured just now, provided the history holds a frame that lies closer to
/// the delayed time than now does: whichever slot is chosen, its frame is
/// older than now.
pub proof fn lemma_compensated_frame_is_older<H>(
    capture_ns: int,
    delivered_ns: int,
    extra_delay_ns: int,
    now_ns: int,
    slots: Seq<FrameHistoryEntry<H>>,
    older: int,
    chosen: int,
)
    requires
        0 < delivered_ns - capture_ns <= MAX_MEASURED_LATENCY_NS,
        0 <= extra_delay_ns,
        delivered_ns - capture_ns + extra_delay_ns > MIN_SYNC_DELAY_NS,
        0 <= older < slots.len(),
        slots[older].time is Some,
        time_distance(
            slots[older].time.unwrap() as int,
            now_ns - desired_delay(delivered_ns - capture_ns, extra_delay_ns),
        ) < desired_delay(delivered_ns - capture_ns, extra_delay_ns),
        is_nearest_slot(
            slots,
            now_ns - desired_delay(delivered_ns - capture_ns, extra_delay_ns),
            chosen,
        ),
    ensures
        delay_applies(
            desired_delay(ema_after(0, round_trip(delivered_ns, capture_ns)), extra_delay_ns),
        ),
        slots[chosen].time is Some,
        slots[chosen].time.unwrap() < now_ns,
{
    let delay = desired_delay(delivered_ns - capture_ns, extra_delay_ns);
    lemma_delayed_frame_is_not_current(slots, now_ns, delay, older, chosen);
}

/// Two requests are never closer than the interval of the configured rate:
/// right after a request none is due, and none becomes due before the
/// interval has passed. (A rate above one request a nanosecond has no
/// interval to respect.)
pub proof fn lemma_requests_respect_rate(requested_ns: u64, now_ns: int, mask_fps: int)
    requires
        mask_fps <= NANOS_PER_SEC,
        now_ns < requested_ns + request_interval(mask_fps),
    ensures
        !request_is_due(Some(requested_ns), now_ns, mask_fps),
{
    if mask_fps > 1 {
        assert(NANOS_PER_SEC as int / mask_fps > 0) by (nonlinear_arith)
            requires
                1 < mask_fps <= NANOS_PER_SEC,
        ;
    }
}

} // verus!
