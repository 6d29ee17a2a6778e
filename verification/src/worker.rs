//! The decisions of the inference worker.
//!
//! The worker takes one frame at a time from the mailbox, turns it into a
//! tensor, runs the model, and sends the mask back. The model call and the
//! waiting belong to the caller. What is decided around them stands here:
//! whether a frame is well formed, how its bytes are laid out in the tensor,
//! which layout to try, which output of the model to take, and when a failure
//! is worth a line in the log.

use vstd::prelude::*;

verus! {

/// While inference keeps failing, one report is made per this much time (two
/// seconds).
pub const FAILURE_LOG_QUIET_NS: u64 = 2_000_000_000;

/// A frame on its way to the worker. `C` is the kind of number that the
/// smoothing coefficient is given as.
pub struct SegInput<C> {
    /// Four bytes for each pixel, row by row: red, green, blue, alpha.
    pub rgba: Vec<u8>,
    pub width: u32,
    pub height: u32,
    /// How much of the previous mask goes into the next one.
    pub temporal_smoothing: C,
    /// When the frame was captured.
    pub capture_time: u64,
}

/// A finished mask on its way back to the render path.
#[derive(Debug, PartialEq, Eq)]
pub struct SegOutput {
    /// One byte for each pixel, row by row.
    pub mask: Vec<u8>,
    pub width: u32,
    pub height: u32,
    /// When the frame behind the mask was captured; copied from the input.
    pub capture_time: u64,
}

/// Where the colour channels stand in the model's input tensor.
#[derive(Clone, Copy, Debug, PartialEq, Eq, Structural)]
pub enum TensorLayout {
    /// `[1, height, width, 3]`: the three channels of a pixel side by side.
    ChannelLast,
    /// `[1, 3, height, width]`: one plane for each channel.
    ChannelFirst,
}

/// What follows an attempt to run the model.
#[derive(Clone, Copy, Debug, PartialEq, Eq, Structural)]
pub enum AttemptOutcome {
    /// The model gave a usable output: go on with it.
    Accepted,
    /// The model did not take this layout: try again with the given one.
    Retry(TensorLayout),
    /// The frame is given up. `log` says whether to report it.
    Failed { log: bool },
}

/// What the worker carries from frame to frame.
#[derive(Clone, Copy, Debug, PartialEq, Eq, Structural)]
pub struct WorkerState {
    /// The layout that the model is known to take, once one has worked.
    pub input_layout: Option<TensorLayout>,
    /// When a failure was last reported.
    pub last_failure_log: Option<u64>,
}

/// The number of pixels of a frame of `width` by `height` that comes as
/// `rgba_len` bytes, four for each pixel; `None` for a frame without area or
/// with any other number of bytes.
pub open spec fn input_pixels(rgba_len: int, width: int, height: int) -> Option<int> {
    if width > 0 && height > 0 && rgba_len == width * height * 4 {
        Some(width * height)
    } else {
        None
    }
}

/// The shape of the input tensor for a frame of `width` by `height`.
pub open spec fn tensor_shape_of(layout: TensorLayout, width: u32, height: u32) -> Seq<i64> {
    match layout {
        TensorLayout::ChannelLast => seq![1i64, height as i64, width as i64, 3i64],
        TensorLayout::ChannelFirst => seq![1i64, 3i64, height as i64, width as i64],
    }
}

/// The place in the tensor of channel `channel` of pixel `pixel`, in a frame
/// of `pixels` pixels.
pub open spec fn tensor_index(layout: TensorLayout, pixels: int, pixel: int, channel: int) -> int {
    match layout {
        TensorLayout::ChannelLast => 3 * pixel + channel,
        TensorLayout::ChannelFirst => channel * pixels + pixel,
    }
}

/// Whether an output of `len` values can hold a mask of `expected` pixels:
/// one value a pixel, two values a pixel, or anything at least as long.
pub open spec fn output_acceptable(len: int, expected: int) -> bool {
    len == expected || len == 2 * expected || len >= expected
}

/// Whether a failure at `now_ns` is reported: none was reported before, or
/// the last report is at least [`FAILURE_LOG_QUIET_NS`] old.
pub open spec fn failure_log_due(last: Option<u64>, now_ns: int) -> bool {
    match last {
        None => true,
        Some(t) => now_ns - t >= FAILURE_LOG_QUIET_NS,
    }
}

/// The layout that the first attempt on a frame uses: the one that has
/// worked before, or channel-last while none has.
pub open spec fn first_layout_of(state: WorkerState) -> TensorLayout {
    match state.input_layout {
        Some(layout) => layout,
        None => TensorLayout::ChannelLast,
    }
}

/// Whether a rejected attempt with `tried` is followed by one with the other
/// layout: only while no layout has worked yet, and only after channel-last.
pub open spec fn probes_further(state: WorkerState, tried: TensorLayout) -> bool {
    state.input_layout is None && tried == TensorLayout::ChannelLast
}

/// What follows an attempt with layout `tried` that ended at `now_ns`, and
/// was accepted or not.
pub open spec fn outcome_of(state: WorkerState, tried: TensorLayout, accepted: bool, now_ns: int)
    -> AttemptOutcome {
    if accepted {
        AttemptOutcome::Accepted
    } else if probes_further(state, tried) {
        AttemptOutcome::Retry(TensorLayout::ChannelFirst)
    } else {
        AttemptOutcome::Failed { log: failure_log_due(state.last_failure_log, now_ns) }
    }
}

/// The worker's state after that attempt. The first layout that is accepted
/// is kept for good. A reported failure moves the time of the last report.
pub open spec fn state_after(state: WorkerState, tried: TensorLayout, accepted: bool, now_ns: u64)
    -> WorkerState {
    match outcome_of(state, tried, accepted, now_ns as int) {
        AttemptOutcome::Accepted => WorkerState {
            input_layout: if state.input_layout is None {
                Some(tried)
            } else {
                state.input_layout
            },
            last_failure_log: state.last_failure_log,
        },
        AttemptOutcome::Retry(_) => state,
        AttemptOutcome::Failed { log } => WorkerState {
            input_layout: state.input_layout,
            last_failure_log: if log {
                Some(now_ns)
            } else {
                state.last_failure_log
            },
        },
    }
}

/// See [`input_pixels`]. A frame that is refused is skipped without a report.
pub fn expected_pixels(rgba_len: usize, width: u32, height: u32) -> (pixels: Option<usize>)
    ensures
        match pixels {
            Some(n) => input_pixels(rgba_len as int, width as int, height as int) == Some(n as int),
            None => input_pixels(rgba_len as int, width as int, height as int) is None,
        },
{
    if width == 0 || height == 0 {
        return None;
    }
    assert(width * height <= 0xFFFF_FFFF * 0xFFFF_FFFF) by (nonlinear_arith)
        requires
            0 <= width <= 0xFFFF_FFFF,
            0 <= height <= 0xFFFF_FFFF,
    ;
    let area: u64 = (width as u64) * (height as u64);
    let bytes: u128 = (area as u128) * 4;
    if rgba_len as u128 == bytes {
        Some(area as usize)
    } else {
        None
    }
}

impl<C> SegInput<C> {
    /// The number of pixels of this frame, if it is well formed. See
    /// [`input_pixels`].
    pub fn pixels(&self) -> (pixels: Option<usize>)
        ensures
            match pixels {
                Some(n) => input_pixels(
                    self.rgba@.len() as int,
                    self.width as int,
                    self.height as int,
                ) == Some(n as int),
                None => input_pixels(
                    self.rgba@.len() as int,
                    self.width as int,
                    self.height as int,
                ) is None,
            },
    {
        expected_pixels(self.rgba.len(), self.width, self.height)
    }

    /// The output that carries `mask` back: it has this frame's dimensions
    /// and, for the latency to be measured by, this frame's capture time.
    pub fn output(&self, mask: Vec<u8>) -> (out: SegOutput)
        ensures
            out.mask == mask,
            out.width == self.width,
            out.height == self.height,
            out.capture_time == self.capture_time,
    {
        SegOutput { mask, width: self.width, height: self.height, capture_time: self.capture_time }
    }
}

/// See [`tensor_shape_of`].
pub fn tensor_shape(layout: TensorLayout, width: u32, height: u32) -> (shape: [i64; 4])
    ensures
        shape@ == tensor_shape_of(layout, width, height),
{
    let shape: [i64; 4] = match layout {
        TensorLayout::ChannelLast => [1, height as i64, width as i64, 3],
        TensorLayout::ChannelFirst => [1, 3, height as i64, width as i64],
    };
    assert(shape@ =~= tensor_shape_of(layout, width, height));
    shape
}

/// Lays the red, green and blue bytes of `rgba` out as the tensor wants them,
/// leaving alpha out. `rgba` holds four bytes for each pixel; bytes after the
/// last whole pixel are ignored.
pub fn pack_rgb(rgba: &[u8], layout: TensorLayout) -> (packed: Vec<u8>)
    ensures
        packed@.len() == 3 * (rgba@.len() / 4),
        forall|pixel: int, channel: int|
            0 <= pixel < rgba@.len() / 4 && 0 <= channel < 3 ==> packed@[#[trigger] tensor_index(
                layout,
                rgba@.len() as int / 4,
                pixel,
                channel,
            )] == rgba@[4 * pixel + channel],
{
    let pixels: usize = rgba.len() / 4;
    let mut packed: Vec<u8> = Vec::new();
    match layout {
        TensorLayout::ChannelLast => {
            let mut i: usize = 0;
            while i < pixels
                invariant
                    pixels == rgba@.len() / 4,
                    rgba@.len() <= usize::MAX,
                    i <= pixels,
                    packed@.len() == 3 * i,
                    forall|p: int, c: int|
                        0 <= p < i && 0 <= c < 3 ==> packed@[#[trigger] tensor_index(
                            TensorLayout::ChannelLast,
                            pixels as int,
                            p,
                            c,
                        )] == rgba@[4 * p + c],
                decreases pixels - i,
            {
                packed.push(rgba[4 * i]);
                packed.push(rgba[4 * i + 1]);
                packed.push(rgba[4 * i + 2]);
                i = i + 1;
            }
        },
        TensorLayout::ChannelFirst => {
            let mut channel: usize = 0;
            while channel < 3
                invariant
                    pixels == rgba@.len() / 4,
                    rgba@.len() <= usize::MAX,
                    channel <= 3,
                    packed@.len() == channel * pixels,
                    forall|p: int, c: int|
                        0 <= p < pixels && 0 <= c < channel ==> packed@[#[trigger] tensor_index(
                            TensorLayout::ChannelFirst,
                            pixels as int,
                            p,
                            c,
                        )] == rgba@[4 * p + c],
                decreases 3 - channel,
            {
                let mut i: usize = 0;
                while i < pixels
                    invariant
                        pixels == rgba@.len() / 4,
                        rgba@.len() <= usize::MAX,
                        channel < 3,
                        i <= pixels,
                        packed@.len() == channel * pixels + i,
                        forall|p: int, c: int|
                            0 <= p < pixels && 0 <= c < channel ==> packed@[#[trigger] tensor_index(
                                TensorLayout::ChannelFirst,
                                pixels as int,
                                p,
                                c,
                            )] == rgba@[4 * p + c],
                        forall|p: int|
                            0 <= p < i ==> packed@[#[trigger] tensor_index(
                                TensorLayout::ChannelFirst,
                                pixels as int,
                                p,
                                channel as int,
                            )] == rgba@[4 * p + channel],
                    decreases pixels - i,
                {
                    proof {
                        lemma_plane_offsets(pixels as int, channel as int);
                    }
                    packed.push(rgba[4 * i + channel]);
                    i = i + 1;
                }
                proof {
                    lemma_plane_offsets(pixels as int, channel as int);
                }
                channel = channel + 1;
            }
        },
    }
    packed
}

/// Planes of `pixels` values follow each other without gap or overlap.
proof fn lemma_plane_offsets(pixels: int, channel: int)
    requires
        0 <= pixels,
        0 <= channel < 3,
    ensures
        (channel + 1) * pixels == channel * pixels + pixels,
        forall|c: int| 0 <= c < channel ==> #[trigger] (c * pixels) + pixels <= channel * pixels,
{
    assert((channel + 1) * pixels == channel * pixels + pixels) by (nonlinear_arith);
    assert forall|c: int| 0 <= c < channel implies #[trigger] (c * pixels) + pixels <= channel
        * pixels by {
        assert((c + 1) * pixels == c * pixels + pixels) by (nonlinear_arith);
        assert((c + 1) * pixels <= channel * pixels) by (nonlinear_arith)
            requires
                c + 1 <= channel,
                0 <= pixels,
        ;
    }
}

/// The first of the model's outputs, given by their lengths, that can hold a
/// mask of `expected` pixels; `None` if none can.
pub fn pick_output(lens: &[usize], expected: usize) -> (picked: Option<usize>)
    ensures
        match picked {
            Some(i) => {
                &&& i < lens@.len()
                &&& output_acceptable(lens@[i as int] as int, expected as int)
                &&& forall|j: int|
                    0 <= j < i ==> !output_acceptable(#[trigger] lens@[j] as int, expected as int)
            },
            None => forall|j: int|
                0 <= j < lens@.len() ==> !output_acceptable(
                    #[trigger] lens@[j] as int,
                    expected as int,
                ),
        },
{
    let mut i: usize = 0;
    while i < lens.len()
        invariant
            i <= lens@.len(),
            forall|j: int|
                0 <= j < i ==> !output_acceptable(#[trigger] lens@[j] as int, expected as int),
        decreases lens@.len() - i,
    {
        if lens[i] >= expected {
            return Some(i);
        }
        i = i + 1;
    }
    None
}

impl WorkerState {
    /// The state of a worker that has run nothing yet.
    pub fn new() -> (state: Self)
        ensures
            state.input_layout is None,
            state.last_failure_log is None,
    {
        WorkerState { input_layout: None, last_failure_log: None }
    }

    /// See [`first_layout_of`].
    pub fn first_layout(&self) -> (layout: TensorLayout)
        ensures
            layout == first_layout_of(*self),
    {
        match self.input_layout {
            Some(layout) => layout,
            None => TensorLayout::ChannelLast,
        }
    }

    /// Takes in how an attempt with layout `tried` ended at `now_ns`, and says
    /// what follows. See [`outcome_of`] and [`state_after`].
    pub fn after_attempt(&mut self, tried: TensorLayout, accepted: bool, now_ns: u64) -> (outcome:
        AttemptOutcome)
        ensures
            outcome == outcome_of(*old(self), tried, accepted, now_ns as int),
            *final(self) == state_after(*old(self), tried, accepted, now_ns),
    {
        if accepted {
            if self.input_layout.is_none() {
                self.input_layout = Some(tried);
            }
            return AttemptOutcome::Accepted;
        }
        let probing: bool = match (self.input_layout, tried) {
            (None, TensorLayout::ChannelLast) => true,
            _ => false,
        };
        if probing {
            return AttemptOutcome::Retry(TensorLayout::ChannelFirst);
        }
        let due: bool = match self.last_failure_log {
            None => true,
            Some(t) => now_ns >= t && now_ns - t >= FAILURE_LOG_QUIET_NS,
        };
        if due {
            self.last_failure_log = Some(now_ns);
        }
        AttemptOutcome::Failed { log: due }
    }
}

/// A layout that has worked once is the one that every later frame starts
/// with, and no attempt ever replaces it or probes past it.
pub proof fn lemma_layout_is_kept(
    state: WorkerState,
    tried: TensorLayout,
    accepted: bool,
    now_ns: u64,
)
    requires
        state.input_layout is Some,
    ensures
        state_after(state, tried, accepted, now_ns).input_layout == state.input_layout,
        first_layout_of(state_after(state, tried, accepted, now_ns)) == first_layout_of(state),
        !(outcome_of(state, tried, accepted, now_ns as int) is Retry),
{
}

/// While no layout has worked, channel-last is tried first and channel-first
/// second, and the first of them that is accepted is the one that is kept.
pub proof fn lemma_probe_order(state: WorkerState, now_ns: u64)
    requires
        state.input_layout is None,
    ensures
        first_layout_of(state) == TensorLayout::ChannelLast,
        outcome_of(state, TensorLayout::ChannelLast, false, now_ns as int) == AttemptOutcome::Retry(
            TensorLayout::ChannelFirst,
        ),
        state_after(state, TensorLayout::ChannelLast, true, now_ns).input_layout == Some(
            TensorLayout::ChannelLast,
        ),
        state_after(
            state_after(state, TensorLayout::ChannelLast, false, now_ns),
            TensorLayout::ChannelFirst,
            true,
            now_ns,
        ).input_layout == Some(TensorLayout::ChannelFirst),
{
}

/// After a failure was reported, none is reported again before
/// [`FAILURE_LOG_QUIET_NS`] have passed.
pub proof fn lemma_failure_reports_are_spaced(reported_ns: u64, now_ns: int)
    requires
        now_ns < reported_ns + FAILURE_LOG_QUIET_NS,
    ensures
        !failure_log_due(Some(reported_ns), now_ns),
{
}

} // verus!
