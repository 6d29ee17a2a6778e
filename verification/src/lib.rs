//! The core of a camera filter that lays a person mask over live video.
//!
//! The mask comes from a segmentation model that takes tens of milliseconds a
//! frame, far longer than a frame lasts. So the model runs on a worker, the
//! render path never waits for it, and each mask is laid over the frame that
//! was on screen when the mask's own input was captured.
//!
//! * [`inbox`]: the one-slot mailbox through which frames reach the worker;
//!   the latest frame wins.
//! * [`worker`]: what the worker decides around the model call.
//! * [`postprocess`]: from the model's output to a mask of bytes.
//! * [`timing`]: the running estimate of how late masks are.
//! * [`frame_history`]: the ring of recent frames, and the choice among them.
//! * [`filter`]: what the render path decides once per frame.
//! * [`perf`]: optional timing statistics.
//! * [`color`], [`runtime`]: two small helpers for the host's side.
//!
//! Nothing here reads a clock, waits, or draws: callers hand in what they
//! have read and act on what comes back. All times are whole nanoseconds on a
//! clock of the caller's choosing.

pub mod color;
pub mod filter;
pub mod frame_history;
pub mod inbox;
pub mod perf;
pub mod postprocess;
pub mod runtime;
pub mod timing;
pub mod worker;
