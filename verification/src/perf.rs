//! Optional timing statistics for the stages of the render path and of the
//! worker.
//!
//! Each stage is timed by the caller, who reads the clock and hands the
//! readings in. About once a second the collected numbers are handed back as a
//! report, for the caller to print, and counting starts over.

use vstd::prelude::*;
use vstd::string::*;

verus! {

/// Time between two reports (one second).
pub const PERF_LOG_INTERVAL_NS: u64 = 1_000_000_000;

/// How often a stage ran, how long it took in all, and the longest run.
#[derive(Clone, Copy, Debug, PartialEq, Eq, Structural)]
pub struct StageStats {
    pub count: u64,
    pub total_ns: u64,
    pub max_ns: u64,
}

/// The statistics of the render path.
#[derive(Clone, Copy, Debug, PartialEq, Eq, Structural)]
pub struct RenderPerf {
    pub enabled: bool,
    pub last_log: u64,
    pub interval: u64,
    pub frame: StageStats,
    pub consume_outputs: StageStats,
    pub render_source: StageStats,
    pub seg_request: StageStats,
    pub blur: StageStats,
    pub composite: StageStats,
    pub shape: StageStats,
}

/// What the render path did since the last report.
#[derive(Clone, Copy, Debug, PartialEq, Eq, Structural)]
pub struct RenderPerfReport {
    /// The time that the report covers.
    pub elapsed_ns: u64,
    pub frame: StageStats,
    pub consume_outputs: StageStats,
    pub render_source: StageStats,
    pub seg_request: StageStats,
    pub blur: StageStats,
    pub composite: StageStats,
    pub shape: StageStats,
}

/// The statistics of the worker.
#[derive(Clone, Copy, Debug, PartialEq, Eq, Structural)]
pub struct SegPerf {
    pub enabled: bool,
    pub last_log: u64,
    pub interval: u64,
    pub total: StageStats,
    pub preprocess: StageStats,
    pub infer: StageStats,
    pub postprocess: StageStats,
}

/// What the worker did since the last report.
#[derive(Clone, Copy, Debug, PartialEq, Eq, Structural)]
pub struct SegPerfReport {
    /// The time that the report covers.
    pub elapsed_ns: u64,
    pub total: StageStats,
    pub preprocess: StageStats,
    pub infer: StageStats,
    pub postprocess: StageStats,
}

/// The characters that count as white space: those that Unicode marks
/// `White_Space`.
pub open spec fn is_white_space(c: char) -> bool {
    let code = c as u32;
    ||| 0x09 <= code <= 0x0D
    ||| code == 0x20
    ||| code == 0x85
    ||| code == 0xA0
    ||| code == 0x1680
    ||| 0x2000 <= code <= 0x200A
    ||| code == 0x2028
    ||| code == 0x2029
    ||| code == 0x202F
    ||| code == 0x205F
    ||| code == 0x3000
}

/// `s` without the white space at its start.
pub open spec fn trim_start(s: Seq<char>) -> Seq<char>
    decreases s.len(),
{
    if s.len() > 0 && is_white_space(s[0]) {
        trim_start(s.drop_first())
    } else {
        s
    }
}

/// `s` without the white space at its end.
pub open spec fn trim_end(s: Seq<char>) -> Seq<char>
    decreases s.len(),
{
    if s.len() > 0 && is_white_space(s.last()) {
        trim_end(s.drop_last())
    } else {
        s
    }
}

/// Whether `c` is the letter `lower`, in either case. `lower` is a lower-case
/// ASCII letter.
pub open spec fn is_letter(c: char, lower: char) -> bool {
    c == lower || c as u32 + 32 == lower as u32
}

/// Whether `s` is the word `false`, in any mix of upper and lower case.
pub open spec fn is_false_word(s: Seq<char>) -> bool {
    &&& s.len() == 5
    &&& is_letter(s[0], 'f')
    &&& is_letter(s[1], 'a')
    &&& is_letter(s[2], 'l')
    &&& is_letter(s[3], 's')
    &&& is_letter(s[4], 'e')
}

/// Whether a setting with the text `value` switches the statistics on:
/// anything does, but for nothing at all, `0`, and `false` in any case. White
/// space around the text does not count.
pub open spec fn flag_is_set(value: Seq<char>) -> bool {
    let text = trim_end(trim_start(value));
    text.len() > 0 && text != seq!['0'] && !is_false_word(text)
}

/// The length of time from `start_ns` to `now_ns`; nothing if the clock ran
/// backwards.
pub open spec fn elapsed_since(start_ns: u64, now_ns: u64) -> u64 {
    if now_ns >= start_ns {
        (now_ns - start_ns) as u64
    } else {
        0
    }
}

/// A sum that stops at the largest number there is.
pub open spec fn capped_sum(a: u64, b: u64) -> u64 {
    if a + b > u64::MAX {
        u64::MAX
    } else {
        (a + b) as u64
    }
}

/// `stats` after one more run that took `elapsed_ns`.
pub open spec fn stage_after(stats: StageStats, elapsed_ns: u64) -> StageStats {
    StageStats {
        count: capped_sum(stats.count, 1),
        total_ns: capped_sum(stats.total_ns, elapsed_ns),
        max_ns: if elapsed_ns > stats.max_ns {
            elapsed_ns
        } else {
            stats.max_ns
        },
    }
}

/// `stats` after a stage that was started at `start` has ended at `now_ns`.
/// A stage that was not timed leaves them as they are.
pub open spec fn stage_timed(stats: StageStats, start: Option<u64>, now_ns: u64) -> StageStats {
    match start {
        Some(t0) => stage_after(stats, elapsed_since(t0, now_ns)),
        None => stats,
    }
}

/// Statistics of a stage that has not run.
pub open spec fn no_stats() -> StageStats {
    StageStats { count: 0, total_ns: 0, max_ns: 0 }
}

/// Whether a report is due at `now_ns`.
pub open spec fn log_due(enabled: bool, last_log: u64, interval: u64, now_ns: u64) -> bool {
    enabled && elapsed_since(last_log, now_ns) >= interval
}

impl StageStats {
    /// Statistics of a stage that has not run.
    pub fn new() -> (stats: Self)
        ensures
            stats == no_stats(),
    {
        StageStats { count: 0, total_ns: 0, max_ns: 0 }
    }

    /// Counts one more run, which took `elapsed_ns`.
    pub fn record(&mut self, elapsed_ns: u64)
        ensures
            *final(self) == stage_after(*old(self), elapsed_ns),
    {
        self.count = self.count.saturating_add(1);
        self.total_ns = self.total_ns.saturating_add(elapsed_ns);
        if elapsed_ns > self.max_ns {
            self.max_ns = elapsed_ns;
        }
    }

    /// Counts a stage that was started at `start` and has ended at `now_ns`.
    pub fn record_since(&mut self, start: Option<u64>, now_ns: u64)
        ensures
            *final(self) == stage_timed(*old(self), start, now_ns),
    {
        match start {
            Some(t0) => {
                self.record(now_ns.saturating_sub(t0));
            },
            None => {},
        }
    }
}

impl Default for StageStats {
    fn default() -> (stats: Self)
        ensures
            stats == no_stats(),
    {
        StageStats::new()
    }
}

impl RenderPerf {
    /// The report that is due at `now_ns`.
    pub open spec fn report_at(self, now_ns: u64) -> RenderPerfReport {
        RenderPerfReport {
            elapsed_ns: elapsed_since(self.last_log, now_ns),
            frame: self.frame,
            consume_outputs: self.consume_outputs,
            render_source: self.render_source,
            seg_request: self.seg_request,
            blur: self.blur,
            composite: self.composite,
            shape: self.shape,
        }
    }

    /// The statistics after a report at `now_ns`: counting starts over.
    pub open spec fn restarted_at(self, now_ns: u64) -> RenderPerf {
        RenderPerf {
            enabled: self.enabled,
            last_log: now_ns,
            interval: self.interval,
            frame: no_stats(),
            consume_outputs: no_stats(),
            render_source: no_stats(),
            seg_request: no_stats(),
            blur: no_stats(),
            composite: no_stats(),
            shape: no_stats(),
        }
    }

    /// Fresh statistics, switched on or off, with the first report due
    /// [`PERF_LOG_INTERVAL_NS`] after `now_ns`.
    pub fn new(enabled: bool, now_ns: u64) -> (perf: Self)
        ensures
            perf == (RenderPerf {
                enabled,
                last_log: now_ns,
                interval: PERF_LOG_INTERVAL_NS,
                frame: no_stats(),
                consume_outputs: no_stats(),
                render_source: no_stats(),
                seg_request: no_stats(),
                blur: no_stats(),
                composite: no_stats(),
                shape: no_stats(),
            }),
    {
        RenderPerf {
            enabled,
            last_log: now_ns,
            interval: PERF_LOG_INTERVAL_NS,
            frame: StageStats::new(),
            consume_outputs: StageStats::new(),
            render_source: StageStats::new(),
            seg_request: StageStats::new(),
            blur: StageStats::new(),
            composite: StageStats::new(),
            shape: StageStats::new(),
        }
    }

    /// The start of a stage that begins at `now_ns`, if stages are timed at
    /// all.
    pub fn start(&self, now_ns: u64) -> (start: Option<u64>)
        ensures
            start == if self.enabled {
                Some(now_ns)
            } else {
                None
            },
    {
        if self.enabled {
            Some(now_ns)
        } else {
            None
        }
    }

    /// Counts a whole frame that was started at `start` and has ended at
    /// `now_ns`, and hands out the report if one is due.
    pub fn record_frame(&mut self, start: Option<u64>, now_ns: u64) -> (report: Option<
        RenderPerfReport,
    >)
        ensures
            ({
                let counted = RenderPerf {
                    frame: stage_timed(old(self).frame, start, now_ns),
                    ..*old(self)
                };
                if log_due(counted.enabled, counted.last_log, counted.interval, now_ns) {
                    report == Some(counted.report_at(now_ns)) && *final(self)
                        == counted.restarted_at(now_ns)
                } else {
                    report is None && *final(self) == counted
                }
            }),
    {
        self.frame.record_since(start, now_ns);
        self.maybe_log(now_ns)
    }

    /// Counts the taking in of delivered masks.
    pub fn record_consume_outputs(&mut self, start: Option<u64>, now_ns: u64)
        ensures
            *final(self) == (RenderPerf {
                consume_outputs: stage_timed(old(self).consume_outputs, start, now_ns),
                ..*old(self)
            }),
    {
        self.consume_outputs.record_since(start, now_ns);
    }

    /// Counts the rendering of the source frame.
    pub fn record_render_source(&mut self, start: Option<u64>, now_ns: u64)
        ensures
            *final(self) == (RenderPerf {
                render_source: stage_timed(old(self).render_source, start, now_ns),
                ..*old(self)
            }),
    {
        self.render_source.record_since(start, now_ns);
    }

    /// Counts the preparing of a request for a mask.
    pub fn record_seg_request(&mut self, start: Option<u64>, now_ns: u64)
        ensures
            *final(self) == (RenderPerf {
                seg_request: stage_timed(old(self).seg_request, start, now_ns),
                ..*old(self)
            }),
    {
        self.seg_request.record_since(start, now_ns);
    }

    /// Counts the blur passes.
    pub fn record_blur(&mut self, start: Option<u64>, now_ns: u64)
        ensures
            *final(self) == (RenderPerf {
                blur: stage_timed(old(self).blur, start, now_ns),
                ..*old(self)
            }),
    {
        self.blur.record_since(start, now_ns);
    }

    /// Counts the compositing pass.
    pub fn record_composite(&mut self, start: Option<u64>, now_ns: u64)
        ensures
            *final(self) == (RenderPerf {
                composite: stage_timed(old(self).composite, start, now_ns),
                ..*old(self)
            }),
    {
        self.composite.record_since(start, now_ns);
    }

    /// Counts the drawing of the shape.
    pub fn record_shape(&mut self, start: Option<u64>, now_ns: u64)
        ensures
            *final(self) == (RenderPerf {
                shape: stage_timed(old(self).shape, start, now_ns),
                ..*old(self)
            }),
    {
        self.shape.record_since(start, now_ns);
    }

    /// Hands out what was counted since the last report, and starts counting
    /// over, if statistics are on and the last report is at least the
    /// interval old.
    pub fn maybe_log(&mut self, now_ns: u64) -> (report: Option<RenderPerfReport>)
        ensures
            if log_due(old(self).enabled, old(self).last_log, old(self).interval, now_ns) {
                report == Some(old(self).report_at(now_ns)) && *final(self) == old(
                    self,
                ).restarted_at(now_ns)
            } else {
                report is None && *final(self) == *old(self)
            },
    {
        if !self.enabled {
            return None;
        }
        let elapsed: u64 = now_ns.saturating_sub(self.last_log);
        if elapsed < self.interval {
            return None;
        }
        let report = RenderPerfReport {
            elapsed_ns: elapsed,
            frame: self.frame,
            consume_outputs: self.consume_outputs,
            render_source: self.render_source,
            seg_request: self.seg_request,
            blur: self.blur,
            composite: self.composite,
            shape: self.shape,
        };
        self.last_log = now_ns;
        self.frame = StageStats::new();
        self.consume_outputs = StageStats::new();
        self.render_source = StageStats::new();
        self.seg_request = StageStats::new();
        self.blur = StageStats::new();
        self.composite = StageStats::new();
        self.shape = StageStats::new();
        Some(report)
    }
}

impl SegPerf {
    /// The report that is due at `now_ns`.
    pub open spec fn report_at(self, now_ns: u64) -> SegPerfReport {
        SegPerfReport {
            elapsed_ns: elapsed_since(self.last_log, now_ns),
            total: self.total,
            preprocess: self.preprocess,
            infer: self.infer,
            postprocess: self.postprocess,
        }
    }

    /// The statistics after a report at `now_ns`: counting starts over.
    pub open spec fn restarted_at(self, now_ns: u64) -> SegPerf {
        SegPerf {
            enabled: self.enabled,
            last_log: now_ns,
            interval: self.interval,
            total: no_stats(),
            preprocess: no_stats(),
            infer: no_stats(),
            postprocess: no_stats(),
        }
    }

    /// Fresh statistics, switched on or off, with the first report due
    /// [`PERF_LOG_INTERVAL_NS`] after `now_ns`.
    pub fn new(enabled: bool, now_ns: u64) -> (perf: Self)
        ensures
            perf == (SegPerf {
                enabled,
                last_log: now_ns,
                interval: PERF_LOG_INTERVAL_NS,
                total: no_stats(),
                preprocess: no_stats(),
                infer: no_stats(),
                postprocess: no_stats(),
            }),
    {
        SegPerf {
            enabled,
            last_log: now_ns,
            interval: PERF_LOG_INTERVAL_NS,
            total: StageStats::new(),
            preprocess: StageStats::new(),
            infer: StageStats::new(),
            postprocess: StageStats::new(),
        }
    }

    /// The start of a stage that begins at `now_ns`, if stages are timed at
    /// all.
    pub fn start(&self, now_ns: u64) -> (start: Option<u64>)
        ensures
            start == if self.enabled {
                Some(now_ns)
            } else {
                None
            },
    {
        if self.enabled {
            Some(now_ns)
        } else {
            None
        }
    }

    /// Counts the whole handling of one frame, started at `start` and ended
    /// at `now_ns`, and hands out the report if one is due.
    pub fn record_total(&mut self, start: Option<u64>, now_ns: u64) -> (report: Option<
        SegPerfReport,
    >)
        ensures
            ({
                let counted = SegPerf {
                    total: stage_timed(old(self).total, start, now_ns),
                    ..*old(self)
                };
                if log_due(counted.enabled, counted.last_log, counted.interval, now_ns) {
                    report == Some(counted.report_at(now_ns)) && *final(self)
                        == counted.restarted_at(now_ns)
                } else {
                    report is None && *final(self) == counted
                }
            }),
    {
        self.total.record_since(start, now_ns);
        self.maybe_log(now_ns)
    }

    /// Counts the building of the input tensor.
    pub fn record_preprocess(&mut self, start: Option<u64>, now_ns: u64)
        ensures
            *final(self) == (SegPerf {
                preprocess: stage_timed(old(self).preprocess, start, now_ns),
                ..*old(self)
            }),
    {
        self.preprocess.record_since(start, now_ns);
    }

    /// Counts a run of the model.
    pub fn record_infer(&mut self, start: Option<u64>, now_ns: u64)
        ensures
            *final(self) == (SegPerf {
                infer: stage_timed(old(self).infer, start, now_ns),
                ..*old(self)
            }),
    {
        self.infer.record_since(start, now_ns);
    }

    /// Counts the turning of the model's output into a mask.
    pub fn record_postprocess(&mut self, start: Option<u64>, now_ns: u64)
        ensures
            *final(self) == (SegPerf {
                postprocess: stage_timed(old(self).postprocess, start, now_ns),
                ..*old(self)
            }),
    {
        self.postprocess.record_since(start, now_ns);
    }

    /// Hands out what was counted since the last report, and starts counting
    /// over, if statistics are on and the last report is at least the
    /// interval old.
    pub fn maybe_log(&mut self, now_ns: u64) -> (report: Option<SegPerfReport>)
        ensures
            if log_due(old(self).enabled, old(self).last_log, old(self).interval, now_ns) {
                report == Some(old(self).report_at(now_ns)) && *final(self) == old(
                    self,
                ).restarted_at(now_ns)
            } else {
                report is None && *final(self) == *old(self)
            },
    {
        if !self.enabled {
            return None;
        }
        let elapsed: u64 = now_ns.saturating_sub(self.last_log);
        if elapsed < self.interval {
            return None;
        }
        let report = SegPerfReport {
            elapsed_ns: elapsed,
            total: self.total,
            preprocess: self.preprocess,
            infer: self.infer,
            postprocess: self.postprocess,
        };
        self.last_log = now_ns;
        self.total = StageStats::new();
        self.preprocess = StageStats::new();
        self.infer = StageStats::new();
        self.postprocess = StageStats::new();
        Some(report)
    }
}

/// See [`is_white_space`].
fn char_is_white_space(c: char) -> (white: bool)
    ensures
        white == is_white_space(c),
{
    let code: u32 = c as u32;
    (0x09 <= code && code <= 0x0D) || code == 0x20 || code == 0x85 || code == 0xA0 || code
        == 0x1680 || (0x2000 <= code && code <= 0x200A) || code == 0x2028 || code == 0x2029
        || code == 0x202F || code == 0x205F || code == 0x3000
}

/// See [`is_letter`].
fn char_is_letter(c: char, lower: char) -> (same: bool)
    ensures
        same == is_letter(c, lower),
{
    c == lower || c as u32 + 32 == lower as u32
}

/// Whether the setting that switches the statistics on is set: `value` is
/// the text of the setting, `None` where it is not given at all. See
/// [`flag_is_set`].
pub fn enabled(value: Option<&str>) -> (on: bool)
    ensures
        on == match value {
            Some(text) => flag_is_set(text@),
            None => false,
        },
{
    let text = match value {
        Some(text) => text,
        None => {
            return false;
        },
    };
    let len: usize = text.unicode_len();
    let mut first: usize = 0;
    proof {
        assert(text@.subrange(0, len as int) == text@);
    }
    while first < len && char_is_white_space(text.get_char(first))
        invariant
            first <= len,
            len == text@.len(),
            trim_start(text@) == trim_start(text@.subrange(first as int, len as int)),
        decreases len - first,
    {
        proof {
            let rest = text@.subrange(first as int, len as int);
            assert(rest[0] == text@[first as int]);
            assert(rest.drop_first() == text@.subrange(first as int + 1, len as int));
        }
        first = first + 1;
    }
    let ghost from_first = text@.subrange(first as int, len as int);
    proof {
        if first < len {
            assert(from_first[0] == text@[first as int]);
        }
        assert(trim_start(text@) == from_first);
    }
    let mut last: usize = len;
    while last > first && char_is_white_space(text.get_char(last - 1))
        invariant
            first <= last <= len,
            len == text@.len(),
            trim_end(from_first) == trim_end(text@.subrange(first as int, last as int)),
            from_first == text@.subrange(first as int, len as int),
        decreases last,
    {
        proof {
            let rest = text@.subrange(first as int, last as int);
            assert(rest.last() == text@[last as int - 1]);
            assert(rest.drop_last() == text@.subrange(first as int, last as int - 1));
        }
        last = last - 1;
    }
    let ghost kept = text@.subrange(first as int, last as int);
    proof {
        if first < last {
            assert(kept.last() == text@[last as int - 1]);
        }
        assert(trim_end(from_first) == kept);
    }
    let kept_len: usize = last - first;
    if kept_len == 0 {
        return false;
    }
    if kept_len == 1 && text.get_char(first) == '0' {
        proof {
            assert(kept[0] == '0');
            assert(kept =~= seq!['0']);
        }
        return false;
    }
    proof {
        if kept == seq!['0'] {
            assert(kept.len() == 1);
            assert(kept[0] == '0');
        }
    }
    if kept_len == 5 {
        proof {
            assert(kept[0] == text@[first as int]);
            assert(kept[1] == text@[first as int + 1]);
            assert(kept[2] == text@[first as int + 2]);
            assert(kept[3] == text@[first as int + 3]);
            assert(kept[4] == text@[first as int + 4]);
        }
        let is_false: bool = char_is_letter(text.get_char(first), 'f') && char_is_letter(
            text.get_char(first + 1),
            'a',
        ) && char_is_letter(text.get_char(first + 2), 'l') && char_is_letter(
            text.get_char(first + 3),
            's',
        ) && char_is_letter(text.get_char(first + 4), 'e');
        return !is_false;
    }
    true
}

} // verus!
