//! A small ring of timestamped frame snapshots.
//!
//! A mask arrives some time after the frame it was computed from. The ring
//! keeps the last few frames so that the mask can be laid over the frame that
//! was captured when the mask's own input was.

use vstd::arithmetic::div_mod::{lemma_add_mod_noop, lemma_mod_equivalence, lemma_small_mod};
use vstd::prelude::*;

verus! {

/// Number of snapshots that the ring is allocated with.
pub const FRAME_HISTORY_SLOTS: usize = 8;

/// Longest delay that is ever compensated (half a second).
pub const MAX_SYNC_DELAY_NS: u64 = 500_000_000;

/// Delays up to this (half a millisecond) are not worth compensating.
pub const MIN_SYNC_DELAY_NS: u64 = 500_000;

/// One slot of the ring: the handle of a snapshot that the caller owns, and
/// the time at which the frame in it was captured, if there is one.
pub struct FrameHistoryEntry<H> {
    pub tex: H,
    pub time: Option<u64>,
}

/// The ring itself. Slots are handed out round-robin and never removed one
/// by one.
pub struct FrameHistory<H> {
    entries: Vec<FrameHistoryEntry<H>>,
    next: usize,
}

/// The absolute distance between two points in time.
pub open spec fn time_distance(a: int, b: int) -> int {
    if a <= b {
        b - a
    } else {
        a - b
    }
}

/// Whether any slot holds a timestamped frame.
pub open spec fn has_timestamp<H>(slots: Seq<FrameHistoryEntry<H>>) -> bool {
    exists|j: int| 0 <= j < slots.len() && (#[trigger] slots[j]).time is Some
}

/// Slot `i` is the one that a search for `desired_ns` settles on: it is
/// timestamped, no timestamped slot is closer in time, and among equally close
/// slots it comes first.
pub open spec fn is_nearest_slot<H>(
    slots: Seq<FrameHistoryEntry<H>>,
    desired_ns: int,
    i: int,
) -> bool {
    &&& 0 <= i < slots.len()
    &&& slots[i].time is Some
    &&& forall|j: int|
        0 <= j < slots.len() && (#[trigger] slots[j]).time is Some ==> time_distance(
            slots[i].time.unwrap() as int,
            desired_ns,
        ) <= time_distance(slots[j].time.unwrap() as int, desired_ns)
    &&& forall|j: int|
        0 <= j < i && (#[trigger] slots[j]).time is Some ==> time_distance(
            slots[i].time.unwrap() as int,
            desired_ns,
        ) < time_distance(slots[j].time.unwrap() as int, desired_ns)
}

/// The delay that is actually compensated: the asked one, capped at
/// [`MAX_SYNC_DELAY_NS`].
pub open spec fn effective_delay(delay_ns: int) -> int {
    if delay_ns > MAX_SYNC_DELAY_NS {
        MAX_SYNC_DELAY_NS as int
    } else {
        delay_ns
    }
}

/// Whether a frame from the past is looked for at all: the delay must be
/// worth compensating.
pub open spec fn delay_applies(delay_ns: int) -> bool {
    effective_delay(delay_ns) > MIN_SYNC_DELAY_NS
}

/// A ring with slots `slots` and cursor `cursor` after each of `frames` was
/// recorded in it, in order: its slots and its cursor.
pub open spec fn recorded<H>(
    slots: Seq<FrameHistoryEntry<H>>,
    cursor: nat,
    frames: Seq<FrameHistoryEntry<H>>,
) -> (Seq<FrameHistoryEntry<H>>, nat)
    decreases frames.len(),
{
    if frames.len() == 0 || slots.len() == 0 {
        (slots, cursor)
    } else {
        let before = recorded(slots, cursor, frames.drop_last());
        let at = (before.1 as int) % (slots.len() as int);
        (before.0.update(at, frames.last()), ((at + 1) % (slots.len() as int)) as nat)
    }
}

/// The slots that a fresh allocation from `snapshots` consists of.
pub open spec fn fresh_slots<H>(snapshots: Seq<H>) -> Seq<FrameHistoryEntry<H>> {
    Seq::new(snapshots.len(), |i: int| FrameHistoryEntry { tex: snapshots[i], time: None })
}

/// The snapshot handles of `slots`, in slot order.
pub open spec fn slot_handles<H>(slots: Seq<FrameHistoryEntry<H>>) -> Seq<H> {
    Seq::new(slots.len(), |i: int| slots[i].tex)
}

impl<H> FrameHistory<H> {
    /// The slots of the ring, in slot order.
    pub closed spec fn slots(&self) -> Seq<FrameHistoryEntry<H>> {
        self.entries@
    }

    /// The position that the next slot is taken from (modulo the ring's size).
    pub closed spec fn cursor(&self) -> nat {
        self.next as nat
    }

    /// The index of the slot that is handed out next.
    pub open spec fn next_index(&self) -> int
        recommends
            self.slots().len() > 0,
    {
        (self.cursor() as int) % (self.slots().len() as int)
    }

    /// A ring without slots. It stays inert until it is allocated.
    pub fn new() -> (history: Self)
        ensures
            history.slots() == Seq::<FrameHistoryEntry<H>>::empty(),
            history.cursor() == 0,
    {
        FrameHistory { entries: Vec::new(), next: 0 }
    }

    /// The number of slots.
    pub fn len(&self) -> (n: usize)
        ensures
            n == self.slots().len(),
    {
        self.entries.len()
    }

    /// Whether the ring has no slots yet.
    pub fn is_empty(&self) -> (empty: bool)
        ensures
            empty == (self.slots().len() == 0),
    {
        self.entries.len() == 0
    }

    /// Hands out the next slot, round-robin, for the caller to fill. Whatever
    /// the caller leaves in it is what the ring holds afterwards. An
    /// unallocated ring hands out nothing and stays as it is.
    pub fn next_slot_mut(&mut self) -> (slot: Option<&mut FrameHistoryEntry<H>>)
        ensures
            old(self).slots().len() == 0 ==> slot is None && *final(self) == *old(self),
            old(self).slots().len() > 0 ==> {
                &&& slot matches Some(entry)
                &&& *entry == old(self).slots()[old(self).next_index()]
                &&& final(self).slots() == old(self).slots().update(
                    old(self).next_index(),
                    *final(entry),
                )
                &&& final(self).cursor() == (old(self).next_index() + 1) % (old(self).slots().len() as int)
                &&& (final(self).slots(), final(self).cursor()) == recorded(
                    old(self).slots(),
                    old(self).cursor(),
                    seq![*final(entry)],
                )
            },
    {
        proof {
            assert forall|frame: FrameHistoryEntry<H>|
                #![trigger seq![frame]]
                recorded(self.slots(), self.cursor(), seq![frame].drop_last()) == (
                    self.slots(),
                    self.cursor(),
                ) by {}
        }
        if self.entries.len() == 0 {
            return None;
        }
        let i: usize = self.next % self.entries.len();
        self.next = (i + 1) % self.entries.len();
        Some(&mut self.entries[i])
    }

    /// Puts `snapshot`, captured at `timestamp_ns`, into the next slot,
    /// round-robin, over whatever the slot held. Returns whether there was a
    /// slot to put it in.
    pub fn record(&mut self, snapshot: H, timestamp_ns: u64) -> (stored: bool)
        ensures
            stored == (old(self).slots().len() > 0),
            stored ==> final(self).slots() == old(self).slots().update(
                old(self).next_index(),
                (FrameHistoryEntry { tex: snapshot, time: Some(timestamp_ns) }),
            ),
            stored ==> final(self).cursor() == (old(self).next_index() + 1) % (old(self).slots().len() as int),
            !stored ==> *final(self) == *old(self),
            (final(self).slots(), final(self).cursor()) == recorded(
                old(self).slots(),
                old(self).cursor(),
                seq![(FrameHistoryEntry { tex: snapshot, time: Some(timestamp_ns) })],
            ),
    {
        proof {
            let frame = FrameHistoryEntry { tex: snapshot, time: Some(timestamp_ns) };
            assert(recorded(self.slots(), self.cursor(), seq![frame].drop_last()) == (
                self.slots(),
                self.cursor(),
            ));
        }
        if self.entries.len() == 0 {
            return false;
        }
        let i: usize = self.next % self.entries.len();
        self.next = (i + 1) % self.entries.len();
        self.entries[i] = FrameHistoryEntry { tex: snapshot, time: Some(timestamp_ns) };
        true
    }

    /// The slot whose frame was captured closest to `desired_ns`, the first of
    /// them if several are equally close; `None` if no slot is timestamped.
    pub fn select(&self, desired_ns: u64) -> (chosen: Option<usize>)
        ensures
            match chosen {
                Some(i) => is_nearest_slot(self.slots(), desired_ns as int, i as int),
                None => !has_timestamp(self.slots()),
            },
    {
        let mut best: Option<usize> = None;
        let mut best_dt: u64 = 0;
        let mut j: usize = 0;
        while j < self.entries.len()
            invariant
                j <= self.entries@.len(),
                match best {
                    Some(b) => {
                        &&& b < j
                        &&& self.entries@[b as int].time is Some
                        &&& best_dt == time_distance(
                            self.entries@[b as int].time.unwrap() as int,
                            desired_ns as int,
                        )
                        &&& forall|k: int|
                            0 <= k < j && (#[trigger] self.entries@[k]).time is Some ==> best_dt
                                <= time_distance(
                                self.entries@[k].time.unwrap() as int,
                                desired_ns as int,
                            )
                        &&& forall|k: int|
                            0 <= k < b && (#[trigger] self.entries@[k]).time is Some ==> best_dt
                                < time_distance(
                                self.entries@[k].time.unwrap() as int,
                                desired_ns as int,
                            )
                    },
                    None => forall|k: int| 0 <= k < j ==> (#[trigger] self.entries@[k]).time is None,
                },
            decreases self.entries@.len() - j,
        {
            match self.entries[j].time {
                Some(t) => {
                    let dt: u64 = if t <= desired_ns {
                        desired_ns - t
                    } else {
                        t - desired_ns
                    };
                    let closer: bool = match best {
                        Some(_) => dt < best_dt,
                        None => true,
                    };
                    if closer {
                        best = Some(j);
                        best_dt = dt;
                    }
                },
                None => {},
            }
            j = j + 1;
        }
        best
    }
}

impl<H: Copy> FrameHistory<H> {
    /// Allocates the ring from `snapshots` unless it is allocated already:
    /// one slot for each, none of them timestamped, starting over at the
    /// first. Returns whether the snapshots were taken. An allocated ring
    /// stays as it is, and the caller keeps the snapshots.
    pub fn ensure_allocated(&mut self, snapshots: [H; FRAME_HISTORY_SLOTS]) -> (installed: bool)
        ensures
            installed == (old(self).slots().len() == 0),
            installed ==> final(self).slots() == fresh_slots(snapshots@),
            installed ==> final(self).cursor() == 0,
            !installed ==> *final(self) == *old(self),
    {
        if self.entries.len() != 0 {
            return false;
        }
        let mut k: usize = 0;
        while k < FRAME_HISTORY_SLOTS
            invariant
                k <= FRAME_HISTORY_SLOTS,
                self.entries@ == fresh_slots(snapshots@.take(k as int)),
            decreases FRAME_HISTORY_SLOTS - k,
        {
            self.entries.push(FrameHistoryEntry { tex: snapshots[k], time: None });
            k = k + 1;
        }
        proof {
            assert(snapshots@.take(k as int) == snapshots@);
        }
        self.next = 0;
        true
    }

    /// Empties the ring and returns the snapshot handles it held, in slot
    /// order, for the caller to release.
    pub fn destroy(&mut self) -> (released: Vec<H>)
        ensures
            released@ == slot_handles(old(self).slots()),
            final(self).slots() == Seq::<FrameHistoryEntry<H>>::empty(),
            final(self).cursor() == 0,
    {
        let mut released: Vec<H> = Vec::new();
        let mut k: usize = 0;
        while k < self.entries.len()
            invariant
                k <= self.entries.len(),
                released@ == slot_handles(self.entries@.take(k as int)),
            decreases self.entries.len() - k,
        {
            released.push(self.entries[k].tex);
            k = k + 1;
        }
        proof {
            assert(self.entries@.take(k as int) == self.entries@);
        }
        self.entries = Vec::new();
        self.next = 0;
        released
    }

    /// The snapshot to composite when the mask lags `delay_ns` behind the
    /// frame that was just captured: the one captured closest to `delay_ns`
    /// before `now_ns`, whether or not the clock had started by that time.
    /// `fallback` comes back unchanged where the delay is not worth
    /// compensating, or where no slot is timestamped.
    pub fn select_delayed_texture(&self, fallback: H, now_ns: u64, delay_ns: u64) -> (tex: H)
        ensures
            delay_applies(delay_ns as int) && has_timestamp(self.slots()) ==> exists|i: int|
                #[trigger] is_nearest_slot(
                    self.slots(),
                    now_ns - effective_delay(delay_ns as int),
                    i,
                ) && tex == self.slots()[i].tex,
            !(delay_applies(delay_ns as int) && has_timestamp(self.slots())) ==> tex == fallback,
    {
        match self.select_delayed_slot(now_ns, delay_ns) {
            Some(i) => self.entries[i].tex,
            None => fallback,
        }
    }
}

impl<H> FrameHistory<H> {
    /// The slot that [`FrameHistory::select_delayed_texture`] takes its
    /// snapshot from; `None` where it gives the fallback.
    pub fn select_delayed_slot(&self, now_ns: u64, delay_ns: u64) -> (chosen: Option<usize>)
        ensures
            match chosen {
                Some(i) => delay_applies(delay_ns as int) && is_nearest_slot(
                    self.slots(),
                    now_ns - effective_delay(delay_ns as int),
                    i as int,
                ),
                None => !(delay_applies(delay_ns as int) && has_timestamp(self.slots())),
            },
    {
        let delay: u64 = if delay_ns > MAX_SYNC_DELAY_NS {
            MAX_SYNC_DELAY_NS
        } else {
            delay_ns
        };
        if delay <= MIN_SYNC_DELAY_NS {
            return None;
        }
        if now_ns >= delay {
            return self.select(now_ns - delay);
        }
        // No frame is older than the clock: the slot closest to the clock's
        // start is the one closest to any time before it.
        let chosen = self.select(0);
        proof {
            match chosen {
                Some(i) => {
                    lemma_nearest_before_clock_start(self.slots(), now_ns - delay, i as int);
                },
                None => {},
            }
        }
        chosen
    }
}

impl<H> Default for FrameHistory<H> {
    fn default() -> (history: Self)
        ensures
            history.slots() == Seq::<FrameHistoryEntry<H>>::empty(),
            history.cursor() == 0,
    {
        FrameHistory::new()
    }
}

/// The ring keeps the latest frames: after any number of frames was recorded,
/// each of the last ones, as many as there are slots, is still in the ring,
/// in the slot that round-robin order gave it, and the cursor stands behind
/// the frame that was recorded last.
pub proof fn lemma_ring_keeps_latest<H>(
    slots: Seq<FrameHistoryEntry<H>>,
    cursor: nat,
    frames: Seq<FrameHistoryEntry<H>>,
    k: int,
)
    requires
        slots.len() > 0,
        0 <= k < frames.len(),
        frames.len() - slots.len() <= k,
    ensures
        recorded(slots, cursor, frames).0.len() == slots.len(),
        recorded(slots, cursor, frames).0[(cursor as int + k) % (slots.len() as int)] == frames[k],
        recorded(slots, cursor, frames).1 == (cursor as int + frames.len() as int) % (
        slots.len() as int),
    decreases frames.len(),
{
    let n = slots.len() as int;
    let m = frames.len() as int;
    let earlier = frames.drop_last();
    lemma_ring_cursor(slots, cursor, earlier);
    lemma_ring_cursor(slots, cursor, frames);
    let before = recorded(slots, cursor, earlier);
    let at = (before.1 as int) % n;
    let c = cursor as int;
    lemma_small_mod(recorded(slots, cursor, frames).1, n as nat);
    assert(at == (c + m - 1) % n);
    if k < m - 1 {
        lemma_ring_keeps_latest(slots, cursor, earlier, k);
        assert((c + k) % n != (c + m - 1) % n) by {
            lemma_mod_equivalence(c + m - 1, c + k, n);
            lemma_small_mod((m - 1 - k) as nat, n as nat);
        }
    }
}

/// Recording frames one after the other is recording them all: a ring in
/// which `frames` were recorded, and then `frame`, is the ring in which
/// `frames` with `frame` at their end were recorded.
pub proof fn lemma_recorded_one_more<H>(
    slots: Seq<FrameHistoryEntry<H>>,
    cursor: nat,
    frames: Seq<FrameHistoryEntry<H>>,
    frame: FrameHistoryEntry<H>,
)
    ensures
        recorded(
            recorded(slots, cursor, frames).0,
            recorded(slots, cursor, frames).1,
            seq![frame],
        ) == recorded(slots, cursor, frames.push(frame)),
{
    let before = recorded(slots, cursor, frames);
    assert(frames.push(frame).drop_last() == frames);
    assert(recorded(before.0, before.1, seq![frame].drop_last()) == before);
    if slots.len() > 0 {
        lemma_ring_cursor(slots, cursor, frames);
    }
}

/// Recording moves the cursor on by one slot for each frame, and leaves the
/// number of slots as it is.
proof fn lemma_ring_cursor<H>(
    slots: Seq<FrameHistoryEntry<H>>,
    cursor: nat,
    frames: Seq<FrameHistoryEntry<H>>,
)
    requires
        slots.len() > 0,
    ensures
        recorded(slots, cursor, frames).0.len() == slots.len(),
        frames.len() > 0 ==> recorded(slots, cursor, frames).1 < slots.len(),
        recorded(slots, cursor, frames).1 as int % (slots.len() as int) == (cursor as int
            + frames.len() as int) % (slots.len() as int),
    decreases frames.len(),
{
    let n = slots.len() as int;
    if frames.len() > 0 {
        lemma_ring_cursor(slots, cursor, frames.drop_last());
        let before = recorded(slots, cursor, frames.drop_last());
        let at = (before.1 as int) % n;
        assert(0 <= at < n);
        assert(0 <= (at + 1) % n < n);
        let m = frames.len() as int;
        assert((at + 1) % n == (cursor as int + m) % n) by {
            lemma_add_mod_noop(cursor as int + m - 1, 1, n);
            lemma_add_mod_noop(at, 1, n);
            lemma_small_mod(at as nat, n as nat);
        }
        lemma_small_mod(((at + 1) % n) as nat, n as nat);
    }
}

/// The slot closest to the start of the clock is the slot closest to any
/// time before that, since no frame was captured earlier.
pub proof fn lemma_nearest_before_clock_start<H>(
    slots: Seq<FrameHistoryEntry<H>>,
    desired_ns: int,
    i: int,
)
    requires
        desired_ns <= 0,
        is_nearest_slot(slots, 0, i),
    ensures
        is_nearest_slot(slots, desired_ns, i),
{
    assert forall|j: int| 0 <= j < slots.len() && (#[trigger] slots[j]).time is Some implies {
        &&& time_distance(slots[j].time.unwrap() as int, desired_ns) == slots[j].time.unwrap()
            - desired_ns
        &&& time_distance(slots[j].time.unwrap() as int, 0) == slots[j].time.unwrap()
    } by {}
}

/// Once a delay is compensated, a frame that was captured just now is not
/// the one to composite as long as the ring holds a frame that lies closer
/// to the delayed time: whichever slot the search settles on, its frame is
/// older than now.
pub proof fn lemma_delayed_frame_is_not_current<H>(
    slots: Seq<FrameHistoryEntry<H>>,
    now_ns: int,
    delay_ns: int,
    older: int,
    chosen: int,
)
    requires
        delay_applies(delay_ns),
        0 <= older < slots.len(),
        slots[older].time is Some,
        time_distance(slots[older].time.unwrap() as int, now_ns - effective_delay(delay_ns))
            < effective_delay(delay_ns),
        is_nearest_slot(slots, now_ns - effective_delay(delay_ns), chosen),
    ensures
        slots[chosen].time.unwrap() < now_ns,
{
}

/// A search settles on one slot only: two slots that both qualify as nearest
/// are the same slot.
pub proof fn lemma_nearest_slot_unique<H>(
    slots: Seq<FrameHistoryEntry<H>>,
    desired_ns: int,
    i: int,
    k: int,
)
    requires
        is_nearest_slot(slots, desired_ns, i),
        is_nearest_slot(slots, desired_ns, k),
    ensures
        i == k,
{
    if i < k {
        assert(slots[i].time is Some);
    } else if k < i {
        assert(slots[k].time is Some);
    }
}

} // verus!
