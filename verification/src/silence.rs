//! When a quiet session is worth a reminder. No terminal text is parsed and no process health is
//! inferred.
use crate::types::{elapsed, Activity, Nanos, SessionState, Snapshot};
use vstd::prelude::*;

verus! {

/// How long unread output has to be followed by silence.
pub const OUTPUT_SILENCE: Nanos = 30_000_000_000;

/// How long an interaction has to go without any output.
pub const EMPTY_SILENCE: Nanos = 90_000_000_000;

/// A reminder that may be due: about one interaction, at one state of its output.
#[derive(Debug, Clone, Copy, PartialEq, Eq, Structural)]
pub struct Candidate {
    pub interaction_id: u64,
    pub output_seq: u64,
    pub start_cursor: u64,
    pub end_cursor: u64,
}

/// Whether the byte at `x` is in one of the ranges.
pub open spec fn in_ranges(ranges: Seq<(u64, u64)>, x: int) -> bool {
    exists|i: int| 0 <= i < ranges.len() && #[trigger] ranges[i].0 <= x < ranges[i].1
}

/// Whether the byte at `x` is in one of the ranges from `from` to `to`.
spec fn in_part(ranges: Seq<(u64, u64)>, from: int, to: int, x: int) -> bool {
    exists|k: int| from <= k < to && #[trigger] ranges[k].0 <= x < ranges[k].1
}

/// Whether no range is empty, and each ends before the next begins with a gap between them.
pub open spec fn separate(ranges: Seq<(u64, u64)>) -> bool {
    &&& forall|i: int| 0 <= i < ranges.len() ==> #[trigger] ranges[i].0 < ranges[i].1
    &&& forall|i: int, j: int|
        0 <= i < j < ranges.len() ==> #[trigger] ranges[i].1 < #[trigger] ranges[j].0
}

/// Which output of a session has been read, and which interaction a reminder was given about
/// last.
pub struct Observation {
    ranges: Vec<(u64, u64)>,
    notified: Option<u64>,
}

impl Default for Observation {
    fn default() -> (observation: Self)
        ensures
            observation.wf(),
            forall|x: int| !observation.saw(x),
            observation.notified() is None,
    {
        Observation { ranges: Vec::new(), notified: None }
    }
}

/// Adds a range to separate ranges and joins those that it touches.
fn insert_range(ranges: &Vec<(u64, u64)>, start: u64, end: u64) -> (out: Vec<(u64, u64)>)
    requires
        separate(ranges@),
        start < end,
    ensures
        separate(out@),
        forall|x: int| in_ranges(out@, x) == (in_ranges(ranges@, x) || start <= x < end),
{
    let mut out: Vec<(u64, u64)> = Vec::new();
    let mut i: usize = 0;
    while i < ranges.len() && ranges[i].1 < start
        invariant
            i <= ranges@.len(),
            separate(ranges@),
            out@ == ranges@.take(i as int),
            forall|k: int| 0 <= k < i ==> #[trigger] ranges@[k].1 < start,
        decreases ranges@.len() - i,
    {
        out.push(ranges[i]);
        i += 1;
        assert(ranges@.take(i as int) == ranges@.take(i - 1).push(ranges@[i - 1]));
    }
    let ghost before = i as int;
    let mut low: u64 = start;
    let mut high: u64 = end;
    while i < ranges.len() && ranges[i].0 <= high
        invariant
            0 <= before <= i <= ranges@.len(),
            separate(ranges@),
            low <= start < end <= high,
            forall|k: int| 0 <= k < before ==> #[trigger] ranges@[k].1 < low,
            before < ranges@.len() ==> ranges@[before].1 >= start,
            forall|k: int|
                before <= k < i ==> low <= #[trigger] ranges@[k].0 && ranges@[k].1 <= high,
            forall|x: int|
                low <= x < high ==> start <= x < end || #[trigger] in_part(
                    ranges@,
                    before,
                    i as int,
                    x,
                ),
        decreases ranges@.len() - i,
    {
        let (a, b) = ranges[i];
        let ghost old_low = low;
        let ghost old_high = high;
        let ghost at = i as int;
        if a < low {
            low = a;
        }
        if b > high {
            high = b;
        }
        i += 1;
        proof {
            assert(ranges@[at] == (a, b));
            assert(b >= start) by {
                if at > before {
                    assert(ranges@[before].1 < ranges@[at].0);
                }
            }
            assert forall|k: int| 0 <= k < before implies #[trigger] ranges@[k].1 < low by {
                assert(ranges@[k].1 < ranges@[at].0);
            }
            assert forall|x: int| low <= x < high implies start <= x < end || #[trigger] in_part(
                ranges@,
                before,
                i as int,
                x,
            ) by {
                if old_low <= x < old_high {
                    if !(start <= x < end) {
                        assert(in_part(ranges@, before, at, x));
                        let k = choose|k: int|
                            before <= k < at && #[trigger] ranges@[k].0 <= x < ranges@[k].1;
                        assert(before <= k < i && ranges@[k].0 <= x < ranges@[k].1);
                    }
                } else {
                    assert(ranges@[at].0 <= x < ranges@[at].1);
                }
            }
        }
    }
    let ghost after = i as int;
    out.push((low, high));
    assert(out@ == ranges@.take(before).push((low, high)));
    while i < ranges.len()
        invariant
            0 <= before <= after <= i <= ranges@.len(),
            separate(ranges@),
            low < high,
            forall|k: int| 0 <= k < before ==> #[trigger] ranges@[k].1 < low,
            after < ranges@.len() ==> ranges@[after].0 > high,
            out@ == ranges@.take(before).push((low, high)) + ranges@.subrange(after, i as int),
        decreases ranges@.len() - i,
    {
        out.push(ranges[i]);
        i += 1;
        assert(ranges@.subrange(after, i as int) == ranges@.subrange(after, i - 1).push(
            ranges@[i - 1],
        ));
    }
    proof {
        let all = out@;
        let n = ranges@.len() as int;
        assert(all.len() == before + 1 + (n - after));
        assert forall|k: int| 0 <= k < all.len() implies all[k] == if k < before {
            ranges@[k]
        } else if k == before {
            (low, high)
        } else {
            ranges@[k - before - 1 + after]
        } by {}
        assert forall|k: int| after <= k < n implies #[trigger] ranges@[k].0 > high by {
            if k > after {
                assert(ranges@[after].1 < ranges@[k].0);
            }
        }
        assert(separate(all)) by {
            assert forall|k: int, j: int| 0 <= k < j < all.len() implies #[trigger] all[k].1
                < #[trigger] all[j].0 by {}
        }
        assert forall|x: int| in_ranges(all, x) == (in_ranges(ranges@, x) || start <= x < end) by {
            if in_ranges(all, x) {
                let k = choose|k: int| 0 <= k < all.len() && #[trigger] all[k].0 <= x < all[k].1;
                if k < before {
                    assert(ranges@[k].0 <= x < ranges@[k].1);
                } else if k > before {
                    assert(ranges@[k - before - 1 + after].0 <= x < ranges@[k - before - 1
                        + after].1);
                } else if !(start <= x < end) {
                    assert(in_part(ranges@, before, after, x));
                }
            }
            if start <= x < end {
                assert(all[before].0 <= x < all[before].1);
            }
            if in_ranges(ranges@, x) {
                let k = choose|k: int| 0 <= k < n && #[trigger] ranges@[k].0 <= x < ranges@[k].1;
                if k < before {
                    assert(all[k].0 <= x < all[k].1);
                } else if k < after {
                    assert(all[before].0 <= x < all[before].1);
                } else {
                    let j = k - after + before + 1;
                    assert(all[j] == ranges@[k]);
                    assert(all[j].0 <= x < all[j].1);
                }
            }
        }
    }
    out
}

impl Observation {
    pub closed spec fn wf(&self) -> bool {
        separate(self.ranges@)
    }

    /// Whether the byte of the session's output at this cursor has been read.
    pub closed spec fn saw(&self, x: int) -> bool {
        in_ranges(self.ranges@, x)
    }

    /// The latest interaction that a reminder was given about.
    pub closed spec fn notified(&self) -> Option<u64> {
        self.notified
    }

    /// Whether all bytes between two cursors have been read.
    pub open spec fn saw_all(&self, start: int, end: int) -> bool {
        forall|x: int| start <= x < end ==> #[trigger] self.saw(x)
    }

    /// Notes that a reminder was given about an interaction.
    pub fn notice_delivered(&mut self, interaction_id: u64)
        requires
            old(self).wf(),
        ensures
            final(self).wf(),
            forall|x: int| #[trigger] final(self).saw(x) == old(self).saw(x),
            final(self).notified() == Some(
                if old(self).notified() is Some && old(self).notified()->0 > interaction_id {
                    old(self).notified()->0
                } else {
                    interaction_id
                },
            ),
    {
        let latest: u64 = match self.notified {
            Some(earlier) if earlier > interaction_id => earlier,
            _ => interaction_id,
        };
        self.notified = Some(latest);
    }

    /// Notes that the bytes between two cursors have been read.
    pub fn read(&mut self, start: u64, end: u64)
        requires
            old(self).wf(),
        ensures
            final(self).wf(),
            forall|x: int|
                #[trigger] final(self).saw(x) == (old(self).saw(x) || start <= x < end),
            final(self).notified() == old(self).notified(),
    {
        if start >= end {
            return;
        }
        self.ranges = insert_range(&self.ranges, start, end);
    }

    /// Whether the interaction has been silent for long enough: since its last output, or since it
    /// began where it had none.
    pub open spec fn silent(activity: Activity, now: Nanos) -> bool {
        if activity.output_seq > activity.interaction_output_seq {
            activity.last_output_at is Some && elapsed(activity.last_output_at->0, now)
                >= OUTPUT_SILENCE
        } else {
            elapsed(activity.interaction_at, now) >= EMPTY_SILENCE
        }
    }

    /// Whether there is output of the interaction and it has all been read. Output without visible
    /// bytes leaves nothing to read.
    pub open spec fn caught_up(&self, snapshot: Snapshot) -> bool {
        &&& snapshot.activity.output_seq > snapshot.activity.interaction_output_seq
        &&& snapshot.activity.interaction_cursor < snapshot.retained_end
        &&& self.saw_all(
            snapshot.activity.interaction_cursor as int,
            snapshot.retained_end as int,
        )
    }

    /// Whether a reminder about the session is due unless one was given.
    pub open spec fn overdue(&self, snapshot: Snapshot, now: Nanos) -> bool {
        &&& snapshot.state == SessionState::Running
        &&& !snapshot.ending
        &&& snapshot.activity.pending_inputs == 0
        &&& Self::silent(snapshot.activity, now)
        &&& !self.caught_up(snapshot)
    }

    /// Whether a reminder about the session is due.
    pub open spec fn due(&self, snapshot: Snapshot, now: Nanos) -> bool {
        self.overdue(snapshot, now) && self.notified() != Some(snapshot.activity.interaction_id)
    }

    /// The reminder about the session.
    pub open spec fn reminder(snapshot: Snapshot) -> Candidate {
        Candidate {
            interaction_id: snapshot.activity.interaction_id,
            output_seq: snapshot.activity.output_seq,
            start_cursor: snapshot.activity.interaction_cursor,
            end_cursor: snapshot.retained_end,
        }
    }

    /// Whether these are the bytes that were read before but for ranges that are no longer
    /// retained.
    pub open spec fn forgot(&self, before: Observation, retained_start: u64) -> bool {
        forall|x: int|
            #[trigger] self.saw(x) == (before.saw(x) && (x >= retained_start || before.saw_all(
                x,
                retained_start + 1,
            )))
    }

    /// Forgets ranges that are no longer retained.
    fn forget(&mut self, retained_start: u64)
        requires
            old(self).wf(),
        ensures
            final(self).wf(),
            final(self).forgot(*old(self), retained_start),
            final(self).notified() == old(self).notified(),
    {
        let ghost before = self.ranges@;
        let mut i: usize = 0;
        while i < self.ranges.len() && self.ranges[i].1 <= retained_start
            invariant
                i <= self.ranges@.len(),
                self.ranges@ == before,
                separate(before),
                forall|k: int| 0 <= k < i ==> #[trigger] before[k].1 <= retained_start,
                self.notified == old(self).notified,
            decreases self.ranges@.len() - i,
        {
            i += 1;
        }
        let kept = self.ranges.split_off(i);
        self.ranges = kept;
        proof {
            let after = self.ranges@;
            assert(after == before.skip(i as int));
            assert(separate(after));
            assert forall|x: int| #[trigger] self.saw(x) == (old(self).saw(x) && (x
                >= retained_start || old(self).saw_all(x, retained_start + 1))) by {
                if in_ranges(after, x) {
                    let k = choose|k: int|
                        0 <= k < after.len() && #[trigger] after[k].0 <= x < after[k].1;
                    let (a, b) = before[k + i];
                    assert(before[k + i].0 <= x < before[k + i].1);
                    assert(old(self).saw(x));
                    if x < retained_start {
                        assert(b > retained_start) by {
                            if k > 0 {
                                assert(before[i as int].1 < before[k + i].0);
                                assert(before[i as int].1 > retained_start);
                            }
                        }
                        assert forall|y: int| x <= y < retained_start + 1 implies #[trigger] old(
                            self,
                        ).saw(y) by {
                            assert(before[k + i].0 <= y < before[k + i].1);
                        }
                    }
                }
                if in_ranges(before, x) && (x >= retained_start || old(self).saw_all(
                    x,
                    retained_start + 1,
                )) {
                    let k = choose|k: int|
                        0 <= k < before.len() && #[trigger] before[k].0 <= x < before[k].1;
                    if k < i {
                        assert(x < retained_start);
                        // The byte just behind the range was read too, which the gap excludes.
                        let y = before[k].1 as int;
                        assert(old(self).saw(y));
                        let j = choose|j: int|
                            0 <= j < before.len() && #[trigger] before[j].0 <= y < before[j].1;
                        if j > k {
                            assert(before[k].1 < before[j].0);
                        } else if j < k {
                            assert(before[j].1 < before[k].0);
                        }
                        assert(false);
                    }
                    assert(after[k - i] == before[k]);
                    assert(after[k - i].0 <= x < after[k - i].1);
                }
            }
        }
    }

    /// Whether one of the ranges holds all bytes between two cursors.
    fn holds(&self, start: u64, end: u64) -> (r: bool)
        requires
            self.wf(),
            start < end,
        ensures
            r == self.saw_all(start as int, end as int),
    {
        let mut i: usize = 0;
        while i < self.ranges.len()
            invariant
                i <= self.ranges@.len(),
                start < end,
                forall|k: int|
                    0 <= k < i ==> !(#[trigger] self.ranges@[k].0 <= start && self.ranges@[k].1
                        >= end),
            decreases self.ranges@.len() - i,
        {
            let (a, b) = self.ranges[i];
            if a <= start && b >= end {
                assert forall|x: int| start <= x < end implies #[trigger] self.saw(x) by {
                    assert(self.ranges@[i as int].0 <= x < self.ranges@[i as int].1);
                }
                return true;
            }
            i += 1;
        }
        proof {
            if self.saw_all(start as int, end as int) {
                assert(self.saw(start as int));
                let k = choose|k: int|
                    0 <= k < self.ranges@.len() && #[trigger] self.ranges@[k].0 <= start
                        < self.ranges@[k].1;
                let y = self.ranges@[k].1 as int;
                assert(y < end);
                assert(self.saw(y));
                let j = choose|j: int|
                    0 <= j < self.ranges@.len() && #[trigger] self.ranges@[j].0 <= y
                        < self.ranges@[j].1;
                if j > k {
                    assert(self.ranges@[k].1 < self.ranges@[j].0);
                } else if j < k {
                    assert(self.ranges@[j].1 < self.ranges@[k].0);
                }
                assert(false);
            }
        }
        false
    }

    /// The reminder that is due about the session, if one is. Ranges that are no longer retained
    /// never count as read and need not accumulate forever.
    pub fn candidate(&mut self, snapshot: &Snapshot, now: Nanos) -> (candidate: Option<Candidate>)
        requires
            old(self).wf(),
        ensures
            final(self).wf(),
            final(self).forgot(*old(self), snapshot.retained_start),
            final(self).notified() == old(self).notified(),
            candidate == if final(self).due(*snapshot, now) {
                Some(Self::reminder(*snapshot))
            } else {
                None
            },
    {
        self.forget(snapshot.retained_start);
        let activity = &snapshot.activity;
        if snapshot.state != SessionState::Running || snapshot.ending || activity.pending_inputs
            != 0 {
            return None;
        }
        if let Some(latest) = self.notified {
            if latest == activity.interaction_id {
                return None;
            }
        }
        let has_output = activity.output_seq > activity.interaction_output_seq;
        let silence = if has_output {
            match activity.last_output_at {
                Some(last) => now.saturating_sub(last) >= OUTPUT_SILENCE,
                None => false,
            }
        } else {
            now.saturating_sub(activity.interaction_at) >= EMPTY_SILENCE
        };
        if !silence {
            return None;
        }
        let start = activity.interaction_cursor;
        let end = snapshot.retained_end;
        // Output without visible bytes leaves nothing to inspect, so it remains eligible.
        if has_output && start < end && self.holds(start, end) {
            return None;
        }
        Some(
            Candidate {
                interaction_id: activity.interaction_id,
                output_seq: activity.output_seq,
                start_cursor: start,
                end_cursor: end,
            },
        )
    }

    /// Gives a reminder that was due before, unless anything changed since.
    pub fn claim(&mut self, snapshot: &Snapshot, candidate: &Candidate, now: Nanos) -> (claimed:
        bool)
        requires
            old(self).wf(),
        ensures
            final(self).wf(),
            final(self).forgot(*old(self), snapshot.retained_start),
            claimed == (final(self).overdue(*snapshot, now) && old(self).notified() != Some(
                snapshot.activity.interaction_id,
            ) && *candidate == Self::reminder(*snapshot)),
            claimed ==> final(self).notified() == Some(
                if old(self).notified() is Some && old(self).notified()->0
                    > candidate.interaction_id {
                    old(self).notified()->0
                } else {
                    candidate.interaction_id
                },
            ),
            !claimed ==> final(self).notified() == old(self).notified(),
    {
        let current = self.candidate(snapshot, now);
        let ghost kept = *self;
        if current.is_none() || current.unwrap() != *candidate {
            return false;
        }
        self.notice_delivered(candidate.interaction_id);
        assert(kept.caught_up(*snapshot) == self.caught_up(*snapshot)) by {
            assert forall|x: int| #[trigger] kept.saw(x) == self.saw(x) by {}
        }
        true
    }
}

/// An interaction that a reminder was given about is not given another, whatever is read, written
/// or output meanwhile, while it is the current one.
pub proof fn law_one_reminder_per_interaction(
    observation: Observation,
    snapshot: Snapshot,
    now: Nanos,
)
    requires
        observation.wf(),
        observation.notified() == Some(snapshot.activity.interaction_id),
    ensures
        !observation.due(snapshot, now),
{
}

/// No reminder is due before 30 seconds of silence after output, or 90 seconds without any.
pub proof fn law_no_reminder_before_its_time(
    observation: Observation,
    snapshot: Snapshot,
    now: Nanos,
)
    requires
        observation.wf(),
        snapshot.activity.output_seq > snapshot.activity.interaction_output_seq ==> (
        snapshot.activity.last_output_at is Some && now < snapshot.activity.last_output_at->0
            + OUTPUT_SILENCE),
        snapshot.activity.output_seq <= snapshot.activity.interaction_output_seq ==> now
            < snapshot.activity.interaction_at + EMPTY_SILENCE,
    ensures
        !observation.due(snapshot, now),
{
}

/// Whoever has read all output of the interaction is not reminded of it, in whatever pieces and
/// order it was read.
pub proof fn law_read_output_needs_no_reminder(
    observation: Observation,
    snapshot: Snapshot,
    now: Nanos,
)
    requires
        observation.wf(),
        snapshot.activity.output_seq > snapshot.activity.interaction_output_seq,
        snapshot.activity.interaction_cursor < snapshot.retained_end,
        observation.saw_all(
            snapshot.activity.interaction_cursor as int,
            snapshot.retained_end as int,
        ),
    ensures
        !observation.due(snapshot, now),
{
}

/// Resizing a session and looking at it do not delay a reminder: whether one is due does not
/// depend on its size or on its times of day.
pub proof fn law_metadata_does_not_matter(
    observation: Observation,
    snapshot: Snapshot,
    other: Snapshot,
    now: Nanos,
)
    requires
        other.state == snapshot.state,
        other.ending == snapshot.ending,
        other.activity == snapshot.activity,
        other.retained_start == snapshot.retained_start,
        other.retained_end == snapshot.retained_end,
    ensures
        observation.due(other, now) == observation.due(snapshot, now),
        Observation::reminder(other) == Observation::reminder(snapshot),
{
}

/// Reading old output or skipping some acknowledges nothing that was not read: while one byte of
/// the interaction is unread, a reminder that was due stays due.
pub proof fn law_skipped_output_is_not_acknowledged(
    before: Observation,
    after: Observation,
    start: u64,
    end: u64,
    skipped: int,
    snapshot: Snapshot,
    now: Nanos,
)
    requires
        before.wf(),
        forall|x: int| #[trigger] after.saw(x) == (before.saw(x) || start <= x < end),
        after.notified() == before.notified(),
        before.due(snapshot, now),
        snapshot.activity.interaction_cursor <= skipped < snapshot.retained_end,
        !before.saw(skipped),
        !(start <= skipped < end),
    ensures
        after.due(snapshot, now),
{
    assert(!after.saw(skipped));
}

/// A read that returned nothing does not change whether a reminder is due.
pub proof fn law_empty_reads_do_not_matter(
    before: Observation,
    after: Observation,
    start: u64,
    end: u64,
    snapshot: Snapshot,
    now: Nanos,
)
    requires
        start >= end,
        forall|x: int| #[trigger] after.saw(x) == (before.saw(x) || start <= x < end),
        after.notified() == before.notified(),
    ensures
        after.due(snapshot, now) == before.due(snapshot, now),
{
    let from = snapshot.activity.interaction_cursor as int;
    let to = snapshot.retained_end as int;
    if before.saw_all(from, to) {
        assert forall|x: int| from <= x < to implies #[trigger] after.saw(x) by {
            assert(before.saw(x));
        }
    }
    if after.saw_all(from, to) {
        assert forall|x: int| from <= x < to implies #[trigger] before.saw(x) by {
            assert(after.saw(x));
        }
    }
}

/// A reminder is due exactly where a session runs and is not ending, no input is under way, the
/// interaction has been silent for 30 seconds since its last output, or for 90 seconds since it began
/// where it had none, some of its output is unread, or it had none that can be read, and none was
/// given about it.
pub proof fn law_when_a_reminder_is_due(observation: Observation, snapshot: Snapshot, now: Nanos)
    ensures
        ({
            let activity = snapshot.activity;
            let output = activity.output_seq > activity.interaction_output_seq;
            let unread = activity.interaction_cursor >= snapshot.retained_end || exists|x: int|
                activity.interaction_cursor <= x < snapshot.retained_end
                    && !#[trigger] observation.saw(x);
            let silent = if output {
                activity.last_output_at matches Some(last) && now >= last + 30_000_000_000
            } else {
                now >= activity.interaction_at + 90_000_000_000
            };
            observation.due(snapshot, now) <==> {
                &&& snapshot.state is Running
                &&& !snapshot.ending
                &&& activity.pending_inputs == 0
                &&& silent
                &&& !output || unread
                &&& observation.notified() != Some(activity.interaction_id)
            }
        }),
{
    let activity = snapshot.activity;
    let (from, to) = (activity.interaction_cursor as int, snapshot.retained_end as int);
    if observation.saw_all(from, to) {
        assert forall|x: int| from <= x < to implies #[trigger] observation.saw(x) by {}
    }
}

/// A reminder is about the current interaction, and about all its output up to now.
pub proof fn law_what_a_reminder_is_about(snapshot: Snapshot)
    ensures
        ({
            let reminder = Observation::reminder(snapshot);
            &&& reminder.interaction_id == snapshot.activity.interaction_id
            &&& reminder.output_seq == snapshot.activity.output_seq
            &&& reminder.start_cursor == snapshot.activity.interaction_cursor
            &&& reminder.end_cursor == snapshot.retained_end
        }),
{
}

/// What was read stays read while any of it is retained together with what follows, and what was not
/// read never counts as read.
pub proof fn law_forgetting_keeps_what_is_retained(
    before: Observation,
    after: Observation,
    retained_start: u64,
    x: int,
)
    requires
        after.forgot(before, retained_start),
    ensures
        x >= retained_start ==> after.saw(x) == before.saw(x),
        !before.saw(x) ==> !after.saw(x),
{
}

/// What is read counts as read from then on, and nothing else does; a reminder that was given is
/// remembered unless a later interaction had one.
pub proof fn law_reading_and_reminding_are_noted()
    ensures
        forall|observation: &mut Observation, start: u64, end: u64, unit: (), x: int|
            #[trigger] call_ensures(Observation::read, (observation, start, end), unit) ==> (
            #[trigger] final(observation).saw(x) <==> observation.saw(x) || start <= x < end)
                && final(observation).notified() == observation.notified(),
        forall|observation: &mut Observation, id: u64, unit: (), x: int|
            #[trigger] call_ensures(Observation::notice_delivered, (observation, id), unit) ==> (
            #[trigger] final(observation).saw(x) <==> observation.saw(x)) && final(
                observation
            ).notified() is Some && final(observation).notified()->0 >= id && (final(
                observation
            ).notified()->0 == id || final(observation).notified() == observation.notified()),
{
}

/// A reminder is found exactly where one is due by what is then remembered, and it is claimed exactly
/// where it is still the one that is due, after which none is due about its interaction.
pub proof fn law_reminders_are_claimed_once()
    ensures
        forall|
            observation: &mut Observation,
            snapshot: &Snapshot,
            now: Nanos,
            found: Option<Candidate>,
        |
            #[trigger] call_ensures(Observation::candidate, (observation, snapshot, now), found)
                ==> {
                &&& found is Some <==> final(observation).due(*snapshot, now)
                &&& found is Some ==> found->0 == Observation::reminder(*snapshot)
                &&& final(observation).notified() == observation.notified()
            },
        forall|
            observation: &mut Observation,
            snapshot: &Snapshot,
            candidate: &Candidate,
            now: Nanos,
            claimed: bool,
        |
            #[trigger] call_ensures(
                Observation::claim,
                (observation, snapshot, candidate, now),
                claimed,
            ) ==> {
                &&& claimed ==> *candidate == Observation::reminder(*snapshot)
                &&& claimed ==> final(observation).overdue(*snapshot, now)
                &&& claimed ==> observation.notified() != Some(snapshot.activity.interaction_id)
                &&& claimed && (observation.notified() is None || observation.notified()->0
                    < snapshot.activity.interaction_id) ==> final(observation).notified() == Some(
                    snapshot.activity.interaction_id,
                ) && !final(observation).due(*snapshot, now)
                &&& !claimed ==> final(observation).notified() == observation.notified()
                &&& !claimed && *candidate == Observation::reminder(*snapshot) ==> !final(
                    observation
                ).due(*snapshot, now)
            },
{
}

} // verus!
