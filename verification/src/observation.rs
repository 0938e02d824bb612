//! What the reader of a session has acknowledged, and whether a reminder about it may be given.
use crate::silence::{Candidate, Observation};
use crate::text::same;
use crate::types::{elapsed, Nanos, Snapshot};
use vstd::prelude::*;

verus! {

/// How long a returned read keeps a competing reminder back while it is being acknowledged.
pub const RESPONSE_ACK_WINDOW: Nanos = 2_000_000_000;

/// How many returned reads are remembered.
pub const MOST_RECEIPTS: usize = 128;

/// A read that was returned and can be acknowledged: the range it covered, and the reminder that
/// came with it.
#[derive(Debug)]
pub struct Receipt {
    pub id: String,
    pub start: u64,
    pub end: u64,
    pub notice: Option<Candidate>,
    pub at: Nanos,
}

impl Receipt {
    /// Whether the receipt keeps a reminder back: it is recent, and it carried a reminder about the
    /// same interaction or covers the output that the reminder is about.
    pub open spec fn keeps_back(&self, candidate: Candidate, now: Nanos) -> bool {
        &&& elapsed(self.at, now) < RESPONSE_ACK_WINDOW
        &&& {
            ||| self.notice is Some && self.notice->0.interaction_id == candidate.interaction_id
            ||| candidate.start_cursor < candidate.end_cursor && self.start
                <= candidate.start_cursor && self.end >= candidate.end_cursor
        }
    }

    fn withholds(&self, candidate: &Candidate, now: Nanos) -> (r: bool)
        ensures
            r == self.keeps_back(*candidate, now),
    {
        if now.saturating_sub(self.at) >= RESPONSE_ACK_WINDOW {
            return false;
        }
        if let Some(notice) = &self.notice {
            if notice.interaction_id == candidate.interaction_id {
                return true;
            }
        }
        candidate.start_cursor < candidate.end_cursor && self.start <= candidate.start_cursor
            && self.end >= candidate.end_cursor
    }
}

/// What has been read of a session and acknowledged, and what was returned and is not acknowledged
/// yet, oldest first.
pub struct ObservationState {
    pub observed: Observation,
    pub receipts: Vec<Receipt>,
}

impl Default for ObservationState {
    fn default() -> (state: Self)
        ensures
            state.wf(),
            state.receipts@.len() == 0,
            forall|x: int| !state.observed.saw(x),
            state.observed.notified() is None,
    {
        ObservationState { observed: Observation::default(), receipts: Vec::new() }
    }
}

/// The newest receipts.
pub open spec fn newest(receipts: Seq<Receipt>) -> Seq<Receipt> {
    if receipts.len() > MOST_RECEIPTS {
        receipts.skip(receipts.len() - MOST_RECEIPTS)
    } else {
        receipts
    }
}

/// Where the first receipt with the given name is, from the `i`th on.
pub open spec fn receipt_at(receipts: Seq<Receipt>, id: Seq<char>, i: int) -> Option<int>
    decreases receipts.len() - i,
{
    if i < 0 || i >= receipts.len() {
        None
    } else if receipts[i].id@ == id {
        Some(i)
    } else {
        receipt_at(receipts, id, i + 1)
    }
}

/// Whether every receipt has a name of its own.
pub open spec fn distinct(receipts: Seq<Receipt>) -> bool {
    forall|i: int, j: int|
        0 <= i < j < receipts.len() ==> (#[trigger] receipts[i]).id@ != (
        #[trigger] receipts[j]).id@
}

/// The receipts but for the one with the given name.
pub open spec fn without(receipts: Seq<Receipt>, id: Seq<char>) -> Seq<Receipt> {
    match receipt_at(receipts, id, 0) {
        None => receipts,
        Some(at) => receipts.remove(at),
    }
}

proof fn lemma_receipt_at(receipts: Seq<Receipt>, id: Seq<char>, i: int)
    requires
        0 <= i,
    ensures
        match receipt_at(receipts, id, i) {
            None => forall|k: int| i <= k < receipts.len() ==> (#[trigger] receipts[k]).id@ != id,
            Some(at) => i <= at < receipts.len() && receipts[at].id@ == id && forall|k: int|
                i <= k < at ==> (#[trigger] receipts[k]).id@ != id,
        },
    decreases receipts.len() - i,
{
    if i < receipts.len() && receipts[i].id@ != id {
        lemma_receipt_at(receipts, id, i + 1);
    }
}

proof fn lemma_without(receipts: Seq<Receipt>, id: Seq<char>)
    requires
        distinct(receipts),
    ensures
        distinct(without(receipts, id)),
        without(receipts, id).len() <= receipts.len(),
        forall|k: int|
            0 <= k < without(receipts, id).len() ==> (#[trigger] without(receipts, id)[k]).id@
                != id,
        receipt_at(without(receipts, id), id, 0) is None,
{
    lemma_receipt_at(receipts, id, 0);
    let rest = without(receipts, id);
    if let Some(at) = receipt_at(receipts, id, 0) {
        assert forall|k: int| 0 <= k < rest.len() implies #[trigger] rest[k] == receipts[if k < at {
            k
        } else {
            k + 1
        }] by {}
        assert forall|k: int| 0 <= k < rest.len() implies (#[trigger] rest[k]).id@ != id by {
            if k >= at {
                assert(receipts[at].id@ != receipts[k + 1].id@);
            }
        }
    }
    lemma_receipt_at(rest, id, 0);
}

proof fn lemma_newest(receipts: Seq<Receipt>)
    requires
        distinct(receipts),
    ensures
        distinct(newest(receipts)),
        receipts.len() > 0 ==> newest(receipts).len() > 0 && newest(receipts).last()
            == receipts.last(),
{
    let n = receipts.len() - MOST_RECEIPTS;
    if n > 0 {
        let kept = newest(receipts);
        assert forall|k: int| 0 <= k < kept.len() implies #[trigger] kept[k] == receipts[k + n] by {}
    }
}

impl ObservationState {
    pub open spec fn wf(&self) -> bool {
        &&& self.observed.wf()
        &&& self.receipts@.len() <= MOST_RECEIPTS
        &&& distinct(self.receipts@)
    }

    fn find(&self, id: &str) -> (r: Option<usize>)
        ensures
            match r {
                Some(at) => receipt_at(self.receipts@, id@, 0) == Some(at as int) && at
                    < self.receipts@.len(),
                None => receipt_at(self.receipts@, id@, 0) is None,
            },
    {
        let mut i: usize = 0;
        while i < self.receipts.len()
            invariant
                i <= self.receipts@.len(),
                receipt_at(self.receipts@, id@, 0) == receipt_at(self.receipts@, id@, i as int),
            decreases self.receipts@.len() - i,
        {
            if same(self.receipts[i].id.as_str(), id) {
                return Some(i);
            }
            i += 1;
        }
        None
    }

    /// Whether a returned read keeps the reminder back.
    pub open spec fn kept_back(&self, candidate: Candidate, now: Nanos) -> bool {
        exists|i: int|
            0 <= i < self.receipts@.len() && (#[trigger] self.receipts@[i]).keeps_back(
                candidate,
                now,
            )
    }

    fn is_kept_back(&self, candidate: &Candidate, now: Nanos) -> (r: bool)
        ensures
            r == self.kept_back(*candidate, now),
    {
        let mut i: usize = 0;
        while i < self.receipts.len()
            invariant
                i <= self.receipts@.len(),
                forall|k: int|
                    0 <= k < i ==> !(#[trigger] self.receipts@[k]).keeps_back(*candidate, now),
            decreases self.receipts@.len() - i,
        {
            if self.receipts[i].withholds(candidate, now) {
                return true;
            }
            i += 1;
        }
        false
    }

    /// The reminder that is due about the session and not kept back by a returned read.
    pub fn candidate(&mut self, snapshot: &Snapshot, now: Nanos) -> (candidate: Option<Candidate>)
        requires
            old(self).wf(),
        ensures
            final(self).wf(),
            final(self).receipts@ == old(self).receipts@,
            final(self).observed.forgot(old(self).observed, snapshot.retained_start),
            final(self).observed.notified() == old(self).observed.notified(),
            candidate == if final(self).observed.due(*snapshot, now) && !old(self).kept_back(
                Observation::reminder(*snapshot),
                now,
            ) {
                Some(Observation::reminder(*snapshot))
            } else {
                None
            },
    {
        let found = self.observed.candidate(snapshot, now);
        assert(self.receipts == old(self).receipts);
        match found {
            None => None,
            Some(candidate) => {
                if self.is_kept_back(&candidate, now) {
                    None
                } else {
                    Some(candidate)
                }
            },
        }
    }

    /// Gives a reminder that was due before, unless anything changed since.
    pub fn claim(&mut self, snapshot: &Snapshot, candidate: &Candidate, now: Nanos) -> (claimed:
        bool)
        requires
            old(self).wf(),
        ensures
            final(self).wf(),
            final(self).receipts@ == old(self).receipts@,
            final(self).observed.forgot(old(self).observed, snapshot.retained_start),
            claimed == (final(self).observed.overdue(*snapshot, now)
                && old(self).observed.notified() != Some(snapshot.activity.interaction_id)
                && !old(self).kept_back(*candidate, now) && *candidate == Observation::reminder(
                *snapshot,
            )),
            claimed ==> final(self).observed.notified() == Some(
                if old(self).observed.notified() is Some && old(self).observed.notified()->0
                    > candidate.interaction_id {
                    old(self).observed.notified()->0
                } else {
                    candidate.interaction_id
                },
            ),
            !claimed ==> final(self).observed.notified() == old(self).observed.notified(),
    {
        if self.is_kept_back(candidate, now) {
            let _ = self.observed.candidate(snapshot, now);
            return false;
        }
        self.observed.claim(snapshot, candidate, now)
    }

    /// Notes that a read was returned, and says which reminder goes with it. An earlier read with
    /// the same name, which could not be told from it, is given up.
    pub fn issue(&mut self, id: String, start: u64, end: u64, snapshot: &Snapshot, now: Nanos) -> (
    notice: Option<Candidate>)
        requires
            old(self).wf(),
        ensures
            final(self).wf(),
            final(self).receipts@ == newest(
                without(old(self).receipts@, id@).push(Receipt { id, start, end, notice, at: now }),
            ),
            final(self).observed.forgot(old(self).observed, snapshot.retained_start),
            final(self).observed.notified() == old(self).observed.notified(),
            notice == if final(self).observed.due(*snapshot, now) && !old(self).kept_back(
                Observation::reminder(*snapshot),
                now,
            ) {
                Some(Observation::reminder(*snapshot))
            } else {
                None
            },
    {
        let notice = self.candidate(snapshot, now);
        proof {
            lemma_without(self.receipts@, id@);
        }
        if let Some(at) = self.find(id.as_str()) {
            let _ = self.receipts.remove(at);
        }
        assert(self.receipts@ == without(old(self).receipts@, id@));
        self.receipts.push(Receipt { id, start, end, notice, at: now });
        let ghost pushed = self.receipts@;
        proof {
            lemma_newest(pushed);
        }
        if self.receipts.len() > MOST_RECEIPTS {
            let _ = self.receipts.remove(0);
            assert(self.receipts@ =~= newest(pushed));
        }
        notice
    }

    /// Whether this is what is left once a returned read was acknowledged.
    pub open spec fn acknowledged(&self, after: ObservationState, id: Seq<char>) -> bool {
        match receipt_at(self.receipts@, id, 0) {
            None => after == *self,
            Some(at) => {
                let receipt = self.receipts@[at];
                &&& after.receipts@ == self.receipts@.remove(at)
                &&& forall|x: int|
                    #[trigger] after.observed.saw(x) == (self.observed.saw(x) || receipt.start <= x
                        < receipt.end)
                &&& after.observed.notified() == match receipt.notice {
                    None => self.observed.notified(),
                    Some(notice) => Some(
                        if self.observed.notified() is Some && self.observed.notified()->0
                            > notice.interaction_id {
                            self.observed.notified()->0
                        } else {
                            notice.interaction_id
                        },
                    ),
                }
            },
        }
    }

    /// Acknowledges a returned read: its range has been read, and its reminder given. A receipt that
    /// is not known changes nothing.
    pub fn observe(&mut self, id: &str)
        requires
            old(self).wf(),
        ensures
            final(self).wf(),
            old(self).acknowledged(*final(self), id@),
    {
        proof {
            lemma_without(self.receipts@, id@);
        }
        if let Some(at) = self.find(id) {
            let receipt = self.receipts.remove(at);
            self.observed.read(receipt.start, receipt.end);
            if let Some(notice) = receipt.notice {
                let ghost before = self.observed;
                self.observed.notice_delivered(notice.interaction_id);
                assert(forall|x: int| #[trigger] before.saw(x) == self.observed.saw(x));
            }
        }
    }
}

/// A returned read is acknowledged once: doing it again changes nothing.
pub proof fn law_second_acknowledgement_changes_nothing(
    before: ObservationState,
    once: ObservationState,
    twice: ObservationState,
    id: Seq<char>,
)
    requires
        before.wf(),
        before.acknowledged(once, id),
        once.acknowledged(twice, id),
    ensures
        twice == once,
{
    lemma_without(before.receipts@, id);
    assert(once.receipts@ == without(before.receipts@, id));
}

/// Acknowledging a read that was never returned, or is no longer remembered, changes nothing.
pub proof fn law_unknown_receipts_change_nothing(
    before: ObservationState,
    after: ObservationState,
    id: Seq<char>,
)
    requires
        forall|i: int|
            0 <= i < before.receipts@.len() ==> (#[trigger] before.receipts@[i]).id@ != id,
        before.acknowledged(after, id),
    ensures
        after == before,
{
    lemma_receipt_at(before.receipts@, id, 0);
}

/// The read that was returned last, once acknowledged, counts as read in exactly its range, and its
/// reminder as given.
pub proof fn law_acknowledged_reads_count(before: ObservationState, after: ObservationState)
    requires
        before.wf(),
        before.receipts@.len() > 0,
        before.acknowledged(after, before.receipts@.last().id@),
    ensures
        ({
            let receipt = before.receipts@.last();
            &&& forall|x: int|
                #[trigger] after.observed.saw(x) == (before.observed.saw(x) || receipt.start <= x
                    < receipt.end)
            &&& receipt.notice is None ==> after.observed.notified() == before.observed.notified()
            &&& receipt.notice is Some ==> after.observed.notified() is Some
                && after.observed.notified()->0 >= receipt.notice->0.interaction_id
        }),
{
    let last = before.receipts@.len() - 1;
    lemma_receipt_at(before.receipts@, before.receipts@[last].id@, 0);
}

/// A returned read that nobody acknowledges keeps reminders back for two seconds only.
pub proof fn law_unacknowledged_receipts_expire(receipt: Receipt, candidate: Candidate, now: Nanos)
    requires
        now >= receipt.at + RESPONSE_ACK_WINDOW,
    ensures
        !receipt.keeps_back(candidate, now),
{
}

/// A reminder that went out with a read is not given again by the monitor while the read is being
/// acknowledged.
pub proof fn law_reminders_in_reads_hold_others_back(
    state: ObservationState,
    receipt: Receipt,
    snapshot: Snapshot,
    now: Nanos,
)
    requires
        state.wf(),
        state.receipts@.contains(receipt),
        receipt.notice is Some,
        receipt.notice->0.interaction_id == snapshot.activity.interaction_id,
        now < receipt.at + RESPONSE_ACK_WINDOW,
    ensures
        state.kept_back(Observation::reminder(snapshot), now),
{
    let i = choose|i: int| 0 <= i < state.receipts@.len() && state.receipts@[i] == receipt;
    assert(state.receipts@[i].keeps_back(Observation::reminder(snapshot), now));
}

/// A read that returned all output of an interaction holds its reminder back while the read is
/// being acknowledged.
pub proof fn law_returned_output_holds_reminders_back(
    state: ObservationState,
    receipt: Receipt,
    snapshot: Snapshot,
    now: Nanos,
)
    requires
        state.wf(),
        state.receipts@.contains(receipt),
        snapshot.activity.interaction_cursor < snapshot.retained_end,
        receipt.start <= snapshot.activity.interaction_cursor,
        receipt.end >= snapshot.retained_end,
        now < receipt.at + RESPONSE_ACK_WINDOW,
    ensures
        state.kept_back(Observation::reminder(snapshot), now),
{
    let i = choose|i: int| 0 <= i < state.receipts@.len() && state.receipts@[i] == receipt;
    assert(state.receipts@[i].keeps_back(Observation::reminder(snapshot), now));
}

/// A receipt keeps a reminder back for less than two seconds, and only one about the interaction that
/// it carried a reminder about, or about output that there is and that it covers from the first byte
/// to the last.
pub proof fn law_what_a_receipt_keeps_back(receipt: Receipt, candidate: Candidate, now: Nanos)
    ensures
        receipt.keeps_back(candidate, now) ==> now < receipt.at + 2_000_000_000,
        receipt.keeps_back(candidate, now) ==> {
            ||| receipt.notice matches Some(notice) && notice.interaction_id
                == candidate.interaction_id
            ||| forall|x: int|
                candidate.start_cursor <= x < candidate.end_cursor ==> #[trigger] in_range(
                    receipt.start,
                    receipt.end,
                    x,
                )
        },
        receipt.notice is None && candidate.start_cursor >= candidate.end_cursor
            ==> !receipt.keeps_back(candidate, now),
        now < receipt.at + 2_000_000_000 && candidate.start_cursor < candidate.end_cursor && (
        forall|x: int|
            candidate.start_cursor <= x < candidate.end_cursor ==> #[trigger] in_range(
                receipt.start,
                receipt.end,
                x,
            )) ==> receipt.keeps_back(candidate, now),
        now < receipt.at + 2_000_000_000 && (receipt.notice matches Some(notice)
            && notice.interaction_id == candidate.interaction_id) ==> receipt.keeps_back(
            candidate,
            now,
        ),
{
    if candidate.start_cursor < candidate.end_cursor && (forall|x: int|
        candidate.start_cursor <= x < candidate.end_cursor ==> #[trigger] in_range(
            receipt.start,
            receipt.end,
            x,
        )) {
        assert(in_range(receipt.start, receipt.end, candidate.start_cursor as int));
        assert(in_range(receipt.start, receipt.end, candidate.end_cursor - 1));
    }
}

/// Whether a byte lies between two cursors.
pub open spec fn in_range(start: u64, end: u64, x: int) -> bool {
    start <= x < end
}

/// The 128 receipts that came last are remembered, in the order in which they came.
pub proof fn law_the_latest_receipts_are_remembered(receipts: Seq<Receipt>)
    ensures
        receipts.len() <= 128 ==> newest(receipts) == receipts,
        receipts.len() > 128 ==> newest(receipts).len() == 128 && forall|i: int|
            0 <= i < 128 ==> #[trigger] newest(receipts)[i] == receipts[receipts.len() - 128 + i],
{
}

/// Giving up a name takes the receipt with that name away, and no other, and keeps the order of the
/// others.
pub proof fn law_only_the_named_receipt_is_given_up(receipts: Seq<Receipt>, id: Seq<char>)
    requires
        distinct(receipts),
    ensures
        forall|i: int|
            0 <= i < without(receipts, id).len() ==> (#[trigger] without(receipts, id)[i]).id@
                != id && receipts.contains(without(receipts, id)[i]),
        forall|i: int|
            0 <= i < receipts.len() && (#[trigger] receipts[i]).id@ != id ==> without(
                receipts,
                id,
            ).contains(receipts[i]),
        (forall|i: int| 0 <= i < receipts.len() ==> (#[trigger] receipts[i]).id@ != id) ==> without(
            receipts,
            id,
        ) == receipts,
        without(receipts, id).len() >= receipts.len() - 1,
{
    lemma_without(receipts, id);
    lemma_receipt_at(receipts, id, 0);
    let rest = without(receipts, id);
    if let Some(at) = receipt_at(receipts, id, 0) {
        assert forall|i: int| 0 <= i < rest.len() implies receipts.contains(#[trigger] rest[i]) by {
            assert(rest[i] == receipts[if i < at {
                i
            } else {
                i + 1
            }]);
        }
        assert forall|i: int|
            0 <= i < receipts.len() && (#[trigger] receipts[i]).id@ != id implies rest.contains(
            receipts[i],
        ) by {
            assert(rest[if i < at {
                i
            } else {
                i - 1
            }] == receipts[i]);
        }
    }
}

/// Whichever returned read is acknowledged, its own range counts as read and no other, its own
/// reminder as given, and it alone is no longer remembered.
pub proof fn law_any_receipt_can_be_acknowledged(
    before: ObservationState,
    after: ObservationState,
    at: int,
)
    requires
        before.wf(),
        0 <= at < before.receipts@.len(),
        before.acknowledged(after, before.receipts@[at].id@),
    ensures
        ({
            let receipt = before.receipts@[at];
            &&& forall|x: int|
                #[trigger] after.observed.saw(x) == (before.observed.saw(x) || receipt.start <= x
                    < receipt.end)
            &&& receipt.notice is None ==> after.observed.notified() == before.observed.notified()
            &&& receipt.notice matches Some(notice) ==> after.observed.notified() is Some && (
            after.observed.notified()->0 == notice.interaction_id || (before.observed.notified()
                == after.observed.notified() && before.observed.notified()->0
                > notice.interaction_id))
            &&& after.receipts@ == before.receipts@.remove(at)
        }),
{
    lemma_receipt_at(before.receipts@, before.receipts@[at].id@, 0);
}

/// A reminder is found where one is due and no returned read keeps it back, and is claimed only then.
/// Neither forgets a returned read.
pub proof fn law_returned_reads_keep_reminders_back()
    ensures
        forall|
            state: &mut ObservationState,
            snapshot: &Snapshot,
            now: Nanos,
            found: Option<Candidate>,
        |
            #[trigger] call_ensures(ObservationState::candidate, (state, snapshot, now), found) ==> {
                &&& found is Some <==> final(state).observed.due(*snapshot, now)
                    && !state.kept_back(Observation::reminder(*snapshot), now)
                &&& found is Some ==> found->0 == Observation::reminder(*snapshot)
                &&& final(state).receipts@ == state.receipts@
            },
        forall|
            state: &mut ObservationState,
            snapshot: &Snapshot,
            candidate: &Candidate,
            now: Nanos,
            claimed: bool,
        |
            #[trigger] call_ensures(
                ObservationState::claim,
                (state, snapshot, candidate, now),
                claimed,
            ) ==> {
                &&& claimed ==> !state.kept_back(*candidate, now)
                &&& claimed ==> *candidate == Observation::reminder(*snapshot)
                &&& claimed ==> final(state).observed.overdue(*snapshot, now)
                &&& claimed ==> final(state).observed.notified() is Some && final(
                    state
                ).observed.notified()->0 >= candidate.interaction_id
                &&& !claimed ==> final(state).observed.notified() == state.observed.notified()
                &&& final(state).receipts@ == state.receipts@
            },
{
}

/// A read that is returned is remembered last, with the range that it covered, the time and the
/// reminder that goes with it, which is the one that is due and not kept back. It counts neither as
/// read nor as a reminder given.
pub proof fn law_returned_reads_are_remembered()
    ensures
        forall|
            state: &mut ObservationState,
            id: String,
            start: u64,
            end: u64,
            snapshot: &Snapshot,
            now: Nanos,
            notice: Option<Candidate>,
        |
            #[trigger] call_ensures(
                ObservationState::issue,
                (state, id, start, end, snapshot, now),
                notice,
            ) ==> {
                let last = final(state).receipts@.last();
                &&& final(state).receipts@.len() > 0
                &&& last.id == id && last.start == start && last.end == end && last.at == now
                &&& last.notice == notice
                &&& notice is Some <==> final(state).observed.due(*snapshot, now)
                    && !state.kept_back(Observation::reminder(*snapshot), now)
                &&& notice is Some ==> notice->0 == Observation::reminder(*snapshot)
                &&& final(state).observed.notified() == state.observed.notified()
            },
{
    assert forall|
        state: &mut ObservationState,
        id: String,
        start: u64,
        end: u64,
        snapshot: &Snapshot,
        now: Nanos,
        notice: Option<Candidate>,
    |
        #[trigger] call_ensures(
            ObservationState::issue,
            (state, id, start, end, snapshot, now),
            notice,
        ) implies ({
        let last = final(state).receipts@.last();
        &&& final(state).receipts@.len() > 0
        &&& last.id == id && last.start == start && last.end == end && last.at == now
        &&& last.notice == notice
        &&& notice is Some <==> final(state).observed.due(*snapshot, now) && !state.kept_back(
            Observation::reminder(*snapshot),
            now,
        )
        &&& notice is Some ==> notice->0 == Observation::reminder(*snapshot)
        &&& final(state).observed.notified() == state.observed.notified()
    }) by {
        let all = without(state.receipts@, id@).push(Receipt { id, start, end, notice, at: now });
        assert(newest(all).last() == all.last());
    }
}

/// A returned read is acknowledged by its name.
pub proof fn law_reads_are_acknowledged_by_name()
    ensures
        forall|state: &mut ObservationState, id: &str, unit: ()|
            #[trigger] call_ensures(ObservationState::observe, (state, id), unit)
                ==> state.acknowledged(*final(state), id@),
{
}

/// A reminder is kept back exactly where one of the returned reads that are remembered keeps it back.
pub proof fn law_when_reminders_are_kept_back(
    state: ObservationState,
    candidate: Candidate,
    now: Nanos,
)
    ensures
        state.receipts@.len() == 0 ==> !state.kept_back(candidate, now),
        forall|receipt: Receipt| #[trigger]
            state.receipts@.contains(receipt) && receipt.keeps_back(candidate, now)
                ==> state.kept_back(candidate, now),
        state.kept_back(candidate, now) ==> exists|receipt: Receipt| #[trigger]
            state.receipts@.contains(receipt) && receipt.keeps_back(candidate, now),
{
    assert forall|receipt: Receipt| #[trigger]
        state.receipts@.contains(receipt) && receipt.keeps_back(candidate, now) implies
        state.kept_back(candidate, now) by {
        let i = choose|i: int| 0 <= i < state.receipts@.len() && state.receipts@[i] == receipt;
        assert(state.receipts@[i].keeps_back(candidate, now));
    }
    if state.kept_back(candidate, now) {
        let i = choose|i: int|
            0 <= i < state.receipts@.len() && (#[trigger] state.receipts@[i]).keeps_back(
                candidate,
                now,
            );
        assert(state.receipts@.contains(state.receipts@[i]));
    }
}

} // verus!
