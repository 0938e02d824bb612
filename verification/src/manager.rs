//! The sessions of one server: who owns them, how they are found and made room for.
use crate::control::ControlError;
use crate::entry::{observed, returned, Entry, EntryReport, ReadResult, Whose};
use crate::mcp::ReadMode;
use crate::platform::{Kill, ProcessError};
use crate::reading::{extractable, extracts, is_extractable, Extract};
use crate::runtime::{new_id, valid_id};
use crate::session::Session;
use crate::text::same;
use crate::types::{FinishReason, Nanos, SessionState, Snapshot, Termination};
use crate::MAX_SESSIONS;
use vstd::prelude::*;
use vstd::string::*;

verus! {

/// A live connection to the monitor of a host session.
#[derive(Debug)]
pub struct MonitorLink {
    pub host: String,
    pub link: u64,
}

/// The sessions of one server.
pub struct Manager<H> {
    pub instance: String,
    pub port: u16,
    pub entries: Vec<Entry<H>>,
    /// How many sessions are being started.
    pub starting: usize,
    pub links: Vec<MonitorLink>,
    pub next_link: u64,
    pub shutting_down: bool,
}

/// What has to be known of a session to make room: its state and when it was created.
pub struct Standing {
    pub state: SessionState,
    pub created_at_ms: u64,
}

impl<H> Manager<H> {
    pub open spec fn wf(&self) -> bool {
        &&& self.entries@.len() + self.starting <= MAX_SESSIONS
        &&& forall|i: int, j: int|
            0 <= i < j < self.entries@.len() ==> (#[trigger] self.entries@[i]).id@ != (
            #[trigger] self.entries@[j]).id@
        &&& forall|i: int| 0 <= i < self.entries@.len() ==> (
            #[trigger] self.entries@[i]).observation.wf()
        &&& forall|i: int|
            0 <= i < self.links@.len() ==> (#[trigger] self.links@[i]).link < self.next_link
    }

    /// A server without sessions that listens at the given port, under a new name.
    pub fn new(port: u16) -> (manager: Self)
        ensures
            manager.wf(),
            valid_id(manager.instance@),
            "inst_"@.is_prefix_of(manager.instance@),
            manager.port == port,
            manager.entries@.len() == 0,
            manager.starting == 0,
            manager.links@.len() == 0,
            !manager.shutting_down,
    {
        proof {
            reveal_strlit("inst_");
        }
        Manager {
            instance: new_id("inst_"),
            port,
            entries: Vec::new(),
            starting: 0,
            links: Vec::new(),
            next_link: 0,
            shutting_down: false,
        }
    }

    pub fn instance_id(&self) -> (id: &str)
        ensures
            id@ == self.instance@,
    {
        self.instance.as_str()
    }

    pub fn port(&self) -> (port: u16)
        ensures
            port == self.port,
    {
        self.port
    }

    /// Finds a session.
    pub fn get(&self, id: &str) -> (r: Result<usize, ControlError>)
        ensures
            match r {
                Ok(at) => at < self.entries@.len() && self.entries@[at as int].id@ == id@,
                Err(error) => error == ControlError::UnknownSession && forall|i: int|
                    0 <= i < self.entries@.len() ==> (#[trigger] self.entries@[i]).id@ != id@,
            },
    {
        let mut i: usize = 0;
        while i < self.entries.len()
            invariant
                i <= self.entries@.len(),
                forall|k: int| 0 <= k < i ==> (#[trigger] self.entries@[k]).id@ != id@,
            decreases self.entries@.len() - i,
        {
            if same(self.entries[i].id.as_str(), id) {
                return Ok(i);
            }
            i += 1;
        }
        Err(ControlError::UnknownSession)
    }

    /// The live connection to the monitor of a host session.
    pub fn live_link(&self, host: &str) -> (r: Option<u64>)
        ensures
            match r {
                Some(link) => exists|i: int|
                    0 <= i < self.links@.len() && (#[trigger] self.links@[i]).host@ == host@
                        && self.links@[i].link == link,
                None => forall|i: int|
                    0 <= i < self.links@.len() ==> (#[trigger] self.links@[i]).host@ != host@,
            },
    {
        let mut i: usize = 0;
        while i < self.links.len()
            invariant
                i <= self.links@.len(),
                forall|k: int| 0 <= k < i ==> (#[trigger] self.links@[k]).host@ != host@,
            decreases self.links@.len() - i,
        {
            if same(self.links[i].host.as_str(), host) {
                return Some(self.links[i].link);
            }
            i += 1;
        }
        None
    }

    /// Notes a new connection to the monitor of a host session.
    pub fn connected(&mut self, host: &str) -> (link: u64)
        requires
            old(self).wf(),
            old(self).next_link < u64::MAX,
        ensures
            final(self).wf(),
            link == old(self).next_link,
            final(self).links@.len() == old(self).links@.len() + 1,
            final(self).links@.drop_last() == old(self).links@,
            final(self).links@.last() == (MonitorLink {
                host: final(self).links@.last().host,
                link,
            }),
            final(self).links@.last().host@ == host@,
            *final(self) == (Manager {
                links: final(self).links,
                next_link: (link + 1) as u64,
                ..*old(self)
            }),
    {
        let link = self.next_link;
        self.links.push(MonitorLink { host: host.to_string(), link });
        self.next_link = link + 1;
        assert(self.links@.drop_last() =~= old(self).links@);
        link
    }

    /// Whether a connection to a monitor is live.
    pub open spec fn is_live(&self, link: u64) -> bool {
        exists|i: int| 0 <= i < self.links@.len() && (#[trigger] self.links@[i]).link == link
    }

    /// Checks whether a connection to a monitor is live.
    pub fn link_alive(&self, link: u64) -> (r: bool)
        ensures
            r == self.is_live(link),
    {
        let mut i: usize = 0;
        while i < self.links.len()
            invariant
                i <= self.links@.len(),
                forall|k: int| 0 <= k < i ==> (#[trigger] self.links@[k]).link != link,
            decreases self.links@.len() - i,
        {
            if self.links[i].link == link {
                return true;
            }
            i += 1;
        }
        false
    }

    /// Notes that a connection to a monitor broke. There is no way back: another connection gets
    /// another number.
    fn disconnected(&mut self, link: u64)
        requires
            old(self).wf(),
        ensures
            final(self).wf(),
            !final(self).is_live(link),
            forall|other: u64|
                other != link ==> #[trigger] final(self).is_live(other) == old(self).is_live(
                    other,
                ),
            *final(self) == (Manager { links: final(self).links, ..*old(self) }),
    {
        let mut kept: Vec<MonitorLink> = Vec::new();
        let ghost before = self.links@;
        let mut links: Vec<MonitorLink> = Vec::new();
        links.append(&mut self.links);
        while links.len() > 0
            invariant
                links@.len() <= before.len(),
                links@ == before.take(links@.len() as int),
                forall|i: int|
                    0 <= i < before.len() ==> (#[trigger] before[i]).link < self.next_link,
                forall|i: int|
                    0 <= i < kept@.len() ==> (#[trigger] kept@[i]).link != link
                        && before.contains(kept@[i]),
                forall|i: int|
                    links@.len() <= i < before.len() && (#[trigger] before[i]).link != link
                        ==> kept@.contains(before[i]),
            decreases links@.len(),
        {
            let ghost rest = links@;
            let ghost had = kept@;
            let last = links.pop().unwrap();
            assert(last == before[rest.len() - 1]);
            assert(links@ =~= before.take(links@.len() as int));
            if last.link != link {
                kept.push(last);
                assert(kept@ == had.push(before[rest.len() - 1]));
                assert(kept@[kept@.len() - 1] == before[rest.len() - 1]);
                assert forall|i: int|
                    links@.len() <= i < before.len() && (#[trigger] before[i]).link
                        != link implies kept@.contains(before[i]) by {
                    if i >= rest.len() {
                        assert(had.contains(before[i]));
                        let k = choose|k: int| 0 <= k < had.len() && had[k] == before[i];
                        assert(kept@[k] == before[i]);
                    }
                }
            }
        }
        self.links = kept;
        proof {
            assert forall|other: u64| other != link implies #[trigger] self.is_live(other) == old(
                self,
            ).is_live(other) by {
                if self.is_live(other) {
                    let i = choose|i: int|
                        0 <= i < kept@.len() && (#[trigger] kept@[i]).link == other;
                    assert(before.contains(kept@[i]));
                    let k = choose|k: int| 0 <= k < before.len() && before[k] == kept@[i];
                    assert(before[k].link == other);
                }
                if old(self).is_live(other) {
                    let i = choose|i: int|
                        0 <= i < before.len() && (#[trigger] before[i]).link == other;
                    assert(kept@.contains(before[i]));
                    let k = choose|k: int| 0 <= k < kept@.len() && kept@[k] == before[i];
                    assert(kept@[k].link == other);
                }
            }
        }
    }

    /// Whether a session can be given up to make room: it finished and nobody waits for it.
    pub open spec fn evictable(&self, standings: Seq<Standing>, i: int) -> bool {
        0 <= i < self.entries@.len() && standings[i].state == SessionState::Finished
            && !self.entries@[i].waiting
    }

    /// Whether this session is given up first: no other that can be given up was created earlier.
    pub open spec fn oldest(&self, standings: Seq<Standing>, i: int) -> bool {
        self.evictable(standings, i) && forall|j: int|
            #[trigger] self.evictable(standings, j) ==> standings[i].created_at_ms
                <= standings[j].created_at_ms
    }

    fn find_oldest(&self, standings: &Vec<Standing>) -> (r: Option<usize>)
        requires
            standings@.len() == self.entries@.len(),
        ensures
            match r {
                Some(at) => self.oldest(standings@, at as int),
                None => forall|i: int| !#[trigger] self.evictable(standings@, i),
            },
    {
        let mut best: Option<usize> = None;
        let mut i: usize = 0;
        while i < self.entries.len()
            invariant
                i <= self.entries@.len(),
                standings@.len() == self.entries@.len(),
                match best {
                    Some(at) => self.evictable(standings@, at as int) && forall|j: int|
                        j < i && #[trigger] self.evictable(standings@, j)
                            ==> standings@[at as int].created_at_ms
                            <= standings@[j].created_at_ms,
                    None => forall|j: int|
                        j < i ==> !#[trigger] self.evictable(standings@, j),
                },
            decreases self.entries@.len() - i,
        {
            if standings[i].state == SessionState::Finished && !self.entries[i].waiting {
                match best {
                    Some(at) => {
                        if standings[i].created_at_ms < standings[at].created_at_ms {
                            best = Some(i);
                        }
                    },
                    None => {
                        best = Some(i);
                    },
                }
            }
            i += 1;
        }
        best
    }

    /// Refuses to start sessions once the server shuts down.
    pub fn check_open(&self) -> (r: Result<(), ControlError>)
        ensures
            r == (if self.shutting_down {
                Err::<(), ControlError>(ControlError::ShuttingDown)
            } else {
                Ok(())
            }),
    {
        if self.shutting_down {
            Err(ControlError::ShuttingDown)
        } else {
            Ok(())
        }
    }

    /// Makes room for a session that is to be started. Where there is none, the oldest finished
    /// session that nobody waits for is given up and returned.
    pub fn reserve(&mut self, standings: &Vec<Standing>) -> (r: Result<
        Option<Entry<H>>,
        ControlError,
    >)
        requires
            old(self).wf(),
            standings@.len() == old(self).entries@.len(),
        ensures
            final(self).wf(),
            ({
                let full = old(self).entries@.len() + old(self).starting >= MAX_SESSIONS;
                match r {
                    Ok(None) => !full && *final(self) == (Manager {
                        starting: (old(self).starting + 1) as usize,
                        ..*old(self)
                    }),
                    Ok(Some(entry)) => full && exists|at: int|
                        #[trigger] old(self).oldest(standings@, at) && entry == old(
                            self,
                        ).entries@[at] && final(self).entries@ == old(self).entries@.remove(at)
                            && *final(self) == (Manager {
                            entries: final(self).entries,
                            starting: (old(self).starting + 1) as usize,
                            ..*old(self)
                        }),
                    Err(error) => error == ControlError::LimitReached && full && *final(self)
                        == *old(self) && forall|i: int|
                        !#[trigger] old(self).evictable(standings@, i),
                }
            }),
    {
        if self.entries.len() + self.starting < MAX_SESSIONS {
            self.starting = self.starting + 1;
            return Ok(None);
        }
        match self.find_oldest(standings) {
            Some(at) => {
                let ghost before = self.entries@;
                assert(old(self).oldest(standings@, at as int));
                let entry = self.entries.remove(at);
                self.starting = self.starting + 1;
                proof {
                    let after = self.entries@;
                    assert(after == before.remove(at as int));
                    assert forall|i: int| 0 <= i < after.len() implies #[trigger] after[i] == if i
                        < at {
                        before[i]
                    } else {
                        before[i + 1]
                    } by {}
                }
                Ok(Some(entry))
            },
            None => Err(ControlError::LimitReached),
        }
    }

    /// Notes that a session could not be started.
    pub fn abandon(&mut self)
        requires
            old(self).wf(),
            old(self).starting > 0,
        ensures
            final(self).wf(),
            *final(self) == (Manager { starting: (old(self).starting - 1) as usize, ..*old(self) }),
    {
        self.starting = self.starting - 1;
    }

    /// Takes in a session that was started. It is handed back, to be stopped, where its monitor is
    /// gone or the server shuts down by now.
    pub fn register(&mut self, entry: Entry<H>) -> (r: Result<(), Entry<H>>)
        requires
            old(self).wf(),
            old(self).starting > 0,
            entry.observation.wf(),
            forall|i: int|
                0 <= i < old(self).entries@.len() ==> (#[trigger] old(self).entries@[i]).id@
                    != entry.id@,
        ensures
            final(self).wf(),
            ({
                let accepted = old(self).is_live(entry.link) && !old(self).shutting_down;
                &&& r is Ok == accepted
                &&& r is Err ==> r->Err_0 == entry
                &&& final(self).entries@ == if accepted {
                    old(self).entries@.push(entry)
                } else {
                    old(self).entries@
                }
                &&& *final(self) == (Manager {
                    entries: final(self).entries,
                    starting: (old(self).starting - 1) as usize,
                    ..*old(self)
                })
            }),
    {
        let alive = self.link_alive(entry.link);
        self.starting = self.starting - 1;
        if !alive || self.shutting_down {
            return Err(entry);
        }
        self.entries.push(entry);
        Ok(())
    }

    /// Finds the sessions of a host session.
    pub fn owned_by(&self, host: &str) -> (found: Vec<usize>)
        ensures
            found@ == positions(
                self.entries@.len(),
                |i: int| self.entries@[i].host@ == host@,
            ),
    {
        let mut found: Vec<usize> = Vec::new();
        let ghost wanted = |i: int| self.entries@[i].host@ == host@;
        let mut i: usize = 0;
        while i < self.entries.len()
            invariant
                i <= self.entries@.len(),
                wanted == (|i: int| self.entries@[i].host@ == host@),
                found@ == positions(i as nat, wanted),
            decreases self.entries@.len() - i,
        {
            if same(self.entries[i].host.as_str(), host) {
                found.push(i);
            }
            i += 1;
        }
        found
    }

    /// Whether these are the reports on the sessions at the given positions, in that order.
    pub open spec fn lists(
        &self,
        snapshots: Seq<Snapshot>,
        order: Seq<usize>,
        reports: Seq<EntryReport>,
    ) -> bool {
        reports.len() == order.len() && forall|i: int|
            0 <= i < reports.len() ==> self.entries@[order[i] as int].describes(
                snapshots[order[i] as int],
                #[trigger] reports[i],
            )
    }

    /// Reports on one session, or on all from the oldest on.
    pub fn snapshots(&self, id: Option<&str>, snapshots: &Vec<Snapshot>) -> (r: Result<
        Vec<EntryReport>,
        ControlError,
    >)
        requires
            self.wf(),
            snapshots@.len() == self.entries@.len(),
        ensures
            match (id, r) {
                (Some(id), Ok(reports)) => reports@.len() == 1 && exists|at: int|
                    0 <= at < self.entries@.len() && (#[trigger] self.entries@[at]).id@ == id@
                        && self.entries@[at].describes(snapshots@[at], reports@[0]),
                (Some(id), Err(error)) => error == ControlError::UnknownSession && forall|i: int|
                    0 <= i < self.entries@.len() ==> (#[trigger] self.entries@[i]).id@ != id@,
                (None, Ok(reports)) => exists|order: Seq<usize>|
                    #[trigger] ordered(creation_times(snapshots@), order) && self.lists(
                        snapshots@,
                        order,
                        reports@,
                    ),
                (None, Err(_)) => false,
            },
    {
        let mut reports: Vec<EntryReport> = Vec::new();
        if let Some(id) = id {
            return match self.get(id) {
                Ok(at) => {
                    reports.push(self.entries[at].snapshot(&snapshots[at]));
                    assert(self.entries@[at as int].id@ == id@);
                    Ok(reports)
                },
                Err(error) => Err(error),
            };
        }
        let mut created: Vec<u64> = Vec::new();
        let mut i: usize = 0;
        while i < snapshots.len()
            invariant
                i <= snapshots@.len(),
                created@ == creation_times(snapshots@).take(i as int),
            decreases snapshots@.len() - i,
        {
            created.push(snapshots[i].created_at_ms);
            i += 1;
            assert(creation_times(snapshots@).take(i as int) == creation_times(snapshots@).take(
                i - 1,
            ).push(creation_times(snapshots@)[i - 1]));
        }
        assert(created@ == creation_times(snapshots@));
        let order = snapshots_order(&created);
        let mut k: usize = 0;
        while k < order.len()
            invariant
                k <= order@.len(),
                snapshots@.len() == self.entries@.len(),
                forall|i: int| 0 <= i < order@.len() ==> (#[trigger] order@[i]) < snapshots@.len(),
                reports@.len() == k,
                forall|i: int|
                    0 <= i < reports@.len() ==> self.entries@[order@[i] as int].describes(
                        snapshots@[order@[i] as int],
                        #[trigger] reports@[i],
                    ),
            decreases order@.len() - k,
        {
            let at: usize = order[k];
            reports.push(self.entries[at].snapshot(&snapshots[at]));
            k += 1;
        }
        assert(ordered(creation_times(snapshots@), order@));
        assert(self.lists(snapshots@, order@, reports@));
        Ok(reports)
    }

    /// Whether a session was read under its own name and a new receipt, or was not found.
    pub open spec fn reads(
        &self,
        after: Self,
        id: Seq<char>,
        session: Session,
        cursor: u64,
        max: usize,
        mode: ReadMode,
        now: Nanos,
        r: Result<ReadResult, ControlError>,
    ) -> bool {
        &&& after == (Manager { entries: after.entries, ..*self })
        &&& match r {
            Ok(result) => {
                &&& result.session_id@ == id
                &&& valid_id(result.receipt@)
                &&& "read_"@.is_prefix_of(result.receipt@)
                &&& result.state == session.snapshot.state
                &&& exists|at: int, found: Extract|
                    0 <= at < self.entries@.len() && (#[trigger] self.entries@[at]).id@ == id
                        && #[trigger] extracts(session, cursor, max, mode, found) && returned(
                        self.entries@[at],
                        after.entries@[at],
                        session,
                        cursor,
                        now,
                        found,
                        result,
                    ) && self.entries@[at].reports(
                        session.snapshot.termination,
                        result.termination,
                    ) && after.entries@[at] == (Entry {
                        observation: after.entries@[at].observation,
                        ..self.entries@[at]
                    }) && after.entries@ == self.entries@.update(at, after.entries@[at])
            },
            Err(error) => error == ControlError::UnknownSession && after == *self && forall|i: int|
                0 <= i < self.entries@.len() ==> (#[trigger] self.entries@[i]).id@ != id,
        }
    }

    /// Reads the output of a session under a new receipt.
    pub fn read(
        &mut self,
        id: &str,
        session: &Session,
        cursor: u64,
        max: usize,
        mode: ReadMode,
        now: Nanos,
    ) -> (r: Result<ReadResult, ControlError>)
        requires
            old(self).wf(),
            session.wf(),
            extractable(*session, cursor, max, mode),
        ensures
            final(self).wf(),
            old(self).reads(*final(self), id@, *session, cursor, max, mode, now, r),
    {
        proof {
            reveal_strlit("read_");
        }
        let at = match self.get(id) {
            Ok(at) => at,
            Err(error) => {
                return Err(error);
            },
        };
        let receipt = new_id("read_");
        let ghost before = self.entries@;
        let entry = &mut self.entries[at];
        let result = entry.read(session, cursor, max, mode, receipt, now);
        proof {
            assert(self.entries@ =~= before.update(at as int, self.entries@[at as int]));
            assert(before[at as int].id@ == id@);
        }
        Ok(result)
    }

    /// Reads the output of a session under a new receipt, where it can be rendered; otherwise
    /// nothing changes and nothing is returned.
    pub fn try_read(
        &mut self,
        id: &str,
        session: &Session,
        cursor: u64,
        max: usize,
        mode: ReadMode,
        now: Nanos,
    ) -> (r: Option<Result<ReadResult, ControlError>>)
        requires
            old(self).wf(),
            session.wf(),
        ensures
            final(self).wf(),
            match r {
                Some(result) => extractable(*session, cursor, max, mode) && old(self).reads(
                    *final(self),
                    id@,
                    *session,
                    cursor,
                    max,
                    mode,
                    now,
                    result,
                ),
                None => !extractable(*session, cursor, max, mode) && *final(self) == *old(self),
            },
    {
        if is_extractable(session, cursor, max, mode) {
            Some(self.read(id, session, cursor, max, mode, now))
        } else {
            None
        }
    }

    /// Whether a returned read of a session was acknowledged under its own name, or the session was
    /// not found.
    pub open spec fn observes(
        &self,
        after: Self,
        id: Seq<char>,
        receipt: Seq<char>,
        r: Result<(), ControlError>,
    ) -> bool {
        &&& after == (Manager { entries: after.entries, ..*self })
        &&& match r {
            Ok(()) => exists|at: int|
                0 <= at < self.entries@.len() && (#[trigger] self.entries@[at]).id@ == id
                    && observed(self.entries@[at], after.entries@[at], receipt) && after.entries@
                    == self.entries@.update(at, after.entries@[at]),
            Err(error) => error == ControlError::UnknownSession && after == *self && forall|i: int|
                0 <= i < self.entries@.len() ==> (#[trigger] self.entries@[i]).id@ != id,
        }
    }

    /// Acknowledges a returned read of a session.
    pub fn observe(&mut self, id: &str, receipt: &str) -> (r: Result<(), ControlError>)
        requires
            old(self).wf(),
        ensures
            final(self).wf(),
            old(self).observes(*final(self), id@, receipt@, r),
    {
        let at = match self.get(id) {
            Ok(at) => at,
            Err(error) => {
                return Err(error);
            },
        };
        let ghost before = self.entries@;
        let entry = &mut self.entries[at];
        entry.observation.observe(receipt);
        proof {
            assert(self.entries@ =~= before.update(at as int, self.entries@[at as int]));
            assert(before[at as int].id@ == id@);
        }
        Ok(())
    }

    /// Closes a session for its user. Returns the signal to send.
    pub fn close(&mut self, id: &str, session: &mut Session) -> (r: Result<
        Option<Result<Kill, ProcessError>>,
        ControlError,
    >)
        requires
            old(self).wf(),
            old(session).wf(),
        ensures
            final(self).wf(),
            final(session).wf(),
            old(self).stops(
                *final(self),
                id@,
                *old(session),
                *final(session),
                FinishReason::ExplicitClose,
                true,
                r,
            ),
    {
        let at = match self.get(id) {
            Ok(at) => at,
            Err(error) => {
                return Err(error);
            },
        };
        let ghost before = self.entries@;
        let entry = &mut self.entries[at];
        let signal = entry.close(session);
        proof {
            assert(self.entries@ =~= before.update(at as int, self.entries@[at as int]));
            assert(before[at as int].id@ == id@);
        }
        Ok(signal)
    }

    /// Terminates or kills the process tree of a session. Returns the signal to send.
    pub fn signal(&mut self, id: &str, session: &mut Session, force: bool) -> (r: Result<
        Option<Result<Kill, ProcessError>>,
        ControlError,
    >)
        requires
            old(self).wf(),
            old(session).wf(),
        ensures
            final(self).wf(),
            final(session).wf(),
            old(self).stops(
                *final(self),
                id@,
                *old(session),
                *final(session),
                if force {
                    FinishReason::Killed
                } else {
                    FinishReason::Terminated
                },
                force,
                r,
            ),
    {
        let at = match self.get(id) {
            Ok(at) => at,
            Err(error) => {
                return Err(error);
            },
        };
        let ghost before = self.entries@;
        let entry = &mut self.entries[at];
        let signal = entry.signal(session, force);
        proof {
            assert(self.entries@ =~= before.update(at as int, self.entries@[at as int]));
            assert(before[at as int].id@ == id@);
        }
        Ok(signal)
    }

    /// Whether a session was stopped under its own name for the given reason, or was not found.
    pub open spec fn stops(
        &self,
        after: Self,
        id: Seq<char>,
        before_session: Session,
        after_session: Session,
        core: FinishReason,
        force: bool,
        r: Result<Option<Result<Kill, ProcessError>>, ControlError>,
    ) -> bool {
        match r {
            Err(error) => {
                &&& error == ControlError::UnknownSession
                &&& after == *self
                &&& after_session == before_session
                &&& forall|i: int|
                    0 <= i < self.entries@.len() ==> (#[trigger] self.entries@[i]).id@ != id
            },
            Ok(signal) => {
                &&& exists|at: int|
                    0 <= at < self.entries@.len() && (#[trigger] self.entries@[at]).id@ == id
                        && after.entries@ == self.entries@.update(at, after.entries@[at])
                        && after.entries@[at] == (Entry {
                        stop_reason: after.entries@[at].stop_reason,
                        ..self.entries@[at]
                    }) && self.entries@[at].stops(
                        after.entries@[at],
                        before_session,
                        after_session,
                        core.spec_name(),
                        core,
                        force,
                        signal,
                    )
                &&& after == (Manager { entries: after.entries, ..*self })
            },
        }
    }

    /// Stops all sessions that are meant, with the state of each session at hand. Returns the signal
    /// to send to each.
    fn stop_all(
        &mut self,
        whose: Whose,
        reason: &str,
        core: FinishReason,
        sessions: Vec<&mut Session>,
    ) -> (signals: Vec<Option<Result<Kill, ProcessError>>>)
        requires
            old(self).wf(),
            sessions@.len() == old(self).entries@.len(),
            forall|i: int| 0 <= i < sessions@.len() ==> (*#[trigger] sessions@[i]).wf(),
        ensures
            final(self).wf(),
            *final(self) == (Manager { entries: final(self).entries, ..*old(self) }),
            forall|i: int| 0 <= i < sessions@.len() ==> (*final(#[trigger] sessions@[i])).wf(),
            final(self).entries@.len() == old(self).entries@.len(),
            signals@.len() == old(self).entries@.len(),
            forall|i: int|
                #![trigger old(self).entries@[i]]
                #![trigger final(self).entries@[i]]
                #![trigger sessions@[i]]
                #![trigger signals@[i]]
                0 <= i < sessions@.len() ==> old(self).entries@[i].is_stopped(
                    final(self).entries@[i],
                    whose,
                    reason@,
                    core,
                    *sessions@[i],
                    *final(sessions@[i]),
                    signals@[i],
                ),
    {
        let ghost all = sessions@;
        let ghost before = self.entries@;
        let mut left = sessions;
        let mut signals: Vec<Option<Result<Kill, ProcessError>>> = Vec::new();
        while left.len() > 0
            invariant
                old(self).wf(),
                before == old(self).entries@,
                all.len() == before.len(),
                left@.len() <= all.len(),
                left@ == all.take(left@.len() as int),
                forall|i: int| 0 <= i < all.len() ==> (*#[trigger] all[i]).wf(),
                forall|i: int| left@.len() <= i < all.len() ==> (*final(#[trigger] all[i])).wf(),
                *self == (Manager { entries: self.entries, ..*old(self) }),
                self.entries@.len() == before.len(),
                forall|i: int| 0 <= i < left@.len() ==> #[trigger] self.entries@[i] == before[i],
                signals@.len() == all.len() - left@.len(),
                forall|i: int|
                    left@.len() <= i < all.len() ==> #[trigger] before[i].is_stopped(
                        self.entries@[i],
                        whose,
                        reason@,
                        core,
                        *all[i],
                        *final(all[i]),
                        signals@[i - left@.len()],
                    ),
            decreases left@.len(),
        {
            let ghost had = signals@;
            let ghost entries = self.entries@;
            let session = left.pop().unwrap();
            let at: usize = left.len();
            assert(session == all[at as int]);
            assert(self.entries@[at as int] == before[at as int]);
            let mut signal: Option<Result<Kill, ProcessError>> = None;
            if self.entries[at].is_whose(&whose) {
                let entry = &mut self.entries[at];
                signal = entry.stop(session, reason, core, true);
                assert(self.entries@ =~= entries.update(at as int, self.entries@[at as int]));
            }
            signals.insert(0, signal);
            proof {
                assert forall|i: int| at < i < all.len() implies #[trigger] before[i].is_stopped(
                    self.entries@[i],
                    whose,
                    reason@,
                    core,
                    *all[i],
                    *final(all[i]),
                    signals@[i - at],
                ) by {
                    assert(self.entries@[i] == entries[i]);
                    assert(signals@[i - at] == had[i - (at + 1)]);
                    assert(before[i].is_stopped(
                        entries[i],
                        whose,
                        reason@,
                        core,
                        *all[i],
                        *final(all[i]),
                        had[i - (at + 1)],
                    ));
                }
                assert(signals@[0] == signal);
                assert(before[at as int].is_stopped(
                    self.entries@[at as int],
                    whose,
                    reason@,
                    core,
                    *all[at as int],
                    *final(all[at as int]),
                    signal,
                ));
            }
        }
        proof {
            assert forall|i: int| 0 <= i < before.len() implies #[trigger] before[i].is_stopped(
                self.entries@[i],
                whose,
                reason@,
                core,
                *all[i],
                *final(all[i]),
                signals@[i],
            ) by {
                assert(signals@[i - left@.len()] == signals@[i]);
            }
            assert forall|i: int| 0 <= i < before.len() implies (#[trigger] self.entries@[i]).id
                == before[i].id && self.entries@[i].observation == before[i].observation by {
                assert(before[i].is_stopped(
                    self.entries@[i],
                    whose,
                    reason@,
                    core,
                    *all[i],
                    *final(all[i]),
                    signals@[i],
                ));
            }
        }
        signals
    }

    /// Gives up a connection to a monitor that broke, and stops every session that depends on it.
    /// Returns the signal to send to each session.
    pub fn monitor_lost(&mut self, link: u64, sessions: Vec<&mut Session>) -> (signals: Vec<
        Option<Result<Kill, ProcessError>>,
    >)
        requires
            old(self).wf(),
            sessions@.len() == old(self).entries@.len(),
            forall|i: int| 0 <= i < sessions@.len() ==> (*#[trigger] sessions@[i]).wf(),
        ensures
            final(self).wf(),
            !final(self).is_live(link),
            forall|other: u64|
                other != link ==> #[trigger] final(self).is_live(other) == old(self).is_live(
                    other,
                ),
            *final(self) == (Manager {
                links: final(self).links,
                entries: final(self).entries,
                ..*old(self)
            }),
            forall|i: int| 0 <= i < sessions@.len() ==> (*final(#[trigger] sessions@[i])).wf(),
            final(self).entries@.len() == old(self).entries@.len(),
            signals@.len() == old(self).entries@.len(),
            forall|i: int|
                #![trigger old(self).entries@[i]]
                #![trigger final(self).entries@[i]]
                #![trigger sessions@[i]]
                #![trigger signals@[i]]
                0 <= i < sessions@.len() ==> old(self).entries@[i].is_stopped(
                    final(self).entries@[i],
                    Whose::Link(link),
                    "monitor_disconnected"@,
                    FinishReason::OwnerDisconnected,
                    *sessions@[i],
                    *final(sessions@[i]),
                    signals@[i],
                ),
    {
        self.disconnected(link);
        let ghost broken = *self;
        let signals = self.stop_all(
            Whose::Link(link),
            "monitor_disconnected",
            FinishReason::OwnerDisconnected,
            sessions,
        );
        assert(forall|other: u64| #[trigger] self.is_live(other) == broken.is_live(other));
        signals
    }

    /// Stops every session of a host session for a reason. Returns the signal to send to each
    /// session.
    pub fn finish_host(
        &mut self,
        host: &str,
        reason: &str,
        core: FinishReason,
        sessions: Vec<&mut Session>,
    ) -> (signals: Vec<Option<Result<Kill, ProcessError>>>)
        requires
            old(self).wf(),
            sessions@.len() == old(self).entries@.len(),
            forall|i: int| 0 <= i < sessions@.len() ==> (*#[trigger] sessions@[i]).wf(),
        ensures
            final(self).wf(),
            *final(self) == (Manager { entries: final(self).entries, ..*old(self) }),
            forall|i: int| 0 <= i < sessions@.len() ==> (*final(#[trigger] sessions@[i])).wf(),
            final(self).entries@.len() == old(self).entries@.len(),
            signals@.len() == old(self).entries@.len(),
            forall|i: int|
                #![trigger old(self).entries@[i]]
                #![trigger final(self).entries@[i]]
                #![trigger sessions@[i]]
                #![trigger signals@[i]]
                0 <= i < sessions@.len() ==> old(self).entries@[i].is_stopped(
                    final(self).entries@[i],
                    Whose::Host(host),
                    reason@,
                    core,
                    *sessions@[i],
                    *final(sessions@[i]),
                    signals@[i],
                ),
    {
        self.stop_all(Whose::Host(host), reason, core, sessions)
    }

    /// Shuts down: no session is started from now on, and all are stopped. Returns the signal to
    /// send to each.
    pub fn shutdown(&mut self, sessions: Vec<&mut Session>) -> (signals: Vec<
        Option<Result<Kill, ProcessError>>,
    >)
        requires
            old(self).wf(),
            sessions@.len() == old(self).entries@.len(),
            forall|i: int| 0 <= i < sessions@.len() ==> (*#[trigger] sessions@[i]).wf(),
        ensures
            final(self).wf(),
            *final(self) == (Manager {
                shutting_down: true,
                entries: final(self).entries,
                ..*old(self)
            }),
            forall|i: int| 0 <= i < sessions@.len() ==> (*final(#[trigger] sessions@[i])).wf(),
            final(self).entries@.len() == old(self).entries@.len(),
            signals@.len() == old(self).entries@.len(),
            forall|i: int|
                #![trigger old(self).entries@[i]]
                #![trigger final(self).entries@[i]]
                #![trigger sessions@[i]]
                #![trigger signals@[i]]
                0 <= i < sessions@.len() ==> old(self).entries@[i].is_stopped(
                    final(self).entries@[i],
                    Whose::Anyone,
                    "server_shutdown"@,
                    FinishReason::Shutdown,
                    *sessions@[i],
                    *final(sessions@[i]),
                    signals@[i],
                ),
    {
        self.shutting_down = true;
        self.stop_all(Whose::Anyone, "server_shutdown", FinishReason::Shutdown, sessions)
    }
}

/// The positions below `n` that are wanted, in order.
pub open spec fn positions(n: nat, wanted: spec_fn(int) -> bool) -> Seq<usize>
    decreases n,
{
    if n == 0 {
        Seq::empty()
    } else if wanted(n - 1) {
        positions((n - 1) as nat, wanted).push((n - 1) as usize)
    } else {
        positions((n - 1) as nat, wanted)
    }
}

/// Whether the positions are all those of the given times, each once, from the earliest on.
pub open spec fn ordered(times: Seq<u64>, order: Seq<usize>) -> bool {
    &&& order.len() == times.len()
    &&& order.no_duplicates()
    &&& forall|i: int| 0 <= i < order.len() ==> (#[trigger] order[i]) < times.len()
    &&& forall|i: int, j: int|
        0 <= i < j < order.len() ==> times[(#[trigger] order[i]) as int] <= times[(
        #[trigger] order[j]) as int]
}

/// When the sessions were created.
pub open spec fn creation_times(snapshots: Seq<Snapshot>) -> Seq<u64> {
    snapshots.map_values(|snapshot: Snapshot| snapshot.created_at_ms)
}

/// The order in which sessions are listed: by when they were created.
pub fn snapshots_order(created: &Vec<u64>) -> (order: Vec<usize>)
    ensures
        ordered(created@, order@),
{
    let mut order: Vec<usize> = Vec::new();
    let mut n: usize = 0;
    while n < created.len()
        invariant
            n <= created@.len(),
            order@.len() == n,
            order@.no_duplicates(),
            forall|i: int| 0 <= i < n ==> (#[trigger] order@[i]) < n,
            forall|i: int, j: int|
                0 <= i < j < n ==> created@[(#[trigger] order@[i]) as int] <= created@[(
                #[trigger] order@[j]) as int],
        decreases created@.len() - n,
    {
        let mut at: usize = n;
        while at > 0 && created[order[at - 1]] > created[n]
            invariant
                at <= n < created@.len(),
                order@.len() == n,
                forall|i: int| 0 <= i < n ==> (#[trigger] order@[i]) < n,
                forall|i: int, j: int|
                    0 <= i < j < n ==> created@[(#[trigger] order@[i]) as int] <= created@[(
                    #[trigger] order@[j]) as int],
                forall|i: int|
                    at <= i < n ==> created@[(#[trigger] order@[i]) as int] > created@[n as int],
            decreases at,
        {
            at -= 1;
        }
        let ghost before = order@;
        order.insert(at, n);
        proof {
            let after = order@;
            assert(after == before.insert(at as int, n));
            assert forall|i: int| 0 <= i < after.len() implies #[trigger] after[i] == if i < at {
                before[i]
            } else if i == at {
                n
            } else {
                before[i - 1]
            } by {}
        }
        n += 1;
    }
    order
}

/// There are never more sessions than allowed, whatever is started, fails to start or is given up:
/// a session that was let in has a place.
pub proof fn law_limit_is_kept<H>(manager: Manager<H>)
    requires
        manager.wf(),
    ensures
        manager.entries@.len() <= MAX_SESSIONS,
        manager.starting > 0 ==> manager.entries@.len() < MAX_SESSIONS,
{
}

/// A broken monitor connection ends every session that depends on it, and is given as the reason
/// unless there was one before; any other session goes on as it was.
pub proof fn law_lost_monitors_end_their_sessions<H>(
    before: Entry<H>,
    after: Entry<H>,
    link: u64,
    session: Session,
    later: Session,
    signal: Option<Result<Kill, ProcessError>>,
    end: Termination,
)
    requires
        before.is_stopped(
            after,
            Whose::Link(link),
            "monitor_disconnected"@,
            FinishReason::OwnerDisconnected,
            session,
            later,
            signal,
        ),
    ensures
        before.link == link && !session.beyond_stopping() ==> later.snapshot.ending && signal
            is Some,
        before.link == link && session.snapshot.state != SessionState::Finished
            && before.stop_reason is None && end.reason == FinishReason::OwnerDisconnected
            ==> after.label(end) == "monitor_disconnected"@,
        before.link != link ==> after == before && later == session && signal is None,
{
}

/// Observing fails only for a session that is not known, whatever the receipt.
pub proof fn law_observing_fails_only_for_unknown_sessions<H>(
    before: Manager<H>,
    after: Manager<H>,
    id: Seq<char>,
    receipt: Seq<char>,
    r: Result<(), ControlError>,
)
    requires
        before.observes(after, id, receipt, r),
    ensures
        r is Err <==> forall|i: int|
            0 <= i < before.entries@.len() ==> (#[trigger] before.entries@[i]).id@ != id,
{
}

/// Observing a read a second time changes nothing.
pub proof fn law_second_observation_changes_nothing<H>(
    before: Manager<H>,
    once: Manager<H>,
    twice: Manager<H>,
    id: Seq<char>,
    receipt: Seq<char>,
    first: Result<(), ControlError>,
    second: Result<(), ControlError>,
)
    requires
        before.wf(),
        before.observes(once, id, receipt, first),
        once.observes(twice, id, receipt, second),
    ensures
        second == first,
        twice.entries@ == once.entries@,
        twice == (Manager { entries: twice.entries, ..once }),
{
    lemma_same_names(before, once, id, receipt, first);
    if first is Ok {
        let at = choose|at: int|
            0 <= at < before.entries@.len() && (#[trigger] before.entries@[at]).id@ == id
                && observed(before.entries@[at], once.entries@[at], receipt) && once.entries@
                == before.entries@.update(at, once.entries@[at]);
        assert(once.entries@[at].id@ == id);
        assert(second is Ok);
        assert(first->Ok_0 == second->Ok_0);
        let again = choose|again: int|
            0 <= again < once.entries@.len() && (#[trigger] once.entries@[again]).id@ == id
                && observed(once.entries@[again], twice.entries@[again], receipt) && twice.entries@
                == once.entries@.update(again, twice.entries@[again]);
        assert(before.entries@[again].id@ == id);
        assert(again == at);
        crate::observation::law_second_acknowledgement_changes_nothing(
            before.entries@[at].observation,
            once.entries@[at].observation,
            twice.entries@[at].observation,
            receipt,
        );
        assert(twice.entries@ =~= once.entries@);
    } else {
        assert(second is Err);
    }
}

proof fn lemma_same_names<H>(
    before: Manager<H>,
    after: Manager<H>,
    id: Seq<char>,
    receipt: Seq<char>,
    r: Result<(), ControlError>,
)
    requires
        before.observes(after, id, receipt, r),
    ensures
        after.entries@.len() == before.entries@.len(),
        forall|i: int|
            0 <= i < before.entries@.len() ==> (#[trigger] after.entries@[i]).id
                == before.entries@[i].id,
{
}

/// Observing a read that was never returned, or is no longer remembered, changes nothing.
pub proof fn law_unknown_reads_change_nothing<H>(
    before: Manager<H>,
    after: Manager<H>,
    id: Seq<char>,
    receipt: Seq<char>,
    r: Result<(), ControlError>,
)
    requires
        before.observes(after, id, receipt, r),
        forall|i: int, k: int|
            0 <= i < before.entries@.len() && 0 <= k < before.entries@[i].observation.receipts@.len()
                ==> (#[trigger] before.entries@[i].observation.receipts@[k]).id@ != receipt,
    ensures
        after.entries@ == before.entries@,
        after == (Manager { entries: after.entries, ..before }),
{
    if r is Ok {
        let at = choose|at: int|
            0 <= at < before.entries@.len() && (#[trigger] before.entries@[at]).id@ == id
                && observed(before.entries@[at], after.entries@[at], receipt) && after.entries@
                == before.entries@.update(at, after.entries@[at]);
        crate::observation::law_unknown_receipts_change_nothing(
            before.entries@[at].observation,
            after.entries@[at].observation,
            receipt,
        );
        assert(after.entries@ =~= before.entries@);
    }
}

/// Reading alone counts no byte as read and no reminder as given.
pub proof fn law_reading_acknowledges_nothing<H>(
    before: Manager<H>,
    after: Manager<H>,
    id: Seq<char>,
    session: Session,
    cursor: u64,
    max: usize,
    mode: ReadMode,
    now: Nanos,
    r: Result<ReadResult, ControlError>,
    i: int,
    x: int,
)
    requires
        before.reads(after, id, session, cursor, max, mode, now, r),
        0 <= i < before.entries@.len(),
    ensures
        after.entries@[i].observation.observed.saw(x)
            ==> before.entries@[i].observation.observed.saw(x),
        after.entries@[i].observation.observed.notified()
            == before.entries@[i].observation.observed.notified(),
{
}

/// A read counts once it is observed: exactly the range that it returned, and the reminder that it
/// carried.
pub proof fn law_observed_reads_count<H>(
    before: Manager<H>,
    once: Manager<H>,
    twice: Manager<H>,
    id: Seq<char>,
    session: Session,
    cursor: u64,
    max: usize,
    mode: ReadMode,
    now: Nanos,
    result: ReadResult,
    at: int,
)
    requires
        before.wf(),
        once.wf(),
        before.reads(once, id, session, cursor, max, mode, now, Ok(result)),
        once.observes(twice, id, result.receipt@, Ok(())),
        0 <= at < before.entries@.len(),
        before.entries@[at].id@ == id,
    ensures
        ({
            let returned = once.entries@[at].observation;
            let acknowledged = twice.entries@[at].observation;
            let receipt = returned.receipts@.last();
            &&& receipt.end == result.next_cursor
            &&& result.body !is Screen ==> receipt.start == match result.start_cursor {
                None => cursor,
                Some(start) => start,
            }
            &&& result.body is Screen ==> receipt.start == 0
            &&& forall|x: int|
                #[trigger] acknowledged.observed.saw(x) == (returned.observed.saw(x)
                    || receipt.start <= x < receipt.end)
            &&& match result.silence {
                None => acknowledged.observed.notified() == returned.observed.notified(),
                Some((notice, _)) => acknowledged.observed.notified() is Some
                    && acknowledged.observed.notified()->0 >= notice.interaction_id,
            }
        }),
{
    let there = choose|there: int|
        0 <= there < once.entries@.len() && (#[trigger] once.entries@[there]).id@ == id && observed(
            once.entries@[there],
            twice.entries@[there],
            result.receipt@,
        ) && twice.entries@ == once.entries@.update(there, twice.entries@[there]);
    assert(before.entries@[there].id@ == id);
    assert(there == at);
    crate::observation::law_acknowledged_reads_count(
        once.entries@[at].observation,
        twice.entries@[at].observation,
    );
}

/// Every position that is wanted is found, and no other.
pub proof fn law_positions_are_exact(n: nat, wanted: spec_fn(int) -> bool, i: int)
    requires
        n <= usize::MAX,
        0 <= i < n,
    ensures
        positions(n, wanted).contains(i as usize) <==> wanted(i),
    decreases n,
{
    let shorter = positions((n - 1) as nat, wanted);
    lemma_positions_below((n - 1) as nat, wanted);
    if i == n - 1 {
        if wanted(i) {
            assert(positions(n, wanted)[shorter.len() as int] == i as usize);
        }
    } else {
        law_positions_are_exact((n - 1) as nat, wanted, i);
        if wanted(n - 1) {
            let all = positions(n, wanted);
            if shorter.contains(i as usize) {
                let k = choose|k: int| 0 <= k < shorter.len() && shorter[k] == i as usize;
                assert(all[k] == i as usize);
            }
            if all.contains(i as usize) {
                let k = choose|k: int| 0 <= k < all.len() && all[k] == i as usize;
                assert(k < shorter.len());
                assert(shorter[k] == i as usize);
            }
        }
    }
}

proof fn lemma_positions_below(n: nat, wanted: spec_fn(int) -> bool)
    requires
        n <= usize::MAX,
    ensures
        forall|k: int|
            0 <= k < positions(n, wanted).len() ==> (#[trigger] positions(n, wanted)[k]) < n,
    decreases n,
{
    if n > 0 {
        lemma_positions_below((n - 1) as nat, wanted);
        let shorter = positions((n - 1) as nat, wanted);
        assert forall|k: int| 0 <= k < positions(n, wanted).len() implies (#[trigger] positions(
            n,
            wanted,
        )[k]) < n by {
            if k < shorter.len() {
                assert(shorter[k] < n - 1);
            }
        }
    }
}

/// A server has 64 sessions at most, those that are being started counted in, and no two under one
/// name.
pub proof fn law_there_are_64_sessions_at_most<H>(manager: Manager<H>, i: int, j: int)
    requires
        manager.wf(),
        0 <= i < manager.entries@.len(),
        0 <= j < manager.entries@.len(),
    ensures
        manager.entries@.len() + manager.starting <= 64,
        manager.entries@[i].id@ == manager.entries@[j].id@ ==> i == j,
{
}

/// The session that is given up to make room has finished, nobody waits for it, and no other session
/// of which both are true was created before it. A session that still runs, or that is waited for, is
/// never given up.
pub proof fn law_which_session_is_given_up<H>(
    manager: Manager<H>,
    standings: Seq<Standing>,
    at: int,
    other: int,
)
    requires
        standings.len() == manager.entries@.len(),
        manager.oldest(standings, at),
        0 <= other < manager.entries@.len(),
    ensures
        0 <= at < manager.entries@.len(),
        standings[at].state is Finished,
        !manager.entries@[at].waiting,
        standings[other].state is Finished && !manager.entries@[other].waiting
            ==> standings[at].created_at_ms <= standings[other].created_at_ms,
{
    if standings[other].state is Finished && !manager.entries@[other].waiting {
        assert(manager.evictable(standings, other));
    }
}

/// Where room cannot be made, every session runs, starts or is waited for.
pub proof fn law_when_no_session_can_be_given_up<H>(
    manager: Manager<H>,
    standings: Seq<Standing>,
    i: int,
)
    requires
        standings.len() == manager.entries@.len(),
        0 <= i < manager.entries@.len(),
    ensures
        !manager.evictable(standings, i) <==> standings[i].state !is Finished
            || manager.entries@[i].waiting,
{
}

/// A list has every session once, and those created earlier before those created later.
pub proof fn law_lists_are_complete_and_in_order(
    snapshots: Seq<Snapshot>,
    order: Seq<usize>,
    i: int,
    j: int,
    at: int,
)
    requires
        snapshots.len() <= usize::MAX,
        ordered(creation_times(snapshots), order),
        0 <= i < j < order.len(),
        0 <= at < snapshots.len(),
    ensures
        order.len() == snapshots.len(),
        order[i] != order[j],
        snapshots[order[i] as int].created_at_ms <= snapshots[order[j] as int].created_at_ms,
        order.contains(at as usize),
{
    let times = creation_times(snapshots);
    assert(times[order[i] as int] == snapshots[order[i] as int].created_at_ms);
    assert(times[order[j] as int] == snapshots[order[j] as int].created_at_ms);
    assert(times[order[i] as int] <= times[order[j] as int]);
    lemma_all_positions(order, order.len() as nat);
}

/// As many different positions below a number as the number are all positions below it.
proof fn lemma_all_positions(order: Seq<usize>, n: nat)
    requires
        order.len() == n,
        order.no_duplicates(),
        n <= usize::MAX,
        forall|i: int| 0 <= i < order.len() ==> (#[trigger] order[i]) < n,
    ensures
        forall|at: int| 0 <= at < n ==> order.contains(#[trigger] (at as usize)),
{
    let below = Set::new(|x: usize| x < n);
    order.unique_seq_to_set();
    lemma_below_is_finite(n);
    assert(order.to_set().subset_of(below));
    vstd::set_lib::lemma_subset_equality(order.to_set(), below);
    assert forall|at: int| 0 <= at < n implies order.contains(#[trigger] (at as usize)) by {
        assert(below.contains(at as usize));
        assert(order.to_set().contains(at as usize));
    }
}

proof fn lemma_below_is_finite(n: nat)
    requires
        n <= usize::MAX,
    ensures
        Set::new(|x: usize| x < n).finite(),
        Set::new(|x: usize| x < n).len() == n,
    decreases n,
{
    let below = Set::new(|x: usize| x < n);
    if n == 0 {
        assert(below =~= Set::empty());
    } else {
        let fewer = Set::new(|x: usize| x < n - 1);
        lemma_below_is_finite((n - 1) as nat);
        assert(Set::new(|x: usize| x < (n - 1) as nat) =~= fewer);
        assert(below =~= fewer.insert((n - 1) as usize));
    }
}

/// A read is of the session that was asked for, under a new receipt, and leaves every other session
/// alone. It fails only where there is no such session.
pub proof fn law_reads_are_of_the_session_asked_for<H>(
    before: Manager<H>,
    after: Manager<H>,
    id: Seq<char>,
    session: Session,
    cursor: u64,
    max: usize,
    mode: ReadMode,
    now: Nanos,
    r: Result<ReadResult, ControlError>,
    i: int,
)
    requires
        before.reads(after, id, session, cursor, max, mode, now, r),
        0 <= i < before.entries@.len(),
    ensures
        before.entries@[i].id@ == id ==> r is Ok,
        before.entries@[i].id@ != id ==> after.entries@[i] == before.entries@[i],
        after.entries@.len() == before.entries@.len(),
        after.entries@[i].id == before.entries@[i].id,
        after.entries@[i].stop_reason == before.entries@[i].stop_reason,
        after.entries@[i].waiting == before.entries@[i].waiting,
        r matches Ok(result) ==> result.session_id@ == id && result.state == session.snapshot.state
            && (result.termination is Some <==> session.snapshot.termination is Some),
        r matches Err(error) ==> error is UnknownSession,
{
}

/// A stop reaches the session that was asked for, under the name of its reason unless there was one
/// before, and leaves every other session alone. It fails only where there is no such session.
pub proof fn law_stops_reach_the_session_asked_for<H>(
    before: Manager<H>,
    after: Manager<H>,
    id: Seq<char>,
    session: Session,
    later: Session,
    core: FinishReason,
    force: bool,
    r: Result<Option<Result<Kill, ProcessError>>, ControlError>,
    i: int,
)
    requires
        before.wf(),
        session.wf(),
        before.stops(after, id, session, later, core, force, r),
        0 <= i < before.entries@.len(),
    ensures
        before.entries@[i].id@ == id ==> r is Ok,
        before.entries@[i].id@ != id ==> after.entries@[i] == before.entries@[i],
        after.entries@.len() == before.entries@.len(),
        after.entries@[i].id == before.entries@[i].id,
        before.entries@[i].id@ == id && session.snapshot.state !is Finished
            && before.entries@[i].stop_reason is None ==> (after.entries@[i].stop_reason matches Some(
            (given, under),
        ) && given@ == core.spec_name() && under == core),
        r is Ok && !session.snapshot.ending ==> later.snapshot.ending && r->Ok_0 == Some(
            crate::platform::kill_of(session.process@, force),
        ),
        r is Err ==> later == session,
{
}

/// A connection to a monitor is live while it is among those of the server.
pub proof fn law_which_connections_are_live<H>(manager: Manager<H>, link: u64)
    ensures
        manager.is_live(link) <==> manager.links@.map_values(|l: MonitorLink| l.link).contains(link),
{
    let numbers = manager.links@.map_values(|l: MonitorLink| l.link);
    if manager.is_live(link) {
        let i = choose|i: int|
            0 <= i < manager.links@.len() && (#[trigger] manager.links@[i]).link == link;
        assert(numbers[i] == link);
    }
    if numbers.contains(link) {
        let i = choose|i: int| 0 <= i < numbers.len() && numbers[i] == link;
        assert(manager.links@[i].link == link);
    }
}

/// A session is found under its own name, and nothing else is.
pub proof fn law_sessions_are_found_by_name<H>(
    manager: &Manager<H>,
    id: &str,
    r: Result<usize, ControlError>,
    i: int,
)
    requires
        manager.wf(),
        call_ensures(Manager::<H>::get, (manager, id), r),
        0 <= i < manager.entries@.len(),
    ensures
        manager.entries@[i].id@ == id@ <==> r == Ok::<usize, ControlError>(i as usize) && i
            == (i as usize),
        r is Err ==> r->Err_0 is UnknownSession,
{
    if r is Ok {
        let at = r->Ok_0;
        assert(manager.entries@[at as int].id@ == id@);
    }
}

/// A server that shuts down starts nothing, and one that does not starts what there is room for.
pub proof fn law_servers_start_sessions_until_they_shut_down<H>(
    manager: &Manager<H>,
    r: Result<(), ControlError>,
)
    requires
        call_ensures(Manager::<H>::check_open, (manager,), r),
    ensures
        r is Err <==> manager.shutting_down,
        r is Err ==> r->Err_0 is ShuttingDown,
{
}

/// Room is made where there is none by giving up one session, which is handed back; a place is held
/// either way, and none is where room cannot be made.
pub proof fn law_how_room_is_made<H>()
    ensures
        forall|
            manager: &mut Manager<H>,
            standings: &Vec<Standing>,
            r: Result<Option<Entry<H>>, ControlError>,
        |
            #[trigger] call_ensures(Manager::<H>::reserve, (manager, standings), r) && manager.wf()
                ==> {
                let full = manager.entries@.len() + manager.starting == 64;
                &&& r is Ok ==> final(manager).starting == manager.starting + 1
                &&& r is Ok && !full ==> r->Ok_0 is None && final(manager).entries@
                    == manager.entries@
                &&& r is Ok && full ==> r->Ok_0 is Some && final(manager).entries@.len()
                    == manager.entries@.len() - 1 && manager.entries@.contains(r->Ok_0->0)
                    && !r->Ok_0->0.waiting
                &&& r is Err ==> full && r->Err_0 is LimitReached && *final(manager) == *manager
                &&& final(manager).links == manager.links && final(manager).shutting_down
                    == manager.shutting_down
            },
        forall|manager: &mut Manager<H>, unit: ()|
            #[trigger] call_ensures(Manager::<H>::abandon, (manager,), unit) && manager.starting > 0
                ==> final(manager).starting == manager.starting - 1 && final(manager).entries
                == manager.entries,
{
}

/// A session that was started is taken in where its monitor is still connected and the server does
/// not shut down; otherwise it is handed back. Its place is given back either way.
pub proof fn law_which_sessions_are_taken_in<H>()
    ensures
        forall|manager: &mut Manager<H>, entry: Entry<H>, r: Result<(), Entry<H>>|
            #[trigger] call_ensures(Manager::<H>::register, (manager, entry), r)
                && manager.starting > 0 ==> {
                &&& r is Ok <==> manager.is_live(entry.link) && !manager.shutting_down
                &&& r is Ok ==> final(manager).entries@ == manager.entries@.push(entry)
                &&& r is Err ==> r->Err_0 == entry && final(manager).entries@ == manager.entries@
                &&& final(manager).starting == manager.starting - 1
            },
        forall|manager: &mut Manager<H>, host: &str, link: u64|
            #[trigger] call_ensures(Manager::<H>::connected, (manager, host), link)
                && manager.next_link < u64::MAX ==> {
                &&& final(manager).is_live(link)
                &&& link == manager.next_link && final(manager).next_link == link + 1
                &&& final(manager).entries == manager.entries
            },
{
    assert forall|manager: &mut Manager<H>, host: &str, link: u64|
        #[trigger] call_ensures(Manager::<H>::connected, (manager, host), link) && manager.next_link
            < u64::MAX implies final(manager).is_live(link) && link == manager.next_link && final(
        manager
    ).next_link == link + 1 && final(manager).entries == manager.entries by {
        let n = final(manager).links@.len() - 1;
        assert(final(manager).links@[n].link == link);
    }
}

/// Closing a session kills it; a signal terminates it, or kills it where it is forced.
pub proof fn law_how_servers_close_and_signal<H>()
    ensures
        forall|
            manager: &mut Manager<H>,
            id: &str,
            session: &mut Session,
            r: Result<Option<Result<Kill, ProcessError>>, ControlError>,
        |
            #[trigger] call_ensures(Manager::<H>::close, (manager, id, session), r)
                && session.wf() && !session.snapshot.ending && r is Ok ==> {
                &&& r->Ok_0 == Some(crate::platform::kill_of(session.process@, true))
                &&& final(session).requested is Some
                &&& final(session).requested->0.reason is ExplicitClose
            },
        forall|
            manager: &mut Manager<H>,
            id: &str,
            session: &mut Session,
            force: bool,
            r: Result<Option<Result<Kill, ProcessError>>, ControlError>,
        |
            #[trigger] call_ensures(Manager::<H>::signal, (manager, id, session, force), r)
                && session.wf() && !session.snapshot.ending && r is Ok ==> {
                &&& r->Ok_0 == Some(crate::platform::kill_of(session.process@, force))
                &&& final(session).requested is Some
                &&& force ==> final(session).requested->0.reason is Killed
                &&& !force ==> final(session).requested->0.reason is Terminated
            },
{
}

/// Positions are found in order.
pub proof fn law_positions_are_in_order(n: nat, wanted: spec_fn(int) -> bool, i: int, j: int)
    requires
        n <= usize::MAX,
        0 <= i < j < positions(n, wanted).len(),
    ensures
        positions(n, wanted)[i] < positions(n, wanted)[j] < n,
    decreases n,
{
    lemma_positions_below(n, wanted);
    if n > 0 {
        let shorter = positions((n - 1) as nat, wanted);
        lemma_positions_below((n - 1) as nat, wanted);
        if j < shorter.len() {
            law_positions_are_in_order((n - 1) as nat, wanted, i, j);
        } else {
            assert(positions(n, wanted)[i] == shorter[i]);
            assert(positions(n, wanted)[j] == (n - 1) as usize);
        }
    }
}

/// The sessions of a host session are those under its name, in the order in which they came.
pub proof fn law_whose_sessions_are_found<H>(
    manager: &Manager<H>,
    host: &str,
    found: Vec<usize>,
    i: int,
)
    requires
        manager.entries@.len() <= usize::MAX,
        call_ensures(Manager::<H>::owned_by, (manager, host), found),
        0 <= i < manager.entries@.len(),
    ensures
        found@.contains(i as usize) <==> manager.entries@[i].host@ == host@,
        forall|a: int, b: int| 0 <= a < b < found@.len() ==> found@[a] < found@[b],
{
    let wanted = |i: int| manager.entries@[i].host@ == host@;
    law_positions_are_exact(manager.entries@.len(), wanted, i);
    assert forall|a: int, b: int| 0 <= a < b < found@.len() implies found@[a] < found@[b] by {
        law_positions_are_in_order(manager.entries@.len(), wanted, a, b);
    }
}

/// A server begins without sessions, under a name that says what it names, and every read gets a
/// receipt whose name does.
pub proof fn law_servers_begin_empty<H>(port: u16, manager: Manager<H>)
    requires
        call_ensures(Manager::<H>::new, (port,), manager),
    ensures
        manager.wf(),
        manager.entries@.len() == 0 && manager.starting == 0 && manager.links@.len() == 0,
        !manager.shutting_down,
        manager.port == port,
        valid_id(manager.instance@),
        "inst_"@.is_prefix_of(manager.instance@),
{
}

/// Receipts are names that say that they name reads.
pub proof fn law_receipts_name_reads<H>(
    before: Manager<H>,
    after: Manager<H>,
    id: Seq<char>,
    session: Session,
    cursor: u64,
    max: usize,
    mode: ReadMode,
    now: Nanos,
    result: ReadResult,
)
    requires
        before.reads(after, id, session, cursor, max, mode, now, Ok(result)),
    ensures
        valid_id(result.receipt@),
        "read_"@.is_prefix_of(result.receipt@),
{
}

/// A lost monitor, the end of a host session and a shutdown reach those sessions that they are about,
/// each under its own reason, and no others.
pub proof fn law_what_ends_many_sessions<H>()
    ensures
        forall|
            manager: &mut Manager<H>,
            link: u64,
            sessions: Vec<&mut Session>,
            signals: Vec<Option<Result<Kill, ProcessError>>>,
            i: int,
        |
            #[trigger] call_ensures(Manager::<H>::monitor_lost, (manager, link, sessions), signals)
                && 0 <= i < sessions@.len() ==> manager.entries@[i].is_stopped(
                final(manager).entries@[i],
                Whose::Link(link),
                "monitor_disconnected"@,
                FinishReason::OwnerDisconnected,
                *sessions@[i],
                *final(sessions@[i]),
                #[trigger] signals@[i],
            ) && !final(manager).is_live(link) && final(manager).shutting_down
                == manager.shutting_down,
        forall|
            manager: &mut Manager<H>,
            host: &str,
            reason: &str,
            core: FinishReason,
            sessions: Vec<&mut Session>,
            signals: Vec<Option<Result<Kill, ProcessError>>>,
            i: int,
        |
            #[trigger] call_ensures(
                Manager::<H>::finish_host,
                (manager, host, reason, core, sessions),
                signals,
            ) && 0 <= i < sessions@.len() ==> manager.entries@[i].is_stopped(
                final(manager).entries@[i],
                Whose::Host(host),
                reason@,
                core,
                *sessions@[i],
                *final(sessions@[i]),
                #[trigger] signals@[i],
            ) && final(manager).shutting_down == manager.shutting_down,
        forall|
            manager: &mut Manager<H>,
            sessions: Vec<&mut Session>,
            signals: Vec<Option<Result<Kill, ProcessError>>>,
            i: int,
        |
            #[trigger] call_ensures(Manager::<H>::shutdown, (manager, sessions), signals) && 0 <= i
                < sessions@.len() ==> manager.entries@[i].is_stopped(
                final(manager).entries@[i],
                Whose::Anyone,
                "server_shutdown"@,
                FinishReason::Shutdown,
                *sessions@[i],
                *final(sessions@[i]),
                #[trigger] signals@[i],
            ) && final(manager).shutting_down,
{
}

/// A connection to a monitor that is found is one of its host session.
pub proof fn law_connections_are_found_by_host<H>(
    manager: &Manager<H>,
    host: &str,
    found: Option<u64>,
)
    requires
        call_ensures(Manager::<H>::live_link, (manager, host), found),
    ensures
        found matches Some(link) ==> exists|i: int|
            0 <= i < manager.links@.len() && (#[trigger] manager.links@[i]).host@ == host@
                && manager.links@[i].link == link,
{
}

/// One session is reported on where it is asked for by name, and all of them otherwise; only a name
/// that is not known is an error.
pub proof fn law_which_sessions_are_reported_on<H>(
    manager: &Manager<H>,
    id: &str,
    snapshots: &Vec<Snapshot>,
    one: Result<Vec<EntryReport>, ControlError>,
    all: Result<Vec<EntryReport>, ControlError>,
)
    requires
        snapshots@.len() == manager.entries@.len(),
        call_ensures(Manager::<H>::snapshots, (manager, Some(id), snapshots), one),
        call_ensures(Manager::<H>::snapshots, (manager, None::<&str>, snapshots), all),
    ensures
        one matches Ok(reports) ==> reports@.len() == 1 && reports@[0].session_id@ == id@,
        one matches Err(error) ==> error is UnknownSession,
        one is Err <==> forall|i: int|
            0 <= i < manager.entries@.len() ==> (#[trigger] manager.entries@[i]).id@ != id@,
        all is Ok && all->Ok_0@.len() == manager.entries@.len(),
{
}

/// What can be rendered is read, and what cannot changes nothing; a read that is returned is
/// acknowledged by its receipt.
pub proof fn law_what_servers_read_and_observe<H>()
    ensures
        forall|
            manager: &mut Manager<H>,
            id: &str,
            session: &Session,
            cursor: u64,
            max: usize,
            mode: ReadMode,
            now: Nanos,
            r: Option<Result<ReadResult, ControlError>>,
        |
            #[trigger] call_ensures(
                Manager::<H>::try_read,
                (manager, id, session, cursor, max, mode, now),
                r,
            ) ==> {
                &&& r is Some <==> extractable(*session, cursor, max, mode)
                &&& r is None ==> *final(manager) == *manager
                &&& r matches Some(result) ==> manager.reads(
                    *final(manager),
                    id@,
                    *session,
                    cursor,
                    max,
                    mode,
                    now,
                    result,
                )
            },
        forall|
            manager: &mut Manager<H>,
            id: &str,
            session: &Session,
            cursor: u64,
            max: usize,
            mode: ReadMode,
            now: Nanos,
            r: Result<ReadResult, ControlError>,
        |
            #[trigger] call_ensures(
                Manager::<H>::read,
                (manager, id, session, cursor, max, mode, now),
                r,
            ) ==> manager.reads(*final(manager), id@, *session, cursor, max, mode, now, r),
        forall|manager: &mut Manager<H>, id: &str, receipt: &str, r: Result<(), ControlError>|
            #[trigger] call_ensures(Manager::<H>::observe, (manager, id, receipt), r)
                ==> manager.observes(*final(manager), id@, receipt@, r),
{
}

} // verus!
