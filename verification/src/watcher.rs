//! Follows the lines that a service prints about a session, without flooding its reader.
use crate::background_task::{label, labelled, PREVIEW_INTERVAL};
use crate::text::{begins_with, same};
use crate::types::{elapsed, Nanos};
use vstd::prelude::*;

verus! {

/// A ticket that lets a watcher attach.
#[derive(Debug)]
pub struct WatchTicket {
    pub instance_id: String,
    pub session_id: String,
    pub token: String,
    pub port: u16,
}

/// Checks that a ticket is for the given session.
pub fn is_ticket_for(ticket: &WatchTicket, instance: &str, session: &str) -> (r: bool)
    ensures
        r == (ticket.instance_id@ == instance@ && ticket.session_id@ == session@),
{
    same(ticket.instance_id.as_str(), instance) && same(ticket.session_id.as_str(), session)
}

/// Follows one session.
#[derive(Debug)]
pub struct Watcher {
    pub session_id: String,
    /// When a line of output was printed last.
    pub last_output: Option<Nanos>,
}

impl Watcher {
    pub fn new(session_id: String) -> (watcher: Self)
        ensures
            watcher == (Watcher { session_id, last_output: None }),
    {
        Watcher { session_id, last_output: None }
    }

    /// Whether a line is about output.
    pub open spec fn about_output(line: Seq<char>) -> bool {
        "[output]"@.is_prefix_of(line)
    }

    /// Whether a line is left out: it is about output, within a second after the last such line.
    pub open spec fn leaves_out(&self, line: Seq<char>, now: Nanos) -> bool {
        Self::about_output(line) && self.last_output is Some && elapsed(self.last_output->0, now)
            < PREVIEW_INTERVAL
    }

    /// What is printed about a line, if anything.
    pub fn on_line(&mut self, line: &str, now: Nanos) -> (printed: Option<String>)
        ensures
            final(self).session_id == old(self).session_id,
            old(self).leaves_out(line@, now) ==> printed is None && *final(self) == *old(self),
            !old(self).leaves_out(line@, now) ==> printed is Some && printed->0@ == labelled(
                old(self).session_id@,
                line@,
            ) && final(self).last_output == if Self::about_output(line@) {
                Some(now)
            } else {
                old(self).last_output
            },
    {
        if begins_with(line, "[output]") {
            if let Some(last) = self.last_output {
                if now.saturating_sub(last) < PREVIEW_INTERVAL {
                    return None;
                }
            }
            self.last_output = Some(now);
        }
        Some(label(self.session_id.as_str(), line))
    }
}

/// A line is left out exactly where it begins with `[output]` and another such line was printed less
/// than a second ago.
pub proof fn law_which_lines_are_left_out(watcher: Watcher, line: Seq<char>, now: Nanos)
    ensures
        watcher.leaves_out(line, now) <==> {
            &&& line.len() >= 8
            &&& line.take(8) == seq!['[', 'o', 'u', 't', 'p', 'u', 't', ']']
            &&& watcher.last_output matches Some(last) && now < last + 1_000_000_000
        },
{
    reveal_strlit("[output]");
    assert("[output]"@ =~= seq!['[', 'o', 'u', 't', 'p', 'u', 't', ']']);
    if line.len() >= 8 {
        assert(line.take(8) =~= line.subrange(0, 8));
    }
}

/// A ticket is good for the instance and the session that it names.
pub proof fn law_what_a_ticket_is_good_for(
    ticket: &WatchTicket,
    instance: &str,
    session: &str,
    r: bool,
)
    requires
        call_ensures(is_ticket_for, (ticket, instance, session), r),
    ensures
        r <==> ticket.instance_id@ == instance@ && ticket.session_id@ == session@,
{
}

/// A line is printed under the name of the session unless it is left out; only a line about output
/// that is printed is remembered.
pub proof fn law_what_a_watcher_does()
    ensures
        forall|watcher: &mut Watcher, line: &str, now: Nanos, printed: Option<String>|
            #[trigger] call_ensures(Watcher::on_line, (watcher, line, now), printed) ==> {
                &&& printed is None <==> watcher.leaves_out(line@, now)
                &&& printed is Some ==> printed->0@ == "["@ + watcher.session_id@ + "] "@ + line@
                &&& printed is Some && Watcher::about_output(line@) ==> final(watcher).last_output
                    == Some(now)
                &&& printed is None || !Watcher::about_output(line@) ==> final(watcher).last_output
                    == watcher.last_output
            },
{
}

} // verus!
