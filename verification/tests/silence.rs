use pty_bridge::silence::{Observation, EMPTY_SILENCE, OUTPUT_SILENCE};
use pty_bridge::types::{Activity, Nanos, SessionState, Snapshot, MILLISECOND, SECOND};

const NOW: Nanos = 1_000 * SECOND;

fn snapshot(now: Nanos) -> Snapshot {
    Snapshot {
        state: SessionState::Running,
        termination: None,
        rows: 24,
        cols: 80,
        created_at_ms: 0,
        last_output_at_ms: None,
        last_input_at_ms: None,
        retained_start: 0,
        retained_end: 0,
        ending: false,
        activity: Activity {
            interaction_id: 1,
            interaction_at: now,
            interaction_output_seq: 0,
            interaction_cursor: 0,
            output_seq: 0,
            last_output_at: None,
            pending_inputs: 0,
        },
    }
}
fn output(s: &mut Snapshot, now: Nanos, end: u64) {
    s.activity.output_seq += 1;
    s.activity.last_output_at = Some(now);
    s.retained_end = end;
}

#[test]
fn empty_read_does_not_reset_ninety_second_deadline() {
    let now = NOW;
    let s = snapshot(now);
    let mut o = Observation::default();
    o.read(0, 0);
    assert!(o.candidate(&s, now + 89 * SECOND).is_none());
    let c = o.candidate(&s, now + EMPTY_SILENCE).unwrap();
    assert!(o.claim(&s, &c, now + EMPTY_SILENCE));
    assert!(o.candidate(&s, now + 999 * SECOND).is_none());
}

#[test]
fn precise_ranges_partial_reads_and_gaps() {
    let now = NOW;
    let mut s = snapshot(now);
    output(&mut s, now, 10);
    let mut o = Observation::default();
    assert!(o.candidate(&s, now + 29 * SECOND).is_none());
    o.read(5, 10);
    assert!(o.candidate(&s, now + OUTPUT_SILENCE).is_some());
    o.read(0, 3);
    assert!(o.candidate(&s, now + OUTPUT_SILENCE).is_some());
    o.read(3, 5);
    assert!(o.candidate(&s, now + OUTPUT_SILENCE).is_none());
    output(&mut s, now + OUTPUT_SILENCE, 15);
    assert!(o.candidate(&s, now + 2 * OUTPUT_SILENCE).is_some());
}

#[test]
fn stale_candidates_are_revalidated_and_output_does_not_rearm() {
    let now = NOW;
    let mut s = snapshot(now);
    output(&mut s, now, 5);
    let mut o = Observation::default();
    let c = o.candidate(&s, now + OUTPUT_SILENCE).unwrap();
    output(&mut s, now + OUTPUT_SILENCE, 10);
    assert!(!o.claim(&s, &c, now + OUTPUT_SILENCE));
    let c = o.candidate(&s, now + 2 * OUTPUT_SILENCE).unwrap();
    assert!(o.claim(&s, &c, now + 2 * OUTPUT_SILENCE));
    output(&mut s, now + 2 * OUTPUT_SILENCE, 15);
    assert!(o.candidate(&s, now + 3 * OUTPUT_SILENCE).is_none());
    s.activity.interaction_id += 1;
    s.activity.interaction_at = now + 3 * OUTPUT_SILENCE;
    s.activity.interaction_output_seq = s.activity.output_seq;
    s.activity.interaction_cursor = s.retained_end;
    assert!(o
        .candidate(&s, now + 3 * OUTPUT_SILENCE + EMPTY_SILENCE)
        .is_some());
}

#[test]
fn reading_exit_and_inflight_write_cancel_queued_notice() {
    let now = NOW;
    let mut s = snapshot(now);
    output(&mut s, now, 5);
    let mut o = Observation::default();
    let c = o.candidate(&s, now + OUTPUT_SILENCE).unwrap();
    s.activity.pending_inputs = 1;
    assert!(!o.claim(&s, &c, now + OUTPUT_SILENCE));
    s.activity.pending_inputs = 0;
    o.read(0, 5);
    assert!(!o.claim(&s, &c, now + OUTPUT_SILENCE));
    let mut o = Observation::default();
    s.ending = true;
    assert!(o.candidate(&s, now + OUTPUT_SILENCE).is_none());
    s.ending = false;
    s.state = SessionState::Finished;
    assert!(o.candidate(&s, now + OUTPUT_SILENCE).is_none());
}

#[test]
fn dropped_bytes_are_not_read_and_fast_echo_belongs_to_input() {
    let now = NOW;
    let mut s = snapshot(now);
    output(&mut s, now, 10);
    s.retained_start = 5;
    s.activity.interaction_at = now + MILLISECOND;
    let mut o = Observation::default();
    o.read(5, 10);
    assert!(o.candidate(&s, now + OUTPUT_SILENCE).is_some());
}

#[test]
fn the_reminder_names_interaction_and_output() {
    let mut s = snapshot(NOW);
    output(&mut s, NOW, 7);
    s.activity.interaction_cursor = 2;
    let mut o = Observation::default();
    let c = o.candidate(&s, NOW + OUTPUT_SILENCE).unwrap();
    assert_eq!((c.interaction_id, c.output_seq), (1, 1));
    assert_eq!((c.start_cursor, c.end_cursor), (2, 7));
}

#[test]
fn sizes_and_times_of_day_do_not_matter() {
    let s = snapshot(NOW);
    let mut other = snapshot(NOW);
    other.rows = 3;
    other.cols = 9;
    other.created_at_ms = 17;
    other.last_input_at_ms = Some(3);
    let at = NOW + EMPTY_SILENCE;
    assert_eq!(
        Observation::default().candidate(&s, at),
        Observation::default().candidate(&other, at)
    );
}

#[test]
fn output_that_cannot_be_seen_remains_eligible() {
    let mut s = snapshot(NOW);
    output(&mut s, NOW, 0);
    let mut o = Observation::default();
    o.read(0, 100);
    assert!(o.candidate(&s, NOW + OUTPUT_SILENCE).is_some());
}
