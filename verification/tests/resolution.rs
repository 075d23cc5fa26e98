use vaiber::engine::{Engine, PeerEvent};
use vaiber::plog::{Plog, ResolvedPlog};
use vaiber::resolve::{HeadRef, NetRequest, ResolutionTask, TaskStep};
use vaiber::vlad::Vlad;
use vaiber::Error;

fn sample_vlad() -> Vlad {
    Vlad::from_bytes(vec![5, 5, 5]).unwrap()
}

fn sample_resolved() -> ResolvedPlog {
    let log = Plog::assemble(sample_vlad(), vec![vec![1], vec![2], vec![3]]).unwrap();
    ResolvedPlog::new(log)
}

#[test]
fn record_lookup_failures_back_off_exponentially_then_fail_terminally() {
    let mut task = ResolutionTask::from_vlad(sample_vlad());
    assert!(matches!(
        task.current_request(),
        Some(NetRequest::GetRecord { key }) if key == vec![5, 5, 5]
    ));

    // Mock clock: collect the delays the task asks for.
    let mut waited: u64 = 0;
    match task.on_record(None) {
        TaskStep::Retry { delay_secs } => {
            assert_eq!(delay_secs, 2);
            waited += delay_secs;
        },
        _ => panic!("the first failure is retried"),
    }
    match task.on_record(None) {
        TaskStep::Retry { delay_secs } => {
            assert_eq!(delay_secs, 4);
            waited += delay_secs;
        },
        _ => panic!("the second failure is retried"),
    }
    match task.on_record(None) {
        TaskStep::Failed(e) => assert_eq!(e, Error::RetriesExhausted),
        _ => panic!("the third failed call is terminal"),
    }
    assert_eq!(waited, 2 + 4, "cumulative wait before terminal failure");
    assert!(task.current_request().is_none());
}

#[test]
fn terminal_lookup_failure_leaves_the_registry_entry_unresolved() {
    let mut engine = Engine::new();
    let vlad = sample_vlad();
    engine.track_peer(&vlad.to_text()).unwrap();

    // The lookup for the tracked VLAD fails three times.
    let mut task = ResolutionTask::from_vlad(Vlad::from_bytes(vec![5, 5, 5]).unwrap());
    assert!(matches!(task.on_record(None), TaskStep::Retry { delay_secs: 2 }));
    assert!(matches!(task.on_record(None), TaskStep::Retry { delay_secs: 4 }));
    assert!(matches!(task.on_record(None), TaskStep::Failed(Error::RetriesExhausted)));

    // Nothing is written back; the entry stays tracked and unresolved.
    assert!(engine.is_tracked(&vlad));
    let sweep = engine.handle_event(PeerEvent::PutRecordRequest {
        source: String::from("anyone"),
    });
    assert_eq!(sweep.len(), 1, "the VLAD is still unresolved");
}

#[test]
fn corrupted_record_bytes_fail_at_once_without_retry() {
    let mut task = ResolutionTask::from_vlad(sample_vlad());
    match task.on_record(Some(vec![])) {
        TaskStep::Failed(e) => assert_eq!(e, Error::InvalidHead),
        _ => panic!("empty head bytes are rejected immediately"),
    }
    assert!(task.current_request().is_none());
}

#[test]
fn a_found_record_moves_to_head_resolution_with_a_fresh_budget() {
    let mut task = ResolutionTask::from_vlad(sample_vlad());
    assert!(matches!(task.on_record(None), TaskStep::Retry { delay_secs: 2 }));
    assert!(matches!(task.on_record(Some(vec![9, 9])), TaskStep::Proceed));
    assert!(matches!(
        task.current_request(),
        Some(NetRequest::ResolvePlog { head }) if head == vec![9, 9]
    ));

    // The second stage has its own budget: two retries again.
    assert!(matches!(task.on_resolved(None), TaskStep::Retry { delay_secs: 2 }));
    assert!(matches!(task.on_resolved(None), TaskStep::Retry { delay_secs: 4 }));
    assert!(matches!(task.on_resolved(None), TaskStep::Failed(Error::RetriesExhausted)));
}

#[test]
fn a_resolved_log_is_handed_back_and_written_by_key() {
    let head = HeadRef::from_bytes(vec![1, 2]).unwrap();
    let mut task = ResolutionTask::from_head(sample_vlad(), head);
    let step = task.on_resolved(Some(sample_resolved()));
    let plog = match step {
        TaskStep::Resolved(p) => p,
        _ => panic!("a successful resolution hands the log back"),
    };
    assert_eq!(plog.entry_count(), 3);
    assert!(task.current_request().is_none());

    let mut engine = Engine::new();
    let vlad = sample_vlad();
    engine.track_peer(&vlad.to_text()).unwrap();
    engine.apply_resolution(Vlad::from_bytes(vec![5, 5, 5]).unwrap(), plog);
    let sweep = engine.handle_event(PeerEvent::PutRecordRequest {
        source: String::from("anyone"),
    });
    assert_eq!(sweep.len(), 0, "a resolved entry is not swept again");
}

#[test]
fn head_refs_reject_empty_bytes() {
    assert!(HeadRef::from_bytes(vec![]).is_none());
    assert_eq!(HeadRef::from_bytes(vec![3]).unwrap().as_bytes(), &vec![3]);
}
