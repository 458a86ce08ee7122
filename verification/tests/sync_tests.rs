use live_preview::changes::ChangeOrigin;
use live_preview::document::{PersistOutcome, RenderedArtifact};
use live_preview::failure::{Failure, Trigger};
use live_preview::session::{PollReply, SessionState, Transport};
use live_preview::sync::{trigger_for, LiveSync, Step};

fn apply(sync: &mut LiveSync, origin: ChangeOrigin, text: &str, now: u64) -> Result<u64, Failure> {
    sync.offer(origin, text.as_bytes(), now).unwrap();
    let mut last = Err(Failure::Persist);
    loop {
        match sync.start_next() {
            Step::Idle => break,
            Step::Skipped => {}
            Step::Persist(_) => {
                assert!(sync.pending_markup().is_some());
                last = sync.complete(PersistOutcome::Written, now).report;
            }
        }
    }
    last
}

#[test]
fn example_scenario() {
    let mut sync = LiveSync::new(50, 10_000);
    assert_eq!(apply(&mut sync, ChangeOrigin::FileChange, "# Hi", 0), Ok(1));
    assert_eq!(
        sync.current_artifact(),
        Some(&RenderedArtifact { markup: "<h1>Hi</h1>\n".to_string(), generation: 1 })
    );
    let poller = sync.subscribe(Transport::Poll, 10).id;
    let pusher = sync.subscribe(Transport::Push, 10).id;
    assert_eq!(sync.poll(poller, 20), PollReply::Unchanged);

    assert_eq!(sync.offer(ChangeOrigin::EditSubmission, b"# Bye", 100), Ok(()));
    assert_eq!(sync.start_next(), Step::Persist(ChangeOrigin::EditSubmission));
    assert_eq!(sync.pending_markup(), Some("<h1>Bye</h1>\n"));
    let done = sync.complete(PersistOutcome::Written, 101);
    assert_eq!(done.report, Ok(2));
    assert_eq!(done.origin, ChangeOrigin::EditSubmission);
    assert_eq!(done.deliveries, vec![pusher]);

    assert_eq!(sync.poll(poller, 120), PollReply::Changed(2));
    assert_eq!(
        sync.current_artifact(),
        Some(&RenderedArtifact { markup: "<h1>Bye</h1>\n".to_string(), generation: 2 })
    );

    assert_eq!(sync.offer(ChangeOrigin::FileChange, b"# Bye", 130), Ok(()));
    assert_eq!(sync.start_next(), Step::Skipped);
    assert_eq!(sync.start_next(), Step::Idle);
    assert_eq!(sync.store().generation(), 2);
    assert_eq!(sync.poll(poller, 140), PollReply::Unchanged);
}

#[test]
fn identical_edit_submission_still_advances() {
    let mut sync = LiveSync::new(50, 10_000);
    assert_eq!(apply(&mut sync, ChangeOrigin::EditSubmission, "same", 0), Ok(1));
    assert_eq!(apply(&mut sync, ChangeOrigin::EditSubmission, "same", 1), Ok(2));
}

#[test]
fn identical_file_content_after_failed_persist_is_applied() {
    let mut sync = LiveSync::new(50, 10_000);
    sync.offer(ChangeOrigin::EditSubmission, b"text", 0).unwrap();
    assert_eq!(sync.start_next(), Step::Persist(ChangeOrigin::EditSubmission));
    assert_eq!(sync.complete(PersistOutcome::Failed, 1).report, Err(Failure::Persist));
    assert_eq!(sync.store().current_source(), "text");
    assert_eq!(sync.current_artifact(), None);
    sync.offer(ChangeOrigin::FileChange, b"text", 1000).unwrap();
    assert_eq!(sync.start_next(), Step::Persist(ChangeOrigin::FileChange));
    assert_eq!(sync.complete(PersistOutcome::Written, 1001).report, Ok(1));
}

#[test]
fn invalid_bytes_are_rejected_and_change_nothing() {
    let mut sync = LiveSync::new(50, 10_000);
    assert_eq!(apply(&mut sync, ChangeOrigin::EditSubmission, "good", 0), Ok(1));
    assert_eq!(sync.offer(ChangeOrigin::EditSubmission, &[0xff], 5), Err(Failure::Encoding));
    assert_eq!(sync.offer(ChangeOrigin::FileChange, &[0xc3], 6), Err(Failure::Encoding));
    assert_eq!(sync.queued(), 0);
    assert_eq!(sync.start_next(), Step::Idle);
    assert_eq!(sync.store().current_source(), "good");
    assert_eq!(sync.store().generation(), 1);
}

#[test]
fn failed_persist_is_not_announced() {
    let mut sync = LiveSync::new(50, 10_000);
    assert_eq!(apply(&mut sync, ChangeOrigin::EditSubmission, "one", 0), Ok(1));
    let poller = sync.subscribe(Transport::Poll, 0).id;
    let pusher = sync.subscribe(Transport::Push, 0).id;
    sync.offer(ChangeOrigin::FileChange, b"two", 10).unwrap();
    assert_eq!(sync.start_next(), Step::Persist(ChangeOrigin::FileChange));
    let done = sync.complete(PersistOutcome::Failed, 11);
    assert_eq!(done.report, Err(Failure::Persist));
    assert_eq!(done.origin, ChangeOrigin::FileChange);
    assert_eq!(done.deliveries, Vec::<u64>::new());
    assert_eq!(sync.poll(poller, 12), PollReply::Unchanged);
    assert_eq!(sync.broadcaster().state_of(pusher), SessionState::Connected);
    assert_eq!(sync.store().current_source(), "two");
    assert_eq!(sync.current_artifact().unwrap().markup, "<p>one</p>\n");
}

#[test]
fn burst_of_file_events_gives_one_change() {
    let mut sync = LiveSync::new(50, 10_000);
    let mut reads = 0;
    for t in [0u64, 5, 10, 30, 45] {
        if sync.tick(t) {
            reads += 1;
        }
        sync.file_event(t);
    }
    for t in [60u64, 80, 94, 95, 96, 200] {
        if sync.tick(t) {
            reads += 1;
            sync.offer(ChangeOrigin::FileChange, b"# Final", t).unwrap();
        }
    }
    assert_eq!(reads, 1);
    assert_eq!(sync.queued(), 1);
    assert_eq!(sync.start_next(), Step::Persist(ChangeOrigin::FileChange));
    assert_eq!(sync.complete(PersistOutcome::Written, 201).report, Ok(1));
    assert_eq!(sync.current_artifact().unwrap().markup, "<h1>Final</h1>\n");
}

#[test]
fn rapid_changes_end_in_render_of_the_last() {
    let mut sync = LiveSync::new(50, 10_000);
    sync.offer(ChangeOrigin::FileChange, b"one", 0).unwrap();
    sync.offer(ChangeOrigin::FileChange, b"two", 10).unwrap();
    sync.offer(ChangeOrigin::EditSubmission, b"three", 20).unwrap();
    sync.offer(ChangeOrigin::FileChange, b"# Last", 30).unwrap();
    assert_eq!(sync.queued(), 2);
    assert_eq!(sync.start_next(), Step::Persist(ChangeOrigin::EditSubmission));
    assert_eq!(sync.complete(PersistOutcome::Written, 31).report, Ok(1));
    assert_eq!(sync.start_next(), Step::Persist(ChangeOrigin::FileChange));
    assert_eq!(sync.complete(PersistOutcome::Written, 32).report, Ok(2));
    assert_eq!(sync.start_next(), Step::Idle);
    assert_eq!(sync.store().current_source(), "# Last");
    assert_eq!(sync.current_artifact().unwrap().markup, "<h1>Last</h1>\n");
}

#[test]
fn subscriber_after_change_is_given_current_generation() {
    let mut sync = LiveSync::new(50, 10_000);
    assert_eq!(apply(&mut sync, ChangeOrigin::EditSubmission, "one", 0), Ok(1));
    assert_eq!(apply(&mut sync, ChangeOrigin::EditSubmission, "two", 1), Ok(2));
    let s = sync.subscribe(Transport::Poll, 2);
    assert_eq!(s.last_acknowledged, 2);
    assert_eq!(sync.poll(s.id, 3), PollReply::Unchanged);
    assert_eq!(apply(&mut sync, ChangeOrigin::EditSubmission, "three", 4), Ok(3));
    assert_eq!(sync.poll(s.id, 5), PollReply::Changed(3));
    assert_eq!(sync.current_artifact().unwrap().generation, 3);
}

#[test]
fn stuck_viewer_does_not_hold_up_the_others() {
    let mut sync = LiveSync::new(50, 100);
    let stuck = sync.subscribe(Transport::Push, 0).id;
    let lively = sync.subscribe(Transport::Poll, 0).id;
    for (i, t) in [10u64, 60, 110, 160, 210].iter().enumerate() {
        let text = format!("v{}", i);
        assert_eq!(apply(&mut sync, ChangeOrigin::EditSubmission, &text, *t), Ok(i as u64 + 1));
        assert_eq!(sync.poll(lively, *t + 1), PollReply::Changed(i as u64 + 1));
        let purged = sync.purge_expired(*t + 2);
        if *t + 2 >= 110 {
            if purged.is_empty() {
                assert_eq!(sync.broadcaster().state_of(stuck), SessionState::Disconnected);
            } else {
                assert_eq!(purged, vec![stuck]);
            }
        } else {
            assert!(purged.is_empty());
        }
    }
    assert_eq!(sync.broadcaster().state_of(stuck), SessionState::Disconnected);
    assert_eq!(sync.broadcaster().state_of(lively), SessionState::Connected);
    assert!(!sync.unsubscribe(stuck));
    assert!(sync.unsubscribe(lively));
}

#[test]
fn push_acknowledgement_through_the_pipeline() {
    let mut sync = LiveSync::new(50, 100);
    let id = sync.subscribe(Transport::Push, 0).id;
    sync.offer(ChangeOrigin::EditSubmission, b"x", 1).unwrap();
    assert_eq!(sync.start_next(), Step::Persist(ChangeOrigin::EditSubmission));
    assert_eq!(sync.complete(PersistOutcome::Written, 2).deliveries, vec![id]);
    assert!(sync.acknowledge(id, 1, 3));
    assert_eq!(sync.broadcaster().state_of(id), SessionState::Connected);
    assert!(!sync.acknowledge(id + 1, 1, 3));
}

#[test]
fn origin_decides_who_hears_of_a_failure() {
    assert_eq!(trigger_for(ChangeOrigin::FileChange), Trigger::Watcher);
    assert_eq!(trigger_for(ChangeOrigin::EditSubmission), Trigger::Request);
}
