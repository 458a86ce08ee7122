use live_preview::document::{DocumentStore, PersistOutcome, RenderedArtifact};
use live_preview::failure::Failure;

fn submit(store: &mut DocumentStore, text: &str, outcome: PersistOutcome) -> Result<u64, Failure> {
    store.begin_change(text.to_string());
    assert!(store.render_in_flight());
    assert!(store.generation() < u64::MAX);
    store.finish_change(outcome)
}

#[test]
fn new_store_is_empty_at_generation_zero() {
    let store = DocumentStore::new();
    assert_eq!(store.current_source(), "");
    assert_eq!(store.generation(), 0);
    assert_eq!(store.current_artifact(), None);
    assert_eq!(store.in_flight_markup(), None);
    assert!(!store.render_in_flight());
    assert!(!store.is_settled());
}

#[test]
fn first_change_gives_generation_one() {
    let mut store = DocumentStore::new();
    assert_eq!(submit(&mut store, "# Hi", PersistOutcome::Written), Ok(1));
    assert_eq!(store.generation(), 1);
    assert_eq!(store.current_source(), "# Hi");
    assert_eq!(
        store.current_artifact(),
        Some(&RenderedArtifact { markup: "<h1>Hi</h1>\n".to_string(), generation: 1 })
    );
    assert!(store.is_settled());
}

#[test]
fn second_change_gives_generation_two() {
    let mut store = DocumentStore::new();
    assert_eq!(submit(&mut store, "# Hi", PersistOutcome::Written), Ok(1));
    assert_eq!(submit(&mut store, "# Bye", PersistOutcome::Written), Ok(2));
    assert_eq!(store.current_source(), "# Bye");
    assert_eq!(
        store.current_artifact(),
        Some(&RenderedArtifact { markup: "<h1>Bye</h1>\n".to_string(), generation: 2 })
    );
}

#[test]
fn submitted_text_is_current_source() {
    let mut store = DocumentStore::new();
    let text = "line one\n\n* two\n* three \u{1f600}\n";
    store.begin_change(text.to_string());
    assert_eq!(store.current_source(), text);
    assert_eq!(store.finish_change(PersistOutcome::Written), Ok(1));
    assert_eq!(store.current_source(), text);
    assert!(store.source_is(&text.to_string()));
    assert!(!store.source_is(&"other".to_string()));
}

#[test]
fn readers_see_previous_artifact_while_render_is_in_flight() {
    let mut store = DocumentStore::new();
    assert_eq!(submit(&mut store, "# Hi", PersistOutcome::Written), Ok(1));
    store.begin_change("# Bye".to_string());
    assert_eq!(store.current_source(), "# Bye");
    assert_eq!(store.generation(), 1);
    assert_eq!(store.in_flight_markup(), Some("<h1>Bye</h1>\n"));
    assert_eq!(
        store.current_artifact(),
        Some(&RenderedArtifact { markup: "<h1>Hi</h1>\n".to_string(), generation: 1 })
    );
    assert!(!store.is_settled());
}

#[test]
fn failed_persist_keeps_edit_but_not_generation() {
    let mut store = DocumentStore::new();
    assert_eq!(submit(&mut store, "# Hi", PersistOutcome::Written), Ok(1));
    assert_eq!(submit(&mut store, "# Bye", PersistOutcome::Failed), Err(Failure::Persist));
    assert_eq!(store.current_source(), "# Bye");
    assert_eq!(store.generation(), 1);
    assert_eq!(
        store.current_artifact(),
        Some(&RenderedArtifact { markup: "<h1>Hi</h1>\n".to_string(), generation: 1 })
    );
    assert!(!store.render_in_flight());
    assert!(!store.is_settled());
}

#[test]
fn failed_first_persist_leaves_no_artifact() {
    let mut store = DocumentStore::new();
    assert_eq!(submit(&mut store, "# Hi", PersistOutcome::Failed), Err(Failure::Persist));
    assert_eq!(store.generation(), 0);
    assert_eq!(store.current_artifact(), None);
    assert_eq!(store.current_source(), "# Hi");
}

#[test]
fn identical_text_is_still_a_full_cycle() {
    let mut store = DocumentStore::new();
    assert_eq!(submit(&mut store, "same", PersistOutcome::Written), Ok(1));
    let before = store.current_artifact().unwrap().markup.clone();
    assert_eq!(submit(&mut store, "same", PersistOutcome::Written), Ok(2));
    assert_eq!(store.current_artifact().unwrap().markup, before);
    assert_eq!(store.current_artifact().unwrap().generation, 2);
}

#[test]
fn generations_are_consecutive_over_mixed_outcomes() {
    let mut store = DocumentStore::new();
    let outcomes = [
        PersistOutcome::Written,
        PersistOutcome::Failed,
        PersistOutcome::Written,
        PersistOutcome::Written,
        PersistOutcome::Failed,
        PersistOutcome::Failed,
        PersistOutcome::Written,
    ];
    let mut observed = Vec::new();
    for (i, outcome) in outcomes.iter().enumerate() {
        let text = format!("text {}", i);
        if let Ok(g) = submit(&mut store, &text, *outcome) {
            observed.push(g);
        }
    }
    assert_eq!(observed, vec![1, 2, 3, 4]);
    assert_eq!(store.generation(), 4);
}

#[test]
fn burst_ends_in_render_of_last_text() {
    let mut store = DocumentStore::new();
    for i in 0..20 {
        let text = format!("draft {}", i);
        let _ = submit(&mut store, &text, if i % 3 == 0 { PersistOutcome::Failed } else { PersistOutcome::Written });
    }
    assert_eq!(submit(&mut store, "# Final", PersistOutcome::Written), Ok(14));
    assert_eq!(store.current_source(), "# Final");
    assert_eq!(store.current_artifact().unwrap().markup, "<h1>Final</h1>\n");
    assert_eq!(store.current_artifact().unwrap().generation, store.generation());
}

#[test]
fn later_begin_supersedes_render_in_flight() {
    let mut store = DocumentStore::new();
    store.begin_change("# One".to_string());
    store.begin_change("# Two".to_string());
    assert_eq!(store.in_flight_markup(), Some("<h1>Two</h1>\n"));
    assert_eq!(store.finish_change(PersistOutcome::Written), Ok(1));
    assert_eq!(store.current_artifact().unwrap().markup, "<h1>Two</h1>\n");
}
