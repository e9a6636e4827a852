use context_rag::chunker::Chunk;
use context_rag::ingest::{
    delay_after, IngestAction, IngestError, IngestEvent, IngestStage, Ingestion, Pacing,
};
use context_rag::neighborhood::{expansion_prompt, expansion_request, neighborhood, ExpansionRequest};
use context_rag::prompts::{EXPAND_CURRENT, EXPAND_INTRO, EXPAND_NEXT, EXPAND_RULES};

fn doc(texts: &[&str], path: &str) -> Vec<Chunk> {
    texts
        .iter()
        .enumerate()
        .map(|(i, t)| Chunk { text: t.to_string(), sequence_index: i, source_path: path.to_string() })
        .collect()
}

#[test]
fn middle_chunk_sees_two_on_each_side() {
    let chunks = doc(&["A", "B", "C", "D", "E"], "d.pdf");
    let hood = neighborhood(&chunks, 2, 2);
    assert_eq!(hood.previous, vec!["A", "B"]);
    assert_eq!(hood.next, vec!["D", "E"]);
}

#[test]
fn first_chunk_has_no_previous_neighbours() {
    let chunks = doc(&["A", "B", "C", "D", "E"], "d.pdf");
    let hood = neighborhood(&chunks, 0, 2);
    assert!(hood.previous.is_empty());
    assert_eq!(hood.next, vec!["B", "C"]);
}

#[test]
fn last_chunk_has_no_next_neighbours() {
    let chunks = doc(&["A", "B", "C", "D", "E"], "d.pdf");
    let hood = neighborhood(&chunks, 4, 2);
    assert_eq!(hood.previous, vec!["C", "D"]);
    assert!(hood.next.is_empty());
}

#[test]
fn window_is_cut_short_near_the_start() {
    let chunks = doc(&["A", "B", "C", "D", "E"], "d.pdf");
    let hood = neighborhood(&chunks, 1, 2);
    assert_eq!(hood.previous, vec!["A"]);
    assert_eq!(hood.next, vec!["C", "D"]);
}

#[test]
fn huge_window_does_not_overflow() {
    let chunks = doc(&["A", "B", "C"], "d.pdf");
    let hood = neighborhood(&chunks, 1, usize::MAX);
    assert_eq!(hood.previous, vec!["A"]);
    assert_eq!(hood.next, vec!["C"]);
}

#[test]
fn request_joins_neighbours_by_lines() {
    let chunks = doc(&["A", "B", "C", "D", "E"], "d.pdf");
    let req = expansion_request(&chunks, 2, 2);
    assert_eq!(req.previous, "A\nB");
    assert_eq!(req.input, "C");
    assert_eq!(req.next, "D\nE");
}

#[test]
fn prompt_places_the_three_parts() {
    let req = ExpansionRequest {
        previous: "prev".to_string(),
        input: "cur".to_string(),
        next: "nxt".to_string(),
    };
    let p = expansion_prompt(&req);
    let expected = format!("{}prev{}cur{}nxt{}", EXPAND_INTRO, EXPAND_CURRENT, EXPAND_NEXT, EXPAND_RULES);
    assert_eq!(p, expected);
    assert!(!p.contains("{{"));
}

#[test]
fn pause_follows_every_chunk_but_the_last_unless_asked() {
    let pacing = Pacing { delay_ms: 20000, after_last: false };
    assert_eq!(delay_after(pacing, 0, 3), 20000);
    assert_eq!(delay_after(pacing, 2, 3), 0);
    let always = Pacing { delay_ms: 500, after_last: true };
    assert_eq!(delay_after(always, 2, 3), 500);
}

fn expect_expand(a: &IngestAction, index: usize) -> String {
    match a {
        IngestAction::Expand { index: i, prompt } => {
            assert_eq!(*i, index);
            prompt.clone()
        }
        _ => panic!("expected an expansion"),
    }
}

#[test]
fn ingestion_expands_each_chunk_in_order_with_pauses() {
    let chunks = doc(&["A", "B", "C"], "d.pdf");
    let pacing = Pacing { delay_ms: 10, after_last: false };
    let (mut ing, a) = Ingestion::start(chunks, "d.pdf".to_string(), 2, pacing).unwrap();
    let p0 = expect_expand(&a, 0);
    assert!(p0.contains("A"));
    let a = ing.on_event(IngestEvent::Expanded("A+".to_string()));
    assert!(matches!(a, IngestAction::Pause { millis: 10 }));
    let a = ing.on_event(IngestEvent::Paused);
    let p1 = expect_expand(&a, 1);
    // neighbours come from the original chunks, never from rewrites
    assert!(!p1.contains("A+"));
    let a = ing.on_event(IngestEvent::Expanded("B+".to_string()));
    assert!(matches!(a, IngestAction::Pause { millis: 10 }));
    let a = ing.on_event(IngestEvent::Paused);
    expect_expand(&a, 2);
    let a = ing.on_event(IngestEvent::Expanded("C+".to_string()));
    assert!(matches!(a, IngestAction::Index));
    assert_eq!(ing.stage, IngestStage::Finished);
    let out = ing.finish();
    let texts: Vec<&str> = out.iter().map(|e| e.text.as_str()).collect();
    assert_eq!(texts, vec!["A+", "B+", "C+"]);
    assert!(out.iter().all(|e| e.path == "d.pdf"));
}

#[test]
fn single_chunk_is_still_expanded() {
    let chunks = doc(&["only"], "one.pdf");
    let pacing = Pacing { delay_ms: 0, after_last: false };
    let (mut ing, a) = Ingestion::start(chunks, "one.pdf".to_string(), 2, pacing).unwrap();
    let p = expect_expand(&a, 0);
    let expected = format!("{}{}only{}{}", EXPAND_INTRO, EXPAND_CURRENT, EXPAND_NEXT, EXPAND_RULES);
    assert_eq!(p, expected);
    let a = ing.on_event(IngestEvent::Expanded("only, enriched".to_string()));
    assert!(matches!(a, IngestAction::Index));
    let out = ing.finish();
    assert_eq!(out.len(), 1);
    assert_eq!(out[0].path, "one.pdf");
}

#[test]
fn empty_document_goes_straight_to_indexing() {
    let pacing = Pacing { delay_ms: 0, after_last: false };
    let (ing, a) = Ingestion::start(vec![], "e.pdf".to_string(), 2, pacing).unwrap();
    assert!(matches!(a, IngestAction::Index));
    assert!(ing.finish().is_empty());
}

#[test]
fn failed_call_aborts_and_names_the_chunk() {
    let chunks = doc(&["A", "B"], "d.pdf");
    let pacing = Pacing { delay_ms: 0, after_last: false };
    let (mut ing, _) = Ingestion::start(chunks, "d.pdf".to_string(), 2, pacing).unwrap();
    let a = ing.on_event(IngestEvent::Expanded("A+".to_string()));
    expect_expand(&a, 1);
    let a = ing.on_event(IngestEvent::ExpansionFailed);
    match a {
        IngestAction::Abort { error: IngestError::Generation { path, index } } => {
            assert_eq!(path, "d.pdf");
            assert_eq!(index, 1);
        }
        _ => panic!("expected an abort"),
    }
    assert_eq!(ing.stage, IngestStage::Aborted);
}

#[test]
fn chunks_of_another_document_are_refused() {
    let mut chunks = doc(&["A", "B"], "a.pdf");
    chunks[1].source_path = "b.pdf".to_string();
    let pacing = Pacing { delay_ms: 0, after_last: false };
    let r = Ingestion::start(chunks, "a.pdf".to_string(), 2, pacing);
    assert!(matches!(r, Err(IngestError::ForeignChunk { index: 1 })));
}

#[test]
fn chunks_out_of_place_are_refused() {
    let mut chunks = doc(&["A", "B"], "a.pdf");
    chunks[0].sequence_index = 1;
    let pacing = Pacing { delay_ms: 0, after_last: false };
    let r = Ingestion::start(chunks, "a.pdf".to_string(), 2, pacing);
    assert!(matches!(r, Err(IngestError::ForeignChunk { index: 0 })));
}

#[test]
fn unexpected_event_aborts_the_run() {
    let chunks = doc(&["A", "B"], "d.pdf");
    let pacing = Pacing { delay_ms: 0, after_last: false };
    let (mut ing, _) = Ingestion::start(chunks, "d.pdf".to_string(), 2, pacing).unwrap();
    let a = ing.on_event(IngestEvent::Paused);
    assert!(matches!(a, IngestAction::Abort { error: IngestError::OutOfOrder { index: 0 } }));
}
