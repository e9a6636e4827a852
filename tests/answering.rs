use context_rag::chain::{
    answer_text, AnswerMode, ChainAction, ChainEvent, ChatConfig, ChatPhase, ChatTurn, TurnError,
};
use context_rag::config::{validate, ConfigError, Settings};
use context_rag::conversation::{ConversationState, Role};
use context_rag::ingest::Pacing;
use context_rag::prompts::SYSTEM_INSTRUCTION;
use context_rag::retrieval::{context_text, select_context, RetrievedMatch};
use context_rag::sources::{source_list, sources_line};

fn m(content: &str, score: i64, path: &str) -> RetrievedMatch {
    RetrievedMatch { content: content.to_string(), score, path: path.to_string() }
}

fn config(rephrase: bool) -> ChatConfig {
    ChatConfig { rephrase, k: 5, threshold: 550000, retrieval_fallback: false }
}

#[test]
fn matches_below_threshold_are_dropped() {
    let ms = vec![m("a", 810000, "x.pdf"), m("b", 620000, "y.pdf"), m("c", 480000, "z.pdf")];
    let kept = select_context(&ms, 5, 550000);
    let scores: Vec<i64> = kept.iter().map(|k| k.score).collect();
    assert_eq!(scores, vec![810000, 620000]);
}

#[test]
fn score_equal_to_threshold_is_kept() {
    let ms = vec![m("a", 550000, "x.pdf")];
    assert_eq!(select_context(&ms, 5, 550000).len(), 1);
}

#[test]
fn only_the_first_k_matches_count() {
    let ms = vec![m("a", 900000, "a"), m("b", 800000, "b"), m("c", 700000, "c")];
    let kept = select_context(&ms, 2, 0);
    let contents: Vec<&str> = kept.iter().map(|k| k.content.as_str()).collect();
    assert_eq!(contents, vec!["a", "b"]);
}

#[test]
fn nothing_above_threshold_gives_empty_context() {
    let ms = vec![m("a", 100000, "a")];
    assert!(select_context(&ms, 5, 550000).is_empty());
}

#[test]
fn selecting_again_gives_the_same_context() {
    let ms = vec![m("a", 810000, "x"), m("b", 300000, "y"), m("c", 600000, "z")];
    let first = select_context(&ms, 5, 550000);
    let second = select_context(&ms, 5, 550000);
    let again = select_context(&first, 5, 550000);
    let view = |v: &Vec<RetrievedMatch>| -> Vec<(String, i64, String)> {
        v.iter().map(|r| (r.content.clone(), r.score, r.path.clone())).collect()
    };
    assert_eq!(view(&first), view(&second));
    assert_eq!(view(&first), view(&again));
}

#[test]
fn context_joins_passages_with_blank_lines() {
    let ms = vec![m("first", 900000, "a"), m("second", 800000, "b")];
    assert_eq!(context_text(&ms), "first\n\nsecond");
}

#[test]
fn shared_path_is_listed_once() {
    let ms = vec![m("a", 900000, "policy.pdf"), m("b", 800000, "policy.pdf")];
    assert_eq!(source_list(&ms), vec!["policy.pdf".to_string()]);
}

#[test]
fn sources_are_sorted_and_unique() {
    let ms = vec![
        m("a", 1, "zeta.pdf"),
        m("b", 1, "alpha.pdf"),
        m("c", 1, "beta.pdf"),
        m("d", 1, "alpha.pdf"),
        m("e", 1, "alpha"),
    ];
    let list = source_list(&ms);
    assert_eq!(list, vec!["alpha", "alpha.pdf", "beta.pdf", "zeta.pdf"]);
    assert_eq!(sources_line(&list), "alpha, alpha.pdf, beta.pdf, zeta.pdf");
}

#[test]
fn no_matches_give_no_sources() {
    assert!(source_list(&vec![]).is_empty());
}

#[test]
fn answer_text_takes_the_decoded_text() {
    assert_eq!(answer_text("a\\nb".to_string(), Some("a\nb".to_string())), "a\nb");
    assert_eq!(answer_text("bad \\q".to_string(), None), "bad \\q");
}

fn history_about_vacation() -> ConversationState {
    let mut h = ConversationState::new();
    h.record(
        "What is the vacation policy?".to_string(),
        "Employees get 25 vacation days a year.".to_string(),
    );
    h
}

#[test]
fn first_question_goes_to_retrieval_unchanged() {
    let (turn, a) = ChatTurn::begin(
        "What is the vacation policy?".to_string(),
        ConversationState::new(),
        config(true),
        AnswerMode::Blocking,
    );
    assert_eq!(turn.phase, ChatPhase::Retrieving);
    match a {
        ChainAction::Retrieve { query, k } => {
            assert_eq!(query, "What is the vacation policy?");
            assert_eq!(k, 5);
        }
        _ => panic!("expected retrieval"),
    }
}

#[test]
fn follow_up_is_rephrased_with_the_earlier_turns() {
    let (mut turn, a) = ChatTurn::begin(
        "and what about remote days?".to_string(),
        history_about_vacation(),
        config(true),
        AnswerMode::Blocking,
    );
    assert_eq!(turn.phase, ChatPhase::Rephrasing);
    match a {
        ChainAction::Rephrase { prompt } => {
            assert!(prompt.contains("Human: What is the vacation policy?"));
            assert!(prompt.contains("AI: Employees get 25 vacation days a year."));
            assert!(prompt.contains("and what about remote days?"));
        }
        _ => panic!("expected rephrasing"),
    }
    let standalone = "How many remote days does the vacation policy allow?";
    let a = turn.on_event(ChainEvent::Rephrased(standalone.to_string()));
    match a {
        ChainAction::Retrieve { query, .. } => {
            assert_eq!(query, standalone);
            assert!(query.contains("vacation policy"));
        }
        _ => panic!("expected retrieval"),
    }
}

#[test]
fn rephrasing_off_sends_the_question_verbatim() {
    let (_, a) = ChatTurn::begin(
        "and what about remote days?".to_string(),
        history_about_vacation(),
        config(false),
        AnswerMode::Blocking,
    );
    assert!(matches!(a, ChainAction::Retrieve { ref query, .. } if query == "and what about remote days?"));
}

#[test]
fn blocking_turn_answers_and_records() {
    let (mut turn, _) = ChatTurn::begin(
        "What is the vacation policy?".to_string(),
        ConversationState::new(),
        config(true),
        AnswerMode::Blocking,
    );
    let ms = vec![
        m("Vacation is 25 days.", 810000, "policy.pdf"),
        m("Vacation must be approved.", 620000, "policy.pdf"),
        m("Canteen hours.", 480000, "canteen.pdf"),
    ];
    let a = turn.on_event(ChainEvent::Retrieved(ms));
    match a {
        ChainAction::Generate { system, prompt } => {
            assert_eq!(system, SYSTEM_INSTRUCTION);
            assert!(prompt.contains("Vacation is 25 days.\n\nVacation must be approved."));
            assert!(!prompt.contains("Canteen"));
            assert!(prompt.contains("What is the vacation policy?"));
        }
        _ => panic!("expected generation"),
    }
    assert_eq!(turn.context.len(), 2);
    let a = turn.on_event(ChainEvent::Generated("You get\\n25 days.".to_string()));
    match a {
        ChainAction::Finish { answer } => {
            assert_eq!(answer.text, "You get\n25 days.");
            assert_eq!(answer.sources, vec!["policy.pdf".to_string()]);
        }
        _ => panic!("expected an answer"),
    }
    let h = turn.into_history();
    assert_eq!(h.len(), 2);
    assert_eq!(h.turns[0].role, Role::User);
    assert_eq!(h.turns[0].text, "What is the vacation policy?");
    assert_eq!(h.turns[1].role, Role::Assistant);
    assert_eq!(h.turns[1].text, "You get\n25 days.");
}

#[test]
fn answer_without_context_is_no_error() {
    let (mut turn, _) =
        ChatTurn::begin("Unknown?".to_string(), ConversationState::new(), config(false), AnswerMode::Blocking);
    let a = turn.on_event(ChainEvent::Retrieved(vec![m("x", 100, "x.pdf")]));
    assert!(matches!(a, ChainAction::Generate { .. }));
    let a = turn.on_event(ChainEvent::Generated("Not in the documents.".to_string()));
    match a {
        ChainAction::Finish { answer } => {
            assert_eq!(answer.text, "Not in the documents.");
            assert!(answer.sources.is_empty());
        }
        _ => panic!("expected an answer"),
    }
}

#[test]
fn streaming_forwards_fragments_then_records() {
    let (mut turn, _) =
        ChatTurn::begin("Q?".to_string(), ConversationState::new(), config(true), AnswerMode::Streaming);
    turn.on_event(ChainEvent::Retrieved(vec![m("c", 900000, "b.pdf"), m("d", 900000, "a.pdf")]));
    let a = turn.on_event(ChainEvent::Fragment("Hel".to_string()));
    assert!(matches!(a, ChainAction::Forward { ref fragment } if fragment == "Hel"));
    turn.on_event(ChainEvent::Fragment("lo".to_string()));
    let a = turn.on_event(ChainEvent::StreamEnded);
    match a {
        ChainAction::Finish { answer } => {
            assert_eq!(answer.text, "Hello");
            assert_eq!(answer.sources, vec!["a.pdf".to_string(), "b.pdf".to_string()]);
        }
        _ => panic!("expected an answer"),
    }
    let h = turn.into_history();
    assert_eq!(h.len(), 2);
    assert_eq!(h.turns[1].text, "Hello");
}

#[test]
fn disconnect_mid_stream_records_nothing() {
    let history = history_about_vacation();
    let (mut turn, _) = ChatTurn::begin("Q?".to_string(), history, config(false), AnswerMode::Streaming);
    turn.on_event(ChainEvent::Retrieved(vec![m("c", 900000, "b.pdf")]));
    turn.on_event(ChainEvent::Fragment("partial ans".to_string()));
    let a = turn.on_event(ChainEvent::Disconnected);
    assert!(matches!(a, ChainAction::Stop));
    assert_eq!(turn.phase, ChatPhase::Cancelled);
    let h = turn.into_history();
    assert_eq!(h.len(), 2);
    assert_eq!(h.turns[1].text, "Employees get 25 vacation days a year.");
}

#[test]
fn failures_name_the_step_and_leave_history() {
    let (mut turn, _) =
        ChatTurn::begin("Q?".to_string(), history_about_vacation(), config(true), AnswerMode::Blocking);
    let a = turn.on_event(ChainEvent::Failed);
    assert!(matches!(a, ChainAction::Fail { error: TurnError::Rephrase }));
    assert_eq!(turn.into_history().len(), 2);

    let (mut turn, _) =
        ChatTurn::begin("Q?".to_string(), ConversationState::new(), config(true), AnswerMode::Blocking);
    let a = turn.on_event(ChainEvent::Failed);
    assert!(matches!(a, ChainAction::Fail { error: TurnError::Retrieval }));
    assert!(turn.into_history().is_empty());

    let (mut turn, _) =
        ChatTurn::begin("Q?".to_string(), ConversationState::new(), config(true), AnswerMode::Blocking);
    turn.on_event(ChainEvent::Retrieved(vec![]));
    let a = turn.on_event(ChainEvent::Failed);
    assert!(matches!(a, ChainAction::Fail { error: TurnError::Generation }));
    assert_eq!(turn.phase, ChatPhase::Failed);
    assert!(turn.into_history().is_empty());
}

#[test]
fn event_out_of_order_fails_the_turn() {
    let (mut turn, _) =
        ChatTurn::begin("Q?".to_string(), ConversationState::new(), config(true), AnswerMode::Blocking);
    let a = turn.on_event(ChainEvent::Generated("too early".to_string()));
    assert!(matches!(a, ChainAction::Fail { error: TurnError::OutOfOrder }));
    assert!(turn.into_history().is_empty());
}

#[test]
fn fragment_in_blocking_mode_is_out_of_order() {
    let (mut turn, _) =
        ChatTurn::begin("Q?".to_string(), ConversationState::new(), config(true), AnswerMode::Blocking);
    turn.on_event(ChainEvent::Retrieved(vec![]));
    let a = turn.on_event(ChainEvent::Fragment("x".to_string()));
    assert!(matches!(a, ChainAction::Fail { error: TurnError::OutOfOrder }));
}

#[test]
fn transcript_lists_turns_by_role() {
    let h = history_about_vacation();
    assert_eq!(
        h.transcript(),
        "Human: What is the vacation policy?\nAI: Employees get 25 vacation days a year."
    );
}

fn settings() -> Settings {
    Settings {
        model: "gemma3:12b".to_string(),
        embedder: "paraphrase-multilingual".to_string(),
        collection: "documents".to_string(),
        chat: ChatConfig { rephrase: true, k: 5, threshold: 550000, retrieval_fallback: false },
        max_tokens: 512,
        window: 2,
        pacing: Pacing { delay_ms: 0, after_last: false },
    }
}

#[test]
fn sound_settings_pass() {
    assert_eq!(validate(&settings()), Ok(()));
}

#[test]
fn each_broken_setting_is_named() {
    let mut s = settings();
    s.model = String::new();
    assert_eq!(validate(&s), Err(ConfigError::EmptyModel));
    let mut s = settings();
    s.embedder = String::new();
    assert_eq!(validate(&s), Err(ConfigError::EmptyEmbedder));
    let mut s = settings();
    s.collection = String::new();
    assert_eq!(validate(&s), Err(ConfigError::EmptyCollection));
    let mut s = settings();
    s.chat.k = 0;
    assert_eq!(validate(&s), Err(ConfigError::NoResults));
    let mut s = settings();
    s.chat.threshold = 1000001;
    assert_eq!(validate(&s), Err(ConfigError::ThresholdOutOfRange));
    let mut s = settings();
    s.chat.threshold = -1;
    assert_eq!(validate(&s), Err(ConfigError::ThresholdOutOfRange));
    let mut s = settings();
    s.max_tokens = 0;
    assert_eq!(validate(&s), Err(ConfigError::NoTokenBudget));
}

#[test]
fn retrieval_failure_can_fall_back_to_no_context() {
    let cfg = ChatConfig { rephrase: false, k: 5, threshold: 550000, retrieval_fallback: true };
    let (mut turn, _) = ChatTurn::begin("Q?".to_string(), ConversationState::new(), cfg, AnswerMode::Blocking);
    let a = turn.on_event(ChainEvent::Failed);
    match a {
        ChainAction::Generate { prompt, .. } => assert!(prompt.contains("Q?")),
        _ => panic!("expected generation without context"),
    }
    assert_eq!(turn.phase, ChatPhase::Generating);
    assert!(turn.context.is_empty());
}
