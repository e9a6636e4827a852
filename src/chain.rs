//! One turn of a chat session: rephrase, retrieve, generate, then record.
//! The caller performs each action and reports what came of it.
use vstd::prelude::*;

use crate::conversation::{ConversationState, Role, transcript};
use crate::prompts::{
    ANSWER_CONTEXT, ANSWER_QUESTION, ANSWER_RULES, CONTEXT_SEPARATOR, REPHRASE_END, REPHRASE_INTRO,
    REPHRASE_QUESTION, SYSTEM_INSTRUCTION,
};
use crate::retrieval::{context_text, contents, match_views, select_context, selected, RetrievedMatch};
use crate::sources::{match_paths, same_entries, source_list, strictly_sorted};
use crate::text::{joined, views};

verus! {

/// Settings of the chat side, fixed at startup.
#[derive(Clone, Copy, Debug, PartialEq, Eq, Structural)]
pub struct ChatConfig {
    /// Rewrite follow-up questions into standalone ones before retrieval.
    pub rephrase: bool,
    /// How many passages to ask the store for.
    pub k: usize,
    /// The least score, in millionths, that a passage needs to be used.
    pub threshold: i64,
    /// When retrieval fails, answer without context instead of failing the turn.
    pub retrieval_fallback: bool,
}

#[derive(Clone, Copy, Debug, PartialEq, Eq, Structural)]
pub enum AnswerMode {
    /// The answer comes back whole.
    Blocking,
    /// The answer comes back in fragments, each passed on as it arrives.
    Streaming,
}

#[derive(Clone, Copy, Debug, PartialEq, Eq, Structural)]
pub enum ChatPhase {
    Rephrasing,
    Retrieving,
    Generating,
    /// The answer was given and the turn recorded.
    Done,
    /// A step failed; nothing was recorded.
    Failed,
    /// The caller went away; nothing was recorded.
    Cancelled,
}

/// Why a turn failed. This is distinct from an answer given without context.
#[derive(Clone, Copy, Debug, PartialEq, Eq, Structural)]
pub enum TurnError {
    Rephrase,
    Retrieval,
    Generation,
    /// An event came that the turn was not waiting for.
    OutOfOrder,
}

pub enum ChainEvent {
    /// The model's standalone version of the question.
    Rephrased(String),
    /// The store's matches for the query, best first.
    Retrieved(Vec<RetrievedMatch>),
    /// The model's whole answer (blocking mode).
    Generated(String),
    /// The next piece of the answer (streaming mode).
    Fragment(String),
    /// The answer stream ended normally.
    StreamEnded,
    /// The caller went away.
    Disconnected,
    /// The step under way failed or timed out.
    Failed,
}

/// An answer and the documents behind it.
pub struct Answer {
    pub text: String,
    pub sources: Vec<String>,
}

pub enum ChainAction {
    /// Ask the model to rewrite the question with this prompt.
    Rephrase { prompt: String },
    /// Ask the store for the `k` passages nearest to `query`.
    Retrieve { query: String, k: usize },
    /// Ask the model to answer, with this system instruction and prompt.
    Generate { system: String, prompt: String },
    /// Pass this piece of the answer on to the caller.
    Forward { fragment: String },
    /// The turn is over; give the caller this answer.
    Finish { answer: Answer },
    /// The turn failed.
    Fail { error: TurnError },
    /// The turn was abandoned.
    Stop,
}

/// The prompt that asks for a standalone version of `question`.
pub open spec fn rephrase_text(history: Seq<(Role, Seq<char>)>, question: Seq<char>) -> Seq<char> {
    REPHRASE_INTRO@ + transcript(history) + REPHRASE_QUESTION@ + question + REPHRASE_END@
}

/// The rephrasing prompt carries the whole earlier conversation, word for word,
/// followed by the follow-up question, so that the standalone question can draw
/// on what was asked and answered before.
pub proof fn lemma_rephrase_carries_history(
    history: Seq<(Role, Seq<char>)>,
    question: Seq<char>,
)
    ensures
        ({
            let p = rephrase_text(history, question);
            let a = REPHRASE_INTRO@.len() as int;
            let b = a + transcript(history).len();
            let c = b + REPHRASE_QUESTION@.len();
            &&& p.subrange(a, b) == transcript(history)
            &&& p.subrange(c, c + question.len()) == question
        }),
{
    let p = rephrase_text(history, question);
    let a = REPHRASE_INTRO@.len() as int;
    let b = a + transcript(history).len();
    let c = b + REPHRASE_QUESTION@.len();
    assert(p.subrange(a, b) =~= transcript(history));
    assert(p.subrange(c, c + question.len()) =~= question);
}

/// The prompt that asks for the answer to `question` from `context`.
pub open spec fn question_text(
    question: Seq<char>,
    context: Seq<(Seq<char>, int, Seq<char>)>,
) -> Seq<char> {
    ANSWER_QUESTION@ + question + ANSWER_CONTEXT@ + joined(contents(context), CONTEXT_SEPARATOR@)
        + ANSWER_RULES@
}

pub open spec fn string_option_view(o: Option<String>) -> Option<Seq<char>> {
    match o {
        Some(t) => Some(t@),
        None => None,
    }
}

/// `s` holds no backslash.
pub open spec fn escape_free(s: Seq<char>) -> bool {
    !s.contains('\\')
}

/// `s` with its backslash escapes replaced, or `None` where one is malformed.
pub uninterp spec fn unescaped(s: Seq<char>) -> Option<Seq<char>>;

/// Relies on `unescape::unescape`: it replaces backslash escapes (`\n`,
/// `\t`, `\u0041`, ...) and gives `None` on a malformed one; the result depends
/// on the text alone, and a text without a backslash comes back as it was.
#[verifier::external_body]
fn unescape_text(s: &str) -> (r: Option<String>)
    ensures
        string_option_view(r) == unescaped(s@),
        escape_free(s@) ==> string_option_view(r) == Some(s@),
{
    unescape::unescape(s)
}

/// The text of a blocking answer: `raw` with its escapes replaced, where they
/// are well formed (`decoded` is what unescaping `raw` gave); else `raw` as it is.
pub fn answer_text(raw: String, decoded: Option<String>) -> (r: String)
    ensures
        r@ == match decoded {
            Some(t) => t@,
            None => raw@,
        },
{
    match decoded {
        Some(t) => t,
        None => raw,
    }
}

/// The answer text for a raw model reply.
pub open spec fn decoded_answer(raw: Seq<char>) -> Seq<char> {
    match unescaped(raw) {
        Some(t) => t,
        None => raw,
    }
}

pub open spec fn asks_retrieval(a: ChainAction, query: Seq<char>, k: usize) -> bool {
    a matches ChainAction::Retrieve { query: q, k: kk } && q@ == query && kk == k
}

pub open spec fn asks_generation(
    a: ChainAction,
    query: Seq<char>,
    context: Seq<(Seq<char>, int, Seq<char>)>,
) -> bool {
    a matches ChainAction::Generate { system, prompt } && system@ == SYSTEM_INSTRUCTION@ && prompt@
        == question_text(query, context)
}

/// `a` hands over an answer with this text, whose sources are the paths of
/// `context`, sorted, each once.
pub open spec fn gives_answer(
    a: ChainAction,
    text: Seq<char>,
    context: Seq<(Seq<char>, int, Seq<char>)>,
) -> bool {
    a matches ChainAction::Finish { answer } && answer.text@ == text && strictly_sorted(
        views(answer.sources@),
    ) && same_entries(views(answer.sources@), context.map_values(|m: (Seq<char>, int, Seq<char>)| m.2))
}

/// One turn of a session. It owns the session's history while it runs and
/// gives it back at the end, changed only if an answer was completed.
pub struct ChatTurn {
    pub config: ChatConfig,
    pub mode: AnswerMode,
    /// The question as the user asked it; this is what the history records.
    pub question: String,
    pub history: ConversationState,
    /// The question that retrieval and generation use.
    pub query: String,
    /// The passages chosen for the answer.
    pub context: Vec<RetrievedMatch>,
    /// The streamed answer so far.
    pub partial: String,
    pub phase: ChatPhase,
    /// The history as the turn found it.
    pub initial: Ghost<Seq<(Role, Seq<char>)>>,
}

impl ChatTurn {
    pub open spec fn wf(&self) -> bool {
        if self.phase == ChatPhase::Done {
            &&& self.history@.len() == self.initial@.len() + 2
            &&& self.history@.take(self.initial@.len() as int) == self.initial@
            &&& self.history@[self.initial@.len() as int] == (Role::User, self.question@)
        } else {
            self.history@ == self.initial@
        }
    }

    /// Starts a turn on `question`. With rephrasing on and earlier turns in the
    /// history, the first step rewrites the question; else the question goes to
    /// retrieval as it is.
    pub fn begin(
        question: String,
        history: ConversationState,
        config: ChatConfig,
        mode: AnswerMode,
    ) -> (r: (ChatTurn, ChainAction))
        ensures
            r.0.wf(),
            r.0.initial@ == history@,
            r.0.question@ == question@,
            r.0.config == config,
            r.0.mode == mode,
            if config.rephrase && history@.len() > 0 {
                &&& r.0.phase == ChatPhase::Rephrasing
                &&& r.1 matches ChainAction::Rephrase { prompt } && prompt@ == rephrase_text(
                    history@,
                    question@,
                )
            } else {
                &&& r.0.phase == ChatPhase::Retrieving
                &&& r.0.query@ == question@
                &&& asks_retrieval(r.1, question@, config.k)
            },
    {
        let rephrase = config.rephrase && !history.is_empty();
        let ghost initial = history@;
        let mut turn = ChatTurn {
            config,
            mode,
            question,
            history,
            query: String::new(),
            context: Vec::new(),
            partial: String::new(),
            phase: ChatPhase::Retrieving,
            initial: Ghost(initial),
        };
        if rephrase {
            turn.phase = ChatPhase::Rephrasing;
            let mut prompt = String::from_str(REPHRASE_INTRO);
            let past = turn.history.transcript();
            prompt.append(past.as_str());
            prompt.append(REPHRASE_QUESTION);
            prompt.append(turn.question.as_str());
            prompt.append(REPHRASE_END);
            (turn, ChainAction::Rephrase { prompt })
        } else {
            turn.query = turn.question.clone();
            let action = ChainAction::Retrieve { query: turn.question.clone(), k: config.k };
            (turn, action)
        }
    }

    fn generation_request(&self) -> (r: ChainAction)
        ensures
            asks_generation(r, self.query@, match_views(self.context@)),
    {
        let mut prompt = String::from_str(ANSWER_QUESTION);
        prompt.append(self.query.as_str());
        prompt.append(ANSWER_CONTEXT);
        let passages = context_text(&self.context);
        prompt.append(passages.as_str());
        prompt.append(ANSWER_RULES);
        ChainAction::Generate { system: String::from_str(SYSTEM_INSTRUCTION), prompt }
    }

    /// Records the turn with answer `text` and hands the answer out.
    fn complete(&mut self, text: String) -> (r: ChainAction)
        requires
            old(self).wf(),
            old(self).phase == ChatPhase::Generating,
        ensures
            final(self).wf(),
            final(self).phase == ChatPhase::Done,
            final(self).history@ == old(self).history@.push((Role::User, old(self).question@)).push(
                (Role::Assistant, text@),
            ),
            final(self).question == old(self).question,
            final(self).query == old(self).query,
            final(self).context == old(self).context,
            final(self).partial == old(self).partial,
            final(self).config == old(self).config,
            final(self).mode == old(self).mode,
            final(self).initial == old(self).initial,
            gives_answer(r, text@, match_views(old(self).context@)),
    {
        let sources = source_list(&self.context);
        assert(match_paths(self.context@) =~= match_views(self.context@).map_values(
            |m: (Seq<char>, int, Seq<char>)| m.2,
        ));
        self.history.record(self.question.clone(), text.clone());
        self.phase = ChatPhase::Done;
        assert(self.history@.take(self.initial@.len() as int) =~= self.initial@);
        ChainAction::Finish { answer: Answer { text, sources } }
    }

    /// Takes what the caller saw after the last action, and says what to do next.
    /// History changes only when an answer is complete; a failure, a
    /// disconnection or an event out of order leaves it as it was.
    pub fn on_event(&mut self, event: ChainEvent) -> (r: ChainAction)
        requires
            old(self).wf(),
        ensures
            final(self).wf(),
            final(self).question == old(self).question,
            final(self).config == old(self).config,
            final(self).mode == old(self).mode,
            final(self).initial == old(self).initial,
            final(self).phase != ChatPhase::Done ==> final(self).history@ == old(self).history@,
            ({
                let cfg = old(self).config;
                let streaming = old(self).mode == AnswerMode::Streaming;
                let active = old(self).phase == ChatPhase::Rephrasing || old(self).phase
                    == ChatPhase::Retrieving || old(self).phase == ChatPhase::Generating;
                let ctx = match_views(old(self).context@);
                match (old(self).phase, event) {
                    (ChatPhase::Rephrasing, ChainEvent::Rephrased(q)) => {
                        &&& final(self).phase == ChatPhase::Retrieving
                        &&& final(self).query@ == q@
                        &&& asks_retrieval(r, q@, cfg.k)
                    },
                    (ChatPhase::Retrieving, ChainEvent::Retrieved(ms)) => {
                        &&& final(self).phase == ChatPhase::Generating
                        &&& match_views(final(self).context@) == selected(
                            match_views(ms@),
                            cfg.k as int,
                            cfg.threshold as int,
                        )
                        &&& asks_generation(
                            r,
                            old(self).query@,
                            match_views(final(self).context@),
                        )
                    },
                    (ChatPhase::Generating, ChainEvent::Generated(text)) if !streaming => {
                        &&& final(self).phase == ChatPhase::Done
                        &&& final(self).history@ == old(self).history@.push(
                            (Role::User, old(self).question@),
                        ).push((Role::Assistant, decoded_answer(text@)))
                        &&& gives_answer(r, decoded_answer(text@), ctx)
                    },
                    (ChatPhase::Generating, ChainEvent::Fragment(f)) if streaming => {
                        &&& final(self).phase == ChatPhase::Generating
                        &&& final(self).partial@ == old(self).partial@ + f@
                        &&& r matches ChainAction::Forward { fragment } && fragment@ == f@
                    },
                    (ChatPhase::Generating, ChainEvent::StreamEnded) if streaming => {
                        &&& final(self).phase == ChatPhase::Done
                        &&& final(self).history@ == old(self).history@.push(
                            (Role::User, old(self).question@),
                        ).push((Role::Assistant, old(self).partial@))
                        &&& gives_answer(r, old(self).partial@, ctx)
                    },
                    (_, ChainEvent::Disconnected) if active => {
                        &&& final(self).phase == ChatPhase::Cancelled
                        &&& r is Stop
                    },
                    (ChatPhase::Rephrasing, ChainEvent::Failed) => {
                        final(self).phase == ChatPhase::Failed && r == (ChainAction::Fail {
                            error: TurnError::Rephrase,
                        })
                    },
                    (ChatPhase::Retrieving, ChainEvent::Failed) => if cfg.retrieval_fallback {
                        &&& final(self).phase == ChatPhase::Generating
                        &&& final(self).context@.len() == 0
                        &&& asks_generation(r, old(self).query@, Seq::empty())
                    } else {
                        final(self).phase == ChatPhase::Failed && r == (ChainAction::Fail {
                            error: TurnError::Retrieval,
                        })
                    },
                    (ChatPhase::Generating, ChainEvent::Failed) => {
                        final(self).phase == ChatPhase::Failed && r == (ChainAction::Fail {
                            error: TurnError::Generation,
                        })
                    },
                    _ => {
                        &&& final(self).phase == (if active {
                            ChatPhase::Failed
                        } else {
                            old(self).phase
                        })
                        &&& r == (ChainAction::Fail { error: TurnError::OutOfOrder })
                    },
                }
            }),
    {
        let streaming = match self.mode {
            AnswerMode::Streaming => true,
            AnswerMode::Blocking => false,
        };
        let active = match self.phase {
            ChatPhase::Rephrasing | ChatPhase::Retrieving | ChatPhase::Generating => true,
            _ => false,
        };
        match (self.phase, event) {
            (ChatPhase::Rephrasing, ChainEvent::Rephrased(q)) => {
                self.phase = ChatPhase::Retrieving;
                let action = ChainAction::Retrieve { query: q.clone(), k: self.config.k };
                self.query = q;
                action
            },
            (ChatPhase::Retrieving, ChainEvent::Retrieved(ms)) => {
                self.context = select_context(&ms, self.config.k, self.config.threshold);
                self.phase = ChatPhase::Generating;
                self.generation_request()
            },
            (ChatPhase::Generating, ChainEvent::Generated(text)) if !streaming => {
                let decoded = unescape_text(text.as_str());
                let answer = answer_text(text, decoded);
                self.complete(answer)
            },
            (ChatPhase::Generating, ChainEvent::Fragment(f)) if streaming => {
                self.partial.append(f.as_str());
                ChainAction::Forward { fragment: f }
            },
            (ChatPhase::Generating, ChainEvent::StreamEnded) if streaming => {
                let text = self.partial.clone();
                self.complete(text)
            },
            (_, ChainEvent::Disconnected) if active => {
                self.phase = ChatPhase::Cancelled;
                ChainAction::Stop
            },
            (ChatPhase::Rephrasing, ChainEvent::Failed) => {
                self.phase = ChatPhase::Failed;
                ChainAction::Fail { error: TurnError::Rephrase }
            },
            (ChatPhase::Retrieving, ChainEvent::Failed) => {
                if self.config.retrieval_fallback {
                    self.context = Vec::new();
                    self.phase = ChatPhase::Generating;
                    assert(match_views(self.context@) =~= Seq::empty());
                    self.generation_request()
                } else {
                    self.phase = ChatPhase::Failed;
                    ChainAction::Fail { error: TurnError::Retrieval }
                }
            },
            (ChatPhase::Generating, ChainEvent::Failed) => {
                self.phase = ChatPhase::Failed;
                ChainAction::Fail { error: TurnError::Generation }
            },
            _ => {
                if active {
                    self.phase = ChatPhase::Failed;
                }
                ChainAction::Fail { error: TurnError::OutOfOrder }
            },
        }
    }

    /// Ends the turn and gives the session's history back.
    pub fn into_history(self) -> (r: ConversationState)
        ensures
            r@ == self.history@,
    {
        self.history
    }
}

} // verus!
