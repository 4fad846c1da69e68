//! The session controller: it owns the transcript and the one run in flight,
//! and carries out the submit / populate / stream / settle protocol.

use vstd::prelude::*;
use vstd::pervasive::unreached;
use vstd::string::StringExecFns;
use crate::context::{views, AssistantContext, CodebaseContext, CodebaseExcerpt, ContextView};
use crate::error::ChatError;
use crate::ids::{ContextId, MessageId};
use crate::message::{AssistantMessage, ChatMessage, CompletionMessage, UserMessage};
use crate::preservation::{
    lemma_edit_inv, lemma_init_inv, lemma_populate_context_inv, lemma_push_chunk_inv,
    lemma_settings_inv, lemma_settle_inv, lemma_submit_inv, lemma_truncate_inv,
};
use crate::session::{ChatView, CompletionStage, PendingCompletion, Submit, SubmitMode};
use crate::transcript::{
    codebase_context_of, lemma_position_absent, lemma_position_found, lemma_position_unique,
    lemma_position_valid, position_of, rendered_transcript, user_message_of, user_position_of,
    with_error,
};

verus! {

/// How many hits a codebase search is asked for.
pub const CODEBASE_SEARCH_LIMIT: usize = 4;

/// The search a `Codebase` submission asks its driver to run: the text of the
/// submitted turn, bounded to the best `limit` hits. The excerpts go to the
/// context `context_id` of the turn `message_id`.
#[derive(Debug)]
pub struct ContextQuery {
    pub message_id: MessageId,
    pub context_id: ContextId,
    pub query: String,
    pub limit: usize,
}

/// What a submission started: the run, and the search to perform before the
/// run may stream, if the mode asks for one.
#[derive(Debug)]
pub struct Submission {
    pub completion: PendingCompletion,
    pub retrieval: Option<ContextQuery>,
}

/// What a completion provider is asked: the model and the rendered
/// transcript.
#[derive(Debug)]
pub struct CompletionRequest {
    pub model: String,
    pub messages: Vec<CompletionMessage>,
}

/// The failure message of an outcome, if it is a failure.
pub open spec fn failure_of(outcome: Result<(), String>) -> Option<Seq<char>> {
    match outcome {
        Ok(_) => None,
        Err(message) => Some(message@),
    }
}

/// A chat session: one linear transcript, the allocators of its identifiers,
/// the selected model, the turn that holds input focus, and the run in
/// flight.
#[derive(Debug)]
pub struct AssistantChat {
    model: String,
    messages: Vec<ChatMessage>,
    next_message_id: MessageId,
    next_context_id: ContextId,
    focus: Option<MessageId>,
    pending_completion: Option<PendingCompletion>,
}

impl View for AssistantChat {
    type V = ChatView;

    closed spec fn view(&self) -> ChatView {
        ChatView {
            model: self.model@,
            messages: views(self.messages@),
            next_message_id: self.next_message_id,
            next_context_id: self.next_context_id,
            focus: self.focus,
            pending: self.pending_completion,
        }
    }
}

impl AssistantChat {
    /// What holds of every session: see [`ChatView::inv`].
    pub open spec fn inv(&self) -> bool {
        self@.inv()
    }

    /// A fresh session that talks to `model`: one empty user turn with
    /// identifier 0, which holds input focus.
    pub fn new(model: String) -> (chat: Self)
        ensures
            chat@ == ChatView::init(model@),
            chat.inv(),
    {
        let mut chat = AssistantChat {
            model,
            messages: Vec::new(),
            next_message_id: MessageId(0),
            next_context_id: ContextId(0),
            focus: None,
            pending_completion: None,
        };
        chat.push_new_user_message(true);
        proof {
            assert(chat@.messages =~= ChatView::init(model@).messages);
            lemma_init_inv(model@);
        }
        chat
    }

    /// The selected model.
    pub fn model(&self) -> (model: &String)
        ensures
            model@ == self@.model,
    {
        &self.model
    }

    /// Selects the model that later completions are asked of.
    pub fn set_model(&mut self, model: String)
        requires
            old(self).inv(),
        ensures
            final(self)@ == old(self)@.with_model(model@),
            final(self).inv(),
    {
        proof {
            lemma_settings_inv(self@, model@, self@.focus);
        }
        self.model = model;
    }

    /// The transcript, oldest turn first.
    pub fn messages(&self) -> (messages: &Vec<ChatMessage>)
        ensures
            views(messages@) == self@.messages,
    {
        &self.messages
    }

    /// The run in flight, if there is one.
    pub fn pending_completion(&self) -> (pending: Option<PendingCompletion>)
        ensures
            pending == self@.pending,
    {
        self.pending_completion
    }

    /// Whether a submission in `mode` can still mint the identifiers it
    /// needs.
    pub fn has_room(&self, mode: SubmitMode) -> (room: bool)
        ensures
            room == self@.has_room(mode),
    {
        let contexts_left = match mode {
            SubmitMode::Codebase => self.next_context_id.0 < usize::MAX,
            _ => true,
        };
        self.next_message_id.0 < usize::MAX - 1 && contexts_left
    }

    /// Moves input focus to the turn `focus`, or away from every turn.
    pub fn set_focus(&mut self, focus: Option<MessageId>)
        requires
            old(self).inv(),
        ensures
            final(self)@ == old(self)@.with_focus(focus),
            final(self).inv(),
    {
        proof {
            lemma_settings_inv(self@, self@.model, focus);
        }
        self.focus = focus;
    }

    /// The index of the first turn that carries `id`.
    fn position(&self, id: MessageId) -> (found: Option<usize>)
        ensures
            match found {
                Some(i) => {
                    &&& position_of(self@.messages, id) == Some(i as int)
                    &&& i < self.messages.len()
                    &&& self@.messages[i as int] == self.messages[i as int]@
                },
                None => position_of(self@.messages, id) is None,
            },
    {
        let mut i: usize = 0;
        while i < self.messages.len()
            invariant
                i <= self.messages.len(),
                forall|j: int| 0 <= j < i ==> (#[trigger] self@.messages[j]).id() != id,
            decreases self.messages.len() - i,
        {
            if self.messages[i].id() == id {
                proof {
                    lemma_position_found(self@.messages, id, i as int);
                }
                return Some(i);
            }
            i += 1;
        }
        proof {
            lemma_position_absent(self@.messages, id);
        }
        None
    }

    /// The index of the turn that carries `id`, provided it is a user turn.
    fn user_position(&self, id: MessageId) -> (found: Option<usize>)
        ensures
            match found {
                Some(i) => {
                    &&& user_position_of(self@.messages, id) == Some(i as int)
                    &&& i < self.messages.len()
                    &&& self@.messages[i as int] == self.messages[i as int]@
                    &&& self.messages[i as int] is User
                },
                None => user_position_of(self@.messages, id) is None,
            },
    {
        proof {
            lemma_position_valid(self@.messages, id);
        }
        match self.position(id) {
            Some(i) => match &self.messages[i] {
                ChatMessage::User(_) => Some(i),
                ChatMessage::Assistant(_) => None,
            },
            None => None,
        }
    }

    /// The user turn that holds input focus, if one does.
    pub fn focused_message_id(&self) -> (id: Option<MessageId>)
        ensures
            id == self@.focused_message_id(),
    {
        match self.focus {
            Some(id) => match self.user_position(id) {
                Some(_) => Some(id),
                None => None,
            },
            None => None,
        }
    }

    /// The user turn that carries `message_id`.
    pub fn user_message(&self, message_id: MessageId) -> (result: Result<&UserMessage, ChatError>)
        ensures
            match result {
                Ok(message) => user_message_of(self@.messages, message_id) == Some(message@),
                Err(error) => error == ChatError::UserMessageNotFound && user_message_of(
                    self@.messages,
                    message_id,
                ) is None,
            },
    {
        proof {
            lemma_position_valid(self@.messages, message_id);
        }
        match self.user_position(message_id) {
            Some(i) => match &self.messages[i] {
                ChatMessage::User(message) => Ok(message),
                ChatMessage::Assistant(_) => unreached(),
            },
            None => Err(ChatError::UserMessageNotFound),
        }
    }

    /// The codebase context `context_id` of the user turn `message_id`.
    pub fn codebase_context(&self, message_id: MessageId, context_id: ContextId) -> (result: Result<
        &CodebaseContext,
        ChatError,
    >)
        ensures
            match result {
                Ok(context) => codebase_context_of(self@.messages, message_id, context_id) == Some(
                    context@,
                ),
                Err(error) => error == ChatError::CodebaseContextNotFound && codebase_context_of(
                    self@.messages,
                    message_id,
                    context_id,
                ) is None,
            },
    {
        let message = match self.user_message(message_id) {
            Ok(message) => message,
            Err(_) => {
                return Err(ChatError::CodebaseContextNotFound);
            },
        };
        match message.context_position(context_id) {
            Some(a) => match &message.contexts[a] {
                AssistantContext::Codebase(context) => Ok(context),
            },
            None => Err(ChatError::CodebaseContextNotFound),
        }
    }

    /// Replaces the text of the user turn `message_id`.
    pub fn set_message_text(&mut self, message_id: MessageId, text: String) -> (result: Result<
        (),
        ChatError,
    >)
        requires
            old(self).inv(),
        ensures
            final(self)@ == old(self)@.edit(message_id, text@),
            final(self).inv(),
            match result {
                Ok(_) => user_message_of(old(self)@.messages, message_id) is Some,
                Err(error) => error == ChatError::UserMessageNotFound && user_message_of(
                    old(self)@.messages,
                    message_id,
                ) is None,
            },
    {
        proof {
            lemma_edit_inv(self@, message_id, text@);
            lemma_position_valid(self@.messages, message_id);
        }
        match self.user_position(message_id) {
            Some(i) => {
                match &mut self.messages[i] {
                    ChatMessage::User(message) => {
                        message.body = text;
                    },
                    ChatMessage::Assistant(_) => {},
                }
                proof {
                    assert(self@.messages =~= old(self)@.edit(message_id, text@).messages);
                }
                Ok(())
            },
            None => Err(ChatError::UserMessageNotFound),
        }
    }

    /// Appends a turn to the transcript.
    fn push_message(&mut self, message: ChatMessage)
        ensures
            final(self)@ == old(self)@.push_message(message@),
    {
        self.messages.push(message);
        proof {
            assert(self@.messages =~= old(self)@.messages.push(message@));
        }
    }

    /// Appends an empty user turn with a new identifier, which takes input
    /// focus if `focus` is set.
    fn push_new_user_message(&mut self, focus: bool) -> (id: MessageId)
        requires
            old(self)@.next_message_id.0 < usize::MAX,
        ensures
            final(self)@ == old(self)@.push_new_user_message(focus),
            id == old(self)@.next_message_id,
    {
        let id = self.next_message_id.post_inc();
        if focus {
            self.focus = Some(id);
        }
        let message = ChatMessage::User(
            UserMessage { id, body: String::new(), contexts: Vec::new() },
        );
        proof {
            assert(message@.arrow_User_0().contexts =~= Seq::empty());
        }
        self.push_message(message);
        id
    }

    /// Appends an empty assistant turn with a new identifier.
    fn push_new_assistant_message(&mut self) -> (id: MessageId)
        requires
            old(self)@.next_message_id.0 < usize::MAX,
        ensures
            final(self)@ == old(self)@.push_new_assistant_message(),
            id == old(self)@.next_message_id,
    {
        let id = self.next_message_id.post_inc();
        let message = ChatMessage::Assistant(
            AssistantMessage { id, body: String::new(), error: None },
        );
        self.push_message(message);
        id
    }

    /// Removes every turn after the one that carries `last_message_id`; does
    /// nothing where no turn carries it. A run whose assistant turn is
    /// removed is no longer in flight.
    pub fn truncate_messages(&mut self, last_message_id: MessageId)
        requires
            old(self).inv(),
        ensures
            final(self)@ == old(self)@.truncate(last_message_id),
            final(self).inv(),
    {
        proof {
            lemma_truncate_inv(self@, last_message_id);
            lemma_position_valid(self@.messages, last_message_id);
        }
        let ghost turns = self@.messages;
        match self.position(last_message_id) {
            Some(index) => {
                let removes = index + 1 < self.messages.len();
                self.messages.truncate(index + 1);
                proof {
                    assert(self@.messages =~= turns.take(index + 1));
                }
                if removes {
                    proof {
                        match self.pending_completion {
                            Some(run) => {
                                let n = turns.len() as int;
                                assert forall|j: int| 0 <= j < self@.messages.len() implies (
                                #[trigger] self@.messages[j]).id() != run.assistant_id by {
                                    assert(self@.messages[j] == turns[j]);
                                    assert(turns[j].id().0 < turns[n - 1].id().0);
                                }
                                lemma_position_absent(self@.messages, run.assistant_id);
                            },
                            None => {},
                        }
                    }
                    self.pending_completion = None;
                } else {
                    proof {
                        match self.pending_completion {
                            Some(run) => {
                                assert(self@.messages =~= turns);
                                lemma_position_unique(turns, run.assistant_id, turns.len() - 1);
                            },
                            None => {},
                        }
                    }
                }
            },
            None => {
                proof {
                    match self.pending_completion {
                        Some(run) => {
                            lemma_position_unique(turns, run.assistant_id, turns.len() - 1);
                        },
                        None => {},
                    }
                }
            },
        }
    }

    /// Attaches what a submission in `mode` asks for to the user turn
    /// `submitted_id`. For `Codebase` that is a pending context with a new
    /// identifier, and the result is the search to run for it; the other
    /// modes attach nothing.
    fn populate_context_on_submit(&mut self, submitted_id: MessageId, mode: SubmitMode) -> (retrieval:
        Option<ContextQuery>)
        requires
            user_position_of(old(self)@.messages, submitted_id) is Some,
            mode == SubmitMode::Codebase ==> old(self)@.next_context_id.0 < usize::MAX,
        ensures
            final(self)@ == old(self)@.populate_context_on_submit(submitted_id, mode),
            match retrieval {
                Some(query) => {
                    &&& mode == SubmitMode::Codebase
                    &&& query.message_id == submitted_id
                    &&& query.context_id == old(self)@.next_context_id
                    &&& query.query@ == old(self)@.query_text(submitted_id)
                    &&& query.limit == CODEBASE_SEARCH_LIMIT
                },
                None => mode != SubmitMode::Codebase,
            },
    {
        match mode {
            SubmitMode::Simple => {
                return None;
            },
            SubmitMode::CurrentFile => {
                return None;
            },
            SubmitMode::Codebase => {},
        }
        let context_id = self.next_context_id.post_inc();
        let index = match self.user_position(submitted_id) {
            Some(index) => index,
            None => unreached(),
        };
        let context = AssistantContext::codebase(context_id);
        let ghost attached = context@;
        let query = match &mut self.messages[index] {
            ChatMessage::User(message) => {
                message.contexts.push(context);
                message.body.clone()
            },
            ChatMessage::Assistant(_) => unreached(),
        };
        proof {
            let before = old(self)@.messages[index as int]->User_0;
            let after = self@.messages[index as int]->User_0;
            assert(after.contexts =~= before.contexts.push(attached));
            assert(self@.messages =~= old(self)@.populate_context_on_submit(
                submitted_id,
                mode,
            ).messages);
        }
        Some(
            ContextQuery {
                message_id: submitted_id,
                context_id,
                query,
                limit: CODEBASE_SEARCH_LIMIT,
            },
        )
    }

    /// Submits the user turn that holds input focus: cuts the transcript off
    /// behind it, appends the empty assistant turn the reply will stream
    /// into, attaches the context the mode asks for, and puts the run in
    /// flight. Without a focused user turn the session stays as it is.
    ///
    /// The allocators must have identifiers left, which [`Self::has_room`]
    /// tells.
    pub fn submit(&mut self, submit: &Submit) -> (result: Result<Submission, ChatError>)
        requires
            old(self).inv(),
            old(self)@.has_room(submit.0),
        ensures
            final(self)@ == old(self)@.submit(submit.0),
            final(self).inv(),
            match result {
                Ok(submission) => {
                    &&& old(self)@.submission(submit.0) == Some(submission.completion)
                    &&& match submission.retrieval {
                        Some(query) => {
                            &&& submit.0 == SubmitMode::Codebase
                            &&& query.message_id == submission.completion.submitted_id
                            &&& query.context_id == old(self)@.next_context_id
                            &&& query.query@ == old(self)@.query_text(query.message_id)
                            &&& query.limit == CODEBASE_SEARCH_LIMIT
                        },
                        None => submit.0 != SubmitMode::Codebase,
                    }
                },
                Err(error) => error == ChatError::NoFocusedMessage && old(
                    self,
                )@.focused_message_id() is None,
            },
    {
        let mode = submit.0;
        proof {
            lemma_submit_inv(self@, mode);
        }
        let focused_message_id = match self.focused_message_id() {
            Some(id) => id,
            None => {
                return Err(ChatError::NoFocusedMessage);
            },
        };
        self.truncate_messages(focused_message_id);
        let assistant_id = self.push_new_assistant_message();
        let ghost opened = self@;
        let retrieval = self.populate_context_on_submit(focused_message_id, mode);
        let stage = match &retrieval {
            Some(query) => CompletionStage::Populating(query.context_id),
            None => CompletionStage::Streaming,
        };
        let completion = PendingCompletion {
            submitted_id: focused_message_id,
            assistant_id,
            stage,
        };
        self.pending_completion = Some(completion);
        proof {
            lemma_query_text_kept(old(self)@, focused_message_id);
            assert(opened.query_text(focused_message_id) == old(self)@.query_text(
                focused_message_id,
            ));
        }
        Ok(Submission { completion, retrieval })
    }

    /// Stores the excerpts retrieved for the run in flight in the context it
    /// waits for; from then on the run may stream. A result for a context
    /// that no run waits for is refused.
    pub fn populate_context(
        &mut self,
        message_id: MessageId,
        context_id: ContextId,
        excerpts: Vec<CodebaseExcerpt>,
    ) -> (result: Result<(), ChatError>)
        requires
            old(self).inv(),
        ensures
            final(self)@ == old(self)@.populate_context(message_id, context_id, views(excerpts@)),
            final(self).inv(),
            result == old(self)@.populate_answer(message_id, context_id),
    {
        proof {
            lemma_populate_context_inv(self@, message_id, context_id, views(excerpts@));
            lemma_position_valid(self@.messages, message_id);
        }
        let index = match self.user_position(message_id) {
            Some(index) => index,
            None => {
                return Err(ChatError::CodebaseContextNotFound);
            },
        };
        let found = match &self.messages[index] {
            ChatMessage::User(message) => message.context_position(context_id),
            ChatMessage::Assistant(_) => None,
        };
        let at = match found {
            Some(at) => at,
            None => {
                return Err(ChatError::CodebaseContextNotFound);
            },
        };
        let run = match self.pending_completion {
            Some(run) => run,
            None => {
                return Err(ChatError::StaleCompletion);
            },
        };
        let awaited = match run.stage {
            CompletionStage::Populating(awaited_id) => run.submitted_id == message_id && awaited_id
                == context_id,
            CompletionStage::Streaming => false,
        };
        if !awaited {
            return Err(ChatError::StaleCompletion);
        }
        let ghost stored = views(excerpts@);
        match &mut self.messages[index] {
            ChatMessage::User(message) => {
                match &mut message.contexts[at] {
                    AssistantContext::Codebase(context) => {
                        context.populate(excerpts);
                    },
                }
            },
            ChatMessage::Assistant(_) => {},
        }
        self.pending_completion = Some(
            PendingCompletion { stage: CompletionStage::Streaming, ..run },
        );
        proof {
            let before = old(self)@.messages[index as int]->User_0;
            let after = self@.messages[index as int]->User_0;
            let context = match before.contexts[at as int] {
                ContextView::Codebase(context) => context,
            };
            assert(after.contexts =~= before.contexts.update(
                at as int,
                ContextView::Codebase(context.populated(stored)),
            ));
            assert(self@.messages =~= old(self)@.populate_context(
                message_id,
                context_id,
                stored,
            ).messages);
        }
        Ok(())
    }

    /// The run in flight, provided it streams into `assistant_id`.
    fn streaming_run(&self, assistant_id: MessageId) -> (result: Result<
        PendingCompletion,
        ChatError,
    >)
        ensures
            match result {
                Ok(run) => self@.stream_answer(assistant_id) is Ok && self@.pending == Some(run),
                Err(error) => self@.stream_answer(assistant_id) == Err::<(), ChatError>(error),
            },
    {
        match self.pending_completion {
            Some(run) => {
                if run.assistant_id == assistant_id {
                    match run.stage {
                        CompletionStage::Streaming => Ok(run),
                        CompletionStage::Populating(_) => Err(ChatError::ContextPending),
                    }
                } else {
                    Err(ChatError::StaleCompletion)
                }
            },
            None => Err(ChatError::StaleCompletion),
        }
    }

    /// The transcript rendered for a completion provider: every turn, in
    /// order, as a role-tagged plain-text message.
    pub fn completion_messages(&self) -> (messages: Vec<CompletionMessage>)
        ensures
            views(messages@) == rendered_transcript(self@.messages),
    {
        let mut messages: Vec<CompletionMessage> = Vec::new();
        let mut i: usize = 0;
        while i < self.messages.len()
            invariant
                i <= self.messages.len(),
                views(messages@) == rendered_transcript(self@.messages).take(i as int),
            decreases self.messages.len() - i,
        {
            let message = self.messages[i].completion_message();
            let ghost before = messages@;
            messages.push(message);
            proof {
                assert(views(messages@) =~= views(before).push(message@));
                assert(views(messages@) =~= rendered_transcript(self@.messages).take(i + 1));
            }
            i += 1;
        }
        proof {
            assert(views(messages@) =~= rendered_transcript(self@.messages));
        }
        messages
    }

    /// What to ask the completion provider for the run that streams into
    /// `assistant_id`: the selected model and the rendered transcript. The
    /// request is handed out only once the run has its context.
    pub fn begin_completion(&self, assistant_id: MessageId) -> (result: Result<
        CompletionRequest,
        ChatError,
    >)
        ensures
            match result {
                Ok(request) => {
                    &&& self@.is_streaming(assistant_id)
                    &&& request.model@ == self@.model
                    &&& views(request.messages@) == rendered_transcript(self@.messages)
                },
                Err(error) => self@.stream_answer(assistant_id) == Err::<(), ChatError>(error),
            },
    {
        match self.streaming_run(assistant_id) {
            Ok(_) => Ok(
                CompletionRequest {
                    model: self.model.clone(),
                    messages: self.completion_messages(),
                },
            ),
            Err(error) => Err(error),
        }
    }

    /// Appends a chunk of the reply to the assistant turn of the run in
    /// flight. A chunk of any other run is refused.
    pub fn push_chunk(&mut self, assistant_id: MessageId, chunk: &str) -> (result: Result<
        (),
        ChatError,
    >)
        requires
            old(self).inv(),
        ensures
            final(self)@ == old(self)@.push_chunk(assistant_id, chunk@),
            final(self).inv(),
            result == old(self)@.stream_answer(assistant_id),
    {
        proof {
            lemma_push_chunk_inv(self@, assistant_id, chunk@);
        }
        match self.streaming_run(assistant_id) {
            Ok(_) => {},
            Err(error) => {
                return Err(error);
            },
        }
        let last = self.messages.len() - 1;
        match &mut self.messages[last] {
            ChatMessage::Assistant(message) => {
                message.body.append(chunk);
            },
            ChatMessage::User(_) => {},
        }
        proof {
            assert(self@.messages =~= old(self)@.push_chunk(assistant_id, chunk@).messages);
        }
        Ok(())
    }

    /// Ends the run in flight, with a failure message or without: records
    /// the failure on its assistant turn, keeping the text streamed so far,
    /// and appends a fresh user turn, which takes input focus if the
    /// submitted turn held it. A run may fail at any stage; it may succeed
    /// only once it has its context. The end of any other run is refused.
    pub fn settle(&mut self, assistant_id: MessageId, outcome: Result<(), String>) -> (result: Result<
        (),
        ChatError,
    >)
        requires
            old(self).inv(),
        ensures
            final(self)@ == old(self)@.settle(assistant_id, failure_of(outcome)),
            final(self).inv(),
            result == old(self)@.settle_answer(assistant_id, failure_of(outcome)),
    {
        proof {
            lemma_settle_inv(self@, assistant_id, failure_of(outcome));
        }
        let run = match self.pending_completion {
            Some(run) => run,
            None => {
                return Err(ChatError::StaleCompletion);
            },
        };
        if run.assistant_id != assistant_id {
            return Err(ChatError::StaleCompletion);
        }
        match outcome {
            Err(error) => {
                let last = self.messages.len() - 1;
                match &mut self.messages[last] {
                    ChatMessage::Assistant(message) => {
                        message.error = Some(error);
                    },
                    ChatMessage::User(_) => {},
                }
            },
            Ok(_) => {
                match run.stage {
                    CompletionStage::Streaming => {},
                    CompletionStage::Populating(_) => {
                        return Err(ChatError::ContextPending);
                    },
                }
            },
        }
        let focus = match self.focus {
            Some(id) => id == run.submitted_id,
            None => false,
        };
        self.pending_completion = None;
        proof {
            let recorded = match failure_of(outcome) {
                Some(message) => with_error(old(self)@.messages, message),
                None => old(self)@.messages,
            };
            assert(self@.messages =~= recorded);
        }
        self.push_new_user_message(focus);
        Ok(())
    }
}

/// Cutting the transcript off behind a user turn and appending a turn leaves
/// the text of that user turn as it was.
proof fn lemma_query_text_kept(state: ChatView, id: MessageId)
    requires
        state.inv(),
        user_position_of(state.messages, id) is Some,
    ensures
        state.truncate(id).push_new_assistant_message().query_text(id) == state.query_text(id),
{
    let turns = state.messages;
    lemma_position_valid(turns, id);
    let k = user_position_of(turns, id)->Some_0;
    let opened = state.truncate(id).push_new_assistant_message().messages;
    assert(opened[k] == turns[k]);
    assert forall|j: int| 0 <= j < k implies (#[trigger] opened[j]).id() != id by {
        assert(opened[j] == turns[j]);
    }
    lemma_position_found(opened, id, k);
}

} // verus!
