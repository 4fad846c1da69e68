//! The session as a state machine over plain mathematical values: its state,
//! its transitions, and the invariant that every transition keeps.

use vstd::prelude::*;
use crate::context::{CodebaseContextView, ContextView, ExcerptView};
use crate::error::ChatError;
use crate::ids::{ContextId, MessageId};
use crate::message::{AssistantMessageView, MessageView, UserMessageView};
use crate::transcript::{
    codebase_context_of, position_of, truncated, user_message_of, user_position_of, well_formed,
    with_chunk, with_context, with_error, with_populated, with_text,
};

verus! {

/// The ways to submit a turn to the model.
#[derive(Copy, Clone, PartialEq, Eq, Structural, Debug)]
pub enum SubmitMode {
    /// Only include the conversation.
    Simple,
    /// Send the current file as context.
    CurrentFile,
    /// Search the codebase and send relevant excerpts.
    Codebase,
}

/// The request to submit the turn that holds input focus.
#[derive(Copy, Clone, PartialEq, Eq, Structural, Debug)]
pub struct Submit(pub SubmitMode);

/// How far a run has come.
#[derive(Copy, Clone, PartialEq, Eq, Structural, Debug)]
pub enum CompletionStage {
    /// The run waits for the excerpts of this context.
    Populating(ContextId),
    /// The run may read the completion stream.
    Streaming,
}

/// The one run a session may have in flight: the user turn that was
/// submitted, the assistant turn the reply streams into, and the stage.
#[derive(Copy, Clone, PartialEq, Eq, Structural, Debug)]
pub struct PendingCompletion {
    pub submitted_id: MessageId,
    pub assistant_id: MessageId,
    pub stage: CompletionStage,
}

/// The state of a session.
pub struct ChatView {
    pub model: Seq<char>,
    pub messages: Seq<MessageView>,
    pub next_message_id: MessageId,
    pub next_context_id: ContextId,
    pub focus: Option<MessageId>,
    pub pending: Option<PendingCompletion>,
}

impl ChatView {
    /// A fresh session: one empty user turn, which holds input focus.
    pub open spec fn init(model: Seq<char>) -> ChatView {
        ChatView {
            model,
            messages: seq![MessageView::User(UserMessageView::empty(MessageId(0)))],
            next_message_id: MessageId(1),
            next_context_id: ContextId(0),
            focus: Some(MessageId(0)),
            pending: None,
        }
    }

    /// The user turn that holds input focus, if one does.
    pub open spec fn focused_message_id(self) -> Option<MessageId> {
        match self.focus {
            Some(id) => if user_position_of(self.messages, id) is Some {
                Some(id)
            } else {
                None
            },
            None => None,
        }
    }

    /// Whether a submission in `mode` can still mint the identifiers it
    /// needs: one for the assistant turn, one for the user turn that follows
    /// settlement and, for `Codebase`, one for the context.
    pub open spec fn has_room(self, mode: SubmitMode) -> bool {
        &&& self.next_message_id.0 + 2 <= usize::MAX
        &&& mode == SubmitMode::Codebase ==> self.next_context_id.0 + 1 <= usize::MAX
    }

    /// The text of the user turn `id`, which is what a codebase search for
    /// that turn asks for.
    pub open spec fn query_text(self, id: MessageId) -> Seq<char> {
        user_message_of(self.messages, id)->Some_0.body
    }

    /// What a chunk for `assistant_id`, or a request to open its stream, is
    /// answered: it is accepted where the run in flight streams into that
    /// turn, and refused where the run still waits for its context or is not
    /// in flight at all.
    pub open spec fn stream_answer(self, assistant_id: MessageId) -> Result<(), ChatError> {
        if self.is_streaming(assistant_id) {
            Ok(())
        } else if self.is_live(assistant_id) {
            Err(ChatError::ContextPending)
        } else {
            Err(ChatError::StaleCompletion)
        }
    }

    /// Whether the run in flight streams into `assistant_id` and may end as
    /// `error` says: with a failure at any stage, without one only once it
    /// has its context.
    pub open spec fn may_settle(self, assistant_id: MessageId, error: Option<Seq<char>>) -> bool {
        self.is_live(assistant_id) && (error is Some || self.is_streaming(assistant_id))
    }

    /// What the end of the run for `assistant_id` is answered: it is accepted
    /// where that run may settle so, and refused where the run claims success
    /// while it still waits for its context, or is not in flight at all.
    pub open spec fn settle_answer(self, assistant_id: MessageId, error: Option<Seq<char>>) -> Result<
        (),
        ChatError,
    > {
        if self.may_settle(assistant_id, error) {
            Ok(())
        } else if self.is_live(assistant_id) {
            Err(ChatError::ContextPending)
        } else {
            Err(ChatError::StaleCompletion)
        }
    }

    /// What excerpts for the context `context_id` of the user turn
    /// `message_id` are answered: they are accepted where the run in flight
    /// waits for them, and refused where the context does not exist or no run
    /// waits for it.
    pub open spec fn populate_answer(self, message_id: MessageId, context_id: ContextId) -> Result<
        (),
        ChatError,
    > {
        if codebase_context_of(self.messages, message_id, context_id) is None {
            Err(ChatError::CodebaseContextNotFound)
        } else if self.awaits_context(message_id, context_id) {
            Ok(())
        } else {
            Err(ChatError::StaleCompletion)
        }
    }

    /// Whether the run that streams into `assistant_id` is the one in flight.
    pub open spec fn is_live(self, assistant_id: MessageId) -> bool {
        self.pending matches Some(run) && run.assistant_id == assistant_id
    }

    /// Whether the run in flight streams into `assistant_id` and has its
    /// context, if it asked for one.
    pub open spec fn is_streaming(self, assistant_id: MessageId) -> bool {
        self.pending matches Some(run) && run.assistant_id == assistant_id && run.stage
            == CompletionStage::Streaming
    }

    /// Whether the run in flight was submitted from `message_id` and waits
    /// for the excerpts of `context_id`.
    pub open spec fn awaits_context(self, message_id: MessageId, context_id: ContextId) -> bool {
        self.pending matches Some(run) && run.submitted_id == message_id && run.stage
            == CompletionStage::Populating(context_id)
    }

    /// `model` is selected.
    pub open spec fn with_model(self, model: Seq<char>) -> ChatView {
        ChatView { model, ..self }
    }

    /// Input focus moves to the turn `focus`, or away from every turn.
    pub open spec fn with_focus(self, focus: Option<MessageId>) -> ChatView {
        ChatView { focus, ..self }
    }

    /// The user turn `id` gets `text` as its body.
    pub open spec fn edit(self, id: MessageId, text: Seq<char>) -> ChatView {
        ChatView { messages: with_text(self.messages, id, text), ..self }
    }

    /// A turn is appended.
    pub open spec fn push_message(self, message: MessageView) -> ChatView {
        ChatView { messages: self.messages.push(message), ..self }
    }

    /// An empty user turn with a new identifier is appended; it takes input
    /// focus if `focus` is set.
    pub open spec fn push_new_user_message(self, focus: bool) -> ChatView {
        let id = self.next_message_id;
        ChatView {
            next_message_id: id.successor(),
            focus: if focus {
                Some(id)
            } else {
                self.focus
            },
            ..self
        }.push_message(MessageView::User(UserMessageView::empty(id)))
    }

    /// An empty assistant turn with a new identifier is appended.
    pub open spec fn push_new_assistant_message(self) -> ChatView {
        let id = self.next_message_id;
        ChatView { next_message_id: id.successor(), ..self }.push_message(
            MessageView::Assistant(AssistantMessageView::empty(id)),
        )
    }

    /// Every turn after `last_message_id` is removed. A run whose assistant
    /// turn was removed with them is no longer in flight.
    pub open spec fn truncate(self, last_message_id: MessageId) -> ChatView {
        let messages = truncated(self.messages, last_message_id);
        ChatView {
            messages,
            pending: match self.pending {
                Some(run) => if position_of(messages, run.assistant_id) is Some {
                    Some(run)
                } else {
                    None
                },
                None => None,
            },
            ..self
        }
    }

    /// What a submission in `mode` attaches to the user turn `submitted_id`:
    /// a pending codebase context with a new identifier for `Codebase`,
    /// nothing otherwise.
    pub open spec fn populate_context_on_submit(
        self,
        submitted_id: MessageId,
        mode: SubmitMode,
    ) -> ChatView {
        match mode {
            SubmitMode::Simple => self,
            SubmitMode::CurrentFile => self,
            SubmitMode::Codebase => {
                let id = self.next_context_id;
                ChatView {
                    messages: with_context(
                        self.messages,
                        submitted_id,
                        ContextView::Codebase(CodebaseContextView::fresh(id)),
                    ),
                    next_context_id: id.successor(),
                    ..self
                }
            },
        }
    }

    /// The stage in which a run submitted in `mode` starts.
    pub open spec fn first_stage(self, mode: SubmitMode) -> CompletionStage {
        match mode {
            SubmitMode::Simple => CompletionStage::Streaming,
            SubmitMode::CurrentFile => CompletionStage::Streaming,
            SubmitMode::Codebase => CompletionStage::Populating(self.next_context_id),
        }
    }

    /// The run that a submission in `mode` starts, where a user turn holds
    /// input focus.
    pub open spec fn submission(self, mode: SubmitMode) -> Option<PendingCompletion> {
        match self.focused_message_id() {
            Some(id) => Some(
                PendingCompletion {
                    submitted_id: id,
                    assistant_id: self.next_message_id,
                    stage: self.first_stage(mode),
                },
            ),
            None => None,
        }
    }

    /// The focused user turn is submitted: the transcript is cut off behind
    /// it, an empty assistant turn is appended, the context that `mode` asks
    /// for is attached, and the run is in flight. Without a focused user turn
    /// nothing changes.
    pub open spec fn submit(self, mode: SubmitMode) -> ChatView {
        match self.submission(mode) {
            Some(run) => ChatView {
                pending: Some(run),
                ..self.truncate(run.submitted_id).push_new_assistant_message().populate_context_on_submit(
                run.submitted_id, mode)
            },
            None => self,
        }
    }

    /// The excerpts retrieved for the run in flight arrive: they are stored
    /// in the context the run waits for, and the run may stream. A result
    /// nobody waits for changes nothing.
    pub open spec fn populate_context(
        self,
        message_id: MessageId,
        context_id: ContextId,
        excerpts: Seq<ExcerptView>,
    ) -> ChatView {
        if self.awaits_context(message_id, context_id) && codebase_context_of(
            self.messages,
            message_id,
            context_id,
        ) is Some {
            ChatView {
                messages: with_populated(self.messages, message_id, context_id, excerpts),
                pending: Some(
                    PendingCompletion {
                        stage: CompletionStage::Streaming,
                        ..self.pending->Some_0
                    },
                ),
                ..self
            }
        } else {
            self
        }
    }

    /// A chunk of the reply arrives: it is appended to the assistant turn of
    /// the run in flight. A chunk of any other run changes nothing.
    pub open spec fn push_chunk(self, assistant_id: MessageId, chunk: Seq<char>) -> ChatView {
        if self.is_streaming(assistant_id) {
            ChatView { messages: with_chunk(self.messages, chunk), ..self }
        } else {
            self
        }
    }

    /// The run in flight has ended, with a failure message or without: the
    /// failure is recorded on the assistant turn, an empty user turn is
    /// appended, which takes input focus if the submitted turn held it, and
    /// no run is in flight. A context the run still waited for stays pending.
    /// The end of any other run changes nothing.
    pub open spec fn settle(self, assistant_id: MessageId, error: Option<Seq<char>>) -> ChatView {
        if self.may_settle(assistant_id, error) {
            let run = self.pending->Some_0;
            ChatView {
                messages: match error {
                    Some(message) => with_error(self.messages, message),
                    None => self.messages,
                },
                pending: None,
                ..self
            }.push_new_user_message(self.focus == Some(run.submitted_id))
        } else {
            self
        }
    }

    /// What holds of the run in flight: its assistant turn is the last turn
    /// and carries no error, the turn before it is the one that was
    /// submitted, an identifier is left for the user turn that follows
    /// settlement, and the context it waits for is attached and pending.
    pub open spec fn pending_inv(self) -> bool {
        match self.pending {
            Some(run) => {
                let n = self.messages.len() as int;
                &&& n >= 2
                &&& self.messages[n - 1] is Assistant
                &&& self.messages[n - 1].id() == run.assistant_id
                &&& self.messages[n - 1]->Assistant_0.error is None
                &&& self.messages[n - 2].id() == run.submitted_id
                &&& self.next_message_id.0 < usize::MAX
                &&& match run.stage {
                    CompletionStage::Populating(context_id) => codebase_context_of(
                        self.messages,
                        run.submitted_id,
                        context_id,
                    ) matches Some(context) && context.pending,
                    CompletionStage::Streaming => true,
                }
            },
            None => true,
        }
    }

    /// What holds of every state a session can reach.
    pub open spec fn inv(self) -> bool {
        &&& well_formed(self.messages, self.next_message_id, self.next_context_id)
        &&& self.pending_inv()
    }
}

} // verus!
