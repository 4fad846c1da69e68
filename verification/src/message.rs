//! The turns of a transcript and their rendering for a completion provider.

use vstd::prelude::*;
use crate::context::{views, AssistantContext, ContextView};
use crate::ids::{ContextId, MessageId};
use crate::transcript::{
    context_position_of, lemma_context_position_absent, lemma_context_position_found,
};

verus! {

/// A turn authored by the user: editable text and the contexts attached to it.
#[derive(Debug)]
pub struct UserMessage {
    pub id: MessageId,
    pub body: String,
    pub contexts: Vec<AssistantContext>,
}

/// What a [`UserMessage`] holds.
pub struct UserMessageView {
    pub id: MessageId,
    pub body: Seq<char>,
    pub contexts: Seq<ContextView>,
}

impl View for UserMessage {
    type V = UserMessageView;

    open spec fn view(&self) -> UserMessageView {
        UserMessageView { id: self.id, body: self.body@, contexts: views(self.contexts@) }
    }
}

impl UserMessageView {
    /// A user turn with no text and no contexts.
    pub open spec fn empty(id: MessageId) -> UserMessageView {
        UserMessageView { id, body: Seq::empty(), contexts: Seq::empty() }
    }
}

impl UserMessage {
    /// The index of the first context attached to this turn that carries
    /// `id`.
    pub fn context_position(&self, id: ContextId) -> (found: Option<usize>)
        ensures
            match found {
                Some(a) => {
                    &&& context_position_of(self@.contexts, id) == Some(a as int)
                    &&& a < self.contexts.len()
                    &&& self@.contexts[a as int] == self.contexts[a as int]@
                },
                None => context_position_of(self@.contexts, id) is None,
            },
    {
        let mut a: usize = 0;
        while a < self.contexts.len()
            invariant
                a <= self.contexts.len(),
                forall|b: int| 0 <= b < a ==> (#[trigger] self@.contexts[b]).id() != id,
            decreases self.contexts.len() - a,
        {
            let found = match &self.contexts[a] {
                AssistantContext::Codebase(context) => context.id == id,
            };
            if found {
                proof {
                    lemma_context_position_found(self@.contexts, id, a as int);
                }
                return Some(a);
            }
            a += 1;
        }
        proof {
            lemma_context_position_absent(self@.contexts, id);
        }
        None
    }
}

/// A turn produced by the assistant: the text streamed so far and, once the
/// run that owns it has failed, the failure message.
#[derive(Debug)]
pub struct AssistantMessage {
    pub id: MessageId,
    pub body: String,
    pub error: Option<String>,
}

/// What an [`AssistantMessage`] holds.
pub struct AssistantMessageView {
    pub id: MessageId,
    pub body: Seq<char>,
    pub error: Option<Seq<char>>,
}

impl View for AssistantMessage {
    type V = AssistantMessageView;

    open spec fn view(&self) -> AssistantMessageView {
        AssistantMessageView {
            id: self.id,
            body: self.body@,
            error: match self.error {
                Some(message) => Some(message@),
                None => None,
            },
        }
    }
}

impl AssistantMessageView {
    /// An assistant turn with no text and no error.
    pub open spec fn empty(id: MessageId) -> AssistantMessageView {
        AssistantMessageView { id, body: Seq::empty(), error: None }
    }
}

/// One turn of a transcript.
#[derive(Debug)]
pub enum ChatMessage {
    User(UserMessage),
    Assistant(AssistantMessage),
}

/// What a [`ChatMessage`] holds.
pub enum MessageView {
    User(UserMessageView),
    Assistant(AssistantMessageView),
}

impl View for ChatMessage {
    type V = MessageView;

    open spec fn view(&self) -> MessageView {
        match self {
            ChatMessage::User(message) => MessageView::User(message@),
            ChatMessage::Assistant(message) => MessageView::Assistant(message@),
        }
    }
}

impl MessageView {
    /// The identifier of the turn, whoever authored it.
    pub open spec fn id(self) -> MessageId {
        match self {
            MessageView::User(message) => message.id,
            MessageView::Assistant(message) => message.id,
        }
    }
}

impl ChatMessage {
    /// The identifier of this turn, whoever authored it.
    pub fn id(&self) -> (id: MessageId)
        ensures
            id == self@.id(),
    {
        match self {
            ChatMessage::User(message) => message.id,
            ChatMessage::Assistant(message) => message.id,
        }
    }
}

/// Who authored a message handed to a completion provider.
#[derive(Copy, Clone, PartialEq, Eq, Structural, Debug)]
pub enum CompletionRole {
    User,
    Assistant,
}

/// A role-tagged plain-text message, as a completion provider takes it.
#[derive(Debug)]
pub struct CompletionMessage {
    pub role: CompletionRole,
    pub body: String,
}

/// What a [`CompletionMessage`] holds.
pub struct CompletionMessageView {
    pub role: CompletionRole,
    pub body: Seq<char>,
}

impl View for CompletionMessage {
    type V = CompletionMessageView;

    open spec fn view(&self) -> CompletionMessageView {
        CompletionMessageView { role: self.role, body: self.body@ }
    }
}

/// How one turn is presented to a completion provider: a user turn by its
/// current text, an assistant turn by the text streamed into it so far.
/// Contexts and errors are not part of the rendering.
pub open spec fn rendered(turn: MessageView) -> CompletionMessageView {
    match turn {
        MessageView::User(message) => CompletionMessageView {
            role: CompletionRole::User,
            body: message.body,
        },
        MessageView::Assistant(message) => CompletionMessageView {
            role: CompletionRole::Assistant,
            body: message.body,
        },
    }
}

impl ChatMessage {
    /// Renders this turn for a completion provider.
    pub fn completion_message(&self) -> (message: CompletionMessage)
        ensures
            message@ == rendered(self@),
    {
        match self {
            ChatMessage::User(message) => CompletionMessage {
                role: CompletionRole::User,
                body: message.body.clone(),
            },
            ChatMessage::Assistant(message) => CompletionMessage {
                role: CompletionRole::Assistant,
                body: message.body.clone(),
            },
        }
    }
}

} // verus!
