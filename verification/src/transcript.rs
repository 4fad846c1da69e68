//! The mathematical model of a transcript: a sequence of turn views, the
//! lookups by identifier, and the edits the session performs on it.

use vstd::prelude::*;
use crate::context::{CodebaseContextView, ContextView, ExcerptView};
use crate::ids::{ContextId, MessageId};
use crate::message::{rendered, CompletionMessageView, MessageView, UserMessageView, AssistantMessageView};

verus! {

/// The identifiers of `turns`, in transcript order.
pub open spec fn message_ids(turns: Seq<MessageView>) -> Seq<MessageId> {
    turns.map_values(|turn: MessageView| turn.id())
}

/// The index of the first turn that carries `id`, if any does.
pub open spec fn position_of(turns: Seq<MessageView>, id: MessageId) -> Option<int> {
    message_ids(turns).index_of_first(id)
}

/// The index of the turn that carries `id`, provided that turn is a user turn.
pub open spec fn user_position_of(turns: Seq<MessageView>, id: MessageId) -> Option<int> {
    match position_of(turns, id) {
        Some(i) => if turns[i] is User { Some(i) } else { None },
        None => None,
    }
}

/// The user turn that carries `id`, if there is one.
pub open spec fn user_message_of(turns: Seq<MessageView>, id: MessageId) -> Option<UserMessageView> {
    match user_position_of(turns, id) {
        Some(i) => Some(turns[i]->User_0),
        None => None,
    }
}

/// The identifiers of `contexts`, in attachment order.
pub open spec fn context_ids(contexts: Seq<ContextView>) -> Seq<ContextId> {
    contexts.map_values(|context: ContextView| context.id())
}

/// The index of the first context that carries `id`, if any does.
pub open spec fn context_position_of(contexts: Seq<ContextView>, id: ContextId) -> Option<int> {
    context_ids(contexts).index_of_first(id)
}

/// The contexts attached to a turn; an assistant turn has none.
pub open spec fn contexts_of(turn: MessageView) -> Seq<ContextView> {
    match turn {
        MessageView::User(message) => message.contexts,
        MessageView::Assistant(_) => Seq::empty(),
    }
}

/// The codebase context `context_id` of the user turn `message_id`, if both
/// exist.
pub open spec fn codebase_context_of(
    turns: Seq<MessageView>,
    message_id: MessageId,
    context_id: ContextId,
) -> Option<CodebaseContextView> {
    match user_message_of(turns, message_id) {
        Some(message) => match context_position_of(message.contexts, context_id) {
            Some(a) => match message.contexts[a] {
                ContextView::Codebase(context) => Some(context),
            },
            None => None,
        },
        None => None,
    }
}

/// `turns` cut off right after the first turn that carries `id`; unchanged
/// where no turn carries it.
pub open spec fn truncated(turns: Seq<MessageView>, id: MessageId) -> Seq<MessageView> {
    match position_of(turns, id) {
        Some(i) => turns.take(i + 1),
        None => turns,
    }
}

/// `turns` with `text` as the body of the user turn `id`.
pub open spec fn with_text(turns: Seq<MessageView>, id: MessageId, text: Seq<char>) -> Seq<
    MessageView,
> {
    match user_position_of(turns, id) {
        Some(i) => turns.update(
            i,
            MessageView::User(UserMessageView { body: text, ..turns[i]->User_0 }),
        ),
        None => turns,
    }
}

/// `turns` with `context` attached behind the contexts of the user turn `id`.
pub open spec fn with_context(turns: Seq<MessageView>, id: MessageId, context: ContextView) -> Seq<
    MessageView,
> {
    match user_position_of(turns, id) {
        Some(i) => turns.update(
            i,
            MessageView::User(
                UserMessageView {
                    contexts: turns[i]->User_0.contexts.push(context),
                    ..turns[i]->User_0
                },
            ),
        ),
        None => turns,
    }
}

/// `turns` with `excerpts` stored in the codebase context `context_id` of the
/// user turn `message_id`, and that context no longer pending.
pub open spec fn with_populated(
    turns: Seq<MessageView>,
    message_id: MessageId,
    context_id: ContextId,
    excerpts: Seq<ExcerptView>,
) -> Seq<MessageView> {
    match user_position_of(turns, message_id) {
        Some(i) => {
            let message = turns[i]->User_0;
            match context_position_of(message.contexts, context_id) {
                Some(a) => match message.contexts[a] {
                    ContextView::Codebase(context) => turns.update(
                        i,
                        MessageView::User(
                            UserMessageView {
                                contexts: message.contexts.update(
                                    a,
                                    ContextView::Codebase(context.populated(excerpts)),
                                ),
                                ..message
                            },
                        ),
                    ),
                },
                None => turns,
            }
        },
        None => turns,
    }
}

/// `turns` with `chunk` appended to the body of its last turn, an assistant
/// turn.
pub open spec fn with_chunk(turns: Seq<MessageView>, chunk: Seq<char>) -> Seq<MessageView> {
    if turns.len() > 0 && turns.last() is Assistant {
        let message = turns.last()->Assistant_0;
        turns.update(
            turns.len() - 1,
            MessageView::Assistant(AssistantMessageView { body: message.body + chunk, ..message }),
        )
    } else {
        turns
    }
}

/// `turns` with `error` recorded on its last turn, an assistant turn.
pub open spec fn with_error(turns: Seq<MessageView>, error: Seq<char>) -> Seq<MessageView> {
    if turns.len() > 0 && turns.last() is Assistant {
        let message = turns.last()->Assistant_0;
        turns.update(
            turns.len() - 1,
            MessageView::Assistant(AssistantMessageView { error: Some(error), ..message }),
        )
    } else {
        turns
    }
}

/// The payload handed to a completion provider: every turn, in order,
/// rendered to a role-tagged plain-text message.
pub open spec fn rendered_transcript(turns: Seq<MessageView>) -> Seq<CompletionMessageView> {
    turns.map_values(|turn: MessageView| rendered(turn))
}

/// User turns stand at the even positions and assistant turns at the odd
/// ones.
pub open spec fn alternating(turns: Seq<MessageView>) -> bool {
    forall|i: int| 0 <= i < turns.len() ==> ((#[trigger] turns[i]) is User <==> i % 2 == 0)
}

/// Later turns carry greater identifiers.
pub open spec fn ids_increasing(turns: Seq<MessageView>) -> bool {
    forall|i: int, j: int|
        0 <= i < j < turns.len() ==> (#[trigger] turns[i]).id().0 < (#[trigger] turns[j]).id().0
}

/// Every turn carries an identifier below `bound`.
pub open spec fn ids_below(turns: Seq<MessageView>, bound: MessageId) -> bool {
    forall|i: int| 0 <= i < turns.len() ==> (#[trigger] turns[i]).id().0 < bound.0
}

/// Contexts attached later, to the same turn or to a later one, carry
/// greater identifiers.
pub open spec fn context_ids_increasing(turns: Seq<MessageView>) -> bool {
    forall|i: int, a: int, j: int, b: int|
        #![trigger contexts_of(turns[i])[a], contexts_of(turns[j])[b]]
        0 <= i <= j < turns.len() && 0 <= a < contexts_of(turns[i]).len() && 0 <= b < contexts_of(
            turns[j],
        ).len() && (i < j || a < b) ==> contexts_of(turns[i])[a].id().0 < contexts_of(
            turns[j],
        )[b].id().0
}

/// Every attached context carries an identifier below `bound`.
pub open spec fn context_ids_below(turns: Seq<MessageView>, bound: ContextId) -> bool {
    forall|i: int, a: int|
        0 <= i < turns.len() && 0 <= a < contexts_of(turns[i]).len() ==> (#[trigger] contexts_of(
            turns[i],
        )[a]).id().0 < bound.0
}

/// What holds of the transcript of every reachable session, given the next
/// identifiers its allocators will mint: it is not empty; user and assistant
/// turns alternate, starting with a user turn; identifiers of turns and of
/// contexts grow along the transcript and lie below the allocators.
pub open spec fn well_formed(
    turns: Seq<MessageView>,
    next_message_id: MessageId,
    next_context_id: ContextId,
) -> bool {
    &&& turns.len() >= 1
    &&& alternating(turns)
    &&& ids_increasing(turns)
    &&& ids_below(turns, next_message_id)
    &&& context_ids_increasing(turns)
    &&& context_ids_below(turns, next_context_id)
}

/// Two turns of the same author that carry the same identifier and whose
/// contexts carry the same identifiers.
pub open spec fn same_shape(a: MessageView, b: MessageView) -> bool {
    &&& a.id() == b.id()
    &&& a is User <==> b is User
    &&& context_ids(contexts_of(a)) == context_ids(contexts_of(b))
}

/// A turn found at `i` with no earlier turn of the same identifier is the
/// position of that identifier.
pub proof fn lemma_position_found(turns: Seq<MessageView>, id: MessageId, i: int)
    requires
        0 <= i < turns.len(),
        turns[i].id() == id,
        forall|j: int| 0 <= j < i ==> (#[trigger] turns[j]).id() != id,
    ensures
        position_of(turns, id) == Some(i),
{
    let ids = message_ids(turns);
    ids.index_of_first_ensures(id);
    assert(ids[i] == id);
    assert(ids.contains(id));
    let k = position_of(turns, id)->Some_0;
    if k < i {
        assert(turns[k].id() != id);
    } else if i < k {
        assert(ids[i] != id);
    }
}

/// Where no turn carries `id`, it has no position.
pub proof fn lemma_position_absent(turns: Seq<MessageView>, id: MessageId)
    requires
        forall|j: int| 0 <= j < turns.len() ==> (#[trigger] turns[j]).id() != id,
    ensures
        position_of(turns, id) is None,
{
    let ids = message_ids(turns);
    ids.index_of_first_ensures(id);
    if position_of(turns, id) is Some {
        let k = position_of(turns, id)->Some_0;
        assert(turns[k].id() != id);
    }
}

/// What a position is: the first index whose turn carries the identifier.
pub proof fn lemma_position_valid(turns: Seq<MessageView>, id: MessageId)
    ensures
        match position_of(turns, id) {
            Some(i) => {
                &&& 0 <= i < turns.len()
                &&& turns[i].id() == id
                &&& forall|j: int| 0 <= j < i ==> (#[trigger] turns[j]).id() != id
            },
            None => forall|j: int| 0 <= j < turns.len() ==> (#[trigger] turns[j]).id() != id,
        },
{
    let ids = message_ids(turns);
    ids.index_of_first_ensures(id);
    match position_of(turns, id) {
        Some(i) => {
            assert forall|j: int| 0 <= j < i implies (#[trigger] turns[j]).id() != id by {
                assert(ids[j] != id);
            }
        },
        None => {
            assert forall|j: int| 0 <= j < turns.len() implies (#[trigger] turns[j]).id()
                != id by {
                assert(ids[j] == turns[j].id());
                assert(ids.contains(ids[j]));
            }
        },
    }
}

/// With increasing identifiers, a turn that carries `id` is its position.
pub proof fn lemma_position_unique(turns: Seq<MessageView>, id: MessageId, i: int)
    requires
        ids_increasing(turns),
        0 <= i < turns.len(),
        turns[i].id() == id,
    ensures
        position_of(turns, id) == Some(i),
{
    lemma_position_found(turns, id, i);
}

/// A context found at `a` with no earlier context of the same identifier is
/// the position of that identifier.
pub proof fn lemma_context_position_found(contexts: Seq<ContextView>, id: ContextId, a: int)
    requires
        0 <= a < contexts.len(),
        contexts[a].id() == id,
        forall|b: int| 0 <= b < a ==> (#[trigger] contexts[b]).id() != id,
    ensures
        context_position_of(contexts, id) == Some(a),
{
    let ids = context_ids(contexts);
    ids.index_of_first_ensures(id);
    assert(ids[a] == id);
    assert(ids.contains(id));
    let k = context_position_of(contexts, id)->Some_0;
    if k < a {
        assert(contexts[k].id() != id);
    } else if a < k {
        assert(ids[a] != id);
    }
}

/// Where no context carries `id`, it has no position.
pub proof fn lemma_context_position_absent(contexts: Seq<ContextView>, id: ContextId)
    requires
        forall|b: int| 0 <= b < contexts.len() ==> (#[trigger] contexts[b]).id() != id,
    ensures
        context_position_of(contexts, id) is None,
{
    let ids = context_ids(contexts);
    ids.index_of_first_ensures(id);
    if context_position_of(contexts, id) is Some {
        let k = context_position_of(contexts, id)->Some_0;
        assert(contexts[k].id() != id);
    }
}

/// What a context position is: the first index whose context carries the
/// identifier.
pub proof fn lemma_context_position_valid(contexts: Seq<ContextView>, id: ContextId)
    ensures
        match context_position_of(contexts, id) {
            Some(a) => {
                &&& 0 <= a < contexts.len()
                &&& contexts[a].id() == id
                &&& forall|b: int| 0 <= b < a ==> (#[trigger] contexts[b]).id() != id
            },
            None => forall|b: int| 0 <= b < contexts.len() ==> (#[trigger] contexts[b]).id() != id,
        },
{
    let ids = context_ids(contexts);
    ids.index_of_first_ensures(id);
    match context_position_of(contexts, id) {
        Some(a) => {
            assert forall|b: int| 0 <= b < a implies (#[trigger] contexts[b]).id() != id by {
                assert(ids[b] != id);
            }
        },
        None => {
            assert forall|b: int| 0 <= b < contexts.len() implies (#[trigger] contexts[b]).id()
                != id by {
                assert(ids[b] == contexts[b].id());
                assert(ids.contains(ids[b]));
            }
        },
    }
}

} // verus!
