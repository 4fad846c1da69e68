//! Proofs that the transitions of a session keep its invariant.

use vstd::prelude::*;
use crate::context::{CodebaseContextView, ContextView, ExcerptView};
use crate::ids::{ContextId, MessageId};
use crate::message::{AssistantMessageView, MessageView, UserMessageView};
use crate::session::{ChatView, CompletionStage, SubmitMode};
use crate::transcript::{
    codebase_context_of, context_ids, context_position_of, contexts_of,
    lemma_context_position_found, lemma_context_position_valid, lemma_position_absent,
    lemma_position_unique, lemma_position_valid, message_ids, position_of, same_shape,
    user_position_of, well_formed, with_chunk, with_error,
};

verus! {

/// A prefix of a well-formed transcript that keeps its first turn is
/// well-formed.
pub proof fn lemma_take_well_formed(
    turns: Seq<MessageView>,
    next_message_id: MessageId,
    next_context_id: ContextId,
    k: int,
)
    requires
        well_formed(turns, next_message_id, next_context_id),
        1 <= k <= turns.len(),
    ensures
        well_formed(turns.take(k), next_message_id, next_context_id),
{
    let prefix = turns.take(k);
    assert forall|i: int| 0 <= i < prefix.len() implies ((#[trigger] prefix[i]) is User <==> i % 2
        == 0) by {
        assert(prefix[i] == turns[i]);
    }
    assert forall|i: int, j: int| 0 <= i < j < prefix.len() implies (#[trigger] prefix[i]).id().0
        < (#[trigger] prefix[j]).id().0 by {
        assert(prefix[i] == turns[i] && prefix[j] == turns[j]);
    }
    assert forall|i: int| 0 <= i < prefix.len() implies (#[trigger] prefix[i]).id().0
        < next_message_id.0 by {
        assert(prefix[i] == turns[i]);
    }
    assert forall|i: int, a: int, j: int, b: int|
        #![trigger contexts_of(prefix[i])[a], contexts_of(prefix[j])[b]]
        0 <= i <= j < prefix.len() && 0 <= a < contexts_of(prefix[i]).len() && 0 <= b
            < contexts_of(prefix[j]).len() && (i < j || a < b) implies contexts_of(
        prefix[i],
    )[a].id().0 < contexts_of(prefix[j])[b].id().0 by {
        assert(prefix[i] == turns[i] && prefix[j] == turns[j]);
        assert(contexts_of(turns[i])[a].id().0 < contexts_of(turns[j])[b].id().0);
    }
    assert forall|i: int, a: int|
        0 <= i < prefix.len() && 0 <= a < contexts_of(prefix[i]).len() implies (
    #[trigger] contexts_of(prefix[i])[a]).id().0 < next_context_id.0 by {
        assert(prefix[i] == turns[i]);
        assert(contexts_of(turns[i])[a].id().0 < next_context_id.0);
    }
}

/// Appending a turn without contexts that carries the next identifier, by
/// the author whose turn it is, keeps a transcript well-formed.
pub proof fn lemma_push_well_formed(
    turns: Seq<MessageView>,
    next_message_id: MessageId,
    next_context_id: ContextId,
    turn: MessageView,
)
    requires
        well_formed(turns, next_message_id, next_context_id),
        next_message_id.0 < usize::MAX,
        turn.id() == next_message_id,
        turn is User <==> turns.len() % 2 == 0,
        contexts_of(turn).len() == 0,
    ensures
        well_formed(turns.push(turn), next_message_id.successor(), next_context_id),
{
    let longer = turns.push(turn);
    let n = turns.len() as int;
    assert forall|i: int| 0 <= i < longer.len() implies ((#[trigger] longer[i]) is User <==> i % 2
        == 0) by {
        if i < n {
            assert(longer[i] == turns[i]);
        }
    }
    assert forall|i: int, j: int| 0 <= i < j < longer.len() implies (#[trigger] longer[i]).id().0
        < (#[trigger] longer[j]).id().0 by {
        assert(longer[i] == turns[i]);
        if j < n {
            assert(longer[j] == turns[j]);
        }
    }
    assert forall|i: int| 0 <= i < longer.len() implies (#[trigger] longer[i]).id().0
        < next_message_id.successor().0 by {
        if i < n {
            assert(longer[i] == turns[i]);
        }
    }
    assert forall|i: int, a: int, j: int, b: int|
        #![trigger contexts_of(longer[i])[a], contexts_of(longer[j])[b]]
        0 <= i <= j < longer.len() && 0 <= a < contexts_of(longer[i]).len() && 0 <= b
            < contexts_of(longer[j]).len() && (i < j || a < b) implies contexts_of(
        longer[i],
    )[a].id().0 < contexts_of(longer[j])[b].id().0 by {
        assert(j < n);
        assert(longer[i] == turns[i] && longer[j] == turns[j]);
        assert(contexts_of(turns[i])[a].id().0 < contexts_of(turns[j])[b].id().0);
    }
    assert forall|i: int, a: int|
        0 <= i < longer.len() && 0 <= a < contexts_of(longer[i]).len() implies (
    #[trigger] contexts_of(longer[i])[a]).id().0 < next_context_id.0 by {
        assert(i < n);
        assert(longer[i] == turns[i]);
        assert(contexts_of(turns[i])[a].id().0 < next_context_id.0);
    }
}

/// Replacing a turn by one of the same shape keeps a transcript well-formed
/// and keeps every position.
pub proof fn lemma_update_well_formed(
    turns: Seq<MessageView>,
    next_message_id: MessageId,
    next_context_id: ContextId,
    k: int,
    turn: MessageView,
)
    requires
        well_formed(turns, next_message_id, next_context_id),
        0 <= k < turns.len(),
        same_shape(turns[k], turn),
    ensures
        well_formed(turns.update(k, turn), next_message_id, next_context_id),
        message_ids(turns.update(k, turn)) == message_ids(turns),
{
    let changed = turns.update(k, turn);
    assert(message_ids(changed) =~= message_ids(turns));
    assert forall|i: int| 0 <= i < changed.len() implies (#[trigger] changed[i]).id()
        == turns[i].id() && (changed[i] is User <==> turns[i] is User) && contexts_of(
        changed[i],
    ).len() == contexts_of(turns[i]).len() by {
        if i == k {
            assert(context_ids(contexts_of(turn)).len() == context_ids(
                contexts_of(turns[k]),
            ).len());
        }
    }
    assert forall|i: int, a: int|
        0 <= i < changed.len() && 0 <= a < contexts_of(changed[i]).len() implies (
    #[trigger] contexts_of(changed[i])[a]).id() == contexts_of(turns[i])[a].id() by {
        if i == k {
            assert(context_ids(contexts_of(turn))[a] == context_ids(contexts_of(turns[k]))[a]);
        }
    }
    assert forall|i: int| 0 <= i < changed.len() implies ((#[trigger] changed[i]) is User <==> i % 2
        == 0) by {
        assert(turns[i] is User <==> i % 2 == 0);
    }
    assert forall|i: int, j: int| 0 <= i < j < changed.len() implies (#[trigger] changed[i]).id().0
        < (#[trigger] changed[j]).id().0 by {
        assert(turns[i].id().0 < turns[j].id().0);
    }
    assert forall|i: int| 0 <= i < changed.len() implies (#[trigger] changed[i]).id().0
        < next_message_id.0 by {
        assert(turns[i].id().0 < next_message_id.0);
    }
    assert forall|i: int, a: int, j: int, b: int|
        #![trigger contexts_of(changed[i])[a], contexts_of(changed[j])[b]]
        0 <= i <= j < changed.len() && 0 <= a < contexts_of(changed[i]).len() && 0 <= b
            < contexts_of(changed[j]).len() && (i < j || a < b) implies contexts_of(
        changed[i],
    )[a].id().0 < contexts_of(changed[j])[b].id().0 by {
        assert(contexts_of(changed[i])[a].id() == contexts_of(turns[i])[a].id());
        assert(contexts_of(changed[j])[b].id() == contexts_of(turns[j])[b].id());
        assert(contexts_of(turns[i])[a].id().0 < contexts_of(turns[j])[b].id().0);
    }
    assert forall|i: int, a: int|
        0 <= i < changed.len() && 0 <= a < contexts_of(changed[i]).len() implies (
    #[trigger] contexts_of(changed[i])[a]).id().0 < next_context_id.0 by {
        assert(contexts_of(changed[i])[a].id() == contexts_of(turns[i])[a].id());
        assert(contexts_of(turns[i])[a].id().0 < next_context_id.0);
    }
}

/// Attaching a context that carries the next context identifier to a user
/// turn behind which no turn has contexts keeps a transcript well-formed,
/// keeps every position, and makes the new context the one found under its
/// identifier.
pub proof fn lemma_attach_well_formed(
    turns: Seq<MessageView>,
    next_message_id: MessageId,
    next_context_id: ContextId,
    k: int,
    context: ContextView,
)
    requires
        well_formed(turns, next_message_id, next_context_id),
        next_context_id.0 < usize::MAX,
        0 <= k < turns.len(),
        turns[k] is User,
        forall|j: int| k < j < turns.len() ==> contexts_of(#[trigger] turns[j]).len() == 0,
        context.id() == next_context_id,
    ensures
        ({
            let message = turns[k]->User_0;
            let contexts = message.contexts.push(context);
            let changed = turns.update(
                k,
                MessageView::User(UserMessageView { contexts, ..message }),
            );
            &&& well_formed(changed, next_message_id, next_context_id.successor())
            &&& message_ids(changed) == message_ids(turns)
            &&& context_position_of(contexts, next_context_id) == Some(
                message.contexts.len() as int,
            )
        }),
{
    let message = turns[k]->User_0;
    let contexts = message.contexts.push(context);
    let turn = MessageView::User(UserMessageView { contexts, ..message });
    let changed = turns.update(k, turn);
    let bound = next_context_id.successor();
    assert(message_ids(changed) =~= message_ids(turns));
    assert(contexts_of(turns[k]) == message.contexts);
    assert forall|i: int| 0 <= i < changed.len() implies ((#[trigger] changed[i]) is User <==> i % 2
        == 0) by {
        assert(turns[i] is User <==> i % 2 == 0);
    }
    assert forall|i: int, j: int| 0 <= i < j < changed.len() implies (#[trigger] changed[i]).id().0
        < (#[trigger] changed[j]).id().0 by {
        assert(turns[i].id().0 < turns[j].id().0);
    }
    assert forall|i: int| 0 <= i < changed.len() implies (#[trigger] changed[i]).id().0
        < next_message_id.0 by {
        assert(turns[i].id().0 < next_message_id.0);
    }
    assert forall|i: int, a: int|
        0 <= i < changed.len() && 0 <= a < contexts_of(changed[i]).len() implies (
    #[trigger] contexts_of(changed[i])[a]).id().0 < bound.0 by {
        if i == k && a == message.contexts.len() {
        } else {
            assert(contexts_of(changed[i])[a] == contexts_of(turns[i])[a]);
            assert(contexts_of(turns[i])[a].id().0 < next_context_id.0);
        }
    }
    assert forall|i: int, a: int, j: int, b: int|
        #![trigger contexts_of(changed[i])[a], contexts_of(changed[j])[b]]
        0 <= i <= j < changed.len() && 0 <= a < contexts_of(changed[i]).len() && 0 <= b
            < contexts_of(changed[j]).len() && (i < j || a < b) implies contexts_of(
        changed[i],
    )[a].id().0 < contexts_of(changed[j])[b].id().0 by {
        if j > k {
            assert(contexts_of(turns[j]).len() == 0);
        } else if j == k && b == message.contexts.len() {
            assert(contexts_of(changed[i])[a] == contexts_of(turns[i])[a]);
            assert(contexts_of(turns[i])[a].id().0 < next_context_id.0);
        } else {
            assert(contexts_of(changed[i])[a] == contexts_of(turns[i])[a]);
            assert(contexts_of(changed[j])[b] == contexts_of(turns[j])[b]);
            assert(contexts_of(turns[i])[a].id().0 < contexts_of(turns[j])[b].id().0);
        }
    }
    assert forall|b: int| 0 <= b < message.contexts.len() implies (#[trigger] contexts[b]).id()
        != next_context_id by {
        assert(contexts[b] == contexts_of(turns[k])[b]);
        assert(contexts_of(turns[k])[b].id().0 < next_context_id.0);
    }
    lemma_context_position_found(contexts, next_context_id, message.contexts.len() as int);
}

/// A fresh session satisfies the invariant.
pub proof fn lemma_init_inv(model: Seq<char>)
    ensures
        ChatView::init(model).inv(),
{
    let state = ChatView::init(model);
    assert(state.messages.len() == 1);
    assert(contexts_of(state.messages[0]).len() == 0);
}

/// Choosing a model or moving input focus keeps the invariant.
pub proof fn lemma_settings_inv(state: ChatView, model: Seq<char>, focus: Option<MessageId>)
    requires
        state.inv(),
    ensures
        state.with_model(model).inv(),
        state.with_focus(focus).inv(),
{
}

/// Editing a user turn keeps the invariant.
pub proof fn lemma_edit_inv(state: ChatView, id: MessageId, text: Seq<char>)
    requires
        state.inv(),
    ensures
        state.edit(id, text).inv(),
{
    let turns = state.messages;
    match user_position_of(turns, id) {
        Some(k) => {
            lemma_position_valid(turns, id);
            let message = turns[k]->User_0;
            let turn = MessageView::User(UserMessageView { body: text, ..message });
            lemma_update_well_formed(turns, state.next_message_id, state.next_context_id, k, turn);
            let changed = turns.update(k, turn);
            assert(changed == state.edit(id, text).messages);
            match state.pending {
                Some(run) => {
                    let n = turns.len() as int;
                    assert(turns[n - 1] is Assistant);
                    assert(changed[n - 1] == turns[n - 1]);
                    assert(changed[n - 2].id() == turns[n - 2].id());
                    match run.stage {
                        CompletionStage::Populating(context_id) => {
                            lemma_position_valid(turns, run.submitted_id);
                            let at = user_position_of(turns, run.submitted_id)->Some_0;
                            assert(contexts_of(changed[at]) == contexts_of(turns[at]));
                            assert(codebase_context_of(changed, run.submitted_id, context_id)
                                == codebase_context_of(turns, run.submitted_id, context_id));
                        },
                        CompletionStage::Streaming => {},
                    }
                },
                None => {},
            }
        },
        None => {},
    }
}

/// Cutting the transcript off keeps the invariant.
pub proof fn lemma_truncate_inv(state: ChatView, last_message_id: MessageId)
    requires
        state.inv(),
    ensures
        state.truncate(last_message_id).inv(),
{
    let turns = state.messages;
    let cut = state.truncate(last_message_id);
    lemma_position_valid(turns, last_message_id);
    match position_of(turns, last_message_id) {
        Some(k) => {
            lemma_take_well_formed(turns, state.next_message_id, state.next_context_id, k + 1);
            match cut.pending {
                Some(run) => {
                    let n = turns.len() as int;
                    lemma_position_valid(cut.messages, run.assistant_id);
                    let at = position_of(cut.messages, run.assistant_id)->Some_0;
                    assert(cut.messages[at] == turns[at]);
                    if at < n - 1 {
                        assert(turns[at].id().0 < turns[n - 1].id().0);
                    }
                    assert(k + 1 == n);
                    assert(cut.messages =~= turns);
                },
                None => {},
            }
        },
        None => {
            match state.pending {
                Some(run) => {
                    let n = turns.len() as int;
                    lemma_position_unique(turns, run.assistant_id, n - 1);
                },
                None => {},
            }
        },
    }
}

/// Submitting keeps the invariant, as long as identifiers are left.
pub proof fn lemma_submit_inv(state: ChatView, mode: SubmitMode)
    requires
        state.inv(),
        state.has_room(mode),
    ensures
        state.submit(mode).inv(),
        state.submission(mode) matches Some(run) ==> user_position_of(
            state.truncate(run.submitted_id).push_new_assistant_message().messages,
            run.submitted_id,
        ) is Some && state.truncate(run.submitted_id).pending is None,
{
    match state.submission(mode) {
        Some(run) => {
            let id = run.submitted_id;
            let turns = state.messages;
            let next = state.next_message_id;
            lemma_position_valid(turns, id);
            let k = user_position_of(turns, id)->Some_0;
            let cut = state.truncate(id);
            assert(cut.messages == turns.take(k + 1));
            lemma_take_well_formed(turns, next, state.next_context_id, k + 1);
            match state.pending {
                Some(earlier) => {
                    let n = turns.len() as int;
                    assert(turns[n - 1] is Assistant);
                    assert(k < n - 1);
                    assert forall|j: int| 0 <= j < cut.messages.len() implies (
                    #[trigger] cut.messages[j]).id() != earlier.assistant_id by {
                        assert(cut.messages[j] == turns[j]);
                        assert(turns[j].id().0 < turns[n - 1].id().0);
                    }
                    lemma_position_absent(cut.messages, earlier.assistant_id);
                },
                None => {},
            }
            assert(turns[k] is User <==> k % 2 == 0);
            let reply = MessageView::Assistant(AssistantMessageView::empty(next));
            assert(contexts_of(reply).len() == 0);
            lemma_push_well_formed(cut.messages, next, state.next_context_id, reply);
            let opened = cut.push_new_assistant_message();
            assert(opened.messages == cut.messages.push(reply));
            assert(opened.messages[k] == turns[k]);
            lemma_position_unique(opened.messages, id, k);
            let attached = opened.populate_context_on_submit(id, mode);
            let after = state.submit(mode);
            assert(after.messages == attached.messages);
            match mode {
                SubmitMode::Codebase => {
                    let context = ContextView::Codebase(
                        CodebaseContextView::fresh(state.next_context_id),
                    );
                    assert forall|j: int| k < j < opened.messages.len() implies contexts_of(
                        #[trigger] opened.messages[j],
                    ).len() == 0 by {
                        assert(j == k + 1);
                    }
                    lemma_attach_well_formed(
                        opened.messages,
                        next.successor(),
                        state.next_context_id,
                        k,
                        context,
                    );
                    assert(position_of(after.messages, id) == Some(k));
                    assert(after.messages[k + 1] == reply);
                    assert(codebase_context_of(after.messages, id, state.next_context_id) == Some(
                        CodebaseContextView::fresh(state.next_context_id),
                    ));
                },
                _ => {
                    assert(after.messages[k + 1] == reply);
                },
            }
        },
        None => {},
    }
}

/// Storing the excerpts a run waits for keeps the invariant.
pub proof fn lemma_populate_context_inv(
    state: ChatView,
    message_id: MessageId,
    context_id: ContextId,
    excerpts: Seq<ExcerptView>,
)
    requires
        state.inv(),
    ensures
        state.populate_context(message_id, context_id, excerpts).inv(),
{
    let turns = state.messages;
    if state.awaits_context(message_id, context_id) && codebase_context_of(
        turns,
        message_id,
        context_id,
    ) is Some {
        lemma_position_valid(turns, message_id);
        let k = user_position_of(turns, message_id)->Some_0;
        let message = turns[k]->User_0;
        lemma_context_position_valid(message.contexts, context_id);
        let a = context_position_of(message.contexts, context_id)->Some_0;
        match message.contexts[a] {
            ContextView::Codebase(context) => {
                let contexts = message.contexts.update(
                    a,
                    ContextView::Codebase(context.populated(excerpts)),
                );
                let turn = MessageView::User(UserMessageView { contexts, ..message });
                assert(context_ids(contexts) =~= context_ids(message.contexts));
                lemma_update_well_formed(
                    turns,
                    state.next_message_id,
                    state.next_context_id,
                    k,
                    turn,
                );
                let changed = turns.update(k, turn);
                assert(changed == state.populate_context(message_id, context_id, excerpts).messages);
                let n = turns.len() as int;
                assert(changed[n - 1] == turns[n - 1]);
                assert(changed[n - 2].id() == turns[n - 2].id());
            },
        }
    }
}

/// Appending a chunk of the reply keeps the invariant.
pub proof fn lemma_push_chunk_inv(state: ChatView, assistant_id: MessageId, chunk: Seq<char>)
    requires
        state.inv(),
    ensures
        state.push_chunk(assistant_id, chunk).inv(),
{
    let turns = state.messages;
    if state.is_streaming(assistant_id) {
        let n = turns.len() as int;
        let message = turns[n - 1]->Assistant_0;
        let turn = MessageView::Assistant(
            AssistantMessageView { body: message.body + chunk, ..message },
        );
        lemma_update_well_formed(turns, state.next_message_id, state.next_context_id, n - 1, turn);
        let changed = turns.update(n - 1, turn);
        assert(changed == with_chunk(turns, chunk));
        assert(changed[n - 2] == turns[n - 2]);
    }
}

/// Settling the run in flight keeps the invariant and leaves an empty user
/// turn at the end of the transcript, right behind the assistant turn of the
/// run.
pub proof fn lemma_settle_inv(state: ChatView, assistant_id: MessageId, error: Option<Seq<char>>)
    requires
        state.inv(),
    ensures
        state.settle(assistant_id, error).inv(),
        state.may_settle(assistant_id, error) ==> ({
            let after = state.settle(assistant_id, error);
            let n = state.messages.len() as int;
            &&& after.pending is None
            &&& after.messages.len() == n + 1
            &&& after.messages[n] == MessageView::User(
                UserMessageView::empty(state.next_message_id),
            )
            &&& after.messages[n - 1] is Assistant
            &&& after.messages[n - 1].id() == assistant_id
        }),
{
    let turns = state.messages;
    if state.may_settle(assistant_id, error) {
        let n = turns.len() as int;
        let recorded = match error {
            Some(message) => with_error(turns, message),
            None => turns,
        };
        match error {
            Some(text) => {
                let message = turns[n - 1]->Assistant_0;
                let turn = MessageView::Assistant(
                    AssistantMessageView { error: Some(text), ..message },
                );
                lemma_update_well_formed(
                    turns,
                    state.next_message_id,
                    state.next_context_id,
                    n - 1,
                    turn,
                );
                assert(recorded == turns.update(n - 1, turn));
            },
            None => {},
        }
        assert(turns[n - 1] is User <==> (n - 1) % 2 == 0);
        let fresh = MessageView::User(UserMessageView::empty(state.next_message_id));
        assert(contexts_of(fresh).len() == 0);
        lemma_push_well_formed(recorded, state.next_message_id, state.next_context_id, fresh);
        let after = state.settle(assistant_id, error);
        assert(after.messages == recorded.push(fresh));
    }
}

} // verus!
