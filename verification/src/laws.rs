//! What holds of every session, however it is driven.

use vstd::prelude::*;
use crate::context::ExcerptView;
use crate::ids::{ContextId, MessageId};
use crate::preservation::{
    lemma_edit_inv, lemma_init_inv, lemma_populate_context_inv, lemma_push_chunk_inv,
    lemma_settings_inv, lemma_settle_inv, lemma_submit_inv, lemma_truncate_inv,
};
use crate::retrieval::{resolved, ResolutionView};
use crate::session::{ChatView, SubmitMode};
use crate::transcript::{
    contexts_of, lemma_position_found, lemma_position_valid, position_of, truncated,
    user_message_of, user_position_of,
};

verus! {

/// Whatever can happen to a session.
pub enum Event {
    /// A model is selected.
    SelectModel(Seq<char>),
    /// Input focus moves to a turn, or away from every turn.
    Focus(Option<MessageId>),
    /// The user replaces the text of a user turn.
    Edit(MessageId, Seq<char>),
    /// The transcript is cut off behind a turn.
    Truncate(MessageId),
    /// The focused turn is submitted.
    Submit(SubmitMode),
    /// Retrieved excerpts arrive for a context of a user turn.
    Populate(MessageId, ContextId, Seq<ExcerptView>),
    /// A chunk of the reply arrives for an assistant turn.
    Chunk(MessageId, Seq<char>),
    /// The stream into an assistant turn ends, with a failure message or
    /// without.
    Settle(MessageId, Option<Seq<char>>),
}

impl ChatView {
    /// The state after `event`.
    pub open spec fn apply(self, event: Event) -> ChatView {
        match event {
            Event::SelectModel(model) => self.with_model(model),
            Event::Focus(focus) => self.with_focus(focus),
            Event::Edit(id, text) => self.edit(id, text),
            Event::Truncate(id) => self.truncate(id),
            Event::Submit(mode) => self.submit(mode),
            Event::Populate(message_id, context_id, excerpts) => self.populate_context(
                message_id,
                context_id,
                excerpts,
            ),
            Event::Chunk(assistant_id, chunk) => self.push_chunk(assistant_id, chunk),
            Event::Settle(assistant_id, error) => self.settle(assistant_id, error),
        }
    }

    /// Whether `event` may happen in this state: a submission needs
    /// identifiers to be left.
    pub open spec fn admits(self, event: Event) -> bool {
        match event {
            Event::Submit(mode) => self.has_room(mode),
            _ => true,
        }
    }
}

/// The state of a session for `model` after `events`, oldest first.
pub open spec fn run(model: Seq<char>, events: Seq<Event>) -> ChatView
    decreases events.len(),
{
    if events.len() == 0 {
        ChatView::init(model)
    } else {
        run(model, events.drop_last()).apply(events.last())
    }
}

/// Whether each of `events` may happen in the state the earlier ones lead to.
pub open spec fn admissible(model: Seq<char>, events: Seq<Event>) -> bool
    decreases events.len(),
{
    events.len() > 0 ==> admissible(model, events.drop_last()) && run(
        model,
        events.drop_last(),
    ).admits(events.last())
}

/// Every event keeps the invariant and moves no allocator backward.
pub proof fn lemma_step(state: ChatView, event: Event)
    requires
        state.inv(),
        state.admits(event),
    ensures
        state.apply(event).inv(),
        state.next_message_id.0 <= state.apply(event).next_message_id.0,
        state.next_context_id.0 <= state.apply(event).next_context_id.0,
{
    match event {
        Event::SelectModel(model) => {
            lemma_settings_inv(state, model, state.focus);
        },
        Event::Focus(focus) => {
            lemma_settings_inv(state, state.model, focus);
        },
        Event::Edit(id, text) => {
            lemma_edit_inv(state, id, text);
        },
        Event::Truncate(id) => {
            lemma_truncate_inv(state, id);
        },
        Event::Submit(mode) => {
            lemma_submit_inv(state, mode);
        },
        Event::Populate(message_id, context_id, excerpts) => {
            lemma_populate_context_inv(state, message_id, context_id, excerpts);
        },
        Event::Chunk(assistant_id, chunk) => {
            lemma_push_chunk_inv(state, assistant_id, chunk);
        },
        Event::Settle(assistant_id, error) => {
            lemma_settle_inv(state, assistant_id, error);
        },
    }
}

/// Every state a session reaches satisfies the invariant.
pub proof fn lemma_reachable_inv(model: Seq<char>, events: Seq<Event>)
    requires
        admissible(model, events),
    ensures
        run(model, events).inv(),
    decreases events.len(),
{
    if events.len() == 0 {
        lemma_init_inv(model);
    } else {
        lemma_reachable_inv(model, events.drop_last());
        lemma_step(run(model, events.drop_last()), events.last());
    }
}

/// In every state a session reaches, the transcript starts with a user turn
/// and each assistant turn directly follows a user turn.
pub proof fn lemma_assistant_follows_user(model: Seq<char>, events: Seq<Event>, i: int)
    requires
        admissible(model, events),
        0 <= i < run(model, events).messages.len(),
        run(model, events).messages[i] is Assistant,
    ensures
        i >= 1,
        run(model, events).messages[i - 1] is User,
{
    lemma_reachable_inv(model, events);
    let turns = run(model, events).messages;
    assert(turns[i] is User <==> i % 2 == 0);
    assert(turns[i - 1] is User <==> (i - 1) % 2 == 0);
}

/// When a run settles, whatever came before, the transcript ends with exactly
/// one user turn: an empty one that directly follows the assistant turn of
/// the run. No run is in flight then.
pub proof fn lemma_settlement_leaves_one_user_turn(
    model: Seq<char>,
    events: Seq<Event>,
    assistant_id: MessageId,
    error: Option<Seq<char>>,
)
    requires
        admissible(model, events),
        run(model, events).may_settle(assistant_id, error),
    ensures
        ({
            let settled = run(model, events.push(Event::Settle(assistant_id, error)));
            let n = settled.messages.len() as int;
            &&& settled.pending is None
            &&& n >= 3
            &&& settled.messages[n - 1] is User
            &&& settled.messages[n - 1]->User_0.body.len() == 0
            &&& settled.messages[n - 1]->User_0.contexts.len() == 0
            &&& settled.messages[n - 2] is Assistant
            &&& settled.messages[n - 2].id() == assistant_id
        }),
{
    let longer = events.push(Event::Settle(assistant_id, error));
    assert(longer.drop_last() =~= events);
    lemma_reachable_inv(model, events);
    lemma_settle_inv(run(model, events), assistant_id, error);
}

/// An identifier that a turn or a context of the session ever carried lies
/// below the allocators of every later state, so no later turn or context is
/// given it again, whatever was cut off in between.
pub proof fn lemma_identifiers_never_reused(model: Seq<char>, events: Seq<Event>, k: int)
    requires
        admissible(model, events),
        0 <= k <= events.len(),
    ensures
        admissible(model, events.take(k)),
        run(model, events.take(k)).next_message_id.0 <= run(model, events).next_message_id.0,
        run(model, events.take(k)).next_context_id.0 <= run(model, events).next_context_id.0,
        forall|i: int|
            0 <= i < run(model, events.take(k)).messages.len() ==> (#[trigger] run(
                model,
                events.take(k),
            ).messages[i]).id().0 < run(model, events).next_message_id.0,
        forall|i: int, a: int|
            0 <= i < run(model, events.take(k)).messages.len() && 0 <= a < contexts_of(
                run(model, events.take(k)).messages[i],
            ).len() ==> (#[trigger] contexts_of(run(model, events.take(k)).messages[i])[a]).id().0
                < run(model, events).next_context_id.0,
    decreases events.len(),
{
    if k == events.len() {
        assert(events.take(k) =~= events);
        lemma_reachable_inv(model, events);
    } else {
        let earlier = events.drop_last();
        assert(earlier.take(k) =~= events.take(k));
        lemma_identifiers_never_reused(model, earlier, k);
        lemma_reachable_inv(model, earlier);
        lemma_step(run(model, earlier), events.last());
    }
}

/// Cutting the transcript off behind a turn a second time changes nothing.
pub proof fn lemma_truncate_idempotent(state: ChatView, id: MessageId)
    ensures
        state.truncate(id).truncate(id) == state.truncate(id),
{
    let turns = state.messages;
    let once = state.truncate(id);
    lemma_position_valid(turns, id);
    match position_of(turns, id) {
        Some(k) => {
            assert forall|j: int| 0 <= j < k implies (#[trigger] once.messages[j]).id() != id by {
                assert(once.messages[j] == turns[j]);
            }
            lemma_position_found(once.messages, id, k);
            assert(truncated(once.messages, id) =~= once.messages);
        },
        None => {},
    }
}

/// A submission in a mode other than `Codebase` mints no context identifier
/// and leaves the submitted turn, its contexts among the rest, as it was.
pub proof fn lemma_plain_submit_attaches_nothing(state: ChatView, mode: SubmitMode)
    requires
        mode != SubmitMode::Codebase,
    ensures
        state.submit(mode).next_context_id == state.next_context_id,
        state.focused_message_id() matches Some(id) ==> user_message_of(
            state.submit(mode).messages,
            id,
        ) == user_message_of(state.messages, id),
        forall|i: int|
            0 <= i < state.submit(mode).messages.len() - 1 ==> (#[trigger] state.submit(
                mode,
            ).messages[i]) == state.messages[i],
        state.focused_message_id() is Some ==> contexts_of(
            state.submit(mode).messages.last(),
        ).len() == 0,
{
    match state.focused_message_id() {
        Some(id) => {
            let turns = state.messages;
            lemma_position_valid(turns, id);
            let k = user_position_of(turns, id)->Some_0;
            let after = state.submit(mode).messages;
            assert(after[k] == turns[k]);
            assert forall|j: int| 0 <= j < k implies (#[trigger] after[j]).id() != id by {
                assert(after[j] == turns[j]);
            }
            lemma_position_found(after, id, k);
        },
        None => {},
    }
}

/// Chunks accumulate: two chunks in a row leave the session as their
/// concatenation in one piece does.
pub proof fn lemma_chunks_accumulate(
    state: ChatView,
    assistant_id: MessageId,
    first: Seq<char>,
    second: Seq<char>,
)
    ensures
        state.push_chunk(assistant_id, first).push_chunk(assistant_id, second) == state.push_chunk(
            assistant_id,
            first + second,
        ),
{
    if state.is_streaming(assistant_id) {
        let turns = state.messages;
        if turns.len() > 0 && turns.last() is Assistant {
            let body = turns.last()->Assistant_0.body;
            assert((body + first) + second =~= body + (first + second));
            assert(state.push_chunk(assistant_id, first).push_chunk(assistant_id, second).messages
                =~= state.push_chunk(assistant_id, first + second).messages);
        }
    }
}

/// A failure at the end of a stream is recorded on the assistant turn of the
/// run and takes nothing of the text streamed so far.
pub proof fn lemma_failure_keeps_streamed_text(
    state: ChatView,
    assistant_id: MessageId,
    message: Seq<char>,
)
    requires
        state.inv(),
        state.is_live(assistant_id),
    ensures
        ({
            let n = state.messages.len() as int;
            let settled = state.settle(assistant_id, Some(message));
            &&& settled.messages.len() == n + 1
            &&& settled.messages[n - 1] is Assistant
            &&& settled.messages[n - 1]->Assistant_0.body == state.messages[n
                - 1]->Assistant_0.body
            &&& settled.messages[n - 1]->Assistant_0.error == Some(message)
            &&& forall|i: int| 0 <= i < n - 1 ==> (#[trigger] settled.messages[i]) == state.messages[i]
        }),
{
}

/// A context is populated once: whatever arrives for it a second time
/// changes nothing.
pub proof fn lemma_context_is_populated_once(
    state: ChatView,
    message_id: MessageId,
    context_id: ContextId,
    first: Seq<ExcerptView>,
    second: Seq<ExcerptView>,
)
    ensures
        state.populate_context(message_id, context_id, first).populate_context(
            message_id,
            context_id,
            second,
        ) == state.populate_context(message_id, context_id, first),
{
}

/// Once its run has settled, an assistant turn takes no further chunk and
/// no second settlement.
pub proof fn lemma_settled_turn_is_final(
    state: ChatView,
    assistant_id: MessageId,
    error: Option<Seq<char>>,
    chunk: Seq<char>,
    again: Option<Seq<char>>,
)
    requires
        state.may_settle(assistant_id, error),
    ensures
        ({
            let settled = state.settle(assistant_id, error);
            &&& settled.push_chunk(assistant_id, chunk) == settled
            &&& settled.settle(assistant_id, again) == settled
        }),
{
}

/// Outcomes for different hits may arrive in either order.
pub proof fn lemma_arrival_order_is_irrelevant(
    slots: Seq<ResolutionView>,
    i: int,
    first: Option<ExcerptView>,
    j: int,
    second: Option<ExcerptView>,
)
    requires
        i != j,
    ensures
        resolved(resolved(slots, i, first), j, second) == resolved(
            resolved(slots, j, second),
            i,
            first,
        ),
{
    assert(resolved(resolved(slots, i, first), j, second) =~= resolved(
        resolved(slots, j, second),
        i,
        first,
    ));
}

} // verus!
