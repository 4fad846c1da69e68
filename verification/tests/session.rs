use assistant2::{
    AssistantChat, AssistantContext, ChatError, ChatMessage, CodebaseExcerpt, CompletionRole,
    CompletionStage, ContextId, MessageId, Submit, SubmitMode, CODEBASE_SEARCH_LIMIT,
};

fn chat() -> AssistantChat {
    AssistantChat::new(String::from("test-model"))
}

fn excerpt(path: &str, text: &str, score: f32) -> CodebaseExcerpt {
    CodebaseExcerpt { path: String::from(path), text: String::from(text), score_bits: score.to_bits() }
}

fn is_user(message: &ChatMessage) -> bool {
    matches!(message, ChatMessage::User(_))
}

fn user_body(chat: &AssistantChat, index: usize) -> String {
    match &chat.messages()[index] {
        ChatMessage::User(message) => message.body.clone(),
        ChatMessage::Assistant(_) => panic!("turn {} is not a user turn", index),
    }
}

fn assistant_body(chat: &AssistantChat, index: usize) -> String {
    match &chat.messages()[index] {
        ChatMessage::Assistant(message) => message.body.clone(),
        ChatMessage::User(_) => panic!("turn {} is not an assistant turn", index),
    }
}

fn assistant_error(chat: &AssistantChat, index: usize) -> Option<String> {
    match &chat.messages()[index] {
        ChatMessage::Assistant(message) => message.error.clone(),
        ChatMessage::User(_) => panic!("turn {} is not an assistant turn", index),
    }
}

fn ids(chat: &AssistantChat) -> Vec<usize> {
    chat.messages().iter().map(|message| message.id().0).collect()
}

/// Submits the focused turn with `text`, streams `reply` and settles.
fn exchange(chat: &mut AssistantChat, text: &str, reply: &str) {
    let focused = chat.focused_message_id().unwrap();
    chat.set_message_text(focused, String::from(text)).unwrap();
    let submission = chat.submit(&Submit(SubmitMode::Simple)).unwrap();
    let assistant_id = submission.completion.assistant_id;
    chat.push_chunk(assistant_id, reply).unwrap();
    chat.settle(assistant_id, Ok(())).unwrap();
}

#[test]
fn new_session_has_one_focused_empty_user_turn() {
    let chat = chat();
    assert_eq!(chat.model(), "test-model");
    assert_eq!(chat.messages().len(), 1);
    assert_eq!(ids(&chat), vec![0]);
    assert_eq!(user_body(&chat, 0), "");
    match &chat.messages()[0] {
        ChatMessage::User(message) => assert!(message.contexts.is_empty()),
        ChatMessage::Assistant(_) => panic!("the first turn is a user turn"),
    }
    assert_eq!(chat.focused_message_id(), Some(MessageId(0)));
    assert_eq!(chat.pending_completion(), None);
}

#[test]
fn set_model_replaces_the_model() {
    let mut chat = chat();
    chat.set_model(String::from("other-model"));
    assert_eq!(chat.model(), "other-model");
    assert_eq!(chat.messages().len(), 1);
}

#[test]
fn submit_without_focus_is_refused_and_changes_nothing() {
    let mut chat = chat();
    chat.set_focus(None);
    let result = chat.submit(&Submit(SubmitMode::Simple));
    assert!(matches!(result, Err(ChatError::NoFocusedMessage)));
    assert_eq!(chat.messages().len(), 1);
    assert_eq!(chat.pending_completion(), None);
}

#[test]
fn focus_on_an_assistant_turn_or_a_missing_turn_is_no_focus() {
    let mut chat = chat();
    exchange(&mut chat, "hi", "hello");
    chat.set_focus(Some(MessageId(1)));
    assert_eq!(chat.focused_message_id(), None);
    chat.set_focus(Some(MessageId(17)));
    assert_eq!(chat.focused_message_id(), None);
    assert!(matches!(chat.submit(&Submit(SubmitMode::Simple)), Err(ChatError::NoFocusedMessage)));
    chat.set_focus(Some(MessageId(0)));
    assert_eq!(chat.focused_message_id(), Some(MessageId(0)));
}

#[test]
fn simple_submit_appends_an_empty_assistant_turn_and_streams() {
    let mut chat = chat();
    chat.set_message_text(MessageId(0), String::from("question")).unwrap();
    let submission = chat.submit(&Submit(SubmitMode::Simple)).unwrap();
    assert_eq!(submission.completion.submitted_id, MessageId(0));
    assert_eq!(submission.completion.assistant_id, MessageId(1));
    assert_eq!(submission.completion.stage, CompletionStage::Streaming);
    assert!(submission.retrieval.is_none());
    assert_eq!(chat.pending_completion(), Some(submission.completion));
    assert_eq!(ids(&chat), vec![0, 1]);
    assert_eq!(assistant_body(&chat, 1), "");
    assert_eq!(assistant_error(&chat, 1), None);
}

#[test]
fn simple_submit_allocates_no_context() {
    let mut chat = chat();
    chat.set_message_text(MessageId(0), String::from("question")).unwrap();
    chat.submit(&Submit(SubmitMode::Simple)).unwrap();
    match &chat.messages()[0] {
        ChatMessage::User(message) => assert!(message.contexts.is_empty()),
        ChatMessage::Assistant(_) => panic!("the first turn is a user turn"),
    }
    // The next codebase submission still gets the first context identifier.
    chat.set_focus(Some(MessageId(0)));
    let submission = chat.submit(&Submit(SubmitMode::Codebase)).unwrap();
    assert_eq!(submission.retrieval.unwrap().context_id, ContextId(0));
}

#[test]
fn current_file_submit_attaches_nothing() {
    let mut chat = chat();
    let submission = chat.submit(&Submit(SubmitMode::CurrentFile)).unwrap();
    assert!(submission.retrieval.is_none());
    assert_eq!(submission.completion.stage, CompletionStage::Streaming);
    match &chat.messages()[0] {
        ChatMessage::User(message) => assert!(message.contexts.is_empty()),
        ChatMessage::Assistant(_) => panic!("the first turn is a user turn"),
    }
}

#[test]
fn codebase_submit_attaches_a_pending_context_and_asks_for_a_search() {
    let mut chat = chat();
    chat.set_message_text(MessageId(0), String::from("where is main?")).unwrap();
    let submission = chat.submit(&Submit(SubmitMode::Codebase)).unwrap();
    let query = submission.retrieval.unwrap();
    assert_eq!(query.message_id, MessageId(0));
    assert_eq!(query.context_id, ContextId(0));
    assert_eq!(query.query, "where is main?");
    assert_eq!(query.limit, 4);
    assert_eq!(CODEBASE_SEARCH_LIMIT, 4);
    assert_eq!(submission.completion.stage, CompletionStage::Populating(ContextId(0)));
    let context = chat.codebase_context(MessageId(0), ContextId(0)).unwrap();
    assert_eq!(context.id, ContextId(0));
    assert!(context.pending);
    assert!(context.excerpts.is_empty());
}

#[test]
fn chunks_are_refused_while_the_context_is_pending() {
    let mut chat = chat();
    let submission = chat.submit(&Submit(SubmitMode::Codebase)).unwrap();
    let assistant_id = submission.completion.assistant_id;
    assert_eq!(chat.push_chunk(assistant_id, "early"), Err(ChatError::ContextPending));
    assert_eq!(chat.settle(assistant_id, Ok(())), Err(ChatError::ContextPending));
    assert!(matches!(chat.begin_completion(assistant_id), Err(ChatError::ContextPending)));
    assert_eq!(assistant_body(&chat, 1), "");
    assert_eq!(chat.messages().len(), 2);
}

#[test]
fn a_run_may_fail_while_its_context_is_pending() {
    let mut chat = chat();
    let submission = chat.submit(&Submit(SubmitMode::Codebase)).unwrap();
    let assistant_id = submission.completion.assistant_id;
    assert_eq!(chat.settle(assistant_id, Err(String::from("index unavailable"))), Ok(()));
    assert_eq!(assistant_body(&chat, 1), "");
    assert_eq!(assistant_error(&chat, 1), Some(String::from("index unavailable")));
    assert_eq!(ids(&chat), vec![0, 1, 2]);
    assert!(is_user(&chat.messages()[2]));
    assert_eq!(chat.pending_completion(), None);
    assert!(chat.codebase_context(MessageId(0), ContextId(0)).unwrap().pending);
    assert_eq!(
        chat.populate_context(MessageId(0), ContextId(0), Vec::new()),
        Err(ChatError::StaleCompletion)
    );
    assert!(chat.codebase_context(MessageId(0), ContextId(0)).unwrap().pending);
}

#[test]
fn populate_stores_excerpts_and_lets_the_run_stream() {
    let mut chat = chat();
    chat.set_message_text(MessageId(0), String::from("q")).unwrap();
    let submission = chat.submit(&Submit(SubmitMode::Codebase)).unwrap();
    let assistant_id = submission.completion.assistant_id;
    let excerpts = vec![excerpt("a.rs", "fn a() {}", 0.9), excerpt("b.rs", "fn b() {}", 0.5)];
    assert_eq!(chat.populate_context(MessageId(0), ContextId(0), excerpts), Ok(()));
    let context = chat.codebase_context(MessageId(0), ContextId(0)).unwrap();
    assert!(!context.pending);
    assert_eq!(context.excerpts.len(), 2);
    assert_eq!(context.excerpts[0].path, "a.rs");
    assert_eq!(context.excerpts[0].text, "fn a() {}");
    assert_eq!(f32::from_bits(context.excerpts[0].score_bits), 0.9);
    assert_eq!(context.excerpts[1].path, "b.rs");
    assert_eq!(chat.pending_completion().unwrap().stage, CompletionStage::Streaming);
    let request = chat.begin_completion(assistant_id).unwrap();
    assert_eq!(request.model, "test-model");
    assert_eq!(request.messages.len(), 2);
    assert_eq!(chat.push_chunk(assistant_id, "ok"), Ok(()));
}

#[test]
fn a_context_is_populated_once() {
    let mut chat = chat();
    chat.submit(&Submit(SubmitMode::Codebase)).unwrap();
    assert_eq!(chat.populate_context(MessageId(0), ContextId(0), vec![excerpt("a", "x", 1.0)]), Ok(()));
    assert_eq!(
        chat.populate_context(MessageId(0), ContextId(0), Vec::new()),
        Err(ChatError::StaleCompletion)
    );
    let context = chat.codebase_context(MessageId(0), ContextId(0)).unwrap();
    assert_eq!(context.excerpts.len(), 1);
}

#[test]
fn populate_of_a_missing_context_is_refused() {
    let mut chat = chat();
    chat.submit(&Submit(SubmitMode::Codebase)).unwrap();
    assert_eq!(
        chat.populate_context(MessageId(0), ContextId(5), Vec::new()),
        Err(ChatError::CodebaseContextNotFound)
    );
    assert_eq!(
        chat.populate_context(MessageId(9), ContextId(0), Vec::new()),
        Err(ChatError::CodebaseContextNotFound)
    );
    assert_eq!(
        chat.populate_context(MessageId(1), ContextId(0), Vec::new()),
        Err(ChatError::CodebaseContextNotFound)
    );
    assert!(chat.codebase_context(MessageId(0), ContextId(0)).unwrap().pending);
}

#[test]
fn streaming_accumulates_chunks() {
    let mut chat = chat();
    let submission = chat.submit(&Submit(SubmitMode::Simple)).unwrap();
    let assistant_id = submission.completion.assistant_id;
    chat.push_chunk(assistant_id, "Hel").unwrap();
    assert_eq!(assistant_body(&chat, 1), "Hel");
    chat.push_chunk(assistant_id, "lo").unwrap();
    assert_eq!(assistant_body(&chat, 1), "Hello");
    chat.push_chunk(assistant_id, " world").unwrap();
    assert_eq!(assistant_body(&chat, 1), "Hello world");
    chat.settle(assistant_id, Ok(())).unwrap();
    assert_eq!(assistant_body(&chat, 1), "Hello world");
    assert_eq!(assistant_error(&chat, 1), None);
}

#[test]
fn two_chunks_equal_their_concatenation() {
    let mut one = chat();
    let mut two = chat();
    let a = one.submit(&Submit(SubmitMode::Simple)).unwrap().completion.assistant_id;
    let b = two.submit(&Submit(SubmitMode::Simple)).unwrap().completion.assistant_id;
    one.push_chunk(a, "ab").unwrap();
    one.push_chunk(a, "cd").unwrap();
    two.push_chunk(b, "abcd").unwrap();
    assert_eq!(assistant_body(&one, 1), assistant_body(&two, 1));
}

#[test]
fn failure_mid_stream_keeps_the_text_and_records_the_error() {
    let mut chat = chat();
    let submission = chat.submit(&Submit(SubmitMode::Simple)).unwrap();
    let assistant_id = submission.completion.assistant_id;
    chat.push_chunk(assistant_id, "partial ").unwrap();
    assert_eq!(chat.settle(assistant_id, Err(String::from("connection reset"))), Ok(()));
    assert_eq!(assistant_body(&chat, 1), "partial ");
    let error = assistant_error(&chat, 1).unwrap();
    assert!(!error.is_empty());
    assert_eq!(error, "connection reset");
    assert_eq!(chat.messages().len(), 3);
    assert!(is_user(&chat.messages()[2]));
    assert_eq!(user_body(&chat, 2), "");
    assert_eq!(chat.pending_completion(), None);
}

#[test]
fn failure_to_open_the_stream_settles_with_an_empty_body() {
    let mut chat = chat();
    let submission = chat.submit(&Submit(SubmitMode::Simple)).unwrap();
    let assistant_id = submission.completion.assistant_id;
    chat.settle(assistant_id, Err(String::from("no route"))).unwrap();
    assert_eq!(assistant_body(&chat, 1), "");
    assert_eq!(assistant_error(&chat, 1), Some(String::from("no route")));
    assert_eq!(ids(&chat), vec![0, 1, 2]);
}

#[test]
fn settlement_appends_one_fresh_user_turn() {
    let mut chat = chat();
    exchange(&mut chat, "one", "first reply");
    assert_eq!(ids(&chat), vec![0, 1, 2]);
    assert!(is_user(&chat.messages()[0]));
    assert!(!is_user(&chat.messages()[1]));
    assert!(is_user(&chat.messages()[2]));
    assert_eq!(user_body(&chat, 2), "");
    assert_eq!(chat.pending_completion(), None);
}

#[test]
fn transcript_alternates_over_many_submissions() {
    let mut chat = chat();
    for round in 0..5 {
        exchange(&mut chat, "question", "answer");
        let messages = chat.messages();
        assert_eq!(messages.len(), 2 * (round + 1) + 1);
        assert!(is_user(&messages[messages.len() - 1]));
        assert!(!is_user(&messages[messages.len() - 2]));
        for (index, message) in messages.iter().enumerate() {
            assert_eq!(is_user(message), index % 2 == 0);
            if !is_user(message) {
                assert!(index > 0 && is_user(&messages[index - 1]));
            }
        }
    }
}

#[test]
fn focus_is_carried_to_the_fresh_turn() {
    let mut chat = chat();
    let submission = chat.submit(&Submit(SubmitMode::Simple)).unwrap();
    chat.settle(submission.completion.assistant_id, Ok(())).unwrap();
    assert_eq!(chat.focused_message_id(), Some(MessageId(2)));
}

#[test]
fn focus_that_left_the_submitted_turn_is_not_carried() {
    let mut chat = chat();
    let submission = chat.submit(&Submit(SubmitMode::Simple)).unwrap();
    chat.set_focus(None);
    chat.settle(submission.completion.assistant_id, Ok(())).unwrap();
    assert_eq!(chat.focused_message_id(), None);
    assert_eq!(chat.messages().len(), 3);
}

#[test]
fn truncate_keeps_up_to_and_including_the_turn() {
    let mut chat = chat();
    exchange(&mut chat, "one", "first");
    exchange(&mut chat, "two", "second");
    assert_eq!(ids(&chat), vec![0, 1, 2, 3, 4]);
    chat.truncate_messages(MessageId(2));
    assert_eq!(ids(&chat), vec![0, 1, 2]);
    assert_eq!(user_body(&chat, 2), "two");
}

#[test]
fn truncate_twice_is_idempotent() {
    let mut chat = chat();
    exchange(&mut chat, "one", "first");
    exchange(&mut chat, "two", "second");
    chat.truncate_messages(MessageId(1));
    let once = ids(&chat);
    let body = assistant_body(&chat, 1);
    chat.truncate_messages(MessageId(1));
    assert_eq!(ids(&chat), once);
    assert_eq!(ids(&chat), vec![0, 1]);
    assert_eq!(assistant_body(&chat, 1), body);
}

#[test]
fn truncate_to_the_last_turn_changes_nothing() {
    let mut chat = chat();
    exchange(&mut chat, "one", "first");
    chat.truncate_messages(MessageId(2));
    assert_eq!(ids(&chat), vec![0, 1, 2]);
}

#[test]
fn truncate_to_an_unknown_turn_changes_nothing() {
    let mut chat = chat();
    exchange(&mut chat, "one", "first");
    chat.truncate_messages(MessageId(40));
    assert_eq!(ids(&chat), vec![0, 1, 2]);
}

#[test]
fn identifiers_are_not_reused_after_truncation() {
    let mut chat = chat();
    exchange(&mut chat, "one", "first");
    exchange(&mut chat, "two", "second");
    chat.truncate_messages(MessageId(0));
    assert_eq!(ids(&chat), vec![0]);
    chat.set_focus(Some(MessageId(0)));
    exchange(&mut chat, "again", "third");
    assert_eq!(ids(&chat), vec![0, 5, 6]);
    let all = ids(&chat);
    for pair in all.windows(2) {
        assert!(pair[0] < pair[1]);
    }
}

#[test]
fn context_identifiers_are_not_reused_after_truncation() {
    let mut chat = chat();
    let first = chat.submit(&Submit(SubmitMode::Codebase)).unwrap();
    assert_eq!(first.retrieval.unwrap().context_id, ContextId(0));
    // Resubmitting the same turn cuts the first run off and starts another.
    let second = chat.submit(&Submit(SubmitMode::Codebase)).unwrap();
    assert_eq!(second.retrieval.unwrap().context_id, ContextId(1));
    assert_eq!(second.completion.assistant_id, MessageId(2));
    match &chat.messages()[0] {
        ChatMessage::User(message) => {
            let ids: Vec<usize> = message
                .contexts
                .iter()
                .map(|context| match context {
                    AssistantContext::Codebase(context) => context.id.0,
                })
                .collect();
            assert_eq!(ids, vec![0, 1]);
        }
        ChatMessage::Assistant(_) => panic!("the first turn is a user turn"),
    }
}

#[test]
fn resubmitting_an_earlier_turn_discards_what_followed() {
    let mut chat = chat();
    exchange(&mut chat, "one", "first");
    exchange(&mut chat, "two", "second");
    chat.set_focus(Some(MessageId(0)));
    chat.set_message_text(MessageId(0), String::from("one, revised")).unwrap();
    let submission = chat.submit(&Submit(SubmitMode::Simple)).unwrap();
    assert_eq!(ids(&chat), vec![0, 5]);
    assert_eq!(submission.completion.assistant_id, MessageId(5));
    assert_eq!(assistant_body(&chat, 1), "");
}

#[test]
fn results_of_a_superseded_run_are_dropped() {
    let mut chat = chat();
    let first = chat.submit(&Submit(SubmitMode::Simple)).unwrap();
    chat.push_chunk(first.completion.assistant_id, "old").unwrap();
    let second = chat.submit(&Submit(SubmitMode::Simple)).unwrap();
    assert_eq!(ids(&chat), vec![0, 2]);
    assert_eq!(
        chat.push_chunk(first.completion.assistant_id, "stale"),
        Err(ChatError::StaleCompletion)
    );
    assert_eq!(
        chat.settle(first.completion.assistant_id, Ok(())),
        Err(ChatError::StaleCompletion)
    );
    assert_eq!(assistant_body(&chat, 1), "");
    assert_eq!(chat.pending_completion(), Some(second.completion));
}

#[test]
fn truncation_cancels_the_run_whose_turn_it_removes() {
    let mut chat = chat();
    let submission = chat.submit(&Submit(SubmitMode::Simple)).unwrap();
    let assistant_id = submission.completion.assistant_id;
    chat.truncate_messages(MessageId(0));
    assert_eq!(chat.pending_completion(), None);
    assert_eq!(chat.push_chunk(assistant_id, "late"), Err(ChatError::StaleCompletion));
    assert_eq!(chat.settle(assistant_id, Ok(())), Err(ChatError::StaleCompletion));
    assert!(matches!(chat.begin_completion(assistant_id), Err(ChatError::StaleCompletion)));
    assert_eq!(ids(&chat), vec![0]);
}

#[test]
fn truncation_that_keeps_the_assistant_turn_keeps_the_run() {
    let mut chat = chat();
    let submission = chat.submit(&Submit(SubmitMode::Simple)).unwrap();
    chat.truncate_messages(submission.completion.assistant_id);
    assert_eq!(chat.pending_completion(), Some(submission.completion));
    assert_eq!(chat.push_chunk(submission.completion.assistant_id, "still here"), Ok(()));
}

#[test]
fn settle_twice_is_refused_the_second_time() {
    let mut chat = chat();
    let submission = chat.submit(&Submit(SubmitMode::Simple)).unwrap();
    let assistant_id = submission.completion.assistant_id;
    chat.settle(assistant_id, Err(String::from("failed"))).unwrap();
    assert_eq!(
        chat.settle(assistant_id, Err(String::from("failed again"))),
        Err(ChatError::StaleCompletion)
    );
    assert_eq!(assistant_error(&chat, 1), Some(String::from("failed")));
    assert_eq!(chat.messages().len(), 3);
}

#[test]
fn completion_messages_render_every_turn_in_order() {
    let mut chat = chat();
    exchange(&mut chat, "first question", "first answer");
    chat.set_message_text(MessageId(2), String::from("second question")).unwrap();
    let submission = chat.submit(&Submit(SubmitMode::Simple)).unwrap();
    let request = chat.begin_completion(submission.completion.assistant_id).unwrap();
    let rendered: Vec<(CompletionRole, String)> =
        request.messages.into_iter().map(|message| (message.role, message.body)).collect();
    assert_eq!(
        rendered,
        vec![
            (CompletionRole::User, String::from("first question")),
            (CompletionRole::Assistant, String::from("first answer")),
            (CompletionRole::User, String::from("second question")),
            (CompletionRole::Assistant, String::new()),
        ]
    );
    let direct = chat.completion_messages();
    assert_eq!(direct.len(), 4);
    assert_eq!(direct[1].body, "first answer");
}

#[test]
fn completion_messages_ignore_contexts_and_errors() {
    let mut chat = chat();
    chat.set_message_text(MessageId(0), String::from("q")).unwrap();
    let submission = chat.submit(&Submit(SubmitMode::Codebase)).unwrap();
    chat.populate_context(MessageId(0), ContextId(0), vec![excerpt("a.rs", "secret", 0.1)]).unwrap();
    chat.push_chunk(submission.completion.assistant_id, "half").unwrap();
    chat.settle(submission.completion.assistant_id, Err(String::from("boom"))).unwrap();
    let rendered = chat.completion_messages();
    assert_eq!(rendered.len(), 3);
    assert_eq!(rendered[0].body, "q");
    assert_eq!(rendered[1].role, CompletionRole::Assistant);
    assert_eq!(rendered[1].body, "half");
    assert_eq!(rendered[2].body, "");
}

#[test]
fn user_message_lookup() {
    let mut chat = chat();
    exchange(&mut chat, "one", "first");
    assert_eq!(chat.user_message(MessageId(0)).unwrap().body, "one");
    assert_eq!(chat.user_message(MessageId(2)).unwrap().id, MessageId(2));
    assert!(matches!(chat.user_message(MessageId(1)), Err(ChatError::UserMessageNotFound)));
    assert!(matches!(chat.user_message(MessageId(3)), Err(ChatError::UserMessageNotFound)));
}

#[test]
fn codebase_context_lookup() {
    let mut chat = chat();
    chat.submit(&Submit(SubmitMode::Codebase)).unwrap();
    assert!(chat.codebase_context(MessageId(0), ContextId(0)).is_ok());
    assert!(matches!(
        chat.codebase_context(MessageId(0), ContextId(1)),
        Err(ChatError::CodebaseContextNotFound)
    ));
    assert!(matches!(
        chat.codebase_context(MessageId(1), ContextId(0)),
        Err(ChatError::CodebaseContextNotFound)
    ));
    assert!(matches!(
        chat.codebase_context(MessageId(8), ContextId(0)),
        Err(ChatError::CodebaseContextNotFound)
    ));
}

#[test]
fn editing_an_unknown_or_assistant_turn_is_refused() {
    let mut chat = chat();
    exchange(&mut chat, "one", "first");
    assert_eq!(
        chat.set_message_text(MessageId(1), String::from("x")),
        Err(ChatError::UserMessageNotFound)
    );
    assert_eq!(
        chat.set_message_text(MessageId(9), String::from("x")),
        Err(ChatError::UserMessageNotFound)
    );
    assert_eq!(assistant_body(&chat, 1), "first");
    assert_eq!(chat.set_message_text(MessageId(2), String::from("next")), Ok(()));
    assert_eq!(user_body(&chat, 2), "next");
}

#[test]
fn a_fresh_session_has_room_for_submissions() {
    let chat = chat();
    assert!(chat.has_room(SubmitMode::Simple));
    assert!(chat.has_room(SubmitMode::CurrentFile));
    assert!(chat.has_room(SubmitMode::Codebase));
}

#[test]
fn refusals_describe_themselves() {
    assert_eq!(ChatError::NoFocusedMessage.message(), "unexpected state: no user message is focused");
    assert_eq!(ChatError::UserMessageNotFound.message(), "user message not found");
    assert_eq!(ChatError::CodebaseContextNotFound.message(), "codebase context not found");
    assert_eq!(ChatError::StaleCompletion.message(), "the completion is no longer pending");
    assert_eq!(
        ChatError::ContextPending.message(),
        "the context of the completion is still pending"
    );
}
