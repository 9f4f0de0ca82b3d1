use agentos_core::mail::{
    action_summary, draft_reply, summarize_thread, FakeMailExecutor, FakeMailRepository,
    MailAccountId, MailActionError, MailActionInput, MailActionKind, MailActionOutput, MailAddress,
    MailCreateDraftReplyActionInput, MailDraft, MailGetMessageActionInput,
    MailListRecentActionInput, MailMessage, MailMessageId, MailMessageSummary,
    MailRepositoryError, MailSendActionInput, MailSummarizeThreadActionInput, MailThreadId,
    MAIL_LIST_RECENT_ACTION_KIND,
};

/// 2026-05-25T12:00:00Z in Unix seconds.
fn ts() -> i64 {
    1779710400
}

fn test_summary(id: &str, subject: &str, is_read: bool) -> MailMessageSummary {
    MailMessageSummary {
        id: MailMessageId::from(id),
        thread_id: MailThreadId::from("thread-1"),
        account_id: MailAccountId::from("account-1"),
        subject: subject.to_string(),
        from: MailAddress::new("sender@example.com").with_display_name("Sender"),
        to: vec![MailAddress::new("user@example.com")],
        snippet: format!("Snippet for {}", subject),
        received_at: ts(),
        is_read,
        has_attachments: false,
    }
}

fn test_message(id: &str, subject: &str, from_email: &str) -> MailMessage {
    MailMessage {
        id: MailMessageId::from(id),
        thread_id: MailThreadId::from("thread-1"),
        account_id: MailAccountId::from("account-1"),
        subject: subject.to_string(),
        from: MailAddress::new(from_email).with_display_name("Sender"),
        to: vec![MailAddress::new("user@example.com")],
        cc: vec![],
        body_text: format!("Body of {}", subject),
        body_html: None,
        received_at: ts(),
        is_read: false,
        has_attachments: false,
        attachments: vec![],
    }
}

#[test]
fn mail_address_display_with_name() {
    let addr = MailAddress::new("user@example.com").with_display_name("User");
    assert_eq!(addr.to_string(), "User <user@example.com>");
}

#[test]
fn mail_address_display_without_name() {
    let addr = MailAddress::new("user@example.com");
    assert_eq!(addr.to_string(), "user@example.com");
}

#[test]
fn mail_ids_display() {
    assert_eq!(MailAccountId::from("account-1").to_string(), "account-1");
    assert_eq!(MailMessageId::from("msg-1").as_str(), "msg-1");
    assert_eq!(MailThreadId::from("thread-1").to_string(), "thread-1");
    assert_eq!(MAIL_LIST_RECENT_ACTION_KIND, "mail.list_recent");
}

#[test]
fn fake_repo_lists_summaries() {
    let repo = FakeMailRepository::new().with_summaries(vec![
        test_summary("msg-1", "First", false),
        test_summary("msg-2", "Second", true),
    ]);
    let results = repo.list_recent("account-1", 10, false).unwrap();
    assert_eq!(results.len(), 2);
}

#[test]
fn fake_repo_filters_unread_only() {
    let repo = FakeMailRepository::new().with_summaries(vec![
        test_summary("msg-1", "Read", true),
        test_summary("msg-2", "Unread", false),
    ]);
    let results = repo.list_recent("account-1", 10, true).unwrap();
    assert_eq!(results.len(), 1);
    assert_eq!(results[0].subject, "Unread");
}

#[test]
fn fake_repo_truncates_results() {
    let summaries: Vec<_> = (0..5)
        .map(|i| test_summary(&format!("msg-{}", i), &format!("Subject {}", i), false))
        .collect();
    let repo = FakeMailRepository::new().with_summaries(summaries);
    let results = repo.list_recent("account-1", 3, false).unwrap();
    assert_eq!(results.len(), 3);
}

#[test]
fn fake_repo_lists_newest_first_keeping_ties_in_order() {
    let mut old = test_summary("msg-old", "Old", false);
    old.received_at = ts() - 100;
    let mut new = test_summary("msg-new", "New", false);
    new.received_at = ts() + 100;
    let tie_a = test_summary("msg-a", "TieA", false);
    let tie_b = test_summary("msg-b", "TieB", true);
    let repo = FakeMailRepository::new().with_summaries(vec![old, tie_a, new, tie_b]);
    let results = repo.list_recent("account-1", 10, false).unwrap();
    let subjects: Vec<&str> = results.iter().map(|s| s.subject.as_str()).collect();
    assert_eq!(subjects, vec!["New", "TieA", "TieB", "Old"]);
}

#[test]
fn fake_repo_get_message_returns_none_for_missing() {
    let repo = FakeMailRepository::new();
    assert!(repo.get_message("missing").unwrap().is_none());
}

#[test]
fn fake_repo_get_message_finds_by_id() {
    let repo = FakeMailRepository::new().with_messages(vec![test_message("msg-1", "Test", "a@example.com")]);
    assert_eq!(repo.get_message("msg-1").unwrap().unwrap().subject, "Test");
}

#[test]
fn fake_repo_get_thread_messages() {
    let repo = FakeMailRepository::new().with_messages(vec![
        test_message("msg-1", "First", "a@example.com"),
        test_message("msg-2", "Second", "b@example.com"),
    ]);
    let msgs = repo.get_thread_messages("thread-1").unwrap();
    assert_eq!(msgs.len(), 2);
    assert!(repo.get_thread_messages("thread-9").unwrap().is_empty());
}

#[test]
fn thread_summary_names_count_and_latest_sender() {
    let msgs = vec![test_message("msg-1", "Thread Start", "a@example.com")];
    let text = summarize_thread("thread-1", &msgs);
    assert!(text.contains("1 message"));
    assert_eq!(text, "Thread thread-1 has 1 message(s). Latest from: Sender <a@example.com>");
    assert_eq!(summarize_thread("thread-2", &[]), "Thread thread-2 not found or empty.");
}

#[test]
fn draft_reply_addresses_the_sender() {
    let original = test_message("msg-1", "Original", "sender@example.com");
    let draft = draft_reply(&original, "My reply".to_string(), ts());
    assert_eq!(draft.subject, "Re: Original");
    assert_eq!(draft.body_text, "My reply");
    assert_eq!(draft.to[0].email, "sender@example.com");
    assert_eq!(draft.reply_to, MailMessageId::from("msg-1"));
    assert_eq!(draft.created_at, ts());
}

#[test]
fn executor_list_recent_returns_summaries() {
    let repo = FakeMailRepository::new().with_summaries(vec![test_summary("msg-1", "Important Email", false)]);
    let executor = FakeMailExecutor::new(repo, ts());
    let result = executor
        .execute(MailActionInput::ListRecent(MailListRecentActionInput {
            account_id: "account-1".to_string(),
            max_results: Some(10),
            unread_only: None,
        }))
        .unwrap();
    match result {
        MailActionOutput::Summaries(summaries) => {
            assert_eq!(summaries.len(), 1);
            assert_eq!(summaries[0].subject, "Important Email");
        }
        other => panic!("expected summaries, got {other:?}"),
    }
}

#[test]
fn executor_list_recent_defaults_to_twenty() {
    let summaries: Vec<_> =
        (0..25).map(|i| test_summary(&format!("msg-{}", i), &format!("S {}", i), false)).collect();
    let executor = FakeMailExecutor::new(FakeMailRepository::new().with_summaries(summaries), ts());
    let result = executor
        .execute(MailActionInput::ListRecent(MailListRecentActionInput {
            account_id: "account-1".to_string(),
            max_results: None,
            unread_only: None,
        }))
        .unwrap();
    assert!(matches!(result, MailActionOutput::Summaries(v) if v.len() == 20));
}

#[test]
fn executor_get_message_returns_full_message() {
    let repo = FakeMailRepository::new().with_messages(vec![test_message("msg-1", "Test", "a@example.com")]);
    let executor = FakeMailExecutor::new(repo, ts());
    let result = executor
        .execute(MailActionInput::GetMessage(MailGetMessageActionInput { message_id: "msg-1".to_string() }))
        .unwrap();
    match result {
        MailActionOutput::Message(Some(msg)) => assert_eq!(msg.subject, "Test"),
        other => panic!("expected a message, got {other:?}"),
    }
}

#[test]
fn executor_summarize_thread_returns_text() {
    let repo =
        FakeMailRepository::new().with_messages(vec![test_message("msg-1", "Thread Start", "a@example.com")]);
    let executor = FakeMailExecutor::new(repo, ts());
    let result = executor
        .execute(MailActionInput::SummarizeThread(MailSummarizeThreadActionInput {
            thread_id: "thread-1".to_string(),
        }))
        .unwrap();
    match result {
        MailActionOutput::Text(text) => assert!(text.contains("1 message")),
        other => panic!("expected text, got {other:?}"),
    }
}

#[test]
fn executor_create_draft_reply_builds_draft() {
    let repo =
        FakeMailRepository::new().with_messages(vec![test_message("msg-1", "Original", "sender@example.com")]);
    let executor = FakeMailExecutor::new(repo, ts());
    let result = executor
        .execute(MailActionInput::CreateDraftReply(MailCreateDraftReplyActionInput {
            message_id: "msg-1".to_string(),
            body_text: "My reply".to_string(),
        }))
        .unwrap();
    match result {
        MailActionOutput::Draft(draft) => {
            assert_eq!(draft.subject, "Re: Original");
            assert_eq!(draft.body_text, "My reply");
            assert_eq!(draft.to[0].email, "sender@example.com");
            assert_eq!(draft.created_at, ts());
        }
        other => panic!("expected a draft, got {other:?}"),
    }
}

#[test]
fn executor_create_draft_reply_for_missing_message_fails() {
    let executor = FakeMailExecutor::new(FakeMailRepository::new(), ts());
    let result = executor.execute(MailActionInput::CreateDraftReply(MailCreateDraftReplyActionInput {
        message_id: "missing".to_string(),
        body_text: "x".to_string(),
    }));
    assert_eq!(result, Err(MailActionError::ExecutionFailed("message not found: missing".to_string())));
}

#[test]
fn executor_send_returns_sent_status() {
    let executor = FakeMailExecutor::new(FakeMailRepository::new(), ts());
    let draft = MailDraft {
        reply_to: MailMessageId::from("msg-1"),
        to: vec![MailAddress::new("to@example.com")],
        subject: "Test".to_string(),
        body_text: "Body".to_string(),
        created_at: ts(),
    };
    let result = executor.execute(MailActionInput::Send(MailSendActionInput { draft })).unwrap();
    assert_eq!(result, MailActionOutput::Sent { sent_at: ts() });
}

#[test]
fn executor_rejects_unknown_action_kind() {
    assert_eq!(MailActionKind::of("mail.unknown"), None);
    assert_eq!(MailActionKind::of(MAIL_LIST_RECENT_ACTION_KIND), Some(MailActionKind::ListRecent));
    assert_eq!(MailActionKind::of("mail.send"), Some(MailActionKind::Send));
    assert_eq!(action_summary("mail.send"), "mail.send completed");
}

#[test]
fn repository_error_messages() {
    assert_eq!(MailRepositoryError::MessageNotFound("m".to_string()).to_string(), "message not found: m");
    assert_eq!(MailRepositoryError::Io("disk".to_string()).to_string(), "io error: disk");
}
