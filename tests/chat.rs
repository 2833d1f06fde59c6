use deepcli::continuation::{reply_looks_truncated, should_continue};
use deepcli::conversation::Conversation;
use deepcli::message::{estimate_message_tokens, estimate_messages_tokens};
use deepcli::session::{
    attachment_messages, image_parts, is_image_attachment, parse_input, query_messages,
    response_format, text_file_parts, InputCommand,
};
use deepcli::{
    estimate_tokens, get_model_max_input_tokens, get_model_max_tokens, map_model, Content,
    ImageContent, ImageUrl, Message, ReplyTurn, StreamEvent, StreamOutcome, TextContent,
    TurnDecision, MAX_AUTO_CONTINUE,
};

fn event(text: &str, reason: Option<&str>) -> StreamEvent {
    StreamEvent {
        text: text.to_string(),
        finish_reason: reason.map(|r| r.to_string()),
    }
}

fn simple(m: &Message) -> (String, String) {
    match m {
        Message::Simple { role, content } => (role.clone(), content.clone()),
        _ => panic!("expected a text message"),
    }
}

#[test]
fn token_estimates() {
    assert_eq!(estimate_tokens(""), 1);
    assert_eq!(estimate_tokens("abcd"), 2);
    assert_eq!(estimate_tokens("abcdefg"), 2);
    assert_eq!(estimate_tokens("你好世界你"), 2);
    let mm = Message::MultiModal {
        role: "user".to_string(),
        content: vec![
            Content::Text(TextContent {
                content_type: "text".to_string(),
                text: "12345678".to_string(),
            }),
            Content::Image(ImageContent {
                content_type: "image_url".to_string(),
                image_url: ImageUrl { url: "data:image/png;base64,AAAA".repeat(100) },
            }),
        ],
    };
    assert_eq!(estimate_message_tokens(&mm), 3);
    let msgs = vec![mm, Message::Simple { role: "user".to_string(), content: "abcd".to_string() }];
    assert_eq!(estimate_messages_tokens(&msgs), 5);
}

#[test]
fn empty_history_counts_system_message_only() {
    let c = Conversation::new();
    assert_eq!(c.estimate_tokens(), estimate_tokens("You are a helpful assistant."));
    assert_eq!(c.estimate_tokens(), 8);
    assert!(!c.needs_summary(get_model_max_input_tokens("deepseek-r1")));
}

#[test]
fn large_history_needs_summary() {
    let mut c = Conversation::new();
    c.append_text("user", "x".repeat(4 * 70000));
    assert!(c.needs_summary(65536));
    assert!(!c.needs_summary(usize::MAX - 1));
}

#[test]
fn request_messages_put_system_first() {
    let mut c = Conversation::new();
    c.append_text("user", "hi".to_string());
    let r = c.request_messages();
    assert_eq!(r.len(), 2);
    assert_eq!(simple(&r[0]), ("system".to_string(), "You are a helpful assistant.".to_string()));
    assert_eq!(simple(&r[1]), ("user".to_string(), "hi".to_string()));
}

#[test]
fn summary_request_holds_transcript() {
    let mut c = Conversation::new();
    c.append_text("user", "问题".to_string());
    c.append_text("assistant", "回答".to_string());
    c.append_text("tool", "ignored".to_string());
    let r = c.summary_request();
    assert_eq!(r.len(), 2);
    assert_eq!(simple(&r[0]).1, "你是一个对话历史摘要助手。");
    assert_eq!(
        simple(&r[1]).1,
        "请用中文总结以下对话内容，保留关键信息，便于后续继续对话：\nuser: 问题\nassistant: 回答"
    );
}

#[test]
fn summary_replaces_history() {
    let mut c = Conversation::new();
    c.append_text("user", "a".to_string());
    c.append_text("assistant", "b".to_string());
    c.replace_with_summary("要点");
    assert_eq!(c.len(), 1);
    let (role, content) = simple(&c.messages()[0]);
    assert_eq!(role, "user");
    assert!(content.starts_with("[历史摘要] "));
    assert_eq!(content, "[历史摘要] 要点");
}

#[test]
fn clear_empties_history() {
    let mut c = Conversation::new();
    c.append_text("user", "a".to_string());
    c.clear();
    assert_eq!(c.len(), 0);
}

#[test]
fn heuristic_examples() {
    assert!(should_continue("我们先看第一点，", &None));
    assert!(!should_continue("完成了。", &None));
    assert!(reply_looks_truncated("列表如下：  \n"));
    assert!(reply_looks_truncated("**"));
    assert!(reply_looks_truncated("see ("));
    assert!(!reply_looks_truncated("short answer"));
    assert!(reply_looks_truncated(&"字".repeat(101)));
    assert!(!reply_looks_truncated(&format!("{}。", "字".repeat(150))));
    assert!(!reply_looks_truncated(&"字".repeat(100)));
}

#[test]
fn finish_reason_decides() {
    assert!(should_continue("done。", &Some("length".to_string())));
    assert!(!should_continue("cut，", &Some("stop".to_string())));
}

#[test]
fn continuation_is_capped() {
    let mut c = Conversation::new();
    c.append_text("user", "write a lot".to_string());
    let mut turn = ReplyTurn::new();
    let mut continues = 0;
    loop {
        turn.record(event("part", None));
        turn.record(event("", Some("length")));
        match turn.finish(&mut c, StreamOutcome::Completed) {
            TurnDecision::Continue => continues += 1,
            TurnDecision::Stop => break,
        }
        assert!(continues <= MAX_AUTO_CONTINUE);
    }
    assert_eq!(continues, 5);
    assert_eq!(turn.continuations(), 5);
    // user, then 6 replies with 5 requests to go on between them
    assert_eq!(c.len(), 1 + 6 + 5);
    assert_eq!(simple(&c.messages()[2]), ("user".to_string(), "请继续".to_string()));
}

#[test]
fn later_reason_overrides_and_empty_is_ignored() {
    let mut turn = ReplyTurn::new();
    turn.record(event("a", Some("length")));
    turn.record(event("b", Some("stop")));
    turn.record(event("", Some("")));
    assert_eq!(turn.reply(), "ab");
    assert_eq!(turn.last_reason(), &Some("stop".to_string()));
    let mut c = Conversation::new();
    assert_eq!(turn.finish(&mut c, StreamOutcome::Completed), TurnDecision::Stop);
    assert_eq!(simple(&c.messages()[0]), ("assistant".to_string(), "ab".to_string()));
}

#[test]
fn stream_error_keeps_partial_reply_and_stops() {
    let mut c = Conversation::new();
    let mut turn = ReplyTurn::new();
    turn.record(event("half，", None));
    assert_eq!(turn.finish(&mut c, StreamOutcome::StreamFailed), TurnDecision::Stop);
    assert_eq!(c.len(), 1);
    let mut turn = ReplyTurn::new();
    assert_eq!(turn.finish(&mut c, StreamOutcome::RequestFailed), TurnDecision::Stop);
    assert_eq!(c.len(), 1);
}

#[test]
fn input_commands() {
    assert!(matches!(parse_input("  \\q \n"), InputCommand::Quit));
    assert!(matches!(parse_input("\\c"), InputCommand::Clear));
    assert!(matches!(parse_input(" \t\n"), InputCommand::Empty));
    match parse_input("  hello world \n") {
        InputCommand::Chat(s) => assert_eq!(s, "hello world"),
        _ => panic!("expected a chat message"),
    }
}

#[test]
fn model_tables() {
    assert_eq!(get_model_max_tokens("deepseek-r1"), 65536);
    assert_eq!(get_model_max_tokens("deepseek-chat"), 8192);
    assert_eq!(get_model_max_tokens("other"), 4096);
    assert_eq!(get_model_max_input_tokens("deepseek-chat"), 65536);
    assert_eq!(map_model("R1").unwrap_err(), "Invalid model. Use 'r1' or 'chat'.");
}

#[test]
fn single_request_messages() {
    let m = query_messages("test query", true);
    assert_eq!(m.len(), 2);
    let (role, content) = simple(&m[0]);
    assert_eq!(role, "system");
    assert!(content.contains("JSON format"));
    assert_eq!(simple(&m[1]), ("user".to_string(), "test query".to_string()));
    let (_, plain) = simple(&query_messages("test", false)[0]);
    assert!(!plain.contains("JSON format"));
    assert_eq!(response_format(true).unwrap().format_type, "json_object");
    assert!(response_format(false).is_none());
}

#[test]
fn attachments() {
    assert!(is_image_attachment("photo.png"));
    assert!(!is_image_attachment("notes.txt"));
    assert!(!is_image_attachment("no_extension"));
    let parts = image_parts("what is this", "a.png", b"hi");
    match &parts[1] {
        Content::Image(im) => assert_eq!(im.image_url.url, "data:image/png;base64,aGk="),
        _ => panic!("expected an image part"),
    }
    let parts = text_file_parts("sum up", "line");
    match &parts[0] {
        Content::Text(t) => assert_eq!(t.text, "sum up\n\n文件内容:\nline"),
        _ => panic!("expected a text part"),
    }
    let msgs = attachment_messages(parts, false);
    assert_eq!(msgs.len(), 2);
    assert!(matches!(&msgs[1], Message::MultiModal { .. }));
}

#[test]
fn turn_start_and_summary_outcome() {
    let mut c = Conversation::new();
    assert!(!c.start_turn("hello".to_string(), 65536));
    assert_eq!(c.len(), 1);
    assert!(c.start_turn("y".repeat(4 * 70000), 65536));
    c.settle_summary(None);
    assert_eq!(c.len(), 2);
    c.settle_summary(Some("gist"));
    assert_eq!(c.len(), 1);
    assert_eq!(simple(&c.messages()[0]).1, "[历史摘要] gist");
}
