use deepcli::{map_model, Message};

#[test]
fn test_message_creation() {
    let message = Message::Simple {
        role: "user".to_string(),
        content: "Hello".to_string(),
    };
    match message {
        Message::Simple { role, content } => {
            assert_eq!(role, "user");
            assert_eq!(content, "Hello");
        }
        _ => panic!("Expected simple message"),
    }
}

#[test]
fn test_model_mapping() {
    assert_eq!(map_model("r1").unwrap(), "deepseek-r1");
    assert_eq!(map_model("chat").unwrap(), "deepseek-chat");
    assert!(map_model("invalid").is_err());
}

#[test]
fn test_json_parsing() {
    let valid_json = r#"{"name": "test", "value": 42}"#;
    let invalid_json = "not json at all";
    assert!(serde_json::from_str::<serde_json::Value>(valid_json).is_ok());
    assert!(serde_json::from_str::<serde_json::Value>(invalid_json).is_err());
}
