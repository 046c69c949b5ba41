use sleuth::chat_filter::{kismet_log_line, parse_chat_line, parse_msg_line, sanitize_text, try_parse_msg_line};
use sleuth::chat_type::EChatType;
use sleuth::discord_modules::ChatRelayModule;
use sleuth::notifications::GameChatMessage;

#[test]
fn chat_type_names_round_trip() {
    for v in 0u8..16 {
        let t = EChatType::try_from(v).unwrap();
        assert_eq!(t.index(), v);
        assert_eq!(EChatType::from_str(t.as_str()), Ok(t));
    }
    assert_eq!(EChatType::try_from(16), Err(()));
    assert_eq!(EChatType::from_str("NotAType"), Err(()));
    assert_eq!(EChatType::try_from(3).unwrap().as_str(), "Admin");
}

#[test]
fn sanitize_masks_with_stars_and_keeps_length() {
    let input = "what the fuck is this";
    let out = sanitize_text(input);
    assert_eq!(out.chars().count(), input.chars().count());
    assert_ne!(out, input);
    for (a, b) in input.chars().zip(out.chars()) {
        assert!(a == b || b == '*');
    }
    assert_eq!(sanitize_text("hello friend"), "hello friend");
}

#[test]
fn sanitize_chat_message_masks_sender_and_text() {
    let mut m = GameChatMessage {
        sender: "shit_lord".to_string(),
        message: "nice shot".to_string(),
        chat_type: EChatType::AllSay,
    };
    m.sanitize();
    assert_eq!(m.message, "nice shot");
    assert!(m.sender.contains('*'));
    assert_eq!(m.chat_type, EChatType::AllSay);
}

#[test]
fn parse_chat_line_reads_name_channel_and_text() {
    let m = parse_chat_line("Sir Knight  <3>:  hello there").unwrap();
    assert_eq!(m.name, "Sir Knight");
    assert_eq!(m.channel, 3);
    assert_eq!(m.message, "hello there");
    assert!(parse_chat_line("no channel here").is_none());
    // the channel does not fit in a u32
    assert!(parse_chat_line("x <99999999999>: y").is_none());
}

#[test]
fn parse_msg_line_reads_type_and_text() {
    let (t, text) = parse_msg_line("prefix <1>: go team").unwrap();
    assert_eq!(t, EChatType::TeamSay);
    assert_eq!(text, "go team");
    assert!(parse_msg_line("nothing to see").is_none());
    // 300 does not read as a u8
    assert!(parse_msg_line("<300>: x").is_none());
}

#[test]
fn try_parse_msg_line_refuses_unknown_type() {
    assert!(try_parse_msg_line("<200>: x").is_none());
    let (t, text) = try_parse_msg_line("<0>: all").unwrap();
    assert_eq!(t, EChatType::AllSay);
    assert_eq!(text, "all");
}

#[test]
fn kismet_lines_drop_shamed_and_prefix_multiline() {
    assert_eq!(
        kismet_log_line("Accessed None Divide by zero: ProjectVectorOnToVector with zero Target vector"),
        None
    );
    assert_eq!(kismet_log_line("plain"), Some("plain".to_string()));
    assert_eq!(kismet_log_line("a\nb"), Some("\na\nb".to_string()));
}

#[test]
fn chat_relay_skips_bot_commands() {
    let relay = ChatRelayModule::new();
    assert_eq!(relay.name(), "ChatRelayModule");
    assert_eq!(relay.relay_from_discord("bob", "hi all"), Some("<D>bob: hi all".to_string()));
    assert_eq!(relay.relay_from_discord("bob", "!dash"), None);
    let m = GameChatMessage { sender: "Ann".to_string(), message: "gg".to_string(), chat_type: EChatType::AllSay };
    assert_eq!(relay.relay_to_discord(&m), Some("\u{1F4AC} **Ann**: gg".to_string()));
    let c = GameChatMessage { sender: "Ann".to_string(), message: "!yes".to_string(), chat_type: EChatType::AllSay };
    assert_eq!(relay.relay_to_discord(&c), None);
}
