use mooshie_core::ws_protocol::read_text_frame;
use mooshie_core::ws_protocol::{classify_output_payload, payload_start, queue_updates, OutputPayload};
use mooshie_core::ws_protocol::{
    after_reconnect_history, classify_binary_frame, next_backoff_ms, on_text_event, ws_url,
    BinaryFrame, PromptAction,
};

#[test]
fn websocket_urls_follow_the_base_url_scheme() {
    assert_eq!(ws_url("http://127.0.0.1:8188", "abc"), "ws://127.0.0.1:8188/ws?clientId=abc");
    assert_eq!(ws_url("https://host", "id"), "wss://host/ws?clientId=id");
}

#[test]
fn reconnect_backoff_doubles_up_to_thirty_seconds() {
    assert_eq!(next_backoff_ms(0), 1000);
    assert_eq!(next_backoff_ms(1000), 2000);
    assert_eq!(next_backoff_ms(16000), 30000);
    assert_eq!(next_backoff_ms(30000), 30000);
}

#[test]
fn the_executing_prompt_follows_text_events() {
    let (cur, act) = on_text_event(None, "execution_start", Some("p1"), false);
    assert_eq!(cur.as_deref(), Some("p1"));
    assert_eq!(act, PromptAction::Nothing);
    let (cur, act) = on_text_event(cur, "executing", Some("p1"), true);
    assert_eq!(cur, None);
    assert_eq!(act, PromptAction::Finished);
    let (cur, act) = on_text_event(Some("p2".to_string()), "executing", Some("p1"), true);
    assert_eq!(cur.as_deref(), Some("p2"));
    assert_eq!(act, PromptAction::Finished);
    let (cur, act) = on_text_event(cur, "execution_error", Some("p2"), false);
    assert_eq!(cur.as_deref(), Some("p2"));
    assert_eq!(act, PromptAction::Failed);
    let (cur, act) = on_text_event(cur, "progress", None, false);
    assert_eq!(cur.as_deref(), Some("p2"));
    assert_eq!(act, PromptAction::Nothing);
    assert_eq!(after_reconnect_history(Some("p".to_string()), true), (None, true));
    assert_eq!(after_reconnect_history(Some("p".to_string()), false), (Some("p".to_string()), false));
    assert_eq!(after_reconnect_history(None, true), (None, false));
}

#[test]
fn binary_frames_are_classified() {
    assert_eq!(classify_binary_frame(&[0, 0, 1], true), BinaryFrame::Ignore);
    assert_eq!(classify_binary_frame(&[0, 0, 0, 1, 0, 0, 0, 2, 9], true), BinaryFrame::Preview { png: true, image_start: 8 });
    assert_eq!(classify_binary_frame(&[0, 0, 0, 2, 0, 0, 0, 1, 9], true), BinaryFrame::Preview { png: false, image_start: 8 });
    assert_eq!(classify_binary_frame(&[0, 0, 0, 1, 0, 0, 0, 2, 9], false), BinaryFrame::Ignore);
    assert_eq!(classify_binary_frame(&[0, 0, 0, 4, 0, 0, 0, 2, 1, 2, 3], true), BinaryFrame::Preview { png: false, image_start: 10 });
    assert_eq!(classify_binary_frame(&[0, 0, 0, 4, 0, 0, 0, 3, 1, 2, 3], true), BinaryFrame::Ignore);
    assert_eq!(classify_binary_frame(&[0, 0, 0, 100], true), BinaryFrame::OutputImage { controlnet: false });
    assert_eq!(classify_binary_frame(&[0, 0, 0, 101], true), BinaryFrame::OutputImage { controlnet: true });
    assert_eq!(classify_binary_frame(&[0, 0, 0, 102], true), BinaryFrame::Video);
    assert_eq!(classify_binary_frame(&[0, 0, 0, 7], false), BinaryFrame::Ignore);
}

#[test]
fn output_frames_are_classified_by_their_header() {
    let raw = |tag: u8, ch: u8, depth: u8| vec![0, 0, 0, 100, 0, 0, 0, tag, 0x03, 0x40, 0x01, 0xE0, ch, depth, 0, 0, 9, 9];
    assert_eq!(
        classify_output_payload(&raw(3, 4, 16)),
        Some(OutputPayload::RawRgba { width: 832, height: 480, sixteen: true })
    );
    assert_eq!(
        classify_output_payload(&raw(4, 4, 8)),
        Some(OutputPayload::RawRgba { width: 832, height: 480, sixteen: false })
    );
    assert_eq!(classify_output_payload(&raw(5, 4, 8)), Some(OutputPayload::RawWebp { width: 832, height: 480 }));
    assert_eq!(classify_output_payload(&raw(5, 4, 16)), None);
    assert_eq!(classify_output_payload(&raw(3, 3, 8)), None);
    assert_eq!(classify_output_payload(&[0, 0, 0, 100, 0, 0, 0, 3, 1, 2]), None);
    assert_eq!(classify_output_payload(&[0, 0, 0, 100, 0, 0, 0, 2, 0x89]), Some(OutputPayload::Png { bit_depth: 16 }));
    assert_eq!(classify_output_payload(&[0, 0, 0, 100, 0, 0, 0, 1]), Some(OutputPayload::Png { bit_depth: 8 }));
    assert_eq!(classify_output_payload(&[0, 0, 0, 100]), None);
    assert_eq!(payload_start(&OutputPayload::Png { bit_depth: 8 }), 8);
    assert_eq!(payload_start(&OutputPayload::RawWebp { width: 1, height: 1 }), 16);
}

#[test]
fn queue_updates_list_positions_or_report_an_empty_queue() {
    let u = queue_updates(&vec!["a".to_string(), "b".to_string()]);
    assert_eq!(u.len(), 2);
    assert_eq!((u[1].prompt_id.as_deref(), u[1].position, u[1].total), (Some("b"), 1, 2));
    let e = queue_updates(&vec![]);
    assert_eq!(e.len(), 1);
    assert_eq!((e[0].prompt_id.is_none(), e[0].total), (true, 0));
}

#[test]
fn text_frames_are_read_for_type_prompt_and_node() {
    let e = read_text_frame(br#"{"type":"executing","data":{"node":null,"prompt_id":"p1"}}"#).unwrap();
    assert_eq!(e.event_type, "executing");
    assert_eq!(e.prompt_id, Some("p1".to_string()));
    assert!(e.node_is_null);
    let e = read_text_frame(br#"{"type":"executing","data":{"node":"5","prompt_id":"p1"}}"#).unwrap();
    assert!(!e.node_is_null);
    let e = read_text_frame(br#"{"data":{"prompt_id":7}}"#).unwrap();
    assert_eq!(e.event_type, "unknown");
    assert_eq!(e.prompt_id, None);
    assert!(e.node_is_null);
    assert!(read_text_frame(b"not json").is_none());
}
