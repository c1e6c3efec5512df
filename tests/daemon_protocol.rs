use zsh_infinite::protocol::{
    client_reply, client_result, encode_response, frame, frame_len, length_prefix, request_commands, unframe,
    PromptSide, SegmentRequest,
};
use zsh_infinite::segments::{collect_present, CommandOutcome};
use zsh_infinite::theme::{PromptContent, PromptContents, PromptTheme};

#[test]
fn frame_prefixes_little_endian_length() {
    assert_eq!(frame(&vec![1, 2, 3]), vec![3, 0, 0, 0, 0, 0, 0, 0, 1, 2, 3]);
    assert_eq!(length_prefix(0x0102), vec![2, 1, 0, 0, 0, 0, 0, 0]);
    assert_eq!(frame(&vec![]), vec![0u8; 8]);
}

#[test]
fn frame_len_reads_eight_bytes() {
    assert_eq!(frame_len(&[1, 0, 0, 0, 0, 0, 0, 1]), Some(1 + (1u64 << 56)));
    assert_eq!(frame_len(&[0xff; 8]), Some(u64::MAX));
    assert_eq!(frame_len(&[1, 2, 3]), None);
}

#[test]
fn unframe_round_trip_and_short_reads() {
    let payload: Vec<u8> = (0..=255u8).collect();
    assert_eq!(unframe(&frame(&payload)), Some(payload));
    assert_eq!(unframe(&vec![5, 0, 0, 0, 0, 0, 0, 0, 1, 2]), None);
    assert_eq!(unframe(&vec![1, 0, 0, 0, 0, 0, 0, 0, 1, 2]), None);
    assert_eq!(unframe(&vec![0, 0, 0]), None);
    assert_eq!(unframe(&vec![0; 8]), Some(vec![]));
}

#[test]
fn daemon_round_trip_two_left_segments() {
    let mut row = PromptContents::default();
    row.left = vec![
        PromptContent::new(vec!["zsh".to_string(), "-c".to_string(), "echo a".to_string()]),
        PromptContent::new(vec!["zsh".to_string(), "-c".to_string(), "echo b".to_string()]),
    ];
    let theme = PromptTheme { prompt_contents_list: vec![row], transient_color: Default::default() };
    let req = SegmentRequest { row: 0, side: PromptSide::Left };
    let commands = request_commands(&theme, &req);
    assert_eq!(commands.len(), 2);
    assert_eq!(commands[1].shell()[2], "echo b");
    let outcomes = vec![
        CommandOutcome::Finished { success: true, stdout: "a\n".to_string() },
        CommandOutcome::Finished { success: true, stdout: "b\n".to_string() },
    ];
    let values: Vec<Option<String>> =
        commands.iter().zip(outcomes.iter()).map(|(c, o)| c.content_from(o)).collect();
    let reply = encode_response(&collect_present(&values)).expect("archiving a list of strings");
    let payload = unframe(&reply);
    assert!(payload.is_some());
    assert_eq!(client_result(payload), vec!["a".to_string(), "b".to_string()]);
}

#[test]
fn unavailable_daemon_gives_empty_list() {
    assert_eq!(client_result(None), Vec::<String>::new());
}

#[test]
fn corrupt_reply_gives_empty_list() {
    assert_eq!(client_result(Some(vec![1, 2, 3])), Vec::<String>::new());
    assert_eq!(client_reply(Some(vec![1, 2, 3])), None);
}

#[test]
fn empty_answer_differs_from_no_answer() {
    let reply = encode_response(&vec![]).expect("archiving an empty list");
    assert_eq!(client_reply(unframe(&reply)), Some(Vec::new()));
    assert_eq!(client_reply(None), None);
}

#[test]
fn empty_list_round_trip() {
    let reply = encode_response(&vec![]).expect("archiving an empty list");
    assert!(reply.len() >= 8);
    assert_eq!(client_result(unframe(&reply)), Vec::<String>::new());
}

#[test]
fn request_for_missing_row_names_nothing() {
    let theme = PromptTheme::default();
    assert_eq!(request_commands(&theme, &SegmentRequest { row: 5, side: PromptSide::Right }).len(), 0);
    let right = request_commands(&theme, &SegmentRequest { row: 0, side: PromptSide::Right });
    assert_eq!(right.len(), 2);
    assert_eq!(right[1].shell()[2], "echo $?");
}
