use notmux::command_tracking::{
    CommandSequenceParser, CommandStatus, CommandTracker, CommandTrackingEvent, Duration, Timestamp,
};

#[test]
fn parser_handles_complete_sequences() {
    let mut parser = CommandSequenceParser::new();
    let events = parser.push(b"\x1b]777;vryn;B;cargo test\x07");
    assert_eq!(
        events,
        vec![CommandTrackingEvent::CommandStart { command: "cargo test".to_string() }]
    );
}

#[test]
fn parser_handles_split_sequences() {
    let mut parser = CommandSequenceParser::new();
    assert!(parser.push(b"\x1b]777;vryn;D").is_empty());
    let events = parser.push(b";42\x1b\\");
    assert_eq!(events, vec![CommandTrackingEvent::CommandFinished { exit_code: Some(42) }]);
}

#[test]
fn parser_ignores_malformed_sequences() {
    let mut parser = CommandSequenceParser::new();
    assert!(parser.push(b"\x1b]777;other;B;nope\x07").is_empty());
    assert!(parser.push(b"\x1b]777;vryn;X;nope\x07").is_empty());
}

#[test]
fn lifecycle_tracks_success_and_duration() {
    let mut tracker = CommandTracker::new();
    let start = Timestamp::from_secs(1);
    let end = Timestamp::from_secs(4);

    tracker.handle_event(CommandTrackingEvent::PromptStart { cwd: Some("/tmp".to_string()) }, 1, start);
    tracker.handle_event(CommandTrackingEvent::CommandStart { command: "true".to_string() }, 2, start);
    tracker.handle_event(CommandTrackingEvent::CommandExecuted, 3, start);
    tracker.handle_event(CommandTrackingEvent::CommandFinished { exit_code: Some(0) }, 4, end);

    let commands = tracker.commands();
    assert_eq!(commands.len(), 1);
    assert_eq!(commands[0].status, CommandStatus::Success);
    assert_eq!(commands[0].prompt_row, 1);
    assert_eq!(commands[0].command_row, 1);
    assert_eq!(commands[0].cwd.as_deref(), Some("/tmp"));
    assert_eq!(commands[0].duration, Some(Duration::from_secs(3)));
}

#[test]
fn prompt_start_creates_placeholder_decoration() {
    let mut tracker = CommandTracker::new();
    tracker.handle_event(
        CommandTrackingEvent::PromptStart { cwd: Some("/tmp".to_string()) },
        7,
        Timestamp::unix_epoch(),
    );

    let commands = tracker.commands();
    assert_eq!(commands.len(), 1);
    assert_eq!(commands[0].id, 0);
    assert_eq!(commands[0].status, CommandStatus::Unknown);
    assert_eq!(commands[0].command_row, 7);
    assert_eq!(commands[0].cwd.as_deref(), Some("/tmp"));
}

#[test]
fn lifecycle_tracks_error() {
    let mut tracker = CommandTracker::new();
    tracker.handle_event(
        CommandTrackingEvent::CommandStart { command: "false".to_string() },
        1,
        Timestamp::unix_epoch(),
    );
    tracker.handle_event(
        CommandTrackingEvent::CommandFinished { exit_code: Some(2) },
        2,
        Timestamp::unix_epoch(),
    );

    let commands = tracker.commands();
    assert_eq!(commands[0].status, CommandStatus::Error);
    assert_eq!(commands[0].exit_code, Some(2));
}

#[test]
fn empty_command_is_ignored() {
    let mut tracker = CommandTracker::new();
    tracker.handle_event(
        CommandTrackingEvent::CommandStart { command: "   ".to_string() },
        1,
        Timestamp::unix_epoch(),
    );
    tracker.handle_event(
        CommandTrackingEvent::CommandFinished { exit_code: Some(0) },
        2,
        Timestamp::unix_epoch(),
    );
    assert!(tracker.commands().is_empty());
}

#[test]
fn parser_splits_byte_by_byte() {
    let data = b"\x1b]777;vryn;A;/home/u\x07";
    let mut parser = CommandSequenceParser::new();
    let mut events = Vec::new();
    for b in data.iter() {
        events.extend(parser.push(&[*b]));
    }
    assert_eq!(events, vec![CommandTrackingEvent::PromptStart { cwd: Some("/home/u".to_string()) }]);
}

#[test]
fn clear_forgets_commands() {
    let mut tracker = CommandTracker::new();
    tracker.handle_event(
        CommandTrackingEvent::CommandStart { command: "ls".to_string() },
        1,
        Timestamp::unix_epoch(),
    );
    assert_eq!(tracker.commands().len(), 1);
    tracker.clear();
    assert!(tracker.commands().is_empty());
}

#[test]
fn duration_is_none_when_clock_goes_back() {
    assert_eq!(Timestamp::from_secs(1).duration_since(Timestamp::from_secs(2)), None);
    assert_eq!(Timestamp::from_secs(5).duration_since(Timestamp::from_secs(2)), Some(Duration::from_secs(3)));
}

#[test]
fn ids_after_clear_are_not_reused() {
    let mut tracker = CommandTracker::new();
    let t = Timestamp::from_secs(1);
    tracker.handle_event(CommandTrackingEvent::CommandStart { command: "ls".to_string() }, 1, t);
    tracker.handle_event(CommandTrackingEvent::CommandFinished { exit_code: Some(0) }, 2, t);
    tracker.handle_event(CommandTrackingEvent::CommandStart { command: "make".to_string() }, 3, t);
    let before: Vec<u64> = tracker.commands().iter().map(|c| c.id).collect();
    assert_eq!(before, vec![1, 2]);
    tracker.clear();
    assert!(tracker.commands().is_empty());
    tracker.handle_event(CommandTrackingEvent::CommandStart { command: "pwd".to_string() }, 4, t);
    let after = tracker.commands();
    assert_eq!(after.len(), 1);
    assert_eq!(after[0].id, 3);
    assert_eq!(after[0].command, "pwd");
}

#[test]
fn events_do_not_depend_on_chunking() {
    let stream: &[u8] = b"junk\x1b]777;vryn;A;/srv\x07out\x1b]777;vryn;B;make all\x1b\\more\x1b]777;vryn;D;1\x07tail";
    let mut whole = CommandSequenceParser::new();
    let expected = whole.push(stream);
    assert_eq!(expected.len(), 3);
    for cut in 0..=stream.len() {
        let mut p = CommandSequenceParser::new();
        let mut events = p.push(&stream[..cut]);
        events.extend(p.push(&stream[cut..]));
        assert_eq!(events, expected, "split at {cut}");
    }
}
