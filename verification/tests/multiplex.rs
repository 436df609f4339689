use eud::standard_styled::CommandParts;
use eud::standard_styled::RenderState;
use eud::standard_styled::StepAction;
use eud::standard_styled::StreamEvent;
use eud::standard_styled::Style;
use eud::standard_styled::StyleKind;
use eud::standard_styled::step;
use eud::standard_styled::styled_text;

fn two_frame_style() -> Style {
    Style::new(
        vec!["a".to_string(), "b".to_string()],
        StyleKind::Plain,
        StyleKind::Plain,
        StyleKind::Plain,
        Some("done".to_string()),
    )
}

#[test]
fn command_parts_hold_program_and_args() {
    let cmd = CommandParts::new(
        &"ls".to_string(),
        &vec!["-l".to_string(), "-a".to_string()],
    );
    assert_eq!(cmd.program(), "ls");
    assert_eq!(cmd.args().as_slice(), &["-l".to_string(), "-a".to_string()]);
}

#[test]
fn spinner_frames_cycle() {
    let style = two_frame_style();
    assert_eq!(style.spinner_frame(0), "a");
    assert_eq!(style.spinner_frame(1), "b");
    assert_eq!(style.spinner_frame(2), "a");
    assert_eq!(style.spinner_frame(5), "b");
}

#[test]
fn idle_display_is_frame_and_blank_text() {
    let style = two_frame_style();
    let state = RenderState::new();
    assert_eq!(state.display(&style), "a ");
}

#[test]
fn stdout_line_completes_and_renders() {
    let style = two_frame_style();
    let mut state = RenderState::new();
    match step(&mut state, &style, StreamEvent::OutLine("abc".to_string())) {
        StepAction::Render(r) => {
            // One line arrived: the tick moved to 1, frame `b`, plain text.
            assert_eq!(r, "b abc");
            assert!(r.contains("abc"));
        }
        _ => panic!("a line must render"),
    }
    // End of standard output finishes the session: the loop cannot hang.
    assert!(matches!(step(&mut state, &style, StreamEvent::OutEnd), StepAction::Finish));
}

#[test]
fn every_line_appears_in_its_render() {
    let style = two_frame_style();
    let mut state = RenderState::new();
    let lines = [
        StreamEvent::OutLine("one".to_string()),
        StreamEvent::ErrLine("two".to_string()),
        StreamEvent::OutLine("three".to_string()),
        StreamEvent::ErrLine("four".to_string()),
    ];
    let expected = ["one", "two", "three", "four"];
    for (event, text) in lines.into_iter().zip(expected) {
        match step(&mut state, &style, event) {
            StepAction::Render(r) => assert!(r.contains(text)),
            _ => panic!("a line must render"),
        }
    }
    assert_eq!(state.ticker, 4);
}

#[test]
fn stream_errors_and_stderr_end_are_ignored() {
    let style = two_frame_style();
    let mut state = RenderState::new();
    assert!(matches!(step(&mut state, &style, StreamEvent::OutFail), StepAction::Ignore));
    assert!(matches!(step(&mut state, &style, StreamEvent::ErrEnd), StepAction::Ignore));
    assert!(matches!(step(&mut state, &style, StreamEvent::ErrFail), StepAction::Ignore));
    assert_eq!(state.ticker, 0);
}

#[test]
fn ticker_wraps_at_the_machine_limit() {
    let style = two_frame_style();
    let mut state = RenderState::new();
    state.ticker = usize::MAX;
    match step(&mut state, &style, StreamEvent::OutLine("x".to_string())) {
        StepAction::Render(_) => assert_eq!(state.ticker, 0),
        _ => panic!("a line must render"),
    }
}

#[test]
fn end_message_is_rendered_once_configured() {
    let style = two_frame_style();
    let state = RenderState::new();
    // The message style is plain, so the rendering is the message itself.
    let line = state.rendered_end_message(&style).unwrap();
    assert_eq!(line, "done");

    let bare = Style::new(
        vec!["a".to_string()],
        StyleKind::Plain,
        StyleKind::Plain,
        StyleKind::Plain,
        None,
    );
    assert!(state.rendered_end_message(&bare).is_none());
}

#[test]
fn styled_text_keeps_the_text() {
    for kind in [
        StyleKind::Plain,
        StyleKind::Highlighted,
        StyleKind::Error,
        StyleKind::Emphasis,
    ] {
        let r = styled_text(kind, "payload");
        assert!(r.contains("payload"));
    }
    assert_eq!(styled_text(StyleKind::Plain, "payload"), "payload");
}

#[test]
fn styled_lines_still_render_their_text() {
    let style = Style::new(
        vec!["*".to_string()],
        StyleKind::Highlighted,
        StyleKind::Error,
        StyleKind::Emphasis,
        Some("finished".to_string()),
    );
    let mut state = RenderState::new();
    match step(&mut state, &style, StreamEvent::OutLine("standard".to_string())) {
        StepAction::Render(r) => assert!(r.contains("standard")),
        _ => panic!("a line must render"),
    }
    match step(&mut state, &style, StreamEvent::ErrLine("diagnostic".to_string())) {
        StepAction::Render(r) => assert!(r.contains("diagnostic")),
        _ => panic!("a line must render"),
    }
    let end = state.rendered_end_message(&style).unwrap();
    assert!(end.contains("finished"));
}
