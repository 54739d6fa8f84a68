use rcode::agent::AgentEvent;
use rcode::app::message::MessageUtils;
use rcode::app::{
    block_lines, App, Area, CliMessage, InputAction, InputEvent, KeyCode, LineStyle, MouseKind, Role,
    SelectedWidget,
};
use rcode::ui::{prepare_message_history, record_text_area, status_text};

fn key(code: KeyCode) -> InputEvent {
    InputEvent::Key { code, control: false }
}

fn lines_of(app: &App) -> Vec<(LineStyle, String)> {
    app.cached_lines.iter().map(|l| (l.style, l.text.clone())).collect()
}

#[test]
fn new_app_is_empty_and_focused_on_input() {
    let app = App::new("model-x".to_string());
    assert!(!app.exit);
    assert!(app.messages.is_empty());
    assert_eq!(app.scroll_offset, 0);
    assert!(!app.is_generating);
    assert!(app.status.is_none());
    assert_eq!(app.model.as_deref(), Some("model-x"));
    assert_eq!(app.selected_widget, SelectedWidget::TextArea);
    assert_eq!(app.get_height(), 0);
}

#[test]
fn add_message_appends_in_order() {
    let mut app = App::new("m".to_string());
    app.add_message(Role::User, "hi".to_string());
    app.add_message(Role::Agent, "hello".to_string());
    assert_eq!(app.messages.len(), 2);
    assert_eq!(app.messages[0].role, Role::User);
    assert_eq!(app.messages[1].get_content(), "hello");
    let history = app.message_history();
    assert_eq!(history.len(), 2);
    assert_eq!(CliMessage::from_message(history[0].clone()).get_content(), "hi");
    assert_eq!(CliMessage::from_message(history[1].clone()).role, Role::Agent);
}

#[test]
fn update_cache_builds_transcript() {
    let mut app = App::new("m".to_string());
    app.add_message(Role::User, "foo bar baz".to_string());
    app.add_message(Role::Agent, "ok".to_string());
    app.update_cache(5);
    let dashes = "─".repeat(20);
    let expected = vec![
        (LineStyle::Heading(Role::User), format!("── User {dashes}")),
        (LineStyle::Plain, "foo".to_string()),
        (LineStyle::Plain, "bar".to_string()),
        (LineStyle::Plain, "baz".to_string()),
        (LineStyle::Plain, "".to_string()),
        (LineStyle::Heading(Role::Agent), format!("── Agent {dashes}")),
        (LineStyle::Plain, "ok".to_string()),
        (LineStyle::Plain, "".to_string()),
    ];
    assert_eq!(lines_of(&app), expected);
    assert_eq!(app.get_height(), 8);
    assert_eq!(app.cached_width, 5);
    assert_eq!(app.cached_msg_count, 2);
}

#[test]
fn update_cache_rebuilds_on_width_or_count_change() {
    let mut app = App::new("m".to_string());
    app.add_message(Role::System, "alpha beta".to_string());
    app.update_cache(80);
    assert_eq!(app.get_height(), 3);
    app.update_cache(80);
    assert_eq!(app.get_height(), 3);
    app.update_cache(5);
    assert_eq!(app.get_height(), 4);
    app.add_message(Role::User, "x".to_string());
    app.update_cache(5);
    assert_eq!(app.get_height(), 7);
}

#[test]
fn max_scroll_subtracts_viewport() {
    let mut app = App::new("m".to_string());
    for i in 0..10 {
        app.add_message(Role::User, format!("message {i}"));
    }
    app.update_cache(80);
    assert_eq!(app.get_height(), 30);
    assert_eq!(app.get_max_scroll(), 10);
    app.message_history_area = Some(Area { x: 0, y: 0, width: 80, height: 25 });
    assert_eq!(app.get_max_scroll(), 5);
    app.message_history_area = Some(Area { x: 0, y: 0, width: 80, height: 40 });
    assert_eq!(app.get_max_scroll(), 0);
}

#[test]
fn all_messages_height_is_sum() {
    let mut app = App::new("m".to_string());
    app.add_message(Role::User, "foo bar baz".to_string());
    app.add_message(Role::Agent, "ok".to_string());
    assert_eq!(MessageUtils::get_height(&mut app, 5, true), 8);
    assert_eq!(MessageUtils::get_height(&mut app, 5, false), 4);
    assert_eq!(app.checked_height(5, true), Some(8));
}

#[test]
fn click_selects_widget_under_cursor() {
    let mut app = App::new("m".to_string());
    app.message_history_area = Some(Area { x: 0, y: 2, width: 10, height: 5 });
    app.text_area_area = Some(Area { x: 0, y: 8, width: 10, height: 3 });
    app.set_selected_widget_from_position(3, 4);
    assert_eq!(app.selected_widget, SelectedWidget::MessageHistory);
    app.set_selected_widget_from_position(3, 9);
    assert_eq!(app.selected_widget, SelectedWidget::TextArea);
    app.set_selected_widget_from_position(3, 7);
    assert_eq!(app.selected_widget, SelectedWidget::TextArea);
    app.set_selected_widget_from_position(10, 4);
    assert_eq!(app.selected_widget, SelectedWidget::TextArea);
}

#[test]
fn area_contains_saturates_at_edge() {
    let a = Area { x: 65530, y: 0, width: 100, height: 1 };
    assert!(a.contains(65534, 0));
    assert!(!a.contains(65535, 0));
    assert!(!a.contains(65529, 0));
    assert!(!a.contains(65531, 1));
}

#[test]
fn scrolling_moves_offset() {
    let mut app = App::new("m".to_string());
    app.scroll_up();
    assert_eq!(app.scroll_offset, 0);
    app.scroll_down();
    app.scroll_down();
    assert_eq!(app.scroll_offset, 2);
    app.scroll_page_down();
    assert_eq!(app.scroll_offset, 2);
    app.message_history_area = Some(Area { x: 0, y: 0, width: 10, height: 6 });
    app.scroll_page_down();
    assert_eq!(app.scroll_offset, 7);
    app.scroll_page_up();
    assert_eq!(app.scroll_offset, 2);
    app.scroll_to_bottom();
    assert_eq!(app.scroll_offset, 0);
    app.scroll_down();
    assert_eq!(app.scroll_offset, 1);
    app.scroll_to_top();
    assert_eq!(app.scroll_offset, 0);
}

#[test]
fn control_c_exits() {
    let mut app = App::new("m".to_string());
    let action = app.handle_event(InputEvent::Key { code: KeyCode::Char('c'), control: true });
    assert_eq!(action, InputAction::Nothing);
    assert!(app.exit);
}

#[test]
fn plain_c_goes_to_text_area() {
    let mut app = App::new("m".to_string());
    assert_eq!(app.handle_event(key(KeyCode::Char('c'))), InputAction::ForwardKey);
    assert!(!app.exit);
}

#[test]
fn enter_submits_only_from_text_area() {
    let mut app = App::new("m".to_string());
    assert_eq!(app.handle_event(key(KeyCode::Enter)), InputAction::Submit);
    app.selected_widget = SelectedWidget::MessageHistory;
    assert_eq!(app.handle_event(key(KeyCode::Enter)), InputAction::Nothing);
}

#[test]
fn arrows_scroll_history_or_edit_input() {
    let mut app = App::new("m".to_string());
    assert_eq!(app.handle_event(key(KeyCode::Down)), InputAction::ForwardKey);
    assert_eq!(app.scroll_offset, 0);
    app.selected_widget = SelectedWidget::MessageHistory;
    assert_eq!(app.handle_event(key(KeyCode::Down)), InputAction::Nothing);
    assert_eq!(app.scroll_offset, 1);
    app.handle_event(key(KeyCode::End));
    assert_eq!(app.scroll_offset, u16::MAX);
    app.handle_event(key(KeyCode::Home));
    assert_eq!(app.scroll_offset, 0);
    assert_eq!(app.handle_event(key(KeyCode::Char('x'))), InputAction::Nothing);
}

#[test]
fn mouse_clicks_focus_and_wheel_scrolls() {
    let mut app = App::new("m".to_string());
    app.message_history_area = Some(Area { x: 0, y: 0, width: 10, height: 5 });
    let click = InputEvent::Mouse { kind: MouseKind::LeftDown, column: 1, row: 1 };
    assert_eq!(app.handle_event(click), InputAction::Nothing);
    assert_eq!(app.selected_widget, SelectedWidget::MessageHistory);
    app.selected_widget = SelectedWidget::TextArea;
    app.handle_event(InputEvent::Mouse { kind: MouseKind::ScrollDown, column: 50, row: 50 });
    assert_eq!(app.scroll_offset, 1);
    assert_eq!(app.selected_widget, SelectedWidget::TextArea);
    app.handle_event(InputEvent::Mouse { kind: MouseKind::ScrollUp, column: 50, row: 50 });
    assert_eq!(app.scroll_offset, 0);
    assert_eq!(app.handle_event(InputEvent::Other), InputAction::Nothing);
}

#[test]
fn submit_adds_user_message_and_waits() {
    let mut app = App::new("m".to_string());
    let prompt = app.submit_input(&vec!["line one".to_string(), "line two".to_string()]);
    assert_eq!(prompt.as_deref(), Some("line one\nline two"));
    assert_eq!(app.messages.len(), 1);
    assert_eq!(app.messages[0].role, Role::User);
    assert_eq!(app.messages[0].get_content(), "line one\nline two");
    assert!(app.is_generating);
    assert_eq!(app.status.as_deref(), Some("Thinking..."));
    assert_eq!(app.scroll_offset, u16::MAX);
}

#[test]
fn submit_drops_blank_input() {
    let mut app = App::new("m".to_string());
    assert_eq!(app.submit_input(&vec!["  ".to_string(), "\t".to_string()]), None);
    assert_eq!(app.submit_input(&vec![]), None);
    assert!(app.messages.is_empty());
    assert!(!app.is_generating);
    assert!(app.status.is_none());
}

#[test]
fn submit_drops_input_while_generating() {
    let mut app = App::new("m".to_string());
    assert!(app.submit_input(&vec!["first".to_string()]).is_some());
    assert_eq!(app.submit_input(&vec!["second".to_string()]), None);
    assert_eq!(app.messages.len(), 1);
}

#[test]
fn agent_response_becomes_message() {
    let mut app = App::new("m".to_string());
    app.submit_input(&vec!["question".to_string()]);
    app.scroll_to_top();
    app.apply_agent_event(AgentEvent::Response("answer".to_string()));
    assert_eq!(app.messages.len(), 2);
    assert_eq!(app.messages[1].role, Role::Agent);
    assert_eq!(app.messages[1].get_content(), "answer");
    assert!(!app.is_generating);
    assert!(app.status.is_none());
    assert_eq!(app.scroll_offset, u16::MAX);
}

#[test]
fn agent_error_shows_in_status() {
    let mut app = App::new("m".to_string());
    app.submit_input(&vec!["question".to_string()]);
    app.apply_agent_event(AgentEvent::Error("timeout".to_string()));
    assert_eq!(app.messages.len(), 1);
    assert!(!app.is_generating);
    assert_eq!(app.status.as_deref(), Some("Agent error: timeout"));
}

#[test]
fn status_line_text() {
    let mut app = App::new("m".to_string());
    assert_eq!(status_text(&app), "");
    app.is_generating = true;
    assert_eq!(status_text(&app), "Thinking...");
    app.status = Some("custom".to_string());
    assert_eq!(status_text(&app), "custom");
}

#[test]
fn preparing_history_clamps_scroll() {
    let mut app = App::new("m".to_string());
    for i in 0..4 {
        app.add_message(Role::Agent, format!("reply {i}"));
    }
    app.scroll_to_bottom();
    let area = Area { x: 1, y: 3, width: 40, height: 5 };
    let offset = prepare_message_history(&mut app, area);
    assert_eq!(offset, 7);
    assert_eq!(app.scroll_offset, 7);
    assert_eq!(app.message_history_area, Some(area));
    assert_eq!(app.get_height(), 12);
    app.scroll_up();
    assert_eq!(prepare_message_history(&mut app, area), 6);
}

#[test]
fn recording_text_area_enables_clicks() {
    let mut app = App::new("m".to_string());
    app.selected_widget = SelectedWidget::MessageHistory;
    record_text_area(&mut app, Area { x: 0, y: 20, width: 30, height: 4 });
    app.set_selected_widget_from_position(5, 21);
    assert_eq!(app.selected_widget, SelectedWidget::TextArea);
}

#[test]
fn transcript_rows_match_bordered_height() {
    let mut app = App::new("m".to_string());
    app.add_message(Role::User, "the quick brown fox jumps over the lazy dog".to_string());
    app.add_message(Role::Agent, "one\ntwo\nthree".to_string());
    app.add_message(Role::System, "".to_string());
    for width in [3u16, 8, 20, 200] {
        app.update_cache(width);
        assert_eq!(app.get_height(), MessageUtils::get_height(&mut app, width, true));
    }
}

#[test]
fn consistency_check_detects_stale_cache() {
    let mut app = App::new("m".to_string());
    app.add_message(Role::User, "hello there".to_string());
    app.update_cache(40);
    assert!(app.is_consistent());
    app.cached_lines.pop();
    assert!(!app.is_consistent());
    app.update_cache(41);
    assert!(app.is_consistent());
}

#[test]
fn block_from_given_wrapped_lines() {
    let wrapped = vec!["x".to_string(), "y".to_string()];
    let block = block_lines(Role::Agent, &wrapped);
    let got: Vec<(LineStyle, String)> = block.iter().map(|l| (l.style, l.text.clone())).collect();
    let dashes = "─".repeat(20);
    assert_eq!(
        got,
        vec![
            (LineStyle::Heading(Role::Agent), format!("── Agent {dashes}")),
            (LineStyle::Plain, "x".to_string()),
            (LineStyle::Plain, "y".to_string()),
            (LineStyle::Plain, "".to_string()),
        ]
    );
}

#[test]
fn scroll_to_bottom_uses_last_layout() {
    let mut app = App::new("m".to_string());
    app.scroll_to_bottom();
    assert_eq!(app.scroll_offset, u16::MAX);
    for i in 0..4 {
        app.add_message(Role::Agent, format!("reply {i}"));
    }
    prepare_message_history(&mut app, Area { x: 0, y: 0, width: 40, height: 5 });
    assert_eq!(app.get_height(), 12);
    app.scroll_to_bottom();
    assert_eq!(app.scroll_offset, 11);
    app.selected_widget = SelectedWidget::MessageHistory;
    app.scroll_to_top();
    app.handle_event(key(KeyCode::End));
    assert_eq!(app.scroll_offset, 11);
    assert_eq!(prepare_message_history(&mut app, Area { x: 0, y: 0, width: 40, height: 5 }), 7);
}

#[test]
fn one_request_in_flight_over_a_run() {
    let mut app = App::new("m".to_string());
    let mut sent = 0;
    let mut replies = 0;
    for (input, reply) in [("a", false), ("b", false), ("", true), ("c", false), ("d", true)] {
        if app.submit_input(&vec![input.to_string()]).is_some() {
            sent += 1;
        }
        assert!(sent - replies <= 1);
        assert_eq!(app.is_generating, sent - replies == 1);
        if reply && sent > replies {
            app.apply_agent_event(AgentEvent::Response("ok".to_string()));
            replies += 1;
        }
        assert_eq!(app.is_generating, sent - replies == 1);
    }
    assert_eq!(sent, 2);
    assert_eq!(replies, 2);
}
