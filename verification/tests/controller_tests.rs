use logview::events::{should_quit_after, InputEvent, KeyCode, KeyEvent};
use logview::log_groups::{
    LogGroupListComponent, LogGroupListState, LogGroupSelectionOutboundMessage,
};
use logview::log_viewer::{LogViewerOutboundMessage, LogViewerState, LogVieweromponent};
use logview::shared::{LoadingState, SharedResultState};

fn press(code: KeyCode) -> InputEvent {
    InputEvent::Key(KeyEvent { code, is_press: true, ctrl: false })
}

fn ctrl_press(code: KeyCode) -> InputEvent {
    InputEvent::Key(KeyEvent { code, is_press: true, ctrl: true })
}

fn groups(v: &[&str]) -> Vec<String> {
    v.iter().map(|s| s.to_string()).collect()
}

fn loaded_list(names: &[&str]) -> LogGroupListComponent {
    let mut c = LogGroupListComponent::new();
    let page: Vec<Option<String>> = names.iter().map(|s| Some(s.to_string())).collect();
    let msg = c.state.on_page(page, false);
    assert!(matches!(msg, LogGroupSelectionOutboundMessage::ApplySearch));
    c.apply_search();
    c
}

#[test]
fn pages_accumulate_names_and_mark_loaded_at_the_last() {
    let mut s = LogGroupListState::new();
    s.begin_fetch();
    assert_eq!(s.loading_state, LoadingState::Loading);
    s.on_page(vec![Some("a".to_string()), None, Some("b".to_string())], true);
    assert_eq!(s.log_groups, groups(&["a", "b"]));
    assert_eq!(s.loading_state, LoadingState::Loading);
    s.on_page(vec![Some("c".to_string())], false);
    assert_eq!(s.log_groups, groups(&["a", "b", "c"]));
    assert_eq!(s.loading_state, LoadingState::Loaded);
    assert_eq!(s.selected, 0);
}

#[test]
fn a_failed_listing_keeps_the_reason_and_drops_the_groups() {
    let mut s = LogGroupListState::new();
    s.on_page(vec![Some("a".to_string())], true);
    s.on_fetch_error("no credentials".to_string());
    assert_eq!(s.loading_state, LoadingState::Error("no credentials".to_string()));
    assert!(s.log_groups.is_empty());
}

#[test]
fn slash_enters_search_and_typing_filters() {
    let mut c = loaded_list(&["api-gateway", "auth-service", "billing"]);
    c.handle_event(&press(KeyCode::Char('/')));
    assert!(c.is_searching);
    c.handle_event(&press(KeyCode::Char('a')));
    c.handle_event(&press(KeyCode::Char('u')));
    assert_eq!(c.search_term, vec!['a', 'u']);
    let kept: Vec<String> = c.sorted_log_groups.iter().map(|p| p.0.clone()).collect();
    assert_eq!(kept, groups(&["auth-service"]));
}

#[test]
fn escape_leaves_search_and_restores_the_unfiltered_list() {
    let mut c = loaded_list(&["api-gateway", "auth-service", "billing"]);
    c.handle_event(&press(KeyCode::Char('/')));
    c.handle_event(&press(KeyCode::Char('a')));
    c.handle_event(&press(KeyCode::Char('u')));
    let out = c.handle_event(&press(KeyCode::Esc));
    assert!(out.prevent_exit);
    assert!(!c.is_searching);
    assert!(c.search_term.is_empty());
    let kept: Vec<String> = c.sorted_log_groups.iter().map(|p| p.0.clone()).collect();
    assert_eq!(kept, groups(&["api-gateway", "auth-service", "billing"]));
}

#[test]
fn backspace_shortens_the_term() {
    let mut c = loaded_list(&["auth-service"]);
    c.handle_event(&press(KeyCode::Char('/')));
    c.handle_event(&press(KeyCode::Char('a')));
    c.handle_event(&press(KeyCode::Char('u')));
    c.handle_event(&press(KeyCode::Backspace));
    assert_eq!(c.search_term, vec!['a']);
}

#[test]
fn enter_emits_the_highlighted_group() {
    let mut c = loaded_list(&["api-gateway", "auth-service", "billing"]);
    c.handle_event(&press(KeyCode::Down));
    let out = c.handle_event(&press(KeyCode::Enter));
    match out.message {
        Some(LogGroupSelectionOutboundMessage::SelectedGroup(name)) => {
            assert_eq!(name, "auth-service")
        },
        _ => panic!("expected a selection message"),
    }
}

#[test]
fn enter_on_an_empty_filtered_list_emits_nothing() {
    let mut c = loaded_list(&[]);
    let out = c.handle_event(&press(KeyCode::Enter));
    assert!(out.message.is_none());
}

#[test]
fn selection_moves_with_arrows_and_vi_keys_and_clamps() {
    let mut c = loaded_list(&["a", "b", "c"]);
    assert_eq!(c.state.selected, 0);
    c.handle_event(&press(KeyCode::Down));
    c.handle_event(&press(KeyCode::Char('j')));
    c.handle_event(&press(KeyCode::Char('j')));
    assert_eq!(c.state.selected, 2);
    c.handle_event(&press(KeyCode::Char('k')));
    c.handle_event(&press(KeyCode::Up));
    c.handle_event(&press(KeyCode::Up));
    assert_eq!(c.state.selected, 0);
}

#[test]
fn refresh_asks_for_a_fetch_only_when_idle() {
    let mut c = loaded_list(&["a"]);
    let out = c.handle_event(&press(KeyCode::Char('r')));
    assert!(out.start_fetch);
    c.state.begin_fetch();
    let out = c.handle_event(&press(KeyCode::Char('r')));
    assert!(!out.start_fetch);
}

#[test]
fn key_releases_do_not_scroll_the_list() {
    let mut c = loaded_list(&["a", "b"]);
    let release = InputEvent::Key(KeyEvent { code: KeyCode::Down, is_press: false, ctrl: false });
    c.handle_event(&release);
    assert_eq!(c.state.selected, 0);
}

#[test]
fn viewer_escape_hands_the_group_back() {
    let mut v = LogVieweromponent::new();
    let out = v.handle_event(&press(KeyCode::Esc));
    assert!(out.prevent_exit);
    assert!(matches!(out.message, Some(LogViewerOutboundMessage::UnselectLogGroup)));
}

#[test]
fn viewer_scrolls_by_key_and_in_bulk() {
    let mut v = LogVieweromponent::new();
    v.set_logs((1..=20).map(|i| i.to_string()).collect());
    v.handle_event(&press(KeyCode::Char('k')));
    v.handle_event(&press(KeyCode::Up));
    assert_eq!(v.table.visible_bounds(5), (15, 18));
    v.handle_event(&ctrl_press(KeyCode::Char('u')));
    assert_eq!(v.table.visible_bounds(5), (0, 3));
    v.handle_event(&ctrl_press(KeyCode::Char('d')));
    assert_eq!(v.table.visible_bounds(5), (8, 11));
    v.handle_event(&press(KeyCode::Char('j')));
    assert_eq!(v.table.visible_bounds(5), (9, 12));
}

#[test]
fn viewer_refresh_key_requests_a_fetch() {
    let mut v = LogVieweromponent::new();
    let out = v.handle_event(&press(KeyCode::Char('r')));
    assert!(out.start_fetch);
    assert!(out.message.is_none());
}

#[test]
fn fetch_outcome_reaches_the_viewer_state() {
    let mut s = LogViewerState::new();
    assert_eq!(s.loading_state, LoadingState::Loading);
    let msg = s.on_fetch_outcome(Ok(vec!["a".to_string()]));
    assert_eq!(s.loading_state, LoadingState::Loaded);
    match msg {
        LogViewerOutboundMessage::SetLogs(lines) => assert_eq!(lines, vec!["a"]),
        _ => panic!("expected the lines"),
    }
    let msg = s.on_fetch_outcome(Err("boom".to_string()));
    assert_eq!(s.loading_state, LoadingState::Error("boom".to_string()));
    assert!(matches!(msg, LogViewerOutboundMessage::ReRender));
}

#[test]
fn clear_logs_empties_state_and_snapshot() {
    let mut v = LogVieweromponent::new();
    let mut s = LogViewerState::new();
    s.log_messages = vec!["x".to_string()];
    v.displayed_messages = vec!["x".to_string()];
    v.clear_logs(&mut s);
    assert!(s.log_messages.is_empty());
    assert!(v.displayed_messages.is_empty());
}

#[test]
fn shared_state_snapshot_copies_both_fields() {
    let mut shared = SharedResultState::new();
    shared.publish(LoadingState::Loaded, vec!["a".to_string(), "b".to_string()]);
    let (status, lines) = shared.snapshot();
    assert_eq!(status, LoadingState::Loaded);
    assert_eq!(lines, vec!["a", "b"]);
    shared.clear_lines();
    assert_eq!(shared.snapshot().0, LoadingState::Loaded);
    assert!(shared.snapshot().1.is_empty());
}

#[test]
fn an_empty_view_reads_differently_while_loading() {
    assert_eq!(LoadingState::Loading.empty_placeholder(), "loading...");
    assert_eq!(LoadingState::Idle.empty_placeholder(), "no data");
    assert_eq!(LoadingState::Loaded.empty_placeholder(), "no data");
    assert_eq!(LoadingState::Error("x".to_string()).empty_placeholder(), "no data");
}

#[test]
fn quit_keys_end_the_session_unless_a_controller_objects() {
    assert!(should_quit_after(&press(KeyCode::Char('q')), false));
    assert!(should_quit_after(&press(KeyCode::Esc), false));
    assert!(!should_quit_after(&press(KeyCode::Esc), true));
    assert!(!should_quit_after(&press(KeyCode::Char('x')), false));
    let release = InputEvent::Key(KeyEvent { code: KeyCode::Esc, is_press: false, ctrl: false });
    assert!(!should_quit_after(&release, false));
    assert!(!should_quit_after(&InputEvent::Other, false));
}
