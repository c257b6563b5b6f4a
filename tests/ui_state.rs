use portfolio_tracker::models::ApiProvider;
use portfolio_tracker::ui_state::{navigate_down, navigate_up, Action, Key, PopupManager, UiState};

#[test]
fn navigation_wraps_around() {
    assert_eq!(navigate_up(Some(0), 3), 2);
    assert_eq!(navigate_up(Some(2), 3), 1);
    assert_eq!(navigate_up(None, 3), 0);
    assert_eq!(navigate_down(Some(2), 3), 0);
    assert_eq!(navigate_down(Some(0), 3), 1);
    assert_eq!(navigate_down(None, 3), 0);
    assert_eq!(navigate_up(None, 0), 0);
    assert_eq!(navigate_down(None, 0), 0);
}

#[test]
fn popup_manager_flags() {
    let mut p = PopupManager::new();
    assert!(!p.has_error());
    p.show_error("boom");
    assert!(p.has_error());
    p.clear_error();
    assert!(!p.has_error());
    p.show_message("working");
    assert_eq!(p.message.as_deref(), Some("working"));
    p.clear_message();
    assert!(p.message.is_none());
    assert!(!p.has_any_popup());
}

#[test]
fn keys_drive_commands_and_popups() {
    let mut s = UiState::new();
    assert_eq!(s.handle_key(Key::F(4), 0), Action::ImportTransactions);
    assert_eq!(s.handle_key(Key::F(5), 0), Action::UpdatePrices);
    assert_eq!(s.handle_key(Key::Down, 2), Action::Nothing);
    assert_eq!(s.table_selected, Some(0));
    assert!(s.selection_mode);
    assert_eq!(s.handle_key(Key::F(8), 2), Action::Nothing);
    assert!(s.popups.show_api_selector);
    assert_eq!(s.table_selected, None);
    assert_eq!(s.handle_key(Key::Down, 2), Action::Nothing);
    assert_eq!(s.handle_key(Key::Enter, 2), Action::SetDefaultApi(ApiProvider::Fmp));
    assert!(!s.popups.show_api_selector);
    assert_eq!(s.handle_key(Key::F(12), 2), Action::Nothing);
    assert_eq!(s.handle_key(Key::Up, 2), Action::Nothing);
    assert_eq!(s.handle_key(Key::Enter, 2), Action::ResetDatabase { include_tickers: true });
    assert!(!s.popups.show_database_reset);
    assert_eq!(s.handle_key(Key::Char('q'), 2), Action::Quit);
}

#[test]
fn enter_dismisses_an_error() {
    let mut s = UiState::new();
    s.finish_work(Some("failed".to_string()));
    assert!(s.popups.has_error());
    assert_eq!(s.handle_key(Key::Enter, 0), Action::Nothing);
    assert!(!s.popups.has_error());
    s.start_work("Updating prices...");
    assert_eq!(s.popups.message.as_deref(), Some("Updating prices..."));
    s.finish_work(None);
    assert!(s.popups.message.is_none());
}
