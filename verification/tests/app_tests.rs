use std::path::PathBuf;

use color_picker::color::Color;
use color_picker::storage::ColorStore;
use color_picker::tui::app::{App, Effect, StatusTone};
use color_picker::tui::input::Action;

fn now() -> String {
    chrono::Utc::now().to_rfc3339()
}

fn test_app() -> App {
    App::new(PathBuf::from("colors.json"), ColorStore::default())
}

#[test]
fn test_new_app_has_empty_state() {
    let app = test_app();
    assert!(app.store.saved_colors.is_empty());
    assert!(app.color_stream.is_empty());
    assert!(app.current_color.is_none());
    assert_eq!(app.selected_index, None);
    assert!(!app.should_quit);
}

#[test]
fn test_push_color_adds_to_stream() {
    let mut app = test_app();
    app.push_color(Color::new(255, 0, 0));
    assert_eq!(app.color_stream.len(), 1);
    assert_eq!(app.current_color, Some(Color::new(255, 0, 0)));
}

#[test]
fn test_push_color_deduplicates_consecutive() {
    let mut app = test_app();
    app.push_color(Color::new(255, 0, 0));
    app.push_color(Color::new(255, 0, 0));
    assert_eq!(app.color_stream.len(), 1);
}

#[test]
fn test_push_color_allows_different_colors() {
    let mut app = test_app();
    app.push_color(Color::new(255, 0, 0));
    app.push_color(Color::new(0, 255, 0));
    assert_eq!(app.color_stream.len(), 2);
}

#[test]
fn test_push_color_caps_at_200() {
    let mut app = test_app();
    for i in 0..250 {
        app.push_color(Color::new(i as u8, 0, 0));
    }
    assert_eq!(app.color_stream.len(), 200);
}

#[test]
fn test_push_color_newest_at_front() {
    let mut app = test_app();
    app.push_color(Color::new(255, 0, 0));
    app.push_color(Color::new(0, 255, 0));
    assert_eq!(app.color_stream[0], Color::new(0, 255, 0));
    assert_eq!(app.color_stream[1], Color::new(255, 0, 0));
}

#[test]
fn test_save_current_color() {
    let mut app = test_app();
    app.push_color(Color::new(255, 87, 51));
    app.save_current_color(now());
    assert_eq!(app.store.saved_colors.len(), 1);
    assert_eq!(app.store.saved_colors[0].hex, "#FF5733");
}

#[test]
fn test_save_no_current_color_is_noop() {
    let mut app = test_app();
    app.save_current_color(now());
    assert!(app.store.saved_colors.is_empty());
}

#[test]
fn test_delete_selected() {
    let mut app = test_app();
    app.push_color(Color::new(255, 0, 0));
    app.save_current_color(now());
    app.push_color(Color::new(0, 255, 0));
    app.save_current_color(now());
    app.selected_index = Some(0);
    app.delete_selected();
    assert_eq!(app.store.saved_colors.len(), 1);
    assert_eq!(app.store.saved_colors[0].hex, "#00FF00");
}

#[test]
fn test_delete_no_selection_is_noop() {
    let mut app = test_app();
    app.push_color(Color::new(255, 0, 0));
    app.save_current_color(now());
    app.selected_index = None;
    app.delete_selected();
    assert_eq!(app.store.saved_colors.len(), 1);
}

#[test]
fn test_clear_confirm_flow() {
    let mut app = test_app();
    app.push_color(Color::new(255, 0, 0));
    app.save_current_color(now());

    app.request_clear();
    assert!(app.clear_confirm);
    assert_eq!(app.store.saved_colors.len(), 1);

    app.request_clear();
    assert!(!app.clear_confirm);
    assert!(app.store.saved_colors.is_empty());
}

#[test]
fn test_clear_confirm_cancelled_by_other_action() {
    let mut app = test_app();
    app.push_color(Color::new(255, 0, 0));
    app.save_current_color(now());

    app.request_clear();
    assert!(app.clear_confirm);

    app.cancel_clear();
    assert!(!app.clear_confirm);
    assert_eq!(app.store.saved_colors.len(), 1);
}

#[test]
fn app_test_navigate_down() {
    let mut app = test_app();
    app.push_color(Color::new(255, 0, 0));
    app.save_current_color(now());
    app.push_color(Color::new(0, 255, 0));
    app.save_current_color(now());

    app.navigate_down();
    assert_eq!(app.selected_index, Some(0));
    app.navigate_down();
    assert_eq!(app.selected_index, Some(1));
    app.navigate_down();
    assert_eq!(app.selected_index, Some(1));
}

#[test]
fn app_test_navigate_up() {
    let mut app = test_app();
    app.push_color(Color::new(255, 0, 0));
    app.save_current_color(now());
    app.push_color(Color::new(0, 255, 0));
    app.save_current_color(now());

    app.selected_index = Some(1);
    app.navigate_up();
    assert_eq!(app.selected_index, Some(0));
    app.navigate_up();
    assert_eq!(app.selected_index, Some(0));
}

#[test]
fn test_navigate_empty_list_is_noop() {
    let mut app = test_app();
    app.navigate_down();
    assert_eq!(app.selected_index, None);
}

#[test]
fn test_selected_hex() {
    let mut app = test_app();
    app.push_color(Color::new(255, 87, 51));
    app.save_current_color(now());
    app.selected_index = Some(0);
    assert_eq!(app.selected_hex(), Some("#FF5733".to_string()));
}

#[test]
fn test_selected_hex_none_when_no_selection() {
    let app = test_app();
    assert_eq!(app.selected_hex(), None);
}

#[test]
fn test_delete_adjusts_selection_index() {
    let mut app = test_app();
    app.push_color(Color::new(255, 0, 0));
    app.save_current_color(now());
    app.push_color(Color::new(0, 255, 0));
    app.save_current_color(now());
    app.push_color(Color::new(0, 0, 255));
    app.save_current_color(now());

    app.selected_index = Some(2);
    app.delete_selected();
    assert_eq!(app.selected_index, Some(1));
}

#[test]
fn test_delete_last_item_clears_selection() {
    let mut app = test_app();
    app.push_color(Color::new(255, 0, 0));
    app.save_current_color(now());
    app.selected_index = Some(0);
    app.delete_selected();
    assert_eq!(app.selected_index, None);
}

#[test]
fn test_status_message() {
    let mut app = test_app();
    app.set_status("Copied!");
    assert_eq!(app.status_message, Some("Copied!".to_string()));
}

#[test]
fn test_save_sets_status() {
    let mut app = test_app();
    app.push_color(Color::new(255, 0, 0));
    app.save_current_color(now());
    assert_eq!(app.status_message, Some("Saved #FF0000".to_string()));
}

#[test]
fn test_clear_sets_status() {
    let mut app = test_app();
    app.push_color(Color::new(255, 0, 0));
    app.save_current_color(now());
    app.request_clear();
    assert_eq!(app.status_message, Some("Press c again to clear all".to_string()));
    app.request_clear();
    assert_eq!(app.status_message, Some("Cleared all colors".to_string()));
}

#[test]
fn write_requests_follow_changes() {
    let mut app = test_app();
    assert!(!app.save_current_color(now()));
    app.push_color(Color::new(1, 2, 3));
    assert!(app.save_current_color(now()));
    assert!(!app.delete_selected());
    app.selected_index = Some(0);
    assert!(app.delete_selected());
    assert!(!app.request_clear());
    assert!(app.request_clear());
}

#[test]
fn stream_keeps_newest_two_hundred() {
    let mut app = test_app();
    for i in 0..250u32 {
        app.push_color(Color::new((i % 256) as u8, (i / 256) as u8, 7));
    }
    assert_eq!(app.color_stream.len(), 200);
    assert_eq!(app.color_stream[0], Color::new(249, 0, 7));
    assert_eq!(app.color_stream[199], Color::new(50, 0, 7));
    assert_eq!(app.current_color, Some(Color::new(249, 0, 7)));
}

#[test]
fn repeat_after_other_color_is_added() {
    let mut app = test_app();
    app.push_color(Color::new(1, 1, 1));
    app.push_color(Color::new(2, 2, 2));
    app.push_color(Color::new(1, 1, 1));
    assert_eq!(app.color_stream.len(), 3);
}

#[test]
fn handle_action_quit_writes_and_keeps_pending_clear() {
    let mut app = test_app();
    app.clear_confirm = true;
    assert!(matches!(app.handle_action(Some(Action::Quit), now()), Effect::WriteStore));
    assert!(app.should_quit);
    assert!(app.clear_confirm);
}

#[test]
fn handle_action_save_then_copy() {
    let mut app = test_app();
    app.push_color(Color::new(255, 87, 51));
    app.clear_confirm = true;
    assert!(matches!(app.handle_action(Some(Action::Save), now()), Effect::WriteStore));
    assert!(!app.clear_confirm);
    assert!(matches!(app.handle_action(Some(Action::CopyHex), now()), Effect::Nothing));
    assert!(matches!(app.handle_action(Some(Action::NavigateDown), now()), Effect::Nothing));
    match app.handle_action(Some(Action::CopyHex), now()) {
        Effect::CopyToClipboard(hex) => assert_eq!(hex, "#FF5733"),
        other => panic!("unexpected effect {:?}", other),
    }
}

#[test]
fn handle_action_clear_needs_two_presses() {
    let mut app = test_app();
    app.push_color(Color::new(9, 9, 9));
    app.handle_action(Some(Action::Save), now());
    assert!(matches!(app.handle_action(Some(Action::Clear), now()), Effect::Nothing));
    assert_eq!(app.store.saved_colors.len(), 1);
    assert!(matches!(app.handle_action(None, now()), Effect::Nothing));
    assert!(!app.clear_confirm);
    assert!(matches!(app.handle_action(Some(Action::Clear), now()), Effect::Nothing));
    assert!(matches!(app.handle_action(Some(Action::Clear), now()), Effect::WriteStore));
    assert!(app.store.saved_colors.is_empty());
}

#[test]
fn handle_action_delete_and_navigate_up() {
    let mut app = test_app();
    app.push_color(Color::new(1, 0, 0));
    app.handle_action(Some(Action::Save), now());
    app.push_color(Color::new(2, 0, 0));
    app.handle_action(Some(Action::Save), now());
    app.handle_action(Some(Action::NavigateUp), now());
    assert_eq!(app.selected_index, Some(0));
    assert!(matches!(app.handle_action(Some(Action::Delete), now()), Effect::WriteStore));
    assert_eq!(app.store.saved_colors[0].hex, "#020000");
    assert_eq!(app.selected_index, Some(0));
}

#[test]
fn copy_result_status() {
    let mut app = test_app();
    app.record_copy_result("#ABCDEF", true);
    assert_eq!(app.status_message, Some("Copied #ABCDEF".to_string()));
    app.record_copy_result("#ABCDEF", false);
    assert_eq!(app.status_message, Some("Failed to copy".to_string()));
}

#[test]
fn status_tone_follows_confirmation() {
    let mut app = test_app();
    assert_eq!(app.status_tone(), StatusTone::Hidden);
    app.request_clear();
    assert_eq!(app.status_tone(), StatusTone::Warning);
    app.cancel_clear();
    assert_eq!(app.status_tone(), StatusTone::Notice);
}

#[test]
fn selected_hex_out_of_range_is_none() {
    let mut app = test_app();
    app.selected_index = Some(3);
    assert_eq!(app.selected_hex(), None);
}

#[test]
fn clear_interrupted_by_other_key_never_clears() {
    let mut app = test_app();
    app.push_color(Color::new(4, 4, 4));
    app.handle_action(Some(Action::Save), now());
    app.handle_action(Some(Action::Clear), now());
    app.handle_action(None, now());
    app.handle_action(Some(Action::Clear), now());
    assert_eq!(app.store.saved_colors.len(), 1);
    // a second press in a row clears
    assert!(matches!(app.handle_action(Some(Action::Clear), now()), Effect::WriteStore));
    assert!(app.store.saved_colors.is_empty());
    // a third press in a row asks again
    assert!(matches!(app.handle_action(Some(Action::Clear), now()), Effect::Nothing));
    assert!(app.clear_confirm);
}

#[test]
fn save_stamps_entry_with_given_time() {
    let mut app = test_app();
    app.push_color(Color::new(1, 2, 3));
    app.save_current_color("2026-03-29T17:30:00+00:00".to_string());
    assert_eq!(app.store.saved_colors[0].saved_at, "2026-03-29T17:30:00+00:00");
}

#[test]
fn screen_permission_asked_only_when_all_black() {
    let mut app = test_app();
    assert!(!app.needs_screen_permission());
    app.push_color(Color::new(0, 0, 0));
    assert!(app.needs_screen_permission());
    app.push_color(Color::new(0, 0, 1));
    assert!(!app.needs_screen_permission());
}
