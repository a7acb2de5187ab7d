use color_picker::color::Color;
use color_picker::storage::{ColorStore, SavedColor};

fn now() -> String {
    chrono::Utc::now().to_rfc3339()
}

#[test]
fn test_add_multiple_colors() {
    let mut store = ColorStore::default();
    store.add(&Color::new(255, 0, 0), now());
    store.add(&Color::new(0, 255, 0), now());
    store.add(&Color::new(0, 0, 255), now());
    assert_eq!(store.saved_colors.len(), 3);
}

#[test]
fn test_remove_by_index() {
    let mut store = ColorStore::default();
    store.add(&Color::new(255, 0, 0), now());
    store.add(&Color::new(0, 255, 0), now());
    store.add(&Color::new(0, 0, 255), now());
    store.remove(1);
    assert_eq!(store.saved_colors.len(), 2);
    assert_eq!(store.saved_colors[0].hex, "#FF0000");
    assert_eq!(store.saved_colors[1].hex, "#0000FF");
}

#[test]
fn test_remove_out_of_bounds_is_noop() {
    let mut store = ColorStore::default();
    store.add(&Color::new(255, 0, 0), now());
    store.remove(5);
    assert_eq!(store.saved_colors.len(), 1);
}

#[test]
fn test_clear() {
    let mut store = ColorStore::default();
    store.add(&Color::new(255, 0, 0), now());
    store.add(&Color::new(0, 255, 0), now());
    store.clear();
    assert!(store.saved_colors.is_empty());
}

#[test]
fn test_saved_color_has_timestamp() {
    let mut store = ColorStore::default();
    store.add(&Color::new(255, 0, 0), now());
    assert!(!store.saved_colors[0].saved_at.is_empty());
}

#[test]
fn test_saved_color_to_color() {
    let sc = SavedColor {
        hex: "#FF5733".to_string(),
        saved_at: "2026-03-29T00:00:00Z".to_string(),
    };
    assert_eq!(sc.to_color(), Color::new(255, 87, 51));
}

#[test]
fn test_saved_color_invalid_hex_returns_black() {
    let sc = SavedColor {
        hex: "invalid".to_string(),
        saved_at: "2026-03-29T00:00:00Z".to_string(),
    };
    assert_eq!(sc.to_color(), Color::new(0, 0, 0));
}

#[test]
fn add_keeps_the_given_stamp() {
    let mut store = ColorStore::default();
    store.add(&Color::new(1, 2, 3), "2026-03-29T00:00:00Z".to_string());
    assert_eq!(store.saved_colors.len(), 1);
    assert_eq!(store.saved_colors[0].hex, "#010203");
    assert_eq!(store.saved_colors[0].saved_at, "2026-03-29T00:00:00Z");
}

#[test]
fn saved_entry_reads_back_as_its_color() {
    let mut store = ColorStore::default();
    let c = Color::new(18, 52, 86);
    store.add(&c, now());
    assert_eq!(store.saved_colors[0].to_color(), c);
}

#[test]
fn add_keeps_earlier_entries_in_order() {
    let mut store = ColorStore::default();
    store.add(&Color::new(1, 1, 1), "a".to_string());
    store.add(&Color::new(2, 2, 2), "b".to_string());
    store.add(&Color::new(3, 3, 3), now());
    assert_eq!(store.saved_colors[0].hex, "#010101");
    assert_eq!(store.saved_colors[1].hex, "#020202");
    assert_eq!(store.saved_colors[2].hex, "#030303");
    store.remove(0);
    assert_eq!(store.saved_colors[0].hex, "#020202");
}
