use espanso_helper::catalog::{is_match_file, match_file_names};
use espanso_helper::entry::{Match, UpsertOutcome};
use espanso_helper::document::parse_matches;
use espanso_helper::helper::{EspansoHelper, LoadStatus, SaveError};

fn names(v: &[&str]) -> Vec<String> {
    v.iter().map(|s| s.to_string()).collect()
}

fn pairs(ms: &[Match]) -> Vec<(String, String)> {
    ms.iter().map(|x| (x.trigger.clone(), x.replace.clone())).collect()
}

fn loaded() -> EspansoHelper {
    let mut h = EspansoHelper::new(names(&["base.yml", "work.yml"]));
    h.load_text(Some(
        "matches:\n  - {trigger: \":hi\", replace: \"hello\"}\n  - {trigger: \":bye\", replace: \"goodbye\"}\n  - {trigger: \":hey\", replace: \"hey there\"}\n",
    ));
    h
}

#[test]
fn yml_names_are_kept_in_order() {
    let r = match_file_names(names(&["b.yml", "notes.txt", "a.yml", ".yml", "c.yaml", "d.yml.bak", "..yml"]));
    assert_eq!(r, names(&["b.yml", "a.yml", "..yml"]));
    assert!(is_match_file("x.yml"));
    assert!(!is_match_file("yml"));
    assert!(!is_match_file(""));
}

#[test]
fn new_selects_first_file() {
    let h = EspansoHelper::new(names(&["base.yml", "work.yml"]));
    assert_eq!(h.selected_file, "base.yml");
    let e = EspansoHelper::new(Vec::new());
    assert_eq!(e.selected_file, "");
}

#[test]
fn refresh_keeps_listed_selection_and_clears_fields() {
    let mut h = loaded();
    assert!(h.select_file("work.yml".to_string()));
    h.set_filter("hi".to_string());
    assert!(h.begin_edit(0));
    h.refresh(names(&["new.yml", "work.yml"]));
    assert_eq!(h.selected_file, "work.yml");
    assert_eq!(h.filter_text, "");
    assert_eq!(h.new_trigger, "");
    assert_eq!(h.new_replacement, "");
    assert_eq!(h.editing_index, None);
}

#[test]
fn refresh_falls_back_to_first_or_empty() {
    let mut h = loaded();
    h.refresh(names(&["other.yml", "more.yml"]));
    assert_eq!(h.selected_file, "other.yml");
    h.refresh(Vec::new());
    assert_eq!(h.selected_file, "");
}

#[test]
fn select_unlisted_file_is_refused() {
    let mut h = loaded();
    assert!(!h.select_file("missing.yml".to_string()));
    assert_eq!(h.selected_file, "base.yml");
}

#[test]
fn edit_under_filter_targets_collection_position() {
    let mut h = loaded();
    h.set_filter("HEY".to_string());
    assert_eq!(h.filtered_positions(), vec![2]);
    assert!(h.begin_edit(0));
    assert_eq!(h.editing_index, Some(2));
    assert_eq!(h.new_trigger, ":hey");
    assert_eq!(h.new_replacement, "hey there");
    h.new_replacement = "hey you".to_string();
    assert_eq!(h.add_or_update_match(), UpsertOutcome::Replaced);
    assert_eq!(h.editing_index, None);
    assert_eq!(h.new_trigger, "");
    assert_eq!(pairs(&h.matches)[2], (":hey".to_string(), "hey you".to_string()));
    assert_eq!(h.matches.len(), 3);
    assert!(!h.begin_edit(1));
}

#[test]
fn rejected_draft_is_kept() {
    let mut h = loaded();
    h.new_trigger = ":x".to_string();
    assert_eq!(h.add_or_update_match(), UpsertOutcome::Rejected);
    assert_eq!(h.new_trigger, ":x");
    assert_eq!(h.matches.len(), 3);
}

#[test]
fn add_appends_and_clears_draft() {
    let mut h = loaded();
    h.new_trigger = ":new".to_string();
    h.new_replacement = "fresh".to_string();
    assert_eq!(h.add_or_update_match(), UpsertOutcome::Appended);
    assert_eq!(pairs(&h.matches)[3], (":new".to_string(), "fresh".to_string()));
    assert_eq!(h.new_replacement, "");
}

#[test]
fn delete_under_filter_removes_shown_match() {
    let mut h = loaded();
    h.set_filter("bye".to_string());
    assert!(h.delete_match(0));
    assert_eq!(
        pairs(&h.matches),
        vec![
            (":hi".to_string(), "hello".to_string()),
            (":hey".to_string(), "hey there".to_string())
        ]
    );
    assert!(!h.delete_match(0));
    assert_eq!(h.matches.len(), 2);
}

#[test]
fn delete_moves_edit_target() {
    let mut h = loaded();
    assert!(h.begin_edit(2));
    assert!(h.delete_match(0));
    assert_eq!(h.editing_index, Some(1));
    assert!(h.delete_match(1));
    assert_eq!(h.editing_index, None);
}

#[test]
fn cancel_edit_clears_draft() {
    let mut h = loaded();
    assert!(h.begin_edit(1));
    h.cancel_edit();
    assert_eq!(h.editing_index, None);
    assert_eq!(h.new_trigger, "");
    assert_eq!(h.matches.len(), 3);
}

#[test]
fn load_unreadable_file_is_empty_and_drops_stale_target() {
    let mut h = loaded();
    assert!(h.begin_edit(2));
    h.load_text(None);
    assert!(h.matches.is_empty());
    assert_eq!(h.editing_index, None);
    assert!(h.filtered_matches().is_empty());
}

#[test]
fn filtered_matches_follow_filter() {
    let mut h = loaded();
    h.set_filter("H".to_string());
    assert_eq!(h.filtered_matches().len(), 2);
    assert_eq!(h.filtered_positions(), vec![0, 2]);
}

#[test]
fn load_status_tells_failures_apart() {
    let mut h = EspansoHelper::new(names(&["base.yml"]));
    assert_eq!(h.load_text(Some("matches: []\n")), LoadStatus::Loaded);
    assert_eq!(h.load_text(Some("matches: [unclosed")), LoadStatus::Malformed);
    assert!(h.matches.is_empty());
    assert_eq!(h.load_text(None), LoadStatus::Unreadable);
    assert_eq!(h.load_text(Some("other: 1\n")), LoadStatus::Loaded);
    assert!(h.matches.is_empty());
}

#[test]
fn malformed_file_is_never_saved() {
    let mut h = EspansoHelper::new(names(&["base.yml"]));
    assert_eq!(h.load_text(Some("matches: [unclosed")), LoadStatus::Malformed);
    h.new_trigger = ":a".to_string();
    h.new_replacement = "b".to_string();
    assert!(h.add_or_update_match().changed());
    assert_eq!(h.load_status, LoadStatus::Malformed);
    assert_eq!(h.save_text(), Err(SaveError::Malformed));
}

#[test]
fn save_text_holds_the_collection() {
    let mut h = loaded();
    assert!(h.delete_match(1));
    let text = h.save_text().unwrap();
    assert_eq!(
        pairs(&parse_matches(&text)),
        vec![
            (":hi".to_string(), "hello".to_string()),
            (":hey".to_string(), "hey there".to_string())
        ]
    );
    let fresh = EspansoHelper::new(Vec::new());
    assert_eq!(fresh.load_status, LoadStatus::Unreadable);
    assert!(fresh.save_text().is_ok());
}

#[test]
fn delete_without_filter_uses_collection_index() {
    let mut h = loaded();
    assert_eq!(h.filtered_positions(), vec![0, 1, 2]);
    assert!(h.delete_match(2));
    assert_eq!(h.matches.len(), 2);
    assert!(!h.delete_match(2));
}
