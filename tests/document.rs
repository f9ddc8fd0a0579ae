use espanso_helper::document::{
    build_document, document_matches, parse_matches, read_matches, render_matches,
};
use espanso_helper::entry::{delete_at, filter_matches, upsert, Match, UpsertOutcome};

fn pairs(ms: &[Match]) -> Vec<(String, String)> {
    ms.iter().map(|x| (x.trigger.clone(), x.replace.clone())).collect()
}

fn p(t: &str, r: &str) -> (String, String) {
    (t.to_string(), r.to_string())
}

#[test]
fn parse_reads_entries_in_order() {
    let text = "matches:\n  - trigger: \":a\"\n    replace: \"one\"\n  - trigger: \":b\"\n    replace: \"two\"\n";
    assert_eq!(pairs(&parse_matches(text)), vec![p(":a", "one"), p(":b", "two")]);
}

#[test]
fn partial_record_is_dropped() {
    let text = "matches:\n  - trigger: \":ok\"\n    replace: \"fine\"\n  - trigger: \":half\"\n";
    assert_eq!(pairs(&parse_matches(text)), vec![p(":ok", "fine")]);
}

#[test]
fn non_string_fields_are_dropped() {
    let text = "matches:\n  - trigger: \":n\"\n    replace: [1, 2]\n  - trigger: \":s\"\n    replace: \"text\"\n";
    assert_eq!(pairs(&parse_matches(text)), vec![p(":s", "text")]);
}

#[test]
fn malformed_text_holds_no_matches() {
    assert!(parse_matches("matches: [unclosed").is_empty());
    assert!(parse_matches("").is_empty());
}

#[test]
fn document_without_sequence_holds_no_matches() {
    assert!(parse_matches("other: 1\n").is_empty());
    assert!(parse_matches("matches: 5\n").is_empty());
    assert!(parse_matches("- a\n- b\n").is_empty());
}

#[test]
fn text_round_trip() {
    let ms = vec![
        Match::new(":date".to_string(), "2024-01-01".to_string()),
        Match::new("yes".to_string(), "multi\nline: text".to_string()),
        Match::new(":q".to_string(), "\"quoted\" and 'single'".to_string()),
        Match::new(":n".to_string(), "12".to_string()),
    ];
    let text = render_matches(&ms).unwrap();
    assert_eq!(pairs(&parse_matches(&text)), pairs(&ms));
}

#[test]
fn render_holds_only_matches_key() {
    let ms = vec![Match::new(":hi".to_string(), "hello".to_string())];
    let text = render_matches(&ms).unwrap();
    assert!(text.starts_with("matches:"));
    let doc: serde_yaml::Value = serde_yaml::from_str(&text).unwrap();
    assert_eq!(doc.as_mapping().unwrap().len(), 1);
}

#[test]
fn document_round_trip() {
    let ms = vec![
        Match::new(":a".to_string(), "one".to_string()),
        Match::new(":a".to_string(), "dup".to_string()),
    ];
    let doc = build_document(&ms);
    assert_eq!(pairs(&document_matches(&doc)), pairs(&ms));
    assert_eq!(pairs(&document_matches(&build_document(&Vec::new()))), Vec::<(String, String)>::new());
}

#[test]
fn base_file_scenario() {
    let text = "matches: [{trigger: \":hi\", replace: \"hello\"}]";
    let mut ms = parse_matches(text);
    assert_eq!(pairs(&ms), vec![p(":hi", "hello")]);
    assert_eq!(pairs(&filter_matches(&ms, "HI")), vec![p(":hi", "hello")]);
    let r = upsert(&mut ms, None, ":bye".to_string(), "goodbye".to_string());
    assert_eq!(r, UpsertOutcome::Appended);
    let saved = render_matches(&ms).unwrap();
    assert_eq!(pairs(&parse_matches(&saved)), vec![p(":hi", "hello"), p(":bye", "goodbye")]);
    let mut reloaded = parse_matches(&saved);
    assert!(delete_at(&mut reloaded, 0));
    let saved = render_matches(&reloaded).unwrap();
    assert_eq!(pairs(&parse_matches(&saved)), vec![p(":bye", "goodbye")]);
}

#[test]
fn read_matches_reports_malformed_text() {
    assert!(read_matches("matches: [unclosed").is_none());
    let ms = read_matches("matches:\n  - {trigger: \":a\", replace: \"b\"}\n").unwrap();
    assert_eq!(pairs(&ms), vec![p(":a", "b")]);
}

#[test]
fn saved_document_has_exact_shape() {
    let ms = vec![
        Match::new(":a".to_string(), "one".to_string()),
        Match::new(":b".to_string(), "two".to_string()),
    ];
    let doc = build_document(&ms);
    let top = doc.as_mapping().unwrap();
    assert_eq!(top.len(), 1);
    let items = doc.get("matches").unwrap().as_sequence().unwrap();
    assert_eq!(items.len(), 2);
    for (item, m) in items.iter().zip(ms.iter()) {
        assert_eq!(item.as_mapping().unwrap().len(), 2);
        assert_eq!(item.get("trigger").unwrap().as_str().unwrap(), m.trigger);
        assert_eq!(item.get("replace").unwrap().as_str().unwrap(), m.replace);
    }
}

#[test]
fn rendering_depends_on_matches_alone() {
    let a = parse_matches("matches:\n  - {trigger: \":a\", replace: \"b\", vars: 1}\nconfig: x\n");
    let b = vec![Match::new(":a".to_string(), "b".to_string())];
    let ta = render_matches(&a).unwrap();
    assert_eq!(ta, render_matches(&b).unwrap());
    assert!(!ta.contains("vars") && !ta.contains("config"));
}
