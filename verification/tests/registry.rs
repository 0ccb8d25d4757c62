use modern_ddcui::detect::{parse_detect_text, DisplayInfo};
use modern_ddcui::registry::Registry;
use modern_ddcui::state::DisplayState;
use modern_ddcui::textmap::TextMap;

fn display(key: &str, model: &str, serial: &str) -> DisplayInfo {
    DisplayInfo::new(
        key.to_string(),
        Some(model.to_string()),
        None,
        Some(serial.to_string()),
        None,
    )
}

fn state_with(code: &str, value: u32) -> DisplayState {
    let mut s = DisplayState::default();
    s.values.insert(code.to_string(), value);
    s.ready = true;
    s.last_updated = Some(1);
    s
}

#[test]
fn new_registry_is_empty() {
    let r = Registry::new();
    assert_eq!(r.read_identities().len(), 0);
    assert!(r.read_state("1:M:S").is_none());
    assert!(r.find_identity("1:M:S").is_none());
    assert!(!r.has_identity("1:M:S"));
}

#[test]
fn default_state_is_empty() {
    let s = DisplayState::default();
    assert_eq!(s.caps, None);
    assert_eq!(s.values.len(), 0);
    assert!(!s.ready);
    assert_eq!(s.last_updated, None);
    assert_eq!(s.error, None);
}

#[test]
fn replace_identities_swaps_the_whole_list() {
    let mut r = Registry::new();
    r.replace_identities(vec![display("1", "A", "x"), display("2", "B", "y")]);
    let ids: Vec<String> = r.read_identities().into_iter().map(|d| d.id).collect();
    assert_eq!(ids, vec!["1:A:x", "2:B:y"]);
    r.replace_identities(vec![display("1", "C", "z")]);
    let ids: Vec<String> = r.read_identities().into_iter().map(|d| d.id).collect();
    assert_eq!(ids, vec!["1:C:z"]);
    assert!(r.find_identity("1:A:x").is_none());
    assert!(r.has_identity("1:C:z"));
}

#[test]
fn replace_identities_keeps_states() {
    let mut r = Registry::new();
    r.replace_identities(vec![display("1", "A", "x")]);
    let mut batch = TextMap::new();
    batch.insert("1:A:x".to_string(), state_with("0x10", 30));
    r.merge_states(batch);
    r.replace_identities(Vec::new());
    let kept = r.read_state("1:A:x").expect("the state of a removed display stays");
    assert_eq!(kept.values.get("0x10"), Some(&30));
    assert!(r.find_identity("1:A:x").is_none());
}

#[test]
fn find_identity_gives_the_first_match() {
    let mut r = Registry::new();
    let a = DisplayInfo::new("1".to_string(), Some("M".to_string()), Some("first".to_string()), None, None);
    let b = DisplayInfo::new("1".to_string(), Some("M".to_string()), Some("second".to_string()), None, None);
    assert_eq!(a.id, b.id);
    r.replace_identities(vec![display("9", "Z", ""), a, b]);
    let found = r.find_identity("1:M:").expect("known identity");
    assert_eq!(found.mfg.as_deref(), Some("first"));
    assert_eq!(found.display_key, "1");
}

#[test]
fn merge_inserts_and_overwrites_and_leaves_the_rest() {
    let mut r = Registry::new();
    r.replace_identities(vec![display("1", "A", "x"), display("2", "B", "y"), display("3", "C", "z")]);
    let mut first = TextMap::new();
    first.insert("1:A:x".to_string(), state_with("0x10", 10));
    first.insert("2:B:y".to_string(), state_with("0x10", 20));
    r.merge_states(first);
    let mut second = TextMap::new();
    second.insert("2:B:y".to_string(), state_with("0x10", 25));
    second.insert("3:C:z".to_string(), state_with("0x10", 30));
    r.merge_states(second);
    assert_eq!(r.read_state("1:A:x").unwrap().values.get("0x10"), Some(&10));
    assert_eq!(r.read_state("2:B:y").unwrap().values.get("0x10"), Some(&25));
    assert_eq!(r.read_state("3:C:z").unwrap().values.get("0x10"), Some(&30));
    assert!(r.read_state("4:D:w").is_none());
}

#[test]
fn merging_the_same_state_twice_is_merging_it_once() {
    let mut once = Registry::new();
    let mut twice = Registry::new();
    for r in [&mut once, &mut twice] {
        r.replace_identities(vec![display("1", "A", "x"), display("2", "B", "y")]);
        let mut old = TextMap::new();
        old.insert("2:B:y".to_string(), state_with("0x12", 5));
        r.merge_states(old);
    }
    let batch = || {
        let mut b = TextMap::new();
        b.insert("1:A:x".to_string(), state_with("0x10", 77));
        b
    };
    once.merge_states(batch());
    twice.merge_states(batch());
    twice.merge_states(batch());
    for id in ["1:A:x", "2:B:y", "3:C:z"] {
        let a = once.read_state(id);
        let b = twice.read_state(id);
        assert_eq!(a.is_some(), b.is_some());
        if let (Some(a), Some(b)) = (a, b) {
            assert_eq!(a.values.get("0x10"), b.values.get("0x10"));
            assert_eq!(a.values.get("0x12"), b.values.get("0x12"));
            assert_eq!(a.ready, b.ready);
            assert_eq!(a.last_updated, b.last_updated);
        }
    }
    assert_eq!(once.read_state("1:A:x").unwrap().values.get("0x10"), Some(&77));
}

#[test]
fn batches_for_different_displays_merge_in_either_order() {
    let mut ab = Registry::new();
    let mut ba = Registry::new();
    for r in [&mut ab, &mut ba] {
        r.replace_identities(vec![display("1", "A", "x"), display("2", "B", "y")]);
    }
    let a = || {
        let mut m = TextMap::new();
        m.insert("1:A:x".to_string(), state_with("0x10", 1));
        m
    };
    let b = || {
        let mut m = TextMap::new();
        m.insert("2:B:y".to_string(), state_with("0x10", 2));
        m
    };
    ab.merge_states(a());
    ab.merge_states(b());
    ba.merge_states(b());
    ba.merge_states(a());
    for id in ["1:A:x", "2:B:y"] {
        assert_eq!(
            ab.read_state(id).unwrap().values.get("0x10"),
            ba.read_state(id).unwrap().values.get("0x10")
        );
    }
}

#[test]
fn reads_are_copies() {
    let mut r = Registry::new();
    r.replace_identities(vec![display("1", "A", "x")]);
    let mut batch = TextMap::new();
    batch.insert("1:A:x".to_string(), state_with("0x10", 10));
    r.merge_states(batch);
    let mut copy = r.read_state("1:A:x").unwrap();
    copy.values.insert("0x10".to_string(), 99);
    copy.ready = false;
    let mut list = r.read_identities();
    list[0].model = Some("changed".to_string());
    assert_eq!(r.read_state("1:A:x").unwrap().values.get("0x10"), Some(&10));
    assert!(r.read_state("1:A:x").unwrap().ready);
    assert_eq!(r.read_identities()[0].model.as_deref(), Some("A"));
}

#[test]
fn state_of_a_display_not_fetched_yet_is_the_empty_state() {
    let mut r = Registry::new();
    r.replace_identities(parse_detect_text("Display 1\nModel: A\n"));
    let s = r.state_or_default("1:A:");
    assert!(!s.ready);
    assert_eq!(s.error, None);
    assert_eq!(s.values.len(), 0);
    let mut batch = TextMap::new();
    batch.insert("1:A:".to_string(), state_with("0x10", 10));
    r.merge_states(batch);
    let s = r.state_or_default("1:A:");
    assert!(s.ready);
    assert_eq!(s.values.get("0x10"), Some(&10));
}

#[test]
fn text_map_keeps_first_insertion_order() {
    let mut m: TextMap<u32> = TextMap::new();
    m.insert("b".to_string(), 1);
    m.insert("a".to_string(), 2);
    m.insert("b".to_string(), 3);
    assert_eq!(m.len(), 2);
    assert_eq!(m.key_at(0), "b");
    assert_eq!(m.key_at(1), "a");
    assert_eq!(*m.value_at(0), 3);
    assert_eq!(*m.value_at(1), 2);
    assert_eq!(m.get("a"), Some(&2));
    assert_eq!(m.get("c"), None);
    let copy = m.clone();
    assert_eq!(copy.len(), 2);
    assert_eq!(copy.get("b"), Some(&3));
    let last = m.pop();
    assert_eq!(last, Some(("a".to_string(), 2)));
    assert_eq!(m.len(), 1);
    assert_eq!(m.get("a"), None);
    assert_eq!(m.pop(), Some(("b".to_string(), 3)));
    assert_eq!(m.pop(), None);
    assert_eq!(copy.get("a"), Some(&2));
}
