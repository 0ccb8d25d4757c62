use modern_ddcui::cycle::{step, CycleAction, CycleEvent, Phase, REFRESH_INTERVAL_SECS};
use modern_ddcui::ddcutil::ProcessError;
use modern_ddcui::detect::DisplayInfo;
use modern_ddcui::prefetch::Prefetch;
use modern_ddcui::registry::Registry;
use modern_ddcui::state::DisplayState;

const TWO_DISPLAYS: &str = "Display 1\n   Model: Alpha\n   Serial number: A1\nDisplay 2\n   Model: Beta\n   Serial number: B2\n";

fn value_reply(v: u32) -> Result<String, ProcessError> {
    Ok(format!("VCP code: current value = {:5}, max value =   100\n", v))
}

fn failed(stderr: &str) -> Result<String, ProcessError> {
    Err(ProcessError::Failed(stderr.to_string()))
}

/// Runs one fetch with the given reply to the capabilities call, every
/// value query answering `value`.
fn fetch(display: DisplayInfo, caps: Result<String, ProcessError>, value: u32, now: u64) -> (DisplayInfo, DisplayState) {
    let mut p = Prefetch::begin(display);
    let mut first = Some(caps);
    while p.next_query().is_some() {
        let reply = match first.take() {
            Some(caps) => caps,
            None => value_reply(value),
        };
        p = p.record(reply);
    }
    p.finish(now)
}

fn listed(registry: &mut Registry, text: &str) -> Vec<DisplayInfo> {
    let (phase, action) = step(registry, Phase::Idle, CycleEvent::Wake);
    assert_eq!(phase, Phase::Enumerating);
    match action {
        CycleAction::Enumerate(args) => assert_eq!(args, vec!["detect"]),
        other => panic!("unexpected action {:?}", other),
    }
    let (phase, action) = step(registry, phase, CycleEvent::Enumerated(Ok(text.to_string())));
    assert_eq!(phase, Phase::FanOutPrefetch);
    let list = match action {
        CycleAction::Launch(list) => list,
        other => panic!("unexpected action {:?}", other),
    };
    let (phase, action) = step(registry, phase, CycleEvent::Launched);
    assert_eq!(phase, Phase::Aggregating);
    assert!(matches!(action, CycleAction::Join));
    list
}

fn joined(registry: &mut Registry, outcomes: Vec<Option<(String, DisplayState)>>) {
    let (phase, action) = step(registry, Phase::Aggregating, CycleEvent::Joined(outcomes));
    assert_eq!(phase, Phase::Idle);
    match action {
        CycleAction::Sleep(secs) => assert_eq!(secs, 5),
        other => panic!("unexpected action {:?}", other),
    }
}

#[test]
fn refresh_interval_is_five_seconds() {
    assert_eq!(REFRESH_INTERVAL_SECS, 5);
}

#[test]
fn two_displays_both_fetched() {
    let mut registry = Registry::new();
    let list = listed(&mut registry, TWO_DISPLAYS);
    assert_eq!(list.len(), 2);
    let mut outcomes = Vec::new();
    for (i, d) in list.into_iter().enumerate() {
        let (d, s) = fetch(d, Ok("(prot(monitor))".to_string()), 10 * (i as u32 + 1), 1000);
        outcomes.push(Some((d.id, s)));
    }
    joined(&mut registry, outcomes);
    let ids: Vec<String> = registry.read_identities().into_iter().map(|d| d.id).collect();
    assert_eq!(ids, vec!["1:Alpha:A1", "2:Beta:B2"]);
    for (id, value) in [("1:Alpha:A1", 10u32), ("2:Beta:B2", 20u32)] {
        let s = registry.read_state(id).expect("fetched state");
        assert!(s.ready);
        assert_eq!(s.error, None);
        assert_eq!(s.caps.as_deref(), Some("(prot(monitor))"));
        assert_eq!(s.last_updated, Some(1000));
        assert_eq!(s.values.len(), 5);
        for code in ["0x10", "0x12", "0x16", "0x18", "0x1a"] {
            assert_eq!(s.values.get(code), Some(&value));
        }
    }
}

#[test]
fn failed_capabilities_call_marks_only_its_display() {
    let mut registry = Registry::new();
    let list = listed(&mut registry, TWO_DISPLAYS);
    let mut outcomes = Vec::new();
    for (i, d) in list.into_iter().enumerate() {
        let caps = if i == 0 { failed("no DDC") } else { Ok("caps".to_string()) };
        let (d, s) = fetch(d, caps, 42, 7);
        outcomes.push(Some((d.id, s)));
    }
    joined(&mut registry, outcomes);
    assert_eq!(registry.read_identities().len(), 2);
    let bad = registry.read_state("1:Alpha:A1").unwrap();
    assert!(!bad.ready);
    assert_eq!(bad.error.as_deref(), Some("ddcutil failed: no DDC"));
    assert_eq!(bad.caps, None);
    assert_eq!(bad.values.get("0x10"), Some(&42));
    assert_eq!(bad.last_updated, Some(7));
    let good = registry.read_state("2:Beta:B2").unwrap();
    assert!(good.ready);
    assert_eq!(good.error, None);
    assert_eq!(good.caps.as_deref(), Some("caps"));
    assert_eq!(good.values.get("0x10"), Some(&42));
}

#[test]
fn failed_listing_leaves_the_registry() {
    let mut registry = Registry::new();
    let list = listed(&mut registry, TWO_DISPLAYS);
    let outcomes = list
        .into_iter()
        .map(|d| {
            let (d, s) = fetch(d, Ok("caps".to_string()), 1, 1);
            Some((d.id, s))
        })
        .collect();
    joined(&mut registry, outcomes);
    let (phase, _) = step(&mut registry, Phase::Idle, CycleEvent::Wake);
    let (phase, action) = step(&mut registry, phase, CycleEvent::Enumerated(failed("bus busy")));
    assert_eq!(phase, Phase::Idle);
    assert!(matches!(action, CycleAction::Sleep(5)));
    assert_eq!(registry.read_identities().len(), 2);
    assert!(registry.read_state("1:Alpha:A1").unwrap().ready);
    assert!(registry.read_state("2:Beta:B2").unwrap().ready);
}

#[test]
fn lost_task_leaves_the_old_state() {
    let mut registry = Registry::new();
    let list = listed(&mut registry, TWO_DISPLAYS);
    let outcomes = list
        .into_iter()
        .map(|d| {
            let (d, s) = fetch(d, Ok("caps".to_string()), 1, 1);
            Some((d.id, s))
        })
        .collect();
    joined(&mut registry, outcomes);
    let list = listed(&mut registry, TWO_DISPLAYS);
    let mut outcomes = Vec::new();
    for (i, d) in list.into_iter().enumerate() {
        if i == 0 {
            outcomes.push(None);
        } else {
            let (d, s) = fetch(d, Ok("caps".to_string()), 2, 2);
            outcomes.push(Some((d.id, s)));
        }
    }
    joined(&mut registry, outcomes);
    let old = registry.read_state("1:Alpha:A1").unwrap();
    assert_eq!(old.values.get("0x10"), Some(&1));
    assert_eq!(old.last_updated, Some(1));
    let new = registry.read_state("2:Beta:B2").unwrap();
    assert_eq!(new.values.get("0x10"), Some(&2));
    assert_eq!(new.last_updated, Some(2));
}

#[test]
fn state_of_a_display_that_left_stays() {
    let mut registry = Registry::new();
    let list = listed(&mut registry, TWO_DISPLAYS);
    let outcomes = list
        .into_iter()
        .map(|d| {
            let (d, s) = fetch(d, Ok("caps".to_string()), 1, 1);
            Some((d.id, s))
        })
        .collect();
    joined(&mut registry, outcomes);
    let list = listed(&mut registry, "Display 1\n   Model: Alpha\n   Serial number: A1\n");
    assert_eq!(list.len(), 1);
    joined(&mut registry, Vec::new());
    assert_eq!(registry.read_identities().len(), 1);
    assert!(registry.read_state("2:Beta:B2").is_some());
}

#[test]
fn outcome_for_an_unlisted_display_is_dropped() {
    let mut registry = Registry::new();
    let list = listed(&mut registry, TWO_DISPLAYS);
    let (_, s) = fetch(list.into_iter().next().unwrap(), Ok("caps".to_string()), 1, 1);
    joined(&mut registry, vec![Some(("9:Ghost:".to_string(), s))]);
    assert!(registry.read_state("9:Ghost:").is_none());
    assert!(registry.read_state("1:Alpha:A1").is_none());
}

#[test]
fn last_outcome_for_a_display_wins() {
    let mut registry = Registry::new();
    let list = listed(&mut registry, "Display 1\nModel: M\nDisplay 1\nModel: M\n");
    assert_eq!(list.len(), 2);
    assert_eq!(list[0].id, list[1].id);
    let mut outcomes = Vec::new();
    for (i, d) in list.into_iter().enumerate() {
        let (d, s) = fetch(d, Ok("caps".to_string()), i as u32 + 1, 1);
        outcomes.push(Some((d.id, s)));
    }
    joined(&mut registry, outcomes);
    assert_eq!(registry.read_state("1:M:").unwrap().values.get("0x10"), Some(&2));
}

#[test]
fn event_out_of_phase_changes_nothing() {
    let mut registry = Registry::new();
    let _ = listed(&mut registry, TWO_DISPLAYS);
    for phase in [Phase::Enumerating, Phase::FanOutPrefetch, Phase::Aggregating] {
        let (next, action) = step(&mut registry, phase, CycleEvent::Wake);
        assert_eq!(next, phase);
        assert!(matches!(action, CycleAction::Nothing));
    }
    let (next, action) = step(&mut registry, Phase::Idle, CycleEvent::Enumerated(Ok("Display 7\n".to_string())));
    assert_eq!(next, Phase::Idle);
    assert!(matches!(action, CycleAction::Nothing));
    let (next, action) = step(&mut registry, Phase::Idle, CycleEvent::Joined(Vec::new()));
    assert_eq!(next, Phase::Idle);
    assert!(matches!(action, CycleAction::Nothing));
    let (next, action) = step(&mut registry, Phase::Aggregating, CycleEvent::Launched);
    assert_eq!(next, Phase::Aggregating);
    assert!(matches!(action, CycleAction::Nothing));
    assert_eq!(registry.read_identities().len(), 2);
}

#[test]
fn fetch_asks_capabilities_then_each_code() {
    let d = DisplayInfo::new("3".to_string(), None, None, None, None);
    let mut p = Prefetch::begin(d);
    let mut asked = Vec::new();
    while let Some(args) = p.next_query() {
        asked.push(args.join(" "));
        p = p.record(Ok(String::new()));
    }
    assert_eq!(
        asked,
        vec![
            "capabilities --display 3",
            "getvcp 0x10 --display 3",
            "getvcp 0x12 --display 3",
            "getvcp 0x16 --display 3",
            "getvcp 0x18 --display 3",
            "getvcp 0x1a --display 3",
        ]
    );
    let p = p.record(Ok("current value = 5".to_string()));
    assert!(p.next_query().is_none());
    let (d, s) = p.finish(12);
    assert_eq!(d.display_key, "3");
    assert_eq!(s.caps.as_deref(), Some(""));
    assert_eq!(s.values.len(), 5);
    assert_eq!(s.values.get("0x10"), Some(&0));
    assert!(s.ready);
    assert_eq!(s.last_updated, Some(12));
}

#[test]
fn failed_value_query_leaves_no_value_and_does_not_stop_the_fetch() {
    let d = DisplayInfo::new("1".to_string(), None, None, None, None);
    let p = Prefetch::begin(d);
    let p = p.record(Ok("caps".to_string()));
    let p = p.record(value_reply(11));
    let p = p.record(failed("unsupported"));
    let p = p.record(Err(ProcessError::Spawn("gone".to_string())));
    let p = p.record(Ok("no marker here".to_string()));
    let p = p.record(value_reply(55));
    let (_, s) = p.finish(3);
    assert!(s.ready);
    assert_eq!(s.error, None);
    assert_eq!(s.values.len(), 3);
    assert_eq!(s.values.get("0x10"), Some(&11));
    assert_eq!(s.values.get("0x12"), None);
    assert_eq!(s.values.get("0x16"), None);
    assert_eq!(s.values.get("0x18"), Some(&0));
    assert_eq!(s.values.get("0x1a"), Some(&55));
}

#[test]
fn fetch_ended_early_is_sealed_as_it_stands() {
    let d = DisplayInfo::new("1".to_string(), None, None, None, None);
    let p = Prefetch::begin(d).record(Err(ProcessError::Spawn("No such file".to_string())));
    let (_, s) = p.finish(9);
    assert!(!s.ready);
    assert_eq!(s.error.as_deref(), Some("No such file"));
    assert_eq!(s.values.len(), 0);
    assert_eq!(s.last_updated, Some(9));
}
