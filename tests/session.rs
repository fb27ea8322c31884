use nu_plugin_skim::generation::{Phase, Producer, Requery};
use nu_plugin_skim::outcome::{empty_source_result, session_result, Chosen, Outcome, SessionResult};
use nu_plugin_skim::selector::{Policy, PreSelection};

fn strings(v: &[&str]) -> Vec<String> {
    v.iter().map(|s| s.to_string()).collect()
}

#[test]
fn single_select_returns_the_chosen_payload() {
    let source = strings(&["alpha", "beta", "gamma"]);
    let chosen = vec![source[1].clone()];
    match session_result(Outcome::Selected(chosen), false, false) {
        SessionResult::Single(v) => assert_eq!(v, "beta"),
        _ => panic!("expected a single value"),
    }
}

#[test]
fn multi_select_of_one_item_is_a_one_element_collection() {
    let source = strings(&["alpha", "beta", "gamma"]);
    for k in 0..source.len() {
        match session_result(Outcome::Selected(vec![source[k].clone()]), true, false) {
            SessionResult::Many(v) => assert_eq!(v, vec![source[k].clone()]),
            _ => panic!("expected a collection"),
        }
        match session_result(Outcome::Selected(vec![source[k].clone()]), false, false) {
            SessionResult::Single(v) => assert_eq!(v, source[k]),
            _ => panic!("expected a single value"),
        }
    }
}

#[test]
fn first_n_pre_selection_accepted_as_is() {
    let source = strings(&["a", "bb", "ccc"]);
    let pre = PreSelection { policies: vec![Policy::FirstN(2)] };
    let checked: Vec<String> = source
        .iter()
        .enumerate()
        .filter(|(i, s)| pre.should_select(*i, s, false))
        .map(|(_, s)| s.clone())
        .collect();
    match session_result(Outcome::Selected(checked), true, false) {
        SessionResult::Many(v) => assert_eq!(v, strings(&["a", "bb"])),
        _ => panic!("expected a collection"),
    }
}

#[test]
fn empty_source_results() {
    assert!(matches!(empty_source_result::<String>(false, false), SessionResult::Empty));
    match empty_source_result::<String>(true, false) {
        SessionResult::Many(v) => assert!(v.is_empty()),
        _ => panic!("expected an empty collection"),
    }
    match empty_source_result::<String>(true, true) {
        SessionResult::Record { action: None, selected: Chosen::All(v) } => assert!(v.is_empty()),
        _ => panic!("expected a record"),
    }
}

#[test]
fn abort_gives_an_empty_result() {
    assert!(matches!(session_result(Outcome::<String>::Aborted, true, true), SessionResult::Empty));
    assert!(matches!(session_result(Outcome::<String>::Aborted, false, false), SessionResult::Empty));
}

#[test]
fn single_select_with_nothing_chosen_is_absent() {
    assert!(matches!(session_result(Outcome::<String>::Selected(vec![]), false, false), SessionResult::Empty));
}

#[test]
fn single_select_keeps_the_first_of_several() {
    match session_result(Outcome::Selected(strings(&["x", "y"])), false, false) {
        SessionResult::Single(v) => assert_eq!(v, "x"),
        _ => panic!("expected a single value"),
    }
}

#[test]
fn accept_keys_give_a_record() {
    match session_result(Outcome::SelectedWithAction("ctrl-e".to_string(), strings(&["a", "b"])), true, true) {
        SessionResult::Record { action: Some(k), selected: Chosen::All(v) } => {
            assert_eq!(k, "ctrl-e");
            assert_eq!(v, strings(&["a", "b"]));
        }
        _ => panic!("expected a record"),
    }
    match session_result(Outcome::Selected(strings(&["a", "b"])), false, true) {
        SessionResult::Record { action: None, selected: Chosen::One(v) } => assert_eq!(v, "a"),
        _ => panic!("expected a record"),
    }
    match session_result(Outcome::<String>::Selected(vec![]), false, true) {
        SessionResult::Record { action: None, selected: Chosen::Nothing } => {}
        _ => panic!("expected a record"),
    }
}

#[test]
fn action_without_accept_keys_is_a_plain_result() {
    match session_result(Outcome::SelectedWithAction("enter".to_string(), strings(&["a"])), true, false) {
        SessionResult::Many(v) => assert_eq!(v, strings(&["a"])),
        _ => panic!("expected a collection"),
    }
}

#[test]
fn requery_shows_only_the_latest_generation() {
    let mut r: Requery<String> = Requery::new();
    let x = r.query_changed();
    assert_eq!(x.interrupt, None);
    r.deliver(x.start, "x1".to_string());
    let y = r.query_changed();
    assert_eq!(y.interrupt, Some(x.start));
    assert_ne!(y.start, x.start);
    r.deliver(x.start, "x2".to_string());
    r.deliver(y.start, "y1".to_string());
    assert_eq!(r.visible, strings(&["y1"]));
}

#[test]
fn stale_items_never_appear_after_a_switch() {
    let mut r: Requery<u32> = Requery::new();
    let first = r.query_changed();
    for i in 0..5 {
        r.deliver(first.start, i);
    }
    let second = r.query_changed();
    for i in 5..10 {
        r.deliver(first.start, i);
    }
    assert!(r.visible.is_empty());
    r.deliver(second.start, 42);
    assert_eq!(r.visible, vec![42]);
}

#[test]
fn requery_lifecycle() {
    let mut r: Requery<u32> = Requery::new();
    assert_eq!(r.phase, Phase::Idle);
    let g = r.query_changed();
    assert_eq!(r.phase, Phase::Running(g.start));
    r.worker_finished(g.start + 1);
    assert_eq!(r.phase, Phase::Running(g.start));
    r.worker_finished(g.start);
    assert_eq!(r.phase, Phase::Idle);
    let h = r.query_changed();
    assert_eq!(h.interrupt, None);
    assert_eq!(r.end_session(), Some(h.start));
    assert_eq!(r.phase, Phase::Terminal);
}

#[test]
fn end_session_when_idle_interrupts_nothing() {
    let mut r: Requery<u32> = Requery::new();
    assert_eq!(r.end_session(), None);
}

#[test]
fn producer_stops_after_a_failed_send() {
    let mut p = Producer::new();
    assert!(p.may_send(false));
    assert_eq!(p.next_index(), 0);
    p.record_send(true);
    assert_eq!(p.next_index(), 1);
    p.record_send(false);
    assert!(!p.may_send(false));
    assert!(!p.may_send(true));
    assert_eq!(p.next_index(), 1);
}

#[test]
fn producer_attempts_end_at_the_first_failure() {
    let outcomes = [true, true, false, true, true];
    let mut p = Producer::new();
    let mut attempts = 0;
    for &ok in outcomes.iter() {
        if !p.may_send(false) {
            break;
        }
        attempts += 1;
        p.record_send(ok);
    }
    assert_eq!(attempts, 3);
}

#[test]
fn producer_stops_on_interrupt() {
    let mut p = Producer::new();
    assert!(!p.may_send(true));
    p.interrupt();
    assert!(!p.may_send(false));
}
