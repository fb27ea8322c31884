use nu_plugin_skim::selector::{Policy, PreSelection, PredicateResult};

fn strings(v: &[&str]) -> Vec<String> {
    v.iter().map(|s| s.to_string()).collect()
}

fn of(policies: Vec<Policy>) -> PreSelection {
    PreSelection { policies }
}

fn selected(p: &PreSelection, texts: &[&str], verdicts: &[bool]) -> Vec<usize> {
    (0..texts.len())
        .filter(|&i| p.should_select(i, texts[i], verdicts[i]))
        .collect()
}

#[test]
fn first_n_selects_the_first_indices() {
    let texts = ["a", "b", "c", "d", "e"];
    let p = of(vec![Policy::FirstN(2)]);
    assert_eq!(selected(&p, &texts, &[false; 5]), vec![0, 1]);
}

#[test]
fn first_n_larger_than_the_source_selects_everything() {
    let texts = ["a", "b", "c"];
    let p = of(vec![Policy::FirstN(10)]);
    assert_eq!(selected(&p, &texts, &[false; 3]), vec![0, 1, 2]);
    let p = of(vec![Policy::FirstN(0)]);
    assert_eq!(selected(&p, &texts, &[false; 3]), Vec::<usize>::new());
}

#[test]
fn pattern_selects_by_display_text_only() {
    let texts = ["alpha", "beta", "bb", "abc"];
    let p = of(vec![Policy::Pattern("^b".to_string())]);
    assert_eq!(selected(&p, &texts, &[true; 4]), vec![1, 2]);
    assert!(p.should_select(0, "beta", false));
    assert!(p.should_select(99, "beta", true));
}

#[test]
fn empty_or_invalid_pattern_selects_nothing() {
    let texts = ["alpha", ""];
    assert_eq!(selected(&of(vec![Policy::Pattern(String::new())]), &texts, &[false; 2]), Vec::<usize>::new());
    assert_eq!(selected(&of(vec![Policy::Pattern("(".to_string())]), &texts, &[false; 2]), Vec::<usize>::new());
}

#[test]
fn preset_selects_listed_texts() {
    let texts = ["a", "b", "c", "d"];
    let p = of(vec![Policy::Preset(strings(&["c", "a", "zz"]))]);
    assert_eq!(selected(&p, &texts, &[false; 4]), vec![0, 2]);
}

#[test]
fn predicate_follows_the_verdict() {
    let p = of(vec![Policy::Predicate]);
    assert_eq!(selected(&p, &["a", "b", "c"], &[true, false, true]), vec![0, 2]);
    assert!(PredicateResult::Boolean(true).verdict());
    assert!(!PredicateResult::Boolean(false).verdict());
    assert!(!PredicateResult::Other.verdict());
    assert!(!PredicateResult::Failed.verdict());
}

#[test]
fn composition_is_any_of() {
    let texts = ["a", "b", "c", "d"];
    let p = of(vec![
        Policy::FirstN(1),
        Policy::Pattern("b".to_string()),
        Policy::Preset(strings(&["c"])),
    ]);
    assert_eq!(selected(&p, &texts, &[false; 4]), vec![0, 1, 2]);
}

#[test]
fn composition_commutes() {
    let texts = ["x", "yy", "zzz", "w", "yy"];
    let verdicts = [false, false, true, false, false];
    let make_a = || of(vec![Policy::FirstN(1), Policy::Preset(strings(&["w"]))]);
    let make_b = || of(vec![Policy::Pattern("^y".to_string()), Policy::Predicate]);
    let ab = PreSelection::compose(make_a(), make_b());
    let ba = PreSelection::compose(make_b(), make_a());
    assert_eq!(selected(&ab, &texts, &verdicts), selected(&ba, &texts, &verdicts));
    assert_eq!(selected(&ab, &texts, &verdicts), vec![0, 1, 2, 3, 4]);
}

#[test]
fn no_policy_is_distinct_from_a_policy_that_selects_nothing() {
    let none = PreSelection::none();
    let never = of(vec![Policy::FirstN(0)]);
    assert!(none.is_none());
    assert!(!never.is_none());
    assert!(!none.should_select(0, "a", true));
    assert!(!never.should_select(0, "a", true));
}

#[test]
fn add_appends_a_policy() {
    let mut p = PreSelection::none();
    p.add(Policy::Preset(strings(&["b"])));
    assert!(!p.is_none());
    assert_eq!(selected(&p, &["a", "b"], &[false; 2]), vec![1]);
}

#[test]
fn decisions_from_given_pattern_answers() {
    let p = of(vec![Policy::Pattern("^q".to_string()), Policy::FirstN(1)]);
    assert!(p.should_select_given(5, "anything", false, &vec![true, false]));
    assert!(!p.should_select_given(5, "qq", false, &vec![false, false]));
    assert!(p.should_select_given(0, "zz", false, &vec![false, false]));
}

#[test]
fn pattern_answers_come_from_the_expressions() {
    let p = of(vec![
        Policy::Pattern("^q".to_string()),
        Policy::FirstN(3),
        Policy::Pattern("z$".to_string()),
    ]);
    assert_eq!(p.pattern_hits("quiz"), vec![true, false, true]);
    assert_eq!(p.pattern_hits("abc"), vec![false, false, false]);
}
