use nu_plugin_skim::options::{
    Algorithm, CaseMode, EnvDefaults, ListKey, NumberKey, Switch, TextKey,
};

fn strings(v: &[&str]) -> Vec<String> {
    v.iter().map(|s| s.to_string()).collect()
}

#[test]
fn long_switches_and_values() {
    let d = EnvDefaults::from_options_str("--multi --height=40% --prompt '> ' --layout reverse");
    assert!(d.switch_on(Switch::Multi));
    assert!(!d.switch_on(Switch::Tac));
    assert_eq!(d.text(TextKey::Height), Some("40%".to_string()));
    assert_eq!(d.text(TextKey::Prompt), Some("> ".to_string()));
    assert_eq!(d.text(TextKey::Layout), Some("reverse".to_string()));
    assert_eq!(d.text(TextKey::Color), None);
}

#[test]
fn short_flags_and_query() {
    let d = EnvDefaults::from_options_str("-ei10 -qabc");
    assert!(d.switch_on(Switch::Exact));
    assert!(d.switch_on(Switch::Interactive));
    assert!(d.switch_on(Switch::Select1));
    assert!(d.switch_on(Switch::Exit0));
    assert!(!d.switch_on(Switch::Multi));
    assert_eq!(d.text(TextKey::Query), Some("abc".to_string()));
}

#[test]
fn short_query_takes_the_next_word() {
    let d = EnvDefaults::from_options_str("-mq hello --tac");
    assert!(d.switch_on(Switch::Multi));
    assert_eq!(d.text(TextKey::Query), Some("hello".to_string()));
    assert!(d.switch_on(Switch::Tac));
}

#[test]
fn flags_after_q_are_part_of_the_query() {
    let d = EnvDefaults::from_options_str("-qm");
    assert_eq!(d.text(TextKey::Query), Some("m".to_string()));
    assert!(!d.switch_on(Switch::Multi));
}

#[test]
fn double_dash_ends_the_options() {
    let d = EnvDefaults::from_options_str("--multi -- --tac");
    assert!(d.switch_on(Switch::Multi));
    assert!(!d.switch_on(Switch::Tac));
}

#[test]
fn unknown_options_and_plain_words_are_ignored() {
    let d = EnvDefaults::from_options_str("--frobnicate word --no-sort");
    assert!(d.switch_on(Switch::NoSort));
    assert_eq!(d.settings.len(), 1);
}

#[test]
fn later_values_win() {
    let d = EnvDefaults::from_options_str("--height=10 --height=20");
    assert_eq!(d.text(TextKey::Height), Some("20".to_string()));
}

#[test]
fn counts_that_do_not_parse_are_passed_over() {
    let d = EnvDefaults::from_options_str("--tabstop=4 --tabstop=x --pre-select-n +3");
    assert_eq!(d.number(NumberKey::Tabstop), Some(4));
    assert_eq!(d.number(NumberKey::PreSelectN), Some(3));
}

#[test]
fn unknown_algorithm_clears_an_earlier_one() {
    let d = EnvDefaults::from_options_str("--algo=clangd");
    assert_eq!(d.algorithm(), Some(Algorithm::Clangd));
    let d = EnvDefaults::from_options_str("--algo=clangd --algo=nope");
    assert_eq!(d.algorithm(), None);
    let d = EnvDefaults::from_options_str("--algo skim_v1 --case respect");
    assert_eq!(d.algorithm(), Some(Algorithm::SkimV1));
    assert_eq!(d.case_mode(), Some(CaseMode::Respect));
}

#[test]
fn tiebreak_names_ignore_case_and_skip_unknown() {
    let d = EnvDefaults::from_options_str("--tiebreak=Score,-INDEX,bogus,length");
    assert_eq!(d.tiebreaks(), Some(strings(&["score", "-index", "length"])));
}

#[test]
fn lists_split_on_commas_and_spaces() {
    let d = EnvDefaults::from_options_str("--expect='ctrl-x,ctrl-y alt-z' --pre-select-items a,b");
    assert_eq!(d.list(ListKey::Expect), Some(strings(&["ctrl-x", "ctrl-y", "alt-z"])));
    assert_eq!(d.list(ListKey::PreSelectItems), Some(strings(&["a", "b"])));
}

#[test]
fn bindings_split_on_commas_only() {
    let d = EnvDefaults::from_options_str("--bind 'ctrl-a:select-all, ctrl-b:abort,,'");
    assert_eq!(d.bind(), Some(strings(&["ctrl-a:select-all", "ctrl-b:abort"])));
}

#[test]
fn option_without_value_at_the_end_gives_nothing() {
    let d = EnvDefaults::from_options_str("--multi --height");
    assert!(d.switch_on(Switch::Multi));
    assert_eq!(d.text(TextKey::Height), None);
}

#[test]
fn value_word_is_used_up() {
    let d = EnvDefaults::from_options_str("--prompt --multi");
    assert_eq!(d.text(TextKey::Prompt), Some("--multi".to_string()));
    assert!(!d.switch_on(Switch::Multi));
}

#[test]
fn empty_option_string_gives_no_defaults() {
    let d = EnvDefaults::from_options_str("");
    assert_eq!(d.settings.len(), 0);
    assert!(!d.switch_on(Switch::Multi));
    assert_eq!(EnvDefaults::empty().settings.len(), 0);
}

#[test]
fn words_are_read_as_given() {
    let words = strings(&["--prompt", "a b", "-m", "--", "--tac"]);
    let d = EnvDefaults::from_words(&words);
    assert_eq!(d.text(TextKey::Prompt), Some("a b".to_string()));
    assert!(d.switch_on(Switch::Multi));
    assert!(!d.switch_on(Switch::Tac));
}

#[test]
fn quoted_words_keep_their_spaces() {
    let d = EnvDefaults::from_options_str("--query \"two words\" --color='dark,bg:0'");
    assert_eq!(d.text(TextKey::Query), Some("two words".to_string()));
    assert_eq!(d.text(TextKey::Color), Some("dark,bg:0".to_string()));
}
