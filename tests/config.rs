use nu_plugin_skim::cli::{CliArguments, ConfigError, Flags};
use nu_plugin_skim::options::{Algorithm, CaseMode, EnvDefaults};

fn strings(v: &[&str]) -> Vec<String> {
    v.iter().map(|s| s.to_string()).collect()
}

fn no_flags() -> Flags {
    Flags {
        bind: None,
        multi: false,
        prompt: None,
        cmd_prompt: None,
        expect: None,
        tac: false,
        no_sort: false,
        tiebreak: vec![],
        exact: false,
        interactive: false,
        query: None,
        cmd_query: None,
        regex: false,
        color: None,
        margin: None,
        no_height: false,
        no_clear: false,
        no_clear_start: false,
        min_height: None,
        height: None,
        preview_window: None,
        reverse: false,
        tabstop: None,
        no_hscroll: false,
        no_mouse: false,
        inline_info: false,
        layout: None,
        algo: None,
        case: None,
        keep_right: false,
        skip_to_pattern: None,
        select1: false,
        exit0: false,
        sync: false,
        pre_select_n: None,
        pre_select_pat: None,
        pre_select_items: None,
        pre_select_file_lines: None,
        pre_select_predicate: false,
        no_clear_if_empty: false,
    }
}

fn resolve(flags: Flags, env: &str) -> Result<CliArguments, ConfigError> {
    CliArguments::new(flags, &EnvDefaults::from_options_str(env), None)
}

#[test]
fn flags_win_over_defaults() {
    let mut flags = no_flags();
    flags.prompt = Some("flag> ".to_string());
    let a = resolve(flags, "--multi --prompt=env> --height=50%").ok().unwrap();
    assert_eq!(a.prompt, Some("flag> ".to_string()));
    assert_eq!(a.height, Some("50%".to_string()));
    assert!(a.multi);
    assert!(!a.tac);
}

#[test]
fn switches_are_on_when_either_side_sets_them() {
    let mut flags = no_flags();
    flags.tac = true;
    let a = resolve(flags, "--exact").ok().unwrap();
    assert!(a.tac);
    assert!(a.exact);
    assert!(!a.sync);
}

#[test]
fn lists_fall_back_to_defaults_then_empty() {
    let a = resolve(no_flags(), "--expect=ctrl-x --bind=a:b").ok().unwrap();
    assert_eq!(a.expect, strings(&["ctrl-x"]));
    assert_eq!(a.bind, strings(&["a:b"]));
    let a = resolve(no_flags(), "").ok().unwrap();
    assert!(a.expect.is_empty());
    assert!(a.bind.is_empty());
    let mut flags = no_flags();
    flags.expect = Some(strings(&["alt-q"]));
    let a = resolve(flags, "--expect=ctrl-x").ok().unwrap();
    assert_eq!(a.expect, strings(&["alt-q"]));
}

#[test]
fn tiebreak_flags_are_canonicalised() {
    let mut flags = no_flags();
    flags.tiebreak = strings(&["Begin", "-LENGTH"]);
    let a = resolve(flags, "--tiebreak=index").ok().unwrap();
    assert_eq!(a.tiebreak, strings(&["begin", "-length"]));
    let a = resolve(no_flags(), "--tiebreak=index").ok().unwrap();
    assert_eq!(a.tiebreak, strings(&["index"]));
}

#[test]
fn unknown_tiebreak_is_an_error() {
    let mut flags = no_flags();
    flags.tiebreak = strings(&["score", "sideways", "nope"]);
    flags.algo = Some("fast".to_string());
    match resolve(flags, "") {
        Err(ConfigError::InvalidTiebreak(n)) => assert_eq!(n, "sideways"),
        _ => panic!("expected a tiebreak error"),
    }
}

#[test]
fn unknown_algorithm_is_an_error() {
    let mut flags = no_flags();
    flags.algo = Some("fast".to_string());
    flags.case = Some("upper".to_string());
    match resolve(flags, "") {
        Err(ConfigError::InvalidAlgorithm(n)) => assert_eq!(n, "fast"),
        _ => panic!("expected an algorithm error"),
    }
}

#[test]
fn unknown_case_is_an_error() {
    let mut flags = no_flags();
    flags.case = Some("upper".to_string());
    match resolve(flags, "") {
        Err(ConfigError::InvalidCase(n)) => assert_eq!(n, "upper"),
        _ => panic!("expected a case error"),
    }
}

#[test]
fn algorithm_and_case_from_either_side() {
    let mut flags = no_flags();
    flags.algo = Some("skim_v2".to_string());
    let a = resolve(flags, "--algo=clangd --case=ignore").ok().unwrap();
    assert_eq!(a.algorithm, Some(Algorithm::SkimV2));
    assert_eq!(a.case, Some(CaseMode::Ignore));
    let a = resolve(no_flags(), "").ok().unwrap();
    assert_eq!(a.algorithm, None);
    assert_eq!(a.case, None);
}

#[test]
fn pre_selection_combines_defaults_and_flags() {
    let mut flags = no_flags();
    flags.pre_select_items = Some(strings(&["c"]));
    flags.pre_select_file_lines = Some(strings(&["e"]));
    let env = EnvDefaults::from_options_str("--pre-select-n=1 --pre-select-pat=^d");
    let a = CliArguments::new(flags, &env, Some(strings(&["b"]))).ok().unwrap();
    let texts = ["a", "b", "c", "dx", "e", "f"];
    let picked: Vec<usize> = (0..texts.len())
        .filter(|&i| a.pre_select.should_select(i, texts[i], false))
        .collect();
    assert_eq!(picked, vec![0, 1, 2, 3, 4]);
}

#[test]
fn no_pre_selection_when_nothing_asks_for_it() {
    let a = resolve(no_flags(), "--multi").ok().unwrap();
    assert!(a.pre_select.is_none());
    let mut flags = no_flags();
    flags.pre_select_predicate = true;
    let a = resolve(flags, "").ok().unwrap();
    assert!(!a.pre_select.is_none());
    assert!(a.pre_select.should_select(5, "x", true));
    assert!(!a.pre_select.should_select(5, "x", false));
}

#[test]
fn session_options_apply_defaults() {
    let o = resolve(no_flags(), "").ok().unwrap().to_skim_options();
    assert_eq!(o.prompt, "");
    assert_eq!(o.margin, "0,0,0,0");
    assert_eq!(o.min_height, "10");
    assert_eq!(o.height, "100%");
    assert_eq!(o.preview_window, "right:50%");
    assert_eq!(o.tabstop, 8);
    assert_eq!(o.layout, "default");
    assert_eq!(o.cmd, "ls");
    assert!(!o.multi);
    assert!(o.no_multi);
}

#[test]
fn session_options_keep_given_values() {
    let a = resolve(no_flags(), "--multi --margin=1,2,3,4 --tabstop=4 --layout=reverse-list --height=30%")
        .ok()
        .unwrap();
    let o = a.to_skim_options();
    assert!(o.multi);
    assert!(!o.no_multi);
    assert_eq!(o.margin, "1,2,3,4");
    assert_eq!(o.tabstop, 4);
    assert_eq!(o.layout, "reverse-list");
    assert_eq!(o.height, "30%");
}

#[test]
fn reverse_switch_forces_the_reverse_layout() {
    let a = resolve(no_flags(), "--reverse --layout=default").ok().unwrap();
    assert_eq!(a.to_skim_options().layout, "reverse");
}
