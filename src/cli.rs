//! The configuration of one selection session: command-line flags merged over the
//! defaults of an option string, and the finished options handed to the matcher.
use vstd::prelude::*;

use crate::options::{
    algorithm_from_name, algorithm_named, case_from_name, case_named, env_algorithm, env_bind,
    env_case, env_list, env_number, env_switch, env_text, env_tiebreaks, rank_criterion_named,
    texts_view, tiebreak_names, Algorithm, CaseMode, EnvDefaults, ListKey, NumberKey, Switch,
    TextKey,
};
use crate::options::{copy_texts, rank_criterion_name};
use crate::selector::{Policy, PolicyView, PreSelection};

verus! {

/// The flags given on the command line, as plain values. A file named by
/// `--pre-select-file` is read by the caller, which hands over its lines.
pub struct Flags {
    /// Key bindings, each written `key:action`.
    pub bind: Option<Vec<String>>,
    pub multi: bool,
    pub prompt: Option<String>,
    pub cmd_prompt: Option<String>,
    pub expect: Option<Vec<String>>,
    pub tac: bool,
    pub no_sort: bool,
    /// Ranking criteria by name, as written.
    pub tiebreak: Vec<String>,
    pub exact: bool,
    pub interactive: bool,
    pub query: Option<String>,
    pub cmd_query: Option<String>,
    pub regex: bool,
    pub color: Option<String>,
    pub margin: Option<String>,
    pub no_height: bool,
    pub no_clear: bool,
    pub no_clear_start: bool,
    pub min_height: Option<String>,
    pub height: Option<String>,
    pub preview_window: Option<String>,
    pub reverse: bool,
    pub tabstop: Option<usize>,
    pub no_hscroll: bool,
    pub no_mouse: bool,
    pub inline_info: bool,
    pub layout: Option<String>,
    /// The algorithm by name, as written.
    pub algo: Option<String>,
    /// The case mode by name, as written.
    pub case: Option<String>,
    pub keep_right: bool,
    pub skip_to_pattern: Option<String>,
    pub select1: bool,
    pub exit0: bool,
    pub sync: bool,
    pub pre_select_n: Option<usize>,
    pub pre_select_pat: Option<String>,
    pub pre_select_items: Option<Vec<String>>,
    pub pre_select_file_lines: Option<Vec<String>>,
    /// Whether a predicate callback was given for pre-selection.
    pub pre_select_predicate: bool,
    pub no_clear_if_empty: bool,
}

/// A flag value that cannot be used; the session does not start.
pub enum ConfigError {
    /// A `--tiebreak` name that is not a ranking criterion.
    InvalidTiebreak(String),
    /// An `--algo` name that is not an algorithm.
    InvalidAlgorithm(String),
    /// A `--case` name that is not a case mode.
    InvalidCase(String),
}

/// The resolved configuration of a session.
pub struct CliArguments {
    pub bind: Vec<String>,
    pub multi: bool,
    pub prompt: Option<String>,
    pub cmd_prompt: Option<String>,
    pub expect: Vec<String>,
    pub tac: bool,
    pub no_sort: bool,
    /// Ranking criteria by canonical name.
    pub tiebreak: Vec<String>,
    pub exact: bool,
    pub interactive: bool,
    pub query: Option<String>,
    pub cmd_query: Option<String>,
    pub regex: bool,
    pub color: Option<String>,
    pub margin: Option<String>,
    pub no_height: bool,
    pub no_clear: bool,
    pub no_clear_start: bool,
    pub min_height: Option<String>,
    pub height: Option<String>,
    pub preview_window: Option<String>,
    pub reverse: bool,
    pub tabstop: Option<usize>,
    pub no_hscroll: bool,
    pub no_mouse: bool,
    pub inline_info: bool,
    pub layout: Option<String>,
    /// `None` leaves the matcher's default algorithm.
    pub algorithm: Option<Algorithm>,
    /// `None` leaves the matcher's default case mode.
    pub case: Option<CaseMode>,
    pub keep_right: bool,
    pub skip_to_pattern: Option<String>,
    pub select1: bool,
    pub exit0: bool,
    pub sync: bool,
    pub pre_select: PreSelection,
    pub no_clear_if_empty: bool,
}

pub open spec fn text_opt(o: Option<String>) -> Option<Seq<char>> {
    match o {
        Some(s) => Some(s@),
        None => None,
    }
}

pub open spec fn texts_opt(o: Option<Vec<String>>) -> Option<Seq<Seq<char>>> {
    match o {
        Some(v) => Some(texts_view(v@)),
        None => None,
    }
}

pub open spec fn or_else<A>(a: Option<A>, b: Option<A>) -> Option<A> {
    if a is Some {
        a
    } else {
        b
    }
}

pub open spec fn or_empty(a: Option<Seq<Seq<char>>>) -> Seq<Seq<char>> {
    match a {
        Some(v) => v,
        None => Seq::empty(),
    }
}

pub open spec fn policy_opt(o: Option<PolicyView>) -> Seq<PolicyView> {
    match o {
        Some(p) => seq![p],
        None => Seq::empty(),
    }
}

pub open spec fn first_n_policy(n: Option<usize>) -> Option<PolicyView> {
    match n {
        Some(n) => Some(PolicyView::FirstN(n as nat)),
        None => None,
    }
}

pub open spec fn pattern_policy(p: Option<Seq<char>>) -> Option<PolicyView> {
    match p {
        Some(p) => Some(PolicyView::Pattern(p)),
        None => None,
    }
}

pub open spec fn preset_policy(items: Option<Seq<Seq<char>>>) -> Option<PolicyView> {
    match items {
        Some(v) => Some(PolicyView::Preset(v)),
        None => None,
    }
}

/// The pre-selection policies that the defaults give: a count, a pattern, a list,
/// and the lines of a file.
pub open spec fn env_policies(
    env: Seq<crate::options::SettingView>,
    env_file_lines: Option<Vec<String>>,
) -> Seq<PolicyView> {
    policy_opt(first_n_policy(env_number(env, NumberKey::PreSelectN)))
        + policy_opt(pattern_policy(env_text(env, TextKey::PreSelectPat)))
        + policy_opt(preset_policy(env_list(env, ListKey::PreSelectItems)))
        + policy_opt(preset_policy(texts_opt(env_file_lines)))
}

/// The pre-selection policies that the flags give, in the same order, then the
/// predicate.
pub open spec fn flag_policies(flags: Flags) -> Seq<PolicyView> {
    policy_opt(first_n_policy(flags.pre_select_n))
        + policy_opt(pattern_policy(text_opt(flags.pre_select_pat)))
        + policy_opt(preset_policy(texts_opt(flags.pre_select_items)))
        + policy_opt(preset_policy(texts_opt(flags.pre_select_file_lines)))
        + (if flags.pre_select_predicate {
        seq![PolicyView::Predicate]
    } else {
        Seq::empty()
    })
}

/// The pre-selection policies of a session: those of the defaults, then those of
/// the flags. An item is pre-selected when any of them selects it.
pub open spec fn policies_for(
    flags: Flags,
    env: Seq<crate::options::SettingView>,
    env_file_lines: Option<Vec<String>>,
) -> Seq<PolicyView> {
    env_policies(env, env_file_lines) + flag_policies(flags)
}

/// The first name in `names` that is not a ranking criterion, if any.
pub open spec fn first_bad_criterion(names: Seq<Seq<char>>) -> Option<Seq<char>>
    decreases names.len(),
{
    if names.len() == 0 {
        None
    } else if rank_criterion_named(names[0]) is None {
        Some(names[0])
    } else {
        first_bad_criterion(names.drop_first())
    }
}

/// The error that resolving `flags` gives, if any: a bad tiebreak name first, then
/// a bad algorithm name, then a bad case name.
pub open spec fn config_error(flags: Flags) -> Option<(nat, Seq<char>)> {
    match first_bad_criterion(texts_view(flags.tiebreak@)) {
        Some(n) => Some((0, n)),
        None => match flags.algo {
            Some(a) if algorithm_named(a@) is None => Some((1, a@)),
            _ => match flags.case {
                Some(c) if case_named(c@) is None => Some((2, c@)),
                _ => None,
            },
        },
    }
}

pub open spec fn error_code(e: ConfigError) -> (nat, Seq<char>) {
    match e {
        ConfigError::InvalidTiebreak(n) => (0, n@),
        ConfigError::InvalidAlgorithm(n) => (1, n@),
        ConfigError::InvalidCase(n) => (2, n@),
    }
}

fn first_some<A>(a: Option<A>, b: Option<A>) -> (r: Option<A>)
    ensures
        r == or_else(a, b),
{
    match a {
        Some(x) => Some(x),
        None => b,
    }
}

fn texts_or_empty(o: Option<Vec<String>>) -> (r: Vec<String>)
    ensures
        texts_view(r@) == or_empty(texts_opt(o)),
{
    match o {
        Some(v) => v,
        None => {
            let v: Vec<String> = Vec::new();
            assert(texts_view(v@) =~= Seq::<Seq<char>>::empty());
            v
        },
    }
}

/// The canonical names of the ranking criteria named by `names`, or the first name
/// that is not one.
fn flag_tiebreaks(names: &Vec<String>) -> (r: Result<Vec<String>, String>)
    ensures
        r matches Ok(v) ==> first_bad_criterion(texts_view(names@)) is None && texts_view(v@)
            == tiebreak_names(texts_view(names@)),
        r matches Err(n) ==> first_bad_criterion(texts_view(names@)) == Some(n@),
{
    let ghost all = texts_view(names@);
    let mut out: Vec<String> = Vec::new();
    let mut i: usize = 0;
    assert(all.skip(0) =~= all);
    while i < names.len()
        invariant
            i <= names@.len(),
            all == texts_view(names@),
            first_bad_criterion(all) == first_bad_criterion(all.skip(i as int)),
            texts_view(out@) == tiebreak_names(all.take(i as int)),
        decreases names.len() - i,
    {
        assert(all.skip(i as int)[0] == names@[i as int]@);
        assert(all.skip(i as int).drop_first() =~= all.skip(i + 1));
        assert(all.take(i + 1).drop_last() =~= all.take(i as int));
        assert(all.take(i + 1).last() == names@[i as int]@);
        let ghost before = out@;
        match rank_criterion_name(names[i].as_str()) {
            Some(n) => {
                out.push(n);
                assert(texts_view(out@) =~= texts_view(before).push(out@.last()@));
            },
            None => {
                return Err(names[i].clone());
            },
        }
        i = i + 1;
    }
    assert(all.take(i as int) =~= all);
    assert(all.skip(i as int) =~= Seq::<Seq<char>>::empty());
    Ok(out)
}

fn push_policy(ps: &mut PreSelection, p: Option<Policy>)
    ensures
        p matches Some(x) ==> final(ps)@ == old(ps)@.push(x@),
        p is None ==> final(ps)@ == old(ps)@,
{
    match p {
        Some(x) => ps.add(x),
        None => {},
    }
}

fn first_n_of(n: Option<usize>) -> (r: Option<Policy>)
    ensures
        r matches Some(x) ==> first_n_policy(n) == Some(x@),
        r is None ==> first_n_policy(n) is None,
{
    match n {
        Some(n) => Some(Policy::FirstN(n)),
        None => None,
    }
}

fn pattern_of(p: Option<String>) -> (r: Option<Policy>)
    ensures
        r matches Some(x) ==> pattern_policy(text_opt(p)) == Some(x@),
        r is None ==> pattern_policy(text_opt(p)) is None,
{
    match p {
        Some(p) => Some(Policy::Pattern(p)),
        None => None,
    }
}

fn preset_of(items: Option<Vec<String>>) -> (r: Option<Policy>)
    ensures
        r matches Some(x) ==> preset_policy(texts_opt(items)) == Some(x@),
        r is None ==> preset_policy(texts_opt(items)) is None,
{
    match items {
        Some(v) => Some(Policy::Preset(v)),
        None => None,
    }
}

proof fn lemma_push_opt(s: Seq<PolicyView>, o: Option<PolicyView>)
    ensures
        (match o {
            Some(x) => s.push(x),
            None => s,
        }) == s + policy_opt(o),
{
    match o {
        Some(x) => assert(s.push(x) =~= s + seq![x]),
        None => assert(s + Seq::<PolicyView>::empty() =~= s),
    }
}

fn env_pre_selection(env: &EnvDefaults, env_file_lines: Option<Vec<String>>) -> (r: PreSelection)
    ensures
        r@ == env_policies(env@, env_file_lines),
{
    let mut ps = PreSelection::none();
    let ghost s0 = ps@;
    push_policy(&mut ps, first_n_of(env.number(NumberKey::PreSelectN)));
    proof { lemma_push_opt(s0, first_n_policy(env_number(env@, NumberKey::PreSelectN))); }
    let ghost s1 = ps@;
    push_policy(&mut ps, pattern_of(env.text(TextKey::PreSelectPat)));
    proof { lemma_push_opt(s1, pattern_policy(env_text(env@, TextKey::PreSelectPat))); }
    let ghost s2 = ps@;
    push_policy(&mut ps, preset_of(env.list(ListKey::PreSelectItems)));
    proof { lemma_push_opt(s2, preset_policy(env_list(env@, ListKey::PreSelectItems))); }
    let ghost s3 = ps@;
    push_policy(&mut ps, preset_of(env_file_lines));
    proof { lemma_push_opt(s3, preset_policy(texts_opt(env_file_lines))); }
    assert(s0 + policy_opt(first_n_policy(env_number(env@, NumberKey::PreSelectN)))
        =~= policy_opt(first_n_policy(env_number(env@, NumberKey::PreSelectN))));
    ps
}

fn flag_pre_selection(flags: &Flags) -> (r: PreSelection)
    ensures
        r@ == flag_policies(*flags),
{
    let mut ps = PreSelection::none();
    let ghost s0 = ps@;
    push_policy(&mut ps, first_n_of(flags.pre_select_n));
    proof { lemma_push_opt(s0, first_n_policy(flags.pre_select_n)); }
    let ghost s1 = ps@;
    push_policy(&mut ps, pattern_of(flags.pre_select_pat.clone()));
    proof { lemma_push_opt(s1, pattern_policy(text_opt(flags.pre_select_pat))); }
    let ghost s2 = ps@;
    push_policy(&mut ps, preset_of(clone_texts_opt(&flags.pre_select_items)));
    proof { lemma_push_opt(s2, preset_policy(texts_opt(flags.pre_select_items))); }
    let ghost s3 = ps@;
    push_policy(&mut ps, preset_of(clone_texts_opt(&flags.pre_select_file_lines)));
    proof { lemma_push_opt(s3, preset_policy(texts_opt(flags.pre_select_file_lines))); }
    let ghost s4 = ps@;
    if flags.pre_select_predicate {
        ps.add(Policy::Predicate);
        assert(s4.push(PolicyView::Predicate) =~= s4 + seq![PolicyView::Predicate]);
    } else {
        assert(s4 + Seq::<PolicyView>::empty() =~= s4);
    }
    assert(s0 + policy_opt(first_n_policy(flags.pre_select_n)) =~= policy_opt(
        first_n_policy(flags.pre_select_n),
    ));
    ps
}

/// The pre-selection of a session, in the order that [`policies_for`] gives.
fn build_pre_selection(flags: &Flags, env: &EnvDefaults, env_file_lines: Option<Vec<String>>) -> (r:
    PreSelection)
    ensures
        r@ == policies_for(*flags, env@, env_file_lines),
{
    PreSelection::compose(env_pre_selection(env, env_file_lines), flag_pre_selection(flags))
}

fn clone_texts_opt(o: &Option<Vec<String>>) -> (r: Option<Vec<String>>)
    ensures
        texts_opt(r) == texts_opt(*o),
{
    match o {
        Some(v) => Some(copy_texts(v)),
        None => None,
    }
}

/// What resolving `flags` over the defaults `env` gives, field by field: a flag
/// that was given wins over the default, a switch is on when either turns it on,
/// and lists fall back to empty.
pub open spec fn resolved(
    a: CliArguments,
    flags: Flags,
    env: Seq<crate::options::SettingView>,
    env_file_lines: Option<Vec<String>>,
) -> bool {
    &&& texts_view(a.bind@) == (match texts_opt(flags.bind) {
        Some(b) => b,
        None => or_empty(env_bind(env)),
    })
    &&& a.multi == (flags.multi || env_switch(env, Switch::Multi))
    &&& text_opt(a.prompt) == or_else(text_opt(flags.prompt), env_text(env, TextKey::Prompt))
    &&& text_opt(a.cmd_prompt) == or_else(text_opt(flags.cmd_prompt), env_text(env, TextKey::CmdPrompt))
    &&& texts_view(a.expect@) == (match texts_opt(flags.expect) {
        Some(b) => b,
        None => or_empty(env_list(env, ListKey::Expect)),
    })
    &&& a.tac == (flags.tac || env_switch(env, Switch::Tac))
    &&& a.no_sort == (flags.no_sort || env_switch(env, Switch::NoSort))
    &&& texts_view(a.tiebreak@) == (if flags.tiebreak@.len() == 0 {
        or_empty(env_tiebreaks(env))
    } else {
        tiebreak_names(texts_view(flags.tiebreak@))
    })
    &&& a.exact == (flags.exact || env_switch(env, Switch::Exact))
    &&& a.interactive == (flags.interactive || env_switch(env, Switch::Interactive))
    &&& text_opt(a.query) == or_else(text_opt(flags.query), env_text(env, TextKey::Query))
    &&& text_opt(a.cmd_query) == or_else(text_opt(flags.cmd_query), env_text(env, TextKey::CmdQuery))
    &&& a.regex == (flags.regex || env_switch(env, Switch::Regex))
    &&& text_opt(a.color) == or_else(text_opt(flags.color), env_text(env, TextKey::Color))
    &&& text_opt(a.margin) == or_else(text_opt(flags.margin), env_text(env, TextKey::Margin))
    &&& a.no_height == (flags.no_height || env_switch(env, Switch::NoHeight))
    &&& a.no_clear == (flags.no_clear || env_switch(env, Switch::NoClear))
    &&& a.no_clear_start == (flags.no_clear_start || env_switch(env, Switch::NoClearStart))
    &&& text_opt(a.min_height) == or_else(text_opt(flags.min_height), env_text(env, TextKey::MinHeight))
    &&& text_opt(a.height) == or_else(text_opt(flags.height), env_text(env, TextKey::Height))
    &&& text_opt(a.preview_window) == or_else(
        text_opt(flags.preview_window),
        env_text(env, TextKey::PreviewWindow),
    )
    &&& a.reverse == (flags.reverse || env_switch(env, Switch::Reverse))
    &&& a.tabstop == or_else(flags.tabstop, env_number(env, NumberKey::Tabstop))
    &&& a.no_hscroll == (flags.no_hscroll || env_switch(env, Switch::NoHscroll))
    &&& a.no_mouse == (flags.no_mouse || env_switch(env, Switch::NoMouse))
    &&& a.inline_info == (flags.inline_info || env_switch(env, Switch::InlineInfo))
    &&& text_opt(a.layout) == or_else(text_opt(flags.layout), env_text(env, TextKey::Layout))
    &&& a.algorithm == (match flags.algo {
        Some(v) => algorithm_named(v@),
        None => env_algorithm(env),
    })
    &&& a.case == (match flags.case {
        Some(v) => case_named(v@),
        None => env_case(env),
    })
    &&& a.keep_right == (flags.keep_right || env_switch(env, Switch::KeepRight))
    &&& text_opt(a.skip_to_pattern) == or_else(
        text_opt(flags.skip_to_pattern),
        env_text(env, TextKey::SkipToPattern),
    )
    &&& a.select1 == (flags.select1 || env_switch(env, Switch::Select1))
    &&& a.exit0 == (flags.exit0 || env_switch(env, Switch::Exit0))
    &&& a.sync == (flags.sync || env_switch(env, Switch::Sync))
    &&& a.pre_select@ == policies_for(flags, env, env_file_lines)
    &&& a.no_clear_if_empty == (flags.no_clear_if_empty || env_switch(env, Switch::NoClearIfEmpty))
}

fn text_or(a: Option<String>, env: &EnvDefaults, k: TextKey) -> (r: Option<String>)
    ensures
        text_opt(r) == or_else(text_opt(a), env_text(env@, k)),
{
    match a {
        Some(v) => Some(v),
        None => env.text(k),
    }
}

fn switch_or(a: bool, env: &EnvDefaults, sw: Switch) -> (r: bool)
    ensures
        r == (a || env_switch(env@, sw)),
{
    a || env.switch_on(sw)
}

fn list_or(a: Option<Vec<String>>, env_value: Option<Vec<String>>) -> (r: Vec<String>)
    ensures
        texts_view(r@) == (match texts_opt(a) {
            Some(b) => b,
            None => or_empty(texts_opt(env_value)),
        }),
{
    match a {
        Some(v) => v,
        None => texts_or_empty(env_value),
    }
}

/// The three choices that flags can get wrong, checked: the ranking criteria by
/// canonical name, the algorithm and the case mode, each falling back on the
/// defaults when the flag was not given.
fn check_flags(flags: &Flags, env: &EnvDefaults) -> (r: Result<
    (Vec<String>, Option<Algorithm>, Option<CaseMode>),
    ConfigError,
>)
    ensures
        r is Err <==> config_error(*flags) is Some,
        r matches Err(e) ==> config_error(*flags) == Some(error_code(e)),
        r matches Ok(c) ==> {
            &&& texts_view(c.0@) == (if flags.tiebreak@.len() == 0 {
                or_empty(env_tiebreaks(env@))
            } else {
                tiebreak_names(texts_view(flags.tiebreak@))
            })
            &&& c.1 == (match flags.algo {
                Some(v) => algorithm_named(v@),
                None => env_algorithm(env@),
            })
            &&& c.2 == (match flags.case {
                Some(v) => case_named(v@),
                None => env_case(env@),
            })
        },
{
    let tiebreak = match flag_tiebreaks(&flags.tiebreak) {
        Ok(v) => v,
        Err(n) => {
            return Err(ConfigError::InvalidTiebreak(n));
        },
    };
    let algorithm = match &flags.algo {
        Some(v) => match algorithm_from_name(v.as_str()) {
            Some(a) => Some(a),
            None => {
                return Err(ConfigError::InvalidAlgorithm(v.clone()));
            },
        },
        None => env.algorithm(),
    };
    let case = match &flags.case {
        Some(v) => match case_from_name(v.as_str()) {
            Some(c) => Some(c),
            None => {
                return Err(ConfigError::InvalidCase(v.clone()));
            },
        },
        None => env.case_mode(),
    };
    let tiebreak = if flags.tiebreak.len() == 0 {
        texts_or_empty(env.tiebreaks())
    } else {
        tiebreak
    };
    Ok((tiebreak, algorithm, case))
}

/// The configuration from `flags` over `env`, given the checked choices.
fn assemble(
    flags: Flags,
    env: &EnvDefaults,
    tiebreak: Vec<String>,
    algorithm: Option<Algorithm>,
    case: Option<CaseMode>,
    pre_select: PreSelection,
    env_file_lines: Ghost<Option<Vec<String>>>,
) -> (a: CliArguments)
    requires
        texts_view(tiebreak@) == (if flags.tiebreak@.len() == 0 {
            or_empty(env_tiebreaks(env@))
        } else {
            tiebreak_names(texts_view(flags.tiebreak@))
        }),
        algorithm == (match flags.algo {
            Some(v) => algorithm_named(v@),
            None => env_algorithm(env@),
        }),
        case == (match flags.case {
            Some(v) => case_named(v@),
            None => env_case(env@),
        }),
        pre_select@ == policies_for(flags, env@, env_file_lines@),
    ensures
        resolved(a, flags, env@, env_file_lines@),
{
        let Flags {
            bind,
            multi,
            prompt,
            cmd_prompt,
            expect,
            tac,
            no_sort,
            tiebreak: _,
            exact,
            interactive,
            query,
            cmd_query,
            regex,
            color,
            margin,
            no_height,
            no_clear,
            no_clear_start,
            min_height,
            height,
            preview_window,
            reverse,
            tabstop,
            no_hscroll,
            no_mouse,
            inline_info,
            layout,
            algo: _,
            case: _,
            keep_right,
            skip_to_pattern,
            select1,
            exit0,
            sync,
            pre_select_n: _,
            pre_select_pat: _,
            pre_select_items: _,
            pre_select_file_lines: _,
            pre_select_predicate: _,
            no_clear_if_empty,
        } = flags;
        let a = CliArguments {
            bind: list_or(bind, env.bind()),
            multi: switch_or(multi, env, Switch::Multi),
            prompt: text_or(prompt, env, TextKey::Prompt),
            cmd_prompt: text_or(cmd_prompt, env, TextKey::CmdPrompt),
            expect: list_or(expect, env.list(ListKey::Expect)),
            tac: switch_or(tac, env, Switch::Tac),
            no_sort: switch_or(no_sort, env, Switch::NoSort),
            tiebreak,
            exact: switch_or(exact, env, Switch::Exact),
            interactive: switch_or(interactive, env, Switch::Interactive),
            query: text_or(query, env, TextKey::Query),
            cmd_query: text_or(cmd_query, env, TextKey::CmdQuery),
            regex: switch_or(regex, env, Switch::Regex),
            color: text_or(color, env, TextKey::Color),
            margin: text_or(margin, env, TextKey::Margin),
            no_height: switch_or(no_height, env, Switch::NoHeight),
            no_clear: switch_or(no_clear, env, Switch::NoClear),
            no_clear_start: switch_or(no_clear_start, env, Switch::NoClearStart),
            min_height: text_or(min_height, env, TextKey::MinHeight),
            height: text_or(height, env, TextKey::Height),
            preview_window: text_or(preview_window, env, TextKey::PreviewWindow),
            reverse: switch_or(reverse, env, Switch::Reverse),
            tabstop: first_some(tabstop, env.number(NumberKey::Tabstop)),
            no_hscroll: switch_or(no_hscroll, env, Switch::NoHscroll),
            no_mouse: switch_or(no_mouse, env, Switch::NoMouse),
            inline_info: switch_or(inline_info, env, Switch::InlineInfo),
            layout: text_or(layout, env, TextKey::Layout),
            algorithm,
            case,
            keep_right: switch_or(keep_right, env, Switch::KeepRight),
            skip_to_pattern: text_or(skip_to_pattern, env, TextKey::SkipToPattern),
            select1: switch_or(select1, env, Switch::Select1),
            exit0: switch_or(exit0, env, Switch::Exit0),
            sync: switch_or(sync, env, Switch::Sync),
            pre_select,
            no_clear_if_empty: switch_or(no_clear_if_empty, env, Switch::NoClearIfEmpty),
        };
        a
}

impl CliArguments {
    /// Resolves the flags of a call over the defaults `env`; `env_file_lines` are the
    /// lines of the file that the defaults name for pre-selection, read by the
    /// caller. An unknown tiebreak, algorithm or case name is an error, reported in
    /// that order.
    pub fn new(flags: Flags, env: &EnvDefaults, env_file_lines: Option<Vec<String>>) -> (r:
        Result<CliArguments, ConfigError>)
        ensures
            r is Err <==> config_error(flags) is Some,
            r matches Err(e) ==> config_error(flags) == Some(error_code(e)),
            r matches Ok(a) ==> resolved(a, flags, env@, env_file_lines),
    {
        let (tiebreak, algorithm, case) = match check_flags(&flags, env) {
            Ok(c) => c,
            Err(e) => {
                return Err(e);
            },
        };
        let ghost lines = env_file_lines;
        let pre_select = build_pre_selection(&flags, env, env_file_lines);
        Ok(assemble(flags, env, tiebreak, algorithm, case, pre_select, Ghost(lines)))
    }
}

/// The options handed to the matcher for one session, with every default applied.
pub struct SessionOptions {
    pub bind: Vec<String>,
    pub multi: bool,
    pub no_multi: bool,
    pub prompt: String,
    pub cmd_prompt: String,
    pub expect: Vec<String>,
    pub tac: bool,
    pub no_sort: bool,
    pub tiebreak: Vec<String>,
    pub exact: bool,
    /// The command that interactive mode starts from; the requery callback replaces
    /// what it would run.
    pub cmd: String,
    pub interactive: bool,
    pub query: Option<String>,
    pub cmd_query: Option<String>,
    pub regex: bool,
    pub color: Option<String>,
    pub margin: String,
    pub no_height: bool,
    pub no_clear: bool,
    pub no_clear_start: bool,
    pub min_height: String,
    pub height: String,
    pub preview_window: String,
    pub reverse: bool,
    pub tabstop: usize,
    pub no_hscroll: bool,
    pub no_mouse: bool,
    pub inline_info: bool,
    pub layout: String,
    pub algorithm: Option<Algorithm>,
    pub case: Option<CaseMode>,
    pub keep_right: bool,
    pub skip_to_pattern: Option<String>,
    pub select_1: bool,
    pub exit_0: bool,
    pub sync: bool,
    pub no_clear_if_empty: bool,
}

pub open spec fn text_or_default(o: Option<String>, d: Seq<char>) -> Seq<char> {
    match o {
        Some(s) => s@,
        None => d,
    }
}

fn copy_text_opt(o: &Option<String>) -> (r: Option<String>)
    ensures
        r == *o,
{
    match o {
        Some(s) => Some(s.clone()),
        None => None,
    }
}

fn text_or_literal(o: &Option<String>, d: &str) -> (r: String)
    ensures
        r@ == text_or_default(*o, d@),
{
    match o {
        Some(s) => s.clone(),
        None => d.to_owned(),
    }
}

impl CliArguments {
    /// The matcher's options for this configuration. Absent texts take their
    /// defaults: an empty prompt, margin `0,0,0,0`, minimum height `10`, height
    /// `100%`, preview window `right:50%`, tab stop 8, and layout `default`; the
    /// reverse switch forces layout `reverse`.
    pub fn to_skim_options(&self) -> (r: SessionOptions)
        ensures
            r.bind@ == self.bind@,
            r.multi == self.multi,
            r.no_multi == !self.multi,
            r.prompt@ == text_or_default(self.prompt, Seq::empty()),
            r.cmd_prompt@ == text_or_default(self.cmd_prompt, Seq::empty()),
            r.expect@ == self.expect@,
            r.tac == self.tac,
            r.no_sort == self.no_sort,
            r.tiebreak@ == self.tiebreak@,
            r.exact == self.exact,
            r.cmd@ == "ls"@,
            r.interactive == self.interactive,
            r.query == self.query,
            r.cmd_query == self.cmd_query,
            r.regex == self.regex,
            r.color == self.color,
            r.margin@ == text_or_default(self.margin, "0,0,0,0"@),
            r.no_height == self.no_height,
            r.no_clear == self.no_clear,
            r.no_clear_start == self.no_clear_start,
            r.min_height@ == text_or_default(self.min_height, "10"@),
            r.height@ == text_or_default(self.height, "100%"@),
            r.preview_window@ == text_or_default(self.preview_window, "right:50%"@),
            r.reverse == self.reverse,
            r.tabstop == (match self.tabstop {
                Some(t) => t,
                None => 8,
            }),
            r.no_hscroll == self.no_hscroll,
            r.no_mouse == self.no_mouse,
            r.inline_info == self.inline_info,
            r.layout@ == (if self.reverse {
                "reverse"@
            } else {
                text_or_default(self.layout, "default"@)
            }),
            r.algorithm == self.algorithm,
            r.case == self.case,
            r.keep_right == self.keep_right,
            r.skip_to_pattern == self.skip_to_pattern,
            r.select_1 == self.select1,
            r.exit_0 == self.exit0,
            r.sync == self.sync,
            r.no_clear_if_empty == self.no_clear_if_empty,
    {
        proof {
            reveal_strlit("");
        }
        SessionOptions {
            bind: copy_texts(&self.bind),
            multi: self.multi,
            no_multi: !self.multi,
            prompt: text_or_literal(&self.prompt, ""),
            cmd_prompt: text_or_literal(&self.cmd_prompt, ""),
            expect: copy_texts(&self.expect),
            tac: self.tac,
            no_sort: self.no_sort,
            tiebreak: copy_texts(&self.tiebreak),
            exact: self.exact,
            cmd: "ls".to_owned(),
            interactive: self.interactive,
            query: copy_text_opt(&self.query),
            cmd_query: copy_text_opt(&self.cmd_query),
            regex: self.regex,
            color: copy_text_opt(&self.color),
            margin: text_or_literal(&self.margin, "0,0,0,0"),
            no_height: self.no_height,
            no_clear: self.no_clear,
            no_clear_start: self.no_clear_start,
            min_height: text_or_literal(&self.min_height, "10"),
            height: text_or_literal(&self.height, "100%"),
            preview_window: text_or_literal(&self.preview_window, "right:50%"),
            reverse: self.reverse,
            tabstop: match self.tabstop {
                Some(t) => t,
                None => 8,
            },
            no_hscroll: self.no_hscroll,
            no_mouse: self.no_mouse,
            inline_info: self.inline_info,
            layout: if self.reverse {
                "reverse".to_owned()
            } else {
                text_or_literal(&self.layout, "default")
            },
            algorithm: self.algorithm,
            case: self.case,
            keep_right: self.keep_right,
            skip_to_pattern: copy_text_opt(&self.skip_to_pattern),
            select_1: self.select1,
            exit_0: self.exit0,
            sync: self.sync,
            no_clear_if_empty: self.no_clear_if_empty,
        }
    }
}

} // verus!
