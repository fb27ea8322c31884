//! Defaults read from an option string in the style of a command line
//! (`--multi --height=40% -q foo`), as skim's `SKIM_DEFAULT_OPTIONS` holds them.
use vstd::prelude::*;

use crate::text::{
    comma_entries, digits_value, list_fields, parse_usize, parses_as_usize, same_text,
    split_comma_entries, split_csv_like, unsigned_digits,
};

verus! {

/// An option without a value: naming it turns it on.
#[derive(Clone, Copy, PartialEq, Eq, Structural, Debug)]
pub enum Switch {
    Multi,
    Tac,
    NoSort,
    Exact,
    Interactive,
    Regex,
    NoHeight,
    NoClear,
    NoClearStart,
    Reverse,
    NoHscroll,
    NoMouse,
    InlineInfo,
    KeepRight,
    Select1,
    Exit0,
    Sync,
    NoClearIfEmpty,
}

/// An option whose value is kept as text.
#[derive(Clone, Copy, PartialEq, Eq, Structural, Debug)]
pub enum TextKey {
    Prompt,
    CmdPrompt,
    Query,
    CmdQuery,
    Color,
    Margin,
    MinHeight,
    Height,
    PreviewWindow,
    Layout,
    SkipToPattern,
    PreSelectPat,
    PreSelectFile,
}

/// An option whose value is a count.
#[derive(Clone, Copy, PartialEq, Eq, Structural, Debug)]
pub enum NumberKey {
    Tabstop,
    PreSelectN,
}

/// An option whose value is a comma- or space-separated list.
#[derive(Clone, Copy, PartialEq, Eq, Structural, Debug)]
pub enum ListKey {
    Expect,
    PreSelectItems,
}

/// The fuzzy matching algorithm to use.
#[derive(Clone, Copy, PartialEq, Eq, Structural, Debug)]
pub enum Algorithm {
    SkimV1,
    SkimV2,
    Clangd,
}

/// How letter case takes part in matching.
#[derive(Clone, Copy, PartialEq, Eq, Structural, Debug)]
pub enum CaseMode {
    Smart,
    Ignore,
    Respect,
}

/// What a long option name stands for.
#[derive(Clone, Copy, PartialEq, Eq, Structural, Debug)]
pub enum OptionKind {
    Flag(Switch),
    Text(TextKey),
    Number(NumberKey),
    Algo,
    Case,
    List(ListKey),
    Tiebreaks,
    Bind,
}

/// One default read from the option string.
pub enum Setting {
    On(Switch),
    Text(TextKey, String),
    Number(NumberKey, usize),
    /// The named algorithm, or `None` for a name that is not known.
    Algo(Option<Algorithm>),
    /// The named case mode, or `None` for a name that is not known.
    Case(Option<CaseMode>),
    List(ListKey, Vec<String>),
    /// Canonical names of the ranking criteria that were recognised, in order.
    Tiebreaks(Vec<String>),
    Bind(Vec<String>),
}

/// A [`Setting`] with its text as character sequences.
pub enum SettingView {
    On(Switch),
    Text(TextKey, Seq<char>),
    Number(NumberKey, usize),
    Algo(Option<Algorithm>),
    Case(Option<CaseMode>),
    List(ListKey, Seq<Seq<char>>),
    Tiebreaks(Seq<Seq<char>>),
    Bind(Seq<Seq<char>>),
}

pub open spec fn texts_view(v: Seq<String>) -> Seq<Seq<char>> {
    v.map_values(|s: String| s@)
}

impl View for Setting {
    type V = SettingView;

    open spec fn view(&self) -> SettingView {
        match self {
            Setting::On(s) => SettingView::On(*s),
            Setting::Text(k, v) => SettingView::Text(*k, v@),
            Setting::Number(k, n) => SettingView::Number(*k, *n),
            Setting::Algo(a) => SettingView::Algo(*a),
            Setting::Case(c) => SettingView::Case(*c),
            Setting::List(k, v) => SettingView::List(*k, texts_view(v@)),
            Setting::Tiebreaks(v) => SettingView::Tiebreaks(texts_view(v@)),
            Setting::Bind(v) => SettingView::Bind(texts_view(v@)),
        }
    }
}

pub open spec fn settings_view(v: Seq<Setting>) -> Seq<SettingView> {
    v.map_values(|s: Setting| s@)
}

/// The words of `s` split with POSIX shell quoting rules, as shlex gives them.
pub uninterp spec fn shell_words(s: Seq<char>) -> Seq<Seq<char>>;

/// Relies on `shlex::Shlex`: the words of `s` under shell quoting rules.
#[verifier::external_body]
fn shell_split(s: &str) -> (r: Vec<String>)
    ensures
        texts_view(r@) == shell_words(s@),
{
    shlex::Shlex::new(s).collect()
}

/// `c` with an ASCII capital letter turned to lower case.
pub open spec fn ascii_lower_char(c: char) -> char {
    if 'A' <= c && c <= 'Z' {
        ((c as u32) + 32) as char
    } else {
        c
    }
}

pub open spec fn ascii_lower(s: Seq<char>) -> Seq<char> {
    s.map_values(|c: char| ascii_lower_char(c))
}

/// Whether `name` is the name of one of skim's ranking criteria.
pub open spec fn is_rank_criterion(name: Seq<char>) -> bool {
    name == "score"@ || name == "-score"@ || name == "begin"@ || name == "-begin"@
        || name == "end"@ || name == "-end"@ || name == "length"@ || name == "-length"@
        || name == "index"@ || name == "-index"@ || name == "pathname"@ || name == "-pathname"@
}

/// The canonical name of the ranking criterion that `s` names, ASCII case ignored.
pub open spec fn rank_criterion_named(s: Seq<char>) -> Option<Seq<char>> {
    if is_rank_criterion(ascii_lower(s)) {
        Some(ascii_lower(s))
    } else {
        None
    }
}

/// Relies on clap's `ValueEnum::from_str` for skim's `RankCriteria` with case ignored:
/// it finds the variant whose name equals `s` up to ASCII case, and the variant's
/// possible value gives its name back.
#[verifier::external_body]
pub(crate) fn rank_criterion_name(s: &str) -> (r: Option<String>)
    ensures
        r matches Some(n) ==> rank_criterion_named(s@) == Some(n@),
        r is None ==> rank_criterion_named(s@) is None,
{
    <skim::RankCriteria as clap::ValueEnum>::from_str(s, true)
        .ok()
        .and_then(|c| clap::ValueEnum::to_possible_value(&c))
        .map(|p| p.get_name().to_owned())
}

/// The recognised ranking criteria among `fields`, by canonical name, in order.
pub open spec fn tiebreak_names(fields: Seq<Seq<char>>) -> Seq<Seq<char>>
    decreases fields.len(),
{
    if fields.len() == 0 {
        Seq::empty()
    } else {
        let rest = tiebreak_names(fields.drop_last());
        match rank_criterion_named(fields.last()) {
            Some(n) => rest.push(n),
            None => rest,
        }
    }
}

pub open spec fn algorithm_named(v: Seq<char>) -> Option<Algorithm> {
    if v == "skim_v1"@ {
        Some(Algorithm::SkimV1)
    } else if v == "skim_v2"@ {
        Some(Algorithm::SkimV2)
    } else if v == "clangd"@ {
        Some(Algorithm::Clangd)
    } else {
        None
    }
}

pub open spec fn case_named(v: Seq<char>) -> Option<CaseMode> {
    if v == "smart"@ {
        Some(CaseMode::Smart)
    } else if v == "ignore"@ {
        Some(CaseMode::Ignore)
    } else if v == "respect"@ {
        Some(CaseMode::Respect)
    } else {
        None
    }
}

/// The algorithm that `v` names.
pub fn algorithm_from_name(v: &str) -> (r: Option<Algorithm>)
    ensures
        r == algorithm_named(v@),
{
    if same_text(v, "skim_v1") {
        Some(Algorithm::SkimV1)
    } else if same_text(v, "skim_v2") {
        Some(Algorithm::SkimV2)
    } else if same_text(v, "clangd") {
        Some(Algorithm::Clangd)
    } else {
        None
    }
}

/// The case mode that `v` names.
pub fn case_from_name(v: &str) -> (r: Option<CaseMode>)
    ensures
        r == case_named(v@),
{
    if same_text(v, "smart") {
        Some(CaseMode::Smart)
    } else if same_text(v, "ignore") {
        Some(CaseMode::Ignore)
    } else if same_text(v, "respect") {
        Some(CaseMode::Respect)
    } else {
        None
    }
}

/// What the long option `key` (without its dashes) stands for.
pub open spec fn long_option(key: Seq<char>) -> Option<OptionKind> {
    if key == "multi"@ { Some(OptionKind::Flag(Switch::Multi)) }
    else if key == "tac"@ { Some(OptionKind::Flag(Switch::Tac)) }
    else if key == "no-sort"@ { Some(OptionKind::Flag(Switch::NoSort)) }
    else if key == "exact"@ { Some(OptionKind::Flag(Switch::Exact)) }
    else if key == "interactive"@ { Some(OptionKind::Flag(Switch::Interactive)) }
    else if key == "regex"@ { Some(OptionKind::Flag(Switch::Regex)) }
    else if key == "no-height"@ { Some(OptionKind::Flag(Switch::NoHeight)) }
    else if key == "no-clear"@ { Some(OptionKind::Flag(Switch::NoClear)) }
    else if key == "no-clear-start"@ { Some(OptionKind::Flag(Switch::NoClearStart)) }
    else if key == "reverse"@ { Some(OptionKind::Flag(Switch::Reverse)) }
    else if key == "no-hscroll"@ { Some(OptionKind::Flag(Switch::NoHscroll)) }
    else if key == "no-mouse"@ { Some(OptionKind::Flag(Switch::NoMouse)) }
    else if key == "inline-info"@ { Some(OptionKind::Flag(Switch::InlineInfo)) }
    else if key == "keep-right"@ { Some(OptionKind::Flag(Switch::KeepRight)) }
    else if key == "select-1"@ { Some(OptionKind::Flag(Switch::Select1)) }
    else if key == "exit-0"@ { Some(OptionKind::Flag(Switch::Exit0)) }
    else if key == "sync"@ { Some(OptionKind::Flag(Switch::Sync)) }
    else if key == "no-clear-if-empty"@ { Some(OptionKind::Flag(Switch::NoClearIfEmpty)) }
    else if key == "prompt"@ { Some(OptionKind::Text(TextKey::Prompt)) }
    else if key == "cmd-prompt"@ { Some(OptionKind::Text(TextKey::CmdPrompt)) }
    else if key == "query"@ { Some(OptionKind::Text(TextKey::Query)) }
    else if key == "cmd-query"@ { Some(OptionKind::Text(TextKey::CmdQuery)) }
    else if key == "color"@ { Some(OptionKind::Text(TextKey::Color)) }
    else if key == "margin"@ { Some(OptionKind::Text(TextKey::Margin)) }
    else if key == "min-height"@ { Some(OptionKind::Text(TextKey::MinHeight)) }
    else if key == "height"@ { Some(OptionKind::Text(TextKey::Height)) }
    else if key == "preview-window"@ { Some(OptionKind::Text(TextKey::PreviewWindow)) }
    else if key == "layout"@ { Some(OptionKind::Text(TextKey::Layout)) }
    else if key == "skip-to-pattern"@ { Some(OptionKind::Text(TextKey::SkipToPattern)) }
    else if key == "tabstop"@ { Some(OptionKind::Number(NumberKey::Tabstop)) }
    else if key == "algo"@ { Some(OptionKind::Algo) }
    else if key == "case"@ { Some(OptionKind::Case) }
    else if key == "expect"@ { Some(OptionKind::List(ListKey::Expect)) }
    else if key == "tiebreak"@ { Some(OptionKind::Tiebreaks) }
    else if key == "bind"@ { Some(OptionKind::Bind) }
    else if key == "pre-select-n"@ { Some(OptionKind::Number(NumberKey::PreSelectN)) }
    else if key == "pre-select-pat"@ { Some(OptionKind::Text(TextKey::PreSelectPat)) }
    else if key == "pre-select-items"@ { Some(OptionKind::List(ListKey::PreSelectItems)) }
    else if key == "pre-select-file"@ { Some(OptionKind::Text(TextKey::PreSelectFile)) }
    else { None }
}

/// Looks up what the long option `key` stands for.
pub fn long_option_named(key: &str) -> (r: Option<OptionKind>)
    ensures
        r == long_option(key@),
{
    if same_text(key, "multi") { Some(OptionKind::Flag(Switch::Multi)) }
    else if same_text(key, "tac") { Some(OptionKind::Flag(Switch::Tac)) }
    else if same_text(key, "no-sort") { Some(OptionKind::Flag(Switch::NoSort)) }
    else if same_text(key, "exact") { Some(OptionKind::Flag(Switch::Exact)) }
    else if same_text(key, "interactive") { Some(OptionKind::Flag(Switch::Interactive)) }
    else if same_text(key, "regex") { Some(OptionKind::Flag(Switch::Regex)) }
    else if same_text(key, "no-height") { Some(OptionKind::Flag(Switch::NoHeight)) }
    else if same_text(key, "no-clear") { Some(OptionKind::Flag(Switch::NoClear)) }
    else if same_text(key, "no-clear-start") { Some(OptionKind::Flag(Switch::NoClearStart)) }
    else if same_text(key, "reverse") { Some(OptionKind::Flag(Switch::Reverse)) }
    else if same_text(key, "no-hscroll") { Some(OptionKind::Flag(Switch::NoHscroll)) }
    else if same_text(key, "no-mouse") { Some(OptionKind::Flag(Switch::NoMouse)) }
    else if same_text(key, "inline-info") { Some(OptionKind::Flag(Switch::InlineInfo)) }
    else if same_text(key, "keep-right") { Some(OptionKind::Flag(Switch::KeepRight)) }
    else if same_text(key, "select-1") { Some(OptionKind::Flag(Switch::Select1)) }
    else if same_text(key, "exit-0") { Some(OptionKind::Flag(Switch::Exit0)) }
    else if same_text(key, "sync") { Some(OptionKind::Flag(Switch::Sync)) }
    else if same_text(key, "no-clear-if-empty") { Some(OptionKind::Flag(Switch::NoClearIfEmpty)) }
    else if same_text(key, "prompt") { Some(OptionKind::Text(TextKey::Prompt)) }
    else if same_text(key, "cmd-prompt") { Some(OptionKind::Text(TextKey::CmdPrompt)) }
    else if same_text(key, "query") { Some(OptionKind::Text(TextKey::Query)) }
    else if same_text(key, "cmd-query") { Some(OptionKind::Text(TextKey::CmdQuery)) }
    else if same_text(key, "color") { Some(OptionKind::Text(TextKey::Color)) }
    else if same_text(key, "margin") { Some(OptionKind::Text(TextKey::Margin)) }
    else if same_text(key, "min-height") { Some(OptionKind::Text(TextKey::MinHeight)) }
    else if same_text(key, "height") { Some(OptionKind::Text(TextKey::Height)) }
    else if same_text(key, "preview-window") { Some(OptionKind::Text(TextKey::PreviewWindow)) }
    else if same_text(key, "layout") { Some(OptionKind::Text(TextKey::Layout)) }
    else if same_text(key, "skip-to-pattern") { Some(OptionKind::Text(TextKey::SkipToPattern)) }
    else if same_text(key, "tabstop") { Some(OptionKind::Number(NumberKey::Tabstop)) }
    else if same_text(key, "algo") { Some(OptionKind::Algo) }
    else if same_text(key, "case") { Some(OptionKind::Case) }
    else if same_text(key, "expect") { Some(OptionKind::List(ListKey::Expect)) }
    else if same_text(key, "tiebreak") { Some(OptionKind::Tiebreaks) }
    else if same_text(key, "bind") { Some(OptionKind::Bind) }
    else if same_text(key, "pre-select-n") { Some(OptionKind::Number(NumberKey::PreSelectN)) }
    else if same_text(key, "pre-select-pat") { Some(OptionKind::Text(TextKey::PreSelectPat)) }
    else if same_text(key, "pre-select-items") { Some(OptionKind::List(ListKey::PreSelectItems)) }
    else if same_text(key, "pre-select-file") { Some(OptionKind::Text(TextKey::PreSelectFile)) }
    else { None }
}

/// The setting that option `kind` with value `v` gives, if any (a count that does
/// not parse gives none).
pub open spec fn decoded(kind: OptionKind, v: Seq<char>) -> Option<SettingView> {
    match kind {
        OptionKind::Flag(s) => Some(SettingView::On(s)),
        OptionKind::Text(k) => Some(SettingView::Text(k, v)),
        OptionKind::Number(k) => if parses_as_usize(v) {
            Some(SettingView::Number(k, digits_value(unsigned_digits(v)) as usize))
        } else {
            None
        },
        OptionKind::Algo => Some(SettingView::Algo(algorithm_named(v))),
        OptionKind::Case => Some(SettingView::Case(case_named(v))),
        OptionKind::List(k) => Some(SettingView::List(k, list_fields(v))),
        OptionKind::Tiebreaks => Some(SettingView::Tiebreaks(tiebreak_names(list_fields(v)))),
        OptionKind::Bind => Some(SettingView::Bind(comma_entries(v))),
    }
}

pub open spec fn opt_seq<A>(o: Option<A>) -> Seq<A> {
    match o {
        Some(x) => seq![x],
        None => Seq::empty(),
    }
}

/// The ranking criteria recognised among `fields`, by canonical name.
fn tiebreaks_from(fields: &Vec<String>) -> (r: Vec<String>)
    ensures
        texts_view(r@) == tiebreak_names(texts_view(fields@)),
{
    let mut out: Vec<String> = Vec::new();
    let mut i: usize = 0;
    while i < fields.len()
        invariant
            i <= fields.len(),
            texts_view(out@) == tiebreak_names(texts_view(fields@.take(i as int))),
        decreases fields.len() - i,
    {
        assert(texts_view(fields@.take(i + 1)).drop_last() =~= texts_view(fields@.take(i as int)));
        assert(texts_view(fields@.take(i + 1)).last() == fields@[i as int]@);
        let ghost before = out@;
        match rank_criterion_name(fields[i].as_str()) {
            Some(n) => {
                out.push(n);
                assert(texts_view(out@) =~= texts_view(before).push(out@.last()@));
            },
            None => {},
        }
        i = i + 1;
    }
    assert(fields@.take(fields.len() as int) =~= fields@);
    out
}

/// The setting that option `kind` with value `v` gives.
pub fn decode(kind: OptionKind, v: &str) -> (r: Option<Setting>)
    ensures
        r matches Some(x) ==> decoded(kind, v@) == Some(x@),
        r is None ==> decoded(kind, v@) is None,
{
    match kind {
        OptionKind::Flag(s) => Some(Setting::On(s)),
        OptionKind::Text(k) => Some(Setting::Text(k, v.to_owned())),
        OptionKind::Number(k) => match parse_usize(v) {
            Some(n) => Some(Setting::Number(k, n)),
            None => None,
        },
        OptionKind::Algo => Some(Setting::Algo(algorithm_from_name(v))),
        OptionKind::Case => Some(Setting::Case(case_from_name(v))),
        OptionKind::List(k) => Some(Setting::List(k, split_csv_like(v))),
        OptionKind::Tiebreaks => {
            let fields = split_csv_like(v);
            Some(Setting::Tiebreaks(tiebreaks_from(&fields)))
        },
        OptionKind::Bind => Some(Setting::Bind(split_comma_entries(v))),
    }
}

/// `s` split at its first `=` into a key and, when there is one, the value after it.
pub open spec fn split_key_value(s: Seq<char>) -> (Seq<char>, Option<Seq<char>>)
    decreases s.len(),
{
    if s.len() == 0 {
        (Seq::empty(), None)
    } else if s[0] == '=' {
        (Seq::empty(), Some(s.drop_first()))
    } else {
        let (k, v) = split_key_value(s.drop_first());
        (seq![s[0]] + k, v)
    }
}

/// `s` without its leading dashes.
pub open spec fn trim_dashes(s: Seq<char>) -> Seq<char>
    decreases s.len(),
{
    if s.len() > 0 && s[0] == '-' {
        trim_dashes(s.drop_first())
    } else {
        s
    }
}

pub open spec fn short_switch(c: char) -> Option<Switch> {
    if c == 'm' {
        Some(Switch::Multi)
    } else if c == 'e' {
        Some(Switch::Exact)
    } else if c == 'i' {
        Some(Switch::Interactive)
    } else if c == '1' {
        Some(Switch::Select1)
    } else if c == '0' {
        Some(Switch::Exit0)
    } else {
        None
    }
}

/// The switches that a run of short flags turns on before its first `q`, and what
/// follows that `q` when there is one.
pub open spec fn short_flags(f: Seq<char>) -> (Seq<SettingView>, Option<Seq<char>>)
    decreases f.len(),
{
    if f.len() == 0 {
        (Seq::empty(), None)
    } else if f[0] == 'q' {
        (Seq::empty(), Some(f.drop_first()))
    } else {
        let (s, q) = short_flags(f.drop_first());
        let here = match short_switch(f[0]) {
            Some(sw) => seq![SettingView::On(sw)],
            None => Seq::empty(),
        };
        (here + s, q)
    }
}

pub open spec fn is_long(t: Seq<char>) -> bool {
    t.len() >= 2 && t[0] == '-' && t[1] == '-'
}

/// What the first of `toks` contributes: the settings it gives, how many tokens it
/// uses (itself and possibly the value after it), and whether it ends the options.
pub open spec fn token_step(toks: Seq<Seq<char>>) -> (Seq<SettingView>, nat, bool) {
    let t = toks[0];
    let rest = toks.drop_first();
    if t.len() == 2 && is_long(t) {
        (Seq::empty(), 1, true)
    } else if is_long(t) {
        let (key, val) = split_key_value(t.skip(2));
        match long_option(key) {
            None => (Seq::empty(), 1, false),
            Some(OptionKind::Flag(sw)) => (seq![SettingView::On(sw)], 1, false),
            Some(kind) => match val {
                Some(v) => (opt_seq(decoded(kind, v)), 1, false),
                None => if rest.len() > 0 {
                    (opt_seq(decoded(kind, rest[0])), 2, false)
                } else {
                    (Seq::empty(), 1, false)
                },
            },
        }
    } else if t.len() > 0 && t[0] == '-' {
        let (s, q) = short_flags(trim_dashes(t));
        match q {
            None => (s, 1, false),
            Some(r) => if r.len() > 0 {
                (s.push(SettingView::Text(TextKey::Query, r)), 1, false)
            } else if rest.len() > 0 {
                (s.push(SettingView::Text(TextKey::Query, rest[0])), 2, false)
            } else {
                (s, 1, false)
            },
        }
    } else {
        (Seq::empty(), 1, false)
    }
}

/// The settings that a sequence of option words gives, in order. Words that are
/// not options, and unknown options, are passed over; `--` ends the options.
pub open spec fn settings_from(toks: Seq<Seq<char>>) -> Seq<SettingView>
    decreases toks.len(),
{
    if toks.len() == 0 {
        Seq::empty()
    } else {
        let (s, used, stop) = token_step(toks);
        if stop || used == 0 {
            s
        } else {
            s + settings_from(toks.skip(used as int))
        }
    }
}

/// The value of an option: the one written after `=` when there is one, else the
/// next word, which is then used up (`*pos` moves past it).
pub fn set_string(val_opt: Option<String>, words: &Vec<String>, pos: &mut usize) -> (r: Option<
    String,
>)
    ensures
        val_opt is Some ==> r == val_opt && *final(pos) == *old(pos),
        val_opt is None && *old(pos) < words@.len() ==> r == Some(words@[*old(pos) as int])
            && *final(pos) == *old(pos) + 1,
        val_opt is None && *old(pos) >= words@.len() ==> r is None && *final(pos) == *old(pos),
{
    if let Some(v) = val_opt {
        Some(v)
    } else if *pos < words.len() {
        let v = words[*pos].clone();
        *pos = *pos + 1;
        Some(v)
    } else {
        None
    }
}

proof fn lemma_split_key_value(s: Seq<char>, j: int)
    requires
        0 <= j <= s.len(),
        forall|k: int| 0 <= k < j ==> s[k] != '=',
    ensures
        split_key_value(s) == (s.take(j) + split_key_value(s.skip(j)).0, split_key_value(
            s.skip(j),
        ).1),
    decreases j,
{
    if j == 0 {
        assert(s.skip(0) =~= s);
        assert(s.take(0) + split_key_value(s).0 =~= split_key_value(s).0);
    } else {
        lemma_split_key_value(s.drop_first(), j - 1);
        assert(s.drop_first().skip(j - 1) =~= s.skip(j));
        assert(seq![s[0]] + s.drop_first().take(j - 1) =~= s.take(j));
        let k = split_key_value(s.skip(j)).0;
        assert(seq![s[0]] + (s.drop_first().take(j - 1) + k) =~= s.take(j) + k);
    }
}

/// Splits `s` at its first `=` into a key and, when there is one, the value after it.
fn key_and_value(s: &str) -> (r: (String, Option<String>))
    ensures
        r.0@ == split_key_value(s@).0,
        r.1 matches Some(v) ==> split_key_value(s@).1 == Some(v@),
        r.1 is None ==> split_key_value(s@).1 is None,
{
    let n = s.unicode_len();
    let mut j: usize = 0;
    while j < n && s.get_char(j) != '='
        invariant
            n == s@.len(),
            j <= n,
            forall|k: int| 0 <= k < j ==> s@[k] != '=',
        decreases n - j,
    {
        j = j + 1;
    }
    proof {
        lemma_split_key_value(s@, j as int);
    }
    if j < n {
        assert(s@.skip(j as int)[0] == '=');
        assert(s@.skip(j as int).drop_first() =~= s@.skip(j + 1));
        assert(s@.take(j as int) + Seq::<char>::empty() =~= s@.take(j as int));
        assert(s@.take(j as int) =~= s@.subrange(0, j as int));
        (s.substring_char(0, j).to_owned(), Some(s.substring_char(j + 1, n).to_owned()))
    } else {
        assert(s@.skip(j as int) =~= Seq::<char>::empty());
        assert(s@.take(j as int) + Seq::<char>::empty() =~= s@);
        (s.to_owned(), None)
    }
}

/// `s` without its leading dashes.
fn without_dashes(s: &str) -> (r: &str)
    ensures
        r@ == trim_dashes(s@),
{
    let n = s.unicode_len();
    let mut a: usize = 0;
    assert(s@.skip(0) =~= s@);
    while a < n && s.get_char(a) == '-'
        invariant
            n == s@.len(),
            a <= n,
            trim_dashes(s@) == trim_dashes(s@.skip(a as int)),
        decreases n - a,
    {
        assert(s@.skip(a as int).drop_first() =~= s@.skip(a + 1));
        a = a + 1;
    }
    assert(s@.skip(a as int) =~= s@.subrange(a as int, n as int));
    s.substring_char(a, n)
}

/// The switches of a run of short flags before its first `q`, and what follows
/// that `q` when there is one.
fn scan_short_flags(f: &str) -> (r: (Vec<Setting>, Option<String>))
    ensures
        settings_view(r.0@) == short_flags(f@).0,
        r.1 matches Some(q) ==> short_flags(f@).1 == Some(q@),
        r.1 is None ==> short_flags(f@).1 is None,
{
    let n = f.unicode_len();
    let mut out: Vec<Setting> = Vec::new();
    let mut k: usize = 0;
    assert(f@.skip(0) =~= f@);
    assert(settings_view(out@) + short_flags(f@).0 =~= short_flags(f@).0);
    while k < n
        invariant
            n == f@.len(),
            k <= n,
            short_flags(f@) == (settings_view(out@) + short_flags(f@.skip(k as int)).0, short_flags(
                f@.skip(k as int),
            ).1),
        decreases n - k,
    {
        let c = f.get_char(k);
        let ghost rest = f@.skip(k as int);
        assert(rest[0] == c);
        assert(rest.drop_first() =~= f@.skip(k + 1));
        if c == 'q' {
            assert(settings_view(out@) + Seq::<SettingView>::empty() =~= settings_view(out@));
            assert(f@.skip(k + 1) =~= f@.subrange(k + 1, n as int));
            return (out, Some(f.substring_char(k + 1, n).to_owned()));
        }
        let ghost before = settings_view(out@);
        let sw = if c == 'm' {
            Some(Switch::Multi)
        } else if c == 'e' {
            Some(Switch::Exact)
        } else if c == 'i' {
            Some(Switch::Interactive)
        } else if c == '1' {
            Some(Switch::Select1)
        } else if c == '0' {
            Some(Switch::Exit0)
        } else {
            None
        };
        assert(sw == short_switch(c));
        let ghost tail = short_flags(f@.skip(k + 1)).0;
        match sw {
            Some(x) => {
                out.push(Setting::On(x));
                assert(settings_view(out@) =~= before.push(SettingView::On(x)));
                assert(before + (seq![SettingView::On(x)] + tail) =~= before.push(SettingView::On(x)) + tail);
            },
            None => {
                assert(before + (Seq::<SettingView>::empty() + tail) =~= before + tail);
            },
        }
        k = k + 1;
    }
    assert(f@.skip(n as int) =~= Seq::<char>::empty());
    assert(settings_view(out@) + Seq::<SettingView>::empty() =~= settings_view(out@));
    (out, None)
}

fn seq_of(o: Option<Setting>) -> (r: Vec<Setting>)
    ensures
        o matches Some(x) ==> settings_view(r@) == seq![x@],
        o is None ==> r@.len() == 0,
{
    let mut v: Vec<Setting> = Vec::new();
    match o {
        Some(x) => {
            v.push(x);
            assert(settings_view(v@) =~= seq![v@[0]@]);
        },
        None => {},
    }
    v
}

/// What the word at `i` contributes: the settings it gives, how many words it
/// uses, and whether it ends the options.
fn token_effect(toks: &Vec<String>, i: usize) -> (r: (Vec<Setting>, usize, bool))
    requires
        i < toks@.len(),
    ensures
        (settings_view(r.0@), r.1 as nat, r.2) == token_step(texts_view(toks@).skip(i as int)),
        1 <= r.1,
        i + r.1 <= toks@.len(),
{
    let ghost all = texts_view(toks@).skip(i as int);
    let len = toks.len();
    let t = toks[i].as_str();
    assert(all[0] == t@);
    assert(all.drop_first() =~= texts_view(toks@).skip(i + 1));
    let n = t.unicode_len();
    let long = n >= 2 && t.get_char(0) == '-' && t.get_char(1) == '-';
    if long && n == 2 {
        let e: Vec<Setting> = Vec::new();
        assert(settings_view(e@) =~= Seq::<SettingView>::empty());
        return (e, 1, true);
    }
    if long {
        assert(t@.skip(2) =~= t@.subrange(2, n as int));
        let (key, val) = key_and_value(t.substring_char(2, n));
        match long_option_named(key.as_str()) {
            None => {
                let e: Vec<Setting> = Vec::new();
                assert(settings_view(e@) =~= Seq::<SettingView>::empty());
                (e, 1, false)
            },
            Some(OptionKind::Flag(sw)) => {
                let e = seq_of(Some(Setting::On(sw)));
                (e, 1, false)
            },
            Some(kind) => {
                let mut pos = i + 1;
                let value = set_string(val, toks, &mut pos);
                match value {
                    Some(v) => {
                        let e = seq_of(decode(kind, v.as_str()));
                        (e, pos - i, false)
                    },
                    None => {
                        let e: Vec<Setting> = Vec::new();
                        assert(settings_view(e@) =~= Seq::<SettingView>::empty());
                        (e, 1, false)
                    },
                }
            },
        }
    } else if n > 0 && t.get_char(0) == '-' {
        let (mut s, q) = scan_short_flags(without_dashes(t));
        match q {
            None => (s, 1, false),
            Some(r) => {
                let ghost before = settings_view(s@);
                if r.unicode_len() > 0 {
                    s.push(Setting::Text(TextKey::Query, r));
                    assert(settings_view(s@) =~= before.push(s@.last()@));
                    (s, 1, false)
                } else if i + 1 < len {
                    s.push(Setting::Text(TextKey::Query, toks[i + 1].clone()));
                    assert(settings_view(s@) =~= before.push(s@.last()@));
                    (s, 2, false)
                } else {
                    (s, 1, false)
                }
            },
        }
    } else {
        let e: Vec<Setting> = Vec::new();
        assert(settings_view(e@) =~= Seq::<SettingView>::empty());
        (e, 1, false)
    }
}

/// The defaults read from an option string.
pub struct EnvDefaults {
    /// Every setting that the string gives, in the order written; a later one of the
    /// same option takes precedence.
    pub settings: Vec<Setting>,
}

impl EnvDefaults {
    /// Reads defaults from `s`: the string is split into words with shell quoting
    /// rules, which [`EnvDefaults::from_words`] then reads.
    pub fn from_options_str(s: &str) -> (r: EnvDefaults)
        ensures
            settings_view(r.settings@) == settings_from(shell_words(s@)),
    {
        let words = shell_split(s);
        EnvDefaults::from_words(&words)
    }

    /// Reads defaults from option words: long options (`--name`, `--name=value`,
    /// `--name value`) and runs of short flags (`-mei10`, `-q query`), until `--`.
    pub fn from_words(toks: &Vec<String>) -> (r: EnvDefaults)
        ensures
            settings_view(r.settings@) == settings_from(texts_view(toks@)),
    {
        let ghost all = texts_view(toks@);
        let mut out: Vec<Setting> = Vec::new();
        let mut i: usize = 0;
        assert(all.skip(0) =~= all);
        assert(settings_view(out@) + settings_from(all) =~= settings_from(all));
        while i < toks.len()
            invariant
                i <= toks@.len(),
                all == texts_view(toks@),
                settings_view(out@) + settings_from(all.skip(i as int)) == settings_from(all),
            decreases toks.len() - i,
        {
            let (mut produced, used, stop) = token_effect(toks, i);
            let ghost before = out@;
            let ghost p = produced@;
            out.append(&mut produced);
            assert(settings_view(out@) =~= settings_view(before) + settings_view(p));
            if stop {
                assert(settings_view(out@) =~= settings_view(before) + settings_from(all.skip(i as int)));
                return EnvDefaults { settings: out };
            }
            assert(all.skip(i as int).skip(used as int) =~= all.skip(i + used));
            assert(settings_view(before) + (settings_view(p) + settings_from(all.skip(i + used)))
                =~= settings_view(out@) + settings_from(all.skip(i + used)));
            i = i + used;
        }
        assert(all.skip(i as int) =~= Seq::<Seq<char>>::empty());
        assert(settings_view(out@) + Seq::<SettingView>::empty() =~= settings_view(out@));
        EnvDefaults { settings: out }
    }
}

/// The option that a setting is for.
pub open spec fn kind_of(s: SettingView) -> OptionKind {
    match s {
        SettingView::On(sw) => OptionKind::Flag(sw),
        SettingView::Text(k, _) => OptionKind::Text(k),
        SettingView::Number(k, _) => OptionKind::Number(k),
        SettingView::Algo(_) => OptionKind::Algo,
        SettingView::Case(_) => OptionKind::Case,
        SettingView::List(k, _) => OptionKind::List(k),
        SettingView::Tiebreaks(_) => OptionKind::Tiebreaks,
        SettingView::Bind(_) => OptionKind::Bind,
    }
}

/// The position of the last setting for option `kind`, which is the one in force.
pub open spec fn last_of(ss: Seq<SettingView>, kind: OptionKind) -> Option<int>
    decreases ss.len(),
{
    if ss.len() == 0 {
        None
    } else if kind_of(ss.last()) == kind {
        Some(ss.len() - 1)
    } else {
        last_of(ss.drop_last(), kind)
    }
}

proof fn lemma_last_of_in_range(ss: Seq<SettingView>, kind: OptionKind)
    ensures
        last_of(ss, kind) matches Some(i) ==> 0 <= i < ss.len() && kind_of(ss[i]) == kind,
    decreases ss.len(),
{
    if ss.len() > 0 && kind_of(ss.last()) != kind {
        lemma_last_of_in_range(ss.drop_last(), kind);
    }
}

/// Whether switch `sw` is on.
pub open spec fn env_switch(ss: Seq<SettingView>, sw: Switch) -> bool {
    last_of(ss, OptionKind::Flag(sw)) is Some
}

/// The text in force for option `k`.
pub open spec fn env_text(ss: Seq<SettingView>, k: TextKey) -> Option<Seq<char>> {
    match last_of(ss, OptionKind::Text(k)) {
        Some(i) => Some(ss[i]->Text_1),
        None => None,
    }
}

/// The count in force for option `k`.
pub open spec fn env_number(ss: Seq<SettingView>, k: NumberKey) -> Option<usize> {
    match last_of(ss, OptionKind::Number(k)) {
        Some(i) => Some(ss[i]->Number_1),
        None => None,
    }
}

/// The algorithm in force: none when the last one named was not known.
pub open spec fn env_algorithm(ss: Seq<SettingView>) -> Option<Algorithm> {
    match last_of(ss, OptionKind::Algo) {
        Some(i) => ss[i]->Algo_0,
        None => None,
    }
}

/// The case mode in force: none when the last one named was not known.
pub open spec fn env_case(ss: Seq<SettingView>) -> Option<CaseMode> {
    match last_of(ss, OptionKind::Case) {
        Some(i) => ss[i]->Case_0,
        None => None,
    }
}

/// The list in force for option `k`.
pub open spec fn env_list(ss: Seq<SettingView>, k: ListKey) -> Option<Seq<Seq<char>>> {
    match last_of(ss, OptionKind::List(k)) {
        Some(i) => Some(ss[i]->List_1),
        None => None,
    }
}

/// The ranking criteria in force.
pub open spec fn env_tiebreaks(ss: Seq<SettingView>) -> Option<Seq<Seq<char>>> {
    match last_of(ss, OptionKind::Tiebreaks) {
        Some(i) => Some(ss[i]->Tiebreaks_0),
        None => None,
    }
}

/// The key bindings in force.
pub open spec fn env_bind(ss: Seq<SettingView>) -> Option<Seq<Seq<char>>> {
    match last_of(ss, OptionKind::Bind) {
        Some(i) => Some(ss[i]->Bind_0),
        None => None,
    }
}

/// A copy of a list of texts.
pub fn copy_texts(v: &Vec<String>) -> (r: Vec<String>)
    ensures
        r@ == v@,
{
    let mut out: Vec<String> = Vec::new();
    let mut i: usize = 0;
    while i < v.len()
        invariant
            i <= v@.len(),
            out@ == v@.take(i as int),
        decreases v.len() - i,
    {
        out.push(v[i].clone());
        assert(out@ =~= v@.take(i + 1));
        i = i + 1;
    }
    assert(v@.take(v.len() as int) =~= v@);
    out
}

fn setting_kind(s: &Setting) -> (r: OptionKind)
    ensures
        r == kind_of(s@),
{
    match s {
        Setting::On(sw) => OptionKind::Flag(*sw),
        Setting::Text(k, _) => OptionKind::Text(*k),
        Setting::Number(k, _) => OptionKind::Number(*k),
        Setting::Algo(_) => OptionKind::Algo,
        Setting::Case(_) => OptionKind::Case,
        Setting::List(k, _) => OptionKind::List(*k),
        Setting::Tiebreaks(_) => OptionKind::Tiebreaks,
        Setting::Bind(_) => OptionKind::Bind,
    }
}

impl View for EnvDefaults {
    type V = Seq<SettingView>;

    open spec fn view(&self) -> Seq<SettingView> {
        settings_view(self.settings@)
    }
}

impl EnvDefaults {
    /// No defaults at all.
    pub fn empty() -> (r: EnvDefaults)
        ensures
            r@.len() == 0,
    {
        let r = EnvDefaults { settings: Vec::new() };
        assert(r@ =~= Seq::<SettingView>::empty());
        r
    }

    /// The position of the setting in force for option `kind`.
    pub fn last_setting(&self, kind: OptionKind) -> (r: Option<usize>)
        ensures
            r matches Some(i) ==> last_of(self@, kind) == Some(i as int) && i < self.settings@.len(),
            r is None ==> last_of(self@, kind) is None,
    {
        let mut i: usize = self.settings.len();
        assert(self@.take(i as int) =~= self@);
        while i > 0
            invariant
                i <= self.settings@.len(),
                self@.len() == self.settings@.len(),
                last_of(self@, kind) == last_of(self@.take(i as int), kind),
            decreases i,
        {
            let ghost pre = self@.take(i as int);
            assert(pre.last() == self.settings@[i - 1]@);
            assert(pre.drop_last() =~= self@.take(i - 1));
            if setting_kind(&self.settings[i - 1]) == kind {
                return Some(i - 1);
            }
            i = i - 1;
        }
        None
    }

    /// Whether switch `sw` is on.
    pub fn switch_on(&self, sw: Switch) -> (r: bool)
        ensures
            r == env_switch(self@, sw),
    {
        self.last_setting(OptionKind::Flag(sw)).is_some()
    }

    /// The text in force for option `k`.
    pub fn text(&self, k: TextKey) -> (r: Option<String>)
        ensures
            r matches Some(v) ==> env_text(self@, k) == Some(v@),
            r is None ==> env_text(self@, k) is None,
    {
        proof {
            lemma_last_of_in_range(self@, OptionKind::Text(k));
        }
        match self.last_setting(OptionKind::Text(k)) {
            Some(i) => match &self.settings[i] {
                Setting::Text(_, v) => Some(v.clone()),
                _ => None,
            },
            None => None,
        }
    }

    /// The count in force for option `k`.
    pub fn number(&self, k: NumberKey) -> (r: Option<usize>)
        ensures
            r == env_number(self@, k),
    {
        proof {
            lemma_last_of_in_range(self@, OptionKind::Number(k));
        }
        match self.last_setting(OptionKind::Number(k)) {
            Some(i) => match &self.settings[i] {
                Setting::Number(_, n) => Some(*n),
                _ => None,
            },
            None => None,
        }
    }

    /// The algorithm in force.
    pub fn algorithm(&self) -> (r: Option<Algorithm>)
        ensures
            r == env_algorithm(self@),
    {
        proof {
            lemma_last_of_in_range(self@, OptionKind::Algo);
        }
        match self.last_setting(OptionKind::Algo) {
            Some(i) => match &self.settings[i] {
                Setting::Algo(a) => *a,
                _ => None,
            },
            None => None,
        }
    }

    /// The case mode in force.
    pub fn case_mode(&self) -> (r: Option<CaseMode>)
        ensures
            r == env_case(self@),
    {
        proof {
            lemma_last_of_in_range(self@, OptionKind::Case);
        }
        match self.last_setting(OptionKind::Case) {
            Some(i) => match &self.settings[i] {
                Setting::Case(c) => *c,
                _ => None,
            },
            None => None,
        }
    }

    /// The list in force for option `k`.
    pub fn list(&self, k: ListKey) -> (r: Option<Vec<String>>)
        ensures
            r matches Some(v) ==> env_list(self@, k) == Some(texts_view(v@)),
            r is None ==> env_list(self@, k) is None,
    {
        proof {
            lemma_last_of_in_range(self@, OptionKind::List(k));
        }
        match self.last_setting(OptionKind::List(k)) {
            Some(i) => match &self.settings[i] {
                Setting::List(_, v) => Some(copy_texts(v)),
                _ => None,
            },
            None => None,
        }
    }

    /// The ranking criteria in force, by canonical name.
    pub fn tiebreaks(&self) -> (r: Option<Vec<String>>)
        ensures
            r matches Some(v) ==> env_tiebreaks(self@) == Some(texts_view(v@)),
            r is None ==> env_tiebreaks(self@) is None,
    {
        proof {
            lemma_last_of_in_range(self@, OptionKind::Tiebreaks);
        }
        match self.last_setting(OptionKind::Tiebreaks) {
            Some(i) => match &self.settings[i] {
                Setting::Tiebreaks(v) => Some(copy_texts(v)),
                _ => None,
            },
            None => None,
        }
    }

    /// The key bindings in force.
    pub fn bind(&self) -> (r: Option<Vec<String>>)
        ensures
            r matches Some(v) ==> env_bind(self@) == Some(texts_view(v@)),
            r is None ==> env_bind(self@) is None,
    {
        proof {
            lemma_last_of_in_range(self@, OptionKind::Bind);
        }
        match self.last_setting(OptionKind::Bind) {
            Some(i) => match &self.settings[i] {
                Setting::Bind(v) => Some(copy_texts(v)),
                _ => None,
            },
            None => None,
        }
    }
}

} // verus!
