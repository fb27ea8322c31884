//! Pre-selection: which items start out checked in multi-select mode.
//!
//! Each policy decides on its own; a [`PreSelection`] holds any number of them and
//! checks an item when any one of them selects it.
use vstd::prelude::*;

use crate::options::texts_view;
use crate::text::same_text;

verus! {

/// One pre-selection policy.
pub enum Policy {
    /// The items whose index is below the count.
    FirstN(usize),
    /// The items whose display text matches the regular expression.
    Pattern(String),
    /// The items whose display text is one of the listed texts (also used for the
    /// lines of a file, once read).
    Preset(Vec<String>),
    /// The items for which the user's predicate returned true. What it returned for
    /// an item is handed to [`PreSelection::should_select`] as `verdict`.
    Predicate,
}

/// A [`Policy`] with its text as character sequences.
pub enum PolicyView {
    FirstN(nat),
    Pattern(Seq<char>),
    Preset(Seq<Seq<char>>),
    Predicate,
}

impl View for Policy {
    type V = PolicyView;

    open spec fn view(&self) -> PolicyView {
        match self {
            Policy::FirstN(n) => PolicyView::FirstN(*n as nat),
            Policy::Pattern(p) => PolicyView::Pattern(p@),
            Policy::Preset(items) => PolicyView::Preset(texts_view(items@)),
            Policy::Predicate => PolicyView::Predicate,
        }
    }
}

/// Whether skim's default selector, set up with only the regular expression
/// `pattern`, selects an item whose text is `text`.
pub uninterp spec fn regex_selects(pattern: Seq<char>, text: Seq<char>) -> bool;

/// Relies on skim's `DefaultSkimSelector` with only `regex(pattern)` set: it selects
/// an enabled item when the compiled expression matches the item's text; an empty
/// pattern sets no expression and selects nothing.
#[verifier::external_body]
fn pattern_selects(pattern: &str, text: &str) -> (r: bool)
    ensures
        r == regex_selects(pattern@, text@),
        pattern@.len() == 0 ==> !r,
{
    let item: String = text.to_owned();
    skim::Selector::should_select(
        &skim::prelude::DefaultSkimSelector::default().regex(pattern),
        0,
        &item,
    )
}

/// Whether policy `p` selects the item at `index` with display text `text`, when
/// the user's predicate returned `verdict` for it.
pub open spec fn policy_selects(p: PolicyView, index: nat, text: Seq<char>, verdict: bool) -> bool {
    match p {
        PolicyView::FirstN(n) => index < n,
        PolicyView::Pattern(pat) => regex_selects(pat, text),
        PolicyView::Preset(items) => items.contains(text),
        PolicyView::Predicate => verdict,
    }
}

/// Whether any of `ps` selects the item.
pub open spec fn selects(ps: Seq<PolicyView>, index: nat, text: Seq<char>, verdict: bool) -> bool {
    exists|i: int| 0 <= i < ps.len() && #[trigger] policy_selects(ps[i], index, text, verdict)
}

/// Whether policy `p` selects the item, where `hit` stands for the regular
/// expression's answer when `p` is a pattern.
pub open spec fn policy_selects_given(
    p: PolicyView,
    index: nat,
    text: Seq<char>,
    verdict: bool,
    hit: bool,
) -> bool {
    match p {
        PolicyView::Pattern(_) => hit,
        _ => policy_selects(p, index, text, verdict),
    }
}

/// Whether any of `ps` selects the item, where `hits[i]` stands for the answer of
/// the regular expression of `ps[i]`.
pub open spec fn selects_given(
    ps: Seq<PolicyView>,
    index: nat,
    text: Seq<char>,
    verdict: bool,
    hits: Seq<bool>,
) -> bool {
    exists|i: int|
        0 <= i < ps.len() && #[trigger] policy_selects_given(ps[i], index, text, verdict, hits[i])
}

/// The answers of the regular expressions of `ps` for `text` (false for the
/// policies that are not patterns).
pub open spec fn pattern_hits(ps: Seq<PolicyView>, text: Seq<char>, hits: Seq<bool>) -> bool {
    &&& hits.len() == ps.len()
    &&& forall|i: int|
        0 <= i < ps.len() ==> #[trigger] hits[i] == (match ps[i] {
            PolicyView::Pattern(pat) => regex_selects(pat, text),
            _ => false,
        })
}

/// The indices, below `texts.len()`, of the items that `ps` selects, where item `i`
/// has display text `texts[i]` and predicate verdict `verdicts[i]`.
pub open spec fn selected_indices(
    ps: Seq<PolicyView>,
    texts: Seq<Seq<char>>,
    verdicts: Seq<bool>,
) -> Set<int> {
    Set::new(|i: int| 0 <= i < texts.len() && selects(ps, i as nat, texts[i], verdicts[i]))
}

pub open spec fn min_nat(a: nat, b: nat) -> nat {
    if a <= b {
        a
    } else {
        b
    }
}

fn preset_contains(items: &Vec<String>, text: &str) -> (r: bool)
    ensures
        r == texts_view(items@).contains(text@),
{
    let mut i: usize = 0;
    while i < items.len()
        invariant
            i <= items@.len(),
            forall|j: int| 0 <= j < i ==> items@[j]@ != text@,
        decreases items.len() - i,
    {
        if same_text(items[i].as_str(), text) {
            assert(texts_view(items@)[i as int] == text@);
            return true;
        }
        i = i + 1;
    }
    assert forall|j: int| 0 <= j < texts_view(items@).len() implies texts_view(items@)[j]
        != text@ by {
        assert(texts_view(items@)[j] == items@[j]@);
    }
    false
}

impl Policy {
    /// Whether this policy selects the item at `index` with display text `text`.
    pub fn selects(&self, index: usize, text: &str, verdict: bool) -> (r: bool)
        ensures
            r == policy_selects(self@, index as nat, text@, verdict),
    {
        match self {
            Policy::FirstN(n) => index < *n,
            Policy::Pattern(p) => pattern_selects(p.as_str(), text),
            Policy::Preset(items) => preset_contains(items, text),
            Policy::Predicate => verdict,
        }
    }
}

/// What the user's predicate returned for an item.
pub enum PredicateResult {
    /// A boolean value.
    Boolean(bool),
    /// A value of another kind, or a stream.
    Other,
    /// The evaluation failed.
    Failed,
}

impl PredicateResult {
    /// The item is selected only when the predicate returned `true`; anything else,
    /// an error included, counts as "do not select".
    pub fn verdict(&self) -> (r: bool)
        ensures
            r == (*self matches PredicateResult::Boolean(true)),
    {
        match self {
            PredicateResult::Boolean(b) => *b,
            _ => false,
        }
    }
}

/// Zero or more pre-selection policies, combined by "any of them".
pub struct PreSelection {
    pub policies: Vec<Policy>,
}

impl View for PreSelection {
    type V = Seq<PolicyView>;

    open spec fn view(&self) -> Seq<PolicyView> {
        self.policies@.map_values(|p: Policy| p@)
    }
}

impl PreSelection {
    /// No pre-selection at all.
    pub fn none() -> (r: PreSelection)
        ensures
            r@.len() == 0,
    {
        let r = PreSelection { policies: Vec::new() };
        assert(r@ =~= Seq::<PolicyView>::empty());
        r
    }

    /// Whether no policy is configured. This is distinct from a configured policy
    /// that selects nothing.
    pub fn is_none(&self) -> (r: bool)
        ensures
            r == (self@.len() == 0),
    {
        self.policies.len() == 0
    }

    /// Adds a policy after the ones already held.
    pub fn add(&mut self, p: Policy)
        ensures
            final(self)@ == old(self)@.push(p@),
    {
        let ghost before = self.policies@;
        self.policies.push(p);
        assert(self.policies@.map_values(|q: Policy| q@) =~= before.map_values(|q: Policy| q@).push(
            p@,
        ));
    }

    /// The combination of `a` and `b`: an item is selected when a policy of either
    /// selects it.
    pub fn compose(a: PreSelection, b: PreSelection) -> (r: PreSelection)
        ensures
            r@ == a@ + b@,
    {
        let ghost (av, bv) = (a@, b@);
        let ghost (ap, bp) = (a.policies@, b.policies@);
        let mut ps = a.policies;
        let mut rest = b.policies;
        ps.append(&mut rest);
        let r = PreSelection { policies: ps };
        assert(r.policies@ =~= ap + bp);
        assert(r@ =~= av + bv);
        r
    }

    /// Whether the item at `index`, with display text `text`, starts out checked;
    /// `verdict` is what the user's predicate returned for it (false when it failed
    /// or returned something other than a boolean).
    pub fn should_select(&self, index: usize, text: &str, verdict: bool) -> (r: bool)
        ensures
            r == selects(self@, index as nat, text@, verdict),
    {
        let hits = self.pattern_hits(text);
        proof {
            lemma_selects_given(self@, index as nat, text@, verdict, hits@);
        }
        self.should_select_given(index, text, verdict, &hits)
    }

    /// Whether the regular expression of each policy matches `text` (false for the
    /// policies that are not patterns).
    pub fn pattern_hits(&self, text: &str) -> (r: Vec<bool>)
        ensures
            pattern_hits(self@, text@, r@),
    {
        let mut hits: Vec<bool> = Vec::new();
        let mut i: usize = 0;
        while i < self.policies.len()
            invariant
                i <= self.policies@.len(),
                hits@.len() == i,
                forall|j: int|
                    0 <= j < i ==> #[trigger] hits@[j] == (match self@[j] {
                        PolicyView::Pattern(pat) => regex_selects(pat, text@),
                        _ => false,
                    }),
            decreases self.policies.len() - i,
        {
            assert(self@[i as int] == self.policies@[i as int]@);
            let hit = match &self.policies[i] {
                Policy::Pattern(p) => pattern_selects(p.as_str(), text),
                _ => false,
            };
            hits.push(hit);
            i = i + 1;
        }
        hits
    }

    /// Whether the item at `index`, with display text `text`, starts out checked,
    /// given the answer `hits[i]` of the regular expression of each pattern policy.
    pub fn should_select_given(&self, index: usize, text: &str, verdict: bool, hits: &Vec<bool>) -> (r:
        bool)
        requires
            hits@.len() == self@.len(),
        ensures
            r == selects_given(self@, index as nat, text@, verdict, hits@),
    {
        let mut i: usize = 0;
        while i < self.policies.len()
            invariant
                i <= self.policies@.len(),
                hits@.len() == self@.len(),
                forall|j: int|
                    0 <= j < i ==> !policy_selects_given(
                        #[trigger] self@[j],
                        index as nat,
                        text@,
                        verdict,
                        hits@[j],
                    ),
            decreases self.policies.len() - i,
        {
            assert(self@[i as int] == self.policies@[i as int]@);
            let here = match &self.policies[i] {
                Policy::Pattern(_) => hits[i],
                p => p.selects(index, text, verdict),
            };
            if here {
                assert(policy_selects_given(self@[i as int], index as nat, text@, verdict, hits@[i as int]));
                return true;
            }
            i = i + 1;
        }
        false
    }
}

/// With the true answers of the regular expressions, deciding from the answers is
/// deciding by the policies themselves.
pub proof fn lemma_selects_given(
    ps: Seq<PolicyView>,
    index: nat,
    text: Seq<char>,
    verdict: bool,
    hits: Seq<bool>,
)
    requires
        pattern_hits(ps, text, hits),
    ensures
        selects_given(ps, index, text, verdict, hits) == selects(ps, index, text, verdict),
{
    assert forall|i: int| 0 <= i < ps.len() implies #[trigger] policy_selects_given(
        ps[i],
        index,
        text,
        verdict,
        hits[i],
    ) == policy_selects(ps[i], index, text, verdict) by {
        assert(hits[i] == (match ps[i] {
            PolicyView::Pattern(pat) => regex_selects(pat, text),
            _ => false,
        }));
    }
    if selects(ps, index, text, verdict) {
        let i = choose|i: int| 0 <= i < ps.len() && #[trigger] policy_selects(ps[i], index, text, verdict);
        assert(policy_selects_given(ps[i], index, text, verdict, hits[i]));
    }
    if selects_given(ps, index, text, verdict, hits) {
        let i = choose|i: int|
            0 <= i < ps.len() && #[trigger] policy_selects_given(ps[i], index, text, verdict, hits[i]);
        assert(policy_selects(ps[i], index, text, verdict));
    }
}

/// Composing in either order pre-selects the same items.
pub proof fn lemma_compose_commutes(
    a: Seq<PolicyView>,
    b: Seq<PolicyView>,
    index: nat,
    text: Seq<char>,
    verdict: bool,
)
    ensures
        selects(a + b, index, text, verdict) == selects(b + a, index, text, verdict),
{
    lemma_selects_concat(a, b, index, text, verdict);
    lemma_selects_concat(b, a, index, text, verdict);
}

/// Composition is associative.
pub proof fn lemma_compose_associates(
    a: Seq<PolicyView>,
    b: Seq<PolicyView>,
    c: Seq<PolicyView>,
    index: nat,
    text: Seq<char>,
    verdict: bool,
)
    ensures
        selects((a + b) + c, index, text, verdict) == selects(a + (b + c), index, text, verdict),
{
    assert((a + b) + c =~= a + (b + c));
}

/// A combination selects an item exactly when one of its parts does.
pub proof fn lemma_selects_concat(
    a: Seq<PolicyView>,
    b: Seq<PolicyView>,
    index: nat,
    text: Seq<char>,
    verdict: bool,
)
    ensures
        selects(a + b, index, text, verdict) == (selects(a, index, text, verdict) || selects(
            b,
            index,
            text,
            verdict,
        )),
{
    let ab = a + b;
    if selects(ab, index, text, verdict) {
        let i = choose|i: int| 0 <= i < ab.len() && #[trigger] policy_selects(ab[i], index, text, verdict);
        if i < a.len() {
            assert(ab[i] == a[i]);
        } else {
            assert(ab[i] == b[i - a.len()]);
        }
    }
    if selects(a, index, text, verdict) {
        let i = choose|i: int| 0 <= i < a.len() && #[trigger] policy_selects(a[i], index, text, verdict);
        assert(ab[i] == a[i]);
    }
    if selects(b, index, text, verdict) {
        let i = choose|i: int| 0 <= i < b.len() && #[trigger] policy_selects(b[i], index, text, verdict);
        assert(ab[i + a.len()] == b[i]);
    }
}

/// With no policy, nothing is pre-selected.
pub proof fn lemma_none_selects_nothing(index: nat, text: Seq<char>, verdict: bool)
    ensures
        !selects(Seq::empty(), index, text, verdict),
{
}

/// A first-N policy over `texts.len()` items selects exactly the indices below
/// `min(n, texts.len())`, so that many items.
pub proof fn lemma_first_n_selects_prefix(n: nat, texts: Seq<Seq<char>>, verdicts: Seq<bool>)
    ensures
        selected_indices(seq![PolicyView::FirstN(n)], texts, verdicts) == Set::new(
            |i: int| 0 <= i < min_nat(n, texts.len()),
        ),
        selected_indices(seq![PolicyView::FirstN(n)], texts, verdicts).len() == min_nat(
            n,
            texts.len(),
        ),
{
    let ps = seq![PolicyView::FirstN(n)];
    let m = min_nat(n, texts.len());
    assert forall|i: int| #[trigger]
        selected_indices(ps, texts, verdicts).contains(i) <==> 0 <= i < m by {
        if 0 <= i < texts.len() && selects(ps, i as nat, texts[i], verdicts[i]) {
            let j = choose|j: int|
                0 <= j < ps.len() && #[trigger] policy_selects(ps[j], i as nat, texts[i], verdicts[i]);
            assert(j == 0);
        }
        if 0 <= i < m {
            assert(policy_selects(ps[0], i as nat, texts[i], verdicts[i]));
        }
    }
    assert(selected_indices(ps, texts, verdicts) =~= Set::new(|i: int| 0 <= i < m));
    assert(Set::new(|i: int| 0 <= i < m) =~= vstd::set_lib::set_int_range(0, m as int));
    vstd::set_lib::lemma_int_range(0, m as int);
}

/// A regular-expression policy selects an item exactly when the pattern matches its
/// display text: neither its index nor anything else about it takes part.
pub proof fn lemma_pattern_selects_by_text(
    pattern: Seq<char>,
    i: nat,
    j: nat,
    text: Seq<char>,
    vi: bool,
    vj: bool,
)
    ensures
        selects(seq![PolicyView::Pattern(pattern)], i, text, vi) == regex_selects(pattern, text),
        selects(seq![PolicyView::Pattern(pattern)], i, text, vi) == selects(
            seq![PolicyView::Pattern(pattern)],
            j,
            text,
            vj,
        ),
{
    let ps = seq![PolicyView::Pattern(pattern)];
    if regex_selects(pattern, text) {
        assert(policy_selects(ps[0], i, text, vi));
        assert(policy_selects(ps[0], j, text, vj));
    }
}

} // verus!
