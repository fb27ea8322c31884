//! Turning the end of an interactive session into the value handed back to the caller.
use vstd::prelude::*;

verus! {

/// How an interactive session ended.
pub enum Outcome<T> {
    /// The user cancelled: nothing was chosen.
    Aborted,
    /// The default confirm key ended the session with these payloads, in order.
    Selected(Vec<T>),
    /// A custom accept key (named by the string) ended the session with these payloads.
    SelectedWithAction(String, Vec<T>),
}

/// What the `selected` field of an action record holds.
pub enum Chosen<T> {
    /// Single-select mode and nothing chosen.
    Nothing,
    /// Single-select mode: the first chosen payload.
    One(T),
    /// Multi-select mode: every chosen payload, in order.
    All(Vec<T>),
}

/// The value a session produces for its caller.
pub enum SessionResult<T> {
    /// No value at all.
    Empty,
    /// Exactly one payload.
    Single(T),
    /// An ordered collection of payloads (possibly empty).
    Many(Vec<T>),
    /// Which accept key ended the session (`None` for the default one), and what was chosen.
    Record { action: Option<String>, selected: Chosen<T> },
}

/// The payloads that an outcome carries, in order (none for an abort).
pub open spec fn chosen_of<T>(o: Outcome<T>) -> Seq<T> {
    match o {
        Outcome::Aborted => Seq::empty(),
        Outcome::Selected(v) => v@,
        Outcome::SelectedWithAction(_, v) => v@,
    }
}

/// The accept key that an outcome names, if any.
pub open spec fn action_of<T>(o: Outcome<T>) -> Option<Seq<char>> {
    match o {
        Outcome::SelectedWithAction(k, _) => Some(k@),
        _ => None,
    }
}

/// The `selected` part for a sequence of chosen payloads.
pub open spec fn chosen_matches<T>(c: Chosen<T>, multi: bool, items: Seq<T>) -> bool {
    if multi {
        c is All && c->All_0@ == items
    } else if items.len() == 0 {
        c is Nothing
    } else {
        c is One && c->One_0 == items[0]
    }
}

/// The result owed for an outcome, given the selection mode and whether custom
/// accept keys were configured.
pub open spec fn result_matches<T>(
    r: SessionResult<T>,
    o: Outcome<T>,
    multi: bool,
    has_accept_keys: bool,
) -> bool {
    let items = chosen_of(o);
    if o is Aborted {
        r is Empty
    } else if has_accept_keys {
        &&& r is Record
        &&& (match r {
            SessionResult::Record { action, selected } => {
                &&& match (action, action_of(o)) {
                    (Some(a), Some(k)) => a@ == k,
                    (None, None) => true,
                    _ => false,
                }
                &&& chosen_matches(selected, multi, items)
            },
            _ => false,
        })
    } else if multi {
        r is Many && r->Many_0@ == items
    } else if items.len() == 0 {
        r is Empty
    } else {
        r is Single && r->Single_0 == items[0]
    }
}

fn first_of<T>(items: Vec<T>) -> (r: Option<T>)
    ensures
        items@.len() == 0 ==> r is None,
        items@.len() > 0 ==> r == Some(items@[0]),
{
    let mut items = items;
    if items.len() == 0 {
        None
    } else {
        Some(items.swap_remove(0))
    }
}

fn chosen_from<T>(items: Vec<T>, multi: bool) -> (c: Chosen<T>)
    ensures
        chosen_matches(c, multi, items@),
{
    if multi {
        Chosen::All(items)
    } else {
        match first_of(items) {
            Some(x) => Chosen::One(x),
            None => Chosen::Nothing,
        }
    }
}

/// Turns how a session ended into the caller's result.
///
/// An abort gives `Empty`. With custom accept keys the result is always a record
/// naming the key. Otherwise multi-select gives every chosen payload (an empty
/// collection when nothing was chosen), and single-select gives the first chosen
/// payload, or `Empty` when nothing was chosen.
pub fn session_result<T>(o: Outcome<T>, multi: bool, has_accept_keys: bool) -> (r: SessionResult<T>)
    ensures
        result_matches(r, o, multi, has_accept_keys),
{
    match o {
        Outcome::Aborted => SessionResult::Empty,
        Outcome::Selected(items) => {
            if has_accept_keys {
                SessionResult::Record { action: None, selected: chosen_from(items, multi) }
            } else if multi {
                SessionResult::Many(items)
            } else {
                match first_of(items) {
                    Some(x) => SessionResult::Single(x),
                    None => SessionResult::Empty,
                }
            }
        },
        Outcome::SelectedWithAction(key, items) => {
            if has_accept_keys {
                SessionResult::Record { action: Some(key), selected: chosen_from(items, multi) }
            } else if multi {
                SessionResult::Many(items)
            } else {
                match first_of(items) {
                    Some(x) => SessionResult::Single(x),
                    None => SessionResult::Empty,
                }
            }
        },
    }
}

/// The result of a session over an empty source, which ends before any item is
/// produced: as if the user confirmed with nothing chosen.
pub fn empty_source_result<T>(multi: bool, has_accept_keys: bool) -> (r: SessionResult<T>)
    ensures
        !has_accept_keys && multi ==> r is Many && r->Many_0@.len() == 0,
        !has_accept_keys && !multi ==> r is Empty,
        has_accept_keys ==> (r matches SessionResult::Record { action, selected } && action is None
            && chosen_matches(selected, multi, Seq::<T>::empty())),
{
    let none: Vec<T> = Vec::new();
    let o = Outcome::Selected(none);
    assert(chosen_of(o) =~= Seq::<T>::empty());
    session_result(o, multi, has_accept_keys)
}

/// Choosing the item at position `k` of a source, with no custom accept keys,
/// gives exactly that item's payload in single-select mode, and a collection of
/// that one payload in multi-select mode.
pub proof fn lemma_pick_one<T>(source: Seq<T>, k: int, o: Outcome<T>, multi: bool, r: SessionResult<T>)
    requires
        0 <= k < source.len(),
        !(o is Aborted),
        chosen_of(o) == seq![source[k]],
        result_matches(r, o, multi, false),
    ensures
        !multi ==> r == SessionResult::<T>::Single(source[k]),
        multi ==> r is Many && r->Many_0@ == seq![source[k]],
{
}

/// When nothing was chosen (an empty source ends the session with no items), the
/// result is absent in single-select mode and an empty collection in multi-select
/// mode.
pub proof fn lemma_nothing_chosen<T>(o: Outcome<T>, multi: bool, r: SessionResult<T>)
    requires
        !(o is Aborted),
        chosen_of(o).len() == 0,
        result_matches(r, o, multi, false),
    ensures
        !multi ==> r is Empty,
        multi ==> r is Many && r->Many_0@.len() == 0,
{
}

} // verus!
