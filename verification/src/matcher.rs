//! Action selection: scanning a watch's actions in configured order and
//! choosing the first whose trigger matches the event's canonical kind.

use vstd::prelude::*;
use crate::config::Action;
use crate::config::ActionV;
use crate::kinds::EventKind;
use crate::kinds::event_kind_to_primary_string;
use crate::kinds::primary_label;
use crate::text::ieq;
use crate::text::is_blank;
use crate::text::str_ieq;
use crate::text::str_is_blank;

verus! {

/// An action's trigger matches the kind: its selector, case-folded, is
/// "any", or equals the kind's primary label.
pub open spec fn selector_matches(sel: Seq<char>, k: EventKind) -> bool {
    ||| ieq(sel, "any"@)
    ||| (primary_label(k) is Some && ieq(sel, primary_label(k)->Some_0))
}

/// Whether this action's trigger matches the event kind `k`.
pub fn action_triggers(sel: &str, kind: EventKind) -> (r: bool)
    ensures
        r == selector_matches(sel@, kind),
{
    if str_ieq(sel, "any") {
        return true;
    }
    match event_kind_to_primary_string(kind) {
        Some(label) => str_ieq(sel, label.as_str()),
        None => false,
    }
}

/// The position of the first action whose selector matches `k`; scanning
/// stops there whatever that action's command holds.
pub open spec fn first_match(acts: Seq<ActionV>, k: EventKind) -> Option<int>
    decreases acts.len(),
{
    if acts.len() == 0 {
        None
    } else if selector_matches(acts[0].event, k) {
        Some(0)
    } else {
        match first_match(acts.skip(1), k) {
            Some(i) => Some(i + 1),
            None => None,
        }
    }
}

/// The action the event triggers: the first selector match, unless that
/// action's command is empty after trimming, which is treated as no match.
pub open spec fn matched_action(acts: Seq<ActionV>, k: EventKind) -> Option<int> {
    match first_match(acts, k) {
        Some(i) => if !is_blank(acts[i].command) {
            Some(i)
        } else {
            None
        },
        None => None,
    }
}

/// A selector match at `i`, with none before it, is the first match.
pub proof fn lemma_first_match_at(acts: Seq<ActionV>, k: EventKind, i: int)
    requires
        0 <= i < acts.len(),
        selector_matches(acts[i].event, k),
        forall|j: int| 0 <= j < i ==> !selector_matches(#[trigger] acts[j].event, k),
    ensures
        first_match(acts, k) == Some(i),
    decreases i,
{
    if i == 0 {
    } else {
        assert(!selector_matches(acts[0].event, k));
        let tail = acts.skip(1);
        assert(tail[i - 1] == acts[i]);
        assert forall|j: int| 0 <= j < i - 1 implies !selector_matches(
            #[trigger] tail[j].event,
            k,
        ) by {
            assert(tail[j] == acts[j + 1]);
        }
        lemma_first_match_at(tail, k, i - 1);
    }
}

/// With no selector match anywhere, there is no first match.
pub proof fn lemma_first_match_none(acts: Seq<ActionV>, k: EventKind)
    requires
        forall|j: int| 0 <= j < acts.len() ==> !selector_matches(#[trigger] acts[j].event, k),
    ensures
        first_match(acts, k) is None,
    decreases acts.len(),
{
    if acts.len() > 0 {
        let tail = acts.skip(1);
        assert forall|j: int| 0 <= j < tail.len() implies !selector_matches(
            #[trigger] tail[j].event,
            k,
        ) by {
            assert(tail[j] == acts[j + 1]);
        }
        lemma_first_match_none(tail, k);
    }
}

/// An action list whose head already matches the kind selects the head and
/// never a later action: in particular, with a first action triggered by
/// "create_file", a file-creation event always selects that first action.
pub proof fn lemma_first_action_wins(acts: Seq<ActionV>, k: EventKind)
    requires
        acts.len() >= 1,
        selector_matches(acts[0].event, k),
    ensures
        first_match(acts, k) == Some(0int),
        !is_blank(acts[0].command) ==> matched_action(acts, k) == Some(0int),
{
}

/// Scans the actions in configured order and returns the position of the
/// action the event triggers, if any.
pub fn match_action(actions: &Vec<Action>, kind: EventKind) -> (r: Option<usize>)
    ensures
        match r {
            Some(i) => i < actions@.len() && matched_action(actions.deep_view(), kind) == Some(
                i as int,
            ),
            None => matched_action(actions.deep_view(), kind) is None,
        },
{
    let ghost acts = actions.deep_view();
    let mut i: usize = 0;
    while i < actions.len()
        invariant
            acts == actions.deep_view(),
            acts.len() == actions@.len(),
            i <= actions@.len(),
            forall|j: int| 0 <= j < i ==> !selector_matches(#[trigger] acts[j].event, kind),
        decreases actions@.len() - i,
    {
        proof {
            assert(acts[i as int] == actions[i as int]@);
        }
        if action_triggers(actions[i].event.as_str(), kind) {
            proof {
                lemma_first_match_at(acts, kind, i as int);
            }
            if str_is_blank(actions[i].command.as_str()) {
                return None;
            }
            return Some(i);
        }
        i = i + 1;
    }
    proof {
        lemma_first_match_none(acts, kind);
    }
    None
}

} // verus!
