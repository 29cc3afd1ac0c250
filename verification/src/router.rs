//! Event routing: which watches an event concerns, by path containment
//! under each watch's resolved root.

use vstd::prelude::*;
use crate::kinds::Event;
use crate::kinds::EventV;
use crate::text::path_descends;
use crate::text::path_starts_at_root;

verus! {

/// Some path of the event equals the root or descends from it.
pub open spec fn event_touches_root(paths: Seq<Seq<char>>, root: Seq<char>) -> bool {
    exists|i: int| 0 <= i < paths.len() && path_descends(#[trigger] paths[i], root)
}

/// A watch is relevant to an event iff its root resolved and some event
/// path lies at or under it; a watch whose root could not be resolved is
/// silently excluded (fail-open).
pub open spec fn watch_relevant(root: Option<Seq<char>>, e: EventV) -> bool {
    match root {
        Some(rp) => event_touches_root(e.paths, rp),
        None => false,
    }
}

/// Whether any path of the event lies at or under `root`.
pub fn event_concerns_root(event: &Event, root: &str) -> (r: bool)
    ensures
        r == event_touches_root(event@.paths, root@),
{
    let mut i: usize = 0;
    while i < event.paths.len()
        invariant
            i <= event.paths.len(),
            forall|k: int| 0 <= k < i ==> !path_descends(#[trigger] event@.paths[k], root@),
        decreases event.paths.len() - i,
    {
        proof {
            assert(event@.paths[i as int] == event.paths[i as int]@);
        }
        if path_starts_at_root(event.paths[i].as_str(), root) {
            return true;
        }
        i = i + 1;
    }
    false
}

/// Routes an event: the positions, in configuration order, of exactly those
/// watches whose resolved root contains some path of the event. `roots`
/// holds each watch's root as resolved for this dispatch cycle, or nothing
/// where resolution failed.
pub fn route(roots: &Vec<Option<String>>, event: &Event) -> (r: Vec<usize>)
    ensures
        forall|k: int|
            0 <= k < r@.len() ==> (#[trigger] r@[k]) < roots@.len() && watch_relevant(
                roots.deep_view()[r@[k] as int],
                event@,
            ),
        forall|k1: int, k2: int| 0 <= k1 < k2 < r@.len() ==> r@[k1] < r@[k2],
        forall|i: int|
            0 <= i < roots@.len() && watch_relevant(#[trigger] roots.deep_view()[i], event@)
                ==> exists|k: int| 0 <= k < r@.len() && #[trigger] r@[k] as int == i,
{
    let mut r: Vec<usize> = Vec::new();
    let mut i: usize = 0;
    while i < roots.len()
        invariant
            i <= roots@.len(),
            forall|k: int|
                0 <= k < r@.len() ==> (#[trigger] r@[k]) < i && watch_relevant(
                    roots.deep_view()[r@[k] as int],
                    event@,
                ),
            forall|k1: int, k2: int| 0 <= k1 < k2 < r@.len() ==> r@[k1] < r@[k2],
            forall|j: int|
                0 <= j < i && watch_relevant(#[trigger] roots.deep_view()[j], event@)
                    ==> exists|k: int| 0 <= k < r@.len() && #[trigger] r@[k] as int == j,
        decreases roots@.len() - i,
    {
        proof {
            assert(roots.deep_view()[i as int] == roots[i as int].deep_view());
        }
        match &roots[i] {
            Some(root) => {
                if event_concerns_root(event, root.as_str()) {
                    let ghost r0 = r@;
                    r.push(i);
                    proof {
                        assert(r@ == r0.push(i));
                        assert(r@[r@.len() - 1] == i);
                        assert(forall|k: int| 0 <= k < r0.len() ==> r@[k] == r0[k]);
                        assert forall|j: int|
                            0 <= j < i + 1 && watch_relevant(
                                #[trigger] roots.deep_view()[j],
                                event@,
                            ) implies exists|k: int|
                            0 <= k < r@.len() && #[trigger] r@[k] as int == j by {
                            if j < i {
                                let k0 = choose|k: int|
                                    0 <= k < r0.len() && #[trigger] r0[k] as int == j;
                                assert(r@[k0] as int == j);
                            } else {
                                assert(r@[r@.len() - 1] as int == j);
                            }
                        }
                    }
                } else {
                    proof {
                        assert(!watch_relevant(roots.deep_view()[i as int], event@));
                    }
                }
            },
            None => {
                proof {
                    assert(!watch_relevant(roots.deep_view()[i as int], event@));
                }
            },
        }
        i = i + 1;
    }
    r
}

} // verus!
