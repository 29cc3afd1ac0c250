//! Batch orchestration, as decisions: which commands an event gives rise to
//! across the watch list, and what a whole debounced batch yields. The
//! binary runs the loop around this, spawning one unit per dispatch; every
//! choice of what to run is made, and proved, here.

use vstd::prelude::*;
use crate::config::WatchConfig;
use crate::config::WatchConfigV;
use crate::config::filter_keeps;
use crate::kinds::Event;
use crate::kinds::EventV;
use crate::matcher::match_action;
use crate::matcher::matched_action;
use crate::router::event_concerns_root;
use crate::router::watch_relevant;

verus! {

/// One unit of work: run this action's command template for this path.
pub struct Dispatch {
    pub command: String,
    pub path: String,
}

/// The mathematical shape of a [`Dispatch`].
pub ghost struct DispatchV {
    pub command: Seq<char>,
    pub path: Seq<char>,
}

impl View for Dispatch {
    type V = DispatchV;

    open spec fn view(&self) -> DispatchV {
        DispatchV { command: self.command@, path: self.path@ }
    }
}

impl DeepView for Dispatch {
    type V = DispatchV;

    open spec fn deep_view(&self) -> DispatchV {
        self.view()
    }
}

/// One dispatch of `command` per path, in path order.
pub open spec fn dispatches_for_paths(command: Seq<char>, paths: Seq<Seq<char>>) -> Seq<
    DispatchV,
> {
    paths.map_values(|p: Seq<char>| DispatchV { command: command, path: p })
}

/// What one watch contributes for one event: when the watch is relevant,
/// its filter keeps the event, and an action matches, that action's command
/// is dispatched for every path of the event; otherwise nothing.
pub open spec fn watch_dispatches(w: WatchConfigV, root: Option<Seq<char>>, e: EventV) -> Seq<
    DispatchV,
> {
    if watch_relevant(root, e) && filter_keeps(w.filter, e) && matched_action(w.actions, e.kind)
        is Some {
        dispatches_for_paths(
            w.actions[matched_action(w.actions, e.kind)->Some_0].command,
            e.paths,
        )
    } else {
        Seq::empty()
    }
}

/// The dispatches of the first `n` watches, in configuration order.
pub open spec fn event_dispatches_upto(
    watches: Seq<WatchConfigV>,
    roots: Seq<Option<Seq<char>>>,
    e: EventV,
    n: int,
) -> Seq<DispatchV>
    decreases n,
{
    if n <= 0 {
        Seq::empty()
    } else {
        event_dispatches_upto(watches, roots, e, n - 1) + watch_dispatches(
            watches[n - 1],
            roots[n - 1],
            e,
        )
    }
}

/// Every dispatch one event gives rise to: watch by watch in configuration
/// order, and within a watch path by path.
pub open spec fn event_dispatches(
    watches: Seq<WatchConfigV>,
    roots: Seq<Option<Seq<char>>>,
    e: EventV,
) -> Seq<DispatchV> {
    event_dispatches_upto(watches, roots, e, watches.len() as int)
}

/// Plans one event across the watch list: routes it, filters it per watch,
/// selects the matching action, and emits one dispatch per event path.
/// `roots` holds each watch's root as resolved for this dispatch cycle.
pub fn plan_event(watches: &Vec<WatchConfig>, roots: &Vec<Option<String>>, event: &Event) -> (r:
    Vec<Dispatch>)
    requires
        watches@.len() == roots@.len(),
    ensures
        r.deep_view() == event_dispatches(watches.deep_view(), roots.deep_view(), event@),
{
    let ghost wv = watches.deep_view();
    let ghost rv = roots.deep_view();
    let mut out: Vec<Dispatch> = Vec::new();
    proof {
        assert(out.deep_view() =~= event_dispatches_upto(wv, rv, event@, 0));
    }
    let mut i: usize = 0;
    while i < watches.len()
        invariant
            wv == watches.deep_view(),
            rv == roots.deep_view(),
            watches@.len() == roots@.len(),
            i <= watches@.len(),
            out.deep_view() == event_dispatches_upto(wv, rv, event@, i as int),
        decreases watches@.len() - i,
    {
        let ghost before = out.deep_view();
        proof {
            assert(wv[i as int] == watches[i as int].deep_view());
            assert(rv[i as int] == roots[i as int].deep_view());
        }
        let watch = &watches[i];
        let relevant = match &roots[i] {
            Some(root) => event_concerns_root(event, root.as_str()),
            None => false,
        };
        proof {
            assert(relevant == watch_relevant(rv[i as int], event@));
        }
        if relevant && watch.filter.matches(event) {
            match match_action(&watch.actions, event.kind) {
                Some(ai) => {
                    let command = &watch.actions[ai].command;
                    proof {
                        assert(watch.actions.deep_view()[ai as int] == watch.actions[ai as int]@);
                        assert(command@ == wv[i as int].actions[matched_action(
                            wv[i as int].actions,
                            event@.kind,
                        )->Some_0].command);
                    }
                    let ghost cmd = command@;
                    let mut pj: usize = 0;
                    proof {
                        assert(event@.paths.subrange(0, 0) =~= Seq::<Seq<char>>::empty());
                        assert(dispatches_for_paths(cmd, event@.paths.subrange(0, 0)) =~= Seq::<
                            DispatchV,
                        >::empty());
                        assert(before + dispatches_for_paths(cmd, event@.paths.subrange(0, 0))
                            =~= before);
                    }
                    while pj < event.paths.len()
                        invariant
                            pj <= event.paths.len(),
                            cmd == command@,
                            out.deep_view() == before + dispatches_for_paths(
                                cmd,
                                event@.paths.subrange(0, pj as int),
                            ),
                        decreases event.paths.len() - pj,
                    {
                        let ghost outv = out.deep_view();
                        out.push(
                            Dispatch { command: command.clone(), path: event.paths[pj].clone() },
                        );
                        proof {
                            let d = DispatchV { command: cmd, path: event@.paths[pj as int] };
                            assert(event.paths[pj as int]@ == event@.paths[pj as int]);
                            assert(out.deep_view() =~= outv.push(d));
                            assert(event@.paths.subrange(0, pj + 1) =~= event@.paths.subrange(
                                0,
                                pj as int,
                            ).push(event@.paths[pj as int]));
                            assert(dispatches_for_paths(
                                cmd,
                                event@.paths.subrange(0, pj as int).push(event@.paths[pj as int]),
                            ) =~= dispatches_for_paths(
                                cmd,
                                event@.paths.subrange(0, pj as int),
                            ).push(d));
                            assert(out.deep_view() =~= before + dispatches_for_paths(
                                cmd,
                                event@.paths.subrange(0, pj + 1),
                            ));
                        }
                        pj = pj + 1;
                    }
                    proof {
                        assert(event@.paths.subrange(0, event@.paths.len() as int)
                            =~= event@.paths);
                        assert(watch_dispatches(wv[i as int], rv[i as int], event@)
                            == dispatches_for_paths(cmd, event@.paths));
                    }
                },
                None => {
                    proof {
                        assert(watch_dispatches(wv[i as int], rv[i as int], event@) =~= Seq::<
                            DispatchV,
                        >::empty());
                        assert(before + watch_dispatches(wv[i as int], rv[i as int], event@)
                            =~= before);
                    }
                },
            }
        } else {
            proof {
                assert(watch_dispatches(wv[i as int], rv[i as int], event@) =~= Seq::<
                    DispatchV,
                >::empty());
                assert(before + watch_dispatches(wv[i as int], rv[i as int], event@) =~= before);
            }
        }
        proof {
            assert(event_dispatches_upto(wv, rv, event@, i + 1) == event_dispatches_upto(
                wv,
                rv,
                event@,
                i as int,
            ) + watch_dispatches(wv[i as int], rv[i as int], event@));
        }
        i = i + 1;
    }
    out
}

/// What one debounced batch yields: the errors to log, and the dispatches
/// to run. Exactly one side is ever populated.
pub struct BatchPlan {
    pub errors: Vec<String>,
    pub dispatches: Vec<Dispatch>,
}

/// The dispatches of the first `n` events of a batch, in arrival order.
pub open spec fn batch_dispatches_upto(
    watches: Seq<WatchConfigV>,
    roots: Seq<Option<Seq<char>>>,
    events: Seq<EventV>,
    n: int,
) -> Seq<DispatchV>
    decreases n,
{
    if n <= 0 {
        Seq::empty()
    } else {
        batch_dispatches_upto(watches, roots, events, n - 1) + event_dispatches(
            watches,
            roots,
            events[n - 1],
        )
    }
}

/// Every dispatch a batch of events gives rise to, event by event in
/// arrival order.
pub open spec fn batch_dispatches(
    watches: Seq<WatchConfigV>,
    roots: Seq<Option<Seq<char>>>,
    events: Seq<EventV>,
) -> Seq<DispatchV> {
    batch_dispatches_upto(watches, roots, events, events.len() as int)
}

/// Plans one debounced batch. An error batch is wholly recoverable: every
/// error is handed back for logging, nothing is dispatched, and the caller's
/// loop goes on to the next batch. An event batch yields the dispatches of
/// its events; the caller runs each as an independent concurrent unit.
pub fn plan_batch(
    watches: &Vec<WatchConfig>,
    roots: &Vec<Option<String>>,
    batch: Result<Vec<Event>, Vec<String>>,
) -> (r: BatchPlan)
    requires
        watches@.len() == roots@.len(),
    ensures
        match batch {
            Ok(events) => r.errors@.len() == 0 && r.dispatches.deep_view() == batch_dispatches(
                watches.deep_view(),
                roots.deep_view(),
                events.deep_view(),
            ),
            Err(errors) => r.dispatches@.len() == 0 && r.errors@ == errors@,
        },
{
    match batch {
        Ok(events) => {
            let ghost wv = watches.deep_view();
            let ghost rv = roots.deep_view();
            let ghost ev = events.deep_view();
            let mut dispatches: Vec<Dispatch> = Vec::new();
            proof {
                assert(dispatches.deep_view() =~= batch_dispatches_upto(wv, rv, ev, 0));
            }
            let mut i: usize = 0;
            while i < events.len()
                invariant
                    wv == watches.deep_view(),
                    rv == roots.deep_view(),
                    ev == events.deep_view(),
                    watches@.len() == roots@.len(),
                    i <= events@.len(),
                    dispatches.deep_view() == batch_dispatches_upto(wv, rv, ev, i as int),
                decreases events@.len() - i,
            {
                let ghost before = dispatches.deep_view();
                proof {
                    assert(ev[i as int] == events[i as int].deep_view());
                }
                let mut unit = plan_event(watches, roots, &events[i]);
                let ghost unitv = unit.deep_view();
                dispatches.append(&mut unit);
                proof {
                    assert(dispatches.deep_view() =~= before + unitv);
                    assert(batch_dispatches_upto(wv, rv, ev, i + 1) == batch_dispatches_upto(
                        wv,
                        rv,
                        ev,
                        i as int,
                    ) + event_dispatches(wv, rv, ev[i as int]));
                }
                i = i + 1;
            }
            BatchPlan { errors: Vec::new(), dispatches }
        },
        Err(errors) => BatchPlan { errors, dispatches: Vec::new() },
    }
}

} // verus!
