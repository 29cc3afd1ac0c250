//! Configuration data model: the immutable watch list, per-watch filters and
//! ordered actions, and the filter predicate over events.

use vstd::prelude::*;
use crate::kinds::Event;
use crate::kinds::EventKind;
use crate::kinds::EventV;
use crate::kinds::kind_name_matches;
use crate::kinds::event_kind_matches;
use crate::text::has_substring;
use crate::text::extension_of;
use crate::text::path_matches_pattern;
use crate::text::path_extension;

verus! {

/// The whole configuration: logging, debounce window, and the watch list.
#[derive(Debug, Clone)]
pub struct Config {
    pub log_level: String,
    pub debounce_ms: u64,
    pub watches: Vec<WatchConfig>,
}

/// One configured watch: a root path (as written, before expansion), a
/// recursion flag, its ordered actions, and its filter.
#[derive(Debug, Clone)]
pub struct WatchConfig {
    pub path: String,
    pub recursive: bool,
    pub actions: Vec<Action>,
    pub filter: Filters,
}

/// One action: the kind name (or "any") that triggers it, and the command
/// template it runs, with `{}` standing for the affected path.
#[derive(Debug, Clone)]
pub struct Action {
    pub event: String,
    pub command: String,
}

/// A watch's filter: optional kind names, optional dot-prefixed extensions,
/// and ignore substrings. An absent field means that check always passes.
#[derive(Debug, Clone)]
pub struct Filters {
    pub event_kinds: Option<Vec<String>>,
    pub extensions: Option<Vec<String>>,
    pub ignore_patterns: Vec<String>,
}

/// The mathematical shape of an [`Action`].
pub ghost struct ActionV {
    pub event: Seq<char>,
    pub command: Seq<char>,
}

/// The mathematical shape of a [`Filters`].
pub ghost struct FiltersV {
    pub event_kinds: Option<Seq<Seq<char>>>,
    pub extensions: Option<Seq<Seq<char>>>,
    pub ignore_patterns: Seq<Seq<char>>,
}

/// The mathematical shape of a [`WatchConfig`].
pub ghost struct WatchConfigV {
    pub path: Seq<char>,
    pub recursive: bool,
    pub actions: Seq<ActionV>,
    pub filter: FiltersV,
}

/// The mathematical shape of a [`Config`].
pub ghost struct ConfigV {
    pub log_level: Seq<char>,
    pub debounce_ms: u64,
    pub watches: Seq<WatchConfigV>,
}

impl View for Action {
    type V = ActionV;

    open spec fn view(&self) -> ActionV {
        ActionV { event: self.event@, command: self.command@ }
    }
}

impl DeepView for Action {
    type V = ActionV;

    open spec fn deep_view(&self) -> ActionV {
        self.view()
    }
}

impl View for Filters {
    type V = FiltersV;

    open spec fn view(&self) -> FiltersV {
        FiltersV {
            event_kinds: match self.event_kinds {
                Some(v) => Some(v.deep_view()),
                None => None,
            },
            extensions: match self.extensions {
                Some(v) => Some(v.deep_view()),
                None => None,
            },
            ignore_patterns: self.ignore_patterns.deep_view(),
        }
    }
}

impl DeepView for Filters {
    type V = FiltersV;

    open spec fn deep_view(&self) -> FiltersV {
        self.view()
    }
}

impl View for WatchConfig {
    type V = WatchConfigV;

    open spec fn view(&self) -> WatchConfigV {
        WatchConfigV {
            path: self.path@,
            recursive: self.recursive,
            actions: self.actions.deep_view(),
            filter: self.filter@,
        }
    }
}

impl DeepView for WatchConfig {
    type V = WatchConfigV;

    open spec fn deep_view(&self) -> WatchConfigV {
        self.view()
    }
}

impl View for Config {
    type V = ConfigV;

    open spec fn view(&self) -> ConfigV {
        ConfigV {
            log_level: self.log_level@,
            debounce_ms: self.debounce_ms,
            watches: self.watches.deep_view(),
        }
    }
}

impl DeepView for Config {
    type V = ConfigV;

    open spec fn deep_view(&self) -> ConfigV {
        self.view()
    }
}

/// The log level used when the configuration names none.
pub fn default_log_level() -> (r: String)
    ensures
        r@ == "info"@,
{
    "info".to_owned()
}

/// The debounce window, in milliseconds, used when the configuration
/// names none.
pub fn default_debounce_ms() -> (r: u64)
    ensures
        r == 500,
{
    500
}

impl Default for Config {
    /// An empty configuration: default log level and debounce window, no
    /// watches.
    fn default() -> (r: Config)
        ensures
            r@.log_level == "info"@,
            r@.debounce_ms == 500,
            r@.watches.len() == 0,
    {
        Config { log_level: default_log_level(), debounce_ms: default_debounce_ms(), watches: Vec::new() }
    }
}

impl Default for Filters {
    /// The filter that keeps every event: no kind set, no extension set, no
    /// ignore patterns.
    fn default() -> (r: Filters)
        ensures
            r@.event_kinds is None,
            r@.extensions is None,
            r@.ignore_patterns.len() == 0,
    {
        Filters { event_kinds: None, extensions: None, ignore_patterns: Vec::new() }
    }
}

/// Some name in `names` matches the kind `k` through the name table.
pub open spec fn some_kind_matches(names: Seq<Seq<char>>, k: EventKind) -> bool {
    exists|i: int| 0 <= i < names.len() && #[trigger] kind_name_matches(k, names[i])
}

/// The kind check: with no configured set it passes; otherwise some
/// configured name must match the event's kind through the name table.
pub open spec fn kinds_pass(ks: Option<Seq<Seq<char>>>, k: EventKind) -> bool {
    match ks {
        Some(names) => some_kind_matches(names, k),
        None => true,
    }
}

/// Some ignore pattern occurs in the path as a substring.
pub open spec fn path_ignored(pats: Seq<Seq<char>>, p: Seq<char>) -> bool {
    exists|i: int| 0 <= i < pats.len() && #[trigger] has_substring(p, pats[i])
}

/// The extension `ext`, rendered with a leading dot, is one of the
/// configured strings.
pub open spec fn ext_in_set(es: Seq<Seq<char>>, ext: Seq<char>) -> bool {
    exists|i: int| 0 <= i < es.len() && #[trigger] es[i] == "."@ + ext
}

/// The extension check for one path: with no configured set it passes;
/// otherwise the path must carry an extension, and that extension, rendered
/// with a leading dot, must be one of the configured strings.
pub open spec fn ext_passes(exts: Option<Seq<Seq<char>>>, p: Seq<char>) -> bool {
    match exts {
        Some(es) => match extension_of(p) {
            Some(ext) => ext_in_set(es, ext),
            None => false,
        },
        None => true,
    }
}

/// The whole filter: the kind check passes, no path is ignored, and every
/// path passes the extension check.
pub open spec fn filter_keeps(f: FiltersV, e: EventV) -> bool {
    &&& kinds_pass(f.event_kinds, e.kind)
    &&& forall|i: int| 0 <= i < e.paths.len() ==> !path_ignored(f.ignore_patterns, #[trigger] e.paths[i])
    &&& forall|i: int| 0 <= i < e.paths.len() ==> ext_passes(f.extensions, #[trigger] e.paths[i])
}

/// A filter with some ignore pattern contained, as a substring, in some path
/// of the event rejects the event, whatever its other fields hold.
pub proof fn lemma_ignore_pattern_rejects(f: FiltersV, e: EventV, pi: int, gi: int)
    requires
        0 <= pi < e.paths.len(),
        0 <= gi < f.ignore_patterns.len(),
        has_substring(e.paths[pi], f.ignore_patterns[gi]),
    ensures
        !filter_keeps(f, e),
{
    assert(path_ignored(f.ignore_patterns, e.paths[pi]));
}

/// The root a watch uses for one dispatch cycle: the canonical path when the
/// target resolved, else the expanded path as written, so that a watch on a
/// not-yet-existing target stays registered ("watch when created").
pub fn resolved_root(expanded: String, canonical: Option<String>) -> (r: String)
    ensures
        match canonical {
            Some(c) => r@ == c@,
            None => r@ == expanded@,
        },
{
    match canonical {
        Some(c) => c,
        None => expanded,
    }
}

impl Filters {
    /// Evaluates the filter against an event: a pure conjunction of the kind
    /// check, the ignore check on every path, and the extension check on
    /// every path.
    pub fn matches(&self, event: &Event) -> (r: bool)
        ensures
            r == filter_keeps(self@, event@),
    {
        if let Some(kinds) = &self.event_kinds {
            let mut any = false;
            let mut i: usize = 0;
            while i < kinds.len()
                invariant
                    i <= kinds.len(),
                    any ==> some_kind_matches(kinds.deep_view(), event.kind),
                    !any ==> forall|k: int|
                        0 <= k < i ==> !kind_name_matches(event.kind, #[trigger] kinds.deep_view()[k]),
                decreases kinds.len() - i,
            {
                if event_kind_matches(event.kind, kinds[i].as_str()) {
                    proof {
                        assert(kinds.deep_view()[i as int] == kinds[i as int]@);
                        assert(kind_name_matches(event.kind, kinds.deep_view()[i as int]));
                    }
                    any = true;
                }
                i = i + 1;
            }
            proof {
                assert(self@.event_kinds == Some(kinds.deep_view()));
            }
            if !any {
                return false;
            }
        }
        let mut pi: usize = 0;
        while pi < event.paths.len()
            invariant
                pi <= event.paths.len(),
                kinds_pass(self@.event_kinds, event@.kind),
                forall|k: int|
                    0 <= k < pi ==> !path_ignored(self@.ignore_patterns, #[trigger] event@.paths[k]),
                forall|k: int| 0 <= k < pi ==> ext_passes(self@.extensions, #[trigger] event@.paths[k]),
            decreases event.paths.len() - pi,
        {
            let path = &event.paths[pi];
            proof {
                assert(event@.paths[pi as int] == path@);
            }
            let mut gi: usize = 0;
            while gi < self.ignore_patterns.len()
                invariant
                    gi <= self.ignore_patterns.len(),
                    pi < event.paths.len(),
                    path@ == event@.paths[pi as int],
                    forall|k: int|
                        0 <= k < gi ==> !has_substring(
                            path@,
                            #[trigger] self@.ignore_patterns[k],
                        ),
                decreases self.ignore_patterns.len() - gi,
            {
                if path_matches_pattern(path.as_str(), self.ignore_patterns[gi].as_str()) {
                    proof {
                        assert(self@.ignore_patterns[gi as int] == self.ignore_patterns[gi as int]@);
                        assert(path_ignored(self@.ignore_patterns, event@.paths[pi as int]));
                    }
                    return false;
                }
                gi = gi + 1;
            }
            proof {
                assert(!path_ignored(self@.ignore_patterns, event@.paths[pi as int]));
            }
            if let Some(exts) = &self.extensions {
                match path_extension(path.as_str()) {
                    Some(ext) => {
                        let mut dotted = ".".to_owned();
                        dotted.append(ext.as_str());
                        let mut found = false;
                        let mut ei: usize = 0;
                        while ei < exts.len()
                            invariant
                                ei <= exts.len(),
                                dotted@ == "."@ + ext@,
                                found ==> ext_in_set(exts.deep_view(), ext@),
                                !found ==> forall|k: int|
                                    0 <= k < ei ==> #[trigger] exts.deep_view()[k] != "."@ + ext@,
                            decreases exts.len() - ei,
                        {
                            if exts[ei].eq(&dotted) {
                                proof {
                                    assert(exts.deep_view()[ei as int] == exts[ei as int]@);
                                }
                                found = true;
                            }
                            ei = ei + 1;
                        }
                        proof {
                            assert(self@.extensions == Some(exts.deep_view()));
                            assert(extension_of(path@) == Some(ext@));
                        }
                        if !found {
                            proof {
                                assert(!ext_in_set(exts.deep_view(), ext@));
                                assert(!ext_passes(self@.extensions, event@.paths[pi as int]));
                            }
                            return false;
                        }
                        proof {
                            assert(ext_passes(self@.extensions, event@.paths[pi as int]));
                        }
                    },
                    None => {
                        proof {
                            assert(self@.extensions == Some(exts.deep_view()));
                            assert(extension_of(path@) is None);
                            assert(!ext_passes(Some(exts.deep_view()), path@));
                        }
                        return false;
                    },
                }
            }
            pi = pi + 1;
        }
        true
    }
}

} // verus!
