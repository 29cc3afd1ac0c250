//! Verified core of a filesystem-watch command runner.
//!
//! The library holds the event-to-action dispatch pipeline: deciding which
//! configured watches an event concerns, filtering the event, selecting the
//! action it triggers, and rendering the command to run. Everything here is
//! pure logic over plain values; the surrounding binary supplies the
//! filesystem notifications, resolves watch roots, and spawns the commands.

mod actions;
mod config;
mod errors;
mod kinds;
mod matcher;
mod orchestrator;
mod router;
mod text;

pub use actions::ActionOutcome;
pub use actions::ActionOutcomeV;
pub use actions::classify_outcome;
pub use actions::prepare_command;
pub use config::Action;
pub use config::ActionV;
pub use config::Config;
pub use config::ConfigV;
pub use config::Filters;
pub use config::FiltersV;
pub use config::WatchConfig;
pub use config::WatchConfigV;
pub use config::default_debounce_ms;
pub use config::default_log_level;
pub use config::ext_in_set;
pub use config::ext_passes;
pub use config::filter_keeps;
pub use config::kinds_pass;
pub use config::lemma_ignore_pattern_rejects;
pub use config::path_ignored;
pub use config::resolved_root;
pub use config::some_kind_matches;
pub use errors::AppError;
pub use kinds::Event;
pub use kinds::EventKind;
pub use kinds::EventV;
pub use kinds::event_kind_matches;
pub use kinds::event_kind_to_primary_string;
pub use kinds::kind_name_matches;
pub use kinds::primary_label;
pub use matcher::action_triggers;
pub use matcher::first_match;
pub use matcher::lemma_first_action_wins;
pub use matcher::lemma_first_match_at;
pub use matcher::lemma_first_match_none;
pub use matcher::match_action;
pub use matcher::matched_action;
pub use matcher::selector_matches;
pub use orchestrator::BatchPlan;
pub use orchestrator::Dispatch;
pub use orchestrator::DispatchV;
pub use orchestrator::batch_dispatches;
pub use orchestrator::batch_dispatches_upto;
pub use orchestrator::dispatches_for_paths;
pub use orchestrator::event_dispatches;
pub use orchestrator::event_dispatches_upto;
pub use orchestrator::plan_batch;
pub use orchestrator::plan_event;
pub use orchestrator::watch_dispatches;
pub use router::event_concerns_root;
pub use router::event_touches_root;
pub use router::route;
pub use router::watch_relevant;
pub use text::extension_of;
pub use text::has_dot_past_first;
pub use text::has_substring;
pub use text::ieq;
pub use text::is_blank;
pub use text::is_space;
pub use text::lower_code;
pub use text::path_descends;
pub use text::path_extension;
pub use text::path_matches_pattern;
pub use text::path_starts_at_root;
pub use text::render_template;
pub use text::str_ieq;
pub use text::str_is_blank;
pub use text::substituted;
pub use text::tail_after_last;
