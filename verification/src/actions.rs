//! The action executor's verified half: rendering a command template for a
//! path, refusing blank commands, and shaping a finished subprocess's exit
//! into an outcome. The binary does the spawning; every decision is here.

use vstd::prelude::*;
use crate::errors::AppError;
use crate::text::is_blank;
use crate::text::str_is_blank;
use crate::text::render_template;
use crate::text::substituted;

verus! {

/// What one finished action execution produced. The captured streams are
/// diagnostics only; callers decide by `success`.
#[derive(Debug)]
pub struct ActionOutcome {
    pub success: bool,
    pub stdout: String,
    pub stderr: String,
    pub status: Option<i32>,
}

/// The mathematical shape of an [`ActionOutcome`].
pub ghost struct ActionOutcomeV {
    pub success: bool,
    pub stdout: Seq<char>,
    pub stderr: Seq<char>,
    pub status: Option<i32>,
}

impl View for ActionOutcome {
    type V = ActionOutcomeV;

    open spec fn view(&self) -> ActionOutcomeV {
        ActionOutcomeV {
            success: self.success,
            stdout: self.stdout@,
            stderr: self.stderr@,
            status: self.status,
        }
    }
}

/// Substitutes the path into the template and rejects a command that is
/// empty after trimming: exactly then the empty-command error comes, carrying
/// the substituted command and the path.
pub fn prepare_command(command_template: &str, path: &str) -> (r: Result<String, AppError>)
    ensures
        r is Ok <==> !is_blank(substituted(command_template@, path@)),
        match r {
            Ok(c) => c@ == substituted(command_template@, path@),
            Err(e) => e matches AppError::EmptyCommand { event_kind, path: ep } && event_kind@
                == substituted(command_template@, path@) && ep@ == path@,
        },
{
    let command_to_run = render_template(command_template, path);
    if str_is_blank(command_to_run.as_str()) {
        Err(AppError::EmptyCommand { event_kind: command_to_run, path: path.to_owned() })
    } else {
        Ok(command_to_run)
    }
}

/// Shapes one subprocess's termination: a normal exit yields a success
/// outcome with the captured streams; a nonzero or abnormal exit yields the
/// action-execution error carrying the final command string, the captured
/// standard error attached as detail only.
pub fn classify_outcome(
    command: &str,
    success: bool,
    status: Option<i32>,
    stdout: String,
    stderr: String,
) -> (r: Result<ActionOutcome, AppError>)
    ensures
        r is Ok <==> success,
        match r {
            Ok(o) => o@.success && o@.stdout == stdout@ && o@.stderr == stderr@ && o@.status
                == status,
            Err(e) => e matches AppError::ActionExec { command: c, detail } && c@ == command@
                && detail@ == stderr@,
        },
{
    if success {
        Ok(ActionOutcome { success: true, stdout, stderr, status })
    } else {
        Err(AppError::ActionExec { command: command.to_owned(), detail: stderr })
    }
}

} // verus!
