use vstd::prelude::*;
use crate::config::LoggerConfig;
use crate::loader::{evaluation_command, EvalCommand, LoadError, is_typed_path, args_view, js_escape};
use crate::loader::{TYPED_SCRIPT_HEAD, TYPED_SCRIPT_TAIL, PLAIN_SCRIPT_HEAD, PLAIN_SCRIPT_TAIL};
use crate::rules::RuleIndex;

verus! {

/// What the transform has just learnt while it sets itself up.
#[derive(Debug)]
pub enum TransformEvent {
    /// The outcome of looking for the configuration file.
    Discovered(Result<String, LoadError>),
    /// The outcome of loading the configuration.
    Loaded(Result<LoggerConfig, LoadError>),
}

/// What the transform does next.
#[derive(Debug)]
pub enum TransformAction {
    /// Run this command to evaluate the configuration module.
    Evaluate(EvalCommand),
    /// Walk the tree against this index.
    Apply(RuleIndex),
    /// Give the tree back unchanged, for this reason.
    Abort(LoadError),
}

/// The decision of the transform on each event: a found file is evaluated, a
/// loaded configuration is applied, and any failure gives the tree back
/// unchanged, with nothing run.
pub fn next_action(event: TransformEvent) -> (r: TransformAction)
    ensures
        event matches TransformEvent::Discovered(Err(e)) ==> r == TransformAction::Abort(e),
        event matches TransformEvent::Loaded(Err(e)) ==> r == TransformAction::Abort(e),
        event matches TransformEvent::Loaded(Ok(c)) ==> (r matches TransformAction::Apply(index)
            && index@ == c.table()),
        event matches TransformEvent::Discovered(Ok(p)) ==> (r matches TransformAction::Evaluate(cmd)
            && (is_typed_path(p@) ==> cmd.program@ == "npx"@ && args_view(cmd.args@) == seq![
            "tsx"@,
            "-e"@,
            TYPED_SCRIPT_HEAD@ + js_escape(p@) + TYPED_SCRIPT_TAIL@,
        ]) && (!is_typed_path(p@) ==> cmd.program@ == "node"@ && args_view(cmd.args@) == seq![
            "-e"@,
            PLAIN_SCRIPT_HEAD@ + js_escape(p@) + PLAIN_SCRIPT_TAIL@,
        ])),
{
    match event {
        TransformEvent::Discovered(Ok(path)) => TransformAction::Evaluate(evaluation_command(path.as_str())),
        TransformEvent::Discovered(Err(e)) => TransformAction::Abort(e),
        TransformEvent::Loaded(Ok(config)) => TransformAction::Apply(RuleIndex::new(&config)),
        TransformEvent::Loaded(Err(e)) => TransformAction::Abort(e),
    }
}

} // verus!
