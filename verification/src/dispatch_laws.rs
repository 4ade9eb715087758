//! What holds of every invocation of the gateway, whatever the caller
//! reports.

use crate::dispatch::{
    dispatch_next, executable_name, interpreter, joined, script_path, ActionView, BuildMode,
    ConfigView, DispatchState, EventView, RequestView,
};
use crate::error::ErrorKind;
use vstd::prelude::*;

verus! {

/// The states in which an invocation is over.
pub open spec fn is_over(state: DispatchState) -> bool {
    state == DispatchState::Succeeded || state == DispatchState::FailedExit || state
        == DispatchState::FailedToSpawn
}

/// How often the caller is told to start the program while `events` are
/// reported one after the other, from `state` on.
pub open spec fn spawn_count(
    config: ConfigView,
    request: RequestView,
    state: DispatchState,
    events: Seq<EventView>,
) -> nat
    decreases events.len(),
{
    if events.len() == 0 {
        0
    } else {
        let (next, action) = dispatch_next(config, request, state, events[0]);
        let rest = spawn_count(config, request, next, events.drop_first());
        if action is Spawn {
            rest + 1
        } else {
            rest
        }
    }
}

/// Once the program was handed out it is never handed out again.
pub proof fn lemma_no_second_spawn(
    config: ConfigView,
    request: RequestView,
    state: DispatchState,
    events: Seq<EventView>,
)
    requires
        state == DispatchState::Spawning || state == DispatchState::Running || is_over(state),
    ensures
        spawn_count(config, request, state, events) == 0,
    decreases events.len(),
{
    if events.len() > 0 {
        let (next, action) = dispatch_next(config, request, state, events[0]);
        lemma_no_second_spawn(config, request, next, events.drop_first());
    }
}

/// The gateway does not retry: in one invocation the program is started at
/// most once, whatever is reported and in whatever order.
pub proof fn lemma_at_most_one_spawn(
    config: ConfigView,
    request: RequestView,
    state: DispatchState,
    events: Seq<EventView>,
)
    ensures
        spawn_count(config, request, state, events) <= 1,
    decreases events.len(),
{
    if events.len() > 0 {
        let (next, action) = dispatch_next(config, request, state, events[0]);
        if action is Spawn {
            lemma_no_second_spawn(config, request, next, events.drop_first());
        } else {
            lemma_at_most_one_spawn(config, request, next, events.drop_first());
        }
    }
}

/// An invocation that is over stays as it is, and asks for nothing more.
pub proof fn lemma_over_is_over(
    config: ConfigView,
    request: RequestView,
    state: DispatchState,
    event: EventView,
)
    requires
        is_over(state),
    ensures
        dispatch_next(config, request, state, event) == (state, ActionView::Ignore),
{
}

/// The two modes are never mixed. Packaged, no interpreter is looked for and
/// the program is the executable beside the application, with the arguments
/// of the request alone. In development the program is one of the
/// interpreters, and the path of the script is its first argument.
pub proof fn lemma_modes_are_not_mixed(
    config: ConfigView,
    request: RequestView,
    state: DispatchState,
    event: EventView,
)
    ensures
        ({
            let action = dispatch_next(config, request, state, event).1;
            &&& config.mode == BuildMode::Packaged ==> !(action is Probe)
            &&& (config.mode == BuildMode::Packaged && action is Spawn) ==> {
                &&& action->Spawn_0.program == joined(
                    config.app_dir,
                    executable_name(request.script, config.platform),
                    config.platform,
                )
                &&& action->Spawn_0.args == request.args
            }
            &&& (config.mode == BuildMode::Development && action is Spawn) ==> {
                &&& exists|number: int|
                    interpreter(config.platform, number) == Some(action->Spawn_0.program)
                &&& action->Spawn_0.args == seq![script_path(request.script, config.platform)]
                    + request.args
            }
        }),
{
    let action = dispatch_next(config, request, state, event).1;
    if config.mode == BuildMode::Development && action is Spawn {
        match state {
            DispatchState::Probing(number) => {
                assert(interpreter(config.platform, number as int) == Some(
                    action->Spawn_0.program,
                ));
            },
            _ => {
                assert(interpreter(config.platform, 0) == Some(action->Spawn_0.program));
            },
        }
    }
}

/// The two kinds of failure are told apart, and tell the states apart: an
/// invocation ends in `FailedToSpawn` exactly where it reports that the tool
/// is unavailable, in `FailedExit` exactly where it reports that the tool
/// failed, and in `Succeeded` exactly where it reports a result.
pub proof fn lemma_failures_are_told_apart(
    config: ConfigView,
    request: RequestView,
    state: DispatchState,
    event: EventView,
)
    requires
        !is_over(state),
    ensures
        ({
            let (next, action) = dispatch_next(config, request, state, event);
            &&& action is Finish <==> is_over(next)
            &&& action is Finish ==> match action->Finish_0 {
                Ok(_) => next == DispatchState::Succeeded,
                Err(e) => if next == DispatchState::FailedToSpawn {
                    e.kind == ErrorKind::ToolUnavailable
                } else {
                    next == DispatchState::FailedExit && e.kind == ErrorKind::ExecutionFailure
                },
            }
        }),
{
}

} // verus!
