//! What holds of every compression, whatever the caller reports.

use crate::dispatch::ConfigView;
use crate::error::FailureView;
use crate::pdf_compress::{
    compression_next, fallback_for, native_result, CompressionActionView, CompressionEventView,
    JobView, NativeOutcomeView, StateView,
};
use vstd::prelude::*;

verus! {

/// How often the caller is told to go through the gateway while `events` are
/// reported one after the other, from `state` on.
pub open spec fn fallback_count(
    config: ConfigView,
    job: JobView,
    state: StateView,
    events: Seq<CompressionEventView>,
) -> nat
    decreases events.len(),
{
    if events.len() == 0 {
        0
    } else {
        let (next, action) = compression_next(config, job, state, events[0]);
        let rest = fallback_count(config, job, next, events.drop_first());
        if action is RunFallback {
            rest + 1
        } else {
            rest
        }
    }
}

/// How often the caller is told to start the optimizer while `events` are
/// reported one after the other, from `state` on.
pub open spec fn native_count(
    config: ConfigView,
    job: JobView,
    state: StateView,
    events: Seq<CompressionEventView>,
) -> nat
    decreases events.len(),
{
    if events.len() == 0 {
        0
    } else {
        let (next, action) = compression_next(config, job, state, events[0]);
        let rest = native_count(config, job, next, events.drop_first());
        if action is RunNative {
            rest + 1
        } else {
            rest
        }
    }
}

/// Once the gateway was asked, neither it nor the optimizer is asked again.
pub proof fn lemma_nothing_after_fallback(
    config: ConfigView,
    job: JobView,
    state: StateView,
    events: Seq<CompressionEventView>,
)
    requires
        state is Fallback || state is Measuring || state is Done,
    ensures
        fallback_count(config, job, state, events) == 0,
        native_count(config, job, state, events) == 0,
    decreases events.len(),
{
    if events.len() > 0 {
        let (next, action) = compression_next(config, job, state, events[0]);
        lemma_nothing_after_fallback(config, job, next, events.drop_first());
    }
}

/// In one compression the gateway is asked at most once and the optimizer is
/// started at most once, whatever is reported and in whatever order.
pub proof fn lemma_at_most_one_of_each(
    config: ConfigView,
    job: JobView,
    state: StateView,
    events: Seq<CompressionEventView>,
)
    ensures
        fallback_count(config, job, state, events) <= 1,
        native_count(config, job, state, events) <= 1,
        state is Native ==> native_count(config, job, state, events) == 0,
    decreases events.len(),
{
    if events.len() > 0 {
        let (next, action) = compression_next(config, job, state, events[0]);
        if next is Fallback || next is Measuring || next is Done {
            lemma_nothing_after_fallback(config, job, next, events.drop_first());
        } else {
            lemma_at_most_one_of_each(config, job, next, events.drop_first());
        }
    }
}

/// Where the native attempt fails, for whatever reason, the gateway is asked
/// exactly once: at that moment, with the quality as the caller gave it, and
/// never again, whatever is reported afterwards.
pub proof fn lemma_native_failure_falls_back_once(
    config: ConfigView,
    job: JobView,
    outcome: NativeOutcomeView,
    later: Seq<CompressionEventView>,
)
    requires
        native_result(job, outcome) is Err,
    ensures
        compression_next(
            config,
            job,
            StateView::Native,
            CompressionEventView::NativeFinished(outcome),
        ) == (StateView::Fallback, CompressionActionView::RunFallback(fallback_for(job))),
        fallback_for(job).args[3] == job.quality,
        fallback_count(
            config,
            job,
            StateView::Native,
            seq![CompressionEventView::NativeFinished(outcome)] + later,
        ) == 1,
{
    let events = seq![CompressionEventView::NativeFinished(outcome)] + later;
    assert(events.drop_first() =~= later);
    lemma_nothing_after_fallback(config, job, StateView::Fallback, later);
}

/// Where the gateway fails too, the compression ends with the failure that
/// the gateway reported, unchanged; what the native attempt failed with is
/// not reported.
pub proof fn lemma_fallback_failure_is_reported(config: ConfigView, job: JobView, e: FailureView)
    ensures
        compression_next(
            config,
            job,
            StateView::Fallback,
            CompressionEventView::FallbackFinished(Err(e)),
        ) == (StateView::Done, CompressionActionView::Finish(Err(e))),
{
}

/// A compression that is over stays over, and asks for nothing more.
pub proof fn lemma_done_is_done(config: ConfigView, job: JobView, event: CompressionEventView)
    ensures
        compression_next(config, job, StateView::Done, event) == (
            StateView::Done,
            CompressionActionView::Ignore,
        ),
{
}

} // verus!
