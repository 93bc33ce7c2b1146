//! The life of one request to a media pipeline, by fingerprint identifier.

use vstd::prelude::*;

verus! {

/// Where a request stands.
#[derive(Clone, Copy, Debug, PartialEq, Eq, Structural)]
pub enum JobState {
    /// Nothing was asked for, or the cache answered.
    Unrequested,
    /// A lookup missed, and the job waits on the channel.
    Enqueued,
    /// The worker took the job and decodes.
    Processing,
    /// The artifact was made; lookups find it from now on.
    Completed,
    /// The decode failed; the stand-in was reported. The job is not tried
    /// again on its own.
    Degraded,
}

/// What happens to a request.
#[derive(Clone, Copy, Debug, PartialEq, Eq, Structural)]
pub enum JobEvent {
    /// A lookup missed and the job was put onto the channel.
    Missed,
    /// The worker took the job from the channel.
    Taken,
    /// The decode made the artifact.
    Made,
    /// The decode failed.
    Failed,
}

/// The state after an event. An event that does not fit the state leaves it
/// as it is; the two end states are left by no event.
pub open spec fn job_after(state: JobState, event: JobEvent) -> JobState {
    match (state, event) {
        (JobState::Unrequested, JobEvent::Missed) => JobState::Enqueued,
        (JobState::Enqueued, JobEvent::Taken) => JobState::Processing,
        (JobState::Processing, JobEvent::Made) => JobState::Completed,
        (JobState::Processing, JobEvent::Failed) => JobState::Degraded,
        _ => state,
    }
}

/// Whether a state is an end state.
pub open spec fn is_terminal(state: JobState) -> bool {
    state == JobState::Completed || state == JobState::Degraded
}

/// The state after an event.
pub fn next_job_state(state: JobState, event: JobEvent) -> (next: JobState)
    ensures
        next == job_after(state, event),
{
    match (state, event) {
        (JobState::Unrequested, JobEvent::Missed) => JobState::Enqueued,
        (JobState::Enqueued, JobEvent::Taken) => JobState::Processing,
        (JobState::Processing, JobEvent::Made) => JobState::Completed,
        (JobState::Processing, JobEvent::Failed) => JobState::Degraded,
        _ => state,
    }
}

/// The event that the end of a decode is: the artifact was made, or not.
pub fn decode_event(made: bool) -> (event: JobEvent)
    ensures
        event == if made {
            JobEvent::Made
        } else {
            JobEvent::Failed
        },
{
    if made {
        JobEvent::Made
    } else {
        JobEvent::Failed
    }
}

/// The states after a run of events, first to last.
pub open spec fn job_after_all(state: JobState, events: Seq<JobEvent>) -> JobState
    decreases events.len(),
{
    if events.len() == 0 {
        state
    } else {
        job_after(job_after_all(state, events.drop_last()), events.last())
    }
}

/// An end state is final: whatever happens after it, the request stays
/// there.
pub proof fn lemma_terminal_is_final(state: JobState, events: Seq<JobEvent>)
    requires
        is_terminal(state),
    ensures
        job_after_all(state, events) == state,
    decreases events.len(),
{
    if events.len() > 0 {
        lemma_terminal_is_final(state, events.drop_last());
    }
}

/// A request that misses, is taken and decoded ends in one of the two end
/// states, by the outcome of the decode.
pub proof fn lemma_request_runs_to_an_end(made: bool)
    ensures
        job_after_all(
            JobState::Unrequested,
            seq![
                JobEvent::Missed,
                JobEvent::Taken,
                if made {
                    JobEvent::Made
                } else {
                    JobEvent::Failed
                },
            ],
        ) == if made {
            JobState::Completed
        } else {
            JobState::Degraded
        },
{
    let last = if made {
        JobEvent::Made
    } else {
        JobEvent::Failed
    };
    let all = seq![JobEvent::Missed, JobEvent::Taken, last];
    let two = seq![JobEvent::Missed, JobEvent::Taken];
    let one = seq![JobEvent::Missed];
    assert(all.drop_last() =~= two);
    assert(two.drop_last() =~= one);
    assert(one.drop_last() =~= Seq::<JobEvent>::empty());
    assert(job_after_all(JobState::Unrequested, Seq::<JobEvent>::empty())
        == JobState::Unrequested);
    assert(one.last() == JobEvent::Missed);
    assert(two.last() == JobEvent::Taken);
    assert(all.last() == last);
    assert(job_after_all(JobState::Unrequested, one) == JobState::Enqueued);
    assert(job_after_all(JobState::Unrequested, two) == JobState::Processing);
}

} // verus!
