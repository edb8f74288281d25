//! The segment executor's side of a plan: the jobs that a plan is turned
//! into, the states that a job goes through, and what is reported of the
//! jobs once they have ended.

use vstd::prelude::*;
use hyper::Url;
use crate::dl::{Download, DownloadView};
use crate::naming::{law_part_names_differ, part_name, part_name_of, resolved_name};
use crate::range::ByteRange;
use crate::url::path_segments_of;

verus! {

/// One fetch: what to ask for, and where to write what comes back. A job
/// owns copies of all that it needs.
pub struct SegmentJob {
    /// Where the resource is.
    pub url: Url,
    /// The bytes to ask for; `None` asks for the whole resource, with no
    /// `Range` header.
    pub range: Option<ByteRange>,
    /// The file that the body of the response is written to.
    pub destination: String,
}

/// What a `SegmentJob` holds.
pub struct JobView {
    /// Where the resource is.
    pub url: Url,
    /// The bytes to ask for.
    pub range: Option<ByteRange>,
    /// The file that the body of the response is written to.
    pub destination: Seq<char>,
}

impl DeepView for SegmentJob {
    type V = JobView;

    open spec fn deep_view(&self) -> JobView {
        JobView { url: self.url, range: self.range, destination: self.destination@ }
    }
}

/// The jobs of a plan whose download is stored under `name`. A download in
/// one piece has one job, which asks for no range and writes to `name`. A
/// download in segments has one job for each range, in the order of the
/// ranges; the job for the range at place `i` writes to the part of `name`
/// with the number `i + 1`.
pub open spec fn jobs_of(plan: DownloadView, name: Seq<char>) -> Seq<JobView> {
    match plan {
        DownloadView::Full(full) => seq![JobView { url: full.url, range: None, destination: name }],
        DownloadView::Partial(part) => Seq::new(
            part.ranges.len(),
            |i: int|
                JobView {
                    url: part.url,
                    range: Some(part.ranges[i]),
                    destination: part_name_of(name, (i + 1) as nat),
                },
        ),
    }
}

/// Turns a plan into its jobs. The download is stored under the name that
/// the plan resolves to with `default_index`.
pub fn segment_jobs(plan: &Download, default_index: &str) -> (jobs: Vec<SegmentJob>)
    ensures
        jobs.deep_view() == jobs_of(
            plan@,
            resolved_name(plan@.name(), path_segments_of(plan@.url()), default_index@),
        ),
        jobs.len() == plan@.parts(),
{
    let mut jobs: Vec<SegmentJob> = Vec::new();
    match plan {
        Download::Full(full) => {
            let name = full.name(default_index);
            jobs.push(SegmentJob { url: full.url(), range: None, destination: name });
            assert(jobs.deep_view() =~= jobs_of(plan@, name@));
        },
        Download::Partial(part) => {
            let name = part.name(default_index);
            let ranges = part.ranges();
            let mut i: usize = 0;
            while i < ranges.len()
                invariant
                    i <= ranges.len(),
                    plan@ == DownloadView::Partial(part@),
                    ranges@ == part@.ranges,
                    jobs.len() == i,
                    forall|j: int|
                        0 <= j < i ==> (#[trigger] jobs@[j]).deep_view() == jobs_of(plan@, name@)[j],
                decreases ranges.len() - i,
            {
                let destination = part_name(name.as_str(), (i + 1) as u64);
                jobs.push(
                    SegmentJob { url: part.url(), range: Some(ranges[i]), destination: destination },
                );
                i = i + 1;
            }
            assert(jobs.deep_view() =~= jobs_of(plan@, name@));
        },
    }
    jobs
}

/// No two jobs of one plan write to the same file.
pub proof fn law_destinations_differ(plan: DownloadView, name: Seq<char>, i: int, j: int)
    requires
        0 <= i < j < jobs_of(plan, name).len(),
    ensures
        jobs_of(plan, name)[i].destination != jobs_of(plan, name)[j].destination,
{
    law_part_names_differ(name, (i + 1) as nat, (j + 1) as nat);
}

/// A plan has as many jobs as it has pieces, and only the jobs of a plan in
/// segments ask for a range.
pub proof fn law_jobs_follow_plan(plan: DownloadView, name: Seq<char>)
    ensures
        jobs_of(plan, name).len() == plan.parts(),
        forall|i: int|
            0 <= i < jobs_of(plan, name).len() ==> ((#[trigger] jobs_of(plan, name)[i]).range
                is Some <==> plan is Partial),
{
}

/// The headers of a request: the preference for content that is not
/// encoded, always; and the range, where one is asked for.
pub open spec fn request_headers_of(range: Option<ByteRange>) -> Seq<(Seq<char>, Seq<char>)> {
    match range {
        Some(range) => seq![
            ("Accept-Encoding"@, "identity"@),
            ("Range"@, range.header_text()),
        ],
        None => seq![("Accept-Encoding"@, "identity"@)],
    }
}

/// The headers of a request, each as its name and its value. The probe
/// asks for no range.
pub fn request_headers(range: Option<ByteRange>) -> (headers: Vec<(String, String)>)
    ensures
        headers.deep_view() == request_headers_of(range),
{
    let mut headers: Vec<(String, String)> = Vec::new();
    headers.push((String::from_str("Accept-Encoding"), String::from_str("identity")));
    match range {
        Some(range) => {
            headers.push((String::from_str("Range"), range.header_value()));
        },
        None => {},
    }
    assert(headers.deep_view() =~= request_headers_of(range));
    headers
}

impl SegmentJob {
    /// The headers of the job's request.
    pub fn request_headers(&self) -> (headers: Vec<(String, String)>)
        ensures
            headers.deep_view() == request_headers_of(self.range),
    {
        request_headers(self.range)
    }
}

/// The request of a job has a `Range` header exactly if the plan is in
/// segments, and then it asks for the job's range.
pub proof fn law_range_header_only_for_segments(plan: DownloadView, name: Seq<char>, i: int)
    requires
        0 <= i < jobs_of(plan, name).len(),
    ensures
        plan is Full ==> request_headers_of(jobs_of(plan, name)[i].range) == seq![
            ("Accept-Encoding"@, "identity"@),
        ],
        plan matches DownloadView::Partial(part) ==> request_headers_of(
            jobs_of(plan, name)[i].range,
        ) == seq![("Accept-Encoding"@, "identity"@), ("Range"@, part.ranges[i].header_text())],
{
}

/// Why a job failed.
#[derive(Clone, Copy, Debug, PartialEq, Eq, Structural)]
pub enum JobFailure {
    /// The connection, the request or the transfer of the body failed.
    SegmentFetch,
    /// The destination could not be created or written.
    FileSystem,
}

/// Where a job stands.
#[derive(Clone, Copy, Debug, PartialEq, Eq, Structural)]
pub enum JobState {
    /// Handed to the pool, not started yet.
    Queued,
    /// At work.
    Running,
    /// Ended, with the body written to the destination.
    Completed,
    /// Ended without success.
    Failed(JobFailure),
}

/// What happens to a job.
#[derive(Clone, Copy, Debug, PartialEq, Eq, Structural)]
pub enum JobEvent {
    /// A worker of the pool took the job up.
    Started,
    /// The body was written to the end.
    Finished,
    /// The fetch or the writing failed.
    Broke(JobFailure),
}

impl JobState {
    /// The state after an event. A queued job starts; a running job ends,
    /// well or not; every other event leaves the state as it is.
    pub open spec fn after(self, event: JobEvent) -> JobState {
        match (self, event) {
            (JobState::Queued, JobEvent::Started) => JobState::Running,
            (JobState::Running, JobEvent::Finished) => JobState::Completed,
            (JobState::Running, JobEvent::Broke(failure)) => JobState::Failed(failure),
            _ => self,
        }
    }

    /// Whether the job has ended.
    pub open spec fn ended(self) -> bool {
        self is Completed || self is Failed
    }

    /// The state after an event.
    pub fn advance(self, event: JobEvent) -> (next: JobState)
        ensures
            next == self.after(event),
    {
        match (self, event) {
            (JobState::Queued, JobEvent::Started) => JobState::Running,
            (JobState::Running, JobEvent::Finished) => JobState::Completed,
            (JobState::Running, JobEvent::Broke(failure)) => JobState::Failed(failure),
            _ => self,
        }
    }

    /// Whether the job has ended.
    pub fn has_ended(&self) -> (r: bool)
        ensures
            r == self.ended(),
    {
        match self {
            JobState::Completed => true,
            JobState::Failed(_) => true,
            _ => false,
        }
    }
}

/// A job that has ended stays as it is, and no job goes back to the queue.
pub proof fn law_ended_jobs_stay(state: JobState, event: JobEvent)
    ensures
        state.ended() ==> state.after(event) == state,
        state.after(event) is Queued ==> state is Queued,
{
}

/// The places of the failed jobs among `states`, in ascending order.
pub open spec fn failed_places(states: Seq<JobState>) -> Seq<int>
    decreases states.len(),
{
    if states.len() == 0 {
        Seq::empty()
    } else if states.last() is Failed {
        failed_places(states.drop_last()).push(states.len() - 1)
    } else {
        failed_places(states.drop_last())
    }
}

/// Which jobs failed: their places in `states`, in ascending order.
pub fn failed_jobs(states: &Vec<JobState>) -> (failed: Vec<usize>)
    ensures
        failed@.map_values(|place: usize| place as int) == failed_places(states@),
{
    let mut failed: Vec<usize> = Vec::new();
    let mut i: usize = 0;
    assert(states@.take(0) =~= Seq::empty());
    while i < states.len()
        invariant
            i <= states.len(),
            failed@.map_values(|place: usize| place as int) == failed_places(states@.take(i as int)),
        decreases states.len() - i,
    {
        let ghost before = failed@;
        assert(states@.take(i + 1).drop_last() =~= states@.take(i as int));
        match states[i] {
            JobState::Failed(_) => {
                failed.push(i);
                assert(failed@.map_values(|place: usize| place as int) =~= before.map_values(
                    |place: usize| place as int,
                ).push(i as int));
            },
            _ => {},
        }
        i = i + 1;
    }
    assert(states@.take(i as int) =~= states@);
    failed
}

/// A job is among the failed exactly if its state is `Failed`.
pub proof fn law_failed_places(states: Seq<JobState>, place: int)
    ensures
        failed_places(states).contains(place) <==> 0 <= place < states.len()
            && states[place] is Failed,
    decreases states.len(),
{
    if states.len() > 0 {
        let rest = states.drop_last();
        law_failed_places(rest, place);
        if states.last() is Failed {
            let found = failed_places(rest).push(states.len() - 1);
            if found.contains(place) {
                let k = choose|k: int| 0 <= k < found.len() && found[k] == place;
                if k < found.len() - 1 {
                    assert(failed_places(rest)[k] == place);
                }
            }
            if 0 <= place < states.len() && states[place] is Failed {
                if place == states.len() - 1 {
                    assert(found[found.len() - 1] == place);
                } else {
                    let k = choose|k: int|
                        0 <= k < failed_places(rest).len() && failed_places(rest)[k] == place;
                    assert(found[k] == place);
                }
            }
        }
    }
}

} // verus!
