use hyper::header::{AcceptEncoding, ByteRangeSpec, Encoding, Quality, QualityItem, Range};
use hyper::Url;
use rangedl::dl::Download;
use rangedl::executor::{
    failed_jobs, request_headers, segment_jobs, JobEvent, JobFailure, JobState, SegmentJob,
};
use rangedl::range::ByteRange;

#[test]
fn a_job_runs_and_ends() {
    let running = JobState::Queued.advance(JobEvent::Started);
    assert_eq!(running, JobState::Running);
    assert_eq!(running.advance(JobEvent::Finished), JobState::Completed);
    assert_eq!(
        running.advance(JobEvent::Broke(JobFailure::SegmentFetch)),
        JobState::Failed(JobFailure::SegmentFetch)
    );
    assert_eq!(
        running.advance(JobEvent::Broke(JobFailure::FileSystem)),
        JobState::Failed(JobFailure::FileSystem)
    );
}

#[test]
fn a_queued_job_only_starts() {
    assert_eq!(JobState::Queued.advance(JobEvent::Finished), JobState::Queued);
    assert_eq!(
        JobState::Queued.advance(JobEvent::Broke(JobFailure::SegmentFetch)),
        JobState::Queued
    );
    assert_eq!(JobState::Running.advance(JobEvent::Started), JobState::Running);
}

#[test]
fn an_ended_job_stays_as_it_is() {
    let events = [
        JobEvent::Started,
        JobEvent::Finished,
        JobEvent::Broke(JobFailure::SegmentFetch),
        JobEvent::Broke(JobFailure::FileSystem),
    ];
    let ended = [
        JobState::Completed,
        JobState::Failed(JobFailure::SegmentFetch),
        JobState::Failed(JobFailure::FileSystem),
    ];
    for state in ended {
        assert!(state.has_ended());
        for event in events {
            assert_eq!(state.advance(event), state);
        }
    }
    for state in [JobState::Queued, JobState::Running] {
        assert!(!state.has_ended());
        for event in events {
            assert!(state == JobState::Queued || state.advance(event) != JobState::Queued);
        }
    }
}

#[test]
fn one_failed_segment_of_four() {
    let url = Url::parse("https://example.com/a/b/file.zip").unwrap();
    let ranges = vec![
        ByteRange::FromTo(0, 250),
        ByteRange::FromTo(251, 500),
        ByteRange::FromTo(501, 750),
        ByteRange::AllFrom(751),
    ];
    let jobs = segment_jobs(&Download::new(url, None, Some(ranges)), "index.html");
    assert_eq!(jobs.len(), 4);
    let mut states: Vec<JobState> = jobs.iter().map(|_| JobState::Queued).collect();
    for state in states.iter_mut() {
        *state = state.advance(JobEvent::Started);
    }
    for (place, state) in states.iter_mut().enumerate() {
        let event = if place == 2 {
            JobEvent::Broke(JobFailure::SegmentFetch)
        } else {
            JobEvent::Finished
        };
        *state = state.advance(event);
    }
    assert_eq!(
        states,
        vec![
            JobState::Completed,
            JobState::Completed,
            JobState::Failed(JobFailure::SegmentFetch),
            JobState::Completed,
        ]
    );
    let failed = failed_jobs(&states);
    assert_eq!(failed, vec![2]);
    assert_eq!(jobs[failed[0]].destination, "file.zip.part3");
}

#[test]
fn the_failed_jobs_in_order() {
    let fetch = JobState::Failed(JobFailure::SegmentFetch);
    let file = JobState::Failed(JobFailure::FileSystem);
    assert_eq!(failed_jobs(&vec![]), Vec::<usize>::new());
    assert_eq!(failed_jobs(&vec![JobState::Completed, JobState::Running]), Vec::<usize>::new());
    assert_eq!(failed_jobs(&vec![fetch]), vec![0]);
    assert_eq!(
        failed_jobs(&vec![file, JobState::Completed, fetch, JobState::Queued, file]),
        vec![0, 2, 4]
    );
}

#[test]
fn the_headers_of_a_request() {
    let header = |name: &str, value: &str| (name.to_string(), value.to_string());
    let job = |range| SegmentJob {
        url: Url::parse("https://example.com/").unwrap(),
        range: range,
        destination: "x".to_string(),
    };
    assert_eq!(job(None).request_headers(), vec![header("Accept-Encoding", "identity")]);
    assert_eq!(request_headers(None), vec![header("Accept-Encoding", "identity")]);
    assert_eq!(
        job(Some(ByteRange::FromTo(0, 250))).request_headers(),
        vec![header("Accept-Encoding", "identity"), header("Range", "bytes=0-250")]
    );
    assert_eq!(
        request_headers(Some(ByteRange::AllFrom(751))),
        vec![header("Accept-Encoding", "identity"), header("Range", "bytes=751-")]
    );
}

#[test]
fn the_preference_for_identity_is_what_hyper_writes() {
    let identity = AcceptEncoding(vec![QualityItem::new(Encoding::Identity, Quality(1000))]);
    assert_eq!(request_headers(None)[0].1, identity.to_string());
}

#[test]
fn the_bytes_that_a_range_holds() {
    assert_eq!(ByteRange::FromTo(0, 250).byte_count(1000), 251);
    assert_eq!(ByteRange::FromTo(251, 500).byte_count(1000), 250);
    assert_eq!(ByteRange::AllFrom(751).byte_count(1000), 249);
    assert_eq!(ByteRange::FromTo(0, 1000).byte_count(1000), 1000);
    assert_eq!(ByteRange::FromTo(0, u64::MAX).byte_count(u64::MAX), u64::MAX);
    assert_eq!(ByteRange::FromTo(999, 999).byte_count(1000), 1);
    assert_eq!(ByteRange::FromTo(1000, 1200).byte_count(1000), 0);
    assert_eq!(ByteRange::FromTo(5, 4).byte_count(1000), 0);
    assert_eq!(ByteRange::AllFrom(0).byte_count(1000), 1000);
    assert_eq!(ByteRange::AllFrom(1000).byte_count(1000), 0);
    assert_eq!(ByteRange::AllFrom(0).byte_count(0), 0);
}

#[test]
fn the_ranges_of_a_plan_hold_the_whole_resource() {
    for len in 0..150u64 {
        for sections in 1..40u64 {
            let ranges = rangedl::planner::plan_ranges(len, sections);
            assert_eq!(ranges.iter().map(|range| range.byte_count(len)).sum::<u64>(), len);
        }
    }
}

#[test]
fn the_range_header_of_a_range() {
    assert_eq!(ByteRange::FromTo(0, 0).header_value(), "bytes=0-0");
    assert_eq!(ByteRange::FromTo(251, 500).header_value(), "bytes=251-500");
    assert_eq!(ByteRange::AllFrom(0).header_value(), "bytes=0-");
    assert_eq!(
        ByteRange::FromTo(0, u64::MAX).header_value(),
        "bytes=0-18446744073709551615"
    );
    assert_eq!(ByteRange::FromTo(7, 9).first_byte(), 7);
    assert_eq!(ByteRange::AllFrom(10).first_byte(), 10);
}

#[test]
fn the_range_header_is_what_hyper_writes() {
    for (mine, theirs) in [
        (ByteRange::FromTo(0, 250), ByteRangeSpec::FromTo(0, 250)),
        (ByteRange::FromTo(251, 500), ByteRangeSpec::FromTo(251, 500)),
        (ByteRange::AllFrom(751), ByteRangeSpec::AllFrom(751)),
    ] {
        assert_eq!(mine.header_value(), Range::Bytes(vec![theirs]).to_string());
    }
}

#[test]
fn no_two_jobs_write_to_one_file() {
    let url = Url::parse("https://example.com/file").unwrap();
    let ranges: Vec<ByteRange> = rangedl::planner::plan_ranges(5000, 37);
    let jobs = segment_jobs(&Download::new(url, None, Some(ranges)), "index.html");
    let mut destinations: Vec<&str> = jobs.iter().map(|job| job.destination.as_str()).collect();
    let count = destinations.len();
    destinations.sort();
    destinations.dedup();
    assert_eq!(destinations.len(), count);
}
